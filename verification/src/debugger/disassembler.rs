//! Disassembler: converts binary machine code back into assembly mnemonics.
use vstd::prelude::*;
use crate::decoder::build;
use crate::flags::wrap16;
use crate::assembler::instruction::{lemma_opcode_table, opcode_named, Opcode};
use crate::instruction::{decode_bytes, format_of, Instruction, OperandFormat};
use crate::memory::{MemView, Memory};
use crate::text::{chars_of, push_char, push_chars};
use crate::utils::hex::{dec_of, hex_pad, hex16, hex8, push_dec};

verus! {

/// The mnemonic of an instruction.
pub open spec fn mnemonic_of(i: Instruction) -> Seq<char> {
    match i {
        Instruction::Nop { .. } => "nop"@,
        Instruction::Hlt { .. } => "hlt"@,
        Instruction::Mov { .. } => "mov"@,
        Instruction::Ldi { .. } => "ldi"@,
        Instruction::Ld { .. } => "ld"@,
        Instruction::St { .. } => "st"@,
        Instruction::Ldb { .. } => "ldb"@,
        Instruction::Stb { .. } => "stb"@,
        Instruction::Add { .. } => "add"@,
        Instruction::Sub { .. } => "sub"@,
        Instruction::And { .. } => "and"@,
        Instruction::Or { .. } => "or"@,
        Instruction::Xor { .. } => "xor"@,
        Instruction::Mul { .. } => "mul"@,
        Instruction::Div { .. } => "div"@,
        Instruction::Mod { .. } => "mod"@,
        Instruction::Not { .. } => "not"@,
        Instruction::Shl { .. } => "shl"@,
        Instruction::Shr { .. } => "shr"@,
        Instruction::Addi { .. } => "addi"@,
        Instruction::Subi { .. } => "subi"@,
        Instruction::Andi { .. } => "andi"@,
        Instruction::Ori { .. } => "ori"@,
        Instruction::Xori { .. } => "xori"@,
        Instruction::Cmp { .. } => "cmp"@,
        Instruction::Cmpi { .. } => "cmpi"@,
        Instruction::Push { .. } => "push"@,
        Instruction::Pop { .. } => "pop"@,
        Instruction::Call { .. } => "call"@,
        Instruction::Ret { .. } => "ret"@,
        Instruction::Jmp { .. } => "jmp"@,
        Instruction::Jz { .. } => "jz"@,
        Instruction::Jnz { .. } => "jnz"@,
        Instruction::Jc { .. } => "jc"@,
        Instruction::Jnc { .. } => "jnc"@,
        Instruction::Jn { .. } => "jn"@,
        Instruction::Jnn { .. } => "jnn"@,
        Instruction::Jv { .. } => "jv"@,
        Instruction::Jnv { .. } => "jnv"@,
        Instruction::Jgt { .. } => "jgt"@,
        Instruction::Jlt { .. } => "jlt"@,
        Instruction::Jge { .. } => "jge"@,
        Instruction::Jle { .. } => "jle"@,
        Instruction::In { .. } => "in"@,
        Instruction::Out { .. } => "out"@,
    }
}

fn mnemonic(i: &Instruction) -> (m: &'static str)
    ensures
        m@ == mnemonic_of(*i),
{
    match i {
        Instruction::Nop { .. } => "nop",
        Instruction::Hlt { .. } => "hlt",
        Instruction::Mov { .. } => "mov",
        Instruction::Ldi { .. } => "ldi",
        Instruction::Ld { .. } => "ld",
        Instruction::St { .. } => "st",
        Instruction::Ldb { .. } => "ldb",
        Instruction::Stb { .. } => "stb",
        Instruction::Add { .. } => "add",
        Instruction::Sub { .. } => "sub",
        Instruction::And { .. } => "and",
        Instruction::Or { .. } => "or",
        Instruction::Xor { .. } => "xor",
        Instruction::Mul { .. } => "mul",
        Instruction::Div { .. } => "div",
        Instruction::Mod { .. } => "mod",
        Instruction::Not { .. } => "not",
        Instruction::Shl { .. } => "shl",
        Instruction::Shr { .. } => "shr",
        Instruction::Addi { .. } => "addi",
        Instruction::Subi { .. } => "subi",
        Instruction::Andi { .. } => "andi",
        Instruction::Ori { .. } => "ori",
        Instruction::Xori { .. } => "xori",
        Instruction::Cmp { .. } => "cmp",
        Instruction::Cmpi { .. } => "cmpi",
        Instruction::Push { .. } => "push",
        Instruction::Pop { .. } => "pop",
        Instruction::Call { .. } => "call",
        Instruction::Ret { .. } => "ret",
        Instruction::Jmp { .. } => "jmp",
        Instruction::Jz { .. } => "jz",
        Instruction::Jnz { .. } => "jnz",
        Instruction::Jc { .. } => "jc",
        Instruction::Jnc { .. } => "jnc",
        Instruction::Jn { .. } => "jn",
        Instruction::Jnn { .. } => "jnn",
        Instruction::Jv { .. } => "jv",
        Instruction::Jnv { .. } => "jnv",
        Instruction::Jgt { .. } => "jgt",
        Instruction::Jlt { .. } => "jlt",
        Instruction::Jge { .. } => "jge",
        Instruction::Jle { .. } => "jle",
        Instruction::In { .. } => "in",
        Instruction::Out { .. } => "out",
    }
}

/// A mnemonic padded with spaces to five columns.
pub open spec fn pad5(m: Seq<char>) -> Seq<char> {
    if m.len() < 5 {
        m + Seq::new((5 - m.len()) as nat, |k: int| ' ')
    } else {
        m
    }
}

/// A register operand, such as `r13`.
pub open spec fn reg_text(r: u8) -> Seq<char> {
    seq!['r'] + dec_of(r as nat)
}

/// A 16-bit immediate, address or port, such as `0x00FF`.
pub open spec fn imm_text(v: u16) -> Seq<char> {
    seq!['0', 'x'] + hex_pad(v as nat, 4)
}

/// The assembly text of an instruction.
pub open spec fn instr_text(i: Instruction) -> Seq<char> {
    let m = pad5(mnemonic_of(i));
    match i {
        Instruction::Nop | Instruction::Hlt | Instruction::Ret => mnemonic_of(i),
        Instruction::Mov { rd, rs } | Instruction::Add { rd, rs } | Instruction::Sub { rd, rs } | Instruction::And { rd, rs } | Instruction::Or { rd, rs } | Instruction::Xor { rd, rs } | Instruction::Shl { rd, rs } | Instruction::Shr { rd, rs } | Instruction::Cmp { rd, rs } | Instruction::Mul { rd, rs } | Instruction::Div { rd, rs } | Instruction::Mod { rd, rs } => m + reg_text(rd) + seq![',', ' '] + reg_text(rs),
        Instruction::Ld { rd, rs } | Instruction::Ldb { rd, rs } => m + reg_text(rd) + seq![',', ' ', '['] + reg_text(rs) + seq![']'],
        Instruction::St { rd, rs } | Instruction::Stb { rd, rs } => m + seq!['['] + reg_text(rd) + seq![']', ',', ' '] + reg_text(rs),
        Instruction::Not { rd } | Instruction::Pop { rd } => m + reg_text(rd),
        Instruction::Push { rs } => m + reg_text(rs),
        Instruction::Ldi { rd, imm } | Instruction::Addi { rd, imm } | Instruction::Subi { rd, imm } | Instruction::Andi { rd, imm } | Instruction::Ori { rd, imm } | Instruction::Xori { rd, imm } | Instruction::Cmpi { rd, imm } => m + reg_text(rd) + seq![',', ' '] + imm_text(imm),
        Instruction::In { rd, port } => m + reg_text(rd) + seq![',', ' '] + imm_text(port),
        Instruction::Out { rs, port } => m + reg_text(rs) + seq![',', ' '] + imm_text(port),
        Instruction::Call { addr } | Instruction::Jmp { addr } | Instruction::Jz { addr } | Instruction::Jnz { addr } | Instruction::Jc { addr } | Instruction::Jnc { addr } | Instruction::Jn { addr } | Instruction::Jnn { addr } | Instruction::Jv { addr } | Instruction::Jnv { addr } | Instruction::Jgt { addr } | Instruction::Jlt { addr } | Instruction::Jge { addr } | Instruction::Jle { addr } => m + imm_text(addr),
    }
}

/// The text and length of the instruction whose first four bytes are
/// `b` (`.byte 0xNN` and length 1 for an undefined opcode).
pub open spec fn decode_text_spec(b: Seq<u8>) -> (Seq<char>, nat) {
    match decode_bytes(b) {
        Some((i, n)) => (instr_text(i), n),
        None => (seq!['.', 'b', 'y', 't', 'e', ' ', '0', 'x'] + hex_pad(b[0] as nat, 2), 1),
    }
}

/// The four bytes at `addr`, the address wrapping at the end of memory.
pub open spec fn bytes_at(m: MemView, addr: u16) -> Seq<u8> {
    seq![
        m.read_byte(addr),
        m.read_byte(wrap16(addr + 1)),
        m.read_byte(wrap16(addr + 2)),
        m.read_byte(wrap16(addr + 3)),
    ]
}

/// The disassembly entry for the instruction at `a`: its address, bytes and text.
pub open spec fn entry(m: MemView, a: u16) -> (u16, Seq<u8>, Seq<char>) {
    let (text, len) = decode_text_spec(bytes_at(m, a));
    (a, bytes_at(m, a).take(len as int), text)
}

/// The address of the instruction after the one at `a`.
pub open spec fn next_addr(m: MemView, a: u16) -> u16 {
    wrap16(a + decode_text_spec(bytes_at(m, a)).1)
}

/// The disassembly of `count` instructions from `addr`.
pub open spec fn disassembly(m: MemView, addr: u16, count: nat) -> Seq<(u16, Seq<u8>, Seq<char>)>
    decreases count,
{
    if count == 0 {
        Seq::empty()
    } else {
        seq![entry(m, addr)] + disassembly(m, next_addr(m, addr), (count - 1) as nat)
    }
}

/// The address after `n` instructions from `addr`.
pub open spec fn disassembly_end(m: MemView, addr: u16, n: nat) -> u16
    decreases n,
{
    if n == 0 {
        addr
    } else {
        disassembly_end(m, next_addr(m, addr), (n - 1) as nat)
    }
}

fn push_reg(out: &mut String, r: u8)
    ensures
        final(out)@ == old(out)@ + reg_text(r),
{
    push_char(out, 'r');
    push_dec(out, r as u64);
    assert(out@ =~= old(out)@ + reg_text(r));
}

fn push_imm(out: &mut String, v: u16)
    ensures
        final(out)@ == old(out)@ + imm_text(v),
{
    push_chars(out, &['0', 'x']);
    let h = hex16(v);
    let hc = chars_of(h.as_str());
    push_chars(out, hc.as_slice());
    assert(out@ =~= old(out)@ + imm_text(v));
}

fn push_mnemonic(out: &mut String, i: &Instruction, pad: bool)
    ensures
        final(out)@ == old(out)@ + if pad { pad5(mnemonic_of(*i)) } else { mnemonic_of(*i) },
{
    let m = chars_of(mnemonic(i));
    push_chars(out, m.as_slice());
    if pad {
        let mut k: usize = m.len();
        let ghost base = out@;
        while k < 5
            invariant
                m@.len() <= k <= if m@.len() < 5 { 5 } else { m@.len() },
                out@ == base + Seq::new((k - m@.len()) as nat, |j: int| ' '),
            decreases 5 - k,
        {
            push_char(out, ' ');
            k += 1;
            assert(out@ =~= base + Seq::new((k - m@.len()) as nat, |j: int| ' '));
        }
        assert(out@ =~= old(out)@ + pad5(mnemonic_of(*i)));
    }
}

/// The assembly text of an instruction.
pub fn instr_to_text(i: &Instruction) -> (s: String)
    ensures
        s@ == instr_text(*i),
{
    let mut s = String::new();
    match *i {
        Instruction::Nop | Instruction::Hlt | Instruction::Ret => {
            push_mnemonic(&mut s, i, false);
        },
        Instruction::Mov { rd, rs } | Instruction::Add { rd, rs } | Instruction::Sub { rd, rs } | Instruction::And { rd, rs } | Instruction::Or { rd, rs } | Instruction::Xor { rd, rs } | Instruction::Shl { rd, rs } | Instruction::Shr { rd, rs } | Instruction::Cmp { rd, rs } | Instruction::Mul { rd, rs } | Instruction::Div { rd, rs } | Instruction::Mod { rd, rs } => {
            push_mnemonic(&mut s, i, true);
            push_reg(&mut s, rd);
            push_chars(&mut s, &[',', ' ']);
            push_reg(&mut s, rs);
        },
        Instruction::Ld { rd, rs } | Instruction::Ldb { rd, rs } => {
            push_mnemonic(&mut s, i, true);
            push_reg(&mut s, rd);
            push_chars(&mut s, &[',', ' ', '[']);
            push_reg(&mut s, rs);
            push_char(&mut s, ']');
        },
        Instruction::St { rd, rs } | Instruction::Stb { rd, rs } => {
            push_mnemonic(&mut s, i, true);
            push_char(&mut s, '[');
            push_reg(&mut s, rd);
            push_chars(&mut s, &[']', ',', ' ']);
            push_reg(&mut s, rs);
        },
        Instruction::Not { rd } | Instruction::Pop { rd } => {
            push_mnemonic(&mut s, i, true);
            push_reg(&mut s, rd);
        },
        Instruction::Push { rs } => {
            push_mnemonic(&mut s, i, true);
            push_reg(&mut s, rs);
        },
        Instruction::Ldi { rd, imm } | Instruction::Addi { rd, imm } | Instruction::Subi { rd, imm } | Instruction::Andi { rd, imm } | Instruction::Ori { rd, imm } | Instruction::Xori { rd, imm } | Instruction::Cmpi { rd, imm } => {
            push_mnemonic(&mut s, i, true);
            push_reg(&mut s, rd);
            push_chars(&mut s, &[',', ' ']);
            push_imm(&mut s, imm);
        },
        Instruction::In { rd, port } => {
            push_mnemonic(&mut s, i, true);
            push_reg(&mut s, rd);
            push_chars(&mut s, &[',', ' ']);
            push_imm(&mut s, port);
        },
        Instruction::Out { rs, port } => {
            push_mnemonic(&mut s, i, true);
            push_reg(&mut s, rs);
            push_chars(&mut s, &[',', ' ']);
            push_imm(&mut s, port);
        },
        Instruction::Call { addr } | Instruction::Jmp { addr } | Instruction::Jz { addr } | Instruction::Jnz { addr } | Instruction::Jc { addr } | Instruction::Jnc { addr } | Instruction::Jn { addr } | Instruction::Jnn { addr } | Instruction::Jv { addr } | Instruction::Jnv { addr } | Instruction::Jgt { addr } | Instruction::Jlt { addr } | Instruction::Jge { addr } | Instruction::Jle { addr } => {
            push_mnemonic(&mut s, i, true);
            push_imm(&mut s, addr);
        },
    }
    assert(s@ =~= instr_text(*i));
    s
}

/// The text and length of the instruction whose first four bytes are
/// `b0`..`b3`.
pub fn decode_text(b0: u8, b1: u8, b2: u8, b3: u8) -> (r: (String, usize))
    ensures
        r.0@ == decode_text_spec(seq![b0, b1, b2, b3]).0,
        r.1 == decode_text_spec(seq![b0, b1, b2, b3]).1,
{
    let ghost b = seq![b0, b1, b2, b3];
    match format_of(b0) {
        None => {
            let mut s = String::new();
            push_chars(&mut s, &['.', 'b', 'y', 't', 'e', ' ', '0', 'x']);
            let h = hex8(b0);
            let hc = chars_of(h.as_str());
            push_chars(&mut s, hc.as_slice());
            assert(s@ =~= decode_text_spec(b).0);
            (s, 1)
        },
        Some(f) => {
            let (i, n): (Instruction, usize) = match f {
                OperandFormat::NoOperands => (build(b0, b1, 0), 1),
                OperandFormat::Reg | OperandFormat::RegReg => (build(b0, b1, 0), 2),
                OperandFormat::RegImm => (build(b0, b1, (b2 as u16) + 256 * (b3 as u16)), 4),
                OperandFormat::Imm => (build(b0, b1, (b1 as u16) + 256 * (b2 as u16)), 3),
            };
            let ghost d = decode_bytes(b);
            assert(b[0] == b0 && b[1] == b1 && b[2] == b2 && b[3] == b3);
            proof {
                if f == OperandFormat::Imm {
                    assert(crate::instruction::instr_of(b0, b1, ((b1 as u16) + 256 * (b2 as u16)) as u16)
                        == crate::instruction::instr_of(b0, 0, ((b1 as u16) + 256 * (b2 as u16)) as u16));
                }
            }
            (instr_to_text(&i), n)
        },
    }
}

/// Disassemble `count` instructions starting at `addr`: each entry holds the
/// instruction's address, its bytes and its text.
pub fn disassemble(mem: &Memory, addr: u16, count: usize) -> (out: Vec<(u16, Vec<u8>, String)>)
    requires
        mem.wf(),
    ensures
        out@.len() == count,
        forall|k: int| 0 <= k < count ==> {
            let e = #[trigger] disassembly(mem@, addr, count as nat)[k];
            &&& out@[k].0 == e.0
            &&& out@[k].1@ == e.1
            &&& out@[k].2@ == e.2
        },
{
    let mut out: Vec<(u16, Vec<u8>, String)> = Vec::new();
    let mut a = addr;
    let mut done: usize = 0;
    while done < count
        invariant
            mem.wf(),
            done <= count,
            out@.len() == done,
            a == disassembly_end(mem@, addr, done as nat),
            forall|k: int| 0 <= k < done ==> {
                let e = #[trigger] entry(mem@, disassembly_end(mem@, addr, k as nat));
                &&& out@[k].0 == e.0
                &&& out@[k].1@ == e.1
                &&& out@[k].2@ == e.2
            },
        decreases count - done,
    {
        let b0 = mem.read_byte(a);
        let b1 = mem.read_byte(a.wrapping_add(1));
        let b2 = mem.read_byte(a.wrapping_add(2));
        let b3 = mem.read_byte(a.wrapping_add(3));
        let ghost bs = bytes_at(mem@, a);
        assert(seq![b0, b1, b2, b3] =~= bs);
        let (text, len) = decode_text(b0, b1, b2, b3);
        let mut bytes: Vec<u8> = Vec::new();
        let mut j: usize = 0;
        while j < len
            invariant
                len <= 4,
                j <= len,
                bs == seq![b0, b1, b2, b3],
                bytes@ == bs.take(j as int),
            decreases len - j,
        {
            let b = if j == 0 { b0 } else if j == 1 { b1 } else if j == 2 { b2 } else { b3 };
            bytes.push(b);
            j += 1;
            assert(bytes@ =~= bs.take(j as int));
        }
        proof {
            lemma_end_step(mem@, addr, done as nat);
        }
        out.push((a, bytes, text));
        a = a.wrapping_add(len as u16);
        done += 1;
    }
    proof {
        assert forall|k: int| 0 <= k < count implies #[trigger] disassembly(mem@, addr, count as nat)[k]
            == entry(mem@, disassembly_end(mem@, addr, k as nat)) by {
            lemma_disassembly_index(mem@, addr, count as nat, k as nat);
        }
    }
    out
}

/// One more instruction moves on from where `n` instructions ended.
pub proof fn lemma_end_step(m: MemView, addr: u16, n: nat)
    ensures
        disassembly_end(m, addr, n + 1) == next_addr(m, disassembly_end(m, addr, n)),
    decreases n,
{
    if n > 0 {
        lemma_end_step(m, next_addr(m, addr), (n - 1) as nat);
    } else {
        assert(disassembly_end(m, next_addr(m, addr), 0) == next_addr(m, addr));
    }
}

/// Entry `k` of a disassembly is the entry of the instruction `k` steps on.
pub proof fn lemma_disassembly_index(m: MemView, addr: u16, n: nat, k: nat)
    requires
        k < n,
    ensures
        disassembly(m, addr, n).len() == n,
        disassembly(m, addr, n)[k as int] == entry(m, disassembly_end(m, addr, k)),
    decreases n,
{
    if k > 0 {
        lemma_disassembly_index(m, next_addr(m, addr), (n - 1) as nat, (k - 1) as nat);
    } else if n > 1 {
        lemma_disassembly_index(m, next_addr(m, addr), (n - 1) as nat, 0);
    } else {
        assert(disassembly(m, next_addr(m, addr), 0).len() == 0);
    }
}

/// The entries of a disassembly chain: each starts where the one before it
/// ends (its address plus its length, wrapped to 16 bits), and the first is
/// at `addr`.
pub proof fn lemma_disassembly_chain(m: MemView, addr: u16, n: nat, k: nat)
    requires
        k + 1 < n,
    ensures
        disassembly(m, addr, n)[0].0 == addr,
        disassembly(m, addr, n)[k + 1 as int].0 == next_addr(m, disassembly(m, addr, n)[k as int].0),
{
    lemma_disassembly_index(m, addr, n, 0);
    lemma_disassembly_index(m, addr, n, k);
    lemma_disassembly_index(m, addr, n, k + 1);
    lemma_end_step(m, addr, k);
}

/// The disassembler agrees with the CPU's decoder: where the CPU decodes an
/// instruction at `pc`, the disassembly shows that instruction and steps over
/// the same number of bytes.
pub proof fn lemma_disassembly_matches_decoder(m: MemView, pc: u16)
    requires
        m.wf(),
        crate::decoder::decode_spec(m, pc) is Ok,
    ensures
        ({
            let (i, n) = crate::decoder::decode_spec(m, pc)->Ok_0;
            decode_text_spec(bytes_at(m, pc)) == (instr_text(i), n as nat)
        }),
{
    let b = bytes_at(m, pc);
    assert(b[0] == m.read_byte(pc));
    assert(b[1] == m.read_byte(wrap16(pc + 1)));
    assert(b[2] == m.read_byte(wrap16(pc + 2)));
    assert(b[3] == m.read_byte(wrap16(pc + 3)));
    let op = b[0];
    match crate::instruction::opcode_format(op) {
        Some(OperandFormat::RegImm) => {
            assert(wrap16(pc + 2) as int + 1 < 0x1_0000);
            assert(wrap16(wrap16(pc + 2) + 1) == wrap16(pc + 3));
        },
        Some(OperandFormat::Imm) => {
            assert(wrap16(pc + 1) as int + 1 < 0x1_0000);
            assert(wrap16(wrap16(pc + 1) + 1) == wrap16(pc + 2));
            assert(crate::instruction::instr_of(op, b[1], ((b[1] + 256 * b[2]) as u16))
                == crate::instruction::instr_of(op, 0, ((b[1] + 256 * b[2]) as u16)));
        },
        _ => {},
    }
}

/// A disassembly of `n` instructions has `n` entries.
pub proof fn lemma_disassembly_len(m: MemView, addr: u16, n: nat)
    ensures
        disassembly(m, addr, n).len() == n,
    decreases n,
{
    if n > 0 {
        lemma_disassembly_len(m, next_addr(m, addr), (n - 1) as nat);
    }
}

/// Every entry of a disassembly holds at most four bytes.
pub proof fn lemma_disassembly_bytes(m: MemView, addr: u16, n: nat)
    ensures
        forall|j: int| 0 <= j < disassembly(m, addr, n).len() ==> (#[trigger] disassembly(m, addr, n)[j]).1.len() <= 4,
    decreases n,
{
    if n > 0 {
        lemma_disassembly_bytes(m, next_addr(m, addr), (n - 1) as nat);
        let rest = disassembly(m, next_addr(m, addr), (n - 1) as nat);
        let d = disassembly(m, addr, n);
        assert forall|j: int| 0 <= j < d.len() implies (#[trigger] d[j]).1.len() <= 4 by {
            if j > 0 {
                assert(d[j] == rest[j - 1]);
            } else {
                let len = decode_text_spec(bytes_at(m, addr)).1;
                assert(len <= 4);
            }
        }
    }
}

/// The mnemonic shown for an instruction names its opcode: the assembler
/// reads it back as the opcode whose byte the instruction has, so the text
/// assembles to the same opcode. (`mul`, `div` and `mod` have no mnemonic in
/// the assembler.)
pub proof fn lemma_mnemonic_names_opcode(i: Instruction)
    requires
        !(i is Mul || i is Div || i is Mod),
    ensures
        opcode_named(mnemonic_of(i)) matches Some(op) && op.byte() == i.opcode(),
{
    match i {
        Instruction::Nop { .. } => lemma_opcode_table(Opcode::Nop),
        Instruction::Hlt { .. } => lemma_opcode_table(Opcode::Hlt),
        Instruction::Mov { .. } => lemma_opcode_table(Opcode::Mov),
        Instruction::Ldi { .. } => lemma_opcode_table(Opcode::Ldi),
        Instruction::Ld { .. } => lemma_opcode_table(Opcode::Ld),
        Instruction::St { .. } => lemma_opcode_table(Opcode::St),
        Instruction::Ldb { .. } => lemma_opcode_table(Opcode::Ldb),
        Instruction::Stb { .. } => lemma_opcode_table(Opcode::Stb),
        Instruction::Add { .. } => lemma_opcode_table(Opcode::Add),
        Instruction::Sub { .. } => lemma_opcode_table(Opcode::Sub),
        Instruction::And { .. } => lemma_opcode_table(Opcode::And),
        Instruction::Or { .. } => lemma_opcode_table(Opcode::Or),
        Instruction::Xor { .. } => lemma_opcode_table(Opcode::Xor),
        Instruction::Not { .. } => lemma_opcode_table(Opcode::Not),
        Instruction::Shl { .. } => lemma_opcode_table(Opcode::Shl),
        Instruction::Shr { .. } => lemma_opcode_table(Opcode::Shr),
        Instruction::Addi { .. } => lemma_opcode_table(Opcode::Addi),
        Instruction::Subi { .. } => lemma_opcode_table(Opcode::Subi),
        Instruction::Andi { .. } => lemma_opcode_table(Opcode::Andi),
        Instruction::Ori { .. } => lemma_opcode_table(Opcode::Ori),
        Instruction::Xori { .. } => lemma_opcode_table(Opcode::Xori),
        Instruction::Cmp { .. } => lemma_opcode_table(Opcode::Cmp),
        Instruction::Cmpi { .. } => lemma_opcode_table(Opcode::Cmpi),
        Instruction::Push { .. } => lemma_opcode_table(Opcode::Push),
        Instruction::Pop { .. } => lemma_opcode_table(Opcode::Pop),
        Instruction::Call { .. } => lemma_opcode_table(Opcode::Call),
        Instruction::Ret { .. } => lemma_opcode_table(Opcode::Ret),
        Instruction::Jmp { .. } => lemma_opcode_table(Opcode::Jmp),
        Instruction::Jz { .. } => lemma_opcode_table(Opcode::Jz),
        Instruction::Jnz { .. } => lemma_opcode_table(Opcode::Jnz),
        Instruction::Jc { .. } => lemma_opcode_table(Opcode::Jc),
        Instruction::Jnc { .. } => lemma_opcode_table(Opcode::Jnc),
        Instruction::Jn { .. } => lemma_opcode_table(Opcode::Jn),
        Instruction::Jnn { .. } => lemma_opcode_table(Opcode::Jnn),
        Instruction::Jv { .. } => lemma_opcode_table(Opcode::Jv),
        Instruction::Jnv { .. } => lemma_opcode_table(Opcode::Jnv),
        Instruction::Jgt { .. } => lemma_opcode_table(Opcode::Jgt),
        Instruction::Jlt { .. } => lemma_opcode_table(Opcode::Jlt),
        Instruction::Jge { .. } => lemma_opcode_table(Opcode::Jge),
        Instruction::Jle { .. } => lemma_opcode_table(Opcode::Jle),
        Instruction::In { .. } => lemma_opcode_table(Opcode::In),
        Instruction::Out { .. } => lemma_opcode_table(Opcode::Out),
        _ => {},
    }
}

} // verus!
