//! Code generation: turn parsed [`Item`]s into a binary image.
//!
//! Assembly is two-pass:
//! 1. **Pass one** walks the items assigning an address to every label and
//!    recording `.equ` constants, using only instruction/data *sizes* (which
//!    never depend on a symbol's value).
//! 2. **Pass two** walks the items again and emits bytes, resolving symbol
//!    references against the now-complete symbol table.
//!
//! Addresses map directly onto image offsets (the image is meant to be loaded
//! at `0x0000`). A `.org` pads forward with zeroes; jumping backwards is an
//! error.
use vstd::prelude::*;
use vstd::utf8::encode_utf8;
use crate::assembler::ast::{
    args_view, items_view, operands_view, DataArg, DataArgView, DataKind, Item, ItemView, Operand,
    OperandView,
};
use crate::assembler::error::{AsmError, AsmResult};
use crate::assembler::instruction::{opcode_named, pack_regs, Opcode, OperandFormat};
use crate::assembler::symbol_table::{lookup, SymbolTable};
use crate::instruction::format_len;
use crate::text::concat3;

verus! {

/// The result of assembling a source file.
pub struct Assembled {
    /// The binary image, starting at address 0.
    pub image: Vec<u8>,
    /// The symbol table (labels + constants), for an optional map file.
    pub symbols: SymbolTable,
}

/// Number of operands an instruction of format `f` takes.
pub open spec fn arity(f: OperandFormat) -> nat {
    match f {
        OperandFormat::NoOperands => 0,
        OperandFormat::Reg => 1,
        OperandFormat::RegReg => 2,
        OperandFormat::RegImm => 2,
        OperandFormat::Imm => 1,
    }
}

/// The encoded length of an instruction, or `None` for an unknown mnemonic
/// or a wrong operand count.
pub open spec fn instr_len_spec(mnemonic: Seq<char>, ops: Seq<OperandView>) -> Option<nat> {
    match opcode_named(mnemonic) {
        None => None,
        Some(op) => if ops.len() != arity(op.format_spec()) {
            None
        } else {
            Some(format_len(op.format_spec()))
        },
    }
}

/// Bytes one data argument takes.
pub open spec fn arg_len(kind: DataKind, a: DataArgView) -> nat {
    match (kind, a) {
        (DataKind::Word, _) => 2,
        (_, DataArgView::Str(s)) => encode_utf8(s).len(),
        _ => 1,
    }
}

/// Bytes a data directive takes.
pub open spec fn data_len_spec(kind: DataKind, args: Seq<DataArgView>) -> nat
    decreases args.len(),
{
    if args.len() == 0 {
        0
    } else {
        data_len_spec(kind, args.drop_last()) + arg_len(kind, args.last())
    }
}

/// Address after an item, given the address before it.
pub open spec fn item_end(it: ItemView, addr: int) -> Option<int> {
    match it {
        ItemView::Label(_) | ItemView::Equ { .. } => Some(addr),
        ItemView::Org { addr: a, .. } => if (a as int) < addr {
            None
        } else {
            Some(a as int)
        },
        ItemView::Instruction { mnemonic, operands, .. } => match instr_len_spec(mnemonic, operands) {
            None => None,
            Some(n) => Some(addr + n),
        },
        ItemView::Data { kind, args, .. } => Some(addr + data_len_spec(kind, args)),
    }
}

/// The line an error about an item is reported on.
pub open spec fn item_line(it: ItemView) -> int {
    match it {
        ItemView::Label(_) => 0,
        ItemView::Equ { line, .. } => line,
        ItemView::Org { line, .. } => line,
        ItemView::Instruction { line, .. } => line,
        ItemView::Data { line, .. } => line,
    }
}

/// Pass one from item `i` at address `addr` with symbols `syms`: the complete
/// symbol table, or the line of the first error.
pub open spec fn pass_one_from(items: Seq<ItemView>, i: int, addr: int, syms: Seq<(Seq<char>, i64)>) -> Result<Seq<(Seq<char>, i64)>, int>
    decreases items.len() - i,
{
    if i >= items.len() || i < 0 {
        Ok(syms)
    } else {
        let it = items[i];
        let syms2: Option<Seq<(Seq<char>, i64)>> = match it {
            ItemView::Label(name) => if lookup(syms, name) is Some {
                None
            } else {
                Some(syms.push((name, addr as i64)))
            },
            ItemView::Equ { name, value, .. } => if lookup(syms, name) is Some {
                None
            } else {
                Some(syms.push((name, value)))
            },
            _ => Some(syms),
        };
        match syms2 {
            None => Err(item_line(it)),
            Some(s2) => match item_end(it, addr) {
                None => Err(item_line(it)),
                Some(a2) => if a2 > 0x1_0000 {
                    Err(0)
                } else {
                    pass_one_from(items, i + 1, a2, s2)
                },
            },
        }
    }
}

pub open spec fn reg_of_spec(o: OperandView) -> Option<u8> {
    match o {
        OperandView::Reg(r) => Some(r),
        _ => None,
    }
}

pub open spec fn mem_of_spec(o: OperandView) -> Option<u8> {
    match o {
        OperandView::Mem(r) => Some(r),
        _ => None,
    }
}

/// The 16-bit value of an immediate operand, or `None` if it is not an
/// immediate or names an undefined symbol.
pub open spec fn imm_of_spec(o: OperandView, syms: Seq<(Seq<char>, i64)>) -> Option<u16> {
    match o {
        OperandView::Imm(n) => Some(n as u16),
        OperandView::Symbol(name) => match lookup(syms, name) {
            Some(v) => Some(v as u16),
            None => None,
        },
        _ => None,
    }
}

pub open spec fn pack_spec(rd: u8, rs: u8) -> u8 {
    ((rd as int * 16) % 256 + rs as int % 16) as u8
}

/// The register pair of a two-register instruction: loads take `rd, [rs]`,
/// stores take `[rd], rs`, everything else `rd, rs`.
pub open spec fn reg_pair_spec(op: Opcode, ops: Seq<OperandView>) -> Option<(u8, u8)> {
    let (a, b) = if op is Ld || op is Ldb {
        (reg_of_spec(ops[0]), mem_of_spec(ops[1]))
    } else if op is St || op is Stb {
        (mem_of_spec(ops[0]), reg_of_spec(ops[1]))
    } else {
        (reg_of_spec(ops[0]), reg_of_spec(ops[1]))
    };
    match (a, b) {
        (Some(rd), Some(rs)) => Some((rd, rs)),
        _ => None,
    }
}

/// The bytes of an instruction, or `None` if it cannot be encoded.
pub open spec fn encode_instr_spec(mnemonic: Seq<char>, ops: Seq<OperandView>, syms: Seq<(Seq<char>, i64)>) -> Option<Seq<u8>> {
    match opcode_named(mnemonic) {
        None => None,
        Some(op) => if ops.len() != arity(op.format_spec()) {
            None
        } else {
            let b0 = op.byte();
            match op.format_spec() {
                OperandFormat::NoOperands => Some(seq![b0]),
                OperandFormat::Reg => match reg_of_spec(ops[0]) {
                    Some(rd) => Some(seq![b0, pack_spec(rd, 0)]),
                    None => None,
                },
                OperandFormat::RegReg => match reg_pair_spec(op, ops) {
                    Some((rd, rs)) => Some(seq![b0, pack_spec(rd, rs)]),
                    None => None,
                },
                OperandFormat::RegImm => match (reg_of_spec(ops[0]), imm_of_spec(ops[1], syms)) {
                    (Some(rd), Some(imm)) => Some(
                        seq![b0, pack_spec(rd, 0), (imm % 256) as u8, (imm / 256) as u8],
                    ),
                    _ => None,
                },
                OperandFormat::Imm => match imm_of_spec(ops[0], syms) {
                    Some(imm) => Some(seq![b0, (imm % 256) as u8, (imm / 256) as u8]),
                    None => None,
                },
            }
        },
    }
}

/// The bytes of one data argument, or `None` if it cannot be encoded.
pub open spec fn encode_arg_spec(kind: DataKind, a: DataArgView, syms: Seq<(Seq<char>, i64)>) -> Option<Seq<u8>> {
    match (kind, a) {
        (DataKind::Word, DataArgView::Number(n)) => {
            let w = n as u16;
            Some(seq![(w % 256) as u8, (w / 256) as u8])
        },
        (DataKind::Word, DataArgView::Symbol(name)) => match lookup(syms, name) {
            Some(v) => {
                let w = v as u16;
                Some(seq![(w % 256) as u8, (w / 256) as u8])
            },
            None => None,
        },
        (DataKind::Word, DataArgView::Str(_)) => None,
        (_, DataArgView::Number(n)) => Some(seq![n as u8]),
        (_, DataArgView::Symbol(name)) => match lookup(syms, name) {
            Some(v) => Some(seq![v as u8]),
            None => None,
        },
        (_, DataArgView::Str(s)) => Some(encode_utf8(s)),
    }
}

/// The bytes of a data directive, or `None` if an argument cannot be encoded.
pub open spec fn encode_data_spec(kind: DataKind, args: Seq<DataArgView>, syms: Seq<(Seq<char>, i64)>) -> Option<Seq<u8>>
    decreases args.len(),
{
    if args.len() == 0 {
        Some(Seq::empty())
    } else {
        match (encode_data_spec(kind, args.drop_last(), syms), encode_arg_spec(kind, args.last(), syms)) {
            (Some(a), Some(b)) => Some(a + b),
            _ => None,
        }
    }
}

/// Zero padding that brings `image` up to `addr` bytes.
pub open spec fn pad_to(image: Seq<u8>, addr: int) -> Seq<u8> {
    if image.len() < addr {
        image + Seq::new((addr - image.len()) as nat, |k: int| 0u8)
    } else {
        image
    }
}

/// The image after item `it` is emitted onto `image`, or `None` on error.
pub open spec fn emit_item(it: ItemView, syms: Seq<(Seq<char>, i64)>, image: Seq<u8>) -> Option<Seq<u8>> {
    match it {
        ItemView::Label(_) | ItemView::Equ { .. } => Some(image),
        ItemView::Org { addr, .. } => Some(pad_to(image, addr as int)),
        ItemView::Instruction { mnemonic, operands, .. } => match encode_instr_spec(mnemonic, operands, syms) {
            Some(b) => Some(image + b),
            None => None,
        },
        ItemView::Data { kind, args, .. } => match encode_data_spec(kind, args, syms) {
            Some(b) => Some(image + b),
            None => None,
        },
    }
}

/// Pass two from item `i` onto `image`: the final image, or the line of the
/// first error.
pub open spec fn pass_two_from(items: Seq<ItemView>, syms: Seq<(Seq<char>, i64)>, i: int, image: Seq<u8>) -> Result<Seq<u8>, int>
    decreases items.len() - i,
{
    if i >= items.len() || i < 0 {
        Ok(image)
    } else {
        match emit_item(items[i], syms, image) {
            None => Err(item_line(items[i])),
            Some(img) => pass_two_from(items, syms, i + 1, img),
        }
    }
}

/// The image and symbol table of a program, or the line of its first error.
pub open spec fn assemble_spec(items: Seq<ItemView>) -> Result<(Seq<u8>, Seq<(Seq<char>, i64)>), int> {
    match pass_one_from(items, 0, 0, Seq::empty()) {
        Err(l) => Err(l),
        Ok(syms) => match pass_two_from(items, syms, 0, Seq::empty()) {
            Err(l) => Err(l),
            Ok(image) => Ok((image, syms)),
        },
    }
}

/// Assemble a list of items into a binary image.
pub fn assemble(items: &[Item]) -> (r: AsmResult<Assembled>)
    ensures
        match assemble_spec(items_view(items@)) {
            Ok((image, syms)) => r is Ok && r->Ok_0.image@ == image && r->Ok_0.symbols@ == syms,
            Err(l) => r is Err && r->Err_0.line == l,
        },
{
    let symbols = pass_one(items)?;
    let image = pass_two(items, &symbols)?;
    Ok(Assembled { image, symbols })
}

fn err(line: usize, msg: &str) -> (e: AsmError)
    ensures
        e.line == line,
{
    AsmError::new(line, msg.to_owned())
}

/// Pass one: assign addresses to labels and collect constants.
fn pass_one(items: &[Item]) -> (r: AsmResult<SymbolTable>)
    ensures
        match pass_one_from(items_view(items@), 0, 0, Seq::empty()) {
            Ok(syms) => r is Ok && r->Ok_0@ == syms,
            Err(l) => r is Err && r->Err_0.line == l,
        },
{
    let ghost iv = items_view(items@);
    let mut symbols = SymbolTable::new();
    let mut addr: usize = 0;
    let mut i: usize = 0;
    while i < items.len()
        invariant
            iv == items_view(items@),
            i <= items@.len(),
            addr <= 0x1_0000,
            pass_one_from(iv, i as int, addr as int, symbols@) == pass_one_from(iv, 0, 0, Seq::empty()),
        decreases items@.len() - i,
    {
        let item = &items[i];
        match item {
            Item::Label(name) => {
                symbols.define(name.as_str(), addr as i64, 0)?;
            },
            Item::Equ { name, value, line } => {
                symbols.define(name.as_str(), *value, *line)?;
            },
            Item::Org { addr: a, line } => {
                if (*a as usize) < addr {
                    return Err(err(*line, ".org moves backwards"));
                }
                addr = *a as usize;
            },
            Item::Instruction { mnemonic, operands, line } => {
                addr += instruction_length(mnemonic.as_str(), operands.as_slice(), *line)?;
            },
            Item::Data { kind, args, line } => {
                addr = addr.saturating_add(data_length(*kind, args.as_slice(), *line));
            },
        }
        if addr > 0x1_0000 {
            return Err(err(0, "program exceeds 64 KiB address space"));
        }
        i += 1;
    }
    Ok(symbols)
}

/// Pass two: emit bytes.
fn pass_two(items: &[Item], symbols: &SymbolTable) -> (r: AsmResult<Vec<u8>>)
    ensures
        match pass_two_from(items_view(items@), symbols@, 0, Seq::empty()) {
            Ok(image) => r is Ok && r->Ok_0@ == image,
            Err(l) => r is Err && r->Err_0.line == l,
        },
{
    let ghost iv = items_view(items@);
    let mut image: Vec<u8> = Vec::new();
    let mut i: usize = 0;
    while i < items.len()
        invariant
            iv == items_view(items@),
            i <= items@.len(),
            pass_two_from(iv, symbols@, i as int, image@) == pass_two_from(iv, symbols@, 0, Seq::empty()),
        decreases items@.len() - i,
    {
        let item = &items[i];
        match item {
            Item::Label(_) | Item::Equ { .. } => {},
            Item::Org { addr, .. } => {
                let target = *addr as usize;
                let ghost before = image@;
                if image.len() < target {
                    assert(image@ =~= before + Seq::new(0, |k: int| 0u8));
                    while image.len() < target
                        invariant
                            before.len() <= image@.len() <= target,
                            image@ == before + Seq::new((image@.len() - before.len()) as nat, |k: int| 0u8),
                        decreases target - image@.len(),
                    {
                        image.push(0);
                        assert(image@ =~= before + Seq::new((image@.len() - before.len()) as nat, |k: int| 0u8));
                    }
                }
            },
            Item::Instruction { mnemonic, operands, line } => {
                encode_instruction(mnemonic.as_str(), operands.as_slice(), symbols, *line, &mut image)?;
            },
            Item::Data { kind, args, line } => {
                encode_data(*kind, args.as_slice(), symbols, *line, &mut image)?;
            },
        }
        i += 1;
    }
    Ok(image)
}

/// Compute the encoded length of an instruction (pass one).
fn instruction_length(mnemonic: &str, operands: &[Operand], line: usize) -> (r: AsmResult<usize>)
    ensures
        match instr_len_spec(mnemonic@, operands_view(operands@)) {
            Some(n) => r is Ok && r->Ok_0 == n,
            None => r is Err && r->Err_0.line == line,
        },
{
    let opcode = lookup_opcode(mnemonic, line)?;
    check_arity(opcode, operands, line)?;
    Ok(opcode.length())
}

/// Compute the encoded length of a data directive (pass one), capped at the
/// largest `usize`.
fn data_length(kind: DataKind, args: &[DataArg], _line: usize) -> (n: usize)
    ensures
        n == if data_len_spec(kind, args_view(args@)) <= usize::MAX {
            data_len_spec(kind, args_view(args@))
        } else {
            usize::MAX as nat
        },
{
    let mut len: usize = 0;
    let mut i: usize = 0;
    while i < args.len()
        invariant
            i <= args@.len(),
            len == if data_len_spec(kind, args_view(args@.take(i as int))) <= usize::MAX {
                data_len_spec(kind, args_view(args@.take(i as int)))
            } else {
                usize::MAX as nat
            },
        decreases args@.len() - i,
    {
        let n: usize = match (kind, &args[i]) {
            (DataKind::Word, _) => 2,
            (_, DataArg::Str(s)) => s.as_str().as_bytes().len(),
            (_, _) => 1,
        };
        assert(args_view(args@.take(i + 1)).drop_last() =~= args_view(args@.take(i as int)));
        assert(args_view(args@.take(i + 1)).last() == args@[i as int]@);
        assert(data_len_spec(kind, args_view(args@.take(i + 1))) == data_len_spec(
            kind,
            args_view(args@.take(i as int)),
        ) + arg_len(kind, args@[i as int]@));
        len = len.saturating_add(n);
        i += 1;
    }
    assert(args@.take(i as int) =~= args@);
    len
}

fn lookup_opcode(mnemonic: &str, line: usize) -> (r: AsmResult<Opcode>)
    ensures
        match opcode_named(mnemonic@) {
            Some(op) => r is Ok && r->Ok_0 == op,
            None => r is Err && r->Err_0.line == line,
        },
{
    match Opcode::from_mnemonic(mnemonic) {
        Some(op) => Ok(op),
        None => Err(AsmError::new(line, concat3("unknown instruction '", mnemonic, "'"))),
    }
}

/// Validate operand count against the opcode's format.
fn check_arity(opcode: Opcode, operands: &[Operand], line: usize) -> (r: AsmResult<()>)
    ensures
        if operands@.len() == arity(opcode.format_spec()) {
            r is Ok
        } else {
            r is Err && r->Err_0.line == line
        },
{
    let expected: usize = match opcode.format() {
        OperandFormat::NoOperands => 0,
        OperandFormat::Reg => 1,
        OperandFormat::RegReg => 2,
        OperandFormat::RegImm => 2,
        OperandFormat::Imm => 1,
    };
    if operands.len() != expected {
        return Err(AsmError::new(line, concat3("'", opcode.mnemonic(), "' has the wrong number of operands")));
    }
    Ok(())
}

fn push_bytes(out: &mut Vec<u8>, bs: &[u8])
    ensures
        final(out)@ == old(out)@ + bs@,
{
    let mut i: usize = 0;
    while i < bs.len()
        invariant
            i <= bs@.len(),
            out@ == old(out)@ + bs@.take(i as int),
        decreases bs@.len() - i,
    {
        out.push(bs[i]);
        i += 1;
        assert(out@ =~= old(out)@ + bs@.take(i as int));
    }
    assert(bs@.take(i as int) =~= bs@);
}

fn encode_instruction(
    mnemonic: &str,
    operands: &[Operand],
    symbols: &SymbolTable,
    line: usize,
    out: &mut Vec<u8>,
) -> (r: AsmResult<()>)
    ensures
        match encode_instr_spec(mnemonic@, operands_view(operands@), symbols@) {
            Some(b) => r is Ok && final(out)@ == old(out)@ + b,
            None => r is Err && r->Err_0.line == line,
        },
{
    let ghost ov = operands_view(operands@);
    let opcode = lookup_opcode(mnemonic, line)?;
    check_arity(opcode, operands, line)?;
    let b0 = opcode.as_u8();
    match opcode.format() {
        OperandFormat::NoOperands => {
            out.push(b0);
            assert(out@ =~= old(out)@ + seq![b0]);
        },
        OperandFormat::Reg => {
            let rd = reg_of(&operands[0], line)?;
            out.push(b0);
            out.push(pack_regs(rd, 0));
            assert(out@ =~= old(out)@ + seq![b0, pack_spec(rd, 0)]);
        },
        OperandFormat::RegReg => {
            // Memory-style ops use a [reg] operand in one slot.
            let (rd, rs) = match opcode {
                Opcode::Ld | Opcode::Ldb => (reg_of(&operands[0], line)?, mem_of(&operands[1], line)?),
                Opcode::St | Opcode::Stb => (mem_of(&operands[0], line)?, reg_of(&operands[1], line)?),
                _ => (reg_of(&operands[0], line)?, reg_of(&operands[1], line)?),
            };
            out.push(b0);
            out.push(pack_regs(rd, rs));
            assert(out@ =~= old(out)@ + seq![b0, pack_spec(rd, rs)]);
        },
        OperandFormat::RegImm => {
            let rd = reg_of(&operands[0], line)?;
            let imm = imm_of(&operands[1], symbols, line)?;
            out.push(b0);
            out.push(pack_regs(rd, 0));
            out.push((imm % 256) as u8);
            out.push((imm / 256) as u8);
            assert(out@ =~= old(out)@ + seq![b0, pack_spec(rd, 0), (imm % 256) as u8, (imm / 256) as u8]);
        },
        OperandFormat::Imm => {
            let imm = imm_of(&operands[0], symbols, line)?;
            out.push(b0);
            out.push((imm % 256) as u8);
            out.push((imm / 256) as u8);
            assert(out@ =~= old(out)@ + seq![b0, (imm % 256) as u8, (imm / 256) as u8]);
        },
    }
    Ok(())
}

fn encode_data(
    kind: DataKind,
    args: &[DataArg],
    symbols: &SymbolTable,
    line: usize,
    out: &mut Vec<u8>,
) -> (r: AsmResult<()>)
    ensures
        match encode_data_spec(kind, args_view(args@), symbols@) {
            Some(b) => r is Ok && final(out)@ == old(out)@ + b,
            None => r is Err && r->Err_0.line == line,
        },
{
    let mut i: usize = 0;
    while i < args.len()
        invariant
            i <= args@.len(),
            encode_data_spec(kind, args_view(args@.take(i as int)), symbols@) matches Some(b) && out@ == old(
                out,
            )@ + b,
        decreases args@.len() - i,
    {
        let ghost before = out@;
        assert(args_view(args@.take(i + 1)).drop_last() =~= args_view(args@.take(i as int)));
        assert(args_view(args@.take(i + 1)).last() == args@[i as int]@);
        proof {
            lemma_encode_data_prefix_fails(kind, args_view(args@), symbols@, i + 1);
        }
        match (kind, &args[i]) {
            (DataKind::Word, DataArg::Number(n)) => {
                let w = #[verifier::truncate] (*n as u16);
                out.push((w % 256) as u8);
                out.push((w / 256) as u8);
                assert(out@ =~= before + seq![(w % 256) as u8, (w / 256) as u8]);
            },
            (DataKind::Word, DataArg::Symbol(name)) => {
                let w = #[verifier::truncate] (symbols.resolve(name.as_str(), line)? as u16);
                out.push((w % 256) as u8);
                out.push((w / 256) as u8);
                assert(out@ =~= before + seq![(w % 256) as u8, (w / 256) as u8]);
            },
            (DataKind::Word, DataArg::Str(_)) => {
                return Err(err(line, ".word does not take a string"));
            },
            (_, DataArg::Number(n)) => {
                out.push(#[verifier::truncate] (*n as u8));
                assert(out@ =~= before + seq![*n as u8]);
            },
            (_, DataArg::Symbol(name)) => {
                let v = symbols.resolve(name.as_str(), line)?;
                out.push(#[verifier::truncate] (v as u8));
                assert(out@ =~= before + seq![v as u8]);
            },
            (_, DataArg::Str(s)) => {
                push_bytes(out, s.as_str().as_bytes());
            },
        }
        i += 1;
        assert(out@ =~= old(out)@ + encode_data_spec(kind, args_view(args@.take(i as int)), symbols@).unwrap());
    }
    assert(args@.take(i as int) =~= args@);
    Ok(())
}

/// If the data arguments up to `k` cannot be encoded, neither can all of them.
proof fn lemma_encode_data_prefix_fails(kind: DataKind, args: Seq<DataArgView>, syms: Seq<(Seq<char>, i64)>, k: int)
    requires
        0 <= k <= args.len(),
    ensures
        encode_data_spec(kind, args.take(k), syms) is None ==> encode_data_spec(kind, args, syms) is None,
    decreases args.len() - k,
{
    if k < args.len() {
        assert(args.take(k + 1).drop_last() =~= args.take(k));
        lemma_encode_data_prefix_fails(kind, args, syms, k + 1);
    } else {
        assert(args.take(k) =~= args);
    }
}

fn reg_of(op: &Operand, line: usize) -> (r: AsmResult<u8>)
    ensures
        match reg_of_spec(op@) {
            Some(x) => r is Ok && r->Ok_0 == x,
            None => r is Err && r->Err_0.line == line,
        },
{
    match op {
        Operand::Reg(r) => Ok(*r),
        _ => Err(err(line, "expected a register")),
    }
}

fn mem_of(op: &Operand, line: usize) -> (r: AsmResult<u8>)
    ensures
        match mem_of_spec(op@) {
            Some(x) => r is Ok && r->Ok_0 == x,
            None => r is Err && r->Err_0.line == line,
        },
{
    match op {
        Operand::Mem(r) => Ok(*r),
        _ => Err(err(line, "expected [register]")),
    }
}

fn imm_of(op: &Operand, symbols: &SymbolTable, line: usize) -> (r: AsmResult<u16>)
    ensures
        match imm_of_spec(op@, symbols@) {
            Some(x) => r is Ok && r->Ok_0 == x,
            None => r is Err && r->Err_0.line == line,
        },
{
    match op {
        Operand::Imm(n) => Ok(#[verifier::truncate] (*n as u16)),
        Operand::Symbol(name) => Ok(#[verifier::truncate] (symbols.resolve(name.as_str(), line)? as u16)),
        _ => Err(err(line, "expected an immediate")),
    }
}

} // verus!
