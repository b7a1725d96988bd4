//! Opcode table for the custom CPU ISA.
use vstd::prelude::*;
use crate::text::chars_of;
use crate::text::chars_eq;

pub use crate::instruction::OperandFormat;

verus! {

/// Pack two 4-bit register indices into one byte: high nibble = rd, low nibble = rs.
pub fn pack_regs(rd: u8, rs: u8) -> (b: u8)
    ensures
        b == ((rd as int * 16) % 256 + rs as int % 16),
{
    assert(((rd << 4u8) | (rs & 0x0Fu8)) == ((rd as int * 16) % 256 + rs as int % 16) as u8) by (bit_vector);
    (rd << 4) | (rs & 0x0F)
}

/// Whether a string slice holds exactly the characters of `w`.
fn str_is(s: &str, w: &str) -> (r: bool)
    ensures
        r == (s@ == w@),
{
    let a = chars_of(s);
    let b = chars_of(w);
    chars_eq(a.as_slice(), b.as_slice())
}

#[derive(Debug, Clone, Copy, PartialEq, Eq, Structural)]
pub enum Opcode {
    Nop,
    Hlt,
    Mov,
    Ldi,
    Ld,
    St,
    Ldb,
    Stb,
    Add,
    Sub,
    And,
    Or,
    Xor,
    Not,
    Shl,
    Shr,
    Addi,
    Subi,
    Andi,
    Ori,
    Xori,
    Cmp,
    Cmpi,
    Push,
    Pop,
    Call,
    Ret,
    Jmp,
    Jz,
    Jnz,
    Jc,
    Jnc,
    Jn,
    Jnn,
    Jv,
    Jnv,
    Jgt,
    Jlt,
    Jge,
    Jle,
    In,
    Out,
}

/// The opcode a mnemonic names, if any.
pub open spec fn opcode_named(m: Seq<char>) -> Option<Opcode> {
    if m == "nop"@ {
        Some(Opcode::Nop)
    } else if m == "hlt"@ {
        Some(Opcode::Hlt)
    } else if m == "mov"@ {
        Some(Opcode::Mov)
    } else if m == "ldi"@ {
        Some(Opcode::Ldi)
    } else if m == "ld"@ {
        Some(Opcode::Ld)
    } else if m == "st"@ {
        Some(Opcode::St)
    } else if m == "ldb"@ {
        Some(Opcode::Ldb)
    } else if m == "stb"@ {
        Some(Opcode::Stb)
    } else if m == "add"@ {
        Some(Opcode::Add)
    } else if m == "sub"@ {
        Some(Opcode::Sub)
    } else if m == "and"@ {
        Some(Opcode::And)
    } else if m == "or"@ {
        Some(Opcode::Or)
    } else if m == "xor"@ {
        Some(Opcode::Xor)
    } else if m == "not"@ {
        Some(Opcode::Not)
    } else if m == "shl"@ {
        Some(Opcode::Shl)
    } else if m == "shr"@ {
        Some(Opcode::Shr)
    } else if m == "addi"@ {
        Some(Opcode::Addi)
    } else if m == "subi"@ {
        Some(Opcode::Subi)
    } else if m == "andi"@ {
        Some(Opcode::Andi)
    } else if m == "ori"@ {
        Some(Opcode::Ori)
    } else if m == "xori"@ {
        Some(Opcode::Xori)
    } else if m == "cmp"@ {
        Some(Opcode::Cmp)
    } else if m == "cmpi"@ {
        Some(Opcode::Cmpi)
    } else if m == "push"@ {
        Some(Opcode::Push)
    } else if m == "pop"@ {
        Some(Opcode::Pop)
    } else if m == "call"@ {
        Some(Opcode::Call)
    } else if m == "ret"@ {
        Some(Opcode::Ret)
    } else if m == "jmp"@ {
        Some(Opcode::Jmp)
    } else if m == "jz"@ {
        Some(Opcode::Jz)
    } else if m == "jnz"@ {
        Some(Opcode::Jnz)
    } else if m == "jc"@ {
        Some(Opcode::Jc)
    } else if m == "jnc"@ {
        Some(Opcode::Jnc)
    } else if m == "jn"@ {
        Some(Opcode::Jn)
    } else if m == "jnn"@ {
        Some(Opcode::Jnn)
    } else if m == "jv"@ {
        Some(Opcode::Jv)
    } else if m == "jnv"@ {
        Some(Opcode::Jnv)
    } else if m == "jgt"@ {
        Some(Opcode::Jgt)
    } else if m == "jlt"@ {
        Some(Opcode::Jlt)
    } else if m == "jge"@ {
        Some(Opcode::Jge)
    } else if m == "jle"@ {
        Some(Opcode::Jle)
    } else if m == "in"@ {
        Some(Opcode::In)
    } else if m == "out"@ {
        Some(Opcode::Out)
    } else {
        None
    }
}

impl Opcode {
    pub open spec fn byte(self) -> u8 {
        match self {
            Opcode::Nop => 0x00,
            Opcode::Hlt => 0x01,
            Opcode::Mov => 0x02,
            Opcode::Ldi => 0x03,
            Opcode::Ld => 0x04,
            Opcode::St => 0x05,
            Opcode::Ldb => 0x06,
            Opcode::Stb => 0x07,
            Opcode::Add => 0x08,
            Opcode::Sub => 0x09,
            Opcode::And => 0x0A,
            Opcode::Or => 0x0B,
            Opcode::Xor => 0x0C,
            Opcode::Not => 0x0D,
            Opcode::Shl => 0x0E,
            Opcode::Shr => 0x0F,
            Opcode::Addi => 0x10,
            Opcode::Subi => 0x11,
            Opcode::Andi => 0x12,
            Opcode::Ori => 0x13,
            Opcode::Xori => 0x14,
            Opcode::Cmp => 0x15,
            Opcode::Cmpi => 0x16,
            Opcode::Push => 0x20,
            Opcode::Pop => 0x21,
            Opcode::Call => 0x22,
            Opcode::Ret => 0x23,
            Opcode::Jmp => 0x30,
            Opcode::Jz => 0x31,
            Opcode::Jnz => 0x32,
            Opcode::Jc => 0x33,
            Opcode::Jnc => 0x34,
            Opcode::Jn => 0x35,
            Opcode::Jnn => 0x36,
            Opcode::Jv => 0x37,
            Opcode::Jnv => 0x38,
            Opcode::Jgt => 0x39,
            Opcode::Jlt => 0x3A,
            Opcode::Jge => 0x3B,
            Opcode::Jle => 0x3C,
            Opcode::In => 0x40,
            Opcode::Out => 0x41,
        }
    }

    pub open spec fn mnemonic_spec(self) -> Seq<char> {
        match self {
            Opcode::Nop => "nop"@,
            Opcode::Hlt => "hlt"@,
            Opcode::Mov => "mov"@,
            Opcode::Ldi => "ldi"@,
            Opcode::Ld => "ld"@,
            Opcode::St => "st"@,
            Opcode::Ldb => "ldb"@,
            Opcode::Stb => "stb"@,
            Opcode::Add => "add"@,
            Opcode::Sub => "sub"@,
            Opcode::And => "and"@,
            Opcode::Or => "or"@,
            Opcode::Xor => "xor"@,
            Opcode::Not => "not"@,
            Opcode::Shl => "shl"@,
            Opcode::Shr => "shr"@,
            Opcode::Addi => "addi"@,
            Opcode::Subi => "subi"@,
            Opcode::Andi => "andi"@,
            Opcode::Ori => "ori"@,
            Opcode::Xori => "xori"@,
            Opcode::Cmp => "cmp"@,
            Opcode::Cmpi => "cmpi"@,
            Opcode::Push => "push"@,
            Opcode::Pop => "pop"@,
            Opcode::Call => "call"@,
            Opcode::Ret => "ret"@,
            Opcode::Jmp => "jmp"@,
            Opcode::Jz => "jz"@,
            Opcode::Jnz => "jnz"@,
            Opcode::Jc => "jc"@,
            Opcode::Jnc => "jnc"@,
            Opcode::Jn => "jn"@,
            Opcode::Jnn => "jnn"@,
            Opcode::Jv => "jv"@,
            Opcode::Jnv => "jnv"@,
            Opcode::Jgt => "jgt"@,
            Opcode::Jlt => "jlt"@,
            Opcode::Jge => "jge"@,
            Opcode::Jle => "jle"@,
            Opcode::In => "in"@,
            Opcode::Out => "out"@,
        }
    }

    pub open spec fn format_spec(self) -> OperandFormat {
        match self {
            Opcode::Nop => OperandFormat::NoOperands,
            Opcode::Hlt => OperandFormat::NoOperands,
            Opcode::Mov => OperandFormat::RegReg,
            Opcode::Ldi => OperandFormat::RegImm,
            Opcode::Ld => OperandFormat::RegReg,
            Opcode::St => OperandFormat::RegReg,
            Opcode::Ldb => OperandFormat::RegReg,
            Opcode::Stb => OperandFormat::RegReg,
            Opcode::Add => OperandFormat::RegReg,
            Opcode::Sub => OperandFormat::RegReg,
            Opcode::And => OperandFormat::RegReg,
            Opcode::Or => OperandFormat::RegReg,
            Opcode::Xor => OperandFormat::RegReg,
            Opcode::Not => OperandFormat::Reg,
            Opcode::Shl => OperandFormat::RegReg,
            Opcode::Shr => OperandFormat::RegReg,
            Opcode::Addi => OperandFormat::RegImm,
            Opcode::Subi => OperandFormat::RegImm,
            Opcode::Andi => OperandFormat::RegImm,
            Opcode::Ori => OperandFormat::RegImm,
            Opcode::Xori => OperandFormat::RegImm,
            Opcode::Cmp => OperandFormat::RegReg,
            Opcode::Cmpi => OperandFormat::RegImm,
            Opcode::Push => OperandFormat::Reg,
            Opcode::Pop => OperandFormat::Reg,
            Opcode::Call => OperandFormat::Imm,
            Opcode::Ret => OperandFormat::NoOperands,
            Opcode::Jmp => OperandFormat::Imm,
            Opcode::Jz => OperandFormat::Imm,
            Opcode::Jnz => OperandFormat::Imm,
            Opcode::Jc => OperandFormat::Imm,
            Opcode::Jnc => OperandFormat::Imm,
            Opcode::Jn => OperandFormat::Imm,
            Opcode::Jnn => OperandFormat::Imm,
            Opcode::Jv => OperandFormat::Imm,
            Opcode::Jnv => OperandFormat::Imm,
            Opcode::Jgt => OperandFormat::Imm,
            Opcode::Jlt => OperandFormat::Imm,
            Opcode::Jge => OperandFormat::Imm,
            Opcode::Jle => OperandFormat::Imm,
            Opcode::In => OperandFormat::RegImm,
            Opcode::Out => OperandFormat::RegImm,
        }
    }

    pub fn from_mnemonic(m: &str) -> (r: Option<Self>)
        ensures
            r == opcode_named(m@),
    {
        if str_is(m, "nop") {
            return Some(Opcode::Nop);
        }
        if str_is(m, "hlt") {
            return Some(Opcode::Hlt);
        }
        if str_is(m, "mov") {
            return Some(Opcode::Mov);
        }
        if str_is(m, "ldi") {
            return Some(Opcode::Ldi);
        }
        if str_is(m, "ld") {
            return Some(Opcode::Ld);
        }
        if str_is(m, "st") {
            return Some(Opcode::St);
        }
        if str_is(m, "ldb") {
            return Some(Opcode::Ldb);
        }
        if str_is(m, "stb") {
            return Some(Opcode::Stb);
        }
        if str_is(m, "add") {
            return Some(Opcode::Add);
        }
        if str_is(m, "sub") {
            return Some(Opcode::Sub);
        }
        if str_is(m, "and") {
            return Some(Opcode::And);
        }
        if str_is(m, "or") {
            return Some(Opcode::Or);
        }
        if str_is(m, "xor") {
            return Some(Opcode::Xor);
        }
        if str_is(m, "not") {
            return Some(Opcode::Not);
        }
        if str_is(m, "shl") {
            return Some(Opcode::Shl);
        }
        if str_is(m, "shr") {
            return Some(Opcode::Shr);
        }
        if str_is(m, "addi") {
            return Some(Opcode::Addi);
        }
        if str_is(m, "subi") {
            return Some(Opcode::Subi);
        }
        if str_is(m, "andi") {
            return Some(Opcode::Andi);
        }
        if str_is(m, "ori") {
            return Some(Opcode::Ori);
        }
        if str_is(m, "xori") {
            return Some(Opcode::Xori);
        }
        if str_is(m, "cmp") {
            return Some(Opcode::Cmp);
        }
        if str_is(m, "cmpi") {
            return Some(Opcode::Cmpi);
        }
        if str_is(m, "push") {
            return Some(Opcode::Push);
        }
        if str_is(m, "pop") {
            return Some(Opcode::Pop);
        }
        if str_is(m, "call") {
            return Some(Opcode::Call);
        }
        if str_is(m, "ret") {
            return Some(Opcode::Ret);
        }
        if str_is(m, "jmp") {
            return Some(Opcode::Jmp);
        }
        if str_is(m, "jz") {
            return Some(Opcode::Jz);
        }
        if str_is(m, "jnz") {
            return Some(Opcode::Jnz);
        }
        if str_is(m, "jc") {
            return Some(Opcode::Jc);
        }
        if str_is(m, "jnc") {
            return Some(Opcode::Jnc);
        }
        if str_is(m, "jn") {
            return Some(Opcode::Jn);
        }
        if str_is(m, "jnn") {
            return Some(Opcode::Jnn);
        }
        if str_is(m, "jv") {
            return Some(Opcode::Jv);
        }
        if str_is(m, "jnv") {
            return Some(Opcode::Jnv);
        }
        if str_is(m, "jgt") {
            return Some(Opcode::Jgt);
        }
        if str_is(m, "jlt") {
            return Some(Opcode::Jlt);
        }
        if str_is(m, "jge") {
            return Some(Opcode::Jge);
        }
        if str_is(m, "jle") {
            return Some(Opcode::Jle);
        }
        if str_is(m, "in") {
            return Some(Opcode::In);
        }
        if str_is(m, "out") {
            return Some(Opcode::Out);
        }
        None
    }

    pub fn as_u8(self) -> (b: u8)
        ensures
            b == self.byte(),
    {
        match self {
            Opcode::Nop => 0x00,
            Opcode::Hlt => 0x01,
            Opcode::Mov => 0x02,
            Opcode::Ldi => 0x03,
            Opcode::Ld => 0x04,
            Opcode::St => 0x05,
            Opcode::Ldb => 0x06,
            Opcode::Stb => 0x07,
            Opcode::Add => 0x08,
            Opcode::Sub => 0x09,
            Opcode::And => 0x0A,
            Opcode::Or => 0x0B,
            Opcode::Xor => 0x0C,
            Opcode::Not => 0x0D,
            Opcode::Shl => 0x0E,
            Opcode::Shr => 0x0F,
            Opcode::Addi => 0x10,
            Opcode::Subi => 0x11,
            Opcode::Andi => 0x12,
            Opcode::Ori => 0x13,
            Opcode::Xori => 0x14,
            Opcode::Cmp => 0x15,
            Opcode::Cmpi => 0x16,
            Opcode::Push => 0x20,
            Opcode::Pop => 0x21,
            Opcode::Call => 0x22,
            Opcode::Ret => 0x23,
            Opcode::Jmp => 0x30,
            Opcode::Jz => 0x31,
            Opcode::Jnz => 0x32,
            Opcode::Jc => 0x33,
            Opcode::Jnc => 0x34,
            Opcode::Jn => 0x35,
            Opcode::Jnn => 0x36,
            Opcode::Jv => 0x37,
            Opcode::Jnv => 0x38,
            Opcode::Jgt => 0x39,
            Opcode::Jlt => 0x3A,
            Opcode::Jge => 0x3B,
            Opcode::Jle => 0x3C,
            Opcode::In => 0x40,
            Opcode::Out => 0x41,
        }
    }

    pub fn mnemonic(self) -> (s: &'static str)
        ensures
            s@ == self.mnemonic_spec(),
    {
        match self {
            Opcode::Nop => "nop",
            Opcode::Hlt => "hlt",
            Opcode::Mov => "mov",
            Opcode::Ldi => "ldi",
            Opcode::Ld => "ld",
            Opcode::St => "st",
            Opcode::Ldb => "ldb",
            Opcode::Stb => "stb",
            Opcode::Add => "add",
            Opcode::Sub => "sub",
            Opcode::And => "and",
            Opcode::Or => "or",
            Opcode::Xor => "xor",
            Opcode::Not => "not",
            Opcode::Shl => "shl",
            Opcode::Shr => "shr",
            Opcode::Addi => "addi",
            Opcode::Subi => "subi",
            Opcode::Andi => "andi",
            Opcode::Ori => "ori",
            Opcode::Xori => "xori",
            Opcode::Cmp => "cmp",
            Opcode::Cmpi => "cmpi",
            Opcode::Push => "push",
            Opcode::Pop => "pop",
            Opcode::Call => "call",
            Opcode::Ret => "ret",
            Opcode::Jmp => "jmp",
            Opcode::Jz => "jz",
            Opcode::Jnz => "jnz",
            Opcode::Jc => "jc",
            Opcode::Jnc => "jnc",
            Opcode::Jn => "jn",
            Opcode::Jnn => "jnn",
            Opcode::Jv => "jv",
            Opcode::Jnv => "jnv",
            Opcode::Jgt => "jgt",
            Opcode::Jlt => "jlt",
            Opcode::Jge => "jge",
            Opcode::Jle => "jle",
            Opcode::In => "in",
            Opcode::Out => "out",
        }
    }

    pub fn format(self) -> (f: OperandFormat)
        ensures
            f == self.format_spec(),
    {
        match self {
            Opcode::Nop => OperandFormat::NoOperands,
            Opcode::Hlt => OperandFormat::NoOperands,
            Opcode::Mov => OperandFormat::RegReg,
            Opcode::Ldi => OperandFormat::RegImm,
            Opcode::Ld => OperandFormat::RegReg,
            Opcode::St => OperandFormat::RegReg,
            Opcode::Ldb => OperandFormat::RegReg,
            Opcode::Stb => OperandFormat::RegReg,
            Opcode::Add => OperandFormat::RegReg,
            Opcode::Sub => OperandFormat::RegReg,
            Opcode::And => OperandFormat::RegReg,
            Opcode::Or => OperandFormat::RegReg,
            Opcode::Xor => OperandFormat::RegReg,
            Opcode::Not => OperandFormat::Reg,
            Opcode::Shl => OperandFormat::RegReg,
            Opcode::Shr => OperandFormat::RegReg,
            Opcode::Addi => OperandFormat::RegImm,
            Opcode::Subi => OperandFormat::RegImm,
            Opcode::Andi => OperandFormat::RegImm,
            Opcode::Ori => OperandFormat::RegImm,
            Opcode::Xori => OperandFormat::RegImm,
            Opcode::Cmp => OperandFormat::RegReg,
            Opcode::Cmpi => OperandFormat::RegImm,
            Opcode::Push => OperandFormat::Reg,
            Opcode::Pop => OperandFormat::Reg,
            Opcode::Call => OperandFormat::Imm,
            Opcode::Ret => OperandFormat::NoOperands,
            Opcode::Jmp => OperandFormat::Imm,
            Opcode::Jz => OperandFormat::Imm,
            Opcode::Jnz => OperandFormat::Imm,
            Opcode::Jc => OperandFormat::Imm,
            Opcode::Jnc => OperandFormat::Imm,
            Opcode::Jn => OperandFormat::Imm,
            Opcode::Jnn => OperandFormat::Imm,
            Opcode::Jv => OperandFormat::Imm,
            Opcode::Jnv => OperandFormat::Imm,
            Opcode::Jgt => OperandFormat::Imm,
            Opcode::Jlt => OperandFormat::Imm,
            Opcode::Jge => OperandFormat::Imm,
            Opcode::Jle => OperandFormat::Imm,
            Opcode::In => OperandFormat::RegImm,
            Opcode::Out => OperandFormat::RegImm,
        }
    }

    pub fn length(self) -> (n: usize)
        ensures
            n == crate::instruction::format_len(self.format_spec()),
    {
        match self.format() {
            OperandFormat::NoOperands => 1,
            OperandFormat::Reg => 2,
            OperandFormat::RegReg => 2,
            OperandFormat::RegImm => 4,
            OperandFormat::Imm => 3,
        }
    }
}

/// Every opcode's mnemonic names it, and the assembler's table agrees with
/// the emulator's decoder on each opcode's byte and operand format.
pub proof fn lemma_opcode_table(op: Opcode)
    ensures
        opcode_named(op.mnemonic_spec()) == Some(op),
        crate::instruction::opcode_format(op.byte()) == Some(op.format_spec()),
{
    reveal_strlit("nop");
    reveal_strlit("hlt");
    reveal_strlit("mov");
    reveal_strlit("ldi");
    reveal_strlit("ld");
    reveal_strlit("st");
    reveal_strlit("ldb");
    reveal_strlit("stb");
    reveal_strlit("add");
    reveal_strlit("sub");
    reveal_strlit("and");
    reveal_strlit("or");
    reveal_strlit("xor");
    reveal_strlit("not");
    reveal_strlit("shl");
    reveal_strlit("shr");
    reveal_strlit("addi");
    reveal_strlit("subi");
    reveal_strlit("andi");
    reveal_strlit("ori");
    reveal_strlit("xori");
    reveal_strlit("cmp");
    reveal_strlit("cmpi");
    reveal_strlit("push");
    reveal_strlit("pop");
    reveal_strlit("call");
    reveal_strlit("ret");
    reveal_strlit("jmp");
    reveal_strlit("jz");
    reveal_strlit("jnz");
    reveal_strlit("jc");
    reveal_strlit("jnc");
    reveal_strlit("jn");
    reveal_strlit("jnn");
    reveal_strlit("jv");
    reveal_strlit("jnv");
    reveal_strlit("jgt");
    reveal_strlit("jlt");
    reveal_strlit("jge");
    reveal_strlit("jle");
    reveal_strlit("in");
    reveal_strlit("out");
    let m = op.mnemonic_spec();
    assert forall|o: Opcode| o != op implies #[trigger] o.mnemonic_spec() != m by {
        let a = o.mnemonic_spec();
        if a.len() == m.len() {
            if a[0] == m[0] && a[1] == m[1] && (a.len() > 2 ==> a[2] == m[2]) && (a.len() > 3 ==> a[3] == m[3]) {
                assert(false);
            }
        }
    }
    assert(Opcode::Nop.mnemonic_spec() == m ==> Opcode::Nop == op);
    assert(Opcode::Hlt.mnemonic_spec() == m ==> Opcode::Hlt == op);
    assert(Opcode::Mov.mnemonic_spec() == m ==> Opcode::Mov == op);
    assert(Opcode::Ldi.mnemonic_spec() == m ==> Opcode::Ldi == op);
    assert(Opcode::Ld.mnemonic_spec() == m ==> Opcode::Ld == op);
    assert(Opcode::St.mnemonic_spec() == m ==> Opcode::St == op);
    assert(Opcode::Ldb.mnemonic_spec() == m ==> Opcode::Ldb == op);
    assert(Opcode::Stb.mnemonic_spec() == m ==> Opcode::Stb == op);
    assert(Opcode::Add.mnemonic_spec() == m ==> Opcode::Add == op);
    assert(Opcode::Sub.mnemonic_spec() == m ==> Opcode::Sub == op);
    assert(Opcode::And.mnemonic_spec() == m ==> Opcode::And == op);
    assert(Opcode::Or.mnemonic_spec() == m ==> Opcode::Or == op);
    assert(Opcode::Xor.mnemonic_spec() == m ==> Opcode::Xor == op);
    assert(Opcode::Not.mnemonic_spec() == m ==> Opcode::Not == op);
    assert(Opcode::Shl.mnemonic_spec() == m ==> Opcode::Shl == op);
    assert(Opcode::Shr.mnemonic_spec() == m ==> Opcode::Shr == op);
    assert(Opcode::Addi.mnemonic_spec() == m ==> Opcode::Addi == op);
    assert(Opcode::Subi.mnemonic_spec() == m ==> Opcode::Subi == op);
    assert(Opcode::Andi.mnemonic_spec() == m ==> Opcode::Andi == op);
    assert(Opcode::Ori.mnemonic_spec() == m ==> Opcode::Ori == op);
    assert(Opcode::Xori.mnemonic_spec() == m ==> Opcode::Xori == op);
    assert(Opcode::Cmp.mnemonic_spec() == m ==> Opcode::Cmp == op);
    assert(Opcode::Cmpi.mnemonic_spec() == m ==> Opcode::Cmpi == op);
    assert(Opcode::Push.mnemonic_spec() == m ==> Opcode::Push == op);
    assert(Opcode::Pop.mnemonic_spec() == m ==> Opcode::Pop == op);
    assert(Opcode::Call.mnemonic_spec() == m ==> Opcode::Call == op);
    assert(Opcode::Ret.mnemonic_spec() == m ==> Opcode::Ret == op);
    assert(Opcode::Jmp.mnemonic_spec() == m ==> Opcode::Jmp == op);
    assert(Opcode::Jz.mnemonic_spec() == m ==> Opcode::Jz == op);
    assert(Opcode::Jnz.mnemonic_spec() == m ==> Opcode::Jnz == op);
    assert(Opcode::Jc.mnemonic_spec() == m ==> Opcode::Jc == op);
    assert(Opcode::Jnc.mnemonic_spec() == m ==> Opcode::Jnc == op);
    assert(Opcode::Jn.mnemonic_spec() == m ==> Opcode::Jn == op);
    assert(Opcode::Jnn.mnemonic_spec() == m ==> Opcode::Jnn == op);
    assert(Opcode::Jv.mnemonic_spec() == m ==> Opcode::Jv == op);
    assert(Opcode::Jnv.mnemonic_spec() == m ==> Opcode::Jnv == op);
    assert(Opcode::Jgt.mnemonic_spec() == m ==> Opcode::Jgt == op);
    assert(Opcode::Jlt.mnemonic_spec() == m ==> Opcode::Jlt == op);
    assert(Opcode::Jge.mnemonic_spec() == m ==> Opcode::Jge == op);
    assert(Opcode::Jle.mnemonic_spec() == m ==> Opcode::Jle == op);
    assert(Opcode::In.mnemonic_spec() == m ==> Opcode::In == op);
    assert(Opcode::Out.mnemonic_spec() == m ==> Opcode::Out == op);
}

} // verus!
