//! The decoded form of one machine instruction of the 16-bit ISA.
use vstd::prelude::*;

verus! {

/// One instruction, with register indices (0–15), 16-bit immediates,
/// absolute 16-bit addresses and 16-bit I/O port numbers.
#[derive(Debug, Clone, Copy, PartialEq, Eq, Structural)]
pub enum Instruction {
    Nop,
    Hlt,
    Mov { rd: u8, rs: u8 },
    Ldi { rd: u8, imm: u16 },
    Ld { rd: u8, rs: u8 },
    St { rd: u8, rs: u8 },
    Ldb { rd: u8, rs: u8 },
    Stb { rd: u8, rs: u8 },
    Add { rd: u8, rs: u8 },
    Sub { rd: u8, rs: u8 },
    /// `mul rd, rs` (0x17): unsigned product, wrapped to 16 bits.
    Mul { rd: u8, rs: u8 },
    /// `div rd, rs` (0x18): unsigned quotient; 0xFFFF when `rs` is zero.
    Div { rd: u8, rs: u8 },
    /// `mod rd, rs` (0x19): unsigned remainder; `rd` unchanged when `rs` is zero.
    Mod { rd: u8, rs: u8 },
    And { rd: u8, rs: u8 },
    Or { rd: u8, rs: u8 },
    Xor { rd: u8, rs: u8 },
    Not { rd: u8 },
    Shl { rd: u8, rs: u8 },
    Shr { rd: u8, rs: u8 },
    Addi { rd: u8, imm: u16 },
    Subi { rd: u8, imm: u16 },
    Andi { rd: u8, imm: u16 },
    Ori { rd: u8, imm: u16 },
    Xori { rd: u8, imm: u16 },
    Cmp { rd: u8, rs: u8 },
    Cmpi { rd: u8, imm: u16 },
    Push { rs: u8 },
    Pop { rd: u8 },
    Call { addr: u16 },
    Ret,
    Jmp { addr: u16 },
    Jz { addr: u16 },
    Jnz { addr: u16 },
    Jc { addr: u16 },
    Jnc { addr: u16 },
    Jn { addr: u16 },
    Jnn { addr: u16 },
    Jv { addr: u16 },
    Jnv { addr: u16 },
    Jgt { addr: u16 },
    Jlt { addr: u16 },
    Jge { addr: u16 },
    Jle { addr: u16 },
    In { rd: u8, port: u16 },
    Out { rs: u8, port: u16 },
}

} // verus!

verus! {

/// Operand shape of an instruction encoding.
#[derive(Debug, Clone, Copy, PartialEq, Eq, Structural)]
pub enum OperandFormat {
    /// No operands. Instruction is 1 byte.
    NoOperands,
    /// One register. Instruction is 2 bytes (opcode + reg byte).
    Reg,
    /// Two registers. Instruction is 2 bytes (opcode + packed reg byte).
    RegReg,
    /// Register + 16-bit immediate. Instruction is 4 bytes.
    RegImm,
    /// 16-bit immediate only. Instruction is 3 bytes.
    Imm,
}

/// Encoded length in bytes of an instruction of format `f`.
pub open spec fn format_len(f: OperandFormat) -> nat {
    match f {
        OperandFormat::NoOperands => 1,
        OperandFormat::Reg => 2,
        OperandFormat::RegReg => 2,
        OperandFormat::RegImm => 4,
        OperandFormat::Imm => 3,
    }
}

/// The operand format of each opcode of the ISA; `None` for an undefined opcode.
pub open spec fn opcode_format(op: u8) -> Option<OperandFormat> {
    if op == 0x00 || op == 0x01 || op == 0x23 {
        Some(OperandFormat::NoOperands)
    } else if op == 0x0D || op == 0x20 || op == 0x21 {
        Some(OperandFormat::Reg)
    } else if op == 0x02 || (0x04 <= op <= 0x0C) || op == 0x0E || op == 0x0F || op == 0x15 || (0x17 <= op <= 0x19) {
        Some(OperandFormat::RegReg)
    } else if op == 0x03 || (0x10 <= op <= 0x14) || op == 0x16 || op == 0x40 || op == 0x41 {
        Some(OperandFormat::RegImm)
    } else if op == 0x22 || (0x30 <= op <= 0x3C) {
        Some(OperandFormat::Imm)
    } else {
        None
    }
}

/// The instruction that opcode `op` denotes, given its register byte `rb`
/// (rd in the high nibble, rs in the low one) and its immediate `imm`.
/// Meaningful for the opcodes that `opcode_format` defines.
pub open spec fn instr_of(op: u8, rb: u8, imm: u16) -> Instruction {
    let rd = (rb / 16) as u8;
    let rs = (rb % 16) as u8;
    match op {
        0x00 => Instruction::Nop,
        0x01 => Instruction::Hlt,
        0x02 => Instruction::Mov { rd, rs },
        0x03 => Instruction::Ldi { rd, imm },
        0x04 => Instruction::Ld { rd, rs },
        0x05 => Instruction::St { rd, rs },
        0x06 => Instruction::Ldb { rd, rs },
        0x07 => Instruction::Stb { rd, rs },
        0x08 => Instruction::Add { rd, rs },
        0x09 => Instruction::Sub { rd, rs },
        0x0A => Instruction::And { rd, rs },
        0x0B => Instruction::Or { rd, rs },
        0x0C => Instruction::Xor { rd, rs },
        0x0D => Instruction::Not { rd },
        0x0E => Instruction::Shl { rd, rs },
        0x0F => Instruction::Shr { rd, rs },
        0x10 => Instruction::Addi { rd, imm },
        0x11 => Instruction::Subi { rd, imm },
        0x12 => Instruction::Andi { rd, imm },
        0x13 => Instruction::Ori { rd, imm },
        0x14 => Instruction::Xori { rd, imm },
        0x15 => Instruction::Cmp { rd, rs },
        0x16 => Instruction::Cmpi { rd, imm },
        0x17 => Instruction::Mul { rd, rs },
        0x18 => Instruction::Div { rd, rs },
        0x19 => Instruction::Mod { rd, rs },
        0x20 => Instruction::Push { rs: rd },
        0x21 => Instruction::Pop { rd },
        0x22 => Instruction::Call { addr: imm },
        0x23 => Instruction::Ret,
        0x30 => Instruction::Jmp { addr: imm },
        0x31 => Instruction::Jz { addr: imm },
        0x32 => Instruction::Jnz { addr: imm },
        0x33 => Instruction::Jc { addr: imm },
        0x34 => Instruction::Jnc { addr: imm },
        0x35 => Instruction::Jn { addr: imm },
        0x36 => Instruction::Jnn { addr: imm },
        0x37 => Instruction::Jv { addr: imm },
        0x38 => Instruction::Jnv { addr: imm },
        0x39 => Instruction::Jgt { addr: imm },
        0x3A => Instruction::Jlt { addr: imm },
        0x3B => Instruction::Jge { addr: imm },
        0x3C => Instruction::Jle { addr: imm },
        0x40 => Instruction::In { rd, port: imm },
        _ => Instruction::Out { rs: rd, port: imm },
    }
}

impl Instruction {
    /// The opcode byte of this instruction.
    pub open spec fn opcode(self) -> u8 {
        match self {
            Instruction::Nop => 0x00,
            Instruction::Hlt => 0x01,
            Instruction::Mov { .. } => 0x02,
            Instruction::Ldi { .. } => 0x03,
            Instruction::Ld { .. } => 0x04,
            Instruction::St { .. } => 0x05,
            Instruction::Ldb { .. } => 0x06,
            Instruction::Stb { .. } => 0x07,
            Instruction::Add { .. } => 0x08,
            Instruction::Sub { .. } => 0x09,
            Instruction::And { .. } => 0x0A,
            Instruction::Or { .. } => 0x0B,
            Instruction::Xor { .. } => 0x0C,
            Instruction::Not { .. } => 0x0D,
            Instruction::Shl { .. } => 0x0E,
            Instruction::Shr { .. } => 0x0F,
            Instruction::Addi { .. } => 0x10,
            Instruction::Subi { .. } => 0x11,
            Instruction::Andi { .. } => 0x12,
            Instruction::Ori { .. } => 0x13,
            Instruction::Xori { .. } => 0x14,
            Instruction::Cmp { .. } => 0x15,
            Instruction::Cmpi { .. } => 0x16,
            Instruction::Mul { .. } => 0x17,
            Instruction::Div { .. } => 0x18,
            Instruction::Mod { .. } => 0x19,
            Instruction::Push { .. } => 0x20,
            Instruction::Pop { .. } => 0x21,
            Instruction::Call { .. } => 0x22,
            Instruction::Ret => 0x23,
            Instruction::Jmp { .. } => 0x30,
            Instruction::Jz { .. } => 0x31,
            Instruction::Jnz { .. } => 0x32,
            Instruction::Jc { .. } => 0x33,
            Instruction::Jnc { .. } => 0x34,
            Instruction::Jn { .. } => 0x35,
            Instruction::Jnn { .. } => 0x36,
            Instruction::Jv { .. } => 0x37,
            Instruction::Jnv { .. } => 0x38,
            Instruction::Jgt { .. } => 0x39,
            Instruction::Jlt { .. } => 0x3A,
            Instruction::Jge { .. } => 0x3B,
            Instruction::Jle { .. } => 0x3C,
            Instruction::In { .. } => 0x40,
            Instruction::Out { .. } => 0x41,
        }
    }

    /// The register byte of the encoding: first register in the high nibble,
    /// second in the low nibble.
    pub open spec fn reg_byte(self) -> int {
        match self {
            Instruction::Mov { rd, rs } | Instruction::Ld { rd, rs } | Instruction::St { rd, rs }
            | Instruction::Ldb { rd, rs } | Instruction::Stb { rd, rs } | Instruction::Add { rd, rs }
            | Instruction::Sub { rd, rs } | Instruction::And { rd, rs } | Instruction::Or { rd, rs }
            | Instruction::Xor { rd, rs } | Instruction::Shl { rd, rs } | Instruction::Shr { rd, rs }
            | Instruction::Cmp { rd, rs } | Instruction::Mul { rd, rs } | Instruction::Div { rd, rs }
            | Instruction::Mod { rd, rs } => rd * 16 + rs,
            Instruction::Ldi { rd, .. } | Instruction::Addi { rd, .. } | Instruction::Subi { rd, .. }
            | Instruction::Andi { rd, .. } | Instruction::Ori { rd, .. } | Instruction::Xori { rd, .. }
            | Instruction::Cmpi { rd, .. } | Instruction::Not { rd } | Instruction::Pop { rd }
            | Instruction::In { rd, .. } => rd * 16,
            Instruction::Push { rs } | Instruction::Out { rs, .. } => rs * 16,
            _ => 0,
        }
    }

    /// The 16-bit immediate, address or port of the encoding (0 if none).
    pub open spec fn imm(self) -> u16 {
        match self {
            Instruction::Ldi { imm, .. } | Instruction::Addi { imm, .. } | Instruction::Subi { imm, .. }
            | Instruction::Andi { imm, .. } | Instruction::Ori { imm, .. } | Instruction::Xori {
                imm,
                ..
            } | Instruction::Cmpi { imm, .. } => imm,
            Instruction::In { port, .. } | Instruction::Out { port, .. } => port,
            Instruction::Call { addr } | Instruction::Jmp { addr } | Instruction::Jz { addr }
            | Instruction::Jnz { addr } | Instruction::Jc { addr } | Instruction::Jnc { addr }
            | Instruction::Jn { addr } | Instruction::Jnn { addr } | Instruction::Jv { addr }
            | Instruction::Jnv { addr } | Instruction::Jgt { addr } | Instruction::Jlt { addr }
            | Instruction::Jge { addr } | Instruction::Jle { addr } => addr,
            _ => 0,
        }
    }

    /// Whether every register index of the instruction is below 16.
    pub open spec fn regs_valid(self) -> bool {
        match self {
            Instruction::Mov { rd, rs } | Instruction::Ld { rd, rs } | Instruction::St { rd, rs }
            | Instruction::Ldb { rd, rs } | Instruction::Stb { rd, rs } | Instruction::Add { rd, rs }
            | Instruction::Sub { rd, rs } | Instruction::And { rd, rs } | Instruction::Or { rd, rs }
            | Instruction::Xor { rd, rs } | Instruction::Shl { rd, rs } | Instruction::Shr { rd, rs }
            | Instruction::Cmp { rd, rs } | Instruction::Mul { rd, rs } | Instruction::Div { rd, rs }
            | Instruction::Mod { rd, rs } => rd < 16 && rs < 16,
            Instruction::Ldi { rd, .. } | Instruction::Addi { rd, .. } | Instruction::Subi { rd, .. }
            | Instruction::Andi { rd, .. } | Instruction::Ori { rd, .. } | Instruction::Xori { rd, .. }
            | Instruction::Cmpi { rd, .. } | Instruction::Not { rd } | Instruction::Pop { rd }
            | Instruction::In { rd, .. } => rd < 16,
            Instruction::Push { rs } | Instruction::Out { rs, .. } => rs < 16,
            _ => true,
        }
    }

    /// The bytes that encode this instruction (ISA encoding, little-endian immediates).
    pub open spec fn encode(self) -> Seq<u8> {
        let op = self.opcode();
        let rb = self.reg_byte() as u8;
        let lo = (self.imm() % 256) as u8;
        let hi = (self.imm() / 256) as u8;
        match opcode_format(op).unwrap() {
            OperandFormat::NoOperands => seq![op],
            OperandFormat::Reg | OperandFormat::RegReg => seq![op, rb],
            OperandFormat::RegImm => seq![op, rb, lo, hi],
            OperandFormat::Imm => seq![op, lo, hi],
        }
    }
}

/// The instruction and length that a byte sequence starting with an opcode
/// decodes to, or `None` if the opcode is undefined or the bytes run out.
pub open spec fn decode_bytes(b: Seq<u8>) -> Option<(Instruction, nat)> {
    if b.len() == 0 {
        None
    } else {
        match opcode_format(b[0]) {
            None => None,
            Some(f) => if b.len() < format_len(f) {
                None
            } else {
                match f {
                    OperandFormat::NoOperands => Some((instr_of(b[0], 0, 0), 1)),
                    OperandFormat::Reg | OperandFormat::RegReg => Some((instr_of(b[0], b[1], 0), 2)),
                    OperandFormat::RegImm => Some(
                        (instr_of(b[0], b[1], (b[2] + 256 * b[3]) as u16), 4),
                    ),
                    OperandFormat::Imm => Some((instr_of(b[0], 0, (b[1] + 256 * b[2]) as u16), 3)),
                }
            },
        }
    }
}

/// Decoding an encoded instruction gives back the instruction and the length
/// of its encoding.
pub proof fn lemma_encode_decode(i: Instruction)
    requires
        i.regs_valid(),
    ensures
        opcode_format(i.opcode()) is Some,
        i.encode().len() == format_len(opcode_format(i.opcode()).unwrap()),
        decode_bytes(i.encode()) == Some((i, i.encode().len())),
{
}

/// Exec form of `opcode_format`.
pub fn format_of(op: u8) -> (f: Option<OperandFormat>)
    ensures
        f == opcode_format(op),
{
    if op == 0x00 || op == 0x01 || op == 0x23 {
        Some(OperandFormat::NoOperands)
    } else if op == 0x0D || op == 0x20 || op == 0x21 {
        Some(OperandFormat::Reg)
    } else if op == 0x02 || (0x04 <= op && op <= 0x0C) || op == 0x0E || op == 0x0F || op == 0x15 || (0x17 <= op && op <= 0x19) {
        Some(OperandFormat::RegReg)
    } else if op == 0x03 || (0x10 <= op && op <= 0x14) || op == 0x16 || op == 0x40 || op == 0x41 {
        Some(OperandFormat::RegImm)
    } else if op == 0x22 || (0x30 <= op && op <= 0x3C) {
        Some(OperandFormat::Imm)
    } else {
        None
    }
}

} // verus!
