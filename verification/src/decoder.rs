//! Binary → Instruction decoder.  Reads bytes from memory at the current PC.
use vstd::prelude::*;
use crate::error::{EmuResult, EmulatorError};
use crate::flags::wrap16;
use crate::instruction::{format_of, instr_of, opcode_format, Instruction, OperandFormat};
use crate::memory::{MemView, Memory};
use crate::registers::Registers;

verus! {

/// What decoding the instruction at `pc` gives: the instruction and its
/// length, or the error raised (undefined opcode, immediate running past the
/// end of memory).
pub open spec fn decode_spec(m: MemView, pc: u16) -> EmuResult<(Instruction, u16)> {
    let op = m.read_byte(pc);
    match opcode_format(op) {
        None => Err(EmulatorError::InvalidOpcode(op)),
        Some(f) => {
            let rb = m.read_byte(wrap16(pc + 1));
            match f {
                OperandFormat::NoOperands => Ok((instr_of(op, rb, 0), 1u16)),
                OperandFormat::Reg | OperandFormat::RegReg => Ok((instr_of(op, rb, 0), 2u16)),
                OperandFormat::RegImm => match m.read_word(wrap16(pc + 2)) {
                    Ok(imm) => Ok((instr_of(op, rb, imm), 4u16)),
                    Err(e) => Err(e),
                },
                OperandFormat::Imm => match m.read_word(wrap16(pc + 1)) {
                    Ok(imm) => Ok((instr_of(op, rb, imm), 3u16)),
                    Err(e) => Err(e),
                },
            }
        },
    }
}

/// The instruction an opcode denotes given its register byte and immediate.
pub(crate) fn build(op: u8, rb: u8, imm: u16) -> (i: Instruction)
    ensures
        i == instr_of(op, rb, imm),
{
    let (rd, rs) = Registers::unpack(rb);
    match op {
        0x00 => Instruction::Nop,
        0x01 => Instruction::Hlt,
        0x02 => Instruction::Mov { rd, rs },
        0x03 => Instruction::Ldi { rd, imm },
        0x04 => Instruction::Ld { rd, rs },
        0x05 => Instruction::St { rd, rs },
        0x06 => Instruction::Ldb { rd, rs },
        0x07 => Instruction::Stb { rd, rs },
        0x08 => Instruction::Add { rd, rs },
        0x09 => Instruction::Sub { rd, rs },
        0x0A => Instruction::And { rd, rs },
        0x0B => Instruction::Or { rd, rs },
        0x0C => Instruction::Xor { rd, rs },
        0x0D => Instruction::Not { rd },
        0x0E => Instruction::Shl { rd, rs },
        0x0F => Instruction::Shr { rd, rs },
        0x10 => Instruction::Addi { rd, imm },
        0x11 => Instruction::Subi { rd, imm },
        0x12 => Instruction::Andi { rd, imm },
        0x13 => Instruction::Ori { rd, imm },
        0x14 => Instruction::Xori { rd, imm },
        0x15 => Instruction::Cmp { rd, rs },
        0x16 => Instruction::Cmpi { rd, imm },
        0x17 => Instruction::Mul { rd, rs },
        0x18 => Instruction::Div { rd, rs },
        0x19 => Instruction::Mod { rd, rs },
        0x20 => Instruction::Push { rs: rd },
        0x21 => Instruction::Pop { rd },
        0x22 => Instruction::Call { addr: imm },
        0x23 => Instruction::Ret,
        0x30 => Instruction::Jmp { addr: imm },
        0x31 => Instruction::Jz { addr: imm },
        0x32 => Instruction::Jnz { addr: imm },
        0x33 => Instruction::Jc { addr: imm },
        0x34 => Instruction::Jnc { addr: imm },
        0x35 => Instruction::Jn { addr: imm },
        0x36 => Instruction::Jnn { addr: imm },
        0x37 => Instruction::Jv { addr: imm },
        0x38 => Instruction::Jnv { addr: imm },
        0x39 => Instruction::Jgt { addr: imm },
        0x3A => Instruction::Jlt { addr: imm },
        0x3B => Instruction::Jge { addr: imm },
        0x3C => Instruction::Jle { addr: imm },
        0x40 => Instruction::In { rd, port: imm },
        _ => Instruction::Out { rs: rd, port: imm },
    }
}

/// Decode the instruction at `pc`, returning the instruction and its byte length.
pub fn decode(mem: &Memory, pc: u16) -> (r: EmuResult<(Instruction, u16)>)
    requires
        mem.wf(),
    ensures
        r == decode_spec(mem@, pc),
{
    let op = mem.read_byte(pc);
    match format_of(op) {
        None => Err(EmulatorError::InvalidOpcode(op)),
        Some(f) => {
            let rb = mem.read_byte(pc.wrapping_add(1));
            match f {
                OperandFormat::NoOperands => Ok((build(op, rb, 0), 1)),
                OperandFormat::Reg | OperandFormat::RegReg => Ok((build(op, rb, 0), 2)),
                OperandFormat::RegImm => {
                    let imm = mem.read_word(pc.wrapping_add(2))?;
                    Ok((build(op, rb, imm), 4))
                },
                OperandFormat::Imm => {
                    let imm = mem.read_word(pc.wrapping_add(1))?;
                    Ok((build(op, rb, imm), 3))
                },
            }
        },
    }
}


/// Memory holding the encoding of an instruction at `pc` decodes to that
/// instruction and the length of its encoding.
pub proof fn lemma_decode_encoded(m: MemView, pc: u16, i: Instruction)
    requires
        m.wf(),
        i.regs_valid(),
        pc + 4 <= 0xFFFF,
        forall|j: int| 0 <= j < i.encode().len() ==> m.read_byte((pc + j) as u16) == #[trigger] i.encode()[j],
    ensures
        decode_spec(m, pc) == Ok::<(Instruction, u16), EmulatorError>((i, i.encode().len() as u16)),
{
    crate::instruction::lemma_encode_decode(i);
    let e = i.encode();
    assert(m.read_byte(pc) == e[0]);
    if e.len() >= 2 {
        assert(m.read_byte((pc + 1) as u16) == e[1]);
    }
    if e.len() >= 3 {
        assert(m.read_byte((pc + 2) as u16) == e[2]);
    }
    if e.len() >= 4 {
        assert(m.read_byte((pc + 3) as u16) == e[3]);
    }
}

} // verus!
