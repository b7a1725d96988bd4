//! Instruction executor: mutates CPU state for one decoded instruction.
use vstd::prelude::*;
use crate::bus::{Bus, BusView};
use crate::error::{EmuResult, EmulatorError};
use crate::flags::{add_flags, as_signed, lemma_wrap16, sub_flags, wrap16, zn_flags, Flags};
use crate::instruction::Instruction;
use crate::memory::{MemView, Memory};
use crate::registers::{reg_slot, Registers, SP};

verus! {

/// Result of executing one instruction.
#[derive(Debug, Clone, Copy, PartialEq, Eq, Structural)]
pub enum StepResult {
    /// Normal execution; new PC is provided.
    Continue(u16),
    /// CPU has halted; no further execution should occur.
    Halt,
    /// An `in` found no host input yet; nothing changed and the instruction
    /// must be retried once the host has supplied input.
    WaitInput,
}

/// The state that one instruction reads and writes.
pub struct ExecView {
    pub regs: Seq<u16>,
    pub flags: Flags,
    pub mem: MemView,
    pub bus: BusView,
}

pub open spec fn exec_view(regs: Seq<u16>, flags: Flags, mem: MemView, bus: BusView) -> ExecView {
    ExecView { regs, flags, mem, bus }
}

impl ExecView {
    pub open spec fn reg(self, r: u8) -> u16 {
        self.regs[reg_slot(r)]
    }

    pub open spec fn with_reg(self, r: u8, v: u16) -> ExecView {
        ExecView { regs: self.regs.update(reg_slot(r), v), ..self }
    }

    pub open spec fn with_flags(self, f: Flags) -> ExecView {
        ExecView { flags: f, ..self }
    }

    pub open spec fn with_mem(self, m: MemView) -> ExecView {
        ExecView { mem: m, ..self }
    }
}

/// Continue at `pc` in state `s`.
pub open spec fn cont(pc: u16, s: ExecView) -> EmuResult<(StepResult, ExecView)> {
    Ok((StepResult::Continue(pc), s))
}

/// Jump to `addr` if `taken`, else fall through to `next_pc`.
pub open spec fn branch(taken: bool, addr: u16, next_pc: u16, s: ExecView) -> EmuResult<(StepResult, ExecView)> {
    cont(if taken { addr } else { next_pc }, s)
}

/// The effect of executing `instr` (whose successor is at `next_pc`) in state
/// `s`: how execution goes on and the new state, or the error raised (in
/// which case nothing changes).
pub open spec fn execute_spec(instr: Instruction, next_pc: u16, s: ExecView) -> EmuResult<(StepResult, ExecView)> {
    let f = s.flags;
    match instr {
        Instruction::Nop => cont(next_pc, s),
        Instruction::Hlt => Ok((StepResult::Halt, s)),
        Instruction::Mov { rd, rs } => cont(next_pc, s.with_reg(rd, s.reg(rs))),
        Instruction::Ldi { rd, imm } => cont(next_pc, s.with_reg(rd, imm)),
        Instruction::Ld { rd, rs } => match s.mem.read_word(s.reg(rs)) {
            Ok(v) => cont(next_pc, s.with_reg(rd, v)),
            Err(e) => Err(e),
        },
        Instruction::St { rd, rs } => match s.mem.write_word(s.reg(rd), s.reg(rs)) {
            Ok(m) => cont(next_pc, s.with_mem(m)),
            Err(e) => Err(e),
        },
        Instruction::Ldb { rd, rs } => cont(next_pc, s.with_reg(rd, s.mem.read_byte(s.reg(rs)) as u16)),
        Instruction::Stb { rd, rs } => cont(
            next_pc,
            s.with_mem(s.mem.write_byte(s.reg(rd), (s.reg(rs) % 256) as u8)),
        ),
        Instruction::Add { rd, rs } => {
            let (a, b) = (s.reg(rd), s.reg(rs));
            cont(next_pc, s.with_flags(add_flags(a, b, 0)).with_reg(rd, wrap16(a + b)))
        },
        Instruction::Sub { rd, rs } => {
            let (a, b) = (s.reg(rd), s.reg(rs));
            cont(next_pc, s.with_flags(sub_flags(a, b)).with_reg(rd, wrap16(a - b)))
        },
        Instruction::Mul { rd, rs } => {
            let v = wrap16(s.reg(rd) * s.reg(rs));
            cont(next_pc, s.with_flags(zn_flags(f, v)).with_reg(rd, v))
        },
        Instruction::Div { rd, rs } => {
            let v: u16 = if s.reg(rs) == 0 { 0xFFFF } else { (s.reg(rd) / s.reg(rs)) as u16 };
            cont(next_pc, s.with_flags(zn_flags(f, v)).with_reg(rd, v))
        },
        Instruction::Mod { rd, rs } => {
            let v: u16 = if s.reg(rs) == 0 { s.reg(rd) } else { (s.reg(rd) % s.reg(rs)) as u16 };
            cont(next_pc, s.with_flags(zn_flags(f, v)).with_reg(rd, v))
        },
        Instruction::And { rd, rs } => {
            let v = s.reg(rd) & s.reg(rs);
            cont(next_pc, s.with_flags(zn_flags(f, v)).with_reg(rd, v))
        },
        Instruction::Or { rd, rs } => {
            let v = s.reg(rd) | s.reg(rs);
            cont(next_pc, s.with_flags(zn_flags(f, v)).with_reg(rd, v))
        },
        Instruction::Xor { rd, rs } => {
            let v = s.reg(rd) ^ s.reg(rs);
            cont(next_pc, s.with_flags(zn_flags(f, v)).with_reg(rd, v))
        },
        Instruction::Not { rd } => {
            let v = !s.reg(rd);
            cont(next_pc, s.with_flags(zn_flags(f, v)).with_reg(rd, v))
        },
        Instruction::Shl { rd, rs } => {
            let v = s.reg(rd) << (s.reg(rs) % 16);
            cont(next_pc, s.with_flags(zn_flags(f, v)).with_reg(rd, v))
        },
        Instruction::Shr { rd, rs } => {
            let v = s.reg(rd) >> (s.reg(rs) % 16);
            cont(next_pc, s.with_flags(zn_flags(f, v)).with_reg(rd, v))
        },
        Instruction::Addi { rd, imm } => {
            let a = s.reg(rd);
            cont(next_pc, s.with_flags(add_flags(a, imm, 0)).with_reg(rd, wrap16(a + imm)))
        },
        Instruction::Subi { rd, imm } => {
            let a = s.reg(rd);
            cont(next_pc, s.with_flags(sub_flags(a, imm)).with_reg(rd, wrap16(a - imm)))
        },
        Instruction::Andi { rd, imm } => {
            let v = s.reg(rd) & imm;
            cont(next_pc, s.with_flags(zn_flags(f, v)).with_reg(rd, v))
        },
        Instruction::Ori { rd, imm } => {
            let v = s.reg(rd) | imm;
            cont(next_pc, s.with_flags(zn_flags(f, v)).with_reg(rd, v))
        },
        Instruction::Xori { rd, imm } => {
            let v = s.reg(rd) ^ imm;
            cont(next_pc, s.with_flags(zn_flags(f, v)).with_reg(rd, v))
        },
        Instruction::Cmp { rd, rs } => cont(next_pc, s.with_flags(sub_flags(s.reg(rd), s.reg(rs)))),
        Instruction::Cmpi { rd, imm } => cont(next_pc, s.with_flags(sub_flags(s.reg(rd), imm))),
        Instruction::Push { rs } => {
            let sp = wrap16(s.reg(SP) - 2);
            if sp > 0xFFFD {
                Err(EmulatorError::StackOverflow)
            } else {
                let s1 = s.with_reg(SP, sp);
                match s1.mem.write_word(sp, s1.reg(rs)) {
                    Ok(m) => cont(next_pc, s1.with_mem(m)),
                    Err(e) => Err(e),
                }
            }
        },
        Instruction::Pop { rd } => {
            let sp = s.reg(SP);
            if sp >= 0xFFFE {
                Err(EmulatorError::StackUnderflow)
            } else {
                match s.mem.read_word(sp) {
                    Ok(v) => cont(next_pc, s.with_reg(SP, (sp + 2) as u16).with_reg(rd, v)),
                    Err(e) => Err(e),
                }
            }
        },
        Instruction::Call { addr } => {
            let sp = wrap16(s.reg(SP) - 2);
            if sp > 0xFFFD {
                Err(EmulatorError::StackOverflow)
            } else {
                match s.mem.write_word(sp, next_pc) {
                    Ok(m) => cont(addr, s.with_reg(SP, sp).with_mem(m)),
                    Err(e) => Err(e),
                }
            }
        },
        Instruction::Ret => {
            let sp = s.reg(SP);
            if sp >= 0xFFFE {
                Err(EmulatorError::StackUnderflow)
            } else {
                match s.mem.read_word(sp) {
                    Ok(a) => cont(a, s.with_reg(SP, (sp + 2) as u16)),
                    Err(e) => Err(e),
                }
            }
        },
        Instruction::Jmp { addr } => cont(addr, s),
        Instruction::Jz { addr } => branch(f.zero, addr, next_pc, s),
        Instruction::Jnz { addr } => branch(!f.zero, addr, next_pc, s),
        Instruction::Jc { addr } => branch(f.carry, addr, next_pc, s),
        Instruction::Jnc { addr } => branch(!f.carry, addr, next_pc, s),
        Instruction::Jn { addr } => branch(f.negative, addr, next_pc, s),
        Instruction::Jnn { addr } => branch(!f.negative, addr, next_pc, s),
        Instruction::Jv { addr } => branch(f.overflow, addr, next_pc, s),
        Instruction::Jnv { addr } => branch(!f.overflow, addr, next_pc, s),
        Instruction::Jgt { addr } => branch(!f.zero && (f.negative == f.overflow), addr, next_pc, s),
        Instruction::Jlt { addr } => branch(f.negative != f.overflow, addr, next_pc, s),
        Instruction::Jge { addr } => branch(f.negative == f.overflow, addr, next_pc, s),
        Instruction::Jle { addr } => branch(f.zero || (f.negative != f.overflow), addr, next_pc, s),
        Instruction::In { rd, port } => match s.bus.io_read(port) {
            Ok((Some(v), b)) => cont(next_pc, ExecView { bus: b, ..s.with_reg(rd, v) }),
            Ok((None, _)) => Ok((StepResult::WaitInput, s)),
            Err(e) => Err(e),
        },
        Instruction::Out { rs, port } => match s.bus.io_write(port, s.reg(rs)) {
            Ok(b) => cont(next_pc, ExecView { bus: b, ..s }),
            Err(e) => Err(e),
        },
    }
}

/// The relation between the state before (`s0`) and after (`s1`) executing
/// `instr` and the result `r`, as `execute_spec` describes it.
pub open spec fn execute_post(
    instr: Instruction,
    next_pc: u16,
    s0: ExecView,
    s1: ExecView,
    r: EmuResult<StepResult>,
) -> bool {
    match execute_spec(instr, next_pc, s0) {
        Ok((sr, s)) => r == Ok::<StepResult, EmulatorError>(sr) && s1 == s,
        Err(e) => r == Err::<StepResult, EmulatorError>(e) && s1 == s0,
    }
}

#[verifier::rlimit(40)]
fn exec_data(
    instr: Instruction,
    next_pc: u16,
    regs: &mut Registers,
    flags: &mut Flags,
    mem: &mut Memory,
    bus: &mut Bus,
) -> (r: EmuResult<StepResult>)
    requires
        old(mem).wf(),
        instr is Mov || instr is Ldi || instr is Ld || instr is St || instr is Ldb || instr is Stb,
    ensures
        final(mem).wf(),
        execute_post(
            instr,
            next_pc,
            exec_view(old(regs)@, *old(flags), old(mem)@, old(bus)@),
            exec_view(final(regs)@, *final(flags), final(mem)@, final(bus)@),
            r,
        ),
{
    match instr {
        Instruction::Mov { rd, rs } => regs.set(rd, regs.get(rs)),
        Instruction::Ldi { rd, imm } => regs.set(rd, imm),
        Instruction::Ld { rd, rs } => {
            let addr = regs.get(rs);
            let val = mem.read_word(addr)?;
            regs.set(rd, val);
        },
        Instruction::St { rd, rs } => {
            let addr = regs.get(rd);
            let val = regs.get(rs);
            mem.write_word(addr, val)?;
        },
        Instruction::Ldb { rd, rs } => {
            let addr = regs.get(rs);
            regs.set(rd, mem.read_byte(addr) as u16);
        },
        Instruction::Stb { rd, rs } => {
            let addr = regs.get(rd);
            mem.write_byte(addr, (regs.get(rs) % 256) as u8);
        },
        _ => {},
    }
    Ok(StepResult::Continue(next_pc))
}

#[verifier::rlimit(40)]
fn exec_branch(
    instr: Instruction,
    next_pc: u16,
    regs: &mut Registers,
    flags: &mut Flags,
    mem: &mut Memory,
    bus: &mut Bus,
) -> (r: EmuResult<StepResult>)
    requires
        old(mem).wf(),
        instr is Jmp || instr is Jz || instr is Jnz || instr is Jc || instr is Jnc || instr is Jn || instr is Jnn || instr is Jv || instr is Jnv || instr is Jgt || instr is Jlt || instr is Jge || instr is Jle,
    ensures
        final(mem).wf(),
        execute_post(
            instr,
            next_pc,
            exec_view(old(regs)@, *old(flags), old(mem)@, old(bus)@),
            exec_view(final(regs)@, *final(flags), final(mem)@, final(bus)@),
            r,
        ),
{
    match instr {
        Instruction::Jmp { addr } => return Ok(StepResult::Continue(addr)),
        Instruction::Jz { addr } => if flags.zero {
            return Ok(StepResult::Continue(addr));
        },
        Instruction::Jnz { addr } => if !flags.zero {
            return Ok(StepResult::Continue(addr));
        },
        Instruction::Jc { addr } => if flags.carry {
            return Ok(StepResult::Continue(addr));
        },
        Instruction::Jnc { addr } => if !flags.carry {
            return Ok(StepResult::Continue(addr));
        },
        Instruction::Jn { addr } => if flags.negative {
            return Ok(StepResult::Continue(addr));
        },
        Instruction::Jnn { addr } => if !flags.negative {
            return Ok(StepResult::Continue(addr));
        },
        Instruction::Jv { addr } => if flags.overflow {
            return Ok(StepResult::Continue(addr));
        },
        Instruction::Jnv { addr } => if !flags.overflow {
            return Ok(StepResult::Continue(addr));
        },
        Instruction::Jgt { addr } => if !flags.zero && (flags.negative == flags.overflow) {
            return Ok(StepResult::Continue(addr));
        },
        Instruction::Jlt { addr } => if flags.negative != flags.overflow {
            return Ok(StepResult::Continue(addr));
        },
        Instruction::Jge { addr } => if flags.negative == flags.overflow {
            return Ok(StepResult::Continue(addr));
        },
        Instruction::Jle { addr } => if flags.zero || (flags.negative != flags.overflow) {
            return Ok(StepResult::Continue(addr));
        },
        _ => {},
    }
    Ok(StepResult::Continue(next_pc))
}

#[verifier::rlimit(40)]
fn exec_io(
    instr: Instruction,
    next_pc: u16,
    regs: &mut Registers,
    flags: &mut Flags,
    mem: &mut Memory,
    bus: &mut Bus,
) -> (r: EmuResult<StepResult>)
    requires
        old(mem).wf(),
        instr is In || instr is Out,
    ensures
        final(mem).wf(),
        execute_post(
            instr,
            next_pc,
            exec_view(old(regs)@, *old(flags), old(mem)@, old(bus)@),
            exec_view(final(regs)@, *final(flags), final(mem)@, final(bus)@),
            r,
        ),
{
    match instr {
        Instruction::In { rd, port } => {
            match bus.io_read(port)? {
                Some(val) => regs.set(rd, val),
                None => return Ok(StepResult::WaitInput),
            }
        },
        Instruction::Out { rs, port } => {
            bus.io_write(port, regs.get(rs))?;
        },
        _ => {},
    }
    Ok(StepResult::Continue(next_pc))
}

#[verifier::rlimit(40)]
fn exec_add(
    instr: Instruction,
    next_pc: u16,
    regs: &mut Registers,
    flags: &mut Flags,
    mem: &mut Memory,
    bus: &mut Bus,
) -> (r: EmuResult<StepResult>)
    requires
        old(mem).wf(),
        instr is Add || instr is Addi,
    ensures
        final(mem).wf(),
        execute_post(
            instr,
            next_pc,
            exec_view(old(regs)@, *old(flags), old(mem)@, old(bus)@),
            exec_view(final(regs)@, *final(flags), final(mem)@, final(bus)@),
            r,
        ),
{
    match instr {
        Instruction::Add { rd, rs } => {
            let a = regs.get(rd);
            let b = regs.get(rs);
            flags.set_add(a, b, 0);
            proof {
                lemma_wrap16(a, b);
            }
            regs.set(rd, a.wrapping_add(b));
        },
        Instruction::Addi { rd, imm } => {
            let a = regs.get(rd);
            flags.set_add(a, imm, 0);
            proof {
                lemma_wrap16(a, imm);
            }
            regs.set(rd, a.wrapping_add(imm));
        },
        _ => {},
    }
    Ok(StepResult::Continue(next_pc))
}

#[verifier::rlimit(40)]
fn exec_sub(
    instr: Instruction,
    next_pc: u16,
    regs: &mut Registers,
    flags: &mut Flags,
    mem: &mut Memory,
    bus: &mut Bus,
) -> (r: EmuResult<StepResult>)
    requires
        old(mem).wf(),
        instr is Sub || instr is Subi,
    ensures
        final(mem).wf(),
        execute_post(
            instr,
            next_pc,
            exec_view(old(regs)@, *old(flags), old(mem)@, old(bus)@),
            exec_view(final(regs)@, *final(flags), final(mem)@, final(bus)@),
            r,
        ),
{
    match instr {
        Instruction::Sub { rd, rs } => {
            let a = regs.get(rd);
            let b = regs.get(rs);
            flags.set_sub(a, b);
            proof {
                lemma_wrap16(a, b);
            }
            regs.set(rd, a.wrapping_sub(b));
        },
        Instruction::Subi { rd, imm } => {
            let a = regs.get(rd);
            flags.set_sub(a, imm);
            proof {
                lemma_wrap16(a, imm);
            }
            regs.set(rd, a.wrapping_sub(imm));
        },
        _ => {},
    }
    Ok(StepResult::Continue(next_pc))
}

#[verifier::rlimit(40)]
fn exec_compare(
    instr: Instruction,
    next_pc: u16,
    regs: &mut Registers,
    flags: &mut Flags,
    mem: &mut Memory,
    bus: &mut Bus,
) -> (r: EmuResult<StepResult>)
    requires
        old(mem).wf(),
        instr is Cmp || instr is Cmpi,
    ensures
        final(mem).wf(),
        execute_post(
            instr,
            next_pc,
            exec_view(old(regs)@, *old(flags), old(mem)@, old(bus)@),
            exec_view(final(regs)@, *final(flags), final(mem)@, final(bus)@),
            r,
        ),
{
    match instr {
        Instruction::Cmp { rd, rs } => {
            flags.set_sub(regs.get(rd), regs.get(rs));
        },
        Instruction::Cmpi { rd, imm } => {
            flags.set_sub(regs.get(rd), imm);
        },
        _ => {},
    }
    Ok(StepResult::Continue(next_pc))
}

#[verifier::rlimit(40)]
fn exec_logic(
    instr: Instruction,
    next_pc: u16,
    regs: &mut Registers,
    flags: &mut Flags,
    mem: &mut Memory,
    bus: &mut Bus,
) -> (r: EmuResult<StepResult>)
    requires
        old(mem).wf(),
        instr is And || instr is Or || instr is Xor || instr is Not,
    ensures
        final(mem).wf(),
        execute_post(
            instr,
            next_pc,
            exec_view(old(regs)@, *old(flags), old(mem)@, old(bus)@),
            exec_view(final(regs)@, *final(flags), final(mem)@, final(bus)@),
            r,
        ),
{
    match instr {
        Instruction::And { rd, rs } => {
            let v = regs.get(rd) & regs.get(rs);
            flags.set_zn(v);
            regs.set(rd, v);
        },
        Instruction::Or { rd, rs } => {
            let v = regs.get(rd) | regs.get(rs);
            flags.set_zn(v);
            regs.set(rd, v);
        },
        Instruction::Xor { rd, rs } => {
            let v = regs.get(rd) ^ regs.get(rs);
            flags.set_zn(v);
            regs.set(rd, v);
        },
        Instruction::Not { rd } => {
            let v = !regs.get(rd);
            flags.set_zn(v);
            regs.set(rd, v);
        },
        _ => {},
    }
    Ok(StepResult::Continue(next_pc))
}

#[verifier::rlimit(40)]
fn exec_muldiv(
    instr: Instruction,
    next_pc: u16,
    regs: &mut Registers,
    flags: &mut Flags,
    mem: &mut Memory,
    bus: &mut Bus,
) -> (r: EmuResult<StepResult>)
    requires
        old(mem).wf(),
        instr is Mul || instr is Div || instr is Mod,
    ensures
        final(mem).wf(),
        execute_post(
            instr,
            next_pc,
            exec_view(old(regs)@, *old(flags), old(mem)@, old(bus)@),
            exec_view(final(regs)@, *final(flags), final(mem)@, final(bus)@),
            r,
        ),
{
    match instr {
        Instruction::Mul { rd, rs } => {
            let a = regs.get(rd) as u32;
            let b = regs.get(rs) as u32;
            assert(a * b <= 0xFFFF * 0xFFFF) by (nonlinear_arith)
                requires
                    a <= 0xFFFF,
                    b <= 0xFFFF,
            ;
            let v = ((a * b) % 0x1_0000) as u16;
            flags.set_zn(v);
            regs.set(rd, v);
        },
        Instruction::Div { rd, rs } => {
            let a = regs.get(rd);
            let b = regs.get(rs);
            let v: u16 = if b == 0 { 0xFFFF } else { a / b };
            flags.set_zn(v);
            regs.set(rd, v);
        },
        Instruction::Mod { rd, rs } => {
            let a = regs.get(rd);
            let b = regs.get(rs);
            let v: u16 = if b == 0 { a } else { a % b };
            flags.set_zn(v);
            regs.set(rd, v);
        },
        _ => {},
    }
    Ok(StepResult::Continue(next_pc))
}

#[verifier::rlimit(40)]
fn exec_shift(
    instr: Instruction,
    next_pc: u16,
    regs: &mut Registers,
    flags: &mut Flags,
    mem: &mut Memory,
    bus: &mut Bus,
) -> (r: EmuResult<StepResult>)
    requires
        old(mem).wf(),
        instr is Shl || instr is Shr,
    ensures
        final(mem).wf(),
        execute_post(
            instr,
            next_pc,
            exec_view(old(regs)@, *old(flags), old(mem)@, old(bus)@),
            exec_view(final(regs)@, *final(flags), final(mem)@, final(bus)@),
            r,
        ),
{
    match instr {
        Instruction::Shl { rd, rs } => {
            let shift = regs.get(rs) % 16;
            let v = regs.get(rd) << shift;
            flags.set_zn(v);
            regs.set(rd, v);
        },
        Instruction::Shr { rd, rs } => {
            let shift = regs.get(rs) % 16;
            let v = regs.get(rd) >> shift;
            flags.set_zn(v);
            regs.set(rd, v);
        },
        _ => {},
    }
    Ok(StepResult::Continue(next_pc))
}

#[verifier::rlimit(40)]
fn exec_logic_imm(
    instr: Instruction,
    next_pc: u16,
    regs: &mut Registers,
    flags: &mut Flags,
    mem: &mut Memory,
    bus: &mut Bus,
) -> (r: EmuResult<StepResult>)
    requires
        old(mem).wf(),
        instr is Andi || instr is Ori || instr is Xori,
    ensures
        final(mem).wf(),
        execute_post(
            instr,
            next_pc,
            exec_view(old(regs)@, *old(flags), old(mem)@, old(bus)@),
            exec_view(final(regs)@, *final(flags), final(mem)@, final(bus)@),
            r,
        ),
{
    match instr {
        Instruction::Andi { rd, imm } => {
            let v = regs.get(rd) & imm;
            flags.set_zn(v);
            regs.set(rd, v);
        },
        Instruction::Ori { rd, imm } => {
            let v = regs.get(rd) | imm;
            flags.set_zn(v);
            regs.set(rd, v);
        },
        Instruction::Xori { rd, imm } => {
            let v = regs.get(rd) ^ imm;
            flags.set_zn(v);
            regs.set(rd, v);
        },
        _ => {},
    }
    Ok(StepResult::Continue(next_pc))
}

#[verifier::rlimit(40)]
fn exec_push(
    instr: Instruction,
    next_pc: u16,
    regs: &mut Registers,
    flags: &mut Flags,
    mem: &mut Memory,
    bus: &mut Bus,
) -> (r: EmuResult<StepResult>)
    requires
        old(mem).wf(),
        instr is Push,
    ensures
        final(mem).wf(),
        execute_post(
            instr,
            next_pc,
            exec_view(old(regs)@, *old(flags), old(mem)@, old(bus)@),
            exec_view(final(regs)@, *final(flags), final(mem)@, final(bus)@),
            r,
        ),
{
    match instr {
        Instruction::Push { rs } => {
            let sp = regs.get(SP).wrapping_sub(2);
            proof {
                lemma_wrap16(old(regs)@[reg_slot(SP)], 2);
            }
            if sp > 0xFFFD {
                return Err(EmulatorError::StackOverflow);
            }
            regs.set(SP, sp);
            mem.write_word(sp, regs.get(rs))?;
        },
        _ => {},
    }
    Ok(StepResult::Continue(next_pc))
}

#[verifier::rlimit(40)]
fn exec_pop(
    instr: Instruction,
    next_pc: u16,
    regs: &mut Registers,
    flags: &mut Flags,
    mem: &mut Memory,
    bus: &mut Bus,
) -> (r: EmuResult<StepResult>)
    requires
        old(mem).wf(),
        instr is Pop,
    ensures
        final(mem).wf(),
        execute_post(
            instr,
            next_pc,
            exec_view(old(regs)@, *old(flags), old(mem)@, old(bus)@),
            exec_view(final(regs)@, *final(flags), final(mem)@, final(bus)@),
            r,
        ),
{
    match instr {
        Instruction::Pop { rd } => {
            let sp = regs.get(SP);
            if sp >= 0xFFFE {
                return Err(EmulatorError::StackUnderflow);
            }
            let val = mem.read_word(sp)?;
            regs.set(SP, sp + 2);
            regs.set(rd, val);
        },
        _ => {},
    }
    Ok(StepResult::Continue(next_pc))
}

#[verifier::rlimit(40)]
fn exec_call(
    instr: Instruction,
    next_pc: u16,
    regs: &mut Registers,
    flags: &mut Flags,
    mem: &mut Memory,
    bus: &mut Bus,
) -> (r: EmuResult<StepResult>)
    requires
        old(mem).wf(),
        instr is Call,
    ensures
        final(mem).wf(),
        execute_post(
            instr,
            next_pc,
            exec_view(old(regs)@, *old(flags), old(mem)@, old(bus)@),
            exec_view(final(regs)@, *final(flags), final(mem)@, final(bus)@),
            r,
        ),
{
    match instr {
        Instruction::Call { addr } => {
            let sp = regs.get(SP).wrapping_sub(2);
            proof {
                lemma_wrap16(old(regs)@[reg_slot(SP)], 2);
            }
            if sp > 0xFFFD {
                return Err(EmulatorError::StackOverflow);
            }
            regs.set(SP, sp);
            mem.write_word(sp, next_pc)?;
            return Ok(StepResult::Continue(addr));
        },
        _ => {},
    }
    Ok(StepResult::Continue(next_pc))
}

#[verifier::rlimit(40)]
fn exec_ret(
    instr: Instruction,
    next_pc: u16,
    regs: &mut Registers,
    flags: &mut Flags,
    mem: &mut Memory,
    bus: &mut Bus,
) -> (r: EmuResult<StepResult>)
    requires
        old(mem).wf(),
        instr is Ret,
    ensures
        final(mem).wf(),
        execute_post(
            instr,
            next_pc,
            exec_view(old(regs)@, *old(flags), old(mem)@, old(bus)@),
            exec_view(final(regs)@, *final(flags), final(mem)@, final(bus)@),
            r,
        ),
{
    match instr {
        Instruction::Ret => {
            let sp = regs.get(SP);
            if sp >= 0xFFFE {
                return Err(EmulatorError::StackUnderflow);
            }
            let addr = mem.read_word(sp)?;
            regs.set(SP, sp + 2);
            return Ok(StepResult::Continue(addr));
        },
        _ => {},
    }
    Ok(StepResult::Continue(next_pc))
}

pub fn execute(
    instr: Instruction,
    next_pc: u16,
    regs: &mut Registers,
    flags: &mut Flags,
    mem: &mut Memory,
    bus: &mut Bus,
) -> (r: EmuResult<StepResult>)
    requires
        old(mem).wf(),
    ensures
        final(mem).wf(),
        execute_post(
            instr,
            next_pc,
            exec_view(old(regs)@, *old(flags), old(mem)@, old(bus)@),
            exec_view(final(regs)@, *final(flags), final(mem)@, final(bus)@),
            r,
        ),
{
    match instr {
        Instruction::Nop => Ok(StepResult::Continue(next_pc)),
        Instruction::Hlt => Ok(StepResult::Halt),
        Instruction::Mov { .. } | Instruction::Ldi { .. } | Instruction::Ld { .. } | Instruction::St {
            ..
        } | Instruction::Ldb { .. } | Instruction::Stb { .. } => exec_data(instr, next_pc, regs, flags, mem, bus),
        Instruction::Push { .. } => exec_push(instr, next_pc, regs, flags, mem, bus),
        Instruction::Pop { .. } => exec_pop(instr, next_pc, regs, flags, mem, bus),
        Instruction::Call { .. } => exec_call(instr, next_pc, regs, flags, mem, bus),
        Instruction::Ret => exec_ret(instr, next_pc, regs, flags, mem, bus),
        Instruction::Add { .. } | Instruction::Addi { .. } => exec_add(instr, next_pc, regs, flags, mem, bus),
        Instruction::Sub { .. } | Instruction::Subi { .. } => exec_sub(instr, next_pc, regs, flags, mem, bus),
        Instruction::Cmp { .. } | Instruction::Cmpi { .. } => exec_compare(instr, next_pc, regs, flags, mem, bus),
        Instruction::And { .. } | Instruction::Or { .. } | Instruction::Xor { .. } | Instruction::Not {
            ..
        } => exec_logic(instr, next_pc, regs, flags, mem, bus),
        Instruction::Shl { .. } | Instruction::Shr { .. } => exec_shift(instr, next_pc, regs, flags, mem, bus),
        Instruction::Mul { .. } | Instruction::Div { .. } | Instruction::Mod { .. } => exec_muldiv(
            instr,
            next_pc,
            regs,
            flags,
            mem,
            bus,
        ),
        Instruction::Jmp { .. } | Instruction::Jz { .. } | Instruction::Jnz { .. } | Instruction::Jc {
            ..
        } | Instruction::Jnc { .. } | Instruction::Jn { .. } | Instruction::Jnn { .. } | Instruction::Jv {
            ..
        } | Instruction::Jnv { .. } | Instruction::Jgt { .. } | Instruction::Jlt { .. } | Instruction::Jge {
            ..
        } | Instruction::Jle { .. } => exec_branch(instr, next_pc, regs, flags, mem, bus),
        Instruction::In { .. } | Instruction::Out { .. } => exec_io(instr, next_pc, regs, flags, mem, bus),
        _ => exec_logic_imm(instr, next_pc, regs, flags, mem, bus),
    }
}

/// After `cmp rd, rs` (whose flags are those of `rd - rs`), each conditional
/// branch is taken exactly when the comparison it names holds between the
/// two values: `jlt`/`jgt`/`jle`/`jge` signed, `jc`/`jnc` unsigned, `jz`/`jnz`
/// on equality. A taken branch continues at its address, another at
/// `next_pc`; nothing else changes.
pub proof fn lemma_branch_after_compare(a: u16, b: u16, addr: u16, next_pc: u16, s: ExecView)
    requires
        s.flags == sub_flags(a, b),
    ensures
        execute_spec(Instruction::Jlt { addr }, next_pc, s) == cont(if as_signed(a) < as_signed(b) { addr } else { next_pc }, s),
        execute_spec(Instruction::Jgt { addr }, next_pc, s) == cont(if as_signed(a) > as_signed(b) { addr } else { next_pc }, s),
        execute_spec(Instruction::Jle { addr }, next_pc, s) == cont(if as_signed(a) <= as_signed(b) { addr } else { next_pc }, s),
        execute_spec(Instruction::Jge { addr }, next_pc, s) == cont(if as_signed(a) >= as_signed(b) { addr } else { next_pc }, s),
        execute_spec(Instruction::Jz { addr }, next_pc, s) == cont(if a == b { addr } else { next_pc }, s),
        execute_spec(Instruction::Jnz { addr }, next_pc, s) == cont(if a != b { addr } else { next_pc }, s),
        execute_spec(Instruction::Jc { addr }, next_pc, s) == cont(if a >= b { addr } else { next_pc }, s),
        execute_spec(Instruction::Jnc { addr }, next_pc, s) == cont(if a < b { addr } else { next_pc }, s),
{
    crate::flags::lemma_compare_branches(a, b);
}

/// `cmp rd, rs` followed by `jlt addr` jumps exactly when the value of `rd`
/// is less than that of `rs` as signed 16-bit numbers (and likewise `jgt`,
/// `jle`, `jge`).
pub proof fn lemma_compare_then_branch(rd: u8, rs: u8, pc: u16, addr: u16, next_pc: u16, s: ExecView)
    ensures
        ({
            let (a, b) = (s.reg(rd), s.reg(rs));
            let s1 = execute_spec(Instruction::Cmp { rd, rs }, pc, s).unwrap().1;
            &&& execute_spec(Instruction::Cmp { rd, rs }, pc, s) == cont(pc, s1)
            &&& s1 == s.with_flags(sub_flags(a, b))
            &&& execute_spec(Instruction::Jlt { addr }, next_pc, s1) == cont(if as_signed(a) < as_signed(b) { addr } else { next_pc }, s1)
            &&& execute_spec(Instruction::Jgt { addr }, next_pc, s1) == cont(if as_signed(a) > as_signed(b) { addr } else { next_pc }, s1)
            &&& execute_spec(Instruction::Jle { addr }, next_pc, s1) == cont(if as_signed(a) <= as_signed(b) { addr } else { next_pc }, s1)
            &&& execute_spec(Instruction::Jge { addr }, next_pc, s1) == cont(if as_signed(a) >= as_signed(b) { addr } else { next_pc }, s1)
        }),
{
    let s1 = s.with_flags(sub_flags(s.reg(rd), s.reg(rs)));
    lemma_branch_after_compare(s.reg(rd), s.reg(rs), addr, next_pc, s1);
}

} // verus!
