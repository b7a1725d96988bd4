//! CPU core: fetch → decode → execute loop.
use vstd::prelude::*;
use crate::bus::{Bus, BusView};
use crate::decoder::{decode, decode_spec};
use crate::error::{EmuResult, EmulatorError};
use crate::executor::{exec_view, execute, execute_spec, StepResult};
use crate::flags::{wrap16, Flags};
use crate::memory::{MemView, Memory};
use crate::registers::{initial_regs, Registers};

verus! {

#[derive(Debug, Clone, Copy, PartialEq, Eq, Structural)]
pub enum CpuState {
    Running,
    Halted,
    /// Stopped at an `in` that found no host input; the next step retries it.
    WaitingInput,
}

pub struct Cpu {
    pub regs: Registers,
    pub flags: Flags,
    pub pc: u16,
    pub state: CpuState,
    /// Total instructions executed (useful for debugging and tests).
    pub cycles: u64,
}

pub struct CpuView {
    pub regs: Seq<u16>,
    pub flags: Flags,
    pub pc: u16,
    pub state: CpuState,
    pub cycles: u64,
}

impl View for Cpu {
    type V = CpuView;

    open spec fn view(&self) -> CpuView {
        CpuView { regs: self.regs@, flags: self.flags, pc: self.pc, state: self.state, cycles: self.cycles }
    }
}

/// The whole machine: CPU, memory and I/O bus.
pub struct MachineView {
    pub cpu: CpuView,
    pub mem: MemView,
    pub bus: BusView,
}

pub open spec fn machine_view(cpu: CpuView, mem: MemView, bus: BusView) -> MachineView {
    MachineView { cpu, mem, bus }
}

/// The CPU at reset.
pub open spec fn initial_cpu() -> CpuView {
    CpuView {
        regs: initial_regs(),
        flags: Flags { zero: false, carry: false, negative: false, overflow: false },
        pc: 0,
        state: CpuState::Running,
        cycles: 0,
    }
}

/// The effect of one step: fetch and decode at PC, execute, advance PC and
/// the cycle count. An error leaves the machine unchanged; a step that must
/// wait for input changes only the CPU state.
pub open spec fn step_spec(m: MachineView) -> (MachineView, EmuResult<()>) {
    let c = m.cpu;
    if c.state == CpuState::Halted {
        (m, Err(EmulatorError::Halted))
    } else {
        match decode_spec(m.mem, c.pc) {
            Err(e) => (m, Err(e)),
            Ok((instr, len)) => {
                let next_pc = wrap16(c.pc + len);
                match execute_spec(instr, next_pc, exec_view(c.regs, c.flags, m.mem, m.bus)) {
                    Err(e) => (m, Err(e)),
                    Ok((sr, s)) => match sr {
                        StepResult::Continue(new_pc) => (
                            MachineView {
                                cpu: CpuView {
                                    regs: s.regs,
                                    flags: s.flags,
                                    pc: new_pc,
                                    state: CpuState::Running,
                                    cycles: (c.cycles + 1) as u64,
                                },
                                mem: s.mem,
                                bus: s.bus,
                            },
                            Ok(()),
                        ),
                        StepResult::Halt => (
                            MachineView {
                                cpu: CpuView {
                                    regs: s.regs,
                                    flags: s.flags,
                                    pc: next_pc,
                                    state: CpuState::Halted,
                                    cycles: (c.cycles + 1) as u64,
                                },
                                mem: s.mem,
                                bus: s.bus,
                            },
                            Ok(()),
                        ),
                        StepResult::WaitInput => (
                            MachineView { cpu: CpuView { state: CpuState::WaitingInput, ..c }, ..m },
                            Ok(()),
                        ),
                    },
                }
            },
        }
    }
}

/// Whether `run` stops before stepping: halted, cycle limit reached, or the
/// cycle counter exhausted.
pub open spec fn run_stops(c: CpuView, max_cycles: Option<u64>) -> bool {
    ||| c.state == CpuState::Halted
    ||| (max_cycles matches Some(limit) && c.cycles >= limit)
    ||| c.cycles == u64::MAX
}

/// The effect of running: step until halted, the cycle limit (an absolute
/// total) is reached, an error, or a step that must wait for input.
pub open spec fn run_spec(m: MachineView, max_cycles: Option<u64>) -> (MachineView, EmuResult<()>)
    decreases u64::MAX - m.cpu.cycles,
{
    if run_stops(m.cpu, max_cycles) {
        (m, Ok(()))
    } else {
        let (m2, r) = step_spec(m);
        match r {
            Err(e) => (m2, Err(e)),
            Ok(()) => if m2.cpu.state == CpuState::WaitingInput {
                (m2, Ok(()))
            } else {
                run_spec(m2, max_cycles)
            },
        }
    }
}

impl Cpu {
    pub fn new() -> (c: Self)
        ensures
            c@ == initial_cpu(),
    {
        Cpu {
            regs: Registers::new(),
            flags: Flags::new(),
            pc: 0x0000u16,
            state: CpuState::Running,
            cycles: 0,
        }
    }

    pub fn reset(&mut self)
        ensures
            final(self)@ == initial_cpu(),
    {
        *self = Self::new();
    }

    pub fn is_halted(&self) -> (b: bool)
        ensures
            b == (self.state == CpuState::Halted),
    {
        self.state == CpuState::Halted
    }

    /// Execute one instruction. Returns an error if the CPU is already halted
    /// or an invalid opcode / bad memory access is encountered.
    pub fn step(&mut self, mem: &mut Memory, bus: &mut Bus) -> (r: EmuResult<()>)
        requires
            old(mem).wf(),
            old(self).cycles < u64::MAX,
        ensures
            final(mem).wf(),
            (machine_view(final(self)@, final(mem)@, final(bus)@), r) == step_spec(
                machine_view(old(self)@, old(mem)@, old(bus)@),
            ),
    {
        if self.state == CpuState::Halted {
            return Err(EmulatorError::Halted);
        }
        let (instr, len) = decode(mem, self.pc)?;
        let next_pc = self.pc.wrapping_add(len);
        proof {
            crate::flags::lemma_wrap16(self.pc, len);
        }
        match execute(instr, next_pc, &mut self.regs, &mut self.flags, mem, bus)? {
            StepResult::Continue(new_pc) => {
                self.pc = new_pc;
                self.state = CpuState::Running;
            },
            StepResult::Halt => {
                self.pc = next_pc;
                self.state = CpuState::Halted;
            },
            StepResult::WaitInput => {
                self.state = CpuState::WaitingInput;
                return Ok(());
            },
        }
        self.cycles += 1;
        Ok(())
    }

    /// Run until `HLT`, a step limit, an error, or a wait for input.
    pub fn run(&mut self, mem: &mut Memory, bus: &mut Bus, max_cycles: Option<u64>) -> (r: EmuResult<()>)
        requires
            old(mem).wf(),
        ensures
            final(mem).wf(),
            (machine_view(final(self)@, final(mem)@, final(bus)@), r) == run_spec(
                machine_view(old(self)@, old(mem)@, old(bus)@),
                max_cycles,
            ),
    {
        loop
            invariant
                mem.wf(),
                run_spec(machine_view(self@, mem@, bus@), max_cycles) == run_spec(
                    machine_view(old(self)@, old(mem)@, old(bus)@),
                    max_cycles,
                ),
            decreases u64::MAX - self.cycles,
        {
            if self.state == CpuState::Halted {
                return Ok(());
            }
            if let Some(limit) = max_cycles {
                if self.cycles >= limit {
                    return Ok(());
                }
            }
            if self.cycles == u64::MAX {
                return Ok(());
            }
            self.step(mem, bus)?;
            if self.state == CpuState::WaitingInput {
                return Ok(());
            }
        }
    }
}

impl Default for Cpu {
    fn default() -> (c: Self)
        ensures
            c@ == initial_cpu(),
    {
        Self::new()
    }
}

/// A step that succeeds without waiting for input counts exactly one cycle;
/// a failed step or one that waits changes no register, memory or cycle count.
pub proof fn lemma_step_cycles(m: MachineView)
    requires
        m.cpu.cycles < u64::MAX,
    ensures
        ({
            let (m2, r) = step_spec(m);
            &&& (r is Ok && m2.cpu.state != CpuState::WaitingInput) ==> m2.cpu.cycles == m.cpu.cycles + 1
            &&& r is Err ==> m2 == m
            &&& m2.cpu.state == CpuState::WaitingInput ==> m2.cpu.cycles == m.cpu.cycles && m2.mem == m.mem
        }),
{
}

/// `run` never takes the cycle count past its limit.
pub proof fn lemma_run_within_limit(m: MachineView, limit: u64)
    requires
        m.cpu.cycles <= limit,
    ensures
        run_spec(m, Some(limit)).0.cpu.cycles <= limit,
    decreases u64::MAX - m.cpu.cycles,
{
    if !run_stops(m.cpu, Some(limit)) {
        let (m2, r) = step_spec(m);
        if r is Ok && m2.cpu.state != CpuState::WaitingInput {
            lemma_run_within_limit(m2, limit);
        }
    }
}

/// A successful `run` stops only when the CPU has halted, the cycle limit is
/// reached, the cycle counter is exhausted, or an `in` waits for input.
pub proof fn lemma_run_outcome(m: MachineView, max_cycles: Option<u64>)
    ensures
        ({
            let (m2, r) = run_spec(m, max_cycles);
            r is Ok ==> run_stops(m2.cpu, max_cycles) || m2.cpu.state == CpuState::WaitingInput
        }),
    decreases u64::MAX - m.cpu.cycles,
{
    if !run_stops(m.cpu, max_cycles) {
        let (m2, r) = step_spec(m);
        if r is Ok && m2.cpu.state != CpuState::WaitingInput {
            lemma_run_outcome(m2, max_cycles);
        }
    }
}

} // verus!
