//! Top-level machine: holds CPU, memory, and bus together.
use vstd::prelude::*;
use crate::bus::{initial_bus, Bus};
use crate::cpu::{initial_cpu, run_spec, step_spec, Cpu, CpuState, MachineView};
use crate::error::EmuResult;
use crate::memory::{initial_mem, load_spec, Memory};

verus! {

pub struct Machine {
    pub cpu: Cpu,
    pub mem: Memory,
    pub bus: Bus,
}

impl View for Machine {
    type V = MachineView;

    open spec fn view(&self) -> MachineView {
        MachineView { cpu: self.cpu@, mem: self.mem@, bus: self.bus@ }
    }
}

/// The machine at power-on.
pub open spec fn initial_machine() -> MachineView {
    MachineView { cpu: initial_cpu(), mem: initial_mem(), bus: initial_bus() }
}

impl Machine {
    pub open spec fn wf(&self) -> bool {
        self.mem.wf()
    }

    pub fn new() -> (m: Self)
        ensures
            m.wf(),
            m@ == initial_machine(),
    {
        Machine { cpu: Cpu::new(), mem: Memory::new(), bus: Bus::new() }
    }

    /// Load a binary ROM image into memory starting at address 0.
    pub fn load_rom(&mut self, image: &[u8])
        requires
            old(self).wf(),
        ensures
            final(self).wf(),
            final(self)@ == (MachineView { mem: load_spec(old(self)@.mem, image@), ..old(self)@ }),
    {
        self.mem.load(image);
    }

    /// Reset the CPU to its initial state (memory is preserved).
    pub fn reset(&mut self)
        requires
            old(self).wf(),
        ensures
            final(self).wf(),
            final(self)@ == (MachineView { cpu: initial_cpu(), ..old(self)@ }),
    {
        self.cpu.reset();
    }

    pub fn is_halted(&self) -> (b: bool)
        ensures
            b == (self@.cpu.state == CpuState::Halted),
    {
        self.cpu.state == CpuState::Halted
    }

    /// Whether the CPU is stopped at an `in` waiting for host input.
    pub fn is_waiting_input(&self) -> (b: bool)
        ensures
            b == (self@.cpu.state == CpuState::WaitingInput),
    {
        self.cpu.state == CpuState::WaitingInput
    }

    /// Execute one instruction.
    pub fn step(&mut self) -> (r: EmuResult<()>)
        requires
            old(self).wf(),
            old(self)@.cpu.cycles < u64::MAX,
        ensures
            final(self).wf(),
            (final(self)@, r) == step_spec(old(self)@),
    {
        self.cpu.step(&mut self.mem, &mut self.bus)
    }

    /// Run until HLT, the optional cycle limit, an error, or a wait for input.
    pub fn run(&mut self, max_cycles: Option<u64>) -> (r: EmuResult<()>)
        requires
            old(self).wf(),
        ensures
            final(self).wf(),
            (final(self)@, r) == run_spec(old(self)@, max_cycles),
    {
        self.cpu.run(&mut self.mem, &mut self.bus, max_cycles)
    }
}

/// Instructions the emulator runs per rendered frame of its window.
pub const STEPS_PER_FRAME: u64 = 200_000;

/// The cycle ceiling of the next frame: `STEPS_PER_FRAME` past the current
/// count (saturating), capped by the global limit if there is one.
pub open spec fn frame_limit_spec(cycles: u64, max_cycles: Option<u64>) -> u64 {
    let ceil: u64 = if cycles + STEPS_PER_FRAME <= u64::MAX { (cycles + STEPS_PER_FRAME) as u64 } else { u64::MAX };
    match max_cycles {
        Some(g) => if ceil < g { ceil } else { g },
        None => ceil,
    }
}

/// The cycle ceiling to run the next frame to (see `frame_limit_spec`).
pub fn frame_limit(cycles: u64, max_cycles: Option<u64>) -> (l: u64)
    ensures
        l == frame_limit_spec(cycles, max_cycles),
{
    let ceil = cycles.saturating_add(STEPS_PER_FRAME);
    match max_cycles {
        Some(g) => if ceil < g { ceil } else { g },
        None => ceil,
    }
}

impl Machine {
    /// Whether the emulator's window loop stops running the machine: it has
    /// halted, or reached the global cycle limit.
    pub fn stopped(&self, max_cycles: Option<u64>) -> (b: bool)
        ensures
            b == (self@.cpu.state == CpuState::Halted || (max_cycles matches Some(g) && self@.cpu.cycles >= g)),
    {
        let halted = self.cpu.state == CpuState::Halted;
        match max_cycles {
            Some(g) => halted || self.cpu.cycles >= g,
            None => halted,
        }
    }
}

impl Default for Machine {
    fn default() -> (m: Self)
        ensures
            m.wf(),
            m@ == initial_machine(),
    {
        Self::new()
    }
}

} // verus!
