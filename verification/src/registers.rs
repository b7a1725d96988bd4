//! General-purpose register file: r0–r15 (16-bit each).
//!
//! r14 is the stack pointer (SP); r15 is the link register (LR).
use vstd::prelude::*;

verus! {

pub const SP: u8 = 14;

pub const LR: u8 = 15;

/// Stack pointer initial value: top of the 64 KiB address space.
pub const SP_INIT: u16 = 0xFFFE;

/// The register that a register-index byte selects: its low four bits.
pub open spec fn reg_slot(index: u8) -> int {
    index as int % 16
}

/// The register file at reset: all zero but SP.
pub open spec fn initial_regs() -> Seq<u16> {
    Seq::new(16, |i: int| if i == SP as int { SP_INIT } else { 0u16 })
}

#[derive(Debug, Clone)]
pub struct Registers {
    regs: [u16; 16],
}

impl View for Registers {
    type V = Seq<u16>;

    closed spec fn view(&self) -> Seq<u16> {
        Seq::new(16, |i: int| self.regs@[i])
    }
}

impl Registers {
    pub fn new() -> (r: Self)
        ensures
            r@ == initial_regs(),
    {
        let mut regs: [u16; 16] = [0u16; 16];
        regs[SP as usize] = SP_INIT;
        let r = Registers { regs };
        assert(r@ =~= initial_regs());
        r
    }

    /// The register selected by the low nibble of `index`.
    pub fn get(&self, index: u8) -> (v: u16)
        ensures
            v == self@[reg_slot(index)],
    {
        let i = index & 0x0F;
        assert(index & 0x0F == index % 16) by (bit_vector);
        self.regs[i as usize]
    }

    /// Write the register selected by the low nibble of `index`.
    pub fn set(&mut self, index: u8, value: u16)
        ensures
            final(self)@ == old(self)@.update(reg_slot(index), value),
    {
        let i = index & 0x0F;
        assert(index & 0x0F == index % 16) by (bit_vector);
        self.regs[i as usize] = value;
        assert(self@ =~= old(self)@.update(reg_slot(index), value));
    }

    /// The register file always holds sixteen registers.
    pub proof fn lemma_len(&self)
        ensures
            self@.len() == 16,
    {
    }

    /// Decode a packed register byte: high nibble = rd, low nibble = rs.
    pub fn unpack(byte: u8) -> (r: (u8, u8))
        ensures
            r.0 == byte / 16,
            r.1 == byte % 16,
    {
        assert(byte >> 4 == byte / 16) by (bit_vector);
        assert(byte & 0x0F == byte % 16) by (bit_vector);
        (byte >> 4, byte & 0x0F)
    }
}

impl Default for Registers {
    fn default() -> (r: Self)
        ensures
            r@ == initial_regs(),
    {
        Self::new()
    }
}

/// Writing a register and reading it back gives the written value; every
/// other register keeps its value.
pub proof fn lemma_set_get(regs: Seq<u16>, i: u8, j: u8, value: u16)
    requires
        regs.len() == 16,
    ensures
        regs.update(reg_slot(i), value)[reg_slot(i)] == value,
        reg_slot(i) != reg_slot(j) ==> regs.update(reg_slot(i), value)[reg_slot(j)] == regs[reg_slot(j)],
{
}

} // verus!
