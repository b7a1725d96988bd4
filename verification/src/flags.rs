//! CPU status flags register.
use vstd::prelude::*;

verus! {

/// The four status flags produced by ALU operations.
#[derive(Debug, Clone, Copy, PartialEq, Eq, Structural)]
pub struct Flags {
    /// Set when the result is zero.
    pub zero: bool,
    /// Set when an unsigned carry-out / borrow occurred.
    pub carry: bool,
    /// Set when the result has bit 15 set (negative in two's complement).
    pub negative: bool,
    /// Set when a signed overflow occurred.
    pub overflow: bool,
}

/// Bit 15 of a word: its sign in two's complement.
pub open spec fn sign_bit(x: u16) -> bool {
    x >= 0x8000
}

/// A 16-bit word read as a two's-complement signed integer.
pub open spec fn as_signed(x: u16) -> int {
    if x >= 0x8000 { x - 0x10000 } else { x as int }
}

/// Reduce an integer modulo 2^16.
pub open spec fn wrap16(x: int) -> u16 {
    (x % 0x10000) as u16
}

/// Flags after a logic operation with result `r`: Z and N follow `r`, C and V are kept.
pub open spec fn zn_flags(old: Flags, r: u16) -> Flags {
    Flags { zero: r == 0, negative: sign_bit(r), ..old }
}

/// Flags after the addition `a + b + cin`.
pub open spec fn add_flags(a: u16, b: u16, cin: int) -> Flags {
    let full = a + b + cin;
    let r = wrap16(full);
    Flags {
        zero: r == 0,
        negative: sign_bit(r),
        carry: full > 0xFFFF,
        overflow: sign_bit(a) == sign_bit(b) && sign_bit(a) != sign_bit(r),
    }
}

/// Flags after the subtraction `a - b`.
pub open spec fn sub_flags(a: u16, b: u16) -> Flags {
    let r = wrap16(a - b);
    Flags {
        zero: r == 0,
        negative: sign_bit(r),
        carry: a >= b,
        overflow: sign_bit(a) != sign_bit(b) && sign_bit(a) != sign_bit(r),
    }
}

impl Default for Flags {
    fn default() -> (f: Self)
        ensures
            f == (Flags { zero: false, carry: false, negative: false, overflow: false }),
    {
        Flags { zero: false, carry: false, negative: false, overflow: false }
    }
}

impl Flags {
    /// All flags clear.
    pub fn new() -> (f: Self)
        ensures
            f == (Flags { zero: false, carry: false, negative: false, overflow: false }),
    {
        Flags { zero: false, carry: false, negative: false, overflow: false }
    }

    /// Update Z and N from a 16-bit result.
    pub fn set_zn(&mut self, result: u16)
        ensures
            *final(self) == zn_flags(*old(self), result),
    {
        self.zero = result == 0;
        self.negative = result & 0x8000 != 0;
        assert((result & 0x8000 != 0) == (result >= 0x8000)) by (bit_vector);
    }

    /// Update Z, N, C, and V after an addition: `a + b (+ cin)`.
    pub fn set_add(&mut self, a: u16, b: u16, cin: u32)
        requires
            a + b + cin <= u32::MAX,
        ensures
            *final(self) == add_flags(a, b, cin as int),
    {
        let full: u32 = (a as u32) + (b as u32) + cin;
        let result: u16 = (full % 0x10000) as u16;
        self.zero = result == 0;
        self.negative = result >= 0x8000;
        self.carry = full > 0xFFFF;
        // Overflow: same-sign inputs produced opposite-sign output.
        let sa = a >= 0x8000;
        let sb = b >= 0x8000;
        let sr = result >= 0x8000;
        self.overflow = (sa == sb) && (sa != sr);
    }

    /// Update Z, N, C, and V after a subtraction: `a - b`.
    pub fn set_sub(&mut self, a: u16, b: u16)
        ensures
            *final(self) == sub_flags(a, b),
    {
        let result: u16 = a.wrapping_sub(b);
        assert(result == wrap16(a - b));
        self.zero = result == 0;
        self.negative = result >= 0x8000;
        self.carry = a >= b;  // borrow = !carry
        let sa = a >= 0x8000;
        let sb = b >= 0x8000;
        let sr = result >= 0x8000;
        self.overflow = (sa != sb) && (sa != sr);
    }
}

/// Wrapping addition and subtraction on words agree with reduction mod 2^16.
pub proof fn lemma_wrap16(a: u16, b: u16)
    ensures
        a.wrapping_add(b) == wrap16(a + b),
        a.wrapping_sub(b) == wrap16(a - b),
{
}

/// After `cmp a, b` (flags of `a - b`), each signed branch condition of the
/// ISA holds exactly when the signed comparison it names holds, and the carry
/// flag holds exactly when `a >= b` unsigned.
pub proof fn lemma_compare_branches(a: u16, b: u16)
    ensures
        ({
            let f = sub_flags(a, b);
            &&& (!f.zero && (f.negative == f.overflow)) <==> as_signed(a) > as_signed(b)
            &&& (f.negative != f.overflow) <==> as_signed(a) < as_signed(b)
            &&& (f.negative == f.overflow) <==> as_signed(a) >= as_signed(b)
            &&& (f.zero || (f.negative != f.overflow)) <==> as_signed(a) <= as_signed(b)
            &&& f.zero <==> a == b
            &&& f.carry <==> a >= b
        }),
{
}

/// Addition flags: Z is set exactly when the wrapped sum is zero, C exactly when
/// the true sum does not fit in 16 bits, and V exactly when the signed sum does
/// not fit in 16 bits.
pub proof fn lemma_add_flags_meaning(a: u16, b: u16)
    ensures
        ({
            let f = add_flags(a, b, 0);
            &&& f.zero <==> wrap16(a + b) == 0
            &&& f.carry <==> a + b > 0xFFFF
            &&& f.overflow <==> !(-0x8000 <= as_signed(a) + as_signed(b) <= 0x7FFF)
        }),
{
}

} // verus!
