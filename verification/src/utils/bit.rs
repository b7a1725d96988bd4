//! Bit-level helpers on 16-bit words.
use vstd::prelude::*;
use vstd::arithmetic::power2::{lemma_pow2_unfold, pow2};
use vstd::bits::{lemma_u16_pow2_no_overflow, lemma_u16_shl_is_mul, lemma_u16_shr_is_div};

verus! {

/// Bit `pos` of `value` (bit 0 is the least significant).
pub open spec fn bit_at(value: u16, pos: nat) -> bool {
    (value as nat / pow2(pos)) % 2 == 1
}

/// The low `n` bits of `value` read as an `n`-bit two's-complement number.
pub open spec fn sign_extended(value: u16, n: nat) -> int {
    let low = value as nat % pow2(n);
    if n > 0 && low >= pow2((n - 1) as nat) {
        low - pow2(n)
    } else {
        low as int
    }
}

/// Bit `pos` of `x` is the low bit of `x >> pos`.
proof fn lemma_bit_at_shr(x: u16, pos: u16)
    requires
        pos < 16,
    ensures
        bit_at(x, pos as nat) == ((x >> pos) & 1u16 == 1u16),
{
    lemma_u16_shr_is_div(x, pos);
    let y = x >> pos;
    assert((y & 1u16 == 1u16) == (y % 2 == 1)) by (bit_vector);
}

/// Extract a bit from a `u16` value.
pub fn bit(value: u16, pos: u8) -> (b: bool)
    requires
        pos < 16,
    ensures
        b == bit_at(value, pos as nat),
{
    let p = pos as u16;
    proof {
        lemma_bit_at_shr(value, p);
    }
    assert(p < 16 ==> ((value & (1u16 << p)) != 0) == ((value >> p) & 1u16 == 1u16)) by (bit_vector);
    value & (1u16 << p) != 0
}

/// Set or clear a bit in a `u16` value: bit `pos` of the result is `set`,
/// every other bit is that of `value`.
pub fn set_bit(value: u16, pos: u8, set: bool) -> (r: u16)
    requires
        pos < 16,
    ensures
        forall|q: nat| q < 16 ==> #[trigger] bit_at(r, q) == if q == pos as nat {
            set
        } else {
            bit_at(value, q)
        },
{
    let p = pos as u16;
    let r = if set { value | (1u16 << p) } else { value & !(1u16 << p) };
    assert forall|q: nat| q < 16 implies #[trigger] bit_at(r, q) == if q == pos as nat {
        set
    } else {
        bit_at(value, q)
    } by {
        let qq = q as u16;
        lemma_bit_at_shr(r, qq);
        lemma_bit_at_shr(value, qq);
        assert(p < 16 && qq < 16 ==> (((value | (1u16 << p)) >> qq) & 1u16) == (if qq == p {
            1u16
        } else {
            (value >> qq) & 1u16
        })) by (bit_vector);
        assert(p < 16 && qq < 16 ==> (((value & !(1u16 << p)) >> qq) & 1u16) == (if qq == p {
            0u16
        } else {
            (value >> qq) & 1u16
        })) by (bit_vector);
    }
    r
}

/// Sign-extend an `n`-bit value to `i16` (`bits` above 16 count as 16).
pub fn sign_extend(value: u16, bits: u8) -> (r: i16)
    requires
        bits >= 1,
    ensures
        r == sign_extended(value, if bits > 16 { 16 } else { bits as nat }),
{
    let n: u32 = if bits > 16 { 16 } else { bits as u32 };
    let mut p: u32 = 1;
    let mut i: u32 = 0;
    proof {
        assert(pow2(0) == 1) by {
            vstd::arithmetic::power2::lemma2_to64();
        }
    }
    while i < n
        invariant
            i <= n <= 16,
            p == pow2(i as nat),
            1 <= p <= 0x1_0000,
        decreases n - i,
    {
        proof {
            lemma_pow2_unfold((i + 1) as nat);
            vstd::arithmetic::power2::lemma_pow2_strictly_increases(i as nat, (i + 1) as nat);
            if i + 1 < 16 {
                vstd::arithmetic::power2::lemma_pow2_strictly_increases((i + 1) as nat, 16);
            }
            vstd::arithmetic::power2::lemma2_to64();
        }
        p = p * 2;
        i = i + 1;
    }
    proof {
        if n > 0 {
            lemma_pow2_unfold(n as nat);
        }
    }
    let low: u32 = (value as u32) % p;
    let half: u32 = p / 2;
    if low >= half {
        (low as i32 - p as i32) as i16
    } else {
        low as i16
    }
}

} // verus!
