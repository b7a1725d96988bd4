//! Reading unsigned numbers from text.
use vstd::prelude::*;

verus! {

/// The value of digit `c` in base `radix` (10 or 16, either case).
pub open spec fn digit_value(c: char, radix: nat) -> Option<nat> {
    if '0' <= c <= '9' && (c as nat) - 48 < radix {
        Some(((c as nat) - 48) as nat)
    } else if radix == 16 && 'a' <= c <= 'f' {
        Some(((c as nat) - 87) as nat)
    } else if radix == 16 && 'A' <= c <= 'F' {
        Some(((c as nat) - 55) as nat)
    } else {
        None
    }
}

/// The value of a run of digits, or `None` if it is empty or holds a
/// character that is no digit of the base.
pub open spec fn digits_value(s: Seq<char>, radix: nat) -> Option<nat>
    decreases s.len(),
{
    if s.len() == 0 {
        None
    } else {
        match digit_value(s.last(), radix) {
            None => None,
            Some(d) => if s.len() == 1 {
                Some(d)
            } else {
                match digits_value(s.drop_last(), radix) {
                    None => None,
                    Some(v) => Some(v * radix + d),
                }
            },
        }
    }
}

/// An unsigned number as Rust's integer parsing reads it: an optional `+`,
/// then digits; `None` if malformed or above `max`.
pub open spec fn number_value(s: Seq<char>, radix: nat, max: nat) -> Option<nat> {
    let digits = if s.len() > 0 && s[0] == '+' { s.drop_first() } else { s };
    match digits_value(digits, radix) {
        Some(v) => if v <= max { Some(v) } else { None },
        None => None,
    }
}

fn digit_of(c: char, radix: u64) -> (d: Option<u64>)
    requires
        radix == 10 || radix == 16,
    ensures
        d == match digit_value(c, radix as nat) {
            Some(v) => Some(v as u64),
            None => None::<u64>,
        },
{
    if '0' <= c && c <= '9' && (c as u64) - 48 < radix {
        Some((c as u64) - 48)
    } else if radix == 16 && 'a' <= c && c <= 'f' {
        Some((c as u64) - 87)
    } else if radix == 16 && 'A' <= c && c <= 'F' {
        Some((c as u64) - 55)
    } else {
        None
    }
}

/// A valid run of digits is worth at least any valid prefix of it.
proof fn lemma_digits_prefix(s: Seq<char>, radix: nat, k: int)
    requires
        radix == 10 || radix == 16,
        1 <= k <= s.len(),
        digits_value(s, radix) is Some,
    ensures
        digits_value(s.take(k), radix) is Some,
        digits_value(s.take(k), radix).unwrap() <= digits_value(s, radix).unwrap(),
    decreases s.len(),
{
    if k < s.len() {
        assert(s.drop_last().take(k) =~= s.take(k));
        lemma_digits_prefix(s.drop_last(), radix, k);
        let v = digits_value(s.drop_last(), radix).unwrap();
        assert(v <= v * radix) by (nonlinear_arith)
            requires
                radix >= 1,
        ;
    } else {
        assert(s.take(k) =~= s);
    }
}

/// Reads a number in base `radix` (an optional `+`, then digits) no larger
/// than `max`.
pub fn parse_number(s: &[char], radix: u64, max: u64) -> (r: Option<u64>)
    requires
        radix == 10 || radix == 16,
    ensures
        r == match number_value(s@, radix as nat, max as nat) {
            Some(v) => Some(v as u64),
            None => None::<u64>,
        },
{
    let start: usize = if s.len() > 0 && s[0] == '+' { 1 } else { 0 };
    let ghost digits = if s@.len() > 0 && s@[0] == '+' { s@.drop_first() } else { s@ };
    assert(digits =~= s@.skip(start as int));
    if start >= s.len() {
        return None;
    }
    let mut acc: u64 = 0;
    let mut i: usize = start;
    while i < s.len()
        invariant
            radix == 10 || radix == 16,
            start < s@.len(),
            start <= i <= s@.len(),
            digits == s@.skip(start as int),
            digits == (if s@.len() > 0 && s@[0] == '+' { s@.drop_first() } else { s@ }),
            i > start ==> digits_value(digits.take(i - start), radix as nat) == Some(acc as nat),
            acc <= max,
        decreases s@.len() - i,
    {
        let k = i - start;
        assert(digits.take(k + 1).drop_last() =~= digits.take(k as int));
        assert(digits.take(k + 1).last() == s@[i as int]);
        match digit_of(s[i], radix) {
            None => {
                proof {
                    assert(digits_value(digits.take(k + 1), radix as nat) is None);
                    if digits_value(digits, radix as nat) is Some {
                        lemma_digits_prefix(digits, radix as nat, k + 1);
                    }
                }
                return None;
            },
            Some(d) => {
                if i > start {
                    if d > max || acc > (max - d) / radix {
                        proof {
                            if d <= max {
                                assert(acc * radix + d > max) by (nonlinear_arith)
                                    requires
                                        acc > (max - d) / (radix as int),
                                        radix >= 1,
                                        d <= max,
                                ;
                            }
                            if digits_value(digits, radix as nat) is Some {
                                lemma_digits_prefix(digits, radix as nat, k + 1);
                            }
                        }
                        return None;
                    }
                    assert(acc * radix + d <= max) by (nonlinear_arith)
                        requires
                            acc <= (max - d) / (radix as int),
                            radix >= 1,
                            d <= max,
                    ;
                    acc = acc * radix + d;
                } else {
                    if d > max {
                        proof {
                            assert(digits_value(digits.take(k + 1), radix as nat) == Some(d as nat));
                            if digits_value(digits, radix as nat) is Some {
                                lemma_digits_prefix(digits, radix as nat, 1);
                            }
                        }
                        return None;
                    }
                    acc = d;
                }
            },
        }
        i += 1;
    }
    assert(digits.take(i - start) =~= digits);
    Some(acc)
}

} // verus!
