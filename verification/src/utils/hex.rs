//! Hexadecimal formatting.
use vstd::prelude::*;
use crate::text::{push_char, push_chars};

verus! {

/// The upper-case hex digit for `d` (0–15).
pub open spec fn hex_digit(d: nat) -> char {
    if d < 10 {
        (48 + d) as char
    } else {
        (55 + d) as char
    }
}

/// The digits of `n` in upper-case hex, without leading zeros (one digit for 0).
pub open spec fn hex_of(n: nat) -> Seq<char>
    decreases n,
{
    if n < 16 {
        seq![hex_digit(n)]
    } else {
        hex_of(n / 16).push(hex_digit(n % 16))
    }
}

/// `n` in upper-case hex, padded with zeros to at least `width` digits.
pub open spec fn hex_pad(n: nat, width: nat) -> Seq<char> {
    let d = hex_of(n);
    if d.len() < width {
        Seq::new((width - d.len()) as nat, |i: int| '0') + d
    } else {
        d
    }
}

/// The decimal digits of `n`.
pub open spec fn dec_of(n: nat) -> Seq<char>
    decreases n,
{
    if n < 10 {
        seq![(48 + n) as char]
    } else {
        dec_of(n / 10).push((48 + n % 10) as char)
    }
}

/// Whether `b` is printed as itself in a dump: ASCII graphic characters and space.
pub open spec fn printable(b: u8) -> bool {
    0x20 <= b <= 0x7E
}

/// The character a dump shows for byte `b`.
pub open spec fn shown(b: u8) -> char {
    if printable(b) {
        b as char
    } else {
        '.'
    }
}

/// The hex column of a dump row: sixteen three-character slots (the byte's
/// two digits and a space, or three spaces past the end of the data), with
/// one extra space before the ninth.
pub open spec fn hex_columns(chunk: Seq<u8>, j: nat) -> Seq<char>
    decreases j,
{
    if j == 0 {
        Seq::empty()
    } else {
        let k = (j - 1) as nat;
        let gap: Seq<char> = if k == 8 { seq![' '] } else { Seq::empty() };
        let slot: Seq<char> = if k < chunk.len() {
            hex_pad(chunk[k as int] as nat, 2) + seq![' ']
        } else {
            seq![' ', ' ', ' ']
        };
        hex_columns(chunk, k) + gap + slot
    }
}

/// The ASCII column of a dump row.
pub open spec fn ascii_column(chunk: Seq<u8>) -> Seq<char> {
    chunk.map_values(|b: u8| shown(b))
}

/// One row of a dump: the address, the hex column and the ASCII column.
pub open spec fn dump_row(chunk: Seq<u8>, addr: nat) -> Seq<char> {
    hex_pad(addr, 4) + seq![' ', ' '] + hex_columns(chunk, 16) + seq![' ', '|'] + ascii_column(chunk)
        + seq!['|', '\n']
}

/// The dump of `data` from row `i` on, rows of 16 bytes, the first byte at
/// address `base`.
pub open spec fn dump_rows(data: Seq<u8>, base: nat, i: nat) -> Seq<char>
    decreases data.len() + 16 - 16 * i,
{
    if 16 * i >= data.len() {
        Seq::empty()
    } else {
        let start: int = 16 * (i as int);
        let end: int = if start + 16 <= data.len() { start + 16 } else { data.len() as int };
        dump_row(data.subrange(start, end), base + 16 * i) + dump_rows(data, base, i + 1)
    }
}

fn digit_char(d: u8) -> (c: char)
    requires
        d < 16,
    ensures
        c == hex_digit(d as nat),
{
    if d < 10 {
        (48u8 + d) as char
    } else {
        (55u8 + d) as char
    }
}

/// Appends the decimal digits of `n`.
pub(crate) fn push_dec(out: &mut String, n: u64)
    ensures
        final(out)@ == old(out)@ + dec_of(n as nat),
    decreases n,
{
    if n >= 10 {
        push_dec(out, n / 10);
    }
    push_char(out, ((n % 10) as u8 + 48) as char);
}

/// Appends the hex digits of `n`.
fn push_hex(out: &mut String, n: usize)
    ensures
        final(out)@ == old(out)@ + hex_of(n as nat),
    decreases n,
{
    if n >= 16 {
        push_hex(out, n / 16);
    }
    push_char(out, digit_char((n % 16) as u8));
}

/// The number of hex digits of `n`.
fn hex_len(n: usize) -> (k: usize)
    ensures
        k == hex_of(n as nat).len(),
        k <= 16,
    decreases n,
{
    if n >= 16 {
        proof {
            lemma_hex_len_bound(n as nat);
        }
        hex_len(n / 16) + 1
    } else {
        1
    }
}

spec fn pow16(k: nat) -> nat
    decreases k,
{
    if k == 0 {
        1
    } else {
        16 * pow16((k - 1) as nat)
    }
}

/// A number below 16^k has at most k hex digits.
proof fn lemma_hex_len_pow(n: nat, k: nat)
    requires
        n < pow16(k),
        k >= 1,
    ensures
        hex_of(n).len() <= k,
        hex_of(n).len() >= 1,
    decreases n,
{
    if n >= 16 {
        if k == 1 {
            assert(pow16(1) == 16) by {
                reveal_with_fuel(pow16, 2);
            }
            assert(false);
        }
        lemma_hex_len_pow(n / 16, (k - 1) as nat);
    }
}

proof fn lemma_hex_len_bound(n: nat)
    ensures
        n <= usize::MAX ==> hex_of(n).len() <= 16,
        hex_of(n).len() >= 1,
        n < 0x1_0000 ==> hex_of(n).len() <= 4,
        n < 0x100 ==> hex_of(n).len() <= 2,
{
    assert(pow16(2) == 0x100 && pow16(4) == 0x1_0000 && pow16(16) == 0x1_0000_0000_0000_0000) by {
        reveal_with_fuel(pow16, 17);
    }
    if n <= usize::MAX {
        lemma_hex_len_pow(n, 16);
    }
    if n < 0x1_0000 {
        lemma_hex_len_pow(n, 4);
    }
    if n < 0x100 {
        lemma_hex_len_pow(n, 2);
    }
}

/// A byte padded to two hex digits takes exactly two characters.
pub proof fn lemma_hex_pad_width(n: nat, width: nat)
    requires
        n < 0x100,
        width == 2,
    ensures
        hex_pad(n, width).len() == 2,
{
    lemma_hex_len_bound(n);
}

/// Appends `n` in hex, zero-padded to `width` digits.
pub(crate) fn push_hex_pad(out: &mut String, n: usize, width: usize)
    ensures
        final(out)@ == old(out)@ + hex_pad(n as nat, width as nat),
{
    let k = hex_len(n);
    let mut i: usize = k;
    while i < width
        invariant
            k <= i <= if width > k { width } else { k },
            out@ == old(out)@ + Seq::new((i - k) as nat, |j: int| '0'),
        decreases width - i,
    {
        push_char(out, '0');
        i += 1;
        assert(out@ =~= old(out)@ + Seq::new((i - k) as nat, |j: int| '0'));
    }
    push_hex(out, n);
    assert(out@ =~= old(out)@ + hex_pad(n as nat, width as nat));
}

/// Format a `u16` as a zero-padded 4-digit hex string.
pub fn hex16(value: u16) -> (s: String)
    ensures
        s@ == hex_pad(value as nat, 4),
        s@.len() == 4,
{
    proof {
        lemma_hex_len_bound(value as nat);
    }
    let mut s = String::new();
    push_hex_pad(&mut s, value as usize, 4);
    s
}

/// Format a `u8` as a zero-padded 2-digit hex string.
pub fn hex8(value: u8) -> (s: String)
    ensures
        s@ == hex_pad(value as nat, 2),
        s@.len() == 2,
{
    proof {
        lemma_hex_len_bound(value as nat);
    }
    let mut s = String::new();
    push_hex_pad(&mut s, value as usize, 2);
    s
}

/// Format a byte slice as a hex dump (16 bytes per row).
pub fn hex_dump(data: &[u8], base_addr: u16) -> (out: String)
    requires
        base_addr + data@.len() + 16 <= usize::MAX,
    ensures
        out@ == dump_rows(data@, base_addr as nat, 0),
{
    let mut out = String::new();
    let mut i: usize = 0;
    let n = data.len();
    while i * 16 < n
        invariant
            n == data@.len(),
            16 * i <= n + 15,
            base_addr + n + 16 <= usize::MAX,
            out@ + dump_rows(data@, base_addr as nat, i as nat) == dump_rows(data@, base_addr as nat, 0),
        decreases n + 16 - 16 * i,
    {
        let start = i * 16;
        let end = if start + 16 <= n { start + 16 } else { n };
        let chunk = &data[start..end];
        let ghost before = out@;
        let addr = (base_addr as usize) + start;
        push_hex_pad(&mut out, addr, 4);
        push_chars(&mut out, &[' ', ' ']);
        let mut j: usize = 0;
        while j < 16
            invariant
                j <= 16,
                chunk@ == data@.subrange(start as int, end as int),
                out@ == before + hex_pad(addr as nat, 4) + seq![' ', ' '] + hex_columns(chunk@, j as nat),
            decreases 16 - j,
        {
            let ghost mid = out@;
            if j == 8 {
                push_char(&mut out, ' ');
            }
            if j < chunk.len() {
                push_hex_pad(&mut out, chunk[j] as usize, 2);
                push_char(&mut out, ' ');
            } else {
                push_chars(&mut out, &[' ', ' ', ' ']);
            }
            j += 1;
            assert(out@ =~= before + hex_pad(addr as nat, 4) + seq![' ', ' '] + hex_columns(chunk@, j as nat));
        }
        push_chars(&mut out, &[' ', '|']);
        let ghost mid2 = out@;
        let mut k: usize = 0;
        while k < chunk.len()
            invariant
                k <= chunk@.len(),
                out@ == mid2 + ascii_column(chunk@.take(k as int)),
            decreases chunk@.len() - k,
        {
            let b = chunk[k];
            let c = if 0x20 <= b && b <= 0x7E { b as char } else { '.' };
            push_char(&mut out, c);
            k += 1;
            assert(ascii_column(chunk@.take(k as int)) =~= ascii_column(chunk@.take(k - 1)).push(shown(b)));
        }
        assert(chunk@.take(k as int) =~= chunk@);
        push_chars(&mut out, &['|', '\n']);
        assert(out@ =~= before + dump_row(chunk@, addr as nat));
        i += 1;
    }
    assert(out@ == dump_rows(data@, base_addr as nat, 0));
    out
}

} // verus!
