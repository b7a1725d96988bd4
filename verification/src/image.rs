//! ROM image tools: Intel HEX conversion and placing binary segments.
use vstd::prelude::*;
use vstd::utf8::encode_utf8;
use crate::debugger::monitor::{slice_chars, trim, trim_chars};
use crate::rsc::lexer::line_end;
use crate::text::{chars_of, push_char, push_chars, string_of, whitespace};
use crate::utils::hex::{hex_digit, hex_of, hex_pad, push_hex_pad};
use crate::utils::number::{digit_value, digits_value, number_value, parse_number};

verus! {

/// The sum of `s` modulo 256.
pub open spec fn byte_sum(s: Seq<u8>) -> nat
    decreases s.len(),
{
    if s.len() == 0 {
        0
    } else {
        ((byte_sum(s.drop_last()) + s.last()) % 256) as nat
    }
}

/// The Intel HEX checksum of `s`: the byte that brings its sum to 0 mod 256.
pub open spec fn checksum(s: Seq<u8>) -> u8 {
    ((256 - byte_sum(s)) % 256) as u8
}

/// The bytes of a data record: count, address (big-endian), type 0, the
/// data and the checksum.
pub open spec fn record_bytes(chunk: Seq<u8>, addr: u16) -> Seq<u8> {
    let body = seq![chunk.len() as u8, (addr / 256) as u8, (addr % 256) as u8, 0u8] + chunk;
    body.push(checksum(body))
}

/// Each byte as two upper-case hex digits.
pub open spec fn hex_bytes(s: Seq<u8>) -> Seq<char>
    decreases s.len(),
{
    if s.len() == 0 {
        Seq::empty()
    } else {
        hex_bytes(s.drop_last()) + hex_pad(s.last() as nat, 2)
    }
}

/// The data records of `data` from the `i`th 16-byte chunk on.
pub open spec fn ihex_records(data: Seq<u8>, i: nat) -> Seq<char>
    decreases data.len() + 16 - 16 * i,
{
    if 16 * i >= data.len() {
        Seq::empty()
    } else {
        let start: int = 16 * (i as int);
        let end: int = if start + 16 <= data.len() { start + 16 } else { data.len() as int };
        seq![':'] + hex_bytes(record_bytes(data.subrange(start, end), (start % 0x1_0000) as u16)) + seq!['\n']
            + ihex_records(data, i + 1)
    }
}

/// The end-of-file record.
pub open spec fn eof_record() -> Seq<char> {
    seq![':', '0', '0', '0', '0', '0', '0', '0', '1', 'F', 'F', '\n']
}

/// A binary image as Intel HEX: one data record per 16 bytes, then the
/// end-of-file record.
pub open spec fn ihex_text(data: Seq<u8>) -> Seq<char> {
    ihex_records(data, 0) + eof_record()
}

/// The byte two hex characters (or one, at the end of a line) stand for:
/// `None` unless they are ASCII and parse as a hex number.
pub open spec fn chunk_value(c: Seq<u8>) -> Option<u8> {
    if forall|k: int| 0 <= k < c.len() ==> c[k] < 0x80 {
        match number_value(c.map_values(|b: u8| b as char), 16, 255) {
            Some(v) => Some(v as u8),
            None => None,
        }
    } else {
        None
    }
}

/// The bytes of a record's text from the `k`th two-byte chunk on, chunks
/// that are no hex byte left out.
pub open spec fn hex_values(b: Seq<u8>, k: nat) -> Seq<u8>
    decreases b.len() + 2 - 2 * k,
{
    if 2 * k >= b.len() {
        Seq::empty()
    } else {
        let start: int = 2 * (k as int);
        let end: int = if start + 2 <= b.len() { start + 2 } else { b.len() as int };
        match chunk_value(b.subrange(start, end)) {
            Some(v) => seq![v] + hex_values(b, k + 1),
            None => hex_values(b, k + 1),
        }
    }
}

/// `img` with `data` written from `addr`, cut at 64 KiB.
pub open spec fn write_at(img: Seq<u8>, addr: int, data: Seq<u8>) -> Seq<u8> {
    Seq::new(img.len(), |j: int| if addr <= j < addr + data.len() { data[j - addr] } else { img[j] })
}

/// The effect of one (trimmed) line: whether it is the end-of-file record,
/// and the image and its used length after it.
pub open spec fn apply_line(t: Seq<char>, img: Seq<u8>, last: nat) -> (bool, Seq<u8>, nat) {
    if t.len() == 0 || t[0] != ':' {
        (false, img, last)
    } else {
        let bytes = hex_values(encode_utf8(t.drop_first()), 0);
        if bytes.len() < 5 {
            (false, img, last)
        } else if bytes[3] == 1 {
            (true, img, last)
        } else if bytes[3] != 0 {
            (false, img, last)
        } else {
            let addr = bytes[1] as int * 256 + bytes[2] as int;
            let n = if (bytes[0] as int) < bytes.len() - 5 { bytes[0] as int } else { bytes.len() - 5 };
            let end = if addr + n < 0x1_0000 { addr + n } else { 0x1_0000 };
            let data = bytes.subrange(4, 4 + (end - addr));
            (false, write_at(img, addr, data), if (last as int) < end { end as nat } else { last })
        }
    }
}

/// Reading the lines of `cs` from index `i` into `img` (used up to `last`).
pub open spec fn ihex_from(cs: Seq<char>, i: int, img: Seq<u8>, last: nat) -> (Seq<u8>, nat)
    decreases cs.len() + 1 - i,
{
    if i < 0 || i >= cs.len() {
        (img, last)
    } else {
        let j = line_end(cs, i);
        proof {
            crate::rsc::lexer::lemma_line_end(cs, i);
        }
        let (stop, img2, last2) = apply_line(trim(cs.subrange(i, j)), img, last);
        if stop {
            (img2, last2)
        } else {
            ihex_from(cs, j + 1, img2, last2)
        }
    }
}

/// The binary image an Intel HEX text describes: its data records written
/// into 64 KiB of zeros up to the first end-of-file record, cut after the
/// highest byte written.
pub open spec fn ihex_image(cs: Seq<char>) -> Seq<u8> {
    let (img, last) = ihex_from(cs, 0, Seq::new(0x1_0000, |j: int| 0u8), 0);
    img.take(last as int)
}

/// Appends each byte of `bytes` as two hex digits.
fn push_hex_bytes(out: &mut String, bytes: &[u8])
    ensures
        final(out)@ == old(out)@ + hex_bytes(bytes@),
{
    let mut k: usize = 0;
    while k < bytes.len()
        invariant
            k <= bytes@.len(),
            out@ == old(out)@ + hex_bytes(bytes@.take(k as int)),
        decreases bytes@.len() - k,
    {
        push_hex_pad(out, bytes[k] as usize, 2);
        k += 1;
        assert(bytes@.take(k as int).drop_last() =~= bytes@.take(k - 1));
        assert(out@ =~= old(out)@ + hex_bytes(bytes@.take(k as int)));
    }
    assert(bytes@.take(k as int) =~= bytes@);
}

/// The checksum of `s`.
fn checksum_of(s: &[u8]) -> (c: u8)
    ensures
        c == checksum(s@),
{
    let mut sum: u8 = 0;
    let mut k: usize = 0;
    while k < s.len()
        invariant
            k <= s@.len(),
            sum == byte_sum(s@.take(k as int)),
        decreases s@.len() - k,
    {
        assert(s@.take(k + 1).drop_last() =~= s@.take(k as int));
        sum = sum.wrapping_add(s[k]);
        k += 1;
    }
    assert(s@.take(k as int) =~= s@);
    0u8.wrapping_sub(sum)
}

/// Convert a binary image to Intel HEX records (16-byte data records, then
/// the end-of-file record).
pub fn bin_to_ihex(data: &[u8]) -> (out: String)
    requires
        data@.len() + 16 <= usize::MAX,
    ensures
        out@ == ihex_text(data@),
{
    let mut out = String::new();
    let n = data.len();
    let mut i: usize = 0;
    while i * 16 < n
        invariant
            n == data@.len(),
            n + 16 <= usize::MAX,
            16 * i <= n + 15,
            out@ + ihex_records(data@, i as nat) == ihex_records(data@, 0),
        decreases n + 16 - 16 * i,
    {
        let start = i * 16;
        let end = if start + 16 <= n { start + 16 } else { n };
        let ghost before = out@;
        let ghost chunk = data@.subrange(start as int, end as int);
        let addr = (start % 0x1_0000) as u16;
        let mut rec: Vec<u8> = Vec::new();
        rec.push((end - start) as u8);
        rec.push((addr / 256) as u8);
        rec.push((addr % 256) as u8);
        rec.push(0u8);
        let mut k = start;
        while k < end
            invariant
                start <= k <= end <= n == data@.len(),
                rec@ == seq![(end - start) as u8, (addr / 256) as u8, (addr % 256) as u8, 0u8] + data@.subrange(start as int, k as int),
            decreases end - k,
        {
            rec.push(data[k]);
            k += 1;
            assert(rec@ =~= seq![(end - start) as u8, (addr / 256) as u8, (addr % 256) as u8, 0u8] + data@.subrange(start as int, k as int));
        }
        let c = checksum_of(rec.as_slice());
        rec.push(c);
        assert(rec@ =~= record_bytes(chunk, addr));
        push_char(&mut out, ':');
        push_hex_bytes(&mut out, rec.as_slice());
        push_char(&mut out, '\n');
        assert(out@ =~= before + seq![':'] + hex_bytes(record_bytes(chunk, addr)) + seq!['\n']);
        i += 1;
    }
    push_chars(&mut out, &[':', '0', '0', '0', '0', '0', '0', '0', '1', 'F', 'F', '\n']);
    assert(out@ =~= ihex_text(data@));
    out
}

/// The bytes that the two-byte chunks of `b` stand for.
fn hex_values_of(b: &[u8]) -> (v: Vec<u8>)
    ensures
        v@ == hex_values(b@, 0),
{
    let mut v: Vec<u8> = Vec::new();
    let n = b.len();
    let mut start: usize = 0;
    let ghost mut k: nat = 0;
    while start < n
        invariant
            n == b@.len(),
            start == 2 * k || (start == n && 2 * k == n + 1),
            start <= n,
            v@ + hex_values(b@, k) == hex_values(b@, 0),
        decreases n - start,
    {
        let end = if n - start >= 2 { start + 2 } else { n };
        let ghost c = b@.subrange(start as int, end as int);
        let mut ascii = true;
        let mut cs: Vec<char> = Vec::new();
        let mut j = start;
        while j < end
            invariant
                start <= j <= end <= n == b@.len(),
                cs@ == b@.subrange(start as int, j as int).map_values(|x: u8| x as char),
                ascii == (forall|q: int| start <= q < j ==> b@[q] < 0x80),
            decreases end - j,
        {
            if b[j] >= 0x80 {
                ascii = false;
            }
            cs.push(b[j] as char);
            j += 1;
            assert(cs@ =~= b@.subrange(start as int, j as int).map_values(|x: u8| x as char));
        }
        let ghost before = v@;
        if ascii {
            match parse_number(cs.as_slice(), 16, 255) {
                Some(x) => {
                    v.push(x as u8);
                },
                None => {},
            }
        }
        proof {
            assert(ascii == (forall|q: int| 0 <= q < c.len() ==> c[q] < 0x80)) by {
                if ascii {
                    assert forall|q: int| 0 <= q < c.len() implies c[q] < 0x80 by {
                        assert(c[q] == b@[start + q]);
                    }
                } else {
                    let q = choose|q: int| start <= q < end && !(b@[q] < 0x80);
                    assert(c[q - start] == b@[q]);
                }
            }
            assert(cs@ == c.map_values(|x: u8| x as char));
            assert(v@ + hex_values(b@, k + 1) == hex_values(b@, 0)) by {
                if chunk_value(c) is Some {
                    assert(v@ =~= before + seq![chunk_value(c).unwrap()]);
                }
            }
            k = k + 1;
        }
        start = end;
    }
    assert(v@ =~= hex_values(b@, 0));
    v
}

/// Read an Intel HEX text into a binary image (see `ihex_image`).
pub fn ihex_to_bin(text: &str) -> (image: Vec<u8>)
    ensures
        image@ == ihex_image(text@),
{
    let cs = chars_of(text);
    let n = cs.len();
    let mut img: Vec<u8> = Vec::new();
    let mut z: usize = 0;
    while z < 0x1_0000
        invariant
            z <= 0x1_0000,
            img@ == Seq::new(z as nat, |j: int| 0u8),
        decreases 0x1_0000 - z,
    {
        img.push(0);
        z += 1;
        assert(img@ =~= Seq::new(z as nat, |j: int| 0u8));
    }
    let ghost target = ihex_from(cs@, 0, img@, 0);
    let mut last: usize = 0;
    let mut i: usize = 0;
    let mut done = false;
    while i < n && !done
        invariant
            n == cs@.len() == text@.len(),
            img@.len() == 0x1_0000,
            last <= 0x1_0000,
            i <= n,
            done ==> target == (img@, last as nat),
            !done ==> ihex_from(cs@, i as int, img@, last as nat) == target,
        decreases n + 1 - i + (if done { 0int } else { 1int }),
    {
        let mut j = i;
        proof {
            crate::rsc::lexer::lemma_line_end(cs@, i as int);
        }
        while j < n && cs[j] != '\n'
            invariant
                i <= j <= n == cs@.len(),
                line_end(cs@, j as int) == line_end(cs@, i as int),
            decreases n - j,
        {
            j += 1;
        }
        assert(line_end(cs@, j as int) == j);
        let seg = slice_chars(cs.as_slice(), i, j);
        let t = trim_chars(seg.as_slice());
        let ghost applied = apply_line(t@, img@, last as nat);
        let ghost (img_before, last_before) = (img@, last as nat);
        assert(ihex_from(cs@, i as int, img_before, last_before) == if applied.0 {
            (applied.1, applied.2)
        } else {
            ihex_from(cs@, j + 1, applied.1, applied.2)
        });
        if t.len() > 0 && t[0] == ':' {
            let rest = slice_chars(t.as_slice(), 1, t.len());
            assert(rest@ =~= t@.drop_first());
            let rs = string_of(rest.as_slice());
            let raw = rs.as_str().as_bytes();
            let bytes = hex_values_of(raw);
            if bytes.len() >= 5 {
                if bytes[3] == 1 {
                    done = true;
                } else if bytes[3] == 0 {
                    let addr: usize = (bytes[1] as usize) * 256 + (bytes[2] as usize);
                    let count = bytes[0] as usize;
                    let avail = bytes.len() - 5;
                    let cnt = if count < avail { count } else { avail };
                    let end = if addr + cnt < 0x1_0000 { addr + cnt } else { 0x1_0000 };
                    let ghost data = bytes@.subrange(4, 4 + (end - addr));
                    let ghost img0 = img@;
                    let mut q = addr;
                    while q < end
                        invariant
                            addr <= q <= end <= 0x1_0000,
                            end - addr <= bytes@.len() - 4,
                            img@.len() == 0x1_0000,
                            data == bytes@.subrange(4, 4 + (end - addr)),
                            forall|x: int| 0 <= x < 0x1_0000 ==> #[trigger] img@[x] == if addr <= x < q {
                                data[x - addr]
                            } else {
                                img0[x]
                            },
                        decreases end - q,
                    {
                        let b = bytes[4 + (q - addr)];
                        img.set(q, b);
                        q += 1;
                    }
                    assert(img@ =~= write_at(img0, addr as int, data));
                    if last < end {
                        last = end;
                    }
                }
            }
        }
        assert(img@ == applied.1 && last == applied.2);
        assert(done == applied.0);
        if !done {
            if j < n {
                i = j + 1;
            } else {
                assert(ihex_from(cs@, j + 1, img@, last as nat) == (img@, last as nat));
                i = n;
            }
        }
    }
    let mut out: Vec<u8> = Vec::new();
    let mut k: usize = 0;
    while k < last
        invariant
            k <= last <= img@.len(),
            out@ == img@.take(k as int),
        decreases last - k,
    {
        out.push(img[k]);
        k += 1;
        assert(out@ =~= img@.take(k as int));
    }
    out
}

/// The size of the ROM address space.
pub const ROM_SIZE: usize = 0x1_0000;

/// The length of `s` up to and including its last non-zero byte.
pub open spec fn used_len(s: Seq<u8>) -> nat
    decreases s.len(),
{
    if s.len() == 0 {
        0
    } else if s.last() != 0 {
        s.len()
    } else {
        used_len(s.drop_last())
    }
}

/// An empty ROM image: 64 KiB of zeros.
pub fn blank_rom() -> (image: Vec<u8>)
    ensures
        image@ == Seq::new(ROM_SIZE as nat, |j: int| 0u8),
{
    let mut img: Vec<u8> = Vec::new();
    let mut z: usize = 0;
    while z < ROM_SIZE
        invariant
            z <= ROM_SIZE,
            img@ == Seq::new(z as nat, |j: int| 0u8),
        decreases ROM_SIZE - z,
    {
        img.push(0);
        z += 1;
        assert(img@ =~= Seq::new(z as nat, |j: int| 0u8));
    }
    img
}

/// Copy a segment into a ROM image at `addr`, cutting it at the end of the
/// 64 KiB address space.
pub fn place_segment(image: &mut Vec<u8>, addr: u16, data: &[u8])
    requires
        old(image)@.len() == ROM_SIZE,
    ensures
        final(image)@ == write_at(
            old(image)@,
            addr as int,
            data@.take(if addr + data@.len() <= ROM_SIZE { data@.len() as int } else { ROM_SIZE - addr }),
        ),
{
    let a = addr as usize;
    let n = if data.len() <= ROM_SIZE - a { data.len() } else { ROM_SIZE - a };
    let ghost part = data@.take(n as int);
    let ghost img0 = image@;
    let mut q: usize = 0;
    while q < n
        invariant
            a == addr,
            n <= data@.len(),
            a + n <= ROM_SIZE,
            image@.len() == ROM_SIZE,
            part == data@.take(n as int),
            q <= n,
            forall|x: int| 0 <= x < ROM_SIZE ==> #[trigger] image@[x] == if a <= x < a + q { part[x - a] } else { img0[x] },
        decreases n - q,
    {
        image.set(a + q, data[q]);
        q += 1;
    }
    assert(image@ =~= write_at(img0, addr as int, part));
}

/// The image without its trailing zeros (at least one byte is kept).
pub fn trim_rom(image: &[u8]) -> (out: Vec<u8>)
    requires
        image@.len() >= 1,
    ensures
        out@ == image@.take(if used_len(image@) >= 1 { used_len(image@) as int } else { 1 }),
{
    let mut k = image.len();
    assert(image@.take(k as int) =~= image@);
    while k > 0 && image[k - 1] == 0
        invariant
            k <= image@.len(),
            used_len(image@) == used_len(image@.take(k as int)),
        decreases k,
    {
        assert(image@.take(k as int).drop_last() =~= image@.take(k - 1));
        k -= 1;
    }
    let keep = if k >= 1 { k } else { 1 };
    let mut out: Vec<u8> = Vec::new();
    let mut j: usize = 0;
    while j < keep
        invariant
            keep <= image@.len(),
            j <= keep,
            out@ == image@.take(j as int),
        decreases keep - j,
    {
        out.push(image[j]);
        j += 1;
        assert(out@ =~= image@.take(j as int));
    }
    out
}

/// A hex digit character: `0`-`9` or `A`-`F`.
spec fn hex_char(c: char) -> bool {
    ('0' <= c <= '9') || ('A' <= c <= 'F')
}

/// A byte's two hex digits read back as that byte.
proof fn lemma_hex_pad_byte(b: u8)
    ensures
        hex_pad(b as nat, 2).len() == 2,
        hex_char(hex_pad(b as nat, 2)[0]),
        hex_char(hex_pad(b as nat, 2)[1]),
        digits_value(hex_pad(b as nat, 2), 16) == Some(b as nat),
{
    let n = b as nat;
    reveal_with_fuel(hex_of, 2);
    let p = hex_pad(n, 2);
    if n < 16 {
        assert(p =~= seq!['0', hex_digit(n)]);
        assert(p.drop_last() =~= seq!['0']);
        lemma_hex_digit_value(n);
        assert(digits_value(p.drop_last(), 16) == Some(0nat));
    } else {
        assert(n / 16 < 16);
        assert(p =~= seq![hex_digit(n / 16), hex_digit(n % 16)]);
        assert(p.drop_last() =~= seq![hex_digit(n / 16)]);
        lemma_hex_digit_value(n / 16);
        lemma_hex_digit_value(n % 16);
        assert(digits_value(p.drop_last(), 16) == Some(n / 16));
    }
}

/// A hex digit is read back as its value.
proof fn lemma_hex_digit_value(d: nat)
    requires
        d < 16,
    ensures
        hex_char(hex_digit(d)),
        digit_value(hex_digit(d), 16) == Some(d),
{
}

/// The hex text of `s` is two hex digits per byte.
proof fn lemma_hex_bytes(s: Seq<u8>)
    ensures
        hex_bytes(s).len() == 2 * s.len(),
        forall|k: int| 0 <= k < s.len() ==> hex_bytes(s).subrange(2 * k, 2 * k + 2) == hex_pad(#[trigger] s[k] as nat, 2),
        forall|q: int| 0 <= q < hex_bytes(s).len() ==> hex_char(#[trigger] hex_bytes(s)[q]),
    decreases s.len(),
{
    if s.len() > 0 {
        let t = s.drop_last();
        lemma_hex_bytes(t);
        lemma_hex_pad_byte(s.last());
        let h = hex_bytes(s);
        assert(h == hex_bytes(t) + hex_pad(s.last() as nat, 2));
        assert forall|k: int| 0 <= k < s.len() implies h.subrange(2 * k, 2 * k + 2) == hex_pad(#[trigger] s[k] as nat, 2) by {
            if k < t.len() {
                assert(t[k] == s[k]);
                assert(h.subrange(2 * k, 2 * k + 2) =~= hex_bytes(t).subrange(2 * k, 2 * k + 2));
            } else {
                assert(h.subrange(2 * k, 2 * k + 2) =~= hex_pad(s.last() as nat, 2));
            }
        }
        assert forall|q: int| 0 <= q < h.len() implies hex_char(#[trigger] h[q]) by {
            if q < hex_bytes(t).len() {
                assert(h[q] == hex_bytes(t)[q]);
            } else {
                assert(h[q] == hex_pad(s.last() as nat, 2)[q - hex_bytes(t).len()]);
            }
        }
    }
}

/// Hex digits are ASCII, so their UTF-8 encoding is one byte each.
proof fn lemma_hex_text_ascii(h: Seq<char>)
    requires
        forall|q: int| 0 <= q < h.len() ==> hex_char(#[trigger] h[q]),
    ensures
        encode_utf8(h).len() == h.len(),
        forall|q: int| 0 <= q < h.len() ==> (#[trigger] encode_utf8(h)[q]) < 0x80 && encode_utf8(h)[q] as char == h[q],
{
    assert(vstd::utf8::is_ascii_chars(h));
    vstd::utf8::is_ascii_chars_encode_utf8(h);
    assert forall|q: int| 0 <= q < h.len() implies (#[trigger] encode_utf8(h)[q]) < 0x80 && encode_utf8(h)[q] as char == h[q] by {
        assert(hex_char(h[q]));
        assert(h[q] as u8 == encode_utf8(h)[q]);
    }
}

/// The bytes read back from the hex text of `s`, from its `k`th byte on.
proof fn lemma_hex_values_back(s: Seq<u8>, k: nat)
    requires
        k <= s.len(),
    ensures
        hex_values(encode_utf8(hex_bytes(s)), k) == s.skip(k as int),
    decreases s.len() - k,
{
    lemma_hex_bytes(s);
    let h = hex_bytes(s);
    lemma_hex_text_ascii(h);
    let e = encode_utf8(h);
    if k < s.len() {
        lemma_hex_values_back(s, k + 1);
        let start: int = 2 * (k as int);
        let c = e.subrange(start, start + 2);
        lemma_hex_pad_byte(s[k as int]);
        let p = hex_pad(s[k as int] as nat, 2);
        assert(h.subrange(start, start + 2) == p);
        assert(c.map_values(|b: u8| b as char) =~= p) by {
            assert(c[0] as char == h[start]);
            assert(c[1] as char == h[start + 1]);
        }
        assert(c[0] < 0x80 && c[1] < 0x80) by {
            assert(c[0] == e[start]);
            assert(c[1] == e[start + 1]);
        }
        assert(p[0] != '+');
        assert(chunk_value(c) == Some(s[k as int]));
        assert(s.skip(k as int) =~= seq![s[k as int]] + s.skip(k + 1 as int));
    } else {
        assert(s.skip(k as int) =~= Seq::<u8>::empty());
    }
}

/// A line whose ends are no whitespace is its own trim.
proof fn lemma_trim_unchanged(t: Seq<char>)
    requires
        t.len() > 0,
        !whitespace(t[0]),
        !whitespace(t.last()),
    ensures
        trim(t) == t,
{
    assert(crate::debugger::monitor::trim_start(t) == t);
}

/// In `line + "\n" + rest`, a line that holds no line feed ends at the feed.
proof fn lemma_line_end_at(cs: Seq<char>, line: Seq<char>, rest: Seq<char>, k: int)
    requires
        cs == line + seq!['\n'] + rest,
        forall|q: int| 0 <= q < line.len() ==> line[q] != '\n',
        0 <= k <= line.len(),
    ensures
        line_end(cs, k) == line.len(),
    decreases line.len() - k,
{
    if k < line.len() {
        assert(cs[k] == line[k]);
        lemma_line_end_at(cs, line, rest, k + 1);
    } else {
        assert(cs[k] == '\n');
    }
}

/// Where a line ends does not depend on the text before it.
proof fn lemma_line_end_shift(pre: Seq<char>, rest: Seq<char>, i: int)
    requires
        0 <= i <= rest.len(),
    ensures
        line_end(pre + rest, pre.len() + i) == pre.len() + line_end(rest, i),
    decreases rest.len() - i,
{
    if i < rest.len() {
        assert((pre + rest)[pre.len() + i] == rest[i]);
        if rest[i] != '\n' {
            lemma_line_end_shift(pre, rest, i + 1);
        }
    }
}

/// Reading lines does not depend on the text before them.
proof fn lemma_ihex_from_shift(pre: Seq<char>, rest: Seq<char>, i: int, img: Seq<u8>, last: nat)
    requires
        0 <= i,
    ensures
        ihex_from(pre + rest, pre.len() + i, img, last) == ihex_from(rest, i, img, last),
    decreases rest.len() + 1 - i,
{
    let cs = pre + rest;
    if i < rest.len() {
        lemma_line_end_shift(pre, rest, i);
        crate::rsc::lexer::lemma_line_end(rest, i);
        let j = line_end(rest, i);
        assert(cs.subrange(pre.len() + i, pre.len() + j) =~= rest.subrange(i, j));
        let (stop, img2, last2) = apply_line(trim(rest.subrange(i, j)), img, last);
        if !stop {
            lemma_ihex_from_shift(pre, rest, j + 1, img2, last2);
        }
    }
}

/// A data record's line writes its chunk at its address.
proof fn lemma_apply_record(chunk: Seq<u8>, addr: u16, img: Seq<u8>, last: nat)
    requires
        1 <= chunk.len() <= 16,
        addr + chunk.len() <= 0x1_0000,
    ensures
        apply_line(seq![':'] + hex_bytes(record_bytes(chunk, addr)), img, last) == (
            false,
            write_at(img, addr as int, chunk),
            if last < addr + chunk.len() { (addr + chunk.len()) as nat } else { last },
        ),
{
    let rb = record_bytes(chunk, addr);
    let t = seq![':'] + hex_bytes(rb);
    assert(t.drop_first() =~= hex_bytes(rb));
    lemma_hex_values_back(rb, 0);
    assert(rb.skip(0) =~= rb);
    let bytes = hex_values(encode_utf8(t.drop_first()), 0);
    assert(bytes == rb);
    assert(bytes.len() == chunk.len() + 5);
    assert(bytes[3] == 0);
    assert(bytes[0] == chunk.len());
    assert(bytes[1] as int * 256 + bytes[2] as int == addr);
    assert(bytes.subrange(4, 4 + chunk.len() as int) =~= chunk);
}

/// The end-of-file record stops the reading.
proof fn lemma_eof_read(img: Seq<u8>, last: nat)
    ensures
        ihex_from(eof_record(), 0, img, last) == (img, last),
{
    let cs = eof_record();
    let line = cs.take(11);
    assert(cs =~= line + seq!['\n'] + Seq::<char>::empty());
    lemma_line_end_at(cs, line, Seq::<char>::empty(), 0);
    assert(cs.subrange(0, 11) =~= line);
    lemma_trim_unchanged(line);
    let s: Seq<u8> = seq![0u8, 0u8, 0u8, 1u8, 255u8];
    lemma_hex_bytes(s);
    reveal_with_fuel(hex_of, 2);
    assert(hex_pad(0, 2) =~= seq!['0', '0']);
    assert(hex_pad(1, 2) =~= seq!['0', '1']);
    assert(hex_pad(255, 2) =~= seq!['F', 'F']);
    let h = hex_bytes(s);
    assert(h.subrange(0, 2) == hex_pad(s[0] as nat, 2));
    assert(h.subrange(2, 4) == hex_pad(s[1] as nat, 2));
    assert(h.subrange(4, 6) == hex_pad(s[2] as nat, 2));
    assert(h.subrange(6, 8) == hex_pad(s[3] as nat, 2));
    assert(h.subrange(8, 10) == hex_pad(s[4] as nat, 2));
    assert(line.drop_first() =~= h) by {
        assert forall|q: int| 0 <= q < 10 implies line.drop_first()[q] == h[q] by {
            let k = q / 2;
            assert(h[q] == h.subrange(2 * k, 2 * k + 2)[q - 2 * k]);
        }
    }
    lemma_hex_values_back(s, 0);
    assert(s.skip(0) =~= s);
}

/// 64 KiB of zeros.
spec fn zero_rom() -> Seq<u8> {
    Seq::new(0x1_0000, |j: int| 0u8)
}

/// Zeros with the first `m` bytes of `d` written over them.
spec fn rom_with(d: Seq<u8>, m: int) -> Seq<u8> {
    write_at(zero_rom(), 0, d.take(m))
}

/// Reading the records of `d` from the `i`th on, with those before already
/// read, gives `d` written over zeros, used up to its length.
proof fn lemma_records_read(d: Seq<u8>, i: nat)
    requires
        d.len() <= 0x1_0000,
    ensures
        ({
            let m: int = if 16 * i <= d.len() { 16 * (i as int) } else { d.len() as int };
            ihex_from(ihex_records(d, i) + eof_record(), 0, rom_with(d, m), m as nat) == (rom_with(d, d.len() as int), d.len())
        }),
    decreases d.len() + 16 - 16 * i,
{
    if 16 * i >= d.len() {
        assert(ihex_records(d, i) + eof_record() =~= eof_record());
        lemma_eof_read(rom_with(d, d.len() as int), d.len());
    } else {
        let start: int = 16 * (i as int);
        let end: int = if start + 16 <= d.len() { start + 16 } else { d.len() as int };
        let chunk = d.subrange(start, end);
        let addr = (start % 0x1_0000) as u16;
        assert(addr == start);
        let rb = record_bytes(chunk, addr);
        let line = seq![':'] + hex_bytes(rb);
        let rest = ihex_records(d, i + 1) + eof_record();
        let cs = ihex_records(d, i) + eof_record();
        assert(cs =~= line + seq!['\n'] + rest);
        lemma_hex_bytes(rb);
        assert forall|q: int| 0 <= q < line.len() implies line[q] != '\n' by {
            if q > 0 {
                assert(line[q] == hex_bytes(rb)[q - 1]);
                assert(hex_char(hex_bytes(rb)[q - 1]));
            }
        }
        lemma_line_end_at(cs, line, rest, 0);
        assert(cs.subrange(0, line.len() as int) =~= line);
        assert(hex_char(hex_bytes(rb)[hex_bytes(rb).len() - 1]));
        assert(line.last() == hex_bytes(rb)[hex_bytes(rb).len() - 1]);
        lemma_trim_unchanged(line);
        let img = rom_with(d, start);
        lemma_apply_record(chunk, addr, img, start as nat);
        let img2 = write_at(img, start, chunk);
        assert(img2 =~= rom_with(d, end));
        assert(line + seq!['\n'] + rest =~= (line + seq!['\n']) + rest);
        lemma_ihex_from_shift(line + seq!['\n'], rest, 0, img2, end as nat);
        lemma_records_read(d, i + 1);
    }
}

/// Reading back the Intel HEX text of an image that fits the 64 KiB address
/// space gives the image.
pub proof fn lemma_ihex_round_trip(data: Seq<u8>)
    requires
        data.len() <= 0x1_0000,
    ensures
        ihex_image(ihex_text(data)) == data,
{
    lemma_records_read(data, 0);
    assert(rom_with(data, 0) =~= Seq::new(0x1_0000, |j: int| 0u8));
    assert(rom_with(data, data.len() as int).take(data.len() as int) =~= data);
}

} // verus!
