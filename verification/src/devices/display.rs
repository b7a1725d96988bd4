//! Display hardware.
//!
//! Text mode: 80×25 character cells backed by a memory-mapped frame buffer at
//! 0xC000; each cell is 2 bytes `[char_byte, attr_byte]` (4000 bytes in all,
//! ending at 0xCF9F).
//!
//! Pixel mode: a 1024×720 frame of 14-bit ARGB words stored in a backing store
//! of 180 banks of 8 KiB, one of which is visible through the window at
//! 0xA000–0xBFFF; control registers at 0xCFA0–0xCFA2.
use vstd::prelude::*;
use crate::text::push_char;

verus! {

pub const FB_BASE: u16 = 0xC000;

pub const FB_COLS: usize = 80;

pub const FB_ROWS: usize = 25;

pub const FB_SIZE: usize = FB_COLS * FB_ROWS * 2;

pub const SCREEN_W: usize = 1024;

pub const SCREEN_H: usize = 720;

pub const FB_PIXEL_BASE: u16 = 0xA000;

pub const FB_PIXEL_END: u16 = 0xBFFF;

/// Bytes visible through the bank window.
pub const FB_PIXEL_WINDOW: usize = 0x2000;

pub const FB_PIXEL_BANKS: usize = 180;

/// Bytes in the pixel backing store (2 per pixel).
pub const FB_PIXEL_BYTES: usize = SCREEN_W * SCREEN_H * 2;

pub const REG_DISP_MODE: u16 = 0xCFA0;

pub const REG_FB_BANK: u16 = 0xCFA1;

pub const REG_DISP_CTRL: u16 = 0xCFA2;

/// The bank-switched pixel frame buffer and its control registers.
#[derive(Clone)]
pub struct PixelDisplay {
    /// 0 = text mode, 1 = pixel mode.
    pub mode: u8,
    /// Active bank (0–179).
    pub bank: u8,
    /// Control register: bit 0 = vsync enable.
    pub ctrl: u8,
    pixels: Vec<u8>,
}

pub struct PixelView {
    pub mode: u8,
    pub bank: u8,
    pub ctrl: u8,
    pub pixels: Seq<u8>,
}

impl View for PixelDisplay {
    type V = PixelView;

    closed spec fn view(&self) -> PixelView {
        PixelView { mode: self.mode, bank: self.bank, ctrl: self.ctrl, pixels: self.pixels@ }
    }
}

/// Whether an address lies in the pixel bank window.
pub open spec fn in_pixel_window(addr: u16) -> bool {
    FB_PIXEL_BASE <= addr <= FB_PIXEL_END
}

/// Offset in the backing store of window address `addr` under bank `bank`.
pub open spec fn pixel_index(bank: u8, addr: u16) -> int {
    bank * FB_PIXEL_WINDOW + (addr - FB_PIXEL_BASE)
}

/// An all-zero backing store.
pub open spec fn blank_pixels() -> Seq<u8> {
    Seq::new(FB_PIXEL_BYTES as nat, |i: int| 0u8)
}

/// Expand a 14-bit ARGB pixel word (A: bits 13–12, R: 11–8, G: 7–4, B: 3–0)
/// to 0xAARRGGBB, scaling each channel to the full 8-bit range.
pub open spec fn argb32_of(w: int) -> u32 {
    (((w / 4096) % 4) * 85 * 0x1000000 + ((w / 256) % 16) * 17 * 0x10000 + ((w / 16) % 16) * 17
        * 0x100 + (w % 16) * 17) as u32
}

impl PixelView {
    pub open spec fn wf(self) -> bool {
        &&& self.pixels.len() == FB_PIXEL_BYTES
        &&& self.bank < FB_PIXEL_BANKS
    }

    /// The pixel word at pixel index `p` (little-endian byte pair).
    pub open spec fn word_at(self, p: int) -> int {
        self.pixels[2 * p] + 256 * self.pixels[2 * p + 1]
    }
}

impl PixelDisplay {
    pub open spec fn wf(&self) -> bool {
        self@.wf()
    }

    /// Text mode, bank 0, control clear, all pixels zero.
    pub fn new() -> (d: Self)
        ensures
            d.wf(),
            d@ == (PixelView { mode: 0, bank: 0, ctrl: 0, pixels: blank_pixels() }),
    {
        let pixels: Vec<u8> = vec![0u8; FB_PIXEL_BYTES];
        let d = PixelDisplay { mode: 0, bank: 0, ctrl: 0, pixels };
        assert(d@.pixels =~= blank_pixels());
        d
    }

    /// Read a byte of the active bank through the window.
    pub fn read_byte(&self, addr: u16) -> (b: u8)
        requires
            self.wf(),
            in_pixel_window(addr),
        ensures
            b == self@.pixels[pixel_index(self@.bank, addr)],
    {
        let idx: usize = (self.bank as usize) * FB_PIXEL_WINDOW + (addr - FB_PIXEL_BASE) as usize;
        self.pixels[idx]
    }

    /// Write a byte of the active bank through the window.
    pub fn write_byte(&mut self, addr: u16, value: u8)
        requires
            old(self).wf(),
            in_pixel_window(addr),
        ensures
            final(self).wf(),
            final(self)@ == (PixelView {
                pixels: old(self)@.pixels.update(pixel_index(old(self)@.bank, addr), value),
                ..old(self)@
            }),
    {
        let idx: usize = (self.bank as usize) * FB_PIXEL_WINDOW + (addr - FB_PIXEL_BASE) as usize;
        self.pixels.set(idx, value);
    }

    /// Set the display mode register.
    pub fn set_mode(&mut self, mode: u8)
        requires
            old(self).wf(),
        ensures
            final(self).wf(),
            final(self)@ == (PixelView { mode, ..old(self)@ }),
    {
        self.mode = mode;
    }

    /// Select the active bank.
    pub fn set_bank(&mut self, bank: u8)
        requires
            old(self).wf(),
            bank < FB_PIXEL_BANKS,
        ensures
            final(self).wf(),
            final(self)@ == (PixelView { bank, ..old(self)@ }),
    {
        self.bank = bank;
    }

    /// Set the control register.
    pub fn set_ctrl(&mut self, ctrl: u8)
        requires
            old(self).wf(),
        ensures
            final(self).wf(),
            final(self)@ == (PixelView { ctrl, ..old(self)@ }),
    {
        self.ctrl = ctrl;
    }

    /// The display mode: 0 = text, 1 = pixel.
    pub fn mode(&self) -> (m: u8)
        ensures
            m == self@.mode,
    {
        self.mode
    }

    /// Zero the whole backing store; registers are unchanged.
    pub fn clear(&mut self)
        requires
            old(self).wf(),
        ensures
            final(self).wf(),
            final(self)@ == (PixelView { pixels: blank_pixels(), ..old(self)@ }),
    {
        self.pixels = vec![0u8; FB_PIXEL_BYTES];
        assert(self@.pixels =~= blank_pixels());
    }

    /// The whole frame as 0xAARRGGBB words, row by row.
    pub fn to_argb32(&self) -> (out: Vec<u32>)
        requires
            self.wf(),
        ensures
            out@.len() == SCREEN_W * SCREEN_H,
            forall|p: int| 0 <= p < SCREEN_W * SCREEN_H ==> #[trigger] out@[p] == argb32_of(self@.word_at(p)),
    {
        let n: usize = SCREEN_W * SCREEN_H;
        let mut out: Vec<u32> = Vec::with_capacity(n);
        let mut p: usize = 0;
        while p < n
            invariant
                self.wf(),
                n == SCREEN_W * SCREEN_H,
                p <= n,
                out@.len() == p,
                forall|q: int| 0 <= q < p ==> #[trigger] out@[q] == argb32_of(self@.word_at(q)),
            decreases n - p,
        {
            let w: u32 = self.pixels[2 * p] as u32 + 256 * (self.pixels[2 * p + 1] as u32);
            let a: u32 = (w / 4096) % 4;
            let r: u32 = (w / 256) % 16;
            let g: u32 = (w / 16) % 16;
            let b: u32 = w % 16;
            let v: u32 = a * 85 * 0x1000000 + r * 17 * 0x10000 + g * 17 * 0x100 + b * 17;
            out.push(v);
            p += 1;
        }
        out
    }
}

/// A text character code as shown on screen: printable ASCII and space show
/// as themselves, everything else as a blank.
pub open spec fn shown_char(ch: u8) -> char {
    if (0x21 <= ch <= 0x7E) || ch == 0x20 { ch as char } else { ' ' }
}

/// A text cell `(char, attr)` rendered as (character, foreground, background).
pub open spec fn cell_of(ch: u8, attr: u8) -> (char, u8, u8) {
    (shown_char(ch), (attr % 16) as u8, ((attr / 16) % 8) as u8)
}

/// Number of whole cells of the text frame buffer that a memory image holds.
pub open spec fn cell_count(mem_len: int) -> int {
    let end = if FB_BASE + FB_SIZE <= mem_len { FB_BASE + FB_SIZE } else { mem_len };
    (end - FB_BASE) / 2
}

/// The rendered cells of the text frame buffer held in `mem`.
pub open spec fn render_spec(mem: Seq<u8>) -> Seq<(char, u8, u8)> {
    Seq::new(
        cell_count(mem.len() as int) as nat,
        |i: int| cell_of(mem[FB_BASE + 2 * i], mem[FB_BASE + 2 * i + 1]),
    )
}

/// The characters of rendered cells, a newline after every row of 80 (and
/// after a final partial row).
pub open spec fn text_of(cells: Seq<(char, u8, u8)>) -> Seq<char>
    decreases cells.len(),
{
    if cells.len() == 0 {
        Seq::empty()
    } else if cells.len() <= FB_COLS {
        cells.map_values(|c: (char, u8, u8)| c.0).push('\n')
    } else {
        cells.take(FB_COLS as int).map_values(|c: (char, u8, u8)| c.0).push('\n') + text_of(
            cells.skip(FB_COLS as int),
        )
    }
}

/// Renders the text frame buffer from raw memory.
pub struct Display;

impl Display {
    /// Read the frame buffer region from a flat memory slice and render each
    /// cell as `(character, foreground_color, background_color)`.
    pub fn render(mem: &[u8]) -> (cells: Vec<(char, u8, u8)>)
        requires
            mem@.len() >= FB_BASE,
        ensures
            cells@ == render_spec(mem@),
    {
        let start: usize = FB_BASE as usize;
        let end: usize = if start + FB_SIZE <= mem.len() { start + FB_SIZE } else { mem.len() };
        let n: usize = (end - start) / 2;
        let mut cells: Vec<(char, u8, u8)> = Vec::new();
        let mut i: usize = 0;
        while i < n
            invariant
                n == cell_count(mem@.len() as int),
                start == FB_BASE,
                start + 2 * n <= mem@.len(),
                i <= n,
                cells@.len() == i,
                forall|j: int| 0 <= j < i ==> #[trigger] cells@[j] == render_spec(mem@)[j],
            decreases n - i,
        {
            let ch = mem[start + 2 * i];
            let attr = mem[start + 2 * i + 1];
            let fg = attr % 16;
            let bg = (attr / 16) % 8;
            let c: char = if (0x21 <= ch && ch <= 0x7E) || ch == 0x20 { ch as char } else { ' ' };
            cells.push((c, fg, bg));
            i += 1;
        }
        assert(cells@ =~= render_spec(mem@));
        cells
    }

    /// Dump the frame buffer as plain text (newlines after every row).
    pub fn dump_text(mem: &[u8]) -> (out: String)
        requires
            mem@.len() >= FB_BASE,
        ensures
            out@ == text_of(render_spec(mem@)),
    {
        let cells = Self::render(mem);
        let mut out = String::new();
        let mut row: usize = 0;
        assert(cells@.skip(0) =~= cells@);
        assert(out@ + text_of(cells@) =~= text_of(cells@));
        while row < cells.len()
            invariant
                row <= cells@.len() || cells@.len() == 0,
                out@ + text_of(cells@.skip(row as int)) == text_of(cells@),
            decreases cells@.len() - row,
        {
            let end: usize = if cells.len() - row <= FB_COLS { cells.len() } else { row + FB_COLS };
            let ghost rest = cells@.skip(row as int);
            let ghost before = out@;
            let mut j: usize = row;
            while j < end
                invariant
                    row <= j <= end <= cells@.len(),
                    end - row <= FB_COLS,
                    out@ == before + cells@.subrange(row as int, j as int).map_values(
                        |c: (char, u8, u8)| c.0,
                    ),
                decreases end - j,
            {
                push_char(&mut out, cells[j].0);
                j += 1;
                assert(cells@.subrange(row as int, j as int).map_values(|c: (char, u8, u8)| c.0)
                    =~= cells@.subrange(row as int, j - 1).map_values(|c: (char, u8, u8)| c.0).push(
                    cells@[j - 1].0,
                ));
            }
            push_char(&mut out, '\n');
            proof {
                if rest.len() <= FB_COLS {
                    assert(cells@.subrange(row as int, end as int) =~= rest);
                } else {
                    assert(cells@.subrange(row as int, end as int) =~= rest.take(FB_COLS as int));
                    assert(rest.skip(FB_COLS as int) =~= cells@.skip(end as int));
                }
            }
            row = end;
            proof {
                if row as int >= cells@.len() {
                    assert(cells@.skip(row as int) =~= Seq::<(char, u8, u8)>::empty());
                }
            }
        }
        proof {
            assert(cells@.skip(row as int) =~= Seq::<(char, u8, u8)>::empty());
        }
        out
    }
}

/// The text of `n` rows of cells is `n` lines of 80 characters, each ended
/// by a newline.
proof fn lemma_text_rows(cells: Seq<(char, u8, u8)>, n: nat)
    requires
        cells.len() == 80 * n,
    ensures
        text_of(cells).len() == 81 * n,
        forall|r: int, c: int| 0 <= r < n && 0 <= c < 80 ==> #[trigger] text_of(cells)[81 * r + c] == cells[80 * r + c].0,
        forall|r: int| 0 <= r < n ==> #[trigger] text_of(cells)[81 * r + 80] == '\n',
    decreases n,
{
    if n == 1 {
        assert(cells.len() <= FB_COLS);
    } else if n > 1 {
        let rest = cells.skip(80);
        lemma_text_rows(rest, (n - 1) as nat);
        let head = cells.take(80).map_values(|c: (char, u8, u8)| c.0).push('\n');
        let t = text_of(cells);
        assert(t == head + text_of(rest));
        assert forall|r: int, c: int| 0 <= r < n && 0 <= c < 80 implies #[trigger] t[81 * r + c] == cells[80 * r + c].0 by {
            if r > 0 {
                assert(t[81 * r + c] == text_of(rest)[81 * (r - 1) + c]);
                assert(rest[80 * (r - 1) + c] == cells[80 * r + c]);
            }
        }
        assert forall|r: int| 0 <= r < n implies #[trigger] t[81 * r + 80] == '\n' by {
            if r > 0 {
                assert(t[81 * r + 80] == text_of(rest)[81 * (r - 1) + 80]);
            }
        }
    }
}

/// With the whole frame buffer in memory, `dump_text` gives 25 lines of 80
/// characters, each ended by a newline: line `r`, column `c` shows the
/// character of the cell at `FB_BASE + 2 * (80 * r + c)`.
pub proof fn lemma_dump_text_rows(mem: Seq<u8>)
    requires
        mem.len() >= FB_BASE + FB_SIZE,
    ensures
        text_of(render_spec(mem)).len() == FB_ROWS * (FB_COLS + 1),
        forall|r: int, c: int| 0 <= r < FB_ROWS && 0 <= c < FB_COLS ==> #[trigger] text_of(render_spec(mem))[81 * r + c]
            == shown_char(mem[FB_BASE + 2 * (80 * r + c)]),
        forall|r: int| 0 <= r < FB_ROWS ==> #[trigger] text_of(render_spec(mem))[81 * r + 80] == '\n',
{
    let cells = render_spec(mem);
    assert(cells.len() == 80 * 25);
    lemma_text_rows(cells, 25);
    assert forall|r: int, c: int| 0 <= r < FB_ROWS && 0 <= c < FB_COLS implies #[trigger] text_of(cells)[81 * r + c]
        == shown_char(mem[FB_BASE + 2 * (80 * r + c)]) by {
        assert(text_of(cells)[81 * r + c] == cells[80 * r + c].0);
    }
}

/// Each rendered cell holds the cell's character (itself if it is a printable
/// ASCII character or space, a space otherwise), the foreground colour from
/// the attribute's low nibble and the background colour from its bits 6-4.
pub proof fn lemma_render_cell(mem: Seq<u8>, i: int)
    requires
        mem.len() >= FB_BASE,
        0 <= i < render_spec(mem).len(),
    ensures
        ({
            let ch = mem[FB_BASE + 2 * i];
            let attr = mem[FB_BASE + 2 * i + 1];
            &&& render_spec(mem)[i].0 == if 0x20 <= ch <= 0x7E { ch as char } else { ' ' }
            &&& render_spec(mem)[i].1 == attr & 0x0F
            &&& render_spec(mem)[i].2 == (attr >> 4u8) & 0x07
        }),
{
    let attr = mem[FB_BASE + 2 * i + 1];
    assert(attr & 0x0F == (attr % 16) as u8 && (attr >> 4u8) & 0x07 == ((attr / 16) % 8) as u8) by (bit_vector);
}

} // verus!
