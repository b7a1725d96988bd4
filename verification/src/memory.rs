//! Flat RAM (1 GiB, of which the 16-bit CPU reaches the first 64 KiB) with a
//! memory-mapped pixel display.
//!
//! Address routing:
//!   0xA000–0xBFFF → pixel framebuffer bank window  (PixelDisplay)
//!   0xCFA0        → REG_DISP_MODE
//!   0xCFA1        → REG_FB_BANK
//!   0xCFA2        → REG_DISP_CTRL  (bit 1 is self-clearing clear trigger)
//!   everything else → flat RAM/ROM array
use vstd::prelude::*;
use crate::devices::display::{
    blank_pixels, in_pixel_window, pixel_index, PixelDisplay, PixelView, FB_PIXEL_BANKS,
    FB_PIXEL_BASE, FB_PIXEL_END, REG_DISP_CTRL, REG_DISP_MODE, REG_FB_BANK,
};
use crate::error::{EmuResult, EmulatorError};

verus! {

/// The size of the RAM array.
pub const MEM_SIZE: usize = 0x4000_0000;

/// The size of the CPU's 16-bit address space: a word access must lie
/// within it.
pub const ADDR_SPACE: usize = 0x1_0000;

/// The abstract contents of memory: the flat array and the pixel display.
pub struct MemView {
    pub data: Seq<u8>,
    pub display: PixelView,
}

/// Whether an address is one of the three display control registers.
pub open spec fn is_display_register(addr: u16) -> bool {
    addr == REG_DISP_MODE || addr == REG_FB_BANK || addr == REG_DISP_CTRL
}

/// The value the control register keeps after a write of `v`: bit 1 cleared.
pub open spec fn ctrl_after(v: u8) -> u8 {
    if (v / 2) % 2 == 1 { (v - 2) as u8 } else { v }
}

/// The bank selected by a write of `v`: clamped to the last bank.
pub open spec fn bank_after(v: u8) -> u8 {
    if v < FB_PIXEL_BANKS { v } else { (FB_PIXEL_BANKS - 1) as u8 }
}

impl MemView {
    pub open spec fn wf(self) -> bool {
        &&& self.data.len() == MEM_SIZE
        &&& self.display.wf()
    }

    /// The byte a read of `addr` returns.
    pub open spec fn read_byte(self, addr: u16) -> u8 {
        if in_pixel_window(addr) {
            self.display.pixels[pixel_index(self.display.bank, addr)]
        } else {
            self.data[addr as int]
        }
    }

    /// Memory after a write of `value` to `addr`.
    pub open spec fn write_byte(self, addr: u16, value: u8) -> MemView {
        if in_pixel_window(addr) {
            MemView {
                display: PixelView {
                    pixels: self.display.pixels.update(pixel_index(self.display.bank, addr), value),
                    ..self.display
                },
                ..self
            }
        } else if addr == REG_DISP_MODE {
            let m = (value % 2) as u8;
            MemView {
                data: self.data.update(addr as int, m),
                display: PixelView { mode: m, ..self.display },
            }
        } else if addr == REG_FB_BANK {
            let b = bank_after(value);
            MemView {
                data: self.data.update(addr as int, b),
                display: PixelView { bank: b, ..self.display },
            }
        } else if addr == REG_DISP_CTRL {
            let c = ctrl_after(value);
            MemView {
                data: self.data.update(addr as int, c),
                display: PixelView {
                    ctrl: c,
                    pixels: if (value / 2) % 2 == 1 { blank_pixels() } else { self.display.pixels },
                    ..self.display
                },
            }
        } else {
            MemView { data: self.data.update(addr as int, value), ..self }
        }
    }

    /// The little-endian word a read of `addr` returns, or the error it raises.
    pub open spec fn read_word(self, addr: u16) -> EmuResult<u16> {
        if addr as int + 1 >= ADDR_SPACE {
            Err(EmulatorError::IllegalMemoryAccess(addr))
        } else {
            Ok((self.read_byte(addr) + 256 * self.read_byte((addr + 1) as u16)) as u16)
        }
    }

    /// Memory after a little-endian word write, or the error it raises.
    pub open spec fn write_word(self, addr: u16, value: u16) -> EmuResult<MemView> {
        if addr as int + 1 >= ADDR_SPACE {
            Err(EmulatorError::IllegalMemoryAccess(addr))
        } else {
            Ok(self.write_byte(addr, (value % 256) as u8).write_byte((addr + 1) as u16, (value / 256) as u8))
        }
    }
}

/// Memory at power-on: all zero, display in text mode with bank 0.
pub open spec fn initial_mem() -> MemView {
    MemView {
        data: Seq::new(MEM_SIZE as nat, |i: int| 0u8),
        display: PixelView { mode: 0, bank: 0, ctrl: 0, pixels: blank_pixels() },
    }
}

/// Memory after loading `image` at address 0 (at most `MEM_SIZE` bytes of it).
pub open spec fn load_spec(m: MemView, image: Seq<u8>) -> MemView {
    let n = if image.len() <= MEM_SIZE { image.len() as int } else { MEM_SIZE as int };
    MemView { data: image.take(n) + m.data.skip(n), ..m }
}

#[derive(Clone)]
pub struct Memory {
    data: Vec<u8>,
    pub pixel_display: PixelDisplay,
}

impl View for Memory {
    type V = MemView;

    closed spec fn view(&self) -> MemView {
        MemView { data: self.data@, display: self.pixel_display@ }
    }
}

impl Memory {
    pub open spec fn wf(&self) -> bool {
        self@.wf()
    }

    pub fn new() -> (m: Self)
        ensures
            m.wf(),
            m@ == initial_mem(),
    {
        let m = Memory { data: vec![0u8; MEM_SIZE], pixel_display: PixelDisplay::new() };
        assert(m@.data =~= initial_mem().data);
        m
    }

    /// Load a ROM image starting at address 0.
    pub fn load(&mut self, image: &[u8])
        requires
            old(self).wf(),
        ensures
            final(self).wf(),
            final(self)@ == load_spec(old(self)@, image@),
    {
        let len: usize = if image.len() <= MEM_SIZE { image.len() } else { MEM_SIZE };
        let mut i: usize = 0;
        while i < len
            invariant
                len <= image@.len(),
                len <= MEM_SIZE,
                i <= len,
                self.wf(),
                old(self)@.data.len() == MEM_SIZE,
                self@.display == old(self)@.display,
                self@.data == image@.take(i as int) + old(self)@.data.skip(i as int),
            decreases len - i,
        {
            self.data.set(i, image[i]);
            i += 1;
            assert(self@.data =~= image@.take(i as int) + old(self)@.data.skip(i as int));
        }
    }

    pub fn read_byte(&self, addr: u16) -> (b: u8)
        requires
            self.wf(),
        ensures
            b == self@.read_byte(addr),
    {
        if FB_PIXEL_BASE <= addr && addr <= FB_PIXEL_END {
            self.pixel_display.read_byte(addr)
        } else {
            self.data[addr as usize]
        }
    }

    pub fn write_byte(&mut self, addr: u16, value: u8)
        requires
            old(self).wf(),
        ensures
            final(self).wf(),
            final(self)@ == old(self)@.write_byte(addr, value),
    {
        if FB_PIXEL_BASE <= addr && addr <= FB_PIXEL_END {
            self.pixel_display.write_byte(addr, value);
        } else if addr == REG_DISP_MODE {
            let m: u8 = value & 0x01;
            assert(value & 0x01 == value % 2) by (bit_vector);
            self.pixel_display.set_mode(m);
            self.data.set(addr as usize, m);
        } else if addr == REG_FB_BANK {
            let last: u8 = (FB_PIXEL_BANKS - 1) as u8;
            let b: u8 = if value < last { value } else { last };
            self.pixel_display.set_bank(b);
            self.data.set(addr as usize, b);
        } else if addr == REG_DISP_CTRL {
            assert((value & 0x02 != 0) == ((value / 2) % 2 == 1)) by (bit_vector);
            assert((value & !0x02u8) == (if (value / 2) % 2 == 1 { (value - 2) as u8 } else { value }))
                by (bit_vector);
            if value & 0x02 != 0 {
                self.pixel_display.clear();
            }
            let c: u8 = value & !0x02u8;
            self.pixel_display.set_ctrl(c);
            self.data.set(addr as usize, c);
        } else {
            self.data.set(addr as usize, value);
        }
        assert(self@ == old(self)@.write_byte(addr, value));
    }

    // ── word access (little-endian) ──────────────────────────────────────────
    pub fn read_word(&self, addr: u16) -> (r: EmuResult<u16>)
        requires
            self.wf(),
        ensures
            r == self@.read_word(addr),
    {
        if addr as usize + 1 >= ADDR_SPACE {
            return Err(EmulatorError::IllegalMemoryAccess(addr));
        }
        let b0 = self.read_byte(addr) as u16;
        let b1 = self.read_byte(addr + 1) as u16;
        Ok(b0 + 256 * b1)
    }

    pub fn write_word(&mut self, addr: u16, value: u16) -> (r: EmuResult<()>)
        requires
            old(self).wf(),
        ensures
            final(self).wf(),
            match old(self)@.write_word(addr, value) {
                Ok(m) => r is Ok && final(self)@ == m,
                Err(e) => r == Err::<(), EmulatorError>(e) && final(self)@ == old(self)@,
            },
    {
        if addr as usize + 1 >= ADDR_SPACE {
            return Err(EmulatorError::IllegalMemoryAccess(addr));
        }
        self.write_byte(addr, (value % 256) as u8);
        self.write_byte(addr + 1, (value / 256) as u8);
        Ok(())
    }

    /// The flat RAM array.
    pub fn as_slice(&self) -> (s: &[u8])
        ensures
            s@ == self@.data,
    {
        self.data.as_slice()
    }

    /// The pixel display (its mode, bank and frame).
    pub fn pixel_display(&self) -> (d: &PixelDisplay)
        ensures
            d@ == self@.display,
    {
        &self.pixel_display
    }
}

impl Default for Memory {
    fn default() -> (m: Self)
        ensures
            m.wf(),
            m@ == initial_mem(),
    {
        Self::new()
    }
}

/// A byte written to RAM or to the pixel window reads back unchanged.
pub proof fn lemma_byte_roundtrip(m: MemView, addr: u16, value: u8)
    requires
        m.wf(),
        !is_display_register(addr),
    ensures
        m.write_byte(addr, value).wf(),
        m.write_byte(addr, value).read_byte(addr) == value,
{
}

/// A byte write to any address other than the bank and control registers
/// leaves every other address reading as before.
pub proof fn lemma_write_frame(m: MemView, addr: u16, other: u16, value: u8)
    requires
        m.wf(),
        addr != other,
        addr != REG_FB_BANK,
        addr != REG_DISP_CTRL,
    ensures
        m.write_byte(addr, value).read_byte(other) == m.read_byte(other),
{
    if in_pixel_window(addr) && in_pixel_window(other) {
        assert(pixel_index(m.display.bank, addr) != pixel_index(m.display.bank, other));
    }
}

/// A word written below the last address is stored little-endian and reads
/// back unchanged, provided neither of its bytes is a display register.
pub proof fn lemma_word_roundtrip(m: MemView, addr: u16, value: u16)
    requires
        m.wf(),
        addr < 0xFFFF,
        !is_display_register(addr),
        !is_display_register((addr + 1) as u16),
    ensures
        m.write_word(addr, value) is Ok,
        m.write_word(addr, value)->Ok_0.wf(),
        m.write_word(addr, value)->Ok_0.read_byte(addr) == value % 256,
        m.write_word(addr, value)->Ok_0.read_byte((addr + 1) as u16) == value / 256,
        m.write_word(addr, value)->Ok_0.read_word(addr) == Ok::<u16, EmulatorError>(value),
{
    let m1 = m.write_byte(addr, (value % 256) as u8);
    lemma_byte_roundtrip(m, addr, (value % 256) as u8);
    lemma_write_frame(m1, (addr + 1) as u16, addr, (value / 256) as u8);
    lemma_byte_roundtrip(m1, (addr + 1) as u16, (value / 256) as u8);
}

/// Word accesses that would run past the end of the address space fail.
pub proof fn lemma_word_at_end_fails(m: MemView, value: u16)
    ensures
        m.read_word(0xFFFF) == Err::<u16, EmulatorError>(EmulatorError::IllegalMemoryAccess(0xFFFF)),
        m.write_word(0xFFFF, value) == Err::<MemView, EmulatorError>(
            EmulatorError::IllegalMemoryAccess(0xFFFF),
        ),
{
}

} // verus!
