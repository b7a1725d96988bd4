//! Simple block-device (disk) with 512-byte sectors.
//!
//! I/O port 0x40 – COMMAND:  0=read, 1=write, 2=seek
//! I/O port 0x41 – SECTOR_LO: low 16 bits of sector address
//! I/O port 0x42 – SECTOR_HI: high 16 bits of sector address
//! I/O port 0x43 – DATA:     read/write one byte from/to the sector buffer
//! I/O port 0x44 – STATUS:   bit 0 = ready, bit 1 = error
use vstd::prelude::*;

verus! {

pub const PORT_CMD: u16 = 0x40;

pub const PORT_SECTOR_LO: u16 = 0x41;

pub const PORT_SECTOR_HI: u16 = 0x42;

pub const PORT_DATA: u16 = 0x43;

pub const PORT_STATUS: u16 = 0x44;

pub const SECTOR_SIZE: usize = 512;

pub struct Disk {
    storage: Vec<u8>,
    sector_lo: u16,
    sector_hi: u16,
    buf: Vec<u8>,
    buf_pos: usize,
    error: bool,
}

pub struct DiskView {
    /// Every byte of the disk.
    pub storage: Seq<u8>,
    pub sector_lo: u16,
    pub sector_hi: u16,
    /// The sector buffer that the DATA port reads and writes.
    pub buf: Seq<u8>,
    /// The position of the next DATA access in the buffer.
    pub buf_pos: nat,
    pub error: bool,
}

impl View for Disk {
    type V = DiskView;

    closed spec fn view(&self) -> DiskView {
        DiskView {
            storage: self.storage@,
            sector_lo: self.sector_lo,
            sector_hi: self.sector_hi,
            buf: self.buf@,
            buf_pos: self.buf_pos as nat,
            error: self.error,
        }
    }
}

impl DiskView {
    /// The buffer holds one sector and the position stays within it.
    pub open spec fn wf(self) -> bool {
        self.buf.len() == SECTOR_SIZE && self.buf_pos <= SECTOR_SIZE
    }

    /// The selected sector number.
    pub open spec fn sector(self) -> int {
        self.sector_hi as int * 0x1_0000 + self.sector_lo as int
    }

    /// The byte offset of the selected sector.
    pub open spec fn base(self) -> int {
        self.sector() * SECTOR_SIZE as int
    }

    /// Whether the selected sector lies on the disk.
    pub open spec fn sector_fits(self) -> bool {
        self.base() + SECTOR_SIZE as int <= self.storage.len()
    }

    /// The device after a read command: the selected sector is copied into
    /// the buffer, or the error flag is set if it is off the disk.
    pub open spec fn read_sector(self) -> DiskView {
        if self.sector_fits() {
            DiskView {
                buf: self.storage.subrange(self.base(), self.base() + SECTOR_SIZE as int),
                buf_pos: 0,
                error: false,
                ..self
            }
        } else {
            DiskView { error: true, ..self }
        }
    }

    /// The device after a write command: the buffer is copied onto the
    /// selected sector, or the error flag is set if it is off the disk.
    pub open spec fn write_sector(self) -> DiskView {
        if self.sector_fits() {
            DiskView {
                storage: self.storage.subrange(0, self.base()) + self.buf + self.storage.subrange(
                    self.base() + SECTOR_SIZE as int,
                    self.storage.len() as int,
                ),
                error: false,
                ..self
            }
        } else {
            DiskView { error: true, ..self }
        }
    }

    /// What a read of `port` returns, and the device afterwards.
    pub open spec fn io_read(self, port: u16) -> (Option<u16>, DiskView) {
        if port == PORT_DATA {
            if self.buf_pos < SECTOR_SIZE {
                (Some(self.buf[self.buf_pos as int] as u16), DiskView { buf_pos: self.buf_pos + 1, ..self })
            } else {
                (Some(0xFFu16), self)
            }
        } else if port == PORT_STATUS {
            (Some(if self.error { 3u16 } else { 1u16 }), self)
        } else if port == PORT_SECTOR_LO {
            (Some(self.sector_lo), self)
        } else if port == PORT_SECTOR_HI {
            (Some(self.sector_hi), self)
        } else {
            (None, self)
        }
    }

    /// Whether a write to `port` is accepted, and the device afterwards.
    pub open spec fn io_write(self, port: u16, value: u16) -> (bool, DiskView) {
        if port == PORT_CMD {
            let cmd = value % 256;
            (true, if cmd == 0 {
                self.read_sector()
            } else if cmd == 1 {
                self.write_sector()
            } else if cmd == 2 {
                DiskView { buf_pos: 0, ..self }
            } else {
                DiskView { error: true, ..self }
            })
        } else if port == PORT_SECTOR_LO {
            (true, DiskView { sector_lo: value, ..self })
        } else if port == PORT_SECTOR_HI {
            (true, DiskView { sector_hi: value, ..self })
        } else if port == PORT_DATA {
            (true, if self.buf_pos < SECTOR_SIZE {
                DiskView {
                    buf: self.buf.update(self.buf_pos as int, (value % 256) as u8),
                    buf_pos: self.buf_pos + 1,
                    ..self
                }
            } else {
                self
            })
        } else {
            (false, self)
        }
    }
}

impl Disk {
    /// A zero-filled disk of `capacity_sectors` sectors, sector 0 selected.
    pub fn new(capacity_sectors: usize) -> (d: Self)
        requires
            capacity_sectors * SECTOR_SIZE <= usize::MAX,
        ensures
            d@.wf(),
            d@.storage == Seq::new((capacity_sectors * SECTOR_SIZE) as nat, |i: int| 0u8),
            d@.buf == Seq::new(SECTOR_SIZE as nat, |i: int| 0u8),
            d@.sector_lo == 0 && d@.sector_hi == 0 && d@.buf_pos == 0 && !d@.error,
    {
        let n = capacity_sectors * SECTOR_SIZE;
        Disk { storage: zeros(n), sector_lo: 0, sector_hi: 0, buf: zeros(SECTOR_SIZE), buf_pos: 0, error: false }
    }

    fn sector(&self) -> (s: u64)
        ensures
            s == self@.sector(),
            s < 0x1_0000_0000,
    {
        let hi = self.sector_hi as u64;
        let lo = self.sector_lo as u64;
        assert(hi < 0x1_0000 && lo < 0x1_0000 ==> (hi << 16u64) | lo == hi * 0x1_0000 + lo) by (bit_vector);
        (hi << 16u64) | lo
    }

    fn do_read(&mut self)
        requires
            old(self)@.wf(),
        ensures
            final(self)@ == old(self)@.read_sector(),
            final(self)@.wf(),
    {
        let base = self.sector() * 512u64;
        if base + 512u64 <= self.storage.len() as u64 {
            let b = base as usize;
            let mut k: usize = 0;
            while k < SECTOR_SIZE
                invariant
                    b == old(self)@.base(),
                    b + SECTOR_SIZE <= self.storage@.len(),
                    self@ == (DiskView { buf: self@.buf, ..old(self)@ }),
                    self@.buf.len() == SECTOR_SIZE,
                    k <= SECTOR_SIZE,
                    forall|j: int| 0 <= j < k ==> self@.buf[j] == self@.storage[b + j],
                decreases SECTOR_SIZE - k,
            {
                let v = self.storage[b + k];
                self.buf.set(k, v);
                k += 1;
            }
            self.buf_pos = 0;
            self.error = false;
            assert(self@.buf =~= old(self)@.storage.subrange(b as int, b + SECTOR_SIZE));
        } else {
            self.error = true;
        }
    }

    fn do_write(&mut self)
        requires
            old(self)@.wf(),
        ensures
            final(self)@ == old(self)@.write_sector(),
            final(self)@.wf(),
    {
        let base = self.sector() * 512u64;
        if base + 512u64 <= self.storage.len() as u64 {
            let b = base as usize;
            let ghost s0 = self@.storage;
            let mut k: usize = 0;
            while k < SECTOR_SIZE
                invariant
                    b == old(self)@.base(),
                    b + SECTOR_SIZE <= s0.len(),
                    s0 == old(self)@.storage,
                    self@ == (DiskView { storage: self@.storage, ..old(self)@ }),
                    self@.storage.len() == s0.len(),
                    self@.buf.len() == SECTOR_SIZE,
                    k <= SECTOR_SIZE,
                    forall|j: int| 0 <= j < b ==> self@.storage[j] == s0[j],
                    forall|j: int| b + SECTOR_SIZE <= j < s0.len() ==> self@.storage[j] == s0[j],
                    forall|j: int| 0 <= j < k ==> self@.storage[b + j] == self@.buf[j],
                    forall|j: int| b + k <= j < s0.len() ==> self@.storage[j] == s0[j],
                decreases SECTOR_SIZE - k,
            {
                let v = self.buf[k];
                self.storage.set(b + k, v);
                k += 1;
            }
            self.error = false;
            assert(self@.storage =~= s0.subrange(0, b as int) + self@.buf + s0.subrange(
                b + SECTOR_SIZE,
                s0.len() as int,
            ));
        } else {
            self.error = true;
        }
    }

    pub fn io_read(&mut self, port: u16) -> (r: Option<u16>)
        requires
            old(self)@.wf(),
        ensures
            (r, final(self)@) == old(self)@.io_read(port),
            final(self)@.wf(),
    {
        if port == PORT_DATA {
            let b: u8 = if self.buf_pos < SECTOR_SIZE { self.buf[self.buf_pos] } else { 0xFF };
            if self.buf_pos < SECTOR_SIZE {
                self.buf_pos = self.buf_pos + 1;
            }
            Some(b as u16)
        } else if port == PORT_STATUS {
            let e: u16 = if self.error { 1 } else { 0 };
            assert((e <= 1) ==> (1u16 | (e << 1u16)) == 1 + 2 * e) by (bit_vector);
            Some(1u16 | (e << 1u16))
        } else if port == PORT_SECTOR_LO {
            Some(self.sector_lo)
        } else if port == PORT_SECTOR_HI {
            Some(self.sector_hi)
        } else {
            None
        }
    }

    pub fn io_write(&mut self, port: u16, value: u16) -> (accepted: bool)
        requires
            old(self)@.wf(),
        ensures
            (accepted, final(self)@) == old(self)@.io_write(port, value),
            final(self)@.wf(),
    {
        assert(value & 0xFF == value % 256) by (bit_vector);
        if port == PORT_CMD {
            let cmd = value & 0xFF;
            if cmd == 0 {
                self.do_read();
            } else if cmd == 1 {
                self.do_write();
            } else if cmd == 2 {
                self.buf_pos = 0;
            } else {
                self.error = true;
            }
            true
        } else if port == PORT_SECTOR_LO {
            self.sector_lo = value;
            true
        } else if port == PORT_SECTOR_HI {
            self.sector_hi = value;
            true
        } else if port == PORT_DATA {
            if self.buf_pos < SECTOR_SIZE {
                let p = self.buf_pos;
                self.buf.set(p, (value & 0xFF) as u8);
                self.buf_pos = p + 1;
            }
            true
        } else {
            false
        }
    }
}

/// `n` zero bytes.
fn zeros(n: usize) -> (v: Vec<u8>)
    ensures
        v@ == Seq::new(n as nat, |i: int| 0u8),
{
    let mut v: Vec<u8> = Vec::new();
    let mut i: usize = 0;
    while i < n
        invariant
            i <= n,
            v@ == Seq::new(i as nat, |j: int| 0u8),
        decreases n - i,
    {
        v.push(0);
        i += 1;
        assert(v@ =~= Seq::new(i as nat, |j: int| 0u8));
    }
    v
}

/// A sector written from the buffer reads back into the buffer unchanged,
/// and the write leaves every other byte of the disk as it was.
pub proof fn lemma_sector_round_trip(d: DiskView)
    requires
        d.wf(),
        d.sector_fits(),
    ensures
        ({
            let written = d.io_write(PORT_CMD, 1).1;
            let read = written.io_write(PORT_CMD, 0).1;
            &&& written.storage.len() == d.storage.len()
            &&& written.storage.subrange(d.base(), d.base() + SECTOR_SIZE as int) == d.buf
            &&& forall|j: int| 0 <= j < d.storage.len() && !(d.base() <= j < d.base() + SECTOR_SIZE as int)
                ==> written.storage[j] == d.storage[j]
            &&& read.buf == d.buf
            &&& read.buf_pos == 0
            &&& !read.error
        }),
{
    let written = d.write_sector();
    let b = d.base();
    assert(written.storage.subrange(b, b + SECTOR_SIZE as int) =~= d.buf);
    assert(written.sector_fits());
}

/// A sector off the end of the disk is refused: the error flag is set and
/// neither the disk nor the buffer changes.
pub proof fn lemma_sector_out_of_range(d: DiskView, cmd: u16)
    requires
        !d.sector_fits(),
        cmd == 0 || cmd == 1,
    ensures
        d.io_write(PORT_CMD, cmd).1 == (DiskView { error: true, ..d }),
{
}

/// The device after writing each byte of `data` to the DATA port in turn.
pub open spec fn data_written(d: DiskView, data: Seq<u8>) -> DiskView
    decreases data.len(),
{
    if data.len() == 0 {
        d
    } else {
        data_written(d, data.drop_last()).io_write(PORT_DATA, data.last() as u16).1
    }
}

/// What `k` reads of the DATA port in turn return, and the device after them.
pub open spec fn data_read(d: DiskView, k: nat) -> (Seq<u16>, DiskView)
    decreases k,
{
    if k == 0 {
        (Seq::empty(), d)
    } else {
        let (vs, d1) = data_read(d, (k - 1) as nat);
        let (r, d2) = d1.io_read(PORT_DATA);
        (vs.push(r.unwrap()), d2)
    }
}

/// Bytes written to the DATA port fill the buffer in order from the current
/// position, which advances past them; nothing else changes.
pub proof fn lemma_data_written(d: DiskView, data: Seq<u8>)
    requires
        d.wf(),
        d.buf_pos + data.len() <= SECTOR_SIZE,
    ensures
        ({
            let e = data_written(d, data);
            &&& e.wf()
            &&& e.buf_pos == d.buf_pos + data.len()
            &&& forall|j: int| 0 <= j < SECTOR_SIZE ==> #[trigger] e.buf[j] == if d.buf_pos <= j < d.buf_pos + data.len() {
                data[j - d.buf_pos]
            } else {
                d.buf[j]
            }
            &&& e == (DiskView { buf: e.buf, buf_pos: e.buf_pos, ..d })
        }),
    decreases data.len(),
{
    if data.len() > 0 {
        let init = data.drop_last();
        lemma_data_written(d, init);
        let e0 = data_written(d, init);
        let v = data.last() as u16;
        assert((v % 256) as u8 == data.last());
        let e = data_written(d, data);
        assert forall|j: int| 0 <= j < SECTOR_SIZE implies #[trigger] e.buf[j] == if d.buf_pos <= j < d.buf_pos + data.len() {
            data[j - d.buf_pos]
        } else {
            d.buf[j]
        } by {
            if j != e0.buf_pos {
                assert(e.buf[j] == e0.buf[j]);
                if d.buf_pos <= j < d.buf_pos + init.len() {
                    assert(init[j - d.buf_pos] == data[j - d.buf_pos]);
                }
            }
        }
    }
}

/// Reads of the DATA port return the buffer's bytes in order from the
/// current position, which advances past them; nothing else changes.
pub proof fn lemma_data_read(d: DiskView, k: nat)
    requires
        d.wf(),
        d.buf_pos + k <= SECTOR_SIZE,
    ensures
        data_read(d, k).0 == Seq::new(k, |i: int| d.buf[d.buf_pos + i] as u16),
        data_read(d, k).1 == (DiskView { buf_pos: d.buf_pos + k, ..d }),
    decreases k,
{
    if k > 0 {
        lemma_data_read(d, (k - 1) as nat);
        assert(data_read(d, k).0 =~= Seq::new(k, |i: int| d.buf[d.buf_pos + i] as u16));
    } else {
        assert(data_read(d, k).0 =~= Seq::new(k, |i: int| d.buf[d.buf_pos + i] as u16));
    }
}

/// A sector written through the DATA port reads back through it: after a
/// seek, 512 data writes, a write command and a read command, 512 reads of
/// the DATA port return the bytes written, in order; the next read finds the
/// buffer exhausted (0xFF) and the status reports ready with no error.
pub proof fn lemma_data_round_trip(d: DiskView, data: Seq<u8>)
    requires
        d.wf(),
        d.sector_fits(),
        data.len() == SECTOR_SIZE,
    ensures
        ({
            let d1 = d.io_write(PORT_CMD, 2).1;
            let d2 = data_written(d1, data);
            let d3 = d2.io_write(PORT_CMD, 1).1;
            let d4 = d3.io_write(PORT_CMD, 0).1;
            let (vs, d5) = data_read(d4, SECTOR_SIZE as nat);
            &&& vs == data.map_values(|b: u8| b as u16)
            &&& d5.io_read(PORT_DATA).0 == Some(0xFFu16)
            &&& d5.io_read(PORT_STATUS).0 == Some(1u16)
        }),
{
    let d1 = d.io_write(PORT_CMD, 2).1;
    assert(d1 == (DiskView { buf_pos: 0, ..d }));
    lemma_data_written(d1, data);
    let d2 = data_written(d1, data);
    assert(d2.buf =~= data);
    assert(d2.sector_fits());
    lemma_sector_round_trip(d2);
    let d4 = d2.io_write(PORT_CMD, 1).1.io_write(PORT_CMD, 0).1;
    assert(d4.wf());
    lemma_data_read(d4, SECTOR_SIZE as nat);
    assert(data_read(d4, SECTOR_SIZE as nat).0 =~= data.map_values(|b: u8| b as u16));
}

} // verus!
