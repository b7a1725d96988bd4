//! Serial UART device.
//!
//! I/O port 0x20 – TX: write a byte to the transmit buffer
//! I/O port 0x21 – RX: read a byte from the receive buffer (0xFF = empty)
//! I/O port 0x22 – STATUS: bit 0 = rx available, bit 1 = tx ready
use std::collections::VecDeque;
use vstd::prelude::*;

verus! {

pub const PORT_TX: u16 = 0x20;

pub const PORT_RX: u16 = 0x21;

pub const PORT_STATUS: u16 = 0x22;

pub struct Serial {
    rx_buf: VecDeque<u8>,
    tx_buf: VecDeque<u8>,
}

pub struct SerialView {
    /// Received bytes not yet read by the CPU, oldest first.
    pub rx: Seq<u8>,
    /// Transmitted bytes not yet drained by the host, oldest first.
    pub tx: Seq<u8>,
}

impl View for Serial {
    type V = SerialView;

    closed spec fn view(&self) -> SerialView {
        SerialView { rx: self.rx_buf@, tx: self.tx_buf@ }
    }
}

impl SerialView {
    /// What a read of `port` returns, and the device afterwards.
    pub open spec fn io_read(self, port: u16) -> (Option<u16>, SerialView) {
        if port == PORT_RX {
            if self.rx.len() == 0 {
                (Some(0xFFu16), self)
            } else {
                (Some(self.rx[0] as u16), SerialView { rx: self.rx.drop_first(), ..self })
            }
        } else if port == PORT_STATUS {
            (Some(if self.rx.len() == 0 { 2u16 } else { 3u16 }), self)
        } else {
            (None, self)
        }
    }

    /// Whether a write to `port` is accepted, and the device afterwards.
    pub open spec fn io_write(self, port: u16, value: u16) -> (bool, SerialView) {
        if port == PORT_TX {
            (true, SerialView { tx: self.tx.push((value % 256) as u8), ..self })
        } else {
            (false, self)
        }
    }
}

impl Serial {
    pub fn new() -> (s: Self)
        ensures
            s@.rx == Seq::<u8>::empty(),
            s@.tx == Seq::<u8>::empty(),
    {
        Serial { rx_buf: VecDeque::new(), tx_buf: VecDeque::new() }
    }

    /// Feed incoming bytes into the RX buffer (called by host).
    pub fn feed_rx(&mut self, data: &[u8])
        ensures
            final(self)@ == (SerialView { rx: old(self)@.rx + data@, ..old(self)@ }),
    {
        let mut i: usize = 0;
        while i < data.len()
            invariant
                i <= data@.len(),
                self@ == (SerialView { rx: old(self)@.rx + data@.take(i as int), ..old(self)@ }),
            decreases data@.len() - i,
        {
            self.rx_buf.push_back(data[i]);
            i += 1;
            assert(self@.rx =~= old(self)@.rx + data@.take(i as int));
        }
        assert(data@.take(i as int) =~= data@);
    }

    /// Drain all bytes from the TX buffer (called by host).
    pub fn drain_tx(&mut self) -> (out: Vec<u8>)
        ensures
            out@ == old(self)@.tx,
            final(self)@ == (SerialView { tx: Seq::empty(), ..old(self)@ }),
    {
        let mut out: Vec<u8> = Vec::new();
        while self.tx_buf.len() > 0
            invariant
                out@ + self@.tx == old(self)@.tx,
                self@.rx == old(self)@.rx,
            decreases self@.tx.len(),
        {
            let ghost before = self@.tx;
            match self.tx_buf.pop_front() {
                Some(b) => {
                    out.push(b);
                    assert(out@ + self@.tx =~= old(self)@.tx) by {
                        assert(before =~= seq![b] + self@.tx);
                    }
                },
                None => {},
            }
        }
        assert(self@.tx =~= Seq::<u8>::empty());
        out
    }

    pub fn io_read(&mut self, port: u16) -> (r: Option<u16>)
        ensures
            (r, final(self)@) == old(self)@.io_read(port),
    {
        if port == PORT_RX {
            match self.rx_buf.pop_front() {
                Some(b) => {
                    assert(self@.rx =~= old(self)@.rx.drop_first());
                    Some(b as u16)
                },
                None => Some(0xFFu16),
            }
        } else if port == PORT_STATUS {
            let rx_ready: u16 = if self.rx_buf.len() == 0 { 0 } else { 1 };
            let tx_ready: u16 = 1;
            assert((0u16 | (1u16 << 1u16)) == 2u16 && (1u16 | (1u16 << 1u16)) == 3u16) by (bit_vector);
            Some(rx_ready | (tx_ready << 1u16))
        } else {
            None
        }
    }

    pub fn io_write(&mut self, port: u16, value: u16) -> (accepted: bool)
        ensures
            (accepted, final(self)@) == old(self)@.io_write(port, value),
    {
        if port == PORT_TX {
            let b = (value & 0xFF) as u8;
            assert(value & 0xFF == value % 256) by (bit_vector);
            self.tx_buf.push_back(b);
            true
        } else {
            false
        }
    }
}

impl Default for Serial {
    fn default() -> (s: Self)
        ensures
            s@.rx == Seq::<u8>::empty(),
            s@.tx == Seq::<u8>::empty(),
    {
        Self::new()
    }
}

/// Bytes written to the TX port are what the host drains, in order: a write
/// appends the low byte of the value to the transmit buffer and touches
/// nothing else.
pub proof fn lemma_tx_in_order(s: SerialView, values: Seq<u16>)
    ensures
        tx_after(s, values).tx == s.tx + values.map_values(|v: u16| (v % 256) as u8),
        tx_after(s, values).rx == s.rx,
    decreases values.len(),
{
    if values.len() > 0 {
        lemma_tx_in_order(s, values.drop_last());
        assert(values.drop_last().map_values(|v: u16| (v % 256) as u8).push((values.last() % 256) as u8)
            =~= values.map_values(|v: u16| (v % 256) as u8));
    } else {
        assert(values.map_values(|v: u16| (v % 256) as u8) =~= Seq::<u8>::empty());
    }
}

/// Every write to the TX port is accepted; a write to another port is
/// refused and leaves both buffers as they were.
pub proof fn lemma_tx_port_only(s: SerialView, port: u16, value: u16)
    ensures
        s.io_write(PORT_TX, value).0,
        port != PORT_TX ==> s.io_write(port, value) == (false, s),
{
}

/// The device after writing each of `values` to the TX port in turn.
pub open spec fn tx_after(s: SerialView, values: Seq<u16>) -> SerialView
    decreases values.len(),
{
    if values.len() == 0 {
        s
    } else {
        tx_after(s, values.drop_last()).io_write(PORT_TX, values.last()).1
    }
}

} // verus!
