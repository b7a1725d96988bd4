//! The I/O bus, reached by the `in` and `out` instructions.
//!
//! I/O port map:
//!   0x0000 – write: emit byte to the host output / read: always 0
//!   0x0001 – read:  next byte of host input (0xFFFF at end of input) / write: ignored
//!   Other ports are unimplemented.
//!
//! The bus does no host I/O itself: emitted bytes wait in an output buffer
//! until the host takes them, and input bytes are handed in by the host. A
//! read of port 1 while no input is buffered and the input is not closed
//! reports that the CPU must wait for the host.
use std::collections::VecDeque;
use vstd::prelude::*;
use crate::error::{EmuResult, EmulatorError};

verus! {

pub const PORT_SERIAL_OUT: u16 = 0x0000;

pub const PORT_SERIAL_IN: u16 = 0x0001;

/// Value read from the input port once the host input has ended.
pub const INPUT_EOF: u16 = 0xFFFF;

pub struct Bus {
    output: Vec<u8>,
    input: VecDeque<u8>,
    input_closed: bool,
}

pub struct BusView {
    /// Bytes emitted and not yet taken by the host.
    pub output: Seq<u8>,
    /// Bytes handed in by the host and not yet read.
    pub input: Seq<u8>,
    /// Whether the host input has ended.
    pub input_closed: bool,
}

impl View for Bus {
    type V = BusView;

    closed spec fn view(&self) -> BusView {
        BusView { output: self.output@, input: self.input@, input_closed: self.input_closed }
    }
}

impl BusView {
    /// What a read of `port` returns (`None`: the CPU must wait for input)
    /// and the bus afterwards, or the error it raises.
    pub open spec fn io_read(self, port: u16) -> EmuResult<(Option<u16>, BusView)> {
        if port == PORT_SERIAL_OUT {
            Ok((Some(0u16), self))
        } else if port == PORT_SERIAL_IN {
            if self.input.len() > 0 {
                Ok((Some(self.input[0] as u16), BusView { input: self.input.drop_first(), ..self }))
            } else if self.input_closed {
                Ok((Some(INPUT_EOF), self))
            } else {
                Ok((None, self))
            }
        } else {
            Err(EmulatorError::IllegalIoPort(port))
        }
    }

    /// The bus after a write of `value` to `port`, or the error it raises.
    pub open spec fn io_write(self, port: u16, value: u16) -> EmuResult<BusView> {
        if port == PORT_SERIAL_OUT {
            Ok(BusView { output: self.output.push((value % 256) as u8), ..self })
        } else if port == PORT_SERIAL_IN {
            Ok(self)
        } else {
            Err(EmulatorError::IllegalIoPort(port))
        }
    }
}

/// A bus with nothing emitted, no input and the input still open.
pub open spec fn initial_bus() -> BusView {
    BusView { output: Seq::empty(), input: Seq::empty(), input_closed: false }
}

impl Bus {
    pub fn new() -> (b: Self)
        ensures
            b@ == initial_bus(),
    {
        Bus { output: Vec::new(), input: VecDeque::new(), input_closed: false }
    }

    pub fn io_read(&mut self, port: u16) -> (r: EmuResult<Option<u16>>)
        ensures
            match old(self)@.io_read(port) {
                Ok((v, b)) => r == Ok::<Option<u16>, EmulatorError>(v) && final(self)@ == b,
                Err(e) => r == Err::<Option<u16>, EmulatorError>(e) && final(self)@ == old(self)@,
            },
    {
        if port == PORT_SERIAL_OUT {
            Ok(Some(0u16))
        } else if port == PORT_SERIAL_IN {
            match self.input.pop_front() {
                Some(b) => {
                    assert(self@.input =~= old(self)@.input.drop_first());
                    Ok(Some(b as u16))
                },
                None => if self.input_closed {
                    Ok(Some(INPUT_EOF))
                } else {
                    Ok(None)
                },
            }
        } else {
            Err(EmulatorError::IllegalIoPort(port))
        }
    }

    pub fn io_write(&mut self, port: u16, value: u16) -> (r: EmuResult<()>)
        ensures
            match old(self)@.io_write(port, value) {
                Ok(b) => r is Ok && final(self)@ == b,
                Err(e) => r == Err::<(), EmulatorError>(e) && final(self)@ == old(self)@,
            },
    {
        if port == PORT_SERIAL_OUT {
            self.output.push((value % 256) as u8);
            Ok(())
        } else if port == PORT_SERIAL_IN {
            Ok(())
        } else {
            Err(EmulatorError::IllegalIoPort(port))
        }
    }

    /// Hand host input bytes to the bus.
    pub fn feed_input(&mut self, data: &[u8])
        ensures
            final(self)@ == (BusView { input: old(self)@.input + data@, ..old(self)@ }),
    {
        let mut i: usize = 0;
        while i < data.len()
            invariant
                i <= data@.len(),
                self@ == (BusView { input: old(self)@.input + data@.take(i as int), ..old(self)@ }),
            decreases data@.len() - i,
        {
            self.input.push_back(data[i]);
            i += 1;
            assert(self@.input =~= old(self)@.input + data@.take(i as int));
        }
        assert(data@.take(i as int) =~= data@);
        assert(self@.input =~= old(self)@.input + data@);
    }

    /// Mark the host input as ended: reads past the buffered bytes give `INPUT_EOF`.
    pub fn close_input(&mut self)
        ensures
            final(self)@ == (BusView { input_closed: true, ..old(self)@ }),
    {
        self.input_closed = true;
    }

    /// Take every byte emitted so far, leaving the output buffer empty.
    pub fn take_output(&mut self) -> (out: Vec<u8>)
        ensures
            out@ == old(self)@.output,
            final(self)@ == (BusView { output: Seq::empty(), ..old(self)@ }),
    {
        let mut out: Vec<u8> = Vec::new();
        std::mem::swap(&mut out, &mut self.output);
        out
    }
}

impl Default for Bus {
    fn default() -> (b: Self)
        ensures
            b@ == initial_bus(),
    {
        Self::new()
    }
}

} // verus!
