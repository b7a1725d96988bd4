//! Keyboard device: FIFO queue of key codes, exposed via I/O ports.
//!
//! I/O port 0x10 – STATUS: bit 0 = key available
//! I/O port 0x11 – DATA:   read = dequeue key code (0 if none)
use std::collections::VecDeque;
use vstd::prelude::*;

verus! {

pub const PORT_KB_STATUS: u16 = 0x10;

pub const PORT_KB_DATA: u16 = 0x11;

pub struct Keyboard {
    queue: VecDeque<u8>,
}

impl View for Keyboard {
    /// The key codes waiting to be read, oldest first.
    type V = Seq<u8>;

    closed spec fn view(&self) -> Seq<u8> {
        self.queue@
    }
}

/// What a read of `port` returns, and the queue afterwards.
pub open spec fn keyboard_read(queue: Seq<u8>, port: u16) -> (Option<u16>, Seq<u8>) {
    if port == PORT_KB_STATUS {
        (Some(if queue.len() == 0 { 0u16 } else { 1u16 }), queue)
    } else if port == PORT_KB_DATA {
        if queue.len() == 0 {
            (Some(0u16), queue)
        } else {
            (Some(queue[0] as u16), queue.drop_first())
        }
    } else {
        (None, queue)
    }
}

impl Keyboard {
    pub fn new() -> (k: Self)
        ensures
            k@ == Seq::<u8>::empty(),
    {
        Keyboard { queue: VecDeque::new() }
    }

    /// Push a key code into the device FIFO (called by the host/UI).
    pub fn push_key(&mut self, code: u8)
        ensures
            final(self)@ == old(self)@.push(code),
    {
        self.queue.push_back(code);
    }

    pub fn io_read(&mut self, port: u16) -> (r: Option<u16>)
        ensures
            (r, final(self)@) == keyboard_read(old(self)@, port),
    {
        if port == PORT_KB_STATUS {
            Some(if self.queue.len() == 0 { 0u16 } else { 1u16 })
        } else if port == PORT_KB_DATA {
            match self.queue.pop_front() {
                Some(k) => {
                    assert(self@ =~= old(self)@.drop_first());
                    Some(k as u16)
                },
                None => Some(0u16),
            }
        } else {
            None
        }
    }
}

impl Default for Keyboard {
    fn default() -> (k: Self)
        ensures
            k@ == Seq::<u8>::empty(),
    {
        Self::new()
    }
}

/// Keys come out in the order they were pushed: pushing a key onto a queue
/// that already holds keys leaves the next key read unchanged, and the pushed
/// key waits behind the others.
pub proof fn lemma_keys_in_order(queue: Seq<u8>, code: u8)
    ensures
        queue.len() > 0 ==> keyboard_read(queue.push(code), PORT_KB_DATA) == (
            keyboard_read(queue, PORT_KB_DATA).0,
            keyboard_read(queue, PORT_KB_DATA).1.push(code),
        ),
        queue.len() == 0 ==> keyboard_read(queue.push(code), PORT_KB_DATA) == (
            Some(code as u16),
            Seq::<u8>::empty(),
        ),
        keyboard_read(queue.push(code), PORT_KB_STATUS).0 == Some(1u16),
{
    if queue.len() > 0 {
        assert(queue.push(code).drop_first() =~= queue.drop_first().push(code));
    } else {
        assert(queue.push(code).drop_first() =~= Seq::<u8>::empty());
    }
}

} // verus!
