//! Errors raised by the emulator.
use vstd::prelude::*;
use crate::text::concat3;
use crate::utils::hex::{hex16, hex8, hex_pad};

verus! {

#[derive(Debug, Clone, Copy, PartialEq, Eq, Structural)]
pub enum EmulatorError {
    InvalidOpcode(u8),
    IllegalMemoryAccess(u16),
    IllegalIoPort(u16),
    StackOverflow,
    StackUnderflow,
    Halted,
}

pub type EmuResult<T> = Result<T, EmulatorError>;

impl EmulatorError {
    /// The text the error is shown with.
    pub open spec fn message_spec(self) -> Seq<char> {
        match self {
            EmulatorError::InvalidOpcode(op) => "invalid opcode 0x"@ + hex_pad(op as nat, 2),
            EmulatorError::IllegalMemoryAccess(addr) => "illegal memory access at 0x"@ + hex_pad(addr as nat, 4),
            EmulatorError::IllegalIoPort(port) => "unknown I/O port 0x"@ + hex_pad(port as nat, 4),
            EmulatorError::StackOverflow => "stack overflow"@,
            EmulatorError::StackUnderflow => "stack underflow"@,
            EmulatorError::Halted => "CPU halted"@,
        }
    }

    /// The text the error is shown with, such as `invalid opcode 0xFF`.
    pub fn message(&self) -> (s: String)
        ensures
            s@ == self.message_spec(),
    {
        proof {
            reveal_strlit("");
        }
        match self {
            EmulatorError::InvalidOpcode(op) => {
                let h = hex8(*op);
                concat3("invalid opcode 0x", h.as_str(), "")
            },
            EmulatorError::IllegalMemoryAccess(addr) => {
                let h = hex16(*addr);
                concat3("illegal memory access at 0x", h.as_str(), "")
            },
            EmulatorError::IllegalIoPort(port) => {
                let h = hex16(*port);
                concat3("unknown I/O port 0x", h.as_str(), "")
            },
            EmulatorError::StackOverflow => "stack overflow".to_owned(),
            EmulatorError::StackUnderflow => "stack underflow".to_owned(),
            EmulatorError::Halted => "CPU halted".to_owned(),
        }
    }
}

} // verus!
