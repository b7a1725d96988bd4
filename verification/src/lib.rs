use vstd::prelude::*;

pub mod assembler;
pub mod bus;
pub mod cpu;
pub mod debugger;
pub mod decoder;
pub mod devices;
pub mod error;
pub mod executor;
pub mod flags;
pub mod image;
pub mod instruction;
pub mod machine;
pub mod memory;
pub mod registers;
pub mod rsc;
pub(crate) mod text;
pub mod utils;

pub use cpu::{Cpu, CpuState};
pub use error::{EmuResult, EmulatorError};
pub use machine::Machine;

verus! {

} // verus!
