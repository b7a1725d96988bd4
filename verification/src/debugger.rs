pub mod breakpoint;
pub mod disassembler;
pub mod monitor;
