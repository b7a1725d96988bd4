pub mod bit;
pub mod hex;
pub mod number;
