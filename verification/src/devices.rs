pub mod disk;
pub mod display;
pub mod keyboard;
pub mod serial;
pub mod timer;
