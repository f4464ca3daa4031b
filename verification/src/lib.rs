pub mod math;
pub mod opcodes;
pub mod utils;
pub mod stark;
pub mod programs;
pub mod crypto;
