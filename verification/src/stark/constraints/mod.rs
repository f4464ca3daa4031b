pub mod utils;
pub mod stack;
pub mod decoder2;
pub mod decoder;
pub mod evaluator;
