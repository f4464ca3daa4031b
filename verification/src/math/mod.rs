pub mod field;
pub mod polynom;
