pub mod constraints;
pub mod trace;
pub mod options;
pub mod fri;
