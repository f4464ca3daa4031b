pub mod rescue;
pub mod sponge;
pub mod hasher;
