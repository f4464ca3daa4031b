use vstd::prelude::*;

verus! {

// USER OPERATION CODES
// ================================================================================================
// An operation code is made of 5 low-degree bits (weights 1, 2, 4, 8, 16) and 2 high-degree
// bits (weights 32, 64). High-degree operations have all low-degree bits set; low-degree
// operations have both high-degree bits set.

/// Marks the start of a program block; all operation bits are 0.
pub const BEGIN: u8 = 0u8;
/// Does nothing; all operation bits are 1.
pub const NOOP: u8 = 127u8;

pub const ASSERT: u8 = 97u8;
pub const ASSERTEQ: u8 = 98u8;
pub const READ: u8 = 99u8;
pub const READ2: u8 = 100u8;
pub const DUP: u8 = 101u8;
pub const DUP2: u8 = 102u8;
pub const DUP4: u8 = 103u8;
pub const PAD2: u8 = 104u8;
pub const DROP: u8 = 105u8;
pub const DROP4: u8 = 106u8;
pub const SWAP: u8 = 107u8;
pub const SWAP2: u8 = 108u8;
pub const SWAP4: u8 = 109u8;
pub const ROLL4: u8 = 110u8;
pub const ROLL8: u8 = 111u8;
pub const AND: u8 = 112u8;
pub const OR: u8 = 113u8;
pub const NOT: u8 = 114u8;
pub const EQ: u8 = 115u8;
pub const ADD: u8 = 116u8;
pub const MUL: u8 = 117u8;
pub const INV: u8 = 118u8;
pub const NEG: u8 = 119u8;
pub const BINACC: u8 = 120u8;
pub const CHOOSE: u8 = 121u8;
pub const CHOOSE2: u8 = 122u8;
pub const CSWAP2: u8 = 123u8;

/// Pushes the value carried by the operation onto the stack (high-degree bits 00).
pub const PUSH: u8 = 31u8;
/// One step of a bitwise comparison of two values (high-degree bits 10).
pub const CMP: u8 = 63u8;
/// One round of the Rescue hash function over the top of the stack (high-degree bits 01).
pub const RESCR: u8 = 95u8;

// FLOW CONTROL OPERATIONS
// ================================================================================================
// Flow control operations are identified by 3 bits; each constant is the index of the
// operation's flag among the 8 flags derived from these bits.

pub const HACC: usize = 0usize;
pub const BEGIN_BLOCK: usize = 1usize;
pub const TEND: usize = 2usize;
pub const FEND: usize = 3usize;
pub const LOOP: usize = 4usize;
pub const WRAP: usize = 5usize;
pub const BREAK: usize = 6usize;
pub const VOID: usize = 7usize;

} // verus!
