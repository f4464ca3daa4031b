use vstd::prelude::*;
use crate::opcodes;
use super::blocks::ExecutionHint;
use crate::programs::assembly::text::{ decimal, append_decimal };

verus! {

/// The name of an operation without a value, or `None` for PUSH and unknown operation codes.
pub open spec fn op_name(op_code: u8) -> Option<Seq<char>> {
    if op_code == opcodes::NOOP {
        Some("noop"@)
    } else if op_code == opcodes::ASSERT {
        Some("assert"@)
    } else if op_code == opcodes::ASSERTEQ {
        Some("asserteq"@)
    } else if op_code == opcodes::READ {
        Some("read"@)
    } else if op_code == opcodes::READ2 {
        Some("read2"@)
    } else if op_code == opcodes::DUP {
        Some("dup"@)
    } else if op_code == opcodes::DUP2 {
        Some("dup2"@)
    } else if op_code == opcodes::DUP4 {
        Some("dup4"@)
    } else if op_code == opcodes::PAD2 {
        Some("pad2"@)
    } else if op_code == opcodes::DROP {
        Some("drop"@)
    } else if op_code == opcodes::DROP4 {
        Some("drop4"@)
    } else if op_code == opcodes::SWAP {
        Some("swap"@)
    } else if op_code == opcodes::SWAP2 {
        Some("swap2"@)
    } else if op_code == opcodes::SWAP4 {
        Some("swap4"@)
    } else if op_code == opcodes::ROLL4 {
        Some("roll4"@)
    } else if op_code == opcodes::ROLL8 {
        Some("roll8"@)
    } else if op_code == opcodes::CHOOSE {
        Some("choose"@)
    } else if op_code == opcodes::CHOOSE2 {
        Some("choose2"@)
    } else if op_code == opcodes::ADD {
        Some("add"@)
    } else if op_code == opcodes::MUL {
        Some("mul"@)
    } else if op_code == opcodes::INV {
        Some("inv"@)
    } else if op_code == opcodes::NEG {
        Some("neg"@)
    } else if op_code == opcodes::NOT {
        Some("not"@)
    } else if op_code == opcodes::AND {
        Some("and"@)
    } else if op_code == opcodes::OR {
        Some("or"@)
    } else if op_code == opcodes::EQ {
        Some("eq"@)
    } else if op_code == opcodes::CMP {
        Some("cmp"@)
    } else if op_code == opcodes::BINACC {
        Some("binacc"@)
    } else if op_code == opcodes::RESCR {
        Some("rescr"@)
    } else {
        None
    }
}

/// The text of an operation: its name, "push(VALUE)" for a PUSH, or "unknown CODE".
pub open spec fn op_text(op_code: u8, op_hint: ExecutionHint) -> Seq<char> {
    if op_code == opcodes::PUSH {
        match op_hint {
            ExecutionHint::PushValue(v) => "push("@ + decimal(v as nat) + ")"@,
            _ => Seq::empty(),
        }
    } else {
        match op_name(op_code) {
            Some(name) => name,
            None => "unknown "@ + decimal(op_code as nat),
        }
    }
}

/// Returns the text of an operation; a PUSH must carry its value in its hint.
pub fn op_to_str(op_code: u8, op_hint: ExecutionHint) -> (r: String)
    requires
        op_code == opcodes::PUSH ==> op_hint is PushValue,
    ensures
        r@ == op_text(op_code, op_hint),
{
    if op_code == opcodes::PUSH {
        let op_value = match op_hint {
            ExecutionHint::PushValue(value) => value,
            _ => 0,
        };
        let mut s = String::from_str("push(");
        append_decimal(&mut s, op_value);
        s.append(")");
        return s;
    }
    if op_code == opcodes::NOOP {
        String::from_str("noop")
    } else if op_code == opcodes::ASSERT {
        String::from_str("assert")
    } else if op_code == opcodes::ASSERTEQ {
        String::from_str("asserteq")
    } else if op_code == opcodes::READ {
        String::from_str("read")
    } else if op_code == opcodes::READ2 {
        String::from_str("read2")
    } else if op_code == opcodes::DUP {
        String::from_str("dup")
    } else if op_code == opcodes::DUP2 {
        String::from_str("dup2")
    } else if op_code == opcodes::DUP4 {
        String::from_str("dup4")
    } else if op_code == opcodes::PAD2 {
        String::from_str("pad2")
    } else if op_code == opcodes::DROP {
        String::from_str("drop")
    } else if op_code == opcodes::DROP4 {
        String::from_str("drop4")
    } else if op_code == opcodes::SWAP {
        String::from_str("swap")
    } else if op_code == opcodes::SWAP2 {
        String::from_str("swap2")
    } else if op_code == opcodes::SWAP4 {
        String::from_str("swap4")
    } else if op_code == opcodes::ROLL4 {
        String::from_str("roll4")
    } else if op_code == opcodes::ROLL8 {
        String::from_str("roll8")
    } else if op_code == opcodes::CHOOSE {
        String::from_str("choose")
    } else if op_code == opcodes::CHOOSE2 {
        String::from_str("choose2")
    } else if op_code == opcodes::ADD {
        String::from_str("add")
    } else if op_code == opcodes::MUL {
        String::from_str("mul")
    } else if op_code == opcodes::INV {
        String::from_str("inv")
    } else if op_code == opcodes::NEG {
        String::from_str("neg")
    } else if op_code == opcodes::NOT {
        String::from_str("not")
    } else if op_code == opcodes::AND {
        String::from_str("and")
    } else if op_code == opcodes::OR {
        String::from_str("or")
    } else if op_code == opcodes::EQ {
        String::from_str("eq")
    } else if op_code == opcodes::CMP {
        String::from_str("cmp")
    } else if op_code == opcodes::BINACC {
        String::from_str("binacc")
    } else if op_code == opcodes::RESCR {
        String::from_str("rescr")
    } else {
        let mut s = String::from_str("unknown ");
        append_decimal(&mut s, op_code as u128);
        s
    }
}

} // verus!
