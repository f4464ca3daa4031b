use vstd::prelude::*;
use vstd::arithmetic::power2::{ pow2, lemma_pow2_unfold, lemma2_to64 };
use std::collections::HashMap;
use crate::opcodes;
use crate::math::field::MODULUS;
use crate::programs::blocks::ExecutionHint;
use super::errors::{
    AssemblyError, is_extra_param, is_missing_param, is_invalid_param, is_param_reason,
};
use super::text::{ parse_bounded, parse_number, decimal, append_decimal, str_equals };

verus! {

// SPECIFICATIONS
// ================================================================================================

/// Operation codes as elements of a program.
pub open spec fn ops128(ops: Seq<u8>) -> Seq<u128> {
    ops.map_values(|o: u8| o as u128)
}

/// `n` copies of operation `o` as elements of a program.
pub open spec fn repeat_op(o: u8, n: nat) -> Seq<u128> {
    Seq::new(n, |i: int| o as u128)
}

/// The parameter of an operation: 1 when it has none, the positive decimal `u32` value of its
/// only parameter, and `None` otherwise.
pub open spec fn param(op: Seq<&str>) -> Option<u32> {
    if op.len() == 1 {
        Some(1u32)
    } else if op.len() == 2 {
        match parse_bounded(op[1]@, 10, u32::MAX as nat) {
            Some(v) => if v > 0 { Some(v as u32) } else { None },
            None => None,
        }
    } else {
        None
    }
}

/// Whether `e` is the error for an operation whose parameter could not be read.
pub open spec fn is_param_error(e: AssemblyError, op: Seq<&str>, step: usize) -> bool {
    if op.len() > 2 {
        is_extra_param(e, op, step)
    } else if parse_bounded(op[1]@, 10, u32::MAX as nat) is None {
        is_invalid_param(e, op, step)
    } else {
        is_param_reason(e, op, step, "parameter value must be greater than 0"@)
    }
}

/// Whether the characters of `s` begin with "0x".
pub open spec fn is_hex(s: Seq<char>) -> bool {
    s.len() >= 2 && s[0] == '0' && s[1] == 'x'
}

/// The value of a number written in decimal, or in hexadecimal after "0x".
pub open spec fn number_value(s: Seq<char>) -> Option<nat> {
    if is_hex(s) {
        parse_bounded(s.skip(2), 16, u128::MAX as nat)
    } else {
        parse_bounded(s, 10, u128::MAX as nat)
    }
}

/// The value carried by an operation: its only parameter, which must be a field element.
pub open spec fn value_param(op: Seq<&str>) -> Option<u128> {
    if op.len() == 2 {
        match number_value(op[1]@) {
            Some(v) => if v < MODULUS { Some(v as u128) } else { None },
            None => None,
        }
    } else {
        None
    }
}

/// Whether `e` is the error for an operation whose value could not be read.
pub open spec fn is_value_error(e: AssemblyError, op: Seq<&str>, step: usize) -> bool {
    if op.len() == 1 {
        is_missing_param(e, op, step)
    } else if op.len() > 2 {
        is_extra_param(e, op, step)
    } else if number_value(op[1]@) is None {
        is_invalid_param(e, op, step)
    } else {
        is_param_reason(e, op, step, "parameter value must be smaller than "@ + decimal(MODULUS as nat))
    }
}

/// The reason given for a parameter `n` outside of the allowed values `allowed`.
pub open spec fn choice_reason(n: u32, allowed: Seq<char>) -> Seq<char> {
    "parameter "@ + decimal(n as nat) + " is invalid; allowed values are: "@ + allowed
}

/// The reason given for a parameter `n` outside of the range `range`.
pub open spec fn range_reason(n: u32, range: Seq<char>) -> Seq<char> {
    "parameter "@ + decimal(n as nat) + " is invalid; value must be between "@ + range
}

/// The outcome of parsing an operation without parameters which appends `ops`.
pub open spec fn simple_parse(
    op: Seq<&str>,
    step: usize,
    before: Seq<u128>,
    after: Seq<u128>,
    r: Result<bool, AssemblyError>,
    ops: Seq<u8>,
) -> bool {
    match r {
        Ok(b) => op.len() <= 1 && b && after == before + ops128(ops),
        Err(e) => op.len() > 1 && is_extra_param(e, op, step) && after == before,
    }
}

/// The outcome of parsing an operation whose parameter selects the operations to append from
/// `table`, with `allowed` listing the allowed parameters.
pub open spec fn choice_parse(
    op: Seq<&str>,
    step: usize,
    before: Seq<u128>,
    after: Seq<u128>,
    r: Result<bool, AssemblyError>,
    table: spec_fn(u32) -> Option<Seq<u8>>,
    allowed: Seq<char>,
) -> bool {
    match r {
        Ok(b) => {
            &&& b
            &&& param(op) is Some
            &&& table(param(op).unwrap()) is Some
            &&& after == before + ops128(table(param(op).unwrap()).unwrap())
        },
        Err(e) => {
            &&& after == before
            &&& match param(op) {
                None => is_param_error(e, op, step),
                Some(n) => table(n) is None && is_param_reason(e, op, step, choice_reason(n, allowed)),
            }
        },
    }
}

/// Operations which duplicate the top `n` values of the stack.
pub open spec fn dup_ops(n: u32) -> Option<Seq<u8>> {
    if n == 1 { Some(seq![opcodes::DUP]) }
    else if n == 2 { Some(seq![opcodes::DUP2]) }
    else if n == 3 { Some(seq![opcodes::DUP4, opcodes::ROLL4, opcodes::DROP]) }
    else if n == 4 { Some(seq![opcodes::DUP4]) }
    else { None }
}

/// Operations which pad the stack with `n` zeros.
pub open spec fn pad_ops(n: u32) -> Option<Seq<u8>> {
    if n == 1 { Some(seq![opcodes::PAD2, opcodes::DROP]) }
    else if n == 2 { Some(seq![opcodes::PAD2]) }
    else if n == 3 { Some(seq![opcodes::PAD2, opcodes::PAD2, opcodes::DROP]) }
    else if n == 4 { Some(seq![opcodes::PAD2, opcodes::PAD2]) }
    else if n == 5 { Some(seq![opcodes::PAD2, opcodes::PAD2, opcodes::PAD2, opcodes::DROP]) }
    else if n == 6 { Some(seq![opcodes::PAD2, opcodes::PAD2, opcodes::PAD2]) }
    else if n == 7 { Some(seq![opcodes::PAD2, opcodes::PAD2, opcodes::DUP4, opcodes::DROP]) }
    else if n == 8 { Some(seq![opcodes::PAD2, opcodes::PAD2, opcodes::DUP4]) }
    else { None }
}

/// Operations which copy the `n`-th value of the stack to the top.
pub open spec fn pick_ops(n: u32) -> Option<Seq<u8>> {
    if n == 1 { Some(seq![opcodes::DUP2, opcodes::DROP]) }
    else if n == 2 { Some(seq![opcodes::DUP4, opcodes::ROLL4, opcodes::DROP, opcodes::DROP, opcodes::DROP]) }
    else if n == 3 { Some(seq![opcodes::DUP4, opcodes::DROP, opcodes::DROP, opcodes::DROP]) }
    else { None }
}

/// Operations which remove the top `n` values of the stack.
pub open spec fn drop_ops(n: u32) -> Option<Seq<u8>> {
    if n == 1 { Some(seq![opcodes::DROP]) }
    else if n == 2 { Some(seq![opcodes::DROP, opcodes::DROP]) }
    else if n == 3 { Some(seq![opcodes::DUP, opcodes::DROP4]) }
    else if n == 4 { Some(seq![opcodes::DROP4]) }
    else if n == 5 { Some(seq![opcodes::DROP, opcodes::DROP4]) }
    else if n == 6 { Some(seq![opcodes::DROP, opcodes::DROP, opcodes::DROP4]) }
    else if n == 7 { Some(seq![opcodes::DUP, opcodes::DROP4, opcodes::DROP4]) }
    else if n == 8 { Some(seq![opcodes::DROP4, opcodes::DROP4]) }
    else { None }
}

/// Operations which swap the top `n` values of the stack with the following `n` values.
pub open spec fn swap_ops(n: u32) -> Option<Seq<u8>> {
    if n == 1 { Some(seq![opcodes::SWAP]) }
    else if n == 2 { Some(seq![opcodes::SWAP2]) }
    else if n == 4 { Some(seq![opcodes::SWAP4]) }
    else { None }
}

/// Operations which move the `n`-th value of the stack to the top.
pub open spec fn roll_ops(n: u32) -> Option<Seq<u8>> {
    if n == 4 { Some(seq![opcodes::ROLL4]) }
    else if n == 8 { Some(seq![opcodes::ROLL8]) }
    else { None }
}

/// Operations which select between the top `n` values and the following `n` values.
pub open spec fn choose_ops(n: u32) -> Option<Seq<u8>> {
    if n == 1 { Some(seq![opcodes::CHOOSE]) }
    else if n == 2 { Some(seq![opcodes::CHOOSE2]) }
    else { None }
}

/// Operations which prepare the stack for hashing its top `n` values.
pub open spec fn hash_prep_ops(n: u32) -> Option<Seq<u8>> {
    if n == 1 { Some(seq![opcodes::PAD2, opcodes::PAD2, opcodes::PAD2, opcodes::DROP]) }
    else if n == 2 { Some(seq![opcodes::PAD2, opcodes::PAD2]) }
    else if n == 3 { Some(seq![opcodes::PAD2, opcodes::PAD2, opcodes::DROP]) }
    else if n == 4 { Some(seq![opcodes::PAD2]) }
    else { None }
}

/// The number of NOOPs which pad a program of length `len` to the next multiple of 16 (a full
/// cycle of 16 when it already is one).
pub open spec fn pad_length(len: nat) -> nat {
    (16 - (len % 16)) as nat
}

/// The operations which end a value comparison and keep only the result for GT.
pub open spec fn gt_tail() -> Seq<u8> {
    seq![
        opcodes::DROP, opcodes::SWAP4, opcodes::ROLL4, opcodes::EQ, opcodes::ASSERT,
        opcodes::EQ, opcodes::ASSERT, opcodes::ROLL4, opcodes::DUP, opcodes::DROP4,
    ]
}

/// The operations which end a value comparison and keep only the result for LT.
pub open spec fn lt_tail() -> Seq<u8> {
    seq![
        opcodes::DROP, opcodes::SWAP4, opcodes::ROLL4, opcodes::EQ, opcodes::ASSERT,
        opcodes::EQ, opcodes::ASSERT, opcodes::DUP, opcodes::DROP4,
    ]
}

/// One cycle of a Merkle path computation: hash, read the next bit and node, hash the other way
/// round, choose by the bit.
pub open spec fn mpath_cycle() -> Seq<u8> {
    seq![
        opcodes::RESCR, opcodes::RESCR, opcodes::RESCR, opcodes::RESCR,
        opcodes::RESCR, opcodes::RESCR, opcodes::RESCR, opcodes::RESCR,
        opcodes::RESCR, opcodes::RESCR, opcodes::DROP4, opcodes::READ2,
        opcodes::SWAP2, opcodes::SWAP4, opcodes::SWAP2, opcodes::PAD2,
        opcodes::RESCR, opcodes::RESCR, opcodes::RESCR, opcodes::RESCR,
        opcodes::RESCR, opcodes::RESCR, opcodes::RESCR, opcodes::RESCR,
        opcodes::RESCR, opcodes::RESCR, opcodes::DROP4, opcodes::CHOOSE2,
        opcodes::READ2, opcodes::DUP4, opcodes::PAD2, opcodes::NOOP,
    ]
}

/// `k` repetitions of the Merkle path cycle.
pub open spec fn mpath_cycles(k: nat) -> Seq<u128> {
    Seq::new(k * 32, |i: int| mpath_cycle()[i % 32] as u128)
}

/// The outcome of parsing a `push` operation.
pub open spec fn push_parse(op: Seq<&str>, step: usize, before: Seq<u128>, after: Seq<u128>, r: Result<bool, AssemblyError>) -> bool {
    match r {
        Ok(b) => b && value_param(op) is Some
            && after == before + seq![opcodes::PUSH as u128, value_param(op).unwrap()],
        Err(e) => value_param(op) is None && is_value_error(e, op, step) && after == before,
    }
}

/// The outcome of parsing a `read` operation.
pub open spec fn read_parse(op: Seq<&str>, step: usize, before: Seq<u128>, after: Seq<u128>, r: Result<bool, AssemblyError>) -> bool {
    match r {
        Ok(b) => b && op.len() <= 2 && if op.len() == 1 || op[1]@ == "a"@ {
            after == before.push(opcodes::READ as u128)
        } else {
            op[1]@ == "ab"@ && after == before.push(opcodes::READ2 as u128)
        },
        Err(e) => after == before && if op.len() > 2 {
            is_extra_param(e, op, step)
        } else {
            &&& op.len() == 2
            &&& op[1]@ != "a"@
            &&& op[1]@ != "ab"@
            &&& is_param_reason(e, op, step, "parameter "@ + op[1]@ + " is invalid; allowed values are: "@ + "[a, ab]"@)
        },
    }
}

/// The outcome of parsing a `hash` operation.
pub open spec fn hash_parse(op: Seq<&str>, step: usize, before: Seq<u128>, after: Seq<u128>, r: Result<bool, AssemblyError>) -> bool {
    match r {
        Ok(b) => {
            &&& b
            &&& param(op) is Some
            &&& hash_prep_ops(param(op).unwrap()) is Some
            &&& after == {
                let prep = hash_prep_ops(param(op).unwrap()).unwrap();
                before + ops128(prep) + repeat_op(opcodes::NOOP, pad_length(before.len() + prep.len()))
                    + repeat_op(opcodes::RESCR, 10) + seq![opcodes::DROP4 as u128]
            }
        },
        Err(e) => {
            &&& after == before
            &&& match param(op) {
                None => is_param_error(e, op, step),
                Some(n) => hash_prep_ops(n) is None && is_param_reason(e, op, step, choice_reason(n, "[1, 2, 3, 4]"@)),
            }
        },
    }
}

/// The outcome of parsing a `mpath` operation.
pub open spec fn mpath_parse(op: Seq<&str>, step: usize, before: Seq<u128>, after: Seq<u128>, r: Result<bool, AssemblyError>) -> bool {
    match r {
        Ok(b) => {
            &&& b
            &&& param(op) is Some
            &&& 2 <= param(op).unwrap() <= 256
            &&& after == before + ops128(seq![opcodes::READ2, opcodes::DUP4, opcodes::PAD2])
                + repeat_op(opcodes::NOOP, pad_length(before.len() + 3))
                + mpath_cycles((param(op).unwrap() - 2) as nat) + ops128(mpath_cycle().take(28))
        },
        Err(e) => {
            &&& after == before
            &&& match param(op) {
                None => is_param_error(e, op, step),
                Some(n) => (n < 2 || n > 256) && is_param_reason(e, op, step, range_reason(n, "2 and 256"@)),
            }
        },
    }
}

/// The outcome of parsing a `rc` operation.
pub open spec fn rc_parse(op: Seq<&str>, step: usize, before: Seq<u128>, after: Seq<u128>, hints_before: Map<usize, ExecutionHint>, hints_after: Map<usize, ExecutionHint>, r: Result<bool, AssemblyError>) -> bool {
    match r {
        Ok(b) => {
            &&& b
            &&& param(op) is Some
            &&& 4 <= param(op).unwrap() <= 128
            &&& after == before + ops128(seq![opcodes::PAD2, opcodes::DROP, opcodes::PUSH])
                + seq![pow2((param(op).unwrap() - 1) as nat) as u128]
                + repeat_op(opcodes::BINACC, param(op).unwrap() as nat) + ops128(seq![opcodes::DROP, opcodes::EQ])
            &&& hints_after == hints_before.insert((before.len() + 4) as usize, ExecutionHint::RcStart(param(op).unwrap()))
        },
        Err(e) => {
            &&& after == before
            &&& hints_after == hints_before
            &&& match param(op) {
                None => is_param_error(e, op, step),
                Some(n) => (n < 4 || n > 128) && is_param_reason(e, op, step, range_reason(n, "4 and 128"@)),
            }
        },
    }
}

// HELPERS
// ================================================================================================

/// Appends `ops` to the program.
fn push_ops(program: &mut Vec<u128>, ops: &[u8])
    ensures
        final(program)@ == old(program)@ + ops128(ops@),
{
    let ghost p0 = program@;
    let mut i: usize = 0;
    while i < ops.len()
        invariant
            i <= ops@.len(),
            program@ == p0 + ops128(ops@.subrange(0, i as int)),
        decreases ops@.len() - i,
    {
        program.push(ops[i] as u128);
        i = i + 1;
        assert(ops128(ops@.subrange(0, i as int)) =~= ops128(ops@.subrange(0, (i - 1) as int)).push(ops@[i - 1] as u128));
    }
    assert(ops@.subrange(0, ops@.len() as int) =~= ops@);
}

/// Appends `n` copies of operation `o` to the program.
fn push_repeated(program: &mut Vec<u128>, o: u8, n: usize)
    ensures
        final(program)@ == old(program)@ + repeat_op(o, n as nat),
{
    let ghost p0 = program@;
    let mut i: usize = 0;
    while i < n
        invariant
            i <= n,
            program@ == p0 + repeat_op(o, i as nat),
        decreases n - i,
    {
        program.push(o as u128);
        i = i + 1;
        assert(repeat_op(o, i as nat) =~= repeat_op(o, (i - 1) as nat).push(o as u128));
    }
}

/// Returns 2^e.
fn pow2_u128(e: u32) -> (r: u128)
    requires
        e < 128,
    ensures
        r == pow2(e as nat),
{
    let mut p: u128 = 1;
    let mut i: u32 = 0;
    proof {
        lemma2_to64();
        lemma_pow2_127();
    }
    while i < e
        invariant
            i <= e,
            e < 128,
            p == pow2(i as nat),
            pow2(127) * 2 == u128::MAX + 1,
        decreases e - i,
    {
        proof {
            lemma_pow2_unfold((i + 1) as nat);
            if i + 1 < 127 {
                vstd::arithmetic::power2::lemma_pow2_strictly_increases((i + 1) as nat, 127);
            }
        }
        p = p * 2;
        i = i + 1;
    }
    p
}

proof fn lemma_pow2_127()
    ensures
        pow2(127) * 2 == u128::MAX + 1,
{
    vstd::arithmetic::power2::lemma_pow2_adds(64, 63);
    lemma2_to64();
    vstd::arithmetic::power2::lemma2_to64_rest();
    assert(pow2(64) * pow2(63) == 0x8000_0000_0000_0000_0000_0000_0000_0000) by (nonlinear_arith)
        requires pow2(64) == 0x10000000000000000, pow2(63) == 0x8000000000000000;
}

/// Builds the error for a parameter `n` outside of the allowed values `allowed`.
fn invalid_choice(op: &[&str], step: usize, n: u32, allowed: &str) -> (e: AssemblyError)
    requires
        op@.len() >= 1,
    ensures
        is_param_reason(e, op@, step, choice_reason(n, allowed@)),
{
    let mut reason = String::from_str("parameter ");
    append_decimal(&mut reason, n as u128);
    reason.append(" is invalid; allowed values are: ");
    reason.append(allowed);
    AssemblyError::invalid_param_reason(op, step, reason)
}

/// Builds the error for a parameter `n` outside of the range `range`.
fn invalid_range(op: &[&str], step: usize, n: u32, range: &str) -> (e: AssemblyError)
    requires
        op@.len() >= 1,
    ensures
        is_param_reason(e, op@, step, range_reason(n, range@)),
{
    let mut reason = String::from_str("parameter ");
    append_decimal(&mut reason, n as u128);
    reason.append(" is invalid; value must be between ");
    reason.append(range);
    AssemblyError::invalid_param_reason(op, step, reason)
}

/// Reads the parameter of an operation: 1 when there is none, otherwise the only parameter as a
/// positive decimal `u32`.
fn read_param(op: &[&str], step: usize) -> (r: Result<u32, AssemblyError>)
    requires
        op@.len() >= 1,
    ensures
        match r {
            Ok(v) => param(op@) == Some(v),
            Err(e) => param(op@) is None && is_param_error(e, op@, step),
        },
{
    if op.len() == 1 {
        // if no parameters were provided, assume parameter value 1
        return Ok(1);
    } else if op.len() > 2 {
        return Err(AssemblyError::extra_param(op, step));
    }

    // try to parse the parameter value
    let result = match parse_number(op[1], 0, 10, 0xffff_ffff) {
        Some(i) => i,
        None => {
            assert(op@[1]@.skip(0) =~= op@[1]@);
            return Err(AssemblyError::invalid_param(op, step));
        },
    };
    assert(op@[1]@.skip(0) =~= op@[1]@);

    // parameter value 0 is never valid
    if result == 0 {
        return Err(AssemblyError::invalid_param_reason(op, step, String::from_str("parameter value must be greater than 0")));
    }
    Ok(result as u32)
}

/// Reads the value carried by an operation: its only parameter, in decimal or in hexadecimal
/// after "0x", which must be smaller than the field modulus.
fn read_value(op: &[&str], step: usize) -> (r: Result<u128, AssemblyError>)
    requires
        op@.len() >= 1,
    ensures
        match r {
            Ok(v) => value_param(op@) == Some(v),
            Err(e) => value_param(op@) is None && is_value_error(e, op@, step),
        },
{
    // make sure exactly 1 parameter was supplied
    if op.len() == 1 {
        return Err(AssemblyError::missing_param(op, step));
    } else if op.len() > 2 {
        return Err(AssemblyError::extra_param(op, step));
    }

    let s = op[1];
    let hex = s.unicode_len() >= 2 && s.get_char(0) == '0' && s.get_char(1) == 'x';
    let parsed = if hex {
        // parse hexadecimal number
        parse_number(s, 2, 16, u128::MAX)
    } else {
        // parse decimal number
        assert(s@.skip(0) =~= s@);
        parse_number(s, 0, 10, u128::MAX)
    };
    let result = match parsed {
        Some(i) => i,
        None => return Err(AssemblyError::invalid_param(op, step)),
    };

    // make sure the value is a valid field element
    if result >= MODULUS {
        let mut reason = String::from_str("parameter value must be smaller than ");
        append_decimal(&mut reason, MODULUS);
        return Err(AssemblyError::invalid_param_reason(op, step, reason));
    }
    Ok(result)
}

// PARSERS
// ================================================================================================

/// Appends a NOOP operation to the program.
pub fn parse_noop(program: &mut Vec<u128>, op: &[&str], step: usize) -> (r: Result<bool, AssemblyError>)
    requires
        op@.len() >= 1,
    ensures
        simple_parse(op@, step, old(program)@, final(program)@, r, seq![opcodes::NOOP]),
{
    if op.len() > 1 {
        return Err(AssemblyError::extra_param(op, step));
    }
    let ops = [opcodes::NOOP];
    assert(ops@ =~= seq![opcodes::NOOP]);
    push_ops(program, ops.as_slice());
    Ok(true)
}

/// Appends an ASSERT operation to the program.
pub fn parse_assert(program: &mut Vec<u128>, op: &[&str], step: usize) -> (r: Result<bool, AssemblyError>)
    requires
        op@.len() >= 1,
    ensures
        simple_parse(op@, step, old(program)@, final(program)@, r, seq![opcodes::ASSERT]),
{
    if op.len() > 1 {
        return Err(AssemblyError::extra_param(op, step));
    }
    let ops = [opcodes::ASSERT];
    assert(ops@ =~= seq![opcodes::ASSERT]);
    push_ops(program, ops.as_slice());
    Ok(true)
}

/// Appends an ADD operation to the program.
pub fn parse_add(program: &mut Vec<u128>, op: &[&str], step: usize) -> (r: Result<bool, AssemblyError>)
    requires
        op@.len() >= 1,
    ensures
        simple_parse(op@, step, old(program)@, final(program)@, r, seq![opcodes::ADD]),
{
    if op.len() > 1 {
        return Err(AssemblyError::extra_param(op, step));
    }
    let ops = [opcodes::ADD];
    assert(ops@ =~= seq![opcodes::ADD]);
    push_ops(program, ops.as_slice());
    Ok(true)
}

/// Appends NEG ADD operations to the program.
pub fn parse_sub(program: &mut Vec<u128>, op: &[&str], step: usize) -> (r: Result<bool, AssemblyError>)
    requires
        op@.len() >= 1,
    ensures
        simple_parse(op@, step, old(program)@, final(program)@, r, seq![opcodes::NEG, opcodes::ADD]),
{
    if op.len() > 1 {
        return Err(AssemblyError::extra_param(op, step));
    }
    let ops = [opcodes::NEG, opcodes::ADD];
    assert(ops@ =~= seq![opcodes::NEG, opcodes::ADD]);
    push_ops(program, ops.as_slice());
    Ok(true)
}

/// Appends a MUL operation to the program.
pub fn parse_mul(program: &mut Vec<u128>, op: &[&str], step: usize) -> (r: Result<bool, AssemblyError>)
    requires
        op@.len() >= 1,
    ensures
        simple_parse(op@, step, old(program)@, final(program)@, r, seq![opcodes::MUL]),
{
    if op.len() > 1 {
        return Err(AssemblyError::extra_param(op, step));
    }
    let ops = [opcodes::MUL];
    assert(ops@ =~= seq![opcodes::MUL]);
    push_ops(program, ops.as_slice());
    Ok(true)
}

/// Appends INV MUL operations to the program.
pub fn parse_div(program: &mut Vec<u128>, op: &[&str], step: usize) -> (r: Result<bool, AssemblyError>)
    requires
        op@.len() >= 1,
    ensures
        simple_parse(op@, step, old(program)@, final(program)@, r, seq![opcodes::INV, opcodes::MUL]),
{
    if op.len() > 1 {
        return Err(AssemblyError::extra_param(op, step));
    }
    let ops = [opcodes::INV, opcodes::MUL];
    assert(ops@ =~= seq![opcodes::INV, opcodes::MUL]);
    push_ops(program, ops.as_slice());
    Ok(true)
}

/// Appends a NEG operation to the program.
pub fn parse_neg(program: &mut Vec<u128>, op: &[&str], step: usize) -> (r: Result<bool, AssemblyError>)
    requires
        op@.len() >= 1,
    ensures
        simple_parse(op@, step, old(program)@, final(program)@, r, seq![opcodes::NEG]),
{
    if op.len() > 1 {
        return Err(AssemblyError::extra_param(op, step));
    }
    let ops = [opcodes::NEG];
    assert(ops@ =~= seq![opcodes::NEG]);
    push_ops(program, ops.as_slice());
    Ok(true)
}

/// Appends an INV operation to the program.
pub fn parse_inv(program: &mut Vec<u128>, op: &[&str], step: usize) -> (r: Result<bool, AssemblyError>)
    requires
        op@.len() >= 1,
    ensures
        simple_parse(op@, step, old(program)@, final(program)@, r, seq![opcodes::INV]),
{
    if op.len() > 1 {
        return Err(AssemblyError::extra_param(op, step));
    }
    let ops = [opcodes::INV];
    assert(ops@ =~= seq![opcodes::INV]);
    push_ops(program, ops.as_slice());
    Ok(true)
}

/// Appends a NOT operation to the program.
pub fn parse_not(program: &mut Vec<u128>, op: &[&str], step: usize) -> (r: Result<bool, AssemblyError>)
    requires
        op@.len() >= 1,
    ensures
        simple_parse(op@, step, old(program)@, final(program)@, r, seq![opcodes::NOT]),
{
    if op.len() > 1 {
        return Err(AssemblyError::extra_param(op, step));
    }
    let ops = [opcodes::NOT];
    assert(ops@ =~= seq![opcodes::NOT]);
    push_ops(program, ops.as_slice());
    Ok(true)
}

/// Appends an EQ operation to the program.
pub fn parse_eq(program: &mut Vec<u128>, op: &[&str], step: usize) -> (r: Result<bool, AssemblyError>)
    requires
        op@.len() >= 1,
    ensures
        simple_parse(op@, step, old(program)@, final(program)@, r, seq![opcodes::EQ]),
{
    if op.len() > 1 {
        return Err(AssemblyError::extra_param(op, step));
    }
    let ops = [opcodes::EQ];
    assert(ops@ =~= seq![opcodes::EQ]);
    push_ops(program, ops.as_slice());
    Ok(true)
}

/// Appends operations which duplicate the top n values of the stack.
pub fn parse_dup(program: &mut Vec<u128>, op: &[&str], step: usize) -> (r: Result<bool, AssemblyError>)
    requires
        op@.len() >= 1,
    ensures
        choice_parse(op@, step, old(program)@, final(program)@, r, |v: u32| dup_ops(v), "[1, 2, 3, 4]"@),
{
    let n = match read_param(op, step) {
        Ok(n) => n,
        Err(e) => return Err(e),
    };
    if n == 1 {
        let ops = [opcodes::DUP];
        assert(ops@ =~= seq![opcodes::DUP]);
        push_ops(program, ops.as_slice());
    } else if n == 2 {
        let ops = [opcodes::DUP2];
        assert(ops@ =~= seq![opcodes::DUP2]);
        push_ops(program, ops.as_slice());
    } else if n == 3 {
        let ops = [opcodes::DUP4, opcodes::ROLL4, opcodes::DROP];
        assert(ops@ =~= seq![opcodes::DUP4, opcodes::ROLL4, opcodes::DROP]);
        push_ops(program, ops.as_slice());
    } else if n == 4 {
        let ops = [opcodes::DUP4];
        assert(ops@ =~= seq![opcodes::DUP4]);
        push_ops(program, ops.as_slice());
    } else {
        return Err(invalid_choice(op, step, n, "[1, 2, 3, 4]"));
    }
    Ok(true)
}

/// Appends operations which pad the stack with n zeros.
pub fn parse_pad(program: &mut Vec<u128>, op: &[&str], step: usize) -> (r: Result<bool, AssemblyError>)
    requires
        op@.len() >= 1,
    ensures
        choice_parse(op@, step, old(program)@, final(program)@, r, |v: u32| pad_ops(v), "[1, 2, 3, 4, 5, 6, 7, 8]"@),
{
    let n = match read_param(op, step) {
        Ok(n) => n,
        Err(e) => return Err(e),
    };
    if n == 1 {
        let ops = [opcodes::PAD2, opcodes::DROP];
        assert(ops@ =~= seq![opcodes::PAD2, opcodes::DROP]);
        push_ops(program, ops.as_slice());
    } else if n == 2 {
        let ops = [opcodes::PAD2];
        assert(ops@ =~= seq![opcodes::PAD2]);
        push_ops(program, ops.as_slice());
    } else if n == 3 {
        let ops = [opcodes::PAD2, opcodes::PAD2, opcodes::DROP];
        assert(ops@ =~= seq![opcodes::PAD2, opcodes::PAD2, opcodes::DROP]);
        push_ops(program, ops.as_slice());
    } else if n == 4 {
        let ops = [opcodes::PAD2, opcodes::PAD2];
        assert(ops@ =~= seq![opcodes::PAD2, opcodes::PAD2]);
        push_ops(program, ops.as_slice());
    } else if n == 5 {
        let ops = [opcodes::PAD2, opcodes::PAD2, opcodes::PAD2, opcodes::DROP];
        assert(ops@ =~= seq![opcodes::PAD2, opcodes::PAD2, opcodes::PAD2, opcodes::DROP]);
        push_ops(program, ops.as_slice());
    } else if n == 6 {
        let ops = [opcodes::PAD2, opcodes::PAD2, opcodes::PAD2];
        assert(ops@ =~= seq![opcodes::PAD2, opcodes::PAD2, opcodes::PAD2]);
        push_ops(program, ops.as_slice());
    } else if n == 7 {
        let ops = [opcodes::PAD2, opcodes::PAD2, opcodes::DUP4, opcodes::DROP];
        assert(ops@ =~= seq![opcodes::PAD2, opcodes::PAD2, opcodes::DUP4, opcodes::DROP]);
        push_ops(program, ops.as_slice());
    } else if n == 8 {
        let ops = [opcodes::PAD2, opcodes::PAD2, opcodes::DUP4];
        assert(ops@ =~= seq![opcodes::PAD2, opcodes::PAD2, opcodes::DUP4]);
        push_ops(program, ops.as_slice());
    } else {
        return Err(invalid_choice(op, step, n, "[1, 2, 3, 4, 5, 6, 7, 8]"));
    }
    Ok(true)
}

/// Appends operations which copy the n-th value of the stack to the top.
pub fn parse_pick(program: &mut Vec<u128>, op: &[&str], step: usize) -> (r: Result<bool, AssemblyError>)
    requires
        op@.len() >= 1,
    ensures
        choice_parse(op@, step, old(program)@, final(program)@, r, |v: u32| pick_ops(v), "[1, 2, 3]"@),
{
    let n = match read_param(op, step) {
        Ok(n) => n,
        Err(e) => return Err(e),
    };
    if n == 1 {
        let ops = [opcodes::DUP2, opcodes::DROP];
        assert(ops@ =~= seq![opcodes::DUP2, opcodes::DROP]);
        push_ops(program, ops.as_slice());
    } else if n == 2 {
        let ops = [opcodes::DUP4, opcodes::ROLL4, opcodes::DROP, opcodes::DROP, opcodes::DROP];
        assert(ops@ =~= seq![opcodes::DUP4, opcodes::ROLL4, opcodes::DROP, opcodes::DROP, opcodes::DROP]);
        push_ops(program, ops.as_slice());
    } else if n == 3 {
        let ops = [opcodes::DUP4, opcodes::DROP, opcodes::DROP, opcodes::DROP];
        assert(ops@ =~= seq![opcodes::DUP4, opcodes::DROP, opcodes::DROP, opcodes::DROP]);
        push_ops(program, ops.as_slice());
    } else {
        return Err(invalid_choice(op, step, n, "[1, 2, 3]"));
    }
    Ok(true)
}

/// Appends operations which remove the top n values from the stack.
pub fn parse_drop(program: &mut Vec<u128>, op: &[&str], step: usize) -> (r: Result<bool, AssemblyError>)
    requires
        op@.len() >= 1,
    ensures
        choice_parse(op@, step, old(program)@, final(program)@, r, |v: u32| drop_ops(v), "[1, 2, 3, 4, 5, 6, 7, 8]"@),
{
    let n = match read_param(op, step) {
        Ok(n) => n,
        Err(e) => return Err(e),
    };
    if n == 1 {
        let ops = [opcodes::DROP];
        assert(ops@ =~= seq![opcodes::DROP]);
        push_ops(program, ops.as_slice());
    } else if n == 2 {
        let ops = [opcodes::DROP, opcodes::DROP];
        assert(ops@ =~= seq![opcodes::DROP, opcodes::DROP]);
        push_ops(program, ops.as_slice());
    } else if n == 3 {
        let ops = [opcodes::DUP, opcodes::DROP4];
        assert(ops@ =~= seq![opcodes::DUP, opcodes::DROP4]);
        push_ops(program, ops.as_slice());
    } else if n == 4 {
        let ops = [opcodes::DROP4];
        assert(ops@ =~= seq![opcodes::DROP4]);
        push_ops(program, ops.as_slice());
    } else if n == 5 {
        let ops = [opcodes::DROP, opcodes::DROP4];
        assert(ops@ =~= seq![opcodes::DROP, opcodes::DROP4]);
        push_ops(program, ops.as_slice());
    } else if n == 6 {
        let ops = [opcodes::DROP, opcodes::DROP, opcodes::DROP4];
        assert(ops@ =~= seq![opcodes::DROP, opcodes::DROP, opcodes::DROP4]);
        push_ops(program, ops.as_slice());
    } else if n == 7 {
        let ops = [opcodes::DUP, opcodes::DROP4, opcodes::DROP4];
        assert(ops@ =~= seq![opcodes::DUP, opcodes::DROP4, opcodes::DROP4]);
        push_ops(program, ops.as_slice());
    } else if n == 8 {
        let ops = [opcodes::DROP4, opcodes::DROP4];
        assert(ops@ =~= seq![opcodes::DROP4, opcodes::DROP4]);
        push_ops(program, ops.as_slice());
    } else {
        return Err(invalid_choice(op, step, n, "[1, 2, 3, 4, 5, 6, 7, 8]"));
    }
    Ok(true)
}

/// Appends an operation which swaps the top n values of the stack with the following n values.
pub fn parse_swap(program: &mut Vec<u128>, op: &[&str], step: usize) -> (r: Result<bool, AssemblyError>)
    requires
        op@.len() >= 1,
    ensures
        choice_parse(op@, step, old(program)@, final(program)@, r, |v: u32| swap_ops(v), "[1, 2, 4]"@),
{
    let n = match read_param(op, step) {
        Ok(n) => n,
        Err(e) => return Err(e),
    };
    if n == 1 {
        let ops = [opcodes::SWAP];
        assert(ops@ =~= seq![opcodes::SWAP]);
        push_ops(program, ops.as_slice());
    } else if n == 2 {
        let ops = [opcodes::SWAP2];
        assert(ops@ =~= seq![opcodes::SWAP2]);
        push_ops(program, ops.as_slice());
    } else if n == 4 {
        let ops = [opcodes::SWAP4];
        assert(ops@ =~= seq![opcodes::SWAP4]);
        push_ops(program, ops.as_slice());
    } else {
        return Err(invalid_choice(op, step, n, "[1, 2, 4]"));
    }
    Ok(true)
}

/// Appends either a ROLL4 or a ROLL8 operation to the program.
pub fn parse_roll(program: &mut Vec<u128>, op: &[&str], step: usize) -> (r: Result<bool, AssemblyError>)
    requires
        op@.len() >= 1,
    ensures
        choice_parse(op@, step, old(program)@, final(program)@, r, |v: u32| roll_ops(v), "[4, 8]"@),
{
    let n = match read_param(op, step) {
        Ok(n) => n,
        Err(e) => return Err(e),
    };
    if n == 4 {
        let ops = [opcodes::ROLL4];
        assert(ops@ =~= seq![opcodes::ROLL4]);
        push_ops(program, ops.as_slice());
    } else if n == 8 {
        let ops = [opcodes::ROLL8];
        assert(ops@ =~= seq![opcodes::ROLL8]);
        push_ops(program, ops.as_slice());
    } else {
        return Err(invalid_choice(op, step, n, "[4, 8]"));
    }
    Ok(true)
}

/// Appends either a CHOOSE or a CHOOSE2 operation to the program.
pub fn parse_choose(program: &mut Vec<u128>, op: &[&str], step: usize) -> (r: Result<bool, AssemblyError>)
    requires
        op@.len() >= 1,
    ensures
        choice_parse(op@, step, old(program)@, final(program)@, r, |v: u32| choose_ops(v), "[1, 2]"@),
{
    let n = match read_param(op, step) {
        Ok(n) => n,
        Err(e) => return Err(e),
    };
    if n == 1 {
        let ops = [opcodes::CHOOSE];
        assert(ops@ =~= seq![opcodes::CHOOSE]);
        push_ops(program, ops.as_slice());
    } else if n == 2 {
        let ops = [opcodes::CHOOSE2];
        assert(ops@ =~= seq![opcodes::CHOOSE2]);
        push_ops(program, ops.as_slice());
    } else {
        return Err(invalid_choice(op, step, n, "[1, 2]"));
    }
    Ok(true)
}

/// Appends a PUSH operation followed by the value to be pushed onto the stack.
pub fn parse_push(program: &mut Vec<u128>, op: &[&str], step: usize) -> (r: Result<bool, AssemblyError>)
    requires
        op@.len() >= 1,
    ensures
        push_parse(op@, step, old(program)@, final(program)@, r),
{
    let value = match read_value(op, step) {
        Ok(v) => v,
        Err(e) => return Err(e),
    };
    program.push(opcodes::PUSH as u128);
    program.push(value);
    assert(program@ =~= old(program)@ + seq![opcodes::PUSH as u128, value]);
    Ok(true)
}

/// Appends either a READ or a READ2 operation to the program.
pub fn parse_read(program: &mut Vec<u128>, op: &[&str], step: usize) -> (r: Result<bool, AssemblyError>)
    requires
        op@.len() >= 1,
    ensures
        read_parse(op@, step, old(program)@, final(program)@, r),
{
    if op.len() > 2 {
        return Err(AssemblyError::extra_param(op, step));
    } else if op.len() == 1 || str_equals(op[1], "a") {
        program.push(opcodes::READ as u128);
    } else if str_equals(op[1], "ab") {
        program.push(opcodes::READ2 as u128);
    } else {
        let mut reason = String::from_str("parameter ");
        reason.append(op[1]);
        reason.append(" is invalid; allowed values are: ");
        reason.append("[a, ab]");
        return Err(AssemblyError::invalid_param_reason(op, step, reason));
    }
    Ok(true)
}

/// Appends operations which compare the top value of the stack with the following value; the
/// parameter is the number of bits of the values. `head` prepares the stack, `tail` keeps only
/// the result of the comparison.
fn parse_comparison(
    program: &mut Vec<u128>,
    hints: &mut HashMap<usize, ExecutionHint>,
    op: &[&str],
    step: usize,
    tail: &[u8],
) -> (r: Result<bool, AssemblyError>)
    requires
        op@.len() >= 1,
        old(program)@.len() + tail@.len() + 200 <= usize::MAX,
    ensures
        comparison_parse(op@, step, old(program)@, final(program)@, old(hints)@, final(hints)@, r, tail@),
{
    // n is the number of bits sufficient to represent each value
    let n = match read_param(op, step) {
        Ok(n) => n,
        Err(e) => return Err(e),
    };
    if n < 4 || n > 128 {
        return Err(invalid_range(op, step, n, "4 and 128"));
    }

    // prepare the stack
    let power_of_two = pow2_u128(n - 1);
    let head = [opcodes::PAD2, opcodes::PAD2, opcodes::PAD2, opcodes::PUSH];
    assert(head@ =~= seq![opcodes::PAD2, opcodes::PAD2, opcodes::PAD2, opcodes::PUSH]);
    push_ops(program, head.as_slice());
    program.push(power_of_two);

    // add a hint indicating that value comparison is about to start
    hints.insert(program.len(), ExecutionHint::CmpStart(n));

    // append CMP operations, then the operations which keep only the result
    push_repeated(program, opcodes::CMP, n as usize);
    push_ops(program, tail);
    assert(program@ =~= old(program)@ + ops128(seq![opcodes::PAD2, opcodes::PAD2, opcodes::PAD2, opcodes::PUSH])
        + seq![pow2((n - 1) as nat) as u128] + repeat_op(opcodes::CMP, n as nat) + ops128(tail@));
    Ok(true)
}

/// The outcome of parsing a comparison whose result is kept by operations `tail`.
pub open spec fn comparison_parse(
    op: Seq<&str>,
    step: usize,
    before: Seq<u128>,
    after: Seq<u128>,
    hints_before: Map<usize, ExecutionHint>,
    hints_after: Map<usize, ExecutionHint>,
    r: Result<bool, AssemblyError>,
    tail: Seq<u8>,
) -> bool {
    match r {
        Ok(b) => {
            &&& b
            &&& param(op) is Some
            &&& 4 <= param(op).unwrap() <= 128
            &&& after == before + ops128(seq![opcodes::PAD2, opcodes::PAD2, opcodes::PAD2, opcodes::PUSH])
                + seq![pow2((param(op).unwrap() - 1) as nat) as u128]
                + repeat_op(opcodes::CMP, param(op).unwrap() as nat) + ops128(tail)
            &&& hints_after == hints_before.insert((before.len() + 5) as usize, ExecutionHint::CmpStart(param(op).unwrap()))
        },
        Err(e) => {
            &&& after == before
            &&& hints_after == hints_before
            &&& match param(op) {
                None => is_param_error(e, op, step),
                Some(n) => (n < 4 || n > 128) && is_param_reason(e, op, step, range_reason(n, "4 and 128"@)),
            }
        },
    }
}

/// Appends operations which determine whether the top value of the stack is greater than the
/// following value; the parameter is the number of bits of the values.
pub fn parse_gt(program: &mut Vec<u128>, hints: &mut HashMap<usize, ExecutionHint>, op: &[&str], step: usize) -> (r: Result<bool, AssemblyError>)
    requires
        op@.len() >= 1,
        old(program)@.len() + 300 <= usize::MAX,
    ensures
        comparison_parse(op@, step, old(program)@, final(program)@, old(hints)@, final(hints)@, r, gt_tail()),
{
    let tail = [
        opcodes::DROP, opcodes::SWAP4, opcodes::ROLL4, opcodes::EQ, opcodes::ASSERT,
        opcodes::EQ, opcodes::ASSERT, opcodes::ROLL4, opcodes::DUP, opcodes::DROP4,
    ];
    assert(tail@ =~= gt_tail());
    parse_comparison(program, hints, op, step, tail.as_slice())
}

/// Appends operations which determine whether the top value of the stack is less than the
/// following value; the parameter is the number of bits of the values.
pub fn parse_lt(program: &mut Vec<u128>, hints: &mut HashMap<usize, ExecutionHint>, op: &[&str], step: usize) -> (r: Result<bool, AssemblyError>)
    requires
        op@.len() >= 1,
        old(program)@.len() + 300 <= usize::MAX,
    ensures
        comparison_parse(op@, step, old(program)@, final(program)@, old(hints)@, final(hints)@, r, lt_tail()),
{
    let tail = [
        opcodes::DROP, opcodes::SWAP4, opcodes::ROLL4, opcodes::EQ, opcodes::ASSERT,
        opcodes::EQ, opcodes::ASSERT, opcodes::DUP, opcodes::DROP4,
    ];
    assert(tail@ =~= lt_tail());
    parse_comparison(program, hints, op, step, tail.as_slice())
}

/// Appends operations which determine whether the top value of the stack can be represented
/// with n bits.
pub fn parse_rc(program: &mut Vec<u128>, hints: &mut HashMap<usize, ExecutionHint>, op: &[&str], step: usize) -> (r: Result<bool, AssemblyError>)
    requires
        op@.len() >= 1,
        old(program)@.len() + 300 <= usize::MAX,
    ensures
        rc_parse(op@, step, old(program)@, final(program)@, old(hints)@, final(hints)@, r),
{
    let n = match read_param(op, step) {
        Ok(n) => n,
        Err(e) => return Err(e),
    };
    if n < 4 || n > 128 {
        return Err(invalid_range(op, step, n, "4 and 128"));
    }

    // prepare the stack
    let power_of_two = pow2_u128(n - 1);
    let head = [opcodes::PAD2, opcodes::DROP, opcodes::PUSH];
    assert(head@ =~= seq![opcodes::PAD2, opcodes::DROP, opcodes::PUSH]);
    push_ops(program, head.as_slice());
    program.push(power_of_two);

    // add a hint indicating that range-checking is about to start
    hints.insert(program.len(), ExecutionHint::RcStart(n));

    // append BINACC operations, then compare the aggregated value with the value being decomposed
    push_repeated(program, opcodes::BINACC, n as usize);
    let tail = [opcodes::DROP, opcodes::EQ];
    assert(tail@ =~= seq![opcodes::DROP, opcodes::EQ]);
    push_ops(program, tail.as_slice());
    assert(program@ =~= old(program)@ + ops128(seq![opcodes::PAD2, opcodes::DROP, opcodes::PUSH])
        + seq![pow2((n - 1) as nat) as u128]
        + repeat_op(opcodes::BINACC, n as nat) + ops128(seq![opcodes::DROP, opcodes::EQ]));
    Ok(true)
}

/// Appends operations which hash the top n values of the stack: the stack is prepared, NOOPs pad
/// the program so that hashing starts on a multiple of 16, 10 rounds of Rescue follow, and the
/// state is truncated.
pub fn parse_hash(program: &mut Vec<u128>, op: &[&str], step: usize) -> (r: Result<bool, AssemblyError>)
    requires
        op@.len() >= 1,
        old(program)@.len() + 100 <= usize::MAX,
    ensures
        hash_parse(op@, step, old(program)@, final(program)@, r),
{
    let n = match read_param(op, step) {
        Ok(n) => n,
        Err(e) => return Err(e),
    };
    if n == 1 {
        let ops = [opcodes::PAD2, opcodes::PAD2, opcodes::PAD2, opcodes::DROP];
        assert(ops@ =~= seq![opcodes::PAD2, opcodes::PAD2, opcodes::PAD2, opcodes::DROP]);
        push_ops(program, ops.as_slice());
    } else if n == 2 {
        let ops = [opcodes::PAD2, opcodes::PAD2];
        assert(ops@ =~= seq![opcodes::PAD2, opcodes::PAD2]);
        push_ops(program, ops.as_slice());
    } else if n == 3 {
        let ops = [opcodes::PAD2, opcodes::PAD2, opcodes::DROP];
        assert(ops@ =~= seq![opcodes::PAD2, opcodes::PAD2, opcodes::DROP]);
        push_ops(program, ops.as_slice());
    } else if n == 4 {
        let ops = [opcodes::PAD2];
        assert(ops@ =~= seq![opcodes::PAD2]);
        push_ops(program, ops.as_slice());
    } else {
        return Err(invalid_choice(op, step, n, "[1, 2, 3, 4]"));
    }

    // pad with NOOPs to make sure hashing starts on a step which is a multiple of 16
    let m = 16 - (program.len() % 16);
    push_repeated(program, opcodes::NOOP, m);

    // append operations to execute 10 rounds of Rescue, then truncate the state
    let ghost prep_len = program@.len() - old(program)@.len();
    push_repeated(program, opcodes::RESCR, 10);
    program.push(opcodes::DROP4 as u128);
    proof {
        let prep = hash_prep_ops(n).unwrap();
        assert(program@ =~= old(program)@ + ops128(prep) + repeat_op(opcodes::NOOP, pad_length(old(program)@.len() + prep.len()))
            + repeat_op(opcodes::RESCR, 10) + seq![opcodes::DROP4 as u128]);
    }
    Ok(true)
}

/// Appends operations which compute the root of a Merkle authentication path for a tree of
/// depth n: the first node is read and the stack prepared, NOOPs pad the program to a multiple
/// of 16, one cycle of 32 operations follows for each further node, and the last cycle stops
/// before reading another node.
pub fn parse_mpath(program: &mut Vec<u128>, op: &[&str], step: usize) -> (r: Result<bool, AssemblyError>)
    requires
        op@.len() >= 1,
        old(program)@.len() + 10000 <= usize::MAX,
    ensures
        mpath_parse(op@, step, old(program)@, final(program)@, r),
{
    let n = match read_param(op, step) {
        Ok(n) => n,
        Err(e) => return Err(e),
    };
    if n < 2 || n > 256 {
        return Err(invalid_range(op, step, n, "2 and 256"));
    }

    // read the first node in the Merkle path and push it onto the stack; also pad the stack to
    // prepare it for hashing
    let head = [opcodes::READ2, opcodes::DUP4, opcodes::PAD2];
    assert(head@ =~= seq![opcodes::READ2, opcodes::DUP4, opcodes::PAD2]);
    push_ops(program, head.as_slice());

    // pad with NOOPs to make sure hashing starts on a step which is a multiple of 16
    let m = 16 - (program.len() % 16);
    push_repeated(program, opcodes::NOOP, m);

    // repeat the cycle of operations once for each remaining node
    let cycle = [
        opcodes::RESCR, opcodes::RESCR, opcodes::RESCR, opcodes::RESCR,
        opcodes::RESCR, opcodes::RESCR, opcodes::RESCR, opcodes::RESCR,
        opcodes::RESCR, opcodes::RESCR, opcodes::DROP4, opcodes::READ2,
        opcodes::SWAP2, opcodes::SWAP4, opcodes::SWAP2, opcodes::PAD2,
        opcodes::RESCR, opcodes::RESCR, opcodes::RESCR, opcodes::RESCR,
        opcodes::RESCR, opcodes::RESCR, opcodes::RESCR, opcodes::RESCR,
        opcodes::RESCR, opcodes::RESCR, opcodes::DROP4, opcodes::CHOOSE2,
        opcodes::READ2, opcodes::DUP4, opcodes::PAD2, opcodes::NOOP,
    ];
    assert(cycle@ =~= mpath_cycle());
    let ghost base = program@;
    assert(program@ =~= base + mpath_cycles(0));
    let mut k: u32 = 0;
    while k < n - 2
        invariant
            k <= n - 2,
            n <= 256,
            cycle@ == mpath_cycle(),
            program@ == base + mpath_cycles(k as nat),
        decreases n - 2 - k,
    {
        let ghost before = program@;
        push_ops(program, cycle.as_slice());
        assert(mpath_cycles((k + 1) as nat) =~= mpath_cycles(k as nat) + ops128(mpath_cycle())) by {
            assert forall|i: int| 0 <= i < (k + 1) * 32 implies #[trigger] mpath_cycles((k + 1) as nat)[i] == (mpath_cycles(k as nat) + ops128(mpath_cycle()))[i] by {
                if i >= k * 32 {
                    assert(i % 32 == i - k * 32);
                }
            }
        }
        k = k + 1;
    }

    // at the end, use the same cycle except for the last 4 operations since there is no need to
    // read in any additional nodes
    let last = [
        opcodes::RESCR, opcodes::RESCR, opcodes::RESCR, opcodes::RESCR,
        opcodes::RESCR, opcodes::RESCR, opcodes::RESCR, opcodes::RESCR,
        opcodes::RESCR, opcodes::RESCR, opcodes::DROP4, opcodes::READ2,
        opcodes::SWAP2, opcodes::SWAP4, opcodes::SWAP2, opcodes::PAD2,
        opcodes::RESCR, opcodes::RESCR, opcodes::RESCR, opcodes::RESCR,
        opcodes::RESCR, opcodes::RESCR, opcodes::RESCR, opcodes::RESCR,
        opcodes::RESCR, opcodes::RESCR, opcodes::DROP4, opcodes::CHOOSE2,
    ];
    assert(last@ =~= mpath_cycle().take(28));
    push_ops(program, last.as_slice());
    assert(program@ =~= old(program)@ + ops128(seq![opcodes::READ2, opcodes::DUP4, opcodes::PAD2])
        + repeat_op(opcodes::NOOP, pad_length(old(program)@.len() + 3))
        + mpath_cycles((n - 2) as nat) + ops128(mpath_cycle().take(28)));
    Ok(true)
}

} // verus!
