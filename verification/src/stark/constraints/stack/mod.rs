use vstd::prelude::*;
use crate::math::field::{ f_add, f_sub, f_mul, f_exp, ZERO };
use crate::math::polynom::{ poly_eval, eval };
use crate::opcodes;
use crate::utils::hasher::{ ARK as HASH_ARK, STATE_WIDTH as HASH_STATE_WIDTH };
use crate::stark::trace::TraceState;
use crate::stark::trace::trace_state::user_op_flag;
use crate::stark::constraints::utils::{
    agg_at, agg_eq_range, spec_are_equal, spec_is_binary, spec_binary_not, eval_len,
    enforce_stack_copy, extend_constants,
};

pub mod utils;
pub mod input;
pub mod manipulation;
pub mod arithmetic;
pub mod boolean;
pub mod comparison;
pub mod conditional;
pub mod flow_ops;
pub mod hash;
pub mod hashing;
pub mod properties;

use input::{ enforce_push, enforce_read, enforce_read2 };
use arithmetic::{ enforce_add, enforce_mul, enforce_inv, enforce_neg };
use boolean::{ enforce_not, enforce_and, enforce_or };
use manipulation::{
    enforce_dup, enforce_dup2, enforce_dup4, enforce_pad2, enforce_drop, enforce_drop4,
    enforce_swap, enforce_swap2, enforce_swap4, enforce_roll4, enforce_roll8, agg_perm,
};
use comparison::{
    enforce_assert, enforce_asserteq, enforce_eq, enforce_cmp, enforce_binacc, agg_values,
    comparison_constraints, binacc_constraints,
};
use conditional::{ enforce_choose, enforce_choose2, enforce_cswap2, select, left_shift };
use hash::{ enforce_rescr, rescr_constraints };

verus! {

// CONSTANTS
// ================================================================================================

/// Number of auxiliary constraints of the stack.
pub const NUM_AUX_CONSTRAINTS: usize = 2usize;

/// Degrees of the auxiliary constraints.
pub const AUX_CONSTRAINT_DEGREES: [usize; 2] = [7, 7];

/// Degree of all stack register transition constraints.
pub const STACK_TRANSITION_DEGREE: usize = 7usize;

/// Number of steps in one cycle of the hash function's round constants.
pub const BASE_CYCLE_LENGTH: usize = 16usize;

// SPECIFICATIONS
// ================================================================================================

/// The constraints of the assertion and input operations, each guarded by the flag of its operation, aggregated into
/// the stack evaluations `e` and the auxiliary evaluations `a`.
#[verifier::opaque]
pub open spec fn assertion_input_constraints(e: Seq<u128>, a: Seq<u128>, s: Seq<u128>, n: Seq<u128>, ark: Seq<u128>, ld: Seq<u128>, hd: Seq<u128>) -> (Seq<u128>, Seq<u128>) {
    let e0 = agg_eq_range(e, 0, e.len() - 1, n, 0, s, 1, user_op_flag(ld, hd, opcodes::ASSERT));
    let a0 = agg_at(a, 0, user_op_flag(ld, hd, opcodes::ASSERT), spec_are_equal(1, s[0]));
    let e1 = agg_eq_range(e0, 0, e0.len() - 2, n, 0, s, 2, user_op_flag(ld, hd, opcodes::ASSERTEQ));
    let a1 = agg_at(a0, 0, user_op_flag(ld, hd, opcodes::ASSERTEQ), spec_are_equal(s[0], s[1]));
    let e2 = agg_eq_range(e1, 1, e1.len() as int, n, 1, s, 0, user_op_flag(ld, hd, opcodes::READ));
    let e3 = agg_eq_range(e2, 2, e2.len() as int, n, 2, s, 0, user_op_flag(ld, hd, opcodes::READ2));
    (e3, a1)
}

/// The constraints of the duplication and padding operations, each guarded by the flag of its operation, aggregated into
/// the stack evaluations `e` and the auxiliary evaluations `a`.
#[verifier::opaque]
pub open spec fn duplication_constraints(e: Seq<u128>, a: Seq<u128>, s: Seq<u128>, n: Seq<u128>, ark: Seq<u128>, ld: Seq<u128>, hd: Seq<u128>) -> (Seq<u128>, Seq<u128>) {
    let e0 = agg_eq_range(agg_perm(e, n, s, seq![0int], user_op_flag(ld, hd, opcodes::DUP)), 1, e.len() as int, n, 1, s, 0, user_op_flag(ld, hd, opcodes::DUP));
    let e1 = agg_eq_range(agg_perm(e0, n, s, seq![0int, 1], user_op_flag(ld, hd, opcodes::DUP2)), 2, e0.len() as int, n, 2, s, 0, user_op_flag(ld, hd, opcodes::DUP2));
    let e2 = agg_eq_range(agg_perm(e1, n, s, seq![0int, 1, 2, 3], user_op_flag(ld, hd, opcodes::DUP4)), 4, e1.len() as int, n, 4, s, 0, user_op_flag(ld, hd, opcodes::DUP4));
    let e3 = agg_eq_range(agg_at(agg_at(e2, 0, user_op_flag(ld, hd, opcodes::PAD2), n[0]), 1, user_op_flag(ld, hd, opcodes::PAD2), n[1]), 2, e2.len() as int, n, 2, s, 0, user_op_flag(ld, hd, opcodes::PAD2));
    (e3, a)
}

/// The constraints of the drop and swap operations, each guarded by the flag of its operation, aggregated into
/// the stack evaluations `e` and the auxiliary evaluations `a`.
#[verifier::opaque]
pub open spec fn drop_swap_constraints(e: Seq<u128>, a: Seq<u128>, s: Seq<u128>, n: Seq<u128>, ark: Seq<u128>, ld: Seq<u128>, hd: Seq<u128>) -> (Seq<u128>, Seq<u128>) {
    let e0 = agg_eq_range(e, 0, e.len() - 1, n, 0, s, 1, user_op_flag(ld, hd, opcodes::DROP));
    let e1 = agg_eq_range(e0, 0, e0.len() - 4, n, 0, s, 4, user_op_flag(ld, hd, opcodes::DROP4));
    let e2 = agg_eq_range(agg_at(agg_at(e1, 0, user_op_flag(ld, hd, opcodes::SWAP), spec_are_equal(n[0], s[1])), 1, user_op_flag(ld, hd, opcodes::SWAP), spec_are_equal(n[1], s[0])), 2, e1.len() as int, n, 2, s, 2, user_op_flag(ld, hd, opcodes::SWAP));
    let e3 = agg_eq_range(agg_perm(e2, n, s, seq![2int, 3, 0, 1], user_op_flag(ld, hd, opcodes::SWAP2)), 4, e2.len() as int, n, 4, s, 4, user_op_flag(ld, hd, opcodes::SWAP2));
    (e3, a)
}

/// The constraints of the SWAP4 and rotation operations, each guarded by the flag of its operation, aggregated into
/// the stack evaluations `e` and the auxiliary evaluations `a`.
#[verifier::opaque]
pub open spec fn rotation_constraints(e: Seq<u128>, a: Seq<u128>, s: Seq<u128>, n: Seq<u128>, ark: Seq<u128>, ld: Seq<u128>, hd: Seq<u128>) -> (Seq<u128>, Seq<u128>) {
    let e0 = agg_eq_range(agg_perm(e, n, s, seq![4int, 5, 6, 7, 0, 1, 2, 3], user_op_flag(ld, hd, opcodes::SWAP4)), 8, e.len() as int, n, 8, s, 8, user_op_flag(ld, hd, opcodes::SWAP4));
    let e1 = agg_eq_range(agg_perm(e0, n, s, seq![3int, 0, 1, 2], user_op_flag(ld, hd, opcodes::ROLL4)), 4, e0.len() as int, n, 4, s, 4, user_op_flag(ld, hd, opcodes::ROLL4));
    let e2 = agg_eq_range(agg_perm(e1, n, s, seq![7int, 0, 1, 2, 3, 4, 5, 6], user_op_flag(ld, hd, opcodes::ROLL8)), 8, e1.len() as int, n, 8, s, 8, user_op_flag(ld, hd, opcodes::ROLL8));
    (e2, a)
}

/// The constraints of the arithmetic operations, each guarded by the flag of its operation, aggregated into
/// the stack evaluations `e` and the auxiliary evaluations `a`.
#[verifier::opaque]
pub open spec fn arithmetic_constraints(e: Seq<u128>, a: Seq<u128>, s: Seq<u128>, n: Seq<u128>, ark: Seq<u128>, ld: Seq<u128>, hd: Seq<u128>) -> (Seq<u128>, Seq<u128>) {
    let e0 = agg_eq_range(agg_at(e, 0, user_op_flag(ld, hd, opcodes::ADD), spec_are_equal(n[0], f_add(s[0] as int, s[1] as int) as u128)), 1, e.len() - 1, n, 1, s, 2, user_op_flag(ld, hd, opcodes::ADD));
    let e1 = agg_eq_range(agg_at(e0, 0, user_op_flag(ld, hd, opcodes::MUL), spec_are_equal(n[0], f_mul(s[0] as int, s[1] as int) as u128)), 1, e0.len() - 1, n, 1, s, 2, user_op_flag(ld, hd, opcodes::MUL));
    let e2 = agg_eq_range(agg_at(e1, 0, user_op_flag(ld, hd, opcodes::INV), spec_are_equal(1, f_mul(n[0] as int, s[0] as int) as u128)), 1, e1.len() as int, n, 1, s, 1, user_op_flag(ld, hd, opcodes::INV));
    let e3 = agg_eq_range(agg_at(e2, 0, user_op_flag(ld, hd, opcodes::NEG), f_add(n[0] as int, s[0] as int) as u128), 1, e2.len() as int, n, 1, s, 1, user_op_flag(ld, hd, opcodes::NEG));
    (e3, a)
}

/// The constraints of the boolean operations, each guarded by the flag of its operation, aggregated into
/// the stack evaluations `e` and the auxiliary evaluations `a`.
#[verifier::opaque]
pub open spec fn boolean_constraints(e: Seq<u128>, a: Seq<u128>, s: Seq<u128>, n: Seq<u128>, ark: Seq<u128>, ld: Seq<u128>, hd: Seq<u128>) -> (Seq<u128>, Seq<u128>) {
    let e0 = agg_eq_range(agg_at(e, 0, user_op_flag(ld, hd, opcodes::NOT), spec_are_equal(n[0], spec_binary_not(s[0]))), 1, e.len() as int, n, 1, s, 1, user_op_flag(ld, hd, opcodes::NOT));
    let a0 = agg_at(a, 0, user_op_flag(ld, hd, opcodes::NOT), spec_is_binary(s[0]));
    let e1 = agg_eq_range(agg_at(e0, 0, user_op_flag(ld, hd, opcodes::AND), spec_are_equal(n[0], f_mul(s[0] as int, s[1] as int) as u128)), 1, e0.len() - 1, n, 1, s, 2, user_op_flag(ld, hd, opcodes::AND));
    let a1 = agg_at(agg_at(a0, 0, user_op_flag(ld, hd, opcodes::AND), spec_is_binary(s[0])), 1, user_op_flag(ld, hd, opcodes::AND), spec_is_binary(s[1]));
    let e2 = agg_eq_range(agg_at(e1, 0, user_op_flag(ld, hd, opcodes::OR), spec_are_equal(n[0], spec_binary_not(f_mul(spec_binary_not(s[0]) as int, spec_binary_not(s[1]) as int) as u128))), 1, e1.len() - 1, n, 1, s, 2, user_op_flag(ld, hd, opcodes::OR));
    let a2 = agg_at(agg_at(a1, 0, user_op_flag(ld, hd, opcodes::OR), spec_is_binary(s[0])), 1, user_op_flag(ld, hd, opcodes::OR), spec_is_binary(s[1]));
    (e2, a2)
}

/// The constraints of the EQ and BINACC operations, each guarded by the flag of its operation, aggregated into
/// the stack evaluations `e` and the auxiliary evaluations `a`.
#[verifier::opaque]
pub open spec fn equality_constraints(e: Seq<u128>, a: Seq<u128>, s: Seq<u128>, n: Seq<u128>, ark: Seq<u128>, ld: Seq<u128>, hd: Seq<u128>) -> (Seq<u128>, Seq<u128>) {
    let e0 = agg_eq_range(agg_at(e, 0, user_op_flag(ld, hd, opcodes::EQ), spec_are_equal(n[0], spec_binary_not(f_mul(f_sub(s[1] as int, s[2] as int), s[0] as int) as u128))), 1, e.len() - 2, n, 1, s, 3, user_op_flag(ld, hd, opcodes::EQ));
    let a0 = agg_at(a, 0, user_op_flag(ld, hd, opcodes::EQ), f_mul(n[0] as int, f_sub(s[1] as int, s[2] as int)) as u128);
    let e1 = agg_eq_range(agg_values(e0, binacc_constraints(s, n), user_op_flag(ld, hd, opcodes::BINACC)), 3, e0.len() as int, s, 3, n, 3, user_op_flag(ld, hd, opcodes::BINACC));
    (e1, a0)
}

/// The constraints of the conditional selection operations, each guarded by the flag of its operation, aggregated into
/// the stack evaluations `e` and the auxiliary evaluations `a`.
#[verifier::opaque]
pub open spec fn selection_constraints(e: Seq<u128>, a: Seq<u128>, s: Seq<u128>, n: Seq<u128>, ark: Seq<u128>, ld: Seq<u128>, hd: Seq<u128>) -> (Seq<u128>, Seq<u128>) {
    let e0 = left_shift(agg_at(e, 0, user_op_flag(ld, hd, opcodes::CHOOSE), spec_are_equal(n[0], select(s[2], s[0], s[1]))), s, n, 3, 2, user_op_flag(ld, hd, opcodes::CHOOSE));
    let a0 = agg_at(a, 0, user_op_flag(ld, hd, opcodes::CHOOSE), spec_is_binary(s[2]));
    let e1 = left_shift(agg_at(agg_at(e0, 0, user_op_flag(ld, hd, opcodes::CHOOSE2), spec_are_equal(n[0], select(s[4], s[0], s[2]))), 1, user_op_flag(ld, hd, opcodes::CHOOSE2), spec_are_equal(n[1], select(s[4], s[1], s[3]))), s, n, 6, 4, user_op_flag(ld, hd, opcodes::CHOOSE2));
    let a1 = agg_at(a0, 0, user_op_flag(ld, hd, opcodes::CHOOSE2), spec_is_binary(s[4]));
    let e2 = left_shift(agg_at(agg_at(agg_at(agg_at(e1, 0, user_op_flag(ld, hd, opcodes::CSWAP2), spec_are_equal(n[0], select(s[4], s[2], s[0]))), 1, user_op_flag(ld, hd, opcodes::CSWAP2), spec_are_equal(n[1], select(s[4], s[3], s[1]))), 2, user_op_flag(ld, hd, opcodes::CSWAP2), spec_are_equal(n[2], select(s[4], s[0], s[2]))), 3, user_op_flag(ld, hd, opcodes::CSWAP2), spec_are_equal(n[3], select(s[4], s[1], s[3]))), s, n, 6, 2, user_op_flag(ld, hd, opcodes::CSWAP2));
    let a2 = agg_at(a1, 0, user_op_flag(ld, hd, opcodes::CSWAP2), spec_is_binary(s[4]));
    (e2, a2)
}

/// The constraints of the PUSH, CMP and RESCR operations, each guarded by the flag of its operation, aggregated into
/// the stack evaluations `e` and the auxiliary evaluations `a`.
#[verifier::opaque]
pub open spec fn high_degree_constraints(e: Seq<u128>, a: Seq<u128>, s: Seq<u128>, n: Seq<u128>, ark: Seq<u128>, ld: Seq<u128>, hd: Seq<u128>) -> (Seq<u128>, Seq<u128>) {
    let e0 = agg_eq_range(e, 1, e.len() as int, n, 1, s, 0, user_op_flag(ld, hd, opcodes::PUSH));
    let e1 = agg_eq_range(agg_values(e0, comparison_constraints(s, n), user_op_flag(ld, hd, opcodes::CMP)), 8, eval_len(e0), s, 8, n, 8, user_op_flag(ld, hd, opcodes::CMP));
    let e2 = agg_eq_range(agg_values(e1, rescr_constraints(s, n, ark), user_op_flag(ld, hd, opcodes::RESCR)), HASH_STATE_WIDTH as int, e1.len() as int, n, HASH_STATE_WIDTH as int, s, HASH_STATE_WIDTH as int, user_op_flag(ld, hd, opcodes::RESCR));
    (e2, a)
}

/// The constraints of the BEGIN and NOOP operations, whose flags are products of all seven op bits, each guarded by the flag of its operation, aggregated into
/// the stack evaluations `e` and the auxiliary evaluations `a`.
#[verifier::opaque]
pub open spec fn composite_constraints(e: Seq<u128>, a: Seq<u128>, s: Seq<u128>, n: Seq<u128>, ark: Seq<u128>, ld: Seq<u128>, hd: Seq<u128>) -> (Seq<u128>, Seq<u128>) {
    let e0 = agg_eq_range(e, 0, e.len() as int, s, 0, n, 0, user_op_flag(ld, hd, opcodes::BEGIN));
    let e1 = agg_eq_range(e0, 0, e0.len() as int, s, 0, n, 0, user_op_flag(ld, hd, opcodes::NOOP));
    (e1, a)
}

/// Aggregates the constraints of `assertion_input_constraints`.
fn enforce_assertion_input(ev: &mut [u128], aux: &mut [u128], old_stack: &[u128], new_stack: &[u128], ark_s: &[u128], current: &TraceState)
    requires
        old(ev)@.len() == old_stack@.len(),
        new_stack@.len() == old_stack@.len(),
        old_stack@.len() >= 8,
        old(aux)@.len() == NUM_AUX_CONSTRAINTS,
        ark_s@.len() >= 2 * HASH_STATE_WIDTH,
    ensures
        final(ev)@.len() == old(ev)@.len(),
        final(aux)@.len() == old(aux)@.len(),
        (final(ev)@, final(aux)@) == assertion_input_constraints(old(ev)@, old(aux)@, old_stack@, new_stack@, ark_s@, current.ld_op_bits@, current.hd_op_bits@),
{
    reveal(assertion_input_constraints);
    enforce_assert(ev, aux, old_stack, new_stack, current.get_user_op_flag(opcodes::ASSERT));
    enforce_asserteq(ev, aux, old_stack, new_stack, current.get_user_op_flag(opcodes::ASSERTEQ));
    enforce_read(ev, old_stack, new_stack, current.get_user_op_flag(opcodes::READ));
    enforce_read2(ev, old_stack, new_stack, current.get_user_op_flag(opcodes::READ2));
}

/// Aggregates the constraints of `duplication_constraints`.
fn enforce_duplication(ev: &mut [u128], aux: &mut [u128], old_stack: &[u128], new_stack: &[u128], ark_s: &[u128], current: &TraceState)
    requires
        old(ev)@.len() == old_stack@.len(),
        new_stack@.len() == old_stack@.len(),
        old_stack@.len() >= 8,
        old(aux)@.len() == NUM_AUX_CONSTRAINTS,
        ark_s@.len() >= 2 * HASH_STATE_WIDTH,
    ensures
        final(ev)@.len() == old(ev)@.len(),
        final(aux)@.len() == old(aux)@.len(),
        (final(ev)@, final(aux)@) == duplication_constraints(old(ev)@, old(aux)@, old_stack@, new_stack@, ark_s@, current.ld_op_bits@, current.hd_op_bits@),
{
    reveal(duplication_constraints);
    enforce_dup(ev, old_stack, new_stack, current.get_user_op_flag(opcodes::DUP));
    enforce_dup2(ev, old_stack, new_stack, current.get_user_op_flag(opcodes::DUP2));
    enforce_dup4(ev, old_stack, new_stack, current.get_user_op_flag(opcodes::DUP4));
    enforce_pad2(ev, old_stack, new_stack, current.get_user_op_flag(opcodes::PAD2));
}

/// Aggregates the constraints of `drop_swap_constraints`.
fn enforce_drop_swap(ev: &mut [u128], aux: &mut [u128], old_stack: &[u128], new_stack: &[u128], ark_s: &[u128], current: &TraceState)
    requires
        old(ev)@.len() == old_stack@.len(),
        new_stack@.len() == old_stack@.len(),
        old_stack@.len() >= 8,
        old(aux)@.len() == NUM_AUX_CONSTRAINTS,
        ark_s@.len() >= 2 * HASH_STATE_WIDTH,
    ensures
        final(ev)@.len() == old(ev)@.len(),
        final(aux)@.len() == old(aux)@.len(),
        (final(ev)@, final(aux)@) == drop_swap_constraints(old(ev)@, old(aux)@, old_stack@, new_stack@, ark_s@, current.ld_op_bits@, current.hd_op_bits@),
{
    reveal(drop_swap_constraints);
    enforce_drop(ev, old_stack, new_stack, current.get_user_op_flag(opcodes::DROP));
    enforce_drop4(ev, old_stack, new_stack, current.get_user_op_flag(opcodes::DROP4));
    enforce_swap(ev, old_stack, new_stack, current.get_user_op_flag(opcodes::SWAP));
    enforce_swap2(ev, old_stack, new_stack, current.get_user_op_flag(opcodes::SWAP2));
}

/// Aggregates the constraints of `rotation_constraints`.
fn enforce_rotation(ev: &mut [u128], aux: &mut [u128], old_stack: &[u128], new_stack: &[u128], ark_s: &[u128], current: &TraceState)
    requires
        old(ev)@.len() == old_stack@.len(),
        new_stack@.len() == old_stack@.len(),
        old_stack@.len() >= 8,
        old(aux)@.len() == NUM_AUX_CONSTRAINTS,
        ark_s@.len() >= 2 * HASH_STATE_WIDTH,
    ensures
        final(ev)@.len() == old(ev)@.len(),
        final(aux)@.len() == old(aux)@.len(),
        (final(ev)@, final(aux)@) == rotation_constraints(old(ev)@, old(aux)@, old_stack@, new_stack@, ark_s@, current.ld_op_bits@, current.hd_op_bits@),
{
    reveal(rotation_constraints);
    enforce_swap4(ev, old_stack, new_stack, current.get_user_op_flag(opcodes::SWAP4));
    enforce_roll4(ev, old_stack, new_stack, current.get_user_op_flag(opcodes::ROLL4));
    enforce_roll8(ev, old_stack, new_stack, current.get_user_op_flag(opcodes::ROLL8));
}

/// Aggregates the constraints of `arithmetic_constraints`.
fn enforce_arithmetic(ev: &mut [u128], aux: &mut [u128], old_stack: &[u128], new_stack: &[u128], ark_s: &[u128], current: &TraceState)
    requires
        old(ev)@.len() == old_stack@.len(),
        new_stack@.len() == old_stack@.len(),
        old_stack@.len() >= 8,
        old(aux)@.len() == NUM_AUX_CONSTRAINTS,
        ark_s@.len() >= 2 * HASH_STATE_WIDTH,
    ensures
        final(ev)@.len() == old(ev)@.len(),
        final(aux)@.len() == old(aux)@.len(),
        (final(ev)@, final(aux)@) == arithmetic_constraints(old(ev)@, old(aux)@, old_stack@, new_stack@, ark_s@, current.ld_op_bits@, current.hd_op_bits@),
{
    reveal(arithmetic_constraints);
    enforce_add(ev, old_stack, new_stack, current.get_user_op_flag(opcodes::ADD));
    enforce_mul(ev, old_stack, new_stack, current.get_user_op_flag(opcodes::MUL));
    enforce_inv(ev, old_stack, new_stack, current.get_user_op_flag(opcodes::INV));
    enforce_neg(ev, old_stack, new_stack, current.get_user_op_flag(opcodes::NEG));
}

/// Aggregates the constraints of `boolean_constraints`.
fn enforce_boolean(ev: &mut [u128], aux: &mut [u128], old_stack: &[u128], new_stack: &[u128], ark_s: &[u128], current: &TraceState)
    requires
        old(ev)@.len() == old_stack@.len(),
        new_stack@.len() == old_stack@.len(),
        old_stack@.len() >= 8,
        old(aux)@.len() == NUM_AUX_CONSTRAINTS,
        ark_s@.len() >= 2 * HASH_STATE_WIDTH,
    ensures
        final(ev)@.len() == old(ev)@.len(),
        final(aux)@.len() == old(aux)@.len(),
        (final(ev)@, final(aux)@) == boolean_constraints(old(ev)@, old(aux)@, old_stack@, new_stack@, ark_s@, current.ld_op_bits@, current.hd_op_bits@),
{
    reveal(boolean_constraints);
    enforce_not(ev, aux, old_stack, new_stack, current.get_user_op_flag(opcodes::NOT));
    enforce_and(ev, aux, old_stack, new_stack, current.get_user_op_flag(opcodes::AND));
    enforce_or(ev, aux, old_stack, new_stack, current.get_user_op_flag(opcodes::OR));
}

/// Aggregates the constraints of `equality_constraints`.
fn enforce_equality(ev: &mut [u128], aux: &mut [u128], old_stack: &[u128], new_stack: &[u128], ark_s: &[u128], current: &TraceState)
    requires
        old(ev)@.len() == old_stack@.len(),
        new_stack@.len() == old_stack@.len(),
        old_stack@.len() >= 8,
        old(aux)@.len() == NUM_AUX_CONSTRAINTS,
        ark_s@.len() >= 2 * HASH_STATE_WIDTH,
    ensures
        final(ev)@.len() == old(ev)@.len(),
        final(aux)@.len() == old(aux)@.len(),
        (final(ev)@, final(aux)@) == equality_constraints(old(ev)@, old(aux)@, old_stack@, new_stack@, ark_s@, current.ld_op_bits@, current.hd_op_bits@),
{
    reveal(equality_constraints);
    enforce_eq(ev, aux, old_stack, new_stack, current.get_user_op_flag(opcodes::EQ));
    enforce_binacc(ev, old_stack, new_stack, current.get_user_op_flag(opcodes::BINACC));
}

/// Aggregates the constraints of `selection_constraints`.
fn enforce_selection(ev: &mut [u128], aux: &mut [u128], old_stack: &[u128], new_stack: &[u128], ark_s: &[u128], current: &TraceState)
    requires
        old(ev)@.len() == old_stack@.len(),
        new_stack@.len() == old_stack@.len(),
        old_stack@.len() >= 8,
        old(aux)@.len() == NUM_AUX_CONSTRAINTS,
        ark_s@.len() >= 2 * HASH_STATE_WIDTH,
    ensures
        final(ev)@.len() == old(ev)@.len(),
        final(aux)@.len() == old(aux)@.len(),
        (final(ev)@, final(aux)@) == selection_constraints(old(ev)@, old(aux)@, old_stack@, new_stack@, ark_s@, current.ld_op_bits@, current.hd_op_bits@),
{
    reveal(selection_constraints);
    enforce_choose(ev, aux, old_stack, new_stack, current.get_user_op_flag(opcodes::CHOOSE));
    enforce_choose2(ev, aux, old_stack, new_stack, current.get_user_op_flag(opcodes::CHOOSE2));
    enforce_cswap2(ev, aux, old_stack, new_stack, current.get_user_op_flag(opcodes::CSWAP2));
}

/// Aggregates the constraints of `high_degree_constraints`.
fn enforce_high_degree(ev: &mut [u128], aux: &mut [u128], old_stack: &[u128], new_stack: &[u128], ark_s: &[u128], current: &TraceState)
    requires
        old(ev)@.len() == old_stack@.len(),
        new_stack@.len() == old_stack@.len(),
        old_stack@.len() >= 8,
        old(aux)@.len() == NUM_AUX_CONSTRAINTS,
        ark_s@.len() >= 2 * HASH_STATE_WIDTH,
    ensures
        final(ev)@.len() == old(ev)@.len(),
        final(aux)@.len() == old(aux)@.len(),
        (final(ev)@, final(aux)@) == high_degree_constraints(old(ev)@, old(aux)@, old_stack@, new_stack@, ark_s@, current.ld_op_bits@, current.hd_op_bits@),
{
    reveal(high_degree_constraints);
    enforce_push(ev, old_stack, new_stack, current.get_user_op_flag(opcodes::PUSH));
    enforce_cmp(ev, old_stack, new_stack, current.get_user_op_flag(opcodes::CMP));
    enforce_rescr(ev, old_stack, new_stack, ark_s, current.get_user_op_flag(opcodes::RESCR));
}

/// Aggregates the constraints of `composite_constraints`.
fn enforce_composite(ev: &mut [u128], aux: &mut [u128], old_stack: &[u128], new_stack: &[u128], ark_s: &[u128], current: &TraceState)
    requires
        old(ev)@.len() == old_stack@.len(),
        new_stack@.len() == old_stack@.len(),
        old_stack@.len() >= 8,
        old(aux)@.len() == NUM_AUX_CONSTRAINTS,
        ark_s@.len() >= 2 * HASH_STATE_WIDTH,
    ensures
        final(ev)@.len() == old(ev)@.len(),
        final(aux)@.len() == old(aux)@.len(),
        (final(ev)@, final(aux)@) == composite_constraints(old(ev)@, old(aux)@, old_stack@, new_stack@, ark_s@, current.ld_op_bits@, current.hd_op_bits@),
{
    reveal(composite_constraints);
    enforce_stack_copy(ev, old_stack, new_stack, 0, current.get_user_op_flag(opcodes::BEGIN));
    enforce_stack_copy(ev, old_stack, new_stack, 0, current.get_user_op_flag(opcodes::NOOP));
}

/// The evaluations of all stack constraints for the transition from `current` to `next` with
/// round constants `ark`, written into `r`: its first `NUM_AUX_CONSTRAINTS` values get the
/// auxiliary constraints aggregated into them, and the other values are replaced by the
/// evaluations of the stack registers.
pub open spec fn stack_constraints(r: Seq<u128>, current: &TraceState, next: &TraceState, ark: Seq<u128>) -> Seq<u128> {
    let s = current.user_stack@;
    let n = next.user_stack@;
    let ld = current.ld_op_bits@;
    let hd = current.hd_op_bits@;
    let g0 = (Seq::new(s.len(), |i: int| 0u128), r.subrange(0, NUM_AUX_CONSTRAINTS as int));
    let g1 = assertion_input_constraints(g0.0, g0.1, s, n, ark, ld, hd);
    let g2 = duplication_constraints(g1.0, g1.1, s, n, ark, ld, hd);
    let g3 = drop_swap_constraints(g2.0, g2.1, s, n, ark, ld, hd);
    let g4 = rotation_constraints(g3.0, g3.1, s, n, ark, ld, hd);
    let g5 = arithmetic_constraints(g4.0, g4.1, s, n, ark, ld, hd);
    let g6 = boolean_constraints(g5.0, g5.1, s, n, ark, ld, hd);
    let g7 = equality_constraints(g6.0, g6.1, s, n, ark, ld, hd);
    let g8 = selection_constraints(g7.0, g7.1, s, n, ark, ld, hd);
    let g9 = high_degree_constraints(g8.0, g8.1, s, n, ark, ld, hd);
    let g10 = composite_constraints(g9.0, g9.1, s, n, ark, ld, hd);
    g10.1 + g10.0.subrange(0, r.len() - NUM_AUX_CONSTRAINTS)
}

/// Evaluates the stack's transition constraints from `current` to `next` with the round
/// constants `ark` into `result`.
pub fn enforce_constraints(current: &TraceState, next: &TraceState, ark: &[u128], result: &mut [u128])
    requires
        current.user_stack@.len() >= 8,
        next.user_stack@.len() == current.user_stack@.len(),
        ark@.len() >= 2 * HASH_STATE_WIDTH,
        NUM_AUX_CONSTRAINTS <= old(result)@.len() <= current.user_stack@.len() + NUM_AUX_CONSTRAINTS,
    ensures
        final(result)@ == stack_constraints(old(result)@, current, next, ark@),
{
    let ghost r0 = result@;

    // split constraint evaluation result into aux constraints and stack constraints
    let (aux, result) = result.split_at_mut(NUM_AUX_CONSTRAINTS);

    // get user stack registers from current and next steps
    let old_stack = current.user_stack();
    let new_stack = next.user_stack();

    // evaluate the constraints of each operation into a vector as deep as the stack
    let mut evaluations: Vec<u128> = vec![ZERO; old_stack.len()];
    assert(evaluations@ =~= Seq::new(old_stack@.len(), |i: int| 0u128));
    enforce_assertion_input(evaluations.as_mut_slice(), aux, old_stack, new_stack, ark, current);
    enforce_duplication(evaluations.as_mut_slice(), aux, old_stack, new_stack, ark, current);
    enforce_drop_swap(evaluations.as_mut_slice(), aux, old_stack, new_stack, ark, current);
    enforce_rotation(evaluations.as_mut_slice(), aux, old_stack, new_stack, ark, current);
    enforce_arithmetic(evaluations.as_mut_slice(), aux, old_stack, new_stack, ark, current);
    enforce_boolean(evaluations.as_mut_slice(), aux, old_stack, new_stack, ark, current);
    enforce_equality(evaluations.as_mut_slice(), aux, old_stack, new_stack, ark, current);
    enforce_selection(evaluations.as_mut_slice(), aux, old_stack, new_stack, ark, current);
    enforce_high_degree(evaluations.as_mut_slice(), aux, old_stack, new_stack, ark, current);
    enforce_composite(evaluations.as_mut_slice(), aux, old_stack, new_stack, ark, current);

    // copy evaluations into the result
    let ghost ev = evaluations@;
    let m = result.len();
    let mut i: usize = 0;
    while i < m
        invariant
            i <= m,
            m == result@.len(),
            m <= evaluations@.len(),
            forall|j: int| 0 <= j < i ==> result@[j] == evaluations@[j],
        decreases m - i,
    {
        result[i] = evaluations[i];
        i = i + 1;
    }
    assert(result@ =~= evaluations@.subrange(0, m as int));
}

// STACK CONSTRAINT EVALUATOR
// ================================================================================================

/// Evaluator of the stack's transition constraints, holding the round constants of the hash
/// function extended over the evaluation domain.
pub struct Stack {
    trace_length: usize,
    cycle_length: usize,
    ark_values: Vec<[u128; 12]>,
    ark_polys: Vec<Vec<u128>>,
    constraint_degrees: Vec<usize>,
}

impl Stack {
    /// The evaluator's invariant: one row of round constants per step of the extended cycle,
    /// and one polynomial per round constant.
    pub closed spec fn wf(&self) -> bool {
        &&& self.cycle_length > 0
        &&& self.ark_values@.len() == self.cycle_length
        &&& self.ark_polys@.len() == 2 * HASH_STATE_WIDTH
    }

    /// The round constants used at step `i` of the evaluation domain.
    pub closed spec fn ark_at(&self, i: int) -> Seq<u128> {
        self.ark_values@[i % (self.cycle_length as int)]@
    }

    /// The coefficients of the polynomial of the `j`-th round constant.
    pub closed spec fn ark_poly(&self, j: int) -> Seq<u128> {
        self.ark_polys@[j]@
    }

    /// The length of the execution trace.
    pub closed spec fn spec_trace_length(&self) -> nat {
        self.trace_length as nat
    }

    /// The degrees of the constraints, auxiliary constraints first.
    pub closed spec fn degrees(&self) -> Seq<usize> {
        self.constraint_degrees@
    }

    /// Builds the evaluator for a trace of `trace_length` steps, extended by `extension_factor`,
    /// with a user stack `stack_depth` registers deep.
    pub fn new(trace_length: usize, extension_factor: usize, stack_depth: usize) -> (r: Stack)
        requires
            exists|k: nat| k <= 36 && vstd::arithmetic::power2::pow2(k) == extension_factor,
            16 * extension_factor <= usize::MAX,
            stack_depth + NUM_AUX_CONSTRAINTS <= usize::MAX,
        ensures
            r.wf(),
            r.spec_trace_length() == trace_length,
            r.degrees() == AUX_CONSTRAINT_DEGREES@ + Seq::new(stack_depth as nat, |i: int| STACK_TRANSITION_DEGREE),
            forall|j: int| 0 <= j < 2 * HASH_STATE_WIDTH ==>
                #[trigger] r.ark_poly(j) == crate::math::polynom::inverse_dft(HASH_ARK@[j]@, crate::math::field::root_of_order(16), 16),
            forall|i: int, j: int| 0 <= i < 16 * extension_factor && 0 <= j < 2 * HASH_STATE_WIDTH ==>
                #[trigger] r.ark_at(i)[j] == poly_eval(r.ark_poly(j), f_exp(crate::math::field::root_of_order((16 * extension_factor) as nat), i as nat), 16),
    {
        // build an array of constraint degrees for the stack
        let mut degrees: Vec<usize> = Vec::new();
        degrees.push(AUX_CONSTRAINT_DEGREES[0]);
        degrees.push(AUX_CONSTRAINT_DEGREES[1]);
        assert(degrees@ =~= AUX_CONSTRAINT_DEGREES@ + Seq::new(0, |k: int| STACK_TRANSITION_DEGREE));
        let mut i: usize = 0;
        while i < stack_depth
            invariant
                i <= stack_depth,
                degrees@ == AUX_CONSTRAINT_DEGREES@ + Seq::new(i as nat, |k: int| STACK_TRANSITION_DEGREE),
            decreases stack_depth - i,
        {
            degrees.push(STACK_TRANSITION_DEGREE);
            i = i + 1;
            assert(degrees@ =~= AUX_CONSTRAINT_DEGREES@ + Seq::new(i as nat, |k: int| STACK_TRANSITION_DEGREE));
        }

        // determine extended cycle length
        let cycle_length = BASE_CYCLE_LENGTH * extension_factor;

        // extend rounds constants by the specified extension factor
        let (ark_polys, ark_evaluations) = extend_constants(HASH_ARK.as_slice(), extension_factor);
        let ghost evals = ark_evaluations@;
        let ark_values = transpose_ark_constants(ark_evaluations, cycle_length);
        let r = Stack { trace_length, cycle_length, ark_values, ark_polys, constraint_degrees: degrees };
        proof {
            assert(extension_factor >= 1) by {
                let k = choose|k: nat| k <= 36 && vstd::arithmetic::power2::pow2(k) == extension_factor;
                vstd::arithmetic::power2::lemma_pow2_pos(k);
            }
            assert forall|i: int, j: int| 0 <= i < 16 * extension_factor && 0 <= j < 2 * HASH_STATE_WIDTH implies
                #[trigger] r.ark_at(i)[j] == poly_eval(r.ark_poly(j), f_exp(crate::math::field::root_of_order((16 * extension_factor) as nat), i as nat), 16) by {
                vstd::arithmetic::div_mod::lemma_small_mod(i as nat, cycle_length as nat);
                assert(i % (cycle_length as int) == i);
                assert(r.ark_at(i)[j] == evals[j]@[i]);
            }
        }
        r
    }

    /// The degrees of the constraints, auxiliary constraints first.
    pub fn constraint_degrees(&self) -> (r: &[usize])
        ensures
            r@ == self.degrees(),
    {
        self.constraint_degrees.as_slice()
    }

    /// Evaluates the stack's transition constraints at step `step` of the evaluation domain into
    /// `result`.
    pub fn evaluate(&self, current: &TraceState, next: &TraceState, step: usize, result: &mut [u128])
        requires
            self.wf(),
            current.user_stack@.len() >= 8,
            next.user_stack@.len() == current.user_stack@.len(),
            NUM_AUX_CONSTRAINTS <= old(result)@.len() <= current.user_stack@.len() + NUM_AUX_CONSTRAINTS,
        ensures
            final(result)@ == stack_constraints(old(result)@, current, next, self.ark_at(step as int)),
    {
        // determine round constants at the specified step
        let ark = self.ark_values[step % self.cycle_length];

        // evaluate transition constraints for the stack
        enforce_constraints(current, next, &ark, result);
    }

    /// Evaluates the stack's transition constraints at the point `x`, which need not lie in the
    /// evaluation domain, into `result`; the round constants are interpolated at `x` raised to
    /// the number of constant cycles in the trace.
    pub fn evaluate_at(&self, current: &TraceState, next: &TraceState, x: u128, result: &mut [u128])
        requires
            self.wf(),
            current.user_stack@.len() >= 8,
            next.user_stack@.len() == current.user_stack@.len(),
            NUM_AUX_CONSTRAINTS <= old(result)@.len() <= current.user_stack@.len() + NUM_AUX_CONSTRAINTS,
        ensures
            final(result)@ == stack_constraints(old(result)@, current, next,
                Seq::new(12, |j: int| poly_eval(self.ark_poly(j), f_exp(x as int, (self.spec_trace_length() / 16) as nat) as int, self.ark_poly(j).len()) as u128)),
    {
        // map x to the corresponding coordinate in constant cycles
        let num_cycles = (self.trace_length / BASE_CYCLE_LENGTH) as u128;
        let y = crate::math::field::exp(x, num_cycles);

        // determine round constants at the specified x coordinate
        let mut ark = [ZERO; 12];
        let mut i: usize = 0;
        while i < 12
            invariant
                i <= 12,
                self.wf(),
                y == f_exp(x as int, (self.spec_trace_length() / 16) as nat),
                forall|j: int| 0 <= j < i ==> ark@[j] == poly_eval(self.ark_poly(j), y as int, self.ark_poly(j).len()),
            decreases 12 - i,
        {
            ark[i] = eval(self.ark_polys[i].as_slice(), y);
            i = i + 1;
        }
        assert(ark@ =~= Seq::new(12, |j: int| poly_eval(self.ark_poly(j), f_exp(x as int, (self.spec_trace_length() / 16) as nat) as int, self.ark_poly(j).len()) as u128));

        // evaluate transition constraints for the stack
        enforce_constraints(current, next, &ark, result);
    }
}

/// Transposes round constants given as `2 * HASH_STATE_WIDTH` rows of at least `cycle_length`
/// values into `cycle_length` rows of `2 * HASH_STATE_WIDTH` values.
pub(crate) fn transpose_ark_constants(constants: Vec<Vec<u128>>, cycle_length: usize) -> (r: Vec<[u128; 12]>)
    requires
        constants@.len() >= 2 * HASH_STATE_WIDTH,
        forall|j: int| 0 <= j < 2 * HASH_STATE_WIDTH ==> (#[trigger] constants@[j])@.len() >= cycle_length,
    ensures
        r@.len() == cycle_length,
        forall|i: int, j: int| 0 <= i < cycle_length && 0 <= j < 2 * HASH_STATE_WIDTH ==> (#[trigger] r@[i]@[j]) == constants@[j]@[i],
{
    let mut values: Vec<[u128; 12]> = Vec::new();
    let mut i: usize = 0;
    while i < cycle_length
        invariant
            i <= cycle_length,
            values@.len() == i,
            constants@.len() >= 2 * HASH_STATE_WIDTH,
            forall|j: int| 0 <= j < 2 * HASH_STATE_WIDTH ==> (#[trigger] constants@[j])@.len() >= cycle_length,
            forall|a: int, j: int| 0 <= a < i && 0 <= j < 2 * HASH_STATE_WIDTH ==> (#[trigger] values@[a]@[j]) == constants@[j]@[a],
        decreases cycle_length - i,
    {
        let mut row = [ZERO; 12];
        let mut j: usize = 0;
        while j < 2 * HASH_STATE_WIDTH
            invariant
                j <= 2 * HASH_STATE_WIDTH,
                i < cycle_length,
                constants@.len() >= 2 * HASH_STATE_WIDTH,
                forall|k: int| 0 <= k < 2 * HASH_STATE_WIDTH ==> (#[trigger] constants@[k])@.len() >= cycle_length,
                forall|k: int| 0 <= k < j ==> row@[k] == constants@[k]@[i as int],
            decreases 2 * HASH_STATE_WIDTH - j,
        {
            row[j] = constants[j][i];
            j = j + 1;
        }
        values.push(row);
        i = i + 1;
    }
    values
}

} // verus!
