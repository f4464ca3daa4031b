use vstd::prelude::*;
use crate::math::field::{ f_add, ZERO };
use crate::utils::hasher::{
    apply_sbox, apply_mds, apply_inv_mds, sub_constants, spec_mds, spec_inv_mds, spec_sub_constants,
    STATE_WIDTH as HASH_STATE_WIDTH,
};
use crate::utils::rescue::sbox;
use crate::stark::constraints::utils::{ are_equal, agg_eq_range, spec_are_equal, EvaluationResult };
use super::utils::enforce_no_change_range;
use super::manipulation::stack_lengths_ok;
use super::comparison::agg_values;

verus! {

/// Adds `ark[offset..offset + HASH_STATE_WIDTH]` to the first `HASH_STATE_WIDTH` values of `s`.
pub open spec fn add_ark(s: Seq<u128>, ark: Seq<u128>, offset: int) -> Seq<u128> {
    Seq::new(HASH_STATE_WIDTH as nat, |i: int| f_add(s[i] as int, ark[offset + i] as int) as u128)
}

/// Evaluations of the RESCR constraints on the hash state: the state after the first half of a
/// Rescue round applied to `current`, compared with the inverse of the second half applied
/// to `next`.
pub open spec fn rescr_constraints(current: Seq<u128>, next: Seq<u128>, ark: Seq<u128>) -> Seq<u128> {
    let old_state = spec_mds(sbox(add_ark(current, ark, 0)));
    let new_state = spec_sub_constants(sbox(spec_inv_mds(next.subrange(0, HASH_STATE_WIDTH as int))), ark, HASH_STATE_WIDTH as int);
    Seq::new(HASH_STATE_WIDTH as nat, |i: int| spec_are_equal(new_state[i], old_state[i]))
}

/// Evaluates constraints for a single round of a modified Rescue hash function. Hash state is
/// assumed to be in the first 6 registers of user stack; the rest of the stack does not change.
pub fn enforce_rescr(result: &mut [u128], current: &[u128], next: &[u128], ark: &[u128], op_flag: u128)
    requires
        stack_lengths_ok(old(result)@, current@, next@, HASH_STATE_WIDTH as int),
        ark@.len() >= 2 * HASH_STATE_WIDTH,
    ensures
        final(result)@ == agg_eq_range(agg_values(old(result)@, rescr_constraints(current@, next@, ark@), op_flag),
            HASH_STATE_WIDTH as int, old(result)@.len() as int, next@, HASH_STATE_WIDTH as int, current@, HASH_STATE_WIDTH as int, op_flag),
{
    let ghost r0 = result@;

    // evaluate the first half of Rescue round
    let mut old_state = [ZERO; HASH_STATE_WIDTH];
    let mut i: usize = 0;
    while i < HASH_STATE_WIDTH
        invariant
            i <= HASH_STATE_WIDTH,
            current@.len() >= HASH_STATE_WIDTH,
            ark@.len() >= 2 * HASH_STATE_WIDTH,
            forall|j: int| 0 <= j < i ==> old_state@[j] == add_ark(current@, ark@, 0)[j],
        decreases HASH_STATE_WIDTH - i,
    {
        old_state[i] = crate::math::field::add(current[i], ark[i]);
        i = i + 1;
    }
    assert(old_state@ =~= add_ark(current@, ark@, 0));
    apply_sbox(&mut old_state);
    apply_mds(&mut old_state);

    // evaluate inverse of the second half of Rescue round
    let mut new_state = [ZERO; HASH_STATE_WIDTH];
    let mut i: usize = 0;
    while i < HASH_STATE_WIDTH
        invariant
            i <= HASH_STATE_WIDTH,
            next@.len() >= HASH_STATE_WIDTH,
            forall|j: int| 0 <= j < i ==> new_state@[j] == next@[j],
        decreases HASH_STATE_WIDTH - i,
    {
        new_state[i] = next[i];
        i = i + 1;
    }
    assert(new_state@ =~= next@.subrange(0, HASH_STATE_WIDTH as int));
    apply_inv_mds(&mut new_state);
    apply_sbox(&mut new_state);
    sub_constants(&mut new_state, ark, HASH_STATE_WIDTH);

    // compare the results of both rounds
    let ghost expected = rescr_constraints(current@, next@, ark@);
    let mut i: usize = 0;
    while i < HASH_STATE_WIDTH
        invariant
            i <= HASH_STATE_WIDTH,
            result@.len() == r0.len(),
            r0.len() >= HASH_STATE_WIDTH,
            expected.len() == HASH_STATE_WIDTH,
            forall|j: int| 0 <= j < HASH_STATE_WIDTH ==> expected[j] == spec_are_equal(new_state@[j], old_state@[j]),
            forall|j: int| 0 <= j < r0.len() ==> result@[j] == (if j < i {
                crate::stark::constraints::utils::agg(r0[j], op_flag, expected[j])
            } else {
                r0[j]
            }),
        decreases HASH_STATE_WIDTH - i,
    {
        result.agg_constraint(i, op_flag, are_equal(new_state[i], old_state[i]));
        i = i + 1;
    }
    assert(result@ =~= agg_values(r0, expected, op_flag));

    // make sure the rest of the stack didn't change
    let n = result.len();
    enforce_no_change_range(result, HASH_STATE_WIDTH, n, current, HASH_STATE_WIDTH, next, HASH_STATE_WIDTH, op_flag);
}

} // verus!
