use vstd::prelude::*;
use crate::math::field::{ f_add, f_sub, f_mul, ONE };
use crate::stark::constraints::utils::{
    are_equal, is_binary, binary_not, agg_at, agg_eq_range, spec_are_equal, spec_is_binary,
    spec_binary_not, eval_len, EvaluationResult,
};
use super::utils::enforce_no_change_range;
use super::manipulation::stack_lengths_ok;

verus! {

// CONSTANTS
// ================================================================================================

const POW2_IDX      : usize = 0;
const X_BIT_IDX     : usize = 1;
const Y_BIT_IDX     : usize = 2;
const NOT_SET_IDX   : usize = 3;
const GT_IDX        : usize = 4;
const LT_IDX        : usize = 5;
const Y_ACC_IDX     : usize = 6;
const X_ACC_IDX     : usize = 7;

// ASSERTIONS
// ================================================================================================

/// Enforces constraints for ASSERT operation. The constraints are similar to DROP operation, but
/// have an auxiliary constraint which enforces that 1 - x = 0, where x is the top of the stack.
pub fn enforce_assert(result: &mut [u128], aux: &mut [u128], current: &[u128], next: &[u128], op_flag: u128)
    requires
        stack_lengths_ok(old(result)@, current@, next@, 1),
        old(aux)@.len() >= 1,
    ensures
        final(result)@ == agg_eq_range(old(result)@, 0, old(result)@.len() - 1, next@, 0, current@, 1, op_flag),
        final(aux)@ == agg_at(old(aux)@, 0, op_flag, spec_are_equal(1, current@[0])),
{
    let n = result.len() - 1;
    enforce_no_change_range(result, 0, n, current, 1, next, 0, op_flag);
    aux.agg_constraint(0, op_flag, are_equal(ONE, current[0]));
}

/// Enforces constraints for ASSERTEQ operation. The stack is shifted by 2 registers the left and
/// an auxiliary constraint enforces that the first element of the stack is equal to the second.
pub fn enforce_asserteq(result: &mut [u128], aux: &mut [u128], current: &[u128], next: &[u128], op_flag: u128)
    requires
        stack_lengths_ok(old(result)@, current@, next@, 2),
        old(aux)@.len() >= 1,
    ensures
        final(result)@ == agg_eq_range(old(result)@, 0, old(result)@.len() - 2, next@, 0, current@, 2, op_flag),
        final(aux)@ == agg_at(old(aux)@, 0, op_flag, spec_are_equal(current@[0], current@[1])),
{
    let n = result.len() - 2;
    enforce_no_change_range(result, 0, n, current, 2, next, 0, op_flag);
    aux.agg_constraint(0, op_flag, are_equal(current[0], current[1]));
}

// EQUALITY
// ================================================================================================

/// Evaluates constraints for EQ operation. These enforce that when x == y, top of the stack at
/// the next step is set to 1, otherwise top of the stack at the next step is set to 0.
pub fn enforce_eq(result: &mut [u128], aux: &mut [u128], current: &[u128], next: &[u128], op_flag: u128)
    requires
        stack_lengths_ok(old(result)@, current@, next@, 3),
        old(aux)@.len() >= 1,
    ensures
        ({
            let diff = f_sub(current@[1] as int, current@[2] as int);
            let op_result = spec_binary_not(f_mul(diff, current@[0] as int) as u128);
            &&& final(result)@ == agg_eq_range(
                agg_at(old(result)@, 0, op_flag, spec_are_equal(next@[0], op_result)),
                1, old(result)@.len() - 2, next@, 1, current@, 3, op_flag)
            &&& final(aux)@ == agg_at(old(aux)@, 0, op_flag, f_mul(next@[0] as int, diff) as u128)
        }),
{
    // compute difference between top two values of the stack
    let x = current[1];
    let y = current[2];
    let diff = crate::math::field::sub(x, y);

    // when x == y, the first stack register contains inverse of the difference
    let inv_diff = current[0];

    // the operation is defined as 1 - diff * inv(diff)
    let op_result = binary_not(crate::math::field::mul(diff, inv_diff));
    result.agg_constraint(0, op_flag, are_equal(next[0], op_result));

    // stack items beyond 3nd item are shifted the the left by 2
    let n = result.len() - 2;
    enforce_no_change_range(result, 1, n, current, 3, next, 1, op_flag);

    // we also need to make sure that result * diff = 0; this ensures that when diff != 0
    // the result must be set to 0
    aux.agg_constraint(0, op_flag, crate::math::field::mul(next[0], diff));
}

// INEQUALITY
// ================================================================================================

/// Evaluations of the first eight CMP constraints, in order.
pub open spec fn comparison_constraints(current: Seq<u128>, next: Seq<u128>) -> Seq<u128> {
    let x_bit = next[1];
    let y_bit = next[2];
    let not_set = next[3];
    let bit_gt = f_mul(x_bit as int, spec_binary_not(y_bit) as int);
    let bit_lt = f_mul(y_bit as int, spec_binary_not(x_bit) as int);
    let gt = f_add(current[4] as int, f_mul(bit_gt, not_set as int));
    let lt = f_add(current[5] as int, f_mul(bit_lt, not_set as int));
    let power_of_two = current[0];
    let x_acc = f_add(current[7] as int, f_mul(x_bit as int, power_of_two as int));
    let y_acc = f_add(current[6] as int, f_mul(y_bit as int, power_of_two as int));
    let not_set_check = f_mul(spec_binary_not(current[5]) as int, spec_binary_not(current[4]) as int);
    seq![
        spec_is_binary(x_bit),
        spec_is_binary(y_bit),
        spec_are_equal(next[4], gt as u128),
        spec_are_equal(next[5], lt as u128),
        spec_are_equal(next[6], y_acc as u128),
        spec_are_equal(next[7], x_acc as u128),
        spec_are_equal(not_set, not_set_check as u128),
        spec_are_equal(f_mul(next[0] as int, 2) as u128, power_of_two),
    ]
}

/// Aggregates `values[k]` into position `k` of `r`, for each `k < values.len()`.
pub open spec fn agg_values(r: Seq<u128>, values: Seq<u128>, flag: u128) -> Seq<u128> {
    Seq::new(r.len(), |i: int| if i < values.len() {
        crate::stark::constraints::utils::agg(r[i], flag, values[i])
    } else {
        r[i]
    })
}

/// Evaluates constraints for CMP operation.
pub fn enforce_cmp(result: &mut [u128], current: &[u128], next: &[u128], op_flag: u128)
    requires
        stack_lengths_ok(old(result)@, current@, next@, 8),
    ensures
        final(result)@ == agg_eq_range(agg_values(old(result)@, comparison_constraints(current@, next@), op_flag),
            8, eval_len(old(result)@), current@, 8, next@, 8, op_flag),
{
    let ghost r0 = result@;
    // layout of first 8 registers
    // [pow, bit_a, bit_b, not_set, gt, lt, acc_b, acc_a]

    // x and y bits are binary
    let x_bit = next[X_BIT_IDX];
    let y_bit = next[Y_BIT_IDX];
    result.agg_constraint(0, op_flag, is_binary(x_bit));
    result.agg_constraint(1, op_flag, is_binary(y_bit));

    // comparison trackers were updated correctly
    let not_set = next[NOT_SET_IDX];
    let bit_gt = crate::math::field::mul(x_bit, binary_not(y_bit));
    let bit_lt = crate::math::field::mul(y_bit, binary_not(x_bit));

    let gt = crate::math::field::add(current[GT_IDX], crate::math::field::mul(bit_gt, not_set));
    let lt = crate::math::field::add(current[LT_IDX], crate::math::field::mul(bit_lt, not_set));
    result.agg_constraint(2, op_flag, are_equal(next[GT_IDX], gt));
    result.agg_constraint(3, op_flag, are_equal(next[LT_IDX], lt));

    // binary representation accumulators were updated correctly
    let power_of_two = current[POW2_IDX];
    let x_acc = crate::math::field::add(current[X_ACC_IDX], crate::math::field::mul(x_bit, power_of_two));
    let y_acc = crate::math::field::add(current[Y_ACC_IDX], crate::math::field::mul(y_bit, power_of_two));
    result.agg_constraint(4, op_flag, are_equal(next[Y_ACC_IDX], y_acc));
    result.agg_constraint(5, op_flag, are_equal(next[X_ACC_IDX], x_acc));

    // when GT or LT register is set to 1, not_set flag is cleared
    let not_set_check = crate::math::field::mul(binary_not(current[LT_IDX]), binary_not(current[GT_IDX]));
    result.agg_constraint(6, op_flag, are_equal(not_set, not_set_check));

    // power of 2 register was updated correctly
    let power_of_two_constraint = are_equal(crate::math::field::mul(next[POW2_IDX], 2), power_of_two);
    result.agg_constraint(7, op_flag, power_of_two_constraint);
    assert(result@ =~= agg_values(r0, comparison_constraints(current@, next@), op_flag));

    // registers beyond the 7th register were not affected (constraint: current[i] - next[i])
    let n = result.len();
    enforce_no_change_range(result, 8, n, next, 8, current, 8, op_flag);
}

/// Evaluations of the first three BINACC constraints, in order.
pub open spec fn binacc_constraints(current: Seq<u128>, next: Seq<u128>) -> Seq<u128> {
    let power_of_two = current[0];
    let bit = next[1];
    let acc = f_add(current[2] as int, f_mul(bit as int, power_of_two as int));
    seq![
        spec_are_equal(f_mul(next[0] as int, 2) as u128, power_of_two),
        spec_is_binary(bit),
        spec_are_equal(next[2], acc as u128),
    ]
}

/// Evaluates constraints for BINACC operation.
pub fn enforce_binacc(result: &mut [u128], current: &[u128], next: &[u128], op_flag: u128)
    requires
        stack_lengths_ok(old(result)@, current@, next@, 3),
    ensures
        final(result)@ == agg_eq_range(agg_values(old(result)@, binacc_constraints(current@, next@), op_flag),
            3, old(result)@.len() as int, current@, 3, next@, 3, op_flag),
{
    let ghost r0 = result@;
    // layout of first 3 registers:
    // [power of two, value bit, accumulated value]
    // value bit is located in the next state (not current state)

    // power of 2 register was updated correctly
    let power_of_two = current[0];
    let power_of_two_constraint = are_equal(crate::math::field::mul(next[0], 2), power_of_two);
    result.agg_constraint(0, op_flag, power_of_two_constraint);

    // the bit was a binary value
    let bit = next[1];
    result.agg_constraint(1, op_flag, is_binary(bit));

    // binary representation accumulator was updated correctly
    let acc = crate::math::field::add(current[2], crate::math::field::mul(bit, power_of_two));
    result.agg_constraint(2, op_flag, are_equal(next[2], acc));
    assert(result@ =~= agg_values(r0, binacc_constraints(current@, next@), op_flag));

    // registers beyond 2nd register remained the same (constraint: current[i] - next[i])
    let n = result.len();
    enforce_no_change_range(result, 3, n, next, 3, current, 3, op_flag);
}

} // verus!
