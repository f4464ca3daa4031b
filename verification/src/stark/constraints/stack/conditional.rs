use vstd::prelude::*;
use crate::math::field::{ f_add, f_mul };
use crate::stark::constraints::utils::{
    are_equal, is_binary, binary_not, enforce_left_shift, agg_at, agg_eq_range, agg_zero_range,
    spec_are_equal, spec_is_binary, spec_binary_not, EvaluationResult,
};
use super::manipulation::stack_lengths_ok;

verus! {

/// Value selected by `condition` between `x` (condition = 1) and `y` (condition = 0):
/// condition * x + (1 - condition) * y.
pub open spec fn select(condition: u128, x: u128, y: u128) -> u128 {
    f_add(f_mul(condition as int, x as int), f_mul(spec_binary_not(condition) as int, y as int)) as u128
}

/// Aggregation performed by a left shift of `num_slots` starting from `from_slot`.
pub open spec fn left_shift(r: Seq<u128>, old_stack: Seq<u128>, new_stack: Seq<u128>, from_slot: int, num_slots: int, flag: u128) -> Seq<u128> {
    agg_zero_range(
        agg_eq_range(r, from_slot - num_slots, r.len() - num_slots, old_stack, from_slot, new_stack, from_slot - num_slots, flag),
        r.len() - num_slots, r.len() as int, new_stack, flag)
}

// CONSTRAINT EVALUATORS
// ================================================================================================

/// Enforces constraints for CHOOSE operation. These constraints work with top 3 registers of the
/// stack and enforce that when condition = 1, x remains at the top of the stack; when
/// condition = 0, y remains at the top of the stack. Otherwise the operation fails.
pub fn enforce_choose(result: &mut [u128], aux: &mut [u128], old_stack: &[u128], new_stack: &[u128], op_flag: u128)
    requires
        stack_lengths_ok(old(result)@, old_stack@, new_stack@, 3),
        old(aux)@.len() >= 1,
    ensures
        final(result)@ == left_shift(
            agg_at(old(result)@, 0, op_flag, spec_are_equal(new_stack@[0], select(old_stack@[2], old_stack@[0], old_stack@[1]))),
            old_stack@, new_stack@, 3, 2, op_flag),
        final(aux)@ == agg_at(old(aux)@, 0, op_flag, spec_is_binary(old_stack@[2])),
{
    let x = old_stack[0];
    let y = old_stack[1];
    let condition = old_stack[2];

    // the constraint is: (condition * x) + ((1 - condition) * y)
    let not_condition = binary_not(condition);
    let op_result = crate::math::field::add(crate::math::field::mul(condition, x), crate::math::field::mul(not_condition, y));
    result.agg_constraint(0, op_flag, are_equal(new_stack[0], op_result));

    // registers beyond the 3rd are shifted left by 2 slots
    enforce_left_shift(result, old_stack, new_stack, 3, 2, op_flag);

    // make sure the condition was a binary value
    aux.agg_constraint(0, op_flag, is_binary(condition));
}

/// Enforces constraints for CHOOSE2 operation. These constraints work with top 6 registers of
/// the stack and enforce that when condition = 1, (x0, x1) remain at the top of the stack; when
/// condition = 0, (y0, y1) remains at the top of the stack. Otherwise the operation fails.
pub fn enforce_choose2(result: &mut [u128], aux: &mut [u128], old_stack: &[u128], new_stack: &[u128], op_flag: u128)
    requires
        stack_lengths_ok(old(result)@, old_stack@, new_stack@, 5),
        old(aux)@.len() >= 1,
    ensures
        ({
            let c = old_stack@[4];
            let r1 = agg_at(old(result)@, 0, op_flag, spec_are_equal(new_stack@[0], select(c, old_stack@[0], old_stack@[2])));
            let r2 = agg_at(r1, 1, op_flag, spec_are_equal(new_stack@[1], select(c, old_stack@[1], old_stack@[3])));
            &&& final(result)@ == left_shift(r2, old_stack@, new_stack@, 6, 4, op_flag)
            &&& final(aux)@ == agg_at(old(aux)@, 0, op_flag, spec_is_binary(c))
        }),
{
    let x0 = old_stack[0];
    let x1 = old_stack[1];
    let y0 = old_stack[2];
    let y1 = old_stack[3];
    let condition = old_stack[4];

    // the constraints are: (condition * x0) + ((1 - condition) * y0)
    // and (condition * x1) + ((1 - condition) * y1)
    let not_condition = binary_not(condition);
    let op_result1 = crate::math::field::add(crate::math::field::mul(condition, x0), crate::math::field::mul(not_condition, y0));
    let op_result2 = crate::math::field::add(crate::math::field::mul(condition, x1), crate::math::field::mul(not_condition, y1));
    result.agg_constraint(0, op_flag, are_equal(new_stack[0], op_result1));
    result.agg_constraint(1, op_flag, are_equal(new_stack[1], op_result2));

    // registers beyond the 6th are shifted left by 4 slots
    enforce_left_shift(result, old_stack, new_stack, 6, 4, op_flag);

    // make sure the condition was a binary value
    aux.agg_constraint(0, op_flag, is_binary(condition));
}

/// Enforces constraints for CSWAP2 operation. These constraints work with top 6 registers of the
/// stack and enforce that when condition = 1, (v2, v3) move to the top of the stack; when
/// condition = 0, top 4 elements of the stack remain unchanged.
pub fn enforce_cswap2(result: &mut [u128], aux: &mut [u128], old_stack: &[u128], new_stack: &[u128], op_flag: u128)
    requires
        stack_lengths_ok(old(result)@, old_stack@, new_stack@, 5),
        old(aux)@.len() >= 1,
    ensures
        ({
            let s = old_stack@;
            let c = s[4];
            let r1 = agg_at(old(result)@, 0, op_flag, spec_are_equal(new_stack@[0], select(c, s[2], s[0])));
            let r2 = agg_at(r1, 1, op_flag, spec_are_equal(new_stack@[1], select(c, s[3], s[1])));
            let r3 = agg_at(r2, 2, op_flag, spec_are_equal(new_stack@[2], select(c, s[0], s[2])));
            let r4 = agg_at(r3, 3, op_flag, spec_are_equal(new_stack@[3], select(c, s[1], s[3])));
            &&& final(result)@ == left_shift(r4, s, new_stack@, 6, 2, op_flag)
            &&& final(aux)@ == agg_at(old(aux)@, 0, op_flag, spec_is_binary(c))
        }),
{
    let v0 = old_stack[0];
    let v1 = old_stack[1];
    let v2 = old_stack[2];
    let v3 = old_stack[3];
    let condition = old_stack[4];

    let not_condition = binary_not(condition);
    let op_result0 = crate::math::field::add(crate::math::field::mul(condition, v2), crate::math::field::mul(not_condition, v0));
    let op_result1 = crate::math::field::add(crate::math::field::mul(condition, v3), crate::math::field::mul(not_condition, v1));
    let op_result2 = crate::math::field::add(crate::math::field::mul(condition, v0), crate::math::field::mul(not_condition, v2));
    let op_result3 = crate::math::field::add(crate::math::field::mul(condition, v1), crate::math::field::mul(not_condition, v3));
    result.agg_constraint(0, op_flag, are_equal(new_stack[0], op_result0));
    result.agg_constraint(1, op_flag, are_equal(new_stack[1], op_result1));
    result.agg_constraint(2, op_flag, are_equal(new_stack[2], op_result2));
    result.agg_constraint(3, op_flag, are_equal(new_stack[3], op_result3));

    // registers beyond the 6th are shifted left by 2 slots
    enforce_left_shift(result, old_stack, new_stack, 6, 2, op_flag);

    // make sure the condition was a binary value
    aux.agg_constraint(0, op_flag, is_binary(condition));
}

} // verus!
