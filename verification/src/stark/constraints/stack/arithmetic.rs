use vstd::prelude::*;
use crate::math::field::{ f_add, f_mul, ONE };
use crate::stark::constraints::utils::{ are_equal, agg_at, agg_eq_range, spec_are_equal, EvaluationResult };
use super::utils::enforce_no_change_range;
use super::manipulation::stack_lengths_ok;

verus! {

// ARITHMETIC OPERATION
// ================================================================================================

/// Enforces constraints for ADD operation. The constraints are based on the first 2 elements of
/// the stack; the rest of the stack is shifted left by 1 element.
pub fn enforce_add(result: &mut [u128], current: &[u128], next: &[u128], op_flag: u128)
    requires
        stack_lengths_ok(old(result)@, current@, next@, 2),
    ensures
        final(result)@ == agg_eq_range(
            agg_at(old(result)@, 0, op_flag, spec_are_equal(next@[0], f_add(current@[0] as int, current@[1] as int) as u128)),
            1, old(result)@.len() - 1, next@, 1, current@, 2, op_flag),
{
    let x = current[0];
    let y = current[1];
    let op_result = crate::math::field::add(x, y);
    result.agg_constraint(0, op_flag, are_equal(next[0], op_result));

    // ensure that the rest of the stack is shifted left by 1 element
    let n = result.len() - 1;
    enforce_no_change_range(result, 1, n, current, 2, next, 1, op_flag);
}

/// Enforces constraints for MUL operation. The constraints are based on the first 2 elements of
/// the stack; the rest of the stack is shifted left by 1 element.
pub fn enforce_mul(result: &mut [u128], current: &[u128], next: &[u128], op_flag: u128)
    requires
        stack_lengths_ok(old(result)@, current@, next@, 2),
    ensures
        final(result)@ == agg_eq_range(
            agg_at(old(result)@, 0, op_flag, spec_are_equal(next@[0], f_mul(current@[0] as int, current@[1] as int) as u128)),
            1, old(result)@.len() - 1, next@, 1, current@, 2, op_flag),
{
    let x = current[0];
    let y = current[1];
    let op_result = crate::math::field::mul(x, y);
    result.agg_constraint(0, op_flag, are_equal(next[0], op_result));

    // ensure that the rest of the stack is shifted left by 1 element
    let n = result.len() - 1;
    enforce_no_change_range(result, 1, n, current, 2, next, 1, op_flag);
}

/// Enforces constraints for INV operation. The constraints are based on the first element of
/// the stack; the rest of the stack is unaffected.
pub fn enforce_inv(result: &mut [u128], current: &[u128], next: &[u128], op_flag: u128)
    requires
        stack_lengths_ok(old(result)@, current@, next@, 1),
    ensures
        final(result)@ == agg_eq_range(
            agg_at(old(result)@, 0, op_flag, spec_are_equal(1, f_mul(next@[0] as int, current@[0] as int) as u128)),
            1, old(result)@.len() as int, next@, 1, current@, 1, op_flag),
{
    // Constraints for INV operation is defined as: x * inv(x) = 1; this also means
    // that if x = 0, the constraint will not be satisfied
    let x = current[0];
    let inv_x = next[0];
    result.agg_constraint(0, op_flag, are_equal(ONE, crate::math::field::mul(inv_x, x)));

    // ensure nothing changed beyond the first item of the stack
    let n = result.len();
    enforce_no_change_range(result, 1, n, current, 1, next, 1, op_flag);
}

/// Enforces constraints for NEG operation. The constraints are based on the first element of
/// the stack; the rest of the stack is unaffected.
pub fn enforce_neg(result: &mut [u128], current: &[u128], next: &[u128], op_flag: u128)
    requires
        stack_lengths_ok(old(result)@, current@, next@, 1),
    ensures
        final(result)@ == agg_eq_range(
            agg_at(old(result)@, 0, op_flag, f_add(next@[0] as int, current@[0] as int) as u128),
            1, old(result)@.len() as int, next@, 1, current@, 1, op_flag),
{
    // Constraint for NEG operation is defined as: x + neg(x) = 0
    let x = current[0];
    let neg_x = next[0];
    result.agg_constraint(0, op_flag, crate::math::field::add(neg_x, x));

    // ensure nothing changed beyond the first item of the stack
    let n = result.len();
    enforce_no_change_range(result, 1, n, current, 1, next, 1, op_flag);
}

} // verus!
