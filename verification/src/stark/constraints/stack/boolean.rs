use vstd::prelude::*;
use crate::math::field::f_mul;
use crate::stark::constraints::utils::{
    are_equal, is_binary, binary_not, agg_at, agg_eq_range, spec_are_equal, spec_is_binary,
    spec_binary_not, EvaluationResult,
};
use super::utils::enforce_no_change_range;
use super::manipulation::stack_lengths_ok;

verus! {

// BOOLEAN OPERATION
// ================================================================================================

/// Enforces constraints for NOT operation. The constraints are based on the first element of
/// the stack, but also evaluates an auxiliary constraint which guarantees that the first
/// element of the stack is binary.
pub fn enforce_not(result: &mut [u128], aux: &mut [u128], current: &[u128], next: &[u128], op_flag: u128)
    requires
        stack_lengths_ok(old(result)@, current@, next@, 1),
        old(aux)@.len() >= 1,
    ensures
        final(result)@ == agg_eq_range(
            agg_at(old(result)@, 0, op_flag, spec_are_equal(next@[0], spec_binary_not(current@[0]))),
            1, old(result)@.len() as int, next@, 1, current@, 1, op_flag),
        final(aux)@ == agg_at(old(aux)@, 0, op_flag, spec_is_binary(current@[0])),
{
    // NOT operation is defined simply as: 1 - x; this means 0 becomes 1, and 1 becomes 0
    let x = current[0];
    let op_result = binary_not(x);
    result.agg_constraint(0, op_flag, are_equal(next[0], op_result));

    // ensure nothing changed beyond the first item of the stack
    let n = result.len();
    enforce_no_change_range(result, 1, n, current, 1, next, 1, op_flag);

    // we also need to make sure that the operand is binary (i.e. 0 or 1)
    aux.agg_constraint(0, op_flag, is_binary(x));
}

/// Enforces constraints for AND operation. The constraints are based on the first two elements
/// of the stack, but also evaluates auxiliary constraints which guarantee that both elements
/// are binary.
pub fn enforce_and(result: &mut [u128], aux: &mut [u128], current: &[u128], next: &[u128], op_flag: u128)
    requires
        stack_lengths_ok(old(result)@, current@, next@, 2),
        old(aux)@.len() >= 2,
    ensures
        final(result)@ == agg_eq_range(
            agg_at(old(result)@, 0, op_flag, spec_are_equal(next@[0], f_mul(current@[0] as int, current@[1] as int) as u128)),
            1, old(result)@.len() - 1, next@, 1, current@, 2, op_flag),
        final(aux)@ == agg_at(agg_at(old(aux)@, 0, op_flag, spec_is_binary(current@[0])),
            1, op_flag, spec_is_binary(current@[1])),
{
    // AND operation is the same as: x * y
    let x = current[0];
    let y = current[1];
    let op_result = crate::math::field::mul(x, y);
    result.agg_constraint(0, op_flag, are_equal(next[0], op_result));

    // ensure that the rest of the stack is shifted left by 1 element
    let n = result.len() - 1;
    enforce_no_change_range(result, 1, n, current, 2, next, 1, op_flag);

    // ensure that both operands are binary values
    aux.agg_constraint(0, op_flag, is_binary(x));
    aux.agg_constraint(1, op_flag, is_binary(y));
}

/// Enforces constraints for OR operation. The constraints are based on the first two elements
/// of the stack, but also evaluates auxiliary constraints which guarantee that both elements
/// are binary.
pub fn enforce_or(result: &mut [u128], aux: &mut [u128], current: &[u128], next: &[u128], op_flag: u128)
    requires
        stack_lengths_ok(old(result)@, current@, next@, 2),
        old(aux)@.len() >= 2,
    ensures
        final(result)@ == agg_eq_range(
            agg_at(old(result)@, 0, op_flag, spec_are_equal(next@[0],
                spec_binary_not(f_mul(spec_binary_not(current@[0]) as int, spec_binary_not(current@[1]) as int) as u128))),
            1, old(result)@.len() - 1, next@, 1, current@, 2, op_flag),
        final(aux)@ == agg_at(agg_at(old(aux)@, 0, op_flag, spec_is_binary(current@[0])),
            1, op_flag, spec_is_binary(current@[1])),
{
    // OR operation is the same as: 1 - (1 - x) * (1 - y)
    let x = current[0];
    let y = current[1];
    let op_result = binary_not(crate::math::field::mul(binary_not(x), binary_not(y)));
    result.agg_constraint(0, op_flag, are_equal(next[0], op_result));

    // ensure that the rest of the stack is shifted left by 1 element
    let n = result.len() - 1;
    enforce_no_change_range(result, 1, n, current, 2, next, 1, op_flag);

    // ensure that both operands are binary values
    aux.agg_constraint(0, op_flag, is_binary(x));
    aux.agg_constraint(1, op_flag, is_binary(y));
}

} // verus!
