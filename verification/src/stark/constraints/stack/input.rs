use vstd::prelude::*;
use crate::stark::constraints::utils::agg_eq_range;
use super::utils::enforce_no_change_range;

verus! {

/// Enforces constraints for PUSH operation. The constraints are based on the first element of the
/// stack; the old stack is shifted right by 1 element.
pub fn enforce_push(result: &mut [u128], current: &[u128], next: &[u128], op_flag: u128)
    requires
        old(result)@.len() >= 1,
        current@.len() >= old(result)@.len(),
        next@.len() >= old(result)@.len(),
    ensures
        final(result)@ == agg_eq_range(old(result)@, 1, old(result)@.len() as int, next@, 1, current@, 0, op_flag),
{
    // ensure that the rest of the stack is shifted right by 1 element
    let n = result.len();
    enforce_no_change_range(result, 1, n, current, 0, next, 1, op_flag);
}

/// Enforces constraints for READ operation. No constraints are placed on the first element of
/// the stack; the old stack is shifted right by 1 element.
pub fn enforce_read(result: &mut [u128], current: &[u128], next: &[u128], op_flag: u128)
    requires
        old(result)@.len() >= 1,
        current@.len() >= old(result)@.len(),
        next@.len() >= old(result)@.len(),
    ensures
        final(result)@ == agg_eq_range(old(result)@, 1, old(result)@.len() as int, next@, 1, current@, 0, op_flag),
{
    let n = result.len();
    enforce_no_change_range(result, 1, n, current, 0, next, 1, op_flag);
}

/// Enforces constraints for READ2 operation. No constraints are placed on the first two elements
/// of the stack; the old stack is shifted right by 2 element.
pub fn enforce_read2(result: &mut [u128], current: &[u128], next: &[u128], op_flag: u128)
    requires
        old(result)@.len() >= 2,
        current@.len() >= old(result)@.len(),
        next@.len() >= old(result)@.len(),
    ensures
        final(result)@ == agg_eq_range(old(result)@, 2, old(result)@.len() as int, next@, 2, current@, 0, op_flag),
{
    let n = result.len();
    enforce_no_change_range(result, 2, n, current, 0, next, 2, op_flag);
}

} // verus!
