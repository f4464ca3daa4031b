use vstd::prelude::*;
use crate::stark::constraints::utils::{ enforce_stack_copy, agg_eq_range };

verus! {

/// Enforces constraints for NOOP operation. The constraints ensure that the stack state
/// has not changed between two steps.
pub fn enforce_noop(result: &mut [u128], old_stack: &[u128], new_stack: &[u128], op_flag: u128)
    requires
        old_stack@.len() >= old(result)@.len(),
        new_stack@.len() >= old(result)@.len(),
    ensures
        final(result)@ == agg_eq_range(old(result)@, 0, old(result)@.len() as int, old_stack@, 0, new_stack@, 0, op_flag),
{
    enforce_stack_copy(result, old_stack, new_stack, 0, op_flag);
}

} // verus!
