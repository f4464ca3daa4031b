use vstd::prelude::*;
use crate::math::field::f_mul;
use crate::stark::trace::trace_state2::{ TraceState, spec_op_code, spec_hd_op_flags, SPONGE_WIDTH };
use crate::stark::constraints::decoder::sponge::{ enforce_sponge_round, hacc_constraints };

verus! {

/// Enforces the constraints of the HACC operation: the next sponge is the current sponge after
/// one round of the sponge with the constants `ark`, injecting the operation code and, for a
/// PUSH, the value at the top of the next user stack.
pub fn enforce_hacc(result: &mut [u128], current: &TraceState, next: &TraceState, ark: &[u128], op_flag: u128)
    requires
        old(result)@.len() >= SPONGE_WIDTH,
        ark@.len() >= 2 * SPONGE_WIDTH,
        next.user_stack@.len() >= 1,
    ensures
        final(result)@ == hacc_constraints(old(result)@, current.sponge@, next.sponge@, ark@,
            spec_op_code(current.ld_op_bits@, current.hd_op_bits@),
            f_mul(next.user_stack@[0] as int, spec_hd_op_flags(current.hd_op_bits@)[0] as int) as u128,
            op_flag),
{
    // determine current op_value
    let stack_top = next.user_stack()[0];
    let push_flag = current.hd_op_flags()[0];
    let op_value = crate::math::field::mul(stack_top, push_flag);
    enforce_sponge_round(result, current.sponge(), next.sponge(), ark, current.op_code(), op_value, op_flag);
}

} // verus!
