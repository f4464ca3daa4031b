use vstd::prelude::*;
use crate::math::field::{ f_add, f_sub, f_mul, ZERO, MODULUS };
use crate::utils::sponge::{
    add_ark, apply_sbox, apply_mds, apply_inv_mds, sub_constants, spec_add_ark, spec_inject,
    spec_mds, spec_inv_mds, spec_sub_constants,
};
use crate::utils::rescue::sbox;
use crate::stark::trace::TraceState;
use crate::stark::trace::trace_state2::{ spec_op_code, spec_hd_op_flags, SPONGE_WIDTH };
use crate::stark::constraints::utils::{ agg, agg_eq_range, are_equal, spec_are_equal, lemma_sub_zero_equal, EvaluationResult };

verus! {

/// The sponge after the first half of a Rescue round with the constants `ark[0..4]`, followed
/// by the injection of `op_code` and `op_value`.
pub open spec fn hacc_forward(sponge: Seq<u128>, ark: Seq<u128>, op_code: u128, op_value: u128) -> Seq<u128> {
    spec_inject(spec_mds(sbox(spec_add_ark(sponge, ark, 0))), op_code, op_value)
}

/// The next sponge taken back through the second half of a Rescue round with the constants
/// `ark[4..8]`: inverse MDS, S-box, subtraction of the constants.
pub open spec fn hacc_backward(next_sponge: Seq<u128>, ark: Seq<u128>) -> Seq<u128> {
    spec_sub_constants(sbox(spec_inv_mds(next_sponge)), ark, SPONGE_WIDTH as int)
}

/// The constraints of one sponge round aggregated into `r`: each register of the forward half
/// equals the same register of the backward half.
pub open spec fn hacc_constraints(r: Seq<u128>, sponge: Seq<u128>, next_sponge: Seq<u128>, ark: Seq<u128>, op_code: u128, op_value: u128, flag: u128) -> Seq<u128> {
    agg_eq_range(r, 0, SPONGE_WIDTH as int, hacc_forward(sponge, ark, op_code, op_value), 0, hacc_backward(next_sponge, ark), 0, flag)
}

/// Aggregates into `result` the constraints of a sponge round from `sponge` to `next_sponge`
/// which injects `op_code` and `op_value`.
pub(crate) fn enforce_sponge_round(
    result: &mut [u128],
    sponge: &[u128],
    next_sponge: &[u128],
    ark: &[u128],
    op_code: u128,
    op_value: u128,
    op_flag: u128,
)
    requires
        old(result)@.len() >= SPONGE_WIDTH,
        sponge@.len() == SPONGE_WIDTH,
        next_sponge@.len() == SPONGE_WIDTH,
        ark@.len() >= 2 * SPONGE_WIDTH,
    ensures
        final(result)@ == hacc_constraints(old(result)@, sponge@, next_sponge@, ark@, op_code, op_value, op_flag),
{
    // evaluate the first half of Rescue round
    let mut old_sponge = [ZERO; 4];
    old_sponge[0] = sponge[0];
    old_sponge[1] = sponge[1];
    old_sponge[2] = sponge[2];
    old_sponge[3] = sponge[3];
    assert(old_sponge@ =~= sponge@);
    add_ark(&mut old_sponge, ark, 0);
    apply_sbox(&mut old_sponge);
    apply_mds(&mut old_sponge);

    // op_code injection
    old_sponge[0] = crate::math::field::add(old_sponge[0], op_code);
    old_sponge[1] = crate::math::field::add(old_sponge[1], op_value);

    // evaluate inverse of the second half of Rescue round
    let mut new_sponge = [ZERO; 4];
    new_sponge[0] = next_sponge[0];
    new_sponge[1] = next_sponge[1];
    new_sponge[2] = next_sponge[2];
    new_sponge[3] = next_sponge[3];
    assert(new_sponge@ =~= next_sponge@);
    apply_inv_mds(&mut new_sponge);
    apply_sbox(&mut new_sponge);
    sub_constants(&mut new_sponge, ark, SPONGE_WIDTH);

    let ghost fwd = hacc_forward(sponge@, ark@, op_code, op_value);
    let ghost bwd = hacc_backward(next_sponge@, ark@);
    assert(old_sponge@ =~= fwd);
    assert(new_sponge@ =~= bwd);

    // add the constraints to the result
    let ghost r0 = result@;
    let mut i: usize = 0;
    while i < SPONGE_WIDTH
        invariant
            i <= SPONGE_WIDTH,
            r0.len() >= SPONGE_WIDTH,
            old_sponge@ == fwd,
            new_sponge@ == bwd,
            result@ == agg_eq_range(r0, 0, i as int, fwd, 0, bwd, 0, op_flag),
        decreases SPONGE_WIDTH - i,
    {
        result.agg_constraint(i, op_flag, are_equal(old_sponge[i], new_sponge[i]));
        i = i + 1;
        assert(result@ =~= agg_eq_range(r0, 0, i as int, fwd, 0, bwd, 0, op_flag));
    }
}

/// Enforces the constraints of the HACC operation: the next sponge is the current sponge after
/// one round of the sponge with the constants `ark`, injecting the operation code and, for a
/// PUSH, the value at the top of the next user stack.
pub fn enforce_hacc(result: &mut [u128], current: &TraceState, next: &TraceState, ark: &[u128], op_flag: u128)
    requires
        old(result)@.len() >= SPONGE_WIDTH,
        ark@.len() >= 2 * SPONGE_WIDTH,
        next.user_stack@.len() >= 1,
    ensures
        final(result)@ == hacc_constraints(old(result)@, current.sponge@, next.sponge@, ark@,
            spec_op_code(current.ld_op_bits@, current.hd_op_bits@),
            f_mul(next.user_stack@[0] as int, spec_hd_op_flags(current.hd_op_bits@)[0] as int) as u128,
            op_flag),
{
    // determine current op_value
    let stack_top = next.user_stack()[0];
    let push_flag = current.hd_op_flags()[0];
    let op_value = crate::math::field::mul(stack_top, push_flag);
    enforce_sponge_round(result, current.sponge(), next.sponge(), ark, current.op_code(), op_value, op_flag);
}

/// The HACC constraints measure the injected value. Where the next sponge, taken back through the
/// second half of the round, is the first half of the round from `sponge` injecting `op_code` and
/// `w`, the constraints for the op value `op_value`, aggregated with flag 1 into zero evaluations,
/// hold `op_value - w` at the second register and zero everywhere else; so they all vanish
/// exactly when `op_value == w`.
pub proof fn lemma_hacc_measures_op_value(
    r: Seq<u128>,
    sponge: Seq<u128>,
    next_sponge: Seq<u128>,
    ark: Seq<u128>,
    op_code: u128,
    op_value: u128,
    w: u128,
)
    requires
        r.len() >= SPONGE_WIDTH,
        forall|i: int| 0 <= i < r.len() ==> r[i] == 0,
        op_value < MODULUS,
        w < MODULUS,
        hacc_backward(next_sponge, ark) == hacc_forward(sponge, ark, op_code, w),
    ensures
        hacc_constraints(r, sponge, next_sponge, ark, op_code, op_value, 1)
            == r.update(1, f_sub(op_value as int, w as int) as u128),
        (hacc_constraints(r, sponge, next_sponge, ark, op_code, op_value, 1) == r) == (op_value == w),
{
    let m = MODULUS as int;
    let x = spec_mds(sbox(spec_add_ark(sponge, ark, 0)));
    let fv = hacc_forward(sponge, ark, op_code, op_value);
    let fw = hacc_forward(sponge, ark, op_code, w);
    let c = hacc_constraints(r, sponge, next_sponge, ark, op_code, op_value, 1);
    let d = f_sub(op_value as int, w as int) as u128;
    assert(x.len() == SPONGE_WIDTH);
    // the constraint at the second register: (x1 + v) - (x1 + w) = v - w
    let a = x[1] as int + op_value as int;
    let b = x[1] as int + w as int;
    vstd::arithmetic::div_mod::lemma_sub_mod_noop(a, b, m);
    assert(a - b == op_value as int - w as int);
    assert(spec_are_equal(fv[1], fw[1]) == d);
    assert(0 <= d < MODULUS) by {
        vstd::arithmetic::div_mod::lemma_mod_bound(op_value as int - w as int, m);
    }
    assert forall|v: u128| v < MODULUS implies #[trigger] agg(0, 1, v) == v by {
        vstd::arithmetic::div_mod::lemma_small_mod(v as nat, m as nat);
        assert(1 * (v as int) == v as int);
    }
    assert(spec_are_equal(fv[0], fw[0]) == 0) by {
        vstd::arithmetic::div_mod::lemma_small_mod(0, m as nat);
    }
    assert(spec_are_equal(fv[2], fw[2]) == 0) by {
        vstd::arithmetic::div_mod::lemma_small_mod(0, m as nat);
    }
    assert(spec_are_equal(fv[3], fw[3]) == 0) by {
        vstd::arithmetic::div_mod::lemma_small_mod(0, m as nat);
    }
    assert(agg(0, 1, 0) == 0);
    assert(agg(0, 1, d) == d);
    assert(c =~= r.update(1, d));
    lemma_sub_zero_equal(op_value, w);
    if c == r {
        assert(c[1] == r[1]);
    }
    if op_value == w {
        assert(r.update(1, d) =~= r);
    }
}

} // verus!
