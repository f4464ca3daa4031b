use vstd::prelude::*;
use crate::math::field::{ f_mul, ONE };
use crate::stark::trace::trace_state2::TraceState;
use crate::stark::constraints::utils::{ is_binary, binary_not, spec_is_binary, spec_binary_not };

verus! {

/// Field product of the first `n` values of `bits`.
pub open spec fn bit_product(bits: Seq<u128>, n: nat) -> u128
    decreases n,
{
    if n == 0 {
        1
    } else {
        f_mul(bit_product(bits, (n - 1) as nat) as int, bits[n - 1] as int) as u128
    }
}

/// Values of the 12 operation bit constraints: one per operation bit (flow control, low-degree,
/// high-degree) enforcing that the bit is binary, then (1 - ld_prod) * (1 - hd_prod), then
/// cf_prod * (1 - ld_prod * hd_prod), where each prod is the product of a group of bits.
pub open spec fn op_bit_constraints(current: &TraceState) -> Seq<u128> {
    let bits = current.cf_op_bits@ + current.ld_op_bits@ + current.hd_op_bits@;
    let cf_prod = bit_product(current.cf_op_bits@, 3);
    let ld_prod = bit_product(current.ld_op_bits@, 5);
    let hd_prod = bit_product(current.hd_op_bits@, 2);
    Seq::new(10, |i: int| spec_is_binary(bits[i]))
        + seq![
            f_mul(spec_binary_not(ld_prod) as int, spec_binary_not(hd_prod) as int) as u128,
            f_mul(cf_prod as int, spec_binary_not(f_mul(ld_prod as int, hd_prod as int) as u128) as int) as u128,
        ]
}

/// Computes the constraint values for a list of operation bits into `result[start..]`, and
/// returns the product of the bits.
fn binary_bits(result: &mut [u128], start: usize, bits: &[u128]) -> (prod: u128)
    requires
        start + bits@.len() <= old(result)@.len(),
    ensures
        prod == bit_product(bits@, bits@.len()),
        final(result)@.len() == old(result)@.len(),
        forall|i: int| 0 <= i < old(result)@.len() ==> final(result)@[i] == (
            if start <= i < start + bits@.len() { spec_is_binary(bits@[i - start]) } else { old(result)@[i] }),
{
    let ghost r0 = result@;
    let n = bits.len();
    let rl = result.len();
    let mut prod: u128 = ONE;
    let mut k: usize = 0;
    while k < n
        invariant
            k <= n,
            n == bits@.len(),
            rl == r0.len(),
            start + n <= rl,
            result@.len() == rl,
            prod == bit_product(bits@, k as nat),
            forall|i: int| 0 <= i < rl ==> result@[i] == (
                if start <= i < start + k { spec_is_binary(bits@[i - start]) } else { r0[i] }),
        decreases n - k,
    {
        result[start + k] = is_binary(bits[k]);
        prod = crate::math::field::mul(prod, bits[k]);
        k = k + 1;
    }
    prod
}

/// Evaluates the operation bit constraints and writes them into `result[..12]`: each of the
/// 10 operation bits must be binary; low-degree and high-degree bits cannot all be 0s at the
/// same time; when flow control bits are all 1s, low-degree and high-degree bits must be all 1s.
pub fn enforce_op_bits(result: &mut [u128], current: &TraceState, next: &TraceState)
    requires
        old(result)@.len() >= 12,
    ensures
        final(result)@ == op_bit_constraints(current)
            + old(result)@.subrange(12, old(result)@.len() as int),
{
    let ghost r0 = result@;

    // make sure all op bits are binary and compute their product
    let cf_bit_prod = binary_bits(result, 0, current.cf_op_bits());
    let ld_bit_prod = binary_bits(result, 3, current.ld_op_bits());
    let hd_bit_prod = binary_bits(result, 8, current.hd_op_bits());

    // ld_ops and hd_ops cannot be simultaneously set to all 0s
    result[10] = crate::math::field::mul(binary_not(ld_bit_prod), binary_not(hd_bit_prod));

    // when cf_ops are not all 0s, ld_ops and hd_ops must be all 1s
    result[11] = crate::math::field::mul(cf_bit_prod, binary_not(crate::math::field::mul(ld_bit_prod, hd_bit_prod)));

    assert(result@ =~= op_bit_constraints(current) + r0.subrange(12, r0.len() as int));
}

} // verus!
