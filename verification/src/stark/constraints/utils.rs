use vstd::prelude::*;
use crate::math::field::{ f_add, f_sub, f_mul, f_exp, MODULUS, ONE, root_of_order };
use crate::math::polynom::{ poly_eval, inverse_dft, eval, interpolate_roots };

verus! {

// BASIC CONSTRAINTS OPERATORS
// ================================================================================================

/// Length of a list of evaluations as an integer.
pub open spec fn eval_len(s: Seq<u128>) -> int {
    s.len() as int
}

/// Value of the constraint `v = 0`.
pub open spec fn spec_is_zero(v: u128) -> u128 {
    v
}

/// Value of the constraint `v * v - v = 0` (v is 0 or 1).
pub open spec fn spec_is_binary(v: u128) -> u128 {
    f_sub(f_mul(v as int, v as int), v as int) as u128
}

/// Value of `1 - v`.
pub open spec fn spec_binary_not(v: u128) -> u128 {
    f_sub(1, v as int) as u128
}

/// Value of the constraint `v1 = v2`, i.e. `v1 - v2`.
pub open spec fn spec_are_equal(v1: u128, v2: u128) -> u128 {
    f_sub(v1 as int, v2 as int) as u128
}

/// Result of aggregating a constraint `value`, guarded by `flag`, into `acc`: acc + flag * value.
pub open spec fn agg(acc: u128, flag: u128, value: u128) -> u128 {
    f_add(acc as int, f_mul(flag as int, value as int)) as u128
}

/// Aggregates the constraint `value` into position `i` of `r`.
pub open spec fn agg_at(r: Seq<u128>, i: int, flag: u128, value: u128) -> Seq<u128> {
    r.update(i, agg(r[i], flag, value))
}

/// Aggregates, for every position `i` in `start..end` of `r`, the constraint
/// `a[a_start + i - start] - b[b_start + i - start]`.
pub open spec fn agg_eq_range(
    r: Seq<u128>, start: int, end: int,
    a: Seq<u128>, a_start: int, b: Seq<u128>, b_start: int, flag: u128,
) -> Seq<u128> {
    Seq::new(r.len(), |i: int|
        if start <= i < end {
            agg(r[i], flag, spec_are_equal(a[a_start + i - start], b[b_start + i - start]))
        } else {
            r[i]
        })
}

/// Aggregates, for every position `i` in `start..end` of `r`, the constraint `v[i] = 0`.
pub open spec fn agg_zero_range(r: Seq<u128>, start: int, end: int, v: Seq<u128>, flag: u128) -> Seq<u128> {
    Seq::new(r.len(), |i: int| if start <= i < end { agg(r[i], flag, spec_is_zero(v[i])) } else { r[i] })
}

/// Returns the constraint value for `v = 0`.
#[inline(always)]
pub fn is_zero(v: u128) -> (r: u128)
    ensures
        r == spec_is_zero(v),
{
    v
}

/// Returns the constraint value enforcing that `v` is 0 or 1: v^2 - v.
#[inline(always)]
pub fn is_binary(v: u128) -> (r: u128)
    ensures
        r == spec_is_binary(v),
        r < MODULUS,
{
    crate::math::field::sub(crate::math::field::mul(v, v), v)
}

/// Returns 1 - v.
#[inline(always)]
pub fn binary_not(v: u128) -> (r: u128)
    ensures
        r == spec_binary_not(v),
        r < MODULUS,
{
    crate::math::field::sub(ONE, v)
}

/// Returns the constraint value for `v1 = v2`: v1 - v2.
#[inline(always)]
pub fn are_equal(v1: u128, v2: u128) -> (r: u128)
    ensures
        r == spec_are_equal(v1, v2),
        r < MODULUS,
{
    crate::math::field::sub(v1, v2)
}

// TRAIT TO SIMPLIFY CONSTRAINT AGGREGATION
// ================================================================================================

/// A list of constraint evaluations into which guarded constraints are aggregated.
pub trait EvaluationResult {
    /// The evaluations held by the list.
    spec fn evaluations(&self) -> Seq<u128>;

    /// Adds `flag * value` to the evaluation at `index`.
    fn agg_constraint(&mut self, index: usize, flag: u128, value: u128)
        requires
            index < old(self).evaluations().len(),
        ensures
            final(self).evaluations() == agg_at(old(self).evaluations(), index as int, flag, value),
    ;
}

impl EvaluationResult for [u128] {
    open spec fn evaluations(&self) -> Seq<u128> {
        self@
    }

    fn agg_constraint(&mut self, index: usize, flag: u128, value: u128) {
        let v = crate::math::field::add(self[index], crate::math::field::mul(flag, value));
        self[index] = v;
    }
}

impl EvaluationResult for Vec<u128> {
    open spec fn evaluations(&self) -> Seq<u128> {
        self@
    }

    fn agg_constraint(&mut self, index: usize, flag: u128, value: u128) {
        let v = crate::math::field::add(self[index], crate::math::field::mul(flag, value));
        self.set(index, v);
    }
}


/// Aggregates, for each position `i` in `start..end` of `result`, the constraint
/// `a[a_start + i - start] = b[b_start + i - start]`.
pub fn enforce_equal_range(
    result: &mut [u128], start: usize, end: usize,
    a: &[u128], a_start: usize, b: &[u128], b_start: usize, op_flag: u128,
)
    requires
        start <= end <= old(result)@.len(),
        a_start + (end - start) <= a@.len(),
        b_start + (end - start) <= b@.len(),
    ensures
        final(result)@ == agg_eq_range(old(result)@, start as int, end as int, a@, a_start as int, b@, b_start as int, op_flag),
{
    let ghost r0 = result@;
    let alen = a.len();
    let blen = b.len();
    let mut i = start;
    while i < end
        invariant
            start <= i <= end,
            end <= r0.len(),
            result@.len() == r0.len(),
            a_start + (end - start) <= a@.len(),
            b_start + (end - start) <= b@.len(),
            a@.len() == alen,
            b@.len() == blen,
            forall|j: int| 0 <= j < r0.len() ==> result@[j] == (if start <= j < i {
                agg(r0[j], op_flag, spec_are_equal(a@[a_start + j - start], b@[b_start + j - start]))
            } else {
                r0[j]
            }),
        decreases end - i,
    {
        let v = are_equal(a[a_start + (i - start)], b[b_start + (i - start)]);
        result.agg_constraint(i, op_flag, v);
        i = i + 1;
    }
    assert(result@ =~= agg_eq_range(r0, start as int, end as int, a@, a_start as int, b@, b_start as int, op_flag));
}

// COMMON STACK CONSTRAINTS
// ================================================================================================

/// Enforces that stack values starting from `from_slot` haven't changed. All constraints in the
/// `result` slice are filled in.
pub fn enforce_stack_copy(result: &mut [u128], old_stack: &[u128], new_stack: &[u128], from_slot: usize, op_flag: u128)
    requires
        old_stack@.len() >= old(result)@.len(),
        new_stack@.len() >= old(result)@.len(),
    ensures
        final(result)@ == agg_eq_range(old(result)@, from_slot as int, old(result)@.len() as int,
            old_stack@, from_slot as int, new_stack@, from_slot as int, op_flag),
{
    let ghost r0 = result@;
    let n = result.len();
    let mut i = from_slot;
    while i < n
        invariant
            from_slot <= i,
            result@.len() == n,
            r0.len() == n,
            old_stack@.len() >= n,
            new_stack@.len() >= n,
            forall|j: int| 0 <= j < n ==> result@[j] == (if from_slot <= j < i {
                agg(r0[j], op_flag, spec_are_equal(old_stack@[j], new_stack@[j]))
            } else {
                r0[j]
            }),
        decreases n - i,
    {
        result.agg_constraint(i, op_flag, are_equal(old_stack[i], new_stack[i]));
        i = i + 1;
    }
    assert(result@ =~= agg_eq_range(r0, from_slot as int, n as int, old_stack@, from_slot as int, new_stack@, from_slot as int, op_flag));
}

/// Enforces that values in the stack were shifted to the right by `num_slots`. Constraints in
/// the `result` slice are filled in starting from `num_slots` index.
pub fn enforce_right_shift(result: &mut [u128], old_stack: &[u128], new_stack: &[u128], num_slots: usize, op_flag: u128)
    requires
        old_stack@.len() >= old(result)@.len(),
        new_stack@.len() >= old(result)@.len(),
    ensures
        final(result)@ == agg_eq_range(old(result)@, num_slots as int, old(result)@.len() as int,
            old_stack@, 0, new_stack@, num_slots as int, op_flag),
{
    let ghost r0 = result@;
    let n = result.len();
    let mut i = num_slots;
    while i < n
        invariant
            num_slots <= i,
            result@.len() == n,
            r0.len() == n,
            old_stack@.len() >= n,
            new_stack@.len() >= n,
            forall|j: int| 0 <= j < n ==> result@[j] == (if num_slots <= j < i {
                agg(r0[j], op_flag, spec_are_equal(old_stack@[j - num_slots], new_stack@[j]))
            } else {
                r0[j]
            }),
        decreases n - i,
    {
        result.agg_constraint(i, op_flag, are_equal(old_stack[i - num_slots], new_stack[i]));
        i = i + 1;
    }
    assert(result@ =~= agg_eq_range(r0, num_slots as int, n as int, old_stack@, 0, new_stack@, num_slots as int, op_flag));
}

/// Enforces that values in the stack were shifted to the left by `num_slots` starting from
/// `from_slots`. All constraints in the `result` slice are filled in.
pub fn enforce_left_shift(result: &mut [u128], old_stack: &[u128], new_stack: &[u128], from_slot: usize, num_slots: usize, op_flag: u128)
    requires
        num_slots <= from_slot,
        num_slots <= old(result)@.len(),
        old_stack@.len() >= old(result)@.len(),
        new_stack@.len() >= old(result)@.len(),
    ensures
        final(result)@ == agg_zero_range(
            agg_eq_range(old(result)@, from_slot - num_slots, old(result)@.len() - num_slots,
                old_stack@, from_slot as int, new_stack@, from_slot - num_slots, op_flag),
            old(result)@.len() - num_slots, old(result)@.len() as int, new_stack@, op_flag),
{
    let ghost r0 = result@;
    let n = result.len();
    let start_idx = from_slot - num_slots;
    let remainder_idx = n - num_slots;
    let ghost r1 = agg_eq_range(r0, start_idx as int, remainder_idx as int, old_stack@, from_slot as int, new_stack@, start_idx as int, op_flag);
    let mut i = start_idx;
    while i < remainder_idx
        invariant
            start_idx <= i,
            i <= remainder_idx || i == start_idx,
            start_idx == from_slot - num_slots,
            remainder_idx == n - num_slots,
            result@.len() == n,
            r0.len() == n,
            old_stack@.len() >= n,
            new_stack@.len() >= n,
            forall|j: int| 0 <= j < n ==> result@[j] == (if start_idx <= j < i {
                agg(r0[j], op_flag, spec_are_equal(old_stack@[j + num_slots], new_stack@[j]))
            } else {
                r0[j]
            }),
        decreases remainder_idx - i,
    {
        result.agg_constraint(i, op_flag, are_equal(old_stack[i + num_slots], new_stack[i]));
        i = i + 1;
    }
    assert(result@ =~= r1);
    let mut i = remainder_idx;
    while i < n
        invariant
            remainder_idx <= i,
            remainder_idx == n - num_slots,
            result@.len() == n,
            r1.len() == n,
            new_stack@.len() >= n,
            forall|j: int| 0 <= j < n ==> result@[j] == (if remainder_idx <= j < i {
                agg(r1[j], op_flag, spec_is_zero(new_stack@[j]))
            } else {
                r1[j]
            }),
        decreases n - i,
    {
        result.agg_constraint(i, op_flag, is_zero(new_stack[i]));
        i = i + 1;
    }
    assert(result@ =~= agg_zero_range(r1, remainder_idx as int, n as int, new_stack@, op_flag));
}

// CONSTANT EXTENSION
// ================================================================================================

/// Number of steps in one cycle of periodic constants.
pub const BASE_CYCLE_LENGTH: usize = 16usize;

/// Interpolates each row of cycle constants over the 16 roots of unity of order 16, and
/// evaluates the resulting polynomials over the `16 * extension_factor` roots of unity of that
/// order; returns the coefficients of the polynomials and their evaluations.
pub fn extend_constants(constants: &[[u128; 16]], extension_factor: usize) -> (r: (Vec<Vec<u128>>, Vec<Vec<u128>>))
    requires
        exists|k: nat| k <= 36 && vstd::arithmetic::power2::pow2(k) == extension_factor,
        16 * extension_factor <= usize::MAX,
    ensures
        r.0@.len() == constants@.len(),
        r.1@.len() == constants@.len(),
        forall|i: int| 0 <= i < constants@.len() ==> (#[trigger] r.0@[i])@ == inverse_dft(constants@[i]@, root_of_order(16), 16),
        forall|i: int| 0 <= i < constants@.len() ==> (#[trigger] r.1@[i])@.len() == 16 * extension_factor,
        forall|i: int, j: int| 0 <= i < constants@.len() && 0 <= j < 16 * extension_factor ==>
            (#[trigger] r.1@[i]@[j]) == poly_eval(r.0@[i]@, f_exp(root_of_order((16 * extension_factor) as nat), j as nat), 16),
{
    let ghost k = choose|k: nat| k <= 36 && vstd::arithmetic::power2::pow2(k) == extension_factor;
    proof {
        vstd::arithmetic::power2::lemma2_to64();
        vstd::arithmetic::power2::lemma2_to64_rest();
        vstd::arithmetic::power2::lemma_pow2_adds(4, k);
        if k < 36 {
            vstd::arithmetic::power2::lemma_pow2_strictly_increases(k, 36);
        }
        assert(vstd::arithmetic::power2::pow2(36) == 0x10_0000_0000);
        assert(4 + k <= 40);
        assert(vstd::arithmetic::power2::pow2(4 + k) == 16 * extension_factor);
    }
    let root = crate::math::field::get_root_of_unity(BASE_CYCLE_LENGTH);
    let domain_size = BASE_CYCLE_LENGTH * extension_factor;
    let domain_root = crate::math::field::get_root_of_unity(domain_size);

    let mut polys: Vec<Vec<u128>> = Vec::new();
    let mut evaluations: Vec<Vec<u128>> = Vec::new();
    let mut i: usize = 0;
    while i < constants.len()
        invariant
            i <= constants@.len(),
            polys@.len() == i,
            evaluations@.len() == i,
            domain_size == 16 * extension_factor,
            root == root_of_order(16),
            domain_root == root_of_order(domain_size as nat),
            forall|a: int| 0 <= a < i ==> (#[trigger] polys@[a])@ == inverse_dft(constants@[a]@, root_of_order(16), 16),
            forall|a: int| 0 <= a < i ==> (#[trigger] evaluations@[a])@.len() == domain_size,
            forall|a: int, j: int| 0 <= a < i && 0 <= j < domain_size ==>
                (#[trigger] evaluations@[a]@[j]) == poly_eval(polys@[a]@, f_exp(domain_root as int, j as nat), 16),
        decreases constants@.len() - i,
    {
        let poly = interpolate_roots(constants[i].as_slice(), root);
        let mut evals: Vec<u128> = Vec::new();
        let mut j: usize = 0;
        while j < domain_size
            invariant
                j <= domain_size,
                evals@.len() == j,
                poly@.len() == 16,
                forall|b: int| 0 <= b < j ==> (#[trigger] evals@[b]) == poly_eval(poly@, f_exp(domain_root as int, b as nat), 16),
            decreases domain_size - j,
        {
            let x = crate::math::field::exp(domain_root, j as u128);
            evals.push(eval(poly.as_slice(), x));
            j = j + 1;
        }
        polys.push(poly);
        evaluations.push(evals);
        i = i + 1;
    }
    (polys, evaluations)
}

// LEMMAS
// ================================================================================================

/// Whether every evaluation is a canonical field element.
pub open spec fn all_canonical(r: Seq<u128>) -> bool {
    forall|i: int| 0 <= i < r.len() ==> #[trigger] r[i] < MODULUS
}

/// Aggregating a satisfied constraint (value 0) leaves a canonical evaluation unchanged.
pub proof fn lemma_agg_zero(acc: u128, flag: u128)
    requires
        acc < MODULUS,
    ensures
        agg(acc, flag, 0) == acc,
{
    assert(f_mul(flag as int, 0) == 0) by {
        assert((flag as int) * 0 == 0);
    }
    vstd::arithmetic::div_mod::lemma_small_mod(acc as nat, MODULUS as nat);
}

/// Equality constraints between equal values leave canonical evaluations unchanged.
pub proof fn lemma_agg_eq_range_noop(
    r: Seq<u128>, start: int, end: int,
    a: Seq<u128>, a_start: int, b: Seq<u128>, b_start: int, flag: u128,
)
    requires
        all_canonical(r),
        forall|i: int| start <= i < end ==> #[trigger] a[a_start + i - start] == b[b_start + i - start],
    ensures
        agg_eq_range(r, start, end, a, a_start, b, b_start, flag) == r,
{
    assert forall|i: int| 0 <= i < r.len() implies #[trigger] agg_eq_range(r, start, end, a, a_start, b, b_start, flag)[i] == r[i] by {
        if start <= i < end {
            let x = a[a_start + i - start];
            assert(spec_are_equal(x, b[b_start + i - start]) == 0) by {
                vstd::arithmetic::div_mod::lemma_small_mod(0, MODULUS as nat);
            }
            lemma_agg_zero(r[i], flag);
        }
    }
    assert(agg_eq_range(r, start, end, a, a_start, b, b_start, flag) =~= r);
}

/// A satisfied constraint aggregated at one position leaves canonical evaluations unchanged.
pub proof fn lemma_agg_at_noop(r: Seq<u128>, i: int, flag: u128)
    requires
        all_canonical(r),
        0 <= i < r.len(),
    ensures
        agg_at(r, i, flag, 0) == r,
{
    lemma_agg_zero(r[i], flag);
    assert(agg_at(r, i, flag, 0) =~= r);
}

/// Two canonical field elements whose field difference is zero are equal.
pub proof fn lemma_sub_zero_equal(a: u128, b: u128)
    requires
        a < MODULUS,
        b < MODULUS,
    ensures
        (f_sub(a as int, b as int) == 0) == (a == b),
{
    let m = MODULUS as int;
    if a >= b {
        vstd::arithmetic::div_mod::lemma_small_mod((a - b) as nat, m as nat);
    } else {
        vstd::arithmetic::div_mod::lemma_mod_add_multiples_vanish(a - b, m);
        vstd::arithmetic::div_mod::lemma_small_mod((m + a - b) as nat, m as nat);
    }
}

} // verus!
