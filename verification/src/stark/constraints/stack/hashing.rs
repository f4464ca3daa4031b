use vstd::prelude::*;
use crate::math::field::{ f_exp, ZERO };
use crate::math::polynom::{ poly_eval, eval, inverse_dft };
use crate::utils::hasher::{
    apply_sbox, apply_mds, apply_inv_mds, sub_constants, ARK as HASH_ARK,
    STATE_WIDTH as HASH_STATE_WIDTH,
};
use crate::stark::constraints::utils::{ agg, agg_eq_range, are_equal, extend_constants, EvaluationResult };
use super::utils::enforce_no_change_range;
use super::hash::{ add_ark, rescr_constraints };
use super::transpose_ark_constants;

verus! {

/// Number of steps in one cycle of the hash function's round constants.
pub const HASH_CYCLE_LENGTH: usize = 16usize;

/// The evaluations of one round of the hash function on the user stack, aggregated into `r` with
/// the flag `flag`: the hash state sits in registers `1..=HASH_STATE_WIDTH` of `current` and
/// `next`, and the registers above it must not change.
pub open spec fn hash_round_constraints(r: Seq<u128>, current: Seq<u128>, next: Seq<u128>, ark: Seq<u128>, flag: u128) -> Seq<u128> {
    let w = HASH_STATE_WIDTH as int;
    let h = rescr_constraints(current.subrange(1, 1 + w), next.subrange(1, 1 + w), ark);
    let r1 = Seq::new(r.len(), |i: int| if 1 <= i <= w { agg(r[i], flag, h[i - 1]) } else { r[i] });
    agg_eq_range(r1, 1 + w, r.len() as int, next, 1 + w, current, 1 + w, flag)
}

/// Evaluator of the constraints of the hash function's rounds on the user stack, holding the
/// round constants extended over the evaluation domain.
pub struct HashEvaluator {
    trace_length: usize,
    cycle_length: usize,
    ark_values: Vec<[u128; 12]>,
    ark_polys: Vec<Vec<u128>>,
}

impl HashEvaluator {
    /// The evaluator's invariant: one row of round constants per step of the extended cycle,
    /// and one polynomial per round constant.
    pub closed spec fn wf(&self) -> bool {
        &&& self.cycle_length > 0
        &&& self.ark_values@.len() == self.cycle_length
        &&& self.ark_polys@.len() == 2 * HASH_STATE_WIDTH
    }

    /// The round constants used at step `i` of the evaluation domain.
    pub closed spec fn ark_at(&self, i: int) -> Seq<u128> {
        self.ark_values@[i % (self.cycle_length as int)]@
    }

    /// The coefficients of the polynomial of the `j`-th round constant.
    pub closed spec fn ark_poly(&self, j: int) -> Seq<u128> {
        self.ark_polys@[j]@
    }

    /// The length of the execution trace.
    pub closed spec fn spec_trace_length(&self) -> nat {
        self.trace_length as nat
    }

    /// Builds the evaluator for a trace of `trace_length` steps extended by `extension_factor`.
    pub fn new(trace_length: usize, extension_factor: usize) -> (r: HashEvaluator)
        requires
            exists|k: nat| k <= 36 && vstd::arithmetic::power2::pow2(k) == extension_factor,
            16 * extension_factor <= usize::MAX,
        ensures
            r.wf(),
            r.spec_trace_length() == trace_length,
            forall|j: int| 0 <= j < 2 * HASH_STATE_WIDTH ==>
                #[trigger] r.ark_poly(j) == inverse_dft(HASH_ARK@[j]@, crate::math::field::root_of_order(16), 16),
            forall|i: int, j: int| 0 <= i < 16 * extension_factor && 0 <= j < 2 * HASH_STATE_WIDTH ==>
                #[trigger] r.ark_at(i)[j] == poly_eval(r.ark_poly(j), f_exp(crate::math::field::root_of_order((16 * extension_factor) as nat), i as nat), 16),
    {
        // extend rounds constants by the specified extension factor
        let (ark_polys, ark_evaluations) = extend_constants(HASH_ARK.as_slice(), extension_factor);
        let ghost evals = ark_evaluations@;

        // transpose round constant evaluations so that constants for each round
        // are stored in a single row
        let cycle_length = HASH_CYCLE_LENGTH * extension_factor;
        let ark_values = transpose_ark_constants(ark_evaluations, cycle_length);
        let r = HashEvaluator { trace_length, cycle_length, ark_values, ark_polys };
        proof {
            assert(extension_factor >= 1) by {
                let k = choose|k: nat| k <= 36 && vstd::arithmetic::power2::pow2(k) == extension_factor;
                vstd::arithmetic::power2::lemma_pow2_pos(k);
            }
            assert forall|i: int, j: int| 0 <= i < 16 * extension_factor && 0 <= j < 2 * HASH_STATE_WIDTH implies
                #[trigger] r.ark_at(i)[j] == poly_eval(r.ark_poly(j), f_exp(crate::math::field::root_of_order((16 * extension_factor) as nat), i as nat), 16) by {
                vstd::arithmetic::div_mod::lemma_small_mod(i as nat, cycle_length as nat);
                assert(i % (cycle_length as int) == i);
                assert(r.ark_at(i)[j] == evals[j]@[i]);
            }
        }
        r
    }

    /// Evaluates the constraints at step `step` of the evaluation domain and adds them, times
    /// `op_flag`, to `result`.
    pub fn evaluate(&self, current: &[u128], next: &[u128], step: usize, op_flag: u128, result: &mut [u128])
        requires
            self.wf(),
            current@.len() >= 1 + HASH_STATE_WIDTH,
            next@.len() >= 1 + HASH_STATE_WIDTH,
            1 <= old(result)@.len() <= current@.len(),
            old(result)@.len() <= next@.len(),
        ensures
            final(result)@ == hash_round_constraints(old(result)@, current@, next@, self.ark_at(step as int), op_flag),
    {
        let step = step % self.cycle_length;

        // determine round constants for the current step
        let ark = self.ark_values[step];

        // evaluate constraints for the hash function and for the rest of the stack
        self.eval_hash(current, next, &ark, op_flag, result);
        self.eval_rest(current, next, op_flag, result);
    }

    /// Evaluates the constraints at the point `x`, which need not lie in the evaluation domain,
    /// and adds them, times `op_flag`, to `result`; the round constants are interpolated at `x`
    /// raised to the number of constant cycles in the trace.
    pub fn evaluate_at(&self, current: &[u128], next: &[u128], x: u128, op_flag: u128, result: &mut [u128])
        requires
            self.wf(),
            current@.len() >= 1 + HASH_STATE_WIDTH,
            next@.len() >= 1 + HASH_STATE_WIDTH,
            1 <= old(result)@.len() <= current@.len(),
            old(result)@.len() <= next@.len(),
        ensures
            final(result)@ == hash_round_constraints(old(result)@, current@, next@,
                Seq::new(12, |j: int| poly_eval(self.ark_poly(j), f_exp(x as int, (self.spec_trace_length() / 16) as nat) as int, self.ark_poly(j).len()) as u128), op_flag),
    {
        // determine round constants at the specified x coordinate
        let num_cycles = (self.trace_length / HASH_CYCLE_LENGTH) as u128;
        let y = crate::math::field::exp(x, num_cycles);
        let mut ark = [ZERO; 12];
        let mut i: usize = 0;
        while i < 12
            invariant
                i <= 12,
                self.wf(),
                y == f_exp(x as int, (self.spec_trace_length() / 16) as nat),
                forall|j: int| 0 <= j < i ==> ark@[j] == poly_eval(self.ark_poly(j), y as int, self.ark_poly(j).len()),
            decreases 12 - i,
        {
            ark[i] = eval(self.ark_polys[i].as_slice(), y);
            i = i + 1;
        }
        assert(ark@ =~= Seq::new(12, |j: int| poly_eval(self.ark_poly(j), f_exp(x as int, (self.spec_trace_length() / 16) as nat) as int, self.ark_poly(j).len()) as u128));

        // evaluate constraints for the hash function and for the rest of the stack
        self.eval_hash(current, next, &ark, op_flag, result);
        self.eval_rest(current, next, op_flag, result);
    }

    /// Evaluates the constraints of one round of the hash function, whose state sits in
    /// registers `1..=HASH_STATE_WIDTH` of the user stack, into `result[1..]`.
    fn eval_hash(&self, current: &[u128], next: &[u128], ark: &[u128; 12], op_flag: u128, result: &mut [u128])
        requires
            current@.len() >= 1 + HASH_STATE_WIDTH,
            next@.len() >= 1 + HASH_STATE_WIDTH,
            old(result)@.len() >= 1,
        ensures
            final(result)@ == Seq::new(old(result)@.len(), |i: int| if 1 <= i <= HASH_STATE_WIDTH {
                agg(old(result)@[i], op_flag, rescr_constraints(current@.subrange(1, 1 + HASH_STATE_WIDTH as int), next@.subrange(1, 1 + HASH_STATE_WIDTH as int), ark@)[i - 1])
            } else {
                old(result)@[i]
            }),
    {
        let ghost r0 = result@;
        let ghost cur = current@.subrange(1, 1 + HASH_STATE_WIDTH as int);
        let ghost nxt = next@.subrange(1, 1 + HASH_STATE_WIDTH as int);

        // evaluate the first half of the round
        let mut state_part1 = [ZERO; HASH_STATE_WIDTH];
        let mut i: usize = 0;
        while i < HASH_STATE_WIDTH
            invariant
                i <= HASH_STATE_WIDTH,
                current@.len() >= 1 + HASH_STATE_WIDTH,
                cur == current@.subrange(1, 1 + HASH_STATE_WIDTH as int),
                forall|j: int| 0 <= j < i ==> state_part1@[j] == add_ark(cur, ark@, 0)[j],
            decreases HASH_STATE_WIDTH - i,
        {
            state_part1[i] = crate::math::field::add(current[i + 1], ark[i]);
            i = i + 1;
        }
        assert(state_part1@ =~= add_ark(cur, ark@, 0));
        apply_sbox(&mut state_part1);
        apply_mds(&mut state_part1);

        // evaluate the inverse of the second half of the round
        let mut state_part2 = [ZERO; HASH_STATE_WIDTH];
        let mut i: usize = 0;
        while i < HASH_STATE_WIDTH
            invariant
                i <= HASH_STATE_WIDTH,
                next@.len() >= 1 + HASH_STATE_WIDTH,
                nxt == next@.subrange(1, 1 + HASH_STATE_WIDTH as int),
                forall|j: int| 0 <= j < i ==> state_part2@[j] == nxt[j],
            decreases HASH_STATE_WIDTH - i,
        {
            state_part2[i] = next[i + 1];
            i = i + 1;
        }
        assert(state_part2@ =~= nxt.subrange(0, HASH_STATE_WIDTH as int));
        apply_inv_mds(&mut state_part2);
        apply_sbox(&mut state_part2);
        sub_constants(&mut state_part2, ark, HASH_STATE_WIDTH);

        // aggregate the differences into the registers holding the hash state
        let ghost expected = rescr_constraints(cur, nxt, ark@);
        let n = if result.len() - 1 < HASH_STATE_WIDTH { result.len() - 1 } else { HASH_STATE_WIDTH };
        let mut i: usize = 0;
        while i < n
            invariant
                i <= n,
                n <= HASH_STATE_WIDTH,
                n == (if r0.len() - 1 < HASH_STATE_WIDTH { r0.len() - 1 } else { HASH_STATE_WIDTH as int }),
                result@.len() == r0.len(),
                expected.len() == HASH_STATE_WIDTH,
                forall|j: int| 0 <= j < HASH_STATE_WIDTH ==> expected[j] == crate::stark::constraints::utils::spec_are_equal(state_part2@[j], state_part1@[j]),
                forall|j: int| 0 <= j < r0.len() ==> result@[j] == (if 1 <= j <= i {
                    agg(r0[j], op_flag, expected[j - 1])
                } else {
                    r0[j]
                }),
            decreases n - i,
        {
            result.agg_constraint(i + 1, op_flag, are_equal(state_part2[i], state_part1[i]));
            i = i + 1;
        }
        assert(result@ =~= Seq::new(r0.len(), |j: int| if 1 <= j <= HASH_STATE_WIDTH {
            agg(r0[j], op_flag, expected[j - 1])
        } else {
            r0[j]
        }));
    }

    /// Evaluates the constraints that the registers above the hash state do not change.
    fn eval_rest(&self, current: &[u128], next: &[u128], op_flag: u128, result: &mut [u128])
        requires
            old(result)@.len() <= current@.len(),
            old(result)@.len() <= next@.len(),
        ensures
            final(result)@ == agg_eq_range(old(result)@, 1 + HASH_STATE_WIDTH as int, old(result)@.len() as int,
                next@, 1 + HASH_STATE_WIDTH as int, current@, 1 + HASH_STATE_WIDTH as int, op_flag),
    {
        let n = result.len();
        if n > 1 + HASH_STATE_WIDTH {
            enforce_no_change_range(result, 1 + HASH_STATE_WIDTH, n, current, 1 + HASH_STATE_WIDTH, next, 1 + HASH_STATE_WIDTH, op_flag);
        } else {
            assert(result@ =~= agg_eq_range(result@, 1 + HASH_STATE_WIDTH as int, n as int,
                next@, 1 + HASH_STATE_WIDTH as int, current@, 1 + HASH_STATE_WIDTH as int, op_flag));
        }
    }
}

} // verus!
