use vstd::prelude::*;
use crate::math::field::{ f_exp, ZERO };
use crate::math::polynom::{ poly_eval, inverse_dft };
use crate::utils::sponge::ARK;
use crate::stark::trace::trace_state2::SPONGE_WIDTH;
use crate::stark::constraints::utils::extend_constants;

pub mod sponge;

verus! {

/// Transposes round constants given as `2 * SPONGE_WIDTH` rows of at least `cycle_length`
/// values into `cycle_length` rows of `2 * SPONGE_WIDTH` values: entry `j` of row `i` is entry
/// `i` of input row `j`.
pub fn transpose_ark_constants(constants: Vec<Vec<u128>>, cycle_length: usize) -> (r: Vec<[u128; 8]>)
    requires
        constants@.len() >= 2 * SPONGE_WIDTH,
        forall|j: int| 0 <= j < 2 * SPONGE_WIDTH ==> (#[trigger] constants@[j])@.len() >= cycle_length,
    ensures
        r@.len() == cycle_length,
        forall|i: int, j: int| 0 <= i < cycle_length && 0 <= j < 2 * SPONGE_WIDTH ==> (#[trigger] r@[i]@[j]) == constants@[j]@[i],
{
    let mut values: Vec<[u128; 8]> = Vec::new();
    let mut i: usize = 0;
    while i < cycle_length
        invariant
            i <= cycle_length,
            values@.len() == i,
            constants@.len() >= 2 * SPONGE_WIDTH,
            forall|j: int| 0 <= j < 2 * SPONGE_WIDTH ==> (#[trigger] constants@[j])@.len() >= cycle_length,
            forall|a: int, j: int| 0 <= a < i && 0 <= j < 2 * SPONGE_WIDTH ==> (#[trigger] values@[a]@[j]) == constants@[j]@[a],
        decreases cycle_length - i,
    {
        let mut row = [ZERO; 8];
        let mut j: usize = 0;
        while j < 2 * SPONGE_WIDTH
            invariant
                j <= 2 * SPONGE_WIDTH,
                i < cycle_length,
                constants@.len() >= 2 * SPONGE_WIDTH,
                forall|k: int| 0 <= k < 2 * SPONGE_WIDTH ==> (#[trigger] constants@[k])@.len() >= cycle_length,
                forall|k: int| 0 <= k < j ==> row@[k] == constants@[k]@[i as int],
            decreases 2 * SPONGE_WIDTH - j,
        {
            row[j] = constants[j][i];
            j = j + 1;
        }
        values.push(row);
        i = i + 1;
    }
    values
}

// CONSTANTS
// ================================================================================================

/// Number of constraints on the operation bits and the operation counter.
pub const NUM_OP_CONSTRAINTS: usize = 15usize;

/// Degrees of the constraints on the operation bits and the operation counter.
pub const OP_CONSTRAINT_DEGREES: [usize; 15] = [
    2, 2, 2, 2, 2, 2, 2, 2, 2, 2,   // all op bits are binary
    3,                              // op_counter should be incremented for HACC operations
    8,                              // ld_ops and hd_ops cannot be all 0s
    8,                              // when cf_ops are not all 0s, ld_ops and hd_ops must be all 1s
    6,                              // VOID can be followed only by VOID
    4,                              // operations happen on allowed step multiples
];

/// Number of constraints on the sponge.
pub const NUM_SPONGE_CONSTRAINTS: usize = 4usize;

/// Degrees of the sponge transition constraints.
pub const SPONGE_CONSTRAINT_DEGREES: [usize; 4] = [6, 7, 6, 6];

/// Degree of the loop image constraint.
pub const LOOP_IMAGE_CONSTRAINT_DEGREE: usize = 4usize;

/// Degree of the constraints on the context and loop stacks.
pub const STACK_CONSTRAINT_DEGREE: usize = 4usize;

/// Number of decoder constraints that do not depend on the depths of the stacks.
pub const NUM_STATIC_DECODER_CONSTRAINTS: usize = 20usize;

/// Smallest number of context stack registers in a trace.
pub const MIN_CONTEXT_DEPTH: usize = 1usize;

/// Smallest number of loop stack registers in a trace.
pub const MIN_LOOP_DEPTH: usize = 1usize;

/// Number of steps in one cycle of constants.
pub const BASE_CYCLE_LENGTH: usize = 16usize;

/// Cycle masks: steps that are multiples of 16, steps one less than a multiple of 16, and steps
/// that are multiples of 8.
pub const MASKS: [[u128; 16]; 3] = [
    [0, 1, 1, 1, 1, 1, 1, 1, 1, 1, 1, 1, 1, 1, 1, 1],   // multiples of 16
    [1, 1, 1, 1, 1, 1, 1, 1, 1, 1, 1, 1, 1, 1, 1, 0],   // one less than multiple of 16
    [0, 1, 1, 1, 1, 1, 1, 1, 0, 1, 1, 1, 1, 1, 1, 1],   // multiples of 8
];

// DECODER
// ================================================================================================

/// Decoder constraint evaluator: the degrees of its constraints, and the round constants of the
/// sponge and the cycle masks, extended over the evaluation domain.
pub struct Decoder {
    ctx_depth: usize,
    loop_depth: usize,
    trace_length: usize,
    cycle_length: usize,
    ark_values: Vec<[u128; 8]>,
    ark_polys: Vec<Vec<u128>>,
    mask_values: Vec<[u128; 3]>,
    mask_polys: Vec<Vec<u128>>,
    constraint_degrees: Vec<usize>,
}

/// The degrees of the decoder's constraints for the given stack depths: the static constraints,
/// then one constraint per context and loop register, with at least the minimal depths.
pub open spec fn decoder_degrees(ctx_depth: nat, loop_depth: nat) -> Seq<usize> {
    let c = if ctx_depth > MIN_CONTEXT_DEPTH { ctx_depth } else { MIN_CONTEXT_DEPTH as nat };
    let l = if loop_depth > MIN_LOOP_DEPTH { loop_depth } else { MIN_LOOP_DEPTH as nat };
    OP_CONSTRAINT_DEGREES@ + SPONGE_CONSTRAINT_DEGREES@ + seq![LOOP_IMAGE_CONSTRAINT_DEGREE]
        + Seq::new(c + l, |i: int| STACK_CONSTRAINT_DEGREE)
}

impl Decoder {
    /// The evaluator's invariant: one row of round constants and masks per step of the
    /// extended cycle.
    pub closed spec fn wf(&self) -> bool {
        &&& self.cycle_length > 0
        &&& self.ark_values@.len() == self.cycle_length
        &&& self.mask_values@.len() == self.cycle_length
        &&& self.ark_polys@.len() == 2 * SPONGE_WIDTH
        &&& self.mask_polys@.len() == 3
    }

    /// The context stack depth.
    pub closed spec fn spec_ctx_depth(&self) -> nat {
        self.ctx_depth as nat
    }

    /// The loop stack depth.
    pub closed spec fn spec_loop_depth(&self) -> nat {
        self.loop_depth as nat
    }

    /// The length of the execution trace.
    pub closed spec fn spec_trace_length(&self) -> nat {
        self.trace_length as nat
    }

    /// The degrees of the constraints.
    pub closed spec fn degrees(&self) -> Seq<usize> {
        self.constraint_degrees@
    }

    /// The round constants used at step `i` of the evaluation domain.
    pub closed spec fn ark_at(&self, i: int) -> Seq<u128> {
        self.ark_values@[i % (self.cycle_length as int)]@
    }

    /// The cycle masks used at step `i` of the evaluation domain.
    pub closed spec fn masks_at(&self, i: int) -> Seq<u128> {
        self.mask_values@[i % (self.cycle_length as int)]@
    }

    /// The coefficients of the polynomial of the `j`-th round constant.
    pub closed spec fn ark_poly(&self, j: int) -> Seq<u128> {
        self.ark_polys@[j]@
    }

    /// The coefficients of the polynomial of the `j`-th cycle mask.
    pub closed spec fn mask_poly(&self, j: int) -> Seq<u128> {
        self.mask_polys@[j]@
    }

    /// Builds the evaluator for a trace of `trace_length` steps extended by `extension_factor`,
    /// with the given context and loop stack depths.
    pub fn new(trace_length: usize, extension_factor: usize, ctx_depth: usize, loop_depth: usize) -> (r: Decoder)
        requires
            exists|k: nat| k <= 36 && vstd::arithmetic::power2::pow2(k) == extension_factor,
            16 * extension_factor <= usize::MAX,
            ctx_depth + loop_depth <= usize::MAX - NUM_STATIC_DECODER_CONSTRAINTS - 2,
        ensures
            r.wf(),
            r.spec_ctx_depth() == ctx_depth,
            r.spec_loop_depth() == loop_depth,
            r.spec_trace_length() == trace_length,
            r.degrees() == decoder_degrees(ctx_depth as nat, loop_depth as nat),
            forall|j: int| 0 <= j < 2 * SPONGE_WIDTH ==>
                #[trigger] r.ark_poly(j) == inverse_dft(ARK@[j]@, crate::math::field::root_of_order(16), 16),
            forall|j: int| 0 <= j < 3 ==>
                #[trigger] r.mask_poly(j) == inverse_dft(MASKS@[j]@, crate::math::field::root_of_order(16), 16),
            forall|i: int, j: int| 0 <= i < 16 * extension_factor && 0 <= j < 2 * SPONGE_WIDTH ==>
                #[trigger] r.ark_at(i)[j] == poly_eval(r.ark_poly(j), f_exp(crate::math::field::root_of_order((16 * extension_factor) as nat), i as nat), 16),
            forall|i: int, j: int| 0 <= i < 16 * extension_factor && 0 <= j < 3 ==>
                #[trigger] r.masks_at(i)[j] == poly_eval(r.mask_poly(j), f_exp(crate::math::field::root_of_order((16 * extension_factor) as nat), i as nat), 16),
    {
        // build an array of constraint degrees for the decoder
        let mut degrees: Vec<usize> = Vec::new();
        let mut i: usize = 0;
        while i < NUM_OP_CONSTRAINTS
            invariant
                i <= NUM_OP_CONSTRAINTS,
                degrees@ == OP_CONSTRAINT_DEGREES@.subrange(0, i as int),
            decreases NUM_OP_CONSTRAINTS - i,
        {
            degrees.push(OP_CONSTRAINT_DEGREES[i]);
            i = i + 1;
            assert(degrees@ =~= OP_CONSTRAINT_DEGREES@.subrange(0, i as int));
        }
        let mut i: usize = 0;
        while i < NUM_SPONGE_CONSTRAINTS
            invariant
                i <= NUM_SPONGE_CONSTRAINTS,
                degrees@ == OP_CONSTRAINT_DEGREES@ + SPONGE_CONSTRAINT_DEGREES@.subrange(0, i as int),
            decreases NUM_SPONGE_CONSTRAINTS - i,
        {
            degrees.push(SPONGE_CONSTRAINT_DEGREES[i]);
            i = i + 1;
            assert(degrees@ =~= OP_CONSTRAINT_DEGREES@ + SPONGE_CONSTRAINT_DEGREES@.subrange(0, i as int));
        }
        assert(SPONGE_CONSTRAINT_DEGREES@.subrange(0, 4) =~= SPONGE_CONSTRAINT_DEGREES@);
        assert(OP_CONSTRAINT_DEGREES@.subrange(0, 15) =~= OP_CONSTRAINT_DEGREES@);
        degrees.push(LOOP_IMAGE_CONSTRAINT_DEGREE);
        let c = if ctx_depth > MIN_CONTEXT_DEPTH { ctx_depth } else { MIN_CONTEXT_DEPTH };
        let l = if loop_depth > MIN_LOOP_DEPTH { loop_depth } else { MIN_LOOP_DEPTH };
        let n = c + l;
        let ghost base = degrees@;
        let mut i: usize = 0;
        while i < n
            invariant
                i <= n,
                degrees@ == base + Seq::new(i as nat, |k: int| STACK_CONSTRAINT_DEGREE),
            decreases n - i,
        {
            degrees.push(STACK_CONSTRAINT_DEGREE);
            i = i + 1;
            assert(degrees@ =~= base + Seq::new(i as nat, |k: int| STACK_CONSTRAINT_DEGREE));
        }
        assert(degrees@ =~= decoder_degrees(ctx_depth as nat, loop_depth as nat));

        // determine extended cycle length
        let cycle_length = BASE_CYCLE_LENGTH * extension_factor;

        // extend rounds constants by the specified extension factor
        let (ark_polys, ark_evaluations) = extend_constants(ARK.as_slice(), extension_factor);
        let ghost ark_evals = ark_evaluations@;
        let ark_values = transpose_ark_constants(ark_evaluations, cycle_length);

        // extend mask constants by the specified extension factor
        let (mask_polys, mask_evaluations) = extend_constants(MASKS.as_slice(), extension_factor);
        let ghost mask_evals = mask_evaluations@;
        let mask_values = transpose_mask_constants(mask_evaluations, cycle_length);

        let r = Decoder {
            ctx_depth, loop_depth, trace_length, cycle_length,
            ark_values, ark_polys, mask_values, mask_polys,
            constraint_degrees: degrees,
        };
        proof {
            assert(extension_factor >= 1) by {
                let k = choose|k: nat| k <= 36 && vstd::arithmetic::power2::pow2(k) == extension_factor;
                vstd::arithmetic::power2::lemma_pow2_pos(k);
            }
            assert forall|i: int, j: int| 0 <= i < 16 * extension_factor && 0 <= j < 2 * SPONGE_WIDTH implies
                #[trigger] r.ark_at(i)[j] == poly_eval(r.ark_poly(j), f_exp(crate::math::field::root_of_order((16 * extension_factor) as nat), i as nat), 16) by {
                vstd::arithmetic::div_mod::lemma_small_mod(i as nat, cycle_length as nat);
                assert(r.ark_at(i)[j] == ark_evals[j]@[i]);
            }
            assert forall|i: int, j: int| 0 <= i < 16 * extension_factor && 0 <= j < 3 implies
                #[trigger] r.masks_at(i)[j] == poly_eval(r.mask_poly(j), f_exp(crate::math::field::root_of_order((16 * extension_factor) as nat), i as nat), 16) by {
                vstd::arithmetic::div_mod::lemma_small_mod(i as nat, cycle_length as nat);
                assert(r.masks_at(i)[j] == mask_evals[j]@[i]);
            }
        }
        r
    }

    /// The depth of the context stack.
    pub fn ctx_depth(&self) -> (r: usize)
        ensures
            r == self.spec_ctx_depth(),
    {
        self.ctx_depth
    }

    /// The depth of the loop stack.
    pub fn loop_depth(&self) -> (r: usize)
        ensures
            r == self.spec_loop_depth(),
    {
        self.loop_depth
    }

    /// The number of decoder constraints.
    pub fn constraint_count(&self) -> (r: usize)
        ensures
            r == self.degrees().len(),
    {
        self.constraint_degrees.len()
    }

    /// The degrees of the decoder constraints.
    pub fn constraint_degrees(&self) -> (r: &[usize])
        ensures
            r@ == self.degrees(),
    {
        self.constraint_degrees.as_slice()
    }
}

/// Transposes cycle masks given as 3 rows of at least `cycle_length` values into `cycle_length`
/// rows of 3 values: entry `j` of row `i` is entry `i` of input row `j`.
fn transpose_mask_constants(constants: Vec<Vec<u128>>, cycle_length: usize) -> (r: Vec<[u128; 3]>)
    requires
        constants@.len() >= 3,
        forall|j: int| 0 <= j < 3 ==> (#[trigger] constants@[j])@.len() >= cycle_length,
    ensures
        r@.len() == cycle_length,
        forall|i: int, j: int| 0 <= i < cycle_length && 0 <= j < 3 ==> (#[trigger] r@[i]@[j]) == constants@[j]@[i],
{
    let mut values: Vec<[u128; 3]> = Vec::new();
    let mut i: usize = 0;
    while i < cycle_length
        invariant
            i <= cycle_length,
            values@.len() == i,
            constants@.len() >= 3,
            forall|j: int| 0 <= j < 3 ==> (#[trigger] constants@[j])@.len() >= cycle_length,
            forall|a: int, j: int| 0 <= a < i && 0 <= j < 3 ==> (#[trigger] values@[a]@[j]) == constants@[j]@[a],
        decreases cycle_length - i,
    {
        let row = [constants[0][i], constants[1][i], constants[2][i]];
        values.push(row);
        i = i + 1;
    }
    values
}

} // verus!
