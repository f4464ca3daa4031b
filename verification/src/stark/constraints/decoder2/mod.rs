use vstd::prelude::*;
use crate::math::field::{ f_exp, f_mul, ZERO };
use crate::math::polynom::{ poly_eval, eval };
use crate::opcodes;
use crate::utils::sponge::ARK;
use crate::stark::trace::trace_state2::{ TraceState, spec_cf_op_flags, spec_op_code, spec_hd_op_flags, SPONGE_WIDTH };
use crate::stark::constraints::utils::extend_constants;
use crate::stark::constraints::decoder::transpose_ark_constants;
use crate::stark::constraints::decoder::sponge::hacc_constraints;

pub mod flow_ops;
pub mod op_bits;
pub mod sponge;

use flow_ops::{
    enforce_begin, enforce_tend, enforce_fend, enforce_loop, enforce_wrap, enforce_break, enforce_void,
    begin_constraints, tend_constraints, fend_constraints, loop_constraints, wrap_constraints,
    break_constraints, void_constraints,
};
use op_bits::{ enforce_op_bits, op_bit_constraints };
use sponge::enforce_hacc;

verus! {

// CONSTANTS
// ================================================================================================

/// Number of constraints on operation bits.
pub const NUM_OP_CONSTRAINTS: usize = 20usize;

/// Degrees of the constraints on operation bits.
pub const OP_CONSTRAINT_DEGREES: [usize; 20] = [
    2, 2, 2, 2, 2, 2, 2, 2, 2, 2,   // all op bits are binary
    7,                              // ld_ops and hd_ops cannot be all 0s
    8,                              // when cf_ops are not all 0s, ld_ops and hd_ops must be all 1s
    3,                              // PUSH is allowed only on multiples of 8
    2,                              // VOID can be followed only by VOID
    4, 4, 4, 4, 4, 4,               // cf_ops are aligned correctly
];

/// Number of constraints on the sponge.
pub const NUM_SPONGE_CONSTRAINTS: usize = 4usize;

/// Degrees of the constraints on the sponge.
pub const SPONGE_CONSTRAINT_DEGREES: [usize; 4] = [6, 6, 6, 6];

/// Degree of the constraints on the context and loop stacks.
pub const STACK_CONSTRAINT_DEGREE: usize = 4usize;

/// Number of steps in one cycle of the sponge's round constants.
pub const SPONGE_CYCLE_LENGTH: usize = 16usize;

// SPECIFICATIONS
// ================================================================================================

/// The constraints of all flow control operations aggregated into `r`, each guarded by the flag
/// of its operation; the sponge round uses the constants `ark`.
pub open spec fn flow_constraints(r: Seq<u128>, current: &TraceState, next: &TraceState, ark: Seq<u128>) -> Seq<u128> {
    let flags = spec_cf_op_flags(current.cf_op_bits@);
    let op_value = f_mul(next.user_stack@[0] as int, spec_hd_op_flags(current.hd_op_bits@)[0] as int) as u128;
    let r0 = hacc_constraints(r, current.sponge@, next.sponge@, ark, spec_op_code(current.ld_op_bits@, current.hd_op_bits@), op_value, flags[opcodes::HACC as int]);
    let r1 = begin_constraints(r0, current, next, flags[opcodes::BEGIN_BLOCK as int]);
    let r2 = tend_constraints(r1, current, next, flags[opcodes::TEND as int]);
    let r3 = fend_constraints(r2, current, next, flags[opcodes::FEND as int]);
    let r4 = loop_constraints(r3, current, next, flags[opcodes::LOOP as int]);
    let r5 = wrap_constraints(r4, current, next, flags[opcodes::WRAP as int]);
    let r6 = break_constraints(r5, current, next, flags[opcodes::BREAK as int]);
    void_constraints(r6, current, next, flags[opcodes::VOID as int])
}

/// The evaluations of all decoder constraints written into `r`: the operation bit constraints
/// replace its first 12 values, and the flow control constraints are aggregated into the
/// values after the first 20.
pub open spec fn decoder_constraints(r: Seq<u128>, current: &TraceState, next: &TraceState, ark: Seq<u128>) -> Seq<u128> {
    op_bit_constraints(current) + r.subrange(12, NUM_OP_CONSTRAINTS as int)
        + flow_constraints(r.subrange(NUM_OP_CONSTRAINTS as int, r.len() as int), current, next, ark)
}

// TYPES AND INTERFACES
// ================================================================================================

/// Evaluator of the decoder's transition constraints.
pub struct Decoder {
    ctx_depth: usize,
    loop_depth: usize,
    trace_length: usize,
    ark_cycle_length: usize,
    ark_values: Vec<[u128; 8]>,
    ark_polys: Vec<Vec<u128>>,
    constraint_degrees: Vec<usize>,
}

// DECODER CONSTRAINT EVALUATOR IMPLEMENTATION
// ================================================================================================

impl Decoder {
    /// Whether the evaluator is consistent: its round constants cover one extended cycle and
    /// the polynomials of the 8 rows of constants are there.
    pub closed spec fn wf(&self) -> bool {
        &&& self.ark_cycle_length > 0
        &&& self.ark_values@.len() == self.ark_cycle_length
        &&& self.ark_polys@.len() == 2 * SPONGE_WIDTH
        &&& self.ctx_depth >= 1
    }

    /// The round constants of step `i` of the extended cycle.
    pub closed spec fn ark_at(&self, i: int) -> Seq<u128> {
        self.ark_values@[i % (self.ark_cycle_length as int)]@
    }

    /// The depth of the context stack.
    pub closed spec fn spec_ctx_depth(&self) -> nat {
        self.ctx_depth as nat
    }

    /// The depth of the loop stack.
    pub closed spec fn spec_loop_depth(&self) -> nat {
        self.loop_depth as nat
    }

    /// The polynomial of row `j` of the round constants.
    pub closed spec fn ark_poly(&self, j: int) -> Seq<u128> {
        self.ark_polys@[j]@
    }

    /// The number of steps of the execution trace.
    pub closed spec fn spec_trace_length(&self) -> nat {
        self.trace_length as nat
    }

    /// The degrees of the constraints.
    pub closed spec fn degrees(&self) -> Seq<usize> {
        self.constraint_degrees@
    }

    /// Builds the evaluator for a trace of `trace_length` steps whose evaluation domain is
    /// `extension_factor` times larger, with context and loop stacks of the given depths.
    pub fn new(trace_length: usize, extension_factor: usize, ctx_depth: usize, loop_depth: usize) -> (r: Decoder)
        requires
            exists|k: nat| k <= 36 && vstd::arithmetic::power2::pow2(k) == extension_factor,
            16 * extension_factor <= usize::MAX,
            ctx_depth >= 1,
            ctx_depth + loop_depth <= usize::MAX - 24,
        ensures
            r.wf(),
            r.spec_ctx_depth() == ctx_depth,
            r.spec_loop_depth() == loop_depth,
            r.spec_trace_length() == trace_length,
            r.degrees() == OP_CONSTRAINT_DEGREES@ + SPONGE_CONSTRAINT_DEGREES@
                + Seq::new((ctx_depth + loop_depth) as nat, |i: int| STACK_CONSTRAINT_DEGREE),
            forall|i: int, j: int| 0 <= i < 16 * extension_factor && 0 <= j < 8 ==>
                #[trigger] r.ark_at(i)[j] == poly_eval(r.ark_poly(j), f_exp(crate::math::field::root_of_order((16 * extension_factor) as nat), i as nat), 16),
    {
        let mut degrees: Vec<usize> = Vec::new();
        let mut i: usize = 0;
        while i < NUM_OP_CONSTRAINTS
            invariant
                i <= NUM_OP_CONSTRAINTS,
                degrees@ == OP_CONSTRAINT_DEGREES@.subrange(0, i as int),
            decreases NUM_OP_CONSTRAINTS - i,
        {
            degrees.push(OP_CONSTRAINT_DEGREES[i]);
            i = i + 1;
            assert(degrees@ =~= OP_CONSTRAINT_DEGREES@.subrange(0, i as int));
        }
        let mut i: usize = 0;
        while i < NUM_SPONGE_CONSTRAINTS
            invariant
                i <= NUM_SPONGE_CONSTRAINTS,
                degrees@ == OP_CONSTRAINT_DEGREES@ + SPONGE_CONSTRAINT_DEGREES@.subrange(0, i as int),
            decreases NUM_SPONGE_CONSTRAINTS - i,
        {
            degrees.push(SPONGE_CONSTRAINT_DEGREES[i]);
            i = i + 1;
            assert(degrees@ =~= OP_CONSTRAINT_DEGREES@ + SPONGE_CONSTRAINT_DEGREES@.subrange(0, i as int));
        }
        let n = ctx_depth + loop_depth;
        let mut i: usize = 0;
        while i < n
            invariant
                i <= n,
                degrees@ == OP_CONSTRAINT_DEGREES@ + SPONGE_CONSTRAINT_DEGREES@
                    + Seq::new(i as nat, |k: int| STACK_CONSTRAINT_DEGREE),
            decreases n - i,
        {
            degrees.push(STACK_CONSTRAINT_DEGREE);
            i = i + 1;
            assert(degrees@ =~= OP_CONSTRAINT_DEGREES@ + SPONGE_CONSTRAINT_DEGREES@
                + Seq::new(i as nat, |k: int| STACK_CONSTRAINT_DEGREE));
        }
        assert(SPONGE_CONSTRAINT_DEGREES@.subrange(0, 4) =~= SPONGE_CONSTRAINT_DEGREES@);
        assert(OP_CONSTRAINT_DEGREES@.subrange(0, 20) =~= OP_CONSTRAINT_DEGREES@);

        // extend rounds constants by the specified extension factor
        let (ark_polys, ark_evaluations) = extend_constants(ARK.as_slice(), extension_factor);
        let ghost evals = ark_evaluations@;
        let ark_cycle_length = SPONGE_CYCLE_LENGTH * extension_factor;
        let ark_values = transpose_ark_constants(ark_evaluations, ark_cycle_length);
        let r = Decoder { ctx_depth, loop_depth, trace_length, ark_cycle_length, ark_values, ark_polys, constraint_degrees: degrees };
        proof {
            assert(extension_factor >= 1) by {
                let k = choose|k: nat| k <= 36 && vstd::arithmetic::power2::pow2(k) == extension_factor;
                vstd::arithmetic::power2::lemma_pow2_pos(k);
            }
            assert forall|i: int, j: int| 0 <= i < 16 * extension_factor && 0 <= j < 8 implies
                #[trigger] r.ark_at(i)[j] == poly_eval(r.ark_poly(j), f_exp(crate::math::field::root_of_order((16 * extension_factor) as nat), i as nat), 16) by {
                vstd::arithmetic::div_mod::lemma_small_mod(i as nat, ark_cycle_length as nat);
                assert(i % (ark_cycle_length as int) == i);
                assert(r.ark_at(i)[j] == evals[j]@[i]);
            }
        }
        r
    }

    /// Returns the depth of the context stack.
    pub fn ctx_depth(&self) -> (r: usize)
        ensures
            r == self.spec_ctx_depth(),
    {
        self.ctx_depth
    }

    /// Returns the depth of the loop stack.
    pub fn loop_depth(&self) -> (r: usize)
        ensures
            r == self.spec_loop_depth(),
    {
        self.loop_depth
    }

    /// Returns the degrees of the constraints.
    pub fn constraint_degrees(&self) -> (r: &[usize])
        ensures
            r@ == self.degrees(),
    {
        self.constraint_degrees.as_slice()
    }

    /// Evaluates the decoder's transition constraints at step `step` of the evaluation domain
    /// into `result`.
    pub fn evaluate(&self, current: &TraceState, next: &TraceState, step: usize, result: &mut [u128])
        requires
            self.wf(),
            current.ctx_stack@.len() == self.spec_ctx_depth(),
            next.ctx_stack@.len() == self.spec_ctx_depth(),
            current.loop_stack@.len() == self.spec_loop_depth(),
            next.loop_stack@.len() == self.spec_loop_depth(),
            next.user_stack@.len() >= 1,
            old(result)@.len() >= NUM_OP_CONSTRAINTS + SPONGE_WIDTH + self.spec_ctx_depth() + self.spec_loop_depth(),
        ensures
            final(result)@ == decoder_constraints(old(result)@, current, next, self.ark_at(step as int)),
    {
        // determine round constants at the specified step
        let ark = self.ark_values[step % self.ark_cycle_length];
        self.evaluate_with(current, next, &ark, result);
    }

    /// Evaluates the decoder's transition constraints at the point `x` into `result`; the round
    /// constants are the values of their polynomials at `x^(trace_length / 16)`.
    pub fn evaluate_at(&self, current: &TraceState, next: &TraceState, x: u128, result: &mut [u128])
        requires
            self.wf(),
            current.ctx_stack@.len() == self.spec_ctx_depth(),
            next.ctx_stack@.len() == self.spec_ctx_depth(),
            current.loop_stack@.len() == self.spec_loop_depth(),
            next.loop_stack@.len() == self.spec_loop_depth(),
            next.user_stack@.len() >= 1,
            old(result)@.len() >= NUM_OP_CONSTRAINTS + SPONGE_WIDTH + self.spec_ctx_depth() + self.spec_loop_depth(),
        ensures
            final(result)@ == decoder_constraints(old(result)@, current, next,
                Seq::new(8, |j: int| poly_eval(self.ark_poly(j), f_exp(x as int, (self.spec_trace_length() / 16) as nat) as int, self.ark_poly(j).len()) as u128)),
    {
        // map x to the corresponding coordinate in constant cycles
        let num_cycles = (self.trace_length / SPONGE_CYCLE_LENGTH) as u128;
        let y = crate::math::field::exp(x, num_cycles);

        // determine round constants at the specified x coordinate
        let mut ark = [ZERO; 8];
        let mut i: usize = 0;
        while i < 8
            invariant
                i <= 8,
                self.wf(),
                y == f_exp(x as int, (self.spec_trace_length() / 16) as nat),
                forall|j: int| 0 <= j < i ==> ark@[j] == poly_eval(self.ark_poly(j), y as int, self.ark_poly(j).len()),
            decreases 8 - i,
        {
            ark[i] = eval(self.ark_polys[i].as_slice(), y);
            i = i + 1;
        }
        assert(ark@ =~= Seq::new(8, |j: int| poly_eval(self.ark_poly(j), f_exp(x as int, (self.spec_trace_length() / 16) as nat) as int, self.ark_poly(j).len()) as u128));
        self.evaluate_with(current, next, &ark, result);
    }

    /// Evaluates the decoder's transition constraints with the round constants `ark`.
    fn evaluate_with(&self, current: &TraceState, next: &TraceState, ark: &[u128; 8], result: &mut [u128])
        requires
            current.ctx_stack@.len() == self.spec_ctx_depth(),
            next.ctx_stack@.len() == self.spec_ctx_depth(),
            current.loop_stack@.len() == self.spec_loop_depth(),
            next.loop_stack@.len() == self.spec_loop_depth(),
            self.spec_ctx_depth() >= 1,
            next.user_stack@.len() >= 1,
            old(result)@.len() >= NUM_OP_CONSTRAINTS + SPONGE_WIDTH + self.spec_ctx_depth() + self.spec_loop_depth(),
        ensures
            final(result)@ == decoder_constraints(old(result)@, current, next, ark@),
    {
        let (ops, flow) = result.split_at_mut(NUM_OP_CONSTRAINTS);

        // evaluate constraints for decoding op codes
        enforce_op_bits(ops, current, next);

        // evaluate constraints for flow control operations
        evaluate_flow(flow, current, next, ark);
    }
}

/// Aggregates the constraints of all flow control operations into `result`.
fn evaluate_flow(result: &mut [u128], current: &TraceState, next: &TraceState, ark: &[u128; 8])
    requires
        current.ctx_stack@.len() >= 1,
        next.ctx_stack@.len() == current.ctx_stack@.len(),
        next.loop_stack@.len() == current.loop_stack@.len(),
        next.user_stack@.len() >= 1,
        old(result)@.len() >= SPONGE_WIDTH + current.ctx_stack@.len() + current.loop_stack@.len(),
    ensures
        final(result)@ == flow_constraints(old(result)@, current, next, ark@),
{
    let flow = result;
    {
        let op_flags = current.cf_op_flags();
        enforce_hacc(flow, current, next, ark.as_slice(), op_flags[opcodes::HACC]);
        enforce_begin(flow, current, next, op_flags[opcodes::BEGIN_BLOCK]);
        enforce_tend(flow, current, next, op_flags[opcodes::TEND]);
        enforce_fend(flow, current, next, op_flags[opcodes::FEND]);
        enforce_loop(flow, current, next, op_flags[opcodes::LOOP]);
        enforce_wrap(flow, current, next, op_flags[opcodes::WRAP]);
        enforce_break(flow, current, next, op_flags[opcodes::BREAK]);
        enforce_void(flow, current, next, op_flags[opcodes::VOID]);
    }
}

} // verus!
