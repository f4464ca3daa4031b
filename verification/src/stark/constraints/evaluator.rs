use vstd::prelude::*;
use crate::math::field::{ f_add, f_sub, f_mul, f_exp, root_of_order, ZERO, ONE, MODULUS };
use super::utils::{ all_canonical, lemma_sub_zero_equal };
use crate::programs::PROGRAM_DIGEST_SIZE;
use crate::stark::options::MAX_CONSTRAINT_DEGREE;
use crate::stark::trace::TraceState;
use crate::stark::trace::trace_state2::copy_range;
use super::decoder::{ Decoder, decoder_degrees, NUM_STATIC_DECODER_CONSTRAINTS };
use super::stack::{ Stack, AUX_CONSTRAINT_DEGREES, STACK_TRANSITION_DEGREE, NUM_AUX_CONSTRAINTS };

verus! {

// SPECIFICATIONS
// ================================================================================================

/// The indices, in increasing order, of the constraints of degree `d` among the first `n`.
pub open spec fn indices_of_degree(degrees: Seq<usize>, d: nat, n: nat) -> Seq<usize>
    decreases n,
{
    if n == 0 {
        seq![]
    } else {
        let prev = indices_of_degree(degrees, d, (n - 1) as nat);
        if degrees[n - 1] == d { prev.push((n - 1) as usize) } else { prev }
    }
}

/// Target degree of the transition constraints of a trace of `trace_length` steps: after
/// division by the transition divisor (of degree `trace_length - 1`) the degree equals that of
/// the combination domain less that of the trace.
pub open spec fn transition_target_degree(trace_length: nat) -> nat {
    ((MAX_CONSTRAINT_DEGREE - 1) * trace_length + (trace_length - 1)) as nat
}

/// Target degree of the boundary constraints of a trace of `trace_length` steps: after division
/// by the boundary divisor (of degree 1) the degree equals that of the combination domain less
/// that of the trace.
pub open spec fn boundary_target_degree(trace_length: nat) -> nat {
    ((MAX_CONSTRAINT_DEGREE - 1) * trace_length + 1) as nat
}

/// The constraints grouped by degree, for the degrees below `upto` that some constraint has, in
/// increasing order of degree: each group holds the degree by which its constraints are raised to
/// the target degree, and their indices.
pub open spec fn degree_groups(degrees: Seq<usize>, trace_length: nat, upto: nat) -> Seq<(u128, Seq<usize>)>
    decreases upto,
{
    if upto == 0 {
        seq![]
    } else {
        let d = (upto - 1) as nat;
        let prev = degree_groups(degrees, trace_length, d);
        let g = indices_of_degree(degrees, d, degrees.len());
        if g.len() == 0 {
            prev
        } else {
            prev.push(((transition_target_degree(trace_length) - (trace_length - 1) * d) as u128, g))
        }
    }
}

/// The two running sums of `vals[i] * cc[2 * i]` and of `vals[i] * cc[2 * i + 1]` over the first
/// `n` values, in the field.
pub open spec fn linear_combination(vals: Seq<u128>, cc: Seq<u128>, n: nat) -> (int, int)
    decreases n,
{
    if n == 0 {
        (0, 0)
    } else {
        let p = linear_combination(vals, cc, (n - 1) as nat);
        let i = n - 1;
        (f_add(p.0, f_mul(vals[i] as int, cc[2 * i] as int)), f_add(p.1, f_mul(vals[i] as int, cc[2 * i + 1] as int)))
    }
}

/// The combination of the boundary constraint values `vals` with the coefficients `cc`: the
/// first running sum plus the second one raised in degree by `xp`.
pub open spec fn boundary_combination(vals: Seq<u128>, cc: Seq<u128>, xp: int) -> u128 {
    let p = linear_combination(vals, cc, vals.len());
    f_add(p.0, f_mul(p.1, xp)) as u128
}

/// The values of the boundary constraints at the first step: the sponge registers must be zero
/// and the top of the user stack must hold the inputs.
pub open spec fn initial_boundary_values(current: &TraceState, inputs: Seq<u128>) -> Seq<u128> {
    current.sponge@ + Seq::new(inputs.len(), |i: int| f_sub(current.user_stack@[i] as int, inputs[i] as int) as u128)
}

/// The values `v - 1` of the given registers.
pub open spec fn less_one(v: Seq<u128>) -> Seq<u128> {
    Seq::new(v.len(), |i: int| f_sub(v[i] as int, 1) as u128)
}

/// The values of the boundary constraints at the last step: the flow control bits, the
/// low-degree operation bits and the high-degree operation bits must be ones, the sponge must
/// hold the program hash, the top of the user stack must hold the outputs, and the operation
/// counter the operation count.
pub open spec fn final_boundary_values(current: &TraceState, program_hash: Seq<u128>, outputs: Seq<u128>, op_count: u128) -> Seq<u128> {
    less_one(current.cf_op_bits@) + less_one(current.ld_op_bits@) + less_one(current.hd_op_bits@)
        + Seq::new(program_hash.len(), |i: int| f_sub(current.sponge@[i] as int, program_hash[i] as int) as u128)
        + Seq::new(outputs.len(), |i: int| f_sub(current.user_stack@[i] as int, outputs[i] as int) as u128)
        + seq![f_sub(current.op_counter as int, op_count as int) as u128]
}

/// The number of constraints in the first `n` degree groups.
pub open spec fn grouped_count(groups: Seq<(u128, Seq<usize>)>, n: nat) -> nat
    decreases n,
{
    if n == 0 { 0 } else { grouped_count(groups, (n - 1) as nat) + groups[n - 1].1.len() }
}

/// The two running sums over the first `n` constraints `idx` of a degree group, starting from
/// `acc` and zero: the value `ev[idx[k]]` times `cc[2 * (i0 + k)]`, and times
/// `cc[2 * (i0 + k) + 1]`, in the field.
pub open spec fn group_sums(acc: int, ev: Seq<u128>, idx: Seq<usize>, cc: Seq<u128>, i0: int, n: nat) -> (int, int)
    decreases n,
{
    if n == 0 {
        (acc, 0)
    } else {
        let p = group_sums(acc, ev, idx, cc, i0, (n - 1) as nat);
        let k = n - 1;
        let e = ev[idx[k] as int] as int;
        (f_add(p.0, f_mul(e, cc[2 * (i0 + k)] as int)), f_add(p.1, f_mul(e, cc[2 * (i0 + k) + 1] as int)))
    }
}

/// The combination of the transition constraint values `ev` over the first `n` degree groups,
/// with two coefficients of `cc` per constraint, taken in turn: for each group, the first running
/// sum is carried on and the second is raised in degree by `x` to the group's incremental degree.
pub open spec fn transition_combination(groups: Seq<(u128, Seq<usize>)>, ev: Seq<u128>, cc: Seq<u128>, x: int, n: nat) -> int
    decreases n,
{
    if n == 0 {
        0
    } else {
        let g = groups[n - 1];
        let s = group_sums(transition_combination(groups, ev, cc, x, (n - 1) as nat), ev, g.1, cc,
            grouped_count(groups, (n - 1) as nat) as int, g.1.len());
        f_add(s.0, f_mul(s.1, f_exp(x, g.0 as nat)))
    }
}

/// The count of grouped constraints grows with the number of groups.
proof fn lemma_grouped_count_mono(groups: Seq<(u128, Seq<usize>)>, a: nat, b: nat)
    requires
        a <= b,
    ensures
        grouped_count(groups, a) <= grouped_count(groups, b),
    decreases b,
{
    if a < b {
        lemma_grouped_count_mono(groups, a, (b - 1) as nat);
    }
}

// TYPES
// ================================================================================================

/// Coefficients of the random linear combinations of the constraints: two per boundary
/// constraint of the first and of the last step, and two per transition constraint.
pub struct ConstraintCoefficients {
    pub i_boundary: Vec<u128>,
    pub f_boundary: Vec<u128>,
    pub transition: Vec<u128>,
}

/// Evaluator of all the constraints of an execution trace.
pub struct Evaluator {
    decoder: Decoder,
    stack: Stack,
    coefficients: ConstraintCoefficients,
    domain_size: usize,
    extension_factor: usize,
    t_constraint_num: usize,
    t_degree_groups: Vec<(u128, Vec<usize>)>,
    b_constraint_num: usize,
    program_hash: Vec<u128>,
    op_count: u128,
    inputs: Vec<u128>,
    outputs: Vec<u128>,
    b_degree_adj: u128,
}

impl Evaluator {
    /// The evaluator's invariant: the domain extends the trace by `MAX_CONSTRAINT_DEGREE`, the
    /// trace length is a power of two not larger than 2^37, and the counts of constraints fit.
    pub closed spec fn wf(&self) -> bool {
        &&& self.extension_factor == MAX_CONSTRAINT_DEGREE
        &&& self.domain_size == self.extension_factor * self.spec_trace_length()
        &&& exists|k: nat| k <= 37 && vstd::arithmetic::power2::pow2(k) == self.spec_trace_length()
        &&& self.t_constraint_num + self.b_constraint_num <= usize::MAX
        &&& self.t_constraint_num == self.decoder.degrees().len() + self.stack.degrees().len()
        &&& self.program_hash@.len() == PROGRAM_DIGEST_SIZE
        &&& self.decoder.wf()
        &&& self.stack.wf()
    }

    /// The length of the execution trace.
    pub closed spec fn spec_trace_length(&self) -> nat {
        (self.domain_size / self.extension_factor) as nat
    }

    /// The size of the evaluation domain.
    pub closed spec fn spec_domain_size(&self) -> nat {
        self.domain_size as nat
    }

    /// The number of transition constraints.
    pub closed spec fn spec_t_constraint_num(&self) -> nat {
        self.t_constraint_num as nat
    }

    /// The number of boundary constraints.
    pub closed spec fn spec_b_constraint_num(&self) -> nat {
        self.b_constraint_num as nat
    }

    /// The transition constraints grouped by degree (see `degree_groups`).
    pub closed spec fn groups(&self) -> Seq<(u128, Seq<usize>)> {
        self.t_degree_groups@.map_values(|g: (u128, Vec<usize>)| (g.0, g.1@))
    }

    /// The degrees of the transition constraints: those of the decoder, then those of the stack.
    pub closed spec fn transition_degrees(&self) -> Seq<usize> {
        self.decoder.degrees() + self.stack.degrees()
    }

    /// The program hash that the last step must hold.
    pub closed spec fn spec_program_hash(&self) -> Seq<u128> {
        self.program_hash@
    }

    /// The operation count that the last step must hold.
    pub closed spec fn spec_op_count(&self) -> u128 {
        self.op_count
    }

    /// The inputs that the first step must hold.
    pub closed spec fn spec_inputs(&self) -> Seq<u128> {
        self.inputs@
    }

    /// The outputs that the last step must hold.
    pub closed spec fn spec_outputs(&self) -> Seq<u128> {
        self.outputs@
    }

    /// The degree by which the boundary constraints are raised.
    pub closed spec fn spec_b_degree_adj(&self) -> u128 {
        self.b_degree_adj
    }

    /// The coefficients of the boundary constraints of the first step.
    pub closed spec fn i_coefficients(&self) -> Seq<u128> {
        self.coefficients.i_boundary@
    }

    /// The coefficients of the boundary constraints of the last step.
    pub closed spec fn f_coefficients(&self) -> Seq<u128> {
        self.coefficients.f_boundary@
    }

    /// The coefficients of the transition constraints.
    pub closed spec fn t_coefficients(&self) -> Seq<u128> {
        self.coefficients.transition@
    }

    /// Builds the evaluator of a trace of `trace_length` steps, whose last state is `last_state`
    /// and whose stacks have the given depths, with the coefficients `coefficients` and the
    /// program's `inputs` and `outputs`. The domain extends the trace by `MAX_CONSTRAINT_DEGREE`.
    pub fn from_trace(
        last_state: &TraceState,
        trace_length: usize,
        ctx_depth: usize,
        loop_depth: usize,
        stack_depth: usize,
        coefficients: ConstraintCoefficients,
        inputs: &[u128],
        outputs: &[u128],
    ) -> (r: Evaluator)
        requires
            exists|k: nat| k <= 37 && vstd::arithmetic::power2::pow2(k) == trace_length,
            trace_length * MAX_CONSTRAINT_DEGREE <= usize::MAX,
            ctx_depth + loop_depth + stack_depth + inputs@.len() + outputs@.len() <= usize::MAX - 64,
        ensures
            r.wf(),
            r.spec_trace_length() == trace_length,
            r.spec_domain_size() == trace_length * MAX_CONSTRAINT_DEGREE,
            r.transition_degrees() == decoder_degrees(ctx_depth as nat, loop_depth as nat)
                + AUX_CONSTRAINT_DEGREES@ + Seq::new(stack_depth as nat, |i: int| STACK_TRANSITION_DEGREE),
            r.spec_t_constraint_num() == r.transition_degrees().len(),
            r.groups() == degree_groups(r.transition_degrees(), trace_length as nat, (MAX_CONSTRAINT_DEGREE + 1) as nat),
            r.spec_b_constraint_num() == PROGRAM_DIGEST_SIZE + inputs@.len() + outputs@.len() + 1,
            r.spec_program_hash() == last_state.sponge@.subrange(0, PROGRAM_DIGEST_SIZE as int),
            r.spec_op_count() == last_state.op_counter,
            r.spec_inputs() == inputs@,
            r.spec_outputs() == outputs@,
            r.spec_b_degree_adj() == boundary_target_degree(trace_length as nat) - (trace_length - 1),
            r.i_coefficients() == coefficients.i_boundary@,
            r.f_coefficients() == coefficients.f_boundary@,
            r.t_coefficients() == coefficients.transition@,
    {
        let extension_factor = MAX_CONSTRAINT_DEGREE;
        proof {
            vstd::arithmetic::power2::lemma2_to64();
            let k = choose|k: nat| k <= 37 && vstd::arithmetic::power2::pow2(k) == trace_length;
            vstd::arithmetic::power2::lemma_pow2_pos(k);
            if k < 37 {
                vstd::arithmetic::power2::lemma_pow2_strictly_increases(k, 37);
            }
            assert(vstd::arithmetic::power2::pow2(37) == 0x20_0000_0000) by {
                vstd::arithmetic::power2::lemma2_to64_rest();
            }
            assert(vstd::arithmetic::power2::pow2(3) == 8);
        }

        // instantiate decoder and stack constraint evaluators
        let decoder = Decoder::new(trace_length, extension_factor, ctx_depth, loop_depth);
        let stack = Stack::new(trace_length, extension_factor, stack_depth);

        // build a list of transition constraint degrees
        let mut t_constraint_degrees: Vec<usize> = Vec::new();
        let d_degrees = decoder.constraint_degrees();
        let s_degrees = stack.constraint_degrees();
        let mut i: usize = 0;
        while i < d_degrees.len()
            invariant
                i <= d_degrees@.len(),
                t_constraint_degrees@ == d_degrees@.subrange(0, i as int),
            decreases d_degrees@.len() - i,
        {
            t_constraint_degrees.push(d_degrees[i]);
            i = i + 1;
            assert(t_constraint_degrees@ =~= d_degrees@.subrange(0, i as int));
        }
        let mut i: usize = 0;
        while i < s_degrees.len()
            invariant
                i <= s_degrees@.len(),
                t_constraint_degrees@ == d_degrees@ + s_degrees@.subrange(0, i as int),
                d_degrees@.len() + s_degrees@.len() <= usize::MAX - 32,
            decreases s_degrees@.len() - i,
        {
            t_constraint_degrees.push(s_degrees[i]);
            i = i + 1;
            assert(t_constraint_degrees@ =~= d_degrees@ + s_degrees@.subrange(0, i as int));
        }
        assert(d_degrees@.subrange(0, d_degrees@.len() as int) =~= d_degrees@);
        assert(s_degrees@.subrange(0, s_degrees@.len() as int) =~= s_degrees@);
        assert(t_constraint_degrees@ =~= d_degrees@ + s_degrees@);
        let t_constraint_num = t_constraint_degrees.len();
        let b_constraint_num = get_boundary_constraint_num(inputs, outputs);
        let domain_size = trace_length * extension_factor;
        let t_degree_groups = group_transition_constraints(t_constraint_degrees, trace_length);
        let program_hash = last_state.program_hash();

        let r = Evaluator {
            decoder,
            stack,
            coefficients,
            domain_size,
            extension_factor,
            t_constraint_num,
            t_degree_groups,
            b_constraint_num,
            program_hash: copy_range(program_hash, 0, program_hash.len()),
            op_count: last_state.op_counter(),
            inputs: copy_range(inputs, 0, inputs.len()),
            outputs: copy_range(outputs, 0, outputs.len()),
            b_degree_adj: get_boundary_constraint_adjustment_degree(trace_length),
        };
        proof {
            vstd::arithmetic::div_mod::lemma_div_by_multiple(trace_length as int, 8);
            assert(r.spec_trace_length() == trace_length);
            assert(inputs@.subrange(0, inputs@.len() as int) =~= inputs@);
            assert(outputs@.subrange(0, outputs@.len() as int) =~= outputs@);
            assert(program_hash@.subrange(0, program_hash@.len() as int) =~= program_hash@);
        }
        r
    }

    /// The number of constraints: transition constraints and boundary constraints.
    pub fn constraint_count(&self) -> (r: usize)
        requires
            self.wf(),
        ensures
            r == self.spec_t_constraint_num() + self.spec_b_constraint_num(),
    {
        self.t_constraint_num + self.b_constraint_num
    }

    /// The size of the evaluation domain.
    pub fn domain_size(&self) -> (r: usize)
        ensures
            r == self.spec_domain_size(),
    {
        self.domain_size
    }

    /// The length of the execution trace.
    pub fn trace_length(&self) -> (r: usize)
        requires
            self.wf(),
        ensures
            r == self.spec_trace_length(),
    {
        self.domain_size / self.extension_factor
    }

    /// The point of the trace domain at the last step: the root of unity of the trace's order
    /// raised to the trace length minus one.
    pub fn get_x_at_last_step(&self) -> (r: u128)
        requires
            self.wf(),
        ensures
            r == f_exp(root_of_order(self.spec_trace_length()), (self.spec_trace_length() - 1) as nat),
            f_mul(r as int, root_of_order(self.spec_trace_length())) == 1,
    {
        let trace_length = self.trace_length();
        proof {
            let k = choose|k: nat| k <= 37 && vstd::arithmetic::power2::pow2(k) == self.spec_trace_length();
            vstd::arithmetic::power2::lemma_pow2_pos(k);
            assert(k <= crate::math::field::TWO_ADICITY);
        }
        let trace_root = crate::math::field::get_root_of_unity(trace_length);
        let x = crate::math::field::exp(trace_root, (trace_length - 1) as u128);
        proof {
            crate::math::field::lemma_exp_succ(trace_root as int, (trace_length - 1) as nat);
        }
        x
    }

    /// Combines the boundary constraints at the point `x`: for the first step, those of
    /// `initial_boundary_values`, and for the last step, those of `final_boundary_values`, each
    /// with the coefficients of its step and raised in degree by `x` to the adjustment degree.
    pub fn evaluate_boundaries(&self, current: &TraceState, x: u128) -> (r: (u128, u128))
        requires
            self.wf(),
            current.user_stack@.len() >= self.spec_inputs().len(),
            current.user_stack@.len() >= self.spec_outputs().len(),
            self.i_coefficients().len() >= 2 * (current.sponge@.len() + self.spec_inputs().len()),
            self.f_coefficients().len() >= 2 * (current.cf_op_bits@.len() + current.ld_op_bits@.len() + current.hd_op_bits@.len()
                + PROGRAM_DIGEST_SIZE + self.spec_outputs().len() + 1),
        ensures
            r.0 == boundary_combination(initial_boundary_values(current, self.spec_inputs()),
                self.i_coefficients(), f_exp(x as int, self.spec_b_degree_adj() as nat)),
            r.1 == boundary_combination(final_boundary_values(current, self.spec_program_hash(), self.spec_outputs(), self.spec_op_count()),
                self.f_coefficients(), f_exp(x as int, self.spec_b_degree_adj() as nat)),
    {
        // compute degree adjustment factor
        let xp = crate::math::field::exp(x, self.b_degree_adj);

        // 1 ----- compute combination of boundary constraints for the first step ------------------
        let mut values: Vec<u128> = Vec::new();

        // make sure operation sponge registers are set to zeros
        let op_acc = current.sponge();
        let mut i: usize = 0;
        while i < op_acc.len()
            invariant
                i <= op_acc@.len(),
                values@ == op_acc@.subrange(0, i as int),
            decreases op_acc@.len() - i,
        {
            values.push(op_acc[i]);
            i = i + 1;
            assert(values@ =~= op_acc@.subrange(0, i as int));
        }
        assert(op_acc@.subrange(0, op_acc@.len() as int) =~= op_acc@);

        // make sure stack registers are set to inputs
        let user_stack = current.user_stack();
        push_differences(&mut values, user_stack, self.inputs.as_slice(), self.inputs.len());
        assert(values@ =~= initial_boundary_values(current, self.inputs@));
        let i_result = combine_boundary(values.as_slice(), self.coefficients.i_boundary.as_slice(), xp);

        // 2 ----- compute combination of boundary constraints for the last step -------------------
        let mut values: Vec<u128> = Vec::new();

        // make sure control flow op_bits are set VOID (111)
        push_less_one(&mut values, current.cf_op_bits());

        // make sure low-degree op_bits are set to NOOP (11111)
        push_less_one(&mut values, current.ld_op_bits());

        // make sure high-degree op_bits are set to NOOP (11)
        push_less_one(&mut values, current.hd_op_bits());

        // make sure operation sponge contains program hash
        let program_hash = current.program_hash();
        push_differences(&mut values, program_hash, self.program_hash.as_slice(), self.program_hash.len());

        // make sure stack registers are set to outputs
        push_differences(&mut values, user_stack, self.outputs.as_slice(), self.outputs.len());

        // make sure op_count register is set to the claimed value of operations
        values.push(crate::math::field::sub(current.op_counter(), self.op_count));
        proof {
            assert(values@ =~= final_boundary_values(current, self.program_hash@, self.outputs@, self.op_count));
        }
        let f_result = combine_boundary(values.as_slice(), self.coefficients.f_boundary.as_slice(), xp);

        (i_result, f_result)
    }

    /// Whether the transition constraints must all be zero at step `step` of the evaluation
    /// domain: at the steps of the trace, except the last one.
    pub fn should_evaluate_to_zero_at(&self, step: usize) -> (r: bool)
        requires
            self.wf(),
        ensures
            r == (step % MAX_CONSTRAINT_DEGREE == 0 && step != self.spec_domain_size() - MAX_CONSTRAINT_DEGREE),
    {
        assert(step & 7 == step % 8) by (bit_vector);
        proof {
            let k = choose|k: nat| k <= 37 && vstd::arithmetic::power2::pow2(k) == self.spec_trace_length();
            vstd::arithmetic::power2::lemma_pow2_pos(k);
        }
        (step & (self.extension_factor - 1)) == 0 && step != self.domain_size - self.extension_factor
    }

    /// Combines the transition constraint values `evaluations` at `x` (see
    /// `transition_combination`): for each group of constraints of the same degree, the values
    /// times their two coefficients, the second sum raised in degree by `x` to the power of the
    /// group's incremental degree.
    pub fn combine_transition_constraints(&self, evaluations: &Vec<u128>, x: u128) -> (r: u128)
        requires
            forall|k: int, j: int| 0 <= k < self.groups().len() && 0 <= j < self.groups()[k].1.len()
                ==> (#[trigger] self.groups()[k].1[j]) < evaluations@.len(),
            2 * grouped_count(self.groups(), self.groups().len()) <= self.t_coefficients().len(),
        ensures
            r == transition_combination(self.groups(), evaluations@, self.t_coefficients(), x as int, self.groups().len()),
    {
        let cc = &self.coefficients.transition;
        let cc_len = cc.len();
        let ghost groups = self.groups();
        let ghost ev = evaluations@;
        let mut result: u128 = ZERO;
        let mut i: usize = 0;
        let mut gi: usize = 0;
        while gi < self.t_degree_groups.len()
            invariant
                gi <= self.t_degree_groups@.len(),
                groups == self.groups(),
                groups.len() == self.t_degree_groups@.len(),
                ev == evaluations@,
                cc@ == self.t_coefficients(),
                forall|k: int, j: int| 0 <= k < groups.len() && 0 <= j < groups[k].1.len()
                    ==> (#[trigger] groups[k].1[j]) < ev.len(),
                2 * grouped_count(groups, groups.len()) <= cc@.len(),
                cc_len == cc@.len(),
                i == grouped_count(groups, gi as nat),
                result as int == transition_combination(groups, ev, cc@, x as int, gi as nat),
            decreases self.t_degree_groups@.len() - gi,
        {
            let group = &self.t_degree_groups[gi];
            let incremental_degree = group.0;
            let constraints = &group.1;
            assert(groups[gi as int] == (incremental_degree, constraints@));
            proof { lemma_grouped_count_mono(groups, (gi + 1) as nat, groups.len()); }
            let ghost i0 = i as int;
            let ghost r0 = result as int;
            let mut result_adj: u128 = ZERO;
            let mut k: usize = 0;
            while k < constraints.len()
                invariant
                    k <= constraints@.len(),
                    groups[gi as int] == (incremental_degree, constraints@),
                    forall|j: int| 0 <= j < constraints@.len() ==> #[trigger] constraints@[j] < ev.len(),
                    ev == evaluations@,
                    i0 + constraints@.len() == grouped_count(groups, (gi + 1) as nat),
                    2 * grouped_count(groups, (gi + 1) as nat) <= cc@.len(),
                    cc_len == cc@.len(),
                    i == i0 + k,
                    (result as int, result_adj as int) == group_sums(r0, ev, constraints@, cc@, i0, k as nat),
                decreases constraints@.len() - k,
            {
                assert(groups[gi as int].1[k as int] == constraints@[k as int]);
                let evaluation = evaluations[constraints[k]];
                result = crate::math::field::add(result, crate::math::field::mul(evaluation, cc[i * 2]));
                result_adj = crate::math::field::add(result_adj, crate::math::field::mul(evaluation, cc[i * 2 + 1]));
                i = i + 1;
                k = k + 1;
            }

            // increase the degree of D(x) * x^p
            let xp = crate::math::field::exp(x, incremental_degree);
            result = crate::math::field::add(result, crate::math::field::mul(result_adj, xp));
            gi = gi + 1;
        }
        result
    }

    /// The degrees of the transition constraints: those of the decoder, then those of the stack.
    pub fn get_transition_degrees(&self) -> (r: Vec<usize>)
        requires
            self.wf(),
        ensures
            r@ == self.transition_degrees(),
    {
        let mut r: Vec<usize> = Vec::new();
        let d_degrees = self.decoder.constraint_degrees();
        let s_degrees = self.stack.constraint_degrees();
        let mut i: usize = 0;
        while i < d_degrees.len()
            invariant
                i <= d_degrees@.len(),
                r@ == d_degrees@.subrange(0, i as int),
            decreases d_degrees@.len() - i,
        {
            r.push(d_degrees[i]);
            i = i + 1;
            assert(r@ =~= d_degrees@.subrange(0, i as int));
        }
        let mut i: usize = 0;
        while i < s_degrees.len()
            invariant
                i <= s_degrees@.len(),
                r@ == d_degrees@ + s_degrees@.subrange(0, i as int),
                d_degrees@.len() + s_degrees@.len() <= usize::MAX,
            decreases s_degrees@.len() - i,
        {
            r.push(s_degrees[i]);
            i = i + 1;
            assert(r@ =~= d_degrees@ + s_degrees@.subrange(0, i as int));
        }
        assert(d_degrees@.subrange(0, d_degrees@.len() as int) =~= d_degrees@);
        assert(s_degrees@.subrange(0, s_degrees@.len() as int) =~= s_degrees@);
        r
    }
}

// HELPER FUNCTIONS
// ================================================================================================

/// Groups the transition constraints by degree (see `degree_groups`).
fn group_transition_constraints(degrees: Vec<usize>, trace_length: usize) -> (r: Vec<(u128, Vec<usize>)>)
    requires
        1 <= trace_length,
        MAX_CONSTRAINT_DEGREE * trace_length <= usize::MAX,
        forall|i: int| 0 <= i < degrees@.len() ==> #[trigger] degrees@[i] <= MAX_CONSTRAINT_DEGREE,
    ensures
        r@.map_values(|g: (u128, Vec<usize>)| (g.0, g.1@)) == degree_groups(degrees@, trace_length as nat, (MAX_CONSTRAINT_DEGREE + 1) as nat),
{
    let target_degree = get_transition_constraint_target_degree(trace_length);
    let mut result: Vec<(u128, Vec<usize>)> = Vec::new();
    let mut d: usize = 0;
    while d <= MAX_CONSTRAINT_DEGREE
        invariant
            d <= MAX_CONSTRAINT_DEGREE + 1,
            1 <= trace_length,
            MAX_CONSTRAINT_DEGREE * trace_length <= usize::MAX,
            target_degree == transition_target_degree(trace_length as nat),
            result@.map_values(|g: (u128, Vec<usize>)| (g.0, g.1@)) == degree_groups(degrees@, trace_length as nat, d as nat),
        decreases MAX_CONSTRAINT_DEGREE + 1 - d,
    {
        // collect the constraints of degree d
        let mut constraints: Vec<usize> = Vec::new();
        let mut i: usize = 0;
        while i < degrees.len()
            invariant
                i <= degrees@.len(),
                constraints@ == indices_of_degree(degrees@, d as nat, i as nat),
            decreases degrees@.len() - i,
        {
            if degrees[i] == d {
                constraints.push(i);
            }
            i = i + 1;
        }
        let ghost before = result@.map_values(|g: (u128, Vec<usize>)| (g.0, g.1@));
        if constraints.len() > 0 {
            assert((trace_length - 1) * d <= (trace_length - 1) * MAX_CONSTRAINT_DEGREE) by (nonlinear_arith)
                requires
                    1 <= trace_length,
                    d <= MAX_CONSTRAINT_DEGREE,
            ;
            let constraint_degree = (trace_length - 1) * d;
            let incremental_degree = (target_degree - constraint_degree) as u128;
            result.push((incremental_degree, constraints));
            assert(result@.map_values(|g: (u128, Vec<usize>)| (g.0, g.1@)) =~= before.push((incremental_degree, constraints@)));
        }
        d = d + 1;
    }
    result
}

/// Appends `a[i] - b[i]` for each `i < n` to `values`.
fn push_differences(values: &mut Vec<u128>, a: &[u128], b: &[u128], n: usize)
    requires
        n <= a@.len(),
        n <= b@.len(),
    ensures
        final(values)@ == old(values)@ + Seq::new(n as nat, |i: int| f_sub(a@[i] as int, b@[i] as int) as u128),
{
    let ghost v0 = values@;
    let mut i: usize = 0;
    while i < n
        invariant
            i <= n,
            n <= a@.len(),
            n <= b@.len(),
            values@ == v0 + Seq::new(i as nat, |k: int| f_sub(a@[k] as int, b@[k] as int) as u128),
        decreases n - i,
    {
        values.push(crate::math::field::sub(a[i], b[i]));
        i = i + 1;
        assert(values@ =~= v0 + Seq::new(i as nat, |k: int| f_sub(a@[k] as int, b@[k] as int) as u128));
    }
}

/// Appends `v[i] - 1` for each value of `v` to `values`.
fn push_less_one(values: &mut Vec<u128>, v: &[u128])
    ensures
        final(values)@ == old(values)@ + less_one(v@),
{
    let ghost v0 = values@;
    let mut i: usize = 0;
    while i < v.len()
        invariant
            i <= v@.len(),
            values@ == v0 + less_one(v@.subrange(0, i as int)),
        decreases v@.len() - i,
    {
        values.push(crate::math::field::sub(v[i], ONE));
        i = i + 1;
        assert(values@ =~= v0 + less_one(v@.subrange(0, i as int)));
    }
    assert(v@.subrange(0, v@.len() as int) =~= v@);
}

/// Combines boundary constraint values with their coefficients (see `boundary_combination`).
fn combine_boundary(values: &[u128], cc: &[u128], xp: u128) -> (r: u128)
    requires
        2 * values@.len() <= cc@.len(),
    ensures
        r == boundary_combination(values@, cc@, xp as int),
{
    let mut result: u128 = ZERO;
    let mut result_adj: u128 = ZERO;
    let cc_len = cc.len();
    let mut i: usize = 0;
    while i < values.len()
        invariant
            i <= values@.len(),
            cc_len == cc@.len(),
            2 * values@.len() <= cc@.len(),
            (result as int, result_adj as int) == linear_combination(values@, cc@, i as nat),
        decreases values@.len() - i,
    {
        assert(2 * i + 1 < cc@.len());
        result = crate::math::field::add(result, crate::math::field::mul(values[i], cc[2 * i]));
        result_adj = crate::math::field::add(result_adj, crate::math::field::mul(values[i], cc[2 * i + 1]));
        i = i + 1;
    }

    // raise the degree of adjusted terms and sum all the terms together
    crate::math::field::add(result, crate::math::field::mul(result_adj, xp))
}

/// The degree by which boundary constraints are raised to their target degree.
fn get_boundary_constraint_adjustment_degree(trace_length: usize) -> (r: u128)
    requires
        1 <= trace_length,
        MAX_CONSTRAINT_DEGREE * trace_length <= usize::MAX,
    ensures
        r == boundary_target_degree(trace_length as nat) - (trace_length - 1),
{
    let target_degree = get_boundary_constraint_target_degree(trace_length);
    let boundary_constraint_degree = trace_length - 1;
    (target_degree - boundary_constraint_degree) as u128
}

/// Target degree of the boundary constraints (see `boundary_target_degree`).
fn get_boundary_constraint_target_degree(trace_length: usize) -> (r: usize)
    requires
        1 <= trace_length,
        MAX_CONSTRAINT_DEGREE * trace_length <= usize::MAX,
    ensures
        r == boundary_target_degree(trace_length as nat),
{
    let combination_degree = (MAX_CONSTRAINT_DEGREE - 1) * trace_length;
    let divisor_degree: usize = 1;
    combination_degree + divisor_degree
}

/// Target degree of the transition constraints (see `transition_target_degree`).
fn get_transition_constraint_target_degree(trace_length: usize) -> (r: usize)
    requires
        1 <= trace_length,
        MAX_CONSTRAINT_DEGREE * trace_length <= usize::MAX,
    ensures
        r == transition_target_degree(trace_length as nat),
{
    let combination_degree = (MAX_CONSTRAINT_DEGREE - 1) * trace_length;
    let divisor_degree = trace_length - 1;
    combination_degree + divisor_degree
}

/// The number of boundary constraints: the program hash, the inputs, the outputs and the
/// operation count.
fn get_boundary_constraint_num(inputs: &[u128], outputs: &[u128]) -> (r: usize)
    requires
        inputs@.len() + outputs@.len() <= usize::MAX - 3,
    ensures
        r == PROGRAM_DIGEST_SIZE + inputs@.len() + outputs@.len() + 1,
{
    PROGRAM_DIGEST_SIZE + inputs.len() + outputs.len() + 1
}

// LAWS
// ================================================================================================

/// The boundary values of the last step vanish exactly when the last state is the one a program
/// must end in: all flow control, low-degree and high-degree operation bits are one, the sponge
/// holds the program hash, the top of the user stack holds the outputs, and the operation counter
/// holds the operation count.
pub proof fn lemma_final_boundary_values_vanish_exactly(current: &TraceState, program_hash: Seq<u128>, outputs: Seq<u128>, op_count: u128)
    requires
        all_canonical(current.cf_op_bits@),
        all_canonical(current.ld_op_bits@),
        all_canonical(current.hd_op_bits@),
        all_canonical(current.sponge@),
        all_canonical(current.user_stack@),
        current.op_counter < MODULUS,
        all_canonical(program_hash),
        all_canonical(outputs),
        op_count < MODULUS,
        program_hash.len() <= current.sponge@.len(),
        outputs.len() <= current.user_stack@.len(),
    ensures
        (forall|i: int| 0 <= i < final_boundary_values(current, program_hash, outputs, op_count).len()
            ==> #[trigger] final_boundary_values(current, program_hash, outputs, op_count)[i] == 0) == (
            (forall|k: int| 0 <= k < 3 ==> #[trigger] current.cf_op_bits@[k] == 1)
            && (forall|k: int| 0 <= k < 5 ==> #[trigger] current.ld_op_bits@[k] == 1)
            && (forall|k: int| 0 <= k < 2 ==> #[trigger] current.hd_op_bits@[k] == 1)
            && (forall|k: int| 0 <= k < program_hash.len() ==> #[trigger] current.sponge@[k] == program_hash[k])
            && (forall|k: int| 0 <= k < outputs.len() ==> #[trigger] current.user_stack@[k] == outputs[k])
            && current.op_counter == op_count),
{
    let cf = current.cf_op_bits@;
    let ld = current.ld_op_bits@;
    let hd = current.hd_op_bits@;
    let sp = current.sponge@;
    let us = current.user_stack@;
    let h = program_hash;
    let o = outputs;
    let v = final_boundary_values(current, h, o, op_count);
    let p4 = Seq::new(h.len(), |i: int| f_sub(sp[i] as int, h[i] as int) as u128);
    let p5 = Seq::new(o.len(), |i: int| f_sub(us[i] as int, o[i] as int) as u128);
    let p6 = seq![f_sub(current.op_counter as int, op_count as int) as u128];
    let hl = h.len() as int;
    let ol = o.len() as int;
    assert(v == less_one(cf) + less_one(ld) + less_one(hd) + p4 + p5 + p6);
    assert(v.len() == 11 + hl + ol);
    assert forall|i: int| 0 <= i < v.len() implies #[trigger] v[i] == (
        if i < 3 { f_sub(cf[i] as int, 1) as u128 }
        else if i < 8 { f_sub(ld[i - 3] as int, 1) as u128 }
        else if i < 10 { f_sub(hd[i - 8] as int, 1) as u128 }
        else if i < 10 + hl { f_sub(sp[i - 10] as int, h[i - 10] as int) as u128 }
        else if i < 10 + hl + ol { f_sub(us[i - 10 - hl] as int, o[i - 10 - hl] as int) as u128 }
        else { f_sub(current.op_counter as int, op_count as int) as u128 }) by {
    }
    let all_zero = forall|i: int| 0 <= i < v.len() ==> #[trigger] v[i] == 0;
    if all_zero {
        assert forall|k: int| 0 <= k < 3 implies #[trigger] cf[k] == 1 by {
            assert(v[k] == 0);
            lemma_sub_zero_equal(cf[k], 1);
        }
        assert forall|k: int| 0 <= k < 5 implies #[trigger] ld[k] == 1 by {
            assert(v[3 + k] == 0);
            lemma_sub_zero_equal(ld[k], 1);
        }
        assert forall|k: int| 0 <= k < 2 implies #[trigger] hd[k] == 1 by {
            assert(v[8 + k] == 0);
            lemma_sub_zero_equal(hd[k], 1);
        }
        assert forall|k: int| 0 <= k < hl implies #[trigger] sp[k] == h[k] by {
            assert(v[10 + k] == 0);
            lemma_sub_zero_equal(sp[k], h[k]);
        }
        assert forall|k: int| 0 <= k < ol implies #[trigger] us[k] == o[k] by {
            assert(v[10 + hl + k] == 0);
            lemma_sub_zero_equal(us[k], o[k]);
        }
        assert(v[10 + hl + ol] == 0);
        lemma_sub_zero_equal(current.op_counter, op_count);
    }
    if (forall|k: int| 0 <= k < 3 ==> #[trigger] cf[k] == 1)
        && (forall|k: int| 0 <= k < 5 ==> #[trigger] ld[k] == 1)
        && (forall|k: int| 0 <= k < 2 ==> #[trigger] hd[k] == 1)
        && (forall|k: int| 0 <= k < hl ==> #[trigger] sp[k] == h[k])
        && (forall|k: int| 0 <= k < ol ==> #[trigger] us[k] == o[k])
        && current.op_counter == op_count {
        assert forall|i: int| 0 <= i < v.len() implies #[trigger] v[i] == 0 by {
            if i < 3 {
                lemma_sub_zero_equal(cf[i], 1);
            } else if i < 8 {
                assert(ld[i - 3] == 1);
                lemma_sub_zero_equal(ld[i - 3], 1);
            } else if i < 10 {
                assert(hd[i - 8] == 1);
                lemma_sub_zero_equal(hd[i - 8], 1);
            } else if i < 10 + hl {
                assert(sp[i - 10] == h[i - 10]);
                lemma_sub_zero_equal(sp[i - 10], h[i - 10]);
            } else if i < 10 + hl + ol {
                assert(us[i - 10 - hl] == o[i - 10 - hl]);
                lemma_sub_zero_equal(us[i - 10 - hl], o[i - 10 - hl]);
            } else {
                lemma_sub_zero_equal(current.op_counter, op_count);
            }
        }
    }
}

/// The boundary values of the first step vanish exactly when the first state is the one a program
/// must start in: the sponge is zero and the top of the user stack holds the inputs.
pub proof fn lemma_initial_boundary_values_vanish_exactly(current: &TraceState, inputs: Seq<u128>)
    requires
        all_canonical(current.user_stack@),
        all_canonical(inputs),
        inputs.len() <= current.user_stack@.len(),
    ensures
        (forall|i: int| 0 <= i < initial_boundary_values(current, inputs).len()
            ==> #[trigger] initial_boundary_values(current, inputs)[i] == 0) == (
            (forall|k: int| 0 <= k < 4 ==> #[trigger] current.sponge@[k] == 0)
            && (forall|k: int| 0 <= k < inputs.len() ==> #[trigger] current.user_stack@[k] == inputs[k])),
{
    let sp = current.sponge@;
    let us = current.user_stack@;
    let v = initial_boundary_values(current, inputs);
    let il = inputs.len() as int;
    assert(v.len() == 4 + il);
    if forall|i: int| 0 <= i < v.len() ==> #[trigger] v[i] == 0 {
        assert forall|k: int| 0 <= k < 4 implies #[trigger] sp[k] == 0 by {
            assert(v[k] == 0);
        }
        assert forall|k: int| 0 <= k < il implies #[trigger] us[k] == inputs[k] by {
            assert(v[4 + k] == 0);
            lemma_sub_zero_equal(us[k], inputs[k]);
        }
    }
    if (forall|k: int| 0 <= k < 4 ==> #[trigger] sp[k] == 0)
        && (forall|k: int| 0 <= k < il ==> #[trigger] us[k] == inputs[k]) {
        assert forall|i: int| 0 <= i < v.len() implies #[trigger] v[i] == 0 by {
            if 4 <= i {
                assert(us[i - 4] == inputs[i - 4]);
                lemma_sub_zero_equal(us[i - 4], inputs[i - 4]);
            }
        }
    }
}

} // verus!
