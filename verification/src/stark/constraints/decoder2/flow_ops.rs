use vstd::prelude::*;
use crate::stark::trace::trace_state2::{ TraceState, SPONGE_WIDTH };
use crate::stark::constraints::utils::{
    are_equal, is_zero, agg_at, agg_eq_range, spec_are_equal, enforce_equal_range, EvaluationResult,
    all_canonical, lemma_agg_eq_range_noop, lemma_agg_at_noop, lemma_sub_zero_equal, agg,
};
use crate::stark::constraints::stack::comparison::agg_values;
use crate::math::field::{ f_sub, MODULUS };

verus! {

// SPECIFICATIONS
// ================================================================================================

/// Whether `current` and `next` have the same stack depths, the context stack is not empty, and
/// `result` holds a constraint for each sponge register and each context and loop stack item.
pub open spec fn flow_shape_ok(result: Seq<u128>, current: &TraceState, next: &TraceState) -> bool {
    &&& current.ctx_stack@.len() >= 1
    &&& next.ctx_stack@.len() == current.ctx_stack@.len()
    &&& next.loop_stack@.len() == current.loop_stack@.len()
    &&& result.len() >= SPONGE_WIDTH + current.ctx_stack@.len() + current.loop_stack@.len()
}

/// Constraints that a stack segment of `len` items at `offset` did not change.
pub open spec fn seg_copy(r: Seq<u128>, offset: int, len: int, old_s: Seq<u128>, new_s: Seq<u128>, flag: u128) -> Seq<u128> {
    agg_eq_range(r, offset, offset + len, old_s, 0, new_s, 0, flag)
}

/// Constraints that a stack segment of `len` items at `offset` was shifted right by one item;
/// the first item is not constrained.
pub open spec fn seg_right_shift(r: Seq<u128>, offset: int, len: int, old_s: Seq<u128>, new_s: Seq<u128>, flag: u128) -> Seq<u128> {
    agg_eq_range(r, offset + 1, offset + len, old_s, 0, new_s, 1, flag)
}

/// Constraints that a stack segment of `len` items at `offset` was shifted left by one item
/// and that its last item became zero.
pub open spec fn seg_left_shift(r: Seq<u128>, offset: int, len: int, old_s: Seq<u128>, new_s: Seq<u128>, flag: u128) -> Seq<u128> {
    if len == 0 {
        r
    } else {
        agg_at(agg_eq_range(r, offset, offset + len - 1, old_s, 1, new_s, 0, flag), offset + len - 1, flag, new_s[len - 1])
    }
}

/// Constraints that the sponge was cleared.
pub open spec fn sponge_cleared(r: Seq<u128>, next: &TraceState, flag: u128) -> Seq<u128> {
    agg_values(r, next.sponge@, flag)
}

/// Constraints that the sponge did not change.
pub open spec fn sponge_copied(r: Seq<u128>, current: &TraceState, next: &TraceState, flag: u128) -> Seq<u128> {
    agg_eq_range(r, 0, SPONGE_WIDTH as int, current.sponge@, 0, next.sponge@, 0, flag)
}

/// Constraints that the hash of the parent block (first sponge register) was pushed onto the
/// context stack.
pub open spec fn ctx_pushed(r: Seq<u128>, current: &TraceState, next: &TraceState, flag: u128) -> Seq<u128> {
    let c = current.ctx_stack@.len() as int;
    seg_right_shift(agg_at(r, SPONGE_WIDTH as int, flag, spec_are_equal(current.sponge@[0], next.ctx_stack@[0])),
        SPONGE_WIDTH as int, c, current.ctx_stack@, next.ctx_stack@, flag)
}

/// Constraints that the context stack was popped.
pub open spec fn ctx_popped(r: Seq<u128>, current: &TraceState, next: &TraceState, flag: u128) -> Seq<u128> {
    seg_left_shift(r, SPONGE_WIDTH as int, current.ctx_stack@.len() as int, current.ctx_stack@, next.ctx_stack@, flag)
}

/// Constraints that the context stack did not change.
pub open spec fn ctx_copied(r: Seq<u128>, current: &TraceState, next: &TraceState, flag: u128) -> Seq<u128> {
    seg_copy(r, SPONGE_WIDTH as int, current.ctx_stack@.len() as int, current.ctx_stack@, next.ctx_stack@, flag)
}

/// Offset of the loop stack constraints in the result.
pub open spec fn loop_offset(current: &TraceState) -> int {
    SPONGE_WIDTH + current.ctx_stack@.len()
}

/// Constraints that the loop stack did not change.
pub open spec fn loop_copied(r: Seq<u128>, current: &TraceState, next: &TraceState, flag: u128) -> Seq<u128> {
    seg_copy(r, loop_offset(current), current.loop_stack@.len() as int, current.loop_stack@, next.loop_stack@, flag)
}

// CONSTRAINTS OF EACH OPERATION
// ================================================================================================

/// The constraints of the BEGIN operation aggregated into `r`.
pub open spec fn begin_constraints(r: Seq<u128>, current: &TraceState, next: &TraceState, flag: u128) -> Seq<u128> {
    loop_copied(ctx_pushed(sponge_cleared(r, next, flag), current, next, flag), current, next, flag)
}

/// The constraints of the TEND operation aggregated into `r`.
pub open spec fn tend_constraints(r: Seq<u128>, current: &TraceState, next: &TraceState, flag: u128) -> Seq<u128> {
    {
        let s = next.sponge@;
        let r1 = agg_at(r, 0, flag, spec_are_equal(current.ctx_stack@[0], s[0]));
        let r2 = agg_at(r1, 1, flag, spec_are_equal(current.sponge@[0], s[1]));
        let r3 = agg_at(r2, 3, flag, s[3]);
        loop_copied(ctx_popped(r3, current, next, flag), current, next, flag)
    }
}

/// The constraints of the FEND operation aggregated into `r`.
pub open spec fn fend_constraints(r: Seq<u128>, current: &TraceState, next: &TraceState, flag: u128) -> Seq<u128> {
    {
        let s = next.sponge@;
        let r1 = agg_at(r, 0, flag, spec_are_equal(current.ctx_stack@[0], s[0]));
        let r2 = agg_at(r1, 2, flag, spec_are_equal(current.sponge@[0], s[2]));
        let r3 = agg_at(r2, 3, flag, s[3]);
        loop_copied(ctx_popped(r3, current, next, flag), current, next, flag)
    }
}

/// The constraints of the LOOP operation aggregated into `r`.
pub open spec fn loop_constraints(r: Seq<u128>, current: &TraceState, next: &TraceState, flag: u128) -> Seq<u128> {
    seg_right_shift(
        ctx_pushed(sponge_cleared(r, next, flag), current, next, flag),
        loop_offset(current), current.loop_stack@.len() as int, current.loop_stack@, next.loop_stack@, flag)
}

/// The constraints of the WRAP operation aggregated into `r`.
pub open spec fn wrap_constraints(r: Seq<u128>, current: &TraceState, next: &TraceState, flag: u128) -> Seq<u128> {
    loop_copied(ctx_copied(sponge_cleared(r, next, flag), current, next, flag), current, next, flag)
}

/// The constraints of the BREAK operation aggregated into `r`.
pub open spec fn break_constraints(r: Seq<u128>, current: &TraceState, next: &TraceState, flag: u128) -> Seq<u128> {
    seg_left_shift(
        ctx_copied(sponge_copied(r, current, next, flag), current, next, flag),
        loop_offset(current), current.loop_stack@.len() as int, current.loop_stack@, next.loop_stack@, flag)
}

/// The constraints of the VOID operation aggregated into `r`.
pub open spec fn void_constraints(r: Seq<u128>, current: &TraceState, next: &TraceState, flag: u128) -> Seq<u128> {
    loop_copied(ctx_copied(sponge_copied(r, current, next, flag), current, next, flag), current, next, flag)
}

// CONSTRAINT EVALUATORS
// ================================================================================================

/// Enforces constraints of the BEGIN operation: the sponge is cleared, the hash of the parent
/// block is pushed onto the context stack, and the loop stack does not change.
pub fn enforce_begin(result: &mut [u128], current: &TraceState, next: &TraceState, op_flag: u128)
    requires
        flow_shape_ok(old(result)@, current, next),
    ensures
        final(result)@ == begin_constraints(old(result)@, current, next, op_flag),
{
    let _result_len = result.len();
    // make sure sponge state has been cleared
    clear_sponge(result, next, op_flag);

    // make sure hash of parent block was pushed onto the context stack
    let parent_hash = current.sponge()[0];
    let ctx_len = current.ctx_stack().len();
    result.agg_constraint(SPONGE_WIDTH, op_flag, are_equal(parent_hash, next.ctx_stack()[0]));
    enforce_stack_right_shift(result, SPONGE_WIDTH, ctx_len, current.ctx_stack(), next.ctx_stack(), op_flag);

    // make sure loop stack didn't change
    let loop_len = current.loop_stack().len();
    enforce_stack_copy(result, SPONGE_WIDTH + ctx_len, loop_len, current.loop_stack(), next.loop_stack(), op_flag);
}

/// Enforces constraints of the TEND operation: the parent hash is popped from the context stack
/// into the first sponge register, the block hash moves to the second register, the fourth
/// register is cleared, and the loop stack does not change.
pub fn enforce_tend(result: &mut [u128], current: &TraceState, next: &TraceState, op_flag: u128)
    requires
        flow_shape_ok(old(result)@, current, next),
    ensures
        final(result)@ == tend_constraints(old(result)@, current, next, op_flag),
{
    let _result_len = result.len();
    let parent_hash = current.ctx_stack()[0];
    let block_hash = current.sponge()[0];

    let next_sponge = next.sponge();
    result.agg_constraint(0, op_flag, are_equal(parent_hash, next_sponge[0]));
    result.agg_constraint(1, op_flag, are_equal(block_hash, next_sponge[1]));
    // no constraint on the 3rd element of the sponge
    result.agg_constraint(3, op_flag, is_zero(next_sponge[3]));

    // make parent hash was popped from context stack
    let ctx_len = current.ctx_stack().len();
    enforce_stack_left_shift(result, SPONGE_WIDTH, ctx_len, current.ctx_stack(), next.ctx_stack(), op_flag);

    // make sure loop stack didn't change
    let loop_len = current.loop_stack().len();
    enforce_stack_copy(result, SPONGE_WIDTH + ctx_len, loop_len, current.loop_stack(), next.loop_stack(), op_flag);
}

/// Enforces constraints of the FEND operation: like TEND, but the block hash moves to the third
/// sponge register.
pub fn enforce_fend(result: &mut [u128], current: &TraceState, next: &TraceState, op_flag: u128)
    requires
        flow_shape_ok(old(result)@, current, next),
    ensures
        final(result)@ == fend_constraints(old(result)@, current, next, op_flag),
{
    let _result_len = result.len();
    let parent_hash = current.ctx_stack()[0];
    let block_hash = current.sponge()[0];

    let next_sponge = next.sponge();
    result.agg_constraint(0, op_flag, are_equal(parent_hash, next_sponge[0]));
    // no constraint on the 2nd element of the sponge
    result.agg_constraint(2, op_flag, are_equal(block_hash, next_sponge[2]));
    result.agg_constraint(3, op_flag, is_zero(next_sponge[3]));

    // make sure parent hash was popped from context stack
    let ctx_len = current.ctx_stack().len();
    enforce_stack_left_shift(result, SPONGE_WIDTH, ctx_len, current.ctx_stack(), next.ctx_stack(), op_flag);

    // make sure loop stack didn't change
    let loop_len = current.loop_stack().len();
    enforce_stack_copy(result, SPONGE_WIDTH + ctx_len, loop_len, current.loop_stack(), next.loop_stack(), op_flag);
}

/// Enforces constraints of the LOOP operation: the sponge is cleared, the hash of the parent
/// block is pushed onto the context stack, and the loop stack is shifted right by one item
/// (its first item, the loop image, is not constrained).
pub fn enforce_loop(result: &mut [u128], current: &TraceState, next: &TraceState, op_flag: u128)
    requires
        flow_shape_ok(old(result)@, current, next),
    ensures
        final(result)@ == loop_constraints(old(result)@, current, next, op_flag),
{
    let _result_len = result.len();
    // make sure sponge state has been cleared
    clear_sponge(result, next, op_flag);

    // make sure hash of parent block was pushed onto the context stack
    let parent_hash = current.sponge()[0];
    let ctx_len = current.ctx_stack().len();
    result.agg_constraint(SPONGE_WIDTH, op_flag, are_equal(parent_hash, next.ctx_stack()[0]));
    enforce_stack_right_shift(result, SPONGE_WIDTH, ctx_len, current.ctx_stack(), next.ctx_stack(), op_flag);

    // make sure loop stack was shifted by 1 item to the right, but don't enforce constraints
    // on the first item of the stack (which will contain loop image)
    let loop_len = current.loop_stack().len();
    enforce_stack_right_shift(result, SPONGE_WIDTH + ctx_len, loop_len, current.loop_stack(), next.loop_stack(), op_flag);
}

/// Enforces constraints of the WRAP operation: the sponge is cleared and the context and loop
/// stacks do not change.
pub fn enforce_wrap(result: &mut [u128], current: &TraceState, next: &TraceState, op_flag: u128)
    requires
        flow_shape_ok(old(result)@, current, next),
    ensures
        final(result)@ == wrap_constraints(old(result)@, current, next, op_flag),
{
    let _result_len = result.len();
    // make sure sponge state has been cleared
    clear_sponge(result, next, op_flag);

    // make sure context stack didn't change
    let ctx_len = current.ctx_stack().len();
    enforce_stack_copy(result, SPONGE_WIDTH, ctx_len, current.ctx_stack(), next.ctx_stack(), op_flag);

    // make sure loop stack didn't change
    let loop_len = current.loop_stack().len();
    enforce_stack_copy(result, SPONGE_WIDTH + ctx_len, loop_len, current.loop_stack(), next.loop_stack(), op_flag);
}

/// Enforces constraints of the BREAK operation: the sponge and the context stack do not change,
/// and the loop image is popped from the loop stack.
pub fn enforce_break(result: &mut [u128], current: &TraceState, next: &TraceState, op_flag: u128)
    requires
        flow_shape_ok(old(result)@, current, next),
    ensures
        final(result)@ == break_constraints(old(result)@, current, next, op_flag),
{
    let _result_len = result.len();
    // make sure sponge state didn't change
    enforce_equal_range(result, 0, SPONGE_WIDTH, current.sponge(), 0, next.sponge(), 0, op_flag);

    // make sure context stack didn't change
    let ctx_len = current.ctx_stack().len();
    enforce_stack_copy(result, SPONGE_WIDTH, ctx_len, current.ctx_stack(), next.ctx_stack(), op_flag);

    // make loop image was popped from loop stack
    let loop_len = current.loop_stack().len();
    enforce_stack_left_shift(result, SPONGE_WIDTH + ctx_len, loop_len, current.loop_stack(), next.loop_stack(), op_flag);
}

/// Enforces constraints of the VOID operation: the sponge and the context and loop stacks do
/// not change.
pub fn enforce_void(result: &mut [u128], current: &TraceState, next: &TraceState, op_flag: u128)
    requires
        flow_shape_ok(old(result)@, current, next),
    ensures
        final(result)@ == void_constraints(old(result)@, current, next, op_flag),
{
    let _result_len = result.len();
    // make sure sponge state didn't change
    enforce_equal_range(result, 0, SPONGE_WIDTH, current.sponge(), 0, next.sponge(), 0, op_flag);

    // make sure context stack didn't change
    let ctx_len = current.ctx_stack().len();
    enforce_stack_copy(result, SPONGE_WIDTH, ctx_len, current.ctx_stack(), next.ctx_stack(), op_flag);

    // make sure loop stack didn't change
    let loop_len = current.loop_stack().len();
    enforce_stack_copy(result, SPONGE_WIDTH + ctx_len, loop_len, current.loop_stack(), next.loop_stack(), op_flag);
}

// HELPER FUNCTIONS
// ================================================================================================

/// Enforces that all sponge registers of `next` are zero.
fn clear_sponge(result: &mut [u128], next: &TraceState, op_flag: u128)
    requires
        old(result)@.len() >= SPONGE_WIDTH,
    ensures
        final(result)@ == sponge_cleared(old(result)@, next, op_flag),
{
    let next_sponge = next.sponge();
    result.agg_constraint(0, op_flag, is_zero(next_sponge[0]));
    result.agg_constraint(1, op_flag, is_zero(next_sponge[1]));
    result.agg_constraint(2, op_flag, is_zero(next_sponge[2]));
    result.agg_constraint(3, op_flag, is_zero(next_sponge[3]));
    assert(result@ =~= sponge_cleared(old(result)@, next, op_flag));
}

/// Enforces that the stack segment of `len` items whose constraints start at `offset` was
/// shifted left by one item and that its last item became zero.
fn enforce_stack_left_shift(result: &mut [u128], offset: usize, len: usize, old_stack: &[u128], new_stack: &[u128], op_flag: u128)
    requires
        offset + len <= old(result)@.len(),
        old_stack@.len() >= len,
        new_stack@.len() >= len,
    ensures
        final(result)@ == seg_left_shift(old(result)@, offset as int, len as int, old_stack@, new_stack@, op_flag),
{
    let _result_len = result.len();
    if len == 0 { return; }

    let last_idx = len - 1;
    enforce_equal_range(result, offset, offset + last_idx, old_stack, 1, new_stack, 0, op_flag);
    result.agg_constraint(offset + last_idx, op_flag, is_zero(new_stack[last_idx]));
}

/// Enforces that the stack segment of `len` items whose constraints start at `offset` was
/// shifted right by one item; the first item is not constrained.
fn enforce_stack_right_shift(result: &mut [u128], offset: usize, len: usize, old_stack: &[u128], new_stack: &[u128], op_flag: u128)
    requires
        offset + len <= old(result)@.len(),
        old_stack@.len() >= len,
        new_stack@.len() >= len,
    ensures
        final(result)@ == seg_right_shift(old(result)@, offset as int, len as int, old_stack@, new_stack@, op_flag),
{
    let _result_len = result.len();
    if len == 0 {
        assert(result@ =~= seg_right_shift(result@, offset as int, len as int, old_stack@, new_stack@, op_flag));
        return;
    }
    enforce_equal_range(result, offset + 1, offset + len, old_stack, 0, new_stack, 1, op_flag);
}

/// Enforces that the stack segment of `len` items whose constraints start at `offset` did not
/// change.
fn enforce_stack_copy(result: &mut [u128], offset: usize, len: usize, old_stack: &[u128], new_stack: &[u128], op_flag: u128)
    requires
        offset + len <= old(result)@.len(),
        old_stack@.len() >= len,
        new_stack@.len() >= len,
    ensures
        final(result)@ == seg_copy(old(result)@, offset as int, len as int, old_stack@, new_stack@, op_flag),
{
    let _result_len = result.len();
    enforce_equal_range(result, offset, offset + len, old_stack, 0, new_stack, 0, op_flag);
}

// LAWS
// ================================================================================================

/// A VOID step between two states with the same sponge, context stack and loop stack satisfies
/// all VOID constraints: canonical evaluations do not change.
pub proof fn lemma_void_accepts_unchanged_state(r: Seq<u128>, current: &TraceState, next: &TraceState, flag: u128)
    requires
        flow_shape_ok(r, current, next),
        all_canonical(r),
        next.sponge@ == current.sponge@,
        next.ctx_stack@ == current.ctx_stack@,
        next.loop_stack@ == current.loop_stack@,
    ensures
        void_constraints(r, current, next, flag) == r,
{
    lemma_agg_eq_range_noop(r, 0, SPONGE_WIDTH as int, current.sponge@, 0, next.sponge@, 0, flag);
    lemma_agg_eq_range_noop(r, SPONGE_WIDTH as int, SPONGE_WIDTH + current.ctx_stack@.len(), current.ctx_stack@, 0, next.ctx_stack@, 0, flag);
    lemma_agg_eq_range_noop(r, loop_offset(current), loop_offset(current) + current.loop_stack@.len(), current.loop_stack@, 0, next.loop_stack@, 0, flag);
}

/// A BEGIN step which clears the sponge, pushes the hash of the parent block (the first sponge
/// register) onto the context stack and keeps the loop stack satisfies all BEGIN constraints:
/// canonical evaluations do not change.
pub proof fn lemma_begin_accepts_valid_step(r: Seq<u128>, current: &TraceState, next: &TraceState, flag: u128)
    requires
        flow_shape_ok(r, current, next),
        all_canonical(r),
        forall|i: int| 0 <= i < SPONGE_WIDTH ==> #[trigger] next.sponge@[i] == 0,
        next.ctx_stack@[0] == current.sponge@[0],
        forall|i: int| 1 <= i < current.ctx_stack@.len() ==> #[trigger] next.ctx_stack@[i] == current.ctx_stack@[i - 1],
        next.loop_stack@ == current.loop_stack@,
    ensures
        begin_constraints(r, current, next, flag) == r,
{
    let cleared = sponge_cleared(r, next, flag);
    assert forall|i: int| 0 <= i < r.len() implies #[trigger] cleared[i] == r[i] by {
        if i < next.sponge@.len() {
            crate::stark::constraints::utils::lemma_agg_zero(r[i], flag);
        }
    }
    assert(cleared =~= r);
    assert(spec_are_equal(current.sponge@[0], next.ctx_stack@[0]) == 0) by {
        vstd::arithmetic::div_mod::lemma_small_mod(0, crate::math::field::MODULUS as nat);
    }
    lemma_agg_at_noop(r, SPONGE_WIDTH as int, flag);
    let c = current.ctx_stack@.len() as int;
    assert forall|i: int| SPONGE_WIDTH + 1 <= i < SPONGE_WIDTH + c implies
        #[trigger] current.ctx_stack@[0 + i - (SPONGE_WIDTH + 1)] == next.ctx_stack@[1 + i - (SPONGE_WIDTH + 1)] by {
        assert(next.ctx_stack@[1 + i - (SPONGE_WIDTH + 1)] == current.ctx_stack@[(1 + i - (SPONGE_WIDTH + 1)) - 1]);
    }
    lemma_agg_eq_range_noop(r, SPONGE_WIDTH + 1, SPONGE_WIDTH + c, current.ctx_stack@, 0, next.ctx_stack@, 1, flag);
    lemma_agg_eq_range_noop(r, loop_offset(current), loop_offset(current) + current.loop_stack@.len(), current.loop_stack@, 0, next.loop_stack@, 0, flag);
}

/// A constraint aggregated under a flag of one into a zero evaluation is its canonical value.
proof fn lemma_agg_one(value: u128)
    requires
        value < MODULUS,
    ensures
        agg(0, 1, value) == value,
{
    vstd::arithmetic::div_mod::lemma_small_mod(value as nat, MODULUS as nat);
    assert(1 * (value as int) == value as int);
}

/// A WRAP step satisfies its constraints exactly when it clears the sponge and keeps the context
/// and loop stacks: with the WRAP flag one and zero evaluations, the WRAP constraints all vanish
/// exactly when every sponge register after the step is zero and the context stack and the loop
/// stack after the step are those before it.
pub proof fn lemma_wrap_accepts_exactly_valid_steps(r: Seq<u128>, current: &TraceState, next: &TraceState)
    requires
        flow_shape_ok(r, current, next),
        forall|i: int| 0 <= i < r.len() ==> r[i] == 0,
        next.sponge@.len() == SPONGE_WIDTH,
        all_canonical(next.sponge@),
        all_canonical(current.ctx_stack@),
        all_canonical(next.ctx_stack@),
        all_canonical(current.loop_stack@),
        all_canonical(next.loop_stack@),
    ensures
        (wrap_constraints(r, current, next, 1) == r) == (
            (forall|i: int| 0 <= i < SPONGE_WIDTH ==> #[trigger] next.sponge@[i] == 0)
            && next.ctx_stack@ == current.ctx_stack@
            && next.loop_stack@ == current.loop_stack@),
{
    let c = current.ctx_stack@.len() as int;
    let l = current.loop_stack@.len() as int;
    let sp = next.sponge@;
    let cs = current.ctx_stack@;
    let ns = next.ctx_stack@;
    let cl = current.loop_stack@;
    let nl = next.loop_stack@;
    let w0 = sponge_cleared(r, next, 1);
    let w1 = ctx_copied(w0, current, next, 1);
    let w2 = loop_copied(w1, current, next, 1);
    assert(w2 == wrap_constraints(r, current, next, 1));
    assert forall|i: int| 0 <= i < r.len() implies #[trigger] w2[i] == (
        if i < SPONGE_WIDTH { sp[i] }
        else if i < SPONGE_WIDTH + c { f_sub(cs[i - SPONGE_WIDTH] as int, ns[i - SPONGE_WIDTH] as int) as u128 }
        else if i < SPONGE_WIDTH + c + l { f_sub(cl[i - SPONGE_WIDTH - c] as int, nl[i - SPONGE_WIDTH - c] as int) as u128 }
        else { 0u128 }) by {
        if i < SPONGE_WIDTH {
            lemma_agg_one(sp[i]);
        } else if i < SPONGE_WIDTH + c {
            let v = f_sub(cs[i - SPONGE_WIDTH] as int, ns[i - SPONGE_WIDTH] as int);
            vstd::arithmetic::div_mod::lemma_mod_bound(cs[i - SPONGE_WIDTH] as int - ns[i - SPONGE_WIDTH] as int, MODULUS as int);
            lemma_agg_one(v as u128);
            assert(spec_are_equal(cs[0 + i - SPONGE_WIDTH], ns[0 + i - SPONGE_WIDTH]) == v);
        } else if i < SPONGE_WIDTH + c + l {
            let v = f_sub(cl[i - SPONGE_WIDTH - c] as int, nl[i - SPONGE_WIDTH - c] as int);
            vstd::arithmetic::div_mod::lemma_mod_bound(cl[i - SPONGE_WIDTH - c] as int - nl[i - SPONGE_WIDTH - c] as int, MODULUS as int);
            lemma_agg_one(v as u128);
            assert(spec_are_equal(cl[0 + i - loop_offset(current)], nl[0 + i - loop_offset(current)]) == v);
        }
    }
    if w2 == r {
        assert forall|i: int| 0 <= i < SPONGE_WIDTH implies #[trigger] sp[i] == 0 by {
            assert(w2[i] == r[i]);
        }
        assert forall|k: int| 0 <= k < c implies cs[k] == ns[k] by {
            assert(w2[SPONGE_WIDTH + k] == r[SPONGE_WIDTH + k]);
            lemma_sub_zero_equal(cs[k], ns[k]);
        }
        assert(ns =~= cs);
        assert forall|k: int| 0 <= k < l implies cl[k] == nl[k] by {
            assert(w2[SPONGE_WIDTH + c + k] == r[SPONGE_WIDTH + c + k]);
            lemma_sub_zero_equal(cl[k], nl[k]);
        }
        assert(nl =~= cl);
    }
    if (forall|i: int| 0 <= i < SPONGE_WIDTH ==> #[trigger] sp[i] == 0) && ns == cs && nl == cl {
        assert forall|i: int| 0 <= i < r.len() implies w2[i] == r[i] by {
            if SPONGE_WIDTH <= i < SPONGE_WIDTH + c {
                lemma_sub_zero_equal(cs[i - SPONGE_WIDTH], ns[i - SPONGE_WIDTH]);
            } else if SPONGE_WIDTH + c <= i < SPONGE_WIDTH + c + l {
                lemma_sub_zero_equal(cl[i - SPONGE_WIDTH - c], nl[i - SPONGE_WIDTH - c]);
            }
        }
        assert(w2 =~= r);
    }
}

/// A difference constraint aggregated under a flag of one into a zero evaluation is the field
/// difference, which is zero exactly when the two canonical values are equal.
proof fn lemma_diff_one(a: u128, b: u128)
    requires
        a < MODULUS,
        b < MODULUS,
    ensures
        agg(0, 1, spec_are_equal(a, b)) == f_sub(a as int, b as int) as u128,
        (agg(0, 1, spec_are_equal(a, b)) == 0) == (a == b),
{
    vstd::arithmetic::div_mod::lemma_mod_bound(a as int - b as int, MODULUS as int);
    lemma_agg_one(f_sub(a as int, b as int) as u128);
    lemma_sub_zero_equal(a, b);
}

/// A VOID step satisfies its constraints exactly when it changes nothing: with the VOID flag one
/// and zero evaluations, the VOID constraints all vanish exactly when the sponge, the context
/// stack and the loop stack after the step are those before it.
pub proof fn lemma_void_accepts_exactly_unchanged_state(r: Seq<u128>, current: &TraceState, next: &TraceState)
    requires
        flow_shape_ok(r, current, next),
        forall|i: int| 0 <= i < r.len() ==> r[i] == 0,
        current.sponge@.len() == SPONGE_WIDTH,
        next.sponge@.len() == SPONGE_WIDTH,
        all_canonical(current.sponge@),
        all_canonical(next.sponge@),
        all_canonical(current.ctx_stack@),
        all_canonical(next.ctx_stack@),
        all_canonical(current.loop_stack@),
        all_canonical(next.loop_stack@),
    ensures
        (void_constraints(r, current, next, 1) == r) == (
            next.sponge@ == current.sponge@
            && next.ctx_stack@ == current.ctx_stack@
            && next.loop_stack@ == current.loop_stack@),
{
    let c = current.ctx_stack@.len() as int;
    let l = current.loop_stack@.len() as int;
    let (cp, np, cs, ns, cl, nl) = (current.sponge@, next.sponge@, current.ctx_stack@, next.ctx_stack@, current.loop_stack@, next.loop_stack@);
    let w = void_constraints(r, current, next, 1);
    assert forall|i: int| 0 <= i < r.len() implies #[trigger] w[i] == (
        if i < SPONGE_WIDTH { agg(0, 1, spec_are_equal(cp[i], np[i])) }
        else if i < SPONGE_WIDTH + c { agg(0, 1, spec_are_equal(cs[i - SPONGE_WIDTH], ns[i - SPONGE_WIDTH])) }
        else if i < SPONGE_WIDTH + c + l { agg(0, 1, spec_are_equal(cl[i - SPONGE_WIDTH - c], nl[i - SPONGE_WIDTH - c])) }
        else { 0u128 }) by {
        if i < SPONGE_WIDTH {
            lemma_diff_one(cp[i], np[i]);
        } else if i < SPONGE_WIDTH + c {
            lemma_diff_one(cs[i - SPONGE_WIDTH], ns[i - SPONGE_WIDTH]);
            assert(cs[0 + i - SPONGE_WIDTH] == cs[i - SPONGE_WIDTH]);
        } else if i < SPONGE_WIDTH + c + l {
            lemma_diff_one(cl[i - SPONGE_WIDTH - c], nl[i - SPONGE_WIDTH - c]);
            assert(cl[0 + i - loop_offset(current)] == cl[i - SPONGE_WIDTH - c]);
        }
    }
    if w == r {
        assert forall|k: int| 0 <= k < SPONGE_WIDTH implies cp[k] == np[k] by {
            assert(w[k] == r[k]);
            lemma_diff_one(cp[k], np[k]);
        }
        assert(np =~= cp);
        assert forall|k: int| 0 <= k < c implies cs[k] == ns[k] by {
            assert(w[SPONGE_WIDTH + k] == r[SPONGE_WIDTH + k]);
            lemma_diff_one(cs[k], ns[k]);
        }
        assert(ns =~= cs);
        assert forall|k: int| 0 <= k < l implies cl[k] == nl[k] by {
            assert(w[SPONGE_WIDTH + c + k] == r[SPONGE_WIDTH + c + k]);
            lemma_diff_one(cl[k], nl[k]);
        }
        assert(nl =~= cl);
    }
    if np == cp && ns == cs && nl == cl {
        assert forall|i: int| 0 <= i < r.len() implies w[i] == r[i] by {
            if i < SPONGE_WIDTH {
                lemma_diff_one(cp[i], np[i]);
            } else if i < SPONGE_WIDTH + c {
                lemma_diff_one(cs[i - SPONGE_WIDTH], ns[i - SPONGE_WIDTH]);
            } else if i < SPONGE_WIDTH + c + l {
                lemma_diff_one(cl[i - SPONGE_WIDTH - c], nl[i - SPONGE_WIDTH - c]);
            }
        }
        assert(w =~= r);
    }
}

/// A BEGIN step satisfies its constraints exactly when it opens a block: with the BEGIN flag one
/// and zero evaluations, the BEGIN constraints all vanish exactly when the sponge after the step
/// is zero, the hash of the parent block (the first sponge register before the step) is pushed
/// onto the context stack, and the loop stack is unchanged.
pub proof fn lemma_begin_accepts_exactly_valid_steps(r: Seq<u128>, current: &TraceState, next: &TraceState)
    requires
        flow_shape_ok(r, current, next),
        forall|i: int| 0 <= i < r.len() ==> r[i] == 0,
        current.sponge@.len() == SPONGE_WIDTH,
        next.sponge@.len() == SPONGE_WIDTH,
        all_canonical(current.sponge@),
        all_canonical(next.sponge@),
        all_canonical(current.ctx_stack@),
        all_canonical(next.ctx_stack@),
        all_canonical(current.loop_stack@),
        all_canonical(next.loop_stack@),
    ensures
        (begin_constraints(r, current, next, 1) == r) == (
            (forall|i: int| 0 <= i < SPONGE_WIDTH ==> #[trigger] next.sponge@[i] == 0)
            && next.ctx_stack@[0] == current.sponge@[0]
            && (forall|k: int| 1 <= k < current.ctx_stack@.len() ==> #[trigger] next.ctx_stack@[k] == current.ctx_stack@[k - 1])
            && next.loop_stack@ == current.loop_stack@),
{
    let c = current.ctx_stack@.len() as int;
    let l = current.loop_stack@.len() as int;
    let lo = loop_offset(current);
    let (cp, np, cs, ns, cl, nl) = (current.sponge@, next.sponge@, current.ctx_stack@, next.ctx_stack@, current.loop_stack@, next.loop_stack@);
    let w = begin_constraints(r, current, next, 1);
    assert forall|i: int| 0 <= i < r.len() implies #[trigger] w[i] == (
        if i < SPONGE_WIDTH { np[i] }
        else if i == SPONGE_WIDTH { agg(0, 1, spec_are_equal(cp[0], ns[0])) }
        else if i < SPONGE_WIDTH + c { agg(0, 1, spec_are_equal(cs[i - SPONGE_WIDTH - 1], ns[i - SPONGE_WIDTH])) }
        else if i < lo + l { agg(0, 1, spec_are_equal(cl[i - lo], nl[i - lo])) }
        else { 0u128 }) by {
        if i < SPONGE_WIDTH {
            lemma_agg_one(np[i]);
        } else if i == SPONGE_WIDTH {
            lemma_diff_one(cp[0], ns[0]);
        } else if i < SPONGE_WIDTH + c {
            assert(cs[0 + i - (SPONGE_WIDTH + 1)] == cs[i - SPONGE_WIDTH - 1]);
            assert(ns[1 + i - (SPONGE_WIDTH + 1)] == ns[i - SPONGE_WIDTH]);
            lemma_diff_one(cs[i - SPONGE_WIDTH - 1], ns[i - SPONGE_WIDTH]);
        } else if i < lo + l {
            assert(cl[0 + i - lo] == cl[i - lo]);
            lemma_diff_one(cl[i - lo], nl[i - lo]);
        }
    }
    if w == r {
        assert forall|k: int| 0 <= k < SPONGE_WIDTH implies #[trigger] np[k] == 0 by {
            assert(w[k] == r[k]);
        }
        assert(w[SPONGE_WIDTH as int] == r[SPONGE_WIDTH as int]);
        lemma_diff_one(cp[0], ns[0]);
        assert forall|k: int| 1 <= k < c implies #[trigger] ns[k] == cs[k - 1] by {
            assert(w[SPONGE_WIDTH + k] == r[SPONGE_WIDTH + k]);
            lemma_diff_one(cs[k - 1], ns[k]);
        }
        assert forall|k: int| 0 <= k < l implies cl[k] == nl[k] by {
            assert(w[lo + k] == r[lo + k]);
            lemma_diff_one(cl[k], nl[k]);
        }
        assert(nl =~= cl);
    }
    if (forall|k: int| 0 <= k < SPONGE_WIDTH ==> #[trigger] np[k] == 0) && ns[0] == cp[0]
        && (forall|k: int| 1 <= k < c ==> #[trigger] ns[k] == cs[k - 1]) && nl == cl {
        assert forall|i: int| 0 <= i < r.len() implies w[i] == r[i] by {
            if i == SPONGE_WIDTH {
                lemma_diff_one(cp[0], ns[0]);
            } else if SPONGE_WIDTH < i < SPONGE_WIDTH + c {
                assert(ns[i - SPONGE_WIDTH] == cs[i - SPONGE_WIDTH - 1]);
                lemma_diff_one(cs[i - SPONGE_WIDTH - 1], ns[i - SPONGE_WIDTH]);
            } else if SPONGE_WIDTH + c <= i < lo + l {
                lemma_diff_one(cl[i - lo], nl[i - lo]);
            }
        }
        assert(w =~= r);
    }
}

/// A LOOP step satisfies its constraints exactly when it enters a loop: with the LOOP flag one
/// and zero evaluations, the LOOP constraints all vanish exactly when the sponge after the step is
/// zero, the hash of the parent block is pushed onto the context stack, and the loop stack is
/// shifted down by one item (its new top is not constrained).
pub proof fn lemma_loop_accepts_exactly_valid_steps(r: Seq<u128>, current: &TraceState, next: &TraceState)
    requires
        flow_shape_ok(r, current, next),
        forall|i: int| 0 <= i < r.len() ==> r[i] == 0,
        current.sponge@.len() == SPONGE_WIDTH,
        next.sponge@.len() == SPONGE_WIDTH,
        all_canonical(current.sponge@),
        all_canonical(next.sponge@),
        all_canonical(current.ctx_stack@),
        all_canonical(next.ctx_stack@),
        all_canonical(current.loop_stack@),
        all_canonical(next.loop_stack@),
    ensures
        (loop_constraints(r, current, next, 1) == r) == (
            (forall|i: int| 0 <= i < SPONGE_WIDTH ==> #[trigger] next.sponge@[i] == 0)
            && next.ctx_stack@[0] == current.sponge@[0]
            && (forall|k: int| 1 <= k < current.ctx_stack@.len() ==> #[trigger] next.ctx_stack@[k] == current.ctx_stack@[k - 1])
            && (forall|k: int| 1 <= k < current.loop_stack@.len() ==> #[trigger] next.loop_stack@[k] == current.loop_stack@[k - 1])),
{
    let c = current.ctx_stack@.len() as int;
    let l = current.loop_stack@.len() as int;
    let lo = loop_offset(current);
    let (cp, np, cs, ns, cl, nl) = (current.sponge@, next.sponge@, current.ctx_stack@, next.ctx_stack@, current.loop_stack@, next.loop_stack@);
    let w = loop_constraints(r, current, next, 1);
    assert forall|i: int| 0 <= i < r.len() implies #[trigger] w[i] == (
        if i < SPONGE_WIDTH { np[i] }
        else if i == SPONGE_WIDTH { agg(0, 1, spec_are_equal(cp[0], ns[0])) }
        else if i < SPONGE_WIDTH + c { agg(0, 1, spec_are_equal(cs[i - SPONGE_WIDTH - 1], ns[i - SPONGE_WIDTH])) }
        else if lo < i < lo + l { agg(0, 1, spec_are_equal(cl[i - lo - 1], nl[i - lo])) }
        else { 0u128 }) by {
        if i < SPONGE_WIDTH {
            lemma_agg_one(np[i]);
        } else if i == SPONGE_WIDTH {
            lemma_diff_one(cp[0], ns[0]);
        } else if i < SPONGE_WIDTH + c {
            assert(cs[0 + i - (SPONGE_WIDTH + 1)] == cs[i - SPONGE_WIDTH - 1]);
            assert(ns[1 + i - (SPONGE_WIDTH + 1)] == ns[i - SPONGE_WIDTH]);
            lemma_diff_one(cs[i - SPONGE_WIDTH - 1], ns[i - SPONGE_WIDTH]);
        } else if lo < i < lo + l {
            assert(cl[0 + i - (lo + 1)] == cl[i - lo - 1]);
            assert(nl[1 + i - (lo + 1)] == nl[i - lo]);
            lemma_diff_one(cl[i - lo - 1], nl[i - lo]);
        }
    }
    if w == r {
        assert forall|k: int| 0 <= k < SPONGE_WIDTH implies #[trigger] np[k] == 0 by {
            assert(w[k] == r[k]);
        }
        assert(w[SPONGE_WIDTH as int] == r[SPONGE_WIDTH as int]);
        lemma_diff_one(cp[0], ns[0]);
        assert forall|k: int| 1 <= k < c implies #[trigger] ns[k] == cs[k - 1] by {
            assert(w[SPONGE_WIDTH + k] == r[SPONGE_WIDTH + k]);
            lemma_diff_one(cs[k - 1], ns[k]);
        }
        assert forall|k: int| 1 <= k < l implies #[trigger] nl[k] == cl[k - 1] by {
            assert(w[lo + k] == r[lo + k]);
            lemma_diff_one(cl[k - 1], nl[k]);
        }
    }
    if (forall|k: int| 0 <= k < SPONGE_WIDTH ==> #[trigger] np[k] == 0) && ns[0] == cp[0]
        && (forall|k: int| 1 <= k < c ==> #[trigger] ns[k] == cs[k - 1])
        && (forall|k: int| 1 <= k < l ==> #[trigger] nl[k] == cl[k - 1]) {
        assert forall|i: int| 0 <= i < r.len() implies w[i] == r[i] by {
            if i == SPONGE_WIDTH {
                lemma_diff_one(cp[0], ns[0]);
            } else if SPONGE_WIDTH < i < SPONGE_WIDTH + c {
                assert(ns[i - SPONGE_WIDTH] == cs[i - SPONGE_WIDTH - 1]);
                lemma_diff_one(cs[i - SPONGE_WIDTH - 1], ns[i - SPONGE_WIDTH]);
            } else if lo < i < lo + l {
                assert(nl[i - lo] == cl[i - lo - 1]);
                lemma_diff_one(cl[i - lo - 1], nl[i - lo]);
            }
        }
        assert(w =~= r);
    }
}

/// A BREAK step satisfies its constraints exactly when it leaves a loop: with the BREAK flag one
/// and zero evaluations, the BREAK constraints all vanish exactly when the sponge and the context
/// stack are unchanged, and the loop stack is shifted up by one item with a zero at its bottom.
pub proof fn lemma_break_accepts_exactly_valid_steps(r: Seq<u128>, current: &TraceState, next: &TraceState)
    requires
        flow_shape_ok(r, current, next),
        forall|i: int| 0 <= i < r.len() ==> r[i] == 0,
        current.sponge@.len() == SPONGE_WIDTH,
        next.sponge@.len() == SPONGE_WIDTH,
        all_canonical(current.sponge@),
        all_canonical(next.sponge@),
        all_canonical(current.ctx_stack@),
        all_canonical(next.ctx_stack@),
        all_canonical(current.loop_stack@),
        all_canonical(next.loop_stack@),
    ensures
        (break_constraints(r, current, next, 1) == r) == (
            next.sponge@ == current.sponge@
            && next.ctx_stack@ == current.ctx_stack@
            && (forall|k: int| 0 <= k < current.loop_stack@.len() - 1 ==> #[trigger] next.loop_stack@[k] == current.loop_stack@[k + 1])
            && (current.loop_stack@.len() > 0 ==> next.loop_stack@[current.loop_stack@.len() - 1] == 0)),
{
    let c = current.ctx_stack@.len() as int;
    let l = current.loop_stack@.len() as int;
    let lo = loop_offset(current);
    let (cp, np, cs, ns, cl, nl) = (current.sponge@, next.sponge@, current.ctx_stack@, next.ctx_stack@, current.loop_stack@, next.loop_stack@);
    let w = break_constraints(r, current, next, 1);
    assert forall|i: int| 0 <= i < r.len() implies #[trigger] w[i] == (
        if i < SPONGE_WIDTH { agg(0, 1, spec_are_equal(cp[i], np[i])) }
        else if i < SPONGE_WIDTH + c { agg(0, 1, spec_are_equal(cs[i - SPONGE_WIDTH], ns[i - SPONGE_WIDTH])) }
        else if i < lo + l - 1 { agg(0, 1, spec_are_equal(cl[i - lo + 1], nl[i - lo])) }
        else if i == lo + l - 1 { nl[l - 1] }
        else { 0u128 }) by {
        if i < SPONGE_WIDTH {
            lemma_diff_one(cp[i], np[i]);
        } else if i < SPONGE_WIDTH + c {
            assert(cs[0 + i - SPONGE_WIDTH] == cs[i - SPONGE_WIDTH]);
            lemma_diff_one(cs[i - SPONGE_WIDTH], ns[i - SPONGE_WIDTH]);
        } else if i < lo + l - 1 {
            assert(cl[1 + i - lo] == cl[i - lo + 1]);
            assert(nl[0 + i - lo] == nl[i - lo]);
            lemma_diff_one(cl[i - lo + 1], nl[i - lo]);
        } else if i == lo + l - 1 {
            lemma_agg_one(nl[l - 1]);
        }
    }
    if w == r {
        assert forall|k: int| 0 <= k < SPONGE_WIDTH implies cp[k] == np[k] by {
            assert(w[k] == r[k]);
            lemma_diff_one(cp[k], np[k]);
        }
        assert(np =~= cp);
        assert forall|k: int| 0 <= k < c implies cs[k] == ns[k] by {
            assert(w[SPONGE_WIDTH + k] == r[SPONGE_WIDTH + k]);
            lemma_diff_one(cs[k], ns[k]);
        }
        assert(ns =~= cs);
        assert forall|k: int| 0 <= k < l - 1 implies #[trigger] nl[k] == cl[k + 1] by {
            assert(w[lo + k] == r[lo + k]);
            lemma_diff_one(cl[k + 1], nl[k]);
        }
        if l > 0 {
            assert(w[lo + l - 1] == r[lo + l - 1]);
        }
    }
    if np == cp && ns == cs && (forall|k: int| 0 <= k < l - 1 ==> #[trigger] nl[k] == cl[k + 1])
        && (l > 0 ==> nl[l - 1] == 0) {
        assert forall|i: int| 0 <= i < r.len() implies w[i] == r[i] by {
            if i < SPONGE_WIDTH {
                lemma_diff_one(cp[i], np[i]);
            } else if i < SPONGE_WIDTH + c {
                lemma_diff_one(cs[i - SPONGE_WIDTH], ns[i - SPONGE_WIDTH]);
            } else if i < lo + l - 1 {
                assert(nl[i - lo] == cl[i - lo + 1]);
                lemma_diff_one(cl[i - lo + 1], nl[i - lo]);
            }
        }
        assert(w =~= r);
    }
}

/// A TEND step satisfies its constraints exactly when it closes a true branch: with the TEND
/// flag one and zero evaluations, the TEND constraints all vanish exactly when the sponge after
/// the step holds the parent hash (the top of the context stack) in its first register, the hash
/// of the true branch (the first sponge register before the step) in register 1 and zero in
/// the last register, the context stack is popped with a zero at its bottom, and the loop stack is
/// unchanged.
pub proof fn lemma_tend_accepts_exactly_valid_steps(r: Seq<u128>, current: &TraceState, next: &TraceState)
    requires
        flow_shape_ok(r, current, next),
        forall|i: int| 0 <= i < r.len() ==> r[i] == 0,
        current.sponge@.len() == SPONGE_WIDTH,
        next.sponge@.len() == SPONGE_WIDTH,
        all_canonical(current.sponge@),
        all_canonical(next.sponge@),
        all_canonical(current.ctx_stack@),
        all_canonical(next.ctx_stack@),
        all_canonical(current.loop_stack@),
        all_canonical(next.loop_stack@),
    ensures
        (tend_constraints(r, current, next, 1) == r) == (
            next.sponge@[0] == current.ctx_stack@[0]
            && next.sponge@[1] == current.sponge@[0]
            && next.sponge@[3] == 0
            && (forall|k: int| 0 <= k < current.ctx_stack@.len() - 1 ==> #[trigger] next.ctx_stack@[k] == current.ctx_stack@[k + 1])
            && next.ctx_stack@[current.ctx_stack@.len() - 1] == 0
            && next.loop_stack@ == current.loop_stack@),
{
    let c = current.ctx_stack@.len() as int;
    let l = current.loop_stack@.len() as int;
    let lo = loop_offset(current);
    let (cp, np, cs, ns, cl, nl) = (current.sponge@, next.sponge@, current.ctx_stack@, next.ctx_stack@, current.loop_stack@, next.loop_stack@);
    let w = tend_constraints(r, current, next, 1);
    assert forall|i: int| 0 <= i < r.len() implies #[trigger] w[i] == (
        if i == 0 { agg(0, 1, spec_are_equal(cs[0], np[0])) }
        else if i == 1 { agg(0, 1, spec_are_equal(cp[0], np[1])) }
        else if i < 3 { 0u128 }
        else if i == 3 { np[3] }
        else if i < SPONGE_WIDTH + c - 1 { agg(0, 1, spec_are_equal(cs[i - SPONGE_WIDTH + 1], ns[i - SPONGE_WIDTH])) }
        else if i == SPONGE_WIDTH + c - 1 { ns[c - 1] }
        else if i < lo + l { agg(0, 1, spec_are_equal(cl[i - lo], nl[i - lo])) }
        else { 0u128 }) by {
        if i == 0 {
            lemma_diff_one(cs[0], np[0]);
        } else if i == 1 {
            lemma_diff_one(cp[0], np[1]);
        } else if i == 3 {
            lemma_agg_one(np[3]);
        } else if 3 < i < SPONGE_WIDTH + c - 1 {
            assert(cs[1 + i - SPONGE_WIDTH] == cs[i - SPONGE_WIDTH + 1]);
            assert(ns[0 + i - SPONGE_WIDTH] == ns[i - SPONGE_WIDTH]);
            lemma_diff_one(cs[i - SPONGE_WIDTH + 1], ns[i - SPONGE_WIDTH]);
        } else if i == SPONGE_WIDTH + c - 1 {
            lemma_agg_one(ns[c - 1]);
        } else if SPONGE_WIDTH + c - 1 < i < lo + l {
            assert(cl[0 + i - lo] == cl[i - lo]);
            lemma_diff_one(cl[i - lo], nl[i - lo]);
        }
    }
    if w == r {
        assert(w[0] == r[0]);
        lemma_diff_one(cs[0], np[0]);
        assert(w[1] == r[1]);
        lemma_diff_one(cp[0], np[1]);
        assert(w[3] == r[3]);
        assert forall|k: int| 0 <= k < c - 1 implies #[trigger] ns[k] == cs[k + 1] by {
            assert(w[SPONGE_WIDTH + k] == r[SPONGE_WIDTH + k]);
            lemma_diff_one(cs[k + 1], ns[k]);
        }
        assert(w[SPONGE_WIDTH + c - 1] == r[SPONGE_WIDTH + c - 1]);
        assert forall|k: int| 0 <= k < l implies cl[k] == nl[k] by {
            assert(w[lo + k] == r[lo + k]);
            lemma_diff_one(cl[k], nl[k]);
        }
        assert(nl =~= cl);
    }
    if np[0] == cs[0] && np[1] == cp[0] && np[3] == 0
        && (forall|k: int| 0 <= k < c - 1 ==> #[trigger] ns[k] == cs[k + 1]) && ns[c - 1] == 0 && nl == cl {
        assert forall|i: int| 0 <= i < r.len() implies w[i] == r[i] by {
            if i == 0 {
                lemma_diff_one(cs[0], np[0]);
            } else if i == 1 {
                lemma_diff_one(cp[0], np[1]);
            } else if 3 < i < SPONGE_WIDTH + c - 1 {
                assert(ns[i - SPONGE_WIDTH] == cs[i - SPONGE_WIDTH + 1]);
                lemma_diff_one(cs[i - SPONGE_WIDTH + 1], ns[i - SPONGE_WIDTH]);
            } else if SPONGE_WIDTH + c - 1 < i < lo + l {
                lemma_diff_one(cl[i - lo], nl[i - lo]);
            }
        }
        assert(w =~= r);
    }
}

/// A FEND step satisfies its constraints exactly when it closes a false branch: with the FEND
/// flag one and zero evaluations, the FEND constraints all vanish exactly when the sponge after
/// the step holds the parent hash (the top of the context stack) in its first register, the hash
/// of the false branch (the first sponge register before the step) in register 2 and zero in
/// the last register, the context stack is popped with a zero at its bottom, and the loop stack is
/// unchanged.
pub proof fn lemma_fend_accepts_exactly_valid_steps(r: Seq<u128>, current: &TraceState, next: &TraceState)
    requires
        flow_shape_ok(r, current, next),
        forall|i: int| 0 <= i < r.len() ==> r[i] == 0,
        current.sponge@.len() == SPONGE_WIDTH,
        next.sponge@.len() == SPONGE_WIDTH,
        all_canonical(current.sponge@),
        all_canonical(next.sponge@),
        all_canonical(current.ctx_stack@),
        all_canonical(next.ctx_stack@),
        all_canonical(current.loop_stack@),
        all_canonical(next.loop_stack@),
    ensures
        (fend_constraints(r, current, next, 1) == r) == (
            next.sponge@[0] == current.ctx_stack@[0]
            && next.sponge@[2] == current.sponge@[0]
            && next.sponge@[3] == 0
            && (forall|k: int| 0 <= k < current.ctx_stack@.len() - 1 ==> #[trigger] next.ctx_stack@[k] == current.ctx_stack@[k + 1])
            && next.ctx_stack@[current.ctx_stack@.len() - 1] == 0
            && next.loop_stack@ == current.loop_stack@),
{
    let c = current.ctx_stack@.len() as int;
    let l = current.loop_stack@.len() as int;
    let lo = loop_offset(current);
    let (cp, np, cs, ns, cl, nl) = (current.sponge@, next.sponge@, current.ctx_stack@, next.ctx_stack@, current.loop_stack@, next.loop_stack@);
    let w = fend_constraints(r, current, next, 1);
    assert forall|i: int| 0 <= i < r.len() implies #[trigger] w[i] == (
        if i == 0 { agg(0, 1, spec_are_equal(cs[0], np[0])) }
        else if i == 2 { agg(0, 1, spec_are_equal(cp[0], np[2])) }
        else if i < 3 { 0u128 }
        else if i == 3 { np[3] }
        else if i < SPONGE_WIDTH + c - 1 { agg(0, 1, spec_are_equal(cs[i - SPONGE_WIDTH + 1], ns[i - SPONGE_WIDTH])) }
        else if i == SPONGE_WIDTH + c - 1 { ns[c - 1] }
        else if i < lo + l { agg(0, 1, spec_are_equal(cl[i - lo], nl[i - lo])) }
        else { 0u128 }) by {
        if i == 0 {
            lemma_diff_one(cs[0], np[0]);
        } else if i == 2 {
            lemma_diff_one(cp[0], np[2]);
        } else if i == 3 {
            lemma_agg_one(np[3]);
        } else if 3 < i < SPONGE_WIDTH + c - 1 {
            assert(cs[1 + i - SPONGE_WIDTH] == cs[i - SPONGE_WIDTH + 1]);
            assert(ns[0 + i - SPONGE_WIDTH] == ns[i - SPONGE_WIDTH]);
            lemma_diff_one(cs[i - SPONGE_WIDTH + 1], ns[i - SPONGE_WIDTH]);
        } else if i == SPONGE_WIDTH + c - 1 {
            lemma_agg_one(ns[c - 1]);
        } else if SPONGE_WIDTH + c - 1 < i < lo + l {
            assert(cl[0 + i - lo] == cl[i - lo]);
            lemma_diff_one(cl[i - lo], nl[i - lo]);
        }
    }
    if w == r {
        assert(w[0] == r[0]);
        lemma_diff_one(cs[0], np[0]);
        assert(w[2] == r[2]);
        lemma_diff_one(cp[0], np[2]);
        assert(w[3] == r[3]);
        assert forall|k: int| 0 <= k < c - 1 implies #[trigger] ns[k] == cs[k + 1] by {
            assert(w[SPONGE_WIDTH + k] == r[SPONGE_WIDTH + k]);
            lemma_diff_one(cs[k + 1], ns[k]);
        }
        assert(w[SPONGE_WIDTH + c - 1] == r[SPONGE_WIDTH + c - 1]);
        assert forall|k: int| 0 <= k < l implies cl[k] == nl[k] by {
            assert(w[lo + k] == r[lo + k]);
            lemma_diff_one(cl[k], nl[k]);
        }
        assert(nl =~= cl);
    }
    if np[0] == cs[0] && np[2] == cp[0] && np[3] == 0
        && (forall|k: int| 0 <= k < c - 1 ==> #[trigger] ns[k] == cs[k + 1]) && ns[c - 1] == 0 && nl == cl {
        assert forall|i: int| 0 <= i < r.len() implies w[i] == r[i] by {
            if i == 0 {
                lemma_diff_one(cs[0], np[0]);
            } else if i == 2 {
                lemma_diff_one(cp[0], np[2]);
            } else if 3 < i < SPONGE_WIDTH + c - 1 {
                assert(ns[i - SPONGE_WIDTH] == cs[i - SPONGE_WIDTH + 1]);
                lemma_diff_one(cs[i - SPONGE_WIDTH + 1], ns[i - SPONGE_WIDTH]);
            } else if SPONGE_WIDTH + c - 1 < i < lo + l {
                lemma_diff_one(cl[i - lo], nl[i - lo]);
            }
        }
        assert(w =~= r);
    }
}

} // verus!
