use vstd::prelude::*;
use crate::utils::sponge::spec_round;
use super::blocks::{
    ProgramBlock, block_hash, block_wf, blocks_wf, block_list_ok, seq_hash, seq_state, span_state,
    push_value, zero_state, span_ok,
};
use super::hashing::{ acc_round, acc_rounds, spec_hash_acc, ACC_NUM_ROUNDS, CYCLE_LENGTH };
use super::program2::Program;
use super::hashing::lemma_blocks_wf_each;

verus! {

// EXECUTION PATHS
// ================================================================================================

/// The outcome of walking part of a program: the accumulator state, the next step, and the
/// decisions left; `None` where execution cannot go on (no decision left, a decision which is
/// neither 0 nor 1, or a loop body whose image is not its hash).
pub type WalkOutcome = Option<(Seq<u128>, int, Seq<u128>)>;

/// The state after the first `n` operations of a span were executed from state `s`, the first
/// of them on step `step`.
pub open spec fn walk_span(ops: Seq<u8>, hints: Map<usize, super::blocks::ExecutionHint>, s: Seq<u128>, step: int, n: nat) -> Seq<u128>
    decreases n,
{
    if n == 0 {
        s
    } else {
        let i = n - 1;
        spec_round(walk_span(ops, hints, s, step, i as nat), ops[i] as u128, push_value(ops, hints, i), step + i)
    }
}

/// Executes block `b` from the accumulator state `s` on step `step`, taking branch and loop
/// decisions from the end of `dec`.
pub open spec fn walk_block(b: ProgramBlock, dec: Seq<u128>, s: Seq<u128>, step: int) -> WalkOutcome
    decreases b, 0nat, 0nat,
{
    match b {
        ProgramBlock::Span(sp) => Some((
            walk_span(sp.op_codes@, sp.op_hints@, s, step, sp.op_codes@.len()),
            step + sp.op_codes@.len(),
            dec,
        )),
        ProgramBlock::Group(g) => walk_true(g.body@, dec, s[0], 0, step + 1),
        ProgramBlock::Switch(w) => {
            if dec.len() == 0 {
                None
            } else if dec.last() == 1 {
                walk_true(w.t_branch@, dec.drop_last(), s[0], seq_hash(w.f_branch@, false), step + 1)
            } else if dec.last() == 0 {
                walk_false(w.f_branch@, dec.drop_last(), s[0], seq_hash(w.t_branch@, false), step + 1)
            } else {
                None
            }
        },
        ProgramBlock::Loop(l) => {
            if dec.len() == 0 {
                None
            } else if dec.last() == 1 {
                walk_loop(l.body@, dec.drop_last(), s[0], seq_hash(l.body@, true), seq_hash(l.skip@, false), step + 1)
            } else if dec.last() == 0 {
                walk_false(l.skip@, dec.drop_last(), s[0], seq_hash(l.body@, true), step + 1)
            } else {
                None
            }
        },
    }
}

/// Executes the first `n` blocks of a sequence from the zero state on step `step`: a span after
/// the first block is preceded by one accumulator round.
pub open spec fn walk_seq(blocks: Seq<ProgramBlock>, n: nat, dec: Seq<u128>, step: int) -> WalkOutcome
    decreases blocks, n, 0nat,
{
    if n == 0 || n > blocks.len() {
        Some((zero_state(), step, dec))
    } else {
        match walk_seq(blocks, (n - 1) as nat, dec, step) {
            None => None,
            Some(w) => {
                if n - 1 != 0 && blocks[n - 1] is Span {
                    walk_block(blocks[n - 1], w.2, acc_round(w.0, w.1), w.1 + 1)
                } else {
                    walk_block(blocks[n - 1], w.2, w.0, w.1)
                }
            },
        }
    }
}

/// Executes a sequence as the branch taken (or the body of a group): its blocks, one more
/// accumulator round, the TEND step, then the merge of its hash and `sibling` into `parent`.
pub open spec fn walk_true(blocks: Seq<ProgramBlock>, dec: Seq<u128>, parent: u128, sibling: u128, step: int) -> WalkOutcome
    decreases blocks, blocks.len() + 1, 0nat,
{
    match walk_seq(blocks, blocks.len(), dec, step) {
        None => None,
        Some(w) => {
            let h = acc_round(w.0, w.1)[0];
            let t = w.1 + 2;
            Some((acc_rounds(seq![parent, h, sibling, 0u128], t, ACC_NUM_ROUNDS as nat), t + ACC_NUM_ROUNDS, w.2))
        },
    }
}

/// Executes a sequence as the branch not taken by a true condition (the false branch, or the
/// skip sequence of a loop not entered), ending with the FEND step and the merge of `sibling` and
/// its hash into `parent`.
pub open spec fn walk_false(blocks: Seq<ProgramBlock>, dec: Seq<u128>, parent: u128, sibling: u128, step: int) -> WalkOutcome
    decreases blocks, blocks.len() + 1, 0nat,
{
    match walk_seq(blocks, blocks.len(), dec, step) {
        None => None,
        Some(w) => {
            let h = acc_round(w.0, w.1)[0];
            let t = w.1 + 2;
            Some((acc_rounds(seq![parent, sibling, h, 0u128], t, ACC_NUM_ROUNDS as nat), t + ACC_NUM_ROUNDS, w.2))
        },
    }
}

/// Executes the body of a loop, once and then again while the decision after each pass is 1: each
/// pass must end with the body's hash; after the last pass the TEND step and the merge of the
/// body and skip hashes into `parent` follow.
pub open spec fn walk_loop(body: Seq<ProgramBlock>, dec: Seq<u128>, parent: u128, body_hash: u128, skip_hash: u128, step: int) -> WalkOutcome
    decreases body, body.len() + 1, dec.len(),
{
    match walk_seq(body, body.len(), dec, step) {
        None => None,
        Some(w) => {
            if w.0[0] != body_hash || w.2.len() == 0 {
                None
            } else {
                let t = w.1 + 1;
                let d = w.2.drop_last();
                if w.2.last() == 0 {
                    let t2 = t + 1;
                    Some((acc_rounds(seq![parent, body_hash, skip_hash, 0u128], t2, ACC_NUM_ROUNDS as nat), t2 + ACC_NUM_ROUNDS, d))
                } else if w.2.last() == 1 && d.len() < dec.len() {
                    walk_loop(body, d, parent, body_hash, skip_hash, t)
                } else {
                    None
                }
            }
        },
    }
}

// ALIGNMENT
// ================================================================================================

/// Steps which agree modulo the cycle length still agree after adding the same offset.
proof fn lemma_cycle_shift(a: int, b: int, k: int)
    requires
        a % 16 == b % 16,
    ensures
        (a + k) % 16 == (b + k) % 16,
{
    vstd::arithmetic::div_mod::lemma_add_mod_noop(a, k, 16);
    vstd::arithmetic::div_mod::lemma_add_mod_noop(b, k, 16);
}

/// A round depends on its step only modulo the cycle length.
proof fn lemma_round_shift(s: Seq<u128>, op_code: u128, op_value: u128, a: int, b: int)
    requires
        a % 16 == b % 16,
    ensures
        spec_round(s, op_code, op_value, a) == spec_round(s, op_code, op_value, b),
        acc_round(s, a) == acc_round(s, b),
{
    reveal(spec_round);
    reveal(acc_round);
}

/// Accumulator rounds depend on their steps only modulo the cycle length.
proof fn lemma_acc_rounds_shift(s: Seq<u128>, a: int, b: int, n: nat)
    requires
        a % 16 == b % 16,
    ensures
        acc_rounds(s, a, n) == acc_rounds(s, b, n),
    decreases n,
{
    if n > 0 {
        lemma_acc_rounds_shift(s, a, b, (n - 1) as nat);
        lemma_cycle_shift(a, b, n - 1);
        lemma_round_shift(acc_rounds(s, a, (n - 1) as nat), 0, 0, a + n - 1, b + n - 1);
    }
}

/// A span executed from a step at the start of a cycle gives the state of its hash.
proof fn lemma_walk_span(ops: Seq<u8>, hints: Map<usize, super::blocks::ExecutionHint>, s: Seq<u128>, step: int, n: nat)
    requires
        step % 16 == 0,
    ensures
        walk_span(ops, hints, s, step, n) == span_state(ops, hints, s, n),
    decreases n,
{
    if n > 0 {
        lemma_walk_span(ops, hints, s, step, (n - 1) as nat);
        lemma_cycle_shift(step, 0, n - 1);
        let i = n - 1;
        lemma_round_shift(span_state(ops, hints, s, i as nat), ops[i] as u128, push_value(ops, hints, i), step + i, i);
    }
}

// EXECUTION PATHS AND HASHES
// ================================================================================================

/// Executing a well-formed block that completes gives the state of its hash: the span's state,
/// or the merge of the control block's hash into the state; a span starts a cycle and a control
/// block starts on its last step, and both end on the last step of a cycle.
proof fn lemma_walk_block(b: ProgramBlock, dec: Seq<u128>, s: Seq<u128>, step: int)
    requires
        block_wf(b),
        b is Span ==> step % 16 == 0,
        !(b is Span) ==> step % 16 == 15,
    ensures
        walk_block(b, dec, s, step) matches Some(w) ==> {
            &&& w.1 % 16 == 15
            &&& w.0 == match b {
                ProgramBlock::Span(sp) => span_state(sp.op_codes@, sp.op_hints@, s, sp.op_codes@.len()),
                _ => spec_hash_acc(s[0], block_hash(b).0, block_hash(b).1),
            }
        },
    decreases b, 0nat, 0nat,
{
    match b {
        ProgramBlock::Span(sp) => {
            lemma_walk_span(sp.op_codes@, sp.op_hints@, s, step, sp.op_codes@.len());
        },
        ProgramBlock::Group(g) => {
            lemma_walk_true(g.body@, dec, s[0], 0, step + 1);
        },
        ProgramBlock::Switch(w) => {
            if dec.len() > 0 {
                lemma_walk_true(w.t_branch@, dec.drop_last(), s[0], seq_hash(w.f_branch@, false), step + 1);
                lemma_walk_false(w.f_branch@, dec.drop_last(), s[0], seq_hash(w.t_branch@, false), step + 1);
            }
        },
        ProgramBlock::Loop(l) => {
            if dec.len() > 0 {
                lemma_walk_loop(l.body@, dec.drop_last(), s[0], seq_hash(l.body@, true), seq_hash(l.skip@, false), step + 1);
                lemma_walk_false(l.skip@, dec.drop_last(), s[0], seq_hash(l.body@, true), step + 1);
            }
        },
    }
}

/// Executing the first `n` blocks of a well-formed sequence from a step at the start of a cycle
/// gives the state of the sequence's hash after those blocks, ending on the last step of a cycle.
proof fn lemma_walk_seq(blocks: Seq<ProgramBlock>, n: nat, dec: Seq<u128>, step: int)
    requires
        blocks_wf(blocks, blocks.len()),
        blocks.len() > 0,
        blocks[0] is Span,
        n <= blocks.len(),
        step % 16 == 0,
    ensures
        walk_seq(blocks, n, dec, step) matches Some(w) ==> {
            &&& w.0 == seq_state(blocks, n)
            &&& n > 0 ==> w.1 % 16 == 15
        },
    decreases blocks, n, 0nat,
{
    if n > 0 {
        lemma_walk_seq(blocks, (n - 1) as nat, dec, step);
        lemma_blocks_wf_each(blocks, blocks.len());
        assert(block_wf(blocks[n - 1]));
        match walk_seq(blocks, (n - 1) as nat, dec, step) {
            None => {},
            Some(w) => {
                if n - 1 != 0 && blocks[n - 1] is Span {
                    lemma_round_shift(w.0, 0, 0, w.1, CYCLE_LENGTH - 1);
                    lemma_walk_block(blocks[n - 1], w.2, acc_round(w.0, w.1), w.1 + 1);
                } else {
                    lemma_walk_block(blocks[n - 1], w.2, w.0, w.1);
                }
            },
        }
    }
}

/// Executing a well-formed sequence as a taken branch gives the merge of its hash and `sibling`
/// into `parent`.
proof fn lemma_walk_true(blocks: Seq<ProgramBlock>, dec: Seq<u128>, parent: u128, sibling: u128, step: int)
    requires
        blocks_wf(blocks, blocks.len()),
        block_list_ok(blocks, seq![]) || block_list_ok(blocks, seq![crate::opcodes::ASSERT]),
        step % 16 == 0,
    ensures
        walk_true(blocks, dec, parent, sibling, step) matches Some(w) ==> {
            &&& w.0 == spec_hash_acc(parent, seq_hash(blocks, false), sibling)
            &&& w.1 % 16 == 15
        },
    decreases blocks, blocks.len() + 1, 0nat,
{
    lemma_walk_seq(blocks, blocks.len(), dec, step);
    match walk_seq(blocks, blocks.len(), dec, step) {
        None => {},
        Some(w) => {
            lemma_round_shift(w.0, 0, 0, w.1, CYCLE_LENGTH - 1);
            lemma_acc_rounds_shift(seq![parent, acc_round(w.0, w.1)[0], sibling, 0u128], w.1 + 2, 1, ACC_NUM_ROUNDS as nat);
        },
    }
}

/// Executing a well-formed sequence as a branch not taken by a true condition gives the merge of
/// `sibling` and its hash into `parent`.
proof fn lemma_walk_false(blocks: Seq<ProgramBlock>, dec: Seq<u128>, parent: u128, sibling: u128, step: int)
    requires
        blocks_wf(blocks, blocks.len()),
        block_list_ok(blocks, seq![]) || block_list_ok(blocks, seq![crate::opcodes::NOT, crate::opcodes::ASSERT]),
        step % 16 == 0,
    ensures
        walk_false(blocks, dec, parent, sibling, step) matches Some(w) ==> {
            &&& w.0 == spec_hash_acc(parent, sibling, seq_hash(blocks, false))
            &&& w.1 % 16 == 15
        },
    decreases blocks, blocks.len() + 1, 0nat,
{
    lemma_walk_seq(blocks, blocks.len(), dec, step);
    match walk_seq(blocks, blocks.len(), dec, step) {
        None => {},
        Some(w) => {
            lemma_round_shift(w.0, 0, 0, w.1, CYCLE_LENGTH - 1);
            lemma_acc_rounds_shift(seq![parent, sibling, acc_round(w.0, w.1)[0], 0u128], w.1 + 2, 1, ACC_NUM_ROUNDS as nat);
        },
    }
}

/// Executing the body of a well-formed loop any number of times gives the merge of the body and
/// skip hashes into `parent`.
proof fn lemma_walk_loop(body: Seq<ProgramBlock>, dec: Seq<u128>, parent: u128, body_hash: u128, skip_hash: u128, step: int)
    requires
        blocks_wf(body, body.len()),
        block_list_ok(body, seq![crate::opcodes::ASSERT]),
        step % 16 == 0,
    ensures
        walk_loop(body, dec, parent, body_hash, skip_hash, step) matches Some(w) ==> {
            &&& w.0 == spec_hash_acc(parent, body_hash, skip_hash)
            &&& w.1 % 16 == 15
        },
    decreases body, body.len() + 1, dec.len(),
{
    lemma_walk_seq(body, body.len(), dec, step);
    match walk_seq(body, body.len(), dec, step) {
        None => {},
        Some(w) => {
            if !(w.0[0] != body_hash || w.2.len() == 0) {
                let t = w.1 + 1;
                let d = w.2.drop_last();
                if w.2.last() == 0 {
                    lemma_acc_rounds_shift(seq![parent, body_hash, skip_hash, 0u128], t + 1, 1, ACC_NUM_ROUNDS as nat);
                } else if w.2.last() == 1 && d.len() < dec.len() {
                    lemma_walk_loop(body, d, parent, body_hash, skip_hash, t);
                }
            }
        },
    }
}

// LAWS
// ================================================================================================

/// The state which executing the program `p` with the decisions `dec` (taken from the end)
/// accumulates, if the execution completes: the body of the program walked as a true branch
/// from the zero state on step zero.
pub open spec fn execution_hash(p: Program, dec: Seq<u128>) -> Option<Seq<u128>> {
    match walk_true(p.root().body@, dec, 0, 0, 0) {
        Some(w) => Some(w.0),
        None => None,
    }
}

/// The hash of a program is the state that any complete execution of it accumulates, whichever
/// branches it takes and however many times its loops run: for every sequence of decisions with
/// which the execution completes, the state accumulated along that path is the program's hash.
pub proof fn lemma_execution_path_hash(p: &Program, dec: Seq<u128>)
    requires
        p.root().wf(),
    ensures
        execution_hash(*p, dec) matches Some(h) ==> h == p.hash_value(),
{
    lemma_walk_true(p.root().body@, dec, 0, 0, 0);
}

} // verus!
