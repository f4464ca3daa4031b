use vstd::prelude::*;
use crate::utils::sponge::{
    add_constants, apply_sbox, apply_mds, apply_inv_sbox, apply_round,
    spec_add_constants, spec_mds, spec_round, spec_inject, STATE_WIDTH as SPONGE_WIDTH,
};
use crate::math::field::MODULUS;
use crate::utils::rescue::{ sbox, inv_sbox };
use super::blocks::{ ProgramBlock, blocks_wf, block_wf, block_hash, seq_hash, seq_state, zero_state };

verus! {

/// Width of the state of the hash accumulator.
pub const STATE_WIDTH: usize = 4usize;

/// Number of steps in one cycle of the accumulator's round constants.
pub const CYCLE_LENGTH: usize = 16usize;

/// Number of rounds applied when a control block's hash is merged into its parent's.
pub const ACC_NUM_ROUNDS: usize = 14usize;

/// Step of the first round applied when a control block's hash is merged into its parent's.
pub const ACC_ROUND_OFFSET: usize = 1usize;

/// One round of the accumulator: a full Rescue round with the constants of step `step`,
/// without any injection.
#[verifier::opaque]
pub open spec fn acc_round(s: Seq<u128>, step: int) -> Seq<u128> {
    let ark_idx = step % (CYCLE_LENGTH as int);
    let half = spec_mds(sbox(spec_add_constants(s, ark_idx, 0)));
    spec_mds(inv_sbox(spec_add_constants(half, ark_idx, SPONGE_WIDTH as int)))
}

/// `n` accumulator rounds applied to `s`, on steps `start, start + 1, ..., start + n - 1`.
pub open spec fn acc_rounds(s: Seq<u128>, start: int, n: nat) -> Seq<u128>
    decreases n,
{
    if n == 0 {
        s
    } else {
        acc_round(acc_rounds(s, start, (n - 1) as nat), start + n - 1)
    }
}

/// The state obtained by merging hash `(v0, v1)` of a control block into `parent_hash`.
pub open spec fn spec_hash_acc(parent_hash: u128, v0: u128, v1: u128) -> Seq<u128> {
    acc_rounds(seq![parent_hash, v0, v1, 0u128], ACC_ROUND_OFFSET as int, ACC_NUM_ROUNDS as nat)
}

/// Merges an operation with the state of the sponge: one sponge round on step `step` which
/// injects `op_code` and `op_value`.
pub fn hash_op(state: &mut [u128; 4], op_code: u8, op_value: u128, step: usize)
    ensures
        final(state)@ == spec_round(old(state)@, op_code as u128, op_value, step as int),
{
    apply_round(state, op_code as u128, op_value, step);
}

/// Applies one accumulator round on step `step` to the state.
pub fn acc_hash_round(state: &mut [u128; 4], step: usize)
    ensures
        final(state)@ == acc_round(old(state)@, step as int),
{
    reveal(acc_round);
    let ark_idx = step % CYCLE_LENGTH;

    // apply first half of Rescue round
    add_constants(state, ark_idx, 0);
    apply_sbox(state);
    apply_mds(state);

    // apply second half of Rescue round
    add_constants(state, ark_idx, STATE_WIDTH);
    apply_inv_sbox(state);
    apply_mds(state);
}

/// Merges the hash `(v0, v1)` of a control block into `parent_hash`, returning the new state.
pub fn hash_acc(parent_hash: u128, v0: u128, v1: u128) -> (r: [u128; 4])
    ensures
        r@ == spec_hash_acc(parent_hash, v0, v1),
{
    let mut state = [parent_hash, v0, v1, 0];
    let ghost s0 = state@;
    assert(s0 =~= seq![parent_hash, v0, v1, 0u128]);
    let mut i: usize = ACC_ROUND_OFFSET;
    while i < ACC_ROUND_OFFSET + ACC_NUM_ROUNDS
        invariant
            ACC_ROUND_OFFSET <= i <= ACC_ROUND_OFFSET + ACC_NUM_ROUNDS,
            state@ == acc_rounds(s0, ACC_ROUND_OFFSET as int, (i - ACC_ROUND_OFFSET) as nat),
        decreases ACC_ROUND_OFFSET + ACC_NUM_ROUNDS - i,
    {
        acc_hash_round(&mut state, i);
        i = i + 1;
    }
    state
}

/// Returns the hash of a sequence of program blocks; the first block must be a span. Unless the
/// sequence is the body of a loop, the state gets one more accumulator round at the end.
pub fn hash_seq(blocks: &Vec<ProgramBlock>, is_loop_body: bool) -> (r: u128)
    requires
        blocks@.len() > 0,
        blocks@[0] is Span,
        blocks_wf(blocks@, blocks@.len()),
    ensures
        r == seq_hash(blocks@, is_loop_body),
    decreases blocks@, 1nat,
{
    proof {
        lemma_blocks_wf_each(blocks@, blocks@.len());
    }
    // initialize the state to all zeros and update it with the hash of the first block
    let mut state = [0u128; 4];
    assert(state@ =~= zero_state());
    state = match &blocks[0] {
        ProgramBlock::Span(block) => block.hash(state),
        _ => state,
    };

    // update the state with hashes of all other blocks
    let n = blocks.len();
    let mut i: usize = 1;
    while i < n
        invariant
            1 <= i <= n,
            n == blocks@.len(),
            forall|k: int| 0 <= k < n ==> block_wf(#[trigger] blocks@[k]),
            state@ == seq_state(blocks@, i as nat),
        decreases n - i,
    {
        let block = &blocks[i];
        proof {
            assert(decreases_to!(blocks@ => blocks@[i as int]));
        }
        match block {
            ProgramBlock::Span(block) => {
                // for Span blocks, first do an extra round of acc_hash to ensure block
                // alignment on a 16 cycle boundary; then merge the block itself
                acc_hash_round(&mut state, CYCLE_LENGTH - 1);
                state = block.hash(state);
            },
            _ => {
                // for control blocks, merge the hash of the block into the state
                let (v0, v1) = control_hash(block);
                state = hash_acc(state[0], v0, v1);
            },
        }
        i = i + 1;
    }

    // if the current sequence is not a body of a loop, do an extra round of acc_hash to
    // ensure block alignment on a 16 cycle boundary
    if !is_loop_body {
        acc_hash_round(&mut state, CYCLE_LENGTH - 1);
    }
    state[0]
}

/// Returns the hash of a well-formed control block.
fn control_hash(block: &ProgramBlock) -> (r: (u128, u128))
    requires
        block_wf(*block),
    ensures
        r == block_hash(*block),
    decreases *block, 0nat,
{
    match block {
        ProgramBlock::Span(_) => (0, 0),
        ProgramBlock::Group(g) => {
            proof { lemma_blocks_wf_each(g.body@, g.body@.len()); }
            (hash_seq(&g.body, false), 0)
        },
        ProgramBlock::Switch(w) => {
            proof {
                lemma_blocks_wf_each(w.t_branch@, w.t_branch@.len());
                lemma_blocks_wf_each(w.f_branch@, w.f_branch@.len());
            }
            (hash_seq(&w.t_branch, false), hash_seq(&w.f_branch, false))
        },
        ProgramBlock::Loop(l) => {
            proof {
                lemma_blocks_wf_each(l.body@, l.body@.len());
                lemma_blocks_wf_each(l.skip@, l.skip@.len());
            }
            (hash_seq(&l.body, true), hash_seq(&l.skip, false))
        },
    }
}

/// The first `n` blocks of a sequence are well formed exactly when each of them is.
pub proof fn lemma_blocks_wf_each(blocks: Seq<ProgramBlock>, n: nat)
    requires
        n <= blocks.len(),
    ensures
        blocks_wf(blocks, n) <==> forall|k: int| 0 <= k < n ==> block_wf(#[trigger] blocks[k]),
    decreases n,
{
    if n > 0 {
        lemma_blocks_wf_each(blocks, (n - 1) as nat);
    }
}

// LAWS
// ================================================================================================

/// `n` rounds of the sponge which inject nothing, applied to `s` on steps `start, start + 1, ...,
/// start + n - 1`.
pub open spec fn silent_sponge_rounds(s: Seq<u128>, start: int, n: nat) -> Seq<u128>
    decreases n,
{
    if n == 0 {
        s
    } else {
        spec_round(silent_sponge_rounds(s, start, (n - 1) as nat), 0, 0, start + n - 1)
    }
}

/// An accumulator round is the round of the program sponge on the same step which injects
/// nothing: every register of the state, the third one included, goes through the whole Rescue
/// round.
pub proof fn lemma_acc_round_is_silent_sponge_round(s: Seq<u128>, step: int)
    ensures
        acc_round(s, step) == spec_round(s, 0, 0, step),
{
    reveal(acc_round);
    reveal(spec_round);
    let ark_idx = step % (CYCLE_LENGTH as int);
    let half = spec_mds(sbox(spec_add_constants(s, ark_idx, 0)));
    assert(half.len() == SPONGE_WIDTH);
    assert forall|i: int| 0 <= i < 2 implies #[trigger] half[i] < MODULUS by {
        let v = sbox(spec_add_constants(s, ark_idx, 0));
        let d = crate::utils::rescue::dot(crate::utils::sponge::MDS@, i * 4, v, 3);
        let t = crate::math::field::f_mul(crate::utils::sponge::MDS@[i * 4 + 3] as int, v[3] as int);
        vstd::arithmetic::div_mod::lemma_mod_bound(d + t, MODULUS as int);
    }
    vstd::arithmetic::div_mod::lemma_small_mod(half[0] as nat, MODULUS as nat);
    vstd::arithmetic::div_mod::lemma_small_mod(half[1] as nat, MODULUS as nat);
    assert(spec_inject(half, 0, 0) =~= half);
}

/// Merging the hash `(v0, v1)` of a control block into `parent_hash` runs the program sponge,
/// injecting nothing, for `ACC_NUM_ROUNDS` rounds from the state `[parent_hash, v0, v1, 0]`,
/// starting on step `ACC_ROUND_OFFSET`.
pub proof fn lemma_hash_acc_is_silent_sponge(parent_hash: u128, v0: u128, v1: u128)
    ensures
        spec_hash_acc(parent_hash, v0, v1)
            == silent_sponge_rounds(seq![parent_hash, v0, v1, 0u128], ACC_ROUND_OFFSET as int, ACC_NUM_ROUNDS as nat),
{
    lemma_acc_rounds_silent(seq![parent_hash, v0, v1, 0u128], ACC_ROUND_OFFSET as int, ACC_NUM_ROUNDS as nat);
}

/// `n` accumulator rounds are `n` sponge rounds which inject nothing.
proof fn lemma_acc_rounds_silent(s: Seq<u128>, start: int, n: nat)
    ensures
        acc_rounds(s, start, n) == silent_sponge_rounds(s, start, n),
    decreases n,
{
    if n > 0 {
        lemma_acc_rounds_silent(s, start, (n - 1) as nat);
        lemma_acc_round_is_silent_sponge_round(acc_rounds(s, start, (n - 1) as nat), start + n - 1);
    }
}

} // verus!
