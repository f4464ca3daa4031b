use vstd::prelude::*;
use crate::math::field::ZERO;
use crate::math::field::f_mul;
use crate::programs::PROGRAM_DIGEST_SIZE;
use crate::stark::constraints::utils::binary_not;
use super::trace_state2::{
    cf_op_flags_of, hd_op_flags_of, op_code_of, copy_range, spec_cf_op_flags, spec_hd_op_flags,
    spec_op_code, bit_sel, SPONGE_WIDTH, NUM_OP_BITS,
};

verus! {

/// State of the execution trace at one step: the operation counter, the operation sponge, the
/// operation bits, the context and loop stacks of the decoder, and the user stack.
#[derive(Clone)]
pub struct TraceState {
    pub op_counter: u128,
    pub sponge: [u128; 4],
    pub cf_op_bits: [u128; 3],
    pub ld_op_bits: [u128; 5],
    pub hd_op_bits: [u128; 2],
    pub ctx_stack: Vec<u128>,
    pub loop_stack: Vec<u128>,
    pub user_stack: Vec<u128>,
}

/// The flag of user operation `op_code`: the product over the 5 low-degree and the 2
/// high-degree operation bits of the bit when the same bit of `op_code` is set, and of one minus
/// the bit otherwise.
pub open spec fn user_op_flag(ld: Seq<u128>, hd: Seq<u128>, op_code: u8) -> u128 {
    let c = op_code as int;
    let f0 = bit_sel(ld[0], c % 2 == 1);
    let f1 = f_mul(f0, bit_sel(ld[1], (c / 2) % 2 == 1));
    let f2 = f_mul(f1, bit_sel(ld[2], (c / 4) % 2 == 1));
    let f3 = f_mul(f2, bit_sel(ld[3], (c / 8) % 2 == 1));
    let f4 = f_mul(f3, bit_sel(ld[4], (c / 16) % 2 == 1));
    let f5 = f_mul(f4, bit_sel(hd[0], (c / 32) % 2 == 1));
    f_mul(f5, bit_sel(hd[1], (c / 64) % 2 == 1)) as u128
}

/// Returns `b` when `set`, and `1 - b` otherwise.
fn select_bit(b: u128, set: bool) -> (r: u128)
    ensures
        r == bit_sel(b, set),
{
    if set { b } else { binary_not(b) }
}

/// Number of values in the flat representation of a state with the given stack depths.
pub open spec fn state_width(ctx_depth: int, loop_depth: int, stack_depth: int) -> int {
    1 + SPONGE_WIDTH + NUM_OP_BITS + ctx_depth + loop_depth + stack_depth
}

impl TraceState {
    /// Whether the state has the given context, loop and user stack depths.
    pub open spec fn has_depths(&self, ctx_depth: int, loop_depth: int, stack_depth: int) -> bool {
        &&& self.ctx_stack@.len() == ctx_depth
        &&& self.loop_stack@.len() == loop_depth
        &&& self.user_stack@.len() == stack_depth
    }

    /// The flat representation of the state: operation counter, sponge, cf bits, ld bits, hd
    /// bits, context stack, loop stack, user stack.
    pub open spec fn to_seq(&self) -> Seq<u128> {
        seq![self.op_counter] + self.sponge@ + self.cf_op_bits@ + self.ld_op_bits@ + self.hd_op_bits@
            + self.ctx_stack@ + self.loop_stack@ + self.user_stack@
    }

    /// Returns a state with all registers set to zero.
    pub fn new(ctx_depth: usize, loop_depth: usize, stack_depth: usize) -> (r: TraceState)
        ensures
            r.has_depths(ctx_depth as int, loop_depth as int, stack_depth as int),
            r.to_seq() == Seq::new(state_width(ctx_depth as int, loop_depth as int, stack_depth as int) as nat, |i: int| 0u128),
    {
        let r = TraceState {
            op_counter: ZERO,
            sponge: [ZERO; 4],
            cf_op_bits: [ZERO; 3],
            ld_op_bits: [ZERO; 5],
            hd_op_bits: [ZERO; 2],
            ctx_stack: vec![ZERO; ctx_depth],
            loop_stack: vec![ZERO; loop_depth],
            user_stack: vec![ZERO; stack_depth],
        };
        assert(r.to_seq() =~= Seq::new(state_width(ctx_depth as int, loop_depth as int, stack_depth as int) as nat, |i: int| 0u128));
        r
    }

    /// Builds a state from its flat representation (see `to_seq`).
    pub fn from_vec(ctx_depth: usize, loop_depth: usize, stack_depth: usize, state: &Vec<u128>) -> (r: TraceState)
        requires
            state@.len() == state_width(ctx_depth as int, loop_depth as int, stack_depth as int),
        ensures
            r.has_depths(ctx_depth as int, loop_depth as int, stack_depth as int),
            r.to_seq() == state@,
    {
        let n = state.len();
        assert(n == 15 + ctx_depth + loop_depth + stack_depth);
        let sponge = [state[1], state[2], state[3], state[4]];
        let cf_op_bits = [state[5], state[6], state[7]];
        let ld_op_bits = [state[8], state[9], state[10], state[11], state[12]];
        let hd_op_bits = [state[13], state[14]];
        let ctx_start = 1 + SPONGE_WIDTH + NUM_OP_BITS;
        let ctx_stack = copy_range(state.as_slice(), ctx_start, ctx_depth);
        let loop_stack = copy_range(state.as_slice(), ctx_start + ctx_depth, loop_depth);
        let user_stack = copy_range(state.as_slice(), ctx_start + ctx_depth + loop_depth, stack_depth);
        let r = TraceState { op_counter: state[0], sponge, cf_op_bits, ld_op_bits, hd_op_bits, ctx_stack, loop_stack, user_stack };
        assert(r.to_seq() =~= state@);
        r
    }

    /// Returns the operation counter.
    pub fn op_counter(&self) -> (r: u128)
        ensures
            r == self.op_counter,
    {
        self.op_counter
    }

    /// Returns the registers of the sponge.
    pub fn sponge(&self) -> (r: &[u128])
        ensures
            r@ == self.sponge@,
    {
        self.sponge.as_slice()
    }

    /// Returns the hash of the program: the first `PROGRAM_DIGEST_SIZE` registers of the sponge.
    pub fn program_hash(&self) -> (r: &[u128])
        ensures
            r@ == self.sponge@.subrange(0, PROGRAM_DIGEST_SIZE as int),
    {
        let sponge = self.sponge.as_slice();
        &sponge[0..PROGRAM_DIGEST_SIZE]
    }

    /// Returns the flow control operation bits.
    pub fn cf_op_bits(&self) -> (r: &[u128])
        ensures
            r@ == self.cf_op_bits@,
    {
        self.cf_op_bits.as_slice()
    }

    /// Returns the low-degree operation bits.
    pub fn ld_op_bits(&self) -> (r: &[u128])
        ensures
            r@ == self.ld_op_bits@,
    {
        self.ld_op_bits.as_slice()
    }

    /// Returns the high-degree operation bits.
    pub fn hd_op_bits(&self) -> (r: &[u128])
        ensures
            r@ == self.hd_op_bits@,
    {
        self.hd_op_bits.as_slice()
    }

    /// Returns the context stack.
    pub fn ctx_stack(&self) -> (r: &[u128])
        ensures
            r@ == self.ctx_stack@,
    {
        self.ctx_stack.as_slice()
    }

    /// Returns the loop stack.
    pub fn loop_stack(&self) -> (r: &[u128])
        ensures
            r@ == self.loop_stack@,
    {
        self.loop_stack.as_slice()
    }

    /// Returns the user stack.
    pub fn user_stack(&self) -> (r: &[u128])
        ensures
            r@ == self.user_stack@,
    {
        self.user_stack.as_slice()
    }

    /// Returns the operation code encoded by the low-degree and high-degree operation bits.
    pub fn op_code(&self) -> (r: u128)
        ensures
            r == spec_op_code(self.ld_op_bits@, self.hd_op_bits@),
    {
        op_code_of(&self.ld_op_bits, &self.hd_op_bits)
    }

    /// Returns the flag of user operation `op_code`, built from the operation bits.
    pub fn get_user_op_flag(&self, op_code: u8) -> (r: u128)
        ensures
            r == user_op_flag(self.ld_op_bits@, self.hd_op_bits@, op_code),
    {
        let mut f = select_bit(self.ld_op_bits[0], op_code % 2 == 1);
        f = crate::math::field::mul(f, select_bit(self.ld_op_bits[1], (op_code / 2) % 2 == 1));
        f = crate::math::field::mul(f, select_bit(self.ld_op_bits[2], (op_code / 4) % 2 == 1));
        f = crate::math::field::mul(f, select_bit(self.ld_op_bits[3], (op_code / 8) % 2 == 1));
        f = crate::math::field::mul(f, select_bit(self.ld_op_bits[4], (op_code / 16) % 2 == 1));
        f = crate::math::field::mul(f, select_bit(self.hd_op_bits[0], (op_code / 32) % 2 == 1));
        crate::math::field::mul(f, select_bit(self.hd_op_bits[1], (op_code / 64) % 2 == 1))
    }

    /// Returns the flags of the 8 flow control operations.
    pub fn cf_op_flags(&self) -> (r: [u128; 8])
        ensures
            r@ == spec_cf_op_flags(self.cf_op_bits@),
    {
        cf_op_flags_of(&self.cf_op_bits)
    }

    /// Returns the flags of the 4 high-degree operation groups.
    pub fn hd_op_flags(&self) -> (r: [u128; 4])
        ensures
            r@ == spec_hd_op_flags(self.hd_op_bits@),
    {
        hd_op_flags_of(&self.hd_op_bits)
    }
}

} // verus!
