use vstd::prelude::*;
use crate::math::field::{ f_add, f_mul, ZERO };
use crate::stark::constraints::utils::{ binary_not, spec_binary_not };

verus! {

// CONSTANTS
// ================================================================================================

/// Number of registers of the operation sponge.
pub const SPONGE_WIDTH: usize = 4usize;
/// Number of bits encoding flow control operations.
pub const NUM_CF_OP_BITS: usize = 3usize;
/// Number of low-degree bits of user operation codes.
pub const NUM_LD_OP_BITS: usize = 5usize;
/// Number of high-degree bits of user operation codes.
pub const NUM_HD_OP_BITS: usize = 2usize;
/// Total number of operation bits.
pub const NUM_OP_BITS: usize = 10usize;

// OPERATION FLAGS
// ================================================================================================

/// `b` when `set`, `1 - b` otherwise.
pub open spec fn bit_sel(b: u128, set: bool) -> int {
    if set { b as int } else { spec_binary_not(b) as int }
}

/// Flags of the 8 flow control operations: flag `k` is the product over the 3 bits of
/// `bit_i` when bit `i` of `k` is set and of `1 - bit_i` otherwise.
pub open spec fn spec_cf_op_flags(bits: Seq<u128>) -> Seq<u128> {
    Seq::new(8, |k: int|
        f_mul(f_mul(bit_sel(bits[0], k % 2 == 1), bit_sel(bits[1], (k / 2) % 2 == 1)) , bit_sel(bits[2], (k / 4) % 2 == 1)) as u128)
}

/// Flags of the 4 high-degree operation groups, built from the 2 high-degree bits as above.
pub open spec fn spec_hd_op_flags(bits: Seq<u128>) -> Seq<u128> {
    Seq::new(4, |k: int| f_mul(bit_sel(bits[0], k % 2 == 1), bit_sel(bits[1], (k / 2) % 2 == 1)) as u128)
}

/// Operation code encoded by the low-degree bits (weights 1..16) and high-degree bits
/// (weights 32 and 64), computed in the field.
pub open spec fn spec_op_code(ld: Seq<u128>, hd: Seq<u128>) -> u128 {
    let v1 = f_add(ld[0] as int, f_mul(ld[1] as int, 2));
    let v2 = f_add(v1, f_mul(ld[2] as int, 4));
    let v3 = f_add(v2, f_mul(ld[3] as int, 8));
    let v4 = f_add(v3, f_mul(ld[4] as int, 16));
    let v5 = f_add(v4, f_mul(hd[0] as int, 32));
    f_add(v5, f_mul(hd[1] as int, 64)) as u128
}

/// Computes the flags of flow control operations from the 3 flow control bits.
pub fn cf_op_flags_of(bits: &[u128; 3]) -> (r: [u128; 8])
    ensures
        r@ == spec_cf_op_flags(bits@),
{
    let b0 = bits[0];
    let b1 = bits[1];
    let b2 = bits[2];
    let n0 = binary_not(b0);
    let n1 = binary_not(b1);
    let n2 = binary_not(b2);
    let r = [
        crate::math::field::mul(crate::math::field::mul(n0, n1), n2),
        crate::math::field::mul(crate::math::field::mul(b0, n1), n2),
        crate::math::field::mul(crate::math::field::mul(n0, b1), n2),
        crate::math::field::mul(crate::math::field::mul(b0, b1), n2),
        crate::math::field::mul(crate::math::field::mul(n0, n1), b2),
        crate::math::field::mul(crate::math::field::mul(b0, n1), b2),
        crate::math::field::mul(crate::math::field::mul(n0, b1), b2),
        crate::math::field::mul(crate::math::field::mul(b0, b1), b2),
    ];
    assert(r@ =~= spec_cf_op_flags(bits@));
    r
}

/// Computes the flags of high-degree operation groups from the 2 high-degree bits.
pub fn hd_op_flags_of(bits: &[u128; 2]) -> (r: [u128; 4])
    ensures
        r@ == spec_hd_op_flags(bits@),
{
    let b0 = bits[0];
    let b1 = bits[1];
    let n0 = binary_not(b0);
    let n1 = binary_not(b1);
    let r = [
        crate::math::field::mul(n0, n1),
        crate::math::field::mul(b0, n1),
        crate::math::field::mul(n0, b1),
        crate::math::field::mul(b0, b1),
    ];
    assert(r@ =~= spec_hd_op_flags(bits@));
    r
}

/// Computes the operation code encoded by low-degree and high-degree operation bits.
pub fn op_code_of(ld: &[u128; 5], hd: &[u128; 2]) -> (r: u128)
    ensures
        r == spec_op_code(ld@, hd@),
{
    let mut v = crate::math::field::add(ld[0], crate::math::field::mul(ld[1], 2));
    v = crate::math::field::add(v, crate::math::field::mul(ld[2], 4));
    v = crate::math::field::add(v, crate::math::field::mul(ld[3], 8));
    v = crate::math::field::add(v, crate::math::field::mul(ld[4], 16));
    v = crate::math::field::add(v, crate::math::field::mul(hd[0], 32));
    crate::math::field::add(v, crate::math::field::mul(hd[1], 64))
}

/// Copies `len` values of `v` starting at `start` into a new vector.
pub fn copy_range(v: &[u128], start: usize, len: usize) -> (r: Vec<u128>)
    requires
        start + len <= v@.len(),
    ensures
        r@ == v@.subrange(start as int, start + len),
{
    let vlen = v.len();
    let mut r: Vec<u128> = Vec::new();
    let mut i: usize = 0;
    while i < len
        invariant
            i <= len,
            start + len <= v@.len(),
            v@.len() == vlen,
            r@ == v@.subrange(start as int, start + i),
        decreases len - i,
    {
        r.push(v[start + i]);
        i = i + 1;
        assert(r@ =~= v@.subrange(start as int, start + i));
    }
    r
}

// TRACE STATE
// ================================================================================================

/// State of the execution trace at one step: the operation sponge, the operation bits, the
/// context and loop stacks of the decoder, and the user stack.
#[derive(Clone)]
pub struct TraceState {
    pub sponge: [u128; 4],
    pub cf_op_bits: [u128; 3],
    pub ld_op_bits: [u128; 5],
    pub hd_op_bits: [u128; 2],
    pub ctx_stack: Vec<u128>,
    pub loop_stack: Vec<u128>,
    pub user_stack: Vec<u128>,
}

/// Number of values in the flat representation of a state with the given stack depths.
pub open spec fn spec_state_width(ctx_depth: int, loop_depth: int, stack_depth: int) -> int {
    SPONGE_WIDTH + NUM_OP_BITS + ctx_depth + loop_depth + stack_depth
}

impl TraceState {

    /// Whether the state has the given context, loop and user stack depths.
    pub open spec fn has_depths(&self, ctx_depth: int, loop_depth: int, stack_depth: int) -> bool {
        &&& self.ctx_stack@.len() == ctx_depth
        &&& self.loop_stack@.len() == loop_depth
        &&& self.user_stack@.len() == stack_depth
    }

    /// The flat representation of the state: sponge, cf bits, ld bits, hd bits, context stack,
    /// loop stack, user stack.
    pub open spec fn to_seq(&self) -> Seq<u128> {
        self.sponge@ + self.cf_op_bits@ + self.ld_op_bits@ + self.hd_op_bits@
            + self.ctx_stack@ + self.loop_stack@ + self.user_stack@
    }

    /// Returns a state with all registers set to zero.
    pub fn new(ctx_depth: usize, loop_depth: usize, stack_depth: usize) -> (r: TraceState)
        ensures
            r.has_depths(ctx_depth as int, loop_depth as int, stack_depth as int),
            r.to_seq() == Seq::new(spec_state_width(ctx_depth as int, loop_depth as int, stack_depth as int) as nat, |i: int| 0u128),
    {
        let r = TraceState {
            sponge: [ZERO; 4],
            cf_op_bits: [ZERO; 3],
            ld_op_bits: [ZERO; 5],
            hd_op_bits: [ZERO; 2],
            ctx_stack: vec![ZERO; ctx_depth],
            loop_stack: vec![ZERO; loop_depth],
            user_stack: vec![ZERO; stack_depth],
        };
        assert(r.to_seq() =~= Seq::new(spec_state_width(ctx_depth as int, loop_depth as int, stack_depth as int) as nat, |i: int| 0u128));
        r
    }

    /// Builds a state from its flat representation (see `to_seq`).
    pub fn from_vec(ctx_depth: usize, loop_depth: usize, stack_depth: usize, state: &Vec<u128>) -> (r: TraceState)
        requires
            state@.len() == spec_state_width(ctx_depth as int, loop_depth as int, stack_depth as int),
        ensures
            r.has_depths(ctx_depth as int, loop_depth as int, stack_depth as int),
            r.to_seq() == state@,
    {
        let r = Self::from_slice(ctx_depth, loop_depth, stack_depth, state.as_slice(), 0);
        assert(state@.subrange(0, state@.len() as int) =~= state@);
        r
    }

    /// Builds a state from the flat representation that starts at `offset` of `state`.
    pub fn from_slice(ctx_depth: usize, loop_depth: usize, stack_depth: usize, state: &[u128], offset: usize) -> (r: TraceState)
        requires
            offset + spec_state_width(ctx_depth as int, loop_depth as int, stack_depth as int) <= state@.len(),
        ensures
            r.has_depths(ctx_depth as int, loop_depth as int, stack_depth as int),
            r.to_seq() == state@.subrange(offset as int, offset + spec_state_width(ctx_depth as int, loop_depth as int, stack_depth as int)),
    {
        let s = offset;
        let sponge = [state[s], state[s + 1], state[s + 2], state[s + 3]];
        let cf_op_bits = [state[s + 4], state[s + 5], state[s + 6]];
        let ld_op_bits = [state[s + 7], state[s + 8], state[s + 9], state[s + 10], state[s + 11]];
        let hd_op_bits = [state[s + 12], state[s + 13]];
        let ctx_start = s + SPONGE_WIDTH + NUM_OP_BITS;
        let ctx_stack = copy_range(state, ctx_start, ctx_depth);
        let loop_stack = copy_range(state, ctx_start + ctx_depth, loop_depth);
        let user_stack = copy_range(state, ctx_start + ctx_depth + loop_depth, stack_depth);
        let r = TraceState { sponge, cf_op_bits, ld_op_bits, hd_op_bits, ctx_stack, loop_stack, user_stack };
        assert(r.to_seq() =~= state@.subrange(offset as int, offset + spec_state_width(ctx_depth as int, loop_depth as int, stack_depth as int)));
        r
    }

    /// Sets all 10 operation bits: 3 flow control bits, 5 low-degree bits, 2 high-degree bits.
    pub fn set_op_bits(&mut self, bits: [u128; 10])
        ensures
            final(self).cf_op_bits@ == bits@.subrange(0, 3),
            final(self).ld_op_bits@ == bits@.subrange(3, 8),
            final(self).hd_op_bits@ == bits@.subrange(8, 10),
            final(self).sponge == old(self).sponge,
            final(self).ctx_stack == old(self).ctx_stack,
            final(self).loop_stack == old(self).loop_stack,
            final(self).user_stack == old(self).user_stack,
    {
        self.cf_op_bits = [bits[0], bits[1], bits[2]];
        self.ld_op_bits = [bits[3], bits[4], bits[5], bits[6], bits[7]];
        self.hd_op_bits = [bits[8], bits[9]];
        assert(self.cf_op_bits@ =~= bits@.subrange(0, 3));
        assert(self.ld_op_bits@ =~= bits@.subrange(3, 8));
        assert(self.hd_op_bits@ =~= bits@.subrange(8, 10));
    }

    pub fn sponge(&self) -> (r: &[u128])
        ensures
            r@ == self.sponge@,
    {
        self.sponge.as_slice()
    }

    pub fn cf_op_bits(&self) -> (r: &[u128])
        ensures
            r@ == self.cf_op_bits@,
    {
        self.cf_op_bits.as_slice()
    }

    pub fn ld_op_bits(&self) -> (r: &[u128])
        ensures
            r@ == self.ld_op_bits@,
    {
        self.ld_op_bits.as_slice()
    }

    pub fn hd_op_bits(&self) -> (r: &[u128])
        ensures
            r@ == self.hd_op_bits@,
    {
        self.hd_op_bits.as_slice()
    }

    pub fn ctx_stack(&self) -> (r: &[u128])
        ensures
            r@ == self.ctx_stack@,
    {
        self.ctx_stack.as_slice()
    }

    pub fn loop_stack(&self) -> (r: &[u128])
        ensures
            r@ == self.loop_stack@,
    {
        self.loop_stack.as_slice()
    }

    pub fn user_stack(&self) -> (r: &[u128])
        ensures
            r@ == self.user_stack@,
    {
        self.user_stack.as_slice()
    }

    /// Returns the operation code encoded by the low-degree and high-degree operation bits.
    pub fn op_code(&self) -> (r: u128)
        ensures
            r == spec_op_code(self.ld_op_bits@, self.hd_op_bits@),
    {
        op_code_of(&self.ld_op_bits, &self.hd_op_bits)
    }

    /// Returns the flags of the 8 flow control operations.
    pub fn cf_op_flags(&self) -> (r: [u128; 8])
        ensures
            r@ == spec_cf_op_flags(self.cf_op_bits@),
    {
        cf_op_flags_of(&self.cf_op_bits)
    }

    /// Returns the flags of the 4 high-degree operation groups.
    pub fn hd_op_flags(&self) -> (r: [u128; 4])
        ensures
            r@ == spec_hd_op_flags(self.hd_op_bits@),
    {
        hd_op_flags_of(&self.hd_op_bits)
    }
}

} // verus!
