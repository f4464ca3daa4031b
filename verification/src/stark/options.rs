use vstd::prelude::*;
use vstd::arithmetic::power2::{ pow2, lemma_pow2_unfold, lemma2_to64 };
use crate::crypto::HashFunction;

verus! {

// CONSTANTS
// ================================================================================================

/// Highest degree of a transition constraint.
pub const MAX_CONSTRAINT_DEGREE: usize = 8usize;

/// Default blowup of the evaluation domain over the trace: 4 times the constraint degree.
pub const DEFAULT_EXTENSION_FACTOR: usize = 32usize;

/// Default number of queries of a proof.
pub const DEFAULT_NUM_QUERIES: u8 = 50u8;

/// Default number of bits of proof-of-work grinding.
pub const DEFAULT_GRINDING_FACTOR: u8 = 20u8;

// SPECIFICATIONS
// ================================================================================================

/// The largest `k` such that 2^k is at most `x` (0 for `x` of 0 or 1).
pub open spec fn log2_floor(x: nat) -> nat
    decreases x,
{
    if x < 2 {
        0
    } else {
        1 + log2_floor(x / 2)
    }
}

// TYPES AND INTERFACES
// ================================================================================================

/// Parameters of a proof: the blowup of the evaluation domain (stored as its base-2 logarithm),
/// the number of queries, the number of grinding bits and the hash function.
#[derive(Clone, Copy)]
pub struct ProofOptions {
    extension_factor: u8,
    num_queries: u8,
    grinding_factor: u8,
    hash_fn: HashFunction,
}

// PROOF OPTIONS IMPLEMENTATION
// ================================================================================================

impl ProofOptions {
    /// The base-2 logarithm of the extension factor.
    pub closed spec fn log_extension_factor(&self) -> nat {
        self.extension_factor as nat
    }

    /// The number of queries.
    pub closed spec fn spec_num_queries(&self) -> nat {
        self.num_queries as nat
    }

    /// The number of grinding bits.
    pub closed spec fn spec_grinding_factor(&self) -> nat {
        self.grinding_factor as nat
    }

    /// The hash function.
    pub closed spec fn spec_hash_fn(&self) -> HashFunction {
        self.hash_fn
    }

    /// Whether the options are within their allowed ranges.
    pub closed spec fn wf(&self) -> bool {
        &&& 4 <= self.extension_factor <= 8
        &&& 1 <= self.num_queries <= 128
        &&& self.grinding_factor <= 32
    }

    /// Returns options with the given parameters: the extension factor must be a power of two
    /// between 16 and 256, the number of queries between 1 and 128, and the grinding factor at
    /// most 32.
    pub fn new(extension_factor: usize, num_queries: usize, grinding_factor: u32, hash_fn: HashFunction) -> (r: ProofOptions)
        requires
            exists|k: nat| pow2(k) == extension_factor,
            16 <= extension_factor <= 256,
            0 < num_queries <= 128,
            grinding_factor <= 32,
        ensures
            r.wf(),
            pow2(r.log_extension_factor()) == extension_factor,
            r.spec_num_queries() == num_queries,
            r.spec_grinding_factor() == grinding_factor,
            r.spec_hash_fn() == hash_fn,
    {
        let log = trailing_zeros(extension_factor);
        ProofOptions {
            extension_factor: log as u8,
            num_queries: num_queries as u8,
            grinding_factor: grinding_factor as u8,
            hash_fn,
        }
    }

    /// Returns the extension factor.
    pub fn extension_factor(&self) -> (r: usize)
        requires
            self.wf(),
        ensures
            r == pow2(self.log_extension_factor()),
            16 <= r <= 256,
    {
        proof { lemma2_to64(); }
        let mut r: usize = 1;
        let mut i: u8 = 0;
        while i < self.extension_factor
            invariant
                i <= self.extension_factor <= 8,
                r == pow2(i as nat),
                pow2(8) == 256,
            decreases self.extension_factor - i,
        {
            proof {
                lemma_pow2_unfold((i + 1) as nat);
                if i + 1 < 8 {
                    vstd::arithmetic::power2::lemma_pow2_strictly_increases((i + 1) as nat, 8);
                }
            }
            r = r * 2;
            i = i + 1;
        }
        proof {
            if self.extension_factor > 4 {
                vstd::arithmetic::power2::lemma_pow2_strictly_increases(4, self.extension_factor as nat);
            }
            if self.extension_factor < 8 {
                vstd::arithmetic::power2::lemma_pow2_strictly_increases(self.extension_factor as nat, 8);
            }
        }
        r
    }

    /// Returns the number of queries.
    pub fn num_queries(&self) -> (r: usize)
        ensures
            r == self.spec_num_queries(),
    {
        self.num_queries as usize
    }

    /// Returns the number of grinding bits.
    pub fn grinding_factor(&self) -> (r: u32)
        ensures
            r == self.spec_grinding_factor(),
    {
        self.grinding_factor as u32
    }

    /// Returns the hash function.
    pub fn hash_fn(&self) -> (r: HashFunction)
        ensures
            r == self.spec_hash_fn(),
    {
        self.hash_fn
    }

    /// Returns the security level of proofs made with these options: the base-2 logarithm of
    /// the extension factor over the constraint degree, times the number of queries (halved
    /// unless `optimistic`); a level of 80 or more is raised by the grinding bits.
    pub fn security_level(&self, optimistic: bool) -> (r: u32)
        requires
            self.wf(),
        ensures
            r == ({
                let base = log2_floor(pow2(self.log_extension_factor()) / (MAX_CONSTRAINT_DEGREE as nat))
                    * (if optimistic { self.spec_num_queries() } else { self.spec_num_queries() / 2 });
                if base >= 80 { base + self.spec_grinding_factor() } else { base }
            }),
    {
        let one_over_rho = (self.extension_factor() / MAX_CONSTRAINT_DEGREE) as u32;
        let security_factor = log2_u32(one_over_rho);
        let num_queries = if optimistic { self.num_queries } else { self.num_queries / 2 };
        assert(one_over_rho <= 32);
        assert(security_factor <= 5) by {
            lemma_log2_bound(one_over_rho as nat);
        }
        assert(security_factor * (num_queries as u32) <= 640) by (nonlinear_arith)
            requires security_factor <= 5, num_queries <= 128;
        let mut result = security_factor * (num_queries as u32);
        if result >= 80 {
            result = result + self.grinding_factor as u32;
        }
        result
    }

    /// Returns the default options: extension factor 32, 50 queries, 20 grinding bits, BLAKE3.
    pub fn default_options() -> (r: ProofOptions)
        ensures
            r.wf(),
            pow2(r.log_extension_factor()) == DEFAULT_EXTENSION_FACTOR,
            r.spec_num_queries() == DEFAULT_NUM_QUERIES,
            r.spec_grinding_factor() == DEFAULT_GRINDING_FACTOR,
            r.spec_hash_fn() == HashFunction::Blake3,
    {
        proof { lemma2_to64(); }
        ProofOptions {
            extension_factor: 5,
            num_queries: DEFAULT_NUM_QUERIES,
            grinding_factor: DEFAULT_GRINDING_FACTOR,
            hash_fn: HashFunction::Blake3,
        }
    }
}

impl Default for ProofOptions {
    fn default() -> (r: ProofOptions)
        ensures
            r.wf(),
            pow2(r.log_extension_factor()) == DEFAULT_EXTENSION_FACTOR,
            r.spec_num_queries() == DEFAULT_NUM_QUERIES,
            r.spec_grinding_factor() == DEFAULT_GRINDING_FACTOR,
            r.spec_hash_fn() == HashFunction::Blake3,
    {
        ProofOptions::default_options()
    }
}

// HELPER FUNCTIONS
// ================================================================================================

/// Returns the number of trailing zeros of a power of two between 16 and 256, i.e. its base-2
/// logarithm.
fn trailing_zeros(x: usize) -> (r: u32)
    requires
        exists|k: nat| pow2(k) == x,
        16 <= x <= 256,
    ensures
        pow2(r as nat) == x,
        4 <= r <= 8,
{
    proof { lemma2_to64(); }
    let ghost k = choose|k: nat| pow2(k) == x;
    assert(4 <= k <= 8) by {
        if k < 4 {
            vstd::arithmetic::power2::lemma_pow2_strictly_increases(k, 4);
        }
        if k > 8 {
            vstd::arithmetic::power2::lemma_pow2_strictly_increases(8, k);
        }
    }
    let mut r: u32 = 4;
    let mut p: usize = 16;
    while p < x
        invariant
            4 <= r <= k,
            k <= 8,
            p == pow2(r as nat),
            pow2(k) == x,
            x <= 256,
        decreases k - r,
    {
        proof {
            lemma_pow2_unfold((r + 1) as nat);
            if r == k {
                assert(false);
            }
            if r + 1 < k {
                vstd::arithmetic::power2::lemma_pow2_strictly_increases((r + 1) as nat, k);
            }
        }
        p = p * 2;
        r = r + 1;
    }
    proof {
        if r < k {
            vstd::arithmetic::power2::lemma_pow2_strictly_increases(r as nat, k);
        }
    }
    r
}

/// Returns the base-2 logarithm of `x`, rounded down.
fn log2_u32(x: u32) -> (r: u32)
    ensures
        r == log2_floor(x as nat),
{
    let mut r: u32 = 0;
    let mut y = x;
    proof { lemma_log2_bound(x as nat); }
    while y >= 2
        invariant
            r + log2_floor(y as nat) == log2_floor(x as nat),
            r <= 32 - log2_floor(y as nat),
            log2_floor(y as nat) <= 32,
        decreases y,
    {
        proof { lemma_log2_bound(y as nat); lemma_log2_bound((y / 2) as nat); }
        y = y / 2;
        r = r + 1;
    }
    r
}

proof fn lemma_log2_bound(x: nat)
    ensures
        x < 0x1_0000_0000 ==> log2_floor(x) <= 31,
        x < 64 ==> log2_floor(x) <= 5,
{
    lemma2_to64();
    if x < 0x1_0000_0000 {
        lemma_log2_below(x, 31);
    }
    if x < 64 {
        lemma_log2_below(x, 5);
    }
}

proof fn lemma_log2_below(x: nat, k: nat)
    requires
        x < pow2(k + 1),
    ensures
        log2_floor(x) <= k,
    decreases x,
{
    if x >= 2 {
        lemma_pow2_unfold(k + 1);
        if k == 0 {
            lemma2_to64();
        } else {
            lemma_pow2_unfold(k);
            lemma_log2_below(x / 2, (k - 1) as nat);
        }
    }
}

} // verus!
