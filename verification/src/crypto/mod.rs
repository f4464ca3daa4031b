use vstd::prelude::*;

pub mod merkle;

verus! {

/// A hash function which maps a sequence of bytes to a 32-byte digest.
#[derive(Copy, Clone, Debug, PartialEq, Eq, Structural)]
pub enum HashFunction {
    Blake3,
}

/// The BLAKE3 digest of a sequence of bytes.
pub uninterp spec fn blake3_digest(input: Seq<u8>) -> Seq<u8>;

/// The digest that `hash_fn` computes of `input`.
pub open spec fn digest(hash_fn: HashFunction, input: Seq<u8>) -> Seq<u8> {
    match hash_fn {
        HashFunction::Blake3 => blake3_digest(input),
    }
}

/// Calls `blake3::hash` on `input` and returns the 32 bytes of the digest (`Hash::as_bytes`).
/// The contract claims that the result is `blake3_digest` of the input bytes: a function of the
/// input alone. What that function computes is not stated.
#[verifier::external_body]
fn blake3_hash(input: &[u8]) -> (r: [u8; 32])
    ensures
        r@ == blake3_digest(input@),
{
    *::blake3::hash(input).as_bytes()
}

/// Writes the BLAKE3 digest of `values` into `result`.
pub fn blake3(values: &[u8], result: &mut [u8; 32])
    ensures
        final(result)@ == blake3_digest(values@),
{
    *result = blake3_hash(values);
}

impl HashFunction {
    /// Writes the digest of `values` into `result`.
    pub fn hash(&self, values: &[u8], result: &mut [u8; 32])
        ensures
            final(result)@ == digest(*self, values@),
    {
        match self {
            HashFunction::Blake3 => blake3(values, result),
        }
    }
}

} // verus!
