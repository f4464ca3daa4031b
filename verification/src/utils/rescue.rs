use vstd::prelude::*;
use crate::math::field::{ f_add, f_mul, f_exp, MODULUS };

verus! {

/// Exponent of the Rescue S-box.
pub const ALPHA: u128 = 3u128;

/// Exponent of the inverse Rescue S-box: (2p - 1) / 3, so that ALPHA * INV_ALPHA = 1 mod (p - 1).
pub const INV_ALPHA: u128 = 226854911280625642308916371969163307691u128;

/// Field dot product of `n` entries of `m` starting at `start` with the first `n` entries of `v`,
/// accumulated one term at a time in the field.
pub open spec fn dot(m: Seq<u128>, start: int, v: Seq<u128>, n: nat) -> int
    decreases n,
{
    if n == 0 {
        0
    } else {
        f_add(dot(m, start, v, (n - 1) as nat), f_mul(m[start + n - 1] as int, v[n - 1] as int))
    }
}

/// Product of a square `w x w` matrix (stored row by row) with a vector of width `w`.
pub open spec fn mat_vec(m: Seq<u128>, v: Seq<u128>, w: nat) -> Seq<u128> {
    Seq::new(w, |i: int| dot(m, i * w, v, w) as u128)
}

/// Element-wise x^ALPHA.
pub open spec fn sbox(v: Seq<u128>) -> Seq<u128> {
    Seq::new(v.len(), |i: int| f_exp(v[i] as int, ALPHA as nat) as u128)
}

/// Element-wise x^INV_ALPHA.
pub open spec fn inv_sbox(v: Seq<u128>) -> Seq<u128> {
    Seq::new(v.len(), |i: int| f_exp(v[i] as int, INV_ALPHA as nat) as u128)
}

/// Computes the field dot product of `m[start..start + n]` and `v[..n]`.
pub fn dot_product(m: &[u128], start: usize, v: &[u128], n: usize) -> (r: u128)
    requires
        start + n <= m@.len(),
        n <= v@.len(),
    ensures
        r == dot(m@, start as int, v@, n as nat),
        r < MODULUS,
{
    let ghost ml = m@.len();
    let mlen = m.len();
    let mut acc: u128 = 0;
    let mut j: usize = 0;
    while j < n
        invariant
            j <= n,
            start + n <= m@.len(),
            m@.len() == mlen,
            n <= v@.len(),
            acc == dot(m@, start as int, v@, j as nat),
            acc < MODULUS,
        decreases n - j,
    {
        let t = crate::math::field::mul(m[start + j], v[j]);
        acc = crate::math::field::add(acc, t);
        j = j + 1;
    }
    acc
}

} // verus!
