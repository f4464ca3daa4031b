use vstd::prelude::*;
use super::field::{ f_add, f_mul, f_exp, f_inv, MODULUS };

verus! {

/// The value at `x` of the polynomial with coefficients `p[0..n]` (lowest degree first).
pub open spec fn poly_eval(p: Seq<u128>, x: int, n: nat) -> int
    decreases n,
{
    if n == 0 {
        0
    } else {
        f_add(poly_eval(p, x, (n - 1) as nat), f_mul(p[n - 1] as int, f_exp(x, (n - 1) as nat)))
    }
}

/// The coefficients of the polynomial of degree below `n` through the points `(w^i, v[i])`
/// given by the inverse discrete Fourier transform: coefficient `k` is
/// `n^-1 * sum_i v[i] * w^(-ik)`.
pub open spec fn inverse_dft(v: Seq<u128>, w: int, n: nat) -> Seq<u128> {
    Seq::new(n, |k: int| f_mul(f_inv(n as int), poly_eval(v, f_exp(f_inv(w), k as nat), n)) as u128)
}

proof fn lemma_exp_step(b: int, e: nat)
    ensures
        f_mul(f_exp(b, e), b) == f_exp(b, e + 1),
{
    let m = super::field::modulus();
    vstd::arithmetic::power::lemma_pow_adds(b, e, 1);
    vstd::arithmetic::power::lemma_pow1(b);
    vstd::arithmetic::div_mod::lemma_mul_mod_noop_left(vstd::arithmetic::power::pow(b, e), b, m);
}

/// Returns the value at `x` of the polynomial with coefficients `p` (lowest degree first).
pub fn eval(p: &[u128], x: u128) -> (r: u128)
    ensures
        r == poly_eval(p@, x as int, p@.len()),
        r < MODULUS,
{
    let mut y: u128 = 0;
    let mut power_of_x: u128 = 1;
    let mut i: usize = 0;
    proof {
        vstd::arithmetic::power::lemma_pow0(x as int);
        vstd::arithmetic::div_mod::lemma_small_mod(1, MODULUS as nat);
    }
    while i < p.len()
        invariant
            i <= p@.len(),
            y == poly_eval(p@, x as int, i as nat),
            y < MODULUS,
            power_of_x == f_exp(x as int, i as nat),
        decreases p@.len() - i,
    {
        let term = super::field::mul(p[i], power_of_x);
        y = super::field::add(y, term);
        proof { lemma_exp_step(x as int, i as nat); }
        power_of_x = super::field::mul(power_of_x, x);
        i = i + 1;
    }
    y
}

/// Returns the coefficients of the polynomial of degree below `values.len()` which takes value
/// `values[i]` at `root^i`, by the inverse discrete Fourier transform over the powers of `root`.
pub fn interpolate_roots(values: &[u128], root: u128) -> (r: Vec<u128>)
    requires
        values@.len() < MODULUS,
    ensures
        r@ == inverse_dft(values@, root as int, values@.len()),
{
    let n = values.len();
    let n_inv = super::field::inv(n as u128);
    let root_inv = super::field::inv(root);
    let mut result: Vec<u128> = Vec::new();
    let mut k: usize = 0;
    while k < n
        invariant
            k <= n,
            n == values@.len(),
            n_inv == f_inv(n as int),
            root_inv == f_inv(root as int),
            forall|j: int| 0 <= j < k ==> result@[j] == inverse_dft(values@, root as int, n as nat)[j],
            result@.len() == k,
        decreases n - k,
    {
        let x = super::field::exp(root_inv, k as u128);
        let y = eval(values, x);
        result.push(super::field::mul(n_inv, y));
        k = k + 1;
    }
    assert(result@ =~= inverse_dft(values@, root as int, n as nat));
    result
}

} // verus!
