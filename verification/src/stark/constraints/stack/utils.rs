use vstd::prelude::*;
use crate::stark::constraints::utils::{ agg_eq_range, enforce_equal_range };

verus! {

/// Enforces that every value of `next` equals the value at the same position of `current`;
/// one constraint for each position of `result`.
#[inline(always)]
pub fn enforce_no_change(result: &mut [u128], current: &[u128], next: &[u128], op_flag: u128)
    requires
        current@.len() >= old(result)@.len(),
        next@.len() >= old(result)@.len(),
    ensures
        final(result)@ == agg_eq_range(old(result)@, 0, old(result)@.len() as int, next@, 0, current@, 0, op_flag),
{
    let n = result.len();
    enforce_no_change_range(result, 0, n, current, 0, next, 0, op_flag);
}

/// Enforces, for each position `i` in `start..end` of `result`, that
/// `next[n_start + i - start]` equals `current[c_start + i - start]`.
pub fn enforce_no_change_range(
    result: &mut [u128], start: usize, end: usize,
    current: &[u128], c_start: usize, next: &[u128], n_start: usize, op_flag: u128,
)
    requires
        start <= end <= old(result)@.len(),
        c_start + (end - start) <= current@.len(),
        n_start + (end - start) <= next@.len(),
    ensures
        final(result)@ == agg_eq_range(old(result)@, start as int, end as int, next@, n_start as int, current@, c_start as int, op_flag),
{
    enforce_equal_range(result, start, end, next, n_start, current, c_start, op_flag);
}

} // verus!
