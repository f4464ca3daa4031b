use vstd::prelude::*;
use crate::stark::constraints::utils::{ are_equal, agg_at, agg_eq_range, spec_are_equal, EvaluationResult };
use super::utils::enforce_no_change_range;

verus! {

// STACK MANIPULATION OPERATIONS
// ================================================================================================

/// Whether `result`, `current` and `next` can hold the evaluation of a stack transition on a
/// stack of at least `min` items.
pub open spec fn stack_lengths_ok(result: Seq<u128>, current: Seq<u128>, next: Seq<u128>, min: int) -> bool {
    &&& result.len() >= min
    &&& current.len() >= result.len()
    &&& next.len() >= result.len()
}

/// Aggregates into `r` the constraints `next[k] = current[perm[k]]` for each `k < perm.len()`.
pub open spec fn agg_perm(r: Seq<u128>, next: Seq<u128>, current: Seq<u128>, perm: Seq<int>, flag: u128) -> Seq<u128>
    decreases perm.len(),
{
    if perm.len() == 0 {
        r
    } else {
        let k = perm.len() - 1;
        agg_at(agg_perm(r, next, current, perm.drop_last(), flag), k, flag, spec_are_equal(next[k], current[perm[k]]))
    }
}

/// Enforces constraints for DUP operation. The constraints are based on the first element
/// of the stack; the old stack is shifted right by 1 element.
pub fn enforce_dup(result: &mut [u128], current: &[u128], next: &[u128], op_flag: u128)
    requires
        stack_lengths_ok(old(result)@, current@, next@, 1),
    ensures
        final(result)@.len() == old(result)@.len(),
        final(result)@ == agg_eq_range(agg_perm(old(result)@, next@, current@, seq![0int], op_flag),
            1, old(result)@.len() as int, next@, 1, current@, 0, op_flag),
{
    reveal_with_fuel(agg_perm, 2);
    result.agg_constraint(0, op_flag, are_equal(next[0], current[0]));
    let n = result.len();
    enforce_no_change_range(result, 1, n, current, 0, next, 1, op_flag);
}

/// Enforces constraints for DUP2 operation. The constraints are based on the first 2 element
/// of the stack; the old stack is shifted right by 2 element.
pub fn enforce_dup2(result: &mut [u128], current: &[u128], next: &[u128], op_flag: u128)
    requires
        stack_lengths_ok(old(result)@, current@, next@, 2),
    ensures
        final(result)@.len() == old(result)@.len(),
        final(result)@ == agg_eq_range(agg_perm(old(result)@, next@, current@, seq![0int, 1], op_flag),
            2, old(result)@.len() as int, next@, 2, current@, 0, op_flag),
{
    reveal_with_fuel(agg_perm, 3);
    result.agg_constraint(0, op_flag, are_equal(next[0], current[0]));
    result.agg_constraint(1, op_flag, are_equal(next[1], current[1]));
    let n = result.len();
    enforce_no_change_range(result, 2, n, current, 0, next, 2, op_flag);
}

/// Enforces constraints for DUP4 operation. The constraints are based on the first 4 element
/// of the stack; the old stack is shifted right by 4 element.
pub fn enforce_dup4(result: &mut [u128], current: &[u128], next: &[u128], op_flag: u128)
    requires
        stack_lengths_ok(old(result)@, current@, next@, 4),
    ensures
        final(result)@.len() == old(result)@.len(),
        final(result)@ == agg_eq_range(agg_perm(old(result)@, next@, current@, seq![0int, 1, 2, 3], op_flag),
            4, old(result)@.len() as int, next@, 4, current@, 0, op_flag),
{
    reveal_with_fuel(agg_perm, 5);
    result.agg_constraint(0, op_flag, are_equal(next[0], current[0]));
    result.agg_constraint(1, op_flag, are_equal(next[1], current[1]));
    result.agg_constraint(2, op_flag, are_equal(next[2], current[2]));
    result.agg_constraint(3, op_flag, are_equal(next[3], current[3]));
    let n = result.len();
    enforce_no_change_range(result, 4, n, current, 0, next, 4, op_flag);
}

/// Enforces constraints for PAD2 operation. The constraints are based on the first 2 element
/// of the stack; the old stack is shifted right by 2 element.
pub fn enforce_pad2(result: &mut [u128], current: &[u128], next: &[u128], op_flag: u128)
    requires
        stack_lengths_ok(old(result)@, current@, next@, 2),
    ensures
        final(result)@ == agg_eq_range(
            agg_at(agg_at(old(result)@, 0, op_flag, next@[0]), 1, op_flag, next@[1]),
            2, old(result)@.len() as int, next@, 2, current@, 0, op_flag),
{
    result.agg_constraint(0, op_flag, next[0]);
    result.agg_constraint(1, op_flag, next[1]);
    let n = result.len();
    enforce_no_change_range(result, 2, n, current, 0, next, 2, op_flag);
}

/// Enforces constraints for DROP operation. The stack is simply shifted left by 1 element.
pub fn enforce_drop(result: &mut [u128], current: &[u128], next: &[u128], op_flag: u128)
    requires
        stack_lengths_ok(old(result)@, current@, next@, 1),
    ensures
        final(result)@ == agg_eq_range(old(result)@, 0, old(result)@.len() - 1, next@, 0, current@, 1, op_flag),
{
    let n = result.len() - 1;
    enforce_no_change_range(result, 0, n, current, 1, next, 0, op_flag);
}

/// Enforces constraints for DROP4 operation. The stack is simply shifted left by 4 element.
pub fn enforce_drop4(result: &mut [u128], current: &[u128], next: &[u128], op_flag: u128)
    requires
        stack_lengths_ok(old(result)@, current@, next@, 4),
    ensures
        final(result)@ == agg_eq_range(old(result)@, 0, old(result)@.len() - 4, next@, 0, current@, 4, op_flag),
{
    let n = result.len() - 4;
    enforce_no_change_range(result, 0, n, current, 4, next, 0, op_flag);
}

/// Enforces constraints for SWAP operation. The constraints are based on the first 2 element
/// of the stack; the rest of the stack is unaffected. The new top of the stack is held against
/// the old second item in the first evaluation, and the new second item against the old top in
/// the second one.
pub fn enforce_swap(result: &mut [u128], current: &[u128], next: &[u128], op_flag: u128)
    requires
        stack_lengths_ok(old(result)@, current@, next@, 2),
    ensures
        final(result)@ == agg_eq_range(
            agg_at(agg_at(old(result)@, 0, op_flag, spec_are_equal(next@[0], current@[1])),
                1, op_flag, spec_are_equal(next@[1], current@[0])),
            2, old(result)@.len() as int, next@, 2, current@, 2, op_flag),
{
    result.agg_constraint(0, op_flag, are_equal(next[0], current[1]));
    result.agg_constraint(1, op_flag, are_equal(next[1], current[0]));
    let n = result.len();
    enforce_no_change_range(result, 2, n, current, 2, next, 2, op_flag);
}

/// Enforces constraints for SWAP2 operation. The constraints are based on the first 4 element
/// of the stack; the rest of the stack is unaffected.
pub fn enforce_swap2(result: &mut [u128], current: &[u128], next: &[u128], op_flag: u128)
    requires
        stack_lengths_ok(old(result)@, current@, next@, 4),
    ensures
        final(result)@.len() == old(result)@.len(),
        final(result)@ == agg_eq_range(agg_perm(old(result)@, next@, current@, seq![2int, 3, 0, 1], op_flag),
            4, old(result)@.len() as int, next@, 4, current@, 4, op_flag),
{
    reveal_with_fuel(agg_perm, 5);
    result.agg_constraint(0, op_flag, are_equal(next[0], current[2]));
    result.agg_constraint(1, op_flag, are_equal(next[1], current[3]));
    result.agg_constraint(2, op_flag, are_equal(next[2], current[0]));
    result.agg_constraint(3, op_flag, are_equal(next[3], current[1]));
    let n = result.len();
    enforce_no_change_range(result, 4, n, current, 4, next, 4, op_flag);
}

/// Enforces constraints for SWAP4 operation. The constraints are based on the first 8 element
/// of the stack; the rest of the stack is unaffected.
pub fn enforce_swap4(result: &mut [u128], current: &[u128], next: &[u128], op_flag: u128)
    requires
        stack_lengths_ok(old(result)@, current@, next@, 8),
    ensures
        final(result)@.len() == old(result)@.len(),
        final(result)@ == agg_eq_range(agg_perm(old(result)@, next@, current@, seq![4int, 5, 6, 7, 0, 1, 2, 3], op_flag),
            8, old(result)@.len() as int, next@, 8, current@, 8, op_flag),
{
    reveal_with_fuel(agg_perm, 9);
    result.agg_constraint(0, op_flag, are_equal(next[0], current[4]));
    result.agg_constraint(1, op_flag, are_equal(next[1], current[5]));
    result.agg_constraint(2, op_flag, are_equal(next[2], current[6]));
    result.agg_constraint(3, op_flag, are_equal(next[3], current[7]));
    result.agg_constraint(4, op_flag, are_equal(next[4], current[0]));
    result.agg_constraint(5, op_flag, are_equal(next[5], current[1]));
    result.agg_constraint(6, op_flag, are_equal(next[6], current[2]));
    result.agg_constraint(7, op_flag, are_equal(next[7], current[3]));
    let n = result.len();
    enforce_no_change_range(result, 8, n, current, 8, next, 8, op_flag);
}

/// Enforces constraints for ROLL4 operation. The constraints are based on the first 4 element
/// of the stack; the rest of the stack is unaffected.
pub fn enforce_roll4(result: &mut [u128], current: &[u128], next: &[u128], op_flag: u128)
    requires
        stack_lengths_ok(old(result)@, current@, next@, 4),
    ensures
        final(result)@.len() == old(result)@.len(),
        final(result)@ == agg_eq_range(agg_perm(old(result)@, next@, current@, seq![3int, 0, 1, 2], op_flag),
            4, old(result)@.len() as int, next@, 4, current@, 4, op_flag),
{
    reveal_with_fuel(agg_perm, 5);
    result.agg_constraint(0, op_flag, are_equal(next[0], current[3]));
    result.agg_constraint(1, op_flag, are_equal(next[1], current[0]));
    result.agg_constraint(2, op_flag, are_equal(next[2], current[1]));
    result.agg_constraint(3, op_flag, are_equal(next[3], current[2]));
    let n = result.len();
    enforce_no_change_range(result, 4, n, current, 4, next, 4, op_flag);
}

/// Enforces constraints for ROLL8 operation. The constraints are based on the first 8 element
/// of the stack; the rest of the stack is unaffected.
pub fn enforce_roll8(result: &mut [u128], current: &[u128], next: &[u128], op_flag: u128)
    requires
        stack_lengths_ok(old(result)@, current@, next@, 8),
    ensures
        final(result)@.len() == old(result)@.len(),
        final(result)@ == agg_eq_range(agg_perm(old(result)@, next@, current@, seq![7int, 0, 1, 2, 3, 4, 5, 6], op_flag),
            8, old(result)@.len() as int, next@, 8, current@, 8, op_flag),
{
    reveal_with_fuel(agg_perm, 9);
    result.agg_constraint(0, op_flag, are_equal(next[0], current[7]));
    result.agg_constraint(1, op_flag, are_equal(next[1], current[0]));
    result.agg_constraint(2, op_flag, are_equal(next[2], current[1]));
    result.agg_constraint(3, op_flag, are_equal(next[3], current[2]));
    result.agg_constraint(4, op_flag, are_equal(next[4], current[3]));
    result.agg_constraint(5, op_flag, are_equal(next[5], current[4]));
    result.agg_constraint(6, op_flag, are_equal(next[6], current[5]));
    result.agg_constraint(7, op_flag, are_equal(next[7], current[6]));
    let n = result.len();
    enforce_no_change_range(result, 8, n, current, 8, next, 8, op_flag);
}

} // verus!
