use vstd::prelude::*;
use crate::math::field::{ f_mul, MODULUS };
use crate::opcodes;
use crate::stark::trace::TraceState;
use crate::stark::trace::trace_state::user_op_flag;
use crate::stark::trace::trace_state2::bit_sel;
use crate::stark::constraints::utils::{
    agg, agg_at, agg_eq_range, agg_zero_range, all_canonical, spec_are_equal, spec_binary_not, spec_is_binary,
    eval_len, lemma_agg_eq_range_noop, lemma_agg_at_noop, lemma_sub_zero_equal,
};
use crate::utils::hasher::STATE_WIDTH as HASH_STATE_WIDTH;
use crate::math::field::{ f_add, f_sub };
use super::manipulation::agg_perm;
use super::comparison::{ agg_values, comparison_constraints, binacc_constraints };
use super::conditional::{ select, left_shift };
use super::hash::rescr_constraints;
use super::{
    NUM_AUX_CONSTRAINTS, stack_constraints, assertion_input_constraints, duplication_constraints,
    drop_swap_constraints, rotation_constraints, arithmetic_constraints, boolean_constraints,
    equality_constraints, selection_constraints, high_degree_constraints, composite_constraints,
};

verus! {

// AGGREGATION UNDER A ZERO FLAG
// ================================================================================================

/// A constraint guarded by a zero flag leaves a canonical evaluation unchanged.
proof fn lemma_agg_idle(acc: u128, flag: u128, value: u128)
    requires
        acc < MODULUS,
        flag == 0,
    ensures
        agg(acc, flag, value) == acc,
{
    assert(f_mul(flag as int, value as int) == 0) by {
        assert((flag as int) * (value as int) == 0);
    }
    vstd::arithmetic::div_mod::lemma_small_mod(acc as nat, MODULUS as nat);
}

/// A constraint aggregated at one position under a zero flag leaves canonical evaluations
/// unchanged.
proof fn lemma_at_idle(r: Seq<u128>, i: int, flag: u128, value: u128)
    requires
        all_canonical(r),
        0 <= i < r.len(),
        flag == 0,
    ensures
        agg_at(r, i, flag, value) == r,
{
    lemma_agg_idle(r[i], flag, value);
    assert(agg_at(r, i, flag, value) =~= r);
}

/// Equality constraints aggregated over a range under a zero flag leave canonical evaluations
/// unchanged.
proof fn lemma_eq_range_idle(r: Seq<u128>, start: int, end: int, a: Seq<u128>, a_start: int, b: Seq<u128>, b_start: int, flag: u128)
    requires
        all_canonical(r),
        flag == 0,
    ensures
        agg_eq_range(r, start, end, a, a_start, b, b_start, flag) == r,
{
    assert forall|i: int| 0 <= i < r.len() implies #[trigger] agg_eq_range(r, start, end, a, a_start, b, b_start, flag)[i] == r[i] by {
        lemma_agg_idle(r[i], flag, spec_are_equal(a[a_start + i - start], b[b_start + i - start]));
    }
    assert(agg_eq_range(r, start, end, a, a_start, b, b_start, flag) =~= r);
}

/// Zero constraints aggregated over a range under a zero flag leave canonical evaluations
/// unchanged.
proof fn lemma_zero_range_idle(r: Seq<u128>, start: int, end: int, v: Seq<u128>, flag: u128)
    requires
        all_canonical(r),
        flag == 0,
    ensures
        agg_zero_range(r, start, end, v, flag) == r,
{
    assert forall|i: int| 0 <= i < r.len() implies #[trigger] agg_zero_range(r, start, end, v, flag)[i] == r[i] by {
        lemma_agg_idle(r[i], flag, v[i]);
    }
    assert(agg_zero_range(r, start, end, v, flag) =~= r);
}

/// Constraint values aggregated under a zero flag leave canonical evaluations unchanged.
proof fn lemma_values_idle(r: Seq<u128>, values: Seq<u128>, flag: u128)
    requires
        all_canonical(r),
        flag == 0,
    ensures
        agg_values(r, values, flag) == r,
{
    assert forall|i: int| 0 <= i < r.len() implies #[trigger] agg_values(r, values, flag)[i] == r[i] by {
        if i < values.len() {
            lemma_agg_idle(r[i], flag, values[i]);
        }
    }
    assert(agg_values(r, values, flag) =~= r);
}

/// Permutation constraints aggregated under a zero flag leave canonical evaluations unchanged.
proof fn lemma_perm_idle(r: Seq<u128>, next: Seq<u128>, current: Seq<u128>, perm: Seq<int>, flag: u128)
    requires
        all_canonical(r),
        perm.len() <= r.len(),
        flag == 0,
    ensures
        agg_perm(r, next, current, perm, flag) == r,
    decreases perm.len(),
{
    if perm.len() > 0 {
        let k = perm.len() - 1;
        lemma_perm_idle(r, next, current, perm.drop_last(), flag);
        lemma_at_idle(r, k, flag, spec_are_equal(next[k], current[perm[k]]));
    }
}

/// The constraints of a left shift aggregated under a zero flag leave canonical evaluations
/// unchanged.
proof fn lemma_left_shift_idle(r: Seq<u128>, old_stack: Seq<u128>, new_stack: Seq<u128>, from_slot: int, num_slots: int, flag: u128)
    requires
        all_canonical(r),
        flag == 0,
    ensures
        left_shift(r, old_stack, new_stack, from_slot, num_slots, flag) == r,
{
    lemma_eq_range_idle(r, from_slot - num_slots, r.len() - num_slots, old_stack, from_slot, new_stack, from_slot - num_slots, flag);
    lemma_zero_range_idle(r, r.len() - num_slots, r.len() as int, new_stack, flag);
}

// OPERATION GROUPS WHOSE FLAGS ARE ZERO
// ================================================================================================

/// With the flags of all its operations zero, `assertion_input_constraints` leaves canonical
/// evaluations unchanged.
proof fn lemma_assertion_input_constraints_idle(e: Seq<u128>, a: Seq<u128>, s: Seq<u128>, n: Seq<u128>, ark: Seq<u128>, ld: Seq<u128>, hd: Seq<u128>)
    requires
        all_canonical(e),
        all_canonical(a),
        a.len() == NUM_AUX_CONSTRAINTS,
        e.len() >= 8,
        s.len() >= e.len(),
        n.len() >= e.len(),
        user_op_flag(ld, hd, opcodes::ASSERT) == 0,
        user_op_flag(ld, hd, opcodes::ASSERTEQ) == 0,
        user_op_flag(ld, hd, opcodes::READ) == 0,
        user_op_flag(ld, hd, opcodes::READ2) == 0,
    ensures
        assertion_input_constraints(e, a, s, n, ark, ld, hd) == (e, a),
{
    reveal(assertion_input_constraints);
    lemma_eq_range_idle(e, 0, e.len() - 1, n, 0, s, 1, user_op_flag(ld, hd, opcodes::ASSERT));
    lemma_at_idle(a, 0, user_op_flag(ld, hd, opcodes::ASSERT), spec_are_equal(1, s[0]));
    lemma_eq_range_idle(e, 0, e.len() - 2, n, 0, s, 2, user_op_flag(ld, hd, opcodes::ASSERTEQ));
    lemma_at_idle(a, 0, user_op_flag(ld, hd, opcodes::ASSERTEQ), spec_are_equal(s[0], s[1]));
    lemma_eq_range_idle(e, 1, e.len() as int, n, 1, s, 0, user_op_flag(ld, hd, opcodes::READ));
    lemma_eq_range_idle(e, 2, e.len() as int, n, 2, s, 0, user_op_flag(ld, hd, opcodes::READ2));
}

/// With the flags of all its operations zero, `duplication_constraints` leaves canonical
/// evaluations unchanged.
proof fn lemma_duplication_constraints_idle(e: Seq<u128>, a: Seq<u128>, s: Seq<u128>, n: Seq<u128>, ark: Seq<u128>, ld: Seq<u128>, hd: Seq<u128>)
    requires
        all_canonical(e),
        all_canonical(a),
        a.len() == NUM_AUX_CONSTRAINTS,
        e.len() >= 8,
        s.len() >= e.len(),
        n.len() >= e.len(),
        user_op_flag(ld, hd, opcodes::DUP) == 0,
        user_op_flag(ld, hd, opcodes::DUP2) == 0,
        user_op_flag(ld, hd, opcodes::DUP4) == 0,
        user_op_flag(ld, hd, opcodes::PAD2) == 0,
    ensures
        duplication_constraints(e, a, s, n, ark, ld, hd) == (e, a),
{
    reveal(duplication_constraints);
    lemma_perm_idle(e, n, s, seq![0int], user_op_flag(ld, hd, opcodes::DUP));
    lemma_eq_range_idle(e, 1, e.len() as int, n, 1, s, 0, user_op_flag(ld, hd, opcodes::DUP));
    lemma_perm_idle(e, n, s, seq![0int, 1], user_op_flag(ld, hd, opcodes::DUP2));
    lemma_eq_range_idle(e, 2, e.len() as int, n, 2, s, 0, user_op_flag(ld, hd, opcodes::DUP2));
    lemma_perm_idle(e, n, s, seq![0int, 1, 2, 3], user_op_flag(ld, hd, opcodes::DUP4));
    lemma_eq_range_idle(e, 4, e.len() as int, n, 4, s, 0, user_op_flag(ld, hd, opcodes::DUP4));
    lemma_at_idle(e, 0, user_op_flag(ld, hd, opcodes::PAD2), n[0]);
    lemma_at_idle(e, 1, user_op_flag(ld, hd, opcodes::PAD2), n[1]);
    lemma_eq_range_idle(e, 2, e.len() as int, n, 2, s, 0, user_op_flag(ld, hd, opcodes::PAD2));
}

/// With the flags of all its operations zero, `drop_swap_constraints` leaves canonical evaluations
/// unchanged.
proof fn lemma_drop_swap_constraints_idle(e: Seq<u128>, a: Seq<u128>, s: Seq<u128>, n: Seq<u128>, ark: Seq<u128>, ld: Seq<u128>, hd: Seq<u128>)
    requires
        all_canonical(e),
        all_canonical(a),
        a.len() == NUM_AUX_CONSTRAINTS,
        e.len() >= 8,
        s.len() >= e.len(),
        n.len() >= e.len(),
        user_op_flag(ld, hd, opcodes::DROP) == 0,
        user_op_flag(ld, hd, opcodes::DROP4) == 0,
        user_op_flag(ld, hd, opcodes::SWAP) == 0,
        user_op_flag(ld, hd, opcodes::SWAP2) == 0,
    ensures
        drop_swap_constraints(e, a, s, n, ark, ld, hd) == (e, a),
{
    reveal(drop_swap_constraints);
    lemma_eq_range_idle(e, 0, e.len() - 1, n, 0, s, 1, user_op_flag(ld, hd, opcodes::DROP));
    lemma_eq_range_idle(e, 0, e.len() - 4, n, 0, s, 4, user_op_flag(ld, hd, opcodes::DROP4));
    lemma_at_idle(e, 0, user_op_flag(ld, hd, opcodes::SWAP), spec_are_equal(n[0], s[1]));
    lemma_at_idle(e, 1, user_op_flag(ld, hd, opcodes::SWAP), spec_are_equal(n[1], s[0]));
    lemma_eq_range_idle(e, 2, e.len() as int, n, 2, s, 2, user_op_flag(ld, hd, opcodes::SWAP));
    lemma_perm_idle(e, n, s, seq![2int, 3, 0, 1], user_op_flag(ld, hd, opcodes::SWAP2));
    lemma_eq_range_idle(e, 4, e.len() as int, n, 4, s, 4, user_op_flag(ld, hd, opcodes::SWAP2));
}

/// With the flags of all its operations zero, `rotation_constraints` leaves canonical evaluations
/// unchanged.
proof fn lemma_rotation_constraints_idle(e: Seq<u128>, a: Seq<u128>, s: Seq<u128>, n: Seq<u128>, ark: Seq<u128>, ld: Seq<u128>, hd: Seq<u128>)
    requires
        all_canonical(e),
        all_canonical(a),
        a.len() == NUM_AUX_CONSTRAINTS,
        e.len() >= 8,
        s.len() >= e.len(),
        n.len() >= e.len(),
        user_op_flag(ld, hd, opcodes::SWAP4) == 0,
        user_op_flag(ld, hd, opcodes::ROLL4) == 0,
        user_op_flag(ld, hd, opcodes::ROLL8) == 0,
    ensures
        rotation_constraints(e, a, s, n, ark, ld, hd) == (e, a),
{
    reveal(rotation_constraints);
    lemma_perm_idle(e, n, s, seq![4int, 5, 6, 7, 0, 1, 2, 3], user_op_flag(ld, hd, opcodes::SWAP4));
    lemma_eq_range_idle(e, 8, e.len() as int, n, 8, s, 8, user_op_flag(ld, hd, opcodes::SWAP4));
    lemma_perm_idle(e, n, s, seq![3int, 0, 1, 2], user_op_flag(ld, hd, opcodes::ROLL4));
    lemma_eq_range_idle(e, 4, e.len() as int, n, 4, s, 4, user_op_flag(ld, hd, opcodes::ROLL4));
    lemma_perm_idle(e, n, s, seq![7int, 0, 1, 2, 3, 4, 5, 6], user_op_flag(ld, hd, opcodes::ROLL8));
    lemma_eq_range_idle(e, 8, e.len() as int, n, 8, s, 8, user_op_flag(ld, hd, opcodes::ROLL8));
}

/// With the flags of all its operations zero, `arithmetic_constraints` leaves canonical evaluations
/// unchanged.
proof fn lemma_arithmetic_constraints_idle(e: Seq<u128>, a: Seq<u128>, s: Seq<u128>, n: Seq<u128>, ark: Seq<u128>, ld: Seq<u128>, hd: Seq<u128>)
    requires
        all_canonical(e),
        all_canonical(a),
        a.len() == NUM_AUX_CONSTRAINTS,
        e.len() >= 8,
        s.len() >= e.len(),
        n.len() >= e.len(),
        user_op_flag(ld, hd, opcodes::ADD) == 0,
        user_op_flag(ld, hd, opcodes::MUL) == 0,
        user_op_flag(ld, hd, opcodes::INV) == 0,
        user_op_flag(ld, hd, opcodes::NEG) == 0,
    ensures
        arithmetic_constraints(e, a, s, n, ark, ld, hd) == (e, a),
{
    reveal(arithmetic_constraints);
    lemma_at_idle(e, 0, user_op_flag(ld, hd, opcodes::ADD), spec_are_equal(n[0], f_add(s[0] as int, s[1] as int) as u128));
    lemma_eq_range_idle(e, 1, e.len() - 1, n, 1, s, 2, user_op_flag(ld, hd, opcodes::ADD));
    lemma_at_idle(e, 0, user_op_flag(ld, hd, opcodes::MUL), spec_are_equal(n[0], f_mul(s[0] as int, s[1] as int) as u128));
    lemma_eq_range_idle(e, 1, e.len() - 1, n, 1, s, 2, user_op_flag(ld, hd, opcodes::MUL));
    lemma_at_idle(e, 0, user_op_flag(ld, hd, opcodes::INV), spec_are_equal(1, f_mul(n[0] as int, s[0] as int) as u128));
    lemma_eq_range_idle(e, 1, e.len() as int, n, 1, s, 1, user_op_flag(ld, hd, opcodes::INV));
    lemma_at_idle(e, 0, user_op_flag(ld, hd, opcodes::NEG), f_add(n[0] as int, s[0] as int) as u128);
    lemma_eq_range_idle(e, 1, e.len() as int, n, 1, s, 1, user_op_flag(ld, hd, opcodes::NEG));
}

/// With the flags of all its operations zero, `boolean_constraints` leaves canonical evaluations
/// unchanged.
proof fn lemma_boolean_constraints_idle(e: Seq<u128>, a: Seq<u128>, s: Seq<u128>, n: Seq<u128>, ark: Seq<u128>, ld: Seq<u128>, hd: Seq<u128>)
    requires
        all_canonical(e),
        all_canonical(a),
        a.len() == NUM_AUX_CONSTRAINTS,
        e.len() >= 8,
        s.len() >= e.len(),
        n.len() >= e.len(),
        user_op_flag(ld, hd, opcodes::NOT) == 0,
        user_op_flag(ld, hd, opcodes::AND) == 0,
        user_op_flag(ld, hd, opcodes::OR) == 0,
    ensures
        boolean_constraints(e, a, s, n, ark, ld, hd) == (e, a),
{
    reveal(boolean_constraints);
    lemma_at_idle(e, 0, user_op_flag(ld, hd, opcodes::NOT), spec_are_equal(n[0], spec_binary_not(s[0])));
    lemma_eq_range_idle(e, 1, e.len() as int, n, 1, s, 1, user_op_flag(ld, hd, opcodes::NOT));
    lemma_at_idle(a, 0, user_op_flag(ld, hd, opcodes::NOT), spec_is_binary(s[0]));
    lemma_at_idle(e, 0, user_op_flag(ld, hd, opcodes::AND), spec_are_equal(n[0], f_mul(s[0] as int, s[1] as int) as u128));
    lemma_eq_range_idle(e, 1, e.len() - 1, n, 1, s, 2, user_op_flag(ld, hd, opcodes::AND));
    lemma_at_idle(a, 0, user_op_flag(ld, hd, opcodes::AND), spec_is_binary(s[0]));
    lemma_at_idle(a, 1, user_op_flag(ld, hd, opcodes::AND), spec_is_binary(s[1]));
    lemma_at_idle(e, 0, user_op_flag(ld, hd, opcodes::OR), spec_are_equal(n[0], spec_binary_not(f_mul(spec_binary_not(s[0]) as int, spec_binary_not(s[1]) as int) as u128)));
    lemma_eq_range_idle(e, 1, e.len() - 1, n, 1, s, 2, user_op_flag(ld, hd, opcodes::OR));
    lemma_at_idle(a, 0, user_op_flag(ld, hd, opcodes::OR), spec_is_binary(s[0]));
    lemma_at_idle(a, 1, user_op_flag(ld, hd, opcodes::OR), spec_is_binary(s[1]));
}

/// With the flags of all its operations zero, `equality_constraints` leaves canonical evaluations
/// unchanged.
proof fn lemma_equality_constraints_idle(e: Seq<u128>, a: Seq<u128>, s: Seq<u128>, n: Seq<u128>, ark: Seq<u128>, ld: Seq<u128>, hd: Seq<u128>)
    requires
        all_canonical(e),
        all_canonical(a),
        a.len() == NUM_AUX_CONSTRAINTS,
        e.len() >= 8,
        s.len() >= e.len(),
        n.len() >= e.len(),
        user_op_flag(ld, hd, opcodes::EQ) == 0,
        user_op_flag(ld, hd, opcodes::BINACC) == 0,
    ensures
        equality_constraints(e, a, s, n, ark, ld, hd) == (e, a),
{
    reveal(equality_constraints);
    lemma_at_idle(e, 0, user_op_flag(ld, hd, opcodes::EQ), spec_are_equal(n[0], spec_binary_not(f_mul(f_sub(s[1] as int, s[2] as int), s[0] as int) as u128)));
    lemma_eq_range_idle(e, 1, e.len() - 2, n, 1, s, 3, user_op_flag(ld, hd, opcodes::EQ));
    lemma_at_idle(a, 0, user_op_flag(ld, hd, opcodes::EQ), f_mul(n[0] as int, f_sub(s[1] as int, s[2] as int)) as u128);
    lemma_values_idle(e, binacc_constraints(s, n), user_op_flag(ld, hd, opcodes::BINACC));
    lemma_eq_range_idle(e, 3, e.len() as int, s, 3, n, 3, user_op_flag(ld, hd, opcodes::BINACC));
}

/// With the flags of all its operations zero, `selection_constraints` leaves canonical evaluations
/// unchanged.
proof fn lemma_selection_constraints_idle(e: Seq<u128>, a: Seq<u128>, s: Seq<u128>, n: Seq<u128>, ark: Seq<u128>, ld: Seq<u128>, hd: Seq<u128>)
    requires
        all_canonical(e),
        all_canonical(a),
        a.len() == NUM_AUX_CONSTRAINTS,
        e.len() >= 8,
        s.len() >= e.len(),
        n.len() >= e.len(),
        user_op_flag(ld, hd, opcodes::CHOOSE) == 0,
        user_op_flag(ld, hd, opcodes::CHOOSE2) == 0,
        user_op_flag(ld, hd, opcodes::CSWAP2) == 0,
    ensures
        selection_constraints(e, a, s, n, ark, ld, hd) == (e, a),
{
    reveal(selection_constraints);
    lemma_at_idle(e, 0, user_op_flag(ld, hd, opcodes::CHOOSE), spec_are_equal(n[0], select(s[2], s[0], s[1])));
    lemma_left_shift_idle(e, s, n, 3, 2, user_op_flag(ld, hd, opcodes::CHOOSE));
    lemma_at_idle(a, 0, user_op_flag(ld, hd, opcodes::CHOOSE), spec_is_binary(s[2]));
    lemma_at_idle(e, 0, user_op_flag(ld, hd, opcodes::CHOOSE2), spec_are_equal(n[0], select(s[4], s[0], s[2])));
    lemma_at_idle(e, 1, user_op_flag(ld, hd, opcodes::CHOOSE2), spec_are_equal(n[1], select(s[4], s[1], s[3])));
    lemma_left_shift_idle(e, s, n, 6, 4, user_op_flag(ld, hd, opcodes::CHOOSE2));
    lemma_at_idle(a, 0, user_op_flag(ld, hd, opcodes::CHOOSE2), spec_is_binary(s[4]));
    lemma_at_idle(e, 0, user_op_flag(ld, hd, opcodes::CSWAP2), spec_are_equal(n[0], select(s[4], s[2], s[0])));
    lemma_at_idle(e, 1, user_op_flag(ld, hd, opcodes::CSWAP2), spec_are_equal(n[1], select(s[4], s[3], s[1])));
    lemma_at_idle(e, 2, user_op_flag(ld, hd, opcodes::CSWAP2), spec_are_equal(n[2], select(s[4], s[0], s[2])));
    lemma_at_idle(e, 3, user_op_flag(ld, hd, opcodes::CSWAP2), spec_are_equal(n[3], select(s[4], s[1], s[3])));
    lemma_left_shift_idle(e, s, n, 6, 2, user_op_flag(ld, hd, opcodes::CSWAP2));
    lemma_at_idle(a, 0, user_op_flag(ld, hd, opcodes::CSWAP2), spec_is_binary(s[4]));
}

/// With the flags of all its operations zero, `high_degree_constraints` leaves canonical
/// evaluations unchanged.
proof fn lemma_high_degree_constraints_idle(e: Seq<u128>, a: Seq<u128>, s: Seq<u128>, n: Seq<u128>, ark: Seq<u128>, ld: Seq<u128>, hd: Seq<u128>)
    requires
        all_canonical(e),
        all_canonical(a),
        a.len() == NUM_AUX_CONSTRAINTS,
        e.len() >= 8,
        s.len() >= e.len(),
        n.len() >= e.len(),
        user_op_flag(ld, hd, opcodes::PUSH) == 0,
        user_op_flag(ld, hd, opcodes::CMP) == 0,
        user_op_flag(ld, hd, opcodes::RESCR) == 0,
    ensures
        high_degree_constraints(e, a, s, n, ark, ld, hd) == (e, a),
{
    reveal(high_degree_constraints);
    lemma_eq_range_idle(e, 1, e.len() as int, n, 1, s, 0, user_op_flag(ld, hd, opcodes::PUSH));
    lemma_values_idle(e, comparison_constraints(s, n), user_op_flag(ld, hd, opcodes::CMP));
    lemma_eq_range_idle(e, 8, eval_len(e), s, 8, n, 8, user_op_flag(ld, hd, opcodes::CMP));
    lemma_values_idle(e, rescr_constraints(s, n, ark), user_op_flag(ld, hd, opcodes::RESCR));
    lemma_eq_range_idle(e, HASH_STATE_WIDTH as int, e.len() as int, n, HASH_STATE_WIDTH as int, s, HASH_STATE_WIDTH as int, user_op_flag(ld, hd, opcodes::RESCR));
}

/// With the BEGIN flag zero, a NOOP transition that leaves the stack unchanged keeps canonical
/// evaluations of `composite_constraints` unchanged.
proof fn lemma_composite_constraints_unchanged_stack(e: Seq<u128>, a: Seq<u128>, s: Seq<u128>, n: Seq<u128>, ark: Seq<u128>, ld: Seq<u128>, hd: Seq<u128>)
    requires
        all_canonical(e),
        s.len() >= e.len(),
        n.len() >= e.len(),
        forall|i: int| 0 <= i < e.len() ==> s[i] == n[i],
        user_op_flag(ld, hd, opcodes::BEGIN) == 0,
    ensures
        composite_constraints(e, a, s, n, ark, ld, hd) == (e, a),
{
    reveal(composite_constraints);
    lemma_eq_range_idle(e, 0, e.len() as int, s, 0, n, 0, user_op_flag(ld, hd, opcodes::BEGIN));
    lemma_agg_eq_range_noop(e, 0, e.len() as int, s, 0, n, 0, user_op_flag(ld, hd, opcodes::NOOP));
}

/// With ADD the only arithmetic operation whose flag is set, a transition whose top register holds
/// the sum of the two operands and whose other registers move up by one keeps canonical
/// evaluations of `arithmetic_constraints` unchanged.
proof fn lemma_arithmetic_constraints_add(e: Seq<u128>, a: Seq<u128>, s: Seq<u128>, n: Seq<u128>, ark: Seq<u128>, ld: Seq<u128>, hd: Seq<u128>)
    requires
        all_canonical(e),
        all_canonical(a),
        a.len() == NUM_AUX_CONSTRAINTS,
        e.len() >= 8,
        s.len() >= e.len(),
        n.len() >= e.len(),
        user_op_flag(ld, hd, opcodes::MUL) == 0,
        user_op_flag(ld, hd, opcodes::INV) == 0,
        user_op_flag(ld, hd, opcodes::NEG) == 0,
        n[0] == f_add(s[0] as int, s[1] as int) as u128,
        forall|i: int| 1 <= i < e.len() - 1 ==> #[trigger] n[i] == s[i + 1],
    ensures
        arithmetic_constraints(e, a, s, n, ark, ld, hd) == (e, a),
{
    reveal(arithmetic_constraints);
    let flag = user_op_flag(ld, hd, opcodes::ADD);
    assert(spec_are_equal(n[0], f_add(s[0] as int, s[1] as int) as u128) == 0) by {
        vstd::arithmetic::div_mod::lemma_small_mod(0, MODULUS as nat);
    }
    lemma_agg_at_noop(e, 0, flag);
    assert forall|i: int| 1 <= i < e.len() - 1 implies #[trigger] n[1 + i - 1] == s[2 + i - 1] by {
        assert(n[i] == s[i + 1]);
    }
    lemma_agg_eq_range_noop(e, 1, e.len() - 1, n, 1, s, 2, flag);
    lemma_at_idle(e, 0, user_op_flag(ld, hd, opcodes::MUL), spec_are_equal(n[0], f_mul(s[0] as int, s[1] as int) as u128));
    lemma_eq_range_idle(e, 1, e.len() - 1, n, 1, s, 2, user_op_flag(ld, hd, opcodes::MUL));
    lemma_at_idle(e, 0, user_op_flag(ld, hd, opcodes::INV), spec_are_equal(1, f_mul(n[0] as int, s[0] as int) as u128));
    lemma_eq_range_idle(e, 1, e.len() as int, n, 1, s, 1, user_op_flag(ld, hd, opcodes::INV));
    lemma_at_idle(e, 0, user_op_flag(ld, hd, opcodes::NEG), f_add(n[0] as int, s[0] as int) as u128);
    lemma_eq_range_idle(e, 1, e.len() as int, n, 1, s, 1, user_op_flag(ld, hd, opcodes::NEG));
}

/// With the BEGIN and NOOP flags zero, `composite_constraints` leaves canonical evaluations
/// unchanged.
proof fn lemma_composite_constraints_idle(e: Seq<u128>, a: Seq<u128>, s: Seq<u128>, n: Seq<u128>, ark: Seq<u128>, ld: Seq<u128>, hd: Seq<u128>)
    requires
        all_canonical(e),
        user_op_flag(ld, hd, opcodes::BEGIN) == 0,
        user_op_flag(ld, hd, opcodes::NOOP) == 0,
    ensures
        composite_constraints(e, a, s, n, ark, ld, hd) == (e, a),
{
    reveal(composite_constraints);
    lemma_eq_range_idle(e, 0, e.len() as int, s, 0, n, 0, user_op_flag(ld, hd, opcodes::BEGIN));
    lemma_eq_range_idle(e, 0, e.len() as int, s, 0, n, 0, user_op_flag(ld, hd, opcodes::NOOP));
}

/// With the BEGIN flag zero and the NOOP flag one, `composite_constraints` turns zero
/// evaluations into the differences between the registers before and after the step.
proof fn lemma_composite_constraints_noop(e: Seq<u128>, a: Seq<u128>, s: Seq<u128>, n: Seq<u128>, ark: Seq<u128>, ld: Seq<u128>, hd: Seq<u128>)
    requires
        forall|i: int| 0 <= i < e.len() ==> #[trigger] e[i] == 0,
        s.len() >= e.len(),
        n.len() >= e.len(),
        user_op_flag(ld, hd, opcodes::BEGIN) == 0,
        user_op_flag(ld, hd, opcodes::NOOP) == 1,
    ensures
        composite_constraints(e, a, s, n, ark, ld, hd)
            == (Seq::new(e.len(), |i: int| f_sub(s[i] as int, n[i] as int) as u128), a),
{
    reveal(composite_constraints);
    assert(all_canonical(e));
    lemma_eq_range_idle(e, 0, e.len() as int, s, 0, n, 0, user_op_flag(ld, hd, opcodes::BEGIN));
    let r = agg_eq_range(e, 0, e.len() as int, s, 0, n, 0, user_op_flag(ld, hd, opcodes::NOOP));
    assert forall|i: int| 0 <= i < e.len() implies #[trigger] r[i] == f_sub(s[i] as int, n[i] as int) as u128 by {
        let x = f_sub(s[i] as int, n[i] as int);
        assert(0 <= x < MODULUS);
        assert(f_mul(1, x) == x) by {
            vstd::arithmetic::div_mod::lemma_small_mod(x as nat, MODULUS as nat);
        }
        assert(f_add(0, x) == x) by {
            vstd::arithmetic::div_mod::lemma_small_mod(x as nat, MODULUS as nat);
        }
    }
    assert(r =~= Seq::new(e.len(), |i: int| f_sub(s[i] as int, n[i] as int) as u128));
}

/// The evaluations of an ADD step on zero evaluations: the top register against the sum of the
/// two operands, each register below it against the register one lower before the step, and
/// nothing on the bottom register.
pub open spec fn add_evaluations(s: Seq<u128>, n: Seq<u128>, len: nat) -> Seq<u128> {
    Seq::new(len, |i: int|
        if i == 0 {
            f_sub(n[0] as int, f_add(s[0] as int, s[1] as int)) as u128
        } else if i < len - 1 {
            f_sub(n[i] as int, s[i + 1] as int) as u128
        } else {
            0u128
        })
}

/// Aggregating a canonical value under a flag of one into a zero evaluation gives that value.
proof fn lemma_agg_one(value: u128)
    requires
        value < MODULUS,
    ensures
        agg(0, 1, value) == value,
{
    vstd::arithmetic::div_mod::lemma_small_mod(value as nat, MODULUS as nat);
}

/// With ADD the only arithmetic operation whose flag is set, and its flag one,
/// `arithmetic_constraints` turns zero evaluations into `add_evaluations`.
proof fn lemma_arithmetic_constraints_add_evaluations(e: Seq<u128>, a: Seq<u128>, s: Seq<u128>, n: Seq<u128>, ark: Seq<u128>, ld: Seq<u128>, hd: Seq<u128>)
    requires
        forall|i: int| 0 <= i < e.len() ==> #[trigger] e[i] == 0,
        all_canonical(a),
        a.len() == NUM_AUX_CONSTRAINTS,
        e.len() >= 8,
        s.len() >= e.len(),
        n.len() >= e.len(),
        user_op_flag(ld, hd, opcodes::ADD) == 1,
        user_op_flag(ld, hd, opcodes::MUL) == 0,
        user_op_flag(ld, hd, opcodes::INV) == 0,
        user_op_flag(ld, hd, opcodes::NEG) == 0,
    ensures
        arithmetic_constraints(e, a, s, n, ark, ld, hd) == (add_evaluations(s, n, e.len()), a),
{
    reveal(arithmetic_constraints);
    let flag = user_op_flag(ld, hd, opcodes::ADD);
    let v0 = spec_are_equal(n[0], f_add(s[0] as int, s[1] as int) as u128);
    let e1 = agg_at(e, 0, flag, v0);
    lemma_agg_one(v0);
    let e2 = agg_eq_range(e1, 1, e1.len() - 1, n, 1, s, 2, flag);
    let r = add_evaluations(s, n, e.len());
    assert forall|i: int| 0 <= i < e.len() implies #[trigger] e2[i] == r[i] by {
        if 1 <= i < e.len() - 1 {
            lemma_agg_one(spec_are_equal(n[1 + i - 1], s[2 + i - 1]));
        }
    }
    assert(e2 =~= r);
    assert(all_canonical(r));
    lemma_at_idle(r, 0, user_op_flag(ld, hd, opcodes::MUL), spec_are_equal(n[0], f_mul(s[0] as int, s[1] as int) as u128));
    lemma_eq_range_idle(r, 1, r.len() - 1, n, 1, s, 2, user_op_flag(ld, hd, opcodes::MUL));
    lemma_at_idle(r, 0, user_op_flag(ld, hd, opcodes::INV), spec_are_equal(1, f_mul(n[0] as int, s[0] as int) as u128));
    lemma_eq_range_idle(r, 1, r.len() as int, n, 1, s, 1, user_op_flag(ld, hd, opcodes::INV));
    lemma_at_idle(r, 0, user_op_flag(ld, hd, opcodes::NEG), f_add(n[0] as int, s[0] as int) as u128);
    lemma_eq_range_idle(r, 1, r.len() as int, n, 1, s, 1, user_op_flag(ld, hd, opcodes::NEG));
}

/// The evaluations of a MUL step on zero evaluations: the top register against the field product
/// of the two operands, each register below it against the register one lower before the step,
/// and nothing on the bottom register.
pub open spec fn mul_evaluations(s: Seq<u128>, n: Seq<u128>, len: nat) -> Seq<u128> {
    Seq::new(len, |i: int|
        if i == 0 {
            f_sub(n[0] as int, f_mul(s[0] as int, s[1] as int)) as u128
        } else if i < len - 1 {
            f_sub(n[i] as int, s[i + 1] as int) as u128
        } else {
            0u128
        })
}

/// With MUL the only arithmetic operation whose flag is set, and its flag one,
/// `arithmetic_constraints` turns zero evaluations into `mul_evaluations`.
proof fn lemma_arithmetic_constraints_mul_evaluations(e: Seq<u128>, a: Seq<u128>, s: Seq<u128>, n: Seq<u128>, ark: Seq<u128>, ld: Seq<u128>, hd: Seq<u128>)
    requires
        forall|i: int| 0 <= i < e.len() ==> #[trigger] e[i] == 0,
        all_canonical(a),
        a.len() == NUM_AUX_CONSTRAINTS,
        e.len() >= 8,
        s.len() >= e.len(),
        n.len() >= e.len(),
        user_op_flag(ld, hd, opcodes::ADD) == 0,
        user_op_flag(ld, hd, opcodes::MUL) == 1,
        user_op_flag(ld, hd, opcodes::INV) == 0,
        user_op_flag(ld, hd, opcodes::NEG) == 0,
    ensures
        arithmetic_constraints(e, a, s, n, ark, ld, hd) == (mul_evaluations(s, n, e.len()), a),
{
    reveal(arithmetic_constraints);
    assert(all_canonical(e));
    lemma_at_idle(e, 0, user_op_flag(ld, hd, opcodes::ADD), spec_are_equal(n[0], f_add(s[0] as int, s[1] as int) as u128));
    lemma_eq_range_idle(e, 1, e.len() - 1, n, 1, s, 2, user_op_flag(ld, hd, opcodes::ADD));
    let flag = user_op_flag(ld, hd, opcodes::MUL);
    let v0 = spec_are_equal(n[0], f_mul(s[0] as int, s[1] as int) as u128);
    let e1 = agg_at(e, 0, flag, v0);
    lemma_agg_one(v0);
    let e2 = agg_eq_range(e1, 1, e1.len() - 1, n, 1, s, 2, flag);
    let r = mul_evaluations(s, n, e.len());
    assert forall|i: int| 0 <= i < e.len() implies #[trigger] e2[i] == r[i] by {
        if 1 <= i < e.len() - 1 {
            lemma_agg_one(spec_are_equal(n[1 + i - 1], s[2 + i - 1]));
        }
    }
    assert(e2 =~= r);
    assert(all_canonical(r));
    lemma_at_idle(r, 0, user_op_flag(ld, hd, opcodes::INV), spec_are_equal(1, f_mul(n[0] as int, s[0] as int) as u128));
    lemma_eq_range_idle(r, 1, r.len() as int, n, 1, s, 1, user_op_flag(ld, hd, opcodes::INV));
    lemma_at_idle(r, 0, user_op_flag(ld, hd, opcodes::NEG), f_add(n[0] as int, s[0] as int) as u128);
    lemma_eq_range_idle(r, 1, r.len() as int, n, 1, s, 1, user_op_flag(ld, hd, opcodes::NEG));
}

/// The evaluations of an INV step on zero evaluations: one against the field product of the top
/// register after the step with the top register before it, and each lower register against the
/// same register before the step.
pub open spec fn inv_evaluations(s: Seq<u128>, n: Seq<u128>, len: nat) -> Seq<u128> {
    Seq::new(len, |i: int|
        if i == 0 {
            f_sub(1, f_mul(n[0] as int, s[0] as int)) as u128
        } else {
            f_sub(n[i] as int, s[i] as int) as u128
        })
}

/// The evaluations of a NEG step on zero evaluations: the field sum of the top registers after
/// and before the step, and each lower register against the same register before the step.
pub open spec fn neg_evaluations(s: Seq<u128>, n: Seq<u128>, len: nat) -> Seq<u128> {
    Seq::new(len, |i: int|
        if i == 0 {
            f_add(n[0] as int, s[0] as int) as u128
        } else {
            f_sub(n[i] as int, s[i] as int) as u128
        })
}

/// With INV the only arithmetic operation whose flag is set, and its flag one,
/// `arithmetic_constraints` turns zero evaluations into `inv_evaluations`.
proof fn lemma_arithmetic_constraints_inv_evaluations(e: Seq<u128>, a: Seq<u128>, s: Seq<u128>, n: Seq<u128>, ark: Seq<u128>, ld: Seq<u128>, hd: Seq<u128>)
    requires
        forall|i: int| 0 <= i < e.len() ==> #[trigger] e[i] == 0,
        all_canonical(a),
        a.len() == NUM_AUX_CONSTRAINTS,
        e.len() >= 8,
        s.len() >= e.len(),
        n.len() >= e.len(),
        user_op_flag(ld, hd, opcodes::ADD) == 0,
        user_op_flag(ld, hd, opcodes::MUL) == 0,
        user_op_flag(ld, hd, opcodes::INV) == 1,
        user_op_flag(ld, hd, opcodes::NEG) == 0,
    ensures
        arithmetic_constraints(e, a, s, n, ark, ld, hd) == (inv_evaluations(s, n, e.len()), a),
{
    reveal(arithmetic_constraints);
    assert(all_canonical(e));
    lemma_at_idle(e, 0, user_op_flag(ld, hd, opcodes::ADD), spec_are_equal(n[0], f_add(s[0] as int, s[1] as int) as u128));
    lemma_eq_range_idle(e, 1, e.len() - 1, n, 1, s, 2, user_op_flag(ld, hd, opcodes::ADD));
    lemma_at_idle(e, 0, user_op_flag(ld, hd, opcodes::MUL), spec_are_equal(n[0], f_mul(s[0] as int, s[1] as int) as u128));
    lemma_eq_range_idle(e, 1, e.len() - 1, n, 1, s, 2, user_op_flag(ld, hd, opcodes::MUL));
    let flag = user_op_flag(ld, hd, opcodes::INV);
    let v0 = spec_are_equal(1, f_mul(n[0] as int, s[0] as int) as u128);
    let e1 = agg_at(e, 0, flag, v0);
    lemma_agg_one(v0);
    let e2 = agg_eq_range(e1, 1, e1.len() as int, n, 1, s, 1, flag);
    let r = inv_evaluations(s, n, e.len());
    assert forall|i: int| 0 <= i < e.len() implies #[trigger] e2[i] == r[i] by {
        if 1 <= i < e.len() {
            lemma_agg_one(spec_are_equal(n[1 + i - 1], s[1 + i - 1]));
        }
    }
    assert(e2 =~= r);
    assert(all_canonical(r));
    lemma_at_idle(r, 0, user_op_flag(ld, hd, opcodes::NEG), f_add(n[0] as int, s[0] as int) as u128);
    lemma_eq_range_idle(r, 1, r.len() as int, n, 1, s, 1, user_op_flag(ld, hd, opcodes::NEG));
}

/// With NEG the only arithmetic operation whose flag is set, and its flag one,
/// `arithmetic_constraints` turns zero evaluations into `neg_evaluations`.
proof fn lemma_arithmetic_constraints_neg_evaluations(e: Seq<u128>, a: Seq<u128>, s: Seq<u128>, n: Seq<u128>, ark: Seq<u128>, ld: Seq<u128>, hd: Seq<u128>)
    requires
        forall|i: int| 0 <= i < e.len() ==> #[trigger] e[i] == 0,
        all_canonical(a),
        a.len() == NUM_AUX_CONSTRAINTS,
        e.len() >= 8,
        s.len() >= e.len(),
        n.len() >= e.len(),
        user_op_flag(ld, hd, opcodes::ADD) == 0,
        user_op_flag(ld, hd, opcodes::MUL) == 0,
        user_op_flag(ld, hd, opcodes::INV) == 0,
        user_op_flag(ld, hd, opcodes::NEG) == 1,
    ensures
        arithmetic_constraints(e, a, s, n, ark, ld, hd) == (neg_evaluations(s, n, e.len()), a),
{
    reveal(arithmetic_constraints);
    assert(all_canonical(e));
    lemma_at_idle(e, 0, user_op_flag(ld, hd, opcodes::ADD), spec_are_equal(n[0], f_add(s[0] as int, s[1] as int) as u128));
    lemma_eq_range_idle(e, 1, e.len() - 1, n, 1, s, 2, user_op_flag(ld, hd, opcodes::ADD));
    lemma_at_idle(e, 0, user_op_flag(ld, hd, opcodes::MUL), spec_are_equal(n[0], f_mul(s[0] as int, s[1] as int) as u128));
    lemma_eq_range_idle(e, 1, e.len() - 1, n, 1, s, 2, user_op_flag(ld, hd, opcodes::MUL));
    lemma_at_idle(e, 0, user_op_flag(ld, hd, opcodes::INV), spec_are_equal(1, f_mul(n[0] as int, s[0] as int) as u128));
    lemma_eq_range_idle(e, 1, e.len() as int, n, 1, s, 1, user_op_flag(ld, hd, opcodes::INV));
    let flag = user_op_flag(ld, hd, opcodes::NEG);
    let v0 = f_add(n[0] as int, s[0] as int) as u128;
    vstd::arithmetic::div_mod::lemma_mod_bound(n[0] as int + s[0] as int, MODULUS as int);
    let e1 = agg_at(e, 0, flag, v0);
    lemma_agg_one(v0);
    let e2 = agg_eq_range(e1, 1, e1.len() as int, n, 1, s, 1, flag);
    let r = neg_evaluations(s, n, e.len());
    assert forall|i: int| 0 <= i < e.len() implies #[trigger] e2[i] == r[i] by {
        if 1 <= i < e.len() {
            lemma_agg_one(spec_are_equal(n[1 + i - 1], s[1 + i - 1]));
        }
    }
    assert(e2 =~= r);
}

/// The evaluations of a SWAP step on zero evaluations: the two top registers after the step
/// against the two top registers before it in the other order, and every lower register against
/// the same register before the step.
pub open spec fn swap_evaluations(s: Seq<u128>, n: Seq<u128>, len: nat) -> Seq<u128> {
    Seq::new(len, |i: int|
        if i == 0 {
            f_sub(n[0] as int, s[1] as int) as u128
        } else if i == 1 {
            f_sub(n[1] as int, s[0] as int) as u128
        } else {
            f_sub(n[i] as int, s[i] as int) as u128
        })
}

/// The evaluations of a DUP step on zero evaluations: the top register after the step against the
/// top register before it, and every lower register against the register one higher before the
/// step.
pub open spec fn dup_evaluations(s: Seq<u128>, n: Seq<u128>, len: nat) -> Seq<u128> {
    Seq::new(len, |i: int|
        if i == 0 {
            f_sub(n[0] as int, s[0] as int) as u128
        } else {
            f_sub(n[i] as int, s[i - 1] as int) as u128
        })
}

/// The evaluations of a DROP step on zero evaluations: every register after the step but the
/// bottom one against the register one lower before the step, and nothing on the bottom register.
pub open spec fn drop_evaluations(s: Seq<u128>, n: Seq<u128>, len: nat) -> Seq<u128> {
    Seq::new(len, |i: int|
        if i < len - 1 {
            f_sub(n[i] as int, s[i + 1] as int) as u128
        } else {
            0u128
        })
}

/// With SWAP the only drop or swap operation whose flag is set, and its flag one,
/// `drop_swap_constraints` turns zero evaluations into `swap_evaluations`.
proof fn lemma_drop_swap_constraints_swap(e: Seq<u128>, a: Seq<u128>, s: Seq<u128>, n: Seq<u128>, ark: Seq<u128>, ld: Seq<u128>, hd: Seq<u128>)
    requires
        forall|i: int| 0 <= i < e.len() ==> #[trigger] e[i] == 0,
        e.len() >= 8,
        s.len() >= e.len(),
        n.len() >= e.len(),
        user_op_flag(ld, hd, opcodes::DROP) == 0,
        user_op_flag(ld, hd, opcodes::DROP4) == 0,
        user_op_flag(ld, hd, opcodes::SWAP) == 1,
        user_op_flag(ld, hd, opcodes::SWAP2) == 0,
    ensures
        drop_swap_constraints(e, a, s, n, ark, ld, hd) == (swap_evaluations(s, n, e.len()), a),
{
    reveal(drop_swap_constraints);
    assert(all_canonical(e));
    lemma_eq_range_idle(e, 0, e.len() - 1, n, 0, s, 1, user_op_flag(ld, hd, opcodes::DROP));
    lemma_eq_range_idle(e, 0, e.len() - 4, n, 0, s, 4, user_op_flag(ld, hd, opcodes::DROP4));
    let flag = user_op_flag(ld, hd, opcodes::SWAP);
    let v0 = spec_are_equal(n[0], s[1]);
    let v1 = spec_are_equal(n[1], s[0]);
    lemma_agg_one(v0);
    lemma_agg_one(v1);
    let e1 = agg_at(agg_at(e, 0, flag, v0), 1, flag, v1);
    let e2 = agg_eq_range(e1, 2, e1.len() as int, n, 2, s, 2, flag);
    let r = swap_evaluations(s, n, e.len());
    assert forall|i: int| 0 <= i < e.len() implies #[trigger] e2[i] == r[i] by {
        if 2 <= i {
            lemma_agg_one(spec_are_equal(n[2 + i - 2], s[2 + i - 2]));
        }
    }
    assert(e2 =~= r);
    assert(all_canonical(r));
    lemma_perm_idle(r, n, s, seq![2int, 3, 0, 1], user_op_flag(ld, hd, opcodes::SWAP2));
    lemma_eq_range_idle(r, 4, r.len() as int, n, 4, s, 4, user_op_flag(ld, hd, opcodes::SWAP2));
}

/// With DROP the only drop or swap operation whose flag is set, and its flag one,
/// `drop_swap_constraints` turns zero evaluations into `drop_evaluations`.
proof fn lemma_drop_swap_constraints_drop(e: Seq<u128>, a: Seq<u128>, s: Seq<u128>, n: Seq<u128>, ark: Seq<u128>, ld: Seq<u128>, hd: Seq<u128>)
    requires
        forall|i: int| 0 <= i < e.len() ==> #[trigger] e[i] == 0,
        e.len() >= 8,
        s.len() >= e.len(),
        n.len() >= e.len(),
        user_op_flag(ld, hd, opcodes::DROP) == 1,
        user_op_flag(ld, hd, opcodes::DROP4) == 0,
        user_op_flag(ld, hd, opcodes::SWAP) == 0,
        user_op_flag(ld, hd, opcodes::SWAP2) == 0,
    ensures
        drop_swap_constraints(e, a, s, n, ark, ld, hd) == (drop_evaluations(s, n, e.len()), a),
{
    reveal(drop_swap_constraints);
    let flag = user_op_flag(ld, hd, opcodes::DROP);
    let e0 = agg_eq_range(e, 0, e.len() - 1, n, 0, s, 1, flag);
    let r = drop_evaluations(s, n, e.len());
    assert forall|i: int| 0 <= i < e.len() implies #[trigger] e0[i] == r[i] by {
        if i < e.len() - 1 {
            lemma_agg_one(spec_are_equal(n[0 + i - 0], s[1 + i - 0]));
        }
    }
    assert(e0 =~= r);
    assert(all_canonical(r));
    lemma_eq_range_idle(r, 0, r.len() - 4, n, 0, s, 4, user_op_flag(ld, hd, opcodes::DROP4));
    lemma_at_idle(r, 0, user_op_flag(ld, hd, opcodes::SWAP), spec_are_equal(n[0], s[1]));
    lemma_at_idle(r, 1, user_op_flag(ld, hd, opcodes::SWAP), spec_are_equal(n[1], s[0]));
    lemma_eq_range_idle(r, 2, r.len() as int, n, 2, s, 2, user_op_flag(ld, hd, opcodes::SWAP));
    lemma_perm_idle(r, n, s, seq![2int, 3, 0, 1], user_op_flag(ld, hd, opcodes::SWAP2));
    lemma_eq_range_idle(r, 4, r.len() as int, n, 4, s, 4, user_op_flag(ld, hd, opcodes::SWAP2));
}

/// With DUP the only duplication or padding operation whose flag is set, and its flag one,
/// `duplication_constraints` turns zero evaluations into `dup_evaluations`.
proof fn lemma_duplication_constraints_dup(e: Seq<u128>, a: Seq<u128>, s: Seq<u128>, n: Seq<u128>, ark: Seq<u128>, ld: Seq<u128>, hd: Seq<u128>)
    requires
        forall|i: int| 0 <= i < e.len() ==> #[trigger] e[i] == 0,
        e.len() >= 8,
        s.len() >= e.len(),
        n.len() >= e.len(),
        user_op_flag(ld, hd, opcodes::DUP) == 1,
        user_op_flag(ld, hd, opcodes::DUP2) == 0,
        user_op_flag(ld, hd, opcodes::DUP4) == 0,
        user_op_flag(ld, hd, opcodes::PAD2) == 0,
    ensures
        duplication_constraints(e, a, s, n, ark, ld, hd) == (dup_evaluations(s, n, e.len()), a),
{
    reveal(duplication_constraints);
    let flag = user_op_flag(ld, hd, opcodes::DUP);
    let p = seq![0int];
    assert(p.drop_last() =~= Seq::<int>::empty());
    let v0 = spec_are_equal(n[0], s[0]);
    lemma_agg_one(v0);
    let e0 = agg_perm(e, n, s, p, flag);
    assert(agg_perm(e, n, s, p.drop_last(), flag) == e);
    assert(p[0] == 0);
    assert(e0 == agg_at(e, 0, flag, v0));
    let e1 = agg_eq_range(e0, 1, e0.len() as int, n, 1, s, 0, flag);
    let r = dup_evaluations(s, n, e.len());
    assert forall|i: int| 0 <= i < e.len() implies #[trigger] e1[i] == r[i] by {
        if 1 <= i {
            lemma_agg_one(spec_are_equal(n[1 + i - 1], s[0 + i - 1]));
        }
    }
    assert(e1 =~= r);
    assert(all_canonical(r));
    lemma_perm_idle(r, n, s, seq![0int, 1], user_op_flag(ld, hd, opcodes::DUP2));
    lemma_eq_range_idle(r, 2, r.len() as int, n, 2, s, 0, user_op_flag(ld, hd, opcodes::DUP2));
    lemma_perm_idle(r, n, s, seq![0int, 1, 2, 3], user_op_flag(ld, hd, opcodes::DUP4));
    lemma_eq_range_idle(r, 4, r.len() as int, n, 4, s, 0, user_op_flag(ld, hd, opcodes::DUP4));
    lemma_at_idle(r, 0, user_op_flag(ld, hd, opcodes::PAD2), n[0]);
    lemma_at_idle(r, 1, user_op_flag(ld, hd, opcodes::PAD2), n[1]);
    lemma_eq_range_idle(r, 2, r.len() as int, n, 2, s, 0, user_op_flag(ld, hd, opcodes::PAD2));
}

/// The evaluations of a step which rearranges the stack: each of the first `perm.len()`
/// registers after the step against register `perm[i]` before it, each register `i` of `lo..hi`
/// against register `i + shift` before the step, and nothing on the other registers.
pub open spec fn move_evaluations(s: Seq<u128>, n: Seq<u128>, perm: Seq<int>, lo: int, hi: int, shift: int, len: nat) -> Seq<u128> {
    Seq::new(len, |i: int|
        if i < perm.len() {
            f_sub(n[i] as int, s[perm[i]] as int) as u128
        } else if lo <= i < hi {
            f_sub(n[i] as int, s[i + shift] as int) as u128
        } else {
            0u128
        })
}

/// Constraints of a permutation aggregated under a flag of one into zero evaluations hold, at each
/// of the first `perm.len()` positions, the difference between the register after the step and
/// the register it comes from.
proof fn lemma_perm_one(r: Seq<u128>, next: Seq<u128>, current: Seq<u128>, perm: Seq<int>)
    requires
        perm.len() <= r.len(),
        forall|i: int| 0 <= i < r.len() ==> #[trigger] r[i] == 0,
    ensures
        agg_perm(r, next, current, perm, 1).len() == r.len(),
        forall|i: int| 0 <= i < r.len() ==> #[trigger] agg_perm(r, next, current, perm, 1)[i]
            == if i < perm.len() { spec_are_equal(next[i], current[perm[i]]) } else { 0u128 },
    decreases perm.len(),
{
    if perm.len() > 0 {
        let k = perm.len() - 1;
        let q = perm.drop_last();
        lemma_perm_one(r, next, current, q);
        lemma_agg_one(spec_are_equal(next[k], current[perm[k]]));
        assert forall|i: int| 0 <= i < r.len() implies #[trigger] agg_perm(r, next, current, perm, 1)[i]
            == if i < perm.len() { spec_are_equal(next[i], current[perm[i]]) } else { 0u128 } by {
            if i < k {
                assert(q[i] == perm[i]);
            }
        }
    }
}

/// The constraints of a stack rearrangement, a permutation of the top registers followed by a
/// range of shifted registers, aggregated under a flag of one into zero evaluations, are the
/// `move_evaluations`.
proof fn lemma_move_one(e: Seq<u128>, n: Seq<u128>, s: Seq<u128>, perm: Seq<int>, lo: int, hi: int, shift: int)
    requires
        forall|i: int| 0 <= i < e.len() ==> #[trigger] e[i] == 0,
        perm.len() <= lo,
        perm.len() <= e.len(),
        0 <= lo,
        hi <= e.len(),
    ensures
        agg_eq_range(agg_perm(e, n, s, perm, 1), lo, hi, n, lo, s, lo + shift, 1)
            == move_evaluations(s, n, perm, lo, hi, shift, e.len()),
{
    lemma_perm_one(e, n, s, perm);
    let e1 = agg_perm(e, n, s, perm, 1);
    let e2 = agg_eq_range(e1, lo, hi, n, lo, s, lo + shift, 1);
    let v = move_evaluations(s, n, perm, lo, hi, shift, e.len());
    assert forall|i: int| 0 <= i < e.len() implies #[trigger] e2[i] == v[i] by {
        if lo <= i < hi {
            assert(n[lo + i - lo] == n[i]);
            assert(s[lo + shift + i - lo] == s[i + shift]);
            lemma_agg_one(spec_are_equal(n[i], s[i + shift]));
        }
    }
    assert(e2 =~= v);
}

/// The `move_evaluations` of canonical stacks are all zero exactly when each moved register holds
/// the register it comes from.
proof fn lemma_move_zero_iff(s: Seq<u128>, n: Seq<u128>, perm: Seq<int>, lo: int, hi: int, shift: int, len: nat)
    requires
        all_canonical(s),
        all_canonical(n),
        len <= n.len(),
        perm.len() <= len,
        forall|k: int| 0 <= k < perm.len() ==> 0 <= #[trigger] perm[k] < s.len(),
        lo < hi ==> 0 <= lo + shift && hi + shift <= s.len(),
        hi <= len,
    ensures
        (move_evaluations(s, n, perm, lo, hi, shift, len) == Seq::new(len, |i: int| 0u128)) == (
            (forall|k: int| 0 <= k < perm.len() ==> #[trigger] n[k] == s[perm[k]])
            && (forall|i: int| lo <= i < hi && i >= perm.len() ==> #[trigger] n[i] == s[i + shift])),
{
    let v = move_evaluations(s, n, perm, lo, hi, shift, len);
    let z = Seq::new(len, |i: int| 0u128);
    if v == z {
        assert forall|k: int| 0 <= k < perm.len() implies #[trigger] n[k] == s[perm[k]] by {
            assert(v[k] == z[k]);
            lemma_sub_zero_equal(n[k], s[perm[k]]);
        }
        assert forall|i: int| lo <= i < hi && i >= perm.len() implies #[trigger] n[i] == s[i + shift] by {
            assert(v[i] == z[i]);
            lemma_sub_zero_equal(n[i], s[i + shift]);
        }
    }
    if (forall|k: int| 0 <= k < perm.len() ==> #[trigger] n[k] == s[perm[k]])
        && (forall|i: int| lo <= i < hi && i >= perm.len() ==> #[trigger] n[i] == s[i + shift]) {
        assert forall|i: int| 0 <= i < len implies v[i] == z[i] by {
            if i < perm.len() {
                assert(n[i] == s[perm[i]]);
                lemma_sub_zero_equal(n[i], s[perm[i]]);
            } else if lo <= i < hi {
                assert(n[i] == s[i + shift]);
                lemma_sub_zero_equal(n[i], s[i + shift]);
            }
        }
        assert(v =~= z);
    }
}

/// With DUP2 the only operation of its group whose flag is set, and its flag one,
/// `duplication_constraints` turns zero evaluations into the `move_evaluations` of DUP2.
proof fn lemma_duplication_constraints_dup2(e: Seq<u128>, a: Seq<u128>, s: Seq<u128>, n: Seq<u128>, ark: Seq<u128>, ld: Seq<u128>, hd: Seq<u128>)
    requires
        forall|i: int| 0 <= i < e.len() ==> #[trigger] e[i] == 0,
        e.len() >= 8,
        s.len() >= e.len(),
        n.len() >= e.len(),
        user_op_flag(ld, hd, opcodes::DUP) == 0,
        user_op_flag(ld, hd, opcodes::DUP2) == 1,
        user_op_flag(ld, hd, opcodes::DUP4) == 0,
        user_op_flag(ld, hd, opcodes::PAD2) == 0,
    ensures
        duplication_constraints(e, a, s, n, ark, ld, hd) == (move_evaluations(s, n, seq![0int, 1], 2, e.len() as int, -2, e.len()), a),
{
    reveal(duplication_constraints);
    assert(all_canonical(e));
    lemma_perm_idle(e, n, s, seq![0int], user_op_flag(ld, hd, opcodes::DUP));
    lemma_eq_range_idle(e, 1, e.len() as int, n, 1, s, 0, user_op_flag(ld, hd, opcodes::DUP));
    lemma_move_one(e, n, s, seq![0int, 1], 2, e.len() as int, -2);
    let v = move_evaluations(s, n, seq![0int, 1], 2, e.len() as int, -2, e.len());
    assert(all_canonical(v)) by {
        assert forall|i: int| 0 <= i < v.len() implies #[trigger] v[i] < MODULUS by {
            if i < 2 {
                vstd::arithmetic::div_mod::lemma_mod_bound(n[i] as int - s[seq![0int, 1][i]] as int, MODULUS as int);
            } else if 2 <= i < e.len() as int {
                vstd::arithmetic::div_mod::lemma_mod_bound(n[i] as int - s[i - 2] as int, MODULUS as int);
            }
        }
    }
    lemma_perm_idle(v, n, s, seq![0int, 1, 2, 3], user_op_flag(ld, hd, opcodes::DUP4));
    lemma_eq_range_idle(v, 4, v.len() as int, n, 4, s, 0, user_op_flag(ld, hd, opcodes::DUP4));
    lemma_at_idle(v, 0, user_op_flag(ld, hd, opcodes::PAD2), n[0]);
    lemma_at_idle(v, 1, user_op_flag(ld, hd, opcodes::PAD2), n[1]);
    lemma_eq_range_idle(v, 2, v.len() as int, n, 2, s, 0, user_op_flag(ld, hd, opcodes::PAD2));
}

/// With DUP4 the only operation of its group whose flag is set, and its flag one,
/// `duplication_constraints` turns zero evaluations into the `move_evaluations` of DUP4.
proof fn lemma_duplication_constraints_dup4(e: Seq<u128>, a: Seq<u128>, s: Seq<u128>, n: Seq<u128>, ark: Seq<u128>, ld: Seq<u128>, hd: Seq<u128>)
    requires
        forall|i: int| 0 <= i < e.len() ==> #[trigger] e[i] == 0,
        e.len() >= 8,
        s.len() >= e.len(),
        n.len() >= e.len(),
        user_op_flag(ld, hd, opcodes::DUP) == 0,
        user_op_flag(ld, hd, opcodes::DUP2) == 0,
        user_op_flag(ld, hd, opcodes::DUP4) == 1,
        user_op_flag(ld, hd, opcodes::PAD2) == 0,
    ensures
        duplication_constraints(e, a, s, n, ark, ld, hd) == (move_evaluations(s, n, seq![0int, 1, 2, 3], 4, e.len() as int, -4, e.len()), a),
{
    reveal(duplication_constraints);
    assert(all_canonical(e));
    lemma_perm_idle(e, n, s, seq![0int], user_op_flag(ld, hd, opcodes::DUP));
    lemma_eq_range_idle(e, 1, e.len() as int, n, 1, s, 0, user_op_flag(ld, hd, opcodes::DUP));
    lemma_perm_idle(e, n, s, seq![0int, 1], user_op_flag(ld, hd, opcodes::DUP2));
    lemma_eq_range_idle(e, 2, e.len() as int, n, 2, s, 0, user_op_flag(ld, hd, opcodes::DUP2));
    lemma_move_one(e, n, s, seq![0int, 1, 2, 3], 4, e.len() as int, -4);
    let v = move_evaluations(s, n, seq![0int, 1, 2, 3], 4, e.len() as int, -4, e.len());
    assert(all_canonical(v)) by {
        assert forall|i: int| 0 <= i < v.len() implies #[trigger] v[i] < MODULUS by {
            if i < 4 {
                vstd::arithmetic::div_mod::lemma_mod_bound(n[i] as int - s[seq![0int, 1, 2, 3][i]] as int, MODULUS as int);
            } else if 4 <= i < e.len() as int {
                vstd::arithmetic::div_mod::lemma_mod_bound(n[i] as int - s[i - 4] as int, MODULUS as int);
            }
        }
    }
    lemma_at_idle(v, 0, user_op_flag(ld, hd, opcodes::PAD2), n[0]);
    lemma_at_idle(v, 1, user_op_flag(ld, hd, opcodes::PAD2), n[1]);
    lemma_eq_range_idle(v, 2, v.len() as int, n, 2, s, 0, user_op_flag(ld, hd, opcodes::PAD2));
}

/// With DROP4 the only operation of its group whose flag is set, and its flag one,
/// `drop_swap_constraints` turns zero evaluations into the `move_evaluations` of DROP4.
proof fn lemma_drop_swap_constraints_drop4(e: Seq<u128>, a: Seq<u128>, s: Seq<u128>, n: Seq<u128>, ark: Seq<u128>, ld: Seq<u128>, hd: Seq<u128>)
    requires
        forall|i: int| 0 <= i < e.len() ==> #[trigger] e[i] == 0,
        e.len() >= 8,
        s.len() >= e.len(),
        n.len() >= e.len(),
        user_op_flag(ld, hd, opcodes::DROP) == 0,
        user_op_flag(ld, hd, opcodes::DROP4) == 1,
        user_op_flag(ld, hd, opcodes::SWAP) == 0,
        user_op_flag(ld, hd, opcodes::SWAP2) == 0,
    ensures
        drop_swap_constraints(e, a, s, n, ark, ld, hd) == (move_evaluations(s, n, Seq::<int>::empty(), 0, e.len() - 4, 4, e.len()), a),
{
    reveal(drop_swap_constraints);
    assert(all_canonical(e));
    lemma_eq_range_idle(e, 0, e.len() - 1, n, 0, s, 1, user_op_flag(ld, hd, opcodes::DROP));
    lemma_move_one(e, n, s, Seq::<int>::empty(), 0, e.len() - 4, 4);
    let v = move_evaluations(s, n, Seq::<int>::empty(), 0, e.len() - 4, 4, e.len());
    assert(agg_perm(e, n, s, Seq::<int>::empty(), 1) == e);
    assert(all_canonical(v)) by {
        assert forall|i: int| 0 <= i < v.len() implies #[trigger] v[i] < MODULUS by {
            if i < 0 {
                vstd::arithmetic::div_mod::lemma_mod_bound(n[i] as int - s[Seq::<int>::empty()[i]] as int, MODULUS as int);
            } else if 0 <= i < e.len() - 4 {
                vstd::arithmetic::div_mod::lemma_mod_bound(n[i] as int - s[i + 4] as int, MODULUS as int);
            }
        }
    }
    lemma_at_idle(v, 0, user_op_flag(ld, hd, opcodes::SWAP), spec_are_equal(n[0], s[1]));
    lemma_at_idle(v, 1, user_op_flag(ld, hd, opcodes::SWAP), spec_are_equal(n[1], s[0]));
    lemma_eq_range_idle(v, 2, v.len() as int, n, 2, s, 2, user_op_flag(ld, hd, opcodes::SWAP));
    lemma_perm_idle(v, n, s, seq![2int, 3, 0, 1], user_op_flag(ld, hd, opcodes::SWAP2));
    lemma_eq_range_idle(v, 4, v.len() as int, n, 4, s, 4, user_op_flag(ld, hd, opcodes::SWAP2));
}

/// With SWAP2 the only operation of its group whose flag is set, and its flag one,
/// `drop_swap_constraints` turns zero evaluations into the `move_evaluations` of SWAP2.
proof fn lemma_drop_swap_constraints_swap2(e: Seq<u128>, a: Seq<u128>, s: Seq<u128>, n: Seq<u128>, ark: Seq<u128>, ld: Seq<u128>, hd: Seq<u128>)
    requires
        forall|i: int| 0 <= i < e.len() ==> #[trigger] e[i] == 0,
        e.len() >= 8,
        s.len() >= e.len(),
        n.len() >= e.len(),
        user_op_flag(ld, hd, opcodes::DROP) == 0,
        user_op_flag(ld, hd, opcodes::DROP4) == 0,
        user_op_flag(ld, hd, opcodes::SWAP) == 0,
        user_op_flag(ld, hd, opcodes::SWAP2) == 1,
    ensures
        drop_swap_constraints(e, a, s, n, ark, ld, hd) == (move_evaluations(s, n, seq![2int, 3, 0, 1], 4, e.len() as int, 0, e.len()), a),
{
    reveal(drop_swap_constraints);
    assert(all_canonical(e));
    lemma_eq_range_idle(e, 0, e.len() - 1, n, 0, s, 1, user_op_flag(ld, hd, opcodes::DROP));
    lemma_eq_range_idle(e, 0, e.len() - 4, n, 0, s, 4, user_op_flag(ld, hd, opcodes::DROP4));
    lemma_at_idle(e, 0, user_op_flag(ld, hd, opcodes::SWAP), spec_are_equal(n[0], s[1]));
    lemma_at_idle(e, 1, user_op_flag(ld, hd, opcodes::SWAP), spec_are_equal(n[1], s[0]));
    lemma_eq_range_idle(e, 2, e.len() as int, n, 2, s, 2, user_op_flag(ld, hd, opcodes::SWAP));
    lemma_move_one(e, n, s, seq![2int, 3, 0, 1], 4, e.len() as int, 0);
    let v = move_evaluations(s, n, seq![2int, 3, 0, 1], 4, e.len() as int, 0, e.len());
    assert(all_canonical(v)) by {
        assert forall|i: int| 0 <= i < v.len() implies #[trigger] v[i] < MODULUS by {
            if i < 4 {
                vstd::arithmetic::div_mod::lemma_mod_bound(n[i] as int - s[seq![2int, 3, 0, 1][i]] as int, MODULUS as int);
            } else if 4 <= i < e.len() as int {
                vstd::arithmetic::div_mod::lemma_mod_bound(n[i] as int - s[i] as int, MODULUS as int);
            }
        }
    }

}

/// With SWAP4 the only operation of its group whose flag is set, and its flag one,
/// `rotation_constraints` turns zero evaluations into the `move_evaluations` of SWAP4.
proof fn lemma_rotation_constraints_swap4(e: Seq<u128>, a: Seq<u128>, s: Seq<u128>, n: Seq<u128>, ark: Seq<u128>, ld: Seq<u128>, hd: Seq<u128>)
    requires
        forall|i: int| 0 <= i < e.len() ==> #[trigger] e[i] == 0,
        e.len() >= 8,
        s.len() >= e.len(),
        n.len() >= e.len(),
        user_op_flag(ld, hd, opcodes::SWAP4) == 1,
        user_op_flag(ld, hd, opcodes::ROLL4) == 0,
        user_op_flag(ld, hd, opcodes::ROLL8) == 0,
    ensures
        rotation_constraints(e, a, s, n, ark, ld, hd) == (move_evaluations(s, n, seq![4int, 5, 6, 7, 0, 1, 2, 3], 8, e.len() as int, 0, e.len()), a),
{
    reveal(rotation_constraints);
    assert(all_canonical(e));
    lemma_move_one(e, n, s, seq![4int, 5, 6, 7, 0, 1, 2, 3], 8, e.len() as int, 0);
    let v = move_evaluations(s, n, seq![4int, 5, 6, 7, 0, 1, 2, 3], 8, e.len() as int, 0, e.len());
    assert(all_canonical(v)) by {
        assert forall|i: int| 0 <= i < v.len() implies #[trigger] v[i] < MODULUS by {
            if i < 8 {
                vstd::arithmetic::div_mod::lemma_mod_bound(n[i] as int - s[seq![4int, 5, 6, 7, 0, 1, 2, 3][i]] as int, MODULUS as int);
            } else if 8 <= i < e.len() as int {
                vstd::arithmetic::div_mod::lemma_mod_bound(n[i] as int - s[i] as int, MODULUS as int);
            }
        }
    }
    lemma_perm_idle(v, n, s, seq![3int, 0, 1, 2], user_op_flag(ld, hd, opcodes::ROLL4));
    lemma_eq_range_idle(v, 4, v.len() as int, n, 4, s, 4, user_op_flag(ld, hd, opcodes::ROLL4));
    lemma_perm_idle(v, n, s, seq![7int, 0, 1, 2, 3, 4, 5, 6], user_op_flag(ld, hd, opcodes::ROLL8));
    lemma_eq_range_idle(v, 8, v.len() as int, n, 8, s, 8, user_op_flag(ld, hd, opcodes::ROLL8));
}

/// With ROLL4 the only operation of its group whose flag is set, and its flag one,
/// `rotation_constraints` turns zero evaluations into the `move_evaluations` of ROLL4.
proof fn lemma_rotation_constraints_roll4(e: Seq<u128>, a: Seq<u128>, s: Seq<u128>, n: Seq<u128>, ark: Seq<u128>, ld: Seq<u128>, hd: Seq<u128>)
    requires
        forall|i: int| 0 <= i < e.len() ==> #[trigger] e[i] == 0,
        e.len() >= 8,
        s.len() >= e.len(),
        n.len() >= e.len(),
        user_op_flag(ld, hd, opcodes::SWAP4) == 0,
        user_op_flag(ld, hd, opcodes::ROLL4) == 1,
        user_op_flag(ld, hd, opcodes::ROLL8) == 0,
    ensures
        rotation_constraints(e, a, s, n, ark, ld, hd) == (move_evaluations(s, n, seq![3int, 0, 1, 2], 4, e.len() as int, 0, e.len()), a),
{
    reveal(rotation_constraints);
    assert(all_canonical(e));
    lemma_perm_idle(e, n, s, seq![4int, 5, 6, 7, 0, 1, 2, 3], user_op_flag(ld, hd, opcodes::SWAP4));
    lemma_eq_range_idle(e, 8, e.len() as int, n, 8, s, 8, user_op_flag(ld, hd, opcodes::SWAP4));
    lemma_move_one(e, n, s, seq![3int, 0, 1, 2], 4, e.len() as int, 0);
    let v = move_evaluations(s, n, seq![3int, 0, 1, 2], 4, e.len() as int, 0, e.len());
    assert(all_canonical(v)) by {
        assert forall|i: int| 0 <= i < v.len() implies #[trigger] v[i] < MODULUS by {
            if i < 4 {
                vstd::arithmetic::div_mod::lemma_mod_bound(n[i] as int - s[seq![3int, 0, 1, 2][i]] as int, MODULUS as int);
            } else if 4 <= i < e.len() as int {
                vstd::arithmetic::div_mod::lemma_mod_bound(n[i] as int - s[i] as int, MODULUS as int);
            }
        }
    }
    lemma_perm_idle(v, n, s, seq![7int, 0, 1, 2, 3, 4, 5, 6], user_op_flag(ld, hd, opcodes::ROLL8));
    lemma_eq_range_idle(v, 8, v.len() as int, n, 8, s, 8, user_op_flag(ld, hd, opcodes::ROLL8));
}

/// With ROLL8 the only operation of its group whose flag is set, and its flag one,
/// `rotation_constraints` turns zero evaluations into the `move_evaluations` of ROLL8.
proof fn lemma_rotation_constraints_roll8(e: Seq<u128>, a: Seq<u128>, s: Seq<u128>, n: Seq<u128>, ark: Seq<u128>, ld: Seq<u128>, hd: Seq<u128>)
    requires
        forall|i: int| 0 <= i < e.len() ==> #[trigger] e[i] == 0,
        e.len() >= 8,
        s.len() >= e.len(),
        n.len() >= e.len(),
        user_op_flag(ld, hd, opcodes::SWAP4) == 0,
        user_op_flag(ld, hd, opcodes::ROLL4) == 0,
        user_op_flag(ld, hd, opcodes::ROLL8) == 1,
    ensures
        rotation_constraints(e, a, s, n, ark, ld, hd) == (move_evaluations(s, n, seq![7int, 0, 1, 2, 3, 4, 5, 6], 8, e.len() as int, 0, e.len()), a),
{
    reveal(rotation_constraints);
    assert(all_canonical(e));
    lemma_perm_idle(e, n, s, seq![4int, 5, 6, 7, 0, 1, 2, 3], user_op_flag(ld, hd, opcodes::SWAP4));
    lemma_eq_range_idle(e, 8, e.len() as int, n, 8, s, 8, user_op_flag(ld, hd, opcodes::SWAP4));
    lemma_perm_idle(e, n, s, seq![3int, 0, 1, 2], user_op_flag(ld, hd, opcodes::ROLL4));
    lemma_eq_range_idle(e, 4, e.len() as int, n, 4, s, 4, user_op_flag(ld, hd, opcodes::ROLL4));
    lemma_move_one(e, n, s, seq![7int, 0, 1, 2, 3, 4, 5, 6], 8, e.len() as int, 0);
    let v = move_evaluations(s, n, seq![7int, 0, 1, 2, 3, 4, 5, 6], 8, e.len() as int, 0, e.len());
    assert(all_canonical(v)) by {
        assert forall|i: int| 0 <= i < v.len() implies #[trigger] v[i] < MODULUS by {
            if i < 8 {
                vstd::arithmetic::div_mod::lemma_mod_bound(n[i] as int - s[seq![7int, 0, 1, 2, 3, 4, 5, 6][i]] as int, MODULUS as int);
            } else if 8 <= i < e.len() as int {
                vstd::arithmetic::div_mod::lemma_mod_bound(n[i] as int - s[i] as int, MODULUS as int);
            }
        }
    }

}

/// The evaluations of a NOT step on zero evaluations: the top register after the step against one
/// minus the top register before it, and every lower register against the same register before
/// the step.
pub open spec fn not_evaluations(s: Seq<u128>, n: Seq<u128>, len: nat) -> Seq<u128> {
    Seq::new(len, |i: int|
        if i == 0 {
            f_sub(n[0] as int, spec_binary_not(s[0]) as int) as u128
        } else {
            f_sub(n[i] as int, s[i] as int) as u128
        })
}

/// The evaluations of a step which combines the two top registers into `top`: the top register
/// after the step against `top`, every lower register but the bottom one against the register one
/// lower before the step, and nothing on the bottom register.
pub open spec fn binary_op_evaluations(s: Seq<u128>, n: Seq<u128>, top: u128, len: nat) -> Seq<u128> {
    Seq::new(len, |i: int|
        if i == 0 {
            f_sub(n[0] as int, top as int) as u128
        } else if i < len - 1 {
            f_sub(n[i] as int, s[i + 1] as int) as u128
        } else {
            0u128
        })
}

/// The value of `x OR y` for binary `x` and `y`: one minus the product of their complements.
pub open spec fn spec_or(x: u128, y: u128) -> u128 {
    spec_binary_not(f_mul(spec_binary_not(x) as int, spec_binary_not(y) as int) as u128)
}

/// The value `v * v - v` of a register is canonical.
proof fn lemma_is_binary_canonical(v: u128)
    ensures
        spec_is_binary(v) < MODULUS,
{
    vstd::arithmetic::div_mod::lemma_mod_bound(f_mul(v as int, v as int) - v as int, MODULUS as int);
}

/// The binary check of a canonical register is zero exactly when its square is itself.
proof fn lemma_is_binary_zero(v: u128)
    requires
        v < MODULUS,
    ensures
        (spec_is_binary(v) == 0) == (f_mul(v as int, v as int) == v),
{
    let q = f_mul(v as int, v as int);
    vstd::arithmetic::div_mod::lemma_mod_bound(v as int * v as int, MODULUS as int);
    lemma_sub_zero_equal(q as u128, v);
}

/// With NOT the only boolean operation whose flag is set, its flag one, and zero auxiliary
/// evaluations, `boolean_constraints` turns zero evaluations into `not_evaluations` and checks
/// that the top register is binary.
proof fn lemma_boolean_constraints_not(e: Seq<u128>, a: Seq<u128>, s: Seq<u128>, n: Seq<u128>, ark: Seq<u128>, ld: Seq<u128>, hd: Seq<u128>)
    requires
        forall|i: int| 0 <= i < e.len() ==> #[trigger] e[i] == 0,
        a == seq![0u128, 0u128],
        e.len() >= 8,
        s.len() >= e.len(),
        n.len() >= e.len(),
        user_op_flag(ld, hd, opcodes::NOT) == 1,
        user_op_flag(ld, hd, opcodes::AND) == 0,
        user_op_flag(ld, hd, opcodes::OR) == 0,
    ensures
        boolean_constraints(e, a, s, n, ark, ld, hd) == (not_evaluations(s, n, e.len()), seq![spec_is_binary(s[0]), 0u128]),
{
    reveal(boolean_constraints);
    let flag = user_op_flag(ld, hd, opcodes::NOT);
    let v0 = spec_are_equal(n[0], spec_binary_not(s[0]));
    lemma_agg_one(v0);
    let e1 = agg_at(e, 0, flag, v0);
    let e2 = agg_eq_range(e1, 1, e1.len() as int, n, 1, s, 1, flag);
    let v = not_evaluations(s, n, e.len());
    assert forall|i: int| 0 <= i < e.len() implies #[trigger] e2[i] == v[i] by {
        if 1 <= i {
            lemma_agg_one(spec_are_equal(n[1 + i - 1], s[1 + i - 1]));
        }
    }
    assert(e2 =~= v);
    assert(all_canonical(v));
    lemma_is_binary_canonical(s[0]);
    lemma_agg_one(spec_is_binary(s[0]));
    let a0 = agg_at(a, 0, flag, spec_is_binary(s[0]));
    assert(a0 =~= seq![spec_is_binary(s[0]), 0u128]);
    assert(all_canonical(a0));
    lemma_at_idle(v, 0, user_op_flag(ld, hd, opcodes::AND), spec_are_equal(n[0], f_mul(s[0] as int, s[1] as int) as u128));
    lemma_eq_range_idle(v, 1, v.len() - 1, n, 1, s, 2, user_op_flag(ld, hd, opcodes::AND));
    lemma_at_idle(a0, 0, user_op_flag(ld, hd, opcodes::AND), spec_is_binary(s[0]));
    lemma_at_idle(a0, 1, user_op_flag(ld, hd, opcodes::AND), spec_is_binary(s[1]));
    lemma_at_idle(v, 0, user_op_flag(ld, hd, opcodes::OR), spec_are_equal(n[0], spec_or(s[0], s[1])));
    lemma_eq_range_idle(v, 1, v.len() - 1, n, 1, s, 2, user_op_flag(ld, hd, opcodes::OR));
    lemma_at_idle(a0, 0, user_op_flag(ld, hd, opcodes::OR), spec_is_binary(s[0]));
    lemma_at_idle(a0, 1, user_op_flag(ld, hd, opcodes::OR), spec_is_binary(s[1]));
}

/// With AND (or OR) the only boolean operation whose flag is set, its flag one, and zero
/// auxiliary evaluations, `boolean_constraints` turns zero evaluations into the
/// `binary_op_evaluations` of the product (or of `spec_or`) and checks that both top registers
/// are binary.
proof fn lemma_boolean_constraints_and_or(e: Seq<u128>, a: Seq<u128>, s: Seq<u128>, n: Seq<u128>, ark: Seq<u128>, ld: Seq<u128>, hd: Seq<u128>, is_and: bool)
    requires
        forall|i: int| 0 <= i < e.len() ==> #[trigger] e[i] == 0,
        a == seq![0u128, 0u128],
        e.len() >= 8,
        s.len() >= e.len(),
        n.len() >= e.len(),
        user_op_flag(ld, hd, opcodes::NOT) == 0,
        user_op_flag(ld, hd, opcodes::AND) == if is_and { 1u128 } else { 0u128 },
        user_op_flag(ld, hd, opcodes::OR) == if is_and { 0u128 } else { 1u128 },
    ensures
        boolean_constraints(e, a, s, n, ark, ld, hd) == (
            binary_op_evaluations(s, n, if is_and { f_mul(s[0] as int, s[1] as int) as u128 } else { spec_or(s[0], s[1]) }, e.len()),
            seq![spec_is_binary(s[0]), spec_is_binary(s[1])]),
{
    reveal(boolean_constraints);
    assert(all_canonical(e));
    assert(all_canonical(a));
    lemma_at_idle(e, 0, user_op_flag(ld, hd, opcodes::NOT), spec_are_equal(n[0], spec_binary_not(s[0])));
    lemma_eq_range_idle(e, 1, e.len() as int, n, 1, s, 1, user_op_flag(ld, hd, opcodes::NOT));
    lemma_at_idle(a, 0, user_op_flag(ld, hd, opcodes::NOT), spec_is_binary(s[0]));
    let top = if is_and { f_mul(s[0] as int, s[1] as int) as u128 } else { spec_or(s[0], s[1]) };
    let v = binary_op_evaluations(s, n, top, e.len());
    let ab = seq![spec_is_binary(s[0]), spec_is_binary(s[1])];
    lemma_is_binary_canonical(s[0]);
    lemma_is_binary_canonical(s[1]);
    lemma_agg_one(spec_is_binary(s[0]));
    lemma_agg_one(spec_is_binary(s[1]));
    lemma_agg_one(spec_are_equal(n[0], top));
    assert forall|i: int| 1 <= i < e.len() - 1 implies #[trigger] agg(0, 1, spec_are_equal(n[1 + i - 1], s[2 + i - 1])) == v[i] by {
        lemma_agg_one(spec_are_equal(n[1 + i - 1], s[2 + i - 1]));
    }
    let e1 = agg_eq_range(agg_at(e, 0, 1, spec_are_equal(n[0], top)), 1, e.len() - 1, n, 1, s, 2, 1);
    let a1 = agg_at(agg_at(a, 0, 1, spec_is_binary(s[0])), 1, 1, spec_is_binary(s[1]));
    assert(e1 =~= v);
    assert(a1 =~= ab);
    assert(all_canonical(v));
    assert(all_canonical(ab));
    if is_and {
        lemma_at_idle(v, 0, user_op_flag(ld, hd, opcodes::OR), spec_are_equal(n[0], spec_or(s[0], s[1])));
        lemma_eq_range_idle(v, 1, v.len() - 1, n, 1, s, 2, user_op_flag(ld, hd, opcodes::OR));
        lemma_at_idle(ab, 0, user_op_flag(ld, hd, opcodes::OR), spec_is_binary(s[0]));
        lemma_at_idle(ab, 1, user_op_flag(ld, hd, opcodes::OR), spec_is_binary(s[1]));
    } else {
        lemma_at_idle(e, 0, user_op_flag(ld, hd, opcodes::AND), spec_are_equal(n[0], f_mul(s[0] as int, s[1] as int) as u128));
        lemma_eq_range_idle(e, 1, e.len() - 1, n, 1, s, 2, user_op_flag(ld, hd, opcodes::AND));
        lemma_at_idle(a, 0, user_op_flag(ld, hd, opcodes::AND), spec_is_binary(s[0]));
        lemma_at_idle(a, 1, user_op_flag(ld, hd, opcodes::AND), spec_is_binary(s[1]));
    }
}

/// `lemma_boolean_constraints_and_or` for AND.
proof fn lemma_boolean_constraints_and(e: Seq<u128>, a: Seq<u128>, s: Seq<u128>, n: Seq<u128>, ark: Seq<u128>, ld: Seq<u128>, hd: Seq<u128>)
    requires
        forall|i: int| 0 <= i < e.len() ==> #[trigger] e[i] == 0,
        a == seq![0u128, 0u128],
        e.len() >= 8,
        s.len() >= e.len(),
        n.len() >= e.len(),
        user_op_flag(ld, hd, opcodes::NOT) == 0,
        user_op_flag(ld, hd, opcodes::AND) == 1,
        user_op_flag(ld, hd, opcodes::OR) == 0,
    ensures
        boolean_constraints(e, a, s, n, ark, ld, hd) == (
            binary_op_evaluations(s, n, f_mul(s[0] as int, s[1] as int) as u128, e.len()),
            seq![spec_is_binary(s[0]), spec_is_binary(s[1])]),
{
    lemma_boolean_constraints_and_or(e, a, s, n, ark, ld, hd, true);
}

/// `lemma_boolean_constraints_and_or` for OR.
proof fn lemma_boolean_constraints_or(e: Seq<u128>, a: Seq<u128>, s: Seq<u128>, n: Seq<u128>, ark: Seq<u128>, ld: Seq<u128>, hd: Seq<u128>)
    requires
        forall|i: int| 0 <= i < e.len() ==> #[trigger] e[i] == 0,
        a == seq![0u128, 0u128],
        e.len() >= 8,
        s.len() >= e.len(),
        n.len() >= e.len(),
        user_op_flag(ld, hd, opcodes::NOT) == 0,
        user_op_flag(ld, hd, opcodes::AND) == 0,
        user_op_flag(ld, hd, opcodes::OR) == 1,
    ensures
        boolean_constraints(e, a, s, n, ark, ld, hd) == (
            binary_op_evaluations(s, n, spec_or(s[0], s[1]), e.len()),
            seq![spec_is_binary(s[0]), spec_is_binary(s[1])]),
{
    lemma_boolean_constraints_and_or(e, a, s, n, ark, ld, hd, false);
}

/// With READ the only assertion or input operation whose flag is set, and its flag one,
/// `assertion_input_constraints` turns zero evaluations into the `move_evaluations` of READ.
proof fn lemma_assertion_input_constraints_read(e: Seq<u128>, a: Seq<u128>, s: Seq<u128>, n: Seq<u128>, ark: Seq<u128>, ld: Seq<u128>, hd: Seq<u128>)
    requires
        forall|i: int| 0 <= i < e.len() ==> #[trigger] e[i] == 0,
        all_canonical(a),
        a.len() == NUM_AUX_CONSTRAINTS,
        e.len() >= 8,
        s.len() >= e.len(),
        n.len() >= e.len(),
        user_op_flag(ld, hd, opcodes::ASSERT) == 0,
        user_op_flag(ld, hd, opcodes::ASSERTEQ) == 0,
        user_op_flag(ld, hd, opcodes::READ) == 1,
        user_op_flag(ld, hd, opcodes::READ2) == 0,
    ensures
        assertion_input_constraints(e, a, s, n, ark, ld, hd) == (move_evaluations(s, n, Seq::<int>::empty(), 1, e.len() as int, -1, e.len()), a),
{
    reveal(assertion_input_constraints);
    assert(all_canonical(e));
    lemma_eq_range_idle(e, 0, e.len() - 1, n, 0, s, 1, user_op_flag(ld, hd, opcodes::ASSERT));
    lemma_at_idle(a, 0, user_op_flag(ld, hd, opcodes::ASSERT), spec_are_equal(1, s[0]));
    lemma_eq_range_idle(e, 0, e.len() - 2, n, 0, s, 2, user_op_flag(ld, hd, opcodes::ASSERTEQ));
    lemma_at_idle(a, 0, user_op_flag(ld, hd, opcodes::ASSERTEQ), spec_are_equal(s[0], s[1]));
    lemma_move_one(e, n, s, Seq::<int>::empty(), 1, e.len() as int, -1);
    assert(agg_perm(e, n, s, Seq::<int>::empty(), 1) == e);
    let v = move_evaluations(s, n, Seq::<int>::empty(), 1, e.len() as int, -1, e.len());
    assert(all_canonical(v)) by {
        assert forall|i: int| 0 <= i < v.len() implies #[trigger] v[i] < MODULUS by {
            if 1 <= i {
                vstd::arithmetic::div_mod::lemma_mod_bound(n[i] as int - s[i - 1] as int, MODULUS as int);
            }
        }
    }
    lemma_eq_range_idle(v, 2, v.len() as int, n, 2, s, 0, user_op_flag(ld, hd, opcodes::READ2));
}

/// With READ2 the only assertion or input operation whose flag is set, and its flag one,
/// `assertion_input_constraints` turns zero evaluations into the `move_evaluations` of READ2.
proof fn lemma_assertion_input_constraints_read2(e: Seq<u128>, a: Seq<u128>, s: Seq<u128>, n: Seq<u128>, ark: Seq<u128>, ld: Seq<u128>, hd: Seq<u128>)
    requires
        forall|i: int| 0 <= i < e.len() ==> #[trigger] e[i] == 0,
        all_canonical(a),
        a.len() == NUM_AUX_CONSTRAINTS,
        e.len() >= 8,
        s.len() >= e.len(),
        n.len() >= e.len(),
        user_op_flag(ld, hd, opcodes::ASSERT) == 0,
        user_op_flag(ld, hd, opcodes::ASSERTEQ) == 0,
        user_op_flag(ld, hd, opcodes::READ) == 0,
        user_op_flag(ld, hd, opcodes::READ2) == 1,
    ensures
        assertion_input_constraints(e, a, s, n, ark, ld, hd) == (move_evaluations(s, n, Seq::<int>::empty(), 2, e.len() as int, -2, e.len()), a),
{
    reveal(assertion_input_constraints);
    assert(all_canonical(e));
    lemma_eq_range_idle(e, 0, e.len() - 1, n, 0, s, 1, user_op_flag(ld, hd, opcodes::ASSERT));
    lemma_at_idle(a, 0, user_op_flag(ld, hd, opcodes::ASSERT), spec_are_equal(1, s[0]));
    lemma_eq_range_idle(e, 0, e.len() - 2, n, 0, s, 2, user_op_flag(ld, hd, opcodes::ASSERTEQ));
    lemma_at_idle(a, 0, user_op_flag(ld, hd, opcodes::ASSERTEQ), spec_are_equal(s[0], s[1]));
    lemma_move_one(e, n, s, Seq::<int>::empty(), 2, e.len() as int, -2);
    assert(agg_perm(e, n, s, Seq::<int>::empty(), 1) == e);
    let v = move_evaluations(s, n, Seq::<int>::empty(), 2, e.len() as int, -2, e.len());
    assert(all_canonical(v)) by {
        assert forall|i: int| 0 <= i < v.len() implies #[trigger] v[i] < MODULUS by {
            if 2 <= i {
                vstd::arithmetic::div_mod::lemma_mod_bound(n[i] as int - s[i - 2] as int, MODULUS as int);
            }
        }
    }
    lemma_eq_range_idle(e, 1, e.len() as int, n, 1, s, 0, user_op_flag(ld, hd, opcodes::READ));
}

/// With ASSERT (or ASSERTEQ) the only assertion or input operation whose flag is set, its flag
/// one, and zero auxiliary evaluations, `assertion_input_constraints` turns zero evaluations into
/// the `move_evaluations` which drop the one (or two) top items, and checks in the first auxiliary
/// value that the top item is one (or that the two top items are equal).
proof fn lemma_assertion_input_constraints_assert(e: Seq<u128>, a: Seq<u128>, s: Seq<u128>, n: Seq<u128>, ark: Seq<u128>, ld: Seq<u128>, hd: Seq<u128>, pair: bool)
    requires
        forall|i: int| 0 <= i < e.len() ==> #[trigger] e[i] == 0,
        a == seq![0u128, 0u128],
        e.len() >= 8,
        s.len() >= e.len(),
        n.len() >= e.len(),
        user_op_flag(ld, hd, opcodes::ASSERT) == if pair { 0u128 } else { 1u128 },
        user_op_flag(ld, hd, opcodes::ASSERTEQ) == if pair { 1u128 } else { 0u128 },
        user_op_flag(ld, hd, opcodes::READ) == 0,
        user_op_flag(ld, hd, opcodes::READ2) == 0,
    ensures
        assertion_input_constraints(e, a, s, n, ark, ld, hd) == (
            move_evaluations(s, n, Seq::<int>::empty(), 0, e.len() - if pair { 2int } else { 1int }, if pair { 2int } else { 1int }, e.len()),
            seq![if pair { spec_are_equal(s[0], s[1]) } else { spec_are_equal(1, s[0]) }, 0u128]),
{
    reveal(assertion_input_constraints);
    assert(all_canonical(e));
    assert(all_canonical(a));
    let k: int = if pair { 2 } else { 1 };
    let v = move_evaluations(s, n, Seq::<int>::empty(), 0, e.len() - k, k, e.len());
    lemma_move_one(e, n, s, Seq::<int>::empty(), 0, e.len() - k, k);
    assert(agg_perm(e, n, s, Seq::<int>::empty(), 1) == e);
    assert(all_canonical(v)) by {
        assert forall|i: int| 0 <= i < v.len() implies #[trigger] v[i] < MODULUS by {
            if i < e.len() - k {
                vstd::arithmetic::div_mod::lemma_mod_bound(n[i] as int - s[i + k] as int, MODULUS as int);
            }
        }
    }
    let c = if pair { spec_are_equal(s[0], s[1]) } else { spec_are_equal(1, s[0]) };
    lemma_agg_one(c);
    let a0 = agg_at(a, 0, 1, c);
    assert(a0 =~= seq![c, 0u128]);
    assert(all_canonical(a0));
    if pair {
        lemma_eq_range_idle(e, 0, e.len() - 1, n, 0, s, 1, user_op_flag(ld, hd, opcodes::ASSERT));
        lemma_at_idle(a, 0, user_op_flag(ld, hd, opcodes::ASSERT), spec_are_equal(1, s[0]));
    } else {
        lemma_eq_range_idle(v, 0, v.len() - 2, n, 0, s, 2, user_op_flag(ld, hd, opcodes::ASSERTEQ));
        lemma_at_idle(a0, 0, user_op_flag(ld, hd, opcodes::ASSERTEQ), spec_are_equal(s[0], s[1]));
    }
    lemma_eq_range_idle(v, 1, v.len() as int, n, 1, s, 0, user_op_flag(ld, hd, opcodes::READ));
    lemma_eq_range_idle(v, 2, v.len() as int, n, 2, s, 0, user_op_flag(ld, hd, opcodes::READ2));
}

/// The evaluations of a CHOOSE step on zero evaluations: the top register after the step against
/// the selection by the third register before the step between the two top ones, every register
/// below it (but the two bottom ones) against the register two lower before the step, and the two
/// bottom registers against zero.
pub open spec fn choose_evaluations(s: Seq<u128>, n: Seq<u128>, len: nat) -> Seq<u128> {
    Seq::new(len, |i: int|
        if i == 0 {
            f_sub(n[0] as int, select(s[2], s[0], s[1]) as int) as u128
        } else if i < len - 2 {
            f_sub(s[i + 2] as int, n[i] as int) as u128
        } else {
            agg(0, 1, n[i])
        })
}

/// With CHOOSE the only selection operation whose flag is set, its flag one, and zero auxiliary
/// evaluations, `selection_constraints` turns zero evaluations into `choose_evaluations` and checks
/// that the selecting register is binary.
proof fn lemma_selection_constraints_choose(e: Seq<u128>, a: Seq<u128>, s: Seq<u128>, n: Seq<u128>, ark: Seq<u128>, ld: Seq<u128>, hd: Seq<u128>)
    requires
        forall|i: int| 0 <= i < e.len() ==> #[trigger] e[i] == 0,
        a == seq![0u128, 0u128],
        e.len() >= 8,
        s.len() >= e.len(),
        n.len() >= e.len(),
        user_op_flag(ld, hd, opcodes::CHOOSE) == 1,
        user_op_flag(ld, hd, opcodes::CHOOSE2) == 0,
        user_op_flag(ld, hd, opcodes::CSWAP2) == 0,
    ensures
        selection_constraints(e, a, s, n, ark, ld, hd) == (choose_evaluations(s, n, e.len()), seq![spec_is_binary(s[2]), 0u128]),
{
    reveal(selection_constraints);
    let len = e.len() as int;
    let v0 = spec_are_equal(n[0], select(s[2], s[0], s[1]));
    lemma_agg_one(v0);
    let e1 = agg_at(e, 0, 1, v0);
    let e2 = agg_eq_range(e1, 1, len - 2, s, 3, n, 1, 1);
    let e3 = agg_zero_range(e2, len - 2, len, n, 1);
    assert(left_shift(e1, s, n, 3, 2, 1) == e3);
    let v = choose_evaluations(s, n, e.len());
    assert forall|i: int| 0 <= i < len implies #[trigger] e3[i] == v[i] by {
        if 1 <= i < len - 2 {
            lemma_agg_one(spec_are_equal(s[3 + i - 1], n[1 + i - 1]));
        }
    }
    assert(e3 =~= v);
    assert(all_canonical(v)) by {
        assert forall|i: int| 0 <= i < len implies #[trigger] v[i] < MODULUS by {
            if i >= len - 2 {
                vstd::arithmetic::div_mod::lemma_mod_bound(0 + f_mul(1, n[i] as int), MODULUS as int);
            }
        }
    }
    lemma_is_binary_canonical(s[2]);
    lemma_agg_one(spec_is_binary(s[2]));
    let a0 = agg_at(a, 0, 1, spec_is_binary(s[2]));
    assert(a0 =~= seq![spec_is_binary(s[2]), 0u128]);
    assert(all_canonical(a0));
    lemma_at_idle(v, 0, user_op_flag(ld, hd, opcodes::CHOOSE2), spec_are_equal(n[0], select(s[4], s[0], s[2])));
    lemma_at_idle(v, 1, user_op_flag(ld, hd, opcodes::CHOOSE2), spec_are_equal(n[1], select(s[4], s[1], s[3])));
    lemma_left_shift_idle(v, s, n, 6, 4, user_op_flag(ld, hd, opcodes::CHOOSE2));
    lemma_at_idle(a0, 0, user_op_flag(ld, hd, opcodes::CHOOSE2), spec_is_binary(s[4]));
    lemma_at_idle(v, 0, user_op_flag(ld, hd, opcodes::CSWAP2), spec_are_equal(n[0], select(s[4], s[2], s[0])));
    lemma_at_idle(v, 1, user_op_flag(ld, hd, opcodes::CSWAP2), spec_are_equal(n[1], select(s[4], s[3], s[1])));
    lemma_at_idle(v, 2, user_op_flag(ld, hd, opcodes::CSWAP2), spec_are_equal(n[2], select(s[4], s[0], s[2])));
    lemma_at_idle(v, 3, user_op_flag(ld, hd, opcodes::CSWAP2), spec_are_equal(n[3], select(s[4], s[1], s[3])));
    lemma_left_shift_idle(v, s, n, 6, 2, user_op_flag(ld, hd, opcodes::CSWAP2));
    lemma_at_idle(a0, 0, user_op_flag(ld, hd, opcodes::CSWAP2), spec_is_binary(s[4]));
}

/// The evaluations of a PAD2 step on zero evaluations: the two top registers after the step
/// against zero, and every register below them against the register two higher before the step.
pub open spec fn pad2_evaluations(s: Seq<u128>, n: Seq<u128>, len: nat) -> Seq<u128> {
    Seq::new(len, |i: int|
        if i < 2 {
            agg(0, 1, n[i])
        } else {
            f_sub(n[i] as int, s[i - 2] as int) as u128
        })
}

/// With PAD2 the only duplication or padding operation whose flag is set, and its flag one,
/// `duplication_constraints` turns zero evaluations into `pad2_evaluations`.
proof fn lemma_duplication_constraints_pad2(e: Seq<u128>, a: Seq<u128>, s: Seq<u128>, n: Seq<u128>, ark: Seq<u128>, ld: Seq<u128>, hd: Seq<u128>)
    requires
        forall|i: int| 0 <= i < e.len() ==> #[trigger] e[i] == 0,
        e.len() >= 8,
        s.len() >= e.len(),
        n.len() >= e.len(),
        user_op_flag(ld, hd, opcodes::DUP) == 0,
        user_op_flag(ld, hd, opcodes::DUP2) == 0,
        user_op_flag(ld, hd, opcodes::DUP4) == 0,
        user_op_flag(ld, hd, opcodes::PAD2) == 1,
    ensures
        duplication_constraints(e, a, s, n, ark, ld, hd) == (pad2_evaluations(s, n, e.len()), a),
{
    reveal(duplication_constraints);
    assert(all_canonical(e));
    lemma_perm_idle(e, n, s, seq![0int], user_op_flag(ld, hd, opcodes::DUP));
    lemma_eq_range_idle(e, 1, e.len() as int, n, 1, s, 0, user_op_flag(ld, hd, opcodes::DUP));
    lemma_perm_idle(e, n, s, seq![0int, 1], user_op_flag(ld, hd, opcodes::DUP2));
    lemma_eq_range_idle(e, 2, e.len() as int, n, 2, s, 0, user_op_flag(ld, hd, opcodes::DUP2));
    lemma_perm_idle(e, n, s, seq![0int, 1, 2, 3], user_op_flag(ld, hd, opcodes::DUP4));
    lemma_eq_range_idle(e, 4, e.len() as int, n, 4, s, 0, user_op_flag(ld, hd, opcodes::DUP4));
    let e1 = agg_at(agg_at(e, 0, 1, n[0]), 1, 1, n[1]);
    let e2 = agg_eq_range(e1, 2, e1.len() as int, n, 2, s, 0, 1);
    let v = pad2_evaluations(s, n, e.len());
    assert forall|i: int| 0 <= i < e.len() implies #[trigger] e2[i] == v[i] by {
        if 2 <= i {
            lemma_agg_one(spec_are_equal(n[2 + i - 2], s[0 + i - 2]));
        }
    }
    assert(e2 =~= v);
}

// LAWS
// ================================================================================================

/// A NOOP step (all seven operation bits set) that leaves the user stack unchanged satisfies
/// every stack constraint: the stack evaluations are all zero and the auxiliary values already in
/// `r` are kept, whatever the round constants.
pub proof fn lemma_noop_accepts_unchanged_stack(r: Seq<u128>, current: &TraceState, next: &TraceState, ark: Seq<u128>)
    requires
        current.ld_op_bits@ == seq![1u128, 1, 1, 1, 1],
        current.hd_op_bits@ == seq![1u128, 1],
        next.user_stack@ == current.user_stack@,
        current.user_stack@.len() >= 8,
        NUM_AUX_CONSTRAINTS <= r.len() <= current.user_stack@.len() + NUM_AUX_CONSTRAINTS,
        all_canonical(r.subrange(0, NUM_AUX_CONSTRAINTS as int)),
    ensures
        stack_constraints(r, current, next, ark)
            == r.subrange(0, NUM_AUX_CONSTRAINTS as int) + Seq::new((r.len() - NUM_AUX_CONSTRAINTS) as nat, |i: int| 0u128),
{
    let s = current.user_stack@;
    let n = next.user_stack@;
    let ld = current.ld_op_bits@;
    let hd = current.hd_op_bits@;
    let e = Seq::new(s.len(), |i: int| 0u128);
    let a = r.subrange(0, NUM_AUX_CONSTRAINTS as int);
    assert(all_canonical(e));
    lemma_noop_flags(ld, hd);
    lemma_assertion_input_constraints_idle(e, a, s, n, ark, ld, hd);
    lemma_duplication_constraints_idle(e, a, s, n, ark, ld, hd);
    lemma_drop_swap_constraints_idle(e, a, s, n, ark, ld, hd);
    lemma_rotation_constraints_idle(e, a, s, n, ark, ld, hd);
    lemma_arithmetic_constraints_idle(e, a, s, n, ark, ld, hd);
    lemma_boolean_constraints_idle(e, a, s, n, ark, ld, hd);
    lemma_equality_constraints_idle(e, a, s, n, ark, ld, hd);
    lemma_selection_constraints_idle(e, a, s, n, ark, ld, hd);
    lemma_high_degree_constraints_idle(e, a, s, n, ark, ld, hd);
    lemma_composite_constraints_unchanged_stack(e, a, s, n, ark, ld, hd);
    assert(e.subrange(0, r.len() - NUM_AUX_CONSTRAINTS) =~= Seq::new((r.len() - NUM_AUX_CONSTRAINTS) as nat, |i: int| 0u128));
}

/// The stack constraints of a NOOP step (all seven operation bits set) are the differences
/// between each user stack register before and after the step, so that exactly the registers
/// that changed (modulo the field's modulus) give nonzero evaluations; the auxiliary values
/// already in `r` are kept, whatever the round constants.
#[verifier::spinoff_prover]
#[verifier::rlimit(50)]
pub proof fn lemma_noop_evaluations(r: Seq<u128>, current: &TraceState, next: &TraceState, ark: Seq<u128>)
    requires
        current.ld_op_bits@ == seq![1u128, 1, 1, 1, 1],
        current.hd_op_bits@ == seq![1u128, 1],
        current.user_stack@.len() >= 8,
        next.user_stack@.len() == current.user_stack@.len(),
        NUM_AUX_CONSTRAINTS <= r.len() <= current.user_stack@.len() + NUM_AUX_CONSTRAINTS,
        all_canonical(r.subrange(0, NUM_AUX_CONSTRAINTS as int)),
    ensures
        stack_constraints(r, current, next, ark)
            == r.subrange(0, NUM_AUX_CONSTRAINTS as int) + Seq::new((r.len() - NUM_AUX_CONSTRAINTS) as nat,
                |i: int| f_sub(current.user_stack@[i] as int, next.user_stack@[i] as int) as u128),
{
    let s = current.user_stack@;
    let n = next.user_stack@;
    let ld = current.ld_op_bits@;
    let hd = current.hd_op_bits@;
    let e = Seq::new(s.len(), |i: int| 0u128);
    let a = r.subrange(0, NUM_AUX_CONSTRAINTS as int);
    assert(all_canonical(e));
    lemma_noop_flags(ld, hd);
    lemma_assertion_input_constraints_idle(e, a, s, n, ark, ld, hd);
    lemma_duplication_constraints_idle(e, a, s, n, ark, ld, hd);
    lemma_drop_swap_constraints_idle(e, a, s, n, ark, ld, hd);
    lemma_rotation_constraints_idle(e, a, s, n, ark, ld, hd);
    lemma_arithmetic_constraints_idle(e, a, s, n, ark, ld, hd);
    lemma_boolean_constraints_idle(e, a, s, n, ark, ld, hd);
    lemma_equality_constraints_idle(e, a, s, n, ark, ld, hd);
    lemma_selection_constraints_idle(e, a, s, n, ark, ld, hd);
    lemma_high_degree_constraints_idle(e, a, s, n, ark, ld, hd);
    lemma_composite_constraints_noop(e, a, s, n, ark, ld, hd);
    assert(Seq::new(e.len(), |i: int| f_sub(s[i] as int, n[i] as int) as u128).subrange(0, r.len() - NUM_AUX_CONSTRAINTS)
        =~= Seq::new((r.len() - NUM_AUX_CONSTRAINTS) as nat, |i: int| f_sub(s[i] as int, n[i] as int) as u128));
}

/// With all seven operation bits set, the flag of every user operation but NOOP is zero.
#[verifier::spinoff_prover]
proof fn lemma_noop_flags(ld: Seq<u128>, hd: Seq<u128>)
    requires
        ld == seq![1u128, 1, 1, 1, 1],
        hd == seq![1u128, 1],
    ensures
        user_op_flag(ld, hd, opcodes::NOOP) == 1,
        user_op_flag(ld, hd, opcodes::BEGIN) == 0,
        user_op_flag(ld, hd, opcodes::ASSERT) == 0,
        user_op_flag(ld, hd, opcodes::ASSERTEQ) == 0,
        user_op_flag(ld, hd, opcodes::READ) == 0,
        user_op_flag(ld, hd, opcodes::READ2) == 0,
        user_op_flag(ld, hd, opcodes::DUP) == 0,
        user_op_flag(ld, hd, opcodes::DUP2) == 0,
        user_op_flag(ld, hd, opcodes::DUP4) == 0,
        user_op_flag(ld, hd, opcodes::PAD2) == 0,
        user_op_flag(ld, hd, opcodes::DROP) == 0,
        user_op_flag(ld, hd, opcodes::DROP4) == 0,
        user_op_flag(ld, hd, opcodes::SWAP) == 0,
        user_op_flag(ld, hd, opcodes::SWAP2) == 0,
        user_op_flag(ld, hd, opcodes::SWAP4) == 0,
        user_op_flag(ld, hd, opcodes::ROLL4) == 0,
        user_op_flag(ld, hd, opcodes::ROLL8) == 0,
        user_op_flag(ld, hd, opcodes::ADD) == 0,
        user_op_flag(ld, hd, opcodes::MUL) == 0,
        user_op_flag(ld, hd, opcodes::INV) == 0,
        user_op_flag(ld, hd, opcodes::NEG) == 0,
        user_op_flag(ld, hd, opcodes::NOT) == 0,
        user_op_flag(ld, hd, opcodes::AND) == 0,
        user_op_flag(ld, hd, opcodes::OR) == 0,
        user_op_flag(ld, hd, opcodes::EQ) == 0,
        user_op_flag(ld, hd, opcodes::BINACC) == 0,
        user_op_flag(ld, hd, opcodes::CHOOSE) == 0,
        user_op_flag(ld, hd, opcodes::CHOOSE2) == 0,
        user_op_flag(ld, hd, opcodes::CSWAP2) == 0,
        user_op_flag(ld, hd, opcodes::PUSH) == 0,
        user_op_flag(ld, hd, opcodes::CMP) == 0,
        user_op_flag(ld, hd, opcodes::RESCR) == 0,
{
    assert(bit_sel(1, false) == 0) by {
        assert(spec_binary_not(1) == 0);
    }
    assert(bit_sel(1, true) == 1);
    assert forall|x: int| #[trigger] f_mul(x, 0) == 0 by {
        assert(x * 0 == 0);
    }
    assert forall|x: int| #[trigger] f_mul(0, x) == 0 by {
        assert(0 * x == 0);
    }
    assert(f_mul(1, 1) == 1) by {
        vstd::arithmetic::div_mod::lemma_small_mod(1, MODULUS as nat);
    }
}

/// An ADD step (operation bits 0b1110100) whose top register holds the field sum of the two top
/// registers before it, and whose other registers move up by one, satisfies every stack
/// constraint: the stack evaluations are all zero and the auxiliary values already in `r` are
/// kept, whatever the round constants. The bottom register is left free.
pub proof fn lemma_add_accepts_correct_sum(r: Seq<u128>, current: &TraceState, next: &TraceState, ark: Seq<u128>)
    requires
        current.ld_op_bits@ == seq![0u128, 0, 1, 0, 1],
        current.hd_op_bits@ == seq![1u128, 1],
        current.user_stack@.len() >= 8,
        next.user_stack@.len() == current.user_stack@.len(),
        next.user_stack@[0] == f_add(current.user_stack@[0] as int, current.user_stack@[1] as int) as u128,
        forall|i: int| 1 <= i < current.user_stack@.len() - 1 ==> #[trigger] next.user_stack@[i] == current.user_stack@[i + 1],
        NUM_AUX_CONSTRAINTS <= r.len() <= current.user_stack@.len() + NUM_AUX_CONSTRAINTS,
        all_canonical(r.subrange(0, NUM_AUX_CONSTRAINTS as int)),
    ensures
        stack_constraints(r, current, next, ark)
            == r.subrange(0, NUM_AUX_CONSTRAINTS as int) + Seq::new((r.len() - NUM_AUX_CONSTRAINTS) as nat, |i: int| 0u128),
{
    let s = current.user_stack@;
    let n = next.user_stack@;
    let ld = current.ld_op_bits@;
    let hd = current.hd_op_bits@;
    let e = Seq::new(s.len(), |i: int| 0u128);
    let a = r.subrange(0, NUM_AUX_CONSTRAINTS as int);
    assert(all_canonical(e));
    lemma_add_flags(ld, hd);
    lemma_assertion_input_constraints_idle(e, a, s, n, ark, ld, hd);
    lemma_duplication_constraints_idle(e, a, s, n, ark, ld, hd);
    lemma_drop_swap_constraints_idle(e, a, s, n, ark, ld, hd);
    lemma_rotation_constraints_idle(e, a, s, n, ark, ld, hd);
    lemma_arithmetic_constraints_add(e, a, s, n, ark, ld, hd);
    lemma_boolean_constraints_idle(e, a, s, n, ark, ld, hd);
    lemma_equality_constraints_idle(e, a, s, n, ark, ld, hd);
    lemma_selection_constraints_idle(e, a, s, n, ark, ld, hd);
    lemma_high_degree_constraints_idle(e, a, s, n, ark, ld, hd);
    lemma_composite_constraints_idle(e, a, s, n, ark, ld, hd);
    assert(e.subrange(0, r.len() - NUM_AUX_CONSTRAINTS) =~= Seq::new((r.len() - NUM_AUX_CONSTRAINTS) as nat, |i: int| 0u128));
}

/// The stack constraints of an ADD step (operation bits 0b1110100) compare the top register with
/// the field sum of the two top registers before the step, and each lower register with the
/// register one lower before the step (`add_evaluations`); the auxiliary values already in `r`
/// are kept, whatever the round constants.
#[verifier::spinoff_prover]
#[verifier::rlimit(50)]
pub proof fn lemma_add_evaluations(r: Seq<u128>, current: &TraceState, next: &TraceState, ark: Seq<u128>)
    requires
        current.ld_op_bits@ == seq![0u128, 0, 1, 0, 1],
        current.hd_op_bits@ == seq![1u128, 1],
        current.user_stack@.len() >= 8,
        next.user_stack@.len() == current.user_stack@.len(),
        NUM_AUX_CONSTRAINTS <= r.len() <= current.user_stack@.len() + NUM_AUX_CONSTRAINTS,
        all_canonical(r.subrange(0, NUM_AUX_CONSTRAINTS as int)),
    ensures
        stack_constraints(r, current, next, ark)
            == r.subrange(0, NUM_AUX_CONSTRAINTS as int)
                + add_evaluations(current.user_stack@, next.user_stack@, current.user_stack@.len()).subrange(0, r.len() - NUM_AUX_CONSTRAINTS),
{
    let s = current.user_stack@;
    let n = next.user_stack@;
    let ld = current.ld_op_bits@;
    let hd = current.hd_op_bits@;
    let e = Seq::new(s.len(), |i: int| 0u128);
    let a = r.subrange(0, NUM_AUX_CONSTRAINTS as int);
    let v = add_evaluations(s, n, s.len());
    assert(all_canonical(e));
    lemma_add_flags(ld, hd);
    lemma_assertion_input_constraints_idle(e, a, s, n, ark, ld, hd);
    lemma_duplication_constraints_idle(e, a, s, n, ark, ld, hd);
    lemma_drop_swap_constraints_idle(e, a, s, n, ark, ld, hd);
    lemma_rotation_constraints_idle(e, a, s, n, ark, ld, hd);
    lemma_arithmetic_constraints_add_evaluations(e, a, s, n, ark, ld, hd);
    assert(v.len() == e.len());
    assert(all_canonical(v));
    lemma_boolean_constraints_idle(v, a, s, n, ark, ld, hd);
    lemma_equality_constraints_idle(v, a, s, n, ark, ld, hd);
    lemma_selection_constraints_idle(v, a, s, n, ark, ld, hd);
    lemma_high_degree_constraints_idle(v, a, s, n, ark, ld, hd);
    lemma_composite_constraints_idle(v, a, s, n, ark, ld, hd);
}

/// The stack constraints of a MUL step (operation bits 0b1110101) compare the top register with
/// the field product of the two top registers before the step, and each lower register with the
/// register one lower before the step (`mul_evaluations`); the auxiliary values already in `r`
/// are kept, whatever the round constants.
#[verifier::spinoff_prover]
#[verifier::rlimit(50)]
pub proof fn lemma_mul_evaluations(r: Seq<u128>, current: &TraceState, next: &TraceState, ark: Seq<u128>)
    requires
        current.ld_op_bits@ == seq![1u128, 0, 1, 0, 1],
        current.hd_op_bits@ == seq![1u128, 1],
        current.user_stack@.len() >= 8,
        next.user_stack@.len() == current.user_stack@.len(),
        NUM_AUX_CONSTRAINTS <= r.len() <= current.user_stack@.len() + NUM_AUX_CONSTRAINTS,
        all_canonical(r.subrange(0, NUM_AUX_CONSTRAINTS as int)),
    ensures
        stack_constraints(r, current, next, ark)
            == r.subrange(0, NUM_AUX_CONSTRAINTS as int)
                + mul_evaluations(current.user_stack@, next.user_stack@, current.user_stack@.len()).subrange(0, r.len() - NUM_AUX_CONSTRAINTS),
{
    let s = current.user_stack@;
    let n = next.user_stack@;
    let ld = current.ld_op_bits@;
    let hd = current.hd_op_bits@;
    let e = Seq::new(s.len(), |i: int| 0u128);
    let a = r.subrange(0, NUM_AUX_CONSTRAINTS as int);
    let v = mul_evaluations(s, n, s.len());
    assert(all_canonical(e));
    lemma_mul_flags(ld, hd);
    lemma_assertion_input_constraints_idle(e, a, s, n, ark, ld, hd);
    lemma_duplication_constraints_idle(e, a, s, n, ark, ld, hd);
    lemma_drop_swap_constraints_idle(e, a, s, n, ark, ld, hd);
    lemma_rotation_constraints_idle(e, a, s, n, ark, ld, hd);
    lemma_arithmetic_constraints_mul_evaluations(e, a, s, n, ark, ld, hd);
    assert(v.len() == e.len());
    assert(all_canonical(v));
    lemma_boolean_constraints_idle(v, a, s, n, ark, ld, hd);
    lemma_equality_constraints_idle(v, a, s, n, ark, ld, hd);
    lemma_selection_constraints_idle(v, a, s, n, ark, ld, hd);
    lemma_high_degree_constraints_idle(v, a, s, n, ark, ld, hd);
    lemma_composite_constraints_idle(v, a, s, n, ark, ld, hd);
}

/// A MUL step satisfies the stack constraints exactly when it multiplies: with the operation bits
/// of MUL and evaluations over the whole stack, the stack evaluations are all zero exactly when
/// the top register after the step is the field product of the two top registers before it and
/// every lower register holds the register one lower before the step.
#[verifier::spinoff_prover]
#[verifier::rlimit(50)]
pub proof fn lemma_mul_accepts_exactly_products(r: Seq<u128>, current: &TraceState, next: &TraceState, ark: Seq<u128>)
    requires
        current.ld_op_bits@ == seq![1u128, 0, 1, 0, 1],
        current.hd_op_bits@ == seq![1u128, 1],
        current.user_stack@.len() >= 8,
        next.user_stack@.len() == current.user_stack@.len(),
        r.len() == current.user_stack@.len() + NUM_AUX_CONSTRAINTS,
        all_canonical(r.subrange(0, NUM_AUX_CONSTRAINTS as int)),
        all_canonical(current.user_stack@),
        all_canonical(next.user_stack@),
    ensures
        (stack_constraints(r, current, next, ark)
            == r.subrange(0, NUM_AUX_CONSTRAINTS as int) + Seq::new(current.user_stack@.len(), |i: int| 0u128))
        == (next.user_stack@[0] == f_mul(current.user_stack@[0] as int, current.user_stack@[1] as int)
            && forall|i: int| 1 <= i < current.user_stack@.len() - 1 ==> #[trigger] next.user_stack@[i] == current.user_stack@[i + 1]),
{
    let s = current.user_stack@;
    let n = next.user_stack@;
    let len = s.len();
    lemma_mul_evaluations(r, current, next, ark);
    let a = r.subrange(0, NUM_AUX_CONSTRAINTS as int);
    let v = mul_evaluations(s, n, len);
    let z = Seq::new(len, |i: int| 0u128);
    assert(v.subrange(0, r.len() - NUM_AUX_CONSTRAINTS) =~= v);
    let p = f_mul(s[0] as int, s[1] as int);
    assert(0 <= p < MODULUS) by {
        vstd::arithmetic::div_mod::lemma_mod_bound(s[0] as int * s[1] as int, MODULUS as int);
    }
    lemma_sub_zero_equal(n[0], p as u128);
    if a + v == a + z {
        assert(v =~= z) by {
            assert forall|i: int| 0 <= i < len implies v[i] == z[i] by {
                assert((a + v)[NUM_AUX_CONSTRAINTS + i] == (a + z)[NUM_AUX_CONSTRAINTS + i]);
            }
        }
        assert(v[0] == 0);
        assert forall|i: int| 1 <= i < len - 1 implies #[trigger] n[i] == s[i + 1] by {
            assert(v[i] == 0);
            lemma_sub_zero_equal(n[i], s[i + 1]);
        }
    }
    if n[0] == p && forall|i: int| 1 <= i < len - 1 ==> #[trigger] n[i] == s[i + 1] {
        assert forall|i: int| 0 <= i < len implies v[i] == z[i] by {
            if 1 <= i < len - 1 {
                assert(n[i] == s[i + 1]);
                lemma_sub_zero_equal(n[i], s[i + 1]);
            }
        }
        assert(v =~= z);
    }
}

/// The stack constraints of an INV step (operation bits 0b1110110) compare one with the field
/// product of the top registers after and before the step, and each lower register with the
/// same register before the step (`inv_evaluations`); the auxiliary values already in `r`
/// are kept, whatever the round constants.
#[verifier::spinoff_prover]
#[verifier::rlimit(50)]
pub proof fn lemma_inv_evaluations(r: Seq<u128>, current: &TraceState, next: &TraceState, ark: Seq<u128>)
    requires
        current.ld_op_bits@ == seq![0u128, 1, 1, 0, 1],
        current.hd_op_bits@ == seq![1u128, 1],
        current.user_stack@.len() >= 8,
        next.user_stack@.len() == current.user_stack@.len(),
        NUM_AUX_CONSTRAINTS <= r.len() <= current.user_stack@.len() + NUM_AUX_CONSTRAINTS,
        all_canonical(r.subrange(0, NUM_AUX_CONSTRAINTS as int)),
    ensures
        stack_constraints(r, current, next, ark)
            == r.subrange(0, NUM_AUX_CONSTRAINTS as int)
                + inv_evaluations(current.user_stack@, next.user_stack@, current.user_stack@.len()).subrange(0, r.len() - NUM_AUX_CONSTRAINTS),
{
    let s = current.user_stack@;
    let n = next.user_stack@;
    let ld = current.ld_op_bits@;
    let hd = current.hd_op_bits@;
    let e = Seq::new(s.len(), |i: int| 0u128);
    let a = r.subrange(0, NUM_AUX_CONSTRAINTS as int);
    let v = inv_evaluations(s, n, s.len());
    assert(all_canonical(e));
    lemma_inv_flags(ld, hd);
    lemma_assertion_input_constraints_idle(e, a, s, n, ark, ld, hd);
    lemma_duplication_constraints_idle(e, a, s, n, ark, ld, hd);
    lemma_drop_swap_constraints_idle(e, a, s, n, ark, ld, hd);
    lemma_rotation_constraints_idle(e, a, s, n, ark, ld, hd);
    lemma_arithmetic_constraints_inv_evaluations(e, a, s, n, ark, ld, hd);
    assert(v.len() == e.len());
    assert(all_canonical(v));
    lemma_boolean_constraints_idle(v, a, s, n, ark, ld, hd);
    lemma_equality_constraints_idle(v, a, s, n, ark, ld, hd);
    lemma_selection_constraints_idle(v, a, s, n, ark, ld, hd);
    lemma_high_degree_constraints_idle(v, a, s, n, ark, ld, hd);
    lemma_composite_constraints_idle(v, a, s, n, ark, ld, hd);
}

/// The stack constraints of a NEG step (operation bits 0b1110111) hold the field sum of the top
/// registers after and before the step, and compare each lower register with the same register
/// before the step (`neg_evaluations`); the auxiliary values already in `r`
/// are kept, whatever the round constants.
#[verifier::spinoff_prover]
#[verifier::rlimit(50)]
pub proof fn lemma_neg_evaluations(r: Seq<u128>, current: &TraceState, next: &TraceState, ark: Seq<u128>)
    requires
        current.ld_op_bits@ == seq![1u128, 1, 1, 0, 1],
        current.hd_op_bits@ == seq![1u128, 1],
        current.user_stack@.len() >= 8,
        next.user_stack@.len() == current.user_stack@.len(),
        NUM_AUX_CONSTRAINTS <= r.len() <= current.user_stack@.len() + NUM_AUX_CONSTRAINTS,
        all_canonical(r.subrange(0, NUM_AUX_CONSTRAINTS as int)),
    ensures
        stack_constraints(r, current, next, ark)
            == r.subrange(0, NUM_AUX_CONSTRAINTS as int)
                + neg_evaluations(current.user_stack@, next.user_stack@, current.user_stack@.len()).subrange(0, r.len() - NUM_AUX_CONSTRAINTS),
{
    let s = current.user_stack@;
    let n = next.user_stack@;
    let ld = current.ld_op_bits@;
    let hd = current.hd_op_bits@;
    let e = Seq::new(s.len(), |i: int| 0u128);
    let a = r.subrange(0, NUM_AUX_CONSTRAINTS as int);
    let v = neg_evaluations(s, n, s.len());
    assert(all_canonical(e));
    lemma_neg_flags(ld, hd);
    lemma_assertion_input_constraints_idle(e, a, s, n, ark, ld, hd);
    lemma_duplication_constraints_idle(e, a, s, n, ark, ld, hd);
    lemma_drop_swap_constraints_idle(e, a, s, n, ark, ld, hd);
    lemma_rotation_constraints_idle(e, a, s, n, ark, ld, hd);
    lemma_arithmetic_constraints_neg_evaluations(e, a, s, n, ark, ld, hd);
    assert(v.len() == e.len());
    assert(all_canonical(v));
    lemma_boolean_constraints_idle(v, a, s, n, ark, ld, hd);
    lemma_equality_constraints_idle(v, a, s, n, ark, ld, hd);
    lemma_selection_constraints_idle(v, a, s, n, ark, ld, hd);
    lemma_high_degree_constraints_idle(v, a, s, n, ark, ld, hd);
    lemma_composite_constraints_idle(v, a, s, n, ark, ld, hd);
}

/// An INV step satisfies the stack constraints exactly when it inverts: with the operation bits
/// of INV and evaluations over the whole stack, the stack evaluations are all zero exactly when
/// the top register after the step times the top register before it is one in the field, and
/// every lower register is unchanged.
#[verifier::spinoff_prover]
#[verifier::rlimit(50)]
pub proof fn lemma_inv_accepts_exactly_inverses(r: Seq<u128>, current: &TraceState, next: &TraceState, ark: Seq<u128>)
    requires
        current.ld_op_bits@ == seq![0u128, 1, 1, 0, 1],
        current.hd_op_bits@ == seq![1u128, 1],
        current.user_stack@.len() >= 8,
        next.user_stack@.len() == current.user_stack@.len(),
        r.len() == current.user_stack@.len() + NUM_AUX_CONSTRAINTS,
        all_canonical(r.subrange(0, NUM_AUX_CONSTRAINTS as int)),
        all_canonical(current.user_stack@),
        all_canonical(next.user_stack@),
    ensures
        (stack_constraints(r, current, next, ark)
            == r.subrange(0, NUM_AUX_CONSTRAINTS as int) + Seq::new(current.user_stack@.len(), |i: int| 0u128))
        == (f_mul(next.user_stack@[0] as int, current.user_stack@[0] as int) == 1
            && forall|i: int| 1 <= i < current.user_stack@.len() ==> #[trigger] next.user_stack@[i] == current.user_stack@[i]),
{
    let s = current.user_stack@;
    let n = next.user_stack@;
    let len = s.len();
    lemma_inv_evaluations(r, current, next, ark);
    let a = r.subrange(0, NUM_AUX_CONSTRAINTS as int);
    let v = inv_evaluations(s, n, len);
    let z = Seq::new(len, |i: int| 0u128);
    assert(v.subrange(0, r.len() - NUM_AUX_CONSTRAINTS) =~= v);
    let p = f_mul(n[0] as int, s[0] as int);
    assert(0 <= p < MODULUS) by {
        vstd::arithmetic::div_mod::lemma_mod_bound(n[0] as int * s[0] as int, MODULUS as int);
    }
    lemma_sub_zero_equal(1, p as u128);
    if a + v == a + z {
        assert forall|i: int| 0 <= i < len implies v[i] == z[i] by {
            assert((a + v)[NUM_AUX_CONSTRAINTS + i] == (a + z)[NUM_AUX_CONSTRAINTS + i]);
        }
        assert(v[0] == 0);
        assert forall|i: int| 1 <= i < len implies #[trigger] n[i] == s[i] by {
            assert(v[i] == 0);
            lemma_sub_zero_equal(n[i], s[i]);
        }
    }
    if p == 1 && forall|i: int| 1 <= i < len ==> #[trigger] n[i] == s[i] {
        assert forall|i: int| 0 <= i < len implies v[i] == z[i] by {
            if 1 <= i {
                assert(n[i] == s[i]);
                lemma_sub_zero_equal(n[i], s[i]);
            }
        }
        assert(v =~= z);
    }
}

/// A NEG step satisfies the stack constraints exactly when it negates: with the operation bits of
/// NEG and evaluations over the whole stack, the stack evaluations are all zero exactly when the
/// top registers after and before the step sum to zero in the field, and every lower register is
/// unchanged.
#[verifier::spinoff_prover]
#[verifier::rlimit(50)]
pub proof fn lemma_neg_accepts_exactly_negations(r: Seq<u128>, current: &TraceState, next: &TraceState, ark: Seq<u128>)
    requires
        current.ld_op_bits@ == seq![1u128, 1, 1, 0, 1],
        current.hd_op_bits@ == seq![1u128, 1],
        current.user_stack@.len() >= 8,
        next.user_stack@.len() == current.user_stack@.len(),
        r.len() == current.user_stack@.len() + NUM_AUX_CONSTRAINTS,
        all_canonical(r.subrange(0, NUM_AUX_CONSTRAINTS as int)),
        all_canonical(current.user_stack@),
        all_canonical(next.user_stack@),
    ensures
        (stack_constraints(r, current, next, ark)
            == r.subrange(0, NUM_AUX_CONSTRAINTS as int) + Seq::new(current.user_stack@.len(), |i: int| 0u128))
        == (f_add(next.user_stack@[0] as int, current.user_stack@[0] as int) == 0
            && forall|i: int| 1 <= i < current.user_stack@.len() ==> #[trigger] next.user_stack@[i] == current.user_stack@[i]),
{
    let s = current.user_stack@;
    let n = next.user_stack@;
    let len = s.len();
    lemma_neg_evaluations(r, current, next, ark);
    let a = r.subrange(0, NUM_AUX_CONSTRAINTS as int);
    let v = neg_evaluations(s, n, len);
    let z = Seq::new(len, |i: int| 0u128);
    assert(v.subrange(0, r.len() - NUM_AUX_CONSTRAINTS) =~= v);
    let q = f_add(n[0] as int, s[0] as int);
    assert(0 <= q < MODULUS) by {
        vstd::arithmetic::div_mod::lemma_mod_bound(n[0] as int + s[0] as int, MODULUS as int);
    }
    if a + v == a + z {
        assert forall|i: int| 0 <= i < len implies v[i] == z[i] by {
            assert((a + v)[NUM_AUX_CONSTRAINTS + i] == (a + z)[NUM_AUX_CONSTRAINTS + i]);
        }
        assert(v[0] == 0);
        assert forall|i: int| 1 <= i < len implies #[trigger] n[i] == s[i] by {
            assert(v[i] == 0);
            lemma_sub_zero_equal(n[i], s[i]);
        }
    }
    if q == 0 && forall|i: int| 1 <= i < len ==> #[trigger] n[i] == s[i] {
        assert forall|i: int| 0 <= i < len implies v[i] == z[i] by {
            if 1 <= i {
                assert(n[i] == s[i]);
                lemma_sub_zero_equal(n[i], s[i]);
            }
        }
        assert(v =~= z);
    }
}

/// With the operation bits of ADD, the flag of every other user operation is zero.
#[verifier::spinoff_prover]
proof fn lemma_add_flags(ld: Seq<u128>, hd: Seq<u128>)
    requires
        ld == seq![0u128, 0, 1, 0, 1],
        hd == seq![1u128, 1],
    ensures
        user_op_flag(ld, hd, opcodes::ADD) == 1,
        user_op_flag(ld, hd, opcodes::BEGIN) == 0,
        user_op_flag(ld, hd, opcodes::NOOP) == 0,
        user_op_flag(ld, hd, opcodes::ASSERT) == 0,
        user_op_flag(ld, hd, opcodes::ASSERTEQ) == 0,
        user_op_flag(ld, hd, opcodes::READ) == 0,
        user_op_flag(ld, hd, opcodes::READ2) == 0,
        user_op_flag(ld, hd, opcodes::DUP) == 0,
        user_op_flag(ld, hd, opcodes::DUP2) == 0,
        user_op_flag(ld, hd, opcodes::DUP4) == 0,
        user_op_flag(ld, hd, opcodes::PAD2) == 0,
        user_op_flag(ld, hd, opcodes::DROP) == 0,
        user_op_flag(ld, hd, opcodes::DROP4) == 0,
        user_op_flag(ld, hd, opcodes::SWAP) == 0,
        user_op_flag(ld, hd, opcodes::SWAP2) == 0,
        user_op_flag(ld, hd, opcodes::SWAP4) == 0,
        user_op_flag(ld, hd, opcodes::ROLL4) == 0,
        user_op_flag(ld, hd, opcodes::ROLL8) == 0,
        user_op_flag(ld, hd, opcodes::MUL) == 0,
        user_op_flag(ld, hd, opcodes::INV) == 0,
        user_op_flag(ld, hd, opcodes::NEG) == 0,
        user_op_flag(ld, hd, opcodes::NOT) == 0,
        user_op_flag(ld, hd, opcodes::AND) == 0,
        user_op_flag(ld, hd, opcodes::OR) == 0,
        user_op_flag(ld, hd, opcodes::EQ) == 0,
        user_op_flag(ld, hd, opcodes::BINACC) == 0,
        user_op_flag(ld, hd, opcodes::CHOOSE) == 0,
        user_op_flag(ld, hd, opcodes::CHOOSE2) == 0,
        user_op_flag(ld, hd, opcodes::CSWAP2) == 0,
        user_op_flag(ld, hd, opcodes::PUSH) == 0,
        user_op_flag(ld, hd, opcodes::CMP) == 0,
        user_op_flag(ld, hd, opcodes::RESCR) == 0,
{
    assert(bit_sel(1, false) == 0) by {
        assert(spec_binary_not(1) == 0);
    }
    assert(bit_sel(1, true) == 1);
    assert(bit_sel(0, true) == 0);
    assert(bit_sel(0, false) == 1) by {
        assert(spec_binary_not(0) == 1) by {
            vstd::arithmetic::div_mod::lemma_small_mod(1, MODULUS as nat);
        }
    }
    assert forall|x: int| #[trigger] f_mul(x, 0) == 0 by {
        assert(x * 0 == 0);
    }
    assert forall|x: int| #[trigger] f_mul(0, x) == 0 by {
        assert(0 * x == 0);
    }
    assert(f_mul(1, 1) == 1) by {
        vstd::arithmetic::div_mod::lemma_small_mod(1, MODULUS as nat);
    }
}

/// With the operation bits of MUL, the flag of every other user operation is zero.
#[verifier::spinoff_prover]
proof fn lemma_mul_flags(ld: Seq<u128>, hd: Seq<u128>)
    requires
        ld == seq![1u128, 0, 1, 0, 1],
        hd == seq![1u128, 1],
    ensures
        user_op_flag(ld, hd, opcodes::ADD) == 0,
        user_op_flag(ld, hd, opcodes::BEGIN) == 0,
        user_op_flag(ld, hd, opcodes::NOOP) == 0,
        user_op_flag(ld, hd, opcodes::ASSERT) == 0,
        user_op_flag(ld, hd, opcodes::ASSERTEQ) == 0,
        user_op_flag(ld, hd, opcodes::READ) == 0,
        user_op_flag(ld, hd, opcodes::READ2) == 0,
        user_op_flag(ld, hd, opcodes::DUP) == 0,
        user_op_flag(ld, hd, opcodes::DUP2) == 0,
        user_op_flag(ld, hd, opcodes::DUP4) == 0,
        user_op_flag(ld, hd, opcodes::PAD2) == 0,
        user_op_flag(ld, hd, opcodes::DROP) == 0,
        user_op_flag(ld, hd, opcodes::DROP4) == 0,
        user_op_flag(ld, hd, opcodes::SWAP) == 0,
        user_op_flag(ld, hd, opcodes::SWAP2) == 0,
        user_op_flag(ld, hd, opcodes::SWAP4) == 0,
        user_op_flag(ld, hd, opcodes::ROLL4) == 0,
        user_op_flag(ld, hd, opcodes::ROLL8) == 0,
        user_op_flag(ld, hd, opcodes::MUL) == 1,
        user_op_flag(ld, hd, opcodes::INV) == 0,
        user_op_flag(ld, hd, opcodes::NEG) == 0,
        user_op_flag(ld, hd, opcodes::NOT) == 0,
        user_op_flag(ld, hd, opcodes::AND) == 0,
        user_op_flag(ld, hd, opcodes::OR) == 0,
        user_op_flag(ld, hd, opcodes::EQ) == 0,
        user_op_flag(ld, hd, opcodes::BINACC) == 0,
        user_op_flag(ld, hd, opcodes::CHOOSE) == 0,
        user_op_flag(ld, hd, opcodes::CHOOSE2) == 0,
        user_op_flag(ld, hd, opcodes::CSWAP2) == 0,
        user_op_flag(ld, hd, opcodes::PUSH) == 0,
        user_op_flag(ld, hd, opcodes::CMP) == 0,
        user_op_flag(ld, hd, opcodes::RESCR) == 0,
{
    assert(bit_sel(1, false) == 0) by {
        assert(spec_binary_not(1) == 0);
    }
    assert(bit_sel(1, true) == 1);
    assert(bit_sel(0, true) == 0);
    assert(bit_sel(0, false) == 1) by {
        assert(spec_binary_not(0) == 1) by {
            vstd::arithmetic::div_mod::lemma_small_mod(1, MODULUS as nat);
        }
    }
    assert forall|x: int| #[trigger] f_mul(x, 0) == 0 by {
        assert(x * 0 == 0);
    }
    assert forall|x: int| #[trigger] f_mul(0, x) == 0 by {
        assert(0 * x == 0);
    }
    assert(f_mul(1, 1) == 1) by {
        vstd::arithmetic::div_mod::lemma_small_mod(1, MODULUS as nat);
    }
}

/// With the operation bits of INV, the flag of every other user operation is zero.
#[verifier::spinoff_prover]
proof fn lemma_inv_flags(ld: Seq<u128>, hd: Seq<u128>)
    requires
        ld == seq![0u128, 1, 1, 0, 1],
        hd == seq![1u128, 1],
    ensures
        user_op_flag(ld, hd, opcodes::ADD) == 0,
        user_op_flag(ld, hd, opcodes::BEGIN) == 0,
        user_op_flag(ld, hd, opcodes::NOOP) == 0,
        user_op_flag(ld, hd, opcodes::ASSERT) == 0,
        user_op_flag(ld, hd, opcodes::ASSERTEQ) == 0,
        user_op_flag(ld, hd, opcodes::READ) == 0,
        user_op_flag(ld, hd, opcodes::READ2) == 0,
        user_op_flag(ld, hd, opcodes::DUP) == 0,
        user_op_flag(ld, hd, opcodes::DUP2) == 0,
        user_op_flag(ld, hd, opcodes::DUP4) == 0,
        user_op_flag(ld, hd, opcodes::PAD2) == 0,
        user_op_flag(ld, hd, opcodes::DROP) == 0,
        user_op_flag(ld, hd, opcodes::DROP4) == 0,
        user_op_flag(ld, hd, opcodes::SWAP) == 0,
        user_op_flag(ld, hd, opcodes::SWAP2) == 0,
        user_op_flag(ld, hd, opcodes::SWAP4) == 0,
        user_op_flag(ld, hd, opcodes::ROLL4) == 0,
        user_op_flag(ld, hd, opcodes::ROLL8) == 0,
        user_op_flag(ld, hd, opcodes::MUL) == 0,
        user_op_flag(ld, hd, opcodes::INV) == 1,
        user_op_flag(ld, hd, opcodes::NEG) == 0,
        user_op_flag(ld, hd, opcodes::NOT) == 0,
        user_op_flag(ld, hd, opcodes::AND) == 0,
        user_op_flag(ld, hd, opcodes::OR) == 0,
        user_op_flag(ld, hd, opcodes::EQ) == 0,
        user_op_flag(ld, hd, opcodes::BINACC) == 0,
        user_op_flag(ld, hd, opcodes::CHOOSE) == 0,
        user_op_flag(ld, hd, opcodes::CHOOSE2) == 0,
        user_op_flag(ld, hd, opcodes::CSWAP2) == 0,
        user_op_flag(ld, hd, opcodes::PUSH) == 0,
        user_op_flag(ld, hd, opcodes::CMP) == 0,
        user_op_flag(ld, hd, opcodes::RESCR) == 0,
{
    assert(bit_sel(1, false) == 0) by {
        assert(spec_binary_not(1) == 0);
    }
    assert(bit_sel(1, true) == 1);
    assert(bit_sel(0, true) == 0);
    assert(bit_sel(0, false) == 1) by {
        assert(spec_binary_not(0) == 1) by {
            vstd::arithmetic::div_mod::lemma_small_mod(1, MODULUS as nat);
        }
    }
    assert forall|x: int| #[trigger] f_mul(x, 0) == 0 by {
        assert(x * 0 == 0);
    }
    assert forall|x: int| #[trigger] f_mul(0, x) == 0 by {
        assert(0 * x == 0);
    }
    assert(f_mul(1, 1) == 1) by {
        vstd::arithmetic::div_mod::lemma_small_mod(1, MODULUS as nat);
    }
}

/// With the operation bits of PAD2, the flag of every other user operation is zero.
#[verifier::spinoff_prover]
proof fn lemma_pad2_flags(ld: Seq<u128>, hd: Seq<u128>)
    requires
        ld == seq![0u128, 0, 0, 1, 0],
        hd == seq![1u128, 1],
    ensures
        user_op_flag(ld, hd, opcodes::ADD) == 0,
        user_op_flag(ld, hd, opcodes::BEGIN) == 0,
        user_op_flag(ld, hd, opcodes::NOOP) == 0,
        user_op_flag(ld, hd, opcodes::ASSERT) == 0,
        user_op_flag(ld, hd, opcodes::ASSERTEQ) == 0,
        user_op_flag(ld, hd, opcodes::READ) == 0,
        user_op_flag(ld, hd, opcodes::READ2) == 0,
        user_op_flag(ld, hd, opcodes::DUP) == 0,
        user_op_flag(ld, hd, opcodes::DUP2) == 0,
        user_op_flag(ld, hd, opcodes::DUP4) == 0,
        user_op_flag(ld, hd, opcodes::PAD2) == 1,
        user_op_flag(ld, hd, opcodes::DROP) == 0,
        user_op_flag(ld, hd, opcodes::DROP4) == 0,
        user_op_flag(ld, hd, opcodes::SWAP) == 0,
        user_op_flag(ld, hd, opcodes::SWAP2) == 0,
        user_op_flag(ld, hd, opcodes::SWAP4) == 0,
        user_op_flag(ld, hd, opcodes::ROLL4) == 0,
        user_op_flag(ld, hd, opcodes::ROLL8) == 0,
        user_op_flag(ld, hd, opcodes::MUL) == 0,
        user_op_flag(ld, hd, opcodes::INV) == 0,
        user_op_flag(ld, hd, opcodes::NEG) == 0,
        user_op_flag(ld, hd, opcodes::NOT) == 0,
        user_op_flag(ld, hd, opcodes::AND) == 0,
        user_op_flag(ld, hd, opcodes::OR) == 0,
        user_op_flag(ld, hd, opcodes::EQ) == 0,
        user_op_flag(ld, hd, opcodes::BINACC) == 0,
        user_op_flag(ld, hd, opcodes::CHOOSE) == 0,
        user_op_flag(ld, hd, opcodes::CHOOSE2) == 0,
        user_op_flag(ld, hd, opcodes::CSWAP2) == 0,
        user_op_flag(ld, hd, opcodes::PUSH) == 0,
        user_op_flag(ld, hd, opcodes::CMP) == 0,
        user_op_flag(ld, hd, opcodes::RESCR) == 0,
{
    assert(bit_sel(1, false) == 0) by {
        assert(spec_binary_not(1) == 0);
    }
    assert(bit_sel(1, true) == 1);
    assert(bit_sel(0, true) == 0);
    assert(bit_sel(0, false) == 1) by {
        assert(spec_binary_not(0) == 1) by {
            vstd::arithmetic::div_mod::lemma_small_mod(1, MODULUS as nat);
        }
    }
    assert forall|x: int| #[trigger] f_mul(x, 0) == 0 by {
        assert(x * 0 == 0);
    }
    assert forall|x: int| #[trigger] f_mul(0, x) == 0 by {
        assert(0 * x == 0);
    }
    assert(f_mul(1, 1) == 1) by {
        vstd::arithmetic::div_mod::lemma_small_mod(1, MODULUS as nat);
    }
}

/// With the operation bits of CHOOSE, the flag of every other user operation is zero.
#[verifier::spinoff_prover]
proof fn lemma_choose_flags(ld: Seq<u128>, hd: Seq<u128>)
    requires
        ld == seq![1u128, 0, 0, 1, 1],
        hd == seq![1u128, 1],
    ensures
        user_op_flag(ld, hd, opcodes::ADD) == 0,
        user_op_flag(ld, hd, opcodes::BEGIN) == 0,
        user_op_flag(ld, hd, opcodes::NOOP) == 0,
        user_op_flag(ld, hd, opcodes::ASSERT) == 0,
        user_op_flag(ld, hd, opcodes::ASSERTEQ) == 0,
        user_op_flag(ld, hd, opcodes::READ) == 0,
        user_op_flag(ld, hd, opcodes::READ2) == 0,
        user_op_flag(ld, hd, opcodes::DUP) == 0,
        user_op_flag(ld, hd, opcodes::DUP2) == 0,
        user_op_flag(ld, hd, opcodes::DUP4) == 0,
        user_op_flag(ld, hd, opcodes::PAD2) == 0,
        user_op_flag(ld, hd, opcodes::DROP) == 0,
        user_op_flag(ld, hd, opcodes::DROP4) == 0,
        user_op_flag(ld, hd, opcodes::SWAP) == 0,
        user_op_flag(ld, hd, opcodes::SWAP2) == 0,
        user_op_flag(ld, hd, opcodes::SWAP4) == 0,
        user_op_flag(ld, hd, opcodes::ROLL4) == 0,
        user_op_flag(ld, hd, opcodes::ROLL8) == 0,
        user_op_flag(ld, hd, opcodes::MUL) == 0,
        user_op_flag(ld, hd, opcodes::INV) == 0,
        user_op_flag(ld, hd, opcodes::NEG) == 0,
        user_op_flag(ld, hd, opcodes::NOT) == 0,
        user_op_flag(ld, hd, opcodes::AND) == 0,
        user_op_flag(ld, hd, opcodes::OR) == 0,
        user_op_flag(ld, hd, opcodes::EQ) == 0,
        user_op_flag(ld, hd, opcodes::BINACC) == 0,
        user_op_flag(ld, hd, opcodes::CHOOSE) == 1,
        user_op_flag(ld, hd, opcodes::CHOOSE2) == 0,
        user_op_flag(ld, hd, opcodes::CSWAP2) == 0,
        user_op_flag(ld, hd, opcodes::PUSH) == 0,
        user_op_flag(ld, hd, opcodes::CMP) == 0,
        user_op_flag(ld, hd, opcodes::RESCR) == 0,
{
    assert(bit_sel(1, false) == 0) by {
        assert(spec_binary_not(1) == 0);
    }
    assert(bit_sel(1, true) == 1);
    assert(bit_sel(0, true) == 0);
    assert(bit_sel(0, false) == 1) by {
        assert(spec_binary_not(0) == 1) by {
            vstd::arithmetic::div_mod::lemma_small_mod(1, MODULUS as nat);
        }
    }
    assert forall|x: int| #[trigger] f_mul(x, 0) == 0 by {
        assert(x * 0 == 0);
    }
    assert forall|x: int| #[trigger] f_mul(0, x) == 0 by {
        assert(0 * x == 0);
    }
    assert(f_mul(1, 1) == 1) by {
        vstd::arithmetic::div_mod::lemma_small_mod(1, MODULUS as nat);
    }
}

/// With the operation bits of ASSERT, the flag of every other user operation is zero.
#[verifier::spinoff_prover]
proof fn lemma_assert_flags(ld: Seq<u128>, hd: Seq<u128>)
    requires
        ld == seq![1u128, 0, 0, 0, 0],
        hd == seq![1u128, 1],
    ensures
        user_op_flag(ld, hd, opcodes::ADD) == 0,
        user_op_flag(ld, hd, opcodes::BEGIN) == 0,
        user_op_flag(ld, hd, opcodes::NOOP) == 0,
        user_op_flag(ld, hd, opcodes::ASSERT) == 1,
        user_op_flag(ld, hd, opcodes::ASSERTEQ) == 0,
        user_op_flag(ld, hd, opcodes::READ) == 0,
        user_op_flag(ld, hd, opcodes::READ2) == 0,
        user_op_flag(ld, hd, opcodes::DUP) == 0,
        user_op_flag(ld, hd, opcodes::DUP2) == 0,
        user_op_flag(ld, hd, opcodes::DUP4) == 0,
        user_op_flag(ld, hd, opcodes::PAD2) == 0,
        user_op_flag(ld, hd, opcodes::DROP) == 0,
        user_op_flag(ld, hd, opcodes::DROP4) == 0,
        user_op_flag(ld, hd, opcodes::SWAP) == 0,
        user_op_flag(ld, hd, opcodes::SWAP2) == 0,
        user_op_flag(ld, hd, opcodes::SWAP4) == 0,
        user_op_flag(ld, hd, opcodes::ROLL4) == 0,
        user_op_flag(ld, hd, opcodes::ROLL8) == 0,
        user_op_flag(ld, hd, opcodes::MUL) == 0,
        user_op_flag(ld, hd, opcodes::INV) == 0,
        user_op_flag(ld, hd, opcodes::NEG) == 0,
        user_op_flag(ld, hd, opcodes::NOT) == 0,
        user_op_flag(ld, hd, opcodes::AND) == 0,
        user_op_flag(ld, hd, opcodes::OR) == 0,
        user_op_flag(ld, hd, opcodes::EQ) == 0,
        user_op_flag(ld, hd, opcodes::BINACC) == 0,
        user_op_flag(ld, hd, opcodes::CHOOSE) == 0,
        user_op_flag(ld, hd, opcodes::CHOOSE2) == 0,
        user_op_flag(ld, hd, opcodes::CSWAP2) == 0,
        user_op_flag(ld, hd, opcodes::PUSH) == 0,
        user_op_flag(ld, hd, opcodes::CMP) == 0,
        user_op_flag(ld, hd, opcodes::RESCR) == 0,
{
    assert(bit_sel(1, false) == 0) by {
        assert(spec_binary_not(1) == 0);
    }
    assert(bit_sel(1, true) == 1);
    assert(bit_sel(0, true) == 0);
    assert(bit_sel(0, false) == 1) by {
        assert(spec_binary_not(0) == 1) by {
            vstd::arithmetic::div_mod::lemma_small_mod(1, MODULUS as nat);
        }
    }
    assert forall|x: int| #[trigger] f_mul(x, 0) == 0 by {
        assert(x * 0 == 0);
    }
    assert forall|x: int| #[trigger] f_mul(0, x) == 0 by {
        assert(0 * x == 0);
    }
    assert(f_mul(1, 1) == 1) by {
        vstd::arithmetic::div_mod::lemma_small_mod(1, MODULUS as nat);
    }
}

/// With the operation bits of ASSERTEQ, the flag of every other user operation is zero.
#[verifier::spinoff_prover]
proof fn lemma_asserteq_flags(ld: Seq<u128>, hd: Seq<u128>)
    requires
        ld == seq![0u128, 1, 0, 0, 0],
        hd == seq![1u128, 1],
    ensures
        user_op_flag(ld, hd, opcodes::ADD) == 0,
        user_op_flag(ld, hd, opcodes::BEGIN) == 0,
        user_op_flag(ld, hd, opcodes::NOOP) == 0,
        user_op_flag(ld, hd, opcodes::ASSERT) == 0,
        user_op_flag(ld, hd, opcodes::ASSERTEQ) == 1,
        user_op_flag(ld, hd, opcodes::READ) == 0,
        user_op_flag(ld, hd, opcodes::READ2) == 0,
        user_op_flag(ld, hd, opcodes::DUP) == 0,
        user_op_flag(ld, hd, opcodes::DUP2) == 0,
        user_op_flag(ld, hd, opcodes::DUP4) == 0,
        user_op_flag(ld, hd, opcodes::PAD2) == 0,
        user_op_flag(ld, hd, opcodes::DROP) == 0,
        user_op_flag(ld, hd, opcodes::DROP4) == 0,
        user_op_flag(ld, hd, opcodes::SWAP) == 0,
        user_op_flag(ld, hd, opcodes::SWAP2) == 0,
        user_op_flag(ld, hd, opcodes::SWAP4) == 0,
        user_op_flag(ld, hd, opcodes::ROLL4) == 0,
        user_op_flag(ld, hd, opcodes::ROLL8) == 0,
        user_op_flag(ld, hd, opcodes::MUL) == 0,
        user_op_flag(ld, hd, opcodes::INV) == 0,
        user_op_flag(ld, hd, opcodes::NEG) == 0,
        user_op_flag(ld, hd, opcodes::NOT) == 0,
        user_op_flag(ld, hd, opcodes::AND) == 0,
        user_op_flag(ld, hd, opcodes::OR) == 0,
        user_op_flag(ld, hd, opcodes::EQ) == 0,
        user_op_flag(ld, hd, opcodes::BINACC) == 0,
        user_op_flag(ld, hd, opcodes::CHOOSE) == 0,
        user_op_flag(ld, hd, opcodes::CHOOSE2) == 0,
        user_op_flag(ld, hd, opcodes::CSWAP2) == 0,
        user_op_flag(ld, hd, opcodes::PUSH) == 0,
        user_op_flag(ld, hd, opcodes::CMP) == 0,
        user_op_flag(ld, hd, opcodes::RESCR) == 0,
{
    assert(bit_sel(1, false) == 0) by {
        assert(spec_binary_not(1) == 0);
    }
    assert(bit_sel(1, true) == 1);
    assert(bit_sel(0, true) == 0);
    assert(bit_sel(0, false) == 1) by {
        assert(spec_binary_not(0) == 1) by {
            vstd::arithmetic::div_mod::lemma_small_mod(1, MODULUS as nat);
        }
    }
    assert forall|x: int| #[trigger] f_mul(x, 0) == 0 by {
        assert(x * 0 == 0);
    }
    assert forall|x: int| #[trigger] f_mul(0, x) == 0 by {
        assert(0 * x == 0);
    }
    assert(f_mul(1, 1) == 1) by {
        vstd::arithmetic::div_mod::lemma_small_mod(1, MODULUS as nat);
    }
}

/// With the operation bits of READ, the flag of every other user operation is zero.
#[verifier::spinoff_prover]
proof fn lemma_read_flags(ld: Seq<u128>, hd: Seq<u128>)
    requires
        ld == seq![1u128, 1, 0, 0, 0],
        hd == seq![1u128, 1],
    ensures
        user_op_flag(ld, hd, opcodes::ADD) == 0,
        user_op_flag(ld, hd, opcodes::BEGIN) == 0,
        user_op_flag(ld, hd, opcodes::NOOP) == 0,
        user_op_flag(ld, hd, opcodes::ASSERT) == 0,
        user_op_flag(ld, hd, opcodes::ASSERTEQ) == 0,
        user_op_flag(ld, hd, opcodes::READ) == 1,
        user_op_flag(ld, hd, opcodes::READ2) == 0,
        user_op_flag(ld, hd, opcodes::DUP) == 0,
        user_op_flag(ld, hd, opcodes::DUP2) == 0,
        user_op_flag(ld, hd, opcodes::DUP4) == 0,
        user_op_flag(ld, hd, opcodes::PAD2) == 0,
        user_op_flag(ld, hd, opcodes::DROP) == 0,
        user_op_flag(ld, hd, opcodes::DROP4) == 0,
        user_op_flag(ld, hd, opcodes::SWAP) == 0,
        user_op_flag(ld, hd, opcodes::SWAP2) == 0,
        user_op_flag(ld, hd, opcodes::SWAP4) == 0,
        user_op_flag(ld, hd, opcodes::ROLL4) == 0,
        user_op_flag(ld, hd, opcodes::ROLL8) == 0,
        user_op_flag(ld, hd, opcodes::MUL) == 0,
        user_op_flag(ld, hd, opcodes::INV) == 0,
        user_op_flag(ld, hd, opcodes::NEG) == 0,
        user_op_flag(ld, hd, opcodes::NOT) == 0,
        user_op_flag(ld, hd, opcodes::AND) == 0,
        user_op_flag(ld, hd, opcodes::OR) == 0,
        user_op_flag(ld, hd, opcodes::EQ) == 0,
        user_op_flag(ld, hd, opcodes::BINACC) == 0,
        user_op_flag(ld, hd, opcodes::CHOOSE) == 0,
        user_op_flag(ld, hd, opcodes::CHOOSE2) == 0,
        user_op_flag(ld, hd, opcodes::CSWAP2) == 0,
        user_op_flag(ld, hd, opcodes::PUSH) == 0,
        user_op_flag(ld, hd, opcodes::CMP) == 0,
        user_op_flag(ld, hd, opcodes::RESCR) == 0,
{
    assert(bit_sel(1, false) == 0) by {
        assert(spec_binary_not(1) == 0);
    }
    assert(bit_sel(1, true) == 1);
    assert(bit_sel(0, true) == 0);
    assert(bit_sel(0, false) == 1) by {
        assert(spec_binary_not(0) == 1) by {
            vstd::arithmetic::div_mod::lemma_small_mod(1, MODULUS as nat);
        }
    }
    assert forall|x: int| #[trigger] f_mul(x, 0) == 0 by {
        assert(x * 0 == 0);
    }
    assert forall|x: int| #[trigger] f_mul(0, x) == 0 by {
        assert(0 * x == 0);
    }
    assert(f_mul(1, 1) == 1) by {
        vstd::arithmetic::div_mod::lemma_small_mod(1, MODULUS as nat);
    }
}

/// With the operation bits of READ2, the flag of every other user operation is zero.
#[verifier::spinoff_prover]
proof fn lemma_read2_flags(ld: Seq<u128>, hd: Seq<u128>)
    requires
        ld == seq![0u128, 0, 1, 0, 0],
        hd == seq![1u128, 1],
    ensures
        user_op_flag(ld, hd, opcodes::ADD) == 0,
        user_op_flag(ld, hd, opcodes::BEGIN) == 0,
        user_op_flag(ld, hd, opcodes::NOOP) == 0,
        user_op_flag(ld, hd, opcodes::ASSERT) == 0,
        user_op_flag(ld, hd, opcodes::ASSERTEQ) == 0,
        user_op_flag(ld, hd, opcodes::READ) == 0,
        user_op_flag(ld, hd, opcodes::READ2) == 1,
        user_op_flag(ld, hd, opcodes::DUP) == 0,
        user_op_flag(ld, hd, opcodes::DUP2) == 0,
        user_op_flag(ld, hd, opcodes::DUP4) == 0,
        user_op_flag(ld, hd, opcodes::PAD2) == 0,
        user_op_flag(ld, hd, opcodes::DROP) == 0,
        user_op_flag(ld, hd, opcodes::DROP4) == 0,
        user_op_flag(ld, hd, opcodes::SWAP) == 0,
        user_op_flag(ld, hd, opcodes::SWAP2) == 0,
        user_op_flag(ld, hd, opcodes::SWAP4) == 0,
        user_op_flag(ld, hd, opcodes::ROLL4) == 0,
        user_op_flag(ld, hd, opcodes::ROLL8) == 0,
        user_op_flag(ld, hd, opcodes::MUL) == 0,
        user_op_flag(ld, hd, opcodes::INV) == 0,
        user_op_flag(ld, hd, opcodes::NEG) == 0,
        user_op_flag(ld, hd, opcodes::NOT) == 0,
        user_op_flag(ld, hd, opcodes::AND) == 0,
        user_op_flag(ld, hd, opcodes::OR) == 0,
        user_op_flag(ld, hd, opcodes::EQ) == 0,
        user_op_flag(ld, hd, opcodes::BINACC) == 0,
        user_op_flag(ld, hd, opcodes::CHOOSE) == 0,
        user_op_flag(ld, hd, opcodes::CHOOSE2) == 0,
        user_op_flag(ld, hd, opcodes::CSWAP2) == 0,
        user_op_flag(ld, hd, opcodes::PUSH) == 0,
        user_op_flag(ld, hd, opcodes::CMP) == 0,
        user_op_flag(ld, hd, opcodes::RESCR) == 0,
{
    assert(bit_sel(1, false) == 0) by {
        assert(spec_binary_not(1) == 0);
    }
    assert(bit_sel(1, true) == 1);
    assert(bit_sel(0, true) == 0);
    assert(bit_sel(0, false) == 1) by {
        assert(spec_binary_not(0) == 1) by {
            vstd::arithmetic::div_mod::lemma_small_mod(1, MODULUS as nat);
        }
    }
    assert forall|x: int| #[trigger] f_mul(x, 0) == 0 by {
        assert(x * 0 == 0);
    }
    assert forall|x: int| #[trigger] f_mul(0, x) == 0 by {
        assert(0 * x == 0);
    }
    assert(f_mul(1, 1) == 1) by {
        vstd::arithmetic::div_mod::lemma_small_mod(1, MODULUS as nat);
    }
}

/// With the operation bits of NOT, the flag of every other user operation is zero.
#[verifier::spinoff_prover]
proof fn lemma_not_flags(ld: Seq<u128>, hd: Seq<u128>)
    requires
        ld == seq![0u128, 1, 0, 0, 1],
        hd == seq![1u128, 1],
    ensures
        user_op_flag(ld, hd, opcodes::ADD) == 0,
        user_op_flag(ld, hd, opcodes::BEGIN) == 0,
        user_op_flag(ld, hd, opcodes::NOOP) == 0,
        user_op_flag(ld, hd, opcodes::ASSERT) == 0,
        user_op_flag(ld, hd, opcodes::ASSERTEQ) == 0,
        user_op_flag(ld, hd, opcodes::READ) == 0,
        user_op_flag(ld, hd, opcodes::READ2) == 0,
        user_op_flag(ld, hd, opcodes::DUP) == 0,
        user_op_flag(ld, hd, opcodes::DUP2) == 0,
        user_op_flag(ld, hd, opcodes::DUP4) == 0,
        user_op_flag(ld, hd, opcodes::PAD2) == 0,
        user_op_flag(ld, hd, opcodes::DROP) == 0,
        user_op_flag(ld, hd, opcodes::DROP4) == 0,
        user_op_flag(ld, hd, opcodes::SWAP) == 0,
        user_op_flag(ld, hd, opcodes::SWAP2) == 0,
        user_op_flag(ld, hd, opcodes::SWAP4) == 0,
        user_op_flag(ld, hd, opcodes::ROLL4) == 0,
        user_op_flag(ld, hd, opcodes::ROLL8) == 0,
        user_op_flag(ld, hd, opcodes::MUL) == 0,
        user_op_flag(ld, hd, opcodes::INV) == 0,
        user_op_flag(ld, hd, opcodes::NEG) == 0,
        user_op_flag(ld, hd, opcodes::NOT) == 1,
        user_op_flag(ld, hd, opcodes::AND) == 0,
        user_op_flag(ld, hd, opcodes::OR) == 0,
        user_op_flag(ld, hd, opcodes::EQ) == 0,
        user_op_flag(ld, hd, opcodes::BINACC) == 0,
        user_op_flag(ld, hd, opcodes::CHOOSE) == 0,
        user_op_flag(ld, hd, opcodes::CHOOSE2) == 0,
        user_op_flag(ld, hd, opcodes::CSWAP2) == 0,
        user_op_flag(ld, hd, opcodes::PUSH) == 0,
        user_op_flag(ld, hd, opcodes::CMP) == 0,
        user_op_flag(ld, hd, opcodes::RESCR) == 0,
{
    assert(bit_sel(1, false) == 0) by {
        assert(spec_binary_not(1) == 0);
    }
    assert(bit_sel(1, true) == 1);
    assert(bit_sel(0, true) == 0);
    assert(bit_sel(0, false) == 1) by {
        assert(spec_binary_not(0) == 1) by {
            vstd::arithmetic::div_mod::lemma_small_mod(1, MODULUS as nat);
        }
    }
    assert forall|x: int| #[trigger] f_mul(x, 0) == 0 by {
        assert(x * 0 == 0);
    }
    assert forall|x: int| #[trigger] f_mul(0, x) == 0 by {
        assert(0 * x == 0);
    }
    assert(f_mul(1, 1) == 1) by {
        vstd::arithmetic::div_mod::lemma_small_mod(1, MODULUS as nat);
    }
}

/// With the operation bits of AND, the flag of every other user operation is zero.
#[verifier::spinoff_prover]
proof fn lemma_and_flags(ld: Seq<u128>, hd: Seq<u128>)
    requires
        ld == seq![0u128, 0, 0, 0, 1],
        hd == seq![1u128, 1],
    ensures
        user_op_flag(ld, hd, opcodes::ADD) == 0,
        user_op_flag(ld, hd, opcodes::BEGIN) == 0,
        user_op_flag(ld, hd, opcodes::NOOP) == 0,
        user_op_flag(ld, hd, opcodes::ASSERT) == 0,
        user_op_flag(ld, hd, opcodes::ASSERTEQ) == 0,
        user_op_flag(ld, hd, opcodes::READ) == 0,
        user_op_flag(ld, hd, opcodes::READ2) == 0,
        user_op_flag(ld, hd, opcodes::DUP) == 0,
        user_op_flag(ld, hd, opcodes::DUP2) == 0,
        user_op_flag(ld, hd, opcodes::DUP4) == 0,
        user_op_flag(ld, hd, opcodes::PAD2) == 0,
        user_op_flag(ld, hd, opcodes::DROP) == 0,
        user_op_flag(ld, hd, opcodes::DROP4) == 0,
        user_op_flag(ld, hd, opcodes::SWAP) == 0,
        user_op_flag(ld, hd, opcodes::SWAP2) == 0,
        user_op_flag(ld, hd, opcodes::SWAP4) == 0,
        user_op_flag(ld, hd, opcodes::ROLL4) == 0,
        user_op_flag(ld, hd, opcodes::ROLL8) == 0,
        user_op_flag(ld, hd, opcodes::MUL) == 0,
        user_op_flag(ld, hd, opcodes::INV) == 0,
        user_op_flag(ld, hd, opcodes::NEG) == 0,
        user_op_flag(ld, hd, opcodes::NOT) == 0,
        user_op_flag(ld, hd, opcodes::AND) == 1,
        user_op_flag(ld, hd, opcodes::OR) == 0,
        user_op_flag(ld, hd, opcodes::EQ) == 0,
        user_op_flag(ld, hd, opcodes::BINACC) == 0,
        user_op_flag(ld, hd, opcodes::CHOOSE) == 0,
        user_op_flag(ld, hd, opcodes::CHOOSE2) == 0,
        user_op_flag(ld, hd, opcodes::CSWAP2) == 0,
        user_op_flag(ld, hd, opcodes::PUSH) == 0,
        user_op_flag(ld, hd, opcodes::CMP) == 0,
        user_op_flag(ld, hd, opcodes::RESCR) == 0,
{
    assert(bit_sel(1, false) == 0) by {
        assert(spec_binary_not(1) == 0);
    }
    assert(bit_sel(1, true) == 1);
    assert(bit_sel(0, true) == 0);
    assert(bit_sel(0, false) == 1) by {
        assert(spec_binary_not(0) == 1) by {
            vstd::arithmetic::div_mod::lemma_small_mod(1, MODULUS as nat);
        }
    }
    assert forall|x: int| #[trigger] f_mul(x, 0) == 0 by {
        assert(x * 0 == 0);
    }
    assert forall|x: int| #[trigger] f_mul(0, x) == 0 by {
        assert(0 * x == 0);
    }
    assert(f_mul(1, 1) == 1) by {
        vstd::arithmetic::div_mod::lemma_small_mod(1, MODULUS as nat);
    }
}

/// With the operation bits of OR, the flag of every other user operation is zero.
#[verifier::spinoff_prover]
proof fn lemma_or_flags(ld: Seq<u128>, hd: Seq<u128>)
    requires
        ld == seq![1u128, 0, 0, 0, 1],
        hd == seq![1u128, 1],
    ensures
        user_op_flag(ld, hd, opcodes::ADD) == 0,
        user_op_flag(ld, hd, opcodes::BEGIN) == 0,
        user_op_flag(ld, hd, opcodes::NOOP) == 0,
        user_op_flag(ld, hd, opcodes::ASSERT) == 0,
        user_op_flag(ld, hd, opcodes::ASSERTEQ) == 0,
        user_op_flag(ld, hd, opcodes::READ) == 0,
        user_op_flag(ld, hd, opcodes::READ2) == 0,
        user_op_flag(ld, hd, opcodes::DUP) == 0,
        user_op_flag(ld, hd, opcodes::DUP2) == 0,
        user_op_flag(ld, hd, opcodes::DUP4) == 0,
        user_op_flag(ld, hd, opcodes::PAD2) == 0,
        user_op_flag(ld, hd, opcodes::DROP) == 0,
        user_op_flag(ld, hd, opcodes::DROP4) == 0,
        user_op_flag(ld, hd, opcodes::SWAP) == 0,
        user_op_flag(ld, hd, opcodes::SWAP2) == 0,
        user_op_flag(ld, hd, opcodes::SWAP4) == 0,
        user_op_flag(ld, hd, opcodes::ROLL4) == 0,
        user_op_flag(ld, hd, opcodes::ROLL8) == 0,
        user_op_flag(ld, hd, opcodes::MUL) == 0,
        user_op_flag(ld, hd, opcodes::INV) == 0,
        user_op_flag(ld, hd, opcodes::NEG) == 0,
        user_op_flag(ld, hd, opcodes::NOT) == 0,
        user_op_flag(ld, hd, opcodes::AND) == 0,
        user_op_flag(ld, hd, opcodes::OR) == 1,
        user_op_flag(ld, hd, opcodes::EQ) == 0,
        user_op_flag(ld, hd, opcodes::BINACC) == 0,
        user_op_flag(ld, hd, opcodes::CHOOSE) == 0,
        user_op_flag(ld, hd, opcodes::CHOOSE2) == 0,
        user_op_flag(ld, hd, opcodes::CSWAP2) == 0,
        user_op_flag(ld, hd, opcodes::PUSH) == 0,
        user_op_flag(ld, hd, opcodes::CMP) == 0,
        user_op_flag(ld, hd, opcodes::RESCR) == 0,
{
    assert(bit_sel(1, false) == 0) by {
        assert(spec_binary_not(1) == 0);
    }
    assert(bit_sel(1, true) == 1);
    assert(bit_sel(0, true) == 0);
    assert(bit_sel(0, false) == 1) by {
        assert(spec_binary_not(0) == 1) by {
            vstd::arithmetic::div_mod::lemma_small_mod(1, MODULUS as nat);
        }
    }
    assert forall|x: int| #[trigger] f_mul(x, 0) == 0 by {
        assert(x * 0 == 0);
    }
    assert forall|x: int| #[trigger] f_mul(0, x) == 0 by {
        assert(0 * x == 0);
    }
    assert(f_mul(1, 1) == 1) by {
        vstd::arithmetic::div_mod::lemma_small_mod(1, MODULUS as nat);
    }
}

/// With the operation bits of DUP2, the flag of every other user operation is zero.
#[verifier::spinoff_prover]
proof fn lemma_dup2_flags(ld: Seq<u128>, hd: Seq<u128>)
    requires
        ld == seq![0u128, 1, 1, 0, 0],
        hd == seq![1u128, 1],
    ensures
        user_op_flag(ld, hd, opcodes::ADD) == 0,
        user_op_flag(ld, hd, opcodes::BEGIN) == 0,
        user_op_flag(ld, hd, opcodes::NOOP) == 0,
        user_op_flag(ld, hd, opcodes::ASSERT) == 0,
        user_op_flag(ld, hd, opcodes::ASSERTEQ) == 0,
        user_op_flag(ld, hd, opcodes::READ) == 0,
        user_op_flag(ld, hd, opcodes::READ2) == 0,
        user_op_flag(ld, hd, opcodes::DUP) == 0,
        user_op_flag(ld, hd, opcodes::DUP2) == 1,
        user_op_flag(ld, hd, opcodes::DUP4) == 0,
        user_op_flag(ld, hd, opcodes::PAD2) == 0,
        user_op_flag(ld, hd, opcodes::DROP) == 0,
        user_op_flag(ld, hd, opcodes::DROP4) == 0,
        user_op_flag(ld, hd, opcodes::SWAP) == 0,
        user_op_flag(ld, hd, opcodes::SWAP2) == 0,
        user_op_flag(ld, hd, opcodes::SWAP4) == 0,
        user_op_flag(ld, hd, opcodes::ROLL4) == 0,
        user_op_flag(ld, hd, opcodes::ROLL8) == 0,
        user_op_flag(ld, hd, opcodes::MUL) == 0,
        user_op_flag(ld, hd, opcodes::INV) == 0,
        user_op_flag(ld, hd, opcodes::NEG) == 0,
        user_op_flag(ld, hd, opcodes::NOT) == 0,
        user_op_flag(ld, hd, opcodes::AND) == 0,
        user_op_flag(ld, hd, opcodes::OR) == 0,
        user_op_flag(ld, hd, opcodes::EQ) == 0,
        user_op_flag(ld, hd, opcodes::BINACC) == 0,
        user_op_flag(ld, hd, opcodes::CHOOSE) == 0,
        user_op_flag(ld, hd, opcodes::CHOOSE2) == 0,
        user_op_flag(ld, hd, opcodes::CSWAP2) == 0,
        user_op_flag(ld, hd, opcodes::PUSH) == 0,
        user_op_flag(ld, hd, opcodes::CMP) == 0,
        user_op_flag(ld, hd, opcodes::RESCR) == 0,
{
    assert(bit_sel(1, false) == 0) by {
        assert(spec_binary_not(1) == 0);
    }
    assert(bit_sel(1, true) == 1);
    assert(bit_sel(0, true) == 0);
    assert(bit_sel(0, false) == 1) by {
        assert(spec_binary_not(0) == 1) by {
            vstd::arithmetic::div_mod::lemma_small_mod(1, MODULUS as nat);
        }
    }
    assert forall|x: int| #[trigger] f_mul(x, 0) == 0 by {
        assert(x * 0 == 0);
    }
    assert forall|x: int| #[trigger] f_mul(0, x) == 0 by {
        assert(0 * x == 0);
    }
    assert(f_mul(1, 1) == 1) by {
        vstd::arithmetic::div_mod::lemma_small_mod(1, MODULUS as nat);
    }
}

/// With the operation bits of DUP4, the flag of every other user operation is zero.
#[verifier::spinoff_prover]
proof fn lemma_dup4_flags(ld: Seq<u128>, hd: Seq<u128>)
    requires
        ld == seq![1u128, 1, 1, 0, 0],
        hd == seq![1u128, 1],
    ensures
        user_op_flag(ld, hd, opcodes::ADD) == 0,
        user_op_flag(ld, hd, opcodes::BEGIN) == 0,
        user_op_flag(ld, hd, opcodes::NOOP) == 0,
        user_op_flag(ld, hd, opcodes::ASSERT) == 0,
        user_op_flag(ld, hd, opcodes::ASSERTEQ) == 0,
        user_op_flag(ld, hd, opcodes::READ) == 0,
        user_op_flag(ld, hd, opcodes::READ2) == 0,
        user_op_flag(ld, hd, opcodes::DUP) == 0,
        user_op_flag(ld, hd, opcodes::DUP2) == 0,
        user_op_flag(ld, hd, opcodes::DUP4) == 1,
        user_op_flag(ld, hd, opcodes::PAD2) == 0,
        user_op_flag(ld, hd, opcodes::DROP) == 0,
        user_op_flag(ld, hd, opcodes::DROP4) == 0,
        user_op_flag(ld, hd, opcodes::SWAP) == 0,
        user_op_flag(ld, hd, opcodes::SWAP2) == 0,
        user_op_flag(ld, hd, opcodes::SWAP4) == 0,
        user_op_flag(ld, hd, opcodes::ROLL4) == 0,
        user_op_flag(ld, hd, opcodes::ROLL8) == 0,
        user_op_flag(ld, hd, opcodes::MUL) == 0,
        user_op_flag(ld, hd, opcodes::INV) == 0,
        user_op_flag(ld, hd, opcodes::NEG) == 0,
        user_op_flag(ld, hd, opcodes::NOT) == 0,
        user_op_flag(ld, hd, opcodes::AND) == 0,
        user_op_flag(ld, hd, opcodes::OR) == 0,
        user_op_flag(ld, hd, opcodes::EQ) == 0,
        user_op_flag(ld, hd, opcodes::BINACC) == 0,
        user_op_flag(ld, hd, opcodes::CHOOSE) == 0,
        user_op_flag(ld, hd, opcodes::CHOOSE2) == 0,
        user_op_flag(ld, hd, opcodes::CSWAP2) == 0,
        user_op_flag(ld, hd, opcodes::PUSH) == 0,
        user_op_flag(ld, hd, opcodes::CMP) == 0,
        user_op_flag(ld, hd, opcodes::RESCR) == 0,
{
    assert(bit_sel(1, false) == 0) by {
        assert(spec_binary_not(1) == 0);
    }
    assert(bit_sel(1, true) == 1);
    assert(bit_sel(0, true) == 0);
    assert(bit_sel(0, false) == 1) by {
        assert(spec_binary_not(0) == 1) by {
            vstd::arithmetic::div_mod::lemma_small_mod(1, MODULUS as nat);
        }
    }
    assert forall|x: int| #[trigger] f_mul(x, 0) == 0 by {
        assert(x * 0 == 0);
    }
    assert forall|x: int| #[trigger] f_mul(0, x) == 0 by {
        assert(0 * x == 0);
    }
    assert(f_mul(1, 1) == 1) by {
        vstd::arithmetic::div_mod::lemma_small_mod(1, MODULUS as nat);
    }
}

/// With the operation bits of DROP4, the flag of every other user operation is zero.
#[verifier::spinoff_prover]
proof fn lemma_drop4_flags(ld: Seq<u128>, hd: Seq<u128>)
    requires
        ld == seq![0u128, 1, 0, 1, 0],
        hd == seq![1u128, 1],
    ensures
        user_op_flag(ld, hd, opcodes::ADD) == 0,
        user_op_flag(ld, hd, opcodes::BEGIN) == 0,
        user_op_flag(ld, hd, opcodes::NOOP) == 0,
        user_op_flag(ld, hd, opcodes::ASSERT) == 0,
        user_op_flag(ld, hd, opcodes::ASSERTEQ) == 0,
        user_op_flag(ld, hd, opcodes::READ) == 0,
        user_op_flag(ld, hd, opcodes::READ2) == 0,
        user_op_flag(ld, hd, opcodes::DUP) == 0,
        user_op_flag(ld, hd, opcodes::DUP2) == 0,
        user_op_flag(ld, hd, opcodes::DUP4) == 0,
        user_op_flag(ld, hd, opcodes::PAD2) == 0,
        user_op_flag(ld, hd, opcodes::DROP) == 0,
        user_op_flag(ld, hd, opcodes::DROP4) == 1,
        user_op_flag(ld, hd, opcodes::SWAP) == 0,
        user_op_flag(ld, hd, opcodes::SWAP2) == 0,
        user_op_flag(ld, hd, opcodes::SWAP4) == 0,
        user_op_flag(ld, hd, opcodes::ROLL4) == 0,
        user_op_flag(ld, hd, opcodes::ROLL8) == 0,
        user_op_flag(ld, hd, opcodes::MUL) == 0,
        user_op_flag(ld, hd, opcodes::INV) == 0,
        user_op_flag(ld, hd, opcodes::NEG) == 0,
        user_op_flag(ld, hd, opcodes::NOT) == 0,
        user_op_flag(ld, hd, opcodes::AND) == 0,
        user_op_flag(ld, hd, opcodes::OR) == 0,
        user_op_flag(ld, hd, opcodes::EQ) == 0,
        user_op_flag(ld, hd, opcodes::BINACC) == 0,
        user_op_flag(ld, hd, opcodes::CHOOSE) == 0,
        user_op_flag(ld, hd, opcodes::CHOOSE2) == 0,
        user_op_flag(ld, hd, opcodes::CSWAP2) == 0,
        user_op_flag(ld, hd, opcodes::PUSH) == 0,
        user_op_flag(ld, hd, opcodes::CMP) == 0,
        user_op_flag(ld, hd, opcodes::RESCR) == 0,
{
    assert(bit_sel(1, false) == 0) by {
        assert(spec_binary_not(1) == 0);
    }
    assert(bit_sel(1, true) == 1);
    assert(bit_sel(0, true) == 0);
    assert(bit_sel(0, false) == 1) by {
        assert(spec_binary_not(0) == 1) by {
            vstd::arithmetic::div_mod::lemma_small_mod(1, MODULUS as nat);
        }
    }
    assert forall|x: int| #[trigger] f_mul(x, 0) == 0 by {
        assert(x * 0 == 0);
    }
    assert forall|x: int| #[trigger] f_mul(0, x) == 0 by {
        assert(0 * x == 0);
    }
    assert(f_mul(1, 1) == 1) by {
        vstd::arithmetic::div_mod::lemma_small_mod(1, MODULUS as nat);
    }
}

/// With the operation bits of SWAP2, the flag of every other user operation is zero.
#[verifier::spinoff_prover]
proof fn lemma_swap2_flags(ld: Seq<u128>, hd: Seq<u128>)
    requires
        ld == seq![0u128, 0, 1, 1, 0],
        hd == seq![1u128, 1],
    ensures
        user_op_flag(ld, hd, opcodes::ADD) == 0,
        user_op_flag(ld, hd, opcodes::BEGIN) == 0,
        user_op_flag(ld, hd, opcodes::NOOP) == 0,
        user_op_flag(ld, hd, opcodes::ASSERT) == 0,
        user_op_flag(ld, hd, opcodes::ASSERTEQ) == 0,
        user_op_flag(ld, hd, opcodes::READ) == 0,
        user_op_flag(ld, hd, opcodes::READ2) == 0,
        user_op_flag(ld, hd, opcodes::DUP) == 0,
        user_op_flag(ld, hd, opcodes::DUP2) == 0,
        user_op_flag(ld, hd, opcodes::DUP4) == 0,
        user_op_flag(ld, hd, opcodes::PAD2) == 0,
        user_op_flag(ld, hd, opcodes::DROP) == 0,
        user_op_flag(ld, hd, opcodes::DROP4) == 0,
        user_op_flag(ld, hd, opcodes::SWAP) == 0,
        user_op_flag(ld, hd, opcodes::SWAP2) == 1,
        user_op_flag(ld, hd, opcodes::SWAP4) == 0,
        user_op_flag(ld, hd, opcodes::ROLL4) == 0,
        user_op_flag(ld, hd, opcodes::ROLL8) == 0,
        user_op_flag(ld, hd, opcodes::MUL) == 0,
        user_op_flag(ld, hd, opcodes::INV) == 0,
        user_op_flag(ld, hd, opcodes::NEG) == 0,
        user_op_flag(ld, hd, opcodes::NOT) == 0,
        user_op_flag(ld, hd, opcodes::AND) == 0,
        user_op_flag(ld, hd, opcodes::OR) == 0,
        user_op_flag(ld, hd, opcodes::EQ) == 0,
        user_op_flag(ld, hd, opcodes::BINACC) == 0,
        user_op_flag(ld, hd, opcodes::CHOOSE) == 0,
        user_op_flag(ld, hd, opcodes::CHOOSE2) == 0,
        user_op_flag(ld, hd, opcodes::CSWAP2) == 0,
        user_op_flag(ld, hd, opcodes::PUSH) == 0,
        user_op_flag(ld, hd, opcodes::CMP) == 0,
        user_op_flag(ld, hd, opcodes::RESCR) == 0,
{
    assert(bit_sel(1, false) == 0) by {
        assert(spec_binary_not(1) == 0);
    }
    assert(bit_sel(1, true) == 1);
    assert(bit_sel(0, true) == 0);
    assert(bit_sel(0, false) == 1) by {
        assert(spec_binary_not(0) == 1) by {
            vstd::arithmetic::div_mod::lemma_small_mod(1, MODULUS as nat);
        }
    }
    assert forall|x: int| #[trigger] f_mul(x, 0) == 0 by {
        assert(x * 0 == 0);
    }
    assert forall|x: int| #[trigger] f_mul(0, x) == 0 by {
        assert(0 * x == 0);
    }
    assert(f_mul(1, 1) == 1) by {
        vstd::arithmetic::div_mod::lemma_small_mod(1, MODULUS as nat);
    }
}

/// With the operation bits of SWAP4, the flag of every other user operation is zero.
#[verifier::spinoff_prover]
proof fn lemma_swap4_flags(ld: Seq<u128>, hd: Seq<u128>)
    requires
        ld == seq![1u128, 0, 1, 1, 0],
        hd == seq![1u128, 1],
    ensures
        user_op_flag(ld, hd, opcodes::ADD) == 0,
        user_op_flag(ld, hd, opcodes::BEGIN) == 0,
        user_op_flag(ld, hd, opcodes::NOOP) == 0,
        user_op_flag(ld, hd, opcodes::ASSERT) == 0,
        user_op_flag(ld, hd, opcodes::ASSERTEQ) == 0,
        user_op_flag(ld, hd, opcodes::READ) == 0,
        user_op_flag(ld, hd, opcodes::READ2) == 0,
        user_op_flag(ld, hd, opcodes::DUP) == 0,
        user_op_flag(ld, hd, opcodes::DUP2) == 0,
        user_op_flag(ld, hd, opcodes::DUP4) == 0,
        user_op_flag(ld, hd, opcodes::PAD2) == 0,
        user_op_flag(ld, hd, opcodes::DROP) == 0,
        user_op_flag(ld, hd, opcodes::DROP4) == 0,
        user_op_flag(ld, hd, opcodes::SWAP) == 0,
        user_op_flag(ld, hd, opcodes::SWAP2) == 0,
        user_op_flag(ld, hd, opcodes::SWAP4) == 1,
        user_op_flag(ld, hd, opcodes::ROLL4) == 0,
        user_op_flag(ld, hd, opcodes::ROLL8) == 0,
        user_op_flag(ld, hd, opcodes::MUL) == 0,
        user_op_flag(ld, hd, opcodes::INV) == 0,
        user_op_flag(ld, hd, opcodes::NEG) == 0,
        user_op_flag(ld, hd, opcodes::NOT) == 0,
        user_op_flag(ld, hd, opcodes::AND) == 0,
        user_op_flag(ld, hd, opcodes::OR) == 0,
        user_op_flag(ld, hd, opcodes::EQ) == 0,
        user_op_flag(ld, hd, opcodes::BINACC) == 0,
        user_op_flag(ld, hd, opcodes::CHOOSE) == 0,
        user_op_flag(ld, hd, opcodes::CHOOSE2) == 0,
        user_op_flag(ld, hd, opcodes::CSWAP2) == 0,
        user_op_flag(ld, hd, opcodes::PUSH) == 0,
        user_op_flag(ld, hd, opcodes::CMP) == 0,
        user_op_flag(ld, hd, opcodes::RESCR) == 0,
{
    assert(bit_sel(1, false) == 0) by {
        assert(spec_binary_not(1) == 0);
    }
    assert(bit_sel(1, true) == 1);
    assert(bit_sel(0, true) == 0);
    assert(bit_sel(0, false) == 1) by {
        assert(spec_binary_not(0) == 1) by {
            vstd::arithmetic::div_mod::lemma_small_mod(1, MODULUS as nat);
        }
    }
    assert forall|x: int| #[trigger] f_mul(x, 0) == 0 by {
        assert(x * 0 == 0);
    }
    assert forall|x: int| #[trigger] f_mul(0, x) == 0 by {
        assert(0 * x == 0);
    }
    assert(f_mul(1, 1) == 1) by {
        vstd::arithmetic::div_mod::lemma_small_mod(1, MODULUS as nat);
    }
}

/// With the operation bits of ROLL4, the flag of every other user operation is zero.
#[verifier::spinoff_prover]
proof fn lemma_roll4_flags(ld: Seq<u128>, hd: Seq<u128>)
    requires
        ld == seq![0u128, 1, 1, 1, 0],
        hd == seq![1u128, 1],
    ensures
        user_op_flag(ld, hd, opcodes::ADD) == 0,
        user_op_flag(ld, hd, opcodes::BEGIN) == 0,
        user_op_flag(ld, hd, opcodes::NOOP) == 0,
        user_op_flag(ld, hd, opcodes::ASSERT) == 0,
        user_op_flag(ld, hd, opcodes::ASSERTEQ) == 0,
        user_op_flag(ld, hd, opcodes::READ) == 0,
        user_op_flag(ld, hd, opcodes::READ2) == 0,
        user_op_flag(ld, hd, opcodes::DUP) == 0,
        user_op_flag(ld, hd, opcodes::DUP2) == 0,
        user_op_flag(ld, hd, opcodes::DUP4) == 0,
        user_op_flag(ld, hd, opcodes::PAD2) == 0,
        user_op_flag(ld, hd, opcodes::DROP) == 0,
        user_op_flag(ld, hd, opcodes::DROP4) == 0,
        user_op_flag(ld, hd, opcodes::SWAP) == 0,
        user_op_flag(ld, hd, opcodes::SWAP2) == 0,
        user_op_flag(ld, hd, opcodes::SWAP4) == 0,
        user_op_flag(ld, hd, opcodes::ROLL4) == 1,
        user_op_flag(ld, hd, opcodes::ROLL8) == 0,
        user_op_flag(ld, hd, opcodes::MUL) == 0,
        user_op_flag(ld, hd, opcodes::INV) == 0,
        user_op_flag(ld, hd, opcodes::NEG) == 0,
        user_op_flag(ld, hd, opcodes::NOT) == 0,
        user_op_flag(ld, hd, opcodes::AND) == 0,
        user_op_flag(ld, hd, opcodes::OR) == 0,
        user_op_flag(ld, hd, opcodes::EQ) == 0,
        user_op_flag(ld, hd, opcodes::BINACC) == 0,
        user_op_flag(ld, hd, opcodes::CHOOSE) == 0,
        user_op_flag(ld, hd, opcodes::CHOOSE2) == 0,
        user_op_flag(ld, hd, opcodes::CSWAP2) == 0,
        user_op_flag(ld, hd, opcodes::PUSH) == 0,
        user_op_flag(ld, hd, opcodes::CMP) == 0,
        user_op_flag(ld, hd, opcodes::RESCR) == 0,
{
    assert(bit_sel(1, false) == 0) by {
        assert(spec_binary_not(1) == 0);
    }
    assert(bit_sel(1, true) == 1);
    assert(bit_sel(0, true) == 0);
    assert(bit_sel(0, false) == 1) by {
        assert(spec_binary_not(0) == 1) by {
            vstd::arithmetic::div_mod::lemma_small_mod(1, MODULUS as nat);
        }
    }
    assert forall|x: int| #[trigger] f_mul(x, 0) == 0 by {
        assert(x * 0 == 0);
    }
    assert forall|x: int| #[trigger] f_mul(0, x) == 0 by {
        assert(0 * x == 0);
    }
    assert(f_mul(1, 1) == 1) by {
        vstd::arithmetic::div_mod::lemma_small_mod(1, MODULUS as nat);
    }
}

/// With the operation bits of ROLL8, the flag of every other user operation is zero.
#[verifier::spinoff_prover]
proof fn lemma_roll8_flags(ld: Seq<u128>, hd: Seq<u128>)
    requires
        ld == seq![1u128, 1, 1, 1, 0],
        hd == seq![1u128, 1],
    ensures
        user_op_flag(ld, hd, opcodes::ADD) == 0,
        user_op_flag(ld, hd, opcodes::BEGIN) == 0,
        user_op_flag(ld, hd, opcodes::NOOP) == 0,
        user_op_flag(ld, hd, opcodes::ASSERT) == 0,
        user_op_flag(ld, hd, opcodes::ASSERTEQ) == 0,
        user_op_flag(ld, hd, opcodes::READ) == 0,
        user_op_flag(ld, hd, opcodes::READ2) == 0,
        user_op_flag(ld, hd, opcodes::DUP) == 0,
        user_op_flag(ld, hd, opcodes::DUP2) == 0,
        user_op_flag(ld, hd, opcodes::DUP4) == 0,
        user_op_flag(ld, hd, opcodes::PAD2) == 0,
        user_op_flag(ld, hd, opcodes::DROP) == 0,
        user_op_flag(ld, hd, opcodes::DROP4) == 0,
        user_op_flag(ld, hd, opcodes::SWAP) == 0,
        user_op_flag(ld, hd, opcodes::SWAP2) == 0,
        user_op_flag(ld, hd, opcodes::SWAP4) == 0,
        user_op_flag(ld, hd, opcodes::ROLL4) == 0,
        user_op_flag(ld, hd, opcodes::ROLL8) == 1,
        user_op_flag(ld, hd, opcodes::MUL) == 0,
        user_op_flag(ld, hd, opcodes::INV) == 0,
        user_op_flag(ld, hd, opcodes::NEG) == 0,
        user_op_flag(ld, hd, opcodes::NOT) == 0,
        user_op_flag(ld, hd, opcodes::AND) == 0,
        user_op_flag(ld, hd, opcodes::OR) == 0,
        user_op_flag(ld, hd, opcodes::EQ) == 0,
        user_op_flag(ld, hd, opcodes::BINACC) == 0,
        user_op_flag(ld, hd, opcodes::CHOOSE) == 0,
        user_op_flag(ld, hd, opcodes::CHOOSE2) == 0,
        user_op_flag(ld, hd, opcodes::CSWAP2) == 0,
        user_op_flag(ld, hd, opcodes::PUSH) == 0,
        user_op_flag(ld, hd, opcodes::CMP) == 0,
        user_op_flag(ld, hd, opcodes::RESCR) == 0,
{
    assert(bit_sel(1, false) == 0) by {
        assert(spec_binary_not(1) == 0);
    }
    assert(bit_sel(1, true) == 1);
    assert(bit_sel(0, true) == 0);
    assert(bit_sel(0, false) == 1) by {
        assert(spec_binary_not(0) == 1) by {
            vstd::arithmetic::div_mod::lemma_small_mod(1, MODULUS as nat);
        }
    }
    assert forall|x: int| #[trigger] f_mul(x, 0) == 0 by {
        assert(x * 0 == 0);
    }
    assert forall|x: int| #[trigger] f_mul(0, x) == 0 by {
        assert(0 * x == 0);
    }
    assert(f_mul(1, 1) == 1) by {
        vstd::arithmetic::div_mod::lemma_small_mod(1, MODULUS as nat);
    }
}

/// With the operation bits of SWAP, the flag of every other user operation is zero.
#[verifier::spinoff_prover]
proof fn lemma_swap_flags(ld: Seq<u128>, hd: Seq<u128>)
    requires
        ld == seq![1u128, 1, 0, 1, 0],
        hd == seq![1u128, 1],
    ensures
        user_op_flag(ld, hd, opcodes::ADD) == 0,
        user_op_flag(ld, hd, opcodes::BEGIN) == 0,
        user_op_flag(ld, hd, opcodes::NOOP) == 0,
        user_op_flag(ld, hd, opcodes::ASSERT) == 0,
        user_op_flag(ld, hd, opcodes::ASSERTEQ) == 0,
        user_op_flag(ld, hd, opcodes::READ) == 0,
        user_op_flag(ld, hd, opcodes::READ2) == 0,
        user_op_flag(ld, hd, opcodes::DUP) == 0,
        user_op_flag(ld, hd, opcodes::DUP2) == 0,
        user_op_flag(ld, hd, opcodes::DUP4) == 0,
        user_op_flag(ld, hd, opcodes::PAD2) == 0,
        user_op_flag(ld, hd, opcodes::DROP) == 0,
        user_op_flag(ld, hd, opcodes::DROP4) == 0,
        user_op_flag(ld, hd, opcodes::SWAP) == 1,
        user_op_flag(ld, hd, opcodes::SWAP2) == 0,
        user_op_flag(ld, hd, opcodes::SWAP4) == 0,
        user_op_flag(ld, hd, opcodes::ROLL4) == 0,
        user_op_flag(ld, hd, opcodes::ROLL8) == 0,
        user_op_flag(ld, hd, opcodes::MUL) == 0,
        user_op_flag(ld, hd, opcodes::INV) == 0,
        user_op_flag(ld, hd, opcodes::NEG) == 0,
        user_op_flag(ld, hd, opcodes::NOT) == 0,
        user_op_flag(ld, hd, opcodes::AND) == 0,
        user_op_flag(ld, hd, opcodes::OR) == 0,
        user_op_flag(ld, hd, opcodes::EQ) == 0,
        user_op_flag(ld, hd, opcodes::BINACC) == 0,
        user_op_flag(ld, hd, opcodes::CHOOSE) == 0,
        user_op_flag(ld, hd, opcodes::CHOOSE2) == 0,
        user_op_flag(ld, hd, opcodes::CSWAP2) == 0,
        user_op_flag(ld, hd, opcodes::PUSH) == 0,
        user_op_flag(ld, hd, opcodes::CMP) == 0,
        user_op_flag(ld, hd, opcodes::RESCR) == 0,
{
    assert(bit_sel(1, false) == 0) by {
        assert(spec_binary_not(1) == 0);
    }
    assert(bit_sel(1, true) == 1);
    assert(bit_sel(0, true) == 0);
    assert(bit_sel(0, false) == 1) by {
        assert(spec_binary_not(0) == 1) by {
            vstd::arithmetic::div_mod::lemma_small_mod(1, MODULUS as nat);
        }
    }
    assert forall|x: int| #[trigger] f_mul(x, 0) == 0 by {
        assert(x * 0 == 0);
    }
    assert forall|x: int| #[trigger] f_mul(0, x) == 0 by {
        assert(0 * x == 0);
    }
    assert(f_mul(1, 1) == 1) by {
        vstd::arithmetic::div_mod::lemma_small_mod(1, MODULUS as nat);
    }
}

/// With the operation bits of DUP, the flag of every other user operation is zero.
#[verifier::spinoff_prover]
proof fn lemma_dup_flags(ld: Seq<u128>, hd: Seq<u128>)
    requires
        ld == seq![1u128, 0, 1, 0, 0],
        hd == seq![1u128, 1],
    ensures
        user_op_flag(ld, hd, opcodes::ADD) == 0,
        user_op_flag(ld, hd, opcodes::BEGIN) == 0,
        user_op_flag(ld, hd, opcodes::NOOP) == 0,
        user_op_flag(ld, hd, opcodes::ASSERT) == 0,
        user_op_flag(ld, hd, opcodes::ASSERTEQ) == 0,
        user_op_flag(ld, hd, opcodes::READ) == 0,
        user_op_flag(ld, hd, opcodes::READ2) == 0,
        user_op_flag(ld, hd, opcodes::DUP) == 1,
        user_op_flag(ld, hd, opcodes::DUP2) == 0,
        user_op_flag(ld, hd, opcodes::DUP4) == 0,
        user_op_flag(ld, hd, opcodes::PAD2) == 0,
        user_op_flag(ld, hd, opcodes::DROP) == 0,
        user_op_flag(ld, hd, opcodes::DROP4) == 0,
        user_op_flag(ld, hd, opcodes::SWAP) == 0,
        user_op_flag(ld, hd, opcodes::SWAP2) == 0,
        user_op_flag(ld, hd, opcodes::SWAP4) == 0,
        user_op_flag(ld, hd, opcodes::ROLL4) == 0,
        user_op_flag(ld, hd, opcodes::ROLL8) == 0,
        user_op_flag(ld, hd, opcodes::MUL) == 0,
        user_op_flag(ld, hd, opcodes::INV) == 0,
        user_op_flag(ld, hd, opcodes::NEG) == 0,
        user_op_flag(ld, hd, opcodes::NOT) == 0,
        user_op_flag(ld, hd, opcodes::AND) == 0,
        user_op_flag(ld, hd, opcodes::OR) == 0,
        user_op_flag(ld, hd, opcodes::EQ) == 0,
        user_op_flag(ld, hd, opcodes::BINACC) == 0,
        user_op_flag(ld, hd, opcodes::CHOOSE) == 0,
        user_op_flag(ld, hd, opcodes::CHOOSE2) == 0,
        user_op_flag(ld, hd, opcodes::CSWAP2) == 0,
        user_op_flag(ld, hd, opcodes::PUSH) == 0,
        user_op_flag(ld, hd, opcodes::CMP) == 0,
        user_op_flag(ld, hd, opcodes::RESCR) == 0,
{
    assert(bit_sel(1, false) == 0) by {
        assert(spec_binary_not(1) == 0);
    }
    assert(bit_sel(1, true) == 1);
    assert(bit_sel(0, true) == 0);
    assert(bit_sel(0, false) == 1) by {
        assert(spec_binary_not(0) == 1) by {
            vstd::arithmetic::div_mod::lemma_small_mod(1, MODULUS as nat);
        }
    }
    assert forall|x: int| #[trigger] f_mul(x, 0) == 0 by {
        assert(x * 0 == 0);
    }
    assert forall|x: int| #[trigger] f_mul(0, x) == 0 by {
        assert(0 * x == 0);
    }
    assert(f_mul(1, 1) == 1) by {
        vstd::arithmetic::div_mod::lemma_small_mod(1, MODULUS as nat);
    }
}

/// With the operation bits of DROP, the flag of every other user operation is zero.
#[verifier::spinoff_prover]
proof fn lemma_drop_flags(ld: Seq<u128>, hd: Seq<u128>)
    requires
        ld == seq![1u128, 0, 0, 1, 0],
        hd == seq![1u128, 1],
    ensures
        user_op_flag(ld, hd, opcodes::ADD) == 0,
        user_op_flag(ld, hd, opcodes::BEGIN) == 0,
        user_op_flag(ld, hd, opcodes::NOOP) == 0,
        user_op_flag(ld, hd, opcodes::ASSERT) == 0,
        user_op_flag(ld, hd, opcodes::ASSERTEQ) == 0,
        user_op_flag(ld, hd, opcodes::READ) == 0,
        user_op_flag(ld, hd, opcodes::READ2) == 0,
        user_op_flag(ld, hd, opcodes::DUP) == 0,
        user_op_flag(ld, hd, opcodes::DUP2) == 0,
        user_op_flag(ld, hd, opcodes::DUP4) == 0,
        user_op_flag(ld, hd, opcodes::PAD2) == 0,
        user_op_flag(ld, hd, opcodes::DROP) == 1,
        user_op_flag(ld, hd, opcodes::DROP4) == 0,
        user_op_flag(ld, hd, opcodes::SWAP) == 0,
        user_op_flag(ld, hd, opcodes::SWAP2) == 0,
        user_op_flag(ld, hd, opcodes::SWAP4) == 0,
        user_op_flag(ld, hd, opcodes::ROLL4) == 0,
        user_op_flag(ld, hd, opcodes::ROLL8) == 0,
        user_op_flag(ld, hd, opcodes::MUL) == 0,
        user_op_flag(ld, hd, opcodes::INV) == 0,
        user_op_flag(ld, hd, opcodes::NEG) == 0,
        user_op_flag(ld, hd, opcodes::NOT) == 0,
        user_op_flag(ld, hd, opcodes::AND) == 0,
        user_op_flag(ld, hd, opcodes::OR) == 0,
        user_op_flag(ld, hd, opcodes::EQ) == 0,
        user_op_flag(ld, hd, opcodes::BINACC) == 0,
        user_op_flag(ld, hd, opcodes::CHOOSE) == 0,
        user_op_flag(ld, hd, opcodes::CHOOSE2) == 0,
        user_op_flag(ld, hd, opcodes::CSWAP2) == 0,
        user_op_flag(ld, hd, opcodes::PUSH) == 0,
        user_op_flag(ld, hd, opcodes::CMP) == 0,
        user_op_flag(ld, hd, opcodes::RESCR) == 0,
{
    assert(bit_sel(1, false) == 0) by {
        assert(spec_binary_not(1) == 0);
    }
    assert(bit_sel(1, true) == 1);
    assert(bit_sel(0, true) == 0);
    assert(bit_sel(0, false) == 1) by {
        assert(spec_binary_not(0) == 1) by {
            vstd::arithmetic::div_mod::lemma_small_mod(1, MODULUS as nat);
        }
    }
    assert forall|x: int| #[trigger] f_mul(x, 0) == 0 by {
        assert(x * 0 == 0);
    }
    assert forall|x: int| #[trigger] f_mul(0, x) == 0 by {
        assert(0 * x == 0);
    }
    assert(f_mul(1, 1) == 1) by {
        vstd::arithmetic::div_mod::lemma_small_mod(1, MODULUS as nat);
    }
}

/// With the operation bits of NEG, the flag of every other user operation is zero.
#[verifier::spinoff_prover]
proof fn lemma_neg_flags(ld: Seq<u128>, hd: Seq<u128>)
    requires
        ld == seq![1u128, 1, 1, 0, 1],
        hd == seq![1u128, 1],
    ensures
        user_op_flag(ld, hd, opcodes::ADD) == 0,
        user_op_flag(ld, hd, opcodes::BEGIN) == 0,
        user_op_flag(ld, hd, opcodes::NOOP) == 0,
        user_op_flag(ld, hd, opcodes::ASSERT) == 0,
        user_op_flag(ld, hd, opcodes::ASSERTEQ) == 0,
        user_op_flag(ld, hd, opcodes::READ) == 0,
        user_op_flag(ld, hd, opcodes::READ2) == 0,
        user_op_flag(ld, hd, opcodes::DUP) == 0,
        user_op_flag(ld, hd, opcodes::DUP2) == 0,
        user_op_flag(ld, hd, opcodes::DUP4) == 0,
        user_op_flag(ld, hd, opcodes::PAD2) == 0,
        user_op_flag(ld, hd, opcodes::DROP) == 0,
        user_op_flag(ld, hd, opcodes::DROP4) == 0,
        user_op_flag(ld, hd, opcodes::SWAP) == 0,
        user_op_flag(ld, hd, opcodes::SWAP2) == 0,
        user_op_flag(ld, hd, opcodes::SWAP4) == 0,
        user_op_flag(ld, hd, opcodes::ROLL4) == 0,
        user_op_flag(ld, hd, opcodes::ROLL8) == 0,
        user_op_flag(ld, hd, opcodes::MUL) == 0,
        user_op_flag(ld, hd, opcodes::INV) == 0,
        user_op_flag(ld, hd, opcodes::NEG) == 1,
        user_op_flag(ld, hd, opcodes::NOT) == 0,
        user_op_flag(ld, hd, opcodes::AND) == 0,
        user_op_flag(ld, hd, opcodes::OR) == 0,
        user_op_flag(ld, hd, opcodes::EQ) == 0,
        user_op_flag(ld, hd, opcodes::BINACC) == 0,
        user_op_flag(ld, hd, opcodes::CHOOSE) == 0,
        user_op_flag(ld, hd, opcodes::CHOOSE2) == 0,
        user_op_flag(ld, hd, opcodes::CSWAP2) == 0,
        user_op_flag(ld, hd, opcodes::PUSH) == 0,
        user_op_flag(ld, hd, opcodes::CMP) == 0,
        user_op_flag(ld, hd, opcodes::RESCR) == 0,
{
    assert(bit_sel(1, false) == 0) by {
        assert(spec_binary_not(1) == 0);
    }
    assert(bit_sel(1, true) == 1);
    assert(bit_sel(0, true) == 0);
    assert(bit_sel(0, false) == 1) by {
        assert(spec_binary_not(0) == 1) by {
            vstd::arithmetic::div_mod::lemma_small_mod(1, MODULUS as nat);
        }
    }
    assert forall|x: int| #[trigger] f_mul(x, 0) == 0 by {
        assert(x * 0 == 0);
    }
    assert forall|x: int| #[trigger] f_mul(0, x) == 0 by {
        assert(0 * x == 0);
    }
    assert(f_mul(1, 1) == 1) by {
        vstd::arithmetic::div_mod::lemma_small_mod(1, MODULUS as nat);
    }
}

/// The stack constraints of a SWAP step (operation bits 0b1101011) compare the two top registers
/// with the two top registers before the step in the other order, and each lower register with the
/// same register before the step (`swap_evaluations`); the auxiliary values already in `r` are
/// kept, whatever the round constants.
#[verifier::spinoff_prover]
#[verifier::rlimit(50)]
pub proof fn lemma_swap_evaluations(r: Seq<u128>, current: &TraceState, next: &TraceState, ark: Seq<u128>)
    requires
        current.ld_op_bits@ == seq![1u128, 1, 0, 1, 0],
        current.hd_op_bits@ == seq![1u128, 1],
        current.user_stack@.len() >= 8,
        next.user_stack@.len() == current.user_stack@.len(),
        NUM_AUX_CONSTRAINTS <= r.len() <= current.user_stack@.len() + NUM_AUX_CONSTRAINTS,
        all_canonical(r.subrange(0, NUM_AUX_CONSTRAINTS as int)),
    ensures
        stack_constraints(r, current, next, ark)
            == r.subrange(0, NUM_AUX_CONSTRAINTS as int)
                + swap_evaluations(current.user_stack@, next.user_stack@, current.user_stack@.len()).subrange(0, r.len() - NUM_AUX_CONSTRAINTS),
{
    let s = current.user_stack@;
    let n = next.user_stack@;
    let ld = current.ld_op_bits@;
    let hd = current.hd_op_bits@;
    let e = Seq::new(s.len(), |i: int| 0u128);
    let a = r.subrange(0, NUM_AUX_CONSTRAINTS as int);
    let v = swap_evaluations(s, n, s.len());
    assert(all_canonical(e));
    lemma_swap_flags(ld, hd);
    lemma_assertion_input_constraints_idle(e, a, s, n, ark, ld, hd);
    lemma_duplication_constraints_idle(e, a, s, n, ark, ld, hd);
    lemma_drop_swap_constraints_swap(e, a, s, n, ark, ld, hd);
    assert(v.len() == e.len());
    assert(all_canonical(v));
    lemma_rotation_constraints_idle(v, a, s, n, ark, ld, hd);
    lemma_arithmetic_constraints_idle(v, a, s, n, ark, ld, hd);
    lemma_boolean_constraints_idle(v, a, s, n, ark, ld, hd);
    lemma_equality_constraints_idle(v, a, s, n, ark, ld, hd);
    lemma_selection_constraints_idle(v, a, s, n, ark, ld, hd);
    lemma_high_degree_constraints_idle(v, a, s, n, ark, ld, hd);
    lemma_composite_constraints_idle(v, a, s, n, ark, ld, hd);
}

/// A SWAP step satisfies the stack constraints exactly when it swaps the two top items: with the
/// operation bits of SWAP and evaluations over the whole stack, the stack evaluations are all
/// zero exactly when the two top registers are exchanged and every lower register is unchanged.
#[verifier::spinoff_prover]
#[verifier::rlimit(50)]
pub proof fn lemma_swap_accepts_exactly_valid_steps(r: Seq<u128>, current: &TraceState, next: &TraceState, ark: Seq<u128>)
    requires
        current.ld_op_bits@ == seq![1u128, 1, 0, 1, 0],
        current.hd_op_bits@ == seq![1u128, 1],
        current.user_stack@.len() >= 8,
        next.user_stack@.len() == current.user_stack@.len(),
        r.len() == current.user_stack@.len() + NUM_AUX_CONSTRAINTS,
        all_canonical(r.subrange(0, NUM_AUX_CONSTRAINTS as int)),
        all_canonical(current.user_stack@),
        all_canonical(next.user_stack@),
    ensures
        (stack_constraints(r, current, next, ark)
            == r.subrange(0, NUM_AUX_CONSTRAINTS as int) + Seq::new(current.user_stack@.len(), |i: int| 0u128))
        == (next.user_stack@[0] == current.user_stack@[1] && next.user_stack@[1] == current.user_stack@[0]
            && forall|i: int| 2 <= i < current.user_stack@.len() ==> #[trigger] next.user_stack@[i] == current.user_stack@[i]),
{
    let s = current.user_stack@;
    let n = next.user_stack@;
    let len = s.len();
    lemma_swap_evaluations(r, current, next, ark);
    let a = r.subrange(0, NUM_AUX_CONSTRAINTS as int);
    let v = swap_evaluations(s, n, len);
    let z = Seq::new(len, |i: int| 0u128);
    assert(v.subrange(0, r.len() - NUM_AUX_CONSTRAINTS) =~= v);
    if a + v == a + z {
        assert forall|i: int| 0 <= i < len implies v[i] == z[i] by {
            assert((a + v)[NUM_AUX_CONSTRAINTS + i] == (a + z)[NUM_AUX_CONSTRAINTS + i]);
        }
        assert forall|i: int| #![trigger n[i]] 0 <= i < len implies (if i == 0 { n[0] == s[1] } else if i == 1 { n[1] == s[0] } else { n[i] == s[i] }) by {
            assert(v[i] == 0);
            if i == 0 { lemma_sub_zero_equal(n[0], s[1]); } else if i == 1 { lemma_sub_zero_equal(n[1], s[0]); } else { lemma_sub_zero_equal(n[i], s[i]); }
        }
    }
    if n[0] == s[1] && n[1] == s[0] && forall|i: int| 2 <= i < len ==> #[trigger] n[i] == s[i] {
        assert forall|i: int| 0 <= i < len implies v[i] == z[i] by {
            if i == 0 { lemma_sub_zero_equal(n[0], s[1]); } else if i == 1 { lemma_sub_zero_equal(n[1], s[0]); } else { lemma_sub_zero_equal(n[i], s[i]); }
        }
        assert(v =~= z);
    }
}

/// The stack constraints of a DUP step (operation bits 0b1100101) compare the top register with
/// the top register before the step, and each lower register with the register one higher before
/// the step (`dup_evaluations`); the auxiliary values already in `r` are
/// kept, whatever the round constants.
#[verifier::spinoff_prover]
#[verifier::rlimit(50)]
pub proof fn lemma_dup_evaluations(r: Seq<u128>, current: &TraceState, next: &TraceState, ark: Seq<u128>)
    requires
        current.ld_op_bits@ == seq![1u128, 0, 1, 0, 0],
        current.hd_op_bits@ == seq![1u128, 1],
        current.user_stack@.len() >= 8,
        next.user_stack@.len() == current.user_stack@.len(),
        NUM_AUX_CONSTRAINTS <= r.len() <= current.user_stack@.len() + NUM_AUX_CONSTRAINTS,
        all_canonical(r.subrange(0, NUM_AUX_CONSTRAINTS as int)),
    ensures
        stack_constraints(r, current, next, ark)
            == r.subrange(0, NUM_AUX_CONSTRAINTS as int)
                + dup_evaluations(current.user_stack@, next.user_stack@, current.user_stack@.len()).subrange(0, r.len() - NUM_AUX_CONSTRAINTS),
{
    let s = current.user_stack@;
    let n = next.user_stack@;
    let ld = current.ld_op_bits@;
    let hd = current.hd_op_bits@;
    let e = Seq::new(s.len(), |i: int| 0u128);
    let a = r.subrange(0, NUM_AUX_CONSTRAINTS as int);
    let v = dup_evaluations(s, n, s.len());
    assert(all_canonical(e));
    lemma_dup_flags(ld, hd);
    lemma_assertion_input_constraints_idle(e, a, s, n, ark, ld, hd);
    lemma_duplication_constraints_dup(e, a, s, n, ark, ld, hd);
    assert(v.len() == e.len());
    assert(all_canonical(v));
    lemma_drop_swap_constraints_idle(v, a, s, n, ark, ld, hd);
    lemma_rotation_constraints_idle(v, a, s, n, ark, ld, hd);
    lemma_arithmetic_constraints_idle(v, a, s, n, ark, ld, hd);
    lemma_boolean_constraints_idle(v, a, s, n, ark, ld, hd);
    lemma_equality_constraints_idle(v, a, s, n, ark, ld, hd);
    lemma_selection_constraints_idle(v, a, s, n, ark, ld, hd);
    lemma_high_degree_constraints_idle(v, a, s, n, ark, ld, hd);
    lemma_composite_constraints_idle(v, a, s, n, ark, ld, hd);
}

/// A DUP step satisfies the stack constraints exactly when it duplicates the top item: with the
/// operation bits of DUP and evaluations over the whole stack, the stack evaluations are all zero
/// exactly when the top register is kept and every lower register holds the register one higher
/// before the step.
#[verifier::spinoff_prover]
#[verifier::rlimit(50)]
pub proof fn lemma_dup_accepts_exactly_valid_steps(r: Seq<u128>, current: &TraceState, next: &TraceState, ark: Seq<u128>)
    requires
        current.ld_op_bits@ == seq![1u128, 0, 1, 0, 0],
        current.hd_op_bits@ == seq![1u128, 1],
        current.user_stack@.len() >= 8,
        next.user_stack@.len() == current.user_stack@.len(),
        r.len() == current.user_stack@.len() + NUM_AUX_CONSTRAINTS,
        all_canonical(r.subrange(0, NUM_AUX_CONSTRAINTS as int)),
        all_canonical(current.user_stack@),
        all_canonical(next.user_stack@),
    ensures
        (stack_constraints(r, current, next, ark)
            == r.subrange(0, NUM_AUX_CONSTRAINTS as int) + Seq::new(current.user_stack@.len(), |i: int| 0u128))
        == (next.user_stack@[0] == current.user_stack@[0]
            && forall|i: int| 1 <= i < current.user_stack@.len() ==> #[trigger] next.user_stack@[i] == current.user_stack@[i - 1]),
{
    let s = current.user_stack@;
    let n = next.user_stack@;
    let len = s.len();
    lemma_dup_evaluations(r, current, next, ark);
    let a = r.subrange(0, NUM_AUX_CONSTRAINTS as int);
    let v = dup_evaluations(s, n, len);
    let z = Seq::new(len, |i: int| 0u128);
    assert(v.subrange(0, r.len() - NUM_AUX_CONSTRAINTS) =~= v);
    if a + v == a + z {
        assert forall|i: int| 0 <= i < len implies v[i] == z[i] by {
            assert((a + v)[NUM_AUX_CONSTRAINTS + i] == (a + z)[NUM_AUX_CONSTRAINTS + i]);
        }
        assert forall|i: int| #![trigger n[i]] 0 <= i < len implies (if i == 0 { n[0] == s[0] } else { n[i] == s[i - 1] }) by {
            assert(v[i] == 0);
            if i == 0 { lemma_sub_zero_equal(n[0], s[0]); } else { lemma_sub_zero_equal(n[i], s[i - 1]); }
        }
    }
    if n[0] == s[0] && forall|i: int| 1 <= i < len ==> #[trigger] n[i] == s[i - 1] {
        assert forall|i: int| 0 <= i < len implies v[i] == z[i] by {
            if i == 0 { lemma_sub_zero_equal(n[0], s[0]); } else { lemma_sub_zero_equal(n[i], s[i - 1]); }
        }
        assert(v =~= z);
    }
}

/// The stack constraints of a DROP step (operation bits 0b1101001) compare each register but the
/// bottom one with the register one lower before the step (`drop_evaluations`); the auxiliary
/// values already in `r` are kept, whatever the round constants.
#[verifier::spinoff_prover]
#[verifier::rlimit(50)]
pub proof fn lemma_drop_evaluations(r: Seq<u128>, current: &TraceState, next: &TraceState, ark: Seq<u128>)
    requires
        current.ld_op_bits@ == seq![1u128, 0, 0, 1, 0],
        current.hd_op_bits@ == seq![1u128, 1],
        current.user_stack@.len() >= 8,
        next.user_stack@.len() == current.user_stack@.len(),
        NUM_AUX_CONSTRAINTS <= r.len() <= current.user_stack@.len() + NUM_AUX_CONSTRAINTS,
        all_canonical(r.subrange(0, NUM_AUX_CONSTRAINTS as int)),
    ensures
        stack_constraints(r, current, next, ark)
            == r.subrange(0, NUM_AUX_CONSTRAINTS as int)
                + drop_evaluations(current.user_stack@, next.user_stack@, current.user_stack@.len()).subrange(0, r.len() - NUM_AUX_CONSTRAINTS),
{
    let s = current.user_stack@;
    let n = next.user_stack@;
    let ld = current.ld_op_bits@;
    let hd = current.hd_op_bits@;
    let e = Seq::new(s.len(), |i: int| 0u128);
    let a = r.subrange(0, NUM_AUX_CONSTRAINTS as int);
    let v = drop_evaluations(s, n, s.len());
    assert(all_canonical(e));
    lemma_drop_flags(ld, hd);
    lemma_assertion_input_constraints_idle(e, a, s, n, ark, ld, hd);
    lemma_duplication_constraints_idle(e, a, s, n, ark, ld, hd);
    lemma_drop_swap_constraints_drop(e, a, s, n, ark, ld, hd);
    assert(v.len() == e.len());
    assert(all_canonical(v));
    lemma_rotation_constraints_idle(v, a, s, n, ark, ld, hd);
    lemma_arithmetic_constraints_idle(v, a, s, n, ark, ld, hd);
    lemma_boolean_constraints_idle(v, a, s, n, ark, ld, hd);
    lemma_equality_constraints_idle(v, a, s, n, ark, ld, hd);
    lemma_selection_constraints_idle(v, a, s, n, ark, ld, hd);
    lemma_high_degree_constraints_idle(v, a, s, n, ark, ld, hd);
    lemma_composite_constraints_idle(v, a, s, n, ark, ld, hd);
}

/// A DROP step satisfies the stack constraints exactly when it drops the top item: with the
/// operation bits of DROP and evaluations over the whole stack, the stack evaluations are all
/// zero exactly when every register but the bottom one holds the register one lower before the
/// step.
#[verifier::spinoff_prover]
#[verifier::rlimit(50)]
pub proof fn lemma_drop_accepts_exactly_valid_steps(r: Seq<u128>, current: &TraceState, next: &TraceState, ark: Seq<u128>)
    requires
        current.ld_op_bits@ == seq![1u128, 0, 0, 1, 0],
        current.hd_op_bits@ == seq![1u128, 1],
        current.user_stack@.len() >= 8,
        next.user_stack@.len() == current.user_stack@.len(),
        r.len() == current.user_stack@.len() + NUM_AUX_CONSTRAINTS,
        all_canonical(r.subrange(0, NUM_AUX_CONSTRAINTS as int)),
        all_canonical(current.user_stack@),
        all_canonical(next.user_stack@),
    ensures
        (stack_constraints(r, current, next, ark)
            == r.subrange(0, NUM_AUX_CONSTRAINTS as int) + Seq::new(current.user_stack@.len(), |i: int| 0u128))
        == (forall|i: int| 0 <= i < current.user_stack@.len() - 1 ==> #[trigger] next.user_stack@[i] == current.user_stack@[i + 1]),
{
    let s = current.user_stack@;
    let n = next.user_stack@;
    let len = s.len();
    lemma_drop_evaluations(r, current, next, ark);
    let a = r.subrange(0, NUM_AUX_CONSTRAINTS as int);
    let v = drop_evaluations(s, n, len);
    let z = Seq::new(len, |i: int| 0u128);
    assert(v.subrange(0, r.len() - NUM_AUX_CONSTRAINTS) =~= v);
    if a + v == a + z {
        assert forall|i: int| 0 <= i < len implies v[i] == z[i] by {
            assert((a + v)[NUM_AUX_CONSTRAINTS + i] == (a + z)[NUM_AUX_CONSTRAINTS + i]);
        }
        assert forall|i: int| #![trigger n[i]] 0 <= i < len implies (i < len - 1 ==> n[i] == s[i + 1]) by {
            assert(v[i] == 0);
            if i < len - 1 { lemma_sub_zero_equal(n[i], s[i + 1]); }
        }
    }
    if forall|i: int| 0 <= i < len - 1 ==> #[trigger] n[i] == s[i + 1] {
        assert forall|i: int| 0 <= i < len implies v[i] == z[i] by {
            if i < len - 1 { lemma_sub_zero_equal(n[i], s[i + 1]); }
        }
        assert(v =~= z);
    }
}

/// The stack constraints of a DUP2 step (operation bits 0b1100110) are the `move_evaluations` of
/// DUP2; the auxiliary values already in `r` are kept, whatever the round constants.
#[verifier::spinoff_prover]
#[verifier::rlimit(50)]
pub proof fn lemma_dup2_evaluations(r: Seq<u128>, current: &TraceState, next: &TraceState, ark: Seq<u128>)
    requires
        current.ld_op_bits@ == seq![0u128, 1, 1, 0, 0],
        current.hd_op_bits@ == seq![1u128, 1],
        current.user_stack@.len() >= 8,
        next.user_stack@.len() == current.user_stack@.len(),
        NUM_AUX_CONSTRAINTS <= r.len() <= current.user_stack@.len() + NUM_AUX_CONSTRAINTS,
        all_canonical(r.subrange(0, NUM_AUX_CONSTRAINTS as int)),
    ensures
        stack_constraints(r, current, next, ark)
            == r.subrange(0, NUM_AUX_CONSTRAINTS as int) + move_evaluations(current.user_stack@, next.user_stack@, seq![0int, 1], 2, current.user_stack@.len() as int, -2, current.user_stack@.len()).subrange(0, r.len() - NUM_AUX_CONSTRAINTS),
{
    let s = current.user_stack@;
    let n = next.user_stack@;
    let ld = current.ld_op_bits@;
    let hd = current.hd_op_bits@;
    let e = Seq::new(s.len(), |i: int| 0u128);
    let a = r.subrange(0, NUM_AUX_CONSTRAINTS as int);
    let v = move_evaluations(current.user_stack@, next.user_stack@, seq![0int, 1], 2, current.user_stack@.len() as int, -2, current.user_stack@.len());
    assert(all_canonical(e));
    lemma_dup2_flags(ld, hd);
    lemma_assertion_input_constraints_idle(e, a, s, n, ark, ld, hd);
    lemma_duplication_constraints_dup2(e, a, s, n, ark, ld, hd);
    assert(v.len() == e.len());
    lemma_drop_swap_constraints_idle(v, a, s, n, ark, ld, hd);
    lemma_rotation_constraints_idle(v, a, s, n, ark, ld, hd);
    lemma_arithmetic_constraints_idle(v, a, s, n, ark, ld, hd);
    lemma_boolean_constraints_idle(v, a, s, n, ark, ld, hd);
    lemma_equality_constraints_idle(v, a, s, n, ark, ld, hd);
    lemma_selection_constraints_idle(v, a, s, n, ark, ld, hd);
    lemma_high_degree_constraints_idle(v, a, s, n, ark, ld, hd);
    lemma_composite_constraints_idle(v, a, s, n, ark, ld, hd);
}

/// A DUP2 step satisfies the stack constraints exactly when it copies the two top items onto the
/// stack: with the operation bits of DUP2 and evaluations over the whole stack, the stack
/// evaluations are all zero exactly when each of the 2 top registers after the step holds the
/// register it comes from, and every register of `2..len` after the step holds the register 2
/// higher before the step.
#[verifier::spinoff_prover]
#[verifier::rlimit(50)]
pub proof fn lemma_dup2_accepts_exactly_valid_steps(r: Seq<u128>, current: &TraceState, next: &TraceState, ark: Seq<u128>)
    requires
        current.ld_op_bits@ == seq![0u128, 1, 1, 0, 0],
        current.hd_op_bits@ == seq![1u128, 1],
        current.user_stack@.len() >= 8,
        next.user_stack@.len() == current.user_stack@.len(),
        r.len() == current.user_stack@.len() + NUM_AUX_CONSTRAINTS,
        all_canonical(r.subrange(0, NUM_AUX_CONSTRAINTS as int)),
        all_canonical(current.user_stack@),
        all_canonical(next.user_stack@),
    ensures
        (stack_constraints(r, current, next, ark)
            == r.subrange(0, NUM_AUX_CONSTRAINTS as int) + Seq::new(current.user_stack@.len(), |i: int| 0u128))
        == ((forall|k: int| 0 <= k < 2 ==> #[trigger] next.user_stack@[k] == current.user_stack@[seq![0int, 1][k]])
            && (forall|i: int| 2 <= i < current.user_stack@.len() ==> #[trigger] next.user_stack@[i] == current.user_stack@[i - 2])),
{
    let s = current.user_stack@;
    let n = next.user_stack@;
    let len = s.len();
    lemma_dup2_evaluations(r, current, next, ark);
    let a = r.subrange(0, NUM_AUX_CONSTRAINTS as int);
    let v = move_evaluations(current.user_stack@, next.user_stack@, seq![0int, 1], 2, current.user_stack@.len() as int, -2, current.user_stack@.len());
    let z = Seq::new(len, |i: int| 0u128);
    assert(v.subrange(0, r.len() - NUM_AUX_CONSTRAINTS) =~= v);
    lemma_move_zero_iff(s, n, seq![0int, 1], 2, len as int, -2, len);
    if a + v == a + z {
        assert forall|i: int| 0 <= i < len implies v[i] == z[i] by {
            assert((a + v)[NUM_AUX_CONSTRAINTS + i] == (a + z)[NUM_AUX_CONSTRAINTS + i]);
        }
        assert(v =~= z);
    }
}

/// The stack constraints of a DUP4 step (operation bits 0b1100111) are the `move_evaluations` of
/// DUP4; the auxiliary values already in `r` are kept, whatever the round constants.
#[verifier::spinoff_prover]
#[verifier::rlimit(50)]
pub proof fn lemma_dup4_evaluations(r: Seq<u128>, current: &TraceState, next: &TraceState, ark: Seq<u128>)
    requires
        current.ld_op_bits@ == seq![1u128, 1, 1, 0, 0],
        current.hd_op_bits@ == seq![1u128, 1],
        current.user_stack@.len() >= 8,
        next.user_stack@.len() == current.user_stack@.len(),
        NUM_AUX_CONSTRAINTS <= r.len() <= current.user_stack@.len() + NUM_AUX_CONSTRAINTS,
        all_canonical(r.subrange(0, NUM_AUX_CONSTRAINTS as int)),
    ensures
        stack_constraints(r, current, next, ark)
            == r.subrange(0, NUM_AUX_CONSTRAINTS as int) + move_evaluations(current.user_stack@, next.user_stack@, seq![0int, 1, 2, 3], 4, current.user_stack@.len() as int, -4, current.user_stack@.len()).subrange(0, r.len() - NUM_AUX_CONSTRAINTS),
{
    let s = current.user_stack@;
    let n = next.user_stack@;
    let ld = current.ld_op_bits@;
    let hd = current.hd_op_bits@;
    let e = Seq::new(s.len(), |i: int| 0u128);
    let a = r.subrange(0, NUM_AUX_CONSTRAINTS as int);
    let v = move_evaluations(current.user_stack@, next.user_stack@, seq![0int, 1, 2, 3], 4, current.user_stack@.len() as int, -4, current.user_stack@.len());
    assert(all_canonical(e));
    lemma_dup4_flags(ld, hd);
    lemma_assertion_input_constraints_idle(e, a, s, n, ark, ld, hd);
    lemma_duplication_constraints_dup4(e, a, s, n, ark, ld, hd);
    assert(v.len() == e.len());
    lemma_drop_swap_constraints_idle(v, a, s, n, ark, ld, hd);
    lemma_rotation_constraints_idle(v, a, s, n, ark, ld, hd);
    lemma_arithmetic_constraints_idle(v, a, s, n, ark, ld, hd);
    lemma_boolean_constraints_idle(v, a, s, n, ark, ld, hd);
    lemma_equality_constraints_idle(v, a, s, n, ark, ld, hd);
    lemma_selection_constraints_idle(v, a, s, n, ark, ld, hd);
    lemma_high_degree_constraints_idle(v, a, s, n, ark, ld, hd);
    lemma_composite_constraints_idle(v, a, s, n, ark, ld, hd);
}

/// A DUP4 step satisfies the stack constraints exactly when it copies the four top items onto the
/// stack: with the operation bits of DUP4 and evaluations over the whole stack, the stack
/// evaluations are all zero exactly when each of the 4 top registers after the step holds the
/// register it comes from, and every register of `4..len` after the step holds the register 4
/// higher before the step.
#[verifier::spinoff_prover]
#[verifier::rlimit(50)]
pub proof fn lemma_dup4_accepts_exactly_valid_steps(r: Seq<u128>, current: &TraceState, next: &TraceState, ark: Seq<u128>)
    requires
        current.ld_op_bits@ == seq![1u128, 1, 1, 0, 0],
        current.hd_op_bits@ == seq![1u128, 1],
        current.user_stack@.len() >= 8,
        next.user_stack@.len() == current.user_stack@.len(),
        r.len() == current.user_stack@.len() + NUM_AUX_CONSTRAINTS,
        all_canonical(r.subrange(0, NUM_AUX_CONSTRAINTS as int)),
        all_canonical(current.user_stack@),
        all_canonical(next.user_stack@),
    ensures
        (stack_constraints(r, current, next, ark)
            == r.subrange(0, NUM_AUX_CONSTRAINTS as int) + Seq::new(current.user_stack@.len(), |i: int| 0u128))
        == ((forall|k: int| 0 <= k < 4 ==> #[trigger] next.user_stack@[k] == current.user_stack@[seq![0int, 1, 2, 3][k]])
            && (forall|i: int| 4 <= i < current.user_stack@.len() ==> #[trigger] next.user_stack@[i] == current.user_stack@[i - 4])),
{
    let s = current.user_stack@;
    let n = next.user_stack@;
    let len = s.len();
    lemma_dup4_evaluations(r, current, next, ark);
    let a = r.subrange(0, NUM_AUX_CONSTRAINTS as int);
    let v = move_evaluations(current.user_stack@, next.user_stack@, seq![0int, 1, 2, 3], 4, current.user_stack@.len() as int, -4, current.user_stack@.len());
    let z = Seq::new(len, |i: int| 0u128);
    assert(v.subrange(0, r.len() - NUM_AUX_CONSTRAINTS) =~= v);
    lemma_move_zero_iff(s, n, seq![0int, 1, 2, 3], 4, len as int, -4, len);
    if a + v == a + z {
        assert forall|i: int| 0 <= i < len implies v[i] == z[i] by {
            assert((a + v)[NUM_AUX_CONSTRAINTS + i] == (a + z)[NUM_AUX_CONSTRAINTS + i]);
        }
        assert(v =~= z);
    }
}

/// The stack constraints of a DROP4 step (operation bits 0b1101010) are the `move_evaluations` of
/// DROP4; the auxiliary values already in `r` are kept, whatever the round constants.
#[verifier::spinoff_prover]
#[verifier::rlimit(50)]
pub proof fn lemma_drop4_evaluations(r: Seq<u128>, current: &TraceState, next: &TraceState, ark: Seq<u128>)
    requires
        current.ld_op_bits@ == seq![0u128, 1, 0, 1, 0],
        current.hd_op_bits@ == seq![1u128, 1],
        current.user_stack@.len() >= 8,
        next.user_stack@.len() == current.user_stack@.len(),
        NUM_AUX_CONSTRAINTS <= r.len() <= current.user_stack@.len() + NUM_AUX_CONSTRAINTS,
        all_canonical(r.subrange(0, NUM_AUX_CONSTRAINTS as int)),
    ensures
        stack_constraints(r, current, next, ark)
            == r.subrange(0, NUM_AUX_CONSTRAINTS as int) + move_evaluations(current.user_stack@, next.user_stack@, Seq::<int>::empty(), 0, current.user_stack@.len() - 4, 4, current.user_stack@.len()).subrange(0, r.len() - NUM_AUX_CONSTRAINTS),
{
    let s = current.user_stack@;
    let n = next.user_stack@;
    let ld = current.ld_op_bits@;
    let hd = current.hd_op_bits@;
    let e = Seq::new(s.len(), |i: int| 0u128);
    let a = r.subrange(0, NUM_AUX_CONSTRAINTS as int);
    let v = move_evaluations(current.user_stack@, next.user_stack@, Seq::<int>::empty(), 0, current.user_stack@.len() - 4, 4, current.user_stack@.len());
    assert(all_canonical(e));
    lemma_drop4_flags(ld, hd);
    lemma_assertion_input_constraints_idle(e, a, s, n, ark, ld, hd);
    lemma_duplication_constraints_idle(e, a, s, n, ark, ld, hd);
    lemma_drop_swap_constraints_drop4(e, a, s, n, ark, ld, hd);
    assert(v.len() == e.len());
    lemma_rotation_constraints_idle(v, a, s, n, ark, ld, hd);
    lemma_arithmetic_constraints_idle(v, a, s, n, ark, ld, hd);
    lemma_boolean_constraints_idle(v, a, s, n, ark, ld, hd);
    lemma_equality_constraints_idle(v, a, s, n, ark, ld, hd);
    lemma_selection_constraints_idle(v, a, s, n, ark, ld, hd);
    lemma_high_degree_constraints_idle(v, a, s, n, ark, ld, hd);
    lemma_composite_constraints_idle(v, a, s, n, ark, ld, hd);
}

/// A DROP4 step satisfies the stack constraints exactly when it drops the four top items: with the
/// operation bits of DROP4 and evaluations over the whole stack, the stack evaluations are all zero
/// exactly when each of the 0 top registers after the step holds the register it comes from, and
/// every register of `0..len - 4` after the step holds the register 4 lower before the step.
#[verifier::spinoff_prover]
#[verifier::rlimit(50)]
pub proof fn lemma_drop4_accepts_exactly_valid_steps(r: Seq<u128>, current: &TraceState, next: &TraceState, ark: Seq<u128>)
    requires
        current.ld_op_bits@ == seq![0u128, 1, 0, 1, 0],
        current.hd_op_bits@ == seq![1u128, 1],
        current.user_stack@.len() >= 8,
        next.user_stack@.len() == current.user_stack@.len(),
        r.len() == current.user_stack@.len() + NUM_AUX_CONSTRAINTS,
        all_canonical(r.subrange(0, NUM_AUX_CONSTRAINTS as int)),
        all_canonical(current.user_stack@),
        all_canonical(next.user_stack@),
    ensures
        (stack_constraints(r, current, next, ark)
            == r.subrange(0, NUM_AUX_CONSTRAINTS as int) + Seq::new(current.user_stack@.len(), |i: int| 0u128))
        == ((forall|i: int| 0 <= i < current.user_stack@.len() - 4 ==> #[trigger] next.user_stack@[i] == current.user_stack@[i + 4])),
{
    let s = current.user_stack@;
    let n = next.user_stack@;
    let len = s.len();
    lemma_drop4_evaluations(r, current, next, ark);
    let a = r.subrange(0, NUM_AUX_CONSTRAINTS as int);
    let v = move_evaluations(current.user_stack@, next.user_stack@, Seq::<int>::empty(), 0, current.user_stack@.len() - 4, 4, current.user_stack@.len());
    let z = Seq::new(len, |i: int| 0u128);
    assert(v.subrange(0, r.len() - NUM_AUX_CONSTRAINTS) =~= v);
    lemma_move_zero_iff(s, n, Seq::<int>::empty(), 0, len as int - 4, 4, len);
    if a + v == a + z {
        assert forall|i: int| 0 <= i < len implies v[i] == z[i] by {
            assert((a + v)[NUM_AUX_CONSTRAINTS + i] == (a + z)[NUM_AUX_CONSTRAINTS + i]);
        }
        assert(v =~= z);
    }
}

/// The stack constraints of a SWAP2 step (operation bits 0b1101100) are the `move_evaluations` of
/// SWAP2; the auxiliary values already in `r` are kept, whatever the round constants.
#[verifier::spinoff_prover]
#[verifier::rlimit(50)]
pub proof fn lemma_swap2_evaluations(r: Seq<u128>, current: &TraceState, next: &TraceState, ark: Seq<u128>)
    requires
        current.ld_op_bits@ == seq![0u128, 0, 1, 1, 0],
        current.hd_op_bits@ == seq![1u128, 1],
        current.user_stack@.len() >= 8,
        next.user_stack@.len() == current.user_stack@.len(),
        NUM_AUX_CONSTRAINTS <= r.len() <= current.user_stack@.len() + NUM_AUX_CONSTRAINTS,
        all_canonical(r.subrange(0, NUM_AUX_CONSTRAINTS as int)),
    ensures
        stack_constraints(r, current, next, ark)
            == r.subrange(0, NUM_AUX_CONSTRAINTS as int) + move_evaluations(current.user_stack@, next.user_stack@, seq![2int, 3, 0, 1], 4, current.user_stack@.len() as int, 0, current.user_stack@.len()).subrange(0, r.len() - NUM_AUX_CONSTRAINTS),
{
    let s = current.user_stack@;
    let n = next.user_stack@;
    let ld = current.ld_op_bits@;
    let hd = current.hd_op_bits@;
    let e = Seq::new(s.len(), |i: int| 0u128);
    let a = r.subrange(0, NUM_AUX_CONSTRAINTS as int);
    let v = move_evaluations(current.user_stack@, next.user_stack@, seq![2int, 3, 0, 1], 4, current.user_stack@.len() as int, 0, current.user_stack@.len());
    assert(all_canonical(e));
    lemma_swap2_flags(ld, hd);
    lemma_assertion_input_constraints_idle(e, a, s, n, ark, ld, hd);
    lemma_duplication_constraints_idle(e, a, s, n, ark, ld, hd);
    lemma_drop_swap_constraints_swap2(e, a, s, n, ark, ld, hd);
    assert(v.len() == e.len());
    lemma_rotation_constraints_idle(v, a, s, n, ark, ld, hd);
    lemma_arithmetic_constraints_idle(v, a, s, n, ark, ld, hd);
    lemma_boolean_constraints_idle(v, a, s, n, ark, ld, hd);
    lemma_equality_constraints_idle(v, a, s, n, ark, ld, hd);
    lemma_selection_constraints_idle(v, a, s, n, ark, ld, hd);
    lemma_high_degree_constraints_idle(v, a, s, n, ark, ld, hd);
    lemma_composite_constraints_idle(v, a, s, n, ark, ld, hd);
}

/// A SWAP2 step satisfies the stack constraints exactly when it swaps the two top pairs of items:
/// with the operation bits of SWAP2 and evaluations over the whole stack, the stack evaluations are
/// all zero exactly when each of the 4 top registers after the step holds the register it comes
/// from, and every register of `4..len` after the step holds the same register before the step.
#[verifier::spinoff_prover]
#[verifier::rlimit(50)]
pub proof fn lemma_swap2_accepts_exactly_valid_steps(r: Seq<u128>, current: &TraceState, next: &TraceState, ark: Seq<u128>)
    requires
        current.ld_op_bits@ == seq![0u128, 0, 1, 1, 0],
        current.hd_op_bits@ == seq![1u128, 1],
        current.user_stack@.len() >= 8,
        next.user_stack@.len() == current.user_stack@.len(),
        r.len() == current.user_stack@.len() + NUM_AUX_CONSTRAINTS,
        all_canonical(r.subrange(0, NUM_AUX_CONSTRAINTS as int)),
        all_canonical(current.user_stack@),
        all_canonical(next.user_stack@),
    ensures
        (stack_constraints(r, current, next, ark)
            == r.subrange(0, NUM_AUX_CONSTRAINTS as int) + Seq::new(current.user_stack@.len(), |i: int| 0u128))
        == ((forall|k: int| 0 <= k < 4 ==> #[trigger] next.user_stack@[k] == current.user_stack@[seq![2int, 3, 0, 1][k]])
            && (forall|i: int| 4 <= i < current.user_stack@.len() ==> #[trigger] next.user_stack@[i] == current.user_stack@[i])),
{
    let s = current.user_stack@;
    let n = next.user_stack@;
    let len = s.len();
    lemma_swap2_evaluations(r, current, next, ark);
    let a = r.subrange(0, NUM_AUX_CONSTRAINTS as int);
    let v = move_evaluations(current.user_stack@, next.user_stack@, seq![2int, 3, 0, 1], 4, current.user_stack@.len() as int, 0, current.user_stack@.len());
    let z = Seq::new(len, |i: int| 0u128);
    assert(v.subrange(0, r.len() - NUM_AUX_CONSTRAINTS) =~= v);
    lemma_move_zero_iff(s, n, seq![2int, 3, 0, 1], 4, len as int, 0, len);
    if a + v == a + z {
        assert forall|i: int| 0 <= i < len implies v[i] == z[i] by {
            assert((a + v)[NUM_AUX_CONSTRAINTS + i] == (a + z)[NUM_AUX_CONSTRAINTS + i]);
        }
        assert(v =~= z);
    }
}

/// The stack constraints of a SWAP4 step (operation bits 0b1101101) are the `move_evaluations` of
/// SWAP4; the auxiliary values already in `r` are kept, whatever the round constants.
#[verifier::spinoff_prover]
#[verifier::rlimit(50)]
pub proof fn lemma_swap4_evaluations(r: Seq<u128>, current: &TraceState, next: &TraceState, ark: Seq<u128>)
    requires
        current.ld_op_bits@ == seq![1u128, 0, 1, 1, 0],
        current.hd_op_bits@ == seq![1u128, 1],
        current.user_stack@.len() >= 8,
        next.user_stack@.len() == current.user_stack@.len(),
        NUM_AUX_CONSTRAINTS <= r.len() <= current.user_stack@.len() + NUM_AUX_CONSTRAINTS,
        all_canonical(r.subrange(0, NUM_AUX_CONSTRAINTS as int)),
    ensures
        stack_constraints(r, current, next, ark)
            == r.subrange(0, NUM_AUX_CONSTRAINTS as int) + move_evaluations(current.user_stack@, next.user_stack@, seq![4int, 5, 6, 7, 0, 1, 2, 3], 8, current.user_stack@.len() as int, 0, current.user_stack@.len()).subrange(0, r.len() - NUM_AUX_CONSTRAINTS),
{
    let s = current.user_stack@;
    let n = next.user_stack@;
    let ld = current.ld_op_bits@;
    let hd = current.hd_op_bits@;
    let e = Seq::new(s.len(), |i: int| 0u128);
    let a = r.subrange(0, NUM_AUX_CONSTRAINTS as int);
    let v = move_evaluations(current.user_stack@, next.user_stack@, seq![4int, 5, 6, 7, 0, 1, 2, 3], 8, current.user_stack@.len() as int, 0, current.user_stack@.len());
    assert(all_canonical(e));
    lemma_swap4_flags(ld, hd);
    lemma_assertion_input_constraints_idle(e, a, s, n, ark, ld, hd);
    lemma_duplication_constraints_idle(e, a, s, n, ark, ld, hd);
    lemma_drop_swap_constraints_idle(e, a, s, n, ark, ld, hd);
    lemma_rotation_constraints_swap4(e, a, s, n, ark, ld, hd);
    assert(v.len() == e.len());
    lemma_arithmetic_constraints_idle(v, a, s, n, ark, ld, hd);
    lemma_boolean_constraints_idle(v, a, s, n, ark, ld, hd);
    lemma_equality_constraints_idle(v, a, s, n, ark, ld, hd);
    lemma_selection_constraints_idle(v, a, s, n, ark, ld, hd);
    lemma_high_degree_constraints_idle(v, a, s, n, ark, ld, hd);
    lemma_composite_constraints_idle(v, a, s, n, ark, ld, hd);
}

/// A SWAP4 step satisfies the stack constraints exactly when it swaps the two top quadruples of
/// items: with the operation bits of SWAP4 and evaluations over the whole stack, the stack
/// evaluations are all zero exactly when each of the 8 top registers after the step holds the
/// register it comes from, and every register of `8..len` after the step holds the same register
/// before the step.
#[verifier::spinoff_prover]
#[verifier::rlimit(50)]
pub proof fn lemma_swap4_accepts_exactly_valid_steps(r: Seq<u128>, current: &TraceState, next: &TraceState, ark: Seq<u128>)
    requires
        current.ld_op_bits@ == seq![1u128, 0, 1, 1, 0],
        current.hd_op_bits@ == seq![1u128, 1],
        current.user_stack@.len() >= 8,
        next.user_stack@.len() == current.user_stack@.len(),
        r.len() == current.user_stack@.len() + NUM_AUX_CONSTRAINTS,
        all_canonical(r.subrange(0, NUM_AUX_CONSTRAINTS as int)),
        all_canonical(current.user_stack@),
        all_canonical(next.user_stack@),
    ensures
        (stack_constraints(r, current, next, ark)
            == r.subrange(0, NUM_AUX_CONSTRAINTS as int) + Seq::new(current.user_stack@.len(), |i: int| 0u128))
        == ((forall|k: int| 0 <= k < 8 ==> #[trigger] next.user_stack@[k] == current.user_stack@[seq![4int, 5, 6, 7, 0, 1, 2, 3][k]])
            && (forall|i: int| 8 <= i < current.user_stack@.len() ==> #[trigger] next.user_stack@[i] == current.user_stack@[i])),
{
    let s = current.user_stack@;
    let n = next.user_stack@;
    let len = s.len();
    lemma_swap4_evaluations(r, current, next, ark);
    let a = r.subrange(0, NUM_AUX_CONSTRAINTS as int);
    let v = move_evaluations(current.user_stack@, next.user_stack@, seq![4int, 5, 6, 7, 0, 1, 2, 3], 8, current.user_stack@.len() as int, 0, current.user_stack@.len());
    let z = Seq::new(len, |i: int| 0u128);
    assert(v.subrange(0, r.len() - NUM_AUX_CONSTRAINTS) =~= v);
    lemma_move_zero_iff(s, n, seq![4int, 5, 6, 7, 0, 1, 2, 3], 8, len as int, 0, len);
    if a + v == a + z {
        assert forall|i: int| 0 <= i < len implies v[i] == z[i] by {
            assert((a + v)[NUM_AUX_CONSTRAINTS + i] == (a + z)[NUM_AUX_CONSTRAINTS + i]);
        }
        assert(v =~= z);
    }
}

/// The stack constraints of a ROLL4 step (operation bits 0b1101110) are the `move_evaluations` of
/// ROLL4; the auxiliary values already in `r` are kept, whatever the round constants.
#[verifier::spinoff_prover]
#[verifier::rlimit(50)]
pub proof fn lemma_roll4_evaluations(r: Seq<u128>, current: &TraceState, next: &TraceState, ark: Seq<u128>)
    requires
        current.ld_op_bits@ == seq![0u128, 1, 1, 1, 0],
        current.hd_op_bits@ == seq![1u128, 1],
        current.user_stack@.len() >= 8,
        next.user_stack@.len() == current.user_stack@.len(),
        NUM_AUX_CONSTRAINTS <= r.len() <= current.user_stack@.len() + NUM_AUX_CONSTRAINTS,
        all_canonical(r.subrange(0, NUM_AUX_CONSTRAINTS as int)),
    ensures
        stack_constraints(r, current, next, ark)
            == r.subrange(0, NUM_AUX_CONSTRAINTS as int) + move_evaluations(current.user_stack@, next.user_stack@, seq![3int, 0, 1, 2], 4, current.user_stack@.len() as int, 0, current.user_stack@.len()).subrange(0, r.len() - NUM_AUX_CONSTRAINTS),
{
    let s = current.user_stack@;
    let n = next.user_stack@;
    let ld = current.ld_op_bits@;
    let hd = current.hd_op_bits@;
    let e = Seq::new(s.len(), |i: int| 0u128);
    let a = r.subrange(0, NUM_AUX_CONSTRAINTS as int);
    let v = move_evaluations(current.user_stack@, next.user_stack@, seq![3int, 0, 1, 2], 4, current.user_stack@.len() as int, 0, current.user_stack@.len());
    assert(all_canonical(e));
    lemma_roll4_flags(ld, hd);
    lemma_assertion_input_constraints_idle(e, a, s, n, ark, ld, hd);
    lemma_duplication_constraints_idle(e, a, s, n, ark, ld, hd);
    lemma_drop_swap_constraints_idle(e, a, s, n, ark, ld, hd);
    lemma_rotation_constraints_roll4(e, a, s, n, ark, ld, hd);
    assert(v.len() == e.len());
    lemma_arithmetic_constraints_idle(v, a, s, n, ark, ld, hd);
    lemma_boolean_constraints_idle(v, a, s, n, ark, ld, hd);
    lemma_equality_constraints_idle(v, a, s, n, ark, ld, hd);
    lemma_selection_constraints_idle(v, a, s, n, ark, ld, hd);
    lemma_high_degree_constraints_idle(v, a, s, n, ark, ld, hd);
    lemma_composite_constraints_idle(v, a, s, n, ark, ld, hd);
}

/// A ROLL4 step satisfies the stack constraints exactly when it moves the fourth item to the top:
/// with the operation bits of ROLL4 and evaluations over the whole stack, the stack evaluations are
/// all zero exactly when each of the 4 top registers after the step holds the register it comes
/// from, and every register of `4..len` after the step holds the same register before the step.
#[verifier::spinoff_prover]
#[verifier::rlimit(50)]
pub proof fn lemma_roll4_accepts_exactly_valid_steps(r: Seq<u128>, current: &TraceState, next: &TraceState, ark: Seq<u128>)
    requires
        current.ld_op_bits@ == seq![0u128, 1, 1, 1, 0],
        current.hd_op_bits@ == seq![1u128, 1],
        current.user_stack@.len() >= 8,
        next.user_stack@.len() == current.user_stack@.len(),
        r.len() == current.user_stack@.len() + NUM_AUX_CONSTRAINTS,
        all_canonical(r.subrange(0, NUM_AUX_CONSTRAINTS as int)),
        all_canonical(current.user_stack@),
        all_canonical(next.user_stack@),
    ensures
        (stack_constraints(r, current, next, ark)
            == r.subrange(0, NUM_AUX_CONSTRAINTS as int) + Seq::new(current.user_stack@.len(), |i: int| 0u128))
        == ((forall|k: int| 0 <= k < 4 ==> #[trigger] next.user_stack@[k] == current.user_stack@[seq![3int, 0, 1, 2][k]])
            && (forall|i: int| 4 <= i < current.user_stack@.len() ==> #[trigger] next.user_stack@[i] == current.user_stack@[i])),
{
    let s = current.user_stack@;
    let n = next.user_stack@;
    let len = s.len();
    lemma_roll4_evaluations(r, current, next, ark);
    let a = r.subrange(0, NUM_AUX_CONSTRAINTS as int);
    let v = move_evaluations(current.user_stack@, next.user_stack@, seq![3int, 0, 1, 2], 4, current.user_stack@.len() as int, 0, current.user_stack@.len());
    let z = Seq::new(len, |i: int| 0u128);
    assert(v.subrange(0, r.len() - NUM_AUX_CONSTRAINTS) =~= v);
    lemma_move_zero_iff(s, n, seq![3int, 0, 1, 2], 4, len as int, 0, len);
    if a + v == a + z {
        assert forall|i: int| 0 <= i < len implies v[i] == z[i] by {
            assert((a + v)[NUM_AUX_CONSTRAINTS + i] == (a + z)[NUM_AUX_CONSTRAINTS + i]);
        }
        assert(v =~= z);
    }
}

/// The stack constraints of a ROLL8 step (operation bits 0b1101111) are the `move_evaluations` of
/// ROLL8; the auxiliary values already in `r` are kept, whatever the round constants.
#[verifier::spinoff_prover]
#[verifier::rlimit(50)]
pub proof fn lemma_roll8_evaluations(r: Seq<u128>, current: &TraceState, next: &TraceState, ark: Seq<u128>)
    requires
        current.ld_op_bits@ == seq![1u128, 1, 1, 1, 0],
        current.hd_op_bits@ == seq![1u128, 1],
        current.user_stack@.len() >= 8,
        next.user_stack@.len() == current.user_stack@.len(),
        NUM_AUX_CONSTRAINTS <= r.len() <= current.user_stack@.len() + NUM_AUX_CONSTRAINTS,
        all_canonical(r.subrange(0, NUM_AUX_CONSTRAINTS as int)),
    ensures
        stack_constraints(r, current, next, ark)
            == r.subrange(0, NUM_AUX_CONSTRAINTS as int) + move_evaluations(current.user_stack@, next.user_stack@, seq![7int, 0, 1, 2, 3, 4, 5, 6], 8, current.user_stack@.len() as int, 0, current.user_stack@.len()).subrange(0, r.len() - NUM_AUX_CONSTRAINTS),
{
    let s = current.user_stack@;
    let n = next.user_stack@;
    let ld = current.ld_op_bits@;
    let hd = current.hd_op_bits@;
    let e = Seq::new(s.len(), |i: int| 0u128);
    let a = r.subrange(0, NUM_AUX_CONSTRAINTS as int);
    let v = move_evaluations(current.user_stack@, next.user_stack@, seq![7int, 0, 1, 2, 3, 4, 5, 6], 8, current.user_stack@.len() as int, 0, current.user_stack@.len());
    assert(all_canonical(e));
    lemma_roll8_flags(ld, hd);
    lemma_assertion_input_constraints_idle(e, a, s, n, ark, ld, hd);
    lemma_duplication_constraints_idle(e, a, s, n, ark, ld, hd);
    lemma_drop_swap_constraints_idle(e, a, s, n, ark, ld, hd);
    lemma_rotation_constraints_roll8(e, a, s, n, ark, ld, hd);
    assert(v.len() == e.len());
    lemma_arithmetic_constraints_idle(v, a, s, n, ark, ld, hd);
    lemma_boolean_constraints_idle(v, a, s, n, ark, ld, hd);
    lemma_equality_constraints_idle(v, a, s, n, ark, ld, hd);
    lemma_selection_constraints_idle(v, a, s, n, ark, ld, hd);
    lemma_high_degree_constraints_idle(v, a, s, n, ark, ld, hd);
    lemma_composite_constraints_idle(v, a, s, n, ark, ld, hd);
}

/// A ROLL8 step satisfies the stack constraints exactly when it moves the eighth item to the top:
/// with the operation bits of ROLL8 and evaluations over the whole stack, the stack evaluations are
/// all zero exactly when each of the 8 top registers after the step holds the register it comes
/// from, and every register of `8..len` after the step holds the same register before the step.
#[verifier::spinoff_prover]
#[verifier::rlimit(50)]
pub proof fn lemma_roll8_accepts_exactly_valid_steps(r: Seq<u128>, current: &TraceState, next: &TraceState, ark: Seq<u128>)
    requires
        current.ld_op_bits@ == seq![1u128, 1, 1, 1, 0],
        current.hd_op_bits@ == seq![1u128, 1],
        current.user_stack@.len() >= 8,
        next.user_stack@.len() == current.user_stack@.len(),
        r.len() == current.user_stack@.len() + NUM_AUX_CONSTRAINTS,
        all_canonical(r.subrange(0, NUM_AUX_CONSTRAINTS as int)),
        all_canonical(current.user_stack@),
        all_canonical(next.user_stack@),
    ensures
        (stack_constraints(r, current, next, ark)
            == r.subrange(0, NUM_AUX_CONSTRAINTS as int) + Seq::new(current.user_stack@.len(), |i: int| 0u128))
        == ((forall|k: int| 0 <= k < 8 ==> #[trigger] next.user_stack@[k] == current.user_stack@[seq![7int, 0, 1, 2, 3, 4, 5, 6][k]])
            && (forall|i: int| 8 <= i < current.user_stack@.len() ==> #[trigger] next.user_stack@[i] == current.user_stack@[i])),
{
    let s = current.user_stack@;
    let n = next.user_stack@;
    let len = s.len();
    lemma_roll8_evaluations(r, current, next, ark);
    let a = r.subrange(0, NUM_AUX_CONSTRAINTS as int);
    let v = move_evaluations(current.user_stack@, next.user_stack@, seq![7int, 0, 1, 2, 3, 4, 5, 6], 8, current.user_stack@.len() as int, 0, current.user_stack@.len());
    let z = Seq::new(len, |i: int| 0u128);
    assert(v.subrange(0, r.len() - NUM_AUX_CONSTRAINTS) =~= v);
    lemma_move_zero_iff(s, n, seq![7int, 0, 1, 2, 3, 4, 5, 6], 8, len as int, 0, len);
    if a + v == a + z {
        assert forall|i: int| 0 <= i < len implies v[i] == z[i] by {
            assert((a + v)[NUM_AUX_CONSTRAINTS + i] == (a + z)[NUM_AUX_CONSTRAINTS + i]);
        }
        assert(v =~= z);
    }
}

/// The stack constraints of a NOT step (operation bits 0b1110010) on zero auxiliary values compare
/// the top register with one minus the top register before the step, and each lower register with
/// the same register before the step; the first auxiliary value checks that the top register before
/// the step is binary, whatever the round constants.
#[verifier::spinoff_prover]
#[verifier::rlimit(50)]
pub proof fn lemma_not_evaluations(r: Seq<u128>, current: &TraceState, next: &TraceState, ark: Seq<u128>)
    requires
        current.ld_op_bits@ == seq![0u128, 1, 0, 0, 1],
        current.hd_op_bits@ == seq![1u128, 1],
        current.user_stack@.len() >= 8,
        next.user_stack@.len() == current.user_stack@.len(),
        NUM_AUX_CONSTRAINTS <= r.len() <= current.user_stack@.len() + NUM_AUX_CONSTRAINTS,
        forall|i: int| 0 <= i < NUM_AUX_CONSTRAINTS ==> r[i] == 0,
    ensures
        stack_constraints(r, current, next, ark)
            == seq![spec_is_binary(current.user_stack@[0]), 0u128] + not_evaluations(current.user_stack@, next.user_stack@, current.user_stack@.len()).subrange(0, r.len() - NUM_AUX_CONSTRAINTS),
{
    let s = current.user_stack@;
    let n = next.user_stack@;
    let ld = current.ld_op_bits@;
    let hd = current.hd_op_bits@;
    let e = Seq::new(s.len(), |i: int| 0u128);
    let a = r.subrange(0, NUM_AUX_CONSTRAINTS as int);
    assert(a =~= seq![0u128, 0u128]);
    let v = not_evaluations(s, n, s.len());
    let a2 = seq![spec_is_binary(s[0]), 0u128];
    lemma_is_binary_canonical(s[0]);
    lemma_is_binary_canonical(s[1]);
    assert(all_canonical(e));
    assert(all_canonical(a));
    lemma_not_flags(ld, hd);
    lemma_assertion_input_constraints_idle(e, a, s, n, ark, ld, hd);
    lemma_duplication_constraints_idle(e, a, s, n, ark, ld, hd);
    lemma_drop_swap_constraints_idle(e, a, s, n, ark, ld, hd);
    lemma_rotation_constraints_idle(e, a, s, n, ark, ld, hd);
    lemma_arithmetic_constraints_idle(e, a, s, n, ark, ld, hd);
    lemma_boolean_constraints_not(e, a, s, n, ark, ld, hd);
    assert(v.len() == e.len());
    assert(all_canonical(v));
    assert(all_canonical(a2));
    lemma_equality_constraints_idle(v, a2, s, n, ark, ld, hd);
    lemma_selection_constraints_idle(v, a2, s, n, ark, ld, hd);
    lemma_high_degree_constraints_idle(v, a2, s, n, ark, ld, hd);
    lemma_composite_constraints_idle(v, a2, s, n, ark, ld, hd);
}

/// A NOT step satisfies the stack constraints exactly when it negates a binary value: with the
/// operation bits of NOT and zero evaluations over the whole stack, the evaluations all vanish
/// exactly when the top register before the step is its own square (binary), the top register after
/// the step is one minus it, and every lower register is unchanged.
#[verifier::spinoff_prover]
#[verifier::rlimit(50)]
pub proof fn lemma_not_accepts_exactly_valid_steps(r: Seq<u128>, current: &TraceState, next: &TraceState, ark: Seq<u128>)
    requires
        current.ld_op_bits@ == seq![0u128, 1, 0, 0, 1],
        current.hd_op_bits@ == seq![1u128, 1],
        current.user_stack@.len() >= 8,
        next.user_stack@.len() == current.user_stack@.len(),
        r.len() == current.user_stack@.len() + NUM_AUX_CONSTRAINTS,
        forall|i: int| 0 <= i < r.len() ==> r[i] == 0,
        all_canonical(current.user_stack@),
        all_canonical(next.user_stack@),
    ensures
        (stack_constraints(r, current, next, ark) == Seq::new(r.len(), |i: int| 0u128)) == (
            f_mul(current.user_stack@[0] as int, current.user_stack@[0] as int) == current.user_stack@[0]
            && next.user_stack@[0] == spec_binary_not(current.user_stack@[0])
            && forall|i: int| 1 <= i < current.user_stack@.len() ==> #[trigger] next.user_stack@[i] == current.user_stack@[i]),
{
    let s = current.user_stack@;
    let n = next.user_stack@;
    let len = s.len();
    lemma_not_evaluations(r, current, next, ark);
    let v = not_evaluations(s, n, s.len());
    let a2 = seq![spec_is_binary(s[0]), 0u128];
    assert(v.subrange(0, r.len() - NUM_AUX_CONSTRAINTS) =~= v);
    let res = a2 + v;
    let z = Seq::new(r.len(), |i: int| 0u128);
    let top = spec_binary_not(s[0]);
    assert(top < MODULUS) by {
        vstd::arithmetic::div_mod::lemma_mod_bound(s[0] as int * s[1] as int, MODULUS as int);
        vstd::arithmetic::div_mod::lemma_mod_bound(1 - s[0] as int, MODULUS as int);
        vstd::arithmetic::div_mod::lemma_mod_bound(1 - f_mul(spec_binary_not(s[0]) as int, spec_binary_not(s[1]) as int), MODULUS as int);
    }
    lemma_sub_zero_equal(n[0], top);
    lemma_is_binary_zero(s[0]);
    if res == z {
        assert(z[0] == res[0]);

        assert(a2[1] == 0);
        assert(z[NUM_AUX_CONSTRAINTS as int] == res[NUM_AUX_CONSTRAINTS as int]);
        assert forall|i: int| 1 <= i < len implies #[trigger] n[i] == s[i] by {
            assert(z[NUM_AUX_CONSTRAINTS + i] == res[NUM_AUX_CONSTRAINTS + i]);
            lemma_sub_zero_equal(n[i], s[i]);
        }
    }
    if f_mul(s[0] as int, s[0] as int) == s[0]
            && n[0] == spec_binary_not(s[0])
            && forall|i: int| 1 <= i < len ==> #[trigger] n[i] == s[i] {
        
        assert forall|i: int| 0 <= i < r.len() implies res[i] == z[i] by {
            if NUM_AUX_CONSTRAINTS < i {
                assert(n[i - NUM_AUX_CONSTRAINTS] == s[i - NUM_AUX_CONSTRAINTS]);
                lemma_sub_zero_equal(n[i - NUM_AUX_CONSTRAINTS], s[i - NUM_AUX_CONSTRAINTS]);
            }
        }
        assert(res =~= z);
    }
}

/// The stack constraints of an AND step (operation bits 0b1110000) on zero auxiliary values compare
/// the top register with the field product of the two top registers before the step, and each lower
/// register with the register one lower before the step; the auxiliary values check that both top
/// registers before the step are binary, whatever the round constants.
#[verifier::spinoff_prover]
#[verifier::rlimit(50)]
pub proof fn lemma_and_evaluations(r: Seq<u128>, current: &TraceState, next: &TraceState, ark: Seq<u128>)
    requires
        current.ld_op_bits@ == seq![0u128, 0, 0, 0, 1],
        current.hd_op_bits@ == seq![1u128, 1],
        current.user_stack@.len() >= 8,
        next.user_stack@.len() == current.user_stack@.len(),
        NUM_AUX_CONSTRAINTS <= r.len() <= current.user_stack@.len() + NUM_AUX_CONSTRAINTS,
        forall|i: int| 0 <= i < NUM_AUX_CONSTRAINTS ==> r[i] == 0,
    ensures
        stack_constraints(r, current, next, ark)
            == seq![spec_is_binary(current.user_stack@[0]), spec_is_binary(current.user_stack@[1])] + binary_op_evaluations(current.user_stack@, next.user_stack@, f_mul(current.user_stack@[0] as int, current.user_stack@[1] as int) as u128, current.user_stack@.len()).subrange(0, r.len() - NUM_AUX_CONSTRAINTS),
{
    let s = current.user_stack@;
    let n = next.user_stack@;
    let ld = current.ld_op_bits@;
    let hd = current.hd_op_bits@;
    let e = Seq::new(s.len(), |i: int| 0u128);
    let a = r.subrange(0, NUM_AUX_CONSTRAINTS as int);
    assert(a =~= seq![0u128, 0u128]);
    let v = binary_op_evaluations(s, n, f_mul(s[0] as int, s[1] as int) as u128, s.len());
    let a2 = seq![spec_is_binary(s[0]), spec_is_binary(s[1])];
    lemma_is_binary_canonical(s[0]);
    lemma_is_binary_canonical(s[1]);
    assert(all_canonical(e));
    assert(all_canonical(a));
    lemma_and_flags(ld, hd);
    lemma_assertion_input_constraints_idle(e, a, s, n, ark, ld, hd);
    lemma_duplication_constraints_idle(e, a, s, n, ark, ld, hd);
    lemma_drop_swap_constraints_idle(e, a, s, n, ark, ld, hd);
    lemma_rotation_constraints_idle(e, a, s, n, ark, ld, hd);
    lemma_arithmetic_constraints_idle(e, a, s, n, ark, ld, hd);
    lemma_boolean_constraints_and(e, a, s, n, ark, ld, hd);
    assert(v.len() == e.len());
    assert(all_canonical(v));
    assert(all_canonical(a2));
    lemma_equality_constraints_idle(v, a2, s, n, ark, ld, hd);
    lemma_selection_constraints_idle(v, a2, s, n, ark, ld, hd);
    lemma_high_degree_constraints_idle(v, a2, s, n, ark, ld, hd);
    lemma_composite_constraints_idle(v, a2, s, n, ark, ld, hd);
}

/// An AND step satisfies the stack constraints exactly when it conjoins two binary values: with the
/// operation bits of AND and zero evaluations over the whole stack, the evaluations all vanish
/// exactly when both top registers before the step are their own squares (binary), the top register
/// after the step is their product, and every lower register holds the register one lower before
/// the step.
#[verifier::spinoff_prover]
#[verifier::rlimit(50)]
pub proof fn lemma_and_accepts_exactly_valid_steps(r: Seq<u128>, current: &TraceState, next: &TraceState, ark: Seq<u128>)
    requires
        current.ld_op_bits@ == seq![0u128, 0, 0, 0, 1],
        current.hd_op_bits@ == seq![1u128, 1],
        current.user_stack@.len() >= 8,
        next.user_stack@.len() == current.user_stack@.len(),
        r.len() == current.user_stack@.len() + NUM_AUX_CONSTRAINTS,
        forall|i: int| 0 <= i < r.len() ==> r[i] == 0,
        all_canonical(current.user_stack@),
        all_canonical(next.user_stack@),
    ensures
        (stack_constraints(r, current, next, ark) == Seq::new(r.len(), |i: int| 0u128)) == (
            f_mul(current.user_stack@[0] as int, current.user_stack@[0] as int) == current.user_stack@[0]
            && f_mul(current.user_stack@[1] as int, current.user_stack@[1] as int) == current.user_stack@[1]
            && next.user_stack@[0] == f_mul(current.user_stack@[0] as int, current.user_stack@[1] as int)
            && forall|i: int| 1 <= i < current.user_stack@.len() - 1 ==> #[trigger] next.user_stack@[i] == current.user_stack@[i + 1]),
{
    let s = current.user_stack@;
    let n = next.user_stack@;
    let len = s.len();
    lemma_and_evaluations(r, current, next, ark);
    let v = binary_op_evaluations(s, n, f_mul(s[0] as int, s[1] as int) as u128, s.len());
    let a2 = seq![spec_is_binary(s[0]), spec_is_binary(s[1])];
    assert(v.subrange(0, r.len() - NUM_AUX_CONSTRAINTS) =~= v);
    let res = a2 + v;
    let z = Seq::new(r.len(), |i: int| 0u128);
    let top = f_mul(s[0] as int, s[1] as int) as u128;
    assert(top < MODULUS) by {
        vstd::arithmetic::div_mod::lemma_mod_bound(s[0] as int * s[1] as int, MODULUS as int);
        vstd::arithmetic::div_mod::lemma_mod_bound(1 - s[0] as int, MODULUS as int);
        vstd::arithmetic::div_mod::lemma_mod_bound(1 - f_mul(spec_binary_not(s[0]) as int, spec_binary_not(s[1]) as int), MODULUS as int);
    }
    lemma_sub_zero_equal(n[0], top);
    lemma_is_binary_zero(s[0]);
    if res == z {
        assert(z[0] == res[0]);
        lemma_is_binary_zero(s[1]);
        assert(z[1] == res[1]);
        assert(z[NUM_AUX_CONSTRAINTS as int] == res[NUM_AUX_CONSTRAINTS as int]);
        assert forall|i: int| 1 <= i < len - 1 implies #[trigger] n[i] == s[i + 1] by {
            assert(z[NUM_AUX_CONSTRAINTS + i] == res[NUM_AUX_CONSTRAINTS + i]);
            lemma_sub_zero_equal(n[i], s[i + 1]);
        }
    }
    if f_mul(s[0] as int, s[0] as int) == s[0]
            && f_mul(s[1] as int, s[1] as int) == s[1]
            && n[0] == f_mul(s[0] as int, s[1] as int)
            && forall|i: int| 1 <= i < len - 1 ==> #[trigger] n[i] == s[i + 1] {
        lemma_is_binary_zero(s[1]);
        assert forall|i: int| 0 <= i < r.len() implies res[i] == z[i] by {
            if NUM_AUX_CONSTRAINTS < i < NUM_AUX_CONSTRAINTS + len - 1 {
                assert(n[i - NUM_AUX_CONSTRAINTS] == s[i - NUM_AUX_CONSTRAINTS + 1]);
                lemma_sub_zero_equal(n[i - NUM_AUX_CONSTRAINTS], s[i - NUM_AUX_CONSTRAINTS + 1]);
            }
        }
        assert(res =~= z);
    }
}

/// The stack constraints of an OR step (operation bits 0b1110001) on zero auxiliary values compare
/// the top register with one minus the product of the complements of the two top registers before
/// the step, and each lower register with the register one lower before the step; the auxiliary
/// values check that both top registers before the step are binary, whatever the round constants.
#[verifier::spinoff_prover]
#[verifier::rlimit(50)]
pub proof fn lemma_or_evaluations(r: Seq<u128>, current: &TraceState, next: &TraceState, ark: Seq<u128>)
    requires
        current.ld_op_bits@ == seq![1u128, 0, 0, 0, 1],
        current.hd_op_bits@ == seq![1u128, 1],
        current.user_stack@.len() >= 8,
        next.user_stack@.len() == current.user_stack@.len(),
        NUM_AUX_CONSTRAINTS <= r.len() <= current.user_stack@.len() + NUM_AUX_CONSTRAINTS,
        forall|i: int| 0 <= i < NUM_AUX_CONSTRAINTS ==> r[i] == 0,
    ensures
        stack_constraints(r, current, next, ark)
            == seq![spec_is_binary(current.user_stack@[0]), spec_is_binary(current.user_stack@[1])] + binary_op_evaluations(current.user_stack@, next.user_stack@, spec_or(current.user_stack@[0], current.user_stack@[1]), current.user_stack@.len()).subrange(0, r.len() - NUM_AUX_CONSTRAINTS),
{
    let s = current.user_stack@;
    let n = next.user_stack@;
    let ld = current.ld_op_bits@;
    let hd = current.hd_op_bits@;
    let e = Seq::new(s.len(), |i: int| 0u128);
    let a = r.subrange(0, NUM_AUX_CONSTRAINTS as int);
    assert(a =~= seq![0u128, 0u128]);
    let v = binary_op_evaluations(s, n, spec_or(s[0], s[1]), s.len());
    let a2 = seq![spec_is_binary(s[0]), spec_is_binary(s[1])];
    lemma_is_binary_canonical(s[0]);
    lemma_is_binary_canonical(s[1]);
    assert(all_canonical(e));
    assert(all_canonical(a));
    lemma_or_flags(ld, hd);
    lemma_assertion_input_constraints_idle(e, a, s, n, ark, ld, hd);
    lemma_duplication_constraints_idle(e, a, s, n, ark, ld, hd);
    lemma_drop_swap_constraints_idle(e, a, s, n, ark, ld, hd);
    lemma_rotation_constraints_idle(e, a, s, n, ark, ld, hd);
    lemma_arithmetic_constraints_idle(e, a, s, n, ark, ld, hd);
    lemma_boolean_constraints_or(e, a, s, n, ark, ld, hd);
    assert(v.len() == e.len());
    assert(all_canonical(v));
    assert(all_canonical(a2));
    lemma_equality_constraints_idle(v, a2, s, n, ark, ld, hd);
    lemma_selection_constraints_idle(v, a2, s, n, ark, ld, hd);
    lemma_high_degree_constraints_idle(v, a2, s, n, ark, ld, hd);
    lemma_composite_constraints_idle(v, a2, s, n, ark, ld, hd);
}

/// An OR step satisfies the stack constraints exactly when it disjoins two binary values: with the
/// operation bits of OR and zero evaluations over the whole stack, the evaluations all vanish
/// exactly when both top registers before the step are their own squares (binary), the top register
/// after the step is one minus the product of their complements, and every lower register holds the
/// register one lower before the step.
#[verifier::spinoff_prover]
#[verifier::rlimit(50)]
pub proof fn lemma_or_accepts_exactly_valid_steps(r: Seq<u128>, current: &TraceState, next: &TraceState, ark: Seq<u128>)
    requires
        current.ld_op_bits@ == seq![1u128, 0, 0, 0, 1],
        current.hd_op_bits@ == seq![1u128, 1],
        current.user_stack@.len() >= 8,
        next.user_stack@.len() == current.user_stack@.len(),
        r.len() == current.user_stack@.len() + NUM_AUX_CONSTRAINTS,
        forall|i: int| 0 <= i < r.len() ==> r[i] == 0,
        all_canonical(current.user_stack@),
        all_canonical(next.user_stack@),
    ensures
        (stack_constraints(r, current, next, ark) == Seq::new(r.len(), |i: int| 0u128)) == (
            f_mul(current.user_stack@[0] as int, current.user_stack@[0] as int) == current.user_stack@[0]
            && f_mul(current.user_stack@[1] as int, current.user_stack@[1] as int) == current.user_stack@[1]
            && next.user_stack@[0] == spec_or(current.user_stack@[0], current.user_stack@[1])
            && forall|i: int| 1 <= i < current.user_stack@.len() - 1 ==> #[trigger] next.user_stack@[i] == current.user_stack@[i + 1]),
{
    let s = current.user_stack@;
    let n = next.user_stack@;
    let len = s.len();
    lemma_or_evaluations(r, current, next, ark);
    let v = binary_op_evaluations(s, n, spec_or(s[0], s[1]), s.len());
    let a2 = seq![spec_is_binary(s[0]), spec_is_binary(s[1])];
    assert(v.subrange(0, r.len() - NUM_AUX_CONSTRAINTS) =~= v);
    let res = a2 + v;
    let z = Seq::new(r.len(), |i: int| 0u128);
    let top = spec_or(s[0], s[1]);
    assert(top < MODULUS) by {
        vstd::arithmetic::div_mod::lemma_mod_bound(s[0] as int * s[1] as int, MODULUS as int);
        vstd::arithmetic::div_mod::lemma_mod_bound(1 - s[0] as int, MODULUS as int);
        vstd::arithmetic::div_mod::lemma_mod_bound(1 - f_mul(spec_binary_not(s[0]) as int, spec_binary_not(s[1]) as int), MODULUS as int);
    }
    lemma_sub_zero_equal(n[0], top);
    lemma_is_binary_zero(s[0]);
    if res == z {
        assert(z[0] == res[0]);
        lemma_is_binary_zero(s[1]);
        assert(z[1] == res[1]);
        assert(z[NUM_AUX_CONSTRAINTS as int] == res[NUM_AUX_CONSTRAINTS as int]);
        assert forall|i: int| 1 <= i < len - 1 implies #[trigger] n[i] == s[i + 1] by {
            assert(z[NUM_AUX_CONSTRAINTS + i] == res[NUM_AUX_CONSTRAINTS + i]);
            lemma_sub_zero_equal(n[i], s[i + 1]);
        }
    }
    if f_mul(s[0] as int, s[0] as int) == s[0]
            && f_mul(s[1] as int, s[1] as int) == s[1]
            && n[0] == spec_or(s[0], s[1])
            && forall|i: int| 1 <= i < len - 1 ==> #[trigger] n[i] == s[i + 1] {
        lemma_is_binary_zero(s[1]);
        assert forall|i: int| 0 <= i < r.len() implies res[i] == z[i] by {
            if NUM_AUX_CONSTRAINTS < i < NUM_AUX_CONSTRAINTS + len - 1 {
                assert(n[i - NUM_AUX_CONSTRAINTS] == s[i - NUM_AUX_CONSTRAINTS + 1]);
                lemma_sub_zero_equal(n[i - NUM_AUX_CONSTRAINTS], s[i - NUM_AUX_CONSTRAINTS + 1]);
            }
        }
        assert(res =~= z);
    }
}

/// The stack constraints of a READ step (operation bits 0b1100011) are the `move_evaluations` of
/// READ; the auxiliary values already in `r` are kept, whatever the round constants.
#[verifier::spinoff_prover]
#[verifier::rlimit(50)]
pub proof fn lemma_read_evaluations(r: Seq<u128>, current: &TraceState, next: &TraceState, ark: Seq<u128>)
    requires
        current.ld_op_bits@ == seq![1u128, 1, 0, 0, 0],
        current.hd_op_bits@ == seq![1u128, 1],
        current.user_stack@.len() >= 8,
        next.user_stack@.len() == current.user_stack@.len(),
        NUM_AUX_CONSTRAINTS <= r.len() <= current.user_stack@.len() + NUM_AUX_CONSTRAINTS,
        all_canonical(r.subrange(0, NUM_AUX_CONSTRAINTS as int)),
    ensures
        stack_constraints(r, current, next, ark)
            == r.subrange(0, NUM_AUX_CONSTRAINTS as int) + move_evaluations(current.user_stack@, next.user_stack@, Seq::<int>::empty(), 1, current.user_stack@.len() as int, -1, current.user_stack@.len()).subrange(0, r.len() - NUM_AUX_CONSTRAINTS),
{
    let s = current.user_stack@;
    let n = next.user_stack@;
    let ld = current.ld_op_bits@;
    let hd = current.hd_op_bits@;
    let e = Seq::new(s.len(), |i: int| 0u128);
    let a = r.subrange(0, NUM_AUX_CONSTRAINTS as int);
    let v = move_evaluations(current.user_stack@, next.user_stack@, Seq::<int>::empty(), 1, current.user_stack@.len() as int, -1, current.user_stack@.len());
    assert(all_canonical(e));
    lemma_read_flags(ld, hd);
    lemma_assertion_input_constraints_read(e, a, s, n, ark, ld, hd);
    assert(v.len() == e.len());
    lemma_duplication_constraints_idle(v, a, s, n, ark, ld, hd);
    lemma_drop_swap_constraints_idle(v, a, s, n, ark, ld, hd);
    lemma_rotation_constraints_idle(v, a, s, n, ark, ld, hd);
    lemma_arithmetic_constraints_idle(v, a, s, n, ark, ld, hd);
    lemma_boolean_constraints_idle(v, a, s, n, ark, ld, hd);
    lemma_equality_constraints_idle(v, a, s, n, ark, ld, hd);
    lemma_selection_constraints_idle(v, a, s, n, ark, ld, hd);
    lemma_high_degree_constraints_idle(v, a, s, n, ark, ld, hd);
    lemma_composite_constraints_idle(v, a, s, n, ark, ld, hd);
}

/// A READ step satisfies the stack constraints exactly when it reads a value onto the stack: with the operation bits
/// of READ and evaluations over the whole stack, the stack evaluations are all zero exactly when
/// every register below the top 1 after the step holds the register 1 higher before the
/// step; the values read onto the top are not constrained.
#[verifier::spinoff_prover]
#[verifier::rlimit(50)]
pub proof fn lemma_read_accepts_exactly_valid_steps(r: Seq<u128>, current: &TraceState, next: &TraceState, ark: Seq<u128>)
    requires
        current.ld_op_bits@ == seq![1u128, 1, 0, 0, 0],
        current.hd_op_bits@ == seq![1u128, 1],
        current.user_stack@.len() >= 8,
        next.user_stack@.len() == current.user_stack@.len(),
        r.len() == current.user_stack@.len() + NUM_AUX_CONSTRAINTS,
        all_canonical(r.subrange(0, NUM_AUX_CONSTRAINTS as int)),
        all_canonical(current.user_stack@),
        all_canonical(next.user_stack@),
    ensures
        (stack_constraints(r, current, next, ark)
            == r.subrange(0, NUM_AUX_CONSTRAINTS as int) + Seq::new(current.user_stack@.len(), |i: int| 0u128))
        == (forall|i: int| 1 <= i < current.user_stack@.len() ==> #[trigger] next.user_stack@[i] == current.user_stack@[i - 1]),
{
    let s = current.user_stack@;
    let n = next.user_stack@;
    let len = s.len();
    lemma_read_evaluations(r, current, next, ark);
    let a = r.subrange(0, NUM_AUX_CONSTRAINTS as int);
    let v = move_evaluations(current.user_stack@, next.user_stack@, Seq::<int>::empty(), 1, current.user_stack@.len() as int, -1, current.user_stack@.len());
    let z = Seq::new(len, |i: int| 0u128);
    assert(v.subrange(0, r.len() - NUM_AUX_CONSTRAINTS) =~= v);
    lemma_move_zero_iff(s, n, Seq::<int>::empty(), 1, len as int, -1, len);
    if a + v == a + z {
        assert forall|i: int| 0 <= i < len implies v[i] == z[i] by {
            assert((a + v)[NUM_AUX_CONSTRAINTS + i] == (a + z)[NUM_AUX_CONSTRAINTS + i]);
        }
        assert(v =~= z);
    }
}

/// The stack constraints of a READ2 step (operation bits 0b1100100) are the `move_evaluations` of
/// READ2; the auxiliary values already in `r` are kept, whatever the round constants.
#[verifier::spinoff_prover]
#[verifier::rlimit(50)]
pub proof fn lemma_read2_evaluations(r: Seq<u128>, current: &TraceState, next: &TraceState, ark: Seq<u128>)
    requires
        current.ld_op_bits@ == seq![0u128, 0, 1, 0, 0],
        current.hd_op_bits@ == seq![1u128, 1],
        current.user_stack@.len() >= 8,
        next.user_stack@.len() == current.user_stack@.len(),
        NUM_AUX_CONSTRAINTS <= r.len() <= current.user_stack@.len() + NUM_AUX_CONSTRAINTS,
        all_canonical(r.subrange(0, NUM_AUX_CONSTRAINTS as int)),
    ensures
        stack_constraints(r, current, next, ark)
            == r.subrange(0, NUM_AUX_CONSTRAINTS as int) + move_evaluations(current.user_stack@, next.user_stack@, Seq::<int>::empty(), 2, current.user_stack@.len() as int, -2, current.user_stack@.len()).subrange(0, r.len() - NUM_AUX_CONSTRAINTS),
{
    let s = current.user_stack@;
    let n = next.user_stack@;
    let ld = current.ld_op_bits@;
    let hd = current.hd_op_bits@;
    let e = Seq::new(s.len(), |i: int| 0u128);
    let a = r.subrange(0, NUM_AUX_CONSTRAINTS as int);
    let v = move_evaluations(current.user_stack@, next.user_stack@, Seq::<int>::empty(), 2, current.user_stack@.len() as int, -2, current.user_stack@.len());
    assert(all_canonical(e));
    lemma_read2_flags(ld, hd);
    lemma_assertion_input_constraints_read2(e, a, s, n, ark, ld, hd);
    assert(v.len() == e.len());
    lemma_duplication_constraints_idle(v, a, s, n, ark, ld, hd);
    lemma_drop_swap_constraints_idle(v, a, s, n, ark, ld, hd);
    lemma_rotation_constraints_idle(v, a, s, n, ark, ld, hd);
    lemma_arithmetic_constraints_idle(v, a, s, n, ark, ld, hd);
    lemma_boolean_constraints_idle(v, a, s, n, ark, ld, hd);
    lemma_equality_constraints_idle(v, a, s, n, ark, ld, hd);
    lemma_selection_constraints_idle(v, a, s, n, ark, ld, hd);
    lemma_high_degree_constraints_idle(v, a, s, n, ark, ld, hd);
    lemma_composite_constraints_idle(v, a, s, n, ark, ld, hd);
}

/// A READ2 step satisfies the stack constraints exactly when it reads two values onto the stack: with the operation bits
/// of READ2 and evaluations over the whole stack, the stack evaluations are all zero exactly when
/// every register below the top 2 after the step holds the register 2 higher before the
/// step; the values read onto the top are not constrained.
#[verifier::spinoff_prover]
#[verifier::rlimit(50)]
pub proof fn lemma_read2_accepts_exactly_valid_steps(r: Seq<u128>, current: &TraceState, next: &TraceState, ark: Seq<u128>)
    requires
        current.ld_op_bits@ == seq![0u128, 0, 1, 0, 0],
        current.hd_op_bits@ == seq![1u128, 1],
        current.user_stack@.len() >= 8,
        next.user_stack@.len() == current.user_stack@.len(),
        r.len() == current.user_stack@.len() + NUM_AUX_CONSTRAINTS,
        all_canonical(r.subrange(0, NUM_AUX_CONSTRAINTS as int)),
        all_canonical(current.user_stack@),
        all_canonical(next.user_stack@),
    ensures
        (stack_constraints(r, current, next, ark)
            == r.subrange(0, NUM_AUX_CONSTRAINTS as int) + Seq::new(current.user_stack@.len(), |i: int| 0u128))
        == (forall|i: int| 2 <= i < current.user_stack@.len() ==> #[trigger] next.user_stack@[i] == current.user_stack@[i - 2]),
{
    let s = current.user_stack@;
    let n = next.user_stack@;
    let len = s.len();
    lemma_read2_evaluations(r, current, next, ark);
    let a = r.subrange(0, NUM_AUX_CONSTRAINTS as int);
    let v = move_evaluations(current.user_stack@, next.user_stack@, Seq::<int>::empty(), 2, current.user_stack@.len() as int, -2, current.user_stack@.len());
    let z = Seq::new(len, |i: int| 0u128);
    assert(v.subrange(0, r.len() - NUM_AUX_CONSTRAINTS) =~= v);
    lemma_move_zero_iff(s, n, Seq::<int>::empty(), 2, len as int, -2, len);
    if a + v == a + z {
        assert forall|i: int| 0 <= i < len implies v[i] == z[i] by {
            assert((a + v)[NUM_AUX_CONSTRAINTS + i] == (a + z)[NUM_AUX_CONSTRAINTS + i]);
        }
        assert(v =~= z);
    }
}

/// The stack constraints of an ASSERT step (operation bits 0b1100001) on zero auxiliary values are the
/// `move_evaluations` which drop the top 1 item(s), and the first auxiliary value holds the
/// assertion's check; whatever the round constants.
#[verifier::spinoff_prover]
#[verifier::rlimit(50)]
pub proof fn lemma_assert_evaluations(r: Seq<u128>, current: &TraceState, next: &TraceState, ark: Seq<u128>)
    requires
        current.ld_op_bits@ == seq![1u128, 0, 0, 0, 0],
        current.hd_op_bits@ == seq![1u128, 1],
        current.user_stack@.len() >= 8,
        next.user_stack@.len() == current.user_stack@.len(),
        NUM_AUX_CONSTRAINTS <= r.len() <= current.user_stack@.len() + NUM_AUX_CONSTRAINTS,
        forall|i: int| 0 <= i < NUM_AUX_CONSTRAINTS ==> r[i] == 0,
    ensures
        stack_constraints(r, current, next, ark)
            == seq![spec_are_equal(1, current.user_stack@[0]), 0u128] + move_evaluations(current.user_stack@, next.user_stack@, Seq::<int>::empty(), 0, current.user_stack@.len() - 1, 1, current.user_stack@.len()).subrange(0, r.len() - NUM_AUX_CONSTRAINTS),
{
    let s = current.user_stack@;
    let n = next.user_stack@;
    let ld = current.ld_op_bits@;
    let hd = current.hd_op_bits@;
    let e = Seq::new(s.len(), |i: int| 0u128);
    let a = r.subrange(0, NUM_AUX_CONSTRAINTS as int);
    assert(a =~= seq![0u128, 0u128]);
    let v = move_evaluations(current.user_stack@, next.user_stack@, Seq::<int>::empty(), 0, current.user_stack@.len() - 1, 1, current.user_stack@.len());
    let a2 = seq![spec_are_equal(1, s[0]), 0u128];
    assert(all_canonical(a2)) by {
        vstd::arithmetic::div_mod::lemma_mod_bound(1 - s[0] as int, MODULUS as int);
        vstd::arithmetic::div_mod::lemma_mod_bound(s[0] as int - s[1] as int, MODULUS as int);
    }
    lemma_assert_flags(ld, hd);
    lemma_assertion_input_constraints_assert(e, a, s, n, ark, ld, hd, false);
    assert(v.len() == e.len());
    lemma_duplication_constraints_idle(v, a2, s, n, ark, ld, hd);
    lemma_drop_swap_constraints_idle(v, a2, s, n, ark, ld, hd);
    lemma_rotation_constraints_idle(v, a2, s, n, ark, ld, hd);
    lemma_arithmetic_constraints_idle(v, a2, s, n, ark, ld, hd);
    lemma_boolean_constraints_idle(v, a2, s, n, ark, ld, hd);
    lemma_equality_constraints_idle(v, a2, s, n, ark, ld, hd);
    lemma_selection_constraints_idle(v, a2, s, n, ark, ld, hd);
    lemma_high_degree_constraints_idle(v, a2, s, n, ark, ld, hd);
    lemma_composite_constraints_idle(v, a2, s, n, ark, ld, hd);
}

/// An ASSERT step satisfies the stack constraints exactly when it checks that the top item is one and drops it: with the operation bits
/// of ASSERT and zero evaluations over the whole stack, the evaluations all vanish exactly when
/// the top register is one and every register below the top 1 after the step holds the register 1
/// lower before the step.
#[verifier::spinoff_prover]
#[verifier::rlimit(50)]
pub proof fn lemma_assert_accepts_exactly_valid_steps(r: Seq<u128>, current: &TraceState, next: &TraceState, ark: Seq<u128>)
    requires
        current.ld_op_bits@ == seq![1u128, 0, 0, 0, 0],
        current.hd_op_bits@ == seq![1u128, 1],
        current.user_stack@.len() >= 8,
        next.user_stack@.len() == current.user_stack@.len(),
        r.len() == current.user_stack@.len() + NUM_AUX_CONSTRAINTS,
        forall|i: int| 0 <= i < r.len() ==> r[i] == 0,
        all_canonical(current.user_stack@),
        all_canonical(next.user_stack@),
    ensures
        (stack_constraints(r, current, next, ark) == Seq::new(r.len(), |i: int| 0u128)) == (
            current.user_stack@[0] == 1
            && forall|i: int| 0 <= i < current.user_stack@.len() - 1 ==> #[trigger] next.user_stack@[i] == current.user_stack@[i + 1]),
{
    let s = current.user_stack@;
    let n = next.user_stack@;
    let len = s.len();
    lemma_assert_evaluations(r, current, next, ark);
    let v = move_evaluations(current.user_stack@, next.user_stack@, Seq::<int>::empty(), 0, current.user_stack@.len() - 1, 1, current.user_stack@.len());
    let a2 = seq![spec_are_equal(1, s[0]), 0u128];
    assert(v.subrange(0, r.len() - NUM_AUX_CONSTRAINTS) =~= v);
    let res = a2 + v;
    let z = Seq::new(r.len(), |i: int| 0u128);
    let zv = Seq::new(len, |i: int| 0u128);
    lemma_move_zero_iff(s, n, Seq::<int>::empty(), 0, len - 1, 1, len);
    lemma_sub_zero_equal(1, s[0]);
    if res == z {
        assert(res[0] == z[0]);
        assert forall|i: int| 0 <= i < len implies v[i] == zv[i] by {
            assert(res[NUM_AUX_CONSTRAINTS + i] == z[NUM_AUX_CONSTRAINTS + i]);
        }
        assert(v =~= zv);
    }
    if s[0] == 1 && forall|i: int| 0 <= i < len - 1 ==> #[trigger] n[i] == s[i + 1] {
        assert(v =~= zv);
        assert(res =~= z);
    }
}

/// The stack constraints of an ASSERTEQ step (operation bits 0b1100010) on zero auxiliary values are the
/// `move_evaluations` which drop the top 2 item(s), and the first auxiliary value holds the
/// assertion's check; whatever the round constants.
#[verifier::spinoff_prover]
#[verifier::rlimit(50)]
pub proof fn lemma_asserteq_evaluations(r: Seq<u128>, current: &TraceState, next: &TraceState, ark: Seq<u128>)
    requires
        current.ld_op_bits@ == seq![0u128, 1, 0, 0, 0],
        current.hd_op_bits@ == seq![1u128, 1],
        current.user_stack@.len() >= 8,
        next.user_stack@.len() == current.user_stack@.len(),
        NUM_AUX_CONSTRAINTS <= r.len() <= current.user_stack@.len() + NUM_AUX_CONSTRAINTS,
        forall|i: int| 0 <= i < NUM_AUX_CONSTRAINTS ==> r[i] == 0,
    ensures
        stack_constraints(r, current, next, ark)
            == seq![spec_are_equal(current.user_stack@[0], current.user_stack@[1]), 0u128] + move_evaluations(current.user_stack@, next.user_stack@, Seq::<int>::empty(), 0, current.user_stack@.len() - 2, 2, current.user_stack@.len()).subrange(0, r.len() - NUM_AUX_CONSTRAINTS),
{
    let s = current.user_stack@;
    let n = next.user_stack@;
    let ld = current.ld_op_bits@;
    let hd = current.hd_op_bits@;
    let e = Seq::new(s.len(), |i: int| 0u128);
    let a = r.subrange(0, NUM_AUX_CONSTRAINTS as int);
    assert(a =~= seq![0u128, 0u128]);
    let v = move_evaluations(current.user_stack@, next.user_stack@, Seq::<int>::empty(), 0, current.user_stack@.len() - 2, 2, current.user_stack@.len());
    let a2 = seq![spec_are_equal(s[0], s[1]), 0u128];
    assert(all_canonical(a2)) by {
        vstd::arithmetic::div_mod::lemma_mod_bound(1 - s[0] as int, MODULUS as int);
        vstd::arithmetic::div_mod::lemma_mod_bound(s[0] as int - s[1] as int, MODULUS as int);
    }
    lemma_asserteq_flags(ld, hd);
    lemma_assertion_input_constraints_assert(e, a, s, n, ark, ld, hd, true);
    assert(v.len() == e.len());
    lemma_duplication_constraints_idle(v, a2, s, n, ark, ld, hd);
    lemma_drop_swap_constraints_idle(v, a2, s, n, ark, ld, hd);
    lemma_rotation_constraints_idle(v, a2, s, n, ark, ld, hd);
    lemma_arithmetic_constraints_idle(v, a2, s, n, ark, ld, hd);
    lemma_boolean_constraints_idle(v, a2, s, n, ark, ld, hd);
    lemma_equality_constraints_idle(v, a2, s, n, ark, ld, hd);
    lemma_selection_constraints_idle(v, a2, s, n, ark, ld, hd);
    lemma_high_degree_constraints_idle(v, a2, s, n, ark, ld, hd);
    lemma_composite_constraints_idle(v, a2, s, n, ark, ld, hd);
}

/// An ASSERTEQ step satisfies the stack constraints exactly when it checks that the two top items are equal and drops them: with the operation bits
/// of ASSERTEQ and zero evaluations over the whole stack, the evaluations all vanish exactly when
/// the two top registers are equal and every register below the top 2 after the step holds the register 2
/// lower before the step.
#[verifier::spinoff_prover]
#[verifier::rlimit(50)]
pub proof fn lemma_asserteq_accepts_exactly_valid_steps(r: Seq<u128>, current: &TraceState, next: &TraceState, ark: Seq<u128>)
    requires
        current.ld_op_bits@ == seq![0u128, 1, 0, 0, 0],
        current.hd_op_bits@ == seq![1u128, 1],
        current.user_stack@.len() >= 8,
        next.user_stack@.len() == current.user_stack@.len(),
        r.len() == current.user_stack@.len() + NUM_AUX_CONSTRAINTS,
        forall|i: int| 0 <= i < r.len() ==> r[i] == 0,
        all_canonical(current.user_stack@),
        all_canonical(next.user_stack@),
    ensures
        (stack_constraints(r, current, next, ark) == Seq::new(r.len(), |i: int| 0u128)) == (
            current.user_stack@[0] == current.user_stack@[1]
            && forall|i: int| 0 <= i < current.user_stack@.len() - 2 ==> #[trigger] next.user_stack@[i] == current.user_stack@[i + 2]),
{
    let s = current.user_stack@;
    let n = next.user_stack@;
    let len = s.len();
    lemma_asserteq_evaluations(r, current, next, ark);
    let v = move_evaluations(current.user_stack@, next.user_stack@, Seq::<int>::empty(), 0, current.user_stack@.len() - 2, 2, current.user_stack@.len());
    let a2 = seq![spec_are_equal(s[0], s[1]), 0u128];
    assert(v.subrange(0, r.len() - NUM_AUX_CONSTRAINTS) =~= v);
    let res = a2 + v;
    let z = Seq::new(r.len(), |i: int| 0u128);
    let zv = Seq::new(len, |i: int| 0u128);
    lemma_move_zero_iff(s, n, Seq::<int>::empty(), 0, len - 2, 2, len);
    lemma_sub_zero_equal(s[0], s[1]);
    if res == z {
        assert(res[0] == z[0]);
        assert forall|i: int| 0 <= i < len implies v[i] == zv[i] by {
            assert(res[NUM_AUX_CONSTRAINTS + i] == z[NUM_AUX_CONSTRAINTS + i]);
        }
        assert(v =~= zv);
    }
    if s[0] == s[1] && forall|i: int| 0 <= i < len - 2 ==> #[trigger] n[i] == s[i + 2] {
        assert(v =~= zv);
        assert(res =~= z);
    }
}

/// The stack constraints of a CHOOSE step (operation bits 0b1111001) on zero auxiliary values are
/// the `choose_evaluations`, and the first auxiliary value checks that the selecting register is
/// binary; whatever the round constants.
#[verifier::spinoff_prover]
#[verifier::rlimit(50)]
pub proof fn lemma_choose_evaluations(r: Seq<u128>, current: &TraceState, next: &TraceState, ark: Seq<u128>)
    requires
        current.ld_op_bits@ == seq![1u128, 0, 0, 1, 1],
        current.hd_op_bits@ == seq![1u128, 1],
        current.user_stack@.len() >= 8,
        next.user_stack@.len() == current.user_stack@.len(),
        NUM_AUX_CONSTRAINTS <= r.len() <= current.user_stack@.len() + NUM_AUX_CONSTRAINTS,
        forall|i: int| 0 <= i < NUM_AUX_CONSTRAINTS ==> r[i] == 0,
    ensures
        stack_constraints(r, current, next, ark)
            == seq![spec_is_binary(current.user_stack@[2]), 0u128]
                + choose_evaluations(current.user_stack@, next.user_stack@, current.user_stack@.len()).subrange(0, r.len() - NUM_AUX_CONSTRAINTS),
{
    let s = current.user_stack@;
    let n = next.user_stack@;
    let ld = current.ld_op_bits@;
    let hd = current.hd_op_bits@;
    let e = Seq::new(s.len(), |i: int| 0u128);
    let a = r.subrange(0, NUM_AUX_CONSTRAINTS as int);
    assert(a =~= seq![0u128, 0u128]);
    let v = choose_evaluations(s, n, s.len());
    let a2 = seq![spec_is_binary(s[2]), 0u128];
    lemma_is_binary_canonical(s[2]);
    assert(all_canonical(e));
    assert(all_canonical(a));
    lemma_choose_flags(ld, hd);
    lemma_assertion_input_constraints_idle(e, a, s, n, ark, ld, hd);
    lemma_duplication_constraints_idle(e, a, s, n, ark, ld, hd);
    lemma_drop_swap_constraints_idle(e, a, s, n, ark, ld, hd);
    lemma_rotation_constraints_idle(e, a, s, n, ark, ld, hd);
    lemma_arithmetic_constraints_idle(e, a, s, n, ark, ld, hd);
    lemma_boolean_constraints_idle(e, a, s, n, ark, ld, hd);
    lemma_equality_constraints_idle(e, a, s, n, ark, ld, hd);
    lemma_selection_constraints_choose(e, a, s, n, ark, ld, hd);
    assert(v.len() == e.len());
    assert(all_canonical(v));
    assert(all_canonical(a2));
    lemma_high_degree_constraints_idle(v, a2, s, n, ark, ld, hd);
    lemma_composite_constraints_idle(v, a2, s, n, ark, ld, hd);
}

/// A CHOOSE step satisfies the stack constraints exactly when it selects: with the operation bits
/// of CHOOSE and zero evaluations over the whole stack, the evaluations all vanish exactly when the
/// third register before the step is its own square (binary), the top register after the step is
/// the first register if it is one and the second if it is zero (`select`), every register below
/// (but the two bottom ones) holds the register two lower before the step, and the two bottom
/// registers are zero.
#[verifier::spinoff_prover]
#[verifier::rlimit(50)]
pub proof fn lemma_choose_accepts_exactly_valid_steps(r: Seq<u128>, current: &TraceState, next: &TraceState, ark: Seq<u128>)
    requires
        current.ld_op_bits@ == seq![1u128, 0, 0, 1, 1],
        current.hd_op_bits@ == seq![1u128, 1],
        current.user_stack@.len() >= 8,
        next.user_stack@.len() == current.user_stack@.len(),
        r.len() == current.user_stack@.len() + NUM_AUX_CONSTRAINTS,
        forall|i: int| 0 <= i < r.len() ==> r[i] == 0,
        all_canonical(current.user_stack@),
        all_canonical(next.user_stack@),
    ensures
        (stack_constraints(r, current, next, ark) == Seq::new(r.len(), |i: int| 0u128)) == (
            f_mul(current.user_stack@[2] as int, current.user_stack@[2] as int) == current.user_stack@[2]
            && next.user_stack@[0] == select(current.user_stack@[2], current.user_stack@[0], current.user_stack@[1])
            && (forall|i: int| 1 <= i < current.user_stack@.len() - 2 ==> #[trigger] next.user_stack@[i] == current.user_stack@[i + 2])
            && next.user_stack@[current.user_stack@.len() - 2] == 0
            && next.user_stack@[current.user_stack@.len() - 1] == 0),
{
    let s = current.user_stack@;
    let n = next.user_stack@;
    let len = s.len() as int;
    lemma_choose_evaluations(r, current, next, ark);
    let v = choose_evaluations(s, n, s.len());
    let a2 = seq![spec_is_binary(s[2]), 0u128];
    assert(v.subrange(0, r.len() - NUM_AUX_CONSTRAINTS) =~= v);
    let res = a2 + v;
    let z = Seq::new(r.len(), |i: int| 0u128);
    let top = select(s[2], s[0], s[1]);
    assert(top < MODULUS) by {
        vstd::arithmetic::div_mod::lemma_mod_bound(f_mul(s[2] as int, s[0] as int) + f_mul(spec_binary_not(s[2]) as int, s[1] as int), MODULUS as int);
    }
    lemma_sub_zero_equal(n[0], top);
    lemma_is_binary_zero(s[2]);
    lemma_agg_one(n[len - 2]);
    lemma_agg_one(n[len - 1]);
    if res == z {
        assert(z[0] == res[0]);
        assert(z[NUM_AUX_CONSTRAINTS as int] == res[NUM_AUX_CONSTRAINTS as int]);
        assert forall|i: int| 1 <= i < len - 2 implies #[trigger] n[i] == s[i + 2] by {
            assert(z[NUM_AUX_CONSTRAINTS + i] == res[NUM_AUX_CONSTRAINTS + i]);
            lemma_sub_zero_equal(s[i + 2], n[i]);
        }
        assert(z[NUM_AUX_CONSTRAINTS + len - 2] == res[NUM_AUX_CONSTRAINTS + len - 2]);
        assert(z[NUM_AUX_CONSTRAINTS + len - 1] == res[NUM_AUX_CONSTRAINTS + len - 1]);
    }
    if f_mul(s[2] as int, s[2] as int) == s[2] && n[0] == top
        && (forall|i: int| 1 <= i < len - 2 ==> #[trigger] n[i] == s[i + 2])
        && n[len - 2] == 0 && n[len - 1] == 0 {
        assert forall|i: int| 0 <= i < r.len() implies res[i] == z[i] by {
            if NUM_AUX_CONSTRAINTS < i < NUM_AUX_CONSTRAINTS + len - 2 {
                assert(n[i - NUM_AUX_CONSTRAINTS] == s[i - NUM_AUX_CONSTRAINTS + 2]);
                lemma_sub_zero_equal(s[i - NUM_AUX_CONSTRAINTS + 2], n[i - NUM_AUX_CONSTRAINTS]);
            }
        }
        assert(res =~= z);
    }
}

/// The stack constraints of a PAD2 step (operation bits 0b1101000) are the `pad2_evaluations`; the
/// auxiliary values already in `r` are kept, whatever the round constants.
#[verifier::spinoff_prover]
#[verifier::rlimit(50)]
pub proof fn lemma_pad2_evaluations(r: Seq<u128>, current: &TraceState, next: &TraceState, ark: Seq<u128>)
    requires
        current.ld_op_bits@ == seq![0u128, 0, 0, 1, 0],
        current.hd_op_bits@ == seq![1u128, 1],
        current.user_stack@.len() >= 8,
        next.user_stack@.len() == current.user_stack@.len(),
        NUM_AUX_CONSTRAINTS <= r.len() <= current.user_stack@.len() + NUM_AUX_CONSTRAINTS,
        all_canonical(r.subrange(0, NUM_AUX_CONSTRAINTS as int)),
    ensures
        stack_constraints(r, current, next, ark)
            == r.subrange(0, NUM_AUX_CONSTRAINTS as int)
                + pad2_evaluations(current.user_stack@, next.user_stack@, current.user_stack@.len()).subrange(0, r.len() - NUM_AUX_CONSTRAINTS),
{
    let s = current.user_stack@;
    let n = next.user_stack@;
    let ld = current.ld_op_bits@;
    let hd = current.hd_op_bits@;
    let e = Seq::new(s.len(), |i: int| 0u128);
    let a = r.subrange(0, NUM_AUX_CONSTRAINTS as int);
    let v = pad2_evaluations(s, n, s.len());
    assert(all_canonical(e));
    lemma_pad2_flags(ld, hd);
    lemma_assertion_input_constraints_idle(e, a, s, n, ark, ld, hd);
    lemma_duplication_constraints_pad2(e, a, s, n, ark, ld, hd);
    assert(v.len() == e.len());
    assert(all_canonical(v)) by {
        assert forall|i: int| 0 <= i < v.len() implies #[trigger] v[i] < MODULUS by {
            if i < 2 {
                vstd::arithmetic::div_mod::lemma_mod_bound(0 + f_mul(1, n[i] as int), MODULUS as int);
            } else {
                vstd::arithmetic::div_mod::lemma_mod_bound(n[i] as int - s[i - 2] as int, MODULUS as int);
            }
        }
    }
    lemma_drop_swap_constraints_idle(v, a, s, n, ark, ld, hd);
    lemma_rotation_constraints_idle(v, a, s, n, ark, ld, hd);
    lemma_arithmetic_constraints_idle(v, a, s, n, ark, ld, hd);
    lemma_boolean_constraints_idle(v, a, s, n, ark, ld, hd);
    lemma_equality_constraints_idle(v, a, s, n, ark, ld, hd);
    lemma_selection_constraints_idle(v, a, s, n, ark, ld, hd);
    lemma_high_degree_constraints_idle(v, a, s, n, ark, ld, hd);
    lemma_composite_constraints_idle(v, a, s, n, ark, ld, hd);
}

/// A PAD2 step satisfies the stack constraints exactly when it pushes two zeros: with the
/// operation bits of PAD2 and evaluations over the whole stack, the stack evaluations are all zero
/// exactly when the two top registers after the step are zero and every register below them holds
/// the register two higher before the step.
#[verifier::spinoff_prover]
#[verifier::rlimit(50)]
pub proof fn lemma_pad2_accepts_exactly_valid_steps(r: Seq<u128>, current: &TraceState, next: &TraceState, ark: Seq<u128>)
    requires
        current.ld_op_bits@ == seq![0u128, 0, 0, 1, 0],
        current.hd_op_bits@ == seq![1u128, 1],
        current.user_stack@.len() >= 8,
        next.user_stack@.len() == current.user_stack@.len(),
        r.len() == current.user_stack@.len() + NUM_AUX_CONSTRAINTS,
        all_canonical(r.subrange(0, NUM_AUX_CONSTRAINTS as int)),
        all_canonical(current.user_stack@),
        all_canonical(next.user_stack@),
    ensures
        (stack_constraints(r, current, next, ark)
            == r.subrange(0, NUM_AUX_CONSTRAINTS as int) + Seq::new(current.user_stack@.len(), |i: int| 0u128))
        == (next.user_stack@[0] == 0 && next.user_stack@[1] == 0
            && forall|i: int| 2 <= i < current.user_stack@.len() ==> #[trigger] next.user_stack@[i] == current.user_stack@[i - 2]),
{
    let s = current.user_stack@;
    let n = next.user_stack@;
    let len = s.len();
    lemma_pad2_evaluations(r, current, next, ark);
    let a = r.subrange(0, NUM_AUX_CONSTRAINTS as int);
    let v = pad2_evaluations(s, n, len);
    let z = Seq::new(len, |i: int| 0u128);
    assert(v.subrange(0, r.len() - NUM_AUX_CONSTRAINTS) =~= v);
    lemma_agg_one(n[0]);
    lemma_agg_one(n[1]);
    if a + v == a + z {
        assert forall|i: int| 0 <= i < len implies v[i] == z[i] by {
            assert((a + v)[NUM_AUX_CONSTRAINTS + i] == (a + z)[NUM_AUX_CONSTRAINTS + i]);
        }
        assert(v[0] == 0 && v[1] == 0);
        assert forall|i: int| 2 <= i < len implies #[trigger] n[i] == s[i - 2] by {
            assert(v[i] == 0);
            lemma_sub_zero_equal(n[i], s[i - 2]);
        }
    }
    if n[0] == 0 && n[1] == 0 && forall|i: int| 2 <= i < len ==> #[trigger] n[i] == s[i - 2] {
        assert forall|i: int| 0 <= i < len implies v[i] == z[i] by {
            if 2 <= i {
                assert(n[i] == s[i - 2]);
                lemma_sub_zero_equal(n[i], s[i - 2]);
            }
        }
        assert(v =~= z);
    }
}

} // verus!
