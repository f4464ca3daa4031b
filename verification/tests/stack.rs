use distaff::math::field;
use distaff::stark::constraints::stack::hashing::HashEvaluator;
use distaff::stark::constraints::stack::manipulation::enforce_swap;
use distaff::stark::constraints::stack::Stack;
use distaff::stark::trace::TraceState;
use distaff::utils::hasher;

/// A state with one context register, no loop registers and the given operation bits and
/// user stack.
fn state(ld: [u128; 5], hd: [u128; 2], stack: &[u128]) -> TraceState {
    let mut v: Vec<u128> = vec![0, 0, 0, 0, 0, 0, 0, 0];
    v.extend_from_slice(&ld);
    v.extend_from_slice(&hd);
    v.push(0);
    v.extend_from_slice(stack);
    TraceState::from_vec(1, 0, stack.len(), &v)
}

#[test]
fn stack_constraint_degrees() {
    let stack = Stack::new(16, 2, 8);
    assert_eq!(&[7usize, 7, 7, 7, 7, 7, 7, 7, 7, 7][..], stack.constraint_degrees());
}

#[test]
fn stack_noop_requires_unchanged_stack() {
    let stack = Stack::new(16, 2, 8);
    // NOOP: all operation bits are set
    let current = state([1, 1, 1, 1, 1], [1, 1], &[1, 2, 3, 4, 5, 6, 7, 8]);
    let next = state([1, 1, 1, 1, 1], [1, 1], &[1, 2, 3, 4, 5, 6, 7, 8]);
    let mut result = vec![0u128; 10];
    stack.evaluate(&current, &next, 0, &mut result);
    assert_eq!(vec![0u128; 10], result);

    // a changed register shows up in its evaluation
    let next = state([1, 1, 1, 1, 1], [1, 1], &[5, 2, 3, 4, 5, 6, 7, 9]);
    let mut result = vec![0u128; 10];
    stack.evaluate(&current, &next, 3, &mut result);
    assert_eq!(vec![0, 0, field::MODULUS - 4, 0, 0, 0, 0, 0, 0, field::MODULUS - 1], result);

    // the auxiliary values already in the result are kept
    let next = state([1, 1, 1, 1, 1], [1, 1], &[1, 2, 3, 4, 5, 6, 7, 8]);
    let mut result = vec![3u128, 4, 9, 9, 9, 9, 9, 9];
    stack.evaluate(&current, &next, 5, &mut result);
    assert_eq!(vec![3u128, 4, 0, 0, 0, 0, 0, 0], result);
}

#[test]
fn stack_add_transition() {
    let stack = Stack::new(16, 2, 8);
    // ADD = 0b1110100
    let ld = [0, 0, 1, 0, 1];
    let hd = [1, 1];
    let current = state(ld, hd, &[3, 4, 5, 6, 7, 8, 9, 10]);
    let next = state(ld, hd, &[7, 5, 6, 7, 8, 9, 10, 0]);
    let mut result = vec![0u128; 10];
    stack.evaluate(&current, &next, 1, &mut result);
    assert_eq!(vec![0u128; 10], result);

    // a wrong sum
    let next = state(ld, hd, &[8, 5, 6, 7, 8, 9, 10, 0]);
    let mut result = vec![0u128; 10];
    stack.evaluate_at(&current, &next, 12345, &mut result);
    assert_eq!(vec![0, 0, 1, 0, 0, 0, 0, 0, 0, 0], result);
}

#[test]
fn stack_not_sets_aux_constraint() {
    let stack = Stack::new(16, 1, 8);
    // NOT = 0b1110010: the operand must be binary
    let ld = [0, 1, 0, 0, 1];
    let hd = [1, 1];
    let current = state(ld, hd, &[3, 1, 1, 1, 1, 1, 1, 1]);
    let next = state(ld, hd, &[field::sub(1, 3), 1, 1, 1, 1, 1, 1, 1]);
    let mut result = vec![0u128; 10];
    stack.evaluate(&current, &next, 0, &mut result);
    // 3 * 3 - 3 = 6
    assert_eq!(vec![6, 0, 0, 0, 0, 0, 0, 0, 0, 0], result);

    // AND = 0b1110000 on the same stack: (1 - 3) - 3 * 1 = -5, and both operands must be binary
    let ld = [0, 0, 0, 0, 1];
    let current = state(ld, hd, &[3, 1, 1, 1, 1, 1, 1, 1]);
    let next = state(ld, hd, &[field::sub(1, 3), 1, 1, 1, 1, 1, 1, 1]);
    let mut result = vec![0u128; 10];
    stack.evaluate(&current, &next, 0, &mut result);
    assert_eq!(vec![6, 0, field::MODULUS - 5, 0, 0, 0, 0, 0, 0, 0], result);
}

#[test]
fn hash_evaluator_accepts_rescue_round() {
    let evaluator = HashEvaluator::new(16, 1);
    for step in 0..16usize {
        let current: Vec<u128> = vec![9, 1, 2, 3, 4, 5, 6, 7, 8];
        let mut s = [1u128, 2, 3, 4, 5, 6];
        hasher::add_constants(&mut s, step, 0);
        hasher::apply_sbox(&mut s);
        hasher::apply_mds(&mut s);
        hasher::add_constants(&mut s, step, 6);
        hasher::apply_inv_sbox(&mut s);
        hasher::apply_mds(&mut s);
        let mut next = vec![9u128];
        next.extend_from_slice(&s);
        next.push(7);
        next.push(8);

        let mut result = vec![0u128; 9];
        evaluator.evaluate(&current, &next, step, 1, &mut result);
        assert_eq!(vec![0u128; 9], result);
    }
}

#[test]
fn hash_evaluator_rest_of_stack() {
    let evaluator = HashEvaluator::new(16, 1);
    let current: Vec<u128> = vec![9, 1, 2, 3, 4, 5, 6, 7, 8];
    let next: Vec<u128> = vec![1, 1, 2, 3, 4, 5, 6, 10, 8];
    // with a zero flag nothing is added
    let mut result = vec![5u128; 9];
    evaluator.evaluate(&current, &next, 0, 0, &mut result);
    assert_eq!(vec![5u128; 9], result);

    // register 0 is not constrained; register 7 changed by 3
    let mut result = vec![0u128; 9];
    evaluator.evaluate_at(&current, &next, 777, 2, &mut result);
    assert_eq!(0, result[0]);
    assert_eq!(6, result[7]);
    assert_eq!(0, result[8]);
}

#[test]
fn swap_constrains_both_registers() {
    // a wrong SWAP: next is not current with its top two items swapped
    let mut r = vec![0u128; 4];
    enforce_swap(&mut r, &[1, 2, 3, 4], &[3, 0, 3, 4], 1);
    assert_eq!(vec![1, field::MODULUS - 1, 0, 0], r);

    // a correct SWAP
    let mut r = vec![0u128; 4];
    enforce_swap(&mut r, &[1, 2, 3, 4], &[2, 1, 3, 4], 1);
    assert_eq!(vec![0u128; 4], r);
}
