use distaff::math::field;
use distaff::stark::constraints::decoder::Decoder;
use distaff::stark::constraints::evaluator::{ ConstraintCoefficients, Evaluator };
use distaff::stark::trace::TraceState;

fn coefficients(value: u128) -> ConstraintCoefficients {
    ConstraintCoefficients {
        i_boundary: vec![value; 64],
        f_boundary: vec![value; 64],
        transition: vec![value; 256],
    }
}

/// A state with one context and one loop register and an 8 registers deep user stack.
fn state(op_counter: u128, sponge: [u128; 4], cf: [u128; 3], ld: [u128; 5], hd: [u128; 2], stack: [u128; 8]) -> TraceState {
    let mut v = vec![op_counter];
    v.extend_from_slice(&sponge);
    v.extend_from_slice(&cf);
    v.extend_from_slice(&ld);
    v.extend_from_slice(&hd);
    v.push(0);
    v.push(0);
    v.extend_from_slice(&stack);
    TraceState::from_vec(1, 1, 8, &v)
}

#[test]
fn decoder_constraint_degrees() {
    let decoder = Decoder::new(16, 8, 2, 0);
    assert_eq!(2, decoder.ctx_depth());
    assert_eq!(0, decoder.loop_depth());
    // 15 op constraints, 4 sponge constraints, the loop image, 2 context and 1 loop register
    assert_eq!(23, decoder.constraint_count());
    assert_eq!(
        &[2usize, 2, 2, 2, 2, 2, 2, 2, 2, 2, 3, 8, 8, 6, 4, 6, 7, 6, 6, 4, 4, 4, 4][..],
        decoder.constraint_degrees()
    );
}

#[test]
fn evaluator_sizes() {
    let last = state(9, [11, 12, 13, 14], [1, 1, 1], [1, 1, 1, 1, 1], [1, 1], [3, 0, 0, 0, 0, 0, 0, 0]);
    let evaluator = Evaluator::from_trace(&last, 16, 1, 1, 8, coefficients(1), &[1, 2], &[3]);
    assert_eq!(128, evaluator.domain_size());
    assert_eq!(16, evaluator.trace_length());
    // 22 decoder constraints and 10 stack constraints; 2 + 2 + 1 + 1 boundary constraints
    assert_eq!(32 + 6, evaluator.constraint_count());
    let degrees = evaluator.get_transition_degrees();
    assert_eq!(32, degrees.len());
    assert_eq!(vec![7usize; 10], degrees[22..].to_vec());

    // the point of the last step is the inverse of the root of unity of order 16
    let x = evaluator.get_x_at_last_step();
    assert_eq!(1, field::mul(x, field::get_root_of_unity(16)));
}

#[test]
fn evaluator_boundaries() {
    let last = state(9, [11, 12, 13, 14], [1, 1, 1], [1, 1, 1, 1, 1], [1, 1], [3, 0, 0, 0, 0, 0, 0, 0]);
    let evaluator = Evaluator::from_trace(&last, 16, 1, 1, 8, coefficients(1), &[1, 2], &[3]);

    // a first state holding the inputs and a last state holding the program hash and outputs
    let first = state(0, [0, 0, 0, 0], [0, 0, 0], [0, 0, 0, 0, 0], [0, 0], [1, 2, 0, 0, 0, 0, 0, 0]);
    assert_eq!(0, evaluator.evaluate_boundaries(&first, 5).0);
    assert_eq!(0, evaluator.evaluate_boundaries(&last, 5).1);

    // with all coefficients one and x = 1, each step sums twice its constraint values
    let first = state(0, [0, 0, 0, 0], [0, 0, 0], [0, 0, 0, 0, 0], [0, 0], [4, 2, 0, 0, 0, 0, 0, 0]);
    assert_eq!(6, evaluator.evaluate_boundaries(&first, 1).0);
    let last2 = state(10, [11, 12, 13, 14], [1, 1, 1], [1, 1, 1, 1, 1], [1, 1], [3, 0, 0, 0, 0, 0, 0, 0]);
    assert_eq!(2, evaluator.evaluate_boundaries(&last2, 1).1);

    // a high-degree operation bit which is not one at the last step
    let last3 = state(9, [11, 12, 13, 14], [1, 1, 1], [1, 1, 1, 1, 1], [1, 0], [3, 0, 0, 0, 0, 0, 0, 0]);
    assert_eq!(field::MODULUS - 2, evaluator.evaluate_boundaries(&last3, 1).1);
}

#[test]
fn evaluator_transition_combination() {
    let last = state(9, [11, 12, 13, 14], [1, 1, 1], [1, 1, 1, 1, 1], [1, 1], [3, 0, 0, 0, 0, 0, 0, 0]);
    let evaluator = Evaluator::from_trace(&last, 16, 1, 1, 8, coefficients(1), &[1, 2], &[3]);

    // constraints must be zero on the steps of the trace, but for the last one
    assert!(evaluator.should_evaluate_to_zero_at(0));
    assert!(evaluator.should_evaluate_to_zero_at(8));
    assert!(evaluator.should_evaluate_to_zero_at(112));
    assert!(!evaluator.should_evaluate_to_zero_at(3));
    assert!(!evaluator.should_evaluate_to_zero_at(120));

    // all constraints satisfied
    assert_eq!(0, evaluator.combine_transition_constraints(&vec![0; 32], 2));

    // one stack constraint of degree 7, raised by 16 * 7 + 15 - 15 * 7 = 22
    let mut evaluations = vec![0u128; 32];
    evaluations[31] = 5;
    assert_eq!(5 + 5 * (1 << 22), evaluator.combine_transition_constraints(&evaluations, 2));

    // at x = 1 every constraint adds its value twice
    assert_eq!(64, evaluator.combine_transition_constraints(&vec![1; 32], 1));
}
