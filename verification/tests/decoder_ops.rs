use distaff::math::field;
use distaff::stark::constraints::decoder2::flow_ops::{
    enforce_begin, enforce_break, enforce_fend, enforce_loop, enforce_tend, enforce_void, enforce_wrap,
};
use distaff::stark::constraints::utils;
use distaff::stark::trace::trace_state2::TraceState;

#[test]
fn op_begin() {
    // correct transition, context depth = 1
    let state1 = TraceState::from_vec(1, 0, 1, &vec![3, 5, 7, 9,  1, 0, 0,  1, 1, 1, 1, 1,  1, 1,  0,  11]);
    let state2 = TraceState::from_vec(1, 0, 1, &vec![0, 0, 0, 0,  1, 1, 1,  1, 1, 1, 1, 1,  1, 1,  3,  11]);

    let mut evaluations = vec![0; 5];
    enforce_begin(&mut evaluations, &state1, &state2, 1);
    assert_eq!(vec![0, 0, 0, 0, 0], evaluations);

    // correct transition, context depth = 2
    let state1 = TraceState::from_vec(2, 0, 1, &vec![3, 5, 7, 9,  1, 0, 0,  1, 1, 1, 1, 1,  1, 1,  2, 0,  11]);
    let state2 = TraceState::from_vec(2, 0, 1, &vec![0, 0, 0, 0,  1, 1, 1,  1, 1, 1, 1, 1,  1, 1,  3, 2,  11]);

    let mut evaluations = vec![0; 6];
    enforce_begin(&mut evaluations, &state1, &state2, 1);
    assert_eq!(vec![0, 0, 0, 0, 0, 0], evaluations);

    // incorrect transition, context depth = 1
    let state1 = TraceState::from_vec(1, 0, 1, &vec![3, 5, 7, 9,  1, 0, 0,  1, 1, 1, 1, 1,  1, 1,  0, 11]);
    let state2 = TraceState::from_vec(1, 0, 1, &vec![1, 2, 3, 4,  1, 1, 1,  1, 1, 1, 1, 1,  1, 1,  5, 11]);

    let mut evaluations = vec![0; 5];
    enforce_begin(&mut evaluations, &state1, &state2, 1);
    assert_eq!(vec![1, 2, 3, 4, field::sub(3, 5)], evaluations);

    // incorrect transition, context depth = 2
    let state1 = TraceState::from_vec(2, 0, 1, &vec![3, 5, 7, 9,  1, 0, 0,  1, 1, 1, 1, 1,  1, 1,  2, 0,  11]);
    let state2 = TraceState::from_vec(2, 0, 1, &vec![1, 2, 3, 4,  1, 1, 1,  1, 1, 1, 1, 1,  1, 1,  5, 6,  11]);

    let mut evaluations = vec![0; 6];
    enforce_begin(&mut evaluations, &state1, &state2, 1);
    assert_eq!(vec![1, 2, 3, 4, field::sub(3, 5), field::sub(2, 6)], evaluations);
}

#[test]
fn op_tend() {
    // correct transition, context depth = 1
    let state1 = TraceState::from_vec(1, 0, 1, &vec![3, 5, 7, 9,  1, 0, 0,  1, 1, 1, 1, 1,  1, 1,  8,  11]);
    let state2 = TraceState::from_vec(1, 0, 1, &vec![8, 3, 4, 0,  1, 1, 1,  1, 1, 1, 1, 1,  1, 1,  0,  11]);

    let mut evaluations = vec![0; 5];
    enforce_tend(&mut evaluations, &state1, &state2, 1);
    assert_eq!(vec![0, 0, 0, 0, 0], evaluations);

    // correct transition, context depth = 2
    let state1 = TraceState::from_vec(2, 0, 1, &vec![3, 5, 7, 9,  1, 0, 0,  1, 1, 1, 1, 1,  1, 1,  8, 2,  11]);
    let state2 = TraceState::from_vec(2, 0, 1, &vec![8, 3, 6, 0,  1, 1, 1,  1, 1, 1, 1, 1,  1, 1,  2, 0,  11]);

    let mut evaluations = vec![0; 6];
    enforce_tend(&mut evaluations, &state1, &state2, 1);
    assert_eq!(vec![0, 0, 0, 0, 0, 0], evaluations);

    // incorrect transition, context depth = 1
    let state1 = TraceState::from_vec(1, 0, 1, &vec![3, 5, 7, 9,  1, 0, 0,  1, 1, 1, 1, 1,  1, 1,  8, 11]);
    let state2 = TraceState::from_vec(1, 0, 1, &vec![1, 2, 3, 4,  1, 1, 1,  1, 1, 1, 1, 1,  1, 1,  8, 11]);

    let mut evaluations = vec![0; 5];
    enforce_tend(&mut evaluations, &state1, &state2, 1);
    assert_eq!(vec![7, 1, 0, 4, 8], evaluations);

    // incorrect transition, context depth = 2
    let state1 = TraceState::from_vec(2, 0, 1, &vec![3, 5, 7, 9,  1, 0, 0,  1, 1, 1, 1, 1,  1, 1,  4, 6,  11]);
    let state2 = TraceState::from_vec(2, 0, 1, &vec![1, 2, 3, 4,  1, 1, 1,  1, 1, 1, 1, 1,  1, 1,  5, 6,  11]);

    let mut evaluations = vec![0; 6];
    enforce_tend(&mut evaluations, &state1, &state2, 1);
    assert_eq!(vec![3, 1, 0, 4, 1, 6], evaluations);
}

#[test]
fn op_fend() {
    // correct transition, context depth = 1
    let state1 = TraceState::from_vec(1, 0, 1, &vec![3, 5, 7, 9,  1, 0, 0,  1, 1, 1, 1, 1,  1, 1,  8,  11]);
    let state2 = TraceState::from_vec(1, 0, 1, &vec![8, 4, 3, 0,  1, 1, 1,  1, 1, 1, 1, 1,  1, 1,  0,  11]);

    let mut evaluations = vec![0; 5];
    enforce_fend(&mut evaluations, &state1, &state2, 1);
    assert_eq!(vec![0, 0, 0, 0, 0], evaluations);

    // correct transition, context depth = 2
    let state1 = TraceState::from_vec(2, 0, 1, &vec![3, 5, 7, 9,  1, 0, 0,  1, 1, 1, 1, 1,  1, 1,  8, 2,  11]);
    let state2 = TraceState::from_vec(2, 0, 1, &vec![8, 6, 3, 0,  1, 1, 1,  1, 1, 1, 1, 1,  1, 1,  2, 0,  11]);

    let mut evaluations = vec![0; 6];
    enforce_fend(&mut evaluations, &state1, &state2, 1);
    assert_eq!(vec![0, 0, 0, 0, 0, 0], evaluations);

    // incorrect transition, context depth = 1
    let state1 = TraceState::from_vec(1, 0, 1, &vec![3, 5, 7, 9,  1, 0, 0,  1, 1, 1, 1, 1,  1, 1,  8, 11]);
    let state2 = TraceState::from_vec(1, 0, 1, &vec![1, 3, 2, 4,  1, 1, 1,  1, 1, 1, 1, 1,  1, 1,  8, 11]);

    let mut evaluations = vec![0; 5];
    enforce_fend(&mut evaluations, &state1, &state2, 1);
    assert_eq!(vec![7, 0, 1, 4, 8], evaluations);

    // incorrect transition, context depth = 2
    let state1 = TraceState::from_vec(2, 0, 1, &vec![3, 5, 7, 9,  1, 0, 0,  1, 1, 1, 1, 1,  1, 1,  4, 6,  11]);
    let state2 = TraceState::from_vec(2, 0, 1, &vec![1, 6, 2, 4,  1, 1, 1,  1, 1, 1, 1, 1,  1, 1,  5, 6,  11]);

    let mut evaluations = vec![0; 6];
    enforce_fend(&mut evaluations, &state1, &state2, 1);
    assert_eq!(vec![3, 0, 1, 4, 1, 6], evaluations);
}

#[test]
fn op_loop() {
    // correct transition: sponge cleared, parent hash pushed, loop image pushed
    let state1 = TraceState::from_vec(1, 1, 1, &vec![3, 5, 7, 9,  1, 0, 0,  1, 1, 1, 1, 1,  1, 1,  0,  0,  11]);
    let state2 = TraceState::from_vec(1, 1, 1, &vec![0, 0, 0, 0,  1, 1, 1,  1, 1, 1, 1, 1,  1, 1,  3,  8,  11]);

    let mut evaluations = vec![0; 6];
    enforce_loop(&mut evaluations, &state1, &state2, 1);
    assert_eq!(vec![0, 0, 0, 0, 0, 0], evaluations);

    // incorrect transition: sponge not cleared and wrong parent hash
    let state2 = TraceState::from_vec(1, 1, 1, &vec![1, 0, 2, 0,  1, 1, 1,  1, 1, 1, 1, 1,  1, 1,  4,  8,  11]);
    let mut evaluations = vec![0; 6];
    enforce_loop(&mut evaluations, &state1, &state2, 1);
    assert_eq!(vec![1, 0, 2, 0, field::sub(3, 4), 0], evaluations);
}

#[test]
fn op_wrap() {
    // correct transition: sponge cleared, context and loop stacks unchanged
    let state1 = TraceState::from_vec(1, 1, 1, &vec![3, 5, 7, 9,  1, 0, 0,  1, 1, 1, 1, 1,  1, 1,  2,  8,  11]);
    let state2 = TraceState::from_vec(1, 1, 1, &vec![0, 0, 0, 0,  1, 1, 1,  1, 1, 1, 1, 1,  1, 1,  2,  8,  11]);

    let mut evaluations = vec![0; 6];
    enforce_wrap(&mut evaluations, &state1, &state2, 1);
    assert_eq!(vec![0, 0, 0, 0, 0, 0], evaluations);

    // incorrect transition: loop stack changed
    let state2 = TraceState::from_vec(1, 1, 1, &vec![0, 0, 0, 0,  1, 1, 1,  1, 1, 1, 1, 1,  1, 1,  2,  5,  11]);
    let mut evaluations = vec![0; 6];
    enforce_wrap(&mut evaluations, &state1, &state2, 1);
    assert_eq!(vec![0, 0, 0, 0, 0, 3], evaluations);
}

#[test]
fn op_break() {
    // correct transition: sponge and context stack unchanged, loop image popped
    let state1 = TraceState::from_vec(1, 1, 1, &vec![3, 5, 7, 9,  1, 0, 0,  1, 1, 1, 1, 1,  1, 1,  2,  8,  11]);
    let state2 = TraceState::from_vec(1, 1, 1, &vec![3, 5, 7, 9,  1, 1, 1,  1, 1, 1, 1, 1,  1, 1,  2,  0,  11]);

    let mut evaluations = vec![0; 6];
    enforce_break(&mut evaluations, &state1, &state2, 1);
    assert_eq!(vec![0, 0, 0, 0, 0, 0], evaluations);

    // incorrect transition: sponge changed and loop image not popped
    let state2 = TraceState::from_vec(1, 1, 1, &vec![3, 4, 7, 9,  1, 1, 1,  1, 1, 1, 1, 1,  1, 1,  2,  8,  11]);
    let mut evaluations = vec![0; 6];
    enforce_break(&mut evaluations, &state1, &state2, 1);
    assert_eq!(vec![0, 1, 0, 0, 0, 8], evaluations);
}

#[test]
fn op_void() {
    // correct transition, context depth = 1
    let state1 = TraceState::from_vec(1, 0, 1, &vec![3, 5, 7, 9,  1, 1, 1,  1, 1, 1, 1, 1,  1, 1,  8,  11]);
    let state2 = TraceState::from_vec(1, 0, 1, &vec![3, 5, 7, 9,  1, 1, 1,  1, 1, 1, 1, 1,  1, 1,  8,  11]);

    let mut evaluations = vec![0; 5];
    enforce_void(&mut evaluations, &state1, &state2, 1);
    assert_eq!(vec![0, 0, 0, 0, 0], evaluations);

    // correct transition, context depth = 2
    let state1 = TraceState::from_vec(2, 0, 1, &vec![3, 5, 7, 9,  1, 0, 0,  1, 1, 1, 1, 1,  1, 1,  8, 2,  11]);
    let state2 = TraceState::from_vec(2, 0, 1, &vec![3, 5, 7, 9,  1, 0, 0,  1, 1, 1, 1, 1,  1, 1,  8, 2,  11]);

    let mut evaluations = vec![0; 6];
    enforce_void(&mut evaluations, &state1, &state2, 1);
    assert_eq!(vec![0, 0, 0, 0, 0, 0], evaluations);

    // incorrect transition, context depth = 1
    let state1 = TraceState::from_vec(1, 0, 1, &vec![3, 5, 7, 9,  1, 0, 0,  1, 1, 1, 1, 1,  1, 1,  8, 11]);
    let state2 = TraceState::from_vec(1, 0, 1, &vec![2, 4, 6, 8,  1, 1, 1,  1, 1, 1, 1, 1,  1, 1,  7, 11]);

    let mut evaluations = vec![0; 5];
    enforce_void(&mut evaluations, &state1, &state2, 1);
    assert_eq!(vec![1, 1, 1, 1, 1], evaluations);
}

#[test]
fn enforce_left_shift() {
    let op_flag = 1;

    // sift left by 1 starting from 1
    let mut result = vec![0; 8];
    utils::enforce_left_shift(&mut result, &[1, 2, 3, 4, 5, 6, 7, 8], &[1, 2, 3, 4, 5, 6, 7, 8], 1, 1, op_flag);
    assert_eq!(vec![1, 1, 1, 1, 1, 1, 1, 8], result);

    // sift left by 2 starting from 2
    let mut result = vec![0; 8];
    utils::enforce_left_shift(&mut result, &[1, 2, 3, 4, 5, 6, 7, 8], &[1, 2, 3, 4, 5, 6, 7, 8], 2, 2, op_flag);
    assert_eq!(vec![2, 2, 2, 2, 2, 2, 7, 8], result);

    // sift left by 1 starting from 2
    let mut result = vec![0; 8];
    utils::enforce_left_shift(&mut result, &[1, 2, 3, 4, 5, 6, 7, 8], &[1, 2, 3, 4, 5, 6, 7, 8], 2, 1, op_flag);
    assert_eq!(vec![0, 1, 1, 1, 1, 1, 1, 8], result);

    // sift left by 4 starting from 6
    let mut result = vec![0; 8];
    utils::enforce_left_shift(&mut result, &[1, 2, 3, 4, 5, 6, 7, 8], &[1, 2, 3, 4, 5, 6, 7, 8], 6, 4, op_flag);
    assert_eq!(vec![0, 0, 4, 4, 5, 6, 7, 8], result);
}
