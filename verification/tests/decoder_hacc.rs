use distaff::stark::constraints::decoder::sponge::enforce_hacc;
use distaff::stark::constraints::decoder::transpose_ark_constants;
use distaff::stark::trace::TraceState;
use distaff::utils::sponge::{ apply_round as apply_hacc_round, ARK, CYCLE_LENGTH, STATE_WIDTH };

#[test]
fn op_hacc() {
    let ark: Vec<Vec<u128>> = ARK.iter().map(|row| row.to_vec()).collect();
    let ark = transpose_ark_constants(ark, CYCLE_LENGTH);

    // correct transition, push.7
    let push_value = 7;
    let state1 = TraceState::from_vec(1, 0, 1, &vec![0,  1, 2, 3, 4,  0, 0, 0,  1, 1, 1, 1, 1,  0, 0,  0,  0]);

    let mut sponge = [1, 2, 3, 4];
    apply_hacc_round(&mut sponge, state1.op_code(), push_value, 0);

    let state2 = build_state(&sponge, push_value);

    let mut evaluations = vec![0; 4];
    enforce_hacc(&mut evaluations, &state1, &state2, &ark[0], 1);
    assert_eq!(vec![0, 0, 0, 0], evaluations);

    // correct transition, non-push op
    let state1 = TraceState::from_vec(1, 0, 1, &vec![0,  1, 2, 3, 4,  0, 0, 0,  0, 0, 0, 0, 0,  1, 1,  0,  0]);

    let mut sponge = [1, 2, 3, 4];
    apply_hacc_round(&mut sponge, state1.op_code(), 0, 0);

    let state2 = build_state(&sponge, 9);
    let mut evaluations = vec![0; 4];
    enforce_hacc(&mut evaluations, &state1, &state2, &ark[0], 1);
    assert_eq!(vec![0, 0, 0, 0], evaluations);

    // incorrect transition, push.7
    let push_value = 7;
    let state1 = TraceState::from_vec(1, 0, 1, &vec![0,  1, 2, 3, 4,  0, 0, 0,  1, 1, 1, 1, 1,  0, 0,  0,  0]);

    let mut sponge = [1, 2, 3, 4];
    apply_hacc_round(&mut sponge, state1.op_code(), push_value, 0);

    let state2 = build_state(&sponge, push_value - 1);

    let mut evaluations = vec![0; 4];
    enforce_hacc(&mut evaluations, &state1, &state2, &ark[0], 1);
    assert_eq!(vec![0, 340282366920938463463374557953744961536, 0, 0], evaluations);

    // incorrect transition, non-push op
    let state1 = TraceState::from_vec(1, 0, 1, &vec![0,  1, 2, 3, 4,  0, 0, 0,  0, 0, 0, 0, 0,  1, 1,  0,  0]);

    let mut sponge = [1, 2, 3, 4];
    apply_hacc_round(&mut sponge, state1.op_code(), 9, 0);

    let state2 = build_state(&sponge, 9);
    let mut evaluations = vec![0; 4];
    enforce_hacc(&mut evaluations, &state1, &state2, &ark[0], 1);
    assert_eq!(vec![0, 340282366920938463463374557953744961528, 0, 0], evaluations);
}

fn build_state(sponge: &[u128; STATE_WIDTH], push_value: u128) -> TraceState {
    let state = vec![
        0, sponge[0], sponge[1], sponge[2], sponge[3],  1, 1, 1,  1, 1, 1, 1, 1,  1, 1,  0,  push_value,
    ];
    TraceState::from_vec(1, 0, 1, &state)
}
