use distaff::crypto::{ blake3, HashFunction };
use distaff::opcodes;
use distaff::programs::Program;
use distaff::programs::program2::Program as BlockProgram;
use distaff::programs::blocks::validate_block_list;
use distaff::programs::blocks::{ ExecutionHint, Group, Loop, ProgramBlock, Span, Switch };
use distaff::programs::hashing::{ acc_hash_round, hash_op, ACC_NUM_ROUNDS };

// TESTS
// ================================================================================================

#[test]
fn mod_single_block() {
    let block = Span::new_block(vec![opcodes::NOOP; 15]);

    let program = Program::from_proc(vec![block]);
    let procedure = program.get_proc(0);
    let (step, hash) = traverse_true_branch(procedure.body(), &mut vec![], 0, 0, 0);

    assert_eq!(*program.hash(), hash_to_bytes(&hash));
    assert_eq!(31, step);
}

#[test]
fn mod_linear_blocks() {
    let block1 = Span::new_block(vec![opcodes::NOOP; 15]);

    let inner_block1 = Span::new_block(vec![opcodes::ADD; 15]);
    let block2 = Group::new_block(vec![inner_block1]);

    let inner_block2 = Span::new_block(vec![opcodes::MUL; 15]);
    let block3 = Group::new_block(vec![inner_block2]);

    // sequence of blocks ending with group block
    let program = Program::from_proc(vec![block1.clone(), block2.clone(), block3.clone()]);
    let procedure = program.get_proc(0);
    let (step, hash) = traverse_true_branch(procedure.body(), &mut vec![], 0, 0, 0);

    assert_eq!(*program.hash(), hash_to_bytes(&hash));
    assert_eq!(95, step);

    // sequence of blocks ending with span block
    let block4 = Span::new_block(vec![opcodes::INV; 15]);

    let program = Program::from_proc(vec![block1, block2, block3, block4]);
    let procedure = program.get_proc(0);
    let (step, hash) = traverse_true_branch(procedure.body(), &mut vec![], 0, 0, 0);

    assert_eq!(*program.hash(), hash_to_bytes(&hash));
    assert_eq!(111, step);
}

#[test]
fn mod_nested_blocks() {
    let block1 = Span::new_block(vec![opcodes::NOOP; 15]);

    let inner_block1 = Span::new_block(vec![opcodes::ADD; 15]);
    let block2 = Group::new_block(vec![inner_block1]);

    let inner_block2 = Span::new_block(vec![opcodes::MUL; 15]);
    let inner_inner_block1 = Span::new_block(vec![opcodes::INV; 15]);
    let inner_block3 = Group::new_block(vec![inner_inner_block1]);
    let block3 = Group::new_block(vec![inner_block2, inner_block3]);

    // sequence of blocks ending with group block
    let program = Program::from_proc(vec![block1, block2, block3]);
    let procedure = program.get_proc(0);
    let (step, hash) = traverse_true_branch(procedure.body(), &mut vec![], 0, 0, 0);

    assert_eq!(*program.hash(), hash_to_bytes(&hash));
    assert_eq!(127, step);
}

#[test]
fn mod_conditional_program() {
    let block1 = Span::new_block(vec![opcodes::NOOP; 15]);

    let t_branch = vec![Span::new_block(vec![
        opcodes::ASSERT, opcodes::ADD, opcodes::ADD, opcodes::ADD,
        opcodes::ADD,    opcodes::ADD, opcodes::ADD, opcodes::ADD,
        opcodes::ADD,    opcodes::ADD, opcodes::ADD, opcodes::ADD,
        opcodes::ADD,    opcodes::ADD, opcodes::ADD,
    ])];
    let f_branch = vec![Span::new_block(vec![
        opcodes::NOT, opcodes::ASSERT, opcodes::MUL, opcodes::MUL,
        opcodes::MUL, opcodes::MUL,    opcodes::MUL, opcodes::MUL,
        opcodes::MUL, opcodes::MUL,    opcodes::MUL, opcodes::MUL,
        opcodes::MUL, opcodes::MUL,    opcodes::MUL,
    ])];
    let block2 = Switch::new_block(t_branch, f_branch);

    let program = Program::from_proc(vec![block1, block2]);
    let procedure = program.get_proc(0);

    // true branch execution
    let (step, hash) = traverse_true_branch(procedure.body(), &mut vec![1], 0, 0, 0);
    assert_eq!(*program.hash(), hash_to_bytes(&hash));
    assert_eq!(63, step);

    // false branch execution
    let (step, hash) = traverse_true_branch(procedure.body(), &mut vec![0], 0, 0, 0);
    assert_eq!(*program.hash(), hash_to_bytes(&hash));
    assert_eq!(63, step);
}

#[test]
fn mod_simple_loop() {
    let block1 = Span::new_block(vec![opcodes::NOOP; 15]);

    let loop_body = vec![Span::new_block(vec![
        opcodes::ASSERT, opcodes::ADD, opcodes::ADD, opcodes::ADD,
        opcodes::ADD,    opcodes::ADD, opcodes::ADD, opcodes::ADD,
        opcodes::ADD,    opcodes::ADD, opcodes::ADD, opcodes::ADD,
        opcodes::ADD,    opcodes::ADD, opcodes::ADD,
    ])];
    let block2 = Loop::new_block(loop_body);

    let program = Program::from_proc(vec![block1, block2]);
    let procedure = program.get_proc(0);

    // loop not entered
    let (step, hash) = traverse_true_branch(procedure.body(), &mut vec![0], 0, 0, 0);
    assert_eq!(*program.hash(), hash_to_bytes(&hash));
    assert_eq!(63, step);

    // loop executed once
    let (step, hash) = traverse_true_branch(procedure.body(), &mut vec![0, 1], 0, 0, 0);
    assert_eq!(*program.hash(), hash_to_bytes(&hash));
    assert_eq!(63, step);

    // loop executed 3 times
    let (step, hash) = traverse_true_branch(procedure.body(), &mut vec![0, 1, 1, 1], 0, 0, 0);
    assert_eq!(*program.hash(), hash_to_bytes(&hash));
    assert_eq!(95, step);
}

#[test]
fn tests_single_block() {
    let block = Span::new_block(vec![opcodes::NOOP; 15]);

    let program = BlockProgram::new(vec![block]);
    let (step, hash) = traverse_true_branch(program.body(), &mut vec![], 0, 0, 0);

    assert_eq!(program.hash(), hash);
    assert_eq!(31, step);
}

#[test]
fn tests_linear_blocks() {
    let block1 = Span::new_block(vec![opcodes::NOOP; 15]);

    let inner_block1 = Span::new_block(vec![opcodes::ADD; 15]);
    let block2 = Group::new_block(vec![inner_block1]);

    let inner_block2 = Span::new_block(vec![opcodes::MUL; 15]);
    let block3 = Group::new_block(vec![inner_block2]);

    // sequence of blocks ending with group block
    let program = BlockProgram::new(vec![block1.clone(), block2.clone(), block3.clone()]);
    let (step, hash) = traverse_true_branch(program.body(), &mut vec![], 0, 0, 0);

    assert_eq!(program.hash(), hash);
    assert_eq!(95, step);

    // sequence of blocks ending with span block
    let block4 = Span::new_block(vec![opcodes::INV; 15]);

    let program = BlockProgram::new(vec![block1, block2, block3, block4]);
    let (step, hash) = traverse_true_branch(program.body(), &mut vec![], 0, 0, 0);

    assert_eq!(program.hash(), hash);
    assert_eq!(111, step);
}

#[test]
fn tests_nested_blocks() {
    let block1 = Span::new_block(vec![opcodes::NOOP; 15]);

    let inner_block1 = Span::new_block(vec![opcodes::ADD; 15]);
    let block2 = Group::new_block(vec![inner_block1]);

    let inner_block2 = Span::new_block(vec![opcodes::MUL; 15]);
    let inner_inner_block1 = Span::new_block(vec![opcodes::INV; 15]);
    let inner_block3 = Group::new_block(vec![inner_inner_block1]);
    let block3 = Group::new_block(vec![inner_block2, inner_block3]);

    // sequence of blocks ending with group block
    let program = BlockProgram::new(vec![block1, block2, block3]);
    let (step, hash) = traverse_true_branch(program.body(), &mut vec![], 0, 0, 0);

    assert_eq!(program.hash(), hash);
    assert_eq!(127, step);
}

#[test]
fn tests_conditional_program() {
    let block1 = Span::new_block(vec![opcodes::NOOP; 15]);

    let t_branch = vec![Span::new_block(vec![
        opcodes::ASSERT, opcodes::ADD, opcodes::ADD, opcodes::ADD,
        opcodes::ADD,    opcodes::ADD, opcodes::ADD, opcodes::ADD,
        opcodes::ADD,    opcodes::ADD, opcodes::ADD, opcodes::ADD,
        opcodes::ADD,    opcodes::ADD, opcodes::ADD,
    ])];
    let f_branch = vec![Span::new_block(vec![
        opcodes::NOT, opcodes::ASSERT, opcodes::MUL, opcodes::MUL,
        opcodes::MUL, opcodes::MUL,    opcodes::MUL, opcodes::MUL,
        opcodes::MUL, opcodes::MUL,    opcodes::MUL, opcodes::MUL,
        opcodes::MUL, opcodes::MUL,    opcodes::MUL,
    ])];
    let block2 = Switch::new_block(t_branch, f_branch);

    let program = BlockProgram::new(vec![block1, block2]);

    // true branch execution
    let (step, hash) = traverse_true_branch(program.body(), &mut vec![1], 0, 0, 0);
    assert_eq!(program.hash(), hash);
    assert_eq!(63, step);

    // false branch execution
    let (step, hash) = traverse_true_branch(program.body(), &mut vec![0], 0, 0, 0);
    assert_eq!(program.hash(), hash);
    assert_eq!(63, step);
}

#[test]
fn tests_simple_loop() {
    let block1 = Span::new_block(vec![opcodes::NOOP; 15]);

    let loop_body = vec![Span::new_block(vec![
        opcodes::ASSERT, opcodes::ADD, opcodes::ADD, opcodes::ADD,
        opcodes::ADD,    opcodes::ADD, opcodes::ADD, opcodes::ADD,
        opcodes::ADD,    opcodes::ADD, opcodes::ADD, opcodes::ADD,
        opcodes::ADD,    opcodes::ADD, opcodes::ADD,
    ])];
    let block2 = Loop::new_block(loop_body);

    let program = BlockProgram::new(vec![block1, block2]);

    // loop not entered
    let (step, hash) = traverse_true_branch(program.body(), &mut vec![0], 0, 0, 0);
    assert_eq!(program.hash(), hash);
    assert_eq!(63, step);

    // loop executed once
    let (step, hash) = traverse_true_branch(program.body(), &mut vec![0, 1], 0, 0, 0);
    assert_eq!(program.hash(), hash);
    assert_eq!(63, step);

    // loop executed 3 times
    let (step, hash) = traverse_true_branch(program.body(), &mut vec![0, 1, 1, 1], 0, 0, 0);
    assert_eq!(program.hash(), hash);
    assert_eq!(95, step);
}

#[test]
fn program_with_two_procedures() {
    let block1 = Group::new(vec![Span::new_block(vec![opcodes::ADD; 15])]);
    let block2 = Group::new(vec![Span::new_block(vec![opcodes::MUL; 15])]);

    let program = Program::new(vec![block1.clone(), block2.clone()], HashFunction::Blake3);

    let (_, hash1) = traverse_true_branch(block1.body(), &mut vec![], 0, 0, 0);
    let (_, hash2) = traverse_true_branch(block2.body(), &mut vec![], 0, 0, 0);

    let buf = [hash_to_bytes(&hash1), hash_to_bytes(&hash2)].concat();
    let mut program_hash = [0u8; 32];
    blake3(&buf, &mut program_hash);

    assert_eq!(*program.hash(), program_hash);
}

#[test]
fn procedure_authentication() {
    let block1 = Group::new(vec![Span::new_block(vec![opcodes::ADD; 15])]);
    let block2 = Group::new(vec![Span::new_block(vec![opcodes::MUL; 15])]);

    let program = Program::new(vec![block1.clone(), block2.clone()], HashFunction::Blake3);

    let (_, hash1) = traverse_true_branch(block1.body(), &mut vec![], 0, 0, 0);
    let hash1 = hash_to_bytes(&hash1);
    let (_, hash2) = traverse_true_branch(block2.body(), &mut vec![], 0, 0, 0);
    let hash2 = hash_to_bytes(&hash2);

    let path1 = program.get_proc_path(0);
    assert_eq!(vec![hash1, hash2], path1);
    assert!(Program::verify_proc_path(program.hash(), 0, &path1, HashFunction::Blake3));

    let path2 = program.get_proc_path(1);
    assert_eq!(vec![hash2, hash1], path2);
    assert!(Program::verify_proc_path(program.hash(), 1, &path2, HashFunction::Blake3));
}

#[test]
fn procedure_paths_of_four_procedures() {
    let procs: Vec<Group> = [opcodes::ADD, opcodes::MUL, opcodes::INV, opcodes::NEG]
        .iter()
        .map(|&op| Group::new(vec![Span::new_block(vec![op; 15])]))
        .collect();
    let program = Program::new(procs, HashFunction::Blake3);
    assert_eq!(4, program.proc_count());
    for i in 0..4 {
        let path = program.get_proc_path(i);
        assert_eq!(3, path.len());
        assert!(Program::verify_proc_path(program.hash(), i, &path, HashFunction::Blake3));
        // a path does not verify for another leaf position
        assert!(!Program::verify_proc_path(program.hash(), i ^ 1, &path, HashFunction::Blake3));
    }
}

#[test]
fn three_procedures_are_padded() {
    let procs: Vec<Group> = [opcodes::ADD, opcodes::MUL, opcodes::INV]
        .iter()
        .map(|&op| Group::new(vec![Span::new_block(vec![op; 15])]))
        .collect();
    let program = Program::new(procs, HashFunction::Blake3);
    assert_eq!(3, program.proc_count());
    let path = program.get_proc_path(3);
    assert_eq!([0u8; 32], path[0]);
    assert!(Program::verify_proc_path(program.hash(), 3, &path, HashFunction::Blake3));
}

#[test]
fn span_merge_and_hints() {
    let mut hints = std::collections::HashMap::new();
    hints.insert(8, ExecutionHint::PushValue(7));
    let mut ops = vec![opcodes::NOOP; 15];
    ops[8] = opcodes::PUSH;
    let span1 = Span::new(ops, hints);
    let span2 = Span::new(vec![opcodes::PUSH; 1].into_iter().chain(vec![opcodes::ADD; 14]).collect(), {
        let mut h = std::collections::HashMap::new();
        h.insert(0, ExecutionHint::PushValue(9));
        h
    });
    let merged = Span::merge(&span1, &span2);
    assert_eq!(31, merged.length());
    assert_eq!((opcodes::NOOP, ExecutionHint::NoHint), merged.get_op(15));
    assert_eq!((opcodes::PUSH, ExecutionHint::PushValue(7)), merged.get_op(8));
    assert_eq!((opcodes::PUSH, ExecutionHint::PushValue(9)), merged.get_op(16));
    assert!(merged.starts_with(&[opcodes::NOOP, opcodes::NOOP]));
    assert!(!merged.starts_with(&[opcodes::ADD]));
}

// HELPER FUNCTIONS
// ================================================================================================

fn hash_to_bytes(hash: &[u128; 4]) -> [u8; 32] {
    let mut hash_bytes = [0u8; 32];
    hash_bytes[..16].copy_from_slice(&hash[0].to_le_bytes());
    hash_bytes[16..].copy_from_slice(&hash[1].to_le_bytes());
    hash_bytes
}

fn traverse(block: &ProgramBlock, stack: &mut Vec<u128>, hash: &mut [u128; 4], mut step: usize) -> usize {
    match block {
        ProgramBlock::Span(block) => {
            for i in 0..block.length() {
                let (op_code, op_hint) = block.get_op(i);
                let op_value = match op_hint {
                    ExecutionHint::PushValue(value) => value,
                    _ => 0,
                };
                hash_op(hash, op_code, op_value, step);
                step += 1;
            }
        },
        ProgramBlock::Group(block) => {
            step += 1; // BEGIN
            let (new_step, state) = traverse_true_branch(block.body(), stack, hash[0], 0, step);
            hash.copy_from_slice(&state);
            step = new_step;
        },
        ProgramBlock::Switch(block) => {
            step += 1; // BEGIN
            let condition = stack.pop().unwrap();
            match condition {
                0 => {
                    let blocks = block.false_branch();
                    let sibling_hash = block.true_branch_hash();
                    let (new_step, state) = traverse_false_branch(blocks, stack, hash[0], sibling_hash, step);
                    hash.copy_from_slice(&state);
                    step = new_step;
                },
                1 => {
                    let blocks = block.true_branch();
                    let sibling_hash = block.false_branch_hash();
                    let (new_step, state) = traverse_true_branch(blocks, stack, hash[0], sibling_hash, step);
                    hash.copy_from_slice(&state);
                    step = new_step;
                },
                _ => panic!("cannot select a branch based on a non-binary condition {}", condition),
            };
        },
        ProgramBlock::Loop(block) => {
            let condition = stack.pop().unwrap();
            match condition {
                0 => {
                    step += 1; // BEGIN
                    let blocks = block.skip();
                    let body_hash = block.body_hash();
                    let (new_step, state) = traverse_false_branch(blocks, stack, hash[0], body_hash, step);
                    hash.copy_from_slice(&state);
                    step = new_step;
                },
                1 => {
                    step += 1; // LOOP
                    let body = block.body();
                    let body_hash = block.body_hash();
                    let skip_hash = block.skip_hash();
                    let (new_step, state) = traverse_loop_body(body, stack, hash[0], body_hash, skip_hash, step);
                    hash.copy_from_slice(&state);
                    step = new_step;
                },
                _ => panic!("cannot enter loop based on a non-binary condition {}", condition),
            };
        },
    }
    step
}

fn traverse_true_branch(blocks: &[ProgramBlock], stack: &mut Vec<u128>, parent_hash: u128, sibling_hash: u128, mut step: usize) -> (usize, [u128; 4]) {
    let mut state = [0, 0, 0, 0];
    for i in 0..blocks.len() {
        if i != 0 && blocks[i].is_span() {
            acc_hash_round(&mut state, step);
            step += 1;
        }
        step = traverse(&blocks[i], stack, &mut state, step);
    }

    acc_hash_round(&mut state, step);
    step += 1;

    step += 1; // TEND

    state = [parent_hash, state[0], sibling_hash, 0];
    for _ in 0..ACC_NUM_ROUNDS {
        acc_hash_round(&mut state, step);
        step += 1;
    }
    (step, state)
}

fn traverse_false_branch(blocks: &[ProgramBlock], stack: &mut Vec<u128>, parent_hash: u128, sibling_hash: u128, mut step: usize) -> (usize, [u128; 4]) {
    let mut state = [0, 0, 0, 0];
    for i in 0..blocks.len() {
        if i != 0 && blocks[i].is_span() {
            acc_hash_round(&mut state, step);
            step += 1;
        }
        step = traverse(&blocks[i], stack, &mut state, step);
    }

    acc_hash_round(&mut state, step);
    step += 1;

    step += 1; // FEND

    state = [parent_hash, sibling_hash, state[0], 0];
    for _ in 0..ACC_NUM_ROUNDS {
        acc_hash_round(&mut state, step);
        step += 1;
    }
    (step, state)
}

fn traverse_loop_body(blocks: &[ProgramBlock], stack: &mut Vec<u128>, parent_hash: u128, body_hash: u128, skip_hash: u128, mut step: usize) -> (usize, [u128; 4]) {
    let mut state = [0, 0, 0, 0];
    loop {
        for i in 0..blocks.len() {
            if i != 0 && blocks[i].is_span() {
                acc_hash_round(&mut state, step);
                step += 1;
            }
            step = traverse(&blocks[i], stack, &mut state, step);
        }

        assert!(state[0] == body_hash, "loop image didn't match loop body hash");

        step += 1; // WRAP

        let condition = stack.pop().unwrap();
        match condition {
            0 => break,
            1 => state = [0, 0, 0, 0],
            _ => panic!("cannot exit loop based on a non-binary condition {}", condition),
        };
    }

    step += 1; // TEND

    state = [parent_hash, body_hash, skip_hash, 0];
    for _ in 0..ACC_NUM_ROUNDS {
        acc_hash_round(&mut state, step);
        step += 1;
    }
    (step, state)
}

#[test]
fn block_list_rejects_adjacent_spans() {
    let a = Span::new_block(vec![opcodes::NOOP; 15]);
    let clone = |b: &ProgramBlock| b.clone();
    let valid = vec![clone(&a), Group::new_block(vec![clone(&a)]), clone(&a)];
    assert!(validate_block_list(&valid, &[]));
    // two adjacent spans, although a control block comes earlier
    let invalid = vec![clone(&a), Group::new_block(vec![clone(&a)]), clone(&a), clone(&a)];
    assert!(!validate_block_list(&invalid, &[]));
    // a span right after the first span
    let invalid = vec![clone(&a), clone(&a)];
    assert!(!validate_block_list(&invalid, &[]));
}
