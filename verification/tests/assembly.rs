use std::collections::HashMap;
use distaff::opcodes;
use distaff::programs::assembly::{ compile, find_matching_else, find_matching_endif, parse_op_token };
use distaff::programs::assembly::errors::AssemblyError;
use distaff::programs::assembly::parsers::{
    parse_choose, parse_dup, parse_gt, parse_hash, parse_mpath, parse_noop, parse_pad, parse_push,
    parse_rc, parse_read, parse_roll, parse_sub,
};
use distaff::programs::assembly::text::{ split_dots, split_whitespace };
use distaff::programs::blocks::ExecutionHint;
use distaff::programs::opcode_map::op_to_str;

fn op(code: u8) -> u128 {
    code as u128
}

#[test]
fn error_messages() {
    let e = AssemblyError::empty_program();
    assert_eq!("a program must contain at least one operation", e.message());
    assert_eq!("begin", e.operation());
    assert_eq!(0, e.step());

    let e = AssemblyError::invalid_op(&["foo", "bar"], 3);
    assert_eq!("operation foo.bar is invalid", e.message());
    assert_eq!("foo.bar", e.operation());
    assert_eq!(3, e.step());
    assert_eq!("assembly error at 3: operation foo.bar is invalid", e.to_string());

    assert_eq!("malformed operation push: parameter is missing", AssemblyError::missing_param(&["push"], 1).message());
    assert_eq!("malformed operation add: too many parameters provided", AssemblyError::extra_param(&["add", "1"], 1).message());
    assert_eq!("malformed operation dup: parameter 'x' is invalid", AssemblyError::invalid_param(&["dup", "x"], 1).message());
    assert_eq!("malformed operation dup: because", AssemblyError::invalid_param_reason(&["dup", "9"], 1, String::from("because")).message());
    assert_eq!("invalid block head 'foo'", AssemblyError::invalid_block_head(&["foo"], 2).message());
    assert_eq!("else without matching if", AssemblyError::dangling_else(4).message());
    assert_eq!("end without matching block/if/while", AssemblyError::dangling_end(4).message());
    assert_eq!("block without matching end", AssemblyError::unmatched_block(4).message());
    assert_eq!("if without matching else/end", AssemblyError::unmatched_if(4).message());
    assert_eq!("while without matching end", AssemblyError::unmatched_while(4).message());
    assert_eq!("else without matching end", AssemblyError::unmatched_else(4).message());
    assert_eq!("endif without matching if", AssemblyError::unmatched_endif(4).message());
    assert_eq!("if without matching else", AssemblyError::missing_else(4).message());
    assert_eq!("if without matching else/endif", AssemblyError::dangling_if(4).message());
    assert_eq!("branch if.true is empty", AssemblyError::empty_branch("if.true", 4).message());
}

#[test]
fn simple_parsers() {
    let mut program = vec![];
    assert!(parse_noop(&mut program, &["noop"], 0).unwrap());
    assert!(parse_sub(&mut program, &["sub"], 1).unwrap());
    assert_eq!(vec![op(opcodes::NOOP), op(opcodes::NEG), op(opcodes::ADD)], program);

    let e = parse_noop(&mut program, &["noop", "1"], 2).unwrap_err();
    assert_eq!("malformed operation noop: too many parameters provided", e.message());
    assert_eq!(3, program.len());
}

#[test]
fn parameter_parsers() {
    let mut program = vec![];
    parse_dup(&mut program, &["dup", "3"], 0).unwrap();
    assert_eq!(vec![op(opcodes::DUP4), op(opcodes::ROLL4), op(opcodes::DROP)], program);

    let mut program = vec![];
    parse_pad(&mut program, &["pad"], 0).unwrap();
    assert_eq!(vec![op(opcodes::PAD2), op(opcodes::DROP)], program);

    let mut program = vec![];
    parse_roll(&mut program, &["roll", "+8"], 0).unwrap();
    assert_eq!(vec![op(opcodes::ROLL8)], program);

    let e = parse_choose(&mut program, &["choose", "3"], 5).unwrap_err();
    assert_eq!("malformed operation choose: parameter 3 is invalid; allowed values are: [1, 2]", e.message());
    assert_eq!("choose.3", e.operation());
    assert_eq!(5, e.step());

    let e = parse_dup(&mut program, &["dup", "0"], 0).unwrap_err();
    assert_eq!("malformed operation dup: parameter value must be greater than 0", e.message());

    let e = parse_dup(&mut program, &["dup", "4294967296"], 0).unwrap_err();
    assert_eq!("malformed operation dup: parameter '4294967296' is invalid", e.message());

    let e = parse_dup(&mut program, &["dup", "1", "2"], 0).unwrap_err();
    assert_eq!("malformed operation dup: too many parameters provided", e.message());
    assert_eq!(vec![op(opcodes::ROLL8)], program);
}

#[test]
fn push_parser() {
    let mut program = vec![];
    parse_push(&mut program, &["push", "12"], 0).unwrap();
    parse_push(&mut program, &["push", "0xff"], 1).unwrap();
    assert_eq!(vec![op(opcodes::PUSH), 12, op(opcodes::PUSH), 255], program);

    let e = parse_push(&mut program, &["push"], 2).unwrap_err();
    assert_eq!("malformed operation push: parameter is missing", e.message());

    let e = parse_push(&mut program, &["push", "0xzz"], 2).unwrap_err();
    assert_eq!("malformed operation push: parameter '0xzz' is invalid", e.message());

    let e = parse_push(&mut program, &["push", "340282366920938463463374557953744961537"], 2).unwrap_err();
    assert_eq!(
        "malformed operation push: parameter value must be smaller than 340282366920938463463374557953744961537",
        e.message());
    assert_eq!(4, program.len());
}

#[test]
fn read_parser() {
    let mut program = vec![];
    parse_read(&mut program, &["read"], 0).unwrap();
    parse_read(&mut program, &["read", "a"], 1).unwrap();
    parse_read(&mut program, &["read", "ab"], 2).unwrap();
    assert_eq!(vec![op(opcodes::READ), op(opcodes::READ), op(opcodes::READ2)], program);

    let e = parse_read(&mut program, &["read", "b"], 3).unwrap_err();
    assert_eq!("malformed operation read: parameter b is invalid; allowed values are: [a, ab]", e.message());
}

#[test]
fn comparison_parsers() {
    let mut program = vec![op(opcodes::NOOP)];
    let mut hints = HashMap::new();
    parse_gt(&mut program, &mut hints, &["gt", "4"], 0).unwrap();
    assert_eq!(1 + 5 + 4 + 10, program.len());
    assert_eq!(8, program[5]);
    assert_eq!(Some(&ExecutionHint::CmpStart(4)), hints.get(&6));
    assert_eq!(op(opcodes::CMP), program[6]);

    let mut program = vec![];
    let mut hints = HashMap::new();
    parse_rc(&mut program, &mut hints, &["rc", "16"], 0).unwrap();
    assert_eq!(4 + 16 + 2, program.len());
    assert_eq!(1 << 15, program[3]);
    assert_eq!(Some(&ExecutionHint::RcStart(16)), hints.get(&4));

    let e = parse_gt(&mut program, &mut hints, &["gt", "3"], 7).unwrap_err();
    assert_eq!("malformed operation gt: parameter 3 is invalid; value must be between 4 and 128", e.message());
}

#[test]
fn hash_parsers() {
    let mut program = vec![];
    parse_hash(&mut program, &["hash", "2"], 0).unwrap();
    assert_eq!(16 + 10 + 1, program.len());
    assert_eq!(op(opcodes::NOOP), program[2]);
    assert_eq!(op(opcodes::RESCR), program[16]);
    assert_eq!(op(opcodes::DROP4), program[26]);

    let mut program = vec![];
    parse_mpath(&mut program, &["mpath", "3"], 0).unwrap();
    assert_eq!(16 + 32 + 28, program.len());
    assert_eq!(op(opcodes::READ2), program[0]);
    assert_eq!(op(opcodes::RESCR), program[16]);
    assert_eq!(op(opcodes::CHOOSE2), program[16 + 32 + 27]);

    let e = parse_mpath(&mut program, &["mpath", "1"], 0).unwrap_err();
    assert_eq!("malformed operation mpath: parameter 1 is invalid; value must be between 2 and 256", e.message());
}

#[test]
fn op_tokens() {
    let mut program = vec![];
    let mut hints = HashMap::new();
    parse_op_token("push.7", &mut program, &mut hints, 0).unwrap();
    parse_op_token("add", &mut program, &mut hints, 1).unwrap();
    assert_eq!(vec![op(opcodes::PUSH), 7, op(opcodes::ADD)], program);

    let e = parse_op_token("cmp.4", &mut program, &mut hints, 2).unwrap_err();
    assert_eq!("operation cmp.4 is invalid", e.message());
}

#[test]
fn splitting() {
    assert_eq!(vec!["push.1", "add"], split_whitespace("  push.1\n\t add  "));
    assert!(split_whitespace(" \u{3000} ").is_empty());
    assert_eq!(vec!["a", "", "b"], split_dots("a..b"));
    assert_eq!(vec!["push", ""], split_dots("push."));
}

#[test]
fn matching_branches() {
    let tokens = ["if.true", "add", "if.true", "mul", "else", "inv", "endif", "else", "neg", "endif"];
    assert_eq!(7, find_matching_else(&tokens, 0).unwrap());
    assert_eq!(9, find_matching_endif(&tokens, 7).unwrap());

    let tokens = ["if.true", "add", "endif"];
    assert_eq!("if without matching else", find_matching_else(&tokens, 0).unwrap_err().message());

    let tokens = ["if.true", "add"];
    assert_eq!("if without matching else/endif", find_matching_else(&tokens, 0).unwrap_err().message());
}

#[test]
fn compiling() {
    let graph = compile("push.1 push.2 add").unwrap();
    assert_eq!(&[op(opcodes::BEGIN), op(opcodes::PUSH), 1, op(opcodes::PUSH), 2, op(opcodes::ADD)], graph.operations());
    assert!(!graph.has_next());

    let graph = compile("push.1 if.true add else mul endif").unwrap();
    assert!(graph.has_next());
    assert_eq!(&[op(opcodes::ASSERT), op(opcodes::ADD)], graph.true_branch().operations());
    assert_eq!(&[op(opcodes::NOT), op(opcodes::ASSERT), op(opcodes::MUL)], graph.false_branch().operations());

    assert_eq!("a program must contain at least one operation", compile("   ").unwrap_err().message());
    assert_eq!("else without matching end", compile("add else").unwrap_err().message());
    assert_eq!("endif without matching if", compile("add endif").unwrap_err().message());
    assert_eq!("operation foo is invalid", compile("foo").unwrap_err().message());
    assert_eq!("branch if.true is empty", compile("add if.true if.true add else mul endif else mul endif").unwrap_err().message());
}

#[test]
fn operation_names() {
    assert_eq!("noop", op_to_str(opcodes::NOOP, ExecutionHint::NoHint));
    assert_eq!("push(42)", op_to_str(opcodes::PUSH, ExecutionHint::PushValue(42)));
    assert_eq!("rescr", op_to_str(opcodes::RESCR, ExecutionHint::NoHint));
    assert_eq!("unknown 200", op_to_str(200, ExecutionHint::NoHint));
}

#[test]
fn compiling_nested_branches() {
    let graph = compile("push.1 if.true add if.true mul else inv endif else neg endif").unwrap();
    let t = graph.true_branch();
    assert_eq!(&[op(opcodes::ASSERT), op(opcodes::ADD)], t.operations());
    assert!(t.has_next());
    assert_eq!(&[op(opcodes::ASSERT), op(opcodes::MUL)], t.true_branch().operations());
    assert_eq!(&[op(opcodes::NOT), op(opcodes::ASSERT), op(opcodes::INV)], t.false_branch().operations());
    assert!(!t.true_branch().has_next());
    assert_eq!(&[op(opcodes::NOT), op(opcodes::ASSERT), op(opcodes::NEG)], graph.false_branch().operations());

    // an error in a nested branch is the error of the whole program
    assert_eq!("operation foo is invalid", compile("add if.true add if.true foo else inv endif else neg endif").unwrap_err().message());
    assert_eq!("branch else is empty", compile("add if.true add if.true mul else endif else neg endif").unwrap_err().message());
}
