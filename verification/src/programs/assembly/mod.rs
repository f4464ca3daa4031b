use vstd::prelude::*;
use std::collections::HashMap;
use crate::opcodes;
use super::blocks::ExecutionHint;
use super::graph::ExecutionGraph;

pub mod text;
pub mod errors;
pub mod parsers;

use text::{ views, join_dot, split_whitespace, split_dots, fields_from, str_equals, words_from };
use errors::{ AssemblyError, is_op_error };
use parsers::{
    parse_noop, parse_assert, parse_push, parse_read, parse_dup, parse_pad, parse_pick, parse_drop, parse_swap, parse_roll, parse_add, parse_sub, parse_mul, parse_div, parse_neg, parse_inv, parse_not, parse_eq, parse_gt, parse_lt, parse_rc, parse_choose, parse_hash, parse_mpath, simple_parse, choice_parse, push_parse, read_parse, hash_parse, mpath_parse, rc_parse, comparison_parse, gt_tail, lt_tail, dup_ops, pad_ops, pick_ops, drop_ops, swap_ops, roll_ops, choose_ops,
};

verus! {

// SPECIFICATIONS
// ================================================================================================

/// The outcome of parsing the operation whose fields are `op`: the parser named by the first
/// field appends its operations (and hints); an unknown name is an error.
pub open spec fn token_parse(
    op: Seq<&str>,
    step: usize,
    before: Seq<u128>,
    after: Seq<u128>,
    hints_before: Map<usize, ExecutionHint>,
    hints_after: Map<usize, ExecutionHint>,
    r: Result<bool, AssemblyError>,
) -> bool {
    if op[0]@ == "noop"@ {
        hints_after == hints_before && simple_parse(op, step, before, after, r, seq![opcodes::NOOP])
    } else if op[0]@ == "assert"@ {
        hints_after == hints_before && simple_parse(op, step, before, after, r, seq![opcodes::ASSERT])
    } else if op[0]@ == "push"@ {
        hints_after == hints_before && push_parse(op, step, before, after, r)
    } else if op[0]@ == "read"@ {
        hints_after == hints_before && read_parse(op, step, before, after, r)
    } else if op[0]@ == "dup"@ {
        hints_after == hints_before && choice_parse(op, step, before, after, r, |v: u32| dup_ops(v), "[1, 2, 3, 4]"@)
    } else if op[0]@ == "pad"@ {
        hints_after == hints_before && choice_parse(op, step, before, after, r, |v: u32| pad_ops(v), "[1, 2, 3, 4, 5, 6, 7, 8]"@)
    } else if op[0]@ == "pick"@ {
        hints_after == hints_before && choice_parse(op, step, before, after, r, |v: u32| pick_ops(v), "[1, 2, 3]"@)
    } else if op[0]@ == "drop"@ {
        hints_after == hints_before && choice_parse(op, step, before, after, r, |v: u32| drop_ops(v), "[1, 2, 3, 4, 5, 6, 7, 8]"@)
    } else if op[0]@ == "swap"@ {
        hints_after == hints_before && choice_parse(op, step, before, after, r, |v: u32| swap_ops(v), "[1, 2, 4]"@)
    } else if op[0]@ == "roll"@ {
        hints_after == hints_before && choice_parse(op, step, before, after, r, |v: u32| roll_ops(v), "[4, 8]"@)
    } else if op[0]@ == "add"@ {
        hints_after == hints_before && simple_parse(op, step, before, after, r, seq![opcodes::ADD])
    } else if op[0]@ == "sub"@ {
        hints_after == hints_before && simple_parse(op, step, before, after, r, seq![opcodes::NEG, opcodes::ADD])
    } else if op[0]@ == "mul"@ {
        hints_after == hints_before && simple_parse(op, step, before, after, r, seq![opcodes::MUL])
    } else if op[0]@ == "div"@ {
        hints_after == hints_before && simple_parse(op, step, before, after, r, seq![opcodes::INV, opcodes::MUL])
    } else if op[0]@ == "neg"@ {
        hints_after == hints_before && simple_parse(op, step, before, after, r, seq![opcodes::NEG])
    } else if op[0]@ == "inv"@ {
        hints_after == hints_before && simple_parse(op, step, before, after, r, seq![opcodes::INV])
    } else if op[0]@ == "not"@ {
        hints_after == hints_before && simple_parse(op, step, before, after, r, seq![opcodes::NOT])
    } else if op[0]@ == "eq"@ {
        hints_after == hints_before && simple_parse(op, step, before, after, r, seq![opcodes::EQ])
    } else if op[0]@ == "gt"@ {
        comparison_parse(op, step, before, after, hints_before, hints_after, r, gt_tail())
    } else if op[0]@ == "lt"@ {
        comparison_parse(op, step, before, after, hints_before, hints_after, r, lt_tail())
    } else if op[0]@ == "rc"@ {
        rc_parse(op, step, before, after, hints_before, hints_after, r)
    } else if op[0]@ == "choose"@ {
        hints_after == hints_before && choice_parse(op, step, before, after, r, |v: u32| choose_ops(v), "[1, 2]"@)
    } else if op[0]@ == "hash"@ {
        hints_after == hints_before && hash_parse(op, step, before, after, r)
    } else if op[0]@ == "mpath"@ {
        hints_after == hints_before && mpath_parse(op, step, before, after, r)
    } else {
        &&& after == before
        &&& hints_after == hints_before
        &&& match r {
            Ok(_) => false,
            Err(e) => is_op_error(e, op, step, "operation "@ + join_dot(views(op)) + " is invalid"@),
        }
    }
}

// PARSING
// ================================================================================================

/// Parses one token of assembly code: splits it into fields separated by "." and appends the
/// operations it stands for to `program`.
pub fn parse_op_token(
    token: &str,
    program: &mut Vec<u128>,
    hints: &mut HashMap<usize, ExecutionHint>,
    step: usize,
) -> (r: Result<bool, AssemblyError>)
    requires
        old(program)@.len() + 10000 <= usize::MAX,
    ensures
        exists|op: Seq<&str>|
            views(op) == fields_from(token@, 0) && #[trigger] token_parse(op, step, old(program)@, final(program)@, old(hints)@, final(hints)@, r),
        final(program)@.len() <= old(program)@.len() + 10000,
        final(program)@.subrange(0, old(program)@.len() as int) == old(program)@,
{
    let op = split_dots(token);
    let r =     if str_equals(op[0], "noop") {
        parse_noop(program, op.as_slice(), step)
    } else if str_equals(op[0], "assert") {
        parse_assert(program, op.as_slice(), step)
    } else if str_equals(op[0], "push") {
        parse_push(program, op.as_slice(), step)
    } else if str_equals(op[0], "read") {
        parse_read(program, op.as_slice(), step)
    } else if str_equals(op[0], "dup") {
        parse_dup(program, op.as_slice(), step)
    } else if str_equals(op[0], "pad") {
        parse_pad(program, op.as_slice(), step)
    } else if str_equals(op[0], "pick") {
        parse_pick(program, op.as_slice(), step)
    } else if str_equals(op[0], "drop") {
        parse_drop(program, op.as_slice(), step)
    } else if str_equals(op[0], "swap") {
        parse_swap(program, op.as_slice(), step)
    } else if str_equals(op[0], "roll") {
        parse_roll(program, op.as_slice(), step)
    } else if str_equals(op[0], "add") {
        parse_add(program, op.as_slice(), step)
    } else if str_equals(op[0], "sub") {
        parse_sub(program, op.as_slice(), step)
    } else if str_equals(op[0], "mul") {
        parse_mul(program, op.as_slice(), step)
    } else if str_equals(op[0], "div") {
        parse_div(program, op.as_slice(), step)
    } else if str_equals(op[0], "neg") {
        parse_neg(program, op.as_slice(), step)
    } else if str_equals(op[0], "inv") {
        parse_inv(program, op.as_slice(), step)
    } else if str_equals(op[0], "not") {
        parse_not(program, op.as_slice(), step)
    } else if str_equals(op[0], "eq") {
        parse_eq(program, op.as_slice(), step)
    } else if str_equals(op[0], "gt") {
        parse_gt(program, hints, op.as_slice(), step)
    } else if str_equals(op[0], "lt") {
        parse_lt(program, hints, op.as_slice(), step)
    } else if str_equals(op[0], "rc") {
        parse_rc(program, hints, op.as_slice(), step)
    } else if str_equals(op[0], "choose") {
        parse_choose(program, op.as_slice(), step)
    } else if str_equals(op[0], "hash") {
        parse_hash(program, op.as_slice(), step)
    } else if str_equals(op[0], "mpath") {
        parse_mpath(program, op.as_slice(), step)
    } else {
        Err(AssemblyError::invalid_op(op.as_slice(), step))
    };
    assert(token_parse(op@, step, old(program)@, program@, old(hints)@, hints@, r));
    r
}

// BRANCH MATCHING
// ================================================================================================

/// Where a scan for a matching token ends: at the matching token, at the first token which
/// cannot be matched, or at the end of the tokens.
pub enum ScanOutcome {
    Found(usize),
    UnmatchedElse(usize),
    UnmatchedEndif(usize),
    MissingElse(usize),
    Dangling,
}

/// The `else` matching the `if.true` at which a scan starts: counting `if.true`, `else` and
/// `endif` tokens from index `i` on, the first `else` which balances the `if.true` tokens; an
/// `else` or `endif` beyond the `if.true` tokens, or an `endif` beyond the `else` tokens, ends
/// the scan.
pub open spec fn else_scan(t: Seq<Seq<char>>, i: int, ifs: int, elses: int, ends: int) -> ScanOutcome
    decreases t.len() - i,
{
    if i >= t.len() || i < 0 {
        ScanOutcome::Dangling
    } else if t[i] == "if.true"@ {
        else_scan(t, i + 1, ifs + 1, elses, ends)
    } else if t[i] == "else"@ {
        if elses + 1 > ifs {
            ScanOutcome::UnmatchedElse(i as usize)
        } else if elses + 1 == ifs {
            ScanOutcome::Found(i as usize)
        } else {
            else_scan(t, i + 1, ifs, elses + 1, ends)
        }
    } else if t[i] == "endif"@ {
        if ends + 1 > ifs {
            ScanOutcome::UnmatchedEndif(i as usize)
        } else if ends + 1 > elses {
            ScanOutcome::MissingElse(i as usize)
        } else {
            else_scan(t, i + 1, ifs, elses, ends + 1)
        }
    } else {
        else_scan(t, i + 1, ifs, elses, ends)
    }
}

/// The `endif` matching the `else` at which a scan starts, counting as `else_scan` does but with
/// one `if.true` already open: the first `endif` which balances the `else` tokens.
pub open spec fn endif_scan(t: Seq<Seq<char>>, i: int, ifs: int, elses: int, ends: int) -> ScanOutcome
    decreases t.len() - i,
{
    if i >= t.len() || i < 0 {
        ScanOutcome::Dangling
    } else if t[i] == "if.true"@ {
        endif_scan(t, i + 1, ifs + 1, elses, ends)
    } else if t[i] == "else"@ {
        if elses + 1 > ifs {
            ScanOutcome::UnmatchedElse(i as usize)
        } else {
            endif_scan(t, i + 1, ifs, elses + 1, ends)
        }
    } else if t[i] == "endif"@ {
        if ends + 1 > ifs {
            ScanOutcome::UnmatchedEndif(i as usize)
        } else if ends + 1 > elses {
            ScanOutcome::MissingElse(i as usize)
        } else if ends + 1 == elses {
            ScanOutcome::Found(i as usize)
        } else {
            endif_scan(t, i + 1, ifs, elses, ends + 1)
        }
    } else {
        endif_scan(t, i + 1, ifs, elses, ends)
    }
}

/// Whether `e` is the error with the given message, step and operation.
pub open spec fn is_error(e: AssemblyError, message: Seq<char>, step: usize, op: Seq<char>) -> bool {
    e.message@ == message && e.step == step && e.op@ == op
}

/// Whether `r` is the result of a scan which ended with `outcome`; `dangling` is the error for a
/// scan which reached the end of the tokens.
pub open spec fn scan_result(r: Result<usize, AssemblyError>, outcome: ScanOutcome, dangling: spec_fn(AssemblyError) -> bool) -> bool {
    match outcome {
        ScanOutcome::Found(p) => r == Ok::<usize, AssemblyError>(p),
        ScanOutcome::UnmatchedElse(p) => r matches Err(e) && is_error(e, "else without matching end"@, p, "else"@),
        ScanOutcome::UnmatchedEndif(p) => r matches Err(e) && is_error(e, "endif without matching if"@, p, "endif"@),
        ScanOutcome::MissingElse(p) => r matches Err(e) && is_error(e, "if without matching else"@, p, "endif"@),
        ScanOutcome::Dangling => r matches Err(e) && dangling(e),
    }
}

/// Finds the `else` which matches the `if.true` at `start`.
pub fn find_matching_else(tokens: &[&str], start: usize) -> (r: Result<usize, AssemblyError>)
    ensures
        scan_result(r, else_scan(views(tokens@), start as int, 0, 0, 0),
            |e: AssemblyError| is_error(e, "if without matching else/endif"@, start, "if.true"@)),
        r matches Ok(p) ==> start <= p < tokens@.len(),
{
    let ghost t = views(tokens@);
    let mut if_ctr: usize = 0;
    let mut else_ctr: usize = 0;
    let mut end_ctr: usize = 0;
    let mut i = start;
    while i < tokens.len()
        invariant
            start <= i,
            t == views(tokens@),
            if_ctr <= i - start,
            else_ctr <= if_ctr,
            end_ctr <= if_ctr,
            else_scan(t, start as int, 0, 0, 0) == else_scan(t, i as int, if_ctr as int, else_ctr as int, end_ctr as int),
        decreases tokens@.len() - i,
    {
        let token = tokens[i];
        if str_equals(token, "if.true") {
            if_ctr = if_ctr + 1;
        } else if str_equals(token, "else") {
            if else_ctr + 1 > if_ctr {
                return Err(AssemblyError::unmatched_else(i));
            }
            else_ctr = else_ctr + 1;
            if if_ctr == else_ctr {
                return Ok(i);
            }
        } else if str_equals(token, "endif") {
            if end_ctr + 1 > if_ctr {
                return Err(AssemblyError::unmatched_endif(i));
            }
            end_ctr = end_ctr + 1;
            if end_ctr > else_ctr {
                return Err(AssemblyError::missing_else(i));
            }
        }
        i = i + 1;
    }
    Err(AssemblyError::dangling_if(start))
}

/// Finds the `endif` which matches the `else` at `start`.
pub fn find_matching_endif(tokens: &[&str], start: usize) -> (r: Result<usize, AssemblyError>)
    requires
        tokens@.len() < usize::MAX,
    ensures
        scan_result(r, endif_scan(views(tokens@), start as int, 1, 0, 0),
            |e: AssemblyError| is_error(e, "else without matching if"@, start, "else"@)),
        r matches Ok(p) ==> start <= p < tokens@.len(),
{
    let ghost t = views(tokens@);
    let mut if_ctr: usize = 1;
    let mut else_ctr: usize = 0;
    let mut end_ctr: usize = 0;
    let mut i = start;
    while i < tokens.len()
        invariant
            start <= i,
            t == views(tokens@),
            1 <= if_ctr <= i - start + 1,
            tokens@.len() < usize::MAX,
            else_ctr <= if_ctr,
            end_ctr <= if_ctr,
            endif_scan(t, start as int, 1, 0, 0) == endif_scan(t, i as int, if_ctr as int, else_ctr as int, end_ctr as int),
        decreases tokens@.len() - i,
    {
        let token = tokens[i];
        if str_equals(token, "if.true") {
            if_ctr = if_ctr + 1;
        } else if str_equals(token, "else") {
            if else_ctr + 1 > if_ctr {
                return Err(AssemblyError::unmatched_else(i));
            }
            else_ctr = else_ctr + 1;
        } else if str_equals(token, "endif") {
            if end_ctr + 1 > if_ctr {
                return Err(AssemblyError::unmatched_endif(i));
            }
            end_ctr = end_ctr + 1;
            if end_ctr > else_ctr {
                return Err(AssemblyError::missing_else(i));
            } else if end_ctr == else_ctr {
                return Ok(i);
            }
        }
        i = i + 1;
    }
    Err(AssemblyError::dangling_else(start))
}

// COMPILATION
// ================================================================================================

/// Whether a compiled branch begins with the operations of its head: ASSERT for a branch which
/// begins with `if.true`, NOT ASSERT for any other branch.
pub open spec fn branch_head_ok(g: ExecutionGraph, first: Seq<char>) -> bool {
    if first == "if.true"@ {
        g.ops().len() >= 1 && g.ops()[0] == opcodes::ASSERT as u128
    } else {
        g.ops().len() >= 2 && g.ops()[0] == opcodes::NOT as u128 && g.ops()[1] == opcodes::ASSERT as u128
    }
}

proof fn lemma_else_scan_found(t: Seq<Seq<char>>, i: int, ifs: int, elses: int, ends: int)
    requires
        t.len() <= usize::MAX,
    ensures
        else_scan(t, i, ifs, elses, ends) matches ScanOutcome::Found(p) ==> i <= p < t.len() && t[p as int] == "else"@,
    decreases t.len() - i,
{
    if 0 <= i < t.len() {
        lemma_else_scan_found(t, i + 1, ifs + 1, elses, ends);
        lemma_else_scan_found(t, i + 1, ifs, elses + 1, ends);
        lemma_else_scan_found(t, i + 1, ifs, elses, ends + 1);
        lemma_else_scan_found(t, i + 1, ifs, elses, ends);
    }
}

/// The operations with which a branch that begins with the token `first` begins: ASSERT after
/// `if.true`, NOT ASSERT after any other token.
pub open spec fn branch_head(first: Seq<char>) -> Seq<u128> {
    if first == "if.true"@ {
        seq![opcodes::ASSERT as u128]
    } else {
        seq![opcodes::NOT as u128, opcodes::ASSERT as u128]
    }
}

/// One step of the walk through the tokens of a branch, from token `i` at nesting depth `d` with
/// the operations `p` and hints `h`, to token `i2` at depth `d2` with `p2` and `h2`: an `else`
/// skips past its matching `endif`, an `endif` closes one level, and any other token but
/// `if.true` is an operation which parses without error.
pub open spec fn branch_step(
    toks: Seq<Seq<char>>,
    i: int,
    i2: int,
    d: int,
    d2: int,
    p: Seq<u128>,
    p2: Seq<u128>,
    h: Map<usize, ExecutionHint>,
    h2: Map<usize, ExecutionHint>,
) -> bool {
    &&& 0 <= i < toks.len()
    &&& if toks[i] == "else"@ {
        &&& i < i2
        &&& endif_scan(toks, i, 1, 0, 0) == ScanOutcome::Found((i2 - 1) as usize)
        &&& d2 == d
        &&& p2 == p
        &&& h2 == h
    } else if toks[i] == "endif"@ {
        &&& d > 0
        &&& d2 == d - 1
        &&& i2 == i + 1
        &&& p2 == p
        &&& h2 == h
    } else {
        &&& toks[i] != "if.true"@
        &&& i2 == i + 1
        &&& d2 == d
        &&& exists|b: bool| token_step(toks[i], i as usize, p, p2, h, h2, Ok(b))
    }
}

/// A walk of `m` steps through the tokens of the branch which begins at token `start`, at depth
/// `depth`: the visited tokens `idx`, the depths `ds`, and the operations `ps` and hints `hs`
/// gathered before each of them.
pub open spec fn branch_walk(
    toks: Seq<Seq<char>>,
    start: int,
    depth: int,
    m: int,
    idx: Seq<int>,
    ds: Seq<int>,
    ps: Seq<Seq<u128>>,
    hs: Seq<Map<usize, ExecutionHint>>,
) -> bool {
    &&& 0 <= start < toks.len()
    &&& 0 <= m
    &&& idx.len() == m + 1
    &&& ds.len() == m + 1
    &&& ps.len() == m + 1
    &&& hs.len() == m + 1
    &&& idx[0] == start + 1
    &&& ds[0] == depth
    &&& ps[0] == branch_head(toks[start])
    &&& hs[0] == Map::<usize, ExecutionHint>::empty()
    &&& forall|t: int| 0 <= t < m ==> #[trigger] branch_step(toks, idx[t], idx[t + 1], ds[t], ds[t + 1], ps[t], ps[t + 1], hs[t], hs[t + 1])
}

/// How a branch was compiled: a walk of `m` steps through its tokens (see `branch_walk`) and,
/// where the walk ends at an `if.true`, how its true branch and its false branch were compiled,
/// each with its outcome.
pub struct BranchTrace {
    pub m: int,
    pub idx: Seq<int>,
    pub ds: Seq<int>,
    pub ps: Seq<Seq<u128>>,
    pub hs: Seq<Map<usize, ExecutionHint>>,
    pub nested: Option<(Box<BranchTrace>, Result<ExecutionGraph, AssemblyError>, Box<BranchTrace>, Result<ExecutionGraph, AssemblyError>)>,
}

/// The outcome `r` at the `if.true` at token `i`, which follows the operations `p` with the hints
/// `h`, given the outcome `rt` of compiling its true branch and, where that succeeds and the
/// matching `else` is found, the outcome `rf` of compiling its false branch: the first error of
/// these, or else the segment followed by both branches.
pub open spec fn if_outcome(
    toks: Seq<Seq<char>>,
    i: int,
    p: Seq<u128>,
    h: Map<usize, ExecutionHint>,
    rt: Result<ExecutionGraph, AssemblyError>,
    rf: Result<ExecutionGraph, AssemblyError>,
    r: Result<ExecutionGraph, AssemblyError>,
) -> bool {
    match rt {
        Err(e) => r == Err::<ExecutionGraph, AssemblyError>(e),
        Ok(gt) => match else_scan(toks, i, 0, 0, 0) {
            ScanOutcome::Found(_) => match rf {
                Err(e) => r == Err::<ExecutionGraph, AssemblyError>(e),
                Ok(gf) => r matches Ok(g) && g.ops() == p && g.hints() == h
                    && g.next_true() == Some(Box::new(gt)) && g.next_false() == Some(Box::new(gf)),
            },
            _ => r matches Err(e) && scan_result(Err::<usize, AssemblyError>(e), else_scan(toks, i, 0, 0, 0),
                |e: AssemblyError| is_error(e, "if without matching else/endif"@, i as usize, "if.true"@)),
        },
    }
}

/// The outcome `r` of compiling the branch which begins at token `start` at depth `depth`, as
/// the trace `tr` records it: past the last token, or at an `if.true`, the branch must hold an
/// operation beyond its head; past the last token its segment is the operations gathered; at an
/// `if.true` the two nested branches are compiled at one level deeper (see `if_outcome`); an
/// `else` without a matching `endif`, an `endif` at depth zero, or an operation which fails to
/// parse gives the error.
pub open spec fn branch_outcome(
    toks: Seq<Seq<char>>,
    start: int,
    depth: int,
    tr: BranchTrace,
    r: Result<ExecutionGraph, AssemblyError>,
) -> bool
    decreases tr,
{
    let (m, idx, ds, ps, hs) = (tr.m, tr.idx, tr.ds, tr.ps, tr.hs);
    let i = idx[m];
    let first = toks[start];
    let empty = ps[m].len() <= branch_head(first).len();
    &&& branch_walk(toks, start, depth, m, idx, ds, ps, hs)
    &&& if i >= toks.len() || toks[i] == "if.true"@ {
        if empty {
            r matches Err(e) && is_error(e, "branch "@ + first + " is empty"@, i as usize, first)
        } else if i >= toks.len() {
            r matches Ok(g) && g.ops() == ps[m] && g.hints() == hs[m] && g.next_true() is None
        } else {
            match tr.nested {
                Some((tt, rt, ft, rf)) => {
                    &&& branch_outcome(toks, i, ds[m] + 1, *tt, rt)
                    &&& rt is Ok ==> (else_scan(toks, i, 0, 0, 0) matches ScanOutcome::Found(j)
                        ==> branch_outcome(toks, j as int, ds[m] + 1, *ft, rf))
                    &&& if_outcome(toks, i, ps[m], hs[m], rt, rf, r)
                },
                None => false,
            }
        }
    } else if toks[i] == "else"@ {
        r matches Err(e) && scan_result(Err::<usize, AssemblyError>(e), endif_scan(toks, i, 1, 0, 0),
            |e: AssemblyError| is_error(e, "else without matching if"@, i as usize, "else"@))
    } else if toks[i] == "endif"@ {
        &&& ds[m] == 0
        &&& r matches Err(e) && is_error(e, "endif without matching if"@, i as usize, "endif"@)
    } else {
        r matches Err(e) && token_fails(toks[i], i as usize, ps[m], hs[m], e)
    }
}

/// A walk through a branch extended by one more step is still a walk.
proof fn lemma_branch_walk_push(
    toks: Seq<Seq<char>>,
    start: int,
    depth: int,
    m: int,
    idx: Seq<int>,
    ds: Seq<int>,
    ps: Seq<Seq<u128>>,
    hs: Seq<Map<usize, ExecutionHint>>,
    i2: int,
    d2: int,
    p2: Seq<u128>,
    h2: Map<usize, ExecutionHint>,
)
    requires
        branch_walk(toks, start, depth, m, idx, ds, ps, hs),
        branch_step(toks, idx[m], i2, ds[m], d2, ps[m], p2, hs[m], h2),
    ensures
        branch_walk(toks, start, depth, m + 1, idx.push(i2), ds.push(d2), ps.push(p2), hs.push(h2)),
{
    let (idx1, ds1, ps1, hs1) = (idx.push(i2), ds.push(d2), ps.push(p2), hs.push(h2));
    assert forall|t: int| 0 <= t < m + 1 implies #[trigger] branch_step(toks, idx1[t], idx1[t + 1], ds1[t], ds1[t + 1], ps1[t], ps1[t + 1], hs1[t], hs1[t + 1]) by {
        if t < m {
            assert(idx1[t] == idx[t] && idx1[t + 1] == idx[t + 1] && ds1[t] == ds[t] && ds1[t + 1] == ds[t + 1]);
            assert(ps1[t] == ps[t] && ps1[t + 1] == ps[t + 1] && hs1[t] == hs[t] && hs1[t + 1] == hs[t + 1]);
        }
    }
}

/// Whether `r` is the outcome of compiling the branch which begins at token `start` at depth
/// `depth`, as some trace of its compilation records it (see `branch_outcome`).
pub open spec fn branch_result(toks: Seq<Seq<char>>, start: int, depth: int, r: Result<ExecutionGraph, AssemblyError>) -> bool {
    exists|tr: BranchTrace| #[trigger] branch_outcome(toks, start, depth, tr, r)
}

/// Compiles the branch which begins at token `i` (with `if.true` or `else`) into an execution
/// graph: the operations up to the next `if.true` of the same branch form its segment, and the
/// branches of that `if.true` follow it.
fn parse_branch(tokens: &[&str], start: usize, depth: usize) -> (r: Result<ExecutionGraph, AssemblyError>)
    requires
        start < tokens@.len(),
        depth <= start + 1,
        tokens@.len() * 10000 + 20000 <= usize::MAX,
    ensures
        r matches Ok(g) ==> g.branches_ok() && branch_head_ok(g, tokens@[start as int]@),
        branch_result(views(tokens@), start as int, depth as int, r),
    decreases tokens@.len() - start,
{
    let ghost toks = views(tokens@);
    let first_op = tokens[start];
    let i0 = start;
    let mut i = start + 1;
    let mut cur_depth = depth;
    let ghost depth0 = depth as int;

    // a true branch must start with ASSERT, a false branch with NOT ASSERT
    let is_true = str_equals(first_op, "if.true");
    let branch_head_length: usize = if is_true { 1 } else { 2 };
    let mut segment_ops: Vec<u128> = if is_true {
        vec![opcodes::ASSERT as u128]
    } else {
        vec![opcodes::NOT as u128, opcodes::ASSERT as u128]
    };
    let ghost head = segment_ops@;
    let mut hints: HashMap<usize, ExecutionHint> = HashMap::new();
    let ghost mut idx: Seq<int> = seq![i as int];
    let ghost mut ds: Seq<int> = seq![cur_depth as int];
    let ghost mut ps: Seq<Seq<u128>> = seq![segment_ops@];
    let ghost mut hs: Seq<Map<usize, ExecutionHint>> = seq![hints@];
    proof {
        assert(first_op@ == toks[start as int]);
        assert(segment_ops@ =~= branch_head(toks[start as int]));
        assert(hints@ =~= Map::<usize, ExecutionHint>::empty());
    }

    // iterate over tokens and parse them one by one until the next branch is encountered
    while i < tokens.len()
        invariant
            i0 < i <= tokens@.len(),
            i0 == start,
            toks == views(tokens@),
            first_op@ == tokens@[i0 as int]@,
            cur_depth <= i0 + 1,
            tokens@.len() * 10000 + 20000 <= usize::MAX,
            is_true == (first_op@ == "if.true"@),
            branch_head_length == head.len(),
            head == if is_true { seq![opcodes::ASSERT as u128] } else { seq![opcodes::NOT as u128, opcodes::ASSERT as u128] },
            head == branch_head(toks[start as int]),
            segment_ops@.len() <= 2 + 10000 * (i - i0),
            segment_ops@.len() >= head.len(),
            segment_ops@.subrange(0, head.len() as int) == head,
            depth0 == depth as int,
            branch_walk(toks, start as int, depth0, idx.len() - 1, idx, ds, ps, hs),
            idx.last() == i,
            ds.last() == cur_depth,
            ps.last() == segment_ops@,
            hs.last() == hints@,
        decreases tokens@.len() - i,
    {
        let token = tokens[i];
        let ghost m = idx.len() - 1;
        assert(token@ == toks[i as int]);
        if str_equals(token, "if.true") {
            // make sure the branch was not empty
            if segment_ops.len() <= branch_head_length {
                let res = Err(AssemblyError::empty_branch(first_op, i));
                proof { assert(branch_outcome(toks, start as int, depth0, BranchTrace { m, idx, ds, ps, hs, nested: None }, res)); }
                return res;
            }

            // parse subsequent true and false branches
            let true_res = parse_branch(tokens, i, cur_depth + 1);
            let ghost rt = true_res;
            let ghost d1: int = cur_depth + 1;
            let ghost tt = choose|t: BranchTrace| #[trigger] branch_outcome(toks, i as int, d1, t, rt);
            let true_branch = match true_res {
                Ok(g) => g,
                Err(e) => {
                    proof {
                        let tr = BranchTrace { m, idx, ds, ps, hs, nested: Some((Box::new(tt), rt, Box::new(tt), rt)) };
                        assert(branch_outcome(toks, start as int, depth0, tr, Err(e)));
                    }
                    return Err(e);
                },
            };
            let j = match find_matching_else(tokens, i) {
                Ok(j) => j,
                Err(e) => {
                    proof {
                        let tr = BranchTrace { m, idx, ds, ps, hs, nested: Some((Box::new(tt), rt, Box::new(tt), rt)) };
                        assert(branch_outcome(toks, start as int, depth0, tr, Err(e)));
                    }
                    return Err(e);
                },
            };
            proof {
                lemma_else_scan_found(views(tokens@), i as int, 0, 0, 0);
                reveal_strlit("else");
                reveal_strlit("if.true");
                assert(tokens@[j as int]@ == views(tokens@)[j as int]);
                assert(tokens@[j as int]@ != "if.true"@);
            }
            let false_res = parse_branch(tokens, j, cur_depth + 1);
            let ghost rf = false_res;
            let ghost ft = choose|t: BranchTrace| #[trigger] branch_outcome(toks, j as int, d1, t, rf);
            let ghost tr = BranchTrace { m, idx, ds, ps, hs, nested: Some((Box::new(tt), rt, Box::new(ft), rf)) };
            let false_branch = match false_res {
                Ok(g) => g,
                Err(e) => {
                    proof { assert(branch_outcome(toks, start as int, depth0, tr, Err(e))); }
                    return Err(e);
                },
            };

            // build the graph and return
            assert(segment_ops@[0] == head[0]);
            assert(head.len() == 2 ==> segment_ops@[1] == head[1]);
            let mut graph = ExecutionGraph::segment(segment_ops, hints);
            graph.set_next(true_branch, false_branch);
            let res = Ok(graph);
            proof { assert(branch_outcome(toks, start as int, depth0, tr, res)); }
            return res;
        } else if str_equals(token, "else") {
            proof { reveal_strlit("if.true"); reveal_strlit("else"); }
            let p = match find_matching_endif(tokens, i) {
                Ok(p) => p,
                Err(e) => {
                    proof { assert(branch_outcome(toks, start as int, depth0, BranchTrace { m, idx, ds, ps, hs, nested: None }, Err(e))); }
                    return Err(e);
                },
            };
            proof {
                let i2 = p + 1;
                assert(branch_step(toks, i as int, i2 as int, cur_depth as int, cur_depth as int, segment_ops@, segment_ops@, hints@, hints@));
                lemma_branch_walk_push(toks, start as int, depth0, m, idx, ds, ps, hs, i2 as int, cur_depth as int, segment_ops@, hints@);
                idx = idx.push(i2 as int);
                ds = ds.push(cur_depth as int);
                ps = ps.push(segment_ops@);
                hs = hs.push(hints@);
            }
            i = p;
        } else if str_equals(token, "endif") {
            proof { reveal_strlit("if.true"); reveal_strlit("else"); reveal_strlit("endif"); }
            // make sure branches are closed correctly
            if cur_depth == 0 {
                let res = Err(AssemblyError::unmatched_endif(i));
                proof { assert(branch_outcome(toks, start as int, depth0, BranchTrace { m, idx, ds, ps, hs, nested: None }, res)); }
                return res;
            }
            proof {
                assert(branch_step(toks, i as int, i + 1, cur_depth as int, cur_depth - 1, segment_ops@, segment_ops@, hints@, hints@));
                lemma_branch_walk_push(toks, start as int, depth0, m, idx, ds, ps, hs, i + 1, cur_depth - 1, segment_ops@, hints@);
                idx = idx.push(i + 1);
                ds = ds.push(cur_depth - 1);
                ps = ps.push(segment_ops@);
                hs = hs.push(hints@);
            }
            cur_depth = cur_depth - 1;
        } else {
            proof { reveal_strlit("if.true"); reveal_strlit("else"); reveal_strlit("endif"); }
            let ghost before = segment_ops@;
            let ghost hints_before = hints@;
            match parse_op_token(token, &mut segment_ops, &mut hints, i) {
                Ok(b) => {
                    proof {
                        assert(token_step(toks[i as int], i, before, segment_ops@, hints_before, hints@, Ok(b)));
                        assert(branch_step(toks, i as int, i + 1, cur_depth as int, cur_depth as int, before, segment_ops@, hints_before, hints@));
                        lemma_branch_walk_push(toks, start as int, depth0, m, idx, ds, ps, hs, i + 1, cur_depth as int, segment_ops@, hints@);
                        idx = idx.push(i + 1);
                        ds = ds.push(cur_depth as int);
                        ps = ps.push(segment_ops@);
                        hs = hs.push(hints@);
                    }
                },
                Err(e) => {
                    proof {
                        assert(token_step(toks[i as int], i, before, segment_ops@, hints_before, hints@, Err(e)));
                        assert(token_fails(toks[i as int], (i as int) as usize, ps[m], hs[m], e));
                        assert(branch_outcome(toks, start as int, depth0, BranchTrace { m, idx, ds, ps, hs, nested: None }, Err(e)));
                    }
                    return Err(e);
                },
            }
            assert(segment_ops@.subrange(0, head.len() as int) == before.subrange(0, head.len() as int));
        }
        i = i + 1;
    }

    // if there were no further branches, make sure the branch was not empty, and return
    let ghost m = idx.len() - 1;
    if segment_ops.len() <= branch_head_length {
        let res = Err(AssemblyError::empty_branch(first_op, i));
        proof { assert(branch_outcome(toks, start as int, depth0, BranchTrace { m, idx, ds, ps, hs, nested: None }, res)); }
        return res;
    }
    let res = Ok(ExecutionGraph::segment(segment_ops, hints));
    proof { assert(branch_outcome(toks, start as int, depth0, BranchTrace { m, idx, ds, ps, hs, nested: None }, res)); }
    res
}

/// Whether `t` is one of the words that open or delimit a branch.
pub open spec fn is_branch_word(t: Seq<char>) -> bool {
    t == "if.true"@ || t == "else"@ || t == "endif"@
}

/// Parsing the token `tok`, the `step`-th of the program, takes the operations `before` and the
/// hints `hb` to `after` and `ha`, with the outcome `r`.
pub open spec fn token_step(
    tok: Seq<char>,
    step: usize,
    before: Seq<u128>,
    after: Seq<u128>,
    hb: Map<usize, ExecutionHint>,
    ha: Map<usize, ExecutionHint>,
    r: Result<bool, AssemblyError>,
) -> bool {
    exists|op: Seq<&str>| views(op) == fields_from(tok, 0) && #[trigger] token_parse(op, step, before, after, hb, ha, r)
}

/// Parsing the token `tok`, the `step`-th of the program, after the operations `before` and the
/// hints `hb`, fails with the error `e`.
pub open spec fn token_fails(tok: Seq<char>, step: usize, before: Seq<u128>, hb: Map<usize, ExecutionHint>, e: AssemblyError) -> bool {
    exists|after: Seq<u128>, ha: Map<usize, ExecutionHint>| #[trigger] token_step(tok, step, before, after, hb, ha, Err(e))
}

/// The first `n` tokens of `toks` are operations, not branch words, and parse one after another
/// without error, from the operations `[BEGIN]` and no hints, through the operations `ps` and the
/// hints `hs`.
pub open spec fn prefix_parses(toks: Seq<Seq<char>>, n: int, ps: Seq<Seq<u128>>, hs: Seq<Map<usize, ExecutionHint>>) -> bool {
    &&& 0 <= n <= toks.len()
    &&& ps.len() == n + 1
    &&& hs.len() == n + 1
    &&& ps[0] == seq![opcodes::BEGIN as u128]
    &&& hs[0] == Map::<usize, ExecutionHint>::empty()
    &&& forall|k: int| 0 <= k < n ==> !is_branch_word(#[trigger] toks[k])
        && exists|b: bool| token_step(toks[k], k as usize, ps[k], ps[k + 1], hs[k], hs[k + 1], Ok(b))
}

/// The outcome `r` of compiling the tokens `toks`, whose first `k` tokens are operations that
/// parse through `ps` and `hs`: at the end of the tokens the segment is the program, unless it
/// has no operation; at `if.true` the segment is followed by its two branches, compiled at depth
/// one with the outcomes `rt` and `rf` (see `if_outcome`); `else` and `endif` are errors; any
/// other token is an operation whose parsing failed with the error returned.
pub open spec fn compile_outcome(
    toks: Seq<Seq<char>>,
    k: int,
    ps: Seq<Seq<u128>>,
    hs: Seq<Map<usize, ExecutionHint>>,
    rt: Result<ExecutionGraph, AssemblyError>,
    rf: Result<ExecutionGraph, AssemblyError>,
    r: Result<ExecutionGraph, AssemblyError>,
) -> bool {
    &&& prefix_parses(toks, k, ps, hs)
    &&& if k == toks.len() {
        match r {
            Ok(g) => ps[k].len() > 1 && g.ops() == ps[k] && g.hints() == hs[k] && g.next_true() is None,
            Err(e) => ps[k].len() <= 1 && e.message@ == "a program must contain at least one operation"@
                && e.step == 0 && e.op@ == "begin"@,
        }
    } else if toks[k] == "if.true"@ {
        &&& branch_result(toks, k, 1, rt)
        &&& rt is Ok ==> (else_scan(toks, k, 0, 0, 0) matches ScanOutcome::Found(j) ==> branch_result(toks, j as int, 1, rf))
        &&& if_outcome(toks, k, ps[k], hs[k], rt, rf, r)
    } else if toks[k] == "else"@ {
        r matches Err(e) && e.message@ == "else without matching end"@ && e.step == k && e.op@ == "else"@
    } else if toks[k] == "endif"@ {
        r matches Err(e) && e.message@ == "endif without matching if"@ && e.step == k && e.op@ == "endif"@
    } else {
        r matches Err(e) && token_fails(toks[k], k as usize, ps[k], hs[k], e)
    }
}

/// Compiles assembly code into an execution graph: the operations up to the first `if.true`,
/// preceded by BEGIN, form the first segment, and the branches of that `if.true` follow it.
///
/// Tokens are separated by white space. Operation tokens before the first branch word are parsed
/// in order; the first one that fails gives the error. Then, at the first branch word: `if.true`
/// starts the branches, `else` and `endif` are errors; with no branch word, a program without any
/// operation is an error.
///
/// One token stands for at most 10000 operations (the longest is a Merkle path check), so the
/// operations of a source of `n` characters number at most `10000 * n` plus the branch heads,
/// which the precondition asks to fit in memory.
pub fn compile(source: &str) -> (r: Result<ExecutionGraph, AssemblyError>)
    requires
        source@.len() * 10000 + 20000 <= usize::MAX,
    ensures
        r matches Ok(g) ==> g.ops().len() >= 1 && g.ops()[0] == opcodes::BEGIN as u128 && g.branches_ok(),
        exists|k: int, ps: Seq<Seq<u128>>, hs: Seq<Map<usize, ExecutionHint>>, rt: Result<ExecutionGraph, AssemblyError>, rf: Result<ExecutionGraph, AssemblyError>|
            #[trigger] compile_outcome(words_from(source@, 0), k, ps, hs, rt, rf, r),
{
    // all programs must start with BEGIN operation
    let mut segment_ops: Vec<u128> = vec![opcodes::BEGIN as u128];
    let mut hints: HashMap<usize, ExecutionHint> = HashMap::new();

    // break assembly string into tokens
    let tokens = split_whitespace(source);
    let ghost toks = words_from(source@, 0);
    let ghost mut ps: Seq<Seq<u128>> = seq![segment_ops@];
    let ghost mut hs: Seq<Map<usize, ExecutionHint>> = seq![hints@];
    proof {
        assert(segment_ops@ =~= seq![opcodes::BEGIN as u128]);
        assert(hints@ =~= Map::<usize, ExecutionHint>::empty());
    }

    // iterate over tokens and parse them one by one until the first branch is encountered
    let mut i: usize = 0;
    while i < tokens.len()
        invariant
            i <= tokens@.len(),
            tokens@.len() <= source@.len(),
            views(tokens@) == toks,
            toks == words_from(source@, 0),
            source@.len() * 10000 + 20000 <= usize::MAX,
            1 <= segment_ops@.len() <= 1 + 10000 * i,
            segment_ops@[0] == opcodes::BEGIN as u128,
            prefix_parses(toks, i as int, ps, hs),
            ps[i as int] == segment_ops@,
            hs[i as int] == hints@,
        decreases tokens@.len() - i,
    {
        let token = tokens[i];
        assert(token@ == toks[i as int]);
        if str_equals(token, "if.true") {
            // recursively parse true and false branches, combine them into an execution graph
            proof {
                assert(prefix_parses(toks, i as int, ps, hs));
            }
            let true_res = parse_branch(tokens.as_slice(), i, 1);
            let ghost rt = true_res;
            let true_branch = match true_res {
                Ok(g) => g,
                Err(e) => {
                    proof { assert(compile_outcome(toks, i as int, ps, hs, rt, rt, Err(e))); }
                    return Err(e);
                },
            };
            let j = match find_matching_else(tokens.as_slice(), i) {
                Ok(j) => j,
                Err(e) => {
                    proof { assert(compile_outcome(toks, i as int, ps, hs, rt, rt, Err(e))); }
                    return Err(e);
                },
            };
            proof {
                lemma_else_scan_found(views(tokens@), i as int, 0, 0, 0);
                reveal_strlit("else");
                reveal_strlit("if.true");
                assert(tokens@[j as int]@ == views(tokens@)[j as int]);
                assert(tokens@[j as int]@ != "if.true"@);
            }
            let false_res = parse_branch(tokens.as_slice(), j, 1);
            let ghost rf = false_res;
            let false_branch = match false_res {
                Ok(g) => g,
                Err(e) => {
                    proof { assert(compile_outcome(toks, i as int, ps, hs, rt, rf, Err(e))); }
                    return Err(e);
                },
            };
            let mut graph = ExecutionGraph::segment(segment_ops, hints);
            graph.set_next(true_branch, false_branch);
            let res = Ok(graph);
            proof {
                assert(compile_outcome(toks, i as int, ps, hs, rt, rf, res));
            }
            return res;
        } else if str_equals(token, "else") {
            proof {
                reveal_strlit("if.true");
                reveal_strlit("else");
                assert(prefix_parses(toks, i as int, ps, hs));
            }
            let res = Err(AssemblyError::unmatched_else(i));
            proof {
                assert(compile_outcome(toks, i as int, ps, hs, res, res, res));
            }
            return res;
        } else if str_equals(token, "endif") {
            proof {
                reveal_strlit("if.true");
                reveal_strlit("else");
                reveal_strlit("endif");
                assert(prefix_parses(toks, i as int, ps, hs));
            }
            let res = Err(AssemblyError::unmatched_endif(i));
            proof {
                assert(compile_outcome(toks, i as int, ps, hs, res, res, res));
            }
            return res;
        } else {
            let ghost before = segment_ops@;
            let ghost hints_before = hints@;
            proof { reveal_strlit("if.true"); reveal_strlit("else"); reveal_strlit("endif"); }
            let outcome = parse_op_token(token, &mut segment_ops, &mut hints, i);
            match outcome {
                Ok(b) => {
                    proof {
                        assert(token_step(toks[i as int], i, before, segment_ops@, hints_before, hints@, Ok(b)));
                        let ps0 = ps;
                        let hs0 = hs;
                        ps = ps.push(segment_ops@);
                        hs = hs.push(hints@);
                        assert forall|k: int| 0 <= k < i + 1 implies !is_branch_word(#[trigger] toks[k])
                            && exists|b: bool| token_step(toks[k], k as usize, ps[k], ps[k + 1], hs[k], hs[k + 1], Ok(b)) by {
                            if k < i {
                                assert(ps[k] == ps0[k] && ps[k + 1] == ps0[k + 1]);
                                assert(hs[k] == hs0[k] && hs[k + 1] == hs0[k + 1]);
                            } else {
                                assert(ps[k] == before && ps[k + 1] == segment_ops@);
                                assert(hs[k] == hints_before && hs[k + 1] == hints@);
                            }
                        }
                    }
                },
                Err(e) => {
                    proof {
                        assert(token_step(toks[i as int], i, before, segment_ops@, hints_before, hints@, Err(e)));
                        assert(token_step(toks[i as int], (i as int) as usize, ps[i as int], segment_ops@, hs[i as int], hints@, Err(e)));
                        assert(!is_branch_word(toks[i as int]));
                        assert(prefix_parses(toks, i as int, ps, hs));
                        assert(i < toks.len());
                        assert(toks[i as int] != "if.true"@);
                        assert(toks[i as int] != "else"@);
                        assert(toks[i as int] != "endif"@);
                        assert(token_fails(toks[i as int], (i as int) as usize, ps[i as int], hs[i as int], e));
                        assert(compile_outcome(toks, i as int, ps, hs, Err(e), Err(e), Err(e)));
                    }
                    return Err(e);
                },
            }
            assert(segment_ops@[0] == segment_ops@.subrange(0, before.len() as int)[0]);
        }
        i = i + 1;
    }

    // if there are no branches, make sure there was at least one operation
    proof {
        assert(prefix_parses(toks, i as int, ps, hs));
    }
    if segment_ops.len() <= 1 {
        let res = Err(AssemblyError::empty_program());
        proof {
            assert(compile_outcome(toks, i as int, ps, hs, res, res, res));
        }
        return res;
    }
    let res = Ok(ExecutionGraph::segment(segment_ops, hints));
    proof {
        assert(compile_outcome(toks, i as int, ps, hs, res, res, res));
    }
    res
}

} // verus!
