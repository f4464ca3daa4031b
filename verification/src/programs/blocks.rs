use vstd::prelude::*;
use std::collections::HashMap;
use crate::opcodes;
use crate::utils::sponge::spec_round;
use super::hashing::{ hash_op, hash_seq, acc_round, spec_hash_acc, CYCLE_LENGTH };

verus! {

/// Number of steps in one cycle of a program's execution; every span of operations occupies one
/// less than a multiple of this number of steps.
pub const BASE_CYCLE_LENGTH: usize = 16usize;

// TYPES AND INTERFACES
// ================================================================================================

/// Additional information attached to an operation of a span.
#[derive(Copy, Clone, Debug, PartialEq, Eq, Structural)]
pub enum ExecutionHint {
    EqStart,
    RcStart(u32),
    CmpStart(u32),
    PushValue(u128),
    NoHint,
}

/// A block of a program: a linear span of operations, or a control block made of nested blocks.
pub enum ProgramBlock {
    Span(Span),
    Group(Group),
    Switch(Switch),
    Loop(Loop),
}

/// A linear sequence of operations with hints keyed by the step of the operation they belong to.
pub struct Span {
    pub op_codes: Vec<u8>,
    pub op_hints: HashMap<usize, ExecutionHint>,
}

/// A sequence of blocks executed one after another.
pub struct Group {
    pub body: Vec<ProgramBlock>,
}

/// A conditional block: the true branch runs when the top of the stack is 1, the false branch
/// when it is 0.
pub struct Switch {
    pub t_branch: Vec<ProgramBlock>,
    pub f_branch: Vec<ProgramBlock>,
}

/// A loop: the body runs while the top of the stack is 1; the skip sequence runs when the loop
/// is not entered.
pub struct Loop {
    pub body: Vec<ProgramBlock>,
    pub skip: Vec<ProgramBlock>,
}

// SPECIFICATIONS
// ================================================================================================

/// The state of the hash accumulator before any block was merged into it.
pub open spec fn zero_state() -> Seq<u128> {
    seq![0u128, 0u128, 0u128, 0u128]
}

/// The hint attached to step `i`, or `ExecutionHint::NoHint` when there is none.
pub open spec fn hint_at(hints: Map<usize, ExecutionHint>, i: usize) -> ExecutionHint {
    if hints.contains_key(i) {
        hints[i]
    } else {
        ExecutionHint::NoHint
    }
}

/// The value injected into the sponge together with operation `i`: the value carried by a PUSH
/// operation, and 0 for every other operation.
pub open spec fn push_value(ops: Seq<u8>, hints: Map<usize, ExecutionHint>, i: int) -> u128 {
    if ops[i] == opcodes::PUSH {
        match hint_at(hints, i as usize) {
            ExecutionHint::PushValue(v) => v,
            _ => 0,
        }
    } else {
        0
    }
}

/// The sponge state after the first `n` operations of a span were merged into `s`; the
/// operation at index `i` is merged on step `i`.
pub open spec fn span_state(ops: Seq<u8>, hints: Map<usize, ExecutionHint>, s: Seq<u128>, n: nat) -> Seq<u128>
    decreases n,
{
    if n == 0 {
        s
    } else {
        let i = n - 1;
        spec_round(span_state(ops, hints, s, i as nat), ops[i] as u128, push_value(ops, hints, i), i)
    }
}

/// Whether a sequence of operations with hints forms a valid span: its length is one less than a
/// multiple of the cycle length, every hint belongs to one of its steps, and every PUSH stands on
/// a step which is a multiple of 8 and carries a value.
pub open spec fn span_ok(ops: Seq<u8>, hints: Map<usize, ExecutionHint>) -> bool {
    &&& (ops.len() as int) % (BASE_CYCLE_LENGTH as int) == BASE_CYCLE_LENGTH - 1
    &&& forall|k: usize| #[trigger] hints.contains_key(k) ==> k < ops.len()
    &&& forall|i: int|
        0 <= i < ops.len() && #[trigger] ops[i] == opcodes::PUSH ==> {
            &&& i % 8 == 0
            &&& hints.contains_key(i as usize)
            &&& hints[i as usize] is PushValue
        }
}

/// Whether `ops` begins with `prefix`.
pub open spec fn has_prefix(ops: Seq<u8>, prefix: Seq<u8>) -> bool {
    prefix.len() <= ops.len() && ops.subrange(0, prefix.len() as int) == prefix
}

/// Whether a sequence of blocks is well formed: it is not empty, its first block is a span which
/// begins with `prefix`, and no span comes right after another span.
pub open spec fn block_list_ok(blocks: Seq<ProgramBlock>, prefix: Seq<u8>) -> bool {
    &&& blocks.len() > 0
    &&& match blocks[0] {
        ProgramBlock::Span(s) => has_prefix(s.op_codes@, prefix),
        _ => false,
    }
    &&& forall|i: int| 1 <= i < blocks.len() && #[trigger] (blocks[i] is Span) ==> !(blocks[i - 1] is Span)
}

/// Whether a block and all blocks nested in it are well formed.
pub open spec fn block_wf(b: ProgramBlock) -> bool
    decreases b, 0nat,
{
    match b {
        ProgramBlock::Span(s) => span_ok(s.op_codes@, s.op_hints@),
        ProgramBlock::Group(g) => {
            &&& block_list_ok(g.body@, seq![])
            &&& blocks_wf(g.body@, g.body@.len())
        },
        ProgramBlock::Switch(w) => {
            &&& block_list_ok(w.t_branch@, seq![opcodes::ASSERT])
            &&& block_list_ok(w.f_branch@, seq![opcodes::NOT, opcodes::ASSERT])
            &&& blocks_wf(w.t_branch@, w.t_branch@.len())
            &&& blocks_wf(w.f_branch@, w.f_branch@.len())
        },
        ProgramBlock::Loop(l) => {
            &&& block_list_ok(l.body@, seq![opcodes::ASSERT])
            &&& block_list_ok(l.skip@, seq![])
            &&& blocks_wf(l.body@, l.body@.len())
            &&& blocks_wf(l.skip@, l.skip@.len())
        },
    }
}

/// Whether the first `n` blocks of a sequence are well formed.
pub open spec fn blocks_wf(blocks: Seq<ProgramBlock>, n: nat) -> bool
    decreases blocks, n,
{
    if n == 0 || n > blocks.len() {
        n == 0
    } else {
        blocks_wf(blocks, (n - 1) as nat) && block_wf(blocks[n - 1])
    }
}

/// Whether block `b` holds the same operations, hints and nested blocks as block `a`.
#[verifier::opaque]
pub open spec fn same_block(a: ProgramBlock, b: ProgramBlock) -> bool
    decreases a, 0nat,
{
    match a {
        ProgramBlock::Span(s) => b matches ProgramBlock::Span(t)
            && t.op_codes@ == s.op_codes@ && t.op_hints@ == s.op_hints@,
        ProgramBlock::Group(g) => b matches ProgramBlock::Group(h)
            && same_blocks(g.body@, h.body@, g.body@.len()),
        ProgramBlock::Switch(w) => b matches ProgramBlock::Switch(v)
            && same_blocks(w.t_branch@, v.t_branch@, w.t_branch@.len())
            && same_blocks(w.f_branch@, v.f_branch@, w.f_branch@.len()),
        ProgramBlock::Loop(l) => b matches ProgramBlock::Loop(k)
            && same_blocks(l.body@, k.body@, l.body@.len())
            && same_blocks(l.skip@, k.skip@, l.skip@.len()),
    }
}

/// Whether the sequence `b` has as many blocks as `a`, and its first `n` blocks are the same
/// (see `same_block`) as those of `a`.
pub open spec fn same_blocks(a: Seq<ProgramBlock>, b: Seq<ProgramBlock>, n: nat) -> bool
    decreases a, n,
{
    if n == 0 || n > a.len() {
        b.len() == a.len() && n == 0
    } else {
        same_blocks(a, b, (n - 1) as nat) && same_block(a[n - 1], b[n - 1])
    }
}

/// The pair of values that represents the hash of a control block (a span has none).
pub open spec fn block_hash(b: ProgramBlock) -> (u128, u128)
    decreases b, 0nat,
{
    match b {
        ProgramBlock::Span(_) => (0, 0),
        ProgramBlock::Group(g) => (seq_hash(g.body@, false), 0),
        ProgramBlock::Switch(w) => (seq_hash(w.t_branch@, false), seq_hash(w.f_branch@, false)),
        ProgramBlock::Loop(l) => (seq_hash(l.body@, true), seq_hash(l.skip@, false)),
    }
}

/// The hash of a sequence of blocks; unless the sequence is the body of a loop, the state gets
/// one more accumulator round to align the sequence on a cycle boundary.
pub open spec fn seq_hash(blocks: Seq<ProgramBlock>, is_loop_body: bool) -> u128
    decreases blocks, blocks.len() + 1,
{
    let s = seq_state(blocks, blocks.len());
    if is_loop_body {
        s[0]
    } else {
        acc_round(s, CYCLE_LENGTH - 1)[0]
    }
}

/// The accumulator state after the first `n` blocks of a sequence were merged into it: the first
/// span is hashed from the zero state; a later span gets one accumulator round first; a control
/// block is merged through its hash.
pub open spec fn seq_state(blocks: Seq<ProgramBlock>, n: nat) -> Seq<u128>
    decreases blocks, n,
{
    if n == 0 || n > blocks.len() {
        zero_state()
    } else if n == 1 {
        match blocks[0] {
            ProgramBlock::Span(s) => span_state(s.op_codes@, s.op_hints@, zero_state(), s.op_codes@.len()),
            _ => zero_state(),
        }
    } else {
        let prev = seq_state(blocks, (n - 1) as nat);
        match blocks[n - 1] {
            ProgramBlock::Span(s) => span_state(
                s.op_codes@,
                s.op_hints@,
                acc_round(prev, CYCLE_LENGTH - 1),
                s.op_codes@.len(),
            ),
            _ => {
                let h = block_hash(blocks[n - 1]);
                spec_hash_acc(prev[0], h.0, h.1)
            },
        }
    }
}


// PROGRAM BLOCK IMPLEMENTATION
// ================================================================================================

impl ProgramBlock {
    /// Returns true when the block is a span.
    pub fn is_span(&self) -> (r: bool)
        ensures
            r == (*self is Span),
    {
        match self {
            ProgramBlock::Span(_) => true,
            _ => false,
        }
    }
}

// SPAN IMPLEMENTATION
// ================================================================================================

impl Span {
    /// Whether the span is valid.
    pub open spec fn wf(&self) -> bool {
        span_ok(self.op_codes@, self.op_hints@)
    }

    /// The sponge state after all operations of the span were merged into `s`.
    pub open spec fn spec_hash(&self, s: Seq<u128>) -> Seq<u128> {
        span_state(self.op_codes@, self.op_hints@, s, self.op_codes@.len())
    }

    /// Builds a span from a sequence of operations and their hints.
    pub fn new(instructions: Vec<u8>, hints: HashMap<usize, ExecutionHint>) -> (r: Span)
        requires
            span_ok(instructions@, hints@),
        ensures
            r.op_codes@ == instructions@,
            r.op_hints@ == hints@,
            r.wf(),
    {
        Span { op_codes: instructions, op_hints: hints }
    }

    /// Builds a span block from a sequence of operations without hints.
    pub fn new_block(instructions: Vec<u8>) -> (r: ProgramBlock)
        requires
            span_ok(instructions@, Map::empty()),
        ensures
            r matches ProgramBlock::Span(s) && s.op_codes@ == instructions@ && s.op_hints@ == Map::<usize, ExecutionHint>::empty(),
            block_wf(r),
    {
        ProgramBlock::Span(Span::new(instructions, HashMap::new()))
    }

    /// Builds a span from a sequence of operations without hints.
    pub fn from_instructions(instructions: Vec<u8>) -> (r: Span)
        requires
            span_ok(instructions@, Map::empty()),
        ensures
            r.op_codes@ == instructions@,
            r.op_hints@ == Map::<usize, ExecutionHint>::empty(),
            r.wf(),
    {
        Span::new(instructions, HashMap::new())
    }

    /// Returns the number of operations in the span.
    pub fn length(&self) -> (r: usize)
        ensures
            r == self.op_codes@.len(),
    {
        self.op_codes.len()
    }

    /// Returns true when the operations of the span begin with `instructions`.
    pub fn starts_with(&self, instructions: &[u8]) -> (r: bool)
        ensures
            r == has_prefix(self.op_codes@, instructions@),
    {
        let n = instructions.len();
        if n > self.op_codes.len() {
            return false;
        }
        let mut i: usize = 0;
        while i < n
            invariant
                i <= n,
                n == instructions@.len(),
                n <= self.op_codes@.len(),
                forall|j: int| 0 <= j < i ==> self.op_codes@[j] == instructions@[j],
            decreases n - i,
        {
            if self.op_codes[i] != instructions[i] {
                assert(self.op_codes@.subrange(0, n as int)[i as int] != instructions@[i as int]);
                return false;
            }
            i = i + 1;
        }
        assert(self.op_codes@.subrange(0, n as int) =~= instructions@);
        true
    }

    /// Returns the operation at step `step` together with its hint.
    pub fn get_op(&self, step: usize) -> (r: (u8, ExecutionHint))
        requires
            step < self.op_codes@.len(),
        ensures
            r == (self.op_codes@[step as int], hint_at(self.op_hints@, step)),
    {
        (self.op_codes[step], self.get_hint(step))
    }

    /// Returns the hint of the operation at `op_index`, or `ExecutionHint::NoHint`.
    pub fn get_hint(&self, op_index: usize) -> (r: ExecutionHint)
        ensures
            r == hint_at(self.op_hints@, op_index),
    {
        match self.op_hints.get(&op_index) {
            Some(hint) => *hint,
            None => ExecutionHint::NoHint,
        }
    }

    /// Merges all operations of the span into the sponge state `state`, operation `i` on step `i`.
    pub fn hash(&self, state: [u128; 4]) -> (r: [u128; 4])
        requires
            self.wf(),
        ensures
            r@ == self.spec_hash(state@),
    {
        let mut state = state;
        let ghost s0 = state@;
        let n = self.op_codes.len();
        let mut i: usize = 0;
        while i < n
            invariant
                i <= n,
                n == self.op_codes@.len(),
                state@ == span_state(self.op_codes@, self.op_hints@, s0, i as nat),
            decreases n - i,
        {
            let op_code = self.op_codes[i];
            let op_value = if op_code == opcodes::PUSH {
                match self.get_hint(i) {
                    ExecutionHint::PushValue(op_value) => op_value,
                    _ => 0,
                }
            } else {
                0
            };
            hash_op(&mut state, op_code, op_value, i);
            i = i + 1;
        }
        state
    }
}


/// The hints of two spans merged into one span in which the operations of the second span start
/// at step `offset`.
pub open spec fn merged_hints(
    h1: Map<usize, ExecutionHint>,
    h2: Map<usize, ExecutionHint>,
    offset: int,
    upto: int,
) -> Map<usize, ExecutionHint> {
    Map::new(
        |k: usize| h1.contains_key(k) || (offset <= k < offset + upto && h2.contains_key((k - offset) as usize)),
        |k: usize| if offset <= k < offset + upto && h2.contains_key((k - offset) as usize) {
            h2[(k - offset) as usize]
        } else {
            h1[k]
        },
    )
}

impl Span {
    /// Merges two spans into one: the operations of `span1`, a NOOP, then the operations of
    /// `span2`, with the hints of both spans on the steps of their operations.
    pub fn merge(span1: &Span, span2: &Span) -> (r: Span)
        requires
            span1.wf(),
            span2.wf(),
            span1.op_codes@.len() + span2.op_codes@.len() + 1 <= usize::MAX,
        ensures
            r.op_codes@ == span1.op_codes@ + seq![opcodes::NOOP] + span2.op_codes@,
            r.op_hints@ == merged_hints(span1.op_hints@, span2.op_hints@, (span1.op_codes@.len() + 1) as int, span2.op_codes@.len() as int),
            r.wf(),
    {
        // merge op codes
        let mut new_op_codes = span1.op_codes.clone();
        assert(new_op_codes@ =~= span1.op_codes@);
        new_op_codes.push(opcodes::NOOP);
        let mut k: usize = 0;
        let len1 = span1.op_codes.len();
        let len2 = span2.op_codes.len();
        while k < len2
            invariant
                k <= len2,
                len2 == span2.op_codes@.len(),
                len1 == span1.op_codes@.len(),
                new_op_codes@ == span1.op_codes@ + seq![opcodes::NOOP] + span2.op_codes@.subrange(0, k as int),
            decreases len2 - k,
        {
            new_op_codes.push(span2.op_codes[k]);
            k = k + 1;
            assert(new_op_codes@ =~= span1.op_codes@ + seq![opcodes::NOOP] + span2.op_codes@.subrange(0, k as int));
        }
        assert(span2.op_codes@.subrange(0, len2 as int) =~= span2.op_codes@);

        // merge hints
        let offset = len1 + 1;
        let mut new_hints = span1.op_hints.clone();
        let ghost h1 = span1.op_hints@;
        let ghost h2 = span2.op_hints@;
        assert(new_hints@ =~= merged_hints(h1, h2, offset as int, 0));
        let mut j: usize = 0;
        while j < len2
            invariant
                j <= len2,
                len2 == span2.op_codes@.len(),
                offset == len1 + 1,
                len1 + len2 + 1 <= usize::MAX,
                h1 == span1.op_hints@,
                h2 == span2.op_hints@,
                new_hints@ == merged_hints(h1, h2, offset as int, j as int),
            decreases len2 - j,
        {
            match span2.op_hints.get(&j) {
                Some(hint) => {
                    new_hints.insert(j + offset, *hint);
                },
                None => {},
            }
            assert(new_hints@ =~= merged_hints(h1, h2, offset as int, (j + 1) as int));
            j = j + 1;
        }

        // build and return a new Span
        let ghost ops = new_op_codes@;
        let ghost hs = new_hints@;
        assert forall|key: usize| #[trigger] hs.contains_key(key) implies key < ops.len() by {
            if !h1.contains_key(key) {
                assert(h2.contains_key((key - offset) as usize));
            }
        }
        assert forall|i: int| 0 <= i < ops.len() && #[trigger] ops[i] == opcodes::PUSH implies {
            &&& i % 8 == 0
            &&& hs.contains_key(i as usize)
            &&& hs[i as usize] is PushValue
        } by {
            if i < len1 {
                assert(ops[i] == span1.op_codes@[i]);
            } else if i > len1 {
                let i2 = i - offset;
                assert(ops[i] == span2.op_codes@[i2]);
                assert(span2.op_codes@[i2] == opcodes::PUSH);
                assert(h2.contains_key(i2 as usize));
                assert(((i2 as usize) + offset) as usize == i as usize);
                assert((len1 as int) % 16 == 15);
                assert(i % 8 == 0) by {
                    assert(i2 % 8 == 0);
                    assert(offset as int % 16 == 0);
                }
            } else {
                assert(ops[i] == opcodes::NOOP);
            }
        }
        assert((ops.len() as int) % 16 == 15) by {
            assert(ops.len() == len1 + 1 + len2);
        }
        Span::new(new_op_codes, new_hints)
    }
}

// GROUP IMPLEMENTATION
// ================================================================================================

impl Group {
    /// Whether the group and all blocks nested in it are well formed.
    pub open spec fn wf(&self) -> bool {
        block_wf(ProgramBlock::Group(*self))
    }

    /// Builds a group from a sequence of blocks.
    pub fn new(body: Vec<ProgramBlock>) -> (r: Group)
        requires
            block_list_ok(body@, seq![]),
            blocks_wf(body@, body@.len()),
        ensures
            r.body@ == body@,
            r.wf(),
    {
        Group { body }
    }

    /// Builds a group block from a sequence of blocks.
    pub fn new_block(body: Vec<ProgramBlock>) -> (r: ProgramBlock)
        requires
            block_list_ok(body@, seq![]),
            blocks_wf(body@, body@.len()),
        ensures
            r matches ProgramBlock::Group(g) && g.body@ == body@,
            block_wf(r),
    {
        ProgramBlock::Group(Group::new(body))
    }

    /// Returns the blocks of the group.
    pub fn body(&self) -> (r: &[ProgramBlock])
        ensures
            r@ == self.body@,
    {
        self.body.as_slice()
    }

    /// Returns the hash of the body of the group.
    pub fn body_hash(&self) -> (r: u128)
        requires
            self.wf(),
        ensures
            r == seq_hash(self.body@, false),
    {
        hash_seq(&self.body, false)
    }

    /// Returns the hash of the group.
    pub fn get_hash(&self) -> (r: (u128, u128))
        requires
            self.wf(),
        ensures
            r == block_hash(ProgramBlock::Group(*self)),
    {
        let v0 = self.body_hash();
        (v0, 0)
    }
}

// SWITCH IMPLEMENTATION
// ================================================================================================

impl Switch {
    /// Whether the switch and all blocks nested in it are well formed.
    pub open spec fn wf(&self) -> bool {
        block_wf(ProgramBlock::Switch(*self))
    }

    /// Builds a switch from its two branches; the true branch must begin with ASSERT and the
    /// false branch with NOT ASSERT.
    pub fn new(true_branch: Vec<ProgramBlock>, false_branch: Vec<ProgramBlock>) -> (r: Switch)
        requires
            block_list_ok(true_branch@, seq![opcodes::ASSERT]),
            block_list_ok(false_branch@, seq![opcodes::NOT, opcodes::ASSERT]),
            blocks_wf(true_branch@, true_branch@.len()),
            blocks_wf(false_branch@, false_branch@.len()),
        ensures
            r.t_branch@ == true_branch@,
            r.f_branch@ == false_branch@,
            r.wf(),
    {
        Switch { t_branch: true_branch, f_branch: false_branch }
    }

    /// Builds a switch block from its two branches.
    pub fn new_block(true_branch: Vec<ProgramBlock>, false_branch: Vec<ProgramBlock>) -> (r: ProgramBlock)
        requires
            block_list_ok(true_branch@, seq![opcodes::ASSERT]),
            block_list_ok(false_branch@, seq![opcodes::NOT, opcodes::ASSERT]),
            blocks_wf(true_branch@, true_branch@.len()),
            blocks_wf(false_branch@, false_branch@.len()),
        ensures
            r matches ProgramBlock::Switch(w) && w.t_branch@ == true_branch@ && w.f_branch@ == false_branch@,
            block_wf(r),
    {
        ProgramBlock::Switch(Switch::new(true_branch, false_branch))
    }

    /// Returns the blocks of the true branch.
    pub fn true_branch(&self) -> (r: &[ProgramBlock])
        ensures
            r@ == self.t_branch@,
    {
        self.t_branch.as_slice()
    }

    /// Returns the hash of the true branch.
    pub fn true_branch_hash(&self) -> (r: u128)
        requires
            self.wf(),
        ensures
            r == seq_hash(self.t_branch@, false),
    {
        hash_seq(&self.t_branch, false)
    }

    /// Returns the blocks of the false branch.
    pub fn false_branch(&self) -> (r: &[ProgramBlock])
        ensures
            r@ == self.f_branch@,
    {
        self.f_branch.as_slice()
    }

    /// Returns the hash of the false branch.
    pub fn false_branch_hash(&self) -> (r: u128)
        requires
            self.wf(),
        ensures
            r == seq_hash(self.f_branch@, false),
    {
        hash_seq(&self.f_branch, false)
    }

    /// Returns the hash of the switch: the hashes of its two branches.
    pub fn get_hash(&self) -> (r: (u128, u128))
        requires
            self.wf(),
        ensures
            r == block_hash(ProgramBlock::Switch(*self)),
    {
        let v0 = self.true_branch_hash();
        let v1 = self.false_branch_hash();
        (v0, v1)
    }
}

// LOOP IMPLEMENTATION
// ================================================================================================

/// The operations of the span which runs when a loop is not entered: NOT ASSERT and 13 NOOPs.
pub open spec fn skip_ops() -> Seq<u8> {
    seq![opcodes::NOT, opcodes::ASSERT].add(Seq::new(13, |i: int| opcodes::NOOP))
}

impl Loop {
    /// Whether the loop and all blocks nested in it are well formed.
    pub open spec fn wf(&self) -> bool {
        block_wf(ProgramBlock::Loop(*self))
    }

    /// Builds a loop from its body, which must begin with ASSERT; the skip sequence is a single
    /// span of NOT ASSERT followed by NOOPs.
    pub fn new(body: Vec<ProgramBlock>) -> (r: Loop)
        requires
            block_list_ok(body@, seq![opcodes::ASSERT]),
            blocks_wf(body@, body@.len()),
        ensures
            r.body@ == body@,
            r.skip@.len() == 1,
            r.skip@[0] matches ProgramBlock::Span(s) && s.op_codes@ == skip_ops()
                && s.op_hints@ == Map::<usize, ExecutionHint>::empty(),
            r.wf(),
    {
        let skip_ops_vec: Vec<u8> = vec![
            opcodes::NOT, opcodes::ASSERT, opcodes::NOOP, opcodes::NOOP,
            opcodes::NOOP, opcodes::NOOP, opcodes::NOOP, opcodes::NOOP,
            opcodes::NOOP, opcodes::NOOP, opcodes::NOOP, opcodes::NOOP,
            opcodes::NOOP, opcodes::NOOP, opcodes::NOOP,
        ];
        assert(skip_ops_vec@ =~= skip_ops());
        let skip_block = Span::from_instructions(skip_ops_vec);
        let skip = vec![ProgramBlock::Span(skip_block)];
        proof {
            assert(skip@[0]->Span_0.op_codes@.subrange(0, 0) =~= Seq::<u8>::empty());
            assert(block_wf(skip@[0]));
            assert(blocks_wf(skip@, 0));
            assert(blocks_wf(skip@, 1));
        }
        Loop { body, skip }
    }

    /// Builds a loop block from its body.
    pub fn new_block(body: Vec<ProgramBlock>) -> (r: ProgramBlock)
        requires
            block_list_ok(body@, seq![opcodes::ASSERT]),
            blocks_wf(body@, body@.len()),
        ensures
            r matches ProgramBlock::Loop(l) && l.body@ == body@,
            block_wf(r),
    {
        ProgramBlock::Loop(Loop::new(body))
    }

    /// Returns the blocks of the loop's body.
    pub fn body(&self) -> (r: &[ProgramBlock])
        ensures
            r@ == self.body@,
    {
        self.body.as_slice()
    }

    /// Returns the hash of the loop's body.
    pub fn body_hash(&self) -> (r: u128)
        requires
            self.wf(),
        ensures
            r == seq_hash(self.body@, true),
    {
        hash_seq(&self.body, true)
    }

    /// Returns the blocks which run when the loop is not entered.
    pub fn skip(&self) -> (r: &[ProgramBlock])
        ensures
            r@ == self.skip@,
    {
        self.skip.as_slice()
    }

    /// Returns the hash of the skip sequence.
    pub fn skip_hash(&self) -> (r: u128)
        requires
            self.wf(),
        ensures
            r == seq_hash(self.skip@, false),
    {
        hash_seq(&self.skip, false)
    }

    /// Returns the hash of the loop: the hashes of its body and of its skip sequence.
    pub fn get_hash(&self) -> (r: (u128, u128))
        requires
            self.wf(),
        ensures
            r == block_hash(ProgramBlock::Loop(*self)),
    {
        let v0 = self.body_hash();
        let v1 = self.skip_hash();
        (v0, v1)
    }
}

// HELPER FUNCTIONS
// ================================================================================================

/// Checks that a sequence of blocks is well formed: it is not empty, its first block is a span
/// which begins with `starts_with`, and no span follows another span without a control block
/// (other than the first block) before it.
pub fn validate_block_list(blocks: &Vec<ProgramBlock>, starts_with: &[u8]) -> (r: bool)
    ensures
        r == block_list_ok(blocks@, starts_with@),
{
    if blocks.len() == 0 {
        return false;
    }

    // first block must be a span block which begins with the required instructions
    match &blocks[0] {
        ProgramBlock::Span(block) => {
            if !block.starts_with(starts_with) {
                return false;
            }
        },
        _ => {
            return false;
        },
    }

    // a span block cannot be followed by another span block
    let n = blocks.len();
    let mut was_span = true;
    let mut i: usize = 1;
    while i < n
        invariant
            1 <= i <= n,
            n == blocks@.len(),
            was_span == (blocks@[i - 1] is Span),
            forall|k: int| 1 <= k < i && #[trigger] (blocks@[k] is Span) ==> !(blocks@[k - 1] is Span),
        decreases n - i,
    {
        match &blocks[i] {
            ProgramBlock::Span(_) => {
                if was_span {
                    assert(blocks@[i as int] is Span);
                    return false;
                }
                was_span = true;
            },
            _ => {
                was_span = false;
            },
        }
        i = i + 1;
    }
    true
}

// CLONING
// ================================================================================================

fn clone_block(b: &ProgramBlock) -> (r: ProgramBlock)
    ensures
        same_block(*b, r),
    decreases b,
{
    reveal(same_block);
    match b {
        ProgramBlock::Span(s) => ProgramBlock::Span(s.clone()),
        ProgramBlock::Group(g) => ProgramBlock::Group(Group { body: clone_blocks(&g.body) }),
        ProgramBlock::Switch(w) => ProgramBlock::Switch(
            Switch { t_branch: clone_blocks(&w.t_branch), f_branch: clone_blocks(&w.f_branch) },
        ),
        ProgramBlock::Loop(l) => ProgramBlock::Loop(
            Loop { body: clone_blocks(&l.body), skip: clone_blocks(&l.skip) },
        ),
    }
}

fn clone_blocks(blocks: &Vec<ProgramBlock>) -> (r: Vec<ProgramBlock>)
    ensures
        same_blocks(blocks@, r@, blocks@.len()),
    decreases blocks,
{
    let mut result: Vec<ProgramBlock> = Vec::new();
    let mut i: usize = 0;
    while i < blocks.len()
        invariant
            i <= blocks@.len(),
            result@.len() == i,
            forall|k: int| 0 <= k < i ==> same_block(blocks@[k], #[trigger] result@[k]),
        decreases blocks@.len() - i,
    {
        proof {
            assert(decreases_to!(blocks => blocks@[i as int]));
        }
        result.push(clone_block(&blocks[i]));
        i = i + 1;
    }
    proof {
        lemma_same_blocks_from_each(blocks@, result@, blocks@.len());
    }
    result
}

/// Sequences of equal length whose blocks are pairwise the same are the same.
proof fn lemma_same_blocks_from_each(a: Seq<ProgramBlock>, b: Seq<ProgramBlock>, n: nat)
    requires
        a.len() == b.len(),
        n <= a.len(),
        forall|k: int| 0 <= k < n ==> same_block(a[k], #[trigger] b[k]),
    ensures
        same_blocks(a, b, n),
    decreases n,
{
    reveal(same_block);
    if n > 0 {
        lemma_same_blocks_from_each(a, b, (n - 1) as nat);
    }
}

impl Clone for Span {
    fn clone(&self) -> (r: Self)
        ensures
            r.op_codes@ == self.op_codes@,
            r.op_hints@ == self.op_hints@,
    {
        let op_codes = self.op_codes.clone();
        assert(op_codes@ =~= self.op_codes@) by {
            assert forall|i: int| 0 <= i < op_codes@.len() implies op_codes@[i] == self.op_codes@[i] by {
                assert(cloned::<u8>(self.op_codes[i], op_codes[i]));
            }
        }
        Span { op_codes, op_hints: self.op_hints.clone() }
    }
}

impl Clone for ProgramBlock {
    fn clone(&self) -> (r: Self)
        ensures
            same_block(*self, r),
    {
        clone_block(self)
    }
}

impl Clone for Group {
    fn clone(&self) -> (r: Self)
        ensures
            same_blocks(self.body@, r.body@, self.body@.len()),
    {
        Group { body: clone_blocks(&self.body) }
    }
}

impl Clone for Switch {
    fn clone(&self) -> (r: Self)
        ensures
            same_blocks(self.t_branch@, r.t_branch@, self.t_branch@.len()),
            same_blocks(self.f_branch@, r.f_branch@, self.f_branch@.len()),
    {
        Switch { t_branch: clone_blocks(&self.t_branch), f_branch: clone_blocks(&self.f_branch) }
    }
}

impl Clone for Loop {
    fn clone(&self) -> (r: Self)
        ensures
            same_blocks(self.body@, r.body@, self.body@.len()),
            same_blocks(self.skip@, r.skip@, self.skip@.len()),
    {
        Loop { body: clone_blocks(&self.body), skip: clone_blocks(&self.skip) }
    }
}

} // verus!
