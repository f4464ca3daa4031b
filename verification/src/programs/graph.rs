use vstd::prelude::*;
use std::collections::HashMap;
use crate::opcodes;
use super::blocks::{ ExecutionHint, hint_at };

verus! {

// TYPES AND INTERFACES
// ================================================================================================

/// A segment of operations of a program, with the hints of its operations and, when the
/// program branches after it, the graphs of the true and the false branch.
#[derive(Debug)]
pub struct ExecutionGraph {
    operations: Vec<u128>,
    op_hints: HashMap<usize, ExecutionHint>,
    t_branch: Option<Box<ExecutionGraph>>,
    f_branch: Option<Box<ExecutionGraph>>,
}

// EXECUTION GRAPH IMPLEMENTATION
// ================================================================================================

impl ExecutionGraph {
    /// The operations of the segment.
    pub closed spec fn ops(&self) -> Seq<u128> {
        self.operations@
    }

    /// The hints of the operations of the segment.
    pub closed spec fn hints(&self) -> Map<usize, ExecutionHint> {
        self.op_hints@
    }

    /// The graph of the true branch, if any.
    pub closed spec fn next_true(&self) -> Option<Box<ExecutionGraph>> {
        self.t_branch
    }

    /// The graph of the false branch, if any.
    pub closed spec fn next_false(&self) -> Option<Box<ExecutionGraph>> {
        self.f_branch
    }

    /// Whether the branches of the graph are consistent: either there are none, or both are
    /// there, the true branch begins with ASSERT, the false branch begins with NOT ASSERT, and
    /// the same holds of their own branches.
    pub closed spec fn branches_ok(&self) -> bool
        decreases self,
    {
        match (self.t_branch, self.f_branch) {
            (Some(t), Some(f)) => {
                &&& t.operations@.len() >= 1
                &&& t.operations@[0] == opcodes::ASSERT as u128
                &&& f.operations@.len() >= 2
                &&& f.operations@[0] == opcodes::NOT as u128
                &&& f.operations@[1] == opcodes::ASSERT as u128
                &&& t.branches_ok()
                &&& f.branches_ok()
            },
            (None, None) => true,
            _ => false,
        }
    }

    /// Builds a segment without branches from a sequence of operations and their hints.
    pub(crate) fn segment(operations: Vec<u128>, hints: HashMap<usize, ExecutionHint>) -> (r: ExecutionGraph)
        ensures
            r.ops() == operations@,
            r.hints() == hints@,
            r.next_true() is None,
            r.next_false() is None,
            r.branches_ok(),
    {
        ExecutionGraph { operations, op_hints: hints, t_branch: None, f_branch: None }
    }

    /// Builds a segment of an execution graph from a sequence of operations, which must not be
    /// empty nor end with a PUSH operation.
    pub fn new(operations: Vec<u128>) -> (r: ExecutionGraph)
        requires
            operations@.len() > 0,
            operations@.last() != opcodes::PUSH as u128,
        ensures
            r.ops() == operations@,
            r.hints() == Map::<usize, ExecutionHint>::empty(),
            r.next_true() is None,
            r.next_false() is None,
            r.branches_ok(),
    {
        ExecutionGraph { operations, op_hints: HashMap::new(), t_branch: None, f_branch: None }
    }

    /// Builds a segment of an execution graph from a sequence of operations and their hints; the
    /// operations must not be empty nor end with a PUSH operation.
    pub fn with_hints(operations: Vec<u128>, hints: HashMap<usize, ExecutionHint>) -> (r: ExecutionGraph)
        requires
            operations@.len() > 0,
            operations@.last() != opcodes::PUSH as u128,
        ensures
            r.ops() == operations@,
            r.hints() == hints@,
            r.next_true() is None,
            r.next_false() is None,
            r.branches_ok(),
    {
        ExecutionGraph { operations, op_hints: hints, t_branch: None, f_branch: None }
    }

    /// Attaches the true and the false branch to this segment; the true branch must begin with
    /// ASSERT and the false branch with NOT ASSERT.
    pub fn set_next(&mut self, true_branch: ExecutionGraph, false_branch: ExecutionGraph)
        requires
            true_branch.ops().len() >= 1,
            true_branch.ops()[0] == opcodes::ASSERT as u128,
            false_branch.ops().len() >= 2,
            false_branch.ops()[0] == opcodes::NOT as u128,
            false_branch.ops()[1] == opcodes::ASSERT as u128,
        ensures
            final(self).ops() == old(self).ops(),
            final(self).hints() == old(self).hints(),
            final(self).next_true() == Some(Box::new(true_branch)),
            final(self).next_false() == Some(Box::new(false_branch)),
            true_branch.branches_ok() && false_branch.branches_ok() ==> final(self).branches_ok(),
    {
        self.t_branch = Some(Box::new(true_branch));
        self.f_branch = Some(Box::new(false_branch));
    }

    /// Returns true when branches follow this segment.
    pub fn has_next(&self) -> (r: bool)
        ensures
            r == self.next_true() is Some,
    {
        self.t_branch.is_some()
    }

    /// Returns the operations of the segment.
    pub fn operations(&self) -> (r: &[u128])
        ensures
            r@ == self.ops(),
    {
        self.operations.as_slice()
    }

    /// Returns the graph of the true branch.
    pub fn true_branch(&self) -> (r: &ExecutionGraph)
        requires
            self.next_true() is Some,
        ensures
            Some(Box::new(*r)) == self.next_true(),
    {
        match &self.t_branch {
            Some(b) => b,
            None => self,
        }
    }

    /// Returns the graph of the false branch.
    pub fn false_branch(&self) -> (r: &ExecutionGraph)
        requires
            self.next_false() is Some,
        ensures
            Some(Box::new(*r)) == self.next_false(),
    {
        match &self.f_branch {
            Some(b) => b,
            None => self,
        }
    }

    /// Returns the hint of the operation at `op_index`, or `ExecutionHint::NoHint`.
    pub fn get_hint(&self, op_index: usize) -> (r: ExecutionHint)
        ensures
            r == hint_at(self.hints(), op_index),
    {
        match self.op_hints.get(&op_index) {
            Some(hint) => *hint,
            None => ExecutionHint::NoHint,
        }
    }
}

} // verus!
