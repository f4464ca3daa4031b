use vstd::prelude::*;
use super::blocks::{ ProgramBlock, Group, block_hash, block_list_ok, blocks_wf };
use super::hashing::{ hash_acc, spec_hash_acc };

verus! {

/// A program made of one group of blocks.
pub struct Program {
    root: Group,
}

impl Program {
    /// The group of blocks of the program.
    pub closed spec fn root(&self) -> Group {
        self.root
    }

    /// Builds a program whose body is `body`.
    pub fn new(body: Vec<ProgramBlock>) -> (r: Program)
        requires
            block_list_ok(body@, seq![]),
            blocks_wf(body@, body@.len()),
        ensures
            r.root().body@ == body@,
            r.root().wf(),
    {
        Program { root: Group::new(body) }
    }

    /// Returns the blocks of the program.
    pub fn body(&self) -> (r: &[ProgramBlock])
        ensures
            r@ == self.root().body@,
    {
        self.root.body()
    }

    /// The hash of the program: the hash of its group merged into the zero state.
    pub open spec fn hash_value(&self) -> Seq<u128> {
        spec_hash_acc(0, block_hash(ProgramBlock::Group(self.root())).0, block_hash(ProgramBlock::Group(self.root())).1)
    }

    /// Returns the hash of the program: the hash of its group merged into the zero state.
    pub fn hash(&self) -> (r: [u128; 4])
        requires
            self.root().wf(),
        ensures
            r@ == self.hash_value(),
    {
        let (v0, v1) = self.root.get_hash();
        hash_acc(0, v0, v1)
    }
}

} // verus!
