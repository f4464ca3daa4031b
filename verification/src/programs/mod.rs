use vstd::prelude::*;
use vstd::arithmetic::power2::{ pow2, lemma_pow2_unfold, lemma_pow2_pos };
use crate::crypto::{ HashFunction, digest };
use crate::crypto::merkle::{ build_merkle_nodes, merkle_node, concat_digests };

pub mod blocks;
pub mod hashing;
pub mod program2;
pub mod execution;
pub mod assembly;
pub mod opcode_map;
pub mod graph;
pub mod inputs;

use blocks::{ ProgramBlock, Group, block_hash, block_list_ok, blocks_wf };
use hashing::{ hash_acc, spec_hash_acc };

verus! {

/// Number of elements of the hash accumulator's state which make up a procedure's digest.
pub const PROGRAM_DIGEST_SIZE: usize = 2usize;

// SPECIFICATIONS
// ================================================================================================

/// Byte `k` (counted from the least significant one) of `x`.
pub open spec fn le_byte(x: u128, k: int) -> u8 {
    ((x >> ((8 * k) as u32)) & 0xffu128) as u8
}

/// The 32 bytes of the first two elements of a state, each element in little-endian order.
pub open spec fn state_digest(s: Seq<u128>) -> Seq<u8> {
    Seq::new(32, |i: int| if i < 16 { le_byte(s[0], i) } else { le_byte(s[1], i - 16) })
}

/// The digest of a procedure: its hash merged into the zero state, as bytes.
pub open spec fn proc_digest(g: Group) -> Seq<u8> {
    let h = block_hash(ProgramBlock::Group(g));
    state_digest(spec_hash_acc(0, h.0, h.1))
}

/// Whether a digest is all zeros.
pub open spec fn is_zero_digest(d: [u8; 32]) -> bool {
    forall|j: int| 0 <= j < 32 ==> d@[j] == 0
}

/// Whether `x` is a power of two.
pub open spec fn is_pow2(x: nat) -> bool
    decreases x,
{
    if x == 1 {
        true
    } else if x < 2 || x % 2 == 1 {
        false
    } else {
        is_pow2(x / 2)
    }
}

/// The sibling of node `a` in a binary tree.
pub open spec fn sibling(a: int) -> int {
    if a % 2 == 0 {
        a + 1
    } else {
        a - 1
    }
}

/// The digests of the siblings of node `a` and of all its ancestors below the root.
pub open spec fn path_nodes(h: HashFunction, leaves: Seq<[u8; 32]>, a: int) -> Seq<Seq<u8>>
    decreases a,
{
    if a <= 1 {
        Seq::empty()
    } else {
        seq![merkle_node(h, leaves, sibling(a))] + path_nodes(h, leaves, a / 2)
    }
}

/// The Merkle authentication path of leaf `index`: the leaf, its sibling, then the siblings of
/// the ancestors of the pair; a single leaf is its own path.
pub open spec fn auth_path(h: HashFunction, leaves: Seq<[u8; 32]>, index: int) -> Seq<Seq<u8>> {
    if leaves.len() == 1 {
        seq![leaves[index]@]
    } else {
        seq![leaves[index]@, leaves[sibling(index)]@] + path_nodes(h, leaves, leaves.len() / 2 + index / 2)
    }
}

/// The digest obtained by folding entries `i..` of an authentication path into `v`, where `idx`
/// is the position of `v` in its layer of the tree.
pub open spec fn fold_path(h: HashFunction, path: Seq<Seq<u8>>, v: Seq<u8>, idx: int, i: int) -> Seq<u8>
    decreases path.len() - i,
{
    if i >= path.len() || i < 0 {
        v
    } else {
        let next = if idx % 2 == 0 {
            digest(h, v + path[i])
        } else {
            digest(h, path[i] + v)
        };
        fold_path(h, path, next, idx / 2, i + 1)
    }
}

/// Whether an authentication path for leaf `index` leads to `root`.
pub open spec fn path_verifies(h: HashFunction, root: Seq<u8>, index: int, path: Seq<Seq<u8>>) -> bool {
    if path.len() == 1 {
        path[0] == root
    } else {
        let first = if index % 2 == 0 {
            path[0] + path[1]
        } else {
            path[1] + path[0]
        };
        fold_path(h, path, digest(h, first), (index + pow2((path.len() - 1) as nat)) / 2, 2) == root
    }
}

// TYPES AND INTERFACES
// ================================================================================================

/// A program: a list of procedures, the digests of the procedures (padded with zero digests to a
/// power of two) and, when there is more than one procedure, the nodes of a Merkle tree over the
/// digests.
pub struct Program {
    procedures: Vec<Group>,
    proc_hashes: Vec<[u8; 32]>,
    tree_nodes: Vec<[u8; 32]>,
    hash_fn: Ghost<HashFunction>,
}

// PROGRAM IMPLEMENTATION
// ================================================================================================

impl Program {
    /// The procedures of the program.
    pub closed spec fn procs(&self) -> Seq<Group> {
        self.procedures@
    }

    /// The digests of the procedures, padded with zero digests.
    pub closed spec fn leaves(&self) -> Seq<[u8; 32]> {
        self.proc_hashes@
    }

    /// The hash function of the program's Merkle tree.
    pub closed spec fn hash_function(&self) -> HashFunction {
        self.hash_fn@
    }

    /// The hash of the program: the digest of its only procedure, or the root of the Merkle tree.
    pub open spec fn spec_hash(&self) -> Seq<u8> {
        if self.leaves().len() == 1 {
            self.leaves()[0]@
        } else {
            merkle_node(self.hash_function(), self.leaves(), 1)
        }
    }

    /// Whether the program is well formed: it has at least one procedure, all procedures are
    /// well formed, the leaves are the digests of the procedures padded with zero digests to a
    /// power of two, and with more than one leaf the tree nodes are those of the Merkle tree.
    pub closed spec fn wf(&self) -> bool {
        &&& self.procedures@.len() >= 1
        &&& forall|i: int| 0 <= i < self.procedures@.len() ==> (#[trigger] self.procedures@[i]).wf()
        &&& self.proc_hashes@.len() >= self.procedures@.len()
        &&& is_pow2(self.proc_hashes@.len() as nat)
        &&& self.proc_hashes@.len() <= usize::MAX / 2
        &&& forall|i: int| 0 <= i < self.procedures@.len() ==> (#[trigger] self.proc_hashes@[i])@ == proc_digest(self.procedures@[i])
        &&& forall|i: int| self.procedures@.len() <= i < self.proc_hashes@.len() ==> is_zero_digest(#[trigger] self.proc_hashes@[i])
        &&& self.proc_hashes@.len() > 1 ==> {
            &&& self.tree_nodes@.len() == self.proc_hashes@.len()
            &&& forall|k: int| 1 <= k < self.tree_nodes@.len() ==> (#[trigger] self.tree_nodes@[k])@ == merkle_node(self.hash_fn@, self.proc_hashes@, k)
        }
    }
}


impl Program {
    /// Builds a program from a list of procedures; with more than one procedure, the list of
    /// their digests is padded with zero digests to a power of two and a Merkle tree is built
    /// over it with `hash_fn`.
    pub fn new(procedures: Vec<Group>, hash_fn: HashFunction) -> (r: Program)
        requires
            procedures@.len() > 0,
            procedures@.len() <= usize::MAX / 4,
            forall|i: int| 0 <= i < procedures@.len() ==> (#[trigger] procedures@[i]).wf(),
        ensures
            r.wf(),
            r.procs() == procedures@,
            r.hash_function() == hash_fn,
            is_pow2(r.leaves().len() as nat),
            r.leaves().len() >= procedures@.len(),
            r.leaves().len() == 1 || r.leaves().len() / 2 < procedures@.len(),
            forall|i: int| 0 <= i < procedures@.len() ==> (#[trigger] r.leaves()[i])@ == proc_digest(procedures@[i]),
            forall|i: int| procedures@.len() <= i < r.leaves().len() ==> is_zero_digest(#[trigger] r.leaves()[i]),
    {
        let mut proc_hashes = hash_procedures(&procedures);
        let mut tree_nodes: Vec<[u8; 32]> = Vec::new();

        // if there is more than 1 procedure, build a Merkle tree out of procedure hashes
        if proc_hashes.len() > 1 {
            // make sure number of hashes is a power of 2
            let target = next_power_of_two(proc_hashes.len());
            while proc_hashes.len() < target
                invariant
                    procedures@.len() <= proc_hashes@.len() <= target,
                    forall|i: int| 0 <= i < procedures@.len() ==> (#[trigger] proc_hashes@[i])@ == proc_digest(procedures@[i]),
                    forall|i: int| procedures@.len() <= i < proc_hashes@.len() ==> is_zero_digest(#[trigger] proc_hashes@[i]),
                decreases target - proc_hashes@.len(),
            {
                proc_hashes.push([0u8; 32]);
            }
            tree_nodes = build_merkle_nodes(proc_hashes.as_slice(), hash_fn);
            proof {
                lemma_pow2_even(proc_hashes@.len() as nat);
            }
        }
        Program { procedures, proc_hashes, tree_nodes, hash_fn: Ghost(hash_fn) }
    }

    /// Builds a program with a single procedure whose body is `procedure`.
    pub fn from_proc(procedure: Vec<ProgramBlock>) -> (r: Program)
        requires
            block_list_ok(procedure@, seq![]),
            blocks_wf(procedure@, procedure@.len()),
        ensures
            r.wf(),
            r.procs().len() == 1,
            r.procs()[0].body@ == procedure@,
            r.leaves().len() == 1,
            r.leaves()[0]@ == proc_digest(r.procs()[0]),
    {
        let procedures = vec![Group::new(procedure)];
        let proc_hashes = hash_procedures(&procedures);
        Program { procedures, proc_hashes, tree_nodes: Vec::new(), hash_fn: Ghost(HashFunction::Blake3) }
    }

    /// Returns the procedure at `index`.
    pub fn get_proc(&self, index: usize) -> (r: &Group)
        requires
            index < self.procs().len(),
        ensures
            *r == self.procs()[index as int],
    {
        &self.procedures[index]
    }

    /// Returns the number of procedures of the program.
    pub fn proc_count(&self) -> (r: usize)
        ensures
            r == self.procs().len(),
    {
        self.procedures.len()
    }

    /// Returns the hash of the program: the digest of its only procedure, or the root of the
    /// Merkle tree over the digests of its procedures.
    pub fn hash(&self) -> (r: &[u8; 32])
        requires
            self.wf(),
        ensures
            r@ == self.spec_hash(),
    {
        if self.proc_hashes.len() == 1 {
            return &self.proc_hashes[0];
        }
        &self.tree_nodes[1]
    }

    /// Returns the Merkle authentication path of the procedure at `proc_index`: its digest, the
    /// digest of its sibling, and the siblings of its ancestors in the tree; with a single
    /// procedure the path is its digest alone.
    pub fn get_proc_path(&self, proc_index: usize) -> (r: Vec<[u8; 32]>)
        requires
            self.wf(),
            proc_index < self.leaves().len(),
        ensures
            r@.len() == auth_path(self.hash_function(), self.leaves(), proc_index as int).len(),
            forall|i: int| 0 <= i < r@.len() ==> (#[trigger] r@[i])@ == auth_path(self.hash_function(), self.leaves(), proc_index as int)[i],
    {
        // if the program consists of a single procedure, return its hash
        if self.proc_hashes.len() == 1 {
            return vec![self.proc_hashes[proc_index]];
        }

        // otherwise, build a Merkle authentication path
        let ghost h = self.hash_fn@;
        let ghost leaves = self.proc_hashes@;
        let mut result = Vec::new();
        result.push(self.proc_hashes[proc_index]);
        proof { lemma_xor_one(proc_index); }
        result.push(self.proc_hashes[proc_index ^ 1]);

        proof {
            lemma_pow2_even(leaves.len() as nat);
        }
        let sum = proc_index + self.tree_nodes.len();
        proof { lemma_shr_one(sum); }
        let mut index = sum >> 1;
        let ghost start = index as int;
        assert(start == leaves.len() / 2 + proc_index / 2);
        while index > 1
            invariant
                1 <= index < leaves.len(),
                self.wf(),
                h == self.hash_fn@,
                leaves == self.proc_hashes@,
                leaves.len() > 1,
                proc_index < leaves.len(),
                result@.len() >= 2,
                result@[0]@ == leaves[proc_index as int]@,
                result@[1]@ == leaves[sibling(proc_index as int)]@,
                path_nodes(h, leaves, start) =~= Seq::new((result@.len() - 2) as nat, |i: int| result@[i + 2]@) + path_nodes(h, leaves, index as int),
            decreases index,
        {
            proof { lemma_xor_one(index); lemma_shr_one(index); }
            let ghost before = result@;
            result.push(self.tree_nodes[index ^ 1]);
            assert(path_nodes(h, leaves, index as int) =~= seq![merkle_node(h, leaves, sibling(index as int))] + path_nodes(h, leaves, (index / 2) as int));
            index = index >> 1;
        }
        let ghost p = auth_path(h, leaves, proc_index as int);
        assert(path_nodes(h, leaves, index as int) =~= Seq::empty());
        assert forall|i: int| 0 <= i < result@.len() implies (#[trigger] result@[i])@ == p[i] by {
            if i >= 2 {
                assert(p[i] == path_nodes(h, leaves, start)[i - 2]);
            }
        }
        result
    }

    /// Checks a Merkle authentication path for the procedure at `index` against `program_hash`:
    /// a path of one digest must equal the hash; a longer path is folded from the pair of leaves
    /// up to the root.
    pub fn verify_proc_path(program_hash: &[u8; 32], index: usize, auth_path: &[[u8; 32]], hash: HashFunction) -> (r: bool)
        requires
            auth_path@.len() >= 1,
            auth_path@.len() > 1 ==> index + pow2((auth_path@.len() - 1) as nat) <= usize::MAX,
        ensures
            r == path_verifies(hash, program_hash@, index as int, Seq::new(auth_path@.len(), |i: int| auth_path@[i]@)),
            auth_path@.len() == 1 ==> (r == (auth_path@[0]@ == program_hash@)),
    {
        let ghost path = Seq::new(auth_path@.len(), |i: int| auth_path@[i]@);

        // if authentication path contains only one node, assume this node is program hash
        if auth_path.len() == 1 {
            return digests_equal(&auth_path[0], program_hash);
        }

        // otherwise, run standard Merkle path authentication program
        let r = index & 1;
        proof { lemma_and_one(index); }
        let buf = if r == 0 {
            concat_digests(&auth_path[0], &auth_path[1])
        } else {
            concat_digests(&auth_path[1], &auth_path[0])
        };
        let mut v = [0u8; 32];
        hash.hash(&buf, &mut v);

        let ghost index0 = index as int;
        let ghost first = if r == 0 { path[0] + path[1] } else { path[1] + path[0] };
        assert(buf@ == first);
        let p = pow2_usize(auth_path.len() - 1);
        let sum = index + p;
        proof { lemma_shr_one(sum); }
        let mut index = sum >> 1;
        let mut i: usize = 2;
        while i < auth_path.len()
            invariant
                2 <= i <= auth_path@.len(),
                path == Seq::new(auth_path@.len(), |i: int| auth_path@[i]@),
                path.len() == auth_path@.len(),
                fold_path(hash, path, v@, index as int, i as int) == fold_path(hash, path, digest(hash, first), (index0 + pow2((auth_path@.len() - 1) as nat)) / 2, 2),
            decreases auth_path@.len() - i,
        {
            proof { lemma_and_one(index); lemma_shr_one(index); }
            let ghost old_v = v@;
            let ghost old_index = index as int;
            let buf = if index & 1 == 0 {
                concat_digests(&v, &auth_path[i])
            } else {
                concat_digests(&auth_path[i], &v)
            };
            hash.hash(&buf, &mut v);
            index = index >> 1;
            assert(path[i as int] == auth_path@[i as int]@);
            assert(fold_path(hash, path, old_v, old_index, i as int) == fold_path(hash, path, v@, index as int, i + 1));
            i = i + 1;
        }
        assert(fold_path(hash, path, v@, index as int, i as int) == v@);
        digests_equal(&v, program_hash)
    }
}

/// A verifying authentication path determines the root it verifies against: no path verifies
/// against two different roots, so in particular a path of one digest verifies only against that
/// digest.
pub proof fn lemma_path_determines_root(h: HashFunction, root1: Seq<u8>, root2: Seq<u8>, index: int, path: Seq<Seq<u8>>)
    requires
        path.len() >= 1,
        path_verifies(h, root1, index, path),
        path_verifies(h, root2, index, path),
    ensures
        root1 == root2,
        path.len() == 1 ==> path[0] == root1,
{
}

/// Returns the digests of a list of procedures.
fn hash_procedures(procedures: &Vec<Group>) -> (r: Vec<[u8; 32]>)
    requires
        forall|i: int| 0 <= i < procedures@.len() ==> (#[trigger] procedures@[i]).wf(),
    ensures
        r@.len() == procedures@.len(),
        forall|i: int| 0 <= i < procedures@.len() ==> (#[trigger] r@[i])@ == proc_digest(procedures@[i]),
{
    let mut hashes: Vec<[u8; 32]> = Vec::new();
    let mut i: usize = 0;
    while i < procedures.len()
        invariant
            i <= procedures@.len(),
            hashes@.len() == i,
            forall|k: int| 0 <= k < procedures@.len() ==> (#[trigger] procedures@[k]).wf(),
            forall|k: int| 0 <= k < i ==> (#[trigger] hashes@[k])@ == proc_digest(procedures@[k]),
        decreases procedures@.len() - i,
    {
        let (v0, v1) = procedures[i].get_hash();
        let hash = hash_acc(0, v0, v1);
        hashes.push(state_bytes(&hash));
        i = i + 1;
    }
    hashes
}

/// Returns the bytes of the first two elements of a state, each in little-endian order.
fn state_bytes(hash: &[u128; 4]) -> (r: [u8; 32])
    ensures
        r@ == state_digest(hash@),
{
    let mut bytes = [0u8; 32];
    let mut k: usize = 0;
    while k < 16
        invariant
            k <= 16,
            forall|j: int| 0 <= j < k ==> bytes@[j] == le_byte(hash@[0], j),
            forall|j: int| 0 <= j < k ==> bytes@[16 + j] == le_byte(hash@[1], j),
        decreases 16 - k,
    {
        bytes[k] = ((hash[0] >> ((8 * k) as u32)) & 0xff) as u8;
        bytes[16 + k] = ((hash[1] >> ((8 * k) as u32)) & 0xff) as u8;
        k = k + 1;
    }
    assert(bytes@ =~= state_digest(hash@));
    bytes
}

/// Returns true when two digests are equal.
fn digests_equal(a: &[u8; 32], b: &[u8; 32]) -> (r: bool)
    ensures
        r == (a@ == b@),
{
    let mut i: usize = 0;
    while i < 32
        invariant
            i <= 32,
            forall|j: int| 0 <= j < i ==> a@[j] == b@[j],
        decreases 32 - i,
    {
        if a[i] != b[i] {
            return false;
        }
        i = i + 1;
    }
    assert(a@ =~= b@);
    true
}

/// Returns the smallest power of two which is not smaller than `n`.
fn next_power_of_two(n: usize) -> (r: usize)
    requires
        n <= usize::MAX / 2,
    ensures
        is_pow2(r as nat),
        r >= n,
        r == 1 || r / 2 < n,
{
    let mut p: usize = 1;
    while p < n
        invariant
            p >= 1,
            is_pow2(p as nat),
            p == 1 || p / 2 < n,
            n <= usize::MAX / 2,
        decreases 2 * n - p,
    {
        proof { lemma_pow2_double(p as nat); }
        p = p * 2;
    }
    p
}

/// Returns 2^e.
fn pow2_usize(e: usize) -> (r: usize)
    requires
        pow2(e as nat) <= usize::MAX,
    ensures
        r == pow2(e as nat),
{
    let mut p: usize = 1;
    let mut i: usize = 0;
    proof { vstd::arithmetic::power2::lemma2_to64(); }
    while i < e
        invariant
            i <= e,
            p == pow2(i as nat),
            pow2(e as nat) <= usize::MAX,
        decreases e - i,
    {
        proof {
            lemma_pow2_unfold((i + 1) as nat);
            if i + 1 < e {
                vstd::arithmetic::power2::lemma_pow2_strictly_increases((i + 1) as nat, e as nat);
            }
        }
        p = p * 2;
        i = i + 1;
    }
    p
}


// LAWS
// ================================================================================================

impl Program {
    /// A Merkle authentication path produced for any leaf of a program verifies against the
    /// program's hash with the program's hash function, and the path is short enough for the
    /// verification's index arithmetic to fit into a `usize`.
    pub proof fn lemma_proc_path_verifies(&self, index: int)
        requires
            self.wf(),
            0 <= index < self.leaves().len(),
        ensures
            path_verifies(self.hash_function(), self.spec_hash(), index, auth_path(self.hash_function(), self.leaves(), index)),
            auth_path(self.hash_function(), self.leaves(), index).len() >= 1,
            auth_path(self.hash_function(), self.leaves(), index).len() > 1 ==> index + pow2(
                (auth_path(self.hash_function(), self.leaves(), index).len() - 1) as nat,
            ) <= usize::MAX,
    {
        let h = self.hash_fn@;
        let leaves = self.proc_hashes@;
        let len = leaves.len();
        if len > 1 {
            let n = (len / 2) as int;
            let d = lemma_is_pow2(len as nat);
            lemma_pow2_pos(d);
            assert(d >= 1) by {
                if d == 0 {
                    vstd::arithmetic::power2::lemma2_to64();
                }
            }
            lemma_pow2_unfold(d);
            let dm = (d - 1) as nat;
            assert(pow2(dm) == n);
            let a0 = n + index / 2;
            lemma_path_nodes_len(h, leaves, a0, dm);
            lemma_pow2_unfold(dm + 1);
            vstd::arithmetic::power2::lemma_pow2_adds(dm, 1);
            let path = auth_path(h, leaves, index);
            assert(path.len() == dm + 2);
            assert(pow2((path.len() - 1) as nat) == len);
            let first = if index % 2 == 0 {
                path[0] + path[1]
            } else {
                path[1] + path[0]
            };
            assert(first == leaves[2 * (a0 - n)]@ + leaves[2 * (a0 - n) + 1]@);
            assert(digest(h, first) == merkle_node(h, leaves, a0));
            assert((index + len) / 2 == a0);
            assert forall|t: int| 0 <= t < path_nodes(h, leaves, a0).len() implies path[2 + t] == path_nodes(h, leaves, a0)[t] by {}
            lemma_fold_path(h, leaves, path, a0, 2);
        }
    }
}

/// A power of two is 2^d for some d.
proof fn lemma_is_pow2(x: nat) -> (d: nat)
    requires
        is_pow2(x),
    ensures
        pow2(d) == x,
    decreases x,
{
    if x == 1 {
        vstd::arithmetic::power2::lemma2_to64();
        0
    } else {
        let e = lemma_is_pow2(x / 2);
        lemma_pow2_unfold(e + 1);
        e + 1
    }
}

/// A node on level `k` below the root has `k` ancestors' siblings on its path.
proof fn lemma_path_nodes_len(h: HashFunction, leaves: Seq<[u8; 32]>, a: int, k: nat)
    requires
        pow2(k) <= a < pow2(k + 1),
    ensures
        path_nodes(h, leaves, a).len() == k,
    decreases k,
{
    lemma_pow2_unfold(k + 1);
    if k == 0 {
        vstd::arithmetic::power2::lemma2_to64();
    } else {
        lemma_pow2_unfold(k);
        lemma_path_nodes_len(h, leaves, a / 2, (k - 1) as nat);
    }
}

/// Folding the path of the ancestors' siblings of node `a` into the digest of node `a` gives the
/// root of the tree.
proof fn lemma_fold_path(h: HashFunction, leaves: Seq<[u8; 32]>, path: Seq<Seq<u8>>, a: int, j: int)
    requires
        1 <= a < 2 * (leaves.len() / 2),
        0 <= j,
        path.len() == j + path_nodes(h, leaves, a).len(),
        forall|t: int| 0 <= t < path_nodes(h, leaves, a).len() ==> path[j + t] == path_nodes(h, leaves, a)[t],
    ensures
        fold_path(h, path, merkle_node(h, leaves, a), a, j) == merkle_node(h, leaves, 1),
    decreases a,
{
    if a > 1 {
        let k = a / 2;
        assert(path[j] == path_nodes(h, leaves, a)[0]);
        assert(merkle_node(h, leaves, k) == digest(h, merkle_node(h, leaves, 2 * k) + merkle_node(h, leaves, 2 * k + 1)));
        assert forall|t: int| 0 <= t < path_nodes(h, leaves, k).len() implies path[j + 1 + t] == path_nodes(h, leaves, k)[t] by {
            assert(path[j + (t + 1)] == path_nodes(h, leaves, a)[t + 1]);
        }
        lemma_fold_path(h, leaves, path, k, j + 1);
    }
}

// LEMMAS
// ================================================================================================

proof fn lemma_pow2_double(p: nat)
    requires
        is_pow2(p),
    ensures
        is_pow2(p * 2),
{
    assert((p * 2) / 2 == p);
}

proof fn lemma_pow2_even(p: nat)
    requires
        is_pow2(p),
        p > 1,
    ensures
        p % 2 == 0,
{
}

proof fn lemma_xor_one(x: usize)
    ensures
        x ^ 1 == sibling(x as int),
{
    assert(x ^ 1usize == if x % 2 == 0 { (x + 1) as usize } else { (x - 1) as usize }) by (bit_vector);
}

proof fn lemma_shr_one(x: usize)
    ensures
        x >> 1 == x / 2,
{
    assert(x >> 1usize == x / 2) by (bit_vector);
}

proof fn lemma_and_one(x: usize)
    ensures
        x & 1 == x % 2,
{
    assert(x & 1usize == x % 2) by (bit_vector);
}

} // verus!
