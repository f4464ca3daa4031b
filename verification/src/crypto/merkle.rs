use vstd::prelude::*;
use super::{ HashFunction, digest };

verus! {

/// Node `k` of the Merkle tree built over `leaves`, for `1 <= k < 2n` where `n` is the number of
/// pairs of leaves: nodes `n..2n` are the digests of the pairs of leaves, and node `k < n` is the
/// digest of its two children `2k` and `2k + 1`; node 1 is the root.
pub open spec fn merkle_node(h: HashFunction, leaves: Seq<[u8; 32]>, k: int) -> Seq<u8>
    decreases leaves.len() - k,
{
    let n = (leaves.len() / 2) as int;
    if k < 1 || k >= 2 * n {
        Seq::empty()
    } else if k >= n {
        digest(h, leaves[2 * (k - n)]@ + leaves[2 * (k - n) + 1]@)
    } else {
        digest(h, merkle_node(h, leaves, 2 * k) + merkle_node(h, leaves, 2 * k + 1))
    }
}

/// Returns the 64 bytes of `a` followed by `b`.
pub fn concat_digests(a: &[u8; 32], b: &[u8; 32]) -> (r: [u8; 64])
    ensures
        r@ == a@ + b@,
{
    let mut buf = [0u8; 64];
    let mut i: usize = 0;
    while i < 32
        invariant
            i <= 32,
            forall|j: int| 0 <= j < i ==> buf@[j] == a@[j],
            forall|j: int| 0 <= j < i ==> buf@[32 + j] == b@[j],
        decreases 32 - i,
    {
        buf[i] = a[i];
        buf[32 + i] = b[i];
        i = i + 1;
    }
    assert(buf@ =~= a@ + b@);
    buf
}

/// Builds the nodes of a Merkle tree over `leaves`: for `n` pairs of leaves the result holds
/// `2n` entries, entry 0 is unused (all zeros) and entry `k` is node `k` of the tree.
pub fn build_merkle_nodes(leaves: &[[u8; 32]], hash: HashFunction) -> (r: Vec<[u8; 32]>)
    requires
        leaves@.len() >= 2,
    ensures
        r@.len() == 2 * (leaves@.len() / 2),
        forall|k: int| 1 <= k < r@.len() ==> (#[trigger] r@[k])@ == merkle_node(hash, leaves@, k),
{
    let len = leaves.len();
    let n = len / 2;
    let m = n + n;
    let mut nodes: Vec<[u8; 32]> = Vec::new();
    let mut j: usize = 0;
    while j < m
        invariant
            j <= 2 * n,
            n == leaves@.len() / 2,
            m == 2 * n,
            len == leaves@.len(),
            m <= len,
            nodes@.len() == j,
        decreases 2 * n - j,
    {
        nodes.push([0u8; 32]);
        j = j + 1;
    }

    // hash pairs of leaves into the bottom layer of nodes
    let mut i: usize = 0;
    while i < n
        invariant
            i <= n,
            n == leaves@.len() / 2,
            m == 2 * n,
            len == leaves@.len(),
            m <= len,
            n >= 1,
            nodes@.len() == 2 * n,
            forall|k: int| n <= k < n + i ==> (#[trigger] nodes@[k])@ == merkle_node(hash, leaves@, k),
        decreases n - i,
    {
        let buf = concat_digests(&leaves[2 * i], &leaves[2 * i + 1]);
        let mut d = [0u8; 32];
        hash.hash(&buf, &mut d);
        nodes.set(n + i, d);
        i = i + 1;
    }

    // hash pairs of nodes into their parents, from the bottom up
    let mut i: usize = n;
    while i > 1
        invariant
            1 <= i <= n,
            n == leaves@.len() / 2,
            m == 2 * n,
            len == leaves@.len(),
            m <= len,
            nodes@.len() == 2 * n,
            forall|k: int| i <= k < 2 * n ==> (#[trigger] nodes@[k])@ == merkle_node(hash, leaves@, k),
        decreases i,
    {
        i = i - 1;
        let buf = concat_digests(&nodes[2 * i], &nodes[2 * i + 1]);
        let mut d = [0u8; 32];
        hash.hash(&buf, &mut d);
        nodes.set(i, d);
    }
    nodes
}

} // verus!
