use vstd::prelude::*;
use crate::crypto::{ HashFunction, digest };
use crate::programs::le_byte;

verus! {

/// The distinct positions within a row of `row_length` of the first `n` positions, in the order
/// in which they first occur.
pub open spec fn augmented(positions: Seq<usize>, row_length: nat, n: nat) -> Seq<usize>
    decreases n,
{
    if n == 0 || n > positions.len() {
        Seq::empty()
    } else {
        let prev = augmented(positions, row_length, (n - 1) as nat);
        let ap = (positions[n - 1] as nat % row_length) as usize;
        if prev.contains(ap) {
            prev
        } else {
            prev.push(ap)
        }
    }
}

/// The 64 bytes of four field elements, each in little-endian order.
pub open spec fn values_bytes(v: Seq<u128>) -> Seq<u8> {
    Seq::new(64, |i: int| le_byte(v[i / 16], i % 16))
}

/// Returns the distinct positions within a row of the evaluation domain (a quarter of the column
/// length) of the given positions, in the order in which they first occur.
pub fn get_augmented_positions(positions: &[usize], column_length: usize) -> (r: Vec<usize>)
    requires
        column_length >= 4,
    ensures
        r@ == augmented(positions@, (column_length / 4) as nat, positions@.len()),
{
    let row_length = column_length / 4;
    let mut result: Vec<usize> = Vec::new();
    let mut i: usize = 0;
    while i < positions.len()
        invariant
            i <= positions@.len(),
            row_length == column_length / 4,
            row_length > 0,
            result@ == augmented(positions@, row_length as nat, i as nat),
        decreases positions@.len() - i,
    {
        let ap = positions[i] % row_length;
        let mut found = false;
        let mut j: usize = 0;
        while j < result.len()
            invariant
                j <= result@.len(),
                found == exists|k: int| 0 <= k < j && result@[k] == ap,
            decreases result@.len() - j,
        {
            if result[j] == ap {
                found = true;
            }
            j = j + 1;
        }
        proof {
            if found {
                let k = choose|k: int| 0 <= k < result@.len() && result@[k] == ap;
                assert(result@.contains(ap));
            } else {
                assert(!result@.contains(ap));
            }
        }
        if !found {
            result.push(ap);
        }
        i = i + 1;
    }
    result
}

/// Returns the bytes of four field elements, each in little-endian order.
fn values_to_bytes(v: &[u128; 4]) -> (r: [u8; 64])
    ensures
        r@ == values_bytes(v@),
{
    let mut bytes = [0u8; 64];
    let mut i: usize = 0;
    while i < 64
        invariant
            i <= 64,
            forall|j: int| 0 <= j < i ==> bytes@[j] == le_byte(v@[j / 16], j % 16),
        decreases 64 - i,
    {
        let k = i % 16;
        bytes[i] = ((v[i / 16] >> ((8 * k) as u32)) & 0xff) as u8;
        i = i + 1;
    }
    assert(bytes@ =~= values_bytes(v@));
    bytes
}

/// Returns the digests of the bytes of each group of four values.
pub fn hash_values(values: &Vec<[u128; 4]>, hash: HashFunction) -> (r: Vec<[u8; 32]>)
    ensures
        r@.len() == values@.len(),
        forall|i: int| 0 <= i < values@.len() ==> (#[trigger] r@[i])@ == digest(hash, values_bytes(values@[i]@)),
{
    let mut result: Vec<[u8; 32]> = Vec::new();
    let mut i: usize = 0;
    while i < values.len()
        invariant
            i <= values@.len(),
            result@.len() == i,
            forall|k: int| 0 <= k < i ==> (#[trigger] result@[k])@ == digest(hash, values_bytes(values@[k]@)),
        decreases values@.len() - i,
    {
        let bytes = values_to_bytes(&values[i]);
        let mut d = [0u8; 32];
        hash.hash(&bytes, &mut d);
        result.push(d);
        i = i + 1;
    }
    result
}

} // verus!
