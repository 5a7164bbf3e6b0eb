//! The committee bitset: a 64-bit vector whose bit `i` stands for the
//! committee member at position `i`.

use vstd::prelude::*;

verus! {

/// Whether bit `i` of the bitset is set.
pub open spec fn has_bit(bs: u64, i: int) -> bool {
    0 <= i < 64 && (bs >> (i as u64)) & 1u64 == 1u64
}

/// Tests bit `i`.
pub fn test_bit(bs: u64, i: usize) -> (r: bool)
    requires
        i < 64,
    ensures
        r == has_bit(bs, i as int),
{
    (bs >> (i as u64)) & 1u64 == 1u64
}

/// Sets bit `i`, leaving every other bit as it was.
pub fn set_bit(bs: u64, i: usize) -> (r: u64)
    requires
        i < 64,
    ensures
        forall|j: int| 0 <= j < 64 ==> has_bit(r, j) == (j == i || has_bit(bs, j)),
        has_bit(r, i as int),
{
    let r = bs | (1u64 << (i as u64));
    proof {
        let k = i as u64;
        assert forall|j: int| 0 <= j < 64 implies has_bit(r, j) == (j == i || has_bit(
            bs,
            j,
        )) by {
            let jj = j as u64;
            assert((jj == k ==> ((bs | (1u64 << k)) >> jj) & 1u64 == 1u64) && (jj != k ==> ((bs | (
            1u64 << k)) >> jj) & 1u64 == (bs >> jj) & 1u64)) by (bit_vector)
                requires
                    jj < 64u64 && k < 64u64,
            ;
        }
    }
    r
}

/// The empty bitset has no bit set.
pub proof fn lemma_zero_bitset()
    ensures
        forall|j: int| !has_bit(0u64, j),
{
    assert forall|j: int| !has_bit(0u64, j) by {
        if 0 <= j < 64 {
            let jj = j as u64;
            assert((0u64 >> jj) & 1u64 == 0u64) by (bit_vector);
        }
    }
}

} // verus!
