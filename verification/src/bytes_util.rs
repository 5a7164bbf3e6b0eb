//! Small helpers over byte vectors and 32-byte hashes.

use vstd::prelude::*;

verus! {

/// The all-zero 32-byte hash, used as the block hash of votes that name no
/// candidate.
pub open spec fn zero_hash() -> Seq<u8> {
    Seq::new(32, |i: int| 0u8)
}

/// The all-zero 32-byte hash as an array value.
pub open spec fn spec_zero_hash_value() -> [u8; 32] {
    vstd::array::spec_array_fill_for_copy_type::<u8, 32>(0u8)
}


/// Byte-for-byte equality of two vectors.
pub fn bytes_eq(a: &Vec<u8>, b: &Vec<u8>) -> (r: bool)
    ensures
        r == (a@ =~= b@),
{
    if a.len() != b.len() {
        return false;
    }
    let n = a.len();
    let mut i: usize = 0;
    while i < n
        invariant
            n == a.len() == b.len(),
            i <= n,
            forall|j: int| 0 <= j < i ==> a@[j] == b@[j],
        decreases n - i,
    {
        if a[i] != b[i] {
            return false;
        }
        i += 1;
    }
    true
}

/// Equality of two 32-byte hashes.
pub fn hash_eq(a: &[u8; 32], b: &[u8; 32]) -> (r: bool)
    ensures
        r == (a@ =~= b@),
{
    let mut i: usize = 0;
    while i < 32
        invariant
            i <= 32,
            forall|j: int| 0 <= j < i ==> a@[j] == b@[j],
        decreases 32 - i,
    {
        if a[i] != b[i] {
            return false;
        }
        i += 1;
    }
    true
}

/// True iff the hash is all zeroes.
pub fn is_zero_hash(h: &[u8; 32]) -> (r: bool)
    ensures
        r == (h@ =~= zero_hash()),
{
    let mut i: usize = 0;
    while i < 32
        invariant
            i <= 32,
            forall|j: int| 0 <= j < i ==> h@[j] == 0u8,
        decreases 32 - i,
    {
        if h[i] != 0 {
            return false;
        }
        i += 1;
    }
    true
}

/// A fresh copy of a byte vector.
pub fn copy_bytes(a: &Vec<u8>) -> (r: Vec<u8>)
    ensures
        r@ =~= a@,
{
    let n = a.len();
    let mut out: Vec<u8> = Vec::new();
    let mut i: usize = 0;
    while i < n
        invariant
            n == a.len(),
            i <= n,
            out@ =~= a@.take(i as int),
        decreases n - i,
    {
        out.push(a[i]);
        i += 1;
    }
    proof {
        assert(a@.take(n as int) =~= a@);
    }
    out
}

} // verus!
