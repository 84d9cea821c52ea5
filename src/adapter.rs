//! Blake3 as the hash of a Merkle tree: no-pad hashing of field elements and
//! two-to-one compression, each truncated to an `N`-byte digest.
//!
//! Field elements are given by their canonical `u64` value and serialised as
//! eight little-endian bytes each, in order.

use vstd::prelude::*;

verus! {

/// The Blake3 digest of `data`.
pub uninterp spec fn blake3_of(data: Seq<u8>) -> Seq<u8>;

/// Relies on `blake3::hash`: the 32-byte Blake3 digest of `data`, which
/// depends on `data` alone.
#[verifier::external_body]
fn blake3_digest(data: &[u8]) -> (r: [u8; 32])
    ensures
        r@ == blake3_of(data@),
{
    *blake3::hash(data).as_bytes()
}

/// Byte `i` of `x` in little-endian order.
pub open spec fn le_byte(x: u64, i: int) -> u8 {
    ((x >> ((8 * i) as u64)) % 256) as u8
}

/// The eight little-endian bytes of `x`.
pub open spec fn le_bytes(x: u64) -> Seq<u8> {
    Seq::new(8, |i: int| le_byte(x, i))
}

/// The canonical serialisation of a sequence of field elements.
pub open spec fn field_bytes(xs: Seq<u64>) -> Seq<u8>
    decreases xs.len(),
{
    if xs.len() == 0 {
        seq![]
    } else {
        field_bytes(xs.drop_last()) + le_bytes(xs.last())
    }
}

/// The first `n` bytes of the Blake3 digest of `data`.
pub open spec fn truncated_digest(data: Seq<u8>, n: nat) -> Seq<u8> {
    blake3_of(data).take(n as int)
}

/// Serialises field elements, given by their canonical values, to bytes.
pub fn serialize_fields(input: &[u64]) -> (r: Vec<u8>)
    requires
        input@.len() * 8 <= usize::MAX,
    ensures
        r@ == field_bytes(input@),
{
    let mut out: Vec<u8> = Vec::with_capacity(input.len() * 8);
    let mut i: usize = 0;
    while i < input.len()
        invariant
            i <= input@.len(),
            out@ == field_bytes(input@.take(i as int)),
        decreases input@.len() - i,
    {
        let x = input[i];
        let mut j: usize = 0;
        let ghost before = out@;
        while j < 8
            invariant
                j <= 8,
                out@ == before + le_bytes(x).take(j as int),
            decreases 8 - j,
        {
            let b = ((x >> ((8 * j) as u64)) % 256) as u8;
            out.push(b);
            assert(le_bytes(x).take(j + 1) =~= le_bytes(x).take(j as int).push(b));
            j = j + 1;
        }
        assert(le_bytes(x).take(8) =~= le_bytes(x));
        assert(input@.take(i + 1).drop_last() =~= input@.take(i as int));
        i = i + 1;
    }
    assert(input@.take(input@.len() as int) =~= input@);
    out
}

/// Copies the first `N` bytes of a digest.
fn truncate<const N: usize>(digest: &[u8; 32]) -> (r: [u8; N])
    requires
        N <= 32,
    ensures
        r@ == digest@.take(N as int),
{
    let mut arr = [0u8; N];
    let mut i: usize = 0;
    while i < N
        invariant
            i <= N <= 32,
            arr@.len() == N,
            forall|j: int| 0 <= j < i ==> arr@[j] == digest@[j],
        decreases N - i,
    {
        arr[i] = digest[i];
        i = i + 1;
    }
    assert(arr@ =~= digest@.take(N as int));
    arr
}

/// Blake3 with its digest truncated to `N` bytes.
#[derive(Copy, Clone, Debug, PartialEq, Eq)]
pub struct Blake3Hash<const N: usize>;

impl<const N: usize> Blake3Hash<N> {
    /// Hashes the serialised field elements, with no padding, and keeps the
    /// first `N` bytes of the digest.
    pub fn hash_no_pad(input: &[u64]) -> (r: [u8; N])
        requires
            N <= 32,
            input@.len() * 8 <= usize::MAX,
        ensures
            r@ == truncated_digest(field_bytes(input@), N as nat),
    {
        let buffer = serialize_fields(input);
        let digest = blake3_digest(buffer.as_slice());
        truncate::<N>(&digest)
    }

    /// Hashes `left` followed by `right` and keeps the first `N` bytes of
    /// the digest: the parent of two nodes of a Merkle tree.
    pub fn two_to_one(left: [u8; N], right: [u8; N]) -> (r: [u8; N])
        requires
            N <= 32,
        ensures
            r@ == truncated_digest(left@ + right@, N as nat),
    {
        let mut v: Vec<u8> = Vec::with_capacity(2 * N);
        let mut i: usize = 0;
        while i < N
            invariant
                i <= N <= 32,
                v@ == left@.take(i as int),
            decreases N - i,
        {
            v.push(left[i]);
            assert(left@.take(i + 1) =~= left@.take(i as int).push(left@[i as int]));
            i = i + 1;
        }
        assert(left@.take(N as int) =~= left@);
        let mut j: usize = 0;
        while j < N
            invariant
                j <= N <= 32,
                v@ == left@ + right@.take(j as int),
            decreases N - j,
        {
            v.push(right[j]);
            assert(right@.take(j + 1) =~= right@.take(j as int).push(right@[j as int]));
            j = j + 1;
        }
        assert(right@.take(N as int) =~= right@);
        let digest = blake3_digest(v.as_slice());
        truncate::<N>(&digest)
    }
}

/// The Goldilocks field with Blake3, truncated to `HASH_SIZE` bytes, as the
/// hash of its Merkle trees.
#[derive(Copy, Clone, Debug, Default, PartialEq, Eq)]
pub struct Blake3GoldilocksConfig;

impl Blake3GoldilocksConfig {
    /// Width in bytes of this configuration's digests.
    pub const HASH_SIZE: usize = 25;
}

/// Two-to-one compression hashes its children in order: for two different
/// children of the same width, swapping them changes the bytes that are
/// hashed.
pub proof fn lemma_two_to_one_input_ordered(left: Seq<u8>, right: Seq<u8>)
    requires
        left.len() == right.len(),
        left != right,
    ensures
        left + right != right + left,
{
    assert((left + right).take(left.len() as int) =~= left);
    assert((right + left).take(left.len() as int) =~= right);
}

/// No-pad hashing of no element and of one element hashes different bytes:
/// none, and the eight bytes of the element.
pub proof fn lemma_no_pad_empty_and_single_differ(x: u64)
    ensures
        field_bytes(seq![]) == Seq::<u8>::empty(),
        field_bytes(seq![x]) == le_bytes(x),
        field_bytes(seq![]) != field_bytes(seq![x]),
{
    assert(seq![x].drop_last() =~= Seq::<u64>::empty());
    assert(field_bytes(Seq::<u64>::empty()) =~= Seq::<u8>::empty());
    assert(field_bytes(seq![x]) =~= le_bytes(x));
    assert(field_bytes(seq![x]).len() == 8);
}

} // verus!
