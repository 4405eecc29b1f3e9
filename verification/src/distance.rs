//! The distance scorer: byte-wise XOR of two equal-length buffers,
//! followed by a population count summed over all bytes. This is the
//! Hamming distance between the two bit vectors, the metric a host uses
//! to rank fingerprints by similarity.

use vstd::prelude::*;

verus! {

/// Scoring two buffers of differing byte length is invalid: the scorer
/// rejects such a pair instead of truncating, padding, or comparing a
/// prefix.
#[derive(Clone, Copy, PartialEq, Eq, Structural, Debug)]
pub struct LengthMismatchError;

/// Number of set bits in one byte.
pub open spec fn byte_weight(x: u8) -> int {
    ((x >> 0) & 1) + ((x >> 1) & 1) + ((x >> 2) & 1) + ((x >> 3) & 1) + ((x >> 4) & 1) + ((x >> 5)
        & 1) + ((x >> 6) & 1) + ((x >> 7) & 1)
}

/// Hamming distance between two equal-length byte sequences: the number
/// of bit positions at which they differ.
pub open spec fn hamming(a: Seq<u8>, b: Seq<u8>) -> int
    recommends
        a.len() == b.len(),
    decreases a.len(),
{
    if a.len() == 0 {
        0
    } else {
        hamming(a.drop_last(), b.drop_last()) + byte_weight(a.last() ^ b.last())
    }
}

pub proof fn lemma_byte_weight_bounds(x: u8)
    ensures
        0 <= byte_weight(x) <= 8,
{
    assert(0 <= byte_weight(x) <= 8) by (bit_vector);
}

/// The distance is bounded by the number of bits compared: for buffers
/// of byte length `L`, it lies in `[0, 8 * L]`.
pub proof fn lemma_hamming_bounds(a: Seq<u8>, b: Seq<u8>)
    requires
        a.len() == b.len(),
    ensures
        0 <= hamming(a, b) <= 8 * a.len(),
    decreases a.len(),
{
    if a.len() > 0 {
        lemma_hamming_bounds(a.drop_last(), b.drop_last());
        lemma_byte_weight_bounds(a.last() ^ b.last());
    }
}

/// The distance is symmetric in its two arguments.
pub proof fn lemma_hamming_symmetric(a: Seq<u8>, b: Seq<u8>)
    requires
        a.len() == b.len(),
    ensures
        hamming(a, b) == hamming(b, a),
    decreases a.len(),
{
    if a.len() > 0 {
        lemma_hamming_symmetric(a.drop_last(), b.drop_last());
        let x = a.last();
        let y = b.last();
        assert(x ^ y == y ^ x) by (bit_vector);
    }
}

/// A buffer is at distance zero from itself.
pub proof fn lemma_hamming_identity(a: Seq<u8>)
    ensures
        hamming(a, a) == 0,
    decreases a.len(),
{
    if a.len() > 0 {
        lemma_hamming_identity(a.drop_last());
        let x = a.last();
        assert(byte_weight(x ^ x) == 0) by (bit_vector);
    }
}

/// The distance is zero exactly when the two buffers are byte-identical.
pub proof fn lemma_hamming_zero_iff_equal(a: Seq<u8>, b: Seq<u8>)
    requires
        a.len() == b.len(),
    ensures
        hamming(a, b) == 0 <==> a == b,
    decreases a.len(),
{
    if a == b {
        lemma_hamming_identity(a);
    }
    if a.len() == 0 {
        assert(a =~= b);
    } else if hamming(a, b) == 0 {
        lemma_hamming_bounds(a.drop_last(), b.drop_last());
        let x = a.last();
        let y = b.last();
        lemma_byte_weight_bounds(x ^ y);
        lemma_hamming_zero_iff_equal(a.drop_last(), b.drop_last());
        assert(byte_weight(x ^ y) == 0 ==> x == y) by (bit_vector);
        assert(a.drop_last() == b.drop_last());
        assert forall|i: int| 0 <= i < a.len() implies a[i] == b[i] by {
            if i < a.len() - 1 {
                assert(a[i] == a.drop_last()[i]);
                assert(b[i] == b.drop_last()[i]);
            } else {
                assert(a[i] == a.last());
                assert(b[i] == b.last());
            }
        }
        assert(a =~= b);
    }
}

/// The distance satisfies the triangle inequality, so it is a metric
/// over fingerprints of one length.
pub proof fn lemma_hamming_triangle(a: Seq<u8>, b: Seq<u8>, c: Seq<u8>)
    requires
        a.len() == b.len(),
        b.len() == c.len(),
    ensures
        hamming(a, c) <= hamming(a, b) + hamming(b, c),
    decreases a.len(),
{
    if a.len() > 0 {
        lemma_hamming_triangle(a.drop_last(), b.drop_last(), c.drop_last());
        let x = a.last();
        let y = b.last();
        let z = c.last();
        assert(byte_weight(x ^ z) <= byte_weight(x ^ y) + byte_weight(y ^ z)) by (bit_vector);
    }
}

/// Buffers that agree everywhere except in byte `j` are at the distance
/// contributed by that byte alone.
pub proof fn lemma_hamming_eq_except(a: Seq<u8>, b: Seq<u8>, j: int)
    requires
        a.len() == b.len(),
        0 <= j < a.len(),
        forall|i: int| 0 <= i < a.len() && i != j ==> a[i] == b[i],
    ensures
        hamming(a, b) == byte_weight(a[j] ^ b[j]),
    decreases a.len(),
{
    if j == a.len() - 1 {
        assert(a.drop_last() =~= b.drop_last());
        lemma_hamming_identity(a.drop_last());
    } else {
        lemma_hamming_eq_except(a.drop_last(), b.drop_last(), j);
        let x = a.last();
        assert(byte_weight(x ^ x) == 0) by (bit_vector);
    }
}

/// Buffers that differ in exactly one bit position are at distance one:
/// `b` equals `a` except that bit `k` of byte `j` is flipped.
pub proof fn lemma_hamming_single_bit(a: Seq<u8>, b: Seq<u8>, j: int, k: u8)
    requires
        a.len() == b.len(),
        0 <= j < a.len(),
        k < 8,
        b[j] == a[j] ^ (1u8 << k),
        forall|i: int| 0 <= i < a.len() && i != j ==> a[i] == b[i],
    ensures
        hamming(a, b) == 1,
{
    lemma_hamming_eq_except(a, b, j);
    let x = a[j];
    assert(byte_weight(x ^ (x ^ (1u8 << k))) == 1) by (bit_vector)
        requires
            k < 8,
    ;
}

/// Number of set bits in one byte, computed bit by bit.
pub fn count_bits(x: u8) -> (r: u32)
    ensures
        r == byte_weight(x),
        r <= 8,
{
    proof {
        lemma_byte_weight_bounds(x);
    }
    ((x >> 0u8) & 1) as u32 + ((x >> 1u8) & 1) as u32 + ((x >> 2u8) & 1) as u32 + ((x >> 3u8)
        & 1) as u32 + ((x >> 4u8) & 1) as u32 + ((x >> 5u8) & 1) as u32 + ((x >> 6u8) & 1) as u32
        + ((x >> 7u8) & 1) as u32
}

proof fn lemma_hamming_take_step(a: Seq<u8>, b: Seq<u8>, i: int)
    requires
        a.len() == b.len(),
        0 <= i < a.len(),
    ensures
        hamming(a.take(i + 1), b.take(i + 1)) == hamming(a.take(i), b.take(i)) + byte_weight(
            a[i] ^ b[i],
        ),
{
    assert(a.take(i + 1).drop_last() =~= a.take(i));
    assert(b.take(i + 1).drop_last() =~= b.take(i));
    assert(a.take(i + 1).last() == a[i]);
    assert(b.take(i + 1).last() == b[i]);
}

/// Hamming distance between two fingerprints, given as raw byte buffers.
///
/// Succeeds exactly when the two buffers have equal byte length, and then
/// returns the number of differing bit positions; buffers of differing
/// length are rejected, never truncated or padded.
pub fn distance(a: &[u8], b: &[u8]) -> (r: Result<u32, LengthMismatchError>)
    requires
        8 * a@.len() <= u32::MAX,
    ensures
        r is Ok <==> a@.len() == b@.len(),
        a@.len() == b@.len() ==> r is Ok && r.unwrap() == hamming(a@, b@),
        r is Ok ==> r.unwrap() <= 8 * a@.len(),
        a@.len() != b@.len() ==> r == Err::<u32, LengthMismatchError>(LengthMismatchError),
{
    if a.len() != b.len() {
        return Err(LengthMismatchError);
    }
    let n = a.len();
    let mut i: usize = 0;
    let mut acc: u32 = 0;
    while i < n
        invariant
            a@.len() == b@.len(),
            n == a@.len(),
            i <= n,
            8 * a@.len() <= u32::MAX,
            acc == hamming(a@.take(i as int), b@.take(i as int)),
            acc <= 8 * i,
        decreases n - i,
    {
        let w = count_bits(a[i] ^ b[i]);
        proof {
            lemma_hamming_take_step(a@, b@, i as int);
        }
        acc = acc + w;
        i = i + 1;
    }
    proof {
        assert(a@.take(n as int) =~= a@);
        assert(b@.take(n as int) =~= b@);
    }
    Ok(acc)
}

} // verus!
