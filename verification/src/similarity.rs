//! Fingerprints and the Hamming distance between them.
use vstd::prelude::*;

verus! {

/// Number of bytes in a fingerprint.
pub const FINGERPRINT_BYTES: usize = 8;

/// Number of bits in a fingerprint, the largest distance two fingerprints can have.
pub const FINGERPRINT_BITS: u32 = 64;

/// A 64-bit perceptual fingerprint of one image.
#[derive(Clone, Copy, Debug, PartialEq, Eq)]
pub struct Fingerprint {
    bytes: [u8; 8],
}

impl View for Fingerprint {
    type V = Seq<u8>;

    /// The eight bytes of the fingerprint.
    closed spec fn view(&self) -> Seq<u8> {
        self.bytes@
    }
}

impl Fingerprint {
    /// The fingerprint made of the given bytes.
    pub fn from_bytes(bytes: [u8; 8]) -> (fingerprint: Fingerprint)
        ensures
            fingerprint@ == bytes@,
    {
        Fingerprint { bytes }
    }

    /// The bytes of the fingerprint.
    pub fn to_bytes(&self) -> (bytes: [u8; 8])
        ensures
            bytes@ == self@,
    {
        self.bytes
    }

    /// Every fingerprint has exactly eight bytes.
    pub proof fn lemma_len(self)
        ensures
            self@.len() == FINGERPRINT_BYTES,
    {
    }
}

/// Number of one bits in the binary representation of a byte.
pub open spec fn ones(x: u8) -> nat {
    ((x & 1) + ((x >> 1) & 1) + ((x >> 2) & 1) + ((x >> 3) & 1) + ((x >> 4) & 1) + ((x >> 5) & 1)
        + ((x >> 6) & 1) + ((x >> 7) & 1)) as nat
}

/// Hamming distance of two byte strings: the number of bit positions in which
/// they differ, counted over the bytes that both have.
pub open spec fn hamming_distance(a: Seq<u8>, b: Seq<u8>) -> nat
    decreases a.len(),
{
    if a.len() == 0 || b.len() == 0 {
        0
    } else {
        ones(a.first() ^ b.first()) + hamming_distance(a.drop_first(), b.drop_first())
    }
}

/// A byte has at most eight one bits, and none exactly when it is zero.
pub proof fn lemma_ones_range(x: u8)
    ensures
        ones(x) <= 8,
        ones(x) == 0 <==> x == 0,
{
    assert((x & 1) + ((x >> 1) & 1) + ((x >> 2) & 1) + ((x >> 3) & 1) + ((x >> 4) & 1) + ((x >> 5)
        & 1) + ((x >> 6) & 1) + ((x >> 7) & 1) <= 8) by (bit_vector);
    assert((x & 1) + ((x >> 1) & 1) + ((x >> 2) & 1) + ((x >> 3) & 1) + ((x >> 4) & 1) + ((x >> 5)
        & 1) + ((x >> 6) & 1) + ((x >> 7) & 1) == 0 <==> x == 0) by (bit_vector);
}

/// Two byte strings differ in at most eight bits per byte.
pub proof fn lemma_distance_is_bounded(a: Seq<u8>, b: Seq<u8>)
    ensures
        hamming_distance(a, b) <= 8 * a.len(),
    decreases a.len(),
{
    if a.len() > 0 && b.len() > 0 {
        lemma_ones_range(a.first() ^ b.first());
        lemma_distance_is_bounded(a.drop_first(), b.drop_first());
    }
}

/// Two byte strings of one length have distance zero exactly when they are
/// equal.
pub proof fn lemma_distance_zero_is_equality(a: Seq<u8>, b: Seq<u8>)
    requires
        a.len() == b.len(),
    ensures
        hamming_distance(a, b) == 0 <==> a == b,
    decreases a.len(),
{
    if a.len() > 0 {
        let x = a.first();
        let y = b.first();
        lemma_ones_range(x ^ y);
        assert(x ^ y == 0 <==> x == y) by (bit_vector);
        lemma_distance_zero_is_equality(a.drop_first(), b.drop_first());
        if x == y && a.drop_first() == b.drop_first() {
            assert(a =~= seq![x] + a.drop_first());
            assert(b =~= seq![y] + b.drop_first());
        }
    } else {
        assert(a =~= b);
    }
}

/// The distance does not depend on the order of its arguments.
pub proof fn lemma_distance_is_symmetric(a: Seq<u8>, b: Seq<u8>)
    requires
        a.len() == b.len(),
    ensures
        hamming_distance(a, b) == hamming_distance(b, a),
    decreases a.len(),
{
    if a.len() > 0 {
        let x = a.first();
        let y = b.first();
        assert(x ^ y == y ^ x) by (bit_vector);
        lemma_distance_is_symmetric(a.drop_first(), b.drop_first());
    }
}

/// Whether two fingerprints count as the same picture: their Hamming distance is
/// at most `threshold`.
pub open spec fn similar(a: Fingerprint, b: Fingerprint, threshold: u32) -> bool {
    hamming_distance(a@, b@) <= threshold
}

/// Calls `img_hash::ImageHash::dist` on the two hashes rebuilt from their
/// bytes with `ImageHash::from_bytes`. `dist` is documented as the number of one
/// bits in the exclusive-or of the two hashes, which is what the contract
/// states; for a boxed slice of eight bytes `from_bytes` does not fail.
#[verifier::external_body]
fn hash_distance(a: &[u8; 8], b: &[u8; 8]) -> (distance: u32)
    ensures
        distance == hamming_distance(a@, b@),
{
    let left = img_hash::ImageHash::<Box<[u8]>>::from_bytes(a).unwrap();
    let right = img_hash::ImageHash::<Box<[u8]>>::from_bytes(b).unwrap();
    left.dist(&right)
}

/// Compares two fingerprints by Hamming distance: true exactly when they differ
/// in at most `threshold` bits. A threshold of 0 accepts only equal fingerprints.
///
/// A threshold of 64 or more accepts every pair.
pub fn is_similar(hash1: &Fingerprint, hash2: &Fingerprint, threshold: u32) -> (result: bool)
    ensures
        result == similar(*hash1, *hash2, threshold),
        threshold == 0 ==> result == (hash1@ == hash2@),
        threshold >= FINGERPRINT_BITS ==> result,
{
    let distance = hash_distance(&hash1.bytes, &hash2.bytes);
    proof {
        lemma_distance_is_bounded(hash1@, hash2@);
        lemma_distance_zero_is_equality(hash1@, hash2@);
    }
    distance <= threshold
}

/// Similarity does not depend on the order of the two fingerprints, holds of
/// a fingerprint and itself at every threshold, and is kept when the threshold
/// is raised.
pub proof fn lemma_similar_is_tolerant(a: Fingerprint, b: Fingerprint, low: u32, high: u32)
    requires
        low <= high,
    ensures
        similar(a, b, low) == similar(b, a, low),
        similar(a, a, low),
        similar(a, b, low) ==> similar(a, b, high),
        similar(a, b, FINGERPRINT_BITS),
{
    lemma_distance_is_symmetric(a@, b@);
    lemma_distance_zero_is_equality(a@, a@);
    lemma_distance_is_bounded(a@, b@);
}

} // verus!
