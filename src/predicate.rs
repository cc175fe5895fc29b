use vstd::prelude::*;

use crate::bytes::{be_u32, le_bytes, leading_u32_be, nonce_le_bytes};

verus! {

/// The BLAKE2b-512 digest of a message.
pub uninterp spec fn blake2b512_of(message: Seq<u8>) -> Seq<u8>;

/// Relies on `Blake2b512::digest` of the blake2 crate (through crypto-hashes):
/// the digest depends on the message alone and is 64 bytes long.
#[verifier::external_body]
fn blake2b512(message: &[u8]) -> (digest: Vec<u8>)
    ensures
        digest@ == blake2b512_of(message@),
        digest@.len() == 64,
{
    <crypto_hashes::blake2::Blake2b512 as crypto_hashes::blake2::Digest>::digest(message).to_vec()
}

/// The value that the leading four digest bytes must stay strictly below.
pub open spec fn threshold(difficulty: u32) -> nat {
    (u32::MAX - difficulty) as nat
}

/// Whether a digest meets `difficulty`.
pub open spec fn digest_meets(digest: Seq<u8>, difficulty: u32) -> bool {
    be_u32(digest) < threshold(difficulty)
}

/// What is hashed for a fragment and a nonce: the fragment, then the nonce's
/// sixteen bytes, least significant first.
pub open spec fn preimage(fragment: Seq<u8>, nonce: u128) -> Seq<u8> {
    fragment + le_bytes(nonce as nat, 16)
}

/// Whether `nonce` is a proof of work for `fragment` at `difficulty`.
pub open spec fn proof_valid(fragment: Seq<u8>, difficulty: u32, nonce: u128) -> bool {
    digest_meets(blake2b512_of(preimage(fragment, nonce)), difficulty)
}

/// Whether `digest` meets `difficulty`: its first four bytes, read big-endian,
/// fall strictly below `u32::MAX - difficulty`.
pub fn digest_meets_difficulty(digest: &[u8], difficulty: u32) -> (r: bool)
    requires
        digest@.len() >= 4,
    ensures
        r == digest_meets(digest@, difficulty),
{
    leading_u32_be(digest) < u32::MAX - difficulty
}

/// The bytes hashed for `fragment` and `nonce`.
pub fn proof_preimage(fragment: &[u8; 16], nonce: u128) -> (r: Vec<u8>)
    ensures
        r@ == preimage(fragment@, nonce),
{
    let tail = nonce_le_bytes(nonce);
    let mut r: Vec<u8> = Vec::with_capacity(32);
    let mut i: usize = 0;
    while i < 16
        invariant
            0 <= i <= 16,
            r@ == fragment@.subrange(0, i as int),
        decreases 16 - i,
    {
        r.push(fragment[i]);
        assert(r@ =~= fragment@.subrange(0, i + 1));
        i = i + 1;
    }
    let mut j: usize = 0;
    while j < 16
        invariant
            0 <= j <= 16,
            tail@.len() == 16,
            r@ == fragment@ + tail@.subrange(0, j as int),
        decreases 16 - j,
    {
        r.push(tail[j]);
        assert(r@ =~= fragment@ + tail@.subrange(0, j + 1));
        j = j + 1;
    }
    assert(tail@.subrange(0, 16) =~= tail@);
    r
}

/// Whether `nonce` is a proof of work for `fragment` at `difficulty`.
pub fn hash_found(fragment: &[u8; 16], difficulty: u32, nonce: u128) -> (r: bool)
    ensures
        r == proof_valid(fragment@, difficulty, nonce),
{
    let message = proof_preimage(fragment, nonce);
    let digest = blake2b512(message.as_slice());
    digest_meets_difficulty(digest.as_slice(), difficulty)
}

} // verus!
