//! Content digests.

use crate::text::same_bytes;
use vstd::prelude::*;

verus! {

/// The BLAKE3 digest of some bytes.
pub uninterp spec fn blake3_digest(bytes: Seq<u8>) -> Seq<u8>;

/// The incremental hasher of the `blake3` crate.
#[verifier::external_type_specification]
#[verifier::external_body]
pub struct ExHasher(blake3::Hasher);

/// The bytes that a hasher holds: those given to it so far, in order.
pub uninterp spec fn absorbed(hasher: blake3::Hasher) -> Seq<u8>;

/// `blake3::hash`: the digest of `bytes`, 32 bytes long.
#[verifier::external_body]
pub(crate) fn blake3_hash(bytes: &[u8]) -> (digest: [u8; 32])
    ensures
        digest@ == blake3_digest(bytes@),
{
    *blake3::hash(bytes).as_bytes()
}

/// `blake3::Hasher::new`: a hasher that holds nothing yet.
#[verifier::external_body]
pub(crate) fn new_hasher() -> (hasher: blake3::Hasher)
    ensures
        absorbed(hasher) == Seq::<u8>::empty(),
{
    blake3::Hasher::new()
}

/// `blake3::Hasher::update`: appends `bytes` to what the hasher holds.
#[verifier::external_body]
pub(crate) fn update_hasher(hasher: &mut blake3::Hasher, bytes: &[u8])
    ensures
        absorbed(*final(hasher)) == absorbed(*old(hasher)) + bytes@,
{
    hasher.update(bytes);
}

/// `blake3::Hasher::finalize`: the digest of all that the hasher holds.
#[verifier::external_body]
pub(crate) fn finish_hasher(hasher: &blake3::Hasher) -> (digest: [u8; 32])
    ensures
        digest@ == blake3_digest(absorbed(*hasher)),
{
    *hasher.finalize().as_bytes()
}

/// Whether two digests are the same.
pub fn same_digest(a: &[u8; 32], b: &[u8; 32]) -> (same: bool)
    ensures
        same == (*a == *b),
{
    let same = same_bytes(a, b);
    assert(a@ == b@ ==> *a =~= *b);
    same
}

} // verus!
