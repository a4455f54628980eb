//! Hashing a run of bytes of a known length, block by block.

use crate::digest::{absorbed, blake3_digest, finish_hasher, new_hasher, update_hasher};
use crate::hashing::TRANSFER_BUFFER_SIZE;
use crate::model::ContentHash;
use vstd::prelude::*;

verus! {

/// A region of which some bytes have been read.
pub struct RegionHash {
    remaining: u64,
    hasher: blake3::Hasher,
}

impl RegionHash {
    /// The bytes read so far.
    pub closed spec fn content(&self) -> Seq<u8> {
        absorbed(self.hasher)
    }

    /// How many bytes are still to come.
    pub closed spec fn spec_remaining(&self) -> u64 {
        self.remaining
    }

    /// How many bytes to ask for next.
    pub open spec fn spec_wanted(&self) -> int {
        if self.spec_remaining() < TRANSFER_BUFFER_SIZE {
            self.spec_remaining() as int
        } else {
            TRANSFER_BUFFER_SIZE as int
        }
    }

    /// A region of `size` bytes, none of them read.
    pub fn new(size: u64) -> (region: Self)
        ensures
            region.spec_remaining() == size,
            region.content() == Seq::<u8>::empty(),
    {
        RegionHash { remaining: size, hasher: new_hasher() }
    }

    pub fn remaining(&self) -> (bytes: u64)
        ensures
            bytes == self.spec_remaining(),
    {
        self.remaining
    }

    /// How many bytes to ask for next; zero once the region has been read.
    pub fn wanted(&self) -> (bytes: usize)
        ensures
            bytes == self.spec_wanted(),
    {
        if self.remaining < TRANSFER_BUFFER_SIZE as u64 {
            self.remaining as usize
        } else {
            TRANSFER_BUFFER_SIZE
        }
    }

    /// Takes a block that was read, at most as long as what was wanted.
    pub fn absorb(&mut self, block: &[u8])
        requires
            block@.len() <= old(self).spec_wanted(),
        ensures
            final(self).content() == old(self).content() + block@,
            final(self).spec_remaining() == old(self).spec_remaining() - block@.len(),
    {
        update_hasher(&mut self.hasher, block);
        self.remaining = self.remaining - block.len() as u64;
    }

    /// The digest of what was read.
    pub fn finish(self) -> (digest: ContentHash)
        ensures
            digest@ == blake3_digest(self.content()),
    {
        finish_hasher(&self.hasher)
    }
}

} // verus!
