//! Files that are being received, and the chunks that arrive for them.

use crate::digest::{blake3_digest, same_digest};
use crate::error::{DataFault, NetworkFault, TransferError};
use crate::hashing::{chunk_bytes, describes, is_chunk_of};
use crate::ids::Uuid;
use crate::metadata::{NodeKind, NodeStatus};
use crate::model::{ChunkDescriptor, HashedFile, HashedFileView};
use crate::records::CompletedChunk;
use crate::region::RegionHash;
use crate::stream::ChunkHeader;
use vstd::prelude::*;

verus! {

/// The numbers that a map holds.
pub uninterp spec fn chunk_set(map: dashmap::DashMap<u64, ()>) -> Set<u64>;

/// A set without chunks.
pub open spec fn no_chunks() -> Set<u64> {
    Set::empty()
}

/// `dashmap::DashMap::new`: an empty map.
#[verifier::external_body]
fn new_chunk_map() -> (map: dashmap::DashMap<u64, ()>)
    ensures
        chunk_set(map) == no_chunks(),
{
    dashmap::DashMap::new()
}

/// `dashmap::DashMap::insert`: the key is held afterwards; says whether it was
/// held before.
#[verifier::external_body]
fn insert_chunk(map: &mut dashmap::DashMap<u64, ()>, index: u64) -> (held: bool)
    ensures
        chunk_set(*final(map)) == chunk_set(*old(map)).insert(index),
        held == chunk_set(*old(map)).contains(index),
{
    map.insert(index, ()).is_some()
}

/// `dashmap::DashMap::remove`: the key is not held afterwards.
#[verifier::external_body]
fn remove_chunk(map: &mut dashmap::DashMap<u64, ()>, index: u64)
    ensures
        chunk_set(*final(map)) == chunk_set(*old(map)).remove(index),
{
    map.remove(&index);
}

/// `dashmap::DashMap::is_empty`: whether no key is held.
#[verifier::external_body]
fn is_empty_map(map: &dashmap::DashMap<u64, ()>) -> (empty: bool)
    ensures
        empty == (chunk_set(*map) == no_chunks()),
{
    map.is_empty()
}

/// A file that a peer has negotiated.
pub struct IncomingFile {
    file: HashedFile,
    destination: String,
    staging: String,
    inflight: dashmap::DashMap<u64, ()>,
    finalized: bool,
}

/// What is known of an incoming file.
#[verifier::ext_equal]
pub struct IncomingFileView {
    pub file: HashedFileView,
    pub destination: Seq<char>,
    pub staging: Seq<char>,
    pub inflight: Set<u64>,
    pub finalized: bool,
}

impl View for IncomingFile {
    type V = IncomingFileView;

    closed spec fn view(&self) -> IncomingFileView {
        IncomingFileView {
            file: self.file@,
            destination: self.destination@,
            staging: self.staging@,
            inflight: chunk_set(self.inflight),
            finalized: self.finalized,
        }
    }
}

/// A file just negotiated: nothing of it is arriving.
pub open spec fn negotiated(
    file: HashedFileView,
    destination: Seq<char>,
    staging: Seq<char>,
    finalized: bool,
) -> IncomingFileView {
    IncomingFileView { file, destination, staging, inflight: no_chunks(), finalized }
}

/// The header describes the chunk that the file has under its number.
pub open spec fn is_described(chunks: Seq<ChunkDescriptor>, header: ChunkHeader) -> bool {
    header.index < chunks.len() && chunks[header.index as int] == (ChunkDescriptor {
        index: header.index,
        offset: header.offset,
        size: header.size,
        hash: header.hash,
    })
}

impl IncomingFile {
    /// A file of which nothing has arrived.
    pub fn new(file: HashedFile, destination: &str, staging: &str) -> (incoming: Self)
        ensures
            incoming@ == negotiated(file@, destination@, staging@, false),
    {
        IncomingFile {
            file,
            destination: destination.to_owned(),
            staging: staging.to_owned(),
            inflight: new_chunk_map(),
            finalized: false,
        }
    }

    pub fn is_finalized(&self) -> (yes: bool)
        ensures
            yes == self@.finalized,
    {
        self.finalized
    }

    pub fn mark_finalized(&mut self)
        ensures
            final(self)@ == (IncomingFileView { finalized: true, ..old(self)@ }),
    {
        self.finalized = true;
    }

    pub fn file(&self) -> (file: &HashedFile)
        ensures
            file@ == self@.file,
    {
        &self.file
    }

    pub fn destination(&self) -> (path: &str)
        ensures
            path@ == self@.destination,
    {
        self.destination.as_str()
    }

    pub fn staging(&self) -> (path: &str)
        ensures
            path@ == self@.staging,
    {
        self.staging.as_str()
    }

    /// Whether no chunk of the file is arriving.
    pub fn is_quiet(&self) -> (quiet: bool)
        ensures
            quiet == (self@.inflight == no_chunks()),
    {
        is_empty_map(&self.inflight)
    }

    /// Lets a chunk arrive: the file must not be final, the header must
    /// describe one of its chunks, and the chunk must not be arriving already.
    pub fn begin_upload(&mut self, header: &ChunkHeader) -> (result: Result<
        ChunkDescriptor,
        TransferError,
    >)
        ensures
            ({
                let before = old(self)@;
                let described = is_described(before.file.chunks, *header);
                match result {
                    Ok(chunk) => {
                        &&& !before.finalized
                        &&& described
                        &&& chunk == before.file.chunks[header.index as int]
                        &&& !before.inflight.contains(header.index)
                        &&& final(self)@ == (IncomingFileView {
                            inflight: before.inflight.insert(header.index),
                            ..before
                        })
                    },
                    Err(TransferError::InvalidData(DataFault::AlreadyFinalized { path })) => {
                        &&& before.finalized
                        &&& path@ == header.path@
                        &&& final(self)@ == before
                    },
                    Err(
                        TransferError::InvalidData(DataFault::UnknownDescriptor { index, path }),
                    ) => {
                        &&& !before.finalized
                        &&& !described
                        &&& index == header.index
                        &&& path@ == header.path@
                        &&& final(self)@ == before
                    },
                    Err(TransferError::InvalidData(DataFault::ChunkBusy { index, path })) => {
                        &&& !before.finalized
                        &&& described
                        &&& before.inflight.contains(header.index)
                        &&& index == header.index
                        &&& path@ == header.path@
                        &&& final(self)@ == before
                    },
                    Err(_) => false,
                }
            }),
    {
        if self.finalized {
            return Err(
                TransferError::InvalidData(
                    DataFault::AlreadyFinalized { path: header.path.clone() },
                ),
            );
        }
        let known = header.index < self.file.chunks.len() as u64;
        let described = known && {
            let chunk = self.file.chunks[header.index as usize];
            chunk.index == header.index && chunk.offset == header.offset && chunk.size
                == header.size && same_digest(&chunk.hash, &header.hash)
        };
        if !described {
            return Err(
                TransferError::InvalidData(
                    DataFault::UnknownDescriptor {
                        index: header.index,
                        path: header.path.clone(),
                    },
                ),
            );
        }
        let chunk = self.file.chunks[header.index as usize];
        if insert_chunk(&mut self.inflight, header.index) {
            assert(chunk_set(self.inflight) =~= old(self)@.inflight);
            return Err(
                TransferError::InvalidData(
                    DataFault::ChunkBusy { index: header.index, path: header.path.clone() },
                ),
            );
        }
        Ok(chunk)
    }

    /// The chunk no longer arrives, whatever became of it.
    pub fn end_upload(&mut self, index: u64)
        ensures
            final(self)@ == (IncomingFileView {
                inflight: old(self)@.inflight.remove(index),
                ..old(self)@
            }),
    {
        remove_chunk(&mut self.inflight, index);
    }
}

/// Ending an upload gives back the state from before it began.
pub proof fn law_upload_leaves_no_trace(before: IncomingFileView, index: u64)
    requires
        !before.inflight.contains(index),
    ensures
        (IncomingFileView {
            inflight: before.inflight.insert(index).remove(index),
            ..before
        }) == before,
{
    assert(before.inflight.insert(index).remove(index) =~= before.inflight);
}

/// The bytes are those of the chunk: as many, and with its hash.
pub open spec fn is_intact(chunk: ChunkDescriptor, content: Seq<u8>) -> bool {
    content.len() == chunk.size && blake3_digest(content) == chunk.hash@
}

/// Each chunk of a hashed file is taken by its receiver, as it was hashed.
pub proof fn law_hashed_chunks_are_received(
    chunks: Seq<ChunkDescriptor>,
    content: Seq<u8>,
    chunk_size: int,
    i: int,
)
    requires
        describes(chunks, content, chunk_size),
        0 <= i < chunks.len(),
    ensures
        is_intact(chunks[i], chunk_bytes(content, chunks[i])),
{
    assert(is_chunk_of(chunks[i], content, chunk_size, i));
    let n = chunks.len() as int;
    assert(i * chunk_size <= (n - 1) * chunk_size) by (nonlinear_arith)
        requires
            0 <= i <= n - 1,
            0 <= chunk_size,
    ;
}

/// A chunk that is arriving.
pub struct ChunkReceipt {
    path: String,
    chunk: ChunkDescriptor,
    region: RegionHash,
}

impl ChunkReceipt {
    pub closed spec fn spec_path(&self) -> Seq<char> {
        self.path@
    }

    pub closed spec fn spec_chunk(&self) -> ChunkDescriptor {
        self.chunk
    }

    /// The bytes that have arrived.
    pub closed spec fn content(&self) -> Seq<u8> {
        self.region.content()
    }

    pub closed spec fn wf(&self) -> bool {
        self.region.content().len() + self.region.spec_remaining() == self.chunk.size
    }

    /// How many bytes to ask for next; zero once the chunk has arrived.
    pub open spec fn spec_wanted(&self) -> int {
        let remaining = self.spec_chunk().size - self.content().len();
        if remaining < crate::hashing::TRANSFER_BUFFER_SIZE {
            remaining
        } else {
            crate::hashing::TRANSFER_BUFFER_SIZE as int
        }
    }

    pub fn wanted(&self) -> (bytes: usize)
        requires
            self.wf(),
        ensures
            bytes == self.spec_wanted(),
    {
        self.region.wanted()
    }

    /// Takes what was read; nothing read means that the stream has ended.
    pub fn absorb(&mut self, block: &[u8]) -> (result: Result<(), TransferError>)
        requires
            old(self).wf(),
            old(self).spec_wanted() > 0,
            block@.len() <= old(self).spec_wanted(),
        ensures
            final(self).wf(),
            final(self).spec_path() == old(self).spec_path(),
            final(self).spec_chunk() == old(self).spec_chunk(),
            final(self).content() == old(self).content() + block@,
            match result {
                Ok(_) => block@.len() > 0,
                Err(
                    TransferError::Network(
                        NetworkFault::ChunkTruncated { index, path, missing },
                    ),
                ) => {
                    &&& block@.len() == 0
                    &&& index == old(self).spec_chunk().index
                    &&& path@ == old(self).spec_path()
                    &&& missing == old(self).spec_chunk().size - old(self).content().len()
                },
                Err(_) => false,
            },
    {
        self.region.absorb(block);
        if block.len() == 0 {
            Err(
                TransferError::Network(
                    NetworkFault::ChunkTruncated {
                        index: self.chunk.index,
                        path: self.path.clone(),
                        missing: self.region.remaining(),
                    },
                ),
            )
        } else {
            Ok(())
        }
    }

    /// Ends the chunk, given how many bytes follow it on the stream: there must
    /// be none, and the content must have the hash of the chunk.
    pub fn finish(self, trailing: usize) -> (result: Result<ReceivedChunk, TransferError>)
        requires
            self.wf(),
            self.spec_wanted() == 0,
        ensures
            self.content().len() == self.spec_chunk().size,
            ({
                let matching = is_intact(self.spec_chunk(), self.content());
                match result {
                    Ok(received) => {
                        &&& trailing == 0
                        &&& matching
                        &&& received.spec_path() == self.spec_path()
                        &&& received.spec_chunk() == self.spec_chunk()
                        &&& received.content() == self.content()
                    },
                    Err(
                        TransferError::InvalidData(DataFault::TrailingChunkBytes { index, path }),
                    ) => {
                        &&& trailing != 0
                        &&& index == self.spec_chunk().index
                        &&& path@ == self.spec_path()
                    },
                    Err(
                        TransferError::InvalidData(DataFault::ChunkHashMismatch { index, path }),
                    ) => {
                        &&& trailing == 0
                        &&& !matching
                        &&& index == self.spec_chunk().index
                        &&& path@ == self.spec_path()
                    },
                    Err(_) => false,
                }
            }),
    {
        if trailing != 0 {
            return Err(
                TransferError::InvalidData(
                    DataFault::TrailingChunkBytes { index: self.chunk.index, path: self.path },
                ),
            );
        }
        let expected = self.chunk.hash;
        let ghost content = self.content();
        let actual = self.region.finish();
        assert(actual@ == expected@ ==> actual =~= expected);
        if same_digest(&actual, &expected) {
            Ok(ReceivedChunk { path: self.path, chunk: self.chunk, content: Ghost(content) })
        } else {
            Err(
                TransferError::InvalidData(
                    DataFault::ChunkHashMismatch { index: self.chunk.index, path: self.path },
                ),
            )
        }
    }
}

/// A chunk that has arrived whole and with its hash.
pub struct ReceivedChunk {
    path: String,
    chunk: ChunkDescriptor,
    content: Ghost<Seq<u8>>,
}

impl ReceivedChunk {
    pub closed spec fn spec_path(self) -> Seq<char> {
        self.path@
    }

    pub closed spec fn spec_chunk(self) -> ChunkDescriptor {
        self.chunk
    }

    /// The bytes that have arrived.
    pub closed spec fn content(self) -> Seq<u8> {
        self.content@
    }

    #[verifier::type_invariant]
    closed spec fn wf(self) -> bool {
        is_intact(self.chunk, self.content@)
    }

    /// The chunk is the one that a header announces.
    pub open spec fn is_of(self, header: ChunkHeader) -> bool {
        &&& self.spec_path() == header.path@
        &&& self.spec_chunk() == (ChunkDescriptor {
            index: header.index,
            offset: header.offset,
            size: header.size,
            hash: header.hash,
        })
    }

    /// The chunk that has arrived; its bytes have its hash.
    pub fn chunk(&self) -> (chunk: &ChunkDescriptor)
        ensures
            *chunk == self.spec_chunk(),
            is_intact(*chunk, self.content()),
    {
        proof {
            use_type_invariant(self);
        }
        &self.chunk
    }
}

/// Starts to receive a chunk into the staged file, which must be a regular
/// file of the final length.
pub fn receive_chunk(file: &IncomingFile, chunk: ChunkDescriptor, partial: &NodeStatus) -> (result:
    Result<ChunkReceipt, TransferError>)
    ensures
        ({
            let usable = partial.kind == NodeKind::File && partial.length
                == file@.file.entry.metadata.size;
            match result {
                Ok(receipt) => {
                    &&& usable
                    &&& receipt.wf()
                    &&& receipt.spec_path() == file@.file.entry.path
                    &&& receipt.spec_chunk() == chunk
                    &&& receipt.content() == Seq::<u8>::empty()
                },
                Err(TransferError::InvalidData(DataFault::PartialUnusable { path })) => !usable
                    && path@ == file@.staging,
                Err(_) => false,
            }
        }),
{
    if partial.kind != NodeKind::File || partial.length != file.file.entry.size {
        return Err(
            TransferError::InvalidData(DataFault::PartialUnusable { path: file.staging.clone() }),
        );
    }
    Ok(
        ChunkReceipt {
            path: file.file.entry.relative_path.clone(),
            chunk,
            region: RegionHash::new(chunk.size),
        },
    )
}

/// The record that a chunk which has arrived for a file is in place.
pub fn completed_chunk(
    job_id: Uuid,
    file: &HashedFile,
    received: &ReceivedChunk,
    completed_at: i64,
) -> (record: CompletedChunk)
    requires
        received.spec_path() == file.entry.relative_path@,
        file.chunks@.contains(received.spec_chunk()),
    ensures
        record.job_id == job_id,
        record.path@ == file.entry.relative_path@,
        record.index == received.spec_chunk().index,
        record.source_hash == file.hash,
        record.completed_at == completed_at,
        is_intact(received.spec_chunk(), received.content()),
{
    chunk_record(job_id, file, received.chunk().index, completed_at)
}

/// The record of a chunk of a file.
pub(crate) fn chunk_record(job_id: Uuid, file: &HashedFile, index: u64, completed_at: i64) -> (record:
    CompletedChunk)
    ensures
        record.job_id == job_id,
        record.path@ == file.entry.relative_path@,
        record.index == index,
        record.source_hash == file.hash,
        record.completed_at == completed_at,
{
    CompletedChunk {
        job_id,
        path: file.entry.relative_path.clone(),
        index,
        source_hash: file.hash,
        completed_at,
    }
}

/// A chunk may arrive exactly if its header names a chunk of the file, with the offset,
/// the size and the hash that were negotiated.
pub proof fn law_what_chunks_may_arrive(chunks: Seq<ChunkDescriptor>, header: ChunkHeader)
    requires
        forall|i: int| 0 <= i < chunks.len() ==> (#[trigger] chunks[i]).index == i,
    ensures
        is_described(chunks, header) <==> exists|i: int|
            0 <= i < chunks.len() && (#[trigger] chunks[i]).index == header.index
                && chunks[i].offset == header.offset && chunks[i].size == header.size
                && chunks[i].hash == header.hash,
{
    if is_described(chunks, header) {
        let i = header.index as int;
        assert(chunks[i].index == header.index);
    }
}

/// Content that is too short, too long or has another digest is not that of a chunk.
pub proof fn law_damaged_chunks_are_not_intact(chunk: ChunkDescriptor, content: Seq<u8>)
    ensures
        is_intact(chunk, content) ==> content.len() == chunk.size,
        is_intact(chunk, content) ==> blake3_digest(content) == chunk.hash@,
        content.len() == chunk.size && blake3_digest(content) == chunk.hash@ ==> is_intact(
            chunk,
            content,
        ),
{
}

} // verus!
