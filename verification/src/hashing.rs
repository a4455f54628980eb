//! Content hashes of files: the whole and fixed-size chunks in one pass.

use crate::digest::{blake3_hash, finish_hasher, new_hasher, update_hasher};
use crate::error::{CoreError, DataFault, TransferError};
use crate::ids::hex;
use crate::metadata::{
    ensure_snapshot_matches, snapshot_of, source_metadata_from_metadata, NodeStatus,
};
use crate::model::{
    copy_chunks, ChunkDescriptor, ContentHash, FileType, HashedFile, HashedFileView, ManifestEntry,
    SourceMetadata,
};
use vstd::arithmetic::div_mod::lemma_fundamental_div_mod_converse;
use vstd::prelude::*;

verus! {

pub const MAX_CHUNKS_PER_FILE: u64 = 131_072;

/// Largest buffer used while streaming file contents.
pub const TRANSFER_BUFFER_SIZE: usize = 256 * 1024;

pub const CACHE_PATH_PREFIX: &'static str = "path-blake3:";

/// How many pieces of at most `size` bytes hold `length` bytes.
pub open spec fn pieces(length: int, size: int) -> int {
    if length == 0 {
        0
    } else {
        (length - 1) / size + 1
    }
}

/// The number of pieces of a size that cover a length.
pub fn div_ceil(length: u64, size: u64) -> (count: u64)
    requires
        size > 0,
    ensures
        count == pieces(length as int, size as int),
{
    if length == 0 {
        0
    } else {
        assert((length - 1) as int / size as int <= length - 1) by (nonlinear_arith)
            requires
                length >= 1,
                size >= 1,
        ;
        (length - 1) / size + 1
    }
}

/// `chunk` is number `i` of the chunks of `content`.
pub open spec fn is_chunk_of(
    chunk: ChunkDescriptor,
    content: Seq<u8>,
    chunk_size: int,
    i: int,
) -> bool {
    &&& chunk.index == i
    &&& chunk.offset == i * chunk_size
    &&& chunk.size == (if content.len() - chunk.offset < chunk_size {
        content.len() - chunk.offset
    } else {
        chunk_size
    })
    &&& chunk.hash@ == crate::digest::blake3_digest(
        content.subrange(chunk.offset as int, chunk.offset + chunk.size),
    )
}

/// The chunks cover `content` from its start to its end, in pieces of
/// `chunk_size` bytes of which only the last may be shorter, none empty.
pub open spec fn describes(
    chunks: Seq<ChunkDescriptor>,
    content: Seq<u8>,
    chunk_size: int,
) -> bool {
    &&& (chunks.len() - 1) * chunk_size < content.len() <= chunks.len() * chunk_size
    &&& forall|i: int|
        0 <= i < chunks.len() ==> is_chunk_of(#[trigger] chunks[i], content, chunk_size, i)
}

/// The hashes of a byte stream, as far as it has been read.
pub struct ChunkHasher {
    chunk_size: u64,
    full: blake3::Hasher,
    chunk: blake3::Hasher,
    chunk_bytes: u64,
    total_bytes: u64,
    chunks: Vec<ChunkDescriptor>,
}

/// How much to read after `length` bytes: up to the end of the chunk, at most one
/// buffer.
pub open spec fn next_read(length: int, chunk_size: int) -> int {
    let left = chunk_size - length % chunk_size;
    if left < TRANSFER_BUFFER_SIZE {
        left
    } else {
        TRANSFER_BUFFER_SIZE as int
    }
}

impl ChunkHasher {
    /// The bytes read so far.
    pub closed spec fn content(&self) -> Seq<u8> {
        crate::digest::absorbed(self.full)
    }

    pub closed spec fn spec_chunk_size(&self) -> int {
        self.chunk_size as int
    }

    pub closed spec fn wf(&self) -> bool {
        let content = crate::digest::absorbed(self.full);
        let done = self.chunks@.len() * self.chunk_size;
        &&& self.chunk_size > 0
        &&& self.total_bytes == content.len()
        &&& self.chunk_bytes < self.chunk_size
        &&& done + self.chunk_bytes == content.len()
        &&& crate::digest::absorbed(self.chunk) == content.skip(done)
        &&& forall|i: int|
            0 <= i < self.chunks@.len() ==> {
                &&& is_chunk_of(#[trigger] self.chunks@[i], content, self.chunk_size as int, i)
                &&& self.chunks@[i].size == self.chunk_size
                &&& self.chunks@[i].offset + self.chunk_size <= done
            }
    }

    /// Nothing read yet.
    pub fn new(chunk_size: u64) -> (hasher: Self)
        requires
            chunk_size > 0,
        ensures
            hasher.wf(),
            hasher.spec_chunk_size() == chunk_size,
            hasher.content() == Seq::<u8>::empty(),
    {
        let hasher = ChunkHasher {
            chunk_size,
            full: new_hasher(),
            chunk: new_hasher(),
            chunk_bytes: 0,
            total_bytes: 0,
            chunks: Vec::new(),
        };
        assert(crate::digest::absorbed(hasher.chunk) =~= hasher.content().skip(0));
        hasher
    }

    /// How much to read next: up to the end of the chunk, at most one buffer.
    pub fn wanted(&self) -> (bytes: usize)
        requires
            self.wf(),
        ensures
            bytes == next_read(self.content().len() as int, self.spec_chunk_size()),
    {
        proof {
            lemma_fundamental_div_mod_converse(
                self.content().len() as int,
                self.chunk_size as int,
                self.chunks@.len() as int,
                self.chunk_bytes as int,
            );
        }
        let remaining: u64 = self.chunk_size - self.chunk_bytes;
        if remaining < TRANSFER_BUFFER_SIZE as u64 {
            remaining as usize
        } else {
            TRANSFER_BUFFER_SIZE
        }
    }

    fn absorb_within_chunk(&mut self, block: &[u8])
        requires
            old(self).wf(),
            block.len() <= old(self).chunk_size - old(self).chunk_bytes,
            old(self).total_bytes + block.len() <= u64::MAX,
        ensures
            final(self).wf(),
            final(self).chunk_size == old(self).chunk_size,
            final(self).content() == old(self).content() + block@,
            final(self).total_bytes == old(self).total_bytes + block.len(),
    {
        let ghost before = self.content();
        let ghost after = before + block@;
        let ghost count = self.chunks@.len() as int;
        let ghost size = self.chunk_size as int;
        update_hasher(&mut self.full, block);
        update_hasher(&mut self.chunk, block);
        self.chunk_bytes = self.chunk_bytes + block.len() as u64;
        self.total_bytes = self.total_bytes + block.len() as u64;
        proof {
            assert(before.skip(count * size) + block@ =~= after.skip(count * size));
            assert forall|i: int| 0 <= i < count implies is_chunk_of(
                #[trigger] self.chunks@[i],
                after,
                size,
                i,
            ) by {
                let chunk = self.chunks@[i];
                assert(after.subrange(chunk.offset as int, chunk.offset + chunk.size)
                    =~= before.subrange(chunk.offset as int, chunk.offset + chunk.size));
            }
        }
        if self.chunk_bytes == self.chunk_size {
            assert((count + 1) * size == count * size + size) by (nonlinear_arith);
            let offset: u64 = self.total_bytes - self.chunk_bytes;
            let ghost earlier = self.chunks@;
            self.push_chunk(offset);
            self.chunk = new_hasher();
            self.chunk_bytes = 0;
            proof {
                assert(after.skip(count * size) =~= after.subrange(count * size, after.len() as int));
                assert(crate::digest::absorbed(self.chunk) =~= after.skip((count + 1) * size));
                assert forall|i: int| 0 <= i < count + 1 implies {
                    &&& is_chunk_of(#[trigger] self.chunks@[i], after, size, i)
                    &&& self.chunks@[i].size == size
                    &&& self.chunks@[i].offset + size <= (count + 1) * size
                } by {
                    if i < count {
                        assert(self.chunks@[i] == earlier[i]);
                    }
                }
            }
        }
    }

    /// Records the chunk that has just been read to its end, or the last one.
    fn push_chunk(&mut self, offset: u64)
        ensures
            final(self).chunks@.len() == old(self).chunks@.len() + 1,
            final(self).chunks@.drop_last() == old(self).chunks@,
            final(self).chunks@.last().index == old(self).chunks@.len(),
            final(self).chunks@.last().offset == offset,
            final(self).chunks@.last().size == old(self).chunk_bytes,
            final(self).chunks@.last().hash@ == crate::digest::blake3_digest(
                crate::digest::absorbed(old(self).chunk),
            ),
            final(self).chunk_size == old(self).chunk_size,
            final(self).full == old(self).full,
            final(self).chunk == old(self).chunk,
            final(self).chunk_bytes == old(self).chunk_bytes,
            final(self).total_bytes == old(self).total_bytes,
    {
        let hash = finish_hasher(&self.chunk);
        let chunk = ChunkDescriptor {
            index: self.chunks.len() as u64,
            offset,
            size: self.chunk_bytes,
            hash,
        };
        self.chunks.push(chunk);
        assert(self.chunks@.drop_last() =~= old(self).chunks@);
    }

    /// Reads a block of any length. Refuses, and stays as it was, where the
    /// stream would exceed the largest file size.
    pub fn absorb(&mut self, block: &[u8]) -> (accepted: bool)
        requires
            old(self).wf(),
        ensures
            final(self).wf(),
            final(self).spec_chunk_size() == old(self).spec_chunk_size(),
            accepted == (old(self).content().len() + block.len() <= u64::MAX),
            accepted ==> final(self).content() == old(self).content() + block@,
            !accepted ==> final(self).content() == old(self).content(),
    {
        if block.len() as u64 > u64::MAX - self.total_bytes {
            return false;
        }
        let ghost before = self.content();
        let mut taken: usize = 0;
        assert(before + block@.take(0) =~= before);
        while taken < block.len()
            invariant
                self.wf(),
                self.chunk_size == old(self).chunk_size,
                taken <= block.len(),
                self.content() == before + block@.take(taken as int),
                self.total_bytes == old(self).total_bytes + taken,
                old(self).total_bytes + block.len() <= u64::MAX,
            decreases block.len() - taken,
        {
            let room: u64 = self.chunk_size - self.chunk_bytes;
            let left: usize = block.len() - taken;
            let step: usize = if (left as u64) < room {
                left
            } else {
                room as usize
            };
            let part = vstd::slice::slice_subrange(block, taken, taken + step);
            self.absorb_within_chunk(part);
            assert(block@.take(taken as int) + block@.subrange(taken as int, taken + step)
                =~= block@.take(taken + step));
            assert(before + block@.take(taken as int) + block@.subrange(
                taken as int,
                taken + step,
            ) =~= before + (block@.take(taken as int) + block@.subrange(
                taken as int,
                taken + step,
            )));
            taken = taken + step;
        }
        assert(block@.take(taken as int) =~= block@);
        true
    }

    /// The digest of everything read, the chunks and the length.
    pub fn finish(self) -> (result: (ContentHash, Vec<ChunkDescriptor>, u64))
        requires
            self.wf(),
        ensures
            result.0@ == crate::digest::blake3_digest(self.content()),
            describes(result.1@, self.content(), self.spec_chunk_size()),
            result.2 == self.content().len(),
    {
        let mut run = self;
        let ghost content = run.content();
        let ghost size = run.chunk_size as int;
        let ghost count = run.chunks@.len() as int;
        let hash = finish_hasher(&run.full);
        assert((count + 1) * size == count * size + size) by (nonlinear_arith);
        assert((count - 1) * size == count * size - size) by (nonlinear_arith);
        if run.chunk_bytes != 0 {
            let ghost earlier = run.chunks@;
            let offset: u64 = run.total_bytes - run.chunk_bytes;
            run.push_chunk(offset);
            proof {
                assert(content.skip(count * size) =~= content.subrange(
                    count * size,
                    content.len() as int,
                ));
                assert forall|i: int| 0 <= i < count + 1 implies is_chunk_of(
                    #[trigger] run.chunks@[i],
                    content,
                    size,
                    i,
                ) by {
                    if i < count {
                        assert(run.chunks@[i] == earlier[i]);
                    }
                }
            }
        }
        (hash, run.chunks, run.total_bytes)
    }
}

/// There is one list of chunks for a content and a chunk size: neither the way
/// it was read nor the code that read it shows.
pub proof fn law_chunks_are_unique(
    a: Seq<ChunkDescriptor>,
    b: Seq<ChunkDescriptor>,
    content: Seq<u8>,
    chunk_size: int,
)
    requires
        chunk_size > 0,
        describes(a, content, chunk_size),
        describes(b, content, chunk_size),
    ensures
        a == b,
{
    let (n, m) = (a.len() as int, b.len() as int);
    assert(n == m) by (nonlinear_arith)
        requires
            (n - 1) * chunk_size < content.len() <= n * chunk_size,
            (m - 1) * chunk_size < content.len() <= m * chunk_size,
            chunk_size > 0,
    ;
    assert forall|i: int| 0 <= i < n implies a[i] == b[i] by {
        assert(is_chunk_of(a[i], content, chunk_size, i));
        assert(is_chunk_of(b[i], content, chunk_size, i));
        assert(a[i].hash =~= b[i].hash);
    }
    assert(a =~= b);
}

/// What is wrong with the layout of a file's chunks.
#[derive(Debug, Clone, Copy, PartialEq, Eq, Structural)]
pub enum LayoutFault {
    ChunkSizeZero,
    NotRegularFile,
    TooManyChunks { count: u64 },
    NonContiguous,
    InvalidLength { index: u64, size: u64 },
    ShortNonFinal,
    OffsetsOverflow,
    TotalMismatch { total: u64, expected: u64 },
}

/// The sizes of some chunks added up.
pub open spec fn total_size(chunks: Seq<ChunkDescriptor>) -> nat
    decreases chunks.len(),
{
    if chunks.len() == 0 {
        0
    } else {
        total_size(chunks.drop_last()) + chunks.last().size as nat
    }
}

/// What is wrong with chunk `i` when the chunks before it end at `offset`.
pub open spec fn chunk_fault(
    chunk: ChunkDescriptor,
    i: int,
    offset: int,
    chunk_size: u64,
    file_size: u64,
) -> Option<LayoutFault> {
    if chunk.index != i || chunk.offset != offset {
        Some(LayoutFault::NonContiguous)
    } else if chunk.size == 0 || chunk.size > chunk_size {
        Some(LayoutFault::InvalidLength { index: chunk.index, size: chunk.size })
    } else if chunk.size != chunk_size && offset + chunk.size <= u64::MAX && offset + chunk.size
        != file_size {
        Some(LayoutFault::ShortNonFinal)
    } else if offset + chunk.size > u64::MAX {
        Some(LayoutFault::OffsetsOverflow)
    } else {
        None
    }
}

/// The first thing wrong with some chunks, each taken by itself.
pub open spec fn first_chunk_fault(
    chunks: Seq<ChunkDescriptor>,
    chunk_size: u64,
    file_size: u64,
) -> Option<LayoutFault>
    decreases chunks.len(),
{
    if chunks.len() == 0 {
        None
    } else {
        match first_chunk_fault(chunks.drop_last(), chunk_size, file_size) {
            Some(fault) => Some(fault),
            None => chunk_fault(
                chunks.last(),
                chunks.len() - 1,
                total_size(chunks.drop_last()) as int,
                chunk_size,
                file_size,
            ),
        }
    }
}

/// The first thing wrong with a hashed file.
pub open spec fn layout_fault(file: HashedFileView, chunk_size: u64) -> Option<LayoutFault> {
    if chunk_size == 0 {
        Some(LayoutFault::ChunkSizeZero)
    } else if file.entry.metadata.file_type != FileType::File {
        Some(LayoutFault::NotRegularFile)
    } else if file.chunks.len() > MAX_CHUNKS_PER_FILE {
        Some(LayoutFault::TooManyChunks { count: file.chunks.len() as u64 })
    } else {
        match first_chunk_fault(file.chunks, chunk_size, file.entry.metadata.size) {
            Some(fault) => Some(fault),
            None => if total_size(file.chunks) != file.entry.metadata.size {
                Some(
                    LayoutFault::TotalMismatch {
                        total: total_size(file.chunks) as u64,
                        expected: file.entry.metadata.size,
                    },
                )
            } else {
                None
            },
        }
    }
}

/// The fault as it is reported for the file at `path`.
pub open spec fn reports(error: TransferError, path: Seq<char>, fault: LayoutFault) -> bool {
    match (error, fault) {
        (
            TransferError::InvalidData(DataFault::ChunkSizeZero),
            LayoutFault::ChunkSizeZero,
        ) => true,
        (
            TransferError::InvalidData(DataFault::NotRegularFile { path: p }),
            LayoutFault::NotRegularFile,
        ) => p@ == path,
        (
            TransferError::InvalidData(DataFault::TooManyChunks { path: p, count: c }),
            LayoutFault::TooManyChunks { count },
        ) => p@ == path && c == count,
        (
            TransferError::InvalidData(DataFault::NonContiguousChunks { path: p }),
            LayoutFault::NonContiguous,
        ) => p@ == path,
        (
            TransferError::InvalidData(
                DataFault::InvalidChunkLength { path: p, index: i, size: s },
            ),
            LayoutFault::InvalidLength { index, size },
        ) => p@ == path && i == index && s == size,
        (
            TransferError::InvalidData(DataFault::ShortNonFinalChunk { path: p }),
            LayoutFault::ShortNonFinal,
        ) => p@ == path,
        (
            TransferError::InvalidData(DataFault::ChunkOffsetsOverflow { path: p }),
            LayoutFault::OffsetsOverflow,
        ) => p@ == path,
        (
            TransferError::InvalidData(
                DataFault::ChunkTotalMismatch { path: p, total: t, expected: e },
            ),
            LayoutFault::TotalMismatch { total, expected },
        ) => p@ == path && t == total && e == expected,
        _ => false,
    }
}

fn report(path: &String, fault: LayoutFault) -> (error: TransferError)
    ensures
        reports(error, path@, fault),
{
    let path = path.clone();
    TransferError::InvalidData(
        match fault {
            LayoutFault::ChunkSizeZero => DataFault::ChunkSizeZero,
            LayoutFault::NotRegularFile => DataFault::NotRegularFile { path },
            LayoutFault::TooManyChunks { count } => DataFault::TooManyChunks { path, count },
            LayoutFault::NonContiguous => DataFault::NonContiguousChunks { path },
            LayoutFault::InvalidLength { index, size } => DataFault::InvalidChunkLength {
                path,
                index,
                size,
            },
            LayoutFault::ShortNonFinal => DataFault::ShortNonFinalChunk { path },
            LayoutFault::OffsetsOverflow => DataFault::ChunkOffsetsOverflow { path },
            LayoutFault::TotalMismatch { total, expected } => DataFault::ChunkTotalMismatch {
                path,
                total,
                expected,
            },
        },
    )
}

proof fn lemma_chunk_fault_is_kept(
    chunks: Seq<ChunkDescriptor>,
    n: int,
    chunk_size: u64,
    file_size: u64,
)
    requires
        0 <= n <= chunks.len(),
        first_chunk_fault(chunks.take(n), chunk_size, file_size) is Some,
    ensures
        first_chunk_fault(chunks, chunk_size, file_size) == first_chunk_fault(
            chunks.take(n),
            chunk_size,
            file_size,
        ),
    decreases chunks.len(),
{
    if n == chunks.len() {
        assert(chunks.take(n) =~= chunks);
    } else {
        assert(chunks.drop_last().take(n) =~= chunks.take(n));
        lemma_chunk_fault_is_kept(chunks.drop_last(), n, chunk_size, file_size);
    }
}

fn check_layout(file: &HashedFile, chunk_size: u64) -> (fault: Option<LayoutFault>)
    ensures
        fault == layout_fault(file@, chunk_size),
{
    if chunk_size == 0 {
        return Some(LayoutFault::ChunkSizeZero);
    }
    if file.entry.file_type != FileType::File {
        return Some(LayoutFault::NotRegularFile);
    }
    let count: u64 = file.chunks.len() as u64;
    if count > MAX_CHUNKS_PER_FILE {
        return Some(LayoutFault::TooManyChunks { count });
    }
    let size: u64 = file.entry.size;
    let mut expected_offset: u64 = 0;
    let mut i: usize = 0;
    assert(file.chunks@.take(0) =~= Seq::<ChunkDescriptor>::empty());
    while i < file.chunks.len()
        invariant
            i <= file.chunks.len() <= MAX_CHUNKS_PER_FILE,
            chunk_size > 0,
            file.entry.file_type == FileType::File,
            size == file.entry.size,
            expected_offset == total_size(file.chunks@.take(i as int)),
            first_chunk_fault(file.chunks@.take(i as int), chunk_size, size) is None,
        decreases file.chunks.len() - i,
    {
        let ghost next = file.chunks@.take(i + 1);
        assert(next.drop_last() =~= file.chunks@.take(i as int));
        let chunk = file.chunks[i];
        proof {
            if first_chunk_fault(next, chunk_size, size) is Some {
                lemma_chunk_fault_is_kept(file.chunks@, i + 1, chunk_size, size);
            }
        }
        if chunk.index != i as u64 || chunk.offset != expected_offset {
            return Some(LayoutFault::NonContiguous);
        }
        if chunk.size == 0 || chunk.size > chunk_size {
            return Some(LayoutFault::InvalidLength { index: chunk.index, size: chunk.size });
        }
        let end = expected_offset.checked_add(chunk.size);
        match end {
            Some(end) => {
                if chunk.size != chunk_size && end != size {
                    return Some(LayoutFault::ShortNonFinal);
                }
                expected_offset = end;
            },
            None => {
                return Some(LayoutFault::OffsetsOverflow);
            },
        }
        i += 1;
    }
    assert(file.chunks@.take(i as int) =~= file.chunks@);
    if expected_offset != size {
        return Some(LayoutFault::TotalMismatch { total: expected_offset, expected: size });
    }
    None
}

/// Accepts a hashed file whose chunks lie end to end, are full but for the
/// last, and make up the file.
pub fn validate_hashed_file(file: &HashedFile, chunk_size: u64) -> (result: Result<
    (),
    TransferError,
>)
    ensures
        match result {
            Ok(_) => layout_fault(file@, chunk_size) is None,
            Err(error) => layout_fault(file@, chunk_size) matches Some(fault) && reports(
                error,
                file.entry.relative_path@,
                fault,
            ),
        },
{
    match check_layout(file, chunk_size) {
        None => Ok(()),
        Some(fault) => Err(report(&file.entry.relative_path, fault)),
    }
}

/// The layout that every accepted file has: chunk `i` starts at `i` times the
/// chunk size and ends where the next one starts or the file ends.
pub open spec fn has_regular_layout(
    chunks: Seq<ChunkDescriptor>,
    chunk_size: int,
    file_size: int,
) -> bool {
    &&& (chunks.len() - 1) * chunk_size < file_size <= chunks.len() * chunk_size
    &&& forall|i: int|
        #![trigger chunks[i]]
        0 <= i < chunks.len() ==> {
            &&& chunks[i].index == i
            &&& chunks[i].offset == i * chunk_size
            &&& chunks[i].size == (if file_size - i * chunk_size < chunk_size {
                file_size - i * chunk_size
            } else {
                chunk_size
            })
        }
}

pub proof fn lemma_total_size_grows(chunks: Seq<ChunkDescriptor>, n: int)
    requires
        0 <= n <= chunks.len(),
    ensures
        total_size(chunks.take(n)) <= total_size(chunks),
    decreases chunks.len(),
{
    if n == chunks.len() {
        assert(chunks.take(n) =~= chunks);
    } else {
        assert(chunks.drop_last().take(n) =~= chunks.take(n));
        lemma_total_size_grows(chunks.drop_last(), n);
    }
}

proof fn lemma_prefix_is_full(chunks: Seq<ChunkDescriptor>, n: int, chunk_size: u64, file_size: u64)
    requires
        0 <= n <= chunks.len(),
        chunk_size > 0,
        first_chunk_fault(chunks, chunk_size, file_size) is None,
        total_size(chunks) == file_size,
    ensures
        n < chunks.len() ==> total_size(chunks.take(n)) == n * chunk_size,
        forall|i: int|
            #![trigger chunks[i]]
            0 <= i < n ==> chunks[i].index == i && chunks[i].offset == i * chunk_size && 0
                < chunks[i].size <= chunk_size && chunks[i].offset + chunks[i].size <= file_size,
        n > 0 ==> total_size(chunks.take(n)) == chunks[n - 1].offset + chunks[n - 1].size,
        forall|i: int|
            #![trigger chunks[i]]
            0 <= i < n && i + 1 < chunks.len() ==> chunks[i].size == chunk_size,
    decreases n,
{
    if n == 0 {
        assert(chunks.take(0) =~= Seq::<ChunkDescriptor>::empty());
    } else {
        let m = n - 1;
        lemma_prefix_is_full(chunks, m, chunk_size, file_size);
        let next = chunks.take(n);
        assert(next.drop_last() =~= chunks.take(m));
        if first_chunk_fault(next, chunk_size, file_size) is Some {
            lemma_chunk_fault_is_kept(chunks, n, chunk_size, file_size);
        }
        let chunk = chunks[m];
        assert(next.last() == chunk);
        lemma_total_size_grows(chunks, n);
        if n < chunks.len() {
            let further = chunks.take(n + 1);
            assert(further.drop_last() =~= next);
            if first_chunk_fault(further, chunk_size, file_size) is Some {
                lemma_chunk_fault_is_kept(chunks, n + 1, chunk_size, file_size);
            }
            lemma_total_size_grows(chunks, n + 1);
            assert(further.last() == chunks[n]);
            assert(chunk.size == chunk_size);
            assert(n * chunk_size == m * chunk_size + chunk_size) by (nonlinear_arith)
                requires
                    n == m + 1,
            ;
        }
    }
}

/// An accepted file has the regular layout.
pub proof fn law_accepted_layout_is_regular(file: HashedFileView, chunk_size: u64)
    requires
        layout_fault(file, chunk_size) is None,
    ensures
        has_regular_layout(
            file.chunks,
            chunk_size as int,
            file.entry.metadata.size as int,
        ),
{
    let chunks = file.chunks;
    let n = chunks.len() as int;
    let size = file.entry.metadata.size;
    lemma_prefix_is_full(chunks, n, chunk_size, size);
    assert(chunks.take(n) =~= chunks);
    if n == 0 {
        assert((n - 1) * chunk_size < 0) by (nonlinear_arith)
            requires
                n == 0,
                chunk_size > 0,
        ;
    } else {
        assert(n * chunk_size == (n - 1) * chunk_size + chunk_size) by (nonlinear_arith);
        assert forall|i: int| #![trigger chunks[i]] 0 <= i < n implies {
            &&& chunks[i].index == i
            &&& chunks[i].offset == i * chunk_size
            &&& chunks[i].size == (if size - i * chunk_size < chunk_size {
                size - i * chunk_size
            } else {
                chunk_size as int
            })
        } by {
            if i < n - 1 {
                assert((i + 1) * chunk_size == i * chunk_size + chunk_size) by (nonlinear_arith);
                assert((i + 1) * chunk_size <= (n - 1) * chunk_size) by (nonlinear_arith)
                    requires
                        i + 1 <= n - 1,
                        chunk_size > 0,
                ;
            }
        }
    }
}

proof fn lemma_regular_prefix_total(
    chunks: Seq<ChunkDescriptor>,
    n: int,
    chunk_size: int,
    file_size: int,
)
    requires
        chunk_size > 0,
        file_size >= 0,
        0 <= n <= chunks.len(),
        has_regular_layout(chunks, chunk_size, file_size),
    ensures
        total_size(chunks.take(n)) == (if n < chunks.len() {
            n * chunk_size
        } else {
            file_size
        }),
    decreases n,
{
    if n == 0 {
        assert(chunks.take(0) =~= Seq::<ChunkDescriptor>::empty());
        if chunks.len() == 0 {
            assert(chunks.len() * chunk_size == 0) by (nonlinear_arith)
                requires
                    chunks.len() == 0,
            ;
            assert((chunks.len() - 1) * chunk_size == -chunk_size) by (nonlinear_arith)
                requires
                    chunks.len() == 0,
            ;
        }
    } else {
        let m = n - 1;
        lemma_regular_prefix_total(chunks, m, chunk_size, file_size);
        assert(chunks.take(n).drop_last() =~= chunks.take(m));
        assert(chunks.take(n).last() == chunks[m]);
        assert(n * chunk_size == m * chunk_size + chunk_size) by (nonlinear_arith)
            requires
                n == m + 1,
        ;
        if n < chunks.len() {
            assert(n * chunk_size <= (chunks.len() - 1) * chunk_size) by (nonlinear_arith)
                requires
                    n <= chunks.len() - 1,
                    chunk_size > 0,
            ;
        }
    }
}

proof fn lemma_regular_has_no_fault(
    chunks: Seq<ChunkDescriptor>,
    n: int,
    chunk_size: u64,
    file_size: u64,
)
    requires
        chunk_size > 0,
        0 <= n <= chunks.len(),
        has_regular_layout(chunks, chunk_size as int, file_size as int),
    ensures
        first_chunk_fault(chunks.take(n), chunk_size, file_size) is None,
    decreases n,
{
    if n > 0 {
        let m = n - 1;
        lemma_regular_has_no_fault(chunks, m, chunk_size, file_size);
        lemma_regular_prefix_total(chunks, m, chunk_size as int, file_size as int);
        assert(chunks.take(n).drop_last() =~= chunks.take(m));
        assert(chunks.take(n).last() == chunks[m]);
        assert(m * chunk_size <= (chunks.len() - 1) * chunk_size) by (nonlinear_arith)
            requires
                m <= chunks.len() - 1,
                chunk_size > 0,
        ;
        if m < chunks.len() - 1 {
            assert((m + 1) * chunk_size == m * chunk_size + chunk_size) by (nonlinear_arith);
            assert((m + 1) * chunk_size <= (chunks.len() - 1) * chunk_size) by (nonlinear_arith)
                requires
                    m + 1 <= chunks.len() - 1,
                    chunk_size > 0,
            ;
        } else {
            assert(chunks.len() * chunk_size == m * chunk_size + chunk_size) by (nonlinear_arith)
                requires
                    chunks.len() == m + 1,
            ;
        }
    }
}

/// A regular file with the regular layout and not too many chunks is accepted.
pub proof fn law_regular_layout_is_accepted(file: HashedFileView, chunk_size: u64)
    requires
        chunk_size > 0,
        file.entry.metadata.file_type == FileType::File,
        file.chunks.len() <= MAX_CHUNKS_PER_FILE,
        has_regular_layout(
            file.chunks,
            chunk_size as int,
            file.entry.metadata.size as int,
        ),
    ensures
        layout_fault(file, chunk_size) is None,
{
    let chunks = file.chunks;
    let n = chunks.len() as int;
    lemma_regular_has_no_fault(chunks, n, chunk_size, file.entry.metadata.size);
    lemma_regular_prefix_total(chunks, n, chunk_size as int, file.entry.metadata.size as int);
    assert(chunks.take(n) =~= chunks);
}

/// What hashing produces is accepted, whatever the content, where the file is
/// as long as its entry says and does not need too many chunks.
pub proof fn law_hashed_content_is_accepted(
    file: HashedFileView,
    content: Seq<u8>,
    chunk_size: u64,
)
    requires
        chunk_size > 0,
        file.entry.metadata.file_type == FileType::File,
        file.entry.metadata.size == content.len(),
        file.chunks.len() <= MAX_CHUNKS_PER_FILE,
        describes(file.chunks, content, chunk_size as int),
    ensures
        layout_fault(file, chunk_size) is None,
{
    assert forall|i: int| #![trigger file.chunks[i]] 0 <= i < file.chunks.len() implies {
        &&& file.chunks[i].index == i
        &&& file.chunks[i].offset == i * chunk_size
        &&& file.chunks[i].size == (if content.len() - i * chunk_size < chunk_size {
            content.len() - i * chunk_size
        } else {
            chunk_size as int
        })
    } by {
        assert(is_chunk_of(file.chunks[i], content, chunk_size as int, i));
    }
    law_regular_layout_is_accepted(file, chunk_size);
}

/// The bytes of a chunk within a file.
pub open spec fn chunk_bytes(content: Seq<u8>, chunk: ChunkDescriptor) -> Seq<u8> {
    content.subrange(chunk.offset as int, chunk.offset + chunk.size)
}

/// A file that holds every chunk in its place is the file that was sent: the
/// chunks of an accepted file leave no byte out.
pub proof fn law_chunks_reassemble_the_file(
    file: HashedFileView,
    chunk_size: u64,
    content: Seq<u8>,
    staged: Seq<u8>,
)
    requires
        layout_fault(file, chunk_size) is None,
        content.len() == file.entry.metadata.size,
        staged.len() == file.entry.metadata.size,
        forall|i: int|
            0 <= i < file.chunks.len() ==> chunk_bytes(staged, #[trigger] file.chunks[i])
                == chunk_bytes(content, file.chunks[i]),
    ensures
        staged == content,
{
    law_accepted_layout_is_regular(file, chunk_size);
    let n = file.chunks.len() as int;
    let size = chunk_size as int;
    assert forall|p: int| 0 <= p < content.len() implies staged[p] == content[p] by {
        let i = p / size;
        vstd::arithmetic::div_mod::lemma_fundamental_div_mod(p, size);
        vstd::arithmetic::div_mod::lemma_mod_bound(p, size);
        assert(size * i == i * size) by (nonlinear_arith);
        assert(0 <= i < n) by (nonlinear_arith)
            requires
                0 <= p < n * size,
                i * size <= p,
                p < i * size + size,
                size > 0,
        ;
        let chunk = file.chunks[i];
        assert(chunk.offset <= p < chunk.offset + chunk.size);
        assert(chunk_bytes(staged, chunk)[p - chunk.offset] == staged[p]);
        assert(chunk_bytes(content, chunk)[p - chunk.offset] == content[p]);
    }
    assert(staged =~= content);
}

/// An accepted file is empty exactly where it has no chunks.
pub proof fn law_empty_files_have_no_chunks(file: HashedFileView, chunk_size: u64)
    requires
        layout_fault(file, chunk_size) is None,
    ensures
        file.entry.metadata.size == 0 <==> file.chunks.len() == 0,
{
    law_accepted_layout_is_regular(file, chunk_size);
    let n = file.chunks.len() as int;
    if n == 0 {
        assert(n * chunk_size == 0) by (nonlinear_arith)
            requires
                n == 0,
        ;
    } else {
        assert((n - 1) * chunk_size >= 0) by (nonlinear_arith)
            requires
                n >= 1,
                chunk_size > 0,
        ;
    }
}

/// A file that is to be hashed, checked as far as its entry shows.
pub struct HashRequest {
    path: String,
    entry: ManifestEntry,
    chunk_size: u64,
}

/// A file that is to be hashed and whose metadata is still the entry's.
pub struct LocatedSource {
    path: String,
    entry: ManifestEntry,
    chunk_size: u64,
}

/// A file that is being hashed.
pub struct HashRun {
    path: String,
    entry: ManifestEntry,
    hasher: ChunkHasher,
}

impl HashRequest {
    #[verifier::type_invariant]
    spec fn has_chunk_size(self) -> bool {
        self.chunk_size > 0
    }

    /// What is to be hashed, and in chunks of what size.
    pub open spec fn is_for(&self, path: Seq<char>, entry: ManifestEntry, chunk_size: u64) -> bool {
        self.spec_path() == path && self.spec_entry() == entry && self.spec_chunk_size()
            == chunk_size
    }

    pub closed spec fn spec_path(&self) -> Seq<char> {
        self.path@
    }

    pub closed spec fn spec_entry(&self) -> ManifestEntry {
        self.entry
    }

    pub closed spec fn spec_chunk_size(&self) -> u64 {
        self.chunk_size
    }

    /// Goes on where the metadata at the path is that of the entry.
    pub fn located(self, initial: &SourceMetadata) -> (result: Result<LocatedSource, CoreError>)
        ensures
            match result {
                Ok(source) => {
                    &&& self.spec_entry().spec_metadata() == *initial
                    &&& source.spec_path() == self.spec_path()
                    &&& source.spec_entry() == self.spec_entry()
                    &&& source.spec_chunk_size() == self.spec_chunk_size()
                },
                Err(error) => crate::metadata::is_change(
                    error,
                    self.spec_path(),
                    self.spec_entry().spec_metadata(),
                    *initial,
                ),
            },
    {
        proof {
            use_type_invariant(&self);
        }
        match ensure_snapshot_matches(&self.path, &self.entry.source_metadata(), initial) {
            Ok(_) => Ok(
                LocatedSource {
                    path: self.path,
                    entry: self.entry,
                    chunk_size: self.chunk_size,
                },
            ),
            Err(error) => Err(error),
        }
    }
}

impl LocatedSource {
    #[verifier::type_invariant]
    spec fn has_chunk_size(self) -> bool {
        self.chunk_size > 0
    }

    pub closed spec fn spec_path(&self) -> Seq<char> {
        self.path@
    }

    pub closed spec fn spec_entry(&self) -> ManifestEntry {
        self.entry
    }

    pub closed spec fn spec_chunk_size(&self) -> u64 {
        self.chunk_size
    }

    /// Goes on where the open file has the metadata of the entry.
    pub fn opened(self, opened: &SourceMetadata) -> (result: Result<HashRun, CoreError>)
        ensures
            match result {
                Ok(run) => {
                    &&& self.spec_entry().spec_metadata() == *opened
                    &&& run.wf()
                    &&& run.spec_path() == self.spec_path()
                    &&& run.spec_entry() == self.spec_entry()
                    &&& run.spec_chunk_size() == self.spec_chunk_size()
                    &&& run.content() == Seq::<u8>::empty()
                },
                Err(error) => crate::metadata::is_change(
                    error,
                    self.spec_path(),
                    self.spec_entry().spec_metadata(),
                    *opened,
                ),
            },
    {
        proof {
            use_type_invariant(&self);
        }
        match ensure_snapshot_matches(&self.path, &self.entry.source_metadata(), opened) {
            Ok(_) => Ok(
                HashRun {
                    path: self.path,
                    entry: self.entry,
                    hasher: ChunkHasher::new(self.chunk_size),
                },
            ),
            Err(error) => Err(error),
        }
    }
}

impl HashRun {
    pub closed spec fn spec_path(&self) -> Seq<char> {
        self.path@
    }

    pub closed spec fn spec_entry(&self) -> ManifestEntry {
        self.entry
    }

    pub closed spec fn spec_chunk_size(&self) -> int {
        self.hasher.spec_chunk_size()
    }

    pub closed spec fn wf(&self) -> bool {
        self.hasher.wf()
    }

    /// The bytes read so far.
    pub closed spec fn content(&self) -> Seq<u8> {
        self.hasher.content()
    }

    /// How much to read next: up to the end of the chunk, at most one buffer.
    pub fn wanted(&self) -> (bytes: usize)
        requires
            self.wf(),
        ensures
            bytes == next_read(self.content().len() as int, self.spec_chunk_size()),
    {
        self.hasher.wanted()
    }

    /// Takes a block that was read.
    pub fn absorb(&mut self, block: &[u8]) -> (result: Result<(), TransferError>)
        requires
            old(self).wf(),
        ensures
            final(self).wf(),
            final(self).spec_path() == old(self).spec_path(),
            final(self).spec_entry() == old(self).spec_entry(),
            final(self).spec_chunk_size() == old(self).spec_chunk_size(),
            match result {
                Ok(_) => final(self).content() == old(self).content() + block@,
                Err(TransferError::InvalidData(DataFault::FileTooLarge { path })) => {
                    &&& path@ == old(self).spec_path()
                    &&& old(self).content().len() + block.len() > u64::MAX
                    &&& final(self).content() == old(self).content()
                },
                Err(_) => false,
            },
    {
        if self.hasher.absorb(block) {
            Ok(())
        } else {
            Err(TransferError::InvalidData(DataFault::FileTooLarge { path: self.path.clone() }))
        }
    }

    /// The hashed file, where neither the open file nor the path changed
    /// meanwhile and as much was read as the entry says.
    pub fn finish(self, final_opened: &SourceMetadata, final_path: &SourceMetadata) -> (result:
        Result<HashedFile, CoreError>)
        requires
            self.wf(),
        ensures
            ({
                let expected = self.spec_entry().spec_metadata();
                match result {
                    Ok(file) => {
                        &&& *final_opened == expected
                        &&& *final_path == expected
                        &&& self.content().len() == expected.size
                        &&& file.entry == self.spec_entry()
                        &&& file.hash@ == crate::digest::blake3_digest(self.content())
                        &&& describes(file.chunks@, self.content(), self.spec_chunk_size())
                    },
                    Err(CoreError::ReadSizeChanged { path, expected: e, actual }) => {
                        &&& *final_opened == expected
                        &&& *final_path == expected
                        &&& path@ == self.spec_path()
                        &&& e == expected.size
                        &&& actual == self.content().len()
                        &&& actual != e
                    },
                    Err(error) => crate::metadata::is_change(
                        error,
                        self.spec_path(),
                        expected,
                        if *final_opened != expected {
                            *final_opened
                        } else {
                            *final_path
                        },
                    ),
                }
            }),
    {
        let expected = self.entry.source_metadata();
        if let Err(error) = ensure_snapshot_matches(&self.path, &expected, final_opened) {
            return Err(error);
        }
        if let Err(error) = ensure_snapshot_matches(&self.path, &expected, final_path) {
            return Err(error);
        }
        let (hash, chunks, total_bytes) = self.hasher.finish();
        if total_bytes != expected.size {
            return Err(
                CoreError::ReadSizeChanged {
                    path: self.path,
                    expected: expected.size,
                    actual: total_bytes,
                },
            );
        }
        Ok(HashedFile { entry: self.entry, hash, chunks })
    }
}

/// Starts full-file and fixed-size chunk hashing in one sequential read.
///
/// Metadata is compared before and after the read with the scanned entry.
pub fn hash_file(path: &str, entry: &ManifestEntry, chunk_size: u64) -> (result: Result<
    HashRequest,
    CoreError,
>)
    ensures
        match result {
            Ok(request) => {
                &&& 0 < chunk_size <= usize::MAX
                &&& entry.file_type == FileType::File
                &&& request.is_for(path@, *entry, chunk_size)
            },
            Err(CoreError::InvalidChunkSize { chunk_size: c }) => c == chunk_size && !(0 < chunk_size
                <= usize::MAX),
            Err(CoreError::NotRegularFile { path: p }) => {
                &&& 0 < chunk_size <= usize::MAX
                &&& entry.file_type != FileType::File
                &&& p@ == path@
            },
            Err(_) => false,
        },
{
    if chunk_size == 0 || chunk_size as u128 > usize::MAX as u128 {
        return Err(CoreError::InvalidChunkSize { chunk_size });
    }
    if entry.file_type != FileType::File {
        return Err(CoreError::NotRegularFile { path: path.to_owned() });
    }
    Ok(HashRequest { path: path.to_owned(), entry: entry.duplicate(), chunk_size })
}

/// Starts hashing a file that is to be transferred: one that does not need more
/// chunks than a transfer allows.
pub fn hash_file_streaming(path: &str, entry: &ManifestEntry, chunk_size: u64) -> (result: Result<
    HashRequest,
    TransferError,
>)
    ensures
        match result {
            Ok(request) => {
                &&& chunk_size > 0
                &&& entry.file_type == FileType::File
                &&& pieces(entry.size as int, chunk_size as int) <= MAX_CHUNKS_PER_FILE
                &&& request.is_for(path@, *entry, chunk_size)
            },
            Err(TransferError::InvalidData(DataFault::ChunkSizeZero)) => chunk_size == 0,
            Err(TransferError::InvalidData(DataFault::NotRegularFile { path: p })) => {
                &&& chunk_size > 0
                &&& entry.file_type != FileType::File
                &&& p@ == path@
            },
            Err(
                TransferError::InvalidData(
                    DataFault::ChunkSizeTooSmall { path: p, chunks, minimum },
                ),
            ) => {
                &&& chunk_size > 0
                &&& entry.file_type == FileType::File
                &&& chunks == pieces(entry.size as int, chunk_size as int)
                &&& chunks > MAX_CHUNKS_PER_FILE
                &&& minimum == pieces(entry.size as int, MAX_CHUNKS_PER_FILE as int)
                &&& p@ == path@
            },
            Err(_) => false,
        },
{
    if chunk_size == 0 {
        return Err(TransferError::InvalidData(DataFault::ChunkSizeZero));
    }
    if entry.file_type != FileType::File {
        return Err(
            TransferError::InvalidData(DataFault::NotRegularFile { path: path.to_owned() }),
        );
    }
    let chunks = div_ceil(entry.size, chunk_size);
    if chunks > MAX_CHUNKS_PER_FILE {
        let minimum = div_ceil(entry.size, MAX_CHUNKS_PER_FILE);
        return Err(
            TransferError::InvalidData(
                DataFault::ChunkSizeTooSmall { path: path.to_owned(), chunks, minimum },
            ),
        );
    }
    Ok(HashRequest { path: path.to_owned(), entry: entry.duplicate(), chunk_size })
}

/// A snapshot of an open source; links and other nodes have none, and neither has
/// a modification time that does not fit.
pub fn metadata_snapshot(path: &str, status: &NodeStatus) -> (result: Result<
    SourceMetadata,
    TransferError,
>)
    ensures
        match result {
            Ok(metadata) => snapshot_of(*status) == Some(metadata) && metadata.mtime_ns
                == status.modified.spec_nanoseconds(),
            Err(TransferError::InvalidData(DataFault::UnsupportedFileType { path: p })) =>
                snapshot_of(*status) is None && p@ == path@,
            Err(TransferError::InvalidData(DataFault::ModificationTimeOutOfRange { path: p })) => {
                &&& snapshot_of(*status) is Some
                &&& !(i64::MIN <= status.modified.spec_nanoseconds() <= i64::MAX)
                &&& p@ == path@
            },
            Err(_) => false,
        },
{
    match source_metadata_from_metadata(path, status) {
        Ok(metadata) => Ok(metadata),
        Err(CoreError::UnsupportedFileType { path }) => Err(
            TransferError::InvalidData(DataFault::UnsupportedFileType { path }),
        ),
        Err(_) => Err(
            TransferError::InvalidData(
                DataFault::ModificationTimeOutOfRange { path: path.to_owned() },
            ),
        ),
    }
}

/// The advised minimum chunk size does keep the file within the limit.
pub proof fn law_minimum_chunk_size_suffices(file_size: u64)
    requires
        file_size > 0,
    ensures
        pieces(file_size as int, pieces(file_size as int, MAX_CHUNKS_PER_FILE as int))
            <= MAX_CHUNKS_PER_FILE,
{
    let size = file_size as int;
    let limit = MAX_CHUNKS_PER_FILE as int;
    let minimum = (size - 1) / limit + 1;
    assert((size - 1) / minimum <= limit - 1) by (nonlinear_arith)
        requires
            size > 0,
            limit > 0,
            minimum == (size - 1) / limit + 1,
            limit == 131_072,
    {
        assert(size - 1 < minimum * limit);
    }
}

/// A cached file can stand for its source, which is as `current` says, where anything is
/// known of it.
pub open spec fn is_usable_cache(
    file: HashedFileView,
    chunk_size: u64,
    expected: SourceMetadata,
    current: Option<SourceMetadata>,
) -> bool {
    layout_fault(file, chunk_size) is None && current == Some(expected)
}

/// The hashed file that a cache entry stands for, where it still fits: its
/// layout is that of the entry and the source is unchanged.
pub fn cached_file(
    entry: &ManifestEntry,
    full_hash: &ContentHash,
    chunks: &Vec<ChunkDescriptor>,
    chunk_size: u64,
    current: &Option<SourceMetadata>,
) -> (file: Option<HashedFile>)
    ensures
        ({
            let view = HashedFileView { entry: entry@, hash: *full_hash, chunks: chunks@ };
            let usable = is_usable_cache(view, chunk_size, entry.spec_metadata(), *current);
            match file {
                Some(found) => usable && found@ == view,
                None => !usable,
            }
        }),
{
    let file = HashedFile {
        entry: entry.duplicate(),
        hash: *full_hash,
        chunks: copy_chunks(chunks),
    };
    if check_layout(&file, chunk_size).is_some() {
        return None;
    }
    match current {
        Some(now) => {
            if *now == entry.source_metadata() {
                Some(file)
            } else {
                None
            }
        },
        None => None,
    }
}

/// The key under which the hashes of a file are cached: it reveals nothing of
/// the path but a digest.
pub fn cache_path(encoded_path: &[u8]) -> (key: String)
    ensures
        key@ == CACHE_PATH_PREFIX@ + crate::ids::hex_of(
            crate::digest::blake3_digest(encoded_path@),
        ),
{
    let digest = blake3_hash(encoded_path);
    let mut key = CACHE_PATH_PREFIX.to_owned();
    let text = hex(&digest);
    key.append(text.as_str());
    key
}

/// A reading of the clock, in milliseconds since the Unix epoch, as the time of
/// a record. `elapsed` is the reading, or why the clock is before the epoch.
pub fn now_millis(elapsed: Result<u128, String>) -> (result: Result<i64, TransferError>)
    ensures
        result == match elapsed {
            Ok(millis) => if millis <= i64::MAX {
                Ok(millis as i64)
            } else {
                Err(TransferError::InvalidData(DataFault::SystemTimeOutOfRange))
            },
            Err(message) => Err(TransferError::InvalidData(DataFault::SystemTime(message))),
        },
{
    match elapsed {
        Ok(millis) => {
            if millis <= i64::MAX as u128 {
                Ok(millis as i64)
            } else {
                Err(TransferError::InvalidData(DataFault::SystemTimeOutOfRange))
            }
        },
        Err(message) => Err(TransferError::InvalidData(DataFault::SystemTime(message))),
    }
}

/// The pieces of a length hold it, and one fewer would not.
pub proof fn law_pieces_are_as_few_as_can_be(length: int, size: int)
    requires
        length >= 0,
        size > 0,
    ensures
        pieces(length, size) >= 0,
        pieces(length, size) * size >= length,
        pieces(length, size) > 0 ==> (pieces(length, size) - 1) * size < length,
{
    if length > 0 {
        let q = (length - 1) / size;
        vstd::arithmetic::div_mod::lemma_fundamental_div_mod(length - 1, size);
        vstd::arithmetic::div_mod::lemma_div_pos_is_pos(length - 1, size);
        assert((q + 1) * size == size * q + size) by (nonlinear_arith);
        assert(q * size == size * q) by (nonlinear_arith);
    }
}

/// A read never goes beyond the end of its chunk nor beyond the buffer, is never empty,
/// and is as long as these allow.
pub proof fn law_reads_stop_at_chunk_ends(length: int, chunk_size: int, chunk: int)
    requires
        chunk_size > 0,
        0 <= chunk,
        chunk * chunk_size <= length < (chunk + 1) * chunk_size,
    ensures
        0 < next_read(length, chunk_size) <= TRANSFER_BUFFER_SIZE,
        length + next_read(length, chunk_size) <= (chunk + 1) * chunk_size,
        next_read(length, chunk_size) == TRANSFER_BUFFER_SIZE || length + next_read(
            length,
            chunk_size,
        ) == (chunk + 1) * chunk_size,
{
    let rest = length - chunk * chunk_size;
    assert((chunk + 1) * chunk_size == chunk * chunk_size + chunk_size) by (nonlinear_arith);
    vstd::arithmetic::div_mod::lemma_fundamental_div_mod_converse(length, chunk_size, chunk, rest);
}

/// What is wrong with a layout is named for what it is: an empty chunk size, an entry
/// that is no file, more chunks than a file may have; and of the chunks, the first that
/// does not follow on the one before it, is empty or too long, or is short though the
/// file goes on.
pub proof fn law_layout_faults_say_what_is_wrong(file: HashedFileView, chunk_size: u64)
    ensures
        layout_fault(file, chunk_size) == Some(LayoutFault::ChunkSizeZero) <==> chunk_size == 0,
        chunk_size > 0 ==> (layout_fault(file, chunk_size) == Some(LayoutFault::NotRegularFile)
            <==> file.entry.metadata.file_type == FileType::Directory),
        chunk_size > 0 && file.entry.metadata.file_type == FileType::File ==> (layout_fault(
            file,
            chunk_size,
        ) is Some && layout_fault(file, chunk_size)->0 is TooManyChunks <==> file.chunks.len()
            > MAX_CHUNKS_PER_FILE),
        forall|n: int|
            0 < n <= file.chunks.len() && first_chunk_fault(
                #[trigger] file.chunks.take(n - 1),
                chunk_size,
                file.entry.metadata.size,
            ) is None ==> {
                let fault = first_chunk_fault(
                    file.chunks.take(n),
                    chunk_size,
                    file.entry.metadata.size,
                );
                let chunk = file.chunks[n - 1];
                let end = if n == 1 {
                    0
                } else {
                    file.chunks[n - 2].offset + file.chunks[n - 2].size
                };
                let misplaced = chunk.index != n - 1 || chunk.offset != end;
                let wrong_length = chunk.size == 0 || chunk.size > chunk_size;
                let overflow = end + chunk.size > u64::MAX;
                let short = chunk.size < chunk_size && !overflow && end + chunk.size
                    != file.entry.metadata.size;
                &&& fault == Some(LayoutFault::NonContiguous) <==> misplaced
                &&& fault == Some(
                    LayoutFault::InvalidLength { index: chunk.index, size: chunk.size },
                ) <==> !misplaced && wrong_length
                &&& fault == Some(LayoutFault::ShortNonFinal) <==> !misplaced && !wrong_length
                    && short
                &&& fault == Some(LayoutFault::OffsetsOverflow) <==> !misplaced && !wrong_length
                    && overflow
                &&& fault is None <==> !misplaced && !wrong_length && !short && !overflow
            },
{
    let size = file.entry.metadata.size;
    assert forall|n: int|
        0 < n <= file.chunks.len() && first_chunk_fault(
            #[trigger] file.chunks.take(n - 1),
            chunk_size,
            size,
        ) is None implies {
        let fault = first_chunk_fault(file.chunks.take(n), chunk_size, size);
        let chunk = file.chunks[n - 1];
        let end = if n == 1 {
            0
        } else {
            file.chunks[n - 2].offset + file.chunks[n - 2].size
        };
        let misplaced = chunk.index != n - 1 || chunk.offset != end;
        let wrong_length = chunk.size == 0 || chunk.size > chunk_size;
        let overflow = end + chunk.size > u64::MAX;
        let short = chunk.size < chunk_size && !overflow && end + chunk.size != size;
        &&& fault == Some(LayoutFault::NonContiguous) <==> misplaced
        &&& fault == Some(LayoutFault::InvalidLength { index: chunk.index, size: chunk.size })
            <==> !misplaced && wrong_length
        &&& fault == Some(LayoutFault::ShortNonFinal) <==> !misplaced && !wrong_length && short
        &&& fault == Some(LayoutFault::OffsetsOverflow) <==> !misplaced && !wrong_length
            && overflow
        &&& fault is None <==> !misplaced && !wrong_length && !short && !overflow
    } by {
        let earlier = file.chunks.take(n - 1);
        assert(file.chunks.take(n).drop_last() =~= earlier);
        assert(file.chunks.take(n).last() == file.chunks[n - 1]);
        if n > 1 {
            assert(earlier.last() == file.chunks[n - 2]);
        } else {
            assert(earlier.len() == 0);
        }
    }
    if chunk_size > 0 && file.entry.metadata.file_type == FileType::File && file.chunks.len()
        <= MAX_CHUNKS_PER_FILE {
        lemma_chunk_faults_are_of_chunks(file.chunks, chunk_size, size);
    }
}

proof fn lemma_chunk_faults_are_of_chunks(
    chunks: Seq<ChunkDescriptor>,
    chunk_size: u64,
    file_size: u64,
)
    ensures
        first_chunk_fault(chunks, chunk_size, file_size) matches Some(fault) ==> !(
        fault is TooManyChunks) && !(fault is ChunkSizeZero) && !(fault is NotRegularFile),
    decreases chunks.len(),
{
    if chunks.len() > 0 {
        lemma_chunk_faults_are_of_chunks(chunks.drop_last(), chunk_size, file_size);
    }
}

/// When a cached file stands for its source: its chunks lie as those of a file of that
/// length do, and the source is there with the type, size, modification time and access
/// that it had. A source that cannot be looked at is hashed anew.
pub proof fn law_when_a_cache_is_used(
    file: HashedFileView,
    chunk_size: u64,
    expected: SourceMetadata,
    current: Option<SourceMetadata>,
)
    ensures
        current is None ==> !is_usable_cache(file, chunk_size, expected, current),
        current matches Some(now) ==> (is_usable_cache(file, chunk_size, expected, current) <==> {
            &&& now.size == expected.size && now.mtime_ns == expected.mtime_ns
            &&& now.file_type == expected.file_type && now.read_only == expected.read_only
            &&& chunk_size > 0 && file.chunks.len() <= MAX_CHUNKS_PER_FILE
            &&& file.entry.metadata.file_type == FileType::File
            &&& has_regular_layout(
                file.chunks,
                chunk_size as int,
                file.entry.metadata.size as int,
            )
        }),
{
    if layout_fault(file, chunk_size) is None {
        law_accepted_layout_is_regular(file, chunk_size);
    }
    if chunk_size > 0 && file.entry.metadata.file_type == FileType::File && file.chunks.len()
        <= MAX_CHUNKS_PER_FILE && has_regular_layout(
        file.chunks,
        chunk_size as int,
        file.entry.metadata.size as int,
    ) {
        law_regular_layout_is_accepted(file, chunk_size);
    }
}

} // verus!
