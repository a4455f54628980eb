//! Hashing the source and sending the chunks that the receiver lacks.

use crate::decisions::FileUpdate;
use crate::digest::{blake3_digest, same_digest};
use crate::error::{CoreError, DataFault, TransferError};
use crate::ids::Uuid;
use crate::manifest::Platform;
use crate::metadata::{ensure_source_unchanged, is_change};
use crate::model::{
    ChunkDescriptor, ContentHash, FileOperation, FileProgress, HashedFile, SourceMetadata,
    TransferProgress, VerificationMode,
};
use crate::order::{is_sorted, sort};
use crate::outgoing::{with_failure, OutgoingJob, OutgoingView};
use crate::path::{is_wire_path, join_components, safe_join, wire_path_error};
use crate::plan::saturated;
use crate::records::JobFileStatus;
use crate::region::RegionHash;
use crate::stream::{Acknowledgement, ChunkAcknowledgement, ChunkHeader, Response};
use vstd::hash_map::StringHashMap;
use vstd::prelude::*;

verus! {

/// The smaller of a count and a limit.
pub open spec fn at_most(count: int, limit: u32) -> u32 {
    if count < limit {
        count as u32
    } else {
        limit
    }
}

/// How many files are hashed at once: as the job says, but one at least.
pub open spec fn hash_concurrency(concurrency: u32) -> u32 {
    if concurrency == 0 {
        1
    } else {
        concurrency
    }
}

/// The path of a source file.
pub fn source_path(platform: Platform, source_root: &str, wire_path: &str) -> (result: Result<
    String,
    TransferError,
>)
    ensures
        match result {
            Ok(path) => is_wire_path(wire_path@) && path@ == join_components(
                platform,
                source_root@,
                crate::text::split(wire_path@, '/'),
            ),
            Err(TransferError::InvalidData(DataFault::InvalidSourcePath { path, source })) => path@
                == wire_path@ && wire_path_error(wire_path@) == Some(source),
            Err(_) => false,
        },
{
    match safe_join(platform, source_root, wire_path) {
        Ok(path) => Ok(path),
        Err(source) => Err(
            TransferError::InvalidData(
                DataFault::InvalidSourcePath { path: wire_path.to_owned(), source },
            ),
        ),
    }
}

/// A failed file, as its row says.
pub open spec fn is_failed_update(update: FileUpdate, path: Seq<char>, message: Seq<char>) -> bool {
    &&& update.path@ == path
    &&& update.status == JobFileStatus::Failed
    &&& crate::text::view_of(update.error) == Some(message)
}

/// The source files hashed so far.
pub struct HashPhase {
    entry_count: usize,
    processed: usize,
    hashed_bytes: u64,
    hashed: Vec<HashedFile>,
}

/// How far the hashing has come.
#[verifier::ext_equal]
pub struct HashPhaseView {
    pub entry_count: usize,
    pub processed: usize,
    pub hashed_bytes: u64,
    pub hashed: Seq<HashedFile>,
}

impl View for HashPhase {
    type V = HashPhaseView;

    closed spec fn view(&self) -> HashPhaseView {
        HashPhaseView {
            entry_count: self.entry_count,
            processed: self.processed,
            hashed_bytes: self.hashed_bytes,
            hashed: self.hashed@,
        }
    }
}

/// The job with so many files being hashed.
pub open spec fn hashing_files(before: OutgoingView, remaining: int) -> OutgoingView {
    OutgoingView {
        progress: TransferProgress {
            active_file_streams: at_most(remaining, hash_concurrency(before.config.concurrency)),
            ..before.progress
        },
        ..before
    }
}

fn smaller(count: usize, limit: u32) -> (least: u32)
    ensures
        least == at_most(count as int, limit),
{
    if (count as u64) < (limit as u64) {
        count as u32
    } else {
        limit
    }
}

fn concurrency_of(job: &OutgoingJob) -> (concurrency: u32)
    ensures
        concurrency == hash_concurrency(job@.config.concurrency),
{
    let concurrency: u32 = job.job().config.concurrency;
    if concurrency == 0 {
        1
    } else {
        concurrency
    }
}

impl HashPhase {
    /// Starts to hash some files.
    pub fn begin(job: &mut OutgoingJob, entry_count: usize) -> (phase: Self)
        ensures
            phase@ == (HashPhaseView {
                entry_count,
                processed: 0,
                hashed_bytes: 0,
                hashed: Seq::empty(),
            }),
            final(job)@ == hashing_files(old(job)@, entry_count as int),
    {
        let active = smaller(entry_count, concurrency_of(job));
        job.set_active_files(active);
        HashPhase { entry_count, processed: 0, hashed_bytes: 0, hashed: Vec::new() }
    }

    pub fn hashed_bytes(&self) -> (bytes: u64)
        ensures
            bytes == self@.hashed_bytes,
    {
        self.hashed_bytes
    }

    /// Takes the outcome of hashing one file. Cancellation ends the job, any
    /// other failure only the file; `message` is how the failure reads.
    pub fn accept(
        &mut self,
        job: &mut OutgoingJob,
        path: &str,
        outcome: Result<HashedFile, TransferError>,
        message: String,
    ) -> (result: Result<Option<FileUpdate>, TransferError>)
        requires
            old(self)@.processed < old(self)@.entry_count,
            old(job)@.progress.failed_files < u64::MAX,
        ensures
            ({
                let before = old(self)@;
                let counted = HashPhaseView { processed: (before.processed + 1) as usize, ..before };
                let remaining = before.entry_count - before.processed - 1;
                match (outcome, result) {
                    (Ok(file), Ok(None)) => {
                        &&& final(self)@ == (HashPhaseView {
                            hashed_bytes: saturated(
                                before.hashed_bytes as nat + file.entry.size as nat,
                            ),
                            hashed: before.hashed.push(file),
                            ..counted
                        })
                        &&& final(job)@ == hashing_files(old(job)@, remaining)
                    },
                    (Err(TransferError::Cancelled), Err(error)) => {
                        &&& error is Cancelled
                        &&& final(job)@ == old(job)@
                    },
                    (Err(error), Ok(Some(update))) => {
                        &&& !(error is Cancelled)
                        &&& final(self)@ == counted
                        &&& final(job)@ == hashing_files(
                            with_failure(old(job)@, path@, FileOperation::Verify, message@),
                            remaining,
                        )
                        &&& is_failed_update(update, path@, message@)
                    },
                    _ => false,
                }
            }),
    {
        self.processed = self.processed + 1;
        let update = match outcome {
            Ok(file) => {
                self.hashed_bytes = self.hashed_bytes.saturating_add(file.entry.size);
                self.hashed.push(file);
                None
            },
            Err(TransferError::Cancelled) => {
                return Err(TransferError::Cancelled);
            },
            Err(_) => {
                let text = message.clone();
                job.record_file_failure(path, FileOperation::Verify, message);
                Some(
                    FileUpdate {
                        path: path.to_owned(),
                        status: JobFileStatus::Failed,
                        error: Some(text),
                    },
                )
            },
        };
        let active = smaller(self.entry_count - self.processed, concurrency_of(job));
        job.set_active_files(active);
        Ok(update)
    }

    /// The hashed files in the order of their paths.
    pub fn finish(self, job: &mut OutgoingJob) -> (files: Vec<HashedFile>)
        ensures
            is_sorted(files@),
            files@.to_multiset() == self@.hashed.to_multiset(),
            final(job)@ == hashing_files(old(job)@, 0),
    {
        job.set_active_files(0);
        sort(self.hashed)
    }
}

/// The set of the `dashmap` crate.
#[verifier::external_type_specification]
#[verifier::external_body]
#[verifier::reject_recursive_types(K)]
#[verifier::reject_recursive_types(S)]
pub struct ExDashSet<K, S>(dashmap::DashSet<K, S>);

/// The texts that a set holds.
pub uninterp spec fn path_set(set: dashmap::DashSet<String>) -> Set<Seq<char>>;

/// A set without paths.
pub open spec fn no_paths() -> Set<Seq<char>> {
    Set::empty()
}

/// `dashmap::DashSet::new`: an empty set.
#[verifier::external_body]
fn new_path_set() -> (set: dashmap::DashSet<String>)
    ensures
        path_set(set) == no_paths(),
{
    dashmap::DashSet::new()
}

/// `dashmap::DashSet::insert`: the key is held afterwards.
#[verifier::external_body]
fn insert_path(set: &mut dashmap::DashSet<String>, path: String)
    ensures
        path_set(*final(set)) == path_set(*old(set)).insert(path@),
{
    set.insert(path);
}

/// `dashmap::DashSet::contains`: whether the key is held.
#[verifier::external_body]
fn holds_path(set: &dashmap::DashSet<String>, path: &str) -> (held: bool)
    ensures
        held == path_set(*set).contains(path@),
{
    set.contains(path)
}

/// The chunks sent so far.
pub struct UploadPhase {
    phase_bytes: u64,
    transferred: StringHashMap<u64>,
    terminal: dashmap::DashSet<String>,
}

/// How far the sending has come.
#[verifier::ext_equal]
pub struct UploadPhaseView {
    /// The bytes sent in this phase.
    pub phase_bytes: u64,
    /// The bytes sent of each file.
    pub transferred: Map<Seq<char>, u64>,
    /// The files of which no more is sent.
    pub terminal: Set<Seq<char>>,
}

impl View for UploadPhase {
    type V = UploadPhaseView;

    closed spec fn view(&self) -> UploadPhaseView {
        UploadPhaseView {
            phase_bytes: self.phase_bytes,
            transferred: self.transferred@,
            terminal: path_set(self.terminal),
        }
    }
}

/// The bytes sent of one file.
pub open spec fn sent_of(phase: UploadPhaseView, path: Seq<char>) -> u64 {
    if phase.transferred.contains_key(path) {
        phase.transferred[path]
    } else {
        0
    }
}

/// The job with as many streams as there are chunks to send, up to its limit.
pub open spec fn sending_chunks(before: OutgoingView) -> OutgoingView {
    let active = at_most(before.progress.queued_chunks as int, before.config.concurrency);
    OutgoingView {
        progress: TransferProgress {
            active_chunk_streams: active,
            active_file_streams: active,
            ..before.progress
        },
        ..before
    }
}

/// The job with one chunk fewer to send.
pub open spec fn dequeued(before: OutgoingView) -> OutgoingView {
    OutgoingView {
        progress: TransferProgress {
            queued_chunks: if before.progress.queued_chunks == 0 {
                0
            } else {
                (before.progress.queued_chunks - 1) as u64
            },
            ..before.progress
        },
        ..before
    }
}

/// The job with some bytes more transferred.
pub open spec fn with_transferred(before: OutgoingView, bytes: u64) -> OutgoingView {
    OutgoingView {
        progress: TransferProgress {
            transferred_bytes: saturated(
                before.progress.transferred_bytes as nat + bytes as nat,
            ),
            ..before.progress
        },
        ..before
    }
}

/// The job with `file` as the one worked on last.
pub open spec fn with_current(before: OutgoingView, file: FileProgress) -> OutgoingView {
    OutgoingView {
        progress: TransferProgress { current_file: Some(file), ..before.progress },
        ..before
    }
}

/// What a chunk that was sent changes in the row of its file.
pub enum UploadRecord {
    /// So many bytes of it have been transferred.
    Transferred(u64),
    /// It has failed.
    Failed(FileUpdate),
}

impl UploadPhase {
    /// Starts to send the chunks that are queued.
    pub fn begin(job: &mut OutgoingJob) -> (phase: Self)
        ensures
            phase@ == (UploadPhaseView {
                phase_bytes: 0,
                transferred: Map::empty(),
                terminal: Set::empty(),
            }),
            final(job)@ == sending_chunks(old(job)@),
    {
        job.set_active_chunks();
        UploadPhase {
            phase_bytes: 0,
            transferred: StringHashMap::new(),
            terminal: new_path_set(),
        }
    }

    pub fn phase_bytes(&self) -> (bytes: u64)
        ensures
            bytes == self@.phase_bytes,
    {
        self.phase_bytes
    }

    /// Whether no more of a file is to be sent.
    pub fn is_terminal(&self, path: &str) -> (yes: bool)
        ensures
            yes == self@.terminal.contains(path@),
    {
        holds_path(&self.terminal, path)
    }

    /// Takes the outcome of one chunk: sent, left out, or failed. A failure
    /// that reconnecting may cure ends the attempt, any other only the file;
    /// `message` is how the failure reads.
    pub fn accept(
        &mut self,
        job: &mut OutgoingJob,
        path: &String,
        file_size: u64,
        chunk_size: u64,
        outcome: Result<bool, TransferError>,
        message: String,
    ) -> (result: Result<Option<UploadRecord>, TransferError>)
        requires
            old(job)@.progress.failed_files < u64::MAX,
        ensures
            ({
                let before = old(self)@;
                let after = final(self)@;
                let start = dequeued(old(job)@);
                let done = |changed: OutgoingView|
                    with_current(
                        sending_chunks(changed),
                        FileProgress {
                            relative_path: *path,
                            size: file_size,
                            transferred: sent_of(after, path@),
                        },
                    );
                match (outcome, result) {
                    (Ok(true), Ok(Some(UploadRecord::Transferred(total)))) => {
                        &&& total == saturated(
                            sent_of(before, path@) as nat + chunk_size as nat,
                        )
                        &&& after == (UploadPhaseView {
                            phase_bytes: saturated(
                                before.phase_bytes as nat + chunk_size as nat,
                            ),
                            transferred: before.transferred.insert(path@, total),
                            ..before
                        })
                        &&& final(job)@ == done(with_transferred(start, chunk_size))
                    },
                    (Ok(false), Ok(None)) => after == before && final(job)@ == done(start),
                    (Err(error), Err(passed)) => {
                        &&& error is Cancelled || error.spec_retryable()
                        &&& passed == error
                        &&& after == before
                        &&& final(job)@ == start
                    },
                    (Err(error), Ok(Some(UploadRecord::Failed(update)))) => {
                        &&& !(error is Cancelled) && !error.spec_retryable()
                        &&& after == (UploadPhaseView {
                            terminal: before.terminal.insert(path@),
                            ..before
                        })
                        &&& final(job)@ == done(
                            with_failure(start, path@, FileOperation::Read, message@),
                        )
                        &&& is_failed_update(update, path@, message@)
                    },
                    _ => false,
                }
            }),
    {
        job.dequeue_chunk();
        let record = match outcome {
            Ok(true) => {
                self.phase_bytes = self.phase_bytes.saturating_add(chunk_size);
                job.count_transferred(chunk_size);
                let sent: u64 = match self.transferred.get(path.as_str()) {
                    Some(sent) => *sent,
                    None => 0,
                };
                let total: u64 = sent.saturating_add(chunk_size);
                self.transferred.insert(path.clone(), total);
                Some(UploadRecord::Transferred(total))
            },
            Ok(false) => None,
            Err(error) => {
                let cancelled = match &error {
                    TransferError::Cancelled => true,
                    _ => false,
                };
                if cancelled || error.is_retryable() {
                    return Err(error);
                }
                insert_path(&mut self.terminal, path.clone());
                let text = message.clone();
                job.record_file_failure(path.as_str(), FileOperation::Read, message);
                Some(
                    UploadRecord::Failed(
                        FileUpdate {
                            path: path.clone(),
                            status: JobFileStatus::Failed,
                            error: Some(text),
                        },
                    ),
                )
            },
        };
        let transferred: u64 = match self.transferred.get(path.as_str()) {
            Some(sent) => *sent,
            None => 0,
        };
        job.set_active_chunks();
        job.set_current_file(
            FileProgress { relative_path: path.clone(), size: file_size, transferred },
        );
        Ok(record)
    }

    /// No chunk is being sent any more.
    pub fn finish(self, job: &mut OutgoingJob)
        ensures
            final(job)@ == (OutgoingView {
                progress: TransferProgress {
                    active_chunk_streams: 0,
                    active_file_streams: 0,
                    ..old(job)@.progress
                },
                ..old(job)@
            }),
    {
        job.clear_streams();
    }
}

/// A chunk that is being sent.
pub struct ChunkUpload {
    job_id: Uuid,
    manifest_id: Uuid,
    path: String,
    chunk: ChunkDescriptor,
    region: RegionHash,
}

/// A chunk that was sent whole and that the receiver acknowledged.
pub struct SentChunk {
    job_id: Uuid,
    manifest_id: Uuid,
    path: String,
    chunk: ChunkDescriptor,
    content: Ghost<Seq<u8>>,
}

impl SentChunk {
    /// The chunk of a file that was sent, for a job and with its manifest: what
    /// went out had the hash of the chunk.
    pub closed spec fn is_of(
        self,
        job_id: Uuid,
        manifest_id: Uuid,
        path: Seq<char>,
        chunk: ChunkDescriptor,
    ) -> bool {
        &&& self.job_id == job_id
        &&& self.manifest_id == manifest_id
        &&& self.path@ == path
        &&& self.chunk == chunk
        &&& blake3_digest(self.content@) == chunk.hash@
    }

    /// The bytes that were sent.
    pub closed spec fn content(self) -> Seq<u8> {
        self.content@
    }
}

/// An acknowledgement of exactly this chunk.
pub open spec fn acknowledges(
    response: Response,
    job_id: Uuid,
    manifest_id: Uuid,
    path: Seq<char>,
    chunk: ChunkDescriptor,
) -> bool {
    response matches Response::Acknowledged(Acknowledgement::Chunk(answer)) && {
        &&& answer.job_id == job_id
        &&& answer.manifest_id == manifest_id
        &&& answer.path@ == path
        &&& answer.index == chunk.index
        &&& answer.size == chunk.size
    }
}

/// Starts to send a chunk of a file.
pub fn upload_chunk(job_id: Uuid, manifest_id: Uuid, file: &HashedFile, chunk: ChunkDescriptor) -> (
    upload: ChunkUpload)
    ensures
        upload.wf(),
        upload.spec_job_id() == job_id,
        upload.spec_manifest_id() == manifest_id,
        upload.spec_path() == file.entry.relative_path@,
        upload.spec_chunk() == chunk,
        upload.content() == Seq::<u8>::empty(),
{
    ChunkUpload {
        job_id,
        manifest_id,
        path: file.entry.relative_path.clone(),
        chunk,
        region: RegionHash::new(chunk.size),
    }
}

impl ChunkUpload {
    pub closed spec fn spec_job_id(&self) -> Uuid {
        self.job_id
    }

    pub closed spec fn spec_manifest_id(&self) -> Uuid {
        self.manifest_id
    }

    pub closed spec fn spec_path(&self) -> Seq<char> {
        self.path@
    }

    pub closed spec fn spec_chunk(&self) -> ChunkDescriptor {
        self.chunk
    }

    /// The bytes sent so far.
    pub closed spec fn content(&self) -> Seq<u8> {
        self.region.content()
    }

    pub closed spec fn wf(&self) -> bool {
        self.region.content().len() + self.region.spec_remaining() == self.chunk.size
    }

    /// How many bytes to read next; zero once the chunk has been sent.
    pub open spec fn spec_wanted(&self) -> int {
        let remaining = self.spec_chunk().size - self.content().len();
        if remaining < crate::hashing::TRANSFER_BUFFER_SIZE {
            remaining
        } else {
            crate::hashing::TRANSFER_BUFFER_SIZE as int
        }
    }

    /// The header that goes before the bytes of the chunk.
    pub fn header(&self) -> (header: ChunkHeader)
        ensures
            header.job_id == self.spec_job_id(),
            header.manifest_id == self.spec_manifest_id(),
            header.path@ == self.spec_path(),
            header.index == self.spec_chunk().index,
            header.offset == self.spec_chunk().offset,
            header.size == self.spec_chunk().size,
            header.hash == self.spec_chunk().hash,
    {
        ChunkHeader {
            job_id: self.job_id,
            manifest_id: self.manifest_id,
            path: self.path.clone(),
            index: self.chunk.index,
            offset: self.chunk.offset,
            size: self.chunk.size,
            hash: self.chunk.hash,
        }
    }

    pub fn wanted(&self) -> (bytes: usize)
        requires
            self.wf(),
        ensures
            bytes == self.spec_wanted(),
    {
        self.region.wanted()
    }

    /// Takes what was read from the source and is about to be sent; nothing
    /// read means that the source has ended.
    pub fn absorb(&mut self, block: &[u8]) -> (result: Result<(), TransferError>)
        requires
            old(self).wf(),
            old(self).spec_wanted() > 0,
            block@.len() <= old(self).spec_wanted(),
        ensures
            final(self).wf(),
            final(self).spec_job_id() == old(self).spec_job_id(),
            final(self).spec_manifest_id() == old(self).spec_manifest_id(),
            final(self).spec_path() == old(self).spec_path(),
            final(self).spec_chunk() == old(self).spec_chunk(),
            final(self).content() == old(self).content() + block@,
            match result {
                Ok(_) => block@.len() > 0,
                Err(TransferError::InvalidData(DataFault::SourceEnded { path, index })) => {
                    &&& block@.len() == 0
                    &&& path@ == old(self).spec_path()
                    &&& index == old(self).spec_chunk().index
                },
                Err(_) => false,
            },
    {
        self.region.absorb(block);
        if block.len() == 0 {
            Err(
                TransferError::InvalidData(
                    DataFault::SourceEnded { path: self.path.clone(), index: self.chunk.index },
                ),
            )
        } else {
            Ok(())
        }
    }

    /// Takes the response to the chunk. What was sent must have had the hash
    /// of the chunk, whatever the receiver says, and the receiver must
    /// acknowledge exactly this chunk; `description` is how the response reads.
    pub fn finish(self, response: Response, description: String) -> (result: Result<
        SentChunk,
        TransferError,
    >)
        requires
            self.wf(),
            self.spec_wanted() == 0,
        ensures
            ({
                let unchanged = blake3_digest(self.content()) == self.spec_chunk().hash@;
                let acknowledged = acknowledges(
                    response,
                    self.spec_job_id(),
                    self.spec_manifest_id(),
                    self.spec_path(),
                    self.spec_chunk(),
                );
                match result {
                    Ok(sent) => {
                        &&& unchanged
                        &&& acknowledged
                        &&& sent.content() == self.content()
                        &&& sent.is_of(
                            self.spec_job_id(),
                            self.spec_manifest_id(),
                            self.spec_path(),
                            self.spec_chunk(),
                        )
                    },
                    Err(error) => if !unchanged {
                        error matches TransferError::InvalidData(
                            DataFault::SourceChangedInChunk { path, index },
                        ) && path@ == self.spec_path() && index == self.spec_chunk().index
                    } else {
                        &&& !acknowledged
                        &&& match response {
                            Response::Error(remote) => error == TransferError::spec_from_remote(
                                remote,
                            ),
                            _ => error == TransferError::InvalidData(
                                DataFault::UnexpectedResponse { description },
                            ),
                        }
                    },
                }
            }),
    {
        let expected = self.chunk.hash;
        let ghost content = self.content();
        let actual = self.region.finish();
        assert(actual@ == expected@ ==> actual =~= expected);
        if !same_digest(&actual, &expected) {
            return Err(
                TransferError::InvalidData(
                    DataFault::SourceChangedInChunk { path: self.path, index: self.chunk.index },
                ),
            );
        }
        let acknowledged = match &response {
            Response::Acknowledged(Acknowledgement::Chunk(answer)) => answer.job_id == self.job_id
                && answer.manifest_id == self.manifest_id && answer.path == self.path
                && answer.index == self.chunk.index && answer.size == self.chunk.size,
            _ => false,
        };
        if acknowledged {
            return Ok(
                SentChunk {
                    job_id: self.job_id,
                    manifest_id: self.manifest_id,
                    path: self.path,
                    chunk: self.chunk,
                    content: Ghost(content),
                },
            );
        }
        match response {
            Response::Error(remote) => Err(TransferError::from(remote)),
            _ => Err(TransferError::InvalidData(DataFault::UnexpectedResponse { description })),
        }
    }
}

/// A source file that was looked at again and found as it was.
pub struct CheckedSource {
    path: Ghost<Seq<char>>,
    metadata: Ghost<SourceMetadata>,
    hash: Ghost<Option<ContentHash>>,
}

impl CheckedSource {
    /// The path of the file below the source.
    pub closed spec fn spec_path(self) -> Seq<char> {
        self.path@
    }

    /// The metadata that the file was found with.
    pub closed spec fn spec_metadata(self) -> SourceMetadata {
        self.metadata@
    }

    /// The hash that the file was found with, where it was read.
    pub closed spec fn spec_hash(self) -> Option<ContentHash> {
        self.hash@
    }

    /// The file was found unchanged, and where content is verified, with the
    /// hash that it had.
    pub open spec fn is_of(self, file: HashedFile, mode: VerificationMode) -> bool {
        &&& self.spec_path() == file.entry.relative_path@
        &&& self.spec_metadata() == file.entry.spec_metadata()
        &&& mode is Verified ==> self.spec_hash() == Some(file.hash)
    }
}

/// A look at a source file before it is sent or finalized: it must not have
/// changed since it was hashed.
pub fn check_source_unchanged(
    path: &str,
    file: &HashedFile,
    current: Result<SourceMetadata, CoreError>,
) -> (result: Result<CheckedSource, CoreError>)
    ensures
        match (current, result) {
            (Err(cause), Err(error)) => error == cause,
            (Err(_), Ok(_)) => false,
            (Ok(now), Ok(source)) => {
                &&& now == file.entry.spec_metadata()
                &&& source.is_of(*file, VerificationMode::Fast)
                &&& source.spec_hash() is None
            },
            (Ok(now), Err(error)) => is_change(error, path@, file.entry.spec_metadata(), now),
        },
{
    match ensure_source_unchanged(path, &file.entry.source_metadata(), current) {
        Ok(_) => Ok(
            CheckedSource {
                path: Ghost(file.entry.relative_path@),
                metadata: Ghost(file.entry.spec_metadata()),
                hash: Ghost(None),
            },
        ),
        Err(error) => Err(error),
    }
}

/// The last look at a source file that was found unchanged and then hashed again:
/// it must not have changed meanwhile, and must still have its hash.
pub fn verify_source_snapshot(
    path: &str,
    file: &HashedFile,
    source: CheckedSource,
    actual: &ContentHash,
    current: Result<SourceMetadata, CoreError>,
) -> (result: Result<CheckedSource, CoreError>)
    requires
        source.is_of(*file, VerificationMode::Fast),
    ensures
        match (current, result) {
            (Err(cause), Err(error)) => error == cause,
            (Err(_), Ok(_)) => false,
            (Ok(now), Ok(checked)) => {
                &&& now == file.entry.spec_metadata()
                &&& *actual == file.hash
                &&& checked.is_of(*file, VerificationMode::Verified)
            },
            (Ok(now), Err(CoreError::HashMismatch { path: p, expected, actual: a })) => {
                &&& now == file.entry.spec_metadata()
                &&& *actual != file.hash
                &&& p@ == path@ && expected == file.hash && a == *actual
            },
            (Ok(now), Err(error)) => is_change(error, path@, file.entry.spec_metadata(), now),
        },
{
    if let Err(error) = ensure_source_unchanged(path, &file.entry.source_metadata(), current) {
        return Err(error);
    }
    if !same_digest(actual, &file.hash) {
        return Err(
            CoreError::HashMismatch { path: path.to_owned(), expected: file.hash, actual: *actual },
        );
    }
    Ok(CheckedSource { path: source.path, metadata: source.metadata, hash: Ghost(Some(*actual)) })
}

/// The acknowledgement that the receiver sends for a chunk ends its upload.
pub proof fn law_chunk_acknowledgement_is_accepted(
    header: ChunkHeader,
    answer: ChunkAcknowledgement,
    chunk: ChunkDescriptor,
)
    requires
        header.index == chunk.index,
        header.size == chunk.size,
        answer == (ChunkAcknowledgement {
            job_id: header.job_id,
            manifest_id: header.manifest_id,
            path: header.path,
            index: header.index,
            size: header.size,
        }),
    ensures
        acknowledges(
            Response::Acknowledged(Acknowledgement::Chunk(answer)),
            header.job_id,
            header.manifest_id,
            header.path@,
            chunk,
        ),
{
}

/// A job never has more streams than it may have nor than there is work, and as many as
/// both allow; a job that may have none still hashes one file at a time.
pub proof fn law_streams_follow_the_work(before: OutgoingView, remaining: int)
    requires
        remaining >= 0,
    ensures
        ({
            let hashing = hashing_files(before, remaining).progress;
            let sending = sending_chunks(before).progress;
            let limit = before.config.concurrency;
            let queued = before.progress.queued_chunks;
            &&& hashing.active_file_streams <= remaining
            &&& hashing.active_file_streams <= limit || limit == 0 && hashing.active_file_streams
                == 1 || remaining == 0
            &&& remaining > 0 ==> hashing.active_file_streams >= 1
            &&& hashing.active_file_streams == remaining || hashing.active_file_streams == limit
                || limit == 0 && hashing.active_file_streams == 1
            &&& sending.active_chunk_streams <= limit && sending.active_chunk_streams <= queued
            &&& sending.active_chunk_streams == limit || sending.active_chunk_streams == queued
            &&& sending.active_file_streams == sending.active_chunk_streams
            &&& sending.queued_chunks == queued
        }),
{
}

/// A chunk that was sent leaves the queue and its bytes are counted; nothing else of
/// the progress changes, and a queue that is empty stays so.
pub proof fn law_sent_chunks_are_counted(before: OutgoingView, bytes: u64)
    requires
        before.progress.transferred_bytes + bytes <= u64::MAX,
    ensures
        ({
            let left = dequeued(before);
            let counted = with_transferred(before, bytes);
            &&& before.progress.queued_chunks > 0 ==> left.progress.queued_chunks
                == before.progress.queued_chunks - 1
            &&& before.progress.queued_chunks == 0 ==> left == before
            &&& left.progress.transferred_bytes == before.progress.transferred_bytes
            &&& counted.progress.transferred_bytes == before.progress.transferred_bytes + bytes
            &&& counted.progress.queued_chunks == before.progress.queued_chunks
            &&& counted.progress.reused_bytes == before.progress.reused_bytes
            &&& counted.failed == before.failed && left.failed == before.failed
            &&& counted.errors == before.errors && left.errors == before.errors
        }),
{
}

/// Nothing but the acknowledgement of the very chunk ends its upload.
pub proof fn law_what_acknowledges_a_chunk(
    answer: ChunkAcknowledgement,
    job_id: Uuid,
    manifest_id: Uuid,
    path: Seq<char>,
    chunk: ChunkDescriptor,
    other: Response,
)
    requires
        !(other matches Response::Acknowledged(Acknowledgement::Chunk(_))),
    ensures
        acknowledges(
            Response::Acknowledged(Acknowledgement::Chunk(answer)),
            job_id,
            manifest_id,
            path,
            chunk,
        ) <==> answer.job_id == job_id && answer.manifest_id == manifest_id && answer.path@ == path
            && answer.index == chunk.index && answer.size == chunk.size,
        !acknowledges(other, job_id, manifest_id, path, chunk),
{
}

} // verus!
