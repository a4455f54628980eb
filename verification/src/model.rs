//! The domain model: files, manifests, hashes, jobs and their progress.

use crate::ids::Uuid;
use crate::path::{validate_wire_relative_path, PathValidationError};
use vstd::prelude::*;

verus! {

pub const DEFAULT_CHUNK_SIZE: u64 = 4 * 1024 * 1024;

pub type ContentHash = [u8; 32];

#[derive(Debug, Clone, Copy, PartialEq, Eq, Structural)]
pub enum VerificationMode {
    Fast,
    Verified,
}

impl Default for VerificationMode {
    fn default() -> (mode: Self)
        ensures
            mode == VerificationMode::Verified,
    {
        VerificationMode::Verified
    }
}

#[derive(Debug, Clone, Copy, PartialEq, Eq, Structural)]
pub enum JobStatus {
    Pending,
    Scanning,
    Transferring,
    Verifying,
    Paused,
    Completed,
    CompletedWithErrors,
    Failed,
    Cancelled,
}

impl Default for JobStatus {
    fn default() -> (status: Self)
        ensures
            status == JobStatus::Pending,
    {
        JobStatus::Pending
    }
}

#[derive(Debug, Clone, Copy, PartialEq, Eq, Structural)]
pub struct TransferConfig {
    pub verification_mode: VerificationMode,
    pub chunk_size: u64,
    pub concurrency: u32,
    pub retry_limit: u32,
}

impl Default for TransferConfig {
    fn default() -> (config: Self)
        ensures
            config == (TransferConfig {
                verification_mode: VerificationMode::Verified,
                chunk_size: DEFAULT_CHUNK_SIZE,
                concurrency: 32,
                retry_limit: 6,
            }),
    {
        TransferConfig {
            verification_mode: VerificationMode::Verified,
            chunk_size: DEFAULT_CHUNK_SIZE,
            concurrency: 32,
            retry_limit: 6,
        }
    }
}

#[derive(Debug, Clone, PartialEq, Eq)]
pub struct FileProgress {
    pub relative_path: String,
    pub size: u64,
    pub transferred: u64,
}

#[derive(Debug, Clone, PartialEq, Eq)]
pub struct TransferProgress {
    pub total_files: u64,
    pub completed_files: u64,
    pub total_bytes: u64,
    pub transferred_bytes: u64,
    pub reused_bytes: u64,
    pub skipped_files: u64,
    pub transferred_files: u64,
    pub failed_files: u64,
    pub symlinks_skipped: u64,
    pub network_bytes_per_second: u64,
    pub read_bytes_per_second: u64,
    pub write_bytes_per_second: u64,
    pub hash_bytes_per_second: u64,
    pub active_file_streams: u32,
    pub active_chunk_streams: u32,
    pub queued_chunks: u64,
    pub current_concurrency: u32,
    pub current_file: Option<FileProgress>,
}

/// Nothing counted yet.
pub open spec fn no_progress() -> TransferProgress {
    TransferProgress {
        total_files: 0,
        completed_files: 0,
        total_bytes: 0,
        transferred_bytes: 0,
        reused_bytes: 0,
        skipped_files: 0,
        transferred_files: 0,
        failed_files: 0,
        symlinks_skipped: 0,
        network_bytes_per_second: 0,
        read_bytes_per_second: 0,
        write_bytes_per_second: 0,
        hash_bytes_per_second: 0,
        active_file_streams: 0,
        active_chunk_streams: 0,
        queued_chunks: 0,
        current_concurrency: 0,
        current_file: None,
    }
}

impl Default for TransferProgress {
    fn default() -> (progress: Self)
        ensures
            progress == no_progress(),
    {
        TransferProgress {
            total_files: 0,
            completed_files: 0,
            total_bytes: 0,
            transferred_bytes: 0,
            reused_bytes: 0,
            skipped_files: 0,
            transferred_files: 0,
            failed_files: 0,
            symlinks_skipped: 0,
            network_bytes_per_second: 0,
            read_bytes_per_second: 0,
            write_bytes_per_second: 0,
            hash_bytes_per_second: 0,
            active_file_streams: 0,
            active_chunk_streams: 0,
            queued_chunks: 0,
            current_concurrency: 0,
            current_file: None,
        }
    }
}

impl TransferProgress {
    /// Another progress that says the same.
    pub fn duplicate(&self) -> (copy: Self)
        ensures
            copy == *self,
    {
        let current_file = match &self.current_file {
            Some(file) => Some(
                FileProgress {
                    relative_path: file.relative_path.clone(),
                    size: file.size,
                    transferred: file.transferred,
                },
            ),
            None => None,
        };
        TransferProgress {
            total_files: self.total_files,
            completed_files: self.completed_files,
            total_bytes: self.total_bytes,
            transferred_bytes: self.transferred_bytes,
            reused_bytes: self.reused_bytes,
            skipped_files: self.skipped_files,
            transferred_files: self.transferred_files,
            failed_files: self.failed_files,
            symlinks_skipped: self.symlinks_skipped,
            network_bytes_per_second: self.network_bytes_per_second,
            read_bytes_per_second: self.read_bytes_per_second,
            write_bytes_per_second: self.write_bytes_per_second,
            hash_bytes_per_second: self.hash_bytes_per_second,
            active_file_streams: self.active_file_streams,
            active_chunk_streams: self.active_chunk_streams,
            queued_chunks: self.queued_chunks,
            current_concurrency: self.current_concurrency,
            current_file,
        }
    }
}

#[derive(Debug, Clone, Copy, PartialEq, Eq, Structural)]
pub enum FileOperation {
    Scan,
    Metadata,
    Read,
    Write,
    Verify,
    Finalize,
}

#[derive(Debug, Clone, PartialEq, Eq)]
pub struct FileError {
    pub relative_path: Option<String>,
    pub operation: FileOperation,
    pub message: String,
}

impl FileError {
    pub fn new(relative_path: Option<String>, operation: FileOperation, message: String) -> (error:
        Self)
        ensures
            error == (FileError { relative_path, operation, message }),
    {
        FileError { relative_path, operation, message }
    }

    /// The error is about `path`, arose in `operation` and says `message`.
    pub open spec fn is(
        self,
        path: Option<Seq<char>>,
        operation: FileOperation,
        message: Seq<char>,
    ) -> bool {
        &&& crate::text::view_of(self.relative_path) == path
        &&& self.operation == operation
        &&& self.message@ == message
    }
}

#[derive(Debug, Clone, Copy, PartialEq, Eq, Structural)]
pub enum FileType {
    File,
    Directory,
}

#[derive(Debug, Clone, Copy, PartialEq, Eq, Structural)]
pub struct SourceMetadata {
    pub size: u64,
    pub mtime_ns: i64,
    pub file_type: FileType,
    pub read_only: bool,
}

#[derive(Debug, Clone, PartialEq, Eq)]
pub struct ManifestEntry {
    pub relative_path: String,
    pub size: u64,
    pub mtime_ns: i64,
    pub file_type: FileType,
    pub read_only: bool,
}

/// What a manifest entry says.
pub struct EntryView {
    pub path: Seq<char>,
    pub metadata: SourceMetadata,
}

impl View for ManifestEntry {
    type V = EntryView;

    open spec fn view(&self) -> EntryView {
        EntryView { path: self.relative_path@, metadata: self.spec_metadata() }
    }
}

impl ManifestEntry {
    pub open spec fn spec_metadata(self) -> SourceMetadata {
        SourceMetadata {
            size: self.size,
            mtime_ns: self.mtime_ns,
            file_type: self.file_type,
            read_only: self.read_only,
        }
    }

    /// An entry for a path that may travel between devices.
    pub fn new(
        relative_path: String,
        size: u64,
        mtime_ns: i64,
        file_type: FileType,
        read_only: bool,
    ) -> (result: Result<Self, PathValidationError>)
        ensures
            match result {
                Ok(entry) => crate::path::is_wire_path(relative_path@) && entry == (ManifestEntry {
                    relative_path,
                    size,
                    mtime_ns,
                    file_type,
                    read_only,
                }),
                Err(error) => crate::path::wire_path_error(relative_path@) == Some(error),
            },
    {
        match validate_wire_relative_path(&relative_path) {
            Ok(_) => Ok(ManifestEntry { relative_path, size, mtime_ns, file_type, read_only }),
            Err(error) => Err(error),
        }
    }

    pub fn source_metadata(&self) -> (metadata: SourceMetadata)
        ensures
            metadata == self.spec_metadata(),
    {
        SourceMetadata {
            size: self.size,
            mtime_ns: self.mtime_ns,
            file_type: self.file_type,
            read_only: self.read_only,
        }
    }

    /// Another entry that says the same.
    pub fn duplicate(&self) -> (copy: Self)
        ensures
            copy == *self,
    {
        ManifestEntry {
            relative_path: self.relative_path.clone(),
            size: self.size,
            mtime_ns: self.mtime_ns,
            file_type: self.file_type,
            read_only: self.read_only,
        }
    }

    /// Whether two entries say the same.
    pub fn same_as(&self, other: &Self) -> (same: bool)
        ensures
            same == (self@ == other@),
    {
        self.relative_path == other.relative_path && self.source_metadata()
            == other.source_metadata()
    }
}

#[derive(Debug, Clone, Copy, PartialEq, Eq)]
pub struct ChunkDescriptor {
    pub index: u64,
    pub offset: u64,
    pub size: u64,
    pub hash: ContentHash,
}

#[derive(Debug, Clone, PartialEq, Eq)]
pub struct HashedFile {
    pub entry: ManifestEntry,
    pub hash: ContentHash,
    pub chunks: Vec<ChunkDescriptor>,
}

/// What a hashed file says.
pub struct HashedFileView {
    pub entry: EntryView,
    pub hash: ContentHash,
    pub chunks: Seq<ChunkDescriptor>,
}

impl View for HashedFile {
    type V = HashedFileView;

    open spec fn view(&self) -> HashedFileView {
        HashedFileView { entry: self.entry@, hash: self.hash, chunks: self.chunks@ }
    }
}

pub fn same_chunk(a: &ChunkDescriptor, b: &ChunkDescriptor) -> (same: bool)
    ensures
        same == (*a == *b),
{
    a.index == b.index && a.offset == b.offset && a.size == b.size && crate::digest::same_digest(
        &a.hash,
        &b.hash,
    )
}

pub fn same_chunks(a: &[ChunkDescriptor], b: &[ChunkDescriptor]) -> (same: bool)
    ensures
        same == (a@ == b@),
{
    if a.len() != b.len() {
        return false;
    }
    let mut i: usize = 0;
    while i < a.len()
        invariant
            i <= a.len(),
            a.len() == b.len(),
            forall|k: int| 0 <= k < i ==> a@[k] == b@[k],
        decreases a.len() - i,
    {
        if !same_chunk(&a[i], &b[i]) {
            return false;
        }
        i += 1;
    }
    assert(a@ =~= b@);
    true
}

pub fn copy_chunks(chunks: &[ChunkDescriptor]) -> (copy: Vec<ChunkDescriptor>)
    ensures
        copy@ == chunks@,
{
    let mut copy: Vec<ChunkDescriptor> = Vec::new();
    let mut i: usize = 0;
    while i < chunks.len()
        invariant
            i <= chunks.len(),
            copy@ == chunks@.take(i as int),
        decreases chunks.len() - i,
    {
        copy.push(chunks[i]);
        i += 1;
        assert(chunks@.take(i as int) =~= chunks@.take(i - 1).push(chunks@[i - 1]));
    }
    assert(chunks@.take(i as int) =~= chunks@);
    copy
}

impl HashedFile {
    /// Whether two hashed files say the same.
    pub fn same_as(&self, other: &Self) -> (same: bool)
        ensures
            same == (self@ == other@),
    {
        self.entry.same_as(&other.entry) && crate::digest::same_digest(&self.hash, &other.hash)
            && same_chunks(&self.chunks, &other.chunks)
    }

    /// Another hashed file that says the same.
    pub fn duplicate(&self) -> (copy: Self)
        ensures
            copy@ == self@,
            copy.entry == self.entry,
    {
        HashedFile {
            entry: self.entry.duplicate(),
            hash: self.hash,
            chunks: copy_chunks(&self.chunks),
        }
    }
}

#[derive(Debug, Clone, PartialEq, Eq)]
pub struct TransferJob {
    pub id: Uuid,
    pub peer_id: Option<Uuid>,
    pub source_root: String,
    pub destination_root: String,
    pub config: TransferConfig,
    pub status: JobStatus,
    pub progress: TransferProgress,
    pub errors: Vec<FileError>,
}

impl TransferJob {
    /// A job just made: no peer, nothing done, nothing failed.
    pub open spec fn is_fresh(
        self,
        source_root: Seq<char>,
        destination_root: Seq<char>,
        config: TransferConfig,
    ) -> bool {
        &&& self.peer_id is None
        &&& self.source_root@ == source_root
        &&& self.destination_root@ == destination_root
        &&& self.config == config
        &&& self.status == JobStatus::Pending
        &&& self.progress == no_progress()
        &&& self.errors@ == Seq::<FileError>::empty()
    }

    /// A pending job under a random identifier.
    pub fn new(source_root: &str, destination_root: &str, config: TransferConfig) -> (job: Self)
        ensures
            crate::ids::is_random(job.id),
            job.is_fresh(source_root@, destination_root@, config),
    {
        Self::with_id(crate::ids::Uuid::new_v4(), source_root, destination_root, config)
    }

    /// A pending job under a given identifier.
    pub fn with_id(
        id: Uuid,
        source_root: &str,
        destination_root: &str,
        config: TransferConfig,
    ) -> (job: Self)
        ensures
            job.id == id,
            job.is_fresh(source_root@, destination_root@, config),
    {
        TransferJob {
            id,
            peer_id: None,
            source_root: source_root.to_owned(),
            destination_root: destination_root.to_owned(),
            config,
            status: JobStatus::Pending,
            progress: TransferProgress::default(),
            errors: Vec::new(),
        }
    }

    /// Jobs without a source are received from a peer.
    pub open spec fn spec_incoming(self) -> bool {
        self.source_root@.len() == 0
    }

    pub fn is_incoming(&self) -> (yes: bool)
        ensures
            yes == self.spec_incoming(),
    {
        self.source_root.as_str().is_empty()
    }
}

} // verus!
