//! Persisted records and the texts of their states.

use crate::ids::Uuid;
use crate::model::{ChunkDescriptor, ContentHash, JobStatus, TransferJob};
use crate::text::is_text;
use vstd::prelude::*;

verus! {

#[derive(Debug, Clone, PartialEq, Eq)]
pub struct DiscoveredDevice {
    pub device_id: Uuid,
    pub name: String,
    pub public_key: Option<Vec<u8>>,
    pub address: String,
    pub first_seen: i64,
    pub last_seen: i64,
}

#[derive(Debug, Clone, PartialEq, Eq)]
pub struct TrustedPeer {
    pub device_id: Uuid,
    pub name: String,
    pub public_key: Vec<u8>,
    pub address: String,
    pub trusted_at: i64,
    pub last_seen: i64,
}

/// Persisted job state, extending the core states with crash interruption.
#[derive(Debug, Clone, Copy, PartialEq, Eq, Structural)]
pub enum StoredJobStatus {
    Pending,
    Scanning,
    Transferring,
    Verifying,
    Paused,
    Completed,
    CompletedWithErrors,
    Failed,
    Cancelled,
    Interrupted,
}

/// The text that stands for a job state.
pub open spec fn job_status_text(status: StoredJobStatus) -> Seq<char> {
    match status {
        StoredJobStatus::Pending => "pending"@,
        StoredJobStatus::Scanning => "scanning"@,
        StoredJobStatus::Transferring => "transferring"@,
        StoredJobStatus::Verifying => "verifying"@,
        StoredJobStatus::Paused => "paused"@,
        StoredJobStatus::Completed => "completed"@,
        StoredJobStatus::CompletedWithErrors => "completed_with_errors"@,
        StoredJobStatus::Failed => "failed"@,
        StoredJobStatus::Cancelled => "cancelled"@,
        StoredJobStatus::Interrupted => "interrupted"@,
    }
}

/// The core state that a persisted one stands for.
pub open spec fn core_status_of(status: StoredJobStatus) -> Option<JobStatus> {
    match status {
        StoredJobStatus::Pending => Some(JobStatus::Pending),
        StoredJobStatus::Scanning => Some(JobStatus::Scanning),
        StoredJobStatus::Transferring => Some(JobStatus::Transferring),
        StoredJobStatus::Verifying => Some(JobStatus::Verifying),
        StoredJobStatus::Paused => Some(JobStatus::Paused),
        StoredJobStatus::Completed => Some(JobStatus::Completed),
        StoredJobStatus::CompletedWithErrors => Some(JobStatus::CompletedWithErrors),
        StoredJobStatus::Failed => Some(JobStatus::Failed),
        StoredJobStatus::Cancelled => Some(JobStatus::Cancelled),
        StoredJobStatus::Interrupted => None,
    }
}

/// The persisted form of a core state.
pub open spec fn stored_status_of(status: JobStatus) -> StoredJobStatus {
    match status {
        JobStatus::Pending => StoredJobStatus::Pending,
        JobStatus::Scanning => StoredJobStatus::Scanning,
        JobStatus::Transferring => StoredJobStatus::Transferring,
        JobStatus::Verifying => StoredJobStatus::Verifying,
        JobStatus::Paused => StoredJobStatus::Paused,
        JobStatus::Completed => StoredJobStatus::Completed,
        JobStatus::CompletedWithErrors => StoredJobStatus::CompletedWithErrors,
        JobStatus::Failed => StoredJobStatus::Failed,
        JobStatus::Cancelled => StoredJobStatus::Cancelled,
    }
}

proof fn lemma_job_status_texts_differ(a: StoredJobStatus, b: StoredJobStatus)
    requires
        job_status_text(a) == job_status_text(b),
    ensures
        a == b,
{
    reveal_strlit("pending");
    reveal_strlit("scanning");
    reveal_strlit("transferring");
    reveal_strlit("verifying");
    reveal_strlit("paused");
    reveal_strlit("completed");
    reveal_strlit("completed_with_errors");
    reveal_strlit("failed");
    reveal_strlit("cancelled");
    reveal_strlit("interrupted");
    let (x, y) = (job_status_text(a), job_status_text(b));
    assert(x[0] == y[0] && x[1] == y[1] && x.len() == y.len());
}

/// The state that a text stands for, if any.
pub open spec fn job_status_named(text: Seq<char>) -> Option<StoredJobStatus> {
    if exists|s: StoredJobStatus| #[trigger] job_status_text(s) == text {
        Some(choose|s: StoredJobStatus| #[trigger] job_status_text(s) == text)
    } else {
        None
    }
}

/// A state is the one that its text stands for.
pub proof fn lemma_job_status_named(status: StoredJobStatus)
    ensures
        job_status_named(job_status_text(status)) == Some(status),
{
    let text = job_status_text(status);
    let found = choose|s: StoredJobStatus| #[trigger] job_status_text(s) == text;
    assert(job_status_text(found) == text);
    lemma_job_status_texts_differ(found, status);
}

impl StoredJobStatus {
    pub fn as_str(self) -> (text: &'static str)
        ensures
            text@ == job_status_text(self),
    {
        match self {
            StoredJobStatus::Pending => "pending",
            StoredJobStatus::Scanning => "scanning",
            StoredJobStatus::Transferring => "transferring",
            StoredJobStatus::Verifying => "verifying",
            StoredJobStatus::Paused => "paused",
            StoredJobStatus::Completed => "completed",
            StoredJobStatus::CompletedWithErrors => "completed_with_errors",
            StoredJobStatus::Failed => "failed",
            StoredJobStatus::Cancelled => "cancelled",
            StoredJobStatus::Interrupted => "interrupted",
        }
    }

    /// The state that a text stands for.
    pub fn from_str(value: &str) -> (status: Option<Self>)
        ensures
            status == job_status_named(value@),
    {
        proof {
            assert forall|s: StoredJobStatus| #[trigger] job_status_text(s) == value@ implies 
                job_status_named(value@) == Some(s) by {
                lemma_job_status_named(s);
            }
        }
        if is_text(value, "pending") {
            assert(job_status_text(StoredJobStatus::Pending) == value@);
            Some(StoredJobStatus::Pending)
        } else if is_text(value, "scanning") {
            assert(job_status_text(StoredJobStatus::Scanning) == value@);
            Some(StoredJobStatus::Scanning)
        } else if is_text(value, "transferring") {
            assert(job_status_text(StoredJobStatus::Transferring) == value@);
            Some(StoredJobStatus::Transferring)
        } else if is_text(value, "verifying") {
            assert(job_status_text(StoredJobStatus::Verifying) == value@);
            Some(StoredJobStatus::Verifying)
        } else if is_text(value, "paused") {
            assert(job_status_text(StoredJobStatus::Paused) == value@);
            Some(StoredJobStatus::Paused)
        } else if is_text(value, "completed") {
            assert(job_status_text(StoredJobStatus::Completed) == value@);
            Some(StoredJobStatus::Completed)
        } else if is_text(value, "completed_with_errors") {
            assert(job_status_text(StoredJobStatus::CompletedWithErrors) == value@);
            Some(StoredJobStatus::CompletedWithErrors)
        } else if is_text(value, "failed") {
            assert(job_status_text(StoredJobStatus::Failed) == value@);
            Some(StoredJobStatus::Failed)
        } else if is_text(value, "cancelled") {
            assert(job_status_text(StoredJobStatus::Cancelled) == value@);
            Some(StoredJobStatus::Cancelled)
        } else if is_text(value, "interrupted") {
            assert(job_status_text(StoredJobStatus::Interrupted) == value@);
            Some(StoredJobStatus::Interrupted)
        } else {
            None
        }
    }

    /// The status of the job itself, where the stored one is such a status.
    pub fn core_status(self) -> (status: Option<JobStatus>)
        ensures
            status == core_status_of(self),
    {
        match self {
            StoredJobStatus::Pending => Some(JobStatus::Pending),
            StoredJobStatus::Scanning => Some(JobStatus::Scanning),
            StoredJobStatus::Transferring => Some(JobStatus::Transferring),
            StoredJobStatus::Verifying => Some(JobStatus::Verifying),
            StoredJobStatus::Paused => Some(JobStatus::Paused),
            StoredJobStatus::Completed => Some(JobStatus::Completed),
            StoredJobStatus::CompletedWithErrors => Some(JobStatus::CompletedWithErrors),
            StoredJobStatus::Failed => Some(JobStatus::Failed),
            StoredJobStatus::Cancelled => Some(JobStatus::Cancelled),
            StoredJobStatus::Interrupted => None,
        }
    }
}

impl From<JobStatus> for StoredJobStatus {
    fn from(value: JobStatus) -> (status: Self) {
        match value {
            JobStatus::Pending => StoredJobStatus::Pending,
            JobStatus::Scanning => StoredJobStatus::Scanning,
            JobStatus::Transferring => StoredJobStatus::Transferring,
            JobStatus::Verifying => StoredJobStatus::Verifying,
            JobStatus::Paused => StoredJobStatus::Paused,
            JobStatus::Completed => StoredJobStatus::Completed,
            JobStatus::CompletedWithErrors => StoredJobStatus::CompletedWithErrors,
            JobStatus::Failed => StoredJobStatus::Failed,
            JobStatus::Cancelled => StoredJobStatus::Cancelled,
        }
    }
}

impl vstd::std_specs::convert::FromSpecImpl<JobStatus> for StoredJobStatus {
    open spec fn obeys_from_spec() -> bool {
        true
    }

    open spec fn from_spec(value: JobStatus) -> StoredJobStatus {
        stored_status_of(value)
    }
}

/// Reading the text of a state gives the state, and a stored core state stands
/// for itself; only an interruption stands for no core state.
pub proof fn law_job_status_roundtrip(status: StoredJobStatus, core: JobStatus)
    ensures
        job_status_named(job_status_text(status)) == Some(status),
        core_status_of(stored_status_of(core)) == Some(core),
        core_status_of(status) matches Some(c) ==> stored_status_of(c) == status,
        core_status_of(status) is None <==> status == StoredJobStatus::Interrupted,
{
    lemma_job_status_named(status);
}

/// The job as it is once its stored state is `status`: in the core state that this
/// stands for, or, where it stands for none, in the one that it was in.
pub open spec fn job_in(job: TransferJob, status: StoredJobStatus) -> TransferJob {
    match core_status_of(status) {
        Some(core) => TransferJob { status: core, ..job },
        None => job,
    }
}

/// The job to store once its stored state is `status`.
pub fn move_job(job: TransferJob, status: StoredJobStatus) -> (moved: TransferJob)
    ensures
        moved == job_in(job, status),
{
    match status.core_status() {
        Some(core) => TransferJob { status: core, ..job },
        None => job,
    }
}

/// A core transfer job plus persistence-only state and Unix-millisecond times.
///
/// For an interrupted record, `job.status` retains its prior active core state
/// so that the phase to resume can be told.
#[derive(Debug, Clone, PartialEq, Eq)]
pub struct JobRecord {
    pub job: TransferJob,
    pub status: StoredJobStatus,
    pub error: Option<String>,
    pub created_at: i64,
    pub updated_at: i64,
}

#[derive(Debug, Clone, Copy, PartialEq, Eq, Structural)]
pub enum JobFileStatus {
    Pending,
    Running,
    Completed,
    Failed,
    Skipped,
    Interrupted,
}

/// The text that stands for the state of a file.
pub open spec fn file_status_text(status: JobFileStatus) -> Seq<char> {
    match status {
        JobFileStatus::Pending => "pending"@,
        JobFileStatus::Running => "running"@,
        JobFileStatus::Completed => "completed"@,
        JobFileStatus::Failed => "failed"@,
        JobFileStatus::Skipped => "skipped"@,
        JobFileStatus::Interrupted => "interrupted"@,
    }
}

/// The state of a file that a text stands for, if any.
pub open spec fn file_status_named(text: Seq<char>) -> Option<JobFileStatus> {
    if exists|s: JobFileStatus| #[trigger] file_status_text(s) == text {
        Some(choose|s: JobFileStatus| #[trigger] file_status_text(s) == text)
    } else {
        None
    }
}

proof fn lemma_file_status_texts_differ(a: JobFileStatus, b: JobFileStatus)
    requires
        file_status_text(a) == file_status_text(b),
    ensures
        a == b,
{
    reveal_strlit("pending");
    reveal_strlit("running");
    reveal_strlit("completed");
    reveal_strlit("failed");
    reveal_strlit("skipped");
    reveal_strlit("interrupted");
    let (x, y) = (file_status_text(a), file_status_text(b));
    assert(x[0] == y[0]);
}

impl JobFileStatus {
    pub fn as_str(self) -> (text: &'static str)
        ensures
            text@ == file_status_text(self),
    {
        match self {
            JobFileStatus::Pending => "pending",
            JobFileStatus::Running => "running",
            JobFileStatus::Completed => "completed",
            JobFileStatus::Failed => "failed",
            JobFileStatus::Skipped => "skipped",
            JobFileStatus::Interrupted => "interrupted",
        }
    }

    /// The state that a text stands for.
    pub fn from_str(value: &str) -> (status: Option<Self>)
        ensures
            status == file_status_named(value@),
    {
        proof {
            assert forall|s: JobFileStatus| #[trigger] file_status_text(s) == value@ implies 
                file_status_named(value@) == Some(s) by {
                law_file_status_roundtrip(s);
            }
        }
        if is_text(value, "pending") {
            assert(file_status_text(JobFileStatus::Pending) == value@);
            Some(JobFileStatus::Pending)
        } else if is_text(value, "running") {
            assert(file_status_text(JobFileStatus::Running) == value@);
            Some(JobFileStatus::Running)
        } else if is_text(value, "completed") {
            assert(file_status_text(JobFileStatus::Completed) == value@);
            Some(JobFileStatus::Completed)
        } else if is_text(value, "failed") {
            assert(file_status_text(JobFileStatus::Failed) == value@);
            Some(JobFileStatus::Failed)
        } else if is_text(value, "skipped") {
            assert(file_status_text(JobFileStatus::Skipped) == value@);
            Some(JobFileStatus::Skipped)
        } else if is_text(value, "interrupted") {
            assert(file_status_text(JobFileStatus::Interrupted) == value@);
            Some(JobFileStatus::Interrupted)
        } else {
            None
        }
    }
}

/// Reading the text of a file's state gives the state.
pub proof fn law_file_status_roundtrip(status: JobFileStatus)
    ensures
        file_status_named(file_status_text(status)) == Some(status),
{
    let text = file_status_text(status);
    let found = choose|s: JobFileStatus| #[trigger] file_status_text(s) == text;
    assert(file_status_text(found) == text);
    lemma_file_status_texts_differ(found, status);
}

#[derive(Debug, Clone, PartialEq, Eq)]
pub struct JobFileRecord {
    pub job_id: Uuid,
    pub path: String,
    pub size: u64,
    pub status: JobFileStatus,
    pub bytes_transferred: u64,
    pub error: Option<String>,
    pub updated_at: i64,
}

impl JobFileRecord {
    /// A record of a file of which nothing has been transferred.
    pub open spec fn is_new(
        self,
        job_id: Uuid,
        path: Seq<char>,
        size: u64,
        status: JobFileStatus,
        error: Option<Seq<char>>,
        updated_at: i64,
    ) -> bool {
        &&& self.job_id == job_id
        &&& self.path@ == path
        &&& self.size == size
        &&& self.status == status
        &&& self.bytes_transferred == 0
        &&& crate::text::view_of(self.error) == error
        &&& self.updated_at == updated_at
    }
}

/// A record of a file of which nothing has been transferred.
pub fn job_file_record(
    job_id: Uuid,
    path: &str,
    size: u64,
    status: JobFileStatus,
    error: Option<String>,
    updated_at: i64,
) -> (record: JobFileRecord)
    ensures
        record.is_new(job_id, path@, size, status, crate::text::view_of(error), updated_at),
{
    JobFileRecord {
        job_id,
        path: path.to_owned(),
        size,
        status,
        bytes_transferred: 0,
        error,
        updated_at,
    }
}

#[derive(Debug, Clone, PartialEq, Eq)]
pub struct CompletedChunk {
    pub job_id: Uuid,
    pub path: String,
    pub index: u64,
    pub source_hash: ContentHash,
    pub completed_at: i64,
}

#[derive(Debug, Clone, PartialEq, Eq)]
pub struct HashCacheKey {
    pub path: String,
    pub size: u64,
    pub mtime_ns: i64,
    pub chunk_size: u64,
}

#[derive(Debug, Clone, PartialEq, Eq)]
pub struct HashCacheEntry {
    pub key: HashCacheKey,
    pub full_hash: ContentHash,
    pub chunks: Vec<ChunkDescriptor>,
    pub updated_at: i64,
}

/// A stored state stands for the core state of the same name.
pub proof fn law_states_keep_their_names(status: StoredJobStatus)
    ensures
        core_status_of(status) == Some(JobStatus::Pending) <==> status is Pending,
        core_status_of(status) == Some(JobStatus::Scanning) <==> status is Scanning,
        core_status_of(status) == Some(JobStatus::Transferring) <==> status is Transferring,
        core_status_of(status) == Some(JobStatus::Verifying) <==> status is Verifying,
        core_status_of(status) == Some(JobStatus::Paused) <==> status is Paused,
        core_status_of(status) == Some(JobStatus::Completed) <==> status is Completed,
        core_status_of(status) == Some(JobStatus::CompletedWithErrors) <==> status is CompletedWithErrors,
        core_status_of(status) == Some(JobStatus::Failed) <==> status is Failed,
        core_status_of(status) == Some(JobStatus::Cancelled) <==> status is Cancelled,
{
}

} // verus!
