//! The state of a job that is being sent: its progress and its failures.

use crate::error::{DataFault, TransferError};
use crate::ids::Uuid;
use crate::model::{
    no_progress, FileError, FileOperation, FileProgress, FileType, JobStatus, ManifestEntry, TransferConfig,
    TransferJob, TransferProgress,
};
use crate::path::is_absolute_somewhere;
use crate::plan::saturated;
use crate::records::{job_file_record, JobFileRecord, JobFileStatus};
use crate::scan::ScanResult;
use crate::text::view_of;
use vstd::hash_set::StringHashSet;
use vstd::prelude::*;

verus! {

/// Accepts the settings of a job: a usable chunk size, some concurrency, and a
/// destination that is absolute for one kind of receiver or another.
pub fn validate_config(job: &TransferJob) -> (result: Result<(), TransferError>)
    ensures
        ({
            let usable = 0 < job.config.chunk_size <= usize::MAX;
            let absolute = is_absolute_somewhere(job.destination_root@);
            match result {
                Ok(_) => usable && job.config.concurrency > 0 && absolute,
                Err(TransferError::InvalidData(DataFault::InvalidChunkSize { chunk_size })) => !usable
                    && chunk_size == job.config.chunk_size,
                Err(TransferError::InvalidData(DataFault::ZeroConcurrency)) => usable
                    && job.config.concurrency == 0,
                Err(TransferError::InvalidData(DataFault::RootMustBeAbsolute { path })) => {
                    &&& usable && job.config.concurrency > 0 && !absolute
                    &&& path@ == job.destination_root@
                },
                Err(_) => false,
            }
        }),
{
    if let Err(error) = crate::receiver::validate_chunk_size(job.config.chunk_size) {
        return Err(error);
    }
    if job.config.concurrency == 0 {
        return Err(TransferError::InvalidData(DataFault::ZeroConcurrency));
    }
    if !crate::path::is_receiver_absolute_path(job.destination_root.as_str()) {
        return Err(
            TransferError::InvalidData(
                DataFault::RootMustBeAbsolute { path: job.destination_root.clone() },
            ),
        );
    }
    Ok(())
}

/// What a worker does before its next step.
#[derive(Debug, Clone, Copy, PartialEq, Eq, Structural)]
pub enum Gate {
    Cancelled,
    Proceed,
    Wait,
}

/// What a job does before it goes on.
pub open spec fn gate_of(cancelled: bool, paused: bool, switch_gone: bool) -> Gate {
    if cancelled {
        Gate::Cancelled
    } else if paused && !switch_gone {
        Gate::Wait
    } else {
        Gate::Proceed
    }
}

/// A cancelled job stops, a paused one waits for a change of the pause switch,
/// and with the switch gone there is nothing to wait for.
pub fn wait_until_active(cancelled: bool, paused: bool, switch_gone: bool) -> (gate: Gate)
    ensures
        gate == gate_of(cancelled, paused, switch_gone),
{
    if cancelled {
        Gate::Cancelled
    } else if paused && !switch_gone {
        Gate::Wait
    } else {
        Gate::Proceed
    }
}

/// The state in which a job ends that failed with `error`.
pub open spec fn failure_status_of(error: TransferError) -> JobStatus {
    if error is Cancelled {
        JobStatus::Cancelled
    } else {
        JobStatus::Failed
    }
}

/// The state in which a job ends that failed with `error`.
pub fn failure_status(error: &TransferError) -> (status: JobStatus)
    ensures
        status == failure_status_of(*error),
{
    match error {
        TransferError::Cancelled => JobStatus::Cancelled,
        _ => JobStatus::Failed,
    }
}

/// A job that is being sent, and the files of it that have failed.
pub struct OutgoingJob {
    job: TransferJob,
    failed: StringHashSet,
}

/// What an error says.
pub struct ErrorView {
    pub path: Option<Seq<char>>,
    pub operation: FileOperation,
    pub message: Seq<char>,
}

pub open spec fn error_views(errors: Seq<FileError>) -> Seq<ErrorView> {
    Seq::new(
        errors.len(),
        |i: int|
            ErrorView {
                path: view_of(errors[i].relative_path),
                operation: errors[i].operation,
                message: errors[i].message@,
            },
    )
}

/// What is known of a job that is being sent.
#[verifier::ext_equal]
pub struct OutgoingView {
    pub id: Uuid,
    pub peer_id: Option<Uuid>,
    pub source_root: Seq<char>,
    pub destination_root: Seq<char>,
    pub config: TransferConfig,
    pub status: JobStatus,
    pub progress: TransferProgress,
    pub errors: Seq<ErrorView>,
    pub failed: Set<Seq<char>>,
}

impl View for OutgoingJob {
    type V = OutgoingView;

    closed spec fn view(&self) -> OutgoingView {
        OutgoingView {
            id: self.job.id,
            peer_id: self.job.peer_id,
            source_root: self.job.source_root@,
            destination_root: self.job.destination_root@,
            config: self.job.config,
            status: self.job.status,
            progress: self.job.progress,
            errors: error_views(self.job.errors@),
            failed: self.failed@,
        }
    }
}

/// The files of a manifest.
pub open spec fn files_of(entries: Seq<ManifestEntry>) -> Seq<ManifestEntry>
    decreases entries.len(),
{
    if entries.len() == 0 {
        Seq::<ManifestEntry>::empty()
    } else {
        let earlier = files_of(entries.drop_last());
        if entries.last().file_type == FileType::File {
            earlier.push(entries.last())
        } else {
            earlier
        }
    }
}

/// The sizes of entries, added up.
pub open spec fn bytes_of_entries(entries: Seq<ManifestEntry>) -> nat
    decreases entries.len(),
{
    if entries.len() == 0 {
        0
    } else {
        bytes_of_entries(entries.drop_last()) + entries.last().size as nat
    }
}

proof fn lemma_files_grow(entries: Seq<ManifestEntry>, n: int)
    requires
        0 <= n <= entries.len(),
    ensures
        bytes_of_entries(files_of(entries.take(n))) <= bytes_of_entries(files_of(entries)),
        files_of(entries).len() <= entries.len(),
    decreases entries.len(),
{
    if n == entries.len() {
        assert(entries.take(n) =~= entries);
        if entries.len() > 0 {
            assert(entries.drop_last().take(n - 1) =~= entries.drop_last());
            lemma_files_grow(entries.drop_last(), n - 1);
        }
    } else {
        assert(entries.drop_last().take(n) =~= entries.take(n));
        lemma_files_grow(entries.drop_last(), n);
        let earlier = files_of(entries.drop_last());
        if entries.last().file_type == FileType::File {
            assert(earlier.push(entries.last()).drop_last() =~= earlier);
        }
    }
}

/// The number and the total size of the files among entries, unless the total
/// is too large.
pub fn count_files(entries: &[ManifestEntry]) -> (counted: Option<(u64, u64)>)
    ensures
        match counted {
            Some((files, bytes)) => files == files_of(entries@).len() && bytes == bytes_of_entries(
                files_of(entries@),
            ),
            None => bytes_of_entries(files_of(entries@)) > u64::MAX,
        },
{
    let mut files: u64 = 0;
    let mut bytes: u64 = 0;
    let mut i: usize = 0;
    assert(entries@.take(0) =~= Seq::<ManifestEntry>::empty());
    while i < entries.len()
        invariant
            i <= entries.len(),
            files <= i,
            files == files_of(entries@.take(i as int)).len(),
            bytes == bytes_of_entries(files_of(entries@.take(i as int))),
        decreases entries.len() - i,
    {
        assert(entries@.take(i + 1).drop_last() =~= entries@.take(i as int));
        proof {
            lemma_files_grow(entries@, i + 1);
        }
        if entries[i].file_type == FileType::File {
            let ghost earlier = files_of(entries@.take(i as int));
            assert(earlier.push(entries@[i as int]).drop_last() =~= earlier);
            files = files + 1;
            bytes = match bytes.checked_add(entries[i].size) {
                Some(sum) => sum,
                None => {
                    return None;
                },
            };
        }
        i += 1;
    }
    assert(entries@.take(i as int) =~= entries@);
    Some((files, bytes))
}

/// The progress of a job once its source has been scanned.
pub open spec fn scanned_progress(scan: ScanResult, concurrency: u32) -> TransferProgress {
    TransferProgress {
        total_files: files_of(scan.entries@).len() as u64,
        total_bytes: bytes_of_entries(files_of(scan.entries@)) as u64,
        symlinks_skipped: scan.symlinks_skipped,
        current_concurrency: concurrency,
        ..no_progress()
    }
}

/// The rows of the files of a manifest, none of which has been transferred.
pub fn pending_records(job_id: Uuid, entries: &[ManifestEntry], now: i64) -> (records: Vec<
    JobFileRecord,
>)
    ensures
        records@.len() == files_of(entries@).len(),
        forall|i: int|
            0 <= i < records@.len() ==> (#[trigger] records@[i]).is_new(
                job_id,
                files_of(entries@)[i].relative_path@,
                files_of(entries@)[i].size,
                JobFileStatus::Pending,
                None,
                now,
            ),
{
    let mut records: Vec<JobFileRecord> = Vec::new();
    let mut i: usize = 0;
    assert(entries@.take(0) =~= Seq::<ManifestEntry>::empty());
    while i < entries.len()
        invariant
            i <= entries.len(),
            records@.len() == files_of(entries@.take(i as int)).len(),
            forall|k: int|
                0 <= k < records@.len() ==> (#[trigger] records@[k]).is_new(
                    job_id,
                    files_of(entries@.take(i as int))[k].relative_path@,
                    files_of(entries@.take(i as int))[k].size,
                    JobFileStatus::Pending,
                    None,
                    now,
                ),
        decreases entries.len() - i,
    {
        assert(entries@.take(i + 1).drop_last() =~= entries@.take(i as int));
        if entries[i].file_type == FileType::File {
            records.push(
                job_file_record(
                    job_id,
                    entries[i].relative_path.as_str(),
                    entries[i].size,
                    JobFileStatus::Pending,
                    None,
                    now,
                ),
            );
        }
        i += 1;
    }
    assert(entries@.take(i as int) =~= entries@);
    records
}

/// The job once a file has failed: each file counts once.
pub open spec fn with_failure(
    before: OutgoingView,
    path: Seq<char>,
    operation: FileOperation,
    message: Seq<char>,
) -> OutgoingView {
    if before.failed.contains(path) {
        before
    } else {
        OutgoingView {
            progress: TransferProgress {
                failed_files: (before.progress.failed_files + 1) as u64,
                ..before.progress
            },
            errors: before.errors.push(ErrorView { path: Some(path), operation, message }),
            failed: before.failed.insert(path),
            ..before
        }
    }
}

/// Every completed file was either skipped or transferred.
pub open spec fn is_balanced(progress: TransferProgress) -> bool {
    progress.completed_files == progress.skipped_files + progress.transferred_files
}

impl OutgoingJob {
    pub fn new(job: TransferJob) -> (outgoing: Self)
        ensures
            outgoing@ == (OutgoingView {
                id: job.id,
                peer_id: job.peer_id,
                source_root: job.source_root@,
                destination_root: job.destination_root@,
                config: job.config,
                status: job.status,
                progress: job.progress,
                errors: error_views(job.errors@),
                failed: Set::empty(),
            }),
    {
        OutgoingJob { job, failed: StringHashSet::new() }
    }

    /// The job as it stands.
    pub fn job(&self) -> (job: &TransferJob)
        ensures
            job.id == self@.id,
            job.peer_id == self@.peer_id,
            job.source_root@ == self@.source_root,
            job.destination_root@ == self@.destination_root,
            job.config == self@.config,
            job.status == self@.status,
            job.progress == self@.progress,
            error_views(job.errors@) == self@.errors,
    {
        &self.job
    }

    pub fn into_job(self) -> (job: TransferJob)
        ensures
            job.id == self@.id,
            job.peer_id == self@.peer_id,
            job.source_root@ == self@.source_root,
            job.destination_root@ == self@.destination_root,
            job.config == self@.config,
            job.status == self@.status,
            job.progress == self@.progress,
            error_views(job.errors@) == self@.errors,
    {
        self.job
    }

    /// Whether a failure of that path was counted.
    pub fn has_failed(&self, path: &str) -> (yes: bool)
        ensures
            yes == self@.failed.contains(path@),
    {
        self.failed.contains(path)
    }

    pub fn set_status(&mut self, status: JobStatus)
        ensures
            final(self)@ == (OutgoingView { status, ..old(self)@ }),
    {
        self.job.status = status;
    }

    /// Takes the result of scanning the source: its errors are kept and the
    /// progress starts anew. Nothing changes where the bytes of the files are
    /// too many to count.
    pub fn apply_scan(&mut self, scan: &mut ScanResult) -> (applied: bool)
        ensures
            applied == (bytes_of_entries(files_of(old(scan).entries@)) <= u64::MAX),
            final(scan).entries@ == old(scan).entries@,
            applied ==> final(self)@ == (OutgoingView {
                progress: scanned_progress(*old(scan), old(self)@.config.concurrency),
                errors: old(self)@.errors + error_views(old(scan).errors@),
                ..old(self)@
            }) && final(self)@.progress.total_files == files_of(old(scan).entries@).len(),
            !applied ==> final(self)@ == old(self)@,
    {
        let (total_files, total_bytes) = match count_files(&scan.entries) {
            Some(counted) => counted,
            None => {
                return false;
            },
        };
        let ghost before = self.job.errors@;
        let ghost found = scan.errors@;
        self.job.errors.append(&mut scan.errors);
        assert(error_views(self.job.errors@) =~= error_views(before) + error_views(found));
        let mut progress = TransferProgress::default();
        progress.total_files = total_files;
        progress.total_bytes = total_bytes;
        progress.symlinks_skipped = scan.symlinks_skipped;
        progress.current_concurrency = self.job.config.concurrency;
        self.job.progress = progress;
        true
    }

    /// Goes on with the device that was reached, which must be trusted.
    pub fn accept_peer(&mut self, device_id: Uuid, trusted: bool) -> (result: Result<
        (),
        TransferError,
    >)
        ensures
            match result {
                Ok(_) => trusted && final(self)@ == (OutgoingView {
                    peer_id: Some(device_id),
                    status: JobStatus::Transferring,
                    ..old(self)@
                }),
                Err(error) => !trusted && error == (TransferError::UntrustedPeer { device_id })
                    && final(self)@ == old(self)@,
            },
    {
        if !trusted {
            return Err(TransferError::UntrustedPeer { device_id });
        }
        self.job.peer_id = Some(device_id);
        self.job.status = JobStatus::Transferring;
        Ok(())
    }

    /// Adds an error that is not about the failure of one file.
    pub fn report(&mut self, path: Option<String>, operation: FileOperation, message: String)
        ensures
            final(self)@ == (OutgoingView {
                errors: old(self)@.errors.push(
                    ErrorView { path: view_of(path), operation, message: message@ },
                ),
                ..old(self)@
            }),
    {
        self.job.errors.push(FileError::new(path, operation, message));
        assert(error_views(self.job.errors@) =~= error_views(old(self).job.errors@).push(
            ErrorView { path: view_of(path), operation, message: message@ },
        ));
    }

    /// Counts a file of `size` bytes that the receiver has already.
    pub fn count_unchanged(&mut self, size: u64)
        requires
            old(self)@.progress.completed_files < u64::MAX,
            old(self)@.progress.skipped_files < u64::MAX,
        ensures
            final(self)@ == (OutgoingView {
                progress: TransferProgress {
                    completed_files: (old(self)@.progress.completed_files + 1) as u64,
                    skipped_files: (old(self)@.progress.skipped_files + 1) as u64,
                    reused_bytes: saturated(
                        old(self)@.progress.reused_bytes as nat + size as nat,
                    ),
                    ..old(self)@.progress
                },
                ..old(self)@
            }),
    {
        self.job.progress.completed_files = self.job.progress.completed_files + 1;
        self.job.progress.skipped_files = self.job.progress.skipped_files + 1;
        self.job.progress.reused_bytes = self.job.progress.reused_bytes.saturating_add(size);
    }

    /// Sets the bytes that need not be sent and the number of chunks to send.
    pub fn set_queue(&mut self, reused_bytes: u64, queued_chunks: u64)
        ensures
            final(self)@ == (OutgoingView {
                progress: TransferProgress { reused_bytes, queued_chunks, ..old(self)@.progress },
                ..old(self)@
            }),
    {
        self.job.progress.reused_bytes = reused_bytes;
        self.job.progress.queued_chunks = queued_chunks;
    }

    pub fn set_active_files(&mut self, active: u32)
        ensures
            final(self)@ == (OutgoingView {
                progress: TransferProgress {
                    active_file_streams: active,
                    ..old(self)@.progress
                },
                ..old(self)@
            }),
    {
        self.job.progress.active_file_streams = active;
    }

    /// Sets the number of streams by the number of chunks to send.
    pub fn set_active_chunks(&mut self)
        ensures
            final(self)@ == crate::upload::sending_chunks(old(self)@),
    {
        let limit: u32 = self.job.config.concurrency;
        let queued: u64 = self.job.progress.queued_chunks;
        let active: u32 = if queued < limit as u64 {
            queued as u32
        } else {
            limit
        };
        self.job.progress.active_chunk_streams = active;
        self.job.progress.active_file_streams = active;
    }

    /// No stream is at work any more.
    pub fn clear_streams(&mut self)
        ensures
            final(self)@ == (OutgoingView {
                progress: TransferProgress {
                    active_chunk_streams: 0,
                    active_file_streams: 0,
                    ..old(self)@.progress
                },
                ..old(self)@
            }),
    {
        self.job.progress.active_chunk_streams = 0;
        self.job.progress.active_file_streams = 0;
    }

    /// One chunk fewer waits.
    pub fn dequeue_chunk(&mut self)
        ensures
            final(self)@ == crate::upload::dequeued(old(self)@),
    {
        self.job.progress.queued_chunks = self.job.progress.queued_chunks.saturating_sub(1);
    }

    /// Adds to the bytes that were sent.
    pub fn count_transferred(&mut self, bytes: u64)
        ensures
            final(self)@ == crate::upload::with_transferred(old(self)@, bytes),
    {
        self.job.progress.transferred_bytes = self.job.progress.transferred_bytes.saturating_add(
            bytes,
        );
    }

    pub fn set_current_file(&mut self, file: FileProgress)
        ensures
            final(self)@ == crate::upload::with_current(old(self)@, file),
    {
        self.job.progress.current_file = Some(file);
    }

    /// Sets the rate at which the source is hashed.
    pub fn set_hash_rate(&mut self, bytes_per_second: u64)
        ensures
            final(self)@ == (OutgoingView {
                progress: TransferProgress {
                    hash_bytes_per_second: bytes_per_second,
                    ..old(self)@.progress
                },
                ..old(self)@
            }),
    {
        self.job.progress.hash_bytes_per_second = bytes_per_second;
    }

    /// Sets the rate at which chunks are read, sent and written.
    pub fn set_transfer_rate(&mut self, bytes_per_second: u64)
        ensures
            final(self)@ == (OutgoingView {
                progress: TransferProgress {
                    network_bytes_per_second: bytes_per_second,
                    read_bytes_per_second: bytes_per_second,
                    write_bytes_per_second: bytes_per_second,
                    ..old(self)@.progress
                },
                ..old(self)@
            }),
    {
        self.job.progress.network_bytes_per_second = bytes_per_second;
        self.job.progress.read_bytes_per_second = bytes_per_second;
        self.job.progress.write_bytes_per_second = bytes_per_second;
    }

    /// Counts a file that the receiver has finalized.
    pub fn count_completed(&mut self, sent: bool)
        requires
            old(self)@.progress.completed_files < u64::MAX,
            old(self)@.progress.skipped_files < u64::MAX,
            old(self)@.progress.transferred_files < u64::MAX,
        ensures
            final(self)@ == crate::finish::with_completed(old(self)@, sent),
    {
        self.job.progress.completed_files = self.job.progress.completed_files + 1;
        if sent {
            self.job.progress.transferred_files = self.job.progress.transferred_files + 1;
        } else {
            self.job.progress.skipped_files = self.job.progress.skipped_files + 1;
        }
    }

    /// Lets the number of failed files be no less than `failures`.
    pub fn raise_failed(&mut self, failures: u64)
        ensures
            final(self)@ == (OutgoingView {
                progress: TransferProgress {
                    failed_files: if old(self)@.progress.failed_files > failures {
                        old(self)@.progress.failed_files
                    } else {
                        failures
                    },
                    ..old(self)@.progress
                },
                ..old(self)@
            }),
    {
        if self.job.progress.failed_files <= failures {
            self.job.progress.failed_files = failures;
        }
    }

    /// Ends the job: nothing is active and nothing is queued.
    pub fn end(&mut self, status: JobStatus)
        ensures
            final(self)@ == (OutgoingView {
                progress: TransferProgress {
                    active_chunk_streams: 0,
                    active_file_streams: 0,
                    queued_chunks: 0,
                    current_file: None,
                    ..old(self)@.progress
                },
                status,
                ..old(self)@
            }),
    {
        self.job.progress.active_chunk_streams = 0;
        self.job.progress.active_file_streams = 0;
        self.job.progress.queued_chunks = 0;
        self.job.progress.current_file = None;
        self.job.status = status;
    }

    /// Records that a file has failed, the first time that it does.
    pub fn record_file_failure(&mut self, path: &str, operation: FileOperation, message: String)
        requires
            old(self)@.progress.failed_files < u64::MAX,
        ensures
            final(self)@ == with_failure(old(self)@, path@, operation, message@),
    {
        if self.failed.insert(path.to_owned()) {
            self.job.progress.failed_files = self.job.progress.failed_files + 1;
            self.report(Some(path.to_owned()), operation, message);
        } else {
            assert(self.failed@ =~= old(self).failed@);
        }
    }
}

/// Failing twice is failing once, and no failure is forgotten.
pub proof fn law_failures_count_once(
    before: OutgoingView,
    path: Seq<char>,
    first: FileOperation,
    first_message: Seq<char>,
    second: FileOperation,
    second_message: Seq<char>,
)
    ensures
        with_failure(
            with_failure(before, path, first, first_message),
            path,
            second,
            second_message,
        ) == with_failure(before, path, first, first_message),
        with_failure(before, path, first, first_message).failed == before.failed.insert(path),
        is_balanced(before.progress) ==> is_balanced(
            with_failure(before, path, first, first_message).progress,
        ),
{
    if before.failed.contains(path) {
        assert(before.failed.insert(path) =~= before.failed);
    }
}

/// A scan is counted entry by entry: each file counts once and with its size, a
/// directory counts nothing.
pub proof fn law_scans_are_counted_by_file(entries: Seq<ManifestEntry>, entry: ManifestEntry)
    ensures
        files_of(Seq::empty()).len() == 0,
        bytes_of_entries(Seq::empty()) == 0,
        entry.file_type == FileType::File ==> {
            &&& files_of(entries.push(entry)) == files_of(entries).push(entry)
            &&& bytes_of_entries(files_of(entries.push(entry))) == bytes_of_entries(
                files_of(entries),
            ) + entry.size
        },
        entry.file_type == FileType::Directory ==> files_of(entries.push(entry)) == files_of(
            entries,
        ),
{
    assert(entries.push(entry).drop_last() =~= entries);
    assert(files_of(entries).push(entry).drop_last() =~= files_of(entries));
}

/// What a scan found is what a job has to send: its files, their bytes, and the links
/// that were passed over; nothing is done yet.
pub proof fn law_scanned_progress_is_a_beginning(scan: ScanResult, concurrency: u32)
    requires
        files_of(scan.entries@).len() <= u64::MAX,
        bytes_of_entries(files_of(scan.entries@)) <= u64::MAX,
    ensures
        ({
            let progress = scanned_progress(scan, concurrency);
            &&& progress.total_files == files_of(scan.entries@).len()
            &&& progress.total_bytes == bytes_of_entries(files_of(scan.entries@))
            &&& progress.symlinks_skipped == scan.symlinks_skipped
            &&& progress.current_concurrency == concurrency
            &&& progress.completed_files == 0 && progress.skipped_files == 0
            &&& progress.transferred_files == 0 && progress.failed_files == 0
            &&& progress.transferred_bytes == 0 && progress.reused_bytes == 0
            &&& progress.queued_chunks == 0 && progress.current_file is None
        }),
{
}

/// A job that was cancelled ends as cancelled, whatever else went wrong; every other
/// failure is one.
pub proof fn law_how_failed_jobs_end(error: TransferError)
    ensures
        failure_status_of(error) is Cancelled <==> error is Cancelled,
        failure_status_of(error) is Failed <==> !(error is Cancelled),
{
}

/// A job goes on exactly if it is neither cancelled nor held by a pause that can still
/// end; being cancelled comes before being paused.
pub proof fn law_when_a_job_goes_on(cancelled: bool, paused: bool, switch_gone: bool)
    ensures
        gate_of(cancelled, paused, switch_gone) is Cancelled <==> cancelled,
        gate_of(cancelled, paused, switch_gone) is Wait <==> !cancelled && paused && !switch_gone,
        gate_of(cancelled, paused, switch_gone) is Proceed <==> !cancelled && (!paused
            || switch_gone),
{
}

} // verus!
