//! Uploads, finalized files and completed jobs, as the receiver sees them.

use crate::digest::{blake3_digest, same_digest};
use crate::error::{DataFault, NetworkFault, TransferError};
use crate::hashing::{layout_fault, validate_hashed_file};
use crate::ids::Uuid;
use crate::incoming::{no_chunks, IncomingFile, ReceivedChunk};
use crate::lease::DestinationLeases;
use crate::manifest::{accepts_manifest, IncomingJob, JobPhase, JobView};
use crate::metadata::metadata_matches;
use crate::model::{
    no_progress, ContentHash, HashedFile, JobStatus, ManifestEntry, TransferConfig, TransferJob,
    TransferProgress,
};
use crate::negotiate::check_job_request;
use crate::path::{is_wire_path, join_components, safe_join, wire_path_error};
use crate::receiver::SERVER_JOB_CONCURRENCY;
use crate::records::{JobFileRecord, JobFileStatus, JobRecord, StoredJobStatus};
use crate::stream::{
    ChunkAcknowledgement, ChunkHeader, CompleteJobRequest, FileAcknowledgement,
    FinalizeFileRequest, JobAcknowledgement,
};
use crate::text::is_text;
use std::collections::HashSet;
use vstd::prelude::*;

verus! {

/// The job is not open for requests under a manifest.
pub open spec fn is_closed(job: JobView, manifest_id: Uuid, error: TransferError) -> bool {
    match error {
        TransferError::Network(NetworkFault::JobRetiring { job_id }) => job.phase
            != JobPhase::Active && job_id == job.parameters.key.job_id,
        TransferError::InvalidData(DataFault::ManifestInactive { manifest_id: m, job_id }) => {
            &&& job.phase == JobPhase::Active
            &&& !accepts_manifest(job, manifest_id)
            &&& m == manifest_id
            &&& job_id == job.parameters.key.job_id
        },
        _ => false,
    }
}

pub open spec fn is_open(job: JobView, manifest_id: Uuid) -> bool {
    job.phase == JobPhase::Active && accepts_manifest(job, manifest_id)
}

/// Admits the upload of a chunk: the job must be open under the manifest, the
/// file negotiated, and its path still leased to the job.
pub fn check_upload(
    job: &IncomingJob,
    leases: &DestinationLeases,
    file: Option<&IncomingFile>,
    header: &ChunkHeader,
) -> (result: Result<(), TransferError>)
    ensures
        ({
            let open = is_open(job@, header.manifest_id);
            let held = file matches Some(known) && leases.holds(
                job@.parameters.key,
                known@.destination,
                header.path@,
            );
            match result {
                Ok(_) => open && held,
                Err(TransferError::InvalidData(DataFault::NotNegotiated { path })) => {
                    &&& open && file is None
                    &&& path@ == header.path@
                },
                Err(TransferError::InvalidData(DataFault::LeaseLost { job_id, path })) => {
                    &&& open && file is Some && !held
                    &&& job_id == job@.parameters.key.job_id
                    &&& path@ == header.path@
                },
                Err(error) => !open && is_closed(job@, header.manifest_id, error),
            }
        }),
{
    if let Err(error) = check_job_request(job, header.manifest_id) {
        return Err(error);
    }
    match file {
        None => Err(
            TransferError::InvalidData(DataFault::NotNegotiated { path: header.path.clone() }),
        ),
        Some(known) => leases.ensure_destination_lease(
            job.key(),
            known.destination(),
            header.path.as_str(),
        ),
    }
}

/// The answer to the header of a chunk that was received, whole and with its hash.
pub fn acknowledge_chunk(header: &ChunkHeader, received: &ReceivedChunk) -> (answer:
    ChunkAcknowledgement)
    requires
        received.is_of(*header),
    ensures
        received.content().len() == header.size,
        blake3_digest(received.content()) == header.hash@,
        answer == (ChunkAcknowledgement {
            job_id: header.job_id,
            manifest_id: header.manifest_id,
            path: header.path,
            index: header.index,
            size: header.size,
        }),
{
    let chunk = received.chunk();
    ChunkAcknowledgement {
        job_id: header.job_id,
        manifest_id: header.manifest_id,
        path: header.path.clone(),
        index: chunk.index,
        size: chunk.size,
    }
}

/// The negotiated file is still leased to the job.
pub open spec fn is_leased(
    job: JobView,
    leases: &DestinationLeases,
    file: Option<&IncomingFile>,
    path: Seq<char>,
) -> bool {
    file matches Some(known) && leases.holds(job.parameters.key, known@.destination, path)
}

/// The finalization of a file is in order.
pub open spec fn may_finalize(
    job: JobView,
    leases: &DestinationLeases,
    file: Option<&IncomingFile>,
    request: FinalizeFileRequest,
) -> bool {
    &&& is_open(job, request.manifest_id)
    &&& layout_fault(request.file@, job.parameters.chunk_size) is None
    &&& file is Some
    &&& file->0@.file == request.file@
    &&& is_leased(job, leases, file, request.file.entry.relative_path@)
    &&& file->0@.inflight == no_chunks()
}

/// The first thing that speaks against the finalization of a file.
pub open spec fn is_finalize_refusal(
    job: JobView,
    leases: &DestinationLeases,
    file: Option<&IncomingFile>,
    request: FinalizeFileRequest,
    error: TransferError,
) -> bool {
    let wire_path = request.file.entry.relative_path@;
    let fault = layout_fault(request.file@, job.parameters.chunk_size);
    if !is_open(job, request.manifest_id) {
        is_closed(job, request.manifest_id, error)
    } else if fault is Some {
        crate::hashing::reports(error, wire_path, fault->0)
    } else if file is None {
        error matches TransferError::InvalidData(DataFault::NotNegotiated { path }) && path@
            == wire_path
    } else if file->0@.file != request.file@ {
        error matches TransferError::InvalidData(DataFault::FinalizeDiffers { path }) && path@
            == wire_path
    } else if !is_leased(job, leases, file, wire_path) {
        error matches TransferError::InvalidData(DataFault::LeaseLost { job_id, path }) && job_id
            == job.parameters.key.job_id && path@ == wire_path
    } else {
        error matches TransferError::InvalidData(DataFault::ChunksUploading { path }) && path@
            == wire_path
    }
}

/// Admits the finalization of a file: it must be the file that was negotiated,
/// its path must still be leased to the job, and no chunk may be arriving.
pub fn check_finalize(
    job: &IncomingJob,
    leases: &DestinationLeases,
    file: Option<&IncomingFile>,
    request: &FinalizeFileRequest,
) -> (result: Result<(), TransferError>)
    ensures
        match result {
            Ok(_) => may_finalize(job@, leases, file, *request),
            Err(error) => !may_finalize(job@, leases, file, *request) && is_finalize_refusal(
                job@,
                leases,
                file,
                *request,
                error,
            ),
        },
{
    if let Err(error) = check_job_request(job, request.manifest_id) {
        return Err(error);
    }
    if let Err(error) = validate_hashed_file(&request.file, job.chunk_size()) {
        return Err(error);
    }
    let path = &request.file.entry.relative_path;
    let known = match file {
        None => {
            return Err(TransferError::InvalidData(DataFault::NotNegotiated { path: path.clone() }));
        },
        Some(known) => known,
    };
    if !known.file().same_as(&request.file) {
        return Err(TransferError::InvalidData(DataFault::FinalizeDiffers { path: path.clone() }));
    }
    if let Err(error) = leases.ensure_destination_lease(
        job.key(),
        known.destination(),
        path.as_str(),
    ) {
        return Err(error);
    }
    if !known.is_quiet() {
        return Err(TransferError::InvalidData(DataFault::ChunksUploading { path: path.clone() }));
    }
    Ok(())
}

/// The error names the first chunk of a file that is not complete.
pub open spec fn is_first_gap(file: HashedFile, completed: Set<u64>, error: TransferError) -> bool {
    match error {
        TransferError::InvalidData(DataFault::ChunkIncomplete { index, path }) => {
            &&& path@ == file.entry.relative_path@
            &&& exists|i: int|
                0 <= i < file.chunks@.len() && (#[trigger] file.chunks@[i]).index == index
                    && !completed.contains(index) && forall|k: int|
                    0 <= k < i ==> completed.contains((#[trigger] file.chunks@[k]).index)
        },
        _ => false,
    }
}

/// Fails at the first chunk of a file that is not recorded as complete.
pub fn check_chunks_complete(file: &HashedFile, completed: &HashSet<u64>) -> (result: Result<
    (),
    TransferError,
>)
    ensures
        match result {
            Ok(_) => forall|i: int|
                0 <= i < file.chunks@.len() ==> completed@.contains(
                    (#[trigger] file.chunks@[i]).index,
                ),
            Err(error) => is_first_gap(*file, completed@, error),
        },
{
    let mut i: usize = 0;
    while i < file.chunks.len()
        invariant
            i <= file.chunks.len(),
            forall|k: int|
                0 <= k < i ==> completed@.contains((#[trigger] file.chunks@[k]).index),
        decreases file.chunks.len() - i,
    {
        let index: u64 = file.chunks[i].index;
        if !completed.contains(&index) {
            assert(file.chunks@[i as int].index == index);
            return Err(
                TransferError::InvalidData(
                    DataFault::ChunkIncomplete { index, path: file.entry.relative_path.clone() },
                ),
            );
        }
        i += 1;
    }
    Ok(())
}

/// Whether a file at the destination is worth hashing before it is taken for
/// the finalized one.
pub fn should_hash_in_place(file: &HashedFile, actual: &ManifestEntry) -> (yes: bool)
    ensures
        yes == (file.entry.spec_metadata() == actual.spec_metadata()),
{
    metadata_matches(&file.entry, actual)
}

/// The destination has the metadata and the digest of the file.
pub open spec fn is_intact(
    file: HashedFile,
    actual: Option<&ManifestEntry>,
    hash: Option<&ContentHash>,
) -> bool {
    &&& actual is Some
    &&& actual->0.spec_metadata() == file.entry.spec_metadata()
    &&& hash is Some
    &&& *hash->0 == file.hash
}

/// What is wrong with a destination that is not the finalized file, and whether
/// there was anything.
pub open spec fn is_in_place_fault(
    file: HashedFile,
    reused: bool,
    found: bool,
    error: TransferError,
) -> bool {
    let wire_path = file.entry.relative_path@;
    match error {
        TransferError::InvalidData(DataFault::PartialAndDestinationMissing { path }) => !found
            && !reused && path@ == wire_path,
        TransferError::InvalidData(DataFault::ReusedDestinationGone { path }) => !found && reused
            && path@ == wire_path,
        TransferError::InvalidData(DataFault::PartialMissing { path }) => found && !reused && path@
            == wire_path,
        TransferError::InvalidData(DataFault::ReusedDestinationChanged { path }) => found && reused
            && path@ == wire_path,
        _ => false,
    }
}

/// Accepts a destination that already is the finalized file. `reused` tells
/// whether it was so from the start; `hash` is that of the destination, where
/// its metadata made it worth computing.
pub fn check_in_place(
    file: &HashedFile,
    reused: bool,
    actual: Option<&ManifestEntry>,
    hash: Option<&ContentHash>,
) -> (result: Result<(), TransferError>)
    ensures
        match result {
            Ok(_) => is_intact(*file, actual, hash),
            Err(error) => !is_intact(*file, actual, hash) && is_in_place_fault(
                *file,
                reused,
                actual is Some,
                error,
            ),
        },
{
    let path = file.entry.relative_path.clone();
    let found = match actual {
        None => {
            return Err(
                TransferError::InvalidData(
                    if reused {
                        DataFault::ReusedDestinationGone { path }
                    } else {
                        DataFault::PartialAndDestinationMissing { path }
                    },
                ),
            );
        },
        Some(found) => found,
    };
    let same = match hash {
        Some(hash) => same_digest(hash, &file.hash),
        None => false,
    };
    if metadata_matches(&file.entry, found) && same {
        Ok(())
    } else {
        Err(
            TransferError::InvalidData(
                if reused {
                    DataFault::ReusedDestinationChanged { path }
                } else {
                    DataFault::PartialMissing { path }
                },
            ),
        )
    }
}

/// Requires that the row of a finalized file was still there to be updated.
pub fn check_file_row(path: &str, updated: bool) -> (result: Result<(), TransferError>)
    ensures
        match result {
            Ok(_) => updated,
            Err(TransferError::InvalidData(DataFault::FileRowMissing { path: p })) => !updated && p@
                == path@,
            Err(_) => false,
        },
{
    if updated {
        Ok(())
    } else {
        Err(TransferError::InvalidData(DataFault::FileRowMissing { path: path.to_owned() }))
    }
}

/// The answer to a file that was finalized.
pub fn acknowledge_file(request: &FinalizeFileRequest) -> (answer: FileAcknowledgement)
    ensures
        answer == (FileAcknowledgement {
            job_id: request.job_id,
            manifest_id: request.manifest_id,
            path: request.file.entry.relative_path,
        }),
{
    FileAcknowledgement {
        job_id: request.job_id,
        manifest_id: request.manifest_id,
        path: request.file.entry.relative_path.clone(),
    }
}

/// Why a directory cannot get its metadata, given whether its lease is held.
pub open spec fn is_directory_refusal(
    job: JobView,
    held: bool,
    wire_path: Seq<char>,
    error: TransferError,
) -> bool {
    match error {
        TransferError::InvalidData(DataFault::RejectedPath { source }) => wire_path_error(wire_path)
            == Some(source),
        TransferError::InvalidData(DataFault::LeaseLost { job_id, path }) => {
            &&& is_wire_path(wire_path)
            &&& !held
            &&& job_id == job.parameters.key.job_id
            &&& path@ == wire_path
        },
        _ => false,
    }
}

/// The path of a directory that gets its metadata once the job is complete; the
/// job must still hold the lease on it.
pub fn completion_directory(job: &IncomingJob, leases: &DestinationLeases, wire_path: &str) -> (
    result: Result<String, TransferError>)
    ensures
        ({
            let directory = join_components(
                job@.parameters.platform,
                job@.parameters.destination_root,
                crate::text::split(wire_path@, '/'),
            );
            let held = leases.holds(job@.parameters.key, directory, wire_path@);
            match result {
                Ok(path) => is_wire_path(wire_path@) && held && path@ == directory,
                Err(error) => is_directory_refusal(job@, held, wire_path@, error),
            }
        }),
{
    let path = match safe_join(job.platform(), job.destination_root(), wire_path) {
        Ok(path) => path,
        Err(source) => {
            return Err(TransferError::InvalidData(DataFault::RejectedPath { source }));
        },
    };
    match leases.ensure_destination_lease(job.key(), path.as_str(), wire_path) {
        Ok(_) => Ok(path),
        Err(error) => Err(error),
    }
}

/// A file that the sender has not finished.
pub open spec fn is_unfinished(status: JobFileStatus) -> bool {
    status == JobFileStatus::Pending || status == JobFileStatus::Running
}

/// What is recorded of a file that the sender never finished.
pub const UNFINISHED_FILE_ERROR: &'static str = "source did not finalize file";

/// The paths of the files that the sender has not finished, in order.
pub open spec fn unfinished(files: Seq<JobFileRecord>) -> Seq<Seq<char>>
    decreases files.len(),
{
    if files.len() == 0 {
        Seq::<Seq<char>>::empty()
    } else {
        let earlier = unfinished(files.drop_last());
        if is_unfinished(files.last().status) {
            earlier.push(files.last().path@)
        } else {
            earlier
        }
    }
}

/// The files that the sender never finalized.
pub fn unfinished_files(files: &[JobFileRecord]) -> (paths: Vec<String>)
    ensures
        crate::text::views(paths@) == unfinished(files@),
{
    let mut paths: Vec<String> = Vec::new();
    let mut i: usize = 0;
    assert(files@.take(0) =~= Seq::<JobFileRecord>::empty());
    assert(crate::text::views(paths@) =~= Seq::<Seq<char>>::empty());
    while i < files.len()
        invariant
            i <= files.len(),
            crate::text::views(paths@) == unfinished(files@.take(i as int)),
        decreases files.len() - i,
    {
        assert(files@.take(i + 1).drop_last() =~= files@.take(i as int));
        let ghost before = crate::text::views(paths@);
        if files[i].status == JobFileStatus::Pending || files[i].status == JobFileStatus::Running {
            paths.push(files[i].path.clone());
            assert(crate::text::views(paths@) =~= before.push(files@[i as int].path@));
        }
        i += 1;
    }
    assert(files@.take(i as int) =~= files@);
    paths
}

/// How many files are in one of the states that `keep` selects.
pub open spec fn count_files(
    files: Seq<JobFileRecord>,
    keep: spec_fn(JobFileStatus) -> bool,
) -> nat
    decreases files.len(),
{
    if files.len() == 0 {
        0
    } else {
        count_files(files.drop_last(), keep) + if keep(files.last().status) {
            1nat
        } else {
            0nat
        }
    }
}

/// The sizes of the files, added up.
pub open spec fn total_bytes(files: Seq<JobFileRecord>) -> nat
    decreases files.len(),
{
    if files.len() == 0 {
        0
    } else {
        total_bytes(files.drop_last()) + files.last().size as nat
    }
}

/// The bytes transferred of the files, added up.
pub open spec fn total_transferred(files: Seq<JobFileRecord>) -> nat
    decreases files.len(),
{
    if files.len() == 0 {
        0
    } else {
        total_transferred(files.drop_last()) + files.last().bytes_transferred as nat
    }
}

proof fn lemma_totals_grow(files: Seq<JobFileRecord>, n: int)
    requires
        0 <= n <= files.len(),
    ensures
        total_bytes(files.take(n)) <= total_bytes(files),
        total_transferred(files.take(n)) <= total_transferred(files),
    decreases files.len(),
{
    if n == files.len() {
        assert(files.take(n) =~= files);
    } else {
        assert(files.drop_last().take(n) =~= files.take(n));
        lemma_totals_grow(files.drop_last(), n);
    }
}

pub open spec fn is_failed() -> spec_fn(JobFileStatus) -> bool {
    |status: JobFileStatus| status == JobFileStatus::Failed
}

pub open spec fn is_done() -> spec_fn(JobFileStatus) -> bool {
    |status: JobFileStatus|
        status == JobFileStatus::Completed || status == JobFileStatus::Skipped
}

/// The progress of a completed job, from its files and the number of
/// directories that failed.
pub open spec fn completed_progress(
    files: Seq<JobFileRecord>,
    directory_failures: u64,
) -> TransferProgress {
    let failed = count_files(files, is_failed()) + directory_failures as nat;
    TransferProgress {
        total_files: files.len() as u64,
        completed_files: count_files(files, is_done()) as u64,
        total_bytes: total_bytes(files) as u64,
        transferred_bytes: total_transferred(files) as u64,
        failed_files: crate::plan::saturated(failed),
        ..no_progress()
    }
}

/// The progress of a completed job, unless its bytes are too many to count.
pub fn completion_progress(files: &[JobFileRecord], directory_failures: u64) -> (progress: Option<
    TransferProgress,
>)
    ensures
        match progress {
            Some(counted) => {
                &&& total_bytes(files@) <= u64::MAX
                &&& total_transferred(files@) <= u64::MAX
                &&& counted == completed_progress(files@, directory_failures)
                &&& counted.total_files == files@.len()
                &&& counted.completed_files == count_files(files@, is_done())
            },
            None => total_bytes(files@) > u64::MAX || total_transferred(files@) > u64::MAX,
        },
{
    let mut failed: u64 = 0;
    let mut done: u64 = 0;
    let mut bytes: u64 = 0;
    let mut transferred: u64 = 0;
    let mut i: usize = 0;
    assert(files@.take(0) =~= Seq::<JobFileRecord>::empty());
    while i < files.len()
        invariant
            i <= files.len(),
            failed <= i,
            done <= i,
            failed == count_files(files@.take(i as int), is_failed()),
            done == count_files(files@.take(i as int), is_done()),
            bytes == total_bytes(files@.take(i as int)),
            transferred == total_transferred(files@.take(i as int)),
        decreases files.len() - i,
    {
        assert(files@.take(i + 1).drop_last() =~= files@.take(i as int));
        assert(files@.take(i + 1).last() == files@[i as int]);
        proof {
            lemma_totals_grow(files@, i + 1);
        }
        let status = files[i].status;
        if status == JobFileStatus::Failed {
            failed = failed + 1;
        }
        if status == JobFileStatus::Completed || status == JobFileStatus::Skipped {
            done = done + 1;
        }
        bytes = match bytes.checked_add(files[i].size) {
            Some(sum) => sum,
            None => {
                return None;
            },
        };
        transferred = match transferred.checked_add(files[i].bytes_transferred) {
            Some(sum) => sum,
            None => {
                return None;
            },
        };
        i += 1;
    }
    assert(files@.take(i as int) =~= files@);
    let mut progress = TransferProgress::default();
    progress.total_files = files.len() as u64;
    progress.completed_files = done;
    progress.total_bytes = bytes;
    progress.transferred_bytes = transferred;
    progress.failed_files = failed.saturating_add(directory_failures);
    Some(progress)
}

/// The state in which a job ends, given its progress.
pub open spec fn completion_status_of(progress: TransferProgress) -> JobStatus {
    if progress.failed_files != 0 {
        JobStatus::CompletedWithErrors
    } else {
        JobStatus::Completed
    }
}

/// The state in which a job ends, given its progress.
pub fn completion_status(progress: &TransferProgress) -> (status: JobStatus)
    ensures
        status == completion_status_of(*progress),
{
    if progress.failed_files != 0 {
        JobStatus::CompletedWithErrors
    } else {
        JobStatus::Completed
    }
}

/// What is said of a job that was completed with so many failures.
pub open spec fn completion_answer(
    request: CompleteJobRequest,
    failed_files: u64,
) -> JobAcknowledgement {
    JobAcknowledgement {
        job_id: request.job_id,
        manifest_id: request.manifest_id,
        completed_with_errors: failed_files != 0,
        failed_files,
    }
}

/// What is said of a job that was completed before, from its record.
pub open spec fn repeated_answer(request: CompleteJobRequest, record: JobRecord) -> JobAcknowledgement {
    JobAcknowledgement {
        job_id: request.job_id,
        manifest_id: request.manifest_id,
        completed_with_errors: record.status == StoredJobStatus::CompletedWithErrors,
        failed_files: record.job.progress.failed_files,
    }
}

/// The answer to a job that was completed.
pub fn acknowledge_job(request: &CompleteJobRequest, failed_files: u64) -> (answer: JobAcknowledgement)
    ensures
        answer == completion_answer(*request, failed_files),
{
    JobAcknowledgement {
        job_id: request.job_id,
        manifest_id: request.manifest_id,
        completed_with_errors: failed_files != 0,
        failed_files,
    }
}

/// A job that was received from a peer and has ended.
pub open spec fn is_ended_for(record: JobRecord, peer_id: Uuid) -> bool {
    &&& record.job.peer_id == Some(peer_id)
    &&& record.job.spec_incoming()
    &&& record.status == StoredJobStatus::Completed || record.status
        == StoredJobStatus::CompletedWithErrors
}

/// The answer that a job that has ended gives again: to its peer, under its
/// manifest.
pub open spec fn answer_again(
    request: CompleteJobRequest,
    peer_id: Uuid,
    record: Option<&JobRecord>,
    stored: Option<&str>,
) -> Option<JobAcknowledgement> {
    match record {
        Some(known) => if is_ended_for(*known, peer_id) && crate::compare::stored_manifest(stored)
            == Some(request.manifest_id) {
            Some(repeated_answer(request, *known))
        } else {
            None
        },
        None => None,
    }
}

/// The answer to a job that was completed before and is asked about again: it
/// must have been this peer's, under this manifest.
pub fn acknowledge_completed_job(
    request: &CompleteJobRequest,
    peer_id: Uuid,
    record: Option<&JobRecord>,
    stored: Option<&str>,
) -> (result: Result<JobAcknowledgement, TransferError>)
    ensures
        ({
            let ended = record matches Some(known) && is_ended_for(*known, peer_id);
            let current = crate::compare::stored_manifest(stored) == Some(request.manifest_id);
            match result {
                Ok(answer) => answer_again(*request, peer_id, record, stored) == Some(answer),
                Err(TransferError::InvalidData(DataFault::JobNotFound { job_id })) => !ended
                    && job_id == request.job_id,
                Err(
                    TransferError::InvalidData(
                        DataFault::NotCompletedGeneration { manifest_id, job_id },
                    ),
                ) => {
                    &&& ended && !current
                    &&& manifest_id == request.manifest_id
                    &&& job_id == request.job_id
                },
                Err(_) => false,
            }
        }),
{
    let not_found = TransferError::InvalidData(DataFault::JobNotFound { job_id: request.job_id });
    let known = match record {
        None => {
            return Err(not_found);
        },
        Some(known) => known,
    };
    let own = match known.job.peer_id {
        Some(owner) => owner == peer_id,
        None => false,
    };
    let ended = known.status == StoredJobStatus::Completed || known.status
        == StoredJobStatus::CompletedWithErrors;
    if !own || !known.job.is_incoming() || !ended {
        return Err(not_found);
    }
    let current = match crate::compare::parse_stored_manifest(stored) {
        Some(manifest_id) => manifest_id == request.manifest_id,
        None => false,
    };
    if !current {
        return Err(
            TransferError::InvalidData(
                DataFault::NotCompletedGeneration {
                    manifest_id: request.manifest_id,
                    job_id: request.job_id,
                },
            ),
        );
    }
    Ok(
        JobAcknowledgement {
            job_id: request.job_id,
            manifest_id: request.manifest_id,
            completed_with_errors: known.status == StoredJobStatus::CompletedWithErrors,
            failed_files: known.job.progress.failed_files,
        },
    )
}

/// The job that is stored for one that is being received.
pub fn receiver_job(job: &IncomingJob) -> (stored: TransferJob)
    ensures
        stored.id == job@.parameters.key.job_id,
        stored.peer_id == Some(job@.parameters.key.peer_id),
        stored.source_root@ == Seq::<char>::empty(),
        stored.destination_root@ == job@.parameters.destination_root,
        stored.config == (TransferConfig {
            verification_mode: job@.parameters.verification_mode,
            chunk_size: job@.parameters.chunk_size,
            concurrency: SERVER_JOB_CONCURRENCY,
            retry_limit: 0,
        }),
        stored.status == JobStatus::Transferring,
        stored.progress == no_progress(),
        stored.errors@.len() == 0,
{
    proof {
        reveal_strlit("");
    }
    let mut stored = TransferJob::with_id(
        job.key().job_id,
        "",
        job.destination_root(),
        TransferConfig {
            verification_mode: job.verification_mode(),
            chunk_size: job.chunk_size(),
            concurrency: SERVER_JOB_CONCURRENCY,
            retry_limit: 0,
        },
    );
    assert(stored.source_root@ =~= Seq::<char>::empty());
    stored.peer_id = Some(job.key().peer_id);
    stored.status = JobStatus::Transferring;
    stored
}

/// A stored job belongs to one that is being received.
pub open spec fn belongs_to(record: JobRecord, job: JobView) -> bool {
    &&& record.job.peer_id == Some(job.parameters.key.peer_id)
    &&& record.job.destination_root@ == job.parameters.destination_root
    &&& record.job.spec_incoming()
    &&& record.job.config.verification_mode == job.parameters.verification_mode
    &&& record.job.config.chunk_size == job.parameters.chunk_size
}

/// Whether a stored job is the one that is being received.
pub fn receiver_job_matches(record: &JobRecord, job: &IncomingJob) -> (matching: bool)
    ensures
        matching == belongs_to(*record, job@),
{
    let own = match record.job.peer_id {
        Some(owner) => owner == job.key().peer_id,
        None => false,
    };
    own && is_text(record.job.destination_root.as_str(), job.destination_root())
        && record.job.is_incoming() && record.job.config.verification_mode
        == job.verification_mode() && record.job.config.chunk_size == job.chunk_size()
}

/// Accepts a stored job that was there before as the one to go on with, and says in
/// which state: it is transferring again.
pub fn ensure_receiver_job(record: Option<&JobRecord>, job: &IncomingJob) -> (result: Result<
    JobStatus,
    TransferError,
>)
    ensures
        match (record, result) {
            (Some(known), Ok(status)) => belongs_to(*known, job@) && status
                == JobStatus::Transferring,
            (Some(known), Err(TransferError::InvalidData(DataFault::ForeignJob { job_id }))) =>
                !belongs_to(*known, job@) && job_id == job@.parameters.key.job_id,
            (None, Err(TransferError::Task(message))) => message@ == "job "@
                + job@.parameters.key.job_id.spec_text()
                + " disappeared while validating receiver ownership"@,
            _ => false,
        },
{
    match record {
        None => {
            let mut message = "job ".to_owned();
            message.append(job.key().job_id.to_text().as_str());
            message.append(" disappeared while validating receiver ownership");
            Err(TransferError::Task(message))
        },
        Some(known) => {
            if receiver_job_matches(known, job) {
                Ok(JobStatus::Transferring)
            } else {
                Err(
                    TransferError::InvalidData(
                        DataFault::ForeignJob { job_id: job.key().job_id },
                    ),
                )
            }
        },
    }
}

/// Lets an abandoned job be retired while it owns its stored job, and says in which
/// state that is left: interrupted.
pub fn retire_incoming_job(record: Option<&JobRecord>, job: &IncomingJob) -> (result: Result<
    StoredJobStatus,
    TransferError,
>)
    ensures
        ({
            let owns = record matches Some(known) && belongs_to(*known, job@);
            match result {
                Ok(status) => owns && status == StoredJobStatus::Interrupted,
                Err(TransferError::InvalidData(DataFault::ForeignRecord { job_id })) => !owns
                    && job_id == job@.parameters.key.job_id,
                Err(_) => false,
            }
        }),
{
    let owns = match record {
        Some(known) => receiver_job_matches(known, job),
        None => false,
    };
    if owns {
        Ok(StoredJobStatus::Interrupted)
    } else {
        Err(TransferError::InvalidData(DataFault::ForeignRecord { job_id: job.key().job_id }))
    }
}

/// A job that is stored for one that is being received belongs to it.
pub proof fn law_receiver_job_belongs(record: JobRecord, job: JobView)
    requires
        record.job.peer_id == Some(job.parameters.key.peer_id),
        record.job.source_root@ == Seq::<char>::empty(),
        record.job.destination_root@ == job.parameters.destination_root,
        record.job.config == (TransferConfig {
            verification_mode: job.parameters.verification_mode,
            chunk_size: job.parameters.chunk_size,
            concurrency: SERVER_JOB_CONCURRENCY,
            retry_limit: 0,
        }),
    ensures
        belongs_to(record, job),
{
}

proof fn lemma_no_failures(files: Seq<JobFileRecord>)
    ensures
        count_files(files, is_failed()) == 0 <==> forall|i: int|
            0 <= i < files.len() ==> (#[trigger] files[i]).status != JobFileStatus::Failed,
    decreases files.len(),
{
    if files.len() > 0 {
        let earlier = files.drop_last();
        lemma_no_failures(earlier);
        assert forall|i: int| 0 <= i < earlier.len() implies earlier[i] == #[trigger] files[i] by {}
        if forall|i: int|
            0 <= i < files.len() ==> (#[trigger] files[i]).status != JobFileStatus::Failed {
            assert(files.last().status != JobFileStatus::Failed);
        }
    }
}

/// A job is completed without errors exactly if no file and no directory failed.
pub proof fn law_completed_means_nothing_failed(files: Seq<JobFileRecord>, directory_failures: u64)
    ensures
        completed_progress(files, directory_failures).failed_files == 0 <==> (directory_failures
            == 0 && forall|i: int|
            0 <= i < files.len() ==> (#[trigger] files[i]).status != JobFileStatus::Failed),
{
    lemma_no_failures(files);
}

/// The rows once every file that the sender did not finish has failed, and no
/// other has changed its state.
pub open spec fn settles(before: Seq<JobFileRecord>, after: Seq<JobFileRecord>) -> bool {
    &&& before.len() == after.len()
    &&& forall|i: int|
        0 <= i < before.len() ==> (#[trigger] after[i]).status == if is_unfinished(
            before[i].status,
        ) {
            JobFileStatus::Failed
        } else {
            before[i].status
        }
}

/// Once the rows are settled no file is unfinished, and those that were never
/// finalized count as failed, beside the files and directories that had failed.
pub proof fn law_unfinished_files_have_failed(
    before: Seq<JobFileRecord>,
    after: Seq<JobFileRecord>,
    directory_failures: u64,
)
    requires
        settles(before, after),
    ensures
        unfinished(after).len() == 0,
        count_files(after, is_failed()) == count_files(before, is_failed()) + unfinished(
            before,
        ).len(),
        completed_progress(after, directory_failures).failed_files == crate::plan::saturated(
            count_files(before, is_failed()) + unfinished(before).len() + directory_failures as nat,
        ),
    decreases before.len(),
{
    if before.len() > 0 {
        let (earlier, later) = (before.drop_last(), after.drop_last());
        assert forall|i: int| 0 <= i < earlier.len() implies (#[trigger] later[i]).status
            == if is_unfinished(earlier[i].status) {
            JobFileStatus::Failed
        } else {
            earlier[i].status
        } by {
            assert(after[i] == later[i]);
        }
        law_unfinished_files_have_failed(earlier, later, directory_failures);
        assert(after[after.len() - 1] == after.last());
    }
}

/// A lost answer can be asked for again: from the record of a completed job the
/// same peer gets the same answer under the same manifest, and no other peer and
/// no other manifest gets any. It tells of errors exactly where something failed.
pub proof fn law_lost_answers_are_repeated(
    request: CompleteJobRequest,
    peer_id: Uuid,
    record: &JobRecord,
    stored: Option<&str>,
    files: Seq<JobFileRecord>,
    directory_failures: u64,
    other: CompleteJobRequest,
    other_peer: Uuid,
)
    requires
        record.job.peer_id == Some(peer_id),
        record.job.spec_incoming(),
        record.job.progress == completed_progress(files, directory_failures),
        record.status == if record.job.progress.failed_files != 0 {
            StoredJobStatus::CompletedWithErrors
        } else {
            StoredJobStatus::Completed
        },
        crate::compare::stored_manifest(stored) == Some(request.manifest_id),
        other.manifest_id != request.manifest_id,
        other_peer != peer_id,
    ensures
        ({
            let failed = completed_progress(files, directory_failures).failed_files;
            let answer = completion_answer(request, failed);
            &&& answer_again(request, peer_id, Some(record), stored) == Some(answer)
            &&& answer_again(other, peer_id, Some(record), stored) is None
            &&& answer_again(request, other_peer, Some(record), stored) is None
            &&& answer.completed_with_errors <==> answer.failed_files > 0
        }),
{
}

proof fn lemma_counts_are_bounded(files: Seq<JobFileRecord>, keep: spec_fn(JobFileStatus) -> bool)
    ensures
        count_files(files, keep) <= files.len(),
    decreases files.len(),
{
    if files.len() > 0 {
        lemma_counts_are_bounded(files.drop_last(), keep);
    }
}

/// The progress of a completed job counts file by file: each counts once and with its
/// bytes, as done if it was completed or skipped, as failed if it failed, and as neither
/// otherwise. Directories that failed count as failed too.
pub proof fn law_progress_counts_each_file(
    files: Seq<JobFileRecord>,
    record: JobFileRecord,
    directory_failures: u64,
)
    requires
        files.len() < u64::MAX,
        total_bytes(files) + record.size <= u64::MAX,
        total_transferred(files) + record.bytes_transferred <= u64::MAX,
        files.len() + directory_failures < u64::MAX,
    ensures
        ({
            let none = completed_progress(Seq::empty(), directory_failures);
            let before = completed_progress(files, directory_failures);
            let after = completed_progress(files.push(record), directory_failures);
            let done = record.status == JobFileStatus::Completed || record.status
                == JobFileStatus::Skipped;
            let failed = record.status == JobFileStatus::Failed;
            &&& none.total_files == 0 && none.completed_files == 0 && none.total_bytes == 0
            &&& none.transferred_bytes == 0 && none.failed_files == directory_failures
            &&& after.total_files == before.total_files + 1
            &&& after.total_bytes == before.total_bytes + record.size
            &&& after.transferred_bytes == before.transferred_bytes + record.bytes_transferred
            &&& after.completed_files == before.completed_files + if done {
                1int
            } else {
                0
            }
            &&& after.failed_files == before.failed_files + if failed {
                1int
            } else {
                0
            }
        }),
{
    let longer = files.push(record);
    assert(longer.drop_last() =~= files);
    assert(longer.last() == record);
    lemma_counts_are_bounded(files, is_done());
    lemma_counts_are_bounded(files, is_failed());
    lemma_counts_are_bounded(longer, is_done());
    lemma_counts_are_bounded(longer, is_failed());
}

/// The unfinished files are those whose rows are pending or running, and no others.
pub proof fn law_which_files_are_unfinished(files: Seq<JobFileRecord>, path: Seq<char>)
    ensures
        unfinished(files).contains(path) <==> exists|i: int|
            0 <= i < files.len() && (#[trigger] files[i]).path@ == path && (files[i].status
                == JobFileStatus::Pending || files[i].status == JobFileStatus::Running),
    decreases files.len(),
{
    if files.len() > 0 {
        let rest = files.drop_last();
        let last = files.len() - 1;
        law_which_files_are_unfinished(rest, path);
        let wanted = files[last].status == JobFileStatus::Pending || files[last].status
            == JobFileStatus::Running;
        if unfinished(files).contains(path) {
            let k = choose|k: int| 0 <= k < unfinished(files).len() && unfinished(files)[k] == path;
            if k < unfinished(rest).len() {
                assert(unfinished(rest)[k] == path);
                assert(unfinished(rest).contains(path));
                let i = choose|i: int|
                    0 <= i < rest.len() && (#[trigger] rest[i]).path@ == path && (rest[i].status
                        == JobFileStatus::Pending || rest[i].status == JobFileStatus::Running);
                assert(files[i] == rest[i]);
            } else {
                assert(files[last].path@ == path);
            }
        }
        if exists|i: int|
            0 <= i < files.len() && (#[trigger] files[i]).path@ == path && (files[i].status
                == JobFileStatus::Pending || files[i].status == JobFileStatus::Running) {
            let i = choose|i: int|
                0 <= i < files.len() && (#[trigger] files[i]).path@ == path && (files[i].status
                    == JobFileStatus::Pending || files[i].status == JobFileStatus::Running);
            if i < last {
                assert(rest[i] == files[i]);
                let k = choose|k: int|
                    0 <= k < unfinished(rest).len() && unfinished(rest)[k] == path;
                assert(unfinished(files)[k] == path);
            } else {
                assert(unfinished(files).last() == path);
            }
        }
    }
}

/// A file that is in its place is intact exactly if it agrees with what was sent in
/// type, size, modification time and access, and has the hash of what was sent.
pub proof fn law_what_is_intact(
    file: HashedFile,
    actual: Option<&ManifestEntry>,
    hash: Option<&ContentHash>,
)
    ensures
        actual is None || hash is None ==> !is_intact(file, actual, hash),
        actual is Some && hash is Some ==> (is_intact(file, actual, hash) <==> actual->0.file_type
            == file.entry.file_type && actual->0.size == file.entry.size && actual->0.mtime_ns
            == file.entry.mtime_ns && actual->0.read_only == file.entry.read_only && *hash->0
            == file.hash),
{
}

/// What a request to finalize a file needs: an active job whose committed manifest it
/// names, a regular layout, the very file that was negotiated, its lease, and no chunk
/// on its way.
pub proof fn law_what_may_be_finalized(
    job: JobView,
    leases: &DestinationLeases,
    file: Option<&IncomingFile>,
    request: FinalizeFileRequest,
)
    ensures
        may_finalize(job, leases, file, request) <==> {
            &&& job.phase == JobPhase::Active
            &&& job.complete && job.committed == Some(request.manifest_id)
            &&& layout_fault(request.file@, job.parameters.chunk_size) is None
            &&& file is Some
            &&& file->0@.file == request.file@
            &&& leases.holds(
                job.parameters.key,
                file->0@.destination,
                request.file.entry.relative_path@,
            )
            &&& forall|index: u64| !file->0@.inflight.contains(index)
        },
{
    if file is Some {
        assert((forall|index: u64| !file->0@.inflight.contains(index)) <==> file->0@.inflight
            =~= no_chunks());
    }
}

/// A stored job is the one that is being received exactly if the same peer sends it to
/// the same place, compared in the same way and in chunks of the same size.
pub proof fn law_which_record_belongs(record: JobRecord, job: JobView)
    ensures
        belongs_to(record, job) <==> {
            &&& record.job.peer_id == Some(job.parameters.key.peer_id)
            &&& record.job.destination_root@ == job.parameters.destination_root
            &&& record.job.source_root@.len() == 0
            &&& record.job.config.verification_mode == job.parameters.verification_mode
            &&& record.job.config.chunk_size == job.parameters.chunk_size
        },
{
}

/// Only the record of a received job that is completed, with errors or without, answers
/// a repeated request.
pub proof fn law_only_completed_jobs_answer_again(
    request: CompleteJobRequest,
    peer_id: Uuid,
    record: &JobRecord,
    stored: Option<&str>,
)
    ensures
        answer_again(request, peer_id, None, stored) is None,
        answer_again(request, peer_id, Some(record), None) is None,
        answer_again(request, peer_id, Some(record), stored) is Some ==> {
            &&& record.status == StoredJobStatus::Completed || record.status
                == StoredJobStatus::CompletedWithErrors
            &&& record.job.source_root@.len() == 0
            &&& record.job.peer_id == Some(peer_id)
        },
{
}

/// Nothing is refused that is allowed: a job that is closed for a request is not open
/// for it, and a file that may not be finalized is refused for the first thing that it
/// lacks.
pub proof fn law_refusals_are_not_permissions(
    job: JobView,
    leases: &DestinationLeases,
    file: Option<&IncomingFile>,
    request: FinalizeFileRequest,
    error: TransferError,
)
    requires
        !may_finalize(job, leases, file, request),
        is_finalize_refusal(job, leases, file, request, error),
    ensures
        is_closed(job, request.manifest_id, error) ==> !is_open(job, request.manifest_id),
        is_open(job, request.manifest_id) <==> job.phase == JobPhase::Active && job.complete
            && job.committed == Some(request.manifest_id),
        error matches TransferError::Network(fault) ==> fault is JobRetiring && job.phase
            != JobPhase::Active,
        error matches TransferError::InvalidData(fault) ==> {
            &&& fault is ManifestInactive ==> job.phase == JobPhase::Active && !(job.complete
                && job.committed == Some(request.manifest_id))
            &&& fault is NotNegotiated ==> file is None
            &&& fault is FinalizeDiffers ==> file is Some && file->0@.file != request.file@
            &&& fault is LeaseLost ==> file is Some && !leases.holds(
                job.parameters.key,
                file->0@.destination,
                request.file.entry.relative_path@,
            )
            &&& fault is ChunksUploading ==> file is Some && file->0@.inflight != no_chunks()
        },
{
}

/// What is missing or changed in its place is told apart: whether something is there,
/// and whether it was received or reused.
pub proof fn law_faults_in_place_are_told_apart(
    file: HashedFile,
    reused: bool,
    found: bool,
    error: TransferError,
)
    requires
        is_in_place_fault(file, reused, found, error),
    ensures
        error is InvalidData,
        error->InvalidData_0 is PartialAndDestinationMissing <==> !found && !reused,
        error->InvalidData_0 is ReusedDestinationGone <==> !found && reused,
        error->InvalidData_0 is PartialMissing <==> found && !reused,
        error->InvalidData_0 is ReusedDestinationChanged <==> found && reused,
{
}

/// An answer names the job and the manifest that were asked about, and counts what
/// failed.
pub proof fn law_answers_name_their_job(
    request: CompleteJobRequest,
    failed_files: u64,
    record: JobRecord,
)
    ensures
        ({
            let answer = completion_answer(request, failed_files);
            let again = repeated_answer(request, record);
            &&& answer.job_id == request.job_id && answer.manifest_id == request.manifest_id
            &&& answer.failed_files == failed_files
            &&& answer.completed_with_errors <==> failed_files > 0
            &&& again.job_id == request.job_id && again.manifest_id == request.manifest_id
            &&& again.failed_files == record.job.progress.failed_files
            &&& again.completed_with_errors <==> record.status is CompletedWithErrors
        }),
{
}

/// A job ends without errors exactly if no file and no directory of it failed.
pub proof fn law_how_completed_jobs_end(files: Seq<JobFileRecord>, directory_failures: u64)
    ensures
        ({
            let status = completion_status_of(completed_progress(files, directory_failures));
            &&& status is Completed <==> directory_failures == 0 && forall|i: int|
                0 <= i < files.len() ==> (#[trigger] files[i]).status != JobFileStatus::Failed
            &&& status is Completed || status is CompletedWithErrors
        }),
{
    law_completed_means_nothing_failed(files, directory_failures);
}

} // verus!
