//! How the receiver serves a request: from the frame to the answer.

use crate::completion::{
    acknowledge_file, acknowledge_job, check_chunks_complete, check_file_row, check_finalize,
    check_in_place, completed_progress, completion_answer, completion_directory,
    completion_progress, completion_status, is_directory_refusal, is_finalize_refusal,
    is_first_gap, is_in_place_fault, may_finalize, total_bytes, total_transferred, unfinished,
    unfinished_files, UNFINISHED_FILE_ERROR,
};
use crate::decisions::{update_views, FileUpdate};
use crate::digest::blake3_digest;
use crate::error::{CoreError, DataFault, TransferError};
use crate::filesystem::finalize_error;
use crate::ids::Uuid;
use crate::incoming::IncomingFile;
use crate::lease::DestinationLeases;
use crate::manifest::{accepts_manifest, Directory, IncomingJob, IncomingJobKey};
use crate::metadata::metadata_matches;
use crate::model::{ContentHash, FileType, JobStatus, ManifestEntry, TransferProgress};
use crate::partial::{
    finalize_hashed_file_from_cancellable, law_published_content_was_verified, Finalization,
    VerifiedPartial,
};
use crate::path::{is_wire_path, join_components};
use crate::protocol::{Versioned, PROTOCOL_VERSION};
use crate::receiver::{
    authorize_request, is_refusal, remote_code, remote_error, request_job_key, version_refusal,
};
use crate::records::{JobFileRecord, JobFileStatus};
use crate::stream::{
    request_job_id, request_path, Acknowledgement, CompleteJobRequest, FileAcknowledgement,
    FinalizeFileRequest, JobAcknowledgement, RemoteError, RemoteErrorCode, Request, Response,
};
use crate::text::{view_of, views};
use std::collections::HashSet;
use vstd::prelude::*;

verus! {

/// What the finalization of a file needs next.
#[derive(Debug, Clone, Copy, PartialEq, Eq, Structural)]
pub enum FinalizeNeed {
    /// The chunks that are recorded as complete.
    Chunks,
    /// Whether the staging file is there.
    Staging,
    /// The staging file verified and put in the place of the destination.
    Publication,
    /// What is at the destination.
    Destination,
    /// The digest of the destination.
    DestinationHash,
    /// The rows of the chunks removed.
    ClearedChunks,
    /// The row of the file with all of its bytes.
    ProgressRow,
    /// The row of the file completed.
    StatusRow,
    /// Nothing but the answer.
    Answer,
}

/// Why the contents at the destination are the right ones.
pub ghost enum Evidence {
    Nothing,
    /// The staging file, as it was verified, was published.
    Published(VerifiedPartial),
    /// The destination has this digest.
    Hashed(ContentHash),
}

/// The finalization of one file.
pub struct FinalizeRun {
    request: FinalizeFileRequest,
    destination: String,
    staging: String,
    reused: bool,
    need: FinalizeNeed,
    actual: Option<ManifestEntry>,
    evidence: Ghost<Evidence>,
}

impl FinalizeRun {
    pub closed spec fn spec_request(self) -> FinalizeFileRequest {
        self.request
    }

    pub closed spec fn spec_destination(self) -> Seq<char> {
        self.destination@
    }

    pub closed spec fn spec_staging(self) -> Seq<char> {
        self.staging@
    }

    /// The destination was taken for the file when it was negotiated.
    pub closed spec fn spec_reused(self) -> bool {
        self.reused
    }

    pub closed spec fn spec_need(self) -> FinalizeNeed {
        self.need
    }

    pub closed spec fn spec_evidence(self) -> Evidence {
        self.evidence@
    }

    /// What was found at the destination.
    pub closed spec fn spec_actual(self) -> Option<ManifestEntry> {
        self.actual
    }

    /// What was found at the destination has the metadata of the file.
    pub open spec fn is_matching(self) -> bool {
        self.spec_actual() matches Some(found) && found.spec_metadata()
            == self.spec_request().file.entry.spec_metadata()
    }

    /// The destination holds what the request describes: it was found with the
    /// metadata and the hash of the file, or it was replaced by staged content that
    /// was read, has that hash and is as long as the file.
    pub open spec fn is_verified(self) -> bool {
        match self.spec_evidence() {
            Evidence::Nothing => false,
            Evidence::Published(partial) => {
                &&& partial.spec_path() == self.spec_staging()
                &&& partial.spec_hash() == self.spec_request().file.hash
                &&& blake3_digest(partial.content()) == self.spec_request().file.hash@
                &&& partial.spec_metadata().size == self.spec_request().file.entry.size
            },
            Evidence::Hashed(hash) => hash == self.spec_request().file.hash && self.is_matching(),
        }
    }

    /// The file, its places and what is known of them are those of another run.
    pub open spec fn is_about(self, other: Self) -> bool {
        &&& self.spec_request() == other.spec_request()
        &&& self.spec_destination() == other.spec_destination()
        &&& self.spec_staging() == other.spec_staging()
        &&& self.spec_reused() == other.spec_reused()
    }

    /// No row changes and no answer is given before the contents are verified.
    pub open spec fn wf(self) -> bool {
        match self.spec_need() {
            FinalizeNeed::Chunks | FinalizeNeed::Staging | FinalizeNeed::Publication => {
                !self.spec_reused()
            },
            FinalizeNeed::Destination => true,
            FinalizeNeed::DestinationHash => self.is_matching(),
            _ => self.is_verified(),
        }
    }

    /// Admits the finalization of a file.
    pub fn begin(
        job: &IncomingJob,
        leases: &DestinationLeases,
        file: Option<&IncomingFile>,
        request: FinalizeFileRequest,
    ) -> (result: Result<Self, TransferError>)
        ensures
            match result {
                Ok(run) => {
                    &&& run.wf()
                    &&& run.spec_request() == request
                    &&& may_finalize(job@, leases, file, request)
                    &&& run.spec_destination() == file->0@.destination
                    &&& run.spec_staging() == file->0@.staging
                    &&& run.spec_reused() == file->0@.finalized
                    &&& run.spec_need() == if file->0@.finalized {
                        FinalizeNeed::Destination
                    } else {
                        FinalizeNeed::Chunks
                    }
                },
                Err(error) => !may_finalize(job@, leases, file, request) && is_finalize_refusal(
                    job@,
                    leases,
                    file,
                    request,
                    error,
                ),
            },
    {
        match check_finalize(job, leases, file, &request) {
            Ok(_) => {},
            Err(error) => return Err(error),
        }
        let (reused, destination, staging) = match file {
            Some(known) => (
                known.is_finalized(),
                known.destination().to_owned(),
                known.staging().to_owned(),
            ),
            None => (false, "".to_owned(), "".to_owned()),
        };
        Ok(
            FinalizeRun {
                request,
                destination,
                staging,
                reused,
                need: if reused {
                    FinalizeNeed::Destination
                } else {
                    FinalizeNeed::Chunks
                },
                actual: None,
                evidence: Ghost(Evidence::Nothing),
            },
        )
    }

    pub fn need(&self) -> (need: FinalizeNeed)
        ensures
            need == self.spec_need(),
    {
        self.need
    }

    pub fn request(&self) -> (request: &FinalizeFileRequest)
        ensures
            *request == self.spec_request(),
    {
        &self.request
    }

    /// Takes the chunks that are recorded as complete: all of them must be.
    pub fn chunks(&mut self, completed: &HashSet<u64>) -> (result: Result<(), TransferError>)
        requires
            old(self).wf(),
            old(self).spec_need() == FinalizeNeed::Chunks,
        ensures
            final(self).wf(),
            final(self).is_about(*old(self)),
            final(self).spec_evidence() == old(self).spec_evidence(),
            ({
                let chunks = old(self).spec_request().file.chunks@;
                let complete = forall|i: int|
                    0 <= i < chunks.len() ==> completed@.contains((#[trigger] chunks[i]).index);
                match result {
                    Ok(_) => complete && final(self).spec_need() == FinalizeNeed::Staging,
                    Err(error) => {
                        &&& !complete
                        &&& is_first_gap(old(self).spec_request().file, completed@, error)
                        &&& final(self).spec_need() == FinalizeNeed::Chunks
                    },
                }
            }),
    {
        match check_chunks_complete(&self.request.file, completed) {
            Ok(_) => {
                self.need = FinalizeNeed::Staging;
                Ok(())
            },
            Err(error) => Err(error),
        }
    }

    /// Takes whether the staging file is there.
    pub fn staging(&mut self, present: bool)
        requires
            old(self).wf(),
            old(self).spec_need() == FinalizeNeed::Staging,
        ensures
            final(self).wf(),
            final(self).is_about(*old(self)),
            final(self).spec_evidence() == old(self).spec_evidence(),
            final(self).spec_need() == if present {
                FinalizeNeed::Publication
            } else {
                FinalizeNeed::Destination
            },
    {
        self.need = if present {
            FinalizeNeed::Publication
        } else {
            FinalizeNeed::Destination
        };
    }

    /// Starts to put the staging file in the place of the destination, unless the
    /// work has been cancelled.
    pub fn publication(&self, cancelled: bool) -> (result: Result<Finalization, TransferError>)
        requires
            self.wf(),
            self.spec_need() == FinalizeNeed::Publication,
        ensures
            ({
                let file = self.spec_request().file;
                match result {
                    Ok(finalization) => {
                        &&& file.entry.file_type == FileType::File && !cancelled
                        &&& finalization.starts(
                            self.spec_staging(),
                            self.spec_destination(),
                            file.hash,
                            Some(file.entry),
                        )
                    },
                    Err(TransferError::Cancelled) => file.entry.file_type == FileType::File
                        && cancelled,
                    Err(TransferError::Core(CoreError::NotRegularFile { path })) => {
                        &&& file.entry.file_type != FileType::File
                        &&& path@ == self.spec_staging()
                    },
                    Err(_) => false,
                }
            }),
    {
        match finalize_hashed_file_from_cancellable(
            self.staging.as_str(),
            self.destination.as_str(),
            &self.request.file,
            cancelled,
        ) {
            Ok(finalization) => Ok(finalization),
            Err(error) => Err(finalize_error(error)),
        }
    }

    /// The destination has been replaced: a finalization of this file has come to
    /// its end.
    pub fn published(&mut self, done: &Finalization)
        requires
            old(self).wf(),
            old(self).spec_need() == FinalizeNeed::Publication,
            done.wf(),
            done.spec_stage() is Done,
            done.spec_partial_path() == old(self).spec_staging(),
            done.spec_destination() == old(self).spec_destination(),
            done.spec_hash() == old(self).spec_request().file.hash,
            done.spec_entry() == Some(old(self).spec_request().file.entry),
        ensures
            final(self).wf(),
            final(self).is_about(*old(self)),
            final(self).spec_evidence() == Evidence::Published(done.spec_verified()->0),
            final(self).spec_need() == FinalizeNeed::ClearedChunks,
    {
        proof {
            law_published_content_was_verified(*done);
        }
        self.evidence = Ghost(Evidence::Published(done.spec_verified()->0));
        self.need = FinalizeNeed::ClearedChunks;
    }

    /// Takes what is at the destination: only a file with the right metadata is
    /// worth hashing.
    pub fn destination(&mut self, actual: Option<ManifestEntry>) -> (result: Result<
        (),
        TransferError,
    >)
        requires
            old(self).wf(),
            old(self).spec_need() == FinalizeNeed::Destination,
        ensures
            final(self).wf(),
            final(self).is_about(*old(self)),
            final(self).spec_evidence() == old(self).spec_evidence(),
            ({
                let matching = actual matches Some(found) && found.spec_metadata() == old(
                    self,
                ).spec_request().file.entry.spec_metadata();
                match result {
                    Ok(_) => matching && final(self).spec_need() == FinalizeNeed::DestinationHash,
                    Err(error) => {
                        &&& !matching
                        &&& is_in_place_fault(
                            old(self).spec_request().file,
                            old(self).spec_reused(),
                            actual is Some,
                            error,
                        )
                        &&& final(self).spec_need() == FinalizeNeed::Destination
                    },
                }
            }),
    {
        let matching = match &actual {
            Some(found) => metadata_matches(&self.request.file.entry, found),
            None => false,
        };
        if !matching {
            return check_in_place(&self.request.file, self.reused, actual.as_ref(), None);
        }
        self.actual = actual;
        self.need = FinalizeNeed::DestinationHash;
        Ok(())
    }

    /// Takes the digest of the destination, which must be that of the file.
    pub fn destination_hash(&mut self, hash: &ContentHash) -> (result: Result<(), TransferError>)
        requires
            old(self).wf(),
            old(self).spec_need() == FinalizeNeed::DestinationHash,
        ensures
            final(self).wf(),
            final(self).is_about(*old(self)),
            match result {
                Ok(_) => {
                    &&& *hash == old(self).spec_request().file.hash
                    &&& final(self).spec_evidence() == Evidence::Hashed(*hash)
                    &&& final(self).spec_need() == FinalizeNeed::ClearedChunks
                },
                Err(error) => {
                    &&& *hash != old(self).spec_request().file.hash
                    &&& is_in_place_fault(
                        old(self).spec_request().file,
                        old(self).spec_reused(),
                        true,
                        error,
                    )
                    &&& final(self).spec_need() == FinalizeNeed::DestinationHash
                },
            },
    {
        match check_in_place(&self.request.file, self.reused, self.actual.as_ref(), Some(hash)) {
            Ok(_) => {
                self.evidence = Ghost(Evidence::Hashed(*hash));
                self.need = FinalizeNeed::ClearedChunks;
                Ok(())
            },
            Err(error) => Err(error),
        }
    }

    /// The rows of the chunks are removed.
    pub fn cleared(&mut self)
        requires
            old(self).wf(),
            old(self).spec_need() == FinalizeNeed::ClearedChunks,
        ensures
            final(self).wf(),
            final(self).is_about(*old(self)),
            final(self).spec_evidence() == old(self).spec_evidence(),
            final(self).spec_need() == FinalizeNeed::ProgressRow,
    {
        self.need = FinalizeNeed::ProgressRow;
    }

    /// The bytes that the row of the file gets: all of them.
    pub fn progress_row(&self) -> (bytes: u64)
        requires
            self.wf(),
            self.spec_need() == FinalizeNeed::ProgressRow,
        ensures
            self.is_verified(),
            bytes == self.spec_request().file.entry.size,
    {
        self.request.file.entry.size
    }

    /// The state that the row of the file gets: completed, without an error.
    pub fn status_row(&self) -> (update: FileUpdate)
        requires
            self.wf(),
            self.spec_need() == FinalizeNeed::StatusRow,
        ensures
            self.is_verified(),
            update.path@ == self.spec_request().file.entry.relative_path@,
            update.status == JobFileStatus::Completed,
            update.error is None,
    {
        FileUpdate {
            path: self.request.file.entry.relative_path.clone(),
            status: JobFileStatus::Completed,
            error: None,
        }
    }

    /// Takes whether the row of the file was there to be updated.
    pub fn row_updated(&mut self, updated: bool) -> (result: Result<(), TransferError>)
        requires
            old(self).wf(),
            old(self).spec_need() == FinalizeNeed::ProgressRow || old(self).spec_need()
                == FinalizeNeed::StatusRow,
        ensures
            final(self).wf(),
            final(self).is_about(*old(self)),
            final(self).spec_evidence() == old(self).spec_evidence(),
            match result {
                Ok(_) => updated && final(self).spec_need() == if old(self).spec_need()
                    == FinalizeNeed::ProgressRow {
                    FinalizeNeed::StatusRow
                } else {
                    FinalizeNeed::Answer
                },
                Err(TransferError::InvalidData(DataFault::FileRowMissing { path })) => {
                    &&& !updated
                    &&& path@ == old(self).spec_request().file.entry.relative_path@
                    &&& final(self).spec_need() == old(self).spec_need()
                },
                Err(_) => false,
            },
    {
        match check_file_row(self.request.file.entry.relative_path.as_str(), updated) {
            Ok(_) => {},
            Err(error) => return Err(error),
        }
        self.need = if self.need == FinalizeNeed::ProgressRow {
            FinalizeNeed::StatusRow
        } else {
            FinalizeNeed::Answer
        };
        Ok(())
    }

    /// The answer: the file is finalized.
    pub fn answer(self) -> (response: Response)
        requires
            self.wf(),
            self.spec_need() == FinalizeNeed::Answer,
        ensures
            self.is_verified(),
            response == Response::Acknowledged(
                Acknowledgement::File(
                    FileAcknowledgement {
                        job_id: self.spec_request().job_id,
                        manifest_id: self.spec_request().manifest_id,
                        path: self.spec_request().file.entry.relative_path,
                    },
                ),
            ),
    {
        Response::Acknowledged(Acknowledgement::File(acknowledge_file(&self.request)))
    }
}

/// The files that the sender did not finish, in order: they have failed, for that
/// reason.
pub open spec fn unfinished_updates(files: Seq<JobFileRecord>) -> Seq<
    (Seq<char>, JobFileStatus, Option<Seq<char>>),
> {
    Seq::new(
        unfinished(files).len(),
        |i: int| (unfinished(files)[i], JobFileStatus::Failed, Some(UNFINISHED_FILE_ERROR@)),
    )
}

/// The completion of a job.
pub struct CompletionRun {
    request: CompleteJobRequest,
    directories: Vec<Directory>,
    index: usize,
}

/// How a job has been completed.
pub struct Completion {
    pub status: JobStatus,
    pub progress: TransferProgress,
    /// The staging root is of no use any more.
    pub cleans_staging: bool,
    pub answer: JobAcknowledgement,
}

impl CompletionRun {
    pub closed spec fn spec_request(self) -> CompleteJobRequest {
        self.request
    }

    /// The directories to give their metadata, those below before those above.
    pub closed spec fn spec_directories(self) -> Seq<Directory> {
        self.directories@
    }

    /// How many directories have been looked at.
    pub closed spec fn spec_index(self) -> int {
        self.index as int
    }

    pub open spec fn wf(self) -> bool {
        &&& 0 <= self.spec_index() <= self.spec_directories().len()
        &&& crate::order::is_sorted(self.spec_directories())
    }

    /// Begins the completion, for the manifest that was committed last.
    pub fn begin(job: &IncomingJob, request: CompleteJobRequest) -> (result: Result<
        Self,
        TransferError,
    >)
        ensures
            match result {
                Ok(run) => {
                    &&& accepts_manifest(job@, request.manifest_id)
                    &&& run.wf()
                    &&& run.spec_request() == request
                    &&& run.spec_index() == 0
                    &&& run.spec_directories().to_multiset() == job@.directories.to_multiset()
                },
                Err(error) => {
                    &&& !accepts_manifest(job@, request.manifest_id)
                    &&& error == TransferError::InvalidData(
                        DataFault::ManifestInactive {
                            manifest_id: request.manifest_id,
                            job_id: job@.parameters.key.job_id,
                        },
                    )
                },
            },
    {
        match job.validate_manifest_id(request.manifest_id) {
            Ok(_) => {},
            Err(error) => return Err(error),
        }
        Ok(CompletionRun { request, directories: job.directories_deepest_first(), index: 0 })
    }

    /// The next directory and where it is, if there is one. Its path must still
    /// be leased to the job.
    pub fn next_directory(&self, job: &IncomingJob, leases: &DestinationLeases) -> (next: Option<
        Result<String, TransferError>,
    >)
        requires
            self.wf(),
        ensures
            next is None <==> self.spec_index() == self.spec_directories().len(),
            next is Some ==> ({
                let wire_path = self.spec_directories()[self.spec_index()].entry.relative_path@;
                let directory = join_components(
                    job@.parameters.platform,
                    job@.parameters.destination_root,
                    crate::text::split(wire_path, '/'),
                );
                let held = leases.holds(job@.parameters.key, directory, wire_path);
                match next->0 {
                    Ok(path) => is_wire_path(wire_path) && held && path@ == directory,
                    Err(error) => is_directory_refusal(job@, held, wire_path, error),
                }
            }),
    {
        if self.index == self.directories.len() {
            return None;
        }
        let directory = &self.directories[self.index];
        let located = completion_directory(job, leases, directory.entry.relative_path.as_str());
        Some(located)
    }

    /// The entry whose metadata the next directory gets.
    pub fn directory(&self) -> (entry: &ManifestEntry)
        requires
            self.wf(),
            self.spec_index() < self.spec_directories().len(),
        ensures
            *entry == self.spec_directories()[self.spec_index()].entry,
    {
        &self.directories[self.index].entry
    }

    /// The directory has its metadata.
    pub fn applied(&mut self)
        requires
            old(self).wf(),
            old(self).spec_index() < old(self).spec_directories().len(),
        ensures
            final(self).wf(),
            final(self).spec_request() == old(self).spec_request(),
            final(self).spec_directories() == old(self).spec_directories(),
            final(self).spec_index() == old(self).spec_index() + 1,
    {
        let count: usize = self.directories.len();
        assert(self.index < count);
        self.index = self.index + 1;
    }

    /// The new states of the files that the sender did not finalize: they have
    /// failed, for that reason.
    pub fn failures(&self, files: &[JobFileRecord]) -> (updates: Vec<FileUpdate>)
        ensures
            update_views(updates@) == unfinished_updates(files@),
    {
        let paths = unfinished_files(files);
        let ghost expected = unfinished_updates(files@);
        let mut updates: Vec<FileUpdate> = Vec::new();
        let mut i: usize = 0;
        while i < paths.len()
            invariant
                i <= paths.len(),
                views(paths@) == unfinished(files@),
                expected == unfinished_updates(files@),
                update_views(updates@) == expected.take(i as int),
            decreases paths.len() - i,
        {
            let ghost before = update_views(updates@);
            assert(views(paths@)[i as int] == paths@[i as int]@);
            updates.push(
                FileUpdate {
                    path: paths[i].clone(),
                    status: JobFileStatus::Failed,
                    error: Some(UNFINISHED_FILE_ERROR.to_owned()),
                },
            );
            assert(update_views(updates@) =~= before.push(expected[i as int]));
            assert(expected.take(i + 1) =~= expected.take(i as int).push(expected[i as int]));
            i += 1;
        }
        assert(views(paths@).len() == paths@.len());
        assert(expected.take(i as int) =~= expected);
        updates
    }

    /// Sums the job up, once the directories are done and no file is unfinished any
    /// more: what the sender did not finalize has failed. Nothing comes out where the
    /// bytes are too many to count.
    pub fn finish(self, files: &[JobFileRecord], directory_failures: u64) -> (completion: Option<
        Completion,
    >)
        requires
            self.wf(),
            self.spec_index() == self.spec_directories().len(),
            unfinished(files@).len() == 0,
        ensures
            match completion {
                Some(done) => {
                    let progress = completed_progress(files@, directory_failures);
                    &&& total_bytes(files@) <= u64::MAX
                    &&& total_transferred(files@) <= u64::MAX
                    &&& done.progress == progress
                    &&& done.status == if progress.failed_files != 0 {
                        JobStatus::CompletedWithErrors
                    } else {
                        JobStatus::Completed
                    }
                    &&& done.cleans_staging == (progress.failed_files == 0)
                    &&& done.answer == completion_answer(
                        self.spec_request(),
                        progress.failed_files,
                    )
                },
                None => total_bytes(files@) > u64::MAX || total_transferred(files@) > u64::MAX,
            },
    {
        match completion_progress(files, directory_failures) {
            Some(progress) => {
                let status = completion_status(&progress);
                let answer = acknowledge_job(&self.request, progress.failed_files);
                let cleans_staging = progress.failed_files == 0;
                Some(Completion { status, progress, cleans_staging, answer })
            },
            None => None,
        }
    }
}

/// A request that may be processed.
pub struct AdmittedRequest {
    request: Request,
    peer_id: Uuid,
}

/// The report of a failure, in the context of a request.
pub open spec fn is_report(
    answer: RemoteError,
    error: TransferError,
    message: Seq<char>,
    job_id: Option<Uuid>,
    path: Option<Seq<char>>,
) -> bool {
    match error {
        TransferError::Remote {
            code,
            message: original,
            retryable,
            job_id: own_job,
            path: own_path,
        } => {
            &&& answer.code == code
            &&& answer.message == original
            &&& answer.retryable == retryable
            &&& answer.job_id == if own_job is Some {
                own_job
            } else {
                job_id
            }
            &&& view_of(answer.path) == if own_path is Some {
                view_of(own_path)
            } else {
                path
            }
        },
        _ => {
            &&& answer.code == remote_code(error, message)
            &&& answer.message@ == message
            &&& answer.retryable == error.spec_retryable()
            &&& answer.job_id == job_id
            &&& view_of(answer.path) == path
        },
    }
}

/// Why a request is answered before it is processed.
pub open spec fn is_turned_away(
    frame: Versioned<Request>,
    peer_id: Uuid,
    trusted: Result<bool, TransferError>,
    message: Seq<char>,
    response: Response,
) -> bool {
    response matches Response::Error(error) && if frame.protocol_version != PROTOCOL_VERSION {
        &&& error.code == RemoteErrorCode::UnsupportedProtocol
        &&& error.message@ == message
        &&& !error.retryable
        &&& error.job_id is None
        &&& error.path is None
    } else {
        &&& !(frame.payload is Ping)
        &&& match trusted {
            Ok(yes) => !yes && is_refusal(error, peer_id, frame.payload),
            Err(cause) => is_report(
                error,
                cause,
                message,
                frame.payload.spec_job_id(),
                frame.payload.spec_path(),
            ),
        }
    }
}

impl AdmittedRequest {
    pub closed spec fn spec_request(self) -> Request {
        self.request
    }

    pub closed spec fn spec_peer_id(self) -> Uuid {
        self.peer_id
    }

    /// Admits the request of a device that has proved who it is. It must speak
    /// the version of the protocol; a ping is always admitted, anything else
    /// only while the device is trusted. `trusted` is read anew for every
    /// request, and `message` is how a failure reads.
    pub fn open(
        frame: Versioned<Request>,
        peer_id: Uuid,
        trusted: Result<bool, TransferError>,
        message: String,
    ) -> (result: Result<Self, Response>)
        ensures
            match result {
                Ok(admitted) => {
                    &&& frame.protocol_version == PROTOCOL_VERSION
                    &&& frame.payload is Ping || trusted == Ok::<bool, TransferError>(true)
                    &&& admitted.spec_request() == frame.payload
                    &&& admitted.spec_peer_id() == peer_id
                },
                Err(response) => is_turned_away(frame, peer_id, trusted, message@, response),
            },
    {
        if frame.validate().is_err() {
            return Err(version_refusal(message));
        }
        let request = frame.payload;
        let is_ping = match &request {
            Request::Ping(_) => true,
            _ => false,
        };
        if !is_ping {
            let known = match trusted {
                Ok(known) => known,
                Err(error) => {
                    let job_id = request_job_id(&request);
                    let path = request_path(&request);
                    return Err(Response::Error(remote_error(error, message, job_id, path)));
                },
            };
            if let Some(refusal) = authorize_request(peer_id, known, &request) {
                return Err(Response::Error(refusal));
            }
        }
        Ok(AdmittedRequest { request, peer_id })
    }

    pub fn request(&self) -> (request: &Request)
        ensures
            *request == self.spec_request(),
    {
        &self.request
    }

    /// The job that the request works on, if it works on one.
    pub fn job_key(&self) -> (key: Option<IncomingJobKey>)
        ensures
            key == match self.spec_request().spec_job_id() {
                Some(job_id) => Some(IncomingJobKey { peer_id: self.spec_peer_id(), job_id }),
                None => None,
            },
    {
        request_job_key(self.peer_id, &self.request)
    }

    /// The answer to the request, and whether the connection gives up the job
    /// that it took up with it: a request that fails keeps nothing alive.
    /// `message` is how a failure reads.
    pub fn answer(
        self,
        processed: Result<Response, TransferError>,
        newly_registered: bool,
        message: String,
    ) -> (answer: (Response, bool))
        ensures
            match processed {
                Ok(response) => answer == (response, false),
                Err(error) => {
                    &&& answer.0 matches Response::Error(report) && is_report(
                        report,
                        error,
                        message@,
                        self.spec_request().spec_job_id(),
                        self.spec_request().spec_path(),
                    )
                    &&& answer.1 == (newly_registered && self.spec_request().spec_job_id() is Some)
                },
            },
    {
        match processed {
            Ok(response) => (response, false),
            Err(error) => {
                let job_id = request_job_id(&self.request);
                let path = request_path(&self.request);
                let gives_up = newly_registered && job_id.is_some();
                (Response::Error(remote_error(error, message, job_id, path)), gives_up)
            },
        }
    }
}

/// A device that is not trusted gets nothing but the answer to a ping.
pub proof fn law_untrusted_devices_may_only_ping(
    frame: Versioned<Request>,
    peer_id: Uuid,
    message: Seq<char>,
    response: Response,
)
    requires
        frame.protocol_version == PROTOCOL_VERSION,
        is_turned_away(frame, peer_id, Ok(false), message, response),
    ensures
        !(frame.payload is Ping),
        response matches Response::Error(error) && error.code == RemoteErrorCode::Unauthorized
            && !error.retryable,
{
}

/// Nobody is turned away without a reason: with the right version a ping never is, and a
/// trusted device never is. With another version everybody is, and told so.
pub proof fn law_who_is_not_turned_away(
    frame: Versioned<Request>,
    peer_id: Uuid,
    trusted: Result<bool, TransferError>,
    message: Seq<char>,
    response: Response,
)
    ensures
        frame.protocol_version == PROTOCOL_VERSION && frame.payload is Ping ==> !is_turned_away(
            frame,
            peer_id,
            trusted,
            message,
            response,
        ),
        frame.protocol_version == PROTOCOL_VERSION && trusted == Ok::<bool, TransferError>(true)
            ==> !is_turned_away(frame, peer_id, trusted, message, response),
        frame.protocol_version != PROTOCOL_VERSION && is_turned_away(
            frame,
            peer_id,
            trusted,
            message,
            response,
        ) ==> response is Error && response->Error_0.code == RemoteErrorCode::UnsupportedProtocol
            && !response->Error_0.retryable,
        !(response is Error) ==> !is_turned_away(frame, peer_id, trusted, message, response),
{
}

/// What is reported of an error: its code, its words, whether a retry can help, and the
/// job and the file that it is about. What came from a peer is passed on as it came, and
/// completed where it did not say what it was about.
pub proof fn law_errors_are_reported_whole(
    answer: RemoteError,
    error: TransferError,
    message: Seq<char>,
    job_id: Option<Uuid>,
    path: Option<Seq<char>>,
)
    requires
        is_report(answer, error, message, job_id, path),
    ensures
        answer.retryable == error.spec_retryable(),
        answer.code == remote_code(error, message),
        error is Remote ==> answer.message == error->message,
        !(error is Remote) ==> answer.message@ == message && answer.job_id == job_id && view_of(
            answer.path,
        ) == path,
        error is Remote && error->job_id is Some ==> answer.job_id == error->job_id,
        error is Remote && error->job_id is None ==> answer.job_id == job_id,
        error is Remote && error->Remote_path is Some ==> view_of(answer.path) == Some(
            error->Remote_path->0@,
        ),
        error is Remote && error->Remote_path is None ==> view_of(answer.path) == path,
{
}

/// No file is recorded as complete without evidence: its content was read from the
/// staging file, had its hash and its size, and was published; or what is in its place
/// has its hash, and agrees with it in type, size, modification time and access.
pub proof fn law_completed_files_have_evidence(run: FinalizeRun)
    requires
        run.wf(),
        run.spec_need() is ClearedChunks || run.spec_need() is ProgressRow
            || run.spec_need() is StatusRow || run.spec_need() is Answer,
    ensures
        ({
            let file = run.spec_request().file;
            match run.spec_evidence() {
                Evidence::Nothing => false,
                Evidence::Published(partial) => {
                    &&& partial.spec_path() == run.spec_staging()
                    &&& blake3_digest(partial.content()) == file.hash@
                    &&& partial.spec_metadata().size == file.entry.size
                },
                Evidence::Hashed(hash) => {
                    &&& hash == file.hash
                    &&& run.spec_actual() is Some
                    &&& run.spec_actual()->0.file_type == file.entry.file_type
                    &&& run.spec_actual()->0.size == file.entry.size
                    &&& run.spec_actual()->0.mtime_ns == file.entry.mtime_ns
                    &&& run.spec_actual()->0.read_only == file.entry.read_only
                },
            }
        }),
{
}

} // verus!
