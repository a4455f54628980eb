//! The end of a job that is being sent.

use crate::decisions::FileUpdate;
use crate::error::{DataFault, TransferError};
use crate::ids::Uuid;
use crate::model::{FileOperation, HashedFile, JobStatus, TransferProgress};
use crate::negotiation::NegotiatedFile;
use crate::outgoing::{is_balanced, with_failure, ErrorView, OutgoingJob, OutgoingView};
use crate::records::JobFileStatus;
use crate::stream::{Acknowledgement, FileAcknowledgement, JobAcknowledgement, Response};
use crate::text::{decimal, to_decimal};
use crate::upload::is_failed_update;
use vstd::prelude::*;

verus! {

/// The bytes of a file once its row has a state, where they change.
pub open spec fn bytes_once(size: u64, status: JobFileStatus) -> Option<u64> {
    if status == JobFileStatus::Completed || status == JobFileStatus::Skipped {
        Some(size)
    } else {
        None
    }
}

/// The bytes that the row of a file gets once it was looked at: all of them if the
/// receiver has finalized it, else what it had stays.
pub fn finalized_bytes(file: &HashedFile, update: &FileUpdate) -> (bytes: Option<u64>)
    ensures
        bytes == bytes_once(file.entry.size, update.status),
{
    if update.status == JobFileStatus::Completed || update.status == JobFileStatus::Skipped {
        Some(file.entry.size)
    } else {
        None
    }
}

/// An acknowledgement of exactly this file.
pub open spec fn acknowledges_file(
    response: Result<Response, TransferError>,
    job_id: Uuid,
    manifest_id: Uuid,
    path: Seq<char>,
) -> bool {
    response matches Ok(Response::Acknowledged(Acknowledgement::File(answer))) && {
        &&& answer.job_id == job_id
        &&& answer.manifest_id == manifest_id
        &&& answer.path@ == path
    }
}

/// The job with one file more completed: skipped if nothing of it was sent.
pub open spec fn with_completed(before: OutgoingView, sent: bool) -> OutgoingView {
    OutgoingView {
        progress: TransferProgress {
            completed_files: (before.progress.completed_files + 1) as u64,
            skipped_files: if sent {
                before.progress.skipped_files
            } else {
                (before.progress.skipped_files + 1) as u64
            },
            transferred_files: if sent {
                (before.progress.transferred_files + 1) as u64
            } else {
                before.progress.transferred_files
            },
            ..before.progress
        },
        ..before
    }
}

/// Records that the source of a file is not what it was; `message` says how.
pub fn reject_source(job: &mut OutgoingJob, path: &str, message: String) -> (update: FileUpdate)
    requires
        old(job)@.progress.failed_files < u64::MAX,
    ensures
        final(job)@ == with_failure(old(job)@, path@, FileOperation::Verify, message@),
        is_failed_update(update, path@, message@),
{
    let text = message.clone();
    job.record_file_failure(path, FileOperation::Verify, message);
    FileUpdate { path: path.to_owned(), status: JobFileStatus::Failed, error: Some(text) }
}

/// Takes the answer to the finalization of a file: an acknowledgement
/// completes it, a failure that reconnecting may cure ends the attempt, and
/// anything else is the failure of the file, which reads as `message`.
pub fn accept_finalize(
    job: &mut OutgoingJob,
    item: &NegotiatedFile,
    manifest_id: Uuid,
    response: Result<Response, TransferError>,
    message: String,
) -> (result: Result<FileUpdate, TransferError>)
    requires
        old(job)@.progress.failed_files < u64::MAX,
        old(job)@.progress.completed_files < u64::MAX,
        old(job)@.progress.skipped_files < u64::MAX,
        old(job)@.progress.transferred_files < u64::MAX,
    ensures
        ({
            let path = item.file.entry.relative_path@;
            let sent = item.plan.missing_chunks@.len() > 0;
            let acknowledged = acknowledges_file(response, old(job)@.id, manifest_id, path);
            match result {
                Ok(update) => if acknowledged {
                    &&& final(job)@ == with_completed(old(job)@, sent)
                    &&& update.path@ == path
                    &&& update.status == if sent {
                        JobFileStatus::Completed
                    } else {
                        JobFileStatus::Skipped
                    }
                    &&& update.error is None
                } else {
                    &&& response matches Err(error) ==> !error.spec_retryable()
                    &&& final(job)@ == with_failure(
                        old(job)@,
                        path,
                        FileOperation::Finalize,
                        message@,
                    )
                    &&& is_failed_update(update, path, message@)
                },
                Err(error) => {
                    &&& response == Err::<Response, TransferError>(error)
                    &&& error.spec_retryable()
                    &&& final(job)@ == old(job)@
                },
            }
        }),
{
    let path = item.file.entry.relative_path.clone();
    let acknowledged = match &response {
        Ok(Response::Acknowledged(Acknowledgement::File(answer))) => answer.job_id == job.job().id
            && answer.manifest_id == manifest_id && answer.path == path,
        _ => false,
    };
    if acknowledged {
        let sent = item.plan.missing_chunks.len() > 0;
        job.count_completed(sent);
        return Ok(
            FileUpdate {
                path,
                status: if sent {
                    JobFileStatus::Completed
                } else {
                    JobFileStatus::Skipped
                },
                error: None,
            },
        );
    }
    if let Err(error) = response {
        if error.is_retryable() {
            return Err(error);
        }
    }
    let text = message.clone();
    job.record_file_failure(path.as_str(), FileOperation::Finalize, message);
    Ok(FileUpdate { path, status: JobFileStatus::Failed, error: Some(text) })
}

/// How many files the receiver says have failed: one at least, if it says so
/// at all.
pub open spec fn receiver_failures(answer: JobAcknowledgement) -> u64 {
    if answer.completed_with_errors {
        if answer.failed_files > 1 {
            answer.failed_files
        } else {
            1
        }
    } else {
        0
    }
}

/// An acknowledgement of exactly this job.
pub open spec fn acknowledges_job(response: Response, job_id: Uuid, manifest_id: Uuid) -> bool {
    response matches Response::Acknowledged(Acknowledgement::Job(answer)) && answer.job_id == job_id
        && answer.manifest_id == manifest_id
}

/// The job with the failures that only the receiver knows of.
pub open spec fn with_receiver_failures(before: OutgoingView, failures: u64) -> OutgoingView {
    if failures != 0 && before.errors.len() == 0 {
        OutgoingView {
            errors: before.errors.push(
                ErrorView {
                    path: None,
                    operation: FileOperation::Finalize,
                    message: "receiver reported "@ + decimal(failures as nat) + " failed files"@,
                },
            ),
            progress: TransferProgress {
                failed_files: if before.progress.failed_files > failures {
                    before.progress.failed_files
                } else {
                    failures
                },
                ..before.progress
            },
            ..before
        }
    } else {
        before
    }
}

/// The job at its end.
pub open spec fn ended(before: OutgoingView) -> OutgoingView {
    OutgoingView {
        progress: TransferProgress {
            active_chunk_streams: 0,
            active_file_streams: 0,
            queued_chunks: 0,
            current_file: None,
            ..before.progress
        },
        status: if before.errors.len() == 0 {
            JobStatus::Completed
        } else {
            JobStatus::CompletedWithErrors
        },
        ..before
    }
}

/// Takes the answer to the completion of the job and ends it; `description` is
/// how the answer reads.
pub fn accept_completion(
    job: &mut OutgoingJob,
    manifest_id: Uuid,
    response: &Response,
    description: String,
) -> (result: Result<(), TransferError>)
    ensures
        ({
            let acknowledged = acknowledges_job(*response, old(job)@.id, manifest_id);
            match result {
                Ok(_) => {
                    &&& acknowledged
                    &&& response matches Response::Acknowledged(Acknowledgement::Job(answer))
                        && final(job)@ == ended(
                        with_receiver_failures(old(job)@, receiver_failures(*answer)),
                    )
                },
                Err(error) => {
                    &&& !acknowledged
                    &&& error == TransferError::InvalidData(
                        DataFault::UnexpectedResponse { description },
                    )
                    &&& final(job)@ == old(job)@
                },
            }
        }),
{
    let failures: u64 = match response {
        Response::Acknowledged(Acknowledgement::Job(answer)) => {
            if answer.job_id != job.job().id || answer.manifest_id != manifest_id {
                return Err(
                    TransferError::InvalidData(DataFault::UnexpectedResponse { description }),
                );
            }
            if answer.completed_with_errors {
                if answer.failed_files > 1 {
                    answer.failed_files
                } else {
                    1
                }
            } else {
                0
            }
        },
        _ => {
            return Err(TransferError::InvalidData(DataFault::UnexpectedResponse { description }));
        },
    };
    if failures != 0 && job.job().errors.len() == 0 {
        let mut message = "receiver reported ".to_owned();
        message.append(to_decimal(failures).as_str());
        message.append(" failed files");
        job.report(None, FileOperation::Finalize, message);
        job.raise_failed(failures);
    }
    let status = if job.job().errors.len() == 0 {
        JobStatus::Completed
    } else {
        JobStatus::CompletedWithErrors
    };
    job.end(status);
    Ok(())
}

/// A job ends without errors only if it has none of its own and the receiver
/// reports none.
pub proof fn law_failures_are_not_hidden(before: OutgoingView, answer: JobAcknowledgement)
    ensures
        ended(with_receiver_failures(before, receiver_failures(answer))).status
            == JobStatus::Completed <==> before.errors.len() == 0
            && !answer.completed_with_errors,
{
}

/// Completing a file keeps the counts in step.
pub proof fn law_completion_stays_balanced(before: OutgoingView, sent: bool)
    requires
        is_balanced(before.progress),
        before.progress.completed_files < u64::MAX,
    ensures
        is_balanced(with_completed(before, sent).progress),
{
}

/// The acknowledgement that the receiver sends for a file completes it.
pub proof fn law_file_acknowledgement_is_accepted(answer: FileAcknowledgement)
    ensures
        acknowledges_file(
            Ok::<Response, TransferError>(
                Response::Acknowledged(Acknowledgement::File(answer)),
            ),
            answer.job_id,
            answer.manifest_id,
            answer.path@,
        ),
{
}

/// A file that was finalized counts once as completed: as transferred if anything of it
/// was sent, else as skipped. Nothing else of the job changes.
pub proof fn law_completed_files_are_counted(before: OutgoingView, sent: bool)
    requires
        before.progress.completed_files < u64::MAX,
        before.progress.skipped_files < u64::MAX,
        before.progress.transferred_files < u64::MAX,
    ensures
        ({
            let after = with_completed(before, sent);
            let (was, is_now) = (before.progress, after.progress);
            &&& is_now.completed_files == was.completed_files + 1
            &&& is_now.transferred_files - was.transferred_files == if sent {
                1int
            } else {
                0
            }
            &&& is_now.skipped_files - was.skipped_files == if sent {
                0int
            } else {
                1
            }
            &&& is_now.failed_files == was.failed_files
            &&& is_now.transferred_bytes == was.transferred_bytes
            &&& is_now.reused_bytes == was.reused_bytes
            &&& after.errors == before.errors && after.failed == before.failed
            &&& after.status == before.status
        }),
{
}

/// Nothing but the acknowledgement of the very file completes it, and nothing but that
/// of the very job ends it.
pub proof fn law_what_acknowledges_a_file_or_job(
    response: Response,
    failure: TransferError,
    job_id: Uuid,
    manifest_id: Uuid,
    path: Seq<char>,
)
    ensures
        !acknowledges_file(Err(failure), job_id, manifest_id, path),
        acknowledges_file(Ok(response), job_id, manifest_id, path) <==> {
            &&& response is Acknowledged
            &&& response->Acknowledged_0 is File
            &&& response->Acknowledged_0->File_0.job_id == job_id
            &&& response->Acknowledged_0->File_0.manifest_id == manifest_id
            &&& response->Acknowledged_0->File_0.path@ == path
        },
        acknowledges_job(response, job_id, manifest_id) <==> {
            &&& response is Acknowledged
            &&& response->Acknowledged_0 is Job
            &&& response->Acknowledged_0->Job_0.job_id == job_id
            &&& response->Acknowledged_0->Job_0.manifest_id == manifest_id
        },
{
}

/// The failures that the receiver reports count where the sender knows of none itself:
/// at least one if it reports errors, and never fewer than are counted already.
pub proof fn law_reported_failures_are_counted(before: OutgoingView, answer: JobAcknowledgement)
    ensures
        ({
            let after = with_receiver_failures(before, receiver_failures(answer));
            &&& !answer.completed_with_errors || before.errors.len() > 0 ==> after == before
            &&& answer.completed_with_errors && before.errors.len() == 0 ==> {
                &&& after.errors.len() == 1
                &&& after.errors[0].path is None
                &&& after.progress.failed_files >= 1
                &&& after.progress.failed_files >= answer.failed_files
                &&& after.progress.failed_files >= before.progress.failed_files
                &&& after.progress.failed_files == 1 || after.progress.failed_files
                    == answer.failed_files || after.progress.failed_files
                    == before.progress.failed_files
            }
        }),
{
}

/// A job that has ended has nothing on its way, and keeps what it counted.
pub proof fn law_an_ended_job_is_idle(before: OutgoingView)
    ensures
        ({
            let after = ended(before);
            &&& after.progress.active_chunk_streams == 0
            &&& after.progress.active_file_streams == 0
            &&& after.progress.queued_chunks == 0
            &&& after.progress.current_file is None
            &&& after.progress.completed_files == before.progress.completed_files
            &&& after.progress.failed_files == before.progress.failed_files
            &&& after.progress.transferred_bytes == before.progress.transferred_bytes
            &&& after.errors == before.errors && after.failed == before.failed
            &&& after.status is Completed || after.status is CompletedWithErrors
            &&& after.status is Completed <==> before.errors.len() == 0
        }),
{
}

/// A file that is done has all of its bytes, one that failed or is on its way keeps what
/// it had.
pub proof fn law_done_files_have_all_bytes(size: u64, status: JobFileStatus)
    ensures
        status is Completed || status is Skipped ==> bytes_once(size, status) == Some(size),
        status is Failed || status is Pending || status is Running || status is Interrupted
            ==> bytes_once(size, status) is None,
{
}

} // verus!
