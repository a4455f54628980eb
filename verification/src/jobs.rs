//! Control of the outgoing jobs: starting, pausing, resuming, cancelling and
//! retrying them.

use crate::error::StorageError;
use crate::ids::Uuid;
use crate::records::{JobRecord, StoredJobStatus};
use vstd::arithmetic::power2::pow2;
use vstd::prelude::*;

verus! {

/// How long the first retry waits, in milliseconds.
pub const INITIAL_RETRY_DELAY: u64 = 500;

/// The longest that a retry waits, in milliseconds.
pub const MAX_RETRY_DELAY: u64 = 15_000;

/// How long a throughput stays valid, in milliseconds.
pub const THROUGHPUT_STALE_AFTER: u64 = 4_000;

/// How long a shutdown waits for the runners, in milliseconds.
pub const SHUTDOWN_GRACE: u64 = 5_000;

/// How often a retry doubles the delay.
pub open spec fn doublings(retry_number: int) -> nat {
    if retry_number <= 1 {
        0
    } else if retry_number - 1 <= 10 {
        (retry_number - 1) as nat
    } else {
        10
    }
}

/// The delay before a retry: half a second, doubled with every further retry,
/// but at most fifteen seconds.
pub open spec fn retry_delay_of(retry_number: int) -> int {
    let delay = INITIAL_RETRY_DELAY * pow2(doublings(retry_number));
    if delay <= MAX_RETRY_DELAY {
        delay as int
    } else {
        MAX_RETRY_DELAY as int
    }
}

/// The milliseconds to wait before a retry.
pub fn retry_delay(retry_number: u32) -> (millis: u64)
    ensures
        millis == retry_delay_of(retry_number as int),
{
    let exponent: u32 = if retry_number <= 1 {
        0
    } else if retry_number - 1 <= 10 {
        retry_number - 1
    } else {
        10
    };
    let mut delay: u64 = INITIAL_RETRY_DELAY;
    let mut i: u32 = 0;
    proof {
        vstd::arithmetic::power2::lemma2_to64();
    }
    while i < exponent
        invariant
            i <= exponent <= 10,
            delay == INITIAL_RETRY_DELAY * pow2(i as nat),
            delay <= INITIAL_RETRY_DELAY * 1024,
        decreases exponent - i,
    {
        proof {
            vstd::arithmetic::power2::lemma_pow2_unfold((i + 1) as nat);
            vstd::arithmetic::power2::lemma2_to64();
            if i + 1 < 10 {
                vstd::arithmetic::power2::lemma_pow2_strictly_increases((i + 1) as nat, 10);
            }
        }
        assert(pow2((i + 1) as nat) <= 1024);
        delay = delay * 2;
        i += 1;
    }
    if delay <= MAX_RETRY_DELAY {
        delay
    } else {
        MAX_RETRY_DELAY
    }
}

/// A retry waits at least half a second and at most fifteen, and a later one no
/// shorter than an earlier one.
pub proof fn law_retry_delay_is_bounded(earlier: int, later: int)
    requires
        earlier <= later,
    ensures
        INITIAL_RETRY_DELAY <= retry_delay_of(earlier) <= retry_delay_of(later) <= MAX_RETRY_DELAY,
{
    let (a, b) = (doublings(earlier), doublings(later));
    vstd::arithmetic::power2::lemma2_to64();
    vstd::arithmetic::power2::lemma_pow2_pos(a);
    if a < b {
        vstd::arithmetic::power2::lemma_pow2_strictly_increases(a, b);
    }
}

/// Why a job cannot be controlled as was asked.
#[derive(Debug, Clone, PartialEq, Eq)]
pub enum ControlConflict {
    AlreadyRunning { job_id: Uuid },
    CannotPause { job_id: Uuid, status: StoredJobStatus },
    NoRunner { job_id: Uuid },
    CannotResume { job_id: Uuid, status: StoredJobStatus },
    PausedButRunning { job_id: Uuid },
    ControlledBySender,
    AlreadyCompleted { job_id: Uuid },
}

#[derive(Debug, Clone, PartialEq, Eq)]
pub enum ManagerError {
    NotFound(Uuid),
    Conflict(ControlConflict),
    ShuttingDown,
    Storage(StorageError),
}

impl From<StorageError> for ManagerError {
    fn from(error: StorageError) -> (converted: Self) {
        ManagerError::Storage(error)
    }
}

impl vstd::std_specs::convert::FromSpecImpl<StorageError> for ManagerError {
    open spec fn obeys_from_spec() -> bool {
        true
    }

    open spec fn from_spec(error: StorageError) -> ManagerError {
        ManagerError::Storage(error)
    }
}

/// What the control of a job depends on.
#[derive(Debug, Clone, Copy, PartialEq, Eq, Structural)]
pub struct JobStanding {
    pub status: StoredJobStatus,
    /// Received from a peer.
    pub incoming: bool,
}

impl JobStanding {
    pub fn of(record: &JobRecord) -> (standing: Self)
        ensures
            standing == (JobStanding {
                status: record.status,
                incoming: record.job.spec_incoming(),
            }),
    {
        JobStanding { status: record.status, incoming: record.job.is_incoming() }
    }
}

/// Why a job cannot start.
pub open spec fn start_refusal(
    job_id: Uuid,
    shutting_down: bool,
    known: bool,
    running: bool,
) -> Option<ManagerError> {
    if shutting_down {
        Some(ManagerError::ShuttingDown)
    } else if !known {
        Some(ManagerError::NotFound(job_id))
    } else if running {
        Some(ManagerError::Conflict(ControlConflict::AlreadyRunning { job_id }))
    } else {
        None
    }
}

/// Whether a job may start: `known` to storage, and not `running` already.
pub fn start(job_id: Uuid, shutting_down: bool, known: bool, running: bool) -> (result: Result<
    (),
    ManagerError,
>)
    ensures
        match start_refusal(job_id, shutting_down, known, running) {
            Some(error) => result == Err::<(), ManagerError>(error),
            None => result is Ok,
        },
{
    if shutting_down {
        Err(ManagerError::ShuttingDown)
    } else if !known {
        Err(ManagerError::NotFound(job_id))
    } else if running {
        Err(ManagerError::Conflict(ControlConflict::AlreadyRunning { job_id }))
    } else {
        Ok(())
    }
}

#[derive(Debug, Clone, Copy, PartialEq, Eq, Structural)]
pub enum PauseAction {
    /// It is paused already.
    Nothing,
    /// Tell the runner, then store the state.
    Pause,
}

impl PauseAction {
    /// The state to store the job in.
    pub open spec fn spec_stores(self) -> Option<StoredJobStatus> {
        match self {
            PauseAction::Nothing => None,
            PauseAction::Pause => Some(StoredJobStatus::Paused),
        }
    }

    /// The state to store the job in.
    pub fn stores(&self) -> (status: Option<StoredJobStatus>)
        ensures
            status == self.spec_stores(),
    {
        match self {
            PauseAction::Nothing => None,
            PauseAction::Pause => Some(StoredJobStatus::Paused),
        }
    }
}

/// What pausing a job comes to.
pub open spec fn pause_outcome(job_id: Uuid, job: Option<JobStanding>, running: bool) -> Result<
    PauseAction,
    ManagerError,
> {
    match job {
        None => Err(ManagerError::NotFound(job_id)),
        Some(standing) => match standing.status {
            StoredJobStatus::Completed
            | StoredJobStatus::CompletedWithErrors
            | StoredJobStatus::Cancelled => Err(
                ManagerError::Conflict(
                    ControlConflict::CannotPause { job_id, status: standing.status },
                ),
            ),
            _ => if running {
                Ok(PauseAction::Pause)
            } else if standing.status == StoredJobStatus::Paused {
                Ok(PauseAction::Nothing)
            } else {
                Err(ManagerError::Conflict(ControlConflict::NoRunner { job_id }))
            },
        },
    }
}

/// Decides on a request to pause a job.
pub fn pause(job_id: Uuid, job: Option<JobStanding>, running: bool) -> (result: Result<
    PauseAction,
    ManagerError,
>)
    ensures
        result == pause_outcome(job_id, job, running),
{
    let standing = match job {
        Some(standing) => standing,
        None => return Err(ManagerError::NotFound(job_id)),
    };
    if matches!(
        standing.status,
        StoredJobStatus::Completed
        | StoredJobStatus::CompletedWithErrors
        | StoredJobStatus::Cancelled
    ) {
        return Err(
            ManagerError::Conflict(
                ControlConflict::CannotPause { job_id, status: standing.status },
            ),
        );
    }
    if running {
        return Ok(PauseAction::Pause);
    }
    if standing.status == StoredJobStatus::Paused {
        return Ok(PauseAction::Nothing);
    }
    Err(ManagerError::Conflict(ControlConflict::NoRunner { job_id }))
}

#[derive(Debug, Clone, Copy, PartialEq, Eq, Structural)]
pub enum ResumeAction {
    /// It is on its way already.
    Nothing,
    /// Let the paused runner go on; the job is transferring again, without error.
    Unpause,
    /// Start a new runner.
    Start,
}

impl ResumeAction {
    /// The state to store the job in.
    pub open spec fn spec_stores(self) -> Option<StoredJobStatus> {
        match self {
            ResumeAction::Unpause => Some(StoredJobStatus::Transferring),
            _ => None,
        }
    }

    /// The state to store the job in. A new runner stores its own.
    pub fn stores(&self) -> (status: Option<StoredJobStatus>)
        ensures
            status == self.spec_stores(),
    {
        match self {
            ResumeAction::Unpause => Some(StoredJobStatus::Transferring),
            _ => None,
        }
    }
}

/// The states from which a job without a runner can go on.
pub open spec fn is_resumable(status: StoredJobStatus) -> bool {
    ||| status == StoredJobStatus::Paused
    ||| status == StoredJobStatus::Interrupted
    ||| status == StoredJobStatus::Failed
    ||| status == StoredJobStatus::CompletedWithErrors
    ||| status == StoredJobStatus::Pending
}

/// What resuming a job comes to. `runner` says whether its runner, if it has
/// one, is paused.
pub open spec fn resume_outcome(
    job_id: Uuid,
    job: Option<JobStanding>,
    runner: Option<bool>,
    shutting_down: bool,
) -> Result<ResumeAction, ManagerError> {
    match (job, runner) {
        (None, _) => Err(ManagerError::NotFound(job_id)),
        (Some(_), Some(true)) => Ok(ResumeAction::Unpause),
        (Some(standing), Some(false)) => match standing.status {
            StoredJobStatus::Pending
            | StoredJobStatus::Scanning
            | StoredJobStatus::Transferring
            | StoredJobStatus::Verifying => Ok(ResumeAction::Nothing),
            StoredJobStatus::Paused => Err(
                ManagerError::Conflict(ControlConflict::PausedButRunning { job_id }),
            ),
            _ => Err(
                ManagerError::Conflict(
                    ControlConflict::CannotResume { job_id, status: standing.status },
                ),
            ),
        },
        (Some(standing), None) => if !is_resumable(standing.status) {
            Err(
                ManagerError::Conflict(
                    ControlConflict::CannotResume { job_id, status: standing.status },
                ),
            )
        } else if standing.incoming {
            Err(ManagerError::Conflict(ControlConflict::ControlledBySender))
        } else if shutting_down {
            Err(ManagerError::ShuttingDown)
        } else {
            Ok(ResumeAction::Start)
        },
    }
}

/// Decides on a request to resume a job.
pub fn resume(
    job_id: Uuid,
    job: Option<JobStanding>,
    runner: Option<bool>,
    shutting_down: bool,
) -> (result: Result<ResumeAction, ManagerError>)
    ensures
        result == resume_outcome(job_id, job, runner, shutting_down),
{
    let standing = match job {
        Some(standing) => standing,
        None => return Err(ManagerError::NotFound(job_id)),
    };
    match runner {
        Some(paused) => {
            if paused {
                return Ok(ResumeAction::Unpause);
            }
            if standing.status != StoredJobStatus::Paused {
                if matches!(
                    standing.status,
                    StoredJobStatus::Pending
                    | StoredJobStatus::Scanning
                    | StoredJobStatus::Transferring
                    | StoredJobStatus::Verifying
                ) {
                    return Ok(ResumeAction::Nothing);
                }
                return Err(
                    ManagerError::Conflict(
                        ControlConflict::CannotResume { job_id, status: standing.status },
                    ),
                );
            }
            return Err(ManagerError::Conflict(ControlConflict::PausedButRunning { job_id }));
        },
        None => {},
    }
    if !matches!(
        standing.status,
        StoredJobStatus::Paused
        | StoredJobStatus::Interrupted
        | StoredJobStatus::Failed
        | StoredJobStatus::CompletedWithErrors
        | StoredJobStatus::Pending
    ) {
        return Err(
            ManagerError::Conflict(
                ControlConflict::CannotResume { job_id, status: standing.status },
            ),
        );
    }
    if standing.incoming {
        return Err(ManagerError::Conflict(ControlConflict::ControlledBySender));
    }
    match start(job_id, shutting_down, true, false) {
        Ok(_) => Ok(ResumeAction::Start),
        Err(error) => Err(error),
    }
}

#[derive(Debug, Clone, Copy, PartialEq, Eq, Structural)]
pub enum CancelAction {
    /// It is cancelled already.
    Nothing,
    /// Stop the runner, then store the state.
    StopRunner,
    /// No runner: store the state.
    Store,
}

impl CancelAction {
    /// The state to store the job in.
    pub open spec fn spec_stores(self) -> Option<StoredJobStatus> {
        match self {
            CancelAction::Nothing => None,
            _ => Some(StoredJobStatus::Cancelled),
        }
    }

    /// The state to store the job in.
    pub fn stores(&self) -> (status: Option<StoredJobStatus>)
        ensures
            status == self.spec_stores(),
    {
        match self {
            CancelAction::Nothing => None,
            _ => Some(StoredJobStatus::Cancelled),
        }
    }
}

/// What cancelling a job comes to.
pub open spec fn cancel_outcome(job_id: Uuid, job: Option<JobStanding>, running: bool) -> Result<
    CancelAction,
    ManagerError,
> {
    match job {
        None => Err(ManagerError::NotFound(job_id)),
        Some(standing) => match standing.status {
            StoredJobStatus::Completed | StoredJobStatus::CompletedWithErrors => Err(
                ManagerError::Conflict(ControlConflict::AlreadyCompleted { job_id }),
            ),
            StoredJobStatus::Cancelled => Ok(CancelAction::Nothing),
            _ => if running {
                Ok(CancelAction::StopRunner)
            } else if standing.incoming {
                Err(ManagerError::Conflict(ControlConflict::ControlledBySender))
            } else {
                Ok(CancelAction::Store)
            },
        },
    }
}

/// Decides on a request to cancel a job.
pub fn cancel(job_id: Uuid, job: Option<JobStanding>, running: bool) -> (result: Result<
    CancelAction,
    ManagerError,
>)
    ensures
        result == cancel_outcome(job_id, job, running),
{
    let standing = match job {
        Some(standing) => standing,
        None => return Err(ManagerError::NotFound(job_id)),
    };
    if matches!(
        standing.status,
        StoredJobStatus::Completed | StoredJobStatus::CompletedWithErrors
    ) {
        return Err(ManagerError::Conflict(ControlConflict::AlreadyCompleted { job_id }));
    }
    if standing.status == StoredJobStatus::Cancelled {
        return Ok(CancelAction::Nothing);
    }
    if running {
        return Ok(CancelAction::StopRunner);
    }
    if standing.incoming {
        return Err(ManagerError::Conflict(ControlConflict::ControlledBySender));
    }
    Ok(CancelAction::Store)
}

/// What becomes of a job when a peer is no longer trusted.
pub open spec fn without_peer(record: JobRecord, peer_id: Uuid, running: bool) -> CancelAction {
    if record.job.peer_id == Some(peer_id) && !record.job.spec_incoming() && running {
        CancelAction::StopRunner
    } else {
        CancelAction::Nothing
    }
}

/// Decides what becomes of a job when its peer is no longer trusted: an outgoing one
/// to that peer whose runner is at work stops.
pub fn cancel_peer(record: &JobRecord, peer_id: Uuid, running: bool) -> (action: CancelAction)
    ensures
        action == without_peer(*record, peer_id, running),
{
    let stops = match record.job.peer_id {
        Some(found) => found == peer_id && !record.job.is_incoming() && running,
        None => false,
    };
    if stops {
        CancelAction::StopRunner
    } else {
        CancelAction::Nothing
    }
}

/// Jobs that are received from a peer are never started, paused or cancelled
/// here, as they never have a runner.
pub proof fn law_incoming_jobs_are_controlled_by_their_sender(
    job_id: Uuid,
    status: StoredJobStatus,
    shutting_down: bool,
)
    ensures
        ({
            let job = Some(JobStanding { status, incoming: true });
            &&& resume_outcome(job_id, job, None, shutting_down) is Err
            &&& pause_outcome(job_id, job, false) != Ok::<PauseAction, ManagerError>(
                PauseAction::Pause,
            )
            &&& cancel_outcome(job_id, job, false) != Ok::<CancelAction, ManagerError>(
                CancelAction::Store,
            )
        }),
{
}

/// Which jobs can be resumed. An outgoing one without a runner starts again exactly if
/// it is pending, paused, interrupted, failed or completed with errors, unless the
/// agent shuts down; one with a runner goes on exactly if the runner is paused, and is
/// left alone while it is on its way; nothing else is resumed.
pub proof fn law_what_resumes(job_id: Uuid, status: StoredJobStatus, shutting_down: bool)
    ensures
        ({
            let job = Some(JobStanding { status, incoming: false });
            let idle = resume_outcome(job_id, job, None, shutting_down);
            let running = resume_outcome(job_id, job, Some(false), shutting_down);
            let may_start = status == StoredJobStatus::Pending || status == StoredJobStatus::Paused
                || status == StoredJobStatus::Interrupted || status == StoredJobStatus::Failed
                || status == StoredJobStatus::CompletedWithErrors;
            let on_its_way = status == StoredJobStatus::Pending || status
                == StoredJobStatus::Scanning || status == StoredJobStatus::Transferring || status
                == StoredJobStatus::Verifying;
            &&& idle == Ok::<ResumeAction, ManagerError>(ResumeAction::Start) <==> may_start
                && !shutting_down
            &&& idle is Ok ==> idle == Ok::<ResumeAction, ManagerError>(ResumeAction::Start)
            &&& may_start && shutting_down ==> idle == Err::<ResumeAction, ManagerError>(
                ManagerError::ShuttingDown,
            )
            &&& !may_start ==> idle == Err::<ResumeAction, ManagerError>(
                ManagerError::Conflict(ControlConflict::CannotResume { job_id, status }),
            )
            &&& resume_outcome(job_id, job, Some(true), shutting_down) == Ok::<
                ResumeAction,
                ManagerError,
            >(ResumeAction::Unpause)
            &&& running == Ok::<ResumeAction, ManagerError>(ResumeAction::Nothing) <==> on_its_way
            &&& running is Err <==> !on_its_way
            &&& resume_outcome(job_id, None, None, shutting_down) == Err::<
                ResumeAction,
                ManagerError,
            >(ManagerError::NotFound(job_id))
        }),
{
}

/// Which jobs can be paused: one that is not over, by its runner; one that is paused
/// already stays so without one.
pub proof fn law_what_pauses(job_id: Uuid, status: StoredJobStatus, incoming: bool)
    ensures
        ({
            let job = Some(JobStanding { status, incoming });
            let running = pause_outcome(job_id, job, true);
            let idle = pause_outcome(job_id, job, false);
            let over = status == StoredJobStatus::Completed || status
                == StoredJobStatus::CompletedWithErrors || status == StoredJobStatus::Cancelled;
            &&& running == Ok::<PauseAction, ManagerError>(PauseAction::Pause) <==> !over
            &&& idle == Ok::<PauseAction, ManagerError>(PauseAction::Nothing) <==> status
                == StoredJobStatus::Paused
            &&& idle is Ok ==> status == StoredJobStatus::Paused
            &&& over ==> running == idle && idle == Err::<PauseAction, ManagerError>(
                ManagerError::Conflict(ControlConflict::CannotPause { job_id, status }),
            )
            &&& !over && status != StoredJobStatus::Paused ==> idle == Err::<
                PauseAction,
                ManagerError,
            >(ManagerError::Conflict(ControlConflict::NoRunner { job_id }))
            &&& pause_outcome(job_id, None, true) == Err::<PauseAction, ManagerError>(
                ManagerError::NotFound(job_id),
            )
        }),
{
}

/// Which jobs can be cancelled: any that is not completed, with its runner or without,
/// but for those that a sender controls. Cancelling again changes nothing.
pub proof fn law_what_cancels(
    job_id: Uuid,
    status: StoredJobStatus,
    incoming: bool,
    running: bool,
)
    ensures
        ({
            let outcome = cancel_outcome(job_id, Some(JobStanding { status, incoming }), running);
            let completed = status == StoredJobStatus::Completed || status
                == StoredJobStatus::CompletedWithErrors;
            let cancelled = status == StoredJobStatus::Cancelled;
            &&& outcome == Ok::<CancelAction, ManagerError>(CancelAction::Nothing) <==> cancelled
            &&& outcome == Ok::<CancelAction, ManagerError>(CancelAction::StopRunner) <==> running
                && !completed && !cancelled
            &&& outcome == Ok::<CancelAction, ManagerError>(CancelAction::Store) <==> !running
                && !incoming && !completed && !cancelled
            &&& completed ==> outcome == Err::<CancelAction, ManagerError>(
                ManagerError::Conflict(ControlConflict::AlreadyCompleted { job_id }),
            )
            &&& !running && incoming && !completed && !cancelled ==> outcome == Err::<
                CancelAction,
                ManagerError,
            >(ManagerError::Conflict(ControlConflict::ControlledBySender))
            &&& cancel_outcome(job_id, None, running) == Err::<CancelAction, ManagerError>(
                ManagerError::NotFound(job_id),
            )
        }),
{
}

/// What was paused can be resumed: a job that is paused without a runner starts
/// again, and a paused runner goes on.
pub proof fn law_resume_undoes_pause(job_id: Uuid)
    ensures
        ({
            let job = Some(JobStanding { status: StoredJobStatus::Paused, incoming: false });
            &&& resume_outcome(job_id, job, Some(true), false) == Ok::<ResumeAction, ManagerError>(
                ResumeAction::Unpause,
            )
            &&& resume_outcome(job_id, job, None, false) == Ok::<ResumeAction, ManagerError>(
                ResumeAction::Start,
            )
        }),
{
}

/// The first retry comes after half a second, and each waits twice as long as the one
/// before it, up to fifteen seconds.
pub proof fn law_retry_delay_doubles(retry_number: int)
    ensures
        retry_number <= 1 ==> retry_delay_of(retry_number) == 500,
        retry_number >= 1 ==> retry_delay_of(retry_number + 1) == if 2 * retry_delay_of(
            retry_number,
        ) <= 15_000 {
            2 * retry_delay_of(retry_number)
        } else {
            15_000
        },
{
    let n = doublings(retry_number);
    vstd::arithmetic::power2::lemma2_to64();
    if retry_number >= 1 && retry_number < 11 {
        vstd::arithmetic::power2::lemma_pow2_unfold(n + 1);
        assert(doublings(retry_number + 1) == n + 1);
    }
}

/// A runner starts exactly for a job that is there and has none, while the agent runs;
/// else the answer says which of these fails.
pub proof fn law_what_starts(job_id: Uuid, shutting_down: bool, known: bool, running: bool)
    ensures
        ({
            let refusal = start_refusal(job_id, shutting_down, known, running);
            &&& refusal is None <==> !shutting_down && known && !running
            &&& shutting_down ==> refusal == Some(ManagerError::ShuttingDown)
            &&& !shutting_down && !known ==> refusal == Some(ManagerError::NotFound(job_id))
            &&& !shutting_down && known && running ==> refusal == Some(
                ManagerError::Conflict(ControlConflict::AlreadyRunning { job_id }),
            )
        }),
{
}

/// What is stored at once: that a job is paused when its runner is told to pause, that it
/// goes on when it is told so, and that it is cancelled; where nothing happens nothing is
/// stored, and a new runner stores what it does itself.
pub proof fn law_what_control_stores(
    pause: PauseAction,
    resume: ResumeAction,
    cancel: CancelAction,
)
    ensures
        pause.spec_stores() == Some(StoredJobStatus::Paused) <==> pause is Pause,
        pause.spec_stores() is None <==> pause is Nothing,
        resume.spec_stores() == Some(StoredJobStatus::Transferring) <==> resume is Unpause,
        resume.spec_stores() is None <==> resume is Nothing || resume is Start,
        cancel.spec_stores() == Some(StoredJobStatus::Cancelled) <==> cancel is StopRunner
            || cancel is Store,
        cancel.spec_stores() is None <==> cancel is Nothing,
{
}

/// When a peer is no longer trusted exactly the jobs that are being sent to it stop:
/// those of others, those that it sends, and those that no runner works on stay.
pub proof fn law_what_stops_without_a_peer(record: JobRecord, peer_id: Uuid, running: bool)
    ensures
        without_peer(record, peer_id, running) is StopRunner <==> running && record.job.peer_id
            == Some(peer_id) && record.job.source_root@.len() > 0,
        !(without_peer(record, peer_id, running) is StopRunner) <==> without_peer(
            record,
            peer_id,
            running,
        ) is Nothing,
{
}

} // verus!
