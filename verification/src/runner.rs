//! The course of one outgoing job: attempts, retries and how it ends.

use crate::error::TransferError;
use crate::ids::Uuid;
use crate::jobs::{retry_delay, retry_delay_of, THROUGHPUT_STALE_AFTER};
use crate::model::{FileError, JobStatus, TransferJob, TransferProgress};
use crate::records::{JobRecord, StoredJobStatus, TrustedPeer};
use vstd::prelude::*;

verus! {

/// Why an attempt cannot begin.
#[derive(Debug, Clone, PartialEq, Eq)]
pub enum AttemptFailure {
    NoPeer,
    PeerNotTrusted,
    PeerUnreadable(String),
    InvalidAddress { address: String, reason: String },
}

/// What happened since the last action.
#[derive(Debug, Clone, PartialEq, Eq)]
pub enum RunnerEvent {
    /// The runner is not paused.
    Ready,
    /// The job was cancelled.
    Stopped,
    /// The record as storage has it.
    Loaded(Option<JobRecord>),
    LoadFailed,
    /// The pin of the peer.
    PeerFound(Option<TrustedPeer>),
    PeerFailed(String),
    AddressValid,
    AddressInvalid(String),
    /// The attempt is stored; says whether the runner was paused meanwhile.
    Prepared { paused: bool },
    PrepareFailed,
    /// The transfer went through.
    Finished(TransferJob),
    /// The transfer failed; says whether the job was cancelled.
    Failed { error: TransferError, cancelled: bool },
    /// The delay of a retry is over.
    Slept,
}

/// What to do next.
#[derive(Debug, Clone, PartialEq, Eq)]
pub enum RunnerAction {
    /// Wait until the runner is not paused, or the job is cancelled.
    Wait,
    Load,
    FindPeer(Uuid),
    /// Read the address of the peer.
    ReadAddress(String),
    /// Store the job as it is before an attempt.
    Prepare(TransferJob),
    /// Store that the job is paused, then wait.
    MarkPaused,
    Transfer,
    /// Store that the job was stopped: interrupted by a shutdown, else cancelled.
    EndStopped,
    /// Store that the job failed and why.
    EndFailed(AttemptFailure),
    /// Store the job as the transfer left it.
    EndFinished(TransferJob),
    /// The transfer has stored its failure already.
    EndRejected(TransferError),
    /// Nothing to store.
    EndUnstored,
    /// Store that the job is pending and why, then wait for the delay.
    Retry { number: u32, limit: u32, delay_millis: u64, error: TransferError },
}

impl RunnerAction {
    /// Nothing comes after the action.
    pub open spec fn ends(self) -> bool {
        match self {
            RunnerAction::EndStopped
            | RunnerAction::EndFailed(_)
            | RunnerAction::EndFinished(_)
            | RunnerAction::EndRejected(_)
            | RunnerAction::EndUnstored => true,
            _ => false,
        }
    }

    pub fn is_end(&self) -> (yes: bool)
        ensures
            yes == self.ends(),
    {
        match self {
            RunnerAction::EndStopped
            | RunnerAction::EndFailed(_)
            | RunnerAction::EndFinished(_)
            | RunnerAction::EndRejected(_)
            | RunnerAction::EndUnstored => true,
            _ => false,
        }
    }
}

/// The state in which the job is stored on an action, where the action says no more
/// than that.
pub open spec fn stored_on(action: RunnerAction, shutting_down: bool) -> Option<StoredJobStatus> {
    match action {
        RunnerAction::MarkPaused => Some(StoredJobStatus::Paused),
        RunnerAction::EndStopped => Some(
            if shutting_down {
                StoredJobStatus::Interrupted
            } else {
                StoredJobStatus::Cancelled
            },
        ),
        RunnerAction::EndFailed(_) => Some(StoredJobStatus::Failed),
        RunnerAction::Retry { .. } => Some(StoredJobStatus::Pending),
        _ => None,
    }
}

impl RunnerAction {
    /// The state to store the job in, if the action says no more than that.
    pub fn stores(&self, shutting_down: bool) -> (status: Option<StoredJobStatus>)
        ensures
            status == stored_on(*self, shutting_down),
    {
        match self {
            RunnerAction::MarkPaused => Some(StoredJobStatus::Paused),
            RunnerAction::EndStopped => Some(stopped_status(shutting_down)),
            RunnerAction::EndFailed(_) => Some(StoredJobStatus::Failed),
            RunnerAction::Retry { .. } => Some(StoredJobStatus::Pending),
            _ => None,
        }
    }
}

/// How a job that was stopped is stored.
pub open spec fn stopped_status_of(shutting_down: bool) -> StoredJobStatus {
    if shutting_down {
        StoredJobStatus::Interrupted
    } else {
        StoredJobStatus::Cancelled
    }
}

/// How a job that was stopped is stored: a shutdown interrupts it, so that it can go
/// on later; anything else cancels it.
pub fn stopped_status(shutting_down: bool) -> (status: StoredJobStatus)
    ensures
        status == stopped_status_of(shutting_down),
{
    if shutting_down {
        StoredJobStatus::Interrupted
    } else {
        StoredJobStatus::Cancelled
    }
}

/// What the runner waits for.
#[derive(Debug, Clone, PartialEq, Eq)]
pub enum RunnerStage {
    Waiting,
    Loading,
    FindingPeer(JobRecord),
    ReadingAddress { record: JobRecord, address: String },
    Preparing,
    Transferring,
    Sleeping,
    Ended,
}

/// A runner of one job.
#[derive(Debug, Clone, PartialEq, Eq)]
pub struct Runner {
    pub stage: RunnerStage,
    /// How many retries there have been.
    pub retry_number: u32,
    /// How many there may be.
    pub retry_limit: u32,
}

/// The job as it is stored before an attempt: pending, without errors.
pub open spec fn is_attempt(job: TransferJob, from: TransferJob) -> bool {
    &&& job == (TransferJob { status: JobStatus::Pending, errors: job.errors, ..from })
    &&& job.errors@ == Seq::<FileError>::empty()
}

impl Runner {
    /// The event can happen in the stage of the runner.
    pub open spec fn expects(self, event: RunnerEvent) -> bool {
        match self.stage {
            RunnerStage::Waiting => event is Ready || event is Stopped,
            RunnerStage::Loading => event is Loaded || event is LoadFailed,
            RunnerStage::FindingPeer(_) => event is PeerFound || event is PeerFailed,
            RunnerStage::ReadingAddress { .. } => event is AddressValid
                || event is AddressInvalid,
            RunnerStage::Preparing => event is Prepared || event is PrepareFailed,
            RunnerStage::Transferring => event is Finished || event is Failed,
            RunnerStage::Sleeping => event is Slept || event is Stopped,
            RunnerStage::Ended => false,
        }
    }

    /// A failure is worth another attempt.
    pub open spec fn may_retry(self, error: TransferError, cancelled: bool) -> bool {
        &&& !cancelled
        &&& !(error is Cancelled)
        &&& error.spec_retryable()
        &&& self.retry_number < self.retry_limit
    }

    pub fn new() -> (runner: Self)
        ensures
            runner == (Runner { stage: RunnerStage::Waiting, retry_number: 0, retry_limit: 0 }),
    {
        Runner { stage: RunnerStage::Waiting, retry_number: 0, retry_limit: 0 }
    }
}

/// What a stage makes of an event.
pub open spec fn reacts(before: Runner, event: RunnerEvent, after: Runner, action: RunnerAction) -> bool {
    match (before.stage, event) {
        (_, RunnerEvent::Ready) => action == RunnerAction::Load && after == (Runner {
            stage: RunnerStage::Loading,
            ..before
        }),
        (_, RunnerEvent::Stopped) => action == RunnerAction::EndStopped && after.has_ended(before),
        (_, RunnerEvent::Loaded(Some(record))) => match record.job.peer_id {
            Some(peer_id) => action == RunnerAction::FindPeer(peer_id) && after == (Runner {
                stage: RunnerStage::FindingPeer(record),
                ..before
            }),
            None => action == RunnerAction::EndFailed(AttemptFailure::NoPeer) && after.has_ended(
                before,
            ),
        },
        (_, RunnerEvent::Loaded(None)) => action == RunnerAction::EndUnstored && after.has_ended(
            before,
        ),
        (_, RunnerEvent::LoadFailed) => action == RunnerAction::EndUnstored && after.has_ended(
            before,
        ),
        (RunnerStage::FindingPeer(record), RunnerEvent::PeerFound(Some(peer))) => action
            == RunnerAction::ReadAddress(peer.address) && after == (Runner {
            stage: RunnerStage::ReadingAddress { record, address: peer.address },
            ..before
        }),
        (_, RunnerEvent::PeerFound(_)) => action == RunnerAction::EndFailed(
            AttemptFailure::PeerNotTrusted,
        ) && after.has_ended(before),
        (_, RunnerEvent::PeerFailed(reason)) => action == RunnerAction::EndFailed(
            AttemptFailure::PeerUnreadable(reason),
        ) && after.has_ended(before),
        (RunnerStage::ReadingAddress { record, .. }, RunnerEvent::AddressValid) => {
            &&& action matches RunnerAction::Prepare(job) && is_attempt(job, record.job)
            &&& after == (Runner {
                stage: RunnerStage::Preparing,
                retry_number: before.retry_number,
                retry_limit: record.job.config.retry_limit,
            })
        },
        (RunnerStage::ReadingAddress { address, .. }, RunnerEvent::AddressInvalid(reason)) => action
            == RunnerAction::EndFailed(AttemptFailure::InvalidAddress { address, reason })
            && after.has_ended(before),
        (_, RunnerEvent::Prepared { paused }) => if paused {
            action == RunnerAction::MarkPaused && after == (Runner {
                stage: RunnerStage::Waiting,
                ..before
            })
        } else {
            action == RunnerAction::Transfer && after == (Runner {
                stage: RunnerStage::Transferring,
                ..before
            })
        },
        (_, RunnerEvent::PrepareFailed) => action == RunnerAction::EndUnstored && after.has_ended(
            before,
        ),
        (_, RunnerEvent::Finished(job)) => action == RunnerAction::EndFinished(job)
            && after.has_ended(before),
        (_, RunnerEvent::Failed { error, cancelled }) => if cancelled || error is Cancelled {
            action == RunnerAction::EndStopped && after.has_ended(before)
        } else if before.may_retry(error, cancelled) {
            &&& action == (RunnerAction::Retry {
                number: (before.retry_number + 1) as u32,
                limit: before.retry_limit,
                delay_millis: retry_delay_of(before.retry_number + 1) as u64,
                error,
            })
            &&& after == (Runner {
                stage: RunnerStage::Sleeping,
                retry_number: (before.retry_number + 1) as u32,
                retry_limit: before.retry_limit,
            })
        } else {
            action == RunnerAction::EndRejected(error) && after.has_ended(before)
        },
        (_, RunnerEvent::Slept) => action == RunnerAction::Wait && after == (Runner {
            stage: RunnerStage::Waiting,
            ..before
        }),
        _ => false,
    }
}

impl Runner {
    /// Nothing but the stage has changed, and nothing follows.
    pub open spec fn has_ended(self, before: Runner) -> bool {
        self == (Runner { stage: RunnerStage::Ended, ..before })
    }

    /// Takes in what happened and says what to do next.
    pub fn handle(&mut self, event: RunnerEvent) -> (action: RunnerAction)
        requires
            old(self).expects(event),
        ensures
            reacts(*old(self), event, *final(self), action),
            action.ends() <==> final(self).stage is Ended,
    {
        let mut stage = RunnerStage::Ended;
        std::mem::swap(&mut stage, &mut self.stage);
        match (stage, event) {
            (_, RunnerEvent::Ready) => {
                self.stage = RunnerStage::Loading;
                RunnerAction::Load
            },
            (_, RunnerEvent::Stopped) => RunnerAction::EndStopped,
            (_, RunnerEvent::Loaded(Some(record))) => match record.job.peer_id {
                Some(peer_id) => {
                    self.stage = RunnerStage::FindingPeer(record);
                    RunnerAction::FindPeer(peer_id)
                },
                None => RunnerAction::EndFailed(AttemptFailure::NoPeer),
            },
            (_, RunnerEvent::Loaded(None)) => RunnerAction::EndUnstored,
            (_, RunnerEvent::LoadFailed) => RunnerAction::EndUnstored,
            (RunnerStage::FindingPeer(record), RunnerEvent::PeerFound(Some(peer))) => {
                self.stage = RunnerStage::ReadingAddress { record, address: peer.address.clone() };
                RunnerAction::ReadAddress(peer.address)
            },
            (_, RunnerEvent::PeerFound(_)) => RunnerAction::EndFailed(
                AttemptFailure::PeerNotTrusted,
            ),
            (_, RunnerEvent::PeerFailed(reason)) => RunnerAction::EndFailed(
                AttemptFailure::PeerUnreadable(reason),
            ),
            (RunnerStage::ReadingAddress { record, .. }, RunnerEvent::AddressValid) => {
                let mut job = record.job;
                job.status = JobStatus::Pending;
                job.errors = Vec::new();
                self.retry_limit = job.config.retry_limit;
                self.stage = RunnerStage::Preparing;
                RunnerAction::Prepare(job)
            },
            (
                RunnerStage::ReadingAddress { address, .. },
                RunnerEvent::AddressInvalid(reason),
            ) => RunnerAction::EndFailed(AttemptFailure::InvalidAddress { address, reason }),
            (_, RunnerEvent::Prepared { paused }) => {
                if paused {
                    self.stage = RunnerStage::Waiting;
                    RunnerAction::MarkPaused
                } else {
                    self.stage = RunnerStage::Transferring;
                    RunnerAction::Transfer
                }
            },
            (_, RunnerEvent::PrepareFailed) => RunnerAction::EndUnstored,
            (_, RunnerEvent::Finished(job)) => RunnerAction::EndFinished(job),
            (_, RunnerEvent::Failed { error, cancelled }) => {
                if cancelled || matches!(error, TransferError::Cancelled) {
                    RunnerAction::EndStopped
                } else if error.is_retryable() && self.retry_number < self.retry_limit {
                    self.retry_number = self.retry_number + 1;
                    self.stage = RunnerStage::Sleeping;
                    RunnerAction::Retry {
                        number: self.retry_number,
                        limit: self.retry_limit,
                        delay_millis: retry_delay(self.retry_number),
                        error,
                    }
                } else {
                    RunnerAction::EndRejected(error)
                }
            },
            (_, RunnerEvent::Slept) => {
                self.stage = RunnerStage::Waiting;
                RunnerAction::Wait
            },
            _ => RunnerAction::EndUnstored,
        }
    }
}

/// The course of a runner: its states, what happened and what was done.
pub open spec fn is_course(
    states: Seq<Runner>,
    events: Seq<RunnerEvent>,
    actions: Seq<RunnerAction>,
) -> bool {
    &&& states.len() == events.len() + 1
    &&& actions.len() == events.len()
    &&& states[0].stage is Waiting
    &&& states[0].retry_number == 0
    &&& forall|i: int|
        0 <= i < events.len() ==> states[i].expects(#[trigger] events[i]) && reacts(
            states[i],
            events[i],
            states[i + 1],
            actions[i],
        )
}

/// How many of the actions are retries.
pub open spec fn retries(actions: Seq<RunnerAction>) -> nat
    decreases actions.len(),
{
    if actions.len() == 0 {
        0
    } else if actions.last() is Retry {
        retries(actions.drop_last()) + 1
    } else {
        retries(actions.drop_last())
    }
}

proof fn lemma_retries_are_counted(
    states: Seq<Runner>,
    events: Seq<RunnerEvent>,
    actions: Seq<RunnerAction>,
    n: int,
)
    requires
        is_course(states, events, actions),
        0 <= n <= events.len(),
    ensures
        states[n].retry_number == retries(actions.take(n)),
    decreases n,
{
    if n > 0 {
        lemma_retries_are_counted(states, events, actions, n - 1);
        assert(actions.take(n).drop_last() =~= actions.take(n - 1));
        let event = events[n - 1];
        assert(reacts(states[n - 1], event, states[n], actions[n - 1]));
    }
}

/// A runner never retries more often than the job allows; a retry follows only
/// a failure that may be cured by one, and waits at most fifteen seconds.
pub proof fn law_retries_are_bounded(
    states: Seq<Runner>,
    events: Seq<RunnerEvent>,
    actions: Seq<RunnerAction>,
    n: int,
)
    requires
        is_course(states, events, actions),
        0 <= n < events.len(),
        actions[n] is Retry,
    ensures
        retries(actions.take(n + 1)) <= states[n].retry_limit,
        actions[n]->number == retries(actions.take(n + 1)),
        actions[n]->Retry_error.spec_retryable(),
        actions[n]->delay_millis <= crate::jobs::MAX_RETRY_DELAY,
{
    lemma_retries_are_counted(states, events, actions, n);
    lemma_retries_are_counted(states, events, actions, n + 1);
    let event = events[n];
    assert(reacts(states[n], event, states[n + 1], actions[n]));
    crate::jobs::law_retry_delay_is_bounded(
        states[n].retry_number + 1,
        states[n].retry_number + 1,
    );
}

/// How many of the actions are transfers.
pub open spec fn transfers(actions: Seq<RunnerAction>) -> nat
    decreases actions.len(),
{
    if actions.len() == 0 {
        0
    } else if actions.last() is Transfer {
        transfers(actions.drop_last()) + 1
    } else {
        transfers(actions.drop_last())
    }
}

/// Between two transfers there is a retry: so far there were as many transfers as
/// retries, and one more once a transfer is under way or was the last thing tried.
proof fn lemma_transfers_follow_retries(
    states: Seq<Runner>,
    events: Seq<RunnerEvent>,
    actions: Seq<RunnerAction>,
    limit: nat,
    n: int,
)
    requires
        is_course(states, events, actions),
        0 <= n <= events.len(),
        forall|i: int|
            0 <= i < n ==> ((#[trigger] states[i]).stage is Transferring ==> states[i].retry_limit
                <= limit),
    ensures
        retries(actions.take(n)) <= limit,
        match states[n].stage {
            RunnerStage::Transferring => transfers(actions.take(n)) == retries(actions.take(n)) + 1,
            RunnerStage::Ended => transfers(actions.take(n)) <= retries(actions.take(n)) + 1,
            _ => transfers(actions.take(n)) == retries(actions.take(n)),
        },
    decreases n,
{
    if n > 0 {
        lemma_transfers_follow_retries(states, events, actions, limit, n - 1);
        lemma_retries_are_counted(states, events, actions, n - 1);
        assert(actions.take(n).drop_last() =~= actions.take(n - 1));
        assert(actions.take(n).last() == actions[n - 1]);
        let event = events[n - 1];
        assert(states[n - 1].expects(event));
        assert(reacts(states[n - 1], event, states[n], actions[n - 1]));
        assert(states[n - 1].stage is Transferring ==> states[n - 1].retry_limit <= limit);
    }
}

/// A runner asks for a transfer at most once more than the job allows retries: there
/// are no more retries than that, and one between any two transfers. The job is
/// loaded anew for each attempt, so `limit` is what it allowed at most.
pub proof fn law_transfers_are_bounded(
    states: Seq<Runner>,
    events: Seq<RunnerEvent>,
    actions: Seq<RunnerAction>,
    limit: nat,
)
    requires
        is_course(states, events, actions),
        forall|i: int|
            0 <= i < events.len() ==> ((#[trigger] states[i]).stage is Transferring
                ==> states[i].retry_limit <= limit),
    ensures
        retries(actions) <= limit,
        transfers(actions) <= limit + 1,
{
    lemma_transfers_follow_retries(states, events, actions, limit, events.len() as int);
    assert(actions.take(events.len() as int) =~= actions);
}

/// Nothing happens after a runner has ended.
pub proof fn law_an_end_is_final(
    states: Seq<Runner>,
    events: Seq<RunnerEvent>,
    actions: Seq<RunnerAction>,
    n: int,
)
    requires
        is_course(states, events, actions),
        0 <= n < events.len(),
        actions[n].ends(),
    ensures
        n == events.len() - 1,
{
    let event = events[n];
    assert(reacts(states[n], event, states[n + 1], actions[n]));
    assert(states[n + 1].stage is Ended);
    if n + 1 < events.len() {
        let next = events[n + 1];
        assert(states[n + 1].expects(next));
    }
}

/// A transfer begins only with a peer that is pinned, an address that can be
/// read, and a job that was stored as pending.
pub proof fn law_transfers_are_prepared(
    states: Seq<Runner>,
    events: Seq<RunnerEvent>,
    actions: Seq<RunnerAction>,
    n: int,
)
    requires
        is_course(states, events, actions),
        0 <= n < events.len(),
        actions[n] is Transfer,
    ensures
        n >= 4,
        actions[n - 1] is Prepare,
        events[n - 1] is AddressValid,
        events[n - 2] matches RunnerEvent::PeerFound(peer) && peer is Some,
        events[n - 3] matches RunnerEvent::Loaded(record) && record is Some,
        events[n - 4] is Ready,
{
    lemma_stage_has_cause(states, events, actions, n);
    lemma_stage_has_cause(states, events, actions, n - 1);
    lemma_stage_has_cause(states, events, actions, n - 2);
    lemma_stage_has_cause(states, events, actions, n - 3);
    assert(states[n].expects(events[n]));
}

/// What must have happened just before a stage of the preparation.
proof fn lemma_stage_has_cause(
    states: Seq<Runner>,
    events: Seq<RunnerEvent>,
    actions: Seq<RunnerAction>,
    n: int,
)
    requires
        is_course(states, events, actions),
        n < events.len(),
    ensures
        0 <= n ==> reacts(states[n], events[n], states[n + 1], actions[n]),
        0 <= n && !(states[n].stage is Waiting) ==> n > 0 && states[n - 1].expects(events[n - 1])
            && reacts(states[n - 1], events[n - 1], states[n], actions[n - 1]),
{
    if 0 <= n {
        let event = events[n];
        assert(reacts(states[n], event, states[n + 1], actions[n]));
        if n > 0 {
            let earlier = events[n - 1];
            assert(states[n - 1].expects(earlier));
        }
    }
}

/// A sample of the throughput.
#[derive(Debug, Clone, Copy, PartialEq, Eq, Structural)]
pub enum Sample {
    /// Nothing new has been transferred: the rate stands.
    Unchanged,
    /// The count went back: the rate is zero.
    Restarted,
    /// No time has passed: the rate stands.
    NoTime,
    /// So many bytes in so many nanoseconds.
    Rate { bytes: u64, nanos: u128 },
}

/// The last progress of a job and when its bytes were last sampled, in
/// nanoseconds of a clock that never goes back.
#[derive(Debug, Clone, PartialEq, Eq)]
pub struct ProgressSnapshot {
    pub progress: TransferProgress,
    pub last_bytes: u64,
    pub byte_sampled_at: u128,
}

impl ProgressSnapshot {
    pub fn new(progress: TransferProgress, now: u128) -> (snapshot: Self)
        ensures
            snapshot == (ProgressSnapshot {
                progress,
                last_bytes: progress.transferred_bytes,
                byte_sampled_at: now,
            }),
    {
        let last_bytes: u64 = progress.transferred_bytes;
        ProgressSnapshot { progress, last_bytes, byte_sampled_at: now }
    }

    /// What a new count means for the throughput.
    pub open spec fn sample_of(self, bytes: u64, now: u128) -> Sample {
        if bytes < self.last_bytes {
            Sample::Restarted
        } else if bytes == self.last_bytes {
            Sample::Unchanged
        } else if now <= self.byte_sampled_at {
            Sample::NoTime
        } else {
            Sample::Rate {
                bytes: (bytes - self.last_bytes) as u64,
                nanos: (now - self.byte_sampled_at) as u128,
            }
        }
    }

    /// Takes in a new progress and says what it means for the throughput.
    pub fn update(&mut self, progress: TransferProgress, now: u128) -> (sample: Sample)
        ensures
            sample == old(self).sample_of(progress.transferred_bytes, now),
            *final(self) == (ProgressSnapshot {
                progress,
                last_bytes: progress.transferred_bytes,
                byte_sampled_at: if sample is Unchanged {
                    old(self).byte_sampled_at
                } else {
                    now
                },
            }),
    {
        let bytes: u64 = progress.transferred_bytes;
        let sample = if bytes < self.last_bytes {
            Sample::Restarted
        } else if bytes == self.last_bytes {
            Sample::Unchanged
        } else if now <= self.byte_sampled_at {
            Sample::NoTime
        } else {
            Sample::Rate { bytes: bytes - self.last_bytes, nanos: now - self.byte_sampled_at }
        };
        if !matches!(sample, Sample::Unchanged) {
            self.byte_sampled_at = now;
        }
        self.last_bytes = bytes;
        self.progress = progress;
        sample
    }

    /// Puts a measured rate into the progress.
    pub fn set_rate(&mut self, bytes_per_second: u64)
        ensures
            *final(self) == (ProgressSnapshot {
                progress: TransferProgress {
                    network_bytes_per_second: bytes_per_second,
                    read_bytes_per_second: bytes_per_second,
                    write_bytes_per_second: bytes_per_second,
                    ..old(self).progress
                },
                ..*old(self)
            }),
    {
        self.progress.network_bytes_per_second = bytes_per_second;
        self.progress.read_bytes_per_second = bytes_per_second;
        self.progress.write_bytes_per_second = bytes_per_second;
    }

    /// The throughput is too old to be shown.
    pub fn is_stale(&self, now: u128) -> (stale: bool)
        ensures
            stale == (now - self.byte_sampled_at > THROUGHPUT_STALE_AFTER * 1_000_000),
    {
        now > self.byte_sampled_at && now - self.byte_sampled_at > THROUGHPUT_STALE_AFTER as u128
            * 1_000_000
    }
}

/// What a failed transfer leads to. A cancelled job stops; one that a retry may cure is
/// tried again as long as its retries last; any other failure is the end.
pub proof fn law_what_a_failure_leads_to(
    before: Runner,
    error: TransferError,
    cancelled: bool,
    after: Runner,
    action: RunnerAction,
)
    requires
        before.stage is Transferring,
        before.retry_number < u32::MAX,
        reacts(before, RunnerEvent::Failed { error, cancelled }, after, action),
    ensures
        ({
            let stopped = cancelled || error is Cancelled;
            let curable = error.spec_retryable() && before.retry_number < before.retry_limit;
            &&& action is EndStopped <==> stopped
            &&& action is Retry <==> !stopped && curable
            &&& action is EndRejected <==> !stopped && !curable
            &&& action is Retry ==> {
                &&& action->number == before.retry_number + 1
                &&& action->limit == before.retry_limit
                &&& action->Retry_error == error
                &&& action->delay_millis == retry_delay_of(action->number as int)
                &&& after.stage is Sleeping
                &&& after.retry_number == before.retry_number + 1
                &&& after.retry_limit == before.retry_limit
            }
            &&& action is EndRejected ==> action->EndRejected_0 == error
            &&& !(action is Retry) ==> after.stage is Ended
        }),
{
    crate::jobs::law_retry_delay_is_bounded(before.retry_number + 1, before.retry_number + 1);
}

/// Where nothing fails, a runner goes its way: it waits until it may run, loads the job,
/// finds its peer, reads the address, stores the attempt and transfers. A peer that is
/// not there or an address that cannot be read ends it, and a pause sends it back.
pub proof fn law_a_runner_goes_its_way(
    before: Runner,
    event: RunnerEvent,
    after: Runner,
    action: RunnerAction,
)
    requires
        before.expects(event),
        reacts(before, event, after, action),
    ensures
        event is Ready ==> action is Load && after.stage is Loading,
        event is Stopped ==> action is EndStopped && after.stage is Ended,
        event matches RunnerEvent::Loaded(Some(record)) ==> match record.job.peer_id {
            Some(peer_id) => action is FindPeer && action->FindPeer_0 == peer_id
                && after.stage is FindingPeer,
            None => action is EndFailed && action->EndFailed_0 is NoPeer,
        },
        event matches RunnerEvent::Loaded(None) ==> action is EndUnstored,
        event matches RunnerEvent::PeerFound(Some(peer)) ==> action is ReadAddress
            && action->ReadAddress_0 == peer.address && after.stage is ReadingAddress,
        event matches RunnerEvent::PeerFound(None) ==> action is EndFailed
            && action->EndFailed_0 is PeerNotTrusted,
        event is AddressValid ==> {
            let record = before.stage->ReadingAddress_record;
            let job = action->Prepare_0;
            &&& action is Prepare && after.stage is Preparing
            &&& job.id == record.job.id && job.status is Pending && job.errors@.len() == 0
            &&& job.config == record.job.config && job.source_root == record.job.source_root
            &&& job.destination_root == record.job.destination_root
            &&& after.retry_limit == record.job.config.retry_limit
        },
        event is AddressInvalid ==> action is EndFailed && action->EndFailed_0 is InvalidAddress,
        (event matches RunnerEvent::Prepared { paused } ==> if paused {
            action is MarkPaused && after.stage is Waiting
        } else {
            action is Transfer && after.stage is Transferring
        }),
        event matches RunnerEvent::Finished(job) ==> action is EndFinished && action->EndFinished_0
            == job && after.stage is Ended,
        event is Slept ==> action is Wait && after.stage is Waiting,
        action is EndFailed ==> after.stage is Ended,
        !(event is Failed) ==> after.retry_number == before.retry_number,
{
}

/// What an action stores of a job: paused while it is paused, pending before a retry,
/// failed if it could not begin, and for one that was stopped whether the agent shut
/// down or somebody cancelled it.
pub proof fn law_what_an_action_stores(action: RunnerAction, shutting_down: bool)
    ensures
        stored_on(action, shutting_down) == Some(StoredJobStatus::Paused) <==> action is MarkPaused,
        stored_on(action, shutting_down) == Some(StoredJobStatus::Pending) <==> action is Retry,
        stored_on(action, shutting_down) == Some(StoredJobStatus::Failed) <==> action is EndFailed,
        stored_on(action, shutting_down) == Some(StoredJobStatus::Interrupted) <==> action is EndStopped
            && shutting_down,
        stored_on(action, shutting_down) == Some(StoredJobStatus::Cancelled) <==> action is EndStopped
            && !shutting_down,
        stored_on(action, shutting_down) is None <==> action is Wait || action is Load
            || action is FindPeer || action is ReadAddress || action is Prepare
            || action is Transfer || action is EndFinished || action is EndRejected
            || action is EndUnstored,
{
}

/// A rate is measured over what was transferred since the last sample and the time that
/// this took, and only where both are more than nothing; a count that went back starts
/// over.
pub proof fn law_what_is_sampled(snapshot: ProgressSnapshot, bytes: u64, now: u128)
    ensures
        ({
            let sample = snapshot.sample_of(bytes, now);
            &&& sample is Restarted <==> bytes < snapshot.last_bytes
            &&& sample is Unchanged <==> bytes == snapshot.last_bytes
            &&& sample is NoTime <==> bytes > snapshot.last_bytes && now
                <= snapshot.byte_sampled_at
            &&& sample is Rate <==> bytes > snapshot.last_bytes && now > snapshot.byte_sampled_at
            &&& sample is Rate ==> snapshot.last_bytes + sample->bytes == bytes
                && snapshot.byte_sampled_at + sample->nanos == now
        }),
{
}

/// A job that a shutdown stopped can go on later, one that was cancelled cannot; and it
/// is stored as the runner's own action says.
pub proof fn law_shutdowns_interrupt(job_id: Uuid, shutting_down: bool)
    ensures
        stored_on(RunnerAction::EndStopped, shutting_down) == Some(
            stopped_status_of(shutting_down),
        ),
        ({
            let job = Some(
                crate::jobs::JobStanding {
                    status: stopped_status_of(shutting_down),
                    incoming: false,
                },
            );
            crate::jobs::resume_outcome(job_id, job, None, false) is Ok <==> shutting_down
        }),
{
}

} // verus!
