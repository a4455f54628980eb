use std::time::Duration;

use fastsync::ids::Uuid;
use fastsync::jobs::{
    cancel, cancel_peer, pause, resume, retry_delay, start, CancelAction, ControlConflict,
    JobStanding, ManagerError, PauseAction, ResumeAction, MAX_RETRY_DELAY,
};
use fastsync::error::{NetworkFault, TransferError};
use fastsync::model::{JobStatus, TransferConfig, TransferJob, TransferProgress};
use fastsync::records::{JobRecord, StoredJobStatus, TrustedPeer};
use fastsync::runner::{
    stopped_status, AttemptFailure, ProgressSnapshot, Runner, RunnerAction, RunnerEvent, Sample,
};
use fastsync::storage::new_job_record;

fn millis(value: u64) -> Duration {
    Duration::from_millis(value)
}

#[test]
fn retry_delay_is_bounded() {
    assert_eq!(millis(retry_delay(1)), Duration::from_millis(500));
    assert_eq!(millis(retry_delay(2)), Duration::from_secs(1));
    assert_eq!(millis(retry_delay(100)), millis(MAX_RETRY_DELAY));
}

#[test]
fn retry_delay_doubles_until_its_bound() {
    let delays: Vec<u64> = (0..8).map(retry_delay).collect();
    assert_eq!(
        delays,
        vec![500, 500, 1_000, 2_000, 4_000, 8_000, 15_000, 15_000]
    );
}

#[test]
fn progress_snapshot_calculates_delta_rate_and_expires() {
    let second = 1_000_000_000_u128;
    let start = 17 * second;
    let mut snapshot = ProgressSnapshot::new(TransferProgress::default(), start);
    let sample = snapshot.update(
        TransferProgress {
            transferred_bytes: 2_000,
            ..TransferProgress::default()
        },
        start + 2 * second,
    );
    match sample {
        Sample::Rate { bytes, nanos } => {
            let rate = bytes as f64 / (nanos as f64 / 1_000_000_000.0);
            assert!((rate - 1_000.0).abs() < 0.1);
        }
        other => panic!("no rate in {other:?}"),
    }
    assert!(!snapshot.is_stale(start + 2 * second));
    assert!(snapshot.is_stale(start + 7 * second));
}

#[test]
fn a_snapshot_restarts_when_bytes_go_back() {
    let progress = |bytes| TransferProgress {
        transferred_bytes: bytes,
        ..TransferProgress::default()
    };
    let mut snapshot = ProgressSnapshot::new(progress(10), 0);
    assert_eq!(snapshot.update(progress(10), 5), Sample::Unchanged);
    assert_eq!(snapshot.update(progress(4), 6), Sample::Restarted);
    assert_eq!(snapshot.update(progress(5), 6), Sample::NoTime);
}

fn standing(status: StoredJobStatus, incoming: bool) -> Option<JobStanding> {
    Some(JobStanding { status, incoming })
}

#[test]
fn a_job_starts_once_and_only_while_running() {
    let id = Uuid::from_u128(1);
    assert_eq!(start(id, false, true, false), Ok(()));
    assert_eq!(start(id, true, true, false), Err(ManagerError::ShuttingDown));
    assert_eq!(start(id, false, false, false), Err(ManagerError::NotFound(id)));
    assert_eq!(
        start(id, false, true, true),
        Err(ManagerError::Conflict(ControlConflict::AlreadyRunning {
            job_id: id
        }))
    );
}

#[test]
fn pausing_and_resuming_follow_the_stored_status() {
    let id = Uuid::from_u128(1);
    assert_eq!(
        pause(id, standing(StoredJobStatus::Transferring, false), true),
        Ok(PauseAction::Pause)
    );
    assert_eq!(
        pause(id, standing(StoredJobStatus::Paused, false), false),
        Ok(PauseAction::Nothing)
    );
    assert!(matches!(
        pause(id, standing(StoredJobStatus::Completed, false), false),
        Err(ManagerError::Conflict(ControlConflict::CannotPause { .. }))
    ));
    assert!(matches!(
        pause(id, standing(StoredJobStatus::Transferring, false), false),
        Err(ManagerError::Conflict(ControlConflict::NoRunner { .. }))
    ));
    assert_eq!(pause(id, None, true), Err(ManagerError::NotFound(id)));
    assert_eq!(PauseAction::Pause.stores(), Some(StoredJobStatus::Paused));
    assert_eq!(PauseAction::Nothing.stores(), None);
    assert_eq!(ResumeAction::Unpause.stores(), Some(StoredJobStatus::Transferring));
    assert_eq!(ResumeAction::Start.stores(), None);
    assert_eq!(
        resume(id, standing(StoredJobStatus::Paused, false), Some(true), false),
        Ok(ResumeAction::Unpause)
    );
    assert_eq!(
        resume(id, standing(StoredJobStatus::Interrupted, false), None, false),
        Ok(ResumeAction::Start)
    );
    assert!(matches!(
        resume(id, standing(StoredJobStatus::Completed, false), None, false),
        Err(ManagerError::Conflict(ControlConflict::CannotResume { .. }))
    ));
}

#[test]
fn incoming_jobs_are_left_to_their_sender() {
    let id = Uuid::from_u128(1);
    let refused = Err(ManagerError::Conflict(ControlConflict::ControlledBySender));
    assert_eq!(
        cancel(id, standing(StoredJobStatus::Transferring, true), false),
        refused
    );
    assert_eq!(
        cancel(id, standing(StoredJobStatus::Transferring, false), true),
        Ok(CancelAction::StopRunner)
    );
    assert_eq!(
        cancel(id, standing(StoredJobStatus::Pending, false), false),
        Ok(CancelAction::Store)
    );
    assert_eq!(
        cancel(id, standing(StoredJobStatus::Cancelled, false), false),
        Ok(CancelAction::Nothing)
    );
    assert!(matches!(
        cancel(id, standing(StoredJobStatus::Completed, false), false),
        Err(ManagerError::Conflict(ControlConflict::AlreadyCompleted { .. }))
    ));
}

fn outgoing(retry_limit: u32) -> JobRecord {
    let mut job = TransferJob::with_id(
        Uuid::from_u128(1),
        "/source",
        "/destination",
        TransferConfig {
            retry_limit,
            ..TransferConfig::default()
        },
    );
    job.peer_id = Some(Uuid::from_u128(9));
    new_job_record(job, 5)
}

fn peer() -> TrustedPeer {
    TrustedPeer {
        device_id: Uuid::from_u128(9),
        name: "desk".to_owned(),
        public_key: vec![1; 32],
        address: "192.0.2.1:39463".to_owned(),
        trusted_at: 1,
        last_seen: 2,
    }
}

#[test]
fn cancelling_a_peer_stops_its_running_jobs() {
    let record = outgoing(1);
    let stopped = cancel_peer(&record, Uuid::from_u128(9), true);
    assert_eq!(stopped, CancelAction::StopRunner);
    assert_eq!(stopped.stores(), Some(StoredJobStatus::Cancelled));
    for other in [
        cancel_peer(&record, Uuid::from_u128(8), true),
        cancel_peer(&record, Uuid::from_u128(9), false),
    ] {
        assert_eq!(other, CancelAction::Nothing);
        assert_eq!(other.stores(), None);
    }
    assert_eq!(
        JobStanding::of(&record),
        JobStanding {
            status: StoredJobStatus::Pending,
            incoming: false
        }
    );
}

#[test]
fn a_runner_retries_and_then_gives_up() {
    let broken = || TransferError::Network(NetworkFault::Transport("lost".to_owned()));
    let mut runner = Runner::new();
    for attempt in 1..=2_u32 {
        assert_eq!(runner.handle(RunnerEvent::Ready), RunnerAction::Load);
        assert_eq!(
            runner.handle(RunnerEvent::Loaded(Some(outgoing(1)))),
            RunnerAction::FindPeer(Uuid::from_u128(9))
        );
        assert_eq!(
            runner.handle(RunnerEvent::PeerFound(Some(peer()))),
            RunnerAction::ReadAddress("192.0.2.1:39463".to_owned())
        );
        assert!(matches!(
            runner.handle(RunnerEvent::AddressValid),
            RunnerAction::Prepare(_)
        ));
        assert_eq!(
            runner.handle(RunnerEvent::Prepared { paused: false }),
            RunnerAction::Transfer
        );
        let action = runner.handle(RunnerEvent::Failed {
            error: broken(),
            cancelled: false,
        });
        if attempt == 1 {
            assert_eq!(
                action,
                RunnerAction::Retry {
                    number: 1,
                    limit: 1,
                    delay_millis: 500,
                    error: broken()
                }
            );
            assert!(!action.is_end());
            assert_eq!(action.stores(false), Some(StoredJobStatus::Pending));
            assert_eq!(runner.handle(RunnerEvent::Slept), RunnerAction::Wait);
        } else {
            assert_eq!(action, RunnerAction::EndRejected(broken()));
            assert!(action.is_end());
            assert_eq!(action.stores(false), None);
        }
    }
}

#[test]
fn a_runner_ends_without_a_trusted_peer() {
    let mut runner = Runner::new();
    runner.handle(RunnerEvent::Ready);
    runner.handle(RunnerEvent::Loaded(Some(outgoing(1))));
    assert_eq!(
        runner.handle(RunnerEvent::PeerFound(None)),
        RunnerAction::EndFailed(AttemptFailure::PeerNotTrusted)
    );

    let mut runner = Runner::new();
    runner.handle(RunnerEvent::Ready);
    let mut record = outgoing(1);
    record.job.peer_id = None;
    assert_eq!(
        runner.handle(RunnerEvent::Loaded(Some(record))),
        RunnerAction::EndFailed(AttemptFailure::NoPeer)
    );

    let mut runner = Runner::new();
    let stopped = runner.handle(RunnerEvent::Stopped);
    assert_eq!(stopped, RunnerAction::EndStopped);
    assert_eq!(stopped.stores(false), Some(StoredJobStatus::Cancelled));
    assert_eq!(stopped.stores(true), Some(StoredJobStatus::Interrupted));
    assert_eq!(stopped_status(true), StoredJobStatus::Interrupted);
    let failed = RunnerAction::EndFailed(AttemptFailure::NoPeer);
    assert_eq!(failed.stores(true), Some(StoredJobStatus::Failed));
    assert_eq!(RunnerAction::MarkPaused.stores(false), Some(StoredJobStatus::Paused));
}

#[test]
fn a_finished_transfer_ends_its_runner() {
    let mut runner = Runner::new();
    runner.handle(RunnerEvent::Ready);
    runner.handle(RunnerEvent::Loaded(Some(outgoing(1))));
    runner.handle(RunnerEvent::PeerFound(Some(peer())));
    runner.handle(RunnerEvent::AddressValid);
    assert_eq!(
        runner.handle(RunnerEvent::Prepared { paused: true }),
        RunnerAction::MarkPaused
    );
    let mut job = outgoing(1).job;
    job.status = JobStatus::Completed;
    assert_eq!(
        runner.handle(RunnerEvent::Finished(job.clone())),
        RunnerAction::EndFinished(job)
    );
}
