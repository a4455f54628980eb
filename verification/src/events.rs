//! Events for those who watch the agent.

use crate::ids::Uuid;
use vstd::prelude::*;

verus! {

/// How many events wait for a watcher that lags behind.
pub const EVENT_CHANNEL_CAPACITY: usize = 256;

#[derive(Debug, Clone, Copy, PartialEq, Eq, Structural)]
pub enum EventKind {
    DeviceUpdated,
    JobUpdated,
    JobProgress,
}

#[derive(Debug, Clone, Copy, PartialEq, Eq, Structural)]
pub struct AppEvent {
    pub kind: EventKind,
    pub device_id: Option<Uuid>,
    pub job_id: Option<Uuid>,
    pub timestamp: i64,
}

impl AppEvent {
    pub fn device_updated(device_id: Uuid, timestamp: i64) -> (event: Self)
        ensures
            event == (AppEvent {
                kind: EventKind::DeviceUpdated,
                device_id: Some(device_id),
                job_id: None,
                timestamp,
            }),
    {
        AppEvent {
            kind: EventKind::DeviceUpdated,
            device_id: Some(device_id),
            job_id: None,
            timestamp,
        }
    }

    pub fn job_updated(job_id: Uuid, timestamp: i64) -> (event: Self)
        ensures
            event == (AppEvent {
                kind: EventKind::JobUpdated,
                device_id: None,
                job_id: Some(job_id),
                timestamp,
            }),
    {
        AppEvent { kind: EventKind::JobUpdated, device_id: None, job_id: Some(job_id), timestamp }
    }

    pub fn job_progress(job_id: Uuid, timestamp: i64) -> (event: Self)
        ensures
            event == (AppEvent {
                kind: EventKind::JobProgress,
                device_id: None,
                job_id: Some(job_id),
                timestamp,
            }),
    {
        AppEvent { kind: EventKind::JobProgress, device_id: None, job_id: Some(job_id), timestamp }
    }
}

/// A reading of the clock in milliseconds since the Unix epoch, at most what an
/// `i64` holds. `elapsed` is the reading, or nothing where the clock is before
/// the epoch, which counts as the epoch itself.
pub fn unix_millis(elapsed: Option<u128>) -> (millis: i64)
    ensures
        millis == match elapsed {
            Some(value) => if value <= i64::MAX {
                value as int
            } else {
                i64::MAX as int
            },
            None => 0,
        },
{
    match elapsed {
        Some(value) => {
            if value <= i64::MAX as u128 {
                value as i64
            } else {
                i64::MAX
            }
        },
        None => 0,
    }
}

} // verus!
