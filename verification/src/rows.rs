//! Records as rows of integers, texts and blobs.

use crate::error::{RowFault, StorageError};
use crate::ids::{parsed, Uuid};
use crate::model::{ChunkDescriptor, ContentHash, TransferJob, TransferProgress};
use crate::records::{
    core_status_of, file_status_named, file_status_text, job_in, job_status_named,
    job_status_text, CompletedChunk, DiscoveredDevice, HashCacheEntry, HashCacheKey,
    JobFileRecord, JobFileStatus, JobRecord, StoredJobStatus, TrustedPeer,
};
use vstd::prelude::*;
use vstd::slice::slice_to_vec;

verus! {

/// A count as the signed integer that a column holds.
pub open spec fn stored_integer(value: u64, field: &'static str) -> Result<i64, StorageError> {
    if value <= i64::MAX {
        Ok(value as i64)
    } else {
        Err(StorageError::IntegerOutOfRange { field, value })
    }
}

/// A count as it is stored.
pub fn sqlite_integer(value: u64, field: &'static str) -> (result: Result<i64, StorageError>)
    ensures
        result == stored_integer(value, field),
{
    if value <= i64::MAX as u64 {
        Ok(value as i64)
    } else {
        Err(StorageError::IntegerOutOfRange { field, value })
    }
}

/// The count that a column holds.
pub open spec fn loaded_integer(value: i64, field: &'static str) -> Result<u64, StorageError> {
    if value >= 0 {
        Ok(value as u64)
    } else {
        Err(StorageError::InvalidData { field, fault: RowFault::NegativeValue { value } })
    }
}

/// A count as it was stored.
pub fn unsigned_integer(value: i64, field: &'static str) -> (result: Result<u64, StorageError>)
    ensures
        result == loaded_integer(value, field),
{
    if value >= 0 {
        Ok(value as u64)
    } else {
        Err(StorageError::InvalidData { field, fault: RowFault::NegativeValue { value } })
    }
}

/// Every count that a column can hold comes back as it was.
pub proof fn law_counts_survive_storage(value: u64, field: &'static str)
    ensures
        stored_integer(value, field) matches Ok(column) ==> loaded_integer(column, field) == Ok::<
            u64,
            StorageError,
        >(value),
        stored_integer(value, field) is Ok <==> value <= i64::MAX,
{
}

/// The identifier that a column holds.
pub open spec fn loaded_identifier(text: String, field: &'static str) -> Result<
    Uuid,
    StorageError,
> {
    match parsed(text@) {
        Some(id) => Ok(id),
        None => Err(
            StorageError::InvalidData { field, fault: RowFault::InvalidIdentifier { text } },
        ),
    }
}

/// An identifier as it was stored.
pub fn parse_uuid(value: &String, field: &'static str) -> (result: Result<Uuid, StorageError>)
    ensures
        result == loaded_identifier(*value, field),
        forall|id: Uuid| value@ == #[trigger] id.spec_text() ==> result == Ok::<Uuid, StorageError>(
            id,
        ),
{
    match Uuid::parse(value.as_str()) {
        Some(id) => Ok(id),
        None => Err(
            StorageError::InvalidData {
                field,
                fault: RowFault::InvalidIdentifier { text: value.clone() },
            },
        ),
    }
}

/// The digest that a blob holds.
pub fn hash_from_blob(value: Vec<u8>, field: &'static str) -> (result: Result<
    ContentHash,
    StorageError,
>)
    ensures
        match result {
            Ok(hash) => value@.len() == 32 && hash@ == value@,
            Err(error) => value@.len() != 32 && error == (StorageError::InvalidData {
                field,
                fault: RowFault::WrongHashLength { length: value.len() },
            }),
        },
{
    if value.len() != 32 {
        return Err(
            StorageError::InvalidData {
                field,
                fault: RowFault::WrongHashLength { length: value.len() },
            },
        );
    }
    let mut hash: [u8; 32] = [0u8;32];
    let mut i: usize = 0;
    while i < 32
        invariant
            i <= 32,
            value.len() == 32,
            forall|k: int| 0 <= k < i ==> hash@[k] == value@[k],
        decreases 32 - i,
    {
        hash[i] = value[i];
        i += 1;
    }
    assert(hash@ =~= value@);
    Ok(hash)
}

/// A row of the devices that were seen.
#[derive(Debug, Clone, PartialEq, Eq)]
pub struct DeviceRow {
    pub device_id: String,
    pub name: String,
    pub public_key: Option<Vec<u8>>,
    pub address: String,
    pub first_seen: i64,
    pub last_seen: i64,
}

impl DeviceRow {
    /// The row says what the device says.
    pub open spec fn holds(self, device: DiscoveredDevice) -> bool {
        &&& self.device_id@ == device.device_id.spec_text()
        &&& self.name == device.name
        &&& self.public_key == device.public_key
        &&& self.address == device.address
        &&& self.first_seen == device.first_seen
        &&& self.last_seen == device.last_seen
    }

    pub fn from_record(device: DiscoveredDevice) -> (row: Self)
        ensures
            row.holds(device),
    {
        DeviceRow {
            device_id: device.device_id.to_text(),
            name: device.name,
            public_key: device.public_key,
            address: device.address,
            first_seen: device.first_seen,
            last_seen: device.last_seen,
        }
    }

    /// The device that a row holds.
    pub open spec fn spec_device(self) -> Result<DiscoveredDevice, StorageError> {
        match loaded_identifier(self.device_id, "devices.device_id") {
            Ok(device_id) => Ok(
                DiscoveredDevice {
                    device_id,
                    name: self.name,
                    public_key: self.public_key,
                    address: self.address,
                    first_seen: self.first_seen,
                    last_seen: self.last_seen,
                },
            ),
            Err(error) => Err(error),
        }
    }
}

/// Reads a row; what was written to it comes back.
pub fn device_from_raw(raw: DeviceRow) -> (result: Result<DiscoveredDevice, StorageError>)
    ensures
        result == raw.spec_device(),
        forall|device: DiscoveredDevice| #[trigger]
            raw.holds(device) ==> result == Ok::<DiscoveredDevice, StorageError>(device),
{
    match parse_uuid(&raw.device_id, "devices.device_id") {
        Ok(device_id) => Ok(
            DiscoveredDevice {
                device_id,
                name: raw.name,
                public_key: raw.public_key,
                address: raw.address,
                first_seen: raw.first_seen,
                last_seen: raw.last_seen,
            },
        ),
        Err(error) => Err(error),
    }
}

/// A row of the peers that are trusted.
#[derive(Debug, Clone, PartialEq, Eq)]
pub struct TrustedPeerRow {
    pub device_id: String,
    pub name: String,
    pub public_key: Vec<u8>,
    pub address: String,
    pub trusted_at: i64,
    pub last_seen: i64,
}

impl TrustedPeerRow {
    /// The row says what the peer says.
    pub open spec fn holds(self, peer: TrustedPeer) -> bool {
        &&& self.device_id@ == peer.device_id.spec_text()
        &&& self.name == peer.name
        &&& self.public_key == peer.public_key
        &&& self.address == peer.address
        &&& self.trusted_at == peer.trusted_at
        &&& self.last_seen == peer.last_seen
    }

    pub fn from_record(peer: TrustedPeer) -> (row: Self)
        ensures
            row.holds(peer),
    {
        TrustedPeerRow {
            device_id: peer.device_id.to_text(),
            name: peer.name,
            public_key: peer.public_key,
            address: peer.address,
            trusted_at: peer.trusted_at,
            last_seen: peer.last_seen,
        }
    }

    /// The peer that a row holds.
    pub open spec fn spec_peer(self) -> Result<TrustedPeer, StorageError> {
        match loaded_identifier(self.device_id, "trusted_peers.device_id") {
            Ok(device_id) => Ok(
                TrustedPeer {
                    device_id,
                    name: self.name,
                    public_key: self.public_key,
                    address: self.address,
                    trusted_at: self.trusted_at,
                    last_seen: self.last_seen,
                },
            ),
            Err(error) => Err(error),
        }
    }
}

/// Reads a row; what was written to it comes back.
pub fn trusted_peer_from_raw(raw: TrustedPeerRow) -> (result: Result<TrustedPeer, StorageError>)
    ensures
        result == raw.spec_peer(),
        forall|peer: TrustedPeer| #[trigger]
            raw.holds(peer) ==> result == Ok::<TrustedPeer, StorageError>(peer),
{
    match parse_uuid(&raw.device_id, "trusted_peers.device_id") {
        Ok(device_id) => Ok(
            TrustedPeer {
                device_id,
                name: raw.name,
                public_key: raw.public_key,
                address: raw.address,
                trusted_at: raw.trusted_at,
                last_seen: raw.last_seen,
            },
        ),
        Err(error) => Err(error),
    }
}

/// The progress of a job, encoded and as columns.
#[derive(Debug, Clone, PartialEq, Eq)]
pub struct PreparedProgress {
    pub cbor: Vec<u8>,
    pub bytes_transferred: i64,
    pub total_bytes: i64,
    pub files_completed: i64,
    pub total_files: i64,
}

/// The first count of a progress that no column can hold.
pub open spec fn progress_overflow(progress: TransferProgress) -> Option<StorageError> {
    if progress.transferred_bytes > i64::MAX {
        Some(
            StorageError::IntegerOutOfRange {
                field: "jobs.bytes_transferred",
                value: progress.transferred_bytes,
            },
        )
    } else if progress.total_bytes > i64::MAX {
        Some(
            StorageError::IntegerOutOfRange {
                field: "jobs.total_bytes",
                value: progress.total_bytes,
            },
        )
    } else if progress.completed_files > i64::MAX {
        Some(
            StorageError::IntegerOutOfRange {
                field: "jobs.files_completed",
                value: progress.completed_files,
            },
        )
    } else if progress.total_files > i64::MAX {
        Some(
            StorageError::IntegerOutOfRange {
                field: "jobs.total_files",
                value: progress.total_files,
            },
        )
    } else {
        None
    }
}

/// The progress of a job as it is written, given how encoding it went.
pub open spec fn prepared_progress(
    progress: TransferProgress,
    encoded: Result<Vec<u8>, String>,
) -> Result<PreparedProgress, StorageError> {
    match encoded {
        Err(message) => Err(StorageError::Encode { kind: "transfer progress", message }),
        Ok(cbor) => match progress_overflow(progress) {
            Some(error) => Err(error),
            None => Ok(
                PreparedProgress {
                    cbor,
                    bytes_transferred: progress.transferred_bytes as i64,
                    total_bytes: progress.total_bytes as i64,
                    files_completed: progress.completed_files as i64,
                    total_files: progress.total_files as i64,
                },
            ),
        },
    }
}

impl PreparedProgress {
    pub fn new(progress: &TransferProgress, encoded: Result<Vec<u8>, String>) -> (result: Result<
        Self,
        StorageError,
    >)
        ensures
            result == prepared_progress(*progress, encoded),
    {
        let cbor = match encoded {
            Ok(cbor) => cbor,
            Err(message) => {
                return Err(StorageError::Encode { kind: "transfer progress", message });
            },
        };
        let bytes_transferred: i64 = match sqlite_integer(
            progress.transferred_bytes,
            "jobs.bytes_transferred",
        ) {
            Ok(column) => column,
            Err(error) => return Err(error),
        };
        let total_bytes: i64 = match sqlite_integer(progress.total_bytes, "jobs.total_bytes") {
            Ok(column) => column,
            Err(error) => return Err(error),
        };
        let files_completed: i64 = match sqlite_integer(
            progress.completed_files,
            "jobs.files_completed",
        ) {
            Ok(column) => column,
            Err(error) => return Err(error),
        };
        let total_files: i64 = match sqlite_integer(progress.total_files, "jobs.total_files") {
            Ok(column) => column,
            Err(error) => return Err(error),
        };
        Ok(
            PreparedProgress {
                cbor,
                bytes_transferred,
                total_bytes,
                files_completed,
                total_files,
            },
        )
    }
}

/// A row of the jobs: the encoded job, its state and its counters.
#[derive(Debug, Clone, PartialEq, Eq)]
pub struct JobRow {
    pub id: String,
    pub payload: Vec<u8>,
    pub status: String,
    pub progress: PreparedProgress,
    pub error: Option<String>,
    pub created_at: i64,
    pub updated_at: i64,
}

/// A stored state that stands for another core state than the job's own.
pub open spec fn status_disagrees(record: JobRecord) -> bool {
    core_status_of(record.status) matches Some(status) && status != record.job.status
}

/// Why a record cannot be written.
pub open spec fn job_row_error(
    record: JobRecord,
    payload: Result<Vec<u8>, String>,
    progress: Result<Vec<u8>, String>,
) -> Option<StorageError> {
    if status_disagrees(record) {
        Some(StorageError::InvalidData { field: "jobs.status", fault: RowFault::StatusDisagrees })
    } else {
        match payload {
            Err(message) => Some(StorageError::Encode { kind: "transfer job", message }),
            Ok(_) => match prepared_progress(record.job.progress, progress) {
                Err(error) => Some(error),
                Ok(_) => None,
            },
        }
    }
}

/// The record that a row holds, given what its two blobs decode to.
pub open spec fn loaded_job(
    raw: JobRow,
    payload: Result<TransferJob, String>,
    progress: Result<TransferProgress, String>,
) -> Result<JobRecord, StorageError> {
    match (job_status_named(raw.status@), loaded_identifier(raw.id, "jobs.id")) {
        (None, _) => Err(
            StorageError::InvalidData {
                field: "jobs.status",
                fault: RowFault::UnknownStatus { text: raw.status },
            },
        ),
        (Some(_), Err(error)) => Err(error),
        (Some(status), Ok(id)) => match (payload, progress) {
            (Err(message), _) => Err(StorageError::Decode { kind: "transfer job", message }),
            (Ok(job), _) if job.id != id => Err(
                StorageError::InvalidData {
                    field: "jobs.payload",
                    fault: RowFault::ForeignPayload { payload: job.id, row: id },
                },
            ),
            (Ok(_), Err(message)) => Err(
                StorageError::Decode { kind: "transfer progress", message },
            ),
            (Ok(job), Ok(progress)) => match column_fault(raw.progress, progress) {
                Some(error) => Err(error),
                None => Ok(
                    JobRecord {
                        job: TransferJob {
                            progress,
                            status: match core_status_of(status) {
                                Some(core) => core,
                                None => job.status,
                            },
                            ..job
                        },
                        status,
                        error: raw.error,
                        created_at: raw.created_at,
                        updated_at: raw.updated_at,
                    },
                ),
            },
        },
    }
}

/// What is wrong with the columns that repeat an encoded progress.
pub open spec fn column_fault(columns: PreparedProgress, progress: TransferProgress) -> Option<
    StorageError,
> {
    if columns.bytes_transferred < 0 {
        Some(
            StorageError::InvalidData {
                field: "jobs.bytes_transferred",
                fault: RowFault::NegativeValue { value: columns.bytes_transferred },
            },
        )
    } else if columns.total_bytes < 0 {
        Some(
            StorageError::InvalidData {
                field: "jobs.total_bytes",
                fault: RowFault::NegativeValue { value: columns.total_bytes },
            },
        )
    } else if columns.files_completed < 0 {
        Some(
            StorageError::InvalidData {
                field: "jobs.files_completed",
                fault: RowFault::NegativeValue { value: columns.files_completed },
            },
        )
    } else if columns.total_files < 0 {
        Some(
            StorageError::InvalidData {
                field: "jobs.total_files",
                fault: RowFault::NegativeValue { value: columns.total_files },
            },
        )
    } else if columns.bytes_transferred == progress.transferred_bytes && columns.total_bytes
        == progress.total_bytes && columns.files_completed == progress.completed_files
        && columns.total_files == progress.total_files {
        None
    } else {
        Some(
            StorageError::InvalidData {
                field: "jobs.progress_cbor",
                fault: RowFault::ProgressDisagrees,
            },
        )
    }
}

/// Whether the columns repeat what the encoded progress says.
pub fn validate_progress_columns(columns: &PreparedProgress, progress: &TransferProgress) -> (result:
    Result<(), StorageError>)
    ensures
        match column_fault(*columns, *progress) {
            Some(error) => result == Err::<(), StorageError>(error),
            None => result is Ok,
        },
{
    let bytes_transferred: u64 = match unsigned_integer(
        columns.bytes_transferred,
        "jobs.bytes_transferred",
    ) {
        Ok(value) => value,
        Err(error) => return Err(error),
    };
    let total_bytes: u64 = match unsigned_integer(columns.total_bytes, "jobs.total_bytes") {
        Ok(value) => value,
        Err(error) => return Err(error),
    };
    let files_completed: u64 = match unsigned_integer(
        columns.files_completed,
        "jobs.files_completed",
    ) {
        Ok(value) => value,
        Err(error) => return Err(error),
    };
    let total_files: u64 = match unsigned_integer(columns.total_files, "jobs.total_files") {
        Ok(value) => value,
        Err(error) => return Err(error),
    };
    if bytes_transferred == progress.transferred_bytes && total_bytes == progress.total_bytes
        && files_completed == progress.completed_files && total_files == progress.total_files {
        Ok(())
    } else {
        Err(
            StorageError::InvalidData {
                field: "jobs.progress_cbor",
                fault: RowFault::ProgressDisagrees,
            },
        )
    }
}

fn copy_text(text: &Option<String>) -> (copy: Option<String>)
    ensures
        copy == *text,
{
    match text {
        Some(found) => Some(found.clone()),
        None => None,
    }
}

impl JobRow {
    /// The row says what the record says, with the job and its progress encoded
    /// as `payload` and `progress`.
    pub open spec fn holds(self, record: JobRecord, payload: Vec<u8>, progress: Vec<u8>) -> bool {
        &&& !status_disagrees(record)
        &&& self.id@ == record.job.id.spec_text()
        &&& self.payload == payload
        &&& self.status@ == job_status_text(record.status)
        &&& prepared_progress(record.job.progress, Ok(progress)) == Ok::<
            PreparedProgress,
            StorageError,
        >(self.progress)
        &&& self.error == record.error
        &&& self.created_at == record.created_at
        &&& self.updated_at == record.updated_at
    }

    /// The row for a record, given how encoding the job and its progress went.
    pub fn from_record(
        record: &JobRecord,
        payload: Result<Vec<u8>, String>,
        progress: Result<Vec<u8>, String>,
    ) -> (result: Result<Self, StorageError>)
        ensures
            match result {
                Ok(row) => job_row_error(*record, payload, progress) is None && row.holds(
                    *record,
                    payload->Ok_0,
                    progress->Ok_0,
                ),
                Err(error) => job_row_error(*record, payload, progress) == Some(error),
            },
    {
        match record.status.core_status() {
            Some(status) => {
                if status != record.job.status {
                    return Err(
                        StorageError::InvalidData {
                            field: "jobs.status",
                            fault: RowFault::StatusDisagrees,
                        },
                    );
                }
            },
            None => {},
        }
        let payload = match payload {
            Ok(bytes) => bytes,
            Err(message) => {
                return Err(StorageError::Encode { kind: "transfer job", message });
            },
        };
        let progress = match PreparedProgress::new(&record.job.progress, progress) {
            Ok(prepared) => prepared,
            Err(error) => return Err(error),
        };
        Ok(
            JobRow {
                id: record.job.id.to_text(),
                payload,
                status: record.status.as_str().to_owned(),
                progress,
                error: copy_text(&record.error),
                created_at: record.created_at,
                updated_at: record.updated_at,
            },
        )
    }

    /// The row that stays once this one is written over `existing`: a row keeps
    /// the time at which it was made.
    pub fn over(self, existing: Option<&JobRow>) -> (row: Self)
        ensures
            match existing {
                Some(found) => row == (JobRow { created_at: found.created_at, ..self }),
                None => row == self,
            },
    {
        match existing {
            Some(found) => {
                let created_at: i64 = found.created_at;
                JobRow { created_at, ..self }
            },
            None => self,
        }
    }

    /// The row with the job in another state, encoded as `payload`.
    pub open spec fn is_moved(
        self,
        before: JobRow,
        status: StoredJobStatus,
        payload: Vec<u8>,
        updated_at: i64,
    ) -> bool {
        &&& self.status@ == job_status_text(status)
        &&& self == (JobRow { status: self.status, payload, updated_at, ..before })
    }

    /// Moves the job to another state, given how encoding the job in that state
    /// went; see `job_in`.
    pub fn set_status(
        &mut self,
        status: StoredJobStatus,
        payload: Result<Vec<u8>, String>,
        updated_at: i64,
    ) -> (result: Result<(), StorageError>)
        ensures
            match payload {
                Ok(bytes) => result is Ok && final(self).is_moved(
                    *old(self),
                    status,
                    bytes,
                    updated_at,
                ),
                Err(message) => result == Err::<(), StorageError>(
                    StorageError::Encode { kind: "transfer job", message },
                ) && *final(self) == *old(self),
            },
    {
        match payload {
            Ok(bytes) => {
                self.payload = bytes;
                self.status = status.as_str().to_owned();
                self.updated_at = updated_at;
                Ok(())
            },
            Err(message) => Err(StorageError::Encode { kind: "transfer job", message }),
        }
    }

    /// Moves the job to another state and says why.
    pub fn set_status_with_error(
        &mut self,
        status: StoredJobStatus,
        payload: Result<Vec<u8>, String>,
        error: Option<String>,
        updated_at: i64,
    ) -> (result: Result<(), StorageError>)
        ensures
            match payload {
                Ok(bytes) => result is Ok && final(self).is_moved(
                    JobRow { error, ..*old(self) },
                    status,
                    bytes,
                    updated_at,
                ),
                Err(message) => result == Err::<(), StorageError>(
                    StorageError::Encode { kind: "transfer job", message },
                ) && *final(self) == *old(self),
            },
    {
        match self.set_status(status, payload, updated_at) {
            Ok(_) => {
                self.error = error;
                Ok(())
            },
            Err(failure) => Err(failure),
        }
    }

    /// Replaces the progress of the job.
    pub fn set_progress(&mut self, progress: PreparedProgress, updated_at: i64)
        ensures
            *final(self) == (JobRow { progress, updated_at, ..*old(self) }),
    {
        self.progress = progress;
        self.updated_at = updated_at;
    }

    /// Replaces the state and the progress of the job at once.
    pub fn set_status_and_progress(
        &mut self,
        status: StoredJobStatus,
        payload: Result<Vec<u8>, String>,
        progress: PreparedProgress,
        updated_at: i64,
    ) -> (result: Result<(), StorageError>)
        ensures
            match payload {
                Ok(bytes) => result is Ok && final(self).is_moved(
                    JobRow { progress, ..*old(self) },
                    status,
                    bytes,
                    updated_at,
                ),
                Err(message) => result == Err::<(), StorageError>(
                    StorageError::Encode { kind: "transfer job", message },
                ) && *final(self) == *old(self),
            },
    {
        match self.set_status(status, payload, updated_at) {
            Ok(_) => {
                self.progress = progress;
                Ok(())
            },
            Err(failure) => Err(failure),
        }
    }

    /// The state is one in which a runner was at work.
    pub open spec fn was_running(self) -> bool {
        job_status_named(self.status@) matches Some(status) && is_running(status)
    }

    /// Marks a job that no runner holds any more, and says whether it did. Given is
    /// how encoding the job went, in the core state that it is in.
    pub fn interrupt(&mut self, payload: Result<Vec<u8>, String>, updated_at: i64) -> (result: Result<
        bool,
        StorageError,
    >)
        ensures
            if old(self).was_running() {
                match payload {
                    Ok(bytes) => result == Ok::<bool, StorageError>(true) && final(self).is_moved(
                        *old(self),
                        StoredJobStatus::Interrupted,
                        bytes,
                        updated_at,
                    ),
                    Err(message) => result == Err::<bool, StorageError>(
                        StorageError::Encode { kind: "transfer job", message },
                    ) && *final(self) == *old(self),
                }
            } else {
                result == Ok::<bool, StorageError>(false) && *final(self) == *old(self)
            },
    {
        let running = match StoredJobStatus::from_str(self.status.as_str()) {
            Some(status) => matches!(
                status,
                StoredJobStatus::Scanning
                | StoredJobStatus::Transferring
                | StoredJobStatus::Verifying
            ),
            None => false,
        };
        if !running {
            return Ok(false);
        }
        match self.set_status(StoredJobStatus::Interrupted, payload, updated_at) {
            Ok(_) => Ok(true),
            Err(failure) => Err(failure),
        }
    }
}

/// The states in which a runner is at work.
pub open spec fn is_running(status: StoredJobStatus) -> bool {
    ||| status == StoredJobStatus::Scanning
    ||| status == StoredJobStatus::Transferring
    ||| status == StoredJobStatus::Verifying
}

/// Reads a row, given what its two blobs decode to. What was written to it comes
/// back, provided that the blobs decode to what they encode.
pub fn job_from_raw(
    raw: JobRow,
    payload: Result<TransferJob, String>,
    progress: Result<TransferProgress, String>,
) -> (result: Result<JobRecord, StorageError>)
    ensures
        result == loaded_job(raw, payload, progress),
        forall|record: JobRecord, job_blob: Vec<u8>, progress_blob: Vec<u8>| #[trigger]
            raw.holds(record, job_blob, progress_blob) && payload == Ok::<TransferJob, String>(
                record.job,
            ) && progress == Ok::<TransferProgress, String>(record.job.progress) ==> result == Ok::<
                JobRecord,
                StorageError,
            >(record),
{
    let status = match StoredJobStatus::from_str(raw.status.as_str()) {
        Some(status) => status,
        None => {
            proof {
                assert forall|record: JobRecord, job_blob: Vec<u8>, progress_blob: Vec<u8>| #[trigger]
                    raw.holds(record, job_blob, progress_blob) implies false by {
                    crate::records::lemma_job_status_named(record.status);
                }
            }
            return Err(
                StorageError::InvalidData {
                    field: "jobs.status",
                    fault: RowFault::UnknownStatus { text: raw.status },
                },
            );
        },
    };
    proof {
        assert forall|record: JobRecord, job_blob: Vec<u8>, progress_blob: Vec<u8>| #[trigger]
            raw.holds(record, job_blob, progress_blob) implies record.status == status by {
            crate::records::lemma_job_status_named(record.status);
        }
    }
    let id = match parse_uuid(&raw.id, "jobs.id") {
        Ok(id) => id,
        Err(error) => return Err(error),
    };
    let job = match payload {
        Ok(job) => job,
        Err(message) => return Err(StorageError::Decode { kind: "transfer job", message }),
    };
    if job.id != id {
        return Err(
            StorageError::InvalidData {
                field: "jobs.payload",
                fault: RowFault::ForeignPayload { payload: job.id, row: id },
            },
        );
    }
    let progress = match progress {
        Ok(progress) => progress,
        Err(message) => {
            return Err(StorageError::Decode { kind: "transfer progress", message });
        },
    };
    match validate_progress_columns(&raw.progress, &progress) {
        Ok(_) => {},
        Err(error) => return Err(error),
    }
    let mut job = job;
    job.progress = progress;
    match status.core_status() {
        Some(core) => {
            job.status = core;
        },
        None => {},
    }
    Ok(
        JobRecord {
            job,
            status,
            error: raw.error,
            created_at: raw.created_at,
            updated_at: raw.updated_at,
        },
    )
}

/// After a row was moved to another state, with the job encoded in that state,
/// the record that is read differs from the one read before in that state and the
/// time alone.
pub proof fn law_updates_are_read_back(
    before: JobRow,
    after: JobRow,
    status: StoredJobStatus,
    payload: TransferJob,
    progress: TransferProgress,
    record: JobRecord,
)
    requires
        loaded_job(before, Ok(payload), Ok(progress)) == Ok::<JobRecord, StorageError>(record),
        after.is_moved(before, status, after.payload, after.updated_at),
    ensures
        loaded_job(after, Ok(job_in(record.job, status)), Ok(progress)) == Ok::<
            JobRecord,
            StorageError,
        >(
            JobRecord {
                job: job_in(record.job, status),
                status,
                updated_at: after.updated_at,
                ..record
            },
        ),
{
    crate::records::lemma_job_status_named(status);
}

/// An interruption keeps the job, and with it the phase that it was in: the
/// stored state says that it was interrupted, and the very job that was read
/// before is read after.
pub proof fn law_interruption_keeps_the_phase(
    before: JobRow,
    after: JobRow,
    payload: TransferJob,
    progress: TransferProgress,
    record: JobRecord,
)
    requires
        loaded_job(before, Ok(payload), Ok(progress)) == Ok::<JobRecord, StorageError>(record),
        after.is_moved(before, StoredJobStatus::Interrupted, after.payload, after.updated_at),
    ensures
        job_in(record.job, StoredJobStatus::Interrupted) == record.job,
        loaded_job(after, Ok(record.job), Ok(progress)) == Ok::<JobRecord, StorageError>(
            JobRecord {
                status: StoredJobStatus::Interrupted,
                updated_at: after.updated_at,
                ..record
            },
        ),
{
    law_updates_are_read_back(
        before,
        after,
        StoredJobStatus::Interrupted,
        payload,
        progress,
        record,
    );
}

/// After the state and the progress of a job were updated at once, the record
/// that is read has both.
pub proof fn law_progress_is_read_back(
    before: JobRow,
    after: JobRow,
    status: StoredJobStatus,
    payload: TransferJob,
    old_progress: TransferProgress,
    progress: TransferProgress,
    cbor: Vec<u8>,
    record: JobRecord,
)
    requires
        loaded_job(before, Ok(payload), Ok(old_progress)) == Ok::<JobRecord, StorageError>(record),
        prepared_progress(progress, Ok(cbor)) == Ok::<PreparedProgress, StorageError>(
            after.progress,
        ),
        after.is_moved(
            JobRow { progress: after.progress, ..before },
            status,
            after.payload,
            after.updated_at,
        ),
    ensures
        loaded_job(after, Ok(job_in(record.job, status)), Ok(progress)) == Ok::<
            JobRecord,
            StorageError,
        >(
            JobRecord {
                job: TransferJob { progress, ..job_in(record.job, status) },
                status,
                updated_at: after.updated_at,
                ..record
            },
        ),
{
    crate::records::lemma_job_status_named(status);
}

/// A row of the files of a job.
#[derive(Debug, Clone, PartialEq, Eq)]
pub struct JobFileRow {
    pub job_id: String,
    pub path: String,
    pub size: i64,
    pub status: String,
    pub bytes_transferred: i64,
    pub error: Option<String>,
    pub updated_at: i64,
}

/// Why a record of a file cannot be written.
pub open spec fn file_row_error(file: JobFileRecord) -> Option<StorageError> {
    if file.size > i64::MAX {
        Some(StorageError::IntegerOutOfRange { field: "job_files.size", value: file.size })
    } else if file.bytes_transferred > i64::MAX {
        Some(
            StorageError::IntegerOutOfRange {
                field: "job_files.bytes_transferred",
                value: file.bytes_transferred,
            },
        )
    } else {
        None
    }
}

impl JobFileRow {
    /// The row says what the record says.
    pub open spec fn holds(self, file: JobFileRecord) -> bool {
        &&& self.job_id@ == file.job_id.spec_text()
        &&& self.path == file.path
        &&& self.size == file.size
        &&& self.status@ == file_status_text(file.status)
        &&& self.bytes_transferred == file.bytes_transferred
        &&& self.error == file.error
        &&& self.updated_at == file.updated_at
    }

    pub fn from_record(file: &JobFileRecord) -> (result: Result<Self, StorageError>)
        ensures
            match result {
                Ok(row) => file_row_error(*file) is None && row.holds(*file),
                Err(error) => file_row_error(*file) == Some(error),
            },
    {
        let size: i64 = match sqlite_integer(file.size, "job_files.size") {
            Ok(column) => column,
            Err(error) => return Err(error),
        };
        let bytes_transferred: i64 = match sqlite_integer(
            file.bytes_transferred,
            "job_files.bytes_transferred",
        ) {
            Ok(column) => column,
            Err(error) => return Err(error),
        };
        Ok(
            JobFileRow {
                job_id: file.job_id.to_text(),
                path: file.path.clone(),
                size,
                status: file.status.as_str().to_owned(),
                bytes_transferred,
                error: copy_text(&file.error),
                updated_at: file.updated_at,
            },
        )
    }

    /// The record that a row holds.
    pub open spec fn spec_file(self) -> Result<JobFileRecord, StorageError> {
        match (
            file_status_named(self.status@),
            loaded_identifier(self.job_id, "job_files.job_id"),
            loaded_integer(self.size, "job_files.size"),
            loaded_integer(self.bytes_transferred, "job_files.bytes_transferred"),
        ) {
            (None, _, _, _) => Err(
                StorageError::InvalidData {
                    field: "job_files.status",
                    fault: RowFault::UnknownStatus { text: self.status },
                },
            ),
            (Some(_), Err(error), _, _) => Err(error),
            (Some(_), Ok(_), Err(error), _) => Err(error),
            (Some(_), Ok(_), Ok(_), Err(error)) => Err(error),
            (Some(status), Ok(job_id), Ok(size), Ok(bytes_transferred)) => Ok(
                JobFileRecord {
                    job_id,
                    path: self.path,
                    size,
                    status,
                    bytes_transferred,
                    error: self.error,
                    updated_at: self.updated_at,
                },
            ),
        }
    }

    /// Moves the file to another state and says why.
    pub fn set_status(&mut self, status: JobFileStatus, error: Option<String>, updated_at: i64)
        ensures
            final(self).status@ == file_status_text(status),
            *final(self) == (JobFileRow {
                status: final(self).status,
                error,
                updated_at,
                ..*old(self)
            }),
    {
        self.status = status.as_str().to_owned();
        self.error = error;
        self.updated_at = updated_at;
    }

    /// Counts what has been transferred of the file.
    pub fn set_progress(&mut self, bytes_transferred: u64, updated_at: i64) -> (result: Result<
        (),
        StorageError,
    >)
        ensures
            match stored_integer(bytes_transferred, "job_files.bytes_transferred") {
                Ok(column) => result is Ok && *final(self) == (JobFileRow {
                    bytes_transferred: column,
                    updated_at,
                    ..*old(self)
                }),
                Err(error) => result == Err::<(), StorageError>(error) && *final(self) == *old(
                    self,
                ),
            },
    {
        match sqlite_integer(bytes_transferred, "job_files.bytes_transferred") {
            Ok(column) => {
                self.bytes_transferred = column;
                self.updated_at = updated_at;
                Ok(())
            },
            Err(error) => Err(error),
        }
    }

    /// Marks a file that no runner holds any more, and says whether it did.
    pub fn interrupt(&mut self, updated_at: i64) -> (interrupted: bool)
        ensures
            interrupted == (old(self).status@ == file_status_text(JobFileStatus::Running)),
            !interrupted ==> *final(self) == *old(self),
            interrupted ==> final(self).status@ == file_status_text(JobFileStatus::Interrupted)
                && *final(self) == (JobFileRow {
                status: final(self).status,
                updated_at,
                ..*old(self)
            }),
    {
        if crate::text::is_text(self.status.as_str(), JobFileStatus::Running.as_str()) {
            self.status = JobFileStatus::Interrupted.as_str().to_owned();
            self.updated_at = updated_at;
            true
        } else {
            false
        }
    }
}

/// Reads a row; what was written to it comes back.
pub fn job_file_from_raw(raw: JobFileRow) -> (result: Result<JobFileRecord, StorageError>)
    ensures
        result == raw.spec_file(),
        forall|file: JobFileRecord| #[trigger]
            raw.holds(file) ==> result == Ok::<JobFileRecord, StorageError>(file),
{
    proof {
        assert forall|file: JobFileRecord| #[trigger] raw.holds(file) implies file_status_named(
            raw.status@,
        ) == Some(file.status) by {
            crate::records::law_file_status_roundtrip(file.status);
        }
    }
    let status = match JobFileStatus::from_str(raw.status.as_str()) {
        Some(status) => status,
        None => {
            return Err(
                StorageError::InvalidData {
                    field: "job_files.status",
                    fault: RowFault::UnknownStatus { text: raw.status },
                },
            );
        },
    };
    let job_id = match parse_uuid(&raw.job_id, "job_files.job_id") {
        Ok(id) => id,
        Err(error) => return Err(error),
    };
    let size: u64 = match unsigned_integer(raw.size, "job_files.size") {
        Ok(value) => value,
        Err(error) => return Err(error),
    };
    let bytes_transferred: u64 = match unsigned_integer(
        raw.bytes_transferred,
        "job_files.bytes_transferred",
    ) {
        Ok(value) => value,
        Err(error) => return Err(error),
    };
    Ok(
        JobFileRecord {
            job_id,
            path: raw.path,
            size,
            status,
            bytes_transferred,
            error: raw.error,
            updated_at: raw.updated_at,
        },
    )
}

/// A row of the chunks that have arrived.
#[derive(Debug, Clone, PartialEq, Eq)]
pub struct ChunkRow {
    pub job_id: String,
    pub path: String,
    pub index: i64,
    pub source_hash: Vec<u8>,
    pub completed_at: i64,
}

impl ChunkRow {
    /// The row says what the record says.
    pub open spec fn holds(self, chunk: CompletedChunk) -> bool {
        &&& self.job_id@ == chunk.job_id.spec_text()
        &&& self.path == chunk.path
        &&& self.index == chunk.index
        &&& self.source_hash@ == chunk.source_hash@
        &&& self.completed_at == chunk.completed_at
    }

    pub fn from_record(chunk: &CompletedChunk) -> (result: Result<Self, StorageError>)
        ensures
            match result {
                Ok(row) => row.holds(*chunk),
                Err(error) => chunk.index > i64::MAX && error == (StorageError::IntegerOutOfRange {
                    field: "chunks.chunk_index",
                    value: chunk.index,
                }),
            },
    {
        let index: i64 = match sqlite_integer(chunk.index, "chunks.chunk_index") {
            Ok(column) => column,
            Err(error) => return Err(error),
        };
        Ok(
            ChunkRow {
                job_id: chunk.job_id.to_text(),
                path: chunk.path.clone(),
                index,
                source_hash: slice_to_vec(&chunk.source_hash),
                completed_at: chunk.completed_at,
            },
        )
    }

    /// The row is about the chunk of that index of the file with that digest.
    pub fn matches(&self, index: i64, source_hash: &ContentHash) -> (yes: bool)
        ensures
            yes == (self.index == index && self.source_hash@ == source_hash@),
    {
        self.index == index && crate::text::same_bytes(
            self.source_hash.as_slice(),
            source_hash.as_slice(),
        )
    }
}

/// Reads a row; what was written to it comes back.
pub fn chunk_from_raw(raw: ChunkRow) -> (result: Result<CompletedChunk, StorageError>)
    ensures
        match result {
            Ok(chunk) => parsed(raw.job_id@) == Some(chunk.job_id) && chunk.path == raw.path
                && chunk.index == raw.index && chunk.source_hash@ == raw.source_hash@
                && chunk.completed_at == raw.completed_at,
            Err(error) => if parsed(raw.job_id@) is None {
                loaded_identifier(raw.job_id, "chunks.job_id") == Err::<Uuid, StorageError>(error)
            } else if raw.index < 0 {
                loaded_integer(raw.index, "chunks.chunk_index") == Err::<u64, StorageError>(error)
            } else {
                raw.source_hash@.len() != 32 && error == (StorageError::InvalidData {
                    field: "chunks.source_hash",
                    fault: RowFault::WrongHashLength { length: raw.source_hash.len() },
                })
            },
        },
        forall|chunk: CompletedChunk| #[trigger]
            raw.holds(chunk) ==> result == Ok::<CompletedChunk, StorageError>(chunk),
{
    let job_id = match parse_uuid(&raw.job_id, "chunks.job_id") {
        Ok(id) => id,
        Err(error) => return Err(error),
    };
    let index: u64 = match unsigned_integer(raw.index, "chunks.chunk_index") {
        Ok(value) => value,
        Err(error) => return Err(error),
    };
    let source_hash = match hash_from_blob(raw.source_hash, "chunks.source_hash") {
        Ok(hash) => hash,
        Err(error) => return Err(error),
    };
    proof {
        assert forall|chunk: CompletedChunk| #[trigger] raw.holds(chunk) implies chunk.source_hash
            == source_hash by {
            assert(chunk.source_hash =~= source_hash);
        }
    }
    Ok(
        CompletedChunk {
            job_id,
            path: raw.path,
            index,
            source_hash,
            completed_at: raw.completed_at,
        },
    )
}

/// A row of the hash cache: one for each path.
#[derive(Debug, Clone, PartialEq, Eq)]
pub struct HashCacheRow {
    pub path: String,
    pub size: i64,
    pub mtime_ns: i64,
    pub chunk_size: i64,
    pub full_hash: Vec<u8>,
    pub chunks_cbor: Vec<u8>,
    pub updated_at: i64,
}

/// Why no row can be about a key.
pub open spec fn cache_key_error(key: HashCacheKey) -> Option<StorageError> {
    if key.size > i64::MAX {
        Some(StorageError::IntegerOutOfRange { field: "hash_cache.size", value: key.size })
    } else if key.chunk_size > i64::MAX {
        Some(
            StorageError::IntegerOutOfRange {
                field: "hash_cache.chunk_size",
                value: key.chunk_size,
            },
        )
    } else {
        None
    }
}

impl HashCacheRow {
    /// The row is about exactly that path, size, modification time and chunk size.
    pub open spec fn is_about(self, key: HashCacheKey) -> bool {
        &&& self.path@ == key.path@
        &&& self.size == key.size
        &&& self.mtime_ns == key.mtime_ns
        &&& self.chunk_size == key.chunk_size
    }

    /// The row says what the entry says, with its chunks encoded as `chunks`.
    pub open spec fn holds(self, entry: HashCacheEntry, chunks: Vec<u8>) -> bool {
        &&& self.is_about(entry.key)
        &&& self.full_hash@ == entry.full_hash@
        &&& self.chunks_cbor == chunks
        &&& self.updated_at == entry.updated_at
    }

    /// The row for an entry, given how encoding its chunks went.
    pub fn from_entry(entry: &HashCacheEntry, chunks: Result<Vec<u8>, String>) -> (result: Result<
        Self,
        StorageError,
    >)
        ensures
            match result {
                Ok(row) => chunks is Ok && cache_key_error(entry.key) is None && row.holds(
                    *entry,
                    chunks->Ok_0,
                ),
                Err(error) => match chunks {
                    Err(message) => error == (StorageError::Encode {
                        kind: "hash-cache chunk descriptors",
                        message,
                    }),
                    Ok(_) => cache_key_error(entry.key) == Some(error),
                },
            },
    {
        let chunks_cbor = match chunks {
            Ok(bytes) => bytes,
            Err(message) => {
                return Err(
                    StorageError::Encode { kind: "hash-cache chunk descriptors", message },
                );
            },
        };
        let size: i64 = match sqlite_integer(entry.key.size, "hash_cache.size") {
            Ok(column) => column,
            Err(error) => return Err(error),
        };
        let chunk_size: i64 = match sqlite_integer(entry.key.chunk_size, "hash_cache.chunk_size") {
            Ok(column) => column,
            Err(error) => return Err(error),
        };
        Ok(
            HashCacheRow {
                path: entry.key.path.clone(),
                size,
                mtime_ns: entry.key.mtime_ns,
                chunk_size,
                full_hash: slice_to_vec(&entry.full_hash),
                chunks_cbor,
                updated_at: entry.updated_at,
            },
        )
    }

    /// Whether the row answers for a key.
    pub fn answers(&self, key: &HashCacheKey) -> (result: Result<bool, StorageError>)
        ensures
            match cache_key_error(*key) {
                Some(error) => result == Err::<bool, StorageError>(error),
                None => result == Ok::<bool, StorageError>(self.is_about(*key)),
            },
    {
        let size: i64 = match sqlite_integer(key.size, "hash_cache.size") {
            Ok(column) => column,
            Err(error) => return Err(error),
        };
        let chunk_size: i64 = match sqlite_integer(key.chunk_size, "hash_cache.chunk_size") {
            Ok(column) => column,
            Err(error) => return Err(error),
        };
        Ok(
            self.path == key.path && self.size == size && self.mtime_ns == key.mtime_ns
                && self.chunk_size == chunk_size,
        )
    }
}

/// Reads a row that answers for `key`, given what its chunks decode to.
pub fn hash_cache_from_raw(
    raw: HashCacheRow,
    key: HashCacheKey,
    chunks: Result<Vec<ChunkDescriptor>, String>,
) -> (result: Result<HashCacheEntry, StorageError>)
    ensures
        match result {
            Ok(entry) => raw.full_hash@.len() == 32 && chunks is Ok && entry == (HashCacheEntry {
                key,
                full_hash: entry.full_hash,
                chunks: chunks->Ok_0,
                updated_at: raw.updated_at,
            }) && entry.full_hash@ == raw.full_hash@,
            Err(error) => if raw.full_hash@.len() != 32 {
                error == (StorageError::InvalidData {
                    field: "hash_cache.full_hash",
                    fault: RowFault::WrongHashLength { length: raw.full_hash.len() },
                })
            } else {
                chunks matches Err(message) && error == (StorageError::Decode {
                    kind: "hash-cache chunk descriptors",
                    message,
                })
            },
        },
        forall|entry: HashCacheEntry, blob: Vec<u8>| #[trigger]
            raw.holds(entry, blob) && key == entry.key && chunks == Ok::<
                Vec<ChunkDescriptor>,
                String,
            >(entry.chunks) ==> result == Ok::<HashCacheEntry, StorageError>(entry),
{
    let full_hash = match hash_from_blob(raw.full_hash, "hash_cache.full_hash") {
        Ok(hash) => hash,
        Err(error) => return Err(error),
    };
    let chunks = match chunks {
        Ok(found) => found,
        Err(message) => {
            return Err(StorageError::Decode { kind: "hash-cache chunk descriptors", message });
        },
    };
    proof {
        assert forall|entry: HashCacheEntry, blob: Vec<u8>| #[trigger]
            raw.holds(entry, blob) implies entry.full_hash == full_hash by {
            assert(entry.full_hash =~= full_hash);
        }
    }
    Ok(HashCacheEntry { key, full_hash, chunks, updated_at: raw.updated_at })
}

/// A cached digest answers for a file only while its path, size, modification
/// time and chunk size are exactly those that were hashed.
pub proof fn law_cache_requires_exact_metadata(
    row: HashCacheRow,
    entry: HashCacheEntry,
    chunks: Vec<u8>,
    key: HashCacheKey,
)
    requires
        row.holds(entry, chunks),
    ensures
        row.is_about(key) <==> key.path@ == entry.key.path@ && key.size == entry.key.size
            && key.mtime_ns == entry.key.mtime_ns && key.chunk_size == entry.key.chunk_size,
{
}

/// What was running when the agent went down is what an interruption is stored for: a
/// job that was scanning, transferring or verifying, and no other.
pub proof fn law_what_was_running(status: StoredJobStatus)
    ensures
        is_running(status) <==> !(status is Pending || status is Paused || status is Completed
            || status is CompletedWithErrors || status is Failed || status is Cancelled
            || status is Interrupted),
{
}

/// A device, a peer and a file that were stored are read back as they were, their
/// identifiers being read as they were written.
pub proof fn law_rows_are_read_back(
    device_row: DeviceRow,
    device: DiscoveredDevice,
    peer_row: TrustedPeerRow,
    peer: TrustedPeer,
    file_row: JobFileRow,
    file: JobFileRecord,
)
    requires
        device_row.holds(device),
        parsed(device_row.device_id@) == Some(device.device_id),
        peer_row.holds(peer),
        parsed(peer_row.device_id@) == Some(peer.device_id),
        file_row.holds(file),
        parsed(file_row.job_id@) == Some(file.job_id),
    ensures
        device_row.spec_device() == Ok::<DiscoveredDevice, StorageError>(device),
        peer_row.spec_peer() == Ok::<TrustedPeer, StorageError>(peer),
        file_row.spec_file() == Ok::<JobFileRecord, StorageError>(file),
{
    crate::records::law_file_status_roundtrip(file.status);
}

/// A job that was stored is read back as it was: its identifier being read as it was
/// written, and its job and progress being decoded as they were encoded.
pub proof fn law_jobs_are_read_back(
    row: JobRow,
    record: JobRecord,
    payload: Vec<u8>,
    progress: Vec<u8>,
)
    requires
        row.holds(record, payload, progress),
        parsed(row.id@) == Some(record.job.id),
    ensures
        loaded_job(row, Ok(record.job), Ok(record.job.progress)) == Ok::<JobRecord, StorageError>(
            record,
        ),
{
    crate::records::law_job_status_roundtrip(record.status, record.job.status);
}

/// A job is not stored in a state that is not its own, nor with counts that no column
/// holds; any other job is stored, if it could be encoded.
pub proof fn law_what_jobs_are_stored(record: JobRecord, payload: Vec<u8>, progress: Vec<u8>)
    ensures
        job_row_error(record, Ok(payload), Ok(progress)) is None <==> {
            let counts = record.job.progress;
            &&& record.status is Interrupted || crate::records::stored_status_of(record.job.status)
                == record.status
            &&& counts.transferred_bytes <= i64::MAX && counts.total_bytes <= i64::MAX
            &&& counts.completed_files <= i64::MAX && counts.total_files <= i64::MAX
        },
{
    crate::records::law_job_status_roundtrip(record.status, record.job.status);
}

/// The columns of a row agree with the progress that was decoded from it in all four
/// counts, or the row is not read.
pub proof fn law_columns_agree_with_progress(columns: PreparedProgress, progress: TransferProgress)
    ensures
        column_fault(columns, progress) is None <==> columns.bytes_transferred
            == progress.transferred_bytes && columns.total_bytes == progress.total_bytes
            && columns.files_completed == progress.completed_files && columns.total_files
            == progress.total_files,
{
}

/// A file is stored exactly if a column holds its size and what was transferred of it;
/// a cached digest, if one holds its size and its chunk size.
pub proof fn law_what_counts_are_stored(file: JobFileRecord, key: HashCacheKey)
    ensures
        file_row_error(file) is None <==> file.size <= i64::MAX && file.bytes_transferred
            <= i64::MAX,
        cache_key_error(key) is None <==> key.size <= i64::MAX && key.chunk_size <= i64::MAX,
{
}

/// Each column holds what it is named after.
pub proof fn law_columns_hold_what_they_are_named_after(
    device_row: DeviceRow,
    device: DiscoveredDevice,
    peer_row: TrustedPeerRow,
    peer: TrustedPeer,
    file_row: JobFileRow,
    file: JobFileRecord,
    chunk_row: ChunkRow,
    chunk: CompletedChunk,
)
    requires
        device_row.holds(device),
        peer_row.holds(peer),
        file_row.holds(file),
        chunk_row.holds(chunk),
    ensures
        device_row.name == device.name && device_row.address == device.address,
        device_row.public_key == device.public_key,
        device_row.first_seen == device.first_seen && device_row.last_seen == device.last_seen,
        peer_row.name == peer.name && peer_row.address == peer.address,
        peer_row.public_key == peer.public_key,
        peer_row.trusted_at == peer.trusted_at && peer_row.last_seen == peer.last_seen,
        file_row.path == file.path && file_row.size == file.size,
        file_row.bytes_transferred == file.bytes_transferred,
        file_row.error == file.error && file_row.updated_at == file.updated_at,
        chunk_row.path == chunk.path && chunk_row.index == chunk.index,
        chunk_row.source_hash@ == chunk.source_hash@,
        chunk_row.completed_at == chunk.completed_at,
{
}

} // verus!
