//! Requests of the local control interface: what they ask for, what is wrong
//! with them and how they are answered.

use crate::error::{StorageError, TransferError};
use crate::ids::{parsed, Uuid};
use crate::jobs::{ControlConflict, ManagerError};
use crate::metadata::NodeKind;
use crate::model::{
    TransferConfig, TransferJob, TransferProgress, VerificationMode, DEFAULT_CHUNK_SIZE,
};
use crate::path::{is_absolute_somewhere, is_receiver_absolute_path};
use crate::protocol::{Endpoint, IpAddress};
use crate::records::{JobFileRecord, JobFileStatus, JobRecord, StoredJobStatus, TrustedPeer};
use crate::text::{
    ascii_uppercase, same_chars, to_chars, to_decimal, trim, unicode_trim, upper_chars, view_of,
};
use vstd::prelude::*;

verus! {

pub const MIN_CHUNK_SIZE: u64 = 1024 * 1024;

pub const MAX_CHUNK_SIZE: u64 = 1024 * 1024 * 1024;

pub const MAX_CONCURRENCY: u32 = 64;

pub const MAX_RETRY_LIMIT: u32 = 20;

/// How long a probe may take, in milliseconds.
pub const PROBE_TIMEOUT: u64 = 5_000;

pub const DEFAULT_QUIC_PORT: u16 = 39_463;

/// What is wrong with a request, or with answering it.
#[derive(Debug, Clone, PartialEq, Eq)]
pub enum ApiFault {
    InvalidJson(String),
    InvalidId { kind: &'static str, text: String },
    SourceNotAbsolute,
    SourceUnreadable { path: String, reason: String },
    SourceNotDirectory,
    DestinationNotAbsolute,
    PeerNotTrusted { peer_id: Uuid },
    PeerAddressInvalid { address: String, reason: String },
    SeveralChunkSizes,
    ChunkSizeTooLarge,
    ChunkSizeOutOfRange,
    ConcurrencyOutOfRange,
    RetryLimitOutOfRange,
    AddressEmpty,
    AddressUnresolvable { address: String, reason: String },
    AddressWithoutEndpoints { address: String },
    RouteNotFound,
    JobNotFound { job_id: Uuid },
    DeviceNotFound { device_id: Uuid },
    TrustedDeviceNotFound { device_id: Uuid },
    PinnedKeyInvalid { device_id: Uuid },
    DeviceAddressInvalid { device_id: Uuid, address: String, reason: String },
    ProbeRejected { device_id: Uuid, error: TransferError },
    NeverProbed { device_id: Uuid, error: TransferError },
    ProbeTimedOut { device_id: Uuid },
    KeyUnderivedId { device_id: Uuid },
    EndpointProbeFailed { address: String, reason: String },
    EndpointProbeTimedOut { address: String },
    Conflict(ControlConflict),
    ShuttingDown,
    Storage(StorageError),
    JobVanished,
    DeviceNotPersisted,
}

impl ApiFault {
    /// The HTTP status that tells of a fault.
    pub open spec fn spec_status(self) -> u16 {
        match self {
            ApiFault::RouteNotFound
            | ApiFault::JobNotFound { .. }
            | ApiFault::DeviceNotFound { .. }
            | ApiFault::TrustedDeviceNotFound { .. } => 404,
            ApiFault::PeerNotTrusted { .. }
            | ApiFault::PeerAddressInvalid { .. }
            | ApiFault::PinnedKeyInvalid { .. }
            | ApiFault::DeviceAddressInvalid { .. }
            | ApiFault::KeyUnderivedId { .. }
            | ApiFault::Conflict(_) => 409,
            ApiFault::Storage(_) | ApiFault::JobVanished | ApiFault::DeviceNotPersisted => 500,
            ApiFault::ProbeRejected { .. }
            | ApiFault::NeverProbed { .. }
            | ApiFault::EndpointProbeFailed { .. } => 502,
            ApiFault::ShuttingDown => 503,
            ApiFault::ProbeTimedOut { .. } | ApiFault::EndpointProbeTimedOut { .. } => 504,
            _ => 400,
        }
    }

    /// The HTTP status that tells of a fault.
    pub fn status(&self) -> (status: u16)
        ensures
            status == self.spec_status(),
    {
        match self {
            ApiFault::RouteNotFound
            | ApiFault::JobNotFound { .. }
            | ApiFault::DeviceNotFound { .. }
            | ApiFault::TrustedDeviceNotFound { .. } => 404,
            ApiFault::PeerNotTrusted { .. }
            | ApiFault::PeerAddressInvalid { .. }
            | ApiFault::PinnedKeyInvalid { .. }
            | ApiFault::DeviceAddressInvalid { .. }
            | ApiFault::KeyUnderivedId { .. }
            | ApiFault::Conflict(_) => 409,
            ApiFault::Storage(_) | ApiFault::JobVanished | ApiFault::DeviceNotPersisted => 500,
            ApiFault::ProbeRejected { .. }
            | ApiFault::NeverProbed { .. }
            | ApiFault::EndpointProbeFailed { .. } => 502,
            ApiFault::ShuttingDown => 503,
            ApiFault::ProbeTimedOut { .. } | ApiFault::EndpointProbeTimedOut { .. } => 504,
            _ => 400,
        }
    }

    /// The word that tells of a fault: one for each status.
    pub fn code(&self) -> (code: &'static str)
        ensures
            code@ == match self.spec_status() {
                400u16 => "bad_request"@,
                404u16 => "not_found"@,
                409u16 => "conflict"@,
                502u16 => "peer_unreachable"@,
                503u16 => "shutting_down"@,
                504u16 => "peer_timeout"@,
                _ => "internal_error"@,
            },
    {
        match self.status() {
            400 => "bad_request",
            404 => "not_found",
            409 => "conflict",
            502 => "peer_unreachable",
            503 => "shutting_down",
            504 => "peer_timeout",
            _ => "internal_error",
        }
    }

    /// How a failure to control a job is answered.
    pub fn from_manager(error: ManagerError) -> (fault: Self)
        ensures
            fault == match error {
                ManagerError::NotFound(job_id) => ApiFault::JobNotFound { job_id },
                ManagerError::Conflict(conflict) => ApiFault::Conflict(conflict),
                ManagerError::ShuttingDown => ApiFault::ShuttingDown,
                ManagerError::Storage(error) => ApiFault::Storage(error),
            },
    {
        match error {
            ManagerError::NotFound(job_id) => ApiFault::JobNotFound { job_id },
            ManagerError::Conflict(conflict) => ApiFault::Conflict(conflict),
            ManagerError::ShuttingDown => ApiFault::ShuttingDown,
            ManagerError::Storage(error) => ApiFault::Storage(error),
        }
    }
}

/// Reads the identifier in a route.
pub fn parse_uuid(value: String, kind: &'static str) -> (result: Result<Uuid, ApiFault>)
    ensures
        result == match parsed(value@) {
            Some(id) => Ok(id),
            None => Err(ApiFault::InvalidId { kind, text: value }),
        },
        forall|id: Uuid| value@ == #[trigger] id.spec_text() ==> result == Ok::<Uuid, ApiFault>(id),
{
    match Uuid::parse(value.as_str()) {
        Some(id) => Ok(id),
        None => Err(ApiFault::InvalidId { kind, text: value }),
    }
}

/// A request for a new job.
#[derive(Debug, Clone, PartialEq, Eq)]
pub struct CreateJobRequest {
    pub peer_id: Uuid,
    pub source_path: String,
    pub destination_path: String,
    pub verification: Option<VerificationMode>,
    pub chunk_size: Option<u64>,
    pub chunk_size_bytes: Option<u64>,
    pub chunk_size_mib: Option<u64>,
    pub concurrency: Option<u32>,
    pub retry_limit: Option<u32>,
}

/// How many of three values were given.
pub open spec fn given(a: Option<u64>, b: Option<u64>, c: Option<u64>) -> int {
    (if a is Some { 1int } else { 0 }) + (if b is Some { 1int } else { 0 }) + (if c is Some {
        1int
    } else {
        0
    })
}

/// The bytes of a chunk that a request asks for: given in bytes or in MiB, but
/// only once, or the default.
pub open spec fn requested_chunk_size(request: CreateJobRequest) -> int {
    match (request.chunk_size_mib, request.chunk_size_bytes, request.chunk_size) {
        (Some(mib), _, _) => mib * (1024 * 1024),
        (None, Some(bytes), _) => bytes as int,
        (None, None, Some(bytes)) => bytes as int,
        (None, None, None) => DEFAULT_CHUNK_SIZE as int,
    }
}

/// What a request's chunk size comes to.
pub open spec fn chunk_size_outcome(request: CreateJobRequest) -> Result<u64, ApiFault> {
    let size = requested_chunk_size(request);
    if given(request.chunk_size, request.chunk_size_bytes, request.chunk_size_mib) > 1 {
        Err(ApiFault::SeveralChunkSizes)
    } else if size > u64::MAX {
        Err(ApiFault::ChunkSizeTooLarge)
    } else if MIN_CHUNK_SIZE <= size <= MAX_CHUNK_SIZE {
        Ok(size as u64)
    } else {
        Err(ApiFault::ChunkSizeOutOfRange)
    }
}

/// The chunk size of a request, held to its bounds.
pub fn resolve_chunk_size(request: &CreateJobRequest) -> (result: Result<u64, ApiFault>)
    ensures
        result == chunk_size_outcome(*request),
{
    let mut supplied: u32 = 0;
    if request.chunk_size.is_some() {
        supplied += 1;
    }
    if request.chunk_size_bytes.is_some() {
        supplied += 1;
    }
    if request.chunk_size_mib.is_some() {
        supplied += 1;
    }
    if supplied > 1 {
        return Err(ApiFault::SeveralChunkSizes);
    }
    let chunk_size: u64 = match request.chunk_size_mib {
        Some(mib) => match mib.checked_mul(1024 * 1024) {
            Some(bytes) => bytes,
            None => return Err(ApiFault::ChunkSizeTooLarge),
        },
        None => match request.chunk_size_bytes {
            Some(bytes) => bytes,
            None => match request.chunk_size {
                Some(bytes) => bytes,
                None => DEFAULT_CHUNK_SIZE,
            },
        },
    };
    if MIN_CHUNK_SIZE <= chunk_size && chunk_size <= MAX_CHUNK_SIZE {
        Ok(chunk_size)
    } else {
        Err(ApiFault::ChunkSizeOutOfRange)
    }
}

/// What was found out about a request for a new job.
#[derive(Debug)]
pub struct JobReadings {
    /// The trimmed source path is absolute here.
    pub source_is_absolute: bool,
    /// What is at the source path.
    pub source: Result<NodeKind, String>,
    /// The pin of the peer.
    pub trusted: Result<Option<TrustedPeer>, StorageError>,
    /// Whether the address of the peer can be read.
    pub address: Result<(), String>,
}

/// The concurrency of a request.
pub open spec fn requested_concurrency(request: CreateJobRequest) -> u32 {
    match request.concurrency {
        Some(value) => value,
        None => 32,
    }
}

/// The retry limit of a request.
pub open spec fn requested_retry_limit(request: CreateJobRequest) -> u32 {
    match request.retry_limit {
        Some(value) => value,
        None => 6,
    }
}

/// The fault is the first thing that is wrong with a request for a new job.
pub open spec fn is_creation_fault(
    fault: ApiFault,
    request: CreateJobRequest,
    readings: JobReadings,
) -> bool {
    if !readings.source_is_absolute {
        fault == ApiFault::SourceNotAbsolute
    } else if readings.source is Err {
        fault matches ApiFault::SourceUnreadable { path, reason } && path@ == unicode_trim(
            request.source_path@,
        ) && Err::<NodeKind, String>(reason) == readings.source
    } else if readings.source != Ok::<NodeKind, String>(NodeKind::Directory) {
        fault == ApiFault::SourceNotDirectory
    } else if !is_absolute_somewhere(unicode_trim(request.destination_path@)) {
        fault == ApiFault::DestinationNotAbsolute
    } else {
        match readings.trusted {
            Err(error) => fault == ApiFault::Storage(error),
            Ok(None) => fault == (ApiFault::PeerNotTrusted { peer_id: request.peer_id }),
            Ok(Some(peer)) => match readings.address {
                Err(reason) => fault == (ApiFault::PeerAddressInvalid {
                    address: peer.address,
                    reason,
                }),
                Ok(_) => match chunk_size_outcome(request) {
                    Err(error) => fault == error,
                    Ok(_) => if !(1 <= requested_concurrency(request) <= MAX_CONCURRENCY) {
                        fault == ApiFault::ConcurrencyOutOfRange
                    } else {
                        requested_retry_limit(request) > MAX_RETRY_LIMIT && fault
                            == ApiFault::RetryLimitOutOfRange
                    },
                },
            },
        }
    }
}

/// A request for a new job is in order.
pub open spec fn may_create(request: CreateJobRequest, readings: JobReadings) -> bool {
    &&& readings.source_is_absolute
    &&& readings.source == Ok::<NodeKind, String>(NodeKind::Directory)
    &&& is_absolute_somewhere(unicode_trim(request.destination_path@))
    &&& readings.trusted is Ok
    &&& readings.trusted->Ok_0 is Some
    &&& readings.address is Ok
    &&& chunk_size_outcome(request) is Ok
    &&& 1 <= requested_concurrency(request) <= MAX_CONCURRENCY
    &&& requested_retry_limit(request) <= MAX_RETRY_LIMIT
}

/// The job that a request asks for, under a new identifier.
pub fn create_job(request: &CreateJobRequest, readings: JobReadings) -> (result: Result<
    TransferJob,
    ApiFault,
>)
    ensures
        match result {
            Ok(job) => {
                &&& may_create(*request, readings)
                &&& crate::ids::is_random(job.id)
                &&& job.peer_id == Some(request.peer_id)
                &&& (TransferJob { peer_id: None, ..job }).is_fresh(
                    unicode_trim(request.source_path@),
                    unicode_trim(request.destination_path@),
                    TransferConfig {
                        verification_mode: match request.verification {
                            Some(mode) => mode,
                            None => VerificationMode::Verified,
                        },
                        chunk_size: requested_chunk_size(*request) as u64,
                        concurrency: requested_concurrency(*request),
                        retry_limit: requested_retry_limit(*request),
                    },
                )
            },
            Err(fault) => !may_create(*request, readings) && is_creation_fault(
                fault,
                *request,
                readings,
            ),
        },
{
    let source = trim(request.source_path.as_str());
    if !readings.source_is_absolute {
        return Err(ApiFault::SourceNotAbsolute);
    }
    match readings.source {
        Err(reason) => return Err(ApiFault::SourceUnreadable { path: source, reason }),
        Ok(kind) => {
            if kind != NodeKind::Directory {
                return Err(ApiFault::SourceNotDirectory);
            }
        },
    }
    let destination = trim(request.destination_path.as_str());
    if !is_receiver_absolute_path(destination.as_str()) {
        return Err(ApiFault::DestinationNotAbsolute);
    }
    let trusted = match readings.trusted {
        Err(error) => return Err(ApiFault::Storage(error)),
        Ok(None) => return Err(ApiFault::PeerNotTrusted { peer_id: request.peer_id }),
        Ok(Some(peer)) => peer,
    };
    match readings.address {
        Err(reason) => {
            return Err(ApiFault::PeerAddressInvalid { address: trusted.address, reason });
        },
        Ok(_) => {},
    }
    let chunk_size: u64 = match resolve_chunk_size(request) {
        Ok(size) => size,
        Err(fault) => return Err(fault),
    };
    let concurrency: u32 = match request.concurrency {
        Some(value) => value,
        None => 32,
    };
    if concurrency < 1 || concurrency > MAX_CONCURRENCY {
        return Err(ApiFault::ConcurrencyOutOfRange);
    }
    let retry_limit: u32 = match request.retry_limit {
        Some(value) => value,
        None => 6,
    };
    if retry_limit > MAX_RETRY_LIMIT {
        return Err(ApiFault::RetryLimitOutOfRange);
    }
    let verification_mode = match request.verification {
        Some(mode) => mode,
        None => VerificationMode::Verified,
    };
    let config = TransferConfig { verification_mode, chunk_size, concurrency, retry_limit };
    let mut job = TransferJob::new(source.as_str(), destination.as_str(), config);
    job.peer_id = Some(request.peer_id);
    Ok(job)
}

/// A job that was asked for keeps the bounds of the transfer engine.
pub proof fn law_created_jobs_are_bounded(request: CreateJobRequest, readings: JobReadings)
    requires
        may_create(request, readings),
    ensures
        MIN_CHUNK_SIZE <= requested_chunk_size(request) <= MAX_CHUNK_SIZE,
        1 <= requested_concurrency(request) <= MAX_CONCURRENCY,
        requested_retry_limit(request) <= MAX_RETRY_LIMIT,
{
}

/// What the `Origin` header of a request says.
#[derive(Debug, Clone, PartialEq, Eq)]
pub enum Origin {
    Missing,
    /// Not a URI with an authority.
    Unreadable,
    Authority(String),
}

/// A request from an origin may be served by a host.
pub open spec fn is_allowed_origin(origin: Origin, host: Option<&str>) -> bool {
    match (origin, host) {
        (Origin::Missing, _) => true,
        (Origin::Authority(authority), Some(name)) => ascii_uppercase(authority@)
            == ascii_uppercase(name@),
        _ => false,
    }
}

/// Whether a request may be served: one without an origin, or one whose origin
/// is the host that it is sent to, but for the case of ASCII letters.
pub fn allows_origin(origin: &Origin, host: Option<&str>) -> (allowed: bool)
    ensures
        allowed == is_allowed_origin(*origin, host),
{
    match (origin, host) {
        (Origin::Missing, _) => true,
        (Origin::Authority(authority), Some(name)) => {
            let a = upper_chars(&to_chars(authority.as_str()));
            let b = upper_chars(&to_chars(name));
            same_chars(&a, &b)
        },
        _ => false,
    }
}

/// The authority of the URI that a text spells, if it spells one that has any.
pub uninterp spec fn uri_authority(text: Seq<char>) -> Option<Seq<char>>;

/// `axum::http::Uri::from_str` and `authority`: the authority of the URI that the
/// text spells, or nothing where it spells none or one without an authority.
#[verifier::external_body]
fn parse_authority(text: &str) -> (authority: Option<String>)
    ensures
        view_of(authority) == uri_authority(text@),
{
    let uri = text.parse::<axum::http::Uri>().ok()?;
    uri.authority().map(|authority| authority.as_str().to_owned())
}

/// A request with these headers may be served.
pub open spec fn is_allowed_text(origin: Option<&str>, host: Option<&str>) -> bool {
    match (origin, host) {
        (None, _) => true,
        (Some(text), Some(name)) => (uri_authority(text@) matches Some(authority)
            && ascii_uppercase(authority) == ascii_uppercase(name@)),
        (Some(_), None) => false,
    }
}

/// Whether a request may be served, given its `Origin` and `Host` headers as they
/// were sent.
pub fn allows_origin_text(origin: Option<&str>, host: Option<&str>) -> (allowed: bool)
    ensures
        allowed == is_allowed_text(origin, host),
{
    let origin = match origin {
        None => Origin::Missing,
        Some(text) => match parse_authority(text) {
            Some(authority) => Origin::Authority(authority),
            None => Origin::Unreadable,
        },
    };
    allows_origin(&origin, host)
}

/// What an address is taken for.
#[derive(Debug, Clone, Copy, PartialEq, Eq, Structural)]
pub enum AddressForm {
    /// An endpoint as it is.
    Endpoint,
    /// A host, at this port.
    Host { port: u16 },
    /// A name to look up.
    Name,
}

/// What an address is taken for, given whether it spells an endpoint and whether
/// it spells the address of a host.
pub fn address_form(spells_endpoint: bool, spells_host: bool) -> (form: AddressForm)
    ensures
        form == if spells_endpoint {
            AddressForm::Endpoint
        } else if spells_host {
            AddressForm::Host { port: DEFAULT_QUIC_PORT }
        } else {
            AddressForm::Name
        },
{
    if spells_endpoint {
        AddressForm::Endpoint
    } else if spells_host {
        AddressForm::Host { port: DEFAULT_QUIC_PORT }
    } else {
        AddressForm::Name
    }
}

/// The name to look up for an address that is not one already, as it is or with
/// the default port.
pub open spec fn lookup_name(value: Seq<char>) -> Seq<char> {
    if value.contains(':') {
        value
    } else {
        value.push(':') + crate::text::decimal(DEFAULT_QUIC_PORT as nat)
    }
}

/// The address that a request gives, without white space around it, and the name
/// to look up for it.
pub fn resolve_peer_address(raw: &str) -> (result: Result<(String, String), ApiFault>)
    ensures
        match result {
            Ok(found) => {
                &&& unicode_trim(raw@).len() > 0
                &&& found.0@ == unicode_trim(raw@)
                &&& found.1@ == lookup_name(unicode_trim(raw@))
            },
            Err(fault) => unicode_trim(raw@).len() == 0 && fault == ApiFault::AddressEmpty,
        },
{
    let value = trim(raw);
    if value.as_str().is_empty() {
        return Err(ApiFault::AddressEmpty);
    }
    let chars = to_chars(value.as_str());
    let mut target = value.clone();
    if !crate::text::contains_char(&chars, ':') {
        target.push(':');
        let port = to_decimal(DEFAULT_QUIC_PORT as u64);
        target.append(port.as_str());
    }
    Ok((value, target))
}

/// An endpoint of the fourth version of the protocol.
pub open spec fn is_ipv4(endpoint: Endpoint) -> bool {
    endpoint.ip is V4
}

/// The position of the endpoint to connect to among those that a name stands for:
/// the first of the fourth version, else the first. What else the resolver says of
/// an endpoint, such as its scope, stays with the caller.
pub fn choose_endpoint(address: String, resolved: &[Endpoint]) -> (result: Result<
    usize,
    ApiFault,
>)
    ensures
        match result {
            Ok(position) => {
                &&& position < resolved@.len()
                &&& is_ipv4(resolved@[position as int]) ==> forall|k: int|
                    0 <= k < position ==> !is_ipv4(#[trigger] resolved@[k])
                &&& !is_ipv4(resolved@[position as int]) ==> position == 0 && forall|k: int|
                    0 <= k < resolved@.len() ==> !is_ipv4(#[trigger] resolved@[k])
            },
            Err(fault) => resolved@.len() == 0 && fault == (ApiFault::AddressWithoutEndpoints {
                address,
            }),
        },
{
    let mut i: usize = 0;
    while i < resolved.len()
        invariant
            i <= resolved.len(),
            forall|k: int| 0 <= k < i ==> !is_ipv4(#[trigger] resolved@[k]),
        decreases resolved.len() - i,
    {
        if matches!(resolved[i].ip, IpAddress::V4(_)) {
            return Ok(i);
        }
        i += 1;
    }
    if resolved.len() > 0 {
        Ok(0)
    } else {
        Err(ApiFault::AddressWithoutEndpoints { address })
    }
}

#[derive(Debug, Clone, Copy, PartialEq, Eq, Structural)]
pub struct PipelineView {
    pub active_file_streams: u32,
    pub active_chunk_streams: u32,
    pub queued_chunks: u64,
    pub current_concurrency: u32,
    pub configured_concurrency: u32,
}

#[derive(Debug, Clone, PartialEq, Eq)]
pub struct FileErrorView {
    pub path: String,
    pub status: JobFileStatus,
    pub message: String,
}

/// The files that have an error, in their order.
pub open spec fn failed_files(files: Seq<JobFileRecord>) -> Seq<FileErrorView>
    decreases files.len(),
{
    if files.len() == 0 {
        Seq::<FileErrorView>::empty()
    } else {
        let rest = failed_files(files.drop_last());
        let file = files.last();
        match file.error {
            Some(message) => rest.push(
                FileErrorView { path: file.path, status: file.status, message },
            ),
            None => rest,
        }
    }
}

/// The files that have an error, with it.
pub fn file_errors(files: &[JobFileRecord]) -> (errors: Vec<FileErrorView>)
    ensures
        errors@ == failed_files(files@),
{
    let mut errors: Vec<FileErrorView> = Vec::new();
    let mut i: usize = 0;
    assert(files@.take(0) =~= Seq::<JobFileRecord>::empty());
    while i < files.len()
        invariant
            i <= files.len(),
            errors@ == failed_files(files@.take(i as int)),
        decreases files.len() - i,
    {
        assert(files@.take(i + 1).drop_last() =~= files@.take(i as int));
        match &files[i].error {
            Some(message) => {
                errors.push(
                    FileErrorView {
                        path: files[i].path.clone(),
                        status: files[i].status,
                        message: message.clone(),
                    },
                );
            },
            None => {},
        }
        i += 1;
    }
    assert(files@.take(i as int) =~= files@);
    errors
}

/// Where the data of a job goes.
#[derive(Debug, Clone, Copy, PartialEq, Eq, Structural)]
pub enum Direction {
    Incoming,
    Outgoing,
}

/// What is shown of a job, but for the rates that are derived from it.
#[derive(Debug, Clone, PartialEq, Eq)]
pub struct JobSummary {
    pub direction: Direction,
    pub progress: TransferProgress,
    /// Transferred and reused, but never more than the total.
    pub accounted_bytes: u64,
    pub remaining_bytes: u64,
    pub completed: bool,
    /// A measured throughput is shown only while the job is at work.
    pub shows_throughput: bool,
    pub pipeline: PipelineView,
    pub file_errors: Vec<FileErrorView>,
}

/// The bytes that a progress accounts for.
pub open spec fn accounted(progress: TransferProgress) -> int {
    let sum = progress.transferred_bytes + progress.reused_bytes;
    if sum <= progress.total_bytes {
        sum
    } else {
        progress.total_bytes as int
    }
}

/// Sums up a job for those who watch it. `live` is the progress that its runner
/// last told, if it has one.
pub fn job_view(
    record: &JobRecord,
    live: Option<TransferProgress>,
    files: &[JobFileRecord],
) -> (summary: JobSummary)
    ensures
        summary.progress == match live {
            Some(progress) => progress,
            None => record.job.progress,
        },
        summary.direction == if record.job.spec_incoming() {
            Direction::Incoming
        } else {
            Direction::Outgoing
        },
        summary.accounted_bytes == accounted(summary.progress),
        summary.remaining_bytes == summary.progress.total_bytes - summary.accounted_bytes,
        summary.completed == (record.status == StoredJobStatus::Completed || record.status
            == StoredJobStatus::CompletedWithErrors),
        summary.shows_throughput == (live is Some && crate::rows::is_running(record.status)),
        summary.pipeline == (PipelineView {
            active_file_streams: summary.progress.active_file_streams,
            active_chunk_streams: summary.progress.active_chunk_streams,
            queued_chunks: summary.progress.queued_chunks,
            current_concurrency: summary.progress.current_concurrency,
            configured_concurrency: record.job.config.concurrency,
        }),
        summary.file_errors@ == failed_files(files@),
{
    let is_live = live.is_some();
    let progress = match live {
        Some(progress) => progress,
        None => record.job.progress.duplicate(),
    };
    let sum: u64 = progress.transferred_bytes.saturating_add(progress.reused_bytes);
    let accounted_bytes: u64 = if sum <= progress.total_bytes {
        sum
    } else {
        progress.total_bytes
    };
    let pipeline = PipelineView {
        active_file_streams: progress.active_file_streams,
        active_chunk_streams: progress.active_chunk_streams,
        queued_chunks: progress.queued_chunks,
        current_concurrency: progress.current_concurrency,
        configured_concurrency: record.job.config.concurrency,
    };
    let remaining_bytes: u64 = progress.total_bytes - accounted_bytes;
    JobSummary {
        direction: if record.job.is_incoming() {
            Direction::Incoming
        } else {
            Direction::Outgoing
        },
        progress,
        accounted_bytes,
        remaining_bytes,
        completed: matches!(
            record.status,
            StoredJobStatus::Completed | StoredJobStatus::CompletedWithErrors
        ),
        shows_throughput: is_live && matches!(
            record.status,
            StoredJobStatus::Scanning | StoredJobStatus::Transferring | StoredJobStatus::Verifying
        ),
        pipeline,
        file_errors: file_errors(files),
    }
}

/// A job never accounts for more than all of its bytes.
pub proof fn law_progress_stays_within_the_total(progress: TransferProgress)
    ensures
        0 <= accounted(progress) <= progress.total_bytes,
{
}

/// What happens on the socket of a watcher.
#[derive(Debug, Clone, Copy, PartialEq, Eq, Structural)]
pub enum SocketEvent {
    ShuttingDown,
    /// There is an event to tell, and it can be written down or not.
    Event { encoded: bool },
    /// The watcher was too slow, and events were dropped.
    Lagged,
    /// No events will come any more.
    Closed,
    Ping,
    Message,
    /// The watcher has closed, or is gone.
    Gone,
}

#[derive(Debug, Clone, Copy, PartialEq, Eq, Structural)]
pub enum SocketAction {
    SendEvent,
    /// Tell the watcher to read everything anew.
    SendResync,
    Pong,
    Nothing,
    /// Close the socket, then end.
    Close,
    End,
}

/// What to do about it.
pub fn event_socket(event: SocketEvent) -> (action: SocketAction)
    ensures
        action == match event {
            SocketEvent::ShuttingDown => SocketAction::Close,
            SocketEvent::Event { encoded } => if encoded {
                SocketAction::SendEvent
            } else {
                SocketAction::Nothing
            },
            SocketEvent::Lagged => SocketAction::SendResync,
            SocketEvent::Closed | SocketEvent::Gone => SocketAction::End,
            SocketEvent::Ping => SocketAction::Pong,
            SocketEvent::Message => SocketAction::Nothing,
        },
{
    match event {
        SocketEvent::ShuttingDown => SocketAction::Close,
        SocketEvent::Event { encoded } => {
            if encoded {
                SocketAction::SendEvent
            } else {
                SocketAction::Nothing
            }
        },
        SocketEvent::Lagged => SocketAction::SendResync,
        SocketEvent::Closed | SocketEvent::Gone => SocketAction::End,
        SocketEvent::Ping => SocketAction::Pong,
        SocketEvent::Message => SocketAction::Nothing,
    }
}

/// What chunk size a request gets: the one that it names in bytes or in mebibytes, or
/// the usual one where it names none; more than one is refused, and so is one below a
/// mebibyte or above a gibibyte.
pub proof fn law_which_chunk_size_is_taken(request: CreateJobRequest, size: u64)
    ensures
        ({
            let nothing = CreateJobRequest {
                chunk_size: None,
                chunk_size_bytes: None,
                chunk_size_mib: None,
                ..request
            };
            let plain = CreateJobRequest { chunk_size: Some(size), ..nothing };
            let bytes = CreateJobRequest { chunk_size_bytes: Some(size), ..nothing };
            let mebibytes = CreateJobRequest { chunk_size_mib: Some(size), ..nothing };
            let usable = 1_048_576 <= size <= 1_073_741_824;
            &&& chunk_size_outcome(plain) == chunk_size_outcome(bytes)
            &&& usable ==> chunk_size_outcome(bytes) == Ok::<u64, ApiFault>(size)
            &&& !usable ==> chunk_size_outcome(bytes) == Err::<u64, ApiFault>(
                ApiFault::ChunkSizeOutOfRange,
            )
            &&& 1 <= size <= 1024 ==> chunk_size_outcome(mebibytes) == Ok::<u64, ApiFault>(
                (size * 1_048_576) as u64,
            )
            &&& !(1 <= size <= 1024) ==> chunk_size_outcome(mebibytes) is Err
            &&& chunk_size_outcome(nothing) == Ok::<u64, ApiFault>(DEFAULT_CHUNK_SIZE)
        }),
        request.chunk_size is Some && request.chunk_size_bytes is Some || request.chunk_size is Some
            && request.chunk_size_mib is Some || request.chunk_size_bytes is Some
            && request.chunk_size_mib is Some ==> chunk_size_outcome(request) == Err::<
            u64,
            ApiFault,
        >(ApiFault::SeveralChunkSizes),
{
}

/// What a job needs to be created: an absolute source that is a directory, a destination
/// that is absolute somewhere, a trusted peer with a readable address, and settings
/// within their bounds.
pub proof fn law_what_may_be_created(request: CreateJobRequest, readings: JobReadings)
    ensures
        may_create(request, readings) <==> {
            &&& readings.source_is_absolute
            &&& readings.source is Ok && readings.source->Ok_0 is Directory
            &&& is_absolute_somewhere(unicode_trim(request.destination_path@))
            &&& readings.trusted is Ok && readings.trusted->Ok_0 is Some
            &&& readings.address is Ok
            &&& chunk_size_outcome(request) is Ok
            &&& request.concurrency matches Some(value) ==> 1 <= value <= 64
            &&& request.retry_limit matches Some(value) ==> value <= 20
        },
{
}

/// A request is refused for exactly one reason where it cannot be granted, and for none
/// where it can.
pub proof fn law_refusals_and_grants_exclude_each_other(
    fault: ApiFault,
    other: ApiFault,
    request: CreateJobRequest,
    readings: JobReadings,
)
    requires
        is_creation_fault(fault, request, readings),
    ensures
        !may_create(request, readings),
        is_creation_fault(other, request, readings) && !(fault is SourceUnreadable) ==> other
            == fault,
{
}

/// An address without a port is looked up at the port on which agents listen.
pub proof fn law_lookups_have_a_port(value: Seq<char>)
    ensures
        value.contains(':') ==> lookup_name(value) == value,
        !value.contains(':') ==> {
            let name = lookup_name(value);
            &&& name.take(value.len() as int) == value
            &&& name[value.len() as int] == ':'
            &&& crate::text::number_of(name.skip(value.len() as int + 1)) == 39_463
        },
{
    if !value.contains(':') {
        let port = crate::text::decimal(DEFAULT_QUIC_PORT as nat);
        let name = value.push(':') + port;
        crate::text::law_decimal_reads_back(DEFAULT_QUIC_PORT as nat);
        assert(name.take(value.len() as int) =~= value);
        assert(name.skip(value.len() as int + 1) =~= port);
    }
}

/// The errors of a job are those of its files that have one, each with its path, its
/// state and its message.
pub proof fn law_which_files_have_errors(files: Seq<JobFileRecord>, view: FileErrorView)
    ensures
        failed_files(files).contains(view) <==> exists|i: int|
            0 <= i < files.len() && (#[trigger] files[i]).path == view.path && files[i].status
                == view.status && files[i].error == Some(view.message),
    decreases files.len(),
{
    if files.len() > 0 {
        let rest = files.drop_last();
        let last = files.len() - 1;
        let earlier = failed_files(rest);
        let now = failed_files(files);
        law_which_files_have_errors(rest, view);
        if now.contains(view) {
            let k = choose|k: int| 0 <= k < now.len() && now[k] == view;
            if k < earlier.len() {
                assert(earlier[k] == view);
                assert(earlier.contains(view));
                let i = choose|i: int|
                    0 <= i < rest.len() && (#[trigger] rest[i]).path == view.path && rest[i].status
                        == view.status && rest[i].error == Some(view.message);
                assert(files[i] == rest[i]);
            } else {
                assert(files[last].path == view.path);
            }
        }
        if exists|i: int|
            0 <= i < files.len() && (#[trigger] files[i]).path == view.path && files[i].status
                == view.status && files[i].error == Some(view.message) {
            let i = choose|i: int|
                0 <= i < files.len() && (#[trigger] files[i]).path == view.path && files[i].status
                    == view.status && files[i].error == Some(view.message);
            if i < last {
                assert(rest[i] == files[i]);
                let k = choose|k: int| 0 <= k < earlier.len() && earlier[k] == view;
                assert(now[k] == view);
            } else {
                assert(now.last() == view);
            }
        }
    }
}

/// A job accounts for what it transferred and what it reused, and for no more than all.
pub proof fn law_what_is_accounted_for(progress: TransferProgress)
    ensures
        ({
            let done = progress.transferred_bytes + progress.reused_bytes;
            &&& accounted(progress) <= done
            &&& accounted(progress) == done || accounted(progress) == progress.total_bytes
        }),
{
}

/// The status tells whose fault it is: what is not there is not found, what contradicts
/// the state is a conflict, what storage cannot do is this side's, what a device fails
/// to answer is that device's, and all else is the request's.
pub proof fn law_statuses_tell_whose_fault_it_is(fault: ApiFault)
    ensures
        fault.spec_status() == 404 <==> fault is RouteNotFound || fault is JobNotFound
            || fault is DeviceNotFound || fault is TrustedDeviceNotFound,
        fault.spec_status() == 409 <==> fault is PeerNotTrusted || fault is PeerAddressInvalid
            || fault is PinnedKeyInvalid || fault is DeviceAddressInvalid || fault is KeyUnderivedId
            || fault is Conflict,
        fault.spec_status() == 500 <==> fault is Storage || fault is JobVanished
            || fault is DeviceNotPersisted,
        fault.spec_status() == 502 <==> fault is ProbeRejected || fault is NeverProbed
            || fault is EndpointProbeFailed,
        fault.spec_status() == 503 <==> fault is ShuttingDown,
        fault.spec_status() == 504 <==> fault is ProbeTimedOut || fault is EndpointProbeTimedOut,
        fault.spec_status() == 400 <==> fault is InvalidJson || fault is InvalidId
            || fault is SourceNotAbsolute || fault is SourceUnreadable || fault is SourceNotDirectory
            || fault is DestinationNotAbsolute || fault is SeveralChunkSizes
            || fault is ChunkSizeTooLarge || fault is ChunkSizeOutOfRange
            || fault is ConcurrencyOutOfRange || fault is RetryLimitOutOfRange
            || fault is AddressEmpty || fault is AddressUnresolvable
            || fault is AddressWithoutEndpoints,
{
}

/// A request that does not say how much at once and how often again gets the usual
/// numbers, and one that does gets its own.
pub proof fn law_what_is_usual(request: CreateJobRequest)
    ensures
        request.concurrency is None ==> requested_concurrency(request) == 32,
        request.concurrency matches Some(value) ==> requested_concurrency(request) == value,
        request.retry_limit is None ==> requested_retry_limit(request) == 6,
        request.retry_limit matches Some(value) ==> requested_retry_limit(request) == value,
{
}

/// Which requests are served: those that do not come from a page, and those that come
/// from a page of the very host, written with letters of either case. A page that cannot
/// be told, or a host that was not named, is not served.
pub proof fn law_which_origins_are_served(origin: Origin, text: &str, name: &str)
    ensures
        is_allowed_origin(Origin::Missing, Some(name)) && is_allowed_origin(Origin::Missing, None),
        is_allowed_text(None, Some(name)) && is_allowed_text(None, None),
        !(origin is Missing) ==> !is_allowed_origin(origin, None),
        !is_allowed_text(Some(text), None),
        origin is Unreadable ==> !is_allowed_origin(origin, Some(name)),
        uri_authority(text@) is None ==> !is_allowed_text(Some(text), Some(name)),
        origin is Authority ==> (is_allowed_origin(origin, Some(name))
            <==> crate::manifest::is_same_name(
            crate::manifest::Platform::Windows,
            origin->Authority_0@,
            name@,
        )),
        uri_authority(text@) matches Some(authority) ==> {
            &&& authority == name@ ==> is_allowed_text(Some(text), Some(name))
            &&& authority.len() != name@.len() ==> !is_allowed_text(Some(text), Some(name))
            &&& forall|i: int|
                0 <= i < name@.len() && authority.len() == name@.len() && !(97 <= (#[trigger]
                name@[i]) as u32 <= 122) && !(97 <= authority[i] as u32 <= 122) && name@[i]
                    != authority[i] ==> !is_allowed_text(Some(text), Some(name))
        },
{
    if uri_authority(text@) is Some {
        let authority = uri_authority(text@)->0;
        let (a, b) = (ascii_uppercase(authority), ascii_uppercase(name@));
        if a == b {
            assert(authority.len() == a.len() && name@.len() == b.len());
            assert forall|i: int|
                0 <= i < name@.len() && authority.len() == name@.len() && !(97 <= (#[trigger]
                name@[i]) as u32 <= 122) && !(97 <= authority[i] as u32 <= 122) implies name@[i]
                == authority[i] by {
                assert(a[i] == b[i]);
            }
        }
        if authority.len() != name@.len() {
            assert(a.len() != b.len());
        }
    }
}

} // verus!
