//! What can go wrong, as plain values.

use crate::ids::Uuid;
use crate::model::{ContentHash, SourceMetadata};
use crate::path::{PathValidationError, RelativePathError};
use crate::stream::{RemoteError, RemoteErrorCode};
use vstd::prelude::*;

verus! {

/// Failures of the filesystem primitives.
#[derive(Debug, Clone, PartialEq, Eq)]
pub enum CoreError {
    Io { operation: &'static str, path: String, source: String },
    NotDirectory { path: String },
    NotRegularFile { path: String },
    UnsupportedFileType { path: String },
    InvalidRelativePath { path: String, source: RelativePathError },
    MetadataTimeOutOfRange { path: String },
    InvalidChunkSize { chunk_size: u64 },
    ChunkBufferAllocation { chunk_size: u64 },
    FileTooLarge { path: String },
    SourceChanged { path: String, expected: SourceMetadata, actual: SourceMetadata },
    ReadSizeChanged { path: String, expected: u64, actual: u64 },
    HashMismatch { path: String, expected: ContentHash, actual: ContentHash },
    SizeMismatch { path: String, expected: u64, actual: u64 },
    /// Another file was verified than the one to publish.
    VerifiedElsewhere { path: String, verified: String },
    OperationCancelled { path: String },
}

impl CoreError {
    pub fn io(operation: &'static str, path: &str, source: String) -> (error: Self)
        ensures
            error matches CoreError::Io { operation: o, path: p, source: s } && o == operation && p@
                == path@ && s == source,
    {
        CoreError::Io { operation, path: path.to_owned(), source }
    }
}

/// Failures of framing and versioning.
#[derive(Debug, Clone, PartialEq, Eq)]
pub enum ProtocolError {
    CborEncode(String),
    CborDecode(String),
    TrailingCborData { remaining: usize },
    FrameTooLarge { size: usize, maximum: usize },
    TruncatedLengthPrefix { received: usize },
    TruncatedFrame { expected: usize, received: usize },
    TrailingFrameData { extra: usize },
    ProtocolVersionMismatch { expected: u16, received: u16 },
    Io(String),
}

/// What is wrong with a persisted row.
#[derive(Debug, Clone, PartialEq, Eq)]
pub enum RowFault {
    ForeignFile { path: String, owner: Uuid, expected: Uuid },
    TimestampOutOfRange { millis: u128 },
    NegativeValue { value: i64 },
    InvalidIdentifier { text: String },
    WrongHashLength { length: usize },
    StatusDisagrees,
    UnknownStatus { text: String },
    ForeignPayload { payload: Uuid, row: Uuid },
    ProgressDisagrees,
}

/// Failures of persistent storage.
#[derive(Debug, Clone, PartialEq, Eq)]
pub enum StorageError {
    Sqlite(String),
    CreateDirectory { path: String, source: String },
    SecurePath { path: String, source: String },
    Encode { kind: &'static str, message: String },
    Decode { kind: &'static str, message: String },
    SettingType { key: String, expected: &'static str, actual: String },
    InvalidSettingString { key: String },
    InvalidData { field: &'static str, fault: RowFault },
    IntegerOutOfRange { field: &'static str, value: u64 },
    SystemTime(String),
    UnsupportedSchemaVersion { found: i64, supported: i64 },
}

/// Why a peer could not be authenticated.
#[derive(Debug, Clone, Copy, PartialEq, Eq, Structural)]
pub enum AuthFault {
    ProbeNonceMismatch,
    WrongDevice { connected: Uuid, expected: Uuid },
    TrustedKeyMismatch { device_id: Uuid },
    InvalidIdentityFields,
    InvalidFieldLength,
    ChannelBindingMismatch,
    KeyLength,
    UnderivedDeviceId,
    MalformedKey,
    MalformedSignature,
    InvalidSignature { device_id: Uuid },
    NoCertificate,
    UnknownCertificateChain,
    EmptyCertificateChain,
}

/// Failures that a new connection may cure.
#[derive(Debug, Clone, PartialEq, Eq)]
pub enum NetworkFault {
    Transport(String),
    HandshakeStreamTimeout,
    HandshakeTimeout,
    RequestHeaderTimeout,
    ChunkBodyTimeout,
    ChunkEndTimeout,
    JobRetiring { job_id: Uuid },
    DestinationOverlaps { destination: String, job_id: Uuid, path: String },
    RootOverlaps { destination: String, job_id: Uuid, path: String },
    UploadsUnfinished { path: String },
    RemovedPathBusy { path: String },
    ChunkTruncated { index: u64, path: String, missing: u64 },
}

/// What is wrong with data that a peer, a file or a row supplied.
#[derive(Debug, Clone, PartialEq, Eq)]
pub enum DataFault {
    ChunkSizeZero,
    NotRegularFile { path: String },
    TooManyChunks { path: String, count: u64 },
    NonContiguousChunks { path: String },
    InvalidChunkLength { path: String, index: u64, size: u64 },
    ShortNonFinalChunk { path: String },
    ChunkOffsetsOverflow { path: String },
    ChunkTotalMismatch { path: String, total: u64, expected: u64 },
    ChunkSizeTooSmall { path: String, chunks: u64, minimum: u64 },
    FileTooLarge { path: String },
    UnsupportedFileType { path: String },
    ModificationTimeOutOfRange { path: String },
    InvalidChunkSize { chunk_size: u64 },
    ZeroConcurrency,
    DestinationNotAbsolute { path: String },
    RootMustBeAbsolute { path: String },
    DestinationHasDots { path: String },
    DestinationInStaging { path: String },
    InvalidPath { path: String, source: PathValidationError },
    InvalidStagingPath { path: String, source: PathValidationError },
    RejectedPath { source: PathValidationError },
    InvalidSourcePath { path: String, source: PathValidationError },
    NotDirectoryEntry { path: String },
    SymbolicLink { path: String },
    NotRealDirectory { path: String },
    NoParent { path: String },
    NoFileName { path: String },
    OutsideRoot { path: String, root: String },
    RegionTruncated { path: String, offset: u64, size: u64 },
    ParametersChanged { job_id: Uuid },
    StagingNamespace { path: String },
    CaseAlias { existing: String },
    ManifestIdReused { manifest_id: Uuid, job_id: Uuid },
    ManifestIdCommitted { manifest_id: Uuid, job_id: Uuid },
    BatchBeforeStart { sequence: u32 },
    ObsoleteGeneration { sequence: u32 },
    UnexpectedBatch { expected: u32, received: u32 },
    BatchNotActive { sequence: u32 },
    GenerationInactive,
    SequenceOverflow,
    DuplicatePath { path: String },
    FileAncestor { path: String, ancestor: String },
    AncestorOfAnother { path: String },
    ManifestInactive { manifest_id: Uuid, job_id: Uuid },
    EntryNotInManifest { path: String },
    AlreadyCompleting { job_id: Uuid },
    JobNotFound { job_id: Uuid },
    NotNegotiated { path: String },
    AlreadyFinalized { path: String },
    UnknownDescriptor { index: u64, path: String },
    ChunkBusy { index: u64, path: String },
    NegotiationChanged { path: String },
    FinalizedDestinationChanged { path: String },
    DestinationNotFile { path: String },
    PartialUnusable { path: String },
    TrailingChunkBytes { index: u64, path: String },
    ChunkHashMismatch { index: u64, path: String },
    FinalizeDiffers { path: String },
    ChunksUploading { path: String },
    ChunkIncomplete { index: u64, path: String },
    PartialAndDestinationMissing { path: String },
    PartialMissing { path: String },
    ReusedDestinationGone { path: String },
    ReusedDestinationChanged { path: String },
    FileRowMissing { path: String },
    NotCompletedGeneration { manifest_id: Uuid, job_id: Uuid },
    ForeignJob { job_id: Uuid },
    ForeignRecord { job_id: Uuid },
    LeaseLost { job_id: Uuid, path: String },
    LeaseReserved { destination: String, job_id: Uuid, path: String },
    StagingTokenInvalid { job_id: Uuid },
    StaleStagingNotFile { path: String },
    StagingRootNotDirectory { path: String },
    DecisionMissing { path: String },
    WrongComparison,
    MismatchedComparison,
    UnexpectedComparison { path: String },
    WrongNegotiation,
    MismatchedNegotiation,
    UnexpectedPlan { path: String },
    DuplicatePlan { path: String },
    PlanPathMismatch { path: String, expected: String },
    PlanChunkUnknown { path: String, index: u64 },
    PlanChunkRepeated { path: String, index: u64 },
    PlanTotalsOverflow,
    PlanTotalsInconsistent { path: String },
    QueueOverflow,
    TooManyBatches,
    TooManyHashBatches,
    UnknownChunkRequested { path: String, index: u64 },
    SourceEnded { path: String, index: u64 },
    SourceChangedInChunk { path: String, index: u64 },
    UnexpectedResponse { description: String },
    SystemTimeOutOfRange,
    SystemTime(String),
}

/// Failures of the transfer engine.
#[derive(Debug, Clone, PartialEq, Eq)]
pub enum TransferError {
    Storage(StorageError),
    Core(CoreError),
    Protocol(ProtocolError),
    Io { operation: &'static str, path: String, source: String },
    Tls(String),
    Identity(String),
    Authentication(AuthFault),
    HandshakeRejected(String),
    ProtocolVersionMismatch { expected: u16, received: u16 },
    UntrustedPeer { device_id: Uuid },
    Remote {
        code: RemoteErrorCode,
        message: String,
        retryable: bool,
        job_id: Option<Uuid>,
        path: Option<String>,
    },
    Network(NetworkFault),
    InvalidData(DataFault),
    Cancelled,
    Task(String),
}

impl TransferError {
    pub open spec fn spec_retryable(self) -> bool {
        match self {
            TransferError::Network(_) => true,
            TransferError::Remote { retryable, .. } => retryable,
            TransferError::Protocol(ProtocolError::Io(_)) => true,
            TransferError::Protocol(ProtocolError::TruncatedLengthPrefix { .. }) => true,
            TransferError::Protocol(ProtocolError::TruncatedFrame { .. }) => true,
            _ => false,
        }
    }

    /// Whether retrying after reconnecting and renegotiating can succeed.
    pub fn is_retryable(&self) -> (yes: bool)
        ensures
            yes == self.spec_retryable(),
    {
        match self {
            TransferError::Network(_) => true,
            TransferError::Remote { retryable, .. } => *retryable,
            TransferError::Protocol(ProtocolError::Io(_)) => true,
            TransferError::Protocol(ProtocolError::TruncatedLengthPrefix { .. }) => true,
            TransferError::Protocol(ProtocolError::TruncatedFrame { .. }) => true,
            _ => false,
        }
    }

    pub open spec fn spec_remote_path(self) -> Option<Seq<char>> {
        match self {
            TransferError::Remote { path, .. } => crate::text::view_of(path),
            _ => None,
        }
    }

    /// The path that a remote failure is about.
    pub fn remote_path(&self) -> (path: Option<String>)
        ensures
            crate::text::view_of(path) == self.spec_remote_path(),
    {
        match self {
            TransferError::Remote { path, .. } => match path {
                Some(text) => Some(text.clone()),
                None => None,
            },
            _ => None,
        }
    }

    pub open spec fn spec_from_remote(error: RemoteError) -> TransferError {
        TransferError::Remote {
            code: error.code,
            message: error.message,
            retryable: error.retryable,
            job_id: error.job_id,
            path: error.path,
        }
    }

    pub fn io(operation: &'static str, path: &str, source: String) -> (error: Self)
        ensures
            error matches TransferError::Io { operation: o, path: p, source: s } && o == operation
                && p@ == path@ && s == source,
    {
        TransferError::Io { operation, path: path.to_owned(), source }
    }
}

impl From<StorageError> for TransferError {
    fn from(error: StorageError) -> (converted: Self) {
        TransferError::Storage(error)
    }
}

impl vstd::std_specs::convert::FromSpecImpl<StorageError> for TransferError {
    open spec fn obeys_from_spec() -> bool {
        true
    }

    open spec fn from_spec(error: StorageError) -> TransferError {
        TransferError::Storage(error)
    }
}

impl From<CoreError> for TransferError {
    fn from(error: CoreError) -> (converted: Self) {
        TransferError::Core(error)
    }
}

impl vstd::std_specs::convert::FromSpecImpl<CoreError> for TransferError {
    open spec fn obeys_from_spec() -> bool {
        true
    }

    open spec fn from_spec(error: CoreError) -> TransferError {
        TransferError::Core(error)
    }
}

impl From<ProtocolError> for TransferError {
    fn from(error: ProtocolError) -> (converted: Self) {
        TransferError::Protocol(error)
    }
}

impl vstd::std_specs::convert::FromSpecImpl<ProtocolError> for TransferError {
    open spec fn obeys_from_spec() -> bool {
        true
    }

    open spec fn from_spec(error: ProtocolError) -> TransferError {
        TransferError::Protocol(error)
    }
}

impl From<RemoteError> for TransferError {
    fn from(error: RemoteError) -> (converted: Self) {
        TransferError::Remote {
            code: error.code,
            message: error.message,
            retryable: error.retryable,
            job_id: error.job_id,
            path: error.path,
        }
    }
}

impl vstd::std_specs::convert::FromSpecImpl<RemoteError> for TransferError {
    open spec fn obeys_from_spec() -> bool {
        true
    }

    open spec fn from_spec(error: RemoteError) -> TransferError {
        TransferError::spec_from_remote(error)
    }
}

/// Retrying can help exactly where the connection failed or broke off, or the peer says
/// so: never against a refusal, an error of its own or of the data.
pub proof fn law_what_is_retried(error: TransferError)
    ensures
        error is Network ==> error.spec_retryable(),
        error is Remote ==> error.spec_retryable() == error->retryable,
        error matches TransferError::Protocol(cause) ==> (error.spec_retryable() <==> cause is Io
            || cause is TruncatedLengthPrefix || cause is TruncatedFrame),
        error is Storage || error is Core || error is Io || error is Tls || error is Identity
            || error is Authentication || error is HandshakeRejected
            || error is ProtocolVersionMismatch || error is UntrustedPeer || error is InvalidData
            || error is Cancelled || error is Task ==> !error.spec_retryable(),
{
}

/// What a peer reports is taken over whole.
pub proof fn law_reports_are_taken_over(error: RemoteError)
    ensures
        ({
            let taken = TransferError::spec_from_remote(error);
            &&& taken is Remote
            &&& taken->code == error.code
            &&& taken->message == error.message
            &&& taken.spec_retryable() == error.retryable
            &&& taken->job_id == error.job_id
            &&& taken.spec_remote_path() == crate::text::view_of(error.path)
        }),
{
}

/// Only what a peer reports names a path at the peer.
pub proof fn law_only_peers_name_their_paths(error: TransferError)
    ensures
        !(error is Remote) ==> error.spec_remote_path() is None,
        error is Remote && error->Remote_path is None ==> error.spec_remote_path() is None,
        error is Remote && error->Remote_path is Some ==> error.spec_remote_path() == Some(
            error->Remote_path->0@,
        ),
{
}

} // verus!
