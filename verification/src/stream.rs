//! Requests and responses of the transfer protocol.

use crate::ids::Uuid;
use crate::model::{ContentHash, HashedFile, ManifestEntry, VerificationMode};
use vstd::prelude::*;

verus! {

/// A client request.
///
/// For `UploadChunk`, exactly `ChunkHeader::size` raw bytes follow the frame.
#[derive(Debug, Clone, PartialEq, Eq)]
pub enum Request {
    Compare(CompareBatch),
    Negotiate(HashedFileBatch),
    UploadChunk(ChunkHeader),
    FinalizeFile(FinalizeFileRequest),
    CompleteJob(CompleteJobRequest),
    Ping(PingRequest),
}

/// A server response.
#[derive(Debug, Clone, PartialEq, Eq)]
pub enum Response {
    Compare(CompareDecisionBatch),
    Negotiate(FilePlanBatch),
    Acknowledged(Acknowledgement),
    Pong(PongResponse),
    Error(RemoteError),
}

#[derive(Debug, Clone, PartialEq, Eq)]
pub struct CompareBatch {
    pub job_id: Uuid,
    pub manifest_id: Uuid,
    /// Absolute path interpreted only by the receiving agent.
    pub destination_root: String,
    pub verification_mode: VerificationMode,
    pub chunk_size: u64,
    pub sequence: u32,
    pub is_last: bool,
    pub entries: Vec<ManifestEntry>,
}

#[derive(Debug, Clone, Copy, PartialEq, Eq, Structural)]
pub enum CompareAction {
    Unchanged,
    NeedHash,
    Transfer,
    Delete,
    Conflict,
}

#[derive(Debug, Clone, PartialEq, Eq)]
pub struct CompareDecision {
    pub path: String,
    pub action: CompareAction,
}

#[derive(Debug, Clone, PartialEq, Eq)]
pub struct CompareDecisionBatch {
    pub job_id: Uuid,
    pub manifest_id: Uuid,
    pub sequence: u32,
    pub is_last: bool,
    pub decisions: Vec<CompareDecision>,
}

#[derive(Debug, Clone, PartialEq, Eq)]
pub struct HashedFileBatch {
    pub job_id: Uuid,
    pub manifest_id: Uuid,
    pub sequence: u32,
    pub is_last: bool,
    pub files: Vec<HashedFile>,
}

/// The receiver's chunk-level transfer plan for one file.
#[derive(Debug, Clone, PartialEq, Eq)]
pub struct FilePlan {
    pub path: String,
    pub missing_chunks: Vec<u64>,
    pub missing_bytes: u64,
    pub resumed_chunks: Vec<u64>,
    pub resumed_bytes: u64,
    pub reused_chunks: Vec<u64>,
    pub reused_bytes: u64,
}

#[derive(Debug, Clone, PartialEq, Eq)]
pub struct FilePlanBatch {
    pub job_id: Uuid,
    pub manifest_id: Uuid,
    pub sequence: u32,
    pub is_last: bool,
    pub plans: Vec<FilePlan>,
}

/// Metadata for a raw chunk payload that immediately follows it.
#[derive(Debug, Clone, PartialEq, Eq)]
pub struct ChunkHeader {
    pub job_id: Uuid,
    pub manifest_id: Uuid,
    pub path: String,
    pub index: u64,
    pub offset: u64,
    pub size: u64,
    pub hash: ContentHash,
}

#[derive(Debug, Clone, PartialEq, Eq)]
pub struct FinalizeFileRequest {
    pub job_id: Uuid,
    pub manifest_id: Uuid,
    pub file: HashedFile,
}

#[derive(Debug, Clone, Copy, PartialEq, Eq, Structural)]
pub struct CompleteJobRequest {
    pub job_id: Uuid,
    pub manifest_id: Uuid,
}

#[derive(Debug, Clone, Copy, PartialEq, Eq, Structural)]
pub struct PingRequest {
    pub nonce: u64,
}

#[derive(Debug, Clone, Copy, PartialEq, Eq, Structural)]
pub struct PongResponse {
    pub nonce: u64,
}

#[derive(Debug, Clone, PartialEq, Eq)]
pub struct ChunkAcknowledgement {
    pub job_id: Uuid,
    pub manifest_id: Uuid,
    pub path: String,
    pub index: u64,
    pub size: u64,
}

#[derive(Debug, Clone, PartialEq, Eq)]
pub struct FileAcknowledgement {
    pub job_id: Uuid,
    pub manifest_id: Uuid,
    pub path: String,
}

#[derive(Debug, Clone, Copy, PartialEq, Eq, Structural)]
pub struct JobAcknowledgement {
    pub job_id: Uuid,
    pub manifest_id: Uuid,
    pub completed_with_errors: bool,
    pub failed_files: u64,
}

#[derive(Debug, Clone, PartialEq, Eq)]
pub enum Acknowledgement {
    Chunk(ChunkAcknowledgement),
    File(FileAcknowledgement),
    Job(JobAcknowledgement),
}

/// Stable categories for errors returned by a remote peer.
#[derive(Debug, Clone, Copy, PartialEq, Eq, Structural)]
pub enum RemoteErrorCode {
    InvalidRequest,
    UnsupportedProtocol,
    Unauthorized,
    JobNotFound,
    PathNotFound,
    InvalidChunk,
    HashMismatch,
    Conflict,
    Storage,
    Internal,
}

/// A machine-readable remote failure with optional request context.
#[derive(Debug, Clone, PartialEq, Eq)]
pub struct RemoteError {
    pub code: RemoteErrorCode,
    pub message: String,
    pub retryable: bool,
    pub job_id: Option<Uuid>,
    pub path: Option<String>,
}

impl Request {
    /// The job that a request is about.
    pub open spec fn spec_job_id(self) -> Option<Uuid> {
        match self {
            Request::Compare(request) => Some(request.job_id),
            Request::Negotiate(request) => Some(request.job_id),
            Request::UploadChunk(request) => Some(request.job_id),
            Request::FinalizeFile(request) => Some(request.job_id),
            Request::CompleteJob(request) => Some(request.job_id),
            Request::Ping(_) => None,
        }
    }

    /// The file that a request is about.
    pub open spec fn spec_path(self) -> Option<Seq<char>> {
        match self {
            Request::UploadChunk(request) => Some(request.path@),
            Request::FinalizeFile(request) => Some(request.file.entry.relative_path@),
            _ => None,
        }
    }
}

/// The job that a request is about.
pub fn request_job_id(request: &Request) -> (job_id: Option<Uuid>)
    ensures
        job_id == request.spec_job_id(),
{
    match request {
        Request::Compare(request) => Some(request.job_id),
        Request::Negotiate(request) => Some(request.job_id),
        Request::UploadChunk(request) => Some(request.job_id),
        Request::FinalizeFile(request) => Some(request.job_id),
        Request::CompleteJob(request) => Some(request.job_id),
        Request::Ping(_) => None,
    }
}

/// The file that a request is about.
pub fn request_path(request: &Request) -> (path: Option<String>)
    ensures
        crate::text::view_of(path) == request.spec_path(),
{
    match request {
        Request::UploadChunk(request) => Some(request.path.clone()),
        Request::FinalizeFile(request) => Some(request.file.entry.relative_path.clone()),
        _ => None,
    }
}

/// Every request but a ping is for a job, and those about a chunk or a file say of which.
pub proof fn law_what_requests_are_about(request: Request)
    ensures
        request.spec_job_id() is None <==> request is Ping,
        request is Compare ==> request.spec_job_id() == Some(request->Compare_0.job_id),
        request is Negotiate ==> request.spec_job_id() == Some(request->Negotiate_0.job_id),
        request is UploadChunk ==> request.spec_job_id() == Some(request->UploadChunk_0.job_id)
            && request.spec_path() == Some(request->UploadChunk_0.path@),
        request is FinalizeFile ==> request.spec_job_id() == Some(request->FinalizeFile_0.job_id)
            && request.spec_path() == Some(request->FinalizeFile_0.file.entry.relative_path@),
        request is CompleteJob ==> request.spec_job_id() == Some(request->CompleteJob_0.job_id),
        request.spec_path() is Some <==> request is UploadChunk || request is FinalizeFile,
{
}

} // verus!
