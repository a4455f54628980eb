//! How requests of a peer are admitted and answered.

use crate::error::{CoreError, DataFault, TransferError};
use crate::ids::Uuid;
use crate::manifest::IncomingJobKey;
use crate::stream::{
    request_job_id, request_path, RemoteError, RemoteErrorCode, Request, Response, PongResponse,
};
use crate::text::{contains_text, has_text, view_of};
use vstd::prelude::*;

verus! {

/// How many files a receiving job lets its sender work on at once.
pub const SERVER_JOB_CONCURRENCY: u32 = 32;

/// Seconds within which a peer must finish its handshake.
pub const HANDSHAKE_TIMEOUT_SECONDS: u64 = 15;

/// Seconds within which the header of a request must arrive.
pub const REQUEST_HEADER_TIMEOUT_SECONDS: u64 = 30;

/// Seconds for which the body of a chunk may stand still.
pub const CHUNK_IDLE_TIMEOUT_SECONDS: u64 = 60;

/// The largest request that a peer may send before it is trusted.
pub const UNTRUSTED_FRAME_SIZE: usize = 64 * 1024;

/// Accepts a chunk size that is not zero and that memory can address.
pub fn validate_chunk_size(chunk_size: u64) -> (result: Result<(), TransferError>)
    ensures
        match result {
            Ok(_) => 0 < chunk_size <= usize::MAX,
            Err(TransferError::InvalidData(DataFault::InvalidChunkSize { chunk_size: c })) => !(0
                < chunk_size <= usize::MAX) && c == chunk_size,
            Err(_) => false,
        },
{
    if chunk_size == 0 || chunk_size > usize::MAX as u64 {
        Err(TransferError::InvalidData(DataFault::InvalidChunkSize { chunk_size }))
    } else {
        Ok(())
    }
}

fn keyed_name(prefix: &str, key: IncomingJobKey) -> (name: String)
    ensures
        name@ == prefix@ + key.peer_id.spec_text() + seq![':'] + key.job_id.spec_text(),
{
    let mut name = prefix.to_owned();
    name.append(key.peer_id.to_text().as_str());
    name.push(':');
    name.append(key.job_id.to_text().as_str());
    assert(name@ =~= prefix@ + key.peer_id.spec_text() + seq![':'] + key.job_id.spec_text());
    name
}

/// The setting under which the committed manifest of a job is kept.
pub fn manifest_setting_key(key: IncomingJobKey) -> (name: String)
    ensures
        name@ == "receiver_manifest_id_v2:"@ + key.peer_id.spec_text() + seq![':']
            + key.job_id.spec_text(),
{
    keyed_name("receiver_manifest_id_v2:", key)
}

/// The setting under which the staging token of a job is kept.
pub fn staging_setting_key(key: IncomingJobKey) -> (name: String)
    ensures
        name@ == "receiver_staging_token_v1:"@ + key.peer_id.spec_text() + seq![':']
            + key.job_id.spec_text(),
{
    keyed_name("receiver_staging_token_v1:", key)
}

/// The code under which a failure that belongs to one file is reported.
pub open spec fn contextual_code(error: TransferError, default_code: RemoteErrorCode) -> RemoteErrorCode {
    match error {
        TransferError::Core(CoreError::HashMismatch { .. }) => RemoteErrorCode::HashMismatch,
        TransferError::InvalidData(_) => RemoteErrorCode::InvalidRequest,
        _ => default_code,
    }
}

/// Ties a failure to a job and a file, given how it reads; one that a peer
/// reported stays as it is.
pub fn contextual_remote(
    error: TransferError,
    message: String,
    job_id: Uuid,
    path: String,
    default_code: RemoteErrorCode,
) -> (reported: TransferError)
    ensures
        reported == (match error {
            TransferError::Remote { .. } => error,
            _ => TransferError::Remote {
                code: contextual_code(error, default_code),
                message,
                retryable: error.spec_retryable(),
                job_id: Some(job_id),
                path: Some(path),
            },
        }),
{
    match error {
        TransferError::Remote { .. } => error,
        error => {
            let code = match &error {
                TransferError::Core(CoreError::HashMismatch { .. }) => RemoteErrorCode::HashMismatch,
                TransferError::InvalidData(_) => RemoteErrorCode::InvalidRequest,
                _ => default_code,
            };
            let retryable = error.is_retryable();
            TransferError::Remote { code, message, retryable, job_id: Some(job_id), path: Some(path) }
        },
    }
}

/// The code of data that is wrong, given how the fault reads: a text that tells of a
/// hash mismatch, or of something that was not found, has the code for that.
pub open spec fn data_code(fault: DataFault, message: Seq<char>) -> RemoteErrorCode {
    if fault is ChunkHashMismatch || contains_text(message, "hash mismatch"@) {
        RemoteErrorCode::HashMismatch
    } else if fault is JobNotFound || contains_text(message, "not found"@) {
        RemoteErrorCode::JobNotFound
    } else {
        RemoteErrorCode::InvalidRequest
    }
}

/// The code under which a failure is reported to the peer, given how it reads.
pub open spec fn remote_code(error: TransferError, message: Seq<char>) -> RemoteErrorCode {
    match error {
        TransferError::Remote { code, .. } => code,
        TransferError::ProtocolVersionMismatch { .. } => RemoteErrorCode::UnsupportedProtocol,
        TransferError::UntrustedPeer { .. } => RemoteErrorCode::Unauthorized,
        TransferError::Authentication(_) => RemoteErrorCode::Unauthorized,
        TransferError::Storage(_) => RemoteErrorCode::Storage,
        TransferError::Core(CoreError::HashMismatch { .. }) => RemoteErrorCode::HashMismatch,
        TransferError::InvalidData(fault) => data_code(fault, message),
        TransferError::Protocol(_) => RemoteErrorCode::InvalidRequest,
        _ => RemoteErrorCode::Internal,
    }
}

/// The first of two texts that is there.
pub open spec fn first_of(a: Option<String>, b: Option<String>) -> Option<String> {
    if a is Some {
        a
    } else {
        b
    }
}

/// A failure as it is reported to the peer, given how it reads; one that a
/// peer reported is passed on, with the context filled in where it lacks it.
pub fn remote_error(
    error: TransferError,
    message: String,
    job_id: Option<Uuid>,
    path: Option<String>,
) -> (reported: RemoteError)
    ensures
        reported == (match error {
            TransferError::Remote {
                code,
                message: original,
                retryable,
                job_id: own_job,
                path: own_path,
            } => RemoteError {
                code,
                message: original,
                retryable,
                job_id: if own_job is Some {
                    own_job
                } else {
                    job_id
                },
                path: first_of(own_path, path),
            },
            _ => RemoteError {
                code: remote_code(error, message@),
                message,
                retryable: error.spec_retryable(),
                job_id,
                path,
            },
        }),
{
    let retryable = error.is_retryable();
    let code = match error {
        TransferError::Remote {
            code,
            message: original,
            retryable,
            job_id: own_job,
            path: own_path,
        } => {
            let job_id = match own_job {
                Some(own) => Some(own),
                None => job_id,
            };
            let path = match own_path {
                Some(own) => Some(own),
                None => path,
            };
            return RemoteError { code, message: original, retryable, job_id, path };
        },
        TransferError::ProtocolVersionMismatch { .. } => RemoteErrorCode::UnsupportedProtocol,
        TransferError::UntrustedPeer { .. } => RemoteErrorCode::Unauthorized,
        TransferError::Authentication(_) => RemoteErrorCode::Unauthorized,
        TransferError::Storage(_) => RemoteErrorCode::Storage,
        TransferError::Core(CoreError::HashMismatch { .. }) => RemoteErrorCode::HashMismatch,
        TransferError::InvalidData(fault) => {
            if matches!(fault, DataFault::ChunkHashMismatch { .. }) || has_text(
                message.as_str(),
                "hash mismatch",
            ) {
                RemoteErrorCode::HashMismatch
            } else if matches!(fault, DataFault::JobNotFound { .. }) || has_text(
                message.as_str(),
                "not found",
            ) {
                RemoteErrorCode::JobNotFound
            } else {
                RemoteErrorCode::InvalidRequest
            }
        },
        TransferError::Protocol(_) => RemoteErrorCode::InvalidRequest,
        _ => RemoteErrorCode::Internal,
    };
    RemoteError { code, message, retryable, job_id, path }
}

/// The largest frame that is read from a peer, given the limit for all.
pub open spec fn frame_limit_of(trusted: bool, maximum: usize) -> usize {
    if trusted {
        maximum
    } else {
        UNTRUSTED_FRAME_SIZE
    }
}

/// The largest frame that is read from a peer, given the limit for all.
pub fn frame_limit(trusted: bool, maximum: usize) -> (limit: usize)
    ensures
        limit == frame_limit_of(trusted, maximum),
{
    if trusted {
        maximum
    } else {
        UNTRUSTED_FRAME_SIZE
    }
}

/// The answer to a request in another version of the protocol.
pub fn version_refusal(message: String) -> (response: Response)
    ensures
        response == Response::Error(
            RemoteError {
                code: RemoteErrorCode::UnsupportedProtocol,
                message,
                retryable: false,
                job_id: None,
                path: None,
            },
        ),
{
    Response::Error(
        RemoteError {
            code: RemoteErrorCode::UnsupportedProtocol,
            message,
            retryable: false,
            job_id: None,
            path: None,
        },
    )
}

/// What a peer that is not trusted is told.
pub open spec fn untrusted_text(device_id: Uuid) -> Seq<char> {
    "device "@ + device_id.spec_text() + " is authenticated but not trusted"@
}

/// A refusal for want of trust.
pub open spec fn is_refusal(error: RemoteError, device_id: Uuid, request: Request) -> bool {
    &&& error.code == RemoteErrorCode::Unauthorized
    &&& error.message@ == untrusted_text(device_id)
    &&& !error.retryable
    &&& error.job_id == request.spec_job_id()
    &&& view_of(error.path) == request.spec_path()
}

/// Decides whether a request of an authenticated device may be processed: a
/// ping always, anything else only from a device that is trusted now.
pub fn authorize_request(device_id: Uuid, trusted: bool, request: &Request) -> (refusal: Option<
    RemoteError,
>)
    ensures
        match refusal {
            None => request is Ping || trusted,
            Some(error) => !(request is Ping) && !trusted && is_refusal(error, device_id, *request),
        },
{
    let is_ping = match request {
        Request::Ping(_) => true,
        _ => false,
    };
    if is_ping || trusted {
        return None;
    }
    let mut message = "device ".to_owned();
    message.append(device_id.to_text().as_str());
    message.append(" is authenticated but not trusted");
    Some(
        RemoteError {
            code: RemoteErrorCode::Unauthorized,
            message,
            retryable: false,
            job_id: request_job_id(request),
            path: request_path(request),
        },
    )
}

/// The job that a request of a device works on.
pub fn request_job_key(device_id: Uuid, request: &Request) -> (key: Option<IncomingJobKey>)
    ensures
        key == (match request.spec_job_id() {
            Some(job_id) => Some(IncomingJobKey { peer_id: device_id, job_id }),
            None => None,
        }),
{
    match request_job_id(request) {
        Some(job_id) => Some(IncomingJobKey { peer_id: device_id, job_id }),
        None => None,
    }
}

/// The answer to a ping.
pub fn pong(nonce: u64) -> (response: Response)
    ensures
        response == Response::Pong(PongResponse { nonce }),
{
    Response::Pong(PongResponse { nonce })
}

/// The failure of a request for a job that is not being received.
pub fn job_not_found(job_id: Uuid) -> (error: TransferError)
    ensures
        error == TransferError::InvalidData(DataFault::JobNotFound { job_id }),
{
    TransferError::InvalidData(DataFault::JobNotFound { job_id })
}

/// Each kind of error has a code of its own for the peer: what came from a peer keeps
/// its code, another version is not supported, who is not known or not trusted is not
/// authorized, and content that does not have its hash is told apart from requests that
/// make no sense. What is this side's own affair is internal.
pub proof fn law_codes_tell_errors_apart(error: TransferError, message: Seq<char>)
    ensures
        error is Remote ==> remote_code(error, message) == error->code,
        remote_code(error, message) == RemoteErrorCode::UnsupportedProtocol && !(error is Remote)
            <==> error is ProtocolVersionMismatch,
        remote_code(error, message) == RemoteErrorCode::Unauthorized && !(error is Remote) <==>
            error is UntrustedPeer || error is Authentication,
        remote_code(error, message) == RemoteErrorCode::Storage && !(error is Remote) <==>
            error is Storage,
        error matches TransferError::Core(cause) ==> (remote_code(error, message)
            == RemoteErrorCode::HashMismatch <==> cause is HashMismatch),
        error is Protocol ==> remote_code(error, message) == RemoteErrorCode::InvalidRequest,
        error matches TransferError::InvalidData(fault) ==> {
            let code = remote_code(error, message);
            let mismatch = fault is ChunkHashMismatch || contains_text(message, "hash mismatch"@);
            let unknown = fault is JobNotFound || contains_text(message, "not found"@);
            &&& code == RemoteErrorCode::HashMismatch <==> mismatch
            &&& code == RemoteErrorCode::JobNotFound <==> unknown && !mismatch
            &&& code == RemoteErrorCode::InvalidRequest <==> !unknown && !mismatch
        },
        remote_code(error, message) == RemoteErrorCode::Internal && !(error is Remote) <==> {
            ||| error is Core && !(error->Core_0 is HashMismatch)
            ||| error is Io || error is Tls || error is Identity || error is HandshakeRejected
            ||| error is Network || error is Cancelled || error is Task
        },
{
}

/// In its context an error gets the code of the step that failed, unless content did
/// not have its hash or the request made no sense.
pub proof fn law_context_names_the_failed_step(error: TransferError, step: RemoteErrorCode)
    ensures
        error is InvalidData ==> contextual_code(error, step) == RemoteErrorCode::InvalidRequest,
        error matches TransferError::Core(cause) ==> contextual_code(error, step) == if cause is HashMismatch {
            RemoteErrorCode::HashMismatch
        } else {
            step
        },
        !(error is InvalidData) && !(error is Core) ==> contextual_code(error, step) == step,
{
}

/// What an error says of itself comes before what is known around it.
pub proof fn law_the_first_that_is_there_is_taken(a: Option<String>, b: Option<String>)
    ensures
        a is Some ==> first_of(a, b) == a,
        a is None ==> first_of(a, b) == b,
{
}

/// A device that is not trusted may send no more than 64 kibibytes at once, whatever
/// others may.
pub proof fn law_untrusted_frames_are_small(maximum: usize, other: usize)
    ensures
        frame_limit_of(true, maximum) == maximum,
        frame_limit_of(false, maximum) == 65_536,
        frame_limit_of(false, maximum) == frame_limit_of(false, other),
{
}

} // verus!
