//! Meeting a peer: the messages of the handshake and what follows from them.

use crate::auth::{
    auth_error, client_fault, client_transcript, client_transcript_of, has_plain_names, reason_for,
    rejection_reason, server_fault, server_transcript, server_transcript_of,
    validate_client_handshake, validate_server_handshake,
};
use crate::digest::{blake3_digest, blake3_hash};
use crate::error::{AuthFault, DataFault, ProtocolError, TransferError};
use crate::identity::{ed25519_signature, fresh_nonce, DeviceIdentity};
use crate::ids::Uuid;
use crate::protocol::{
    version_mismatch_text, ClientHandshake, HandshakeRejection, HandshakeResponse, RejectionReason,
    ServerHandshake, Versioned, AGENT_VERSION, PROTOCOL_VERSION,
};
use crate::records::{DiscoveredDevice, TrustedPeer};
use crate::stream::Response;
use crate::text::{same_bytes, views};
use vstd::prelude::*;

verus! {

/// What every agent can do.
pub open spec fn agent_features() -> Seq<Seq<char>> {
    seq!["blake3"@, "fixed-chunk-resume"@, "tls-certificate-binding"@]
}

/// What a handshake lists.
pub fn feature_list() -> (features: Vec<String>)
    ensures
        views(features@) == agent_features(),
{
    let mut features: Vec<String> = Vec::new();
    features.push("blake3".to_owned());
    features.push("fixed-chunk-resume".to_owned());
    features.push("tls-certificate-binding".to_owned());
    assert(views(features@) =~= agent_features());
    features
}

fn copy_bytes(bytes: &[u8]) -> (copy: Vec<u8>)
    ensures
        copy@ == bytes@,
{
    let mut copy: Vec<u8> = Vec::new();
    copy.extend_from_slice(bytes);
    assert(copy@ =~= bytes@);
    copy
}

/// The message of a device as a client: what it is, signed with its key.
pub open spec fn is_client_message(
    handshake: ClientHandshake,
    identity: DeviceIdentity,
    nonce: Seq<u8>,
    binding: Seq<u8>,
) -> bool {
    &&& handshake.protocol_version == PROTOCOL_VERSION
    &&& handshake.device_id == identity.spec_id()
    &&& handshake.device_name@ == identity.spec_name()
    &&& handshake.agent_version@ == AGENT_VERSION@
    &&& views(handshake.features@) == agent_features()
    &&& handshake.nonce@ == nonce
    &&& handshake.public_key@ == identity.spec_public_key()
    &&& handshake.tls_certificate_binding@ == binding
    &&& handshake.signature@ == ed25519_signature(
        identity.spec_secret_key(),
        client_transcript_of(handshake),
    )
}

/// The message of a device as a server, in answer to a client.
pub open spec fn is_server_message(
    client: ClientHandshake,
    handshake: ServerHandshake,
    identity: DeviceIdentity,
    nonce: Seq<u8>,
) -> bool {
    &&& handshake.protocol_version == PROTOCOL_VERSION
    &&& handshake.device_id == identity.spec_id()
    &&& handshake.device_name@ == identity.spec_name()
    &&& handshake.agent_version@ == AGENT_VERSION@
    &&& views(handshake.features@) == agent_features()
    &&& handshake.nonce@ == nonce
    &&& handshake.public_key@ == identity.spec_public_key()
    &&& handshake.tls_certificate_binding@ == identity.spec_fingerprint()
    &&& handshake.signature@ == ed25519_signature(
        identity.spec_secret_key(),
        server_transcript_of(client, handshake),
    )
}

proof fn lemma_client_signature_is_not_signed(a: ClientHandshake, b: ClientHandshake)
    requires
        b == (ClientHandshake { signature: b.signature, ..a }),
    ensures
        client_transcript_of(a) == client_transcript_of(b),
{
    assert(crate::auth::client_parts(a) =~= crate::auth::client_parts(b));
}

proof fn lemma_server_signature_is_not_signed(
    client: ClientHandshake,
    a: ServerHandshake,
    b: ServerHandshake,
)
    requires
        b == (ServerHandshake { signature: b.signature, ..a }),
    ensures
        server_transcript_of(client, a) == server_transcript_of(client, b),
{
    assert(crate::auth::server_parts(client, a) =~= crate::auth::server_parts(client, b));
}

/// The message with which a device opens a connection over a certificate, under
/// a given nonce.
pub fn client_handshake(identity: &DeviceIdentity, nonce: Vec<u8>, binding: &[u8; 32]) -> (
    handshake: ClientHandshake)
    ensures
        is_client_message(handshake, *identity, nonce@, binding@),
{
    let public_key = identity.public_key();
    let unsigned = ClientHandshake {
        protocol_version: PROTOCOL_VERSION,
        device_id: identity.id(),
        device_name: identity.name().to_owned(),
        agent_version: AGENT_VERSION.to_owned(),
        features: feature_list(),
        nonce,
        public_key: copy_bytes(&public_key),
        tls_certificate_binding: copy_bytes(binding),
        signature: Vec::new(),
    };
    let signature = identity.sign(&client_transcript(&unsigned));
    let ghost before = unsigned;
    let mut handshake = unsigned;
    handshake.signature = signature;
    proof {
        lemma_client_signature_is_not_signed(before, handshake);
    }
    handshake
}

/// The message with which a device opens a connection over a certificate.
pub fn new_client_handshake(identity: &DeviceIdentity, binding: &[u8; 32]) -> (handshake:
    ClientHandshake)
    ensures
        is_client_message(handshake, *identity, handshake.nonce@, binding@),
        handshake.nonce@.len() == 32,
{
    client_handshake(identity, fresh_nonce(), binding)
}

/// The answer of a device to a client, under a given nonce.
pub fn server_handshake(identity: &DeviceIdentity, nonce: Vec<u8>, client: &ClientHandshake) -> (
    handshake: ServerHandshake)
    ensures
        is_server_message(*client, handshake, *identity, nonce@),
{
    let public_key = identity.public_key();
    let fingerprint = identity.certificate_fingerprint();
    let unsigned = ServerHandshake {
        protocol_version: PROTOCOL_VERSION,
        device_id: identity.id(),
        device_name: identity.name().to_owned(),
        agent_version: AGENT_VERSION.to_owned(),
        features: feature_list(),
        nonce,
        public_key: copy_bytes(&public_key),
        tls_certificate_binding: copy_bytes(&fingerprint),
        signature: Vec::new(),
    };
    let signature = identity.sign(&server_transcript(client, &unsigned));
    let ghost before = unsigned;
    let mut handshake = unsigned;
    handshake.signature = signature;
    proof {
        lemma_server_signature_is_not_signed(*client, before, handshake);
    }
    handshake
}

/// The answer of a device to a client.
pub fn new_server_handshake(identity: &DeviceIdentity, client: &ClientHandshake) -> (handshake:
    ServerHandshake)
    ensures
        is_server_message(*client, handshake, *identity, handshake.nonce@),
        handshake.nonce@.len() == 32,
{
    server_handshake(identity, fresh_nonce(), client)
}

/// The error with which a rejected client ends.
pub open spec fn rejection_error(rejection: HandshakeRejection) -> TransferError {
    match rejection.reason {
        RejectionReason::ProtocolVersionMismatch { expected, received } =>
            TransferError::ProtocolVersionMismatch { expected, received },
        _ => TransferError::HandshakeRejected(rejection.message),
    }
}

/// Judges the answer of a server: it must have accepted the client, its message
/// must be right, and it must be the device that was expected, if any was.
pub fn accept_server(
    response: HandshakeResponse,
    client: &ClientHandshake,
    binding: &[u8; 32],
    expected_device_id: Option<Uuid>,
) -> (result: Result<(ServerHandshake, [u8; 32]), TransferError>)
    ensures
        match response {
            HandshakeResponse::Rejected(rejection) => result == Err::<
                (ServerHandshake, [u8; 32]),
                TransferError,
            >(rejection_error(rejection)),
            HandshakeResponse::Accepted(server) => {
                let fault = server_fault(*client, server, binding@);
                let foreign = expected_device_id matches Some(expected) && expected
                    != server.device_id;
                match result {
                    Ok((accepted, key)) => {
                        &&& fault is None && !foreign
                        &&& accepted == server
                        &&& key@ == server.public_key@
                    },
                    Err(error) => if fault is Some {
                        fault == Some(error)
                    } else {
                        foreign && error == auth_error(
                            AuthFault::WrongDevice {
                                connected: server.device_id,
                                expected: expected_device_id->0,
                            },
                        )
                    },
                }
            },
        },
{
    let server = match response {
        HandshakeResponse::Accepted(server) => server,
        HandshakeResponse::Rejected(rejection) => {
            return Err(
                match rejection.reason {
                    RejectionReason::ProtocolVersionMismatch { expected, received } =>
                        TransferError::ProtocolVersionMismatch { expected, received },
                    _ => TransferError::HandshakeRejected(rejection.message),
                },
            );
        },
    };
    let key = match validate_server_handshake(&server, client, binding) {
        Ok(key) => key,
        Err(error) => {
            return Err(error);
        },
    };
    if let Some(expected) = expected_device_id {
        if server.device_id != expected {
            return Err(
                TransferError::Authentication(
                    AuthFault::WrongDevice { connected: server.device_id, expected },
                ),
            );
        }
    }
    Ok((server, key))
}

/// Judges the message of a client.
pub fn accept_client(client: &ClientHandshake, identity: &DeviceIdentity) -> (result: Result<
    [u8; 32],
    TransferError,
>)
    ensures
        match result {
            Ok(key) => client_fault(*client, identity.spec_fingerprint()) is None && key@
                == client.public_key@,
            Err(error) => client_fault(*client, identity.spec_fingerprint()) == Some(error),
        },
{
    validate_client_handshake(client, &identity.certificate_fingerprint())
}

/// The answer to a client whose message is not accepted; `message` is how the
/// failure reads. A mismatch of versions has a text of its own.
pub fn reject_client(error: &TransferError, message: String) -> (rejection: HandshakeRejection)
    ensures
        rejection.reason == reason_for(*error),
        rejection.message@ == (match *error {
            TransferError::ProtocolVersionMismatch { expected, received } => version_mismatch_text(
                expected,
                received,
            ),
            _ => message@,
        }),
{
    match error {
        TransferError::ProtocolVersionMismatch { expected, received } => {
            HandshakeRejection::protocol_version_mismatch(*expected, *received)
        },
        _ => HandshakeRejection { reason: rejection_reason(error), message },
    }
}

/// The answer to a client whose key is not the one that was trusted; `message`
/// is how the failure reads.
pub fn reject_key(message: String) -> (rejection: HandshakeRejection)
    ensures
        rejection == (HandshakeRejection { reason: RejectionReason::InvalidPublicKey, message }),
{
    HandshakeRejection { reason: RejectionReason::InvalidPublicKey, message }
}

/// Whether a device with a key is trusted, given the key that is pinned of it.
pub open spec fn key_standing(device_id: Uuid, public_key: Seq<u8>, pinned: Option<Seq<u8>>) -> Result<
    bool,
    TransferError,
> {
    match pinned {
        None => Ok(false),
        Some(key) => if key == public_key {
            Ok(true)
        } else {
            Err(auth_error(AuthFault::TrustedKeyMismatch { device_id }))
        },
    }
}

/// Whether a device is trusted, given what is stored of it. One that is trusted
/// under another key is an impostor.
pub fn validate_trusted_key(device_id: Uuid, public_key: &[u8; 32], trusted: Option<&TrustedPeer>) -> (
    result: Result<bool, TransferError>)
    ensures
        result == key_standing(
            device_id,
            public_key@,
            match trusted {
                Some(peer) => Some(peer.public_key@),
                None => None,
            },
        ),
{
    match trusted {
        None => Ok(false),
        Some(peer) => {
            if same_bytes(&peer.public_key, public_key) {
                Ok(true)
            } else {
                Err(TransferError::Authentication(AuthFault::TrustedKeyMismatch { device_id }))
            }
        },
    }
}

/// The row of a device that was just met.
pub fn discovered_device(
    device_id: Uuid,
    name: &str,
    public_key: &[u8; 32],
    address: &str,
    now: i64,
) -> (device: DiscoveredDevice)
    ensures
        device.device_id == device_id,
        device.name@ == name@,
        device.public_key matches Some(key) && key@ == public_key@,
        device.address@ == address@,
        device.first_seen == now,
        device.last_seen == now,
{
    DiscoveredDevice {
        device_id,
        name: name.to_owned(),
        public_key: Some(copy_bytes(public_key)),
        address: address.to_owned(),
        first_seen: now,
        last_seen: now,
    }
}

/// The new row of a trusted peer that was just met: its name and address are
/// brought up to date, and since when it is trusted stays.
pub fn record_peer(
    device_id: Uuid,
    name: &str,
    public_key: &[u8; 32],
    address: &str,
    now: i64,
    existing: Option<&TrustedPeer>,
) -> (result: Result<Option<TrustedPeer>, TransferError>)
    ensures
        match (existing, result) {
            (None, Ok(None)) => true,
            (Some(known), Ok(Some(peer))) => {
                &&& known.public_key@ == public_key@
                &&& peer.device_id == device_id
                &&& peer.name@ == name@
                &&& peer.public_key@ == public_key@
                &&& peer.address@ == address@
                &&& peer.trusted_at == known.trusted_at
                &&& peer.last_seen == now
            },
            (Some(known), Err(error)) => known.public_key@ != public_key@ && error == auth_error(
                AuthFault::TrustedKeyMismatch { device_id },
            ),
            _ => false,
        },
{
    match existing {
        None => Ok(None),
        Some(known) => {
            if !same_bytes(&known.public_key, public_key) {
                return Err(
                    TransferError::Authentication(AuthFault::TrustedKeyMismatch { device_id }),
                );
            }
            Ok(
                Some(
                    TrustedPeer {
                        device_id,
                        name: name.to_owned(),
                        public_key: copy_bytes(public_key),
                        address: address.to_owned(),
                        trusted_at: known.trusted_at,
                        last_seen: now,
                    },
                ),
            )
        },
    }
}

/// The response in an envelope, if it is one: another version or an error that
/// the peer reports is a failure.
pub fn accept_response(frame: Versioned<Response>) -> (result: Result<Response, TransferError>)
    ensures
        if frame.protocol_version != PROTOCOL_VERSION {
            result == Err::<Response, TransferError>(
                TransferError::ProtocolVersionMismatch {
                    expected: PROTOCOL_VERSION,
                    received: frame.protocol_version,
                },
            )
        } else {
            match frame.payload {
                Response::Error(error) => result == Err::<Response, TransferError>(
                    TransferError::spec_from_remote(error),
                ),
                response => result == Ok::<Response, TransferError>(response),
            }
        },
{
    match frame.into_payload() {
        Ok(Response::Error(error)) => Err(TransferError::from(error)),
        Ok(response) => Ok(response),
        Err(ProtocolError::ProtocolVersionMismatch { expected, received }) => Err(
            TransferError::ProtocolVersionMismatch { expected, received },
        ),
        Err(other) => Err(TransferError::Protocol(other)),
    }
}

/// Judges the answer to a probe: it must repeat the number; `description` is
/// how the answer reads.
pub fn accept_probe(nonce: u64, response: &Response, description: String) -> (result: Result<
    (),
    TransferError,
>)
    ensures
        match *response {
            Response::Pong(pong) => if pong.nonce == nonce {
                result == Ok::<(), TransferError>(())
            } else {
                result == Err::<(), TransferError>(auth_error(AuthFault::ProbeNonceMismatch))
            },
            _ => result == Err::<(), TransferError>(
                TransferError::InvalidData(DataFault::UnexpectedResponse { description }),
            ),
        },
{
    match response {
        Response::Pong(pong) => {
            if pong.nonce == nonce {
                Ok(())
            } else {
                Err(TransferError::Authentication(AuthFault::ProbeNonceMismatch))
            }
        },
        _ => Err(TransferError::InvalidData(DataFault::UnexpectedResponse { description })),
    }
}

/// What a connection shows of its peer.
pub enum PeerCertificates {
    /// No certificate at all.
    Missing,
    /// Something that is no chain of certificates.
    Unknown,
    /// A chain of certificates, the peer's own first.
    Chain(Vec<Vec<u8>>),
}

/// The fingerprint of the certificate of a peer.
pub fn peer_certificate_fingerprint(certificates: &PeerCertificates) -> (result: Result<
    [u8; 32],
    TransferError,
>)
    ensures
        match (*certificates, result) {
            (PeerCertificates::Missing, Err(error)) => error == auth_error(
                AuthFault::NoCertificate,
            ),
            (PeerCertificates::Unknown, Err(error)) => error == auth_error(
                AuthFault::UnknownCertificateChain,
            ),
            (PeerCertificates::Chain(chain), Err(error)) => chain@.len() == 0 && error
                == auth_error(AuthFault::EmptyCertificateChain),
            (PeerCertificates::Chain(chain), Ok(fingerprint)) => chain@.len() > 0 && fingerprint@
                == blake3_digest(chain@[0]@),
            _ => false,
        },
{
    match certificates {
        PeerCertificates::Missing => Err(TransferError::Authentication(AuthFault::NoCertificate)),
        PeerCertificates::Unknown => Err(
            TransferError::Authentication(AuthFault::UnknownCertificateChain),
        ),
        PeerCertificates::Chain(chain) => {
            if chain.len() == 0 {
                Err(TransferError::Authentication(AuthFault::EmptyCertificateChain))
            } else {
                Ok(blake3_hash(&chain[0]))
            }
        },
    }
}

/// A peer that has proved who it is.
#[derive(Debug, Clone, PartialEq, Eq)]
pub struct PeerInfo {
    pub device_id: Uuid,
    pub device_name: String,
    pub public_key: [u8; 32],
    pub certificate_fingerprint: [u8; 32],
    pub address: String,
    pub agent_version: String,
    pub features: Vec<String>,
    pub trusted: bool,
}

proof fn lemma_agent_names(name: Seq<char>, agent_version: Seq<char>, features: Seq<String>)
    requires
        0 < name.len(),
        vstd::utf8::encode_utf8(name).len() <= crate::auth::MAX_IDENTITY_TEXT,
        agent_version == AGENT_VERSION@,
        views(features) == agent_features(),
    ensures
        has_plain_names(name, agent_version, features),
{
    reveal_strlit("0.1.0");
    reveal_strlit("blake3");
    reveal_strlit("fixed-chunk-resume");
    reveal_strlit("tls-certificate-binding");
    vstd::utf8::is_ascii_chars_encode_utf8(AGENT_VERSION@);
    vstd::utf8::is_ascii_chars_encode_utf8("blake3"@);
    vstd::utf8::is_ascii_chars_encode_utf8("fixed-chunk-resume"@);
    vstd::utf8::is_ascii_chars_encode_utf8("tls-certificate-binding"@);
    assert(views(features).len() == 3);
    assert forall|i: int| 0 <= i < features.len() implies vstd::utf8::encode_utf8(
        (#[trigger] features[i])@,
    ).len() <= crate::auth::MAX_IDENTITY_TEXT by {
        assert(views(features)[i] == features[i]@);
        assert(agent_features()[i] == features[i]@);
    }
}

/// A device that opens a connection is accepted by the server whose certificate
/// it saw, as long as its signature verifies.
pub proof fn law_honest_client_is_accepted(
    identity: DeviceIdentity,
    nonce: Seq<u8>,
    binding: Seq<u8>,
    handshake: ClientHandshake,
)
    requires
        identity.wf(),
        0 < identity.spec_name().len(),
        vstd::utf8::encode_utf8(identity.spec_name()).len() <= crate::auth::MAX_IDENTITY_TEXT,
        nonce.len() == 32,
        binding.len() == 32,
        is_client_message(handshake, identity, nonce, binding),
        crate::auth::signature_fault(
            identity.spec_id(),
            identity.spec_public_key(),
            handshake.signature@,
            client_transcript_of(handshake),
        ) is None,
    ensures
        client_fault(handshake, binding) is None,
{
    lemma_agent_names(identity.spec_name(), handshake.agent_version@, handshake.features@);
}

/// A server that answers is accepted by the client that sees its certificate,
/// as long as its signature verifies.
pub proof fn law_honest_server_is_accepted(
    identity: DeviceIdentity,
    nonce: Seq<u8>,
    client: ClientHandshake,
    handshake: ServerHandshake,
)
    requires
        identity.wf(),
        0 < identity.spec_name().len(),
        vstd::utf8::encode_utf8(identity.spec_name()).len() <= crate::auth::MAX_IDENTITY_TEXT,
        nonce.len() == 32,
        is_server_message(client, handshake, identity, nonce),
        crate::auth::signature_fault(
            identity.spec_id(),
            identity.spec_public_key(),
            handshake.signature@,
            server_transcript_of(client, handshake),
        ) is None,
    ensures
        server_fault(client, handshake, identity.spec_fingerprint()) is None,
{
    lemma_agent_names(identity.spec_name(), handshake.agent_version@, handshake.features@);
}

/// Over a connection with another certificate neither is accepted: what is
/// relayed to another server fails there, and so does a relayed answer at the
/// client.
pub proof fn law_relayed_handshake_is_rejected(
    client: ClientHandshake,
    answer: ServerHandshake,
    actual: Seq<u8>,
)
    ensures
        client.tls_certificate_binding@ != actual ==> client_fault(client, actual) is Some,
        answer.tls_certificate_binding@ != actual ==> server_fault(client, answer, actual) is Some,
{
}

/// A rejection by the peer is reported as it was meant: another version as a mismatch
/// with both versions, anything else with the peer's words.
pub proof fn law_rejections_are_reported(rejection: HandshakeRejection)
    ensures
        rejection_error(rejection) is ProtocolVersionMismatch
            <==> rejection.reason is ProtocolVersionMismatch,
        rejection.reason is ProtocolVersionMismatch ==> rejection_error(rejection)->expected
            == rejection.reason->expected && rejection_error(rejection)->received
            == rejection.reason->received,
        !(rejection.reason is ProtocolVersionMismatch) ==> rejection_error(rejection)
            == TransferError::HandshakeRejected(rejection.message),
{
}

/// A device is trusted exactly under the key that is pinned of it. Without a pin it is
/// not, and under any other key it is turned away.
pub proof fn law_trust_is_in_the_key(device_id: Uuid, public_key: Seq<u8>, pinned: Seq<u8>)
    ensures
        key_standing(device_id, public_key, None) == Ok::<bool, TransferError>(false),
        key_standing(device_id, public_key, Some(pinned)) == Ok::<bool, TransferError>(true)
            <==> public_key == pinned,
        key_standing(device_id, public_key, Some(pinned)) is Err <==> public_key != pinned,
        key_standing(device_id, public_key, Some(pinned)) matches Err(error) ==> error is Authentication
            && error->Authentication_0 is TrustedKeyMismatch && !error.spec_retryable(),
{
}

} // verus!
