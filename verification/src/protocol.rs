//! The version of the protocol, and the messages with which devices meet.

use crate::error::ProtocolError;
use crate::ids::Uuid;
use crate::text::{decimal, to_decimal};
use vstd::prelude::*;

verus! {

/// The only protocol version that is spoken.
pub const PROTOCOL_VERSION: u16 = 2;

/// The agent version that is advertised.
pub const AGENT_VERSION: &'static str = "0.1.0";

/// Rejects protocol versions other than [`PROTOCOL_VERSION`].
pub fn validate_protocol_version(received: u16) -> (result: Result<(), ProtocolError>)
    ensures
        match result {
            Ok(_) => received == PROTOCOL_VERSION,
            Err(error) => received != PROTOCOL_VERSION && error == (
            ProtocolError::ProtocolVersionMismatch { expected: PROTOCOL_VERSION, received }),
        },
{
    if received == PROTOCOL_VERSION {
        Ok(())
    } else {
        Err(ProtocolError::ProtocolVersionMismatch { expected: PROTOCOL_VERSION, received })
    }
}

/// An explicitly versioned logical message.
#[derive(Debug, Clone, PartialEq, Eq)]
pub struct Versioned<T> {
    pub protocol_version: u16,
    pub payload: T,
}

impl<T> Versioned<T> {
    /// Wraps a payload in an envelope of the current version.
    pub fn new(payload: T) -> (envelope: Self)
        ensures
            envelope == (Versioned { protocol_version: PROTOCOL_VERSION, payload }),
    {
        Versioned { protocol_version: PROTOCOL_VERSION, payload }
    }

    /// Checks that the envelope has a version that is spoken here.
    pub fn validate(&self) -> (result: Result<(), ProtocolError>)
        ensures
            match result {
                Ok(_) => self.protocol_version == PROTOCOL_VERSION,
                Err(error) => self.protocol_version != PROTOCOL_VERSION && error == (
                ProtocolError::ProtocolVersionMismatch {
                    expected: PROTOCOL_VERSION,
                    received: self.protocol_version,
                }),
            },
    {
        validate_protocol_version(self.protocol_version)
    }

    /// Validates the envelope and returns its payload.
    pub fn into_payload(self) -> (result: Result<T, ProtocolError>)
        ensures
            match result {
                Ok(payload) => self.protocol_version == PROTOCOL_VERSION && payload == self.payload,
                Err(error) => self.protocol_version != PROTOCOL_VERSION && error == (
                ProtocolError::ProtocolVersionMismatch {
                    expected: PROTOCOL_VERSION,
                    received: self.protocol_version,
                }),
            },
    {
        match self.validate() {
            Ok(_) => Ok(self.payload),
            Err(error) => Err(error),
        }
    }
}

/// The first authenticated message sent by a client.
#[derive(Debug, Clone, PartialEq, Eq)]
pub struct ClientHandshake {
    pub protocol_version: u16,
    pub device_id: Uuid,
    pub device_name: String,
    pub agent_version: String,
    pub features: Vec<String>,
    pub nonce: Vec<u8>,
    pub public_key: Vec<u8>,
    pub tls_certificate_binding: Vec<u8>,
    pub signature: Vec<u8>,
}

/// The authenticated handshake returned by an accepting server.
#[derive(Debug, Clone, PartialEq, Eq)]
pub struct ServerHandshake {
    pub protocol_version: u16,
    pub device_id: Uuid,
    pub device_name: String,
    pub agent_version: String,
    pub features: Vec<String>,
    pub nonce: Vec<u8>,
    pub public_key: Vec<u8>,
    pub tls_certificate_binding: Vec<u8>,
    pub signature: Vec<u8>,
}

/// A server's answer to a client handshake.
#[derive(Debug, Clone, PartialEq, Eq)]
pub enum HandshakeResponse {
    Accepted(ServerHandshake),
    Rejected(HandshakeRejection),
}

#[derive(Debug, Clone, PartialEq, Eq)]
pub struct HandshakeRejection {
    pub reason: RejectionReason,
    pub message: String,
}

/// Machine-readable reasons for rejecting a handshake.
#[derive(Debug, Clone, PartialEq, Eq)]
pub enum RejectionReason {
    ProtocolVersionMismatch { expected: u16, received: u16 },
    InvalidSignature,
    InvalidPublicKey,
    TlsCertificateBindingMismatch,
    UntrustedDevice,
    MalformedHandshake,
    Other { code: String },
}

/// How a mismatch of versions reads.
pub open spec fn version_mismatch_text(expected: u16, received: u16) -> Seq<char> {
    "protocol version mismatch: expected "@ + decimal(expected as nat) + ", received "@ + decimal(
        received as nat,
    )
}

impl HandshakeRejection {
    pub fn protocol_version_mismatch(expected: u16, received: u16) -> (rejection: Self)
        ensures
            rejection.reason == (RejectionReason::ProtocolVersionMismatch { expected, received }),
            rejection.message@ == version_mismatch_text(expected, received),
    {
        let mut message = "protocol version mismatch: expected ".to_owned();
        message.append(to_decimal(expected as u64).as_str());
        message.append(", received ");
        message.append(to_decimal(received as u64).as_str());
        HandshakeRejection {
            reason: RejectionReason::ProtocolVersionMismatch { expected, received },
            message,
        }
    }
}

/// The address of a host.
#[derive(Debug, Clone, Copy, PartialEq, Eq, Structural)]
pub enum IpAddress {
    V4(u32),
    V6(u128),
}

/// A port of a host.
#[derive(Debug, Clone, Copy, PartialEq, Eq, Structural)]
pub struct Endpoint {
    pub ip: IpAddress,
    pub port: u16,
}

/// A LAN discovery announcement.
///
/// The transfer endpoint is formed from the datagram's source address and
/// `port`; an address inside an announcement would not be trusted.
#[derive(Debug, Clone, PartialEq, Eq)]
pub struct DiscoveryAnnouncement {
    pub device_id: Uuid,
    pub device_name: String,
    pub protocol_version: u16,
    pub port: u16,
    pub http_port: u16,
    pub agent_version: String,
    pub features: Vec<String>,
}

impl DiscoveryAnnouncement {
    pub fn new(
        device_id: Uuid,
        device_name: String,
        port: u16,
        http_port: u16,
        features: Vec<String>,
    ) -> (announcement: Self)
        ensures
            announcement.device_id == device_id,
            announcement.device_name == device_name,
            announcement.protocol_version == PROTOCOL_VERSION,
            announcement.port == port,
            announcement.http_port == http_port,
            announcement.agent_version@ == AGENT_VERSION@,
            announcement.features == features,
    {
        DiscoveryAnnouncement {
            device_id,
            device_name,
            protocol_version: PROTOCOL_VERSION,
            port,
            http_port,
            agent_version: AGENT_VERSION.to_owned(),
            features,
        }
    }

    /// Combines the trusted datagram source address with the advertised sync
    /// port.
    pub fn transfer_address(&self, source_ip: IpAddress) -> (endpoint: Endpoint)
        ensures
            endpoint == (Endpoint { ip: source_ip, port: self.port }),
    {
        Endpoint { ip: source_ip, port: self.port }
    }

    /// Combines the trusted datagram source address with the advertised HTTP
    /// port.
    pub fn http_address(&self, source_ip: IpAddress) -> (endpoint: Endpoint)
        ensures
            endpoint == (Endpoint { ip: source_ip, port: self.http_port }),
    {
        Endpoint { ip: source_ip, port: self.http_port }
    }
}

/// Wrapping and unwrapping gives the payload back.
pub proof fn law_versioned_roundtrip<T>(payload: T)
    ensures
        (Versioned { protocol_version: PROTOCOL_VERSION, payload }).protocol_version
            == PROTOCOL_VERSION,
        (Versioned { protocol_version: PROTOCOL_VERSION, payload }).payload == payload,
{
}

} // verus!
