use fastsync::auth::{
    append_features, append_field, array_32, client_transcript, rejection_reason,
    validate_client_handshake, verify_identity_signature,
};
use fastsync::devices::validated_public_key;
use fastsync::error::{AuthFault, TransferError};
use fastsync::identity::{
    device_id_from_public_key, fresh_nonce, fresh_probe, DeviceIdentity, StoredIdentity,
};
use fastsync::ids::Uuid;
use fastsync::protocol::{HandshakeResponse, RejectionReason, Versioned, PROTOCOL_VERSION};
use fastsync::records::TrustedPeer;
use fastsync::session::{
    accept_client, accept_probe, accept_response, accept_server, client_handshake,
    discovered_device, new_client_handshake, new_server_handshake, peer_certificate_fingerprint,
    record_peer, reject_client, reject_key, server_handshake, validate_trusted_key,
    PeerCertificates,
};
use fastsync::stream::{PongResponse, RemoteError, RemoteErrorCode, Response};

fn nothing_stored() -> StoredIdentity {
    StoredIdentity {
        signing_key: None,
        certificate: None,
        private_key: None,
    }
}

fn identity(name: &str) -> DeviceIdentity {
    DeviceIdentity::load_or_create(nothing_stored(), name.to_owned())
        .0
        .ok()
        .unwrap()
}

#[test]
fn identity_is_persistent_and_uuid_is_well_formed() {
    let (first, changes) = DeviceIdentity::load_or_create(nothing_stored(), "first".to_owned());
    let first = first.ok().unwrap();
    let (certificate, private_key) = changes.certificate.unwrap();
    let stored = StoredIdentity {
        signing_key: Some(changes.signing_key.unwrap().to_vec()),
        certificate: Some(certificate),
        private_key: Some(private_key),
    };
    let (second, changes) = DeviceIdentity::load_or_create(stored, "renamed".to_owned());
    let second = second.ok().unwrap();

    assert_eq!(first.id(), second.id());
    assert_eq!(first.public_key(), second.public_key());
    assert_eq!(
        first.certificate_fingerprint(),
        second.certificate_fingerprint()
    );
    assert!(!first.tls_certificate_der().is_empty());
    assert!(!first.tls_private_key_der().is_empty());
    assert_eq!(first.tls_certificate_der(), second.tls_certificate_der());
    assert_eq!(first.tls_private_key_der(), second.tls_private_key_der());
    assert_eq!(second.id().to_bytes()[6] >> 4, 8);
    assert_eq!(second.id().to_bytes()[8] & 0xc0, 0x80);
    assert_eq!(second.name(), "renamed");
    assert!(changes.signing_key.is_none());
    assert!(changes.certificate.is_none());
    assert_eq!(
        second.cert_fingerprint(),
        *blake3::hash(second.tls_certificate_der()).as_bytes()
    );
}

#[test]
fn a_certificate_that_cannot_be_made_is_reported() {
    let (failed, changes) = DeviceIdentity::with_certificate(
        "x".to_owned(),
        [7; 32],
        Some([7; 32]),
        Err("no entropy".to_owned()),
    );
    assert!(matches!(failed, Err(TransferError::Tls(reason)) if reason == "no entropy"));
    assert_eq!(changes.signing_key, Some([7; 32]));
    assert_eq!(changes.certificate, None);
    let (identity, changes) = DeviceIdentity::with_certificate(
        "x".to_owned(),
        [7; 32],
        Some([7; 32]),
        Ok((vec![1, 2], vec![3])),
    );
    let identity = identity.ok().unwrap();
    assert_eq!(identity.tls_certificate_der(), [1, 2]);
    assert_eq!(identity.tls_private_key_der(), [3]);
    assert_eq!(changes.signing_key, Some([7; 32]));
    assert_eq!(changes.certificate, Some((vec![1, 2], vec![3])));
}

#[test]
fn a_damaged_stored_key_is_refused() {
    let stored = StoredIdentity {
        signing_key: Some(vec![1; 31]),
        certificate: None,
        private_key: None,
    };
    assert!(matches!(
        DeviceIdentity::load_or_create(stored, "x".to_owned()),
        (Err(TransferError::Identity(_)), changes) if changes.signing_key.is_none()
    ));
}

#[test]
fn identifiers_of_keys_do_not_repeat_the_key() {
    let id = device_id_from_public_key(&[5; 32]);
    let digest = blake3::hash(&[5; 32]);
    let mut expected: [u8; 16] = digest.as_bytes()[..16].try_into().unwrap();
    expected[6] = (expected[6] & 0x0f) | 0x80;
    expected[8] = (expected[8] & 0x3f) | 0x80;
    assert_eq!(id.to_bytes(), expected);
    assert_ne!(id, device_id_from_public_key(&[6; 32]));
}

#[test]
fn public_key_must_derive_the_claimed_device_id() {
    let identity = identity("peer");
    let public_key = identity.public_key();
    assert_eq!(
        validated_public_key(identity.id(), Some(&public_key)),
        Some(public_key)
    );
    assert_eq!(validated_public_key(Uuid::nil(), Some(&public_key)), None);
    assert_eq!(validated_public_key(identity.id(), None), None);
    assert_eq!(
        validated_public_key(identity.id(), Some(&public_key[..31])),
        None
    );
}

#[test]
fn honest_devices_accept_each_other() {
    let client = identity("client");
    let server = identity("server");
    let binding = server.certificate_fingerprint();
    let hello = new_client_handshake(&client, &binding);
    assert_eq!(hello.device_id, client.id());
    assert_eq!(hello.nonce.len(), 32);
    assert_eq!(accept_client(&hello, &server), Ok(client.public_key()));

    let reply = new_server_handshake(&server, &hello);
    let (accepted, key) = accept_server(
        HandshakeResponse::Accepted(reply.clone()),
        &hello,
        &binding,
        Some(server.id()),
    )
    .unwrap();
    assert_eq!(accepted, reply);
    assert_eq!(key, server.public_key());

    assert!(matches!(
        accept_server(
            HandshakeResponse::Accepted(reply.clone()),
            &hello,
            &binding,
            Some(client.id())
        ),
        Err(TransferError::Authentication(AuthFault::WrongDevice { .. }))
    ));
    let other = client_handshake(&client, vec![9; 32], &binding);
    assert!(matches!(
        accept_server(HandshakeResponse::Accepted(reply), &other, &binding, None),
        Err(TransferError::Authentication(
            AuthFault::InvalidSignature { .. }
        ))
    ));
}

#[test]
fn a_relayed_handshake_is_rejected() {
    let client = identity("client");
    let server = identity("server");
    let relay = identity("relay");
    let hello = new_client_handshake(&client, &relay.certificate_fingerprint());
    let error = accept_client(&hello, &server).err().unwrap();
    assert_eq!(
        error,
        TransferError::Authentication(AuthFault::ChannelBindingMismatch)
    );
    assert_eq!(
        reject_client(&error, "no".to_owned()).reason,
        rejection_reason(&error)
    );
    assert_eq!(
        rejection_reason(&error),
        RejectionReason::TlsCertificateBindingMismatch
    );
    let reply = new_server_handshake(&server, &hello);
    assert_eq!(
        accept_server(
            HandshakeResponse::Accepted(reply),
            &hello,
            &relay.certificate_fingerprint(),
            None
        ),
        Err(TransferError::Authentication(AuthFault::ChannelBindingMismatch))
    );
}

#[test]
fn handshake_fields_are_checked() {
    let client = identity("client");
    let binding = [7; 32];
    let hello = client_handshake(&client, vec![1; 32], &binding);
    assert!(validate_client_handshake(&hello, &binding).is_ok());

    let mut changed = hello.clone();
    changed.protocol_version = PROTOCOL_VERSION + 1;
    assert!(matches!(
        validate_client_handshake(&changed, &binding),
        Err(TransferError::ProtocolVersionMismatch { .. })
    ));
    let mut changed = hello.clone();
    changed.device_name = String::new();
    assert_eq!(
        validate_client_handshake(&changed, &binding),
        Err(TransferError::Authentication(
            AuthFault::InvalidIdentityFields
        ))
    );
    let mut changed = hello.clone();
    changed.nonce.pop();
    assert_eq!(
        validate_client_handshake(&changed, &binding),
        Err(TransferError::Authentication(AuthFault::InvalidFieldLength))
    );
    let mut changed = hello.clone();
    changed.device_id = Uuid::from_u128(1);
    assert_eq!(
        validate_client_handshake(&changed, &binding),
        Err(TransferError::Authentication(AuthFault::UnderivedDeviceId))
    );
    let mut changed = hello.clone();
    changed.device_name.push('!');
    assert!(matches!(
        validate_client_handshake(&changed, &binding),
        Err(TransferError::Authentication(
            AuthFault::InvalidSignature { .. }
        ))
    ));
    let mut changed = hello;
    changed.signature.pop();
    assert_eq!(
        validate_client_handshake(&changed, &binding),
        Err(TransferError::Authentication(AuthFault::MalformedSignature))
    );
    assert_eq!(
        array_32(&[0; 31]),
        Err(TransferError::Authentication(AuthFault::KeyLength))
    );
}

#[test]
fn signatures_are_checked_against_the_message() {
    let signer = identity("signer");
    let signature = signer.sign(b"message");
    assert_eq!(signature.len(), 64);
    let key = signer.public_key();
    assert_eq!(
        verify_identity_signature(signer.id(), &key, &signature, b"message"),
        Ok(())
    );
    assert!(verify_identity_signature(signer.id(), &key, &signature, b"other").is_err());
    let other = identity("other").public_key();
    assert!(verify_identity_signature(signer.id(), &other, &signature, b"message").is_err());
}

#[test]
fn transcripts_frame_every_field() {
    let mut transcript = Vec::new();
    append_field(&mut transcript, b"ab");
    assert_eq!(transcript, vec![0, 0, 0, 0, 0, 0, 0, 2, 97, 98]);
    let mut transcript = Vec::new();
    append_features(&mut transcript, &["x".to_owned()]);
    assert_eq!(
        transcript,
        vec![0, 0, 0, 0, 0, 0, 0, 1, 0, 0, 0, 0, 0, 0, 0, 1, 120]
    );
    let client = identity("client");
    let first = client_handshake(&client, vec![1; 32], &[7; 32]);
    let second = client_handshake(&client, vec![2; 32], &[7; 32]);
    assert_ne!(client_transcript(&first), client_transcript(&second));
    assert_eq!(first.signature, client.sign(&client_transcript(&first)));
}

#[test]
fn random_values_are_drawn_anew() {
    let nonce = fresh_nonce();
    assert_eq!(nonce.len(), 32);
    assert_ne!(nonce, fresh_nonce());
    assert_ne!(fresh_probe(), fresh_probe());
    assert_ne!(Uuid::new_v4(), Uuid::new_v4());
    assert_ne!(identity("a").public_key(), identity("b").public_key());
}

fn trusted(key: Vec<u8>) -> TrustedPeer {
    TrustedPeer {
        device_id: Uuid::from_u128(4),
        name: "old name".to_owned(),
        public_key: key,
        address: "192.0.2.1:1".to_owned(),
        trusted_at: 10,
        last_seen: 20,
    }
}

#[test]
fn a_pinned_key_must_stay_the_same() {
    let id = Uuid::from_u128(4);
    assert_eq!(validate_trusted_key(id, &[1; 32], None), Ok(false));
    assert_eq!(
        validate_trusted_key(id, &[1; 32], Some(&trusted(vec![1; 32]))),
        Ok(true)
    );
    let refused = Err(TransferError::Authentication(
        AuthFault::TrustedKeyMismatch { device_id: id },
    ));
    assert_eq!(
        validate_trusted_key(id, &[1; 32], Some(&trusted(vec![2; 32]))),
        refused
    );
    let recorded = record_peer(
        id,
        "new name",
        &[1; 32],
        "192.0.2.9:9",
        30,
        Some(&trusted(vec![1; 32])),
    )
    .unwrap()
    .unwrap();
    assert_eq!(recorded.name, "new name");
    assert_eq!(recorded.address, "192.0.2.9:9");
    assert_eq!((recorded.trusted_at, recorded.last_seen), (10, 30));
    assert_eq!(
        record_peer(id, "n", &[1; 32], "a", 30, None),
        Ok(None)
    );
    let device = discovered_device(id, "n", &[1; 32], "a", 30);
    assert_eq!(device.public_key, Some(vec![1; 32]));
    assert_eq!((device.first_seen, device.last_seen), (30, 30));
}

#[test]
fn replies_are_accepted_only_in_the_own_version() {
    let pong = Response::Pong(PongResponse { nonce: 5 });
    assert_eq!(
        accept_response(Versioned::new(pong.clone())),
        Ok(pong.clone())
    );
    assert!(accept_response(Versioned {
        protocol_version: PROTOCOL_VERSION + 1,
        payload: pong.clone(),
    })
    .is_err());
    let error = Response::Error(RemoteError {
        code: RemoteErrorCode::Conflict,
        message: "busy".to_owned(),
        retryable: true,
        job_id: None,
        path: Some("a".to_owned()),
    });
    let refused = accept_response(Versioned::new(error)).err().unwrap();
    assert!(refused.is_retryable());
    assert_eq!(refused.remote_path().as_deref(), Some("a"));

    assert_eq!(accept_probe(5, &pong, String::new()), Ok(()));
    assert_eq!(
        accept_probe(6, &pong, String::new()),
        Err(TransferError::Authentication(AuthFault::ProbeNonceMismatch))
    );
}

#[test]
fn certificates_are_fingerprinted() {
    let chain = PeerCertificates::Chain(vec![vec![1, 2, 3], vec![4]]);
    assert_eq!(
        peer_certificate_fingerprint(&chain),
        Ok(*blake3::hash(&[1, 2, 3]).as_bytes())
    );
    assert_eq!(
        peer_certificate_fingerprint(&PeerCertificates::Missing),
        Err(TransferError::Authentication(AuthFault::NoCertificate))
    );
    assert_eq!(
        peer_certificate_fingerprint(&PeerCertificates::Unknown),
        Err(TransferError::Authentication(
            AuthFault::UnknownCertificateChain
        ))
    );
    assert_eq!(
        peer_certificate_fingerprint(&PeerCertificates::Chain(vec![])),
        Err(TransferError::Authentication(
            AuthFault::EmptyCertificateChain
        ))
    );
}

#[test]
fn rejections_name_their_reason() {
    assert_eq!(
        reject_key("changed".to_owned()).reason,
        RejectionReason::InvalidPublicKey
    );
    assert_eq!(
        rejection_reason(&TransferError::ProtocolVersionMismatch {
            expected: 2,
            received: 1
        }),
        RejectionReason::ProtocolVersionMismatch {
            expected: 2,
            received: 1
        }
    );
    let server = identity("server");
    let client = identity("client");
    let hello = new_client_handshake(&client, &server.certificate_fingerprint());
    let reply = server_handshake(&server, vec![3; 32], &hello);
    assert_eq!(reply.nonce, vec![3; 32]);
    let rejection = reject_key("changed".to_owned());
    assert!(matches!(
        accept_server(
            HandshakeResponse::Rejected(rejection),
            &hello,
            &server.certificate_fingerprint(),
            None
        ),
        Err(TransferError::HandshakeRejected(_))
    ));
}
