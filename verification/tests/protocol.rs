use fastsync::error::ProtocolError;
use fastsync::frame::{
    decode_frame, encode_frame, ensure_consumed, ensure_frame_size, frame_length, FrameReader,
    MAX_FRAME_SIZE,
};
use fastsync::ids::Uuid;
use fastsync::protocol::{
    validate_protocol_version, DiscoveryAnnouncement, Endpoint, HandshakeRejection, IpAddress,
    RejectionReason, Versioned, AGENT_VERSION, PROTOCOL_VERSION,
};
use fastsync::stream::{
    request_job_id, request_path, ChunkHeader, CompleteJobRequest, PingRequest, Request,
};

#[test]
fn versioned_payload_rejects_an_unknown_version() {
    let frame = Versioned {
        protocol_version: PROTOCOL_VERSION + 1,
        payload: (),
    };
    let error = frame.into_payload().err().unwrap();

    assert!(matches!(
        error,
        ProtocolError::ProtocolVersionMismatch {
            expected: PROTOCOL_VERSION,
            received
        } if received == PROTOCOL_VERSION + 1
    ));
}

#[test]
fn a_wrapped_payload_comes_back() {
    let envelope = Versioned::new(41_u8);
    assert_eq!(envelope.protocol_version, PROTOCOL_VERSION);
    assert_eq!(envelope.validate(), Ok(()));
    assert_eq!(envelope.into_payload(), Ok(41));
    assert_eq!(validate_protocol_version(PROTOCOL_VERSION), Ok(()));
    assert!(validate_protocol_version(0).is_err());
}

#[test]
fn frame_length_prefix_is_big_endian() {
    let frame = encode_frame(&[0xf6]).unwrap();
    assert_eq!(&frame[..4], &[0, 0, 0, 1]);
    let frame = encode_frame(&[7; 258]).unwrap();
    assert_eq!(&frame[..4], &[0, 0, 1, 2]);
    assert_eq!(frame_length(258), Ok(258));
}

#[test]
fn raw_chunk_bytes_remain_after_the_header_frame() {
    let header = [9_u8, 8, 7];
    let raw = [1_u8, 2, 3, 4];
    let mut stream = encode_frame(&header).unwrap();
    stream.extend_from_slice(&raw);

    let mut reader = FrameReader::new(MAX_FRAME_SIZE);
    let mut position = 0;
    while reader.wanted() > 0 {
        let end = position + reader.wanted();
        reader.absorb(&stream[position..end]).unwrap();
        position = end;
    }
    assert_eq!(reader.finish(), header);
    assert_eq!(&stream[position..], &raw);
}

#[test]
fn write_rejects_oversized_frame() {
    let oversized = vec![0_u8; MAX_FRAME_SIZE + 1];
    assert!(matches!(
        encode_frame(&oversized),
        Err(ProtocolError::FrameTooLarge { .. })
    ));
    assert_eq!(ensure_frame_size(MAX_FRAME_SIZE), Ok(()));
}

#[test]
fn read_rejects_oversized_declared_length() {
    let length = u32::try_from(MAX_FRAME_SIZE + 1).unwrap();
    let mut reader = FrameReader::new(MAX_FRAME_SIZE);
    assert_eq!(reader.wanted(), 4);
    assert!(matches!(
        reader.absorb(&length.to_be_bytes()),
        Err(ProtocolError::FrameTooLarge { .. })
    ));
}

#[test]
fn read_applies_a_smaller_caller_limit_before_allocating() {
    let mut reader = FrameReader::new(64);
    assert!(matches!(
        reader.absorb(&65_u32.to_be_bytes()),
        Err(ProtocolError::FrameTooLarge {
            size: 65,
            maximum: 64
        })
    ));
}

#[test]
fn truncated_prefix_and_payload_are_reported() {
    let mut reader = FrameReader::new(MAX_FRAME_SIZE);
    reader.absorb(&[0, 0]).unwrap();
    assert!(matches!(
        reader.absorb(&[]),
        Err(ProtocolError::TruncatedLengthPrefix { received: 2 })
    ));

    let mut reader = FrameReader::new(MAX_FRAME_SIZE);
    reader.absorb(&10_u32.to_be_bytes()).unwrap();
    reader.absorb(&[1, 2, 3]).unwrap();
    assert_eq!(reader.wanted(), 7);
    assert!(matches!(
        reader.absorb(&[]),
        Err(ProtocolError::TruncatedFrame {
            expected: 10,
            received: 3
        })
    ));
}

#[test]
fn a_decoded_frame_is_the_encoded_payload() {
    let frame = encode_frame(&[1, 2, 3]).unwrap();
    assert_eq!(decode_frame(&frame), Ok(vec![1, 2, 3]));
    assert!(matches!(
        decode_frame(&frame[..3]),
        Err(ProtocolError::TruncatedLengthPrefix { received: 3 })
    ));
    assert!(matches!(
        decode_frame(&frame[..6]),
        Err(ProtocolError::TruncatedFrame {
            expected: 3,
            received: 2
        })
    ));
    let mut longer = frame.clone();
    longer.push(0);
    assert!(matches!(
        decode_frame(&longer),
        Err(ProtocolError::TrailingFrameData { extra: 1 })
    ));
    assert_eq!(ensure_consumed(3, 3), Ok(()));
    assert_eq!(
        ensure_consumed(2, 5),
        Err(ProtocolError::TrailingCborData { remaining: 3 })
    );
}

#[test]
fn protocol_version_rejection_names_both_versions() {
    let rejection = HandshakeRejection::protocol_version_mismatch(PROTOCOL_VERSION, 2);
    assert_eq!(
        rejection.reason,
        RejectionReason::ProtocolVersionMismatch {
            expected: PROTOCOL_VERSION,
            received: 2
        }
    );
    assert_eq!(
        rejection.message,
        "protocol version mismatch: expected 2, received 2"
    );
    assert_eq!(
        HandshakeRejection::protocol_version_mismatch(PROTOCOL_VERSION, 17).message,
        "protocol version mismatch: expected 2, received 17"
    );
}

#[test]
fn announcements_take_the_address_of_their_sender() {
    let announcement =
        DiscoveryAnnouncement::new(Uuid::from_u128(5), "desk".to_owned(), 4010, 4011, vec![]);
    assert_eq!(announcement.protocol_version, PROTOCOL_VERSION);
    assert_eq!(announcement.agent_version, AGENT_VERSION);
    let source = IpAddress::V4(0xc000_022c);
    assert_eq!(
        announcement.transfer_address(source),
        Endpoint {
            ip: source,
            port: 4010
        }
    );
    assert_eq!(announcement.http_address(source).port, 4011);
}

#[test]
fn requests_name_their_job_and_path() {
    let header = ChunkHeader {
        job_id: Uuid::from_u128(3),
        manifest_id: Uuid::from_u128(30),
        path: "payload.bin".to_owned(),
        index: 0,
        offset: 0,
        size: 4,
        hash: [7; 32],
    };
    let upload = Request::UploadChunk(header);
    assert_eq!(request_job_id(&upload), Some(Uuid::from_u128(3)));
    assert_eq!(request_path(&upload).as_deref(), Some("payload.bin"));
    let complete = Request::CompleteJob(CompleteJobRequest {
        job_id: Uuid::from_u128(4),
        manifest_id: Uuid::from_u128(40),
    });
    assert_eq!(request_job_id(&complete), Some(Uuid::from_u128(4)));
    assert_eq!(request_path(&complete), None);
    let ping = Request::Ping(PingRequest { nonce: 1 });
    assert_eq!(request_job_id(&ping), None);
}
