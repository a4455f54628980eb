use fastsync::discovery::{
    decode_datagram, ensure_announcement_size, ensure_output_capacity, DatagramRejection,
    DiscoveryConfig, DiscoveryError, ReceiveState, MAX_DISCOVERY_PACKET_SIZE,
    MAX_RECEIVE_RETRY_MILLIS,
};
use fastsync::ids::Uuid;
use fastsync::protocol::{DiscoveryAnnouncement, Endpoint, IpAddress, PROTOCOL_VERSION};

fn announcement(device_id: &str) -> DiscoveryAnnouncement {
    DiscoveryAnnouncement {
        device_id: Uuid::parse(device_id).unwrap(),
        device_name: "test device".to_owned(),
        protocol_version: PROTOCOL_VERSION,
        port: 4010,
        http_port: 4011,
        agent_version: "test".to_owned(),
        features: vec!["sync".to_owned()],
    }
}

fn endpoint(octets: [u8; 4], port: u16) -> Endpoint {
    Endpoint {
        ip: IpAddress::V4(u32::from_be_bytes(octets)),
        port,
    }
}

const LOCAL: &str = "00000000-0000-4000-8000-000000000001";
const REMOTE: &str = "00000000-0000-4000-8000-000000000002";

#[test]
fn parses_json_and_uses_the_datagram_source_ip() {
    let local = announcement(LOCAL);
    let remote = announcement(REMOTE);
    let source = endpoint([192, 0, 2, 44], 55_555);
    let seen_at = 1_000;

    let peer = decode_datagram(200, source, Ok(remote.clone()), local.device_id, seen_at)
        .unwrap_or_else(|error| panic!("packet was unexpectedly rejected: {error:?}"));

    assert_eq!(peer.announcement, remote);
    assert_eq!(peer.transfer_addr, endpoint([192, 0, 2, 44], 4010));
    assert_eq!(peer.http_addr, endpoint([192, 0, 2, 44], 4011));
    assert_eq!(peer.last_seen, seen_at);
}

#[test]
fn ignores_own_device_id() {
    let local = announcement(LOCAL);
    let result = decode_datagram(
        200,
        endpoint([127, 0, 0, 1], 5000),
        Ok(local.clone()),
        local.device_id,
        0,
    );
    assert!(matches!(result, Err(DatagramRejection::OwnDevice)));
}

#[test]
fn rejects_incompatible_protocol_version() {
    let local = announcement(LOCAL);
    let mut remote = announcement(REMOTE);
    remote.protocol_version = PROTOCOL_VERSION.saturating_add(1);
    let expected = remote.protocol_version;
    let result = decode_datagram(
        200,
        endpoint([127, 0, 0, 1], 5000),
        Ok(remote),
        local.device_id,
        0,
    );
    assert!(matches!(
        result,
        Err(DatagramRejection::IncompatibleProtocol { received }) if received == expected
    ));
}

#[test]
fn rejects_malformed_and_oversized_packets() {
    let local = announcement(LOCAL);
    let source = endpoint([127, 0, 0, 1], 5000);
    let malformed = Err("expected ident".to_owned());
    assert!(matches!(
        decode_datagram(8, source, malformed.clone(), local.device_id, 0),
        Err(DatagramRejection::Malformed(_))
    ));
    assert!(matches!(
        decode_datagram(
            MAX_DISCOVERY_PACKET_SIZE + 1,
            source,
            malformed,
            local.device_id,
            0
        ),
        Err(DatagramRejection::Oversized)
    ));
    let six = Endpoint {
        ip: IpAddress::V6(1),
        port: 5000,
    };
    assert!(matches!(
        decode_datagram(8, six, Ok(announcement(REMOTE)), local.device_id, 0),
        Err(DatagramRejection::NonIpv4Source)
    ));
}

#[test]
fn peers_go_stale_after_their_lifetime() {
    let peer = decode_datagram(
        200,
        endpoint([192, 0, 2, 1], 1),
        Ok(announcement(REMOTE)),
        Uuid::from_u128(1),
        100,
    )
    .unwrap();
    assert!(!peer.is_stale(100, 30));
    assert!(!peer.is_stale(130, 30));
    assert!(peer.is_stale(131, 30));
}

#[test]
fn configurations_are_checked() {
    let good = DiscoveryConfig {
        bind_addr: endpoint([0, 0, 0, 0], 39_463),
        broadcast_addr: endpoint([255, 255, 255, 255], 39_463),
        announce_interval: 1,
        peer_ttl: 1,
    };
    assert_eq!(good.validate(), Ok(()));
    let six = Endpoint {
        ip: IpAddress::V6(1),
        port: 1,
    };
    assert_eq!(
        DiscoveryConfig {
            bind_addr: six,
            ..good
        }
        .validate(),
        Err(DiscoveryError::BindNotIpv4 { address: six })
    );
    assert_eq!(
        DiscoveryConfig {
            broadcast_addr: six,
            ..good
        }
        .validate(),
        Err(DiscoveryError::BroadcastNotIpv4 { address: six })
    );
    assert_eq!(
        DiscoveryConfig {
            announce_interval: 0,
            ..good
        }
        .validate(),
        Err(DiscoveryError::ZeroAnnounceInterval)
    );
    assert_eq!(
        DiscoveryConfig {
            peer_ttl: 0,
            ..good
        }
        .validate(),
        Err(DiscoveryError::ZeroPeerTtl)
    );
    assert_eq!(ensure_announcement_size(65_507), Ok(()));
    assert_eq!(
        ensure_announcement_size(65_508),
        Err(DiscoveryError::AnnouncementTooLarge {
            size: 65_508,
            max: 65_507
        })
    );
    assert_eq!(ensure_output_capacity(8, 8), Ok(()));
    assert_eq!(
        ensure_output_capacity(0, 8),
        Err(DiscoveryError::ZeroOutputCapacity)
    );
    assert_eq!(
        ensure_output_capacity(9, 8),
        Err(DiscoveryError::OutputCapacityTooLarge {
            capacity: 9,
            max: 8
        })
    );
}

#[test]
fn failed_receives_wait_longer_up_to_a_bound() {
    let mut state = ReceiveState::new();
    assert_eq!(state.failed(), 50);
    assert_eq!(state.failed(), 100);
    for _ in 0..10 {
        assert!(state.failed() <= MAX_RECEIVE_RETRY_MILLIS);
    }
    assert_eq!(state.failed(), 1_000);
    state.received();
    assert_eq!(state.failed(), 50);
    assert!(state.is_output_open());
    state.output_closed();
    assert!(!state.is_output_open());
}
