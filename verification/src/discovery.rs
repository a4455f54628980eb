//! Finding peers on the local network.

use crate::ids::Uuid;
use crate::protocol::{DiscoveryAnnouncement, Endpoint, IpAddress, PROTOCOL_VERSION};
use vstd::prelude::*;

verus! {

/// The largest discovery payload accepted or sent: the largest that fits an
/// IPv4 datagram.
pub const MAX_DISCOVERY_PACKET_SIZE: usize = 65_507;

pub const INITIAL_RECEIVE_RETRY_MILLIS: u64 = 50;

pub const MAX_RECEIVE_RETRY_MILLIS: u64 = 1_000;

/// Network and timing configuration for discovery; times are in nanoseconds.
#[derive(Debug, Clone, Copy, PartialEq, Eq, Structural)]
pub struct DiscoveryConfig {
    /// Local address on which announcements are received.
    pub bind_addr: Endpoint,
    /// Broadcast destination. A unicast address is also valid, which is useful
    /// for constrained networks.
    pub broadcast_addr: Endpoint,
    /// Time between outgoing announcements.
    pub announce_interval: u128,
    /// Maximum age of a peer update that is still delivered.
    pub peer_ttl: u128,
}

/// What keeps a discovery service from starting.
#[derive(Debug, Clone, PartialEq, Eq)]
pub enum DiscoveryError {
    BindNotIpv4 { address: Endpoint },
    BroadcastNotIpv4 { address: Endpoint },
    ZeroAnnounceInterval,
    ZeroPeerTtl,
    ZeroOutputCapacity,
    OutputCapacityTooLarge { capacity: usize, max: usize },
    AnnouncementTooLarge { size: usize, max: usize },
}

impl DiscoveryConfig {
    /// Validates configuration that would otherwise fail when it is used.
    pub fn validate(&self) -> (result: Result<(), DiscoveryError>)
        ensures
            match result {
                Ok(_) => {
                    &&& self.bind_addr.ip is V4 && self.broadcast_addr.ip is V4
                    &&& self.announce_interval > 0 && self.peer_ttl > 0
                },
                Err(DiscoveryError::BindNotIpv4 { address }) => !(self.bind_addr.ip is V4)
                    && address == self.bind_addr,
                Err(DiscoveryError::BroadcastNotIpv4 { address }) => self.bind_addr.ip is V4 && !(
                self.broadcast_addr.ip is V4) && address == self.broadcast_addr,
                Err(DiscoveryError::ZeroAnnounceInterval) => self.bind_addr.ip is V4
                    && self.broadcast_addr.ip is V4 && self.announce_interval == 0,
                Err(DiscoveryError::ZeroPeerTtl) => self.bind_addr.ip is V4
                    && self.broadcast_addr.ip is V4 && self.announce_interval > 0 && self.peer_ttl
                    == 0,
                Err(_) => false,
            },
    {
        if let IpAddress::V6(_) = self.bind_addr.ip {
            return Err(DiscoveryError::BindNotIpv4 { address: self.bind_addr });
        }
        if let IpAddress::V6(_) = self.broadcast_addr.ip {
            return Err(DiscoveryError::BroadcastNotIpv4 { address: self.broadcast_addr });
        }
        if self.announce_interval == 0 {
            return Err(DiscoveryError::ZeroAnnounceInterval);
        }
        if self.peer_ttl == 0 {
            return Err(DiscoveryError::ZeroPeerTtl);
        }
        Ok(())
    }
}

/// Accepts an encoded announcement that fits one datagram.
pub fn ensure_announcement_size(size: usize) -> (result: Result<(), DiscoveryError>)
    ensures
        match result {
            Ok(_) => size <= MAX_DISCOVERY_PACKET_SIZE,
            Err(error) => size > MAX_DISCOVERY_PACKET_SIZE && error == (
            DiscoveryError::AnnouncementTooLarge { size, max: MAX_DISCOVERY_PACKET_SIZE }),
        },
{
    if size > MAX_DISCOVERY_PACKET_SIZE {
        Err(DiscoveryError::AnnouncementTooLarge { size, max: MAX_DISCOVERY_PACKET_SIZE })
    } else {
        Ok(())
    }
}

/// Accepts a capacity for the channel on which peers are reported, given the
/// largest that a channel can have.
pub fn ensure_output_capacity(capacity: usize, max: usize) -> (result: Result<(), DiscoveryError>)
    ensures
        match result {
            Ok(_) => 0 < capacity <= max,
            Err(DiscoveryError::ZeroOutputCapacity) => capacity == 0,
            Err(error) => capacity > 0 && capacity > max && error == (
            DiscoveryError::OutputCapacityTooLarge { capacity, max }),
        },
{
    if capacity == 0 {
        return Err(DiscoveryError::ZeroOutputCapacity);
    }
    if capacity > max {
        return Err(DiscoveryError::OutputCapacityTooLarge { capacity, max });
    }
    Ok(())
}

/// A validated announcement and its endpoints.
#[derive(Debug, Clone, PartialEq, Eq)]
pub struct DiscoveredPeer {
    pub announcement: DiscoveryAnnouncement,
    /// Sync endpoint formed from the datagram source address and advertised port.
    pub transfer_addr: Endpoint,
    /// HTTP endpoint formed from the datagram source address and advertised port.
    pub http_addr: Endpoint,
    /// Monotonic time at which the datagram was received, in nanoseconds.
    pub last_seen: u128,
}

impl DiscoveredPeer {
    pub open spec fn spec_stale(&self, now: u128, peer_ttl: u128) -> bool {
        now > self.last_seen && now - self.last_seen > peer_ttl
    }

    /// Whether this observation has exceeded a peer's time to live.
    pub fn is_stale(&self, now: u128, peer_ttl: u128) -> (stale: bool)
        ensures
            stale == self.spec_stale(now, peer_ttl),
    {
        now > self.last_seen && now - self.last_seen > peer_ttl
    }
}

/// Why a datagram is discarded.
#[derive(Debug, Clone, PartialEq, Eq)]
pub enum DatagramRejection {
    Oversized,
    Malformed(String),
    NonIpv4Source,
    OwnDevice,
    IncompatibleProtocol { received: u16 },
}

/// Takes a datagram of some length from a source, given the announcement that
/// it holds or why it holds none.
pub fn decode_datagram(
    packet_size: usize,
    source: Endpoint,
    parsed: Result<DiscoveryAnnouncement, String>,
    local_device_id: Uuid,
    last_seen: u128,
) -> (result: Result<DiscoveredPeer, DatagramRejection>)
    ensures
        ({
            let fits = packet_size <= MAX_DISCOVERY_PACKET_SIZE;
            let located = fits && source.ip is V4;
            match (parsed, result) {
                (_, Err(DatagramRejection::Oversized)) => !fits,
                (_, Err(DatagramRejection::NonIpv4Source)) => fits && !(source.ip is V4),
                (Err(message), Err(rejection)) => located && rejection
                    == DatagramRejection::Malformed(message),
                (Ok(found), Err(DatagramRejection::IncompatibleProtocol { received })) => {
                    &&& located && found.protocol_version != PROTOCOL_VERSION
                    &&& received == found.protocol_version
                },
                (Ok(found), Err(DatagramRejection::OwnDevice)) => {
                    &&& located && found.protocol_version == PROTOCOL_VERSION
                    &&& found.device_id == local_device_id
                },
                (Ok(found), Ok(peer)) => {
                    &&& located && found.protocol_version == PROTOCOL_VERSION
                    &&& found.device_id != local_device_id
                    &&& peer.announcement == found
                    &&& peer.transfer_addr == (Endpoint { ip: source.ip, port: found.port })
                    &&& peer.http_addr == (Endpoint { ip: source.ip, port: found.http_port })
                    &&& peer.last_seen == last_seen
                },
                _ => false,
            }
        }),
{
    if packet_size > MAX_DISCOVERY_PACKET_SIZE {
        return Err(DatagramRejection::Oversized);
    }
    if let IpAddress::V6(_) = source.ip {
        return Err(DatagramRejection::NonIpv4Source);
    }
    let announcement = match parsed {
        Ok(announcement) => announcement,
        Err(message) => {
            return Err(DatagramRejection::Malformed(message));
        },
    };
    if announcement.protocol_version != PROTOCOL_VERSION {
        return Err(
            DatagramRejection::IncompatibleProtocol { received: announcement.protocol_version },
        );
    }
    if announcement.device_id == local_device_id {
        return Err(DatagramRejection::OwnDevice);
    }
    let transfer_addr = announcement.transfer_address(source.ip);
    let http_addr = announcement.http_address(source.ip);
    Ok(DiscoveredPeer { announcement, transfer_addr, http_addr, last_seen })
}

/// The delay after the next failure.
pub open spec fn doubled(delay: u64) -> u64 {
    if delay < MAX_RECEIVE_RETRY_MILLIS / 2 {
        (delay * 2) as u64
    } else {
        MAX_RECEIVE_RETRY_MILLIS
    }
}

/// How the receiving side of discovery stands.
pub struct ReceiveState {
    retry_delay: u64,
    output_open: bool,
}

impl ReceiveState {
    pub closed spec fn spec_retry_delay(&self) -> u64 {
        self.retry_delay
    }

    pub closed spec fn spec_output_open(&self) -> bool {
        self.output_open
    }

    pub fn new() -> (state: Self)
        ensures
            state.spec_retry_delay() == INITIAL_RECEIVE_RETRY_MILLIS,
            state.spec_output_open(),
    {
        ReceiveState { retry_delay: INITIAL_RECEIVE_RETRY_MILLIS, output_open: true }
    }

    /// A datagram has arrived.
    pub fn received(&mut self)
        ensures
            final(self).spec_retry_delay() == INITIAL_RECEIVE_RETRY_MILLIS,
            final(self).spec_output_open() == old(self).spec_output_open(),
    {
        self.retry_delay = INITIAL_RECEIVE_RETRY_MILLIS;
    }

    /// Receiving has failed; gives the milliseconds to wait before the next try.
    pub fn failed(&mut self) -> (delay: u64)
        ensures
            delay == old(self).spec_retry_delay(),
            final(self).spec_retry_delay() == doubled(old(self).spec_retry_delay()),
            final(self).spec_output_open() == old(self).spec_output_open(),
    {
        let delay: u64 = self.retry_delay;
        self.retry_delay = if delay < MAX_RECEIVE_RETRY_MILLIS / 2 {
            delay * 2
        } else {
            MAX_RECEIVE_RETRY_MILLIS
        };
        delay
    }

    /// Nobody listens for peers any more.
    pub fn output_closed(&mut self)
        ensures
            final(self).spec_retry_delay() == old(self).spec_retry_delay(),
            !final(self).spec_output_open(),
    {
        self.output_open = false;
    }

    /// Whether somebody listens for peers.
    pub fn is_output_open(&self) -> (open: bool)
        ensures
            open == self.spec_output_open(),
    {
        self.output_open
    }
}

/// The delay grows with every failure up to the limit, and stays there.
pub proof fn law_receive_delay_is_bounded(delay: u64)
    requires
        INITIAL_RECEIVE_RETRY_MILLIS <= delay <= MAX_RECEIVE_RETRY_MILLIS,
    ensures
        delay <= doubled(delay) <= MAX_RECEIVE_RETRY_MILLIS,
        delay < MAX_RECEIVE_RETRY_MILLIS ==> delay < doubled(delay),
{
}

/// Each failure doubles the delay, up to the limit.
pub proof fn law_receive_delay_doubles(delay: u64)
    ensures
        doubled(delay) == if 2 * delay < 1_000 {
            2 * delay
        } else {
            1_000
        },
{
}

/// A peer is stale once it was not heard of for longer than it may be silent, and not
/// before.
pub proof fn law_when_a_peer_is_stale(peer: DiscoveredPeer, now: u128, peer_ttl: u128)
    ensures
        peer.spec_stale(now, peer_ttl) <==> now > peer.last_seen + peer_ttl,
{
}

} // verus!
