//! The devices that are known: seen, authenticated or trusted.

use crate::api::ApiFault;
use crate::discovery::DiscoveredPeer;
use crate::error::TransferError;
use crate::identity::{device_id_from_public_key, device_id_of};
use crate::ids::{hex, hex_of, Uuid};
use crate::order::{sort, text_le, text_not_after, Ranked};
use crate::protocol::{Endpoint, PROTOCOL_VERSION};
use crate::records::{DiscoveredDevice, TrustedPeer};
use crate::session::PeerInfo;
use crate::text::{to_lowercase, unicode_lowercase, view_of};
use vstd::prelude::*;
use vstd::slice::slice_to_vec;

verus! {

/// The bytes are a key, and the identifier is the one that it stands for.
pub open spec fn is_key_of(device_id: Uuid, public_key: Option<Seq<u8>>) -> bool {
    public_key matches Some(key) && key.len() == 32 && device_id_of(key) == device_id
}

/// The key of a device, where it is one that stands for its identifier.
pub fn validated_public_key(device_id: Uuid, public_key: Option<&[u8]>) -> (key: Option<[u8; 32]>)
    ensures
        match key {
            Some(found) => public_key is Some && found@ == public_key->0@ && is_key_of(
                device_id,
                Some(found@),
            ),
            None => !(public_key is Some && is_key_of(device_id, Some(public_key->0@))),
        },
{
    let bytes = match public_key {
        Some(bytes) => bytes,
        None => return None,
    };
    if bytes.len() != 32 {
        return None;
    }
    let mut key: [u8; 32] = [0u8;32];
    let mut i: usize = 0;
    while i < 32
        invariant
            i <= 32,
            bytes@.len() == 32,
            forall|k: int| 0 <= k < i ==> key@[k] == bytes@[k],
        decreases 32 - i,
    {
        key[i] = bytes[i];
        i += 1;
    }
    assert(key@ =~= bytes@);
    if device_id_from_public_key(&key) == device_id {
        Some(key)
    } else {
        None
    }
}

/// What an agent says of itself beside its key.
#[derive(Debug, Clone, PartialEq, Eq)]
pub struct ObservedPeer {
    pub http_address: Option<Endpoint>,
    pub protocol_version: u16,
    pub agent_version: String,
    pub features: Vec<String>,
}

/// What an announcement tells: the sighting of a device, without a key, and what
/// it says of itself. `transfer_address` is the text of its transfer endpoint.
pub fn record_discovery(peer: DiscoveredPeer, transfer_address: String, now: i64) -> (recorded: (
    DiscoveredDevice,
    ObservedPeer,
))
    ensures
        recorded.0 == (DiscoveredDevice {
            device_id: peer.announcement.device_id,
            name: peer.announcement.device_name,
            public_key: None,
            address: transfer_address,
            first_seen: now,
            last_seen: now,
        }),
        recorded.1 == (ObservedPeer {
            http_address: Some(peer.http_addr),
            protocol_version: peer.announcement.protocol_version,
            agent_version: peer.announcement.agent_version,
            features: peer.announcement.features,
        }),
{
    let announcement = peer.announcement;
    (
        DiscoveredDevice {
            device_id: announcement.device_id,
            name: announcement.device_name,
            public_key: None,
            address: transfer_address,
            first_seen: now,
            last_seen: now,
        },
        ObservedPeer {
            http_address: Some(peer.http_addr),
            protocol_version: announcement.protocol_version,
            agent_version: announcement.agent_version,
            features: announcement.features,
        },
    )
}

/// What a peer that has proved who it is says of itself.
pub fn record_authenticated(agent_version: String, features: Vec<String>) -> (observed: ObservedPeer)
    ensures
        observed == (ObservedPeer {
            http_address: None,
            protocol_version: PROTOCOL_VERSION,
            agent_version,
            features,
        }),
{
    ObservedPeer {
        http_address: None,
        protocol_version: PROTOCOL_VERSION,
        agent_version,
        features,
    }
}

/// A device as it is seen and as it is trusted.
#[derive(Debug, Clone, PartialEq, Eq)]
pub struct MergedDevice {
    pub id: Uuid,
    pub name: String,
    pub address: String,
    pub public_key: Option<Vec<u8>>,
    pub first_seen: i64,
    pub last_seen: i64,
    pub trusted: bool,
}

/// A device that is seen but not trusted.
pub open spec fn seen_only(device: DiscoveredDevice) -> MergedDevice {
    MergedDevice {
        id: device.device_id,
        name: device.name,
        address: device.address,
        public_key: device.public_key,
        first_seen: device.first_seen,
        last_seen: device.last_seen,
        trusted: false,
    }
}

/// A trusted device: its pin goes before what was seen of it.
pub open spec fn pinned(seen: Option<MergedDevice>, peer: TrustedPeer) -> MergedDevice {
    MergedDevice {
        id: peer.device_id,
        name: peer.name,
        address: peer.address,
        public_key: Some(peer.public_key),
        first_seen: match seen {
            Some(device) => if device.first_seen <= peer.trusted_at {
                device.first_seen
            } else {
                peer.trusted_at
            },
            None => peer.trusted_at,
        },
        last_seen: match seen {
            Some(device) => if device.last_seen >= peer.last_seen {
                device.last_seen
            } else {
                peer.last_seen
            },
            None => peer.last_seen,
        },
        trusted: true,
    }
}

/// The devices that were seen, by identifier.
pub open spec fn seen_devices(devices: Seq<DiscoveredDevice>) -> Map<Uuid, MergedDevice>
    decreases devices.len(),
{
    if devices.len() == 0 {
        Map::empty()
    } else {
        seen_devices(devices.drop_last()).insert(
            devices.last().device_id,
            seen_only(devices.last()),
        )
    }
}

/// A device of a map, if it is there.
pub open spec fn found(devices: Map<Uuid, MergedDevice>, id: Uuid) -> Option<MergedDevice> {
    if devices.dom().contains(id) {
        Some(devices[id])
    } else {
        None
    }
}

/// The devices that were seen or are trusted, by identifier.
pub open spec fn known_devices(
    devices: Seq<DiscoveredDevice>,
    peers: Seq<TrustedPeer>,
) -> Map<Uuid, MergedDevice>
    decreases peers.len(),
{
    if peers.len() == 0 {
        seen_devices(devices)
    } else {
        let rest = known_devices(devices, peers.drop_last());
        rest.insert(
            peers.last().device_id,
            pinned(found(rest, peers.last().device_id), peers.last()),
        )
    }
}

/// The list holds exactly the devices of the map, each once.
pub open spec fn lists(items: Seq<MergedDevice>, devices: Map<Uuid, MergedDevice>) -> bool {
    &&& forall|i: int|
        0 <= i < items.len() ==> devices.dom().contains((#[trigger] items[i]).id)
            && devices[items[i].id] == items[i]
    &&& forall|i: int, j: int|
        0 <= i < j < items.len() ==> (#[trigger] items[i]).id != (#[trigger] items[j]).id
    &&& forall|id: Uuid| #[trigger]
        devices.dom().contains(id) ==> exists|i: int|
            0 <= i < items.len() && (#[trigger] items[i]).id == id
}

fn position(items: &Vec<MergedDevice>, id: Uuid) -> (index: Option<usize>)
    ensures
        match index {
            Some(i) => i < items.len() && items@[i as int].id == id,
            None => forall|i: int| 0 <= i < items@.len() ==> (#[trigger] items@[i]).id != id,
        },
{
    let mut i: usize = 0;
    while i < items.len()
        invariant
            i <= items.len(),
            forall|k: int| 0 <= k < i ==> (#[trigger] items@[k]).id != id,
        decreases items.len() - i,
    {
        if items[i].id == id {
            return Some(i);
        }
        i += 1;
    }
    None
}

/// Puts a device in the place of the one with its identifier, or at the end.
fn put(items: &mut Vec<MergedDevice>, device: MergedDevice, Ghost(devices): Ghost<
    Map<Uuid, MergedDevice>,
>)
    requires
        lists(old(items)@, devices),
    ensures
        lists(final(items)@, devices.insert(device.id, device)),
{
    let ghost before = items@;
    let ghost after = devices.insert(device.id, device);
    let ghost id = device.id;
    match position(items, device.id) {
        Some(i) => {
            items.set(i, device);
            assert forall|other: Uuid| #[trigger] after.dom().contains(other) implies exists|k: int|
                0 <= k < items@.len() && (#[trigger] items@[k]).id == other by {
                if other == id {
                    assert(items@[i as int].id == other);
                } else {
                    let k = choose|k: int| 0 <= k < before.len() && (#[trigger] before[k]).id == other;
                    assert(items@[k].id == other);
                }
            }
        },
        None => {
            items.push(device);
            assert forall|other: Uuid| #[trigger] after.dom().contains(other) implies exists|k: int|
                0 <= k < items@.len() && (#[trigger] items@[k]).id == other by {
                if other == id {
                    assert(items@[before.len() as int].id == other);
                } else {
                    let k = choose|k: int| 0 <= k < before.len() && (#[trigger] before[k]).id == other;
                    assert(items@[k].id == other);
                }
            }
        },
    }
}

/// The devices that were seen or are trusted, each once.
pub fn merge_devices(devices: Vec<DiscoveredDevice>, peers: Vec<TrustedPeer>) -> (items: Vec<
    MergedDevice,
>)
    ensures
        lists(items@, known_devices(devices@, peers@)),
{
    let ghost all_devices = devices@;
    let ghost all_peers = peers@;
    let mut items: Vec<MergedDevice> = Vec::new();
    assert(all_devices.take(0) =~= Seq::<DiscoveredDevice>::empty());
    for device in it: devices
        invariant
            it.seq() == all_devices,
            lists(items@, seen_devices(all_devices.take(it.index()))),
    {
        let ghost i = it.index();
        assert(all_devices.take(i + 1).drop_last() =~= all_devices.take(i));
        let merged = MergedDevice {
            id: device.device_id,
            name: device.name,
            address: device.address,
            public_key: device.public_key,
            first_seen: device.first_seen,
            last_seen: device.last_seen,
            trusted: false,
        };
        put(&mut items, merged, Ghost(seen_devices(all_devices.take(i))));
    }
    assert(all_devices.take(all_devices.len() as int) =~= all_devices);
    assert(all_peers.take(0) =~= Seq::<TrustedPeer>::empty());
    for peer in it: peers
        invariant
            it.seq() == all_peers,
            lists(items@, known_devices(all_devices, all_peers.take(it.index()))),
    {
        let ghost i = it.index();
        assert(all_peers.take(i + 1).drop_last() =~= all_peers.take(i));
        let ghost known = known_devices(all_devices, all_peers.take(i));
        let mut first_seen: i64 = peer.trusted_at;
        let mut last_seen: i64 = peer.last_seen;
        match position(&items, peer.device_id) {
            Some(k) => {
                assert(known[items@[k as int].id] == items@[k as int]);
                if items[k].first_seen <= first_seen {
                    first_seen = items[k].first_seen;
                }
                if items[k].last_seen >= last_seen {
                    last_seen = items[k].last_seen;
                }
            },
            None => {
                assert(!known.dom().contains(peer.device_id));
            },
        }
        let merged = MergedDevice {
            id: peer.device_id,
            name: peer.name,
            address: peer.address,
            public_key: Some(peer.public_key),
            first_seen,
            last_seen,
            trusted: true,
        };
        put(&mut items, merged, Ghost(known));
    }
    assert(all_peers.take(all_peers.len() as int) =~= all_peers);
    items
}

/// What is shown of a device.
#[derive(Debug, Clone, PartialEq, Eq)]
pub struct DeviceView {
    pub id: Uuid,
    pub name: String,
    pub address: String,
    pub http_address: Option<Endpoint>,
    pub online: bool,
    pub trusted: bool,
    pub pending: bool,
    pub identity_verified: bool,
    pub status: &'static str,
    pub public_key: Option<String>,
    pub first_seen: i64,
    pub last_seen: i64,
    pub protocol_version: Option<u16>,
    pub agent_version: Option<String>,
    pub features: Vec<String>,
}

/// A device counts as online while it was last seen no longer ago than that.
pub open spec fn is_online(last_seen: i64, now: i64, ttl_millis: i64) -> bool {
    last_seen > 0 && now - last_seen <= ttl_millis
}

/// The text of a key.
pub open spec fn key_text(public_key: Option<Vec<u8>>) -> Option<Seq<char>> {
    match public_key {
        Some(key) => Some(hex_of(key@)),
        None => None,
    }
}

/// The bytes of a key.
pub open spec fn key_bytes(public_key: Option<Vec<u8>>) -> Option<Seq<u8>> {
    match public_key {
        Some(key) => Some(key@),
        None => None,
    }
}

impl DeviceView {
    /// The view shows the device, with what it says of itself.
    pub open spec fn shows(
        self,
        device: MergedDevice,
        observed: Option<ObservedPeer>,
        now: i64,
        ttl_millis: i64,
    ) -> bool {
        &&& self.id == device.id
        &&& self.name == device.name
        &&& self.address == device.address
        &&& self.online == is_online(device.last_seen, now, ttl_millis)
        &&& self.trusted == device.trusted
        &&& self.pending == !device.trusted
        &&& self.identity_verified == is_key_of(device.id, key_bytes(device.public_key))
        &&& self.status@ == if device.trusted {
            "trusted"@
        } else {
            "pending"@
        }
        &&& view_of(self.public_key) == key_text(device.public_key)
        &&& self.first_seen == device.first_seen
        &&& self.last_seen == device.last_seen
        &&& match observed {
            Some(peer) => {
                &&& self.http_address == peer.http_address
                &&& self.protocol_version == Some(peer.protocol_version)
                &&& self.agent_version == Some(peer.agent_version)
                &&& self.features == peer.features
            },
            None => {
                &&& self.http_address is None
                &&& self.protocol_version is None
                &&& self.agent_version is None
                &&& self.features@ == Seq::<String>::empty()
            },
        }
    }
}

/// What is shown of a device.
pub fn device_view(
    device: MergedDevice,
    observed: Option<ObservedPeer>,
    now: i64,
    ttl_millis: i64,
) -> (view: DeviceView)
    ensures
        view.shows(device, observed, now, ttl_millis),
{
    let identity_verified = match &device.public_key {
        Some(key) => validated_public_key(device.id, Some(key.as_slice())).is_some(),
        None => false,
    };
    let online = device.last_seen > 0 && now as i128 - device.last_seen as i128
        <= ttl_millis as i128;
    let public_key = match &device.public_key {
        Some(key) => Some(hex(key)),
        None => None,
    };
    let status = if device.trusted {
        "trusted"
    } else {
        "pending"
    };
    match observed {
        Some(peer) => DeviceView {
            id: device.id,
            name: device.name,
            address: device.address,
            http_address: peer.http_address,
            online,
            trusted: device.trusted,
            pending: !device.trusted,
            identity_verified,
            status,
            public_key,
            first_seen: device.first_seen,
            last_seen: device.last_seen,
            protocol_version: Some(peer.protocol_version),
            agent_version: Some(peer.agent_version),
            features: peer.features,
        },
        None => DeviceView {
            id: device.id,
            name: device.name,
            address: device.address,
            http_address: None,
            online,
            trusted: device.trusted,
            pending: !device.trusted,
            identity_verified,
            status,
            public_key,
            first_seen: device.first_seen,
            last_seen: device.last_seen,
            protocol_version: None,
            agent_version: None,
            features: Vec::new(),
        },
    }
}

impl Ranked for DeviceView {
    /// Those online first, then those trusted, then by name but for case, then by
    /// identifier.
    open spec fn rank_le(self, other: Self) -> bool {
        let (a, b) = (unicode_lowercase(self.name@), unicode_lowercase(other.name@));
        if self.online != other.online {
            self.online
        } else if self.trusted != other.trusted {
            self.trusted
        } else if a != b {
            text_le(a, b)
        } else {
            self.id.bits <= other.id.bits
        }
    }

    proof fn rank_total(a: Self, b: Self) {
        crate::order::lemma_text_total(unicode_lowercase(a.name@), unicode_lowercase(b.name@));
    }

    proof fn rank_transitive(a: Self, b: Self, c: Self) {
        let (x, y, z) = (
            unicode_lowercase(a.name@),
            unicode_lowercase(b.name@),
            unicode_lowercase(c.name@),
        );
        if text_le(x, y) && text_le(y, z) {
            crate::order::lemma_text_transitive(x, y, z);
            if x == z {
                crate::order::lemma_text_antisymmetric(x, y);
            }
        }
    }

    fn not_after(&self, other: &Self) -> (yes: bool) {
        if self.online != other.online {
            return self.online;
        }
        if self.trusted != other.trusted {
            return self.trusted;
        }
        let a = to_lowercase(self.name.as_str());
        let b = to_lowercase(other.name.as_str());
        if a == b {
            self.id.bits <= other.id.bits
        } else {
            text_not_after(a.as_str(), b.as_str())
        }
    }
}

/// The views show the devices, one for one.
pub open spec fn show_all(
    views: Seq<DeviceView>,
    devices: Seq<MergedDevice>,
    observed: Seq<Option<ObservedPeer>>,
    now: i64,
    ttl_millis: i64,
) -> bool {
    &&& views.len() == devices.len()
    &&& forall|i: int|
        0 <= i < views.len() ==> (#[trigger] views[i]).shows(
            devices[i],
            observed[i],
            now,
            ttl_millis,
        )
}

/// What is shown of all devices, in the order in which they are listed.
/// `observed` is what each of them says of itself.
pub fn device_views(
    devices: Vec<MergedDevice>,
    observed: Vec<Option<ObservedPeer>>,
    now: i64,
    ttl_millis: i64,
) -> (views: Vec<DeviceView>)
    requires
        devices@.len() == observed@.len(),
    ensures
        crate::order::is_sorted(views@),
        exists|unsorted: Seq<DeviceView>| #[trigger]
            show_all(unsorted, devices@, observed@, now, ttl_millis) && unsorted.to_multiset()
                == views@.to_multiset(),
{
    let ghost all_devices = devices@;
    let ghost all_observed = observed@;
    let mut rest = observed;
    let mut remaining = devices;
    let mut backwards: Vec<DeviceView> = Vec::new();
    while remaining.len() > 0
        invariant
            remaining@.len() == rest@.len(),
            remaining@ == all_devices.take(remaining@.len() as int),
            rest@ == all_observed.take(remaining@.len() as int),
            remaining@.len() <= all_devices.len(),
            all_devices.len() == all_observed.len(),
            backwards@.len() + remaining@.len() == all_devices.len(),
            forall|i: int|
                0 <= i < backwards@.len() ==> (#[trigger] backwards@[i]).shows(
                    all_devices[all_devices.len() - 1 - i],
                    all_observed[all_devices.len() - 1 - i],
                    now,
                    ttl_millis,
                ),
        decreases remaining.len(),
    {
        let ghost n = remaining@.len() as int;
        assert(all_devices.take(n).drop_last() =~= all_devices.take(n - 1));
        assert(all_observed.take(n).drop_last() =~= all_observed.take(n - 1));
        match (remaining.pop(), rest.pop()) {
            (Some(device), Some(peer)) => {
                assert(device == all_devices[n - 1] && peer == all_observed[n - 1]);
                backwards.push(device_view(device, peer, now, ttl_millis));
            },
            _ => {},
        }
    }
    let ghost unsorted = backwards@.reverse();
    proof {
        assert(show_all(unsorted, all_devices, all_observed, now, ttl_millis));
        lemma_reverse_counts(backwards@);
    }
    sort(backwards)
}

proof fn lemma_reverse_counts(views: Seq<DeviceView>)
    ensures
        views.reverse().to_multiset() == views.to_multiset(),
    decreases views.len(),
{
    if views.len() > 0 {
        let rest = views.drop_last();
        lemma_reverse_counts(rest);
        assert(views =~= rest.push(views.last()));
        assert(views.reverse() =~= seq![views.last()] + rest.reverse());
        vstd::seq_lib::lemma_multiset_commutative(seq![views.last()], rest.reverse());
        rest.to_multiset_ensures();
        Seq::<DeviceView>::empty().to_multiset_ensures();
        assert(seq![views.last()] =~= Seq::<DeviceView>::empty().push(views.last()));
        assert(Seq::<DeviceView>::empty().to_multiset() =~= vstd::multiset::Multiset::empty());
    } else {
        assert(views.reverse() =~= views);
    }
}

/// Whether a device is trusted already. Its pin must be a key that stands for
/// its identifier.
pub fn is_trusted(device_id: Uuid, trusted: Option<&TrustedPeer>) -> (result: Result<
    bool,
    ApiFault,
>)
    ensures
        result == match trusted {
            None => Ok(false),
            Some(peer) => if is_key_of(device_id, Some(peer.public_key@)) {
                Ok(true)
            } else {
                Err(ApiFault::PinnedKeyInvalid { device_id })
            },
        },
{
    match trusted {
        None => Ok(false),
        Some(peer) => {
            if validated_public_key(device_id, Some(peer.public_key.as_slice())).is_some() {
                Ok(true)
            } else {
                Err(ApiFault::PinnedKeyInvalid { device_id })
            }
        },
    }
}

/// A device to trust must have been seen.
pub fn trust_candidate(device_id: Uuid, discovered: Option<DiscoveredDevice>) -> (result: Result<
    DiscoveredDevice,
    ApiFault,
>)
    ensures
        result == match discovered {
            Some(device) => Ok(device),
            None => Err(ApiFault::DeviceNotFound { device_id }),
        },
{
    match discovered {
        Some(device) => Ok(device),
        None => Err(ApiFault::DeviceNotFound { device_id }),
    }
}

/// What came of probing a device.
#[derive(Debug, Clone, PartialEq, Eq)]
pub enum Probe {
    /// It has proved who it is, and was seen just now.
    Authenticated { peer: PeerInfo, seen_at: i64 },
    Failed(TransferError),
    TimedOut,
}

/// Why a device cannot be trusted now.
pub open spec fn trust_fault(
    device_id: Uuid,
    discovered: DiscoveredDevice,
    probe: Probe,
) -> Option<ApiFault> {
    let stored = is_key_of(device_id, key_bytes(discovered.public_key));
    match probe {
        Probe::Authenticated { peer, .. } => if device_id_of(peer.public_key@) == device_id {
            None
        } else {
            Some(ApiFault::KeyUnderivedId { device_id })
        },
        Probe::Failed(error) => if !error.spec_retryable() {
            Some(ApiFault::ProbeRejected { device_id, error })
        } else if stored {
            None
        } else {
            Some(ApiFault::NeverProbed { device_id, error })
        },
        Probe::TimedOut => if stored {
            None
        } else {
            Some(ApiFault::ProbeTimedOut { device_id })
        },
    }
}

/// The pin of a device: the key that it has just proved to hold, or, while it
/// cannot be reached, the one that it proved to hold before.
pub fn trust_device(
    device_id: Uuid,
    discovered: DiscoveredDevice,
    probe: Probe,
    now: i64,
) -> (result: Result<TrustedPeer, ApiFault>)
    ensures
        match result {
            Ok(pin) => {
                &&& trust_fault(device_id, discovered, probe) is None
                &&& pin.device_id == device_id
                &&& pin.trusted_at == now
                &&& is_key_of(device_id, Some(pin.public_key@))
                &&& match probe {
                    Probe::Authenticated { peer, seen_at } => {
                        &&& pin.name == peer.device_name
                        &&& pin.public_key@ == peer.public_key@
                        &&& pin.address == peer.address
                        &&& pin.last_seen == seen_at
                    },
                    _ => {
                        &&& pin.name == discovered.name
                        &&& key_bytes(discovered.public_key) == Some(pin.public_key@)
                        &&& pin.address == discovered.address
                        &&& pin.last_seen == discovered.last_seen
                    },
                }
            },
            Err(fault) => trust_fault(device_id, discovered, probe) == Some(fault),
        },
{
    let stored = match &discovered.public_key {
        Some(key) => validated_public_key(device_id, Some(key.as_slice())),
        None => None,
    };
    let known = match probe {
        Probe::Authenticated { peer, seen_at } => {
            if device_id_from_public_key(&peer.public_key) != device_id {
                return Err(ApiFault::KeyUnderivedId { device_id });
            }
            return Ok(
                TrustedPeer {
                    device_id,
                    name: peer.device_name,
                    public_key: slice_to_vec(&peer.public_key),
                    address: peer.address,
                    trusted_at: now,
                    last_seen: seen_at,
                },
            );
        },
        Probe::Failed(error) => {
            if !error.is_retryable() {
                return Err(ApiFault::ProbeRejected { device_id, error });
            }
            match stored {
                Some(key) => key,
                None => return Err(ApiFault::NeverProbed { device_id, error }),
            }
        },
        Probe::TimedOut => match stored {
            Some(key) => key,
            None => return Err(ApiFault::ProbeTimedOut { device_id }),
        },
    };
    Ok(
        TrustedPeer {
            device_id,
            name: discovered.name,
            public_key: slice_to_vec(&known),
            address: discovered.address,
            trusted_at: now,
            last_seen: discovered.last_seen,
        },
    )
}

/// An announcement alone never makes a device trusted: without a key that was
/// proved, a device that cannot be reached or refuses cannot be pinned.
pub proof fn law_announcements_are_no_evidence(
    device_id: Uuid,
    discovered: DiscoveredDevice,
    probe: Probe,
)
    requires
        discovered.public_key is None,
        !(probe is Authenticated),
    ensures
        trust_fault(device_id, discovered, probe) is Some,
{
}

/// Devices are known one by one. Seeing one shows it as it was seen and not trusted;
/// pinning one makes it trusted, under its pinned name, address and key, first seen as
/// early and last seen as late as either knows. Nothing else changes.
pub proof fn law_devices_are_known_one_by_one(
    devices: Seq<DiscoveredDevice>,
    peers: Seq<TrustedPeer>,
    device: DiscoveredDevice,
    peer: TrustedPeer,
    other: Uuid,
)
    ensures
        ({
            let none = known_devices(Seq::empty(), Seq::empty());
            let before = known_devices(devices, Seq::empty());
            let seen = known_devices(devices.push(device), Seq::empty());
            let shown = seen[device.device_id];
            &&& !none.contains_key(other)
            &&& seen.contains_key(device.device_id)
            &&& shown.id == device.device_id && shown.name == device.name
            &&& shown.address == device.address && shown.public_key == device.public_key
            &&& shown.first_seen == device.first_seen && shown.last_seen == device.last_seen
            &&& !shown.trusted
            &&& other != device.device_id ==> (seen.contains_key(other) <==> before.contains_key(
                other,
            )) && seen[other] == before[other]
        }),
        ({
            let before = known_devices(devices, peers);
            let after = known_devices(devices, peers.push(peer));
            let shown = after[peer.device_id];
            &&& after.contains_key(peer.device_id)
            &&& shown.id == peer.device_id && shown.name == peer.name
            &&& shown.address == peer.address && shown.public_key == Some(peer.public_key)
            &&& shown.trusted
            &&& shown.first_seen <= peer.trusted_at && shown.last_seen >= peer.last_seen
            &&& !before.contains_key(peer.device_id) ==> shown.first_seen == peer.trusted_at
                && shown.last_seen == peer.last_seen
            &&& before.contains_key(peer.device_id) ==> {
                let known = before[peer.device_id];
                &&& shown.first_seen <= known.first_seen && shown.last_seen >= known.last_seen
                &&& shown.first_seen == known.first_seen || shown.first_seen == peer.trusted_at
                &&& shown.last_seen == known.last_seen || shown.last_seen == peer.last_seen
            }
            &&& other != peer.device_id ==> (after.contains_key(other) <==> before.contains_key(
                other,
            )) && after[other] == before[other]
        }),
{
    let nobody = Seq::<TrustedPeer>::empty();
    assert(devices.push(device).drop_last() =~= devices);
    assert(peers.push(peer).drop_last() =~= peers);
    assert(known_devices(devices, nobody) == seen_devices(devices));
    assert(known_devices(devices.push(device), nobody) == seen_devices(devices.push(device)));
    assert(devices.push(device).last() == device);
    assert(peers.push(peer).last() == peer);
}

/// A device is online exactly if it was ever seen and not longer ago than it may be.
pub proof fn law_who_is_online(last_seen: i64, now: i64, ttl_millis: i64)
    ensures
        is_online(last_seen, now, ttl_millis) <==> last_seen >= 1 && now <= last_seen + ttl_millis,
{
}

/// Who can be trusted: a device that has just proved a key from which its identifier
/// derives, or one that cannot be reached now and proved such a key before. A device
/// that answers and is refused cannot, whatever it proved before.
pub proof fn law_who_can_be_trusted(device_id: Uuid, discovered: DiscoveredDevice, probe: Probe)
    ensures
        trust_fault(device_id, discovered, probe) is None <==> match probe {
            Probe::Authenticated { peer, .. } => device_id_of(peer.public_key@) == device_id,
            Probe::Failed(error) => {
                &&& error.spec_retryable()
                &&& discovered.public_key is Some
                &&& discovered.public_key->0@.len() == 32
                &&& device_id_of(discovered.public_key->0@) == device_id
            },
            Probe::TimedOut => {
                &&& discovered.public_key is Some
                &&& discovered.public_key->0@.len() == 32
                &&& device_id_of(discovered.public_key->0@) == device_id
            },
        },
{
}

/// A device is shown as trusted or as pending, never both, and its state says which; it
/// counts as verified only with a key from which its identifier derives.
pub proof fn law_devices_are_trusted_or_pending(
    view: DeviceView,
    device: MergedDevice,
    observed: Option<ObservedPeer>,
    now: i64,
    ttl_millis: i64,
)
    requires
        view.shows(device, observed, now, ttl_millis),
    ensures
        view.id == device.id && view.name == device.name && view.address == device.address,
        view.trusted == device.trusted,
        view.pending <==> !view.trusted,
        view.trusted ==> view.status@ == "trusted"@,
        view.pending ==> view.status@ == "pending"@,
        view.online <==> device.last_seen >= 1 && now <= device.last_seen + ttl_millis,
        view.identity_verified ==> device.public_key is Some && device_id_of(
            device.public_key->0@,
        ) == device.id,
        device.public_key is None ==> !view.identity_verified && view.public_key is None,
        observed is None ==> view.protocol_version is None && view.features@.len() == 0,
{
}

/// Devices are listed with those online first, among these those that are trusted, and
/// then by name, whatever its case, and by identifier.
pub proof fn law_devices_are_listed_in_order(views: Seq<DeviceView>, i: int, j: int)
    requires
        crate::order::is_sorted(views),
        0 <= i < j < views.len(),
    ensures
        views[j].online ==> views[i].online,
        views[i].online == views[j].online && views[j].trusted ==> views[i].trusted,
        views[i].online == views[j].online && views[i].trusted == views[j].trusted ==> text_le(
            unicode_lowercase(views[i].name@),
            unicode_lowercase(views[j].name@),
        ),
        views[i].online == views[j].online && views[i].trusted == views[j].trusted
            && unicode_lowercase(views[i].name@) == unicode_lowercase(views[j].name@)
            ==> views[i].id.bits <= views[j].id.bits,
{
    assert(views[i].rank_le(views[j]));
    let a = unicode_lowercase(views[i].name@);
    crate::order::lemma_text_total(a, a);
}

} // verus!
