//! Leases on destination paths: two jobs never write below one another.

use crate::error::{DataFault, NetworkFault, TransferError};
use crate::ids::Uuid;
use crate::manifest::{IncomingJob, IncomingJobKey, JobView, Platform};
use crate::text::{from_chars, has_prefix, same_chars, split_chars, to_chars, to_lowercase};
use vstd::prelude::*;

verus! {

/// The concurrent map of the `dashmap` crate.
#[verifier::external_type_specification]
#[verifier::external_body]
#[verifier::reject_recursive_types(K)]
#[verifier::reject_recursive_types(V)]
#[verifier::reject_recursive_types(S)]
pub struct ExDashMap<K, V, S>(dashmap::DashMap<K, V, S>);

/// What a map of leases holds: under each key the peer, the job and the wire path.
pub uninterp spec fn lease_table(
    map: dashmap::DashMap<String, (u128, u128, String)>,
) -> Map<Seq<char>, (u128, u128, Seq<char>)>;

/// A table without leases.
pub open spec fn no_leases() -> Map<Seq<char>, (u128, u128, Seq<char>)> {
    Map::empty()
}

/// `dashmap::DashMap::new`: an empty map.
#[verifier::external_body]
fn new_lease_map() -> (map: dashmap::DashMap<String, (u128, u128, String)>)
    ensures
        lease_table(map) == no_leases(),
{
    dashmap::DashMap::new()
}

/// The contents of an optional row.
pub open spec fn row_view(row: Option<(u128, u128, String)>) -> Option<(u128, u128, Seq<char>)> {
    match row {
        Some((peer, job, path)) => Some((peer, job, path@)),
        None => None,
    }
}

/// `dashmap::DashMap::get`: a copy of the value under a key, if there is one.
#[verifier::external_body]
fn lease_row(map: &dashmap::DashMap<String, (u128, u128, String)>, key: &str) -> (row: Option<
    (u128, u128, String),
>)
    ensures
        row_view(row) == (if lease_table(*map).contains_key(key@) {
            Some(lease_table(*map)[key@])
        } else {
            None
        }),
{
    map.get(key).map(|entry| entry.value().clone())
}

/// `dashmap::DashMap::insert`: the value stands under the key afterwards.
#[verifier::external_body]
fn insert_lease_row(
    map: &mut dashmap::DashMap<String, (u128, u128, String)>,
    key: String,
    row: (u128, u128, String),
)
    ensures
        lease_table(*final(map)) == lease_table(*old(map)).insert(key@, (row.0, row.1, row.2@)),
{
    map.insert(key, row);
}

/// `dashmap::DashMap::remove`: nothing stands under the key afterwards.
#[verifier::external_body]
fn remove_lease_row(map: &mut dashmap::DashMap<String, (u128, u128, String)>, key: &str)
    ensures
        lease_table(*final(map)) == lease_table(*old(map)).remove(key@),
{
    map.remove(key);
}

/// A listed row says what the table holds.
pub open spec fn is_row(
    table: Map<Seq<char>, (u128, u128, Seq<char>)>,
    row: (String, u128, u128, String),
) -> bool {
    table.contains_key(row.0@) && table[row.0@] == (row.1, row.2, row.3@)
}

/// `dashmap::DashMap::iter`: every key with its value, in no particular order.
#[verifier::external_body]
fn lease_rows(map: &dashmap::DashMap<String, (u128, u128, String)>) -> (rows: Vec<
    (String, u128, u128, String),
>)
    ensures
        forall|i: int|
            0 <= i < rows@.len() ==> is_row(lease_table(*map), #[trigger] rows@[i]),
        forall|key: Seq<char>| #[trigger]
            lease_table(*map).contains_key(key) ==> exists|i: int|
                0 <= i < rows@.len() && (#[trigger] rows@[i]).0@ == key,
{
    map.iter()
        .map(|entry| {
            let (peer, job, path) = entry.value().clone();
            (entry.key().clone(), peer, job, path)
        })
        .collect()
}

/// The separator of paths on a system.
pub open spec fn separator_of(platform: Platform) -> char {
    match platform {
        Platform::Posix => '/',
        Platform::Windows => '\\',
    }
}

/// The components of a path: its root or first name, then every name that is
/// neither empty nor a dot.
pub open spec fn kept_components(pieces: Seq<Seq<char>>, whole: Seq<char>) -> Seq<Seq<char>>
    decreases pieces.len(),
{
    if pieces.len() == 0 {
        Seq::<Seq<char>>::empty()
    } else {
        let earlier = kept_components(pieces.drop_last(), whole);
        let piece = pieces.last();
        let kept = if pieces.len() == 1 {
            whole.len() > 0
        } else {
            piece.len() > 0 && piece != seq!['.']
        };
        if kept {
            earlier.push(piece)
        } else {
            earlier
        }
    }
}

pub open spec fn components(path: Seq<char>, separator: char) -> Seq<Seq<char>> {
    kept_components(crate::text::split(path, separator), path)
}

/// `lower` is `upper` or lies below it.
pub open spec fn covers(upper: Seq<char>, lower: Seq<char>, separator: char) -> bool {
    let (a, b) = (components(upper, separator), components(lower, separator));
    a.len() <= b.len() && b.take(a.len() as int) == a
}

pub open spec fn overlaps(a: Seq<char>, b: Seq<char>, separator: char) -> bool {
    covers(a, b, separator) || covers(b, a, separator)
}

fn path_components(path: &[char], separator: char) -> (names: Vec<Vec<char>>)
    ensures
        names.len() == components(path@, separator).len(),
        forall|i: int|
            0 <= i < names.len() ==> (#[trigger] names[i])@ == components(path@, separator)[i],
{
    let pieces = split_chars(path, separator);
    let ghost all = crate::text::split(path@, separator);
    let mut names: Vec<Vec<char>> = Vec::new();
    let mut i: usize = 0;
    assert(all.take(0) =~= Seq::<Seq<char>>::empty());
    assert(['.']@ =~= seq!['.']);
    while i < pieces.len()
        invariant
            i <= pieces.len(),
            pieces.len() == all.len(),
            ['.']@ == seq!['.'],
            forall|k: int| 0 <= k < pieces.len() ==> (#[trigger] pieces[k])@ == all[k],
            names.len() == kept_components(all.take(i as int), path@).len(),
            forall|k: int|
                0 <= k < names.len() ==> (#[trigger] names[k])@ == kept_components(
                    all.take(i as int),
                    path@,
                )[k],
        decreases pieces.len() - i,
    {
        assert(all.take(i + 1).drop_last() =~= all.take(i as int));
        let kept = if i == 0 {
            path.len() > 0
        } else {
            pieces[i].len() > 0 && !same_chars(&pieces[i], &['.'])
        };
        if kept {
            let mut name: Vec<char> = Vec::new();
            name.extend_from_slice(pieces[i].as_slice());
            assert(name@ =~= pieces[i as int]@);
            names.push(name);
        }
        i += 1;
    }
    assert(all.take(i as int) =~= all);
    names
}

fn is_prefix(a: &Vec<Vec<char>>, b: &Vec<Vec<char>>) -> (yes: bool)
    ensures
        yes == (a.len() <= b.len() && forall|i: int| 0 <= i < a.len() ==> a@[i]@ == b@[i]@),
{
    if a.len() > b.len() {
        return false;
    }
    let mut i: usize = 0;
    while i < a.len()
        invariant
            i <= a.len() <= b.len(),
            forall|k: int| 0 <= k < i ==> a@[k]@ == b@[k]@,
        decreases a.len() - i,
    {
        if !same_chars(&a[i], &b[i]) {
            assert(a@[i as int]@ != b@[i as int]@);
            return false;
        }
        i += 1;
    }
    true
}

fn paths_overlap(a: &str, b: &str, separator: char) -> (yes: bool)
    ensures
        yes == overlaps(a@, b@, separator),
{
    let x = path_components(&to_chars(a), separator);
    let y = path_components(&to_chars(b), separator);
    let ghost (p, q) = (components(a@, separator), components(b@, separator));
    let forward = is_prefix(&x, &y);
    assert(forward == covers(a@, b@, separator)) by {
        if forward {
            assert(q.take(p.len() as int) =~= p) by {
                assert forall|i: int| 0 <= i < p.len() implies q[i] == p[i] by {
                    assert(x@[i]@ == y@[i]@);
                }
            }
        }
        if covers(a@, b@, separator) {
            assert forall|i: int| 0 <= i < x.len() implies x@[i]@ == y@[i]@ by {
                assert(q.take(p.len() as int)[i] == q[i]);
            }
        }
    }
    let backward = is_prefix(&y, &x);
    assert(backward == covers(b@, a@, separator)) by {
        if backward {
            assert(p.take(q.len() as int) =~= q) by {
                assert forall|i: int| 0 <= i < q.len() implies q[i] == p[i] by {
                    assert(x@[i]@ == y@[i]@);
                }
            }
        }
        if covers(b@, a@, separator) {
            assert forall|i: int| 0 <= i < y.len() implies x@[i]@ == y@[i]@ by {
                assert(p.take(q.len() as int)[i] == p[i]);
            }
        }
    }
    forward || backward
}

pub open spec fn replace_slashes(path: Seq<char>) -> Seq<char> {
    Seq::new(
        path.len(),
        |i: int|
            if path[i] == '/' {
                '\\'
            } else {
                path[i]
            },
    )
}

/// The key under which a path is leased: paths that some system takes for one
/// share it.
pub open spec fn lease_key(platform: Platform, path: Seq<char>) -> Seq<char> {
    match platform {
        Platform::Posix => crate::text::unicode_lowercase(path),
        Platform::Windows => {
            let normalized = crate::text::unicode_lowercase(replace_slashes(path));
            if crate::text::starts_with(normalized, seq!['\\', '\\', '?', '\\', 'u', 'n', 'c', '\\']) {
                seq!['\\', '\\'] + normalized.skip(8)
            } else if crate::text::starts_with(normalized, seq!['\\', '\\', '?', '\\']) {
                normalized.skip(4)
            } else {
                normalized
            }
        },
    }
}

/// The key under which a path is leased.
pub fn destination_lease_key(platform: Platform, path: &str) -> (key: String)
    ensures
        key@ == lease_key(platform, path@),
{
    match platform {
        Platform::Posix => to_lowercase(path),
        Platform::Windows => {
            let chars = to_chars(path);
            let mut replaced: Vec<char> = Vec::new();
            let mut i: usize = 0;
            while i < chars.len()
                invariant
                    i <= chars.len(),
                    chars@ == path@,
                    replaced@ == replace_slashes(path@).take(i as int),
                decreases chars.len() - i,
            {
                replaced.push(
                    if chars[i] == '/' {
                        '\\'
                    } else {
                        chars[i]
                    },
                );
                assert(replaced@ =~= replace_slashes(path@).take(i + 1));
                i += 1;
            }
            assert(replaced@ =~= replace_slashes(path@));
            let text = from_chars(&replaced);
            let lower = to_lowercase(&text);
            let normalized = to_chars(&lower);
            let unc = ['\\', '\\', '?', '\\', 'u', 'n', 'c', '\\'];
            let local = ['\\', '\\', '?', '\\'];
            assert(unc@ =~= seq!['\\', '\\', '?', '\\', 'u', 'n', 'c', '\\']);
            assert(local@ =~= seq!['\\', '\\', '?', '\\']);
            if has_prefix(&normalized, &unc) {
                let mut key: Vec<char> = Vec::new();
                key.push('\\');
                key.push('\\');
                let rest = vstd::slice::slice_subrange(normalized.as_slice(), 8, normalized.len());
                key.extend_from_slice(rest);
                assert(key@ =~= seq!['\\', '\\'] + normalized@.skip(8));
                from_chars(&key)
            } else if has_prefix(&normalized, &local) {
                let rest = vstd::slice::slice_subrange(normalized.as_slice(), 4, normalized.len());
                assert(rest@ =~= normalized@.skip(4));
                from_chars(rest)
            } else {
                lower
            }
        },
    }
}

/// A lease: who may write to a path, and under which wire path.
#[derive(Debug, Clone, PartialEq, Eq)]
pub struct DestinationLease {
    pub owner: IncomingJobKey,
    pub wire_path: String,
}

/// All leases of an agent.
pub struct DestinationLeases {
    platform: Platform,
    table: dashmap::DashMap<String, (u128, u128, String)>,
}

pub open spec fn owner_of(row: (u128, u128, Seq<char>)) -> IncomingJobKey {
    IncomingJobKey { peer_id: Uuid { bits: row.0 }, job_id: Uuid { bits: row.1 } }
}

/// A row for another job whose path overlaps `key`.
pub open spec fn is_conflict(
    table: Map<Seq<char>, (u128, u128, Seq<char>)>,
    owner: IncomingJobKey,
    key: Seq<char>,
    separator: char,
    existing: Seq<char>,
) -> bool {
    table.contains_key(existing) && owner_of(table[existing]) != owner && overlaps(
        key,
        existing,
        separator,
    )
}

/// No path leased to one job overlaps a path leased to another.
pub open spec fn is_exclusive(
    table: Map<Seq<char>, (u128, u128, Seq<char>)>,
    separator: char,
) -> bool {
    forall|a: Seq<char>, b: Seq<char>|
        #![trigger table.contains_key(a), table.contains_key(b)]
        table.contains_key(a) && table.contains_key(b) && owner_of(table[a]) != owner_of(table[b])
            ==> !overlaps(a, b, separator)
}

impl DestinationLeases {
    pub closed spec fn view(&self) -> Map<Seq<char>, (u128, u128, Seq<char>)> {
        lease_table(self.table)
    }

    pub closed spec fn spec_platform(&self) -> Platform {
        self.platform
    }

    pub open spec fn wf(&self) -> bool {
        is_exclusive(self@, separator_of(self.spec_platform()))
    }

    /// No lease is held.
    pub fn new(platform: Platform) -> (leases: Self)
        ensures
            leases.wf(),
            leases.spec_platform() == platform,
            leases@ == no_leases(),
    {
        DestinationLeases { platform, table: new_lease_map() }
    }

    pub fn platform(&self) -> (platform: Platform)
        ensures
            platform == self.spec_platform(),
    {
        self.platform
    }

    fn separator(&self) -> (separator: char)
        ensures
            separator == separator_of(self.spec_platform()),
    {
        match self.platform {
            Platform::Posix => '/',
            Platform::Windows => '\\',
        }
    }

    /// A lease of another job on a path that overlaps `key`.
    fn find_conflict(&self, owner: IncomingJobKey, key: &str) -> (conflict: Option<DestinationLease>)
        ensures
            match conflict {
                Some(lease) => exists|existing: Seq<char>|
                    #![trigger self@[existing]]
                    is_conflict(
                        self@,
                        owner,
                        key@,
                        separator_of(self.spec_platform()),
                        existing,
                    ) && owner_of(self@[existing]) == lease.owner && self@[existing].2
                        == lease.wire_path@,
                None => forall|existing: Seq<char>| #[trigger]
                    self@.contains_key(existing) ==> !is_conflict(
                        self@,
                        owner,
                        key@,
                        separator_of(self.spec_platform()),
                        existing,
                    ),
            },
    {
        let separator = self.separator();
        let rows = lease_rows(&self.table);
        let mut i: usize = 0;
        while i < rows.len()
            invariant
                i <= rows.len(),
                separator == separator_of(self.spec_platform()),
                forall|k: int| 0 <= k < rows.len() ==> is_row(self@, #[trigger] rows@[k]),
                forall|k: int|
                    0 <= k < i ==> !is_conflict(
                        self@,
                        owner,
                        key@,
                        separator,
                        (#[trigger] rows@[k]).0@,
                    ),
            decreases rows.len() - i,
        {
            let holder = IncomingJobKey {
                peer_id: Uuid { bits: rows[i].1 },
                job_id: Uuid { bits: rows[i].2 },
            };
            assert(is_row(self@, rows@[i as int]));
            if holder != owner && paths_overlap(key, &rows[i].0, separator) {
                let lease = DestinationLease { owner: holder, wire_path: rows[i].3.clone() };
                assert(is_conflict(self@, owner, key@, separator, rows@[i as int].0@));
                assert(owner_of(self@[rows@[i as int].0@]) == lease.owner);
                return Some(lease);
            }
            i += 1;
        }
        None
    }

    /// Fails while another job holds a lease on or above or below a root.
    pub fn ensure_destination_available(&self, owner: IncomingJobKey, destination: &str) -> (
        result: Result<(), TransferError>)
        ensures
            ({
                let key = lease_key(self.spec_platform(), destination@);
                let separator = separator_of(self.spec_platform());
                match result {
                    Ok(_) => forall|existing: Seq<char>| #[trigger]
                        self@.contains_key(existing) ==> !is_conflict(
                            self@,
                            owner,
                            key,
                            separator,
                            existing,
                        ),
                    Err(
                        TransferError::Network(
                            NetworkFault::RootOverlaps { destination: d, job_id, path },
                        ),
                    ) => d@ == destination@ && exists|existing: Seq<char>|
                        #![trigger self@[existing]]
                        is_conflict(self@, owner, key, separator, existing) && owner_of(
                            self@[existing],
                        ).job_id == job_id && self@[existing].2 == path@,
                    Err(_) => false,
                }
            }),
    {
        let key = destination_lease_key(self.platform, destination);
        match self.find_conflict(owner, key.as_str()) {
            Some(existing) => Err(
                TransferError::Network(
                    NetworkFault::RootOverlaps {
                        destination: destination.to_owned(),
                        job_id: existing.owner.job_id,
                        path: existing.wire_path,
                    },
                ),
            ),
            None => Ok(()),
        }
    }

    /// Leases a path to a job, unless another job holds an overlapping lease or
    /// the job itself holds this one for another wire path.
    pub fn acquire_destination_lease(
        &mut self,
        job: &mut IncomingJob,
        destination: &str,
        wire_path: &str,
    ) -> (result: Result<(), TransferError>)
        requires
            old(self).wf(),
            old(job).wf(),
        ensures
            final(self).wf(),
            final(job).wf(),
            final(self).spec_platform() == old(self).spec_platform(),
            ({
                let table = old(self)@;
                let owner = old(job)@.parameters.key;
                let key = lease_key(old(self).spec_platform(), destination@);
                let separator = separator_of(old(self).spec_platform());
                let free = forall|existing: Seq<char>| #[trigger]
                    table.contains_key(existing) ==> !is_conflict(
                        table,
                        owner,
                        key,
                        separator,
                        existing,
                    );
                match result {
                    Ok(_) => {
                        &&& free
                        &&& final(self).holds(owner, destination@, wire_path@)
                        &&& table.contains_key(key) ==> table[key].2 == wire_path@ && final(self)@
                            == table
                        &&& !table.contains_key(key) ==> final(self)@ == table.insert(
                            key,
                            (owner.peer_id.bits, owner.job_id.bits, wire_path@),
                        )
                        &&& final(job)@ == (JobView {
                            leases: if old(job)@.leases.contains(key) {
                                old(job)@.leases
                            } else {
                                old(job)@.leases.push(key)
                            },
                            ..old(job)@
                        })
                    },
                    Err(
                        TransferError::Network(
                            NetworkFault::DestinationOverlaps { destination: d, job_id, path },
                        ),
                    ) => {
                        &&& d@ == destination@
                        &&& exists|existing: Seq<char>|
                            #![trigger table[existing]]
                            is_conflict(table, owner, key, separator, existing) && owner_of(
                                table[existing],
                            ).job_id == job_id && table[existing].2 == path@
                        &&& final(self)@ == table
                        &&& final(job)@ == old(job)@
                    },
                    Err(
                        TransferError::InvalidData(
                            DataFault::LeaseReserved { destination: d, job_id, path },
                        ),
                    ) => {
                        &&& free
                        &&& d@ == destination@
                        &&& table.contains_key(key) && table[key].2 != wire_path@
                        &&& job_id == owner.job_id
                        &&& path@ == table[key].2
                        &&& final(self)@ == table
                        &&& final(job)@ == old(job)@
                    },
                    Err(_) => false,
                }
            }),
    {
        let owner = job.key();
        let key = destination_lease_key(self.platform, destination);
        let ghost table = self@;
        let ghost separator = separator_of(self.spec_platform());
        if let Some(existing) = self.find_conflict(owner, key.as_str()) {
            return Err(
                TransferError::Network(
                    NetworkFault::DestinationOverlaps {
                        destination: destination.to_owned(),
                        job_id: existing.owner.job_id,
                        path: existing.wire_path,
                    },
                ),
            );
        }
        proof {
            let (own, same) = (components(key@, separator), components(key@, separator));
            assert(same.take(own.len() as int) =~= own);
            assert(overlaps(key@, key@, separator));
        }
        match lease_row(&self.table, key.as_str()) {
            Some(row) => {
                assert(!is_conflict(table, owner, key@, separator, key@));
                if !same_chars(&to_chars(&row.2), &to_chars(wire_path)) {
                    return Err(
                        TransferError::InvalidData(
                            DataFault::LeaseReserved {
                                destination: destination.to_owned(),
                                job_id: owner.job_id,
                                path: row.2,
                            },
                        ),
                    );
                }
            },
            None => {
                insert_lease_row(
                    &mut self.table,
                    key.clone(),
                    (owner.peer_id.bits, owner.job_id.bits, wire_path.to_owned()),
                );
                proof {
                    let after = self@;
                    assert forall|a: Seq<char>, b: Seq<char>|
                        #![trigger after.contains_key(a), after.contains_key(b)]
                        after.contains_key(a) && after.contains_key(b) && owner_of(after[a])
                            != owner_of(after[b]) implies !overlaps(a, b, separator) by {
                        if a == key@ {
                            assert(table.contains_key(b));
                            assert(!is_conflict(table, owner, key@, separator, b));
                        } else if b == key@ {
                            assert(table.contains_key(a));
                            assert(!is_conflict(table, owner, key@, separator, a));
                        } else {
                            assert(table.contains_key(a) && table.contains_key(b));
                        }
                    }
                }
            },
        }
        job.remember_lease(key);
        Ok(())
    }

    /// Whether a job holds the lease on a path, for a wire path.
    pub open spec fn holds(&self, owner: IncomingJobKey, path: Seq<char>, wire_path: Seq<char>) -> bool {
        let key = lease_key(self.spec_platform(), path);
        self@.contains_key(key) && self@[key] == (
            owner.peer_id.bits,
            owner.job_id.bits,
            wire_path,
        )
    }

    /// Fails unless a job still holds the lease on a path.
    pub fn ensure_destination_lease(
        &self,
        owner: IncomingJobKey,
        destination: &str,
        wire_path: &str,
    ) -> (result: Result<(), TransferError>)
        ensures
            match result {
                Ok(_) => self.holds(owner, destination@, wire_path@),
                Err(TransferError::InvalidData(DataFault::LeaseLost { job_id, path })) => {
                    &&& !self.holds(owner, destination@, wire_path@)
                    &&& job_id == owner.job_id
                    &&& path@ == wire_path@
                },
                Err(_) => false,
            },
    {
        let key = destination_lease_key(self.platform, destination);
        let valid = match lease_row(&self.table, key.as_str()) {
            Some(row) => row.0 == owner.peer_id.bits && row.1 == owner.job_id.bits && same_chars(
                &to_chars(&row.2),
                &to_chars(wire_path),
            ),
            None => false,
        };
        if valid {
            Ok(())
        } else {
            Err(
                TransferError::InvalidData(
                    DataFault::LeaseLost { job_id: owner.job_id, path: wire_path.to_owned() },
                ),
            )
        }
    }

    /// The table once `owner` has given up the lease under `key`.
    pub open spec fn released(
        table: Map<Seq<char>, (u128, u128, Seq<char>)>,
        owner: IncomingJobKey,
        key: Seq<char>,
    ) -> Map<Seq<char>, (u128, u128, Seq<char>)> {
        if table.contains_key(key) && owner_of(table[key]) == owner {
            table.remove(key)
        } else {
            table
        }
    }

    /// The table once `owner` has given up the leases under `keys`, in order.
    pub open spec fn all_released(
        table: Map<Seq<char>, (u128, u128, Seq<char>)>,
        owner: IncomingJobKey,
        keys: Seq<Seq<char>>,
    ) -> Map<Seq<char>, (u128, u128, Seq<char>)>
        decreases keys.len(),
    {
        if keys.len() == 0 {
            table
        } else {
            Self::released(
                Self::all_released(table, owner, keys.drop_last()),
                owner,
                keys.last(),
            )
        }
    }

    /// Gives up a lease, where the job holds it.
    pub fn release_destination_lease(&mut self, owner: IncomingJobKey, key: &str)
        requires
            old(self).wf(),
        ensures
            final(self).wf(),
            final(self).spec_platform() == old(self).spec_platform(),
            final(self)@ == Self::released(old(self)@, owner, key@),
    {
        let ghost table = self@;
        if let Some(row) = lease_row(&self.table, key) {
            if row.0 == owner.peer_id.bits && row.1 == owner.job_id.bits {
                remove_lease_row(&mut self.table, key);
                assert forall|a: Seq<char>, b: Seq<char>|
                    #![trigger self@.contains_key(a), self@.contains_key(b)]
                    self@.contains_key(a) && self@.contains_key(b) && owner_of(self@[a]) != owner_of(
                        self@[b],
                    ) implies !overlaps(a, b, separator_of(self.spec_platform())) by {
                    assert(table.contains_key(a) && table.contains_key(b));
                }
            }
        }
    }

    /// Gives up every lease that a job has noted.
    pub fn release_destination_leases(&mut self, job: &IncomingJob)
        requires
            old(self).wf(),
        ensures
            final(self).wf(),
            final(self).spec_platform() == old(self).spec_platform(),
            final(self)@ == Self::all_released(
                old(self)@,
                job@.parameters.key,
                job@.leases,
            ),
    {
        let owner = job.key();
        let keys = job.lease_keys();
        let mut i: usize = 0;
        assert(job@.leases.take(0) =~= Seq::<Seq<char>>::empty());
        while i < keys.len()
            invariant
                i <= keys.len(),
                self.wf(),
                self.spec_platform() == old(self).spec_platform(),
                owner == job@.parameters.key,
                crate::text::views(keys@) == job@.leases,
                self@ == Self::all_released(
                    old(self)@,
                    owner,
                    job@.leases.take(i as int),
                ),
            decreases keys.len() - i,
        {
            assert(job@.leases.take(i + 1).drop_last() =~= job@.leases.take(i as int));
            assert(job@.leases[i as int] == keys@[i as int]@);
            self.release_destination_lease(owner, keys[i].as_str());
            i += 1;
        }
        assert(job@.leases.take(i as int) =~= job@.leases);
    }

    /// The lease under a key, where a job holds it.
    pub fn lease_under(&self, key: &str) -> (lease: Option<DestinationLease>)
        ensures
            match lease {
                Some(found) => self@.contains_key(key@) && owner_of(self@[key@]) == found.owner
                    && self@[key@].2 == found.wire_path@,
                None => !self@.contains_key(key@),
            },
    {
        match lease_row(&self.table, key) {
            Some(row) => Some(
                DestinationLease {
                    owner: IncomingJobKey {
                        peer_id: Uuid { bits: row.0 },
                        job_id: Uuid { bits: row.1 },
                    },
                    wire_path: row.2,
                },
            ),
            None => None,
        }
    }
}

/// Giving up leases removes only leases of the job, and leaves none of those
/// that were named.
pub proof fn law_release_removes_exactly_own(
    table: Map<Seq<char>, (u128, u128, Seq<char>)>,
    owner: IncomingJobKey,
    keys: Seq<Seq<char>>,
    key: Seq<char>,
)
    ensures
        DestinationLeases::all_released(table, owner, keys).contains_key(key) <==> (
        table.contains_key(key) && !(owner_of(table[key]) == owner && keys.contains(key))),
        DestinationLeases::all_released(table, owner, keys).contains_key(key)
            ==> DestinationLeases::all_released(table, owner, keys)[key] == table[key],
    decreases keys.len(),
{
    if keys.len() > 0 {
        law_release_removes_exactly_own(table, owner, keys.drop_last(), key);
        law_release_removes_exactly_own(table, owner, keys.drop_last(), keys.last());
        assert(keys.contains(key) <==> keys.drop_last().contains(key) || keys.last() == key) by {
            if keys.contains(key) {
                let k = choose|k: int| 0 <= k < keys.len() && keys[k] == key;
                if k < keys.len() - 1 {
                    assert(keys.drop_last()[k] == key);
                }
            }
            if keys.drop_last().contains(key) {
                let k = choose|k: int|
                    0 <= k < keys.drop_last().len() && keys.drop_last()[k] == key;
                assert(keys[k] == key);
            }
            if keys.last() == key {
                assert(keys[keys.len() - 1] == key);
            }
        }
    }
}

/// A path without detours: it does not end in a separator, and after a separator comes
/// neither another one nor a lone dot.
pub open spec fn is_direct(path: Seq<char>, separator: char) -> bool {
    &&& path.len() > 0
    &&& path.last() != separator
    &&& forall|i: int|
        #![trigger path[i]]
        0 <= i < path.len() - 1 && path[i] == separator ==> path[i + 1] != separator && !(path[i + 1]
            == '.' && (i + 2 == path.len() || path[i + 2] == separator))
}

/// Every name of a direct path counts, but the first may be anything.
proof fn lemma_direct_names(path: Seq<char>, separator: char, j: int)
    requires
        is_direct(path, separator),
        separator != '.',
        1 <= j < crate::text::split(path, separator).len(),
    ensures
        crate::text::split(path, separator)[j].len() > 0,
        crate::text::split(path, separator)[j] != seq!['.'],
{
    let pieces = crate::text::split(path, separator);
    let (before, after) = (pieces.take(j), pieces.skip(j));
    crate::text::law_join_restores_split(path, separator);
    assert(before + after =~= pieces);
    crate::text::lemma_join_of_two_parts(before, after, separator);
    let head = crate::text::join(before, separator);
    let tail = crate::text::join(after, separator);
    assert(path == head.push(separator) + tail);
    let i = head.len() as int;
    assert(path[i] == separator);
    let piece = pieces[j];
    assert(after[0] == piece);
    if after.len() > 1 {
        let rest = after.skip(1);
        assert(seq![piece] + rest =~= after);
        crate::text::lemma_join_of_two_parts(seq![piece], rest, separator);
        assert(tail == piece.push(separator) + crate::text::join(rest, separator));
        assert(tail[piece.len() as int] == separator);
        assert(path[i + 1 + piece.len()] == separator);
    } else {
        assert(after =~= seq![piece]);
        assert(tail == piece);
        if piece.len() == 0 {
            assert(path.last() == separator);
        }
    }
    if piece.len() > 0 {
        assert(tail[0] == piece[0]);
        assert(path[i + 1] == piece[0]);
    }
}

proof fn lemma_all_names_kept(pieces: Seq<Seq<char>>, whole: Seq<char>)
    requires
        whole.len() > 0,
        forall|j: int|
            1 <= j < pieces.len() ==> (#[trigger] pieces[j]).len() > 0 && pieces[j] != seq!['.'],
    ensures
        kept_components(pieces, whole) == pieces,
    decreases pieces.len(),
{
    if pieces.len() > 0 {
        let shorter = pieces.drop_last();
        assert forall|j: int| 1 <= j < shorter.len() implies (#[trigger] shorter[j]).len() > 0
            && shorter[j] != seq!['.'] by {
            assert(shorter[j] == pieces[j]);
        }
        lemma_all_names_kept(shorter, whole);
        assert(pieces[pieces.len() - 1] == pieces.last());
        assert(kept_components(pieces, whole) =~= pieces);
    }
}

proof fn lemma_direct_covers(upper: Seq<char>, lower: Seq<char>, separator: char)
    requires
        is_direct(upper, separator),
        is_direct(lower, separator),
        separator != '.',
    ensures
        covers(upper, lower, separator) <==> upper == lower || (upper.len() < lower.len()
            && lower[upper.len() as int] == separator && lower.take(upper.len() as int) == upper),
{
    let (a, b) = (crate::text::split(upper, separator), crate::text::split(lower, separator));
    assert forall|j: int| 1 <= j < a.len() implies (#[trigger] a[j]).len() > 0 && a[j]
        != seq!['.'] by {
        lemma_direct_names(upper, separator, j);
    }
    assert forall|j: int| 1 <= j < b.len() implies (#[trigger] b[j]).len() > 0 && b[j]
        != seq!['.'] by {
        lemma_direct_names(lower, separator, j);
    }
    lemma_all_names_kept(a, upper);
    lemma_all_names_kept(b, lower);
    crate::text::lemma_split_nonempty(upper, separator);
    crate::text::law_join_restores_split(upper, separator);
    crate::text::law_join_restores_split(lower, separator);
    let n = a.len() as int;
    if covers(upper, lower, separator) {
        if b.len() == n {
            assert(b.take(n) =~= b);
        } else {
            assert(b.take(n) + b.skip(n) =~= b);
            crate::text::lemma_join_of_two_parts(b.take(n), b.skip(n), separator);
            assert(lower == upper.push(separator) + crate::text::join(b.skip(n), separator));
            assert(lower.take(upper.len() as int) =~= upper);
        }
    }
    if upper == lower {
        assert(b.take(n) =~= b);
    } else if upper.len() < lower.len() && lower[upper.len() as int] == separator && lower.take(
        upper.len() as int,
    ) == upper {
        let rest = lower.skip(upper.len() as int + 1);
        assert(lower =~= upper.push(separator) + rest);
        crate::text::law_split_of_two_parts(upper, rest, separator);
        assert(b.take(n) =~= a);
    }
}

/// Two paths without detours overlap exactly if they are the same, or one is the other
/// followed by a separator and more.
pub proof fn law_overlap_is_being_same_or_below(a: Seq<char>, b: Seq<char>, separator: char)
    requires
        is_direct(a, separator),
        is_direct(b, separator),
        separator != '.',
    ensures
        overlaps(a, b, separator) <==> {
            ||| a == b
            ||| a.len() < b.len() && b[a.len() as int] == separator && b.take(a.len() as int) == a
            ||| b.len() < a.len() && a[b.len() as int] == separator && a.take(b.len() as int) == b
        },
{
    lemma_direct_covers(a, b, separator);
    lemma_direct_covers(b, a, separator);
}

proof fn lemma_kept_by_emptiness(pieces: Seq<Seq<char>>, a: Seq<char>, b: Seq<char>)
    requires
        a.len() > 0,
        b.len() > 0,
    ensures
        kept_components(pieces, a) == kept_components(pieces, b),
        pieces.len() > 0 ==> kept_components(pieces, a).len() > 0,
        pieces.len() > 0 ==> kept_components(pieces, a)[0] == pieces[0],
    decreases pieces.len(),
{
    if pieces.len() > 0 {
        lemma_kept_by_emptiness(pieces.drop_last(), a, b);
    }
}

/// Below one place, each name is a place of its own: what has another name does not
/// overlap, and the place itself overlaps both. A separator or a dot at the end changes
/// nothing.
pub proof fn law_siblings_do_not_overlap(
    root: Seq<char>,
    name: Seq<char>,
    other: Seq<char>,
    separator: char,
)
    requires
        root.len() > 0,
        separator != '.',
        name.len() > 0 && !name.contains(separator) && name != seq!['.'],
        other.len() > 0 && !other.contains(separator) && other != seq!['.'],
    ensures
        overlaps(root.push(separator) + name, root.push(separator) + other, separator) <==> name
            == other,
        overlaps(root, root.push(separator) + name, separator),
        components(root.push(separator), separator) == components(root, separator),
        components(root.push(separator).push('.'), separator) == components(root, separator),
{
    let pieces = crate::text::split(root, separator);
    let (a, b) = (root.push(separator) + name, root.push(separator) + other);
    crate::text::lemma_split_nonempty(root, separator);
    crate::text::law_split_of_two_parts(root, name, separator);
    crate::text::law_split_of_two_parts(root, other, separator);
    crate::text::lemma_split_of_one(name, separator);
    crate::text::lemma_split_of_one(other, separator);
    assert(pieces + seq![name] =~= pieces.push(name));
    assert(pieces + seq![other] =~= pieces.push(other));
    assert(pieces.push(name).drop_last() =~= pieces);
    assert(pieces.push(other).drop_last() =~= pieces);
    lemma_kept_by_emptiness(pieces, a, root);
    lemma_kept_by_emptiness(pieces, b, root);
    let kept = components(root, separator);
    assert(components(a, separator) == kept.push(name));
    assert(components(b, separator) == kept.push(other));
    assert(kept.push(name).take(kept.len() as int) =~= kept);
    assert(kept.push(name).take(kept.len() as int + 1) =~= kept.push(name));
    assert(kept.push(other).take(kept.len() as int + 1) =~= kept.push(other));
    assert(kept.push(name)[kept.len() as int] == name);
    assert(kept.push(other)[kept.len() as int] == other);
    let nothing = Seq::<char>::empty();
    crate::text::law_split_of_two_parts(root, nothing, separator);
    assert(root.push(separator) + nothing =~= root.push(separator));
    assert(crate::text::split(nothing, separator) =~= seq![nothing]);
    assert(pieces + seq![nothing] =~= pieces.push(nothing));
    assert(pieces.push(nothing).drop_last() =~= pieces);
    lemma_kept_by_emptiness(pieces, root.push(separator), root);
    let dot = seq!['.'];
    assert(!dot.contains(separator));
    crate::text::law_split_of_two_parts(root, dot, separator);
    crate::text::lemma_split_of_one(dot, separator);
    assert(root.push(separator) + dot =~= root.push(separator).push('.'));
    assert(pieces + seq![dot] =~= pieces.push(dot));
    assert(pieces.push(dot).drop_last() =~= pieces);
    lemma_kept_by_emptiness(pieces, root.push(separator).push('.'), root);
}

/// The root of a tree of files overlaps everything that begins with it, and nothing
/// else.
pub proof fn law_the_root_covers_absolute_paths(path: Seq<char>, separator: char)
    requires
        path.len() > 0,
        separator != '.',
    ensures
        covers(seq![separator], path, separator) <==> path[0] == separator,
{
    let root = seq![separator];
    let nothing = Seq::<char>::empty();
    crate::text::law_split_of_two_parts(nothing, nothing, separator);
    assert(nothing.push(separator) + nothing =~= root);
    assert(crate::text::split(nothing, separator) =~= seq![nothing]);
    assert(seq![nothing] + seq![nothing] =~= seq![nothing, nothing]);
    let two = seq![nothing, nothing];
    assert(two.drop_last() =~= seq![nothing]);
    assert(seq![nothing].drop_last() =~= Seq::<Seq<char>>::empty());
    assert(kept_components(seq![nothing].drop_last(), root) =~= Seq::<Seq<char>>::empty());
    assert(kept_components(seq![nothing], root) =~= seq![nothing]);
    assert(components(root, separator) =~= seq![nothing]);
    let pieces = crate::text::split(path, separator);
    crate::text::lemma_split_nonempty(path, separator);
    crate::text::law_join_restores_split(path, separator);
    crate::text::law_split_pieces_lack_separator(path, separator);
    lemma_kept_by_emptiness(pieces, path, path);
    let first = pieces[0];
    if pieces.len() > 1 {
        assert(seq![first] + pieces.skip(1) =~= pieces);
        crate::text::lemma_join_of_two_parts(seq![first], pieces.skip(1), separator);
        assert(path == first.push(separator) + crate::text::join(pieces.skip(1), separator));
    } else {
        assert(pieces =~= seq![first]);
    }
    if first.len() > 0 {
        assert(path[0] == first[0]);
        assert(first.contains(first[0]));
    } else {
        assert(first =~= nothing);
    }
    let names = components(path, separator);
    assert(names.take(1) =~= seq![names[0]]);
    assert(seq![nothing][0] == nothing);
    if names.take(1) == seq![nothing] {
        assert(names[0] == names.take(1)[0]);
    }
}

/// The key under which a place is leased: its lower-case form, and on Windows the same
/// for either slash and with or without the prefix of a verbatim path.
pub proof fn law_lease_keys(path: Seq<char>, other: Seq<char>, rest: Seq<char>)
    ensures
        lease_key(Platform::Posix, path) == crate::text::unicode_lowercase(path),
        path.len() == other.len() && (forall|i: int|
            #![trigger path[i]]
            #![trigger other[i]]
            0 <= i < path.len() ==> path[i] == other[i] || (path[i] == '/' && other[i] == '\\') || (
            path[i] == '\\' && other[i] == '/')) ==> lease_key(Platform::Windows, path) == lease_key(
            Platform::Windows,
            other,
        ),
        !path.contains('/') ==> {
            let key = lease_key(Platform::Windows, path);
            let lower = crate::text::unicode_lowercase(path);
            let verbatim = seq!['\\', '\\', '?', '\\'];
            let server = seq!['u', 'n', 'c', '\\'];
            &&& lower == verbatim + server + rest ==> key == seq!['\\', '\\'] + rest
            &&& lower == verbatim + rest && !crate::text::starts_with(rest, server) ==> key == rest
            &&& !crate::text::starts_with(lower, verbatim) ==> key == lower
        },
{
    if path.len() == other.len() && (forall|i: int|
        #![trigger path[i]]
        #![trigger other[i]]
        0 <= i < path.len() ==> path[i] == other[i] || (path[i] == '/' && other[i] == '\\') || (
        path[i] == '\\' && other[i] == '/')) {
        assert(replace_slashes(path) =~= replace_slashes(other));
    }
    if !path.contains('/') {
        assert forall|i: int| 0 <= i < path.len() implies path[i] != '/' by {
            assert(path.contains(path[i]));
        }
        assert(replace_slashes(path) =~= path);
        let lower = crate::text::unicode_lowercase(path);
        let verbatim = seq!['\\', '\\', '?', '\\'];
        let server = seq!['u', 'n', 'c', '\\'];
        let both = seq!['\\', '\\', '?', '\\', 'u', 'n', 'c', '\\'];
        assert(verbatim + server =~= both);
        if lower == verbatim + server + rest {
            assert(lower.take(8) =~= both);
            assert(lower.skip(8) =~= rest);
        }
        if lower == verbatim + rest && !crate::text::starts_with(rest, server) {
            assert(lower.take(4) =~= verbatim);
            assert(lower.skip(4) =~= rest);
            if crate::text::starts_with(lower, both) {
                assert forall|i: int| 0 <= i < 4 implies rest.take(4)[i] == server[i] by {
                    assert(lower.take(8)[i + 4] == both[i + 4]);
                }
                assert(rest.take(4) =~= server);
            }
        }
        if !crate::text::starts_with(lower, verbatim) && crate::text::starts_with(lower, both) {
            assert forall|i: int| 0 <= i < 4 implies lower.take(4)[i] == verbatim[i] by {
                assert(lower.take(8)[i] == both[i]);
            }
            assert(lower.take(4) =~= verbatim);
        }
    }
}

proof fn lemma_kept_without(
    before: Seq<Seq<char>>,
    piece: Seq<char>,
    after: Seq<Seq<char>>,
    whole: Seq<char>,
)
    requires
        before.len() > 0,
        piece.len() == 0 || piece == seq!['.'],
    ensures
        kept_components(before.push(piece) + after, whole) == kept_components(before + after, whole),
    decreases after.len(),
{
    let longer = before.push(piece) + after;
    let shorter = before + after;
    if after.len() == 0 {
        assert(longer =~= before.push(piece));
        assert(longer.drop_last() =~= before);
        assert(shorter =~= before);
    } else {
        lemma_kept_without(before, piece, after.drop_last(), whole);
        assert(longer.drop_last() =~= before.push(piece) + after.drop_last());
        assert(shorter.drop_last() =~= before + after.drop_last());
        assert(longer.last() == after.last());
        assert(shorter.last() == after.last());
    }
}

/// Detours lead to the same place: a separator twice in a row, or a dot between two,
/// changes nothing.
pub proof fn law_detours_change_nothing(root: Seq<char>, rest: Seq<char>, separator: char)
    requires
        root.len() > 0,
        separator != '.',
    ensures
        components(root.push(separator).push(separator) + rest, separator) == components(
            root.push(separator) + rest,
            separator,
        ),
        components(root.push(separator).push('.').push(separator) + rest, separator) == components(
            root.push(separator) + rest,
            separator,
        ),
{
    let pieces = crate::text::split(root, separator);
    let after = crate::text::split(rest, separator);
    let nothing = Seq::<char>::empty();
    let dot = seq!['.'];
    let plain = root.push(separator) + rest;
    let twice = root.push(separator).push(separator) + rest;
    let dotted = root.push(separator).push('.').push(separator) + rest;
    crate::text::lemma_split_nonempty(root, separator);
    crate::text::law_split_of_two_parts(root, rest, separator);
    crate::text::law_split_of_two_parts(root, nothing, separator);
    assert(root.push(separator) + nothing =~= root.push(separator));
    assert(crate::text::split(nothing, separator) =~= seq![nothing]);
    assert(pieces + seq![nothing] =~= pieces.push(nothing));
    crate::text::law_split_of_two_parts(root.push(separator), rest, separator);
    lemma_kept_without(pieces, nothing, after, twice);
    lemma_kept_by_emptiness(pieces + after, twice, plain);
    assert(!dot.contains(separator));
    crate::text::law_split_of_two_parts(root, dot, separator);
    crate::text::lemma_split_of_one(dot, separator);
    assert(root.push(separator) + dot =~= root.push(separator).push('.'));
    assert(pieces + seq![dot] =~= pieces.push(dot));
    crate::text::law_split_of_two_parts(root.push(separator).push('.'), rest, separator);
    lemma_kept_without(pieces, dot, after, dotted);
    lemma_kept_by_emptiness(pieces + after, dotted, plain);
}

} // verus!
