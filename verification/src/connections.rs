//! How many connections work on each incoming job.

use crate::ids::Uuid;
use crate::manifest::IncomingJobKey;
use vstd::prelude::*;

verus! {

/// The number under each pair of peer and job.
pub uninterp spec fn count_table(
    map: dashmap::DashMap<(u128, u128), usize>,
) -> Map<(u128, u128), usize>;

/// The pairs of peer and job that a map holds.
pub uninterp spec fn job_set(map: dashmap::DashMap<(u128, u128), ()>) -> Set<(u128, u128)>;

/// A table without counts.
pub open spec fn no_counts() -> Map<(u128, u128), usize> {
    Map::empty()
}

/// A set without jobs.
pub open spec fn no_jobs() -> Set<(u128, u128)> {
    Set::empty()
}

/// The number under a key, if there is one.
pub open spec fn count_under(table: Map<(u128, u128), usize>, key: (u128, u128)) -> Option<usize> {
    if table.contains_key(key) {
        Some(table[key])
    } else {
        None
    }
}

/// `dashmap::DashMap::new`: an empty map.
#[verifier::external_body]
fn new_count_map() -> (map: dashmap::DashMap<(u128, u128), usize>)
    ensures
        count_table(map) == no_counts(),
{
    dashmap::DashMap::new()
}

/// `dashmap::DashMap::get`: the value under a key, if there is one.
#[verifier::external_body]
fn read_count(map: &dashmap::DashMap<(u128, u128), usize>, key: (u128, u128)) -> (count: Option<
    usize,
>)
    ensures
        count == count_under(count_table(*map), key),
{
    map.get(&key).map(|entry| *entry.value())
}

/// `dashmap::DashMap::insert`: the value stands under the key afterwards.
#[verifier::external_body]
fn write_count(map: &mut dashmap::DashMap<(u128, u128), usize>, key: (u128, u128), count: usize)
    ensures
        count_table(*final(map)) == count_table(*old(map)).insert(key, count),
{
    map.insert(key, count);
}

/// `dashmap::DashMap::remove`: nothing stands under the key afterwards.
#[verifier::external_body]
fn remove_count(map: &mut dashmap::DashMap<(u128, u128), usize>, key: (u128, u128))
    ensures
        count_table(*final(map)) == count_table(*old(map)).remove(key),
{
    map.remove(&key);
}

/// `dashmap::DashMap::new`: an empty map.
#[verifier::external_body]
fn new_job_map() -> (map: dashmap::DashMap<(u128, u128), ()>)
    ensures
        job_set(map) == no_jobs(),
{
    dashmap::DashMap::new()
}

/// `dashmap::DashMap::insert`: the key is held afterwards; says whether it was
/// held before.
#[verifier::external_body]
fn insert_job(map: &mut dashmap::DashMap<(u128, u128), ()>, key: (u128, u128)) -> (held: bool)
    ensures
        job_set(*final(map)) == job_set(*old(map)).insert(key),
        held == job_set(*old(map)).contains(key),
{
    map.insert(key, ()).is_some()
}

/// `dashmap::DashMap::remove`: the key is not held afterwards.
#[verifier::external_body]
fn remove_job(map: &mut dashmap::DashMap<(u128, u128), ()>, key: (u128, u128))
    ensures
        job_set(*final(map)) == job_set(*old(map)).remove(key),
{
    map.remove(&key);
}

/// `dashmap::DashMap::iter`: every key once, in no particular order.
#[verifier::external_body]
fn list_jobs(map: &dashmap::DashMap<(u128, u128), ()>) -> (keys: Vec<(u128, u128)>)
    ensures
        keys@.no_duplicates(),
        keys@.to_set() == job_set(*map),
{
    map.iter().map(|entry| *entry.key()).collect()
}

pub open spec fn key_bits(key: IncomingJobKey) -> (u128, u128) {
    (key.peer_id.bits, key.job_id.bits)
}

/// The jobs that one connection has asked for.
pub struct ConnectionJobs {
    jobs: dashmap::DashMap<(u128, u128), ()>,
}

impl ConnectionJobs {
    pub closed spec fn view(&self) -> Set<(u128, u128)> {
        job_set(self.jobs)
    }

    pub fn new() -> (jobs: Self)
        ensures
            jobs@ == no_jobs(),
    {
        ConnectionJobs { jobs: new_job_map() }
    }

    /// A connection that has asked for one job.
    pub fn only(key: IncomingJobKey) -> (jobs: Self)
        ensures
            jobs@ == no_jobs().insert(key_bits(key)),
    {
        let mut jobs = Self::new();
        insert_job(&mut jobs.jobs, (key.peer_id.bits, key.job_id.bits));
        jobs
    }

    pub fn remove(&mut self, key: IncomingJobKey)
        ensures
            final(self)@ == old(self)@.remove(key_bits(key)),
    {
        remove_job(&mut self.jobs, (key.peer_id.bits, key.job_id.bits));
    }
}

/// The number of connections for each job.
pub struct JobConnections {
    counts: dashmap::DashMap<(u128, u128), usize>,
}

/// The counts once a connection has asked for a job for the first time.
pub open spec fn registered(
    table: Map<(u128, u128), usize>,
    key: (u128, u128),
) -> Map<(u128, u128), usize> {
    table.insert(
        key,
        match count_under(table, key) {
            Some(count) => if count < usize::MAX {
                (count + 1) as usize
            } else {
                count
            },
            None => 1,
        },
    )
}

/// The count of a job once one connection less works on it.
pub open spec fn closed_count(count: Option<usize>) -> Option<usize> {
    match count {
        Some(count) => if count > 1 {
            Some((count - 1) as usize)
        } else {
            None
        },
        None => None,
    }
}

/// A job that loses its last connection.
pub open spec fn is_abandoned(
    table: Map<(u128, u128), usize>,
    jobs: Set<(u128, u128)>,
    key: (u128, u128),
) -> bool {
    jobs.contains(key) && table.contains_key(key) && table[key] <= 1
}

impl JobConnections {
    pub closed spec fn view(&self) -> Map<(u128, u128), usize> {
        count_table(self.counts)
    }

    pub fn new() -> (connections: Self)
        ensures
            connections@ == no_counts(),
    {
        JobConnections { counts: new_count_map() }
    }

    /// Counts a connection for a job, once; says whether it was counted now.
    pub fn register_job_connection(&mut self, key: IncomingJobKey, jobs: &mut ConnectionJobs) -> (
        newly: bool)
        ensures
            newly == !old(jobs)@.contains(key_bits(key)),
            final(jobs)@ == old(jobs)@.insert(key_bits(key)),
            newly ==> final(self)@ == registered(old(self)@, key_bits(key)),
            !newly ==> final(self)@ == old(self)@,
    {
        let bits = (key.peer_id.bits, key.job_id.bits);
        if insert_job(&mut jobs.jobs, bits) {
            return false;
        }
        let next = match read_count(&self.counts, bits) {
            Some(count) => count.saturating_add(1),
            None => 1,
        };
        write_count(&mut self.counts, bits, next);
        true
    }

    /// Whether some connection works on a job.
    pub fn is_connected(&self, key: IncomingJobKey) -> (yes: bool)
        ensures
            yes == self@.contains_key(key_bits(key)),
    {
        read_count(&self.counts, (key.peer_id.bits, key.job_id.bits)).is_some()
    }

    /// Takes a closed connection off its jobs; the jobs that no connection works
    /// on any more come out, each once.
    pub fn connection_closed(&mut self, jobs: &ConnectionJobs) -> (abandoned: Vec<IncomingJobKey>)
        ensures
            forall|key: (u128, u128)| #[trigger]
                count_under(final(self)@, key) == (if jobs@.contains(key) {
                    closed_count(count_under(old(self)@, key))
                } else {
                    count_under(old(self)@, key)
                }),
            abandoned@.no_duplicates(),
            forall|key: IncomingJobKey| #[trigger]
                abandoned@.contains(key) <==> is_abandoned(old(self)@, jobs@, key_bits(key)),
    {
        let keys = list_jobs(&jobs.jobs);
        let ghost table = self@;
        let mut abandoned: Vec<IncomingJobKey> = Vec::new();
        let mut i: usize = 0;
        assert forall|key: (u128, u128)| #[trigger] keys@.contains(key) <==> jobs@.contains(key) by {
            assert(keys@.to_set().contains(key) <==> keys@.contains(key));
        }
        while i < keys.len()
            invariant
                i <= keys.len(),
                keys@.no_duplicates(),
                forall|key: (u128, u128)| #[trigger]
                    count_under(self@, key) == (if keys@.take(i as int).contains(key) {
                        closed_count(count_under(table, key))
                    } else {
                        count_under(table, key)
                    }),
                abandoned@.no_duplicates(),
                forall|key: IncomingJobKey| #[trigger]
                    abandoned@.contains(key) <==> keys@.take(i as int).contains(key_bits(key))
                        && table.contains_key(key_bits(key)) && table[key_bits(key)] <= 1,
            decreases keys.len() - i,
        {
            let bits = keys[i];
            let ghost before = self@;
            let ghost done = keys@.take(i as int);
            let ghost more = keys@.take(i + 1);
            let ghost listed = abandoned@;
            proof {
                assert(more =~= done.push(bits));
                assert(!done.contains(bits)) by {
                    if done.contains(bits) {
                        let k = choose|k: int| 0 <= k < done.len() && done[k] == bits;
                        assert(keys@[k] == keys@[i as int]);
                    }
                }
                assert forall|key: (u128, u128)| #[trigger] more.contains(key) <==> done.contains(
                    key,
                ) || key == bits by {
                    if done.contains(key) {
                        let k = choose|k: int| 0 <= k < done.len() && done[k] == key;
                        assert(more[k] == key);
                    }
                    if key == bits {
                        assert(more[more.len() - 1] == key);
                    }
                    if more.contains(key) {
                        let k = choose|k: int| 0 <= k < more.len() && more[k] == key;
                        if k < done.len() {
                            assert(done[k] == key);
                        }
                    }
                }
                assert(count_under(before, bits) == count_under(table, bits));
            }
            match read_count(&self.counts, bits) {
                Some(count) => {
                    if count > 1 {
                        write_count(&mut self.counts, bits, count - 1);
                    } else {
                        remove_count(&mut self.counts, bits);
                        let key = IncomingJobKey {
                            peer_id: Uuid { bits: bits.0 },
                            job_id: Uuid { bits: bits.1 },
                        };
                        assert(!listed.contains(key));
                        abandoned.push(key);
                        assert forall|k: IncomingJobKey| #[trigger]
                            abandoned@.contains(k) <==> listed.contains(k) || k == key by {
                            if listed.contains(k) {
                                let j = choose|j: int| 0 <= j < listed.len() && listed[j] == k;
                                assert(abandoned@[j] == k);
                            }
                            if k == key {
                                assert(abandoned@[abandoned@.len() - 1] == k);
                            }
                            if abandoned@.contains(k) {
                                let j = choose|j: int|
                                    0 <= j < abandoned@.len() && abandoned@[j] == k;
                                if j < listed.len() {
                                    assert(listed[j] == k);
                                }
                            }
                        }
                    }
                },
                None => {},
            }
            proof {
                assert forall|key: (u128, u128)| #[trigger]
                    count_under(self@, key) == (if more.contains(key) {
                        closed_count(count_under(table, key))
                    } else {
                        count_under(table, key)
                    }) by {
                    if key != bits {
                        assert(count_under(self@, key) == count_under(before, key));
                    }
                }
                assert forall|key: IncomingJobKey| #[trigger]
                    abandoned@.contains(key) <==> more.contains(key_bits(key))
                        && table.contains_key(key_bits(key)) && table[key_bits(key)] <= 1 by {
                    assert(listed.contains(key) <==> done.contains(key_bits(key))
                        && table.contains_key(key_bits(key)) && table[key_bits(key)] <= 1);
                    assert(count_under(table, bits) is Some <==> table.contains_key(bits));
                }
            }
            i += 1;
        }
        assert(keys@.take(i as int) =~= keys@);
        abandoned
    }
}

/// A connection that asked for a job and then closed leaves the job's count as
/// it was, and abandons the job exactly where no other connection worked on it.
pub proof fn law_close_undoes_register(table: Map<(u128, u128), usize>, key: (u128, u128))
    requires
        table.contains_key(key) ==> 1 <= table[key] < usize::MAX,
    ensures
        closed_count(count_under(registered(table, key), key)) == count_under(table, key),
        is_abandoned(registered(table, key), no_jobs().insert(key), key) <==> !table.contains_key(key),
{
}

/// A job is abandoned by the last connection that works on it: while another does, or
/// where none of it asked for the job, it is not.
pub proof fn law_the_last_connection_abandons(
    table: Map<(u128, u128), usize>,
    jobs: Set<(u128, u128)>,
    key: (u128, u128),
    other: (u128, u128),
)
    requires
        table.contains_key(key) ==> 1 <= table[key] < usize::MAX,
    ensures
        !jobs.contains(key) ==> !is_abandoned(table, jobs, key),
        table.contains_key(key) && table[key] >= 2 ==> !is_abandoned(table, jobs, key),
        table.contains_key(key) && table[key] == 1 && jobs.contains(key) ==> is_abandoned(
            table,
            jobs,
            key,
        ),
        registered(table, key)[key] == if table.contains_key(key) {
            table[key] + 1
        } else {
            1
        },
        other != key ==> count_under(registered(table, key), other) == count_under(table, other),
        table.contains_key(key) && table[key] >= 2 ==> closed_count(count_under(table, key)) == Some(
            (table[key] - 1) as usize,
        ),
        table.contains_key(key) && table[key] == 1 ==> closed_count(count_under(table, key)) is None,
{
}

} // verus!
