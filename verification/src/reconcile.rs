//! Clearing away what a new manifest no longer has.

use crate::error::{DataFault, NetworkFault, TransferError};
use crate::incoming::{no_chunks, IncomingFile};
use crate::lease::{destination_lease_key, lease_key, owner_of, DestinationLeases};
use crate::manifest::{CompletedManifest, IncomingJob, IncomingJobKey, JobView};
use crate::metadata::NodeKind;
use crate::order::{sort, text_le, Ranked};
use crate::path::{is_wire_path, join_components, safe_join, wire_path_error};
use crate::text::{is_text, views, without_first};
use vstd::prelude::*;

verus! {

/// Every text once, in order.
pub open spec fn is_strictly_sorted(texts: Seq<Seq<char>>) -> bool {
    forall|i: int, j: int|
        0 <= i < j < texts.len() ==> text_le(#[trigger] texts[i], #[trigger] texts[j]) && texts[i]
            != texts[j]
}

/// Drops the repetitions from texts that are in order.
fn dedup_sorted(texts: Vec<String>) -> (distinct: Vec<String>)
    requires
        crate::order::is_sorted(texts@),
    ensures
        is_strictly_sorted(views(distinct@)),
        forall|text: Seq<char>| views(distinct@).contains(text) <==> views(texts@).contains(text),
{
    let mut distinct: Vec<String> = Vec::new();
    let mut i: usize = 0;
    while i < texts.len()
        invariant
            i <= texts.len(),
            crate::order::is_sorted(texts@),
            is_strictly_sorted(views(distinct@)),
            distinct@.len() <= i,
            i > 0 ==> distinct@.len() > 0 && distinct@.last()@ == texts@[i - 1]@,
            forall|text: Seq<char>|
                views(distinct@).contains(text) <==> views(texts@.take(i as int)).contains(text),
        decreases texts.len() - i,
    {
        let ghost before = views(distinct@);
        let ghost whole = views(texts@.take(i as int));
        let repeated = distinct.len() > 0 && is_text(
            distinct[distinct.len() - 1].as_str(),
            texts[i].as_str(),
        );
        assert(views(texts@.take(i + 1)) =~= whole.push(texts@[i as int]@));
        if !repeated {
            distinct.push(texts[i].clone());
            assert(views(distinct@) =~= before.push(texts@[i as int]@));
            assert forall|a: int, b: int|
                0 <= a < b < distinct@.len() implies text_le(
                #[trigger] views(distinct@)[a],
                #[trigger] views(distinct@)[b],
            ) && views(distinct@)[a] != views(distinct@)[b] by {
                if b == distinct@.len() - 1 {
                    assert(before.contains(before[a]));
                    let k = choose|k: int| 0 <= k < whole.len() && whole[k] == before[a];
                    assert(texts@[k]@ == before[a]);
                    assert(texts@[k].rank_le(texts@[i as int]));
                    if before[a] == texts@[i as int]@ {
                        let last = before.len() - 1;
                        assert(texts@[i - 1]@ == before[last]);
                        assert(texts@[i - 1].rank_le(texts@[i as int]));
                        if a < last {
                            assert(text_le(before[a], before[last]));
                            crate::order::lemma_text_antisymmetric(before[a], before[last]);
                        }
                    }
                } else {
                    assert(before[a] == views(distinct@)[a] && before[b] == views(distinct@)[b]);
                }
            }
        }
        assert forall|text: Seq<char>|
            views(distinct@).contains(text) <==> views(texts@.take(i + 1)).contains(text) by {
            let after = views(distinct@);
            let longer = views(texts@.take(i + 1));
            if longer.contains(text) {
                let k = choose|k: int| 0 <= k < longer.len() && longer[k] == text;
                if k < i {
                    assert(whole[k] == text);
                    assert(before.contains(text));
                    let m = choose|m: int| 0 <= m < before.len() && before[m] == text;
                    assert(after[m] == text);
                } else {
                    assert(after[after.len() - 1] == text);
                }
            }
            if after.contains(text) {
                let m = choose|m: int| 0 <= m < after.len() && after[m] == text;
                if m < before.len() {
                    assert(before[m] == text);
                    assert(before.contains(text));
                    assert(whole.contains(text));
                    let k = choose|k: int| 0 <= k < whole.len() && whole[k] == text;
                    assert(longer[k] == text);
                } else {
                    assert(longer[i as int] == text);
                }
            }
        }
        i += 1;
    }
    assert(texts@.take(i as int) =~= texts@);
    distinct
}

proof fn lemma_same_texts(a: Seq<String>, b: Seq<String>, text: Seq<char>)
    requires
        a.to_multiset() == b.to_multiset(),
        views(a).contains(text),
    ensures
        views(b).contains(text),
{
    let i = choose|i: int| 0 <= i < views(a).len() && views(a)[i] == text;
    a.to_multiset_ensures();
    b.to_multiset_ensures();
    assert(a.contains(a[i]));
    assert(a.to_multiset().count(a[i]) > 0);
    assert(b.to_multiset().count(a[i]) > 0);
    assert(b.contains(a[i]));
    let j = choose|j: int| 0 <= j < b.len() && b[j] == a[i];
    assert(views(b)[j] == text);
}

/// The paths to look at once a manifest is complete: those whose rows were
/// removed and those that are negotiated, each once and in order.
pub fn stale_paths(removed: Vec<String>, negotiated: Vec<String>) -> (paths: Vec<String>)
    ensures
        is_strictly_sorted(views(paths@)),
        forall|path: Seq<char>| #[trigger]
            views(paths@).contains(path) <==> views(removed@).contains(path) || views(
                negotiated@,
            ).contains(path),
{
    let mut all = removed;
    let mut rest = negotiated;
    all.append(&mut rest);
    let ghost whole = all@;
    assert(views(whole) =~= views(removed@) + views(negotiated@));
    let sorted = sort(all);
    let distinct = dedup_sorted(sorted);
    proof {
        let (left, right) = (views(removed@), views(negotiated@));
        assert forall|path: Seq<char>| #[trigger]
            views(distinct@).contains(path) <==> left.contains(path) || right.contains(path) by {
            if views(distinct@).contains(path) {
                lemma_same_texts(sorted@, whole, path);
                let k = choose|k: int| 0 <= k < (left + right).len() && (left + right)[k] == path;
                if k < left.len() {
                    assert(left[k] == path);
                } else {
                    assert(right[k - left.len()] == path);
                }
            }
            if left.contains(path) {
                let k = choose|k: int| 0 <= k < left.len() && left[k] == path;
                assert((left + right)[k] == path);
                lemma_same_texts(whole, sorted@, path);
            }
            if right.contains(path) {
                let k = choose|k: int| 0 <= k < right.len() && right[k] == path;
                assert((left + right)[k + left.len()] == path);
                lemma_same_texts(whole, sorted@, path);
            }
        }
    }
    distinct
}

/// Where a file of the job goes.
pub open spec fn destination_of(job: JobView, path: Seq<char>, file: Option<&IncomingFile>) -> Seq<
    char,
> {
    match file {
        Some(known) => known@.destination,
        None => join_components(
            job.parameters.platform,
            job.parameters.destination_root,
            crate::text::split(path, '/'),
        ),
    }
}

/// Where a file of the job is staged.
pub open spec fn staging_of(job: JobView, path: Seq<char>, file: Option<&IncomingFile>) -> Seq<char> {
    match file {
        Some(known) => known@.staging,
        None => join_components(
            job.parameters.platform,
            job.parameters.staging_root,
            crate::text::split(path, '/'),
        ),
    }
}

/// Meets one path with the new manifest: gives up its lease where the manifest
/// has it no longer, and says which staged file is to be removed where it is
/// no longer a file.
pub fn reconcile_path(
    job: &mut IncomingJob,
    leases: &mut DestinationLeases,
    manifest: &CompletedManifest,
    path: &str,
    file: Option<&IncomingFile>,
) -> (result: Result<Option<String>, TransferError>)
    requires
        old(job).wf(),
        old(leases).wf(),
    ensures
        final(job).wf(),
        final(leases).wf(),
        final(leases).spec_platform() == old(leases).spec_platform(),
        ({
            let before = old(job)@;
            let owner = before.parameters.key;
            let busy = file matches Some(known) && known@.inflight != no_chunks();
            let located = file is Some || is_wire_path(path@);
            let key = lease_key(
                old(leases).spec_platform(),
                destination_of(before, path@, file),
            );
            let kept = manifest.all_paths@.contains(path@);
            match result {
                Ok(staging) => {
                    &&& !busy && located
                    &&& kept ==> final(leases)@ == old(leases)@ && final(job)@ == before
                    &&& !kept ==> final(leases)@ == DestinationLeases::released(
                        old(leases)@,
                        owner,
                        key,
                    ) && final(job)@ == (JobView {
                        leases: without_first(before.leases, key),
                        ..before
                    })
                    &&& match staging {
                        None => manifest.file_paths@.contains(path@),
                        Some(staged) => !manifest.file_paths@.contains(path@) && staged@
                            == staging_of(before, path@, file),
                    }
                },
                Err(TransferError::Network(NetworkFault::RemovedPathBusy { path: p })) => {
                    &&& busy
                    &&& p@ == path@
                    &&& final(leases)@ == old(leases)@ && final(job)@ == before
                },
                Err(TransferError::InvalidData(DataFault::RejectedPath { source })) => {
                    &&& !busy && !located
                    &&& wire_path_error(path@) == Some(source)
                    &&& final(leases)@ == old(leases)@ && final(job)@ == before
                },
                Err(_) => false,
            }
        }),
{
    if let Some(known) = file {
        if !known.is_quiet() {
            return Err(
                TransferError::Network(NetworkFault::RemovedPathBusy { path: path.to_owned() }),
            );
        }
    }
    let destination = match file {
        Some(known) => known.destination().to_owned(),
        None => match safe_join(job.platform(), job.destination_root(), path) {
            Ok(joined) => joined,
            Err(source) => {
                return Err(TransferError::InvalidData(DataFault::RejectedPath { source }));
            },
        },
    };
    if !manifest.all_paths.contains(path) {
        let key = destination_lease_key(leases.platform(), destination.as_str());
        leases.release_destination_lease(job.key(), key.as_str());
        job.forget_lease(key.as_str());
    }
    if manifest.file_paths.contains(path) {
        return Ok(None);
    }
    let staging = match file {
        Some(known) => known.staging().to_owned(),
        None => match safe_join(job.platform(), job.staging_root(), path) {
            Ok(joined) => joined,
            Err(source) => {
                return Err(TransferError::InvalidData(DataFault::RejectedPath { source }));
            },
        },
    };
    Ok(Some(staging))
}

/// Decides whether a staged file that is no longer wanted is to be removed,
/// given what is found in its place.
pub fn check_stale_staging(staging: &str, found: Option<NodeKind>) -> (result: Result<
    bool,
    TransferError,
>)
    ensures
        match (found, result) {
            (None, Ok(remove)) => !remove,
            (Some(kind), Ok(remove)) => kind == NodeKind::File && remove,
            (
                Some(kind),
                Err(TransferError::InvalidData(DataFault::StaleStagingNotFile { path })),
            ) => kind != NodeKind::File && path@ == staging@,
            _ => false,
        },
{
    match found {
        None => Ok(false),
        Some(kind) => {
            if kind == NodeKind::File {
                Ok(true)
            } else {
                Err(
                    TransferError::InvalidData(
                        DataFault::StaleStagingNotFile { path: staging.to_owned() },
                    ),
                )
            }
        },
    }
}

/// Decides whether the staging directory of a completed job is to be removed,
/// given what is found in its place.
pub fn cleanup_staging_root(root: &str, found: Option<NodeKind>) -> (result: Result<
    bool,
    TransferError,
>)
    ensures
        match (found, result) {
            (None, Ok(remove)) => !remove,
            (Some(kind), Ok(remove)) => kind == NodeKind::Directory && remove,
            (
                Some(kind),
                Err(TransferError::InvalidData(DataFault::StagingRootNotDirectory { path })),
            ) => kind != NodeKind::Directory && path@ == root@,
            _ => false,
        },
{
    match found {
        None => Ok(false),
        Some(kind) => {
            if kind == NodeKind::Directory {
                Ok(true)
            } else {
                Err(
                    TransferError::InvalidData(
                        DataFault::StagingRootNotDirectory { path: root.to_owned() },
                    ),
                )
            }
        },
    }
}

/// A lease of the job for a path that the manifest does not have. The lease on
/// the root is for no path and stays.
pub open spec fn is_stale(
    table: Map<Seq<char>, (u128, u128, Seq<char>)>,
    owner: IncomingJobKey,
    paths: Set<Seq<char>>,
    key: Seq<char>,
) -> bool {
    &&& table.contains_key(key)
    &&& owner_of(table[key]) == owner
    &&& table[key].2.len() > 0
    &&& !paths.contains(table[key].2)
}

/// Gives up the leases that the job noted for paths that the manifest does not
/// have; all others stay.
pub fn release_stale_leases(
    job: &mut IncomingJob,
    leases: &mut DestinationLeases,
    manifest: &CompletedManifest,
)
    requires
        old(job).wf(),
        old(leases).wf(),
    ensures
        final(job).wf(),
        final(leases).wf(),
        final(leases).spec_platform() == old(leases).spec_platform(),
        final(job)@ == (JobView { leases: final(job)@.leases, ..old(job)@ }),
        ({
            let owner = old(job)@.parameters.key;
            let paths = manifest.all_paths@;
            &&& forall|key: Seq<char>| #[trigger]
                final(leases)@.contains_key(key) <==> old(leases)@.contains_key(key) && !(
                old(job)@.leases.contains(key) && is_stale(old(leases)@, owner, paths, key))
            &&& forall|key: Seq<char>| #[trigger]
                final(leases)@.contains_key(key) ==> final(leases)@[key] == old(leases)@[key]
            &&& forall|key: Seq<char>| #[trigger]
                final(job)@.leases.contains(key) <==> old(job)@.leases.contains(key) && !is_stale(
                    old(leases)@,
                    owner,
                    paths,
                    key,
                )
        }),
{
    let owner = job.key();
    let keys = job.lease_keys();
    let ghost table = leases@;
    let ghost paths = manifest.all_paths@;
    let ghost noted = job@.leases;
    proof {
        job.lemma_leases_differ();
    }
    let mut i: usize = 0;
    while i < keys.len()
        invariant
            i <= keys.len(),
            job.wf(),
            leases.wf(),
            leases.spec_platform() == old(leases).spec_platform(),
            job@ == (JobView { leases: job@.leases, ..old(job)@ }),
            owner == old(job)@.parameters.key,
            table == old(leases)@,
            paths == manifest.all_paths@,
            noted == old(job)@.leases,
            noted.no_duplicates(),
            views(keys@) == noted,
            forall|key: Seq<char>| #[trigger]
                leases@.contains_key(key) <==> table.contains_key(key) && !(noted.take(
                    i as int,
                ).contains(key) && is_stale(table, owner, paths, key)),
            forall|key: Seq<char>| #[trigger]
                leases@.contains_key(key) ==> leases@[key] == table[key],
            forall|key: Seq<char>| #[trigger]
                job@.leases.contains(key) <==> noted.contains(key) && !(noted.take(
                    i as int,
                ).contains(key) && is_stale(table, owner, paths, key)),
        decreases keys.len() - i,
    {
        let key = keys[i].as_str();
        let ghost current = leases@;
        let ghost listed = job@.leases;
        assert(noted[i as int] == key@);
        assert(!noted.take(i as int).contains(key@)) by {
            if noted.take(i as int).contains(key@) {
                let k = choose|k: int|
                    0 <= k < noted.take(i as int).len() && noted.take(i as int)[k] == key@;
                assert(noted[k] == noted[i as int]);
            }
        }
        assert(noted.take(i + 1) =~= noted.take(i as int).push(key@));
        assert forall|other: Seq<char>| #[trigger]
            noted.take(i + 1).contains(other) <==> noted.take(i as int).contains(other) || other
                == key@ by {
            lemma_push_contains(noted.take(i as int), key@, other);
        }
        assert(noted.contains(key@));
        let stale = match leases.lease_under(key) {
            Some(lease) => lease.owner == owner && !lease.wire_path.as_str().is_empty()
                && !manifest.all_paths.contains(lease.wire_path.as_str()),
            None => false,
        };
        assert(stale == is_stale(table, owner, paths, key@));
        if stale {
            proof {
                job.lemma_leases_differ();
                assert forall|other: Seq<char>| #[trigger]
                    without_first(listed, key@).contains(other) <==> listed.contains(other) && other
                        != key@ by {
                    lemma_without_first_contains(listed, key@, other);
                }
            }
            leases.release_destination_lease(owner, key);
            job.forget_lease(key);
        }
        i += 1;
    }
    assert(noted.take(i as int) =~= noted);
}

proof fn lemma_push_contains(texts: Seq<Seq<char>>, last: Seq<char>, wanted: Seq<char>)
    ensures
        texts.push(last).contains(wanted) <==> texts.contains(wanted) || wanted == last,
{
    let longer = texts.push(last);
    if longer.contains(wanted) {
        let k = choose|k: int| 0 <= k < longer.len() && longer[k] == wanted;
        if k < texts.len() {
            assert(texts[k] == wanted);
        }
    }
    if texts.contains(wanted) {
        let k = choose|k: int| 0 <= k < texts.len() && texts[k] == wanted;
        assert(longer[k] == wanted);
    }
    assert(longer[texts.len() as int] == last);
}

proof fn lemma_without_first_contains(texts: Seq<Seq<char>>, removed: Seq<char>, wanted: Seq<char>)
    requires
        texts.no_duplicates(),
    ensures
        without_first(texts, removed).contains(wanted) <==> texts.contains(wanted) && wanted
            != removed,
    decreases texts.len(),
{
    if texts.len() > 0 {
        let rest = texts.skip(1);
        assert(rest.no_duplicates());
        lemma_without_first_contains(rest, removed, wanted);
        assert(texts.contains(wanted) <==> texts[0] == wanted || rest.contains(wanted)) by {
            if texts.contains(wanted) {
                let k = choose|k: int| 0 <= k < texts.len() && texts[k] == wanted;
                if k > 0 {
                    assert(rest[k - 1] == wanted);
                }
            }
            if rest.contains(wanted) {
                let k = choose|k: int| 0 <= k < rest.len() && rest[k] == wanted;
                assert(texts[k + 1] == wanted);
            }
        }
        if texts[0] == removed {
            if rest.contains(removed) {
                let k = choose|k: int| 0 <= k < rest.len() && rest[k] == removed;
                assert(texts[k + 1] == texts[0]);
            }
        } else {
            let tail = without_first(rest, removed);
            let whole = seq![texts[0]] + tail;
            if whole.contains(wanted) {
                let k = choose|k: int| 0 <= k < whole.len() && whole[k] == wanted;
                if k > 0 {
                    assert(tail[k - 1] == wanted);
                }
            }
            if tail.contains(wanted) {
                let k = choose|k: int| 0 <= k < tail.len() && tail[k] == wanted;
                assert(whole[k + 1] == wanted);
            }
            assert(whole[0] == texts[0]);
        }
    }
}

/// What becomes stale when a manifest is complete: the leases of the job for paths that
/// the manifest does not have. Those of other jobs, of its own paths and of the root stay.
pub proof fn law_what_leases_are_stale(
    table: Map<Seq<char>, (u128, u128, Seq<char>)>,
    owner: IncomingJobKey,
    paths: Set<Seq<char>>,
    key: Seq<char>,
)
    requires
        table.contains_key(key),
    ensures
        table[key].0 != owner.peer_id.bits ==> !is_stale(table, owner, paths, key),
        table[key].1 != owner.job_id.bits ==> !is_stale(table, owner, paths, key),
        paths.contains(table[key].2) ==> !is_stale(table, owner, paths, key),
        table[key].2 == Seq::<char>::empty() ==> !is_stale(table, owner, paths, key),
        table[key].0 == owner.peer_id.bits && table[key].1 == owner.job_id.bits && !paths.contains(
            table[key].2,
        ) && table[key].2 != Seq::<char>::empty() ==> is_stale(table, owner, paths, key),
{
    if table[key].2.len() == 0 {
        assert(table[key].2 =~= Seq::<char>::empty());
    }
}

/// A file stays where it was negotiated; one that was not negotiated lies under the root
/// and the staging root by its path.
pub proof fn law_where_a_stale_file_lies(job: JobView, path: Seq<char>, file: &IncomingFile)
    requires
        is_wire_path(path),
    ensures
        destination_of(job, path, Some(file)) == file@.destination,
        staging_of(job, path, Some(file)) == file@.staging,
        ({
            let platform = job.parameters.platform;
            let root = job.parameters.destination_root;
            let staging = job.parameters.staging_root;
            &&& platform is Posix && !crate::path::takes_name(platform, root) ==> destination_of(
                job,
                path,
                None,
            ) == root.push('/') + path
            &&& platform is Posix && !crate::path::takes_name(platform, staging) ==> staging_of(
                job,
                path,
                None,
            ) == staging.push('/') + path
        }),
{
    let platform = job.parameters.platform;
    if platform is Posix && !crate::path::takes_name(platform, job.parameters.destination_root) {
        crate::path::law_joined_path_stays_below_root(
            platform,
            job.parameters.destination_root,
            path,
        );
    }
    if platform is Posix && !crate::path::takes_name(platform, job.parameters.staging_root) {
        crate::path::law_joined_path_stays_below_root(platform, job.parameters.staging_root, path);
    }
}

} // verus!
