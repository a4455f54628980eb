//! Comparing the manifest of a sender with the destination.

use crate::decisions::{decides_batch, decision_paths, entry_paths, is_unwanted};
use crate::error::{DataFault, NetworkFault, TransferError};
use crate::filesystem::destination_candidate_path;
use crate::ids::{parsed, Uuid};
use crate::lease::{
    destination_lease_key, is_conflict, lease_key, owner_of, separator_of, DestinationLeases,
};
use crate::manifest::{
    begun, entry_conflict, first_component, is_same_name, CompletedManifest, EntryConflict,
    IncomingJob, IncomingJobKey, JobPhase, JobView, Platform,
};
use crate::metadata::metadata_matches;
use crate::model::{FileType, ManifestEntry, VerificationMode};
use crate::path::{is_wire_path, join_components, wire_path_error};
use crate::receiver::validate_chunk_size;
use crate::records::{job_file_record, JobFileRecord, JobFileStatus};
use crate::stream::{
    CompareAction, CompareBatch, CompareDecision, CompareDecisionBatch, Response,
};
use crate::text::is_text;
use vstd::prelude::*;

verus! {

/// The manifest that a stored setting names.
pub open spec fn stored_manifest(setting: Option<&str>) -> Option<Uuid> {
    match setting {
        Some(text) => parsed(text@),
        None => None,
    }
}

/// The manifest that was committed last, where its setting can be read.
pub fn parse_stored_manifest(setting: Option<&str>) -> (manifest_id: Option<Uuid>)
    ensures
        manifest_id == stored_manifest(setting),
{
    match setting {
        Some(text) => Uuid::parse(text),
        None => None,
    }
}

/// The parameters of a batch are not those with which the job began.
pub open spec fn changes_parameters(job: JobView, platform: Platform, batch: CompareBatch) -> bool {
    ||| lease_key(platform, job.parameters.requested_destination_root) != lease_key(
        platform,
        batch.destination_root@,
    )
    ||| job.parameters.verification_mode != batch.verification_mode
    ||| job.parameters.chunk_size != batch.chunk_size
}

/// Admits a batch: its chunk size must be usable, its manifest must not be the
/// one committed last, and it must not change the parameters of its job.
pub fn check_compare_request(
    batch: &CompareBatch,
    committed: Option<&str>,
    existing: Option<&IncomingJob>,
    platform: Platform,
) -> (result: Result<(), TransferError>)
    ensures
        ({
            let usable = 0 < batch.chunk_size <= usize::MAX;
            let repeated = stored_manifest(committed) == Some(batch.manifest_id);
            let changed = existing matches Some(job) && changes_parameters(
                job@,
                platform,
                *batch,
            );
            match result {
                Ok(_) => usable && !repeated && !changed,
                Err(TransferError::InvalidData(DataFault::InvalidChunkSize { chunk_size })) => !usable
                    && chunk_size == batch.chunk_size,
                Err(
                    TransferError::InvalidData(
                        DataFault::ManifestIdCommitted { manifest_id, job_id },
                    ),
                ) => {
                    &&& usable && repeated
                    &&& manifest_id == batch.manifest_id
                    &&& job_id == batch.job_id
                },
                Err(TransferError::InvalidData(DataFault::ParametersChanged { job_id })) => {
                    &&& usable && !repeated && changed
                    &&& job_id == batch.job_id
                },
                Err(_) => false,
            }
        }),
{
    if let Err(error) = validate_chunk_size(batch.chunk_size) {
        return Err(error);
    }
    if let Some(manifest_id) = parse_stored_manifest(committed) {
        if manifest_id == batch.manifest_id {
            return Err(
                TransferError::InvalidData(
                    DataFault::ManifestIdCommitted {
                        manifest_id: batch.manifest_id,
                        job_id: batch.job_id,
                    },
                ),
            );
        }
    }
    if let Some(job) = existing {
        let known = destination_lease_key(platform, job.requested_destination_root());
        let asked = destination_lease_key(platform, batch.destination_root.as_str());
        if !is_text(known.as_str(), asked.as_str()) || job.verification_mode()
            != batch.verification_mode || job.chunk_size() != batch.chunk_size {
            return Err(
                TransferError::InvalidData(
                    DataFault::ParametersChanged { job_id: batch.job_id },
                ),
            );
        }
    }
    Ok(())
}

/// The directory for staged files of a job below its destination root, and
/// that directory's name, given the token stored for the job.
pub fn staging_root(
    platform: Platform,
    destination_root: &str,
    key: IncomingJobKey,
    stored: &str,
) -> (result: Result<(String, String), TransferError>)
    ensures
        match result {
            Ok((root, name)) => {
                &&& parsed(stored@) matches Some(token) && name@ == ".fastsync-stage-"@
                    + token.spec_text()
                &&& root@ == crate::path::push_component(platform, destination_root@, name@)
            },
            Err(TransferError::InvalidData(DataFault::StagingTokenInvalid { job_id })) => parsed(
                stored@,
            ) is None && job_id == key.job_id,
            Err(_) => false,
        },
{
    match Uuid::parse(stored) {
        None => Err(
            TransferError::InvalidData(DataFault::StagingTokenInvalid { job_id: key.job_id }),
        ),
        Some(token) => {
            let mut name = ".fastsync-stage-".to_owned();
            name.append(token.to_text().as_str());
            let mut root = crate::text::to_chars(destination_root);
            crate::path::append_component(
                platform,
                &mut root,
                &crate::text::to_chars(name.as_str()),
            );
            Ok((crate::text::from_chars(&root), name))
        },
    }
}

/// A lease on the path can be had, or is held already for the same wire path.
pub open spec fn can_lease(
    leases: DestinationLeases,
    owner: IncomingJobKey,
    path: Seq<char>,
    wire_path: Seq<char>,
) -> bool {
    let key = lease_key(leases.spec_platform(), path);
    &&& forall|existing: Seq<char>| #[trigger]
        leases@.contains_key(existing) ==> !is_conflict(
            leases@,
            owner,
            key,
            separator_of(leases.spec_platform()),
            existing,
        )
    &&& leases@.contains_key(key) ==> leases@[key].2 == wire_path
}

/// Why a lease cannot be had: another job holds one on or above or below the
/// path, or the job itself holds this one for another wire path.
pub open spec fn is_lease_refusal(
    leases: DestinationLeases,
    owner: IncomingJobKey,
    destination: Seq<char>,
    wire_path: Seq<char>,
    error: TransferError,
) -> bool {
    let table = leases@;
    let key = lease_key(leases.spec_platform(), destination);
    let separator = separator_of(leases.spec_platform());
    match error {
        TransferError::Network(
            NetworkFault::DestinationOverlaps { destination: d, job_id, path },
        ) => {
            &&& d@ == destination
            &&& exists|existing: Seq<char>|
                #![trigger table[existing]]
                is_conflict(table, owner, key, separator, existing) && owner_of(
                    table[existing],
                ).job_id == job_id && table[existing].2 == path@
        },
        TransferError::InvalidData(DataFault::LeaseReserved { destination: d, job_id, path }) => {
            &&& forall|existing: Seq<char>| #[trigger]
                table.contains_key(existing) ==> !is_conflict(
                    table,
                    owner,
                    key,
                    separator,
                    existing,
                )
            &&& d@ == destination
            &&& table.contains_key(key) && table[key].2 != wire_path
            &&& job_id == owner.job_id
            &&& path@ == table[key].2
        },
        _ => false,
    }
}

/// The leases with one more.
pub open spec fn with_lease(
    leases: DestinationLeases,
    owner: IncomingJobKey,
    destination: Seq<char>,
    wire_path: Seq<char>,
) -> Map<Seq<char>, (u128, u128, Seq<char>)> {
    let key = lease_key(leases.spec_platform(), destination);
    if leases@.contains_key(key) {
        leases@
    } else {
        leases@.insert(key, (owner.peer_id.bits, owner.job_id.bits, wire_path))
    }
}

/// What the job remembers of its leases, with one more.
pub open spec fn remembering(job: JobView, key: Seq<char>) -> JobView {
    JobView {
        leases: if job.leases.contains(key) {
            job.leases
        } else {
            job.leases.push(key)
        },
        ..job
    }
}

/// The parameters with which a batch meets its job.
pub open spec fn has_parameters(
    job: JobView,
    destination_root: Seq<char>,
    verification_mode: VerificationMode,
    chunk_size: u64,
) -> bool {
    &&& job.parameters.destination_root == destination_root
    &&& job.parameters.verification_mode == verification_mode
    &&& job.parameters.chunk_size == chunk_size
}

/// Opens a job for a batch: leases its root, holds the batch to the parameters
/// of the job and requires that the job is active.
pub fn open_job(
    job: &mut IncomingJob,
    leases: &mut DestinationLeases,
    destination_root: &str,
    verification_mode: VerificationMode,
    chunk_size: u64,
) -> (result: Result<(), TransferError>)
    requires
        old(job).wf(),
        old(leases).wf(),
    ensures
        final(job).wf(),
        final(leases).wf(),
        final(leases).spec_platform() == old(leases).spec_platform(),
        ({
            let key = lease_key(old(leases).spec_platform(), destination_root@);
            let leased = can_lease(
                *old(leases),
                old(job)@.parameters.key,
                destination_root@,
                Seq::<char>::empty(),
            );
            let same = has_parameters(
                old(job)@,
                destination_root@,
                verification_mode,
                chunk_size,
            );
            &&& match result {
                Ok(_) => {
                    &&& leased && same
                    &&& old(job)@.phase == JobPhase::Active
                    &&& final(leases).holds(
                        old(job)@.parameters.key,
                        destination_root@,
                        Seq::<char>::empty(),
                    )
                },
                Err(TransferError::InvalidData(DataFault::ParametersChanged { job_id })) => {
                    &&& leased && !same
                    &&& job_id == old(job)@.parameters.key.job_id
                },
                Err(TransferError::Network(NetworkFault::JobRetiring { job_id })) => {
                    &&& leased && same
                    &&& old(job)@.phase != JobPhase::Active
                    &&& job_id == old(job)@.parameters.key.job_id
                },
                Err(error) => {
                    &&& !leased
                    &&& is_lease_refusal(
                        *old(leases),
                        old(job)@.parameters.key,
                        destination_root@,
                        Seq::<char>::empty(),
                        error,
                    )
                },
            }
            &&& final(leases)@ == if leased {
                with_lease(
                    *old(leases),
                    old(job)@.parameters.key,
                    destination_root@,
                    Seq::<char>::empty(),
                )
            } else {
                old(leases)@
            }
            &&& final(job)@ == if leased {
                remembering(old(job)@, key)
            } else {
                old(job)@
            }
        }),
{
    proof {
        reveal_strlit("");
        assert(""@ =~= Seq::<char>::empty());
    }
    if let Err(error) = leases.acquire_destination_lease(job, destination_root, "") {
        return Err(error);
    }
    if let Err(error) = job.validate_parameters(destination_root, verification_mode, chunk_size) {
        return Err(error);
    }
    job.begin_operation()
}

/// A path that the manifest may hold: outside the staging directory, and equal
/// to no other path but for case.
pub open spec fn is_free_path(job: JobView, path: Seq<char>) -> bool {
    let identity = crate::text::unicode_lowercase(path);
    &&& !is_same_name(
        job.parameters.platform,
        first_component(path),
        job.parameters.staging_name,
    )
    &&& job.identities.contains_key(identity) ==> job.identities[identity]@ == path
}

/// An entry that the active generation can take.
pub open spec fn is_free_entry(job: JobView, entry: ManifestEntry) -> bool {
    job.generation matches Some(active) && entry_conflict(active.entries, entry) is None
}

/// The path of an entry below the destination root.
pub open spec fn candidate_path(job: JobView, entry: ManifestEntry) -> Seq<char> {
    join_components(
        job.parameters.platform,
        job.parameters.destination_root,
        crate::text::split(entry.relative_path@, '/'),
    )
}

/// Why a path is not free.
pub open spec fn is_path_refusal(job: JobView, path: Seq<char>, error: TransferError) -> bool {
    let in_staging = is_same_name(
        job.parameters.platform,
        first_component(path),
        job.parameters.staging_name,
    );
    match error {
        TransferError::InvalidData(DataFault::StagingNamespace { path: p }) => in_staging && p@
            == path,
        TransferError::InvalidData(DataFault::CaseAlias { existing }) => {
            let identity = crate::text::unicode_lowercase(path);
            &&& !in_staging
            &&& job.identities.contains_key(identity)
            &&& existing == job.identities[identity]
            &&& existing@ != path
        },
        _ => false,
    }
}

/// Why an entry cannot be taken.
pub open spec fn is_entry_refusal(job: JobView, entry: ManifestEntry, error: TransferError) -> bool {
    match job.generation {
        None => error == TransferError::InvalidData(DataFault::GenerationInactive),
        Some(active) => match error {
            TransferError::InvalidData(DataFault::DuplicatePath { path }) => {
                &&& entry_conflict(active.entries, entry) == Some(EntryConflict::Duplicate)
                &&& path@ == entry.relative_path@
            },
            TransferError::InvalidData(DataFault::FileAncestor { path, ancestor }) => {
                &&& entry_conflict(active.entries, entry) == Some(
                    EntryConflict::BelowFile { ancestor: ancestor@ },
                )
                &&& path@ == entry.relative_path@
            },
            TransferError::InvalidData(DataFault::AncestorOfAnother { path }) => {
                &&& entry_conflict(active.entries, entry) == Some(EntryConflict::AboveAnother)
                &&& path@ == entry.relative_path@
            },
            _ => false,
        },
    }
}

/// The job with a path remembered, as it is spelt.
pub open spec fn names(job: JobView, path: Seq<char>, after: JobView) -> bool {
    let identity = crate::text::unicode_lowercase(path);
    &&& after.identities[identity]@ == path
    &&& after.identities == job.identities.insert(identity, after.identities[identity])
}

/// The job with an entry in its active generation.
pub open spec fn with_entry(job: JobView, entry: ManifestEntry) -> JobView {
    JobView {
        generation: Some(
            crate::manifest::GenerationView {
                entries: job.generation->0.entries.insert(entry.relative_path@, entry),
                ..job.generation->0
            },
        ),
        ..job
    }
}

/// What becomes of the job and the leases where an entry is admitted, and how a
/// refusal reads. What was done before a refusal stays done.
pub open spec fn admits(
    before: JobView,
    leases: DestinationLeases,
    entry: ManifestEntry,
    result: Result<String, TransferError>,
    after: JobView,
    table: Map<Seq<char>, (u128, u128, Seq<char>)>,
) -> bool {
    let owner = before.parameters.key;
    let wire_path = entry.relative_path@;
    let path = candidate_path(before, entry);
    let named = JobView { identities: after.identities, ..before };
    match result {
        Ok(found) => {
            &&& is_free_path(before, wire_path) && is_free_entry(before, entry)
            &&& is_wire_path(wire_path) && can_lease(leases, owner, path, wire_path)
            &&& found@ == path
            &&& names(before, wire_path, after)
            &&& after == remembering(
                with_entry(named, entry),
                lease_key(leases.spec_platform(), path),
            )
            &&& table == with_lease(leases, owner, path, wire_path)
        },
        Err(error) => {
            &&& table == leases@
            &&& if !is_free_path(before, wire_path) {
                is_path_refusal(before, wire_path, error) && after == before
            } else if !is_free_entry(before, entry) {
                &&& is_entry_refusal(before, entry, error)
                &&& names(before, wire_path, after)
                &&& after == named
            } else {
                &&& names(before, wire_path, after)
                &&& after == with_entry(named, entry)
                &&& if !is_wire_path(wire_path) {
                    error matches TransferError::InvalidData(
                        DataFault::InvalidPath { path: p, source },
                    ) && p@ == wire_path && wire_path_error(wire_path) == Some(source)
                } else {
                    &&& !can_lease(leases, owner, path, wire_path)
                    &&& is_lease_refusal(leases, owner, path, wire_path, error)
                }
            }
        },
    }
}

/// Takes an entry into the manifest and leases its path to the job.
pub fn admit_entry(job: &mut IncomingJob, leases: &mut DestinationLeases, entry: &ManifestEntry) -> (
    result: Result<String, TransferError>)
    requires
        old(job).wf(),
        old(leases).wf(),
    ensures
        final(job).wf(),
        final(leases).wf(),
        final(leases).spec_platform() == old(leases).spec_platform(),
        admits(old(job)@, *old(leases), *entry, result, final(job)@, final(leases)@),
        result matches Ok(path) ==> final(leases).holds(
            old(job)@.parameters.key,
            path@,
            entry.relative_path@,
        ),
{
    if let Err(error) = job.validate_manifest_path(entry.relative_path.as_str()) {
        return Err(error);
    }
    assert(names(old(job)@, entry.relative_path@, job@)) by {
        let identity = crate::text::unicode_lowercase(entry.relative_path@);
        let text = job@.identities[identity];
        assert(job@.identities =~= old(job)@.identities.insert(identity, text));
    }
    if let Err(error) = job.record_manifest_entry(entry) {
        return Err(error);
    }
    let candidate = match destination_candidate_path(
        job.platform(),
        job.destination_root(),
        entry.relative_path.as_str(),
    ) {
        Ok(candidate) => candidate,
        Err(error) => {
            return Err(error);
        },
    };
    if let Err(error) = leases.acquire_destination_lease(
        job,
        candidate.as_str(),
        entry.relative_path.as_str(),
    ) {
        return Err(error);
    }
    Ok(candidate)
}

/// The batch is the one that the active generation waits for.
pub open spec fn is_active_batch(job: JobView, manifest_id: Uuid, sequence: u32) -> bool {
    job.generation matches Some(active) && active.manifest_id == manifest_id
        && active.next_sequence == sequence
}

/// The batch may begin: under a new identifier, or as the next one.
pub open spec fn may_begin(job: JobView, manifest_id: Uuid, sequence: u32) -> bool {
    if sequence == 0 {
        !job.started.contains(manifest_id.bits)
    } else {
        is_active_batch(job, manifest_id, sequence)
    }
}

/// Why it may not.
pub open spec fn is_batch_refusal(
    job: JobView,
    manifest_id: Uuid,
    sequence: u32,
    error: TransferError,
) -> bool {
    if sequence == 0 {
        error == TransferError::InvalidData(
            DataFault::ManifestIdReused { manifest_id, job_id: job.parameters.key.job_id },
        )
    } else {
        match job.generation {
            None => error == TransferError::InvalidData(DataFault::BatchBeforeStart { sequence }),
            Some(active) => if active.manifest_id != manifest_id {
                error == TransferError::InvalidData(DataFault::ObsoleteGeneration { sequence })
            } else {
                error == TransferError::InvalidData(
                    DataFault::UnexpectedBatch {
                        expected: active.next_sequence,
                        received: sequence,
                    },
                )
            },
        }
    }
}

/// What ending a batch does: the last one ends the generation.
pub open spec fn ends_batch(
    before: JobView,
    is_last: bool,
    finished: Option<CompletedManifest>,
    after: JobView,
) -> bool {
    let active = before.generation->0;
    if is_last {
        &&& finished matches Some(manifest) && manifest.wf() && manifest.entries@ == active.entries
        &&& after == (JobView { generation: None, ..before })
    } else {
        &&& finished is None
        &&& after == (JobView {
            generation: Some(
                crate::manifest::GenerationView {
                    next_sequence: (active.next_sequence + 1) as u32,
                    ..active
                },
            ),
            ..before
        })
    }
}

/// Why a batch cannot be ended.
pub open spec fn is_end_refusal(
    job: JobView,
    manifest_id: Uuid,
    sequence: u32,
    error: TransferError,
) -> bool {
    match job.generation {
        None => error == TransferError::InvalidData(DataFault::GenerationInactive),
        Some(active) => if active.manifest_id != manifest_id {
            error == TransferError::InvalidData(DataFault::ObsoleteGeneration { sequence })
        } else if active.next_sequence != sequence {
            error == TransferError::InvalidData(DataFault::BatchNotActive { sequence })
        } else {
            error == TransferError::InvalidData(DataFault::SequenceOverflow)
        },
    }
}

/// What was found where a file should go.
pub enum FileInspection {
    /// The directories above it are not usable; says why.
    PathFailed(String),
    /// What is there could not be examined.
    Unreadable,
    /// Nothing is there.
    Absent,
    /// Something is there.
    Present(ManifestEntry),
}

/// What becomes of a file of the manifest.
pub open spec fn file_action(
    entry: ManifestEntry,
    mode: VerificationMode,
    inspection: FileInspection,
) -> CompareAction {
    match inspection {
        FileInspection::PathFailed(_) => CompareAction::Conflict,
        FileInspection::Unreadable => CompareAction::Conflict,
        FileInspection::Absent => CompareAction::NeedHash,
        FileInspection::Present(actual) => if actual.file_type != FileType::File {
            CompareAction::Conflict
        } else if mode == VerificationMode::Fast && entry.spec_metadata()
            == actual.spec_metadata() {
            CompareAction::Unchanged
        } else {
            CompareAction::NeedHash
        },
    }
}

/// The state in which a compared file is recorded.
pub open spec fn compared_status(action: CompareAction) -> JobFileStatus {
    match action {
        CompareAction::Unchanged => JobFileStatus::Skipped,
        CompareAction::Conflict => JobFileStatus::Failed,
        _ => JobFileStatus::Pending,
    }
}

/// What is recorded of a conflict.
pub open spec fn compared_error(inspection: FileInspection, action: CompareAction) -> Option<
    Seq<char>,
> {
    match inspection {
        FileInspection::PathFailed(message) => Some(message@),
        _ => if action == CompareAction::Conflict {
            Some("destination conflict"@)
        } else {
            None
        },
    }
}

/// The comparison of a batch, entry by entry.
pub struct CompareRun {
    batch: CompareBatch,
    /// The leading entry has been admitted and is to be decided.
    admitted: bool,
    closed: bool,
    decisions: Vec<CompareDecision>,
    records: Vec<JobFileRecord>,
}

pub open spec fn decision_views(decisions: Seq<CompareDecision>) -> Seq<(Seq<char>, CompareAction)> {
    Seq::new(decisions.len(), |i: int| (decisions[i].path@, decisions[i].action))
}

/// A receiver asks for no transfer before it has seen the hashes, and deletes
/// nothing.
pub open spec fn is_receiver_action(action: CompareAction) -> bool {
    action != CompareAction::Transfer && action != CompareAction::Delete
}

impl CompareRun {
    pub closed spec fn spec_batch(&self) -> CompareBatch {
        self.batch
    }

    /// The path and the action of each decision, in order.
    pub closed spec fn spec_decisions(&self) -> Seq<(Seq<char>, CompareAction)> {
        decision_views(self.decisions@)
    }

    pub closed spec fn spec_records(&self) -> Seq<JobFileRecord> {
        self.records@
    }

    /// The entry that comes next has been admitted.
    pub closed spec fn spec_admitted(&self) -> bool {
        self.admitted
    }

    /// The batch has been ended.
    pub closed spec fn spec_closed(&self) -> bool {
        self.closed
    }

    /// How many entries have been decided.
    pub open spec fn spec_index(&self) -> int {
        self.spec_decisions().len() as int
    }

    /// The entry that comes next.
    pub open spec fn spec_entry(&self) -> ManifestEntry {
        self.spec_batch().entries@[self.spec_index()]
    }

    /// Every entry has been decided.
    pub open spec fn is_decided(&self) -> bool {
        self.spec_index() == self.spec_batch().entries@.len()
    }

    /// Each entry so far has one decision, in order, of those that a receiver takes.
    pub open spec fn wf(&self) -> bool {
        &&& self.spec_index() <= self.spec_batch().entries@.len()
        &&& self.spec_admitted() ==> !self.is_decided()
        &&& self.spec_closed() ==> self.is_decided()
        &&& forall|i: int|
            0 <= i < self.spec_index() ==> {
                &&& (#[trigger] self.spec_decisions()[i]).0
                    == self.spec_batch().entries@[i].relative_path@
                &&& is_receiver_action(self.spec_decisions()[i].1)
            }
    }

    /// Begins a batch: number zero starts a generation of the manifest, the others
    /// go on with it.
    pub fn begin(job: &mut IncomingJob, batch: CompareBatch) -> (result: Result<Self, TransferError>)
        requires
            old(job).wf(),
        ensures
            final(job).wf(),
            match result {
                Ok(run) => {
                    &&& may_begin(old(job)@, batch.manifest_id, batch.sequence)
                    &&& final(job)@ == if batch.sequence == 0 {
                        begun(old(job)@, batch.manifest_id)
                    } else {
                        old(job)@
                    }
                    &&& run.wf()
                    &&& run.spec_batch() == batch
                    &&& run.spec_decisions() == Seq::<(Seq<char>, CompareAction)>::empty()
                    &&& run.spec_records() == Seq::<JobFileRecord>::empty()
                    &&& !run.spec_admitted() && !run.spec_closed()
                },
                Err(error) => {
                    &&& !may_begin(old(job)@, batch.manifest_id, batch.sequence)
                    &&& is_batch_refusal(old(job)@, batch.manifest_id, batch.sequence, error)
                    &&& final(job)@ == old(job)@
                },
            },
    {
        match job.begin_manifest_batch(batch.manifest_id, batch.sequence) {
            Ok(_) => {},
            Err(error) => return Err(error),
        }
        let run = CompareRun {
            batch,
            admitted: false,
            closed: false,
            decisions: Vec::new(),
            records: Vec::new(),
        };
        assert(run.spec_decisions() =~= Seq::<(Seq<char>, CompareAction)>::empty());
        Ok(run)
    }

    /// The entry that comes next, if there is one.
    pub fn entry(&self) -> (entry: Option<&ManifestEntry>)
        requires
            self.wf(),
        ensures
            match entry {
                Some(next) => !self.is_decided() && *next == self.spec_entry(),
                None => self.is_decided(),
            },
    {
        if self.decisions.len() < self.batch.entries.len() {
            Some(&self.batch.entries[self.decisions.len()])
        } else {
            None
        }
    }

    /// Takes the next entry into the manifest and leases its path to the job.
    pub fn admit_next(&mut self, job: &mut IncomingJob, leases: &mut DestinationLeases) -> (result:
        Result<String, TransferError>)
        requires
            old(self).wf(),
            !old(self).is_decided(),
            old(job).wf(),
            old(leases).wf(),
        ensures
            final(self).wf(),
            final(job).wf(),
            final(leases).wf(),
            final(leases).spec_platform() == old(leases).spec_platform(),
            admits(
                old(job)@,
                *old(leases),
                old(self).spec_entry(),
                result,
                final(job)@,
                final(leases)@,
            ),
            final(self).spec_batch() == old(self).spec_batch(),
            final(self).spec_decisions() == old(self).spec_decisions(),
            final(self).spec_records() == old(self).spec_records(),
            final(self).spec_closed() == old(self).spec_closed(),
            result is Ok ==> final(self).spec_admitted(),
    {
        let admitted = admit_entry(job, leases, &self.batch.entries[self.decisions.len()]);
        match admitted {
            Ok(path) => {
                self.admitted = true;
                Ok(path)
            },
            Err(error) => Err(error),
        }
    }

    fn decide(&mut self, action: CompareAction)
        requires
            old(self).wf(),
            !old(self).is_decided(),
            !old(self).spec_closed(),
            is_receiver_action(action),
        ensures
            final(self).wf(),
            final(self).spec_decisions() == old(self).spec_decisions().push(
                (old(self).spec_entry().relative_path@, action),
            ),
            final(self).spec_records() == old(self).spec_records(),
            final(self).spec_batch() == old(self).spec_batch(),
            !final(self).spec_admitted() && !final(self).spec_closed(),
    {
        let path = self.batch.entries[self.decisions.len()].relative_path.clone();
        self.decisions.push(CompareDecision { path, action });
        self.admitted = false;
        assert(self.spec_decisions() =~= old(self).spec_decisions().push((path@, action)));
    }

    /// Decides on a directory, given whether it is there now.
    pub fn decide_directory(&mut self, job: &mut IncomingJob, outcome: Result<(), String>)
        requires
            old(self).wf(),
            old(self).spec_admitted(),
            old(self).spec_entry().file_type == FileType::Directory,
            old(job).wf(),
        ensures
            final(self).wf(),
            final(job).wf(),
            ({
                let entry = old(self).spec_entry();
                let action = if outcome is Ok {
                    CompareAction::Unchanged
                } else {
                    CompareAction::Conflict
                };
                &&& final(self).spec_decisions() == old(self).spec_decisions().push(
                    (entry.relative_path@, action),
                )
                &&& final(job)@ == match outcome {
                    Ok(_) => JobView {
                        directories: crate::manifest::with_directory(old(job)@.directories, entry),
                        failures: old(job)@.failures.remove(entry.relative_path@),
                        ..old(job)@
                    },
                    Err(message) => JobView {
                        failures: old(job)@.failures.insert(entry.relative_path@, message),
                        ..old(job)@
                    },
                }
            }),
            final(self).spec_records() == old(self).spec_records(),
            final(self).spec_batch() == old(self).spec_batch(),
            !final(self).spec_admitted() && !final(self).spec_closed(),
    {
        let entry = self.batch.entries[self.decisions.len()].duplicate();
        match outcome {
            Ok(_) => {
                job.remember_directory(entry);
                self.decide(CompareAction::Unchanged);
            },
            Err(message) => {
                job.remember_directory_failure(entry.relative_path, message);
                self.decide(CompareAction::Conflict);
            },
        }
    }

    /// Decides on a file, given what was found in its place, and records its
    /// state.
    pub fn decide_file(&mut self, inspection: FileInspection, now: i64)
        requires
            old(self).wf(),
            old(self).spec_admitted(),
            old(self).spec_entry().file_type == FileType::File,
        ensures
            final(self).wf(),
            ({
                let entry = old(self).spec_entry();
                let batch = old(self).spec_batch();
                let action = file_action(entry, batch.verification_mode, inspection);
                let records = final(self).spec_records();
                &&& final(self).spec_decisions() == old(self).spec_decisions().push(
                    (entry.relative_path@, action),
                )
                &&& records.len() == old(self).spec_records().len() + 1
                &&& records.drop_last() == old(self).spec_records()
                &&& records.last().is_new(
                    batch.job_id,
                    entry.relative_path@,
                    entry.size,
                    compared_status(action),
                    compared_error(inspection, action),
                    now,
                )
            }),
            final(self).spec_batch() == old(self).spec_batch(),
            !final(self).spec_admitted() && !final(self).spec_closed(),
    {
        let entry = &self.batch.entries[self.decisions.len()];
        let action = match &inspection {
            FileInspection::PathFailed(_) => CompareAction::Conflict,
            FileInspection::Unreadable => CompareAction::Conflict,
            FileInspection::Absent => CompareAction::NeedHash,
            FileInspection::Present(actual) => {
                if actual.file_type != FileType::File {
                    CompareAction::Conflict
                } else if self.batch.verification_mode == VerificationMode::Fast
                    && metadata_matches(entry, actual) {
                    CompareAction::Unchanged
                } else {
                    CompareAction::NeedHash
                }
            },
        };
        let status = match action {
            CompareAction::Unchanged => JobFileStatus::Skipped,
            CompareAction::Conflict => JobFileStatus::Failed,
            _ => JobFileStatus::Pending,
        };
        let error = match inspection {
            FileInspection::PathFailed(message) => Some(message),
            _ => {
                if action == CompareAction::Conflict {
                    Some("destination conflict".to_owned())
                } else {
                    None
                }
            },
        };
        let record = job_file_record(
            self.batch.job_id,
            entry.relative_path.as_str(),
            entry.size,
            status,
            error,
            now,
        );
        self.decide(action);
        self.records.push(record);
        assert(self.spec_records().drop_last() =~= old(self).spec_records());
    }

    /// The records to store before the batch is ended.
    pub fn records(&self) -> (records: &Vec<JobFileRecord>)
        ensures
            records@ == self.spec_records(),
    {
        &self.records
    }

    /// Ends the batch once every entry is decided. The last batch ends the
    /// generation and hands out the manifest.
    pub fn close(&mut self, job: &mut IncomingJob) -> (result: Result<
        Option<CompletedManifest>,
        TransferError,
    >)
        requires
            old(self).wf(),
            old(self).is_decided(),
            old(job).wf(),
        ensures
            final(self).wf(),
            final(job).wf(),
            final(self).spec_batch() == old(self).spec_batch(),
            final(self).spec_decisions() == old(self).spec_decisions(),
            final(self).spec_records() == old(self).spec_records(),
            ({
                let batch = old(self).spec_batch();
                let before = old(job)@;
                match result {
                    Ok(finished) => {
                        &&& final(self).spec_closed()
                        &&& is_active_batch(before, batch.manifest_id, batch.sequence)
                        &&& batch.sequence < u32::MAX
                        &&& ends_batch(before, batch.is_last, finished, final(job)@)
                    },
                    Err(error) => {
                        &&& !is_active_batch(before, batch.manifest_id, batch.sequence)
                            || batch.sequence == u32::MAX
                        &&& is_end_refusal(before, batch.manifest_id, batch.sequence, error)
                        &&& final(job)@ == before
                    },
                }
            }),
    {
        match job.finish_manifest_batch(
            self.batch.manifest_id,
            self.batch.sequence,
            self.batch.is_last,
        ) {
            Ok(finished) => {
                self.closed = true;
                Ok(finished)
            },
            Err(error) => Err(error),
        }
    }

    /// The answer to the batch, once it is ended.
    pub fn answer(self) -> (response: Response)
        requires
            self.wf(),
            self.spec_closed(),
        ensures
            response matches Response::Compare(answer) && {
                &&& answer.job_id == self.spec_batch().job_id
                &&& answer.manifest_id == self.spec_batch().manifest_id
                &&& answer.sequence == self.spec_batch().sequence
                &&& answer.is_last == self.spec_batch().is_last
                &&& decision_views(answer.decisions@) == self.spec_decisions()
                &&& forall|i: int|
                    0 <= i < answer.decisions@.len() ==> is_receiver_action(
                        (#[trigger] answer.decisions@[i]).action,
                    )
            },
    {
        assert forall|i: int| 0 <= i < self.decisions@.len() implies is_receiver_action(
            (#[trigger] self.decisions@[i]).action,
        ) by {
            assert(self.spec_decisions()[i].1 == self.decisions@[i].action);
        }
        Response::Compare(
            CompareDecisionBatch {
                job_id: self.batch.job_id,
                manifest_id: self.batch.manifest_id,
                sequence: self.batch.sequence,
                is_last: self.batch.is_last,
                decisions: self.decisions,
            },
        )
    }

    /// The sender accepts the answer to a batch whose paths are distinct and were
    /// not decided before.
    pub proof fn law_honest_decisions_are_accepted(
        &self,
        response: Response,
        known: Map<Seq<char>, CompareAction>,
    )
        requires
            self.wf(),
            self.is_decided(),
            response matches Response::Compare(answer) && {
                &&& answer.job_id == self.spec_batch().job_id
                &&& answer.manifest_id == self.spec_batch().manifest_id
                &&& answer.sequence == self.spec_batch().sequence
                &&& answer.is_last == self.spec_batch().is_last
                &&& decision_views(answer.decisions@) == self.spec_decisions()
            },
            entry_paths(self.spec_batch().entries@).no_duplicates(),
            forall|i: int|
                0 <= i < self.spec_batch().entries@.len() ==> !known.contains_key(
                    (#[trigger] self.spec_batch().entries@[i]).relative_path@,
                ),
        ensures
            decides_batch(response, self.spec_batch(), known),
    {
        let answer = response->Compare_0;
        let decided = decision_paths(answer.decisions@);
        let entries = entry_paths(self.spec_batch().entries@);
        assert(answer.decisions@.len() == decision_views(answer.decisions@).len());
        assert forall|i: int| 0 <= i < decided.len() implies #[trigger] decided[i] == entries[i] by {
            assert(decision_views(answer.decisions@)[i].0 == answer.decisions@[i].path@);
            assert(self.spec_decisions()[i].0 == entries[i]);
        }
        assert(decided =~= entries);
        assert forall|k: int| 0 <= k < decided.len() implies !#[trigger] is_unwanted(
            decided,
            entries,
            known,
            k,
        ) by {
            assert(entries.contains(entries[k]));
            assert(!known.contains_key(self.spec_batch().entries@[k].relative_path@));
            if decided.take(k).contains(decided[k]) {
                let j = choose|j: int| 0 <= j < k && decided.take(k)[j] == decided[k];
                assert(entries[j] == entries[k]);
            }
        }
    }
}

/// The receiver never asks for anything to be deleted, and never for a file
/// without its hashes.
pub proof fn law_comparison_deletes_nothing(
    entry: ManifestEntry,
    mode: VerificationMode,
    inspection: FileInspection,
)
    ensures
        file_action(entry, mode, inspection) != CompareAction::Delete,
        file_action(entry, mode, inspection) != CompareAction::Transfer,
{
}

/// What becomes of a file follows from what is in its place, in terms of the fields
/// themselves. It is unchanged exactly if the mode is fast and what is there agrees in
/// type, size, modification time and access; what differs in any of these, and what is
/// absent, is hashed; what cannot be reached or is no file is a conflict. Its row says
/// the same.
pub proof fn law_files_are_compared_by_their_metadata(
    entry: ManifestEntry,
    mode: VerificationMode,
    inspection: FileInspection,
)
    requires
        entry.file_type == FileType::File,
    ensures
        ({
            let action = file_action(entry, mode, inspection);
            let row = compared_status(action);
            match inspection {
                FileInspection::PathFailed(message) => {
                    &&& action == CompareAction::Conflict
                    &&& row == JobFileStatus::Failed
                    &&& compared_error(inspection, action) == Some(message@)
                },
                FileInspection::Unreadable => {
                    &&& action == CompareAction::Conflict
                    &&& row == JobFileStatus::Failed
                    &&& compared_error(inspection, action) is Some
                },
                FileInspection::Absent => {
                    &&& action == CompareAction::NeedHash
                    &&& row == JobFileStatus::Pending
                    &&& compared_error(inspection, action) is None
                },
                FileInspection::Present(actual) => {
                    let agrees = actual.size == entry.size && actual.mtime_ns == entry.mtime_ns
                        && actual.read_only == entry.read_only;
                    &&& actual.file_type != FileType::File <==> action == CompareAction::Conflict
                    &&& action == CompareAction::Unchanged <==> mode is Fast && actual.file_type
                        == FileType::File && agrees
                    &&& action == CompareAction::NeedHash <==> actual.file_type == FileType::File
                        && (mode is Verified || !agrees)
                    &&& row == JobFileStatus::Skipped <==> mode is Fast && actual.file_type
                        == FileType::File && agrees
                    &&& row == JobFileStatus::Failed <==> actual.file_type != FileType::File
                    &&& row == JobFileStatus::Pending <==> actual.file_type == FileType::File && (
                    mode is Verified || !agrees)
                    &&& compared_error(inspection, action) is Some <==> actual.file_type
                        != FileType::File
                },
            }
        }),
{
}

/// In verified mode no file is taken to be unchanged without being hashed, and
/// nothing but a regular file is ever replaced.
pub proof fn law_verified_mode_hashes_every_file(
    entry: ManifestEntry,
    mode: VerificationMode,
    inspection: FileInspection,
)
    ensures
        mode == VerificationMode::Verified ==> file_action(entry, mode, inspection)
            != CompareAction::Unchanged,
        file_action(entry, mode, inspection) == CompareAction::NeedHash ==> match inspection {
            FileInspection::Absent => true,
            FileInspection::Present(actual) => actual.file_type == FileType::File,
            _ => false,
        },
        compared_status(file_action(entry, mode, inspection)) == JobFileStatus::Failed <==>
            file_action(entry, mode, inspection) == CompareAction::Conflict,
{
}

/// Every entry of the active generation lies outside the staging directory, and
/// is remembered as it is spelt.
pub open spec fn is_portable(job: JobView) -> bool {
    job.generation matches Some(active) ==> forall|path: Seq<char>| #[trigger]
        active.entries.contains_key(path) ==> {
            let identity = crate::text::unicode_lowercase(path);
            &&& job.identities.contains_key(identity)
            &&& job.identities[identity]@ == path
            &&& !is_same_name(
                job.parameters.platform,
                first_component(path),
                job.parameters.staging_name,
            )
        }
}

/// A manifest holds no two paths that differ only in case, and none in the
/// staging directory: so it begins, and whatever comes of an entry keeps it so.
pub proof fn law_manifests_are_portable(
    before: JobView,
    leases: DestinationLeases,
    entry: ManifestEntry,
    result: Result<String, TransferError>,
    after: JobView,
    table: Map<Seq<char>, (u128, u128, Seq<char>)>,
    manifest_id: Uuid,
)
    requires
        is_portable(before),
        admits(before, leases, entry, result, after, table),
    ensures
        is_portable(begun(before, manifest_id)),
        is_portable(after),
        after.generation matches Some(active) ==> forall|a: Seq<char>, b: Seq<char>|
            #![trigger active.entries.contains_key(a), active.entries.contains_key(b)]
            active.entries.contains_key(a) && active.entries.contains_key(b)
                && crate::text::unicode_lowercase(a) == crate::text::unicode_lowercase(b) ==> a
                == b,
{
}

/// Batches of a manifest come one after another: a new identifier begins with batch
/// zero, and only then; after each batch but the last exactly the next of the same
/// manifest may follow, and after the last none may.
pub proof fn law_batches_follow_one_another(
    job: JobView,
    manifest_id: Uuid,
    other: Uuid,
    sequence: u32,
    before: JobView,
    after: JobView,
    finished: Option<CompletedManifest>,
    is_last: bool,
)
    requires
        before.generation is Some,
        before.generation->0.next_sequence < u32::MAX,
        ends_batch(before, is_last, finished, after),
    ensures
        ({
            let fresh = begun(job, manifest_id);
            &&& may_begin(job, manifest_id, 0) <==> !job.started.contains(manifest_id.bits)
            &&& !may_begin(fresh, manifest_id, 0)
            &&& other != manifest_id && may_begin(job, other, 0) ==> may_begin(fresh, other, 0)
            &&& is_active_batch(fresh, other, sequence) <==> other == manifest_id && sequence == 0
            &&& sequence > 0 ==> !may_begin(fresh, other, sequence)
        }),
        sequence > 0 && is_last ==> !may_begin(after, other, sequence),
        sequence > 0 && !is_last ==> (may_begin(after, other, sequence) <==> other
            == before.generation->0.manifest_id && sequence == before.generation->0.next_sequence
            + 1),
        may_begin(after, other, 0) <==> may_begin(before, other, 0),
        is_last <==> finished is Some,
        finished matches Some(manifest) ==> manifest.entries@ == before.generation->0.entries,
        !is_last ==> after.generation->0.entries == before.generation->0.entries,
{
    if other != manifest_id {
        assert(other.bits != manifest_id.bits);
    }
}

/// A job keeps the parameters with which it began: a batch changes them exactly if it
/// names another destination, another way of comparing or another size of chunks.
pub proof fn law_parameters_stay_the_same(job: JobView, platform: Platform, batch: CompareBatch)
    ensures
        batch.destination_root@ == job.parameters.requested_destination_root
            && batch.verification_mode == job.parameters.verification_mode && batch.chunk_size
            == job.parameters.chunk_size ==> !changes_parameters(job, platform, batch),
        batch.verification_mode != job.parameters.verification_mode ==> changes_parameters(
            job,
            platform,
            batch,
        ),
        batch.chunk_size != job.parameters.chunk_size ==> changes_parameters(job, platform, batch),
        crate::text::unicode_lowercase(batch.destination_root@) != crate::text::unicode_lowercase(
            job.parameters.requested_destination_root,
        ) ==> changes_parameters(job, Platform::Posix, batch),
{
}

/// Leases keep jobs apart. Once a job has a place, no other can have a place that
/// overlaps it, while one that does not overlap it stays as free as it was; the job
/// itself can have its place again for the same path, and for no other.
pub proof fn law_leases_keep_jobs_apart(
    leases: DestinationLeases,
    after: DestinationLeases,
    owner: IncomingJobKey,
    path: Seq<char>,
    wire_path: Seq<char>,
    other: IncomingJobKey,
    place: Seq<char>,
    other_path: Seq<char>,
)
    requires
        can_lease(leases, owner, path, wire_path),
        after.spec_platform() == leases.spec_platform(),
        after@ == with_lease(leases, owner, path, wire_path),
    ensures
        ({
            let platform = leases.spec_platform();
            let mine = lease_key(platform, path);
            let theirs = lease_key(platform, place);
            let overlap = crate::lease::overlaps(theirs, mine, separator_of(platform));
            &&& !leases@.contains_key(mine) && other != owner && overlap ==> !can_lease(
                after,
                other,
                place,
                other_path,
            )
            &&& !overlap ==> (can_lease(after, other, place, other_path) <==> can_lease(
                leases,
                other,
                place,
                other_path,
            ))
            &&& can_lease(after, owner, path, wire_path)
            &&& other_path != wire_path ==> !can_lease(after, owner, path, other_path)
            &&& leases@ == Map::<Seq<char>, (u128, u128, Seq<char>)>::empty() ==> can_lease(
                leases,
                other,
                place,
                other_path,
            )
            &&& forall|key: Seq<char>| #[trigger]
                leases@.contains_key(key) ==> after@.contains_key(key) && after@[key]
                    == leases@[key]
        }),
{
    let platform = leases.spec_platform();
    let separator = separator_of(platform);
    let mine = lease_key(platform, path);
    let theirs = lease_key(platform, place);
    let overlap = crate::lease::overlaps(theirs, mine, separator);
    let row = (owner.peer_id.bits, owner.job_id.bits, wire_path);
    assert(owner_of(row) == owner);
    assert(after@.contains_key(mine));
    if !leases@.contains_key(mine) && other != owner && overlap {
        assert(is_conflict(after@, other, theirs, separator, mine));
    }
    if !overlap {
        assert(theirs != mine) by {
            if theirs == mine {
                let parts = crate::lease::components(mine, separator);
                assert(parts.take(parts.len() as int) =~= parts);
            }
        }
        if can_lease(leases, other, place, other_path) {
            assert forall|existing: Seq<char>| #[trigger]
                after@.contains_key(existing) implies !is_conflict(
                after@,
                other,
                theirs,
                separator,
                existing,
            ) by {
                if existing != mine {
                    assert(leases@.contains_key(existing));
                }
            }
        }
        if can_lease(after, other, place, other_path) {
            assert forall|existing: Seq<char>| #[trigger]
                leases@.contains_key(existing) implies !is_conflict(
                leases@,
                other,
                theirs,
                separator,
                existing,
            ) by {
                assert(after@.contains_key(existing));
            }
        }
    }
    assert forall|existing: Seq<char>| #[trigger] after@.contains_key(existing) implies !is_conflict(
        after@,
        owner,
        mine,
        separator,
        existing,
    ) by {
        if existing != mine {
            assert(leases@.contains_key(existing));
        }
        if leases@.contains_key(existing) {
            assert(!is_conflict(leases@, owner, mine, separator, existing));
        }
    }
}

/// What an entry needs to be taken into a manifest: a path of its own that is no other
/// spelling of one before it, outside the staging directory, that can travel and whose
/// place is free. An entry that is taken is in the manifest and its place is leased; of
/// one that is not taken nothing is leased.
pub proof fn law_what_is_taken_into_a_manifest(
    before: JobView,
    leases: DestinationLeases,
    entry: ManifestEntry,
    result: Result<String, TransferError>,
    after: JobView,
    table: Map<Seq<char>, (u128, u128, Seq<char>)>,
)
    requires
        before.generation is Some,
        admits(before, leases, entry, result, after, table),
    ensures
        ({
            let path = entry.relative_path@;
            let platform = before.parameters.platform;
            let place = candidate_path(before, entry);
            let identity = crate::text::unicode_lowercase(path);
            let in_staging = is_same_name(
                platform,
                first_component(path),
                before.parameters.staging_name,
            );
            let other_spelling = before.identities.contains_key(identity)
                && before.identities[identity]@ != path;
            let conflict = entry_conflict(before.generation->0.entries, entry) is Some;
            &&& result is Ok <==> !in_staging && !other_spelling && !conflict && is_wire_path(path)
                && can_lease(leases, before.parameters.key, place, path)
            &&& result is Ok ==> {
                &&& after.generation is Some
                &&& after.generation->0.entries.contains_key(path)
                &&& after.generation->0.entries[path] == entry
                &&& table.contains_key(lease_key(leases.spec_platform(), place))
                &&& after.leases.contains(lease_key(leases.spec_platform(), place))
                &&& result->Ok_0@ == place
            }
            &&& result is Err ==> table == leases@ && after.leases == before.leases
            &&& result is Err && in_staging ==> result->Err_0 is InvalidData
                && result->Err_0->InvalidData_0 is StagingNamespace
            &&& result is Err && !in_staging && other_spelling ==> result->Err_0 is InvalidData
                && result->Err_0->InvalidData_0 is CaseAlias
            &&& after.started == before.started && after.committed == before.committed
            &&& after.parameters == before.parameters
        }),
{
    let key = lease_key(leases.spec_platform(), candidate_path(before, entry));
    if result is Ok {
        if !before.leases.contains(key) {
            assert(before.leases.push(key).last() == key);
            assert(after.leases.contains(key));
        }
    }
}

/// A batch that may not begin is refused for what is wrong with it: an identifier that
/// began before, a batch before its manifest, one of another manifest, or one out of
/// turn. One that may not end is refused likewise.
pub proof fn law_batches_are_refused_for_a_reason(
    job: JobView,
    manifest_id: Uuid,
    sequence: u32,
    error: TransferError,
)
    ensures
        is_batch_refusal(job, manifest_id, sequence, error) ==> {
            &&& error is InvalidData
            &&& error->InvalidData_0 is ManifestIdReused <==> sequence == 0
            &&& error->InvalidData_0 is BatchBeforeStart <==> sequence > 0 && job.generation is None
            &&& error->InvalidData_0 is ObsoleteGeneration <==> sequence > 0
                && job.generation is Some && job.generation->0.manifest_id != manifest_id
            &&& error->InvalidData_0 is UnexpectedBatch <==> sequence > 0 && job.generation is Some
                && job.generation->0.manifest_id == manifest_id
        },
        is_end_refusal(job, manifest_id, sequence, error) ==> {
            &&& error is InvalidData
            &&& error->InvalidData_0 is GenerationInactive <==> job.generation is None
            &&& error->InvalidData_0 is ObsoleteGeneration <==> job.generation is Some
                && job.generation->0.manifest_id != manifest_id
            &&& error->InvalidData_0 is BatchNotActive <==> job.generation is Some
                && job.generation->0.manifest_id == manifest_id && job.generation->0.next_sequence
                != sequence
            &&& error->InvalidData_0 is SequenceOverflow <==> is_active_batch(
                job,
                manifest_id,
                sequence,
            )
        },
{
}

/// A place that was free is held once it is leased, under the very path it was leased
/// for, and by nobody else.
pub proof fn law_leased_places_are_held(
    leases: DestinationLeases,
    after: DestinationLeases,
    owner: IncomingJobKey,
    path: Seq<char>,
    wire_path: Seq<char>,
    other: IncomingJobKey,
    other_path: Seq<char>,
)
    requires
        after.spec_platform() == leases.spec_platform(),
        !leases@.contains_key(lease_key(leases.spec_platform(), path)),
        after@ == with_lease(leases, owner, path, wire_path),
    ensures
        !leases.holds(other, path, other_path),
        after.holds(other, path, other_path) <==> other == owner && other_path == wire_path,
{
    if other != owner {
        assert(other.peer_id.bits != owner.peer_id.bits || other.job_id.bits
            != owner.job_id.bits);
    }
}

/// An entry goes under the root of its job, by its path.
pub proof fn law_entries_go_under_the_root(job: JobView, entry: ManifestEntry)
    requires
        is_wire_path(entry.relative_path@),
        job.parameters.platform is Posix,
    ensures
        ({
            let root = job.parameters.destination_root;
            let path = entry.relative_path@;
            candidate_path(job, entry) == if root.len() == 0 || root.last() == '/' {
                root + path
            } else {
                root.push('/') + path
            }
        }),
{
    let root = job.parameters.destination_root;
    let platform = job.parameters.platform;
    if root.len() == 0 || root.last() == '/' {
        crate::path::law_joining_to_an_open_root(platform, root, entry.relative_path@);
    } else {
        crate::path::law_joined_path_stays_below_root(platform, root, entry.relative_path@);
    }
}

} // verus!
