//! Preparing to receive a file: what is already here need not be sent.

use crate::digest::same_digest;
use crate::error::{DataFault, NetworkFault, TransferError};
use crate::filesystem::destination_candidate_path;
use crate::hashing::{layout_fault, validate_hashed_file};
use crate::ids::Uuid;
use crate::incoming::{chunk_record, no_chunks, IncomingFile};
use crate::lease::DestinationLeases;
use crate::manifest::{accepts_entry, accepts_manifest, IncomingJob, JobPhase};
use crate::metadata::{NodeKind, NodeStatus};
use crate::model::{
    ChunkDescriptor, ContentHash, FileType, HashedFile, HashedFileView, ManifestEntry,
    VerificationMode,
};
use crate::path::{is_wire_path, join_components, wire_path_error};
use crate::plan::{indices_where, is_plan_for, plan_complete_file, plan_file};
use crate::records::CompletedChunk;
use crate::stream::{FilePlan, FilePlanBatch, Response};
use crate::text::is_text;
use std::collections::HashSet;
use vstd::prelude::*;

verus! {

/// Lets a request under a manifest go on: the job must be active and the
/// manifest must be the complete one.
pub fn check_job_request(job: &IncomingJob, manifest_id: Uuid) -> (result: Result<
    (),
    TransferError,
>)
    ensures
        match result {
            Ok(_) => job@.phase == JobPhase::Active && accepts_manifest(job@, manifest_id),
            Err(TransferError::Network(NetworkFault::JobRetiring { job_id })) => job@.phase
                != JobPhase::Active && job_id == job@.parameters.key.job_id,
            Err(
                TransferError::InvalidData(
                    DataFault::ManifestInactive { manifest_id: m, job_id },
                ),
            ) => {
                &&& job@.phase == JobPhase::Active
                &&& !accepts_manifest(job@, manifest_id)
                &&& m == manifest_id
                &&& job_id == job@.parameters.key.job_id
            },
            Err(_) => false,
        },
{
    if let Err(error) = job.begin_operation() {
        return Err(error);
    }
    job.validate_manifest_id(manifest_id)
}

/// Why a file cannot be negotiated.
pub enum NegotiationFault {
    /// Its chunks make no sense; the answer names the job and the file.
    Malformed(TransferError),
    /// The manifest does not have it.
    Foreign(TransferError),
}

/// Accepts a file whose chunks cover it and that the manifest has.
pub fn check_negotiated_file(job: &IncomingJob, file: &HashedFile) -> (result: Result<
    (),
    NegotiationFault,
>)
    ensures
        ({
            let fault = layout_fault(file@, job@.parameters.chunk_size);
            match result {
                Ok(_) => fault is None && accepts_entry(job@, file.entry),
                Err(NegotiationFault::Malformed(error)) => fault matches Some(f)
                    && crate::hashing::reports(error, file.entry.relative_path@, f),
                Err(
                    NegotiationFault::Foreign(
                        TransferError::InvalidData(DataFault::EntryNotInManifest { path }),
                    ),
                ) => {
                    &&& fault is None
                    &&& !accepts_entry(job@, file.entry)
                    &&& path@ == file.entry.relative_path@
                },
                Err(NegotiationFault::Foreign(_)) => false,
            }
        }),
{
    if let Err(error) = validate_hashed_file(file, job.chunk_size()) {
        return Err(NegotiationFault::Malformed(error));
    }
    match job.validate_negotiated_entry(&file.entry) {
        Ok(_) => Ok(()),
        Err(error) => Err(NegotiationFault::Foreign(error)),
    }
}

/// The answer to a negotiation: the plans of its files.
pub fn answer_negotiation(
    job_id: Uuid,
    manifest_id: Uuid,
    sequence: u32,
    is_last: bool,
    plans: Vec<FilePlan>,
) -> (response: Response)
    ensures
        response == Response::Negotiate(
            FilePlanBatch { job_id, manifest_id, sequence, is_last, plans },
        ),
{
    Response::Negotiate(FilePlanBatch { job_id, manifest_id, sequence, is_last, plans })
}

/// The path of a negotiated file, which the job must hold the lease on.
pub fn locate_incoming_file(job: &IncomingJob, leases: &DestinationLeases, wire_path: &str) -> (
    result: Result<String, TransferError>)
    ensures
        ({
            let candidate = join_components(
                job@.parameters.platform,
                job@.parameters.destination_root,
                crate::text::split(wire_path@, '/'),
            );
            let held = leases.holds(job@.parameters.key, candidate, wire_path@);
            match result {
                Ok(path) => is_wire_path(wire_path@) && held && path@ == candidate,
                Err(TransferError::InvalidData(DataFault::InvalidPath { path, source })) => path@
                    == wire_path@ && wire_path_error(wire_path@) == Some(source),
                Err(TransferError::InvalidData(DataFault::LeaseLost { job_id, path })) => {
                    &&& is_wire_path(wire_path@) && !held
                    &&& job_id == job@.parameters.key.job_id
                    &&& path@ == wire_path@
                },
                Err(_) => false,
            }
        }),
{
    let candidate = match destination_candidate_path(
        job.platform(),
        job.destination_root(),
        wire_path,
    ) {
        Ok(candidate) => candidate,
        Err(error) => {
            return Err(error);
        },
    };
    match leases.ensure_destination_lease(job.key(), candidate.as_str(), wire_path) {
        Ok(_) => Ok(candidate),
        Err(error) => Err(error),
    }
}

/// How far an earlier negotiation of a file got.
#[derive(Debug, Clone, Copy, PartialEq, Eq, Structural)]
pub enum Resumption {
    New,
    Open,
    Finalized,
}

/// Meets an earlier negotiation of a file: it must have been about the same
/// content at the same places, and its uploads must have stopped.
pub fn resume_incoming_file(
    existing: Option<&IncomingFile>,
    file: &HashedFile,
    destination: &str,
    staging: &str,
) -> (result: Result<Resumption, TransferError>)
    ensures
        match existing {
            None => result == Ok::<Resumption, TransferError>(Resumption::New),
            Some(known) => {
                let same = known@.file == file@ && known@.destination == destination@
                    && known@.staging == staging@;
                let quiet = known@.inflight == no_chunks();
                match result {
                    Ok(resumption) => same && quiet && resumption == if known@.finalized {
                        Resumption::Finalized
                    } else {
                        Resumption::Open
                    },
                    Err(TransferError::InvalidData(DataFault::NegotiationChanged { path })) => !same
                        && path@ == file.entry.relative_path@,
                    Err(TransferError::Network(NetworkFault::UploadsUnfinished { path })) => same
                        && !quiet && path@ == file.entry.relative_path@,
                    Err(_) => false,
                }
            },
        },
{
    let known = match existing {
        None => {
            return Ok(Resumption::New);
        },
        Some(known) => known,
    };
    if !known.file().same_as(file) || !is_text(known.destination(), destination) || !is_text(
        known.staging(),
        staging,
    ) {
        return Err(
            TransferError::InvalidData(
                DataFault::NegotiationChanged { path: file.entry.relative_path.clone() },
            ),
        );
    }
    if !known.is_quiet() {
        return Err(
            TransferError::Network(
                NetworkFault::UploadsUnfinished { path: file.entry.relative_path.clone() },
            ),
        );
    }
    if known.is_finalized() {
        Ok(Resumption::Finalized)
    } else {
        Ok(Resumption::Open)
    }
}

/// A regular file as long as `file`.
pub open spec fn could_be(status: NodeStatus, file: HashedFileView) -> bool {
    status.kind == NodeKind::File && status.length == file.entry.metadata.size
}

/// Whether a finalized destination is worth hashing again.
pub fn should_recheck(file: &HashedFile, status: &NodeStatus) -> (yes: bool)
    ensures
        yes == could_be(*status, file@),
{
    status.kind == NodeKind::File && status.length == file.entry.size
}

/// The plan that asks for nothing and reuses every chunk.
pub open spec fn is_complete_plan(plan: FilePlan, file: HashedFileView) -> bool {
    &&& plan.path@ == file.entry.path
    &&& plan.missing_chunks@ == Seq::<u64>::empty()
    &&& plan.missing_bytes == 0
    &&& plan.resumed_chunks@ == Seq::<u64>::empty()
    &&& plan.resumed_bytes == 0
    &&& plan.reused_chunks@ == indices_where(file.chunks, |index: u64| true)
    &&& plan.reused_bytes == file.entry.metadata.size
}

/// The plan for a file that was finalized before: nothing is missing, as long
/// as the destination still has its content. `hash` is that of the destination
/// where it was worth computing.
pub fn plan_finalized_file(file: &HashedFile, status: &NodeStatus, hash: Option<&ContentHash>) -> (
    result: Result<FilePlan, TransferError>)
    ensures
        ({
            let intact = could_be(*status, file@) && (hash matches Some(h) && *h == file.hash);
            match result {
                Ok(plan) => intact && is_complete_plan(plan, file@),
                Err(TransferError::InvalidData(DataFault::FinalizedDestinationChanged { path })) =>
                    !intact && path@ == file.entry.relative_path@,
                Err(_) => false,
            }
        }),
{
    let same = match hash {
        Some(hash) => same_digest(hash, &file.hash),
        None => false,
    };
    if should_recheck(file, status) && same {
        Ok(plan_complete_file(file))
    } else {
        Err(
            TransferError::InvalidData(
                DataFault::FinalizedDestinationChanged { path: file.entry.relative_path.clone() },
            ),
        )
    }
}

/// Decides whether the file at the destination is worth hashing: only one of
/// the same length is. What is there must be a regular file, if anything is.
pub fn should_hash_existing(
    file: &HashedFile,
    destination: &str,
    actual: Option<&ManifestEntry>,
) -> (result: Result<bool, TransferError>)
    ensures
        match (actual, result) {
            (None, Ok(hash)) => !hash,
            (Some(found), Ok(hash)) => found.file_type == FileType::File && hash == (found.size
                == file.entry.size),
            (
                Some(found),
                Err(TransferError::InvalidData(DataFault::DestinationNotFile { path })),
            ) => found.file_type != FileType::File && path@ == destination@,
            _ => false,
        },
{
    match actual {
        None => Ok(false),
        Some(found) => {
            if found.file_type != FileType::File {
                Err(
                    TransferError::InvalidData(
                        DataFault::DestinationNotFile { path: destination.to_owned() },
                    ),
                )
            } else {
                Ok(found.size == file.entry.size)
            }
        },
    }
}

/// Whether hashes remembered from earlier may stand for reading a file.
pub fn uses_hash_cache(mode: VerificationMode) -> (yes: bool)
    ensures
        yes == (mode != VerificationMode::Verified),
{
    mode != VerificationMode::Verified
}

/// Whether the destination already has the content of the file.
pub fn is_identical(file: &HashedFile, existing: Option<&HashedFile>) -> (yes: bool)
    ensures
        yes == (existing matches Some(known) && known.hash == file.hash),
{
    match existing {
        Some(known) => same_digest(&known.hash, &file.hash),
        None => false,
    }
}

/// The chunks, among the first `n`, that the destination has in the same place
/// and that were not received before.
pub open spec fn reusable(
    expected: Seq<ChunkDescriptor>,
    available: Seq<ChunkDescriptor>,
    resumed: Set<u64>,
    n: int,
) -> Seq<ChunkDescriptor>
    decreases n,
{
    if n <= 0 {
        Seq::<ChunkDescriptor>::empty()
    } else {
        let earlier = reusable(expected, available, resumed, n - 1);
        let chunk = expected[n - 1];
        if !resumed.contains(chunk.index) && chunk.hash == available[n - 1].hash {
            earlier.push(chunk)
        } else {
            earlier
        }
    }
}

/// What is reusable is of the file.
pub proof fn lemma_reusable_is_expected(
    expected: Seq<ChunkDescriptor>,
    available: Seq<ChunkDescriptor>,
    resumed: Set<u64>,
    n: int,
)
    requires
        n <= expected.len(),
    ensures
        forall|i: int|
            0 <= i < reusable(expected, available, resumed, n).len() ==> expected.contains(
                #[trigger] reusable(expected, available, resumed, n)[i],
            ),
    decreases n,
{
    if n > 0 {
        lemma_reusable_is_expected(expected, available, resumed, n - 1);
        let earlier = reusable(expected, available, resumed, n - 1);
        let all = reusable(expected, available, resumed, n);
        assert(expected.contains(expected[n - 1]));
        assert forall|i: int| 0 <= i < all.len() implies expected.contains(
            #[trigger] all[i],
        ) by {
            if i < earlier.len() {
                assert(all[i] == earlier[i]);
            }
        }
    }
}

proof fn lemma_reusable_by_place(
    expected: Seq<ChunkDescriptor>,
    available: Seq<ChunkDescriptor>,
    resumed: Set<u64>,
    n: int,
    i: int,
)
    requires
        0 <= n <= expected.len(),
        n <= available.len(),
        0 <= i < expected.len(),
        forall|k: int| 0 <= k < expected.len() ==> (#[trigger] expected[k]).index == k,
    ensures
        reusable(expected, available, resumed, n).contains(expected[i]) <==> i < n
            && expected[i].hash == available[i].hash && !resumed.contains(expected[i].index),
        forall|j: int|
            0 <= j < reusable(expected, available, resumed, n).len() ==> (#[trigger] reusable(
                expected,
                available,
                resumed,
                n,
            )[j]).index < n,
        forall|j: int, k: int|
            #![trigger reusable(expected, available, resumed, n)[j], reusable(expected, available, resumed, n)[k]]
            0 <= j < k < reusable(expected, available, resumed, n).len() ==> reusable(
                expected,
                available,
                resumed,
                n,
            )[j].index < reusable(expected, available, resumed, n)[k].index,
    decreases n,
{
    if n > 0 {
        lemma_reusable_by_place(expected, available, resumed, n - 1, i);
        let earlier = reusable(expected, available, resumed, n - 1);
        let all = reusable(expected, available, resumed, n);
        let chunk = expected[n - 1];
        assert(chunk.index == n - 1);
        assert(expected[i].index == i);
        if all.len() > earlier.len() {
            assert(all == earlier.push(chunk));
            if earlier.contains(expected[i]) {
                let k = choose|k: int| 0 <= k < earlier.len() && earlier[k] == expected[i];
                assert(all[k] == expected[i]);
            }
            if i == n - 1 {
                assert(all[all.len() - 1] == expected[i]);
            }
            if all.contains(expected[i]) {
                let k = choose|k: int| 0 <= k < all.len() && all[k] == expected[i];
                if k < earlier.len() {
                    assert(earlier[k] == expected[i]);
                }
            }
        }
    }
}

/// Each chunk is judged on its own: it is reused exactly if the destination has a
/// chunk of the same hash in the same place and it was not received before, whatever
/// becomes of the other chunks. Nothing else is reused, and the chunks come in file
/// order, each once.
pub proof fn law_chunks_are_reused_one_by_one(
    expected: Seq<ChunkDescriptor>,
    available: Seq<ChunkDescriptor>,
    resumed: Set<u64>,
)
    requires
        forall|k: int| 0 <= k < expected.len() ==> (#[trigger] expected[k]).index == k,
    ensures
        ({
            let reused = reusable(
                expected,
                available,
                resumed,
                shorter(expected.len(), available.len()),
            );
            &&& forall|i: int|
                0 <= i < expected.len() ==> (reused.contains(#[trigger] expected[i]) <==> i
                    < available.len() && expected[i].hash == available[i].hash
                    && !resumed.contains(expected[i].index))
            &&& forall|j: int|
                0 <= j < reused.len() ==> expected.contains(#[trigger] reused[j])
            &&& forall|j: int, k: int|
                #![trigger reused[j], reused[k]]
                0 <= j < k < reused.len() ==> reused[j].index < reused[k].index
        }),
{
    let n = shorter(expected.len(), available.len());
    assert forall|i: int| 0 <= i < expected.len() implies (reusable(
        expected,
        available,
        resumed,
        n,
    ).contains(#[trigger] expected[i]) <==> i < available.len() && expected[i].hash
        == available[i].hash && !resumed.contains(expected[i].index)) by {
        lemma_reusable_by_place(expected, available, resumed, n, i);
    }
    lemma_reusable_is_expected(expected, available, resumed, n);
    if expected.len() > 0 {
        lemma_reusable_by_place(expected, available, resumed, n, 0);
    }
}

pub open spec fn shorter(a: nat, b: nat) -> int {
    if a < b {
        a as int
    } else {
        b as int
    }
}

/// The chunk of a file that is recorded under a number.
pub open spec fn recorded_chunk(chunks: Seq<ChunkDescriptor>, index: u64) -> Option<ChunkDescriptor> {
    if index < chunks.len() && chunks[index as int].index == index {
        Some(chunks[index as int])
    } else {
        None
    }
}

/// A file that is about to be received, and which of its chunks are here.
pub struct FilePreparation {
    file: HashedFile,
    resumed: HashSet<u64>,
    reused: HashSet<u64>,
}

impl FilePreparation {
    pub closed spec fn spec_file(&self) -> HashedFileView {
        self.file@
    }

    /// The chunks received before an interruption.
    pub closed spec fn spec_resumed(&self) -> Set<u64> {
        self.resumed@
    }

    /// The chunks copied from the destination.
    pub closed spec fn spec_reused(&self) -> Set<u64> {
        self.reused@
    }

    /// Nothing of the file is known to be here.
    pub fn new(file: HashedFile) -> (preparation: Self)
        ensures
            preparation.spec_file() == file@,
            preparation.spec_resumed() == Set::<u64>::empty(),
            preparation.spec_reused() == Set::<u64>::empty(),
    {
        FilePreparation { file, resumed: HashSet::new(), reused: HashSet::new() }
    }

    pub fn file(&self) -> (file: &HashedFile)
        ensures
            file@ == self.spec_file(),
    {
        &self.file
    }

    /// The chunk to read back from the staged file for a recorded number, if
    /// the file has it.
    pub fn resume_candidate(&self, index: u64) -> (chunk: Option<ChunkDescriptor>)
        ensures
            chunk == recorded_chunk(self.spec_file().chunks, index),
    {
        if index < self.file.chunks.len() as u64 && self.file.chunks[index as usize].index == index {
            Some(self.file.chunks[index as usize])
        } else {
            None
        }
    }

    /// Keeps a recorded chunk whose bytes in the staged file have its hash;
    /// the record of any other is to be removed.
    pub fn resume(&mut self, index: u64, hash: Option<&ContentHash>) -> (kept: bool)
        ensures
            kept == (recorded_chunk(old(self).spec_file().chunks, index) matches Some(chunk) && (
            hash matches Some(h) && *h == chunk.hash)),
            final(self).spec_file() == old(self).spec_file(),
            final(self).spec_reused() == old(self).spec_reused(),
            final(self).spec_resumed() == if kept {
                old(self).spec_resumed().insert(index)
            } else {
                old(self).spec_resumed()
            },
    {
        let kept = match (self.resume_candidate(index), hash) {
            (Some(chunk), Some(hash)) => same_digest(hash, &chunk.hash),
            _ => false,
        };
        if kept {
            self.resumed.insert(index);
        }
        kept
    }

    /// The chunks worth copying from the destination, whose chunks are given.
    pub fn reuse_candidates(&self, existing: &HashedFile) -> (chunks: Vec<ChunkDescriptor>)
        ensures
            chunks@ == reusable(
                self.spec_file().chunks,
                existing.chunks@,
                self.spec_resumed(),
                shorter(self.spec_file().chunks.len(), existing.chunks@.len()),
            ),
    {
        let mut chunks: Vec<ChunkDescriptor> = Vec::new();
        let mut i: usize = 0;
        while i < self.file.chunks.len() && i < existing.chunks.len()
            invariant
                i <= self.file.chunks.len(),
                i <= existing.chunks.len(),
                chunks@ == reusable(
                    self.file.chunks@,
                    existing.chunks@,
                    self.resumed@,
                    i as int,
                ),
            decreases self.file.chunks.len() - i,
        {
            let chunk = self.file.chunks[i];
            if !self.resumed.contains(&chunk.index) && same_digest(
                &chunk.hash,
                &existing.chunks[i].hash,
            ) {
                chunks.push(chunk);
            }
            i += 1;
        }
        chunks
    }

    /// Notes whether a chunk was copied, whole and with its hash.
    pub fn reuse(&mut self, index: u64, copied: bool)
        ensures
            final(self).spec_file() == old(self).spec_file(),
            final(self).spec_resumed() == old(self).spec_resumed(),
            final(self).spec_reused() == if copied {
                old(self).spec_reused().insert(index)
            } else {
                old(self).spec_reused()
            },
    {
        if copied {
            self.reused.insert(index);
        }
    }

    /// The records of the chunks that were copied, in file order.
    pub fn reused_records(&self, job_id: Uuid, now: i64) -> (records: Vec<CompletedChunk>)
        ensures
            ({
                let indices = indices_where(
                    self.spec_file().chunks,
                    |index: u64| self.spec_reused().contains(index),
                );
                &&& records@.len() == indices.len()
                &&& forall|k: int|
                    0 <= k < records@.len() ==> {
                        &&& (#[trigger] records@[k]).index == indices[k]
                        &&& records@[k].job_id == job_id
                        &&& records@[k].path@ == self.spec_file().entry.path
                        &&& records@[k].source_hash == self.spec_file().hash
                        &&& records@[k].completed_at == now
                    }
            }),
    {
        let ghost keep = |index: u64| self.spec_reused().contains(index);
        let ghost chunks = self.file.chunks@;
        let mut records: Vec<CompletedChunk> = Vec::new();
        let mut i: usize = 0;
        assert(chunks.take(0) =~= Seq::<ChunkDescriptor>::empty());
        while i < self.file.chunks.len()
            invariant
                i <= self.file.chunks.len(),
                chunks == self.file.chunks@,
                keep == (|index: u64| self.spec_reused().contains(index)),
                records@.len() == indices_where(chunks.take(i as int), keep).len(),
                forall|k: int|
                    0 <= k < records@.len() ==> {
                        &&& (#[trigger] records@[k]).index == indices_where(
                            chunks.take(i as int),
                            keep,
                        )[k]
                        &&& records@[k].job_id == job_id
                        &&& records@[k].path@ == self.spec_file().entry.path
                        &&& records@[k].source_hash == self.spec_file().hash
                        &&& records@[k].completed_at == now
                    },
            decreases self.file.chunks.len() - i,
        {
            assert(chunks.take(i + 1).drop_last() =~= chunks.take(i as int));
            let index: u64 = self.file.chunks[i].index;
            if self.reused.contains(&index) {
                records.push(chunk_record(job_id, &self.file, index, now));
            }
            i += 1;
        }
        assert(chunks.take(i as int) =~= chunks);
        records
    }

    /// The plan: whatever is not here is missing.
    pub fn plan(&self) -> (plan: FilePlan)
        ensures
            is_plan_for(
                plan,
                self.spec_file().entry.path,
                self.spec_file().chunks,
                self.spec_resumed(),
                self.spec_reused(),
            ),
    {
        plan_file(&self.file, &self.resumed, &self.reused)
    }
}

/// What is in the place of a file may be the file exactly if it is a file as long.
pub proof fn law_what_could_be_the_file(status: NodeStatus, file: HashedFileView)
    ensures
        could_be(status, file) <==> status.kind is File && status.length == file.entry.metadata.size,
{
}

/// A recorded number stands for the chunk that has it, and for none where no chunk has.
pub proof fn law_recorded_numbers_stand_for_their_chunks(chunks: Seq<ChunkDescriptor>, index: u64)
    requires
        forall|i: int| 0 <= i < chunks.len() ==> (#[trigger] chunks[i]).index == i,
    ensures
        recorded_chunk(chunks, index) is None <==> forall|i: int|
            0 <= i < chunks.len() ==> (#[trigger] chunks[i]).index != index,
        recorded_chunk(chunks, index) matches Some(chunk) ==> chunks.contains(chunk) && chunk.index
            == index,
{
    if index < chunks.len() {
        assert(chunks[index as int].index == index);
        assert(chunks.contains(chunks[index as int]));
    }
}

/// Of a file that is in its place every chunk counts as reused, with all its bytes, and
/// none is asked for.
pub proof fn law_complete_files_need_nothing(plan: FilePlan, file: HashedFileView, index: u64)
    requires
        is_complete_plan(plan, file),
        forall|k: int| 0 <= k < file.chunks.len() ==> (#[trigger] file.chunks[k]).index == k,
        index < file.chunks.len() <= u64::MAX,
    ensures
        plan.path@ == file.entry.path,
        plan.missing_chunks@.len() == 0 && plan.missing_bytes == 0,
        plan.resumed_chunks@.len() == 0 && plan.resumed_bytes == 0,
        plan.reused_chunks@.len() == file.chunks.len(),
        plan.reused_chunks@[index as int] == index,
        plan.reused_bytes == file.entry.metadata.size,
{
    crate::plan::law_all_chunks_are_listed_in_order(file.chunks, index as int);
}

} // verus!
