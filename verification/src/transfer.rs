//! The course of one attempt to send a job: scan, connect, compare, hash,
//! negotiate, upload, finalize and complete, in this order.

use crate::decisions::{
    after_directories, after_files, batch_end, batch_start, batches_for, classify, compare_batch,
    compare_batch_count, decided_rows, decides_batch, entry_paths, files_to_hash, is_undecided,
    reports_decisions, update_views, Decisions, FileUpdate,
};
use crate::error::{DataFault, ProtocolError, TransferError};
use crate::finish::{
    accept_completion, accept_finalize, acknowledges_file, acknowledges_job, ended,
    receiver_failures, reject_source, with_completed, with_receiver_failures,
};
use crate::ids::Uuid;
use crate::model::{FileOperation, FileProgress, HashedFile, JobStatus, ManifestEntry, TransferJob};
use crate::hashing::{layout_fault, validate_hashed_file};
use crate::negotiation::{
    are_batches, chunks_to_send, drop_rejected, files_in, is_packing, is_work,
    law_work_is_what_is_missing, negotiate_batch, plans_files, position_of, queue_chunks,
    record_unencodable, reports_plans, requests_in, spared_bytes, takes_plan, upload_work, work_for,
    work_views, HashBatches, NegotiatedFile, NegotiatedFiles, UploadWork, HASH_BATCH_SIZE,
};
use crate::outgoing::{
    bytes_of_entries, error_views, failure_status, files_of, pending_records, scanned_progress,
    validate_config, with_failure, OutgoingJob, OutgoingView,
};
use crate::records::{JobFileRecord, JobFileStatus};
use crate::scan::ScanResult;
use crate::stream::{Acknowledgement, CompareBatch, HashedFileBatch, Response};
use crate::plan::saturated;
use crate::upload::{
    dequeued, hashing_files, is_failed_update, sending_chunks, sent_of, with_current,
    with_transferred, CheckedSource, HashPhase, SentChunk, UploadPhase, UploadPhaseView,
    UploadRecord,
};
use vstd::prelude::*;

verus! {

/// An attempt that has failed, with the job as it was then.
pub struct FailedTransfer {
    pub job: OutgoingJob,
    pub error: TransferError,
}

impl FailedTransfer {
    /// The job as it is stored: cancelled or failed.
    pub fn into_job(self) -> (job: TransferJob)
        ensures
            job.id == self.job@.id,
            job.peer_id == self.job@.peer_id,
            job.source_root@ == self.job@.source_root,
            job.destination_root@ == self.job@.destination_root,
            job.config == self.job@.config,
            job.progress == self.job@.progress,
            error_views(job.errors@) == self.job@.errors,
            job.status == if self.error is Cancelled {
                JobStatus::Cancelled
            } else {
                JobStatus::Failed
            },
    {
        let status = failure_status(&self.error);
        let mut outgoing = self.job;
        outgoing.set_status(status);
        outgoing.into_job()
    }
}

/// What a job is before an attempt.
pub open spec fn fresh_view(job: TransferJob) -> OutgoingView {
    OutgoingView {
        id: job.id,
        peer_id: job.peer_id,
        source_root: job.source_root@,
        destination_root: job.destination_root@,
        config: job.config,
        status: job.status,
        progress: job.progress,
        errors: error_views(job.errors@),
        failed: Set::empty(),
    }
}

/// The settings of a job are usable.
pub open spec fn is_configured(job: OutgoingView) -> bool {
    &&& 0 < job.config.chunk_size <= usize::MAX
    &&& job.config.concurrency > 0
    &&& crate::path::is_absolute_somewhere(job.destination_root)
}

/// Why they are not: the first of them that is not usable.
pub open spec fn is_config_fault(error: TransferError, job: OutgoingView) -> bool {
    let sized = 0 < job.config.chunk_size <= usize::MAX;
    match error {
        TransferError::InvalidData(DataFault::InvalidChunkSize { chunk_size }) => !sized
            && chunk_size == job.config.chunk_size,
        TransferError::InvalidData(DataFault::ZeroConcurrency) => sized && job.config.concurrency
            == 0,
        TransferError::InvalidData(DataFault::RootMustBeAbsolute { path }) => {
            &&& sized && job.config.concurrency > 0
            &&& !crate::path::is_absolute_somewhere(job.destination_root)
            &&& path@ == job.destination_root
        },
        _ => false,
    }
}

/// The source is being scanned.
pub struct Scanning {
    job: OutgoingJob,
}

impl View for Scanning {
    type V = OutgoingView;

    closed spec fn view(&self) -> OutgoingView {
        self.job@
    }
}

/// Begins an attempt: the settings are checked, and the job is scanning.
pub fn begin_transfer(job: TransferJob) -> (result: Result<Scanning, FailedTransfer>)
    ensures
        match result {
            Ok(stage) => is_configured(fresh_view(job)) && stage@ == (OutgoingView {
                status: JobStatus::Scanning,
                ..fresh_view(job)
            }),
            Err(failed) => {
                &&& !is_configured(fresh_view(job))
                &&& failed.job@ == fresh_view(job)
                &&& is_config_fault(failed.error, fresh_view(job))
            },
        },
{
    let mut outgoing = OutgoingJob::new(job);
    match validate_config(outgoing.job()) {
        Ok(_) => {},
        Err(error) => return Err(FailedTransfer { job: outgoing, error }),
    }
    outgoing.set_status(JobStatus::Scanning);
    Ok(Scanning { job: outgoing })
}

impl Scanning {
    /// The job as it stands, to be stored.
    pub fn job(&self) -> (job: &OutgoingJob)
        ensures
            job@ == self@,
    {
        &self.job
    }

    pub fn fail(self, error: TransferError) -> (failed: FailedTransfer)
        ensures
            failed.job@ == self@,
            failed.error == error,
    {
        FailedTransfer { job: self.job, error }
    }

    /// Takes the scan of the source: the progress starts anew, the errors of the
    /// scan are kept, and every file gets a pending row.
    pub fn scanned(self, scan: ScanResult, now: i64) -> (result: (Connecting, Vec<JobFileRecord>))
        requires
            bytes_of_entries(files_of(scan.entries@)) <= u64::MAX,
        ensures
            result.0@ == (OutgoingView {
                progress: scanned_progress(scan, self@.config.concurrency),
                errors: self@.errors + error_views(scan.errors@),
                ..self@
            }),
            result.0@.progress.total_files == files_of(scan.entries@).len(),
            result.0.spec_entries() == scan.entries@,
            result.1@.len() == files_of(scan.entries@).len(),
            forall|i: int|
                0 <= i < result.1@.len() ==> (#[trigger] result.1@[i]).is_new(
                    self@.id,
                    files_of(scan.entries@)[i].relative_path@,
                    files_of(scan.entries@)[i].size,
                    JobFileStatus::Pending,
                    None,
                    now,
                ),
    {
        let mut scan = scan;
        let mut job = self.job;
        job.apply_scan(&mut scan);
        let records = pending_records(job.job().id, &scan.entries, now);
        (Connecting { job, entries: scan.entries }, records)
    }
}

/// The receiver is being connected to.
pub struct Connecting {
    job: OutgoingJob,
    entries: Vec<ManifestEntry>,
}

impl View for Connecting {
    type V = OutgoingView;

    closed spec fn view(&self) -> OutgoingView {
        self.job@
    }
}

impl Connecting {
    /// The manifest.
    pub closed spec fn spec_entries(self) -> Seq<ManifestEntry> {
        self.entries@
    }

    /// The job as it stands, to be stored.
    pub fn job(&self) -> (job: &OutgoingJob)
        ensures
            job@ == self@,
    {
        &self.job
    }

    pub fn fail(self, error: TransferError) -> (failed: FailedTransfer)
        ensures
            failed.job@ == self@,
            failed.error == error,
    {
        FailedTransfer { job: self.job, error }
    }

    /// Goes on with the peer that has proved who it is, under a new manifest
    /// identifier. It must be trusted.
    pub fn connected(self, device_id: Uuid, trusted: bool, manifest_id: Uuid) -> (result: Result<
        Comparing,
        FailedTransfer,
    >)
        ensures
            match result {
                Ok(stage) => {
                    &&& trusted
                    &&& stage.wf()
                    &&& stage@ == (OutgoingView {
                        peer_id: Some(device_id),
                        status: JobStatus::Transferring,
                        ..self@
                    })
                    &&& stage.spec_entries() == self.spec_entries()
                    &&& stage.spec_manifest_id() == manifest_id
                    &&& stage.spec_sequence() == 0
                },
                Err(failed) => {
                    &&& !trusted
                    &&& failed.error == (TransferError::UntrustedPeer { device_id })
                    &&& failed.job@ == self@
                },
            },
    {
        let mut job = self.job;
        match job.accept_peer(device_id, trusted) {
            Ok(_) => {},
            Err(error) => return Err(FailedTransfer { job, error }),
        }
        let stage = Comparing {
            job,
            entries: self.entries,
            manifest_id,
            decisions: Decisions::new(),
            sequence: 0,
        };
        proof {
            let paths = entry_paths(stage.entries@.take(0));
            assert(paths.to_set() =~= Set::<Seq<char>>::empty());
            assert(stage.decisions@.dom() =~= paths.to_set());
        }
        Ok(stage)
    }
}

/// The manifest is being compared with the destination, batch by batch.
pub struct Comparing {
    job: OutgoingJob,
    entries: Vec<ManifestEntry>,
    manifest_id: Uuid,
    decisions: Decisions,
    sequence: usize,
}

impl View for Comparing {
    type V = OutgoingView;

    closed spec fn view(&self) -> OutgoingView {
        self.job@
    }
}

/// How many entries are in the batches before one.
pub open spec fn entries_before(sequence: int, count: int) -> int {
    if batch_start(sequence) < count {
        batch_start(sequence)
    } else {
        count
    }
}

impl Comparing {
    pub closed spec fn spec_entries(self) -> Seq<ManifestEntry> {
        self.entries@
    }

    pub closed spec fn spec_manifest_id(self) -> Uuid {
        self.manifest_id
    }

    /// The number of the batch that is next.
    pub closed spec fn spec_sequence(self) -> int {
        self.sequence as int
    }

    /// What the receiver has decided so far.
    pub closed spec fn spec_decisions(self) -> Map<Seq<char>, crate::stream::CompareAction> {
        self.decisions@
    }

    /// Exactly the entries of the batches so far are decided.
    pub open spec fn wf(self) -> bool {
        let count = self.spec_entries().len() as int;
        &&& 0 <= self.spec_sequence() <= batches_for(count)
        &&& self.spec_decisions().dom() == entry_paths(
            self.spec_entries().take(entries_before(self.spec_sequence(), count)),
        ).to_set()
    }

    /// Every batch has been decided.
    pub open spec fn is_complete(self) -> bool {
        self.spec_sequence() == batches_for(self.spec_entries().len() as int)
    }

    pub fn job(&self) -> (job: &OutgoingJob)
        ensures
            job@ == self@,
    {
        &self.job
    }

    pub fn fail(self, error: TransferError) -> (failed: FailedTransfer)
        ensures
            failed.job@ == self@,
            failed.error == error,
    {
        FailedTransfer { job: self.job, error }
    }

    /// The next batch, if there is one.
    pub fn next_batch(&self) -> (batch: Option<Result<CompareBatch, TransferError>>)
        requires
            self.wf(),
        ensures
            batch is None <==> self.is_complete(),
            batch matches Some(Ok(next)) ==> self.is_next(next) && self.spec_sequence() <= u32::MAX,
            batch matches Some(Err(error)) ==> self.spec_sequence() > u32::MAX && error
                == TransferError::InvalidData(DataFault::TooManyBatches),
    {
        if self.sequence == compare_batch_count(self.entries.len()) {
            return None;
        }
        let batch = compare_batch(self.job.job(), self.manifest_id, &self.entries, self.sequence);
        Some(batch)
    }

    /// The batch is the next one.
    pub open spec fn is_next(self, batch: CompareBatch) -> bool {
        let count = self.spec_entries().len() as int;
        &&& !self.is_complete()
        &&& batch.job_id == self@.id
        &&& batch.manifest_id == self.spec_manifest_id()
        &&& batch.destination_root@ == self@.destination_root
        &&& batch.verification_mode == self@.config.verification_mode
        &&& batch.chunk_size == self@.config.chunk_size
        &&& batch.sequence == self.spec_sequence()
        &&& batch.is_last == (self.spec_sequence() + 1 == batches_for(count))
        &&& batch.entries@ == self.spec_entries().subrange(
            batch_start(self.spec_sequence()),
            batch_end(self.spec_sequence(), count),
        )
    }
}

proof fn lemma_paths_join(entries: Seq<ManifestEntry>, a: int, b: int)
    requires
        0 <= a <= b <= entries.len(),
    ensures
        entry_paths(entries.take(b)).to_set() == entry_paths(entries.take(a)).to_set().union(
            entry_paths(entries.subrange(a, b)).to_set(),
        ),
{
    let (all, first, second) = (
        entry_paths(entries.take(b)),
        entry_paths(entries.take(a)),
        entry_paths(entries.subrange(a, b)),
    );
    assert(all =~= first + second);
    assert forall|path: Seq<char>| all.to_set().contains(path) <==> first.to_set().union(
        second.to_set(),
    ).contains(path) by {
        if all.contains(path) {
            let k = choose|k: int| 0 <= k < all.len() && all[k] == path;
            if k < first.len() {
                assert(first[k] == path);
            } else {
                assert(second[k - first.len()] == path);
            }
        }
        if first.contains(path) {
            let k = choose|k: int| 0 <= k < first.len() && first[k] == path;
            assert(all[k] == path);
        }
        if second.contains(path) {
            let k = choose|k: int| 0 <= k < second.len() && second[k] == path;
            assert(all[k + first.len()] == path);
        }
    }
    assert(all.to_set() =~= first.to_set().union(second.to_set()));
}

impl Comparing {
    /// Takes the answer to the next batch.
    pub fn accept(&mut self, batch: &CompareBatch, response: &Response) -> (result: Result<
        (),
        TransferError,
    >)
        requires
            old(self).wf(),
            old(self).is_next(*batch),
        ensures
            final(self)@ == old(self)@,
            final(self).spec_entries() == old(self).spec_entries(),
            final(self).spec_manifest_id() == old(self).spec_manifest_id(),
            match result {
                Ok(_) => {
                    &&& decides_batch(*response, *batch, old(self).spec_decisions())
                    &&& final(self).wf()
                    &&& final(self).spec_sequence() == old(self).spec_sequence() + 1
                    &&& forall|path: Seq<char>| #[trigger]
                        old(self).spec_decisions().contains_key(path)
                            ==> final(self).spec_decisions()[path]
                            == old(self).spec_decisions()[path]
                    &&& forall|i: int|
                        0 <= i < response->Compare_0.decisions@.len()
                            ==> final(self).spec_decisions()[(#[trigger] response->Compare_0.decisions@[i]).path@]
                            == response->Compare_0.decisions@[i].action
                },
                Err(error) => reports_decisions(
                    error,
                    *response,
                    *batch,
                    old(self).spec_decisions(),
                ),
            },
    {
        match self.decisions.accept(batch, response) {
            Ok(_) => {},
            Err(error) => return Err(error),
        }
        proof {
            let count = self.entries@.len() as int;
            let a = entries_before(self.sequence as int, count);
            let b = entries_before(self.sequence + 1, count);
            assert(a == batch_start(self.sequence as int));
            assert(b == batch_end(self.sequence as int, count));
            lemma_paths_join(self.entries@, a, b);
        }
        assert(self.entries@.len() == self.entries.len() <= usize::MAX);
        self.sequence = self.sequence + 1;
        Ok(())
    }

    /// Does what the receiver has decided: the files that it has are done, those
    /// in conflict have failed, and the others are to be hashed.
    /// Nothing is left undecided, so this does not fail.
    pub fn compared(self) -> (result: Result<(Hashing, Vec<FileUpdate>), FailedTransfer>)
        requires
            self.wf(),
            self.is_complete(),
            self@.progress.completed_files + self.spec_entries().len() <= u64::MAX,
            self@.progress.skipped_files + self.spec_entries().len() <= u64::MAX,
            self@.progress.failed_files + self.spec_entries().len() <= u64::MAX,
        ensures
            ({
                let n = self.spec_entries().len() as int;
                let decided = after_files(
                    after_directories(self@, self.spec_entries(), self.spec_decisions(), n),
                    self.spec_entries(),
                    self.spec_decisions(),
                    n,
                );
                let to_hash = files_to_hash(self.spec_entries(), self.spec_decisions(), n);
                &&& result is Ok
                &&& result->Ok_0.0@ == hashing_files(decided, to_hash.len() as int)
                &&& result->Ok_0.0.spec_to_hash() == to_hash
                &&& result->Ok_0.0.spec_hashed() == Seq::<HashedFile>::empty()
                &&& result->Ok_0.0.spec_processed() == 0
                &&& result->Ok_0.0.spec_seen() == Set::<int>::empty()
                &&& result->Ok_0.0.spec_hashed_bytes() == 0
                &&& result->Ok_0.0.spec_manifest_id() == self.spec_manifest_id()
                &&& result->Ok_0.0.wf()
                &&& update_views(result->Ok_0.1@) == decided_rows(
                    self.spec_entries(),
                    self.spec_decisions(),
                    n,
                )
            }),
    {
        let mut job = self.job;
        let ghost count = self.entries@.len() as int;
        proof {
            assert(self.entries@.take(entries_before(self.sequence as int, count))
                =~= self.entries@);
            assert forall|path: Seq<char>| !is_undecided(self.entries@, self.decisions@, path) by {
                if entry_paths(self.entries@).contains(path) {
                    assert(self.decisions@.dom().contains(path));
                }
            }
        }
        match classify(&mut job, &self.entries, &self.decisions) {
            Ok(classification) => {
                let to_hash = classification.to_hash;
                let phase = HashPhase::begin(&mut job, to_hash.len());
                let stage = Hashing {
                    job,
                    manifest_id: self.manifest_id,
                    to_hash,
                    phase,
                    seen: Ghost(Set::empty()),
                    places: Ghost(Seq::empty()),
                };
                Ok((stage, classification.updates))
            },
            Err(error) => Err(FailedTransfer { job, error }),
        }
    }
}

/// The source files are being hashed.
pub struct Hashing {
    job: OutgoingJob,
    manifest_id: Uuid,
    to_hash: Vec<ManifestEntry>,
    phase: HashPhase,
    /// Which files have been looked at.
    seen: Ghost<Set<int>>,
    /// Which file each hashed one is.
    places: Ghost<Seq<int>>,
}

/// Each hashed file is of an entry of its own, in the place that is given for it.
pub open spec fn are_of(
    hashed: Seq<HashedFile>,
    places: Seq<int>,
    entries: Seq<ManifestEntry>,
) -> bool {
    &&& places.len() == hashed.len()
    &&& places.no_duplicates()
    &&& forall|k: int|
        0 <= k < places.len() ==> 0 <= #[trigger] places[k] < entries.len() && hashed[k].entry@
            == entries[places[k]]@
}

impl View for Hashing {
    type V = OutgoingView;

    closed spec fn view(&self) -> OutgoingView {
        self.job@
    }
}

impl Hashing {
    pub closed spec fn spec_manifest_id(self) -> Uuid {
        self.manifest_id
    }

    /// The files to hash.
    pub closed spec fn spec_to_hash(self) -> Seq<ManifestEntry> {
        self.to_hash@
    }

    /// The files hashed so far.
    pub closed spec fn spec_hashed(self) -> Seq<HashedFile> {
        self.phase@.hashed
    }

    /// How many files have been looked at.
    pub closed spec fn spec_processed(self) -> int {
        self.phase@.processed as int
    }

    /// Which of the files have been looked at.
    pub closed spec fn spec_seen(self) -> Set<int> {
        self.seen@
    }

    /// Which of the files each hashed one is.
    pub closed spec fn spec_places(self) -> Seq<int> {
        self.places@
    }

    pub closed spec fn wf(self) -> bool {
        &&& self.phase@.entry_count == self.to_hash@.len()
        &&& self.seen@.finite()
        &&& self.seen@.len() == self.phase@.processed
        &&& forall|i: int| #[trigger] self.seen@.contains(i) ==> 0 <= i < self.to_hash@.len()
        &&& are_of(self.phase@.hashed, self.places@, self.to_hash@)
        &&& forall|k: int|
            0 <= k < self.places@.len() ==> self.seen@.contains(#[trigger] self.places@[k])
        &&& forall|i: int| #[trigger]
            self.seen@.contains(i) ==> self.places@.contains(i) || self.job@.failed.contains(
                self.to_hash@[i].relative_path@,
            )
    }

    /// Once every file has been looked at, each is hashed once or has failed, and
    /// nothing else is hashed.
    pub proof fn law_every_file_is_hashed_or_failed(self)
        requires
            self.wf(),
            self.spec_processed() == self.spec_to_hash().len(),
        ensures
            are_of(self.spec_hashed(), self.spec_places(), self.spec_to_hash()),
            forall|i: int|
                #![trigger self.spec_to_hash()[i]]
                0 <= i < self.spec_to_hash().len() ==> self.spec_places().contains(i)
                    || self@.failed.contains(self.spec_to_hash()[i].relative_path@),
    {
        let all = vstd::set_lib::set_int_range(0, self.to_hash@.len() as int);
        vstd::set_lib::lemma_int_range(0, self.to_hash@.len() as int);
        vstd::set_lib::lemma_subset_equality(self.seen@, all);
        assert forall|i: int|
            #![trigger self.to_hash@[i]]
            0 <= i < self.to_hash@.len() implies self.places@.contains(i)
            || self.job@.failed.contains(self.to_hash@[i].relative_path@) by {
            assert(all.contains(i));
            assert(self.seen@.contains(i));
        }
    }

    /// The job as it stands, to be stored.
    pub fn job(&self) -> (job: &OutgoingJob)
        ensures
            job@ == self@,
    {
        &self.job
    }

    pub fn fail(self, error: TransferError) -> (failed: FailedTransfer)
        ensures
            failed.job@ == self@,
            failed.error == error,
    {
        FailedTransfer { job: self.job, error }
    }

    pub fn to_hash(&self) -> (entries: &Vec<ManifestEntry>)
        ensures
            entries@ == self.spec_to_hash(),
    {
        &self.to_hash
    }

    pub fn hashed_bytes(&self) -> (bytes: u64)
        ensures
            bytes == self.spec_hashed_bytes(),
    {
        self.phase.hashed_bytes()
    }

    /// The bytes hashed so far.
    pub closed spec fn spec_hashed_bytes(self) -> u64 {
        self.phase@.hashed_bytes
    }

    /// Sets the rate at which the source is hashed.
    pub fn set_hash_rate(&mut self, bytes_per_second: u64)
        ensures
            final(self)@ == (OutgoingView {
                progress: crate::model::TransferProgress {
                    hash_bytes_per_second: bytes_per_second,
                    ..old(self)@.progress
                },
                ..old(self)@
            }),
            final(self).spec_manifest_id() == old(self).spec_manifest_id(),
            final(self).spec_to_hash() == old(self).spec_to_hash(),
            final(self).spec_hashed() == old(self).spec_hashed(),
            final(self).spec_processed() == old(self).spec_processed(),
            final(self).spec_hashed_bytes() == old(self).spec_hashed_bytes(),
            final(self).spec_seen() == old(self).spec_seen(),
            final(self).spec_places() == old(self).spec_places(),
            old(self).wf() ==> final(self).wf(),
    {
        self.job.set_hash_rate(bytes_per_second);
    }

    /// Takes the outcome of hashing one of the files, each once. Cancellation ends the
    /// attempt, any other failure only the file; `message` is how the failure reads.
    pub fn accept(
        &mut self,
        index: usize,
        outcome: Result<HashedFile, TransferError>,
        message: String,
    ) -> (result: Result<Option<FileUpdate>, TransferError>)
        requires
            old(self).wf(),
            index < old(self).spec_to_hash().len(),
            !old(self).spec_seen().contains(index as int),
            outcome matches Ok(file) ==> file.entry@ == old(self).spec_to_hash()[index as int]@,
            old(self)@.progress.failed_files < u64::MAX,
        ensures
            final(self).spec_manifest_id() == old(self).spec_manifest_id(),
            final(self).spec_to_hash() == old(self).spec_to_hash(),
            ({
                let path = old(self).spec_to_hash()[index as int].relative_path;
                let remaining = old(self).spec_to_hash().len() - old(self).spec_processed() - 1;
                match (outcome, result) {
                    (Ok(file), Ok(None)) => {
                        &&& final(self).wf()
                        &&& final(self).spec_processed() == old(self).spec_processed() + 1
                        &&& final(self).spec_seen() == old(self).spec_seen().insert(index as int)
                        &&& final(self).spec_places() == old(self).spec_places().push(index as int)
                        &&& final(self).spec_hashed_bytes() == saturated(
                            old(self).spec_hashed_bytes() as nat + file.entry.size as nat,
                        )
                        &&& final(self).spec_hashed() == old(self).spec_hashed().push(file)
                        &&& final(self)@ == hashing_files(old(self)@, remaining)
                    },
                    (Err(TransferError::Cancelled), Err(error)) => error is Cancelled
                        && final(self)@ == old(self)@,
                    (Err(error), Ok(Some(update))) => {
                        &&& !(error is Cancelled)
                        &&& final(self).wf()
                        &&& final(self).spec_processed() == old(self).spec_processed() + 1
                        &&& final(self).spec_seen() == old(self).spec_seen().insert(index as int)
                        &&& final(self).spec_places() == old(self).spec_places()
                        &&& final(self).spec_hashed_bytes() == old(self).spec_hashed_bytes()
                        &&& final(self).spec_hashed() == old(self).spec_hashed()
                        &&& final(self)@ == hashing_files(
                            with_failure(old(self)@, path@, FileOperation::Verify, message@),
                            remaining,
                        )
                        &&& is_failed_update(update, path@, message@)
                    },
                    _ => false,
                }
            }),
    {
        proof {
            let all = vstd::set_lib::set_int_range(0, self.to_hash@.len() as int);
            vstd::set_lib::lemma_int_range(0, self.to_hash@.len() as int);
            assert(self.seen@.insert(index as int).subset_of(all));
            vstd::set_lib::lemma_len_subset(self.seen@.insert(index as int), all);
        }
        let path = self.to_hash[index].relative_path.clone();
        if outcome.is_ok() {
            self.places = Ghost(self.places@.push(index as int));
        }
        self.seen = Ghost(self.seen@.insert(index as int));
        let result = self.phase.accept(&mut self.job, path.as_str(), outcome, message);
        assert(outcome is Ok ==> self.places@.last() == index as int);
        assert forall|i: int| #[trigger] self.seen@.contains(i) && result is Ok implies
            self.places@.contains(i) || self.job@.failed.contains(
            self.to_hash@[i].relative_path@,
        ) by {
            if i != index as int {
                assert(old(self).seen@.contains(i));
                if old(self).places@.contains(i) {
                    let k = choose|k: int|
                        0 <= k < old(self).places@.len() && old(self).places@[k] == i;
                    assert(self.places@[k] == i);
                }
            }
        }
        result
    }

    /// Goes on once every file has been looked at.
    pub fn hashed(self) -> (stage: Probing)
        requires
            self.wf(),
            self.spec_processed() == self.spec_to_hash().len(),
        ensures
            stage@ == hashing_files(self@, 0),
            stage.spec_manifest_id() == self.spec_manifest_id(),
            crate::order::is_sorted(stage.spec_rest()),
            stage.spec_rest().to_multiset() == self.spec_hashed().to_multiset(),
            stage.spec_encodable() == Seq::<HashedFile>::empty(),
    {
        let mut job = self.job;
        let files = self.phase.finish(&mut job);
        let rest = reversed(files);
        assert(rest@.reverse() =~= files@);
        Probing { job, manifest_id: self.manifest_id, rest, encodable: Vec::new() }
    }
}

/// The same values the other way round.
fn reversed<T>(items: Vec<T>) -> (turned: Vec<T>)
    ensures
        turned@ == items@.reverse(),
{
    let ghost all = items@;
    let mut rest = items;
    let mut turned: Vec<T> = Vec::new();
    while rest.len() > 0
        invariant
            rest@.len() <= all.len(),
            rest@ == all.take(rest@.len() as int),
            turned@ == all.skip(rest@.len() as int).reverse(),
        decreases rest.len(),
    {
        let ghost n = rest@.len() as int;
        if let Some(item) = rest.pop() {
            turned.push(item);
            assert(all.take(n).drop_last() =~= all.take(n - 1));
            assert(turned@ =~= all.skip(n - 1).reverse());
        }
    }
    assert(all.skip(0) =~= all);
    turned
}

/// Each hashed file is tried on its own: it must fit one frame.
pub struct Probing {
    job: OutgoingJob,
    manifest_id: Uuid,
    /// The files still to be tried, the last one first.
    rest: Vec<HashedFile>,
    encodable: Vec<HashedFile>,
}

impl View for Probing {
    type V = OutgoingView;

    closed spec fn view(&self) -> OutgoingView {
        self.job@
    }
}

impl Probing {
    pub closed spec fn spec_manifest_id(self) -> Uuid {
        self.manifest_id
    }

    /// The files still to be tried, in order.
    pub closed spec fn spec_rest(self) -> Seq<HashedFile> {
        self.rest@.reverse()
    }

    /// The files that fit.
    pub closed spec fn spec_encodable(self) -> Seq<HashedFile> {
        self.encodable@
    }

    pub fn job(&self) -> (job: &OutgoingJob)
        ensures
            job@ == self@,
    {
        &self.job
    }

    pub fn fail(self, error: TransferError) -> (failed: FailedTransfer)
        ensures
            failed.job@ == self@,
            failed.error == error,
    {
        FailedTransfer { job: self.job, error }
    }

    /// The request that would negotiate the next file alone, if there is one.
    /// The layout of the file must be in order.
    pub fn next_probe(&self) -> (probe: Option<Result<HashedFileBatch, TransferError>>)
        ensures
            match probe {
                None => self.spec_rest().len() == 0,
                Some(Ok(batch)) => {
                    &&& self.spec_rest().len() > 0
                    &&& layout_fault(self.spec_rest()[0]@, self@.config.chunk_size) is None
                    &&& batch.job_id == self@.id
                    &&& batch.manifest_id == self.spec_manifest_id()
                    &&& batch.sequence == 0
                    &&& batch.is_last
                    &&& batch.files@.len() == 1
                    &&& batch.files@[0]@ == self.spec_rest()[0]@
                },
                Some(Err(error)) => {
                    &&& self.spec_rest().len() > 0
                    &&& layout_fault(
                        self.spec_rest()[0]@,
                        self@.config.chunk_size,
                    ) matches Some(fault) && crate::hashing::reports(
                        error,
                        self.spec_rest()[0].entry.relative_path@,
                        fault,
                    )
                },
            },
    {
        if self.rest.len() == 0 {
            return None;
        }
        let file = &self.rest[self.rest.len() - 1];
        assert(*file == self.rest@.reverse()[0]);
        match validate_hashed_file(file, self.job.job().config.chunk_size) {
            Ok(_) => {},
            Err(error) => return Some(Err(error)),
        }
        let mut files: Vec<HashedFile> = Vec::new();
        files.push(file.duplicate());
        Some(
            Ok(
                HashedFileBatch {
                    job_id: self.job.job().id,
                    manifest_id: self.manifest_id,
                    sequence: 0,
                    is_last: true,
                    files,
                },
            ),
        )
    }

    /// Takes whether the next file fits a frame; one that does not has failed.
    pub fn accept(&mut self, encoded: Result<(), String>) -> (update: Option<FileUpdate>)
        requires
            old(self).spec_rest().len() > 0,
            old(self)@.progress.failed_files < u64::MAX,
        ensures
            final(self).spec_manifest_id() == old(self).spec_manifest_id(),
            final(self).spec_rest() == old(self).spec_rest().skip(1),
            match encoded {
                Ok(_) => {
                    &&& update is None
                    &&& final(self)@ == old(self)@
                    &&& final(self).spec_encodable() == old(self).spec_encodable().push(
                        old(self).spec_rest()[0],
                    )
                },
                Err(reason) => {
                    let path = old(self).spec_rest()[0].entry.relative_path@;
                    &&& final(self)@ == with_failure(
                        old(self)@,
                        path,
                        FileOperation::Verify,
                        "hashed file descriptor is too large for the protocol: "@ + reason@,
                    )
                    &&& final(self).spec_encodable() == old(self).spec_encodable()
                    &&& update is Some
                    &&& is_failed_update(
                        update->0,
                        path,
                        "hashed descriptor exceeds protocol frame limit"@,
                    )
                },
            },
    {
        let ghost before = self.rest@;
        let file = match self.rest.pop() {
            Some(file) => file,
            None => return None,
        };
        assert(self.rest@.reverse() =~= before.reverse().skip(1));
        assert(file == before.reverse()[0]);
        match encoded {
            Ok(_) => {
                self.encodable.push(file);
                None
            },
            Err(reason) => Some(
                record_unencodable(
                    &mut self.job,
                    file.entry.relative_path.as_str(),
                    reason.as_str(),
                ),
            ),
        }
    }

    /// Goes on once every file has been tried.
    pub fn probed(self) -> (stage: Batching)
        requires
            self.spec_rest().len() == 0,
        ensures
            stage.wf(),
            stage@ == self@,
            stage.spec_manifest_id() == self.spec_manifest_id(),
            stage.spec_rest() == self.spec_encodable(),
            stage.spec_files() == Seq::<HashedFile>::empty(),
            stage.spec_current() == Seq::<HashedFile>::empty(),
            stage.spec_requests() == Seq::<Seq<HashedFile>>::empty(),
            stage.spec_accepted() == Set::<Seq<HashedFile>>::empty(),
            stage.spec_refused() == Set::<Seq<HashedFile>>::empty(),
            stage.spec_all() == self.spec_encodable(),
    {
        let ghost all = self.encodable@;
        let rest = reversed(self.encodable);
        assert(rest@.reverse() =~= all);
        let batches = HashBatches::new();
        assert(batches.files() + rest@.reverse() =~= all);
        Batching {
            job: self.job,
            manifest_id: self.manifest_id,
            rest,
            batches,
            all: Ghost(all),
        }
    }
}

/// The files are being sorted into requests that fit a frame.
pub struct Batching {
    job: OutgoingJob,
    manifest_id: Uuid,
    /// The files still to be sorted, the last one first.
    rest: Vec<HashedFile>,
    batches: HashBatches,
    /// The files to be sorted.
    all: Ghost<Seq<HashedFile>>,
}

impl View for Batching {
    type V = OutgoingView;

    closed spec fn view(&self) -> OutgoingView {
        self.job@
    }
}

impl Batching {
    pub closed spec fn spec_manifest_id(self) -> Uuid {
        self.manifest_id
    }

    /// The files still to be sorted, in order.
    pub closed spec fn spec_rest(self) -> Seq<HashedFile> {
        self.rest@.reverse()
    }

    /// The files in the requests so far.
    pub closed spec fn spec_files(self) -> Seq<HashedFile> {
        self.batches.files()
    }

    /// The files of the request that is being filled.
    pub closed spec fn spec_current(self) -> Seq<HashedFile> {
        self.batches.spec_current()
    }

    /// The files of each request so far.
    pub closed spec fn spec_requests(self) -> Seq<Seq<HashedFile>> {
        self.batches.requests()
    }

    /// All files that are to be sorted, in order.
    pub closed spec fn spec_all(self) -> Seq<HashedFile> {
        self.all@
    }

    /// The candidates that were found to fit a request.
    pub closed spec fn spec_accepted(self) -> Set<Seq<HashedFile>> {
        self.batches.spec_accepted()
    }

    /// The candidates that were found too large for a request.
    pub closed spec fn spec_refused(self) -> Set<Seq<HashedFile>> {
        self.batches.spec_refused()
    }

    pub closed spec fn wf(self) -> bool {
        &&& self.batches.wf()
        &&& self.batches.files() + self.rest@.reverse() == self.all@
    }

    /// Once every file is sorted, the requests one after the other are the files in
    /// order, and each request has at least one and at most as many as it may have.
    /// Each was found to fit, or is a single file, which was found to fit before. None
    /// is cut early: one that another follows is full, or was found too large with the
    /// file after it.
    pub proof fn law_requests_are_packed(self)
        requires
            self.wf(),
            self.spec_rest().len() == 0,
        ensures
            self.spec_files() == self.spec_all(),
            is_packing(
                self.spec_requests(),
                self.spec_all(),
                self.spec_accepted(),
                self.spec_refused(),
            ),
    {
        assert(self.batches.files() + self.rest@.reverse() =~= self.batches.files());
    }

    pub fn fail(self, error: TransferError) -> (failed: FailedTransfer)
        ensures
            failed.job@ == self@,
            failed.error == error,
    {
        FailedTransfer { job: self.job, error }
    }

    /// The request being filled, with the next file in it, to see whether it
    /// fits. A full request is closed before.
    pub fn next_candidate(&mut self) -> (candidate: Option<HashedFileBatch>)
        requires
            old(self).wf(),
        ensures
            final(self).wf(),
            final(self)@ == old(self)@,
            final(self).spec_manifest_id() == old(self).spec_manifest_id(),
            final(self).spec_rest() == old(self).spec_rest(),
            final(self).spec_files() == old(self).spec_files(),
            final(self).spec_requests() == old(self).spec_requests(),
            final(self).spec_accepted() == old(self).spec_accepted(),
            final(self).spec_refused() == old(self).spec_refused(),
            final(self).spec_all() == old(self).spec_all(),
            candidate is None <==> old(self).spec_rest().len() == 0,
            candidate matches Some(batch) ==> {
                &&& final(self).spec_current() == if old(self).spec_current().len()
                    == HASH_BATCH_SIZE {
                    Seq::<HashedFile>::empty()
                } else {
                    old(self).spec_current()
                }
                &&& final(self).spec_current().len() < HASH_BATCH_SIZE
                &&& batch.job_id == old(self)@.id
                &&& batch.manifest_id == old(self).spec_manifest_id()
                &&& batch.sequence == 0
                &&& !batch.is_last
                &&& batch.files@.len() == final(self).spec_current().len() + 1
                &&& forall|i: int|
                    0 <= i < final(self).spec_current().len() ==> (#[trigger] batch.files@[i])@
                        == final(self).spec_current()[i]@
                &&& batch.files@.last()@ == old(self).spec_rest()[0]@
            },
    {
        if self.rest.len() == 0 {
            return None;
        }
        self.batches.make_room();
        let file = &self.rest[self.rest.len() - 1];
        assert(*file == self.rest@.reverse()[0]);
        let files = self.batches.candidate(file);
        Some(
            HashedFileBatch {
                job_id: self.job.job().id,
                manifest_id: self.manifest_id,
                sequence: 0,
                is_last: false,
                files,
            },
        )
    }

    /// Takes whether the candidate fits: if it does not, the next file opens
    /// another request.
    pub fn accept(&mut self, encoded: Result<(), ProtocolError>) -> (result: Result<
        (),
        TransferError,
    >)
        requires
            old(self).wf(),
            old(self).spec_rest().len() > 0,
            old(self).spec_current().len() < HASH_BATCH_SIZE,
        ensures
            final(self)@ == old(self)@,
            final(self).spec_manifest_id() == old(self).spec_manifest_id(),
            match result {
                Ok(_) => {
                    &&& final(self).wf()
                    &&& final(self).spec_all() == old(self).spec_all()
                    &&& final(self).spec_accepted() == if encoded is Ok {
                        old(self).spec_accepted().insert(
                            old(self).spec_current().push(old(self).spec_rest()[0]),
                        )
                    } else {
                        old(self).spec_accepted()
                    }
                    &&& final(self).spec_refused() == if encoded is Ok {
                        old(self).spec_refused()
                    } else {
                        old(self).spec_refused().insert(
                            old(self).spec_current().push(old(self).spec_rest()[0]),
                        )
                    }
                    &&& final(self).spec_rest() == old(self).spec_rest().skip(1)
                    &&& final(self).spec_files() == old(self).spec_files().push(
                        old(self).spec_rest()[0],
                    )
                    &&& final(self).spec_current() == if encoded is Ok {
                        old(self).spec_current().push(old(self).spec_rest()[0])
                    } else {
                        seq![old(self).spec_rest()[0]]
                    }
                    &&& final(self).spec_requests() == if encoded is Ok && old(self).spec_current().len()
                        > 0 {
                        old(self).spec_requests().drop_last().push(final(self).spec_current())
                    } else {
                        old(self).spec_requests().push(final(self).spec_current())
                    }
                },
                Err(error) => encoded matches Err(cause) && error == TransferError::Protocol(
                    cause,
                ),
            },
            result is Ok <==> encoded is Ok || (encoded->Err_0 is FrameTooLarge && old(self).spec_current().len()
                > 0),
    {
        let ghost before = self.rest@;
        let file = match self.rest.pop() {
            Some(file) => file,
            None => return Ok(()),
        };
        assert(self.rest@.reverse() =~= before.reverse().skip(1));
        assert(file == before.reverse()[0]);
        let ghost sorted = self.batches.files();
        assert(sorted.push(file) + self.rest@.reverse() =~= sorted + before.reverse());
        self.batches.add(file, encoded)
    }

    /// Goes on once every file is in a request.
    pub fn batched(self) -> (stage: Negotiating)
        requires
            self.wf(),
            self.spec_rest().len() == 0,
        ensures
            stage.wf(),
            stage@ == self@,
            stage.spec_manifest_id() == self.spec_manifest_id(),
            stage.spec_pending() == self.spec_all(),
            stage.spec_requests() == self.spec_requests(),
            is_packing(
                stage.spec_requests(),
                self.spec_all(),
                self.spec_accepted(),
                self.spec_refused(),
            ),
            stage.spec_count() == self.spec_requests().len(),
            stage.spec_negotiated() == Seq::<NegotiatedFile>::empty(),
    {
        proof {
            self.law_requests_are_packed();
        }
        let batches = self.batches.finish();
        let batch_count: usize = batches.len();
        let ghost all = batches@;
        let rest = reversed(batches);
        assert(rest@.reverse() =~= all);
        Negotiating {
            job: self.job,
            manifest_id: self.manifest_id,
            batch_count,
            rest,
            negotiated: NegotiatedFiles::new(),
        }
    }
}

/// The requests are being negotiated, one after the other.
pub struct Negotiating {
    job: OutgoingJob,
    manifest_id: Uuid,
    batch_count: usize,
    /// The requests still to be negotiated, the last one first.
    rest: Vec<Vec<HashedFile>>,
    negotiated: NegotiatedFiles,
}

impl View for Negotiating {
    type V = OutgoingView;

    closed spec fn view(&self) -> OutgoingView {
        self.job@
    }
}

impl Negotiating {
    pub closed spec fn spec_manifest_id(self) -> Uuid {
        self.manifest_id
    }

    /// The files still to be negotiated, in order.
    pub closed spec fn spec_pending(self) -> Seq<HashedFile> {
        files_in(self.rest@.reverse())
    }

    /// The files of each request still to be negotiated.
    pub closed spec fn spec_requests(self) -> Seq<Seq<HashedFile>> {
        requests_in(self.rest@.reverse())
    }

    /// The files with their plans.
    pub closed spec fn spec_negotiated(self) -> Seq<NegotiatedFile> {
        self.negotiated@
    }

    pub closed spec fn wf(self) -> bool {
        &&& self.negotiated.wf()
        &&& self.rest@.len() <= self.batch_count
        &&& are_batches(self.rest@)
    }
}

proof fn lemma_files_of_first(batches: Seq<Vec<HashedFile>>)
    requires
        batches.len() > 0,
    ensures
        files_in(batches) == batches[0]@ + files_in(batches.skip(1)),
    decreases batches.len(),
{
    if batches.len() == 1 {
        assert(batches.drop_last() =~= Seq::<Vec<HashedFile>>::empty());
        assert(batches.skip(1) =~= Seq::<Vec<HashedFile>>::empty());
        assert(files_in(batches) =~= batches[0]@ + files_in(batches.skip(1)));
    } else {
        lemma_files_of_first(batches.drop_last());
        assert(batches.skip(1).drop_last() =~= batches.drop_last().skip(1));
        assert(batches.skip(1).last() == batches.last());
        assert(files_in(batches) =~= batches[0]@ + files_in(batches.skip(1)));
    }
}

impl Negotiating {
    /// The files of the next request.
    pub open spec fn spec_current(self) -> Seq<HashedFile> {
        if self.spec_requests().len() > 0 {
            self.spec_requests()[0]
        } else {
            Seq::<HashedFile>::empty()
        }
    }

    /// How many requests there are in all.
    pub closed spec fn spec_count(self) -> int {
        self.batch_count as int
    }

    /// How many of them are done with.
    pub open spec fn spec_sequence(self) -> int {
        self.spec_count() - self.spec_requests().len()
    }

    /// The job as it stands, to be stored.
    pub fn job(&self) -> (job: &OutgoingJob)
        ensures
            job@ == self@,
    {
        &self.job
    }

    pub fn fail(self, error: TransferError) -> (failed: FailedTransfer)
        ensures
            failed.job@ == self@,
            failed.error == error,
    {
        FailedTransfer { job: self.job, error }
    }

    /// The request is the next one.
    pub open spec fn is_next(self, request: HashedFileBatch) -> bool {
        &&& self.spec_current().len() > 0
        &&& request.job_id == self@.id
        &&& request.manifest_id == self.spec_manifest_id()
        &&& request.sequence == self.spec_sequence()
        &&& request.is_last == (self.spec_sequence() + 1 == self.spec_count())
        &&& request.files@.len() == self.spec_current().len()
        &&& forall|i: int|
            0 <= i < request.files@.len() ==> (#[trigger] request.files@[i])@
                == self.spec_current()[i]@
    }

    /// The next request, if there is one.
    pub fn next_request(&self) -> (request: Option<Result<HashedFileBatch, TransferError>>)
        requires
            self.wf(),
        ensures
            request is None <==> self.spec_pending().len() == 0,
            request matches Some(Ok(next)) ==> self.is_next(next) && self.spec_sequence()
                <= u32::MAX,
            request matches Some(Err(error)) ==> self.spec_sequence() > u32::MAX && error
                == TransferError::InvalidData(DataFault::TooManyHashBatches),
    {
        if self.rest.len() == 0 {
            assert(self.rest@.reverse() =~= Seq::<Vec<HashedFile>>::empty());
            return None;
        }
        let index: usize = self.rest.len() - 1;
        proof {
            lemma_files_of_first(self.rest@.reverse());
            assert(self.rest@.reverse()[0] == self.rest@[index as int]);
        }
        let sequence: usize = self.batch_count - self.rest.len();
        let request = negotiate_batch(
            self.job.job().id,
            self.manifest_id,
            sequence,
            self.batch_count,
            &self.rest[index],
        );
        Some(request)
    }

    /// Takes the answer to the next request: a plan for each of its files. A
    /// final failure that names one of them ends only that file, and the request
    /// is made again without it; `message` is how the failure reads.
    pub fn accept(
        &mut self,
        request: &HashedFileBatch,
        response: Result<Response, TransferError>,
        message: String,
    ) -> (result: Result<Option<FileUpdate>, TransferError>)
        requires
            old(self).wf(),
            old(self).is_next(*request),
            old(self)@.progress.failed_files < u64::MAX,
        ensures
            final(self).spec_manifest_id() == old(self).spec_manifest_id(),
            final(self).spec_count() == old(self).spec_count(),
            match (response, result) {
                (Ok(answer), Ok(update)) => {
                    let count = old(self).spec_current().len();
                    let known = old(self).spec_negotiated().len() as int;
                    &&& update is None
                    &&& final(self).wf()
                    &&& final(self)@ == old(self)@
                    &&& plans_files(
                        answer,
                        *request,
                        old(self).spec_current(),
                        old(self).spec_negotiated(),
                    )
                    &&& final(self).spec_pending() == old(self).spec_pending().skip(count as int)
                    &&& final(self).spec_requests() == old(self).spec_requests().skip(1)
                    &&& final(self).spec_negotiated().len() == known + count
                    &&& final(self).spec_negotiated().take(known) == old(self).spec_negotiated()
                    &&& forall|i: int|
                        #![trigger answer->Negotiate_0.plans@[i]]
                        0 <= i < count ==> takes_plan(
                            old(self).spec_current(),
                            answer->Negotiate_0.plans@[i],
                            final(self).spec_negotiated()[known + i],
                        )
                },
                (Err(error), Ok(update)) => {
                    let path = error.spec_remote_path();
                    let position = position_of(old(self).spec_current(), path->0);
                    &&& !error.spec_retryable()
                    &&& path is Some
                    &&& 0 <= position < old(self).spec_current().len()
                    &&& final(self).wf()
                    &&& final(self)@ == with_failure(
                        old(self)@,
                        path->0,
                        FileOperation::Write,
                        message@,
                    )
                    &&& update is Some
                    &&& is_failed_update(update->0, path->0, message@)
                    &&& final(self).spec_pending() == old(self).spec_pending().remove(position)
                    &&& final(self).spec_requests() == if old(self).spec_current().len() == 1 {
                        old(self).spec_requests().skip(1)
                    } else {
                        old(self).spec_requests().update(
                            0,
                            old(self).spec_current().remove(position),
                        )
                    }
                    &&& final(self).spec_negotiated() == old(self).spec_negotiated()
                },
                (Ok(answer), Err(error)) => {
                    &&& final(self)@ == old(self)@
                    &&& reports_plans(
                        error,
                        answer,
                        *request,
                        old(self).spec_current(),
                        old(self).spec_negotiated(),
                    )
                },
                (Err(error), Err(passed)) => {
                    &&& passed == error
                    &&& final(self)@ == old(self)@
                    &&& error.spec_retryable() || error.spec_remote_path() is None || !(0
                        <= position_of(
                        old(self).spec_current(),
                        error.spec_remote_path()->0,
                    ) < old(self).spec_current().len())
                },
            },
    {
        let ghost whole = self.rest@;
        let mut current = match self.rest.pop() {
            Some(batch) => batch,
            None => return Ok(None),
        };
        let ghost files = current@;
        proof {
            lemma_files_of_first(whole.reverse());
            assert(whole.reverse()[0] == whole.last());
            assert(whole.reverse().skip(1) =~= self.rest@.reverse());
        }
        let error = match response {
            Ok(answer) => match self.negotiated.accept_plans(&current, request, answer) {
                Ok(_) => {
                    assert(files_in(self.rest@.reverse()) =~= files_in(whole.reverse()).skip(
                        files.len() as int,
                    ));
                    return Ok(None);
                },
                Err(error) => return Err(error),
            },
            Err(error) => error,
        };
        let path = match drop_rejected(&mut current, &error) {
            Some(path) => path,
            None => return Err(error),
        };
        let text = message.clone();
        self.job.record_file_failure(path.as_str(), FileOperation::Write, message);
        let ghost position = position_of(files, path@);
        if current.len() > 0 {
            let ghost left = current@;
            let ghost others = self.rest@;
            self.rest.push(current);
            proof {
                lemma_files_of_first(self.rest@.reverse());
                assert(self.rest@.reverse()[0]@ == left);
                assert(self.rest@.reverse().skip(1) =~= others.reverse());
                assert(files_in(self.rest@.reverse()) =~= files_in(whole.reverse()).remove(
                    position,
                ));
            }
        } else {
            assert(files_in(self.rest@.reverse()) =~= files_in(whole.reverse()).remove(position));
        }
        Ok(Some(FileUpdate { path, status: JobFileStatus::Failed, error: Some(text) }))
    }

    /// Queues the chunks that the receiver misses and begins to send them.
    pub fn negotiated(self) -> (result: Result<Uploading, FailedTransfer>)
        requires
            self.wf(),
            self.spec_pending().len() == 0,
        ensures
            match result {
                Ok(stage) => {
                    &&& stage.wf()
                    &&& chunks_to_send(self.spec_negotiated()) <= u64::MAX
                    &&& stage@ == sending_chunks(queued(self@, self.spec_negotiated()))
                    &&& stage.spec_manifest_id() == self.spec_manifest_id()
                    &&& stage.spec_negotiated() == self.spec_negotiated()
                    &&& stage.spec_acknowledged() == Set::<(int, u64)>::empty()
                },
                Err(failed) => {
                    &&& chunks_to_send(self.spec_negotiated()) > u64::MAX
                    &&& failed.error == TransferError::InvalidData(DataFault::QueueOverflow)
                    &&& failed.job@ == self@
                },
            },
    {
        let mut job = self.job;
        match queue_chunks(&mut job, &self.negotiated) {
            Ok(_) => {},
            Err(error) => return Err(FailedTransfer { job, error }),
        }
        let phase = UploadPhase::begin(&mut job);
        Ok(
            Uploading {
                job,
                manifest_id: self.manifest_id,
                negotiated: self.negotiated,
                phase,
                acknowledged: Ghost(Set::empty()),
            },
        )
    }
}

/// The job with the chunks of some files queued.
pub open spec fn queued(before: OutgoingView, items: Seq<NegotiatedFile>) -> OutgoingView {
    OutgoingView {
        progress: crate::model::TransferProgress {
            reused_bytes: saturated(
                before.progress.reused_bytes as nat + spared_bytes(items),
            ),
            queued_chunks: chunks_to_send(items) as u64,
            ..before.progress
        },
        ..before
    }
}

/// The missing chunks are being sent.
pub struct Uploading {
    job: OutgoingJob,
    manifest_id: Uuid,
    negotiated: NegotiatedFiles,
    phase: UploadPhase,
    acknowledged: Ghost<Set<(int, u64)>>,
}

impl View for Uploading {
    type V = OutgoingView;

    closed spec fn view(&self) -> OutgoingView {
        self.job@
    }
}

impl Uploading {
    pub closed spec fn spec_manifest_id(self) -> Uuid {
        self.manifest_id
    }

    pub closed spec fn spec_negotiated(self) -> Seq<NegotiatedFile> {
        self.negotiated@
    }

    pub closed spec fn wf(self) -> bool {
        self.negotiated.wf()
    }
}

impl Uploading {
    /// The chunks that the receiver acknowledged, each with the place of its file.
    pub closed spec fn spec_acknowledged(self) -> Set<(int, u64)> {
        self.acknowledged@
    }

    /// Every chunk that the receiver misses was acknowledged, but for those of
    /// files that failed.
    pub open spec fn is_sent(self) -> bool {
        forall|file: int, i: int|
            #![trigger self.spec_negotiated()[file].plan.missing_chunks@[i]]
            0 <= file < self.spec_negotiated().len() && 0 <= i
                < self.spec_negotiated()[file].plan.missing_chunks@.len() ==> {
                ||| self@.failed.contains(
                    self.spec_negotiated()[file].file.entry.relative_path@,
                )
                ||| self.spec_acknowledged().contains(
                    (file, self.spec_negotiated()[file].plan.missing_chunks@[i]),
                )
            }
    }

    /// Once each piece of the work was acknowledged, or its file failed, every
    /// chunk that the receiver misses is sent.
    pub proof fn law_acknowledged_work_is_all(self, work: Seq<UploadWork>)
        requires
            work_views(work) == work_for(
                self.spec_negotiated(),
                self.spec_negotiated().len() as int,
            ),
            forall|i: int|
                #![trigger work[i]]
                0 <= i < work.len() ==> self.spec_acknowledged().contains(
                    (work[i].file as int, work[i].chunk.index),
                ) || self@.failed.contains(
                    self.spec_negotiated()[work[i].file as int].file.entry.relative_path@,
                ),
        ensures
            self.is_sent(),
    {
        let items = self.spec_negotiated();
        assert forall|file: int, i: int|
            #![trigger items[file].plan.missing_chunks@[i]]
            0 <= file < items.len() && 0 <= i < items[file].plan.missing_chunks@.len() implies {
            ||| self@.failed.contains(items[file].file.entry.relative_path@)
            ||| self.spec_acknowledged().contains((file, items[file].plan.missing_chunks@[i]))
        } by {
            let index = items[file].plan.missing_chunks@[i];
            law_work_is_what_is_missing(items, items.len() as int, file, index);
            let views = work_views(work);
            let k = choose|k: int| 0 <= k < views.len() && views[k] == (file, index);
            assert(views[k] == (work[k].file as int, work[k].chunk.index));
        }
    }

    /// How far the sending has come.
    pub closed spec fn spec_phase(self) -> UploadPhaseView {
        self.phase@
    }

    /// The job as it stands, to be stored.
    pub fn job(&self) -> (job: &OutgoingJob)
        ensures
            job@ == self@,
    {
        &self.job
    }

    pub fn fail(self, error: TransferError) -> (failed: FailedTransfer)
        ensures
            failed.job@ == self@,
            failed.error == error,
    {
        FailedTransfer { job: self.job, error }
    }

    pub fn items(&self) -> (items: &Vec<NegotiatedFile>)
        ensures
            items@ == self.spec_negotiated(),
    {
        self.negotiated.items()
    }

    /// The chunks to send, file by file.
    pub fn work(&self) -> (work: Vec<UploadWork>)
        requires
            self.wf(),
        ensures
            work_views(work@) == work_for(
                self.spec_negotiated(),
                self.spec_negotiated().len() as int,
            ),
            forall|i: int| 0 <= i < work@.len() ==> is_work(self.spec_negotiated(), #[trigger] work@[i]),
    {
        upload_work(&self.negotiated)
    }

    /// Whether no more of a file is to be sent.
    pub fn is_terminal(&self, path: &str) -> (yes: bool)
        ensures
            yes == self.spec_phase().terminal.contains(path@),
    {
        self.phase.is_terminal(path)
    }

    pub fn phase_bytes(&self) -> (bytes: u64)
        ensures
            bytes == self.spec_phase().phase_bytes,
    {
        self.phase.phase_bytes()
    }

    /// Sets the rate at which chunks are read, sent and written.
    pub fn set_transfer_rate(&mut self, bytes_per_second: u64)
        ensures
            final(self)@ == (OutgoingView {
                progress: crate::model::TransferProgress {
                    network_bytes_per_second: bytes_per_second,
                    read_bytes_per_second: bytes_per_second,
                    write_bytes_per_second: bytes_per_second,
                    ..old(self)@.progress
                },
                ..old(self)@
            }),
            final(self).spec_phase() == old(self).spec_phase(),
            final(self).spec_acknowledged() == old(self).spec_acknowledged(),
            final(self).spec_manifest_id() == old(self).spec_manifest_id(),
            final(self).spec_negotiated() == old(self).spec_negotiated(),
            old(self).wf() ==> final(self).wf(),
    {
        self.job.set_transfer_rate(bytes_per_second);
    }

    /// Takes the outcome of one chunk: sent, left out, or failed. A failure that
    /// reconnecting may cure ends the attempt, any other only the file; `message`
    /// is how the failure reads.
    pub fn accept(
        &mut self,
        work: &UploadWork,
        outcome: Result<Option<SentChunk>, TransferError>,
        message: String,
    ) -> (result: Result<Option<UploadRecord>, TransferError>)
        requires
            old(self).wf(),
            is_work(old(self).spec_negotiated(), *work),
            outcome matches Ok(Some(sent)) ==> sent.is_of(
                old(self)@.id,
                old(self).spec_manifest_id(),
                old(self).spec_negotiated()[work.file as int].file.entry.relative_path@,
                work.chunk,
            ),
            old(self)@.progress.failed_files < u64::MAX,
        ensures
            final(self).wf(),
            final(self).spec_manifest_id() == old(self).spec_manifest_id(),
            final(self).spec_negotiated() == old(self).spec_negotiated(),
            final(self).spec_acknowledged() == if outcome matches Ok(Some(_)) {
                old(self).spec_acknowledged().insert((work.file as int, work.chunk.index))
            } else {
                old(self).spec_acknowledged()
            },
            chunk_outcome(
                old(self)@,
                old(self).spec_phase(),
                old(self).spec_negotiated()[work.file as int].file,
                work.chunk.size,
                outcome,
                message@,
                result,
                final(self)@,
                final(self).spec_phase(),
            ),
    {
        let item = &self.negotiated.items()[work.file];
        let path = item.file.entry.relative_path.clone();
        let file_size: u64 = item.file.entry.size;
        let sent = match outcome {
            Ok(Some(_)) => {
                self.acknowledged = Ghost(
                    self.acknowledged@.insert((work.file as int, work.chunk.index)),
                );
                Ok(true)
            },
            Ok(None) => Ok(false),
            Err(error) => Err(error),
        };
        self.phase.accept(&mut self.job, &path, file_size, work.chunk.size, sent, message)
    }

    /// Begins to finalize the files once every chunk is sent that is missing from
    /// a file that has not failed.
    pub fn uploaded(self) -> (stage: Finalizing)
        requires
            self.wf(),
            self.is_sent(),
        ensures
            stage.wf(),
            stage@ == (OutgoingView {
                status: JobStatus::Verifying,
                progress: crate::model::TransferProgress {
                    active_chunk_streams: 0,
                    active_file_streams: 0,
                    ..self@.progress
                },
                ..self@
            }),
            stage.spec_manifest_id() == self.spec_manifest_id(),
            stage.spec_negotiated() == self.spec_negotiated(),
            stage.spec_index() == 0,
    {
        let mut job = self.job;
        self.phase.finish(&mut job);
        job.set_status(JobStatus::Verifying);
        Finalizing { job, manifest_id: self.manifest_id, negotiated: self.negotiated, index: 0 }
    }
}

/// What one chunk changes.
pub open spec fn chunk_outcome(
    job: OutgoingView,
    before: UploadPhaseView,
    file: HashedFile,
    chunk_size: u64,
    outcome: Result<Option<SentChunk>, TransferError>,
    message: Seq<char>,
    result: Result<Option<UploadRecord>, TransferError>,
    job_after: OutgoingView,
    after: UploadPhaseView,
) -> bool {
    let path = file.entry.relative_path;
    let start = dequeued(job);
    let done = |changed: OutgoingView|
        with_current(
            sending_chunks(changed),
            FileProgress {
                relative_path: path,
                size: file.entry.size,
                transferred: sent_of(after, path@),
            },
        );
    match (outcome, result) {
        (Ok(Some(_)), Ok(Some(UploadRecord::Transferred(total)))) => {
            &&& total == saturated(sent_of(before, path@) as nat + chunk_size as nat)
            &&& after == (UploadPhaseView {
                phase_bytes: saturated(before.phase_bytes as nat + chunk_size as nat),
                transferred: before.transferred.insert(path@, total),
                ..before
            })
            &&& job_after == done(with_transferred(start, chunk_size))
        },
        (Ok(None), Ok(None)) => after == before && job_after == done(start),
        (Err(error), Err(passed)) => {
            &&& error is Cancelled || error.spec_retryable()
            &&& passed == error
            &&& after == before
            &&& job_after == start
        },
        (Err(error), Ok(Some(UploadRecord::Failed(update)))) => {
            &&& !(error is Cancelled) && !error.spec_retryable()
            &&& after == (UploadPhaseView { terminal: before.terminal.insert(path@), ..before })
            &&& job_after == done(with_failure(start, path@, FileOperation::Read, message))
            &&& is_failed_update(update, path@, message)
        },
        _ => false,
    }
}

/// The files are being finalized, one after the other.
pub struct Finalizing {
    job: OutgoingJob,
    manifest_id: Uuid,
    negotiated: NegotiatedFiles,
    index: usize,
}

impl View for Finalizing {
    type V = OutgoingView;

    closed spec fn view(&self) -> OutgoingView {
        self.job@
    }
}

impl Finalizing {
    pub closed spec fn spec_manifest_id(self) -> Uuid {
        self.manifest_id
    }

    pub closed spec fn spec_negotiated(self) -> Seq<NegotiatedFile> {
        self.negotiated@
    }

    /// The file that is looked at.
    pub closed spec fn spec_index(self) -> int {
        self.index as int
    }

    pub closed spec fn wf(self) -> bool {
        &&& self.negotiated.wf()
        &&& self.index <= self.negotiated@.len()
    }

    /// The job as it stands, to be stored.
    pub fn job(&self) -> (job: &OutgoingJob)
        ensures
            job@ == self@,
    {
        &self.job
    }

    pub fn fail(self, error: TransferError) -> (failed: FailedTransfer)
        ensures
            failed.job@ == self@,
            failed.error == error,
    {
        FailedTransfer { job: self.job, error }
    }

    /// Goes to the next file that has not failed; says whether there is one.
    pub fn next_file(&mut self) -> (found: bool)
        requires
            old(self).wf(),
        ensures
            final(self).wf(),
            final(self)@ == old(self)@,
            final(self).spec_manifest_id() == old(self).spec_manifest_id(),
            final(self).spec_negotiated() == old(self).spec_negotiated(),
            old(self).spec_index() <= final(self).spec_index(),
            forall|i: int|
                old(self).spec_index() <= i < final(self).spec_index()
                    ==> old(self)@.failed.contains(
                    (#[trigger] old(self).spec_negotiated()[i]).file.entry.relative_path@,
                ),
            found == (final(self).spec_index() < old(self).spec_negotiated().len()),
            final(self).spec_index() <= old(self).spec_negotiated().len(),
            found ==> final(self).is_open(),
    {
        let count: usize = self.negotiated.items().len();
        while self.index < count
            invariant
                count == self.negotiated@.len(),
                self.negotiated@ == old(self).negotiated@,
                self.negotiated.wf(),
                self.manifest_id == old(self).manifest_id,
                self.job@ == old(self).job@,
                old(self).index <= self.index <= count,
                forall|i: int|
                    old(self).index <= i < self.index ==> old(self).job@.failed.contains(
                        (#[trigger] self.negotiated@[i]).file.entry.relative_path@,
                    ),
            ensures
                count == self.negotiated@.len(),
                self.negotiated@ == old(self).negotiated@,
                self.negotiated.wf(),
                self.manifest_id == old(self).manifest_id,
                self.job@ == old(self).job@,
                old(self).index <= self.index <= count,
                forall|i: int|
                    old(self).index <= i < self.index ==> old(self).job@.failed.contains(
                        (#[trigger] self.negotiated@[i]).file.entry.relative_path@,
                    ),
                self.index < count ==> !old(self).job@.failed.contains(
                    self.negotiated@[self.index as int].file.entry.relative_path@,
                ),
            decreases count - self.index,
        {
            let path = &self.negotiated.items()[self.index].file.entry.relative_path;
            if !self.job.has_failed(path.as_str()) {
                break;
            }
            self.index = self.index + 1;
        }
        self.index < count
    }

    /// There is a file to finalize, which has not failed.
    pub open spec fn is_open(self) -> bool {
        &&& 0 <= self.spec_index() < self.spec_negotiated().len()
        &&& !self@.failed.contains(
            self.spec_negotiated()[self.spec_index()].file.entry.relative_path@,
        )
    }

    /// The file to finalize.
    pub fn current(&self) -> (file: &HashedFile)
        requires
            self.wf(),
            self.is_open(),
        ensures
            *file == self.spec_negotiated()[self.spec_index()].file,
    {
        &self.negotiated.items()[self.index].file
    }

    /// Records that the source of the file is not what it was, and leaves it;
    /// `message` says how.
    pub fn reject(&mut self, message: String) -> (update: FileUpdate)
        requires
            old(self).wf(),
            old(self).is_open(),
            old(self)@.progress.failed_files < u64::MAX,
        ensures
            final(self).wf(),
            final(self).spec_manifest_id() == old(self).spec_manifest_id(),
            final(self).spec_negotiated() == old(self).spec_negotiated(),
            final(self).spec_index() == old(self).spec_index() + 1,
            ({
                let path = old(self).spec_negotiated()[old(
                    self,
                ).spec_index()].file.entry.relative_path@;
                &&& final(self)@ == with_failure(
                    old(self)@,
                    path,
                    FileOperation::Verify,
                    message@,
                )
                &&& is_failed_update(update, path, message@)
            }),
    {
        let items = self.negotiated.items();
        assert(self.index < items.len());
        let path = items[self.index].file.entry.relative_path.clone();
        self.index = self.index + 1;
        reject_source(&mut self.job, path.as_str(), message)
    }

    /// Takes the answer to the finalization of the file, and leaves it. Before it
    /// was asked for, the source was found as it was. A failure that reconnecting
    /// may cure ends the attempt.
    pub fn accept(
        &mut self,
        source: CheckedSource,
        response: Result<Response, TransferError>,
        message: String,
    ) -> (result: Result<FileUpdate, TransferError>)
        requires
            old(self).wf(),
            old(self).is_open(),
            source.is_of(
                old(self).spec_negotiated()[old(self).spec_index()].file,
                old(self)@.config.verification_mode,
            ),
            old(self)@.progress.failed_files < u64::MAX,
            old(self)@.progress.completed_files < u64::MAX,
            old(self)@.progress.skipped_files < u64::MAX,
            old(self)@.progress.transferred_files < u64::MAX,
        ensures
            final(self).wf(),
            final(self).spec_manifest_id() == old(self).spec_manifest_id(),
            final(self).spec_negotiated() == old(self).spec_negotiated(),
            final(self).spec_index() == old(self).spec_index() + 1,
            ({
                let item = old(self).spec_negotiated()[old(self).spec_index()];
                let path = item.file.entry.relative_path@;
                let sent = item.plan.missing_chunks@.len() > 0;
                let acknowledged = acknowledges_file(
                    response,
                    old(self)@.id,
                    old(self).spec_manifest_id(),
                    path,
                );
                match result {
                    Ok(update) => if acknowledged {
                        &&& final(self)@ == with_completed(old(self)@, sent)
                        &&& update.path@ == path
                        &&& update.status == if sent {
                            JobFileStatus::Completed
                        } else {
                            JobFileStatus::Skipped
                        }
                        &&& update.error is None
                    } else {
                        &&& response matches Err(error) ==> !error.spec_retryable()
                        &&& final(self)@ == with_failure(
                            old(self)@,
                            path,
                            FileOperation::Finalize,
                            message@,
                        )
                        &&& is_failed_update(update, path, message@)
                    },
                    Err(error) => {
                        &&& response == Err::<Response, TransferError>(error)
                        &&& error.spec_retryable()
                        &&& final(self)@ == old(self)@
                    },
                }
            }),
    {
        let index: usize = self.index;
        let count: usize = self.negotiated.items().len();
        assert(index < count);
        self.index = index + 1;
        accept_finalize(
            &mut self.job,
            &self.negotiated.items()[index],
            self.manifest_id,
            response,
            message,
        )
    }

    /// Asks for the completion of the job once every file has been looked at.
    pub fn finalized(self) -> (stage: Completing)
        requires
            self.wf(),
            self.spec_index() == self.spec_negotiated().len(),
        ensures
            stage@ == self@,
            stage.spec_manifest_id() == self.spec_manifest_id(),
    {
        Completing { job: self.job, manifest_id: self.manifest_id }
    }
}

/// The receiver is completing the job.
pub struct Completing {
    job: OutgoingJob,
    manifest_id: Uuid,
}

impl View for Completing {
    type V = OutgoingView;

    closed spec fn view(&self) -> OutgoingView {
        self.job@
    }
}

impl Completing {
    pub closed spec fn spec_manifest_id(self) -> Uuid {
        self.manifest_id
    }

    pub fn job(&self) -> (job: &OutgoingJob)
        ensures
            job@ == self@,
    {
        &self.job
    }

    pub fn fail(self, error: TransferError) -> (failed: FailedTransfer)
        ensures
            failed.job@ == self@,
            failed.error == error,
    {
        FailedTransfer { job: self.job, error }
    }

    /// Takes the answer of the receiver and ends the job; `description` is how
    /// the answer reads.
    pub fn completed(self, response: &Response, description: String) -> (result: Result<
        TransferJob,
        FailedTransfer,
    >)
        ensures
            ({
                let acknowledged = acknowledges_job(*response, self@.id, self.spec_manifest_id());
                match result {
                    Ok(job) => {
                        &&& acknowledged
                        &&& response matches Response::Acknowledged(Acknowledgement::Job(answer))
                            && is_ended_job(
                            job,
                            ended(with_receiver_failures(self@, receiver_failures(*answer))),
                        )
                    },
                    Err(failed) => {
                        &&& !acknowledged
                        &&& failed.job@ == self@
                        &&& failed.error == TransferError::InvalidData(
                            DataFault::UnexpectedResponse { description },
                        )
                    },
                }
            }),
    {
        let mut job = self.job;
        match accept_completion(&mut job, self.manifest_id, response, description) {
            Ok(_) => Ok(job.into_job()),
            Err(error) => Err(FailedTransfer { job, error }),
        }
    }
}

/// The job says what is known of it at its end.
pub open spec fn is_ended_job(job: TransferJob, view: OutgoingView) -> bool {
    &&& job.id == view.id
    &&& job.peer_id == view.peer_id
    &&& job.source_root@ == view.source_root
    &&& job.destination_root@ == view.destination_root
    &&& job.config == view.config
    &&& job.status == view.status
    &&& job.progress == view.progress
    &&& error_views(job.errors@) == view.errors
}

/// What becomes of a chunk. One that was acknowledged leaves the queue, and its bytes
/// count for the job, for the phase and for its file; one that was not needed only leaves
/// the queue. A failure that may pass, or a cancellation, ends the phase; any other is
/// that of the file, of which no more is sent.
pub proof fn law_what_becomes_of_a_chunk(
    job: OutgoingView,
    before: UploadPhaseView,
    file: HashedFile,
    chunk_size: u64,
    outcome: Result<Option<SentChunk>, TransferError>,
    message: Seq<char>,
    result: Result<Option<UploadRecord>, TransferError>,
    job_after: OutgoingView,
    after: UploadPhaseView,
)
    requires
        chunk_outcome(
            job,
            before,
            file,
            chunk_size,
            outcome,
            message,
            result,
            job_after,
            after,
        ),
        job.progress.transferred_bytes + chunk_size <= u64::MAX,
        before.phase_bytes + chunk_size <= u64::MAX,
        sent_of(before, file.entry.relative_path@) + chunk_size <= u64::MAX,
    ensures
        ({
            let path = file.entry.relative_path@;
            &&& job.progress.queued_chunks > 0 ==> job_after.progress.queued_chunks
                == job.progress.queued_chunks - 1
            &&& outcome matches Ok(Some(_)) ==> {
                &&& job_after.progress.transferred_bytes == job.progress.transferred_bytes
                    + chunk_size
                &&& after.phase_bytes == before.phase_bytes + chunk_size
                &&& sent_of(after, path) == sent_of(before, path) + chunk_size
                &&& job_after.failed == job.failed && after.terminal == before.terminal
            }
            &&& outcome matches Ok(None) ==> after == before && job_after.failed == job.failed
                && job_after.progress.transferred_bytes == job.progress.transferred_bytes
            &&& outcome matches Err(error) ==> {
                let passing = error is Cancelled || error.spec_retryable();
                &&& result is Err <==> passing
                &&& passing ==> result->Err_0 == error && after == before && job_after.failed
                    == job.failed
                &&& !passing ==> job_after.failed == job.failed.insert(path) && after.terminal
                    == before.terminal.insert(path)
                &&& job_after.progress.transferred_bytes == job.progress.transferred_bytes
                &&& after.phase_bytes == before.phase_bytes
            }
        }),
{
    let path = file.entry.relative_path@;
    if job.failed.contains(path) {
        assert(job.failed.insert(path) =~= job.failed);
    }
}

/// A job can be sent exactly if its chunks have a size that memory can address, it may
/// work on something at all, and its destination is absolute; else there is one fault,
/// which says which of these fails.
pub proof fn law_which_jobs_can_be_sent(
    job: OutgoingView,
    error: TransferError,
)
    ensures
        is_configured(job) <==> job.config.chunk_size > 0 && job.config.chunk_size <= usize::MAX
            && job.config.concurrency > 0 && crate::path::is_absolute_somewhere(
            job.destination_root,
        ),
        is_config_fault(error, job) ==> !is_configured(job),
        is_config_fault(error, job) && job.config.chunk_size == 0 ==> error is InvalidData
            && error->InvalidData_0 is InvalidChunkSize,
        is_config_fault(error, job) && 0 < job.config.chunk_size <= usize::MAX
            && job.config.concurrency == 0 ==> error is InvalidData
            && error->InvalidData_0 is ZeroConcurrency,
        is_config_fault(error, job) && 0 < job.config.chunk_size <= usize::MAX
            && job.config.concurrency > 0 ==> error is InvalidData
            && error->InvalidData_0 is RootMustBeAbsolute,
{
}

/// Before anything is sent, what is spared counts as reused and what is missing is
/// queued; nothing else of the job changes.
pub proof fn law_what_is_queued(before: OutgoingView, items: Seq<NegotiatedFile>)
    requires
        before.progress.reused_bytes + spared_bytes(items) <= u64::MAX,
        chunks_to_send(items) <= u64::MAX,
    ensures
        ({
            let after = queued(before, items);
            &&& after.progress.reused_bytes == before.progress.reused_bytes + spared_bytes(items)
            &&& after.progress.queued_chunks == chunks_to_send(items)
            &&& after.progress.transferred_bytes == before.progress.transferred_bytes
            &&& after.progress.completed_files == before.progress.completed_files
            &&& after.failed == before.failed && after.errors == before.errors
        }),
{
}

/// The batch that is next holds the entries that come next, no more than a request may
/// have, and is the last exactly if no entry comes after it.
pub proof fn law_the_next_batch_goes_on(comparing: Comparing, batch: CompareBatch, i: int)
    requires
        comparing.wf(),
        comparing.is_next(batch),
    ensures
        ({
            let entries = comparing.spec_entries();
            let start = 512 * comparing.spec_sequence();
            &&& batch.job_id == comparing@.id && batch.manifest_id == comparing.spec_manifest_id()
            &&& batch.chunk_size == comparing@.config.chunk_size
            &&& batch.verification_mode == comparing@.config.verification_mode
            &&& batch.destination_root@ == comparing@.destination_root
            &&& batch.entries@.len() <= 512
            &&& batch.entries@.len() > 0 || entries.len() == 0
            &&& 0 <= i < batch.entries@.len() ==> batch.entries@[i] == entries[start + i]
            &&& batch.is_last <==> start + batch.entries@.len() == entries.len()
        }),
{
    let count = comparing.spec_entries().len() as int;
    let sequence = comparing.spec_sequence();
    crate::decisions::law_batches_cover_the_manifest(count, 0, sequence);
    if count > 0 {
        crate::hashing::law_pieces_are_as_few_as_can_be(count, 512);
    }
}

/// The request that is next holds the files that come next, and is the last exactly if
/// no request comes after it.
pub proof fn law_the_next_request_goes_on(negotiating: Negotiating, request: HashedFileBatch, i: int)
    requires
        negotiating.is_next(request),
    ensures
        negotiating.spec_requests().len() > 0,
        request.is_last <==> negotiating.spec_requests().len() == 1,
        request.files@.len() == negotiating.spec_requests()[0].len(),
        0 <= i < request.files@.len() ==> request.files@[i]@
            == negotiating.spec_requests()[0][i]@,
        request.job_id == negotiating@.id && request.manifest_id == negotiating.spec_manifest_id(),
{
}

} // verus!
