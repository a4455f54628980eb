//! Telling the receiver what the files contain, and learning what it lacks.

use crate::decisions::FileUpdate;
use crate::error::{DataFault, ProtocolError, TransferError};
use crate::ids::Uuid;
use crate::model::{ChunkDescriptor, FileOperation, HashedFile, TransferProgress};
use crate::outgoing::{with_failure, OutgoingJob, OutgoingView};
use crate::plan::{is_known, plan_fault, saturated, validate_file_plan};
use crate::records::JobFileStatus;
use crate::stream::{FilePlan, FilePlanBatch, HashedFileBatch, Response};
use vstd::hash_map::StringHashMap;
use vstd::hash_set::StringHashSet;
use vstd::prelude::*;

verus! {

/// How many files are negotiated in one request, at most.
pub const HASH_BATCH_SIZE: usize = 64;

/// Records that a file cannot be described within one frame; says why.
pub fn record_unencodable(job: &mut OutgoingJob, path: &str, error: &str) -> (update: FileUpdate)
    requires
        old(job)@.progress.failed_files < u64::MAX,
    ensures
        final(job)@ == with_failure(
            old(job)@,
            path@,
            FileOperation::Verify,
            "hashed file descriptor is too large for the protocol: "@ + error@,
        ),
        update.path@ == path@,
        update.status == JobFileStatus::Failed,
        crate::text::view_of(update.error) == Some(
            "hashed descriptor exceeds protocol frame limit"@,
        ),
{
    let mut message = "hashed file descriptor is too large for the protocol: ".to_owned();
    message.append(error);
    job.record_file_failure(path, FileOperation::Verify, message);
    FileUpdate {
        path: path.to_owned(),
        status: JobFileStatus::Failed,
        error: Some("hashed descriptor exceeds protocol frame limit".to_owned()),
    }
}

/// The files of some batches, one after the other.
pub open spec fn files_in(batches: Seq<Vec<HashedFile>>) -> Seq<HashedFile>
    decreases batches.len(),
{
    if batches.len() == 0 {
        Seq::<HashedFile>::empty()
    } else {
        files_in(batches.drop_last()) + batches.last()@
    }
}

/// No batch is empty and none holds too many files.
pub open spec fn are_batches(batches: Seq<Vec<HashedFile>>) -> bool {
    forall|i: int|
        0 <= i < batches.len() ==> 0 < (#[trigger] batches[i])@.len() <= HASH_BATCH_SIZE
}

/// What some batches hold.
pub open spec fn requests_in(batches: Seq<Vec<HashedFile>>) -> Seq<Seq<HashedFile>> {
    Seq::new(batches.len(), |i: int| batches[i]@)
}

/// The files of some requests, one after the other.
pub open spec fn joined(requests: Seq<Seq<HashedFile>>) -> Seq<HashedFile>
    decreases requests.len(),
{
    if requests.len() == 0 {
        Seq::<HashedFile>::empty()
    } else {
        joined(requests.drop_last()) + requests.last()
    }
}

/// No request is cut early: one that another follows is full, or was found too large
/// with the first file of the next. `refused` is what was found too large.
pub open spec fn are_filled(
    requests: Seq<Seq<HashedFile>>,
    refused: Set<Seq<HashedFile>>,
) -> bool {
    forall|i: int, j: int|
        #![trigger requests[i], requests[j]]
        0 <= i && j == i + 1 && j < requests.len() ==> requests[i].len() == HASH_BATCH_SIZE
            || refused.contains(requests[i].push(requests[j][0]))
}

/// Every request is one that was found to fit, or a single file.
pub open spec fn are_fitting(
    requests: Seq<Seq<HashedFile>>,
    accepted: Set<Seq<HashedFile>>,
) -> bool {
    forall|i: int|
        0 <= i < requests.len() ==> accepted.contains(#[trigger] requests[i]) || requests[i].len()
            == 1
}

/// The requests hold the files in order, none is empty or too long, each was found to
/// fit unless it is a single file, and none is cut early.
pub open spec fn is_packing(
    requests: Seq<Seq<HashedFile>>,
    files: Seq<HashedFile>,
    accepted: Set<Seq<HashedFile>>,
    refused: Set<Seq<HashedFile>>,
) -> bool {
    &&& joined(requests) == files
    &&& are_fitting(requests, accepted)
    &&& forall|i: int|
        0 <= i < requests.len() ==> 0 < (#[trigger] requests[i]).len() <= HASH_BATCH_SIZE
    &&& are_filled(requests, refused)
}

/// The last request with one more file.
proof fn lemma_packing_grows(
    requests: Seq<Seq<HashedFile>>,
    files: Seq<HashedFile>,
    accepted: Set<Seq<HashedFile>>,
    refused: Set<Seq<HashedFile>>,
    file: HashedFile,
)
    requires
        is_packing(requests, files, accepted, refused),
        requests.len() > 0,
        requests.last().len() < HASH_BATCH_SIZE,
        accepted.contains(requests.last().push(file)),
    ensures
        is_packing(
            requests.drop_last().push(requests.last().push(file)),
            files.push(file),
            accepted,
            refused,
        ),
{
    let last = requests.len() - 1;
    let grown = requests.drop_last().push(requests.last().push(file));
    assert(grown.drop_last() =~= requests.drop_last());
    assert(joined(grown) =~= files.push(file));
    assert forall|i: int, j: int|
        #![trigger grown[i], grown[j]]
        0 <= i && j == i + 1 && j < grown.len() implies grown[i].len() == HASH_BATCH_SIZE
        || refused.contains(grown[i].push(grown[j][0])) by {
        assert(grown[i] == requests[i]);
        assert(0 < requests[j].len());
        assert(grown[j][0] == requests[j][0]);
    }
    assert forall|i: int| 0 <= i < grown.len() implies 0 < (#[trigger] grown[i]).len()
        <= HASH_BATCH_SIZE by {
        assert(0 < requests[i].len() <= HASH_BATCH_SIZE);
        assert(i < last ==> grown[i] == requests[i]);
    }
}

/// Another request for a file that the last one has no room for.
proof fn lemma_packing_opens(
    requests: Seq<Seq<HashedFile>>,
    files: Seq<HashedFile>,
    accepted: Set<Seq<HashedFile>>,
    refused: Set<Seq<HashedFile>>,
    file: HashedFile,
)
    requires
        is_packing(requests, files, accepted, refused),
        requests.len() > 0 ==> requests.last().len() == HASH_BATCH_SIZE || refused.contains(
            requests.last().push(file),
        ),
    ensures
        is_packing(requests.push(seq![file]), files.push(file), accepted, refused),
{
    let opened = requests.push(seq![file]);
    assert(opened.drop_last() =~= requests);
    assert(joined(opened) =~= files.push(file));
    assert forall|i: int, j: int|
        #![trigger opened[i], opened[j]]
        0 <= i && j == i + 1 && j < opened.len() implies opened[i].len() == HASH_BATCH_SIZE
        || refused.contains(opened[i].push(opened[j][0])) by {
        assert(opened[i] == requests[i]);
        if j < requests.len() {
            assert(opened[j] == requests[j]);
        } else {
            assert(opened[j][0] == file);
        }
    }
}

/// What is found of another candidate does not undo what is packed.
proof fn lemma_packing_keeps(
    requests: Seq<Seq<HashedFile>>,
    files: Seq<HashedFile>,
    accepted: Set<Seq<HashedFile>>,
    refused: Set<Seq<HashedFile>>,
    candidate: Seq<HashedFile>,
)
    requires
        is_packing(requests, files, accepted, refused),
    ensures
        is_packing(requests, files, accepted.insert(candidate), refused),
        is_packing(requests, files, accepted, refused.insert(candidate)),
{
}

/// Files that are being sorted into batches.
pub struct HashBatches {
    batches: Vec<Vec<HashedFile>>,
    current: Vec<HashedFile>,
    accepted: Ghost<Set<Seq<HashedFile>>>,
    refused: Ghost<Set<Seq<HashedFile>>>,
}

impl HashBatches {
    /// All files so far, in order.
    pub closed spec fn files(&self) -> Seq<HashedFile> {
        files_in(self.batches@) + self.current@
    }

    /// The files of the batch that is being filled.
    pub closed spec fn spec_current(&self) -> Seq<HashedFile> {
        self.current@
    }

    /// The candidates that were found to fit.
    pub closed spec fn spec_accepted(&self) -> Set<Seq<HashedFile>> {
        self.accepted@
    }

    /// The candidates that were found too large.
    pub closed spec fn spec_refused(&self) -> Set<Seq<HashedFile>> {
        self.refused@
    }

    /// The batches that are closed.
    pub closed spec fn spec_batches(&self) -> Seq<Vec<HashedFile>> {
        self.batches@
    }

    /// The batches so far, the one that is being filled included.
    pub open spec fn requests(&self) -> Seq<Seq<HashedFile>> {
        if self.spec_current().len() == 0 {
            requests_in(self.spec_batches())
        } else {
            requests_in(self.spec_batches()).push(self.spec_current())
        }
    }

    pub open spec fn wf(&self) -> bool {
        &&& are_batches(self.spec_batches())
        &&& self.spec_current().len() <= HASH_BATCH_SIZE
        &&& self.files() == files_in(self.spec_batches()) + self.spec_current()
        &&& is_packing(
            self.requests(),
            self.files(),
            self.spec_accepted(),
            self.spec_refused(),
        )
        &&& self.spec_current().len() == 0 && self.requests().len() > 0
            ==> self.requests().last().len() == HASH_BATCH_SIZE
    }

    pub fn new() -> (sorted: Self)
        ensures
            sorted.wf(),
            sorted.files() == Seq::<HashedFile>::empty(),
            sorted.spec_current() == Seq::<HashedFile>::empty(),
            sorted.spec_batches() == Seq::<Vec<HashedFile>>::empty(),
            sorted.spec_accepted() == Set::<Seq<HashedFile>>::empty(),
            sorted.spec_refused() == Set::<Seq<HashedFile>>::empty(),
    {
        let sorted = HashBatches {
            batches: Vec::new(),
            current: Vec::new(),
            accepted: Ghost(Set::empty()),
            refused: Ghost(Set::empty()),
        };
        assert(sorted.files() =~= Seq::<HashedFile>::empty());
        sorted
    }

    fn close_batch(&mut self)
        requires
            old(self).wf(),
            old(self).spec_current().len() > 0,
        ensures
            are_batches(final(self).spec_batches()),
            final(self).files() == old(self).files(),
            final(self).files() == files_in(final(self).spec_batches()),
            is_packing(
                final(self).requests(),
                final(self).files(),
                final(self).spec_accepted(),
                final(self).spec_refused(),
            ),
            final(self).spec_accepted() == old(self).spec_accepted(),
            final(self).spec_refused() == old(self).spec_refused(),
            final(self).spec_current() == Seq::<HashedFile>::empty(),
            final(self).spec_batches().len() == old(self).spec_batches().len() + 1,
            final(self).spec_batches().drop_last() == old(self).spec_batches(),
            final(self).spec_batches().last()@ == old(self).spec_current(),
            final(self).requests() == old(self).requests(),
    {
        let mut full: Vec<HashedFile> = Vec::new();
        full.append(&mut self.current);
        assert(full@ =~= old(self).current@);
        self.batches.push(full);
        assert(self.batches@.drop_last() =~= old(self).batches@);
        assert(self.files() =~= old(self).files());
        assert(self.requests() =~= old(self).requests());
    }

    /// Closes the batch that is being filled if it is full. Called before each
    /// file.
    pub fn make_room(&mut self)
        requires
            old(self).wf(),
        ensures
            final(self).wf(),
            final(self).files() == old(self).files(),
            final(self).requests() == old(self).requests(),
            final(self).spec_accepted() == old(self).spec_accepted(),
            final(self).spec_refused() == old(self).spec_refused(),
            final(self).spec_current() == if old(self).spec_current().len() == HASH_BATCH_SIZE {
                Seq::<HashedFile>::empty()
            } else {
                old(self).spec_current()
            },
    {
        if self.current.len() == HASH_BATCH_SIZE {
            self.close_batch();
            assert(self.requests().last() == self.batches@.last()@);
        }
    }

    /// The batch being filled with one more file, to see whether it can be
    /// encoded.
    pub fn candidate(&self, file: &HashedFile) -> (files: Vec<HashedFile>)
        ensures
            files@.len() == self.spec_current().len() + 1,
            forall|i: int|
                0 <= i < self.spec_current().len() ==> (#[trigger] files@[i])@
                    == self.spec_current()[i]@,
            files@.last()@ == file@,
    {
        let mut files: Vec<HashedFile> = Vec::new();
        let mut i: usize = 0;
        while i < self.current.len()
            invariant
                i <= self.current.len(),
                files@.len() == i,
                forall|k: int| 0 <= k < i ==> (#[trigger] files@[k])@ == self.current@[k]@,
            decreases self.current.len() - i,
        {
            files.push(self.current[i].duplicate());
            i += 1;
        }
        files.push(file.duplicate());
        files
    }

    /// Adds a file, given whether the candidate could be encoded: one that is
    /// too large opens a new batch, unless it is the only one in its batch.
    pub fn add(&mut self, file: HashedFile, encoded: Result<(), ProtocolError>) -> (result: Result<
        (),
        TransferError,
    >)
        requires
            old(self).wf(),
            old(self).spec_current().len() < HASH_BATCH_SIZE,
        ensures
            ({
                let splits = encoded matches Err(error) && error is FrameTooLarge && old(self).spec_current().len()
                    > 0;
                match result {
                    Ok(_) => {
                        &&& encoded is Ok || splits
                        &&& final(self).wf()
                        &&& final(self).spec_accepted() == if encoded is Ok {
                            old(self).spec_accepted().insert(old(self).spec_current().push(file))
                        } else {
                            old(self).spec_accepted()
                        }
                        &&& final(self).spec_refused() == if encoded is Ok {
                            old(self).spec_refused()
                        } else {
                            old(self).spec_refused().insert(old(self).spec_current().push(file))
                        }
                        &&& final(self).files() == old(self).files().push(file)
                        &&& final(self).spec_current() == if encoded is Ok {
                            old(self).spec_current().push(file)
                        } else {
                            seq![file]
                        }
                        &&& final(self).requests() == if encoded is Ok && old(self).spec_current().len()
                            > 0 {
                            old(self).requests().drop_last().push(final(self).spec_current())
                        } else {
                            old(self).requests().push(seq![file])
                        }
                    },
                    Err(error) => {
                        &&& !splits
                        &&& encoded matches Err(cause) && error == TransferError::Protocol(cause)
                        &&& final(self).files() == old(self).files()
                    },
                }
            }),
    {
        match encoded {
            Ok(_) => {
                self.accepted = Ghost(self.accepted@.insert(self.current@.push(file)));
            },
            Err(error) => {
                let too_large = match &error {
                    ProtocolError::FrameTooLarge { .. } => true,
                    _ => false,
                };
                if !too_large || self.current.len() == 0 {
                    return Err(TransferError::Protocol(error));
                }
                self.close_batch();
                self.refused = Ghost(self.refused@.insert(old(self).current@.push(file)));
            },
        }
        let ghost before = self.files();
        let ghost current = self.current@;
        self.current.push(file);
        assert(self.files() =~= before.push(file));
        assert(encoded is Err ==> self.current@ =~= seq![file]);
        proof {
            if encoded is Ok && old(self).current@.len() > 0 {
                assert(old(self).requests().drop_last() =~= requests_in(self.batches@));
            } else {
                assert(self.current@ =~= seq![file]);
                assert(old(self).requests() =~= requests_in(self.batches@));
            }
            lemma_packing_keeps(
                old(self).requests(),
                old(self).files(),
                old(self).accepted@,
                old(self).refused@,
                old(self).current@.push(file),
            );
            if encoded is Ok && old(self).current@.len() > 0 {
                lemma_packing_grows(
                    old(self).requests(),
                    before,
                    self.accepted@,
                    self.refused@,
                    file,
                );
            } else {
                lemma_packing_opens(
                    old(self).requests(),
                    before,
                    self.accepted@,
                    self.refused@,
                    file,
                );
            }
        }
        Ok(())
    }

    /// The batches: every file in one of them, in order, and none cut early.
    pub fn finish(self) -> (batches: Vec<Vec<HashedFile>>)
        requires
            self.wf(),
        ensures
            are_batches(batches@),
            files_in(batches@) == self.files(),
            requests_in(batches@) == self.requests(),
            is_packing(
                requests_in(batches@),
                self.files(),
                self.spec_accepted(),
                self.spec_refused(),
            ),
    {
        let mut sorted = self;
        if sorted.current.len() > 0 {
            sorted.close_batch();
        }
        assert(files_in(sorted.batches@) + sorted.current@ =~= files_in(sorted.batches@));
        sorted.batches
    }
}

/// The request that negotiates some files.
pub fn negotiate_batch(
    job_id: Uuid,
    manifest_id: Uuid,
    sequence: usize,
    batch_count: usize,
    files: &[HashedFile],
) -> (result: Result<HashedFileBatch, TransferError>)
    requires
        sequence < batch_count,
    ensures
        match result {
            Ok(batch) => {
                &&& batch.job_id == job_id
                &&& batch.manifest_id == manifest_id
                &&& batch.sequence == sequence
                &&& batch.is_last == (sequence + 1 == batch_count)
                &&& batch.files@.len() == files@.len()
                &&& forall|i: int|
                    0 <= i < files@.len() ==> (#[trigger] batch.files@[i])@ == files@[i]@
            },
            Err(error) => sequence > u32::MAX && error == TransferError::InvalidData(
                DataFault::TooManyHashBatches,
            ),
        },
{
    if sequence > u32::MAX as usize {
        return Err(TransferError::InvalidData(DataFault::TooManyHashBatches));
    }
    let mut copies: Vec<HashedFile> = Vec::new();
    let mut i: usize = 0;
    while i < files.len()
        invariant
            i <= files.len(),
            copies@.len() == i,
            forall|k: int| 0 <= k < i ==> (#[trigger] copies@[k])@ == files@[k]@,
        decreases files.len() - i,
    {
        copies.push(files[i].duplicate());
        i += 1;
    }
    Ok(
        HashedFileBatch {
            job_id,
            manifest_id,
            sequence: sequence as u32,
            is_last: sequence + 1 == batch_count,
            files: copies,
        },
    )
}

/// The first position of a file for `path`, or the number of files.
pub open spec fn position_of(files: Seq<HashedFile>, path: Seq<char>) -> int
    decreases files.len(),
{
    if files.len() == 0 || files[0].entry.relative_path@ == path {
        0
    } else {
        1 + position_of(files.skip(1), path)
    }
}

proof fn lemma_position(files: Seq<HashedFile>, path: Seq<char>, n: int)
    requires
        0 <= n <= files.len(),
        forall|i: int| 0 <= i < n ==> (#[trigger] files[i]).entry.relative_path@ != path,
        n < files.len() ==> files[n].entry.relative_path@ == path,
    ensures
        position_of(files, path) == n,
    decreases files.len(),
{
    if files.len() > 0 && n > 0 {
        let rest = files.skip(1);
        assert(files[0].entry.relative_path@ != path);
        assert forall|i: int| 0 <= i < n - 1 implies (#[trigger] rest[i]).entry.relative_path@
            != path by {
            assert(rest[i] == files[i + 1]);
        }
        lemma_position(rest, path, n - 1);
    }
}

/// Takes the file out of a batch that a final failure names, if it names one.
/// Any other failure ends the job.
pub fn drop_rejected(pending: &mut Vec<HashedFile>, error: &TransferError) -> (rejected: Option<
    String,
>)
    ensures
        ({
            let named = error.spec_remote_path();
            let position = position_of(old(pending)@, named->0);
            let found = !error.spec_retryable() && named is Some && 0 <= position
                < old(pending)@.len();
            match rejected {
                Some(path) => {
                    &&& found
                    &&& named == Some(path@)
                    &&& final(pending)@ == old(pending)@.remove(position)
                },
                None => !found && final(pending)@ == old(pending)@,
            }
        }),
{
    if error.is_retryable() {
        return None;
    }
    let path = match error.remote_path() {
        None => {
            return None;
        },
        Some(path) => path,
    };
    let mut i: usize = 0;
    while i < pending.len()
        invariant
            i <= pending.len(),
            pending@ == old(pending)@,
            forall|k: int| 0 <= k < i ==> (#[trigger] pending@[k]).entry.relative_path@ != path@,
            !error.spec_retryable(),
            error.spec_remote_path() == Some(path@),
        decreases pending.len() - i,
    {
        if pending[i].entry.relative_path == path {
            proof {
                lemma_position(pending@, path@, i as int);
            }
            pending.remove(i);
            return Some(path);
        }
        i += 1;
    }
    proof {
        lemma_position(pending@, path@, i as int);
    }
    None
}

/// A file and the receiver's plan for it.
pub struct NegotiatedFile {
    pub file: HashedFile,
    pub plan: FilePlan,
}

/// The plan is for the file and names every chunk of it once.
pub open spec fn is_negotiated(item: NegotiatedFile) -> bool {
    item.plan.path@ == item.file.entry.relative_path@ && plan_fault(item.file.chunks@, item.plan)
        is None
}

/// The files that the receiver has planned.
pub struct NegotiatedFiles {
    items: Vec<NegotiatedFile>,
    paths: StringHashSet,
}

pub open spec fn item_paths(items: Seq<NegotiatedFile>) -> Seq<Seq<char>> {
    Seq::new(items.len(), |i: int| items[i].plan.path@)
}

/// The response belongs to the request and has a plan for each file.
pub open spec fn answers_negotiation(response: Response, request: HashedFileBatch, count: nat) -> bool {
    response matches Response::Negotiate(answer) && {
        &&& answer.job_id == request.job_id
        &&& answer.manifest_id == request.manifest_id
        &&& answer.sequence == request.sequence
        &&& answer.plans@.len() == count
    }
}

/// The file at `i` is the one of `pending` that a plan for a path is about.
pub open spec fn is_planned_by(pending: Seq<HashedFile>, path: Seq<char>, i: int) -> bool {
    &&& 0 <= i < pending.len()
    &&& pending[i].entry.relative_path@ == path
    &&& forall|j: int| i < j < pending.len() ==> (#[trigger] pending[j]).entry.relative_path@ != path
}

/// The paths that are planned before one of some plans.
pub open spec fn planned_before(
    items: Seq<NegotiatedFile>,
    plans: Seq<FilePlan>,
    k: int,
) -> Seq<Seq<char>> {
    item_paths(items) + Seq::new(k as nat, |j: int| plans[j].path@)
}

/// The plan is for a pending file, names every chunk of it once, and its path was
/// not planned before.
pub open spec fn is_accepted(
    pending: Seq<HashedFile>,
    planned: Seq<Seq<char>>,
    plan: FilePlan,
) -> bool {
    &&& exists|i: int| #[trigger]
        is_planned_by(pending, plan.path@, i) && plan_fault(pending[i].chunks@, plan) is None
    &&& !planned.contains(plan.path@)
}

/// Why a plan is refused: no pending file has its path, it does not fit its file,
/// or its path was planned before.
pub open spec fn is_refused(
    pending: Seq<HashedFile>,
    planned: Seq<Seq<char>>,
    plan: FilePlan,
    error: TransferError,
) -> bool {
    match error {
        TransferError::InvalidData(DataFault::UnexpectedPlan { path }) => {
            &&& path@ == plan.path@
            &&& forall|i: int| !#[trigger] is_planned_by(pending, plan.path@, i)
        },
        TransferError::InvalidData(DataFault::DuplicatePlan { path }) => {
            &&& path@ == plan.path@
            &&& exists|i: int| #[trigger]
                is_planned_by(pending, plan.path@, i) && plan_fault(pending[i].chunks@, plan) is None
            &&& planned.contains(plan.path@)
        },
        _ => exists|i: int|
            {
                &&& #[trigger] is_planned_by(pending, plan.path@, i)
                &&& plan_fault(pending[i].chunks@, plan) matches Some(fault)
                    && crate::plan::reports(error, plan.path@, fault)
            },
    }
}

/// The item holds the plan, and the pending file that the plan is about.
pub open spec fn takes_plan(
    pending: Seq<HashedFile>,
    plan: FilePlan,
    item: NegotiatedFile,
) -> bool {
    &&& item.plan == plan
    &&& exists|i: int| #[trigger]
        is_planned_by(pending, plan.path@, i) && item.file@ == pending[i]@
}

/// The index leads from each path to the file that a plan for it is about.
spec fn is_index_of(index: Map<Seq<char>, usize>, pending: Seq<HashedFile>) -> bool {
    &&& forall|path: Seq<char>| #[trigger]
        index.contains_key(path) ==> is_planned_by(pending, path, index[path] as int)
    &&& forall|i: int|
        0 <= i < pending.len() ==> index.contains_key(
            (#[trigger] pending[i]).entry.relative_path@,
        )
}

/// The response has a plan for each pending file, and for no other.
pub open spec fn plans_files(
    response: Response,
    request: HashedFileBatch,
    pending: Seq<HashedFile>,
    items: Seq<NegotiatedFile>,
) -> bool {
    let plans = response->Negotiate_0.plans@;
    &&& answers_negotiation(response, request, pending.len())
    &&& forall|k: int|
        #![trigger plans[k]]
        0 <= k < plans.len() ==> is_accepted(pending, planned_before(items, plans, k), plans[k])
}

/// What is said of a response that has not: of the first plan that is refused, if
/// the response belongs to the request at all.
pub open spec fn reports_plans(
    error: TransferError,
    response: Response,
    request: HashedFileBatch,
    pending: Seq<HashedFile>,
    items: Seq<NegotiatedFile>,
) -> bool {
    match error {
        TransferError::InvalidData(DataFault::WrongNegotiation) => !(response is Negotiate),
        TransferError::InvalidData(DataFault::MismatchedNegotiation) => response is Negotiate
            && !answers_negotiation(response, request, pending.len()),
        _ => {
            let plans = response->Negotiate_0.plans@;
            &&& answers_negotiation(response, request, pending.len())
            &&& exists|k: int|
                #![trigger plans[k]]
                {
                    &&& 0 <= k < plans.len()
                    &&& is_refused(pending, planned_before(items, plans, k), plans[k], error)
                    &&& forall|j: int|
                        #![trigger plans[j]]
                        0 <= j < k ==> is_accepted(
                            pending,
                            planned_before(items, plans, j),
                            plans[j],
                        )
                }
        },
    }
}

/// Where every pending file gets a plan that fits it, and none of them was
/// planned before, the sender accepts the answer of the receiver.
pub proof fn law_honest_plans_are_accepted(
    request: HashedFileBatch,
    pending: Seq<HashedFile>,
    items: Seq<NegotiatedFile>,
    answer: FilePlanBatch,
)
    requires
        answer.job_id == request.job_id,
        answer.manifest_id == request.manifest_id,
        answer.sequence == request.sequence,
        answer.plans@.len() == pending.len(),
        forall|i: int, j: int|
            0 <= i < j < pending.len() ==> (#[trigger] pending[i]).entry.relative_path@ != (
            #[trigger] pending[j]).entry.relative_path@,
        forall|i: int|
            0 <= i < pending.len() ==> !item_paths(items).contains(
                (#[trigger] pending[i]).entry.relative_path@,
            ),
        forall|i: int|
            #![trigger answer.plans@[i]]
            0 <= i < pending.len() ==> answer.plans@[i].path@ == pending[i].entry.relative_path@
                && plan_fault(pending[i].chunks@, answer.plans@[i]) is None,
    ensures
        plans_files(Response::Negotiate(answer), request, pending, items),
{
    let plans = answer.plans@;
    assert forall|k: int|
        #![trigger plans[k]]
        0 <= k < plans.len() implies is_accepted(
        pending,
        planned_before(items, plans, k),
        plans[k],
    ) by {
        let path = plans[k].path@;
        assert(pending[k].entry.relative_path@ == path);
        assert(is_planned_by(pending, path, k));
        let planned = planned_before(items, plans, k);
        if planned.contains(path) {
            let at = choose|at: int| 0 <= at < planned.len() && planned[at] == path;
            if at < items.len() {
                assert(item_paths(items)[at] == path);
                assert(item_paths(items).contains(path));
            } else {
                let earlier = at - items.len();
                assert(plans[earlier].path@ == path);
                assert(pending[earlier].entry.relative_path@ == path);
            }
        }
    }
}

impl View for NegotiatedFiles {
    type V = Seq<NegotiatedFile>;

    closed spec fn view(&self) -> Seq<NegotiatedFile> {
        self.items@
    }
}

impl NegotiatedFiles {
    pub closed spec fn wf(&self) -> bool {
        &&& forall|i: int| 0 <= i < self.items@.len() ==> is_negotiated(#[trigger] self.items@[i])
        &&& item_paths(self.items@).no_duplicates()
        &&& self.paths@ == item_paths(self.items@).to_set()
    }

    /// Every plan fits its file, and no file has two.
    pub proof fn law_accepted_plans_fit(&self)
        requires
            self.wf(),
        ensures
            forall|i: int| 0 <= i < self@.len() ==> is_negotiated(#[trigger] self@[i]),
            item_paths(self@).no_duplicates(),
    {
    }

    pub fn new() -> (files: Self)
        ensures
            files.wf(),
            files@ == Seq::<NegotiatedFile>::empty(),
    {
        let files = NegotiatedFiles { items: Vec::new(), paths: StringHashSet::new() };
        assert(files.paths@ =~= item_paths(files.items@).to_set());
        files
    }

    pub fn items(&self) -> (items: &Vec<NegotiatedFile>)
        ensures
            items@ == self@,
    {
        &self.items
    }

    /// Takes one plan for one of the pending files.
    fn accept_plan(
        &mut self,
        pending: &[HashedFile],
        by_path: &StringHashMap<usize>,
        plan: FilePlan,
    ) -> (result: Result<(), TransferError>)
        requires
            old(self).wf(),
            is_index_of(by_path@, pending@),
        ensures
            final(self).wf(),
            match result {
                Ok(_) => {
                    &&& is_accepted(pending@, item_paths(old(self)@), plan)
                    &&& final(self)@.len() == old(self)@.len() + 1
                    &&& final(self)@.drop_last() == old(self)@
                    &&& final(self)@.last().plan == plan
                    &&& exists|i: int| #[trigger]
                        is_planned_by(pending@, plan.path@, i) && final(self)@.last().file@
                            == pending@[i]@
                },
                Err(error) => is_refused(pending@, item_paths(old(self)@), plan, error),
            },
            result is Err ==> final(self)@ == old(self)@,
    {
        let index: usize = match by_path.get(plan.path.as_str()) {
            None => {
                return Err(
                    TransferError::InvalidData(DataFault::UnexpectedPlan { path: plan.path }),
                );
            },
            Some(index) => *index,
        };
        assert(by_path@.contains_key(plan.path@));
        assert(is_planned_by(pending@, plan.path@, index as int));
        let file = &pending[index];
        if let Err(error) = validate_file_plan(file, &plan) {
            return Err(error);
        }
        if self.paths.contains(plan.path.as_str()) {
            assert(item_paths(self.items@).to_set().contains(plan.path@));
            return Err(TransferError::InvalidData(DataFault::DuplicatePlan { path: plan.path }));
        }
        let ghost names = item_paths(self.items@);
        self.paths.insert(plan.path.clone());
        let copy = file.duplicate();
        assert(copy@.chunks == file@.chunks);
        self.items.push(NegotiatedFile { file: copy, plan });
        proof {
            let after = item_paths(self.items@);
            assert(self.items@.drop_last() =~= old(self).items@);
            assert(after =~= names.push(plan.path@));
            assert(!names.contains(plan.path@)) by {
                if names.contains(plan.path@) {
                    assert(names.to_set().contains(plan.path@));
                }
            }
            crate::decisions::lemma_push_keeps_distinct(names, plan.path@);
            crate::decisions::lemma_take_to_set(after, names.len() as int);
            assert(after.take(names.len() as int) =~= names);
            assert(after.take(names.len() as int + 1) =~= after);
            assert(pending@[index as int]@ == copy@);
        }
        Ok(())
    }

    /// Takes the answer to a negotiation: a plan for each pending file, and
    /// for no other.
    pub fn accept_plans(
        &mut self,
        pending: &[HashedFile],
        request: &HashedFileBatch,
        response: Response,
    ) -> (result: Result<(), TransferError>)
        requires
            old(self).wf(),
        ensures
            final(self).wf(),
            match result {
                Ok(_) => {
                    let known = old(self)@.len() as int;
                    let plans = response->Negotiate_0.plans@;
                    &&& plans_files(response, *request, pending@, old(self)@)
                    &&& final(self)@.len() == known + plans.len()
                    &&& final(self)@.take(known) == old(self)@
                    &&& forall|k: int|
                        #![trigger plans[k]]
                        0 <= k < plans.len() ==> takes_plan(
                            pending@,
                            plans[k],
                            final(self)@[known + k],
                        )
                },
                Err(error) => reports_plans(error, response, *request, pending@, old(self)@),
            },
    {
        let answer = match response {
            Response::Negotiate(answer) => answer,
            _ => {
                return Err(TransferError::InvalidData(DataFault::WrongNegotiation));
            },
        };
        if answer.job_id != request.job_id || answer.manifest_id != request.manifest_id
            || answer.sequence != request.sequence || answer.plans.len() != pending.len() {
            return Err(TransferError::InvalidData(DataFault::MismatchedNegotiation));
        }
        let ghost plans = answer.plans@;
        let mut by_path: StringHashMap<usize> = StringHashMap::new();
        let mut i: usize = 0;
        while i < pending.len()
            invariant
                i <= pending.len(),
                is_index_of(by_path@, pending@.take(i as int)),
            decreases pending.len() - i,
        {
            let ghost before = by_path@;
            by_path.insert(pending[i].entry.relative_path.clone(), i);
            proof {
                let shorter = pending@.take(i as int);
                let longer = pending@.take(i + 1);
                assert forall|path: Seq<char>| #[trigger] by_path@.contains_key(path) implies
                    is_planned_by(longer, path, by_path@[path] as int) by {
                    if path != pending@[i as int].entry.relative_path@ {
                        assert(before.contains_key(path));
                        assert forall|j: int| by_path@[path] < j < longer.len() implies (
                        #[trigger] longer[j]).entry.relative_path@ != path by {
                            if j < i {
                                assert(longer[j] == shorter[j]);
                            }
                        }
                    }
                }
                assert forall|j: int| 0 <= j < longer.len() implies by_path@.contains_key(
                    (#[trigger] longer[j]).entry.relative_path@,
                ) by {
                    if j < i {
                        assert(longer[j] == shorter[j]);
                    }
                }
            }
            i += 1;
        }
        assert(pending@.take(i as int) =~= pending@);
        let mut rest = answer.plans;
        let mut done: usize = 0;
        let ghost known = self@.len() as int;
        while rest.len() > 0
            invariant
                self.wf(),
                known == old(self)@.len(),
                answers_negotiation(response, *request, pending@.len()),
                plans == response->Negotiate_0.plans@,
                plans.len() == pending@.len(),
                done + rest.len() == plans.len(),
                rest@ == plans.skip(done as int),
                self@.len() == known + done,
                self@.take(known) == old(self)@,
                is_index_of(by_path@, pending@),
                forall|k: int|
                    #![trigger plans[k]]
                    0 <= k < done ==> takes_plan(pending@, plans[k], self@[known + k]),
                forall|k: int|
                    #![trigger plans[k]]
                    0 <= k < done ==> is_accepted(
                        pending@,
                        planned_before(old(self)@, plans, k),
                        plans[k],
                    ),
            decreases rest.len(),
        {
            let ghost before = self@;
            let plan = rest.remove(0);
            assert(plan == plans[done as int]);
            assert(rest@ =~= plans.skip(done + 1));
            assert(item_paths(before) =~= planned_before(old(self)@, plans, done as int)) by {
                assert forall|k: int| 0 <= k < before.len() implies #[trigger] item_paths(before)[k]
                    == planned_before(old(self)@, plans, done as int)[k] by {
                    if k < known {
                        assert(before[k] == before.take(known)[k]);
                    } else {
                        assert(takes_plan(pending@, plans[k - known], before[known + (k - known)]));
                    }
                }
            }
            if let Err(error) = self.accept_plan(pending, &by_path, plan) {
                return Err(error);
            }
            assert(self@.take(known) =~= before.take(known));
            assert forall|k: int|
                #![trigger plans[k]]
                0 <= k < done + 1 implies takes_plan(pending@, plans[k], self@[known + k]) by {
                if k < done {
                    assert(self@[known + k] == before[known + k]);
                } else {
                    assert(self@[known + k] == self@.last());
                }
            }
            assert(done < pending.len());
            done += 1;
        }
        Ok(())
    }
}

/// The bytes that need not be sent, added up.
pub open spec fn spared_bytes(items: Seq<NegotiatedFile>) -> nat
    decreases items.len(),
{
    if items.len() == 0 {
        0
    } else {
        spared_bytes(items.drop_last()) + items.last().plan.resumed_bytes as nat
            + items.last().plan.reused_bytes as nat
    }
}

/// The number of chunks to send.
pub open spec fn chunks_to_send(items: Seq<NegotiatedFile>) -> nat
    decreases items.len(),
{
    if items.len() == 0 {
        0
    } else {
        chunks_to_send(items.drop_last()) + items.last().plan.missing_chunks@.len()
    }
}

proof fn lemma_chunks_grow(items: Seq<NegotiatedFile>, n: int)
    requires
        0 <= n <= items.len(),
    ensures
        chunks_to_send(items.take(n)) <= chunks_to_send(items),
    decreases items.len(),
{
    if n == items.len() {
        assert(items.take(n) =~= items);
    } else {
        assert(items.drop_last().take(n) =~= items.take(n));
        lemma_chunks_grow(items.drop_last(), n);
    }
}

/// Counts what need not be sent and queues the chunks that must be.
pub fn queue_chunks(job: &mut OutgoingJob, files: &NegotiatedFiles) -> (result: Result<
    (),
    TransferError,
>)
    ensures
        match result {
            Ok(_) => {
                &&& chunks_to_send(files@) <= u64::MAX
                &&& final(job)@ == (OutgoingView {
                    progress: TransferProgress {
                        reused_bytes: saturated(
                            old(job)@.progress.reused_bytes as nat + spared_bytes(files@),
                        ),
                        queued_chunks: chunks_to_send(files@) as u64,
                        ..old(job)@.progress
                    },
                    ..old(job)@
                })
            },
            Err(error) => {
                &&& chunks_to_send(files@) > u64::MAX
                &&& error == TransferError::InvalidData(DataFault::QueueOverflow)
                &&& final(job)@ == old(job)@
            },
        },
{
    let ghost items = files@;
    let mut queued: u64 = 0;
    let mut reused: u64 = job.job().progress.reused_bytes;
    let ghost start = reused;
    let mut i: usize = 0;
    assert(items.take(0) =~= Seq::<NegotiatedFile>::empty());
    while i < files.items.len()
        invariant
            i <= files.items.len(),
            items == files.items@,
            job@ == old(job)@,
            start == old(job)@.progress.reused_bytes,
            queued == chunks_to_send(items.take(i as int)),
            reused == saturated(start as nat + spared_bytes(items.take(i as int))),
        decreases files.items.len() - i,
    {
        assert(items.take(i + 1).drop_last() =~= items.take(i as int));
        assert(items.take(i + 1).last() == items[i as int]);
        proof {
            lemma_chunks_grow(items, i + 1);
        }
        let plan = &files.items[i].plan;
        reused = reused.saturating_add(plan.resumed_bytes).saturating_add(plan.reused_bytes);
        queued = match queued.checked_add(plan.missing_chunks.len() as u64) {
            Some(sum) => sum,
            None => {
                return Err(TransferError::InvalidData(DataFault::QueueOverflow));
            },
        };
        i += 1;
    }
    assert(items.take(i as int) =~= items);
    job.set_queue(reused, queued);
    Ok(())
}

/// A chunk to send: which file it is of, and which chunk.
#[derive(Debug, Clone, Copy, PartialEq, Eq)]
pub struct UploadWork {
    pub file: usize,
    pub chunk: ChunkDescriptor,
}

/// The chunk that a plan asks for.
pub fn requested_chunk(file: &HashedFile, index: u64) -> (result: Result<
    ChunkDescriptor,
    TransferError,
>)
    ensures
        match result {
            Ok(chunk) => index < file.chunks@.len() && chunk == file.chunks@[index as int],
            Err(
                TransferError::InvalidData(DataFault::UnknownChunkRequested { path, index: i }),
            ) => {
                &&& index >= file.chunks@.len()
                &&& path@ == file.entry.relative_path@
                &&& i == index
            },
            Err(_) => false,
        },
{
    if index < file.chunks.len() as u64 {
        Ok(file.chunks[index as usize])
    } else {
        Err(
            TransferError::InvalidData(
                DataFault::UnknownChunkRequested { path: file.entry.relative_path.clone(), index },
            ),
        )
    }
}

/// The work that the plans of the first `n` files ask for, in order.
pub open spec fn work_for(items: Seq<NegotiatedFile>, n: int) -> Seq<(int, u64)>
    decreases n,
{
    if n <= 0 {
        Seq::<(int, u64)>::empty()
    } else {
        let missing = items[n - 1].plan.missing_chunks@;
        work_for(items, n - 1) + Seq::new(missing.len(), |i: int| (n - 1, missing[i]))
    }
}

pub open spec fn work_views(work: Seq<UploadWork>) -> Seq<(int, u64)> {
    Seq::new(work.len(), |i: int| (work[i].file as int, work[i].chunk.index))
}

/// The chunk of each piece of work is a chunk of its file.
pub open spec fn is_work(items: Seq<NegotiatedFile>, work: UploadWork) -> bool {
    &&& work.file < items.len()
    &&& work.chunk.index < items[work.file as int].file.chunks@.len()
    &&& work.chunk == items[work.file as int].file.chunks@[work.chunk.index as int]
}

/// The work is what the plans ask for: every missing chunk of every file, and
/// nothing else.
pub proof fn law_work_is_what_is_missing(items: Seq<NegotiatedFile>, n: int, file: int, index: u64)
    requires
        n <= items.len(),
    ensures
        work_for(items, n).contains((file, index)) <==> 0 <= file < n
            && items[file].plan.missing_chunks@.contains(index),
    decreases n,
{
    if n > 0 {
        law_work_is_what_is_missing(items, n - 1, file, index);
        let missing = items[n - 1].plan.missing_chunks@;
        let before = work_for(items, n - 1);
        let added = Seq::new(missing.len(), |i: int| (n - 1, missing[i]));
        let all = work_for(items, n);
        assert(all == before + added);
        if before.contains((file, index)) {
            let i = choose|i: int| 0 <= i < before.len() && before[i] == (file, index);
            assert(all[i] == (file, index));
        }
        if file == n - 1 && missing.contains(index) {
            let i = choose|i: int| 0 <= i < missing.len() && missing[i] == index;
            assert(all[before.len() + i] == (file, index));
        }
        if all.contains((file, index)) {
            let i = choose|i: int| 0 <= i < all.len() && all[i] == (file, index);
            if i < before.len() {
                assert(before[i] == (file, index));
            } else {
                assert(added[i - before.len()] == (file, index));
                assert(missing[i - before.len()] == index);
            }
        }
    }
}

/// Every chunk that is missing, file by file.
pub fn upload_work(files: &NegotiatedFiles) -> (work: Vec<UploadWork>)
    requires
        files.wf(),
    ensures
        work_views(work@) == work_for(files@, files@.len() as int),
        forall|i: int| 0 <= i < work@.len() ==> is_work(files@, #[trigger] work@[i]),
{
    let mut work: Vec<UploadWork> = Vec::new();
    let ghost items = files@;
    let mut i: usize = 0;
    assert(work_views(work@) =~= work_for(items, 0));
    while i < files.items.len()
        invariant
            i <= files.items.len(),
            files.wf(),
            items == files.items@,
            work_views(work@) == work_for(items, i as int),
            forall|k: int| 0 <= k < work@.len() ==> is_work(items, #[trigger] work@[k]),
        decreases files.items.len() - i,
    {
        let item = &files.items[i];
        let ghost missing = item.plan.missing_chunks@;
        let ghost before = work_views(work@);
        let ghost all = Seq::new(missing.len(), |k: int| (i as int, missing[k]));
        proof {
            assert(is_negotiated(items[i as int]));
            crate::plan::lemma_category_facts(
                item.file.chunks@,
                Seq::<u64>::empty(),
                missing,
            );
        }
        let mut j: usize = 0;
        assert(before + all.take(0) =~= before);
        while j < item.plan.missing_chunks.len()
            invariant
                i < files.items.len(),
                items == files.items@,
                item == items[i as int],
                missing == item.plan.missing_chunks@,
                j <= missing.len(),
                all == Seq::new(missing.len(), |k: int| (i as int, missing[k])),
                before == work_for(items, i as int),
                forall|k: int|
                    0 <= k < missing.len() ==> is_known(
                        item.file.chunks@,
                        #[trigger] missing[k],
                    ),
                work_views(work@) == before + all.take(j as int),
                forall|k: int| 0 <= k < work@.len() ==> is_work(items, #[trigger] work@[k]),
            decreases item.plan.missing_chunks.len() - j,
        {
            let index: u64 = item.plan.missing_chunks[j];
            assert(is_known(item.file.chunks@, missing[j as int]));
            if let Ok(chunk) = requested_chunk(&item.file, index) {
                let ghost sofar = work_views(work@);
                work.push(UploadWork { file: i, chunk });
                assert(work_views(work@) =~= sofar.push((i as int, index)));
            }
            assert(all.take(j + 1) =~= all.take(j as int).push((i as int, index)));
            assert(before + all.take(j + 1) =~= (before + all.take(j as int)).push(
                (i as int, index),
            ));
            j += 1;
        }
        assert(all.take(j as int) =~= all);
        i += 1;
    }
    work
}

/// What is spared and what is to be sent is added up file by file: what was resumed and
/// reused of each, and its missing chunks.
pub proof fn law_negotiated_files_are_added_up(items: Seq<NegotiatedFile>, item: NegotiatedFile)
    ensures
        spared_bytes(Seq::empty()) == 0,
        chunks_to_send(Seq::empty()) == 0,
        spared_bytes(items.push(item)) == spared_bytes(items) + item.plan.resumed_bytes
            + item.plan.reused_bytes,
        chunks_to_send(items.push(item)) == chunks_to_send(items) + item.plan.missing_chunks@.len(),
{
    assert(items.push(item).drop_last() =~= items);
    assert(items.push(item).last() == item);
}

/// An accepted answer plans what was asked for: it is for the request, and each of its
/// plans fits a file of the request by its path, each file has at most one, and none was
/// planned before.
pub proof fn law_accepted_answers_plan_each_file_once(
    answer: FilePlanBatch,
    request: HashedFileBatch,
    pending: Seq<HashedFile>,
    items: Seq<NegotiatedFile>,
)
    requires
        plans_files(Response::Negotiate(answer), request, pending, items),
    ensures
        answer.job_id == request.job_id,
        answer.manifest_id == request.manifest_id,
        answer.sequence == request.sequence,
        answer.plans@.len() == pending.len(),
        forall|k: int|
            #![trigger answer.plans@[k]]
            0 <= k < answer.plans@.len() ==> exists|i: int|
                0 <= i < pending.len() && (#[trigger] pending[i]).entry.relative_path@
                    == answer.plans@[k].path@ && plan_fault(pending[i].chunks@, answer.plans@[k])
                    is None,
        forall|j: int, k: int|
            #![trigger answer.plans@[j], answer.plans@[k]]
            0 <= j < k < answer.plans@.len() ==> answer.plans@[j].path@ != answer.plans@[k].path@,
        forall|j: int, k: int|
            #![trigger items[j], answer.plans@[k]]
            0 <= j < items.len() && 0 <= k < answer.plans@.len() ==> items[j].plan.path@
                != answer.plans@[k].path@,
{
    let plans = answer.plans@;
    assert forall|k: int|
        #![trigger plans[k]]
        0 <= k < plans.len() implies exists|i: int|
        0 <= i < pending.len() && (#[trigger] pending[i]).entry.relative_path@ == plans[k].path@
            && plan_fault(pending[i].chunks@, plans[k]) is None by {
        assert(is_accepted(pending, planned_before(items, plans, k), plans[k]));
        let i = choose|i: int| #[trigger]
            is_planned_by(pending, plans[k].path@, i) && plan_fault(pending[i].chunks@, plans[k])
                is None;
        assert(pending[i].entry.relative_path@ == plans[k].path@);
    }
    assert forall|j: int, k: int|
        #![trigger plans[j], plans[k]]
        0 <= j < k < plans.len() implies plans[j].path@ != plans[k].path@ by {
        let planned = planned_before(items, plans, k);
        assert(is_accepted(pending, planned, plans[k]));
        assert(planned[item_paths(items).len() + j] == plans[j].path@);
        assert(planned.contains(plans[j].path@));
    }
    assert forall|j: int, k: int|
        #![trigger items[j], plans[k]]
        0 <= j < items.len() && 0 <= k < plans.len() implies items[j].plan.path@
        != plans[k].path@ by {
        let planned = planned_before(items, plans, k);
        assert(is_accepted(pending, planned, plans[k]));
        assert(planned[j] == items[j].plan.path@);
        assert(planned.contains(items[j].plan.path@));
    }
}

/// The place of a file is the first with its path, and the end where there is none.
pub proof fn law_positions_are_the_first(files: Seq<HashedFile>, path: Seq<char>)
    ensures
        0 <= position_of(files, path) <= files.len(),
        position_of(files, path) < files.len() ==> files[position_of(
            files,
            path,
        )].entry.relative_path@ == path,
        forall|k: int|
            0 <= k < position_of(files, path) ==> (#[trigger] files[k]).entry.relative_path@ != path,
    decreases files.len(),
{
    if files.len() > 0 && files[0].entry.relative_path@ != path {
        let rest = files.skip(1);
        law_positions_are_the_first(rest, path);
        assert forall|k: int| 0 <= k < position_of(files, path) implies (
        #[trigger] files[k]).entry.relative_path@ != path by {
            if k > 0 {
                assert(rest[k - 1] == files[k]);
            }
        }
    }
}

/// Plans are refused exactly where they are not accepted.
pub proof fn law_refused_plans_are_not_accepted(
    error: TransferError,
    response: Response,
    request: HashedFileBatch,
    pending: Seq<HashedFile>,
    items: Seq<NegotiatedFile>,
)
    requires
        reports_plans(error, response, request, pending, items),
    ensures
        !plans_files(response, request, pending, items),
{
    if plans_files(response, request, pending, items) {
        let plans = response->Negotiate_0.plans@;
        let k = choose|k: int|
            #![trigger plans[k]]
            {
                &&& 0 <= k < plans.len()
                &&& is_refused(pending, planned_before(items, plans, k), plans[k], error)
                &&& forall|j: int|
                    #![trigger plans[j]]
                    0 <= j < k ==> is_accepted(
                        pending,
                        planned_before(items, plans, j),
                        plans[j],
                    )
            };
        assert(is_accepted(pending, planned_before(items, plans, k), plans[k]));
        let i = choose|i: int| #[trigger]
            is_planned_by(pending, plans[k].path@, i) && plan_fault(pending[i].chunks@, plans[k])
                is None;
        assert forall|j: int| #[trigger] is_planned_by(pending, plans[k].path@, j) implies j == i by {
            if j < i {
                assert(pending[i].entry.relative_path@ == plans[k].path@);
            } else if i < j {
                assert(pending[j].entry.relative_path@ == plans[k].path@);
            }
        }
    }
}

/// Requests are packed: together they are the files in order, none is empty or holds more
/// than it may, each was found to fit or is one file, and one that another follows is
/// full or would have been too large with one file more.
pub proof fn law_what_is_packed(
    requests: Seq<Seq<HashedFile>>,
    files: Seq<HashedFile>,
    accepted: Set<Seq<HashedFile>>,
    refused: Set<Seq<HashedFile>>,
    i: int,
)
    requires
        is_packing(requests, files, accepted, refused),
        0 <= i < requests.len(),
    ensures
        1 <= requests[i].len() <= 64,
        accepted.contains(requests[i]) || requests[i].len() == 1,
        i + 1 < requests.len() ==> requests[i].len() == 64 || refused.contains(
            requests[i].push(requests[i + 1][0]),
        ),
        joined(requests) == files,
{
    if i + 1 < requests.len() {
        let j = i + 1;
        assert(requests[j].len() > 0);
        assert(requests[i].len() == HASH_BATCH_SIZE || refused.contains(
            requests[i].push(requests[j][0]),
        ));
    }
}

/// Joining requests puts the files of one after those of the other.
pub proof fn law_requests_are_joined_in_order(requests: Seq<Seq<HashedFile>>, last: Seq<HashedFile>)
    ensures
        joined(Seq::empty()).len() == 0,
        joined(requests.push(last)) == joined(requests) + last,
{
    assert(requests.push(last).drop_last() =~= requests);
}

} // verus!
