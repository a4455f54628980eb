//! Asking the receiver what to do with each entry, and doing it.

use crate::error::{DataFault, TransferError};
use crate::hashing::pieces;
use crate::ids::Uuid;
use crate::model::{FileOperation, FileType, ManifestEntry, TransferJob, TransferProgress};
use crate::outgoing::{
    is_balanced, with_failure, ErrorView, OutgoingJob, OutgoingView,
};
use crate::plan::saturated;
use crate::records::JobFileStatus;
use crate::stream::{CompareAction, CompareBatch, CompareDecision, Response};
use vstd::hash_map::StringHashMap;
use vstd::hash_set::StringHashSet;
use vstd::prelude::*;

verus! {

/// How many entries are compared in one request.
pub const COMPARE_BATCH_SIZE: usize = 512;

/// How many batches a manifest of `count` entries takes: one at least.
pub open spec fn batches_for(count: int) -> int {
    if count == 0 {
        1
    } else {
        pieces(count, COMPARE_BATCH_SIZE as int)
    }
}

/// The first entry of a batch.
pub open spec fn batch_start(sequence: int) -> int {
    sequence * COMPARE_BATCH_SIZE
}

/// The entry after the last one of a batch.
pub open spec fn batch_end(sequence: int, count: int) -> int {
    if batch_start(sequence) + COMPARE_BATCH_SIZE < count {
        batch_start(sequence) + COMPARE_BATCH_SIZE
    } else {
        count
    }
}

/// The batches that a manifest of that many entries takes; an empty one takes one.
pub fn compare_batch_count(count: usize) -> (batches: usize)
    ensures
        batches == batches_for(count as int),
{
    if count == 0 {
        1
    } else {
        (count - 1) / COMPARE_BATCH_SIZE + 1
    }
}

/// Every entry is in one batch, and no batch but that of an empty manifest is
/// empty.
pub proof fn law_batches_cover_the_manifest(count: int, entry: int, sequence: int)
    requires
        0 <= count,
    ensures
        0 <= entry < count ==> {
            let own = entry / COMPARE_BATCH_SIZE as int;
            &&& 0 <= own < batches_for(count)
            &&& batch_start(own) <= entry < batch_end(own, count)
        },
        0 <= entry < count && 0 <= sequence && batch_start(sequence) <= entry < batch_end(
            sequence,
            count,
        ) ==> sequence == entry / COMPARE_BATCH_SIZE as int,
        count > 0 && 0 <= sequence < batches_for(count) ==> batch_start(sequence) < batch_end(
            sequence,
            count,
        ) <= count,
{
}

/// A batch of a manifest, to be compared by the receiver.
pub fn compare_batch(
    job: &TransferJob,
    manifest_id: Uuid,
    entries: &[ManifestEntry],
    sequence: usize,
) -> (result: Result<CompareBatch, TransferError>)
    requires
        sequence < batches_for(entries@.len() as int),
    ensures
        match result {
            Ok(batch) => {
                &&& batch.job_id == job.id
                &&& batch.manifest_id == manifest_id
                &&& batch.destination_root@ == job.destination_root@
                &&& batch.verification_mode == job.config.verification_mode
                &&& batch.chunk_size == job.config.chunk_size
                &&& batch.sequence == sequence
                &&& batch.is_last == (sequence + 1 == batches_for(entries@.len() as int))
                &&& batch.entries@ == entries@.subrange(
                    batch_start(sequence as int),
                    batch_end(sequence as int, entries@.len() as int),
                )
            },
            Err(error) => sequence > u32::MAX && error == TransferError::InvalidData(
                DataFault::TooManyBatches,
            ),
        },
{
    if sequence > u32::MAX as usize {
        return Err(TransferError::InvalidData(DataFault::TooManyBatches));
    }
    let count = compare_batch_count(entries.len());
    assert(batch_start(sequence as int) <= entries@.len());
    let start: usize = sequence * COMPARE_BATCH_SIZE;
    let end: usize = if entries.len() - start > COMPARE_BATCH_SIZE {
        start + COMPARE_BATCH_SIZE
    } else {
        entries.len()
    };
    let mut copies: Vec<ManifestEntry> = Vec::new();
    let mut i: usize = start;
    while i < end
        invariant
            start <= i <= end <= entries.len(),
            copies@ == entries@.subrange(start as int, i as int),
        decreases end - i,
    {
        copies.push(entries[i].duplicate());
        assert(entries@.subrange(start as int, i + 1) =~= entries@.subrange(
            start as int,
            i as int,
        ).push(entries@[i as int]));
        i += 1;
    }
    Ok(
        CompareBatch {
            job_id: job.id,
            manifest_id,
            destination_root: job.destination_root.clone(),
            verification_mode: job.config.verification_mode,
            chunk_size: job.config.chunk_size,
            sequence: sequence as u32,
            is_last: sequence + 1 == count,
            entries: copies,
        },
    )
}

pub open spec fn entry_paths(entries: Seq<ManifestEntry>) -> Seq<Seq<char>> {
    Seq::new(entries.len(), |i: int| entries[i].relative_path@)
}

pub open spec fn decision_paths(decisions: Seq<CompareDecision>) -> Seq<Seq<char>> {
    Seq::new(decisions.len(), |i: int| decisions[i].path@)
}

/// The response belongs to the batch and has a decision for each entry.
pub open spec fn answers_batch(response: Response, batch: CompareBatch) -> bool {
    response matches Response::Compare(answer) && {
        &&& answer.job_id == batch.job_id
        &&& answer.manifest_id == batch.manifest_id
        &&& answer.sequence == batch.sequence
        &&& answer.is_last == batch.is_last
        &&& answer.decisions@.len() == batch.entries@.len()
    }
}

/// A decision that is not wanted: on no entry of the batch, or on one that is
/// decided already.
pub open spec fn is_unwanted(
    decided: Seq<Seq<char>>,
    entries: Seq<Seq<char>>,
    known: Map<Seq<char>, CompareAction>,
    k: int,
) -> bool {
    ||| !entries.contains(decided[k])
    ||| known.contains_key(decided[k])
    ||| decided.take(k).contains(decided[k])
}

/// The response decides on every entry of the batch once, and on nothing else.
pub open spec fn decides_batch(
    response: Response,
    batch: CompareBatch,
    known: Map<Seq<char>, CompareAction>,
) -> bool {
    let decided = decision_paths(response->Compare_0.decisions@);
    &&& answers_batch(response, batch)
    &&& forall|k: int|
        0 <= k < decided.len() ==> !#[trigger] is_unwanted(
            decided,
            entry_paths(batch.entries@),
            known,
            k,
        )
}

/// What is said of a response that does not: of the first decision that is not
/// wanted, if the response belongs to the batch at all.
pub open spec fn reports_decisions(
    error: TransferError,
    response: Response,
    batch: CompareBatch,
    known: Map<Seq<char>, CompareAction>,
) -> bool {
    match error {
        TransferError::InvalidData(DataFault::WrongComparison) => !(response is Compare),
        TransferError::InvalidData(DataFault::MismatchedComparison) => response is Compare
            && !answers_batch(response, batch),
        TransferError::InvalidData(DataFault::UnexpectedComparison { path }) => {
            let decided = decision_paths(response->Compare_0.decisions@);
            let entries = entry_paths(batch.entries@);
            &&& answers_batch(response, batch)
            &&& exists|k: int|
                {
                    &&& 0 <= k < decided.len()
                    &&& path@ == decided[k]
                    &&& #[trigger] is_unwanted(decided, entries, known, k)
                    &&& forall|j: int|
                        0 <= j < k ==> !#[trigger] is_unwanted(decided, entries, known, j)
                }
        },
        _ => false,
    }
}

/// What the receiver has decided so far.
pub struct Decisions {
    actions: StringHashMap<CompareAction>,
}

impl View for Decisions {
    type V = Map<Seq<char>, CompareAction>;

    closed spec fn view(&self) -> Map<Seq<char>, CompareAction> {
        self.actions@
    }
}

impl Decisions {
    pub fn new() -> (decisions: Self)
        ensures
            decisions@ == Map::<Seq<char>, CompareAction>::empty(),
    {
        Decisions { actions: StringHashMap::new() }
    }

    pub fn get(&self, path: &str) -> (action: Option<CompareAction>)
        ensures
            action == (if self@.contains_key(path@) {
                Some(self@[path@])
            } else {
                None
            }),
    {
        match self.actions.get(path) {
            Some(action) => Some(*action),
            None => None,
        }
    }

    /// Takes the answer to a batch: it must decide on every entry of the batch
    /// once, and on nothing else.
    pub fn accept(&mut self, batch: &CompareBatch, response: &Response) -> (result: Result<
        (),
        TransferError,
    >)
        ensures
            ({
                let paths = entry_paths(batch.entries@).to_set();
                match result {
                    Ok(_) => {
                        &&& decides_batch(*response, *batch, old(self)@)
                        &&& final(self)@.dom() == old(self)@.dom().union(paths)
                        &&& old(self)@.dom().disjoint(paths)
                        &&& forall|path: Seq<char>| #[trigger]
                            old(self)@.contains_key(path) ==> final(self)@[path] == old(self)@[path]
                        &&& forall|i: int|
                            0 <= i < response->Compare_0.decisions@.len() ==> final(self)@[(#[trigger] response->Compare_0.decisions@[i]).path@]
                                == response->Compare_0.decisions@[i].action
                    },
                    Err(error) => reports_decisions(error, *response, *batch, old(self)@),
                }
            }),
    {
        let answer = match response {
            Response::Compare(answer) => answer,
            _ => {
                return Err(TransferError::InvalidData(DataFault::WrongComparison));
            },
        };
        if answer.job_id != batch.job_id || answer.manifest_id != batch.manifest_id
            || answer.sequence != batch.sequence || answer.is_last != batch.is_last
            || answer.decisions.len() != batch.entries.len() {
            return Err(TransferError::InvalidData(DataFault::MismatchedComparison));
        }
        let ghost names = entry_paths(batch.entries@);
        let mut expected = StringHashSet::new();
        let mut i: usize = 0;
        assert(names.take(0).to_set() =~= Set::<Seq<char>>::empty());
        while i < batch.entries.len()
            invariant
                i <= batch.entries.len(),
                names == entry_paths(batch.entries@),
                expected@ == names.take(i as int).to_set(),
            decreases batch.entries.len() - i,
        {
            expected.insert(batch.entries[i].relative_path.clone());
            proof {
                lemma_take_to_set(names, i as int);
            }
            i += 1;
        }
        assert(names.take(i as int) =~= names);
        let ghost paths = names.to_set();
        let ghost decided = decision_paths(answer.decisions@);
        let mut j: usize = 0;
        assert(decided.take(0).to_set() =~= Set::<Seq<char>>::empty());
        assert(self@.dom().union(Set::<Seq<char>>::empty()) =~= self@.dom());
        while j < answer.decisions.len()
            invariant
                j <= answer.decisions.len(),
                answer == response->Compare_0,
                answers_batch(*response, *batch),
                names == entry_paths(batch.entries@),
                paths == names.to_set(),
                expected@ == paths,
                decided == decision_paths(answer.decisions@),
                decided.take(j as int).no_duplicates(),
                decided.take(j as int).to_set().subset_of(paths),
                self@.dom() == old(self)@.dom().union(decided.take(j as int).to_set()),
                forall|k: int| 0 <= k < j ==> !old(self)@.contains_key(#[trigger] decided[k]),
                forall|k: int|
                    0 <= k < j ==> !#[trigger] is_unwanted(decided, names, old(self)@, k),
                forall|path: Seq<char>| #[trigger]
                    old(self)@.contains_key(path) ==> self@[path] == old(self)@[path],
                forall|k: int|
                    0 <= k < j ==> self@[(#[trigger] answer.decisions@[k]).path@]
                        == answer.decisions@[k].action,
            decreases answer.decisions.len() - j,
        {
            let path = &answer.decisions[j].path;
            assert(decided[j as int] == path@);
            assert(decided.contains(path@));
            if !expected.contains(path.as_str()) {
                assert(is_unwanted(decided, names, old(self)@, j as int)) by {
                    assert(names.to_set().contains(path@) == names.contains(path@));
                }
                return Err(
                    TransferError::InvalidData(
                        DataFault::UnexpectedComparison { path: path.clone() },
                    ),
                );
            }
            if self.actions.contains_key(path.as_str()) {
                proof {
                    if !old(self)@.contains_key(path@) {
                        let earlier = decided.take(j as int);
                        assert(earlier.contains(path@));
                    }
                    assert(is_unwanted(decided, names, old(self)@, j as int));
                }
                return Err(
                    TransferError::InvalidData(
                        DataFault::UnexpectedComparison { path: path.clone() },
                    ),
                );
            }
            let ghost earlier = decided.take(j as int);
            let ghost before = self@;
            assert(!earlier.contains(path@)) by {
                if earlier.contains(path@) {
                    assert(earlier.to_set().contains(path@));
                    assert(self@.dom().contains(path@));
                }
            }
            self.actions.insert(path.clone(), answer.decisions[j].action);
            assert(!is_unwanted(decided, names, old(self)@, j as int)) by {
                assert(names.to_set().contains(path@));
            }
            proof {
                lemma_take_to_set(decided, j as int);
                assert(decided.take(j + 1) =~= earlier.push(path@));
                lemma_push_keeps_distinct(earlier, path@);
                assert(self@.dom() =~= old(self)@.dom().union(decided.take(j + 1).to_set()));
                assert forall|k: int| 0 <= k < j + 1 implies self@[(
                #[trigger] answer.decisions@[k]).path@] == answer.decisions@[k].action by {
                    if k < j {
                        assert(earlier[k] == answer.decisions@[k].path@);
                        assert(earlier.contains(answer.decisions@[k].path@));
                    }
                }
            }
            j += 1;
        }
        proof {
            assert(decided.take(j as int) =~= decided);
            lemma_same_paths(decided, names);
            assert forall|path: Seq<char>| old(self)@.dom().contains(path) implies !paths.contains(
                path,
            ) by {
                if paths.contains(path) {
                    assert(decided.to_set().contains(path));
                    let k = choose|k: int| 0 <= k < decided.len() && decided[k] == path;
                    assert(!old(self)@.contains_key(decided[k]));
                }
            }
        }
        Ok(())
    }
}

pub proof fn lemma_push_keeps_distinct(texts: Seq<Seq<char>>, last: Seq<char>)
    requires
        texts.no_duplicates(),
        !texts.contains(last),
    ensures
        texts.push(last).no_duplicates(),
{
    let longer = texts.push(last);
    assert forall|a: int, b: int|
        #![trigger longer[a], longer[b]]
        0 <= a < longer.len() && 0 <= b < longer.len() && a != b implies longer[a] != longer[b] by {
        if a < texts.len() {
            assert(texts.contains(texts[a]));
        }
        if b < texts.len() {
            assert(texts.contains(texts[b]));
        }
    }
}

pub proof fn lemma_take_to_set(texts: Seq<Seq<char>>, n: int)
    requires
        0 <= n < texts.len(),
    ensures
        texts.take(n + 1).to_set() == texts.take(n).to_set().insert(texts[n]),
{
    let (longer, shorter) = (texts.take(n + 1), texts.take(n));
    assert forall|text: Seq<char>| longer.to_set().contains(text) <==> shorter.to_set().insert(
        texts[n],
    ).contains(text) by {
        if longer.contains(text) {
            let k = choose|k: int| 0 <= k < longer.len() && longer[k] == text;
            if k < n {
                assert(shorter[k] == text);
            }
        }
        if shorter.contains(text) {
            let k = choose|k: int| 0 <= k < shorter.len() && shorter[k] == text;
            assert(longer[k] == text);
        }
        assert(longer[n] == texts[n]);
    }
    assert(longer.to_set() =~= shorter.to_set().insert(texts[n]));
}

/// As many different paths as there are entries, all of them among the
/// entries', are the paths of the entries.
proof fn lemma_same_paths(decided: Seq<Seq<char>>, names: Seq<Seq<char>>)
    requires
        decided.no_duplicates(),
        decided.len() == names.len(),
        decided.to_set().subset_of(names.to_set()),
    ensures
        decided.to_set() == names.to_set(),
{
    decided.unique_seq_to_set();
    names.lemma_cardinality_of_set();
    vstd::seq_lib::seq_to_set_is_finite(decided);
    vstd::seq_lib::seq_to_set_is_finite(names);
    vstd::set_lib::lemma_len_subset(decided.to_set(), names.to_set());
    vstd::set_lib::lemma_subset_equality(decided.to_set(), names.to_set());
}

/// The name of an action.
pub open spec fn action_name(action: CompareAction) -> Seq<char> {
    match action {
        CompareAction::Unchanged => "Unchanged"@,
        CompareAction::NeedHash => "NeedHash"@,
        CompareAction::Transfer => "Transfer"@,
        CompareAction::Delete => "Delete"@,
        CompareAction::Conflict => "Conflict"@,
    }
}

fn name_of(action: CompareAction) -> (name: &'static str)
    ensures
        name@ == action_name(action),
{
    match action {
        CompareAction::Unchanged => "Unchanged",
        CompareAction::NeedHash => "NeedHash",
        CompareAction::Transfer => "Transfer",
        CompareAction::Delete => "Delete",
        CompareAction::Conflict => "Conflict",
    }
}

/// The new state of the row of a file.
#[derive(Debug, Clone, PartialEq, Eq)]
pub struct FileUpdate {
    pub path: String,
    pub status: JobFileStatus,
    pub error: Option<String>,
}

pub open spec fn update_views(updates: Seq<FileUpdate>) -> Seq<
    (Seq<char>, JobFileStatus, Option<Seq<char>>),
> {
    Seq::new(
        updates.len(),
        |i: int|
            (updates[i].path@, updates[i].status, crate::text::view_of(updates[i].error)),
    )
}

/// The job once the receiver has decided on a directory: anything but leaving
/// it unchanged is an error.
pub open spec fn after_directory(
    before: OutgoingView,
    entry: ManifestEntry,
    action: CompareAction,
) -> OutgoingView {
    if action == CompareAction::Unchanged {
        before
    } else {
        OutgoingView {
            errors: before.errors.push(
                ErrorView {
                    path: Some(entry.relative_path@),
                    operation: FileOperation::Write,
                    message: "receiver reported "@ + action_name(action) + " for directory"@,
                },
            ),
            ..before
        }
    }
}

/// The job once the receiver has decided on a file.
pub open spec fn after_file(
    before: OutgoingView,
    entry: ManifestEntry,
    action: CompareAction,
) -> OutgoingView {
    match action {
        CompareAction::Unchanged => OutgoingView {
            progress: TransferProgress {
                completed_files: (before.progress.completed_files + 1) as u64,
                skipped_files: (before.progress.skipped_files + 1) as u64,
                reused_bytes: saturated(
                    before.progress.reused_bytes as nat + entry.size as nat,
                ),
                ..before.progress
            },
            ..before
        },
        CompareAction::NeedHash => before,
        CompareAction::Transfer => before,
        _ => with_failure(
            before,
            entry.relative_path@,
            FileOperation::Write,
            "receiver reported "@ + action_name(action),
        ),
    }
}

/// The job once the directories among the first `n` entries are decided.
pub open spec fn after_directories(
    before: OutgoingView,
    entries: Seq<ManifestEntry>,
    decisions: Map<Seq<char>, CompareAction>,
    n: int,
) -> OutgoingView
    decreases n,
{
    if n <= 0 {
        before
    } else {
        let earlier = after_directories(before, entries, decisions, n - 1);
        let entry = entries[n - 1];
        if entry.file_type == FileType::Directory {
            after_directory(earlier, entry, decisions[entry.relative_path@])
        } else {
            earlier
        }
    }
}

/// The job once the files among the first `n` entries are decided.
pub open spec fn after_files(
    before: OutgoingView,
    entries: Seq<ManifestEntry>,
    decisions: Map<Seq<char>, CompareAction>,
    n: int,
) -> OutgoingView
    decreases n,
{
    if n <= 0 {
        before
    } else {
        let earlier = after_files(before, entries, decisions, n - 1);
        let entry = entries[n - 1];
        if entry.file_type == FileType::File {
            after_file(earlier, entry, decisions[entry.relative_path@])
        } else {
            earlier
        }
    }
}

/// The files among the first `n` entries that the receiver may need.
pub open spec fn files_to_hash(
    entries: Seq<ManifestEntry>,
    decisions: Map<Seq<char>, CompareAction>,
    n: int,
) -> Seq<ManifestEntry>
    decreases n,
{
    if n <= 0 {
        Seq::<ManifestEntry>::empty()
    } else {
        let earlier = files_to_hash(entries, decisions, n - 1);
        let entry = entries[n - 1];
        let action = decisions[entry.relative_path@];
        if entry.file_type == FileType::File && (action == CompareAction::NeedHash || action
            == CompareAction::Transfer) {
            earlier.push(entry)
        } else {
            earlier
        }
    }
}

/// The rows that change for the files among the first `n` entries.
pub open spec fn decided_rows(
    entries: Seq<ManifestEntry>,
    decisions: Map<Seq<char>, CompareAction>,
    n: int,
) -> Seq<(Seq<char>, JobFileStatus, Option<Seq<char>>)>
    decreases n,
{
    if n <= 0 {
        Seq::<(Seq<char>, JobFileStatus, Option<Seq<char>>)>::empty()
    } else {
        let earlier = decided_rows(entries, decisions, n - 1);
        let entry = entries[n - 1];
        if entry.file_type != FileType::File {
            earlier
        } else {
            match decisions[entry.relative_path@] {
                CompareAction::Unchanged => earlier.push(
                    (entry.relative_path@, JobFileStatus::Skipped, None),
                ),
                CompareAction::NeedHash => earlier,
                CompareAction::Transfer => earlier,
                _ => earlier.push(
                    (entry.relative_path@, JobFileStatus::Failed, Some("destination conflict"@)),
                ),
            }
        }
    }
}

/// What follows from the decisions of the receiver.
pub struct Classification {
    pub to_hash: Vec<ManifestEntry>,
    pub updates: Vec<FileUpdate>,
}

/// The path of some entry has no decision.
pub open spec fn is_undecided(
    entries: Seq<ManifestEntry>,
    decisions: Map<Seq<char>, CompareAction>,
    path: Seq<char>,
) -> bool {
    entry_paths(entries).contains(path) && !decisions.contains_key(path)
}

fn classify_directories(job: &mut OutgoingJob, entries: &[ManifestEntry], decisions: &Decisions) -> (
    result: Result<(), TransferError>)
    ensures
        match result {
            Ok(_) => {
                &&& forall|i: int|
                    0 <= i < entries@.len() && (#[trigger] entries@[i]).file_type
                        == FileType::Directory ==> decisions@.contains_key(
                        entries@[i].relative_path@,
                    )
                &&& final(job)@ == after_directories(
                    old(job)@,
                    entries@,
                    decisions@,
                    entries@.len() as int,
                )
            },
            Err(TransferError::InvalidData(DataFault::DecisionMissing { path })) => is_undecided(
                entries@,
                decisions@,
                path@,
            ),
            Err(_) => false,
        },
{
    let mut i: usize = 0;
    while i < entries.len()
        invariant
            i <= entries.len(),
            forall|k: int|
                0 <= k < i && (#[trigger] entries@[k]).file_type == FileType::Directory
                    ==> decisions@.contains_key(entries@[k].relative_path@),
            job@ == after_directories(old(job)@, entries@, decisions@, i as int),
        decreases entries.len() - i,
    {
        let entry = &entries[i];
        if entry.file_type == FileType::Directory {
            match decisions.get(entry.relative_path.as_str()) {
                None => {
                    assert(entry_paths(entries@)[i as int] == entry.relative_path@);
                    return Err(
                        TransferError::InvalidData(
                            DataFault::DecisionMissing { path: entry.relative_path.clone() },
                        ),
                    );
                },
                Some(action) => {
                    if action != CompareAction::Unchanged {
                        let mut message = "receiver reported ".to_owned();
                        message.append(name_of(action));
                        message.append(" for directory");
                        job.report(
                            Some(entry.relative_path.clone()),
                            FileOperation::Write,
                            message,
                        );
                    }
                },
            }
        }
        i += 1;
    }
    Ok(())
}

/// Does what the receiver has decided: unchanged files are done, conflicts
/// have failed, and the others are to be hashed.
pub fn classify(job: &mut OutgoingJob, entries: &[ManifestEntry], decisions: &Decisions) -> (result:
    Result<Classification, TransferError>)
    requires
        old(job)@.progress.completed_files + entries@.len() <= u64::MAX,
        old(job)@.progress.skipped_files + entries@.len() <= u64::MAX,
        old(job)@.progress.failed_files + entries@.len() <= u64::MAX,
    ensures
        match result {
            Ok(classification) => {
                let n = entries@.len() as int;
                &&& forall|path: Seq<char>| !is_undecided(entries@, decisions@, path)
                &&& final(job)@ == after_files(
                    after_directories(old(job)@, entries@, decisions@, n),
                    entries@,
                    decisions@,
                    n,
                )
                &&& classification.to_hash@ == files_to_hash(entries@, decisions@, n)
                &&& update_views(classification.updates@) == decided_rows(
                    entries@,
                    decisions@,
                    n,
                )
            },
            Err(TransferError::InvalidData(DataFault::DecisionMissing { path })) => is_undecided(
                entries@,
                decisions@,
                path@,
            ),
            Err(_) => false,
        },
{
    if let Err(error) = classify_directories(job, entries, decisions) {
        return Err(error);
    }
    let ghost start = job@;
    let mut to_hash: Vec<ManifestEntry> = Vec::new();
    let mut updates: Vec<FileUpdate> = Vec::new();
    let mut i: usize = 0;
    proof {
        lemma_directories_keep_progress(
            old(job)@,
            entries@,
            decisions@,
            entries@.len() as int,
        );
        assert(update_views(updates@) =~= decided_rows(entries@, decisions@, 0));
    }
    while i < entries.len()
        invariant
            i <= entries.len(),
            start.progress.completed_files + entries@.len() <= u64::MAX,
            start.progress.skipped_files + entries@.len() <= u64::MAX,
            start.progress.failed_files + entries@.len() <= u64::MAX,
            job@.progress.completed_files <= start.progress.completed_files + i,
            job@.progress.skipped_files <= start.progress.skipped_files + i,
            job@.progress.failed_files <= start.progress.failed_files + i,
            forall|k: int|
                0 <= k < entries@.len() && (#[trigger] entries@[k]).file_type
                    == FileType::Directory ==> decisions@.contains_key(entries@[k].relative_path@),
            forall|k: int|
                0 <= k < i ==> decisions@.contains_key((#[trigger] entries@[k]).relative_path@),
            job@ == after_files(start, entries@, decisions@, i as int),
            to_hash@ == files_to_hash(entries@, decisions@, i as int),
            update_views(updates@) == decided_rows(entries@, decisions@, i as int),
        decreases entries.len() - i,
    {
        let entry = &entries[i];
        let ghost rows = update_views(updates@);
        if entry.file_type == FileType::File {
            let action = match decisions.get(entry.relative_path.as_str()) {
                None => {
                    assert(entry_paths(entries@)[i as int] == entry.relative_path@);
                    return Err(
                        TransferError::InvalidData(
                            DataFault::DecisionMissing { path: entry.relative_path.clone() },
                        ),
                    );
                },
                Some(action) => action,
            };
            match action {
                CompareAction::Unchanged => {
                    job.count_unchanged(entry.size);
                    updates.push(
                        FileUpdate {
                            path: entry.relative_path.clone(),
                            status: JobFileStatus::Skipped,
                            error: None,
                        },
                    );
                    assert(update_views(updates@) =~= rows.push(
                        (entry.relative_path@, JobFileStatus::Skipped, None),
                    ));
                },
                CompareAction::NeedHash => {
                    to_hash.push(entry.duplicate());
                },
                CompareAction::Transfer => {
                    to_hash.push(entry.duplicate());
                },
                _ => {
                    let mut message = "receiver reported ".to_owned();
                    message.append(name_of(action));
                    job.record_file_failure(
                        entry.relative_path.as_str(),
                        FileOperation::Write,
                        message,
                    );
                    updates.push(
                        FileUpdate {
                            path: entry.relative_path.clone(),
                            status: JobFileStatus::Failed,
                            error: Some("destination conflict".to_owned()),
                        },
                    );
                    assert(update_views(updates@) =~= rows.push(
                        (
                            entry.relative_path@,
                            JobFileStatus::Failed,
                            Some("destination conflict"@),
                        ),
                    ));
                },
            }
        }
        i += 1;
    }
    assert forall|path: Seq<char>| !is_undecided(entries@, decisions@, path) by {
        if entry_paths(entries@).contains(path) {
            let k = choose|k: int|
                0 <= k < entry_paths(entries@).len() && entry_paths(entries@)[k] == path;
            assert(decisions@.contains_key(entries@[k].relative_path@));
        }
    }
    Ok(Classification { to_hash, updates })
}

proof fn lemma_directories_keep_progress(
    before: OutgoingView,
    entries: Seq<ManifestEntry>,
    decisions: Map<Seq<char>, CompareAction>,
    n: int,
)
    ensures
        after_directories(before, entries, decisions, n).progress == before.progress,
    decreases n,
{
    if n > 0 {
        lemma_directories_keep_progress(before, entries, decisions, n - 1);
    }
}

/// Every file of the manifest is skipped, hashed or failed, and the counts of
/// skipped and completed files stay in step.
pub proof fn law_every_file_is_classified(
    before: OutgoingView,
    entries: Seq<ManifestEntry>,
    decisions: Map<Seq<char>, CompareAction>,
    n: int,
    i: int,
)
    requires
        is_balanced(before.progress),
        before.progress.completed_files + n <= u64::MAX,
        0 <= i < n <= entries.len(),
        entries[i].file_type == FileType::File,
    ensures
        is_balanced(after_files(before, entries, decisions, n).progress),
        match decisions[entries[i].relative_path@] {
            CompareAction::Unchanged => decided_rows(entries, decisions, n).contains(
                (entries[i].relative_path@, JobFileStatus::Skipped, None),
            ),
            CompareAction::NeedHash => files_to_hash(entries, decisions, n).contains(entries[i]),
            CompareAction::Transfer => files_to_hash(entries, decisions, n).contains(entries[i]),
            _ => after_files(before, entries, decisions, n).failed.contains(
                entries[i].relative_path@,
            ),
        },
{
    lemma_files_stay_balanced(before, entries, decisions, n);
    lemma_file_is_classified(before, entries, decisions, n, i);
}

proof fn lemma_files_stay_balanced(
    before: OutgoingView,
    entries: Seq<ManifestEntry>,
    decisions: Map<Seq<char>, CompareAction>,
    n: int,
)
    requires
        is_balanced(before.progress),
        0 <= n,
        before.progress.completed_files + n <= u64::MAX,
    ensures
        is_balanced(after_files(before, entries, decisions, n).progress),
        after_files(before, entries, decisions, n).progress.completed_files
            <= before.progress.completed_files + n,
    decreases n,
{
    if n > 0 {
        lemma_files_stay_balanced(before, entries, decisions, n - 1);
    }
}

proof fn lemma_file_is_classified(
    before: OutgoingView,
    entries: Seq<ManifestEntry>,
    decisions: Map<Seq<char>, CompareAction>,
    n: int,
    i: int,
)
    requires
        0 <= i < n <= entries.len(),
        entries[i].file_type == FileType::File,
    ensures
        match decisions[entries[i].relative_path@] {
            CompareAction::Unchanged => decided_rows(entries, decisions, n).contains(
                (entries[i].relative_path@, JobFileStatus::Skipped, None),
            ),
            CompareAction::NeedHash => files_to_hash(entries, decisions, n).contains(entries[i]),
            CompareAction::Transfer => files_to_hash(entries, decisions, n).contains(entries[i]),
            _ => after_files(before, entries, decisions, n).failed.contains(
                entries[i].relative_path@,
            ),
        },
    decreases n,
{
    let row = (
        entries[i].relative_path@,
        JobFileStatus::Skipped,
        Option::<Seq<char>>::None,
    );
    let (rows, hashed) = (
        decided_rows(entries, decisions, n),
        files_to_hash(entries, decisions, n),
    );
    if i < n - 1 {
        lemma_file_is_classified(before, entries, decisions, n - 1, i);
        let (earlier_rows, earlier_hashed) = (
            decided_rows(entries, decisions, n - 1),
            files_to_hash(entries, decisions, n - 1),
        );
        if earlier_rows.contains(row) {
            let k = choose|k: int| 0 <= k < earlier_rows.len() && earlier_rows[k] == row;
            assert(rows[k] == row);
        }
        if earlier_hashed.contains(entries[i]) {
            let k = choose|k: int|
                0 <= k < earlier_hashed.len() && earlier_hashed[k] == entries[i];
            assert(hashed[k] == entries[i]);
        }
    } else {
        if decisions[entries[i].relative_path@] == CompareAction::Unchanged {
            assert(rows[rows.len() - 1] == row);
        }
        if hashed.len() > 0 {
            assert(hashed.contains(hashed[hashed.len() - 1]));
        }
    }
}

/// The files to hash are those that the receiver wants hashed or sent, in the order of
/// the manifest, and nothing else.
pub proof fn law_which_files_are_hashed(
    entries: Seq<ManifestEntry>,
    decisions: Map<Seq<char>, CompareAction>,
    n: int,
    entry: ManifestEntry,
)
    requires
        0 <= n <= entries.len(),
    ensures
        files_to_hash(entries, decisions, n).contains(entry) <==> {
            &&& exists|i: int| 0 <= i < n && #[trigger] entries[i] == entry
            &&& entry.file_type == FileType::File
            &&& decisions[entry.relative_path@] == CompareAction::NeedHash
                || decisions[entry.relative_path@] == CompareAction::Transfer
        },
        n > 0 ==> files_to_hash(entries, decisions, n - 1) == files_to_hash(entries, decisions, n).take(
            files_to_hash(entries, decisions, n - 1).len() as int,
        ),
    decreases n,
{
    if n > 0 {
        let earlier = files_to_hash(entries, decisions, n - 1);
        let now = files_to_hash(entries, decisions, n);
        law_which_files_are_hashed(entries, decisions, n - 1, entry);
        assert(now.take(earlier.len() as int) =~= earlier);
        if now.contains(entry) {
            let k = choose|k: int| 0 <= k < now.len() && now[k] == entry;
            if k < earlier.len() {
                assert(earlier[k] == entry);
                assert(earlier.contains(entry));
            } else {
                assert(entries[n - 1] == entry);
            }
        }
        if earlier.contains(entry) {
            let k = choose|k: int| 0 <= k < earlier.len() && earlier[k] == entry;
            assert(now[k] == entry);
        }
        if now.len() > earlier.len() {
            assert(now.last() == entries[n - 1]);
            assert(now.contains(entries[n - 1]));
        }
    }
}

/// The rows that are decided without sending: a file that is unchanged is skipped, one
/// in conflict has failed and says so; files that are to be sent, and directories, get
/// none.
pub proof fn law_which_rows_are_decided(
    entries: Seq<ManifestEntry>,
    decisions: Map<Seq<char>, CompareAction>,
    n: int,
    row: (Seq<char>, JobFileStatus, Option<Seq<char>>),
)
    requires
        0 <= n <= entries.len(),
    ensures
        decided_rows(entries, decisions, n).contains(row) <==> exists|i: int|
            {
                let action = decisions[row.0];
                &&& 0 <= i < n
                &&& (#[trigger] entries[i]).relative_path@ == row.0
                &&& entries[i].file_type == FileType::File
                &&& {
                    ||| action == CompareAction::Unchanged && row.1 == JobFileStatus::Skipped
                        && row.2 is None
                    ||| (action == CompareAction::Conflict || action == CompareAction::Delete)
                        && row.1 == JobFileStatus::Failed && row.2 == Some("destination conflict"@)
                }
            },
    decreases n,
{
    if n > 0 {
        let earlier = decided_rows(entries, decisions, n - 1);
        let now = decided_rows(entries, decisions, n);
        law_which_rows_are_decided(entries, decisions, n - 1, row);
        if now.contains(row) {
            let k = choose|k: int| 0 <= k < now.len() && now[k] == row;
            if k < earlier.len() {
                assert(earlier[k] == row);
                assert(earlier.contains(row));
            } else {
                assert(entries[n - 1].relative_path@ == row.0);
            }
        }
        if earlier.contains(row) {
            let k = choose|k: int| 0 <= k < earlier.len() && earlier[k] == row;
            assert(now[k] == row);
        }
        if now.len() > earlier.len() {
            assert(now.contains(now.last()));
        }
    }
}

/// What the decision on one file does to a job: an unchanged file counts as completed
/// and skipped, and its bytes as reused; one that is to be sent changes nothing yet; any
/// other decision is a failure of that file, recorded once.
pub proof fn law_what_a_decision_does(
    before: OutgoingView,
    entry: ManifestEntry,
    action: CompareAction,
)
    requires
        before.progress.completed_files < u64::MAX,
        before.progress.skipped_files < u64::MAX,
        before.progress.failed_files < u64::MAX,
        before.progress.reused_bytes + entry.size <= u64::MAX,
    ensures
        ({
            let after = after_file(before, entry, action);
            let path = entry.relative_path@;
            let (old_progress, new_progress) = (before.progress, after.progress);
            match action {
                CompareAction::Unchanged => {
                    &&& new_progress.completed_files == old_progress.completed_files + 1
                    &&& new_progress.skipped_files == old_progress.skipped_files + 1
                    &&& new_progress.reused_bytes == old_progress.reused_bytes + entry.size
                    &&& new_progress.transferred_files == old_progress.transferred_files
                    &&& new_progress.transferred_bytes == old_progress.transferred_bytes
                    &&& new_progress.failed_files == old_progress.failed_files
                    &&& after.failed == before.failed && after.errors == before.errors
                },
                CompareAction::NeedHash => after == before,
                CompareAction::Transfer => after == before,
                CompareAction::Conflict | CompareAction::Delete => {
                    &&& after.failed == before.failed.insert(path)
                    &&& before.failed.contains(path) ==> after == before
                    &&& !before.failed.contains(path) ==> {
                        &&& new_progress.failed_files == old_progress.failed_files + 1
                        &&& new_progress.completed_files == old_progress.completed_files
                        &&& after.errors.len() == before.errors.len() + 1
                        &&& after.errors.last().path == Some(path)
                    }
                },
            }
        }),
{
    let after = after_file(before, entry, action);
    if before.failed.contains(entry.relative_path@) {
        assert(before.failed.insert(entry.relative_path@) =~= before.failed);
    }
}

/// The decisions on a manifest are carried out one by one: on its files, and of its
/// directories every one that is not unchanged is reported as an error.
pub proof fn law_decisions_are_carried_out_one_by_one(
    before: OutgoingView,
    entries: Seq<ManifestEntry>,
    decisions: Map<Seq<char>, CompareAction>,
    n: int,
)
    requires
        0 < n <= entries.len(),
    ensures
        ({
            let entry = entries[n - 1];
            let action = decisions[entry.relative_path@];
            let files = after_files(before, entries, decisions, n - 1);
            let directories = after_directories(before, entries, decisions, n - 1);
            let after = after_directories(before, entries, decisions, n);
            &&& after_files(before, entries, decisions, 0) == before
            &&& after_directories(before, entries, decisions, 0) == before
            &&& after_files(before, entries, decisions, n) == if entry.file_type is File {
                after_file(files, entry, action)
            } else {
                files
            }
            &&& entry.file_type is File || action == CompareAction::Unchanged ==> after
                == directories
            &&& entry.file_type is Directory && action != CompareAction::Unchanged ==> {
                &&& after.errors.len() == directories.errors.len() + 1
                &&& after.errors.drop_last() == directories.errors
                &&& after.errors.last().path == Some(entry.relative_path@)
                &&& after.progress == directories.progress
                &&& after.failed == directories.failed
            }
        }),
{
    let directories = after_directories(before, entries, decisions, n - 1);
    let after = after_directories(before, entries, decisions, n);
    if after != directories {
        assert(after.errors.drop_last() =~= directories.errors);
    }
}

/// The answer to a batch is accepted exactly if it is for that batch and decides every
/// entry of it, each once, none that was decided before and nothing else.
pub proof fn law_what_answers_are_accepted(
    answer: crate::stream::CompareDecisionBatch,
    batch: CompareBatch,
    known: Map<Seq<char>, CompareAction>,
)
    requires
        entry_paths(batch.entries@).no_duplicates(),
    ensures
        decides_batch(Response::Compare(answer), batch, known) <==> {
            let decided = decision_paths(answer.decisions@);
            &&& answer.job_id == batch.job_id
            &&& answer.manifest_id == batch.manifest_id
            &&& answer.sequence == batch.sequence
            &&& answer.is_last == batch.is_last
            &&& decided.no_duplicates()
            &&& forall|path: Seq<char>| #[trigger]
                decided.contains(path) <==> entry_paths(batch.entries@).contains(path)
            &&& forall|path: Seq<char>| #[trigger] decided.contains(path) ==> !known.contains_key(path)
        },
{
    let response = Response::Compare(answer);
    let decided = decision_paths(answer.decisions@);
    let entries = entry_paths(batch.entries@);
    if decides_batch(response, batch, known) {
        assert forall|i: int, j: int|
            0 <= i < decided.len() && 0 <= j < decided.len() && i < j implies decided[i]
            != decided[j] by {
            assert(!is_unwanted(decided, entries, known, j));
            assert(decided.take(j)[i] == decided[i]);
        }
        assert(decided.no_duplicates());
        decided.unique_seq_to_set();
        entries.unique_seq_to_set();
        assert forall|path: Seq<char>| #[trigger] decided.contains(path) implies entries.contains(
            path,
        ) && !known.contains_key(path) by {
            let k = choose|k: int| 0 <= k < decided.len() && decided[k] == path;
            assert(!is_unwanted(decided, entries, known, k));
        }
        assert(decided.to_set().subset_of(entries.to_set())) by {
            assert forall|path: Seq<char>| decided.to_set().contains(path) implies entries.to_set().contains(
                path,
            ) by {
                assert(decided.contains(path));
            }
        }
        vstd::set_lib::lemma_subset_equality(decided.to_set(), entries.to_set());
        assert forall|path: Seq<char>| #[trigger] decided.contains(path) <==> entries.contains(
            path,
        ) by {
            assert(decided.to_set().contains(path) <==> entries.to_set().contains(path));
        }
    }
    if answer.job_id == batch.job_id && answer.manifest_id == batch.manifest_id && answer.sequence
        == batch.sequence && answer.is_last == batch.is_last && decided.no_duplicates() && (forall|
        path: Seq<char>,
    | #[trigger]
        decided.contains(path) <==> entries.contains(path)) && (forall|path: Seq<char>| #[trigger]
        decided.contains(path) ==> !known.contains_key(path)) {
        decided.unique_seq_to_set();
        entries.unique_seq_to_set();
        assert(decided.to_set() =~= entries.to_set()) by {
            assert forall|path: Seq<char>| decided.to_set().contains(path) <==> entries.to_set().contains(
                path,
            ) by {
                assert(decided.contains(path) <==> entries.contains(path));
            }
        }
        assert forall|k: int| 0 <= k < decided.len() implies !#[trigger] is_unwanted(
            decided,
            entries,
            known,
            k,
        ) by {
            assert(decided.contains(decided[k]));
            let earlier = decided.take(k);
            if earlier.contains(decided[k]) {
                let j = choose|j: int| 0 <= j < earlier.len() && earlier[j] == decided[k];
                assert(decided[j] == decided[k]);
            }
        }
    }
}

/// An answer is refused exactly where it is not accepted.
pub proof fn law_refused_answers_are_not_accepted(
    error: TransferError,
    response: Response,
    batch: CompareBatch,
    known: Map<Seq<char>, CompareAction>,
)
    requires
        reports_decisions(error, response, batch, known),
    ensures
        !decides_batch(response, batch, known),
{
}

} // verus!
