//! Transfer plans: which chunks of a file are missing, resumed or reused.

use crate::error::{DataFault, TransferError};
use crate::model::{ChunkDescriptor, HashedFile, HashedFileView};
use crate::stream::FilePlan;
use std::collections::HashSet;
use vstd::prelude::*;

verus! {

/// The numbers of the chunks that `keep` selects, in file order.
pub open spec fn indices_where(chunks: Seq<ChunkDescriptor>, keep: spec_fn(u64) -> bool) -> Seq<u64>
    decreases chunks.len(),
{
    if chunks.len() == 0 {
        Seq::<u64>::empty()
    } else {
        let earlier = indices_where(chunks.drop_last(), keep);
        if keep(chunks.last().index) {
            earlier.push(chunks.last().index)
        } else {
            earlier
        }
    }
}

/// The sizes of the chunks that `keep` selects, added up.
pub open spec fn bytes_where(chunks: Seq<ChunkDescriptor>, keep: spec_fn(u64) -> bool) -> nat
    decreases chunks.len(),
{
    if chunks.len() == 0 {
        0
    } else {
        bytes_where(chunks.drop_last(), keep) + if keep(chunks.last().index) {
            chunks.last().size as nat
        } else {
            0
        }
    }
}

/// A byte count that stops at the largest 64-bit number.
pub open spec fn saturated(bytes: nat) -> u64 {
    if bytes <= u64::MAX {
        bytes as u64
    } else {
        u64::MAX
    }
}

/// The plan that sorts the chunks of a file by where their bytes come from:
/// from an earlier attempt, from the destination, or else from the sender.
pub open spec fn is_plan_for(
    plan: FilePlan,
    path: Seq<char>,
    chunks: Seq<ChunkDescriptor>,
    resumed: Set<u64>,
    reused: Set<u64>,
) -> bool {
    let is_resumed = |index: u64| resumed.contains(index);
    let is_reused = |index: u64| !resumed.contains(index) && reused.contains(index);
    let is_missing = |index: u64| !resumed.contains(index) && !reused.contains(index);
    &&& plan.path@ == path
    &&& plan.missing_chunks@ == indices_where(chunks, is_missing)
    &&& plan.missing_bytes == saturated(bytes_where(chunks, is_missing))
    &&& plan.resumed_chunks@ == indices_where(chunks, is_resumed)
    &&& plan.resumed_bytes == saturated(bytes_where(chunks, is_resumed))
    &&& plan.reused_chunks@ == indices_where(chunks, is_reused)
    &&& plan.reused_bytes == saturated(bytes_where(chunks, is_reused))
}

/// Sorts the chunks of a file into a plan.
pub fn plan_file(file: &HashedFile, resumed: &HashSet<u64>, reused: &HashSet<u64>) -> (plan: FilePlan)
    ensures
        is_plan_for(plan, file.entry.relative_path@, file.chunks@, resumed@, reused@),
{
    let ghost is_resumed = |index: u64| resumed@.contains(index);
    let ghost is_reused = |index: u64| !resumed@.contains(index) && reused@.contains(index);
    let ghost is_missing = |index: u64| !resumed@.contains(index) && !reused@.contains(index);
    let mut missing_chunks: Vec<u64> = Vec::new();
    let mut resumed_chunks: Vec<u64> = Vec::new();
    let mut reused_chunks: Vec<u64> = Vec::new();
    let mut missing_bytes: u64 = 0;
    let mut resumed_bytes: u64 = 0;
    let mut reused_bytes: u64 = 0;
    let mut i: usize = 0;
    let ghost chunks = file.chunks@;
    assert(chunks.take(0) =~= Seq::<ChunkDescriptor>::empty());
    while i < file.chunks.len()
        invariant
            i <= file.chunks.len(),
            chunks == file.chunks@,
            is_resumed == (|index: u64| resumed@.contains(index)),
            is_reused == (|index: u64| !resumed@.contains(index) && reused@.contains(index)),
            is_missing == (|index: u64| !resumed@.contains(index) && !reused@.contains(index)),
            missing_chunks@ == indices_where(chunks.take(i as int), is_missing),
            resumed_chunks@ == indices_where(chunks.take(i as int), is_resumed),
            reused_chunks@ == indices_where(chunks.take(i as int), is_reused),
            missing_bytes == saturated(bytes_where(chunks.take(i as int), is_missing)),
            resumed_bytes == saturated(bytes_where(chunks.take(i as int), is_resumed)),
            reused_bytes == saturated(bytes_where(chunks.take(i as int), is_reused)),
        decreases file.chunks.len() - i,
    {
        let chunk = file.chunks[i];
        assert(chunks.take(i + 1).drop_last() =~= chunks.take(i as int));
        assert(chunks.take(i + 1).last() == chunk);
        if resumed.contains(&chunk.index) {
            resumed_chunks.push(chunk.index);
            resumed_bytes = resumed_bytes.saturating_add(chunk.size);
        } else if reused.contains(&chunk.index) {
            reused_chunks.push(chunk.index);
            reused_bytes = reused_bytes.saturating_add(chunk.size);
        } else {
            missing_chunks.push(chunk.index);
            missing_bytes = missing_bytes.saturating_add(chunk.size);
        }
        i += 1;
    }
    assert(chunks.take(i as int) =~= chunks);
    FilePlan {
        path: file.entry.relative_path.clone(),
        missing_chunks,
        missing_bytes,
        resumed_chunks,
        resumed_bytes,
        reused_chunks,
        reused_bytes,
    }
}

/// The plan of a file whose whole content is already in place.
pub fn plan_complete_file(file: &HashedFile) -> (plan: FilePlan)
    ensures
        plan.path@ == file.entry.relative_path@,
        plan.missing_chunks@ == Seq::<u64>::empty(),
        plan.missing_bytes == 0,
        plan.resumed_chunks@ == Seq::<u64>::empty(),
        plan.resumed_bytes == 0,
        plan.reused_chunks@ == indices_where(file.chunks@, |index: u64| true),
        plan.reused_bytes == file.entry.size,
{
    let ghost all = |index: u64| true;
    let ghost chunks = file.chunks@;
    let mut reused_chunks: Vec<u64> = Vec::new();
    let mut i: usize = 0;
    assert(chunks.take(0) =~= Seq::<ChunkDescriptor>::empty());
    while i < file.chunks.len()
        invariant
            i <= file.chunks.len(),
            chunks == file.chunks@,
            all == (|index: u64| true),
            reused_chunks@ == indices_where(chunks.take(i as int), all),
        decreases file.chunks.len() - i,
    {
        assert(chunks.take(i + 1).drop_last() =~= chunks.take(i as int));
        reused_chunks.push(file.chunks[i].index);
        i += 1;
    }
    assert(chunks.take(i as int) =~= chunks);
    FilePlan {
        path: file.entry.relative_path.clone(),
        missing_chunks: Vec::new(),
        missing_bytes: 0,
        resumed_chunks: Vec::new(),
        resumed_bytes: 0,
        reused_chunks,
        reused_bytes: file.entry.size,
    }
}

/// `index` names a chunk of the file.
pub open spec fn is_known(chunks: Seq<ChunkDescriptor>, index: u64) -> bool {
    index < chunks.len() && chunks[index as int].index == index
}

/// The sizes of the named chunks added up.
pub open spec fn bytes_of(chunks: Seq<ChunkDescriptor>, indices: Seq<u64>) -> nat
    decreases indices.len(),
{
    if indices.len() == 0 {
        0
    } else {
        bytes_of(chunks, indices.drop_last()) + chunks[indices.last() as int].size as nat
    }
}

/// What is wrong with a plan.
#[derive(Debug, Clone, Copy, PartialEq, Eq, Structural)]
pub enum PlanFault {
    Unknown { index: u64 },
    Repeated { index: u64 },
    TotalsOverflow,
    TotalsInconsistent,
}

/// The first thing wrong with one list of a plan, given the chunks that the
/// lists before it name.
pub open spec fn category_fault(
    chunks: Seq<ChunkDescriptor>,
    earlier: Seq<u64>,
    indices: Seq<u64>,
) -> Option<PlanFault>
    decreases indices.len(),
{
    if indices.len() == 0 {
        None
    } else {
        match category_fault(chunks, earlier, indices.drop_last()) {
            Some(fault) => Some(fault),
            None => {
                let index = indices.last();
                if !is_known(chunks, index) {
                    Some(PlanFault::Unknown { index })
                } else if earlier.contains(index) || indices.drop_last().contains(index) {
                    Some(PlanFault::Repeated { index })
                } else if bytes_of(chunks, indices) > u64::MAX {
                    Some(PlanFault::TotalsOverflow)
                } else {
                    None
                }
            },
        }
    }
}

/// The first thing wrong with the lists and totals of a plan.
pub open spec fn plan_fault(chunks: Seq<ChunkDescriptor>, plan: FilePlan) -> Option<PlanFault> {
    let missing = plan.missing_chunks@;
    let resumed = plan.resumed_chunks@;
    let reused = plan.reused_chunks@;
    match category_fault(chunks, Seq::<u64>::empty(), missing) {
        Some(fault) => Some(fault),
        None => match category_fault(chunks, missing, resumed) {
            Some(fault) => Some(fault),
            None => match category_fault(chunks, missing + resumed, reused) {
                Some(fault) => Some(fault),
                None => if missing.len() + resumed.len() + reused.len() != chunks.len()
                    || bytes_of(chunks, missing) != plan.missing_bytes || bytes_of(chunks, resumed)
                    != plan.resumed_bytes || bytes_of(chunks, reused) != plan.reused_bytes {
                    Some(PlanFault::TotalsInconsistent)
                } else {
                    None
                },
            },
        },
    }
}

proof fn lemma_category_fault_is_kept(
    chunks: Seq<ChunkDescriptor>,
    earlier: Seq<u64>,
    indices: Seq<u64>,
    n: int,
)
    requires
        0 <= n <= indices.len(),
        category_fault(chunks, earlier, indices.take(n)) is Some,
    ensures
        category_fault(chunks, earlier, indices) == category_fault(
            chunks,
            earlier,
            indices.take(n),
        ),
    decreases indices.len(),
{
    if n == indices.len() {
        assert(indices.take(n) =~= indices);
    } else {
        assert(indices.drop_last().take(n) =~= indices.take(n));
        lemma_category_fault_is_kept(chunks, earlier, indices.drop_last(), n);
    }
}

/// `seen` marks the chunks that `named` names.
spec fn marks(seen: Seq<bool>, named: Seq<u64>) -> bool {
    forall|i: int| 0 <= i < seen.len() ==> (#[trigger] seen[i] <==> named.contains(i as u64))
}

fn check_category(
    chunks: &Vec<ChunkDescriptor>,
    seen: &mut Vec<bool>,
    earlier: Ghost<Seq<u64>>,
    indices: &Vec<u64>,
) -> (result: Result<u64, PlanFault>)
    requires
        old(seen)@.len() == chunks@.len(),
        marks(old(seen)@, earlier@),
    ensures
        final(seen)@.len() == chunks@.len(),
        match result {
            Ok(total) => {
                &&& category_fault(chunks@, earlier@, indices@) is None
                &&& total == bytes_of(chunks@, indices@)
                &&& marks(final(seen)@, earlier@ + indices@)
            },
            Err(fault) => category_fault(chunks@, earlier@, indices@) == Some(fault),
        },
{
    let mut total: u64 = 0;
    let mut i: usize = 0;
    assert(indices@.take(0) =~= Seq::<u64>::empty());
    assert(earlier@ + indices@.take(0) =~= earlier@);
    while i < indices.len()
        invariant
            i <= indices.len(),
            seen@.len() == chunks@.len(),
            category_fault(chunks@, earlier@, indices@.take(i as int)) is None,
            total == bytes_of(chunks@, indices@.take(i as int)),
            marks(seen@, earlier@ + indices@.take(i as int)),
        decreases indices.len() - i,
    {
        let index = indices[i];
        let ghost now = indices@.take(i as int);
        let ghost next = indices@.take(i + 1);
        assert(next.drop_last() =~= now);
        assert(next.last() == index);
        proof {
            if category_fault(chunks@, earlier@, next) is Some {
                lemma_category_fault_is_kept(chunks@, earlier@, indices@, i + 1);
            }
        }
        if index as u128 >= chunks.len() as u128 {
            return Err(PlanFault::Unknown { index });
        }
        let position = index as usize;
        if chunks[position].index != index {
            return Err(PlanFault::Unknown { index });
        }
        let ghost named = earlier@ + now;
        assert(named.contains(index) <==> earlier@.contains(index) || now.contains(index)) by {
            if earlier@.contains(index) {
                let k = choose|k: int| 0 <= k < earlier@.len() && earlier@[k] == index;
                assert(named[k] == index);
            }
            if now.contains(index) {
                let k = choose|k: int| 0 <= k < now.len() && now[k] == index;
                assert(named[earlier@.len() + k] == index);
            }
            if named.contains(index) {
                let k = choose|k: int| 0 <= k < named.len() && named[k] == index;
                if k < earlier@.len() {
                    assert(earlier@[k] == index);
                } else {
                    assert(now[k - earlier@.len()] == index);
                }
            }
        }
        assert(seen@[position as int] <==> named.contains(index));
        if seen[position] {
            return Err(PlanFault::Repeated { index });
        }
        match total.checked_add(chunks[position].size) {
            None => {
                return Err(PlanFault::TotalsOverflow);
            },
            Some(sum) => {
                total = sum;
            },
        }
        let ghost before = seen@;
        seen.set(position, true);
        proof {
            let after = earlier@ + next;
            assert(after =~= named.push(index));
            assert forall|k: int| 0 <= k < seen@.len() implies (#[trigger] seen@[k]
                <==> after.contains(k as u64)) by {
                if k == position {
                    assert(after[after.len() - 1] == index);
                } else {
                    assert(before[k] <==> named.contains(k as u64));
                    if named.contains(k as u64) {
                        let j = choose|j: int| 0 <= j < named.len() && named[j] == k as u64;
                        assert(after[j] == k as u64);
                    }
                    if after.contains(k as u64) {
                        let j = choose|j: int| 0 <= j < after.len() && after[j] == k as u64;
                        assert(j < named.len());
                        assert(named[j] == k as u64);
                    }
                }
            }
        }
        i += 1;
    }
    assert(indices@.take(i as int) =~= indices@);
    Ok(total)
}

fn check_plan(chunks: &Vec<ChunkDescriptor>, plan: &FilePlan) -> (fault: Option<PlanFault>)
    ensures
        fault == plan_fault(chunks@, *plan),
{
    let mut seen: Vec<bool> = Vec::new();
    let mut i: usize = 0;
    while i < chunks.len()
        invariant
            i <= chunks.len(),
            seen.len() == i,
            forall|k: int| 0 <= k < i ==> !seen@[k],
        decreases chunks.len() - i,
    {
        seen.push(false);
        i += 1;
    }
    let ghost missing = plan.missing_chunks@;
    let ghost resumed = plan.resumed_chunks@;
    let missing_bytes = match check_category(
        chunks,
        &mut seen,
        Ghost(Seq::<u64>::empty()),
        &plan.missing_chunks,
    ) {
        Ok(total) => total,
        Err(fault) => {
            return Some(fault);
        },
    };
    assert(Seq::<u64>::empty() + missing =~= missing);
    let resumed_bytes = match check_category(
        chunks,
        &mut seen,
        Ghost(missing),
        &plan.resumed_chunks,
    ) {
        Ok(total) => total,
        Err(fault) => {
            return Some(fault);
        },
    };
    let reused_bytes = match check_category(
        chunks,
        &mut seen,
        Ghost(missing + resumed),
        &plan.reused_chunks,
    ) {
        Ok(total) => total,
        Err(fault) => {
            return Some(fault);
        },
    };
    let named: u128 = plan.missing_chunks.len() as u128 + plan.resumed_chunks.len() as u128
        + plan.reused_chunks.len() as u128;
    if named != chunks.len() as u128 || missing_bytes != plan.missing_bytes || resumed_bytes
        != plan.resumed_bytes || reused_bytes != plan.reused_bytes {
        return Some(PlanFault::TotalsInconsistent);
    }
    None
}

/// The fault as it is reported for a plan.
pub open spec fn reports(error: TransferError, path: Seq<char>, fault: PlanFault) -> bool {
    match (error, fault) {
        (
            TransferError::InvalidData(DataFault::PlanChunkUnknown { path: p, index: i }),
            PlanFault::Unknown { index },
        ) => p@ == path && i == index,
        (
            TransferError::InvalidData(DataFault::PlanChunkRepeated { path: p, index: i }),
            PlanFault::Repeated { index },
        ) => p@ == path && i == index,
        (
            TransferError::InvalidData(DataFault::PlanTotalsOverflow),
            PlanFault::TotalsOverflow,
        ) => true,
        (
            TransferError::InvalidData(DataFault::PlanTotalsInconsistent { path: p }),
            PlanFault::TotalsInconsistent,
        ) => p@ == path,
        _ => false,
    }
}

/// Accepts a plan that names every chunk of the file exactly once and whose
/// byte counts are right.
pub fn validate_file_plan(file: &HashedFile, plan: &FilePlan) -> (result: Result<(), TransferError>)
    ensures
        match result {
            Ok(_) => plan.path@ == file.entry.relative_path@ && plan_fault(file.chunks@, *plan)
                is None,
            Err(TransferError::InvalidData(DataFault::PlanPathMismatch { path, expected })) => {
                &&& plan.path@ != file.entry.relative_path@
                &&& path@ == plan.path@
                &&& expected@ == file.entry.relative_path@
            },
            Err(error) => {
                &&& plan.path@ == file.entry.relative_path@
                &&& plan_fault(file.chunks@, *plan) matches Some(fault) && reports(
                    error,
                    plan.path@,
                    fault,
                )
            },
        },
{
    if plan.path != file.entry.relative_path {
        return Err(
            TransferError::InvalidData(
                DataFault::PlanPathMismatch {
                    path: plan.path.clone(),
                    expected: file.entry.relative_path.clone(),
                },
            ),
        );
    }
    match check_plan(&file.chunks, plan) {
        None => Ok(()),
        Some(fault) => {
            let path = plan.path.clone();
            Err(
                TransferError::InvalidData(
                    match fault {
                        PlanFault::Unknown { index } => DataFault::PlanChunkUnknown { path, index },
                        PlanFault::Repeated { index } => DataFault::PlanChunkRepeated {
                            path,
                            index,
                        },
                        PlanFault::TotalsOverflow => DataFault::PlanTotalsOverflow,
                        PlanFault::TotalsInconsistent => DataFault::PlanTotalsInconsistent { path },
                    },
                ),
            )
        },
    }
}

/// Every chunk carries its own position.
spec fn is_numbered(chunks: Seq<ChunkDescriptor>) -> bool {
    forall|i: int| 0 <= i < chunks.len() ==> (#[trigger] chunks[i]).index == i
}

proof fn lemma_selection(
    chunks: Seq<ChunkDescriptor>,
    n: int,
    keep: spec_fn(u64) -> bool,
    earlier: Seq<u64>,
)
    requires
        is_numbered(chunks),
        0 <= n <= chunks.len() <= u64::MAX,
        crate::hashing::total_size(chunks) <= u64::MAX,
        forall|i: int| 0 <= i < earlier.len() ==> !keep(#[trigger] earlier[i]),
    ensures
        forall|i: int|
            #![trigger indices_where(chunks.take(n), keep)[i]]
            0 <= i < indices_where(chunks.take(n), keep).len() ==> indices_where(
                chunks.take(n),
                keep,
            )[i] < n && keep(indices_where(chunks.take(n), keep)[i]),
        category_fault(chunks, earlier, indices_where(chunks.take(n), keep)) is None,
        bytes_of(chunks, indices_where(chunks.take(n), keep)) == bytes_where(chunks.take(n), keep),
        bytes_where(chunks.take(n), keep) <= crate::hashing::total_size(chunks.take(n)),
    decreases n,
{
    if n == 0 {
        assert(chunks.take(0) =~= Seq::<ChunkDescriptor>::empty());
    } else {
        let m = n - 1;
        lemma_selection(chunks, m, keep, earlier);
        assert(chunks.take(n).drop_last() =~= chunks.take(m));
        assert(chunks.take(n).last() == chunks[m]);
        let before = indices_where(chunks.take(m), keep);
        let after = indices_where(chunks.take(n), keep);
        if keep(m as u64) {
            assert(after =~= before.push(m as u64));
            assert(after.drop_last() =~= before);
            assert(!before.contains(m as u64));
            assert(!earlier.contains(m as u64));
            crate::hashing::lemma_total_size_grows(chunks, n);
            assert(bytes_of(chunks, after) <= u64::MAX);
        }
    }
}

proof fn lemma_selections_cover(
    chunks: Seq<ChunkDescriptor>,
    n: int,
    a: spec_fn(u64) -> bool,
    b: spec_fn(u64) -> bool,
    c: spec_fn(u64) -> bool,
)
    requires
        0 <= n <= chunks.len(),
        forall|x: u64| #![trigger a(x)] (a(x) || b(x) || c(x)) && !(a(x) && b(x)) && !(a(x) && c(x))
            && !(b(x) && c(x)),
    ensures
        indices_where(chunks.take(n), a).len() + indices_where(chunks.take(n), b).len()
            + indices_where(chunks.take(n), c).len() == n,
        bytes_where(chunks.take(n), a) + bytes_where(chunks.take(n), b) + bytes_where(
            chunks.take(n),
            c,
        ) == crate::hashing::total_size(chunks.take(n)),
    decreases n,
{
    if n == 0 {
        assert(chunks.take(0) =~= Seq::<ChunkDescriptor>::empty());
    } else {
        lemma_selections_cover(chunks, n - 1, a, b, c);
        assert(chunks.take(n).drop_last() =~= chunks.take(n - 1));
        let x = chunks.take(n).last().index;
        assert(a(x) || b(x) || c(x));
    }
}

proof fn lemma_accepted_chunks_are_numbered(file: HashedFileView, chunk_size: u64)
    requires
        crate::hashing::layout_fault(file, chunk_size) is None,
    ensures
        is_numbered(file.chunks),
        crate::hashing::total_size(file.chunks) == file.entry.metadata.size,
{
    crate::hashing::law_accepted_layout_is_regular(file, chunk_size);
}

/// The plan that a receiver makes for an accepted file is one that the sender
/// accepts, whatever was resumed or reused; its three byte counts add up to the
/// size of the file.
pub proof fn law_planned_file_is_accepted(
    file: HashedFileView,
    chunk_size: u64,
    plan: FilePlan,
    resumed: Set<u64>,
    reused: Set<u64>,
)
    requires
        crate::hashing::layout_fault(file, chunk_size) is None,
        is_plan_for(plan, file.entry.path, file.chunks, resumed, reused),
    ensures
        plan_fault(file.chunks, plan) is None,
        plan.missing_bytes + plan.resumed_bytes + plan.reused_bytes == file.entry.metadata.size,
{
    let chunks = file.chunks;
    let n = chunks.len() as int;
    let is_resumed = |index: u64| resumed.contains(index);
    let is_reused = |index: u64| !resumed.contains(index) && reused.contains(index);
    let is_missing = |index: u64| !resumed.contains(index) && !reused.contains(index);
    lemma_accepted_chunks_are_numbered(file, chunk_size);
    assert(chunks.take(n) =~= chunks);
    let missing = indices_where(chunks, is_missing);
    let again = indices_where(chunks, is_resumed);
    lemma_selection(chunks, n, is_missing, Seq::<u64>::empty());
    assert forall|i: int| 0 <= i < missing.len() implies !is_resumed(#[trigger] missing[i]) by {
        assert(is_missing(missing[i]));
    }
    lemma_selection(chunks, n, is_resumed, missing);
    let both = missing + again;
    assert forall|i: int| 0 <= i < both.len() implies !is_reused(#[trigger] both[i]) by {
        if i < missing.len() {
            assert(is_missing(missing[i]));
        } else {
            assert(is_resumed(again[i - missing.len()]));
        }
    }
    lemma_selection(chunks, n, is_reused, both);
    assert forall|x: u64|
        #![trigger is_missing(x)]
        (is_missing(x) || is_resumed(x) || is_reused(x)) && !(is_missing(x) && is_resumed(x)) && !(
        is_missing(x) && is_reused(x)) && !(is_resumed(x) && is_reused(x)) by {}
    lemma_selections_cover(chunks, n, is_missing, is_resumed, is_reused);
}

/// The plan of a file that is completely in place is one that the sender accepts.
pub proof fn law_complete_plan_is_accepted(file: HashedFileView, chunk_size: u64, plan: FilePlan)
    requires
        crate::hashing::layout_fault(file, chunk_size) is None,
        plan.missing_chunks@ == Seq::<u64>::empty(),
        plan.missing_bytes == 0,
        plan.resumed_chunks@ == Seq::<u64>::empty(),
        plan.resumed_bytes == 0,
        plan.reused_chunks@ == indices_where(file.chunks, |index: u64| true),
        plan.reused_bytes == file.entry.metadata.size,
    ensures
        plan_fault(file.chunks, plan) is None,
{
    let chunks = file.chunks;
    let n = chunks.len() as int;
    let all = |index: u64| true;
    let none = |index: u64| false;
    lemma_accepted_chunks_are_numbered(file, chunk_size);
    assert(chunks.take(n) =~= chunks);
    let nothing = Seq::<u64>::empty();
    assert(nothing + nothing =~= nothing);
    lemma_selection(chunks, n, all, nothing);
    lemma_nothing_selected(chunks);
    assert forall|x: u64|
        #![trigger all(x)]
        (all(x) || none(x) || none(x)) && !(all(x) && none(x)) && !(all(x) && none(x)) && !(none(x)
            && none(x)) by {}
    lemma_selections_cover(chunks, n, all, none, none);
}

proof fn lemma_nothing_selected(chunks: Seq<ChunkDescriptor>)
    ensures
        indices_where(chunks, |index: u64| false).len() == 0,
        bytes_where(chunks, |index: u64| false) == 0,
    decreases chunks.len(),
{
    if chunks.len() > 0 {
        lemma_nothing_selected(chunks.drop_last());
    }
}

pub proof fn lemma_category_facts(chunks: Seq<ChunkDescriptor>, earlier: Seq<u64>, indices: Seq<u64>)
    requires
        category_fault(chunks, earlier, indices) is None,
    ensures
        indices.no_duplicates(),
        forall|i: int|
            0 <= i < indices.len() ==> is_known(chunks, #[trigger] indices[i]) && !earlier.contains(
                indices[i],
            ),
    decreases indices.len(),
{
    if indices.len() > 0 {
        let shorter = indices.drop_last();
        lemma_category_facts(chunks, earlier, shorter);
        assert forall|i: int, j: int|
            0 <= i < indices.len() && 0 <= j < indices.len() && i != j implies indices[i]
            != indices[j] by {
            if i == indices.len() - 1 {
                assert(shorter[j] == indices[j]);
                assert(shorter.contains(indices[j]));
            } else if j == indices.len() - 1 {
                assert(shorter[i] == indices[i]);
                assert(shorter.contains(indices[i]));
            } else {
                assert(shorter[i] == indices[i] && shorter[j] == indices[j]);
            }
        }
        assert forall|i: int| 0 <= i < indices.len() implies is_known(chunks, #[trigger] indices[i])
            && !earlier.contains(indices[i]) by {
            if i < indices.len() - 1 {
                assert(shorter[i] == indices[i]);
            }
        }
    }
}

/// An accepted plan names every chunk of the file exactly once: the three lists
/// hold no number twice, share none, and together hold every one.
pub proof fn law_accepted_plan_is_a_partition(chunks: Seq<ChunkDescriptor>, plan: FilePlan)
    requires
        plan_fault(chunks, plan) is None,
        chunks.len() <= u64::MAX,
    ensures
        (plan.missing_chunks@ + plan.resumed_chunks@ + plan.reused_chunks@).no_duplicates(),
        forall|i: u64|
            i < chunks.len() ==> (plan.missing_chunks@ + plan.resumed_chunks@
                + plan.reused_chunks@).contains(i),
{
    let missing = plan.missing_chunks@;
    let resumed = plan.resumed_chunks@;
    let reused = plan.reused_chunks@;
    let nothing = Seq::<u64>::empty();
    let both = missing + resumed;
    let all = both + reused;
    lemma_category_facts(chunks, nothing, missing);
    lemma_category_facts(chunks, missing, resumed);
    lemma_category_facts(chunks, both, reused);
    assert forall|i: int, j: int| 0 <= i < all.len() && 0 <= j < all.len() && i < j implies all[i]
        != all[j] by {
        if j >= both.len() {
            let y = reused[j - both.len()];
            if i < both.len() {
                assert(both.contains(both[i]));
            } else {
                assert(all[i] == reused[i - both.len()]);
            }
        } else if j >= missing.len() {
            let y = resumed[j - missing.len()];
            if i < missing.len() {
                assert(missing.contains(missing[i]));
            } else {
                assert(all[i] == resumed[i - missing.len()]);
            }
        } else {
            assert(all[i] == missing[i] && all[j] == missing[j]);
        }
    }
    assert(all.no_duplicates());
    let n = chunks.len();
    let positions = Seq::new(n, |k: int| k as u64);
    let named = all.to_set();
    let range = positions.to_set();
    all.unique_seq_to_set();
    assert(positions.no_duplicates());
    positions.unique_seq_to_set();
    assert(named.subset_of(range)) by {
        assert forall|x: u64| named.contains(x) implies range.contains(x) by {
            let k = choose|k: int| 0 <= k < all.len() && all[k] == x;
            if k < missing.len() {
                assert(is_known(chunks, missing[k]));
            } else if k < both.len() {
                assert(is_known(chunks, resumed[k - missing.len()]));
            } else {
                assert(is_known(chunks, reused[k - both.len()]));
            }
            assert(positions[x as int] == x);
        }
    }
    vstd::set_lib::lemma_subset_equality(named, range);
    assert forall|i: u64| i < chunks.len() implies all.contains(i) by {
        assert(positions[i as int] == i);
        assert(range.contains(i));
        assert(named.contains(i));
    }
}

proof fn lemma_selected_by_number(chunks: Seq<ChunkDescriptor>, n: int, keep: spec_fn(u64) -> bool)
    requires
        is_numbered(chunks),
        0 <= n <= chunks.len() <= u64::MAX,
    ensures
        forall|x: u64| #[trigger]
            indices_where(chunks.take(n), keep).contains(x) <==> x < n && keep(x),
        forall|i: int, j: int|
            #![trigger indices_where(chunks.take(n), keep)[i], indices_where(chunks.take(n), keep)[j]]
            0 <= i < j < indices_where(chunks.take(n), keep).len() ==> indices_where(
                chunks.take(n),
                keep,
            )[i] < indices_where(chunks.take(n), keep)[j],
    decreases n,
{
    let after = indices_where(chunks.take(n), keep);
    if n == 0 {
        assert(chunks.take(0) =~= Seq::<ChunkDescriptor>::empty());
    } else {
        let m = n - 1;
        lemma_selected_by_number(chunks, m, keep);
        assert(chunks.take(n).drop_last() =~= chunks.take(m));
        assert(chunks.take(n).last() == chunks[m]);
        let before = indices_where(chunks.take(m), keep);
        assert forall|x: u64| #[trigger] after.contains(x) <==> x < n && keep(x) by {
            if keep(m as u64) {
                assert(after =~= before.push(m as u64));
                assert(after[before.len() as int] == m as u64);
                if after.contains(x) {
                    let k = choose|k: int| 0 <= k < after.len() && after[k] == x;
                    if k < before.len() {
                        assert(before[k] == x);
                        assert(before.contains(x));
                    }
                }
                if x < n && keep(x) && x != m {
                    assert(before.contains(x));
                    let k = choose|k: int| 0 <= k < before.len() && before[k] == x;
                    assert(after[k] == x);
                }
            } else {
                assert(after == before);
                assert(before.contains(x) <==> x < m && keep(x));
            }
        }
        assert forall|i: int, j: int|
            #![trigger after[i], after[j]]
            0 <= i < j < after.len() implies after[i] < after[j] by {
            if keep(m as u64) {
                assert(after =~= before.push(m as u64));
                assert(after[i] == before[i]);
                assert(before.contains(before[i]));
                if j < before.len() {
                    assert(after[j] == before[j]);
                }
            }
        }
    }
}

/// A plan says of every chunk what is to become of it: what was received before is
/// resumed, else what is at the destination is reused, and all else is missing. Each
/// list is in file order and holds nothing but chunks of the file, and each byte count
/// is that of the chunks in its list.
pub proof fn law_plan_sorts_every_chunk(
    plan: FilePlan,
    path: Seq<char>,
    chunks: Seq<ChunkDescriptor>,
    resumed: Set<u64>,
    reused: Set<u64>,
)
    requires
        is_plan_for(plan, path, chunks, resumed, reused),
        forall|i: int| 0 <= i < chunks.len() ==> (#[trigger] chunks[i]).index == i,
        chunks.len() <= u64::MAX,
        crate::hashing::total_size(chunks) <= u64::MAX,
    ensures
        plan.path@ == path,
        forall|i: u64|
            i < chunks.len() ==> {
                &&& #[trigger] plan.resumed_chunks@.contains(i) <==> resumed.contains(i)
                &&& #[trigger] plan.reused_chunks@.contains(i) <==> reused.contains(i)
                    && !resumed.contains(i)
                &&& #[trigger] plan.missing_chunks@.contains(i) <==> !reused.contains(i)
                    && !resumed.contains(i)
            },
        forall|i: u64|
            #![trigger plan.resumed_chunks@.contains(i)]
            #![trigger plan.reused_chunks@.contains(i)]
            #![trigger plan.missing_chunks@.contains(i)]
            plan.resumed_chunks@.contains(i) || plan.reused_chunks@.contains(i)
                || plan.missing_chunks@.contains(i) ==> i < chunks.len(),
        forall|i: int, j: int|
            0 <= i < j < plan.missing_chunks@.len() ==> plan.missing_chunks@[i]
                < plan.missing_chunks@[j],
        forall|i: int, j: int|
            0 <= i < j < plan.resumed_chunks@.len() ==> plan.resumed_chunks@[i]
                < plan.resumed_chunks@[j],
        forall|i: int, j: int|
            0 <= i < j < plan.reused_chunks@.len() ==> plan.reused_chunks@[i]
                < plan.reused_chunks@[j],
        plan.missing_bytes == bytes_of(chunks, plan.missing_chunks@),
        plan.resumed_bytes == bytes_of(chunks, plan.resumed_chunks@),
        plan.reused_bytes == bytes_of(chunks, plan.reused_chunks@),
{
    let n = chunks.len() as int;
    let is_resumed = |index: u64| resumed.contains(index);
    let is_reused = |index: u64| !resumed.contains(index) && reused.contains(index);
    let is_missing = |index: u64| !resumed.contains(index) && !reused.contains(index);
    let nothing = Seq::<u64>::empty();
    assert(chunks.take(n) =~= chunks);
    lemma_selected_by_number(chunks, n, is_resumed);
    lemma_selected_by_number(chunks, n, is_reused);
    lemma_selected_by_number(chunks, n, is_missing);
    lemma_selection(chunks, n, is_resumed, nothing);
    lemma_selection(chunks, n, is_reused, nothing);
    lemma_selection(chunks, n, is_missing, nothing);
}

/// The bytes of some chunks are the sizes of the chunks, added up one by one in
/// whatever order they are named.
pub proof fn law_bytes_are_added_up(chunks: Seq<ChunkDescriptor>, a: Seq<u64>, b: Seq<u64>, i: u64)
    ensures
        bytes_of(chunks, Seq::empty()) == 0,
        bytes_of(chunks, seq![i]) == chunks[i as int].size,
        bytes_of(chunks, a + b) == bytes_of(chunks, a) + bytes_of(chunks, b),
    decreases b.len(),
{
    assert(seq![i].drop_last() =~= Seq::<u64>::empty());
    assert(bytes_of(chunks, seq![i].drop_last()) == 0);
    if b.len() == 0 {
        assert(a + b =~= a);
    } else {
        law_bytes_are_added_up(chunks, a, b.drop_last(), i);
        assert((a + b).drop_last() =~= a + b.drop_last());
        assert((a + b).last() == b.last());
    }
}

proof fn lemma_category_without_fault(
    chunks: Seq<ChunkDescriptor>,
    earlier: Seq<u64>,
    indices: Seq<u64>,
)
    requires
        indices.no_duplicates(),
        forall|i: int|
            0 <= i < indices.len() ==> is_known(chunks, #[trigger] indices[i]) && !earlier.contains(
                indices[i],
            ),
        bytes_of(chunks, indices) <= u64::MAX,
    ensures
        category_fault(chunks, earlier, indices) is None,
    decreases indices.len(),
{
    if indices.len() > 0 {
        let shorter = indices.drop_last();
        assert forall|i: int, j: int|
            0 <= i < shorter.len() && 0 <= j < shorter.len() && i != j implies shorter[i]
            != shorter[j] by {
            assert(shorter[i] == indices[i] && shorter[j] == indices[j]);
        }
        assert forall|i: int| 0 <= i < shorter.len() implies is_known(chunks, #[trigger] shorter[i])
            && !earlier.contains(shorter[i]) by {
            assert(shorter[i] == indices[i]);
        }
        lemma_category_without_fault(chunks, earlier, shorter);
        let last = indices.len() - 1;
        assert(is_known(chunks, indices[last]));
        if shorter.contains(indices.last()) {
            let k = choose|k: int| 0 <= k < shorter.len() && shorter[k] == indices.last();
            assert(indices[k] == indices[last]);
        }
    }
}

/// Which plans a sender accepts: exactly those whose three lists together name every
/// chunk of the file once and nothing else, with the byte counts of the chunks in them.
pub proof fn law_what_plans_are_accepted(chunks: Seq<ChunkDescriptor>, plan: FilePlan)
    requires
        forall|i: int| 0 <= i < chunks.len() ==> (#[trigger] chunks[i]).index == i,
        chunks.len() <= u64::MAX,
    ensures
        plan_fault(chunks, plan) is None <==> {
            let all = plan.missing_chunks@ + plan.resumed_chunks@ + plan.reused_chunks@;
            &&& all.no_duplicates()
            &&& forall|i: u64| #[trigger] all.contains(i) <==> i < chunks.len()
            &&& plan.missing_bytes == bytes_of(chunks, plan.missing_chunks@)
            &&& plan.resumed_bytes == bytes_of(chunks, plan.resumed_chunks@)
            &&& plan.reused_bytes == bytes_of(chunks, plan.reused_chunks@)
        },
{
    let missing = plan.missing_chunks@;
    let resumed = plan.resumed_chunks@;
    let reused = plan.reused_chunks@;
    let nothing = Seq::<u64>::empty();
    let both = missing + resumed;
    let all = both + reused;
    if plan_fault(chunks, plan) is None {
        law_accepted_plan_is_a_partition(chunks, plan);
        lemma_category_facts(chunks, nothing, missing);
        lemma_category_facts(chunks, missing, resumed);
        lemma_category_facts(chunks, both, reused);
        assert forall|i: u64| #[trigger] all.contains(i) implies i < chunks.len() by {
            let k = choose|k: int| 0 <= k < all.len() && all[k] == i;
            if k < missing.len() {
                assert(is_known(chunks, missing[k]));
            } else if k < both.len() {
                assert(is_known(chunks, resumed[k - missing.len()]));
            } else {
                assert(is_known(chunks, reused[k - both.len()]));
            }
        }
    }
    if all.no_duplicates() && (forall|i: u64| #[trigger] all.contains(i) <==> i < chunks.len())
        && plan.missing_bytes == bytes_of(chunks, missing) && plan.resumed_bytes == bytes_of(
        chunks,
        resumed,
    ) && plan.reused_bytes == bytes_of(chunks, reused) {
        assert forall|i: int| 0 <= i < missing.len() implies is_known(chunks, #[trigger] missing[i])
            && !nothing.contains(missing[i]) by {
            assert(all[i] == missing[i]);
            assert(all.contains(missing[i]));
        }
        assert forall|i: int, j: int|
            0 <= i < missing.len() && 0 <= j < missing.len() && i != j implies missing[i]
            != missing[j] by {
            assert(all[i] == missing[i] && all[j] == missing[j]);
        }
        lemma_category_without_fault(chunks, nothing, missing);
        let m = missing.len() as int;
        assert forall|i: int| 0 <= i < resumed.len() implies is_known(chunks, #[trigger] resumed[i])
            && !missing.contains(resumed[i]) by {
            assert(all[m + i] == resumed[i]);
            assert(all.contains(resumed[i]));
            if missing.contains(resumed[i]) {
                let k = choose|k: int| 0 <= k < missing.len() && missing[k] == resumed[i];
                assert(all[k] == all[m + i]);
            }
        }
        assert forall|i: int, j: int|
            0 <= i < resumed.len() && 0 <= j < resumed.len() && i != j implies resumed[i]
            != resumed[j] by {
            assert(all[m + i] == resumed[i] && all[m + j] == resumed[j]);
        }
        lemma_category_without_fault(chunks, missing, resumed);
        let b = both.len() as int;
        assert forall|i: int| 0 <= i < reused.len() implies is_known(chunks, #[trigger] reused[i])
            && !both.contains(reused[i]) by {
            assert(all[b + i] == reused[i]);
            assert(all.contains(reused[i]));
            if both.contains(reused[i]) {
                let k = choose|k: int| 0 <= k < both.len() && both[k] == reused[i];
                assert(all[k] == all[b + i]);
            }
        }
        assert forall|i: int, j: int|
            0 <= i < reused.len() && 0 <= j < reused.len() && i != j implies reused[i]
            != reused[j] by {
            assert(all[b + i] == reused[i] && all[b + j] == reused[j]);
        }
        lemma_category_without_fault(chunks, both, reused);
        let positions = Seq::new(chunks.len(), |k: int| k as u64);
        all.unique_seq_to_set();
        assert(positions.no_duplicates());
        positions.unique_seq_to_set();
        assert(all.to_set() =~= positions.to_set()) by {
            assert forall|x: u64| all.to_set().contains(x) <==> positions.to_set().contains(x) by {
                if x < chunks.len() {
                    assert(positions[x as int] == x);
                }
                assert(all.contains(x) <==> x < chunks.len());
            }
        }
    }
}

/// Listing all chunks lists each number in order.
pub proof fn law_all_chunks_are_listed_in_order(chunks: Seq<ChunkDescriptor>, i: int)
    requires
        forall|k: int| 0 <= k < chunks.len() ==> (#[trigger] chunks[k]).index == k,
        chunks.len() <= u64::MAX,
        0 <= i < chunks.len(),
    ensures
        indices_where(chunks, |index: u64| true).len() == chunks.len(),
        indices_where(chunks, |index: u64| true)[i] == i,
{
    lemma_all_listed(chunks, chunks.len() as int);
    assert(chunks.take(chunks.len() as int) =~= chunks);
}

proof fn lemma_all_listed(chunks: Seq<ChunkDescriptor>, n: int)
    requires
        is_numbered(chunks),
        0 <= n <= chunks.len() <= u64::MAX,
    ensures
        indices_where(chunks.take(n), |index: u64| true) == Seq::new(n as nat, |k: int| k as u64),
    decreases n,
{
    let listed = indices_where(chunks.take(n), |index: u64| true);
    if n == 0 {
        assert(chunks.take(0) =~= Seq::<ChunkDescriptor>::empty());
        assert(listed =~= Seq::new(0, |k: int| k as u64));
    } else {
        lemma_all_listed(chunks, n - 1);
        assert(chunks.take(n).drop_last() =~= chunks.take(n - 1));
        assert(listed =~= Seq::new(n as nat, |k: int| k as u64));
    }
}

} // verus!
