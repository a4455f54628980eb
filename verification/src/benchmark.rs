//! Comparing strategies of copying a local directory.

use crate::metadata::NodeKind;
use crate::model::{FileType, ManifestEntry};
use crate::outgoing::{bytes_of_entries, count_files, files_of};
use crate::path::{has_root, is_below, is_wire_path, wire_names, PathComponent, PathValidationError};
use crate::scan::ScanResult;
use crate::text::{decimal, to_decimal};
use vstd::prelude::*;

verus! {

pub const MAX_BENCHMARK_CONCURRENCY: usize = 1024;

#[derive(Debug, Clone, PartialEq, Eq)]
pub struct LocalBenchmarkArgs<P> {
    /// Existing local dataset directory.
    pub source: P,
    /// Empty scratch directory used for benchmark copies.
    pub destination: P,
    /// Configured scheduler concurrency for the third comparison.
    pub concurrency: usize,
    /// Preserve all three copied trees after the benchmark.
    pub keep_output: bool,
    /// Replace a non-empty benchmark destination.
    pub force: bool,
    /// Emit the report as JSON.
    pub json: bool,
}

/// Why a benchmark is refused, or does not count.
#[derive(Debug, Clone, PartialEq, Eq)]
pub enum BenchmarkFault {
    ConcurrencyOutOfRange,
    SourceNotDirectory,
    ScanIncomplete { errors: usize },
    ByteCountOverflow,
    Overlap,
    OutputNotDirectory,
    OutputNotEmpty,
    InvalidPath { source: PathValidationError },
    CopiedBytesOverflow,
    CopiedBytesDiffer { strategy: String, expected: u64, actual: u64 },
}

/// Holds the number of workers to its bounds.
pub fn check_concurrency(concurrency: usize) -> (result: Result<(), BenchmarkFault>)
    ensures
        result == if 1 <= concurrency <= MAX_BENCHMARK_CONCURRENCY {
            Ok::<(), BenchmarkFault>(())
        } else {
            Err(BenchmarkFault::ConcurrencyOutOfRange)
        },
{
    if 1 <= concurrency && concurrency <= MAX_BENCHMARK_CONCURRENCY {
        Ok(())
    } else {
        Err(BenchmarkFault::ConcurrencyOutOfRange)
    }
}

/// The source must be a directory, and all of it must have been read.
pub fn measure_source(is_directory: bool, scan: &ScanResult) -> (result: Result<
    (u64, u64),
    BenchmarkFault,
>)
    ensures
        match result {
            Ok(measured) => {
                &&& is_directory
                &&& scan.errors@.len() == 0
                &&& measured.0 == files_of(scan.entries@).len()
                &&& measured.1 == bytes_of_entries(files_of(scan.entries@))
            },
            Err(fault) => if !is_directory {
                fault == BenchmarkFault::SourceNotDirectory
            } else if scan.errors@.len() > 0 {
                fault == (BenchmarkFault::ScanIncomplete { errors: scan.errors.len() })
            } else {
                bytes_of_entries(files_of(scan.entries@)) > u64::MAX && fault
                    == BenchmarkFault::ByteCountOverflow
            },
        },
{
    if !is_directory {
        return Err(BenchmarkFault::SourceNotDirectory);
    }
    if scan.errors.len() > 0 {
        return Err(BenchmarkFault::ScanIncomplete { errors: scan.errors.len() });
    }
    match count_files(&scan.entries) {
        Some((files, bytes)) => Ok((files, bytes)),
        None => Err(BenchmarkFault::ByteCountOverflow),
    }
}

/// Neither of two directories may lie in the other.
pub fn ensure_apart(source: &[PathComponent], destination: &[PathComponent]) -> (result: Result<
    (),
    BenchmarkFault,
>)
    ensures
        result == if is_below(source@, destination@) || is_below(destination@, source@) {
            Err::<(), BenchmarkFault>(BenchmarkFault::Overlap)
        } else {
            Ok(())
        },
{
    if has_root(source, destination) || has_root(destination, source) {
        Err(BenchmarkFault::Overlap)
    } else {
        Ok(())
    }
}

/// What is to be done with the directory for the output.
#[derive(Debug, Clone, Copy, PartialEq, Eq, Structural)]
pub enum OutputAction {
    Create,
    /// Remove what is there, then create it anew.
    Replace,
}

/// What to do with the directory for the output. `found` is what is there and
/// whether there is anything in it.
pub fn prepare_output_directory(found: Option<(NodeKind, bool)>, force: bool) -> (result: Result<
    OutputAction,
    BenchmarkFault,
>)
    ensures
        result == match found {
            None => Ok(OutputAction::Create),
            Some((kind, non_empty)) => if kind != NodeKind::Directory {
                Err(BenchmarkFault::OutputNotDirectory)
            } else if !non_empty {
                Ok(OutputAction::Create)
            } else if force {
                Ok(OutputAction::Replace)
            } else {
                Err(BenchmarkFault::OutputNotEmpty)
            },
        },
{
    match found {
        None => Ok(OutputAction::Create),
        Some((kind, non_empty)) => {
            if kind != NodeKind::Directory {
                return Err(BenchmarkFault::OutputNotDirectory);
            }
            if !non_empty {
                return Ok(OutputAction::Create);
            }
            if force {
                Ok(OutputAction::Replace)
            } else {
                Err(BenchmarkFault::OutputNotEmpty)
            }
        },
    }
}

/// The names lead from either root to an entry.
pub open spec fn leads_to(names: Seq<String>, relative: Seq<char>) -> bool {
    crate::text::views(names) == crate::text::split(relative, '/')
}

/// The fault is about the first file whose path may not travel.
pub open spec fn is_first_invalid(
    fault: BenchmarkFault,
    files: Seq<ManifestEntry>,
    index: int,
) -> bool {
    &&& 0 <= index < files.len()
    &&& crate::path::wire_path_error(files[index].relative_path@) matches Some(source) && fault == (
    BenchmarkFault::InvalidPath { source })
    &&& forall|k: int| 0 <= k < index ==> is_wire_path((#[trigger] files[k]).relative_path@)
}

/// The files to copy, in the order of the manifest: for each the names that lead to it,
/// from the source as from the destination. The roots themselves are native paths,
/// which need not be text.
pub fn planned_copies(entries: &[ManifestEntry]) -> (result: Result<
    Vec<Vec<String>>,
    BenchmarkFault,
>)
    ensures
        match result {
            Ok(copies) => {
                &&& copies@.len() == files_of(entries@).len()
                &&& forall|i: int|
                    0 <= i < copies@.len() ==> leads_to(
                        (#[trigger] copies@[i])@,
                        files_of(entries@)[i].relative_path@,
                    )
            },
            Err(fault) => exists|i: int| is_first_invalid(fault, files_of(entries@), i),
        },
        result is Ok <==> forall|i: int|
            0 <= i < files_of(entries@).len() ==> is_wire_path(
                (#[trigger] files_of(entries@)[i]).relative_path@,
            ),
{
    let mut copies: Vec<Vec<String>> = Vec::new();
    let mut i: usize = 0;
    assert(entries@.take(0) =~= Seq::<ManifestEntry>::empty());
    while i < entries.len()
        invariant
            i <= entries.len(),
            copies@.len() == files_of(entries@.take(i as int)).len(),
            forall|k: int|
                0 <= k < copies@.len() ==> is_wire_path(
                    (#[trigger] files_of(entries@.take(i as int))[k]).relative_path@,
                ),
            forall|k: int|
                0 <= k < copies@.len() ==> leads_to(
                    (#[trigger] copies@[k])@,
                    files_of(entries@.take(i as int))[k].relative_path@,
                ),
        decreases entries.len() - i,
    {
        assert(entries@.take(i + 1).drop_last() =~= entries@.take(i as int));
        if entries[i].file_type == FileType::File {
            let ghost position = files_of(entries@.take(i as int)).len() as int;
            proof {
                lemma_file_is_kept(entries@, i as int);
                let files = files_of(entries@);
                assert forall|k: int| 0 <= k < position implies is_wire_path(
                    (#[trigger] files[k]).relative_path@,
                ) by {
                    assert(files_of(entries@.take(i as int))[k] == files[k]);
                }
            }
            let names = match wire_names(entries[i].relative_path.as_str()) {
                Ok(names) => names,
                Err(error) => {
                    let fault = BenchmarkFault::InvalidPath { source: error };
                    assert(is_first_invalid(fault, files_of(entries@), position));
                    assert(!is_wire_path(files_of(entries@)[position].relative_path@));
                    return Err(fault);
                },
            };
            copies.push(names);
        }
        i += 1;
    }
    assert(entries@.take(i as int) =~= entries@);
    Ok(copies)
}

/// A file of a manifest stands among its files where those before it end.
proof fn lemma_file_is_kept(entries: Seq<ManifestEntry>, i: int)
    requires
        0 <= i < entries.len(),
        entries[i].file_type == FileType::File,
    ensures
        files_of(entries.take(i)).len() < files_of(entries).len(),
        files_of(entries)[files_of(entries.take(i)).len() as int] == entries[i],
        files_of(entries.take(i)) == files_of(entries).take(files_of(entries.take(i)).len() as int),
    decreases entries.len(),
{
    if i == entries.len() - 1 {
        assert(entries.take(i) =~= entries.drop_last());
    } else {
        assert(entries.drop_last().take(i) =~= entries.take(i));
        lemma_file_is_kept(entries.drop_last(), i);
    }
}

/// Adds up what was copied.
pub fn tally(copied: u64, bytes: u64) -> (result: Result<u64, BenchmarkFault>)
    ensures
        result == if copied + bytes > u64::MAX {
            Err(BenchmarkFault::CopiedBytesOverflow)
        } else {
            Ok((copied + bytes) as u64)
        },
{
    match copied.checked_add(bytes) {
        Some(sum) => Ok(sum),
        None => Err(BenchmarkFault::CopiedBytesOverflow),
    }
}

/// A copy counts only if it has as many bytes as the manifest.
pub fn validate_copied_bytes(expected: u64, actual: u64, strategy: &str) -> (result: Result<
    (),
    BenchmarkFault,
>)
    ensures
        match result {
            Ok(_) => expected == actual,
            Err(fault) => expected != actual && is_difference(fault, strategy@, expected, actual),
        },
{
    if expected == actual {
        Ok(())
    } else {
        Err(BenchmarkFault::CopiedBytesDiffer { strategy: strategy.to_owned(), expected, actual })
    }
}

/// The fault says that a copy has another number of bytes.
pub open spec fn is_difference(
    fault: BenchmarkFault,
    strategy: Seq<char>,
    expected: u64,
    actual: u64,
) -> bool {
    fault matches BenchmarkFault::CopiedBytesDiffer { strategy: s, expected: e, actual: a } && s@
        == strategy && e == expected && a == actual
}

/// One way of copying the source.
#[derive(Debug, Clone, PartialEq, Eq)]
pub struct CopyRun {
    pub strategy: &'static str,
    pub concurrency: usize,
    /// The directory, below the destination, that it copies to.
    pub directory: String,
    /// Through the scheduler, or file by file.
    pub scheduled: bool,
}

impl CopyRun {
    /// The three runs: file by file, then scheduled one at a time, then as
    /// configured.
    pub open spec fn is_run(self, index: int, concurrency: usize) -> bool {
        if index == 0 {
            &&& self.strategy@ == "sequential"@
            &&& self.concurrency == 1
            &&& self.directory@ == "sequential"@
            &&& !self.scheduled
        } else if index == 1 {
            &&& self.strategy@ == "scheduler-1"@
            &&& self.concurrency == 1
            &&& self.directory@ == "scheduler-1"@.push('-') + decimal(1)
            &&& self.scheduled
        } else {
            &&& self.strategy@ == "scheduler-configured"@
            &&& self.concurrency == concurrency
            &&& self.directory@ == "scheduler-configured"@.push('-') + decimal(concurrency as nat)
            &&& self.scheduled
        }
    }
}

fn scheduled_run(strategy: &'static str, concurrency: usize) -> (run: CopyRun)
    ensures
        run.strategy == strategy,
        run.concurrency == concurrency,
        run.directory@ == strategy@.push('-') + decimal(concurrency as nat),
        run.scheduled,
{
    let mut directory = strategy.to_owned();
    directory.push('-');
    let number = to_decimal(concurrency as u64);
    directory.append(number.as_str());
    CopyRun { strategy, concurrency, directory, scheduled: true }
}

/// A benchmark of a measured source.
pub struct CopyBenchmark {
    concurrency: usize,
    bytes: u64,
    keep_output: bool,
    done: usize,
}

/// What to do after a run.
#[derive(Debug, Clone, Copy, PartialEq, Eq, Structural)]
pub enum CleanUp {
    Keep,
    RemoveCopy,
}

impl CopyBenchmark {
    pub closed spec fn spec_concurrency(self) -> usize {
        self.concurrency
    }

    pub closed spec fn spec_bytes(self) -> u64 {
        self.bytes
    }

    pub closed spec fn keeps_output(self) -> bool {
        self.keep_output
    }

    /// How many runs have been counted.
    pub closed spec fn runs_done(self) -> nat {
        self.done as nat
    }

    pub fn new(concurrency: usize, bytes: u64, keep_output: bool) -> (result: Result<
        Self,
        BenchmarkFault,
    >)
        ensures
            match result {
                Ok(benchmark) => {
                    &&& 1 <= concurrency <= MAX_BENCHMARK_CONCURRENCY
                    &&& benchmark.spec_concurrency() == concurrency
                    &&& benchmark.spec_bytes() == bytes
                    &&& benchmark.keeps_output() == keep_output
                    &&& benchmark.runs_done() == 0
                },
                Err(fault) => !(1 <= concurrency <= MAX_BENCHMARK_CONCURRENCY) && fault
                    == BenchmarkFault::ConcurrencyOutOfRange,
            },
    {
        match check_concurrency(concurrency) {
            Ok(_) => Ok(CopyBenchmark { concurrency, bytes, keep_output, done: 0 }),
            Err(fault) => Err(fault),
        }
    }

    /// The run that is next, nothing once there were three.
    pub fn current(&self) -> (run: Option<CopyRun>)
        ensures
            match run {
                Some(next) => self.runs_done() < 3 && next.is_run(
                    self.runs_done() as int,
                    self.spec_concurrency(),
                ),
                None => self.runs_done() >= 3,
            },
    {
        if self.done == 0 {
            Some(
                CopyRun {
                    strategy: "sequential",
                    concurrency: 1,
                    directory: "sequential".to_owned(),
                    scheduled: false,
                },
            )
        } else if self.done == 1 {
            Some(scheduled_run("scheduler-1", 1))
        } else if self.done == 2 {
            Some(scheduled_run("scheduler-configured", self.concurrency))
        } else {
            None
        }
    }

    /// Counts a run that has copied so many bytes.
    pub fn finish_run(&mut self, strategy: &str, copied: u64) -> (result: Result<
        CleanUp,
        BenchmarkFault,
    >)
        requires
            old(self).runs_done() < 3,
        ensures
            match result {
                Ok(clean_up) => {
                    &&& copied == old(self).spec_bytes()
                    &&& clean_up == if old(self).keeps_output() {
                        CleanUp::Keep
                    } else {
                        CleanUp::RemoveCopy
                    }
                    &&& final(self).runs_done() == old(self).runs_done() + 1
                },
                Err(fault) => {
                    &&& copied != old(self).spec_bytes()
                    &&& is_difference(fault, strategy@, old(self).spec_bytes(), copied)
                    &&& final(self).runs_done() == old(self).runs_done()
                },
            },
            final(self).spec_concurrency() == old(self).spec_concurrency(),
            final(self).spec_bytes() == old(self).spec_bytes(),
            final(self).keeps_output() == old(self).keeps_output(),
    {
        match validate_copied_bytes(self.bytes, copied, strategy) {
            Ok(_) => {
                self.done = self.done + 1;
                if self.keep_output {
                    Ok(CleanUp::Keep)
                } else {
                    Ok(CleanUp::RemoveCopy)
                }
            },
            Err(fault) => Err(fault),
        }
    }

    /// Whether the directory of the copies goes too, if it is empty.
    pub fn removes_destination(&self) -> (yes: bool)
        ensures
            yes == !self.keeps_output(),
    {
        !self.keep_output
    }
}

} // verus!
