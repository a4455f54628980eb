//! Collecting the entries of a source tree into a manifest.

use crate::error::CoreError;
use crate::metadata::{manifest_entry_from_metadata, snapshot_of, NodeKind, NodeStatus};
use crate::model::{FileError, FileOperation, ManifestEntry};
use crate::order::{is_sorted, sort, text_le};
use crate::path::{is_wire_path, to_wire_relative_path, wire_form, PathComponent, RelativePathError};
use vstd::prelude::*;

verus! {

#[derive(Debug, Clone, PartialEq, Eq)]
pub struct ScanResult {
    pub entries: Vec<ManifestEntry>,
    pub symlinks_skipped: u64,
    pub unsupported_entries_skipped: u64,
    pub errors: Vec<FileError>,
}

/// A scan that is under way.
pub struct ScanRun {
    root: Vec<PathComponent>,
    entries: Vec<ManifestEntry>,
    symlinks_skipped: u64,
    unsupported_entries_skipped: u64,
    errors: Vec<FileError>,
}

/// What a scan has found so far.
#[verifier::ext_equal]
pub struct ScanView {
    pub root: Seq<PathComponent>,
    pub entries: Seq<ManifestEntry>,
    pub symlinks_skipped: u64,
    pub unsupported_entries_skipped: u64,
    pub errors: Seq<FileError>,
}

/// An entry that has a place in the manifest.
pub struct Located {
    relative_path: String,
}

impl Located {
    pub closed spec fn spec_path(&self) -> Seq<char> {
        self.relative_path@
    }

    pub fn relative_path(&self) -> (path: &str)
        ensures
            path@ == self.spec_path(),
    {
        self.relative_path.as_str()
    }
}

/// What to do about something that the walk came upon.
pub enum Visit {
    /// Nothing more.
    Skip,
    /// Report that it cannot be named in a manifest.
    Unnamed(RelativePathError),
    /// Read its metadata.
    Examine(Located),
}

/// The wire path of something below the root, if it has one.
pub open spec fn wire_path_of(root: Seq<PathComponent>, path: Option<&[PathComponent]>) -> Option<
    Seq<char>,
> {
    match path {
        Some(path) => match wire_form(root, path@) {
            Ok(wire) => Some(wire),
            Err(_) => None,
        },
        None => None,
    }
}

/// An error appended to those before.
pub open spec fn with_error(
    before: ScanView,
    after: ScanView,
    path: Option<Seq<char>>,
    operation: FileOperation,
    message: Seq<char>,
) -> bool {
    &&& after.errors.len() == before.errors.len() + 1
    &&& after.errors.drop_last() == before.errors
    &&& after.errors.last().is(path, operation, message)
    &&& after == (ScanView { errors: after.errors, ..before })
}

impl View for ScanRun {
    type V = ScanView;

    closed spec fn view(&self) -> ScanView {
        ScanView {
            root: self.root@,
            entries: self.entries@,
            symlinks_skipped: self.symlinks_skipped,
            unsupported_entries_skipped: self.unsupported_entries_skipped,
            errors: self.errors@,
        }
    }
}

/// A scan that has found nothing.
pub open spec fn nothing_scanned(root: Seq<PathComponent>) -> ScanView {
    ScanView {
        root,
        entries: Seq::empty(),
        symlinks_skipped: 0,
        unsupported_entries_skipped: 0,
        errors: Seq::empty(),
    }
}

/// Starts to scan a root, which must be a directory and no link to one.
pub fn scan_directory(root: &str, components: Vec<PathComponent>, kind: NodeKind) -> (result: Result<
    ScanRun,
    CoreError,
>)
    ensures
        match result {
            Ok(run) => kind == NodeKind::Directory && run.wf() && run@ == nothing_scanned(
                components@,
            ),
            Err(CoreError::NotDirectory { path }) => kind != NodeKind::Directory && path@ == root@,
            Err(_) => false,
        },
{
    if kind != NodeKind::Directory {
        return Err(CoreError::NotDirectory { path: root.to_owned() });
    }
    Ok(
        ScanRun {
            root: components,
            entries: Vec::new(),
            symlinks_skipped: 0,
            unsupported_entries_skipped: 0,
            errors: Vec::new(),
        },
    )
}

/// No two entries have one path.
pub open spec fn names_once(entries: Seq<ManifestEntry>) -> bool {
    forall|i: int, j: int|
        #![trigger entries[i], entries[j]]
        0 <= i < j < entries.len() ==> entries[i].relative_path@ != entries[j].relative_path@
}

/// Each path comes before the next.
pub open spec fn is_strictly_sorted(entries: Seq<ManifestEntry>) -> bool {
    forall|i: int, j: int|
        #![trigger entries[i], entries[j]]
        0 <= i < j < entries.len() ==> {
            &&& text_le(entries[i].relative_path@, entries[j].relative_path@)
            &&& entries[i].relative_path@ != entries[j].relative_path@
        }
}

/// Another order of the same entries names none of them more often.
proof fn lemma_order_names_once(before: Seq<ManifestEntry>, after: Seq<ManifestEntry>)
    requires
        names_once(before),
        after.to_multiset() == before.to_multiset(),
    ensures
        names_once(after),
{
    before.to_multiset_ensures();
    after.to_multiset_ensures();
    before.lemma_multiset_has_no_duplicates();
    after.lemma_multiset_has_no_duplicates_conv();
    assert forall|i: int, j: int|
        #![trigger after[i], after[j]]
        0 <= i < j < after.len() implies after[i].relative_path@ != after[j].relative_path@ by {
        assert(after.contains(after[i]) && after.contains(after[j]));
        assert(before.to_multiset().count(after[i]) > 0);
        assert(before.to_multiset().count(after[j]) > 0);
        assert(before.contains(after[i]) && before.contains(after[j]));
        let p = choose|p: int| 0 <= p < before.len() && before[p] == after[i];
        let q = choose|q: int| 0 <= q < before.len() && before[q] == after[j];
        assert(p != q);
    }
}

impl ScanRun {
    /// Every entry can travel.
    pub closed spec fn wf(&self) -> bool {
        forall|i: int|
            0 <= i < self.entries@.len() ==> is_wire_path((#[trigger] self.entries@[i]).relative_path@)
    }

    fn push_error(&mut self, path: Option<String>, operation: FileOperation, message: String)
        requires
            old(self).wf(),
        ensures
            final(self).wf(),
            with_error(
                old(self)@,
                final(self)@,
                crate::text::view_of(path),
                operation,
                message@,
            ),
    {
        self.errors.push(FileError::new(path, operation, message));
        assert(self.errors@.drop_last() =~= old(self).errors@);
    }

    /// The walk failed at a path, if it says where.
    pub fn walk_failed(&mut self, path: Option<&[PathComponent]>, message: String)
        requires
            old(self).wf(),
        ensures
            final(self).wf(),
            with_error(
                old(self)@,
                final(self)@,
                wire_path_of(old(self)@.root, path),
                FileOperation::Scan,
                message@,
            ),
    {
        let relative_path = match path {
            Some(path) => match to_wire_relative_path(&self.root, path) {
                Ok(wire) => Some(wire),
                Err(_) => None,
            },
            None => None,
        };
        self.push_error(relative_path, FileOperation::Scan, message);
    }

    /// The walk came upon something: links are counted and the root itself is
    /// no entry; anything else must have a wire path.
    pub fn visit(&mut self, kind: NodeKind, depth: usize, path: &[PathComponent]) -> (visit: Visit)
        requires
            old(self).wf(),
            old(self)@.symlinks_skipped < u64::MAX,
        ensures
            final(self).wf(),
            final(self)@ == (ScanView {
                symlinks_skipped: if kind == NodeKind::Symlink {
                    (old(self)@.symlinks_skipped + 1) as u64
                } else {
                    old(self)@.symlinks_skipped
                },
                ..old(self)@
            }),
            match visit {
                Visit::Skip => kind == NodeKind::Symlink || depth == 0,
                Visit::Unnamed(error) => kind != NodeKind::Symlink && depth > 0 && wire_form(
                    old(self)@.root,
                    path@,
                ) == Err::<Seq<char>, RelativePathError>(error),
                Visit::Examine(located) => kind != NodeKind::Symlink && depth > 0 && wire_form(
                    old(self)@.root,
                    path@,
                ) == Ok::<Seq<char>, RelativePathError>(located.spec_path()),
            },
    {
        if kind == NodeKind::Symlink {
            self.symlinks_skipped = self.symlinks_skipped + 1;
            return Visit::Skip;
        }
        if depth == 0 {
            return Visit::Skip;
        }
        match to_wire_relative_path(&self.root, path) {
            Ok(relative_path) => Visit::Examine(Located { relative_path }),
            Err(error) => Visit::Unnamed(error),
        }
    }

    /// Something cannot be named in a manifest; says why.
    pub fn unnamed(&mut self, message: String)
        requires
            old(self).wf(),
        ensures
            final(self).wf(),
            with_error(old(self)@, final(self)@, None, FileOperation::Scan, message@),
    {
        self.push_error(None, FileOperation::Scan, message);
    }

    /// The metadata of an entry could not be had; says why.
    pub fn unreadable(&mut self, relative_path: &str, message: String)
        requires
            old(self).wf(),
        ensures
            final(self).wf(),
            with_error(
                old(self)@,
                final(self)@,
                Some(relative_path@),
                FileOperation::Metadata,
                message@,
            ),
    {
        self.push_error(Some(relative_path.to_owned()), FileOperation::Metadata, message);
    }

    /// The metadata of an entry has been read: links and special files are
    /// counted, files and directories become entries. The error, if there is
    /// one, is to be reported as unreadable metadata.
    pub fn examined(&mut self, path: &str, located: &Located, status: &NodeStatus) -> (fault: Option<
        CoreError,
    >)
        requires
            old(self).wf(),
            is_wire_path(located.spec_path()),
            old(self)@.symlinks_skipped < u64::MAX,
            old(self)@.unsupported_entries_skipped < u64::MAX,
        ensures
            final(self).wf(),
            match status.kind {
                NodeKind::Symlink => fault is None && final(self)@ == (ScanView {
                    symlinks_skipped: (old(self)@.symlinks_skipped + 1) as u64,
                    ..old(self)@
                }),
                NodeKind::Other => fault is None && final(self)@ == (ScanView {
                    unsupported_entries_skipped: (old(self)@.unsupported_entries_skipped
                        + 1) as u64,
                    ..old(self)@
                }),
                _ => match fault {
                    None => {
                        let entry = final(self)@.entries.last();
                        &&& entry.relative_path@ == located.spec_path()
                        &&& snapshot_of(*status) == Some(entry.spec_metadata())
                        &&& entry.mtime_ns == status.modified.spec_nanoseconds()
                        &&& final(self)@ == (ScanView {
                            entries: old(self)@.entries.push(entry),
                            ..old(self)@
                        })
                    },
                    Some(CoreError::MetadataTimeOutOfRange { path: p }) => {
                        &&& !(i64::MIN <= status.modified.spec_nanoseconds() <= i64::MAX)
                        &&& p@ == path@
                        &&& final(self)@ == old(self)@
                    },
                    Some(_) => false,
                },
            },
    {
        if status.kind == NodeKind::Symlink {
            self.symlinks_skipped = self.symlinks_skipped + 1;
            return None;
        }
        if status.kind == NodeKind::Other {
            self.unsupported_entries_skipped = self.unsupported_entries_skipped + 1;
            return None;
        }
        match manifest_entry_from_metadata(path, located.relative_path.clone(), status) {
            Ok(entry) => {
                self.entries.push(entry);
                None
            },
            Err(error) => Some(error),
        }
    }

    /// The result: the entries in the order of their paths. The walk comes upon a
    /// path once; then no path is in the result twice.
    pub fn finish(self) -> (result: ScanResult)
        requires
            self.wf(),
        ensures
            is_sorted(result.entries@),
            names_once(self@.entries) ==> is_strictly_sorted(result.entries@),
            result.entries@.to_multiset() == self@.entries.to_multiset(),
            forall|i: int|
                0 <= i < result.entries@.len() ==> is_wire_path(
                    (#[trigger] result.entries@[i]).relative_path@,
                ),
            result.symlinks_skipped == self@.symlinks_skipped,
            result.unsupported_entries_skipped == self@.unsupported_entries_skipped,
            result.errors@ == self@.errors,
    {
        let ghost found = self.entries@;
        let entries = sort(self.entries);
        proof {
            found.to_multiset_ensures();
            entries@.to_multiset_ensures();
            if names_once(found) {
                lemma_order_names_once(found, entries@);
            }
            assert forall|i: int| 0 <= i < entries@.len() implies is_wire_path(
                (#[trigger] entries@[i]).relative_path@,
            ) by {
                assert(entries@.contains(entries@[i]));
                assert(entries@.to_multiset().count(entries@[i]) > 0);
                assert(found.to_multiset().count(entries@[i]) > 0);
                assert(found.contains(entries@[i]));
            }
        }
        ScanResult {
            entries,
            symlinks_skipped: self.symlinks_skipped,
            unsupported_entries_skipped: self.unsupported_entries_skipped,
            errors: self.errors,
        }
    }
}

/// What a scan names can travel.
pub proof fn law_located_paths_can_travel(
    root: Seq<PathComponent>,
    path: Seq<PathComponent>,
    wire: Seq<char>,
)
    requires
        wire_form(root, path) == Ok::<Seq<char>, RelativePathError>(wire),
    ensures
        is_wire_path(wire),
{
}

} // verus!
