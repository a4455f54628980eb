//! Snapshots of file metadata and their comparison.

use crate::error::CoreError;
use crate::model::{FileType, ManifestEntry, SourceMetadata};
use vstd::prelude::*;

verus! {

pub const NANOS_PER_SECOND: i64 = 1_000_000_000;

/// What a directory entry is, links not followed.
#[derive(Debug, Clone, Copy, PartialEq, Eq, Structural)]
pub enum NodeKind {
    File,
    Directory,
    Symlink,
    Other,
}

/// A point in time as a distance from the Unix epoch.
#[derive(Debug, Clone, Copy, PartialEq, Eq, Structural)]
pub struct Timestamp {
    pub before_epoch: bool,
    pub seconds: u64,
    pub nanoseconds: u32,
}

/// What the operating system reports of one path or open file.
#[derive(Debug, Clone, Copy, PartialEq, Eq, Structural)]
pub struct NodeStatus {
    pub kind: NodeKind,
    pub length: u64,
    pub modified: Timestamp,
    pub read_only: bool,
}

impl Timestamp {
    /// Nanoseconds since the epoch.
    pub open spec fn spec_nanoseconds(self) -> int {
        let distance = self.seconds * 1_000_000_000 + self.nanoseconds;
        if self.before_epoch {
            -distance
        } else {
            distance
        }
    }

    /// Nanoseconds since the epoch, where 64 bits can hold them.
    pub fn nanoseconds_since_epoch(&self) -> (nanoseconds: Option<i64>)
        ensures
            match nanoseconds {
                Some(value) => value == self.spec_nanoseconds(),
                None => !(i64::MIN <= self.spec_nanoseconds() <= i64::MAX),
            },
    {
        let distance: i128 = self.seconds as i128 * 1_000_000_000 + self.nanoseconds as i128;
        let signed: i128 = if self.before_epoch {
            -distance
        } else {
            distance
        };
        if i64::MIN as i128 <= signed && signed <= i64::MAX as i128 {
            Some(signed as i64)
        } else {
            None
        }
    }
}

/// The seconds and nanoseconds to set on a file whose modification time is
/// `mtime_ns` nanoseconds since the epoch.
pub fn split_mtime(mtime_ns: i64) -> (parts: (i64, u32))
    ensures
        parts.0 * NANOS_PER_SECOND + parts.1 == mtime_ns,
        0 <= parts.1 < NANOS_PER_SECOND,
{
    let whole: i128 = mtime_ns as i128;
    let shifted: i128 = whole + 9_223_372_037_000_000_000;
    let seconds: i128 = shifted / 1_000_000_000 - 9_223_372_037;
    let rest: i128 = shifted % 1_000_000_000;
    (seconds as i64, rest as u32)
}

/// Size, time, type and access agree; the paths may differ.
pub fn metadata_matches(expected: &ManifestEntry, actual: &ManifestEntry) -> (same: bool)
    ensures
        same == (expected.spec_metadata() == actual.spec_metadata()),
{
    expected.file_type == actual.file_type && expected.size == actual.size && expected.mtime_ns
        == actual.mtime_ns && expected.read_only == actual.read_only
}

/// Whether a source is still what it was.
pub fn source_metadata_matches(expected: &SourceMetadata, actual: &SourceMetadata) -> (same: bool)
    ensures
        same == (*expected == *actual),
{
    *expected == *actual
}

/// The snapshot that a reported status amounts to.
pub open spec fn snapshot_of(status: NodeStatus) -> Option<SourceMetadata> {
    if status.kind == NodeKind::File {
        Some(
            SourceMetadata {
                size: status.length,
                mtime_ns: status.modified.spec_nanoseconds() as i64,
                file_type: FileType::File,
                read_only: status.read_only,
            },
        )
    } else if status.kind == NodeKind::Directory {
        Some(
            SourceMetadata {
                size: 0,
                mtime_ns: status.modified.spec_nanoseconds() as i64,
                file_type: FileType::Directory,
                read_only: status.read_only,
            },
        )
    } else {
        None
    }
}

/// A snapshot of a file or directory; links and other nodes have none, and
/// neither has a modification time that does not fit.
pub fn source_metadata_from_metadata(path: &str, status: &NodeStatus) -> (result: Result<
    SourceMetadata,
    CoreError,
>)
    ensures
        match result {
            Ok(metadata) => snapshot_of(*status) == Some(metadata) && metadata.mtime_ns
                == status.modified.spec_nanoseconds(),
            Err(CoreError::UnsupportedFileType { path: p }) => snapshot_of(*status) is None && p@
                == path@,
            Err(CoreError::MetadataTimeOutOfRange { path: p }) => snapshot_of(*status) is Some && !(
            i64::MIN <= status.modified.spec_nanoseconds() <= i64::MAX) && p@ == path@,
            Err(_) => false,
        },
{
    let file_type = match status.kind {
        NodeKind::File => FileType::File,
        NodeKind::Directory => FileType::Directory,
        _ => {
            return Err(CoreError::UnsupportedFileType { path: path.to_owned() });
        },
    };
    match status.modified.nanoseconds_since_epoch() {
        None => Err(CoreError::MetadataTimeOutOfRange { path: path.to_owned() }),
        Some(mtime_ns) => Ok(
            SourceMetadata {
                size: if file_type == FileType::File {
                    status.length
                } else {
                    0
                },
                mtime_ns,
                file_type,
                read_only: status.read_only,
            },
        ),
    }
}

/// The manifest entry of a node at a relative path.
pub fn manifest_entry_from_metadata(path: &str, relative_path: String, status: &NodeStatus) -> (
    result: Result<ManifestEntry, CoreError>)
    ensures
        match result {
            Ok(entry) => entry.relative_path == relative_path && snapshot_of(*status) == Some(
                entry.spec_metadata(),
            ) && entry.mtime_ns == status.modified.spec_nanoseconds(),
            Err(CoreError::UnsupportedFileType { path: p }) => snapshot_of(*status) is None && p@
                == path@,
            Err(CoreError::MetadataTimeOutOfRange { path: p }) => snapshot_of(*status) is Some && !(
            i64::MIN <= status.modified.spec_nanoseconds() <= i64::MAX) && p@ == path@,
            Err(_) => false,
        },
{
    match source_metadata_from_metadata(path, status) {
        Ok(source) => Ok(
            ManifestEntry {
                relative_path,
                size: source.size,
                mtime_ns: source.mtime_ns,
                file_type: source.file_type,
                read_only: source.read_only,
            },
        ),
        Err(error) => Err(error),
    }
}

/// The change of metadata between two snapshots of `path`.
pub open spec fn is_change(
    error: CoreError,
    path: Seq<char>,
    expected: SourceMetadata,
    actual: SourceMetadata,
) -> bool {
    error matches CoreError::SourceChanged { path: p, expected: e, actual: a } && p@ == path && e
        == expected && a == actual && expected != actual
}

/// Fails where a snapshot differs from the expected one.
pub fn ensure_snapshot_matches(
    path: &str,
    expected: &SourceMetadata,
    actual: &SourceMetadata,
) -> (result: Result<(), CoreError>)
    ensures
        match result {
            Ok(_) => *expected == *actual,
            Err(error) => is_change(error, path@, *expected, *actual),
        },
{
    if *expected == *actual {
        Ok(())
    } else {
        Err(
            CoreError::SourceChanged {
                path: path.to_owned(),
                expected: *expected,
                actual: *actual,
            },
        )
    }
}

/// Fails where the source is not as it was, given what it is now or why that
/// could not be told.
pub fn ensure_source_unchanged(
    path: &str,
    expected: &SourceMetadata,
    actual: Result<SourceMetadata, CoreError>,
) -> (result: Result<(), CoreError>)
    ensures
        match (actual, result) {
            (Err(e), Err(error)) => error == e,
            (Err(_), Ok(_)) => false,
            (Ok(now), Ok(_)) => *expected == now,
            (Ok(now), Err(error)) => is_change(error, path@, *expected, now),
        },
{
    match actual {
        Err(error) => Err(error),
        Ok(now) => {
            if source_metadata_matches(expected, &now) {
                Ok(())
            } else {
                Err(
                    CoreError::SourceChanged {
                        path: path.to_owned(),
                        expected: *expected,
                        actual: now,
                    },
                )
            }
        },
    }
}

/// Whether a node still is what the manifest says, given its snapshot.
pub fn path_matches_manifest(
    expected: &ManifestEntry,
    actual: Result<SourceMetadata, CoreError>,
) -> (result: Result<bool, CoreError>)
    ensures
        match actual {
            Ok(now) => result == Ok::<bool, CoreError>(expected.spec_metadata() == now),
            Err(error) => result == Err::<bool, CoreError>(error),
        },
{
    match actual {
        Ok(now) => Ok(source_metadata_matches(&expected.source_metadata(), &now)),
        Err(error) => Err(error),
    }
}

/// What to set on a node so that it matches its manifest entry.
#[derive(Debug, Clone, Copy, PartialEq, Eq, Structural)]
pub struct MetadataUpdate {
    pub seconds: i64,
    pub nanoseconds: u32,
    pub read_only: bool,
}

/// The update that gives `path` the metadata of `entry`; the node must be of
/// the entry's type.
pub fn apply_manifest_metadata(path: &str, current: &SourceMetadata, entry: &ManifestEntry) -> (
    result: Result<MetadataUpdate, CoreError>)
    ensures
        match result {
            Ok(update) => {
                &&& current.file_type == entry.file_type
                &&& update.read_only == entry.read_only
                &&& update.seconds * NANOS_PER_SECOND + update.nanoseconds == entry.mtime_ns
                &&& update.nanoseconds < NANOS_PER_SECOND
            },
            Err(CoreError::UnsupportedFileType { path: p }) => current.file_type != entry.file_type
                && p@ == path@,
            Err(_) => false,
        },
{
    if current.file_type != entry.file_type {
        return Err(CoreError::UnsupportedFileType { path: path.to_owned() });
    }
    let (seconds, nanoseconds) = split_mtime(entry.mtime_ns);
    Ok(MetadataUpdate { seconds, nanoseconds, read_only: entry.read_only })
}

pub const WRITE_BITS: u32 = 0o222;

pub const OWNER_WRITE_BIT: u32 = 0o200;

/// Unix permission bits with writing taken from everybody, or given to the owner.
pub open spec fn mode_with_access(mode: u32, read_only: bool) -> u32 {
    if read_only {
        mode & !WRITE_BITS
    } else {
        mode | OWNER_WRITE_BIT
    }
}

/// The mode bits with the right to write taken away or given to the owner.
pub fn set_read_only(mode: u32, read_only: bool) -> (updated: u32)
    ensures
        updated == mode_with_access(mode, read_only),
{
    if read_only {
        mode & !WRITE_BITS
    } else {
        mode | OWNER_WRITE_BIT
    }
}

/// After the change nobody may write, or the owner may; all other bits stay.
pub proof fn law_access_bits(mode: u32)
    ensures
        mode_with_access(mode, true) & WRITE_BITS == 0,
        mode_with_access(mode, true) & !WRITE_BITS == mode & !WRITE_BITS,
        mode_with_access(mode, false) & OWNER_WRITE_BIT == OWNER_WRITE_BIT,
        mode_with_access(mode, false) & !OWNER_WRITE_BIT == mode & !OWNER_WRITE_BIT,
{
    assert((mode & !0o222u32) & 0o222u32 == 0) by (bit_vector);
    assert((mode & !0o222u32) & !0o222u32 == mode & !0o222u32) by (bit_vector);
    assert((mode | 0o200u32) & 0o200u32 == 0o200u32) by (bit_vector);
    assert((mode | 0o200u32) & !0o200u32 == mode & !0o200u32) by (bit_vector);
}

/// Setting the time of an entry and reading it back gives the entry's time.
pub proof fn law_mtime_survives_setting(mtime_ns: i64, seconds: i64, nanoseconds: u32)
    requires
        seconds * NANOS_PER_SECOND + nanoseconds == mtime_ns,
        nanoseconds < NANOS_PER_SECOND,
    ensures
        seconds >= 0 ==> (Timestamp { before_epoch: false, seconds: seconds as u64, nanoseconds })
            .spec_nanoseconds() == mtime_ns,
        seconds < 0 && nanoseconds == 0 ==> (Timestamp {
            before_epoch: true,
            seconds: (-seconds) as u64,
            nanoseconds: 0,
        }).spec_nanoseconds() == mtime_ns,
        seconds < 0 && nanoseconds > 0 ==> (Timestamp {
            before_epoch: true,
            seconds: (-seconds - 1) as u64,
            nanoseconds: (NANOS_PER_SECOND - nanoseconds) as u32,
        }).spec_nanoseconds() == mtime_ns,
{
}

/// What is kept of a file and of a directory: the time and the access of either, the
/// length of a file, and for a directory no length. Of anything else nothing is kept.
pub proof fn law_what_a_snapshot_keeps(status: NodeStatus)
    requires
        i64::MIN <= status.modified.spec_nanoseconds() <= i64::MAX,
    ensures
        snapshot_of(status) is Some <==> status.kind is File || status.kind is Directory,
        snapshot_of(status) matches Some(kept) ==> {
            &&& kept.mtime_ns == status.modified.spec_nanoseconds()
            &&& kept.read_only == status.read_only
            &&& kept.file_type is File <==> status.kind is File
            &&& status.kind is File ==> kept.size == status.length
            &&& status.kind is Directory ==> kept.size == 0
        },
{
}

/// Times before the epoch count back from it, times after it count on; a second has a
/// thousand million nanoseconds.
pub proof fn law_times_count_from_the_epoch(seconds: u64, nanoseconds: u32)
    ensures
        (Timestamp { before_epoch: false, seconds, nanoseconds }).spec_nanoseconds() == seconds
            * 1_000_000_000 + nanoseconds,
        (Timestamp { before_epoch: true, seconds, nanoseconds }).spec_nanoseconds() + (Timestamp {
            before_epoch: false,
            seconds,
            nanoseconds,
        }).spec_nanoseconds() == 0,
{
}

} // verus!
