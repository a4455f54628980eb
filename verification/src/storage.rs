//! The rules of the persistent tables.

use crate::error::{RowFault, StorageError};
use crate::ids::Uuid;
use crate::model::TransferJob;
use crate::records::{
    stored_status_of, CompletedChunk, DiscoveredDevice, JobFileRecord, JobRecord, StoredJobStatus,
};
use crate::rows::{file_row_error, ChunkRow, JobFileRow, JobRow};
use crate::text::{is_text, view_of, views};
use vstd::hash_set::StringHashSet;
use vstd::prelude::*;
use vstd::slice::slice_to_vec;
use vstd::utf8::{encode_utf8, valid_utf8};

verus! {

/// Access to the directory of the database: for its owner alone.
pub const DIRECTORY_MODE: u32 = 0o700;

/// Access to the database file: for its owner alone.
pub const DATABASE_FILE_MODE: u32 = 0o600;

/// How long to wait for a lock on the database, in milliseconds.
pub const BUSY_TIMEOUT_MILLIS: u64 = 5000;

/// The version of the schema that the last migration leaves.
pub const SUPPORTED_SCHEMA_VERSION: i64 = 2;

/// A reading of the clock, in milliseconds since the Unix epoch, as a column.
/// `elapsed` is the reading, or why the clock is before the epoch.
pub fn now_millis(elapsed: Result<u128, String>) -> (result: Result<i64, StorageError>)
    ensures
        match elapsed {
            Ok(millis) => if millis <= i64::MAX {
                result == Ok::<i64, StorageError>(millis as i64)
            } else {
                result == Err::<i64, StorageError>(
                    StorageError::InvalidData {
                        field: "timestamp",
                        fault: RowFault::TimestampOutOfRange { millis },
                    },
                )
            },
            Err(message) => result == Err::<i64, StorageError>(StorageError::SystemTime(message)),
        },
{
    match elapsed {
        Ok(millis) => {
            if millis <= i64::MAX as u128 {
                Ok(millis as i64)
            } else {
                Err(
                    StorageError::InvalidData {
                        field: "timestamp",
                        fault: RowFault::TimestampOutOfRange { millis },
                    },
                )
            }
        },
        Err(message) => Err(StorageError::SystemTime(message)),
    }
}

/// The versions to migrate through, in order, from the version that a database
/// has. One that is newer than the last migration is refused.
pub fn pending_migrations(current: i64) -> (result: Result<Vec<i64>, StorageError>)
    ensures
        match result {
            Ok(versions) => {
                &&& current <= SUPPORTED_SCHEMA_VERSION
                &&& versions@.len() == if current < 0 {
                    SUPPORTED_SCHEMA_VERSION as int
                } else {
                    SUPPORTED_SCHEMA_VERSION - current
                }
                &&& forall|i: int|
                    0 <= i < versions@.len() ==> #[trigger] versions@[i]
                        == SUPPORTED_SCHEMA_VERSION - versions@.len() + 1 + i
            },
            Err(error) => current > SUPPORTED_SCHEMA_VERSION && error
                == (StorageError::UnsupportedSchemaVersion {
                found: current,
                supported: SUPPORTED_SCHEMA_VERSION,
            }),
        },
{
    if current > SUPPORTED_SCHEMA_VERSION {
        return Err(
            StorageError::UnsupportedSchemaVersion {
                found: current,
                supported: SUPPORTED_SCHEMA_VERSION,
            },
        );
    }
    let first: i64 = if current < 0 {
        1
    } else {
        current + 1
    };
    let mut versions: Vec<i64> = Vec::new();
    let mut version: i64 = first;
    while version <= SUPPORTED_SCHEMA_VERSION
        invariant
            1 <= first <= version <= SUPPORTED_SCHEMA_VERSION + 1,
            versions@.len() == version - first,
            forall|i: int| 0 <= i < versions@.len() ==> #[trigger] versions@[i] == first + i,
        decreases SUPPORTED_SCHEMA_VERSION + 1 - version,
    {
        versions.push(version);
        version += 1;
    }
    Ok(versions)
}

/// A setting: what kind of value it is, and its bytes.
#[derive(Debug, Clone, PartialEq, Eq)]
pub struct Setting {
    pub kind: String,
    pub value: Vec<u8>,
}

impl Setting {
    /// The setting holds a text.
    pub open spec fn is_string(self, value: Seq<char>) -> bool {
        self.kind@ == "string"@ && self.value@ == encode_utf8(value)
    }

    /// The setting holds bytes.
    pub open spec fn is_bytes(self, value: Seq<u8>) -> bool {
        self.kind@ == "bytes"@ && self.value@ == value
    }

    pub fn string(value: &str) -> (setting: Self)
        ensures
            setting.is_string(value@),
    {
        Setting { kind: "string".to_owned(), value: slice_to_vec(value.as_bytes()) }
    }

    pub fn bytes(value: Vec<u8>) -> (setting: Self)
        ensures
            setting.is_bytes(value@),
    {
        Setting { kind: "bytes".to_owned(), value }
    }
}

/// `String::from_utf8`: the text that the bytes encode, or nothing where they
/// are not UTF-8.
#[verifier::external_body]
fn text_from_utf8(bytes: Vec<u8>) -> (text: Option<String>)
    ensures
        text is Some <==> valid_utf8(bytes@),
        text is Some ==> encode_utf8(text->0@) == bytes@,
{
    String::from_utf8(bytes).ok()
}

/// The error says that the setting holds another kind of value.
pub open spec fn is_wrong_kind(
    error: StorageError,
    key: Seq<char>,
    wanted: &'static str,
    actual: String,
) -> bool {
    error matches StorageError::SettingType { key: k, expected: e, actual: a } && k@ == key && e
        == wanted && a == actual
}

/// The error says that a text setting does not hold a text.
pub open spec fn is_bad_text(error: StorageError, key: Seq<char>) -> bool {
    error matches StorageError::InvalidSettingString { key: k } && k@ == key
}

/// The text of a setting.
fn text_of_setting(key: &str, setting: Setting) -> (result: Result<String, StorageError>)
    ensures
        match result {
            Ok(text) => setting.is_string(text@),
            Err(error) => if setting.kind@ != "string"@ {
                is_wrong_kind(error, key@, "string", setting.kind)
            } else {
                !valid_utf8(setting.value@) && is_bad_text(error, key@)
            },
        },
{
    if !is_text(setting.kind.as_str(), "string") {
        return Err(
            StorageError::SettingType {
                key: key.to_owned(),
                expected: "string",
                actual: setting.kind,
            },
        );
    }
    match text_from_utf8(setting.value) {
        Some(text) => Ok(text),
        None => Err(StorageError::InvalidSettingString { key: key.to_owned() }),
    }
}

/// Reads a setting that should hold a text. A text that was stored comes back.
pub fn get_string(key: &str, stored: Option<Setting>) -> (result: Result<
    Option<String>,
    StorageError,
>)
    ensures
        match (stored, result) {
            (None, Ok(found)) => found is None,
            (Some(setting), Ok(found)) => found is Some && setting.is_string(found->0@),
            (Some(setting), Err(error)) => if setting.kind@ != "string"@ {
                is_wrong_kind(error, key@, "string", setting.kind)
            } else {
                !valid_utf8(setting.value@) && is_bad_text(error, key@)
            },
            (None, Err(_)) => false,
        },
        forall|value: Seq<char>|
            stored is Some && #[trigger] stored->0.is_string(value) ==> result is Ok && view_of(
                result->Ok_0,
            ) == Some(value),
{
    match stored {
        None => Ok(None),
        Some(setting) => {
            proof {
                assert forall|value: Seq<char>| #[trigger] setting.is_string(value) implies valid_utf8(
                    setting.value@,
                ) && forall|other: Seq<char>|
                    encode_utf8(other) == setting.value@ ==> other == value by {
                    lemma_text_is_determined(value);
                }
            }
            match text_of_setting(key, setting) {
                Ok(text) => Ok(Some(text)),
                Err(error) => Err(error),
            }
        },
    }
}

/// Valid bytes encode one text.
proof fn lemma_text_is_determined(value: Seq<char>)
    ensures
        valid_utf8(encode_utf8(value)),
        forall|other: Seq<char>| encode_utf8(other) == encode_utf8(value) ==> other == value,
{
    vstd::utf8::encode_utf8_valid_utf8(value);
    vstd::utf8::encode_utf8_decode_utf8(value);
    assert forall|other: Seq<char>| encode_utf8(other) == encode_utf8(value) implies other
        == value by {
        vstd::utf8::encode_utf8_decode_utf8(other);
    }
}

/// The setting that stays where `value` is stored unless there is one already,
/// and its text.
pub fn get_or_insert_string(key: &str, stored: Option<Setting>, value: &str) -> (result: Result<
    String,
    StorageError,
>)
    ensures
        stored is None ==> result is Ok && result->Ok_0@ == value@,
        stored matches Some(setting) ==> match result {
            Ok(text) => setting.is_string(text@),
            Err(error) => if setting.kind@ != "string"@ {
                is_wrong_kind(error, key@, "string", setting.kind)
            } else {
                !valid_utf8(setting.value@) && is_bad_text(error, key@)
            },
        },
{
    match stored {
        None => Ok(value.to_owned()),
        Some(setting) => text_of_setting(key, setting),
    }
}

/// Reads a setting that should hold bytes. Bytes that were stored come back.
pub fn get_bytes(key: &str, stored: Option<Setting>) -> (result: Result<
    Option<Vec<u8>>,
    StorageError,
>)
    ensures
        match (stored, result) {
            (None, Ok(found)) => found is None,
            (Some(setting), Ok(found)) => setting.kind@ == "bytes"@ && found == Some(setting.value),
            (Some(setting), Err(error)) => setting.kind@ != "bytes"@ && is_wrong_kind(
                error,
                key@,
                "bytes",
                setting.kind,
            ),
            (None, Err(_)) => false,
        },
{
    match stored {
        None => Ok(None),
        Some(setting) => {
            if is_text(setting.kind.as_str(), "bytes") {
                Ok(Some(setting.value))
            } else {
                Err(
                    StorageError::SettingType {
                        key: key.to_owned(),
                        expected: "bytes",
                        actual: setting.kind,
                    },
                )
            }
        },
    }
}

/// A text is never read as bytes, nor bytes as a text.
pub proof fn law_settings_keep_their_kind(setting: Setting, text: Seq<char>, bytes: Seq<u8>)
    ensures
        !(setting.is_string(text) && setting.is_bytes(bytes)),
{
    reveal_strlit("string");
    reveal_strlit("bytes");
    assert("string"@.len() != "bytes"@.len());
}

/// What is known of a device after another sighting. A key was authenticated: a
/// sighting without one changes neither the key nor the name and address that
/// came with it.
pub open spec fn merged_device(
    known: Option<DiscoveredDevice>,
    seen: DiscoveredDevice,
) -> DiscoveredDevice {
    match known {
        None => seen,
        Some(device) => {
            let keeps = seen.public_key is None && device.public_key is Some;
            DiscoveredDevice {
                name: if keeps {
                    device.name
                } else {
                    seen.name
                },
                public_key: if seen.public_key is Some {
                    seen.public_key
                } else {
                    device.public_key
                },
                address: if keeps {
                    device.address
                } else {
                    seen.address
                },
                first_seen: if device.first_seen <= seen.first_seen {
                    device.first_seen
                } else {
                    seen.first_seen
                },
                ..seen
            }
        },
    }
}

/// The row of a device once it was seen again.
pub fn upsert_discovered_device(known: Option<DiscoveredDevice>, seen: DiscoveredDevice) -> (merged:
    DiscoveredDevice)
    ensures
        merged == merged_device(known, seen),
{
    match known {
        None => seen,
        Some(device) => {
            let first_seen: i64 = if device.first_seen <= seen.first_seen {
                device.first_seen
            } else {
                seen.first_seen
            };
            if seen.public_key.is_none() && device.public_key.is_some() {
                DiscoveredDevice {
                    device_id: seen.device_id,
                    name: device.name,
                    public_key: device.public_key,
                    address: device.address,
                    first_seen,
                    last_seen: seen.last_seen,
                }
            } else {
                DiscoveredDevice { first_seen, ..seen }
            }
        },
    }
}

/// However many sightings without a key follow, an authenticated key stays, and
/// so do the name and the address that came with it.
pub proof fn law_beacons_never_erase_a_key(
    known: DiscoveredDevice,
    first: DiscoveredDevice,
    second: DiscoveredDevice,
)
    requires
        known.public_key is Some,
        first.public_key is None,
        second.public_key is None,
    ensures
        ({
            let merged = merged_device(Some(merged_device(Some(known), first)), second);
            &&& merged.public_key == known.public_key
            &&& merged.name == known.name
            &&& merged.address == known.address
            &&& merged.last_seen == second.last_seen
            &&& merged.first_seen <= known.first_seen
        }),
{
}

/// A job as it is first written.
pub fn new_job_record(job: TransferJob, now: i64) -> (record: JobRecord)
    ensures
        record == (JobRecord {
            job,
            status: stored_status_of(job.status),
            error: None,
            created_at: now,
            updated_at: now,
        }),
        !crate::rows::status_disagrees(record),
{
    proof {
        crate::records::law_job_status_roundtrip(stored_status_of(job.status), job.status);
    }
    let status = StoredJobStatus::from(job.status);
    JobRecord { job, status, error: None, created_at: now, updated_at: now }
}

/// The row that stays where one is written only if there is none, and whether
/// it is the new one.
pub fn create_job_record_if_absent(existing: Option<JobRow>, row: JobRow) -> (kept: (JobRow, bool))
    ensures
        match existing {
            Some(found) => kept == (found, false),
            None => kept == (row, true),
        },
{
    match existing {
        Some(found) => (found, false),
        None => (row, true),
    }
}

/// The first file that belongs to another job.
pub open spec fn is_foreign_file(
    error: StorageError,
    files: Seq<JobFileRecord>,
    index: int,
    job_id: Uuid,
) -> bool {
    &&& 0 <= index < files.len()
    &&& files[index].job_id != job_id
    &&& forall|k: int| 0 <= k < index ==> (#[trigger] files[k]).job_id == job_id
    &&& error == (StorageError::InvalidData {
        field: "job_files.job_id",
        fault: RowFault::ForeignFile {
            path: files[index].path,
            owner: files[index].job_id,
            expected: job_id,
        },
    })
}

/// The first file whose record cannot be written.
pub open spec fn is_unwritable_file(
    error: StorageError,
    files: Seq<JobFileRecord>,
    index: int,
) -> bool {
    &&& 0 <= index < files.len()
    &&& file_row_error(files[index]) == Some(error)
    &&& forall|k: int| 0 <= k < index ==> file_row_error(#[trigger] files[k]) is None
}

/// The rows hold the records, one for one.
pub open spec fn rows_hold(rows: Seq<JobFileRow>, files: Seq<JobFileRecord>) -> bool {
    &&& rows.len() == files.len()
    &&& forall|i: int| 0 <= i < rows.len() ==> (#[trigger] rows[i]).holds(files[i])
}

/// The rows for some records of files: all of them or none.
pub fn prepare_job_files(files: &[JobFileRecord]) -> (result: Result<Vec<JobFileRow>, StorageError>)
    ensures
        match result {
            Ok(rows) => rows_hold(rows@, files@),
            Err(error) => exists|i: int| is_unwritable_file(error, files@, i),
        },
        result is Ok <==> forall|i: int|
            0 <= i < files@.len() ==> file_row_error(#[trigger] files@[i]) is None,
{
    let mut rows: Vec<JobFileRow> = Vec::new();
    let mut i: usize = 0;
    while i < files.len()
        invariant
            i <= files.len(),
            rows@.len() == i,
            forall|k: int| 0 <= k < i ==> (#[trigger] rows@[k]).holds(files@[k]),
            forall|k: int| 0 <= k < i ==> file_row_error(#[trigger] files@[k]) is None,
        decreases files.len() - i,
    {
        match JobFileRow::from_record(&files[i]) {
            Ok(row) => {
                rows.push(row);
            },
            Err(error) => {
                assert(is_unwritable_file(error, files@, i as int));
                return Err(error);
            },
        }
        i += 1;
    }
    Ok(rows)
}

/// The rows that replace all those of a job.
pub fn replace_job_files(job_id: Uuid, files: &[JobFileRecord]) -> (result: Result<
    Vec<JobFileRow>,
    StorageError,
>)
    ensures
        match result {
            Ok(rows) => rows_hold(rows@, files@) && forall|i: int|
                0 <= i < files@.len() ==> (#[trigger] files@[i]).job_id == job_id,
            Err(error) => {
                ||| exists|i: int| is_foreign_file(error, files@, i, job_id)
                ||| (forall|i: int| 0 <= i < files@.len() ==> (#[trigger] files@[i]).job_id
                    == job_id) && exists|i: int| is_unwritable_file(error, files@, i)
            },
        },
{
    let mut i: usize = 0;
    while i < files.len()
        invariant
            i <= files.len(),
            forall|k: int| 0 <= k < i ==> (#[trigger] files@[k]).job_id == job_id,
        decreases files.len() - i,
    {
        if files[i].job_id != job_id {
            let error = StorageError::InvalidData {
                field: "job_files.job_id",
                fault: RowFault::ForeignFile {
                    path: files[i].path.clone(),
                    owner: files[i].job_id,
                    expected: job_id,
                },
            };
            assert(is_foreign_file(error, files@, i as int, job_id));
            return Err(error);
        }
        i += 1;
    }
    prepare_job_files(files)
}

/// The paths that are not retained, in their order.
pub open spec fn dropped(paths: Seq<Seq<char>>, retained: Set<Seq<char>>) -> Seq<Seq<char>>
    decreases paths.len(),
{
    if paths.len() == 0 {
        Seq::<Seq<char>>::empty()
    } else {
        let rest = dropped(paths.drop_last(), retained);
        if retained.contains(paths.last()) {
            rest
        } else {
            rest.push(paths.last())
        }
    }
}

/// The paths whose rows go when only those of `retained` stay.
pub fn retain_job_files(existing: Vec<String>, retained: &StringHashSet) -> (removed: Vec<String>)
    ensures
        views(removed@) == dropped(views(existing@), retained@),
{
    let mut removed: Vec<String> = Vec::new();
    let mut i: usize = 0;
    assert(views(existing@.take(0)) =~= Seq::<Seq<char>>::empty());
    assert(views(removed@) =~= Seq::<Seq<char>>::empty());
    while i < existing.len()
        invariant
            i <= existing.len(),
            views(removed@) == dropped(views(existing@.take(i as int)), retained@),
        decreases existing.len() - i,
    {
        let ghost before = views(removed@);
        let ghost longer = views(existing@.take(i + 1));
        assert(longer.drop_last() =~= views(existing@.take(i as int)));
        if !retained.contains(existing[i].as_str()) {
            removed.push(existing[i].clone());
            assert(views(removed@) =~= before.push(existing@[i as int]@));
        }
        i += 1;
    }
    assert(existing@.take(i as int) =~= existing@);
    removed
}

/// Nothing that is retained goes, and nothing else stays.
pub proof fn law_exactly_the_rest_is_dropped(
    paths: Seq<Seq<char>>,
    retained: Set<Seq<char>>,
    path: Seq<char>,
)
    ensures
        dropped(paths, retained).contains(path) <==> paths.contains(path) && !retained.contains(
            path,
        ),
    decreases paths.len(),
{
    if paths.len() > 0 {
        law_exactly_the_rest_is_dropped(paths.drop_last(), retained, path);
        let rest = dropped(paths.drop_last(), retained);
        let all = dropped(paths, retained);
        assert(paths =~= paths.drop_last().push(paths.last()));
        if all.contains(path) {
            let k = choose|k: int| 0 <= k < all.len() && all[k] == path;
            if k < rest.len() {
                assert(rest[k] == path);
                let m = choose|m: int|
                    0 <= m < paths.drop_last().len() && paths.drop_last()[m] == path;
                assert(paths[m] == path);
            } else {
                assert(paths[paths.len() - 1] == path);
            }
        }
        if paths.contains(path) && !retained.contains(path) {
            let m = choose|m: int| 0 <= m < paths.len() && paths[m] == path;
            if m < paths.len() - 1 {
                assert(paths.drop_last()[m] == path);
                let k = choose|k: int| 0 <= k < rest.len() && rest[k] == path;
                assert(all[k] == path);
            } else {
                assert(all[rest.len() as int] == path);
            }
        }
    } else {
        assert(!dropped(paths, retained).contains(path));
    }
}

/// The rows for some chunks that have arrived: all of them or none.
pub fn prepare_chunks(chunks: &[CompletedChunk]) -> (result: Result<Vec<ChunkRow>, StorageError>)
    ensures
        match result {
            Ok(rows) => {
                &&& rows@.len() == chunks@.len()
                &&& forall|i: int| 0 <= i < rows@.len() ==> (#[trigger] rows@[i]).holds(chunks@[i])
            },
            Err(error) => exists|i: int|
                0 <= i < chunks@.len() && (#[trigger] chunks@[i]).index > i64::MAX && error == (
                StorageError::IntegerOutOfRange {
                    field: "chunks.chunk_index",
                    value: chunks@[i].index,
                }) && forall|k: int| 0 <= k < i ==> (#[trigger] chunks@[k]).index <= i64::MAX,
        },
        result is Ok <==> forall|i: int|
            0 <= i < chunks@.len() ==> (#[trigger] chunks@[i]).index <= i64::MAX,
{
    let mut rows: Vec<ChunkRow> = Vec::new();
    let mut i: usize = 0;
    while i < chunks.len()
        invariant
            i <= chunks.len(),
            rows@.len() == i,
            forall|k: int| 0 <= k < i ==> (#[trigger] rows@[k]).holds(chunks@[k]),
            forall|k: int| 0 <= k < i ==> (#[trigger] chunks@[k]).index <= i64::MAX,
        decreases chunks.len() - i,
    {
        match ChunkRow::from_record(&chunks[i]) {
            Ok(row) => {
                assert(row.index == chunks@[i as int].index);
                rows.push(row);
            },
            Err(error) => return Err(error),
        }
        i += 1;
    }
    Ok(rows)
}

/// The indices of some chunks that have arrived.
pub fn completed_chunk_indices(chunks: &[CompletedChunk]) -> (indices: Vec<u64>)
    ensures
        indices@.len() == chunks@.len(),
        forall|i: int| 0 <= i < indices@.len() ==> #[trigger] indices@[i] == chunks@[i].index,
{
    let mut indices: Vec<u64> = Vec::new();
    let mut i: usize = 0;
    while i < chunks.len()
        invariant
            i <= chunks.len(),
            indices@.len() == i,
            forall|k: int| 0 <= k < i ==> #[trigger] indices@[k] == chunks@[k].index,
        decreases chunks.len() - i,
    {
        indices.push(chunks[i].index);
        i += 1;
    }
    indices
}

/// What a sighting does to what is known of a device. A first sighting is stored as it
/// is. One with a key replaces name, address and key; one without does so only where no
/// key is known. The time of the first sighting only moves back, that of the last is
/// that of the sighting.
pub proof fn law_what_a_sighting_changes(known: DiscoveredDevice, seen: DiscoveredDevice)
    ensures
        merged_device(None, seen) == seen,
        ({
            let merged = merged_device(Some(known), seen);
            let newer = seen.public_key is Some || known.public_key is None;
            &&& merged.device_id == seen.device_id
            &&& newer ==> merged.name == seen.name && merged.address == seen.address
            &&& newer ==> merged.public_key == seen.public_key
            &&& !newer ==> merged.name == known.name && merged.address == known.address
                && merged.public_key == known.public_key
            &&& merged.last_seen == seen.last_seen
            &&& merged.first_seen <= known.first_seen && merged.first_seen <= seen.first_seen
            &&& merged.first_seen == known.first_seen || merged.first_seen == seen.first_seen
        }),
{
}

} // verus!
