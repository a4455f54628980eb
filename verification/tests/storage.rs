use fastsync::error::{RowFault, StorageError};
use fastsync::ids::Uuid;
use fastsync::manifest::{IncomingJob, IncomingJobKey, Platform};
use fastsync::model::{
    ChunkDescriptor, FileType, JobStatus, ManifestEntry, TransferConfig, TransferJob,
    TransferProgress, VerificationMode,
};
use fastsync::records::{
    move_job, CompletedChunk, DiscoveredDevice, HashCacheEntry, HashCacheKey, JobFileRecord,
    JobFileStatus, JobRecord, StoredJobStatus, TrustedPeer,
};
use fastsync::rows::{
    chunk_from_raw, device_from_raw, hash_cache_from_raw, hash_from_blob, job_file_from_raw,
    job_from_raw, parse_uuid, sqlite_integer, trusted_peer_from_raw, unsigned_integer, ChunkRow,
    DeviceRow, HashCacheRow, JobFileRow, JobRow, PreparedProgress, TrustedPeerRow,
};
use fastsync::storage::{
    completed_chunk_indices, create_job_record_if_absent, get_bytes, get_or_insert_string,
    get_string, new_job_record, now_millis, pending_migrations, prepare_chunks, replace_job_files,
    retain_job_files, upsert_discovered_device, Setting,
};

fn sample_progress() -> TransferProgress {
    TransferProgress {
        transferred_bytes: 20,
        total_bytes: 100,
        completed_files: 0,
        total_files: 1,
        ..TransferProgress::default()
    }
}

fn transfer_job(id: Uuid, status: JobStatus) -> TransferJob {
    let mut job = TransferJob::new("source", "destination", TransferConfig::default());
    job.id = id;
    job.status = status;
    job.progress = sample_progress();
    job
}

fn test_job(id: Uuid, status: JobStatus) -> JobRecord {
    JobRecord {
        job: transfer_job(id, status),
        status: status.into(),
        error: None,
        created_at: 100,
        updated_at: 101,
    }
}

fn row_of(record: &JobRecord) -> JobRow {
    JobRow::from_record(record, Ok(vec![1]), Ok(vec![2])).unwrap()
}

#[test]
fn settings_preserve_value_types() {
    let name = Setting::string("FastSync");
    assert_eq!(
        get_string("name", Some(name.clone())).unwrap().as_deref(),
        Some("FastSync")
    );
    let stored = [
        ("identity", vec![0, 1, 255]),
        ("certificate", vec![3, 4]),
        ("private-key", vec![5, 6]),
    ];
    for (key, value) in stored {
        assert_eq!(
            get_bytes(key, Some(Setting::bytes(value.clone()))),
            Ok(Some(value))
        );
    }
    assert_eq!(
        get_or_insert_string("token", None, "first").as_deref(),
        Ok("first")
    );
    assert_eq!(
        get_or_insert_string("token", Some(Setting::string("first")), "second").as_deref(),
        Ok("first")
    );
    assert!(matches!(
        get_bytes("name", Some(name)),
        Err(StorageError::SettingType { .. })
    ));
}

#[test]
fn a_string_setting_must_be_text() {
    let broken = Setting {
        kind: Setting::string("").kind,
        value: vec![0xff, 0xfe],
    };
    assert_eq!(
        get_string("name", Some(broken)),
        Err(StorageError::InvalidSettingString {
            key: "name".to_owned()
        })
    );
    assert_eq!(get_string("name", None), Ok(None));
    assert!(matches!(
        get_string("name", Some(Setting::bytes(vec![1]))),
        Err(StorageError::SettingType { .. })
    ));
    let greeting = Setting::string("h\u{e9}llo");
    assert_eq!(greeting.value, "h\u{e9}llo".as_bytes());
    assert_eq!(
        get_string("greeting", Some(greeting)),
        Ok(Some("h\u{e9}llo".to_owned()))
    );
}

#[test]
fn discovered_devices_upsert_by_id() {
    let device_id = Uuid::new_v4();
    let first = upsert_discovered_device(
        None,
        DiscoveredDevice {
            device_id,
            name: "first".to_owned(),
            public_key: Some(vec![1, 2]),
            address: "192.0.2.1:1".to_owned(),
            first_seen: 10,
            last_seen: 20,
        },
    );
    let device = upsert_discovered_device(
        Some(first),
        DiscoveredDevice {
            device_id,
            name: "updated".to_owned(),
            public_key: None,
            address: "192.0.2.1:2".to_owned(),
            first_seen: 15,
            last_seen: 30,
        },
    );
    assert_eq!(device.device_id, device_id);
    assert_eq!(device.name, "first");
    assert_eq!(device.public_key, Some(vec![1, 2]));
    assert_eq!(device.address, "192.0.2.1:1");
    assert_eq!(device.first_seen, 10);
    assert_eq!(device.last_seen, 30);

    let row = DeviceRow::from_record(device.clone());
    assert_eq!(row.device_id, device_id.to_text());
    assert_eq!(device_from_raw(row), Ok(device));
}

#[test]
fn hash_cache_requires_exact_file_metadata() {
    let original = HashCacheEntry {
        key: HashCacheKey {
            path: "data.bin".to_owned(),
            size: 128,
            mtime_ns: 42,
            chunk_size: 64,
        },
        full_hash: [7; 32],
        chunks: vec![ChunkDescriptor {
            index: 0,
            offset: 0,
            size: 64,
            hash: [8; 32],
        }],
        updated_at: 50,
    };
    let row = HashCacheRow::from_entry(&original, Ok(vec![9])).unwrap();
    assert_eq!(row.answers(&original.key), Ok(true));
    assert_eq!(
        hash_cache_from_raw(row.clone(), original.key.clone(), Ok(original.chunks.clone())),
        Ok(original.clone())
    );

    let stale_key = HashCacheKey {
        size: 129,
        ..original.key.clone()
    };
    assert_eq!(row.answers(&stale_key), Ok(false));

    let replacement = HashCacheEntry {
        key: stale_key.clone(),
        full_hash: [9; 32],
        chunks: Vec::new(),
        updated_at: 51,
    };
    let row = HashCacheRow::from_entry(&replacement, Ok(vec![0])).unwrap();
    assert_eq!(row.answers(&original.key), Ok(false));
    assert_eq!(row.answers(&stale_key), Ok(true));
    assert_eq!(
        hash_cache_from_raw(row, stale_key, Ok(Vec::new())),
        Ok(replacement)
    );
}

#[test]
fn trusted_peer_roundtrip_and_remove() {
    let peer = TrustedPeer {
        device_id: Uuid::new_v4(),
        name: "workstation".to_owned(),
        public_key: vec![1, 2, 3, 4],
        address: "192.0.2.4:43721".to_owned(),
        trusted_at: 100,
        last_seen: 200,
    };
    let row = TrustedPeerRow::from_record(peer.clone());
    assert_eq!(trusted_peer_from_raw(row.clone()), Ok(peer));
    let damaged = TrustedPeerRow {
        device_id: "nobody".to_owned(),
        ..row
    };
    assert!(matches!(
        trusted_peer_from_raw(damaged),
        Err(StorageError::InvalidData {
            fault: RowFault::InvalidIdentifier { .. },
            ..
        })
    ));
}

#[test]
fn updates_core_job_status_and_progress() {
    let job_id = Uuid::new_v4();
    let record = new_job_record(transfer_job(job_id, JobStatus::Pending), 7);
    assert_eq!(record.status, StoredJobStatus::Pending);
    assert_eq!((record.created_at, record.updated_at), (7, 7));
    let mut row = row_of(&record);

    let progress = TransferProgress {
        total_files: 4,
        completed_files: 2,
        total_bytes: 1_000,
        transferred_bytes: 600,
        skipped_files: 1,
        ..TransferProgress::default()
    };
    let prepared = PreparedProgress::new(&progress, Ok(vec![3])).unwrap();
    assert_eq!(prepared.bytes_transferred, 600);
    assert_eq!(prepared.total_files, 4);
    let status = StoredJobStatus::Verifying;
    row.set_status_and_progress(status, Ok(vec![9]), prepared, 8).unwrap();
    let job = move_job(record.job, status);
    let stored = job_from_raw(row, Ok(job), Ok(progress.clone())).unwrap();
    assert_eq!(stored.status, StoredJobStatus::Verifying);
    assert_eq!(stored.job.status, JobStatus::Verifying);
    assert_eq!(stored.job.progress, progress);
    assert_eq!((stored.created_at, stored.updated_at), (7, 8));
}

#[test]
fn create_job_if_absent_never_overwrites_existing_owner() {
    let job_id = Uuid::new_v4();
    let original = test_job(job_id, JobStatus::Transferring);
    let (kept, created) = create_job_record_if_absent(None, row_of(&original));
    assert!(created);

    let mut conflicting = original.clone();
    conflicting.job.source_root = "other-source".to_owned();
    conflicting.job.destination_root = "other-destination".to_owned();
    let other = JobRow::from_record(&conflicting, Ok(vec![4]), Ok(vec![5])).unwrap();
    let (kept_again, created) = create_job_record_if_absent(Some(kept.clone()), other);
    assert!(!created);
    assert_eq!(kept_again, kept);
    let stored = job_from_raw(kept_again, Ok(original.job.clone()), Ok(sample_progress())).unwrap();
    assert_eq!(stored.job.source_root, original.job.source_root);
    assert_eq!(stored.job.destination_root, original.job.destination_root);
}

#[test]
fn persists_jobs_files_and_resume_chunks() {
    let job_id = Uuid::new_v4();
    let job = test_job(job_id, JobStatus::Pending);
    assert_eq!(
        job_from_raw(row_of(&job), Ok(job.job.clone()), Ok(sample_progress())),
        Ok(job)
    );

    let file = JobFileRecord {
        job_id,
        path: "folder/file.bin".to_owned(),
        size: 100,
        status: JobFileStatus::Running,
        bytes_transferred: 50,
        error: None,
        updated_at: 102,
    };
    let mut row = JobFileRow::from_record(&file).unwrap();
    row.set_status(
        JobFileStatus::Failed,
        Some("connection lost".to_owned()),
        103,
    );
    let stored = job_file_from_raw(row).unwrap();
    assert_eq!(stored.status, JobFileStatus::Failed);
    assert_eq!(stored.error.as_deref(), Some("connection lost"));
    assert_eq!(stored.bytes_transferred, 50);

    let source_hash = [3; 32];
    let chunk = |index: u64, completed_at: i64| CompletedChunk {
        job_id,
        path: "folder/file.bin".to_owned(),
        index,
        source_hash,
        completed_at,
    };
    let rows = prepare_chunks(&[chunk(0, 103), chunk(1, 104)]).unwrap();
    assert!(rows[0].matches(0, &source_hash));
    assert!(!rows[0].matches(0, &[4; 32]));
    assert!(!rows[0].matches(1, &source_hash));
    let chunks: Vec<CompletedChunk> = rows
        .into_iter()
        .map(|row| chunk_from_raw(row).unwrap())
        .collect();
    assert_eq!(chunks, vec![chunk(0, 103), chunk(1, 104)]);
    assert_eq!(completed_chunk_indices(&chunks), vec![0, 1]);
    assert_eq!(completed_chunk_indices(&chunks[1..]), vec![1]);
}

#[test]
fn startup_marks_running_jobs_interrupted() {
    let running = test_job(Uuid::new_v4(), JobStatus::Transferring);
    let pending = test_job(Uuid::new_v4(), JobStatus::Pending);
    let mut running_row = row_of(&running);
    let mut pending_row = row_of(&pending);
    assert_eq!(running_row.interrupt(Ok(vec![1]), 200), Ok(true));
    assert_eq!(pending_row.interrupt(Ok(vec![1]), 200), Ok(false));

    let running = job_from_raw(running_row, Ok(running.job), Ok(sample_progress())).unwrap();
    let pending = job_from_raw(pending_row, Ok(pending.job), Ok(sample_progress())).unwrap();
    assert_eq!(running.status, StoredJobStatus::Interrupted);
    assert_eq!(running.job.status, JobStatus::Transferring);
    assert_eq!(running.updated_at, 200);
    assert_eq!(pending.status, StoredJobStatus::Pending);
    assert_eq!(pending.updated_at, 101);
}

#[test]
fn an_interrupted_job_keeps_the_phase_it_was_moved_to() {
    let record = test_job(Uuid::new_v4(), JobStatus::Pending);
    let mut row = row_of(&record);
    let progress = record.job.progress.clone();
    assert_eq!(
        row.set_status(StoredJobStatus::Verifying, Err("full".to_owned()), 7),
        Err(StorageError::Encode { kind: "transfer job", message: "full".to_owned() }),
    );
    assert_eq!(row, row_of(&record));

    let job = move_job(record.job, StoredJobStatus::Verifying);
    row.set_status(StoredJobStatus::Verifying, Ok(vec![7]), 7).unwrap();
    assert_eq!(row.payload, vec![7]);
    let verifying = job_from_raw(row.clone(), Ok(job), Ok(progress.clone())).unwrap();
    assert_eq!(verifying.job.status, JobStatus::Verifying);

    let job = move_job(verifying.job.clone(), StoredJobStatus::Interrupted);
    assert_eq!(row.interrupt(Ok(vec![8]), 8), Ok(true));
    assert_eq!(row.payload, vec![8]);
    let stored = job_from_raw(row, Ok(job), Ok(progress)).unwrap();
    assert_eq!(stored.status, StoredJobStatus::Interrupted);
    assert_eq!(stored.job.status, JobStatus::Verifying);
    assert_eq!(stored.job, verifying.job);
}

#[test]
fn a_running_file_is_interrupted_and_others_are_kept() {
    for (status, interrupted) in [
        (JobFileStatus::Running, true),
        (JobFileStatus::Pending, false),
        (JobFileStatus::Completed, false),
        (JobFileStatus::Failed, false),
        (JobFileStatus::Skipped, false),
    ] {
        let record = JobFileRecord {
            job_id: Uuid::from_u128(1),
            path: "a".to_owned(),
            size: 1,
            status,
            bytes_transferred: 0,
            error: None,
            updated_at: 1,
        };
        let mut row = JobFileRow::from_record(&record).unwrap();
        assert_eq!(row.interrupt(2), interrupted);
        let stored = job_file_from_raw(row).unwrap();
        let expected = if interrupted {
            JobFileStatus::Interrupted
        } else {
            status
        };
        assert_eq!(stored.status, expected);
    }
}

#[test]
fn a_stored_job_must_agree_with_its_payload() {
    let record = test_job(Uuid::from_u128(1), JobStatus::Pending);
    let row = row_of(&record);

    let foreign = transfer_job(Uuid::from_u128(2), JobStatus::Pending);
    assert!(matches!(
        job_from_raw(row.clone(), Ok(foreign), Ok(sample_progress())),
        Err(StorageError::InvalidData {
            fault: RowFault::ForeignPayload { .. },
            ..
        })
    ));

    let other_progress = TransferProgress {
        total_bytes: 101,
        ..sample_progress()
    };
    assert!(matches!(
        job_from_raw(row.clone(), Ok(record.job.clone()), Ok(other_progress)),
        Err(StorageError::InvalidData {
            fault: RowFault::ProgressDisagrees,
            ..
        })
    ));

    let unknown = JobRow {
        status: "melting".to_owned(),
        ..row.clone()
    };
    assert!(matches!(
        job_from_raw(unknown, Ok(record.job.clone()), Ok(sample_progress())),
        Err(StorageError::InvalidData {
            fault: RowFault::UnknownStatus { .. },
            ..
        })
    ));

    assert!(matches!(
        job_from_raw(row, Err("bad".to_owned()), Ok(sample_progress())),
        Err(StorageError::Decode { .. })
    ));
    assert!(matches!(
        JobRow::from_record(&record, Err("bad".to_owned()), Ok(vec![])),
        Err(StorageError::Encode { .. })
    ));
}

#[test]
fn a_new_job_row_must_agree_with_its_status() {
    let mut record = test_job(Uuid::from_u128(1), JobStatus::Pending);
    record.status = StoredJobStatus::Completed;
    assert!(matches!(
        JobRow::from_record(&record, Ok(vec![]), Ok(vec![])),
        Err(StorageError::InvalidData {
            fault: RowFault::StatusDisagrees,
            ..
        })
    ));
}

#[test]
fn integers_that_do_not_fit_are_reported() {
    assert_eq!(sqlite_integer(5, "size"), Ok(5));
    let beyond = 9_223_372_036_854_775_808;
    assert_eq!(
        sqlite_integer(beyond, "size"),
        Err(StorageError::IntegerOutOfRange {
            field: "size",
            value: beyond
        })
    );
    assert_eq!(unsigned_integer(5, "size"), Ok(5));
    assert_eq!(
        unsigned_integer(-1, "size"),
        Err(StorageError::InvalidData {
            field: "size",
            fault: RowFault::NegativeValue { value: -1 }
        })
    );
}

#[test]
fn identifiers_and_hashes_are_checked() {
    let id = Uuid::from_u128(0x0123_4567_89ab_cdef_0123_4567_89ab_cdef);
    assert_eq!(
        parse_uuid(&"01234567-89ab-cdef-0123-456789abcdef".to_owned(), "id"),
        Ok(id)
    );
    assert!(parse_uuid(&"not an id".to_owned(), "id").is_err());
    assert_eq!(hash_from_blob(vec![6; 32], "hash"), Ok([6; 32]));
    assert_eq!(
        hash_from_blob(vec![6; 31], "hash"),
        Err(StorageError::InvalidData {
            field: "hash",
            fault: RowFault::WrongHashLength { length: 31 }
        })
    );
    let row = ChunkRow {
        job_id: id.to_text(),
        path: "a".to_owned(),
        index: -1,
        source_hash: vec![0; 32],
        completed_at: 0,
    };
    assert!(chunk_from_raw(row).is_err());
}

#[test]
fn replacing_job_files_takes_only_the_jobs_own_files() {
    let file = |job: u128| JobFileRecord {
        job_id: Uuid::from_u128(job),
        path: "a".to_owned(),
        size: 1,
        status: JobFileStatus::Pending,
        bytes_transferred: 0,
        error: None,
        updated_at: 1,
    };
    assert_eq!(
        replace_job_files(Uuid::from_u128(1), &[file(1)]).unwrap().len(),
        1
    );
    assert!(matches!(
        replace_job_files(Uuid::from_u128(1), &[file(1), file(2)]),
        Err(StorageError::InvalidData {
            fault: RowFault::ForeignFile { .. },
            ..
        })
    ));
}

#[test]
fn retaining_drops_exactly_the_other_paths() {
    let mut job = IncomingJob::new(
        IncomingJobKey {
            peer_id: Uuid::from_u128(1),
            job_id: Uuid::from_u128(2),
        },
        "/d",
        "/d",
        "/d/.fastsync-stage-x",
        ".fastsync-stage-x",
        Platform::Posix,
        VerificationMode::Fast,
        1024,
    );
    let id = Uuid::from_u128(3);
    job.begin_manifest_batch(id, 0).unwrap();
    let entry = ManifestEntry::new("keep".to_owned(), 1, 1, FileType::File, false).unwrap();
    job.record_manifest_entry(&entry).unwrap();
    let retained = job
        .finish_manifest_batch(id, 0, true)
        .unwrap()
        .unwrap()
        .file_paths;
    let existing = vec!["drop".to_owned(), "keep".to_owned(), "gone".to_owned()];
    assert_eq!(
        retain_job_files(existing, &retained),
        vec!["drop".to_owned(), "gone".to_owned()]
    );
}

#[test]
fn schema_versions_above_the_supported_one_are_refused() {
    assert_eq!(pending_migrations(0), Ok(vec![1, 2]));
    assert_eq!(pending_migrations(1), Ok(vec![2]));
    assert_eq!(pending_migrations(2), Ok(vec![]));
    assert_eq!(
        pending_migrations(3),
        Err(StorageError::UnsupportedSchemaVersion {
            found: 3,
            supported: 2
        })
    );
}

#[test]
fn clock_readings_become_milliseconds() {
    assert_eq!(now_millis(Ok(1_234)), Ok(1_234));
    assert!(matches!(
        now_millis(Err("before the epoch".to_owned())),
        Err(StorageError::SystemTime(_))
    ));
    assert!(now_millis(Ok(1 << 70)).is_err());
}

#[test]
fn status_names_read_back() {
    for status in [
        StoredJobStatus::Pending,
        StoredJobStatus::Scanning,
        StoredJobStatus::Transferring,
        StoredJobStatus::Verifying,
        StoredJobStatus::Paused,
        StoredJobStatus::Completed,
        StoredJobStatus::CompletedWithErrors,
        StoredJobStatus::Failed,
        StoredJobStatus::Cancelled,
        StoredJobStatus::Interrupted,
    ] {
        assert_eq!(StoredJobStatus::from_str(status.as_str()), Some(status));
    }
    assert_eq!(StoredJobStatus::CompletedWithErrors.as_str(), "completed_with_errors");
    assert_eq!(StoredJobStatus::from_str("Pending"), None);
    for status in [
        JobFileStatus::Pending,
        JobFileStatus::Running,
        JobFileStatus::Completed,
        JobFileStatus::Failed,
        JobFileStatus::Skipped,
        JobFileStatus::Interrupted,
    ] {
        assert_eq!(JobFileStatus::from_str(status.as_str()), Some(status));
    }
    assert_eq!(StoredJobStatus::Interrupted.core_status(), None);
}
