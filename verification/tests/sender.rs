use fastsync::decisions::{compare_batch, compare_batch_count, Decisions, FileUpdate};
use fastsync::error::{CoreError, DataFault, NetworkFault, ProtocolError, TransferError};
use fastsync::finish::finalized_bytes;
use fastsync::hashing::ChunkHasher;
use fastsync::ids::Uuid;
use fastsync::manifest::Platform;
use fastsync::model::{
    FileError, FileOperation, FileType, HashedFile, JobStatus, ManifestEntry, TransferConfig,
    TransferJob, VerificationMode,
};
use fastsync::negotiation::{requested_chunk, HashBatches, NegotiatedFile};
use fastsync::outgoing::{
    count_files, failure_status, pending_records, validate_config, wait_until_active, Gate,
    OutgoingJob,
};
use fastsync::plan::{plan_complete_file, plan_file};
use fastsync::records::JobFileStatus;
use fastsync::scan::ScanResult;
use fastsync::stream::{
    Acknowledgement, ChunkAcknowledgement, CompareAction, CompareDecision, CompareDecisionBatch,
    FileAcknowledgement, FilePlanBatch, JobAcknowledgement, RemoteError, RemoteErrorCode, Response,
};
use fastsync::transfer::{begin_transfer, Comparing, Hashing};
use fastsync::upload::{
    check_source_unchanged, source_path, upload_chunk, verify_source_snapshot, CheckedSource,
    SentChunk, UploadRecord,
};

const CHUNK: u64 = 4;

fn job() -> TransferJob {
    let mut job = TransferJob::with_id(
        Uuid::from_u128(2),
        "/source",
        "/destination",
        TransferConfig {
            verification_mode: VerificationMode::Verified,
            chunk_size: CHUNK,
            concurrency: 2,
            retry_limit: 1,
        },
    );
    job.peer_id = Some(Uuid::from_u128(9));
    job
}

fn entry(path: &str, size: u64) -> ManifestEntry {
    ManifestEntry::new(path.to_owned(), size, 20, FileType::File, false).unwrap()
}

fn hashed(path: &str, content: &[u8]) -> HashedFile {
    let mut hasher = ChunkHasher::new(CHUNK);
    for block in content.chunks(CHUNK as usize) {
        assert!(hasher.absorb(block));
    }
    let (hash, chunks, total) = hasher.finish();
    HashedFile {
        entry: entry(path, total),
        hash,
        chunks,
    }
}

/// Sends a chunk of a file to a receiver that acknowledges it.
fn send(file: &HashedFile, content: &[u8], index: usize) -> SentChunk {
    let chunk = file.chunks[index];
    let mut upload = upload_chunk(Uuid::from_u128(2), Uuid::from_u128(30), file, chunk);
    let (start, end) = (chunk.offset as usize, (chunk.offset + chunk.size) as usize);
    upload.absorb(&content[start..end]).unwrap();
    let answer = Response::Acknowledged(Acknowledgement::Chunk(ChunkAcknowledgement {
        job_id: Uuid::from_u128(2),
        manifest_id: Uuid::from_u128(30),
        path: file.entry.relative_path.clone(),
        index: chunk.index,
        size: chunk.size,
    }));
    upload.finish(answer, String::new()).ok().unwrap()
}

/// Looks at a source file that is still what it was.
fn checked(file: &HashedFile) -> CheckedSource {
    let (path, current) = ("source", file.entry.source_metadata());
    let source = check_source_unchanged(path, file, Ok(current)).ok().unwrap();
    verify_source_snapshot(path, file, source, &file.hash, Ok(current))
        .ok()
        .unwrap()
}

fn scan(entries: Vec<ManifestEntry>) -> ScanResult {
    ScanResult {
        entries,
        symlinks_skipped: 1,
        unsupported_entries_skipped: 0,
        errors: vec![FileError::new(
            Some("unreadable".to_owned()),
            FileOperation::Scan,
            "denied".to_owned(),
        )],
    }
}

fn comparing(entries: Vec<ManifestEntry>) -> Comparing {
    let scanning = begin_transfer(job()).ok().unwrap();
    assert_eq!(scanning.job().job().status, JobStatus::Scanning);
    let (connecting, records) = scanning.scanned(scan(entries), 5);
    assert!(records
        .iter()
        .all(|record| record.status == JobFileStatus::Pending));
    assert_eq!(connecting.job().job().progress.symlinks_skipped, 1);
    connecting
        .connected(Uuid::from_u128(9), true, Uuid::from_u128(30))
        .ok()
        .unwrap()
}

fn compared(entries: Vec<ManifestEntry>, actions: &[CompareAction]) -> (Hashing, Vec<FileUpdate>) {
    let mut stage = comparing(entries);
    let batch = stage.next_batch().unwrap().unwrap();
    let decisions = batch
        .entries
        .iter()
        .zip(actions)
        .map(|(entry, action)| CompareDecision {
            path: entry.relative_path.clone(),
            action: *action,
        })
        .collect();
    let response = Response::Compare(CompareDecisionBatch {
        job_id: batch.job_id,
        manifest_id: batch.manifest_id,
        sequence: batch.sequence,
        is_last: batch.is_last,
        decisions,
    });
    stage.accept(&batch, &response).unwrap();
    assert!(stage.next_batch().is_none());
    stage.compared().ok().unwrap()
}

#[test]
fn a_transfer_reaches_its_receiver() {
    let sent = hashed("sent.bin", b"aaaabbbbcc");
    let reused = hashed("reused.bin", b"dddd");
    let entries = vec![
        reused.entry.duplicate(),
        entry("same.bin", 3),
        sent.entry.duplicate(),
    ];
    let (mut stage, updates) = compared(
        entries,
        &[
            CompareAction::NeedHash,
            CompareAction::Unchanged,
            CompareAction::Transfer,
        ],
    );
    assert_eq!(updates.len(), 1);
    assert_eq!(updates[0].status, JobFileStatus::Skipped);
    assert_eq!(stage.to_hash().len(), 2);
    for index in [1, 0] {
        let file = [&reused, &sent][index];
        assert_eq!(stage.to_hash()[index], file.entry);
        let update = stage
            .accept(index, Ok(file.duplicate()), String::new())
            .unwrap();
        assert_eq!(update, None);
    }
    assert_eq!(stage.hashed_bytes(), 14);
    let mut stage = stage.hashed();
    while let Some(probe) = stage.next_probe() {
        assert_eq!(probe.unwrap().files.len(), 1);
        assert_eq!(stage.accept(Ok(())), None);
    }
    let mut stage = stage.probed();
    while stage.next_candidate().is_some() {
        stage.accept(Ok(())).unwrap();
    }
    let mut stage = stage.batched();
    let request = stage.next_request().unwrap().unwrap();
    assert_eq!(request.files.len(), 2);
    assert!(request.is_last);
    let plans = vec![
        plan_complete_file(&request.files[0]),
        plan_file(
            &request.files[1],
            &std::collections::HashSet::from([0]),
            &std::collections::HashSet::new(),
        ),
    ];
    let response = Response::Negotiate(FilePlanBatch {
        job_id: request.job_id,
        manifest_id: request.manifest_id,
        sequence: request.sequence,
        is_last: request.is_last,
        plans,
    });
    assert_eq!(
        stage.accept(&request, Ok(response), String::new()),
        Ok(None)
    );
    assert!(stage.next_request().is_none());
    let mut stage = stage.negotiated().ok().unwrap();
    assert_eq!(stage.job().job().progress.queued_chunks, 2);
    let work = stage.work();
    assert_eq!(work.len(), 2);
    assert_eq!(work[0].chunk.index, 1);
    for item in &work {
        let chunk = send(&sent, b"aaaabbbbcc", item.chunk.index as usize);
        let record = stage.accept(item, Ok(Some(chunk)), String::new()).unwrap().unwrap();
        assert!(matches!(record, UploadRecord::Transferred(_)));
    }
    assert_eq!(stage.phase_bytes(), 6);
    let mut stage = stage.uploaded();
    let mut finalized = Vec::new();
    while stage.next_file() {
        let path = stage.current().entry.relative_path.clone();
        let response = Response::Acknowledged(Acknowledgement::File(FileAcknowledgement {
            job_id: Uuid::from_u128(2),
            manifest_id: Uuid::from_u128(30),
            path: path.clone(),
        }));
        let source = checked(stage.current());
        finalized.push(stage.accept(source, Ok(response), String::new()).unwrap());
    }
    assert_eq!(finalized.len(), 2);
    assert_eq!(finalized_bytes(&sent, &finalized[1]), Some(10));
    assert_eq!(finalized_bytes(&reused, &finalized[0]), Some(4));
    let stage = stage.finalized();
    let response = Response::Acknowledged(Acknowledgement::Job(JobAcknowledgement {
        job_id: Uuid::from_u128(2),
        manifest_id: Uuid::from_u128(30),
        completed_with_errors: false,
        failed_files: 0,
    }));
    let job = stage.completed(&response, String::new()).ok().unwrap();
    assert_eq!(job.status, JobStatus::CompletedWithErrors);
    assert_eq!(job.errors.len(), 1);
    assert_eq!(job.progress.completed_files, 3);
    assert_eq!(job.progress.transferred_files, 1);
    assert_eq!(job.progress.skipped_files, 2);
    assert_eq!(job.progress.total_bytes, 17);
}

#[test]
fn a_file_whose_chunk_fails_is_not_finalized() {
    let content = b"aaaabbbb";
    let (broken, good) = (hashed("broken.bin", content), hashed("good.bin", content));
    let (mut stage, _) = compared(
        vec![broken.entry.duplicate(), good.entry.duplicate()],
        &[CompareAction::Transfer, CompareAction::Transfer],
    );
    for (index, file) in [&broken, &good].into_iter().enumerate() {
        stage.accept(index, Ok(file.duplicate()), String::new()).unwrap();
    }
    let mut stage = stage.hashed();
    while stage.next_probe().is_some() {
        assert_eq!(stage.accept(Ok(())), None);
    }
    let mut stage = stage.probed();
    while stage.next_candidate().is_some() {
        stage.accept(Ok(())).unwrap();
    }
    let mut stage = stage.batched();
    let request = stage.next_request().unwrap().unwrap();
    let none = std::collections::HashSet::new();
    let response = Response::Negotiate(FilePlanBatch {
        job_id: request.job_id,
        manifest_id: request.manifest_id,
        sequence: request.sequence,
        is_last: request.is_last,
        plans: request.files.iter().map(|file| plan_file(file, &none, &none)).collect(),
    });
    stage.accept(&request, Ok(response), String::new()).unwrap();
    let mut stage = stage.negotiated().ok().unwrap();
    let work = stage.work();
    assert_eq!(work.len(), 4);
    for item in &work {
        let path = stage.items()[item.file].file.entry.relative_path.clone();
        let outcome = if path == "good.bin" {
            Ok(Some(send(&good, content, item.chunk.index as usize)))
        } else if stage.is_terminal(&path) {
            Ok(None)
        } else {
            Err(TransferError::InvalidData(DataFault::SourceEnded {
                path: path.clone(),
                index: item.chunk.index,
            }))
        };
        stage.accept(item, outcome, "ended".to_owned()).unwrap();
    }
    assert_eq!(stage.job().job().progress.failed_files, 1);
    assert_eq!(stage.phase_bytes(), 8);
    let mut stage = stage.uploaded();
    assert!(stage.next_file());
    assert_eq!(stage.current().entry.relative_path, "good.bin");
    let update = stage.reject("changed".to_owned());
    assert_eq!(update.status, JobFileStatus::Failed);
    assert_eq!(finalized_bytes(&good, &update), None);
    assert!(!stage.next_file());
    assert_eq!(stage.job().job().progress.failed_files, 2);
}

#[test]
fn a_failed_file_does_not_stop_the_transfer() {
    let file = hashed("a.bin", b"abcd");
    let (mut stage, _) = compared(vec![file.entry.duplicate()], &[CompareAction::Transfer]);
    let update = stage
        .accept(
            0,
            Err(TransferError::InvalidData(DataFault::FileTooLarge {
                path: "a.bin".to_owned(),
            })),
            "too large".to_owned(),
        )
        .unwrap()
        .unwrap();
    assert_eq!(update.status, JobFileStatus::Failed);
    assert_eq!(update.path, "a.bin");
    assert_eq!(update.error.as_deref(), Some("too large"));
    assert_eq!(stage.hashed_bytes(), 0);
    let stage = stage.hashed();
    assert!(stage.next_probe().is_none());
    let failed = stage.fail(TransferError::Cancelled);
    let job = failed.into_job();
    assert_eq!(job.status, JobStatus::Cancelled);
    assert_eq!(job.progress.failed_files, 1);
}

#[test]
fn a_conflict_is_recorded() {
    let (stage, updates) = compared(vec![entry("a", 1)], &[CompareAction::Conflict]);
    assert_eq!(updates.len(), 1);
    assert_eq!(updates[0].status, JobFileStatus::Failed);
    assert!(stage.to_hash().is_empty());
    assert_eq!(stage.job().job().progress.failed_files, 1);
}

#[test]
fn comparisons_must_answer_the_question() {
    let mut stage = comparing(vec![entry("a", 1)]);
    let batch = stage.next_batch().unwrap().unwrap();
    let answer = |job: u128, path: &str| {
        Response::Compare(CompareDecisionBatch {
            job_id: Uuid::from_u128(job),
            manifest_id: batch.manifest_id,
            sequence: 0,
            is_last: true,
            decisions: vec![CompareDecision {
                path: path.to_owned(),
                action: CompareAction::NeedHash,
            }],
        })
    };
    assert_eq!(
        stage.accept(&batch, &answer(3, "a")),
        Err(TransferError::InvalidData(DataFault::MismatchedComparison))
    );
    assert!(matches!(
        stage.accept(&batch, &answer(2, "b")),
        Err(TransferError::InvalidData(DataFault::UnexpectedComparison { .. }))
    ));
    assert_eq!(
        Decisions::new().accept(&batch, &Response::Pong(fastsync::stream::PongResponse { nonce: 0 })),
        Err(TransferError::InvalidData(DataFault::WrongComparison))
    );
}

#[test]
fn manifests_are_sent_in_batches() {
    assert_eq!(compare_batch_count(0), 1);
    assert_eq!(compare_batch_count(512), 1);
    assert_eq!(compare_batch_count(513), 2);
    let entries: Vec<ManifestEntry> = (0..513).map(|i| entry(&format!("f{i}"), 1)).collect();
    let first = compare_batch(&job(), Uuid::from_u128(30), &entries, 0).unwrap();
    let last = compare_batch(&job(), Uuid::from_u128(30), &entries, 1).unwrap();
    assert_eq!((first.entries.len(), first.is_last), (512, false));
    assert_eq!((last.entries.len(), last.is_last), (1, true));
    assert_eq!(last.entries[0].relative_path, "f512");
}

#[test]
fn only_a_trusted_peer_is_used() {
    let connect = |peer: u128, trusted: bool| {
        begin_transfer(job())
            .ok()
            .unwrap()
            .scanned(scan(vec![]), 5)
            .0
            .connected(Uuid::from_u128(peer), trusted, Uuid::from_u128(30))
    };
    assert!(connect(9, true).is_ok());
    let failed = connect(9, false).err().unwrap();
    assert!(matches!(failed.error, TransferError::UntrustedPeer { .. }));
}

#[test]
fn configurations_of_jobs_are_checked() {
    assert_eq!(validate_config(&job()), Ok(()));
    let mut broken = job();
    broken.config.chunk_size = 0;
    assert!(matches!(
        validate_config(&broken),
        Err(TransferError::InvalidData(DataFault::InvalidChunkSize { .. }))
    ));
    let mut broken = job();
    broken.config.concurrency = 0;
    assert_eq!(
        validate_config(&broken),
        Err(TransferError::InvalidData(DataFault::ZeroConcurrency))
    );
    let mut broken = job();
    broken.destination_root = "relative".to_owned();
    assert!(begin_transfer(broken).is_err());
}

#[test]
fn files_are_counted() {
    let entries = vec![
        entry("a", 3),
        ManifestEntry::new("d".to_owned(), 0, 0, FileType::Directory, false).unwrap(),
        entry("b", 4),
    ];
    assert_eq!(count_files(&entries), Some((2, 7)));
    let huge = vec![entry("a", u64::MAX), entry("b", 1)];
    assert_eq!(count_files(&huge), None);
    assert_eq!(pending_records(Uuid::from_u128(2), &entries, 5).len(), 2);
    assert_eq!(wait_until_active(true, true, false), Gate::Cancelled);
    assert_eq!(wait_until_active(false, true, false), Gate::Wait);
    assert_eq!(wait_until_active(false, false, false), Gate::Proceed);
    assert_eq!(failure_status(&TransferError::Cancelled), JobStatus::Cancelled);
    assert_eq!(
        failure_status(&TransferError::Task("lost".to_owned())),
        JobStatus::Failed
    );
}

#[test]
fn a_file_fails_once() {
    let mut outgoing = OutgoingJob::new(job());
    outgoing.record_file_failure("a", FileOperation::Read, "first".to_owned());
    outgoing.record_file_failure("a", FileOperation::Read, "second".to_owned());
    assert!(outgoing.has_failed("a"));
    assert!(!outgoing.has_failed("b"));
    assert_eq!(outgoing.job().progress.failed_files, 1);
    assert_eq!(outgoing.into_job().errors.len(), 1);
}

#[test]
fn hash_batches_are_bounded_by_count_and_size() {
    let mut batches = HashBatches::new();
    for index in 0..65 {
        batches.make_room();
        let file = hashed(&format!("f{index}"), b"a");
        batches.add(file, Ok(())).unwrap();
    }
    let packed = batches.finish();
    let sizes: Vec<usize> = packed.iter().map(|batch| batch.len()).collect();
    assert_eq!(sizes, vec![64, 1]);
    for (index, file) in packed.iter().flatten().enumerate() {
        assert_eq!(file.entry.relative_path, format!("f{index}"));
    }

    let mut batches = HashBatches::new();
    batches.add(hashed("a", b"a"), Ok(())).unwrap();
    assert_eq!(batches.candidate(&hashed("b", b"b")).len(), 2);
    let too_large = || {
        Err(ProtocolError::FrameTooLarge {
            size: 2,
            maximum: 1,
        })
    };
    batches.add(hashed("b", b"b"), too_large()).unwrap();
    let sizes: Vec<usize> = batches.finish().iter().map(|batch| batch.len()).collect();
    assert_eq!(sizes, vec![1, 1]);
}

#[test]
fn chunks_are_uploaded_with_their_content_checked() {
    let file = hashed("a.bin", b"abcdef");
    let upload = || upload_chunk(Uuid::from_u128(2), Uuid::from_u128(30), &file, file.chunks[0]);
    let header = upload().header();
    assert_eq!((header.offset, header.size), (0, 4));
    let acknowledgement = |index: u64| {
        Response::Acknowledged(Acknowledgement::Chunk(ChunkAcknowledgement {
            job_id: Uuid::from_u128(2),
            manifest_id: Uuid::from_u128(30),
            path: "a.bin".to_owned(),
            index,
            size: 4,
        }))
    };
    let mut good = upload();
    assert_eq!(good.wanted(), 4);
    good.absorb(b"abcd").unwrap();
    assert!(good.finish(acknowledgement(0), String::new()).is_ok());
    let mut wrong = upload();
    wrong.absorb(b"abcd").unwrap();
    assert!(matches!(
        wrong.finish(acknowledgement(1), "other".to_owned()),
        Err(TransferError::InvalidData(DataFault::UnexpectedResponse { .. }))
    ));
    let mut ended = upload();
    assert!(matches!(
        ended.absorb(b""),
        Err(TransferError::InvalidData(DataFault::SourceEnded { index: 0, .. }))
    ));
    let mut changed = upload();
    assert!(matches!(
        changed.absorb(b"wxyz").and_then(|_| changed.finish(acknowledgement(0), String::new())),
        Err(TransferError::InvalidData(DataFault::SourceChangedInChunk { index: 0, .. }))
    ));
}

#[test]
fn sources_are_checked_before_they_are_finalized() {
    let file = hashed("a.bin", b"abcdef");
    let metadata = file.entry.source_metadata();
    let unchanged = || check_source_unchanged("a.bin", &file, Ok(metadata)).ok().unwrap();
    assert!(verify_source_snapshot("a.bin", &file, unchanged(), &file.hash, Ok(metadata)).is_ok());
    assert!(matches!(
        verify_source_snapshot("a.bin", &file, unchanged(), &[0; 32], Ok(metadata)),
        Err(CoreError::HashMismatch { .. })
    ));
    let mut grown = metadata;
    grown.size += 1;
    assert!(matches!(
        check_source_unchanged("a.bin", &file, Ok(grown)),
        Err(CoreError::SourceChanged { .. })
    ));
    assert!(matches!(
        verify_source_snapshot("a.bin", &file, unchanged(), &file.hash, Ok(grown)),
        Err(CoreError::SourceChanged { .. })
    ));
    assert_eq!(
        source_path(Platform::Posix, "/source", "a/b"),
        Ok("/source/a/b".to_owned())
    );
    assert!(source_path(Platform::Posix, "/source", "../b").is_err());
    assert_eq!(requested_chunk(&file, 1).unwrap().offset, 4);
    assert!(requested_chunk(&file, 2).is_err());
    let item = NegotiatedFile {
        plan: plan_complete_file(&file),
        file,
    };
    let mut outgoing = OutgoingJob::new(job());
    let lost = TransferError::Network(NetworkFault::Transport("lost".to_owned()));
    assert_eq!(
        fastsync::finish::accept_finalize(
            &mut outgoing,
            &item,
            Uuid::from_u128(30),
            Err(lost.clone()),
            String::new()
        ),
        Err(lost)
    );
    let refused = TransferError::from(RemoteError {
        code: RemoteErrorCode::HashMismatch,
        message: "differs".to_owned(),
        retryable: false,
        job_id: None,
        path: Some("a.bin".to_owned()),
    });
    let update = fastsync::finish::accept_finalize(
        &mut outgoing,
        &item,
        Uuid::from_u128(30),
        Err(refused),
        "differs".to_owned(),
    )
    .unwrap();
    assert_eq!(update.status, JobFileStatus::Failed);
}
