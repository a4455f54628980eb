use std::collections::HashSet;

use fastsync::compare::{
    check_compare_request, open_job, parse_stored_manifest, staging_root, CompareRun,
    FileInspection,
};
use fastsync::completion::{
    acknowledge_chunk, acknowledge_completed_job, acknowledge_job, check_chunks_complete,
    check_finalize, check_in_place, check_upload, completion_directory, completion_progress,
    completion_status, ensure_receiver_job, receiver_job, receiver_job_matches,
    retire_incoming_job, should_hash_in_place, unfinished_files,
};
use fastsync::connections::{ConnectionJobs, JobConnections};
use fastsync::decisions::Decisions;
use fastsync::error::{CoreError, DataFault, NetworkFault, TransferError};
use fastsync::filesystem::{
    canonical_child_path, copy_verified_chunk, create_manifest_directory,
    destination_candidate_path, ensure_destination_root, ensure_one_directory, ensure_parents,
    ensure_root, existing_destination, finalize_error, hash_region, prepare_partial,
    staging_file_path, DirectoryStep,
};
use fastsync::hashing::ChunkHasher;
use fastsync::ids::Uuid;
use fastsync::incoming::{completed_chunk, receive_chunk, IncomingFile};
use fastsync::lease::{destination_lease_key, DestinationLeases};
use fastsync::manifest::{CompletedManifest, IncomingJob, IncomingJobKey, Platform};
use fastsync::metadata::{NodeKind, NodeStatus, Timestamp};
use fastsync::model::{
    ChunkDescriptor, FileType, HashedFile, JobStatus, ManifestEntry, VerificationMode,
};
use fastsync::negotiate::{
    answer_negotiation, check_job_request, check_negotiated_file, is_identical, locate_incoming_file,
    plan_finalized_file, resume_incoming_file, should_hash_existing, uses_hash_cache,
    FilePreparation, NegotiationFault, Resumption,
};
use fastsync::partial::FinalizeStage;
use fastsync::path::PathComponent;
use fastsync::plan::{plan_complete_file, plan_file, validate_file_plan};
use fastsync::preparing::{PreparationRun, PrepareNeed};
use fastsync::receiver::{
    authorize_request, contextual_remote, frame_limit, job_not_found, manifest_setting_key, pong,
    remote_error, request_job_key, staging_setting_key, validate_chunk_size, version_refusal,
};
use fastsync::reconcile::{
    check_stale_staging, cleanup_staging_root, reconcile_path, release_stale_leases, stale_paths,
};
use fastsync::records::{
    job_file_record, JobFileRecord, JobFileStatus, JobRecord, StoredJobStatus,
};
use fastsync::serving::{AdmittedRequest, CompletionRun, FinalizeNeed, FinalizeRun};
use fastsync::storage::new_job_record;
use fastsync::stream::{
    Acknowledgement, ChunkHeader, CompareAction, CompareBatch, CompleteJobRequest,
    FinalizeFileRequest, PingRequest, RemoteErrorCode, Request, Response,
};
use fastsync::protocol::{Versioned, PROTOCOL_VERSION};

const CHUNK: u64 = 4;
const STAGING: &str = "/destination/.fastsync-stage-test";

fn key(job: u128) -> IncomingJobKey {
    IncomingJobKey {
        peer_id: Uuid::from_u128(1),
        job_id: Uuid::from_u128(job),
    }
}

fn job_on(platform: Platform, job: u128) -> IncomingJob {
    IncomingJob::new(
        key(job),
        "/destination",
        "/destination",
        STAGING,
        ".fastsync-stage-test",
        platform,
        VerificationMode::Verified,
        CHUNK,
    )
}

fn state() -> IncomingJob {
    job_on(Platform::Posix, 2)
}

fn entry(path: &str, size: u64) -> ManifestEntry {
    ManifestEntry::new(path.to_owned(), size, 20, FileType::File, false).unwrap()
}

fn directory(path: &str) -> ManifestEntry {
    ManifestEntry::new(path.to_owned(), 0, 20, FileType::Directory, false).unwrap()
}

fn hashed(path: &str, content: &[u8]) -> HashedFile {
    let mut hasher = ChunkHasher::new(CHUNK);
    for block in content.chunks(CHUNK as usize) {
        assert!(hasher.absorb(block));
    }
    let (hash, chunks, total) = hasher.finish();
    HashedFile {
        entry: entry(path, total),
        hash,
        chunks,
    }
}

fn complete(job: &mut IncomingJob, id: u128, entries: &[ManifestEntry]) -> CompletedManifest {
    let id = Uuid::from_u128(id);
    job.begin_manifest_batch(id, 0).unwrap();
    for entry in entries {
        job.record_manifest_entry(entry).unwrap();
    }
    job.finish_manifest_batch(id, 0, true).ok().unwrap().unwrap()
}

fn commit(job: &mut IncomingJob, id: u128, entries: &[ManifestEntry]) {
    let manifest = complete(job, id, entries);
    job.commit_manifest(Uuid::from_u128(id), manifest.entries);
}

fn regular(length: u64) -> NodeStatus {
    NodeStatus {
        kind: NodeKind::File,
        length,
        modified: Timestamp {
            before_epoch: false,
            seconds: 1,
            nanoseconds: 0,
        },
        read_only: false,
    }
}

fn data(error: TransferError) -> DataFault {
    match error {
        TransferError::InvalidData(fault) => fault,
        other => panic!("not about data: {other:?}"),
    }
}

#[test]
fn committed_manifest_binds_negotiation_to_id_and_metadata() {
    let mut state = state();
    let manifest_id = Uuid::from_u128(3);
    let entry = ManifestEntry::new("file.bin".to_owned(), 10, 20, FileType::File, false).unwrap();
    state.begin_manifest_batch(manifest_id, 0).unwrap();
    state.record_manifest_entry(&entry).unwrap();
    let manifest = state
        .finish_manifest_batch(manifest_id, 0, true)
        .ok()
        .unwrap()
        .expect("manifest was not completed");
    state.commit_manifest(manifest_id, manifest.entries);

    state.validate_manifest_id(manifest_id).unwrap();
    state.validate_negotiated_entry(&entry).unwrap();
    assert!(state.validate_manifest_id(Uuid::from_u128(4)).is_err());
    let changed = ManifestEntry::new("file.bin".to_owned(), 11, 20, FileType::File, false).unwrap();
    assert!(state.validate_negotiated_entry(&changed).is_err());
}

#[test]
fn manifest_rejects_case_aliases_and_file_ancestors() {
    let mut state = state();
    state.validate_manifest_path("Folder/File").unwrap();
    assert!(state.validate_manifest_path("folder/file").is_err());

    let manifest_id = Uuid::from_u128(5);
    state.begin_manifest_batch(manifest_id, 0).unwrap();
    state
        .record_manifest_entry(
            &ManifestEntry::new("parent".to_owned(), 1, 1, FileType::File, false).unwrap(),
        )
        .unwrap();
    assert!(state
        .record_manifest_entry(
            &ManifestEntry::new("parent/child".to_owned(), 1, 1, FileType::File, false).unwrap()
        )
        .is_err());
}

#[test]
fn case_aliases_are_found_beyond_ascii() {
    let mut state = state();
    state.validate_manifest_path("Файл").unwrap();
    assert_eq!(
        data(state.validate_manifest_path("файл").err().unwrap()),
        DataFault::CaseAlias {
            existing: "Файл".to_owned()
        }
    );
    assert_eq!(state.validate_manifest_path("Файл"), Ok(()));
    assert!(matches!(
        data(
            state
                .validate_manifest_path(".fastsync-stage-test/a")
                .err()
                .unwrap()
        ),
        DataFault::StagingNamespace { .. }
    ));
}

#[test]
fn manifest_generations_replace_each_other() {
    let mut job = state();
    let (first, second) = (Uuid::from_u128(10), Uuid::from_u128(11));
    assert_eq!(
        data(job.begin_manifest_batch(first, 1).err().unwrap()),
        DataFault::BatchBeforeStart { sequence: 1 }
    );
    job.begin_manifest_batch(first, 0).unwrap();
    job.record_manifest_entry(&entry("a", 1)).unwrap();
    assert_eq!(
        data(job.record_manifest_entry(&entry("a", 1)).err().unwrap()),
        DataFault::DuplicatePath {
            path: "a".to_owned()
        }
    );
    assert!(job.finish_manifest_batch(first, 0, false).ok().unwrap().is_none());
    assert_eq!(
        data(job.begin_manifest_batch(first, 2).err().unwrap()),
        DataFault::UnexpectedBatch {
            expected: 1,
            received: 2
        }
    );
    job.begin_manifest_batch(second, 0).unwrap();
    assert_eq!(
        data(job.begin_manifest_batch(first, 1).err().unwrap()),
        DataFault::ObsoleteGeneration { sequence: 1 }
    );
    assert!(matches!(
        data(job.begin_manifest_batch(first, 0).err().unwrap()),
        DataFault::ManifestIdReused { .. }
    ));
    job.record_manifest_entry(&entry("x/y", 1)).unwrap();
    assert_eq!(
        data(job.record_manifest_entry(&entry("x", 1)).err().unwrap()),
        DataFault::AncestorOfAnother {
            path: "x".to_owned()
        }
    );
    assert_eq!(
        data(job.finish_manifest_batch(second, 3, true).err().unwrap()),
        DataFault::BatchNotActive { sequence: 3 }
    );
}

#[test]
fn a_job_is_completed_once() {
    let mut job = state();
    assert_eq!(job.begin_operation(), Ok(()));
    job.begin_completion().unwrap();
    assert!(matches!(
        job.begin_operation(),
        Err(TransferError::Network(NetworkFault::JobRetiring { .. }))
    ));
    assert!(matches!(
        data(job.begin_completion().err().unwrap()),
        DataFault::AlreadyCompleting { .. }
    ));
    job.end_completion(false);
    assert_eq!(job.begin_operation(), Ok(()));
    job.begin_completion().unwrap();
    job.end_completion(true);
    assert!(job.begin_operation().is_err());
}

#[test]
fn directories_are_finished_from_the_deepest() {
    let mut job = state();
    for path in ["a", "a/b/c", "a/b"] {
        job.remember_directory(directory(path));
    }
    job.remember_directory(directory("a"));
    let order: Vec<String> = job
        .directories_deepest_first()
        .into_iter()
        .map(|directory| directory.entry.relative_path)
        .collect();
    assert_eq!(order, vec!["a/b/c", "a/b", "a"]);
    job.remember_directory_failure("a".to_owned(), "denied".to_owned());
    assert_eq!(job.directory_failure_count(), 1);
}

#[test]
fn a_job_keeps_its_parameters() {
    let job = state();
    assert_eq!(
        job.validate_parameters("/destination", VerificationMode::Verified, CHUNK),
        Ok(())
    );
    for refused in [
        job.validate_parameters("/other", VerificationMode::Verified, CHUNK),
        job.validate_parameters("/destination", VerificationMode::Fast, CHUNK),
        job.validate_parameters("/destination", VerificationMode::Verified, 8),
    ] {
        assert!(matches!(
            data(refused.err().unwrap()),
            DataFault::ParametersChanged { .. }
        ));
    }
}

#[test]
fn destinations_are_leased_to_one_job() {
    let mut leases = DestinationLeases::new(Platform::Posix);
    let mut first = job_on(Platform::Posix, 2);
    let mut second = job_on(Platform::Posix, 3);
    leases
        .acquire_destination_lease(&mut first, "/destination/a", "a")
        .unwrap();
    assert_eq!(
        leases.ensure_destination_lease(key(2), "/destination/a", "a"),
        Ok(())
    );
    assert!(leases
        .acquire_destination_lease(&mut second, "/destination/a", "a")
        .is_err());
    assert!(matches!(
        leases.acquire_destination_lease(&mut second, "/destination/a/b", "a/b"),
        Err(TransferError::Network(NetworkFault::DestinationOverlaps { .. }))
    ));
    assert!(matches!(
        leases.ensure_destination_available(key(3), "/destination"),
        Err(TransferError::Network(NetworkFault::RootOverlaps { .. }))
    ));
    assert!(matches!(
        data(
            leases
                .ensure_destination_lease(key(3), "/destination/a", "a")
                .err()
                .unwrap()
        ),
        DataFault::LeaseLost { .. }
    ));
    assert_eq!(first.lease_keys(), vec!["/destination/a".to_owned()]);
    leases.release_destination_leases(&first);
    assert_eq!(leases.lease_under("/destination/a"), None);
    leases
        .acquire_destination_lease(&mut second, "/destination/a", "a")
        .unwrap();
    assert_eq!(
        leases.lease_under("/destination/a").unwrap().owner,
        key(3)
    );
    assert_eq!(
        destination_lease_key(Platform::Windows, "C:\\Data"),
        destination_lease_key(Platform::Windows, "c:\\data")
    );
    assert_eq!(destination_lease_key(Platform::Posix, "/Data/Файл"), "/data/файл");
    assert_eq!(
        destination_lease_key(Platform::Windows, "\\\\?\\C:\\Data/x"),
        "c:\\data\\x"
    );
}

#[test]
fn connections_count_their_jobs() {
    let mut connections = JobConnections::new();
    let mut first = ConnectionJobs::new();
    let mut second = ConnectionJobs::new();
    assert!(connections.register_job_connection(key(2), &mut first));
    assert!(!connections.register_job_connection(key(2), &mut first));
    assert!(connections.register_job_connection(key(2), &mut second));
    assert!(connections.is_connected(key(2)));
    assert_eq!(connections.connection_closed(&first), vec![]);
    assert!(connections.is_connected(key(2)));
    assert_eq!(connections.connection_closed(&second), vec![key(2)]);
    assert!(!connections.is_connected(key(2)));
    let mut only = ConnectionJobs::only(key(4));
    only.remove(key(4));
    assert_eq!(connections.connection_closed(&only), vec![]);
}

fn batch(entries: Vec<ManifestEntry>) -> CompareBatch {
    CompareBatch {
        job_id: Uuid::from_u128(2),
        manifest_id: Uuid::from_u128(30),
        destination_root: "/destination".to_owned(),
        verification_mode: VerificationMode::Verified,
        chunk_size: CHUNK,
        sequence: 0,
        is_last: true,
        entries,
    }
}

#[test]
fn compare_requests_are_admitted() {
    let request = batch(vec![]);
    let job = state();
    assert_eq!(
        check_compare_request(&request, None, Some(&job), Platform::Posix),
        Ok(())
    );
    let committed = Uuid::from_u128(30).to_text();
    assert_eq!(
        parse_stored_manifest(Some(&committed)),
        Some(Uuid::from_u128(30))
    );
    assert!(matches!(
        data(
            check_compare_request(&request, Some(&committed), None, Platform::Posix)
                .err()
                .unwrap()
        ),
        DataFault::ManifestIdCommitted { .. }
    ));
    let mut other = batch(vec![]);
    other.chunk_size = 0;
    assert!(matches!(
        data(check_compare_request(&other, None, None, Platform::Posix).err().unwrap()),
        DataFault::InvalidChunkSize { chunk_size: 0 }
    ));
    assert!(validate_chunk_size(1).is_ok());
}

#[test]
fn the_staging_directory_is_named_by_a_token() {
    let token = Uuid::from_u128(77);
    let (root, name) = staging_root(Platform::Posix, "/destination", key(2), &token.to_text())
        .ok()
        .unwrap();
    assert_eq!(name, format!(".fastsync-stage-{}", token.to_text()));
    assert_eq!(root, format!("/destination/{name}"));
    assert!(matches!(
        data(staging_root(Platform::Posix, "/destination", key(2), "token").err().unwrap()),
        DataFault::StagingTokenInvalid { .. }
    ));
    assert!(manifest_setting_key(key(2)).contains(&Uuid::from_u128(2).to_text()));
    assert_ne!(manifest_setting_key(key(2)), staging_setting_key(key(2)));
    assert_ne!(staging_setting_key(key(2)), staging_setting_key(key(3)));
}

#[test]
fn entries_are_compared_with_the_destination() {
    let mut leases = DestinationLeases::new(Platform::Posix);
    let mut job = state();
    open_job(
        &mut job,
        &mut leases,
        "/destination",
        VerificationMode::Verified,
        CHUNK,
    )
    .unwrap();
    let entries = vec![directory("d"), entry("d/new", 1), entry("d/same", 2), entry("d/bad", 3)];
    let request = batch(entries.clone());
    let mut run = CompareRun::begin(&mut job, request.clone()).unwrap();
    let findings = [
        None,
        Some(FileInspection::Absent),
        Some(FileInspection::Present(entries[2].duplicate())),
        Some(FileInspection::PathFailed("link".to_owned())),
    ];
    for (item, finding) in entries.iter().zip(findings) {
        assert_eq!(run.entry(), Some(item));
        let destination = run.admit_next(&mut job, &mut leases).unwrap();
        assert_eq!(destination, format!("/destination/{}", item.relative_path));
        match finding {
            None => run.decide_directory(&mut job, Ok(())),
            Some(inspection) => run.decide_file(inspection, 9),
        }
    }
    assert_eq!(run.entry(), None);
    assert_eq!(run.records().len(), 3);
    let manifest = run.close(&mut job).unwrap();
    assert!(manifest.is_some());
    let answer = match run.answer() {
        Response::Compare(answer) => answer,
        other => panic!("unexpected answer {other:?}"),
    };
    let mut decisions = Decisions::new();
    assert_eq!(decisions.accept(&request, &Response::Compare(answer.clone())), Ok(()));
    let actions: Vec<CompareAction> = answer.decisions.iter().map(|d| d.action).collect();
    assert_eq!(
        actions,
        vec![
            CompareAction::Unchanged,
            CompareAction::NeedHash,
            CompareAction::NeedHash,
            CompareAction::Conflict
        ]
    );
    assert_eq!(answer.manifest_id, request.manifest_id);
    assert!(answer.is_last);
}

#[test]
fn fast_comparison_trusts_metadata() {
    let mut request = batch(vec![]);
    request.verification_mode = VerificationMode::Fast;
    let same = entry("same", 2);
    request.entries = vec![same.duplicate()];
    let mut leases = DestinationLeases::new(Platform::Posix);
    let mut job = state();
    let mut run = CompareRun::begin(&mut job, request).unwrap();
    run.admit_next(&mut job, &mut leases).unwrap();
    run.decide_file(FileInspection::Present(same), 9);
    run.close(&mut job).unwrap();
    assert!(matches!(
        run.answer(),
        Response::Compare(answer) if answer.decisions[0].action == CompareAction::Unchanged
    ));
    assert!(uses_hash_cache(VerificationMode::Fast));
    assert!(!uses_hash_cache(VerificationMode::Verified));
}

fn header(file: &HashedFile, index: usize) -> ChunkHeader {
    let chunk = file.chunks[index];
    ChunkHeader {
        job_id: Uuid::from_u128(2),
        manifest_id: Uuid::from_u128(30),
        path: file.entry.relative_path.clone(),
        index: chunk.index,
        offset: chunk.offset,
        size: chunk.size,
        hash: chunk.hash,
    }
}

fn opened(content: &[u8]) -> (IncomingJob, DestinationLeases, IncomingFile, HashedFile) {
    let file = hashed("a.bin", content);
    let mut leases = DestinationLeases::new(Platform::Posix);
    let mut job = state();
    leases
        .acquire_destination_lease(&mut job, "/destination/a.bin", "a.bin")
        .unwrap();
    commit(&mut job, 30, &[file.entry.duplicate()]);
    let incoming = IncomingFile::new(
        file.duplicate(),
        "/destination/a.bin",
        "/destination/.fastsync-stage-test/a.bin",
    );
    (job, leases, incoming, file)
}

#[test]
fn chunks_received_in_any_order_make_up_the_file() {
    let content = b"abcdefghij";
    let (_, _, mut incoming, file) = opened(content);
    let mut staged = vec![0u8; content.len()];
    for index in [2, 0, 1] {
        let chunk = incoming.begin_upload(&header(&file, index)).unwrap();
        let place = chunk.offset as usize..(chunk.offset + chunk.size) as usize;
        let mut receipt = receive_chunk(&incoming, chunk, &regular(10)).ok().unwrap();
        receipt.absorb(&content[place.clone()]).unwrap();
        assert!(receipt.finish(0).is_ok());
        staged[place.clone()].copy_from_slice(&content[place]);
        incoming.end_upload(index as u64);
    }
    assert!(incoming.is_quiet());
    assert_eq!(staged, content);
    assert_eq!(*blake3::hash(&staged).as_bytes(), file.hash);
}

#[test]
fn uploaded_chunks_are_checked_and_acknowledged() {
    let (job, leases, mut incoming, file) = opened(b"abcdefghij");
    let first = header(&file, 0);
    assert_eq!(check_upload(&job, &leases, Some(&incoming), &first), Ok(()));
    assert!(matches!(
        data(check_upload(&job, &leases, None, &first).err().unwrap()),
        DataFault::NotNegotiated { .. }
    ));
    let chunk = incoming.begin_upload(&first).unwrap();
    assert!(!incoming.is_quiet());
    assert!(matches!(
        data(incoming.begin_upload(&first).err().unwrap()),
        DataFault::ChunkBusy { index: 0, .. }
    ));
    let mut receipt = receive_chunk(&incoming, chunk, &regular(10)).ok().unwrap();
    assert_eq!(receipt.wanted(), 4);
    receipt.absorb(b"ab").unwrap();
    receipt.absorb(b"cd").unwrap();
    let received = receipt.finish(0).ok().unwrap();
    assert_eq!(*received.chunk(), chunk);
    incoming.end_upload(0);
    assert!(incoming.is_quiet());
    let record = completed_chunk(Uuid::from_u128(2), &file, &received, 50);
    assert_eq!((record.index, record.completed_at), (0, 50));
    assert_eq!(record.source_hash, file.hash);
    let answer = acknowledge_chunk(&first, &received);
    assert_eq!((answer.index, answer.size), (0, 4));
    assert_eq!(answer.path, "a.bin");

    let chunk = incoming.begin_upload(&first).unwrap();
    let mut receipt = receive_chunk(&incoming, chunk, &regular(10)).ok().unwrap();
    assert!(matches!(
        receipt.absorb(b""),
        Err(TransferError::Network(NetworkFault::ChunkTruncated {
            missing: 4,
            ..
        }))
    ));
    let mut receipt = receive_chunk(&incoming, chunk, &regular(10)).ok().unwrap();
    receipt.absorb(b"wxyz").unwrap();
    assert!(matches!(
        data(receipt.finish(0).err().unwrap()),
        DataFault::ChunkHashMismatch { .. }
    ));
    let mut receipt = receive_chunk(&incoming, chunk, &regular(10)).ok().unwrap();
    receipt.absorb(b"abcd").unwrap();
    assert!(matches!(
        data(receipt.finish(1).err().unwrap()),
        DataFault::TrailingChunkBytes { .. }
    ));
    assert!(matches!(
        receive_chunk(&incoming, chunk, &regular(9)),
        Err(TransferError::InvalidData(DataFault::PartialUnusable { .. }))
    ));
    let mut wrong = header(&file, 1);
    wrong.offset = 3;
    assert!(matches!(
        data(incoming.begin_upload(&wrong).err().unwrap()),
        DataFault::UnknownDescriptor { .. }
    ));
    incoming.mark_finalized();
    assert!(matches!(
        data(incoming.begin_upload(&header(&file, 1)).err().unwrap()),
        DataFault::AlreadyFinalized { .. }
    ));
}

#[test]
fn negotiated_files_must_match_the_manifest() {
    let (job, leases, incoming, file) = opened(b"abcdefghij");
    assert_eq!(check_job_request(&job, Uuid::from_u128(30)), Ok(()));
    assert!(check_job_request(&job, Uuid::from_u128(31)).is_err());
    assert!(check_negotiated_file(&job, &file).is_ok());
    let mut foreign = file.duplicate();
    foreign.entry.mtime_ns = 21;
    assert!(matches!(
        check_negotiated_file(&job, &foreign),
        Err(NegotiationFault::Foreign(_))
    ));
    let mut malformed = file.duplicate();
    malformed.chunks.pop();
    assert!(matches!(
        check_negotiated_file(&job, &malformed),
        Err(NegotiationFault::Malformed(_))
    ));
    assert_eq!(
        locate_incoming_file(&job, &leases, "a.bin"),
        Ok("/destination/a.bin".to_owned())
    );
    assert_eq!(
        resume_incoming_file(
            Some(&incoming),
            &file,
            "/destination/a.bin",
            incoming.staging()
        ),
        Ok(Resumption::Open)
    );
    assert_eq!(
        resume_incoming_file(None, &file, "/destination/a.bin", "s"),
        Ok(Resumption::New)
    );
    assert!(matches!(
        data(
            resume_incoming_file(Some(&incoming), &foreign, "/destination/a.bin", "s")
                .err()
                .unwrap()
        ),
        DataFault::NegotiationChanged { .. }
    ));
}

#[test]
fn chunks_are_resumed_or_reused_where_they_match() {
    let file = hashed("a.bin", b"aaaabbbbcc");
    let existing = hashed("a.bin", b"xxxxbbbbcc");
    let mut preparation = FilePreparation::new(file.duplicate());
    assert_eq!(preparation.resume_candidate(9), None);
    let chunk = preparation.resume_candidate(0).unwrap();
    assert!(preparation.resume(0, Some(&chunk.hash)));
    assert!(!preparation.resume(1, Some(&[0; 32])));
    assert!(!preparation.resume(1, None));
    let candidates = preparation.reuse_candidates(&existing);
    let indices: Vec<u64> = candidates.iter().map(|chunk| chunk.index).collect();
    assert_eq!(indices, vec![1, 2]);
    preparation.reuse(1, true);
    preparation.reuse(2, false);
    let plan = preparation.plan();
    assert_eq!(plan.resumed_chunks, vec![0]);
    assert_eq!(plan.reused_chunks, vec![1]);
    assert_eq!(plan.missing_chunks, vec![2]);
    assert_eq!(
        (plan.resumed_bytes, plan.reused_bytes, plan.missing_bytes),
        (4, 4, 2)
    );
    assert_eq!(validate_file_plan(&file, &plan), Ok(()));
    assert_eq!(preparation.reused_records(Uuid::from_u128(2), 7).len(), 1);

    let mut repeated = plan.clone();
    repeated.reused_chunks.push(0);
    assert!(matches!(
        data(validate_file_plan(&file, &repeated).err().unwrap()),
        DataFault::PlanChunkRepeated { index: 0, .. }
    ));
    let mut unknown = plan.clone();
    unknown.missing_chunks.push(3);
    assert!(matches!(
        data(validate_file_plan(&file, &unknown).err().unwrap()),
        DataFault::PlanChunkUnknown { index: 3, .. }
    ));
    let mut wrong = plan.clone();
    wrong.missing_bytes = 3;
    assert!(matches!(
        data(validate_file_plan(&file, &wrong).err().unwrap()),
        DataFault::PlanTotalsInconsistent { .. }
    ));
    let whole = plan_complete_file(&file);
    assert_eq!(whole.reused_chunks, vec![0, 1, 2]);
    assert_eq!(validate_file_plan(&file, &whole), Ok(()));
    let none = plan_file(&file, &HashSet::new(), &HashSet::new());
    assert_eq!(none.missing_chunks, vec![0, 1, 2]);
    assert_eq!(none.missing_bytes, 10);
    assert!(is_identical(&file, Some(&file)));
    assert!(!is_identical(&file, Some(&existing)));
}

#[test]
fn a_finalized_destination_is_checked_again() {
    let file = hashed("a.bin", b"abcd");
    assert_eq!(
        plan_finalized_file(&file, &regular(4), Some(&file.hash))
            .unwrap()
            .reused_bytes,
        4
    );
    assert!(plan_finalized_file(&file, &regular(4), None).is_err());
    assert!(plan_finalized_file(&file, &regular(5), Some(&file.hash)).is_err());
    assert_eq!(should_hash_existing(&file, "d", None), Ok(false));
    assert_eq!(
        should_hash_existing(&file, "d", Some(&entry("a.bin", 4))),
        Ok(true)
    );
    assert!(should_hash_existing(&file, "d", Some(&directory("a.bin"))).is_err());
}

#[test]
fn a_file_is_prepared_step_by_step() {
    let content = b"aaaabbbbcc";
    let (job, leases, _, file) = opened(content);
    let existing = hashed("a.bin", b"xxxxbbbbcc");
    let mut run = PreparationRun::begin(&job, &leases, file.duplicate()).unwrap();
    assert_eq!(run.need(), PrepareNeed::Places);
    run.places(None, "/destination/a.bin".to_owned(), "s".to_owned()).unwrap();
    assert_eq!(run.destination_path(), "/destination/a.bin");
    assert_eq!(run.staging_path(), "s");
    assert_eq!(run.need(), PrepareNeed::Destination);
    run.destination(Some(&entry("a.bin", 10))).unwrap();
    assert_eq!(run.need(), PrepareNeed::DestinationHash);
    run.destination_hash(existing);
    assert_eq!(run.need(), PrepareNeed::Partial);
    run.partial(Some(regular(9)));
    assert_eq!(run.need(), PrepareNeed::ClearedChunks);
    run.cleared();
    assert_eq!(run.need(), PrepareNeed::RecordedChunks);
    run.recorded(vec![0, 7]);
    assert_eq!(run.need(), PrepareNeed::StagedChunk);
    let (index, chunk) = run.next_recorded();
    assert_eq!((index, chunk), (0, Some(file.chunks[0])));
    assert!(run.staged_chunk(Some(&file.chunks[0].hash)));
    assert_eq!(run.next_recorded(), (7, None));
    assert!(!run.staged_chunk(None));
    assert_eq!(run.need(), PrepareNeed::Copy);
    assert_eq!(run.next_copy(), file.chunks[1]);
    let mut whole = copy_verified_chunk(&run.next_copy());
    whole.absorb(&content[4..8]);
    run.copied(whole);
    assert_eq!(run.next_copy(), file.chunks[2]);
    let mut changed = copy_verified_chunk(&run.next_copy());
    changed.absorb(b"cx");
    run.copied(changed);
    assert_eq!(run.need(), PrepareNeed::CopiedRecords);
    let records = run.copied_records(7);
    assert_eq!(records.len(), 1);
    assert_eq!((records[0].index, records[0].completed_at), (1, 7));
    run.copies_recorded();
    assert_eq!(run.need(), PrepareNeed::Entry);
    assert!(!run.is_complete());
    run.entered();
    assert_eq!(run.need(), PrepareNeed::Row);
    let record = run.record(11);
    assert_eq!((record.path.as_str(), record.size), ("a.bin", 10));
    assert_eq!((record.status, record.bytes_transferred), (JobFileStatus::Running, 0));
    assert_eq!((record.error, record.updated_at), (None, 11));
    run.row_written();
    assert_eq!(run.need(), PrepareNeed::Plan);
    let plan = run.plan();
    assert_eq!(plan.resumed_chunks, vec![0]);
    assert_eq!(plan.reused_chunks, vec![1]);
    assert_eq!(plan.missing_chunks, vec![2]);
    let answer = answer_negotiation(Uuid::from_u128(2), Uuid::from_u128(30), 0, true, vec![plan]);
    assert!(matches!(answer, Response::Negotiate(batch) if batch.is_last && batch.plans.len() == 1));
}

#[test]
fn a_usable_staged_file_keeps_its_records() {
    let (job, leases, _, file) = opened(b"abcdefghij");
    for (found, need) in [
        (Some(regular(10)), PrepareNeed::RecordedChunks),
        (Some(regular(11)), PrepareNeed::ClearedChunks),
        (None, PrepareNeed::ClearedChunks),
    ] {
        let mut run = PreparationRun::begin(&job, &leases, file.duplicate()).unwrap();
        run.places(None, "/destination/a.bin".to_owned(), "s".to_owned()).unwrap();
        run.destination(None).unwrap();
        assert_eq!(run.need(), PrepareNeed::Partial);
        run.partial(found);
        assert_eq!(run.need(), need);
    }
}

#[test]
fn identical_content_needs_only_its_metadata() {
    let (job, leases, _, file) = opened(b"abcdefghij");
    let mut run = PreparationRun::begin(&job, &leases, file.duplicate()).unwrap();
    run.places(None, "/destination/a.bin".to_owned(), "s".to_owned()).unwrap();
    run.destination(Some(&entry("a.bin", 10))).unwrap();
    run.destination_hash(file.duplicate());
    assert_eq!(run.need(), PrepareNeed::Metadata);
    run.metadata_applied();
    assert_eq!(run.need(), PrepareNeed::Entry);
    assert!(run.is_complete());
    run.entered();
    run.row_written();
    assert_eq!(run.plan(), plan_complete_file(&file));
}

#[test]
fn a_file_finalized_before_is_hashed_again() {
    let (job, leases, mut incoming, file) = opened(b"abcdefghij");
    incoming.mark_finalized();
    let begin = || {
        let mut run = PreparationRun::begin(&job, &leases, file.duplicate()).unwrap();
        let places = (incoming.destination().to_owned(), incoming.staging().to_owned());
        run.places(Some(&incoming), places.0, places.1).unwrap();
        assert_eq!(run.need(), PrepareNeed::FinalizedStatus);
        run
    };
    let mut run = begin();
    run.finalized_status(regular(10)).unwrap();
    run.finalized_hash(&file.hash).unwrap();
    assert_eq!(run.need(), PrepareNeed::Row);
    run.row_written();
    assert_eq!(run.plan(), plan_complete_file(&file));
    assert!(matches!(
        data(begin().finalized_status(regular(9)).err().unwrap()),
        DataFault::FinalizedDestinationChanged { .. }
    ));
    let mut changed = begin();
    changed.finalized_status(regular(10)).unwrap();
    assert!(matches!(
        data(changed.finalized_hash(&[0; 32]).err().unwrap()),
        DataFault::FinalizedDestinationChanged { .. }
    ));
    let mut moved = PreparationRun::begin(&job, &leases, file.duplicate()).unwrap();
    assert!(matches!(
        data(moved.places(Some(&incoming), "/elsewhere".to_owned(), "s".to_owned()).err().unwrap()),
        DataFault::NegotiationChanged { .. }
    ));
}

#[test]
fn a_file_is_finalized_step_by_step() {
    let (job, leases, incoming, file) = opened(b"abcdefghij");
    let request = FinalizeFileRequest {
        job_id: Uuid::from_u128(2),
        manifest_id: Uuid::from_u128(30),
        file: file.duplicate(),
    };
    assert_eq!(
        check_finalize(&job, &leases, Some(&incoming), &request),
        Ok(())
    );
    let mut run = FinalizeRun::begin(&job, &leases, Some(&incoming), request.clone())
        .ok()
        .unwrap();
    assert_eq!(run.need(), FinalizeNeed::Chunks);
    assert!(matches!(
        data(run.chunks(&HashSet::from([0, 2])).err().unwrap()),
        DataFault::ChunkIncomplete { index: 1, .. }
    ));
    let mut run = FinalizeRun::begin(&job, &leases, Some(&incoming), request)
        .ok()
        .unwrap();
    run.chunks(&HashSet::from([0, 1, 2])).unwrap();
    assert_eq!(run.need(), FinalizeNeed::Staging);
    run.staging(true);
    assert_eq!(run.need(), FinalizeNeed::Publication);
    assert_eq!(run.publication(true).err(), Some(TransferError::Cancelled));
    let finalization = run.publication(false).ok().unwrap();
    assert_eq!(finalization.partial_path(), incoming.staging());
    assert_eq!(finalization.destination(), incoming.destination());
    let metadata = file.entry.source_metadata();
    let read = |content: &[u8]| {
        let located = finalization.check().located(&metadata).ok().unwrap();
        let mut read = located.opened(&metadata).ok().unwrap();
        read.absorb(content);
        read.finish(&metadata, &metadata)
    };
    assert!(matches!(read(b"abcdefghiJ"), Err(CoreError::HashMismatch { .. })));
    let partial = read(b"abcdefghij").ok().unwrap();
    let mut done = finalization.verified(partial).ok().unwrap();
    while *done.stage() != FinalizeStage::Done {
        done = done.advance(Ok(()), false);
    }
    run.published(&done);
    assert_eq!(run.need(), FinalizeNeed::ClearedChunks);
    run.cleared();
    assert_eq!(run.need(), FinalizeNeed::ProgressRow);
    assert_eq!(run.progress_row(), 10);
    run.row_updated(true).unwrap();
    assert_eq!(run.need(), FinalizeNeed::StatusRow);
    let update = run.status_row();
    assert_eq!(update.path, "a.bin");
    assert_eq!((update.status, update.error), (JobFileStatus::Completed, None));
    run.row_updated(true).unwrap();
    assert_eq!(run.need(), FinalizeNeed::Answer);
    assert!(matches!(
        run.answer(),
        Response::Acknowledged(Acknowledgement::File(answer)) if answer.path == "a.bin"
    ));
    assert_eq!(
        check_chunks_complete(&file, &HashSet::from([0, 1, 2])),
        Ok(())
    );
}

#[test]
fn a_file_that_is_in_place_is_hashed() {
    let file = hashed("a.bin", b"abcd");
    let actual = file.entry.duplicate();
    assert!(should_hash_in_place(&file, &actual));
    assert_eq!(
        check_in_place(&file, false, Some(&actual), Some(&file.hash)),
        Ok(())
    );
    assert!(matches!(
        data(check_in_place(&file, false, None, None).err().unwrap()),
        DataFault::PartialAndDestinationMissing { .. }
    ));
    assert!(matches!(
        data(
            check_in_place(&file, false, Some(&actual), Some(&[0; 32]))
                .err()
                .unwrap()
        ),
        DataFault::PartialMissing { .. }
    ));
    assert!(matches!(
        data(check_in_place(&file, true, None, None).err().unwrap()),
        DataFault::ReusedDestinationGone { .. }
    ));
    assert!(matches!(
        data(
            check_in_place(&file, true, Some(&actual), Some(&[0; 32]))
                .err()
                .unwrap()
        ),
        DataFault::ReusedDestinationChanged { .. }
    ));
}

fn stored_file(path: &str, size: u64, status: JobFileStatus) -> JobFileRecord {
    job_file_record(Uuid::from_u128(2), path, size, status, None, 5)
}

#[test]
fn a_job_completes_with_its_failures_counted() {
    let mut leases = DestinationLeases::new(Platform::Posix);
    let mut job = state();
    leases
        .acquire_destination_lease(&mut job, "/destination/d", "d")
        .unwrap();
    commit(&mut job, 30, &[directory("d")]);
    job.remember_directory(directory("d"));
    let request = CompleteJobRequest {
        job_id: Uuid::from_u128(2),
        manifest_id: Uuid::from_u128(30),
    };
    let mut run = CompletionRun::begin(&job, request).ok().unwrap();
    assert_eq!(
        run.next_directory(&job, &leases),
        Some(Ok("/destination/d".to_owned()))
    );
    assert_eq!(run.directory().relative_path, "d");
    run.applied();
    assert_eq!(run.next_directory(&job, &leases), None);
    let mut files = vec![
        stored_file("done", 10, JobFileStatus::Completed),
        stored_file("late", 7, JobFileStatus::Pending),
        stored_file("same", 5, JobFileStatus::Skipped),
    ];
    let failures = run.failures(&files);
    assert_eq!(failures.len(), 1);
    assert_eq!(
        (failures[0].path.as_str(), failures[0].status),
        ("late", JobFileStatus::Failed)
    );
    assert_eq!(failures[0].error.as_deref(), Some("source did not finalize file"));
    assert_eq!(unfinished_files(&files), vec!["late".to_owned()]);
    files[1].status = JobFileStatus::Failed;
    let completion = run.finish(&files, 1).unwrap();
    assert_eq!(completion.status, JobStatus::CompletedWithErrors);
    assert_eq!(completion.progress.failed_files, 2);
    assert_eq!(completion.progress.completed_files, 2);
    assert_eq!(completion.progress.total_files, 3);
    assert_eq!(completion.progress.total_bytes, 22);
    assert!(completion.answer.completed_with_errors);
    assert_eq!(completion.answer.failed_files, 2);
    let clean = completion_progress(&files[..1], 0).unwrap();
    assert_eq!(completion_status(&clean), JobStatus::Completed);
    assert!(!acknowledge_job(&request, 0).completed_with_errors);
    assert_eq!(
        completion_directory(&job, &leases, "d"),
        Ok("/destination/d".to_owned())
    );
}

#[test]
fn a_completed_job_is_acknowledged_again() {
    let job = state();
    let mut record: JobRecord = new_job_record(receiver_job(&job), 5);
    record.status = StoredJobStatus::Completed;
    let request = CompleteJobRequest {
        job_id: Uuid::from_u128(2),
        manifest_id: Uuid::from_u128(30),
    };
    let stored = Uuid::from_u128(30).to_text();
    let peer = Uuid::from_u128(1);
    let answer = acknowledge_completed_job(&request, peer, Some(&record), Some(&stored)).unwrap();
    assert!(!answer.completed_with_errors);
    assert!(acknowledge_completed_job(&request, peer, None, Some(&stored)).is_err());
    let other = Uuid::from_u128(31).to_text();
    assert!(matches!(
        data(
            acknowledge_completed_job(&request, peer, Some(&record), Some(&other))
                .err()
                .unwrap()
        ),
        DataFault::NotCompletedGeneration { .. }
    ));
    assert!(acknowledge_completed_job(&request, Uuid::from_u128(9), Some(&record), Some(&stored))
        .is_err());
    assert!(receiver_job_matches(&record, &job));
    assert_eq!(ensure_receiver_job(Some(&record), &job), Ok(JobStatus::Transferring));
    assert_eq!(
        retire_incoming_job(Some(&record), &job),
        Ok(StoredJobStatus::Interrupted)
    );
    let mut foreign = record.clone();
    foreign.job.destination_root = "/elsewhere".to_owned();
    assert!(!receiver_job_matches(&foreign, &job));
    assert!(ensure_receiver_job(Some(&foreign), &job).is_err());
}

#[test]
fn stale_paths_lose_their_staging_and_lease() {
    let (mut job, mut leases, incoming, _) = opened(b"abcd");
    let manifest = complete(&mut job, 31, &[entry("b", 1)]);
    assert_eq!(
        reconcile_path(&mut job, &mut leases, &manifest, "a.bin", Some(&incoming))
            .ok()
            .unwrap(),
        Some("/destination/.fastsync-stage-test/a.bin".to_owned())
    );
    assert_eq!(leases.lease_under("/destination/a.bin"), None);
    release_stale_leases(&mut job, &mut leases, &manifest);
    assert_eq!(job.lease_keys(), Vec::<String>::new());
    let paths = stale_paths(
        vec!["a".to_owned(), "b".to_owned()],
        vec!["b".to_owned(), "c".to_owned()],
    );
    assert_eq!(paths, vec!["a".to_owned(), "b".to_owned(), "c".to_owned()]);
    assert_eq!(check_stale_staging("s", None), Ok(false));
    assert_eq!(check_stale_staging("s", Some(NodeKind::File)), Ok(true));
    assert!(check_stale_staging("s", Some(NodeKind::Directory)).is_err());
    assert_eq!(cleanup_staging_root("s", Some(NodeKind::Directory)), Ok(true));
    assert!(cleanup_staging_root("s", Some(NodeKind::Symlink)).is_err());
}

#[test]
fn requests_are_admitted_by_trust() {
    let peer = Uuid::from_u128(1);
    let ping = Request::Ping(PingRequest { nonce: 3 });
    let complete = Request::CompleteJob(CompleteJobRequest {
        job_id: Uuid::from_u128(2),
        manifest_id: Uuid::from_u128(30),
    });
    assert_eq!(authorize_request(peer, false, &ping), None);
    assert_eq!(authorize_request(peer, true, &complete), None);
    let refusal = authorize_request(peer, false, &complete).unwrap();
    assert_eq!(refusal.code, RemoteErrorCode::Unauthorized);
    assert!(!refusal.retryable);
    assert_eq!(request_job_key(peer, &ping), None);
    assert_eq!(request_job_key(peer, &complete), Some(key(2)));
    assert_eq!(frame_limit(true, 1 << 24), 1 << 24);
    assert_eq!(frame_limit(false, 1 << 24), 64 * 1024);
    assert!(matches!(pong(3), Response::Pong(answer) if answer.nonce == 3));

    let admitted = AdmittedRequest::open(
        Versioned::new(complete.clone()),
        peer,
        Ok(true),
        String::new(),
    )
    .ok()
    .unwrap();
    assert_eq!(admitted.job_key(), Some(key(2)));
    assert_eq!(*admitted.request(), complete);
    let (answer, _) = admitted.answer(
        Err(job_not_found(Uuid::from_u128(2))),
        true,
        "job was not found".to_owned(),
    );
    assert!(matches!(
        answer,
        Response::Error(error) if error.code == RemoteErrorCode::JobNotFound
    ));
    let refused = AdmittedRequest::open(
        Versioned {
            protocol_version: PROTOCOL_VERSION + 1,
            payload: ping,
        },
        peer,
        Ok(true),
        "version".to_owned(),
    );
    assert!(matches!(
        refused.err().unwrap(),
        Response::Error(error) if error.code == RemoteErrorCode::UnsupportedProtocol
    ));
    assert!(AdmittedRequest::open(Versioned::new(complete), peer, Ok(false), String::new()).is_err());
    assert!(matches!(
        version_refusal("v".to_owned()),
        Response::Error(error) if error.message == "v"
    ));
}

#[test]
fn errors_are_reported_with_their_job_and_path() {
    let id = Uuid::from_u128(2);
    let error = TransferError::InvalidData(DataFault::ChunkHashMismatch {
        index: 0,
        path: "a".to_owned(),
    });
    let reported = contextual_remote(
        error,
        "bad".to_owned(),
        id,
        "a".to_owned(),
        RemoteErrorCode::InvalidChunk,
    );
    let remote = remote_error(reported, "outer".to_owned(), None, None);
    assert_eq!(remote.path.as_deref(), Some("a"));
    assert_eq!(remote.job_id, Some(id));
    let mismatch = DataFault::ChunkHashMismatch {
        index: 0,
        path: "a".to_owned(),
    };
    let missing = DataFault::JobNotFound { job_id: id };
    let other = || DataFault::NotNegotiated {
        path: "a".to_owned(),
    };
    for (fault, message, code) in [
        (mismatch, "chunk 0", RemoteErrorCode::HashMismatch),
        (missing, "job 2", RemoteErrorCode::JobNotFound),
        (other(), "file \"a\"", RemoteErrorCode::InvalidRequest),
        (other(), "hash mismatch, not found", RemoteErrorCode::HashMismatch),
        (other(), "file \"not found\"", RemoteErrorCode::JobNotFound),
        (other(), "file \"not foun\"", RemoteErrorCode::InvalidRequest),
    ] {
        let error = TransferError::InvalidData(fault);
        let reported = remote_error(error, message.to_owned(), None, None);
        assert_eq!(reported.code, code);
        assert!(!reported.retryable);
    }
    let cancelled = finalize_error(CoreError::OperationCancelled {
        path: "a".to_owned(),
    });
    assert_eq!(cancelled, TransferError::Cancelled);
}

#[test]
fn destinations_stay_below_their_root() {
    let root = vec![
        PathComponent::RootDirectory,
        PathComponent::Normal("destination".to_owned()),
    ];
    assert_eq!(ensure_destination_root("/destination", true, &root), Ok(()));
    assert!(matches!(
        data(ensure_root("destination", false, &root, false).err().unwrap()),
        DataFault::DestinationNotAbsolute { .. }
    ));
    let dotted = [root.clone(), vec![PathComponent::ParentDirectory]].concat();
    assert!(matches!(
        data(ensure_root("/destination/..", true, &dotted, false).err().unwrap()),
        DataFault::DestinationHasDots { .. }
    ));
    let staged = [
        root.clone(),
        vec![PathComponent::Normal(".fastsync-stage-1".to_owned())],
    ]
    .concat();
    assert!(matches!(
        data(ensure_root("/s", true, &staged, false).err().unwrap()),
        DataFault::DestinationInStaging { .. }
    ));
    assert_eq!(ensure_root("/s", true, &staged, true), Ok(()));
    assert_eq!(
        destination_candidate_path(Platform::Posix, "/destination", "a/b"),
        Ok("/destination/a/b".to_owned())
    );
    assert!(destination_candidate_path(Platform::Posix, "/destination", "../b").is_err());
    assert!(staging_file_path(Platform::Posix, STAGING, "a/b").is_ok());
    assert_eq!(
        ensure_parents(Platform::Posix, "/destination", "a/b/c"),
        vec!["/destination/a".to_owned(), "/destination/a/b".to_owned()]
    );
    assert_eq!(ensure_one_directory("d", None), Ok(DirectoryStep::Create));
    assert_eq!(
        ensure_one_directory("d", Some(NodeKind::Directory)),
        Ok(DirectoryStep::Ready)
    );
    assert!(matches!(
        data(ensure_one_directory("d", Some(NodeKind::Symlink)).err().unwrap()),
        DataFault::NotRealDirectory { .. }
    ));
    assert!(matches!(
        data(ensure_one_directory("d", Some(NodeKind::File)).err().unwrap()),
        DataFault::NotRealDirectory { .. }
    ));
    assert!(create_manifest_directory(Platform::Posix, "/destination", &entry("a", 1)).is_err());
    assert_eq!(existing_destination("d", None), Ok(false));
    assert_eq!(existing_destination("d", Some(NodeKind::File)), Ok(true));
    assert!(existing_destination("d", Some(NodeKind::Symlink)).is_err());
    assert_eq!(
        canonical_child_path(
            Platform::Posix,
            "/destination/a",
            Some("a"),
            "/destination",
            &root,
            Some("/destination"),
            &root
        ),
        Ok("/destination/a".to_owned())
    );
    assert!(matches!(
        data(
            canonical_child_path(Platform::Posix, "/destination/a", Some("a"), "/r", &staged, Some("/d"), &root)
                .err()
                .unwrap()
        ),
        DataFault::OutsideRoot { .. }
    ));
    assert!(prepare_partial(Some(regular(4)), 4));
    assert!(!prepare_partial(Some(regular(5)), 4));
    assert!(!prepare_partial(None, 4));
}

#[test]
fn regions_are_hashed_and_copied_in_blocks() {
    let mut region = hash_region("a", 2, 6);
    assert_eq!(region.wanted(), 6);
    region.absorb(b"cde").unwrap();
    region.absorb(b"fgh").unwrap();
    assert_eq!(region.finish(), *blake3::hash(b"cdefgh").as_bytes());
    let mut region = hash_region("a", 2, 6);
    assert!(matches!(
        data(region.absorb(b"").err().unwrap()),
        DataFault::RegionTruncated {
            offset: 2,
            size: 6,
            ..
        }
    ));
    let chunk = ChunkDescriptor {
        index: 0,
        offset: 0,
        size: 4,
        hash: *blake3::hash(b"abcd").as_bytes(),
    };
    let mut copy = copy_verified_chunk(&chunk);
    copy.absorb(b"abcd");
    assert!(copy.finish());
    let mut copy = copy_verified_chunk(&chunk);
    copy.absorb(b"abcx");
    assert!(!copy.finish());
    assert!(!copy_verified_chunk(&chunk).finish());
}
