use std::collections::HashMap;

use fastsync::error::CoreError;
use fastsync::hashing::{
    cache_path, cached_file, div_ceil, hash_file, hash_file_streaming, validate_hashed_file,
    ChunkHasher, HashRun,
};
use fastsync::manifest::Platform;
use fastsync::metadata::{
    apply_manifest_metadata, ensure_source_unchanged, metadata_matches, path_matches_manifest,
    set_read_only, source_metadata_from_metadata, source_metadata_matches, split_mtime,
    MetadataUpdate, NodeKind, NodeStatus, Timestamp,
};
use fastsync::model::{
    FileOperation, FileType, HashedFile, ManifestEntry, SourceMetadata, TransferConfig,
    TransferJob, TransferProgress, VerificationMode, DEFAULT_CHUNK_SIZE, JobStatus,
};
use fastsync::partial::{
    finalize_hashed_file_from_cancellable, finalize_partial_file, initialize_partial_file_at,
    verify_partial_file, wide_null_terminated, Finalization, FinalizeStage, PartialCheck,
    VerifiedPartial,
};
use fastsync::path::{
    has_root, is_receiver_absolute_path, partial_file_path, safe_join, to_wire_relative_path,
    validate_wire_relative_path, wire_names, PathComponent, PathValidationError,
    RelativePathError,
};
use fastsync::scan::{scan_directory, ScanRun, Visit};

#[test]
fn wire_paths_reject_traversal_and_windows_forms() {
    let invalid = [
        "",
        "/absolute",
        "//server/share",
        "C:/Windows",
        "folder/D:relative",
        "folder\\file",
        ".",
        "./file",
        "..",
        "folder/../file",
        "folder//file",
        "folder/file/",
        "nul\0byte",
        "folder/name:stream",
        "folder/trailing.",
        "folder/trailing ",
        "CON",
        "con.txt",
        "aux.bin",
        "LPT9",
        ".fastsync-stage-deadbeef/file.bin",
        "nested/.FASTSYNC-STAGE-token/file.bin",
    ];

    for path in invalid {
        assert!(
            validate_wire_relative_path(path).is_err(),
            "accepted invalid path {path:?}"
        );
    }

    let root = "destination";
    assert!(safe_join(Platform::Posix, root, "../escape").is_err());
    assert_eq!(
        safe_join(Platform::Posix, root, "Каталог с местом/файл.bin"),
        Ok("destination/Каталог с местом/файл.bin".to_owned())
    );
}

#[test]
fn manifest_constructor_enforces_normalized_wire_paths() {
    assert!(ManifestEntry::new("a/../b".to_owned(), 0, 0, FileType::File, false).is_err());
    assert!(
        ManifestEntry::new("кириллица/file name".to_owned(), 0, 0, FileType::File, false).is_ok()
    );
}

fn normal(name: &str) -> PathComponent {
    PathComponent::Normal(name.to_owned())
}

fn rooted(names: &[&str]) -> Vec<PathComponent> {
    let mut components = vec![PathComponent::RootDirectory];
    components.extend(names.iter().map(|name| normal(name)));
    components
}

fn status(kind: NodeKind, length: u64) -> NodeStatus {
    NodeStatus {
        kind,
        length,
        modified: Timestamp {
            before_epoch: false,
            seconds: 1_700_000_000,
            nanoseconds: 5,
        },
        read_only: false,
    }
}

fn visit(scan: &mut ScanRun, kind: NodeKind, names: &[&str], length: u64) {
    let path = rooted(names);
    match scan.visit(kind, names.len() - 1, &path) {
        Visit::Skip => {}
        Visit::Unnamed(error) => scan.unnamed(format!("{error:?}")),
        Visit::Examine(located) => {
            let fault = scan.examined("path", &located, &status(kind, length));
            assert_eq!(fault, None);
        }
    }
}

#[test]
fn scanner_normalizes_unicode_paths_and_skips_symlinks() {
    let mut scan = scan_directory("/root", rooted(&["root"]), NodeKind::Directory)
        .ok()
        .unwrap();
    visit(&mut scan, NodeKind::Directory, &["root"], 0);
    visit(&mut scan, NodeKind::Symlink, &["root", "ignored-link"], 0);
    visit(
        &mut scan,
        NodeKind::Directory,
        &["root", "папка с пробелом"],
        0,
    );
    visit(
        &mut scan,
        NodeKind::File,
        &["root", "папка с пробелом", "данные file.txt"],
        7,
    );
    let scan = scan.finish();
    assert!(scan.errors.is_empty(), "scan errors: {:?}", scan.errors);
    assert!(scan.entries.iter().any(|entry| {
        entry.relative_path == "папка с пробелом" && entry.file_type == FileType::Directory
    }));
    assert!(scan.entries.iter().any(|entry| {
        entry.relative_path == "папка с пробелом/данные file.txt"
            && entry.file_type == FileType::File
            && entry.size == 7
    }));
    assert!(!scan
        .entries
        .iter()
        .any(|entry| entry.relative_path.contains("ignored-link")));
    assert_eq!(scan.symlinks_skipped, 1);
    assert_eq!(scan.entries.len(), 2);
}

#[test]
fn scanner_rejects_a_symlink_root() {
    assert!(matches!(
        scan_directory("/linked", rooted(&["linked"]), NodeKind::Symlink),
        Err(CoreError::NotDirectory { .. })
    ));
}

#[test]
fn scanner_sorts_entries_and_reports_what_it_cannot_name() {
    let mut scan = scan_directory("/root", rooted(&["root"]), NodeKind::Directory)
        .ok()
        .unwrap();
    visit(&mut scan, NodeKind::File, &["root", "b"], 1);
    visit(&mut scan, NodeKind::File, &["root", "a"], 1);
    visit(&mut scan, NodeKind::File, &["root", "CON"], 1);
    visit(&mut scan, NodeKind::Other, &["root", "pipe"], 0);
    scan.walk_failed(None, "permission denied".to_owned());
    let result = scan.finish();
    let paths: Vec<&str> = result
        .entries
        .iter()
        .map(|entry| entry.relative_path.as_str())
        .collect();
    assert_eq!(paths, vec!["a", "b"]);
    assert_eq!(result.unsupported_entries_skipped, 1);
    assert_eq!(result.errors.len(), 2);
    assert_eq!(result.errors[1].operation, FileOperation::Scan);
}

fn entry_of(path: &str, size: u64) -> ManifestEntry {
    ManifestEntry::new(path.to_owned(), size, 5, FileType::File, false).unwrap()
}

fn hash_blocks(mut run: HashRun, content: &[u8], step: usize) -> HashRun {
    let mut position = 0;
    while position < content.len() {
        let end = content.len().min(position + run.wanted().min(step));
        run.absorb(&content[position..end]).unwrap();
        position = end;
    }
    run
}

#[test]
fn hashing_produces_full_hash_and_fixed_chunks() {
    let content = b"abcdefghij";
    let entry = entry_of("chunked.bin", 10);
    let metadata = entry.source_metadata();
    let run = hash_file("chunked.bin", &entry, 4)
        .ok()
        .unwrap()
        .located(&metadata)
        .ok()
        .unwrap()
        .opened(&metadata)
        .ok()
        .unwrap();
    let hashed = hash_blocks(run, content, 3).finish(&metadata, &metadata).unwrap();
    assert_eq!(hashed.hash, *blake3::hash(content).as_bytes());
    assert_eq!(hashed.chunks.len(), 3);
    assert_eq!(
        hashed
            .chunks
            .iter()
            .map(|chunk| (chunk.index, chunk.offset, chunk.size))
            .collect::<Vec<_>>(),
        vec![(0, 0, 4), (1, 4, 4), (2, 8, 2)]
    );
    assert_eq!(
        hashed.chunks[0].hash,
        *blake3::hash(&content[0..4]).as_bytes()
    );
    assert_eq!(
        hashed.chunks[1].hash,
        *blake3::hash(&content[4..8]).as_bytes()
    );
    assert_eq!(
        hashed.chunks[2].hash,
        *blake3::hash(&content[8..10]).as_bytes()
    );
    assert_eq!(validate_hashed_file(&hashed, 4), Ok(()));
    assert!(validate_hashed_file(&hashed, 0).is_err());
    assert!(validate_hashed_file(&hashed, 5).is_err());
}

#[test]
fn streaming_hash_matches_core_chunk_descriptors() {
    let contents: Vec<u8> = (0..900_000_u64)
        .map(|position| ((position * 19 + position / 11) % 253) as u8)
        .collect();
    let chunk_size = 350_000;
    let entry = entry_of("data.bin", contents.len() as u64);
    let metadata = entry.source_metadata();
    let open = |request: fastsync::hashing::HashRequest| {
        request
            .located(&metadata)
            .ok()
            .unwrap()
            .opened(&metadata)
            .ok()
            .unwrap()
    };
    let core = open(hash_file("data.bin", &entry, chunk_size).ok().unwrap());
    let streaming = open(hash_file_streaming("data.bin", &entry, chunk_size).ok().unwrap());
    let expected = hash_blocks(core, &contents, 350_000)
        .finish(&metadata, &metadata)
        .unwrap();
    let actual = hash_blocks(streaming, &contents, 8_191)
        .finish(&metadata, &metadata)
        .unwrap();
    assert_eq!(actual, expected);
}

#[test]
fn changed_source_metadata_is_detected() {
    let entry = entry_of("source.bin", 6);
    let original = entry.source_metadata();
    let grown = SourceMetadata {
        size: 14,
        ..original
    };
    assert!(matches!(
        ensure_source_unchanged("source.bin", &original, Ok(grown)),
        Err(CoreError::SourceChanged { .. })
    ));
    assert_eq!(
        ensure_source_unchanged("source.bin", &original, Ok(original)),
        Ok(())
    );
    assert!(matches!(
        hash_file("source.bin", &entry, 4).ok().unwrap().located(&grown),
        Err(CoreError::SourceChanged { .. })
    ));
    assert!(!source_metadata_matches(&original, &grown));
    assert_eq!(path_matches_manifest(&entry, Ok(grown)), Ok(false));
    assert_eq!(path_matches_manifest(&entry, Ok(original)), Ok(true));

    let mut changed_entry = entry.clone();
    changed_entry.size += 1;
    assert!(!metadata_matches(&entry, &changed_entry));
}

#[test]
fn hashing_reports_a_file_that_grew_while_it_was_read() {
    let entry = entry_of("source.bin", 2);
    let metadata = entry.source_metadata();
    assert!(matches!(
        hash_file("source.bin", &entry, 0),
        Err(CoreError::InvalidChunkSize { chunk_size: 0 })
    ));
    let run = hash_file("source.bin", &entry, 4)
        .ok()
        .unwrap()
        .located(&metadata)
        .ok()
        .unwrap()
        .opened(&metadata)
        .ok()
        .unwrap();
    let run = hash_blocks(run, b"abc", 4);
    assert!(matches!(
        run.finish(&metadata, &metadata),
        Err(CoreError::ReadSizeChanged {
            expected: 2,
            actual: 3,
            ..
        })
    ));
}

#[test]
fn an_empty_file_has_no_chunks() {
    let hasher = ChunkHasher::new(4);
    let (hash, chunks, total) = hasher.finish();
    assert_eq!(hash, *blake3::hash(b"").as_bytes());
    assert!(chunks.is_empty());
    assert_eq!(total, 0);
    assert_eq!(div_ceil(0, 4), 0);
    assert_eq!(div_ceil(9, 4), 3);
    assert_eq!(div_ceil(8, 4), 2);
}

#[test]
fn cached_hashes_are_used_only_for_the_file_they_describe() {
    let entry = entry_of("a", 3);
    let mut hasher = ChunkHasher::new(4);
    assert!(hasher.absorb(b"abc"));
    let (hash, chunks, _) = hasher.finish();
    let current = Some(entry.source_metadata());
    let file = cached_file(&entry, &hash, &chunks, 4, &current).unwrap();
    assert_eq!(file.hash, *blake3::hash(b"abc").as_bytes());
    assert_eq!(cached_file(&entry, &hash, &chunks, 2, &current), None);
    assert_eq!(cached_file(&entry, &hash, &chunks, 4, &None), None);
    let key = cache_path(b"/data/a");
    assert!(key.starts_with("path-blake3:"));
    assert_eq!(
        key,
        format!("path-blake3:{}", blake3::hash(b"/data/a").to_hex())
    );
}

fn metadata_of(content: &[u8]) -> SourceMetadata {
    SourceMetadata {
        size: content.len() as u64,
        mtime_ns: 1,
        file_type: FileType::File,
        read_only: false,
    }
}

fn verified(check: PartialCheck, content: &[u8]) -> Result<VerifiedPartial, CoreError> {
    let metadata = metadata_of(content);
    let mut read = check.located(&metadata)?.opened(&metadata)?;
    read.absorb(content);
    read.finish(&metadata, &metadata)
}

/// Carries a finalization out on files that are held in memory.
fn publish(
    files: &mut HashMap<String, Vec<u8>>,
    finalization: Finalization,
) -> Result<Finalization, CoreError> {
    let staged = files[finalization.partial_path()].clone();
    let partial = verified(finalization.check(), &staged)?;
    let mut finalization = finalization.verified(partial)?;
    loop {
        match finalization.stage() {
            FinalizeStage::Done => return Ok(finalization),
            FinalizeStage::Failed { error } => return Err(error.clone()),
            FinalizeStage::Replace => {
                let content = files.remove(finalization.partial_path()).unwrap();
                files.insert(finalization.destination().to_owned(), content);
            }
            _ => {}
        }
        finalization = finalization.advance(Ok(()), false);
    }
}

#[test]
fn partial_file_is_named_and_atomically_replaces_destination() {
    let destination = "/root/итоговый file.bin";
    let partial_path = partial_file_path(destination);
    assert_eq!(partial_path, "/root/итоговый file.bin.fastsync-part");
    assert_eq!(initialize_partial_file_at("p", None), Ok(false));
    assert_eq!(
        initialize_partial_file_at("p", Some(NodeKind::File)),
        Ok(true)
    );

    let content = b"replacement payload";
    let expected_hash = *blake3::hash(content).as_bytes();
    let mut files = HashMap::from([
        (destination.to_owned(), b"old".to_vec()),
        (partial_path.clone(), content.to_vec()),
    ]);
    assert!(verified(verify_partial_file(destination, &expected_hash), content).is_ok());
    let finalization = finalize_partial_file(destination, &expected_hash);
    assert_eq!(*finalization.stage(), FinalizeStage::Verify);
    let done = publish(&mut files, finalization).ok().unwrap();
    assert_eq!(done.destination(), destination);
    assert_eq!(files[destination], content);
    assert!(!files.contains_key(&partial_path));
}

#[test]
fn failed_partial_verification_preserves_destination() {
    let destination = "/root/result.bin";
    let partial_path = partial_file_path(destination);
    let mut files = HashMap::from([
        (destination.to_owned(), b"old".to_vec()),
        (partial_path.clone(), b"bad".to_vec()),
    ]);
    let expected_hash = *blake3::hash(b"good").as_bytes();
    let refused = publish(&mut files, finalize_partial_file(destination, &expected_hash));
    assert_eq!(
        refused.err(),
        Some(CoreError::HashMismatch {
            path: partial_path.clone(),
            expected: expected_hash,
            actual: *blake3::hash(b"bad").as_bytes(),
        }),
    );
    assert_eq!(files[destination], b"old");
    assert_eq!(files[&partial_path], b"bad");

    let other = *blake3::hash(b"bad").as_bytes();
    let bad = || verified(verify_partial_file(destination, &other), b"bad").ok().unwrap();
    assert!(matches!(
        finalize_partial_file(destination, &expected_hash).verified(bad()),
        Err(CoreError::HashMismatch { .. })
    ));
    assert!(matches!(
        finalize_partial_file("/root/other.bin", &other).verified(bad()),
        Err(CoreError::VerifiedElsewhere { .. })
    ));
    assert!(matches!(
        initialize_partial_file_at("p", Some(NodeKind::Symlink)),
        Err(CoreError::NotRegularFile { .. })
    ));
}

#[test]
fn a_failed_replacement_gives_the_partial_its_access_back() {
    let content = b"abc";
    let entry = ManifestEntry::new("a".to_owned(), 3, 5, FileType::File, true).unwrap();
    let hash = *blake3::hash(content).as_bytes();
    let mut hasher = ChunkHasher::new(4);
    hasher.absorb(content);
    let mut file = HashedFile {
        entry,
        hash,
        chunks: hasher.finish().1,
    };
    let begin = || {
        let finalization = finalize_hashed_file_from_cancellable("a.part", "a", &file, false)
            .ok()
            .unwrap();
        let partial = verified(finalization.check(), content).ok().unwrap();
        let verified = finalization.verified(partial).ok().unwrap();
        assert_eq!(*verified.stage(), FinalizeStage::SyncContent);
        verified.advance(Ok(()), false)
    };
    assert_eq!(*begin().stage(), FinalizeStage::ApplyMetadata);
    let error = CoreError::OperationCancelled {
        path: "a".to_owned(),
    };
    let applied = begin().advance(Ok(()), false).advance(Ok(()), false);
    assert_eq!(*applied.stage(), FinalizeStage::Replace);
    let undoing = applied.advance(Err(error.clone()), false);
    assert!(matches!(
        undoing.stage(),
        FinalizeStage::RestoreAccess { .. }
    ));
    let failed = undoing.advance(Ok(()), false);
    assert_eq!(*failed.stage(), FinalizeStage::Failed { error });
    assert!(matches!(
        finalize_hashed_file_from_cancellable("a.part", "a", &file, true),
        Err(CoreError::OperationCancelled { .. })
    ));

    file.entry.size = 4;
    let longer = finalize_hashed_file_from_cancellable("a.part", "a", &file, false).ok().unwrap();
    let partial = verified(longer.check(), content).ok().unwrap();
    assert_eq!(
        longer.verified(partial).err(),
        Some(CoreError::SizeMismatch { path: "a.part".to_owned(), expected: 4, actual: 3 }),
    );
}

#[test]
fn times_are_counted_in_nanoseconds_since_the_epoch() {
    let time = |before_epoch, seconds, nanoseconds| Timestamp {
        before_epoch,
        seconds,
        nanoseconds,
    };
    assert_eq!(time(false, 2, 3).nanoseconds_since_epoch(), Some(2_000_000_003));
    assert_eq!(time(true, 2, 3).nanoseconds_since_epoch(), Some(-2_000_000_003));
    assert_eq!(time(false, u64::MAX, 0).nanoseconds_since_epoch(), None);
    assert_eq!(split_mtime(-1), (-1, 999_999_999));
    assert_eq!(split_mtime(2_000_000_003), (2, 3));
    let mut far = status(NodeKind::File, 1);
    far.modified = time(false, u64::MAX, 0);
    assert!(matches!(
        source_metadata_from_metadata("a", &far),
        Err(CoreError::MetadataTimeOutOfRange { .. })
    ));
    assert!(matches!(
        source_metadata_from_metadata("a", &status(NodeKind::Other, 1)),
        Err(CoreError::UnsupportedFileType { .. })
    ));
}

#[test]
fn metadata_is_applied_from_the_manifest() {
    let entry = entry_of("a", 3);
    let update = apply_manifest_metadata("a", &entry.source_metadata(), &entry);
    assert_eq!(
        update,
        Ok(MetadataUpdate {
            seconds: 0,
            nanoseconds: 5,
            read_only: false
        })
    );
    let other = SourceMetadata {
        file_type: FileType::Directory,
        ..entry.source_metadata()
    };
    assert!(apply_manifest_metadata("a", &other, &entry).is_err());
    assert_eq!(set_read_only(0o644, true), 0o444);
    assert_eq!(set_read_only(0o444, false), 0o644);
}

#[test]
fn each_kind_of_bad_path_is_named() {
    for (path, error) in [
        ("", PathValidationError::Empty),
        ("/a", PathValidationError::Absolute),
        ("//server/share", PathValidationError::WindowsUnc),
        ("C:/a", PathValidationError::WindowsDrive),
        ("a\\b", PathValidationError::Backslash),
        ("a/.", PathValidationError::CurrentDirectory),
        ("a/..", PathValidationError::ParentDirectory),
        ("a//b", PathValidationError::EmptyComponent),
        ("a\0", PathValidationError::Nul),
        ("a/b?", PathValidationError::WindowsInvalidCharacter),
        ("a./b", PathValidationError::WindowsTrailingDotOrSpace),
        ("com1.txt", PathValidationError::WindowsReservedName),
        (
            ".fastsync-stage-1",
            PathValidationError::ReservedStagingNamespace,
        ),
    ] {
        assert_eq!(validate_wire_relative_path(path), Err(error), "{path:?}");
    }
}

#[test]
fn wire_paths_are_taken_relative_to_the_root() {
    let root = rooted(&["root"]);
    assert_eq!(
        to_wire_relative_path(&root, &rooted(&["root", "a", "b"])),
        Ok("a/b".to_owned())
    );
    assert_eq!(
        to_wire_relative_path(&root, &rooted(&["other"])),
        Err(RelativePathError::OutsideRoot)
    );
    assert_eq!(
        to_wire_relative_path(&root, &[root.clone(), vec![PathComponent::ParentDirectory]].concat()),
        Err(RelativePathError::NonNormalComponent)
    );
    assert_eq!(
        to_wire_relative_path(
            &root,
            &[root.clone(), vec![PathComponent::NonUtf8(vec![0xff])]].concat()
        ),
        Err(RelativePathError::NonUtf8)
    );
    assert!(has_root(&root, &rooted(&["root", "a"])));
    assert!(!has_root(&rooted(&["root", "a"]), &root));
}

#[test]
fn receiver_roots_may_be_of_either_platform() {
    for path in ["/srv", "C:\\data", "c:/data", "\\\\server\\share"] {
        assert!(is_receiver_absolute_path(path), "{path}");
    }
    for path in ["srv", "C:data", "./srv", ""] {
        assert!(!is_receiver_absolute_path(path), "{path}");
    }
}

#[test]
fn new_jobs_wait_with_the_default_configuration() {
    let config = TransferConfig::default();
    assert_eq!(config.chunk_size, DEFAULT_CHUNK_SIZE);
    assert_eq!(config.verification_mode, VerificationMode::Verified);
    assert_eq!(config.chunk_size, 4_194_304);
    let job = TransferJob::new("s", "d", config);
    assert_eq!(job.status, JobStatus::Pending);
    assert_eq!(job.progress, TransferProgress::default());
    assert_eq!(job.peer_id, None);
    assert_ne!(job.id, TransferJob::new("s", "d", config).id);
}

fn units(text: &str) -> Vec<u16> {
    text.encode_utf16().collect()
}

#[test]
fn paths_are_joined_with_the_separator_of_the_system() {
    assert_eq!(wire_names("a/b.bin"), Ok(vec!["a".to_owned(), "b.bin".to_owned()]));
    assert!(wire_names("../b.bin").is_err());
    let join = |root: &str| safe_join(Platform::Windows, root, "a/b.bin").unwrap();
    assert_eq!(join("\\\\?\\C:\\data"), "\\\\?\\C:\\data\\a\\b.bin");
    assert_eq!(join("C:\\"), "C:\\a\\b.bin");
    assert_eq!(join("C:"), "C:a\\b.bin");
    assert_eq!(join("C:/data/"), "C:/data/a\\b.bin");
    assert_eq!(safe_join(Platform::Posix, "/data", "a/b.bin"), Ok("/data/a/b.bin".to_owned()));
    assert_eq!(safe_join(Platform::Posix, "/", "a/b.bin"), Ok("/a/b.bin".to_owned()));
}

#[test]
fn windows_paths_are_given_in_their_verbatim_form() {
    assert_eq!(
        wide_null_terminated(&units("C:/data/file.bin")),
        Some(units("\\\\?\\C:\\data\\file.bin\0")),
    );
    assert_eq!(
        wide_null_terminated(&units("\\\\server\\share/file")),
        Some(units("\\\\?\\UNC\\server\\share\\file\0")),
    );
    assert_eq!(
        wide_null_terminated(&units("\\\\?\\C:\\file")),
        Some(units("\\\\?\\C:\\file\0")),
    );
    assert_eq!(wide_null_terminated(&units("C:\\a\0b")), None);
}
