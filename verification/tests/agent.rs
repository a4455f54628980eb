use fastsync::agent::{
    agent_settings, announced_feature_list, default_device_name, disconnect_peer, hash_workers,
    service_failure, AgentFault, AgentLife, AgentStep, Retirement, RetirementStep, Service,
    ServiceFailure,
};
use fastsync::api::{
    address_form, allows_origin, allows_origin_text, choose_endpoint, create_job, event_socket,
    file_errors, job_view, parse_uuid, resolve_chunk_size, resolve_peer_address, AddressForm,
    ApiFault, CreateJobRequest, Direction, JobReadings, Origin, SocketAction, SocketEvent,
};
use fastsync::benchmark::{
    check_concurrency, ensure_apart, measure_source, planned_copies, prepare_output_directory,
    tally, validate_copied_bytes, BenchmarkFault, CleanUp, CopyBenchmark, OutputAction,
};
use fastsync::dataset::{
    dataset_file, generate_dataset, profile_classes, representative_size, scaled_count,
    DatasetFault, DatasetProfile, FileGenerator, GenerateDatasetArgs, MIB,
};
use fastsync::devices::{
    device_view, device_views, is_trusted, merge_devices, record_authenticated, record_discovery,
    trust_candidate, trust_device, Probe,
};
use fastsync::discovery::DiscoveredPeer;
use fastsync::error::{NetworkFault, TransferError};
use fastsync::events::{unix_millis, AppEvent, EventKind};
use fastsync::identity::{DeviceIdentity, StoredIdentity};
use fastsync::ids::Uuid;
use fastsync::jobs::ManagerError;
use fastsync::metadata::NodeKind;
use fastsync::model::{
    FileType, JobStatus, ManifestEntry, TransferConfig, TransferJob, TransferProgress,
    VerificationMode,
};
use fastsync::path::PathComponent;
use fastsync::protocol::{DiscoveryAnnouncement, Endpoint, IpAddress};
use fastsync::records::{
    job_file_record, DiscoveredDevice, JobFileStatus, StoredJobStatus, TrustedPeer,
};
use fastsync::scan::ScanResult;
use fastsync::session::PeerInfo;
use fastsync::storage::new_job_record;

fn request() -> CreateJobRequest {
    CreateJobRequest {
        peer_id: Uuid::nil(),
        source_path: "/source".to_owned(),
        destination_path: "/destination".to_owned(),
        verification: None,
        chunk_size: None,
        chunk_size_bytes: None,
        chunk_size_mib: Some(8),
        concurrency: None,
        retry_limit: None,
    }
}

#[test]
fn chunk_size_accepts_bytes_or_mib_but_not_both() {
    let mut request = request();
    assert_eq!(resolve_chunk_size(&request), Ok(8 * 1024 * 1024));
    request.chunk_size_bytes = Some(1024);
    assert!(resolve_chunk_size(&request).is_err());
}

#[test]
fn chunk_sizes_are_bounded() {
    let with = |bytes, mib| {
        resolve_chunk_size(&CreateJobRequest {
            chunk_size_bytes: bytes,
            chunk_size_mib: mib,
            ..request()
        })
    };
    assert_eq!(with(None, None), Ok(4 * 1024 * 1024));
    assert_eq!(with(Some(1024), None), Err(ApiFault::ChunkSizeOutOfRange));
    assert_eq!(with(Some(2 << 30), None), Err(ApiFault::ChunkSizeOutOfRange));
    assert_eq!(with(None, Some(u64::MAX)), Err(ApiFault::ChunkSizeTooLarge));
    assert_eq!(with(Some(1 << 20), None), Ok(1 << 20));
}

fn identity(name: &str) -> DeviceIdentity {
    let stored = StoredIdentity {
        signing_key: None,
        certificate: None,
        private_key: None,
    };
    DeviceIdentity::load_or_create(stored, name.to_owned())
        .0
        .ok()
        .unwrap()
}

fn trusted_peer(id: Uuid, key: Vec<u8>) -> TrustedPeer {
    TrustedPeer {
        device_id: id,
        name: "trusted name".to_owned(),
        public_key: key,
        address: "127.0.0.1:39463".to_owned(),
        trusted_at: 95,
        last_seen: 99,
    }
}

fn beacon(id: Uuid, name: &str) -> DiscoveredDevice {
    DiscoveredDevice {
        device_id: id,
        name: name.to_owned(),
        public_key: None,
        address: "127.0.0.1:39463".to_owned(),
        first_seen: 90,
        last_seen: 100,
    }
}

fn readings(trusted: Option<TrustedPeer>) -> JobReadings {
    JobReadings {
        source_is_absolute: true,
        source: Ok(NodeKind::Directory),
        trusted: Ok(trusted),
        address: Ok(()),
    }
}

#[test]
fn jobs_are_created_from_valid_requests() {
    let peer = || Some(trusted_peer(Uuid::nil(), vec![1; 32]));
    let mut asked = request();
    asked.source_path = " /source\t".to_owned();
    let job = create_job(&asked, readings(peer())).unwrap();
    assert_eq!(job.source_root, "/source");
    assert_eq!(job.peer_id, Some(Uuid::nil()));
    assert_eq!(job.config.chunk_size, 8 << 20);
    assert_eq!(job.config.verification_mode, VerificationMode::Verified);
    assert_eq!(job.config.retry_limit, 6);
    assert_eq!(job.status, JobStatus::Pending);

    let fault = |readings: JobReadings| create_job(&request(), readings).err().unwrap();
    let mut relative = readings(peer());
    relative.source_is_absolute = false;
    assert_eq!(fault(relative), ApiFault::SourceNotAbsolute);
    let mut unreadable = readings(peer());
    unreadable.source = Err("gone".to_owned());
    assert!(matches!(fault(unreadable), ApiFault::SourceUnreadable { .. }));
    let mut file = readings(peer());
    file.source = Ok(NodeKind::File);
    assert_eq!(fault(file), ApiFault::SourceNotDirectory);
    assert_eq!(
        fault(readings(None)),
        ApiFault::PeerNotTrusted {
            peer_id: Uuid::nil()
        }
    );
    let mut address = readings(peer());
    address.address = Err("no port".to_owned());
    assert!(matches!(fault(address), ApiFault::PeerAddressInvalid { .. }));

    let mut asked = request();
    asked.destination_path = "destination".to_owned();
    assert_eq!(
        create_job(&asked, readings(peer())),
        Err(ApiFault::DestinationNotAbsolute)
    );
    let mut asked = request();
    asked.concurrency = Some(65);
    assert_eq!(
        create_job(&asked, readings(peer())),
        Err(ApiFault::ConcurrencyOutOfRange)
    );
    let mut asked = request();
    asked.retry_limit = Some(21);
    assert_eq!(
        create_job(&asked, readings(peer())),
        Err(ApiFault::RetryLimitOutOfRange)
    );
}

#[test]
fn device_state_merges_discovery_and_trust() {
    let peer = identity("peer");
    let now = 100;
    let merged = merge_devices(
        vec![beacon(peer.id(), "beacon name")],
        vec![trusted_peer(peer.id(), peer.public_key().to_vec())],
    );
    let views = device_views(merged, vec![None], now, 30_000);
    assert_eq!(views.len(), 1);
    assert_eq!(views[0].name, "trusted name");
    assert!(views[0].trusted);
    assert!(views[0].online);
    assert!(views[0].identity_verified);
}

#[test]
fn devices_are_shown_online_and_trusted_first() {
    let peer = identity("peer");
    let mut old = beacon(Uuid::from_u128(3), "aaa");
    old.last_seen = 1;
    let merged = merge_devices(
        vec![
            old,
            beacon(Uuid::from_u128(2), "zeta"),
            beacon(Uuid::from_u128(1), "Alpha"),
        ],
        vec![trusted_peer(peer.id(), peer.public_key().to_vec())],
    );
    let observed = merged.iter().map(|_| None).collect();
    let views = device_views(merged, observed, 100, 50);
    let names: Vec<&str> = views.iter().map(|view| view.name.as_str()).collect();
    assert_eq!(names, vec!["trusted name", "Alpha", "zeta", "aaa"]);
    assert!(!views[3].online);
    assert!(!views[1].identity_verified);
}

#[test]
fn announcements_are_recorded_without_a_key() {
    let endpoint = |port| Endpoint {
        ip: IpAddress::V4(1),
        port,
    };
    let announcement =
        DiscoveryAnnouncement::new(Uuid::from_u128(5), "desk".to_owned(), 1, 2, vec![]);
    let (device, observed) = record_discovery(
        DiscoveredPeer {
            announcement,
            transfer_addr: endpoint(1),
            http_addr: endpoint(2),
            last_seen: 3,
        },
        "0.0.0.1:1".to_owned(),
        77,
    );
    assert_eq!(device.public_key, None);
    assert_eq!(device.address, "0.0.0.1:1");
    assert_eq!(device.last_seen, 77);
    assert_eq!(observed.http_address, Some(endpoint(2)));
    assert_eq!(
        record_authenticated("0.1.0".to_owned(), vec![]).http_address,
        None
    );
    let merged = merge_devices(vec![device], vec![]).remove(0);
    let view = device_view(merged, Some(observed), 77, 10);
    assert!(view.pending);
    assert!(!view.trusted);
    assert_eq!(view.protocol_version, Some(2));
}

#[test]
fn trust_needs_an_authenticated_probe() {
    let peer = identity("peer");
    let id = peer.id();
    assert_eq!(is_trusted(id, None), Ok(false));
    assert_eq!(
        is_trusted(id, Some(&trusted_peer(id, peer.public_key().to_vec()))),
        Ok(true)
    );
    assert_eq!(
        is_trusted(id, Some(&trusted_peer(id, vec![1; 32]))),
        Err(ApiFault::PinnedKeyInvalid { device_id: id })
    );
    assert_eq!(
        trust_candidate(id, None),
        Err(ApiFault::DeviceNotFound { device_id: id })
    );
    let candidate = trust_candidate(id, Some(beacon(id, "beacon name"))).unwrap();
    assert!(matches!(
        trust_device(id, candidate.clone(), Probe::TimedOut, 100),
        Err(ApiFault::ProbeTimedOut { .. })
    ));
    let lost = TransferError::Network(NetworkFault::Transport("lost".to_owned()));
    assert!(trust_device(id, candidate.clone(), Probe::Failed(lost), 100).is_err());
    let info = PeerInfo {
        device_id: id,
        device_name: "peer".to_owned(),
        public_key: peer.public_key(),
        certificate_fingerprint: peer.certificate_fingerprint(),
        address: "127.0.0.1:39463".to_owned(),
        agent_version: "0.1.0".to_owned(),
        features: vec![],
        trusted: false,
    };
    let trusted = trust_device(
        id,
        candidate,
        Probe::Authenticated {
            peer: info,
            seen_at: 99,
        },
        100,
    )
    .unwrap();
    assert_eq!(trusted.public_key, peer.public_key().to_vec());
    assert_eq!(trusted.trusted_at, 100);
}

#[test]
fn origins_must_be_the_host() {
    let origin = Origin::Authority("LocalHost:8765".to_owned());
    assert!(allows_origin(&Origin::Missing, None));
    assert!(allows_origin(&origin, Some("localhost:8765")));
    assert!(!allows_origin(&origin, Some("localhost:8766")));
    assert!(!allows_origin(&origin, None));
    assert!(!allows_origin(&Origin::Unreadable, Some("localhost")));

    assert!(allows_origin_text(None, Some("localhost:8765")));
    assert!(allows_origin_text(None, None));
    assert!(allows_origin_text(Some("http://LocalHost:8765"), Some("localhost:8765")));
    assert!(!allows_origin_text(Some("http://localhost:8766"), Some("localhost:8765")));
    assert!(!allows_origin_text(Some("http://evil.example"), Some("localhost:8765")));
    assert!(!allows_origin_text(Some("http://localhost:8765"), None));
    assert!(!allows_origin_text(Some("/path"), Some("localhost:8765")));
    assert!(!allows_origin_text(Some(""), Some("")));
    assert!(!allows_origin_text(Some("not a uri"), Some("not a uri")));
}

#[test]
fn addresses_get_the_default_port() {
    assert_eq!(
        resolve_peer_address(" desk \n"),
        Ok(("desk".to_owned(), "desk:39463".to_owned()))
    );
    assert_eq!(
        resolve_peer_address("desk:1"),
        Ok(("desk:1".to_owned(), "desk:1".to_owned()))
    );
    assert_eq!(resolve_peer_address("\t "), Err(ApiFault::AddressEmpty));
    for c in '\u{0}'..='\u{ffff}' {
        let raw = format!("{c}{c}a{c}b{c}");
        assert_eq!(resolve_peer_address(&raw).unwrap().0, raw.trim());
    }
    assert_eq!(address_form(true, false), AddressForm::Endpoint);
    assert_eq!(address_form(true, true), AddressForm::Endpoint);
    assert_eq!(address_form(false, true), AddressForm::Host { port: 39_463 });
    assert_eq!(address_form(false, false), AddressForm::Name);
    let four = Endpoint {
        ip: IpAddress::V4(1),
        port: 1,
    };
    let six = Endpoint {
        ip: IpAddress::V6(1),
        port: 1,
    };
    assert_eq!(choose_endpoint("a".to_owned(), &[six, four, four]), Ok(1));
    assert_eq!(choose_endpoint("a".to_owned(), &[six, six]), Ok(0));
    assert!(matches!(
        choose_endpoint("a".to_owned(), &[]),
        Err(ApiFault::AddressWithoutEndpoints { .. })
    ));
    assert!(parse_uuid("x".to_owned(), "job").is_err());
}

#[test]
fn job_views_account_for_bytes() {
    let mut job = TransferJob::new("s", "d", TransferConfig::default());
    job.progress = TransferProgress {
        total_bytes: 100,
        transferred_bytes: 30,
        reused_bytes: 20,
        ..TransferProgress::default()
    };
    let mut record = new_job_record(job, 5);
    record.status = StoredJobStatus::Transferring;
    let files = vec![
        job_file_record(
            record.job.id,
            "bad",
            1,
            JobFileStatus::Failed,
            Some("denied".to_owned()),
            5,
        ),
        job_file_record(record.job.id, "good", 1, JobFileStatus::Completed, None, 5),
    ];
    let view = job_view(&record, None, &files);
    assert_eq!((view.accounted_bytes, view.remaining_bytes), (50, 50));
    assert_eq!(view.direction, Direction::Outgoing);
    assert!(!view.shows_throughput);
    assert_eq!(view.file_errors.len(), 1);
    assert_eq!(file_errors(&files)[0].message, "denied");
    let live = TransferProgress {
        total_bytes: 100,
        transferred_bytes: 90,
        reused_bytes: 20,
        ..TransferProgress::default()
    };
    let view = job_view(&record, Some(live), &files);
    assert_eq!((view.accounted_bytes, view.remaining_bytes), (100, 0));
    assert!(view.shows_throughput);
}

#[test]
fn faults_have_a_status_and_a_code() {
    assert_eq!(ApiFault::RouteNotFound.status(), 404);
    assert_eq!(ApiFault::SourceNotAbsolute.status(), 400);
    let conflict = ApiFault::from_manager(ManagerError::ShuttingDown);
    assert_eq!(conflict, ApiFault::ShuttingDown);
    assert_eq!(conflict.status(), 503);
    assert!(!conflict.code().is_empty());
    let missing = ApiFault::from_manager(ManagerError::NotFound(Uuid::nil()));
    assert_eq!(missing.status(), 404);
}

#[test]
fn sockets_follow_events() {
    assert_eq!(
        event_socket(SocketEvent::Event { encoded: true }),
        SocketAction::SendEvent
    );
    assert_eq!(event_socket(SocketEvent::Lagged), SocketAction::SendResync);
    assert_eq!(event_socket(SocketEvent::ShuttingDown), SocketAction::Close);
    assert_eq!(event_socket(SocketEvent::Gone), SocketAction::End);
    let event = AppEvent::job_progress(Uuid::from_u128(1), 7);
    assert_eq!(event.kind, EventKind::JobProgress);
    assert_eq!(event.job_id, Some(Uuid::from_u128(1)));
    assert_eq!(AppEvent::job_updated(Uuid::nil(), 7).device_id, None);
    assert_eq!(
        AppEvent::device_updated(Uuid::nil(), 7).device_id,
        Some(Uuid::nil())
    );
    assert_eq!(unix_millis(Some(12)), 12);
    assert_eq!(unix_millis(None), 0);
    assert_eq!(unix_millis(Some(1 << 70)), i64::MAX);
}

#[test]
fn settings_of_an_agent_are_checked() {
    let settings = agent_settings(
        Some("/data".to_owned()),
        None,
        Ok(" desk\n".to_owned()),
        3,
    )
    .unwrap();
    assert_eq!(settings.device_name, "desk");
    assert_eq!(settings.data_directory, "/data");
    assert_eq!(settings.online_ttl, 10);
    let settings =
        agent_settings(Some("/data".to_owned()), Some("name".to_owned()), Ok(String::new()), 5)
            .unwrap();
    assert_eq!(settings.online_ttl, 15);
    assert_eq!(settings.device_name, "name");
    let fault = |directory: Option<&str>, name: Option<&str>, interval| {
        agent_settings(
            directory.map(str::to_owned),
            name.map(str::to_owned),
            Err("unreadable".to_owned()),
            interval,
        )
        .err()
        .unwrap()
    };
    assert_eq!(
        fault(Some("/d"), None, 0),
        AgentFault::DiscoveryIntervalOutOfRange
    );
    assert_eq!(
        fault(Some("/d"), None, 3_601),
        AgentFault::DiscoveryIntervalOutOfRange
    );
    assert_eq!(fault(None, None, 3), AgentFault::NoDataDirectory);
    assert_eq!(fault(Some("/d"), Some(" "), 3), AgentFault::DeviceNameEmpty);
    assert!(matches!(
        fault(Some("/d"), None, 3),
        AgentFault::HostnameUnreadable(_)
    ));
    assert_eq!(
        default_device_name(Ok("  ".to_owned())).as_deref(),
        Ok("FastSync device")
    );
    assert_eq!(hash_workers(Some(64)), 8);
    assert_eq!(hash_workers(Some(0)), 1);
    assert_eq!(hash_workers(None), 2);
    assert!(!announced_feature_list().is_empty());
}

#[test]
fn an_agent_starts_and_stops_in_order() {
    let mut life = AgentLife::new(false);
    let mut steps = Vec::new();
    while life.step() != AgentStep::Done {
        steps.push(life.step());
        life.advance(Ok(()));
    }
    assert_eq!(
        steps,
        vec![
            AgentStep::OpenDatabase,
            AgentStep::LoadIdentity,
            AgentStep::BindTransfer,
            AgentStep::BindControl,
            AgentStep::Serve,
            AgentStep::Run,
            AgentStep::CancelServices,
            AgentStep::StopJobs,
            AgentStep::CloseTransfer,
            AgentStep::JoinServices,
        ]
    );
    assert_eq!(life.into_result(), Ok(()));
    let mut life = AgentLife::new(true);
    life.advance(Err("no disk".to_owned()));
    assert_eq!(life.step(), AgentStep::Done);
    assert_eq!(life.into_result(), Err("no disk".to_owned()));
}

#[test]
fn services_fail_when_they_stop_uncalled() {
    assert_eq!(service_failure(Service::Control, Ok(()), true), None);
    assert_eq!(
        service_failure(Service::Control, Ok(()), false),
        Some(ServiceFailure::StoppedUnexpectedly {
            service: Service::Control
        })
    );
    assert_eq!(
        service_failure(Service::Transfer, Err("broken".to_owned()), false),
        Some(ServiceFailure::Failed {
            service: Service::Transfer,
            reason: "broken".to_owned()
        })
    );
    let mut retirement = Retirement::new();
    let waits: Vec<RetirementStep> = (0..4).map(|_| retirement.next()).collect();
    assert_eq!(
        waits,
        vec![
            RetirementStep::Wait { seconds: 1 },
            RetirementStep::Wait { seconds: 5 },
            RetirementStep::Wait { seconds: 30 },
            RetirementStep::Done
        ]
    );
    assert!(Retirement::ends(true, false));
    assert!(!Retirement::ends(false, false));
    let peers = [Uuid::from_u128(1), Uuid::from_u128(2), Uuid::from_u128(1)];
    assert_eq!(disconnect_peer(&peers, Uuid::from_u128(1)), vec![0, 2]);
}

fn dataset(files: u64, bytes: u64, seed: u64) -> GenerateDatasetArgs {
    GenerateDatasetArgs {
        output: "source".to_owned(),
        profile: DatasetProfile::Small,
        scale_percent: 100,
        files: Some(files),
        bytes_per_file: Some(bytes),
        bytes_per_file_mib: None,
        max_total_bytes: MIB,
        seed,
        force: false,
    }
}

fn content(size: u64, seed: u64) -> Vec<u8> {
    let mut generator = FileGenerator::new(size, seed);
    let mut bytes = Vec::new();
    loop {
        let block = generator.next_block();
        if block.is_empty() {
            return bytes;
        }
        bytes.extend_from_slice(&block);
    }
}

#[test]
fn generation_is_deterministic() {
    let first = generate_dataset(&dataset(1, 256, 99)).unwrap();
    let second = generate_dataset(&dataset(1, 256, 99)).unwrap();
    let file = dataset_file(&first.classes, 99, 0).unwrap();
    assert_eq!(
        format!("{}/{}", file.directory, file.name),
        "custom/set-0000/file-00000000.bin"
    );
    let again = dataset_file(&second.classes, 99, 0).unwrap();
    assert_eq!(file, again);
    assert_eq!(
        content(file.size, file.seed),
        content(again.size, again.seed)
    );
    assert_eq!(content(file.size, file.seed).len(), 256);
    assert_eq!(dataset_file(&first.classes, 99, 1), None);
    assert_ne!(content(256, 1), content(256, 2));
}

#[test]
fn benchmarks_a_small_deterministic_dataset() {
    let first = generate_dataset(&dataset(4, 1_024, 7)).unwrap().summary;
    assert_eq!(first.files, 4);
    assert_eq!(first.bytes, 4_096);

    let entries: Vec<ManifestEntry> = (0..4)
        .map(|index| {
            ManifestEntry::new(format!("f{index}"), 1_024, 1, FileType::File, false).unwrap()
        })
        .collect();
    let scan = ScanResult {
        entries,
        symlinks_skipped: 0,
        unsupported_entries_skipped: 0,
        errors: vec![],
    };
    let (files, bytes) = measure_source(true, &scan).unwrap();
    assert_eq!(files, 4);
    assert_eq!(bytes, 4_096);
    let mut benchmark = CopyBenchmark::new(2, bytes, false).ok().unwrap();
    let mut results = Vec::new();
    while let Some(run) = benchmark.current() {
        assert_eq!(
            benchmark.finish_run(run.strategy, bytes),
            Ok(CleanUp::RemoveCopy)
        );
        results.push((run.strategy, run.concurrency));
    }
    assert_eq!(
        results,
        vec![
            ("sequential", 1),
            ("scheduler-1", 1),
            ("scheduler-configured", 2)
        ]
    );
    assert!(benchmark.removes_destination());
    let mut nested = scan.entries[..1].to_vec();
    nested[0].relative_path = "d/f0".to_owned();
    assert_eq!(planned_copies(&nested), Ok(vec![vec!["d".to_owned(), "f0".to_owned()]]));
    nested[0].relative_path = "../f0".to_owned();
    assert!(matches!(
        planned_copies(&nested),
        Err(BenchmarkFault::InvalidPath { .. })
    ));
}

#[test]
fn benchmarks_refuse_what_they_cannot_measure() {
    assert_eq!(check_concurrency(1_024), Ok(()));
    assert_eq!(
        check_concurrency(1_025),
        Err(BenchmarkFault::ConcurrencyOutOfRange)
    );
    assert_eq!(tally(1, 2), Ok(3));
    assert_eq!(tally(u64::MAX, 1), Err(BenchmarkFault::CopiedBytesOverflow));
    assert!(validate_copied_bytes(1, 1, "s").is_ok());
    assert_eq!(
        validate_copied_bytes(1, 2, "s"),
        Err(BenchmarkFault::CopiedBytesDiffer {
            strategy: "s".to_owned(),
            expected: 1,
            actual: 2
        })
    );
    let rooted = |name: &str| {
        vec![
            PathComponent::RootDirectory,
            PathComponent::Normal(name.to_owned()),
        ]
    };
    assert_eq!(ensure_apart(&rooted("a"), &rooted("b")), Ok(()));
    assert_eq!(
        ensure_apart(&rooted("a"), &rooted("a")),
        Err(BenchmarkFault::Overlap)
    );
    assert_eq!(
        prepare_output_directory(None, false),
        Ok(OutputAction::Create)
    );
    assert_eq!(
        prepare_output_directory(Some((NodeKind::Directory, true)), false),
        Err(BenchmarkFault::OutputNotEmpty)
    );
    assert_eq!(
        prepare_output_directory(Some((NodeKind::File, false)), true),
        Err(BenchmarkFault::OutputNotDirectory)
    );
    let broken = ScanResult {
        entries: vec![],
        symlinks_skipped: 0,
        unsupported_entries_skipped: 0,
        errors: vec![],
    };
    assert_eq!(
        measure_source(false, &broken),
        Err(BenchmarkFault::SourceNotDirectory)
    );
}

#[test]
fn datasets_are_bounded() {
    let fault = |args: GenerateDatasetArgs| generate_dataset(&args).err().unwrap();
    let base = || dataset(4, 1_024, 7);
    assert_eq!(
        fault(GenerateDatasetArgs {
            scale_percent: 0,
            ..base()
        }),
        DatasetFault::ScaleOutOfRange
    );
    assert_eq!(
        fault(GenerateDatasetArgs {
            max_total_bytes: 0,
            ..base()
        }),
        DatasetFault::ZeroMaximum
    );
    assert_eq!(fault(dataset(0, 1, 7)), DatasetFault::ZeroFiles);
    assert_eq!(
        fault(GenerateDatasetArgs {
            bytes_per_file_mib: Some(1),
            ..base()
        }),
        DatasetFault::SeveralFileSizes
    );
    assert_eq!(
        fault(GenerateDatasetArgs {
            bytes_per_file: None,
            bytes_per_file_mib: Some(u64::MAX),
            ..base()
        }),
        DatasetFault::FileSizeTooLarge
    );
    assert_eq!(
        fault(dataset(1_000_001, 0, 7)),
        DatasetFault::TooManyFiles { files: 1_000_001 }
    );
    assert_eq!(
        fault(dataset(2, u64::MAX, 7)),
        DatasetFault::ByteCountOverflow
    );
    assert_eq!(
        fault(dataset(2, MIB, 7)),
        DatasetFault::TooManyBytes {
            bytes: 2 * MIB,
            maximum: MIB
        }
    );
    assert_eq!(scaled_count(10, 25), Ok(3));
    assert_eq!(scaled_count(1, 1), Ok(1));
    assert_eq!(
        scaled_count(u64::MAX, 2),
        Err(DatasetFault::ScaledCountOverflow)
    );
    assert_eq!(representative_size(DatasetProfile::Large), 256 * MIB);
    assert_eq!(profile_classes(DatasetProfile::Mixed).len(), 3);
}
