use memfaultd::config::{PersistStorageConfig, Resolution, Sampling};
use memfaultd::mar::config::MarConfig;
use memfaultd::mar::export::{
    delete_response, get_response, route_request, DeleteResponse, ExportRoute, GetResponse,
    HttpMethod, MarExportHandler, EXPORT_MAR_URL,
};
use memfaultd::mar::export_format::{
    ExportFormat, ExportFormatError, CONTENT_TYPE_CHUNK, CONTENT_TYPE_CHUNK_WRAPPED,
    CONTENT_TYPE_ZIP,
};
use memfaultd::mar::manifest::{CompressionAlgorithm, LinuxLogsFormat, LinuxLogsMetadata, MetadataKind};
use memfaultd::mar::mar_entry::{order_by_creation_time, MarEntryIterator};
use memfaultd::mar::mar_entry_builder::estimated_entry_size;
use memfaultd::mar::upload::{gather_mar_entries_to_zip, should_upload, zip_file_index_of_entries};
use memfaultd::metrics::metric_report::MetricReportType;
use memfaultd::metrics::session_name::SessionName;
use memfaultd::util::disk_size::DiskSize;

#[test]
fn test_accept_header_parser() {
    let zip_then_chunk = format!("{}, {}", CONTENT_TYPE_ZIP, CONTENT_TYPE_CHUNK);
    let chunk_then_zip = format!("{}, {}", CONTENT_TYPE_CHUNK, CONTENT_TYPE_ZIP);
    let cases: [(&str, ExportFormat); 4] = [
        ("*/*", ExportFormat::Mar),
        (CONTENT_TYPE_ZIP, ExportFormat::Mar),
        (zip_then_chunk.as_str(), ExportFormat::Mar),
        (chunk_then_zip.as_str(), ExportFormat::Chunk),
    ];
    for (header, expected) in cases {
        assert_eq!(ExportFormat::from_accept_header(header).unwrap(), expected);
    }
}

#[test]
fn accept_header_skips_unsupported_and_trims() {
    assert_eq!(
        ExportFormat::from_accept_header("text/html,  application/vnd.memfault.chunk-wrapped ")
            .unwrap(),
        ExportFormat::ChunkWrapped
    );
    assert_eq!(
        ExportFormat::from_accept_header("text/html, image/png"),
        Err(ExportFormatError::NotSupported("text/html, image/png".to_string()))
    );
    assert!(ExportFormat::from_accept_header("").is_err());
}

#[test]
fn content_type_round_trip() {
    for f in [ExportFormat::Mar, ExportFormat::Chunk, ExportFormat::ChunkWrapped] {
        assert_eq!(ExportFormat::from_mime_type(f.to_content_type()), Some(f));
    }
    assert_eq!(ExportFormat::Chunk.to_content_type(), CONTENT_TYPE_CHUNK);
    assert_eq!(ExportFormat::ChunkWrapped.to_content_type(), CONTENT_TYPE_CHUNK_WRAPPED);
    assert_eq!(ExportFormat::from_mime_type("text/plain"), None);
    assert_eq!(ExportFormat::default(), ExportFormat::Mar);
}

#[test]
fn export_routing() {
    assert_eq!(route_request(EXPORT_MAR_URL, HttpMethod::Get), ExportRoute::Get);
    assert_eq!(route_request("/v1/export", HttpMethod::Delete), ExportRoute::Delete);
    assert_eq!(route_request("/v1/export", HttpMethod::Other), ExportRoute::MethodNotAllowed);
    assert_eq!(route_request("/v1/other", HttpMethod::Get), ExportRoute::NotHandled);
    let handler = MarExportHandler::new("/tmp/mar".to_string());
    assert_eq!(handler.staging_path(), "/tmp/mar");
}

#[test]
fn export_get_answers() {
    assert_eq!(get_response(true, None), GetResponse::Export(ExportFormat::Mar));
    assert_eq!(get_response(false, None), GetResponse::NoContent);
    assert_eq!(
        get_response(true, Some(CONTENT_TYPE_CHUNK)),
        GetResponse::Export(ExportFormat::Chunk)
    );
    assert_eq!(get_response(false, Some("*/*")), GetResponse::NoContent);
    assert_eq!(get_response(true, Some("text/html")), GetResponse::NotAcceptable);
    assert_eq!(get_response(false, Some("text/html")), GetResponse::NotAcceptable);
}

#[test]
fn export_delete_answers() {
    assert_eq!(delete_response(None, Some("abc")), DeleteResponse::NotFound);
    assert_eq!(delete_response(Some("abc"), Some("abc")), DeleteResponse::Delete);
    assert_eq!(delete_response(Some("abc"), Some("abd")), DeleteResponse::PreconditionFailed);
    assert_eq!(delete_response(Some("abc"), None), DeleteResponse::Delete);
}

fn sampling(debugging: Resolution, logging: Resolution, monitoring: Resolution) -> Sampling {
    Sampling {
        debugging_resolution: debugging,
        logging_resolution: logging,
        monitoring_resolution: monitoring,
    }
}

const RESOLUTIONS: [(Resolution, bool); 4] = [
    (Resolution::Off, false),
    (Resolution::Low, false),
    (Resolution::Normal, true),
    (Resolution::High, true),
];

#[test]
fn uploading_logs() {
    for (resolution, expected) in RESOLUTIONS {
        let s = sampling(Resolution::Off, resolution, Resolution::Off);
        assert_eq!(should_upload(&MetadataKind::LinuxLogs, &s), expected);
    }
}

#[test]
fn uploading_device_attributes() {
    for (resolution, expected) in RESOLUTIONS {
        let s = sampling(Resolution::Off, Resolution::Off, resolution);
        assert_eq!(should_upload(&MetadataKind::DeviceAttributes, &s), expected);
    }
}

#[test]
fn uploading_reboots() {
    for (resolution, _) in RESOLUTIONS {
        let s = sampling(resolution, Resolution::Off, Resolution::Off);
        assert!(should_upload(&MetadataKind::LinuxReboot, &s));
        assert!(should_upload(&MetadataKind::DeviceConfig, &s));
    }
}

#[test]
fn uploading_custom_data_recordings() {
    for (resolution, expected) in RESOLUTIONS {
        let s = sampling(resolution, Resolution::Off, Resolution::Off);
        assert_eq!(should_upload(&MetadataKind::CustomDataRecording, &s), expected);
    }
}

#[test]
fn uploading_metric_reports() {
    let daily = [false, true, true, true];
    for (k, (resolution, expected)) in RESOLUTIONS.into_iter().enumerate() {
        let s = sampling(Resolution::Off, Resolution::Off, resolution);
        let heartbeat = MetadataKind::LinuxMetricReport { report_type: MetricReportType::Heartbeat };
        let daily_heartbeat =
            MetadataKind::LinuxMetricReport { report_type: MetricReportType::DailyHeartbeat };
        let session = MetadataKind::LinuxMetricReport {
            report_type: MetricReportType::Session(SessionName::from_str("test").unwrap()),
        };
        assert_eq!(should_upload(&heartbeat, &s), expected);
        assert_eq!(should_upload(&daily_heartbeat, &s), daily[k]);
        assert_eq!(should_upload(&session, &s), expected);
    }
}

#[test]
fn uploading_memfault_watch() {
    let crash = MetadataKind::LinuxMemfaultWatch { exit_code: 1 };
    let clean = MetadataKind::LinuxMemfaultWatch { exit_code: 0 };
    let debugging_only = sampling(Resolution::Normal, Resolution::Off, Resolution::Off);
    assert!(should_upload(&crash, &debugging_only));
    assert!(!should_upload(&clean, &debugging_only));
    let logging_only = sampling(Resolution::Off, Resolution::High, Resolution::Off);
    assert!(should_upload(&crash, &logging_only));
    assert!(should_upload(&clean, &logging_only));
}

#[test]
fn new_mar_when_size_limit_is_reached() {
    let max_zip_size: usize = 1024;
    let empty: usize = 22;
    let sizes = vec![max_zip_size / 2, max_zip_size, max_zip_size * 2];
    assert_eq!(zip_file_index_of_entries(&sizes, empty, max_zip_size), vec![0, 1, 2]);
    let entries: Vec<(String, Vec<u32>, usize)> = sizes
        .iter()
        .enumerate()
        .map(|(k, s)| (format!("entry{}", k), vec![k as u32, 10 + k as u32], *s))
        .collect();
    let mars = gather_mar_entries_to_zip(entries, empty, max_zip_size);
    assert_eq!(mars.len(), 3);
    for (k, contents) in mars.iter().enumerate() {
        assert_eq!(contents.entry_paths, vec![format!("entry{}", k)]);
        assert_eq!(contents.zip_infos.len(), 2);
    }
}

#[test]
fn zipping_two_entries() {
    let entries: Vec<(String, Vec<&str>, usize)> = vec![
        ("a".to_string(), vec!["meta.json", "log-a"], 100),
        ("b".to_string(), vec!["meta.json", "log-b"], 100),
    ];
    let mars = gather_mar_entries_to_zip(entries, 22, usize::MAX - 1000);
    assert_eq!(mars.len(), 1);
    assert_eq!(mars[0].entry_paths, vec!["a".to_string(), "b".to_string()]);
    assert_eq!(mars[0].zip_infos, vec!["meta.json", "log-a", "meta.json", "log-b"]);
}

#[test]
fn gathering_nothing_and_first_oversized_entry() {
    let none: Vec<(String, Vec<u8>, usize)> = vec![];
    assert!(gather_mar_entries_to_zip(none, 22, 100).is_empty());
    // An entry over the limit from the start opens a file of its own; the
    // next small entries share the following file.
    assert_eq!(zip_file_index_of_entries(&vec![500, 10, 10], 22, 100), vec![1, 2, 2]);
    let entries: Vec<(String, Vec<u8>, usize)> = vec![
        ("big".to_string(), vec![1], 500),
        ("s1".to_string(), vec![2], 10),
        ("s2".to_string(), vec![3], 10),
    ];
    let mars = gather_mar_entries_to_zip(entries, 22, 100);
    assert_eq!(mars.len(), 2);
    assert_eq!(mars[0].entry_paths, vec!["big".to_string()]);
    assert_eq!(mars[1].entry_paths, vec!["s1".to_string(), "s2".to_string()]);
    assert_eq!(mars[1].zip_infos, vec![2, 3]);
}

fn persist_config() -> PersistStorageConfig {
    PersistStorageConfig {
        logs: true,
        metrics: true,
        coredumps: true,
        reboots: false,
        min_headroom: 1024,
        max_usage: 1024 * 1024 * 1024,
        min_inodes: 1024,
    }
}

#[test]
fn test_final_staging_path() {
    let config = MarConfig::new(
        "/tmp/staging".to_string(),
        "/persist/staging".to_string(),
        Some(persist_config()),
    );
    let metrics = MetadataKind::LinuxMetricReport { report_type: MetricReportType::Heartbeat };
    assert!(config.final_staging_path(&metrics).starts_with("/persist/staging"));
    assert!(config.final_staging_path(&MetadataKind::LinuxReboot).starts_with("/tmp/staging"));
    assert_eq!(config.final_staging_path(&MetadataKind::DeviceConfig), "/tmp/staging");
    assert_eq!(config.tmp_staging_path(), "/tmp/staging");
    let no_persist = MarConfig::new("/tmp/staging".to_string(), "/persist".to_string(), None);
    assert_eq!(no_persist.final_staging_path(&metrics), "/tmp/staging");
}

#[test]
fn mar_entries_oldest_first() {
    let entries = vec![
        ("c".to_string(), Some(30u128)),
        ("none".to_string(), None),
        ("a".to_string(), Some(10u128)),
        ("b".to_string(), Some(20u128)),
        ("a2".to_string(), Some(10u128)),
    ];
    let ordered: Vec<String> = order_by_creation_time(entries).into_iter().map(|e| e.0).collect();
    assert_eq!(ordered, vec!["none", "a", "a2", "b", "c"]);

    let mut it = MarEntryIterator::new(ordered);
    assert_eq!(it.size_hint(), (5, Some(5)));
    assert_eq!(it.next_directory(), Some("none".to_string()));
    assert_eq!(it.size_hint(), (4, Some(4)));
    for _ in 0..4 {
        assert!(it.next_directory().is_some());
    }
    assert_eq!(it.next_directory(), None);
}

#[test]
fn estimated_entry_sizes() {
    let size = estimated_entry_size(&vec![Some(100), None, Some(1000)]);
    assert_eq!(size.bytes, 1100 + 4096);
    assert_eq!(size.inodes, 4);
    let empty = estimated_entry_size(&vec![]);
    assert_eq!((empty.bytes, empty.inodes), (4096, 1));
}

#[test]
fn disk_size_arithmetic() {
    let a = DiskSize { bytes: 100, inodes: 5 };
    let b = DiskSize { bytes: 40, inodes: 10 };
    assert_eq!(a.saturating_sub(b), DiskSize { bytes: 60, inodes: 0 });
    assert_eq!(DiskSize::min(a, b), DiskSize { bytes: 40, inodes: 5 });
    assert_eq!(DiskSize::max(a, b), DiskSize { bytes: 100, inodes: 10 });
    assert_eq!(a.plus(b), DiskSize { bytes: 140, inodes: 15 });
    assert!(!a.exceeds(&b));
    assert!(a.exceeds(&DiskSize::zero()));
    assert_eq!(DiskSize::new_capacity(7), DiskSize { bytes: 7, inodes: u64::MAX });
}

#[test]
fn manifest_pieces() {
    assert!(CompressionAlgorithm::NoCompression.is_none());
    assert!(!CompressionAlgorithm::Zlib.is_none());
    let format = LinuxLogsFormat::memfaultd();
    assert_eq!(format.id, "v1");
    assert_eq!(format.serialization, "json-lines");
}

#[test]
fn log_metadata() {
    let cid = uuid::Uuid::from_u128(1);
    let next = uuid::Uuid::from_u128(2);
    let m = LinuxLogsMetadata::new_log(
        "log-0001".to_string(),
        cid,
        next,
        CompressionAlgorithm::Zlib,
        "1.2.3",
    );
    assert_eq!(m.log_file_name, "log-0001");
    assert_eq!((m.cid, m.next_cid), (cid, next));
    assert_eq!(m.compression, CompressionAlgorithm::Zlib);
    assert_eq!((m.format.id.as_str(), m.format.serialization.as_str()), ("v1", "json-lines"));
    assert_eq!((m.producer.id.as_str(), m.producer.version.as_str()), ("memfaultd", "1.2.3"));
}

#[test]
fn content_type_selects_its_format() {
    let formats = [ExportFormat::Mar, ExportFormat::Chunk, ExportFormat::ChunkWrapped];
    for f in formats {
        assert_eq!(ExportFormat::from_accept_header(f.to_content_type()), Ok(f));
    }
}
