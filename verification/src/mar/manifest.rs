//! The kinds of MAR entries and the parts of the manifest the library reads.
use vstd::prelude::*;

use crate::metrics::metric_report::MetricReportType;

verus! {

/// Compression of a MAR attachment.
#[derive(Copy, Clone, Debug, PartialEq, Eq, Structural)]
pub enum CompressionAlgorithm {
    /// No compression (serialised as `None`).
    NoCompression,
    Zlib,
}

impl CompressionAlgorithm {
    pub fn is_none(&self) -> (r: bool)
        ensures
            r == (*self == CompressionAlgorithm::NoCompression),
    {
        match self {
            CompressionAlgorithm::NoCompression => true,
            CompressionAlgorithm::Zlib => false,
        }
    }
}

/// Format of the logs of a `linux-logs` entry.
#[derive(Clone, Debug)]
pub struct LinuxLogsFormat {
    pub id: String,
    pub serialization: String,
}

/// Producer of the logs of a `linux-logs` entry.
#[derive(Clone, Debug)]
pub struct LinuxLogsProducer {
    pub id: String,
    pub version: String,
}

impl LinuxLogsFormat {
    /// The format memfaultd writes logs in: `v1`, `json-lines`.
    pub fn memfaultd() -> (r: Self)
        ensures
            r.id@ == "v1"@,
            r.serialization@ == "json-lines"@,
    {
        LinuxLogsFormat { id: "v1".to_owned(), serialization: "json-lines".to_owned() }
    }
}

/// A `uuid::Uuid`, carried through as it is.
#[verifier::external_type_specification]
#[verifier::external_body]
pub struct ExUuid(uuid::Uuid);

/// The metadata of a `linux-logs` entry: the log file, its compression, the
/// ids that chain the log files, and who wrote it in which format.
#[derive(Debug)]
pub struct LinuxLogsMetadata {
    pub log_file_name: String,
    pub compression: CompressionAlgorithm,
    pub cid: uuid::Uuid,
    pub next_cid: uuid::Uuid,
    pub format: LinuxLogsFormat,
    pub producer: LinuxLogsProducer,
}

impl LinuxLogsMetadata {
    /// The metadata of a log file written by memfaultd of the given version.
    pub fn new_log(
        log_file_name: String,
        cid: uuid::Uuid,
        next_cid: uuid::Uuid,
        compression: CompressionAlgorithm,
        memfaultd_version: &str,
    ) -> (r: Self)
        ensures
            r.log_file_name@ == log_file_name@,
            r.cid == cid,
            r.next_cid == next_cid,
            r.compression == compression,
            r.format.id@ == "v1"@,
            r.format.serialization@ == "json-lines"@,
            r.producer.id@ == "memfaultd"@,
            r.producer.version@ == memfaultd_version@,
    {
        LinuxLogsMetadata {
            log_file_name,
            compression,
            cid,
            next_cid,
            format: LinuxLogsFormat::memfaultd(),
            producer: LinuxLogsProducer {
                id: "memfaultd".to_owned(),
                version: memfaultd_version.to_owned(),
            },
        }
    }
}

/// The kind of a MAR entry, with what the upload and storage decisions read
/// of its metadata.
#[derive(Clone, Debug)]
pub enum MetadataKind {
    LinuxLogs,
    DeviceAttributes,
    DeviceConfig,
    ElfCoredump,
    LinuxReboot,
    LinuxHeartbeat,
    LinuxMetricReport { report_type: MetricReportType },
    LinuxCustomTrace,
    CustomDataRecording,
    Stacktrace,
    LinuxMemfaultWatch { exit_code: i32 },
}

} // verus!
