//! The metadata of the on-disk high resolution telemetry (HRT) format.
use vstd::prelude::*;

use crate::metrics::hrt::report::HrtReadingMetadata;
use crate::metrics::metric_string_key::MetricStringKey;

verus! {

pub const SCHEMA_VERSION: u32 = 1;

pub const PRODUCER_ID: &'static str = "memfaultd";

pub const MIME_TYPE: &'static str = "application/vnd.memfault.hrt.v1";

pub const FILE_NAME: &'static str = "hrt.json.gz";

/// Metric types of the HRT schema.
#[derive(Clone, Copy, Debug, PartialEq, Eq, Structural)]
pub enum HrtMetricType {
    Counter,
    Gauge,
    Property,
    Event,
}

/// Data types of the HRT schema.
#[derive(Clone, Copy, Debug, PartialEq, Eq, Structural)]
pub enum DataType {
    Double,
    String,
    Boolean,
}

/// Who produced the data.
#[derive(Debug)]
pub struct Producer {
    pub id: String,
    pub version: String,
}

impl Producer {
    /// `memfaultd`, in the given version.
    pub fn new(version: &str) -> (r: Self)
        ensures
            r.id@ == PRODUCER_ID@,
            r.version@ == version@,
    {
        Producer { id: PRODUCER_ID.to_owned(), version: version.to_owned() }
    }
}

/// The metadata of one metric key in a report.
#[derive(Debug)]
pub struct RollupMetadata {
    pub string_key: String,
    pub metric_type: HrtMetricType,
    pub data_type: DataType,
    pub internal: bool,
}

impl RollupMetadata {
    /// The metadata of the readings of `key`.
    pub fn new(key: &MetricStringKey, metadata: &HrtReadingMetadata) -> (r: Self)
        ensures
            r.string_key@ == key@,
            r.metric_type == metadata.metric_type,
            r.data_type == metadata.data_type,
            r.internal == metadata.internal,
    {
        RollupMetadata {
            string_key: key.as_str().to_owned(),
            metric_type: metadata.metric_type,
            data_type: metadata.data_type,
            internal: metadata.internal,
        }
    }
}

} // verus!
