//! How the readings of a metric are described in a high resolution
//! telemetry report.
use vstd::prelude::*;

use crate::metrics::hrt::schema::{DataType, HrtMetricType};

verus! {

/// The kinds of metric reading.
#[derive(Clone, Copy, Debug, PartialEq, Eq, Structural)]
pub enum MetricReadingKind {
    TimeWeightedAverage,
    Histogram,
    Counter,
    Gauge,
    Rssi,
    ReportTag,
    Bool,
}

/// The HRT types of the readings of one metric.
#[derive(Clone, Copy, Debug, PartialEq, Eq, Structural)]
pub struct HrtReadingMetadata {
    pub metric_type: HrtMetricType,
    pub data_type: DataType,
    pub internal: bool,
}

/// Counters are counters, tags and booleans are properties, the rest are
/// gauges; tags are strings, booleans booleans, the rest doubles.
pub open spec fn hrt_types_of(kind: MetricReadingKind) -> (HrtMetricType, DataType) {
    match kind {
        MetricReadingKind::Counter => (HrtMetricType::Counter, DataType::Double),
        MetricReadingKind::ReportTag => (HrtMetricType::Property, DataType::String),
        MetricReadingKind::Bool => (HrtMetricType::Property, DataType::Boolean),
        _ => (HrtMetricType::Gauge, DataType::Double),
    }
}

impl HrtReadingMetadata {
    /// The metadata of a reading of the given kind; not internal.
    pub fn from(kind: MetricReadingKind) -> (r: Self)
        ensures
            (r.metric_type, r.data_type) == hrt_types_of(kind),
            !r.internal,
    {
        let (metric_type, data_type) = match kind {
            MetricReadingKind::TimeWeightedAverage => (HrtMetricType::Gauge, DataType::Double),
            MetricReadingKind::Histogram => (HrtMetricType::Gauge, DataType::Double),
            MetricReadingKind::Counter => (HrtMetricType::Counter, DataType::Double),
            MetricReadingKind::Gauge => (HrtMetricType::Gauge, DataType::Double),
            MetricReadingKind::Rssi => (HrtMetricType::Gauge, DataType::Double),
            MetricReadingKind::ReportTag => (HrtMetricType::Property, DataType::String),
            MetricReadingKind::Bool => (HrtMetricType::Property, DataType::Boolean),
        };
        HrtReadingMetadata { metric_type, data_type, internal: false }
    }
}

/// The default number of high-resolution samples kept per minute.
pub const HRT_DEFAULT_MAX_SAMPLES_PER_MIN: u32 = 750;

/// The rate limit of a high-resolution report: the configured number of
/// samples per minute, capped at twice the default.
pub fn hrt_rate_limit(max_readings_per_min: u32) -> (r: u32)
    requires
        max_readings_per_min > 0,
    ensures
        r == if max_readings_per_min > 2 * HRT_DEFAULT_MAX_SAMPLES_PER_MIN {
            2 * HRT_DEFAULT_MAX_SAMPLES_PER_MIN
        } else {
            max_readings_per_min as int
        },
        r > 0,
{
    let upper_bound = HRT_DEFAULT_MAX_SAMPLES_PER_MIN * 2;
    if max_readings_per_min > upper_bound {
        upper_bound
    } else {
        max_readings_per_min
    }
}

} // verus!
