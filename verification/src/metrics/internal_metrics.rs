//! Keys of the daemon's own metrics.
use vstd::prelude::*;

verus! {

/// How many entries the MAR staging area holds when it is cleaned.
pub const INTERNAL_METRIC_MAR_ENTRY_COUNT: &'static str = "MemfaultSdkMetric_mar_entry_count";

/// How long a cleaning of the MAR staging area took, in seconds.
pub const INTERNAL_METRIC_MAR_CLEANER_DURATION: &'static str =
    "MemfaultSdkMetric_mar_clean_duration_seconds";

/// How many MAR entries a cleaning deleted.
pub const INTERNAL_METRIC_MAR_ENTRIES_DELETED: &'static str = "MemfaultSdkMetric_mar_entries_deleted";

/// How many readings the previous high-resolution report held.
pub const INTERNAL_METRIC_HRT_READING_COUNT: &'static str = "MemfaultSdkMetric_hrt_reading_count";

} // verus!
