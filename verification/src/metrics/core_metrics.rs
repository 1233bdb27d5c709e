//! Keys of the core metrics, and those captured by every session.
use vstd::prelude::*;

use crate::metrics::metric_string_key::MetricStringKey;
use crate::util::wildcard_pattern::WildcardPattern;

verus! {

// Connectivity metrics
pub const METRIC_MF_SYNC_SUCCESS: &'static str = "sync_memfault_successful";
pub const METRIC_MF_SYNC_FAILURE: &'static str = "sync_memfault_failure";
pub const METRIC_CONNECTED_TIME: &'static str = "connectivity_connected_time_ms";
pub const METRIC_EXPECTED_CONNECTED_TIME: &'static str = "connectivity_expected_time_ms";
pub const METRIC_SYNC_SUCCESS: &'static str = "sync_successful";
pub const METRIC_SYNC_FAILURE: &'static str = "sync_failure";
pub const METRIC_CONNECTIVITY_RECV_BYTES: &'static str = "connectivity_recv_bytes";
pub const METRIC_CONNECTIVITY_SENT_BYTES: &'static str = "connectivity_sent_bytes";
pub const METRIC_CONNECTIVITY_INTERFACE_RECV_BYTES_PREFIX: &'static str = "connectivity_";
pub const METRIC_CONNECTIVITY_INTERFACE_RECV_BYTES_SUFFIX: &'static str = "_recv_bytes";
pub const METRIC_CONNECTIVITY_INTERFACE_SENT_BYTES_PREFIX: &'static str = "connectivity_";
pub const METRIC_CONNECTIVITY_INTERFACE_SENT_BYTES_SUFFIX: &'static str = "_sent_bytes";

// Stability metrics
pub const METRIC_OPERATIONAL_HOURS: &'static str = "operational_hours";
pub const METRIC_OPERATIONAL_CRASHFREE_HOURS: &'static str = "operational_crashfree_hours";
pub const METRIC_OPERATIONAL_CRASHES: &'static str = "operational_crashes";
pub const METRIC_OPERATIONAL_CRASHES_PROCESS_PREFIX: &'static str = "operational_crashes_";

// Battery metrics
pub const METRIC_BATTERY_DISCHARGE_DURATION_MS: &'static str = "battery_discharge_duration_ms";
pub const METRIC_BATTERY_SOC_PCT_DROP: &'static str = "battery_soc_pct_drop";
pub const METRIC_BATTERY_SOC_PCT: &'static str = "battery_soc_pct";

// Memory Metrics
pub const METRIC_MEMORY_PCT: &'static str = "memory_pct";

// CPU Metrics
pub const METRIC_CPU_USAGE_PCT: &'static str = "cpu_usage_pct";

// Disk Space Metrics
pub const METRIC_STORAGE_USED_DISK_PCT_PREFIX: &'static str = "storage_used_";
pub const METRIC_STORAGE_USED_DISK_PCT_SUFFIX: &'static str = "_pct";

// Process Metrics: "<PREFIX><PROCESS NAME><SUFFIX>"
pub const METRIC_CPU_USAGE_PROCESS_PCT_PREFIX: &'static str = "cpu_usage_";
pub const METRIC_CPU_USAGE_PROCESS_PCT_SUFFIX: &'static str = "_pct";
pub const METRIC_MEMORY_PROCESS_PCT_PREFIX: &'static str = "memory_";
pub const METRIC_MEMORY_PROCESS_PCT_SUFFIX: &'static str = "_pct";

/// The keys of the metrics that every session captures.
pub open spec fn session_core_metric_names() -> Seq<Seq<char>> {
    seq![
        METRIC_MF_SYNC_FAILURE@,
        METRIC_MF_SYNC_SUCCESS@,
        METRIC_BATTERY_DISCHARGE_DURATION_MS@,
        METRIC_BATTERY_SOC_PCT_DROP@,
        METRIC_CONNECTED_TIME@,
        METRIC_EXPECTED_CONNECTED_TIME@,
        METRIC_SYNC_FAILURE@,
        METRIC_SYNC_SUCCESS@,
        METRIC_OPERATIONAL_CRASHES@,
        METRIC_MEMORY_PCT@,
        METRIC_CONNECTIVITY_RECV_BYTES@,
        METRIC_CONNECTIVITY_SENT_BYTES@,
    ]
}

/// The `(prefix, suffix)` patterns of the metrics that every session captures.
pub open spec fn session_core_metric_patterns() -> Seq<(Seq<char>, Seq<char>)> {
    seq![
        (METRIC_CPU_USAGE_PROCESS_PCT_PREFIX@, METRIC_CPU_USAGE_PROCESS_PCT_SUFFIX@),
        (METRIC_MEMORY_PROCESS_PCT_PREFIX@, METRIC_MEMORY_PROCESS_PCT_SUFFIX@),
        (METRIC_STORAGE_USED_DISK_PCT_PREFIX@, METRIC_STORAGE_USED_DISK_PCT_SUFFIX@),
        (
            METRIC_CONNECTIVITY_INTERFACE_RECV_BYTES_PREFIX@,
            METRIC_CONNECTIVITY_INTERFACE_RECV_BYTES_SUFFIX@,
        ),
        (
            METRIC_CONNECTIVITY_INTERFACE_SENT_BYTES_PREFIX@,
            METRIC_CONNECTIVITY_INTERFACE_SENT_BYTES_SUFFIX@,
        ),
        (METRIC_OPERATIONAL_CRASHES_PROCESS_PREFIX@, ""@),
    ]
}

/// The keys every session captures are exactly `sync_memfault_failure`,
/// `sync_memfault_successful`, `battery_discharge_duration_ms`,
/// `battery_soc_pct_drop`, `connectivity_connected_time_ms`,
/// `connectivity_expected_time_ms`, `sync_failure`, `sync_successful`,
/// `operational_crashes`, `memory_pct`, `connectivity_recv_bytes` and
/// `connectivity_sent_bytes`: twelve keys.
pub proof fn law_session_core_metric_keys(k: Seq<char>)
    ensures
        session_core_metric_names().contains(k) <==> (k == "sync_memfault_failure"@ || k
            == "sync_memfault_successful"@ || k == "battery_discharge_duration_ms"@ || k
            == "battery_soc_pct_drop"@ || k == "connectivity_connected_time_ms"@ || k
            == "connectivity_expected_time_ms"@ || k == "sync_failure"@ || k == "sync_successful"@
            || k == "operational_crashes"@ || k == "memory_pct"@ || k == "connectivity_recv_bytes"@
            || k == "connectivity_sent_bytes"@),
        session_core_metric_names().len() == 12,
{
    let s = session_core_metric_names();
    reveal_strlit("sync_memfault_failure");
    reveal_strlit("sync_memfault_successful");
    reveal_strlit("battery_discharge_duration_ms");
    reveal_strlit("battery_soc_pct_drop");
    reveal_strlit("connectivity_connected_time_ms");
    reveal_strlit("connectivity_expected_time_ms");
    reveal_strlit("sync_failure");
    reveal_strlit("sync_successful");
    reveal_strlit("operational_crashes");
    reveal_strlit("memory_pct");
    reveal_strlit("connectivity_recv_bytes");
    reveal_strlit("connectivity_sent_bytes");
    if s.contains(k) {
        let i = choose|i: int| 0 <= i < s.len() && s[i] == k;
        assert(0 <= i < 12);
    }
    assert(s[0] == "sync_memfault_failure"@);
    assert(s[1] == "sync_memfault_successful"@);
    assert(s[2] == "battery_discharge_duration_ms"@);
    assert(s[3] == "battery_soc_pct_drop"@);
    assert(s[4] == "connectivity_connected_time_ms"@);
    assert(s[5] == "connectivity_expected_time_ms"@);
    assert(s[6] == "sync_failure"@);
    assert(s[7] == "sync_successful"@);
    assert(s[8] == "operational_crashes"@);
    assert(s[9] == "memory_pct"@);
    assert(s[10] == "connectivity_recv_bytes"@);
    assert(s[11] == "connectivity_sent_bytes"@);
}

pub open spec fn key_views(s: Seq<MetricStringKey>) -> Seq<Seq<char>> {
    s.map_values(|k: MetricStringKey| k@)
}

pub open spec fn pattern_views(s: Seq<WildcardPattern>) -> Seq<(Seq<char>, Seq<char>)> {
    s.map_values(|p: WildcardPattern| p@)
}

pub struct CoreMetricKeys {
    pub string_keys: Vec<MetricStringKey>,
    pub wildcard_pattern_keys: Vec<WildcardPattern>,
}

impl CoreMetricKeys {
    /// The metrics that every session captures.
    pub fn get_session_core_metrics() -> (r: Self)
        ensures
            key_views(r.string_keys@) == session_core_metric_names(),
            pattern_views(r.wildcard_pattern_keys@) == session_core_metric_patterns(),
    {
        let mut string_keys: Vec<MetricStringKey> = Vec::new();
        string_keys.push(MetricStringKey::from(METRIC_MF_SYNC_FAILURE));
        string_keys.push(MetricStringKey::from(METRIC_MF_SYNC_SUCCESS));
        string_keys.push(MetricStringKey::from(METRIC_BATTERY_DISCHARGE_DURATION_MS));
        string_keys.push(MetricStringKey::from(METRIC_BATTERY_SOC_PCT_DROP));
        string_keys.push(MetricStringKey::from(METRIC_CONNECTED_TIME));
        string_keys.push(MetricStringKey::from(METRIC_EXPECTED_CONNECTED_TIME));
        string_keys.push(MetricStringKey::from(METRIC_SYNC_FAILURE));
        string_keys.push(MetricStringKey::from(METRIC_SYNC_SUCCESS));
        string_keys.push(MetricStringKey::from(METRIC_OPERATIONAL_CRASHES));
        string_keys.push(MetricStringKey::from(METRIC_MEMORY_PCT));
        string_keys.push(MetricStringKey::from(METRIC_CONNECTIVITY_RECV_BYTES));
        string_keys.push(MetricStringKey::from(METRIC_CONNECTIVITY_SENT_BYTES));
        let mut wildcard_pattern_keys: Vec<WildcardPattern> = Vec::new();
        wildcard_pattern_keys.push(
            WildcardPattern::new(
                METRIC_CPU_USAGE_PROCESS_PCT_PREFIX,
                METRIC_CPU_USAGE_PROCESS_PCT_SUFFIX,
            ),
        );
        wildcard_pattern_keys.push(
            WildcardPattern::new(METRIC_MEMORY_PROCESS_PCT_PREFIX, METRIC_MEMORY_PROCESS_PCT_SUFFIX),
        );
        wildcard_pattern_keys.push(
            WildcardPattern::new(
                METRIC_STORAGE_USED_DISK_PCT_PREFIX,
                METRIC_STORAGE_USED_DISK_PCT_SUFFIX,
            ),
        );
        wildcard_pattern_keys.push(
            WildcardPattern::new(
                METRIC_CONNECTIVITY_INTERFACE_RECV_BYTES_PREFIX,
                METRIC_CONNECTIVITY_INTERFACE_RECV_BYTES_SUFFIX,
            ),
        );
        wildcard_pattern_keys.push(
            WildcardPattern::new(
                METRIC_CONNECTIVITY_INTERFACE_SENT_BYTES_PREFIX,
                METRIC_CONNECTIVITY_INTERFACE_SENT_BYTES_SUFFIX,
            ),
        );
        wildcard_pattern_keys.push(WildcardPattern::new(METRIC_OPERATIONAL_CRASHES_PROCESS_PREFIX, ""));
        let r = CoreMetricKeys { string_keys, wildcard_pattern_keys };
        assert(key_views(r.string_keys@) =~= session_core_metric_names());
        assert(pattern_views(r.wildcard_pattern_keys@) =~= session_core_metric_patterns());
        r
    }
}

} // verus!
