//! Temperatures of the thermal zones under `/sys/class/thermal`, whose
//! `thermal_zone<N>` directories hold the zone's `type` and its `temp` in
//! millidegrees Celsius.
use vstd::prelude::*;

use crate::metrics::metric_string_key::{key_chars_valid, without_nul, MetricStringKey};
use crate::text::{chars_of, starts_with_str, string_from_range, trim_range, trimmed};

verus! {

pub const SYS_CLASS_THERMAL_PATH: &'static str = "/sys/class/thermal";

pub const THERMAL_METRIC_NAMESPACE: &'static str = "thermal";

/// Collects the temperatures of the thermal zones.
pub struct ThermalMetricsCollector;

impl ThermalMetricsCollector {
    pub fn new() -> (r: Self) {
        ThermalMetricsCollector
    }
}

/// Whether the entry called `name` of `/sys/class/thermal` is a thermal zone.
pub fn is_thermal_zone(name: &str) -> (r: bool)
    ensures
        r == "thermal_zone"@.is_prefix_of(name@),
{
    starts_with_str(name, "thermal_zone")
}

/// The text of the key of a zone's temperature: `thermal/<type>/temp`, the
/// type trimmed.
pub open spec fn thermal_key_text(zone_type: Seq<char>) -> Seq<char> {
    "thermal/"@ + trimmed(zone_type) + "/temp"@
}

/// The key of the temperature of the zone whose `type` is `thermal_zone_type`.
pub fn thermal_zone_key(thermal_zone_type: &str) -> (r: Result<MetricStringKey, &'static str>)
    ensures
        r is Ok <==> key_chars_valid(thermal_key_text(thermal_zone_type@)),
        r matches Ok(k) ==> k@ == without_nul(thermal_key_text(thermal_zone_type@)),
{
    let v = chars_of(thermal_zone_type);
    let (a, b) = trim_range(&v, 0, v.len());
    assert(v@.subrange(0, v@.len() as int) =~= v@);
    let zone = string_from_range(&v, a, b);
    let mut text = String::new();
    text.append("thermal/");
    text.append(zone.as_str());
    text.append("/temp");
    MetricStringKey::from_str(text.as_str())
}

} // verus!
