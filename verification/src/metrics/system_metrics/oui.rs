//! Wireless OUI metrics.
use vstd::prelude::*;

verus! {

pub struct OuiMetricsCollector;

impl OuiMetricsCollector {
    pub fn new() -> (r: Self)
        ensures
            r == OuiMetricsCollector,
    {
        OuiMetricsCollector
    }

    /// The name of this metric family.
    pub fn family_name(&self) -> (r: &'static str)
        ensures
            r@ == "wireless_oui"@,
    {
        "wireless_oui"
    }
}

} // verus!
