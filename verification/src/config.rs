//! The parts of the daemon configuration that the library's decisions read.
use vstd::prelude::*;

use crate::metrics::metric_string_key::MetricStringKey;
use crate::metrics::session_name::SessionName;

verus! {

/// Which kinds of MAR entries are kept in persistent storage, and its
/// limits.
#[derive(Clone, Copy, Debug, PartialEq, Eq, Structural)]
pub struct PersistStorageConfig {
    pub logs: bool,
    pub metrics: bool,
    pub coredumps: bool,
    pub reboots: bool,
    pub min_headroom: u64,
    pub max_usage: u64,
    pub min_inodes: u64,
}

/// Fleet sampling resolution, from none to the most detailed.
#[derive(Clone, Copy, Debug, PartialEq, Eq, Structural)]
pub enum Resolution {
    Off,
    Low,
    Normal,
    High,
}

impl Resolution {
    /// The rank of the resolution: `Off < Low < Normal < High`.
    pub open spec fn spec_level(self) -> u8 {
        match self {
            Resolution::Off => 0,
            Resolution::Low => 1,
            Resolution::Normal => 2,
            Resolution::High => 3,
        }
    }

    pub fn level(&self) -> (r: u8)
        ensures
            r == self.spec_level(),
    {
        match self {
            Resolution::Off => 0,
            Resolution::Low => 1,
            Resolution::Normal => 2,
            Resolution::High => 3,
        }
    }

    /// `self >= other`.
    pub fn at_least(&self, other: Resolution) -> (r: bool)
        ensures
            r == (self.spec_level() >= other.spec_level()),
    {
        self.level() >= other.level()
    }
}

/// The sampling configuration of the device.
#[derive(Clone, Copy, Debug, PartialEq, Eq, Structural)]
pub struct Sampling {
    pub debugging_resolution: Resolution,
    pub logging_resolution: Resolution,
    pub monitoring_resolution: Resolution,
}

/// A session that can be started, and the metrics its reports capture.
pub struct SessionConfig {
    pub name: SessionName,
    pub captured_metrics: Vec<MetricStringKey>,
}

} // verus!
