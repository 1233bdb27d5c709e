//! The `metrics.system_metric_collection` part of the configuration.
use vstd::prelude::*;

use crate::metrics::system_metrics::disk_space::DiskSpaceMetricsConfig;
use crate::metrics::system_metrics::diskstats::DiskstatsMetricsConfig;
use crate::metrics::system_metrics::processes::{MEMFAULTD_PROCESS_NAME, ProcessMetricsConfig};
use crate::text::{clone_strings, contains_str, string_views};

verus! {

/// Which system metrics are collected, and how often. A set of names that
/// is absent selects the automatic choice; one that is empty turns its
/// family of metrics off.
#[derive(Clone, Debug)]
pub struct SystemMetricConfig {
    pub enable: bool,
    pub poll_interval_seconds: u64,
    pub processes: Option<Vec<String>>,
    pub disk_space: Option<Vec<String>>,
    pub diskstats: Option<Vec<String>>,
    pub network_interfaces: Option<Vec<String>>,
    pub cpu: Option<CpuMetricsConfig>,
    pub memory: Option<MemoryMetricsConfig>,
    pub thermal: Option<ThermalMetricsConfig>,
}

#[derive(Clone, Copy, Debug, PartialEq, Eq, Structural)]
pub struct CpuMetricsConfig {
    pub enable: bool,
}

#[derive(Clone, Copy, Debug, PartialEq, Eq, Structural)]
pub struct MemoryMetricsConfig {
    pub enable: bool,
}

#[derive(Clone, Copy, Debug, PartialEq, Eq, Structural)]
pub struct ThermalMetricsConfig {
    pub enable: bool,
}

/// A family configured by a set of names is on unless the set is empty.
pub open spec fn names_enable(names: Option<Vec<String>>) -> bool {
    match names {
        None => true,
        Some(v) => v@.len() > 0,
    }
}

fn names_enabled(names: &Option<Vec<String>>) -> (r: bool)
    ensures
        r == names_enable(*names),
{
    match names {
        None => true,
        Some(v) => v.len() > 0,
    }
}

impl SystemMetricConfig {
    pub fn cpu_metrics_enabled(&self) -> (r: bool)
        ensures
            r == (match self.cpu {
                None => true,
                Some(c) => c.enable,
            }),
    {
        match self.cpu {
            None => true,
            Some(CpuMetricsConfig { enable }) => enable,
        }
    }

    pub fn memory_metrics_enabled(&self) -> (r: bool)
        ensures
            r == (match self.memory {
                None => true,
                Some(c) => c.enable,
            }),
    {
        match self.memory {
            None => true,
            Some(MemoryMetricsConfig { enable }) => enable,
        }
    }

    pub fn thermal_metrics_enabled(&self) -> (r: bool)
        ensures
            r == (match self.thermal {
                None => true,
                Some(c) => c.enable,
            }),
    {
        match self.thermal {
            None => true,
            Some(ThermalMetricsConfig { enable }) => enable,
        }
    }

    pub fn diskstats_metrics_enabled(&self) -> (r: bool)
        ensures
            r == names_enable(self.diskstats),
    {
        names_enabled(&self.diskstats)
    }

    pub fn disk_space_metrics_enabled(&self) -> (r: bool)
        ensures
            r == names_enable(self.disk_space),
    {
        names_enabled(&self.disk_space)
    }

    pub fn process_metrics_enabled(&self) -> (r: bool)
        ensures
            r == names_enable(self.processes),
    {
        names_enabled(&self.processes)
    }

    pub fn network_metrics_enabled(&self) -> (r: bool)
        ensures
            r == names_enable(self.network_interfaces),
    {
        names_enabled(&self.network_interfaces)
    }

    /// The interval between two collections, in seconds.
    pub fn poll_interval(&self) -> (r: u64)
        ensures
            r == self.poll_interval_seconds,
    {
        self.poll_interval_seconds
    }

    /// The processes to follow: the configured ones and `memfaultd`, or the
    /// automatic choice where none are configured.
    pub fn monitored_processes(&self) -> (r: ProcessMetricsConfig)
        ensures
            self.processes is None ==> r is Auto,
            self.processes matches Some(ps) ==> r matches ProcessMetricsConfig::Processes(v)
                && string_views(v@) == if string_views(ps@).contains(MEMFAULTD_PROCESS_NAME@) {
                string_views(ps@)
            } else {
                string_views(ps@).push(MEMFAULTD_PROCESS_NAME@)
            },
    {
        match &self.processes {
            Some(processes) => {
                let mut processes_and_self = clone_strings(processes);
                if !contains_str(processes, MEMFAULTD_PROCESS_NAME) {
                    processes_and_self.push(MEMFAULTD_PROCESS_NAME.to_owned());
                    assert(string_views(processes_and_self@) =~= string_views(processes@).push(
                        MEMFAULTD_PROCESS_NAME@,
                    ));
                }
                ProcessMetricsConfig::Processes(processes_and_self)
            },
            None => ProcessMetricsConfig::Auto,
        }
    }

    /// The mounts to follow: the configured devices, or the automatic choice.
    pub fn disk_space_config(&self) -> (r: DiskSpaceMetricsConfig)
        ensures
            self.disk_space is None ==> r is Auto,
            self.disk_space matches Some(ds) ==> r matches DiskSpaceMetricsConfig::Disks(v) && v@
                == ds@,
    {
        match &self.disk_space {
            Some(mounts) => DiskSpaceMetricsConfig::Disks(clone_strings(mounts)),
            None => DiskSpaceMetricsConfig::Auto,
        }
    }

    /// The block devices to follow: the configured ones, or the automatic
    /// choice.
    pub fn diskstats_config(&self) -> (r: DiskstatsMetricsConfig)
        ensures
            self.diskstats is None ==> r is Auto,
            self.diskstats matches Some(ds) ==> r matches DiskstatsMetricsConfig::Devices(v) && v@
                == ds@,
    {
        match &self.diskstats {
            Some(devices) => DiskstatsMetricsConfig::Devices(clone_strings(devices)),
            None => DiskstatsMetricsConfig::Auto,
        }
    }

    /// The configured network interfaces, if any.
    pub fn network_interfaces_config(&self) -> (r: Option<&Vec<String>>)
        ensures
            r == match &self.network_interfaces {
                Some(v) => Some(v),
                None => None::<&Vec<String>>,
            },
    {
        self.network_interfaces.as_ref()
    }
}

} // verus!
