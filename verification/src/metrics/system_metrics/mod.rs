//! Collectors of system metrics: the parsers of what they read and the
//! decisions they take.
pub mod buddyinfo;
pub mod config;
pub mod cpu;
pub mod disk;
pub mod disk_space;
pub mod diskstats;
pub mod fd;
pub mod memory;
pub mod network_interfaces;
pub mod oui;
pub mod oui_parse;
pub mod processes;
pub mod thermal;
pub mod vm;

use vstd::prelude::*;

use crate::metrics::system_metrics::config::{names_enable, SystemMetricConfig};
use crate::metrics::system_metrics::disk_space::DiskSpaceMetricsConfig;
use crate::metrics::system_metrics::diskstats::DiskstatsMetricsConfig;
use crate::metrics::system_metrics::processes::{MEMFAULTD_PROCESS_NAME, ProcessMetricsConfig};
use crate::text::string_views;

verus! {

/// Asks the system metrics collector to collect.
#[derive(Clone, Copy, Debug)]
pub struct SystemMetricsCollectTick;

/// A family of system metrics, each gathered by a collector of its own.
#[derive(Clone, Copy, Debug, PartialEq, Eq, Structural)]
pub enum MetricFamily {
    Cpu,
    Memory,
    Vm,
    Thermal,
    Processes,
    DiskSpace,
    Diskstats,
    Disk,
    NetworkInterfaces,
}

pub open spec fn when(on: bool, fs: Seq<MetricFamily>) -> Seq<MetricFamily> {
    if on {
        fs
    } else {
        Seq::empty()
    }
}

/// The collectors a configuration starts, in the order they run: CPU; memory
/// and virtual memory; thermal zones; processes (always: `memfaultd` is
/// followed whatever the configuration); disk space; diskstats and disk
/// wear; network interfaces. A family configured by an empty set of names is
/// off.
pub open spec fn spec_enabled_families(c: SystemMetricConfig) -> Seq<MetricFamily> {
    let cpu = match c.cpu {
        None => true,
        Some(x) => x.enable,
    };
    let memory = match c.memory {
        None => true,
        Some(x) => x.enable,
    };
    let thermal = match c.thermal {
        None => true,
        Some(x) => x.enable,
    };
    when(cpu, seq![MetricFamily::Cpu]) + when(memory, seq![MetricFamily::Memory, MetricFamily::Vm])
        + when(thermal, seq![MetricFamily::Thermal])
        + seq![MetricFamily::Processes]
        + when(names_enable(c.disk_space), seq![MetricFamily::DiskSpace])
        + when(names_enable(c.diskstats), seq![MetricFamily::Diskstats, MetricFamily::Disk])
        + when(names_enable(c.network_interfaces), seq![MetricFamily::NetworkInterfaces])
}

/// `memfaultd` is always among the followed processes, so the process
/// family is always on.
fn push_process_family(families: &mut Vec<MetricFamily>, config: &SystemMetricConfig)
    ensures
        final(families)@ == old(families)@.push(MetricFamily::Processes),
{
    match config.monitored_processes() {
        ProcessMetricsConfig::Processes(processes) if processes.len() == 0 => {
            proof {
                let ps = config.processes.unwrap();
                assert(string_views(processes@).len() == 0);
                if string_views(ps@).contains(MEMFAULTD_PROCESS_NAME@) {
                    assert(string_views(ps@).len() > 0);
                }
            }
        },
        _ => families.push(MetricFamily::Processes),
    }
}

fn push_disk_families(families: &mut Vec<MetricFamily>, config: &SystemMetricConfig)
    ensures
        final(families)@ == old(families)@ + when(names_enable(config.disk_space), seq![MetricFamily::DiskSpace])
            + when(names_enable(config.diskstats), seq![MetricFamily::Diskstats, MetricFamily::Disk]),
{
    let ghost head = families@;
    match config.disk_space_config() {
        DiskSpaceMetricsConfig::Disks(disks) if disks.len() == 0 => {},
        _ => families.push(MetricFamily::DiskSpace),
    }
    let ghost mid = families@;
    assert(mid =~= head + when(names_enable(config.disk_space), seq![MetricFamily::DiskSpace]));
    match config.diskstats_config() {
        DiskstatsMetricsConfig::Devices(devices) if devices.len() == 0 => {},
        _ => {
            families.push(MetricFamily::Diskstats);
            families.push(MetricFamily::Disk);
        },
    }
    assert(families@ =~= mid + when(
        names_enable(config.diskstats),
        seq![MetricFamily::Diskstats, MetricFamily::Disk],
    ));
}

/// The metric families that the system metrics collector starts for
/// `config` (see `spec_enabled_families`).
pub fn enabled_metric_families(config: &SystemMetricConfig) -> (r: Vec<MetricFamily>)
    ensures
        r@ == spec_enabled_families(*config),
{
    let mut families: Vec<MetricFamily> = Vec::new();
    if config.cpu_metrics_enabled() {
        families.push(MetricFamily::Cpu);
    }
    if config.memory_metrics_enabled() {
        families.push(MetricFamily::Memory);
        families.push(MetricFamily::Vm);
    }
    if config.thermal_metrics_enabled() {
        families.push(MetricFamily::Thermal);
    }
    push_process_family(&mut families, config);
    push_disk_families(&mut families, config);
    let ghost head = families@;
    match config.network_interfaces_config() {
        Some(interfaces) if interfaces.len() == 0 => {},
        _ => families.push(MetricFamily::NetworkInterfaces),
    }
    assert(families@ =~= head + when(
        names_enable(config.network_interfaces),
        seq![MetricFamily::NetworkInterfaces],
    ));
    assert(families@ =~= spec_enabled_families(*config));
    families
}

} // verus!
