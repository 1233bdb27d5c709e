//! Disk I/O counters from `/proc/diskstats`.
use vstd::prelude::*;

use crate::parse::{parse_spaced_u64s, parse_u64_at, run_end, skip_run, spaced_u64s, u64_at, CharClass};
use crate::metrics::metric_string_key::{key_chars_valid, without_nul, MetricStringKey};
use crate::text::{chars_of, contains_str, starts_with_str, string_from_range, string_views};
use crate::util::math::{counter_delta, counter_delta_with_overflow};
use crate::util::name_map::NameMap;

verus! {

pub const DISKSTATS_METRIC_NAMESPACE: &'static str = "diskstats";

/// The devices to follow: all but loop and RAM devices, or the named ones.
pub enum DiskstatsMetricsConfig {
    Auto,
    /// The device names; a name that occurs twice counts once.
    Devices(Vec<String>),
}

/// Whether the device called `name` is followed under `config`.
pub open spec fn spec_device_is_monitored(config: DiskstatsMetricsConfig, name: Seq<char>) -> bool {
    match config {
        DiskstatsMetricsConfig::Devices(ds) => string_views(ds@).contains(name),
        DiskstatsMetricsConfig::Auto => !("loop"@.is_prefix_of(name) || "ram"@.is_prefix_of(name)),
    }
}

/// Whether the device called `device_name` is followed under `config`.
pub fn device_is_monitored(config: &DiskstatsMetricsConfig, device_name: &str) -> (r: bool)
    ensures
        r == spec_device_is_monitored(*config, device_name@),
{
    match config {
        DiskstatsMetricsConfig::Devices(ds) => contains_str(ds, device_name),
        DiskstatsMetricsConfig::Auto => !(starts_with_str(device_name, "loop") || starts_with_str(
            device_name,
            "ram",
        )),
    }
}

/// A line of `/proc/diskstats`: two numbers (the major and minor device
/// numbers, the first possibly after spaces), the device name (ASCII
/// letters and digits) and eight statistics, each part after at least one
/// of `' '`, `'\t'`, `'\r'`, `'\n'`. Gives the name and the statistics; what
/// follows them is ignored.
pub open spec fn diskstats_line(s: Seq<char>) -> Option<(Seq<char>, Seq<u64>)> {
    match u64_at(s, run_end(CharClass::Multispace, s, 0)) {
        None => None,
        Some((_, i1)) => {
            let i2 = run_end(CharClass::Multispace, s, i1);
            if i2 == i1 {
                None
            } else {
                match u64_at(s, i2) {
                    None => None,
                    Some((_, i3)) => {
                        let i4 = run_end(CharClass::Multispace, s, i3);
                        let i5 = run_end(CharClass::Alnum, s, i4);
                        if i4 == i3 || i5 == i4 {
                            None
                        } else {
                            match spaced_u64s(CharClass::Multispace, s, i5, 8) {
                                None => None,
                                Some(stats) => Some((s.subrange(i4, i5), stats)),
                            }
                        }
                    },
                }
            }
        },
    }
}

/// Parses a line of `/proc/diskstats` (see `diskstats_line`).
pub fn parse_proc_diskstats_line(line: &str) -> (r: Option<(String, Vec<u64>)>)
    ensures
        r matches Some((name, stats)) ==> diskstats_line(line@) == Some((name@, stats@)),
        r is None ==> diskstats_line(line@) is None,
{
    let v = chars_of(line);
    let i0 = skip_run(CharClass::Multispace, &v, 0);
    let i1 = match parse_u64_at(&v, i0) {
        Some((_, e)) => e,
        None => {
            return None;
        },
    };
    let i2 = skip_run(CharClass::Multispace, &v, i1);
    if i2 == i1 {
        return None;
    }
    let i3 = match parse_u64_at(&v, i2) {
        Some((_, e)) => e,
        None => {
            return None;
        },
    };
    let i4 = skip_run(CharClass::Multispace, &v, i3);
    let i5 = skip_run(CharClass::Alnum, &v, i4);
    if i4 == i3 || i5 == i4 {
        return None;
    }
    match parse_spaced_u64s(CharClass::Multispace, &v, i5, 8) {
        Some(stats) => Some((string_from_range(&v, i4, i5), stats)),
        None => None,
    }
}

/// Why a device gave no readings.
#[derive(Clone, Copy, Debug, PartialEq, Eq, Structural)]
pub enum DiskstatsError {
    /// The statistics lack the reads or the writes completed.
    MissingValue,
    /// A key built from the device's name is not a valid metric key.
    InvalidKey,
}

/// The text of the key `diskstats/<device>/<suffix>`.
pub open spec fn diskstats_key_text(device: Seq<char>, suffix: Seq<char>) -> Seq<char> {
    "diskstats/"@ + device + "/"@ + suffix
}

fn diskstats_key(device: &str, suffix: &str) -> (r: Option<MetricStringKey>)
    ensures
        r is Some <==> key_chars_valid(diskstats_key_text(device@, suffix@)),
        r matches Some(k) ==> k@ == without_nul(diskstats_key_text(device@, suffix@)),
{
    let mut text = String::new();
    text.append("diskstats/");
    text.append(device);
    text.append("/");
    text.append(suffix);
    match MetricStringKey::from_str(text.as_str()) {
        Ok(k) => Some(k),
        Err(_) => None,
    }
}

/// Follows the reads and writes completed by each device from one reading
/// of `/proc/diskstats` to the next.
pub struct DiskstatsMetricCollector<T> {
    config: DiskstatsMetricsConfig,
    disks: NameMap<(u64, u64, T)>,
}

impl<T: Copy> DiskstatsMetricCollector<T> {
    pub closed spec fn spec_config(&self) -> DiskstatsMetricsConfig {
        self.config
    }

    /// The reads, the writes and the time of the last reading of each
    /// device.
    pub closed spec fn spec_disks(&self) -> Map<Seq<char>, (u64, u64, T)> {
        self.disks@
    }

    pub fn new(config: DiskstatsMetricsConfig) -> (r: Self)
        ensures
            r.spec_config() == config,
            r.spec_disks() == Map::<Seq<char>, (u64, u64, T)>::empty(),
    {
        DiskstatsMetricCollector { config, disks: NameMap::new() }
    }

    /// Whether the device called `device_name` is followed.
    pub fn device_is_monitored(&self, device_name: &str) -> (r: bool)
        ensures
            r == spec_device_is_monitored(self.spec_config(), device_name@),
    {
        device_is_monitored(&self.config, device_name)
    }

    /// Keeps the reads (first statistic) and writes (fifth) of
    /// `device_name` read at `now`; where the device was read before, gives
    /// how many reads and writes completed since (a counter that went down
    /// having wrapped around) under their keys, and when it was read
    /// before. The caller turns them into rates over the time in between.
    pub fn delta_since_last_reading(&mut self, device_name: &str, diskstats: &Vec<u64>, now: T) -> (r:
        Result<Option<(Vec<(MetricStringKey, u64)>, T)>, DiskstatsError>)
        ensures
            diskstats@.len() < 5 ==> r == Err::<Option<(Vec<(MetricStringKey, u64)>, T)>, DiskstatsError>(
                DiskstatsError::MissingValue,
            ) && final(self).spec_disks() == old(self).spec_disks(),
            diskstats@.len() >= 5 ==> final(self).spec_disks() == old(self).spec_disks().insert(
                device_name@,
                (diskstats@[0], diskstats@[4], now),
            ),
            diskstats@.len() >= 5 && !old(self).spec_disks().contains_key(device_name@) ==> r matches Ok(
                None,
            ),
            diskstats@.len() >= 5 && old(self).spec_disks().contains_key(device_name@) ==> {
                let prev = old(self).spec_disks()[device_name@];
                let keys_ok = key_chars_valid(diskstats_key_text(device_name@, "reads_per_second"@))
                    && key_chars_valid(diskstats_key_text(device_name@, "writes_per_second"@));
                &&& !keys_ok ==> r == Err::<Option<(Vec<(MetricStringKey, u64)>, T)>, DiskstatsError>(
                    DiskstatsError::InvalidKey,
                )
                &&& keys_ok ==> (r matches Ok(Some((v, since))) && since == prev.2 && v@.len() == 2
                    && v@[0].0@ == without_nul(diskstats_key_text(device_name@, "reads_per_second"@))
                    && v@[0].1 == counter_delta(diskstats@[0], prev.0) && v@[1].0@ == without_nul(
                    diskstats_key_text(device_name@, "writes_per_second"@),
                ) && v@[1].1 == counter_delta(diskstats@[4], prev.1))
            },
            final(self).spec_config() == old(self).spec_config(),
    {
        if diskstats.len() < 5 {
            return Err(DiskstatsError::MissingValue);
        }
        let num_reads = diskstats[0];
        let num_writes = diskstats[4];
        match self.disks.insert(device_name, (num_reads, num_writes, now)) {
            Some((prev_reads, prev_writes, prev_time)) => {
                let reads_key = match diskstats_key(device_name, "reads_per_second") {
                    Some(k) => k,
                    None => {
                        return Err(DiskstatsError::InvalidKey);
                    },
                };
                let writes_key = match diskstats_key(device_name, "writes_per_second") {
                    Some(k) => k,
                    None => {
                        return Err(DiskstatsError::InvalidKey);
                    },
                };
                let v = vec![
                    (reads_key, counter_delta_with_overflow(num_reads, prev_reads)),
                    (writes_key, counter_delta_with_overflow(num_writes, prev_writes)),
                ];
                Ok(Some((v, prev_time)))
            },
            None => Ok(None),
        }
    }
}

} // verus!
