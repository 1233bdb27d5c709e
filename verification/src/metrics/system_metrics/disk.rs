//! Health of MMC storage: the remaining lifetime that the device estimates,
//! the bytes written since the previous collection (from the sectors-written
//! counter of `/proc/diskstats`) and the device's identity. The values read
//! from each device are handed in as `DiskRawReadings`; the collector keeps,
//! per disk, the sectors written at the previous collection and when the
//! lifetime was last read.
use vstd::prelude::*;

use crate::metrics::metric_string_key::{key_chars_valid, without_nul, MetricStringKey};
use crate::metrics::system_metrics::diskstats::DiskstatsMetricsConfig;
use crate::text::{contains_substr, has_substr};
use crate::util::name_map::NameMap;

verus! {

pub const DISK_METRIC_NAMESPACE: &'static str = "diskstats";

pub const TRACKED_DISK_PREFIX: &'static str = "mmcblk";

/// Linux counts disk sectors of 512 bytes.
pub const SECTOR_SIZE: u64 = 512;

/// The lifetime of a device is read at most once an hour (in nanoseconds).
pub const LIFETIME_READING_INTERVAL_NS: u128 = 3600000000000;

/// Index of the sectors-written counter among the statistics of a line of
/// `/proc/diskstats`.
pub const SECTORS_WRITTEN_DISKSTATS_OFFSET: usize = 6;

/// The two lifetime estimates of an MMC device, in percent used.
#[derive(Clone, Copy, Debug)]
pub struct MmcLifeTime {
    pub lifetime_a_pct: Option<u8>,
    pub lifetime_b_pct: Option<u8>,
}

/// A value that could not be read from a device.
#[derive(Clone, Copy, Debug, PartialEq, Eq, Structural)]
pub struct DiskReadError;

/// What was read from one device in one collection. `lifetime` is `None`
/// where no lifetime read was attempted; the other values are `None` where
/// they could not be read.
pub struct DiskRawReadings {
    pub disk_name: String,
    pub lifetime: Option<Result<Option<MmcLifeTime>, DiskReadError>>,
    pub product_name: Option<String>,
    pub manufacturer_id: Option<String>,
    pub sector_count: Option<u64>,
    pub manufacture_date: Option<String>,
    pub revision: Option<String>,
    pub serial: Option<String>,
}

/// A reading of the disk metrics.
pub enum DiskMetricReading {
    Gauge { key: MetricStringKey, value: u64 },
    Counter { key: MetricStringKey, value: u64 },
    ReportTag { key: MetricStringKey, value: String },
}

/// A reading, its key and value by their characters.
pub enum DiskReadingView {
    Gauge(Seq<char>, u64),
    Counter(Seq<char>, u64),
    ReportTag(Seq<char>, Seq<char>),
}

impl View for DiskMetricReading {
    type V = DiskReadingView;

    open spec fn view(&self) -> DiskReadingView {
        match self {
            DiskMetricReading::Gauge { key, value } => DiskReadingView::Gauge(key@, *value),
            DiskMetricReading::Counter { key, value } => DiskReadingView::Counter(key@, *value),
            DiskMetricReading::ReportTag { key, value } => DiskReadingView::ReportTag(
                key@,
                value@,
            ),
        }
    }
}

pub open spec fn readings_view(rs: Seq<DiskMetricReading>) -> Seq<DiskReadingView> {
    rs.map_values(|r: DiskMetricReading| r@)
}

/// Why no readings came out for a disk.
#[derive(Clone, Copy, Debug, PartialEq, Eq, Structural)]
pub enum DiskMetricsError {
    /// The lifetime could not be read.
    LifetimeRead,
    /// A key built from the disk's name is not a valid metric key.
    InvalidKey,
}

/// The text of the key `diskstats/<disk>/<suffix>`.
pub open spec fn disk_key_text(disk: Seq<char>, suffix: Seq<char>) -> Seq<char> {
    "diskstats/"@ + disk + "/"@ + suffix
}

pub open spec fn key_ok(disk: Seq<char>, suffix: Seq<char>) -> bool {
    key_chars_valid(disk_key_text(disk, suffix))
}

pub open spec fn key_of(disk: Seq<char>, suffix: Seq<char>) -> Seq<char> {
    without_nul(disk_key_text(disk, suffix))
}

/// The key `diskstats/<disk>/<suffix>`.
fn disk_metric_key(disk: &str, suffix: &str) -> (r: Result<MetricStringKey, DiskMetricsError>)
    ensures
        r is Ok <==> key_ok(disk@, suffix@),
        r matches Ok(k) ==> k@ == key_of(disk@, suffix@),
        r is Err ==> r == Err::<MetricStringKey, DiskMetricsError>(DiskMetricsError::InvalidKey),
{
    let mut text = String::new();
    text.append("diskstats/");
    text.append(disk);
    text.append("/");
    text.append(suffix);
    match MetricStringKey::from_str(text.as_str()) {
        Ok(k) => Ok(k),
        Err(_) => Err(DiskMetricsError::InvalidKey),
    }
}

/// Appends the readings of a part, or gives the first error.
pub open spec fn join(
    acc: Result<Seq<DiskReadingView>, DiskMetricsError>,
    part: Result<Seq<DiskReadingView>, DiskMetricsError>,
) -> Result<Seq<DiskReadingView>, DiskMetricsError> {
    match acc {
        Err(e) => Err(e),
        Ok(a) => match part {
            Err(e) => Err(e),
            Ok(b) => Ok(a + b),
        },
    }
}

/// One lifetime estimate: the percentage remaining, where the estimate is
/// at most 100 % used.
pub open spec fn pct_part(disk: Seq<char>, suffix: Seq<char>, pct: Option<u8>) -> Result<
    Seq<DiskReadingView>,
    DiskMetricsError,
> {
    match pct {
        None => Ok(Seq::empty()),
        Some(p) => if !key_ok(disk, suffix) {
            Err(DiskMetricsError::InvalidKey)
        } else if p <= 100 {
            Ok(seq![DiskReadingView::Gauge(key_of(disk, suffix), (100 - p) as u64)])
        } else {
            Ok(Seq::empty())
        },
    }
}

pub open spec fn lifetime_part(disk: Seq<char>, lifetime: Option<MmcLifeTime>) -> Result<
    Seq<DiskReadingView>,
    DiskMetricsError,
> {
    match lifetime {
        None => Ok(Seq::empty()),
        Some(l) => join(
            pct_part(disk, "lifetime_remaining_pct"@, l.lifetime_a_pct),
            pct_part(disk, "lifetime_b_remaining_pct"@, l.lifetime_b_pct),
        ),
    }
}

/// The lifetime part of a collection: nothing where no read was attempted,
/// an error where the read failed.
pub open spec fn lifetime_attempt(
    disk: Seq<char>,
    lifetime: Option<Result<Option<MmcLifeTime>, DiskReadError>>,
) -> Result<Seq<DiskReadingView>, DiskMetricsError> {
    match lifetime {
        None => Ok(Seq::empty()),
        Some(Err(_)) => Err(DiskMetricsError::LifetimeRead),
        Some(Ok(l)) => lifetime_part(disk, l),
    }
}

pub open spec fn tag_part(disk: Seq<char>, suffix: Seq<char>, value: Option<String>) -> Result<
    Seq<DiskReadingView>,
    DiskMetricsError,
> {
    match value {
        None => Ok(Seq::empty()),
        Some(t) => if key_ok(disk, suffix) {
            Ok(seq![DiskReadingView::ReportTag(key_of(disk, suffix), t@)])
        } else {
            Err(DiskMetricsError::InvalidKey)
        },
    }
}

pub open spec fn size_part(disk: Seq<char>, sector_count: Option<u64>) -> Result<
    Seq<DiskReadingView>,
    DiskMetricsError,
> {
    match sector_count {
        None => Ok(Seq::empty()),
        Some(n) => if key_ok(disk, "total_size_bytes"@) {
            Ok(seq![DiskReadingView::Gauge(key_of(disk, "total_size_bytes"@), (n * 512) as u64)])
        } else {
            Err(DiskMetricsError::InvalidKey)
        },
    }
}

/// The bytes written since the previous collection, where there was one,
/// the counter did not go down and the product fits in a `u64`. A key that
/// is not valid drops the reading only.
pub open spec fn bytes_written_part(disk: Seq<char>, cur: Option<u64>, prev: Option<u64>) -> Seq<
    DiskReadingView,
> {
    match (cur, prev) {
        (Some(c), Some(p)) => if c >= p && (c - p) * 512 <= u64::MAX && key_ok(
            disk,
            "bytes_written"@,
        ) {
            seq![DiskReadingView::Counter(key_of(disk, "bytes_written"@), ((c - p) * 512) as u64)]
        } else {
            Seq::empty()
        },
        _ => Seq::empty(),
    }
}

/// The identity readings of a disk, in order, or the first error.
pub open spec fn identity_part(
    d: Seq<char>,
    product_name: Option<String>,
    manufacturer_id: Option<String>,
    sector_count: Option<u64>,
    manufacture_date: Option<String>,
    revision: Option<String>,
    serial: Option<String>,
) -> Result<Seq<DiskReadingView>, DiskMetricsError> {
    join(
        join(
            join(
                join(
                    join(
                        join(Ok(Seq::empty()), tag_part(d, "name"@, product_name)),
                        tag_part(d, "manufacturer_id"@, manufacturer_id),
                    ),
                    size_part(d, sector_count),
                ),
                tag_part(d, "manufacture_date"@, manufacture_date),
            ),
            tag_part(d, "revision"@, revision),
        ),
        tag_part(d, "serial"@, serial),
    )
}

/// The readings of one collection for one disk, in order, or its first
/// error: the lifetime, the bytes written, then the identity.
pub open spec fn disk_readings(raw: DiskRawReadings, sectors: Option<u64>, prev: Option<u64>) -> Result<
    Seq<DiskReadingView>,
    DiskMetricsError,
> {
    let d = raw.disk_name@;
    match lifetime_attempt(d, raw.lifetime) {
        Err(e) => Err(e),
        Ok(l) => join(
            Ok(l + bytes_written_part(d, sectors, prev)),
            identity_part(
                d,
                raw.product_name,
                raw.manufacturer_id,
                raw.sector_count,
                raw.manufacture_date,
                raw.revision,
                raw.serial,
            ),
        ),
    }
}

/// The statistics of the last line of `/proc/diskstats` for `name`.
pub open spec fn last_stats_for(lines: Seq<(String, Vec<u64>)>, name: Seq<char>) -> Option<
    Seq<u64>,
>
    decreases lines.len(),
{
    if lines.len() == 0 {
        None
    } else if lines.last().0@ == name {
        Some(lines.last().1@)
    } else {
        last_stats_for(lines.drop_last(), name)
    }
}

/// The sectors written of `name` according to the parsed lines of
/// `/proc/diskstats`.
pub open spec fn sectors_written_of(lines: Seq<(String, Vec<u64>)>, name: Seq<char>) -> Option<u64> {
    match last_stats_for(lines, name) {
        Some(stats) => if stats.len() > 6 {
            Some(stats[6])
        } else {
            None
        },
        None => None,
    }
}

/// Finds the sectors written of `name` (see `sectors_written_of`).
fn find_sectors_written(disk_stats: &Vec<(String, Vec<u64>)>, name: &str) -> (r: Option<u64>)
    ensures
        r == sectors_written_of(disk_stats@, name@),
{
    let target = name.to_owned();
    let mut i = disk_stats.len();
    assert(disk_stats@.take(i as int) =~= disk_stats@);
    while i > 0
        invariant
            0 <= i <= disk_stats@.len(),
            target@ == name@,
            last_stats_for(disk_stats@, name@) == last_stats_for(disk_stats@.take(i as int), name@),
        decreases i,
    {
        assert(disk_stats@.take(i as int).drop_last() =~= disk_stats@.take(i - 1));
        if disk_stats[i - 1].0 == target {
            let stats = &disk_stats[i - 1].1;
            if stats.len() > SECTORS_WRITTEN_DISKSTATS_OFFSET {
                return Some(stats[SECTORS_WRITTEN_DISKSTATS_OFFSET]);
            } else {
                return None;
            }
        }
        i = i - 1;
    }
    None
}

/// The remaining lifetime of one estimate, if the estimate is known and at
/// most 100 % used.
fn lifetime_pct_reading(disk_name: &str, suffix: &str, pct: Option<u8>) -> (r: Result<
    Vec<DiskMetricReading>,
    DiskMetricsError,
>)
    ensures
        r matches Ok(v) ==> pct_part(disk_name@, suffix@, pct) == Ok::<
            Seq<DiskReadingView>,
            DiskMetricsError,
        >(readings_view(v@)),
        r matches Err(e) ==> pct_part(disk_name@, suffix@, pct) == Err::<
            Seq<DiskReadingView>,
            DiskMetricsError,
        >(e),
{
    let mut v: Vec<DiskMetricReading> = Vec::new();
    match pct {
        None => {
            assert(readings_view(v@) =~= Seq::empty());
            Ok(v)
        },
        Some(p) => {
            let key = match disk_metric_key(disk_name, suffix) {
                Ok(k) => k,
                Err(e) => {
                    return Err(e);
                },
            };
            if p <= 100 {
                v.push(DiskMetricReading::Gauge { key, value: (100 - p) as u64 });
                assert(readings_view(v@) =~= seq![
                    DiskReadingView::Gauge(key_of(disk_name@, suffix@), (100 - p) as u64),
                ]);
            } else {
                assert(readings_view(v@) =~= Seq::empty());
            }
            Ok(v)
        },
    }
}

/// The readings of a lifetime estimate: the remaining percentage of each of
/// its two estimates (see `lifetime_part`).
pub fn lifetime_readings(disk_name: &str, lifetime: Option<MmcLifeTime>) -> (r: Result<
    Vec<DiskMetricReading>,
    DiskMetricsError,
>)
    ensures
        r matches Ok(v) ==> lifetime_part(disk_name@, lifetime) == Ok::<
            Seq<DiskReadingView>,
            DiskMetricsError,
        >(readings_view(v@)),
        r matches Err(e) ==> lifetime_part(disk_name@, lifetime) == Err::<
            Seq<DiskReadingView>,
            DiskMetricsError,
        >(e),
{
    match lifetime {
        None => {
            let v: Vec<DiskMetricReading> = Vec::new();
            assert(readings_view(v@) =~= Seq::empty());
            Ok(v)
        },
        Some(l) => {
            let mut a = match lifetime_pct_reading(disk_name, "lifetime_remaining_pct", l.lifetime_a_pct) {
                Ok(a) => a,
                Err(e) => {
                    return Err(e);
                },
            };
            let mut b = match lifetime_pct_reading(disk_name, "lifetime_b_remaining_pct", l.lifetime_b_pct) {
                Ok(b) => b,
                Err(e) => {
                    return Err(e);
                },
            };
            let ghost va = readings_view(a@);
            let ghost vb = readings_view(b@);
            a.append(&mut b);
            assert(readings_view(a@) =~= va + vb);
            Ok(a)
        },
    }
}

/// A report tag under `diskstats/<disk>/<suffix>`, where the value is known.
fn tag_reading(disk_name: &str, suffix: &str, value: Option<String>) -> (r: Result<
    Vec<DiskMetricReading>,
    DiskMetricsError,
>)
    ensures
        r matches Ok(v) ==> tag_part(disk_name@, suffix@, value) == Ok::<
            Seq<DiskReadingView>,
            DiskMetricsError,
        >(readings_view(v@)),
        r matches Err(e) ==> tag_part(disk_name@, suffix@, value) == Err::<
            Seq<DiskReadingView>,
            DiskMetricsError,
        >(e),
{
    let mut v: Vec<DiskMetricReading> = Vec::new();
    match value {
        None => {
            assert(readings_view(v@) =~= Seq::empty());
            Ok(v)
        },
        Some(t) => {
            let ghost tv = t@;
            let key = match disk_metric_key(disk_name, suffix) {
                Ok(k) => k,
                Err(e) => {
                    return Err(e);
                },
            };
            v.push(DiskMetricReading::ReportTag { key, value: t });
            assert(readings_view(v@) =~= seq![
                DiskReadingView::ReportTag(key_of(disk_name@, suffix@), tv),
            ]);
            Ok(v)
        },
    }
}

/// The size of the disk, where its sector count is known.
fn size_reading(disk_name: &str, sector_count: Option<u64>) -> (r: Result<
    Vec<DiskMetricReading>,
    DiskMetricsError,
>)
    requires
        sector_count matches Some(n) ==> n * 512 <= u64::MAX,
    ensures
        r matches Ok(v) ==> size_part(disk_name@, sector_count) == Ok::<
            Seq<DiskReadingView>,
            DiskMetricsError,
        >(readings_view(v@)),
        r matches Err(e) ==> size_part(disk_name@, sector_count) == Err::<
            Seq<DiskReadingView>,
            DiskMetricsError,
        >(e),
{
    let mut v: Vec<DiskMetricReading> = Vec::new();
    match sector_count {
        None => {
            assert(readings_view(v@) =~= Seq::empty());
            Ok(v)
        },
        Some(n) => {
            let key = match disk_metric_key(disk_name, "total_size_bytes") {
                Ok(k) => k,
                Err(e) => {
                    return Err(e);
                },
            };
            v.push(DiskMetricReading::Gauge { key, value: n * SECTOR_SIZE });
            assert(readings_view(v@) =~= seq![
                DiskReadingView::Gauge(key_of(disk_name@, "total_size_bytes"@), (n * 512) as u64),
            ]);
            Ok(v)
        },
    }
}

/// Computes the bytes written since the previous collection from the
/// sectors-written counter, and keeps the counter for the next one.
pub fn calc_bytes_written_reading(
    cur_sectors_written: u64,
    prev_sector_readings: &mut NameMap<u64>,
    disk_name: &str,
) -> (r: Result<Option<DiskMetricReading>, DiskMetricsError>)
    ensures
        final(prev_sector_readings)@ == old(prev_sector_readings)@.insert(
            disk_name@,
            cur_sectors_written,
        ),
        ({
            let prev = if old(prev_sector_readings)@.contains_key(disk_name@) {
                Some(old(prev_sector_readings)@[disk_name@])
            } else {
                None::<u64>
            };
            &&& r matches Ok(Some(reading)) ==> bytes_written_part(
                disk_name@,
                Some(cur_sectors_written),
                prev,
            ) == seq![reading@]
            &&& r matches Ok(None) ==> bytes_written_part(
                disk_name@,
                Some(cur_sectors_written),
                prev,
            ) == Seq::<DiskReadingView>::empty()
            &&& r is Err <==> (prev matches Some(p) && cur_sectors_written >= p && (
            cur_sectors_written - p) * 512 <= u64::MAX && !key_ok(disk_name@, "bytes_written"@))
        }),
{
    match prev_sector_readings.insert(disk_name, cur_sectors_written) {
        Some(prev_sectors_written) => {
            match cur_sectors_written.checked_sub(prev_sectors_written) {
                Some(sectors) => {
                    match sectors.checked_mul(SECTOR_SIZE) {
                        Some(bytes_since_last_reading) => {
                            let key = match disk_metric_key(disk_name, "bytes_written") {
                                Ok(k) => k,
                                Err(e) => {
                                    return Err(e);
                                },
                            };
                            Ok(Some(DiskMetricReading::Counter { key, value: bytes_since_last_reading }))
                        },
                        None => Ok(None),
                    }
                },
                None => Ok(None),
            }
        },
        None => Ok(None),
    }
}

/// The disks to follow: the MMC devices (names holding `mmcblk`) among the
/// entries of `/sys/block` (for the automatic choice) or among the
/// configured devices, each as `/dev/<name>`, in order.
pub open spec fn tracked_disks(names: Seq<String>) -> Seq<Seq<char>>
    decreases names.len(),
{
    if names.len() == 0 {
        Seq::empty()
    } else {
        let rest = tracked_disks(names.drop_last());
        if has_substr(names.last()@, TRACKED_DISK_PREFIX@) {
            rest.push("/dev/"@ + names.last()@)
        } else {
            rest
        }
    }
}

/// The MMC disks to follow under `config`; `sysfs_block_entries` are the
/// names of the entries of `/sys/block`, read where the choice is automatic.
pub fn get_tracked_disks(config: &DiskstatsMetricsConfig, sysfs_block_entries: &Vec<String>) -> (r:
    Vec<String>)
    ensures
        r@.map_values(|s: String| s@) == match config {
            DiskstatsMetricsConfig::Auto => tracked_disks(sysfs_block_entries@),
            DiskstatsMetricsConfig::Devices(devs) => tracked_disks(devs@),
        },
{
    let names = match config {
        DiskstatsMetricsConfig::Auto => sysfs_block_entries,
        DiskstatsMetricsConfig::Devices(devs) => devs,
    };
    let mut r: Vec<String> = Vec::new();
    let mut i: usize = 0;
    while i < names.len()
        invariant
            0 <= i <= names@.len(),
            r@.map_values(|s: String| s@) == tracked_disks(names@.take(i as int)),
        decreases names@.len() - i,
    {
        assert(names@.take(i + 1).drop_last() =~= names@.take(i as int));
        let ghost before = r@;
        if contains_substr(names[i].as_str(), TRACKED_DISK_PREFIX) {
            let mut path = String::new();
            path.append("/dev/");
            path.append(names[i].as_str());
            r.push(path);
            assert(r@.map_values(|s: String| s@) =~= before.map_values(|s: String| s@).push(
                "/dev/"@ + names@[i as int]@,
            ));
        }
        i = i + 1;
    }
    assert(names@.take(names@.len() as int) =~= names@);
    r
}

/// The identity readings of a disk (see `identity_part`).
fn identity_readings(
    disk_name: &str,
    product_name: Option<String>,
    manufacturer_id: Option<String>,
    sector_count: Option<u64>,
    manufacture_date: Option<String>,
    revision: Option<String>,
    serial: Option<String>,
) -> (r: Result<Vec<DiskMetricReading>, DiskMetricsError>)
    requires
        sector_count matches Some(n) ==> n * 512 <= u64::MAX,
    ensures
        ({
            let expected = identity_part(
                disk_name@,
                product_name,
                manufacturer_id,
                sector_count,
                manufacture_date,
                revision,
                serial,
            );
            &&& r matches Ok(v) ==> expected == Ok::<
                Seq<DiskReadingView>,
                DiskMetricsError,
            >(readings_view(v@))
            &&& r matches Err(e) ==> expected == Err::<Seq<DiskReadingView>, DiskMetricsError>(e)
        }),
{
    let mut metrics: Vec<DiskMetricReading> = Vec::new();
    let ghost acc0 = readings_view(metrics@);
    assert(acc0 =~= Seq::empty());
    let mut part = match tag_reading(disk_name, "name", product_name) {
        Ok(v) => v,
        Err(e) => {
            return Err(e);
        },
    };
    let ghost p1 = readings_view(part@);
    metrics.append(&mut part);
    assert(readings_view(metrics@) =~= acc0 + p1);
    let ghost acc1 = readings_view(metrics@);
    let mut part = match tag_reading(disk_name, "manufacturer_id", manufacturer_id) {
        Ok(v) => v,
        Err(e) => {
            return Err(e);
        },
    };
    let ghost p2 = readings_view(part@);
    metrics.append(&mut part);
    assert(readings_view(metrics@) =~= acc1 + p2);
    let ghost acc2 = readings_view(metrics@);
    let mut part = match size_reading(disk_name, sector_count) {
        Ok(v) => v,
        Err(e) => {
            return Err(e);
        },
    };
    let ghost p3 = readings_view(part@);
    metrics.append(&mut part);
    assert(readings_view(metrics@) =~= acc2 + p3);
    let ghost acc3 = readings_view(metrics@);
    let mut part = match tag_reading(disk_name, "manufacture_date", manufacture_date) {
        Ok(v) => v,
        Err(e) => {
            return Err(e);
        },
    };
    let ghost p4 = readings_view(part@);
    metrics.append(&mut part);
    assert(readings_view(metrics@) =~= acc3 + p4);
    let ghost acc4 = readings_view(metrics@);
    let mut part = match tag_reading(disk_name, "revision", revision) {
        Ok(v) => v,
        Err(e) => {
            return Err(e);
        },
    };
    let ghost p5 = readings_view(part@);
    metrics.append(&mut part);
    assert(readings_view(metrics@) =~= acc4 + p5);
    let ghost acc5 = readings_view(metrics@);
    let mut part = match tag_reading(disk_name, "serial", serial) {
        Ok(v) => v,
        Err(e) => {
            return Err(e);
        },
    };
    let ghost p6 = readings_view(part@);
    metrics.append(&mut part);
    assert(readings_view(metrics@) =~= acc5 + p6);
    Ok(metrics)
}

/// Whether the lifetime of `disk` is due at `now`, given when each disk's
/// lifetime was last read.
pub open spec fn lifetime_due(last: Map<Seq<char>, u128>, disk: Seq<char>, now: u128) -> bool {
    !last.contains_key(disk) || (now >= last[disk] && now - last[disk] >= LIFETIME_READING_INTERVAL_NS)
}

/// The lifetime of a device is read at most once an hour: once a read at
/// `read_at` is kept, the lifetime is not due again before an hour has
/// passed, and is due from then on.
pub proof fn law_lifetime_read_at_most_hourly(
    last: Map<Seq<char>, u128>,
    disk: Seq<char>,
    read_at: u128,
    t: u128,
)
    ensures
        read_at <= t < read_at + LIFETIME_READING_INTERVAL_NS ==> !lifetime_due(
            last.insert(disk, read_at),
            disk,
            t,
        ),
        t >= read_at + LIFETIME_READING_INTERVAL_NS ==> lifetime_due(
            last.insert(disk, read_at),
            disk,
            t,
        ),
{
}

/// Collects the health metrics of the MMC disks.
pub struct DiskMetricsCollector {
    prev_sector_readings: NameMap<u64>,
    last_lifetime_readings: NameMap<u128>,
}

impl DiskMetricsCollector {
    /// The sectors written of each disk at the previous collection.
    pub closed spec fn spec_prev_sectors(&self) -> Map<Seq<char>, u64> {
        self.prev_sector_readings@
    }

    /// When the lifetime of each disk was last read, in nanoseconds of a
    /// monotonic clock.
    pub closed spec fn spec_last_lifetime(&self) -> Map<Seq<char>, u128> {
        self.last_lifetime_readings@
    }

    /// A collector that has seen no collection yet.
    pub fn new() -> (r: Self)
        ensures
            r.spec_prev_sectors() == Map::<Seq<char>, u64>::empty(),
            r.spec_last_lifetime() == Map::<Seq<char>, u128>::empty(),
    {
        DiskMetricsCollector { prev_sector_readings: NameMap::new(), last_lifetime_readings: NameMap::new() }
    }

    /// The sectors written of `disk_name` at the previous collection.
    pub fn prev_sector_reading(&self, disk_name: &str) -> (r: Option<u64>)
        ensures
            r == if self.spec_prev_sectors().contains_key(disk_name@) {
                Some(self.spec_prev_sectors()[disk_name@])
            } else {
                None::<u64>
            },
    {
        self.prev_sector_readings.get(disk_name)
    }

    /// When the lifetime of `disk_name` was last read.
    pub fn last_lifetime_reading(&self, disk_name: &str) -> (r: Option<u128>)
        ensures
            r == if self.spec_last_lifetime().contains_key(disk_name@) {
                Some(self.spec_last_lifetime()[disk_name@])
            } else {
                None::<u128>
            },
    {
        self.last_lifetime_readings.get(disk_name)
    }

    /// Whether the lifetime of `disk_name` is to be read at `now_ns`: where
    /// it was never read, or at least an hour ago.
    pub fn should_read_lifetime(&self, disk_name: &str, now_ns: u128) -> (r: bool)
        ensures
            r == lifetime_due(self.spec_last_lifetime(), disk_name@, now_ns),
    {
        match self.last_lifetime_readings.get(disk_name) {
            Some(last_reading) => now_ns >= last_reading && now_ns - last_reading
                >= LIFETIME_READING_INTERVAL_NS,
            None => true,
        }
    }

    /// The readings of one disk (see `disk_readings`), `disk_stats` being
    /// the parsed lines of `/proc/diskstats` and `now_ns` the time of the
    /// collection. Where a lifetime read was attempted and its readings
    /// were built, the time is kept; where the readings got that far, the
    /// sectors written are kept for the next collection.
    pub fn build_disk_metrics(
        &mut self,
        raw: DiskRawReadings,
        disk_stats: &Vec<(String, Vec<u64>)>,
        now_ns: u128,
    ) -> (r: Result<Vec<DiskMetricReading>, DiskMetricsError>)
        requires
            raw.sector_count matches Some(n) ==> n * 512 <= u64::MAX,
        ensures
            ({
                let d = raw.disk_name@;
                let sectors = sectors_written_of(disk_stats@, d);
                let prev = if old(self).spec_prev_sectors().contains_key(d) {
                    Some(old(self).spec_prev_sectors()[d])
                } else {
                    None::<u64>
                };
                let lifetime_ok = lifetime_attempt(d, raw.lifetime) is Ok;
                &&& r matches Ok(v) ==> disk_readings(raw, sectors, prev) == Ok::<
                    Seq<DiskReadingView>,
                    DiskMetricsError,
                >(readings_view(v@))
                &&& r matches Err(e) ==> disk_readings(raw, sectors, prev) == Err::<
                    Seq<DiskReadingView>,
                    DiskMetricsError,
                >(e)
                &&& final(self).spec_last_lifetime() == if raw.lifetime is Some && lifetime_ok {
                    old(self).spec_last_lifetime().insert(d, now_ns)
                } else {
                    old(self).spec_last_lifetime()
                }
                &&& final(self).spec_prev_sectors() == if lifetime_ok && sectors is Some {
                    old(self).spec_prev_sectors().insert(d, sectors.unwrap())
                } else {
                    old(self).spec_prev_sectors()
                }
            }),
    {
        let ghost d = raw.disk_name@;
        let ghost raw_copy = raw;
        let DiskRawReadings {
            disk_name,
            lifetime,
            product_name,
            manufacturer_id,
            sector_count,
            manufacture_date,
            revision,
            serial,
        } = raw;
        let mut metrics: Vec<DiskMetricReading> = Vec::new();
        match lifetime {
            Some(lifetime_result) => {
                let l = match lifetime_result {
                    Ok(l) => l,
                    Err(_) => {
                        return Err(DiskMetricsError::LifetimeRead);
                    },
                };
                let mut readings = match lifetime_readings(disk_name.as_str(), l) {
                    Ok(v) => v,
                    Err(e) => {
                        return Err(e);
                    },
                };
                let ghost rv = readings_view(readings@);
                metrics.append(&mut readings);
                assert(readings_view(metrics@) =~= rv);
                self.last_lifetime_readings.insert(disk_name.as_str(), now_ns);
            },
            None => {
                assert(readings_view(metrics@) =~= Seq::empty());
            },
        }
        assert(lifetime_attempt(d, raw_copy.lifetime) == Ok::<
            Seq<DiskReadingView>,
            DiskMetricsError,
        >(readings_view(metrics@)));
        let ghost prev = if old(self).spec_prev_sectors().contains_key(d) {
            Some(old(self).spec_prev_sectors()[d])
        } else {
            None::<u64>
        };
        let sectors_written = find_sectors_written(disk_stats, disk_name.as_str());
        match sectors_written {
            Some(sectors_written) => {
                let ghost before = readings_view(metrics@);
                match calc_bytes_written_reading(
                    sectors_written,
                    &mut self.prev_sector_readings,
                    disk_name.as_str(),
                ) {
                    Ok(Some(reading)) => {
                        metrics.push(reading);
                        assert(readings_view(metrics@) =~= before + bytes_written_part(
                            d,
                            Some(sectors_written),
                            prev,
                        ));
                    },
                    _ => {
                        assert(readings_view(metrics@) =~= before + bytes_written_part(
                            d,
                            Some(sectors_written),
                            prev,
                        ));
                    },
                }
            },
            None => {
                assert(readings_view(metrics@) =~= readings_view(metrics@) + bytes_written_part(
                    d,
                    None,
                    prev,
                ));
            },
        }
        let ghost acc0 = readings_view(metrics@);
        let mut ids = match identity_readings(
            disk_name.as_str(),
            product_name,
            manufacturer_id,
            sector_count,
            manufacture_date,
            revision,
            serial,
        ) {
            Ok(v) => v,
            Err(e) => {
                return Err(e);
            },
        };
        let ghost pi = readings_view(ids@);
        metrics.append(&mut ids);
        assert(readings_view(metrics@) =~= acc0 + pi);
        Ok(metrics)
    }
}

/// Whether `r` is a report tag under `key`.
pub open spec fn is_tag_under(r: DiskReadingView, key: Seq<char>) -> bool {
    match r {
        DiskReadingView::ReportTag(k, _) => k == key,
        _ => false,
    }
}

/// Whether `r` is a report tag whose value is the one read, `value`.
pub open spec fn tag_holds(r: DiskReadingView, value: Option<String>) -> bool {
    match (r, value) {
        (DiskReadingView::ReportTag(_, v), Some(t)) => v == t@,
        _ => false,
    }
}

/// No report tag of `s` has the key `key`.
pub open spec fn no_tag_under(s: Seq<DiskReadingView>, key: Seq<char>) -> bool {
    forall|i: int| 0 <= i < s.len() ==> !is_tag_under(#[trigger] s[i], key)
}

/// The report tags of `s` under `key` carry the value `value` read for it:
/// there is one where a value was read, and each carries that value.
pub open spec fn tag_carries(s: Seq<DiskReadingView>, key: Seq<char>, value: Option<String>) -> bool {
    &&& forall|i: int| 0 <= i < s.len() && is_tag_under(#[trigger] s[i], key) ==> tag_holds(s[i], value)
    &&& value is Some ==> s.contains(DiskReadingView::ReportTag(key, value.unwrap()@))
}

proof fn lemma_no_tag_concat(a: Seq<DiskReadingView>, b: Seq<DiskReadingView>, key: Seq<char>)
    requires
        no_tag_under(a, key),
        no_tag_under(b, key),
    ensures
        no_tag_under(a + b, key),
{
    assert forall|i: int| 0 <= i < (a + b).len() implies !is_tag_under(#[trigger] (a + b)[i], key) by {
        if i < a.len() {
            assert((a + b)[i] == a[i]);
        } else {
            assert((a + b)[i] == b[i - a.len()]);
        }
    }
}

proof fn lemma_carries_concat(a: Seq<DiskReadingView>, b: Seq<DiskReadingView>, key: Seq<char>, value: Option<String>)
    requires
        (no_tag_under(a, key) && tag_carries(b, key, value)) || (tag_carries(a, key, value)
            && no_tag_under(b, key)),
    ensures
        tag_carries(a + b, key, value),
{
    let s = a + b;
    assert forall|i: int| 0 <= i < s.len() && is_tag_under(#[trigger] s[i], key) implies tag_holds(s[i], value) by {
        if i < a.len() {
            assert(s[i] == a[i]);
        } else {
            assert(s[i] == b[i - a.len()]);
        }
    }
    if value is Some {
        let tag = DiskReadingView::ReportTag(key, value.unwrap()@);
        if tag_carries(a, key, value) {
            let j = choose|j: int| 0 <= j < a.len() && a[j] == tag;
            assert(s[j] == tag);
        } else {
            let j = choose|j: int| 0 <= j < b.len() && b[j] == tag;
            assert(s[j + a.len()] == tag);
        }
    }
}

proof fn lemma_without_nul_append(a: Seq<char>, b: Seq<char>)
    requires
        forall|i: int| 0 <= i < b.len() ==> b[i] != '\0',
    ensures
        without_nul(a + b) == without_nul(a) + b,
    decreases b.len(),
{
    if b.len() > 0 {
        lemma_without_nul_append(a, b.drop_last());
        assert((a + b).drop_last() =~= a + b.drop_last());
        assert((a + b).last() == b.last());
        assert(without_nul(a) + b =~= (without_nul(a) + b.drop_last()).push(b.last()));
    }
}

/// The key of a suffix without `'\0'` ends with that suffix after a part
/// that depends on the disk alone.
proof fn lemma_key_of_suffix(d: Seq<char>, sfx: Seq<char>)
    requires
        forall|i: int| 0 <= i < sfx.len() ==> sfx[i] != '\0',
    ensures
        key_of(d, sfx) == without_nul("diskstats/"@ + d + "/"@) + sfx,
{
    assert(disk_key_text(d, sfx) =~= ("diskstats/"@ + d + "/"@) + sfx);
    lemma_without_nul_append("diskstats/"@ + d + "/"@, sfx);
}

/// The identity suffixes, with their lengths, all different.
proof fn lemma_identity_suffixes(d: Seq<char>)
    ensures
        key_of(d, "name"@).len() == without_nul("diskstats/"@ + d + "/"@).len() + 4,
        key_of(d, "manufacturer_id"@).len() == without_nul("diskstats/"@ + d + "/"@).len() + 15,
        key_of(d, "total_size_bytes"@).len() == without_nul("diskstats/"@ + d + "/"@).len() + 16,
        key_of(d, "manufacture_date"@).len() == without_nul("diskstats/"@ + d + "/"@).len() + 16,
        key_of(d, "revision"@).len() == without_nul("diskstats/"@ + d + "/"@).len() + 8,
        key_of(d, "serial"@).len() == without_nul("diskstats/"@ + d + "/"@).len() + 6,
{
    reveal_strlit("name");
    reveal_strlit("manufacturer_id");
    reveal_strlit("total_size_bytes");
    reveal_strlit("manufacture_date");
    reveal_strlit("revision");
    reveal_strlit("serial");
    lemma_key_of_suffix(d, "name"@);
    lemma_key_of_suffix(d, "manufacturer_id"@);
    lemma_key_of_suffix(d, "total_size_bytes"@);
    lemma_key_of_suffix(d, "manufacture_date"@);
    lemma_key_of_suffix(d, "revision"@);
    lemma_key_of_suffix(d, "serial"@);
}

proof fn lemma_tag_part(d: Seq<char>, sfx: Seq<char>, value: Option<String>, key: Seq<char>)
    ensures
        tag_part(d, sfx, value) matches Ok(p) ==> tag_carries(p, key_of(d, sfx), value),
        tag_part(d, sfx, value) is Ok && key.len() != key_of(d, sfx).len() ==> no_tag_under(
            tag_part(d, sfx, value)->Ok_0,
            key,
        ),
{
    match (tag_part(d, sfx, value), value) {
        (Ok(p), Some(t)) => {
            assert(p[0] == DiskReadingView::ReportTag(key_of(d, sfx), t@));
        },
        _ => {},
    }
}

proof fn lemma_no_tags_in_gauges(d: Seq<char>, sfx: Seq<char>, pct: Option<u8>, key: Seq<char>)
    ensures
        pct_part(d, sfx, pct) matches Ok(p) ==> no_tag_under(p, key),
{
}

/// Where the readings of a disk are built, the only report tags are those
/// of its identity.
proof fn lemma_disk_readings_parts(raw: DiskRawReadings, sectors: Option<u64>, prev: Option<u64>, key: Seq<char>)
    requires
        disk_readings(raw, sectors, prev) is Ok,
    ensures
        ({
            let d = raw.disk_name@;
            let l = lifetime_attempt(d, raw.lifetime);
            let ids = identity_part(
                d,
                raw.product_name,
                raw.manufacturer_id,
                raw.sector_count,
                raw.manufacture_date,
                raw.revision,
                raw.serial,
            );
            &&& l is Ok
            &&& ids is Ok
            &&& no_tag_under(l->Ok_0 + bytes_written_part(d, sectors, prev), key)
            &&& disk_readings(raw, sectors, prev) == Ok::<Seq<DiskReadingView>, DiskMetricsError>(
                l->Ok_0 + bytes_written_part(d, sectors, prev) + ids->Ok_0,
            )
        }),
{
    let d = raw.disk_name@;
    if let Some(Ok(Some(lt))) = raw.lifetime {
        lemma_no_tags_in_gauges(d, "lifetime_remaining_pct"@, lt.lifetime_a_pct, key);
        lemma_no_tags_in_gauges(d, "lifetime_b_remaining_pct"@, lt.lifetime_b_pct, key);
        if let (Ok(a), Ok(b)) = (
            pct_part(d, "lifetime_remaining_pct"@, lt.lifetime_a_pct),
            pct_part(d, "lifetime_b_remaining_pct"@, lt.lifetime_b_pct),
        ) {
            lemma_no_tag_concat(a, b, key);
        }
    }
    let l = lifetime_attempt(d, raw.lifetime)->Ok_0;
    let bw = bytes_written_part(d, sectors, prev);
    assert(no_tag_under(bw, key));
    lemma_no_tag_concat(l, bw, key);
}

/// Each identity report tag of a disk carries the value read for its own
/// attribute: under `diskstats/<disk>/name` the product name, under
/// `.../manufacturer_id` the manufacturer id, under `.../manufacture_date`
/// the manufacture date, under `.../revision` the revision and under
/// `.../serial` the serial number. A tag is there exactly for the values
/// that were read, and no other tag carries that key.
pub proof fn law_identity_tags_carry_their_own_values(raw: DiskRawReadings, sectors: Option<u64>, prev: Option<u64>)
    ensures
        disk_readings(raw, sectors, prev) matches Ok(s) ==> {
            let d = raw.disk_name@;
            &&& tag_carries(s, key_of(d, "name"@), raw.product_name)
            &&& tag_carries(s, key_of(d, "manufacturer_id"@), raw.manufacturer_id)
            &&& tag_carries(s, key_of(d, "manufacture_date"@), raw.manufacture_date)
            &&& tag_carries(s, key_of(d, "revision"@), raw.revision)
            &&& tag_carries(s, key_of(d, "serial"@), raw.serial)
        },
{
    if disk_readings(raw, sectors, prev) is Ok {
        let d = raw.disk_name@;
        lemma_identity_suffixes(d);
        lemma_identity_carries(raw, sectors, prev, key_of(d, "name"@), "name"@, raw.product_name);
        lemma_identity_carries(raw, sectors, prev, key_of(d, "manufacturer_id"@), "manufacturer_id"@, raw.manufacturer_id);
        lemma_identity_carries(raw, sectors, prev, key_of(d, "manufacture_date"@), "manufacture_date"@, raw.manufacture_date);
        lemma_identity_carries(raw, sectors, prev, key_of(d, "revision"@), "revision"@, raw.revision);
        lemma_identity_carries(raw, sectors, prev, key_of(d, "serial"@), "serial"@, raw.serial);
    }
}

proof fn lemma_identity_carries(
    raw: DiskRawReadings,
    sectors: Option<u64>,
    prev: Option<u64>,
    key: Seq<char>,
    sfx: Seq<char>,
    value: Option<String>,
)
    requires
        disk_readings(raw, sectors, prev) is Ok,
        key == key_of(raw.disk_name@, sfx),
        ({
            let d = raw.disk_name@;
            let n = key_of(d, "name"@).len();
            let m = key_of(d, "manufacturer_id"@).len();
            let z = key_of(d, "total_size_bytes"@).len();
            let t = key_of(d, "manufacture_date"@).len();
            let r = key_of(d, "revision"@).len();
            let c = key_of(d, "serial"@).len();
            ||| sfx == "name"@ && value == raw.product_name && key.len() != m && key.len() != z
                && key.len() != t && key.len() != r && key.len() != c
            ||| sfx == "manufacturer_id"@ && value == raw.manufacturer_id && key.len() != n
                && key.len() != z && key.len() != t && key.len() != r && key.len() != c
            ||| sfx == "manufacture_date"@ && value == raw.manufacture_date && key.len() != n
                && key.len() != m && key.len() != r && key.len() != c
            ||| sfx == "revision"@ && value == raw.revision && key.len() != n && key.len() != m
                && key.len() != z && key.len() != t && key.len() != c
            ||| sfx == "serial"@ && value == raw.serial && key.len() != n && key.len() != m
                && key.len() != z && key.len() != t && key.len() != r
        }),
    ensures
        disk_readings(raw, sectors, prev) matches Ok(s) && tag_carries(s, key, value),
{
    let d = raw.disk_name@;
    lemma_disk_readings_parts(raw, sectors, prev, key);
    lemma_tag_part(d, "name"@, raw.product_name, key);
    lemma_tag_part(d, "manufacturer_id"@, raw.manufacturer_id, key);
    lemma_tag_part(d, "manufacture_date"@, raw.manufacture_date, key);
    lemma_tag_part(d, "revision"@, raw.revision, key);
    lemma_tag_part(d, "serial"@, raw.serial, key);
    let p1 = tag_part(d, "name"@, raw.product_name)->Ok_0;
    let p2 = tag_part(d, "manufacturer_id"@, raw.manufacturer_id)->Ok_0;
    let p3 = size_part(d, raw.sector_count)->Ok_0;
    let p4 = tag_part(d, "manufacture_date"@, raw.manufacture_date)->Ok_0;
    let p5 = tag_part(d, "revision"@, raw.revision)->Ok_0;
    let p6 = tag_part(d, "serial"@, raw.serial)->Ok_0;
    assert(no_tag_under(p3, key));
    let e = Seq::<DiskReadingView>::empty();
    assert(no_tag_under(e, key));
    let ids = e + p1 + p2 + p3 + p4 + p5 + p6;
    let pre = lifetime_attempt(d, raw.lifetime)->Ok_0 + bytes_written_part(d, sectors, prev);
    // the prefix up to the part of `sfx` holds no tag under `key`, nor does
    // what follows it
    if sfx == "name"@ {
        lemma_carries_concat(e, p1, key, value);
        lemma_carries_concat(e + p1, p2, key, value);
        lemma_carries_concat(e + p1 + p2, p3, key, value);
        lemma_carries_concat(e + p1 + p2 + p3, p4, key, value);
        lemma_carries_concat(e + p1 + p2 + p3 + p4, p5, key, value);
        lemma_carries_concat(e + p1 + p2 + p3 + p4 + p5, p6, key, value);
    } else if sfx == "manufacturer_id"@ {
        lemma_no_tag_concat(e, p1, key);
        lemma_carries_concat(e + p1, p2, key, value);
        lemma_carries_concat(e + p1 + p2, p3, key, value);
        lemma_carries_concat(e + p1 + p2 + p3, p4, key, value);
        lemma_carries_concat(e + p1 + p2 + p3 + p4, p5, key, value);
        lemma_carries_concat(e + p1 + p2 + p3 + p4 + p5, p6, key, value);
    } else if sfx == "manufacture_date"@ {
        lemma_no_tag_concat(e, p1, key);
        lemma_no_tag_concat(e + p1, p2, key);
        lemma_no_tag_concat(e + p1 + p2, p3, key);
        lemma_carries_concat(e + p1 + p2 + p3, p4, key, value);
        lemma_carries_concat(e + p1 + p2 + p3 + p4, p5, key, value);
        lemma_carries_concat(e + p1 + p2 + p3 + p4 + p5, p6, key, value);
    } else if sfx == "revision"@ {
        lemma_no_tag_concat(e, p1, key);
        lemma_no_tag_concat(e + p1, p2, key);
        lemma_no_tag_concat(e + p1 + p2, p3, key);
        lemma_no_tag_concat(e + p1 + p2 + p3, p4, key);
        lemma_carries_concat(e + p1 + p2 + p3 + p4, p5, key, value);
        lemma_carries_concat(e + p1 + p2 + p3 + p4 + p5, p6, key, value);
    } else {
        lemma_no_tag_concat(e, p1, key);
        lemma_no_tag_concat(e + p1, p2, key);
        lemma_no_tag_concat(e + p1 + p2, p3, key);
        lemma_no_tag_concat(e + p1 + p2 + p3, p4, key);
        lemma_no_tag_concat(e + p1 + p2 + p3 + p4, p5, key);
        lemma_carries_concat(e + p1 + p2 + p3 + p4 + p5, p6, key, value);
    }
    lemma_carries_concat(pre, ids, key, value);
}

} // verus!
