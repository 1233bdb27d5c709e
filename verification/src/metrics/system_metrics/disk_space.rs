//! Which mounted devices the disk space metrics follow, read from the lines
//! of `/proc/mounts`, such as `/dev/sda2 / ext4 rw,noatime 0 0`.
use vstd::prelude::*;

use crate::metrics::metric_string_key::{key_chars_valid, without_nul, MetricStringKey};
use crate::parse::{run_end, skip_run, CharClass};
use crate::text::{
    chars_of, contains_str, contains_substr, has_substr, split_lines, starts_with_str,
    string_from_range, string_views, text_lines, trim_range, trimmed,
};

verus! {

pub const DISKSPACE_METRIC_NAMESPACE_LEGACY: &'static str = "df";

pub const DISKSPACE_METRIC_NAMESPACE: &'static str = "disk_space";

pub const PROC_MOUNTS_PATH: &'static str = "/proc/mounts";

/// The devices to follow: the `/dev` devices but loop and RAM disks, or the
/// named ones.
pub enum DiskSpaceMetricsConfig {
    Auto,
    /// The device paths; a path that occurs twice counts once.
    Disks(Vec<String>),
}

/// Whether the device `disk` is followed under `config`.
pub open spec fn spec_disk_is_monitored(config: DiskSpaceMetricsConfig, disk: Seq<char>) -> bool {
    match config {
        DiskSpaceMetricsConfig::Auto => "/dev"@.is_prefix_of(disk) && !(has_substr(disk, "loop"@)
            || has_substr(disk, "ram"@)),
        DiskSpaceMetricsConfig::Disks(ds) => string_views(ds@).contains(disk),
    }
}

/// A mounted device and where it is mounted.
pub struct Mount {
    pub device: String,
    pub mount_point: String,
}

impl View for Mount {
    type V = (Seq<char>, Seq<char>);

    open spec fn view(&self) -> (Seq<char>, Seq<char>) {
        (self.device@, self.mount_point@)
    }
}

/// A line of `/proc/mounts`: the device (the leading non-whitespace
/// characters), at least one of `' '`, `'\t'`, `'\r'`, `'\n'`, then the
/// mount point (the non-whitespace characters that follow).
pub open spec fn mount_line(s: Seq<char>) -> Option<(Seq<char>, Seq<char>)> {
    let i1 = run_end(CharClass::NonWhitespace, s, 0);
    let i2 = run_end(CharClass::Multispace, s, i1);
    if i2 > i1 {
        Some((s.subrange(0, i1), s.subrange(i2, run_end(CharClass::NonWhitespace, s, i2))))
    } else {
        None
    }
}

/// The mounts that the lines of `/proc/mounts` list, each line trimmed,
/// lines that do not parse skipped, in order, kept where `config` follows
/// their device.
pub open spec fn monitored_mounts(config: DiskSpaceMetricsConfig, lines: Seq<Seq<char>>) -> Seq<
    (Seq<char>, Seq<char>),
>
    decreases lines.len(),
{
    if lines.len() == 0 {
        Seq::empty()
    } else {
        let rest = monitored_mounts(config, lines.drop_last());
        match mount_line(trimmed(lines.last())) {
            Some(m) => if spec_disk_is_monitored(config, m.0) {
                rest.push(m)
            } else {
                rest
            },
            None => rest,
        }
    }
}

pub open spec fn mount_views(ms: Seq<Mount>) -> Seq<(Seq<char>, Seq<char>)> {
    ms.map_values(|m: Mount| m@)
}

/// Parses a line of `/proc/mounts` (see `mount_line`).
pub fn parse_proc_mounts_line(line: &str) -> (r: Option<Mount>)
    ensures
        r matches Some(m) ==> mount_line(line@) == Some(m@),
        r is None ==> mount_line(line@) is None,
{
    let v = chars_of(line);
    let i1 = skip_run(CharClass::NonWhitespace, &v, 0);
    let i2 = skip_run(CharClass::Multispace, &v, i1);
    if i2 == i1 {
        return None;
    }
    let i3 = skip_run(CharClass::NonWhitespace, &v, i2);
    Some(Mount { device: string_from_range(&v, 0, i1), mount_point: string_from_range(&v, i2, i3) })
}

/// Collects the disk space metrics of the mounts that its configuration
/// follows.
pub struct DiskSpaceMetricCollector {
    config: DiskSpaceMetricsConfig,
    mounts: Vec<Mount>,
}

impl DiskSpaceMetricCollector {
    pub closed spec fn spec_config(&self) -> DiskSpaceMetricsConfig {
        self.config
    }

    pub closed spec fn spec_mounts(&self) -> Seq<(Seq<char>, Seq<char>)> {
        mount_views(self.mounts@)
    }

    /// A collector that knows no mount yet.
    pub fn new(config: DiskSpaceMetricsConfig) -> (r: Self)
        ensures
            r.spec_config() == config,
            r.spec_mounts() == Seq::<(Seq<char>, Seq<char>)>::empty(),
    {
        DiskSpaceMetricCollector { config, mounts: Vec::new() }
    }

    /// Whether the device `disk` is followed.
    pub fn disk_is_monitored(&self, disk: &str) -> (r: bool)
        ensures
            r == spec_disk_is_monitored(self.spec_config(), disk@),
    {
        match &self.config {
            DiskSpaceMetricsConfig::Auto => starts_with_str(disk, "/dev") && !(contains_substr(
                disk,
                "loop",
            ) || contains_substr(disk, "ram")),
            DiskSpaceMetricsConfig::Disks(ds) => contains_str(ds, disk),
        }
    }

    /// Adds the followed mounts that `proc_mounts`, the contents of
    /// `/proc/mounts`, lists.
    pub fn initialize_mounts(&mut self, proc_mounts: &str)
        ensures
            final(self).spec_config() == old(self).spec_config(),
            final(self).spec_mounts() == old(self).spec_mounts() + monitored_mounts(
                old(self).spec_config(),
                text_lines(proc_mounts@),
            ),
    {
        let v = chars_of(proc_mounts);
        let lines = split_lines(&v);
        let ghost ls = text_lines(v@);
        let ghost start = self.spec_mounts();
        let mut i: usize = 0;
        while i < lines.len()
            invariant
                0 <= i <= lines@.len(),
                v@ == proc_mounts@,
                ls == text_lines(v@),
                lines@.len() == ls.len(),
                forall|k: int|
                    0 <= k < lines@.len() ==> (#[trigger] lines@[k]).0 <= lines@[k].1 <= v.len()
                        && v@.subrange(lines@[k].0 as int, lines@[k].1 as int) == ls[k],
                self.spec_config() == old(self).spec_config(),
                start == old(self).spec_mounts(),
                self.spec_mounts() == start + monitored_mounts(
                    self.spec_config(),
                    ls.take(i as int),
                ),
            decreases lines@.len() - i,
        {
            let (a, b) = lines[i];
            let (ta, tb) = trim_range(&v, a, b);
            let line = string_from_range(&v, ta, tb);
            let ghost before = self.spec_mounts();
            assert(ls.take(i + 1).drop_last() =~= ls.take(i as int));
            assert(ls.take(i + 1).last() == ls[i as int]);
            match parse_proc_mounts_line(line.as_str()) {
                Some(mount) => {
                    if self.disk_is_monitored(mount.device.as_str()) {
                        self.mounts.push(mount);
                        assert(self.spec_mounts() =~= before.push(mount@));
                    }
                },
                None => {},
            }
            i = i + 1;
        }
        assert(ls.take(lines@.len() as int) =~= ls);
    }

    /// The mounts followed so far, in the order in which they were found.
    pub fn mounts(&self) -> (r: &Vec<Mount>)
        ensures
            mount_views(r@) == self.spec_mounts(),
    {
        &self.mounts
    }
}

/// The size of a file system, as `statvfs` gives it.
#[derive(Clone, Copy, Debug, PartialEq, Eq, Structural)]
pub struct DiskSpaceInfo {
    pub block_size: u64,
    pub blocks: u64,
    pub blocks_free: u64,
}

/// The total and the free bytes of a file system; none when it has no
/// bytes at all (its readings are then an error).
pub fn mount_bytes(info: &DiskSpaceInfo) -> (r: Option<(u64, u64)>)
    requires
        info.blocks * info.block_size <= u64::MAX,
        info.blocks_free * info.block_size <= u64::MAX,
    ensures
        info.blocks * info.block_size == 0 ==> r is None,
        info.blocks * info.block_size > 0 ==> r == Some(
            (
                (info.blocks * info.block_size) as u64,
                (info.blocks_free * info.block_size) as u64,
            ),
        ),
{
    let total = info.blocks * info.block_size;
    let free = info.blocks_free * info.block_size;
    if total > 0 {
        Some((total, free))
    } else {
        None
    }
}

/// The text of the key `disk_space/<disk_id>/<suffix>`.
pub open spec fn disk_space_key_text(disk_id: Seq<char>, suffix: Seq<char>) -> Seq<char> {
    "disk_space/"@ + disk_id + "/"@ + suffix
}

fn disk_space_key(disk_id: &str, suffix: &str) -> (r: Result<MetricStringKey, &'static str>)
    ensures
        r is Ok <==> key_chars_valid(disk_space_key_text(disk_id@, suffix@)),
        r matches Ok(k) ==> k@ == without_nul(disk_space_key_text(disk_id@, suffix@)),
{
    let mut text = String::new();
    text.append("disk_space/");
    text.append(disk_id);
    text.append("/");
    text.append(suffix);
    MetricStringKey::from_str(text.as_str())
}

/// The keys of the free and of the used bytes of the device whose file name
/// is `disk_id`: `disk_space/<disk_id>/free_bytes` and `.../used_bytes`.
pub fn disk_space_keys(disk_id: &str) -> (r: Result<(MetricStringKey, MetricStringKey), &'static str>)
    ensures
        r is Ok <==> key_chars_valid(disk_space_key_text(disk_id@, "free_bytes"@)) && key_chars_valid(
            disk_space_key_text(disk_id@, "used_bytes"@),
        ),
        r matches Ok((free, used)) ==> free@ == without_nul(
            disk_space_key_text(disk_id@, "free_bytes"@),
        ) && used@ == without_nul(disk_space_key_text(disk_id@, "used_bytes"@)),
{
    let free = disk_space_key(disk_id, "free_bytes")?;
    let used = disk_space_key(disk_id, "used_bytes")?;
    Ok((free, used))
}

} // verus!
