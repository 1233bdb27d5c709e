//! Which MAR entries are uploaded, and how they are grouped into MAR files.
//!
//! Device config and reboots are always uploaded. Other entries are uploaded
//! according to the sampling resolution of their kind:
//!
//! | MAR type        | Off | Low | Normal | High |
//! |-----------------|-----|-----|--------|------|
//! | heartbeat       |     |     | x      | x    |
//! | daily-heartbeat |     | x   | x      | x    |
//! | session         |     |     | x      | x    |
//! | attributes      |     |     | x      | x    |
//! | coredump        |     |     | x      | x    |
//! | logs            |     |     | x      | x    |
//! | CDR             |     |     | x      | x    |
use vstd::prelude::*;

use crate::config::{Resolution, Sampling};
use crate::mar::manifest::MetadataKind;
use crate::metrics::metric_report::MetricReportType;

verus! {

pub open spec fn at_least(r: Resolution, min: Resolution) -> bool {
    r.spec_level() >= min.spec_level()
}

/// The upload decision for an entry of the given kind.
pub open spec fn spec_should_upload(kind: MetadataKind, sampling: Sampling) -> bool {
    match kind {
        MetadataKind::DeviceAttributes => at_least(sampling.monitoring_resolution, Resolution::Normal),
        MetadataKind::DeviceConfig => true,
        MetadataKind::ElfCoredump => at_least(sampling.debugging_resolution, Resolution::Normal),
        MetadataKind::LinuxHeartbeat => at_least(sampling.monitoring_resolution, Resolution::Normal),
        MetadataKind::LinuxMetricReport { report_type } => match report_type {
            MetricReportType::Heartbeat => at_least(
                sampling.monitoring_resolution,
                Resolution::Normal,
            ),
            MetricReportType::Session(_) => at_least(
                sampling.monitoring_resolution,
                Resolution::Normal,
            ),
            MetricReportType::DailyHeartbeat => at_least(
                sampling.monitoring_resolution,
                Resolution::Low,
            ),
        },
        MetadataKind::LinuxLogs => at_least(sampling.logging_resolution, Resolution::Normal),
        MetadataKind::LinuxReboot => true,
        MetadataKind::LinuxMemfaultWatch { exit_code } => if exit_code != 0 {
            at_least(sampling.debugging_resolution, Resolution::Normal) || at_least(
                sampling.logging_resolution,
                Resolution::Normal,
            )
        } else {
            at_least(sampling.logging_resolution, Resolution::Normal)
        },
        MetadataKind::CustomDataRecording => at_least(
            sampling.debugging_resolution,
            Resolution::Normal,
        ),
        MetadataKind::LinuxCustomTrace => at_least(sampling.debugging_resolution, Resolution::Normal),
        MetadataKind::Stacktrace => at_least(sampling.debugging_resolution, Resolution::Normal),
    }
}

/// Given the sampling configuration, should an entry of this kind be
/// uploaded?
pub fn should_upload(kind: &MetadataKind, sampling: &Sampling) -> (r: bool)
    ensures
        r == spec_should_upload(*kind, *sampling),
{
    match kind {
        MetadataKind::DeviceAttributes => sampling.monitoring_resolution.at_least(Resolution::Normal),
        MetadataKind::DeviceConfig => true,
        MetadataKind::ElfCoredump => sampling.debugging_resolution.at_least(Resolution::Normal),
        MetadataKind::LinuxHeartbeat => sampling.monitoring_resolution.at_least(Resolution::Normal),
        MetadataKind::LinuxMetricReport { report_type } => match report_type {
            MetricReportType::Heartbeat => sampling.monitoring_resolution.at_least(
                Resolution::Normal,
            ),
            MetricReportType::Session(_) => sampling.monitoring_resolution.at_least(
                Resolution::Normal,
            ),
            MetricReportType::DailyHeartbeat => sampling.monitoring_resolution.at_least(
                Resolution::Low,
            ),
        },
        MetadataKind::LinuxLogs => sampling.logging_resolution.at_least(Resolution::Normal),
        MetadataKind::LinuxReboot => true,
        MetadataKind::LinuxMemfaultWatch { exit_code } => {
            let is_crash = *exit_code != 0;
            if is_crash {
                sampling.debugging_resolution.at_least(Resolution::Normal)
                    || sampling.logging_resolution.at_least(Resolution::Normal)
            } else {
                sampling.logging_resolution.at_least(Resolution::Normal)
            }
        },
        MetadataKind::CustomDataRecording => sampling.debugging_resolution.at_least(
            Resolution::Normal,
        ),
        MetadataKind::LinuxCustomTrace => sampling.debugging_resolution.at_least(
            Resolution::Normal,
        ),
        MetadataKind::Stacktrace => sampling.debugging_resolution.at_least(Resolution::Normal),
    }
}

/// Device configurations and reboots are uploaded whatever the sampling.
pub proof fn law_config_and_reboots_always_uploaded(sampling: Sampling)
    ensures
        spec_should_upload(MetadataKind::DeviceConfig, sampling),
        spec_should_upload(MetadataKind::LinuxReboot, sampling),
{
}

/// Raising the resolutions never stops an upload: an entry uploaded under
/// one sampling is uploaded under any sampling whose resolutions are all at
/// least as high.
pub proof fn law_higher_resolution_uploads_more(kind: MetadataKind, lower: Sampling, higher: Sampling)
    requires
        at_least(higher.debugging_resolution, lower.debugging_resolution),
        at_least(higher.logging_resolution, lower.logging_resolution),
        at_least(higher.monitoring_resolution, lower.monitoring_resolution),
        spec_should_upload(kind, lower),
    ensures
        spec_should_upload(kind, higher),
{
}

/// The upload table, stated by kind over the resolutions themselves: a
/// coredump, a custom trace, a stack trace or a custom data recording is
/// uploaded exactly when the debugging resolution is `Normal` or `High`,
/// whatever the logging and monitoring resolutions; logs exactly when the
/// logging resolution is; device attributes, heartbeats and session reports
/// exactly when the monitoring resolution is; daily heartbeats exactly when
/// the monitoring resolution is not `Off`; a crashed process watch when the
/// debugging or the logging resolution is `Normal` or `High`, a clean one
/// when the logging resolution is.
pub proof fn law_upload_table(kind: MetadataKind, sampling: Sampling)
    ensures
        ({
            let debugging = sampling.debugging_resolution is Normal
                || sampling.debugging_resolution is High;
            let logging = sampling.logging_resolution is Normal || sampling.logging_resolution is High;
            let monitoring = sampling.monitoring_resolution is Normal
                || sampling.monitoring_resolution is High;
            let up = spec_should_upload(kind, sampling);
            &&& kind is ElfCoredump ==> (up <==> debugging)
            &&& kind is LinuxCustomTrace ==> (up <==> debugging)
            &&& kind is Stacktrace ==> (up <==> debugging)
            &&& kind is CustomDataRecording ==> (up <==> debugging)
            &&& kind is LinuxLogs ==> (up <==> logging)
            &&& kind is DeviceAttributes ==> (up <==> monitoring)
            &&& kind is LinuxHeartbeat ==> (up <==> monitoring)
            &&& kind matches MetadataKind::LinuxMetricReport { report_type } ==> (up <==> if report_type
                is DailyHeartbeat {
                !(sampling.monitoring_resolution is Off)
            } else {
                monitoring
            })
            &&& kind matches MetadataKind::LinuxMemfaultWatch { exit_code } ==> (up <==> if exit_code
                == 0 {
                logging
            } else {
                debugging || logging
            })
        }),
{
}

/// The contents of one MAR file to upload: the entry directories it holds
/// (deleted once it is uploaded) and the files to zip.
pub struct MarZipContents<Z> {
    pub entry_paths: Vec<String>,
    pub zip_infos: Vec<Z>,
}

/// The MAR file index of each entry, entries taken in order: an entry goes to
/// the current file unless it would take that file over `max_zip_size`, in
/// which case it starts the next file (`empty` is the size of an empty zip).
pub open spec fn zip_file_indices(sizes: Seq<usize>, zip_size: nat, index: nat, empty: nat, max: nat) -> Seq<nat>
    decreases sizes.len(),
{
    if sizes.len() == 0 {
        Seq::empty()
    } else {
        let s = sizes[0] as nat;
        if zip_size + s > max {
            seq![index + 1].add(zip_file_indices(sizes.drop_first(), empty + s, index + 1, empty, max))
        } else {
            seq![index].add(zip_file_indices(sizes.drop_first(), zip_size + s, index, empty, max))
        }
    }
}

pub open spec fn sum_sizes(sizes: Seq<usize>) -> nat
    decreases sizes.len(),
{
    if sizes.len() == 0 {
        0
    } else {
        sizes[0] as nat + sum_sizes(sizes.drop_first())
    }
}

/// The index of the MAR file each entry goes to, given the zipped size of
/// each entry, the size of an empty zip and the largest MAR file size.
/// Entries with equal indices are consecutive; indices never decrease.
pub fn zip_file_index_of_entries(entry_zipped_sizes: &Vec<usize>, empty_zip_len: usize, max_zip_size: usize) -> (r: Vec<usize>)
    requires
        empty_zip_len + sum_sizes(entry_zipped_sizes@) <= usize::MAX,
    ensures
        r@.map_values(|i: usize| i as nat) == zip_file_indices(
            entry_zipped_sizes@,
            empty_zip_len as nat,
            0,
            empty_zip_len as nat,
            max_zip_size as nat,
        ),
{
    let ghost sizes = entry_zipped_sizes@;
    let mut zip_size = empty_zip_len;
    let mut zip_file_index: usize = 0;
    let mut r: Vec<usize> = Vec::new();
    let mut i: usize = 0;
    assert(sizes.skip(0) =~= sizes);
    while i < entry_zipped_sizes.len()
        invariant
            0 <= i <= sizes.len(),
            sizes == entry_zipped_sizes@,
            zip_file_index <= i,
            empty_zip_len <= zip_size,
            zip_size + sum_sizes(sizes.skip(i as int)) <= empty_zip_len + sum_sizes(sizes),
            empty_zip_len + sum_sizes(sizes) <= usize::MAX,
            r@.map_values(|k: usize| k as nat) + zip_file_indices(
                sizes.skip(i as int),
                zip_size as nat,
                zip_file_index as nat,
                empty_zip_len as nat,
                max_zip_size as nat,
            ) == zip_file_indices(
                sizes,
                empty_zip_len as nat,
                0,
                empty_zip_len as nat,
                max_zip_size as nat,
            ),
        decreases sizes.len() - i,
    {
        let s = entry_zipped_sizes[i];
        let ghost rest = sizes.skip(i as int);
        proof {
            assert(rest[0] == s);
            assert(rest.drop_first() =~= sizes.skip(i + 1));
            lemma_sum_suffix_le(sizes, i as int);
        }
        let ghost before = r@.map_values(|k: usize| k as nat);
        if zip_size + s > max_zip_size {
            zip_size = empty_zip_len + s;
            zip_file_index = zip_file_index + 1;
        } else {
            zip_size = zip_size + s;
        }
        r.push(zip_file_index);
        proof {
            assert(r@.map_values(|k: usize| k as nat) =~= before.push(zip_file_index as nat));
            assert forall|a: Seq<nat>, b: nat, c: Seq<nat>| #![auto] a.push(b) + c =~= a + (seq![b] + c) by {}
        }
        i = i + 1;
    }
    assert(sizes.skip(i as int).len() == 0);
    assert(r@.map_values(|k: usize| k as nat) + Seq::<nat>::empty() =~= r@.map_values(|k: usize| k as nat));
    r
}

proof fn lemma_sum_suffix_le(sizes: Seq<usize>, i: int)
    requires
        0 <= i < sizes.len(),
    ensures
        sum_sizes(sizes.skip(i)) == sizes[i] as nat + sum_sizes(sizes.skip(i + 1)),
        sum_sizes(sizes.skip(i)) <= sum_sizes(sizes),
    decreases i,
{
    assert(sizes.skip(i).drop_first() =~= sizes.skip(i + 1));
    if i > 0 {
        lemma_sum_suffix_le(sizes.drop_first(), i - 1);
        assert(sizes.drop_first().skip(i - 1) =~= sizes.skip(i));
        assert(sizes.drop_first().skip(i) =~= sizes.skip(i + 1));
    } else {
        assert(sizes.skip(0) =~= sizes);
    }
}

/// The MAR file indices never decrease, and grow by at most one from one
/// entry to the next (from `index` for the first entry): the entries of one
/// MAR file are consecutive, and no index is skipped.
pub proof fn law_zip_indices_consecutive(sizes: Seq<usize>, zip_size: nat, index: nat, empty: nat, max: nat)
    ensures
        ({
            let r = zip_file_indices(sizes, zip_size, index, empty, max);
            &&& r.len() == sizes.len()
            &&& r.len() > 0 ==> (r[0] == index || r[0] == index + 1)
            &&& forall|k: int| 1 <= k < r.len() ==> (#[trigger] r[k] == r[k - 1] || r[k] == r[k - 1] + 1)
        }),
    decreases sizes.len(),
{
    if sizes.len() > 0 {
        let s = sizes[0] as nat;
        let (zs, idx) = if zip_size + s > max {
            (empty + s, index + 1)
        } else {
            (zip_size + s, index)
        };
        law_zip_indices_consecutive(sizes.drop_first(), zs, idx, empty, max);
        let rest = zip_file_indices(sizes.drop_first(), zs, idx, empty, max);
        let r = zip_file_indices(sizes, zip_size, index, empty, max);
        assert(r == seq![idx].add(rest));
        assert forall|k: int| 1 <= k < r.len() implies (#[trigger] r[k] == r[k - 1] || r[k] == r[k - 1] + 1) by {
            if k > 1 {
                assert(r[k] == rest[k - 1] && r[k - 1] == rest[k - 2]);
            } else {
                assert(rest.len() > 0);
                assert(r[0] == idx);
                assert(r[1] == rest[0]);
            }
        }
    }
}

/// The MAR files' contents, entry by entry: an entry whose key equals that of
/// the entry before it joins that entry's file (its path appended to the
/// file's paths, its files to the file's files); any other entry starts a
/// new file.
pub open spec fn zip_groups<Z>(paths: Seq<Seq<char>>, infos: Seq<Seq<Z>>, keys: Seq<nat>) -> Seq<
    (Seq<Seq<char>>, Seq<Z>),
>
    decreases paths.len(),
{
    if paths.len() == 0 {
        Seq::empty()
    } else {
        let n = paths.len();
        let prev = zip_groups(paths.drop_last(), infos.drop_last(), keys.drop_last());
        if n > 1 && keys[n - 1] == keys[n - 2] {
            prev.update(
                prev.len() - 1,
                (prev.last().0.push(paths[n - 1]), prev.last().1 + infos[n - 1]),
            )
        } else {
            prev.push((seq![paths[n - 1]], infos[n - 1]))
        }
    }
}

pub open spec fn entry_path_views<Z>(entries: Seq<(String, Vec<Z>, usize)>) -> Seq<Seq<char>> {
    entries.map_values(|e: (String, Vec<Z>, usize)| e.0@)
}

pub open spec fn entry_info_views<Z>(entries: Seq<(String, Vec<Z>, usize)>) -> Seq<Seq<Z>> {
    entries.map_values(|e: (String, Vec<Z>, usize)| e.1@)
}

pub open spec fn entry_sizes<Z>(entries: Seq<(String, Vec<Z>, usize)>) -> Seq<usize> {
    entries.map_values(|e: (String, Vec<Z>, usize)| e.2)
}

impl<Z> MarZipContents<Z> {
    pub open spec fn spec_group(&self) -> (Seq<Seq<char>>, Seq<Z>) {
        (self.entry_paths@.map_values(|p: String| p@), self.zip_infos@)
    }
}

proof fn lemma_zip_groups_nonempty<Z>(paths: Seq<Seq<char>>, infos: Seq<Seq<Z>>, keys: Seq<nat>)
    requires
        paths.len() > 0,
    ensures
        zip_groups(paths, infos, keys).len() > 0,
    decreases paths.len(),
{
    if paths.len() > 1 {
        lemma_zip_groups_nonempty(paths.drop_last(), infos.drop_last(), keys.drop_last());
    }
}

/// Groups the readable MAR entries into MAR files: each entry is its
/// directory, the files to zip for it and its zipped size. The entries keep
/// their order; an entry goes to the current file unless it would take that
/// file over `max_zip_size` (an entry larger than that gets a file of its
/// own).
pub fn gather_mar_entries_to_zip<Z>(entries: Vec<(String, Vec<Z>, usize)>, empty_zip_len: usize, max_zip_size: usize) -> (r: Vec<MarZipContents<Z>>)
    requires
        empty_zip_len + sum_sizes(entry_sizes(entries@)) <= usize::MAX,
    ensures
        r@.map_values(|c: MarZipContents<Z>| c.spec_group()) == zip_groups(
            entry_path_views(entries@),
            entry_info_views(entries@),
            zip_file_indices(
                entry_sizes(entries@),
                empty_zip_len as nat,
                0,
                empty_zip_len as nat,
                max_zip_size as nat,
            ),
        ),
{
    let ghost all = entries@;
    let mut sizes: Vec<usize> = Vec::new();
    let mut i: usize = 0;
    while i < entries.len()
        invariant
            0 <= i <= entries@.len(),
            all == entries@,
            sizes@ == entry_sizes(all).take(i as int),
        decreases entries@.len() - i,
    {
        sizes.push(entries[i].2);
        assert(entry_sizes(all).take(i + 1) =~= entry_sizes(all).take(i as int).push(all[i as int].2));
        i = i + 1;
    }
    assert(sizes@ =~= entry_sizes(all));
    let indices = zip_file_index_of_entries(&sizes, empty_zip_len, max_zip_size);
    proof {
        law_zip_indices_consecutive(sizes@, empty_zip_len as nat, 0, empty_zip_len as nat, max_zip_size as nat);
    }
    let ghost keys = indices@.map_values(|k: usize| k as nat);
    let ghost paths = entry_path_views(all);
    let ghost infos = entry_info_views(all);
    let n_entries = indices.len();
    let mut groups: Vec<MarZipContents<Z>> = Vec::new();
    let mut j: usize = 0;
    for entry in it: entries.into_iter()
        invariant
            it.seq() == all,
            j == it.index(),
            indices@.len() == all.len(),
            n_entries == all.len(),
            keys == indices@.map_values(|k: usize| k as nat),
            paths == entry_path_views(all),
            infos == entry_info_views(all),
            groups@.map_values(|c: MarZipContents<Z>| c.spec_group()) == zip_groups(
                paths.take(j as int),
                infos.take(j as int),
                keys.take(j as int),
            ),
    {
        assert(j < n_entries && entry == all[j as int]);
        let (path, mut files, _size) = entry;
        let ghost before = groups@.map_values(|c: MarZipContents<Z>| c.spec_group());
        let ghost n = j + 1;
        proof {
            assert(paths.take(n).drop_last() =~= paths.take(j as int));
            assert(infos.take(n).drop_last() =~= infos.take(j as int));
            assert(keys.take(n).drop_last() =~= keys.take(j as int));
            assert(paths.take(n)[j as int] == path@);
            assert(infos.take(n)[j as int] == files@);
        }
        let same_file = j > 0 && indices[j] == indices[j - 1];
        if same_file {
            proof {
                lemma_zip_groups_nonempty(paths.take(j as int), infos.take(j as int), keys.take(j as int));
            }
            let mut last = groups.pop().unwrap();
            last.entry_paths.push(path);
            last.zip_infos.append(&mut files);
            groups.push(last);
            proof {
                assert(last.entry_paths@.map_values(|p: String| p@) =~= before.last().0.push(paths[j as int]));
                assert(groups@.map_values(|c: MarZipContents<Z>| c.spec_group()) =~= before.update(
                    before.len() - 1,
                    (before.last().0.push(paths[j as int]), before.last().1 + infos[j as int]),
                ));
            }
        } else {
            let mut entry_paths: Vec<String> = Vec::new();
            entry_paths.push(path);
            groups.push(MarZipContents { entry_paths, zip_infos: files });
            proof {
                assert(entry_paths@.map_values(|p: String| p@) =~= seq![paths[j as int]]);
                assert(groups@.map_values(|c: MarZipContents<Z>| c.spec_group()) =~= before.push(
                    (seq![paths[j as int]], infos[j as int]),
                ));
            }
        }
        j = j + 1;
    }
    assert(paths.take(all.len() as int) =~= paths);
    assert(infos.take(all.len() as int) =~= infos);
    assert(keys.take(all.len() as int) =~= keys);
    groups
}

/// No entry is lost or reordered by the grouping: the entry directories of
/// the MAR files, file after file, are the entries' directories in order, and
/// so are their files to zip.
pub proof fn law_zip_groups_keep_entries<Z>(paths: Seq<Seq<char>>, infos: Seq<Seq<Z>>, keys: Seq<nat>)
    requires
        paths.len() == infos.len(),
    ensures
        zip_groups(paths, infos, keys).map_values(|g: (Seq<Seq<char>>, Seq<Z>)| g.0).flatten() == paths,
        zip_groups(paths, infos, keys).map_values(|g: (Seq<Seq<char>>, Seq<Z>)| g.1).flatten()
            == infos.flatten(),
    decreases paths.len(),
{
    broadcast use Seq::lemma_flatten_push;

    if paths.len() == 0 {
        assert(infos =~= Seq::<Seq<Z>>::empty());
    } else {
        let n = paths.len();
        let p0 = paths.drop_last();
        let i0 = infos.drop_last();
        let k0 = keys.drop_last();
        law_zip_groups_keep_entries(p0, i0, k0);
        let prev = zip_groups(p0, i0, k0);
        let m = prev.map_values(|g: (Seq<Seq<char>>, Seq<Z>)| g.0);
        let f = prev.map_values(|g: (Seq<Seq<char>>, Seq<Z>)| g.1);
        let r = zip_groups(paths, infos, keys);
        assert(i0.push(infos.last()) =~= infos);
        assert(p0.push(paths.last()) =~= paths);
        if n > 1 && keys[n - 1] == keys[n - 2] {
            lemma_zip_groups_nonempty(p0, i0, k0);
            let last = prev.last();
            assert(r.map_values(|g: (Seq<Seq<char>>, Seq<Z>)| g.0) =~= m.drop_last().push(
                last.0.push(paths[n - 1]),
            ));
            assert(m.drop_last().push(m.last()) =~= m);
            assert(r.map_values(|g: (Seq<Seq<char>>, Seq<Z>)| g.1) =~= f.drop_last().push(
                last.1 + infos[n - 1],
            ));
            assert(f.drop_last().push(f.last()) =~= f);
            assert(m.drop_last().flatten() + last.0.push(paths[n - 1]) =~= (m.drop_last().flatten()
                + last.0).push(paths[n - 1]));
            assert(f.drop_last().flatten() + (last.1 + infos[n - 1]) =~= (f.drop_last().flatten()
                + last.1) + infos[n - 1]);
        } else {
            assert(r.map_values(|g: (Seq<Seq<char>>, Seq<Z>)| g.0) =~= m.push(seq![paths[n - 1]]));
            assert(r.map_values(|g: (Seq<Seq<char>>, Seq<Z>)| g.1) =~= f.push(infos[n - 1]));
            assert(m.flatten() + seq![paths[n - 1]] =~= p0.push(paths[n - 1]));
        }
    }
}

/// The size of the current MAR file after each entry is added (see
/// `zip_file_indices`).
pub open spec fn zip_running_sizes(sizes: Seq<usize>, zip_size: nat, empty: nat, max: nat) -> Seq<nat>
    decreases sizes.len(),
{
    if sizes.len() == 0 {
        Seq::empty()
    } else {
        let s = sizes[0] as nat;
        if zip_size + s > max {
            seq![empty + s].add(zip_running_sizes(sizes.drop_first(), empty + s, empty, max))
        } else {
            seq![zip_size + s].add(zip_running_sizes(sizes.drop_first(), zip_size + s, empty, max))
        }
    }
}

/// A MAR file goes over `max_zip_size` only when it holds a single entry:
/// after each entry the current file is within the limit, or that entry
/// just opened it (the file is an empty zip and that entry) and the next
/// entry opens another one.
pub proof fn law_zip_files_within_limit(sizes: Seq<usize>, zip_size: nat, index: nat, empty: nat, max: nat)
    ensures
        ({
            let r = zip_file_indices(sizes, zip_size, index, empty, max);
            let z = zip_running_sizes(sizes, zip_size, empty, max);
            &&& z.len() == sizes.len()
            &&& forall|k: int|
                0 <= k < z.len() && #[trigger] z[k] > max ==> z[k] == empty + sizes[k] && (if k == 0 {
                    r[0] == index + 1
                } else {
                    r[k] == r[k - 1] + 1
                })
            &&& forall|k: int| 0 <= k < z.len() - 1 && #[trigger] z[k] > max ==> r[k + 1] == r[k] + 1
        }),
    decreases sizes.len(),
{
    if sizes.len() > 0 {
        let s = sizes[0] as nat;
        let (zs, idx) = if zip_size + s > max {
            (empty + s, index + 1)
        } else {
            (zip_size + s, index)
        };
        let rest_s = sizes.drop_first();
        law_zip_files_within_limit(rest_s, zs, idx, empty, max);
        law_zip_indices_consecutive(rest_s, zs, idx, empty, max);
        let r = zip_file_indices(sizes, zip_size, index, empty, max);
        let z = zip_running_sizes(sizes, zip_size, empty, max);
        let rr = zip_file_indices(rest_s, zs, idx, empty, max);
        let rz = zip_running_sizes(rest_s, zs, empty, max);
        assert(r == seq![idx].add(rr));
        assert(z == seq![zs].add(rz));
        assert forall|k: int|
            0 <= k < z.len() && #[trigger] z[k] > max implies z[k] == empty + sizes[k] && (if k == 0 {
                r[0] == index + 1
            } else {
                r[k] == r[k - 1] + 1
            }) by {
            if k > 0 {
                assert(z[k] == rz[k - 1]);
                assert(sizes[k] == rest_s[k - 1]);
                if k == 1 {
                    assert(rz[0] > max);
                    assert(r[1] == rr[0] && r[0] == idx);
                } else {
                    assert(rz[k - 1] > max);
                    assert(r[k] == rr[k - 1] && r[k - 1] == rr[k - 2]);
                }
            }
        }
        assert forall|k: int| 0 <= k < z.len() - 1 && #[trigger] z[k] > max implies r[k + 1] == r[k]
            + 1 by {
            if k == 0 {
                assert(rz.len() > 0);
                let s1 = rest_s[0] as nat;
                assert(zs + s1 > max);
                assert(rr[0] == idx + 1);
                assert(r[1] == rr[0]);
            } else {
                assert(z[k] == rz[k - 1]);
                assert(rz[k - 1] > max);
                assert(r[k + 1] == rr[k] && r[k] == rr[k - 1]);
            }
        }
    }
}

} // verus!
