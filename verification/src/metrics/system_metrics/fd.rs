//! File descriptor usage from `/proc/sys/fs/file-nr`, whose one line holds
//! the allocated, the free (always `0` since Linux 2.6) and the maximum
//! number of file handles, e.g. `7759    0       9223372036854775807`.
//! Only `fs/file_nr/allocated` and `fs/file_nr/max` are emitted, from the
//! first and the third number.
use vstd::prelude::*;

use crate::metrics::metric_string_key::MetricStringKey;
use crate::parse::{parse_u64_at, run_end, skip_run, u64_at, CharClass};
use crate::text::chars_of;

verus! {

pub const FD_METRIC_NAMESPACE: &'static str = "fs/file_nr";

/// The key of the number of allocated file handles.
pub const FD_ALLOCATED_KEY: &'static str = "fs/file_nr/allocated";

/// The key of the maximum number of file handles.
pub const FD_MAX_KEY: &'static str = "fs/file_nr/max";

/// Collects the file descriptor metrics.
pub struct FdMetricCollector;

impl FdMetricCollector {
    pub fn new() -> (r: Self) {
        FdMetricCollector
    }
}

/// The `file-nr` syntax: a number, spaces, `0`, spaces, a number. Gives the
/// first and the last number; what follows the last number is ignored.
pub open spec fn fd_stats(s: Seq<char>) -> Option<(u64, u64)> {
    match u64_at(s, 0) {
        None => None,
        Some((allocated, i1)) => {
            let i2 = run_end(CharClass::Space, s, i1);
            let i4 = run_end(CharClass::Space, s, i2 + 1);
            if i2 > i1 && i2 < s.len() && s[i2] == '0' && i4 > i2 + 1 {
                match u64_at(s, i4) {
                    None => None,
                    Some((max, _)) => Some((allocated, max)),
                }
            } else {
                None
            }
        },
    }
}

/// Reads the allocated and the maximum number of file handles from the
/// contents of `file-nr`; `None` where it does not follow the syntax.
pub fn parse_fd_stats(input: &str) -> (r: Option<(u64, u64)>)
    ensures
        r == fd_stats(input@),
{
    let v = chars_of(input);
    let (allocated, i1) = match parse_u64_at(&v, 0) {
        Some(p) => p,
        None => {
            return None;
        },
    };
    let i2 = skip_run(CharClass::Space, &v, i1);
    if i2 == i1 || i2 == v.len() || v[i2] != '0' {
        return None;
    }
    let i4 = skip_run(CharClass::Space, &v, i2 + 1);
    if i4 == i2 + 1 {
        return None;
    }
    match parse_u64_at(&v, i4) {
        Some((max, _)) => Some((allocated, max)),
        None => None,
    }
}

/// The readings of the collector: the allocated and the maximum number of
/// file handles, under `fs/file_nr/allocated` and `fs/file_nr/max`.
pub fn fd_readings(input: &str) -> (r: Option<Vec<(MetricStringKey, u64)>>)
    ensures
        fd_stats(input@) is None ==> r is None,
        fd_stats(input@) matches Some((a, m)) ==> r matches Some(v) && v@.len() == 2 && v@[0].0@
            == "fs/file_nr/allocated"@ && v@[0].1 == a && v@[1].0@ == "fs/file_nr/max"@ && v@[1].1
            == m,
{
    match parse_fd_stats(input) {
        Some((allocated, max)) => Some(
            vec![
                (MetricStringKey::from(FD_ALLOCATED_KEY), allocated),
                (MetricStringKey::from(FD_MAX_KEY), max),
            ],
        ),
        None => None,
    }
}

} // verus!
