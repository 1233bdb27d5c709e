//! The lines of `/proc/stat` that the CPU metrics read: the aggregate `cpu`
//! line (time spent in each state, in ticks), `ctxt` (context switches) and
//! `processes` (forks), each counted since boot.
use vstd::prelude::*;

use crate::parse::{parse_spaced_u64s, parse_u64_at, spaced_u64s, tag_at, tag_at_exec, u64_at, CharClass};
use crate::metrics::metric_string_key::MetricStringKey;
use crate::text::chars_of;
use crate::util::math::{counter_delta, counter_delta_with_overflow};

verus! {

pub const PROC_STAT_PATH: &'static str = "/proc/stat";

pub const CPU_METRIC_NAMESPACE: &'static str = "cpu";

pub const CTXT_PER_SEC: &'static str = "cpu/context_switches_per_second";

pub const FORK_PER_SEC: &'static str = "cpu/forks_per_second";

/// The `cpu` line: `cpu`, then the ticks spent in the states user, nice,
/// system, idle, iowait, irq and softirq, each after spaces; what follows
/// the seventh number is ignored.
pub open spec fn proc_stat_cpu_line(s: Seq<char>) -> Option<Seq<u64>> {
    if tag_at(s, 0, "cpu"@) {
        spaced_u64s(CharClass::Space, s, 3, 7)
    } else {
        None
    }
}

/// A line `<tag>`, spaces, a number: the number.
pub open spec fn proc_stat_tagged_line(s: Seq<char>, tag: Seq<char>) -> Option<u64> {
    if tag_at(s, 0, tag) {
        match spaced_u64s(CharClass::Space, s, tag.len() as int, 1) {
            Some(v) => Some(v[0]),
            None => None,
        }
    } else {
        None
    }
}

/// Parses the `cpu` line of `/proc/stat` (see `proc_stat_cpu_line`).
pub fn parse_proc_stat_line_cpu(line: &str) -> (r: Option<Vec<u64>>)
    ensures
        r matches Some(v) ==> proc_stat_cpu_line(line@) == Some(v@),
        r is None ==> proc_stat_cpu_line(line@) is None,
{
    let v = chars_of(line);
    if !tag_at_exec(&v, 0, "cpu") {
        return None;
    }
    proof {
        reveal_strlit("cpu");
    }
    parse_spaced_u64s(CharClass::Space, &v, 3, 7)
}

fn parse_tagged_line(line: &str, tag: &str) -> (r: Option<u64>)
    ensures
        r == proc_stat_tagged_line(line@, tag@),
{
    let v = chars_of(line);
    let t = chars_of(tag);
    if !tag_at_exec(&v, 0, tag) {
        return None;
    }
    match parse_spaced_u64s(CharClass::Space, &v, t.len(), 1) {
        Some(x) => Some(x[0]),
        None => None,
    }
}

/// Parses the `ctxt` line of `/proc/stat`: the context switches since boot.
pub fn parse_proc_stat_line_ctxt(line: &str) -> (r: Option<u64>)
    ensures
        r == proc_stat_tagged_line(line@, "ctxt"@),
{
    parse_tagged_line(line, "ctxt")
}

/// Parses the `processes` line of `/proc/stat`: the forks since boot.
pub fn parse_proc_stat_line_processes(line: &str) -> (r: Option<u64>)
    ensures
        r == proc_stat_tagged_line(line@, "processes"@),
{
    parse_tagged_line(line, "processes")
}

/// The key of the share of time spent in the `k`-th CPU state.
pub open spec fn cpu_state_key(k: int) -> Seq<char> {
    if k == 0 {
        "cpu/cpu/percent/user"@
    } else if k == 1 {
        "cpu/cpu/percent/nice"@
    } else if k == 2 {
        "cpu/cpu/percent/system"@
    } else if k == 3 {
        "cpu/cpu/percent/idle"@
    } else if k == 4 {
        "cpu/cpu/percent/iowait"@
    } else if k == 5 {
        "cpu/cpu/percent/irq"@
    } else {
        "cpu/cpu/percent/softirq"@
    }
}

fn cpu_state_key_exec(k: usize) -> (r: MetricStringKey)
    requires
        k < 7,
    ensures
        r@ == cpu_state_key(k as int),
{
    match k {
        0 => MetricStringKey::from("cpu/cpu/percent/user"),
        1 => MetricStringKey::from("cpu/cpu/percent/nice"),
        2 => MetricStringKey::from("cpu/cpu/percent/system"),
        3 => MetricStringKey::from("cpu/cpu/percent/idle"),
        4 => MetricStringKey::from("cpu/cpu/percent/iowait"),
        5 => MetricStringKey::from("cpu/cpu/percent/irq"),
        _ => MetricStringKey::from("cpu/cpu/percent/softirq"),
    }
}

pub open spec fn shortest(a: nat, b: nat) -> nat {
    if a < b {
        a
    } else {
        b
    }
}

/// The ticks spent in each CPU state between two readings of the `cpu`
/// line, under the key of the state, for the states that both readings
/// hold (at most seven). The caller turns them into shares of their sum.
pub fn cpu_state_deltas(previous: &Vec<u64>, current: &Vec<u64>) -> (r: Vec<(MetricStringKey, u64)>)
    ensures
        r@.len() == shortest(shortest(current@.len(), previous@.len()), 7),
        forall|k: int|
            0 <= k < r@.len() ==> (#[trigger] r@[k]).0@ == cpu_state_key(k) && r@[k].1
                == counter_delta(current@[k], previous@[k]),
{
    let mut n = if current.len() < previous.len() {
        current.len()
    } else {
        previous.len()
    };
    if n > 7 {
        n = 7;
    }
    let mut r: Vec<(MetricStringKey, u64)> = Vec::new();
    let mut k: usize = 0;
    while k < n
        invariant
            0 <= k <= n <= 7,
            n <= current@.len(),
            n <= previous@.len(),
            r@.len() == k,
            forall|j: int|
                0 <= j < k ==> (#[trigger] r@[j]).0@ == cpu_state_key(j) && r@[j].1
                    == counter_delta(current@[j], previous@[j]),
        decreases n - k,
    {
        r.push((cpu_state_key_exec(k), counter_delta_with_overflow(current[k], previous[k])));
        k = k + 1;
    }
    r
}

/// Remembers the previous readings of `/proc/stat`, each counter with the
/// time it was read at.
pub struct CpuMetricCollector<T> {
    last_cpu_reading: Option<Vec<u64>>,
    last_ctxt_reading: Option<(u64, T)>,
    last_processes_reading: Option<(u64, T)>,
}

impl<T> CpuMetricCollector<T> {
    pub closed spec fn spec_last_cpu(&self) -> Option<Seq<u64>> {
        match self.last_cpu_reading {
            Some(v) => Some(v@),
            None => None,
        }
    }

    pub closed spec fn spec_last_ctxt(&self) -> Option<(u64, T)> {
        self.last_ctxt_reading
    }

    pub closed spec fn spec_last_processes(&self) -> Option<(u64, T)> {
        self.last_processes_reading
    }

    /// A collector that has seen no reading yet.
    pub fn new() -> (r: Self)
        ensures
            r.spec_last_cpu() is None,
            r.spec_last_ctxt() is None,
            r.spec_last_processes() is None,
    {
        CpuMetricCollector { last_cpu_reading: None, last_ctxt_reading: None, last_processes_reading: None }
    }

    /// Keeps `stats` as the last `cpu` line and gives back the previous one.
    pub fn replace_cpu_reading(&mut self, stats: Vec<u64>) -> (r: Option<Vec<u64>>)
        ensures
            match r {
                Some(v) => old(self).spec_last_cpu() == Some(v@),
                None => old(self).spec_last_cpu() is None,
            },
            final(self).spec_last_cpu() == Some(stats@),
            final(self).spec_last_ctxt() == old(self).spec_last_ctxt(),
            final(self).spec_last_processes() == old(self).spec_last_processes(),
    {
        let mut current = Some(stats);
        std::mem::swap(&mut current, &mut self.last_cpu_reading);
        current
    }

    /// Keeps the context switch counter read at `at` and gives back the
    /// previous one.
    pub fn replace_ctxt_reading(&mut self, counter: u64, at: T) -> (r: Option<(u64, T)>)
        ensures
            r == old(self).spec_last_ctxt(),
            final(self).spec_last_ctxt() == Some((counter, at)),
            final(self).spec_last_cpu() == old(self).spec_last_cpu(),
            final(self).spec_last_processes() == old(self).spec_last_processes(),
    {
        let mut current = Some((counter, at));
        std::mem::swap(&mut current, &mut self.last_ctxt_reading);
        current
    }

    /// Keeps the fork counter read at `at` and gives back the previous one.
    pub fn replace_processes_reading(&mut self, counter: u64, at: T) -> (r: Option<(u64, T)>)
        ensures
            r == old(self).spec_last_processes(),
            final(self).spec_last_processes() == Some((counter, at)),
            final(self).spec_last_cpu() == old(self).spec_last_cpu(),
            final(self).spec_last_ctxt() == old(self).spec_last_ctxt(),
    {
        let mut current = Some((counter, at));
        std::mem::swap(&mut current, &mut self.last_processes_reading);
        current
    }
}

} // verus!
