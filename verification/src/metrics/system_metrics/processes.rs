//! Per-process metrics: which processes are followed, the head of their
//! `/proc/<pid>/stat` line, the keys of their readings, and the last reading
//! of each process.
//!
//! Example `/proc/<pid>/stat` line:
//!
//!   55270 (memfaultd) S 1 55270 55270 0 -1 4194368 825 0 0 0 155 102 ...
use std::collections::HashMap;
use vstd::prelude::*;

use crate::metrics::metric_string_key::{key_chars_valid, without_nul, MetricStringKey};
use crate::parse::{
    char_is_numeric, parse_spaced_floats, parse_u64_at, run_end, skip_run, spaced_floats, u64_at,
    unicode_numeric, CharClass,
};
use crate::text::{chars_of, contains_str, str_eq, string_from_range, string_views};

verus! {

pub const MEMFAULTD_PROCESS_NAME: &'static str = "memfaultd";

/// The processes to follow: `memfaultd` alone, or the named ones.
pub enum ProcessMetricsConfig {
    Auto,
    /// The names of the processes; a name that occurs twice counts once.
    Processes(Vec<String>),
}

/// Whether the process called `name` is followed under `config`.
pub open spec fn spec_process_is_monitored(config: ProcessMetricsConfig, name: Seq<char>) -> bool {
    match config {
        ProcessMetricsConfig::Auto => name == MEMFAULTD_PROCESS_NAME@,
        ProcessMetricsConfig::Processes(ps) => string_views(ps@).contains(name),
    }
}

/// Whether the process called `process_name` is followed under `config`.
pub fn process_is_monitored(config: &ProcessMetricsConfig, process_name: &str) -> (r: bool)
    ensures
        r == spec_process_is_monitored(*config, process_name@),
{
    match config {
        ProcessMetricsConfig::Auto => str_eq(process_name, MEMFAULTD_PROCESS_NAME),
        ProcessMetricsConfig::Processes(ps) => contains_str(ps, process_name),
    }
}

/// The position of the first `c` at or after `i`, if there is one.
pub open spec fn find_from(s: Seq<char>, c: char, i: int) -> Option<int>
    decreases s.len() - i,
{
    if i < 0 || i >= s.len() {
        None
    } else if s[i] == c {
        Some(i)
    } else {
        find_from(s, c, i + 1)
    }
}

fn find_char_from(v: &Vec<char>, c: char, from: usize) -> (r: Option<usize>)
    requires
        from <= v.len(),
    ensures
        r matches Some(k) ==> find_from(v@, c, from as int) == Some(k as int) && from <= k < v.len(),
        r is None ==> find_from(v@, c, from as int) is None,
{
    let mut i = from;
    while i < v.len()
        invariant
            from <= i <= v.len(),
            find_from(v@, c, from as int) == find_from(v@, c, i as int),
        decreases v.len() - i,
    {
        if v[i] == c {
            return Some(i);
        }
        i = i + 1;
    }
    None
}

/// The pid at the start of a `/proc/<pid>/stat` line, then at least one
/// space, then the command name between `(` and the next `)` (at least one
/// character): the pid and the position just after the `)`.
pub open spec fn pid_and_comm(s: Seq<char>) -> Option<(u64, int)> {
    match u64_at(s, 0) {
        None => None,
        Some((pid, e)) => {
            let j = run_end(CharClass::Space, s, e);
            if j == e || j >= s.len() || s[j] != '(' {
                None
            } else {
                match find_from(s, ')', j + 1) {
                    Some(k) => if k > j + 1 {
                        Some((pid, k + 1))
                    } else {
                        None
                    },
                    None => None,
                }
            }
        },
    }
}

/// Reads the pid and skips the command name of a `/proc/<pid>/stat` line
/// (see `pid_and_comm`; the position counts characters).
pub fn parse_pid_and_comm(line: &str) -> (r: Option<(u64, usize)>)
    ensures
        r matches Some((pid, e)) ==> pid_and_comm(line@) == Some((pid, e as int)),
        r is None ==> pid_and_comm(line@) is None,
{
    let v = chars_of(line);
    let (pid, e) = match parse_u64_at(&v, 0) {
        None => {
            return None;
        },
        Some(x) => x,
    };
    let j = skip_run(CharClass::Space, &v, e);
    if j == e || j >= v.len() || v[j] != '(' {
        return None;
    }
    match find_char_from(&v, ')', j + 1) {
        Some(k) => if k > j + 1 {
            Some((pid, k + 1))
        } else {
            None
        },
        None => None,
    }
}

/// At least one space, then the letters of the process state, from `i`:
/// where the state ends.
pub open spec fn state_end(s: Seq<char>, i: int) -> Option<int> {
    let a = run_end(CharClass::Space, s, i);
    let b = run_end(CharClass::Alpha, s, a);
    if a == i || b == a {
        None
    } else {
        Some(b)
    }
}

/// Reads the state that follows the command name (see `state_end`).
pub fn parse_state(line: &str, from: usize) -> (r: Option<usize>)
    requires
        from <= line@.len(),
    ensures
        r matches Some(e) ==> state_end(line@, from as int) == Some(e as int),
        r is None ==> state_end(line@, from as int) is None,
{
    let v = chars_of(line);
    let a = skip_run(CharClass::Space, &v, from);
    let b = skip_run(CharClass::Alpha, &v, a);
    if a == from || b == a {
        None
    } else {
        Some(b)
    }
}

/// Whether a directory of `/proc` is that of a process: its name is made of
/// numeric characters (`char::is_numeric`).
pub open spec fn spec_is_pid_dir_name(name: Seq<char>) -> bool {
    forall|k: int| 0 <= k < name.len() ==> unicode_numeric(#[trigger] name[k])
}

pub fn is_pid_dir_name(name: &str) -> (r: bool)
    ensures
        r == spec_is_pid_dir_name(name@),
{
    let v = chars_of(name);
    let mut i: usize = 0;
    while i < v.len()
        invariant
            0 <= i <= v@.len(),
            v@ == name@,
            forall|k: int| 0 <= k < i ==> unicode_numeric(#[trigger] v@[k]),
        decreases v@.len() - i,
    {
        if !char_is_numeric(v[i]) {
            return false;
        }
        i = i + 1;
    }
    true
}

/// The suffixes of the readings of a process, in the order they are
/// reported: resident and virtual memory, threads, system and user CPU
/// time, minor and major page faults.
pub open spec fn process_key_suffixes() -> Seq<Seq<char>> {
    seq![
        "rss_bytes"@,
        "vm_bytes"@,
        "num_threads"@,
        "cpu/percent/system"@,
        "cpu/percent/user"@,
        "pagefaults/minor"@,
        "pagefaults/major"@,
    ]
}

/// The text of the key `processes/<name>/<suffix>`.
pub open spec fn process_key_text(name: Seq<char>, suffix: Seq<char>) -> Seq<char> {
    "processes/"@ + name + "/"@ + suffix
}

fn process_key(name: &str, suffix: &str) -> (r: Result<MetricStringKey, &'static str>)
    ensures
        r is Ok <==> key_chars_valid(process_key_text(name@, suffix@)),
        r matches Ok(k) ==> k@ == without_nul(process_key_text(name@, suffix@)),
{
    let mut text = String::new();
    text.append("processes/");
    text.append(name);
    text.append("/");
    text.append(suffix);
    MetricStringKey::from_str(text.as_str())
}

/// The keys of the readings of the process called `name`, in the order of
/// `process_key_suffixes`; an error when one of them is not a valid key.
pub fn process_metric_keys(name: &str) -> (r: Result<Vec<MetricStringKey>, &'static str>)
    ensures
        r is Ok <==> forall|k: int|
            0 <= k < 7 ==> key_chars_valid(
                #[trigger] process_key_text(name@, process_key_suffixes()[k]),
            ),
        r matches Ok(keys) ==> keys@.len() == 7 && forall|k: int|
            0 <= k < 7 ==> (#[trigger] keys@[k])@ == without_nul(
                process_key_text(name@, process_key_suffixes()[k]),
            ),
{
    let suffixes: [&str; 7] = [
        "rss_bytes",
        "vm_bytes",
        "num_threads",
        "cpu/percent/system",
        "cpu/percent/user",
        "pagefaults/minor",
        "pagefaults/major",
    ];
    let ghost ss = process_key_suffixes();
    assert(suffixes@.map_values(|x: &str| x@) =~= ss);
    let mut keys: Vec<MetricStringKey> = Vec::new();
    let mut i: usize = 0;
    while i < 7
        invariant
            0 <= i <= 7,
            ss == process_key_suffixes(),
            suffixes@.map_values(|x: &str| x@) == ss,
            keys@.len() == i,
            forall|k: int| 0 <= k < i ==> key_chars_valid(#[trigger] process_key_text(name@, ss[k])),
            forall|k: int|
                0 <= k < i ==> (#[trigger] keys@[k])@ == without_nul(process_key_text(name@, ss[k])),
        decreases 7 - i,
    {
        assert(suffixes@.map_values(|x: &str| x@)[i as int] == suffixes[i as int]@);
        match process_key(name, suffixes[i]) {
            Ok(key) => keys.push(key),
            Err(e) => {
                return Err(e);
            },
        }
        i = i + 1;
    }
    Ok(keys)
}

/// The followed processes and the last reading of each, by pid.
pub struct ProcessMetricsCollector<R> {
    config: ProcessMetricsConfig,
    processes: HashMap<u64, R>,
}

impl<R> ProcessMetricsCollector<R> {
    pub closed spec fn spec_config(&self) -> ProcessMetricsConfig {
        self.config
    }

    /// The last reading of each process, by pid.
    pub closed spec fn readings(&self) -> Map<u64, R> {
        self.processes@
    }

    pub fn new(config: ProcessMetricsConfig) -> (r: Self)
        ensures
            r.spec_config() == config,
            r.readings() == Map::<u64, R>::empty(),
    {
        ProcessMetricsCollector { config, processes: HashMap::new() }
    }

    /// Whether the process called `name` is followed.
    pub fn process_is_monitored(&self, name: &str) -> (r: bool)
        ensures
            r == spec_process_is_monitored(self.spec_config(), name@),
    {
        process_is_monitored(&self.config, name)
    }

    /// Records the reading of process `pid` and hands back its previous one:
    /// metrics are computed only for a process read before.
    pub fn replace_reading(&mut self, pid: u64, reading: R) -> (r: Option<R>)
        ensures
            final(self).spec_config() == old(self).spec_config(),
            final(self).readings() == old(self).readings().insert(pid, reading),
            r == (if old(self).readings().contains_key(pid) {
                Some(old(self).readings()[pid])
            } else {
                None
            }),
    {
        broadcast use vstd::std_specs::hash::group_hash_axioms;

        self.processes.insert(pid, reading)
    }
}

/// The number of values read after the state of a `/proc/<pid>/stat` line:
/// those after the 29th are not used.
pub const STAT_VALUE_COUNT: usize = 29;

/// The texts of the values that follow the state, each after whitespace:
/// `STAT_VALUE_COUNT` of them, as nom's `double` reads them.
pub open spec fn stat_value_texts(s: Seq<char>, i: int) -> Option<Seq<Seq<char>>> {
    match spaced_floats(CharClass::Multispace, s, i, STAT_VALUE_COUNT as nat) {
        None => None,
        Some(rs) => Some(rs.map_values(|p: (int, int)| s.subrange(p.0, p.1))),
    }
}

/// Reads the values after the state (see `stat_value_texts`); their
/// floating-point values are the parse of these texts.
pub fn parse_stat_values(line: &str, from: usize) -> (r: Option<Vec<String>>)
    requires
        from <= line@.len(),
    ensures
        r matches Some(x) ==> stat_value_texts(line@, from as int) == Some(
            x@.map_values(|t: String| t@),
        ),
        r is None ==> stat_value_texts(line@, from as int) is None,
{
    let v = chars_of(line);
    let ranges = match parse_spaced_floats(CharClass::Multispace, &v, from, STAT_VALUE_COUNT) {
        None => {
            return None;
        },
        Some(rs) => rs,
    };
    let ghost rs = ranges@.map_values(|p: (usize, usize)| (p.0 as int, p.1 as int));
    let ghost want = rs.map_values(|p: (int, int)| v@.subrange(p.0, p.1));
    let mut texts: Vec<String> = Vec::new();
    let mut k: usize = 0;
    while k < ranges.len()
        invariant
            0 <= k <= ranges@.len(),
            v@ == line@,
            rs == ranges@.map_values(|p: (usize, usize)| (p.0 as int, p.1 as int)),
            want == rs.map_values(|p: (int, int)| v@.subrange(p.0, p.1)),
            forall|m: int| 0 <= m < ranges@.len() ==> (#[trigger] ranges@[m]).0 <= ranges@[m].1 <= v.len(),
            texts@.map_values(|t: String| t@) == want.take(k as int),
        decreases ranges@.len() - k,
    {
        let (a, b) = ranges[k];
        let t = string_from_range(&v, a, b);
        let ghost before = texts@.map_values(|t: String| t@);
        texts.push(t);
        assert(texts@.map_values(|t: String| t@) =~= before.push(want[k as int]));
        assert(want.take(k + 1) =~= want.take(k as int).push(want[k as int]));
        k = k + 1;
    }
    assert(want.take(ranges@.len() as int) =~= want);
    Some(texts)
}

} // verus!
