//! Memory usage from `/proc/meminfo`: the lines the collector reads, such as
//! `MemTotal:         365916 kB`. Their values are floating-point numbers,
//! read from the texts given out here.
use vstd::prelude::*;

use crate::parse::{float_end, recognize_float_at, run_end, skip_run, tag_at, tag_at_exec, CharClass};
use crate::text::{chars_of, split_lines, string_from_range, text_lines, trim_range, trimmed};

verus! {

pub const PROC_MEMINFO_PATH: &'static str = "/proc/meminfo";

pub const MEMORY_METRIC_NAMESPACE: &'static str = "memory";

/// Reads `/proc/meminfo`.
pub struct MemInfoParserImpl;

impl MemInfoParserImpl {
    pub fn new() -> (r: Self) {
        MemInfoParserImpl
    }
}

/// A line of `/proc/meminfo`: a name of ASCII letters and `:`, then
/// whitespace, then a number as nom's `double` reads it, then ` kB`
/// (anything after it is ignored). Gives the name and the number's text.
pub open spec fn meminfo_line(s: Seq<char>) -> Option<(Seq<char>, Seq<char>)> {
    let k = run_end(CharClass::Alpha, s, 0);
    if k == 0 || k >= s.len() || s[k] != ':' {
        None
    } else {
        let j = run_end(CharClass::Multispace, s, k + 1);
        if j == k + 1 {
            None
        } else {
            match float_end(s, j) {
                None => None,
                Some(e) => if tag_at(s, e, " kB"@) {
                    Some((s.subrange(0, k), s.subrange(j, e)))
                } else {
                    None
                },
            }
        }
    }
}

/// Reads one line of `/proc/meminfo` (see `meminfo_line`).
pub fn parse_meminfo_line(line: &str) -> (r: Option<(String, String)>)
    ensures
        r matches Some((name, value)) ==> meminfo_line(line@) == Some((name@, value@)),
        r is None ==> meminfo_line(line@) is None,
{
    let v = chars_of(line);
    let k = skip_run(CharClass::Alpha, &v, 0);
    if k == 0 || k >= v.len() || v[k] != ':' {
        return None;
    }
    let j = skip_run(CharClass::Multispace, &v, k + 1);
    if j == k + 1 {
        return None;
    }
    match recognize_float_at(&v, j) {
        None => None,
        Some(e) => {
            if tag_at_exec(&v, e, " kB") {
                Some((string_from_range(&v, 0, k), string_from_range(&v, j, e)))
            } else {
                None
            }
        },
    }
}

/// The name and number text of each line that `meminfo_line` reads, in
/// order; other lines are skipped.
pub open spec fn meminfo_entries(lines: Seq<Seq<char>>) -> Seq<(Seq<char>, Seq<char>)>
    decreases lines.len(),
{
    if lines.len() == 0 {
        Seq::empty()
    } else {
        let prev = meminfo_entries(lines.drop_last());
        match meminfo_line(lines.last()) {
            Some(entry) => prev.push(entry),
            None => prev,
        }
    }
}

pub open spec fn entry_views(r: Seq<(String, String)>) -> Seq<(Seq<char>, Seq<char>)> {
    r.map_values(|e: (String, String)| (e.0@, e.1@))
}

/// Reads the whole of `/proc/meminfo`, trimmed, line by line (see
/// `meminfo_entries`). The values in bytes are 1024 times the numbers.
pub fn parse_meminfo_stats(meminfo: &str) -> (r: Vec<(String, String)>)
    ensures
        entry_views(r@) == meminfo_entries(text_lines(trimmed(meminfo@))),
{
    let all = chars_of(meminfo);
    let (a, b) = trim_range(&all, 0, all.len());
    assert(all@.subrange(0, all@.len() as int) =~= all@);
    let text = string_from_range(&all, a, b);
    let v = chars_of(text.as_str());
    let lines = split_lines(&v);
    let ghost ls = text_lines(v@);
    let mut entries: Vec<(String, String)> = Vec::new();
    let mut i: usize = 0;
    while i < lines.len()
        invariant
            0 <= i <= lines@.len(),
            v@ == trimmed(meminfo@),
            ls == text_lines(v@),
            lines@.len() == ls.len(),
            forall|k: int|
                0 <= k < lines@.len() ==> (#[trigger] lines@[k]).0 <= lines@[k].1 <= v.len()
                    && v@.subrange(lines@[k].0 as int, lines@[k].1 as int) == ls[k],
            entry_views(entries@) == meminfo_entries(ls.take(i as int)),
        decreases lines@.len() - i,
    {
        let (la, lb) = lines[i];
        let line = string_from_range(&v, la, lb);
        let ghost before = entry_views(entries@);
        assert(ls.take(i + 1).drop_last() =~= ls.take(i as int));
        assert(ls.take(i + 1).last() == ls[i as int]);
        match parse_meminfo_line(line.as_str()) {
            Some(entry) => {
                entries.push(entry);
                assert(entry_views(entries@) =~= before.push((entry.0@, entry.1@)));
            },
            None => {},
        }
        i = i + 1;
    }
    assert(ls.take(lines@.len() as int) =~= ls);
    entries
}

} // verus!
