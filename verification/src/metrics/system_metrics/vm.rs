//! Swap and paging activity from `/proc/vmstat`, whose lines read
//! `<name> <value>`, such as `pswpin 12345`.
use vstd::prelude::*;

use crate::metrics::metric_string_key::MetricStringKey;
use crate::parse::{parse_u64_at, run_end, skip_run, u64_at, CharClass};
use crate::text::{chars_of, range_eq_str, string_from_range};

verus! {

pub const VM_SWAPS_IN_KEY: &'static str = "memory/vm/swaps_in_per_second";

pub const VM_SWAPS_OUT_KEY: &'static str = "memory/vm/swaps_out_per_second";

pub const VM_PAGES_IN_KEY: &'static str = "memory/vm/pages_in_per_second";

pub const VM_PAGES_OUT_KEY: &'static str = "memory/vm/pages_out_per_second";

/// The swap and paging counters of one reading of `/proc/vmstat`, and when
/// it was taken.
#[derive(Debug, Copy, Clone)]
pub struct SwapStats<T> {
    pub pswpin: u64,
    pub pswpout: u64,
    pub pgpgin: u64,
    pub pgpgout: u64,
    pub reading_time: T,
}

/// Where a line ending (`"\n"` or `"\r\n"`) that may follow position `i`
/// ends.
pub open spec fn after_line_ending(s: Seq<char>, i: int) -> int {
    if i < s.len() && s[i] == '\n' {
        i + 1
    } else if i + 1 < s.len() && s[i] == '\r' && s[i + 1] == '\n' {
        i + 2
    } else {
        i
    }
}

/// The line of `/proc/vmstat` at position `i`: a name (alphanumeric
/// characters and `'_'`), spaces, a number, and an optional line ending.
/// Gives the name, the number and where the line ends.
pub open spec fn vmstat_line_at(s: Seq<char>, i: int) -> Option<(Seq<char>, u64, int)> {
    let i1 = run_end(CharClass::Word, s, i);
    let i2 = run_end(CharClass::Space, s, i1);
    if 0 <= i && i1 > i && i2 > i1 {
        match u64_at(s, i2) {
            Some((x, i3)) => Some((s.subrange(i, i1), x, after_line_ending(s, i3))),
            None => None,
        }
    } else {
        None
    }
}

/// The lines that parse from position `i` on, up to the first that does not.
pub open spec fn vmstat_entries(s: Seq<char>, i: int) -> Seq<(Seq<char>, u64)>
    decreases s.len() - i,
{
    if 0 <= i <= s.len() {
        match vmstat_line_at(s, i) {
            Some((name, x, e)) => if i < e <= s.len() {
                seq![(name, x)] + vmstat_entries(s, e)
            } else {
                Seq::empty()
            },
            None => Seq::empty(),
        }
    } else {
        Seq::empty()
    }
}

/// The value of the last entry called `name`, or `0` where there is none.
pub open spec fn counter_value(entries: Seq<(Seq<char>, u64)>, name: Seq<char>) -> u64
    decreases entries.len(),
{
    if entries.len() == 0 {
        0
    } else if entries.last().0 == name {
        entries.last().1
    } else {
        counter_value(entries.drop_last(), name)
    }
}

proof fn lemma_counter_value_push(done: Seq<(Seq<char>, u64)>, name: Seq<char>, x: u64)
    ensures
        forall|k: Seq<char>|
            #[trigger] counter_value(done.push((name, x)), k) == if name == k {
                x
            } else {
                counter_value(done, k)
            },
        "pswpin"@ != "pswpout"@ && "pswpin"@ != "pgpgin"@ && "pswpin"@ != "pgpgout"@,
        "pswpout"@ != "pgpgin"@ && "pswpout"@ != "pgpgout"@ && "pgpgin"@ != "pgpgout"@,
{
    assert(done.push((name, x)).drop_last() =~= done);
    reveal_strlit("pswpin");
    reveal_strlit("pswpout");
    reveal_strlit("pgpgin");
    reveal_strlit("pgpgout");
    assert("pswpin"@.len() == 6 && "pgpgin"@.len() == 6);
    assert("pswpout"@.len() == 7 && "pgpgout"@.len() == 7);
    assert("pswpin"@[1] == 's' && "pgpgin"@[1] == 'g');
    assert("pswpout"@[1] == 's' && "pgpgout"@[1] == 'g');
}

/// Reads the line at `from` (see `vmstat_line_at`); gives where its name
/// ends, its number and where it ends.
fn parse_vmstat_line_at(v: &Vec<char>, from: usize) -> (r: Option<(usize, u64, usize)>)
    requires
        from <= v.len(),
    ensures
        r matches Some((ke, x, e)) ==> from <= ke <= e <= v.len() && vmstat_line_at(
            v@,
            from as int,
        ) == Some((v@.subrange(from as int, ke as int), x, e as int)),
        r is None ==> vmstat_line_at(v@, from as int) is None,
{
    let i1 = skip_run(CharClass::Word, v, from);
    if i1 == from {
        return None;
    }
    let i2 = skip_run(CharClass::Space, v, i1);
    if i2 == i1 {
        return None;
    }
    match parse_u64_at(v, i2) {
        Some((x, i3)) => {
            let e = if i3 < v.len() && v[i3] == '\n' {
                i3 + 1
            } else if i3 < v.len() - 1 && v[i3] == '\r' && v[i3 + 1] == '\n' {
                i3 + 2
            } else {
                i3
            };
            Some((i1, x, e))
        },
        None => None,
    }
}

/// Reads one line of `/proc/vmstat` (see `vmstat_line_at`): its name and
/// its number.
pub fn parse_vmstat_line(input: &str) -> (r: Option<(String, u64)>)
    ensures
        r matches Some((name, x)) ==> vmstat_line_at(input@, 0) matches Some((n, y, _)) && n
            == name@ && y == x,
        r is None ==> vmstat_line_at(input@, 0) is None,
{
    let v = chars_of(input);
    match parse_vmstat_line_at(&v, 0) {
        Some((ke, x, _)) => Some((string_from_range(&v, 0, ke), x)),
        None => None,
    }
}

/// Reads the swap and paging counters from the contents of `/proc/vmstat`:
/// `pswpin`, `pswpout`, `pgpgin` and `pgpgout`, the last line of each name
/// counting, `0` for a name that no line has. Reading stops at the first
/// line that does not parse. `reading_time` is when the contents were read.
pub fn parse_swap_stats<T>(input: &str, reading_time: T) -> (r: SwapStats<T>)
    ensures
        r.pswpin == counter_value(vmstat_entries(input@, 0), "pswpin"@),
        r.pswpout == counter_value(vmstat_entries(input@, 0), "pswpout"@),
        r.pgpgin == counter_value(vmstat_entries(input@, 0), "pgpgin"@),
        r.pgpgout == counter_value(vmstat_entries(input@, 0), "pgpgout"@),
        r.reading_time == reading_time,
{
    let v = chars_of(input);
    let ghost all = vmstat_entries(v@, 0);
    let ghost mut done: Seq<(Seq<char>, u64)> = Seq::empty();
    let mut pswpin: u64 = 0;
    let mut pswpout: u64 = 0;
    let mut pgpgin: u64 = 0;
    let mut pgpgout: u64 = 0;
    let mut i: usize = 0;
    assert(done + vmstat_entries(v@, 0) =~= all);
    loop
        invariant
            0 <= i <= v.len(),
            v@ == input@,
            all == vmstat_entries(v@, 0),
            all == done + vmstat_entries(v@, i as int),
            pswpin == counter_value(done, "pswpin"@),
            pswpout == counter_value(done, "pswpout"@),
            pgpgin == counter_value(done, "pgpgin"@),
            pgpgout == counter_value(done, "pgpgout"@),
        ensures
            all == done,
        decreases v.len() - i,
    {
        match parse_vmstat_line_at(&v, i) {
            Some((ke, x, e)) => {
                if e <= i {
                    assert(vmstat_entries(v@, i as int) =~= Seq::empty());
                    assert(done + vmstat_entries(v@, i as int) =~= done);
                    break ;
                }
                let ghost name = v@.subrange(i as int, ke as int);
                proof {
                    assert(vmstat_entries(v@, i as int) == seq![(name, x)] + vmstat_entries(
                        v@,
                        e as int,
                    ));
                    assert(done + vmstat_entries(v@, i as int) =~= done.push((name, x))
                        + vmstat_entries(v@, e as int));
                    assert(done.push((name, x)).drop_last() =~= done);
                }
                if range_eq_str(&v, i, ke, "pswpin") {
                    pswpin = x;
                } else if range_eq_str(&v, i, ke, "pswpout") {
                    pswpout = x;
                } else if range_eq_str(&v, i, ke, "pgpgout") {
                    pgpgout = x;
                } else if range_eq_str(&v, i, ke, "pgpgin") {
                    pgpgin = x;
                }
                proof {
                    lemma_counter_value_push(done, name, x);
                    done = done.push((name, x));
                }
                i = e;
            },
            None => {
                assert(vmstat_entries(v@, i as int) =~= Seq::empty());
                assert(done + vmstat_entries(v@, i as int) =~= done);
                break ;
            },
        }
    }
    SwapStats { pswpin, pswpout, pgpgin, pgpgout, reading_time }
}

/// Follows the swap and paging counters from one reading to the next.
pub struct VmMetricsCollector<T> {
    last_reading: Option<SwapStats<T>>,
}

impl<T: Copy> VmMetricsCollector<T> {
    pub closed spec fn spec_last_reading(&self) -> Option<SwapStats<T>> {
        self.last_reading
    }

    /// A collector that has seen no reading yet.
    pub fn new() -> (r: Self)
        ensures
            r.spec_last_reading() is None,
    {
        VmMetricsCollector { last_reading: None }
    }

    /// Keeps `current` as the last reading and gives back the one before.
    pub fn replace_reading(&mut self, current: SwapStats<T>) -> (r: Option<SwapStats<T>>)
        ensures
            r == old(self).spec_last_reading(),
            final(self).spec_last_reading() == Some(current),
    {
        let prev = self.last_reading;
        self.last_reading = Some(current);
        prev
    }
}

/// The counters that grew from `prev` to `current`, or stayed, each with
/// its key and how much it grew, in the order swaps in, swaps out, pages
/// in, pages out. A counter that went down (a reset) is left out. The
/// caller turns the growth into a rate over the time between the readings.
pub fn vm_counter_deltas<T>(prev: &SwapStats<T>, current: &SwapStats<T>) -> (r: Vec<
    (MetricStringKey, u64),
>)
    ensures
        r@.map_values(|p: (MetricStringKey, u64)| (p.0@, p.1 as int)) == vm_deltas_spec(
            (prev.pswpin, prev.pswpout, prev.pgpgin, prev.pgpgout),
            (current.pswpin, current.pswpout, current.pgpgin, current.pgpgout),
        ),
{
    let mut r: Vec<(MetricStringKey, u64)> = Vec::new();
    if current.pswpin >= prev.pswpin {
        r.push((MetricStringKey::from(VM_SWAPS_IN_KEY), current.pswpin - prev.pswpin));
    }
    if current.pswpout >= prev.pswpout {
        r.push((MetricStringKey::from(VM_SWAPS_OUT_KEY), current.pswpout - prev.pswpout));
    }
    if current.pgpgin >= prev.pgpgin {
        r.push((MetricStringKey::from(VM_PAGES_IN_KEY), current.pgpgin - prev.pgpgin));
    }
    if current.pgpgout >= prev.pgpgout {
        r.push((MetricStringKey::from(VM_PAGES_OUT_KEY), current.pgpgout - prev.pgpgout));
    }
    assert(r@.map_values(|p: (MetricStringKey, u64)| (p.0@, p.1 as int)) =~= vm_deltas_spec(
        (prev.pswpin, prev.pswpout, prev.pgpgin, prev.pgpgout),
        (current.pswpin, current.pswpout, current.pgpgin, current.pgpgout),
    ));
    r
}

/// One key and growth, where the counter did not go down.
pub open spec fn counter_delta_entry(key: Seq<char>, prev: u64, cur: u64) -> Seq<(Seq<char>, int)> {
    if cur >= prev {
        seq![(key, cur - prev)]
    } else {
        Seq::empty()
    }
}

/// The growth of the counters `(pswpin, pswpout, pgpgin, pgpgout)`.
pub open spec fn vm_deltas_spec(prev: (u64, u64, u64, u64), cur: (u64, u64, u64, u64)) -> Seq<
    (Seq<char>, int),
> {
    counter_delta_entry(VM_SWAPS_IN_KEY@, prev.0, cur.0) + counter_delta_entry(
        VM_SWAPS_OUT_KEY@,
        prev.1,
        cur.1,
    ) + counter_delta_entry(VM_PAGES_IN_KEY@, prev.2, cur.2) + counter_delta_entry(
        VM_PAGES_OUT_KEY@,
        prev.3,
        cur.3,
    )
}

} // verus!
