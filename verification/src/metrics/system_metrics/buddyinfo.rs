//! Memory fragmentation metrics from `/proc/buddyinfo`.
//!
//! `/proc/buddyinfo` has one row per (NUMA node, memory zone) and one column
//! per allocation order; column `k` counts the free blocks of `2^k` pages on
//! that zone's free list. The number of columns varies across kernels, so the
//! parser never assumes it.
use vstd::prelude::*;

use crate::metrics::metric_string_key::MetricStringKey;
use crate::text::{
    chars_of, dec_digits, parse_u32_range, parse_u64_range, parse_unsigned, range_eq_str,
    split_lines, split_whitespace_range, string_from_range, text_lines, usize_to_decimal,
    ws_tokens,
};

verus! {

pub const PROC_BUDDYINFO_PATH: &'static str = "/proc/buddyinfo";

/// Namespace prefix shared by every buddyinfo metric key.
pub const BUDDYINFO_METRIC_PREFIX: &'static str = "memory/buddyinfo";

pub struct BuddyInfoMetricsCollector;

impl BuddyInfoMetricsCollector {
    pub fn new() -> (r: Self)
        ensures
            r == BuddyInfoMetricsCollector,
    {
        BuddyInfoMetricsCollector
    }
}

/// One parsed `/proc/buddyinfo` row: the free-block counts of one
/// (node, zone) pair, indexed by allocation order.
#[derive(Debug, Clone, PartialEq, Eq)]
pub struct BuddyInfoRow {
    pub node: u32,
    pub zone: String,
    pub free_blocks: Vec<u64>,
}

impl View for BuddyInfoRow {
    type V = (u32, Seq<char>, Seq<u64>);

    open spec fn view(&self) -> (u32, Seq<char>, Seq<u64>) {
        (self.node, self.zone@, self.free_blocks@)
    }
}

/// Why `/proc/buddyinfo` contents were rejected.
#[derive(Debug, Clone, Copy, PartialEq, Eq)]
pub enum BuddyInfoError {
    /// Not a single line of the contents is a buddyinfo row.
    NoParseableRows,
}

/// `t` without its trailing commas (`trim_end_matches(',')`).
pub open spec fn strip_trailing_commas(t: Seq<char>) -> Seq<char>
    decreases t.len(),
{
    if t.len() > 0 && t.last() == ',' {
        strip_trailing_commas(t.drop_last())
    } else {
        t
    }
}

/// A buddyinfo row: `Node <id>, zone <name> <count>...` with at least one
/// count, every count a `u64` and the node id a `u32` (trailing commas of the
/// id token are ignored). Tokens are separated by any whitespace.
pub open spec fn buddyinfo_line(line: Seq<char>) -> Option<(u32, Seq<char>, Seq<u64>)> {
    let t = ws_tokens(line);
    if t.len() >= 5 && t[0] == "Node"@ && parse_unsigned(
        strip_trailing_commas(t[1]),
        u32::MAX as nat,
    ) is Some && t[2] == "zone"@ && (forall|k: int|
        4 <= k < t.len() ==> parse_unsigned(#[trigger] t[k], u64::MAX as nat) is Some) {
        Some(
            (
                parse_unsigned(strip_trailing_commas(t[1]), u32::MAX as nat)->0 as u32,
                t[3],
                Seq::new(
                    (t.len() - 4) as nat,
                    |k: int| parse_unsigned(t[k + 4], u64::MAX as nat)->0 as u64,
                ),
            ),
        )
    } else {
        None
    }
}

/// The rows of the given lines, in order, skipping lines that are not rows.
pub open spec fn buddyinfo_rows(lines: Seq<Seq<char>>) -> Seq<(u32, Seq<char>, Seq<u64>)>
    decreases lines.len(),
{
    if lines.len() == 0 {
        Seq::empty()
    } else {
        let rest = buddyinfo_rows(lines.drop_last());
        match buddyinfo_line(lines.last()) {
            Some(row) => rest.push(row),
            None => rest,
        }
    }
}

proof fn lemma_strip_commas(s: Seq<char>, m: int)
    requires
        0 <= m <= s.len(),
        forall|k: int| m <= k < s.len() ==> #[trigger] s[k] == ',',
        m == 0 || s[m - 1] != ',',
    ensures
        strip_trailing_commas(s) == s.take(m),
    decreases s.len(),
{
    if m < s.len() {
        let t = s.drop_last();
        assert forall|k: int| m <= k < t.len() implies #[trigger] t[k] == ',' by {
            assert(t[k] == s[k]);
        }
        if m > 0 {
            assert(t[m - 1] == s[m - 1]);
        }
        lemma_strip_commas(t, m);
        assert(t.take(m) =~= s.take(m));
    } else {
        assert(s.take(m) =~= s);
        if s.len() > 0 {
            assert(s.last() == s[m - 1]);
        }
    }
}

/// Parses the row held in `v[from..to]`.
fn parse_line_range(v: &Vec<char>, from: usize, to: usize) -> (r: Option<BuddyInfoRow>)
    requires
        from <= to <= v.len(),
    ensures
        r matches Some(row) ==> buddyinfo_line(v@.subrange(from as int, to as int)) == Some(
            row@,
        ),
        r is None ==> buddyinfo_line(v@.subrange(from as int, to as int)) is None,
{
    let ghost line = v@.subrange(from as int, to as int);
    let ghost t = ws_tokens(line);
    let toks = split_whitespace_range(v, from, to);
    if toks.len() < 5 {
        return None;
    }
    assert(v@.subrange(toks@[0].0 as int, toks@[0].1 as int) == t[0]);
    if !range_eq_str(v, toks[0].0, toks[0].1, "Node") {
        return None;
    }
    // the node id, without its trailing commas
    let (a, b) = toks[1];
    assert(v@.subrange(toks@[1].0 as int, toks@[1].1 as int) == t[1]);
    let mut e = b;
    while e > a && v[e - 1] == ','
        invariant
            a <= e <= b <= v.len(),
            forall|k: int| e <= k < b ==> #[trigger] v@[k] == ',',
        decreases e,
    {
        e = e - 1;
    }
    proof {
        let s = v@.subrange(a as int, b as int);
        assert forall|k: int| e - a <= k < s.len() implies #[trigger] s[k] == ',' by {
            assert(s[k] == v@[a + k]);
        }
        if e > a {
            assert(s[e - a - 1] == v@[e - 1]);
        }
        lemma_strip_commas(s, e - a);
        assert(s.take(e - a) =~= v@.subrange(a as int, e as int));
    }
    let node = match parse_u32_range(v, a, e) {
        Some(n) => n,
        None => {
            return None;
        },
    };
    assert(v@.subrange(toks@[2].0 as int, toks@[2].1 as int) == t[2]);
    if !range_eq_str(v, toks[2].0, toks[2].1, "zone") {
        return None;
    }
    assert(v@.subrange(toks@[3].0 as int, toks@[3].1 as int) == t[3]);
    let zone = string_from_range(v, toks[3].0, toks[3].1);
    let mut free_blocks: Vec<u64> = Vec::new();
    let mut k: usize = 4;
    while k < toks.len()
        invariant
            4 <= k <= toks@.len(),
            from <= to <= v.len(),
            toks@.len() == t.len(),
            t == ws_tokens(v@.subrange(from as int, to as int)),
            forall|j: int|
                0 <= j < toks@.len() ==> from <= (#[trigger] toks@[j]).0 <= toks@[j].1 <= to
                    && v@.subrange(toks@[j].0 as int, toks@[j].1 as int) == t[j],
            free_blocks@.len() == k - 4,
            forall|j: int|
                4 <= j < k ==> parse_unsigned(#[trigger] t[j], u64::MAX as nat) is Some,
            forall|j: int|
                0 <= j < k - 4 ==> free_blocks@[j] as nat == parse_unsigned(
                    #[trigger] t[j + 4],
                    u64::MAX as nat,
                )->0,
        decreases toks@.len() - k,
    {
        assert(v@.subrange(toks@[k as int].0 as int, toks@[k as int].1 as int) == t[k as int]);
        match parse_u64_range(v, toks[k].0, toks[k].1) {
            Some(x) => {
                free_blocks.push(x);
            },
            None => {
                return None;
            },
        }
        k = k + 1;
    }
    let row = BuddyInfoRow { node, zone, free_blocks };
    assert(row.free_blocks@ =~= Seq::new(
        (t.len() - 4) as nat,
        |j: int| parse_unsigned(t[j + 4], u64::MAX as nat)->0 as u64,
    ));
    Some(row)
}

/// Parses a single `/proc/buddyinfo` line such as
/// `Node 0, zone   Normal   1  1  1  0  2`.
pub fn parse_buddyinfo_line(line: &str) -> (r: Option<BuddyInfoRow>)
    ensures
        r matches Some(row) ==> buddyinfo_line(line@) == Some(row@),
        r is None ==> buddyinfo_line(line@) is None,
{
    let v = chars_of(line);
    assert(v@.subrange(0, v@.len() as int) =~= v@);
    parse_line_range(&v, 0, v.len())
}

/// Parses the full contents of `/proc/buddyinfo`: every line that is a row,
/// in order. Other lines are skipped; it is an error only when no line at
/// all is a row.
pub fn parse_buddyinfo(content: &str) -> (r: Result<Vec<BuddyInfoRow>, BuddyInfoError>)
    ensures
        r matches Ok(rows) ==> rows@.map_values(|row: BuddyInfoRow| row@) == buddyinfo_rows(
            text_lines(content@),
        ) && rows@.len() > 0,
        r is Err ==> buddyinfo_rows(text_lines(content@)).len() == 0,
{
    let v = chars_of(content);
    let lines = split_lines(&v);
    let ghost ls = text_lines(v@);
    let mut rows: Vec<BuddyInfoRow> = Vec::new();
    let mut i: usize = 0;
    while i < lines.len()
        invariant
            0 <= i <= lines@.len(),
            v@ == content@,
            ls == text_lines(v@),
            lines@.len() == ls.len(),
            forall|k: int|
                0 <= k < lines@.len() ==> (#[trigger] lines@[k]).0 <= lines@[k].1 <= v.len()
                    && v@.subrange(lines@[k].0 as int, lines@[k].1 as int) == ls[k],
            rows@.map_values(|row: BuddyInfoRow| row@) == buddyinfo_rows(ls.take(i as int)),
        decreases lines@.len() - i,
    {
        let (a, b) = lines[i];
        let ghost before = rows@;
        assert(ls.take(i + 1).drop_last() =~= ls.take(i as int));
        assert(ls.take(i + 1).last() == ls[i as int]);
        match parse_line_range(&v, a, b) {
            Some(row) => {
                rows.push(row);
                assert(rows@.map_values(|row: BuddyInfoRow| row@) =~= before.map_values(
                    |row: BuddyInfoRow| row@,
                ).push(row@));
            },
            None => {},
        }
        i = i + 1;
    }
    assert(ls.take(lines@.len() as int) =~= ls);
    if rows.len() == 0 {
        Err(BuddyInfoError::NoParseableRows)
    } else {
        Ok(rows)
    }
}

/// The views of the given rows.
pub open spec fn row_views(rows: Seq<BuddyInfoRow>) -> Seq<(u32, Seq<char>, Seq<u64>)> {
    rows.map_values(|row: BuddyInfoRow| row@)
}

/// Number of columns of the widest row.
pub open spec fn widest_row(rows: Seq<(u32, Seq<char>, Seq<u64>)>) -> nat
    decreases rows.len(),
{
    if rows.len() == 0 {
        0
    } else {
        let w = widest_row(rows.drop_last());
        if rows.last().2.len() > w {
            rows.last().2.len()
        } else {
            w
        }
    }
}

/// Sum of the free blocks of order `k` over every row that has that column.
pub open spec fn order_total(rows: Seq<(u32, Seq<char>, Seq<u64>)>, k: int) -> nat
    decreases rows.len(),
{
    if rows.len() == 0 {
        0
    } else {
        let b = rows.last().2;
        order_total(rows.drop_last(), k) + if 0 <= k < b.len() {
            b[k] as nat
        } else {
            0
        }
    }
}

pub open spec fn saturate(x: nat) -> u64 {
    if x > u64::MAX {
        u64::MAX
    } else {
        x as u64
    }
}

/// Sums the free-block counts per order across every row. The result is as
/// wide as the widest row; shorter rows add nothing to the higher orders.
/// Sums saturate at `u64::MAX`.
pub fn sum_free_blocks_by_order(rows: &[BuddyInfoRow]) -> (r: Vec<u64>)
    ensures
        r@.len() == widest_row(row_views(rows@)),
        forall|k: int|
            0 <= k < r@.len() ==> r@[k] == saturate(#[trigger] order_total(row_views(rows@), k)),
{
    let ghost rv = row_views(rows@);
    let mut max_orders: usize = 0;
    let mut i: usize = 0;
    while i < rows.len()
        invariant
            0 <= i <= rows@.len(),
            max_orders == widest_row(rv.take(i as int)),
            rv == row_views(rows@),
        decreases rows@.len() - i,
    {
        assert(rv.len() == rows@.len());
        assert(rv[i as int].2 == rows@[i as int].free_blocks@);
        assert(rv.take(i + 1).drop_last() =~= rv.take(i as int));
        if rows[i].free_blocks.len() > max_orders {
            max_orders = rows[i].free_blocks.len();
        }
        i = i + 1;
    }
    assert(rv.take(rv.len() as int) =~= rv);
    let mut sums: Vec<u64> = vec![0u64; max_orders];
    let mut i: usize = 0;
    while i < rows.len()
        invariant
            0 <= i <= rows@.len(),
            max_orders == widest_row(rv),
            rv == row_views(rows@),
            sums@.len() == max_orders,
            forall|k: int|
                0 <= k < sums@.len() ==> sums@[k] == saturate(
                    #[trigger] order_total(rv.take(i as int), k),
                ),
        decreases rows@.len() - i,
    {
        proof {
            lemma_widest_row_bound(rv, i as int);
        }
        let blocks = &rows[i].free_blocks;
        let ghost prev = rv.take(i as int);
        let ghost next = rv.take(i + 1);
        assert(next.drop_last() =~= prev);
        assert(next.last() == rv[i as int]);
        let mut j: usize = 0;
        while j < blocks.len()
            invariant
                0 <= j <= blocks@.len(),
                blocks@.len() <= sums@.len(),
                sums@.len() == max_orders,
                blocks@ == next.last().2,
                next.drop_last() == prev,
                next.len() > 0,
                forall|k: int|
                    0 <= k < j ==> sums@[k] == saturate(#[trigger] order_total(next, k)),
                forall|k: int|
                    j <= k < sums@.len() ==> sums@[k] == saturate(#[trigger] order_total(prev, k)),
            decreases blocks@.len() - j,
        {
            let s = sums[j];
            let c = blocks[j];
            assert(order_total(next, j as int) == order_total(prev, j as int) + c);
            let t = s.saturating_add(c);
            sums.set(j, t);
            j = j + 1;
        }
        assert forall|k: int| 0 <= k < sums@.len() implies sums@[k] == saturate(
            #[trigger] order_total(next, k),
        ) by {
            if k >= j {
                assert(order_total(next, k) == order_total(prev, k));
            }
        }
        i = i + 1;
    }
    assert(rv.take(rv.len() as int) =~= rv);
    sums
}

proof fn lemma_widest_row_bound(rows: Seq<(u32, Seq<char>, Seq<u64>)>, i: int)
    requires
        0 <= i < rows.len(),
    ensures
        rows[i].2.len() <= widest_row(rows),
    decreases rows.len(),
{
    if i < rows.len() - 1 {
        lemma_widest_row_bound(rows.drop_last(), i);
        assert(rows.drop_last()[i] == rows[i]);
    }
}

/// The key of the buddyinfo metric of order `k`: `memory/buddyinfo/order_<k>`.
pub open spec fn buddyinfo_order_key(k: nat) -> Seq<char> {
    BUDDYINFO_METRIC_PREFIX@ + "/order_"@ + dec_digits(k)
}

/// One `(key, free blocks)` pair per order, summed across every node and
/// zone; these are the values of the per-order histogram readings.
pub fn buddyinfo_readings(content: &str) -> (r: Result<Vec<(MetricStringKey, u64)>, BuddyInfoError>)
    ensures
        r is Err <==> buddyinfo_rows(text_lines(content@)).len() == 0,
        r matches Ok(readings) ==> {
            let rows = buddyinfo_rows(text_lines(content@));
            &&& readings@.len() == widest_row(rows)
            &&& forall|k: int|
                0 <= k < readings@.len() ==> (#[trigger] readings@[k]).0@ == buddyinfo_order_key(
                    k as nat,
                ) && readings@[k].1 == saturate(order_total(rows, k))
        },
{
    let rows = match parse_buddyinfo(content) {
        Ok(rows) => rows,
        Err(e) => {
            return Err(e);
        },
    };
    let slice = rows.as_slice();
    let sums = sum_free_blocks_by_order(slice);
    assert(rows@.map_values(|row: BuddyInfoRow| row@) == row_views(slice@));
    let mut readings: Vec<(MetricStringKey, u64)> = Vec::new();
    let mut k: usize = 0;
    while k < sums.len()
        invariant
            0 <= k <= sums@.len(),
            readings@.len() == k,
            forall|j: int|
                0 <= j < k ==> (#[trigger] readings@[j]).0@ == buddyinfo_order_key(j as nat)
                    && readings@[j].1 == sums@[j],
        decreases sums@.len() - k,
    {
        let digits = usize_to_decimal(k);
        let mut name = String::new();
        name.append(BUDDYINFO_METRIC_PREFIX);
        name.append("/order_");
        name.append(digits.as_str());
        let key = MetricStringKey::from_string(name);
        readings.push((key, sums[k]));
        k = k + 1;
    }
    assert(rows.len() > 0);
    Ok(readings)
}

} // verus!
