//! Which network interfaces the interface metrics follow.
use vstd::prelude::*;

use crate::metrics::metric_string_key::{key_chars_valid, without_nul, MetricStringKey};
use crate::parse::{
    i64_at, in_class, lemma_run_len_exact, parse_i64_at, parse_spaced_u64s, parse_u64_at, run_end, skip_run, spaced_u64s, tag_at,
    tag_at_exec, u64_at, CharClass,
};
use crate::text::{
    chars_of, contains_str, dec_value, is_ascii_digit_char, starts_with_str, string_from_range,
    string_views,
};

verus! {

pub const NETWORK_INTERFACE_METRIC_NAMESPACE: &'static str = "interface";

/// The interfaces to follow: all but loopback, tunnel, dummy, veth and USB
/// interfaces, or the named ones.
pub enum NetworkInterfaceMetricsConfig {
    Auto,
    /// The interface names; a name that occurs twice counts once.
    Interfaces(Vec<String>),
}

/// Whether the interface called `name` is followed under `config`.
pub open spec fn spec_interface_is_monitored(
    config: NetworkInterfaceMetricsConfig,
    name: Seq<char>,
) -> bool {
    match config {
        NetworkInterfaceMetricsConfig::Auto => !("lo"@.is_prefix_of(name) || "tun"@.is_prefix_of(
            name,
        ) || "dummy"@.is_prefix_of(name) || "veth"@.is_prefix_of(name) || "usb"@.is_prefix_of(
            name,
        )),
        NetworkInterfaceMetricsConfig::Interfaces(is) => string_views(is@).contains(name),
    }
}

/// Whether the interface called `interface` is followed under `config`.
pub fn interface_is_monitored(config: &NetworkInterfaceMetricsConfig, interface: &str) -> (r: bool)
    ensures
        r == spec_interface_is_monitored(*config, interface@),
{
    match config {
        NetworkInterfaceMetricsConfig::Auto => !(starts_with_str(interface, "lo")
            || starts_with_str(interface, "tun") || starts_with_str(interface, "dummy")
            || starts_with_str(interface, "veth") || starts_with_str(interface, "usb")),
        NetworkInterfaceMetricsConfig::Interfaces(is) => contains_str(is, interface),
    }
}

/// The interface name that a line of `/proc/net/dev` or
/// `/proc/net/wireless` starts with: ASCII letters and digits, possibly
/// after spaces, ended by `':'`. Gives the name and where the `':'` ends.
pub open spec fn net_if_at(s: Seq<char>) -> Option<(Seq<char>, int)> {
    let i0 = run_end(CharClass::Multispace, s, 0);
    let i1 = run_end(CharClass::Alnum, s, i0);
    if i1 > i0 && i1 < s.len() && s[i1] == ':' {
        Some((s.subrange(i0, i1), i1 + 1))
    } else {
        None
    }
}

fn parse_net_if(v: &Vec<char>) -> (r: Option<(usize, usize, usize)>)
    ensures
        r matches Some((a, b, e)) ==> a <= b <= v.len() && e <= v.len() && net_if_at(v@) == Some(
            (v@.subrange(a as int, b as int), e as int),
        ),
        r is None ==> net_if_at(v@) is None,
{
    let i0 = skip_run(CharClass::Multispace, v, 0);
    let i1 = skip_run(CharClass::Alnum, v, i0);
    if i1 > i0 && i1 < v.len() && v[i1] == ':' {
        Some((i0, i1, i1 + 1))
    } else {
        None
    }
}

/// A line of `/proc/net/dev`: the interface name, then sixteen counters
/// (eight for reception, eight for transmission), each after at least one
/// of `' '`, `'\t'`, `'\r'`, `'\n'`.
pub open spec fn net_dev_line(s: Seq<char>) -> Option<(Seq<char>, Seq<u64>)> {
    match net_if_at(s) {
        None => None,
        Some((name, e)) => match spaced_u64s(CharClass::Multispace, s, e, 16) {
            None => None,
            Some(stats) => Some((name, stats)),
        },
    }
}

/// Parses a line of `/proc/net/dev` (see `net_dev_line`).
pub fn parse_proc_net_dev_line(line: &str) -> (r: Option<(String, Vec<u64>)>)
    ensures
        r matches Some((name, stats)) ==> net_dev_line(line@) == Some((name@, stats@)),
        r is None ==> net_dev_line(line@) is None,
{
    let v = chars_of(line);
    let (a, b, e) = match parse_net_if(&v) {
        Some(p) => p,
        None => {
            return None;
        },
    };
    match parse_spaced_u64s(CharClass::Multispace, &v, e, 16) {
        Some(stats) => Some((string_from_range(&v, a, b), stats)),
        None => None,
    }
}

/// A line of `/proc/net/wireless`: the interface name, the status, then the
/// link quality and the signal level, each after at least one of `' '`,
/// `'\t'`, `'\r'`, `'\n'` and possibly followed by `'.'`. Gives the name and
/// the link quality and level.
pub open spec fn net_wireless_line(s: Seq<char>) -> Option<(Seq<char>, Seq<i64>)> {
    match net_if_at(s) {
        None => None,
        Some((name, e)) => {
            let j0 = run_end(CharClass::Multispace, s, e);
            if j0 == e {
                None
            } else {
                match u64_at(s, j0) {
                    None => None,
                    Some((_, j1)) => {
                        let k0 = run_end(CharClass::Multispace, s, j1);
                        if k0 == j1 {
                            None
                        } else {
                            match i64_at(s, k0) {
                                None => None,
                                Some((link, k1)) => {
                                    let k2 = if tag_at(s, k1, "."@) {
                                        k1 + 1
                                    } else {
                                        k1
                                    };
                                    let m0 = run_end(CharClass::Multispace, s, k2);
                                    if m0 == k2 {
                                        None
                                    } else {
                                        match i64_at(s, m0) {
                                            None => None,
                                            Some((level, _)) => Some((name, seq![link, level])),
                                        }
                                    }
                                },
                            }
                        }
                    },
                }
            }
        },
    }
}

/// Parses a line of `/proc/net/wireless` (see `net_wireless_line`).
pub fn parse_proc_net_wireless_line(line: &str) -> (r: Option<(String, Vec<i64>)>)
    ensures
        r matches Some((name, stats)) ==> net_wireless_line(line@) == Some((name@, stats@)),
        r is None ==> net_wireless_line(line@) is None,
{
    let v = chars_of(line);
    let (a, b, e) = match parse_net_if(&v) {
        Some(p) => p,
        None => {
            return None;
        },
    };
    let j0 = skip_run(CharClass::Multispace, &v, e);
    if j0 == e {
        return None;
    }
    let j1 = match parse_u64_at(&v, j0) {
        Some((_, j1)) => j1,
        None => {
            return None;
        },
    };
    let k0 = skip_run(CharClass::Multispace, &v, j1);
    if k0 == j1 {
        return None;
    }
    let (link, k1) = match parse_i64_at(&v, k0) {
        Some(p) => p,
        None => {
            return None;
        },
    };
    let k2 = if tag_at_exec(&v, k1, ".") {
        proof {
            reveal_strlit(".");
        }
        k1 + 1
    } else {
        k1
    };
    let m0 = skip_run(CharClass::Multispace, &v, k2);
    if m0 == k2 {
        return None;
    }
    match parse_i64_at(&v, m0) {
        Some((level, _)) => {
            let stats = vec![link, level];
            assert(stats@ =~= seq![link, level]);
            Some((string_from_range(&v, a, b), stats))
        },
        None => None,
    }
}

/// After spaces, one of the words of `/proc/net/sockstat` (`inuse`,
/// `orphan`, `tw`, `alloc`, `mem`) and spaces again: where they end.
pub open spec fn sockstat_word_at(s: Seq<char>, i: int) -> Option<int> {
    let a = run_end(CharClass::Space, s, i);
    let w = if tag_at(s, a, "inuse"@) {
        5int
    } else if tag_at(s, a, "orphan"@) {
        6
    } else if tag_at(s, a, "tw"@) {
        2
    } else if tag_at(s, a, "alloc"@) {
        5
    } else if tag_at(s, a, "mem"@) {
        3
    } else {
        0
    };
    let c = run_end(CharClass::Space, s, a + w);
    if a == i || w == 0 || c == a + w {
        None
    } else {
        Some(c)
    }
}

fn parse_sockstat_word_at(v: &Vec<char>, from: usize) -> (r: Option<usize>)
    requires
        from <= v.len(),
    ensures
        r matches Some(c) ==> c <= v.len() && sockstat_word_at(v@, from as int) == Some(c as int),
        r is None ==> sockstat_word_at(v@, from as int) is None,
{
    let a = skip_run(CharClass::Space, v, from);
    let w: usize = if tag_at_exec(v, a, "inuse") {
        proof {
            reveal_strlit("inuse");
        }
        5
    } else if tag_at_exec(v, a, "orphan") {
        proof {
            reveal_strlit("orphan");
        }
        6
    } else if tag_at_exec(v, a, "tw") {
        proof {
            reveal_strlit("tw");
        }
        2
    } else if tag_at_exec(v, a, "alloc") {
        proof {
            reveal_strlit("alloc");
        }
        5
    } else if tag_at_exec(v, a, "mem") {
        proof {
            reveal_strlit("mem");
        }
        3
    } else {
        0
    };
    if a == from || w == 0 {
        return None;
    }
    let c = skip_run(CharClass::Space, v, a + w);
    if c == a + w {
        None
    } else {
        Some(c)
    }
}

/// `n` pairs of a word and a number (see `sockstat_word_at`) from position
/// `i` on: the numbers and where the last one ends.
pub open spec fn sockstat_values(s: Seq<char>, i: int, n: nat) -> Option<(Seq<u64>, int)>
    decreases n,
{
    if n == 0 {
        Some((Seq::empty(), i))
    } else {
        match sockstat_word_at(s, i) {
            None => None,
            Some(c) => match u64_at(s, c) {
                None => None,
                Some((x, e)) => match sockstat_values(s, e, (n - 1) as nat) {
                    None => None,
                    Some((rest, end)) => Some((seq![x] + rest, end)),
                },
            },
        }
    }
}

pub open spec fn prepend_values(a: Seq<u64>, o: Option<(Seq<u64>, int)>) -> Option<(Seq<u64>, int)> {
    match o {
        Some((rest, end)) => Some((a + rest, end)),
        None => None,
    }
}

/// A `TCP:` or `UDP:` line of `/proc/net/sockstat` from position `i`, with
/// `n` pairs, ended by at least one of `' '`, `'\t'`, `'\r'`, `'\n'`: the
/// numbers and where the line ends.
pub open spec fn sockstat_line_at(s: Seq<char>, i: int, n: nat) -> Option<(Seq<u64>, int)> {
    if tag_at(s, i, "TCP:"@) || tag_at(s, i, "UDP:"@) {
        match sockstat_values(s, i + 4, n) {
            None => None,
            Some((vals, e)) => {
                let m = run_end(CharClass::Multispace, s, e);
                if m > e {
                    Some((vals, m))
                } else {
                    None
                }
            },
        }
    } else {
        None
    }
}

fn parse_sockstat_line_at(v: &Vec<char>, from: usize, n: usize) -> (r: Option<(Vec<u64>, usize)>)
    requires
        from <= v.len(),
    ensures
        r matches Some((vals, e)) ==> e <= v.len() && sockstat_line_at(v@, from as int, n as nat)
            == Some((vals@, e as int)),
        r is None ==> sockstat_line_at(v@, from as int, n as nat) is None,
{
    if !(tag_at_exec(v, from, "TCP:") || tag_at_exec(v, from, "UDP:")) {
        return None;
    }
    proof {
        reveal_strlit("TCP:");
        reveal_strlit("UDP:");
    }
    let start = from + 4;
    let mut acc: Vec<u64> = Vec::new();
    let mut i = start;
    let mut k: usize = 0;
    while k < n
        invariant
            start <= i <= v.len(),
            start == from + 4,
            tag_at(v@, from as int, "TCP:"@) || tag_at(v@, from as int, "UDP:"@),
            0 <= k <= n,
            sockstat_values(v@, start as int, n as nat) == prepend_values(
                acc@,
                sockstat_values(v@, i as int, (n - k) as nat),
            ),
        decreases n - k,
    {
        let c = match parse_sockstat_word_at(v, i) {
            Some(c) => c,
            None => {
                return None;
            },
        };
        match parse_u64_at(v, c) {
            None => {
                return None;
            },
            Some((x, e)) => {
                proof {
                    match sockstat_values(v@, e as int, (n - k - 1) as nat) {
                        Some((rest, end)) => {
                            assert(acc@ + (seq![x] + rest) =~= acc@.push(x) + rest);
                        },
                        None => {},
                    }
                }
                acc.push(x);
                i = e;
            },
        }
        k = k + 1;
    }
    assert(acc@ + Seq::<u64>::empty() =~= acc@);
    let m = skip_run(CharClass::Multispace, v, i);
    if m > i {
        Some((acc, m))
    } else {
        None
    }
}

/// The contents of `/proc/net/sockstat`: a `sockets: used <n>` line, a line
/// with five pairs and a line with two. Gives the sockets in use, the
/// first three numbers of the second line (TCP in use, orphaned, in
/// time-wait) and the first of the third (UDP in use).
pub open spec fn sockstat(s: Seq<char>) -> Option<Seq<u64>> {
    if tag_at(s, 0, "sockets: used "@) {
        match u64_at(s, 14) {
            None => None,
            Some((sockets, e1)) => {
                let e2 = run_end(CharClass::Multispace, s, e1);
                if e2 == e1 {
                    None
                } else {
                    match sockstat_line_at(s, e2, 5) {
                        None => None,
                        Some((tcp, e3)) => match sockstat_line_at(s, e3, 2) {
                            None => None,
                            Some((udp, _)) => Some(seq![sockets, tcp[0], tcp[1], tcp[2], udp[0]]),
                        },
                    }
                }
            },
        }
    } else {
        None
    }
}

/// Parses the contents of `/proc/net/sockstat` (see `sockstat`).
pub fn parse_sockstat(input: &str) -> (r: Option<Vec<u64>>)
    ensures
        r matches Some(x) ==> sockstat(input@) == Some(x@),
        r is None ==> sockstat(input@) is None,
{
    let v = chars_of(input);
    if !tag_at_exec(&v, 0, "sockets: used ") {
        return None;
    }
    proof {
        reveal_strlit("sockets: used ");
    }
    let (sockets, e1) = match parse_u64_at(&v, 14) {
        Some(p) => p,
        None => {
            return None;
        },
    };
    let e2 = skip_run(CharClass::Multispace, &v, e1);
    if e2 == e1 {
        return None;
    }
    let (tcp, e3) = match parse_sockstat_line_at(&v, e2, 5) {
        Some(p) => p,
        None => {
            return None;
        },
    };
    let (udp, _) = match parse_sockstat_line_at(&v, e3, 2) {
        Some(p) => p,
        None => {
            return None;
        },
    };
    proof {
        lemma_sockstat_values_len(v@, e2 + 4, 5);
        lemma_sockstat_values_len(v@, e3 + 4, 2);
    }
    let r = vec![sockets, tcp[0], tcp[1], tcp[2], udp[0]];
    assert(r@ =~= seq![sockets, tcp@[0], tcp@[1], tcp@[2], udp@[0]]);
    Some(r)
}

proof fn lemma_sockstat_values_len(s: Seq<char>, i: int, n: nat)
    ensures
        sockstat_values(s, i, n) matches Some((vals, _)) ==> vals.len() == n,
    decreases n,
{
    if n > 0 {
        match sockstat_word_at(s, i) {
            None => {},
            Some(c) => match u64_at(s, c) {
                None => {},
                Some((x, e)) => {
                    lemma_sockstat_values_len(s, e, (n - 1) as nat);
                },
            },
        }
    }
}

/// The name of the `k`-th counter of a line of `/proc/net/dev`.
pub open spec fn net_stat_name(k: int) -> Seq<char> {
    if k == 0 {
        "bytes_per_second/rx"@
    } else if k == 1 {
        "packets_per_second/rx"@
    } else if k == 2 {
        "errors_per_second/rx"@
    } else if k == 3 {
        "dropped_per_second/rx"@
    } else if k == 4 {
        "fifo/rx"@
    } else if k == 5 {
        "frame/rx"@
    } else if k == 6 {
        "compressed/rx"@
    } else if k == 7 {
        "multicast/rx"@
    } else if k == 8 {
        "bytes_per_second/tx"@
    } else if k == 9 {
        "packets_per_second/tx"@
    } else if k == 10 {
        "errors_per_second/tx"@
    } else if k == 11 {
        "dropped_per_second/tx"@
    } else if k == 12 {
        "fifo/tx"@
    } else if k == 13 {
        "colls/tx"@
    } else if k == 14 {
        "carrier/tx"@
    } else {
        "compressed/tx"@
    }
}

fn net_stat_name_exec(k: usize) -> (r: &'static str)
    requires
        k < 16,
    ensures
        r@ == net_stat_name(k as int),
{
    match k {
        0 => "bytes_per_second/rx",
        1 => "packets_per_second/rx",
        2 => "errors_per_second/rx",
        3 => "dropped_per_second/rx",
        4 => "fifo/rx",
        5 => "frame/rx",
        6 => "compressed/rx",
        7 => "multicast/rx",
        8 => "bytes_per_second/tx",
        9 => "packets_per_second/tx",
        10 => "errors_per_second/tx",
        11 => "dropped_per_second/tx",
        12 => "fifo/tx",
        13 => "colls/tx",
        14 => "carrier/tx",
        _ => "compressed/tx",
    }
}

/// The counters that are reported as rates: bytes, packets, errors and
/// drops, received and sent.
pub open spec fn net_stat_reported(k: int) -> bool {
    (0 <= k < 4) || (8 <= k < 12)
}

/// A reading of an interface: a counter's growth since the previous
/// reading, which the caller turns into a rate over the time between the
/// two, or the bytes moved since the previous reading.
pub enum NetReading {
    Rate { key: MetricStringKey, delta: u64 },
    Counter { key: MetricStringKey, value: u64 },
}

pub enum NetReadingView {
    Rate(Seq<char>, u64),
    Counter(Seq<char>, u64),
}

impl View for NetReading {
    type V = NetReadingView;

    open spec fn view(&self) -> NetReadingView {
        match self {
            NetReading::Rate { key, delta } => NetReadingView::Rate(key@, *delta),
            NetReading::Counter { key, value } => NetReadingView::Counter(key@, *value),
        }
    }
}

pub open spec fn net_readings_view(rs: Seq<NetReading>) -> Seq<NetReadingView> {
    rs.map_values(|r: NetReading| r@)
}

/// Why an interface gave no readings.
#[derive(Clone, Copy, Debug, PartialEq, Eq, Structural)]
pub enum NetMetricsError {
    /// A reading lacks the bytes received or sent.
    MissingValue,
    /// A key built from the interface's name is not a valid metric key.
    InvalidKey,
}

/// The text of the key `<namespace>/<interface>/<suffix>`.
pub open spec fn net_key_text(namespace: Seq<char>, interface: Seq<char>, suffix: Seq<char>) -> Seq<
    char,
> {
    namespace + "/"@ + interface + "/"@ + suffix
}

fn net_metric_key(namespace: &str, interface: &str, suffix: &str) -> (r: Result<
    MetricStringKey,
    NetMetricsError,
>)
    ensures
        r is Ok <==> key_chars_valid(net_key_text(namespace@, interface@, suffix@)),
        r matches Ok(k) ==> k@ == without_nul(net_key_text(namespace@, interface@, suffix@)),
        r is Err ==> r == Err::<MetricStringKey, NetMetricsError>(NetMetricsError::InvalidKey),
{
    let mut text = String::new();
    text.append(namespace);
    text.append("/");
    text.append(interface);
    text.append("/");
    text.append(suffix);
    match MetricStringKey::from_str(text.as_str()) {
        Ok(k) => Ok(k),
        Err(_) => Err(NetMetricsError::InvalidKey),
    }
}

pub open spec fn if_key_ok(interface: Seq<char>, suffix: Seq<char>) -> bool {
    key_chars_valid(net_key_text("interface"@, interface, suffix))
}

pub open spec fn if_key_of(interface: Seq<char>, suffix: Seq<char>) -> Seq<char> {
    without_nul(net_key_text("interface"@, interface, suffix))
}

/// The rate readings of the first `k` counters.
pub open spec fn rate_readings(interface: Seq<char>, prev: Seq<u64>, cur: Seq<u64>, k: nat) -> Result<
    Seq<NetReadingView>,
    NetMetricsError,
>
    decreases k,
{
    if k == 0 {
        Ok(Seq::empty())
    } else {
        let j = k - 1;
        match rate_readings(interface, prev, cur, j as nat) {
            Err(e) => Err(e),
            Ok(acc) => if net_stat_reported(j) && cur[j] >= prev[j] {
                if if_key_ok(interface, net_stat_name(j)) {
                    Ok(
                        acc.push(
                            NetReadingView::Rate(
                                if_key_of(interface, net_stat_name(j)),
                                (cur[j] - prev[j]) as u64,
                            ),
                        ),
                    )
                } else {
                    Err(NetMetricsError::InvalidKey)
                }
            } else {
                Ok(acc)
            },
        }
    }
}

proof fn lemma_rate_err_persists(interface: Seq<char>, prev: Seq<u64>, cur: Seq<u64>, j: nat, m: nat)
    requires
        j <= m,
        rate_readings(interface, prev, cur, j) is Err,
    ensures
        rate_readings(interface, prev, cur, m) == rate_readings(interface, prev, cur, j),
    decreases m - j,
{
    if j < m {
        lemma_rate_err_persists(interface, prev, cur, j, (m - 1) as nat);
    }
}

/// The bytes moved since the previous reading, sent then received, where
/// the counter did not go down.
pub open spec fn total_bytes_readings(interface: Seq<char>, prev: Seq<u64>, cur: Seq<u64>) -> Seq<
    NetReadingView,
> {
    (if cur[8] >= prev[8] {
        seq![
            NetReadingView::Counter(if_key_of(interface, "total_bytes/tx"@), (cur[8] - prev[8]) as u64),
        ]
    } else {
        Seq::empty()
    }) + (if cur[0] >= prev[0] {
        seq![
            NetReadingView::Counter(if_key_of(interface, "total_bytes/rx"@), (cur[0] - prev[0]) as u64),
        ]
    } else {
        Seq::empty()
    })
}

/// The readings of an interface from two successive lines of
/// `/proc/net/dev`: the growth of each reported counter that did not go
/// down, in the order of the line, then the total bytes sent and received.
pub open spec fn net_interface_readings(interface: Seq<char>, prev: Seq<u64>, cur: Seq<u64>) -> Result<
    Seq<NetReadingView>,
    NetMetricsError,
> {
    if cur.len() < 9 || prev.len() < 9 {
        Err(NetMetricsError::MissingValue)
    } else if !if_key_ok(interface, "total_bytes/rx"@) || !if_key_ok(interface, "total_bytes/tx"@) {
        Err(NetMetricsError::InvalidKey)
    } else {
        let n = if cur.len() < prev.len() {
            cur.len()
        } else {
            prev.len()
        };
        let n = if n < 16 {
            n
        } else {
            16
        };
        match rate_readings(interface, prev, cur, n) {
            Err(e) => Err(e),
            Ok(rates) => Ok(rates + total_bytes_readings(interface, prev, cur)),
        }
    }
}

/// The readings of `interface` from its previous and its current counters
/// (see `net_interface_readings`).
pub fn network_interface_readings(interface: &str, previous: &Vec<u64>, current: &Vec<u64>) -> (r:
    Result<Vec<NetReading>, NetMetricsError>)
    ensures
        r matches Ok(v) ==> net_interface_readings(interface@, previous@, current@) == Ok::<
            Seq<NetReadingView>,
            NetMetricsError,
        >(net_readings_view(v@)),
        r matches Err(e) ==> net_interface_readings(interface@, previous@, current@) == Err::<
            Seq<NetReadingView>,
            NetMetricsError,
        >(e),
{
    if current.len() < 9 || previous.len() < 9 {
        return Err(NetMetricsError::MissingValue);
    }
    let rx_key = match net_metric_key(NETWORK_INTERFACE_METRIC_NAMESPACE, interface, "total_bytes/rx") {
        Ok(k) => k,
        Err(e) => {
            return Err(e);
        },
    };
    let tx_key = match net_metric_key(NETWORK_INTERFACE_METRIC_NAMESPACE, interface, "total_bytes/tx") {
        Ok(k) => k,
        Err(e) => {
            return Err(e);
        },
    };
    let n = if current.len() < previous.len() {
        current.len()
    } else {
        previous.len()
    };
    let n = if n < 16 {
        n
    } else {
        16
    };
    let mut readings: Vec<NetReading> = Vec::new();
    assert(net_readings_view(readings@) =~= Seq::empty());
    let mut k: usize = 0;
    while k < n
        invariant
            0 <= k <= n <= 16,
            n <= current@.len(),
            n <= previous@.len(),
            current@.len() >= 9 && previous@.len() >= 9,
            n == (if (if current@.len() < previous@.len() {
                current@.len()
            } else {
                previous@.len()
            }) < 16 {
                if current@.len() < previous@.len() {
                    current@.len()
                } else {
                    previous@.len()
                }
            } else {
                16
            }),
            if_key_ok(interface@, "total_bytes/rx"@),
            if_key_ok(interface@, "total_bytes/tx"@),
            rx_key@ == if_key_of(interface@, "total_bytes/rx"@),
            tx_key@ == if_key_of(interface@, "total_bytes/tx"@),
            rate_readings(interface@, previous@, current@, k as nat) == Ok::<
                Seq<NetReadingView>,
                NetMetricsError,
            >(net_readings_view(readings@)),
        decreases n - k,
    {
        let ghost before = net_readings_view(readings@);
        if ((k < 4) || (8 <= k && k < 12)) && current[k] >= previous[k] {
            let key = match net_metric_key(NETWORK_INTERFACE_METRIC_NAMESPACE, interface, net_stat_name_exec(k)) {
                Ok(key) => key,
                Err(e) => {
                    proof {
                        lemma_rate_err_persists(interface@, previous@, current@, (k + 1) as nat, n as nat);
                    }
                    return Err(e);
                },
            };
            readings.push(NetReading::Rate { key, delta: current[k] - previous[k] });
            assert(net_readings_view(readings@) =~= before.push(
                NetReadingView::Rate(
                    if_key_of(interface@, net_stat_name(k as int)),
                    (current@[k as int] - previous@[k as int]) as u64,
                ),
            ));
        }
        k = k + 1;
    }
    let ghost rates = net_readings_view(readings@);
    if current[8] >= previous[8] {
        readings.push(NetReading::Counter { key: tx_key, value: current[8] - previous[8] });
    }
    if current[0] >= previous[0] {
        readings.push(NetReading::Counter { key: rx_key, value: current[0] - previous[0] });
    }
    assert(net_readings_view(readings@) =~= rates + total_bytes_readings(
        interface@,
        previous@,
        current@,
    ));
    Ok(readings)
}

pub const SOCKETS_TCP_INUSE_KEY: &'static str = "net/sockets/tcp_inuse";

pub const SOCKETS_INUSE_KEY: &'static str = "net/sockets/sockets_inuse";

pub const SOCKETS_TCP_TW_KEY: &'static str = "net/sockets/tcp_tw";

pub const SOCKETS_TCP_ORPHAN_KEY: &'static str = "net/sockets/tcp_orphan";

pub const SOCKETS_UDP_INUSE_KEY: &'static str = "net/sockets/udp_inuse";

/// The socket counts of `/proc/net/sockstat` under their keys, in the order
/// TCP in use, sockets in use, TCP in time-wait, TCP orphaned, UDP in use.
pub fn socket_count_readings(sockstat_contents: &str) -> (r: Option<Vec<(MetricStringKey, u64)>>)
    ensures
        sockstat(sockstat_contents@) is None ==> r is None,
        sockstat(sockstat_contents@) matches Some(x) ==> r matches Some(v) && v@.len() == 5 && v@[0].0@
            == SOCKETS_TCP_INUSE_KEY@ && v@[0].1 == x[1] && v@[1].0@ == SOCKETS_INUSE_KEY@ && v@[1].1
            == x[0] && v@[2].0@ == SOCKETS_TCP_TW_KEY@ && v@[2].1 == x[3] && v@[3].0@
            == SOCKETS_TCP_ORPHAN_KEY@ && v@[3].1 == x[2] && v@[4].0@ == SOCKETS_UDP_INUSE_KEY@
            && v@[4].1 == x[4],
{
    match parse_sockstat(sockstat_contents) {
        Some(x) => {
            assert(x@.len() == 5);
            Some(
                vec![
                    (MetricStringKey::from(SOCKETS_TCP_INUSE_KEY), x[1]),
                    (MetricStringKey::from(SOCKETS_INUSE_KEY), x[0]),
                    (MetricStringKey::from(SOCKETS_TCP_TW_KEY), x[3]),
                    (MetricStringKey::from(SOCKETS_TCP_ORPHAN_KEY), x[2]),
                    (MetricStringKey::from(SOCKETS_UDP_INUSE_KEY), x[4]),
                ],
            )
        },
        None => None,
    }
}

/// The key of the signal level of a wireless interface:
/// `interfaces/<interface>/rssi`.
pub fn rssi_key(interface: &str) -> (r: Option<MetricStringKey>)
    ensures
        r is Some <==> key_chars_valid(net_key_text("interfaces"@, interface@, "rssi"@)),
        r matches Some(k) ==> k@ == without_nul(net_key_text("interfaces"@, interface@, "rssi"@)),
{
    match net_metric_key("interfaces", interface, "rssi") {
        Ok(k) => Some(k),
        Err(_) => None,
    }
}

/// A number as `/proc/net/sockstat` writes it: decimal digits, at most
/// `u64::MAX`.
pub open spec fn is_number_text(d: Seq<char>) -> bool {
    &&& d.len() > 0
    &&& forall|k: int| 0 <= k < d.len() ==> is_ascii_digit_char(#[trigger] d[k])
    &&& dec_value(d) <= u64::MAX
}

/// The text of `/proc/net/sockstat` with the numbers `d` (as the kernel
/// writes it: sockets in use; TCP in use, orphaned, in time-wait,
/// allocated, memory; UDP in use, memory) and the further lines `rest`.
pub open spec fn sockstat_text(d: Seq<Seq<char>>, rest: Seq<char>) -> Seq<char> {
    "sockets: used "@ + (d[0] + ("\nTCP:"@ + sockstat_tcp_pairs(d, "\nUDP:"@ + sockstat_udp_pairs(d, rest))))
}

/// The pairs of the `TCP:` line of `sockstat_text`, then `after`.
pub open spec fn sockstat_tcp_pairs(d: Seq<Seq<char>>, after: Seq<char>) -> Seq<char> {
    then_number(
        " inuse "@,
        d[1],
        then_number(
            " orphan "@,
            d[2],
            then_number(" tw "@, d[3], then_number(" alloc "@, d[4], then_number(" mem "@, d[5], after))),
        ),
    )
}

/// The pairs of the `UDP:` line of `sockstat_text`, its line break and the
/// further lines `rest`.
pub open spec fn sockstat_udp_pairs(d: Seq<Seq<char>>, rest: Seq<char>) -> Seq<char> {
    then_number(" inuse "@, d[6], then_number(" mem "@, d[7], "\n"@ + rest))
}

/// A word of a line and the number that follows it, then `after`.
pub open spec fn then_number(word: Seq<char>, number: Seq<char>, after: Seq<char>) -> Seq<char> {
    word + (number + after)
}

proof fn lemma_tail_tag(s: Seq<char>, i: int, t: Seq<char>, r: Seq<char>)
    requires
        0 <= i <= s.len(),
        s.skip(i) == t + r,
    ensures
        tag_at(s, i, t),
        s.skip(i + t.len()) == r,
{
    assert(s.skip(i).len() == t.len() + r.len());
    assert forall|k: int| 0 <= k < t.len() implies s.subrange(i, i + t.len())[k] == t[k] by {
        assert(s.skip(i)[k] == s[i + k]);
        assert((t + r)[k] == t[k]);
    }
    assert(s.subrange(i, i + t.len()) =~= t);
    assert forall|k: int| 0 <= k < r.len() implies s.skip(i + t.len())[k] == r[k] by {
        assert(s.skip(i)[t.len() + k] == s[i + t.len() + k]);
        assert((t + r)[t.len() + k] == r[k]);
    }
    assert(s.skip(i + t.len()) =~= r);
}

proof fn lemma_tail_run(k: CharClass, s: Seq<char>, i: int, a: Seq<char>, r: Seq<char>)
    requires
        0 <= i <= s.len(),
        s.skip(i) == a + r,
        forall|j: int| 0 <= j < a.len() ==> in_class(k, #[trigger] a[j]),
        r.len() == 0 || !in_class(k, r[0]),
    ensures
        run_end(k, s, i) == i + a.len(),
        s.skip(i + a.len()) == r,
{
    let t = a + r;
    assert forall|j: int| 0 <= j < a.len() implies in_class(k, #[trigger] t[j]) by {
        assert(t[j] == a[j]);
    }
    if a.len() < t.len() {
        assert(t[a.len() as int] == r[0]);
    }
    lemma_run_len_exact(k, t, a.len() as int);
    lemma_tail_tag(s, i, a, r);
}

proof fn lemma_tail_number(s: Seq<char>, i: int, dg: Seq<char>, r: Seq<char>)
    requires
        0 <= i <= s.len(),
        s.skip(i) == dg + r,
        is_number_text(dg),
        r.len() == 0 || !is_ascii_digit_char(r[0]),
    ensures
        u64_at(s, i) == Some((dec_value(dg) as u64, i + dg.len())),
        s.skip(i + dg.len()) == r,
{
    assert forall|j: int| 0 <= j < dg.len() implies in_class(CharClass::Digit, #[trigger] dg[j]) by {
        assert(is_ascii_digit_char(dg[j]));
    }
    lemma_tail_run(CharClass::Digit, s, i, dg, r);
    lemma_tail_tag(s, i, dg, r);
}

/// A word of a `TCP:` or `UDP:` line, written with a space on each side,
/// and its number, at position `i`.
proof fn lemma_sockstat_pair(s: Seq<char>, i: int, w: Seq<char>, dg: Seq<char>, r: Seq<char>)
    requires
        0 <= i <= s.len(),
        s.skip(i) == then_number(" "@ + w + " "@, dg, r),
        w == "inuse"@ || w == "orphan"@ || w == "tw"@ || w == "alloc"@ || w == "mem"@,
        is_number_text(dg),
        r.len() == 0 || !is_ascii_digit_char(r[0]),
    ensures
        sockstat_values(s, i, 1) == Some((seq![dec_value(dg) as u64], i + w.len() + 2 + dg.len())),
        s.skip(i + w.len() + 2 + dg.len()) == r,
{
    reveal_strlit(" ");
    reveal_strlit("inuse");
    reveal_strlit("orphan");
    reveal_strlit("tw");
    reveal_strlit("alloc");
    reveal_strlit("mem");
    let t1 = w + (" "@ + (dg + r));
    assert(s.skip(i) =~= " "@ + t1);
    assert(t1[0] == w[0]);
    lemma_tail_run(CharClass::Space, s, i, " "@, t1);
    let a = i + 1;
    lemma_tail_tag(s, a, w, " "@ + (dg + r));
    assert(s.skip(a)[0] == s[a]);
    assert(s[a] == w[0]);
    if tag_at(s, a, "inuse"@) {
        assert(s.subrange(a, a + 5)[0] == s[a]);
    }
    if tag_at(s, a, "orphan"@) {
        assert(s.subrange(a, a + 6)[0] == s[a]);
    }
    if tag_at(s, a, "tw"@) {
        assert(s.subrange(a, a + 2)[0] == s[a]);
    }
    if tag_at(s, a, "alloc"@) {
        assert(s.subrange(a, a + 5)[0] == s[a]);
    }
    assert((dg + r)[0] == dg[0]);
    assert(is_ascii_digit_char(dg[0]));
    lemma_tail_run(CharClass::Space, s, a + w.len(), " "@, dg + r);
    lemma_tail_number(s, a + w.len() + 1, dg, r);
    let e = a + w.len() + 1 + dg.len();
    assert(sockstat_word_at(s, i) == Some(a + w.len() + 1));
    assert(sockstat_values(s, e, 0) == Some((Seq::<u64>::empty(), e)));
    assert(seq![dec_value(dg) as u64] + Seq::<u64>::empty() =~= seq![dec_value(dg) as u64]);
}

proof fn lemma_values_append(s: Seq<char>, i: int, m: int, n: nat, a: Seq<u64>, b: Seq<u64>, e: int)
    requires
        n > 0,
        sockstat_values(s, i, 1) == Some((a, m)),
        sockstat_values(s, m, (n - 1) as nat) == Some((b, e)),
    ensures
        sockstat_values(s, i, n) == Some((a + b, e)),
{
    let c = sockstat_word_at(s, i)->Some_0;
    let (x, e1) = u64_at(s, c)->Some_0;
    assert(sockstat_values(s, e1, 0) == Some((Seq::<u64>::empty(), e1)));
    assert(a =~= seq![x]);
}

/// The pieces of `sockstat_text` are pairs of a word and a number.
proof fn lemma_word_pieces()
    ensures
        " inuse "@ == " "@ + "inuse"@ + " "@,
        " orphan "@ == " "@ + "orphan"@ + " "@,
        " tw "@ == " "@ + "tw"@ + " "@,
        " alloc "@ == " "@ + "alloc"@ + " "@,
        " mem "@ == " "@ + "mem"@ + " "@,
{
    reveal_strlit(" inuse ");
    reveal_strlit(" orphan ");
    reveal_strlit(" tw ");
    reveal_strlit(" alloc ");
    reveal_strlit(" mem ");
    reveal_strlit(" ");
    reveal_strlit("inuse");
    reveal_strlit("orphan");
    reveal_strlit("tw");
    reveal_strlit("alloc");
    reveal_strlit("mem");
    assert(" inuse "@ =~= " "@ + "inuse"@ + " "@);
    assert(" orphan "@ =~= " "@ + "orphan"@ + " "@);
    assert(" tw "@ =~= " "@ + "tw"@ + " "@);
    assert(" alloc "@ =~= " "@ + "alloc"@ + " "@);
    assert(" mem "@ =~= " "@ + "mem"@ + " "@);
}

/// The five pairs of the `TCP:` line give their numbers in order.
proof fn lemma_tcp_pairs(s: Seq<char>, i: int, d: Seq<Seq<char>>, after: Seq<char>)
    requires
        0 <= i <= s.len(),
        d.len() == 8,
        forall|k: int| 0 <= k < 8 ==> is_number_text(#[trigger] d[k]),
        after.len() > 0 && after[0] == '\n',
        s.skip(i) == sockstat_tcp_pairs(d, after),
    ensures
        sockstat_values(s, i, 5) matches Some((vals, e)) && vals == seq![
            dec_value(d[1]) as u64,
            dec_value(d[2]) as u64,
            dec_value(d[3]) as u64,
            dec_value(d[4]) as u64,
            dec_value(d[5]) as u64,
        ] && i <= e <= s.len() && s.skip(e) == after,
{
    reveal_strlit("inuse");
    reveal_strlit("orphan");
    reveal_strlit("tw");
    reveal_strlit("alloc");
    reveal_strlit("mem");
    lemma_word_pieces();
    let v = |k: int| dec_value(d[k]) as u64;
    assert(is_number_text(d[1]) && is_number_text(d[2]) && is_number_text(d[3]));
    assert(is_number_text(d[4]) && is_number_text(d[5]));
    let r5 = after;
    let r4 = then_number(" mem "@, d[5], r5);
    let r3 = then_number(" alloc "@, d[4], r4);
    let r2 = then_number(" tw "@, d[3], r3);
    let r1 = then_number(" orphan "@, d[2], r2);
    assert(r1[0] == ' ' && r2[0] == ' ' && r3[0] == ' ' && r4[0] == ' ') by {
        reveal_strlit(" orphan ");
        reveal_strlit(" tw ");
        reveal_strlit(" alloc ");
        reveal_strlit(" mem ");
    }
    lemma_sockstat_pair(s, i, "inuse"@, d[1], r1);
    let i2 = i + 7 + d[1].len();
    lemma_sockstat_pair(s, i2, "orphan"@, d[2], r2);
    let i3 = i2 + 8 + d[2].len();
    lemma_sockstat_pair(s, i3, "tw"@, d[3], r3);
    let i4 = i3 + 4 + d[3].len();
    lemma_sockstat_pair(s, i4, "alloc"@, d[4], r4);
    let i5 = i4 + 7 + d[4].len();
    lemma_sockstat_pair(s, i5, "mem"@, d[5], r5);
    let e = i5 + 5 + d[5].len();
    assert(sockstat_values(s, e, 0) == Some((Seq::<u64>::empty(), e)));
    lemma_values_append(s, i5, e, 1, seq![v(5)], Seq::empty(), e);
    lemma_values_append(s, i4, i5, 2, seq![v(4)], seq![v(5)] + Seq::empty(), e);
    lemma_values_append(s, i3, i4, 3, seq![v(3)], seq![v(4)] + (seq![v(5)] + Seq::empty()), e);
    lemma_values_append(s, i2, i3, 4, seq![v(2)], seq![v(3)] + (seq![v(4)] + (seq![v(5)] + Seq::empty())), e);
    lemma_values_append(s, i, i2, 5, seq![v(1)], seq![v(2)] + (seq![v(3)] + (seq![v(4)] + (seq![v(5)] + Seq::empty()))), e);
    assert(seq![v(1)] + (seq![v(2)] + (seq![v(3)] + (seq![v(4)] + (seq![v(5)] + Seq::<u64>::empty())))) =~= seq![v(1), v(2), v(3), v(4), v(5)]);
}

/// The two pairs of the `UDP:` line give their numbers in order.
proof fn lemma_udp_pairs(s: Seq<char>, i: int, d: Seq<Seq<char>>, after: Seq<char>)
    requires
        0 <= i <= s.len(),
        d.len() == 8,
        forall|k: int| 0 <= k < 8 ==> is_number_text(#[trigger] d[k]),
        after.len() > 0 && after[0] == '\n',
        s.skip(i) == then_number(" inuse "@, d[6], then_number(" mem "@, d[7], after)),
    ensures
        sockstat_values(s, i, 2) matches Some((vals, e)) && vals == seq![
            dec_value(d[6]) as u64,
            dec_value(d[7]) as u64,
        ] && i <= e <= s.len() && s.skip(e) == after,
{
    reveal_strlit("inuse");
    reveal_strlit("orphan");
    reveal_strlit("tw");
    reveal_strlit("alloc");
    reveal_strlit("mem");
    lemma_word_pieces();
    let v = |k: int| dec_value(d[k]) as u64;
    assert(is_number_text(d[6]) && is_number_text(d[7]));
    let r2 = after;
    let r1 = then_number(" mem "@, d[7], r2);
    assert(r1[0] == ' ') by {
        reveal_strlit(" mem ");
    }
    lemma_sockstat_pair(s, i, "inuse"@, d[6], r1);
    let i2 = i + 7 + d[6].len();
    lemma_sockstat_pair(s, i2, "mem"@, d[7], r2);
    let e = i2 + 5 + d[7].len();
    assert(sockstat_values(s, e, 0) == Some((Seq::<u64>::empty(), e)));
    lemma_values_append(s, i2, e, 1, seq![v(7)], Seq::empty(), e);
    lemma_values_append(s, i, i2, 2, seq![v(6)], seq![v(7)] + Seq::empty(), e);
    assert(seq![v(6)] + (seq![v(7)] + Seq::<u64>::empty()) =~= seq![v(6), v(7)]);
}

/// The first line, `sockets: used <n>`, then `tail`.
proof fn lemma_sockets_line(s: Seq<char>, d0: Seq<char>, tail: Seq<char>)
    requires
        s == "sockets: used "@ + (d0 + tail),
        is_number_text(d0),
        tail.len() > 0 && tail[0] == '\n',
    ensures
        tag_at(s, 0, "sockets: used "@),
        u64_at(s, 14) == Some((dec_value(d0) as u64, 14 + d0.len() as int)),
        s.skip(14 + d0.len() as int) == tail,
        14 + d0.len() <= s.len(),
{
    reveal_strlit("sockets: used ");
    assert(s.skip(0) =~= s);
    lemma_tail_tag(s, 0, "sockets: used "@, d0 + tail);
    lemma_tail_number(s, 14, d0, tail);
}

/// A line break, then a line that starts with `tag` (`TCP:` or `UDP:`).
proof fn lemma_line_start(s: Seq<char>, i: int, tag: Seq<char>, t: Seq<char>)
    requires
        0 <= i <= s.len(),
        s.skip(i) == ("\n"@ + tag) + t,
        tag == "TCP:"@ || tag == "UDP:"@,
    ensures
        run_end(CharClass::Multispace, s, i) == i + 1,
        tag_at(s, i + 1, tag),
        s.skip(i + 5) == t,
        i + 5 <= s.len(),
{
    reveal_strlit("\n");
    reveal_strlit("TCP:");
    reveal_strlit("UDP:");
    assert(("\n"@ + tag) + t =~= "\n"@ + (tag + t));
    assert((tag + t)[0] == tag[0]);
    lemma_tail_run(CharClass::Multispace, s, i, "\n"@, tag + t);
    lemma_tail_tag(s, i + 1, tag, t);
}

/// `sockstat` from where its lines and numbers were found.
proof fn lemma_sockstat_of_parts(
    s: Seq<char>,
    d: Seq<Seq<char>>,
    sockets: u64,
    e1: int,
    tcp: Seq<u64>,
    e: int,
    udp: Seq<u64>,
    f: int,
)
    requires
        d.len() == 8,
        sockets == dec_value(d[0]) as u64,
        tcp == seq![
            dec_value(d[1]) as u64,
            dec_value(d[2]) as u64,
            dec_value(d[3]) as u64,
            dec_value(d[4]) as u64,
            dec_value(d[5]) as u64,
        ],
        udp == seq![dec_value(d[6]) as u64, dec_value(d[7]) as u64],
        tag_at(s, 0, "sockets: used "@),
        u64_at(s, 14) == Some((sockets, e1)),
        run_end(CharClass::Multispace, s, e1) == e1 + 1,
        tag_at(s, e1 + 1, "TCP:"@),
        sockstat_values(s, e1 + 5, 5) == Some((tcp, e)),
        run_end(CharClass::Multispace, s, e) == e + 1,
        tag_at(s, e + 1, "UDP:"@),
        sockstat_values(s, e + 5, 2) == Some((udp, f)),
        0 <= f < s.len(),
        in_class(CharClass::Multispace, s[f]),
    ensures
        sockstat(s) == Some(
            seq![
                dec_value(d[0]) as u64,
                dec_value(d[1]) as u64,
                dec_value(d[2]) as u64,
                dec_value(d[3]) as u64,
                dec_value(d[6]) as u64,
            ],
        ),
{
    reveal_strlit("TCP:");
    reveal_strlit("UDP:");
    assert(s.skip(f)[0] == s[f]);
    assert(run_end(CharClass::Multispace, s, f) > f);
    assert(sockstat_line_at(s, e1 + 1, 5) == Some((tcp, e + 1)));
    assert(sockstat_line_at(s, e + 1, 2) == Some((udp, run_end(CharClass::Multispace, s, f))));
    assert(seq![sockets, tcp[0], tcp[1], tcp[2], udp[0]] =~= seq![
        dec_value(d[0]) as u64,
        dec_value(d[1]) as u64,
        dec_value(d[2]) as u64,
        dec_value(d[3]) as u64,
        dec_value(d[6]) as u64,
    ]);
}

/// The `TCP:` line at `i`, after a line break: its five numbers, and where
/// the next line break is.
proof fn lemma_tcp_section(s: Seq<char>, i: int, d: Seq<Seq<char>>, after: Seq<char>) -> (r: (Seq<u64>, int))
    requires
        0 <= i <= s.len(),
        d.len() == 8,
        forall|k: int| 0 <= k < 8 ==> is_number_text(#[trigger] d[k]),
        after.len() > 0 && after[0] == '\n',
        s.skip(i) == "\nTCP:"@ + sockstat_tcp_pairs(d, after),
    ensures
        run_end(CharClass::Multispace, s, i) == i + 1,
        tag_at(s, i + 1, "TCP:"@),
        sockstat_values(s, i + 5, 5) == Some((r.0, r.1)),
        r.0 == seq![
            dec_value(d[1]) as u64,
            dec_value(d[2]) as u64,
            dec_value(d[3]) as u64,
            dec_value(d[4]) as u64,
            dec_value(d[5]) as u64,
        ],
        i + 5 <= r.1 <= s.len(),
        s.skip(r.1) == after,
{
    assert("\nTCP:"@ == "\n"@ + "TCP:"@) by {
        reveal_strlit("\nTCP:");
        reveal_strlit("\n");
        reveal_strlit("TCP:");
        assert("\nTCP:"@ =~= "\n"@ + "TCP:"@);
    }
    let t1 = sockstat_tcp_pairs(d, after);
    lemma_line_start(s, i, "TCP:"@, t1);
    lemma_tcp_pairs(s, i + 5, d, after);
    sockstat_values(s, i + 5, 5)->Some_0
}

/// The `UDP:` line at `i`, after a line break: its two numbers, and where
/// they end, at a line break.
proof fn lemma_udp_section(s: Seq<char>, i: int, d: Seq<Seq<char>>, rest: Seq<char>) -> (r: (Seq<u64>, int))
    requires
        0 <= i <= s.len(),
        d.len() == 8,
        forall|k: int| 0 <= k < 8 ==> is_number_text(#[trigger] d[k]),
        s.skip(i) == "\nUDP:"@ + sockstat_udp_pairs(d, rest),
    ensures
        run_end(CharClass::Multispace, s, i) == i + 1,
        tag_at(s, i + 1, "UDP:"@),
        sockstat_values(s, i + 5, 2) == Some((r.0, r.1)),
        r.0 == seq![dec_value(d[6]) as u64, dec_value(d[7]) as u64],
        0 <= r.1 < s.len(),
        in_class(CharClass::Multispace, s[r.1]),
{
    assert("\nUDP:"@ == "\n"@ + "UDP:"@ && "\n"@.len() == 1 && "\n"@[0] == '\n') by {
        reveal_strlit("\nUDP:");
        reveal_strlit("\n");
        reveal_strlit("UDP:");
        assert("\nUDP:"@ =~= "\n"@ + "UDP:"@);
    }
    let u8t = "\n"@ + rest;
    assert(u8t[0] == '\n');
    lemma_line_start(s, i, "UDP:"@, sockstat_udp_pairs(d, rest));
    lemma_udp_pairs(s, i + 5, d, u8t);
    let r = sockstat_values(s, i + 5, 2)->Some_0;
    assert(s.skip(r.1) == u8t);
    assert(s.skip(r.1)[0] == s[r.1]);
    r
}

/// The numbers of `/proc/net/sockstat` come out in the order of the text:
/// the sockets in use, then the first three numbers of the `TCP:` line (in
/// use, orphaned, in time-wait: the number after `orphan` is the third and
/// the one after `tw` the fourth), then the first of the `UDP:` line.
pub proof fn law_sockstat_values_in_line_order(d: Seq<Seq<char>>, rest: Seq<char>)
    requires
        d.len() == 8,
        forall|k: int| 0 <= k < 8 ==> is_number_text(#[trigger] d[k]),
    ensures
        sockstat(sockstat_text(d, rest)) == Some(
            seq![
                dec_value(d[0]) as u64,
                dec_value(d[1]) as u64,
                dec_value(d[2]) as u64,
                dec_value(d[3]) as u64,
                dec_value(d[6]) as u64,
            ],
        ),
{
    let s = sockstat_text(d, rest);
    let udp = "\nUDP:"@ + sockstat_udp_pairs(d, rest);
    let tcp = "\nTCP:"@ + sockstat_tcp_pairs(d, udp);
    assert("\nTCP:"@[0] == '\n' && "\nUDP:"@[0] == '\n' && "\nTCP:"@.len() == 5 && "\nUDP:"@.len() == 5) by {
        reveal_strlit("\nTCP:");
        reveal_strlit("\nUDP:");
    }
    assert(is_number_text(d[0]));
    assert(tcp[0] == '\n');
    assert(udp[0] == '\n');
    lemma_sockets_line(s, d[0], tcp);
    let e1: int = 14 + d[0].len() as int;
    let (tcp_vals, e) = lemma_tcp_section(s, e1, d, udp);
    let (udp_vals, f) = lemma_udp_section(s, e, d, rest);
    lemma_sockstat_of_parts(s, d, dec_value(d[0]) as u64, e1, tcp_vals, e, udp_vals, f);
}

} // verus!
