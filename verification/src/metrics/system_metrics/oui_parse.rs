//! Organisationally unique identifiers (OUIs) of the wireless adapters of the
//! device and of the access points they talk to.
use vstd::prelude::*;

use crate::text::{
    ascii_upper, chars_of, is_ascii_hex_char, is_ascii_hexdigit, parse_u64_range,
    parse_unsigned, range_eq_str, split_lines, split_on, split_on_range, split_whitespace_range,
    string_from_range, string_push, text_lines, to_ascii_upper, trim_range, trimmed, ws_tokens,
};

verus! {

pub const SYS_CLASS_NET: &'static str = "/sys/class/net";

pub const PROC_NET_ARP: &'static str = "/proc/net/arp";

/// The OUI of a MAC address `xx:xx:xx:xx:xx:xx`: its first three octets,
/// upper case, separated by colons. Any other shape gives nothing.
pub open spec fn oui_of(mac: Seq<char>) -> Option<Seq<char>> {
    let p = split_on(mac, ':');
    if p.len() == 6 && (forall|k: int|
        0 <= k < 3 ==> (#[trigger] p[k]).len() == 2 && is_ascii_hex_char(p[k][0])
            && is_ascii_hex_char(p[k][1])) {
        Some((p[0] + seq![':'] + p[1] + seq![':'] + p[2]).map_values(|c: char| ascii_upper(c)))
    } else {
        None
    }
}

fn extract_oui_range(v: &Vec<char>, from: usize, to: usize) -> (r: Option<String>)
    requires
        from <= to <= v.len(),
    ensures
        r matches Some(s) ==> oui_of(v@.subrange(from as int, to as int)) == Some(s@),
        r is None ==> oui_of(v@.subrange(from as int, to as int)) is None,
{
    let ghost p = split_on(v@.subrange(from as int, to as int), ':');
    let parts = split_on_range(v, from, to, ':');
    if parts.len() != 6 {
        return None;
    }
    let mut out = String::new();
    let mut k: usize = 0;
    while k < 3
        invariant
            0 <= k <= 3,
            parts@.len() == 6,
            p == split_on(v@.subrange(from as int, to as int), ':'),
            parts@.len() == p.len(),
            from <= to <= v.len(),
            forall|j: int|
                0 <= j < parts@.len() ==> from <= (#[trigger] parts@[j]).0 <= parts@[j].1 <= to
                    && v@.subrange(parts@[j].0 as int, parts@[j].1 as int) == p[j],
            forall|j: int|
                0 <= j < k ==> (#[trigger] p[j]).len() == 2 && is_ascii_hex_char(p[j][0])
                    && is_ascii_hex_char(p[j][1]),
            k == 0 ==> out@.len() == 0,
            k == 1 ==> out@ == p[0].map_values(|c: char| ascii_upper(c)),
            k == 2 ==> out@ == (p[0] + seq![':'] + p[1]).map_values(|c: char| ascii_upper(c)),
            k == 3 ==> out@ == (p[0] + seq![':'] + p[1] + seq![':'] + p[2]).map_values(
                |c: char| ascii_upper(c),
            ),
        decreases 3 - k,
    {
        let (a, b) = parts[k];
        assert(v@.subrange(a as int, b as int) == p[k as int]);
        if b - a != 2 {
            return None;
        }
        let c0 = v[a];
        let c1 = v[a + 1];
        assert(p[k as int][0] == c0 && p[k as int][1] == c1);
        if !is_ascii_hexdigit(c0) || !is_ascii_hexdigit(c1) {
            return None;
        }
        let ghost before = out@;
        if k > 0 {
            string_push(&mut out, ':');
        }
        string_push(&mut out, to_ascii_upper(c0));
        string_push(&mut out, to_ascii_upper(c1));
        proof {
            let pk = p[k as int];
            assert(pk =~= seq![c0, c1]);
            if k == 0 {
                assert(out@ =~= p[0].map_values(|c: char| ascii_upper(c)));
            } else if k == 1 {
                assert(out@ =~= (p[0] + seq![':'] + p[1]).map_values(|c: char| ascii_upper(c)));
            } else {
                assert(out@ =~= (p[0] + seq![':'] + p[1] + seq![':'] + p[2]).map_values(
                    |c: char| ascii_upper(c),
                ));
            }
        }
        k = k + 1;
    }
    Some(out)
}

/// Extracts the OUI from a MAC address such as `aa:bb:cc:dd:ee:ff`
/// (giving `AA:BB:CC`).
pub fn extract_oui(mac_address: &str) -> (r: Option<String>)
    ensures
        r matches Some(s) ==> oui_of(mac_address@) == Some(s@),
        r is None ==> oui_of(mac_address@) is None,
{
    let v = chars_of(mac_address);
    assert(v@.subrange(0, v@.len() as int) =~= v@);
    extract_oui_range(&v, 0, v.len())
}

/// An ARP table entry: its device (sixth field) and the OUI of its hardware
/// address (fourth field); fields are separated by whitespace.
pub open spec fn arp_entry(line: Seq<char>) -> Option<(Seq<char>, Seq<char>)> {
    let t = ws_tokens(line);
    if t.len() >= 6 && oui_of(t[3]) is Some {
        Some((t[5], oui_of(t[3])->0))
    } else {
        None
    }
}

fn parse_arp_entry_range(v: &Vec<char>, from: usize, to: usize) -> (r: Option<(String, String)>)
    requires
        from <= to <= v.len(),
    ensures
        r matches Some(e) ==> arp_entry(v@.subrange(from as int, to as int)) == Some(
            (e.0@, e.1@),
        ),
        r is None ==> arp_entry(v@.subrange(from as int, to as int)) is None,
{
    let ghost t = ws_tokens(v@.subrange(from as int, to as int));
    let parts = split_whitespace_range(v, from, to);
    if parts.len() < 6 {
        return None;
    }
    assert(v@.subrange(parts@[3].0 as int, parts@[3].1 as int) == t[3]);
    assert(v@.subrange(parts@[5].0 as int, parts@[5].1 as int) == t[5]);
    match extract_oui_range(v, parts[3].0, parts[3].1) {
        Some(oui) => Some((string_from_range(v, parts[5].0, parts[5].1), oui)),
        None => None,
    }
}

/// Parses one line of `/proc/net/arp` into `(device, OUI)`.
pub fn parse_arp_entry(line: &str) -> (r: Option<(String, String)>)
    ensures
        r matches Some(e) ==> arp_entry(line@) == Some((e.0@, e.1@)),
        r is None ==> arp_entry(line@) is None,
{
    let v = chars_of(line);
    assert(v@.subrange(0, v@.len() as int) =~= v@);
    parse_arp_entry_range(&v, 0, v.len())
}

/// Whether the contents of a sysfs attribute, trimmed, are the decimal
/// number `expected` (as `u64::from_str` reads it).
pub open spec fn content_is_number(content: Option<Seq<char>>, expected: nat, max: nat) -> bool {
    match content {
        Some(c) => parse_unsigned(trimmed(c), max) == Some(expected),
        None => false,
    }
}

fn content_equals_number(content: Option<&str>, expected: u64, max: u64) -> (r: bool)
    ensures
        r == content_is_number(
            match content {
                Some(c) => Some(c@),
                None => None,
            },
            expected as nat,
            max as nat,
        ),
{
    match content {
        Some(c) => {
            let v = chars_of(c);
            assert(v@.subrange(0, v@.len() as int) =~= v@);
            let (a, b) = trim_range(&v, 0, v.len());
            match parse_u64_range(&v, a, b) {
                Some(x) => x == expected && x <= max,
                None => false,
            }
        },
        None => false,
    }
}

pub open spec fn opt_view(content: Option<&str>) -> Option<Seq<char>> {
    match content {
        Some(c) => Some(c@),
        None => None,
    }
}

/// Is the adapter for wireless connections? Its `type` attribute is 1 (an
/// Ethernet link) and it has a `wireless` directory. `type_content` is the
/// contents of the `type` attribute, if it could be read.
pub fn is_wireless_adapter(type_content: Option<&str>, has_wireless_dir: bool) -> (r: bool)
    ensures
        r == (content_is_number(opt_view(type_content), 1, u32::MAX as nat) && has_wireless_dir),
{
    content_equals_number(type_content, 1, u32::MAX as u64) && has_wireless_dir
}

/// Is the adapter in operation and connected? Its `operstate` is `up` and its
/// `carrier` is 1, each attribute trimmed.
pub fn is_adapter_active(operstate: Option<&str>, carrier: Option<&str>) -> (r: bool)
    ensures
        r == ((match operstate {
            Some(o) => trimmed(o@) == "up"@,
            None => false,
        }) && content_is_number(opt_view(carrier), 1, u8::MAX as nat)),
{
    let up = match operstate {
        Some(o) => {
            let v = chars_of(o);
            assert(v@.subrange(0, v@.len() as int) =~= v@);
            let (a, b) = trim_range(&v, 0, v.len());
            range_eq_str(&v, a, b, "up")
        },
        None => false,
    };
    up && content_equals_number(carrier, 1, u8::MAX as u64)
}

/// The `(device, OUI)` entries of the trimmed ARP table after its header
/// line, in order, keeping those whose device is a wireless adapter.
pub open spec fn ap_ouis(arp: Seq<char>, wireless: Seq<Seq<char>>) -> Seq<(Seq<char>, Seq<char>)> {
    let lines = text_lines(trimmed(arp));
    if lines.len() == 0 {
        Seq::empty()
    } else {
        ap_ouis_of_lines(lines.drop_first(), wireless)
    }
}

pub open spec fn ap_ouis_of_lines(lines: Seq<Seq<char>>, wireless: Seq<Seq<char>>) -> Seq<
    (Seq<char>, Seq<char>),
>
    decreases lines.len(),
{
    if lines.len() == 0 {
        Seq::empty()
    } else {
        let rest = ap_ouis_of_lines(lines.drop_last(), wireless);
        match arp_entry(lines.last()) {
            Some(e) => if wireless.contains(e.0) {
                rest.push(e)
            } else {
                rest
            },
            None => rest,
        }
    }
}

pub open spec fn pair_views(s: Seq<(String, String)>) -> Seq<(Seq<char>, Seq<char>)> {
    s.map_values(|p: (String, String)| (p.0@, p.1@))
}

fn contains_string(names: &Vec<String>, name: &String) -> (r: bool)
    ensures
        r == names@.map_values(|n: String| n@).contains(name@),
{
    let ghost nv = names@.map_values(|n: String| n@);
    let mut i: usize = 0;
    while i < names.len()
        invariant
            0 <= i <= names@.len(),
            nv == names@.map_values(|n: String| n@),
            forall|j: int| 0 <= j < i ==> nv[j] != name@,
        decreases names@.len() - i,
    {
        if names[i] == *name {
            assert(nv[i as int] == name@);
            return true;
        }
        i = i + 1;
    }
    false
}

/// The OUIs of the access points: the entries of `/proc/net/arp` (after its
/// header line) whose device is one of `wireless_adapters`. `arp_content` is
/// the contents of the file, if it could be read.
pub fn get_active_wireless_ap_ouis(arp_content: Option<&str>, wireless_adapters: &Vec<String>) -> (r:
    Option<Vec<(String, String)>>)
    ensures
        arp_content is None ==> r is None,
        arp_content matches Some(c) ==> r matches Some(v) && pair_views(v@) == ap_ouis(
            c@,
            wireless_adapters@.map_values(|n: String| n@),
        ),
{
    let content = match arp_content {
        Some(c) => c,
        None => {
            return None;
        },
    };
    let ghost wv = wireless_adapters@.map_values(|n: String| n@);
    let raw = chars_of(content);
    assert(raw@.subrange(0, raw@.len() as int) =~= raw@);
    let (a, b) = trim_range(&raw, 0, raw.len());
    let mut v: Vec<char> = Vec::new();
    let mut i = a;
    while i < b
        invariant
            a <= i <= b <= raw@.len(),
            v@ == raw@.subrange(a as int, i as int),
        decreases b - i,
    {
        v.push(raw[i]);
        i = i + 1;
        assert(v@ =~= raw@.subrange(a as int, i as int));
    }
    let ghost ls = text_lines(v@);
    let lines = split_lines(&v);
    let mut out: Vec<(String, String)> = Vec::new();
    if lines.len() == 0 {
        return Some(out);
    }
    let mut k: usize = 1;
    while k < lines.len()
        invariant
            1 <= k <= lines@.len(),
            ls == text_lines(v@),
            lines@.len() == ls.len(),
            wv == wireless_adapters@.map_values(|n: String| n@),
            forall|j: int|
                0 <= j < lines@.len() ==> (#[trigger] lines@[j]).0 <= lines@[j].1 <= v.len()
                    && v@.subrange(lines@[j].0 as int, lines@[j].1 as int) == ls[j],
            pair_views(out@) == ap_ouis_of_lines(ls.drop_first().take(k - 1), wv),
        decreases lines@.len() - k,
    {
        let (s, e) = lines[k];
        let ghost before = out@;
        proof {
            let d = ls.drop_first();
            assert(d.take(k as int).drop_last() =~= d.take(k - 1));
            assert(d.take(k as int).last() == ls[k as int]);
        }
        match parse_arp_entry_range(&v, s, e) {
            Some(entry) => {
                if contains_string(wireless_adapters, &entry.0) {
                    out.push(entry);
                    assert(pair_views(out@) =~= pair_views(before).push((entry.0@, entry.1@)));
                }
            },
            None => {},
        }
        k = k + 1;
    }
    assert(ls.drop_first().take(lines@.len() - 1) =~= ls.drop_first());
    Some(out)
}

} // verus!
