//! Character-level text handling shared by the parsers of this crate:
//! whitespace classification, `split_whitespace`, `lines`, `trim` and the
//! decimal integer syntax accepted by `u64::from_str`.
use vstd::prelude::*;

verus! {

/// Rust's `char::is_whitespace`: the Unicode `White_Space` property.
pub open spec fn is_ws(c: char) -> bool {
    let u = c as u32;
    ||| (0x09 <= u && u <= 0x0d)
    ||| u == 0x20
    ||| u == 0x85
    ||| u == 0xa0
    ||| u == 0x1680
    ||| (0x2000 <= u && u <= 0x200a)
    ||| u == 0x2028
    ||| u == 0x2029
    ||| u == 0x202f
    ||| u == 0x205f
    ||| u == 0x3000
}

pub fn is_whitespace(c: char) -> (r: bool)
    ensures
        r == is_ws(c),
{
    let u = c as u32;
    (0x09 <= u && u <= 0x0d) || u == 0x20 || u == 0x85 || u == 0xa0 || u == 0x1680 || (0x2000
        <= u && u <= 0x200a) || u == 0x2028 || u == 0x2029 || u == 0x202f || u == 0x205f || u
        == 0x3000
}

pub open spec fn is_ascii_digit_char(c: char) -> bool {
    '0' <= c && c <= '9'
}

pub open spec fn is_ascii_hex_char(c: char) -> bool {
    ||| ('0' <= c && c <= '9')
    ||| ('a' <= c && c <= 'f')
    ||| ('A' <= c && c <= 'F')
}

pub fn is_ascii_hexdigit(c: char) -> (r: bool)
    ensures
        r == is_ascii_hex_char(c),
{
    ('0' <= c && c <= '9') || ('a' <= c && c <= 'f') || ('A' <= c && c <= 'F')
}

/// Rust's `char::to_uppercase` restricted to ASCII input.
pub open spec fn ascii_upper(c: char) -> char {
    if 'a' <= c && c <= 'z' {
        ((c as u32) - 32) as char
    } else {
        c
    }
}

pub fn to_ascii_upper(c: char) -> (r: char)
    ensures
        r == ascii_upper(c),
{
    if 'a' <= c && c <= 'z' {
        let b = c as u8;
        (b - 32) as char
    } else {
        c
    }
}

/// The characters of `s`, in order.
pub fn chars_of(s: &str) -> (r: Vec<char>)
    ensures
        r@ == s@,
{
    let mut r: Vec<char> = Vec::new();
    for c in it: s.chars()
        invariant
            r@ == it.seq().take(it.index() as int),
    {
        r.push(c);
    }
    r
}

/// Appends one character to a `String` (`String::push`).
#[verifier::external_body]
pub(crate) fn string_push(s: &mut String, c: char)
    ensures
        final(s)@ == old(s)@.push(c),
{
    s.push(c);
}

/// Builds a `String` from the characters `v[from..to]`.
pub fn string_from_range(v: &Vec<char>, from: usize, to: usize) -> (r: String)
    requires
        from <= to <= v.len(),
    ensures
        r@ == v@.subrange(from as int, to as int),
{
    let mut r = String::new();
    let mut i = from;
    while i < to
        invariant
            from <= i <= to <= v.len(),
            r@ == v@.subrange(from as int, i as int),
        decreases to - i,
    {
        string_push(&mut r, v[i]);
        i = i + 1;
        assert(r@ =~= v@.subrange(from as int, i as int));
    }
    r
}

/// Builds a `String` from all the characters of `v`.
pub fn string_from_chars(v: &Vec<char>) -> (r: String)
    ensures
        r@ == v@,
{
    let r = string_from_range(v, 0, v.len());
    assert(v@.subrange(0, v@.len() as int) =~= v@);
    r
}

/// `v[from..to] == lit`, character by character.
pub fn range_eq_str(v: &Vec<char>, from: usize, to: usize, lit: &str) -> (r: bool)
    requires
        from <= to <= v.len(),
    ensures
        r == (v@.subrange(from as int, to as int) == lit@),
{
    let l = chars_of(lit);
    if to - from != l.len() {
        assert(v@.subrange(from as int, to as int).len() != lit@.len());
        return false;
    }
    let mut i: usize = 0;
    while i < l.len()
        invariant
            from <= to <= v.len(),
            to - from == l.len(),
            l@ == lit@,
            0 <= i <= l.len(),
            forall|k: int| 0 <= k < i ==> v@[from + k] == l@[k],
        decreases l.len() - i,
    {
        if v[from + i] != l[i] {
            assert(v@.subrange(from as int, to as int)[i as int] != lit@[i as int]);
            return false;
        }
        i = i + 1;
    }
    assert(v@.subrange(from as int, to as int) =~= lit@);
    true
}

/// `a == b` on string slices.
pub fn str_eq(a: &str, b: &str) -> (r: bool)
    ensures
        r == (a@ == b@),
{
    let v = chars_of(a);
    let r = range_eq_str(&v, 0, v.len(), b);
    assert(v@.subrange(0, v@.len() as int) =~= v@);
    r
}

/// `String` equality with a literal.
pub fn string_eq_str(s: &String, lit: &str) -> (r: bool)
    ensures
        r == (s@ == lit@),
{
    let v = chars_of(s.as_str());
    let r = range_eq_str(&v, 0, v.len(), lit);
    assert(v@.subrange(0, v@.len() as int) =~= v@);
    r
}

// ---------------------------------------------------------------------------
// split_whitespace
// ---------------------------------------------------------------------------
/// Length of the run of non-whitespace characters at the start of `s`.
pub open spec fn token_len(s: Seq<char>) -> nat
    decreases s.len(),
{
    if s.len() == 0 || is_ws(s[0]) {
        0
    } else {
        1 + token_len(s.drop_first())
    }
}

/// `str::split_whitespace`: the maximal runs of non-whitespace characters.
pub open spec fn ws_tokens(s: Seq<char>) -> Seq<Seq<char>>
    decreases s.len(),
{
    if s.len() == 0 {
        Seq::empty()
    } else if is_ws(s[0]) {
        ws_tokens(s.drop_first())
    } else {
        let n = token_len(s);
        if 0 < n <= s.len() {
            seq![s.take(n as int)].add(ws_tokens(s.skip(n as int)))
        } else {
            Seq::empty()
        }
    }
}

pub proof fn lemma_token_len(s: Seq<char>)
    ensures
        token_len(s) <= s.len(),
        forall|k: int| 0 <= k < token_len(s) ==> !is_ws(#[trigger] s[k]),
        token_len(s) < s.len() ==> is_ws(s[token_len(s) as int]),
        s.len() > 0 && !is_ws(s[0]) ==> token_len(s) > 0,
    decreases s.len(),
{
    if s.len() > 0 && !is_ws(s[0]) {
        lemma_token_len(s.drop_first());
        assert forall|k: int| 0 <= k < token_len(s) implies !is_ws(#[trigger] s[k]) by {
            if k > 0 {
                assert(s[k] == s.drop_first()[k - 1]);
            }
        }
    }
}

/// A run of non-whitespace characters ending at whitespace or at the end is
/// exactly the leading token.
pub proof fn lemma_token_len_exact(s: Seq<char>, n: int)
    requires
        0 <= n <= s.len(),
        forall|k: int| 0 <= k < n ==> !is_ws(#[trigger] s[k]),
        n == s.len() || is_ws(s[n]),
    ensures
        token_len(s) == n,
    decreases s.len(),
{
    if n > 0 {
        let t = s.drop_first();
        assert forall|k: int| 0 <= k < n - 1 implies !is_ws(#[trigger] t[k]) by {
            assert(t[k] == s[k + 1]);
        }
        if n - 1 < t.len() {
            assert(t[n - 1] == s[n]);
        }
        lemma_token_len_exact(t, n - 1);
    }
}

/// Splits `v[from..to]` at whitespace; the result holds the `(start, end)`
/// index pairs of the tokens, in order.
pub fn split_whitespace_range(v: &Vec<char>, from: usize, to: usize) -> (r: Vec<(usize, usize)>)
    requires
        from <= to <= v.len(),
    ensures
        r@.len() == ws_tokens(v@.subrange(from as int, to as int)).len(),
        forall|k: int|
            0 <= k < r@.len() ==> from <= (#[trigger] r@[k]).0 <= r@[k].1 <= to && v@.subrange(
                r@[k].0 as int,
                r@[k].1 as int,
            ) == ws_tokens(v@.subrange(from as int, to as int))[k],
{
    let ghost whole = v@.subrange(from as int, to as int);
    let mut r: Vec<(usize, usize)> = Vec::new();
    let mut i = from;
    let ghost mut done: Seq<Seq<char>> = Seq::empty();
    assert(v@.subrange(i as int, to as int) =~= whole);
    while i < to
        invariant
            from <= i <= to <= v.len(),
            whole == v@.subrange(from as int, to as int),
            ws_tokens(whole) == done + ws_tokens(v@.subrange(i as int, to as int)),
            r@.len() == done.len(),
            forall|k: int|
                0 <= k < r@.len() ==> from <= (#[trigger] r@[k]).0 <= r@[k].1 <= to
                    && v@.subrange(r@[k].0 as int, r@[k].1 as int) == done[k],
        decreases to - i,
    {
        let ghost rest = v@.subrange(i as int, to as int);
        if is_whitespace(v[i]) {
            assert(rest.drop_first() =~= v@.subrange(i + 1, to as int));
            i = i + 1;
        } else {
            let mut j = i;
            while j < to && !is_whitespace(v[j])
                invariant
                    i <= j <= to <= v.len(),
                    forall|k: int| i <= k < j ==> !is_ws(#[trigger] v@[k]),
                decreases to - j,
            {
                j = j + 1;
            }
            proof {
                assert forall|k: int| 0 <= k < j - i implies !is_ws(#[trigger] rest[k]) by {
                    assert(rest[k] == v@[i + k]);
                }
                if j < to {
                    assert(rest[j - i] == v@[j as int]);
                }
                lemma_token_len_exact(rest, j - i);
                assert(rest.take(j - i) =~= v@.subrange(i as int, j as int));
                assert(rest.skip(j - i) =~= v@.subrange(j as int, to as int));
                done = done.push(v@.subrange(i as int, j as int));
            }
            r.push((i, j));
            i = j;
        }
    }
    proof {
        assert(v@.subrange(i as int, to as int).len() == 0);
        assert(done + Seq::<Seq<char>>::empty() =~= done);
    }
    r
}

// ---------------------------------------------------------------------------
// lines
// ---------------------------------------------------------------------------
/// Position of the first `'\n'` in `s`, or `s.len()` when there is none.
pub open spec fn newline_pos(s: Seq<char>) -> nat
    decreases s.len(),
{
    if s.len() == 0 || s[0] == '\n' {
        0
    } else {
        1 + newline_pos(s.drop_first())
    }
}

pub proof fn lemma_newline_pos(s: Seq<char>)
    ensures
        newline_pos(s) <= s.len(),
        forall|k: int| 0 <= k < newline_pos(s) ==> #[trigger] s[k] != '\n',
        newline_pos(s) < s.len() ==> s[newline_pos(s) as int] == '\n',
    decreases s.len(),
{
    if s.len() > 0 && s[0] != '\n' {
        lemma_newline_pos(s.drop_first());
        assert forall|k: int| 0 <= k < newline_pos(s) implies #[trigger] s[k] != '\n' by {
            if k > 0 {
                assert(s[k] == s.drop_first()[k - 1]);
            }
        }
    }
}

pub proof fn lemma_newline_pos_exact(s: Seq<char>, n: int)
    requires
        0 <= n <= s.len(),
        forall|k: int| 0 <= k < n ==> #[trigger] s[k] != '\n',
        n == s.len() || s[n] == '\n',
    ensures
        newline_pos(s) == n,
    decreases s.len(),
{
    if n > 0 {
        let t = s.drop_first();
        assert forall|k: int| 0 <= k < n - 1 implies #[trigger] t[k] != '\n' by {
            assert(t[k] == s[k + 1]);
        }
        if n - 1 < t.len() {
            assert(t[n - 1] == s[n]);
        }
        lemma_newline_pos_exact(t, n - 1);
    }
}

/// A line terminated by `'\n'` loses one trailing `'\r'`.
pub open spec fn strip_cr(l: Seq<char>) -> Seq<char> {
    if l.len() > 0 && l.last() == '\r' {
        l.drop_last()
    } else {
        l
    }
}

/// `str::lines`: pieces separated by `'\n'` (a `"\r\n"` terminator is removed
/// whole); a final empty piece after a trailing `'\n'` is not a line.
pub open spec fn text_lines(s: Seq<char>) -> Seq<Seq<char>>
    decreases s.len(),
{
    if s.len() == 0 {
        Seq::empty()
    } else {
        let n = newline_pos(s);
        if n < s.len() {
            seq![strip_cr(s.take(n as int))].add(text_lines(s.skip(n as int + 1)))
        } else {
            seq![s]
        }
    }
}

/// The lines of `v` as `(start, end)` index pairs.
pub fn split_lines(v: &Vec<char>) -> (r: Vec<(usize, usize)>)
    ensures
        r@.len() == text_lines(v@).len(),
        forall|k: int|
            0 <= k < r@.len() ==> (#[trigger] r@[k]).0 <= r@[k].1 <= v.len() && v@.subrange(
                r@[k].0 as int,
                r@[k].1 as int,
            ) == text_lines(v@)[k],
{
    let mut r: Vec<(usize, usize)> = Vec::new();
    let mut i: usize = 0;
    let ghost mut done: Seq<Seq<char>> = Seq::empty();
    assert(v@.subrange(0, v@.len() as int) =~= v@);
    while i < v.len()
        invariant
            0 <= i <= v.len(),
            text_lines(v@) == done + text_lines(v@.subrange(i as int, v@.len() as int)),
            r@.len() == done.len(),
            forall|k: int|
                0 <= k < r@.len() ==> (#[trigger] r@[k]).0 <= r@[k].1 <= v.len() && v@.subrange(
                    r@[k].0 as int,
                    r@[k].1 as int,
                ) == done[k],
        decreases v.len() - i,
    {
        let ghost rest = v@.subrange(i as int, v@.len() as int);
        let mut j = i;
        while j < v.len() && v[j] != '\n'
            invariant
                i <= j <= v.len(),
                forall|k: int| i <= k < j ==> #[trigger] v@[k] != '\n',
            decreases v.len() - j,
        {
            j = j + 1;
        }
        proof {
            assert forall|k: int| 0 <= k < j - i implies #[trigger] rest[k] != '\n' by {
                assert(rest[k] == v@[i + k]);
            }
            if j < v.len() {
                assert(rest[j - i] == v@[j as int]);
            }
            lemma_newline_pos_exact(rest, j - i);
        }
        if j < v.len() {
            let end = if j > i && v[j - 1] == '\r' {
                j - 1
            } else {
                j
            };
            proof {
                assert(rest.take(j - i) =~= v@.subrange(i as int, j as int));
                assert(strip_cr(rest.take(j - i)) =~= v@.subrange(i as int, end as int));
                assert(rest.skip(j - i + 1) =~= v@.subrange(j + 1, v@.len() as int));
                done = done.push(v@.subrange(i as int, end as int));
            }
            r.push((i, end));
            i = j + 1;
        } else {
            proof {
                assert(rest =~= v@.subrange(i as int, j as int));
                done = done.push(v@.subrange(i as int, j as int));
                assert(v@.subrange(j as int, v@.len() as int).len() == 0);
            }
            r.push((i, j));
            i = j;
        }
    }
    proof {
        assert(done + Seq::<Seq<char>>::empty() =~= done);
    }
    r
}

// ---------------------------------------------------------------------------
// trim
// ---------------------------------------------------------------------------
/// Number of leading whitespace characters.
pub open spec fn lead_ws(s: Seq<char>) -> nat
    decreases s.len(),
{
    if s.len() == 0 || !is_ws(s[0]) {
        0
    } else {
        1 + lead_ws(s.drop_first())
    }
}

/// Number of trailing whitespace characters.
pub open spec fn trail_ws(s: Seq<char>) -> nat
    decreases s.len(),
{
    if s.len() == 0 || !is_ws(s.last()) {
        0
    } else {
        1 + trail_ws(s.drop_last())
    }
}

/// `str::trim`: `s` without its leading and trailing whitespace.
pub open spec fn trimmed(s: Seq<char>) -> Seq<char> {
    let t = s.skip(lead_ws(s) as int);
    t.take(t.len() - trail_ws(t))
}

/// Text that neither starts nor ends with whitespace is its own trim.
pub proof fn lemma_trimmed_without_edge_ws(s: Seq<char>)
    requires
        s.len() > 0 ==> !is_ws(s[0]) && !is_ws(s.last()),
    ensures
        trimmed(s) == s,
{
    assert(lead_ws(s) == 0);
    assert(s.skip(0) =~= s);
    assert(trail_ws(s) == 0);
    assert(s.take(s.len() as int) =~= s);
}

proof fn lemma_lead_ws(s: Seq<char>, n: int)
    requires
        0 <= n <= s.len(),
        forall|k: int| 0 <= k < n ==> is_ws(#[trigger] s[k]),
        n == s.len() || !is_ws(s[n]),
    ensures
        lead_ws(s) == n,
    decreases s.len(),
{
    if n > 0 {
        let t = s.drop_first();
        assert forall|k: int| 0 <= k < n - 1 implies is_ws(#[trigger] t[k]) by {
            assert(t[k] == s[k + 1]);
        }
        if n - 1 < t.len() {
            assert(t[n - 1] == s[n]);
        }
        lemma_lead_ws(t, n - 1);
    }
}

proof fn lemma_trail_ws(s: Seq<char>, m: int)
    requires
        0 <= m <= s.len(),
        forall|k: int| m <= k < s.len() ==> is_ws(#[trigger] s[k]),
        m == 0 || !is_ws(s[m - 1]),
    ensures
        trail_ws(s) == s.len() - m,
    decreases s.len(),
{
    if m < s.len() {
        let t = s.drop_last();
        assert forall|k: int| m <= k < t.len() implies is_ws(#[trigger] t[k]) by {
            assert(t[k] == s[k]);
        }
        if m > 0 {
            assert(t[m - 1] == s[m - 1]);
        }
        lemma_trail_ws(t, m);
    }
}

/// The bounds of `trim` applied to `v[from..to]`.
pub fn trim_range(v: &Vec<char>, from: usize, to: usize) -> (r: (usize, usize))
    requires
        from <= to <= v.len(),
    ensures
        from <= r.0 <= r.1 <= to,
        v@.subrange(r.0 as int, r.1 as int) == trimmed(v@.subrange(from as int, to as int)),
{
    let ghost s = v@.subrange(from as int, to as int);
    let mut a = from;
    while a < to && is_whitespace(v[a])
        invariant
            from <= a <= to <= v.len(),
            forall|k: int| from <= k < a ==> is_ws(#[trigger] v@[k]),
        decreases to - a,
    {
        a = a + 1;
    }
    proof {
        assert forall|k: int| 0 <= k < a - from implies is_ws(#[trigger] s[k]) by {
            assert(s[k] == v@[from + k]);
        }
        if a < to {
            assert(s[a - from] == v@[a as int]);
        }
        lemma_lead_ws(s, a - from);
    }
    let mut b = to;
    while b > a && is_whitespace(v[b - 1])
        invariant
            from <= a <= b <= to <= v.len(),
            forall|k: int| b <= k < to ==> is_ws(#[trigger] v@[k]),
        decreases b - a,
    {
        b = b - 1;
    }
    proof {
        let t = s.skip(a - from);
        assert(t =~= v@.subrange(a as int, to as int));
        assert forall|k: int| b - a <= k < t.len() implies is_ws(#[trigger] t[k]) by {
            assert(t[k] == v@[a + k]);
        }
        if b > a {
            assert(t[b - a - 1] == v@[b - 1]);
        }
        lemma_trail_ws(t, b - a);
        assert(t.take(t.len() - trail_ws(t)) =~= v@.subrange(a as int, b as int));
    }
    (a, b)
}

// ---------------------------------------------------------------------------
// Decimal integers
// ---------------------------------------------------------------------------
/// Value of a string of decimal digits.
pub open spec fn dec_value(d: Seq<char>) -> nat
    decreases d.len(),
{
    if d.len() == 0 {
        0
    } else {
        dec_value(d.drop_last()) * 10 + ((d.last() as u32) - ('0' as u32)) as nat
    }
}

/// The digits that `FromStr` for an unsigned integer reads: one leading `'+'`
/// is dropped when something follows it.
pub open spec fn unsigned_digits(s: Seq<char>) -> Seq<char> {
    if s.len() > 1 && s[0] == '+' {
        s.drop_first()
    } else {
        s
    }
}

/// `FromStr` for an unsigned integer type whose largest value is `max`.
pub open spec fn parse_unsigned(s: Seq<char>, max: nat) -> Option<nat> {
    let d = unsigned_digits(s);
    if d.len() > 0 && (forall|k: int| 0 <= k < d.len() ==> is_ascii_digit_char(#[trigger] d[k]))
        && dec_value(d) <= max {
        Some(dec_value(d))
    } else {
        None
    }
}

pub proof fn lemma_dec_value_push(d: Seq<char>, c: char)
    ensures
        dec_value(d.push(c)) == dec_value(d) * 10 + ((c as u32) - ('0' as u32)) as nat,
{
    assert(d.push(c).drop_last() =~= d);
}

proof fn lemma_dec_value_mono(d: Seq<char>, n: int)
    requires
        0 <= n <= d.len(),
        forall|k: int| 0 <= k < d.len() ==> is_ascii_digit_char(#[trigger] d[k]),
    ensures
        dec_value(d.take(n)) <= dec_value(d),
    decreases d.len() - n,
{
    if n < d.len() {
        lemma_dec_value_mono(d, n + 1);
        assert(d.take(n + 1).drop_last() =~= d.take(n));
        assert(is_ascii_digit_char(d[n]));
    } else {
        assert(d.take(n) =~= d);
    }
}

/// Parses `v[from..to]` as a `u64` the way `u64::from_str` does.
pub fn parse_u64_range(v: &Vec<char>, from: usize, to: usize) -> (r: Option<u64>)
    requires
        from <= to <= v.len(),
    ensures
        r matches Some(x) ==> parse_unsigned(v@.subrange(from as int, to as int), u64::MAX as nat)
            == Some(x as nat),
        r is None ==> parse_unsigned(v@.subrange(from as int, to as int), u64::MAX as nat)
            is None,
{
    let ghost s = v@.subrange(from as int, to as int);
    let start = if to - from > 1 && v[from] == '+' {
        from + 1
    } else {
        from
    };
    let ghost d = v@.subrange(start as int, to as int);
    assert(unsigned_digits(s) =~= d);
    if start == to {
        return None;
    }
    let mut acc: u64 = 0;
    let mut i = start;
    while i < to
        invariant
            from <= start <= i <= to <= v.len(),
            d == v@.subrange(start as int, to as int),
            s == v@.subrange(from as int, to as int),
            unsigned_digits(s) == d,
            forall|k: int| start <= k < i ==> is_ascii_digit_char(#[trigger] v@[k]),
            acc as nat == dec_value(v@.subrange(start as int, i as int)),
        decreases to - i,
    {
        let c = v[i];
        if !('0' <= c && c <= '9') {
            assert(d[i - start] == c);
            assert(!is_ascii_digit_char(d[i - start]));
            assert(unsigned_digits(s) == d);
            return None;
        }
        let digit = (c as u32 - '0' as u32) as u64;
        proof {
            lemma_dec_value_push(v@.subrange(start as int, i as int), c);
            assert(v@.subrange(start as int, i as int).push(c) =~= v@.subrange(
                start as int,
                i + 1,
            ));
        }
        if acc > (u64::MAX - digit) / 10 {
            proof {
                // the value read so far already exceeds u64::MAX
                assert(acc * 10 + digit > u64::MAX) by (nonlinear_arith)
                    requires
                        acc > (u64::MAX - digit) / 10,
                        digit <= 9,
                ;
                // the rest of the string can only be larger, or hold a non-digit
                assert(dec_value(v@.subrange(start as int, i + 1)) > u64::MAX);
                assert(unsigned_digits(s) == d);
                if forall|k: int| 0 <= k < d.len() ==> is_ascii_digit_char(#[trigger] d[k]) {
                    lemma_dec_value_mono(d, i + 1 - start);
                    assert(d.take(i + 1 - start) =~= v@.subrange(start as int, i + 1));
                    assert(dec_value(d) > u64::MAX);
                }
            }
            return None;
        }
        acc = acc * 10 + digit;
        i = i + 1;
    }
    assert(v@.subrange(start as int, i as int) =~= d);
    assert forall|k: int| 0 <= k < d.len() implies is_ascii_digit_char(#[trigger] d[k]) by {
        assert(d[k] == v@[start + k]);
    }
    Some(acc)
}

/// Parses `v[from..to]` as a `u32` the way `u32::from_str` does.
pub fn parse_u32_range(v: &Vec<char>, from: usize, to: usize) -> (r: Option<u32>)
    requires
        from <= to <= v.len(),
    ensures
        r matches Some(x) ==> parse_unsigned(v@.subrange(from as int, to as int), u32::MAX as nat)
            == Some(x as nat),
        r is None ==> parse_unsigned(v@.subrange(from as int, to as int), u32::MAX as nat)
            is None,
{
    match parse_u64_range(v, from, to) {
        Some(x) => {
            if x <= u32::MAX as u64 {
                Some(x as u32)
            } else {
                None
            }
        },
        None => {
            proof {
                let d = unsigned_digits(v@.subrange(from as int, to as int));
                if d.len() > 0 && (forall|k: int|
                    0 <= k < d.len() ==> is_ascii_digit_char(#[trigger] d[k])) {
                    assert(dec_value(d) > u64::MAX);
                }
            }
            None
        },
    }
}

} // verus!

verus! {

/// The decimal digit `d` (< 10) as a character.
pub open spec fn digit_char(d: nat) -> char {
    (('0' as u32) + d) as char
}

/// `n.to_string()` for an unsigned integer `n`.
pub open spec fn dec_digits(n: nat) -> Seq<char>
    decreases n,
{
    if n < 10 {
        seq![digit_char(n)]
    } else {
        dec_digits(n / 10).push(digit_char(n % 10))
    }
}

pub open spec fn pow10(k: nat) -> nat
    decreases k,
{
    if k == 0 {
        1
    } else {
        10 * pow10((k - 1) as nat)
    }
}

/// A number below `10^k` (with `k >= 1`) has at most `k` digits.
pub proof fn lemma_dec_digits_len(n: nat, k: nat)
    requires
        k >= 1,
        n < pow10(k),
    ensures
        1 <= dec_digits(n).len() <= k,
    decreases n,
{
    if n >= 10 {
        assert(k >= 2) by {
            if k == 1 {
                assert(pow10(1) == 10 * pow10(0));
            }
        }
        let k1 = (k - 1) as nat;
        assert(pow10(k) == 10 * pow10(k1));
        assert(n / 10 < pow10(k1)) by (nonlinear_arith)
            requires
                n < 10 * pow10(k1),
        ;
        lemma_dec_digits_len(n / 10, k1);
    }
}

pub proof fn lemma_dec_digits_ascii(n: nat)
    ensures
        forall|k: int| 0 <= k < dec_digits(n).len() ==> '0' <= #[trigger] dec_digits(n)[k] <= '9',
    decreases n,
{
    if n >= 10 {
        lemma_dec_digits_ascii(n / 10);
        let d = dec_digits(n / 10);
        assert forall|k: int| 0 <= k < dec_digits(n).len() implies '0' <= #[trigger] dec_digits(
            n,
        )[k] <= '9' by {
            if k < d.len() {
                assert(dec_digits(n)[k] == d[k]);
            }
        }
    }
}

/// Decimal representation of `n`, as `n.to_string()` writes it.
pub fn usize_to_decimal(n: usize) -> (r: String)
    ensures
        r@ == dec_digits(n as nat),
    decreases n,
{
    if n < 10 {
        let mut r = String::new();
        string_push(&mut r, ((n as u8) + 48u8) as char);
        assert(r@ =~= seq![digit_char(n as nat)]);
        r
    } else {
        let mut r = usize_to_decimal(n / 10);
        string_push(&mut r, (((n % 10) as u8) + 48u8) as char);
        r
    }
}

} // verus!

verus! {

// ---------------------------------------------------------------------------
// split on a character
// ---------------------------------------------------------------------------
/// Position of the first `c` in `s`, or `s.len()` when there is none.
pub open spec fn char_pos(s: Seq<char>, c: char) -> nat
    decreases s.len(),
{
    if s.len() == 0 || s[0] == c {
        0
    } else {
        1 + char_pos(s.drop_first(), c)
    }
}

/// `str::split(c)`: the pieces between the occurrences of `c`; there is
/// always one piece more than occurrences.
pub open spec fn split_on(s: Seq<char>, c: char) -> Seq<Seq<char>>
    decreases s.len(),
{
    let n = char_pos(s, c);
    if n < s.len() {
        seq![s.take(n as int)].add(split_on(s.skip(n as int + 1), c))
    } else {
        seq![s]
    }
}

pub proof fn lemma_char_pos_exact(s: Seq<char>, c: char, n: int)
    requires
        0 <= n <= s.len(),
        forall|k: int| 0 <= k < n ==> #[trigger] s[k] != c,
        n == s.len() || s[n] == c,
    ensures
        char_pos(s, c) == n,
    decreases s.len(),
{
    if n > 0 {
        let t = s.drop_first();
        assert forall|k: int| 0 <= k < n - 1 implies #[trigger] t[k] != c by {
            assert(t[k] == s[k + 1]);
        }
        if n - 1 < t.len() {
            assert(t[n - 1] == s[n]);
        }
        lemma_char_pos_exact(t, c, n - 1);
    }
}

/// Text without `c` is a single piece.
pub proof fn lemma_split_on_absent(s: Seq<char>, c: char)
    requires
        forall|k: int| 0 <= k < s.len() ==> #[trigger] s[k] != c,
    ensures
        split_on(s, c) == seq![s],
{
    lemma_char_pos_exact(s, c, s.len() as int);
}

/// The pieces of `v[from..to]` between occurrences of `c`, as index pairs.
pub fn split_on_range(v: &Vec<char>, from: usize, to: usize, c: char) -> (r: Vec<(usize, usize)>)
    requires
        from <= to <= v.len(),
    ensures
        r@.len() == split_on(v@.subrange(from as int, to as int), c).len(),
        forall|k: int|
            0 <= k < r@.len() ==> from <= (#[trigger] r@[k]).0 <= r@[k].1 <= to && v@.subrange(
                r@[k].0 as int,
                r@[k].1 as int,
            ) == split_on(v@.subrange(from as int, to as int), c)[k],
{
    let ghost whole = v@.subrange(from as int, to as int);
    let mut r: Vec<(usize, usize)> = Vec::new();
    let mut i = from;
    let ghost mut done: Seq<Seq<char>> = Seq::empty();
    loop
        invariant_except_break
            split_on(whole, c) == done + split_on(v@.subrange(i as int, to as int), c),
            r@.len() == done.len(),
            forall|k: int|
                0 <= k < r@.len() ==> from <= (#[trigger] r@[k]).0 <= r@[k].1 <= to
                    && v@.subrange(r@[k].0 as int, r@[k].1 as int) == done[k],
        invariant
            from <= i <= to <= v.len(),
            whole == v@.subrange(from as int, to as int),
        ensures
            r@.len() == split_on(whole, c).len(),
            forall|k: int|
                0 <= k < r@.len() ==> from <= (#[trigger] r@[k]).0 <= r@[k].1 <= to
                    && v@.subrange(r@[k].0 as int, r@[k].1 as int) == split_on(whole, c)[k],
        decreases to - i,
    {
        let ghost rest = v@.subrange(i as int, to as int);
        let mut j = i;
        while j < to && v[j] != c
            invariant
                i <= j <= to <= v.len(),
                forall|k: int| i <= k < j ==> #[trigger] v@[k] != c,
            decreases to - j,
        {
            j = j + 1;
        }
        proof {
            assert forall|k: int| 0 <= k < j - i implies #[trigger] rest[k] != c by {
                assert(rest[k] == v@[i + k]);
            }
            if j < to {
                assert(rest[j - i] == v@[j as int]);
            }
            lemma_char_pos_exact(rest, c, j - i);
        }
        r.push((i, j));
        if j < to {
            proof {
                assert(rest.take(j - i) =~= v@.subrange(i as int, j as int));
                assert(rest.skip(j - i + 1) =~= v@.subrange(j + 1, to as int));
                done = done.push(v@.subrange(i as int, j as int));
            }
            i = j + 1;
        } else {
            proof {
                assert(rest =~= v@.subrange(i as int, j as int));
                done = done.push(v@.subrange(i as int, j as int));
                assert(split_on(whole, c) =~= done);
            }
            break;
        }
    }
    r
}


// ---------------------------------------------------------------------------
// Sets of names, prefixes and substrings
// ---------------------------------------------------------------------------
/// The character sequences of a list of strings.
pub open spec fn string_views(v: Seq<String>) -> Seq<Seq<char>> {
    v.map_values(|s: String| s@)
}

/// Whether `t` occurs in `s` at some position.
pub open spec fn has_substr(s: Seq<char>, t: Seq<char>) -> bool {
    exists|i: int| 0 <= i <= s.len() - t.len() && #[trigger] s.subrange(i, i + t.len()) == t
}

/// Whether one of `names` is `name`.
pub fn contains_str(names: &Vec<String>, name: &str) -> (r: bool)
    ensures
        r == string_views(names@).contains(name@),
{
    let target = name.to_owned();
    let ghost nv = string_views(names@);
    let mut i: usize = 0;
    while i < names.len()
        invariant
            0 <= i <= names@.len(),
            nv == string_views(names@),
            target@ == name@,
            forall|j: int| 0 <= j < i ==> nv[j] != name@,
        decreases names@.len() - i,
    {
        if names[i] == target {
            assert(nv[i as int] == name@);
            return true;
        }
        i = i + 1;
    }
    false
}

/// A copy of a list of strings.
pub fn clone_strings(v: &Vec<String>) -> (r: Vec<String>)
    ensures
        r@ == v@,
{
    let mut r: Vec<String> = Vec::new();
    let mut i: usize = 0;
    while i < v.len()
        invariant
            0 <= i <= v@.len(),
            r@ == v@.take(i as int),
        decreases v@.len() - i,
    {
        r.push(v[i].clone());
        i = i + 1;
        assert(r@ =~= v@.take(i as int));
    }
    assert(v@.take(v@.len() as int) =~= v@);
    r
}

/// Whether `v[from..]` starts with `prefix`.
pub fn range_starts_with(v: &Vec<char>, from: usize, prefix: &str) -> (r: bool)
    requires
        from <= v.len(),
    ensures
        r == prefix@.is_prefix_of(v@.skip(from as int)),
{
    let p = chars_of(prefix);
    if v.len() - from < p.len() {
        return false;
    }
    let r = range_eq_str(v, from, from + p.len(), prefix);
    assert(v@.subrange(from as int, from + p.len()) =~= v@.skip(from as int).subrange(
        0,
        p@.len() as int,
    ));
    r
}

/// `s.starts_with(prefix)`.
pub fn starts_with_str(s: &str, prefix: &str) -> (r: bool)
    ensures
        r == prefix@.is_prefix_of(s@),
{
    let v = chars_of(s);
    assert(v@.skip(0) =~= v@);
    range_starts_with(&v, 0, prefix)
}

/// `s.contains(sub)`.
pub fn contains_substr(s: &str, sub: &str) -> (r: bool)
    ensures
        r == has_substr(s@, sub@),
{
    let v = chars_of(s);
    let p = chars_of(sub);
    if v.len() < p.len() {
        return false;
    }
    let last = v.len() - p.len();
    let mut i: usize = 0;
    while i < last
        invariant
            v@ == s@,
            p@ == sub@,
            last + p.len() == v.len(),
            0 <= i <= last,
            forall|k: int| 0 <= k < i ==> #[trigger] s@.subrange(k, k + sub@.len()) != sub@,
        decreases last - i,
    {
        if range_eq_str(&v, i, i + p.len(), sub) {
            return true;
        }
        i = i + 1;
    }
    if range_eq_str(&v, last, v.len(), sub) {
        return true;
    }
    proof {
        assert forall|k: int| 0 <= k <= s@.len() - sub@.len() implies #[trigger] s@.subrange(
            k,
            k + sub@.len(),
        ) != sub@ by {}
    }
    false
}

} // verus!
