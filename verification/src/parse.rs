//! The pieces that the line formats of `/proc` and `/sys` are made of: runs
//! of a class of characters and unsigned decimal numbers. Each parser works
//! on a position in a sequence of characters and says where it stopped.
use vstd::prelude::*;

use crate::text::{
    chars_of, dec_value, is_ascii_digit_char, is_whitespace, is_ws, lemma_dec_value_push,
    range_eq_str,
};

verus! {

/// Classes of characters that a run is made of.
#[derive(Clone, Copy, Debug, PartialEq, Eq, Structural)]
pub enum CharClass {
    /// `' '` and `'\t'`.
    Space,
    /// `' '`, `'\t'`, `'\r'` and `'\n'`.
    Multispace,
    /// `'0'..='9'`.
    Digit,
    /// ASCII letters.
    Alpha,
    /// ASCII letters and digits.
    Alnum,
    /// Everything but Unicode whitespace.
    NonWhitespace,
    /// Unicode alphanumeric characters and `'_'`.
    Word,
}

pub open spec fn is_ascii_alpha_char(c: char) -> bool {
    ('a' <= c && c <= 'z') || ('A' <= c && c <= 'Z')
}

/// Whether `c` belongs to the class `k`.
pub open spec fn in_class(k: CharClass, c: char) -> bool {
    match k {
        CharClass::Space => c == ' ' || c == '\t',
        CharClass::Multispace => c == ' ' || c == '\t' || c == '\r' || c == '\n',
        CharClass::Digit => is_ascii_digit_char(c),
        CharClass::Alpha => is_ascii_alpha_char(c),
        CharClass::Alnum => is_ascii_alpha_char(c) || is_ascii_digit_char(c),
        CharClass::NonWhitespace => !is_ws(c),
        CharClass::Word => unicode_alphanumeric(c) || c == '_',
    }
}

/// What `char::is_alphanumeric` returns for `c`: whether it has the Unicode
/// `Alphabetic` property or a numeric type.
pub uninterp spec fn unicode_alphanumeric(c: char) -> bool;

/// `char::is_alphanumeric` of std. The contract only names its result; the
/// Unicode tables behind it are not stated.
#[verifier::external_body]
fn char_is_alphanumeric(c: char) -> (r: bool)
    ensures
        r == unicode_alphanumeric(c),
{
    c.is_alphanumeric()
}

/// What `char::is_numeric` returns for `c`: whether its Unicode general
/// category is a number (`Nd`, `Nl` or `No`).
pub uninterp spec fn unicode_numeric(c: char) -> bool;

/// `char::is_numeric` of std. The contract only names its result; the
/// Unicode tables behind it are not stated.
#[verifier::external_body]
pub(crate) fn char_is_numeric(c: char) -> (r: bool)
    ensures
        r == unicode_numeric(c),
{
    c.is_numeric()
}

pub fn class_test(k: CharClass, c: char) -> (r: bool)
    ensures
        r == in_class(k, c),
{
    match k {
        CharClass::Space => c == ' ' || c == '\t',
        CharClass::Multispace => c == ' ' || c == '\t' || c == '\r' || c == '\n',
        CharClass::Digit => '0' <= c && c <= '9',
        CharClass::Alpha => ('a' <= c && c <= 'z') || ('A' <= c && c <= 'Z'),
        CharClass::Alnum => ('a' <= c && c <= 'z') || ('A' <= c && c <= 'Z') || ('0' <= c && c
            <= '9'),
        CharClass::NonWhitespace => !is_whitespace(c),
        CharClass::Word => char_is_alphanumeric(c) || c == '_',
    }
}

/// Length of the run of characters of class `k` at the start of `s`.
pub open spec fn run_len(k: CharClass, s: Seq<char>) -> nat
    decreases s.len(),
{
    if s.len() == 0 || !in_class(k, s[0]) {
        0
    } else {
        1 + run_len(k, s.drop_first())
    }
}

/// Where the run of class `k` that starts at `i` ends.
pub open spec fn run_end(k: CharClass, s: Seq<char>, i: int) -> int {
    i + run_len(k, s.skip(i))
}

pub proof fn lemma_run_len(k: CharClass, s: Seq<char>)
    ensures
        run_len(k, s) <= s.len(),
        forall|j: int| 0 <= j < run_len(k, s) ==> in_class(k, #[trigger] s[j]),
        run_len(k, s) < s.len() ==> !in_class(k, s[run_len(k, s) as int]),
    decreases s.len(),
{
    if s.len() > 0 && in_class(k, s[0]) {
        lemma_run_len(k, s.drop_first());
        assert forall|j: int| 0 <= j < run_len(k, s) implies in_class(k, #[trigger] s[j]) by {
            if j > 0 {
                assert(s[j] == s.drop_first()[j - 1]);
            }
        }
    }
}

/// A run of class `k` that stops at a character outside the class, or at
/// the end, is exactly the leading run.
pub proof fn lemma_run_len_exact(k: CharClass, s: Seq<char>, n: int)
    requires
        0 <= n <= s.len(),
        forall|j: int| 0 <= j < n ==> in_class(k, #[trigger] s[j]),
        n == s.len() || !in_class(k, s[n]),
    ensures
        run_len(k, s) == n,
    decreases s.len(),
{
    if n > 0 {
        let t = s.drop_first();
        assert forall|j: int| 0 <= j < n - 1 implies in_class(k, #[trigger] t[j]) by {
            assert(t[j] == s[j + 1]);
        }
        if n - 1 < t.len() {
            assert(t[n - 1] == s[n]);
        }
        lemma_run_len_exact(k, t, n - 1);
    }
}

/// Skips the run of class `k` that starts at `from`.
pub fn skip_run(k: CharClass, v: &Vec<char>, from: usize) -> (r: usize)
    requires
        from <= v.len(),
    ensures
        r == run_end(k, v@, from as int),
        from <= r <= v.len(),
{
    let mut i = from;
    while i < v.len() && class_test(k, v[i])
        invariant
            from <= i <= v.len(),
            forall|j: int| from <= j < i ==> in_class(k, #[trigger] v@[j]),
        decreases v.len() - i,
    {
        i = i + 1;
    }
    proof {
        let s = v@.skip(from as int);
        assert forall|j: int| 0 <= j < i - from implies in_class(k, #[trigger] s[j]) by {
            assert(s[j] == v@[from + j]);
        }
        if i < v.len() {
            assert(s[i - from] == v@[i as int]);
        }
        lemma_run_len_exact(k, s, i - from);
    }
    i
}

/// nom's `u64` at position `i`: the decimal digits there, as a number, and
/// where they end. No digit, or a number above `u64::MAX`, is a failure.
pub open spec fn u64_at(s: Seq<char>, i: int) -> Option<(u64, int)> {
    let e = run_end(CharClass::Digit, s, i);
    if 0 <= i && e > i && dec_value(s.subrange(i, e)) <= u64::MAX {
        Some((dec_value(s.subrange(i, e)) as u64, e))
    } else {
        None
    }
}

/// Reads the number at `from` (see `u64_at`).
pub fn parse_u64_at(v: &Vec<char>, from: usize) -> (r: Option<(u64, usize)>)
    requires
        from <= v.len(),
    ensures
        r matches Some((x, e)) ==> u64_at(v@, from as int) == Some((x, e as int)) && e <= v.len(),
        r is None ==> u64_at(v@, from as int) is None,
{
    let e = skip_run(CharClass::Digit, v, from);
    proof {
        lemma_run_len(CharClass::Digit, v@.skip(from as int));
    }
    if e == from {
        return None;
    }
    let mut acc: u64 = 0;
    let mut i = from;
    while i < e
        invariant
            from <= i <= e <= v.len(),
            e == run_end(CharClass::Digit, v@, from as int),
            forall|j: int|
                0 <= j < e - from ==> in_class(CharClass::Digit, #[trigger] v@.skip(from as int)[j]),
            acc as nat == dec_value(v@.subrange(from as int, i as int)),
        decreases e - i,
    {
        let c = v[i];
        assert(v@.skip(from as int)[i - from] == c);
        let digit = (c as u32 - '0' as u32) as u64;
        proof {
            lemma_dec_value_push(v@.subrange(from as int, i as int), c);
            assert(v@.subrange(from as int, i as int).push(c) =~= v@.subrange(from as int, i + 1));
        }
        if acc > (u64::MAX - digit) / 10 {
            proof {
                assert(acc * 10 + digit > u64::MAX) by (nonlinear_arith)
                    requires
                        acc > (u64::MAX - digit) / 10,
                        digit <= 9,
                ;
                let d = v@.subrange(from as int, e as int);
                assert forall|k: int| 0 <= k < d.len() implies is_ascii_digit_char(#[trigger] d[k]) by {
                    assert(d[k] == v@.skip(from as int)[k]);
                }
                lemma_dec_value_prefix_le(d, i + 1 - from);
                assert(v@.subrange(from as int, e as int).take(i + 1 - from) =~= v@.subrange(
                    from as int,
                    i + 1,
                ));
            }
            return None;
        }
        acc = acc * 10 + digit;
        i = i + 1;
    }
    Some((acc, e))
}

/// A number does not shrink when digits are added to it.
pub proof fn lemma_dec_value_prefix_le(d: Seq<char>, n: int)
    requires
        0 <= n <= d.len(),
        forall|k: int| 0 <= k < d.len() ==> is_ascii_digit_char(#[trigger] d[k]),
    ensures
        dec_value(d.take(n)) <= dec_value(d),
    decreases d.len() - n,
{
    if n < d.len() {
        lemma_dec_value_prefix_le(d, n + 1);
        assert(d.take(n + 1).drop_last() =~= d.take(n));
        assert(is_ascii_digit_char(d[n]));
    } else {
        assert(d.take(n) =~= d);
    }
}

/// `n` numbers, each after at least one character of class `sep`, from
/// position `i` on.
pub open spec fn spaced_u64s(sep: CharClass, s: Seq<char>, i: int, n: nat) -> Option<Seq<u64>>
    decreases n,
{
    if n == 0 {
        Some(Seq::empty())
    } else {
        let j = run_end(sep, s, i);
        if j == i {
            None
        } else {
            match u64_at(s, j) {
                None => None,
                Some((x, e)) => match spaced_u64s(sep, s, e, (n - 1) as nat) {
                    None => None,
                    Some(rest) => Some(seq![x] + rest),
                },
            }
        }
    }
}

pub open spec fn prepend_u64s(a: Seq<u64>, o: Option<Seq<u64>>) -> Option<Seq<u64>> {
    match o {
        Some(rest) => Some(a + rest),
        None => None,
    }
}

/// Reads `n` numbers from `from` on (see `spaced_u64s`).
pub fn parse_spaced_u64s(sep: CharClass, v: &Vec<char>, from: usize, n: usize) -> (r: Option<Vec<u64>>)
    requires
        from <= v.len(),
    ensures
        r matches Some(x) ==> spaced_u64s(sep, v@, from as int, n as nat) == Some(x@),
        r is None ==> spaced_u64s(sep, v@, from as int, n as nat) is None,
{
    let mut acc: Vec<u64> = Vec::new();
    let mut i = from;
    let mut k: usize = 0;
    while k < n
        invariant
            from <= i <= v.len(),
            0 <= k <= n,
            spaced_u64s(sep, v@, from as int, n as nat) == prepend_u64s(
                acc@,
                spaced_u64s(sep, v@, i as int, (n - k) as nat),
            ),
        decreases n - k,
    {
        let j = skip_run(sep, v, i);
        if j == i {
            return None;
        }
        match parse_u64_at(v, j) {
            None => {
                return None;
            },
            Some((x, e)) => {
                proof {
                    match spaced_u64s(sep, v@, e as int, (n - k - 1) as nat) {
                        Some(rest) => {
                            assert(acc@ + (seq![x] + rest) =~= acc@.push(x) + rest);
                        },
                        None => {},
                    }
                }
                acc.push(x);
                i = e;
            },
        }
        k = k + 1;
    }
    assert(acc@ + Seq::<u64>::empty() =~= acc@);
    Some(acc)
}

/// Whether the characters of `t` stand at position `i`.
pub open spec fn tag_at(s: Seq<char>, i: int, t: Seq<char>) -> bool {
    0 <= i && i + t.len() <= s.len() && s.subrange(i, i + t.len()) == t
}

/// Whether `lit` stands at position `from` (see `tag_at`).
pub fn tag_at_exec(v: &Vec<char>, from: usize, lit: &str) -> (r: bool)
    requires
        from <= v.len(),
    ensures
        r == tag_at(v@, from as int, lit@),
{
    let l = chars_of(lit);
    if v.len() - from < l.len() {
        return false;
    }
    range_eq_str(v, from, from + l.len(), lit)
}

/// nom's `i64` at position `i`: an optional sign, then decimal digits, as
/// a number, and where the digits end. No digit, or a number out of the
/// range of `i64`, is a failure.
pub open spec fn i64_at(s: Seq<char>, i: int) -> Option<(i64, int)> {
    let neg = 0 <= i < s.len() && s[i] == '-';
    let j = if 0 <= i < s.len() && (s[i] == '-' || s[i] == '+') {
        i + 1
    } else {
        i
    };
    match u64_at(s, j) {
        None => None,
        Some((m, e)) => if neg {
            if m <= 0x8000_0000_0000_0000 {
                Some(((0 - m) as i64, e))
            } else {
                None
            }
        } else {
            if m <= i64::MAX {
                Some((m as i64, e))
            } else {
                None
            }
        },
    }
}

/// Reads the signed number at `from` (see `i64_at`).
pub fn parse_i64_at(v: &Vec<char>, from: usize) -> (r: Option<(i64, usize)>)
    requires
        from <= v.len(),
    ensures
        r matches Some((x, e)) ==> i64_at(v@, from as int) == Some((x, e as int)) && e <= v.len(),
        r is None ==> i64_at(v@, from as int) is None,
{
    let neg = from < v.len() && v[from] == '-';
    let j = if from < v.len() && (v[from] == '-' || v[from] == '+') {
        from + 1
    } else {
        from
    };
    match parse_u64_at(v, j) {
        None => None,
        Some((m, e)) => {
            if neg {
                if m <= 0x8000_0000_0000_0000u64 {
                    if m == 0x8000_0000_0000_0000u64 {
                        Some((i64::MIN, e))
                    } else {
                        Some((0 - (m as i64), e))
                    }
                } else {
                    None
                }
            } else {
                if m <= i64::MAX as u64 {
                    Some((m as i64, e))
                } else {
                    None
                }
            }
        },
    }
}

/// The code of `c`, an ASCII capital taken as its small letter.
pub open spec fn lower_code(c: char) -> u32 {
    if 'A' <= c && c <= 'Z' {
        ((c as u32) + 32) as u32
    } else {
        c as u32
    }
}

/// Whether the lowercase word `t` stands at position `i`, letters compared
/// without regard to ASCII case.
pub open spec fn tag_no_case_at(s: Seq<char>, i: int, t: Seq<char>) -> bool {
    0 <= i && i + t.len() <= s.len() && s.subrange(i, i + t.len()).map_values(|c: char| lower_code(c))
        == t.map_values(|c: char| c as u32)
}

/// Position after an optional sign at `i`.
pub open spec fn after_sign(s: Seq<char>, i: int) -> int {
    if 0 <= i < s.len() && (s[i] == '+' || s[i] == '-') {
        i + 1
    } else {
        i
    }
}

/// The mantissa of a decimal number at `i`: an optional sign, then digits
/// with an optional `.` and optional digits after it, or a `.` and digits.
pub open spec fn mantissa_end(s: Seq<char>, i: int) -> Option<int> {
    let j = after_sign(s, i);
    let d = run_end(CharClass::Digit, s, j);
    if d > j {
        if d < s.len() && s[d] == '.' {
            Some(run_end(CharClass::Digit, s, d + 1))
        } else {
            Some(d)
        }
    } else if 0 <= j < s.len() && s[j] == '.' && run_end(CharClass::Digit, s, j + 1) > j + 1 {
        Some(run_end(CharClass::Digit, s, j + 1))
    } else {
        None
    }
}

/// After a mantissa ending at `m`: an optional exponent, `e` or `E`, an
/// optional sign and digits. An `e` without digits after it is a failure.
pub open spec fn exponent_end(s: Seq<char>, m: int) -> Option<int> {
    if 0 <= m < s.len() && (s[m] == 'e' || s[m] == 'E') {
        let k = after_sign(s, m + 1);
        let e = run_end(CharClass::Digit, s, k);
        if e > k {
            Some(e)
        } else {
            None
        }
    } else {
        Some(m)
    }
}

/// nom's `double` at position `i`, as far as where its text ends: a decimal
/// number (see `mantissa_end` and `exponent_end`), or else `nan` or `inf` in
/// any case (a following `inity` is left over). The value of that text is
/// `f64`'s parse of it.
pub open spec fn float_end(s: Seq<char>, i: int) -> Option<int> {
    match mantissa_end(s, i) {
        Some(m) => exponent_end(s, m),
        None => if tag_no_case_at(s, i, "nan"@) || tag_no_case_at(s, i, "inf"@) {
            Some(i + 3)
        } else {
            None
        },
    }
}

fn tag_no_case_exec(v: &Vec<char>, from: usize, lit: &str) -> (r: bool)
    requires
        from <= v.len(),
    ensures
        r == tag_no_case_at(v@, from as int, lit@),
{
    let l = chars_of(lit);
    let n = v.len();
    if n - from < l.len() {
        return false;
    }
    let ghost sub = v@.subrange(from as int, from + l@.len());
    let ghost low = sub.map_values(|c: char| lower_code(c));
    let ghost codes = lit@.map_values(|c: char| c as u32);
    let mut k: usize = 0;
    while k < l.len()
        invariant
            0 <= k <= l@.len(),
            n == v@.len(),
            from + l@.len() <= n,
            l@ == lit@,
            sub == v@.subrange(from as int, from + l@.len()),
            low == sub.map_values(|c: char| lower_code(c)),
            codes == lit@.map_values(|c: char| c as u32),
            forall|j: int| 0 <= j < k ==> #[trigger] low[j] == codes[j],
        decreases l@.len() - k,
    {
        let c = v[from + k];
        let t = l[k];
        let code: u32 = if 'A' <= c && c <= 'Z' {
            (c as u32) + 32
        } else {
            c as u32
        };
        assert(sub[k as int] == c);
        assert(low[k as int] == code);
        assert(codes[k as int] == t as u32);
        if code != (t as u32) {
            return false;
        }
        k = k + 1;
    }
    assert(low =~= codes);
    true
}

fn sign_skip(v: &Vec<char>, i: usize) -> (r: usize)
    requires
        i <= v.len(),
    ensures
        r == after_sign(v@, i as int),
        r <= v.len(),
{
    if i < v.len() && (v[i] == '+' || v[i] == '-') {
        i + 1
    } else {
        i
    }
}

/// Where the text of the floating-point number at `from` ends (see
/// `float_end`).
pub fn recognize_float_at(v: &Vec<char>, from: usize) -> (r: Option<usize>)
    requires
        from <= v.len(),
    ensures
        r matches Some(e) ==> float_end(v@, from as int) == Some(e as int) && from < e <= v.len(),
        r is None ==> float_end(v@, from as int) is None,
{
    let j = sign_skip(v, from);
    let d = skip_run(CharClass::Digit, v, j);
    let m = if d > j {
        if d < v.len() && v[d] == '.' {
            Some(skip_run(CharClass::Digit, v, d + 1))
        } else {
            Some(d)
        }
    } else if j < v.len() && v[j] == '.' {
        let e = skip_run(CharClass::Digit, v, j + 1);
        if e > j + 1 {
            Some(e)
        } else {
            None
        }
    } else {
        None
    };
    match m {
        Some(m) => {
            if m < v.len() && (v[m] == 'e' || v[m] == 'E') {
                let k = sign_skip(v, m + 1);
                let e = skip_run(CharClass::Digit, v, k);
                if e > k {
                    Some(e)
                } else {
                    None
                }
            } else {
                Some(m)
            }
        },
        None => {
            if tag_no_case_exec(v, from, "nan") || tag_no_case_exec(v, from, "inf") {
                proof {
                    reveal_strlit("nan");
                    reveal_strlit("inf");
                }
                Some(from + 3)
            } else {
                None
            }
        },
    }
}

/// `n` numbers as nom's `double` reads them (see `float_end`), each after at
/// least one character of class `sep`, from position `i` on: where the text
/// of each number starts and ends.
pub open spec fn spaced_floats(sep: CharClass, s: Seq<char>, i: int, n: nat) -> Option<Seq<(int, int)>>
    decreases n,
{
    if n == 0 {
        Some(Seq::empty())
    } else {
        let j = run_end(sep, s, i);
        if j == i {
            None
        } else {
            match float_end(s, j) {
                None => None,
                Some(e) => match spaced_floats(sep, s, e, (n - 1) as nat) {
                    None => None,
                    Some(rest) => Some(seq![(j, e)] + rest),
                },
            }
        }
    }
}

pub open spec fn prepend_ranges(a: Seq<(int, int)>, o: Option<Seq<(int, int)>>) -> Option<Seq<(int, int)>> {
    match o {
        Some(rest) => Some(a + rest),
        None => None,
    }
}

/// Finds `n` numbers from `from` on (see `spaced_floats`).
pub fn parse_spaced_floats(sep: CharClass, v: &Vec<char>, from: usize, n: usize) -> (r: Option<Vec<(usize, usize)>>)
    requires
        from <= v.len(),
    ensures
        r matches Some(x) ==> spaced_floats(sep, v@, from as int, n as nat) == Some(
            x@.map_values(|p: (usize, usize)| (p.0 as int, p.1 as int)),
        ) && forall|k: int| 0 <= k < x@.len() ==> (#[trigger] x@[k]).0 <= x@[k].1 <= v.len(),
        r is None ==> spaced_floats(sep, v@, from as int, n as nat) is None,
{
    let mut acc: Vec<(usize, usize)> = Vec::new();
    let mut i = from;
    let mut k: usize = 0;
    while k < n
        invariant
            from <= i <= v.len(),
            0 <= k <= n,
            forall|m: int| 0 <= m < acc@.len() ==> (#[trigger] acc@[m]).0 <= acc@[m].1 <= v.len(),
            spaced_floats(sep, v@, from as int, n as nat) == prepend_ranges(
                acc@.map_values(|p: (usize, usize)| (p.0 as int, p.1 as int)),
                spaced_floats(sep, v@, i as int, (n - k) as nat),
            ),
        decreases n - k,
    {
        let j = skip_run(sep, v, i);
        if j == i {
            return None;
        }
        match recognize_float_at(v, j) {
            None => {
                return None;
            },
            Some(e) => {
                let ghost before = acc@.map_values(|p: (usize, usize)| (p.0 as int, p.1 as int));
                acc.push((j, e));
                proof {
                    assert(acc@.map_values(|p: (usize, usize)| (p.0 as int, p.1 as int)) =~= before.push(
                        (j as int, e as int),
                    ));
                    match spaced_floats(sep, v@, e as int, (n - k - 1) as nat) {
                        Some(rest) => {
                            assert(before + (seq![(j as int, e as int)] + rest) =~= before.push(
                                (j as int, e as int),
                            ) + rest);
                        },
                        None => {},
                    }
                }
                i = e;
            },
        }
        k = k + 1;
    }
    assert(acc@.map_values(|p: (usize, usize)| (p.0 as int, p.1 as int)) + Seq::<(int, int)>::empty()
        =~= acc@.map_values(|p: (usize, usize)| (p.0 as int, p.1 as int)));
    Some(acc)
}

} // verus!
