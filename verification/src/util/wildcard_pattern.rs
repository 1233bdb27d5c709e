//! Patterns of the form `<prefix>*<suffix>`.
use vstd::prelude::*;

use crate::text::chars_of;

verus! {

/// Matches the strings that start with `prefix` and end with `suffix`, the
/// two not overlapping.
pub struct WildcardPattern {
    prefix: String,
    suffix: String,
}

/// Whether `s` is `prefix`, then anything, then `suffix`.
pub open spec fn wildcard_matches(prefix: Seq<char>, suffix: Seq<char>, s: Seq<char>) -> bool {
    s.len() >= prefix.len() + suffix.len() && s.take(prefix.len() as int) == prefix && s.skip(
        s.len() - suffix.len(),
    ) == suffix
}

impl View for WildcardPattern {
    type V = (Seq<char>, Seq<char>);

    closed spec fn view(&self) -> (Seq<char>, Seq<char>) {
        (self.prefix@, self.suffix@)
    }
}

impl WildcardPattern {
    pub fn new(prefix: &str, suffix: &str) -> (r: Self)
        ensures
            r@ == (prefix@, suffix@),
    {
        WildcardPattern { prefix: prefix.to_owned(), suffix: suffix.to_owned() }
    }

    /// A copy of this pattern.
    pub fn duplicate(&self) -> (r: Self)
        ensures
            r@ == self@,
    {
        WildcardPattern { prefix: self.prefix.clone(), suffix: self.suffix.clone() }
    }

    /// Whether `s` matches `<prefix>*<suffix>`.
    pub fn matches(&self, s: &str) -> (r: bool)
        ensures
            r == wildcard_matches(self@.0, self@.1, s@),
    {
        let v = chars_of(s);
        let p = chars_of(self.prefix.as_str());
        let x = chars_of(self.suffix.as_str());
        if v.len() < p.len() || v.len() - p.len() < x.len() {
            return false;
        }
        let mut i: usize = 0;
        while i < p.len()
            invariant
                0 <= i <= p@.len() <= v@.len(),
                v@ == s@,
                p@ == self@.0,
                forall|k: int| 0 <= k < i ==> v@[k] == p@[k],
            decreases p@.len() - i,
        {
            if v[i] != p[i] {
                assert(v@.take(p@.len() as int)[i as int] != p@[i as int]);
                return false;
            }
            i = i + 1;
        }
        assert(v@.take(p@.len() as int) =~= p@);
        let off = v.len() - x.len();
        let mut j: usize = 0;
        while j < x.len()
            invariant
                0 <= j <= x@.len(),
                off + x.len() == v.len(),
                v@ == s@,
                x@ == self@.1,
                v@.take(p@.len() as int) == p@,
                p@ == self@.0,
                v@.len() >= p@.len() + x@.len(),
                forall|k: int| 0 <= k < j ==> v@[off + k] == x@[k],
            decreases x@.len() - j,
        {
            if v[off + j] != x[j] {
                assert(v@.skip(off as int)[j as int] != x@[j as int]);
                return false;
            }
            j = j + 1;
        }
        assert(v@.skip(off as int) =~= x@);
        true
    }
}

/// `<prefix>*<suffix>` matches its prefix and suffix with anything between
/// them, and every string it matches is made that way.
pub proof fn law_wildcard_matches_exactly_the_fillings(prefix: Seq<char>, suffix: Seq<char>, middle: Seq<char>, s: Seq<char>)
    ensures
        wildcard_matches(prefix, suffix, prefix + middle + suffix),
        wildcard_matches(prefix, suffix, s) ==> s == prefix + s.subrange(
            prefix.len() as int,
            s.len() - suffix.len(),
        ) + suffix,
{
    let f = prefix + middle + suffix;
    assert(f.take(prefix.len() as int) =~= prefix);
    assert(f.skip(f.len() - suffix.len()) =~= suffix);
    if wildcard_matches(prefix, suffix, s) {
        assert(s =~= s.take(prefix.len() as int) + s.subrange(prefix.len() as int, s.len() - suffix.len())
            + s.skip(s.len() - suffix.len()));
    }
}

} // verus!
