//! Validated metric and attribute keys.
use vstd::prelude::*;

use crate::text::{chars_of, string_push};
use vstd::string::StringSliceAdditionalSpecFns;

verus! {

/// A valid metric / attribute key: 1 to 128 bytes of ASCII.
#[derive(Clone, PartialEq, Eq, Hash, PartialOrd, Ord, Debug)]
pub struct MetricStringKey {
    inner: String,
}

impl View for MetricStringKey {
    type V = Seq<char>;

    closed spec fn view(&self) -> Seq<char> {
        self.inner@
    }
}

/// `s` without its NUL characters.
pub open spec fn without_nul(s: Seq<char>) -> Seq<char>
    decreases s.len(),
{
    if s.len() == 0 {
        s
    } else if s.last() == '\0' {
        without_nul(s.drop_last())
    } else {
        without_nul(s.drop_last()).push(s.last())
    }
}

/// The conditions under which `MetricStringKey::from_str` accepts `s`.
pub open spec fn key_is_valid(s: &str) -> bool {
    1 <= (s.spec_bytes().len() as usize) <= 128 && vstd::string::is_ascii(s)
}

/// `key_is_valid` of the string whose characters are `t`.
pub open spec fn key_chars_valid(t: Seq<char>) -> bool {
    1 <= (vstd::utf8::encode_utf8(t).len() as usize) <= 128 && vstd::utf8::is_ascii_chars(t)
}

pub const KEY_LENGTH_ERROR: &'static str = "Invalid key: must be between 1 and 128 characters";

pub const KEY_ASCII_ERROR: &'static str = "Invalid key: must be ASCII";

impl MetricStringKey {
    pub fn as_str(&self) -> (r: &str)
        ensures
            r@ == self@,
    {
        self.inner.as_str()
    }

    /// This key followed by `suffix`.
    pub fn with_suffix(&self, suffix: &str) -> (r: Self)
        ensures
            r@ == self@ + suffix@,
    {
        let mut inner = self.inner.clone();
        inner.append(suffix);
        MetricStringKey { inner }
    }

    /// Validates `s` (1 to 128 bytes, all ASCII) and removes its NUL
    /// characters.
    pub fn from_str(s: &str) -> (r: Result<Self, &'static str>)
        ensures
            r is Ok <==> key_is_valid(s),
            r matches Ok(k) ==> k@ == without_nul(s@),
            r matches Err(e) ==> (e@ == KEY_LENGTH_ERROR@ <==> !(1 <= (s.spec_bytes().len() as usize)
                <= 128)),
            r matches Err(e) ==> (e@ == KEY_ASCII_ERROR@ <==> (1 <= (s.spec_bytes().len() as usize) <= 128
                && !vstd::string::is_ascii(s))),
    {
        let n = s.len();
        if !(1 <= n && n <= 128) {
            proof {
                reveal_strlit("Invalid key: must be between 1 and 128 characters");
                reveal_strlit("Invalid key: must be ASCII");
                assert(KEY_LENGTH_ERROR@.len() != KEY_ASCII_ERROR@.len());
            }
            return Err(KEY_LENGTH_ERROR);
        }
        if !s.is_ascii() {
            proof {
                reveal_strlit("Invalid key: must be between 1 and 128 characters");
                reveal_strlit("Invalid key: must be ASCII");
                assert(KEY_LENGTH_ERROR@.len() != KEY_ASCII_ERROR@.len());
            }
            return Err(KEY_ASCII_ERROR);
        }
        let v = chars_of(s);
        let mut inner = String::new();
        let mut i: usize = 0;
        while i < v.len()
            invariant
                0 <= i <= v@.len(),
                inner@ == without_nul(v@.take(i as int)),
            decreases v@.len() - i,
        {
            assert(v@.take(i + 1).drop_last() =~= v@.take(i as int));
            if v[i] != '\0' {
                string_push(&mut inner, v[i]);
            }
            i = i + 1;
        }
        assert(v@.take(v@.len() as int) =~= v@);
        Ok(MetricStringKey { inner })
    }

    /// A key from a string known to be valid: no validation takes place.
    pub fn from(value: &'static str) -> (r: Self)
        ensures
            r@ == value@,
    {
        MetricStringKey { inner: value.to_owned() }
    }

    /// A key holding exactly `s`: no validation takes place.
    pub fn from_string(s: String) -> (r: Self)
        ensures
            r@ == s@,
    {
        MetricStringKey { inner: s }
    }

    /// A copy of this key.
    pub fn duplicate(&self) -> (r: Self)
        ensures
            r@ == self@,
    {
        MetricStringKey { inner: self.inner.clone() }
    }

    /// Whether the two keys hold the same characters.
    pub fn same_as(&self, other: &MetricStringKey) -> (r: bool)
        ensures
            r == (self@ == other@),
    {
        self.inner == other.inner
    }
}

/// A valid key holding no NUL character is kept exactly: parsing it and
/// reading it back gives the same text.
pub proof fn law_key_without_nul_kept(s: Seq<char>)
    requires
        forall|k: int| 0 <= k < s.len() ==> s[k] != '\0',
    ensures
        without_nul(s) == s,
    decreases s.len(),
{
    if s.len() > 0 {
        law_key_without_nul_kept(s.drop_last());
        assert(s.drop_last().push(s.last()) =~= s);
    }
}

} // verus!
