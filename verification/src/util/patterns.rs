//! Validation of slugs: names made of letters, digits, `-` and `_`.
use vstd::prelude::*;

use crate::text::chars_of;

verus! {

pub open spec fn is_ascii_alpha(c: char) -> bool {
    ('a' <= c && c <= 'z') || ('A' <= c && c <= 'Z')
}

pub open spec fn is_slug_char(c: char) -> bool {
    is_ascii_alpha(c) || ('0' <= c && c <= '9') || c == '-' || c == '_'
}

/// Why a slug is invalid.
#[derive(Debug, Clone, Copy, PartialEq, Eq, Structural)]
pub enum SlugError {
    Empty,
    TooLong,
    InvalidCharacter,
    DoesNotStartAlpha,
}

/// A valid slug: 1 to `max_len` characters, each an ASCII letter, digit,
/// `-` or `_`, the first one a letter.
pub open spec fn slug_error(s: Seq<char>, max_len: usize) -> Option<SlugError> {
    if s.len() == 0 {
        Some(SlugError::Empty)
    } else if s.len() > max_len {
        Some(SlugError::TooLong)
    } else if !(forall|k: int| 0 <= k < s.len() ==> is_slug_char(#[trigger] s[k])) {
        Some(SlugError::InvalidCharacter)
    } else if !is_ascii_alpha(s[0]) {
        Some(SlugError::DoesNotStartAlpha)
    } else {
        None
    }
}

/// Checks that `s` is a slug starting with a letter, at most `max_len`
/// characters long.
pub fn alphanum_slug_is_valid_and_starts_alpha(s: &str, max_len: usize) -> (r: Result<(), SlugError>)
    ensures
        r matches Err(e) ==> slug_error(s@, max_len) == Some(e),
        r is Ok ==> slug_error(s@, max_len) is None,
{
    let v = chars_of(s);
    if v.len() == 0 {
        return Err(SlugError::Empty);
    }
    if v.len() > max_len {
        return Err(SlugError::TooLong);
    }
    let mut i: usize = 0;
    while i < v.len()
        invariant
            0 <= i <= v@.len(),
            v@ == s@,
            0 < v@.len() <= max_len,
            forall|k: int| 0 <= k < i ==> is_slug_char(#[trigger] v@[k]),
        decreases v@.len() - i,
    {
        let c = v[i];
        if !(('a' <= c && c <= 'z') || ('A' <= c && c <= 'Z') || ('0' <= c && c <= '9') || c
            == '-' || c == '_') {
            assert(!is_slug_char(v@[i as int]));
            return Err(SlugError::InvalidCharacter);
        }
        i = i + 1;
    }
    let c = v[0];
    if !(('a' <= c && c <= 'z') || ('A' <= c && c <= 'Z')) {
        return Err(SlugError::DoesNotStartAlpha);
    }
    Ok(())
}

} // verus!
