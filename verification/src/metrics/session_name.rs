//! Names of metric sessions.
use vstd::prelude::*;

use crate::util::patterns::{alphanum_slug_is_valid_and_starts_alpha, slug_error, SlugError};

verus! {

/// A valid session name: a slug of at most 64 characters that starts with a
/// letter.
#[derive(Clone, PartialEq, Eq, Hash, Ord, PartialOrd, Debug)]
pub struct SessionName {
    inner: String,
}

impl View for SessionName {
    type V = Seq<char>;

    closed spec fn view(&self) -> Seq<char> {
        self.inner@
    }
}

pub const SESSION_NAME_MAX_LEN: usize = 64;

impl SessionName {
    pub fn as_str(&self) -> (r: &str)
        ensures
            r@ == self@,
    {
        self.inner.as_str()
    }

    /// Validates a session name.
    pub fn from_str(s: &str) -> (r: Result<Self, SlugError>)
        ensures
            r matches Ok(n) ==> n@ == s@ && slug_error(s@, SESSION_NAME_MAX_LEN) is None,
            r matches Err(e) ==> slug_error(s@, SESSION_NAME_MAX_LEN) == Some(e),
    {
        match alphanum_slug_is_valid_and_starts_alpha(s, SESSION_NAME_MAX_LEN) {
            Ok(()) => Ok(SessionName { inner: s.to_owned() }),
            Err(e) => Err(e),
        }
    }

    /// A copy of this name.
    pub fn duplicate(&self) -> (r: Self)
        ensures
            r@ == self@,
    {
        SessionName { inner: self.inner.clone() }
    }

    /// Whether the two names hold the same characters.
    pub fn same_as(&self, other: &SessionName) -> (r: bool)
        ensures
            r == (self@ == other@),
    {
        self.inner == other.inner
    }
}

} // verus!
