//! The `KEY=VALUE` form of a metric reading given on the command line.
use vstd::prelude::*;

use crate::metrics::metric_string_key::{key_chars_valid, without_nul, MetricStringKey};
use crate::text::{char_pos, chars_of, lemma_char_pos_exact, string_from_range};

verus! {

/// Why a `KEY=VALUE` reading was refused.
#[derive(Clone, Debug, PartialEq, Eq)]
pub enum ArgReadingError {
    /// There is no `=`.
    MissingSeparator,
    /// The key is not a valid metric key (the message says why).
    InvalidKey(&'static str),
}

/// `s` split at its first `=`: the key and the value text; none without `=`.
pub open spec fn arg_reading_parts(s: Seq<char>) -> Option<(Seq<char>, Seq<char>)> {
    let n = char_pos(s, '=') as int;
    if n >= s.len() {
        None
    } else {
        Some((s.take(n), s.skip(n + 1)))
    }
}

/// Splits a `KEY=VALUE` reading and validates its key; the value is a gauge
/// where it parses as a floating-point number, else a report tag.
pub fn split_arg_reading(s: &str) -> (r: Result<(MetricStringKey, String), ArgReadingError>)
    ensures
        match arg_reading_parts(s@) {
            None => r == Err::<(MetricStringKey, String), ArgReadingError>(
                ArgReadingError::MissingSeparator,
            ),
            Some((key, value)) => if key_chars_valid(key) {
                r matches Ok((k, v)) && k@ == without_nul(key) && v@ == value
            } else {
                r matches Err(ArgReadingError::InvalidKey(_))
            },
        },
{
    let v = chars_of(s);
    let mut p: usize = 0;
    while p < v.len() && v[p] != '='
        invariant
            0 <= p <= v.len(),
            forall|k: int| 0 <= k < p ==> #[trigger] v@[k] != '=',
        decreases v.len() - p,
    {
        p = p + 1;
    }
    proof {
        lemma_char_pos_exact(v@, '=', p as int);
    }
    if p == v.len() {
        return Err(ArgReadingError::MissingSeparator);
    }
    let key_text = string_from_range(&v, 0, p);
    let value = string_from_range(&v, p + 1, v.len());
    assert(key_text@ =~= s@.take(p as int));
    assert(value@ =~= s@.skip(p + 1));
    match MetricStringKey::from_str(key_text.as_str()) {
        Ok(key) => Ok((key, value)),
        Err(e) => Err(ArgReadingError::InvalidKey(e)),
    }
}

} // verus!
