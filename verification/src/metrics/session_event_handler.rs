//! `POST /v1/session/start` and `POST /v1/session/end`.
use vstd::prelude::*;

use crate::text::str_eq;

verus! {

pub const SESSION_START_URL: &'static str = "/v1/session/start";

pub const SESSION_END_URL: &'static str = "/v1/session/end";

/// What the handler does with a request.
#[derive(Clone, Copy, Debug, PartialEq, Eq, Structural)]
pub enum SessionRoute {
    /// The request is not for this handler.
    NotHandled,
    /// Data collection is off: answer 200 and do nothing.
    Ignore,
    /// Start the session that the body names.
    Start,
    /// End the session that the body names.
    End,
}

/// The route of a request to `url` (`is_post` telling its method).
pub fn session_route(url: &str, is_post: bool, data_collection_enabled: bool) -> (r: SessionRoute)
    ensures
        r == if !((url@ == SESSION_START_URL@ || url@ == SESSION_END_URL@) && is_post) {
            SessionRoute::NotHandled
        } else if !data_collection_enabled {
            SessionRoute::Ignore
        } else if url@ == SESSION_START_URL@ {
            SessionRoute::Start
        } else {
            SessionRoute::End
        },
{
    let start = str_eq(url, SESSION_START_URL);
    let end = str_eq(url, SESSION_END_URL);
    if !(start || end) || !is_post {
        SessionRoute::NotHandled
    } else if !data_collection_enabled {
        SessionRoute::Ignore
    } else if start {
        SessionRoute::Start
    } else {
        SessionRoute::End
    }
}

} // verus!
