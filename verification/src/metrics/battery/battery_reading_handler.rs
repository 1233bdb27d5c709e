//! `POST /v1/battery/add_reading`: a reading in the body, as the battery
//! info command prints it.
use vstd::prelude::*;

use crate::text::str_eq;

verus! {

pub const BATTERY_READING_URL: &'static str = "/v1/battery/add_reading";

/// What a handler of one POST URL does with a request.
#[derive(Clone, Copy, Debug, PartialEq, Eq, Structural)]
pub enum PostRoute {
    /// The request is not for this handler.
    NotHandled,
    /// Data collection is off: answer 200 and do nothing.
    Ignore,
    /// Read the body and act on it.
    Process,
}

/// The route of a request to `url` (`is_post` telling its method) for the
/// handler of POST requests to `handled_url`.
pub fn post_route(handled_url: &str, url: &str, is_post: bool, data_collection_enabled: bool) -> (r: PostRoute)
    ensures
        r == if !(url@ == handled_url@ && is_post) {
            PostRoute::NotHandled
        } else if !data_collection_enabled {
            PostRoute::Ignore
        } else {
            PostRoute::Process
        },
{
    if !str_eq(url, handled_url) || !is_post {
        PostRoute::NotHandled
    } else if !data_collection_enabled {
        PostRoute::Ignore
    } else {
        PostRoute::Process
    }
}

/// The route of a request for the battery reading handler.
pub fn battery_reading_route(url: &str, is_post: bool, data_collection_enabled: bool) -> (r: PostRoute)
    ensures
        r == if !(url@ == BATTERY_READING_URL@ && is_post) {
            PostRoute::NotHandled
        } else if !data_collection_enabled {
            PostRoute::Ignore
        } else {
            PostRoute::Process
        },
{
    post_route(BATTERY_READING_URL, url, is_post, data_collection_enabled)
}

} // verus!
