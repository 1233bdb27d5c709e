//! `POST /v1/metrics`: metric readings in a JSON body.
use vstd::prelude::*;

use crate::metrics::battery::battery_reading_handler::{post_route, PostRoute};

verus! {

pub const METRICS_URL: &'static str = "/v1/metrics";

/// The route of a request for the metrics handler.
pub fn metrics_route(url: &str, is_post: bool, data_collection_enabled: bool) -> (r: PostRoute)
    ensures
        r == if !(url@ == METRICS_URL@ && is_post) {
            PostRoute::NotHandled
        } else if !data_collection_enabled {
            PostRoute::Ignore
        } else {
            PostRoute::Process
        },
{
    post_route(METRICS_URL, url, is_post, data_collection_enabled)
}

/// The status of the answer to a processed request: 400 when the body is
/// not a metrics request, 500 when its readings cannot be handed on, 200
/// otherwise.
pub fn metrics_response_status(body_parsed: bool, readings_sent: bool) -> (r: u16)
    ensures
        r == if !body_parsed {
            400u16
        } else if !readings_sent {
            500u16
        } else {
            200u16
        },
{
    if !body_parsed {
        400
    } else if !readings_sent {
        500
    } else {
        200
    }
}

} // verus!
