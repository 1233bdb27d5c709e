//! `POST /v1/sync/success` and `POST /v1/sync/failure`: the device reports
//! whether a sync with its own backend succeeded.
use vstd::prelude::*;

use crate::metrics::core_metrics::{METRIC_SYNC_FAILURE, METRIC_SYNC_SUCCESS};
use crate::metrics::metric_string_key::MetricStringKey;
use crate::text::str_eq;

verus! {

pub const SYNC_SUCCESS_URL: &'static str = "/v1/sync/success";

pub const SYNC_FAILURE_URL: &'static str = "/v1/sync/failure";

/// What the handler does with a request.
pub enum SyncEventAction {
    /// The request is not for this handler.
    NotHandled,
    /// Answer 200, after adding one to the counter under the key, if any.
    Respond(Option<MetricStringKey>),
}

/// The action for a request to `url` (`is_post` telling its method): only
/// a POST to one of the two URLs is handled, and counted where data
/// collection is enabled.
pub fn sync_event_action(url: &str, is_post: bool, data_collection_enabled: bool) -> (r:
    SyncEventAction)
    ensures
        !((url@ == SYNC_SUCCESS_URL@ || url@ == SYNC_FAILURE_URL@) && is_post) ==> r is NotHandled,
        (url@ == SYNC_SUCCESS_URL@ || url@ == SYNC_FAILURE_URL@) && is_post ==> r is Respond,
        r matches SyncEventAction::Respond(counter) ==> (!data_collection_enabled ==> counter is None),
        r matches SyncEventAction::Respond(counter) ==> (data_collection_enabled ==> (counter matches Some(
            k,
        ) && k@ == if url@ == SYNC_SUCCESS_URL@ {
            METRIC_SYNC_SUCCESS@
        } else {
            METRIC_SYNC_FAILURE@
        })),
{
    let success = str_eq(url, SYNC_SUCCESS_URL);
    let failure = str_eq(url, SYNC_FAILURE_URL);
    if !(success || failure) || !is_post {
        return SyncEventAction::NotHandled;
    }
    if !data_collection_enabled {
        SyncEventAction::Respond(None)
    } else if success {
        SyncEventAction::Respond(Some(MetricStringKey::from(METRIC_SYNC_SUCCESS)))
    } else {
        SyncEventAction::Respond(Some(MetricStringKey::from(METRIC_SYNC_FAILURE)))
    }
}

} // verus!
