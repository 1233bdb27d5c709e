//! The decisions of the daemon's main loop: when to refresh the device
//! configuration, when to upload, whether to go on, and how it ends. The loop
//! itself (signals, threads, the network) runs around them.
use vstd::prelude::*;

use crate::metrics::core_metrics::{METRIC_MF_SYNC_FAILURE, METRIC_MF_SYNC_SUCCESS};

verus! {

/// Whether the daemon stops or starts over (after a reload request).
#[derive(Clone, Copy, Debug, PartialEq, Eq, Structural)]
pub enum MemfaultLoopResult {
    Terminate,
    Relaunch,
}

/// What the loop does after an iteration.
#[derive(Clone, Copy, Debug, PartialEq, Eq, Structural)]
pub enum LoopContinuation {
    /// A termination or reload was requested.
    Stop,
    /// A sync was requested while the iteration ran.
    RerunImmediately,
    /// Wait for the next upload interval.
    KeepRunning,
}

/// How long the device configuration stays fresh: two hours, in nanoseconds.
pub const CONFIG_REFRESH_INTERVAL_NS: u128 = 7_200_000_000_000;

/// The period of the daily heartbeat, in seconds.
pub const DAILY_HEARTBEAT_INTERVAL_SECS: u64 = 86400;

/// The loop period when uploads only happen on request (the staging area is
/// still cleaned): fifteen minutes, in seconds.
pub const FORCED_SYNC_ONLY_INTERVAL_SECS: u64 = 900;

/// From the configured upload interval (seconds): whether uploads happen only
/// on request (an interval of zero), and the period of the loop.
pub fn upload_schedule(upload_interval_secs: u64) -> (r: (bool, u64))
    ensures
        r.0 == (upload_interval_secs == 0),
        r.1 == if upload_interval_secs == 0 {
            FORCED_SYNC_ONLY_INTERVAL_SECS
        } else {
            upload_interval_secs
        },
{
    let forced_sync_only = upload_interval_secs == 0;
    if forced_sync_only {
        (true, FORCED_SYNC_ONLY_INTERVAL_SECS)
    } else {
        (false, upload_interval_secs)
    }
}

/// Whether the device configuration has gone stale at `now_ns`: it was never
/// fetched, or its refresh interval has passed since.
pub open spec fn config_is_stale(last_refresh_ns: Option<u128>, now_ns: u128) -> bool {
    match last_refresh_ns {
        None => true,
        Some(t) => t + CONFIG_REFRESH_INTERVAL_NS < now_ns,
    }
}

/// Whether this iteration refreshes the device configuration: only with data
/// collection enabled, and then on a requested sync, or when periodic uploads
/// run and the configuration is stale.
pub fn should_refresh_device_config(
    enable_data_collection: bool,
    forced_sync_only: bool,
    last_refresh_ns: Option<u128>,
    now_ns: u128,
    forced: bool,
) -> (r: bool)
    ensures
        r == (enable_data_collection && ((!forced_sync_only && config_is_stale(
            last_refresh_ns,
            now_ns,
        )) || forced)),
{
    let stale = match last_refresh_ns {
        None => true,
        Some(t) => now_ns > t && now_ns - t > CONFIG_REFRESH_INTERVAL_NS,
    };
    enable_data_collection && ((!forced_sync_only && stale) || forced)
}

/// Whether this iteration collects and uploads the MAR entries: on periodic
/// uploads with data collection enabled, and on every requested sync.
pub fn should_collect_and_upload(enable_data_collection: bool, forced_sync_only: bool, forced: bool) -> (r: bool)
    ensures
        r == ((enable_data_collection && !forced_sync_only) || forced),
{
    (enable_data_collection && !forced_sync_only) || forced
}

/// The counter an upload increments: none when nothing was uploaded
/// (`Some(0)`), the success counter when entries were, the failure counter
/// when the upload failed (`None`).
pub fn sync_result_metric(uploaded: Option<usize>) -> (r: Option<&'static str>)
    ensures
        uploaded == Some(0usize) ==> r is None,
        (uploaded matches Some(n) && n > 0) ==> r == Some(METRIC_MF_SYNC_SUCCESS),
        uploaded is None ==> r == Some(METRIC_MF_SYNC_FAILURE),
{
    match uploaded {
        Some(0) => None,
        Some(_) => Some(METRIC_MF_SYNC_SUCCESS),
        None => Some(METRIC_MF_SYNC_FAILURE),
    }
}

/// After an iteration: stop on a termination or reload request, rerun at
/// once on a sync request, else keep the normal pace.
pub fn loop_continuation(term: bool, reload: bool, force_sync: bool) -> (r: LoopContinuation)
    ensures
        r == if term || reload {
            LoopContinuation::Stop
        } else if force_sync {
            LoopContinuation::RerunImmediately
        } else {
            LoopContinuation::KeepRunning
        },
{
    if term || reload {
        LoopContinuation::Stop
    } else if force_sync {
        LoopContinuation::RerunImmediately
    } else {
        LoopContinuation::KeepRunning
    }
}

/// How the loop ends: a relaunch when a reload was requested.
pub fn loop_result(reload: bool) -> (r: MemfaultLoopResult)
    ensures
        r == if reload {
            MemfaultLoopResult::Relaunch
        } else {
            MemfaultLoopResult::Terminate
        },
{
    if reload {
        MemfaultLoopResult::Relaunch
    } else {
        MemfaultLoopResult::Terminate
    }
}

} // verus!
