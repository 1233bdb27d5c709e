//! Time connected to the network, against the time the device was expected
//! to be.
use vstd::prelude::*;

use crate::metrics::core_metrics::{METRIC_CONNECTED_TIME, METRIC_EXPECTED_CONNECTED_TIME};
use crate::metrics::metric_string_key::MetricStringKey;

verus! {

/// Asks the connectivity monitor to check the connection.
#[derive(Clone, Copy, Debug)]
pub struct ConnectivityMonitorTick;

/// What one check adds to the connected-time counters: the time since the
/// previous check counts as connected time where a target could be reached,
/// and always as expected time. Times are in milliseconds.
pub fn connected_time_readings(since_last_check_ms: u128, connected: bool) -> (r: Vec<
    (MetricStringKey, u128),
>)
    ensures
        r@.len() == 2,
        r@[0].0@ == METRIC_CONNECTED_TIME@,
        r@[0].1 == if connected {
            since_last_check_ms
        } else {
            0
        },
        r@[1].0@ == METRIC_EXPECTED_CONNECTED_TIME@,
        r@[1].1 == since_last_check_ms,
{
    let connected_ms = if connected {
        since_last_check_ms
    } else {
        0
    };
    vec![
        (MetricStringKey::from(METRIC_CONNECTED_TIME), connected_ms),
        (MetricStringKey::from(METRIC_EXPECTED_CONNECTED_TIME), since_last_check_ms),
    ]
}

/// When the connection was last checked (in nanoseconds on a monotonic
/// clock), if ever.
pub struct ConnectivityMonitor {
    last_checked_at: Option<u128>,
}

/// Whole milliseconds from `earlier` to `now` (none when `now` is earlier).
pub open spec fn elapsed_ms(earlier: u128, now: u128) -> u128 {
    if now > earlier {
        ((now - earlier) / 1_000_000) as u128
    } else {
        0
    }
}

impl ConnectivityMonitor {
    pub closed spec fn spec_last_checked_at(&self) -> Option<u128> {
        self.last_checked_at
    }

    /// A monitor that never checked.
    pub fn new() -> (r: Self)
        ensures
            r.spec_last_checked_at() is None,
    {
        ConnectivityMonitor { last_checked_at: None }
    }

    /// One check at `now_ns`, `connected` telling whether a target could be
    /// reached: the time since the previous check (none at the first check)
    /// is added to the expected time, and to the connected time where
    /// connected. The check is then the last one.
    pub fn update_connected_time(&mut self, now_ns: u128, connected: bool) -> (r: Vec<
        (MetricStringKey, u128),
    >)
        ensures
            final(self).spec_last_checked_at() == Some(now_ns),
            ({
                let since = match old(self).spec_last_checked_at() {
                    Some(t) => elapsed_ms(t, now_ns),
                    None => 0,
                };
                &&& r@.len() == 2
                &&& r@[0].0@ == METRIC_CONNECTED_TIME@
                &&& r@[0].1 == if connected {
                    since
                } else {
                    0
                }
                &&& r@[1].0@ == METRIC_EXPECTED_CONNECTED_TIME@
                &&& r@[1].1 == since
            }),
    {
        let since = match self.last_checked_at {
            Some(t) => if now_ns > t {
                (now_ns - t) / 1_000_000
            } else {
                0
            },
            None => 0,
        };
        self.last_checked_at = Some(now_ns);
        connected_time_readings(since, connected)
    }
}

} // verus!
