//! Operational and crash-free intervals (hours, by default): every full
//! interval of uptime counts as operational, and as crash-free where no
//! crash happened in it. Times are nanoseconds of a monotonic clock.
use vstd::prelude::*;

use crate::metrics::core_metrics::{
    METRIC_OPERATIONAL_CRASHES, METRIC_OPERATIONAL_CRASHFREE_HOURS, METRIC_OPERATIONAL_HOURS,
};
use crate::metrics::metric_string_key::MetricStringKey;

verus! {

/// One hour, in nanoseconds.
pub const HOUR_NS: u128 = 3600000000000;

/// How many full intervals elapsed, and where the last one counted ends.
#[derive(Clone, Copy, Debug, PartialEq, Eq, Structural)]
pub struct TimeMod {
    pub count: u32,
    pub mark: u128,
}

/// The number of whole `interval`s between `since` and `now` (modulo 2^32,
/// the width of the count), and the end of the last one counted: `since`
/// moved forward by that many intervals. A `since` in the future counts
/// nothing and restarts from `now`.
pub open spec fn intervals_since(interval: u128, since: u128, now: u128) -> TimeMod {
    if since > now {
        TimeMod { count: 0, mark: now }
    } else {
        let count = ((((now - since) as int) / (interval as int)) % 0x1_0000_0000) as u32;
        TimeMod { count, mark: (since + interval * count) as u128 }
    }
}

/// Counting from a mark in the past moves it by exactly the intervals
/// counted, and leaves less than one interval uncounted: the next update
/// counts an interval as soon as it is complete, and never counts one twice.
/// (Stated where the count fits in its 32 bits.)
pub proof fn law_whole_intervals_counted(interval: u128, since: u128, now: u128)
    requires
        interval > 0,
        since <= now,
        (now - since) as int / interval as int <= u32::MAX,
    ensures
        ({
            let t = intervals_since(interval, since, now);
            &&& t.mark == since + interval * t.count
            &&& t.mark <= now < t.mark + interval
        }),
{
    let x = (now - since) as int;
    let d = interval as int;
    vstd::arithmetic::div_mod::lemma_fundamental_div_mod(x, d);
    let q = x / d;
    assert(q % 0x1_0000_0000 == q);
    assert(0 <= x % d < d);
}

/// Counts the whole `interval`s elapsed from `since` to `now` (see
/// `intervals_since`).
pub fn full_interval_elapsed_since(interval: u128, since: u128, now: u128) -> (r: TimeMod)
    requires
        interval > 0,
    ensures
        r == intervals_since(interval, since, now),
        r.mark <= now,
{
    if since > now {
        return TimeMod { count: 0, mark: now };
    }
    let q = (now - since) / interval;
    let count = (q % 0x1_0000_0000) as u32;
    proof {
        assert(count <= q);
        assert(interval * count <= interval * q) by (nonlinear_arith)
            requires
                count <= q,
        ;
        assert(interval * q <= now - since) by (nonlinear_arith)
            requires
                q == ((now - since) as int) / (interval as int),
                interval > 0,
                now >= since,
        ;
    }
    TimeMod { count, mark: since + interval * (count as u128) }
}

/// Tracks the operational and crash-free intervals.
pub struct CrashFreeIntervalTracker {
    last_interval_mark: u128,
    last_crashfree_interval_mark: u128,
    crash_count: u32,
    interval: u128,
    elapsed_intervals_key: MetricStringKey,
    crashfree_intervals_key: MetricStringKey,
    crash_count_key: MetricStringKey,
}

impl CrashFreeIntervalTracker {
    #[verifier::type_invariant]
    spec fn interval_positive(self) -> bool {
        self.interval > 0
    }

    /// The end of the last operational interval counted.
    pub closed spec fn spec_interval_mark(&self) -> u128 {
        self.last_interval_mark
    }

    /// The end of the last crash-free interval counted, or the time of the
    /// last crash where that is later.
    pub closed spec fn spec_crashfree_mark(&self) -> u128 {
        self.last_crashfree_interval_mark
    }

    /// The crashes since the last update.
    pub closed spec fn spec_crash_count(&self) -> u32 {
        self.crash_count
    }

    pub closed spec fn spec_interval(&self) -> u128 {
        self.interval
    }

    pub closed spec fn spec_keys(&self) -> (Seq<char>, Seq<char>, Seq<char>) {
        (self.elapsed_intervals_key@, self.crashfree_intervals_key@, self.crash_count_key@)
    }

    /// A tracker of intervals of `interval` nanoseconds, started at `now`.
    pub fn new(
        interval: u128,
        elapsed_intervals_key: &'static str,
        crashfree_intervals_key: &'static str,
        crash_count_key: &'static str,
        now: u128,
    ) -> (r: Self)
        requires
            interval > 0,
        ensures
            r.spec_interval() == interval,
            r.spec_interval_mark() == now,
            r.spec_crashfree_mark() == now,
            r.spec_crash_count() == 0,
            r.spec_keys() == (elapsed_intervals_key@, crashfree_intervals_key@, crash_count_key@),
    {
        CrashFreeIntervalTracker {
            last_interval_mark: now,
            last_crashfree_interval_mark: now,
            crash_count: 0,
            interval,
            elapsed_intervals_key: MetricStringKey::from(elapsed_intervals_key),
            crashfree_intervals_key: MetricStringKey::from(crashfree_intervals_key),
            crash_count_key: MetricStringKey::from(crash_count_key),
        }
    }

    /// A tracker of hours, counted as operational hours, crash-free hours
    /// and crashes.
    pub fn new_hourly(now: u128) -> (r: Self)
        ensures
            r.spec_interval() == HOUR_NS,
            r.spec_interval_mark() == now,
            r.spec_crashfree_mark() == now,
            r.spec_crash_count() == 0,
            r.spec_keys() == (
                METRIC_OPERATIONAL_HOURS@,
                METRIC_OPERATIONAL_CRASHFREE_HOURS@,
                METRIC_OPERATIONAL_CRASHES@,
            ),
    {
        Self::new(
            HOUR_NS,
            METRIC_OPERATIONAL_HOURS,
            METRIC_OPERATIONAL_CRASHFREE_HOURS,
            METRIC_OPERATIONAL_CRASHES,
            now,
        )
    }

    /// Records a crash that happened at `crash_time`: no crash-free interval
    /// can end before it.
    pub fn capture_crash_at(&mut self, crash_time: u128)
        requires
            old(self).spec_crash_count() < u32::MAX,
        ensures
            final(self).spec_crash_count() == old(self).spec_crash_count() + 1,
            final(self).spec_crashfree_mark() == if crash_time > old(self).spec_crashfree_mark() {
                crash_time
            } else {
                old(self).spec_crashfree_mark()
            },
            final(self).spec_interval_mark() == old(self).spec_interval_mark(),
            final(self).spec_interval() == old(self).spec_interval(),
            final(self).spec_keys() == old(self).spec_keys(),
    {
        proof {
            use_type_invariant(&*self);
        }
        self.crash_count = self.crash_count + 1;
        if crash_time > self.last_crashfree_interval_mark {
            self.last_crashfree_interval_mark = crash_time;
        }
    }

    /// Counts the intervals elapsed up to `now`: gives the operational
    /// intervals, the crash-free intervals and the crashes since the last
    /// update, under their keys, and moves both marks past the intervals
    /// counted.
    pub fn update(&mut self, now: u128) -> (r: Vec<(MetricStringKey, u64)>)
        ensures
            ({
                let op = intervals_since(old(self).spec_interval(), old(self).spec_interval_mark(), now);
                let cf = intervals_since(old(self).spec_interval(), old(self).spec_crashfree_mark(), now);
                &&& r@.len() == 3
                &&& r@[0].0@ == old(self).spec_keys().0 && r@[0].1 == op.count
                &&& r@[1].0@ == old(self).spec_keys().1 && r@[1].1 == cf.count
                &&& r@[2].0@ == old(self).spec_keys().2 && r@[2].1 == old(self).spec_crash_count()
                &&& final(self).spec_interval_mark() == op.mark
                &&& final(self).spec_crashfree_mark() == cf.mark
                &&& final(self).spec_crash_count() == 0
                &&& final(self).spec_interval() == old(self).spec_interval()
                &&& final(self).spec_keys() == old(self).spec_keys()
            }),
    {
        proof {
            use_type_invariant(&*self);
        }
        let op = full_interval_elapsed_since(self.interval, self.last_interval_mark, now);
        let cf = full_interval_elapsed_since(self.interval, self.last_crashfree_interval_mark, now);
        self.last_interval_mark = op.mark;
        self.last_crashfree_interval_mark = cf.mark;
        let crashes = self.crash_count;
        self.crash_count = 0;
        vec![
            (self.elapsed_intervals_key.duplicate(), op.count as u64),
            (self.crashfree_intervals_key.duplicate(), cf.count as u64),
            (self.crash_count_key.duplicate(), crashes as u64),
        ]
    }
}

} // verus!
