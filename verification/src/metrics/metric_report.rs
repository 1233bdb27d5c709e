//! Report types and the selection of the metrics a report captures.
use vstd::prelude::*;

use crate::metrics::core_metrics::{
    key_views, pattern_views, METRIC_CPU_USAGE_PCT, METRIC_CPU_USAGE_PROCESS_PCT_PREFIX,
    METRIC_CPU_USAGE_PROCESS_PCT_SUFFIX, METRIC_MEMORY_PCT, METRIC_MEMORY_PROCESS_PCT_PREFIX,
    METRIC_MEMORY_PROCESS_PCT_SUFFIX,
};
use crate::config::SessionConfig;
use crate::metrics::core_metrics::CoreMetricKeys;
use crate::metrics::metric_string_key::MetricStringKey;
use crate::metrics::session_name::SessionName;
use crate::util::wildcard_pattern::{wildcard_matches, WildcardPattern};

verus! {

pub const NETWORK_INTERFACE_METRIC_NAMESPACE: &'static str = "interface";

pub const METRIC_INTERFACE_BYTES_PER_SECOND_RX_SUFFIX: &'static str = "bytes_per_second/rx";

pub const METRIC_INTERFACE_BYTES_PER_SECOND_TX_SUFFIX: &'static str = "bytes_per_second/tx";

pub const THERMAL_METRIC_NAMESPACE: &'static str = "thermal";

/// Which metrics a report captures.
pub enum CapturedMetrics {
    All,
    Metrics(MetricsSet),
}

/// A set of metric keys: keys given in full, and `<prefix>*<suffix>`
/// patterns.
pub struct MetricsSet {
    pub metric_keys: Vec<MetricStringKey>,
    pub wildcard_metric_keys: Vec<WildcardPattern>,
}

/// Whether `key` is one of `keys` or matches one of `patterns`.
pub open spec fn set_contains(
    keys: Seq<Seq<char>>,
    patterns: Seq<(Seq<char>, Seq<char>)>,
    key: Seq<char>,
) -> bool {
    keys.contains(key) || exists|j: int|
        0 <= j < patterns.len() && wildcard_matches(
            (#[trigger] patterns[j]).0,
            patterns[j].1,
            key,
        )
}

impl MetricsSet {
    pub open spec fn spec_contains(&self, key: Seq<char>) -> bool {
        set_contains(key_views(self.metric_keys@), pattern_views(self.wildcard_metric_keys@), key)
    }

    /// Whether the key is in the set.
    pub fn contains(&self, metric_string_key: &MetricStringKey) -> (r: bool)
        ensures
            r == self.spec_contains(metric_string_key@),
    {
        let ghost keys = key_views(self.metric_keys@);
        let ghost pats = pattern_views(self.wildcard_metric_keys@);
        let mut i: usize = 0;
        while i < self.metric_keys.len()
            invariant
                0 <= i <= self.metric_keys@.len(),
                keys == key_views(self.metric_keys@),
                forall|k: int| 0 <= k < i ==> keys[k] != metric_string_key@,
            decreases self.metric_keys@.len() - i,
        {
            if self.metric_keys[i].same_as(metric_string_key) {
                assert(keys[i as int] == metric_string_key@);
                return true;
            }
            i = i + 1;
        }
        assert(!keys.contains(metric_string_key@));
        let s = metric_string_key.as_str();
        let mut j: usize = 0;
        while j < self.wildcard_metric_keys.len()
            invariant
                0 <= j <= self.wildcard_metric_keys@.len(),
                pats == pattern_views(self.wildcard_metric_keys@),
                s@ == metric_string_key@,
                forall|k: int| 0 <= k < j ==> !wildcard_matches(pats[k].0, pats[k].1, s@),
            decreases self.wildcard_metric_keys@.len() - j,
        {
            if self.wildcard_metric_keys[j].matches(s) {
                assert(pats[j as int] == self.wildcard_metric_keys@[j as int]@);
                return true;
            }
            j = j + 1;
        }
        false
    }
}

/// The keys whose histograms also report a minimum and a maximum.
pub fn histo_min_max_keys() -> (r: MetricsSet)
    ensures
        key_views(r.metric_keys@) == seq![METRIC_CPU_USAGE_PCT@, METRIC_MEMORY_PCT@],
        pattern_views(r.wildcard_metric_keys@) == seq![
            (METRIC_CPU_USAGE_PROCESS_PCT_PREFIX@, METRIC_CPU_USAGE_PROCESS_PCT_SUFFIX@),
            (METRIC_MEMORY_PROCESS_PCT_PREFIX@, METRIC_MEMORY_PROCESS_PCT_SUFFIX@),
            (NETWORK_INTERFACE_METRIC_NAMESPACE@, METRIC_INTERFACE_BYTES_PER_SECOND_RX_SUFFIX@),
            (NETWORK_INTERFACE_METRIC_NAMESPACE@, METRIC_INTERFACE_BYTES_PER_SECOND_TX_SUFFIX@),
            (THERMAL_METRIC_NAMESPACE@, ""@),
        ],
{
    let mut metric_keys: Vec<MetricStringKey> = Vec::new();
    metric_keys.push(MetricStringKey::from(METRIC_CPU_USAGE_PCT));
    metric_keys.push(MetricStringKey::from(METRIC_MEMORY_PCT));
    let mut wildcard_metric_keys: Vec<WildcardPattern> = Vec::new();
    wildcard_metric_keys.push(
        WildcardPattern::new(METRIC_CPU_USAGE_PROCESS_PCT_PREFIX, METRIC_CPU_USAGE_PROCESS_PCT_SUFFIX),
    );
    wildcard_metric_keys.push(
        WildcardPattern::new(METRIC_MEMORY_PROCESS_PCT_PREFIX, METRIC_MEMORY_PROCESS_PCT_SUFFIX),
    );
    wildcard_metric_keys.push(
        WildcardPattern::new(
            NETWORK_INTERFACE_METRIC_NAMESPACE,
            METRIC_INTERFACE_BYTES_PER_SECOND_RX_SUFFIX,
        ),
    );
    wildcard_metric_keys.push(
        WildcardPattern::new(
            NETWORK_INTERFACE_METRIC_NAMESPACE,
            METRIC_INTERFACE_BYTES_PER_SECOND_TX_SUFFIX,
        ),
    );
    wildcard_metric_keys.push(WildcardPattern::new(THERMAL_METRIC_NAMESPACE, ""));
    let r = MetricsSet { metric_keys, wildcard_metric_keys };
    assert(key_views(r.metric_keys@) =~= seq![METRIC_CPU_USAGE_PCT@, METRIC_MEMORY_PCT@]);
    assert(pattern_views(r.wildcard_metric_keys@) =~= seq![
        (METRIC_CPU_USAGE_PROCESS_PCT_PREFIX@, METRIC_CPU_USAGE_PROCESS_PCT_SUFFIX@),
        (METRIC_MEMORY_PROCESS_PCT_PREFIX@, METRIC_MEMORY_PROCESS_PCT_SUFFIX@),
        (NETWORK_INTERFACE_METRIC_NAMESPACE@, METRIC_INTERFACE_BYTES_PER_SECOND_RX_SUFFIX@),
        (NETWORK_INTERFACE_METRIC_NAMESPACE@, METRIC_INTERFACE_BYTES_PER_SECOND_TX_SUFFIX@),
        (THERMAL_METRIC_NAMESPACE@, ""@),
    ]);
    r
}

pub const HEARTBEAT_REPORT_TYPE: &'static str = "heartbeat";

pub const DAILY_HEARTBEAT_REPORT_TYPE: &'static str = "daily-heartbeat";

/// The kind of a metric report: a heartbeat, a daily heartbeat or a named
/// session.
#[derive(Clone, PartialEq, Eq, Debug)]
pub enum MetricReportType {
    Heartbeat,
    Session(SessionName),
    DailyHeartbeat,
}

impl MetricReportType {
    pub open spec fn spec_str(&self) -> Seq<char> {
        match self {
            MetricReportType::Heartbeat => HEARTBEAT_REPORT_TYPE@,
            MetricReportType::Session(name) => name@,
            MetricReportType::DailyHeartbeat => DAILY_HEARTBEAT_REPORT_TYPE@,
        }
    }

    /// The name of the report type; a session is named by its session name.
    pub fn as_str(&self) -> (r: &str)
        ensures
            r@ == self.spec_str(),
    {
        match self {
            MetricReportType::Heartbeat => HEARTBEAT_REPORT_TYPE,
            MetricReportType::Session(session_name) => session_name.as_str(),
            MetricReportType::DailyHeartbeat => DAILY_HEARTBEAT_REPORT_TYPE,
        }
    }
}

/// Whether a report with the given capture configuration captures the key.
pub fn is_captured(captured_metrics: &CapturedMetrics, metric_key: &MetricStringKey) -> (r: bool)
    ensures
        r == match captured_metrics {
            CapturedMetrics::All => true,
            CapturedMetrics::Metrics(set) => set.spec_contains(metric_key@),
        },
{
    match captured_metrics {
        CapturedMetrics::Metrics(metric_keys) => metric_keys.contains(metric_key),
        CapturedMetrics::All => true,
    }
}

/// The first configured session called `name`.
pub open spec fn session_config_index(configs: Seq<SessionConfig>, name: Seq<char>) -> Option<int>
    decreases configs.len(),
{
    if configs.len() == 0 {
        None
    } else if configs.last().name@ == name {
        match session_config_index(configs.drop_last(), name) {
            Some(i) => Some(i),
            None => Some(configs.len() - 1),
        }
    } else {
        session_config_index(configs.drop_last(), name)
    }
}

fn copy_keys(keys: &Vec<MetricStringKey>, into: &mut Vec<MetricStringKey>)
    ensures
        key_views(final(into)@) == key_views(old(into)@) + key_views(keys@),
{
    let ghost start = key_views(into@);
    let mut i: usize = 0;
    while i < keys.len()
        invariant
            0 <= i <= keys@.len(),
            key_views(into@) == start + key_views(keys@).take(i as int),
        decreases keys@.len() - i,
    {
        let ghost before = key_views(into@);
        into.push(keys[i].duplicate());
        assert(key_views(into@) =~= before.push(keys@[i as int]@));
        assert(key_views(keys@).take(i + 1) =~= key_views(keys@).take(i as int).push(keys@[i as int]@));
        i = i + 1;
    }
    assert(key_views(keys@).take(keys@.len() as int) =~= key_views(keys@));
}

fn copy_patterns(patterns: &Vec<WildcardPattern>) -> (r: Vec<WildcardPattern>)
    ensures
        pattern_views(r@) == pattern_views(patterns@),
{
    let mut r: Vec<WildcardPattern> = Vec::new();
    let mut i: usize = 0;
    while i < patterns.len()
        invariant
            0 <= i <= patterns@.len(),
            pattern_views(r@) == pattern_views(patterns@).take(i as int),
        decreases patterns@.len() - i,
    {
        let ghost before = pattern_views(r@);
        r.push(patterns[i].duplicate());
        assert(pattern_views(r@) =~= before.push(patterns@[i as int]@));
        assert(pattern_views(patterns@).take(i + 1) =~= pattern_views(patterns@).take(i as int).push(
            patterns@[i as int]@,
        ));
        i = i + 1;
    }
    assert(pattern_views(patterns@).take(patterns@.len() as int) =~= pattern_views(patterns@));
    r
}

/// The metrics that a report of the given type captures: all of them for
/// the heartbeats; for a session, the metrics of its configuration and the
/// core metrics of every session. `None` where no session of that name is
/// configured.
pub fn captured_metric_keys_for_report(
    session_configs: &Vec<SessionConfig>,
    core_metrics: &CoreMetricKeys,
    report_type: &MetricReportType,
) -> (r: Option<CapturedMetrics>)
    ensures
        !(report_type is Session) ==> r matches Some(CapturedMetrics::All),
        report_type matches MetricReportType::Session(name) ==> match session_config_index(
            session_configs@,
            name@,
        ) {
            None => r is None,
            Some(i) => r matches Some(CapturedMetrics::Metrics(set)) && key_views(set.metric_keys@)
                == key_views(session_configs@[i].captured_metrics@) + key_views(
                core_metrics.string_keys@,
            ) && pattern_views(set.wildcard_metric_keys@) == pattern_views(
                core_metrics.wildcard_pattern_keys@,
            ),
        },
{
    match report_type {
        MetricReportType::Heartbeat => Some(CapturedMetrics::All),
        MetricReportType::DailyHeartbeat => Some(CapturedMetrics::All),
        MetricReportType::Session(session_name) => {
            match find_session_config(session_configs, session_name) {
                Some(i) => {
                    let mut metric_keys: Vec<MetricStringKey> = Vec::new();
                    assert(key_views(metric_keys@) =~= Seq::empty());
                    copy_keys(&session_configs[i].captured_metrics, &mut metric_keys);
                    copy_keys(&core_metrics.string_keys, &mut metric_keys);
                    assert(Seq::<Seq<char>>::empty() + key_views(
                        session_configs@[i as int].captured_metrics@,
                    ) =~= key_views(session_configs@[i as int].captured_metrics@));
                    let wildcard_metric_keys = copy_patterns(&core_metrics.wildcard_pattern_keys);
                    Some(CapturedMetrics::Metrics(MetricsSet { metric_keys, wildcard_metric_keys }))
                },
                None => None,
            }
        },
    }
}

/// Where the first configured session called `name` is.
fn find_session_config(session_configs: &Vec<SessionConfig>, name: &SessionName) -> (r: Option<usize>)
    ensures
        r matches Some(i) ==> session_config_index(session_configs@, name@) == Some(i as int) && i
            < session_configs@.len(),
        r is None ==> session_config_index(session_configs@, name@) is None,
{
    proof {
        lemma_index_first(session_configs@, name@);
    }
    let mut i: usize = 0;
    while i < session_configs.len()
        invariant
            0 <= i <= session_configs@.len(),
            session_config_index(session_configs@, name@) == session_config_index_from(
                session_configs@,
                name@,
                i as int,
            ),
        decreases session_configs@.len() - i,
    {
        if session_configs[i].name.same_as(name) {
            return Some(i);
        }
        i = i + 1;
    }
    None
}

/// The first configured session called `name` at or after position `i`.
pub open spec fn session_config_index_from(configs: Seq<SessionConfig>, name: Seq<char>, i: int) -> Option<
    int,
>
    decreases configs.len() - i,
{
    if i < 0 || i >= configs.len() {
        None
    } else if configs[i].name@ == name {
        Some(i)
    } else {
        session_config_index_from(configs, name, i + 1)
    }
}

proof fn lemma_index_first(configs: Seq<SessionConfig>, name: Seq<char>)
    ensures
        session_config_index(configs, name) == session_config_index_from(configs, name, 0),
    decreases configs.len(),
{
    if configs.len() > 0 {
        let init = configs.drop_last();
        lemma_index_first(init, name);
        lemma_index_from_prefix(configs, name, 0);
    }
}

/// Searching the sequence from `i` finds what searching all but its last
/// element finds, and the last element where that finds nothing.
proof fn lemma_index_from_prefix(configs: Seq<SessionConfig>, name: Seq<char>, i: int)
    requires
        configs.len() > 0,
        0 <= i <= configs.len() - 1,
    ensures
        session_config_index_from(configs, name, i) == match session_config_index_from(
            configs.drop_last(),
            name,
            i,
        ) {
            Some(j) => Some(j),
            None => if configs.last().name@ == name {
                Some(configs.len() - 1)
            } else {
                None
            },
        },
    decreases configs.len() - i,
{
    assert(configs.last() == configs[configs.len() - 1]);
    if i < configs.len() - 1 {
        assert(configs.drop_last()[i] == configs[i]);
        if configs[i].name@ != name {
            lemma_index_from_prefix(configs, name, i + 1);
        }
    }
}

/// The keys under which a histogram of `name` is reported: with `_max` and
/// `_min` keys before the average for the keys of `min_max`, else the
/// average alone.
pub open spec fn spec_histogram_keys(min_max: MetricsSet, name: Seq<char>) -> Seq<Seq<char>> {
    if min_max.spec_contains(name) {
        seq![name + "_max"@, name + "_min"@, name]
    } else {
        seq![name]
    }
}

/// The keys of the values a histogram of `name` is reported as, in order
/// (see `spec_histogram_keys`): the maximum, the minimum, the average.
pub fn histogram_report_keys(min_max: &MetricsSet, name: &MetricStringKey) -> (r: Vec<
    MetricStringKey,
>)
    ensures
        r@.map_values(|k: MetricStringKey| k@) == spec_histogram_keys(*min_max, name@),
{
    let mut keys: Vec<MetricStringKey> = Vec::new();
    if min_max.contains(name) {
        keys.push(name.with_suffix("_max"));
        keys.push(name.with_suffix("_min"));
    }
    keys.push(name.duplicate());
    assert(keys@.map_values(|k: MetricStringKey| k@) =~= spec_histogram_keys(*min_max, name@));
    keys
}

/// The reports of the ongoing sessions, one per session name.
pub struct SessionReports<R> {
    sessions: Vec<(SessionName, R)>,
}

impl<R> SessionReports<R> {
    #[verifier::type_invariant]
    spec fn names_distinct(self) -> bool {
        forall|i: int, j: int|
            0 <= i < self.sessions@.len() && 0 <= j < self.sessions@.len() && i != j
                ==> #[trigger] self.sessions@[i].0@ != #[trigger] self.sessions@[j].0@
    }

    /// Whether a session called `name` is ongoing.
    pub closed spec fn has(&self, name: Seq<char>) -> bool {
        exists|i: int| 0 <= i < self.sessions@.len() && #[trigger] self.sessions@[i].0@ == name
    }

    /// The report of the ongoing session called `name`.
    pub closed spec fn report_of(&self, name: Seq<char>) -> R {
        self.sessions@[choose|i: int|
            0 <= i < self.sessions@.len() && #[trigger] self.sessions@[i].0@ == name].1
    }
}

impl<R> View for SessionReports<R> {
    type V = Map<Seq<char>, R>;

    closed spec fn view(&self) -> Map<Seq<char>, R> {
        Map::new(|k: Seq<char>| self.has(k), |k: Seq<char>| self.report_of(k))
    }
}

impl<R> SessionReports<R> {
    /// No ongoing session.
    pub fn new() -> (r: Self)
        ensures
            r@ == Map::<Seq<char>, R>::empty(),
    {
        let r = SessionReports { sessions: Vec::new() };
        assert(r@ =~= Map::<Seq<char>, R>::empty());
        r
    }

    fn position(&self, name: &SessionName) -> (r: Option<usize>)
        ensures
            r matches Some(i) ==> i < self.sessions@.len() && self.sessions@[i as int].0@ == name@,
            r is None ==> !self.has(name@),
    {
        let mut i: usize = 0;
        while i < self.sessions.len()
            invariant
                0 <= i <= self.sessions@.len(),
                forall|j: int| 0 <= j < i ==> #[trigger] self.sessions@[j].0@ != name@,
            decreases self.sessions@.len() - i,
        {
            if self.sessions[i].0.same_as(name) {
                return Some(i);
            }
            i = i + 1;
        }
        None
    }

    /// Whether a session called `name` is ongoing.
    pub fn is_ongoing(&self, name: &SessionName) -> (r: bool)
        ensures
            r == self@.contains_key(name@),
    {
        self.position(name).is_some()
    }

    /// The names of the ongoing sessions, each once.
    pub fn ongoing(&self) -> (r: Vec<SessionName>)
        ensures
            forall|k: Seq<char>|
                self@.contains_key(k) <==> exists|i: int| 0 <= i < r@.len() && (#[trigger] r@[i])@ == k,
            forall|i: int, j: int|
                0 <= i < r@.len() && 0 <= j < r@.len() && i != j ==> (#[trigger] r@[i])@ != (
                #[trigger] r@[j])@,
    {
        proof {
            use_type_invariant(self);
        }
        let mut names: Vec<SessionName> = Vec::new();
        let mut i: usize = 0;
        while i < self.sessions.len()
            invariant
                0 <= i <= self.sessions@.len(),
                names@.len() == i,
                forall|j: int| 0 <= j < i ==> (#[trigger] names@[j])@ == self.sessions@[j].0@,
                forall|a: int, b: int|
                    0 <= a < self.sessions@.len() && 0 <= b < self.sessions@.len() && a != b
                        ==> #[trigger] self.sessions@[a].0@ != #[trigger] self.sessions@[b].0@,
            decreases self.sessions@.len() - i,
        {
            names.push(self.sessions[i].0.duplicate());
            i = i + 1;
        }
        proof {
            assert forall|k: Seq<char>| self@.contains_key(k) <==> exists|i: int|
                0 <= i < names@.len() && (#[trigger] names@[i])@ == k by {
                if self@.contains_key(k) {
                    let j = choose|j: int|
                        0 <= j < self.sessions@.len() && #[trigger] self.sessions@[j].0@ == k;
                    assert(names@[j]@ == k);
                }
                if exists|i: int| 0 <= i < names@.len() && (#[trigger] names@[i])@ == k {
                    let i = choose|i: int| 0 <= i < names@.len() && (#[trigger] names@[i])@ == k;
                    assert(self.sessions@[i].0@ == k);
                }
            }
        }
        names
    }

    /// Starts the session `name` with `report`, unless it is ongoing: then
    /// its report is kept and `report` is dropped. Says whether it started.
    pub fn start(&mut self, name: SessionName, report: R) -> (r: bool)
        ensures
            r == !old(self)@.contains_key(name@),
            r ==> final(self)@ == old(self)@.insert(name@, report),
            !r ==> final(self)@ == old(self)@,
    {
        proof {
            use_type_invariant(&*self);
        }
        if self.position(&name).is_some() {
            return false;
        }
        let ghost before = self.sessions@;
        let ghost old_view = self@;
        let ghost key = name@;
        let mut sessions: Vec<(SessionName, R)> = Vec::new();
        std::mem::swap(&mut sessions, &mut self.sessions);
        sessions.push((name, report));
        proof {
            assert forall|a: int, b: int|
                0 <= a < sessions@.len() && 0 <= b < sessions@.len() && a != b implies #[trigger] sessions@[a].0@
                != #[trigger] sessions@[b].0@ by {
                if a < before.len() && b < before.len() {
                    assert(before[a].0@ != before[b].0@);
                } else if a < before.len() {
                    assert(before[a].0@ != key);
                } else {
                    assert(before[b].0@ != key);
                }
            }
        }
        self.sessions = sessions;
        proof {
            let n = before.len() as int;
            assert forall|k: Seq<char>| #[trigger] self.has(k) == (k == key || old_view.contains_key(k)) by {
                if k == key {
                    assert(self.sessions@[n].0@ == k);
                } else if old_view.contains_key(k) {
                    let j = choose|j: int| 0 <= j < before.len() && #[trigger] before[j].0@ == k;
                    assert(self.sessions@[j].0@ == k);
                } else if self.has(k) {
                    let j = choose|j: int|
                        0 <= j < self.sessions@.len() && #[trigger] self.sessions@[j].0@ == k;
                    assert(before[j].0@ == k);
                }
            }
            assert forall|k: Seq<char>| #[trigger] self.has(k) implies self.report_of(k) == (if k
                == key {
                report
            } else {
                old_view[k]
            }) by {
                let j = choose|j: int| 0 <= j < self.sessions@.len() && #[trigger] self.sessions@[j].0@ == k;
                if k == key {
                    assert(self.sessions@[n].0@ == k);
                } else {
                    let jb = choose|jb: int| 0 <= jb < before.len() && #[trigger] before[jb].0@ == k;
                    assert(self.sessions@[jb].0@ == k);
                }
            }
            assert(self@ =~= old_view.insert(key, report));
        }
        true
    }

    /// Ends the session `name` and hands back its report; `None` when no such
    /// session is ongoing.
    pub fn stop(&mut self, name: &SessionName) -> (r: Option<R>)
        ensures
            old(self)@.contains_key(name@) ==> r == Some(old(self)@[name@]) && final(self)@
                == old(self)@.remove(name@),
            !old(self)@.contains_key(name@) ==> r is None && final(self)@ == old(self)@,
    {
        proof {
            use_type_invariant(&*self);
        }
        match self.position(name) {
            None => None,
            Some(i) => {
                let ghost before = self.sessions@;
                let ghost old_view = self@;
                let ghost key = name@;
                proof {
                    assert(self.has(key));
                    let c = choose|j: int| 0 <= j < before.len() && #[trigger] before[j].0@ == key;
                    assert(c == i);
                }
                let mut sessions: Vec<(SessionName, R)> = Vec::new();
                std::mem::swap(&mut sessions, &mut self.sessions);
                let (_, report) = sessions.remove(i);
                proof {
                    assert(sessions@ == before.remove(i as int));
                    assert forall|a: int, b: int|
                        0 <= a < sessions@.len() && 0 <= b < sessions@.len() && a != b implies #[trigger] sessions@[a].0@
                        != #[trigger] sessions@[b].0@ by {
                        let a0 = if a < i { a } else { a + 1 };
                        let b0 = if b < i { b } else { b + 1 };
                        assert(sessions@[a] == before[a0] && sessions@[b] == before[b0]);
                        assert(before[a0].0@ != before[b0].0@);
                    }
                }
                self.sessions = sessions;
                proof {
                    assert forall|k: Seq<char>| #[trigger] self.has(k) == (k != key && old_view.contains_key(k)) by {
                        if self.has(k) {
                            let j = choose|j: int|
                                0 <= j < self.sessions@.len() && #[trigger] self.sessions@[j].0@ == k;
                            let j0 = if j < i { j } else { j + 1 };
                            assert(self.sessions@[j] == before[j0]);
                            assert(before[j0].0@ == k);
                            assert(j0 != i);
                            assert(before[i as int].0@ == key);
                        }
                        if k != key && old_view.contains_key(k) {
                            let j = choose|j: int| 0 <= j < before.len() && #[trigger] before[j].0@ == k;
                            assert(j != i);
                            let jn = if j < i { j } else { j - 1 };
                            assert(self.sessions@[jn] == before[j]);
                            assert(self.sessions@[jn].0@ == k);
                        }
                    }
                    assert forall|k: Seq<char>| #[trigger] self.has(k) implies self.report_of(k)
                        == old_view[k] by {
                        let j = choose|j: int|
                            0 <= j < self.sessions@.len() && #[trigger] self.sessions@[j].0@ == k;
                        let j0 = if j < i { j } else { j + 1 };
                        assert(self.sessions@[j] == before[j0]);
                        let jb = choose|jb: int| 0 <= jb < before.len() && #[trigger] before[jb].0@ == k;
                        assert(before[j0].0@ == k);
                        assert(jb == j0);
                    }
                    assert(self@ =~= old_view.remove(key));
                }
                Some(report)
            },
        }
    }
}

/// A session that is started is ongoing with the report it was started
/// with; once stopped it is no longer ongoing, and the other sessions are
/// as they were before it started.
pub proof fn law_session_lifecycle<R>(sessions: Map<Seq<char>, R>, name: Seq<char>, report: R)
    requires
        !sessions.contains_key(name),
    ensures
        sessions.insert(name, report).contains_key(name),
        sessions.insert(name, report)[name] == report,
        !sessions.insert(name, report).remove(name).contains_key(name),
        sessions.insert(name, report).remove(name) == sessions,
{
    assert(sessions.insert(name, report).remove(name) =~= sessions);
}

/// What starting a session does.
pub enum SessionStart {
    /// The session is already ongoing: its report is kept.
    AlreadyOngoing,
    /// Start a report that captures these metrics, its crash counter at
    /// zero.
    Start(CapturedMetrics),
}

/// Starting the session `name`: `None` (an error) where no session of that
/// name is configured, whether or not it is ongoing; otherwise nothing when
/// it is ongoing, else a new report capturing the session's metrics and the
/// core metrics.
pub fn plan_session_start<R>(
    sessions: &SessionReports<R>,
    session_configs: &Vec<SessionConfig>,
    core_metrics: &CoreMetricKeys,
    name: &SessionName,
) -> (r: Option<SessionStart>)
    ensures
        match session_config_index(session_configs@, name@) {
            None => r is None,
            Some(i) => if sessions@.contains_key(name@) {
                r matches Some(SessionStart::AlreadyOngoing)
            } else {
                r matches Some(SessionStart::Start(CapturedMetrics::Metrics(set))) && key_views(
                    set.metric_keys@,
                ) == key_views(session_configs@[i].captured_metrics@) + key_views(
                    core_metrics.string_keys@,
                ) && pattern_views(set.wildcard_metric_keys@) == pattern_views(
                    core_metrics.wildcard_pattern_keys@,
                )
            },
        },
{
    let report_type = MetricReportType::Session(name.duplicate());
    match captured_metric_keys_for_report(session_configs, core_metrics, &report_type) {
        None => None,
        Some(captured) => {
            if sessions.is_ongoing(name) {
                Some(SessionStart::AlreadyOngoing)
            } else {
                Some(SessionStart::Start(captured))
            }
        },
    }
}

} // verus!
