//! Health checking for backends.

use std::time::Duration;

use vstd::prelude::*;

use crate::constants::{
    DEFAULT_HEALTHY_THRESHOLD, DEFAULT_HEALTH_CHECK_INTERVAL_SECS,
    DEFAULT_HEALTH_CHECK_TIMEOUT_SECS, DEFAULT_UNHEALTHY_THRESHOLD,
};
use crate::duration::duration_nanos;
use crate::strategy::TunnelMetrics;

verus! {

/// Health state of a backend.
#[derive(Debug, Clone, Copy, PartialEq, Eq, Structural)]
pub enum HealthState {
    /// Backend is healthy and receiving traffic.
    Healthy,
    /// Backend is unhealthy and should not receive traffic.
    Unhealthy,
    /// Initial state before first health check.
    Unknown,
}

/// Configuration for active health checks.
#[derive(Debug)]
pub struct HealthCheckConfig {
    /// Interval between health checks.
    pub interval: Duration,
    /// Timeout for each health check.
    pub timeout: Duration,
    /// Number of consecutive failures before marking unhealthy.
    pub unhealthy_threshold: u32,
    /// Number of consecutive successes before marking healthy.
    pub healthy_threshold: u32,
    /// Address to dial for health checks (can be different from traffic
    /// address).
    pub check_addr: String,
}

impl Clone for HealthCheckConfig {
    fn clone(&self) -> (copy: Self)
        ensures
            copy.interval == self.interval,
            copy.timeout == self.timeout,
            copy.unhealthy_threshold == self.unhealthy_threshold,
            copy.healthy_threshold == self.healthy_threshold,
            copy.check_addr@ == self.check_addr@,
    {
        HealthCheckConfig {
            interval: self.interval,
            timeout: self.timeout,
            unhealthy_threshold: self.unhealthy_threshold,
            healthy_threshold: self.healthy_threshold,
            check_addr: self.check_addr.clone(),
        }
    }
}

impl Default for HealthCheckConfig {
    fn default() -> (c: Self)
        ensures
            duration_nanos(c.interval) == DEFAULT_HEALTH_CHECK_INTERVAL_SECS * 1_000_000_000,
            duration_nanos(c.timeout) == DEFAULT_HEALTH_CHECK_TIMEOUT_SECS * 1_000_000_000,
            c.unhealthy_threshold == DEFAULT_UNHEALTHY_THRESHOLD,
            c.healthy_threshold == DEFAULT_HEALTHY_THRESHOLD,
            c.check_addr@.len() == 0,
    {
        HealthCheckConfig {
            interval: Duration::from_secs(DEFAULT_HEALTH_CHECK_INTERVAL_SECS),
            timeout: Duration::from_secs(DEFAULT_HEALTH_CHECK_TIMEOUT_SECS),
            unhealthy_threshold: DEFAULT_UNHEALTHY_THRESHOLD,
            healthy_threshold: DEFAULT_HEALTHY_THRESHOLD,
            check_addr: String::new(),
        }
    }
}

/// One more, but no more than fits.
pub open spec fn capped_inc(n: int, max: int) -> int {
    if n < max {
        n + 1
    } else {
        max
    }
}

/// Metrics after one dial result: a success clears the recent errors, a
/// failure counts as one more.
pub open spec fn after_dial_result(m: TunnelMetrics, success: bool) -> TunnelMetrics {
    if success {
        TunnelMetrics { recent_errors: 0, ..m }
    } else {
        TunnelMetrics {
            recent_errors: capped_inc(m.recent_errors as int, u32::MAX as int) as u32,
            total_errors: capped_inc(m.total_errors as int, u64::MAX as int) as u64,
            ..m
        }
    }
}

/// Passive health monitoring - updates metrics based on dial results.
///
/// Strategies like `HealthWeighted` and `Failover` use these metrics. An
/// index outside the pool is ignored.
pub fn record_dial_result(metrics: &mut [TunnelMetrics], index: usize, success: bool)
    ensures
        final(metrics)@ == (if index < old(metrics)@.len() {
            old(metrics)@.update(
                index as int,
                after_dial_result(old(metrics)@[index as int], success),
            )
        } else {
            old(metrics)@
        }),
{
    if index >= metrics.len() {
        return;
    }
    let mut m: TunnelMetrics = metrics[index];
    if success {
        m.recent_errors = 0;
    } else {
        m.recent_errors = m.recent_errors.saturating_add(1);
        m.total_errors = m.total_errors.saturating_add(1);
    }
    metrics[index] = m;
}

/// Determine if a backend should be considered healthy for routing.
pub fn is_healthy(metrics: &TunnelMetrics, unhealthy_threshold: u32) -> (healthy: bool)
    ensures
        healthy == (metrics.recent_errors < unhealthy_threshold),
{
    metrics.recent_errors < unhealthy_threshold
}

/// How a backend's latest health checks went in a row.
#[derive(Debug, Clone, Copy)]
pub struct CheckStreak {
    /// Successes since the last failure.
    pub successes: u32,
    /// Failures since the last success.
    pub failures: u32,
}

impl CheckStreak {
    /// Before the first check.
    pub open spec fn none() -> CheckStreak {
        CheckStreak { successes: 0, failures: 0 }
    }

    /// The counters can take one more check.
    pub open spec fn has_room(self, ok: bool) -> bool {
        if ok {
            self.successes < u32::MAX
        } else {
            self.failures < u32::MAX
        }
    }

    /// The streak after one more check.
    pub open spec fn extended(self, ok: bool) -> CheckStreak {
        if ok {
            CheckStreak { successes: (self.successes + 1) as u32, failures: 0 }
        } else {
            CheckStreak { successes: 0, failures: (self.failures + 1) as u32 }
        }
    }
}

/// Metrics after a health check that brought the streak to `streak`: enough
/// successes in a row clear the recent errors; a failure raises them to the
/// number of failures in a row, and never lowers them.
pub open spec fn after_check(
    m: TunnelMetrics,
    streak: CheckStreak,
    ok: bool,
    healthy_threshold: u32,
) -> TunnelMetrics {
    if ok {
        if streak.successes >= healthy_threshold {
            TunnelMetrics { recent_errors: 0, ..m }
        } else {
            m
        }
    } else {
        TunnelMetrics {
            recent_errors: if streak.failures > m.recent_errors {
                streak.failures
            } else {
                m.recent_errors
            },
            total_errors: capped_inc(m.total_errors as int, u64::MAX as int) as u64,
            ..m
        }
    }
}

/// What the health checker remembers of every backend between rounds.
#[derive(Debug)]
pub struct HealthTracker {
    streaks: Vec<CheckStreak>,
}

impl View for HealthTracker {
    type V = Seq<CheckStreak>;

    closed spec fn view(&self) -> Seq<CheckStreak> {
        self.streaks@
    }
}

impl HealthTracker {
    /// A tracker for so many backends, none of them checked yet.
    pub fn new(backend_count: usize) -> (t: Self)
        ensures
            t@ == Seq::new(backend_count as nat, |i: int| CheckStreak::none()),
    {
        let mut streaks: Vec<CheckStreak> = Vec::new();
        let mut i: usize = 0;
        while i < backend_count
            invariant
                i <= backend_count,
                streaks@ == Seq::new(i as nat, |j: int| CheckStreak::none()),
            decreases backend_count - i,
        {
            streaks.push(CheckStreak { successes: 0, failures: 0 });
            i += 1;
            assert(streaks@ =~= Seq::new(i as nat, |j: int| CheckStreak::none()));
        }
        HealthTracker { streaks }
    }

    /// Whether the counters can take in a round of checks: there is a result
    /// for every backend, and no counter in use is at its end.
    pub fn has_room_for(&self, results: &[bool], metrics_len: usize) -> (room: bool)
        ensures
            room == (results@.len() == self@.len() && forall|i: int|
                0 <= i < results@.len() && i < metrics_len ==> (#[trigger] self@[i]).has_room(
                    results@[i],
                )),
    {
        if results.len() != self.streaks.len() {
            return false;
        }
        let mut i: usize = 0;
        while i < results.len() && i < metrics_len
            invariant
                i <= results@.len(),
                results@.len() == self@.len(),
                forall|j: int|
                    0 <= j < i && j < metrics_len ==> (#[trigger] self@[j]).has_room(results@[j]),
            decreases results.len() - i,
        {
            let streak: CheckStreak = self.streaks[i];
            let full = if results[i] {
                streak.successes == u32::MAX
            } else {
                streak.failures == u32::MAX
            };
            if full {
                assert(!self@[i as int].has_room(results@[i as int]));
                return false;
            }
            i += 1;
        }
        true
    }

    /// Take in a round of checks: `results[i]` says whether the check of
    /// backend `i` came back in time and without an error. A backend without
    /// metrics is passed over.
    pub fn apply(
        &mut self,
        results: &[bool],
        metrics: &mut Vec<TunnelMetrics>,
        healthy_threshold: u32,
    )
        requires
            results@.len() == old(self)@.len(),
            forall|i: int|
                0 <= i < results@.len() && i < old(metrics)@.len() ==> (
                #[trigger] old(self)@[i]).has_room(results@[i]),
        ensures
            final(self)@.len() == old(self)@.len(),
            final(metrics)@.len() == old(metrics)@.len(),
            forall|i: int|
                0 <= i < old(self)@.len() ==> #[trigger] final(self)@[i] == (if i < old(
                    metrics,
                )@.len() {
                    old(self)@[i].extended(results@[i])
                } else {
                    old(self)@[i]
                }),
            forall|i: int|
                0 <= i < old(metrics)@.len() ==> #[trigger] final(metrics)@[i] == (if i < old(
                    self,
                )@.len() {
                    after_check(
                        old(metrics)@[i],
                        old(self)@[i].extended(results@[i]),
                        results@[i],
                        healthy_threshold,
                    )
                } else {
                    old(metrics)@[i]
                }),
    {
        let ghost streaks0 = self@;
        let ghost metrics0 = metrics@;
        let mut i: usize = 0;
        while i < results.len() && i < metrics.len()
            invariant
                i <= results@.len(),
                i <= metrics@.len(),
                self@.len() == streaks0.len(),
                results@.len() == streaks0.len(),
                metrics@.len() == metrics0.len(),
                forall|j: int|
                    0 <= j < results@.len() && j < metrics0.len() ==> (
                    #[trigger] streaks0[j]).has_room(results@[j]),
                forall|j: int|
                    0 <= j < streaks0.len() ==> #[trigger] self@[j] == (if j < i {
                        streaks0[j].extended(results@[j])
                    } else {
                        streaks0[j]
                    }),
                forall|j: int|
                    0 <= j < metrics0.len() ==> #[trigger] metrics@[j] == (if j < i {
                        after_check(
                            metrics0[j],
                            streaks0[j].extended(results@[j]),
                            results@[j],
                            healthy_threshold,
                        )
                    } else {
                        metrics0[j]
                    }),
            decreases results.len() - i,
        {
            let ok: bool = results[i];
            let mut streak: CheckStreak = self.streaks[i];
            let mut m: TunnelMetrics = metrics[i];
            assert(streaks0[i as int].has_room(ok));
            if ok {
                streak.successes = streak.successes + 1;
                streak.failures = 0;
                if streak.successes >= healthy_threshold {
                    m.recent_errors = 0;
                }
            } else {
                streak.failures = streak.failures + 1;
                streak.successes = 0;
                if streak.failures > m.recent_errors {
                    m.recent_errors = streak.failures;
                }
                m.total_errors = m.total_errors.saturating_add(1);
            }
            self.streaks[i] = streak;
            metrics[i] = m;
            i += 1;
        }
    }
}

/// The streak after a run of checks.
pub open spec fn streak_after(start: CheckStreak, checks: Seq<bool>) -> CheckStreak
    decreases checks.len(),
{
    if checks.len() == 0 {
        start
    } else {
        streak_after(start, checks.drop_last()).extended(checks.last())
    }
}

/// The metrics after a run of checks.
pub open spec fn metrics_after(
    m: TunnelMetrics,
    start: CheckStreak,
    checks: Seq<bool>,
    healthy_threshold: u32,
) -> TunnelMetrics
    decreases checks.len(),
{
    if checks.len() == 0 {
        m
    } else {
        after_check(
            metrics_after(m, start, checks.drop_last(), healthy_threshold),
            streak_after(start, checks),
            checks.last(),
            healthy_threshold,
        )
    }
}

/// The last `n` checks of a run all ended the same way.
pub open spec fn ends_with(checks: Seq<bool>, n: int, ok: bool) -> bool {
    &&& 0 <= n <= checks.len()
    &&& forall|i: int| checks.len() - n <= i < checks.len() ==> #[trigger] checks[i] == ok
}

/// A streak counts exactly the checks at the end of the run that went alike.
proof fn lemma_streak_counts(checks: Seq<bool>)
    requires
        checks.len() <= u32::MAX,
    ensures
        ends_with(checks, streak_after(CheckStreak::none(), checks).failures as int, false),
        ends_with(checks, streak_after(CheckStreak::none(), checks).successes as int, true),
        forall|n: int|
            ends_with(checks, n, false) ==> n <= streak_after(
                CheckStreak::none(),
                checks,
            ).failures,
        forall|n: int|
            ends_with(checks, n, true) ==> n <= streak_after(
                CheckStreak::none(),
                checks,
            ).successes,
    decreases checks.len(),
{
    if checks.len() > 0 {
        let init = checks.drop_last();
        lemma_streak_counts(init);
        let before = streak_after(CheckStreak::none(), init);
        let after = streak_after(CheckStreak::none(), checks);
        let last = checks.len() - 1;
        assert forall|i: int| checks.len() - after.failures <= i < checks.len() implies
            #[trigger] checks[i] == false by {
            if i < last {
                assert(init[i] == checks[i]);
            }
        }
        assert forall|i: int| checks.len() - after.successes <= i < checks.len() implies
            #[trigger] checks[i] == true by {
            if i < last {
                assert(init[i] == checks[i]);
            }
        }
        assert forall|n: int| ends_with(checks, n, false) implies n <= after.failures by {
            if n > 0 {
                assert(checks[last] == false);
                assert(ends_with(init, n - 1, false)) by {
                    assert forall|i: int| init.len() - (n - 1) <= i < init.len() implies
                        #[trigger] init[i] == false by {
                        assert(checks[i] == false);
                    }
                }
            }
        }
        assert forall|n: int| ends_with(checks, n, true) implies n <= after.successes by {
            if n > 0 {
                assert(checks[last] == true);
                assert(ends_with(init, n - 1, true)) by {
                    assert forall|i: int| init.len() - (n - 1) <= i < init.len() implies
                        #[trigger] init[i] == true by {
                        assert(checks[i] == true);
                    }
                }
            }
        }
    }
}

/// Enough consecutive failures mark a backend unhealthy, whatever came before
/// them.
pub proof fn failures_mark_unhealthy(
    m: TunnelMetrics,
    checks: Seq<bool>,
    healthy_threshold: u32,
    unhealthy_threshold: u32,
)
    requires
        checks.len() <= u32::MAX,
        unhealthy_threshold > 0,
        ends_with(checks, unhealthy_threshold as int, false),
    ensures
        metrics_after(m, CheckStreak::none(), checks, healthy_threshold).recent_errors
            >= unhealthy_threshold,
{
    lemma_streak_counts(checks);
    assert(checks[checks.len() - 1] == false);
}

/// Enough consecutive successes mark a backend healthy, whatever came before
/// them.
pub proof fn successes_mark_healthy(
    m: TunnelMetrics,
    checks: Seq<bool>,
    healthy_threshold: u32,
)
    requires
        checks.len() <= u32::MAX,
        healthy_threshold > 0,
        ends_with(checks, healthy_threshold as int, true),
    ensures
        metrics_after(m, CheckStreak::none(), checks, healthy_threshold).recent_errors == 0,
{
    lemma_streak_counts(checks);
    assert(checks[checks.len() - 1] == true);
}

/// One success short of the threshold changes nothing: after a failure, the
/// recent errors stay what they were until the successes are enough.
pub proof fn too_few_successes_change_nothing(
    m: TunnelMetrics,
    checks: Seq<bool>,
    successes: Seq<bool>,
    healthy_threshold: u32,
)
    requires
        checks.len() + successes.len() <= u32::MAX,
        checks.len() > 0,
        checks.last() == false,
        forall|i: int| 0 <= i < successes.len() ==> #[trigger] successes[i] == true,
        successes.len() < healthy_threshold,
    ensures
        metrics_after(m, CheckStreak::none(), checks + successes, healthy_threshold)
            == metrics_after(m, CheckStreak::none(), checks, healthy_threshold),
    decreases successes.len(),
{
    let whole = checks + successes;
    if successes.len() == 0 {
        assert(whole =~= checks);
    } else {
        let fewer = successes.drop_last();
        assert forall|i: int| 0 <= i < fewer.len() implies #[trigger] fewer[i] == true by {
            assert(successes[i] == true);
        }
        too_few_successes_change_nothing(m, checks, fewer, healthy_threshold);
        assert(whole.drop_last() =~= checks + fewer);
        lemma_streak_counts(whole);
        let n = streak_after(CheckStreak::none(), whole).successes as int;
        assert(n <= successes.len()) by {
            if n > successes.len() {
                assert(whole[checks.len() - 1] == true);
            }
        }
        assert(successes[successes.len() - 1] == true);
    }
}

/// A backend that started without errors is found unhealthy only if some
/// checks in a row, as many as the threshold says, all failed.
pub proof fn unhealthy_means_failures_in_a_row(
    m: TunnelMetrics,
    checks: Seq<bool>,
    healthy_threshold: u32,
    unhealthy_threshold: u32,
) -> (upto: int)
    requires
        checks.len() <= u32::MAX,
        m.recent_errors == 0,
        unhealthy_threshold > 0,
        metrics_after(m, CheckStreak::none(), checks, healthy_threshold).recent_errors
            >= unhealthy_threshold,
    ensures
        0 <= upto <= checks.len(),
        ends_with(checks.take(upto), unhealthy_threshold as int, false),
    decreases checks.len(),
{
    if checks.len() == 0 {
        0
    } else if checks.last() {
        let init = checks.drop_last();
        let upto = unhealthy_means_failures_in_a_row(
            m,
            init,
            healthy_threshold,
            unhealthy_threshold,
        );
        assert(init.take(upto) =~= checks.take(upto));
        upto
    } else if streak_after(CheckStreak::none(), checks).failures >= unhealthy_threshold {
        lemma_streak_counts(checks);
        assert(checks.take(checks.len() as int) =~= checks);
        let n = streak_after(CheckStreak::none(), checks).failures as int;
        assert(ends_with(checks, n, false));
        checks.len() as int
    } else {
        let init = checks.drop_last();
        let upto = unhealthy_means_failures_in_a_row(
            m,
            init,
            healthy_threshold,
            unhealthy_threshold,
        );
        assert(init.take(upto) =~= checks.take(upto));
        upto
    }
}

/// Once unhealthy, a backend stays unhealthy until enough checks in a row
/// succeeded, whatever else the checks give.
pub proof fn unhealthy_until_enough_successes(
    m: TunnelMetrics,
    checks: Seq<bool>,
    more: Seq<bool>,
    healthy_threshold: u32,
    unhealthy_threshold: u32,
)
    requires
        checks.len() + more.len() <= u32::MAX,
        metrics_after(m, CheckStreak::none(), checks, healthy_threshold).recent_errors
            >= unhealthy_threshold,
        forall|k: int|
            checks.len() < k <= checks.len() + more.len() ==> !ends_with(
                #[trigger] (checks + more).take(k),
                healthy_threshold as int,
                true,
            ),
    ensures
        metrics_after(m, CheckStreak::none(), checks + more, healthy_threshold).recent_errors
            >= unhealthy_threshold,
    decreases more.len(),
{
    let whole = checks + more;
    if more.len() == 0 {
        assert(whole =~= checks);
    } else {
        let fewer = more.drop_last();
        assert(whole.drop_last() =~= checks + fewer);
        assert forall|k: int| checks.len() < k <= checks.len() + fewer.len() implies !ends_with(
            #[trigger] (checks + fewer).take(k),
            healthy_threshold as int,
            true,
        ) by {
            assert((checks + fewer).take(k) =~= whole.take(k));
        }
        unhealthy_until_enough_successes(m, checks, fewer, healthy_threshold, unhealthy_threshold);
        lemma_streak_counts(whole);
        let n = streak_after(CheckStreak::none(), whole).successes as int;
        assert(whole.take(whole.len() as int) =~= whole);
        assert(ends_with(whole, n, true));
        if n >= healthy_threshold {
            assert(ends_with(whole.take(whole.len() as int), healthy_threshold as int, true));
        }
    }
}

/// A successful dial ends the recent errors of its backend and changes nothing
/// else; a failed one is one more error, recent and in all. No other backend's
/// metrics change.
pub proof fn dial_results_are_recorded(
    metrics: &mut [TunnelMetrics],
    index: usize,
    success: bool,
    i: int,
)
    requires
        call_ensures(record_dial_result, (metrics, index, success), ()),
        0 <= i < old(metrics)@.len(),
    ensures
        final(metrics)@.len() == old(metrics)@.len(),
        i != index ==> final(metrics)@[i] == old(metrics)@[i],
        i == index ==> {
            let before = old(metrics)@[i];
            let after = final(metrics)@[i];
            &&& after.rtt == before.rtt
            &&& after.active_connections == before.active_connections
            &&& after.total_dials == before.total_dials
            &&& success ==> after.recent_errors == 0 && after.total_errors == before.total_errors
            &&& !success && before.recent_errors < u32::MAX ==> after.recent_errors
                == before.recent_errors + 1
            &&& !success && before.recent_errors == u32::MAX ==> after.recent_errors == u32::MAX
            &&& !success && before.total_errors < u64::MAX ==> after.total_errors
                == before.total_errors + 1
            &&& !success && before.total_errors == u64::MAX ==> after.total_errors == u64::MAX
        },
{
}

/// A backend is healthy as long as it has fewer recent errors than the
/// threshold, so fewer errors or a higher threshold never make it unhealthy.
pub proof fn health_is_a_matter_of_recent_errors(
    m: &TunnelMetrics,
    better: &TunnelMetrics,
    threshold: u32,
    higher: u32,
    healthy: bool,
    still: bool,
)
    requires
        call_ensures(is_healthy, (m, threshold), healthy),
        call_ensures(is_healthy, (better, higher), still),
        better.recent_errors <= m.recent_errors,
        threshold <= higher,
    ensures
        healthy ==> still,
        m.recent_errors == threshold ==> !healthy,
        m.recent_errors + 1 == threshold ==> healthy,
{
}

/// Before the first round no check has gone either way.
pub proof fn a_new_tracker_has_seen_nothing(count: usize, t: HealthTracker, i: int)
    requires
        call_ensures(HealthTracker::new, (count,), t),
    ensures
        t@.len() == count,
        0 <= i < count ==> t@[i].successes == 0 && t@[i].failures == 0,
{
}

/// What one round of checks does to one backend. A success adds to the
/// successes in a row and ends the failures, and a failure the other way
/// round. The recent errors are cleared once the successes in a row reach the
/// threshold, and on a failure are at least the failures in a row. A failure
/// is one more error in all. Nothing else changes.
pub proof fn a_round_of_checks(
    tracker: &mut HealthTracker,
    results: &[bool],
    metrics: &mut Vec<TunnelMetrics>,
    healthy_threshold: u32,
    i: int,
)
    requires
        results@.len() == old(tracker)@.len(),
        0 <= i < results@.len(),
        i < old(metrics)@.len(),
        results@[i] ==> old(tracker)@[i].successes < u32::MAX,
        !results@[i] ==> old(tracker)@[i].failures < u32::MAX,
        call_ensures(HealthTracker::apply, (tracker, results, metrics, healthy_threshold), ()),
    ensures
        final(tracker)@.len() == old(tracker)@.len(),
        final(metrics)@.len() == old(metrics)@.len(),
        ({
            let was = old(tracker)@[i];
            let streak = final(tracker)@[i];
            let before = old(metrics)@[i];
            let after = final(metrics)@[i];
            &&& after.rtt == before.rtt
            &&& after.active_connections == before.active_connections
            &&& after.total_dials == before.total_dials
            &&& results@[i] ==> {
                &&& streak.successes == was.successes + 1
                &&& streak.failures == 0
                &&& after.total_errors == before.total_errors
                &&& was.successes + 1 >= healthy_threshold ==> after.recent_errors == 0
                &&& was.successes + 1 < healthy_threshold ==> after.recent_errors
                    == before.recent_errors
            }
            &&& !results@[i] ==> {
                &&& streak.successes == 0
                &&& streak.failures == was.failures + 1
                &&& after.recent_errors >= was.failures + 1
                &&& after.recent_errors >= before.recent_errors
                &&& after.recent_errors == was.failures + 1 || after.recent_errors
                    == before.recent_errors
                &&& before.total_errors < u64::MAX ==> after.total_errors == before.total_errors
                    + 1
                &&& before.total_errors == u64::MAX ==> after.total_errors == u64::MAX
            }
        }),
{
    assert(final(tracker)@[i] == old(tracker)@[i].extended(results@[i]));
    assert(final(metrics)@[i] == after_check(
        old(metrics)@[i],
        old(tracker)@[i].extended(results@[i]),
        results@[i],
        healthy_threshold,
    ));
}

/// A backend that has metrics but was not checked, or was checked but has no
/// metrics, stays as it is.
pub proof fn unmatched_backends_stay_as_they_are(
    tracker: &mut HealthTracker,
    results: &[bool],
    metrics: &mut Vec<TunnelMetrics>,
    healthy_threshold: u32,
    i: int,
)
    requires
        results@.len() == old(tracker)@.len(),
        call_ensures(HealthTracker::apply, (tracker, results, metrics, healthy_threshold), ()),
    ensures
        results@.len() <= i < old(metrics)@.len() ==> final(metrics)@[i] == old(metrics)@[i],
        old(metrics)@.len() <= i < results@.len() ==> final(tracker)@[i] == old(tracker)@[i],
{
    if results@.len() <= i < old(metrics)@.len() {
        assert(final(metrics)@[i] == old(metrics)@[i]);
    }
    if old(metrics)@.len() <= i < results@.len() {
        assert(final(tracker)@[i] == old(tracker)@[i]);
    }
}

/// There is room for a round exactly if it has a result for every backend and
/// none of the counters it adds to is full.
pub proof fn full_counters_leave_no_room(
    tracker: &HealthTracker,
    results: &[bool],
    metrics_len: usize,
    room: bool,
)
    requires
        call_ensures(HealthTracker::has_room_for, (tracker, results, metrics_len), room),
    ensures
        results@.len() != tracker@.len() ==> !room,
        room ==> forall|i: int|
            0 <= i < results@.len() && i < metrics_len ==> (if results@[i] {
                (#[trigger] tracker@[i]).successes < u32::MAX
            } else {
                tracker@[i].failures < u32::MAX
            }),
        results@.len() == tracker@.len() && (forall|i: int|
            0 <= i < results@.len() && i < metrics_len ==> (#[trigger] tracker@[i]).successes
                < u32::MAX && tracker@[i].failures < u32::MAX) ==> room,
{
    if room {
        assert forall|i: int| 0 <= i < results@.len() && i < metrics_len implies (if results@[i] {
            (#[trigger] tracker@[i]).successes < u32::MAX
        } else {
            tracker@[i].failures < u32::MAX
        }) by {
            assert(tracker@[i].has_room(results@[i]));
        }
    }
}

/// By default a backend is checked every 30 seconds, with a timeout of 5
/// seconds; three failures in a row make it unhealthy, and two successes
/// healthy.
pub proof fn default_health_checks(config: HealthCheckConfig, copy: HealthCheckConfig)
    requires
        call_ensures(HealthCheckConfig::default, (), config),
        call_ensures(HealthCheckConfig::clone, (&config,), copy),
    ensures
        duration_nanos(config.interval) == 30_000_000_000,
        duration_nanos(config.timeout) == 5_000_000_000,
        config.unhealthy_threshold == 3,
        config.healthy_threshold == 2,
        config.check_addr@.len() == 0,
        copy.interval == config.interval,
        copy.timeout == config.timeout,
        copy.unhealthy_threshold == config.unhealthy_threshold,
        copy.healthy_threshold == config.healthy_threshold,
        copy.check_addr@ == config.check_addr@,
{
}

} // verus!
