//! What holds of a balancer across calls.

use std::time::Duration;

use vstd::prelude::*;

use crate::balancer::load_balancer::{
    closed, lemma_dial_step, lemma_serial_index, opened, step_after_failure, succeeded,
    AttemptOutcome, BalancerView, Dial, DialStep, LoadBalancer,
};
use crate::error::{Error, ErrorView};
use crate::retry::{retry_answer, FixedRetry, NoRetry, RetryPolicy};
use crate::strategies::failover::Failover;
use crate::strategies::sticky::Sticky;
use crate::strategy::{BalanceStrategy, StrategyState, TunnelMetrics};

verus! {

/// How many connections are open over all the backends.
pub open spec fn open_connections(metrics: Seq<TunnelMetrics>) -> nat
    decreases metrics.len(),
{
    if metrics.len() == 0 {
        0
    } else {
        open_connections(metrics.drop_last()) + metrics.last().active_connections as nat
    }
}

/// Replacing one entry changes the sum by that entry's change.
proof fn lemma_open_connections_update(metrics: Seq<TunnelMetrics>, i: int, m: TunnelMetrics)
    requires
        0 <= i < metrics.len(),
    ensures
        open_connections(metrics.update(i, m)) == open_connections(metrics)
            - metrics[i].active_connections + m.active_connections,
    decreases metrics.len(),
{
    let after = metrics.update(i, m);
    if i == metrics.len() - 1 {
        assert(after.drop_last() =~= metrics.drop_last());
    } else {
        lemma_open_connections_update(metrics.drop_last(), i, m);
        assert(after.drop_last() =~= metrics.drop_last().update(i, m));
    }
}

/// A dial is counted once: on the backend it went to, and in the sum.
pub proof fn a_dial_opens_one_connection<B, S: BalanceStrategy, P>(
    pool: BalancerView<B, S, P>,
    idx: int,
    strategy: S,
)
    requires
        pool.wf(),
        0 <= idx < pool.size(),
        pool.metrics[idx].active_connections < u32::MAX,
    ensures
        open_connections(pool.after_pick(idx, strategy).metrics) == open_connections(pool.metrics)
            + 1,
        forall|i: int|
            0 <= i < pool.size() && i != idx ==> #[trigger] pool.after_pick(
                idx,
                strategy,
            ).metrics[i] == pool.metrics[i],
{
    lemma_open_connections_update(pool.metrics, idx, opened(pool.metrics[idx]));
}

/// Dialing and closing leaves the connection counts as they were: after a
/// successful dial and its release, all that is left is one more successful
/// dial and no recent errors.
pub proof fn a_closed_connection_is_no_longer_counted<B, S: BalanceStrategy, P>(
    pool: BalancerView<B, S, P>,
    idx: int,
    picked: S,
    reported: S,
)
    requires
        pool.wf(),
        0 <= idx < pool.size(),
        pool.metrics[idx].active_connections < u32::MAX,
    ensures
        pool.after_pick(idx, picked).after_success(idx, reported).after_release(
            pool.serials[idx],
        ).metrics == pool.metrics.update(idx, succeeded(pool.metrics[idx])),
        open_connections(
            pool.after_pick(idx, picked).after_success(idx, reported).after_release(
                pool.serials[idx],
            ).metrics,
        ) == open_connections(pool.metrics),
{
    let dialed = pool.after_pick(idx, picked).after_success(idx, reported);
    let end = dialed.after_release(pool.serials[idx]);
    lemma_serial_index(pool, idx);
    assert(end.metrics =~= pool.metrics.update(idx, succeeded(pool.metrics[idx])));
    lemma_open_connections_update(pool.metrics, idx, succeeded(pool.metrics[idx]));
}

/// A failed dial holds no connection: all that is left is one more error.
pub proof fn a_failed_dial_holds_no_connection<B, S: BalanceStrategy, P>(
    pool: BalancerView<B, S, P>,
    idx: int,
    picked: S,
    reported: S,
)
    requires
        pool.wf(),
        0 <= idx < pool.size(),
        pool.metrics[idx].active_connections < u32::MAX,
    ensures
        ({
            let end = pool.after_pick(idx, picked).after_failure(idx, reported);
            let before = pool.metrics[idx];
            let after = end.metrics[idx];
            &&& open_connections(end.metrics) == open_connections(pool.metrics)
            &&& after.active_connections == before.active_connections
            &&& after.total_dials == before.total_dials
            &&& after.rtt == before.rtt
            &&& before.total_errors < u64::MAX ==> after.total_errors == before.total_errors + 1
            &&& before.recent_errors < u32::MAX ==> after.recent_errors == before.recent_errors
                + 1
            &&& end.metrics == pool.metrics.update(idx, after)
        }),
{
    let mid = pool.after_pick(idx, picked);
    let end = mid.after_failure(idx, reported);
    assert(end.metrics =~= pool.metrics.update(idx, end.metrics[idx]));
    lemma_open_connections_update(pool.metrics, idx, end.metrics[idx]);
}

/// Closing connections in another order, or on other backends, comes to the
/// same: two releases commute.
pub proof fn releases_commute<B, S: BalanceStrategy, P>(
    pool: BalancerView<B, S, P>,
    serial_a: u128,
    serial_b: u128,
)
    requires
        pool.wf(),
    ensures
        pool.after_release(serial_a).after_release(serial_b) == pool.after_release(
            serial_b,
        ).after_release(serial_a),
{
    let ab = pool.after_release(serial_a).after_release(serial_b);
    let ba = pool.after_release(serial_b).after_release(serial_a);
    assert(ab.metrics =~= ba.metrics);
}

/// A connection that outlives its backend touches no metrics when it is
/// closed.
pub proof fn stale_releases_change_nothing<B, S: BalanceStrategy, P>(
    pool: BalancerView<B, S, P>,
    removed: int,
    strategy: S,
)
    requires
        pool.wf(),
        0 <= removed < pool.size(),
    ensures
        pool.after_remove(removed, strategy).after_release(pool.serials[removed])
            == pool.after_remove(removed, strategy),
{
    let after = pool.after_remove(removed, strategy);
    let serial = pool.serials[removed];
    if after.serials.contains(serial) {
        let k = after.serials.index_of(serial);
        let from = if k < removed {
            k
        } else {
            k + 1
        };
        assert(pool.serials[from] == serial);
        lemma_serial_index(pool, removed);
        lemma_serial_index(pool, from);
    }
}

/// A connection on a backend that stays is taken out of that backend's count
/// when it is closed, whichever backend was removed since it was dialed.
pub proof fn removals_keep_the_others_counted<B, S: BalanceStrategy, P>(
    pool: BalancerView<B, S, P>,
    removed: int,
    strategy: S,
    i: int,
)
    requires
        pool.wf(),
        strategy.valid(),
        0 <= removed < pool.size(),
        0 <= i < pool.size(),
        i != removed,
    ensures
        ({
            let after = pool.after_remove(removed, strategy);
            let at = if i < removed { i } else { i - 1 };
            after.after_release(pool.serials[i]) == after.with_metrics_at(
                at,
                closed(pool.metrics[i]),
            )
        }),
{
    let after = pool.after_remove(removed, strategy);
    let at = if i < removed {
        i
    } else {
        i - 1
    };
    assert(after.wf());
    assert(after.serials[at] == pool.serials[i]);
    lemma_serial_index(after, at);
}

/// No connection from before an exchange of all backends touches the metrics
/// of the new ones.
pub proof fn releases_after_replacement_change_nothing<B, S: BalanceStrategy, P>(
    pool: BalancerView<B, S, P>,
    backends: Seq<B>,
    strategy: Option<S>,
    i: int,
)
    requires
        pool.wf(),
        pool.can_grow(backends.len()),
        backends.len() > 0,
        0 <= i < pool.size(),
    ensures
        pool.after_replace(backends, strategy).after_release(pool.serials[i])
            == pool.after_replace(backends, strategy),
{
    let after = pool.after_replace(backends, strategy);
    if after.serials.contains(pool.serials[i]) {
        let k = after.serials.index_of(pool.serials[i]);
        assert(after.serials[k] == pool.next_serial + k);
        assert(pool.serials[i] < pool.next_serial);
    }
}

/// Adding a backend does not touch the others, and connections stay counted
/// where they are.
pub proof fn adding_keeps_the_others<B, S: BalanceStrategy, P>(
    pool: BalancerView<B, S, P>,
    backend: B,
    id: Option<Seq<char>>,
    i: int,
)
    requires
        pool.wf(),
        0 <= i < pool.size(),
    ensures
        pool.after_add(backend, id).backends[i] == pool.backends[i],
        pool.after_add(backend, id).ids[i] == pool.ids[i],
        pool.after_add(backend, id).metrics[i] == pool.metrics[i],
        pool.after_add(backend, id).serials[i] == pool.serials[i],
        pool.after_add(backend, id).draining(i) == pool.draining(i),
{
}

/// Removing a backend that was just added gives the pool back, with a serial
/// used up and the strategy told.
pub proof fn removing_undoes_adding<B, S: BalanceStrategy, P>(
    pool: BalancerView<B, S, P>,
    backend: B,
    id: Option<Seq<char>>,
    strategy: S,
)
    requires
        pool.wf(),
        pool.can_grow(1),
    ensures
        pool.after_add(backend, id).after_remove(pool.size() as int, strategy) == (BalancerView {
            next_serial: (pool.next_serial + 1) as u128,
            strategy,
            ..pool
        }),
{
    let back = pool.after_add(backend, id).after_remove(pool.size() as int, strategy);
    assert(back.backends =~= pool.backends);
    assert(back.ids =~= pool.ids);
    assert(back.metrics =~= pool.metrics);
    assert(back.serials =~= pool.serials);
    assert(back.drained =~= pool.drained);
}

/// After a removal the backends behind the gap move up by one, each with its
/// own ID, metrics, serial and draining mark.
pub proof fn removal_keeps_backends_aligned<B, S: BalanceStrategy, P>(
    pool: BalancerView<B, S, P>,
    removed: int,
    strategy: S,
    i: int,
)
    requires
        pool.wf(),
        strategy.valid(),
        0 <= removed < pool.size(),
        0 <= i < pool.size() - 1,
    ensures
        ({
            let after = pool.after_remove(removed, strategy);
            let from = if i < removed { i } else { i + 1 };
            &&& after.wf()
            &&& after.backends[i] == pool.backends[from]
            &&& after.ids[i] == pool.ids[from]
            &&& after.metrics[i] == pool.metrics[from]
            &&& after.serials[i] == pool.serials[from]
            &&& after.draining(i) == pool.draining(from)
        }),
{
}

/// A sticky balancer stays on its backend when another one is removed.
pub proof fn a_pin_follows_its_backend<B, P>(
    pool: BalancerView<B, Sticky, P>,
    removed: int,
    pin: nat,
    strategy: Sticky,
)
    requires
        pool.wf(),
        0 <= removed < pool.size(),
        pool.strategy.pin() == Some(pin),
        pin < pool.size(),
        pin != removed,
        pool.strategy.removal_step(removed, strategy.state()),
    ensures
        ({
            let after = pool.after_remove(removed, strategy);
            strategy.pin() matches Some(now) && now < after.size() && after.backends[now as int]
                == pool.backends[pin as int]
        }),
{
}

/// A failover balancer stays on its primary when another backend is removed.
pub proof fn a_primary_keeps_its_backend<B, P>(
    pool: BalancerView<B, Failover, P>,
    removed: int,
    strategy: Failover,
)
    requires
        pool.wf(),
        0 <= removed < pool.size(),
        pool.strategy.pool_size() == pool.size(),
        pool.strategy.in_use() != removed,
        pool.strategy.removal_step(removed, strategy.state()),
    ensures
        ({
            let after = pool.after_remove(removed, strategy);
            &&& strategy.in_use() < after.size()
            &&& after.backends[strategy.in_use() as int] == pool.backends[
                pool.strategy.in_use() as int]
        }),
{
    let n = pool.size();
    vstd::arithmetic::div_mod::lemma_mod_bound(pool.strategy.primary() as int, n as int);
    let used = pool.strategy.in_use();
    let now = if removed < used {
        (used - 1) as nat
    } else {
        used
    };
    vstd::arithmetic::div_mod::lemma_small_mod(now, (n - 1) as nat);
}

/// A failover balancer moves on from a stand-in that fails: if the backend
/// behind the primary was dialed in its place, the one behind that is next.
pub proof fn a_failed_stand_in_is_left<B, P>(
    pool: BalancerView<B, Failover, P>,
    primary: int,
    idx: int,
    after: Failover,
)
    requires
        pool.wf(),
        pool.size() > 1,
        pool.strategy.pool_size() == pool.size(),
        primary == pool.strategy.in_use(),
        idx == (primary + 1) % pool.size() as int,
        0 <= primary < pool.size(),
        pool.failure_step(pool.serials[primary], idx, after.state()),
    ensures
        after.in_use() == (primary + 2) % pool.size() as int,
{
    let n = pool.size() as int;
    lemma_serial_index(pool, primary);
    let c = pool.serials.index_of(pool.serials[primary]);
    assert(c == primary);
    vstd::arithmetic::div_mod::lemma_mod_bound(primary + 1, n);
    vstd::arithmetic::div_mod::lemma_small_mod(idx as nat, n as nat);
    if primary + 1 < n {
        vstd::arithmetic::div_mod::lemma_small_mod((primary + 1) as nat, n as nat);
    } else {
        vstd::arithmetic::div_mod::lemma_mod_self_0(n);
    }
    assert(idx != primary);
    let mid = choose|mid: Failover|
        {
            &&& pool.strategy.error_step(c, mid.state())
            &&& #[trigger] mid.error_step(idx, after.state())
        };
    assert(mid.primary() == idx);
    assert(mid.in_use() == idx);
    vstd::arithmetic::div_mod::lemma_add_mod_noop(primary + 1, 1, n);
    vstd::arithmetic::div_mod::lemma_small_mod(1, n as nat);
    assert((idx + 1) % n == (primary + 2) % n);
    vstd::arithmetic::div_mod::lemma_mod_bound(idx + 1, n);
    vstd::arithmetic::div_mod::lemma_small_mod(((idx + 1) % n) as nat, n as nat);
}

/// Draining marks the backend and no other, and undraining lifts the mark.
pub proof fn draining_can_be_undone<B, S: BalanceStrategy, P>(
    pool: BalancerView<B, S, P>,
    idx: int,
    other: int,
)
    requires
        pool.wf(),
        0 <= idx < pool.size(),
    ensures
        ({
            let drained = pool.with_mark_at(idx, true);
            let undrained = drained.with_mark_at(idx, false);
            &&& drained.draining(idx)
            &&& !undrained.draining(idx)
            &&& other != idx ==> drained.draining(other) == pool.draining(other)
            &&& !pool.draining(idx) ==> undrained == pool
        }),
{
    let back = pool.with_mark_at(idx, true).with_mark_at(idx, false);
    if !pool.draining(idx) {
        assert(back.drained =~= pool.drained);
    }
}

/// A draining backend gets no dial while another is not draining, whatever
/// the strategy.
pub proof fn draining_backends_get_no_dials<B, S: BalanceStrategy, P>(
    pool: BalancerView<B, S, P>,
    addr: Seq<char>,
    post: StrategyState,
    chosen: int,
    drained: int,
    other: int,
    idx: int,
)
    requires
        pool.wf(),
        pool.draining(drained),
        0 <= other < pool.size(),
        !pool.draining(other),
        pool.dial_step(addr, post, chosen, idx),
    ensures
        0 <= idx < pool.size(),
        idx != drained,
        !pool.draining(idx),
{
    lemma_dial_step(pool, addr, post, chosen, idx);
}

/// Nothing but undraining ends the draining of a backend that stays in the
/// pool: neither dials, however they end, nor closed connections.
pub proof fn dials_do_not_end_draining<B, S: BalanceStrategy, P>(
    pool: BalancerView<B, S, P>,
    idx: int,
    serial: u128,
    strategy: S,
    i: int,
)
    requires
        pool.wf(),
        0 <= idx < pool.size(),
    ensures
        pool.after_pick(idx, strategy).draining(i) == pool.draining(i),
        pool.after_success(idx, strategy).draining(i) == pool.draining(i),
        pool.after_failure(idx, strategy).draining(i) == pool.draining(i),
        pool.after_release(serial).draining(i) == pool.draining(i),
{
}

/// Draining leaves the connections that are already open alone: no metrics
/// change, and closing one counts it out as before.
pub proof fn draining_keeps_open_connections<B, S: BalanceStrategy, P>(
    pool: BalancerView<B, S, P>,
    idx: int,
)
    requires
        pool.wf(),
        0 <= idx < pool.size(),
    ensures
        pool.with_mark_at(idx, true).metrics == pool.metrics,
        pool.with_mark_at(idx, true).after_release(pool.serials[idx]).metrics
            == pool.metrics.update(idx, closed(pool.metrics[idx])),
{
    lemma_serial_index(pool, idx);
}

/// A dial with a limited number of attempts comes to an end: a failed attempt
/// that reaches the limit fails the dial, with that attempt's error.
pub proof fn limited_dials_end<C>(
    policy: FixedRetry,
    max: u32,
    attempt: u32,
    elapsed: Duration,
    error: Error,
    step: DialStep<C>,
)
    requires
        policy.limit() == Some(max),
        attempt >= max,
        step_after_failure(Some(policy), attempt, elapsed, error, step),
    ensures
        step == DialStep::<C>::Failed(error),
{
}

/// A dial that keeps failing under a limit uses all its attempts: it is given
/// up at the attempt that reaches the limit, not before and not after.
pub proof fn failing_dials_use_all_attempts<C>(
    policy: FixedRetry,
    max: u32,
    elapsed: Seq<Duration>,
    errors: Seq<Error>,
    steps: Seq<DialStep<C>>,
)
    requires
        policy.limit() == Some(max),
        0 < steps.len() <= u32::MAX,
        elapsed.len() == steps.len(),
        errors.len() == steps.len(),
        forall|i: int|
            0 <= i < steps.len() ==> step_after_failure(
                Some(policy),
                (i + 1) as u32,
                elapsed[i],
                errors[i],
                #[trigger] steps[i],
            ),
        forall|i: int| 0 <= i < steps.len() - 1 ==> #[trigger] steps[i] is RetryAfter,
        steps.last() is Failed,
    ensures
        steps.len() == (if max == 0 { 1 } else { max as nat }),
        steps.last() == DialStep::<C>::Failed(errors.last()),
{
    let last = steps.len() - 1;
    assert(step_after_failure(
        Some(policy),
        (last + 1) as u32,
        elapsed[last],
        errors[last],
        steps[last],
    ));
    if steps.len() < max {
        assert(retry_answer(&policy, (last + 1) as u32, elapsed[last], &errors[last], None));
        assert(false);
    }
    if max > 0 && steps.len() > max {
        let i = max - 1;
        assert(steps[i] is RetryAfter);
        limited_dials_end(policy, max, (i + 1) as u32, elapsed[i], errors[i], steps[i]);
    }
    if max == 0 && steps.len() > 1 {
        assert(steps[0] is RetryAfter);
        limited_dials_end(policy, max, 1, elapsed[0], errors[0], steps[0]);
    }
}

/// Without a retry policy the first failure is final.
pub proof fn dials_without_a_policy_fail_at_once<C, P: RetryPolicy>(
    attempt: u32,
    elapsed: Duration,
    error: Error,
    step: DialStep<C>,
)
    requires
        step_after_failure(None::<P>, attempt, elapsed, error, step),
    ensures
        step == DialStep::<C>::Failed(error),
{
}

/// An attempt is counted, and nothing else of the dial changes. A connection
/// is handed through.
pub proof fn attempts_are_counted<B, S: BalanceStrategy, P: RetryPolicy, C>(
    lb: &LoadBalancer<B, S, P>,
    dial: &mut Dial<P>,
    outcome: AttemptOutcome<C>,
    elapsed: Duration,
    step: DialStep<C>,
)
    requires
        old(dial).attempts < u32::MAX,
        call_ensures(
            LoadBalancer::<B, S, P>::dial_with_retry::<C>,
            (lb, dial, outcome, elapsed),
            step,
        ),
    ensures
        final(dial).attempts == old(dial).attempts + 1,
        final(dial).index == old(dial).index,
        final(dial).serial == old(dial).serial,
        final(dial).chosen == old(dial).chosen,
        final(dial).dial_timeout == old(dial).dial_timeout,
        final(dial).retry_policy == old(dial).retry_policy,
        outcome matches AttemptOutcome::Connected(conn) ==> step == DialStep::Connected(conn),
        !(outcome is Connected) ==> !(step is Connected),
        outcome matches AttemptOutcome::Failed(error) ==> step is RetryAfter || step
            == DialStep::<C>::Failed(error),
        outcome is TimedOut ==> step is RetryAfter || (step matches DialStep::Failed(e) && e@
            == ErrorView::Backend("dial timeout"@)),
{
}

/// A dial's own policy decides, whatever is configured: after a failed attempt
/// the dial goes on as that policy answers.
pub proof fn a_dial_s_own_policy_decides<B, S: BalanceStrategy, P: RetryPolicy, C>(
    lb: &LoadBalancer<B, S, P>,
    dial: &mut Dial<P>,
    own: P,
    error: Error,
    elapsed: Duration,
    step: DialStep<C>,
)
    requires
        old(dial).attempts < u32::MAX,
        old(dial).retry_policy == Some(own),
        call_ensures(
            LoadBalancer::<B, S, P>::dial_with_retry::<C>,
            (lb, dial, AttemptOutcome::Failed(error), elapsed),
            step,
        ),
    ensures
        match step {
            DialStep::Connected(_) => false,
            DialStep::RetryAfter(delay) => retry_answer(
                &own,
                (old(dial).attempts + 1) as u32,
                elapsed,
                &error,
                Some(delay),
            ),
            DialStep::Failed(e) => e == error && retry_answer(
                &own,
                (old(dial).attempts + 1) as u32,
                elapsed,
                &error,
                None,
            ),
        },
{
}

/// A dial without a policy of its own goes on as the configured policy
/// answers, and fails at once where none is configured.
pub proof fn the_configured_policy_is_the_default<B, S: BalanceStrategy, P: RetryPolicy, C>(
    lb: &LoadBalancer<B, S, P>,
    dial: &mut Dial<P>,
    error: Error,
    elapsed: Duration,
    step: DialStep<C>,
)
    requires
        old(dial).attempts < u32::MAX,
        old(dial).retry_policy is None,
        call_ensures(
            LoadBalancer::<B, S, P>::dial_with_retry::<C>,
            (lb, dial, AttemptOutcome::Failed(error), elapsed),
            step,
        ),
    ensures
        lb@.retry_policy is None ==> step == DialStep::<C>::Failed(error),
        lb@.retry_policy matches Some(policy) ==> match step {
            DialStep::Connected(_) => false,
            DialStep::RetryAfter(delay) => retry_answer(
                &policy,
                (old(dial).attempts + 1) as u32,
                elapsed,
                &error,
                Some(delay),
            ),
            DialStep::Failed(e) => e == error && retry_answer(
                &policy,
                (old(dial).attempts + 1) as u32,
                elapsed,
                &error,
                None,
            ),
        },
{
}

/// A dial with a fixed-delay policy of its own is repeated after that policy's
/// delay until that policy's limit is reached, and then fails. What the
/// balancer is configured with does not matter.
pub proof fn an_own_fixed_retry_sets_the_pace<B, S: BalanceStrategy, C>(
    lb: &LoadBalancer<B, S, FixedRetry>,
    dial: &mut Dial<FixedRetry>,
    own: FixedRetry,
    outcome: AttemptOutcome<C>,
    elapsed: Duration,
    step: DialStep<C>,
)
    requires
        old(dial).attempts < u32::MAX,
        old(dial).retry_policy == Some(own),
        !(outcome is Connected),
        call_ensures(LoadBalancer::<B, S, FixedRetry>::dial_with_retry::<C>, (lb, dial, outcome, elapsed), step),
    ensures
        own.limit() is None ==> step == DialStep::<C>::RetryAfter(own.delay()),
        own.limit() matches Some(max) ==> {
            &&& old(dial).attempts + 1 < max ==> step == DialStep::<C>::RetryAfter(own.delay())
            &&& old(dial).attempts + 1 >= max ==> step is Failed
        },
        step is RetryAfter || step is Failed,
{
}

/// The same of a dial without a policy of its own, by the configured one.
pub proof fn a_configured_fixed_retry_sets_the_pace<B, S: BalanceStrategy, C>(
    lb: &LoadBalancer<B, S, FixedRetry>,
    dial: &mut Dial<FixedRetry>,
    configured: FixedRetry,
    outcome: AttemptOutcome<C>,
    elapsed: Duration,
    step: DialStep<C>,
)
    requires
        old(dial).attempts < u32::MAX,
        old(dial).retry_policy is None,
        lb@.retry_policy == Some(configured),
        !(outcome is Connected),
        call_ensures(LoadBalancer::<B, S, FixedRetry>::dial_with_retry::<C>, (lb, dial, outcome, elapsed), step),
    ensures
        configured.limit() is None ==> step == DialStep::<C>::RetryAfter(configured.delay()),
        configured.limit() matches Some(max) ==> {
            &&& old(dial).attempts + 1 < max ==> step == DialStep::<C>::RetryAfter(
                configured.delay(),
            )
            &&& old(dial).attempts + 1 >= max ==> step is Failed
        },
        step is RetryAfter || step is Failed,
{
}

/// A dial with no policy at all fails with its first failed attempt.
pub proof fn no_policy_no_retry<B, S: BalanceStrategy, P: RetryPolicy, C>(
    lb: &LoadBalancer<B, S, P>,
    dial: &mut Dial<P>,
    outcome: AttemptOutcome<C>,
    elapsed: Duration,
    step: DialStep<C>,
)
    requires
        old(dial).attempts < u32::MAX,
        old(dial).retry_policy is None,
        lb@.retry_policy is None,
        !(outcome is Connected),
        call_ensures(LoadBalancer::<B, S, P>::dial_with_retry::<C>, (lb, dial, outcome, elapsed), step),
    ensures
        step is Failed,
{
}

/// A dial that is told to fail fast fails with its first failed attempt,
/// however many attempts others get.
pub proof fn failing_fast_overrides_the_default<B, S: BalanceStrategy, C>(
    lb: &LoadBalancer<B, S, NoRetry>,
    dial: &mut Dial<NoRetry>,
    outcome: AttemptOutcome<C>,
    elapsed: Duration,
    step: DialStep<C>,
)
    requires
        old(dial).attempts < u32::MAX,
        old(dial).retry_policy is Some,
        !(outcome is Connected),
        call_ensures(
            LoadBalancer::<B, S, NoRetry>::dial_with_retry::<C>,
            (lb, dial, outcome, elapsed),
            step,
        ),
    ensures
        step is Failed,
{
}

/// From the dial to its retry: a dial that is started with a fixed-delay
/// policy of its own is repeated by that policy, whatever is configured.
pub proof fn a_policy_given_to_a_dial_is_used<B, S: BalanceStrategy, C>(
    lb: &mut LoadBalancer<B, S, FixedRetry>,
    later: &LoadBalancer<B, S, FixedRetry>,
    addr: &str,
    own: FixedRetry,
    started: Dial<FixedRetry>,
    dial: &mut Dial<FixedRetry>,
    error: Error,
    elapsed: Duration,
    step: DialStep<C>,
)
    requires
        old(lb)@.wf(),
        call_ensures(
            LoadBalancer::<B, S, FixedRetry>::dial_with_options,
            (lb, addr, None, Some(own)),
            Ok(started),
        ),
        *old(dial) == started,
        own.limit() matches Some(max) ==> max > 1,
        call_ensures(
            LoadBalancer::<B, S, FixedRetry>::dial_with_retry::<C>,
            (later, dial, AttemptOutcome::Failed(error), elapsed),
            step,
        ),
    ensures
        step == DialStep::<C>::RetryAfter(own.delay()),
{
}

} // verus!
