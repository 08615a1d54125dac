//! What single calls do to a pool, field by field.

use std::time::Duration;

use vstd::prelude::*;

use crate::address::address_fault;
use crate::balancer::load_balancer::{
    lemma_dial_step, lemma_serial_index, BackendOutput, BalancerView, Dial, GuardTicket,
    LoadBalancer,
};
use crate::error::{Error, ErrorView};
use crate::retry::RetryPolicy;
use crate::strategies::Strategy;
use crate::strategy::{BalanceStrategy, TunnelMetrics};
use crate::text::decimal;

verus! {

/// An added backend comes last, without an ID, with nothing on its books and in
/// service. Nothing else in the pool changes.
pub proof fn an_added_backend_is_in_service<B, S: BalanceStrategy, P: RetryPolicy>(
    lb: &mut LoadBalancer<B, S, P>,
    backend: B,
    idx: usize,
    i: int,
)
    requires
        old(lb)@.wf(),
        old(lb)@.can_grow(1),
        call_ensures(LoadBalancer::<B, S, P>::add_backend, (lb, backend), idx),
    ensures
        idx == old(lb)@.backends.len(),
        final(lb)@.backends.len() == idx + 1,
        final(lb)@.drained.len() == idx + 1,
        final(lb)@.backends[idx as int] == backend,
        final(lb)@.ids[idx as int] is None,
        !final(lb)@.drained[idx as int],
        !final(lb)@.draining(idx as int),
        final(lb)@.metrics[idx as int].rtt is None,
        final(lb)@.metrics[idx as int].active_connections == 0,
        final(lb)@.metrics[idx as int].recent_errors == 0,
        final(lb)@.metrics[idx as int].total_dials == 0,
        final(lb)@.metrics[idx as int].total_errors == 0,
        0 <= i < idx ==> {
            &&& final(lb)@.backends[i] == old(lb)@.backends[i]
            &&& final(lb)@.ids[i] == old(lb)@.ids[i]
            &&& final(lb)@.metrics[i] == old(lb)@.metrics[i]
            &&& final(lb)@.serials[i] == old(lb)@.serials[i]
            &&& final(lb)@.drained[i] == old(lb)@.drained[i]
            &&& final(lb)@.serials[i] != final(lb)@.serials[idx as int]
        },
        final(lb)@.serials[idx as int] >= old(lb)@.next_serial,
        final(lb)@.next_serial > final(lb)@.serials[idx as int],
        final(lb)@.strategy == old(lb)@.strategy,
        final(lb)@.dial_timeout == old(lb)@.dial_timeout,
        final(lb)@.retry_policy == old(lb)@.retry_policy,
{
}

/// The same of a backend that is added with an ID, which it then has.
pub proof fn a_backend_added_with_an_id_is_in_service<B, S: BalanceStrategy, P: RetryPolicy>(
    lb: &mut LoadBalancer<B, S, P>,
    id: String,
    backend: B,
    idx: usize,
    i: int,
)
    requires
        old(lb)@.wf(),
        old(lb)@.can_grow(1),
        call_ensures(LoadBalancer::<B, S, P>::add_backend_with_id, (lb, id, backend), idx),
    ensures
        idx == old(lb)@.backends.len(),
        final(lb)@.backends.len() == idx + 1,
        final(lb)@.drained.len() == idx + 1,
        final(lb)@.backends[idx as int] == backend,
        final(lb)@.ids[idx as int] == Some(id@),
        !final(lb)@.drained[idx as int],
        !final(lb)@.draining(idx as int),
        final(lb)@.metrics[idx as int].rtt is None,
        final(lb)@.metrics[idx as int].active_connections == 0,
        final(lb)@.metrics[idx as int].recent_errors == 0,
        final(lb)@.metrics[idx as int].total_dials == 0,
        final(lb)@.metrics[idx as int].total_errors == 0,
        0 <= i < idx ==> {
            &&& final(lb)@.backends[i] == old(lb)@.backends[i]
            &&& final(lb)@.ids[i] == old(lb)@.ids[i]
            &&& final(lb)@.metrics[i] == old(lb)@.metrics[i]
            &&& final(lb)@.serials[i] == old(lb)@.serials[i]
            &&& final(lb)@.drained[i] == old(lb)@.drained[i]
            &&& final(lb)@.serials[i] != final(lb)@.serials[idx as int]
        },
        final(lb)@.serials[idx as int] >= old(lb)@.next_serial,
        final(lb)@.next_serial > final(lb)@.serials[idx as int],
        final(lb)@.strategy == old(lb)@.strategy,
        final(lb)@.dial_timeout == old(lb)@.dial_timeout,
        final(lb)@.retry_policy == old(lb)@.retry_policy,
{
}

/// A dial that goes out right after a backend was added, and for which the
/// strategy chooses that backend, goes to it.
pub proof fn an_added_backend_gets_its_dials<B, S: BalanceStrategy, P: RetryPolicy>(
    lb: &mut LoadBalancer<B, S, P>,
    then: &mut LoadBalancer<B, S, P>,
    id: String,
    backend: B,
    idx: usize,
    addr: &str,
    dial: Dial<P>,
)
    requires
        old(lb)@.wf(),
        old(lb)@.can_grow(1),
        call_ensures(LoadBalancer::<B, S, P>::add_backend, (lb, backend), idx) || call_ensures(
            LoadBalancer::<B, S, P>::add_backend_with_id,
            (lb, id, backend),
            idx,
        ),
        *old(then) == *final(lb),
        call_ensures(LoadBalancer::<B, S, P>::dial, (then, addr), Ok(dial)),
        dial.chosen == final(lb)@.serials[idx as int],
    ensures
        dial.index == idx,
        dial.serial == dial.chosen,
        final(then)@.metrics[idx as int].active_connections == 1,
{
    let pool = final(lb)@;
    let chosen = choose|chosen: int|
        {
            &&& #[trigger] pool.dial_step(
                addr@,
                final(then)@.strategy.state(),
                chosen,
                dial.index as int,
            )
            &&& dial.chosen == pool.serials[chosen]
        };
    assert(pool.wf());
    lemma_serial_index(pool, chosen);
    lemma_serial_index(pool, idx as int);
    assert(!pool.draining(chosen));
    assert(pool.next_in_service(chosen, pool.size()) == chosen);
}

/// A removed backend comes back to the caller. Those behind it move up by one,
/// with all that is known of them, those before it stay, and the strategy is
/// told which one left.
pub proof fn a_removed_backend_is_gone<B, S: BalanceStrategy, P: RetryPolicy>(
    lb: &mut LoadBalancer<B, S, P>,
    index: usize,
    removed: Option<B>,
    i: int,
)
    requires
        old(lb)@.wf(),
        call_ensures(LoadBalancer::<B, S, P>::remove_backend, (lb, index), removed),
        index < old(lb)@.backends.len(),
    ensures
        removed == Some(old(lb)@.backends[index as int]),
        old(lb)@.strategy.removal_step(index as int, final(lb)@.strategy.state()),
        final(lb)@.backends.len() == old(lb)@.backends.len() - 1,
        final(lb)@.drained.len() == old(lb)@.backends.len() - 1,
        final(lb)@.ids.len() == old(lb)@.backends.len() - 1,
        final(lb)@.metrics.len() == old(lb)@.backends.len() - 1,
        final(lb)@.serials.len() == old(lb)@.backends.len() - 1,
        0 <= i < index ==> {
            &&& final(lb)@.backends[i] == old(lb)@.backends[i]
            &&& final(lb)@.ids[i] == old(lb)@.ids[i]
            &&& final(lb)@.metrics[i] == old(lb)@.metrics[i]
            &&& final(lb)@.serials[i] == old(lb)@.serials[i]
            &&& final(lb)@.drained[i] == old(lb)@.drained[i]
        },
        index < i < old(lb)@.backends.len() ==> {
            &&& final(lb)@.backends[i - 1] == old(lb)@.backends[i]
            &&& final(lb)@.ids[i - 1] == old(lb)@.ids[i]
            &&& final(lb)@.metrics[i - 1] == old(lb)@.metrics[i]
            &&& final(lb)@.serials[i - 1] == old(lb)@.serials[i]
            &&& final(lb)@.drained[i - 1] == old(lb)@.drained[i]
        },
        final(lb)@.next_serial == old(lb)@.next_serial,
        final(lb)@.dial_timeout == old(lb)@.dial_timeout,
        final(lb)@.retry_policy == old(lb)@.retry_policy,
{
}

/// An index outside the pool removes nothing.
pub proof fn no_backend_is_removed_from_outside<B, S: BalanceStrategy, P: RetryPolicy>(
    lb: &mut LoadBalancer<B, S, P>,
    index: usize,
    removed: Option<B>,
)
    requires
        old(lb)@.wf(),
        call_ensures(LoadBalancer::<B, S, P>::remove_backend, (lb, index), removed),
        index >= old(lb)@.backends.len(),
    ensures
        removed is None,
        final(lb)@.backends == old(lb)@.backends,
        final(lb)@.ids == old(lb)@.ids,
        final(lb)@.metrics == old(lb)@.metrics,
        final(lb)@.serials == old(lb)@.serials,
        final(lb)@.drained == old(lb)@.drained,
        final(lb)@.next_serial == old(lb)@.next_serial,
        final(lb)@.strategy == old(lb)@.strategy,
        final(lb)@.dial_timeout == old(lb)@.dial_timeout,
        final(lb)@.retry_policy == old(lb)@.retry_policy,
{
}

/// Removing by ID takes the first backend with that ID out, and no other:
/// whatever stands before it stays, and whatever stands behind it moves up.
pub proof fn the_first_with_the_id_is_removed<B, S: BalanceStrategy, P: RetryPolicy>(
    lb: &mut LoadBalancer<B, S, P>,
    id: &str,
    removed: Option<B>,
    at: int,
    i: int,
)
    requires
        old(lb)@.wf(),
        call_ensures(LoadBalancer::<B, S, P>::remove_backend_by_id, (lb, id), removed),
        0 <= at < old(lb)@.backends.len(),
        old(lb)@.ids[at] == Some(id@),
        forall|j: int| 0 <= j < at ==> #[trigger] old(lb)@.ids[j] != Some(id@),
    ensures
        removed == Some(old(lb)@.backends[at]),
        old(lb)@.strategy.removal_step(at, final(lb)@.strategy.state()),
        final(lb)@.backends.len() == old(lb)@.backends.len() - 1,
        0 <= i < at ==> {
            &&& final(lb)@.backends[i] == old(lb)@.backends[i]
            &&& final(lb)@.ids[i] == old(lb)@.ids[i]
            &&& final(lb)@.metrics[i] == old(lb)@.metrics[i]
            &&& final(lb)@.serials[i] == old(lb)@.serials[i]
            &&& final(lb)@.drained[i] == old(lb)@.drained[i]
        },
        at < i < old(lb)@.backends.len() ==> {
            &&& final(lb)@.backends[i - 1] == old(lb)@.backends[i]
            &&& final(lb)@.ids[i - 1] == old(lb)@.ids[i]
            &&& final(lb)@.metrics[i - 1] == old(lb)@.metrics[i]
            &&& final(lb)@.serials[i - 1] == old(lb)@.serials[i]
            &&& final(lb)@.drained[i - 1] == old(lb)@.drained[i]
        },
        final(lb)@.next_serial == old(lb)@.next_serial,
        final(lb)@.dial_timeout == old(lb)@.dial_timeout,
        final(lb)@.retry_policy == old(lb)@.retry_policy,
{
}

/// An ID that no backend has removes nothing.
pub proof fn unknown_ids_remove_nothing<B, S: BalanceStrategy, P: RetryPolicy>(
    lb: &mut LoadBalancer<B, S, P>,
    id: &str,
    removed: Option<B>,
)
    requires
        old(lb)@.wf(),
        call_ensures(LoadBalancer::<B, S, P>::remove_backend_by_id, (lb, id), removed),
        forall|j: int| 0 <= j < old(lb)@.ids.len() ==> #[trigger] old(lb)@.ids[j] != Some(id@),
    ensures
        removed is None,
        final(lb)@.backends == old(lb)@.backends,
        final(lb)@.ids == old(lb)@.ids,
        final(lb)@.metrics == old(lb)@.metrics,
        final(lb)@.serials == old(lb)@.serials,
        final(lb)@.drained == old(lb)@.drained,
        final(lb)@.next_serial == old(lb)@.next_serial,
        final(lb)@.strategy == old(lb)@.strategy,
        final(lb)@.dial_timeout == old(lb)@.dial_timeout,
        final(lb)@.retry_policy == old(lb)@.retry_policy,
{
}

/// Exchanging the backends puts the new ones in, in order, without IDs, with
/// nothing on their books and in service, under serials never used before. The
/// old ones come back in order. The strategy is replaced only if one is given.
pub proof fn replaced_backends_start_afresh<B, S: BalanceStrategy, P: RetryPolicy>(
    lb: &mut LoadBalancer<B, S, P>,
    new_backends: Vec<B>,
    strategy: Option<S>,
    result: Result<Vec<B>, Error>,
    i: int,
    j: int,
)
    requires
        old(lb)@.wf(),
        old(lb)@.can_grow(new_backends@.len()),
        call_ensures(LoadBalancer::<B, S, P>::replace_backends, (lb, new_backends, strategy), result),
        new_backends@.len() > 0,
    ensures
        result matches Ok(retired) && retired@ == old(lb)@.backends,
        final(lb)@.backends == new_backends@,
        final(lb)@.strategy == (if strategy is Some {
            strategy->0
        } else {
            old(lb)@.strategy
        }),
        final(lb)@.ids.len() == new_backends@.len(),
        final(lb)@.metrics.len() == new_backends@.len(),
        final(lb)@.serials.len() == new_backends@.len(),
        final(lb)@.drained.len() == new_backends@.len(),
        0 <= i < new_backends@.len() ==> {
            &&& final(lb)@.ids[i] is None
            &&& !final(lb)@.drained[i]
            &&& final(lb)@.metrics[i].rtt is None
            &&& final(lb)@.metrics[i].active_connections == 0
            &&& final(lb)@.metrics[i].recent_errors == 0
            &&& final(lb)@.metrics[i].total_dials == 0
            &&& final(lb)@.metrics[i].total_errors == 0
            &&& old(lb)@.next_serial <= final(lb)@.serials[i] < final(lb)@.next_serial
        },
        0 <= i < j < new_backends@.len() ==> final(lb)@.serials[i] != final(lb)@.serials[j],
        final(lb)@.dial_timeout == old(lb)@.dial_timeout,
        final(lb)@.retry_policy == old(lb)@.retry_policy,
{
}

/// An empty pool is refused, and the old one stays.
pub proof fn an_empty_replacement_is_refused<B, S: BalanceStrategy, P: RetryPolicy>(
    lb: &mut LoadBalancer<B, S, P>,
    new_backends: Vec<B>,
    strategy: Option<S>,
    result: Result<Vec<B>, Error>,
)
    requires
        old(lb)@.wf(),
        old(lb)@.can_grow(new_backends@.len()),
        call_ensures(LoadBalancer::<B, S, P>::replace_backends, (lb, new_backends, strategy), result),
        new_backends@.len() == 0,
    ensures
        result matches Err(e) && e@ == ErrorView::NoBackends,
        final(lb)@.backends == old(lb)@.backends,
        final(lb)@.ids == old(lb)@.ids,
        final(lb)@.metrics == old(lb)@.metrics,
        final(lb)@.serials == old(lb)@.serials,
        final(lb)@.drained == old(lb)@.drained,
        final(lb)@.next_serial == old(lb)@.next_serial,
        final(lb)@.strategy == old(lb)@.strategy,
        final(lb)@.dial_timeout == old(lb)@.dial_timeout,
        final(lb)@.retry_policy == old(lb)@.retry_policy,
{
}

/// Draining marks the backend and changes nothing else.
pub proof fn draining_sets_one_mark<B, S: BalanceStrategy, P: RetryPolicy>(
    lb: &mut LoadBalancer<B, S, P>,
    index: usize,
    found: bool,
    i: int,
)
    requires
        old(lb)@.wf(),
        call_ensures(LoadBalancer::<B, S, P>::drain_backend, (lb, index), found),
        0 <= i < old(lb)@.backends.len(),
    ensures
        found == (index < old(lb)@.backends.len()),
        final(lb)@.drained.len() == old(lb)@.drained.len(),
        final(lb)@.drained[i] == (i == index || old(lb)@.drained[i]),
        final(lb)@.backends == old(lb)@.backends,
        final(lb)@.ids == old(lb)@.ids,
        final(lb)@.metrics == old(lb)@.metrics,
        final(lb)@.serials == old(lb)@.serials,
        final(lb)@.next_serial == old(lb)@.next_serial,
        final(lb)@.strategy == old(lb)@.strategy,
        final(lb)@.dial_timeout == old(lb)@.dial_timeout,
        final(lb)@.retry_policy == old(lb)@.retry_policy,
{
}

/// Undraining lifts the mark, says whether there was one, and changes nothing
/// else.
pub proof fn undraining_lifts_one_mark<B, S: BalanceStrategy, P: RetryPolicy>(
    lb: &mut LoadBalancer<B, S, P>,
    index: usize,
    undrained: bool,
    i: int,
)
    requires
        old(lb)@.wf(),
        call_ensures(LoadBalancer::<B, S, P>::undrain_backend, (lb, index), undrained),
        0 <= i < old(lb)@.backends.len(),
    ensures
        undrained == (index < old(lb)@.backends.len() && old(lb)@.drained[index as int]),
        final(lb)@.drained.len() == old(lb)@.drained.len(),
        final(lb)@.drained[i] == (i != index && old(lb)@.drained[i]),
        final(lb)@.backends == old(lb)@.backends,
        final(lb)@.ids == old(lb)@.ids,
        final(lb)@.metrics == old(lb)@.metrics,
        final(lb)@.serials == old(lb)@.serials,
        final(lb)@.next_serial == old(lb)@.next_serial,
        final(lb)@.strategy == old(lb)@.strategy,
        final(lb)@.dial_timeout == old(lb)@.dial_timeout,
        final(lb)@.retry_policy == old(lb)@.retry_policy,
{
}

/// A backend that was drained is draining, and one that was undrained after
/// that is not, and takes dials again: what two calls in a row come to.
pub proof fn draining_is_seen_and_undone<B, S: BalanceStrategy, P: RetryPolicy>(
    lb: &mut LoadBalancer<B, S, P>,
    then: &mut LoadBalancer<B, S, P>,
    index: usize,
    found: bool,
    undrained: bool,
    seen: bool,
    seen_after: bool,
)
    requires
        old(lb)@.wf(),
        index < old(lb)@.backends.len(),
        call_ensures(LoadBalancer::<B, S, P>::drain_backend, (lb, index), found),
        *old(then) == *final(lb),
        call_ensures(LoadBalancer::<B, S, P>::is_draining, (&*final(lb), index), seen),
        call_ensures(LoadBalancer::<B, S, P>::undrain_backend, (then, index), undrained),
        call_ensures(LoadBalancer::<B, S, P>::is_draining, (&*final(then), index), seen_after),
    ensures
        found,
        seen,
        undrained,
        !seen_after,
{
}

/// An index outside the pool is not draining, and cannot be drained.
pub proof fn nothing_drains_outside_the_pool<B, S: BalanceStrategy, P: RetryPolicy>(
    lb: &mut LoadBalancer<B, S, P>,
    index: usize,
    found: bool,
    seen: bool,
)
    requires
        old(lb)@.wf(),
        index >= old(lb)@.backends.len(),
        call_ensures(LoadBalancer::<B, S, P>::drain_backend, (lb, index), found),
        call_ensures(LoadBalancer::<B, S, P>::is_draining, (&*final(lb), index), seen),
    ensures
        !found,
        !seen,
        final(lb)@.backends == old(lb)@.backends,
        final(lb)@.ids == old(lb)@.ids,
        final(lb)@.metrics == old(lb)@.metrics,
        final(lb)@.serials == old(lb)@.serials,
        final(lb)@.drained == old(lb)@.drained,
        final(lb)@.next_serial == old(lb)@.next_serial,
        final(lb)@.strategy == old(lb)@.strategy,
        final(lb)@.dial_timeout == old(lb)@.dial_timeout,
        final(lb)@.retry_policy == old(lb)@.retry_policy,
{
}

/// Setting a strategy replaces the strategy and nothing else.
pub proof fn a_set_strategy_is_used<B, S: BalanceStrategy, P: RetryPolicy>(
    lb: &mut LoadBalancer<B, S, P>,
    strategy: S,
)
    requires
        old(lb)@.wf(),
        call_ensures(LoadBalancer::<B, S, P>::set_strategy, (lb, strategy), ()),
    ensures
        final(lb)@.strategy == strategy,
        final(lb)@.backends == old(lb)@.backends,
        final(lb)@.ids == old(lb)@.ids,
        final(lb)@.metrics == old(lb)@.metrics,
        final(lb)@.serials == old(lb)@.serials,
        final(lb)@.drained == old(lb)@.drained,
        final(lb)@.next_serial == old(lb)@.next_serial,
        final(lb)@.dial_timeout == old(lb)@.dial_timeout,
        final(lb)@.retry_policy == old(lb)@.retry_policy,
{
}

/// What can be read of a pool is what is in it.
pub proof fn reads_tell_what_is_there<B, S: BalanceStrategy, P: RetryPolicy>(
    lb: &LoadBalancer<B, S, P>,
    index: usize,
    metrics: Vec<TunnelMetrics>,
    ids: Vec<Option<String>>,
    count: usize,
    backend: Option<&B>,
    draining: bool,
    i: int,
)
    requires
        lb@.wf(),
        call_ensures(LoadBalancer::<B, S, P>::metrics, (lb,), metrics),
        call_ensures(LoadBalancer::<B, S, P>::backend_ids, (lb,), ids),
        call_ensures(LoadBalancer::<B, S, P>::backend_count, (lb,), count),
        call_ensures(LoadBalancer::<B, S, P>::backend, (lb, index), backend),
        call_ensures(LoadBalancer::<B, S, P>::is_draining, (lb, index), draining),
    ensures
        metrics@ == lb@.metrics,
        count == lb@.backends.len(),
        ids@.len() == count,
        0 <= i < count ==> match ids@[i] {
            Some(text) => lb@.ids[i] == Some(text@),
            None => lb@.ids[i] is None,
        },
        index < count ==> backend == Some(&lb@.backends[index as int]),
        index >= count ==> backend is None,
        index < count ==> draining == lb@.drained[index as int],
        index >= count ==> !draining,
{
    let texts = ids@.map_values(
        |id: Option<String>| crate::balancer::load_balancer::id_text(id),
    );
    assert(texts.len() == ids@.len());
    if 0 <= i < count {
        assert(texts[i] == lb@.ids[i]);
    }
}

/// Taking a balancer down gives every backend back, in pool order.
pub proof fn a_shutdown_gives_all_backends_back<B, S: BalanceStrategy, P: RetryPolicy>(
    lb: LoadBalancer<B, S, P>,
    backends: Vec<B>,
)
    requires
        call_ensures(LoadBalancer::<B, S, P>::shutdown, (lb,), backends),
    ensures
        backends@ == lb@.backends,
{
}

/// A new balancer has the given backends in order, under distinct serials, all
/// of them in service, without IDs and with nothing on their books. It has no
/// timeout and no retry policy.
pub proof fn a_new_pool_starts_afresh<B, S: BalanceStrategy, P: RetryPolicy>(
    backends: Vec<B>,
    strategy: S,
    result: Result<LoadBalancer<B, S, P>, Error>,
    i: int,
    j: int,
)
    requires
        call_ensures(LoadBalancer::<B, S, P>::new, (backends, strategy), result),
    ensures
        backends@.len() == 0 ==> (result matches Err(e) && e@ == ErrorView::NoBackends),
        backends@.len() > 0 ==> {
            &&& result matches Ok(lb)
            &&& lb@.wf()
            &&& lb@.backends == backends@
            &&& lb@.strategy == strategy
            &&& lb@.dial_timeout is None
            &&& lb@.retry_policy is None
            &&& 0 <= i < backends@.len() ==> {
                &&& lb@.ids[i] is None
                &&& !lb@.drained[i]
                &&& lb@.metrics[i].rtt is None
                &&& lb@.metrics[i].active_connections == 0
                &&& lb@.metrics[i].recent_errors == 0
                &&& lb@.metrics[i].total_dials == 0
                &&& lb@.metrics[i].total_errors == 0
            }
            &&& 0 <= i < j < backends@.len() ==> lb@.serials[i] != lb@.serials[j]
        },
{
}

/// Given metrics are taken as they are, one set per backend, and so are the
/// timeout and the retry policy. If the numbers do not match, the complaint
/// says both.
pub proof fn a_seeded_pool_has_what_was_given<B, S: BalanceStrategy, P: RetryPolicy>(
    backends: Vec<B>,
    initial_metrics: Vec<TunnelMetrics>,
    strategy: S,
    dial_timeout: Option<Duration>,
    retry_policy: Option<P>,
    result: Result<LoadBalancer<B, S, P>, Error>,
    i: int,
)
    requires
        call_ensures(
            LoadBalancer::<B, S, P>::new_with_metrics,
            (backends, initial_metrics, strategy, dial_timeout, retry_policy),
            result,
        ),
    ensures
        backends@.len() == 0 ==> (result matches Err(e) && e@ == ErrorView::NoBackends),
        backends@.len() > 0 && backends@.len() != initial_metrics@.len() ==> (result matches Err(e) && e@
            == ErrorView::Factory(
            "initial_metrics.len() ("@ + decimal(initial_metrics@.len()) + ") must equal "@
                + "backends"@ + ".len() ("@ + decimal(backends@.len()) + ")"@,
        )),
        0 < backends@.len() == initial_metrics@.len() ==> {
            &&& result matches Ok(lb)
            &&& lb@.wf()
            &&& lb@.backends == backends@
            &&& lb@.metrics == initial_metrics@
            &&& lb@.strategy == strategy
            &&& lb@.dial_timeout == dial_timeout
            &&& lb@.retry_policy == retry_policy
            &&& 0 <= i < backends@.len() ==> lb@.ids[i] is None && !lb@.drained[i]
        },
{
}

/// If every factory made a backend, the balancer has them all, in order, each
/// with the metrics it came with.
pub proof fn factories_fill_the_pool<B, S: BalanceStrategy, P: RetryPolicy>(
    created: Vec<Result<BackendOutput<B>, Error>>,
    strategy: S,
    result: Result<LoadBalancer<B, S, P>, Error>,
    i: int,
)
    requires
        call_ensures(LoadBalancer::<B, S, P>::from_factories, (created, strategy), result),
        created@.len() > 0,
        forall|k: int| 0 <= k < created@.len() ==> #[trigger] created@[k] is Ok,
        0 <= i < created@.len(),
    ensures
        result matches Ok(lb) && lb@.backends.len() == created@.len() && lb@.backends[i]
            == created@[i]->Ok_0.backend && lb@.metrics[i] == created@[i]->Ok_0.initial_metrics
            && lb@.ids[i] is None && !lb@.drained[i] && lb@.strategy == strategy
            && lb@.dial_timeout is None && lb@.retry_policy is None,
{
}

/// The first factory that fails decides: its error is what building gives.
pub proof fn the_first_failed_factory_decides<B, S: BalanceStrategy, P: RetryPolicy>(
    created: Vec<Result<BackendOutput<B>, Error>>,
    strategy: S,
    result: Result<LoadBalancer<B, S, P>, Error>,
    at: int,
    error: Error,
)
    requires
        call_ensures(LoadBalancer::<B, S, P>::from_factories, (created, strategy), result),
        0 <= at < created@.len(),
        created@[at] == Err::<BackendOutput<B>, Error>(error),
        forall|k: int| 0 <= k < at ==> #[trigger] created@[k] is Ok,
    ensures
        result matches Err(e) && e == error,
{
    assert(created@[at] is Err);
}

/// Without factories there is no balancer.
pub proof fn no_factories_no_balancer<B, S: BalanceStrategy, P: RetryPolicy>(
    created: Vec<Result<BackendOutput<B>, Error>>,
    strategy: S,
    result: Result<LoadBalancer<B, S, P>, Error>,
)
    requires
        call_ensures(LoadBalancer::<B, S, P>::from_factories, (created, strategy), result),
        created@.len() == 0,
    ensures
        result matches Err(e) && e@ == ErrorView::NoBackends,
{
}

/// A successful dial is counted on its backend, and ends its recent errors.
/// Nothing else changes but what the strategy makes of it.
pub proof fn a_success_is_counted_once<B, S: BalanceStrategy, P: RetryPolicy>(
    lb: &mut LoadBalancer<B, S, P>,
    idx: usize,
    i: int,
)
    requires
        old(lb)@.wf(),
        idx < old(lb)@.size() ==> old(lb)@.metrics[idx as int].total_dials < u64::MAX,
        call_ensures(LoadBalancer::<B, S, P>::handle_dial_success, (lb, idx), ()),
        0 <= i < old(lb)@.backends.len(),
    ensures
        old(lb)@.strategy.success_step(idx as int, final(lb)@.strategy.state()),
        final(lb)@.metrics.len() == old(lb)@.metrics.len(),
        final(lb)@.metrics[i].rtt == old(lb)@.metrics[i].rtt,
        final(lb)@.metrics[i].active_connections == old(lb)@.metrics[i].active_connections,
        final(lb)@.metrics[i].total_errors == old(lb)@.metrics[i].total_errors,
        final(lb)@.metrics[i].total_dials == old(lb)@.metrics[i].total_dials + (if i == idx {
            1int
        } else {
            0
        }),
        final(lb)@.metrics[i].recent_errors == (if i == idx {
            0
        } else {
            old(lb)@.metrics[i].recent_errors
        }),
        final(lb)@.backends == old(lb)@.backends,
        final(lb)@.ids == old(lb)@.ids,
        final(lb)@.serials == old(lb)@.serials,
        final(lb)@.drained == old(lb)@.drained,
        final(lb)@.next_serial == old(lb)@.next_serial,
        final(lb)@.dial_timeout == old(lb)@.dial_timeout,
        final(lb)@.retry_policy == old(lb)@.retry_policy,
{
}

/// A failed dial is counted on its backend as one more error, recent and in
/// all, and as one connection fewer. The error comes back as it is. Nothing
/// else changes but what the strategy makes of it.
pub proof fn a_failure_is_counted_once<B, S: BalanceStrategy, P: RetryPolicy>(
    lb: &mut LoadBalancer<B, S, P>,
    idx: usize,
    err: Error,
    same: Error,
    i: int,
)
    requires
        old(lb)@.wf(),
        call_ensures(LoadBalancer::<B, S, P>::handle_dial_error, (lb, idx, err), same),
        0 <= i < old(lb)@.backends.len(),
    ensures
        same == err,
        old(lb)@.strategy.error_step(idx as int, final(lb)@.strategy.state()),
        final(lb)@.metrics.len() == old(lb)@.metrics.len(),
        i != idx ==> final(lb)@.metrics[i] == old(lb)@.metrics[i],
        i == idx ==> {
            let before = old(lb)@.metrics[i];
            let after = final(lb)@.metrics[i];
            &&& after.rtt == before.rtt
            &&& after.total_dials == before.total_dials
            &&& before.active_connections > 0 ==> after.active_connections
                == before.active_connections - 1
            &&& before.active_connections == 0 ==> after.active_connections == 0
            &&& before.recent_errors < u32::MAX ==> after.recent_errors == before.recent_errors
                + 1
            &&& before.recent_errors == u32::MAX ==> after.recent_errors == u32::MAX
            &&& before.total_errors < u64::MAX ==> after.total_errors == before.total_errors + 1
            &&& before.total_errors == u64::MAX ==> after.total_errors == u64::MAX
        },
        final(lb)@.backends == old(lb)@.backends,
        final(lb)@.ids == old(lb)@.ids,
        final(lb)@.serials == old(lb)@.serials,
        final(lb)@.drained == old(lb)@.drained,
        final(lb)@.next_serial == old(lb)@.next_serial,
        final(lb)@.dial_timeout == old(lb)@.dial_timeout,
        final(lb)@.retry_policy == old(lb)@.retry_policy,
{
}

/// Closing a connection takes it out of the count of the backend with the
/// ticket's serial, wherever that backend is, and changes nothing else.
pub proof fn a_release_counts_one_down<B, S: BalanceStrategy, P: RetryPolicy>(
    lb: &mut LoadBalancer<B, S, P>,
    ticket: GuardTicket,
    i: int,
)
    requires
        old(lb)@.wf(),
        call_ensures(LoadBalancer::<B, S, P>::release, (lb, ticket), ()),
        0 <= i < old(lb)@.backends.len(),
    ensures
        final(lb)@.metrics.len() == old(lb)@.metrics.len(),
        final(lb)@.metrics[i].rtt == old(lb)@.metrics[i].rtt,
        final(lb)@.metrics[i].total_errors == old(lb)@.metrics[i].total_errors,
        final(lb)@.metrics[i].total_dials == old(lb)@.metrics[i].total_dials,
        final(lb)@.metrics[i].recent_errors == old(lb)@.metrics[i].recent_errors,
        final(lb)@.metrics[i].active_connections == (if old(lb)@.serials[i] == ticket.serial()
            && old(lb)@.metrics[i].active_connections > 0 {
            old(lb)@.metrics[i].active_connections - 1
        } else {
            old(lb)@.metrics[i].active_connections as int
        }),
        final(lb)@.backends == old(lb)@.backends,
        final(lb)@.ids == old(lb)@.ids,
        final(lb)@.serials == old(lb)@.serials,
        final(lb)@.drained == old(lb)@.drained,
        final(lb)@.next_serial == old(lb)@.next_serial,
        final(lb)@.strategy == old(lb)@.strategy,
        final(lb)@.dial_timeout == old(lb)@.dial_timeout,
        final(lb)@.retry_policy == old(lb)@.retry_policy,
{
    lemma_serial_index(old(lb)@, i);
}

/// A dial that succeeded hands the connection back with a ticket for the
/// backend it is on, and is counted there.
pub proof fn a_finished_dial_is_settled<B, S: BalanceStrategy, P: RetryPolicy, C>(
    lb: &mut LoadBalancer<B, S, P>,
    dial: Dial<P>,
    conn: C,
    settled: Result<(C, GuardTicket), Error>,
    i: int,
)
    requires
        old(lb)@.wf(),
        old(lb)@.serials.contains(dial.serial) ==> old(lb)@.metrics[old(lb)@.serials.index_of(
            dial.serial,
        )].total_dials < u64::MAX,
        call_ensures(LoadBalancer::<B, S, P>::finish_dial::<C>, (lb, dial, Ok(conn)), settled),
        0 <= i < old(lb)@.backends.len(),
    ensures
        settled matches Ok((same, ticket)) && same == conn && ticket.serial() == dial.serial,
        old(lb)@.serials[i] == dial.serial ==> old(lb)@.strategy.success_step(
            i,
            final(lb)@.strategy.state(),
        ),
        !old(lb)@.serials.contains(dial.serial) ==> final(lb)@.strategy == old(lb)@.strategy,
        final(lb)@.metrics[i].rtt == old(lb)@.metrics[i].rtt,
        final(lb)@.metrics[i].active_connections == old(lb)@.metrics[i].active_connections,
        final(lb)@.metrics[i].total_errors == old(lb)@.metrics[i].total_errors,
        final(lb)@.metrics[i].total_dials == old(lb)@.metrics[i].total_dials + (if old(
            lb,
        )@.serials[i] == dial.serial {
            1int
        } else {
            0
        }),
        final(lb)@.metrics[i].recent_errors == (if old(lb)@.serials[i] == dial.serial {
            0
        } else {
            old(lb)@.metrics[i].recent_errors
        }),
        final(lb)@.backends == old(lb)@.backends,
        final(lb)@.ids == old(lb)@.ids,
        final(lb)@.serials == old(lb)@.serials,
        final(lb)@.drained == old(lb)@.drained,
        final(lb)@.next_serial == old(lb)@.next_serial,
        final(lb)@.dial_timeout == old(lb)@.dial_timeout,
        final(lb)@.retry_policy == old(lb)@.retry_policy,
{
    lemma_serial_index(old(lb)@, i);
}

/// A dial that failed hands the error back, and is counted on the backend that
/// was dialed, and on no other.
pub proof fn a_given_up_dial_is_settled<B, S: BalanceStrategy, P: RetryPolicy, C>(
    lb: &mut LoadBalancer<B, S, P>,
    dial: Dial<P>,
    error: Error,
    settled: Result<(C, GuardTicket), Error>,
    i: int,
)
    requires
        old(lb)@.wf(),
        call_ensures(LoadBalancer::<B, S, P>::finish_dial::<C>, (lb, dial, Err(error)), settled),
        0 <= i < old(lb)@.backends.len(),
    ensures
        settled matches Err(same) && same == error,
        old(lb)@.serials[i] == dial.serial && (dial.chosen == dial.serial || !old(
            lb,
        )@.serials.contains(dial.chosen)) ==> old(lb)@.strategy.error_step(
            i,
            final(lb)@.strategy.state(),
        ),
        !old(lb)@.serials.contains(dial.serial) ==> final(lb)@.strategy == old(lb)@.strategy,
        old(lb)@.serials[i] != dial.serial ==> final(lb)@.metrics[i] == old(lb)@.metrics[i],
        old(lb)@.serials[i] == dial.serial ==> {
            let before = old(lb)@.metrics[i];
            let after = final(lb)@.metrics[i];
            &&& after.rtt == before.rtt
            &&& after.total_dials == before.total_dials
            &&& before.active_connections > 0 ==> after.active_connections
                == before.active_connections - 1
            &&& before.active_connections == 0 ==> after.active_connections == 0
            &&& before.recent_errors < u32::MAX ==> after.recent_errors == before.recent_errors
                + 1
            &&& before.recent_errors == u32::MAX ==> after.recent_errors == u32::MAX
            &&& before.total_errors < u64::MAX ==> after.total_errors == before.total_errors + 1
            &&& before.total_errors == u64::MAX ==> after.total_errors == u64::MAX
        },
        final(lb)@.backends == old(lb)@.backends,
        final(lb)@.ids == old(lb)@.ids,
        final(lb)@.serials == old(lb)@.serials,
        final(lb)@.drained == old(lb)@.drained,
        final(lb)@.next_serial == old(lb)@.next_serial,
        final(lb)@.dial_timeout == old(lb)@.dial_timeout,
        final(lb)@.retry_policy == old(lb)@.retry_policy,
{
    lemma_serial_index(old(lb)@, i);
}

/// Where a stand-in was dialed in vain, the strategy hears of two errors: one
/// on the backend it chose, then one on the stand-in.
pub proof fn a_failed_stand_in_is_told_of_twice<B, S: BalanceStrategy, P: RetryPolicy, C>(
    lb: &mut LoadBalancer<B, S, P>,
    dial: Dial<P>,
    error: Error,
    settled: Result<(C, GuardTicket), Error>,
    chosen: int,
    idx: int,
)
    requires
        old(lb)@.wf(),
        call_ensures(LoadBalancer::<B, S, P>::finish_dial::<C>, (lb, dial, Err(error)), settled),
        0 <= chosen < old(lb)@.backends.len(),
        0 <= idx < old(lb)@.backends.len(),
        chosen != idx,
        old(lb)@.serials[chosen] == dial.chosen,
        old(lb)@.serials[idx] == dial.serial,
    ensures
        exists|mid: S|
            {
                &&& old(lb)@.strategy.error_step(chosen, mid.state())
                &&& #[trigger] mid.error_step(idx, final(lb)@.strategy.state())
            },
{
    lemma_serial_index(old(lb)@, chosen);
    lemma_serial_index(old(lb)@, idx);
}

/// Going round the pool from `at` to `to`, `j` is passed before `to` is
/// reached.
pub open spec fn passed_on_the_way(at: int, to: int, j: int) -> bool {
    if at <= to {
        at <= j < to
    } else {
        at <= j || j < to
    }
}

/// All that the walk to the next backend in service passes is draining.
proof fn lemma_passed_backends<B, S: BalanceStrategy, P>(
    pool: BalancerView<B, S, P>,
    at: int,
    left: nat,
    free: int,
    j: int,
)
    requires
        0 <= at < pool.size(),
        0 <= free < pool.size(),
        !pool.draining(free),
        (if free >= at {
            free - at
        } else {
            free + pool.size() - at
        }) < left <= pool.size(),
        0 <= j < pool.size(),
        passed_on_the_way(at, pool.next_in_service(at, left), j),
    ensures
        pool.draining(j),
        at <= free ==> at <= pool.next_in_service(at, left) <= free,
        free < at ==> (at <= pool.next_in_service(at, left) < pool.size() || 0
            <= pool.next_in_service(at, left) <= free),
    decreases left,
{
    lemma_next_free(pool, at, left, free);
    if pool.draining(at) {
        let next = if at + 1 == pool.size() {
            0
        } else {
            at + 1
        };
        lemma_next_free(pool, next, (left - 1) as nat, free);
        if j != at {
            lemma_passed_backends(pool, next, (left - 1) as nat, free, j);
        }
    }
}

/// The walk ends no later than at a backend that is in service.
proof fn lemma_next_free<B, S: BalanceStrategy, P>(
    pool: BalancerView<B, S, P>,
    at: int,
    left: nat,
    free: int,
)
    requires
        0 <= at < pool.size(),
        0 <= free < pool.size(),
        !pool.draining(free),
        (if free >= at {
            free - at
        } else {
            free + pool.size() - at
        }) < left <= pool.size(),
    ensures
        at <= free ==> at <= pool.next_in_service(at, left) <= free,
        free < at ==> (at <= pool.next_in_service(at, left) < pool.size() || 0
            <= pool.next_in_service(at, left) <= free),
        !pool.draining(pool.next_in_service(at, left)),
    decreases left,
{
    if pool.draining(at) {
        let next = if at + 1 == pool.size() {
            0
        } else {
            at + 1
        };
        lemma_next_free(pool, next, (left - 1) as nat, free);
    }
}

/// A dial goes to the backend that the strategy chooses, given the address and
/// the pool's metrics. Only where that one is draining while another is not
/// does it go elsewhere: to the first one in service behind it, going round.
pub proof fn a_dial_goes_to_the_chosen_backend<B, S: BalanceStrategy, P: RetryPolicy>(
    lb: &mut LoadBalancer<B, S, P>,
    addr: &str,
    dial_timeout: Option<Duration>,
    retry_policy: Option<P>,
    dial: Dial<P>,
    chosen: int,
    free: int,
    j: int,
)
    requires
        old(lb)@.wf(),
        call_ensures(LoadBalancer::<B, S, P>::dial, (lb, addr), Ok(dial)) || call_ensures(
            LoadBalancer::<B, S, P>::dial_with_options,
            (lb, addr, dial_timeout, retry_policy),
            Ok(dial),
        ),
        0 <= chosen < old(lb)@.backends.len(),
        old(lb)@.serials[chosen] == dial.chosen,
    ensures
        dial.index < old(lb)@.backends.len(),
        old(lb)@.strategy.pick_step(
            addr@,
            old(lb)@.metrics,
            final(lb)@.strategy.state(),
            chosen,
        ),
        dial.serial == old(lb)@.serials[dial.index as int],
        !old(lb)@.drained[chosen] ==> dial.index == chosen,
        (forall|k: int| 0 <= k < old(lb)@.backends.len() ==> #[trigger] old(lb)@.drained[k])
            ==> dial.index == chosen,
        0 <= free < old(lb)@.backends.len() && !old(lb)@.drained[free] ==> {
            &&& !old(lb)@.drained[dial.index as int]
            &&& 0 <= j < old(lb)@.backends.len() && passed_on_the_way(
                chosen,
                dial.index as int,
                j,
            ) ==> old(lb)@.drained[j]
        },
{
    let pool = old(lb)@;
    let c = choose|c: int|
        {
            &&& #[trigger] pool.dial_step(
                addr@,
                final(lb)@.strategy.state(),
                c,
                dial.index as int,
            )
            &&& dial.chosen == pool.serials[c]
        };
    lemma_serial_index(pool, c);
    lemma_serial_index(pool, chosen);
    lemma_dial_step(pool, addr@, final(lb)@.strategy.state(), chosen, dial.index as int);
    assert(pool.draining(chosen) == pool.drained[chosen]);
    if !pool.drained[chosen] {
        assert(pool.next_in_service(chosen, pool.size()) == chosen);
    }
    if forall|k: int| 0 <= k < pool.backends.len() ==> #[trigger] pool.drained[k] {
        assert(pool.all_draining()) by {
            assert forall|k: int| 0 <= k < pool.size() implies #[trigger] pool.draining(k) by {
                assert(pool.drained[k]);
            }
        }
    }
    if 0 <= free < pool.size() && !pool.drained[free] {
        assert(!pool.draining(free));
        if 0 <= j < pool.size() && passed_on_the_way(chosen, dial.index as int, j) {
            if pool.redirects() {
                lemma_passed_backends(pool, chosen, pool.size(), free, j);
            }
        }
    }
}

/// The strategy always chooses a backend of the pool.
pub proof fn the_choice_is_in_the_pool<B, S: BalanceStrategy, P: RetryPolicy>(
    lb: &mut LoadBalancer<B, S, P>,
    addr: &str,
    dial_timeout: Option<Duration>,
    retry_policy: Option<P>,
    dial: Dial<P>,
)
    requires
        old(lb)@.wf(),
        call_ensures(LoadBalancer::<B, S, P>::dial, (lb, addr), Ok(dial)) || call_ensures(
            LoadBalancer::<B, S, P>::dial_with_options,
            (lb, addr, dial_timeout, retry_policy),
            Ok(dial),
        ),
    ensures
        old(lb)@.serials.contains(dial.chosen),
        old(lb)@.serials.contains(dial.serial),
{
}

/// A dial is counted as one connection on the backend it goes to. Nothing else
/// in the pool changes but what the strategy remembers.
pub proof fn a_dial_is_counted_once<B, S: BalanceStrategy, P: RetryPolicy>(
    lb: &mut LoadBalancer<B, S, P>,
    addr: &str,
    dial_timeout: Option<Duration>,
    retry_policy: Option<P>,
    dial: Dial<P>,
    i: int,
)
    requires
        old(lb)@.wf(),
        old(lb)@.has_room_for(addr@),
        call_ensures(LoadBalancer::<B, S, P>::dial, (lb, addr), Ok(dial)) || call_ensures(
            LoadBalancer::<B, S, P>::dial_with_options,
            (lb, addr, dial_timeout, retry_policy),
            Ok(dial),
        ),
        0 <= i < old(lb)@.backends.len(),
    ensures
        final(lb)@.metrics.len() == old(lb)@.metrics.len(),
        final(lb)@.metrics[i].rtt == old(lb)@.metrics[i].rtt,
        final(lb)@.metrics[i].total_errors == old(lb)@.metrics[i].total_errors,
        final(lb)@.metrics[i].total_dials == old(lb)@.metrics[i].total_dials,
        final(lb)@.metrics[i].recent_errors == old(lb)@.metrics[i].recent_errors,
        final(lb)@.metrics[i].active_connections == old(lb)@.metrics[i].active_connections + (
        if i == dial.index {
            1int
        } else {
            0
        }),
        final(lb)@.backends == old(lb)@.backends,
        final(lb)@.ids == old(lb)@.ids,
        final(lb)@.serials == old(lb)@.serials,
        final(lb)@.drained == old(lb)@.drained,
        final(lb)@.next_serial == old(lb)@.next_serial,
        final(lb)@.dial_timeout == old(lb)@.dial_timeout,
        final(lb)@.retry_policy == old(lb)@.retry_policy,
{
}

/// A dial has made no attempt yet, and carries what it was given: its own
/// timeout where it has one, whatever is configured, and the configured one
/// where it has none; and its own retry policy.
pub proof fn a_dial_s_own_options_win<B, S: BalanceStrategy, P: RetryPolicy>(
    lb: &mut LoadBalancer<B, S, P>,
    addr: &str,
    dial_timeout: Option<Duration>,
    retry_policy: Option<P>,
    dial: Dial<P>,
)
    requires
        old(lb)@.wf(),
        call_ensures(
            LoadBalancer::<B, S, P>::dial_with_options,
            (lb, addr, dial_timeout, retry_policy),
            Ok(dial),
        ),
    ensures
        dial.attempts == 0,
        dial_timeout is Some ==> dial.dial_timeout == dial_timeout,
        dial_timeout is None ==> dial.dial_timeout == old(lb)@.dial_timeout,
        dial.retry_policy == retry_policy,
{
}

/// A plain dial has nothing of its own: the configured timeout holds for it.
pub proof fn a_plain_dial_has_no_options<B, S: BalanceStrategy, P: RetryPolicy>(
    lb: &mut LoadBalancer<B, S, P>,
    addr: &str,
    dial: Dial<P>,
)
    requires
        old(lb)@.wf(),
        call_ensures(LoadBalancer::<B, S, P>::dial, (lb, addr), Ok(dial)),
    ensures
        dial.attempts == 0,
        dial.dial_timeout == old(lb)@.dial_timeout,
        dial.retry_policy is None,
{
}

/// A dial is refused only for its address, and then for the reason that the
/// address gives, or for want of backends. A refused dial changes nothing.
pub proof fn refused_dials_change_nothing<B, S: BalanceStrategy, P: RetryPolicy>(
    lb: &mut LoadBalancer<B, S, P>,
    addr: &str,
    dial_timeout: Option<Duration>,
    retry_policy: Option<P>,
    result: Result<Dial<P>, Error>,
)
    requires
        old(lb)@.wf(),
        call_ensures(LoadBalancer::<B, S, P>::dial, (lb, addr), result) || call_ensures(
            LoadBalancer::<B, S, P>::dial_with_options,
            (lb, addr, dial_timeout, retry_policy),
            result,
        ),
    ensures
        result is Ok <==> address_fault(addr@) is None && old(lb)@.backends.len() > 0,
        address_fault(addr@) matches Some(why) ==> (result matches Err(e) && e@ == (
        ErrorView::InvalidAddress { addr: addr@, reason: why })),
        address_fault(addr@) is None && old(lb)@.backends.len() == 0 ==> (result matches Err(e)
            && e@ == ErrorView::NoBackends),
        result is Err ==> {
            &&& final(lb)@.backends == old(lb)@.backends
            &&& final(lb)@.ids == old(lb)@.ids
            &&& final(lb)@.metrics == old(lb)@.metrics
            &&& final(lb)@.serials == old(lb)@.serials
            &&& final(lb)@.drained == old(lb)@.drained
            &&& final(lb)@.next_serial == old(lb)@.next_serial
            &&& final(lb)@.strategy == old(lb)@.strategy
            &&& final(lb)@.dial_timeout == old(lb)@.dial_timeout
            &&& final(lb)@.retry_policy == old(lb)@.retry_policy
        },
{
}

/// A balancer's strategy is known by its own name.
pub proof fn balancers_go_by_their_strategy<B, P: RetryPolicy>(
    lb: &LoadBalancer<B, Strategy, P>,
    name: String,
)
    requires
        call_ensures(LoadBalancer::<B, Strategy, P>::strategy_name, (lb,), name),
    ensures
        lb@.strategy is RoundRobin ==> name@ == "round_robin"@,
        lb@.strategy is Random ==> name@ == "random"@,
        lb@.strategy is LowestRtt ==> name@ == "lowest_rtt"@,
        lb@.strategy is LeastConnections ==> name@ == "least_connections"@,
        lb@.strategy is HashByAddr ==> name@ == "hash_by_addr"@,
        lb@.strategy is WeightedRoundRobin ==> name@ == "weighted_round_robin"@,
        lb@.strategy is Failover ==> name@ == "failover"@,
        lb@.strategy is HealthWeighted ==> name@ == "health_weighted"@,
        lb@.strategy is Sticky ==> name@ == "sticky"@,
{
}

/// There is room for so many more backends exactly if there are serials for
/// them.
pub proof fn serials_run_out_late<B, S: BalanceStrategy, P: RetryPolicy>(
    lb: &LoadBalancer<B, S, P>,
    n: usize,
    can: bool,
)
    requires
        call_ensures(LoadBalancer::<B, S, P>::can_grow, (lb, n), can),
    ensures
        can <==> lb@.next_serial + n <= 340_282_366_920_938_463_463_374_607_431_768_211_455,
{
}

} // verus!
