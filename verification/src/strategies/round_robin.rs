//! Walk the backends in order.

use vstd::prelude::*;

use crate::constants::STRATEGY_NAMES;
use crate::strategy::{
    is_history, lemma_shorter_history, picks_of, BalanceStrategy, PoolView, StrategyEvent,
    StrategyState, TunnelMetrics,
};

verus! {

/// Walk backends in order, wrapping at the end. Even distribution, no metrics
/// needed. Best cheap default.
#[derive(Debug, Clone, Copy)]
pub struct RoundRobin {
    next: usize,
}

impl RoundRobin {
    /// The position the next pick starts from.
    pub closed spec fn cursor(&self) -> nat {
        self.next as nat
    }

    /// Create a new round-robin strategy starting at index 0.
    pub fn new() -> (s: Self)
        ensures
            s.cursor() == 0,
    {
        RoundRobin { next: 0 }
    }
}

impl Default for RoundRobin {
    fn default() -> (s: Self)
        ensures
            s.cursor() == 0,
    {
        RoundRobin::new()
    }
}

impl BalanceStrategy for RoundRobin {
    open spec fn state(&self) -> StrategyState {
        StrategyState::RoundRobin { cursor: self.cursor() }
    }

    open spec fn valid(&self) -> bool {
        true
    }

    /// An empty pool has no backend to walk to.
    open spec fn can_pick(&self, addr: Seq<char>, metrics: Seq<TunnelMetrics>) -> bool {
        metrics.len() > 0
    }

    /// The cursor modulo the pool size; the cursor then stands one further.
    open spec fn pick_step(
        &self,
        addr: Seq<char>,
        metrics: Seq<TunnelMetrics>,
        post: StrategyState,
        idx: int,
    ) -> bool {
        &&& idx == self.cursor() as int % metrics.len() as int
        &&& post == StrategyState::RoundRobin { cursor: (idx + 1) as nat }
    }

    open spec fn error_step(&self, idx: int, post: StrategyState) -> bool {
        post == self.state()
    }

    open spec fn success_step(&self, idx: int, post: StrategyState) -> bool {
        post == self.state()
    }

    open spec fn removal_step(&self, idx: int, post: StrategyState) -> bool {
        post == self.state()
    }

    fn pick(&mut self, view: &PoolView<'_>) -> (idx: usize) {
        let len: usize = view.len();
        let idx: usize = self.next % len;
        self.next = idx + 1;
        idx
    }

    fn name(&self) -> (name: &str)
        ensures
            name@ == STRATEGY_NAMES[0]@,
    {
        STRATEGY_NAMES[0]
    }

    fn report_error(&mut self, idx: usize) {
    }

    fn report_success(&mut self, idx: usize) {
    }

    fn backend_removed(&mut self, idx: usize) {
    }
}

/// A run of picks: `states[t]` answers pick `t` on the pool `pools[t]` with
/// `idxs[t]` and becomes `states[t + 1]`. Every pool has `n` backends.
pub open spec fn round_robin_run(
    states: Seq<RoundRobin>,
    addrs: Seq<Seq<char>>,
    pools: Seq<Seq<TunnelMetrics>>,
    idxs: Seq<int>,
    n: nat,
) -> bool {
    &&& n > 0
    &&& states.len() == idxs.len() + 1
    &&& addrs.len() == idxs.len()
    &&& pools.len() == idxs.len()
    &&& forall|t: int| 0 <= t < idxs.len() ==> (#[trigger] pools[t]).len() == n
    &&& forall|t: int|
        0 <= t < idxs.len() ==> (#[trigger] states[t]).pick_step(
            addrs[t],
            pools[t],
            states[t + 1].state(),
            idxs[t],
        )
}

/// On a pool of constant size, pick `t` of a run is the first pick moved on
/// by `t`, wrapping at the end of the pool.
pub proof fn round_robin_walks_in_order(
    states: Seq<RoundRobin>,
    addrs: Seq<Seq<char>>,
    pools: Seq<Seq<TunnelMetrics>>,
    idxs: Seq<int>,
    n: nat,
    t: int,
)
    requires
        round_robin_run(states, addrs, pools, idxs, n),
        0 <= t < idxs.len(),
    ensures
        idxs[t] == (idxs[0] + t) % (n as int),
        0 <= idxs[t] < n,
    decreases t,
{
    assert(pools[t].len() == n);
    assert(states[t].pick_step(addrs[t], pools[t], states[t + 1].state(), idxs[t]));
    if t == 0 {
        vstd::arithmetic::div_mod::lemma_small_mod(idxs[0] as nat, n);
    } else {
        round_robin_walks_in_order(states, addrs, pools, idxs, n, t - 1);
        assert(states[t - 1].pick_step(addrs[t - 1], pools[t - 1], states[t].state(), idxs[t - 1]));
        assert(pools[t - 1].len() == n);
        vstd::arithmetic::div_mod::lemma_add_mod_noop(idxs[0] + t - 1, 1, n as int);
        vstd::arithmetic::div_mod::lemma_add_mod_noop(idxs[t - 1], 1, n as int);
        vstd::arithmetic::div_mod::lemma_small_mod(idxs[t - 1] as nat, n);
    }
}

/// Even distribution: as many consecutive picks as there are backends reach
/// every backend exactly once.
pub proof fn round_robin_is_even(
    states: Seq<RoundRobin>,
    addrs: Seq<Seq<char>>,
    pools: Seq<Seq<TunnelMetrics>>,
    idxs: Seq<int>,
    n: nat,
    backend: int,
)
    requires
        round_robin_run(states, addrs, pools, idxs, n),
        idxs.len() == n,
        0 <= backend < n,
    ensures
        exists|t: int| 0 <= t < n && #[trigger] idxs[t] == backend,
        forall|t: int, u: int|
            0 <= t < n && 0 <= u < n && #[trigger] idxs[t] == backend && #[trigger] idxs[u]
                == backend ==> t == u,
{
    round_robin_walks_in_order(states, addrs, pools, idxs, n, 0);
    let first = idxs[0];
    let ni = n as int;
    assert forall|t: int| 0 <= t < n implies #[trigger] idxs[t] == (if first + t < n {
        first + t
    } else {
        first + t - n
    }) by {
        round_robin_walks_in_order(states, addrs, pools, idxs, n, t);
        if first + t < n {
            vstd::arithmetic::div_mod::lemma_small_mod((first + t) as nat, n);
        } else {
            vstd::arithmetic::div_mod::lemma_mod_sub_multiples_vanish(first + t, ni);
            vstd::arithmetic::div_mod::lemma_small_mod((first + t - n) as nat, n);
        }
    }
    let t = if backend >= first { backend - first } else { backend - first + n };
    assert(idxs[t] == backend);
}

/// Nothing but a pick moves a round-robin on: neither failed nor successful
/// dials, nor the removal of a backend.
pub proof fn only_picks_move_a_round_robin(s: &mut RoundRobin, idx: usize)
    requires
        call_ensures(RoundRobin::report_error, (s, idx), ()) || call_ensures(
            RoundRobin::report_success,
            (s, idx),
            (),
        ) || call_ensures(RoundRobin::backend_removed, (s, idx), ()),
    ensures
        final(s).cursor() == old(s).cursor(),
{
}

/// A new round-robin begins with the first backend, and every pick is followed
/// by the next backend of the pool, the first one after the last.
pub proof fn round_robin_goes_from_one_to_the_next(
    new: RoundRobin,
    s: &mut RoundRobin,
    then_s: &mut RoundRobin,
    view: &PoolView<'_>,
    next_view: &PoolView<'_>,
    idx: usize,
    next: usize,
)
    requires
        call_ensures(RoundRobin::new, (), new) || call_ensures(RoundRobin::default, (), new),
        view.metrics@.len() > 0,
        next_view.metrics@.len() == view.metrics@.len(),
        call_ensures(RoundRobin::pick, (s, view), idx),
        *then_s == *final(s),
        call_ensures(RoundRobin::pick, (then_s, next_view), next),
    ensures
        *old(s) == new ==> idx == 0,
        next == (if idx + 1 == view.metrics@.len() { 0 } else { idx + 1 }),
{
    let n = view.metrics@.len();
    vstd::arithmetic::div_mod::lemma_mod_bound(old(s).cursor() as int, n as int);
    vstd::arithmetic::div_mod::lemma_small_mod(0, n);
    if idx + 1 < n {
        vstd::arithmetic::div_mod::lemma_small_mod((idx + 1) as nat, n);
    } else {
        vstd::arithmetic::div_mod::lemma_mod_self_0(n as int);
    }
}

/// The picks of a history as a run of picks.
proof fn lemma_picks_run(
    states: Seq<RoundRobin>,
    events: Seq<StrategyEvent>,
    n: nat,
) -> (run: (Seq<RoundRobin>, Seq<Seq<char>>, Seq<Seq<TunnelMetrics>>))
    requires
        n > 0,
        is_history(states, events),
        forall|t: int|
            0 <= t < events.len() ==> (#[trigger] events[t] matches StrategyEvent::Picked {
                pool,
                ..
            } ==> pool.len() == n),
    ensures
        round_robin_run(run.0, run.1, run.2, picks_of(events), n),
        run.0.last().cursor() == states.last().cursor(),
    decreases events.len(),
{
    if events.len() == 0 {
        (states, Seq::empty(), Seq::empty())
    } else {
        lemma_shorter_history(states, events);
        let fewer = events.drop_last();
        assert forall|t: int| 0 <= t < fewer.len() implies (
        #[trigger] fewer[t] matches StrategyEvent::Picked { pool, .. } ==> pool.len() == n) by {
            assert(events[t] == fewer[t]);
        }
        let run = lemma_picks_run(states.drop_last(), fewer, n);
        assert(events[events.len() - 1] == events.last());
        match events.last() {
            StrategyEvent::Picked { addr, pool, idx } => {
                let longer = (run.0.push(states.last()), run.1.push(addr), run.2.push(pool));
                let picks = picks_of(fewer);
                assert(picks_of(events) =~= picks.push(idx));
                assert forall|t: int| 0 <= t < picks.push(idx).len() implies (
                #[trigger] longer.0[t]).pick_step(
                    longer.1[t],
                    longer.2[t],
                    longer.0[t + 1].state(),
                    picks.push(idx)[t],
                ) by {
                    if t < picks.len() {
                        assert(run.0[t].pick_step(
                            run.1[t],
                            run.2[t],
                            run.0[t + 1].state(),
                            picks[t],
                        ));
                    }
                }
                assert forall|t: int| 0 <= t < longer.2.len() implies (
                #[trigger] longer.2[t]).len() == n by {
                    if t < run.2.len() {
                        assert(run.2[t].len() == n);
                    }
                }
                longer
            },
            _ => run,
        }
    }
}

/// On pools of one size, the picks walk through the backends in order, whatever
/// failed or succeeded in between.
pub proof fn reports_do_not_disturb_the_walk(
    states: Seq<RoundRobin>,
    events: Seq<StrategyEvent>,
    n: nat,
    t: int,
)
    requires
        n > 0,
        is_history(states, events),
        forall|u: int|
            0 <= u < events.len() ==> (#[trigger] events[u] matches StrategyEvent::Picked {
                pool,
                ..
            } ==> pool.len() == n),
        0 <= t < picks_of(events).len(),
    ensures
        picks_of(events)[t] == (picks_of(events)[0] + t) % (n as int),
{
    let run = lemma_picks_run(states, events, n);
    round_robin_walks_in_order(run.0, run.1, run.2, picks_of(events), n, t);
}

/// A pick takes the cursor, wrapped into the pool that is asked about, and
/// leaves the cursor one further.
pub proof fn a_round_robin_wraps(s: &mut RoundRobin, view: &PoolView<'_>, idx: usize)
    requires
        view.metrics@.len() > 0,
        call_ensures(RoundRobin::pick, (s, view), idx),
    ensures
        old(s).cursor() < view.metrics@.len() ==> idx == old(s).cursor(),
        old(s).cursor() == view.metrics@.len() ==> idx == 0,
        idx == old(s).cursor() % view.metrics@.len(),
        final(s).cursor() == idx + 1,
{
    let n = view.metrics@.len();
    if old(s).cursor() < n {
        vstd::arithmetic::div_mod::lemma_small_mod(old(s).cursor(), n);
    } else if old(s).cursor() == n {
        vstd::arithmetic::div_mod::lemma_mod_self_0(n as int);
    }
}

} // verus!
