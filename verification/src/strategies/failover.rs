//! One primary, the rest on standby.

use vstd::prelude::*;

use crate::constants::STRATEGY_NAMES;
use crate::strategy::{
    is_history, may_become, BalanceStrategy, PoolView, StrategyEvent, StrategyState, TunnelMetrics,
};

verus! {

/// Always pick the "primary" backend. On dial error, advance to the next
/// backend and use that as the new primary. One backend handles all traffic
/// until it fails; the rest are pure standby.
#[derive(Debug, Clone, Copy)]
pub struct Failover {
    primary: usize,
    len: usize,
}

impl Failover {
    /// The backend that serves all traffic.
    pub closed spec fn primary(&self) -> nat {
        self.primary as nat
    }

    /// The pool size the strategy knows of; 0 until the first pick.
    pub closed spec fn pool_size(&self) -> nat {
        self.len as nat
    }

    /// The primary as the known pool has it: wrapped, where the pool has
    /// shrunk below it.
    pub open spec fn in_use(&self) -> nat {
        if self.pool_size() == 0 {
            self.primary()
        } else {
            self.primary() % self.pool_size()
        }
    }

    /// Create a new failover strategy. The pool size starts at 0 and is set
    /// on the first `pick()`.
    pub fn new() -> (s: Self)
        ensures
            s.valid(),
            s.primary() == 0,
            s.pool_size() == 0,
    {
        Failover { primary: 0, len: 0 }
    }

    /// Create a failover strategy with a known pool size.
    pub fn with_backend_count(backend_count: usize) -> (s: Self)
        ensures
            s.valid(),
            s.primary() == 0,
            s.pool_size() == backend_count,
    {
        Failover { primary: 0, len: backend_count }
    }

    /// The primary as the known pool has it.
    fn current(&self) -> (idx: usize)
        ensures
            idx == self.in_use(),
            self.pool_size() > 0 ==> idx < self.pool_size(),
    {
        if self.len == 0 {
            self.primary
        } else {
            self.primary % self.len
        }
    }
}

impl Default for Failover {
    fn default() -> (s: Self)
        ensures
            s.valid(),
            s.primary() == 0,
            s.pool_size() == 0,
    {
        Failover::new()
    }
}

impl BalanceStrategy for Failover {
    open spec fn state(&self) -> StrategyState {
        StrategyState::Failover { primary: self.primary(), pool_size: self.pool_size() }
    }

    open spec fn valid(&self) -> bool {
        true
    }

    open spec fn can_pick(&self, addr: Seq<char>, metrics: Seq<TunnelMetrics>) -> bool {
        true
    }

    /// The primary, wrapped into the pool. The pool size is remembered.
    open spec fn pick_step(
        &self,
        addr: Seq<char>,
        metrics: Seq<TunnelMetrics>,
        post: StrategyState,
        idx: int,
    ) -> bool {
        &&& idx == (if metrics.len() == 0 {
            0
        } else {
            self.primary() as int % metrics.len() as int
        })
        &&& post == StrategyState::Failover {
            primary: self.primary(),
            pool_size: metrics.len(),
        }
    }

    /// An error on the backend in use makes the next one the primary. Errors
    /// on other backends change nothing. While no pool size is known, the pool
    /// is taken to end at the failed backend.
    open spec fn error_step(&self, idx: int, post: StrategyState) -> bool {
        post == StrategyState::Failover {
            primary: if idx != self.in_use() {
                self.primary()
            } else if self.pool_size() == 0 {
                0
            } else {
                ((idx + 1) % self.pool_size() as int) as nat
            },
            pool_size: self.pool_size(),
        }
    }

    open spec fn success_step(&self, idx: int, post: StrategyState) -> bool {
        post == self.state()
    }

    /// The backend in use stays in use, at its new index. If it is the one
    /// that went, the one behind it takes over.
    open spec fn removal_step(&self, idx: int, post: StrategyState) -> bool {
        post == StrategyState::Failover {
            primary: if idx < self.in_use() {
                (self.in_use() - 1) as nat
            } else {
                self.in_use()
            },
            pool_size: if self.pool_size() == 0 {
                0
            } else {
                (self.pool_size() - 1) as nat
            },
        }
    }

    fn pick(&mut self, view: &PoolView<'_>) -> (idx: usize) {
        self.len = view.len();
        if self.len == 0 {
            return 0;
        }
        self.primary % self.len
    }

    fn name(&self) -> (name: &str)
        ensures
            name@ == STRATEGY_NAMES[6]@,
    {
        STRATEGY_NAMES[6]
    }

    fn report_error(&mut self, idx: usize) {
        if idx != self.current() {
            return;
        }
        self.primary = if self.len == 0 {
            0
        } else {
            (idx + 1) % self.len
        };
    }

    fn report_success(&mut self, idx: usize) {
    }

    fn backend_removed(&mut self, idx: usize) {
        let current: usize = self.current();
        self.primary = if idx < current {
            current - 1
        } else {
            current
        };
        if self.len > 0 {
            self.len = self.len - 1;
        }
    }
}

/// One backend handles all traffic until it fails: without an error report,
/// picks on a pool of constant size keep returning the same backend.
pub proof fn failover_stays_on_primary(
    s: Failover,
    s1: Failover,
    s2: Failover,
    addr_a: Seq<char>,
    addr_b: Seq<char>,
    pool_a: Seq<TunnelMetrics>,
    pool_b: Seq<TunnelMetrics>,
    first: int,
    second: int,
)
    requires
        pool_a.len() == pool_b.len(),
        s.pick_step(addr_a, pool_a, s1.state(), first),
        s1.pick_step(addr_b, pool_b, s2.state(), second),
    ensures
        second == first,
{
}

/// A failed primary hands over to the next backend, wrapping at the end of
/// the pool: pick, report the error on the picked backend, pick again.
pub proof fn failover_rotates(
    s: Failover,
    picked: Failover,
    failed: Failover,
    repicked: Failover,
    addr_a: Seq<char>,
    addr_b: Seq<char>,
    pool_a: Seq<TunnelMetrics>,
    pool_b: Seq<TunnelMetrics>,
    first: int,
    second: int,
)
    requires
        pool_a.len() > 0,
        pool_b.len() == pool_a.len(),
        s.pick_step(addr_a, pool_a, picked.state(), first),
        picked.error_step(first, failed.state()),
        failed.pick_step(addr_b, pool_b, repicked.state(), second),
    ensures
        second == (first + 1) % pool_a.len() as int,
        failed.primary() < pool_a.len(),
{
    let n = pool_a.len();
    vstd::arithmetic::div_mod::lemma_mod_bound(first + 1, n as int);
    vstd::arithmetic::div_mod::lemma_small_mod(((first + 1) % n as int) as nat, n);
}

/// Errors on a standby leave the primary alone.
pub proof fn failover_ignores_standby_errors(s: Failover, post: Failover, idx: int)
    requires
        idx != s.in_use(),
        s.error_step(idx, post.state()),
    ensures
        post.primary() == s.primary(),
        post.pool_size() == s.pool_size(),
{
}

/// A success, on whatever backend, changes nothing: who serves keeps serving.
pub proof fn successes_keep_the_primary(s: &mut Failover, idx: usize)
    requires
        call_ensures(Failover::report_success, (s, idx), ()),
    ensures
        final(s).primary() == old(s).primary(),
        final(s).pool_size() == old(s).pool_size(),
{
}

/// A pick returns the primary, wrapped into the pool, and does not move it. A
/// new failover begins with the first backend.
pub proof fn a_pick_returns_the_primary(
    new: Failover,
    s: &mut Failover,
    view: &PoolView<'_>,
    count: usize,
    idx: usize,
)
    requires
        call_ensures(Failover::new, (), new) || call_ensures(Failover::default, (), new)
            || call_ensures(Failover::with_backend_count, (count,), new),
        view.metrics@.len() > 0,
        call_ensures(Failover::pick, (s, view), idx),
    ensures
        idx == old(s).primary() % view.metrics@.len(),
        final(s).primary() == old(s).primary(),
        final(s).pool_size() == view.metrics@.len(),
        *old(s) == new ==> idx == 0,
{
    vstd::arithmetic::div_mod::lemma_small_mod(0, view.metrics@.len());
}

/// An error on the backend that serves hands over to the one behind it, the
/// first one after the last. An error on another backend changes nothing.
pub proof fn errors_move_the_primary_on(s: &mut Failover, idx: usize)
    requires
        call_ensures(Failover::report_error, (s, idx), ()),
        old(s).pool_size() > 0,
    ensures
        final(s).pool_size() == old(s).pool_size(),
        idx != old(s).primary() % old(s).pool_size() ==> final(s).primary() == old(s).primary(),
        idx == old(s).primary() % old(s).pool_size() ==> final(s).primary() == (if idx + 1
            == old(s).pool_size() {
            0
        } else {
            idx + 1
        }),
{
    let n = old(s).pool_size();
    vstd::arithmetic::div_mod::lemma_mod_bound(old(s).primary() as int, n as int);
    if idx + 1 < n {
        vstd::arithmetic::div_mod::lemma_small_mod((idx + 1) as nat, n);
    } else if idx + 1 == n {
        vstd::arithmetic::div_mod::lemma_mod_self_0(n as int);
    }
}

/// When a backend in front of the one that serves leaves, that one moves up
/// with it. Otherwise the index stays, and one backend fewer is known.
pub proof fn removals_shift_the_primary(s: &mut Failover, idx: usize)
    requires
        call_ensures(Failover::backend_removed, (s, idx), ()),
        old(s).primary() < old(s).pool_size(),
    ensures
        idx < old(s).primary() ==> final(s).primary() + 1 == old(s).primary(),
        idx >= old(s).primary() ==> final(s).primary() == old(s).primary(),
        final(s).pool_size() + 1 == old(s).pool_size(),
{
    vstd::arithmetic::div_mod::lemma_small_mod(old(s).primary(), old(s).pool_size());
}

/// What a history that begins with a pick leaves, as long as what was picked
/// first does not fail.
proof fn lemma_primary_serves(
    states: Seq<Failover>,
    events: Seq<StrategyEvent>,
    n: nat,
    first: int,
    t: int,
)
    requires
        n > 0,
        is_history(states, events),
        0 < t <= events.len(),
        events[0] matches StrategyEvent::Picked { idx, .. } && idx == first,
        forall|u: int|
            0 <= u < events.len() ==> (#[trigger] events[u] matches StrategyEvent::Picked {
                pool,
                ..
            } ==> pool.len() == n),
        forall|u: int|
            0 <= u < events.len() ==> (#[trigger] events[u] matches StrategyEvent::Failed { idx }
                ==> idx != first),
    ensures
        states[t].pool_size() == n,
        states[t].in_use() == first,
        events[t - 1] matches StrategyEvent::Picked { idx, .. } ==> idx == first,
    decreases t,
{
    assert(may_become(states[t - 1], events[t - 1], states[t - 1 + 1]));
    if t > 1 {
        lemma_primary_serves(states, events, n, first, t - 1);
    }
}

/// One backend handles all traffic until it fails: whatever succeeds, and
/// whatever fails on other backends, every pick returns what the first one
/// returned.
pub proof fn the_primary_serves_until_it_fails(
    states: Seq<Failover>,
    events: Seq<StrategyEvent>,
    n: nat,
    first: int,
    t: int,
)
    requires
        n > 0,
        is_history(states, events),
        0 <= t < events.len(),
        events[0] matches StrategyEvent::Picked { idx, .. } && idx == first,
        forall|u: int|
            0 <= u < events.len() ==> (#[trigger] events[u] matches StrategyEvent::Picked {
                pool,
                ..
            } ==> pool.len() == n),
        forall|u: int|
            0 <= u < events.len() ==> (#[trigger] events[u] matches StrategyEvent::Failed { idx }
                ==> idx != first),
    ensures
        events[t] matches StrategyEvent::Picked { idx, .. } ==> idx == first,
{
    lemma_primary_serves(states, events, n, first, t + 1);
}

/// While no pool size is known, an error on the primary goes back to the first
/// backend, and an error on another one changes nothing.
pub proof fn errors_before_any_pick(s: &mut Failover, idx: usize)
    requires
        call_ensures(Failover::report_error, (s, idx), ()),
        old(s).pool_size() == 0,
    ensures
        final(s).pool_size() == 0,
        idx == old(s).primary() ==> final(s).primary() == 0,
        idx != old(s).primary() ==> final(s).primary() == old(s).primary(),
{
}

/// A removal counts from the backend that serves, wherever the pool has put
/// the primary.
pub proof fn removals_shift_the_backend_in_use(s: &mut Failover, idx: usize)
    requires
        call_ensures(Failover::backend_removed, (s, idx), ()),
    ensures
        old(s).pool_size() == 0 ==> final(s).pool_size() == 0 && final(s).primary() == (if idx
            < old(s).primary() {
            old(s).primary() - 1
        } else {
            old(s).primary() as int
        }),
        old(s).pool_size() > 0 ==> final(s).pool_size() == old(s).pool_size() - 1
            && final(s).primary() == (if idx < old(s).primary() % old(s).pool_size() {
            old(s).primary() % old(s).pool_size() - 1
        } else {
            (old(s).primary() % old(s).pool_size()) as int
        }),
{
}

} // verus!
