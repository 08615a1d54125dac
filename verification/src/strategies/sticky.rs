//! Pin to one backend.

use vstd::prelude::*;

use crate::constants::STRATEGY_NAMES;
use crate::duration::duration_nanos;
use crate::strategies::lowest_rtt::{find_lowest_rtt, is_lowest_rtt, within};
use crate::strategy::{
    is_history, may_become, BalanceStrategy, PoolView, StrategyEvent, StrategyState, TunnelMetrics,
};

verus! {

/// Pin to a single backend for the lifetime of the load balancer.
#[derive(Debug, Clone, Copy)]
pub struct Sticky {
    pinned: Option<usize>,
}

/// The pinned index as a pool of `len` backends can serve it: the last
/// backend when the pool has shrunk below the pin.
pub open spec fn clamp_to_pool(pin: nat, len: nat) -> nat {
    if len == 0 {
        0
    } else if pin >= len {
        (len - 1) as nat
    } else {
        pin
    }
}

impl Sticky {
    /// The pinned backend, if one was chosen already.
    pub closed spec fn pin(&self) -> Option<nat> {
        match self.pinned {
            Some(idx) => Some(idx as nat),
            None => None,
        }
    }

    /// Create a new sticky strategy.
    pub fn new() -> (s: Self)
        ensures
            s.pin() is None,
    {
        Sticky { pinned: None }
    }
}

impl Default for Sticky {
    fn default() -> (s: Self)
        ensures
            s.pin() is None,
    {
        Sticky::new()
    }
}

impl BalanceStrategy for Sticky {
    open spec fn state(&self) -> StrategyState {
        StrategyState::Sticky { pin: self.pin() }
    }

    open spec fn valid(&self) -> bool {
        true
    }

    open spec fn can_pick(&self, addr: Seq<char>, metrics: Seq<TunnelMetrics>) -> bool {
        true
    }

    /// The first pick takes the backend with the lowest RTT and pins it;
    /// later picks return the pin.
    open spec fn pick_step(
        &self,
        addr: Seq<char>,
        metrics: Seq<TunnelMetrics>,
        post: StrategyState,
        idx: int,
    ) -> bool {
        match self.pin() {
            Some(pin) => idx == clamp_to_pool(pin, metrics.len()) && post == self.state(),
            None => is_lowest_rtt(metrics, idx) && post == StrategyState::Sticky {
                pin: Some(idx as nat),
            },
        }
    }

    /// Errors do not release the pin.
    open spec fn error_step(&self, idx: int, post: StrategyState) -> bool {
        post == self.state()
    }

    open spec fn success_step(&self, idx: int, post: StrategyState) -> bool {
        post == self.state()
    }

    /// The pin follows its backend. If that is the one that went, the pin
    /// stays where it is, on the backend that moved up.
    open spec fn removal_step(&self, idx: int, post: StrategyState) -> bool {
        post == StrategyState::Sticky {
            pin: match self.pin() {
                Some(pin) => if idx < pin {
                    Some((pin - 1) as nat)
                } else {
                    Some(pin)
                },
                None => None,
            },
        }
    }

    fn pick(&mut self, view: &PoolView<'_>) -> (idx: usize) {
        if let Some(idx) = self.pinned {
            let last: usize = if view.len() == 0 { 0 } else { view.len() - 1 };
            return if idx < last { idx } else { last };
        }
        let best: usize = find_lowest_rtt(view.metrics);
        self.pinned = Some(best);
        best
    }

    fn name(&self) -> (name: &str)
        ensures
            name@ == STRATEGY_NAMES[8]@,
    {
        STRATEGY_NAMES[8]
    }

    fn report_error(&mut self, idx: usize) {
    }

    fn report_success(&mut self, idx: usize) {
    }

    fn backend_removed(&mut self, idx: usize) {
        if let Some(pin) = self.pinned {
            if idx < pin {
                self.pinned = Some(pin - 1);
            }
        }
    }
}

/// What can happen to a strategy between two picks.
pub open spec fn sticky_moves(pre: Sticky, post: Sticky) -> bool {
    ||| exists|addr: Seq<char>, metrics: Seq<TunnelMetrics>, idx: int|
        #[trigger] pre.pick_step(addr, metrics, post.state(), idx)
    ||| exists|idx: int| #[trigger] pre.error_step(idx, post.state())
    ||| exists|idx: int| #[trigger] pre.success_step(idx, post.state())
}

/// A pin is forever: no run of picks, errors and successes changes it.
pub proof fn sticky_never_moves_its_pin(states: Seq<Sticky>, pin: nat, t: int)
    requires
        0 <= t < states.len(),
        states[0].pin() == Some(pin),
        forall|u: int| 0 <= u < states.len() - 1 ==> sticky_moves(#[trigger] states[u], states[u + 1]),
    ensures
        states[t].pin() == Some(pin),
    decreases t,
{
    if t > 0 {
        sticky_never_moves_its_pin(states, pin, t - 1);
        assert(sticky_moves(states[t - 1], states[t - 1 + 1]));
    }
}

/// Every pick returns what the first pick returned, or the last backend while
/// the pool is too small for that. A pool that grows back gets the first
/// choice again.
pub proof fn sticky_repeats_its_first_choice(
    fresh: Sticky,
    after_first: Sticky,
    later: Sticky,
    later_post: Sticky,
    addr_a: Seq<char>,
    pool_a: Seq<TunnelMetrics>,
    first: int,
    addr_b: Seq<char>,
    pool_b: Seq<TunnelMetrics>,
    again: int,
)
    requires
        pool_a.len() > 0,
        fresh.pin() is None,
        fresh.pick_step(addr_a, pool_a, after_first.state(), first),
        later.pin() == after_first.pin(),
        later.pick_step(addr_b, pool_b, later_post.state(), again),
        pool_b.len() > 0,
    ensures
        again == (if first < pool_b.len() { first } else { pool_b.len() - 1 }),
{
}

/// Neither failures nor successes touch the pin, and a new strategy has none.
pub proof fn reports_leave_the_pin(new: Sticky, s: &mut Sticky, idx: usize)
    requires
        call_ensures(Sticky::new, (), new) || call_ensures(Sticky::default, (), new),
        call_ensures(Sticky::report_error, (s, idx), ()) || call_ensures(
            Sticky::report_success,
            (s, idx),
            (),
        ),
    ensures
        new.pin() is None,
        final(s).pin() == old(s).pin(),
{
}

/// The first pick takes the fastest backend, as the strategy of that name does,
/// and pins it.
pub proof fn the_fastest_is_pinned(s: &mut Sticky, view: &PoolView<'_>, idx: usize, j: int)
    requires
        call_ensures(Sticky::pick, (s, view), idx),
        old(s).pin() is None,
        0 <= j < view.metrics@.len(),
    ensures
        final(s).pin() == Some(idx as nat),
        idx < view.metrics@.len(),
        view.metrics@[j].rtt matches Some(other) ==> {
            &&& view.metrics@[idx as int].rtt matches Some(best)
            &&& duration_nanos(best) <= duration_nanos(other)
            &&& j < idx ==> duration_nanos(best) < duration_nanos(other)
        },
        view.metrics@[idx as int].rtt is None ==> idx == 0,
{
    let metrics = view.metrics@;
    if forall|k: int| 0 <= k < metrics.len() ==> (#[trigger] metrics[k]).rtt is None {
        assert(metrics[j].rtt is None);
    } else {
        let best = metrics[idx as int].rtt->0;
        if j < idx {
            assert(!within(metrics[j], duration_nanos(best)));
        }
    }
}

/// Once pinned, a pick returns the pin, or the last backend of a pool that is
/// too small for it, and leaves the pin as it is.
pub proof fn the_pin_is_returned(s: &mut Sticky, view: &PoolView<'_>, idx: usize, pin: nat)
    requires
        call_ensures(Sticky::pick, (s, view), idx),
        old(s).pin() == Some(pin),
        view.metrics@.len() > 0,
    ensures
        final(s).pin() == Some(pin),
        pin < view.metrics@.len() ==> idx == pin,
        pin >= view.metrics@.len() ==> idx == view.metrics@.len() - 1,
{
}

/// When a backend in front of the pinned one leaves, the pin moves up with its
/// backend. Otherwise it stays where it is.
pub proof fn removals_shift_the_pin(s: &mut Sticky, idx: usize)
    requires
        call_ensures(Sticky::backend_removed, (s, idx), ()),
    ensures
        old(s).pin() is None ==> final(s).pin() is None,
        old(s).pin() matches Some(pin) ==> (final(s).pin() matches Some(now) && now == (if idx
            < pin {
            pin - 1
        } else {
            pin as int
        })),
{
}

/// Whatever is dialed, fails or succeeds, every pick returns what the first
/// one did, or the last backend while the pool is too small for that.
pub proof fn a_pin_is_for_life(
    states: Seq<Sticky>,
    events: Seq<StrategyEvent>,
    first: int,
    t: int,
)
    requires
        is_history(states, events),
        0 <= t < events.len(),
        events[0] matches StrategyEvent::Picked { pool, idx, .. } && idx == first && pool.len()
            > 0,
        states[0].pin() is None,
        forall|u: int|
            0 <= u < events.len() ==> (#[trigger] events[u] matches StrategyEvent::Picked {
                pool,
                ..
            } ==> pool.len() > 0),
    ensures
        states[t + 1].pin() == Some(first as nat),
        events[t] matches StrategyEvent::Picked { pool, idx, .. } ==> idx == (if first
            < pool.len() {
            first
        } else {
            pool.len() - 1
        }),
    decreases t,
{
    assert(may_become(states[t], events[t], states[t + 1]));
    if t > 0 {
        a_pin_is_for_life(states, events, first, t - 1);
        assert(may_become(states[0], events[0], states[1]));
    }
}

} // verus!
