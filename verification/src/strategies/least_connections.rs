//! Send each dial to the least loaded backend.

use vstd::prelude::*;

use crate::constants::STRATEGY_NAMES;
use crate::duration::{duration_nanos, LONGEST_NANOS};
use crate::strategy::{BalanceStrategy, PoolView, StrategyState, TunnelMetrics};

verus! {

/// The RTT of a backend in nanoseconds. One without a measured RTT comes after
/// all that have one.
pub open spec fn rtt_nanos(m: TunnelMetrics) -> nat {
    match m.rtt {
        Some(rtt) => duration_nanos(rtt),
        None => LONGEST_NANOS as nat + 1,
    }
}

/// Whether backend `a` is known to be faster than backend `b`.
pub open spec fn faster(a: TunnelMetrics, b: TunnelMetrics) -> bool {
    a.rtt matches Some(x) && (b.rtt matches Some(y) ==> duration_nanos(x) < duration_nanos(y))
}

/// Whether backend `a` comes before backend `b`: fewer active connections,
/// or as many and a lower RTT.
pub open spec fn less_loaded(a: TunnelMetrics, b: TunnelMetrics) -> bool {
    ||| a.active_connections < b.active_connections
    ||| a.active_connections == b.active_connections && faster(a, b)
}

/// `idx` is the first of the least loaded backends; 0 in an empty pool.
pub open spec fn is_least_loaded(metrics: Seq<TunnelMetrics>, idx: int) -> bool {
    if metrics.len() == 0 {
        idx == 0
    } else {
        &&& 0 <= idx < metrics.len()
        &&& forall|j: int|
            0 <= j < metrics.len() ==> !less_loaded(#[trigger] metrics[j], metrics[idx])
        &&& forall|j: int| 0 <= j < idx ==> less_loaded(metrics[idx], #[trigger] metrics[j])
    }
}

/// The RTT of a backend in nanoseconds, as the strategies compare it.
fn rtt_key(m: &TunnelMetrics) -> (nanos: u128)
    ensures
        nanos == rtt_nanos(*m),
        m.rtt is Some ==> nanos <= LONGEST_NANOS,
{
    match m.rtt {
        Some(rtt) => rtt.as_nanos(),
        None => LONGEST_NANOS + 1,
    }
}

/// Pick the backend with the fewest active connections. Ties broken by
/// lowest RTT. Adaptive: spreads load evenly across backends as connection
/// lifetimes differ.
#[derive(Debug, Clone, Copy)]
pub struct LeastConnections;

impl LeastConnections {
    /// Create a new least-connections strategy.
    pub fn new() -> (s: Self)
        ensures
            s == LeastConnections,
    {
        LeastConnections
    }
}

impl Default for LeastConnections {
    fn default() -> (s: Self)
        ensures
            s == LeastConnections,
    {
        LeastConnections
    }
}

impl BalanceStrategy for LeastConnections {
    open spec fn state(&self) -> StrategyState {
        StrategyState::LeastConnections
    }

    open spec fn valid(&self) -> bool {
        true
    }

    open spec fn can_pick(&self, addr: Seq<char>, metrics: Seq<TunnelMetrics>) -> bool {
        true
    }

    /// The first of the least loaded backends.
    open spec fn pick_step(
        &self,
        addr: Seq<char>,
        metrics: Seq<TunnelMetrics>,
        post: StrategyState,
        idx: int,
    ) -> bool {
        &&& is_least_loaded(metrics, idx)
        &&& post == self.state()
    }

    open spec fn error_step(&self, idx: int, post: StrategyState) -> bool {
        post == self.state()
    }

    open spec fn success_step(&self, idx: int, post: StrategyState) -> bool {
        post == self.state()
    }

    open spec fn removal_step(&self, idx: int, post: StrategyState) -> bool {
        post == self.state()
    }

    fn pick(&mut self, view: &PoolView<'_>) -> (idx: usize) {
        let metrics: &[TunnelMetrics] = view.metrics;
        let mut best: usize = 0;
        let mut best_count: u32 = u32::MAX;
        let mut i: usize = 0;
        while i < metrics.len()
            invariant
                i <= metrics@.len(),
                metrics == view.metrics,
                best == 0 || best < i,
                i > 0 ==> best_count == metrics@[best as int].active_connections,
                i == 0 ==> best_count == u32::MAX && best == 0,
                forall|j: int|
                    0 <= j < i ==> !less_loaded(#[trigger] metrics@[j], metrics@[best as int]),
                forall|j: int|
                    0 <= j < best ==> less_loaded(metrics@[best as int], #[trigger] metrics@[j]),
            decreases metrics.len() - i,
        {
            let count: u32 = metrics[i].active_connections;
            if count < best_count {
                best_count = count;
                best = i;
            } else if count == best_count {
                let best_rtt: u128 = rtt_key(&metrics[best]);
                let my_rtt: u128 = rtt_key(&metrics[i]);
                if my_rtt < best_rtt {
                    best = i;
                }
            }
            i += 1;
        }
        best
    }

    fn name(&self) -> (name: &str)
        ensures
            name@ == STRATEGY_NAMES[3]@,
    {
        STRATEGY_NAMES[3]
    }

    fn report_error(&mut self, idx: usize) {
    }

    fn report_success(&mut self, idx: usize) {
    }

    fn backend_removed(&mut self, idx: usize) {
    }
}

/// The least busy backend is picked. Of those that are equally busy it is one
/// with the lowest RTT, where an unknown RTT comes last; and of those it is the
/// first.
pub proof fn the_least_busy_is_picked(
    s: &mut LeastConnections,
    view: &PoolView<'_>,
    idx: usize,
    j: int,
)
    requires
        call_ensures(LeastConnections::pick, (s, view), idx),
        0 <= j < view.metrics@.len(),
    ensures
        idx < view.metrics@.len(),
        ({
            let best = view.metrics@[idx as int];
            let other = view.metrics@[j];
            &&& best.active_connections <= other.active_connections
            &&& best.active_connections == other.active_connections ==> {
                &&& other.rtt matches Some(b) ==> (best.rtt matches Some(a) && duration_nanos(a)
                    <= duration_nanos(b))
                &&& j < idx ==> (best.rtt matches Some(a) && (other.rtt matches Some(b)
                    ==> duration_nanos(a) < duration_nanos(b)))
            }
        }),
{
    let best = view.metrics@[idx as int];
    let other = view.metrics@[j];
    assert(!less_loaded(other, best));
    if j < idx {
        assert(less_loaded(best, other));
    }
}

} // verus!
