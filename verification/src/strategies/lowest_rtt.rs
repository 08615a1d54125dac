//! Send everything to the fastest backend.

use vstd::prelude::*;

use crate::constants::STRATEGY_NAMES;
use crate::duration::duration_nanos;
use crate::strategy::{BalanceStrategy, PoolView, StrategyState, TunnelMetrics};

verus! {

/// The measured RTT of a backend is no more than `nanos` nanoseconds.
pub open spec fn within(m: TunnelMetrics, nanos: nat) -> bool {
    m.rtt matches Some(rtt) && duration_nanos(rtt) <= nanos
}

/// `idx` is the first backend with the lowest measured RTT; 0 if no RTT was
/// measured.
pub open spec fn is_lowest_rtt(metrics: Seq<TunnelMetrics>, idx: int) -> bool {
    if forall|j: int| 0 <= j < metrics.len() ==> (#[trigger] metrics[j]).rtt is None {
        idx == 0
    } else {
        &&& 0 <= idx < metrics.len()
        &&& metrics[idx].rtt is Some
        &&& forall|j: int|
            0 <= j < metrics.len() ==> ((#[trigger] metrics[j]).rtt matches Some(rtt) ==> within(
                metrics[idx],
                duration_nanos(rtt),
            ))
        &&& forall|j: int|
            0 <= j < idx ==> !within(#[trigger] metrics[j], duration_nanos(metrics[idx].rtt->0))
    }
}

/// Find the index of the backend with the lowest RTT. Returns 0 if no RTTs
/// are available. Ties go to the lower index.
pub fn find_lowest_rtt(metrics: &[TunnelMetrics]) -> (best: usize)
    ensures
        is_lowest_rtt(metrics@, best as int),
{
    let mut best: Option<(usize, u128)> = None;
    let mut i: usize = 0;
    while i < metrics.len()
        invariant
            i <= metrics@.len(),
            match best {
                Some((at, nanos)) => {
                    &&& at < i
                    &&& metrics@[at as int].rtt matches Some(rtt) && duration_nanos(rtt) == nanos
                    &&& forall|j: int|
                        0 <= j < i ==> ((#[trigger] metrics@[j]).rtt matches Some(rtt) ==> nanos
                            <= duration_nanos(rtt))
                    &&& forall|j: int|
                        0 <= j < at ==> !within(#[trigger] metrics@[j], nanos as nat)
                },
                None => forall|j: int| 0 <= j < i ==> (#[trigger] metrics@[j]).rtt is None,
            },
        decreases metrics.len() - i,
    {
        if let Some(rtt) = metrics[i].rtt {
            let nanos: u128 = rtt.as_nanos();
            let better = match best {
                Some((_, lowest)) => nanos < lowest,
                None => true,
            };
            if better {
                best = Some((i, nanos));
            }
        }
        i += 1;
    }
    match best {
        Some((at, _)) => {
            assert(metrics@[at as int].rtt is Some);
            at
        },
        None => 0,
    }
}

/// Always pick the backend with the lowest measured RTT. Ties broken by
/// index. Best for latency-sensitive workloads (gaming, voice). All traffic
/// goes to one backend; the others are standby.
#[derive(Debug, Clone, Copy)]
pub struct LowestRtt;

impl LowestRtt {
    /// Create a new lowest-RTT strategy.
    pub fn new() -> (s: Self)
        ensures
            s == LowestRtt,
    {
        LowestRtt
    }
}

impl Default for LowestRtt {
    fn default() -> (s: Self)
        ensures
            s == LowestRtt,
    {
        LowestRtt
    }
}

impl BalanceStrategy for LowestRtt {
    open spec fn state(&self) -> StrategyState {
        StrategyState::LowestRtt
    }

    open spec fn valid(&self) -> bool {
        true
    }

    open spec fn can_pick(&self, addr: Seq<char>, metrics: Seq<TunnelMetrics>) -> bool {
        true
    }

    /// The first backend with the lowest measured RTT.
    open spec fn pick_step(
        &self,
        addr: Seq<char>,
        metrics: Seq<TunnelMetrics>,
        post: StrategyState,
        idx: int,
    ) -> bool {
        &&& is_lowest_rtt(metrics, idx)
        &&& post == self.state()
    }

    open spec fn error_step(&self, idx: int, post: StrategyState) -> bool {
        post == self.state()
    }

    open spec fn success_step(&self, idx: int, post: StrategyState) -> bool {
        post == self.state()
    }

    open spec fn removal_step(&self, idx: int, post: StrategyState) -> bool {
        post == self.state()
    }

    fn pick(&mut self, view: &PoolView<'_>) -> (idx: usize) {
        find_lowest_rtt(view.metrics)
    }

    fn name(&self) -> (name: &str)
        ensures
            name@ == STRATEGY_NAMES[2]@,
    {
        STRATEGY_NAMES[2]
    }

    fn report_error(&mut self, idx: usize) {
    }

    fn report_success(&mut self, idx: usize) {
    }

    fn backend_removed(&mut self, idx: usize) {
    }
}

/// The fastest backend is picked: if any RTT is known, none is shorter than
/// that of the backend picked, and the ones in front of it are all longer or
/// unknown. If none is known, the first backend is picked.
pub proof fn the_fastest_is_picked(
    s: &mut LowestRtt,
    view: &PoolView<'_>,
    idx: usize,
    j: int,
)
    requires
        call_ensures(LowestRtt::pick, (s, view), idx) || call_ensures(
            find_lowest_rtt,
            (view.metrics,),
            idx,
        ),
        0 <= j < view.metrics@.len(),
    ensures
        idx < view.metrics@.len(),
        view.metrics@[j].rtt matches Some(other) ==> {
            &&& view.metrics@[idx as int].rtt matches Some(best)
            &&& duration_nanos(best) <= duration_nanos(other)
            &&& j < idx ==> duration_nanos(best) < duration_nanos(other)
        },
        view.metrics@[idx as int].rtt is None ==> idx == 0,
{
    let metrics = view.metrics@;
    if forall|k: int| 0 <= k < metrics.len() ==> (#[trigger] metrics[k]).rtt is None {
        assert(metrics[j].rtt is None);
    } else {
        let best = metrics[idx as int].rtt->0;
        if j < idx {
            assert(!within(metrics[j], duration_nanos(best)));
        }
    }
}

} // verus!
