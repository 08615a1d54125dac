//! Pick at random.

use rand::Rng;
use vstd::prelude::*;

use crate::constants::STRATEGY_NAMES;
use crate::strategy::{BalanceStrategy, PoolView, StrategyState, TunnelMetrics};

verus! {

/// `rand::thread_rng().gen_range(0..len)`: some index below `len`. Which one
/// is left to chance. `gen_range` panics on an empty range, hence the
/// requirement.
#[verifier::external_body]
pub fn random_index(len: usize) -> (idx: usize)
    requires
        len > 0,
    ensures
        idx < len,
{
    rand::thread_rng().gen_range(0..len)
}

/// Random pick. Even distribution in expectation, no state. Good fallback
/// when no metrics are available.
#[derive(Debug, Clone, Copy)]
pub struct Random;

impl Random {
    /// Create a new random strategy.
    pub fn new() -> (s: Self)
        ensures
            s == Random,
    {
        Random
    }
}

impl Default for Random {
    fn default() -> (s: Self)
        ensures
            s == Random,
    {
        Random
    }
}

impl BalanceStrategy for Random {
    open spec fn state(&self) -> StrategyState {
        StrategyState::Random
    }

    open spec fn valid(&self) -> bool {
        true
    }

    /// An empty pool has no backend to draw.
    open spec fn can_pick(&self, addr: Seq<char>, metrics: Seq<TunnelMetrics>) -> bool {
        metrics.len() > 0
    }

    /// Any backend of the pool: the one that was drawn.
    open spec fn pick_step(
        &self,
        addr: Seq<char>,
        metrics: Seq<TunnelMetrics>,
        post: StrategyState,
        idx: int,
    ) -> bool {
        &&& 0 <= idx < metrics.len()
        &&& call_ensures(random_index, (metrics.len() as usize,), idx as usize)
        &&& post == self.state()
    }

    open spec fn error_step(&self, idx: int, post: StrategyState) -> bool {
        post == self.state()
    }

    open spec fn success_step(&self, idx: int, post: StrategyState) -> bool {
        post == self.state()
    }

    open spec fn removal_step(&self, idx: int, post: StrategyState) -> bool {
        post == self.state()
    }

    fn pick(&mut self, view: &PoolView<'_>) -> (idx: usize) {
        random_index(view.len())
    }

    fn name(&self) -> (name: &str)
        ensures
            name@ == STRATEGY_NAMES[1]@,
    {
        STRATEGY_NAMES[1]
    }

    fn report_error(&mut self, idx: usize) {
    }

    fn report_success(&mut self, idx: usize) {
    }

    fn backend_removed(&mut self, idx: usize) {
    }
}

/// What is picked is what was drawn for a pool of that size.
pub proof fn the_draw_is_picked(s: &mut Random, view: &PoolView<'_>, idx: usize)
    requires
        call_ensures(Random::pick, (s, view), idx),
        0 < view.metrics@.len() <= usize::MAX,
    ensures
        call_ensures(random_index, (view.metrics@.len() as usize,), idx),
        idx < view.metrics@.len(),
{
}

} // verus!
