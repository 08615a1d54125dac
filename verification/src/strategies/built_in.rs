//! The built-in strategies under one type.

use vstd::prelude::*;

use crate::strategies::failover::Failover;
use crate::strategies::hash_by_addr::HashByAddr;
use crate::strategies::health_weighted::HealthWeighted;
use crate::strategies::least_connections::LeastConnections;
use crate::strategies::lowest_rtt::LowestRtt;
use crate::strategies::random::Random;
use crate::strategies::round_robin::RoundRobin;
use crate::strategies::sticky::Sticky;
use crate::strategies::weighted_round_robin::{Schedule, WeightedRoundRobin};
use crate::constants::STRATEGY_NAMES;
use crate::strategy::{BalanceStrategy, PoolView, StrategyState, TunnelMetrics};

verus! {

/// Any of the built-in strategies. It behaves exactly as the strategy it
/// holds.
#[derive(Debug)]
pub enum Strategy {
    /// Each backend in turn.
    RoundRobin(RoundRobin),
    /// Any backend.
    Random(Random),
    /// The fastest backend.
    LowestRtt(LowestRtt),
    /// The least busy backend.
    LeastConnections(LeastConnections),
    /// The backend an address hashes to.
    HashByAddr(HashByAddr),
    /// Each backend in turn, by weight.
    WeightedRoundRobin(WeightedRoundRobin),
    /// The primary backend.
    Failover(Failover),
    /// The backend with the best health score.
    HealthWeighted(HealthWeighted),
    /// The first backend that was chosen.
    Sticky(Sticky),
}

impl Strategy {
    /// The strategy's place among the built-in ones.
    pub open spec fn number(&self) -> int {
        match self {
            Strategy::RoundRobin(_) => 0,
            Strategy::Random(_) => 1,
            Strategy::LowestRtt(_) => 2,
            Strategy::LeastConnections(_) => 3,
            Strategy::HashByAddr(_) => 4,
            Strategy::WeightedRoundRobin(_) => 5,
            Strategy::Failover(_) => 6,
            Strategy::HealthWeighted(_) => 7,
            Strategy::Sticky(_) => 8,
        }
    }
}

impl Clone for Strategy {
    fn clone(&self) -> (copy: Self)
        ensures
            copy.number() == self.number(),
            copy.state() == self.state(),
            self.valid() ==> copy.valid(),
    {
        match self {
            Strategy::RoundRobin(s) => Strategy::RoundRobin(*s),
            Strategy::Random(s) => Strategy::Random(*s),
            Strategy::LowestRtt(s) => Strategy::LowestRtt(*s),
            Strategy::LeastConnections(s) => Strategy::LeastConnections(*s),
            Strategy::HashByAddr(s) => Strategy::HashByAddr(*s),
            Strategy::WeightedRoundRobin(s) => Strategy::WeightedRoundRobin(s.clone()),
            Strategy::Failover(s) => Strategy::Failover(*s),
            Strategy::HealthWeighted(s) => Strategy::HealthWeighted(*s),
            Strategy::Sticky(s) => Strategy::Sticky(*s),
        }
    }
}

impl BalanceStrategy for Strategy {
    open spec fn state(&self) -> StrategyState {
        match self {
            Strategy::RoundRobin(s) => s.state(),
            Strategy::Random(s) => s.state(),
            Strategy::LowestRtt(s) => s.state(),
            Strategy::LeastConnections(s) => s.state(),
            Strategy::HashByAddr(s) => s.state(),
            Strategy::WeightedRoundRobin(s) => s.state(),
            Strategy::Failover(s) => s.state(),
            Strategy::HealthWeighted(s) => s.state(),
            Strategy::Sticky(s) => s.state(),
        }
    }

    open spec fn valid(&self) -> bool {
        match self {
            Strategy::RoundRobin(s) => s.valid(),
            Strategy::Random(s) => s.valid(),
            Strategy::LowestRtt(s) => s.valid(),
            Strategy::LeastConnections(s) => s.valid(),
            Strategy::HashByAddr(s) => s.valid(),
            Strategy::WeightedRoundRobin(s) => s.valid(),
            Strategy::Failover(s) => s.valid(),
            Strategy::HealthWeighted(s) => s.valid(),
            Strategy::Sticky(s) => s.valid(),
        }
    }

    open spec fn can_pick(&self, addr: Seq<char>, metrics: Seq<TunnelMetrics>) -> bool {
        match self {
            Strategy::RoundRobin(s) => s.can_pick(addr, metrics),
            Strategy::Random(s) => s.can_pick(addr, metrics),
            Strategy::LowestRtt(s) => s.can_pick(addr, metrics),
            Strategy::LeastConnections(s) => s.can_pick(addr, metrics),
            Strategy::HashByAddr(s) => s.can_pick(addr, metrics),
            Strategy::WeightedRoundRobin(s) => s.can_pick(addr, metrics),
            Strategy::Failover(s) => s.can_pick(addr, metrics),
            Strategy::HealthWeighted(s) => s.can_pick(addr, metrics),
            Strategy::Sticky(s) => s.can_pick(addr, metrics),
        }
    }

    open spec fn pick_step(
        &self,
        addr: Seq<char>,
        metrics: Seq<TunnelMetrics>,
        post: StrategyState,
        idx: int,
    ) -> bool {
        match self {
            Strategy::RoundRobin(s) => s.pick_step(addr, metrics, post, idx),
            Strategy::Random(s) => s.pick_step(addr, metrics, post, idx),
            Strategy::LowestRtt(s) => s.pick_step(addr, metrics, post, idx),
            Strategy::LeastConnections(s) => s.pick_step(addr, metrics, post, idx),
            Strategy::HashByAddr(s) => s.pick_step(addr, metrics, post, idx),
            Strategy::WeightedRoundRobin(s) => s.pick_step(addr, metrics, post, idx),
            Strategy::Failover(s) => s.pick_step(addr, metrics, post, idx),
            Strategy::HealthWeighted(s) => s.pick_step(addr, metrics, post, idx),
            Strategy::Sticky(s) => s.pick_step(addr, metrics, post, idx),
        }
    }

    open spec fn error_step(&self, idx: int, post: StrategyState) -> bool {
        match self {
            Strategy::RoundRobin(s) => s.error_step(idx, post),
            Strategy::Random(s) => s.error_step(idx, post),
            Strategy::LowestRtt(s) => s.error_step(idx, post),
            Strategy::LeastConnections(s) => s.error_step(idx, post),
            Strategy::HashByAddr(s) => s.error_step(idx, post),
            Strategy::WeightedRoundRobin(s) => s.error_step(idx, post),
            Strategy::Failover(s) => s.error_step(idx, post),
            Strategy::HealthWeighted(s) => s.error_step(idx, post),
            Strategy::Sticky(s) => s.error_step(idx, post),
        }
    }

    open spec fn success_step(&self, idx: int, post: StrategyState) -> bool {
        match self {
            Strategy::RoundRobin(s) => s.success_step(idx, post),
            Strategy::Random(s) => s.success_step(idx, post),
            Strategy::LowestRtt(s) => s.success_step(idx, post),
            Strategy::LeastConnections(s) => s.success_step(idx, post),
            Strategy::HashByAddr(s) => s.success_step(idx, post),
            Strategy::WeightedRoundRobin(s) => s.success_step(idx, post),
            Strategy::Failover(s) => s.success_step(idx, post),
            Strategy::HealthWeighted(s) => s.success_step(idx, post),
            Strategy::Sticky(s) => s.success_step(idx, post),
        }
    }

    open spec fn removal_step(&self, idx: int, post: StrategyState) -> bool {
        match self {
            Strategy::RoundRobin(s) => s.removal_step(idx, post),
            Strategy::Random(s) => s.removal_step(idx, post),
            Strategy::LowestRtt(s) => s.removal_step(idx, post),
            Strategy::LeastConnections(s) => s.removal_step(idx, post),
            Strategy::HashByAddr(s) => s.removal_step(idx, post),
            Strategy::WeightedRoundRobin(s) => s.removal_step(idx, post),
            Strategy::Failover(s) => s.removal_step(idx, post),
            Strategy::HealthWeighted(s) => s.removal_step(idx, post),
            Strategy::Sticky(s) => s.removal_step(idx, post),
        }
    }

    fn pick(&mut self, view: &PoolView<'_>) -> (idx: usize) {
        match self {
            Strategy::RoundRobin(s) => s.pick(view),
            Strategy::Random(s) => s.pick(view),
            Strategy::LowestRtt(s) => s.pick(view),
            Strategy::LeastConnections(s) => s.pick(view),
            Strategy::HashByAddr(s) => s.pick(view),
            Strategy::WeightedRoundRobin(s) => s.pick(view),
            Strategy::Failover(s) => s.pick(view),
            Strategy::HealthWeighted(s) => s.pick(view),
            Strategy::Sticky(s) => s.pick(view),
        }
    }

    fn name(&self) -> (name: &str)
        ensures
            name@ == STRATEGY_NAMES[self.number()]@,
    {
        match self {
            Strategy::RoundRobin(s) => s.name(),
            Strategy::Random(s) => s.name(),
            Strategy::LowestRtt(s) => s.name(),
            Strategy::LeastConnections(s) => s.name(),
            Strategy::HashByAddr(s) => s.name(),
            Strategy::WeightedRoundRobin(s) => s.name(),
            Strategy::Failover(s) => s.name(),
            Strategy::HealthWeighted(s) => s.name(),
            Strategy::Sticky(s) => s.name(),
        }
    }

    fn report_error(&mut self, idx: usize) {
        match self {
            Strategy::RoundRobin(s) => s.report_error(idx),
            Strategy::Random(s) => s.report_error(idx),
            Strategy::LowestRtt(s) => s.report_error(idx),
            Strategy::LeastConnections(s) => s.report_error(idx),
            Strategy::HashByAddr(s) => s.report_error(idx),
            Strategy::WeightedRoundRobin(s) => s.report_error(idx),
            Strategy::Failover(s) => s.report_error(idx),
            Strategy::HealthWeighted(s) => s.report_error(idx),
            Strategy::Sticky(s) => s.report_error(idx),
        }
    }

    fn report_success(&mut self, idx: usize) {
        match self {
            Strategy::RoundRobin(s) => s.report_success(idx),
            Strategy::Random(s) => s.report_success(idx),
            Strategy::LowestRtt(s) => s.report_success(idx),
            Strategy::LeastConnections(s) => s.report_success(idx),
            Strategy::HashByAddr(s) => s.report_success(idx),
            Strategy::WeightedRoundRobin(s) => s.report_success(idx),
            Strategy::Failover(s) => s.report_success(idx),
            Strategy::HealthWeighted(s) => s.report_success(idx),
            Strategy::Sticky(s) => s.report_success(idx),
        }
    }

    fn backend_removed(&mut self, idx: usize) {
        match self {
            Strategy::RoundRobin(s) => s.backend_removed(idx),
            Strategy::Random(s) => s.backend_removed(idx),
            Strategy::LowestRtt(s) => s.backend_removed(idx),
            Strategy::LeastConnections(s) => s.backend_removed(idx),
            Strategy::HashByAddr(s) => s.backend_removed(idx),
            Strategy::WeightedRoundRobin(s) => s.backend_removed(idx),
            Strategy::Failover(s) => s.backend_removed(idx),
            Strategy::HealthWeighted(s) => s.backend_removed(idx),
            Strategy::Sticky(s) => s.backend_removed(idx),
        }
    }
}

/// Round-robin strategy. Even distribution, no metrics required.
pub fn round_robin() -> (s: Strategy)
    ensures
        s.valid(),
        s matches Strategy::RoundRobin(r) && r.cursor() == 0,
{
    Strategy::RoundRobin(RoundRobin::new())
}

/// Random strategy. Stateless fallback when no metrics available.
pub fn random() -> (s: Strategy)
    ensures
        s.valid(),
        s is Random,
{
    Strategy::Random(Random::new())
}

/// Lowest-RTT strategy. Picks the backend with the lowest measured RTT.
pub fn lowest_rtt() -> (s: Strategy)
    ensures
        s.valid(),
        s is LowestRtt,
{
    Strategy::LowestRtt(LowestRtt::new())
}

/// Least-connections strategy. Picks the backend with the fewest active
/// connections.
pub fn least_connections() -> (s: Strategy)
    ensures
        s.valid(),
        s is LeastConnections,
{
    Strategy::LeastConnections(LeastConnections::new())
}

/// Hash-by-address strategy. Same address always routes to the same backend.
pub fn hash_by_addr() -> (s: Strategy)
    ensures
        s.valid(),
        s is HashByAddr,
{
    Strategy::HashByAddr(HashByAddr::new())
}

/// Weighted round-robin. Weights by inverse RTT.
pub fn weighted_round_robin() -> (s: Strategy)
    ensures
        s.valid(),
        s matches Strategy::WeightedRoundRobin(w) && w@ == Schedule::empty(),
{
    Strategy::WeightedRoundRobin(WeightedRoundRobin::new())
}

/// Failover strategy. Uses the primary backend until it fails, then rotates.
pub fn failover() -> (s: Strategy)
    ensures
        s.valid(),
        s matches Strategy::Failover(f) && f.primary() == 0 && f.pool_size() == 0,
{
    Strategy::Failover(Failover::new())
}

/// Health-weighted strategy. Scores by RTT + error penalty + load penalty.
pub fn health_weighted() -> (s: Strategy)
    ensures
        s.valid(),
        s is HealthWeighted,
{
    Strategy::HealthWeighted(HealthWeighted::new())
}

/// Sticky strategy. Pins to the first-chosen backend for the balancer's
/// lifetime.
pub fn sticky() -> (s: Strategy)
    ensures
        s.valid(),
        s matches Strategy::Sticky(p) && p.pin() is None,
{
    Strategy::Sticky(Sticky::new())
}

/// A built-in strategy behaves as the strategy it holds, and goes by its name.
pub proof fn the_enum_does_what_it_holds(
    s: Strategy,
    addr: Seq<char>,
    metrics: Seq<TunnelMetrics>,
    post: StrategyState,
    idx: int,
)
    ensures
        s matches Strategy::RoundRobin(x) ==> {
            &&& s.state() == x.state()
            &&& s.valid() == x.valid()
            &&& s.can_pick(addr, metrics) == x.can_pick(addr, metrics)
            &&& s.pick_step(addr, metrics, post, idx) == x.pick_step(addr, metrics, post, idx)
            &&& s.error_step(idx, post) == x.error_step(idx, post)
            &&& s.success_step(idx, post) == x.success_step(idx, post)
            &&& s.removal_step(idx, post) == x.removal_step(idx, post)
        },
        s matches Strategy::Random(x) ==> {
            &&& s.state() == x.state()
            &&& s.valid() == x.valid()
            &&& s.can_pick(addr, metrics) == x.can_pick(addr, metrics)
            &&& s.pick_step(addr, metrics, post, idx) == x.pick_step(addr, metrics, post, idx)
            &&& s.error_step(idx, post) == x.error_step(idx, post)
            &&& s.success_step(idx, post) == x.success_step(idx, post)
            &&& s.removal_step(idx, post) == x.removal_step(idx, post)
        },
        s matches Strategy::LowestRtt(x) ==> {
            &&& s.state() == x.state()
            &&& s.valid() == x.valid()
            &&& s.can_pick(addr, metrics) == x.can_pick(addr, metrics)
            &&& s.pick_step(addr, metrics, post, idx) == x.pick_step(addr, metrics, post, idx)
            &&& s.error_step(idx, post) == x.error_step(idx, post)
            &&& s.success_step(idx, post) == x.success_step(idx, post)
            &&& s.removal_step(idx, post) == x.removal_step(idx, post)
        },
        s matches Strategy::LeastConnections(x) ==> {
            &&& s.state() == x.state()
            &&& s.valid() == x.valid()
            &&& s.can_pick(addr, metrics) == x.can_pick(addr, metrics)
            &&& s.pick_step(addr, metrics, post, idx) == x.pick_step(addr, metrics, post, idx)
            &&& s.error_step(idx, post) == x.error_step(idx, post)
            &&& s.success_step(idx, post) == x.success_step(idx, post)
            &&& s.removal_step(idx, post) == x.removal_step(idx, post)
        },
        s matches Strategy::HashByAddr(x) ==> {
            &&& s.state() == x.state()
            &&& s.valid() == x.valid()
            &&& s.can_pick(addr, metrics) == x.can_pick(addr, metrics)
            &&& s.pick_step(addr, metrics, post, idx) == x.pick_step(addr, metrics, post, idx)
            &&& s.error_step(idx, post) == x.error_step(idx, post)
            &&& s.success_step(idx, post) == x.success_step(idx, post)
            &&& s.removal_step(idx, post) == x.removal_step(idx, post)
        },
        s matches Strategy::WeightedRoundRobin(x) ==> {
            &&& s.state() == x.state()
            &&& s.valid() == x.valid()
            &&& s.can_pick(addr, metrics) == x.can_pick(addr, metrics)
            &&& s.pick_step(addr, metrics, post, idx) == x.pick_step(addr, metrics, post, idx)
            &&& s.error_step(idx, post) == x.error_step(idx, post)
            &&& s.success_step(idx, post) == x.success_step(idx, post)
            &&& s.removal_step(idx, post) == x.removal_step(idx, post)
        },
        s matches Strategy::Failover(x) ==> {
            &&& s.state() == x.state()
            &&& s.valid() == x.valid()
            &&& s.can_pick(addr, metrics) == x.can_pick(addr, metrics)
            &&& s.pick_step(addr, metrics, post, idx) == x.pick_step(addr, metrics, post, idx)
            &&& s.error_step(idx, post) == x.error_step(idx, post)
            &&& s.success_step(idx, post) == x.success_step(idx, post)
            &&& s.removal_step(idx, post) == x.removal_step(idx, post)
        },
        s matches Strategy::HealthWeighted(x) ==> {
            &&& s.state() == x.state()
            &&& s.valid() == x.valid()
            &&& s.can_pick(addr, metrics) == x.can_pick(addr, metrics)
            &&& s.pick_step(addr, metrics, post, idx) == x.pick_step(addr, metrics, post, idx)
            &&& s.error_step(idx, post) == x.error_step(idx, post)
            &&& s.success_step(idx, post) == x.success_step(idx, post)
            &&& s.removal_step(idx, post) == x.removal_step(idx, post)
        },
        s matches Strategy::Sticky(x) ==> {
            &&& s.state() == x.state()
            &&& s.valid() == x.valid()
            &&& s.can_pick(addr, metrics) == x.can_pick(addr, metrics)
            &&& s.pick_step(addr, metrics, post, idx) == x.pick_step(addr, metrics, post, idx)
            &&& s.error_step(idx, post) == x.error_step(idx, post)
            &&& s.success_step(idx, post) == x.success_step(idx, post)
            &&& s.removal_step(idx, post) == x.removal_step(idx, post)
        },
{
}

/// Every strategy that has something to choose from can be asked, except for a
/// weighted round-robin whose counts are full.
pub proof fn a_pool_can_be_picked_from(s: Strategy, addr: Seq<char>, metrics: Seq<TunnelMetrics>)
    requires
        metrics.len() > 0,
        s matches Strategy::WeightedRoundRobin(w) ==> forall|i: int|
            0 <= i < w@.picks.len() ==> #[trigger] w@.picks[i] < u64::MAX,
        s.valid(),
    ensures
        s.can_pick(addr, metrics),
{
}

/// The names that strategies go by.
pub proof fn strategies_go_by_their_names(s: &Strategy, name: &str)
    requires
        call_ensures(Strategy::name, (s,), name),
    ensures
        *s is RoundRobin ==> name@ == "round_robin"@,
        *s is Random ==> name@ == "random"@,
        *s is LowestRtt ==> name@ == "lowest_rtt"@,
        *s is LeastConnections ==> name@ == "least_connections"@,
        *s is HashByAddr ==> name@ == "hash_by_addr"@,
        *s is WeightedRoundRobin ==> name@ == "weighted_round_robin"@,
        *s is Failover ==> name@ == "failover"@,
        *s is HealthWeighted ==> name@ == "health_weighted"@,
        *s is Sticky ==> name@ == "sticky"@,
{
}

/// The strategies that the free constructors make, all of them new.
pub proof fn constructors_make_new_strategies(s: Strategy)
    ensures
        call_ensures(round_robin, (), s) ==> (s matches Strategy::RoundRobin(x) && x.cursor() == 0),
        call_ensures(random, (), s) ==> s is Random,
        call_ensures(lowest_rtt, (), s) ==> s is LowestRtt,
        call_ensures(least_connections, (), s) ==> s is LeastConnections,
        call_ensures(hash_by_addr, (), s) ==> s is HashByAddr,
        call_ensures(weighted_round_robin, (), s) ==> (s matches Strategy::WeightedRoundRobin(x) && x@.rtts.len() == 0),
        call_ensures(failover, (), s) ==> (s matches Strategy::Failover(x) && x.primary() == 0 && x.pool_size() == 0),
        call_ensures(health_weighted, (), s) ==> s is HealthWeighted,
        call_ensures(sticky, (), s) ==> (s matches Strategy::Sticky(x) && x.pin() is None),
{
}

/// A copy goes on where the strategy stands.
pub proof fn copies_go_on_from_there(s: &Strategy, copy: Strategy)
    requires
        call_ensures(Strategy::clone, (s,), copy),
    ensures
        copy.state() == s.state(),
        *s matches Strategy::Sticky(x) ==> (copy matches Strategy::Sticky(y) && y.pin()
            == x.pin()),
        *s matches Strategy::Failover(x) ==> (copy matches Strategy::Failover(y) && y.primary()
            == x.primary() && y.pool_size() == x.pool_size()),
        *s matches Strategy::RoundRobin(x) ==> (copy matches Strategy::RoundRobin(y) && y.cursor()
            == x.cursor()),
        *s matches Strategy::WeightedRoundRobin(x) ==> (copy matches Strategy::WeightedRoundRobin(
            y,
        ) && y@.rtts == x@.rtts && y@.picks == x@.picks),
{
}

/// Every strategy says its own name.
pub proof fn each_strategy_says_its_name(
    round_robin: &RoundRobin,
    random: &Random,
    lowest_rtt: &LowestRtt,
    least_connections: &LeastConnections,
    hash_by_addr: &HashByAddr,
    weighted_round_robin: &WeightedRoundRobin,
    failover: &Failover,
    health_weighted: &HealthWeighted,
    sticky: &Sticky,
    name: &str,
)
    ensures
        call_ensures(RoundRobin::name, (round_robin,), name) ==> name@ == "round_robin"@,
        call_ensures(Random::name, (random,), name) ==> name@ == "random"@,
        call_ensures(LowestRtt::name, (lowest_rtt,), name) ==> name@ == "lowest_rtt"@,
        call_ensures(LeastConnections::name, (least_connections,), name) ==> name@ == "least_connections"@,
        call_ensures(HashByAddr::name, (hash_by_addr,), name) ==> name@ == "hash_by_addr"@,
        call_ensures(WeightedRoundRobin::name, (weighted_round_robin,), name) ==> name@ == "weighted_round_robin"@,
        call_ensures(Failover::name, (failover,), name) ==> name@ == "failover"@,
        call_ensures(HealthWeighted::name, (health_weighted,), name) ==> name@ == "health_weighted"@,
        call_ensures(Sticky::name, (sticky,), name) ==> name@ == "sticky"@,
{
}

/// Where a strategy takes an empty pool, it returns 0.
pub proof fn empty_pools_give_zero(
    lowest_rtt: &mut LowestRtt,
    least_connections: &mut LeastConnections,
    failover: &mut Failover,
    health_weighted: &mut HealthWeighted,
    sticky: &mut Sticky,
    view: &PoolView<'_>,
    idx: usize,
)
    requires
        view.metrics@.len() == 0,
        call_ensures(LowestRtt::pick, (lowest_rtt, view), idx) || call_ensures(
            LeastConnections::pick,
            (least_connections, view),
            idx,
        ) || call_ensures(Failover::pick, (failover, view), idx) || call_ensures(
            HealthWeighted::pick,
            (health_weighted, view),
            idx,
        ) || call_ensures(Sticky::pick, (sticky, view), idx),
    ensures
        idx == 0,
{
}

} // verus!
