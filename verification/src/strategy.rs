//! The `BalanceStrategy` trait and the per-backend metrics the load balancer
//! tracks.

use std::fmt::Debug;
use std::time::Duration;

use vstd::prelude::*;

use crate::strategies::weighted_round_robin::Schedule;

verus! {

/// Live metrics for one active backend. Snapshot at dial time; updated by the
/// load balancer as connections come and go.
#[derive(Clone, Copy, Debug)]
pub struct TunnelMetrics {
    /// Last-measured RTT to the backend's remote endpoint. `None` if not yet
    /// probed or if the probe failed.
    pub rtt: Option<Duration>,
    /// Number of in-flight (open) connections on this backend right now.
    pub active_connections: u32,
    /// Dial errors since the backend last came up. Strategies like
    /// `HealthWeighted` penalise backends that have been failing.
    pub recent_errors: u32,
    /// Total successful dials on this backend since startup.
    pub total_dials: u64,
    /// Total failed dials on this backend since startup.
    pub total_errors: u64,
}

impl TunnelMetrics {
    /// Metrics of a backend nothing is known about yet.
    pub open spec fn zero() -> TunnelMetrics {
        TunnelMetrics {
            rtt: None,
            active_connections: 0,
            recent_errors: 0,
            total_dials: 0,
            total_errors: 0,
        }
    }
}

impl Default for TunnelMetrics {
    fn default() -> (m: Self)
        ensures
            m == TunnelMetrics::zero(),
    {
        TunnelMetrics {
            rtt: None,
            active_connections: 0,
            recent_errors: 0,
            total_dials: 0,
            total_errors: 0,
        }
    }
}

/// A snapshot of the backend pool, passed to [`BalanceStrategy::pick`] on
/// every dial.
#[derive(Debug, Clone, Copy)]
pub struct PoolView<'a> {
    /// The address being dialed. Available to address-aware strategies
    /// (e.g. `HashByAddr`).
    pub dial_addr: &'a str,
    /// Per-backend metrics, one entry per active backend.
    pub metrics: &'a [TunnelMetrics],
}

impl<'a> PoolView<'a> {
    /// The number of backends in the pool.
    pub fn len(&self) -> (n: usize)
        ensures
            n == self.metrics@.len(),
    {
        self.metrics.len()
    }

    /// Whether the pool contains no backends.
    pub fn is_empty(&self) -> (empty: bool)
        ensures
            empty == (self.metrics@.len() == 0),
    {
        self.metrics.len() == 0
    }
}

/// What a strategy remembers between calls.
pub enum StrategyState {
    /// Where `RoundRobin` stands.
    RoundRobin { cursor: nat },
    /// `Random` remembers nothing.
    Random,
    /// `LowestRtt` remembers nothing.
    LowestRtt,
    /// `LeastConnections` remembers nothing.
    LeastConnections,
    /// `HashByAddr` remembers nothing.
    HashByAddr,
    /// The slots `WeightedRoundRobin` has given out.
    WeightedRoundRobin(Schedule),
    /// The backend that `Failover` uses, and the pool size it knows of.
    Failover { primary: nat, pool_size: nat },
    /// `HealthWeighted` remembers nothing.
    HealthWeighted,
    /// The backend that `Sticky` chose.
    Sticky { pin: Option<nat> },
    /// Whatever another strategy remembers.
    Other(Seq<int>),
}

/// A traffic distribution strategy for the load balancer.
///
/// Implementations choose which backend each new dial goes through. Stateless
/// strategies look at the view and return an index; stateful ones (`Failover`,
/// `Sticky`, `RoundRobin`) keep their own state across calls.
///
/// Each strategy says what it does through the step relations: `pick_step`,
/// `error_step`, `success_step` and `removal_step` relate the strategy before
/// a call to what it remembers after it. A strategy that says nothing of itself promises no
/// more than to stay within the pool.
pub trait BalanceStrategy: Send + Debug {
    /// What the strategy remembers.
    open spec fn state(&self) -> StrategyState {
        StrategyState::Other(seq![])
    }

    /// The strategy's own invariant.
    open spec fn valid(&self) -> bool {
        true
    }

    /// Whether `pick` may be asked for a backend of this pool.
    open spec fn can_pick(&self, addr: Seq<char>, metrics: Seq<TunnelMetrics>) -> bool {
        metrics.len() > 0
    }

    /// Whether a pick on this pool may return `idx` and leave `post` in
    /// memory.
    open spec fn pick_step(
        &self,
        addr: Seq<char>,
        metrics: Seq<TunnelMetrics>,
        post: StrategyState,
        idx: int,
    ) -> bool {
        true
    }

    /// Whether an error reported on backend `idx` may leave `post` in memory.
    open spec fn error_step(&self, idx: int, post: StrategyState) -> bool {
        true
    }

    /// Whether a success reported on backend `idx` may leave `post` in
    /// memory.
    open spec fn success_step(&self, idx: int, post: StrategyState) -> bool {
        true
    }

    /// Whether the removal of backend `idx` from the pool may leave `post` in
    /// memory.
    open spec fn removal_step(&self, idx: int, post: StrategyState) -> bool {
        true
    }

    /// Pick a backend index in `[0, view.len())`. Called once per dial.
    fn pick(&mut self, view: &PoolView<'_>) -> (idx: usize)
        requires
            old(self).valid(),
            old(self).can_pick(view.dial_addr@, view.metrics@),
        ensures
            final(self).valid(),
            view.metrics@.len() > 0 ==> idx < view.metrics@.len(),
            old(self).pick_step(
                view.dial_addr@,
                view.metrics@,
                final(self).state(),
                idx as int,
            ),
    ;

    /// Human-readable name for logging and diagnostics.
    fn name(&self) -> (name: &str);

    /// Called by the load balancer when a dial returns an error.
    fn report_error(&mut self, idx: usize)
        requires
            old(self).valid(),
        ensures
            final(self).valid(),
            old(self).error_step(idx as int, final(self).state()),
    ;

    /// Called by the load balancer when a dial completes successfully.
    fn report_success(&mut self, idx: usize)
        requires
            old(self).valid(),
        ensures
            final(self).valid(),
            old(self).success_step(idx as int, final(self).state()),
    ;

    /// Called by the load balancer when backend `idx` left the pool and those
    /// behind it moved up by one.
    fn backend_removed(&mut self, idx: usize)
        requires
            old(self).valid(),
        ensures
            final(self).valid(),
            old(self).removal_step(idx as int, final(self).state()),
    ;
}

/// A boxed strategy is itself a strategy.
impl<T: BalanceStrategy + ?Sized> BalanceStrategy for Box<T> {
    open spec fn state(&self) -> StrategyState {
        (**self).state()
    }

    open spec fn valid(&self) -> bool {
        (**self).valid()
    }

    open spec fn can_pick(&self, addr: Seq<char>, metrics: Seq<TunnelMetrics>) -> bool {
        (**self).can_pick(addr, metrics)
    }

    open spec fn pick_step(
        &self,
        addr: Seq<char>,
        metrics: Seq<TunnelMetrics>,
        post: StrategyState,
        idx: int,
    ) -> bool {
        (**self).pick_step(addr, metrics, post, idx)
    }

    open spec fn error_step(&self, idx: int, post: StrategyState) -> bool {
        (**self).error_step(idx, post)
    }

    open spec fn success_step(&self, idx: int, post: StrategyState) -> bool {
        (**self).success_step(idx, post)
    }

    open spec fn removal_step(&self, idx: int, post: StrategyState) -> bool {
        (**self).removal_step(idx, post)
    }

    fn pick(&mut self, view: &PoolView<'_>) -> (idx: usize) {
        (**self).pick(view)
    }

    fn name(&self) -> (name: &str)
        ensures
            call_ensures(T::name, (&**self,), name),
    {
        (**self).name()
    }

    fn report_error(&mut self, idx: usize) {
        (**self).report_error(idx);
    }

    fn report_success(&mut self, idx: usize) {
        (**self).report_success(idx);
    }

    fn backend_removed(&mut self, idx: usize) {
        (**self).backend_removed(idx);
    }
}

/// Something that happens to a strategy in use.
pub enum StrategyEvent {
    /// It was asked for a backend of this pool and chose `idx`.
    Picked { addr: Seq<char>, pool: Seq<TunnelMetrics>, idx: int },
    /// It was told of a failed dial.
    Failed { idx: int },
    /// It was told of a successful dial.
    Succeeded { idx: int },
}

/// Whether the event may turn the strategy `s` into `post`.
pub open spec fn may_become<S: BalanceStrategy>(s: S, event: StrategyEvent, post: S) -> bool {
    match event {
        StrategyEvent::Picked { addr, pool, idx } => s.pick_step(addr, pool, post.state(), idx),
        StrategyEvent::Failed { idx } => s.error_step(idx, post.state()),
        StrategyEvent::Succeeded { idx } => s.success_step(idx, post.state()),
    }
}

/// A strategy's life: `states[t]` goes through `events[t]` and becomes
/// `states[t + 1]`.
pub open spec fn is_history<S: BalanceStrategy>(
    states: Seq<S>,
    events: Seq<StrategyEvent>,
) -> bool {
    &&& states.len() == events.len() + 1
    &&& forall|t: int|
        0 <= t < events.len() ==> may_become(states[t], #[trigger] events[t], states[t + 1])
}

/// What was picked, in order, whatever was reported in between.
pub open spec fn picks_of(events: Seq<StrategyEvent>) -> Seq<int>
    decreases events.len(),
{
    if events.len() == 0 {
        Seq::empty()
    } else {
        let before = picks_of(events.drop_last());
        match events.last() {
            StrategyEvent::Picked { idx, .. } => before.push(idx),
            _ => before,
        }
    }
}

/// A history without its last event.
pub proof fn lemma_shorter_history<S: BalanceStrategy>(
    states: Seq<S>,
    events: Seq<StrategyEvent>,
)
    requires
        is_history(states, events),
        events.len() > 0,
    ensures
        is_history(states.drop_last(), events.drop_last()),
        may_become(states[events.len() - 1], events.last(), states.last()),
{
    let fewer = events.drop_last();
    let firsts = states.drop_last();
    assert forall|t: int| 0 <= t < fewer.len() implies may_become(
        firsts[t],
        #[trigger] fewer[t],
        firsts[t + 1],
    ) by {
        assert(may_become(states[t], events[t], states[t + 1]));
    }
    let last = events.len() - 1;
    assert(may_become(states[last], events[last], states[last + 1]));
}

/// A boxed strategy does what the strategy in the box does.
pub proof fn a_box_changes_nothing<T: BalanceStrategy>(
    boxed: Box<T>,
    addr: Seq<char>,
    metrics: Seq<TunnelMetrics>,
    post: StrategyState,
    idx: int,
)
    ensures
        boxed.state() == (*boxed).state(),
        boxed.valid() == (*boxed).valid(),
        boxed.can_pick(addr, metrics) == (*boxed).can_pick(addr, metrics),
        boxed.pick_step(addr, metrics, post, idx) == (*boxed).pick_step(addr, metrics, post, idx),
        boxed.error_step(idx, post) == (*boxed).error_step(idx, post),
        boxed.success_step(idx, post) == (*boxed).success_step(idx, post),
        boxed.removal_step(idx, post) == (*boxed).removal_step(idx, post),
{
}

/// A pool is as long as its list of metrics, and new metrics know nothing.
pub proof fn views_count_their_backends(
    view: &PoolView<'_>,
    n: usize,
    empty: bool,
    fresh: TunnelMetrics,
)
    requires
        call_ensures(PoolView::len, (view,), n),
        call_ensures(PoolView::is_empty, (view,), empty),
        call_ensures(TunnelMetrics::default, (), fresh),
    ensures
        n == view.metrics@.len(),
        empty == (n == 0),
        fresh.rtt is None,
        fresh.active_connections == 0,
        fresh.recent_errors == 0,
        fresh.total_dials == 0,
        fresh.total_errors == 0,
{
}

/// A boxed strategy has the name of the strategy in the box.
pub proof fn a_box_keeps_the_name<T: BalanceStrategy>(boxed: &Box<T>, name: &str)
    requires
        call_ensures(Box::<T>::name, (boxed,), name),
    ensures
        call_ensures(T::name, (&**boxed,), name),
{
}

} // verus!
