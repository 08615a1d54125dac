//! Score backends by latency, errors and load.

use vstd::prelude::*;

use crate::constants::{DEFAULT_RTT_US, ERROR_PENALTY_US, LOAD_PENALTY_US, STRATEGY_NAMES};
use crate::duration::duration_nanos;
use crate::strategy::{BalanceStrategy, PoolView, StrategyState, TunnelMetrics};

verus! {

/// `rtt_us + error_penalty * recent_errors + load_penalty *
/// active_connections`, with a fixed RTT for a backend that has none.
pub open spec fn health_score(m: TunnelMetrics) -> nat {
    let rtt_us: nat = match m.rtt {
        Some(rtt) => duration_nanos(rtt) / 1_000,
        None => DEFAULT_RTT_US as nat,
    };
    rtt_us + m.recent_errors as nat * ERROR_PENALTY_US as nat + m.active_connections as nat
        * LOAD_PENALTY_US as nat
}

/// `idx` is the first backend with the lowest score; 0 in an empty pool.
pub open spec fn is_healthiest(metrics: Seq<TunnelMetrics>, idx: int) -> bool {
    if metrics.len() == 0 {
        idx == 0
    } else {
        &&& 0 <= idx < metrics.len()
        &&& forall|j: int|
            0 <= j < metrics.len() ==> health_score(metrics[idx]) <= health_score(
                #[trigger] metrics[j],
            )
        &&& forall|j: int|
            0 <= j < idx ==> health_score(metrics[idx]) < health_score(#[trigger] metrics[j])
    }
}

/// The score of one backend.
pub fn score(m: &TunnelMetrics) -> (s: u128)
    ensures
        s == health_score(*m),
{
    let rtt_us: u128 = match m.rtt {
        Some(rtt) => rtt.as_micros(),
        None => DEFAULT_RTT_US as u128,
    };
    proof {
        let errors = m.recent_errors as int;
        let active = m.active_connections as int;
        assert(0 <= errors * ERROR_PENALTY_US as int <= u32::MAX * 500_000) by (nonlinear_arith)
            requires
                0 <= errors <= u32::MAX,
                ERROR_PENALTY_US == 500_000,
        ;
        assert(0 <= active * LOAD_PENALTY_US as int <= u32::MAX * 10_000) by (nonlinear_arith)
            requires
                0 <= active <= u32::MAX,
                LOAD_PENALTY_US == 10_000,
        ;
    }
    let error_penalty: u128 = m.recent_errors as u128 * ERROR_PENALTY_US as u128;
    let load_penalty: u128 = m.active_connections as u128 * LOAD_PENALTY_US as u128;
    rtt_us + error_penalty + load_penalty
}

/// Score = `rtt_us + error_penalty * recent_errors + load_penalty *
/// active_connections`. Pick the lowest score.
#[derive(Debug, Clone, Copy)]
pub struct HealthWeighted;

impl HealthWeighted {
    /// Create a new health-weighted strategy.
    pub fn new() -> (s: Self)
        ensures
            s == HealthWeighted,
    {
        HealthWeighted
    }
}

impl Default for HealthWeighted {
    fn default() -> (s: Self)
        ensures
            s == HealthWeighted,
    {
        HealthWeighted
    }
}

impl BalanceStrategy for HealthWeighted {
    open spec fn state(&self) -> StrategyState {
        StrategyState::HealthWeighted
    }

    open spec fn valid(&self) -> bool {
        true
    }

    open spec fn can_pick(&self, addr: Seq<char>, metrics: Seq<TunnelMetrics>) -> bool {
        true
    }

    /// The first backend with the lowest score.
    open spec fn pick_step(
        &self,
        addr: Seq<char>,
        metrics: Seq<TunnelMetrics>,
        post: StrategyState,
        idx: int,
    ) -> bool {
        &&& is_healthiest(metrics, idx)
        &&& post == self.state()
    }

    open spec fn error_step(&self, idx: int, post: StrategyState) -> bool {
        post == self.state()
    }

    open spec fn success_step(&self, idx: int, post: StrategyState) -> bool {
        post == self.state()
    }

    open spec fn removal_step(&self, idx: int, post: StrategyState) -> bool {
        post == self.state()
    }

    fn pick(&mut self, view: &PoolView<'_>) -> (idx: usize) {
        let metrics: &[TunnelMetrics] = view.metrics;
        let mut best: usize = 0;
        if metrics.len() == 0 {
            return best;
        }
        let mut best_score: u128 = score(&metrics[0]);
        let mut i: usize = 1;
        while i < metrics.len()
            invariant
                1 <= i <= metrics@.len(),
                metrics == view.metrics,
                best < i,
                best_score == health_score(metrics@[best as int]),
                forall|j: int| 0 <= j < i ==> best_score <= health_score(#[trigger] metrics@[j]),
                forall|j: int| 0 <= j < best ==> best_score < health_score(#[trigger] metrics@[j]),
            decreases metrics.len() - i,
        {
            let s: u128 = score(&metrics[i]);
            if s < best_score {
                best_score = s;
                best = i;
            }
            i += 1;
        }
        best
    }

    fn name(&self) -> (name: &str)
        ensures
            name@ == STRATEGY_NAMES[7]@,
    {
        STRATEGY_NAMES[7]
    }

    fn report_error(&mut self, idx: usize) {
    }

    fn report_success(&mut self, idx: usize) {
    }

    fn backend_removed(&mut self, idx: usize) {
    }
}

/// One more recent error, like one more open connection, never makes a
/// backend look better.
pub proof fn health_score_grows_with_trouble(m: TunnelMetrics, worse: TunnelMetrics)
    requires
        worse.rtt == m.rtt,
        worse.recent_errors >= m.recent_errors,
        worse.active_connections >= m.active_connections,
    ensures
        health_score(worse) >= health_score(m),
        health_score(worse) == health_score(m) ==> worse.recent_errors == m.recent_errors
            && worse.active_connections == m.active_connections,
{
    vstd::arithmetic::mul::lemma_mul_inequality(
        m.recent_errors as int,
        worse.recent_errors as int,
        ERROR_PENALTY_US as int,
    );
    vstd::arithmetic::mul::lemma_mul_inequality(
        m.active_connections as int,
        worse.active_connections as int,
        LOAD_PENALTY_US as int,
    );
}

/// The RTT of a backend in whole microseconds, or a second if there is none.
pub open spec fn rtt_micros(m: TunnelMetrics) -> int {
    match m.rtt {
        Some(rtt) => duration_nanos(rtt) as int / 1_000,
        None => 1_000_000,
    }
}

/// The backend that is picked has the lowest score, and is the first that has:
/// a recent error weighs half a second of RTT, and an open connection ten
/// milliseconds.
pub proof fn the_lowest_score_is_picked(
    s: &mut HealthWeighted,
    view: &PoolView<'_>,
    idx: usize,
    j: int,
)
    requires
        call_ensures(HealthWeighted::pick, (s, view), idx),
        0 <= j < view.metrics@.len(),
    ensures
        idx < view.metrics@.len(),
        ({
            let best = view.metrics@[idx as int];
            let other = view.metrics@[j];
            let a = rtt_micros(best) + 500_000 * best.recent_errors + 10_000
                * best.active_connections;
            let b = rtt_micros(other) + 500_000 * other.recent_errors + 10_000
                * other.active_connections;
            &&& a <= b
            &&& j < idx ==> a < b
        }),
{
    let best = view.metrics@[idx as int];
    let other = view.metrics@[j];
    assert(health_score(best) <= health_score(other));
}

/// Of two backends whose RTTs are less than half a second apart, one with a
/// recent error is never picked over one without errors and connections; and
/// of two with the same RTT, never the one that is worse off in one respect
/// and no better in the other.
pub proof fn trouble_is_avoided(
    s: &mut HealthWeighted,
    view: &PoolView<'_>,
    idx: usize,
    j: int,
)
    requires
        call_ensures(HealthWeighted::pick, (s, view), idx),
        0 <= j < view.metrics@.len(),
    ensures
        ({
            let picked = view.metrics@[idx as int];
            let other = view.metrics@[j];
            &&& rtt_micros(other) - rtt_micros(picked) < 500_000 && other.recent_errors == 0
                && other.active_connections == 0 ==> picked.recent_errors == 0
            &&& other.rtt == picked.rtt && other.recent_errors <= picked.recent_errors
                && other.active_connections <= picked.active_connections ==> other.recent_errors
                == picked.recent_errors && other.active_connections == picked.active_connections
        }),
{
    the_lowest_score_is_picked(s, view, idx, j);
}

/// The score itself.
pub proof fn a_score_adds_up(m: &TunnelMetrics, points: u128)
    requires
        call_ensures(score, (m,), points),
    ensures
        points == rtt_micros(*m) + 500_000 * m.recent_errors + 10_000 * m.active_connections,
{
}

} // verus!
