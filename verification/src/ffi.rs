//! The balancer's C interface, without the pointers.
//!
//! Every function here takes what a C caller passes once its pointers are
//! read: a null pointer is `None`, an array is a slice, and a string is its
//! bytes without the terminating zero.

use std::time::Duration;

use vstd::prelude::*;
use vstd::utf8::{decode_utf8, valid_utf8};

use crate::constants::STRATEGY_NAMES;
use crate::duration::duration_nanos;
use crate::health::{after_dial_result, record_dial_result};
use crate::lists::copy_of;
use crate::strategies::weighted_round_robin::Schedule;
use crate::strategies::{
    Failover, HashByAddr, HealthWeighted, LeastConnections, LowestRtt, Random, RoundRobin, Sticky,
    Strategy, WeightedRoundRobin,
};
use crate::strategy::{BalanceStrategy, PoolView, StrategyState, TunnelMetrics};
use crate::text::text_from_utf8;

verus! {

/// Every load-balancing strategy exposed through the C interface.
#[derive(Clone, Copy, Debug)]
pub enum FfiStrategy {
    /// Number 0.
    RoundRobin,
    /// Number 1.
    Random,
    /// Number 2.
    LowestRtt,
    /// Number 3.
    LeastConnections,
    /// Number 4.
    HashByAddr,
    /// Number 5.
    WeightedRoundRobin,
    /// Number 6.
    Failover,
    /// Number 7.
    HealthWeighted,
    /// Number 8.
    Sticky,
}

impl FfiStrategy {
    /// The number by which C callers know the strategy.
    pub open spec fn number(self) -> int {
        match self {
            FfiStrategy::RoundRobin => 0,
            FfiStrategy::Random => 1,
            FfiStrategy::LowestRtt => 2,
            FfiStrategy::LeastConnections => 3,
            FfiStrategy::HashByAddr => 4,
            FfiStrategy::WeightedRoundRobin => 5,
            FfiStrategy::Failover => 6,
            FfiStrategy::HealthWeighted => 7,
            FfiStrategy::Sticky => 8,
        }
    }

    /// The strategy with this number.
    pub fn from_i32(n: i32) -> (kind: Option<Self>)
        ensures
            match kind {
                Some(k) => k.number() == n,
                None => n < 0 || n >= STRATEGY_NAMES.len(),
            },
    {
        match n {
            0 => Some(FfiStrategy::RoundRobin),
            1 => Some(FfiStrategy::Random),
            2 => Some(FfiStrategy::LowestRtt),
            3 => Some(FfiStrategy::LeastConnections),
            4 => Some(FfiStrategy::HashByAddr),
            5 => Some(FfiStrategy::WeightedRoundRobin),
            6 => Some(FfiStrategy::Failover),
            7 => Some(FfiStrategy::HealthWeighted),
            8 => Some(FfiStrategy::Sticky),
            _ => None,
        }
    }

    /// The strategy's name.
    pub fn name(self) -> (name: &'static str)
        ensures
            name@ == STRATEGY_NAMES[self.number()]@,
    {
        match self {
            FfiStrategy::RoundRobin => STRATEGY_NAMES[0],
            FfiStrategy::Random => STRATEGY_NAMES[1],
            FfiStrategy::LowestRtt => STRATEGY_NAMES[2],
            FfiStrategy::LeastConnections => STRATEGY_NAMES[3],
            FfiStrategy::HashByAddr => STRATEGY_NAMES[4],
            FfiStrategy::WeightedRoundRobin => STRATEGY_NAMES[5],
            FfiStrategy::Failover => STRATEGY_NAMES[6],
            FfiStrategy::HealthWeighted => STRATEGY_NAMES[7],
            FfiStrategy::Sticky => STRATEGY_NAMES[8],
        }
    }

    /// `strategy` is of this kind.
    pub open spec fn is_kind_of(self, strategy: Strategy) -> bool {
        match self {
            FfiStrategy::RoundRobin => strategy is RoundRobin,
            FfiStrategy::Random => strategy is Random,
            FfiStrategy::LowestRtt => strategy is LowestRtt,
            FfiStrategy::LeastConnections => strategy is LeastConnections,
            FfiStrategy::HashByAddr => strategy is HashByAddr,
            FfiStrategy::WeightedRoundRobin => strategy is WeightedRoundRobin,
            FfiStrategy::Failover => strategy is Failover,
            FfiStrategy::HealthWeighted => strategy is HealthWeighted,
            FfiStrategy::Sticky => strategy is Sticky,
        }
    }

    /// `strategy` is of this kind, for so many backends, and was not used yet.
    pub open spec fn is_fresh(self, strategy: Strategy, backend_count: nat) -> bool {
        &&& self.is_kind_of(strategy)
        &&& strategy.valid()
        &&& strategy matches Strategy::RoundRobin(s) ==> s.cursor() == 0
        &&& strategy matches Strategy::WeightedRoundRobin(s) ==> s@ == Schedule::empty()
        &&& strategy matches Strategy::Failover(s) ==> s.primary() == 0 && s.pool_size()
            == backend_count
        &&& strategy matches Strategy::Sticky(s) ==> s.pin() is None
    }

    /// A strategy of this kind for so many backends.
    pub fn build(self, backend_count: usize) -> (strategy: Strategy)
        ensures
            self.is_fresh(strategy, backend_count as nat),
    {
        match self {
            FfiStrategy::RoundRobin => Strategy::RoundRobin(RoundRobin::new()),
            FfiStrategy::Random => Strategy::Random(Random::new()),
            FfiStrategy::LowestRtt => Strategy::LowestRtt(LowestRtt::new()),
            FfiStrategy::LeastConnections => Strategy::LeastConnections(LeastConnections::new()),
            FfiStrategy::HashByAddr => Strategy::HashByAddr(HashByAddr::new()),
            FfiStrategy::WeightedRoundRobin => Strategy::WeightedRoundRobin(WeightedRoundRobin::new()),
            FfiStrategy::Failover => Strategy::Failover(Failover::with_backend_count(backend_count)),
            FfiStrategy::HealthWeighted => Strategy::HealthWeighted(HealthWeighted::new()),
            FfiStrategy::Sticky => Strategy::Sticky(Sticky::new()),
        }
    }
}

/// Library version and ABI metadata.
#[derive(Clone, Copy, Debug, PartialEq, Eq, Structural)]
pub struct RotaVersion {
    /// Major version.
    pub major: u32,
    /// Minor version.
    pub minor: u32,
    /// Patch version.
    pub patch: u32,
    /// Expected size of the metric struct, in bytes.
    pub metric_struct_size: u32,
}

impl RotaVersion {
    /// The version of this library.
    pub open spec fn current() -> RotaVersion {
        RotaVersion { major: 0, minor: 1, patch: 0, metric_struct_size: 32 }
    }
}

/// Flat metric struct (32 bytes).
#[derive(Clone, Copy, Debug, PartialEq, Eq, Structural)]
pub struct FfiMetric {
    /// RTT in microseconds; 0 is unknown.
    pub rtt_us: u64,
    /// Open connections.
    pub active_connections: u32,
    /// Recent dial errors.
    pub recent_errors: u32,
    /// Successful dials.
    pub total_dials: u64,
    /// Failed dials.
    pub total_errors: u64,
}

impl FfiMetric {
    /// Nothing known.
    pub open spec fn zero() -> FfiMetric {
        FfiMetric {
            rtt_us: 0,
            active_connections: 0,
            recent_errors: 0,
            total_dials: 0,
            total_errors: 0,
        }
    }

    /// `t` says the same as this.
    pub open spec fn stands_for(self, t: TunnelMetrics) -> bool {
        &&& match t.rtt {
            Some(rtt) => self.rtt_us != 0 && duration_nanos(rtt) == self.rtt_us * 1_000,
            None => self.rtt_us == 0,
        }
        &&& t.active_connections == self.active_connections
        &&& t.recent_errors == self.recent_errors
        &&& t.total_dials == self.total_dials
        &&& t.total_errors == self.total_errors
    }

    /// What is written back for `t`. An RTT that does not fit is capped.
    pub open spec fn of(t: TunnelMetrics) -> FfiMetric {
        FfiMetric {
            rtt_us: match t.rtt {
                Some(rtt) => if duration_nanos(rtt) / 1_000 <= u64::MAX {
                    (duration_nanos(rtt) / 1_000) as u64
                } else {
                    u64::MAX
                },
                None => 0,
            },
            active_connections: t.active_connections,
            recent_errors: t.recent_errors,
            total_dials: t.total_dials,
            total_errors: t.total_errors,
        }
    }
}

/// The metrics a C caller passes, as the strategies read them.
pub fn ffi_to_tunnel(m: &FfiMetric) -> (t: TunnelMetrics)
    ensures
        m.stands_for(t),
{
    TunnelMetrics {
        rtt: if m.rtt_us == 0 {
            None
        } else {
            Some(Duration::from_micros(m.rtt_us))
        },
        active_connections: m.active_connections,
        recent_errors: m.recent_errors,
        total_dials: m.total_dials,
        total_errors: m.total_errors,
    }
}

/// The metrics that strategies read, as a C caller gets them back.
pub fn tunnel_to_ffi(t: &TunnelMetrics) -> (m: FfiMetric)
    ensures
        m == FfiMetric::of(*t),
{
    let rtt_us: u64 = match t.rtt {
        Some(rtt) => {
            let micros: u128 = rtt.as_micros();
            if micros <= u64::MAX as u128 {
                micros as u64
            } else {
                u64::MAX
            }
        },
        None => 0,
    };
    FfiMetric {
        rtt_us,
        active_connections: t.active_connections,
        recent_errors: t.recent_errors,
        total_dials: t.total_dials,
        total_errors: t.total_errors,
    }
}

/// What a C caller's handle stands for: a strategy, and the metrics of the
/// latest selection.
#[derive(Debug)]
pub struct FfiLoadBalancer {
    strategy: Strategy,
    backend_count: usize,
    strategy_kind: FfiStrategy,
    scratch: Vec<TunnelMetrics>,
}

/// What a handle holds.
pub struct FfiView {
    pub strategy: Strategy,
    pub backend_count: nat,
    pub kind: FfiStrategy,
    pub scratch: Seq<TunnelMetrics>,
}

impl View for FfiLoadBalancer {
    type V = FfiView;

    closed spec fn view(&self) -> FfiView {
        FfiView {
            strategy: self.strategy,
            backend_count: self.backend_count as nat,
            kind: self.strategy_kind,
            scratch: self.scratch@,
        }
    }
}

impl FfiView {
    /// There are backends, and the strategy is of the kind it is said to be.
    pub open spec fn wf(self) -> bool {
        &&& 0 < self.backend_count <= u32::MAX
        &&& self.kind.is_kind_of(self.strategy)
        &&& self.strategy.valid()
        &&& self.strategy matches Strategy::Failover(s) ==> s.pool_size() > 0
        &&& self.scratch.len() <= self.backend_count
    }

    /// The arguments of a selection are good: an address in UTF-8, and
    /// metrics for every backend.
    pub open spec fn accepts(self, dial_addr: Seq<u8>, n: u32) -> bool {
        valid_utf8(dial_addr) && n == self.backend_count
    }
}

/// `tunnels` says the same as `metrics`, entry by entry.
pub open spec fn stand_for(metrics: Seq<FfiMetric>, tunnels: Seq<TunnelMetrics>) -> bool {
    &&& tunnels.len() == metrics.len()
    &&& forall|i: int| 0 <= i < metrics.len() ==> metrics[i].stands_for(#[trigger] tunnels[i])
}

impl FfiLoadBalancer {
    /// How many backends the handle was created for.
    pub fn backend_count(&self) -> (n: usize)
        ensures
            n == self@.backend_count,
    {
        self.backend_count
    }
}

/// Write version metadata into a caller-provided buffer.
///
/// Returns 0 on success, -1 if there is no buffer.
pub fn rota_lb_version(out: Option<&mut RotaVersion>) -> (rc: i32)
    ensures
        rc == (if out is Some { 0int } else { -1 }),
        out matches Some(v) ==> *final(v) == RotaVersion::current(),
{
    match out {
        Some(v) => {
            *v = RotaVersion { major: 0, minor: 1, patch: 0, metric_struct_size: 32 };
            0
        },
        None => -1,
    }
}

/// Create a load balancer. Returns `None` without backends, or if the strategy
/// is unknown.
pub fn rota_lb_create(n: u32, strategy_kind: i32) -> (lb: Option<FfiLoadBalancer>)
    ensures
        match lb {
            Some(lb) => {
                &&& n > 0
                &&& lb@.wf()
                &&& lb@.backend_count == n
                &&& lb@.kind.number() == strategy_kind
                &&& lb@.kind.is_fresh(lb@.strategy, n as nat)
                &&& lb@.scratch == Seq::<TunnelMetrics>::empty()
            },
            None => n == 0 || strategy_kind < 0 || strategy_kind >= STRATEGY_NAMES.len(),
        },
{
    if n == 0 {
        return None;
    }
    match FfiStrategy::from_i32(strategy_kind) {
        Some(kind) => {
            let strategy = kind.build(n as usize);
            Some(
                FfiLoadBalancer {
                    strategy,
                    backend_count: n as usize,
                    strategy_kind: kind,
                    scratch: Vec::new(),
                },
            )
        },
        None => None,
    }
}

/// Select a backend index. Returns an index in `[0, n)` on success, `u32::MAX`
/// on error.
pub fn rota_lb_select(
    lb: Option<&mut FfiLoadBalancer>,
    dial_addr: Option<&[u8]>,
    metrics: Option<&[FfiMetric]>,
    n: u32,
) -> (idx: u32)
    requires
        lb matches Some(h) ==> {
            &&& h@.wf()
            &&& dial_addr is Some && metrics is Some && h@.accepts(dial_addr->0@, n) ==> {
                &&& metrics->0@.len() == n
                &&& forall|tunnels: Seq<TunnelMetrics>|
                    stand_for(metrics->0@, tunnels) ==> #[trigger] h@.strategy.can_pick(
                        decode_utf8(dial_addr->0@),
                        tunnels,
                    )
            }
        },
    ensures
        lb is None ==> idx == u32::MAX,
        lb matches Some(h) ==> {
            &&& final(h)@.wf()
            &&& if dial_addr is Some && metrics is Some && h@.accepts(dial_addr->0@, n) {
                &&& idx < n
                &&& stand_for(metrics->0@, final(h)@.scratch)
                &&& h@.strategy.pick_step(
                    decode_utf8(dial_addr->0@),
                    final(h)@.scratch,
                    final(h)@.strategy.state(),
                    idx as int,
                )
                &&& final(h)@.backend_count == h@.backend_count
                &&& final(h)@.kind == h@.kind
            } else {
                idx == u32::MAX && final(h)@ == h@
            }
        },
{
    match (lb, dial_addr, metrics) {
        (Some(lb), Some(dial_addr), Some(metrics)) => select_impl(lb, dial_addr, metrics, n),
        _ => u32::MAX,
    }
}

/// A selection with all its arguments there.
fn select_impl(
    lb: &mut FfiLoadBalancer,
    dial_addr: &[u8],
    metrics: &[FfiMetric],
    n: u32,
) -> (idx: u32)
    requires
        old(lb)@.wf(),
        old(lb)@.accepts(dial_addr@, n) ==> {
            &&& metrics@.len() == n
            &&& forall|tunnels: Seq<TunnelMetrics>|
                stand_for(metrics@, tunnels) ==> #[trigger] old(lb)@.strategy.can_pick(
                    decode_utf8(dial_addr@),
                    tunnels,
                )
        },
    ensures
        final(lb)@.wf(),
        if old(lb)@.accepts(dial_addr@, n) {
            &&& idx < n
            &&& stand_for(metrics@, final(lb)@.scratch)
            &&& old(lb)@.strategy.pick_step(
                decode_utf8(dial_addr@),
                final(lb)@.scratch,
                final(lb)@.strategy.state(),
                idx as int,
            )
            &&& final(lb)@.backend_count == old(lb)@.backend_count
            &&& final(lb)@.kind == old(lb)@.kind
        } else {
            idx == u32::MAX && final(lb)@ == old(lb)@
        },
{
    let addr = match text_from_utf8(copy_of(dial_addr)) {
        Ok(text) => text,
        Err(_) => {
            return u32::MAX;
        },
    };
    if n as usize != lb.backend_count {
        return u32::MAX;
    }
    lb.scratch.clear();
    let mut i: usize = 0;
    while i < metrics.len()
        invariant
            i <= metrics@.len(),
            metrics@.len() == n,
            lb.strategy == old(lb).strategy,
            lb.backend_count == old(lb).backend_count,
            lb.strategy_kind == old(lb).strategy_kind,
            lb.scratch@.len() == i,
            forall|j: int| 0 <= j < i ==> metrics@[j].stands_for(#[trigger] lb.scratch@[j]),
        decreases metrics.len() - i,
    {
        lb.scratch.push(ffi_to_tunnel(&metrics[i]));
        i += 1;
    }
    assert(stand_for(metrics@, lb.scratch@));
    let picked: usize = {
        let view = PoolView { dial_addr: addr.as_str(), metrics: lb.scratch.as_slice() };
        lb.strategy.pick(&view)
    };
    picked as u32
}

/// The metrics of the latest selection, once an error on backend `idx` was
/// reported. Only for a strategy that scores by errors does the report show in
/// them; the others keep them as the caller passed them in.
pub open spec fn scratch_after_error(
    kind: FfiStrategy,
    scratch: Seq<TunnelMetrics>,
    idx: int,
) -> Seq<TunnelMetrics> {
    if kind is HealthWeighted && 0 <= idx < scratch.len() {
        scratch.update(idx, after_dial_result(scratch[idx], false))
    } else {
        scratch
    }
}

/// Report a dial error. Rotates the failover primary, and updates the metrics
/// that the health score is made from.
pub fn rota_lb_report_error(lb: Option<&mut FfiLoadBalancer>, idx: u32)
    requires
        lb matches Some(h) ==> h@.wf(),
    ensures
        lb matches Some(h) ==> {
            &&& final(h)@.wf()
            &&& h@.strategy.error_step(idx as int, final(h)@.strategy.state())
            &&& final(h)@ == (FfiView {
                strategy: final(h)@.strategy,
                scratch: scratch_after_error(h@.kind, h@.scratch, idx as int),
                ..h@
            })
        },
{
    match lb {
        Some(lb) => {
            lb.strategy.report_error(idx as usize);
            match lb.strategy_kind {
                FfiStrategy::HealthWeighted => {
                    record_dial_result(lb.scratch.as_mut_slice(), idx as usize, false);
                },
                _ => {},
            }
        },
        None => {},
    }
}

/// Report a successful dial.
pub fn rota_lb_report_success(lb: Option<&mut FfiLoadBalancer>, idx: u32)
    requires
        lb matches Some(h) ==> h@.wf(),
    ensures
        lb matches Some(h) ==> {
            &&& final(h)@.wf()
            &&& h@.strategy.success_step(idx as int, final(h)@.strategy.state())
            &&& final(h)@ == (FfiView { strategy: final(h)@.strategy, ..h@ })
        },
{
    match lb {
        Some(lb) => {
            lb.strategy.report_success(idx as usize);
        },
        None => {},
    }
}

/// Get the human-readable strategy name; the first one without a handle.
pub fn rota_lb_strategy_name(lb: Option<&FfiLoadBalancer>) -> (name: &'static str)
    ensures
        name@ == (match lb {
            Some(h) => STRATEGY_NAMES[h@.kind.number()]@,
            None => STRATEGY_NAMES[0]@,
        }),
{
    match lb {
        Some(lb) => lb.strategy_kind.name(),
        None => STRATEGY_NAMES[0],
    }
}

/// What is read back for backend `i`.
pub open spec fn readback(scratch: Seq<TunnelMetrics>, i: int) -> FfiMetric {
    if 0 <= i < scratch.len() {
        FfiMetric::of(scratch[i])
    } else {
        FfiMetric::zero()
    }
}

/// Read the current per-backend metrics back into a caller buffer.
///
/// If nothing was selected yet, or the load balancer was just reset, the
/// buffer is filled with zeros. Returns 0 on success, -1 on invalid arguments.
pub fn rota_lb_metrics(lb: Option<&FfiLoadBalancer>, out: Option<&mut [FfiMetric]>) -> (rc: i32)
    ensures
        rc == (if lb is Some && out is Some { 0int } else { -1 }),
        out matches Some(o) ==> {
            &&& final(o)@.len() == o@.len()
            &&& forall|i: int|
                0 <= i < o@.len() ==> #[trigger] final(o)@[i] == (match lb {
                    Some(h) => readback(h@.scratch, i),
                    None => o@[i],
                })
        },
{
    match (lb, out) {
        (Some(lb), Some(out)) => {
            let mut i: usize = 0;
            let ghost n = out@.len();
            while i < out.len()
                invariant
                    i <= out@.len(),
                    out@.len() == n,
                    forall|j: int| 0 <= j < i ==> #[trigger] out@[j] == readback(lb.scratch@, j),
                decreases out.len() - i,
            {
                if i < lb.scratch.len() {
                    out[i] = tunnel_to_ffi(&lb.scratch[i]);
                } else {
                    out[i] = FfiMetric {
                        rtt_us: 0,
                        active_connections: 0,
                        recent_errors: 0,
                        total_dials: 0,
                        total_errors: 0,
                    };
                }
                i += 1;
            }
            0
        },
        _ => -1,
    }
}

/// Hot-swap the strategy on an existing load balancer. The new strategy starts
/// fresh.
///
/// Returns 0 on success, -1 if there is no handle or the strategy is unknown;
/// nothing changes then.
pub fn rota_lb_set_strategy(lb: Option<&mut FfiLoadBalancer>, strategy_kind: i32) -> (rc: i32)
    requires
        lb matches Some(h) ==> h@.wf(),
    ensures
        rc == 0 || rc == -1,
        rc == 0 <==> lb is Some && 0 <= strategy_kind < STRATEGY_NAMES.len(),
        lb matches Some(h) ==> {
            &&& final(h)@.wf()
            &&& if rc == 0 {
                &&& final(h)@.kind.number() == strategy_kind
                &&& final(h)@.kind.is_fresh(final(h)@.strategy, h@.backend_count)
                &&& final(h)@.backend_count == h@.backend_count
                &&& final(h)@.scratch == h@.scratch
            } else {
                final(h)@ == h@
            }
        },
{
    match lb {
        Some(lb) => match FfiStrategy::from_i32(strategy_kind) {
            Some(kind) => {
                lb.strategy = kind.build(lb.backend_count);
                lb.strategy_kind = kind;
                0
            },
            None => -1,
        },
        None => -1,
    }
}

/// Reset the strategy's internal state, and forget the metrics of the latest
/// selection. The strategy kind itself is unchanged.
///
/// Returns 0 on success, -1 if there is no handle.
pub fn rota_lb_reset(lb: Option<&mut FfiLoadBalancer>) -> (rc: i32)
    requires
        lb matches Some(h) ==> h@.wf(),
    ensures
        rc == (if lb is Some { 0int } else { -1 }),
        lb matches Some(h) ==> {
            &&& final(h)@.wf()
            &&& final(h)@.kind == h@.kind
            &&& final(h)@.kind.is_fresh(final(h)@.strategy, h@.backend_count)
            &&& final(h)@.backend_count == h@.backend_count
            &&& final(h)@.scratch == Seq::<TunnelMetrics>::empty()
        },
{
    match lb {
        Some(lb) => {
            lb.strategy = lb.strategy_kind.build(lb.backend_count);
            lb.scratch.clear();
            0
        },
        None => -1,
    }
}

/// What a caller passes to a selection is what it reads back.
pub proof fn readback_returns_what_was_passed(
    metrics: Seq<FfiMetric>,
    scratch: Seq<TunnelMetrics>,
    i: int,
)
    requires
        stand_for(metrics, scratch),
        0 <= i < metrics.len(),
    ensures
        readback(scratch, i) == metrics[i],
{
    assert(metrics[i].stands_for(scratch[i]));
}

/// Before anything was selected, and after a reset, everything reads as zero.
pub proof fn readback_starts_at_zero(i: int)
    ensures
        readback(Seq::<TunnelMetrics>::empty(), i) == FfiMetric::zero(),
{
}

/// The name under which a handle's strategy is known is the strategy's own.
pub proof fn names_agree(lb: FfiView)
    requires
        lb.wf(),
    ensures
        lb.kind.number() == lb.strategy.number(),
{
}

/// No two strategies have the same number.
pub proof fn numbers_are_distinct(a: FfiStrategy, b: FfiStrategy)
    requires
        a.number() == b.number(),
    ensures
        a == b,
{
}

/// A reset load balancer is as good as new: on the first selection it picks
/// what a newly created one of the same kind and size may pick.
pub proof fn reset_is_as_good_as_new(
    reset: FfiView,
    created: FfiView,
    addr: Seq<char>,
    metrics: Seq<TunnelMetrics>,
    post: StrategyState,
    idx: int,
)
    requires
        reset.wf(),
        created.wf(),
        reset.kind == created.kind,
        reset.backend_count == created.backend_count,
        reset.kind.is_fresh(reset.strategy, reset.backend_count),
        created.kind.is_fresh(created.strategy, created.backend_count),
        reset.strategy.pick_step(addr, metrics, post, idx),
    ensures
        created.strategy.pick_step(addr, metrics, post, idx),
{
}

/// The library says of itself that it is version 0.1.0, with metrics of 32
/// bytes.
pub proof fn the_version_is_written(out: &mut RotaVersion, rc: i32, without: i32)
    requires
        call_ensures(rota_lb_version, (Some(out),), rc),
        call_ensures(rota_lb_version, (None,), without),
    ensures
        rc == 0,
        without == -1,
        final(out).major == 0,
        final(out).minor == 1,
        final(out).patch == 0,
        final(out).metric_struct_size == 32,
{
}

/// The numbers by which C callers know the strategies.
pub proof fn strategies_by_number(n: i32, kind: Option<FfiStrategy>)
    requires
        call_ensures(FfiStrategy::from_i32, (n,), kind),
    ensures
        n == 0 ==> kind == Some(FfiStrategy::RoundRobin),
        n == 1 ==> kind == Some(FfiStrategy::Random),
        n == 2 ==> kind == Some(FfiStrategy::LowestRtt),
        n == 3 ==> kind == Some(FfiStrategy::LeastConnections),
        n == 4 ==> kind == Some(FfiStrategy::HashByAddr),
        n == 5 ==> kind == Some(FfiStrategy::WeightedRoundRobin),
        n == 6 ==> kind == Some(FfiStrategy::Failover),
        n == 7 ==> kind == Some(FfiStrategy::HealthWeighted),
        n == 8 ==> kind == Some(FfiStrategy::Sticky),
        n < 0 || n > 8 ==> kind is None,
{
}

/// The names by which C callers know the strategies.
pub proof fn strategies_by_name(kind: FfiStrategy, name: &'static str)
    requires
        call_ensures(FfiStrategy::name, (kind,), name),
    ensures
        kind is RoundRobin ==> name@ == "round_robin"@,
        kind is Random ==> name@ == "random"@,
        kind is LowestRtt ==> name@ == "lowest_rtt"@,
        kind is LeastConnections ==> name@ == "least_connections"@,
        kind is HashByAddr ==> name@ == "hash_by_addr"@,
        kind is WeightedRoundRobin ==> name@ == "weighted_round_robin"@,
        kind is Failover ==> name@ == "failover"@,
        kind is HealthWeighted ==> name@ == "health_weighted"@,
        kind is Sticky ==> name@ == "sticky"@,
{
}

/// A strategy is of the kind that is asked for, and has not been used.
pub proof fn built_strategies_are_new(kind: FfiStrategy, backend_count: usize, strategy: Strategy)
    requires
        call_ensures(FfiStrategy::build, (kind, backend_count), strategy),
    ensures
        kind is RoundRobin ==> strategy is RoundRobin,
        kind is Random ==> strategy is Random,
        kind is LowestRtt ==> strategy is LowestRtt,
        kind is LeastConnections ==> strategy is LeastConnections,
        kind is HashByAddr ==> strategy is HashByAddr,
        kind is WeightedRoundRobin ==> strategy is WeightedRoundRobin,
        kind is Failover ==> strategy is Failover,
        kind is HealthWeighted ==> strategy is HealthWeighted,
        kind is Sticky ==> strategy is Sticky,
        strategy matches Strategy::RoundRobin(s) ==> s.cursor() == 0,
        strategy matches Strategy::WeightedRoundRobin(s) ==> s@.rtts.len() == 0,
        strategy matches Strategy::Failover(s) ==> s.primary() == 0 && s.pool_size()
            == backend_count,
        strategy matches Strategy::Sticky(s) ==> s.pin() is None,
{
}

/// A handle comes back exactly if there are backends and the strategy is known.
/// It is for so many backends, its strategy has that number and was not used,
/// and there are no metrics yet.
pub proof fn created_handles_are_new(n: u32, number: i32, lb: Option<FfiLoadBalancer>)
    requires
        call_ensures(rota_lb_create, (n, number), lb),
    ensures
        lb is Some <==> n > 0 && 0 <= number <= 8,
        lb matches Some(h) ==> {
            &&& h@.wf()
            &&& h@.backend_count == n
            &&& h@.scratch.len() == 0
            &&& number == 0 ==> h@.kind is RoundRobin && h@.strategy is RoundRobin
            &&& number == 1 ==> h@.kind is Random && h@.strategy is Random
            &&& number == 2 ==> h@.kind is LowestRtt && h@.strategy is LowestRtt
            &&& number == 3 ==> h@.kind is LeastConnections && h@.strategy is LeastConnections
            &&& number == 4 ==> h@.kind is HashByAddr && h@.strategy is HashByAddr
            &&& number == 5 ==> h@.kind is WeightedRoundRobin && h@.strategy is WeightedRoundRobin
            &&& number == 6 ==> h@.kind is Failover && h@.strategy is Failover
            &&& number == 7 ==> h@.kind is HealthWeighted && h@.strategy is HealthWeighted
            &&& number == 8 ==> h@.kind is Sticky && h@.strategy is Sticky
            &&& h@.strategy matches Strategy::RoundRobin(s) ==> s.cursor() == 0
            &&& h@.strategy matches Strategy::WeightedRoundRobin(s) ==> s@.rtts.len() == 0
            &&& h@.strategy matches Strategy::Failover(s) ==> s.primary() == 0 && s.pool_size()
                == n
            &&& h@.strategy matches Strategy::Sticky(s) ==> s.pin() is None
        },
{
}

/// Metrics from a C caller keep their numbers. An RTT of zero is an unknown
/// one, and any other counts microseconds.
pub proof fn metrics_keep_their_numbers(m: &FfiMetric, t: TunnelMetrics)
    requires
        call_ensures(ffi_to_tunnel, (m,), t),
    ensures
        m.rtt_us == 0 ==> t.rtt is None,
        m.rtt_us > 0 ==> (t.rtt matches Some(rtt) && duration_nanos(rtt) == m.rtt_us * 1_000),
        t.active_connections == m.active_connections,
        t.recent_errors == m.recent_errors,
        t.total_dials == m.total_dials,
        t.total_errors == m.total_errors,
{
}

/// And so do metrics on their way back. An RTT counts its whole microseconds,
/// as far as they fit.
pub proof fn returned_metrics_keep_their_numbers(t: &TunnelMetrics, m: FfiMetric)
    requires
        call_ensures(tunnel_to_ffi, (t,), m),
    ensures
        t.rtt is None ==> m.rtt_us == 0,
        t.rtt matches Some(rtt) ==> {
            let micros = duration_nanos(rtt) / 1_000;
            &&& micros <= 18_446_744_073_709_551_615 ==> m.rtt_us == micros
            &&& micros > 18_446_744_073_709_551_615 ==> m.rtt_us == 18_446_744_073_709_551_615
        },
        m.active_connections == t.active_connections,
        m.recent_errors == t.recent_errors,
        m.total_dials == t.total_dials,
        m.total_errors == t.total_errors,
{
}

/// A selection asks the strategy, with the address and the metrics that were
/// passed, and returns what it picks. The handle keeps its kind and size.
pub proof fn a_selection_asks_the_strategy(
    lb: &mut FfiLoadBalancer,
    dial_addr: &[u8],
    metrics: &[FfiMetric],
    n: u32,
    idx: u32,
    i: int,
)
    requires
        old(lb)@.wf(),
        valid_utf8(dial_addr@),
        n == old(lb)@.backend_count,
        metrics@.len() == n,
        call_ensures(rota_lb_select, (Some(lb), Some(dial_addr), Some(metrics), n), idx),
        0 <= i < n,
    ensures
        idx < n,
        old(lb)@.strategy.pick_step(
            decode_utf8(dial_addr@),
            final(lb)@.scratch,
            final(lb)@.strategy.state(),
            idx as int,
        ),
        final(lb)@.backend_count == n,
        final(lb)@.kind == old(lb)@.kind,
        final(lb)@.scratch.len() == n,
        metrics@[i].rtt_us == 0 ==> final(lb)@.scratch[i].rtt is None,
        metrics@[i].rtt_us > 0 ==> (final(lb)@.scratch[i].rtt matches Some(rtt)
            && duration_nanos(rtt) == metrics@[i].rtt_us * 1_000),
        final(lb)@.scratch[i].active_connections == metrics@[i].active_connections,
        final(lb)@.scratch[i].recent_errors == metrics@[i].recent_errors,
        final(lb)@.scratch[i].total_dials == metrics@[i].total_dials,
        final(lb)@.scratch[i].total_errors == metrics@[i].total_errors,
{
    assert(metrics@[i].stands_for(final(lb)@.scratch[i]));
}

/// A selection without an address or metrics, with an address that is no text,
/// or for another number of backends returns the largest `u32` and changes
/// nothing.
pub proof fn a_bad_selection_changes_nothing(
    lb: &mut FfiLoadBalancer,
    dial_addr: Option<&[u8]>,
    metrics: Option<&[FfiMetric]>,
    n: u32,
    idx: u32,
)
    requires
        old(lb)@.wf(),
        dial_addr is None || metrics is None || !valid_utf8(dial_addr->0@) || n != old(
            lb,
        )@.backend_count,
        call_ensures(rota_lb_select, (Some(lb), dial_addr, metrics, n), idx),
    ensures
        idx == 4_294_967_295,
        final(lb)@.strategy == old(lb)@.strategy,
        final(lb)@.backend_count == old(lb)@.backend_count,
        final(lb)@.kind == old(lb)@.kind,
        final(lb)@.scratch == old(lb)@.scratch,
{
}

/// Without a handle there is nothing to select from.
pub proof fn no_handle_no_selection(
    dial_addr: Option<&[u8]>,
    metrics: Option<&[FfiMetric]>,
    n: u32,
    idx: u32,
)
    requires
        call_ensures(rota_lb_select, (None, dial_addr, metrics, n), idx),
    ensures
        idx == 4_294_967_295,
{
}

/// The strategy hears of an error. In the metrics it shows only for a strategy
/// that scores by errors, as one more error on that backend.
pub proof fn a_reported_error_reaches_the_strategy(lb: &mut FfiLoadBalancer, idx: u32, i: int)
    requires
        old(lb)@.wf(),
        call_ensures(rota_lb_report_error, (Some(lb), idx), ()),
        0 <= i < old(lb)@.scratch.len(),
    ensures
        old(lb)@.strategy.error_step(idx as int, final(lb)@.strategy.state()),
        final(lb)@.backend_count == old(lb)@.backend_count,
        final(lb)@.kind == old(lb)@.kind,
        final(lb)@.scratch.len() == old(lb)@.scratch.len(),
        i != idx || !(old(lb)@.kind is HealthWeighted) ==> final(lb)@.scratch[i] == old(
            lb,
        )@.scratch[i],
        i == idx && old(lb)@.kind is HealthWeighted ==> {
            let before = old(lb)@.scratch[i];
            let after = final(lb)@.scratch[i];
            &&& after.rtt == before.rtt
            &&& after.active_connections == before.active_connections
            &&& after.total_dials == before.total_dials
            &&& before.recent_errors < u32::MAX ==> after.recent_errors == before.recent_errors
                + 1
            &&& before.total_errors < u64::MAX ==> after.total_errors == before.total_errors + 1
            &&& before.recent_errors == u32::MAX ==> after.recent_errors == u32::MAX
            &&& before.total_errors == u64::MAX ==> after.total_errors == u64::MAX
        },
{
}

/// The strategy hears of a success, and that is all.
pub proof fn a_reported_success_reaches_the_strategy(lb: &mut FfiLoadBalancer, idx: u32)
    requires
        old(lb)@.wf(),
        call_ensures(rota_lb_report_success, (Some(lb), idx), ()),
    ensures
        old(lb)@.strategy.success_step(idx as int, final(lb)@.strategy.state()),
        final(lb)@.backend_count == old(lb)@.backend_count,
        final(lb)@.kind == old(lb)@.kind,
        final(lb)@.scratch == old(lb)@.scratch,
{
}

/// A handle's name is that of its strategy; without one it is the first.
pub proof fn handles_go_by_their_strategy(lb: &FfiLoadBalancer, name: &'static str, without: &'static str)
    requires
        lb@.wf(),
        call_ensures(rota_lb_strategy_name, (Some(lb),), name),
        call_ensures(rota_lb_strategy_name, (None,), without),
    ensures
        lb@.strategy is RoundRobin ==> name@ == "round_robin"@,
        lb@.strategy is Random ==> name@ == "random"@,
        lb@.strategy is LowestRtt ==> name@ == "lowest_rtt"@,
        lb@.strategy is LeastConnections ==> name@ == "least_connections"@,
        lb@.strategy is HashByAddr ==> name@ == "hash_by_addr"@,
        lb@.strategy is WeightedRoundRobin ==> name@ == "weighted_round_robin"@,
        lb@.strategy is Failover ==> name@ == "failover"@,
        lb@.strategy is HealthWeighted ==> name@ == "health_weighted"@,
        lb@.strategy is Sticky ==> name@ == "sticky"@,
        without@ == "round_robin"@,
{
}

/// What is read back are the metrics of the latest selection, and zeros past
/// their end.
pub proof fn the_latest_metrics_are_read_back(
    lb: &FfiLoadBalancer,
    out: &mut [FfiMetric],
    rc: i32,
    i: int,
)
    requires
        call_ensures(rota_lb_metrics, (Some(lb), Some(out)), rc),
        0 <= i < old(out)@.len(),
    ensures
        rc == 0,
        final(out)@.len() == old(out)@.len(),
        i < lb@.scratch.len() ==> {
            let t = lb@.scratch[i];
            let m = final(out)@[i];
            &&& t.rtt is None ==> m.rtt_us == 0
            &&& t.rtt matches Some(rtt) ==> duration_nanos(rtt) / 1_000
                <= 18_446_744_073_709_551_615 ==> m.rtt_us == duration_nanos(rtt) / 1_000
            &&& m.active_connections == t.active_connections
            &&& m.recent_errors == t.recent_errors
            &&& m.total_dials == t.total_dials
            &&& m.total_errors == t.total_errors
        },
        i >= lb@.scratch.len() ==> {
            let m = final(out)@[i];
            &&& m.rtt_us == 0
            &&& m.active_connections == 0
            &&& m.recent_errors == 0
            &&& m.total_dials == 0
            &&& m.total_errors == 0
        },
{
    assert(final(out)@[i] == readback(lb@.scratch, i));
}

/// Without a handle or a buffer nothing is read back.
pub proof fn nothing_is_read_without_both(
    lb: Option<&FfiLoadBalancer>,
    out: &mut [FfiMetric],
    rc: i32,
    without: i32,
    i: int,
)
    requires
        call_ensures(rota_lb_metrics, (None, Some(out)), rc),
        call_ensures(rota_lb_metrics, (lb, None), without),
        0 <= i < old(out)@.len(),
    ensures
        rc == -1,
        without == -1,
        final(out)@.len() == old(out)@.len(),
        final(out)@[i] == old(out)@[i],
{
    assert(final(out)@[i] == old(out)@[i]);
}

/// A new strategy takes the place of the old one, unused. Size and metrics
/// stay. A number that stands for no strategy changes nothing.
pub proof fn a_swapped_strategy_is_new(lb: &mut FfiLoadBalancer, number: i32, rc: i32)
    requires
        old(lb)@.wf(),
        call_ensures(rota_lb_set_strategy, (Some(lb), number), rc),
    ensures
        rc == (if 0 <= number <= 8 {
            0int
        } else {
            -1
        }),
        final(lb)@.backend_count == old(lb)@.backend_count,
        final(lb)@.scratch == old(lb)@.scratch,
        rc == -1 ==> final(lb)@.strategy == old(lb)@.strategy && final(lb)@.kind == old(lb)@.kind,
        number == 0 ==> final(lb)@.kind is RoundRobin && final(lb)@.strategy is RoundRobin,
        number == 1 ==> final(lb)@.kind is Random && final(lb)@.strategy is Random,
        number == 2 ==> final(lb)@.kind is LowestRtt && final(lb)@.strategy is LowestRtt,
        number == 3 ==> final(lb)@.kind is LeastConnections && final(lb)@.strategy is LeastConnections,
        number == 4 ==> final(lb)@.kind is HashByAddr && final(lb)@.strategy is HashByAddr,
        number == 5 ==> final(lb)@.kind is WeightedRoundRobin && final(lb)@.strategy is WeightedRoundRobin,
        number == 6 ==> final(lb)@.kind is Failover && final(lb)@.strategy is Failover,
        number == 7 ==> final(lb)@.kind is HealthWeighted && final(lb)@.strategy is HealthWeighted,
        number == 8 ==> final(lb)@.kind is Sticky && final(lb)@.strategy is Sticky,
        rc == 0 ==> {
            &&& final(lb)@.strategy matches Strategy::RoundRobin(s) ==> s.cursor() == 0
            &&& final(lb)@.strategy matches Strategy::WeightedRoundRobin(s) ==> s@.rtts.len()
                == 0
            &&& final(lb)@.strategy matches Strategy::Failover(s) ==> s.primary() == 0
                && s.pool_size() == old(lb)@.backend_count
            &&& final(lb)@.strategy matches Strategy::Sticky(s) ==> s.pin() is None
        },
{
}

/// A reset keeps kind and size. The strategy is unused again, and no metrics
/// are left.
pub proof fn a_reset_handle_is_new(lb: &mut FfiLoadBalancer, rc: i32, without: i32)
    requires
        old(lb)@.wf(),
        call_ensures(rota_lb_reset, (Some(lb),), rc),
        call_ensures(rota_lb_reset, (None,), without),
    ensures
        rc == 0,
        without == -1,
        final(lb)@.kind == old(lb)@.kind,
        final(lb)@.backend_count == old(lb)@.backend_count,
        final(lb)@.scratch.len() == 0,
        final(lb)@.strategy matches Strategy::RoundRobin(s) ==> s.cursor() == 0,
        final(lb)@.strategy matches Strategy::WeightedRoundRobin(s) ==> s@.rtts.len() == 0,
        final(lb)@.strategy matches Strategy::Failover(s) ==> s.primary() == 0 && s.pool_size()
            == old(lb)@.backend_count,
        final(lb)@.strategy matches Strategy::Sticky(s) ==> s.pin() is None,
        old(lb)@.strategy is RoundRobin ==> final(lb)@.strategy is RoundRobin,
        old(lb)@.strategy is Random ==> final(lb)@.strategy is Random,
        old(lb)@.strategy is LowestRtt ==> final(lb)@.strategy is LowestRtt,
        old(lb)@.strategy is LeastConnections ==> final(lb)@.strategy is LeastConnections,
        old(lb)@.strategy is HashByAddr ==> final(lb)@.strategy is HashByAddr,
        old(lb)@.strategy is WeightedRoundRobin ==> final(lb)@.strategy is WeightedRoundRobin,
        old(lb)@.strategy is Failover ==> final(lb)@.strategy is Failover,
        old(lb)@.strategy is HealthWeighted ==> final(lb)@.strategy is HealthWeighted,
        old(lb)@.strategy is Sticky ==> final(lb)@.strategy is Sticky,
{
}

/// A handle knows how many backends it was created for.
pub proof fn handles_know_their_size(n: u32, number: i32, lb: FfiLoadBalancer, count: usize)
    requires
        call_ensures(rota_lb_create, (n, number), Some(lb)),
        call_ensures(FfiLoadBalancer::backend_count, (&lb,), count),
    ensures
        count == n,
{
}

} // verus!
