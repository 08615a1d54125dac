//! Round-robin with a share per backend.

use std::time::Duration;

use vstd::prelude::*;

use crate::constants::{calculate_weight, weight_of_millis, MIN_WEIGHT, STRATEGY_NAMES};
use crate::duration::duration_nanos;
use crate::lists::copy_of;
use crate::strategy::{
    is_history, lemma_shorter_history, picks_of, BalanceStrategy, PoolView, StrategyEvent,
    StrategyState, TunnelMetrics,
};

verus! {

/// An optional RTT, in nanoseconds.
pub open spec fn rtt_model(rtt: Option<Duration>) -> Option<nat> {
    match rtt {
        Some(d) => Some(duration_nanos(d)),
        None => None,
    }
}

/// The weight of a backend: `max(1, 1000 / rtt_ms)`, or 1 without an RTT.
pub open spec fn weight_of_rtt(rtt: Option<nat>) -> nat {
    match rtt {
        Some(nanos) => weight_of_millis(nanos / 1_000_000),
        None => MIN_WEIGHT as nat,
    }
}

/// The RTTs of a pool.
pub open spec fn pool_rtts(metrics: Seq<TunnelMetrics>) -> Seq<Option<nat>> {
    Seq::new(metrics.len(), |i: int| rtt_model(metrics[i].rtt))
}

/// What a weighted round-robin keeps between picks: the RTTs its weights come
/// from, and how often each backend was picked since those RTTs were seen.
pub struct Schedule {
    pub rtts: Seq<Option<nat>>,
    pub picks: Seq<nat>,
}

impl Schedule {
    /// Before any pool was seen.
    pub open spec fn empty() -> Schedule {
        Schedule { rtts: seq![], picks: seq![] }
    }

    /// A schedule for these RTTs with nothing picked yet.
    pub open spec fn fresh(rtts: Seq<Option<nat>>) -> Schedule {
        Schedule { rtts, picks: Seq::new(rtts.len(), |i: int| 0nat) }
    }

    /// One pick count per backend.
    pub open spec fn wf(self) -> bool {
        self.picks.len() == self.rtts.len()
    }

    /// The weight of backend `i`.
    pub open spec fn weight(self, i: int) -> nat {
        weight_of_rtt(self.rtts[i])
    }

    /// All the weights.
    pub open spec fn weights(self) -> Seq<nat> {
        Seq::new(self.rtts.len(), |i: int| self.weight(i))
    }

    /// The schedule a pick on `metrics` works with: this one while the RTTs
    /// are the same, a fresh one as soon as they are not.
    pub open spec fn refreshed(self, metrics: Seq<TunnelMetrics>) -> Schedule {
        if pool_rtts(metrics) == self.rtts {
            self
        } else {
            Schedule::fresh(pool_rtts(metrics))
        }
    }

    /// Backend `idx` has used the smallest part of its share, and is the
    /// first that has. Shares are compared as `picks / weight`.
    pub open spec fn is_next(self, idx: int) -> bool {
        &&& 0 <= idx < self.rtts.len()
        &&& forall|j: int|
            0 <= j < self.rtts.len() ==> self.picks[idx] * #[trigger] self.weight(j)
                <= self.picks[j] * self.weight(idx)
        &&& forall|j: int|
            0 <= j < idx ==> self.picks[idx] * #[trigger] self.weight(j) < self.picks[j]
                * self.weight(idx)
    }

    /// The schedule after one more pick of backend `idx`.
    pub open spec fn after(self, idx: int) -> Schedule {
        Schedule { rtts: self.rtts, picks: self.picks.update(idx, self.picks[idx] + 1) }
    }
}

/// Round-robin but weighted by inverse RTT. The fastest backend gets the
/// most slots, but the sequence walks through all of them in order — no
/// backend goes idle as long as there's any weight on it.
///
/// Weight = `max(1, 1000 / rtt_ms)`. Backends with no RTT get weight 1.
#[derive(Debug)]
pub struct WeightedRoundRobin {
    rtts: Vec<Option<Duration>>,
    weights: Vec<u32>,
    picks: Vec<u64>,
}

impl View for WeightedRoundRobin {
    type V = Schedule;

    closed spec fn view(&self) -> Schedule {
        Schedule {
            rtts: Seq::new(self.rtts@.len(), |i: int| rtt_model(self.rtts@[i])),
            picks: Seq::new(self.picks@.len(), |i: int| self.picks@[i] as nat),
        }
    }
}

/// Whether two optional RTTs are the same length of time.
fn same_rtt(a: Option<Duration>, b: Option<Duration>) -> (same: bool)
    ensures
        same == (rtt_model(a) == rtt_model(b)),
{
    match (a, b) {
        (Some(x), Some(y)) => x.as_nanos() == y.as_nanos(),
        (None, None) => true,
        _ => false,
    }
}

/// Whether a pool still has the RTTs in `rtts`.
fn same_rtts(metrics: &[TunnelMetrics], rtts: &Vec<Option<Duration>>) -> (same: bool)
    ensures
        same == (pool_rtts(metrics@) == Seq::new(rtts@.len(), |i: int| rtt_model(rtts@[i]))),
{
    let ghost pool = pool_rtts(metrics@);
    let ghost known = Seq::new(rtts@.len(), |i: int| rtt_model(rtts@[i]));
    if metrics.len() != rtts.len() {
        assert(pool.len() != known.len());
        return false;
    }
    let mut i: usize = 0;
    while i < metrics.len()
        invariant
            i <= metrics@.len(),
            metrics@.len() == rtts@.len(),
            pool == pool_rtts(metrics@),
            known == Seq::new(rtts@.len(), |i: int| rtt_model(rtts@[i])),
            forall|j: int| 0 <= j < i ==> pool[j] == known[j],
        decreases metrics.len() - i,
    {
        if !same_rtt(metrics[i].rtt, rtts[i]) {
            assert(pool[i as int] != known[i as int]);
            return false;
        }
        i += 1;
    }
    assert(pool =~= known);
    true
}

/// The RTTs of a pool, in order.
fn collect_rtts(metrics: &[TunnelMetrics]) -> (rtts: Vec<Option<Duration>>)
    ensures
        rtts@ == Seq::new(metrics@.len(), |i: int| metrics@[i].rtt),
{
    let mut rtts: Vec<Option<Duration>> = Vec::new();
    let mut i: usize = 0;
    while i < metrics.len()
        invariant
            i <= metrics@.len(),
            rtts@ == Seq::new(i as nat, |j: int| metrics@[j].rtt),
        decreases metrics.len() - i,
    {
        rtts.push(metrics[i].rtt);
        i += 1;
        assert(rtts@ =~= Seq::new(i as nat, |j: int| metrics@[j].rtt));
    }
    rtts
}

/// A weight is between 1 and 1000.
proof fn lemma_weight_bounds(rtt: Option<nat>)
    ensures
        1 <= weight_of_rtt(rtt) <= 1000,
{
    match rtt {
        Some(nanos) => {
            let millis = nanos / 1_000_000;
            let ms = if millis == 0 { 1 } else { millis };
            vstd::arithmetic::div_mod::lemma_div_is_ordered_by_denominator(1000, 1, ms as int);
        },
        None => {},
    }
}

/// Shares compare transitively: `a/wa < b/wb <= c/wc` gives `a/wa < c/wc`.
proof fn lemma_share_order(a: nat, wa: nat, b: nat, wb: nat, c: nat, wc: nat)
    requires
        wa > 0,
        wb > 0,
        wc > 0,
        a * wb < b * wa,
        b * wc <= c * wb,
    ensures
        a * wc < c * wa,
{
    assert((a * wb) * wc < (b * wa) * wc) by (nonlinear_arith)
        requires
            a * wb < b * wa,
            wc > 0,
    ;
    assert((b * wc) * wa <= (c * wb) * wa) by (nonlinear_arith)
        requires
            b * wc <= c * wb,
    ;
    assert((a * wc) * wb < (c * wa) * wb) by (nonlinear_arith)
        requires
            (a * wb) * wc < (b * wa) * wc,
            (b * wc) * wa <= (c * wb) * wa,
    ;
    assert(a * wc < c * wa) by (nonlinear_arith)
        requires
            (a * wc) * wb < (c * wa) * wb,
            wb > 0,
    ;
}

impl WeightedRoundRobin {
    /// Create a new weighted round-robin strategy.
    pub fn new() -> (s: Self)
        ensures
            s.valid(),
            s@ == Schedule::empty(),
    {
        let s = WeightedRoundRobin { rtts: Vec::new(), weights: Vec::new(), picks: Vec::new() };
        assert(s@.rtts =~= Schedule::empty().rtts);
        assert(s@.picks =~= Schedule::empty().picks);
        s
    }

    /// The cached weights are those of the known RTTs.
    pub closed spec fn weights_match(&self) -> bool {
        &&& self.weights@.len() == self.rtts@.len()
        &&& forall|i: int|
            0 <= i < self.weights@.len() ==> #[trigger] self.weights@[i] == weight_of_rtt(
                rtt_model(self.rtts@[i]),
            )
    }

    /// Recompute the weights for the current RTTs and start counting picks
    /// anew.
    fn rebuild(&mut self)
        ensures
            final(self).valid(),
            final(self)@ == Schedule::fresh(old(self)@.rtts),
    {
        self.weights.clear();
        self.picks.clear();
        let mut i: usize = 0;
        while i < self.rtts.len()
            invariant
                i <= self.rtts@.len(),
                self.rtts == old(self).rtts,
                self.weights@.len() == i,
                self.picks@.len() == i,
                forall|j: int|
                    0 <= j < i ==> #[trigger] self.weights@[j] == weight_of_rtt(
                        rtt_model(self.rtts@[j]),
                    ),
                forall|j: int| 0 <= j < i ==> #[trigger] self.picks@[j] == 0,
            decreases self.rtts.len() - i,
        {
            let weight: u32 = match self.rtts[i] {
                Some(rtt) => calculate_weight(rtt),
                None => MIN_WEIGHT,
            };
            self.weights.push(weight);
            self.picks.push(0);
            i += 1;
        }
        assert(self@.picks =~= Schedule::fresh(old(self)@.rtts).picks);
        assert(self@.rtts =~= old(self)@.rtts);
    }

    /// The backend that has used the smallest part of its share.
    fn next_slot(&self) -> (best: usize)
        requires
            self.valid(),
            self@.rtts.len() > 0,
        ensures
            self@.is_next(best as int),
    {
        let n: usize = self.weights.len();
        let mut best: usize = 0;
        let mut i: usize = 1;
        let ghost s = self@;
        proof {
            assert(s.picks[0] * s.weight(0) <= s.picks[0] * s.weight(0));
        }
        while i < n
            invariant
                self.valid(),
                s == self@,
                n == s.rtts.len(),
                n == self.weights@.len(),
                best < i <= n,
                forall|j: int|
                    0 <= j < i ==> s.picks[best as int] * #[trigger] s.weight(j) <= s.picks[j]
                        * s.weight(best as int),
                forall|j: int|
                    0 <= j < best ==> s.picks[best as int] * #[trigger] s.weight(j) < s.picks[j]
                        * s.weight(best as int),
            decreases n - i,
        {
            let ghost b = best as int;
            let ghost k = i as int;
            proof {
                lemma_weight_bounds(s.rtts[b]);
                lemma_weight_bounds(s.rtts[k]);
                assert(self.weights@[b] == s.weight(b));
                assert(self.weights@[k] == s.weight(k));
                assert(0 <= s.picks[k] * s.weight(b) <= u64::MAX * 1000) by (nonlinear_arith)
                    requires
                        s.picks[k] <= u64::MAX,
                        s.weight(b) <= 1000,
                ;
                assert(0 <= s.picks[b] * s.weight(k) <= u64::MAX * 1000) by (nonlinear_arith)
                    requires
                        s.picks[b] <= u64::MAX,
                        s.weight(k) <= 1000,
                ;
            }
            let mine: u128 = self.picks[i] as u128 * self.weights[best] as u128;
            let theirs: u128 = self.picks[best] as u128 * self.weights[i] as u128;
            if mine < theirs {
                proof {
                    assert forall|j: int| 0 <= j < k implies s.picks[k] * #[trigger] s.weight(j)
                        < s.picks[j] * s.weight(k) by {
                        lemma_weight_bounds(s.rtts[j]);
                        lemma_share_order(
                            s.picks[k],
                            s.weight(k),
                            s.picks[b],
                            s.weight(b),
                            s.picks[j],
                            s.weight(j),
                        );
                    }
                }
                best = i;
            }
            i += 1;
        }
        best
    }
}

impl Default for WeightedRoundRobin {
    fn default() -> (s: Self)
        ensures
            s.valid(),
            s@ == Schedule::empty(),
    {
        WeightedRoundRobin::new()
    }
}

impl Clone for WeightedRoundRobin {
    fn clone(&self) -> (copy: Self)
        ensures
            copy@ == self@,
            self.valid() ==> copy.valid(),
    {
        let copy = WeightedRoundRobin {
            rtts: copy_of(self.rtts.as_slice()),
            weights: copy_of(self.weights.as_slice()),
            picks: copy_of(self.picks.as_slice()),
        };
        assert(copy@.rtts =~= self@.rtts);
        assert(copy@.picks =~= self@.picks);
        copy
    }
}

impl BalanceStrategy for WeightedRoundRobin {
    open spec fn state(&self) -> StrategyState {
        StrategyState::WeightedRoundRobin(self@)
    }

    open spec fn valid(&self) -> bool {
        &&& self.weights_match()
        &&& self@.wf()
    }

    /// The pick counts are 64 bits wide.
    open spec fn can_pick(&self, addr: Seq<char>, metrics: Seq<TunnelMetrics>) -> bool {
        let s = self@.refreshed(metrics);
        forall|idx: int| #[trigger] s.is_next(idx) ==> s.picks[idx] < u64::MAX
    }

    /// The next slot of the schedule for the pool's RTTs; 0 in an empty pool.
    open spec fn pick_step(
        &self,
        addr: Seq<char>,
        metrics: Seq<TunnelMetrics>,
        post: StrategyState,
        idx: int,
    ) -> bool {
        let s = self@.refreshed(metrics);
        if metrics.len() == 0 {
            idx == 0 && post == StrategyState::WeightedRoundRobin(s)
        } else {
            s.is_next(idx) && post == StrategyState::WeightedRoundRobin(s.after(idx))
        }
    }

    open spec fn error_step(&self, idx: int, post: StrategyState) -> bool {
        post == self.state()
    }

    open spec fn success_step(&self, idx: int, post: StrategyState) -> bool {
        post == self.state()
    }

    open spec fn removal_step(&self, idx: int, post: StrategyState) -> bool {
        post == self.state()
    }

    fn pick(&mut self, view: &PoolView<'_>) -> (idx: usize) {
        let ghost metrics = view.metrics@;
        let ghost s = old(self)@.refreshed(metrics);
        if !same_rtts(view.metrics, &self.rtts) {
            self.rtts = collect_rtts(view.metrics);
            proof {
                assert(self@.rtts =~= pool_rtts(metrics));
            }
            self.rebuild();
        }
        assert(self@ == s);
        assert(s.rtts == pool_rtts(metrics));
        if self.weights.len() == 0 {
            return 0;
        }
        let best: usize = self.next_slot();
        assert(s.is_next(best as int));
        assert(s.picks[best as int] == self.picks@[best as int]);
        let count: u64 = self.picks[best];
        self.picks.set(best, count + 1);
        assert(self@.picks =~= s.after(best as int).picks);
        assert(self@.rtts =~= s.rtts);
        best
    }

    fn name(&self) -> (name: &str)
        ensures
            name@ == STRATEGY_NAMES[5]@,
    {
        STRATEGY_NAMES[5]
    }

    fn report_error(&mut self, idx: usize) {
    }

    fn report_success(&mut self, idx: usize) {
    }

    fn backend_removed(&mut self, idx: usize) {
    }
}

/// The sum of a sequence of numbers.
pub open spec fn total(s: Seq<nat>) -> nat
    decreases s.len(),
{
    if s.len() == 0 {
        0
    } else {
        total(s.drop_last()) + s.last()
    }
}

/// How many of the picks in `idxs` went to backend `i`.
pub open spec fn hits(idxs: Seq<int>, i: int) -> nat
    decreases idxs.len(),
{
    if idxs.len() == 0 {
        0
    } else {
        hits(idxs.drop_last(), i) + (if idxs.last() == i { 1nat } else { 0nat })
    }
}

/// Raising one entry by one raises the sum by one.
proof fn lemma_total_update(s: Seq<nat>, i: int)
    requires
        0 <= i < s.len(),
    ensures
        total(s.update(i, s[i] + 1)) == total(s) + 1,
    decreases s.len(),
{
    let t = s.update(i, s[i] + 1);
    if i == s.len() - 1 {
        assert(t.drop_last() =~= s.drop_last());
    } else {
        lemma_total_update(s.drop_last(), i);
        assert(t.drop_last() =~= s.drop_last().update(i, s[i] + 1));
    }
}

/// A sequence that is nowhere below `k` times another sums to at least `k`
/// times its sum.
proof fn lemma_total_at_least(a: Seq<nat>, w: Seq<nat>, k: nat)
    requires
        a.len() == w.len(),
        forall|i: int| 0 <= i < a.len() ==> k * #[trigger] w[i] <= a[i],
    ensures
        k * total(w) <= total(a),
    decreases a.len(),
{
    if a.len() > 0 {
        let last = a.len() - 1;
        assert forall|i: int| 0 <= i < last implies k * #[trigger] w.drop_last()[i]
            <= a.drop_last()[i] by {
            assert(k * w[i] <= a[i]);
        }
        lemma_total_at_least(a.drop_last(), w.drop_last(), k);
        assert(k * w[last] <= a[last]);
        assert(k * (total(w.drop_last()) + w[last]) == k * total(w.drop_last()) + k * w[last])
            by (nonlinear_arith);
    } else {
        assert(k * 0 == 0) by (nonlinear_arith);
    }
}

/// A sequence nowhere above `k` times another, with a sum of at least `k`
/// times the other's, is `k` times the other throughout.
proof fn lemma_total_pins(a: Seq<nat>, w: Seq<nat>, k: nat, i: int)
    requires
        a.len() == w.len(),
        forall|j: int| 0 <= j < a.len() ==> a[j] <= k * #[trigger] w[j],
        total(a) >= k * total(w),
        0 <= i < a.len(),
    ensures
        a[i] == k * w[i],
    decreases a.len(),
{
    let last = a.len() - 1;
    let a0 = a.drop_last();
    let w0 = w.drop_last();
    assert forall|j: int| 0 <= j < a0.len() implies a0[j] <= k * #[trigger] w0[j] by {
        assert(a[j] <= k * w[j]);
    }
    assert(a[last] <= k * w[last]);
    assert(k * (total(w0) + w[last]) == k * total(w0) + k * w[last]) by (nonlinear_arith);
    lemma_total_at_most(a0, w0, k);
    if i < last {
        lemma_total_pins(a0, w0, k, i);
    }
}

/// A sequence nowhere above `k` times another sums to at most `k` times its
/// sum.
proof fn lemma_total_at_most(a: Seq<nat>, w: Seq<nat>, k: nat)
    requires
        a.len() == w.len(),
        forall|i: int| 0 <= i < a.len() ==> a[i] <= k * #[trigger] w[i],
    ensures
        total(a) <= k * total(w),
    decreases a.len(),
{
    if a.len() > 0 {
        let last = a.len() - 1;
        assert forall|i: int| 0 <= i < last implies a.drop_last()[i] <= k * #[trigger] w.drop_last()[i] by {
            assert(a[i] <= k * w[i]);
        }
        lemma_total_at_most(a.drop_last(), w.drop_last(), k);
        assert(a[last] <= k * w[last]);
        assert(k * (total(w.drop_last()) + w[last]) == k * total(w.drop_last()) + k * w[last])
            by (nonlinear_arith);
    }
}

/// A pool with a backend in it has a positive total weight.
proof fn lemma_weights_positive(s: Schedule)
    requires
        s.rtts.len() > 0,
    ensures
        total(s.weights()) > 0,
{
    let w = s.weights();
    lemma_weight_bounds(s.rtts[w.len() - 1]);
}

/// Every backend has been served `k` full shares and not yet more than
/// `k + 1`.
pub open spec fn in_cycle(s: Schedule, k: nat) -> bool {
    forall|i: int|
        0 <= i < s.rtts.len() ==> k * #[trigger] s.weight(i) <= s.picks[i] && s.picks[i] <= (k + 1)
            * s.weight(i)
}

/// Until a cycle's slots are used up, a pick goes to a backend that still has
/// some of its share of the cycle left.
pub proof fn weighted_pick_stays_in_cycle(s: Schedule, k: nat, idx: int)
    requires
        s.wf(),
        in_cycle(s, k),
        total(s.picks) < (k + 1) * total(s.weights()),
        s.is_next(idx),
    ensures
        in_cycle(s.after(idx), k),
        total(s.after(idx).picks) == total(s.picks) + 1,
{
    lemma_total_update(s.picks, idx);
    let w = s.weights();
    let k1 = k + 1;
    let wi = s.weight(idx);
    let pi = s.picks[idx];
    assert(k * s.weight(idx) <= pi <= k1 * wi);
    if pi == k1 * wi {
        assert forall|j: int| 0 <= j < s.picks.len() implies k1 * #[trigger] w[j] <= s.picks[j] by {
            let wj = s.weight(j);
            let pj = s.picks[j];
            lemma_weight_bounds(s.rtts[idx]);
            assert(pi * wj <= pj * wi);
            assert(k1 * wj <= pj) by (nonlinear_arith)
                requires
                    pi == k1 * wi,
                    pi * wj <= pj * wi,
                    wi > 0,
            ;
        }
        lemma_total_at_least(s.picks, w, k1);
        assert(false);
    }
    let t = s.after(idx);
    assert forall|i: int| 0 <= i < t.rtts.len() implies k * #[trigger] t.weight(i) <= t.picks[i]
        && t.picks[i] <= (k + 1) * t.weight(i) by {
        assert(k * s.weight(i) <= s.picks[i]);
    }
}

/// A run of picks on pools with one and the same set of RTTs: `states[t]`
/// answers pick `t` with `idxs[t]` and becomes `states[t + 1]`.
pub open spec fn weighted_run(
    states: Seq<WeightedRoundRobin>,
    addrs: Seq<Seq<char>>,
    pools: Seq<Seq<TunnelMetrics>>,
    idxs: Seq<int>,
    rtts: Seq<Option<nat>>,
) -> bool {
    &&& rtts.len() > 0
    &&& states.len() == idxs.len() + 1
    &&& addrs.len() == idxs.len()
    &&& pools.len() == idxs.len()
    &&& forall|t: int| 0 <= t < idxs.len() ==> pool_rtts(#[trigger] pools[t]) == rtts
    &&& forall|t: int|
        0 <= t < idxs.len() ==> states[t].pick_step(
            addrs[t],
            pools[t],
            states[t + 1].state(),
            #[trigger] idxs[t],
        )
}

/// The schedule after `t` picks of a run that started with nothing picked.
proof fn lemma_weighted_run(
    states: Seq<WeightedRoundRobin>,
    addrs: Seq<Seq<char>>,
    pools: Seq<Seq<TunnelMetrics>>,
    idxs: Seq<int>,
    rtts: Seq<Option<nat>>,
    t: int,
    k: nat,
)
    requires
        weighted_run(states, addrs, pools, idxs, rtts),
        0 < t <= idxs.len(),
        states[0]@.refreshed(pools[0]) == Schedule::fresh(rtts),
        k * total(Schedule::fresh(rtts).weights()) <= t <= (k + 1) * total(
            Schedule::fresh(rtts).weights(),
        ),
    ensures
        states[t]@.rtts == rtts,
        states[t]@.wf(),
        total(states[t]@.picks) == t,
        in_cycle(states[t]@, k),
        forall|i: int|
            0 <= i < rtts.len() ==> #[trigger] states[t]@.picks[i] == hits(idxs.take(t), i),
    decreases t,
{
    let fresh = Schedule::fresh(rtts);
    let w = fresh.weights();
    let u = t - 1;
    lemma_weights_positive(fresh);
    assert(pool_rtts(pools[u]) == rtts);
    assert(states[u].pick_step(addrs[u], pools[u], states[u + 1].state(), idxs[u]));
    let s = states[u]@.refreshed(pools[u]);
    let cut = idxs.take(t);
    assert(cut.drop_last() =~= idxs.take(u));
    assert(pools[u].len() == rtts.len()) by {
        assert(pool_rtts(pools[u]).len() == pools[u].len());
    }
    if u == 0 {
        lemma_total_zeros(fresh.picks);
        lemma_hits_empty(idxs.take(0));
        assert(s == fresh);
    } else {
        let ku: nat = if u >= k * total(w) { k } else { (k - 1) as nat };
        if u < k * total(w) {
            assert(k * total(w) == t);
            assert(k > 0) by (nonlinear_arith)
                requires
                    k * total(w) == t,
                    t > 0,
            ;
            assert((k - 1) * total(w) + total(w) == k * total(w)) by (nonlinear_arith);
        }
        lemma_weighted_run(states, addrs, pools, idxs, rtts, u, ku);
        assert(s == states[u]@);
    }
    // The cycle the pick falls into: the last one when `t` closes it.
    let kp: nat = if u >= k * total(w) { k } else { (k - 1) as nat };
    assert(s.weights() =~= w);
    if u == 0 {
        assert(k * total(w) <= 1);
        if k > 0 {
            assert(k == 1 && total(w) == 1) by (nonlinear_arith)
                requires
                    k * total(w) <= 1,
                    k > 0,
                    total(w) > 0,
            ;
        }
        assert(kp == 0);
        assert forall|i: int| 0 <= i < s.rtts.len() implies 0 * #[trigger] s.weight(i) <= s.picks[i]
            && s.picks[i] <= (0 + 1) * s.weight(i) by {}
        assert(in_cycle(s, 0));
    }
    assert(in_cycle(s, kp));
    assert((kp + 1) * total(w) > u) by {
        if kp == k {
            assert(t <= (k + 1) * total(w));
        } else {
            assert(u < k * total(w));
        }
    }
    weighted_pick_stays_in_cycle(s, kp, idxs[u]);
    let post = states[t]@;
    assert(post == s.after(idxs[u]));
    assert(post.weights() =~= w);
    if kp != k {
        // `t` closes cycle `k - 1`: everyone has exactly `k` shares.
        assert forall|i: int| 0 <= i < post.rtts.len() implies k * #[trigger] post.weight(i)
            <= post.picks[i] && post.picks[i] <= (k + 1) * post.weight(i) by {
            let pw = post.weights();
            assert forall|j: int| 0 <= j < post.picks.len() implies post.picks[j] <= k
                * #[trigger] pw[j] by {
                assert(kp * post.weight(j) <= post.picks[j]);
            }
            lemma_total_pins(post.picks, pw, k, i);
            assert(pw[i] == post.weight(i));
            assert((k + 1) * post.weight(i) >= k * post.weight(i)) by (nonlinear_arith);
        }
    }
    assert forall|i: int| 0 <= i < rtts.len() implies #[trigger] states[t]@.picks[i] == hits(
        idxs.take(t),
        i,
    ) by {
        assert(cut.last() == idxs[u]);
        assert(s.picks[i] == hits(cut.drop_last(), i)) by {
            if u > 0 {
                assert(states[u]@.picks[i] == hits(idxs.take(u), i));
            } else {
                lemma_hits_empty(idxs.take(0));
            }
        }
        assert(post.picks[i] == s.picks[i] + (if idxs[u] == i { 1nat } else { 0nat }));
    }
}

/// Zeros sum to zero.
proof fn lemma_total_zeros(s: Seq<nat>)
    requires
        forall|i: int| 0 <= i < s.len() ==> #[trigger] s[i] == 0,
    ensures
        total(s) == 0,
    decreases s.len(),
{
    if s.len() > 0 {
        lemma_total_zeros(s.drop_last());
    }
}

/// No picks, no hits.
proof fn lemma_hits_empty(idxs: Seq<int>)
    requires
        idxs.len() == 0,
    ensures
        forall|i: int| hits(idxs, i) == 0,
{
}

/// Fair shares: counted from a fresh schedule, after `k` times as many picks
/// as the weights sum up to, every backend has been picked exactly `k` times
/// its weight.
pub proof fn weighted_round_robin_is_fair(
    states: Seq<WeightedRoundRobin>,
    addrs: Seq<Seq<char>>,
    pools: Seq<Seq<TunnelMetrics>>,
    idxs: Seq<int>,
    rtts: Seq<Option<nat>>,
    k: nat,
    i: int,
)
    requires
        weighted_run(states, addrs, pools, idxs, rtts),
        states[0]@.refreshed(pools[0]) == Schedule::fresh(rtts),
        0 < idxs.len() == k * total(Schedule::fresh(rtts).weights()),
        0 <= i < rtts.len(),
    ensures
        hits(idxs, i) == k * weight_of_rtt(rtts[i]),
{
    let w = Schedule::fresh(rtts).weights();
    let t = idxs.len() as int;
    let k0 = (k - 1) as nat;
    assert(k > 0) by (nonlinear_arith)
        requires
            k * total(w) > 0,
    ;
    assert(k0 * total(w) <= k * total(w)) by (nonlinear_arith)
        requires
            k0 <= k,
    ;
    lemma_weighted_run(states, addrs, pools, idxs, rtts, t, k0);
    let post = states[t]@;
    let pw = post.weights();
    assert(pw =~= w);
    assert forall|j: int| 0 <= j < post.picks.len() implies post.picks[j] <= k * #[trigger] pw[j] by {
        assert(k0 * post.weight(j) <= post.picks[j]);
    }
    lemma_total_pins(post.picks, pw, k, i);
    assert(idxs.take(t) =~= idxs);
    assert(post.picks[i] == hits(idxs.take(t), i));
}

/// No backend goes idle: counted from a fresh schedule, at any moment a
/// backend has been picked at least its weight times the number of full
/// cycles, and at most one share more.
pub proof fn weighted_round_robin_serves_everyone(
    states: Seq<WeightedRoundRobin>,
    addrs: Seq<Seq<char>>,
    pools: Seq<Seq<TunnelMetrics>>,
    idxs: Seq<int>,
    rtts: Seq<Option<nat>>,
    k: nat,
    i: int,
)
    requires
        weighted_run(states, addrs, pools, idxs, rtts),
        states[0]@.refreshed(pools[0]) == Schedule::fresh(rtts),
        idxs.len() > 0,
        k * total(Schedule::fresh(rtts).weights()) <= idxs.len() <= (k + 1) * total(
            Schedule::fresh(rtts).weights(),
        ),
        0 <= i < rtts.len(),
    ensures
        weight_of_rtt(rtts[i]) >= 1,
        k * weight_of_rtt(rtts[i]) <= hits(idxs, i) <= (k + 1) * weight_of_rtt(rtts[i]),
{
    let t = idxs.len() as int;
    lemma_weighted_run(states, addrs, pools, idxs, rtts, t, k);
    lemma_weight_bounds(rtts[i]);
    assert(idxs.take(t) =~= idxs);
    assert(states[t]@.picks[i] == hits(idxs.take(t), i));
    assert(k * states[t]@.weight(i) <= states[t]@.picks[i]);
}

/// The schedule that pick `t` of a run works with: nothing picked yet at the
/// start, and afterwards what the picks before it left.
proof fn lemma_run_step(
    states: Seq<WeightedRoundRobin>,
    addrs: Seq<Seq<char>>,
    pools: Seq<Seq<TunnelMetrics>>,
    idxs: Seq<int>,
    rtts: Seq<Option<nat>>,
    t: int,
)
    requires
        weighted_run(states, addrs, pools, idxs, rtts),
        states[0]@.refreshed(pools[0]) == Schedule::fresh(rtts),
        0 <= t < idxs.len(),
    ensures
        ({
            let s = if t == 0 { Schedule::fresh(rtts) } else { states[t]@ };
            &&& s.rtts == rtts
            &&& s.wf()
            &&& s.is_next(idxs[t])
            &&& states[t + 1]@ == s.after(idxs[t])
        }),
    decreases t,
{
    assert(pool_rtts(pools[t]) == rtts);
    assert(states[t].pick_step(addrs[t], pools[t], states[t + 1].state(), idxs[t]));
    assert(pools[t].len() == rtts.len()) by {
        assert(pool_rtts(pools[t]).len() == pools[t].len());
    }
    if t > 0 {
        lemma_run_step(states, addrs, pools, idxs, rtts, t - 1);
    }
}

/// At most one backend is next.
proof fn lemma_next_is_unique(s: Schedule, a: int, b: int)
    requires
        s.is_next(a),
        s.is_next(b),
    ensures
        a == b,
{
    assert(s.picks[a] * s.weight(b) <= s.picks[b] * s.weight(a));
    assert(s.picks[b] * s.weight(a) <= s.picks[a] * s.weight(b));
    if a < b {
        assert(s.picks[b] * s.weight(a) < s.picks[a] * s.weight(b));
    }
    if b < a {
        assert(s.picks[a] * s.weight(b) < s.picks[b] * s.weight(a));
    }
}

/// The first `t` backends were picked once each, and no other.
spec fn walked(s: Schedule, t: int) -> bool {
    forall|i: int| 0 <= i < s.rtts.len() ==> #[trigger] s.picks[i] == (if i < t { 1nat } else { 0nat })
}

/// Once the first `t` backends were picked, backend `t` is next.
proof fn lemma_walk_goes_on(s: Schedule, t: int, idx: int)
    requires
        s.wf(),
        0 <= t < s.rtts.len(),
        walked(s, t),
        s.is_next(idx),
    ensures
        idx == t,
        walked(s.after(idx), t + 1),
{
    lemma_weight_bounds(s.rtts[t]);
    let wt = s.weight(t);
    let wi = s.weight(idx);
    assert(s.picks[t] == 0);
    assert(s.picks[idx] * wt <= s.picks[t] * wi);
    if idx < t {
        assert(s.picks[idx] == 1);
        assert(1 * wt <= 0 * wi);
        assert(false);
    }
    if idx > t {
        assert(s.picks[idx] == 0);
        assert(s.picks[idx] * wt < s.picks[t] * wi);
        assert(0 * wt < 0 * wi);
        assert(false);
    }
}

/// Before pick `t` of the first round, the first `t` backends were picked.
proof fn lemma_walk(
    states: Seq<WeightedRoundRobin>,
    addrs: Seq<Seq<char>>,
    pools: Seq<Seq<TunnelMetrics>>,
    idxs: Seq<int>,
    rtts: Seq<Option<nat>>,
    t: int,
)
    requires
        weighted_run(states, addrs, pools, idxs, rtts),
        states[0]@.refreshed(pools[0]) == Schedule::fresh(rtts),
        0 <= t < idxs.len(),
        t < rtts.len(),
    ensures
        idxs[t] == t,
        walked(states[t + 1]@, t + 1),
    decreases t,
{
    lemma_run_step(states, addrs, pools, idxs, rtts, t);
    let s = if t == 0 {
        Schedule::fresh(rtts)
    } else {
        states[t]@
    };
    if t > 0 {
        lemma_walk(states, addrs, pools, idxs, rtts, t - 1);
    }
    assert(walked(s, t));
    lemma_walk_goes_on(s, t, idxs[t]);
}

/// A fresh schedule first walks through all the backends in order.
pub proof fn weighted_round_robin_walks_in_order(
    states: Seq<WeightedRoundRobin>,
    addrs: Seq<Seq<char>>,
    pools: Seq<Seq<TunnelMetrics>>,
    idxs: Seq<int>,
    rtts: Seq<Option<nat>>,
    t: int,
)
    requires
        weighted_run(states, addrs, pools, idxs, rtts),
        states[0]@.refreshed(pools[0]) == Schedule::fresh(rtts),
        0 <= t < idxs.len(),
        t < rtts.len(),
    ensures
        idxs[t] == t,
{
    lemma_walk(states, addrs, pools, idxs, rtts, t);
}

/// `later` is `earlier` with one more full share picked by every backend.
spec fn one_cycle_on(earlier: Schedule, later: Schedule) -> bool {
    &&& later.rtts == earlier.rtts
    &&& forall|i: int|
        0 <= i < earlier.rtts.len() ==> #[trigger] later.picks[i] == earlier.picks[i]
            + earlier.weight(i)
}

/// A full share for everyone does not change who is next.
proof fn lemma_cycle_keeps_next(earlier: Schedule, later: Schedule, idx: int)
    requires
        one_cycle_on(earlier, later),
        later.is_next(idx),
    ensures
        earlier.is_next(idx),
{
    let wi = earlier.weight(idx);
    let pi = earlier.picks[idx];
    assert(later.picks[idx] == pi + wi);
    assert forall|j: int| 0 <= j < earlier.rtts.len() implies pi * #[trigger] earlier.weight(j)
        <= earlier.picks[j] * wi by {
        let wj = earlier.weight(j);
        let pj = earlier.picks[j];
        assert(later.picks[j] == pj + wj);
        assert(later.picks[idx] * later.weight(j) <= later.picks[j] * later.weight(idx));
        assert(pi * wj <= pj * wi) by (nonlinear_arith)
            requires
                (pi + wi) * wj <= (pj + wj) * wi,
        ;
    }
    assert forall|j: int| 0 <= j < idx implies pi * #[trigger] earlier.weight(j)
        < earlier.picks[j] * wi by {
        let wj = earlier.weight(j);
        let pj = earlier.picks[j];
        assert(later.picks[j] == pj + wj);
        assert(later.picks[idx] * later.weight(j) < later.picks[j] * later.weight(idx));
        assert(pi * wj < pj * wi) by (nonlinear_arith)
            requires
                (pi + wi) * wj < (pj + wj) * wi,
        ;
    }
}

/// After the first cycle of a run, everyone has had exactly one full share.
proof fn lemma_first_cycle(
    states: Seq<WeightedRoundRobin>,
    addrs: Seq<Seq<char>>,
    pools: Seq<Seq<TunnelMetrics>>,
    idxs: Seq<int>,
    rtts: Seq<Option<nat>>,
)
    requires
        weighted_run(states, addrs, pools, idxs, rtts),
        states[0]@.refreshed(pools[0]) == Schedule::fresh(rtts),
        total(Schedule::fresh(rtts).weights()) <= idxs.len(),
    ensures
        one_cycle_on(
            Schedule::fresh(rtts),
            states[total(Schedule::fresh(rtts).weights()) as int]@,
        ),
{
    let fresh = Schedule::fresh(rtts);
    let w = fresh.weights();
    let cycle = total(w) as int;
    lemma_weights_positive(fresh);
    assert(0 * total(w) <= cycle <= (0 + 1) * total(w) && 1 * total(w) == cycle) by (nonlinear_arith)
        requires
            cycle == total(w),
    ;
    lemma_weighted_run(states, addrs, pools, idxs, rtts, cycle, 0);
    let later = states[cycle]@;
    let pw = later.weights();
    assert(pw =~= w);
    assert forall|j: int| 0 <= j < later.picks.len() implies later.picks[j] <= 1
        * #[trigger] pw[j] by {
        assert(0 * later.weight(j) <= later.picks[j]);
    }
    assert forall|i: int| 0 <= i < fresh.rtts.len() implies #[trigger] later.picks[i]
        == fresh.picks[i] + fresh.weight(i) by {
        lemma_total_pins(later.picks, pw, 1, i);
        assert(pw[i] == fresh.weight(i));
    }
}

/// Schedules one cycle apart pick the same, and stay one cycle apart.
proof fn lemma_same_pick(earlier: Schedule, later: Schedule, a: int, b: int)
    requires
        earlier.wf(),
        later.wf(),
        one_cycle_on(earlier, later),
        earlier.is_next(a),
        later.is_next(b),
    ensures
        a == b,
        one_cycle_on(earlier.after(a), later.after(b)),
{
    lemma_cycle_keeps_next(earlier, later, b);
    lemma_next_is_unique(earlier, a, b);
    let next_earlier = earlier.after(a);
    let next_later = later.after(b);
    assert forall|i: int| 0 <= i < next_earlier.rtts.len() implies #[trigger] next_later.picks[i]
        == next_earlier.picks[i] + next_earlier.weight(i) by {
        assert(later.picks[i] == earlier.picks[i] + earlier.weight(i));
    }
}

/// The schedules before picks `k` and `k + total weight` of a run are one
/// cycle apart, and the picks are the same.
proof fn lemma_cycles(
    states: Seq<WeightedRoundRobin>,
    addrs: Seq<Seq<char>>,
    pools: Seq<Seq<TunnelMetrics>>,
    idxs: Seq<int>,
    rtts: Seq<Option<nat>>,
    k: int,
)
    requires
        weighted_run(states, addrs, pools, idxs, rtts),
        states[0]@.refreshed(pools[0]) == Schedule::fresh(rtts),
        0 <= k,
        k + total(Schedule::fresh(rtts).weights()) < idxs.len(),
    ensures
        idxs[k + total(Schedule::fresh(rtts).weights())] == idxs[k],
        one_cycle_on(
            states[k + 1]@,
            states[k + total(Schedule::fresh(rtts).weights()) + 1]@,
        ),
    decreases k,
{
    let fresh = Schedule::fresh(rtts);
    let cycle = total(fresh.weights()) as int;
    lemma_weights_positive(fresh);
    lemma_run_step(states, addrs, pools, idxs, rtts, k);
    lemma_run_step(states, addrs, pools, idxs, rtts, k + cycle);
    let earlier = if k == 0 {
        fresh
    } else {
        states[k]@
    };
    let later = states[k + cycle]@;
    if k == 0 {
        lemma_first_cycle(states, addrs, pools, idxs, rtts);
    } else {
        lemma_cycles(states, addrs, pools, idxs, rtts, k - 1);
    }
    assert(one_cycle_on(earlier, later));
    lemma_same_pick(earlier, later, idxs[k], idxs[k + cycle]);
}

/// The sequence repeats: counted from a fresh schedule, every pick is the same
/// as the one that comes as many picks later as the weights sum up to.
pub proof fn weighted_round_robin_repeats(
    states: Seq<WeightedRoundRobin>,
    addrs: Seq<Seq<char>>,
    pools: Seq<Seq<TunnelMetrics>>,
    idxs: Seq<int>,
    rtts: Seq<Option<nat>>,
    k: int,
)
    requires
        weighted_run(states, addrs, pools, idxs, rtts),
        states[0]@.refreshed(pools[0]) == Schedule::fresh(rtts),
        0 <= k,
        k + total(Schedule::fresh(rtts).weights()) < idxs.len(),
    ensures
        idxs[k + total(Schedule::fresh(rtts).weights())] == idxs[k],
{
    lemma_cycles(states, addrs, pools, idxs, rtts, k);
}

/// On a pool whose RTTs differ from those seen last, a pick does what the
/// first pick of a new strategy does.
pub proof fn weighted_round_robin_starts_over_with_new_rtts(
    used: WeightedRoundRobin,
    new: WeightedRoundRobin,
    addr: Seq<char>,
    metrics: Seq<TunnelMetrics>,
    post: StrategyState,
    idx: int,
)
    requires
        pool_rtts(metrics) != used@.rtts,
        new@ == Schedule::empty(),
    ensures
        used.pick_step(addr, metrics, post, idx) == new.pick_step(addr, metrics, post, idx),
{
    assert(Schedule::empty().picks =~= Schedule::fresh(Schedule::empty().rtts).picks);
}

/// A faster backend never has a smaller share.
pub proof fn faster_means_no_less_weight(fast: nat, slow: nat)
    requires
        fast <= slow,
    ensures
        weight_of_rtt(Some(fast)) >= weight_of_rtt(Some(slow)),
{
    let a = fast / 1_000_000;
    let b = slow / 1_000_000;
    let ma = if a == 0 { 1 } else { a };
    let mb = if b == 0 { 1 } else { b };
    vstd::arithmetic::div_mod::lemma_div_is_ordered(fast as int, slow as int, 1_000_000);
    vstd::arithmetic::div_mod::lemma_div_is_ordered_by_denominator(1000, ma as int, mb as int);
}

/// Nothing but a pick touches the schedule: neither failed nor successful
/// dials, nor the removal of a backend.
pub proof fn only_picks_move_a_schedule(s: &mut WeightedRoundRobin, idx: usize)
    requires
        call_ensures(WeightedRoundRobin::report_error, (s, idx), ()) || call_ensures(
            WeightedRoundRobin::report_success,
            (s, idx),
            (),
        ) || call_ensures(WeightedRoundRobin::backend_removed, (s, idx), ()),
    ensures
        final(s)@.rtts == old(s)@.rtts,
        final(s)@.picks == old(s)@.picks,
{
}

/// A pick counts one slot of the backend it returns, and no other.
pub proof fn a_pick_counts_one_slot(
    s: &mut WeightedRoundRobin,
    view: &PoolView<'_>,
    idx: usize,
    i: int,
)
    requires
        call_ensures(WeightedRoundRobin::pick, (s, view), idx),
        view.metrics@.len() > 0,
        0 <= i < view.metrics@.len(),
        old(s)@.wf(),
        old(s)@.rtts.len() == view.metrics@.len(),
        forall|j: int|
            0 <= j < view.metrics@.len() ==> #[trigger] old(s)@.rtts[j] == (match view.metrics@[j].rtt {
                Some(d) => Some(duration_nanos(d)),
                None => None,
            }),
    ensures
        idx < view.metrics@.len(),
        final(s)@.rtts == old(s)@.rtts,
        final(s)@.picks[i] == old(s)@.picks[i] + (if i == idx { 1int } else { 0 }),
{
    assert(pool_rtts(view.metrics@) =~= old(s)@.rtts);
}

/// What the strategy counts by is the RTT: the weight of a backend is a
/// thousand divided by its RTT in milliseconds, rounded down, but at least 1,
/// and 1 where no RTT is known. An RTT under a millisecond counts as one.
pub proof fn weights_are_inverse_rtts(rtt: Option<nat>)
    ensures
        rtt is None ==> weight_of_rtt(rtt) == 1,
        rtt matches Some(nanos) ==> {
            let ms = nanos / 1_000_000;
            let w = weight_of_rtt(rtt);
            &&& ms <= 1 ==> w == 1000
            &&& 1 <= ms <= 1000 ==> w * ms <= 1000 && 1000 < (w + 1) * ms
            &&& ms > 1000 ==> w == 1
        },
{
    if let Some(nanos) = rtt {
        let ms = nanos / 1_000_000;
        if 1 <= ms <= 1000 {
            let q = 1000nat / ms;
            vstd::arithmetic::div_mod::lemma_fundamental_div_mod(1000, ms as int);
            vstd::arithmetic::div_mod::lemma_mod_bound(1000, ms as int);
            vstd::arithmetic::div_mod::lemma_div_non_zero(1000, ms as int);
            assert(weight_of_rtt(rtt) == q);
            if ms == 1 {
                vstd::arithmetic::div_mod::lemma_div_basics(1000);
            }
            assert(q * ms <= 1000 && 1000 < (q + 1) * ms) by (nonlinear_arith)
                requires
                    1000 == ms * q + 1000int % ms as int,
                    0 <= 1000int % ms as int,
                    1000int % (ms as int) < ms,
            ;
        } else if ms > 1000 {
            vstd::arithmetic::div_mod::lemma_basic_div(1000, ms as int);
        }
    }
}

/// The same of the weight that is calculated from a duration.
pub proof fn calculated_weights_are_inverse_rtts(rtt: Duration, weight: u32)
    requires
        call_ensures(calculate_weight, (rtt,), weight),
    ensures
        ({
            let ms = duration_nanos(rtt) / 1_000_000;
            &&& ms <= 1 ==> weight == 1000
            &&& 1 <= ms <= 1000 ==> weight * ms <= 1000 && 1000 < (weight + 1) * ms
            &&& ms > 1000 ==> weight == 1
        }),
{
    weights_are_inverse_rtts(Some(duration_nanos(rtt)));
}

/// A run with one more pick is a run.
proof fn lemma_longer_run(
    states: Seq<WeightedRoundRobin>,
    addrs: Seq<Seq<char>>,
    pools: Seq<Seq<TunnelMetrics>>,
    idxs: Seq<int>,
    rtts: Seq<Option<nat>>,
    next: (Seq<char>, Seq<TunnelMetrics>, int, WeightedRoundRobin),
)
    requires
        weighted_run(states, addrs, pools, idxs, rtts),
        pool_rtts(next.1) == rtts,
        states.last().pick_step(next.0, next.1, next.3.state(), next.2),
    ensures
        weighted_run(
            states.push(next.3),
            addrs.push(next.0),
            pools.push(next.1),
            idxs.push(next.2),
            rtts,
        ),
{
    let all = states.push(next.3);
    let picks = idxs.push(next.2);
    let seen = pools.push(next.1);
    assert forall|t: int| 0 <= t < picks.len() implies all[t].pick_step(
        addrs.push(next.0)[t],
        seen[t],
        all[t + 1].state(),
        #[trigger] picks[t],
    ) by {
        if t < idxs.len() {
            assert(states[t].pick_step(addrs[t], pools[t], states[t + 1].state(), idxs[t]));
        }
    }
    assert forall|t: int| 0 <= t < picks.len() implies pool_rtts(#[trigger] seen[t]) == rtts by {
        if t < idxs.len() {
            assert(pool_rtts(pools[t]) == rtts);
        }
    }
}

/// The picks of a history as a run of picks.
proof fn lemma_picks_run(
    states: Seq<WeightedRoundRobin>,
    events: Seq<StrategyEvent>,
    rtts: Seq<Option<nat>>,
) -> (run: (Seq<WeightedRoundRobin>, Seq<Seq<char>>, Seq<Seq<TunnelMetrics>>))
    requires
        rtts.len() > 0,
        is_history(states, events),
        forall|t: int|
            0 <= t < events.len() ==> (#[trigger] events[t] matches StrategyEvent::Picked {
                pool,
                ..
            } ==> pool_rtts(pool) == rtts),
    ensures
        weighted_run(run.0, run.1, run.2, picks_of(events), rtts),
        run.0.last()@ == states.last()@,
        run.0[0]@ == states[0]@,
    decreases events.len(),
{
    if events.len() == 0 {
        (states, Seq::empty(), Seq::empty())
    } else {
        lemma_shorter_history(states, events);
        let fewer = events.drop_last();
        assert forall|t: int| 0 <= t < fewer.len() implies (
        #[trigger] fewer[t] matches StrategyEvent::Picked { pool, .. } ==> pool_rtts(pool)
            == rtts) by {
            assert(events[t] == fewer[t]);
        }
        let run = lemma_picks_run(states.drop_last(), fewer, rtts);
        assert(events[events.len() - 1] == events.last());
        match events.last() {
            StrategyEvent::Picked { addr, pool, idx } => {
                let picks = picks_of(fewer);
                assert(picks_of(events) =~= picks.push(idx));
                lemma_longer_run(
                    run.0,
                    run.1,
                    run.2,
                    picks,
                    rtts,
                    (addr, pool, idx, states.last()),
                );
                (run.0.push(states.last()), run.1.push(addr), run.2.push(pool))
            },
            _ => run,
        }
    }
}

/// The weights of a pool: a thousand divided by the RTT in milliseconds, but at
/// least 1, and 1 where no RTT is known.
pub open spec fn shares(pool: Seq<TunnelMetrics>) -> Seq<nat> {
    Seq::new(
        pool.len(),
        |i: int|
            match pool[i].rtt {
                Some(d) => if duration_nanos(d) / 1_000_000 == 0 {
                    1000
                } else if duration_nanos(d) / 1_000_000 > 1000 {
                    1
                } else {
                    1000nat / (duration_nanos(d) / 1_000_000)
                },
                None => 1,
            },
    )
}

/// Those weights are the ones a fresh schedule works with.
proof fn lemma_shares(pool: Seq<TunnelMetrics>)
    ensures
        shares(pool) == Schedule::fresh(pool_rtts(pool)).weights(),
{
    let fresh = Schedule::fresh(pool_rtts(pool));
    assert forall|i: int| 0 <= i < pool.len() implies shares(pool)[i] == fresh.weights()[i] by {
        weights_are_inverse_rtts(fresh.rtts[i]);
        if let Some(d) = pool[i].rtt {
            let ms = duration_nanos(d) / 1_000_000;
            if 1 <= ms <= 1000 {
                vstd::arithmetic::div_mod::lemma_div_non_zero(1000, ms as int);
            }
        }
    }
    assert(shares(pool) =~= fresh.weights());
}

/// Two pools have the same RTTs.
pub open spec fn same_rtts_in(a: Seq<TunnelMetrics>, b: Seq<TunnelMetrics>) -> bool {
    &&& a.len() == b.len()
    &&& forall|i: int| 0 <= i < a.len() ==> (#[trigger] a[i]).rtt == b[i].rtt
}

/// A history on pools with the same RTTs, as a run from a fresh schedule.
proof fn lemma_fresh_run(
    states: Seq<WeightedRoundRobin>,
    events: Seq<StrategyEvent>,
    pool: Seq<TunnelMetrics>,
) -> (run: (Seq<WeightedRoundRobin>, Seq<Seq<char>>, Seq<Seq<TunnelMetrics>>))
    requires
        pool.len() > 0,
        states[0]@.rtts.len() == 0,
        is_history(states, events),
        picks_of(events).len() > 0,
        forall|t: int|
            0 <= t < events.len() ==> (#[trigger] events[t] matches StrategyEvent::Picked {
                pool: seen,
                ..
            } ==> same_rtts_in(seen, pool)),
    ensures
        weighted_run(run.0, run.1, run.2, picks_of(events), pool_rtts(pool)),
        run.0[0]@.refreshed(run.2[0]) == Schedule::fresh(pool_rtts(pool)),
{
    let rtts = pool_rtts(pool);
    assert forall|t: int| 0 <= t < events.len() implies (
    #[trigger] events[t] matches StrategyEvent::Picked { pool: seen, .. } ==> pool_rtts(seen)
        == rtts) by {
        if let StrategyEvent::Picked { pool: seen, .. } = events[t] {
            assert(same_rtts_in(seen, pool));
            assert(pool_rtts(seen) =~= rtts);
        }
    }
    let run = lemma_picks_run(states, events, rtts);
    assert(pool_rtts(run.2[0]) == rtts);
    run
}

/// Fair shares, whatever is reported in between: after `k` times as many picks
/// as the weights sum up to, every backend has been picked exactly `k` times
/// its weight, however many dials failed or succeeded meanwhile.
pub proof fn reports_do_not_disturb_the_shares(
    states: Seq<WeightedRoundRobin>,
    events: Seq<StrategyEvent>,
    pool: Seq<TunnelMetrics>,
    k: nat,
    i: int,
)
    requires
        states[0]@.rtts.len() == 0,
        is_history(states, events),
        forall|t: int|
            0 <= t < events.len() ==> (#[trigger] events[t] matches StrategyEvent::Picked {
                pool: seen,
                ..
            } ==> same_rtts_in(seen, pool)),
        0 < picks_of(events).len() == k * total(shares(pool)),
        0 <= i < pool.len(),
    ensures
        hits(picks_of(events), i) == k * shares(pool)[i],
{
    lemma_shares(pool);
    let run = lemma_fresh_run(states, events, pool);
    weighted_round_robin_is_fair(run.0, run.1, run.2, picks_of(events), pool_rtts(pool), k, i);
}

/// Nor does a report disturb the order: the first picks walk through all the
/// backends, and the sequence repeats once every share is used up.
pub proof fn reports_do_not_disturb_the_sequence(
    states: Seq<WeightedRoundRobin>,
    events: Seq<StrategyEvent>,
    pool: Seq<TunnelMetrics>,
    t: int,
)
    requires
        pool.len() > 0,
        states[0]@.rtts.len() == 0,
        is_history(states, events),
        forall|u: int|
            0 <= u < events.len() ==> (#[trigger] events[u] matches StrategyEvent::Picked {
                pool: seen,
                ..
            } ==> same_rtts_in(seen, pool)),
        0 <= t < picks_of(events).len(),
    ensures
        t < pool.len() ==> picks_of(events)[t] == t,
        t + total(shares(pool)) < picks_of(events).len() ==> picks_of(events)[t + total(
            shares(pool),
        )] == picks_of(events)[t],
{
    lemma_shares(pool);
    let run = lemma_fresh_run(states, events, pool);
    let rtts = pool_rtts(pool);
    if t < pool.len() {
        weighted_round_robin_walks_in_order(run.0, run.1, run.2, picks_of(events), rtts, t);
    }
    if t + total(shares(pool)) < picks_of(events).len() {
        weighted_round_robin_repeats(run.0, run.1, run.2, picks_of(events), rtts, t);
    }
}

/// A new strategy has seen nothing, and a copy has seen what the one it was
/// copied from has.
pub proof fn new_schedules_are_empty(
    new: WeightedRoundRobin,
    s: &WeightedRoundRobin,
    copy: WeightedRoundRobin,
)
    requires
        call_ensures(WeightedRoundRobin::new, (), new) || call_ensures(
            WeightedRoundRobin::default,
            (),
            new,
        ),
        call_ensures(WeightedRoundRobin::clone, (s,), copy),
    ensures
        new@.rtts.len() == 0,
        copy@.rtts == s@.rtts,
        copy@.picks == s@.picks,
{
}

/// A change of any RTT, or of the size of the pool, starts the sequence over:
/// the pick goes to the first backend, and that is all that is counted.
pub proof fn a_changed_rtt_starts_over(
    s: &mut WeightedRoundRobin,
    view: &PoolView<'_>,
    idx: usize,
    i: int,
)
    requires
        call_ensures(WeightedRoundRobin::pick, (s, view), idx),
        view.metrics@.len() > 0,
        old(s)@.rtts.len() != view.metrics@.len() || 0 <= i < view.metrics@.len()
            && old(s)@.rtts[i] != (match view.metrics@[i].rtt {
            Some(d) => Some(duration_nanos(d)),
            None => None,
        }),
    ensures
        idx == 0,
        final(s)@.picks.len() == view.metrics@.len(),
        forall|j: int|
            0 <= j < view.metrics@.len() ==> #[trigger] final(s)@.picks[j] == (if j == 0 {
                1nat
            } else {
                0
            }),
{
    let rtts = pool_rtts(view.metrics@);
    if old(s)@.rtts.len() == view.metrics@.len() {
        assert(rtts[i] != old(s)@.rtts[i]);
    }
    let fresh = Schedule::fresh(rtts);
    assert(walked(fresh, 0));
    lemma_walk_goes_on(fresh, 0, idx as int);
}

/// On a pool with the RTTs seen last, the pick goes to the backend that has
/// used the smallest part of its share, and to the first of those.
pub proof fn the_least_served_is_picked(
    s: &mut WeightedRoundRobin,
    view: &PoolView<'_>,
    idx: usize,
    j: int,
)
    requires
        call_ensures(WeightedRoundRobin::pick, (s, view), idx),
        0 <= j < view.metrics@.len(),
        old(s)@.rtts.len() == view.metrics@.len(),
        forall|i: int|
            0 <= i < view.metrics@.len() ==> #[trigger] old(s)@.rtts[i] == (match view.metrics@[i].rtt {
                Some(d) => Some(duration_nanos(d)),
                None => None,
            }),
    ensures
        idx < view.metrics@.len(),
        old(s)@.picks[idx as int] * shares(view.metrics@)[j] <= old(s)@.picks[j] * shares(
            view.metrics@,
        )[idx as int],
        j < idx ==> old(s)@.picks[idx as int] * shares(view.metrics@)[j] < old(s)@.picks[j]
            * shares(view.metrics@)[idx as int],
{
    let rtts = pool_rtts(view.metrics@);
    assert(rtts =~= old(s)@.rtts);
    lemma_shares(view.metrics@);
    assert(old(s)@.weight(j) == shares(view.metrics@)[j]);
    assert(old(s)@.weight(idx as int) == shares(view.metrics@)[idx as int]);
}

} // verus!
