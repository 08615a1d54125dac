//! The balancer itself: construction, dialing and reconfiguration.
//!
//! A dial goes through four calls. [`LoadBalancer::dial`] picks a backend.
//! The caller then opens the connection, and tells
//! [`LoadBalancer::dial_with_retry`] how each attempt ended until that says
//! the dial is over. [`LoadBalancer::finish_dial`] settles the books, and
//! [`LoadBalancer::release`] takes the connection out of them once it is
//! closed.

use std::time::Duration;

use vstd::prelude::*;

use crate::address::{address_fault, validate_dial_addr};
use crate::balancer::builder::{BuilderView, LoadBalancerBuilder};
use crate::error::{Error, ErrorView};
use crate::health::capped_inc;
use crate::lists::copy_of;
use crate::retry::{ask_policy, retry_answer, RetryPolicy};
use crate::strategy::{BalanceStrategy, PoolView, StrategyState, TunnelMetrics};
use crate::text::{append_decimal, decimal};

verus! {

/// What creating a backend yields: the live backend plus the metrics the load
/// balancer should seed it with.
///
/// Typically an already-measured RTT, since most factories probe before
/// constructing.
#[derive(Debug)]
pub struct BackendOutput<B> {
    /// The constructed backend, ready to accept dials.
    pub backend: B,
    /// Initial metrics for this backend (e.g., pre-measured RTT).
    pub initial_metrics: TunnelMetrics,
}

/// The load balancer: N backends, dials distributed across them by the
/// configured strategy.
///
/// `B` stands for a backend, `S` is the strategy and `P` the retry policy. The
/// balancer never touches a backend itself: it says which one to dial and
/// hands out those that are to be shut down.
#[derive(Debug)]
pub struct LoadBalancer<B, S, P> {
    backends: Vec<B>,
    ids: Vec<Option<String>>,
    metrics: Vec<TunnelMetrics>,
    serials: Vec<u128>,
    draining: Vec<bool>,
    next_serial: u128,
    strategy: S,
    dial_timeout: Option<Duration>,
    retry_policy: Option<P>,
}

/// What a balancer holds. A backend keeps its serial for as long as it is in
/// the pool, wherever it moves, and no serial is given out twice.
#[verifier::ext_equal]
pub struct BalancerView<B, S, P> {
    pub backends: Seq<B>,
    pub ids: Seq<Option<Seq<char>>>,
    pub metrics: Seq<TunnelMetrics>,
    pub serials: Seq<u128>,
    pub drained: Seq<bool>,
    pub next_serial: u128,
    pub strategy: S,
    pub dial_timeout: Option<Duration>,
    pub retry_policy: Option<P>,
}

/// A backend's service-discovery ID, as text.
pub open spec fn id_text(id: Option<String>) -> Option<Seq<char>> {
    match id {
        Some(s) => Some(s@),
        None => None,
    }
}

impl<B, S, P> View for LoadBalancer<B, S, P> {
    type V = BalancerView<B, S, P>;

    closed spec fn view(&self) -> BalancerView<B, S, P> {
        BalancerView {
            backends: self.backends@,
            ids: self.ids@.map_values(|id: Option<String>| id_text(id)),
            metrics: self.metrics@,
            serials: self.serials@,
            drained: self.draining@,
            next_serial: self.next_serial,
            strategy: self.strategy,
            dial_timeout: self.dial_timeout,
            retry_policy: self.retry_policy,
        }
    }
}

impl<B, S: BalanceStrategy, P> BalancerView<B, S, P> {
    /// One ID slot, one set of metrics, one serial and one draining mark per
    /// backend, and a strategy in working order. Serials grow from backend to
    /// backend, and stay below the next one to be given out.
    pub open spec fn wf(self) -> bool {
        &&& self.ids.len() == self.backends.len()
        &&& self.metrics.len() == self.backends.len()
        &&& self.serials.len() == self.backends.len()
        &&& self.drained.len() == self.backends.len()
        &&& forall|i: int, j: int|
            0 <= i < j < self.serials.len() ==> #[trigger] self.serials[i]
                < #[trigger] self.serials[j]
        &&& forall|i: int|
            0 <= i < self.serials.len() ==> #[trigger] self.serials[i] < self.next_serial
        &&& self.strategy.valid()
    }

    /// There are serials for `n` more backends.
    pub open spec fn can_grow(self, n: nat) -> bool {
        self.next_serial + n <= u128::MAX
    }

    /// The number of backends.
    pub open spec fn size(self) -> nat {
        self.backends.len()
    }
}

/// `n` serials in a row.
pub open spec fn serials_from(start: u128, n: nat) -> Seq<u128> {
    Seq::new(n, |i: int| (start + i) as u128)
}

/// No draining marks on `n` backends.
pub open spec fn none_drained(n: nat) -> Seq<bool> {
    Seq::new(n, |i: int| false)
}

/// Metrics of `n` backends nothing is known about.
pub open spec fn zero_metrics(n: nat) -> Seq<TunnelMetrics> {
    Seq::new(n, |i: int| TunnelMetrics::zero())
}

/// No IDs for `n` backends.
pub open spec fn no_ids(n: nat) -> Seq<Option<Seq<char>>> {
    Seq::new(n, |i: int| None::<Seq<char>>)
}

/// A pool that was just put together.
pub open spec fn fresh_pool<B, S, P>(
    backends: Seq<B>,
    metrics: Seq<TunnelMetrics>,
    strategy: S,
    dial_timeout: Option<Duration>,
    retry_policy: Option<P>,
) -> BalancerView<B, S, P> {
    BalancerView {
        backends,
        ids: no_ids(backends.len()),
        metrics,
        serials: serials_from(0, backends.len()),
        drained: none_drained(backends.len()),
        next_serial: backends.len() as u128,
        strategy,
        dial_timeout,
        retry_policy,
    }
}

/// The complaint about seed metrics of the wrong length. `what` is what was
/// counted.
pub open spec fn metrics_mismatch(given: nat, what: Seq<char>, wanted: nat) -> Seq<char> {
    "initial_metrics.len() ("@ + decimal(given) + ") must equal "@ + what + ".len() ("@ + decimal(
        wanted,
    ) + ")"@
}

/// Put the complaint about seed metrics of the wrong length together.
pub(crate) fn describe_mismatch(given: usize, what: &str, wanted: usize) -> (text: String)
    ensures
        text@ == metrics_mismatch(given as nat, what@, wanted as nat),
{
    let mut text = "initial_metrics.len() (".to_owned();
    append_decimal(&mut text, given as u64);
    text.append(") must equal ");
    text.append(what);
    text.append(".len() (");
    append_decimal(&mut text, wanted as u64);
    text.append(")");
    text
}

/// Metrics for `n` backends nothing is known about.
pub(crate) fn default_metrics(n: usize) -> (metrics: Vec<TunnelMetrics>)
    ensures
        metrics@ == zero_metrics(n as nat),
{
    let mut metrics: Vec<TunnelMetrics> = Vec::new();
    let mut i: usize = 0;
    while i < n
        invariant
            i <= n,
            metrics@ == zero_metrics(i as nat),
        decreases n - i,
    {
        metrics.push(TunnelMetrics::default());
        i += 1;
        assert(metrics@ =~= zero_metrics(i as nat));
    }
    metrics
}

/// ID slots for `n` backends without IDs.
fn empty_ids(n: usize) -> (ids: Vec<Option<String>>)
    ensures
        ids@.map_values(|id: Option<String>| id_text(id)) == no_ids(n as nat),
{
    let mut ids: Vec<Option<String>> = Vec::new();
    let mut i: usize = 0;
    while i < n
        invariant
            i <= n,
            ids@.len() == i,
            forall|j: int| 0 <= j < i ==> #[trigger] ids@[j] is None,
        decreases n - i,
    {
        ids.push(None);
        i += 1;
    }
    assert(ids@.map_values(|id: Option<String>| id_text(id)) =~= no_ids(n as nat));
    ids
}

/// `n` serials, counted up from `start`.
fn serial_run(start: u128, n: usize) -> (serials: Vec<u128>)
    requires
        start + n <= u128::MAX,
    ensures
        serials@ == serials_from(start, n as nat),
{
    let mut serials: Vec<u128> = Vec::new();
    let mut i: usize = 0;
    while i < n
        invariant
            i <= n,
            start + n <= u128::MAX,
            serials@ == serials_from(start, i as nat),
        decreases n - i,
    {
        serials.push(start + i as u128);
        i += 1;
        assert(serials@ =~= serials_from(start, i as nat));
    }
    serials
}

/// Draining marks for `n` backends, none of them set.
fn unmarked(n: usize) -> (marks: Vec<bool>)
    ensures
        marks@ == none_drained(n as nat),
{
    let mut marks: Vec<bool> = Vec::new();
    let mut i: usize = 0;
    while i < n
        invariant
            i <= n,
            marks@ == none_drained(i as nat),
        decreases n - i,
    {
        marks.push(false);
        i += 1;
        assert(marks@ =~= none_drained(i as nat));
    }
    marks
}

/// Creation failed at `k`, and nowhere before.
pub open spec fn first_failure<B>(
    created: Seq<Result<BackendOutput<B>, Error>>,
    k: int,
) -> bool {
    &&& 0 <= k < created.len()
    &&& created[k] is Err
    &&& forall|j: int| 0 <= j < k ==> #[trigger] created[j] is Ok
}

/// Every creation succeeded.
pub open spec fn all_created<B>(created: Seq<Result<BackendOutput<B>, Error>>) -> bool {
    forall|j: int| 0 <= j < created.len() ==> #[trigger] created[j] is Ok
}

/// The backends that were created.
pub open spec fn created_backends<B>(created: Seq<Result<BackendOutput<B>, Error>>) -> Seq<B> {
    created.map_values(|r: Result<BackendOutput<B>, Error>| r->Ok_0.backend)
}

/// The metrics they came with.
pub open spec fn created_metrics<B>(created: Seq<Result<BackendOutput<B>, Error>>) -> Seq<
    TunnelMetrics,
> {
    created.map_values(|r: Result<BackendOutput<B>, Error>| r->Ok_0.initial_metrics)
}

/// Sort created backends from their metrics, stopping at the first failure.
pub(crate) fn collect_outputs<B>(created: Vec<Result<BackendOutput<B>, Error>>) -> (result: Result<
    (Vec<B>, Vec<TunnelMetrics>),
    Error,
>)
    ensures
        match result {
            Ok((backends, metrics)) => {
                &&& all_created(created@)
                &&& backends@ == created_backends(created@)
                &&& metrics@ == created_metrics(created@)
            },
            Err(e) => exists|k: int| #[trigger]
                first_failure(created@, k) && created@[k] == Err::<BackendOutput<B>, Error>(e),
        },
{
    let ghost all = created@;
    let mut backends: Vec<B> = Vec::new();
    let mut metrics: Vec<TunnelMetrics> = Vec::new();
    for r in it: created
        invariant
            it.seq() == all,
            backends@.len() == it.index(),
            metrics@.len() == it.index(),
            forall|j: int| 0 <= j < it.index() ==> #[trigger] all[j] is Ok,
            forall|j: int|
                0 <= j < it.index() ==> #[trigger] backends@[j] == all[j]->Ok_0.backend,
            forall|j: int|
                0 <= j < it.index() ==> #[trigger] metrics@[j] == all[j]->Ok_0.initial_metrics,
    {
        match r {
            Ok(output) => {
                backends.push(output.backend);
                metrics.push(output.initial_metrics);
            },
            Err(e) => {
                assert(first_failure(all, it.index() as int));
                return Err(e);
            },
        }
    }
    assert(backends@ =~= created_backends(all));
    assert(metrics@ =~= created_metrics(all));
    Ok((backends, metrics))
}

/// The first backend with this ID is at `i`.
pub open spec fn is_first_with_id(ids: Seq<Option<Seq<char>>>, id: Seq<char>, i: int) -> bool {
    &&& 0 <= i < ids.len()
    &&& ids[i] == Some(id)
    &&& forall|j: int| 0 <= j < i ==> #[trigger] ids[j] != Some(id)
}

/// Some backend has this ID.
pub open spec fn has_id(ids: Seq<Option<Seq<char>>>, id: Seq<char>) -> bool {
    exists|i: int| 0 <= i < ids.len() && #[trigger] ids[i] == Some(id)
}

impl<B, S: BalanceStrategy, P: RetryPolicy> LoadBalancer<B, S, P> {
    /// Create a new [`LoadBalancerBuilder`] for ergonomic configuration.
    pub fn builder<F>() -> (b: LoadBalancerBuilder<B, F, S, P>)
        ensures
            b@ == BuilderView::<B, F, S, P>::empty(),
    {
        LoadBalancerBuilder::default()
    }

    /// Build a load balancer from a pre-constructed set of backends.
    ///
    /// Initial metrics for each backend default to zero. To seed an RTT, use
    /// [`new_with_metrics`](Self::new_with_metrics).
    pub fn new(backends: Vec<B>, strategy: S) -> (result: Result<Self, Error>)
        requires
            strategy.valid(),
        ensures
            match result {
                Ok(lb) => {
                    &&& backends@.len() > 0
                    &&& lb@.wf()
                    &&& lb@ == fresh_pool::<B, S, P>(
                        backends@,
                        zero_metrics(backends@.len()),
                        strategy,
                        None,
                        None,
                    )
                },
                Err(e) => backends@.len() == 0 && e@ == ErrorView::NoBackends,
            },
    {
        let metrics = default_metrics(backends.len());
        Self::new_with_metrics(backends, metrics, strategy, None, None)
    }

    /// Like [`new`](Self::new) but lets the caller seed each backend's initial
    /// metrics. `initial_metrics.len()` must equal `backends.len()`.
    pub fn new_with_metrics(
        backends: Vec<B>,
        initial_metrics: Vec<TunnelMetrics>,
        strategy: S,
        dial_timeout: Option<Duration>,
        retry_policy: Option<P>,
    ) -> (result: Result<Self, Error>)
        requires
            strategy.valid(),
        ensures
            match result {
                Ok(lb) => {
                    &&& backends@.len() > 0
                    &&& initial_metrics@.len() == backends@.len()
                    &&& lb@.wf()
                    &&& lb@ == fresh_pool(
                        backends@,
                        initial_metrics@,
                        strategy,
                        dial_timeout,
                        retry_policy,
                    )
                },
                Err(e) => if backends@.len() == 0 {
                    e@ == ErrorView::NoBackends
                } else {
                    &&& initial_metrics@.len() != backends@.len()
                    &&& e@ == ErrorView::Factory(
                        metrics_mismatch(initial_metrics@.len(), "backends"@, backends@.len()),
                    )
                },
            },
    {
        if backends.len() == 0 {
            return Err(Error::no_backends());
        }
        if initial_metrics.len() != backends.len() {
            return Err(
                Error::factory(
                    describe_mismatch(initial_metrics.len(), "backends", backends.len()),
                ),
            );
        }
        let n: usize = backends.len();
        let lb = LoadBalancer {
            backends,
            ids: empty_ids(n),
            metrics: initial_metrics,
            serials: serial_run(0, n),
            draining: unmarked(n),
            next_serial: n as u128,
            strategy,
            dial_timeout,
            retry_policy,
        };
        Ok(lb)
    }

    /// Build a load balancer from what running each factory once gave, in
    /// order, up to and including the first failure.
    pub fn from_factories(
        created: Vec<Result<BackendOutput<B>, Error>>,
        strategy: S,
    ) -> (result: Result<Self, Error>)
        requires
            strategy.valid(),
        ensures
            match result {
                Ok(lb) => {
                    &&& created@.len() > 0
                    &&& all_created(created@)
                    &&& lb@.wf()
                    &&& lb@ == fresh_pool::<B, S, P>(
                        created_backends(created@),
                        created_metrics(created@),
                        strategy,
                        None,
                        None,
                    )
                },
                Err(e) => if created@.len() == 0 {
                    e@ == ErrorView::NoBackends
                } else {
                    exists|k: int| #[trigger]
                        first_failure(created@, k) && created@[k] == Err::<
                            BackendOutput<B>,
                            Error,
                        >(e)
                },
            },
    {
        if created.len() == 0 {
            return Err(Error::no_backends());
        }
        match collect_outputs(created) {
            Ok((backends, metrics)) => Self::new_with_metrics(
                backends,
                metrics,
                strategy,
                None,
                None,
            ),
            Err(e) => Err(e),
        }
    }

    /// Read-only access to the live per-backend metrics. Useful for logging
    /// or external monitoring.
    pub fn metrics(&self) -> (metrics: Vec<TunnelMetrics>)
        ensures
            metrics@ == self@.metrics,
    {
        copy_of(self.metrics.as_slice())
    }

    /// Number of active backends in the pool.
    pub fn backend_count(&self) -> (n: usize)
        ensures
            n == self@.size(),
    {
        self.backends.len()
    }

    /// The backend at `index`.
    pub fn backend(&self, index: usize) -> (backend: Option<&B>)
        ensures
            backend == (if index < self@.size() {
                Some(&self@.backends[index as int])
            } else {
                None
            }),
    {
        if index < self.backends.len() {
            Some(&self.backends[index])
        } else {
            None
        }
    }

    /// Take the balancer down. The backends come back in pool order, to be
    /// shut down one after the other.
    pub fn shutdown(self) -> (backends: Vec<B>)
        ensures
            backends@ == self@.backends,
    {
        self.backends
    }

    /// Whether there are serials for `n` more backends. There are 2^128 of
    /// them.
    pub fn can_grow(&self, n: usize) -> (can: bool)
        ensures
            can == self@.can_grow(n as nat),
    {
        n as u128 <= u128::MAX - self.next_serial
    }

    /// Add a new backend to the pool at runtime.
    ///
    /// The new backend will be included in the load balancing pool
    /// immediately. Returns the index of the added backend.
    pub fn add_backend(&mut self, backend: B) -> (idx: usize)
        requires
            old(self)@.wf(),
            old(self)@.can_grow(1),
        ensures
            idx == old(self)@.size(),
            final(self)@.wf(),
            final(self)@ == old(self)@.after_add(backend, None),
    {
        let idx: usize = self.backends.len();
        self.backends.push(backend);
        self.ids.push(None);
        self.metrics.push(TunnelMetrics::default());
        self.serials.push(self.next_serial);
        self.draining.push(false);
        self.next_serial = self.next_serial + 1;
        assert(self@.ids =~= old(self)@.ids.push(None));
        idx
    }

    /// Add a backend with an ID for service discovery tracking.
    pub fn add_backend_with_id(&mut self, id: String, backend: B) -> (idx: usize)
        requires
            old(self)@.wf(),
            old(self)@.can_grow(1),
        ensures
            idx == old(self)@.size(),
            final(self)@.wf(),
            final(self)@ == old(self)@.after_add(backend, Some(id@)),
    {
        let idx: usize = self.backends.len();
        let ghost text = id@;
        self.backends.push(backend);
        self.ids.push(Some(id));
        self.metrics.push(TunnelMetrics::default());
        self.serials.push(self.next_serial);
        self.draining.push(false);
        self.next_serial = self.next_serial + 1;
        assert(self@.ids =~= old(self)@.ids.push(Some(text)));
        idx
    }

    /// Remove a backend from the pool by index and hand it back to be shut
    /// down.
    ///
    /// Connections still open on that backend continue until dropped — their
    /// release sees that the backend is gone and leaves the metrics alone. The
    /// backends behind it move up by one, and the strategy is told.
    ///
    /// Returns `None`, and changes nothing, if the index is out of bounds.
    pub fn remove_backend(&mut self, index: usize) -> (removed: Option<B>)
        requires
            old(self)@.wf(),
        ensures
            final(self)@.wf(),
            if index < old(self)@.size() {
                &&& removed == Some(old(self)@.backends[index as int])
                &&& old(self)@.strategy.removal_step(
                    index as int,
                    final(self)@.strategy.state(),
                )
                &&& final(self)@ == old(self)@.after_remove(index as int, final(self)@.strategy)
            } else {
                &&& removed is None
                &&& final(self)@ == old(self)@
            },
    {
        if index >= self.backends.len() {
            return None;
        }
        let backend = self.backends.remove(index);
        let _id = self.ids.remove(index);
        let _metrics = self.metrics.remove(index);
        let _serial: u128 = self.serials.remove(index);
        let _mark = self.draining.remove(index);
        self.strategy.backend_removed(index);
        assert(self@.ids =~= old(self)@.ids.remove(index as int));
        Some(backend)
    }

    /// Where the first backend with this ID is.
    fn position_of_id(&self, id: &str) -> (position: Option<usize>)
        ensures
            match position {
                Some(i) => is_first_with_id(self@.ids, id@, i as int),
                None => !has_id(self@.ids, id@),
            },
    {
        let wanted = id.to_owned();
        let mut i: usize = 0;
        while i < self.ids.len()
            invariant
                i <= self.ids@.len(),
                wanted@ == id@,
                forall|j: int| 0 <= j < i ==> #[trigger] self@.ids[j] != Some(id@),
            decreases self.ids.len() - i,
        {
            let found = match &self.ids[i] {
                Some(known) => *known == wanted,
                None => false,
            };
            assert(self@.ids[i as int] == id_text(self.ids@[i as int]));
            if found {
                return Some(i);
            }
            i += 1;
        }
        None
    }

    /// Remove a backend by its service-discovery ID and hand it back to be
    /// shut down. The first one with that ID goes.
    pub fn remove_backend_by_id(&mut self, id: &str) -> (removed: Option<B>)
        requires
            old(self)@.wf(),
        ensures
            final(self)@.wf(),
            match removed {
                Some(backend) => exists|i: int|
                    {
                        &&& #[trigger] is_first_with_id(old(self)@.ids, id@, i)
                        &&& backend == old(self)@.backends[i]
                        &&& old(self)@.strategy.removal_step(i, final(self)@.strategy.state())
                        &&& final(self)@ == old(self)@.after_remove(i, final(self)@.strategy)
                    },
                None => !has_id(old(self)@.ids, id@) && final(self)@ == old(self)@,
            },
    {
        match self.position_of_id(id) {
            Some(i) => {
                assert(is_first_with_id(self@.ids, id@, i as int));
                self.remove_backend(i)
            },
            None => None,
        }
    }

    /// Return the list of tracked backend IDs.
    pub fn backend_ids(&self) -> (ids: Vec<Option<String>>)
        ensures
            ids@.map_values(|id: Option<String>| id_text(id)) == self@.ids,
    {
        let mut ids: Vec<Option<String>> = Vec::new();
        let mut i: usize = 0;
        while i < self.ids.len()
            invariant
                i <= self.ids@.len(),
                ids@.len() == i,
                forall|j: int| 0 <= j < i ==> id_text(#[trigger] ids@[j]) == self@.ids[j],
            decreases self.ids.len() - i,
        {
            let id: Option<String> = match &self.ids[i] {
                Some(s) => Some(s.clone()),
                None => None,
            };
            assert(self@.ids[i as int] == id_text(self.ids@[i as int]));
            ids.push(id);
            i += 1;
        }
        assert(ids@.map_values(|id: Option<String>| id_text(id)) =~= self@.ids);
        ids
    }

    /// Replace all backends atomically.
    ///
    /// The new backends replace the old pool entirely. The old backends come
    /// back in pool order, to be shut down. If `strategy` is `Some`, the
    /// strategy instance is replaced wholesale (the old strategy's state —
    /// e.g. `Failover`'s primary pin, `Sticky`'s pinned index,
    /// `WeightedRoundRobin`'s RTT cache — is discarded). If `strategy` is
    /// `None`, the existing strategy instance is preserved along with its
    /// state. Returns an error if the new pool is empty.
    pub fn replace_backends(&mut self, new_backends: Vec<B>, strategy: Option<S>) -> (result:
        Result<Vec<B>, Error>)
        requires
            old(self)@.wf(),
            old(self)@.can_grow(new_backends@.len()),
            strategy matches Some(s) ==> s.valid(),
        ensures
            final(self)@.wf(),
            match result {
                Ok(retired) => {
                    &&& new_backends@.len() > 0
                    &&& retired@ == old(self)@.backends
                    &&& final(self)@ == old(self)@.after_replace(new_backends@, strategy)
                },
                Err(e) => {
                    &&& new_backends@.len() == 0
                    &&& e@ == ErrorView::NoBackends
                    &&& final(self)@ == old(self)@
                },
            },
    {
        if new_backends.len() == 0 {
            return Err(Error::no_backends());
        }
        let n: usize = new_backends.len();
        self.ids = empty_ids(n);
        self.metrics = default_metrics(n);
        self.serials = serial_run(self.next_serial, n);
        self.draining = unmarked(n);
        self.next_serial = self.next_serial + n as u128;
        let mut retired = new_backends;
        std::mem::swap(&mut self.backends, &mut retired);
        match strategy {
            Some(s) => {
                self.strategy = s;
            },
            None => {},
        }
        Ok(retired)
    }

    /// Drain a backend gracefully - stop sending new connections but wait for
    /// existing connections to complete.
    ///
    /// While some backend is not draining, no dial goes to one that is.
    /// Returns `false` if the index is out of bounds.
    pub fn drain_backend(&mut self, index: usize) -> (found: bool)
        requires
            old(self)@.wf(),
        ensures
            found == (index < old(self)@.size()),
            final(self)@.wf(),
            final(self)@ == (if found {
                old(self)@.with_mark_at(index as int, true)
            } else {
                old(self)@
            }),
    {
        if index >= self.backends.len() {
            return false;
        }
        self.draining[index] = true;
        true
    }

    /// Check if a backend is draining.
    pub fn is_draining(&self, index: usize) -> (draining: bool)
        requires
            self@.wf(),
        ensures
            draining == self@.draining(index as int),
    {
        index < self.draining.len() && self.draining[index]
    }

    /// Undrain a backend - allow it to receive new connections again.
    ///
    /// Returns `false`, and changes nothing, if it was not draining.
    pub fn undrain_backend(&mut self, index: usize) -> (undrained: bool)
        requires
            old(self)@.wf(),
        ensures
            undrained == old(self)@.draining(index as int),
            final(self)@.wf(),
            final(self)@ == (if undrained {
                old(self)@.with_mark_at(index as int, false)
            } else {
                old(self)@
            }),
    {
        if index < self.draining.len() && self.draining[index] {
            self.draining[index] = false;
            return true;
        }
        false
    }

    /// Replace the strategy at runtime.
    pub fn set_strategy(&mut self, strategy: S)
        requires
            old(self)@.wf(),
            strategy.valid(),
        ensures
            final(self)@.wf(),
            final(self)@ == (BalancerView { strategy, ..old(self)@ }),
    {
        self.strategy = strategy;
    }

    /// Get the current strategy name.
    pub fn strategy_name(&self) -> (name: String)
        ensures
            exists|own: &str| #[trigger]
                call_ensures(S::name, (&self@.strategy,), own) && name@ == own@,
    {
        let own = self.strategy.name();
        assert(call_ensures(S::name, (&self@.strategy,), own));
        own.to_owned()
    }
}

/// A dial in progress.
#[derive(Debug)]
pub struct Dial<P> {
    /// The backend that is dialed: its index when the dial was started.
    pub index: usize,
    /// That backend's serial.
    pub serial: u128,
    /// The serial of the backend that the strategy chose. It is another one
    /// where that one is draining and this one stands in.
    pub chosen: u128,
    /// How many attempts were made.
    pub attempts: u32,
    /// The timeout of each attempt, if there is one.
    pub dial_timeout: Option<Duration>,
    /// The retry policy for this dial only.
    pub retry_policy: Option<P>,
}

/// How one attempt to open a connection ended.
#[derive(Debug)]
pub enum AttemptOutcome<C> {
    /// The backend returned a connection.
    Connected(C),
    /// The backend returned an error.
    Failed(Error),
    /// The attempt took longer than the dial timeout.
    TimedOut,
}

/// What to do after an attempt.
#[derive(Debug)]
pub enum DialStep<C> {
    /// The dial succeeded with this connection.
    Connected(C),
    /// Make another attempt after this delay.
    RetryAfter(Duration),
    /// The dial failed with this error.
    Failed(Error),
}

/// Stands for a connection in the pool's active count. It is handed back to
/// [`LoadBalancer::release`] when the connection is closed.
#[derive(Debug)]
pub struct GuardTicket {
    serial: u128,
}

impl GuardTicket {
    /// The serial of the backend the connection is on.
    pub closed spec fn serial(&self) -> u128 {
        self.serial
    }
}

/// The pick counted as one more open connection.
pub open spec fn opened(m: TunnelMetrics) -> TunnelMetrics {
    TunnelMetrics { active_connections: (m.active_connections + 1) as u32, ..m }
}

/// One connection fewer, but no less than none.
pub open spec fn closed(m: TunnelMetrics) -> TunnelMetrics {
    TunnelMetrics {
        active_connections: (if m.active_connections > 0 {
            m.active_connections - 1
        } else {
            0
        }) as u32,
        ..m
    }
}

/// A dial on the backend succeeded.
pub open spec fn succeeded(m: TunnelMetrics) -> TunnelMetrics {
    TunnelMetrics { recent_errors: 0, total_dials: (m.total_dials + 1) as u64, ..m }
}

/// A dial on the backend failed: its connection is gone, and there is one
/// more error.
pub open spec fn failed(m: TunnelMetrics) -> TunnelMetrics {
    TunnelMetrics {
        recent_errors: capped_inc(m.recent_errors as int, u32::MAX as int) as u32,
        total_errors: capped_inc(m.total_errors as int, u64::MAX as int) as u64,
        ..closed(m)
    }
}

/// How a dial may go on after attempt number `attempt` failed with `error`:
/// another attempt after the delay that the policy gave, or the error itself
/// where there is no policy or the policy gave none.
pub open spec fn step_after_failure<C, P: RetryPolicy>(
    policy: Option<P>,
    attempt: u32,
    elapsed: Duration,
    error: Error,
    step: DialStep<C>,
) -> bool {
    match step {
        DialStep::Connected(_) => false,
        DialStep::RetryAfter(delay) => policy matches Some(p) && retry_answer(
            &p,
            attempt,
            elapsed,
            &error,
            Some(delay),
        ),
        DialStep::Failed(e) => e == error && (policy matches Some(p) ==> retry_answer(
            &p,
            attempt,
            elapsed,
            &error,
            None,
        )),
    }
}

/// The policy that decides about retries of a dial: its own, or else the
/// balancer's.
pub open spec fn policy_of<P>(own: Option<P>, configured: Option<P>) -> Option<P> {
    match own {
        Some(p) => Some(p),
        None => configured,
    }
}

impl<B, S: BalanceStrategy, P> BalancerView<B, S, P> {
    /// A dial to `addr` would reach the strategy.
    pub open spec fn dialable(self, addr: Seq<char>) -> bool {
        address_fault(addr) is None && self.size() > 0
    }

    /// Backend `idx` is marked as draining.
    pub open spec fn draining(self, idx: int) -> bool {
        0 <= idx < self.size() && self.drained[idx]
    }

    /// Every backend is draining.
    pub open spec fn all_draining(self) -> bool {
        forall|i: int| 0 <= i < self.size() ==> #[trigger] self.draining(i)
    }

    /// Dials have to be kept away from some backends: some are draining, and
    /// not all of them.
    pub open spec fn redirects(self) -> bool {
        &&& exists|i: int| #[trigger] self.draining(i)
        &&& !self.all_draining()
    }

    /// The first backend from `at` on that is not draining, going round the
    /// pool for at most `left` steps.
    pub open spec fn next_in_service(self, at: int, left: nat) -> int
        decreases left,
    {
        if left == 0 || !self.draining(at) {
            at
        } else {
            self.next_in_service(
                if at + 1 == self.size() {
                    0
                } else {
                    at + 1
                },
                (left - 1) as nat,
            )
        }
    }

    /// Whether for a dial to `addr` the strategy, asked with the pool's
    /// metrics, may choose backend `chosen` and keep `post` in memory, and the
    /// dial then goes to backend `idx`: the chosen one, or, if that is draining
    /// while another is not, the next one in service.
    pub open spec fn dial_step(
        self,
        addr: Seq<char>,
        post: StrategyState,
        chosen: int,
        idx: int,
    ) -> bool {
        &&& 0 <= chosen < self.size()
        &&& self.strategy.pick_step(addr, self.metrics, post, chosen)
        &&& idx == (if self.redirects() {
            self.next_in_service(chosen, self.size())
        } else {
            chosen
        })
    }

    /// Whether a failed dial on backend `idx` may leave the strategy with
    /// `post` in memory. Where a stand-in was dialed, the strategy hears of
    /// the backend it chose as well, and of that one first.
    pub open spec fn failure_step(self, chosen: u128, idx: int, post: StrategyState) -> bool {
        if self.serials.contains(chosen) && self.serials.index_of(chosen) != idx {
            exists|mid: S|
                {
                    &&& self.strategy.error_step(self.serials.index_of(chosen), mid.state())
                    &&& #[trigger] mid.error_step(idx, post)
                }
        } else {
            self.strategy.error_step(idx, post)
        }
    }

    /// The strategy can be asked for a backend, and the one a dial to `addr`
    /// would go to can take one more connection.
    pub open spec fn has_room_for(self, addr: Seq<char>) -> bool {
        self.dialable(addr) ==> {
            &&& self.strategy.can_pick(addr, self.metrics)
            &&& forall|post: StrategyState, chosen: int, idx: int|
                0 <= idx < self.size() && #[trigger] self.dial_step(addr, post, chosen, idx)
                    ==> self.metrics[idx].active_connections < u32::MAX
        }
    }

    /// The pool with the metrics of backend `idx` replaced.
    pub open spec fn with_metrics_at(self, idx: int, m: TunnelMetrics) -> BalancerView<B, S, P> {
        BalancerView { metrics: self.metrics.update(idx, m), ..self }
    }

    /// The pool once a dial went to backend `idx`, and the strategy is now
    /// `strategy`.
    pub open spec fn after_pick(self, idx: int, strategy: S) -> BalancerView<B, S, P> {
        BalancerView { strategy, ..self.with_metrics_at(idx, opened(self.metrics[idx])) }
    }

    /// The pool once that dial succeeded.
    pub open spec fn after_success(self, idx: int, strategy: S) -> BalancerView<B, S, P> {
        BalancerView {
            strategy,
            ..(if 0 <= idx < self.size() {
                self.with_metrics_at(idx, succeeded(self.metrics[idx]))
            } else {
                self
            })
        }
    }

    /// The pool once that dial failed.
    pub open spec fn after_failure(self, idx: int, strategy: S) -> BalancerView<B, S, P> {
        BalancerView {
            strategy,
            ..(if 0 <= idx < self.size() {
                self.with_metrics_at(idx, failed(self.metrics[idx]))
            } else {
                self
            })
        }
    }

    /// The pool once a connection on the backend with this serial was closed.
    pub open spec fn after_release(self, serial: u128) -> BalancerView<B, S, P> {
        if self.serials.contains(serial) {
            let idx = self.serials.index_of(serial);
            self.with_metrics_at(idx, closed(self.metrics[idx]))
        } else {
            self
        }
    }

    /// The pool with one more backend at its end.
    pub open spec fn after_add(self, backend: B, id: Option<Seq<char>>) -> BalancerView<B, S, P> {
        BalancerView {
            backends: self.backends.push(backend),
            ids: self.ids.push(id),
            metrics: self.metrics.push(TunnelMetrics::zero()),
            serials: self.serials.push(self.next_serial),
            drained: self.drained.push(false),
            next_serial: (self.next_serial + 1) as u128,
            ..self
        }
    }

    /// The pool without backend `idx`, and the strategy is now `strategy`.
    pub open spec fn after_remove(self, idx: int, strategy: S) -> BalancerView<B, S, P> {
        BalancerView {
            backends: self.backends.remove(idx),
            ids: self.ids.remove(idx),
            metrics: self.metrics.remove(idx),
            serials: self.serials.remove(idx),
            drained: self.drained.remove(idx),
            strategy,
            ..self
        }
    }

    /// The pool with all its backends exchanged.
    pub open spec fn after_replace(
        self,
        backends: Seq<B>,
        strategy: Option<S>,
    ) -> BalancerView<B, S, P> {
        BalancerView {
            backends,
            ids: no_ids(backends.len()),
            metrics: zero_metrics(backends.len()),
            serials: serials_from(self.next_serial, backends.len()),
            drained: none_drained(backends.len()),
            next_serial: (self.next_serial + backends.len()) as u128,
            strategy: match strategy {
                Some(s) => s,
                None => self.strategy,
            },
            ..self
        }
    }

    /// The pool with the draining mark of backend `idx` set or lifted.
    pub open spec fn with_mark_at(self, idx: int, mark: bool) -> BalancerView<B, S, P> {
        BalancerView { drained: self.drained.update(idx, mark), ..self }
    }
}

/// If backend `free` is not draining and lies less than `left` steps ahead of
/// `at`, the walk from `at` ends on a backend that is not draining.
pub(crate) proof fn lemma_next_in_service<B, S: BalanceStrategy, P>(
    pool: BalancerView<B, S, P>,
    at: int,
    left: nat,
    free: int,
)
    requires
        0 <= at < pool.size(),
        0 <= free < pool.size(),
        !pool.draining(free),
        (if free >= at {
            free - at
        } else {
            free + pool.size() - at
        }) < left,
    ensures
        0 <= pool.next_in_service(at, left) < pool.size(),
        !pool.draining(pool.next_in_service(at, left)),
    decreases left,
{
    if pool.draining(at) {
        let next = if at + 1 == pool.size() {
            0
        } else {
            at + 1
        };
        lemma_next_in_service(pool, next, (left - 1) as nat, free);
    }
}

/// A dial goes to a backend of the pool, and to a draining one only if all of
/// them are.
pub(crate) proof fn lemma_dial_step<B, S: BalanceStrategy, P>(
    pool: BalancerView<B, S, P>,
    addr: Seq<char>,
    post: StrategyState,
    chosen: int,
    idx: int,
)
    requires
        pool.dial_step(addr, post, chosen, idx),
    ensures
        0 <= idx < pool.size(),
        pool.draining(idx) ==> pool.all_draining(),
{
    if pool.redirects() {
        let free = choose|i: int| 0 <= i < pool.size() && !#[trigger] pool.draining(i);
        lemma_next_in_service(pool, chosen, pool.size(), free);
    }
}

/// The walk depends on the draining marks alone.
proof fn lemma_same_marks<B, S: BalanceStrategy, P>(
    a: BalancerView<B, S, P>,
    b: BalancerView<B, S, P>,
    at: int,
    left: nat,
)
    requires
        a.backends == b.backends,
        a.drained == b.drained,
    ensures
        a.next_in_service(at, left) == b.next_in_service(at, left),
    decreases left,
{
    if left > 0 && a.draining(at) {
        let next = if at + 1 == a.size() {
            0
        } else {
            at + 1
        };
        lemma_same_marks(a, b, next, (left - 1) as nat);
    }
}

/// Serials are distinct, so a backend's serial leads back to it.
pub(crate) proof fn lemma_serial_index<B, S: BalanceStrategy, P>(
    pool: BalancerView<B, S, P>,
    i: int,
)
    requires
        pool.wf(),
        0 <= i < pool.size(),
    ensures
        pool.serials.contains(pool.serials[i]),
        pool.serials.index_of(pool.serials[i]) == i,
{
    let k = pool.serials.index_of(pool.serials[i]);
    assert(pool.serials[i] == pool.serials[k] && 0 <= k < pool.serials.len());
    if k < i {
        assert(pool.serials[k] < pool.serials[i]);
    }
    if i < k {
        assert(pool.serials[i] < pool.serials[k]);
    }
}

impl<B, S: BalanceStrategy, P: RetryPolicy> LoadBalancer<B, S, P> {
    /// Start a dial to `addr` through one of the active backends, chosen by
    /// the configured strategy. A draining backend is passed over for as long
    /// as another one is not draining.
    pub fn dial(&mut self, addr: &str) -> (result: Result<Dial<P>, Error>)
        requires
            old(self)@.wf(),
            old(self)@.has_room_for(addr@),
        ensures
            final(self)@.wf(),
            match result {
                Ok(dial) => {
                    let idx = dial.index as int;
                    &&& old(self)@.dialable(addr@)
                    &&& 0 <= idx < old(self)@.size()
                    &&& exists|chosen: int|
                        {
                            &&& #[trigger] old(self)@.dial_step(
                                addr@,
                                final(self)@.strategy.state(),
                                chosen,
                                idx,
                            )
                            &&& dial.chosen == old(self)@.serials[chosen]
                        }
                    &&& old(self)@.draining(idx) ==> old(self)@.all_draining()
                    &&& final(self)@ == old(self)@.after_pick(idx, final(self)@.strategy)
                    &&& dial.serial == old(self)@.serials[idx]
                    &&& dial.attempts == 0
                    &&& dial.dial_timeout == old(self)@.dial_timeout
                    &&& dial.retry_policy is None
                },
                Err(e) => {
                    &&& final(self)@ == old(self)@
                    &&& match address_fault(addr@) {
                        Some(reason) => e@ == (ErrorView::InvalidAddress { addr: addr@, reason }),
                        None => old(self)@.size() == 0 && e@ == ErrorView::NoBackends,
                    }
                },
            },
    {
        self.dial_with_options(addr, None, None)
    }

    /// Like [`dial`](Self::dial) but lets the caller override the
    /// `dial_timeout` and `retry_policy` for this single call. `None` means
    /// "use the balancer's configured default".
    pub fn dial_with_options(
        &mut self,
        addr: &str,
        dial_timeout: Option<Duration>,
        retry_policy: Option<P>,
    ) -> (result: Result<Dial<P>, Error>)
        requires
            old(self)@.wf(),
            old(self)@.has_room_for(addr@),
        ensures
            final(self)@.wf(),
            match result {
                Ok(dial) => {
                    let idx = dial.index as int;
                    &&& old(self)@.dialable(addr@)
                    &&& 0 <= idx < old(self)@.size()
                    &&& exists|chosen: int|
                        {
                            &&& #[trigger] old(self)@.dial_step(
                                addr@,
                                final(self)@.strategy.state(),
                                chosen,
                                idx,
                            )
                            &&& dial.chosen == old(self)@.serials[chosen]
                        }
                    &&& old(self)@.draining(idx) ==> old(self)@.all_draining()
                    &&& final(self)@ == old(self)@.after_pick(idx, final(self)@.strategy)
                    &&& dial.serial == old(self)@.serials[idx]
                    &&& dial.attempts == 0
                    &&& dial.dial_timeout == (if dial_timeout is Some {
                        dial_timeout
                    } else {
                        old(self)@.dial_timeout
                    })
                    &&& dial.retry_policy == retry_policy
                },
                Err(e) => {
                    &&& final(self)@ == old(self)@
                    &&& match address_fault(addr@) {
                        Some(reason) => e@ == (ErrorView::InvalidAddress { addr: addr@, reason }),
                        None => old(self)@.size() == 0 && e@ == ErrorView::NoBackends,
                    }
                },
            },
    {
        match validate_dial_addr(addr) {
            Ok(()) => {},
            Err(e) => {
                return Err(e);
            },
        }
        // The pool can become empty after `remove_backend`. A strategy is
        // never asked to choose among none.
        if self.backends.len() == 0 {
            return Err(Error::no_backends());
        }
        let ghost before = self@;
        let redirect = self.must_redirect();
        let chosen: usize = {
            let view = PoolView { dial_addr: addr, metrics: self.metrics.as_slice() };
            self.strategy.pick(&view)
        };
        let idx: usize = if redirect {
            self.stand_in(chosen)
        } else {
            chosen
        };
        proof {
            let post = self@.strategy.state();
            lemma_same_marks(self@, before, chosen as int, before.size());
            assert(before.dial_step(addr@, post, chosen as int, idx as int));
            lemma_dial_step(before, addr@, post, chosen as int, idx as int);
        }
        let mut m: TunnelMetrics = self.metrics[idx];
        m.active_connections = m.active_connections + 1;
        self.metrics[idx] = m;
        let timeout: Option<Duration> = match dial_timeout {
            Some(t) => Some(t),
            None => self.dial_timeout,
        };
        Ok(
            Dial {
                index: idx,
                serial: self.serials[idx],
                chosen: self.serials[chosen],
                attempts: 0,
                dial_timeout: timeout,
                retry_policy,
            },
        )
    }

    /// Whether dials have to be kept away from some backends.
    fn must_redirect(&self) -> (must: bool)
        requires
            self@.wf(),
        ensures
            must == self@.redirects(),
    {
        let mut some = false;
        let mut all = true;
        let mut i: usize = 0;
        while i < self.draining.len()
            invariant
                self@.wf(),
                i <= self.draining@.len(),
                some == (exists|j: int| 0 <= j < i && #[trigger] self@.draining(j)),
                all == (forall|j: int| 0 <= j < i ==> #[trigger] self@.draining(j)),
            decreases self.draining.len() - i,
        {
            assert(self@.draining(i as int) == self.draining@[i as int]);
            if self.draining[i] {
                some = true;
            } else {
                all = false;
            }
            i += 1;
        }
        some && !all
    }

    /// The first backend from `picked` on that is not draining.
    fn stand_in(&self, picked: usize) -> (idx: usize)
        requires
            self@.wf(),
            picked < self@.size(),
        ensures
            idx == self@.next_in_service(picked as int, self@.size()),
            idx < self@.size(),
    {
        let n: usize = self.backends.len();
        let mut at: usize = picked;
        let mut left: usize = n;
        while left > 0 && self.draining[at]
            invariant
                self@.wf(),
                n == self@.size(),
                at < n,
                left <= n,
                self@.next_in_service(at as int, left as nat) == self@.next_in_service(
                    picked as int,
                    n as nat,
                ),
            decreases left,
        {
            assert(self@.draining(at as int));
            at = if at + 1 == n {
                0
            } else {
                at + 1
            };
            left -= 1;
        }
        at
    }

    /// Where the backend with this serial is.
    fn position_of_serial(&self, serial: u128) -> (position: Option<usize>)
        requires
            self@.wf(),
        ensures
            match position {
                Some(i) => {
                    &&& i < self@.size()
                    &&& self@.serials.contains(serial)
                    &&& self@.serials.index_of(serial) == i
                },
                None => !self@.serials.contains(serial),
            },
    {
        let mut i: usize = 0;
        while i < self.serials.len()
            invariant
                self@.wf(),
                i <= self.serials@.len(),
                forall|j: int| 0 <= j < i ==> #[trigger] self.serials@[j] != serial,
            decreases self.serials.len() - i,
        {
            if self.serials[i] == serial {
                proof {
                    lemma_serial_index(self@, i as int);
                }
                return Some(i);
            }
            i += 1;
        }
        None
    }

    /// The policy that decides about retries of a dial: its own, or else the
    /// balancer's.
    fn effective_policy<'a>(&'a self, dial: &'a Dial<P>) -> (policy: Option<&'a P>)
        ensures
            policy == (match policy_of(dial.retry_policy, self@.retry_policy) {
                Some(p) => Some(&p),
                None => None,
            }),
    {
        match &dial.retry_policy {
            Some(p) => Some(p),
            None => match &self.retry_policy {
                Some(p) => Some(p),
                None => None,
            },
        }
    }

    /// Take in how an attempt of a dial ended, `elapsed` after the dial was
    /// started, and say how to go on. A failed attempt is repeated for as long
    /// as the retry policy says so.
    pub fn dial_with_retry<C>(
        &self,
        dial: &mut Dial<P>,
        outcome: AttemptOutcome<C>,
        elapsed: Duration,
    ) -> (step: DialStep<C>)
        requires
            old(dial).attempts < u32::MAX,
        ensures
            *final(dial) == (Dial { attempts: (old(dial).attempts + 1) as u32, ..*old(dial) }),
            match outcome {
                AttemptOutcome::Connected(conn) => step == DialStep::Connected(conn),
                AttemptOutcome::Failed(e) => step_after_failure(
                    policy_of(old(dial).retry_policy, self@.retry_policy),
                    final(dial).attempts,
                    elapsed,
                    e,
                    step,
                ),
                AttemptOutcome::TimedOut => exists|late: Error|
                    {
                        &&& #[trigger] late@ == ErrorView::Backend("dial timeout"@)
                        &&& step_after_failure(
                            policy_of(old(dial).retry_policy, self@.retry_policy),
                            final(dial).attempts,
                            elapsed,
                            late,
                            step,
                        )
                    },
            },
    {
        dial.attempts = dial.attempts + 1;
        let error: Error = match outcome {
            AttemptOutcome::Connected(c) => {
                return DialStep::Connected(c);
            },
            AttemptOutcome::Failed(e) => e,
            AttemptOutcome::TimedOut => Error::backend("dial timeout".to_owned()),
        };
        let ghost policy = policy_of(dial.retry_policy, self@.retry_policy);
        let step: DialStep<C> = match self.effective_policy(dial) {
            Some(policy) => match ask_policy(policy, dial.attempts, elapsed, &error) {
                Some(delay) => DialStep::RetryAfter(delay),
                None => DialStep::Failed(error),
            },
            None => DialStep::Failed(error),
        };
        assert(step_after_failure(policy, dial.attempts, elapsed, error, step));
        step
    }

    /// A dial through backend `idx` succeeded.
    pub fn handle_dial_success(&mut self, idx: usize)
        requires
            old(self)@.wf(),
            idx < old(self)@.size() ==> old(self)@.metrics[idx as int].total_dials < u64::MAX,
        ensures
            final(self)@.wf(),
            old(self)@.strategy.success_step(idx as int, final(self)@.strategy.state()),
            final(self)@ == old(self)@.after_success(idx as int, final(self)@.strategy),
    {
        if idx < self.metrics.len() {
            let mut m: TunnelMetrics = self.metrics[idx];
            m.recent_errors = 0;
            m.total_dials = m.total_dials + 1;
            self.metrics[idx] = m;
        }
        self.strategy.report_success(idx);
    }

    /// A dial through backend `idx` failed. The error is handed through.
    pub fn handle_dial_error(&mut self, idx: usize, err: Error) -> (same: Error)
        requires
            old(self)@.wf(),
        ensures
            same == err,
            final(self)@.wf(),
            old(self)@.strategy.error_step(idx as int, final(self)@.strategy.state()),
            final(self)@ == old(self)@.after_failure(idx as int, final(self)@.strategy),
    {
        if idx < self.metrics.len() {
            let mut m: TunnelMetrics = self.metrics[idx];
            m.active_connections = m.active_connections.saturating_sub(1);
            m.total_errors = m.total_errors.saturating_add(1);
            m.recent_errors = m.recent_errors.saturating_add(1);
            self.metrics[idx] = m;
        }
        self.strategy.report_error(idx);
        err
    }

    /// Settle a dial that is over. On success the connection comes back with
    /// the ticket to release it by; on failure the error does. If the backend
    /// has left the pool in the meantime, there are no books to settle.
    pub fn finish_dial<C>(&mut self, dial: Dial<P>, result: Result<C, Error>) -> (settled: Result<
        (C, GuardTicket),
        Error,
    >)
        requires
            old(self)@.wf(),
            result is Ok && old(self)@.serials.contains(dial.serial) ==> old(
                self,
            )@.metrics[old(self)@.serials.index_of(dial.serial)].total_dials < u64::MAX,
        ensures
            final(self)@.wf(),
            match (result, settled) {
                (Ok(conn), Ok((same, ticket))) => {
                    &&& same == conn
                    &&& ticket.serial() == dial.serial
                    &&& if old(self)@.serials.contains(dial.serial) {
                        let idx = old(self)@.serials.index_of(dial.serial);
                        &&& old(self)@.strategy.success_step(idx, final(self)@.strategy.state())
                        &&& final(self)@ == old(self)@.after_success(idx, final(self)@.strategy)
                    } else {
                        final(self)@ == old(self)@
                    }
                },
                (Err(e), Err(same)) => {
                    &&& same == e
                    &&& if old(self)@.serials.contains(dial.serial) {
                        let idx = old(self)@.serials.index_of(dial.serial);
                        &&& old(self)@.failure_step(
                            dial.chosen,
                            idx,
                            final(self)@.strategy.state(),
                        )
                        &&& final(self)@ == old(self)@.after_failure(idx, final(self)@.strategy)
                    } else {
                        final(self)@ == old(self)@
                    }
                },
                _ => false,
            },
    {
        let serial: u128 = dial.serial;
        let position: Option<usize> = self.position_of_serial(serial);
        match result {
            Ok(conn) => {
                match position {
                    Some(idx) => {
                        self.handle_dial_success(idx);
                    },
                    None => {},
                }
                Ok((conn, GuardTicket { serial }))
            },
            Err(e) => match position {
                Some(idx) => {
                    let chosen: Option<usize> = self.position_of_serial(dial.chosen);
                    match chosen {
                        Some(other) => {
                            if other != idx {
                                self.strategy.report_error(other);
                            }
                        },
                        None => {},
                    }
                    let ghost told = self@.strategy;
                    let e = self.handle_dial_error(idx, e);
                    assert(told.error_step(idx as int, self@.strategy.state()));
                    Err(e)
                },
                None => Err(e),
            },
        }
    }

    /// A connection was closed: take it out of its backend's active count,
    /// wherever in the pool that backend is by now. If the backend has left
    /// the pool, nothing changes.
    pub fn release(&mut self, ticket: GuardTicket)
        requires
            old(self)@.wf(),
        ensures
            final(self)@.wf(),
            final(self)@ == old(self)@.after_release(ticket.serial()),
    {
        match self.position_of_serial(ticket.serial) {
            Some(idx) => {
                let mut m: TunnelMetrics = self.metrics[idx];
                m.active_connections = m.active_connections.saturating_sub(1);
                self.metrics[idx] = m;
            },
            None => {},
        }
    }
}

} // verus!
