//! Step-by-step configuration of a balancer.

use std::time::Duration;

use vstd::prelude::*;

use crate::balancer::load_balancer::{
    all_created, collect_outputs, created_backends, created_metrics, default_metrics,
    describe_mismatch, first_failure, fresh_pool, metrics_mismatch, zero_metrics, BackendOutput,
    LoadBalancer,
};
use crate::error::{Error, ErrorView};
use crate::retry::RetryPolicy;
use crate::strategy::{BalanceStrategy, TunnelMetrics};
use crate::text::decimal;

verus! {

/// Builder for [`LoadBalancer`]. Provides a fluent API for configuring the
/// balancer before construction.
///
/// `F` stands for a factory. The builder never runs one itself: it hands them
/// out, and goes on with what running them gave.
#[derive(Debug)]
pub struct LoadBalancerBuilder<B, F, S, P> {
    backends: Option<Vec<B>>,
    factories: Option<Vec<F>>,
    initial_metrics: Option<Vec<TunnelMetrics>>,
    strategy: Option<S>,
    dial_timeout: Option<Duration>,
    retry_policy: Option<P>,
}

/// What a builder was told so far.
pub struct BuilderView<B, F, S, P> {
    pub backends: Option<Seq<B>>,
    pub factories: Option<Seq<F>>,
    pub initial_metrics: Option<Seq<TunnelMetrics>>,
    pub strategy: Option<S>,
    pub dial_timeout: Option<Duration>,
    pub retry_policy: Option<P>,
}

/// An optional list, as a sequence.
pub open spec fn list_view<T>(list: Option<Vec<T>>) -> Option<Seq<T>> {
    match list {
        Some(v) => Some(v@),
        None => None,
    }
}

impl<B, F, S, P> BuilderView<B, F, S, P> {
    /// Nothing set yet.
    pub open spec fn empty() -> Self {
        BuilderView {
            backends: None,
            factories: None,
            initial_metrics: None,
            strategy: None,
            dial_timeout: None,
            retry_policy: None,
        }
    }
}

impl<B, F, S, P> View for LoadBalancerBuilder<B, F, S, P> {
    type V = BuilderView<B, F, S, P>;

    closed spec fn view(&self) -> BuilderView<B, F, S, P> {
        BuilderView {
            backends: list_view(self.backends),
            factories: list_view(self.factories),
            initial_metrics: list_view(self.initial_metrics),
            strategy: self.strategy,
            dial_timeout: self.dial_timeout,
            retry_policy: self.retry_policy,
        }
    }
}

impl<B, F, S, P> Default for LoadBalancerBuilder<B, F, S, P> {
    fn default() -> (b: Self)
        ensures
            b@ == BuilderView::<B, F, S, P>::empty(),
    {
        LoadBalancerBuilder {
            backends: None,
            factories: None,
            initial_metrics: None,
            strategy: None,
            dial_timeout: None,
            retry_policy: None,
        }
    }
}

/// How a build goes on.
#[derive(Debug)]
pub enum BuildStep<B, F, S, P> {
    /// The balancer is ready.
    Ready(LoadBalancer<B, S, P>),
    /// These factories are to be run, in order, until one fails. The build is
    /// finished with what they gave.
    Create(Vec<F>, PendingBuild<S, P>),
}

/// A build that waits for its factories.
#[derive(Debug)]
pub struct PendingBuild<S, P> {
    factory_count: usize,
    initial_metrics: Option<Vec<TunnelMetrics>>,
    strategy: S,
    dial_timeout: Option<Duration>,
    retry_policy: Option<P>,
}

/// What a pending build waits for, and what it will use.
pub struct PendingView<S, P> {
    pub factory_count: nat,
    pub initial_metrics: Option<Seq<TunnelMetrics>>,
    pub strategy: S,
    pub dial_timeout: Option<Duration>,
    pub retry_policy: Option<P>,
}

impl<S, P> View for PendingBuild<S, P> {
    type V = PendingView<S, P>;

    closed spec fn view(&self) -> PendingView<S, P> {
        PendingView {
            factory_count: self.factory_count as nat,
            initial_metrics: list_view(self.initial_metrics),
            strategy: self.strategy,
            dial_timeout: self.dial_timeout,
            retry_policy: self.retry_policy,
        }
    }
}

/// Why a builder cannot build, before any factory is run; `None` if it can.
pub open spec fn build_fault<B, F, S, P>(b: BuilderView<B, F, S, P>) -> Option<ErrorView> {
    if b.strategy is None {
        Some(ErrorView::Factory("strategy required"@))
    } else {
        match (b.backends, b.factories) {
            (Some(_), Some(_)) => Some(
                ErrorView::Factory("cannot set both backends and factories"@),
            ),
            (None, None) => Some(ErrorView::Factory("backends or factories required"@)),
            (Some(backends), None) => match b.initial_metrics {
                Some(metrics) => if metrics.len() != backends.len() {
                    Some(
                        ErrorView::Factory(
                            metrics_mismatch(metrics.len(), "backends"@, backends.len()),
                        ),
                    )
                } else if backends.len() == 0 {
                    Some(ErrorView::NoBackends)
                } else {
                    None
                },
                None => if backends.len() == 0 {
                    Some(ErrorView::NoBackends)
                } else {
                    None
                },
            },
            (None, Some(factories)) => if factories.len() == 0 {
                Some(ErrorView::NoBackends)
            } else {
                None
            },
        }
    }
}

impl<B, F, S: BalanceStrategy, P: RetryPolicy> LoadBalancerBuilder<B, F, S, P> {
    /// Set the pre-constructed backends. Mutually exclusive with
    /// [`factories`](Self::factories).
    #[must_use]
    pub fn backends(self, backends: Vec<B>) -> (b: Self)
        ensures
            b@ == (BuilderView { backends: Some(backends@), ..self@ }),
    {
        let mut b = self;
        b.backends = Some(backends);
        b
    }

    /// Set backend factories for lazy construction. Mutually exclusive with
    /// [`backends`](Self::backends).
    #[must_use]
    pub fn factories(self, factories: Vec<F>) -> (b: Self)
        ensures
            b@ == (BuilderView { factories: Some(factories@), ..self@ }),
    {
        let mut b = self;
        b.factories = Some(factories);
        b
    }

    /// Seed initial metrics for each backend. Must match the number of
    /// backends/factories.
    #[must_use]
    pub fn initial_metrics(self, metrics: Vec<TunnelMetrics>) -> (b: Self)
        ensures
            b@ == (BuilderView { initial_metrics: Some(metrics@), ..self@ }),
    {
        let mut b = self;
        b.initial_metrics = Some(metrics);
        b
    }

    /// Set the load balancing strategy.
    #[must_use]
    pub fn strategy(self, strategy: S) -> (b: Self)
        ensures
            b@ == (BuilderView { strategy: Some(strategy), ..self@ }),
    {
        let mut b = self;
        b.strategy = Some(strategy);
        b
    }

    /// Set a timeout for each dial attempt. If not set, no timeout is applied.
    #[must_use]
    pub fn dial_timeout(self, timeout: Duration) -> (b: Self)
        ensures
            b@ == (BuilderView { dial_timeout: Some(timeout), ..self@ }),
    {
        let mut b = self;
        b.dial_timeout = Some(timeout);
        b
    }

    /// Set a retry policy for failed dial attempts.
    #[must_use]
    pub fn retry_policy(self, policy: P) -> (b: Self)
        ensures
            b@ == (BuilderView { retry_policy: Some(policy), ..self@ }),
    {
        let mut b = self;
        b.retry_policy = Some(policy);
        b
    }

    /// Build the load balancer. Exactly one of `backends` or `factories` must
    /// be set.
    pub fn build(self) -> (result: Result<BuildStep<B, F, S, P>, Error>)
        requires
            self@.strategy matches Some(s) ==> s.valid(),
        ensures
            match (build_fault(self@), result) {
                (Some(view), Err(e)) => e@ == view,
                (None, Ok(BuildStep::Ready(lb))) => {
                    &&& self@.backends is Some
                    &&& lb@.wf()
                    &&& lb@ == fresh_pool(
                        self@.backends->0,
                        match self@.initial_metrics {
                            Some(metrics) => metrics,
                            None => zero_metrics(self@.backends->0.len()),
                        },
                        self@.strategy->0,
                        self@.dial_timeout,
                        self@.retry_policy,
                    )
                },
                (None, Ok(BuildStep::Create(factories, pending))) => {
                    &&& self@.factories == Some(factories@)
                    &&& pending@ == (PendingView {
                        factory_count: factories@.len(),
                        initial_metrics: self@.initial_metrics,
                        strategy: self@.strategy->0,
                        dial_timeout: self@.dial_timeout,
                        retry_policy: self@.retry_policy,
                    })
                },
                _ => false,
            },
    {
        let strategy: S = match self.strategy {
            Some(s) => s,
            None => {
                return Err(Error::factory("strategy required".to_owned()));
            },
        };
        match (self.backends, self.factories) {
            (Some(backends), None) => {
                let metrics: Vec<TunnelMetrics> = match self.initial_metrics {
                    Some(m) => {
                        if m.len() != backends.len() {
                            return Err(
                                Error::factory(
                                    describe_mismatch(m.len(), "backends", backends.len()),
                                ),
                            );
                        }
                        m
                    },
                    None => default_metrics(backends.len()),
                };
                match LoadBalancer::new_with_metrics(
                    backends,
                    metrics,
                    strategy,
                    self.dial_timeout,
                    self.retry_policy,
                ) {
                    Ok(lb) => Ok(BuildStep::Ready(lb)),
                    Err(e) => Err(e),
                }
            },
            (None, Some(factories)) => {
                if factories.len() == 0 {
                    return Err(Error::no_backends());
                }
                let pending = PendingBuild {
                    factory_count: factories.len(),
                    initial_metrics: self.initial_metrics,
                    strategy,
                    dial_timeout: self.dial_timeout,
                    retry_policy: self.retry_policy,
                };
                Ok(BuildStep::Create(factories, pending))
            },
            (Some(_), Some(_)) => Err(
                Error::factory("cannot set both backends and factories".to_owned()),
            ),
            (None, None) => Err(Error::factory("backends or factories required".to_owned())),
        }
    }
}

impl<S: BalanceStrategy, P: RetryPolicy> PendingBuild<S, P> {
    /// Finish the build with what running the factories gave, in order, up to
    /// and including the first failure.
    pub fn finish<B>(self, created: Vec<Result<BackendOutput<B>, Error>>) -> (result: Result<
        LoadBalancer<B, S, P>,
        Error,
    >)
        requires
            self@.strategy.valid(),
            self@.factory_count > 0,
            all_created(created@) ==> created@.len() == self@.factory_count,
        ensures
            match result {
                Ok(lb) => {
                    &&& all_created(created@)
                    &&& self@.initial_metrics matches Some(m) ==> m.len() == self@.factory_count
                    &&& lb@.wf()
                    &&& lb@ == fresh_pool(
                        created_backends(created@),
                        match self@.initial_metrics {
                            Some(metrics) => metrics,
                            None => created_metrics(created@),
                        },
                        self@.strategy,
                        self@.dial_timeout,
                        self@.retry_policy,
                    )
                },
                Err(e) => if all_created(created@) {
                    &&& self@.initial_metrics matches Some(m)
                    &&& m.len() != self@.factory_count
                    &&& e@ == ErrorView::Factory(
                        metrics_mismatch(m.len(), "factories"@, self@.factory_count),
                    )
                } else {
                    exists|k: int| #[trigger]
                        first_failure(created@, k) && created@[k] == Err::<
                            BackendOutput<B>,
                            Error,
                        >(e)
                },
            },
    {
        let (backends, outputs) = match collect_outputs(created) {
            Ok(parts) => parts,
            Err(e) => {
                return Err(e);
            },
        };
        let metrics: Vec<TunnelMetrics> = match self.initial_metrics {
            Some(m) => {
                if m.len() != self.factory_count {
                    return Err(
                        Error::factory(
                            describe_mismatch(m.len(), "factories", self.factory_count),
                        ),
                    );
                }
                m
            },
            None => outputs,
        };
        LoadBalancer::new_with_metrics(
            backends,
            metrics,
            self.strategy,
            self.dial_timeout,
            self.retry_policy,
        )
    }
}

/// A new builder was told nothing.
pub proof fn a_new_builder_is_empty<B, F, S: BalanceStrategy, P: RetryPolicy>(
    made: LoadBalancerBuilder<B, F, S, P>,
)
    requires
        call_ensures(LoadBalancerBuilder::<B, F, S, P>::default, (), made) || call_ensures(
            LoadBalancer::<B, S, P>::builder::<F>,
            (),
            made,
        ),
    ensures
        made@.backends is None,
        made@.factories is None,
        made@.initial_metrics is None,
        made@.strategy is None,
        made@.dial_timeout is None,
        made@.retry_policy is None,
{
}

/// Every setter sets what it is named after, over what was set before, and
/// leaves the rest.
pub proof fn setters_set_one_thing<B, F, S: BalanceStrategy, P: RetryPolicy>(
    b: LoadBalancerBuilder<B, F, S, P>,
    backends: Vec<B>,
    factories: Vec<F>,
    metrics: Vec<TunnelMetrics>,
    strategy: S,
    timeout: Duration,
    policy: P,
    after: LoadBalancerBuilder<B, F, S, P>,
)
    ensures
        call_ensures(LoadBalancerBuilder::<B, F, S, P>::backends, (b, backends), after) ==> {
            &&& after@.backends == Some(backends@)
            &&& after@.factories == b@.factories
            &&& after@.initial_metrics == b@.initial_metrics
            &&& after@.strategy == b@.strategy
            &&& after@.dial_timeout == b@.dial_timeout
            &&& after@.retry_policy == b@.retry_policy
        },
        call_ensures(LoadBalancerBuilder::<B, F, S, P>::factories, (b, factories), after) ==> {
            &&& after@.factories == Some(factories@)
            &&& after@.backends == b@.backends
            &&& after@.initial_metrics == b@.initial_metrics
            &&& after@.strategy == b@.strategy
            &&& after@.dial_timeout == b@.dial_timeout
            &&& after@.retry_policy == b@.retry_policy
        },
        call_ensures(LoadBalancerBuilder::<B, F, S, P>::initial_metrics, (b, metrics), after) ==> {
            &&& after@.initial_metrics == Some(metrics@)
            &&& after@.backends == b@.backends
            &&& after@.factories == b@.factories
            &&& after@.strategy == b@.strategy
            &&& after@.dial_timeout == b@.dial_timeout
            &&& after@.retry_policy == b@.retry_policy
        },
        call_ensures(LoadBalancerBuilder::<B, F, S, P>::strategy, (b, strategy), after) ==> {
            &&& after@.strategy == Some(strategy)
            &&& after@.backends == b@.backends
            &&& after@.factories == b@.factories
            &&& after@.initial_metrics == b@.initial_metrics
            &&& after@.dial_timeout == b@.dial_timeout
            &&& after@.retry_policy == b@.retry_policy
        },
        call_ensures(LoadBalancerBuilder::<B, F, S, P>::dial_timeout, (b, timeout), after) ==> {
            &&& after@.dial_timeout == Some(timeout)
            &&& after@.backends == b@.backends
            &&& after@.factories == b@.factories
            &&& after@.initial_metrics == b@.initial_metrics
            &&& after@.strategy == b@.strategy
            &&& after@.retry_policy == b@.retry_policy
        },
        call_ensures(LoadBalancerBuilder::<B, F, S, P>::retry_policy, (b, policy), after) ==> {
            &&& after@.retry_policy == Some(policy)
            &&& after@.backends == b@.backends
            &&& after@.factories == b@.factories
            &&& after@.initial_metrics == b@.initial_metrics
            &&& after@.strategy == b@.strategy
            &&& after@.dial_timeout == b@.dial_timeout
        },
{
}

/// Nothing is built without a strategy, with both backends and factories, or
/// with neither, in this order of complaints.
pub proof fn incomplete_builders_are_refused<B, F, S: BalanceStrategy, P: RetryPolicy>(
    b: LoadBalancerBuilder<B, F, S, P>,
    result: Result<BuildStep<B, F, S, P>, Error>,
)
    requires
        call_ensures(LoadBalancerBuilder::<B, F, S, P>::build, (b,), result),
    ensures
        b@.strategy is None ==> (result matches Err(e) && e@ == ErrorView::Factory(
            "strategy required"@,
        )),
        b@.strategy is Some && b@.backends is Some && b@.factories is Some ==> (
        result matches Err(e) && e@ == ErrorView::Factory(
            "cannot set both backends and factories"@,
        )),
        b@.strategy is Some && b@.backends is None && b@.factories is None ==> (
        result matches Err(e) && e@ == ErrorView::Factory("backends or factories required"@)),
{
}

/// With backends, the balancer is ready at once, made of what was set. Without
/// metrics nothing is known of the backends. Metrics have to be as many as the
/// backends, and there has to be a backend.
pub proof fn backends_build_at_once<B, F, S: BalanceStrategy, P: RetryPolicy>(
    b: LoadBalancerBuilder<B, F, S, P>,
    result: Result<BuildStep<B, F, S, P>, Error>,
    backends: Seq<B>,
    strategy: S,
    i: int,
)
    requires
        call_ensures(LoadBalancerBuilder::<B, F, S, P>::build, (b,), result),
        b@.strategy == Some(strategy),
        b@.backends == Some(backends),
        b@.factories is None,
    ensures
        b@.initial_metrics matches Some(m) ==> m.len() != backends.len() ==> (
        result matches Err(e) && e@ == ErrorView::Factory(
            "initial_metrics.len() ("@ + decimal(m.len()) + ") must equal "@ + "backends"@
                + ".len() ("@ + decimal(backends.len()) + ")"@,
        )),
        backends.len() == 0 && (b@.initial_metrics matches Some(m) ==> m.len() == 0) ==> (
        result matches Err(e) && e@ == ErrorView::NoBackends),
        backends.len() > 0 && (b@.initial_metrics matches Some(m) ==> m.len() == backends.len())
            ==> {
            &&& result matches Ok(BuildStep::Ready(lb))
            &&& lb@.wf()
            &&& lb@.backends == backends
            &&& lb@.strategy == strategy
            &&& lb@.dial_timeout == b@.dial_timeout
            &&& lb@.retry_policy == b@.retry_policy
            &&& b@.initial_metrics matches Some(m) ==> lb@.metrics == m
            &&& 0 <= i < backends.len() ==> {
                &&& lb@.ids[i] is None
                &&& !lb@.drained[i]
                &&& b@.initial_metrics is None ==> lb@.metrics[i].rtt is None
                    && lb@.metrics[i].active_connections == 0 && lb@.metrics[i].recent_errors == 0
                    && lb@.metrics[i].total_dials == 0 && lb@.metrics[i].total_errors == 0
            }
        },
{
}

/// With factories, those are handed out, in order, and the build keeps what
/// else was set. There has to be one.
pub proof fn factories_build_later<B, F, S: BalanceStrategy, P: RetryPolicy>(
    b: LoadBalancerBuilder<B, F, S, P>,
    result: Result<BuildStep<B, F, S, P>, Error>,
    factories: Seq<F>,
    strategy: S,
)
    requires
        call_ensures(LoadBalancerBuilder::<B, F, S, P>::build, (b,), result),
        b@.strategy == Some(strategy),
        b@.backends is None,
        b@.factories == Some(factories),
    ensures
        factories.len() == 0 ==> (result matches Err(e) && e@ == ErrorView::NoBackends),
        factories.len() > 0 ==> {
            &&& result matches Ok(BuildStep::Create(list, pending))
            &&& list@ == factories
            &&& pending@.factory_count == factories.len()
            &&& pending@.initial_metrics == b@.initial_metrics
            &&& pending@.strategy == strategy
            &&& pending@.dial_timeout == b@.dial_timeout
            &&& pending@.retry_policy == b@.retry_policy
        },
{
}

/// When every factory made a backend, the balancer has them in order. Metrics
/// that were set go over those that the backends came with, and have to be as
/// many as the factories.
pub proof fn created_backends_finish_a_build<B, S: BalanceStrategy, P: RetryPolicy>(
    pending: PendingBuild<S, P>,
    created: Vec<Result<BackendOutput<B>, Error>>,
    result: Result<LoadBalancer<B, S, P>, Error>,
    i: int,
)
    requires
        pending@.factory_count > 0,
        created@.len() == pending@.factory_count,
        forall|k: int| 0 <= k < created@.len() ==> #[trigger] created@[k] is Ok,
        call_ensures(PendingBuild::<S, P>::finish::<B>, (pending, created), result),
        0 <= i < created@.len(),
    ensures
        pending@.initial_metrics matches Some(m) ==> m.len() != created@.len() ==> (
        result matches Err(e) && e@ == ErrorView::Factory(
            "initial_metrics.len() ("@ + decimal(m.len()) + ") must equal "@ + "factories"@
                + ".len() ("@ + decimal(created@.len()) + ")"@,
        )),
        (pending@.initial_metrics matches Some(m) ==> m.len() == created@.len()) ==> {
            &&& result matches Ok(lb)
            &&& lb@.backends.len() == created@.len()
            &&& lb@.backends[i] == created@[i]->Ok_0.backend
            &&& lb@.metrics[i] == (if pending@.initial_metrics is Some {
                pending@.initial_metrics->0[i]
            } else {
                created@[i]->Ok_0.initial_metrics
            })
            &&& lb@.ids[i] is None
            &&& !lb@.drained[i]
            &&& lb@.strategy == pending@.strategy
            &&& lb@.dial_timeout == pending@.dial_timeout
            &&& lb@.retry_policy == pending@.retry_policy
        },
{
    assert(all_created(created@));
}

/// The first factory that failed ends the build, with its error.
pub proof fn a_failed_factory_ends_a_build<B, S: BalanceStrategy, P: RetryPolicy>(
    pending: PendingBuild<S, P>,
    created: Vec<Result<BackendOutput<B>, Error>>,
    result: Result<LoadBalancer<B, S, P>, Error>,
    at: int,
    error: Error,
)
    requires
        pending@.factory_count > 0,
        0 <= at < created@.len(),
        created@[at] == Err::<BackendOutput<B>, Error>(error),
        forall|k: int| 0 <= k < at ==> #[trigger] created@[k] is Ok,
        call_ensures(PendingBuild::<S, P>::finish::<B>, (pending, created), result),
    ensures
        result matches Err(e) && e == error,
{
    assert(created@[at] is Err);
}

} // verus!
