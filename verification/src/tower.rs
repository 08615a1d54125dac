//! Requests to a balancer that is used as a service.

use std::time::Duration;

use vstd::prelude::*;

use crate::error::{Error, ErrorView};

verus! {

/// A request for the load balancer service.
#[derive(Debug)]
pub struct LbRequest<P> {
    /// The address to dial (e.g., "api.example.com:443").
    pub addr: String,
    /// Optional per-request dial timeout override.
    pub dial_timeout: Option<Duration>,
    /// Optional per-request retry policy override.
    pub retry_policy: Option<P>,
}

impl<P> LbRequest<P> {
    /// Create a new request with just an address.
    pub fn new(addr: String) -> (r: Self)
        ensures
            r == (LbRequest::<P> { addr, dial_timeout: None, retry_policy: None }),
    {
        LbRequest { addr, dial_timeout: None, retry_policy: None }
    }

    /// Set a per-request dial timeout.
    #[must_use]
    pub fn with_dial_timeout(self, timeout: Duration) -> (r: Self)
        ensures
            r == (LbRequest { dial_timeout: Some(timeout), ..self }),
    {
        let mut r = self;
        r.dial_timeout = Some(timeout);
        r
    }

    /// Set a per-request retry policy.
    #[must_use]
    pub fn with_retry_policy(self, policy: P) -> (r: Self)
        ensures
            r == (LbRequest { retry_policy: Some(policy), ..self }),
    {
        let mut r = self;
        r.retry_policy = Some(policy);
        r
    }
}

impl<P: Clone> Clone for LbRequest<P> {
    fn clone(&self) -> (copy: Self)
        ensures
            copy.addr@ == self.addr@,
            copy.dial_timeout == self.dial_timeout,
            match (self.retry_policy, copy.retry_policy) {
                (Some(a), Some(b)) => cloned::<P>(a, b),
                (None, None) => true,
                _ => false,
            },
    {
        LbRequest {
            addr: self.addr.clone(),
            dial_timeout: self.dial_timeout,
            retry_policy: match &self.retry_policy {
                Some(p) => Some(p.clone()),
                None => None,
            },
        }
    }
}

/// Whether a balancer with so many backends takes requests.
pub fn poll_ready(backend_count: usize) -> (ready: Result<(), Error>)
    ensures
        match ready {
            Ok(()) => backend_count > 0,
            Err(e) => backend_count == 0 && e@ == ErrorView::NoBackends,
        },
{
    if backend_count == 0 {
        Err(Error::no_backends())
    } else {
        Ok(())
    }
}

/// A service is ready exactly while there are backends.
pub proof fn ready_means_backends(backend_count: usize, ready: Result<(), Error>)
    requires
        call_ensures(poll_ready, (backend_count,), ready),
    ensures
        backend_count > 0 ==> ready is Ok,
        backend_count == 0 ==> (ready matches Err(e) && e@ == ErrorView::NoBackends),
{
}

/// A request carries its address and, of each option, what was set last.
pub proof fn requests_carry_what_was_set<P>(
    addr: String,
    new: LbRequest<P>,
    timeout: Duration,
    timed: LbRequest<P>,
    policy: P,
    retried: LbRequest<P>,
)
    requires
        call_ensures(LbRequest::<P>::new, (addr,), new),
        call_ensures(LbRequest::<P>::with_dial_timeout, (new, timeout), timed),
        call_ensures(LbRequest::<P>::with_retry_policy, (timed, policy), retried),
    ensures
        new.addr@ == addr@,
        new.dial_timeout is None,
        new.retry_policy is None,
        timed.addr@ == addr@,
        timed.dial_timeout == Some(timeout),
        timed.retry_policy is None,
        retried.addr@ == addr@,
        retried.dial_timeout == Some(timeout),
        retried.retry_policy == Some(policy),
{
}

/// A copy of a request asks for the same.
pub proof fn copied_requests_ask_for_the_same<P: Clone>(r: &LbRequest<P>, copy: LbRequest<P>)
    requires
        call_ensures(LbRequest::<P>::clone, (r,), copy),
    ensures
        copy.addr@ == r.addr@,
        copy.dial_timeout == r.dial_timeout,
        copy.retry_policy is Some <==> r.retry_policy is Some,
{
}

} // verus!
