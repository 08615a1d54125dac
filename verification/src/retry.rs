//! Retry policy for dial operations.

use std::sync::Arc;
use std::time::Duration;

use vstd::prelude::*;

use crate::duration::duration_nanos;
use crate::error::{Error, ErrorView};
use crate::text::{ascii_lower, contains, contains_text, lower_case, to_lower_case};

verus! {

/// A policy for retrying failed dial attempts.
///
/// This trait allows customizing retry behavior for transient failures.
pub trait RetryPolicy: Send + Sync {
    /// Determine whether to retry and the delay before the next attempt.
    ///
    /// Returns `Some(delay)` if a retry should be attempted after `delay`,
    /// or `None` if the operation should fail with the given error.
    fn should_retry(&self, attempt: u32, error: &Error) -> (delay: Option<Duration>);

    /// Maximum total time allowed for all retry attempts.
    ///
    /// If the total elapsed time exceeds this budget, no more retries are
    /// attempted.
    fn total_timeout(&self) -> (budget: Option<Duration>)
        default_ensures
            budget is None,
    {
        None
    }

    /// Maximum number of retry attempts (including the initial attempt).
    ///
    /// If `None`, there's no limit on the number of attempts (bounded by
    /// `total_timeout`).
    fn max_attempts(&self) -> (limit: Option<u32>)
        default_ensures
            limit is None,
    {
        None
    }
}

/// Whether `attempt` attempts use up a limit.
pub open spec fn exhausted(limit: Option<u32>, attempt: u32) -> bool {
    limit matches Some(max) && attempt >= max
}

/// Whether `elapsed` is still within a time budget.
pub open spec fn within_budget(budget: Option<Duration>, elapsed: Duration) -> bool {
    budget matches Some(t) ==> duration_nanos(elapsed) < duration_nanos(t)
}

/// Whether `attempt` attempts use up a limit.
pub fn attempts_exhausted(limit: Option<u32>, attempt: u32) -> (used_up: bool)
    ensures
        used_up == exhausted(limit, attempt),
{
    match limit {
        Some(max) => attempt >= max,
        None => false,
    }
}

/// Whether a policy's limits leave room for another attempt: the time budget
/// is not used up, and neither is the number of attempts.
pub fn may_retry(
    budget: Option<Duration>,
    limit: Option<u32>,
    attempt: u32,
    elapsed: Duration,
) -> (room: bool)
    ensures
        room == (within_budget(budget, elapsed) && !exhausted(limit, attempt)),
{
    let in_time = match budget {
        Some(t) => elapsed.as_nanos() < t.as_nanos(),
        None => true,
    };
    in_time && !attempts_exhausted(limit, attempt)
}

/// What a policy may answer to failed attempt number `attempt`, `elapsed`
/// after the first one was started: nothing once one of its limits is used
/// up, otherwise what its `should_retry` returns.
pub open spec fn retry_answer<P: RetryPolicy>(
    policy: &P,
    attempt: u32,
    elapsed: Duration,
    error: &Error,
    delay: Option<Duration>,
) -> bool {
    exists|budget: Option<Duration>, limit: Option<u32>|
        {
            &&& #[trigger] call_ensures(P::total_timeout, (policy,), budget)
            &&& #[trigger] call_ensures(P::max_attempts, (policy,), limit)
            &&& if within_budget(budget, elapsed) && !exhausted(limit, attempt) {
                call_ensures(P::should_retry, (policy, attempt, error), delay)
            } else {
                delay is None
            }
        }
}

/// Ask a policy about a failed attempt.
pub fn ask_policy<P: RetryPolicy>(
    policy: &P,
    attempt: u32,
    elapsed: Duration,
    error: &Error,
) -> (delay: Option<Duration>)
    ensures
        retry_answer(policy, attempt, elapsed, error, delay),
{
    let budget = policy.total_timeout();
    let limit = policy.max_attempts();
    if may_retry(budget, limit, attempt, elapsed) {
        policy.should_retry(attempt, error)
    } else {
        None
    }
}

/// No retries - fail immediately on any error.
#[derive(Debug, Clone, Copy)]
pub struct NoRetry;

impl Default for NoRetry {
    fn default() -> (p: Self)
        ensures
            p == NoRetry,
    {
        NoRetry
    }
}

impl RetryPolicy for NoRetry {
    fn should_retry(&self, attempt: u32, error: &Error) -> (delay: Option<Duration>)
        ensures
            delay is None,
    {
        None
    }
}

/// Retry with fixed delay between attempts.
#[derive(Debug, Clone, Copy)]
pub struct FixedRetry {
    delay: Duration,
    max_attempts: Option<u32>,
}

impl FixedRetry {
    /// The pause before each retry.
    pub closed spec fn delay(&self) -> Duration {
        self.delay
    }

    /// The most attempts that are made.
    pub closed spec fn limit(&self) -> Option<u32> {
        self.max_attempts
    }

    /// Create a new fixed retry policy.
    pub fn new(delay: Duration) -> (p: Self)
        ensures
            p.delay() == delay,
            p.limit() is None,
    {
        FixedRetry { delay, max_attempts: None }
    }

    /// Set the maximum number of attempts.
    #[must_use]
    pub fn with_max_attempts(self, max: u32) -> (p: Self)
        ensures
            p.delay() == self.delay(),
            p.limit() == Some(max),
    {
        FixedRetry { delay: self.delay, max_attempts: Some(max) }
    }
}

impl RetryPolicy for FixedRetry {
    fn should_retry(&self, attempt: u32, error: &Error) -> (delay: Option<Duration>)
        ensures
            delay == (if exhausted(self.limit(), attempt) { None } else { Some(self.delay()) }),
    {
        if attempts_exhausted(self.max_attempts, attempt) {
            return None;
        }
        Some(self.delay)
    }

    fn max_attempts(&self) -> (limit: Option<u32>)
        ensures
            limit == self.limit(),
    {
        self.max_attempts
    }
}

/// The power of the multiplier that an exponential backoff applies after
/// attempt number `attempt`: the attempt itself, as far as an `i32` goes.
pub fn backoff_exponent(attempt: u32) -> (exponent: i32)
    ensures
        exponent == (if attempt <= i32::MAX { attempt as int } else { i32::MAX as int }),
{
    if attempt <= i32::MAX as u32 {
        attempt as i32
    } else {
        i32::MAX
    }
}

/// Retry only on specific error types (e.g., transient I/O errors).
pub struct RetryOnError<I: RetryPolicy, F: Fn(&Error) -> bool + Send + Sync> {
    inner: I,
    predicate: F,
}

impl<I: RetryPolicy, F: Fn(&Error) -> bool + Send + Sync> RetryOnError<I, F> {
    /// The policy asked where the predicate holds.
    pub closed spec fn inner(&self) -> I {
        self.inner
    }

    /// The test on the error.
    pub closed spec fn predicate(&self) -> F {
        self.predicate
    }

    /// The test can be put to any error.
    #[verifier::type_invariant]
    spec fn test_is_total(&self) -> bool {
        forall|e: &Error| call_requires(self.predicate, (e,))
    }

    /// Create a new conditional retry policy.
    pub fn new(inner: I, predicate: F) -> (p: Self)
        requires
            forall|e: &Error| call_requires(predicate, (e,)),
        ensures
            p.inner() == inner,
            p.predicate() == predicate,
    {
        RetryOnError { inner, predicate }
    }
}

impl<I: RetryPolicy, F: Fn(&Error) -> bool + Send + Sync> RetryPolicy for RetryOnError<I, F> {
    fn should_retry(&self, attempt: u32, error: &Error) -> (delay: Option<Duration>)
        ensures
            exists|wanted: bool|
                {
                    &&& #[trigger] call_ensures(self.predicate(), (error,), wanted)
                    &&& if wanted {
                        call_ensures(I::should_retry, (&self.inner(), attempt, error), delay)
                    } else {
                        delay is None
                    }
                },
    {
        proof {
            use_type_invariant(self);
        }
        let predicate: &F = &self.predicate;
        assert(call_requires(self.predicate(), (error,)));
        let wanted: bool = predicate(error);
        assert(call_ensures(self.predicate(), (error,), wanted));
        if wanted {
            self.inner.should_retry(attempt, error)
        } else {
            None
        }
    }

    fn total_timeout(&self) -> (budget: Option<Duration>)
        ensures
            call_ensures(I::total_timeout, (&self.inner(),), budget),
    {
        self.inner.total_timeout()
    }

    fn max_attempts(&self) -> (limit: Option<u32>)
        ensures
            call_ensures(I::max_attempts, (&self.inner(),), limit),
    {
        self.inner.max_attempts()
    }
}

/// A boxed policy is itself a policy.
impl<T: RetryPolicy + ?Sized> RetryPolicy for Box<T> {
    fn should_retry(&self, attempt: u32, error: &Error) -> (delay: Option<Duration>)
        ensures
            call_ensures(T::should_retry, (&**self, attempt, error), delay),
    {
        (**self).should_retry(attempt, error)
    }

    fn total_timeout(&self) -> (budget: Option<Duration>)
        ensures
            call_ensures(T::total_timeout, (&**self,), budget),
    {
        (**self).total_timeout()
    }

    fn max_attempts(&self) -> (limit: Option<u32>)
        ensures
            call_ensures(T::max_attempts, (&**self,), limit),
    {
        (**self).max_attempts()
    }
}

/// A shared policy is itself a policy.
impl<T: RetryPolicy + ?Sized> RetryPolicy for Arc<T> {
    fn should_retry(&self, attempt: u32, error: &Error) -> (delay: Option<Duration>)
        ensures
            call_ensures(T::should_retry, (&**self, attempt, error), delay),
    {
        (**self).should_retry(attempt, error)
    }

    fn total_timeout(&self) -> (budget: Option<Duration>)
        ensures
            call_ensures(T::total_timeout, (&**self,), budget),
    {
        (**self).total_timeout()
    }

    fn max_attempts(&self) -> (limit: Option<u32>)
        ensures
            call_ensures(T::max_attempts, (&**self,), limit),
    {
        (**self).max_attempts()
    }
}

/// The timeout spellings that make a lower-case message a transient one.
pub open spec fn mentions_timeout(lower: Seq<char>) -> bool {
    ||| contains(lower, "timeout"@)
    ||| contains(lower, "timed out"@)
    ||| contains(lower, "timedout"@)
    ||| contains(lower, "time out"@)
}

/// The ASCII lower case of a text.
pub open spec fn ascii_lower_text(s: Seq<char>) -> Seq<char> {
    s.map_values(|c: char| ascii_lower(c))
}

/// A text of ASCII characters only.
pub open spec fn is_ascii_text(s: Seq<char>) -> bool {
    forall|i: int| 0 <= i < s.len() ==> s[i] <= '\x7f'
}

/// Whether an error is worth a retry: any I/O error, and a backend error whose
/// message, in lower case, spells a timeout.
pub open spec fn is_transient(e: ErrorView) -> bool {
    match e {
        ErrorView::Io(_) => true,
        ErrorView::Backend(msg) => mentions_timeout(lower_case(msg)),
        _ => false,
    }
}

/// Whether a message in lower case spells a timeout.
pub fn spells_timeout(lower: &str) -> (found: bool)
    ensures
        found == mentions_timeout(lower@),
{
    contains_text(lower, "timeout") || contains_text(lower, "timed out") || contains_text(
        lower,
        "timedout",
    ) || contains_text(lower, "time out")
}

/// Default retry predicate: retry on I/O errors and timeout errors.
///
/// All [`Error::Io`] variants are treated as transient (a connection that
/// failed mid-handshake is usually worth retrying against the next backend).
/// [`Error::Backend`] strings are matched case-insensitively for the common
/// timeout spellings emitted by real backend implementations
/// ("timeout", "timed out", "timedout", "time out", `ConnectTimeout`, etc.).
pub fn is_transient_error(error: &Error) -> (transient: bool)
    ensures
        transient == is_transient(error@),
        error@ matches ErrorView::Backend(msg) ==> is_ascii_text(msg) ==> transient
            == mentions_timeout(ascii_lower_text(msg)),
{
    match error {
        Error::Io(_) => true,
        Error::Backend(e) => {
            let lower = to_lower_case(e.0.as_str());
            assert(is_ascii_text(e.0@) ==> lower@ =~= ascii_lower_text(e.0@));
            spells_timeout(lower.as_str())
        },
        _ => false,
    }
}

/// A retry policy picked by name, before it is set up.
#[derive(Debug)]
pub enum RetryChoice<C> {
    /// Fail fast.
    NoRetry(NoRetry),
    /// The same pause before each retry.
    Fixed(FixedRetry),
    /// Growing pauses, with jitter, from `base_delay` on.
    Exponential {
        /// The pause that the growth starts from.
        base_delay: Duration,
    },
    /// A policy of the caller's own.
    Custom(C),
}

impl<C: Clone> Clone for RetryChoice<C> {
    fn clone(&self) -> (copy: Self)
        ensures
            match (*self, copy) {
                (RetryChoice::Custom(a), RetryChoice::Custom(b)) => cloned::<C>(a, b),
                _ => copy == *self,
            },
    {
        match self {
            RetryChoice::NoRetry(p) => RetryChoice::NoRetry(*p),
            RetryChoice::Fixed(p) => RetryChoice::Fixed(*p),
            RetryChoice::Exponential { base_delay } => RetryChoice::Exponential {
                base_delay: *base_delay,
            },
            RetryChoice::Custom(p) => RetryChoice::Custom(p.clone()),
        }
    }
}

/// A builder for configuring retry policies on the `LoadBalancer`.
#[derive(Debug)]
pub struct RetryPolicyBuilder<C> {
    policy: Option<RetryChoice<C>>,
}

impl<C: Clone> Clone for RetryPolicyBuilder<C> {
    fn clone(&self) -> (copy: Self)
        ensures
            match (self.choice(), copy.choice()) {
                (Some(RetryChoice::Custom(a)), Some(RetryChoice::Custom(b))) => cloned::<C>(a, b),
                _ => copy.choice() == self.choice(),
            },
    {
        RetryPolicyBuilder {
            policy: match &self.policy {
                Some(choice) => Some(choice.clone()),
                None => None,
            },
        }
    }
}

impl<C> RetryPolicyBuilder<C> {
    /// The policy chosen last.
    pub closed spec fn choice(&self) -> Option<RetryChoice<C>> {
        self.policy
    }

    /// Disable retries (fail fast).
    #[must_use]
    pub fn no_retry(self) -> (b: Self)
        ensures
            b.choice() == Some(RetryChoice::<C>::NoRetry(NoRetry)),
    {
        RetryPolicyBuilder { policy: Some(RetryChoice::NoRetry(NoRetry)) }
    }

    /// Use fixed delay between retries.
    #[must_use]
    pub fn fixed_retry(self, delay: Duration) -> (b: Self)
        ensures
            b.choice() matches Some(RetryChoice::Fixed(p)) && p.delay() == delay && p.limit()
                is None,
    {
        RetryPolicyBuilder { policy: Some(RetryChoice::Fixed(FixedRetry::new(delay))) }
    }

    /// Use exponential backoff with jitter.
    #[must_use]
    pub fn exponential_backoff(self, base_delay: Duration) -> (b: Self)
        ensures
            b.choice() == Some(RetryChoice::<C>::Exponential { base_delay }),
    {
        RetryPolicyBuilder { policy: Some(RetryChoice::Exponential { base_delay }) }
    }

    /// Set a custom retry policy.
    #[must_use]
    pub fn custom(self, policy: C) -> (b: Self)
        ensures
            b.choice() == Some(RetryChoice::Custom(policy)),
    {
        RetryPolicyBuilder { policy: Some(RetryChoice::Custom(policy)) }
    }

    /// Build the retry policy.
    pub fn build(self) -> (policy: Option<RetryChoice<C>>)
        ensures
            policy == self.choice(),
    {
        self.policy
    }
}

impl<C> Default for RetryPolicyBuilder<C> {
    fn default() -> (b: Self)
        ensures
            b.choice() is None,
    {
        RetryPolicyBuilder { policy: None }
    }
}

/// A limit on the number of attempts holds: after that many, a fixed-delay
/// policy answers no more.
pub proof fn fixed_retry_ends(
    policy: FixedRetry,
    max: u32,
    attempt: u32,
    elapsed: Duration,
    error: &Error,
    delay: Option<Duration>,
)
    requires
        policy.limit() == Some(max),
        attempt >= max,
        retry_answer(&policy, attempt, elapsed, error, delay),
    ensures
        delay is None,
{
}

/// Before its limit is reached, a fixed-delay policy always retries, after the
/// same pause.
pub proof fn fixed_retry_keeps_its_pace(
    policy: FixedRetry,
    attempt: u32,
    elapsed: Duration,
    error: &Error,
    delay: Option<Duration>,
)
    requires
        !exhausted(policy.limit(), attempt),
        retry_answer(&policy, attempt, elapsed, error, delay),
    ensures
        delay == Some(policy.delay()),
{
}

/// Whatever the policy, its limits hold: once its time budget or its number of
/// attempts is used up, there are no more retries.
pub proof fn limits_end_retries<P: RetryPolicy>(
    policy: &P,
    budget: Option<Duration>,
    limit: Option<u32>,
    attempt: u32,
    elapsed: Duration,
    error: &Error,
    delay: Option<Duration>,
)
    requires
        forall|b: Option<Duration>|
            call_ensures(P::total_timeout, (policy,), b) ==> b == budget,
        forall|l: Option<u32>| call_ensures(P::max_attempts, (policy,), l) ==> l == limit,
        !within_budget(budget, elapsed) || exhausted(limit, attempt),
        retry_answer(policy, attempt, elapsed, error, delay),
    ensures
        delay is None,
{
}

/// Failing fast means failing on the first error.
pub proof fn no_retry_fails_fast(
    policy: NoRetry,
    attempt: u32,
    elapsed: Duration,
    error: &Error,
    delay: Option<Duration>,
)
    requires
        retry_answer(&policy, attempt, elapsed, error, delay),
    ensures
        delay is None,
{
}

/// Timeouts are recognised in any case: two messages that differ only in case
/// are both transient or neither is.
pub proof fn timeouts_match_in_any_case(a: Seq<char>, b: Seq<char>)
    requires
        a.len() == b.len(),
        forall|i: int| 0 <= i < a.len() ==> ascii_lower(#[trigger] a[i]) == ascii_lower(b[i]),
    ensures
        mentions_timeout(ascii_lower_text(a)) == mentions_timeout(ascii_lower_text(b)),
{
    assert(ascii_lower_text(a) =~= ascii_lower_text(b));
}

/// A message that mentions a timeout still does with text around it.
pub proof fn timeouts_are_found_anywhere(before: Seq<char>, msg: Seq<char>, after: Seq<char>)
    requires
        mentions_timeout(msg),
    ensures
        mentions_timeout(before + msg + after),
{
    let whole = before + msg + after;
    assert forall|needle: Seq<char>| contains(msg, needle) implies contains(whole, needle) by {
        let at = choose|at: int| crate::text::occurs_at(msg, needle, at);
        let there = before.len() + at;
        assert(whole.subrange(there, there + needle.len()) =~= msg.subrange(
            at,
            at + needle.len(),
        ));
        assert(crate::text::occurs_at(whole, needle, there));
    }
}

/// A limit of `max` attempts is used up by `max` attempts or more, and no limit
/// by none.
pub proof fn a_limit_is_used_up_by_as_many_attempts(
    limit: Option<u32>,
    attempt: u32,
    used_up: bool,
)
    requires
        call_ensures(attempts_exhausted, (limit, attempt), used_up),
    ensures
        limit is None ==> !used_up,
        limit matches Some(max) ==> (used_up <==> max <= attempt),
{
}

/// There is room for another attempt exactly if less time has passed than the
/// budget allows, and fewer attempts were made than the limit allows.
pub proof fn both_limits_hold(
    budget: Option<Duration>,
    limit: Option<u32>,
    attempt: u32,
    elapsed: Duration,
    room: bool,
)
    requires
        call_ensures(may_retry, (budget, limit, attempt, elapsed), room),
    ensures
        budget matches Some(t) && duration_nanos(t) <= duration_nanos(elapsed) ==> !room,
        limit matches Some(max) && max <= attempt ==> !room,
        (budget matches Some(t) ==> duration_nanos(elapsed) < duration_nanos(t)) && (limit matches Some(max)
            ==> attempt < max) ==> room,
{
}

/// Asking a policy comes to what the policy itself answers while both its
/// limits hold, and to no retry once one of them does not.
pub proof fn a_policy_is_asked_within_its_limits<P: RetryPolicy>(
    policy: &P,
    budget: Option<Duration>,
    limit: Option<u32>,
    attempt: u32,
    elapsed: Duration,
    error: &Error,
    delay: Option<Duration>,
)
    requires
        forall|b: Option<Duration>|
            call_ensures(P::total_timeout, (policy,), b) ==> b == budget,
        forall|l: Option<u32>| call_ensures(P::max_attempts, (policy,), l) ==> l == limit,
        call_ensures(ask_policy::<P>, (policy, attempt, elapsed, error), delay),
    ensures
        budget matches Some(t) && duration_nanos(t) <= duration_nanos(elapsed) ==> delay is None,
        limit matches Some(max) && max <= attempt ==> delay is None,
        (budget matches Some(t) ==> duration_nanos(elapsed) < duration_nanos(t)) && (limit matches Some(max)
            ==> attempt < max) ==> call_ensures(
            P::should_retry,
            (policy, attempt, error),
            delay,
        ),
{
}

/// A fixed-delay policy waits the same time before every attempt that its
/// limit leaves, and has no time budget.
pub proof fn a_fixed_retry_waits_the_same_time(
    policy: &FixedRetry,
    attempt: u32,
    error: &Error,
    delay: Option<Duration>,
    limit: Option<u32>,
    budget: Option<Duration>,
)
    requires
        call_ensures(FixedRetry::should_retry, (policy, attempt, error), delay),
        call_ensures(FixedRetry::max_attempts, (policy,), limit),
        call_ensures(FixedRetry::total_timeout, (policy,), budget),
    ensures
        limit == policy.limit(),
        budget is None,
        policy.limit() is None ==> delay == Some(policy.delay()),
        policy.limit() matches Some(max) ==> {
            &&& attempt < max ==> delay == Some(policy.delay())
            &&& attempt >= max ==> delay is None
        },
{
}

/// A fixed-delay policy has the delay it was made with, and the limit that was
/// set last.
pub proof fn a_fixed_retry_is_as_it_was_set_up(
    delay: Duration,
    made: FixedRetry,
    first: u32,
    limited: FixedRetry,
    second: u32,
    again: FixedRetry,
)
    requires
        call_ensures(FixedRetry::new, (delay,), made),
        call_ensures(FixedRetry::with_max_attempts, (made, first), limited),
        call_ensures(FixedRetry::with_max_attempts, (limited, second), again),
    ensures
        made.delay() == delay,
        made.limit() is None,
        limited.delay() == delay,
        limited.limit() == Some(first),
        again.delay() == delay,
        again.limit() == Some(second),
{
}

/// Failing fast never retries.
pub proof fn failing_fast_never_retries(
    policy: &NoRetry,
    attempt: u32,
    error: &Error,
    delay: Option<Duration>,
)
    requires
        call_ensures(NoRetry::should_retry, (policy, attempt, error), delay),
    ensures
        delay is None,
{
}

/// A policy for certain errors never retries an error that its test turns
/// down, and leaves those that it lets through to the policy inside.
pub proof fn only_tested_errors_are_retried<I: RetryPolicy, F: Fn(&Error) -> bool + Send + Sync>(
    policy: &RetryOnError<I, F>,
    attempt: u32,
    error: &Error,
    delay: Option<Duration>,
    wanted: bool,
)
    requires
        call_ensures(RetryOnError::<I, F>::should_retry, (policy, attempt, error), delay),
        forall|w: bool| call_ensures(policy.predicate(), (error,), w) ==> w == wanted,
    ensures
        !wanted ==> delay is None,
        wanted ==> call_ensures(I::should_retry, (&policy.inner(), attempt, error), delay),
{
}

/// Its limits are those of the policy inside, and it is made of what it was
/// given.
pub proof fn a_tested_policy_keeps_its_limits<
    I: RetryPolicy,
    F: Fn(&Error) -> bool + Send + Sync,
>(
    inner: I,
    predicate: F,
    made: RetryOnError<I, F>,
    budget: Option<Duration>,
    limit: Option<u32>,
)
    requires
        call_ensures(RetryOnError::<I, F>::new, (inner, predicate), made),
        call_ensures(RetryOnError::<I, F>::total_timeout, (&made,), budget),
        call_ensures(RetryOnError::<I, F>::max_attempts, (&made,), limit),
    ensures
        made.inner() == inner,
        made.predicate() == predicate,
        call_ensures(I::total_timeout, (&inner,), budget),
        call_ensures(I::max_attempts, (&inner,), limit),
{
}

/// A boxed or shared policy answers as the policy itself.
pub proof fn wrapping_a_policy_changes_nothing<T: RetryPolicy>(
    boxed: &Box<T>,
    shared: &Arc<T>,
    attempt: u32,
    error: &Error,
    delay: Option<Duration>,
    budget: Option<Duration>,
    limit: Option<u32>,
)
    ensures
        call_ensures(Box::<T>::should_retry, (boxed, attempt, error), delay) ==> call_ensures(
            T::should_retry,
            (&**boxed, attempt, error),
            delay,
        ),
        call_ensures(Box::<T>::total_timeout, (boxed,), budget) ==> call_ensures(
            T::total_timeout,
            (&**boxed,),
            budget,
        ),
        call_ensures(Box::<T>::max_attempts, (boxed,), limit) ==> call_ensures(
            T::max_attempts,
            (&**boxed,),
            limit,
        ),
        call_ensures(Arc::<T>::should_retry, (shared, attempt, error), delay) ==> call_ensures(
            T::should_retry,
            (&**shared, attempt, error),
            delay,
        ),
        call_ensures(Arc::<T>::total_timeout, (shared,), budget) ==> call_ensures(
            T::total_timeout,
            (&**shared,),
            budget,
        ),
        call_ensures(Arc::<T>::max_attempts, (shared,), limit) ==> call_ensures(
            T::max_attempts,
            (&**shared,),
            limit,
        ),
{
}

/// The exponent is the number of the attempt, as far as an `i32` goes, so a
/// later attempt never has a smaller one.
pub proof fn later_attempts_back_off_no_less(a: u32, b: u32, exp_a: i32, exp_b: i32)
    requires
        a <= b,
        call_ensures(backoff_exponent, (a,), exp_a),
        call_ensures(backoff_exponent, (b,), exp_b),
    ensures
        exp_a <= exp_b,
        a <= 2_147_483_647 ==> exp_a == a,
        a > 2_147_483_647 ==> exp_a == 2_147_483_647,
{
}

/// Every I/O error is worth a retry, and so is no bad address, empty pool or
/// failed factory.
pub proof fn transient_kinds(error: &Error, transient: bool)
    requires
        call_ensures(is_transient_error, (error,), transient),
    ensures
        *error is Io ==> transient,
        *error is InvalidAddress ==> !transient,
        *error is NoBackends ==> !transient,
        *error is Factory ==> !transient,
{
}

/// A backend error is worth a retry if some part of its message reads
/// "timeout", "timed out", "timedout" or "time out", in whatever case.
pub proof fn spelled_timeouts_are_transient(
    error: &Error,
    transient: bool,
    before: Seq<char>,
    part: Seq<char>,
    after: Seq<char>,
)
    requires
        call_ensures(is_transient_error, (error,), transient),
        error@ == ErrorView::Backend(before + part + after),
        forall|i: int|
            0 <= i < (before + part + after).len() ==> (before + part + after)[i] <= '\x7f',
        ascii_lower_text(part) == "timeout"@ || ascii_lower_text(part) == "timed out"@
            || ascii_lower_text(part) == "timedout"@ || ascii_lower_text(part) == "time out"@,
    ensures
        transient,
{
    let msg = before + part + after;
    let lower = ascii_lower_text(msg);
    let needle = ascii_lower_text(part);
    let at = before.len() as int;
    assert(lower.subrange(at, at + needle.len()) =~= needle);
    assert(crate::text::occurs_at(lower, needle, at));
    assert(contains(lower, needle));
}

/// Conversely, a backend error that is worth a retry has such a part.
pub proof fn transient_messages_spell_a_timeout(error: &Error, transient: bool, msg: Seq<char>) -> (
    place: (int, int))
    requires
        call_ensures(is_transient_error, (error,), transient),
        error@ == ErrorView::Backend(msg),
        forall|i: int| 0 <= i < msg.len() ==> msg[i] <= '\x7f',
        transient,
    ensures
        0 <= place.0 <= place.1 <= msg.len(),
        ({
            let part = ascii_lower_text(msg.subrange(place.0, place.1));
            part == "timeout"@ || part == "timed out"@ || part == "timedout"@ || part
                == "time out"@
        }),
{
    let lower = ascii_lower_text(msg);
    let needle = if contains(lower, "timeout"@) {
        "timeout"@
    } else if contains(lower, "timed out"@) {
        "timed out"@
    } else if contains(lower, "timedout"@) {
        "timedout"@
    } else {
        "time out"@
    };
    assert(contains(lower, needle));
    let at = choose|at: int| crate::text::occurs_at(lower, needle, at);
    let upto = at + needle.len();
    assert(ascii_lower_text(msg.subrange(at, upto)) =~= lower.subrange(at, upto));
    (at, upto)
}

/// Lower case shifts the letters from A to Z by 32 and leaves every other
/// character as it is.
pub proof fn lower_case_shifts_letters(text: Seq<char>, i: int)
    requires
        0 <= i < text.len(),
    ensures
        ascii_lower_text(text).len() == text.len(),
        'A' <= text[i] && text[i] <= 'Z' ==> ascii_lower_text(text)[i] as u32 == text[i] as u32
            + 32,
        !('A' <= text[i] && text[i] <= 'Z') ==> ascii_lower_text(text)[i] == text[i],
{
}

/// Of several choices the last one counts, whatever was chosen before.
pub proof fn the_last_choice_counts<C>(
    b: RetryPolicyBuilder<C>,
    delay: Duration,
    policy: C,
    after: RetryPolicyBuilder<C>,
    built: Option<RetryChoice<C>>,
)
    requires
        call_ensures(RetryPolicyBuilder::<C>::build, (after,), built),
    ensures
        call_ensures(RetryPolicyBuilder::<C>::no_retry, (b,), after) ==> built == Some(
            RetryChoice::<C>::NoRetry(NoRetry),
        ),
        call_ensures(RetryPolicyBuilder::<C>::fixed_retry, (b, delay), after) ==> (
        built matches Some(RetryChoice::Fixed(p)) && p.delay() == delay && p.limit() is None),
        call_ensures(RetryPolicyBuilder::<C>::exponential_backoff, (b, delay), after) ==> built
            == Some(RetryChoice::<C>::Exponential { base_delay: delay }),
        call_ensures(RetryPolicyBuilder::<C>::custom, (b, policy), after) ==> built == Some(
            RetryChoice::Custom(policy),
        ),
        call_ensures(RetryPolicyBuilder::<C>::default, (), after) ==> built is None,
{
}

/// A text in lower case spells a timeout exactly if one of the four spellings
/// is in it.
pub proof fn four_spellings_of_a_timeout(
    lower: &str,
    found: bool,
    before: Seq<char>,
    part: Seq<char>,
    after: Seq<char>,
)
    requires
        call_ensures(spells_timeout, (lower,), found),
    ensures
        lower@ == before + part + after && (part == "timeout"@ || part == "timed out"@ || part
            == "timedout"@ || part == "time out"@) ==> found,
        found ==> exists|at: int|
            {
                ||| #[trigger] crate::text::occurs_at(lower@, "timeout"@, at)
                ||| crate::text::occurs_at(lower@, "timed out"@, at)
                ||| crate::text::occurs_at(lower@, "timedout"@, at)
                ||| crate::text::occurs_at(lower@, "time out"@, at)
            },
{
    if lower@ == before + part + after {
        let at = before.len() as int;
        assert(lower@.subrange(at, at + part.len()) =~= part);
        assert(crate::text::occurs_at(lower@, part, at));
        assert(contains(lower@, part));
    }
    if found {
        let needle = if contains(lower@, "timeout"@) {
            "timeout"@
        } else if contains(lower@, "timed out"@) {
            "timed out"@
        } else if contains(lower@, "timedout"@) {
            "timedout"@
        } else {
            "time out"@
        };
        let at = choose|at: int| crate::text::occurs_at(lower@, needle, at);
        assert(crate::text::occurs_at(lower@, needle, at));
        let first = crate::text::occurs_at(lower@, "timeout"@, at);
    }
}

/// A copy of a choice is the same choice. A custom policy is copied its own
/// way.
pub proof fn copied_choices_stay_the_same<C: Clone>(
    choice: &RetryChoice<C>,
    copy: RetryChoice<C>,
    builder: &RetryPolicyBuilder<C>,
    builder_copy: RetryPolicyBuilder<C>,
)
    requires
        call_ensures(RetryChoice::<C>::clone, (choice,), copy),
        call_ensures(RetryPolicyBuilder::<C>::clone, (builder,), builder_copy),
    ensures
        !(*choice is Custom) ==> copy == *choice,
        *choice is Custom ==> copy is Custom,
        builder.choice() is None ==> builder_copy.choice() is None,
        builder.choice() matches Some(c) ==> !(c is Custom) ==> builder_copy.choice()
            == builder.choice(),
{
}

} // verus!
