use std::io;
use std::sync::Arc;
use std::time::Duration;

use rota_lb::retry::{ask_policy, attempts_exhausted, backoff_exponent, may_retry, spells_timeout};
use rota_lb::{
    is_transient_error, Error, FixedRetry, NoRetry, RetryChoice, RetryOnError, RetryPolicy,
    RetryPolicyBuilder,
};

fn refused() -> Error {
    Error::backend("refused".to_string())
}

#[test]
fn no_retry_fails_fast() {
    assert_eq!(NoRetry.should_retry(1, &refused()), None);
    assert_eq!(NoRetry.total_timeout(), None);
    assert_eq!(NoRetry.max_attempts(), None);
}

#[test]
fn fixed_retry_stops_at_its_limit() {
    let pause = Duration::from_millis(20);
    let endless = FixedRetry::new(pause);
    assert_eq!(endless.should_retry(u32::MAX, &refused()), Some(pause));
    assert_eq!(endless.max_attempts(), None);
    let limited = endless.with_max_attempts(3);
    assert_eq!(limited.max_attempts(), Some(3));
    assert_eq!(limited.should_retry(2, &refused()), Some(pause));
    assert_eq!(limited.should_retry(3, &refused()), None);
    assert_eq!(limited.should_retry(4, &refused()), None);
}

struct Hasty;

impl RetryPolicy for Hasty {
    fn should_retry(&self, _attempt: u32, _error: &Error) -> Option<Duration> {
        Some(Duration::ZERO)
    }

    fn total_timeout(&self) -> Option<Duration> {
        Some(Duration::from_secs(2))
    }

    fn max_attempts(&self) -> Option<u32> {
        Some(4)
    }
}

#[test]
fn limits_bind_policies_that_never_give_up() {
    let start = Duration::ZERO;
    assert_eq!(ask_policy(&Hasty, 3, start, &refused()), Some(Duration::ZERO));
    assert_eq!(ask_policy(&Hasty, 4, start, &refused()), None);
    assert_eq!(ask_policy(&Hasty, 1, Duration::from_secs(2), &refused()), None);
    assert_eq!(
        ask_policy(&Hasty, 1, Duration::from_millis(1999), &refused()),
        Some(Duration::ZERO)
    );
}

#[test]
fn budgets_and_limits_are_strict() {
    let second = Duration::from_secs(1);
    assert!(may_retry(None, None, 9, second));
    assert!(may_retry(Some(second), Some(10), 9, Duration::from_millis(999)));
    assert!(!may_retry(Some(second), None, 9, second));
    assert!(!may_retry(None, Some(9), 9, second));
    assert!(attempts_exhausted(Some(0), 0));
    assert!(!attempts_exhausted(None, u32::MAX));
    assert_eq!(backoff_exponent(7), 7);
    assert_eq!(backoff_exponent(i32::MAX as u32), i32::MAX);
    assert_eq!(backoff_exponent(i32::MAX as u32 + 1), i32::MAX);
    assert_eq!(backoff_exponent(u32::MAX), i32::MAX);
}

#[test]
fn conditional_retries_ask_the_inner_policy() {
    let pause = Duration::from_millis(1);
    let p = RetryOnError::new(FixedRetry::new(pause).with_max_attempts(2), is_transient_error);
    assert_eq!(p.should_retry(1, &refused()), None);
    assert_eq!(p.should_retry(1, &Error::backend("Timed Out".to_string())), Some(pause));
    assert_eq!(p.should_retry(2, &Error::backend("Timed Out".to_string())), None);
    assert_eq!(p.max_attempts(), Some(2));
    assert_eq!(p.total_timeout(), None);
    let boxed: Box<dyn RetryPolicy> = Box::new(Hasty);
    let shared: Arc<dyn RetryPolicy> = Arc::new(Hasty);
    assert_eq!(boxed.total_timeout(), Some(Duration::from_secs(2)));
    assert_eq!(shared.max_attempts(), Some(4));
    assert_eq!(shared.should_retry(1, &refused()), Some(Duration::ZERO));
    let nested = RetryOnError::new(boxed, |_: &Error| true);
    assert_eq!(nested.total_timeout(), Some(Duration::from_secs(2)));
}

#[test]
fn timeouts_are_transient_in_any_spelling() {
    let texts = ["dial timeout", "ConnectTimeout", "Operation TIMED OUT", "TimedOut", "time out!"];
    for text in texts {
        assert!(is_transient_error(&Error::backend(text.to_string())), "{text}");
    }
    for text in ["", "refused", "time  out", "timed_out", "timeou"] {
        assert!(!is_transient_error(&Error::backend(text.to_string())), "{text}");
    }
    assert!(!is_transient_error(&Error::factory("timeout".to_string())));
    assert!(!is_transient_error(&Error::no_backends()));
    assert!(is_transient_error(&Error::from(io::Error::from(io::ErrorKind::Other))));
    assert!(spells_timeout("a timeout b"));
    assert!(!spells_timeout("TIMEOUT"));
}

#[test]
fn lower_case_goes_beyond_ascii() {
    assert!(is_transient_error(&Error::backend("ÄÖÜ TIMEOUT".to_string())));
}

#[test]
fn builders_keep_the_last_choice() {
    let pause = Duration::from_secs(3);
    let none: RetryPolicyBuilder<NoRetry> = RetryPolicyBuilder::default();
    assert!(none.clone().build().is_none());
    assert!(matches!(none.clone().no_retry().build(), Some(RetryChoice::NoRetry(_))));
    match none.clone().no_retry().fixed_retry(pause).build() {
        Some(RetryChoice::Fixed(p)) => {
            assert_eq!(p.should_retry(1, &refused()), Some(pause));
            assert_eq!(p.max_attempts(), None);
        }
        _ => panic!("not a fixed delay"),
    }
    match none.clone().exponential_backoff(pause).build() {
        Some(RetryChoice::Exponential { base_delay }) => assert_eq!(base_delay, pause),
        _ => panic!("not a backoff"),
    }
    assert!(matches!(none.custom(NoRetry).build(), Some(RetryChoice::Custom(_))));
}
