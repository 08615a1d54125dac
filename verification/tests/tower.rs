use std::time::Duration;

use rota_lb::tower::poll_ready;
use rota_lb::{Error, LbRequest, NoRetry};

#[test]
fn requests_carry_their_options() {
    let plain: LbRequest<NoRetry> = LbRequest::new("h:1".to_string());
    assert_eq!(plain.addr, "h:1");
    assert_eq!(plain.dial_timeout, None);
    assert!(plain.retry_policy.is_none());
    let full = plain.with_dial_timeout(Duration::from_secs(1)).with_retry_policy(NoRetry).clone();
    assert_eq!(full.addr, "h:1");
    assert_eq!(full.dial_timeout, Some(Duration::from_secs(1)));
    assert!(full.retry_policy.is_some());
}

#[test]
fn services_without_backends_are_not_ready() {
    assert!(matches!(poll_ready(0), Err(Error::NoBackends(_))));
    assert!(poll_ready(1).is_ok());
}
