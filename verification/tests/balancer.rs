use std::time::Duration;

use rota_lb::{
    failover, hash_by_addr, health_weighted, least_connections, lowest_rtt, random, round_robin,
    sticky, validate_dial_addr, weighted_round_robin, AttemptOutcome, BackendOutput,
    BalanceStrategy, BuildStep, DialStep, Error, Failover, FixedRetry, LoadBalancer,
    LoadBalancerBuilder, NoRetry, RoundRobin, Sticky, Strategy, TunnelMetrics,
};

type Pool = LoadBalancer<&'static str, RoundRobin, FixedRetry>;
type Builder = LoadBalancerBuilder<&'static str, u8, RoundRobin, FixedRetry>;

fn pool() -> Pool {
    LoadBalancer::new(vec!["a", "b", "c"], RoundRobin::new()).unwrap()
}

fn with_rtt(millis: u64) -> TunnelMetrics {
    TunnelMetrics { rtt: Some(Duration::from_millis(millis)), ..Default::default() }
}

#[test]
fn balancer_validate_dial_addr_accepts_host_port() {
    assert!(validate_dial_addr("example.com:443").is_ok());
    assert!(validate_dial_addr("10.0.0.1:80").is_ok());
}

#[test]
fn balancer_validate_dial_addr_rejects_malformed() {
    assert!(validate_dial_addr("example.com").is_err());
    assert!(validate_dial_addr(":443").is_err());
    assert!(validate_dial_addr("example.com:0").is_err());
    assert!(validate_dial_addr("example.com:notaport").is_err());
}

#[test]
fn validate_dial_addr_accepts_host_port() {
    assert!(validate_dial_addr("example.com:443").is_ok());
    assert!(validate_dial_addr("10.0.0.1:80").is_ok());
}

#[test]
fn validate_dial_addr_rejects_malformed() {
    assert!(validate_dial_addr("example.com").is_err());
    assert!(validate_dial_addr(":443").is_err());
    assert!(validate_dial_addr("example.com:0").is_err());
    assert!(validate_dial_addr("example.com:notaport").is_err());
}

fn reason_of(addr: &str) -> &'static str {
    match validate_dial_addr(addr) {
        Err(Error::InvalidAddress(e)) => {
            assert_eq!(e.addr, addr);
            e.reason
        }
        _ => panic!("accepted {addr}"),
    }
}

#[test]
fn every_address_fault_has_its_reason() {
    assert_eq!(reason_of("example.com"), "expected \"host:port\"");
    assert_eq!(reason_of(""), "expected \"host:port\"");
    assert_eq!(reason_of(":443"), "empty host");
    assert_eq!(reason_of(":"), "empty host");
    assert_eq!(reason_of("h:"), "port must be 1-65535");
    assert_eq!(reason_of("h:0"), "port must be 1-65535");
    assert_eq!(reason_of("h:65536"), "port must be 1-65535");
    assert_eq!(reason_of("h:-1"), "port must be 1-65535");
    assert_eq!(reason_of("h:+"), "port must be 1-65535");
    assert_eq!(reason_of("h: 80"), "port must be 1-65535");
    assert_eq!(reason_of("h:99999999999999999999"), "port must be 1-65535");
}

#[test]
fn unusual_addresses_are_accepted() {
    assert!(validate_dial_addr("h:+80").is_ok());
    assert!(validate_dial_addr("h:00080").is_ok());
    assert!(validate_dial_addr("h:65535").is_ok());
    assert!(validate_dial_addr("::1:80").is_ok());
    assert!(validate_dial_addr("héllo:1").is_ok());
}

#[test]
fn new_pools_start_with_zero_metrics() {
    let lb = pool();
    assert_eq!(lb.backend_count(), 3);
    for m in lb.metrics() {
        assert_eq!(m.rtt, None);
        assert_eq!(m.active_connections, 0);
        assert_eq!(m.recent_errors, 0);
        assert_eq!(m.total_dials, 0);
        assert_eq!(m.total_errors, 0);
    }
    assert_eq!(lb.backend_ids(), vec![None, None, None]);
    assert_eq!(lb.backend(2), Some(&"c"));
    assert_eq!(lb.backend(3), None);
    assert_eq!(lb.strategy_name(), "round_robin");
    assert_eq!(lb.shutdown(), vec!["a", "b", "c"]);
}

#[test]
fn empty_pools_are_refused() {
    let none: Vec<&'static str> = Vec::new();
    let e = Pool::new(none, RoundRobin::new()).unwrap_err();
    assert_eq!(e.message(), "no backends available — pool is empty");
}

#[test]
fn seed_metrics_must_match() {
    let e = Pool::new_with_metrics(
        vec!["a", "b"],
        vec![TunnelMetrics::default(); 12],
        RoundRobin::new(),
        None,
        None,
    )
    .unwrap_err();
    assert_eq!(
        e.message(),
        "backend factory failed: initial_metrics.len() (12) must equal backends.len() (2)"
    );
}

#[test]
fn factories_give_backends_and_metrics() {
    let created = vec![
        Ok(BackendOutput { backend: "a", initial_metrics: with_rtt(5) }),
        Ok(BackendOutput { backend: "b", initial_metrics: with_rtt(7) }),
    ];
    let lb = Pool::from_factories(created, RoundRobin::new()).unwrap();
    assert_eq!(lb.metrics()[1].rtt, Some(Duration::from_millis(7)));
    assert_eq!(lb.shutdown(), vec!["a", "b"]);
}

#[test]
fn the_first_factory_failure_is_reported() {
    let created = vec![
        Ok(BackendOutput { backend: "a", initial_metrics: TunnelMetrics::default() }),
        Err(Error::factory("first".to_string())),
        Err(Error::factory("second".to_string())),
    ];
    let e = Pool::from_factories(created, RoundRobin::new()).unwrap_err();
    assert_eq!(e.message(), "backend factory failed: first");
    let e = Pool::from_factories(Vec::new(), RoundRobin::new()).unwrap_err();
    assert!(matches!(e, Error::NoBackends(_)));
}

#[test]
fn a_dial_counts_a_connection_until_it_is_released() {
    let mut lb = pool();
    let dial = lb.dial("h:80").unwrap();
    assert_eq!(dial.index, 0);
    assert_eq!(lb.metrics()[0].active_connections, 1);
    assert_eq!(lb.metrics()[0].total_dials, 0);
    let (conn, ticket) = lb.finish_dial(dial, Ok::<u8, Error>(9)).unwrap();
    assert_eq!(conn, 9);
    assert_eq!(lb.metrics()[0].active_connections, 1);
    assert_eq!(lb.metrics()[0].total_dials, 1);
    lb.release(ticket);
    assert_eq!(lb.metrics()[0].active_connections, 0);
    assert_eq!(lb.metrics()[0].total_dials, 1);
    assert_eq!(lb.dial("h:80").unwrap().index, 1);
}

#[test]
fn a_failed_dial_leaves_only_errors() {
    let mut lb = pool();
    let dial = lb.dial("h:80").unwrap();
    let failed: Result<u8, Error> = Err(Error::backend("refused".to_string()));
    let e = lb.finish_dial(dial, failed).unwrap_err();
    assert_eq!(e.message(), "backend operation failed: refused");
    let m = lb.metrics()[0];
    assert_eq!(m.active_connections, 0);
    assert_eq!(m.recent_errors, 1);
    assert_eq!(m.total_errors, 1);
    assert_eq!(m.total_dials, 0);
}

#[test]
fn a_success_clears_recent_errors_only() {
    let mut lb = pool();
    let _ = lb.handle_dial_error(1, Error::no_backends());
    let _ = lb.handle_dial_error(1, Error::no_backends());
    lb.handle_dial_success(1);
    let m = lb.metrics()[1];
    assert_eq!(m.recent_errors, 0);
    assert_eq!(m.total_errors, 2);
    assert_eq!(m.total_dials, 1);
    lb.handle_dial_success(99);
    let _ = lb.handle_dial_error(99, Error::no_backends());
    assert_eq!(lb.metrics()[1].total_errors, 2);
}

#[test]
fn bad_addresses_and_empty_pools_pick_nothing() {
    let mut lb = pool();
    assert!(matches!(lb.dial("nowhere"), Err(Error::InvalidAddress(_))));
    for _ in 0..3 {
        lb.remove_backend(0);
    }
    assert!(matches!(lb.dial("h:80"), Err(Error::NoBackends(_))));
    assert!(matches!(lb.dial("nowhere"), Err(Error::InvalidAddress(_))));
}

#[test]
fn releases_find_their_backend_after_a_removal() {
    let mut lb = pool();
    let dial = lb.dial("h:80").unwrap();
    let (_, gone) = lb.finish_dial(dial, Ok::<u8, Error>(1)).unwrap();
    let dial = lb.dial("h:80").unwrap();
    assert_eq!(dial.index, 1);
    let (_, moved) = lb.finish_dial(dial, Ok::<u8, Error>(1)).unwrap();
    assert_eq!(lb.remove_backend(0), Some("a"));
    assert_eq!(lb.metrics()[0].active_connections, 1);
    lb.release(gone);
    assert_eq!(lb.metrics()[0].active_connections, 1);
    lb.release(moved);
    assert_eq!(lb.metrics()[0].active_connections, 0);
    assert_eq!(lb.metrics()[1].active_connections, 0);
}

#[test]
fn dials_are_settled_where_their_backend_is() {
    let mut lb = pool();
    let first = lb.dial("h:80").unwrap();
    let second = lb.dial("h:80").unwrap();
    lb.remove_backend(0);
    let refused = || Err::<u8, Error>(Error::backend("refused".to_string()));
    assert!(lb.finish_dial(first, refused()).is_err());
    assert_eq!(lb.metrics()[0].total_errors, 0);
    assert!(lb.finish_dial(second, refused()).is_err());
    assert_eq!(lb.metrics()[0].total_errors, 1);
    assert_eq!(lb.metrics()[1].total_errors, 0);
    assert!(lb.can_grow(usize::MAX));
}

#[test]
fn adding_and_removing_keeps_the_rest_aligned() {
    let mut lb = pool();
    assert_eq!(lb.add_backend("d"), 3);
    assert_eq!(lb.add_backend_with_id("five".to_string(), "e"), 4);
    assert_eq!(lb.remove_backend(1), Some("b"));
    assert_eq!(lb.remove_backend(17), None);
    assert_eq!(lb.backend(3), Some(&"e"));
    assert_eq!(lb.backend_ids()[3], Some("five".to_string()));
    assert_eq!(lb.remove_backend_by_id("six"), None);
    assert_eq!(lb.remove_backend_by_id("five"), Some("e"));
    assert_eq!(lb.shutdown(), vec!["a", "c", "d"]);
}

#[test]
fn the_first_of_two_equal_ids_goes() {
    let mut lb = pool();
    lb.add_backend_with_id("x".to_string(), "first");
    lb.add_backend_with_id("x".to_string(), "second");
    assert_eq!(lb.remove_backend_by_id("x"), Some("first"));
    assert_eq!(lb.remove_backend_by_id("x"), Some("second"));
    assert_eq!(lb.remove_backend_by_id("x"), None);
}

#[test]
fn replacing_backends_starts_over() {
    let mut lb = pool();
    lb.add_backend_with_id("x".to_string(), "d");
    let dial = lb.dial("h:80").unwrap();
    let (_, ticket) = lb.finish_dial(dial, Ok::<u8, Error>(1)).unwrap();
    let retired = lb.replace_backends(vec!["n", "m"], None).unwrap();
    assert_eq!(retired, vec!["a", "b", "c", "d"]);
    assert_eq!(lb.backend_ids(), vec![None, None]);
    assert_eq!(lb.metrics()[0].total_dials, 0);
    lb.release(ticket);
    assert_eq!(lb.metrics()[0].active_connections, 0);
    // The strategy was kept with its state.
    assert_eq!(lb.dial("h:80").unwrap().index, 1);
    let _ = lb.replace_backends(vec!["n", "m"], Some(RoundRobin::new())).unwrap();
    assert_eq!(lb.dial("h:80").unwrap().index, 0);
    assert!(matches!(lb.replace_backends(Vec::new(), None), Err(Error::NoBackends(_))));
    assert_eq!(lb.backend_count(), 2);
}

#[test]
fn draining_marks_and_undraining_unmarks() {
    let mut lb = pool();
    assert!(lb.drain_backend(1));
    assert!(lb.is_draining(1));
    assert!(!lb.is_draining(0));
    assert!(!lb.is_draining(9));
    assert!(!lb.drain_backend(9));
    assert_eq!(lb.metrics()[1].recent_errors, 0);
    assert!(lb.undrain_backend(1));
    assert!(!lb.undrain_backend(1));
    assert!(!lb.undrain_backend(9));
    assert!(!lb.is_draining(1));
}

#[test]
fn no_strategy_dials_a_draining_backend() {
    let strategies = vec![
        round_robin(),
        random(),
        lowest_rtt(),
        least_connections(),
        hash_by_addr(),
        weighted_round_robin(),
        failover(),
        health_weighted(),
        sticky(),
    ];
    for strategy in strategies {
        let name = strategy_name(&strategy);
        let seeds = vec![with_rtt(1), with_rtt(2), with_rtt(3)];
        let mut lb: LoadBalancer<u8, Strategy, NoRetry> =
            LoadBalancer::new_with_metrics(vec![1, 2, 3], seeds, strategy, None, None).unwrap();
        let _ = lb.dial("h:80").unwrap();
        for drained in 0..3 {
            assert!(lb.drain_backend(drained));
            for i in 0..20 {
                let dial = lb.dial(&format!("host{i}:80")).unwrap();
                assert_ne!(dial.index, drained, "{name}");
                let _ = lb.finish_dial(dial, Ok::<u8, Error>(0)).unwrap();
                assert!(lb.is_draining(drained));
            }
            assert!(lb.undrain_backend(drained));
        }
    }
}

fn strategy_name(strategy: &Strategy) -> String {
    strategy.name().to_string()
}

#[test]
fn the_next_in_service_stands_in() {
    let seeds = vec![with_rtt(1), with_rtt(9), with_rtt(3)];
    let mut lb: LoadBalancer<u8, Strategy, NoRetry> =
        LoadBalancer::new_with_metrics(vec![1, 2, 3], seeds, lowest_rtt(), None, None).unwrap();
    lb.drain_backend(0);
    assert_eq!(lb.dial("h:80").unwrap().index, 1);
    lb.drain_backend(1);
    assert_eq!(lb.dial("h:80").unwrap().index, 2);
    lb.undrain_backend(0);
    assert_eq!(lb.dial("h:80").unwrap().index, 0);
    lb.drain_backend(2);
    lb.set_strategy(Strategy::Failover(Failover::new()));
    let dial = lb.dial("h:80").unwrap();
    let _ = lb.finish_dial(dial, Err::<u8, Error>(Error::no_backends()));
    assert_eq!(lb.dial("h:80").unwrap().index, 0);
}

#[test]
fn draining_does_not_disturb_a_schedule() {
    let seeds = vec![with_rtt(10), with_rtt(10), with_rtt(10)];
    let mut lb: LoadBalancer<u8, Strategy, NoRetry> =
        LoadBalancer::new_with_metrics(vec![1, 2, 3], seeds, weighted_round_robin(), None, None)
            .unwrap();
    assert_eq!(lb.dial("h:80").unwrap().index, 0);
    lb.drain_backend(2);
    assert_eq!(lb.dial("h:80").unwrap().index, 1);
    assert_eq!(lb.dial("h:80").unwrap().index, 0);
    lb.undrain_backend(2);
    assert_eq!(lb.dial("h:80").unwrap().index, 0);
    assert_eq!(lb.dial("h:80").unwrap().index, 1);
    assert_eq!(lb.dial("h:80").unwrap().index, 2);
}

#[test]
fn a_pool_that_drains_as_a_whole_still_serves() {
    let mut lb = pool();
    for i in 0..3 {
        assert!(lb.drain_backend(i));
    }
    assert_eq!(lb.dial("h:80").unwrap().index, 0);
    assert_eq!(lb.dial("h:80").unwrap().index, 1);
}

#[test]
fn dials_do_not_end_draining() {
    let mut lb = pool();
    lb.drain_backend(0);
    lb.handle_dial_success(0);
    assert!(lb.is_draining(0));
    let _ = lb.handle_dial_error(0, Error::no_backends());
    assert!(lb.is_draining(0));
    assert_eq!(lb.remove_backend(0), Some("a"));
    assert!(!lb.is_draining(0));
}

#[test]
fn many_errors_are_not_draining() {
    let seeds = vec![
        TunnelMetrics { recent_errors: u32::MAX, ..Default::default() },
        TunnelMetrics::default(),
    ];
    let mut lb =
        Pool::new_with_metrics(vec!["a", "b"], seeds, RoundRobin::new(), None, None).unwrap();
    assert!(!lb.is_draining(0));
    assert!(!lb.undrain_backend(0));
    assert_eq!(lb.metrics()[0].recent_errors, u32::MAX);
    assert_eq!(lb.dial("h:80").unwrap().index, 0);
}

#[test]
fn open_connections_outlast_draining() {
    let mut lb = pool();
    let dial = lb.dial("h:80").unwrap();
    let (_, ticket) = lb.finish_dial(dial, Ok::<u8, Error>(1)).unwrap();
    lb.drain_backend(0);
    assert_eq!(lb.metrics()[0].active_connections, 1);
    lb.release(ticket);
    assert_eq!(lb.metrics()[0].active_connections, 0);
}

#[test]
fn failover_leaves_a_stand_in_that_fails() {
    let mut lb: LoadBalancer<u8, Failover, NoRetry> =
        LoadBalancer::new(vec![1, 2, 3], Failover::new()).unwrap();
    lb.drain_backend(0);
    let dial = lb.dial("h:80").unwrap();
    assert_eq!(dial.index, 1);
    assert_ne!(dial.chosen, dial.serial);
    let _ = lb.finish_dial(dial, Err::<u8, Error>(Error::no_backends()));
    assert_eq!(lb.metrics()[0].total_errors, 0);
    assert_eq!(lb.metrics()[1].total_errors, 1);
    assert_eq!(lb.dial("h:80").unwrap().index, 2);
}

#[test]
fn pins_and_primaries_follow_their_backends() {
    let seeds = vec![with_rtt(5), with_rtt(5), with_rtt(1)];
    let mut lb: LoadBalancer<u8, Strategy, NoRetry> =
        LoadBalancer::new_with_metrics(vec![1, 2, 3], seeds, sticky(), None, None).unwrap();
    assert_eq!(lb.dial("h:80").unwrap().index, 2);
    lb.remove_backend(0);
    assert_eq!(lb.dial("h:80").unwrap().index, 1);
    assert_eq!(lb.backend(1), Some(&3));

    let mut lb: LoadBalancer<u8, Strategy, NoRetry> =
        LoadBalancer::new(vec![1, 2, 3], failover()).unwrap();
    let dial = lb.dial("h:80").unwrap();
    let _ = lb.finish_dial(dial, Err::<u8, Error>(Error::no_backends()));
    lb.remove_backend(0);
    assert_eq!(lb.dial("h:80").unwrap().index, 0);
    assert_eq!(lb.backend(0), Some(&2));
}

#[test]
fn strategies_can_be_exchanged() {
    let mut lb: LoadBalancer<u8, Strategy, NoRetry> =
        LoadBalancer::new(vec![1, 2, 3], round_robin()).unwrap();
    let _ = lb.dial("h:80").unwrap();
    lb.set_strategy(Strategy::Failover(Failover::new()));
    assert_eq!(lb.strategy_name(), "failover");
    let dial = lb.dial("h:80").unwrap();
    assert_eq!(dial.index, 0);
    let _ = lb.finish_dial(dial, Err::<u8, Error>(Error::no_backends()));
    assert_eq!(lb.dial("h:80").unwrap().index, 1);
    lb.set_strategy(Strategy::Sticky(Sticky::new()));
    assert_eq!(lb.strategy_name(), "sticky");
}

#[test]
fn options_override_the_defaults_for_one_dial() {
    let second = Duration::from_secs(1);
    let mut lb = Pool::new_with_metrics(
        vec!["a"],
        vec![TunnelMetrics::default()],
        RoundRobin::new(),
        Some(second),
        Some(FixedRetry::new(second).with_max_attempts(5)),
    )
    .unwrap();
    assert_eq!(lb.dial("h:80").unwrap().dial_timeout, Some(second));
    let short = Duration::from_millis(3);
    let mut dial = lb
        .dial_with_options("h:80", Some(short), Some(FixedRetry::new(short).with_max_attempts(2)))
        .unwrap();
    assert_eq!(dial.dial_timeout, Some(short));
    let refused = || AttemptOutcome::<u8>::Failed(Error::backend("refused".to_string()));
    let step = lb.dial_with_retry(&mut dial, refused(), Duration::ZERO);
    assert!(matches!(step, DialStep::RetryAfter(d) if d == short));
    let step = lb.dial_with_retry(&mut dial, refused(), Duration::ZERO);
    assert!(matches!(step, DialStep::Failed(_)));
    assert_eq!(dial.attempts, 2);

    let mut dial = lb.dial("h:80").unwrap();
    for _ in 0..4 {
        let step = lb.dial_with_retry(&mut dial, refused(), Duration::ZERO);
        assert!(matches!(step, DialStep::RetryAfter(d) if d == second));
    }
    let step = lb.dial_with_retry(&mut dial, refused(), Duration::ZERO);
    match step {
        DialStep::Failed(e) => assert_eq!(e.message(), "backend operation failed: refused"),
        _ => panic!("still retrying"),
    }
}

#[test]
fn attempts_end_in_a_connection_or_a_timeout() {
    let mut lb = pool();
    let mut dial = lb.dial("h:80").unwrap();
    let step = lb.dial_with_retry(&mut dial, AttemptOutcome::Connected(7u8), Duration::ZERO);
    assert!(matches!(step, DialStep::Connected(7)));
    let timed_out: AttemptOutcome<u8> = AttemptOutcome::TimedOut;
    match lb.dial_with_retry(&mut dial, timed_out, Duration::ZERO) {
        DialStep::Failed(e) => {
            assert_eq!(e.message(), "backend operation failed: dial timeout");
            assert!(rota_lb::is_transient_error(&e));
        }
        _ => panic!("no policy, no retry"),
    }
}

fn ready(step: BuildStep<&'static str, u8, RoundRobin, FixedRetry>) -> Pool {
    match step {
        BuildStep::Ready(lb) => lb,
        BuildStep::Create(..) => panic!("nothing to create"),
    }
}

#[test]
fn builders_build_from_backends() {
    let lb = ready(
        Builder::default()
            .backends(vec!["a", "b"])
            .initial_metrics(vec![with_rtt(1), with_rtt(2)])
            .strategy(RoundRobin::new())
            .dial_timeout(Duration::from_secs(4))
            .retry_policy(FixedRetry::new(Duration::from_secs(1)))
            .build()
            .unwrap(),
    );
    assert_eq!(lb.metrics()[1].rtt, Some(Duration::from_millis(2)));
    let mut lb = lb;
    assert_eq!(lb.dial("h:80").unwrap().dial_timeout, Some(Duration::from_secs(4)));
    let plain = ready(
        Pool::builder().backends(vec!["a"]).strategy(RoundRobin::new()).build().unwrap(),
    );
    assert_eq!(plain.metrics()[0].rtt, None);
}

fn message(result: Result<BuildStep<&'static str, u8, RoundRobin, FixedRetry>, Error>) -> String {
    match result {
        Ok(_) => panic!("built"),
        Err(e) => e.message(),
    }
}

#[test]
fn builders_say_what_is_missing() {
    let s = RoundRobin::new();
    assert_eq!(
        message(Builder::default().backends(vec!["a"]).build()),
        "backend factory failed: strategy required"
    );
    assert_eq!(
        message(Builder::default().backends(vec!["a"]).factories(vec![1]).strategy(s.clone()).build()),
        "backend factory failed: cannot set both backends and factories"
    );
    assert_eq!(
        message(Builder::default().strategy(s.clone()).build()),
        "backend factory failed: backends or factories required"
    );
    assert_eq!(
        message(
            Builder::default()
                .backends(vec!["a"])
                .initial_metrics(Vec::new())
                .strategy(s.clone())
                .build()
        ),
        "backend factory failed: initial_metrics.len() (0) must equal backends.len() (1)"
    );
    assert_eq!(
        message(Builder::default().backends(Vec::new()).strategy(s.clone()).build()),
        "no backends available — pool is empty"
    );
    assert_eq!(
        message(Builder::default().factories(Vec::new()).strategy(s).build()),
        "no backends available — pool is empty"
    );
}

#[test]
fn builders_build_from_factories() {
    let step =
        Builder::default().factories(vec![1, 2]).strategy(RoundRobin::new()).build().unwrap();
    let (factories, pending) = match step {
        BuildStep::Create(f, p) => (f, p),
        BuildStep::Ready(_) => panic!("factories were not run"),
    };
    assert_eq!(factories, vec![1, 2]);
    let created = vec![
        Ok(BackendOutput { backend: "a", initial_metrics: with_rtt(5) }),
        Ok(BackendOutput { backend: "b", initial_metrics: with_rtt(6) }),
    ];
    let lb = pending.finish(created).unwrap();
    assert_eq!(lb.metrics()[0].rtt, Some(Duration::from_millis(5)));

    let step = Builder::default()
        .factories(vec![1])
        .initial_metrics(vec![with_rtt(1), with_rtt(2)])
        .strategy(RoundRobin::new())
        .build()
        .unwrap();
    if let BuildStep::Create(_, pending) = step {
        let created =
            vec![Ok(BackendOutput { backend: "a", initial_metrics: TunnelMetrics::default() })];
        let e = pending.finish(created).unwrap_err();
        assert_eq!(
            e.message(),
            "backend factory failed: initial_metrics.len() (2) must equal factories.len() (1)"
        );
    } else {
        panic!("factories were not run");
    }
}

#[test]
fn a_failed_factory_ends_the_build() {
    let step = Builder::default().factories(vec![1]).strategy(RoundRobin::new()).build().unwrap();
    if let BuildStep::Create(_, pending) = step {
        let created: Vec<Result<BackendOutput<&'static str>, Error>> =
            vec![Err(Error::factory("down".to_string()))];
        assert_eq!(pending.finish(created).unwrap_err().message(), "backend factory failed: down");
    } else {
        panic!("factories were not run");
    }
}
