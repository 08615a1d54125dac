use std::time::Duration;

use rota_lb::{
    failover, hash_by_addr, health_weighted, least_connections, lowest_rtt, random, round_robin,
    sticky, weighted_round_robin, BalanceStrategy, Failover, HashByAddr, HealthWeighted,
    LeastConnections, LowestRtt, PoolView, Random, RoundRobin, Sticky, TunnelMetrics,
    WeightedRoundRobin,
};

fn make_metrics(rtts: &[Option<u64>], counts: &[u32]) -> Vec<TunnelMetrics> {
    rtts.iter()
        .zip(counts.iter().chain(std::iter::repeat(&0)))
        .map(|(rtt, &active)| TunnelMetrics {
            rtt: rtt.map(Duration::from_millis),
            active_connections: active,
            ..Default::default()
        })
        .collect()
}

#[test]
fn failover_returns_primary() {
    let mut s = Failover::new();
    let metrics = make_metrics(&[Some(10), Some(20), Some(30)], &[0; 3]);
    let v = PoolView { dial_addr: "h", metrics: &metrics };
    assert_eq!(s.pick(&v), 0);
    assert_eq!(s.pick(&v), 0);
}

#[test]
fn failover_failover_rotates_on_error() {
    let mut s = Failover::new();
    let metrics = make_metrics(&[Some(10), Some(20), Some(30)], &[0; 3]);
    let v = PoolView { dial_addr: "h", metrics: &metrics };
    s.pick(&v);
    s.report_error(0);
    assert_eq!(s.pick(&v), 1);
    s.report_error(1);
    assert_eq!(s.pick(&v), 2);
    s.report_error(2);
    assert_eq!(s.pick(&v), 0, "should wrap back to backend 0");
}

#[test]
fn failover_ignores_unrelated_errors() {
    let mut s = Failover::new();
    let metrics = make_metrics(&[Some(10), Some(20), Some(30)], &[0; 3]);
    let v = PoolView { dial_addr: "h", metrics: &metrics };
    s.pick(&v);
    s.report_error(1);
    assert_eq!(s.pick(&v), 0);
}

#[test]
fn hash_by_addr_is_sticky() {
    let mut s = HashByAddr::new();
    let metrics = make_metrics(&[Some(10), Some(20), Some(30)], &[0; 3]);
    let v = PoolView { dial_addr: "api.example.com:443", metrics: &metrics };
    let a = s.pick(&v);
    let b = s.pick(&v);
    assert_eq!(a, b, "same address should pick the same tunnel");
}

#[test]
fn hash_by_addr_distributes() {
    let mut s = HashByAddr::new();
    let mut hits = [0usize; 3];
    for i in 0..30 {
        let addr = format!("host{i}.example.com:80");
        let metrics = make_metrics(&[Some(10), Some(20), Some(30)], &[0; 3]);
        let v = PoolView { dial_addr: &addr, metrics: &metrics };
        hits[s.pick(&v)] += 1;
    }
    assert!(hits.iter().all(|&h| h > 0));
}

#[test]
fn health_weighted_picks_fastest_with_no_errors() {
    let mut s = HealthWeighted::new();
    let metrics = make_metrics(&[Some(30), Some(10), Some(20)], &[0; 3]);
    let v = PoolView { dial_addr: "h", metrics: &metrics };
    assert_eq!(s.pick(&v), 1);
}

#[test]
fn health_weighted_demotes_erroring_tunnel() {
    let mut s = HealthWeighted::new();
    let metrics = vec![
        TunnelMetrics { rtt: Some(Duration::from_millis(10)), ..Default::default() },
        TunnelMetrics { rtt: Some(Duration::from_millis(10)), recent_errors: 1, ..Default::default() },
    ];
    let v = PoolView { dial_addr: "h", metrics: &metrics };
    assert_eq!(s.pick(&v), 0);
}

#[test]
fn health_weighted_adds_load_penalty() {
    let mut s = HealthWeighted::new();
    let metrics = vec![
        TunnelMetrics { rtt: Some(Duration::from_millis(10)), active_connections: 0, ..Default::default() },
        TunnelMetrics { rtt: Some(Duration::from_millis(10)), active_connections: 5, ..Default::default() },
    ];
    let v = PoolView { dial_addr: "h", metrics: &metrics };
    assert_eq!(s.pick(&v), 0);
}

#[test]
fn least_connections_picks_min() {
    let mut s = LeastConnections::new();
    let metrics = make_metrics(&[Some(10), Some(10), Some(10)], &[5, 2, 8]);
    let v = PoolView { dial_addr: "h", metrics: &metrics };
    assert_eq!(s.pick(&v), 1);
}

#[test]
fn least_connections_tiebreaks_by_rtt() {
    let mut s = LeastConnections::new();
    let metrics = make_metrics(&[Some(10), Some(20), Some(30)], &[2, 2, 2]);
    let v = PoolView { dial_addr: "h", metrics: &metrics };
    assert_eq!(s.pick(&v), 0);
}

#[test]
fn lowest_rtt_picks_fastest() {
    let mut s = LowestRtt::new();
    let metrics = make_metrics(&[Some(30), Some(10), Some(20)], &[0, 0, 0]);
    let v = PoolView { dial_addr: "h", metrics: &metrics };
    assert_eq!(s.pick(&v), 1);
}

#[test]
fn lowest_rtt_with_no_rtts_picks_first() {
    let mut s = LowestRtt::new();
    let metrics = make_metrics(&[None, None, None], &[0, 0, 0]);
    let v = PoolView { dial_addr: "h", metrics: &metrics };
    assert_eq!(s.pick(&v), 0);
}

#[test]
fn random_picks_in_range() {
    let mut s = Random::new();
    let metrics = make_metrics(&[Some(10), Some(20), Some(30)], &[0, 0, 0]);
    let v = PoolView { dial_addr: "h", metrics: &metrics };
    for _ in 0..100 {
        assert!(s.pick(&v) < 3);
    }
}

#[test]
fn round_robin_walks_and_wraps() {
    let mut s = RoundRobin::new();
    let metrics = make_metrics(&[Some(10), Some(20), Some(30)], &[0, 0, 0]);
    let v = PoolView { dial_addr: "h", metrics: &metrics };
    assert_eq!(s.pick(&v), 0);
    assert_eq!(s.pick(&v), 1);
    assert_eq!(s.pick(&v), 2);
    assert_eq!(s.pick(&v), 0);
}

#[test]
fn sticky_picks_lowest_rtt_on_first_call() {
    let mut s = Sticky::new();
    let metrics = make_metrics(&[Some(30), Some(10), Some(20)], &[0; 3]);
    let v = PoolView { dial_addr: "h", metrics: &metrics };
    assert_eq!(s.pick(&v), 1);
}

#[test]
fn sticky_pins_to_first_choice() {
    let mut s = Sticky::new();
    let metrics = make_metrics(&[Some(30), Some(10), Some(20)], &[0; 3]);
    let v = PoolView { dial_addr: "h", metrics: &metrics };
    let first = s.pick(&v);
    for _ in 0..100 {
        assert_eq!(s.pick(&v), first);
    }
}

#[test]
fn sticky_does_not_repick_when_metrics_change() {
    let mut s = Sticky::new();
    let m1 = make_metrics(&[Some(30), Some(10), Some(20)], &[0; 3]);
    let v1 = PoolView { dial_addr: "h", metrics: &m1 };
    let first = s.pick(&v1);
    assert_eq!(first, 1);
    let m2 = make_metrics(&[Some(5), Some(100), Some(200)], &[0; 3]);
    let v2 = PoolView { dial_addr: "h", metrics: &m2 };
    for _ in 0..10 {
        assert_eq!(s.pick(&v2), 1);
    }
}

#[test]
fn sticky_report_error_does_not_release_pin() {
    let mut s = Sticky::new();
    let metrics = make_metrics(&[Some(30), Some(10), Some(20)], &[0; 3]);
    let v = PoolView { dial_addr: "h", metrics: &metrics };
    let first = s.pick(&v);
    s.report_error(first);
    s.report_error(first);
    assert_eq!(s.pick(&v), first);
}

#[test]
fn sticky_picks_first_when_no_rtts() {
    let mut s = Sticky::new();
    let metrics = make_metrics(&[None, None, None], &[0; 3]);
    let v = PoolView { dial_addr: "h", metrics: &metrics };
    assert_eq!(s.pick(&v), 0);
    for _ in 0..5 {
        assert_eq!(s.pick(&v), 0);
    }
}

#[test]
fn weighted_round_robin_favors_fast_tunnel() {
    let mut s = WeightedRoundRobin::new();
    let metrics = make_metrics(&[Some(10), Some(100), Some(1000)], &[0; 3]);
    let v = PoolView { dial_addr: "h", metrics: &metrics };
    let mut hits = [0usize; 3];
    for _ in 0..111 {
        hits[s.pick(&v)] += 1;
    }
    assert!(hits[0] > hits[1], "fastest should get most hits");
    assert!(hits[1] > hits[2], "medium should get more than slowest");
}

#[test]
fn weighted_round_robin_walks_through_sequence() {
    let mut s = WeightedRoundRobin::new();
    let metrics = make_metrics(&[Some(333), Some(1000), Some(1000)], &[0; 3]);
    let v = PoolView { dial_addr: "h", metrics: &metrics };
    let mut seq = Vec::new();
    for _ in 0..5 {
        seq.push(s.pick(&v));
    }
    assert_eq!(seq, vec![0, 1, 2, 0, 0]);
}

#[test]
fn free_constructors_return_boxed_strategies() {
    let metrics = vec![
        TunnelMetrics { rtt: Some(Duration::from_millis(10)), ..Default::default() },
        TunnelMetrics { rtt: Some(Duration::from_millis(20)), ..Default::default() },
    ];
    let v = PoolView { dial_addr: "h", metrics: &metrics };

    let mut strategies: Vec<Box<dyn BalanceStrategy>> = vec![
        Box::new(round_robin()),
        Box::new(random()),
        Box::new(lowest_rtt()),
        Box::new(least_connections()),
        Box::new(hash_by_addr()),
        Box::new(weighted_round_robin()),
        Box::new(failover()),
        Box::new(health_weighted()),
        Box::new(sticky()),
    ];
    for s in &mut strategies {
        let _ = s.name();
        assert!(s.pick(&v) < 2);
    }
    assert_eq!(strategies.len(), 9);
}

#[test]
fn weighted_shares_are_exact_after_full_cycles() {
    let mut s = WeightedRoundRobin::new();
    let metrics = make_metrics(&[Some(10), Some(100), Some(1000), None], &[0; 4]);
    let v = PoolView { dial_addr: "h", metrics: &metrics };
    let mut hits = [0usize; 4];
    for _ in 0..2 * (100 + 10 + 1 + 1) {
        hits[s.pick(&v)] += 1;
    }
    assert_eq!(hits, [200, 20, 2, 2]);
}

#[test]
fn weights_follow_the_rtt() {
    assert_eq!(rota_lb::calculate_weight(Duration::ZERO), 1000);
    assert_eq!(rota_lb::calculate_weight(Duration::from_millis(3)), 333);
    assert_eq!(rota_lb::calculate_weight(Duration::from_millis(1000)), 1);
    assert_eq!(rota_lb::calculate_weight(Duration::from_millis(1001)), 1);
    assert_eq!(rota_lb::calculate_weight(Duration::MAX), 1);
}

#[test]
fn health_scores_are_exact() {
    let m = TunnelMetrics {
        rtt: Some(Duration::from_millis(2)),
        active_connections: 3,
        recent_errors: 4,
        ..Default::default()
    };
    assert_eq!(rota_lb::strategies::health_weighted::score(&m), 2_000 + 2_000_000 + 30_000);
    let unknown = TunnelMetrics::default();
    assert_eq!(rota_lb::strategies::health_weighted::score(&unknown), 1_000_000);
}

#[test]
fn round_robin_is_even() {
    let mut s = RoundRobin::new();
    let metrics = make_metrics(&[None; 3], &[0; 3]);
    let v = PoolView { dial_addr: "h", metrics: &metrics };
    let mut hits = [0usize; 3];
    for _ in 0..30 {
        hits[s.pick(&v)] += 1;
    }
    assert_eq!(hits, [10, 10, 10]);
}

#[test]
fn random_reaches_every_backend() {
    let mut s = Random::new();
    let metrics = make_metrics(&[None; 4], &[0; 4]);
    let v = PoolView { dial_addr: "h", metrics: &metrics };
    let mut hits = [0usize; 4];
    for _ in 0..1000 {
        hits[s.pick(&v)] += 1;
    }
    assert!(hits.iter().all(|&h| h > 0));
}

#[test]
fn hashes_are_taken_modulo_the_pool() {
    assert_eq!(rota_lb::strategies::hash_by_addr::bucket_of(17, 5), 2);
    assert_eq!(rota_lb::strategies::hash_by_addr::bucket_of(17, 1), 0);
}

#[test]
fn names_match_the_constructors() {
    assert_eq!(weighted_round_robin().name(), "weighted_round_robin");
    assert_eq!(sticky().name(), "sticky");
    assert_eq!(Box::new(failover()).name(), "failover");
}

#[test]
fn empty_pools_pick_index_zero() {
    let metrics: Vec<TunnelMetrics> = Vec::new();
    let v = PoolView { dial_addr: "h", metrics: &metrics };
    assert!(v.is_empty());
    assert_eq!(v.len(), 0);
    assert_eq!(WeightedRoundRobin::new().pick(&v), 0);
    assert_eq!(Failover::new().pick(&v), 0);
}

fn rtts(list: &[Option<Duration>]) -> Vec<TunnelMetrics> {
    list.iter().map(|&rtt| TunnelMetrics { rtt, ..Default::default() }).collect()
}

#[test]
fn any_measured_rtt_beats_none() {
    let metrics = rtts(&[None, Some(Duration::MAX)]);
    let v = PoolView { dial_addr: "h", metrics: &metrics };
    assert_eq!(LowestRtt::new().pick(&v), 1);
    assert_eq!(Sticky::new().pick(&v), 1);
    assert_eq!(LeastConnections::new().pick(&v), 1);
    let metrics = rtts(&[Some(Duration::MAX), None, Some(Duration::MAX)]);
    let v = PoolView { dial_addr: "h", metrics: &metrics };
    assert_eq!(LowestRtt::new().pick(&v), 0);
}

#[test]
fn failover_moves_on_in_a_smaller_pool() {
    let three = vec![TunnelMetrics::default(); 3];
    let two = vec![TunnelMetrics::default(); 2];
    let v3 = PoolView { dial_addr: "h", metrics: &three };
    let v2 = PoolView { dial_addr: "h", metrics: &two };
    let mut s = Failover::new();
    assert_eq!(s.pick(&v3), 0);
    s.report_error(0);
    s.report_error(1);
    assert_eq!(s.pick(&v2), 0);
    s.report_error(0);
    assert_eq!(s.pick(&v2), 1);
    s.report_error(0);
    assert_eq!(s.pick(&v2), 1);
    let mut unknown = Failover::new();
    unknown.report_error(usize::MAX);
    unknown.report_error(0);
    assert_eq!(unknown.pick(&v3), 0);
}

#[test]
fn removals_move_pins_and_primaries_along() {
    let metrics = rtts(&[None, None, Some(Duration::from_millis(1)), None]);
    let v = PoolView { dial_addr: "h", metrics: &metrics };
    let mut s = Sticky::new();
    assert_eq!(s.pick(&v), 2);
    s.backend_removed(3);
    assert_eq!(s.pick(&v), 2);
    s.backend_removed(0);
    assert_eq!(s.pick(&v), 1);
    s.backend_removed(1);
    assert_eq!(s.pick(&v), 1);
    assert_eq!(s.pick(&PoolView { dial_addr: "h", metrics: &metrics[..1] }), 0);

    let mut f = Failover::with_backend_count(4);
    f.report_error(0);
    f.report_error(1);
    assert_eq!(f.pick(&v), 2);
    f.backend_removed(0);
    let smaller = PoolView { dial_addr: "h", metrics: &metrics[..3] };
    assert_eq!(f.pick(&smaller), 1);
    f.backend_removed(1);
    assert_eq!(f.pick(&PoolView { dial_addr: "h", metrics: &metrics[..2] }), 1);
    f.backend_removed(1);
    assert_eq!(f.pick(&PoolView { dial_addr: "h", metrics: &metrics[..1] }), 0);
}

#[test]
fn hashes_of_any_size_are_spread() {
    assert_eq!(rota_lb::strategies::hash_by_addr::bucket_of(u64::MAX, 10), 5);
    assert_eq!(rota_lb::strategies::hash_by_addr::bucket_of(1 << 40, 7), 2);
}

#[test]
fn weighted_schedules_walk_repeat_and_start_over() {
    let ms = |n: u64| Some(Duration::from_millis(n));
    let metrics = rtts(&[ms(500), None, ms(250)]);
    let v = PoolView { dial_addr: "h", metrics: &metrics };
    let mut s = WeightedRoundRobin::new();
    let picks: Vec<usize> = (0..21).map(|_| s.pick(&v)).collect();
    assert_eq!(&picks[..3], &[0, 1, 2]);
    let cycle = &picks[..7];
    assert_eq!(cycle.iter().filter(|&&i| i == 0).count(), 2);
    assert_eq!(cycle.iter().filter(|&&i| i == 1).count(), 1);
    assert_eq!(cycle.iter().filter(|&&i| i == 2).count(), 4);
    assert_eq!(&picks[7..14], cycle);
    assert_eq!(&picks[14..], cycle);
    let _ = s.pick(&v);
    let other = rtts(&[ms(250), None, ms(250)]);
    let w = PoolView { dial_addr: "h", metrics: &other };
    let mut fresh = WeightedRoundRobin::new();
    for _ in 0..9 {
        assert_eq!(s.pick(&w), fresh.pick(&w));
    }
}
