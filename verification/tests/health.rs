use std::time::Duration;

use rota_lb::{
    is_healthy, record_dial_result, HealthCheckConfig, HealthState, HealthTracker, TunnelMetrics,
};

#[test]
fn defaults_are_thirty_five_three_two() {
    let c = HealthCheckConfig::default();
    assert_eq!(c.interval, Duration::from_secs(30));
    assert_eq!(c.timeout, Duration::from_secs(5));
    assert_eq!(c.unhealthy_threshold, 3);
    assert_eq!(c.healthy_threshold, 2);
    assert_eq!(c.check_addr, "");
    let copy = HealthCheckConfig { check_addr: "h:1".to_string(), ..c }.clone();
    assert_eq!(copy.check_addr, "h:1");
    assert_ne!(HealthState::Healthy, HealthState::Unknown);
}

#[test]
fn dial_results_move_the_error_counts() {
    let mut metrics = vec![TunnelMetrics::default(); 2];
    record_dial_result(&mut metrics, 1, false);
    record_dial_result(&mut metrics, 1, false);
    assert_eq!(metrics[1].recent_errors, 2);
    assert_eq!(metrics[1].total_errors, 2);
    record_dial_result(&mut metrics, 1, true);
    assert_eq!(metrics[1].recent_errors, 0);
    assert_eq!(metrics[1].total_errors, 2);
    record_dial_result(&mut metrics, 7, false);
    assert_eq!(metrics[0].total_errors, 0);
}

#[test]
fn counts_stop_at_their_limits() {
    let mut metrics = vec![TunnelMetrics {
        recent_errors: u32::MAX,
        total_errors: u64::MAX,
        ..Default::default()
    }];
    record_dial_result(&mut metrics, 0, false);
    assert_eq!(metrics[0].recent_errors, u32::MAX);
    assert_eq!(metrics[0].total_errors, u64::MAX);
}

#[test]
fn healthy_is_below_the_threshold() {
    let m = TunnelMetrics { recent_errors: 3, ..Default::default() };
    assert!(is_healthy(&m, 4));
    assert!(!is_healthy(&m, 3));
    assert!(!is_healthy(&TunnelMetrics::default(), 0));
}

fn run(checks: &[bool]) -> TunnelMetrics {
    let mut tracker = HealthTracker::new(1);
    let mut metrics = vec![TunnelMetrics::default()];
    for &ok in checks {
        tracker.apply(&[ok], &mut metrics, 2);
    }
    metrics[0]
}

#[test]
fn failures_in_a_row_mark_unhealthy() {
    assert!(is_healthy(&run(&[false, false]), 3));
    assert!(!is_healthy(&run(&[false, false, false]), 3));
    assert!(is_healthy(&run(&[false, false, true, false, false]), 3));
    assert_eq!(run(&[false, false, false]).total_errors, 3);
}

#[test]
fn successes_in_a_row_mark_healthy() {
    let fallen = [false, false, false, true];
    assert_eq!(run(&fallen).recent_errors, 3);
    let risen = [false, false, false, true, true];
    assert_eq!(run(&risen).recent_errors, 0);
    assert_eq!(run(&risen).total_errors, 3);
}

#[test]
fn backends_without_metrics_are_passed_over() {
    let mut tracker = HealthTracker::new(3);
    assert!(tracker.has_room_for(&[true, false, true], 2));
    assert!(!tracker.has_room_for(&[true, false], 2));
    let mut metrics = vec![TunnelMetrics::default(); 2];
    tracker.apply(&[false, true, false], &mut metrics, 1);
    assert_eq!(metrics.len(), 2);
    assert_eq!(metrics[0].recent_errors, 1);
    assert_eq!(metrics[1].recent_errors, 0);
    metrics.push(TunnelMetrics::default());
    tracker.apply(&[true, true, false], &mut metrics, 1);
    assert_eq!(metrics[2].recent_errors, 1);
}

#[test]
fn one_success_is_not_a_recovery() {
    let m = run(&[false, false, true, false]);
    assert_eq!(m.recent_errors, 2);
    assert!(!is_healthy(&m, 2));
    assert_eq!(m.total_errors, 3);
    let m = run(&[false, false, true, false, true, true]);
    assert_eq!(m.recent_errors, 0);
    assert_eq!(run(&[false, false, true, false, false, false]).recent_errors, 3);
}
