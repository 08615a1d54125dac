use std::mem::size_of;
use std::time::Duration;

use rota_lb::ffi::{
    ffi_to_tunnel, rota_lb_create, rota_lb_metrics, rota_lb_report_error, rota_lb_report_success,
    rota_lb_reset, rota_lb_select, rota_lb_set_strategy, rota_lb_strategy_name, rota_lb_version,
    FfiLoadBalancer, FfiMetric, RotaVersion,
};

fn make_metrics(n: u32) -> Vec<FfiMetric> {
    vec![
        FfiMetric {
            rtt_us: 0,
            active_connections: 0,
            recent_errors: 0,
            total_dials: 0,
            total_errors: 0,
        };
        n as usize
    ]
}

#[test]
fn ffi_create_destroy_roundtrip() {
    let lb = rota_lb_create(3, 0);
    assert!(lb.is_some());
    drop(lb);
}

#[test]
fn ffi_create_zero_returns_null() {
    let lb = rota_lb_create(0, 0);
    assert!(lb.is_none());
}

#[test]
fn ffi_create_invalid_strategy_returns_null() {
    let lb = rota_lb_create(3, 99);
    assert!(lb.is_none());
}

#[test]
fn ffi_select_returns_valid_index() {
    let mut lb = rota_lb_create(3, 0);
    assert!(lb.is_some());
    let metrics = make_metrics(3);
    let addr: &[u8] = b"api.example.com:443";
    let idx = rota_lb_select(lb.as_mut(), Some(addr), Some(&metrics), 3);
    assert!(idx < 3);
}

#[test]
fn ffi_select_null_returns_max() {
    let addr: &[u8] = b"x:1";
    let m = FfiMetric {
        rtt_us: 0,
        active_connections: 0,
        recent_errors: 0,
        total_dials: 0,
        total_errors: 0,
    };
    assert_eq!(
        rota_lb_select(None, Some(addr), Some(&[m]), 1),
        u32::MAX,
    );
}

#[test]
fn ffi_failover_rotates_on_error() {
    let mut lb = rota_lb_create(3, 6);
    assert!(lb.is_some());
    let metrics = make_metrics(3);
    let addr: &[u8] = b"x:1";
    let first = rota_lb_select(lb.as_mut(), Some(addr), Some(&metrics), 3);
    assert_eq!(first, 0);
    rota_lb_report_error(lb.as_mut(), 0);
    let second = rota_lb_select(lb.as_mut(), Some(addr), Some(&metrics), 3);
    assert_eq!(second, 1);
}

#[test]
fn ffi_version_returns_expected_sizes() {
    let mut v = RotaVersion {
        major: 0,
        minor: 0,
        patch: 0,
        metric_struct_size: 0,
    };
    let rc = rota_lb_version(Some(&mut v));
    assert_eq!(rc, 0);
    assert_eq!(v.metric_struct_size, 32);
    assert_eq!(size_of::<FfiMetric>(), 32);
}

#[test]
fn ffi_version_writes_to_null_buffer_returns_minus_one() {
    let rc = rota_lb_version(None);
    assert_eq!(rc, -1);
}

#[test]
fn ffi_ffi_to_tunnel_roundtrip() {
    let ffi = FfiMetric {
        rtt_us: 50_000,
        active_connections: 3,
        recent_errors: 1,
        total_dials: 10,
        total_errors: 2,
    };
    let tunnel = ffi_to_tunnel(&ffi);
    assert_eq!(tunnel.rtt, Some(Duration::from_millis(50)));
    assert_eq!(tunnel.active_connections, 3);
    assert_eq!(tunnel.recent_errors, 1);
    assert_eq!(tunnel.total_dials, 10);
    assert_eq!(tunnel.total_errors, 2);
}

#[test]
fn ffi_ffi_to_tunnel_zero_rtt_is_none() {
    let ffi = FfiMetric {
        rtt_us: 0,
        active_connections: 0,
        recent_errors: 0,
        total_dials: 0,
        total_errors: 0,
    };
    let tunnel = ffi_to_tunnel(&ffi);
    assert!(tunnel.rtt.is_none());
}

#[test]
fn ffi_round_robin_walks() {
    let mut lb = rota_lb_create(4, 0);
    assert!(lb.is_some());
    let metrics = make_metrics(4);
    let addr: &[u8] = b"x:1";
    assert_eq!(rota_lb_select(lb.as_mut(), Some(addr), Some(&metrics), 4), 0);
    assert_eq!(rota_lb_select(lb.as_mut(), Some(addr), Some(&metrics), 4), 1);
    assert_eq!(rota_lb_select(lb.as_mut(), Some(addr), Some(&metrics), 4), 2);
    assert_eq!(rota_lb_select(lb.as_mut(), Some(addr), Some(&metrics), 4), 3);
    assert_eq!(rota_lb_select(lb.as_mut(), Some(addr), Some(&metrics), 4), 0);
}

#[test]
fn ffi_strategy_name_is_retrievable() {
    let lb = rota_lb_create(2, 7);
    assert!(lb.is_some());
    let name = rota_lb_strategy_name(lb.as_ref());
    assert_eq!(name, "health_weighted");
}

#[test]
fn ffi_health_weighted_prefers_low_rtt() {
    let mut lb = rota_lb_create(2, 7);
    assert!(lb.is_some());
    let metrics = [
        FfiMetric {
            rtt_us: 100_000,
            active_connections: 0,
            recent_errors: 0,
            total_dials: 0,
            total_errors: 0,
        },
        FfiMetric {
            rtt_us: 10_000,
            active_connections: 0,
            recent_errors: 0,
            total_dials: 0,
            total_errors: 0,
        },
    ];
    let addr: &[u8] = b"x:1";
    assert_eq!(rota_lb_select(lb.as_mut(), Some(addr), Some(&metrics), 2), 1);
}

#[test]
fn ffi_random_picks_in_range_via_ffi() {
    let mut lb = rota_lb_create(5, 1);
    assert!(lb.is_some());
    let metrics = [FfiMetric {
        rtt_us: 0,
        active_connections: 0,
        recent_errors: 0,
        total_dials: 0,
        total_errors: 0,
    }; 5];
    let addr: &[u8] = b"x:1";
    for _ in 0..20 {
        let i = rota_lb_select(lb.as_mut(), Some(addr), Some(&metrics), 5);
        assert!(i < 5, "Random returned out-of-range {i}");
    }
}

#[test]
fn ffi_sticky_pins_first_choice_via_ffi() {
    let mut lb = rota_lb_create(4, 8);
    assert!(lb.is_some());
    let metrics = [
        FfiMetric {
            rtt_us: 50_000,
            active_connections: 0,
            recent_errors: 0,
            total_dials: 0,
            total_errors: 0,
        },
        FfiMetric {
            rtt_us: 10_000,
            active_connections: 0,
            recent_errors: 0,
            total_dials: 0,
            total_errors: 0,
        },
        FfiMetric {
            rtt_us: 200_000,
            active_connections: 0,
            recent_errors: 0,
            total_dials: 0,
            total_errors: 0,
        },
        FfiMetric {
            rtt_us: 100_000,
            active_connections: 0,
            recent_errors: 0,
            total_dials: 0,
            total_errors: 0,
        },
    ];
    let addr: &[u8] = b"x:1";
    let first = rota_lb_select(lb.as_mut(), Some(addr), Some(&metrics), 4);
    for _ in 0..10 {
        let next = rota_lb_select(lb.as_mut(), Some(addr), Some(&metrics), 4);
        assert_eq!(next, first, "Sticky should pin");
    }
}

#[test]
fn ffi_report_success_does_not_panic() {
    let mut lb = rota_lb_create(3, 0);
    assert!(lb.is_some());
    let metrics = [FfiMetric {
        rtt_us: 0,
        active_connections: 0,
        recent_errors: 0,
        total_dials: 0,
        total_errors: 0,
    }; 3];
    let addr: &[u8] = b"x:1";
    let idx = rota_lb_select(lb.as_mut(), Some(addr), Some(&metrics), 3);
    rota_lb_report_success(lb.as_mut(), idx);
    // Should still pick round-robin after success report.
    let next = rota_lb_select(lb.as_mut(), Some(addr), Some(&metrics), 3);
    assert!(next < 3);
}

#[test]
fn ffi_report_success_null_does_not_crash() {
    rota_lb_report_success(None, 0);
}

#[test]
fn ffi_scratch_buffer_stress_test() {
    // 1000 sequential selects on the same lb; verifies the scratch
    // Vec doesn't drift or accumulate state between calls.
    let mut lb = rota_lb_create(4, 0);
    assert!(lb.is_some());
    let metrics = [FfiMetric {
        rtt_us: 1000,
        active_connections: 0,
        recent_errors: 0,
        total_dials: 0,
        total_errors: 0,
    }; 4];
    let addr: &[u8] = b"x:1";
    let mut prev = u32::MAX;
    for _ in 0..1000 {
        let i = rota_lb_select(lb.as_mut(), Some(addr), Some(&metrics), 4);
        assert!(i < 4);
        if prev != u32::MAX {
            assert_eq!(i, (prev + 1) % 4, "round_robin should advance by 1");
        }
        prev = i;
    }
}

#[test]
fn ffi_metrics_readback_returns_caller_values() {
    // Caller's input metrics are echoed back via rota_lb_metrics
    // because RoundRobin doesn't mutate them.
    let mut lb = rota_lb_create(3, 0);
    assert!(lb.is_some());
    let input = [
        FfiMetric {
            rtt_us: 1000,
            active_connections: 5,
            recent_errors: 0,
            total_dials: 10,
            total_errors: 0,
        },
        FfiMetric {
            rtt_us: 2000,
            active_connections: 6,
            recent_errors: 0,
            total_dials: 20,
            total_errors: 0,
        },
        FfiMetric {
            rtt_us: 3000,
            active_connections: 7,
            recent_errors: 0,
            total_dials: 30,
            total_errors: 0,
        },
    ];
    let addr: &[u8] = b"x:1";
    rota_lb_select(lb.as_mut(), Some(addr), Some(&input), 3);
    let mut output = [FfiMetric {
        rtt_us: 0,
        active_connections: 0,
        recent_errors: 0,
        total_dials: 0,
        total_errors: 0,
    }; 3];
    let rc = rota_lb_metrics(lb.as_ref(), Some(&mut output));
    assert_eq!(rc, 0);
    for i in 0..3 {
        assert_eq!(output[i].rtt_us, input[i].rtt_us);
        assert_eq!(output[i].active_connections, input[i].active_connections);
        assert_eq!(output[i].total_dials, input[i].total_dials);
    }
}

#[test]
fn ffi_metrics_readback_zero_rtt_is_zero() {
    let lb = rota_lb_create(2, 0);
    // lb starts with empty scratch buffer; reading before any select
    // should yield zeroed metrics.
    let mut output = [FfiMetric {
        rtt_us: 99,
        active_connections: 99,
        recent_errors: 99,
        total_dials: 99,
        total_errors: 99,
    }; 2];
    let rc = rota_lb_metrics(lb.as_ref(), Some(&mut output));
    assert_eq!(rc, 0);
    assert_eq!(output[0].rtt_us, 0);
    assert_eq!(output[1].rtt_us, 0);
}

#[test]
fn ffi_metrics_readback_null_args_return_minus_one() {
    let m = FfiMetric {
        rtt_us: 0,
        active_connections: 0,
        recent_errors: 0,
        total_dials: 0,
        total_errors: 0,
    };
    assert_eq!(rota_lb_metrics(None, Some(&mut [m])), -1);
    let lb = rota_lb_create(1, 0);
    assert_eq!(rota_lb_metrics(lb.as_ref(), None), -1);
}

#[test]
fn ffi_set_strategy_hot_swaps_round_robin_to_failover() {
    // RoundRobin starts; switch to Failover; the next select
    // behaviour must reflect the new strategy.
    let mut lb = rota_lb_create(2, 0); // 0 = RoundRobin
    assert!(lb.is_some());
    let metrics = [FfiMetric {
        rtt_us: 0,
        active_connections: 0,
        recent_errors: 0,
        total_dials: 0,
        total_errors: 0,
    }; 2];
    let addr: &[u8] = b"x:1";
    // Pre-swap: round-robin walks 0, 1, 0, 1.
    assert_eq!(rota_lb_select(lb.as_mut(), Some(addr), Some(&metrics), 2), 0);
    assert_eq!(rota_lb_select(lb.as_mut(), Some(addr), Some(&metrics), 2), 1);

    // Swap to Failover (6).
    let rc = rota_lb_set_strategy(lb.as_mut(), 6);
    assert_eq!(rc, 0);

    // After swap, Failover is freshly initialized — primary = 0.
    assert_eq!(rota_lb_select(lb.as_mut(), Some(addr), Some(&metrics), 2), 0);
    // report_error rotates failover primary to 1.
    rota_lb_report_error(lb.as_mut(), 0);
    assert_eq!(rota_lb_select(lb.as_mut(), Some(addr), Some(&metrics), 2), 1);

}

#[test]
fn ffi_set_strategy_invalid_returns_minus_one() {
    let mut lb = rota_lb_create(2, 0);
    assert_eq!(rota_lb_set_strategy(lb.as_mut(), 99), -1);
    // Strategy unchanged after failed swap — still RoundRobin.
    let name = rota_lb_strategy_name(lb.as_ref());
    assert_eq!(name, "round_robin");
}

#[test]
fn ffi_set_strategy_null_returns_minus_one() {
    assert_eq!(rota_lb_set_strategy(None, 0), -1);
}

#[test]
fn ffi_reset_clears_failover_primary() {
    let mut lb = rota_lb_create(3, 6); // Failover
    assert!(lb.is_some());
    let metrics = [FfiMetric {
        rtt_us: 0,
        active_connections: 0,
        recent_errors: 0,
        total_dials: 0,
        total_errors: 0,
    }; 3];
    let addr: &[u8] = b"x:1";
    // Initial select primes Failover.len and returns primary 0.
    assert_eq!(rota_lb_select(lb.as_mut(), Some(addr), Some(&metrics), 3), 0);
    // Report error on primary → primary advances to 1.
    rota_lb_report_error(lb.as_mut(), 0);
    assert_eq!(rota_lb_select(lb.as_mut(), Some(addr), Some(&metrics), 3), 1);

    // Reset — primary should be back at 0.
    let rc = rota_lb_reset(lb.as_mut());
    assert_eq!(rc, 0);
    assert_eq!(rota_lb_select(lb.as_mut(), Some(addr), Some(&metrics), 3), 0);

}

#[test]
fn ffi_reset_resets_round_robin_cursor() {
    let mut lb = rota_lb_create(3, 0); // RoundRobin
    let metrics = [FfiMetric {
        rtt_us: 0,
        active_connections: 0,
        recent_errors: 0,
        total_dials: 0,
        total_errors: 0,
    }; 3];
    let addr: &[u8] = b"x:1";
    // Walk to position 2.
    rota_lb_select(lb.as_mut(), Some(addr), Some(&metrics), 3);
    rota_lb_select(lb.as_mut(), Some(addr), Some(&metrics), 3);

    let rc = rota_lb_reset(lb.as_mut());
    assert_eq!(rc, 0);
    // After reset, cursor is 0 again.
    assert_eq!(rota_lb_select(lb.as_mut(), Some(addr), Some(&metrics), 3), 0);
}

#[test]
fn ffi_reset_null_returns_minus_one() {
    assert_eq!(rota_lb_reset(None), -1);
}

#[test]
fn ffi_ffi_lb_is_send_sync() {
    fn assert_send<T: Send>() {}
    fn assert_sync<T: Sync>() {}
    assert_send::<FfiLoadBalancer>();
    assert_sync::<FfiLoadBalancer>();
}

#[test]
fn error_reports_show_for_health_weighted_only() {
    let mut metrics = make_metrics(2);
    metrics[1].total_errors = 4;
    for (kind, shown) in [(7, 1), (0, 0), (6, 0)] {
        let mut lb = rota_lb_create(2, kind);
        let _ = rota_lb_select(lb.as_mut(), Some(&b"h:1"[..]), Some(&metrics), 2);
        rota_lb_report_error(lb.as_mut(), 1);
        rota_lb_report_error(lb.as_mut(), 9);
        rota_lb_report_success(lb.as_mut(), 0);
        let mut out = make_metrics(2);
        assert_eq!(rota_lb_metrics(lb.as_ref(), Some(&mut out)), 0);
        assert_eq!(out[1].recent_errors, shown);
        assert_eq!(out[1].total_errors, 4 + u64::from(shown));
        assert_eq!(out[0], metrics[0]);
    }
}
