//! Tunables shared by the strategies, the health checker and the retry loop.

use std::time::Duration;

use vstd::prelude::*;

use crate::duration::duration_nanos;

verus! {

/// Scale of the RTT weights: a backend that answers in one millisecond gets
/// this many slots.
pub const MS_PER_SECOND: u32 = 1000;

/// Minimum weight for weighted strategies.
pub const MIN_WEIGHT: u32 = 1;

/// `HealthWeighted` error penalty in microseconds (500ms equivalent).
pub const ERROR_PENALTY_US: u64 = 500_000;

/// `HealthWeighted` load penalty per active connection in microseconds (10ms).
pub const LOAD_PENALTY_US: u64 = 10_000;

/// Score used when no RTT is available (1 second in microseconds).
pub const DEFAULT_RTT_US: u64 = 1_000_000;

/// Dial timeout, in seconds, if not configured.
pub const DEFAULT_DIAL_TIMEOUT_SECS: u64 = 10;

/// Interval between health checks, in seconds.
pub const DEFAULT_HEALTH_CHECK_INTERVAL_SECS: u64 = 30;

/// Interval between two polls of a discovery source, in seconds, unless the
/// source suggests another.
pub const DEFAULT_POLL_INTERVAL_SECS: u64 = 30;

/// Timeout of one health check, in seconds.
pub const DEFAULT_HEALTH_CHECK_TIMEOUT_SECS: u64 = 5;

/// Consecutive failures before a backend is marked unhealthy.
pub const DEFAULT_UNHEALTHY_THRESHOLD: u32 = 3;

/// Consecutive successes before a backend is marked healthy.
pub const DEFAULT_HEALTHY_THRESHOLD: u32 = 2;

/// Maximum number of backends supported (arbitrary sanity limit).
pub const MAX_BACKENDS: usize = 10_000;

/// Minimum number of backends required.
pub const MIN_BACKENDS: usize = 1;

/// Longest pause between two retries, in seconds.
pub const DEFAULT_MAX_RETRY_DELAY_SECS: u64 = 30;

/// DNS SRV record prefix used when none is configured.
pub const DEFAULT_SRV_PREFIX: &'static str = "_http._tcp";

/// Strategy names, indexed by strategy number.
pub const STRATEGY_NAMES: [&'static str; 9] = [
    "round_robin",
    "random",
    "lowest_rtt",
    "least_connections",
    "hash_by_addr",
    "weighted_round_robin",
    "failover",
    "health_weighted",
    "sticky",
];

/// The weight of a backend whose RTT is `millis` milliseconds:
/// `max(1, 1000 / millis)`, with anything under a millisecond counted as one.
pub open spec fn weight_of_millis(millis: nat) -> nat {
    let ms = if millis == 0 { 1 } else { millis };
    let share = MS_PER_SECOND as nat / ms;
    if share < MIN_WEIGHT as nat { MIN_WEIGHT as nat } else { share }
}

/// `WeightedRoundRobin` weight calculation: `max(1, 1000 / rtt_ms)`.
pub fn calculate_weight(rtt: Duration) -> (weight: u32)
    ensures
        weight == weight_of_millis(duration_nanos(rtt) / 1_000_000),
        MIN_WEIGHT <= weight <= MS_PER_SECOND,
{
    let millis: u128 = rtt.as_millis();
    let ms: u128 = if millis == 0 { 1 } else { millis };
    if ms > MS_PER_SECOND as u128 {
        proof {
            vstd::arithmetic::div_mod::lemma_basic_div(MS_PER_SECOND as int, ms as int);
        }
        MIN_WEIGHT
    } else {
        let share: u32 = MS_PER_SECOND / (ms as u32);
        proof {
            vstd::arithmetic::div_mod::lemma_div_is_ordered_by_denominator(MS_PER_SECOND as int, 1, ms as int);
            vstd::arithmetic::div_mod::lemma_div_non_zero(MS_PER_SECOND as int, ms as int);
        }
        share
    }
}

/// ALPN protocols offered when none are configured: `h2`, then `http/1.1`.
pub fn default_alpn_protocols() -> (protocols: Vec<Vec<u8>>)
    ensures
        protocols@.len() == 2,
        protocols@[0]@ == seq![0x68u8, 0x32u8],
        protocols@[1]@ == seq![0x68u8, 0x74u8, 0x74u8, 0x70u8, 0x2fu8, 0x31u8, 0x2eu8, 0x31u8],
{
    let h2: Vec<u8> = vec![0x68u8, 0x32u8];
    let http11: Vec<u8> = vec![0x68u8, 0x74u8, 0x74u8, 0x70u8, 0x2fu8, 0x31u8, 0x2eu8, 0x31u8];
    let protocols: Vec<Vec<u8>> = vec![h2, http11];
    protocols
}

/// The protocols offered by default are `h2` and `http/1.1`, in that order.
pub proof fn h2_is_offered_first(protocols: Vec<Vec<u8>>)
    requires
        call_ensures(default_alpn_protocols, (), protocols),
    ensures
        protocols@.len() == 2,
        protocols@[0]@.len() == 2,
        protocols@[0]@[0] == 104,
        protocols@[0]@[1] == 50,
        protocols@[1]@.len() == 8,
        protocols@[1]@[0] == 104,
        protocols@[1]@[1] == 116,
        protocols@[1]@[2] == 116,
        protocols@[1]@[3] == 112,
        protocols@[1]@[4] == 47,
        protocols@[1]@[5] == 49,
        protocols@[1]@[6] == 46,
        protocols@[1]@[7] == 49,
{
}

} // verus!
