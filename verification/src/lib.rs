//! Generic load balancer over a pool of backends.
//!
//! The library holds every decision a balancer makes: which backend a dial
//! goes to, how the per-backend counters move, when a failed dial is retried,
//! how the pool is reconfigured, and how discovered services become backends.
//! It performs no I/O. A runtime around it owns sockets, timers and locks,
//! hands in what happened and carries out what comes back.

pub mod address;
pub mod balancer;
pub mod constants;
pub mod discovery;
pub mod duration;
pub mod error;
pub mod ffi;
pub mod health;
pub mod lists;
pub mod retry;
pub mod strategies;
pub mod strategy;
pub mod text;
pub mod tls;
pub mod tower;

pub use address::validate_dial_addr;
pub use balancer::{
    AttemptOutcome, BackendOutput, BuildStep, Dial, DialStep, GuardTicket, LoadBalancer,
    LoadBalancerBuilder, PendingBuild,
};
pub use constants::calculate_weight;
pub use discovery::{
    adopt, default_poll_interval, reconcile, BackendDescriptor, ConsulDiscovery, ConsulEntry, DnsDiscovery, EtcdDiscovery,
    EtcdEntry, Metadata, Reconciliation, SrvRecord, StaticDiscovery,
};
pub use error::{BackendError, Error, FactoryError, InvalidAddress, IoError, NoBackends};
pub use health::{
    is_healthy, record_dial_result, HealthCheckConfig, HealthState, HealthTracker,
};
pub use retry::{
    is_transient_error, FixedRetry, NoRetry, RetryChoice, RetryOnError, RetryPolicy,
    RetryPolicyBuilder,
};
pub use strategies::{
    failover, hash_by_addr, health_weighted, least_connections, lowest_rtt, random, round_robin,
    sticky, weighted_round_robin, Failover, HashByAddr, HealthWeighted, LeastConnections,
    LowestRtt, Random, RoundRobin, Sticky, Strategy, WeightedRoundRobin,
};
pub use strategy::{BalanceStrategy, PoolView, TunnelMetrics};
pub use tls::{check_server_name, client_config, PrivateKey, TlsConfig, TlsPlan};
pub use tower::LbRequest;
