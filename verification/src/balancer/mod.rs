//! The `LoadBalancer` — N backends, distributed by a strategy.

pub mod builder;
pub mod laws;
pub mod load_balancer;
pub mod pool_laws;

pub use builder::{BuildStep, LoadBalancerBuilder, PendingBuild};
pub use load_balancer::{
    AttemptOutcome, BackendOutput, Dial, DialStep, GuardTicket, LoadBalancer,
};
