//! Built-in balance strategies.

pub mod built_in;
pub mod failover;
pub mod hash_by_addr;
pub mod health_weighted;
pub mod least_connections;
pub mod lowest_rtt;
pub mod random;
pub mod round_robin;
pub mod sticky;
pub mod weighted_round_robin;

pub use built_in::{
    failover, hash_by_addr, health_weighted, least_connections, lowest_rtt, random, round_robin,
    sticky, weighted_round_robin, Strategy,
};
pub use failover::Failover;
pub use hash_by_addr::HashByAddr;
pub use health_weighted::HealthWeighted;
pub use least_connections::LeastConnections;
pub use lowest_rtt::LowestRtt;
pub use random::Random;
pub use round_robin::RoundRobin;
pub use sticky::Sticky;
pub use weighted_round_robin::WeightedRoundRobin;
