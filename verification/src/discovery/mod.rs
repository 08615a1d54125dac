//! Service discovery: where backends come from, and how the pool follows.

pub mod consul;
pub mod descriptor;
pub mod dns;
pub mod etcd;
pub mod metadata;
pub mod reconcile;

pub use consul::{ConsulDiscovery, ConsulEntry};
pub use descriptor::{default_poll_interval, BackendDescriptor, StaticDiscovery};
pub use dns::{DnsDiscovery, SrvRecord};
pub use etcd::{EtcdDiscovery, EtcdEntry};
pub use metadata::Metadata;
pub use reconcile::{adopt, reconcile, Reconciliation};
