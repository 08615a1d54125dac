[package]
name = "rota-lb"
version = "0.1.0"
edition = "2021"
publish = false

[dependencies]
async-trait = "0.1"
consulrs = "0.1"
etcd-client = "0.14"
futures = "0.3"
rand = "0.8"
rustls = { version = "0.23", default-features = false, features = ["ring", "std", "tls12"] }
rustls-native-certs = "0.7"
serde = { version = "1", features = ["derive"] }
thiserror = "1"
tokio = { version = "1", features = ["io-util", "macros", "net", "rt-multi-thread", "sync", "time"] }
tokio-rustls = { version = "0.26", default-features = false, features = ["ring", "tls12"] }
tokio-util = "0.7"
tower = "0.4"
tracing = "0.1"
trust-dns-resolver = "0.23"
