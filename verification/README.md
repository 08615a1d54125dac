# rota-lb

A generic load balancer over a pool of backends, verified with Verus.

## Layout

- `src/` is the library. It holds every decision a balancer makes and does no
  I/O. Each function states what it does in `requires` and `ensures`; what
  holds across calls is stated as public proof functions.
  - `strategy.rs`, `strategies/` — the `BalanceStrategy` trait and the nine
    built-in strategies.
  - `balancer/` — the pool, the builder, dialing, and the laws about them.
  - `retry.rs` — retry policies.
  - `health.rs` — passive and active health tracking.
  - `discovery/` — descriptors, reconciliation, and the DNS, Consul and etcd
    answer formats.
  - `ffi.rs` — the C interface without its pointers.
  - `tls.rs`, `tower.rs`, `address.rs`, `error.rs`, `constants.rs`.
  - `duration.rs`, `text.rs`, `lists.rs` — what the rest builds on.
- `app/` is the runtime: sockets, timers, locks, registries, TLS handshakes and
  the C ABI. It asks the library what to do and reports what happened.
- `tests/` runs the library on concrete values.

## Dialing

A dial is four calls. `LoadBalancer::dial` validates the address, asks the
strategy for a backend and counts the connection. The caller opens the
connection and hands the outcome of each attempt to `dial_with_retry`, which
answers with the connection, a delay, or the final error. `finish_dial` settles
the metrics and reports to the strategy. `release` uncounts the connection when
it is closed. Both find the backend by its serial, wherever in the pool it is by
then.

A draining backend is passed over while another one is not draining: if the
strategy chooses it, the next backend in service stands in.

## Custom strategies and policies

Implement `BalanceStrategy` or `RetryPolicy`. In verified code a strategy says
what it does through the step relations of the trait; one that leaves them out
promises only to stay within the pool. `app/strategy.rs` has a trait of the same
name for strategies that are not verified: only `pick` and `name` have to be
written.
