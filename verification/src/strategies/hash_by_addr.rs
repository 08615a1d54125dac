//! Pick by the dial address.

use std::collections::hash_map::DefaultHasher;
use std::hash::{Hash, Hasher};

use vstd::prelude::*;
use vstd::std_specs::hash::DefaultHasherAdditionalSpecFns;

use crate::constants::STRATEGY_NAMES;
use crate::strategy::{BalanceStrategy, PoolView, StrategyState, TunnelMetrics};

verus! {

/// What a text writes into a hasher, write by write.
pub uninterp spec fn hashed_bytes(text: Seq<char>) -> Seq<Seq<u8>>;

/// `<str as Hash>::hash` with a `DefaultHasher`: writes that depend on the text
/// alone, behind whatever was written before. Which bytes those are, the
/// standard library leaves open.
#[verifier::external_body]
fn feed(text: &str, hasher: &mut DefaultHasher)
    ensures
        final(hasher)@ == old(hasher)@ + hashed_bytes(text@),
{
    text.hash(hasher);
}

/// The hash of an address: what a hasher fresh from `DefaultHasher::new`
/// finishes with after the address was fed to it. Hashers made by
/// `DefaultHasher::new` are all alike.
pub open spec fn address_hash(addr: Seq<char>) -> u64 {
    DefaultHasher::spec_finish(hashed_bytes(addr))
}

/// Hash an address.
fn hash_address(addr: &str) -> (hash: u64)
    ensures
        hash == address_hash(addr@),
{
    let mut hasher = DefaultHasher::new();
    feed(addr, &mut hasher);
    assert(hasher@ =~= hashed_bytes(addr@));
    hasher.finish()
}

/// The backend an address hash maps to in a pool of `len` backends.
pub open spec fn bucket(hash: u64, len: nat) -> int {
    hash as int % len as int
}

/// Map an address hash to a backend.
pub fn bucket_of(hash: u64, len: usize) -> (idx: usize)
    requires
        len > 0,
    ensures
        idx == bucket(hash, len as nat),
        idx < len,
{
    (hash % (len as u64)) as usize
}

/// Hash the dial address modulo the backend count. The same hostname always
/// goes to the same backend — best for HTTP/HTTPS keep-alive.
#[derive(Debug, Clone, Copy)]
pub struct HashByAddr;

impl HashByAddr {
    /// Create a new hash-by-address strategy.
    pub fn new() -> (s: Self)
        ensures
            s == HashByAddr,
    {
        HashByAddr
    }
}

impl Default for HashByAddr {
    fn default() -> (s: Self)
        ensures
            s == HashByAddr,
    {
        HashByAddr
    }
}

impl BalanceStrategy for HashByAddr {
    open spec fn state(&self) -> StrategyState {
        StrategyState::HashByAddr
    }

    open spec fn valid(&self) -> bool {
        true
    }

    /// An empty pool has no backend to map to.
    open spec fn can_pick(&self, addr: Seq<char>, metrics: Seq<TunnelMetrics>) -> bool {
        metrics.len() > 0
    }

    /// The bucket of the address hash; metrics play no part.
    open spec fn pick_step(
        &self,
        addr: Seq<char>,
        metrics: Seq<TunnelMetrics>,
        post: StrategyState,
        idx: int,
    ) -> bool {
        &&& idx == bucket(address_hash(addr), metrics.len())
        &&& post == self.state()
    }

    open spec fn error_step(&self, idx: int, post: StrategyState) -> bool {
        post == self.state()
    }

    open spec fn success_step(&self, idx: int, post: StrategyState) -> bool {
        post == self.state()
    }

    open spec fn removal_step(&self, idx: int, post: StrategyState) -> bool {
        post == self.state()
    }

    fn pick(&mut self, view: &PoolView<'_>) -> (idx: usize) {
        bucket_of(hash_address(view.dial_addr), view.len())
    }

    fn name(&self) -> (name: &str)
        ensures
            name@ == STRATEGY_NAMES[4]@,
    {
        STRATEGY_NAMES[4]
    }

    fn report_error(&mut self, idx: usize) {
    }

    fn report_success(&mut self, idx: usize) {
    }

    fn backend_removed(&mut self, idx: usize) {
    }
}

/// The same address goes to the same backend as long as the pool keeps its
/// size, whatever the metrics say and whichever instance is asked.
pub proof fn same_address_same_backend(
    a: HashByAddr,
    a_post: HashByAddr,
    b: HashByAddr,
    b_post: HashByAddr,
    addr: Seq<char>,
    pool_a: Seq<TunnelMetrics>,
    pool_b: Seq<TunnelMetrics>,
    idx_a: int,
    idx_b: int,
)
    requires
        pool_a.len() == pool_b.len(),
        a.pick_step(addr, pool_a, a_post.state(), idx_a),
        b.pick_step(addr, pool_b, b_post.state(), idx_b),
    ensures
        idx_a == idx_b,
{
}

/// The backend is the hash of the address modulo the number of backends, and
/// nothing else plays a part.
pub proof fn the_remainder_is_picked(
    s: &mut HashByAddr,
    view: &PoolView<'_>,
    idx: usize,
    hash: u64,
    by_hash: usize,
)
    requires
        call_ensures(HashByAddr::pick, (s, view), idx),
        view.metrics@.len() > 0,
        call_ensures(bucket_of, (hash, view.metrics@.len() as usize), by_hash),
        view.metrics@.len() <= usize::MAX,
    ensures
        idx == DefaultHasher::spec_finish(hashed_bytes(view.dial_addr@)) as int
            % view.metrics@.len() as int,
        by_hash == hash as int % view.metrics@.len() as int,
{
}

} // verus!
