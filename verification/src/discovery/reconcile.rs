//! Keeping a pool in step with what discovery finds.

use vstd::prelude::*;

use crate::balancer::load_balancer::{id_text, BalancerView, LoadBalancer};
use crate::discovery::descriptor::{descriptors_view, BackendDescriptor, DescriptorView};
use crate::error::Error;
use crate::retry::RetryPolicy;
use crate::strategy::BalanceStrategy;

verus! {

/// What is left to do after the pool was compared with what was discovered.
#[derive(Debug)]
pub struct Reconciliation<B> {
    /// Backends that were taken out of the pool, to be shut down.
    pub retired: Vec<B>,
    /// Descriptors of backends that are still to be created and added, under
    /// their ID, until one cannot be created.
    pub missing: Vec<BackendDescriptor>,
}

/// The IDs that were discovered.
pub open spec fn discovered_ids(descriptors: Seq<DescriptorView>) -> Seq<Seq<char>> {
    descriptors.map_values(|d: DescriptorView| d.id)
}

/// A backend stays unless it is tracked by an ID that was not discovered.
pub open spec fn stays(id: Option<Seq<char>>, found: Seq<Seq<char>>) -> bool {
    id matches Some(t) ==> found.contains(t)
}

/// Those of `items` whose ID stays.
pub open spec fn kept<T>(
    items: Seq<T>,
    ids: Seq<Option<Seq<char>>>,
    found: Seq<Seq<char>>,
) -> Seq<T>
    decreases items.len(),
{
    if items.len() == 0 {
        Seq::empty()
    } else {
        let rest = kept(items.drop_last(), ids.drop_last(), found);
        if stays(ids.last(), found) {
            rest.push(items.last())
        } else {
            rest
        }
    }
}

/// Those of `items` whose ID does not stay.
pub open spec fn dropped<T>(
    items: Seq<T>,
    ids: Seq<Option<Seq<char>>>,
    found: Seq<Seq<char>>,
) -> Seq<T>
    decreases items.len(),
{
    if items.len() == 0 {
        Seq::empty()
    } else {
        let rest = dropped(items.drop_last(), ids.drop_last(), found);
        if stays(ids.last(), found) {
            rest
        } else {
            rest.push(items.last())
        }
    }
}

/// The descriptors whose ID the pool does not track.
pub open spec fn untracked(
    descriptors: Seq<DescriptorView>,
    ids: Seq<Option<Seq<char>>>,
) -> Seq<DescriptorView>
    decreases descriptors.len(),
{
    if descriptors.len() == 0 {
        Seq::empty()
    } else {
        let rest = untracked(descriptors.drop_last(), ids);
        if ids.contains(Some(descriptors.last().id)) {
            rest
        } else {
            rest.push(descriptors.last())
        }
    }
}

/// Where each backend that does not stay is when it goes: those that went
/// before it have left already.
pub open spec fn removal_points(ids: Seq<Option<Seq<char>>>, found: Seq<Seq<char>>) -> Seq<int>
    decreases ids.len(),
{
    if ids.len() == 0 {
        Seq::empty()
    } else {
        let init = ids.drop_last();
        let rest = removal_points(init, found);
        if stays(ids.last(), found) {
            rest
        } else {
            rest.push(kept(init, init, found).len() as int)
        }
    }
}

/// `states` is what a strategy may go through when it is told of the removals
/// at these points, one after the other.
pub open spec fn is_told<S: BalanceStrategy>(states: Seq<S>, points: Seq<int>) -> bool {
    &&& states.len() == points.len() + 1
    &&& forall|k: int|
        0 <= k < points.len() ==> states[k].removal_step(
            #[trigger] points[k],
            states[k + 1].state(),
        )
}

/// `after` is what may become of the strategy `before` when it is told of the
/// removals at these points.
pub open spec fn told_of_removals<S: BalanceStrategy>(
    before: S,
    points: Seq<int>,
    after: S,
) -> bool {
    exists|states: Seq<S>| #[trigger]
        is_told(states, points) && states[0] == before && states.last() == after
}

/// Told of nothing, a strategy stays as it is.
proof fn lemma_told_of_none<S: BalanceStrategy>(s: S)
    ensures
        told_of_removals(s, Seq::<int>::empty(), s),
{
    assert(is_told(seq![s], Seq::<int>::empty()));
}

/// One removal more.
proof fn lemma_told<S: BalanceStrategy>(before: S, points: Seq<int>, mid: S, at: int, after: S)
    requires
        told_of_removals(before, points, mid),
        mid.removal_step(at, after.state()),
    ensures
        told_of_removals(before, points.push(at), after),
{
    let states = choose|states: Seq<S>| #[trigger]
        is_told(states, points) && states[0] == before && states.last() == mid;
    let longer = states.push(after);
    let all = points.push(at);
    assert forall|k: int| 0 <= k < all.len() implies longer[k].removal_step(
        #[trigger] all[k],
        longer[k + 1].state(),
    ) by {
        if k < points.len() {
            assert(states[k].removal_step(points[k], states[k + 1].state()));
        }
    }
    assert(is_told(longer, all));
}

/// Nothing is kept that was not there.
proof fn lemma_kept_len<T>(items: Seq<T>, ids: Seq<Option<Seq<char>>>, found: Seq<Seq<char>>)
    requires
        items.len() == ids.len(),
    ensures
        kept(items, ids, found).len() + dropped(items, ids, found).len() == items.len(),
    decreases items.len(),
{
    if items.len() > 0 {
        lemma_kept_len(items.drop_last(), ids.drop_last(), found);
    }
}

/// How many are kept does not depend on what they are.
proof fn lemma_kept_same_len<T, U>(
    items: Seq<T>,
    others: Seq<U>,
    ids: Seq<Option<Seq<char>>>,
    found: Seq<Seq<char>>,
)
    requires
        items.len() == ids.len(),
        others.len() == ids.len(),
    ensures
        kept(items, ids, found).len() == kept(others, ids, found).len(),
    decreases items.len(),
{
    if items.len() > 0 {
        lemma_kept_same_len(items.drop_last(), others.drop_last(), ids.drop_last(), found);
    }
}

/// One item more: what is kept of the first `p + 1` items.
proof fn lemma_kept_step<T>(
    items: Seq<T>,
    ids: Seq<Option<Seq<char>>>,
    found: Seq<Seq<char>>,
    p: int,
)
    requires
        items.len() == ids.len(),
        0 <= p < items.len(),
    ensures
        kept(items.take(p + 1), ids.take(p + 1), found) == (if stays(ids[p], found) {
            kept(items.take(p), ids.take(p), found).push(items[p])
        } else {
            kept(items.take(p), ids.take(p), found)
        }),
        dropped(items.take(p + 1), ids.take(p + 1), found) == (if stays(ids[p], found) {
            dropped(items.take(p), ids.take(p), found)
        } else {
            dropped(items.take(p), ids.take(p), found).push(items[p])
        }),
{
    assert(items.take(p + 1).drop_last() =~= items.take(p));
    assert(ids.take(p + 1).drop_last() =~= ids.take(p));
}

/// Whether an ID is among those of the descriptors.
fn is_discovered(descriptors: &Vec<BackendDescriptor>, id: &String) -> (found: bool)
    ensures
        found == discovered_ids(descriptors_view(descriptors@)).contains(id@),
{
    let ghost ids = discovered_ids(descriptors_view(descriptors@));
    let mut i: usize = 0;
    while i < descriptors.len()
        invariant
            i <= descriptors@.len(),
            ids == discovered_ids(descriptors_view(descriptors@)),
            forall|j: int| 0 <= j < i ==> #[trigger] ids[j] != id@,
        decreases descriptors.len() - i,
    {
        assert(ids[i as int] == descriptors@[i as int].id@);
        if descriptors[i].id == *id {
            assert(ids.contains(id@));
            return true;
        }
        i += 1;
    }
    false
}

/// Whether an ID is among those of the pool.
fn is_tracked(ids: &Vec<Option<String>>, id: &String) -> (found: bool)
    ensures
        found == ids@.map_values(|i: Option<String>| id_text(i)).contains(Some(id@)),
{
    let ghost texts = ids@.map_values(|i: Option<String>| id_text(i));
    let mut i: usize = 0;
    while i < ids.len()
        invariant
            i <= ids@.len(),
            texts == ids@.map_values(|i: Option<String>| id_text(i)),
            forall|j: int| 0 <= j < i ==> #[trigger] texts[j] != Some(id@),
        decreases ids.len() - i,
    {
        let same = match &ids[i] {
            Some(known) => *known == *id,
            None => false,
        };
        assert(texts[i as int] == id_text(ids@[i as int]));
        if same {
            assert(texts.contains(Some(id@)));
            return true;
        }
        i += 1;
    }
    false
}

/// Take the backends out of the pool that discovery no longer finds.
fn retire_stale<B, S: BalanceStrategy, P: RetryPolicy>(
    lb: &mut LoadBalancer<B, S, P>,
    current_ids: &Vec<Option<String>>,
    descriptors: &Vec<BackendDescriptor>,
) -> (retired: Vec<B>)
    requires
        old(lb)@.wf(),
        current_ids@.map_values(|i: Option<String>| id_text(i)) == old(lb)@.ids,
    ensures
        final(lb)@.wf(),
        ({
            let found = discovered_ids(descriptors_view(descriptors@));
            &&& retired@ == dropped(old(lb)@.backends, old(lb)@.ids, found)
            &&& told_of_removals(
                old(lb)@.strategy,
                removal_points(old(lb)@.ids, found),
                final(lb)@.strategy,
            )
            &&& final(lb)@ == old(lb)@.without_stale(found, final(lb)@.strategy)
        }),
{
    let ghost before = lb@;
    let ghost found = discovered_ids(descriptors_view(descriptors@));
    let n: usize = current_ids.len();
    let mut retired: Vec<B> = Vec::new();
    let mut seen: usize = 0;
    let mut at: usize = 0;
    proof {
        lemma_told_of_none(before.strategy);
    }
    while seen < n
        invariant
            before.wf(),
            lb@.wf(),
            n == current_ids@.len(),
            n == before.ids.len(),
            current_ids@.map_values(|i: Option<String>| id_text(i)) == before.ids,
            found == discovered_ids(descriptors_view(descriptors@)),
            seen <= n,
            at <= seen,
            at == kept(before.backends.take(seen as int), before.ids.take(seen as int), found).len(),
            retired@ == dropped(
                before.backends.take(seen as int),
                before.ids.take(seen as int),
                found,
            ),
            lb@ == (BalancerView {
                backends: kept(
                    before.backends.take(seen as int),
                    before.ids.take(seen as int),
                    found,
                ) + before.backends.skip(seen as int),
                ids: kept(before.ids.take(seen as int), before.ids.take(seen as int), found)
                    + before.ids.skip(seen as int),
                metrics: kept(
                    before.metrics.take(seen as int),
                    before.ids.take(seen as int),
                    found,
                ) + before.metrics.skip(seen as int),
                serials: kept(
                    before.serials.take(seen as int),
                    before.ids.take(seen as int),
                    found,
                ) + before.serials.skip(seen as int),
                drained: kept(
                    before.drained.take(seen as int),
                    before.ids.take(seen as int),
                    found,
                ) + before.drained.skip(seen as int),
                strategy: lb@.strategy,
                ..before
            }),
            told_of_removals(
                before.strategy,
                removal_points(before.ids.take(seen as int), found),
                lb@.strategy,
            ),
        decreases n - seen,
    {
        let ghost p = seen as int;
        proof {
            lemma_kept_step(before.backends, before.ids, found, p);
            lemma_kept_step(before.ids, before.ids, found, p);
            lemma_kept_step(before.metrics, before.ids, found, p);
            lemma_kept_step(before.serials, before.ids, found, p);
            lemma_kept_step(before.drained, before.ids, found, p);
            assert(before.ids.take(p + 1).drop_last() =~= before.ids.take(p));
            lemma_kept_same_len(
                before.backends.take(p),
                before.ids.take(p),
                before.ids.take(p),
                found,
            );
            lemma_kept_same_len(
                before.backends.take(p),
                before.metrics.take(p),
                before.ids.take(p),
                found,
            );
            lemma_kept_same_len(
                before.backends.take(p),
                before.serials.take(p),
                before.ids.take(p),
                found,
            );
            lemma_kept_same_len(
                before.backends.take(p),
                before.drained.take(p),
                before.ids.take(p),
                found,
            );
            lemma_kept_len(before.backends.take(p), before.ids.take(p), found);
            assert(before.ids[p] == id_text(current_ids@[p]));
        }
        let ghost head_b = kept(before.backends.take(p), before.ids.take(p), found);
        let ghost head_i = kept(before.ids.take(p), before.ids.take(p), found);
        let ghost head_m = kept(before.metrics.take(p), before.ids.take(p), found);
        let ghost head_s = kept(before.serials.take(p), before.ids.take(p), found);
        let ghost head_d = kept(before.drained.take(p), before.ids.take(p), found);
        let ghost points = removal_points(before.ids.take(p), found);
        let ghost untold = lb@.strategy;
        let stale = match &current_ids[seen] {
            Some(id) => !is_discovered(descriptors, id),
            None => false,
        };
        assert(stale == !stays(before.ids[p], found));
        assert(lb@.size() > at);
        if stale {
            match lb.remove_backend(at) {
                Some(backend) => {
                    retired.push(backend);
                },
                None => {},
            }
            proof {
                assert(lb@.backends =~= head_b + before.backends.skip(p + 1));
                assert(lb@.ids =~= head_i + before.ids.skip(p + 1));
                assert(lb@.metrics =~= head_m + before.metrics.skip(p + 1));
                assert(lb@.serials =~= head_s + before.serials.skip(p + 1));
                assert(lb@.drained =~= head_d + before.drained.skip(p + 1));
                lemma_told(before.strategy, points, untold, at as int, lb@.strategy);
            }
        } else {
            proof {
                assert(lb@.backends =~= head_b.push(before.backends[p]) + before.backends.skip(
                    p + 1,
                ));
                assert(lb@.ids =~= head_i.push(before.ids[p]) + before.ids.skip(p + 1));
                assert(lb@.metrics =~= head_m.push(before.metrics[p]) + before.metrics.skip(
                    p + 1,
                ));
                assert(lb@.serials =~= head_s.push(before.serials[p]) + before.serials.skip(
                    p + 1,
                ));
                assert(lb@.drained =~= head_d.push(before.drained[p]) + before.drained.skip(
                    p + 1,
                ));
            }
            at += 1;
        }
        seen += 1;
    }
    proof {
        assert(before.backends.take(n as int) =~= before.backends);
        assert(before.ids.take(n as int) =~= before.ids);
        assert(before.metrics.take(n as int) =~= before.metrics);
        assert(before.serials.take(n as int) =~= before.serials);
        assert(before.drained.take(n as int) =~= before.drained);
        assert(lb@.backends =~= kept(before.backends, before.ids, found));
        assert(lb@.ids =~= kept(before.ids, before.ids, found));
        assert(lb@.metrics =~= kept(before.metrics, before.ids, found));
        assert(lb@.serials =~= kept(before.serials, before.ids, found));
        assert(lb@.drained =~= kept(before.drained, before.ids, found));
    }
    retired
}

impl<B, S: BalanceStrategy, P> BalancerView<B, S, P> {
    /// The pool without the backends that discovery no longer finds, and the
    /// strategy is now `strategy`.
    pub open spec fn without_stale(
        self,
        found: Seq<Seq<char>>,
        strategy: S,
    ) -> BalancerView<B, S, P> {
        BalancerView {
            backends: kept(self.backends, self.ids, found),
            ids: kept(self.ids, self.ids, found),
            metrics: kept(self.metrics, self.ids, found),
            serials: kept(self.serials, self.ids, found),
            drained: kept(self.drained, self.ids, found),
            strategy,
            ..self
        }
    }
}

/// Diff the current backends against discovered descriptors. Backends that
/// discovery no longer finds leave the pool at once. Those that it found and
/// the pool does not track are reported, in the order in which they were
/// found.
pub fn reconcile<B, S: BalanceStrategy, P: RetryPolicy>(
    lb: &mut LoadBalancer<B, S, P>,
    descriptors: Vec<BackendDescriptor>,
) -> (todo: Reconciliation<B>)
    requires
        old(lb)@.wf(),
    ensures
        final(lb)@.wf(),
        ({
            let found = discovered_ids(descriptors_view(descriptors@));
            &&& told_of_removals(
                old(lb)@.strategy,
                removal_points(old(lb)@.ids, found),
                final(lb)@.strategy,
            )
            &&& final(lb)@ == old(lb)@.without_stale(found, final(lb)@.strategy)
            &&& todo.retired@ == dropped(old(lb)@.backends, old(lb)@.ids, found)
            &&& descriptors_view(todo.missing@) == untracked(
                descriptors_view(descriptors@),
                old(lb)@.ids,
            )
        }),
{
    let ghost before = lb@;
    let ghost all = descriptors_view(descriptors@);
    let current_ids: Vec<Option<String>> = lb.backend_ids();
    let retired = retire_stale(lb, &current_ids, &descriptors);
    let mut missing: Vec<BackendDescriptor> = Vec::new();
    let ghost given = descriptors@;
    for d in it: descriptors
        invariant
            it.seq() == given,
            all == descriptors_view(given),
            current_ids@.map_values(|i: Option<String>| id_text(i)) == before.ids,
            descriptors_view(missing@) == untracked(all.take(it.index() as int), before.ids),
    {
        let ghost p = it.index() as int;
        proof {
            assert(all.take(p + 1).drop_last() =~= all.take(p));
            assert(all[p] == d@);
        }
        let ghost so_far = missing@;
        if !is_tracked(&current_ids, &d.id) {
            missing.push(d);
            assert(descriptors_view(missing@) =~= descriptors_view(so_far).push(d@));
        }
    }
    assert(all.take(all.len() as int) =~= all);
    Reconciliation { retired, missing }
}

/// What is kept has an ID that stays.
proof fn lemma_kept_ids(
    ids: Seq<Option<Seq<char>>>,
    found: Seq<Seq<char>>,
)
    ensures
        forall|t: Option<Seq<char>>|
            kept(ids, ids, found).contains(t) <==> ids.contains(t) && stays(t, found),
    decreases ids.len(),
{
    if ids.len() > 0 {
        let init = ids.drop_last();
        lemma_kept_ids(init, found);
        let rest = kept(init, init, found);
        let last = ids.len() - 1;
        assert forall|t: Option<Seq<char>>|
            kept(ids, ids, found).contains(t) <==> ids.contains(t) && stays(t, found) by {
            if ids.contains(t) && stays(t, found) {
                let i = choose|i: int| 0 <= i < ids.len() && ids[i] == t;
                if i < last {
                    assert(init[i] == t);
                    assert(init.contains(t));
                    assert(rest.contains(t));
                    let k = choose|k: int| 0 <= k < rest.len() && rest[k] == t;
                    assert(kept(ids, ids, found)[k] == t);
                } else {
                    assert(kept(ids, ids, found)[rest.len() as int] == t);
                }
            }
            if kept(ids, ids, found).contains(t) {
                let k = choose|k: int|
                    0 <= k < kept(ids, ids, found).len() && kept(ids, ids, found)[k] == t;
                if k < rest.len() {
                    assert(rest[k] == t);
                    assert(rest.contains(t));
                    assert(init.contains(t));
                    let i = choose|i: int| 0 <= i < init.len() && init[i] == t;
                    assert(ids[i] == t);
                } else {
                    assert(ids[last] == t);
                }
            }
        }
    }
}

/// A discovered ID is missing exactly if the pool did not track it.
proof fn lemma_untracked_ids(descriptors: Seq<DescriptorView>, ids: Seq<Option<Seq<char>>>)
    ensures
        forall|t: Seq<char>|
            discovered_ids(untracked(descriptors, ids)).contains(t) <==> discovered_ids(
                descriptors,
            ).contains(t) && !ids.contains(Some(t)),
    decreases descriptors.len(),
{
    if descriptors.len() > 0 {
        let init = descriptors.drop_last();
        lemma_untracked_ids(init, ids);
        let rest = untracked(init, ids);
        let whole = untracked(descriptors, ids);
        let last = descriptors.len() - 1;
        let all_ids = discovered_ids(descriptors);
        let init_ids = discovered_ids(init);
        let rest_ids = discovered_ids(rest);
        let whole_ids = discovered_ids(whole);
        assert forall|t: Seq<char>|
            whole_ids.contains(t) <==> all_ids.contains(t) && !ids.contains(Some(t)) by {
            if all_ids.contains(t) && !ids.contains(Some(t)) {
                let i = choose|i: int| 0 <= i < all_ids.len() && all_ids[i] == t;
                if i < last {
                    assert(init_ids[i] == t);
                    assert(init_ids.contains(t));
                    assert(rest_ids.contains(t));
                    let k = choose|k: int| 0 <= k < rest_ids.len() && rest_ids[k] == t;
                    assert(whole_ids[k] == t);
                } else {
                    assert(whole_ids[rest.len() as int] == t);
                }
            }
            if whole_ids.contains(t) {
                let k = choose|k: int| 0 <= k < whole_ids.len() && whole_ids[k] == t;
                if k < rest.len() {
                    assert(rest_ids[k] == t);
                    assert(rest_ids.contains(t));
                    assert(init_ids.contains(t));
                    let i = choose|i: int| 0 <= i < init_ids.len() && init_ids[i] == t;
                    assert(all_ids[i] == t);
                } else {
                    assert(all_ids[last] == t);
                }
            }
        }
    }
}

/// Creation went well for every one of these.
pub open spec fn none_failed<B>(created: Seq<(String, Result<B, Error>)>) -> bool {
    forall|j: int| 0 <= j < created.len() ==> (#[trigger] created[j]).1 is Ok
}

/// Creation failed with `e` at `n`, and nowhere before.
pub open spec fn fails_at<B>(created: Seq<(String, Result<B, Error>)>, n: int, e: Error) -> bool {
    &&& 0 <= n < created.len()
    &&& created[n].1 == Err::<B, Error>(e)
    &&& none_failed(created.take(n))
}

impl<B, S: BalanceStrategy, P> BalancerView<B, S, P> {
    /// The pool with all of these added, each under its ID.
    pub open spec fn with_created(
        self,
        created: Seq<(String, Result<B, Error>)>,
    ) -> BalancerView<B, S, P>
        decreases created.len(),
    {
        if created.len() == 0 {
            self
        } else {
            self.with_created(created.drop_last()).after_add(
                created.last().1->Ok_0,
                Some(created.last().0@),
            )
        }
    }
}

/// Add the backends that were created for missing descriptors, in order, up to
/// the first that could not be created.
pub fn adopt<B, S: BalanceStrategy, P: RetryPolicy>(
    lb: &mut LoadBalancer<B, S, P>,
    created: Vec<(String, Result<B, Error>)>,
) -> (result: Result<(), Error>)
    requires
        old(lb)@.wf(),
        old(lb)@.can_grow(created@.len()),
    ensures
        final(lb)@.wf(),
        match result {
            Ok(()) => none_failed(created@) && final(lb)@ == old(lb)@.with_created(created@),
            Err(e) => exists|n: int| #[trigger]
                fails_at(created@, n, e) && final(lb)@ == old(lb)@.with_created(
                    created@.take(n),
                ),
        },
{
    let ghost before = lb@;
    let ghost all = created@;
    for c in it: created
        invariant
            it.seq() == all,
            before == old(lb)@,
            before.can_grow(all.len()),
            lb@.next_serial == before.next_serial + it.index(),
            lb@.wf(),
            none_failed(all.take(it.index() as int)),
            lb@ == before.with_created(all.take(it.index() as int)),
    {
        let ghost n = it.index() as int;
        assert(all.take(n + 1).drop_last() =~= all.take(n));
        assert(all[n] == c);
        let (id, outcome) = c;
        match outcome {
            Ok(backend) => {
                let _idx: usize = lb.add_backend_with_id(id, backend);
                assert forall|j: int| 0 <= j < n + 1 implies (
                #[trigger] all.take(n + 1)[j]).1 is Ok by {
                    if j < n {
                        assert(all.take(n)[j].1 is Ok);
                    }
                }
            },
            Err(e) => {
                assert(fails_at(all, n, e));
                return Err(e);
            },
        }
    }
    assert(all.take(all.len() as int) =~= all);
    Ok(())
}

/// The IDs of a pool to which backends were added.
proof fn lemma_created_ids<B, S: BalanceStrategy, P>(
    pool: BalancerView<B, S, P>,
    created: Seq<(String, Result<B, Error>)>,
)
    ensures
        pool.with_created(created).ids == pool.ids + created.map_values(
            |c: (String, Result<B, Error>)| Some(c.0@),
        ),
    decreases created.len(),
{
    let added = created.map_values(|c: (String, Result<B, Error>)| Some(c.0@));
    if created.len() > 0 {
        let init = created.drop_last();
        lemma_created_ids(pool, init);
        let fewer = init.map_values(|c: (String, Result<B, Error>)| Some(c.0@));
        assert(pool.ids + added =~= (pool.ids + fewer).push(Some(created.last().0@)));
    } else {
        assert(pool.ids + added =~= pool.ids);
    }
}

/// After a reconciliation whose missing backends were all created and added,
/// the pool tracks exactly the IDs that were discovered.
pub proof fn reconciled_pools_track_what_was_discovered<B, S: BalanceStrategy, P>(
    pool: BalancerView<B, S, P>,
    descriptors: Seq<DescriptorView>,
    strategy: S,
    created: Seq<(String, Result<B, Error>)>,
    id: Seq<char>,
)
    requires
        pool.wf(),
        created.map_values(|c: (String, Result<B, Error>)| c.0@) == discovered_ids(
            untracked(descriptors, pool.ids),
        ),
    ensures
        pool.without_stale(discovered_ids(descriptors), strategy).with_created(
            created,
        ).ids.contains(Some(id)) <==> discovered_ids(descriptors).contains(id),
{
    let found = discovered_ids(descriptors);
    let trimmed = pool.without_stale(found, strategy);
    let left = trimmed.ids;
    let added = created.map_values(|c: (String, Result<B, Error>)| Some(c.0@));
    let names = created.map_values(|c: (String, Result<B, Error>)| c.0@);
    let end = trimmed.with_created(created).ids;
    lemma_created_ids(trimmed, created);
    assert(end == left + added);
    lemma_kept_ids(pool.ids, found);
    lemma_untracked_ids(descriptors, pool.ids);
    if end.contains(Some(id)) {
        let k = choose|k: int| 0 <= k < end.len() && end[k] == Some(id);
        if k < left.len() {
            assert(left[k] == Some(id));
            assert(left.contains(Some(id)));
            assert(stays(Some(id), found));
        } else {
            assert(added[k - left.len()] == Some(id));
            assert(names[k - left.len()] == id);
            assert(names.contains(id));
        }
        assert(found.contains(id));
    }
    if found.contains(id) {
        if pool.ids.contains(Some(id)) {
            assert(stays(Some(id), found));
            assert(left.contains(Some(id)));
            let k = choose|k: int| 0 <= k < left.len() && left[k] == Some(id);
            assert(end[k] == Some(id));
        } else {
            assert(names.contains(id));
            let k = choose|k: int| 0 <= k < names.len() && names[k] == id;
            assert(added[k] == Some(id));
            assert(end[left.len() + k] == Some(id));
        }
        assert(end.contains(Some(id)));
    }
}

/// Backends that were added without an ID are left alone.
pub proof fn reconciling_keeps_untracked_backends<B, S: BalanceStrategy, P>(
    pool: BalancerView<B, S, P>,
    found: Seq<Seq<char>>,
    strategy: S,
)
    requires
        pool.wf(),
        forall|i: int| 0 <= i < pool.size() ==> #[trigger] pool.ids[i] is None,
        told_of_removals(pool.strategy, removal_points(pool.ids, found), strategy),
    ensures
        pool.without_stale(found, strategy) == pool,
{
    lemma_nothing_goes(pool, found);
}

/// Where every ID stays, the pool stays as it is.
proof fn lemma_nothing_goes<B, S: BalanceStrategy, P>(
    pool: BalancerView<B, S, P>,
    found: Seq<Seq<char>>,
)
    requires
        pool.wf(),
        forall|i: int| 0 <= i < pool.ids.len() ==> stays(#[trigger] pool.ids[i], found),
    ensures
        removal_points(pool.ids, found) == Seq::<int>::empty(),
        pool.without_stale(found, pool.strategy) == pool,
{
    lemma_all_stay(pool.backends, pool.ids, found);
    lemma_all_stay(pool.ids, pool.ids, found);
    lemma_all_stay(pool.metrics, pool.ids, found);
    lemma_all_stay(pool.serials, pool.ids, found);
    lemma_all_stay(pool.drained, pool.ids, found);
}

/// Where every ID stays, everything is kept.
proof fn lemma_all_stay<T>(items: Seq<T>, ids: Seq<Option<Seq<char>>>, found: Seq<Seq<char>>)
    requires
        items.len() == ids.len(),
        forall|i: int| 0 <= i < ids.len() ==> stays(#[trigger] ids[i], found),
    ensures
        kept(items, ids, found) == items,
        dropped(items, ids, found) == Seq::<T>::empty(),
        removal_points(ids, found) == Seq::<int>::empty(),
    decreases items.len(),
{
    if items.len() > 0 {
        let shorter = ids.drop_last();
        assert forall|i: int| 0 <= i < shorter.len() implies stays(
            #[trigger] shorter[i],
            found,
        ) by {
            assert(stays(ids[i], found));
        }
        lemma_all_stay(items.drop_last(), shorter, found);
        assert(stays(ids[ids.len() - 1], found));
        assert(items.drop_last().push(items.last()) =~= items);
    } else {
        assert(items =~= Seq::<T>::empty());
    }
}

/// A pool that already tracks exactly what was discovered is left as it is:
/// no backend goes, none is missing, and open connections stay valid.
pub proof fn reconciling_again_changes_nothing<B, S: BalanceStrategy, P>(
    pool: BalancerView<B, S, P>,
    descriptors: Seq<DescriptorView>,
    strategy: S,
)
    requires
        pool.wf(),
        forall|id: Seq<char>|
            pool.ids.contains(Some(id)) <==> discovered_ids(descriptors).contains(id),
        told_of_removals(
            pool.strategy,
            removal_points(pool.ids, discovered_ids(descriptors)),
            strategy,
        ),
    ensures
        pool.without_stale(discovered_ids(descriptors), strategy) == pool,
        untracked(descriptors, pool.ids) == Seq::<DescriptorView>::empty(),
{
    let found = discovered_ids(descriptors);
    assert forall|i: int| 0 <= i < pool.ids.len() implies stays(#[trigger] pool.ids[i], found) by {
        match pool.ids[i] {
            Some(t) => {
                assert(pool.ids.contains(Some(t)));
            },
            None => {},
        }
    }
    lemma_nothing_goes(pool, found);
    lemma_untracked_ids(descriptors, pool.ids);
    let missing = untracked(descriptors, pool.ids);
    if missing.len() > 0 {
        let missing_ids = discovered_ids(missing);
        let id = missing_ids[0];
        assert(missing_ids.contains(id));
        assert(found.contains(id) && !pool.ids.contains(Some(id)));
        assert(false);
    }
    assert(missing =~= Seq::<DescriptorView>::empty());
}

/// A backend is still wanted: it has no ID, or one that was discovered.
pub open spec fn still_wanted(
    id: Option<Seq<char>>,
    descriptors: Seq<BackendDescriptor>,
) -> bool {
    id matches Some(text) ==> exists|d: int|
        0 <= d < descriptors.len() && (#[trigger] descriptors[d]).id@ == text
}

/// How many of the first `n` backends are still wanted.
pub open spec fn wanted_before(
    ids: Seq<Option<Seq<char>>>,
    descriptors: Seq<BackendDescriptor>,
    n: int,
) -> int
    decreases n,
{
    if n <= 0 {
        0
    } else {
        wanted_before(ids, descriptors, n - 1) + (if still_wanted(ids[n - 1], descriptors) {
            1int
        } else {
            0
        })
    }
}

/// A descriptor is new to a pool: no backend has its ID.
pub open spec fn is_new_to(d: BackendDescriptor, ids: Seq<Option<Seq<char>>>) -> bool {
    forall|i: int| 0 <= i < ids.len() ==> #[trigger] ids[i] != Some(d.id@)
}

/// How many of the first `n` descriptors are new to the pool.
pub open spec fn new_before(
    descriptors: Seq<BackendDescriptor>,
    ids: Seq<Option<Seq<char>>>,
    n: int,
) -> int
    decreases n,
{
    if n <= 0 {
        0
    } else {
        new_before(descriptors, ids, n - 1) + (if is_new_to(descriptors[n - 1], ids) {
            1int
        } else {
            0
        })
    }
}

/// What stays is what is still wanted.
proof fn lemma_wanted(id: Option<Seq<char>>, descriptors: Seq<BackendDescriptor>)
    ensures
        still_wanted(id, descriptors) == stays(id, discovered_ids(descriptors_view(descriptors))),
{
    let found = discovered_ids(descriptors_view(descriptors));
    if let Some(text) = id {
        if found.contains(text) {
            let d = choose|d: int| 0 <= d < found.len() && found[d] == text;
            assert(descriptors[d].id@ == text);
        }
        if exists|d: int| 0 <= d < descriptors.len() && (#[trigger] descriptors[d]).id@ == text {
            let d = choose|d: int|
                0 <= d < descriptors.len() && (#[trigger] descriptors[d]).id@ == text;
            assert(found[d] == text);
        }
    }
}

/// The count looks at no more than it counts.
proof fn lemma_same_wanted(
    a: Seq<Option<Seq<char>>>,
    b: Seq<Option<Seq<char>>>,
    descriptors: Seq<BackendDescriptor>,
    n: int,
)
    requires
        0 <= n <= a.len(),
        n <= b.len(),
        forall|i: int| 0 <= i < n ==> a[i] == b[i],
    ensures
        0 <= wanted_before(a, descriptors, n) == wanted_before(b, descriptors, n) <= n,
    decreases n,
{
    if n > 0 {
        lemma_same_wanted(a, b, descriptors, n - 1);
    }
}

/// Where an item is once the others have gone, or among those that went.
proof fn lemma_places<T>(
    items: Seq<T>,
    ids: Seq<Option<Seq<char>>>,
    descriptors: Seq<BackendDescriptor>,
    i: int,
)
    requires
        items.len() == ids.len(),
    ensures
        ({
            let found = discovered_ids(descriptors_view(descriptors));
            let all = wanted_before(ids, descriptors, ids.len() as int);
            let before = wanted_before(ids, descriptors, i);
            &&& kept(items, ids, found).len() == all
            &&& dropped(items, ids, found).len() == ids.len() - all
            &&& 0 <= i < ids.len() && still_wanted(ids[i], descriptors) ==> 0 <= before < all
                && kept(items, ids, found)[before] == items[i]
            &&& 0 <= i < ids.len() && !still_wanted(ids[i], descriptors) ==> 0 <= i - before
                < ids.len() - all && dropped(items, ids, found)[i - before] == items[i]
        }),
    decreases items.len(),
{
    if items.len() > 0 {
        let fewer = ids.drop_last();
        lemma_wanted(ids.last(), descriptors);
        lemma_places(items.drop_last(), fewer, descriptors, i);
        lemma_same_wanted(ids, fewer, descriptors, fewer.len() as int);
        if 0 <= i < fewer.len() {
            lemma_same_wanted(ids, fewer, descriptors, i);
        }
    }
}

/// Where each removal takes place.
proof fn lemma_points(
    ids: Seq<Option<Seq<char>>>,
    descriptors: Seq<BackendDescriptor>,
    i: int,
)
    ensures
        ({
            let found = discovered_ids(descriptors_view(descriptors));
            let points = removal_points(ids, found);
            let before = wanted_before(ids, descriptors, i);
            &&& points.len() == ids.len() - wanted_before(ids, descriptors, ids.len() as int)
            &&& 0 <= i < ids.len() && !still_wanted(ids[i], descriptors) ==> 0 <= i - before
                < points.len() && points[i - before] == before
        }),
    decreases ids.len(),
{
    if ids.len() > 0 {
        let fewer = ids.drop_last();
        lemma_wanted(ids.last(), descriptors);
        lemma_points(fewer, descriptors, i);
        lemma_places(fewer, fewer, descriptors, 0);
        lemma_same_wanted(ids, fewer, descriptors, fewer.len() as int);
        if 0 <= i < fewer.len() {
            lemma_same_wanted(ids, fewer, descriptors, i);
        }
    }
}

/// A backend that is still wanted stays, with all that is known of it, and in
/// order: it moves up by as many places as backends before it went.
pub proof fn wanted_backends_stay_in_order<B, S: BalanceStrategy, P: RetryPolicy>(
    lb: &mut LoadBalancer<B, S, P>,
    descriptors: Vec<BackendDescriptor>,
    todo: Reconciliation<B>,
    i: int,
)
    requires
        old(lb)@.wf(),
        call_ensures(reconcile::<B, S, P>, (lb, descriptors), todo),
        0 <= i < old(lb)@.backends.len(),
        still_wanted(old(lb)@.ids[i], descriptors@),
    ensures
        ({
            let at = wanted_before(old(lb)@.ids, descriptors@, i);
            &&& 0 <= at < final(lb)@.backends.len()
            &&& final(lb)@.backends[at] == old(lb)@.backends[i]
            &&& final(lb)@.ids[at] == old(lb)@.ids[i]
            &&& final(lb)@.metrics[at] == old(lb)@.metrics[i]
            &&& final(lb)@.serials[at] == old(lb)@.serials[i]
            &&& final(lb)@.drained[at] == old(lb)@.drained[i]
        }),
{
    let pool = old(lb)@;
    lemma_places(pool.backends, pool.ids, descriptors@, i);
    lemma_places(pool.ids, pool.ids, descriptors@, i);
    lemma_places(pool.metrics, pool.ids, descriptors@, i);
    lemma_places(pool.serials, pool.ids, descriptors@, i);
    lemma_places(pool.drained, pool.ids, descriptors@, i);
}

/// A backend that is no longer wanted comes back to be shut down, in order.
/// Nobody else leaves, and nothing else changes.
pub proof fn unwanted_backends_are_retired_in_order<B, S: BalanceStrategy, P: RetryPolicy>(
    lb: &mut LoadBalancer<B, S, P>,
    descriptors: Vec<BackendDescriptor>,
    todo: Reconciliation<B>,
    i: int,
)
    requires
        old(lb)@.wf(),
        call_ensures(reconcile::<B, S, P>, (lb, descriptors), todo),
        0 <= i < old(lb)@.backends.len(),
    ensures
        final(lb)@.backends.len() == wanted_before(
            old(lb)@.ids,
            descriptors@,
            old(lb)@.backends.len() as int,
        ),
        final(lb)@.backends.len() + todo.retired@.len() == old(lb)@.backends.len(),
        !still_wanted(old(lb)@.ids[i], descriptors@) ==> {
            let at = i - wanted_before(old(lb)@.ids, descriptors@, i);
            &&& 0 <= at < todo.retired@.len()
            &&& todo.retired@[at] == old(lb)@.backends[i]
        },
        final(lb)@.next_serial == old(lb)@.next_serial,
        final(lb)@.dial_timeout == old(lb)@.dial_timeout,
        final(lb)@.retry_policy == old(lb)@.retry_policy,
{
    lemma_places(old(lb)@.backends, old(lb)@.ids, descriptors@, i);
}

/// The strategy hears of every backend that goes, one after the other, by the
/// place it has by then.
pub proof fn the_strategy_hears_of_retired_backends<B, S: BalanceStrategy, P: RetryPolicy>(
    lb: &mut LoadBalancer<B, S, P>,
    descriptors: Vec<BackendDescriptor>,
    todo: Reconciliation<B>,
    i: int,
)
    requires
        old(lb)@.wf(),
        call_ensures(reconcile::<B, S, P>, (lb, descriptors), todo),
    ensures
        exists|states: Seq<S>, points: Seq<int>|
            {
                &&& #[trigger] is_told(states, points)
                &&& states[0] == old(lb)@.strategy
                &&& states.last() == final(lb)@.strategy
                &&& points.len() == todo.retired@.len()
                &&& 0 <= i < old(lb)@.backends.len() && !still_wanted(
                    old(lb)@.ids[i],
                    descriptors@,
                ) ==> points[i - wanted_before(old(lb)@.ids, descriptors@, i)] == wanted_before(
                    old(lb)@.ids,
                    descriptors@,
                    i,
                )
            },
{
    let pool = old(lb)@;
    let found = discovered_ids(descriptors_view(descriptors@));
    let points = removal_points(pool.ids, found);
    lemma_points(pool.ids, descriptors@, i);
    lemma_places(pool.backends, pool.ids, descriptors@, i);
    let states = choose|states: Seq<S>| #[trigger]
        is_told(states, points) && states[0] == pool.strategy && states.last()
            == final(lb)@.strategy;
    assert(is_told(states, points));
}

/// A chain of removals, each told of in turn.
pub proof fn told_one_by_one<S: BalanceStrategy>(states: Seq<S>, points: Seq<int>, k: int)
    requires
        is_told(states, points),
        0 <= k < points.len(),
    ensures
        states.len() == points.len() + 1,
        states[k].removal_step(points[k], states[k + 1].state()),
{
}

/// A descriptor is tracked or new to the pool.
proof fn lemma_new_to(d: BackendDescriptor, ids: Seq<Option<Seq<char>>>)
    ensures
        is_new_to(d, ids) == !ids.contains(Some(d@.id)),
{
    if ids.contains(Some(d@.id)) {
        let i = choose|i: int| 0 <= i < ids.len() && ids[i] == Some(d@.id);
        assert(ids[i] == Some(d.id@));
    }
    if !is_new_to(d, ids) {
        let i = choose|i: int| 0 <= i < ids.len() && #[trigger] ids[i] == Some(d.id@);
        assert(ids.contains(Some(d@.id)));
    }
}

/// The count looks at no more than it counts.
proof fn lemma_same_new(
    a: Seq<BackendDescriptor>,
    b: Seq<BackendDescriptor>,
    ids: Seq<Option<Seq<char>>>,
    n: int,
)
    requires
        0 <= n <= a.len(),
        n <= b.len(),
        forall|i: int| 0 <= i < n ==> a[i] == b[i],
    ensures
        0 <= new_before(a, ids, n) == new_before(b, ids, n) <= n,
    decreases n,
{
    if n > 0 {
        lemma_same_new(a, b, ids, n - 1);
    }
}

/// Where a new descriptor is among those that are missing.
proof fn lemma_new_places(
    descriptors: Seq<BackendDescriptor>,
    ids: Seq<Option<Seq<char>>>,
    i: int,
)
    ensures
        ({
            let missing = untracked(descriptors_view(descriptors), ids);
            let before = new_before(descriptors, ids, i);
            &&& missing.len() == new_before(descriptors, ids, descriptors.len() as int)
            &&& 0 <= i < descriptors.len() && is_new_to(descriptors[i], ids) ==> 0 <= before
                < missing.len() && missing[before] == descriptors[i]@
        }),
    decreases descriptors.len(),
{
    let views = descriptors_view(descriptors);
    if descriptors.len() > 0 {
        let fewer = descriptors.drop_last();
        assert(views.drop_last() =~= descriptors_view(fewer));
        lemma_new_to(descriptors.last(), ids);
        lemma_new_places(fewer, ids, i);
        lemma_same_new(descriptors, fewer, ids, fewer.len() as int);
        if 0 <= i < fewer.len() {
            lemma_same_new(descriptors, fewer, ids, i);
        }
    }
}

/// A descriptor that is new to the pool is reported as missing, as it was
/// found and in order, and none that the pool tracks is.
pub proof fn new_descriptors_are_missing<B, S: BalanceStrategy, P: RetryPolicy>(
    lb: &mut LoadBalancer<B, S, P>,
    descriptors: Vec<BackendDescriptor>,
    todo: Reconciliation<B>,
    i: int,
)
    requires
        old(lb)@.wf(),
        call_ensures(reconcile::<B, S, P>, (lb, descriptors), todo),
        0 <= i < descriptors@.len(),
    ensures
        todo.missing@.len() == new_before(
            descriptors@,
            old(lb)@.ids,
            descriptors@.len() as int,
        ),
        is_new_to(descriptors@[i], old(lb)@.ids) ==> {
            let at = new_before(descriptors@, old(lb)@.ids, i);
            &&& 0 <= at < todo.missing@.len()
            &&& todo.missing@[at].id@ == descriptors@[i].id@
            &&& todo.missing@[at].addr@ == descriptors@[i].addr@
            &&& todo.missing@[at].metadata@ == descriptors@[i].metadata@
            &&& todo.missing@[at].weight == descriptors@[i].weight
            &&& todo.missing@[at]@.health_check == descriptors@[i]@.health_check
        },
{
    lemma_new_places(descriptors@, old(lb)@.ids, i);
    let views = descriptors_view(todo.missing@);
    assert(views.len() == todo.missing@.len());
    if is_new_to(descriptors@[i], old(lb)@.ids) {
        let at = new_before(descriptors@, old(lb)@.ids, i);
        assert(views[at] == todo.missing@[at]@);
    }
}

/// What a pool looks like once backends were added to it.
proof fn lemma_created_places<B, S: BalanceStrategy, P>(
    pool: BalancerView<B, S, P>,
    created: Seq<(String, Result<B, Error>)>,
    i: int,
)
    requires
        pool.wf(),
    ensures
        ({
            let after = pool.with_created(created);
            &&& after.backends.len() == pool.backends.len() + created.len()
            &&& after.ids.len() == pool.ids.len() + created.len()
            &&& after.metrics.len() == pool.metrics.len() + created.len()
            &&& after.drained.len() == pool.drained.len() + created.len()
            &&& after.serials.len() == pool.serials.len() + created.len()
            &&& after.strategy == pool.strategy
            &&& after.dial_timeout == pool.dial_timeout
            &&& after.retry_policy == pool.retry_policy
            &&& 0 <= i < pool.backends.len() ==> {
                &&& after.backends[i] == pool.backends[i]
                &&& after.ids[i] == pool.ids[i]
                &&& after.metrics[i] == pool.metrics[i]
                &&& after.serials[i] == pool.serials[i]
                &&& after.drained[i] == pool.drained[i]
            }
            &&& 0 <= i - pool.backends.len() < created.len() ==> {
                let c = created[i - pool.backends.len()];
                &&& after.backends[i] == c.1->Ok_0
                &&& after.ids[i] == Some(c.0@)
                &&& !after.drained[i]
                &&& after.metrics[i].rtt is None
                &&& after.metrics[i].active_connections == 0
                &&& after.metrics[i].recent_errors == 0
                &&& after.metrics[i].total_dials == 0
                &&& after.metrics[i].total_errors == 0
            }
        }),
    decreases created.len(),
{
    if created.len() > 0 {
        lemma_created_places(pool, created.drop_last(), i);
    }
}

/// Created backends are added in order, each under its ID, in service and with
/// nothing on their books. Whatever is in the pool already stays as it is.
pub proof fn created_backends_are_added_in_order<B, S: BalanceStrategy, P: RetryPolicy>(
    lb: &mut LoadBalancer<B, S, P>,
    created: Vec<(String, Result<B, Error>)>,
    result: Result<(), Error>,
    i: int,
)
    requires
        old(lb)@.wf(),
        old(lb)@.can_grow(created@.len()),
        call_ensures(adopt::<B, S, P>, (lb, created), result),
        forall|j: int| 0 <= j < created@.len() ==> (#[trigger] created@[j]).1 is Ok,
    ensures
        result is Ok,
        final(lb)@.backends.len() == old(lb)@.backends.len() + created@.len(),
        final(lb)@.strategy == old(lb)@.strategy,
        final(lb)@.dial_timeout == old(lb)@.dial_timeout,
        final(lb)@.retry_policy == old(lb)@.retry_policy,
        0 <= i < old(lb)@.backends.len() ==> {
            &&& final(lb)@.backends[i] == old(lb)@.backends[i]
            &&& final(lb)@.ids[i] == old(lb)@.ids[i]
            &&& final(lb)@.metrics[i] == old(lb)@.metrics[i]
            &&& final(lb)@.serials[i] == old(lb)@.serials[i]
            &&& final(lb)@.drained[i] == old(lb)@.drained[i]
        },
        0 <= i - old(lb)@.backends.len() < created@.len() ==> {
            let c = created@[i - old(lb)@.backends.len()];
            &&& c.1 matches Ok(backend) && final(lb)@.backends[i] == backend
            &&& final(lb)@.ids[i] == Some(c.0@)
            &&& !final(lb)@.drained[i]
            &&& final(lb)@.metrics[i].rtt is None
            &&& final(lb)@.metrics[i].active_connections == 0
            &&& final(lb)@.metrics[i].recent_errors == 0
            &&& final(lb)@.metrics[i].total_dials == 0
            &&& final(lb)@.metrics[i].total_errors == 0
        },
{
    if let Err(e) = result {
        let n = choose|n: int| #[trigger]
            fails_at(created@, n, e) && final(lb)@ == old(lb)@.with_created(created@.take(n));
        assert(created@[n].1 is Ok);
    }
    lemma_created_places(old(lb)@, created@, i);
}

/// The first backend that could not be created ends it, with its error. Those
/// before it are in, and none of those behind it.
pub proof fn a_failed_creation_ends_it<B, S: BalanceStrategy, P: RetryPolicy>(
    lb: &mut LoadBalancer<B, S, P>,
    created: Vec<(String, Result<B, Error>)>,
    result: Result<(), Error>,
    at: int,
    error: Error,
    i: int,
)
    requires
        old(lb)@.wf(),
        old(lb)@.can_grow(created@.len()),
        call_ensures(adopt::<B, S, P>, (lb, created), result),
        0 <= at < created@.len(),
        created@[at].1 == Err::<B, Error>(error),
        forall|j: int| 0 <= j < at ==> (#[trigger] created@[j]).1 is Ok,
    ensures
        result matches Err(e) && e == error,
        final(lb)@.backends.len() == old(lb)@.backends.len() + at,
        0 <= i < old(lb)@.backends.len() ==> {
            &&& final(lb)@.backends[i] == old(lb)@.backends[i]
            &&& final(lb)@.ids[i] == old(lb)@.ids[i]
            &&& final(lb)@.metrics[i] == old(lb)@.metrics[i]
            &&& final(lb)@.serials[i] == old(lb)@.serials[i]
            &&& final(lb)@.drained[i] == old(lb)@.drained[i]
        },
        0 <= i - old(lb)@.backends.len() < at ==> {
            let c = created@[i - old(lb)@.backends.len()];
            &&& c.1 matches Ok(backend) && final(lb)@.backends[i] == backend
            &&& final(lb)@.ids[i] == Some(c.0@)
            &&& !final(lb)@.drained[i]
        },
{
    assert(!(created@[at].1 is Ok));
    let e = result->Err_0;
    let n = choose|n: int| #[trigger]
        fails_at(created@, n, e) && final(lb)@ == old(lb)@.with_created(created@.take(n));
    assert(n == at) by {
        if at < n {
            assert(created@.take(n)[at].1 is Ok);
        }
        if n < at {
            assert(created@[n].1 is Ok);
        }
    }
    lemma_created_places(old(lb)@, created@.take(n), i);
}

} // verus!
