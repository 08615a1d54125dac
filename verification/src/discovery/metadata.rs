//! Tags of a discovered backend.

use vstd::prelude::*;

verus! {

/// A set of key-value tags, each key at most once.
#[derive(Debug)]
pub struct Metadata {
    entries: Vec<(String, String)>,
}

/// The entry at `i` is the first with this key.
spec fn is_key_at(entries: Seq<(String, String)>, key: Seq<char>, i: int) -> bool {
    &&& 0 <= i < entries.len()
    &&& entries[i].0@ == key
    &&& forall|j: int| 0 <= j < i ==> (#[trigger] entries[j]).0@ != key
}

/// No key occurs twice.
spec fn keys_differ(entries: Seq<(String, String)>) -> bool {
    forall|i: int, j: int|
        0 <= i < j < entries.len() ==> (#[trigger] entries[i]).0@ != (#[trigger] entries[j]).0@
}

/// Some entry has this key.
spec fn has_key(entries: Seq<(String, String)>, key: Seq<char>) -> bool {
    exists|i: int| is_key_at(entries, key, i)
}

/// Where the entry with this key is.
spec fn key_index(entries: Seq<(String, String)>, key: Seq<char>) -> int {
    choose|i: int| is_key_at(entries, key, i)
}

impl View for Metadata {
    type V = Map<Seq<char>, Seq<char>>;

    closed spec fn view(&self) -> Map<Seq<char>, Seq<char>> {
        Map::new(
            |key: Seq<char>| has_key(self.entries@, key),
            |key: Seq<char>| self.entries@[key_index(self.entries@, key)].1@,
        )
    }
}

/// Every pair of `a` is one of `b`.
spec fn within_map(a: Map<Seq<char>, Seq<char>>, b: Map<Seq<char>, Seq<char>>) -> bool {
    forall|k: Seq<char>| #[trigger] a.dom().contains(k) ==> b.dom().contains(k) && b[k] == a[k]
}

/// The key at `i` is there, with the value at `i`.
proof fn lemma_key_at(entries: Seq<(String, String)>, key: Seq<char>, i: int)
    requires
        is_key_at(entries, key, i),
    ensures
        has_key(entries, key),
        key_index(entries, key) == i,
{
    let k = key_index(entries, key);
    assert(is_key_at(entries, key, k));
    if k < i {
        assert(entries[k].0@ != key);
    }
    if i < k {
        assert(entries[i].0@ != key);
    }
}

impl Metadata {
    /// No key occurs twice.
    #[verifier::type_invariant]
    pub closed spec fn wf(&self) -> bool {
        keys_differ(self.entries@)
    }

    /// The pairs, in the order in which their keys were first added.
    pub closed spec fn pairs(&self) -> Seq<(Seq<char>, Seq<char>)> {
        self.entries@.map_values(|e: (String, String)| (e.0@, e.1@))
    }

    /// No tags.
    pub fn new() -> (m: Self)
        ensures
            m@ == Map::<Seq<char>, Seq<char>>::empty(),
            m.pairs().len() == 0,
    {
        let m = Metadata { entries: Vec::new() };
        assert(m@ =~= Map::<Seq<char>, Seq<char>>::empty());
        m
    }

    /// How many tags there are.
    pub fn len(&self) -> (n: usize)
        ensures
            n == self.pairs().len(),
    {
        self.entries.len()
    }

    /// The tag at position `i`, as key and value.
    pub fn entry(&self, i: usize) -> (pair: (&str, &str))
        requires
            i < self.pairs().len(),
        ensures
            pair.0@ == self.pairs()[i as int].0,
            pair.1@ == self.pairs()[i as int].1,
    {
        (self.entries[i].0.as_str(), self.entries[i].1.as_str())
    }

    /// Where the entry with this key is.
    fn position(&self, key: &String) -> (position: Option<usize>)
        ensures
            match position {
                Some(i) => is_key_at(self.entries@, key@, i as int),
                None => forall|j: int|
                    0 <= j < self.entries@.len() ==> (#[trigger] self.entries@[j]).0@ != key@,
            },
    {
        let mut i: usize = 0;
        while i < self.entries.len()
            invariant
                i <= self.entries@.len(),
                forall|j: int| 0 <= j < i ==> (#[trigger] self.entries@[j]).0@ != key@,
            decreases self.entries.len() - i,
        {
            if self.entries[i].0 == *key {
                return Some(i);
            }
            i += 1;
        }
        None
    }

    /// Set a tag. A value that the key had before is replaced.
    pub fn insert(&mut self, key: String, value: String)
        ensures
            final(self)@ == old(self)@.insert(key@, value@),
            final(self).pairs().len() == old(self).pairs().len() + (if old(self)@.dom().contains(
                key@,
            ) {
                0int
            } else {
                1
            }),
            forall|i: int|
                0 <= i < old(self).pairs().len() ==> #[trigger] final(self).pairs()[i] == (if old(
                    self,
                ).pairs()[i].0 == key@ {
                    (key@, value@)
                } else {
                    old(self).pairs()[i]
                }),
            !old(self)@.dom().contains(key@) ==> final(self).pairs().last() == (key@, value@),
    {
        proof {
            use_type_invariant(&*self);
        }
        let ghost before = self.entries@;
        let ghost text = key@;
        let ghost val = value@;
        let found: Option<usize> = self.position(&key);
        let mut entries: Vec<(String, String)> = Vec::new();
        std::mem::swap(&mut entries, &mut self.entries);
        match found {
            Some(i) => {
                entries[i] = (key, value);
                assert(keys_differ(entries@));
                self.entries = entries;
                proof {
                    let after = self.entries@;
                    assert forall|k: Seq<char>| has_key(after, k) == has_key(before, k) by {
                        if has_key(before, k) {
                            let x = key_index(before, k);
                            assert(is_key_at(before, k, x));
                            assert(is_key_at(after, k, x));
                        }
                        if has_key(after, k) {
                            let x = key_index(after, k);
                            assert(is_key_at(after, k, x));
                            assert(is_key_at(before, k, x)) by {
                                assert forall|j: int| 0 <= j < x implies (
                                #[trigger] before[j]).0@ != k by {
                                    assert(after[j].0@ != k);
                                }
                            }
                        }
                    }
                    assert forall|k: Seq<char>| has_key(after, k) implies #[trigger] self@[k]
                        == old(self)@.insert(text, val)[k] by {
                        let x = key_index(before, k);
                        assert(has_key(before, k));
                        assert(is_key_at(before, k, x));
                        assert(is_key_at(after, k, x));
                        lemma_key_at(after, k, x);
                        if k == text {
                            lemma_key_at(before, k, i as int);
                        }
                    }
                    lemma_key_at(before, text, i as int);
                    assert(has_key(after, text));
                    assert forall|j: int| 0 <= j < before.len() && j != i implies (
                    #[trigger] before[j]).0@ != text by {
                        if j > i {
                            assert(before[i as int].0@ != before[j].0@);
                        }
                    }
                    assert(self@ =~= old(self)@.insert(text, val));
                }
            },
            None => {
                entries.push((key, value));
                assert(keys_differ(entries@));
                self.entries = entries;
                proof {
                    let after = self.entries@;
                    let n = before.len() as int;
                    assert(!has_key(before, text));
                    assert forall|k: Seq<char>|
                        has_key(after, k) == (has_key(before, k) || k == text) by {
                        if has_key(before, k) {
                            let x = key_index(before, k);
                            assert(is_key_at(before, k, x));
                            assert(is_key_at(after, k, x));
                        }
                        if k == text {
                            assert(is_key_at(after, k, n));
                        }
                        if has_key(after, k) && k != text {
                            let x = key_index(after, k);
                            assert(is_key_at(after, k, x));
                            assert(is_key_at(before, k, x)) by {
                                assert forall|j: int| 0 <= j < x implies (
                                #[trigger] before[j]).0@ != k by {
                                    assert(after[j].0@ != k);
                                }
                            }
                        }
                    }
                    assert forall|k: Seq<char>| has_key(after, k) implies #[trigger] self@[k]
                        == old(self)@.insert(text, val)[k] by {
                        if k == text {
                            assert(is_key_at(after, k, n));
                            lemma_key_at(after, k, n);
                        } else {
                            let x = key_index(before, k);
                            assert(has_key(before, k));
                            assert(is_key_at(before, k, x));
                            assert(is_key_at(after, k, x));
                            lemma_key_at(after, k, x);
                        }
                    }
                    assert(self@ =~= old(self)@.insert(text, val));
                }
            },
        }
    }

    /// The value of a tag.
    pub fn get(&self, key: &str) -> (value: Option<&str>)
        ensures
            match value {
                Some(v) => self@.dom().contains(key@) && v@ == self@[key@],
                None => !self@.dom().contains(key@),
            },
    {
        let wanted = key.to_owned();
        match self.position(&wanted) {
            Some(i) => {
                proof {
                    lemma_key_at(self.entries@, key@, i as int);
                }
                Some(self.entries[i].1.as_str())
            },
            None => {
                assert(!has_key(self.entries@, key@));
                None
            },
        }
    }

    /// Every tag of `self` is one of `other`, with the same value.
    fn is_within(&self, other: &Metadata) -> (within: bool)
        ensures
            within == within_map(self@, other@),
    {
        let mut i: usize = 0;
        while i < self.entries.len()
            invariant
                i <= self.entries@.len(),
                forall|k: Seq<char>, j: int|
                    0 <= j < i && #[trigger] is_key_at(self.entries@, k, j)
                        ==> other@.dom().contains(k) && other@[k] == self@[k],
            decreases self.entries.len() - i,
        {
            let ghost key = self.entries@[i as int].0@;
            let first = match self.position(&self.entries[i].0) {
                Some(p) => p,
                None => i,
            };
            proof {
                assert(is_key_at(self.entries@, key, first as int));
                lemma_key_at(self.entries@, key, first as int);
            }
            let same = match other.get(self.entries[i].0.as_str()) {
                Some(v) => v.to_owned() == self.entries[first].1,
                None => false,
            };
            if !same {
                assert(self@.dom().contains(key));
                assert(!(other@.dom().contains(key) && other@[key] == self@[key]));
                return false;
            }
            i += 1;
        }
        proof {
            assert forall|k: Seq<char>| #[trigger] self@.dom().contains(k) implies other@.dom()
                .contains(k) && other@[k] == self@[k] by {
                let x = key_index(self.entries@, k);
                assert(is_key_at(self.entries@, k, x));
            }
        }
        true
    }
}

/// The pairs make up the map: every pair is in it, and it holds nothing else.
pub proof fn pairs_make_up_the_map(m: Metadata)
    requires
        m.wf(),
    ensures
        forall|i: int|
            0 <= i < m.pairs().len() ==> m@.dom().contains((#[trigger] m.pairs()[i]).0)
                && m@[m.pairs()[i].0] == m.pairs()[i].1,
        forall|key: Seq<char>| #[trigger]
            m@.dom().contains(key) ==> exists|i: int|
                0 <= i < m.pairs().len() && (#[trigger] m.pairs()[i]).0 == key,
{
    assert forall|i: int| 0 <= i < m.pairs().len() implies m@.dom().contains(
        (#[trigger] m.pairs()[i]).0,
    ) && m@[m.pairs()[i].0] == m.pairs()[i].1 by {
        let key = m.entries@[i].0@;
        assert(is_key_at(m.entries@, key, i));
        lemma_key_at(m.entries@, key, i);
    }
    assert forall|key: Seq<char>| #[trigger] m@.dom().contains(key) implies exists|i: int|
        0 <= i < m.pairs().len() && (#[trigger] m.pairs()[i]).0 == key by {
        let i = key_index(m.entries@, key);
        assert(is_key_at(m.entries@, key, i));
        assert(m.pairs()[i].0 == key);
    }
}

impl Default for Metadata {
    fn default() -> (m: Self)
        ensures
            m@ == Map::<Seq<char>, Seq<char>>::empty(),
    {
        Metadata::new()
    }
}

impl Clone for Metadata {
    fn clone(&self) -> (copy: Self)
        ensures
            copy@ == self@,
            copy.pairs() == self.pairs(),
    {
        proof {
            use_type_invariant(self);
        }
        let mut entries: Vec<(String, String)> = Vec::new();
        let mut i: usize = 0;
        while i < self.entries.len()
            invariant
                i <= self.entries@.len(),
                entries@.len() == i,
                forall|j: int|
                    0 <= j < i ==> (#[trigger] entries@[j]).0@ == self.entries@[j].0@
                        && entries@[j].1@ == self.entries@[j].1@,
            decreases self.entries.len() - i,
        {
            entries.push((self.entries[i].0.clone(), self.entries[i].1.clone()));
            i += 1;
        }
        assert(keys_differ(entries@)) by {
            assert forall|i: int, j: int| 0 <= i < j < entries@.len() implies (
            #[trigger] entries@[i]).0@ != (#[trigger] entries@[j]).0@ by {
                assert(self.entries@[i].0@ != self.entries@[j].0@);
            }
        }
        let copy = Metadata { entries };
        proof {
            let a = self.entries@;
            let b = copy.entries@;
            assert(copy.pairs() =~= self.pairs());
            assert forall|k: Seq<char>, x: int| is_key_at(a, k, x) == #[trigger] is_key_at(
                b,
                k,
                x,
            ) by {
                if is_key_at(a, k, x) {
                    assert forall|j: int| 0 <= j < x implies (#[trigger] b[j]).0@ != k by {
                        assert(a[j].0@ != k);
                    }
                }
                if is_key_at(b, k, x) {
                    assert forall|j: int| 0 <= j < x implies (#[trigger] a[j]).0@ != k by {
                        assert(b[j].0@ != k);
                    }
                }
            }
            assert forall|k: Seq<char>| has_key(a, k) == has_key(b, k) by {
                if has_key(a, k) {
                    assert(is_key_at(b, k, key_index(a, k)));
                }
                if has_key(b, k) {
                    assert(is_key_at(a, k, key_index(b, k)));
                }
            }
            assert forall|k: Seq<char>| has_key(a, k) implies #[trigger] copy@[k] == self@[k] by {
                let x = key_index(a, k);
                assert(is_key_at(a, k, x));
                assert(is_key_at(b, k, x));
                lemma_key_at(b, k, x);
            }
            assert(copy@ =~= self@);
        }
        copy
    }
}

impl PartialEq for Metadata {
    fn eq(&self, other: &Metadata) -> (same: bool) {
        let there = self.is_within(other);
        let back = other.is_within(self);
        proof {
            if there && back {
                assert forall|k: Seq<char>| self@.dom().contains(k) == other@.dom().contains(
                    k,
                ) by {
                }
                assert(self@ =~= other@);
            }
        }
        there && back
    }
}

impl vstd::std_specs::cmp::PartialEqSpecImpl for Metadata {
    open spec fn obeys_eq_spec() -> bool {
        true
    }

    open spec fn eq_spec(&self, other: &Metadata) -> bool {
        self@ == other@
    }
}

impl Eq for Metadata {

}

/// A tag that was set has the value that was set last, and every other tag has
/// the value it had, or none.
pub proof fn set_tags_are_found(
    m: &mut Metadata,
    key: String,
    value: String,
    asked: &str,
    before: Option<&str>,
    after: Option<&str>,
)
    requires
        call_ensures(Metadata::get, (&*old(m), asked), before),
        call_ensures(Metadata::insert, (m, key, value), ()),
        call_ensures(Metadata::get, (&*final(m), asked), after),
    ensures
        asked@ == key@ ==> (after matches Some(v) && v@ == value@),
        asked@ != key@ ==> match (before, after) {
            (Some(a), Some(b)) => a@ == b@,
            (None, None) => true,
            _ => false,
        },
{
}

/// A new tag comes last. One whose key is there already takes the place of the
/// old one, and no other tag moves.
pub proof fn tags_keep_their_places(m: &mut Metadata, key: String, value: String, i: int)
    requires
        call_ensures(Metadata::insert, (m, key, value), ()),
    ensures
        !old(m)@.dom().contains(key@) ==> {
            &&& final(m).pairs().len() == old(m).pairs().len() + 1
            &&& final(m).pairs()[old(m).pairs().len() as int] == (key@, value@)
        },
        old(m)@.dom().contains(key@) ==> final(m).pairs().len() == old(m).pairs().len(),
        0 <= i < old(m).pairs().len() && old(m).pairs()[i].0 != key@ ==> final(m).pairs()[i] == old(
            m,
        ).pairs()[i],
        0 <= i < old(m).pairs().len() && old(m).pairs()[i].0 == key@ ==> final(m).pairs()[i] == (
            key@,
            value@,
        ),
{
    if 0 <= i < old(m).pairs().len() {
        let pair = final(m).pairs()[i];
    }
}

/// A new set has no tags, a copy has the same ones in the same places, and two
/// sets are equal exactly if every tag of one is in the other with the same
/// value.
pub proof fn tag_sets_compare_by_their_tags(
    new: Metadata,
    a: &Metadata,
    b: &Metadata,
    copy: Metadata,
    same: bool,
    n: usize,
    key: Seq<char>,
)
    requires
        call_ensures(Metadata::new, (), new) || call_ensures(Metadata::default, (), new),
        call_ensures(Metadata::clone, (a,), copy),
        call_ensures(Metadata::eq, (a, b), same),
        call_ensures(Metadata::len, (a,), n),
    ensures
        !new@.dom().contains(key),
        copy.pairs() == a.pairs(),
        copy@ == a@,
        n == a.pairs().len(),
        same ==> a@.dom().contains(key) == b@.dom().contains(key),
        same && a@.dom().contains(key) ==> a@[key] == b@[key],
        a@ == b@ ==> same,
{
}

/// Walking through the tags gives every one of them, with the value that asking
/// for it gives.
pub proof fn walked_tags_are_the_tags(
    m: &Metadata,
    i: usize,
    pair: (&str, &str),
    asked: Option<&str>,
)
    requires
        m.wf(),
        i < m.pairs().len(),
        call_ensures(Metadata::entry, (m, i), pair),
        call_ensures(Metadata::get, (m, pair.0), asked),
    ensures
        pair.0@ == m.pairs()[i as int].0,
        pair.1@ == m.pairs()[i as int].1,
        asked matches Some(value) && value@ == pair.1@,
{
    pairs_make_up_the_map(*m);
    let there = m.pairs()[i as int];
}

} // verus!
