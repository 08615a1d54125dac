//! etcd service discovery.
//!
//! Keys are backend IDs and values are socket addresses. Reading an answer
//! takes three steps: the bytes are decoded here, the values are parsed as
//! socket addresses by the caller, and what is left becomes descriptors.

use vstd::prelude::*;
use vstd::utf8::{decode_utf8, valid_utf8};

use crate::discovery::descriptor::{descriptors_view, BackendDescriptor, DescriptorView};
use crate::discovery::metadata::Metadata;
use crate::error::{Error, ErrorView};
use crate::text::{text_from_utf8, utf8_error_text};

verus! {

/// One key-value pair of an etcd answer.
#[derive(Debug)]
pub struct EtcdEntry {
    /// The key.
    pub key: Vec<u8>,
    /// The value.
    pub value: Vec<u8>,
}

/// Why a pair cannot be read; `None` if it can.
pub open spec fn entry_fault(entry: EtcdEntry) -> Option<ErrorView> {
    if !valid_utf8(entry.key@) {
        Some(ErrorView::Backend("etcd key utf8"@ + ": "@ + utf8_error_text(entry.key@)))
    } else if !valid_utf8(entry.value@) {
        Some(ErrorView::Backend("etcd value utf8"@ + ": "@ + utf8_error_text(entry.value@)))
    } else {
        None
    }
}

/// Reading failed at `k`, and nowhere before.
pub open spec fn first_fault(entries: Seq<EtcdEntry>, k: int) -> bool {
    &&& 0 <= k < entries.len()
    &&& entry_fault(entries[k]) is Some
    &&& forall|j: int| 0 <= j < k ==> entry_fault(#[trigger] entries[j]) is None
}

/// Read one pair as text.
fn decode_entry(entry: EtcdEntry) -> (result: Result<(String, String), Error>)
    ensures
        match result {
            Ok((key, value)) => {
                &&& entry_fault(entry) is None
                &&& key@ == decode_utf8(entry.key@)
                &&& value@ == decode_utf8(entry.value@)
            },
            Err(e) => entry_fault(entry) == Some(e@),
        },
{
    let ghost key_bytes = entry.key@;
    let ghost value_bytes = entry.value@;
    let key = match text_from_utf8(entry.key) {
        Ok(text) => text,
        Err(detail) => {
            return Err(Error::backend_with("etcd key utf8", detail.as_str()));
        },
    };
    let value = match text_from_utf8(entry.value) {
        Ok(text) => text,
        Err(detail) => {
            return Err(Error::backend_with("etcd value utf8", detail.as_str()));
        },
    };
    Ok((key, value))
}

/// What a key and its value, parsed as a socket address, say of a backend.
pub open spec fn etcd_descriptors(parsed: Seq<(String, Option<String>)>) -> Seq<DescriptorView>
    decreases parsed.len(),
{
    if parsed.len() == 0 {
        Seq::empty()
    } else {
        let rest = etcd_descriptors(parsed.drop_last());
        match parsed.last().1 {
            Some(addr) => rest.push(
                DescriptorView {
                    weight: Some(1),
                    ..DescriptorView::plain(parsed.last().0@, addr@)
                },
            ),
            None => rest,
        }
    }
}

/// etcd service discovery source.
///
/// It says which keys to ask for, and turns the answer into descriptors.
#[derive(Debug)]
pub struct EtcdDiscovery {
    prefix: String,
}

impl EtcdDiscovery {
    /// The keys that are asked for begin with this.
    pub closed spec fn key_prefix(&self) -> Seq<char> {
        self.prefix@
    }

    /// Create a new etcd discovery source for the given key prefix.
    pub fn new(prefix: String) -> (d: Self)
        ensures
            d.key_prefix() == prefix@,
    {
        EtcdDiscovery { prefix }
    }

    /// The keys that are asked for begin with this.
    pub fn prefix(&self) -> (prefix: &str)
        ensures
            prefix@ == self.key_prefix(),
    {
        self.prefix.as_str()
    }

    /// Read the pairs of an answer as text, up to the first that is not.
    pub fn decode(&self, entries: Vec<EtcdEntry>) -> (result: Result<Vec<(String, String)>, Error>)
        ensures
            match result {
                Ok(pairs) => {
                    &&& pairs@.len() == entries@.len()
                    &&& forall|i: int|
                        0 <= i < entries@.len() ==> {
                            &&& entry_fault(#[trigger] entries@[i]) is None
                            &&& pairs@[i].0@ == decode_utf8(entries@[i].key@)
                            &&& pairs@[i].1@ == decode_utf8(entries@[i].value@)
                        }
                },
                Err(e) => exists|k: int| #[trigger]
                    first_fault(entries@, k) && entry_fault(entries@[k]) == Some(e@),
            },
    {
        let ghost all = entries@;
        let mut pairs: Vec<(String, String)> = Vec::new();
        for entry in it: entries
            invariant
                it.seq() == all,
                pairs@.len() == it.index(),
                forall|j: int|
                    0 <= j < it.index() ==> {
                        &&& entry_fault(#[trigger] all[j]) is None
                        &&& pairs@[j].0@ == decode_utf8(all[j].key@)
                        &&& pairs@[j].1@ == decode_utf8(all[j].value@)
                    },
        {
            assert(all[it.index() as int] == entry);
            match decode_entry(entry) {
                Ok(pair) => {
                    pairs.push(pair);
                },
                Err(e) => {
                    assert(first_fault(all, it.index() as int));
                    return Err(e);
                },
            }
        }
        Ok(pairs)
    }

    /// Turn keys and parsed values into descriptors. A value that is no socket
    /// address is left out.
    pub fn discover(&self, parsed: Vec<(String, Option<String>)>) -> (found: Vec<
        BackendDescriptor,
    >)
        ensures
            descriptors_view(found@) == etcd_descriptors(parsed@),
    {
        let ghost all = parsed@;
        let mut found: Vec<BackendDescriptor> = Vec::new();
        for p in it: parsed
            invariant
                it.seq() == all,
                descriptors_view(found@) == etcd_descriptors(all.take(it.index() as int)),
        {
            let ghost k = it.index() as int;
            proof {
                assert(all.take(k + 1).drop_last() =~= all.take(k));
                assert(all[k] == p);
            }
            let ghost so_far = found@;
            let (id, value) = p;
            match value {
                Some(addr) => {
                    let d = BackendDescriptor {
                        id,
                        addr,
                        metadata: Metadata::new(),
                        weight: Some(1),
                        health_check: None,
                    };
                    found.push(d);
                    assert(descriptors_view(found@) =~= descriptors_view(so_far).push(d@));
                },
                None => {},
            }
        }
        assert(all.take(all.len() as int) =~= all);
        found
    }
}

/// How many of the first `n` values are socket addresses.
pub open spec fn addresses_before(parsed: Seq<(String, Option<String>)>, n: int) -> int
    decreases n,
{
    if n <= 0 {
        0
    } else {
        addresses_before(parsed, n - 1) + (if parsed[n - 1].1 is Some {
            1int
        } else {
            0
        })
    }
}

/// The count looks at no more than it counts.
proof fn lemma_same_count(a: Seq<(String, Option<String>)>, b: Seq<(String, Option<String>)>, n: int)
    requires
        0 <= n <= a.len(),
        n <= b.len(),
        forall|i: int| 0 <= i < n ==> a[i] == b[i],
    ensures
        0 <= addresses_before(a, n) == addresses_before(b, n),
    decreases n,
{
    if n > 0 {
        lemma_same_count(a, b, n - 1);
    }
}

/// Where the descriptor of a pair is.
proof fn lemma_descriptor_place(parsed: Seq<(String, Option<String>)>, i: int)
    ensures
        etcd_descriptors(parsed).len() == addresses_before(parsed, parsed.len() as int),
        0 <= i < parsed.len() && parsed[i].1 is Some ==> {
            let at = addresses_before(parsed, i);
            &&& 0 <= at < etcd_descriptors(parsed).len()
            &&& etcd_descriptors(parsed)[at] == (DescriptorView {
                weight: Some(1),
                ..DescriptorView::plain(parsed[i].0@, (parsed[i].1->0)@)
            })
        },
    decreases parsed.len(),
{
    if parsed.len() > 0 {
        let fewer = parsed.drop_last();
        lemma_descriptor_place(fewer, i);
        lemma_same_count(parsed, fewer, fewer.len() as int);
        if 0 <= i < fewer.len() {
            lemma_same_count(parsed, fewer, i);
        }
    }
}

/// Every key whose value is a socket address becomes a descriptor, in order,
/// with the key as its ID and a weight of 1. The other keys are left out.
pub proof fn addresses_become_descriptors(
    d: &EtcdDiscovery,
    parsed: Vec<(String, Option<String>)>,
    found: Vec<BackendDescriptor>,
    i: int,
    key: Seq<char>,
)
    requires
        call_ensures(EtcdDiscovery::discover, (d, parsed), found),
    ensures
        found@.len() == addresses_before(parsed@, parsed@.len() as int),
        0 <= i < parsed@.len() ==> (parsed@[i].1 matches Some(addr) ==> {
            let at = addresses_before(parsed@, i);
            &&& 0 <= at < found@.len()
            &&& found@[at].id@ == parsed@[i].0@
            &&& found@[at].addr@ == addr@
            &&& found@[at].weight == Some(1u32)
            &&& found@[at].health_check is None
            &&& !found@[at].metadata@.dom().contains(key)
        }),
{
    lemma_descriptor_place(parsed@, i);
    let views = descriptors_view(found@);
    assert(views == etcd_descriptors(parsed@));
    assert(views.len() == found@.len());
    if 0 <= i < parsed@.len() && parsed@[i].1 is Some {
        let at = addresses_before(parsed@, i);
        assert(views[at] == found@[at]@);
    }
}

/// Pairs are read as text, in order. The first one that is not UTF-8 ends it:
/// the error names the key if that is at fault, and else the value.
pub proof fn pairs_are_read_as_text(
    d: &EtcdDiscovery,
    entries: Vec<EtcdEntry>,
    result: Result<Vec<(String, String)>, Error>,
    at: int,
)
    requires
        call_ensures(EtcdDiscovery::decode, (d, entries), result),
        0 <= at < entries@.len(),
    ensures
        (forall|i: int|
            0 <= i < entries@.len() ==> valid_utf8((#[trigger] entries@[i]).key@) && valid_utf8(
                entries@[i].value@,
            )) ==> (result matches Ok(pairs) && pairs@.len() == entries@.len() && pairs@[at].0@
            == decode_utf8(entries@[at].key@) && pairs@[at].1@ == decode_utf8(
            entries@[at].value@,
        )),
        (forall|i: int|
            0 <= i < at ==> valid_utf8((#[trigger] entries@[i]).key@) && valid_utf8(
                entries@[i].value@,
            )) ==> {
            &&& !valid_utf8(entries@[at].key@) ==> (result matches Err(e) && e@
                == ErrorView::Backend(
                "etcd key utf8"@ + ": "@ + utf8_error_text(entries@[at].key@),
            ))
            &&& valid_utf8(entries@[at].key@) && !valid_utf8(entries@[at].value@) ==> (
            result matches Err(e) && e@ == ErrorView::Backend(
                "etcd value utf8"@ + ": "@ + utf8_error_text(entries@[at].value@),
            ))
        },
{
    let all = entries@;
    match result {
        Ok(_) => {
            assert(entry_fault(all[at]) is None);
        },
        Err(e) => {
            let k = choose|k: int| #[trigger]
                first_fault(all, k) && entry_fault(all[k]) == Some(e@);
            assert(entry_fault(all[k]) is Some);
            if at < k {
                assert(entry_fault(all[at]) is None);
            }
        },
    }
}

/// The prefix is the one that was given.
pub proof fn the_prefix_is_kept(prefix: String, d: EtcdDiscovery, read: &str)
    requires
        call_ensures(EtcdDiscovery::new, (prefix,), d),
        call_ensures(EtcdDiscovery::prefix, (&d,), read),
    ensures
        read@ == prefix@,
{
}

} // verus!
