//! Consul service discovery.

use vstd::prelude::*;

use crate::address::{address_fault, every_host_and_port_is_accepted};
use crate::discovery::descriptor::{
    descriptors_view, text_view, BackendDescriptor, DescriptorView,
};
use crate::discovery::dns::{host_port_text, join_host_port};
use crate::discovery::metadata::Metadata;
use crate::text::decimal;

verus! {

/// One entry of a Consul catalog answer.
#[derive(Debug)]
pub struct ConsulEntry {
    /// The service instance.
    pub service_id: Option<String>,
    /// Where it listens.
    pub service_address: Option<String>,
    /// On which port.
    pub service_port: Option<u64>,
    /// Its tags.
    pub service_tags: Option<Vec<String>>,
    /// Its metadata.
    pub service_meta: Option<Metadata>,
}

/// The tags of an entry, as text.
pub open spec fn tags_view(tags: Seq<String>) -> Seq<Seq<char>> {
    tags.map_values(|t: String| t@)
}

/// Texts with commas in between.
pub open spec fn joined_by_commas(parts: Seq<Seq<char>>) -> Seq<char>
    decreases parts.len(),
{
    if parts.len() == 0 {
        Seq::empty()
    } else if parts.len() == 1 {
        parts[0]
    } else {
        joined_by_commas(parts.drop_last()) + ","@ + parts.last()
    }
}

/// The entry has the tag that is asked for, if one is.
pub open spec fn passes_filter(entry: ConsulEntry, filter: Option<Seq<char>>) -> bool {
    filter matches Some(tag) ==> (entry.service_tags matches Some(tags) && tags_view(
        tags@,
    ).contains(tag))
}

/// What an entry says of a backend. An entry that the filter does not let
/// through, or that lacks an address or a port, says nothing.
pub open spec fn consul_descriptor(
    entry: ConsulEntry,
    filter: Option<Seq<char>>,
) -> Option<DescriptorView> {
    match (entry.service_address, entry.service_port) {
        (Some(address), Some(port)) => if passes_filter(entry, filter) && address@.len() > 0
            && port != 0 {
            let meta = match entry.service_meta {
                Some(m) => m@,
                None => Map::empty(),
            };
            Some(
                DescriptorView {
                    id: match entry.service_id {
                        Some(id) => id@,
                        None => Seq::empty(),
                    },
                    addr: host_port_text(address@, port as nat),
                    metadata: match entry.service_tags {
                        Some(tags) => meta.insert("tags"@, joined_by_commas(tags_view(tags@))),
                        None => meta,
                    },
                    weight: Some(1),
                    health_check: None,
                },
            )
        } else {
            None
        },
        _ => None,
    }
}

/// What all the entries say, in order.
pub open spec fn consul_descriptors(
    entries: Seq<ConsulEntry>,
    filter: Option<Seq<char>>,
) -> Seq<DescriptorView>
    decreases entries.len(),
{
    if entries.len() == 0 {
        Seq::empty()
    } else {
        let rest = consul_descriptors(entries.drop_last(), filter);
        match consul_descriptor(entries.last(), filter) {
            Some(d) => rest.push(d),
            None => rest,
        }
    }
}

/// Whether a tag is among the tags.
fn has_tag(tags: &Vec<String>, tag: &String) -> (found: bool)
    ensures
        found == tags_view(tags@).contains(tag@),
{
    let ghost texts = tags_view(tags@);
    let mut i: usize = 0;
    while i < tags.len()
        invariant
            i <= tags@.len(),
            texts == tags_view(tags@),
            forall|j: int| 0 <= j < i ==> #[trigger] texts[j] != tag@,
        decreases tags.len() - i,
    {
        assert(texts[i as int] == tags@[i as int]@);
        if tags[i] == *tag {
            assert(texts.contains(tag@));
            return true;
        }
        i += 1;
    }
    false
}

/// Put the tags together, with commas in between.
fn join_by_commas(tags: &Vec<String>) -> (text: String)
    ensures
        text@ == joined_by_commas(tags_view(tags@)),
{
    let ghost parts = tags_view(tags@);
    let mut text = String::new();
    let mut i: usize = 0;
    assert(parts.take(0) =~= Seq::<Seq<char>>::empty());
    while i < tags.len()
        invariant
            i <= tags@.len(),
            parts == tags_view(tags@),
            text@ == joined_by_commas(parts.take(i as int)),
        decreases tags.len() - i,
    {
        let ghost k = i as int;
        proof {
            assert(parts.take(k + 1).drop_last() =~= parts.take(k));
            assert(parts[k] == tags@[k]@);
        }
        if i > 0 {
            text.append(",");
        }
        text.append(tags[i].as_str());
        i += 1;
        assert(text@ =~= joined_by_commas(parts.take(i as int)));
    }
    assert(parts.take(i as int) =~= parts);
    text
}

/// Consul service discovery source.
///
/// It says which service to ask for, and turns the answer into descriptors.
#[derive(Debug)]
pub struct ConsulDiscovery {
    service_name: String,
    tag_filter: Option<String>,
}

impl ConsulDiscovery {
    /// The service that is asked for.
    pub closed spec fn service(&self) -> Seq<char> {
        self.service_name@
    }

    /// The tag that is asked for.
    pub closed spec fn filter(&self) -> Option<Seq<char>> {
        text_view(self.tag_filter)
    }

    /// Create a new Consul discovery source for the given service name.
    pub fn new(service_name: String) -> (d: Self)
        ensures
            d.service() == service_name@,
            d.filter() is None,
    {
        ConsulDiscovery { service_name, tag_filter: None }
    }

    /// Set a tag filter to only discover services with this tag.
    #[must_use]
    pub fn with_tag(self, tag: String) -> (d: Self)
        ensures
            d.service() == self.service(),
            d.filter() == Some(tag@),
    {
        ConsulDiscovery { service_name: self.service_name, tag_filter: Some(tag) }
    }

    /// The service that is asked for.
    pub fn service_name(&self) -> (name: &str)
        ensures
            name@ == self.service(),
    {
        self.service_name.as_str()
    }

    /// Turn one entry into a descriptor.
    fn describe(&self, entry: ConsulEntry) -> (d: Option<BackendDescriptor>)
        ensures
            match d {
                Some(d) => consul_descriptor(entry, self.filter()) == Some(d@),
                None => consul_descriptor(entry, self.filter()) is None,
            },
    {
        let wanted = match &self.tag_filter {
            Some(tag) => match &entry.service_tags {
                Some(tags) => has_tag(tags, tag),
                None => false,
            },
            None => true,
        };
        if !wanted {
            return None;
        }
        // An entry without an address or a port would only be refused when
        // it is dialed, which is much harder to debug than skipping it here.
        match (&entry.service_address, entry.service_port) {
            (Some(address), Some(port)) => {
                if address.as_str().is_empty() || port == 0 {
                    return None;
                }
                let addr = join_host_port(address.as_str(), port);
                let id = match entry.service_id {
                    Some(id) => id,
                    None => String::new(),
                };
                let mut metadata = match entry.service_meta {
                    Some(meta) => meta,
                    None => Metadata::new(),
                };
                match &entry.service_tags {
                    Some(tags) => {
                        metadata.insert("tags".to_owned(), join_by_commas(tags));
                    },
                    None => {},
                }
                assert(entry.service_id is None ==> id@ =~= Seq::<char>::empty());
                Some(
                    BackendDescriptor { id, addr, metadata, weight: Some(1), health_check: None },
                )
            },
            _ => None,
        }
    }

    /// Turn the entries of an answer into descriptors, leaving out those that
    /// cannot be used.
    pub fn discover(&self, entries: Vec<ConsulEntry>) -> (found: Vec<BackendDescriptor>)
        ensures
            descriptors_view(found@) == consul_descriptors(entries@, self.filter()),
    {
        let ghost all = entries@;
        let mut found: Vec<BackendDescriptor> = Vec::new();
        for entry in it: entries
            invariant
                it.seq() == all,
                descriptors_view(found@) == consul_descriptors(
                    all.take(it.index() as int),
                    self.filter(),
                ),
        {
            let ghost k = it.index() as int;
            proof {
                assert(all.take(k + 1).drop_last() =~= all.take(k));
                assert(all[k] == entry);
            }
            let ghost so_far = found@;
            match self.describe(entry) {
                Some(d) => {
                    found.push(d);
                    assert(descriptors_view(found@) =~= descriptors_view(so_far).push(d@));
                },
                None => {},
            }
        }
        assert(all.take(all.len() as int) =~= all);
        found
    }
}

/// An address from Consul can be dialed, as long as its port is one.
pub proof fn consul_addresses_can_be_dialed(entry: ConsulEntry, filter: Option<Seq<char>>)
    requires
        consul_descriptor(entry, filter) is Some,
        entry.service_port matches Some(port) ==> port <= 65535,
    ensures
        address_fault(consul_descriptor(entry, filter)->0.addr) is None,
{
    every_host_and_port_is_accepted(
        entry.service_address->0@,
        entry.service_port->0 as nat,
    );
}

/// With a tag filter, only services with that tag are discovered.
pub proof fn filtered_services_have_the_tag(entry: ConsulEntry, tag: Seq<char>)
    requires
        consul_descriptor(entry, Some(tag)) is Some,
    ensures
        entry.service_tags is Some,
        tags_view(entry.service_tags->0@).contains(tag),
{
}

/// An entry can be used: it has the tag that is asked for, if one is, an
/// address that is not empty, and a port that is not zero.
pub open spec fn is_usable(entry: ConsulEntry, filter: Option<Seq<char>>) -> bool {
    &&& entry.service_address matches Some(address) && address@.len() > 0
    &&& entry.service_port matches Some(port) && port > 0
    &&& filter matches Some(tag) ==> (entry.service_tags matches Some(tags) && exists|i: int|
        0 <= i < tags@.len() && (#[trigger] tags@[i])@ == tag)
}

/// How many of the first `n` entries can be used.
pub open spec fn usable_before(
    entries: Seq<ConsulEntry>,
    filter: Option<Seq<char>>,
    n: int,
) -> int
    decreases n,
{
    if n <= 0 {
        0
    } else {
        usable_before(entries, filter, n - 1) + (if is_usable(entries[n - 1], filter) {
            1int
        } else {
            0
        })
    }
}

/// An entry says something of a backend exactly if it can be used.
proof fn lemma_usable(entry: ConsulEntry, filter: Option<Seq<char>>)
    ensures
        is_usable(entry, filter) == (consul_descriptor(entry, filter) is Some),
{
    if let (Some(tag), Some(tags)) = (filter, entry.service_tags) {
        let texts = tags_view(tags@);
        if texts.contains(tag) {
            let i = choose|i: int| 0 <= i < texts.len() && texts[i] == tag;
            assert(tags@[i]@ == tag);
        }
        if exists|i: int| 0 <= i < tags@.len() && (#[trigger] tags@[i])@ == tag {
            let i = choose|i: int| 0 <= i < tags@.len() && (#[trigger] tags@[i])@ == tag;
            assert(texts[i] == tag);
        }
    }
}

/// The count looks at no more than it counts.
proof fn lemma_same_count(
    a: Seq<ConsulEntry>,
    b: Seq<ConsulEntry>,
    filter: Option<Seq<char>>,
    n: int,
)
    requires
        0 <= n <= a.len(),
        n <= b.len(),
        forall|i: int| 0 <= i < n ==> a[i] == b[i],
    ensures
        0 <= usable_before(a, filter, n) == usable_before(b, filter, n),
    decreases n,
{
    if n > 0 {
        lemma_same_count(a, b, filter, n - 1);
    }
}

/// Where the descriptor of an entry is.
proof fn lemma_descriptor_place(entries: Seq<ConsulEntry>, filter: Option<Seq<char>>, i: int)
    ensures
        consul_descriptors(entries, filter).len() == usable_before(
            entries,
            filter,
            entries.len() as int,
        ),
        0 <= i < entries.len() && is_usable(entries[i], filter) ==> {
            let at = usable_before(entries, filter, i);
            &&& 0 <= at < consul_descriptors(entries, filter).len()
            &&& Some(consul_descriptors(entries, filter)[at]) == consul_descriptor(
                entries[i],
                filter,
            )
        },
    decreases entries.len(),
{
    if entries.len() > 0 {
        let fewer = entries.drop_last();
        lemma_usable(entries.last(), filter);
        lemma_descriptor_place(fewer, filter, i);
        lemma_same_count(entries, fewer, filter, fewer.len() as int);
        if 0 <= i < fewer.len() {
            lemma_same_count(entries, fewer, filter, i);
        }
    }
}

/// Every entry that can be used becomes a descriptor, in order, and no other.
/// Its ID is the service's, its address is made of host and port, and its
/// weight is 1. Its tags, if it has any, stand under `tags`, beside whatever
/// else is known of the service.
pub proof fn entries_become_descriptors(
    d: &ConsulDiscovery,
    entries: Vec<ConsulEntry>,
    found: Vec<BackendDescriptor>,
    i: int,
    key: Seq<char>,
)
    requires
        call_ensures(ConsulDiscovery::discover, (d, entries), found),
        0 <= i < entries@.len(),
    ensures
        found@.len() == usable_before(entries@, d.filter(), entries@.len() as int),
        is_usable(entries@[i], d.filter()) ==> {
            let entry = entries@[i];
            let at = usable_before(entries@, d.filter(), i);
            &&& 0 <= at < found@.len()
            &&& entry.service_id matches Some(id) ==> found@[at].id@ == id@
            &&& entry.service_id is None ==> found@[at].id@.len() == 0
            &&& found@[at].addr@ == (entry.service_address->0)@ + seq![':'] + decimal(
                entry.service_port->0 as nat,
            )
            &&& found@[at].weight == Some(1u32)
            &&& found@[at].health_check is None
            &&& entry.service_tags matches Some(tags) ==> found@[at].metadata@.dom().contains(
                "tags"@,
            ) && found@[at].metadata@["tags"@] == joined_by_commas(tags_view(tags@))
            &&& entry.service_meta matches Some(meta) ==> (entry.service_tags is None || key
                != "tags"@) ==> found@[at].metadata@.dom().contains(key)
                == meta@.dom().contains(key) && found@[at].metadata@[key] == meta@[key]
            &&& entry.service_meta is None && (entry.service_tags is None || key != "tags"@)
                ==> !found@[at].metadata@.dom().contains(key)
        },
{
    lemma_descriptor_place(entries@, d.filter(), i);
    lemma_usable(entries@[i], d.filter());
    let views = descriptors_view(found@);
    assert(views == consul_descriptors(entries@, d.filter()));
    assert(views.len() == found@.len());
    if is_usable(entries@[i], d.filter()) {
        let at = usable_before(entries@, d.filter(), i);
        assert(views[at] == found@[at]@);
    }
}

/// One comma stands between every two tags, and none anywhere else.
pub proof fn commas_stand_between(parts: Seq<Seq<char>>, last: Seq<char>)
    ensures
        joined_by_commas(Seq::empty()) == Seq::<char>::empty(),
        joined_by_commas(seq![last]) == last,
        parts.len() > 0 ==> joined_by_commas(parts.push(last)) == joined_by_commas(parts)
            + seq![','] + last,
{
    reveal_strlit(",");
    assert(","@ =~= seq![',']);
    if parts.len() > 0 {
        assert(parts.push(last).drop_last() =~= parts);
    }
}

/// A source asks for the service it was made for, and for no tag until one is
/// set.
pub proof fn a_source_asks_for_its_service(
    service: String,
    made: ConsulDiscovery,
    tag: String,
    tagged: ConsulDiscovery,
    name: &str,
    tagged_name: &str,
)
    requires
        call_ensures(ConsulDiscovery::new, (service,), made),
        call_ensures(ConsulDiscovery::with_tag, (made, tag), tagged),
        call_ensures(ConsulDiscovery::service_name, (&made,), name),
        call_ensures(ConsulDiscovery::service_name, (&tagged,), tagged_name),
    ensures
        name@ == service@,
        tagged_name@ == service@,
        made.filter() is None,
        tagged.filter() == Some(tag@),
{
}

} // verus!
