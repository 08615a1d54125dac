//! What discovery says of a backend.

use std::time::Duration;

use vstd::prelude::*;

use crate::constants::DEFAULT_POLL_INTERVAL_SECS;
use crate::discovery::metadata::Metadata;
use crate::duration::duration_nanos;
use crate::error::Error;

verus! {

/// A backend descriptor returned by service discovery.
#[derive(Debug)]
pub struct BackendDescriptor {
    /// Unique identifier for this backend instance.
    pub id: String,
    /// The address to dial (host:port, or a URL).
    pub addr: String,
    /// Optional metadata/tags for filtering/routing.
    pub metadata: Metadata,
    /// Optional weight for weighted strategies.
    pub weight: Option<u32>,
    /// Optional health check endpoint (if different from addr).
    pub health_check: Option<String>,
}

/// What a descriptor says.
pub struct DescriptorView {
    pub id: Seq<char>,
    pub addr: Seq<char>,
    pub metadata: Map<Seq<char>, Seq<char>>,
    pub weight: Option<u32>,
    pub health_check: Option<Seq<char>>,
}

/// An optional text.
pub open spec fn text_view(text: Option<String>) -> Option<Seq<char>> {
    match text {
        Some(s) => Some(s@),
        None => None,
    }
}

impl View for BackendDescriptor {
    type V = DescriptorView;

    open spec fn view(&self) -> DescriptorView {
        DescriptorView {
            id: self.id@,
            addr: self.addr@,
            metadata: self.metadata@,
            weight: self.weight,
            health_check: text_view(self.health_check),
        }
    }
}

/// A list of descriptors.
pub open spec fn descriptors_view(descriptors: Seq<BackendDescriptor>) -> Seq<DescriptorView> {
    descriptors.map_values(|d: BackendDescriptor| d@)
}

impl DescriptorView {
    /// A backend of which only ID and address are known.
    pub open spec fn plain(id: Seq<char>, addr: Seq<char>) -> DescriptorView {
        DescriptorView {
            id,
            addr,
            metadata: Map::empty(),
            weight: None,
            health_check: None,
        }
    }
}

impl BackendDescriptor {
    /// Create a new backend descriptor.
    pub fn new(id: String, addr: String) -> (d: Self)
        ensures
            d@ == DescriptorView::plain(id@, addr@),
    {
        BackendDescriptor { id, addr, metadata: Metadata::new(), weight: None, health_check: None }
    }

    /// Add a metadata tag.
    #[must_use]
    pub fn with_tag(self, key: String, value: String) -> (d: Self)
        ensures
            d@ == (DescriptorView { metadata: self@.metadata.insert(key@, value@), ..self@ }),
    {
        let mut metadata = self.metadata;
        metadata.insert(key, value);
        BackendDescriptor {
            id: self.id,
            addr: self.addr,
            metadata,
            weight: self.weight,
            health_check: self.health_check,
        }
    }

    /// Set weight for weighted strategies.
    #[must_use]
    pub fn with_weight(self, weight: u32) -> (d: Self)
        ensures
            d@ == (DescriptorView { weight: Some(weight), ..self@ }),
            d.metadata == self.metadata,
    {
        BackendDescriptor {
            id: self.id,
            addr: self.addr,
            metadata: self.metadata,
            weight: Some(weight),
            health_check: self.health_check,
        }
    }

    /// Set health check endpoint.
    #[must_use]
    pub fn with_health_check(self, health_check: String) -> (d: Self)
        ensures
            d@ == (DescriptorView { health_check: Some(health_check@), ..self@ }),
            d.metadata == self.metadata,
    {
        BackendDescriptor {
            id: self.id,
            addr: self.addr,
            metadata: self.metadata,
            weight: self.weight,
            health_check: Some(health_check),
        }
    }
}

impl Clone for BackendDescriptor {
    fn clone(&self) -> (copy: Self)
        ensures
            copy@ == self@,
    {
        BackendDescriptor {
            id: self.id.clone(),
            addr: self.addr.clone(),
            metadata: self.metadata.clone(),
            weight: self.weight,
            health_check: match &self.health_check {
                Some(s) => Some(s.clone()),
                None => None,
            },
        }
    }
}

/// Whether two optional texts are the same.
fn same_text(a: &Option<String>, b: &Option<String>) -> (same: bool)
    ensures
        same == (text_view(*a) == text_view(*b)),
{
    match (a, b) {
        (Some(x), Some(y)) => *x == *y,
        (None, None) => true,
        _ => false,
    }
}

impl PartialEq for BackendDescriptor {
    fn eq(&self, other: &BackendDescriptor) -> (same: bool) {
        self.id == other.id && self.addr == other.addr && self.metadata == other.metadata
            && self.weight == other.weight && same_text(&self.health_check, &other.health_check)
    }
}

impl vstd::std_specs::cmp::PartialEqSpecImpl for BackendDescriptor {
    open spec fn obeys_eq_spec() -> bool {
        true
    }

    open spec fn eq_spec(&self, other: &BackendDescriptor) -> bool {
        self@ == other@
    }
}

impl Eq for BackendDescriptor {

}

/// The time between two polls of a discovery source that suggests none.
pub fn default_poll_interval() -> (interval: Duration)
    ensures
        duration_nanos(interval) == DEFAULT_POLL_INTERVAL_SECS * 1_000_000_000,
{
    Duration::from_secs(DEFAULT_POLL_INTERVAL_SECS)
}

/// A simple static service discovery source.
///
/// Useful for testing or when backends are known at compile time.
#[derive(Debug)]
pub struct StaticDiscovery {
    descriptors: Vec<BackendDescriptor>,
}

impl View for StaticDiscovery {
    type V = Seq<DescriptorView>;

    closed spec fn view(&self) -> Seq<DescriptorView> {
        descriptors_view(self.descriptors@)
    }
}

impl StaticDiscovery {
    /// Create a new static discovery source.
    #[must_use]
    pub fn new(descriptors: Vec<BackendDescriptor>) -> (s: Self)
        ensures
            s@ == descriptors_view(descriptors@),
    {
        StaticDiscovery { descriptors }
    }

    /// Create from a list of (id, name, address) tuples. The name is not used.
    pub fn from_tuples(backends: Vec<(String, String, String)>) -> (s: Self)
        ensures
            s@ == backends@.map_values(
                |t: (String, String, String)| DescriptorView::plain(t.0@, t.2@),
            ),
    {
        let ghost all = backends@;
        let mut descriptors: Vec<BackendDescriptor> = Vec::new();
        for t in it: backends
            invariant
                it.seq() == all,
                descriptors@.len() == it.index(),
                forall|j: int|
                    0 <= j < it.index() ==> (#[trigger] descriptors@[j])@ == DescriptorView::plain(
                        all[j].0@,
                        all[j].2@,
                    ),
        {
            let (id, _name, addr) = t;
            descriptors.push(BackendDescriptor::new(id, addr));
        }
        let s = StaticDiscovery { descriptors };
        assert(s@ =~= all.map_values(
            |t: (String, String, String)| DescriptorView::plain(t.0@, t.2@),
        ));
        s
    }

    /// The suggested time between two polls: 30 seconds.
    pub fn poll_interval(&self) -> (interval: Duration)
        ensures
            duration_nanos(interval) == DEFAULT_POLL_INTERVAL_SECS * 1_000_000_000,
    {
        default_poll_interval()
    }

    /// The known backends, every time.
    pub fn discover(&self) -> (result: Result<Vec<BackendDescriptor>, Error>)
        ensures
            result matches Ok(found) && descriptors_view(found@) == self@,
    {
        let mut found: Vec<BackendDescriptor> = Vec::new();
        let mut i: usize = 0;
        while i < self.descriptors.len()
            invariant
                i <= self.descriptors@.len(),
                found@.len() == i,
                forall|j: int| 0 <= j < i ==> (#[trigger] found@[j])@ == self.descriptors@[j]@,
            decreases self.descriptors.len() - i,
        {
            found.push(self.descriptors[i].clone());
            i += 1;
        }
        assert(descriptors_view(found@) =~= self@);
        Ok(found)
    }
}

impl Clone for StaticDiscovery {
    fn clone(&self) -> (copy: Self)
        ensures
            copy@ == self@,
    {
        match self.discover() {
            Ok(descriptors) => StaticDiscovery { descriptors },
            Err(_) => StaticDiscovery { descriptors: Vec::new() },
        }
    }
}

/// A new descriptor says its ID and its address. What is added to it later it
/// says as well, and the rest stays.
pub proof fn descriptors_say_what_was_set(
    id: String,
    addr: String,
    key: String,
    value: String,
    weight: u32,
    check: String,
    d: BackendDescriptor,
    after: BackendDescriptor,
    other: Seq<char>,
)
    ensures
        call_ensures(BackendDescriptor::new, (id, addr), after) ==> {
            &&& after.id@ == id@
            &&& after.addr@ == addr@
            &&& !after.metadata@.dom().contains(other)
            &&& after.weight is None
            &&& after.health_check is None
        },
        call_ensures(BackendDescriptor::with_tag, (d, key, value), after) ==> {
            &&& after.metadata@.dom().contains(key@) && after.metadata@[key@] == value@
            &&& other != key@ ==> after.metadata@.dom().contains(other)
                == d.metadata@.dom().contains(other) && after.metadata@[other]
                == d.metadata@[other]
            &&& after@.id == d@.id
            &&& after@.addr == d@.addr
            &&& after@.weight == d@.weight
            &&& after@.health_check == d@.health_check
        },
        call_ensures(BackendDescriptor::with_weight, (d, weight), after) ==> {
            &&& after.weight == Some(weight)
            &&& after@.id == d@.id
            &&& after@.addr == d@.addr
            &&& after.metadata == d.metadata
            &&& after@.health_check == d@.health_check
        },
        call_ensures(BackendDescriptor::with_health_check, (d, check), after) ==> {
            &&& after.health_check matches Some(text) && text@ == check@
            &&& after@.id == d@.id
            &&& after@.addr == d@.addr
            &&& after.metadata == d.metadata
            &&& after.weight == d.weight
        },
{
    if call_ensures(BackendDescriptor::new, (id, addr), after) {
        assert(after@ == DescriptorView::plain(id@, addr@));
    }
    if call_ensures(BackendDescriptor::with_tag, (d, key, value), after) {
        assert(after@.metadata == d@.metadata.insert(key@, value@));
    }
    if call_ensures(BackendDescriptor::with_health_check, (d, check), after) {
        assert(after@.health_check == Some(check@));
    }
}

/// Two descriptors are equal exactly if they say the same in every field, and
/// a copy says the same.
pub proof fn descriptors_compare_by_what_they_say(
    a: &BackendDescriptor,
    b: &BackendDescriptor,
    same: bool,
    copy: BackendDescriptor,
)
    requires
        call_ensures(BackendDescriptor::eq, (a, b), same),
        call_ensures(BackendDescriptor::clone, (a,), copy),
    ensures
        same ==> a.id@ == b.id@ && a.addr@ == b.addr@ && a.metadata@ == b.metadata@ && a.weight
            == b.weight && a@.health_check == b@.health_check,
        a.id@ == b.id@ && a.addr@ == b.addr@ && a.metadata@ == b.metadata@ && a.weight == b.weight
            && a@.health_check == b@.health_check ==> same,
        copy.id@ == a.id@,
        copy.addr@ == a.addr@,
        copy.metadata@ == a.metadata@,
        copy.weight == a.weight,
        copy@.health_check == a@.health_check,
{
    assert(copy@ == a@);
}

/// A static source finds the same backends every time: those it was made with,
/// in order. It suggests a poll every 30 seconds.
pub proof fn static_sources_find_the_same(
    descriptors: Vec<BackendDescriptor>,
    s: StaticDiscovery,
    found: Result<Vec<BackendDescriptor>, Error>,
    again: Result<Vec<BackendDescriptor>, Error>,
    interval: Duration,
    i: int,
)
    requires
        call_ensures(StaticDiscovery::new, (descriptors,), s),
        call_ensures(StaticDiscovery::discover, (&s,), found),
        call_ensures(StaticDiscovery::discover, (&s,), again),
        call_ensures(StaticDiscovery::poll_interval, (&s,), interval) || call_ensures(
            default_poll_interval,
            (),
            interval,
        ),
        0 <= i < descriptors@.len(),
    ensures
        duration_nanos(interval) == 30_000_000_000,
        found matches Ok(list) && list@.len() == descriptors@.len() && list@[i]@
            == descriptors@[i]@,
        again matches Ok(list) && list@.len() == descriptors@.len() && list@[i]@
            == descriptors@[i]@,
{
    let all = descriptors_view(descriptors@);
    assert(descriptors_view((found->Ok_0)@) == all);
    assert(descriptors_view((found->Ok_0)@)[i] == all[i]);
    assert(descriptors_view((again->Ok_0)@) == all);
    assert(descriptors_view((again->Ok_0)@)[i] == all[i]);
    assert(descriptors_view((found->Ok_0)@).len() == (found->Ok_0)@.len());
    assert(descriptors_view((again->Ok_0)@).len() == (again->Ok_0)@.len());
}

/// Made from tuples, it finds one backend for each, with the first part as its
/// ID and the last as its address.
pub proof fn tuples_give_id_and_address(
    tuples: Vec<(String, String, String)>,
    s: StaticDiscovery,
    found: Result<Vec<BackendDescriptor>, Error>,
    i: int,
    key: Seq<char>,
)
    requires
        call_ensures(StaticDiscovery::from_tuples, (tuples,), s),
        call_ensures(StaticDiscovery::discover, (&s,), found),
        0 <= i < tuples@.len(),
    ensures
        found matches Ok(list) && list@.len() == tuples@.len() && list@[i].id@ == tuples@[i].0@
            && list@[i].addr@ == tuples@[i].2@ && list@[i].weight is None
            && list@[i].health_check is None && !list@[i].metadata@.dom().contains(key),
{
    let list = (found->Ok_0)@;
    let views = descriptors_view(list);
    assert(views == s@);
    assert(views.len() == list.len());
    assert(views[i] == list[i]@);
    assert(s@[i] == DescriptorView::plain(tuples@[i].0@, tuples@[i].2@));
}

} // verus!
