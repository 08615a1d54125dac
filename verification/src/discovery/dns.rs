//! DNS-based service discovery (SRV records).

use vstd::prelude::*;

use crate::address::{address_fault, every_host_and_port_is_accepted};
use crate::constants::DEFAULT_SRV_PREFIX;
use crate::discovery::descriptor::{descriptors_view, BackendDescriptor, DescriptorView};
use crate::discovery::metadata::Metadata;
use crate::text::{append_decimal, chars_of, decimal};

verus! {

/// One SRV record of a DNS answer.
#[derive(Debug)]
pub struct SrvRecord {
    /// The host name, as written in the record.
    pub target: String,
    /// The port.
    pub port: u16,
    /// The weight.
    pub weight: u16,
}

/// `host:port`, as text.
pub open spec fn host_port_text(host: Seq<char>, port: nat) -> Seq<char> {
    host + seq![':'] + decimal(port)
}

/// A name without the dots at its end.
pub open spec fn without_trailing_dots(name: Seq<char>) -> Seq<char>
    decreases name.len(),
{
    if name.len() > 0 && name.last() == '.' {
        without_trailing_dots(name.drop_last())
    } else {
        name
    }
}

/// Put `host:port` together.
pub(crate) fn join_host_port(host: &str, port: u64) -> (text: String)
    ensures
        text@ == host_port_text(host@, port as nat),
{
    let mut text = host.to_owned();
    text.append(":");
    proof {
        reveal_strlit(":");
        assert(":"@ =~= seq![':']);
    }
    append_decimal(&mut text, port);
    text
}

/// Cut the dots off the end of a name.
fn trim_trailing_dots(name: &str) -> (trimmed: String)
    ensures
        trimmed@ == without_trailing_dots(name@),
{
    let chars: Vec<char> = chars_of(name);
    let mut end: usize = chars.len();
    assert(name@.take(end as int) =~= name@);
    while end > 0 && chars[end - 1] == '.'
        invariant
            chars@ == name@,
            end <= chars@.len(),
            without_trailing_dots(name@) == without_trailing_dots(name@.take(end as int)),
        decreases end,
    {
        assert(name@.take(end as int).drop_last() =~= name@.take(end - 1));
        end -= 1;
    }
    let trimmed = name.substring_char(0, end);
    assert(trimmed@ =~= name@.take(end as int));
    trimmed.to_owned()
}

/// What a record says of a backend. A record without a port, that is with
/// port 0, gets the fallback port.
pub open spec fn srv_descriptor(record: SrvRecord, fallback_port: u16) -> DescriptorView {
    let port = if record.port == 0 { fallback_port } else { record.port };
    DescriptorView {
        id: host_port_text(record.target@, port as nat),
        addr: host_port_text(without_trailing_dots(record.target@), port as nat),
        metadata: Map::empty(),
        weight: Some(record.weight as u32),
        health_check: None,
    }
}

/// DNS-based service discovery using SRV records.
///
/// It says which name to look up, and turns the answer into descriptors.
#[derive(Debug)]
pub struct DnsDiscovery {
    service_name: String,
    srv_prefix: String,
    fallback_port: u16,
}

impl DnsDiscovery {
    /// The service that is looked up.
    pub closed spec fn service_name(&self) -> Seq<char> {
        self.service_name@
    }

    /// The SRV lookup prefix.
    pub closed spec fn srv_prefix(&self) -> Seq<char> {
        self.srv_prefix@
    }

    /// The port for records that have none.
    pub closed spec fn fallback_port(&self) -> u16 {
        self.fallback_port
    }

    /// Create a new DNS discovery source for the given service name and port.
    ///
    /// The `port` parameter is used as a fallback when SRV records do not
    /// include port information. For standard SRV lookups, ports come from
    /// the DNS response.
    pub fn new(service_name: String, port: u16) -> (d: Self)
        ensures
            d.service_name() == service_name@,
            d.srv_prefix() == DEFAULT_SRV_PREFIX@,
            d.fallback_port() == port,
    {
        DnsDiscovery {
            service_name,
            srv_prefix: DEFAULT_SRV_PREFIX.to_owned(),
            fallback_port: port,
        }
    }

    /// Set a custom SRV prefix (e.g. `"_minecraft._tcp"`). Defaults to
    /// `"_http._tcp"`.
    #[must_use]
    pub fn with_srv_prefix(self, prefix: String) -> (d: Self)
        ensures
            d.service_name() == self.service_name(),
            d.srv_prefix() == prefix@,
            d.fallback_port() == self.fallback_port(),
    {
        DnsDiscovery {
            service_name: self.service_name,
            srv_prefix: prefix,
            fallback_port: self.fallback_port,
        }
    }

    /// The name whose SRV records are looked up: prefix, dot, service name.
    pub fn srv_name(&self) -> (name: String)
        ensures
            name@ == self.srv_prefix() + "."@ + self.service_name(),
    {
        let mut name = self.srv_prefix.clone();
        name.append(".");
        name.append(self.service_name.as_str());
        name
    }

    /// Turn the records of an answer into descriptors, one for each.
    pub fn discover(&self, records: Vec<SrvRecord>) -> (found: Vec<BackendDescriptor>)
        ensures
            descriptors_view(found@) == records@.map_values(
                |r: SrvRecord| srv_descriptor(r, self.fallback_port()),
            ),
    {
        let ghost all = records@;
        let mut found: Vec<BackendDescriptor> = Vec::new();
        for record in it: records
            invariant
                it.seq() == all,
                found@.len() == it.index(),
                forall|j: int|
                    0 <= j < it.index() ==> (#[trigger] found@[j])@ == srv_descriptor(
                        all[j],
                        self.fallback_port(),
                    ),
        {
            let port: u16 = if record.port == 0 { self.fallback_port } else { record.port };
            let host = trim_trailing_dots(record.target.as_str());
            found.push(
                BackendDescriptor {
                    id: join_host_port(record.target.as_str(), port as u64),
                    addr: join_host_port(host.as_str(), port as u64),
                    metadata: Metadata::new(),
                    weight: Some(record.weight as u32),
                    health_check: None,
                },
            );
        }
        assert(descriptors_view(found@) =~= all.map_values(
            |r: SrvRecord| srv_descriptor(r, self.fallback_port()),
        ));
        found
    }
}

/// An address from DNS can be dialed, unless the record names no host, or
/// neither the record nor the fallback gives a port.
pub proof fn dns_addresses_can_be_dialed(record: SrvRecord, fallback_port: u16)
    requires
        without_trailing_dots(record.target@).len() > 0,
        record.port > 0 || fallback_port > 0,
    ensures
        address_fault(srv_descriptor(record, fallback_port).addr) is None,
{
    let port = if record.port == 0 { fallback_port } else { record.port };
    every_host_and_port_is_accepted(without_trailing_dots(record.target@), port as nat);
}

/// Dots at the end go, and nothing else.
proof fn lemma_only_dots_go(host: Seq<char>, dots: nat)
    requires
        host.len() == 0 || host.last() != '.',
    ensures
        without_trailing_dots(host + Seq::new(dots, |i: int| '.')) == host,
    decreases dots,
{
    let tail = Seq::new(dots, |i: int| '.');
    let whole = host + tail;
    if dots == 0 {
        assert(whole =~= host);
    } else {
        let fewer = (dots - 1) as nat;
        lemma_only_dots_go(host, fewer);
        assert(whole.drop_last() =~= host + Seq::new(fewer, |i: int| '.'));
    }
}

/// Every record becomes a descriptor, in order. Its port is the record's, or
/// the fallback where that is zero. The ID has the host as written, and the
/// address has it without the dots at its end. The weight is the record's.
pub proof fn records_become_descriptors(
    d: &DnsDiscovery,
    records: Vec<SrvRecord>,
    found: Vec<BackendDescriptor>,
    i: int,
    host: Seq<char>,
    dots: nat,
    key: Seq<char>,
)
    requires
        call_ensures(DnsDiscovery::discover, (d, records), found),
        0 <= i < records@.len(),
        records@[i].target@ == host + Seq::new(dots, |i: int| '.'),
        host.len() == 0 || host.last() != '.',
    ensures
        found@.len() == records@.len(),
        ({
            let port = if records@[i].port == 0 {
                d.fallback_port() as nat
            } else {
                records@[i].port as nat
            };
            &&& found@[i].id@ == records@[i].target@ + seq![':'] + decimal(port)
            &&& found@[i].addr@ == host + seq![':'] + decimal(port)
            &&& found@[i].weight == Some(records@[i].weight as u32)
            &&& found@[i].health_check is None
            &&& !found@[i].metadata@.dom().contains(key)
        }),
{
    lemma_only_dots_go(host, dots);
    let views = descriptors_view(found@);
    assert(views.len() == found@.len());
    assert(views[i] == found@[i]@);
    assert(views[i] == srv_descriptor(records@[i], d.fallback_port()));
}

/// The name that is looked up is made of the prefix and the service. The
/// prefix is `_http._tcp` until another one is set, which changes nothing else.
pub proof fn the_srv_name_has_prefix_and_service(
    service: String,
    port: u16,
    made: DnsDiscovery,
    name: String,
    prefix: String,
    changed: DnsDiscovery,
    changed_name: String,
)
    requires
        call_ensures(DnsDiscovery::new, (service, port), made),
        call_ensures(DnsDiscovery::srv_name, (&made,), name),
        call_ensures(DnsDiscovery::with_srv_prefix, (made, prefix), changed),
        call_ensures(DnsDiscovery::srv_name, (&changed,), changed_name),
    ensures
        name@ == "_http._tcp"@ + "."@ + service@,
        changed_name@ == prefix@ + "."@ + service@,
        made.fallback_port() == port,
        changed.fallback_port() == port,
{
}

} // verus!
