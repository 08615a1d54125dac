use rota_lb::{
    adopt, reconcile, BackendDescriptor, ConsulDiscovery, ConsulEntry, DnsDiscovery, Error,
    EtcdDiscovery, EtcdEntry, LoadBalancer, Metadata, NoRetry, RoundRobin, SrvRecord,
    StaticDiscovery,
};

fn text(s: &str) -> String {
    s.to_string()
}

fn described(ids: &[&str]) -> Vec<BackendDescriptor> {
    ids.iter().map(|id| BackendDescriptor::new(text(id), text("h:1"))).collect()
}

fn pool(ids: &[Option<&str>]) -> LoadBalancer<usize, RoundRobin, NoRetry> {
    let mut lb = LoadBalancer::new(vec![100], RoundRobin::new()).unwrap();
    for (i, id) in ids.iter().enumerate() {
        match id {
            Some(id) => lb.add_backend_with_id(text(id), i),
            None => lb.add_backend(i),
        };
    }
    lb.remove_backend(0);
    lb
}

#[test]
fn metadata_keeps_one_value_per_key() {
    let mut m = Metadata::new();
    m.insert(text("a"), text("1"));
    m.insert(text("b"), text("2"));
    m.insert(text("a"), text("3"));
    assert_eq!(m.len(), 2);
    assert_eq!(m.get("a"), Some("3"));
    assert_eq!(m.get("c"), None);
    assert_eq!(m.entry(1), ("b", "2"));
    let mut n = Metadata::default();
    n.insert(text("b"), text("2"));
    assert!(m != n);
    n.insert(text("a"), text("3"));
    assert!(m == n);
    assert!(m.clone() == n);
    n.insert(text("z"), text("3"));
    assert!(m != n);
}

#[test]
fn descriptors_are_built_up() {
    let d = BackendDescriptor::new(text("id"), text("h:1"))
        .with_tag(text("zone"), text("eu"))
        .with_weight(7)
        .with_health_check(text("h:2"));
    assert_eq!(d.id, "id");
    assert_eq!(d.addr, "h:1");
    assert_eq!(d.metadata.get("zone"), Some("eu"));
    assert_eq!(d.weight, Some(7));
    assert_eq!(d.health_check, Some(text("h:2")));
    let copy = d.clone();
    assert!(copy == d);
    assert!(copy != BackendDescriptor::new(text("id"), text("h:1")));
}

#[test]
fn static_sources_answer_the_same_every_time() {
    let s = StaticDiscovery::from_tuples(vec![
        (text("1"), text("one"), text("a:1")),
        (text("2"), text("two"), text("b:2")),
    ]);
    for _ in 0..2 {
        let found = s.discover().unwrap();
        assert_eq!(found.len(), 2);
        assert_eq!(found[1].id, "2");
        assert_eq!(found[1].addr, "b:2");
    }
    assert_eq!(s.poll_interval(), std::time::Duration::from_secs(30));
    let t = StaticDiscovery::new(described(&["x"])).clone();
    assert_eq!(t.discover().unwrap()[0].id, "x");
}

#[test]
fn reconciling_follows_discovery() {
    let mut lb = pool(&[Some("a"), None, Some("b"), Some("c"), Some("a")]);
    let todo = reconcile(&mut lb, described(&["c", "d", "e"]));
    assert_eq!(todo.retired, vec![0, 2, 4]);
    assert_eq!(lb.backend_ids(), vec![None, Some(text("c"))]);
    let missing: Vec<String> = todo.missing.into_iter().map(|d| d.id).collect();
    assert_eq!(missing, vec!["d", "e"]);
    let created = missing.into_iter().map(|id| (id, Ok(9))).collect();
    adopt(&mut lb, created).unwrap();
    let ids = vec![None, Some(text("c")), Some(text("d")), Some(text("e"))];
    assert_eq!(lb.backend_ids(), ids);
    let todo = reconcile(&mut lb, described(&["c", "d", "e"]));
    assert!(todo.retired.is_empty());
    assert!(todo.missing.is_empty());
    assert_eq!(lb.backend_ids(), ids);
}

#[test]
fn adoption_stops_at_the_first_failure() {
    let mut lb = pool(&[None]);
    let created = vec![
        (text("a"), Ok(1)),
        (text("b"), Err(Error::factory(text("down")))),
        (text("c"), Ok(3)),
    ];
    let e = adopt(&mut lb, created).unwrap_err();
    assert_eq!(e.message(), "backend factory failed: down");
    assert_eq!(lb.backend_ids(), vec![None, Some(text("a"))]);
}

#[test]
fn dns_answers_become_descriptors() {
    let d = DnsDiscovery::new(text("svc.local"), 8080);
    assert_eq!(d.srv_name(), "_http._tcp.svc.local");
    let d = d.with_srv_prefix(text("_minecraft._tcp"));
    assert_eq!(d.srv_name(), "_minecraft._tcp.svc.local");
    let found = d.discover(vec![
        SrvRecord { target: text("host.example.."), port: 443, weight: 5 },
        SrvRecord { target: text("bare"), port: 0, weight: 0 },
    ]);
    assert_eq!(found[0].id, "host.example..:443");
    assert_eq!(found[0].addr, "host.example:443");
    assert_eq!(found[0].weight, Some(5));
    assert_eq!(found[0].metadata.len(), 0);
    assert_eq!(found[1].addr, "bare:8080");
    assert_eq!(found[1].id, "bare:8080");
    assert!(rota_lb::validate_dial_addr(&found[0].addr).is_ok());
}

fn entry(id: &str, address: &str, port: u64, tags: &[&str]) -> ConsulEntry {
    ConsulEntry {
        service_id: Some(text(id)),
        service_address: Some(text(address)),
        service_port: Some(port),
        service_tags: Some(tags.iter().map(|t| text(t)).collect()),
        service_meta: None,
    }
}

#[test]
fn consul_entries_become_descriptors() {
    let mut meta = Metadata::new();
    meta.insert(text("zone"), text("eu"));
    meta.insert(text("tags"), text("overwritten"));
    let mut rich = entry("1", "10.0.0.1", 80, &["a", "b"]);
    rich.service_meta = Some(meta);
    let bare = ConsulEntry {
        service_id: None,
        service_address: Some(text("h")),
        service_port: Some(99999),
        service_tags: None,
        service_meta: None,
    };
    let found = ConsulDiscovery::new(text("web")).discover(vec![rich, bare]);
    assert_eq!(found.len(), 2);
    assert_eq!(found[0].addr, "10.0.0.1:80");
    assert_eq!(found[0].metadata.get("tags"), Some("a,b"));
    assert_eq!(found[0].metadata.get("zone"), Some("eu"));
    assert_eq!(found[0].weight, Some(1));
    assert_eq!(found[1].id, "");
    assert_eq!(found[1].addr, "h:99999");
    assert_eq!(found[1].metadata.get("tags"), None);
}

#[test]
fn unusable_consul_entries_are_skipped() {
    let mut no_address = entry("1", "x", 80, &[]);
    no_address.service_address = None;
    let mut no_port = entry("2", "x", 80, &[]);
    no_port.service_port = None;
    let found = ConsulDiscovery::new(text("web")).discover(vec![
        no_address,
        no_port,
        entry("3", "", 80, &[]),
        entry("4", "x", 0, &[]),
        entry("5", "x", 1, &[]),
    ]);
    assert_eq!(found.len(), 1);
    assert_eq!(found[0].id, "5");
    assert_eq!(found[0].metadata.get("tags"), Some(""));
}

#[test]
fn a_tag_filter_lets_only_that_tag_through() {
    let mut untagged = entry("3", "x", 1, &[]);
    untagged.service_tags = None;
    let d = ConsulDiscovery::new(text("web")).with_tag(text("blue"));
    assert_eq!(d.service_name(), "web");
    let found = d.discover(vec![
        entry("1", "x", 1, &["red", "blue"]),
        entry("2", "x", 1, &["red"]),
        untagged,
    ]);
    assert_eq!(found.len(), 1);
    assert_eq!(found[0].id, "1");
}

#[test]
fn etcd_pairs_become_descriptors() {
    let d = EtcdDiscovery::new(text("/svc/"));
    assert_eq!(d.prefix(), "/svc/");
    let pairs = d
        .decode(vec![EtcdEntry { key: b"/svc/1".to_vec(), value: "é:1".as_bytes().to_vec() }])
        .unwrap();
    assert_eq!(pairs, vec![(text("/svc/1"), text("é:1"))]);
    let found = d.discover(vec![(text("k1"), Some(text("10.0.0.1:80"))), (text("k2"), None)]);
    assert_eq!(found.len(), 1);
    assert_eq!(found[0].id, "k1");
    assert_eq!(found[0].addr, "10.0.0.1:80");
    assert_eq!(found[0].weight, Some(1));
}

#[test]
fn etcd_bytes_must_be_text() {
    let d = EtcdDiscovery::new(text("/"));
    let good = || b"ok".to_vec();
    let e = d.decode(vec![EtcdEntry { key: vec![0xff], value: good() }]).unwrap_err();
    assert_eq!(
        e.message(),
        "backend operation failed: etcd key utf8: invalid utf-8 sequence of 1 bytes from index 0"
    );
    let e = d.decode(vec![EtcdEntry { key: good(), value: vec![b'a', 0xc3] }]).unwrap_err();
    assert_eq!(
        e.message(),
        "backend operation failed: etcd value utf8: incomplete utf-8 byte sequence from index 1"
    );
}
