use kepler::ipv4::Ipv4Addr;
use kepler::nat_table::{NatKey, NatTable, OriginalDest, Protocol};

fn dest(last: u8, now: u64) -> OriginalDest {
    OriginalDest::new(Ipv4Addr::new(93, 184, 216, last), 443, Ipv4Addr::new(10, 0, 0, 2), now)
}

#[test]
fn keys_hold_protocol_and_port() {
    assert_eq!(NatKey::tcp(5), NatKey { protocol: Protocol::Tcp, src_port: 5 });
    assert_eq!(NatKey::udp(5), NatKey { protocol: Protocol::Udp, src_port: 5 });
    assert_ne!(NatKey::tcp(5), NatKey::udp(5));
}

#[test]
fn new_destination_has_no_resolver() {
    let d = dest(34, 7);
    assert_eq!(d.dns_restore_ip, None);
    assert_eq!(d.last_seen, 7);
    assert_eq!(d.port, 443);
    assert_eq!(d.src_ip, Ipv4Addr::new(10, 0, 0, 2));
}

#[test]
fn entries_are_found_by_protocol_and_port() {
    let mut t = NatTable::new();
    assert_eq!(t.len(), 0);
    assert_eq!(t.lookup(&NatKey::tcp(1)), None);
    t.insert(NatKey::tcp(1), dest(1, 0));
    t.insert(NatKey::udp(1), dest(2, 0));
    t.insert(NatKey::tcp(2), dest(3, 0));
    assert_eq!(t.len(), 3);
    assert_eq!(t.lookup(&NatKey::tcp(1)), Some(dest(1, 0)));
    assert_eq!(t.lookup(&NatKey::udp(1)), Some(dest(2, 0)));
    assert_eq!(t.lookup(&NatKey::udp(2)), None);
    t.insert(NatKey::tcp(1), dest(9, 5));
    assert_eq!(t.len(), 3);
    assert_eq!(t.lookup(&NatKey::tcp(1)), Some(dest(9, 5)));
}

#[test]
fn removal_gives_what_stood_there() {
    let mut t = NatTable::new();
    t.insert(NatKey::tcp(1), dest(1, 0));
    t.insert(NatKey::udp(1), dest(2, 0));
    assert_eq!(t.remove(&NatKey::tcp(1)), Some(dest(1, 0)));
    assert_eq!(t.remove(&NatKey::tcp(1)), None);
    assert_eq!(t.lookup(&NatKey::udp(1)), Some(dest(2, 0)));
    assert_eq!(t.len(), 1);
}

#[test]
fn touch_renews_only_known_flows() {
    let mut t = NatTable::new();
    t.insert(NatKey::udp(1), dest(2, 10));
    t.touch(&NatKey::udp(1), 50);
    t.touch(&NatKey::udp(2), 50);
    assert_eq!(t.lookup(&NatKey::udp(1)), Some(dest(2, 50)));
    assert_eq!(t.lookup(&NatKey::udp(2)), None);
    assert_eq!(t.len(), 1);
}

#[test]
fn reaping_takes_old_udp_flows_only() {
    let mut t = NatTable::new();
    t.insert(NatKey::tcp(1), dest(1, 0));
    t.insert(NatKey::udp(2), dest(2, 0));
    t.insert(NatKey::udp(3), dest(3, 100));
    t.insert(NatKey::udp(4), dest(4, 50));
    t.reap_stale(150, 200);
    assert_eq!(t.lookup(&NatKey::tcp(1)), Some(dest(1, 0)));
    assert_eq!(t.lookup(&NatKey::udp(2)), None);
    assert_eq!(t.lookup(&NatKey::udp(3)), Some(dest(3, 100)));
    assert_eq!(t.lookup(&NatKey::udp(4)), Some(dest(4, 50)));
    assert_eq!(t.len(), 3);
}

#[test]
fn a_touched_flow_outlives_the_reaper() {
    let mut t = NatTable::new();
    t.insert(NatKey::udp(2), dest(2, 0));
    t.touch(&NatKey::udp(2), 100);
    t.reap_stale(120, 220);
    assert_eq!(t.lookup(&NatKey::udp(2)), Some(dest(2, 100)));
    t.reap_stale(120, 221);
    assert_eq!(t.lookup(&NatKey::udp(2)), None);
}

#[test]
fn an_entry_from_the_future_is_not_stale() {
    let mut t = NatTable::new();
    t.insert(NatKey::udp(2), dest(2, 500));
    t.reap_stale(0, 100);
    assert_eq!(t.len(), 1);
}

#[test]
fn clearing_leaves_nothing() {
    let mut t = NatTable::new();
    t.insert(NatKey::tcp(1), dest(1, 0));
    t.insert(NatKey::udp(2), dest(2, 0));
    t.clear();
    assert_eq!(t.len(), 0);
    assert_eq!(t.lookup(&NatKey::tcp(1)), None);
}
