use kepler::ipv4::Ipv4Addr;
use kepler::nat_table::{NatKey, NatTable, OriginalDest, Protocol};
use kepler::outbound::{redirect_packet, DnsToggle, Interceptor, Step};
use kepler::packet::{
    ipv4_header, read_dst_ip, read_protocol, read_src_ip, read_tcp_flags, stated_header_len,
    u16_from_be,
};
use kepler::tunnel::{restore_packet, ReturnVerdict};
use std::collections::HashSet;

const OWN: u32 = 4242;

fn packet(proto: u8, from: [u8; 4], from_port: u16, to: [u8; 4], to_port: u16, flags: u8) -> Vec<u8> {
    let mut p = vec![0u8; 44];
    p[0] = 0x45;
    p[9] = proto;
    p[12..16].copy_from_slice(&from);
    p[16..20].copy_from_slice(&to);
    p[20..22].copy_from_slice(&from_port.to_be_bytes());
    p[22..24].copy_from_slice(&to_port.to_be_bytes());
    p[33] = flags;
    p[40..44].copy_from_slice(b"data");
    p
}

fn tcp(port: u16, to_port: u16, flags: u8) -> Vec<u8> {
    packet(6, [10, 0, 0, 2], port, [93, 184, 216, 34], to_port, flags)
}

fn udp(port: u16, to_port: u16) -> Vec<u8> {
    packet(17, [10, 0, 0, 2], port, [93, 184, 216, 34], to_port, 0)
}

fn targets(pids: &[u32]) -> HashSet<u32> {
    pids.iter().copied().collect()
}

fn rules(names: &[&str]) -> Vec<String> {
    names.iter().map(|n| n.to_string()).collect()
}

#[test]
fn header_fields_are_read() {
    let p = tcp(0x1234, 443, 0x12);
    assert!(ipv4_header(&p));
    assert_eq!(stated_header_len(&p), 20);
    assert_eq!(read_src_ip(&p), Ipv4Addr::new(10, 0, 0, 2));
    assert_eq!(read_dst_ip(&p), Ipv4Addr::new(93, 184, 216, 34));
    assert_eq!(read_protocol(&p), Some(Protocol::Tcp));
    assert_eq!(read_tcp_flags(&p), 0x12);
    assert_eq!(u16_from_be(p[20], p[21]), 0x1234);
    let u = udp(1, 2);
    assert_eq!(read_protocol(&u), Some(Protocol::Udp));
    assert_eq!(read_tcp_flags(&u), 0);
    let mut v6 = p.clone();
    v6[0] = 0x65;
    assert!(!ipv4_header(&v6));
    assert!(!ipv4_header(&p[..19]));
    assert_eq!(read_tcp_flags(&p[..33]), 0);
}

#[test]
fn packets_that_are_not_judged_pass() {
    let mut ic = Interceptor::new(0);
    ic.refresh(targets(&[7]), 0);
    let p = tcp(1000, 443, 0);
    assert_eq!(ic.begin(&p[..19], 0), Step::Reinject);
    assert_eq!(ic.begin(&p[..23], 0), Step::Reinject);
    let mut v6 = p.clone();
    v6[0] = 0x65;
    assert_eq!(ic.begin(&v6, 0), Step::Reinject);
    let mut icmp = p.clone();
    icmp[9] = 1;
    assert_eq!(ic.begin(&icmp, 0), Step::Reinject);
    let mut long_header = p.clone();
    long_header[0] = 0x4f;
    assert_eq!(ic.begin(&long_header, 0), Step::Reinject);
}

#[test]
fn packets_of_tunneled_processes_are_redirected() {
    let mut ic = Interceptor::new(0);
    ic.refresh(targets(&[7]), 0);
    let p = tcp(1000, 443, 0x02);
    assert_eq!(ic.begin(&p, 1), Step::AskOwner(NatKey::tcp(1000)));
    assert_eq!(ic.owner_found(&p, 1, OWN, Some(7)), Step::Redirect);
    let u = udp(1000, 443);
    assert_eq!(ic.begin(&u, 1), Step::AskOwner(NatKey::udp(1000)));
    assert_eq!(ic.owner_found(&u, 1, OWN, Some(7)), Step::Redirect);
}

#[test]
fn packets_to_this_machine_pass() {
    let mut ic = Interceptor::new(0);
    ic.refresh(targets(&[7]), 0);
    let p = packet(6, [10, 0, 0, 2], 1000, [127, 0, 0, 1], 443, 0x02);
    assert_eq!(ic.begin(&p, 1), Step::AskOwner(NatKey::tcp(1000)));
    assert_eq!(ic.owner_found(&p, 1, OWN, Some(7)), Step::Reinject);
}

#[test]
fn owner_of_a_port_is_asked_for_once() {
    let mut ic = Interceptor::new(0);
    ic.refresh(targets(&[7]), 0);
    let syn = tcp(1000, 443, 0x02);
    assert_eq!(ic.begin(&syn, 1), Step::AskOwner(NatKey::tcp(1000)));
    assert_eq!(ic.owner_found(&syn, 1, OWN, Some(7)), Step::Redirect);
    let ack = tcp(1000, 443, 0x10);
    assert_eq!(ic.begin(&ack, 2), Step::Redirect);
    // A new connection from the port may have another owner.
    assert_eq!(ic.begin(&syn, 3), Step::AskOwner(NatKey::tcp(1000)));
    // The last packet of the connection ends what is known.
    let fin = tcp(1000, 443, 0x11);
    assert_eq!(ic.begin(&fin, 4), Step::Redirect);
    assert_eq!(ic.begin(&ack, 5), Step::AskOwner(NatKey::tcp(1000)));
    // TCP and UDP ports are kept apart.
    assert_eq!(ic.begin(&udp(1000, 443), 6), Step::AskOwner(NatKey::udp(1000)));
}

#[test]
fn unowned_ports_are_remembered_as_such() {
    let mut ic = Interceptor::new(0);
    ic.refresh(targets(&[7]), 0);
    let p = tcp(1000, 443, 0x10);
    assert_eq!(ic.begin(&p, 1), Step::AskOwner(NatKey::tcp(1000)));
    assert_eq!(ic.owner_found(&p, 1, OWN, None), Step::Reinject);
    assert_eq!(ic.begin(&p, 2), Step::Reinject);
}

#[test]
fn packets_of_this_process_pass() {
    let mut ic = Interceptor::new(0);
    ic.refresh(targets(&[7]), 0);
    let p = tcp(1000, 443, 0x10);
    assert_eq!(ic.begin(&p, 1), Step::AskOwner(NatKey::tcp(1000)));
    assert_eq!(ic.owner_found(&p, 1, OWN, Some(OWN)), Step::Reinject);
    assert_eq!(ic.begin(&p, 2), Step::Reinject);
    let q = udp(1001, 53);
    assert_eq!(ic.begin(&q, 1), Step::AskOwner(NatKey::udp(1001)));
    assert_eq!(ic.owner_found(&q, 1, OWN, Some(OWN)), Step::Reinject);
}

#[test]
fn queries_of_every_other_process_are_redirected() {
    let mut ic = Interceptor::new(0);
    for (p, key) in
        [(udp(1001, 53), NatKey::udp(1001)), (tcp(1001, 53, 0x10), NatKey::tcp(1001))]
    {
        assert_eq!(ic.begin(&p, 1), Step::AskOwner(key));
        assert_eq!(ic.owner_found(&p, 1, OWN, Some(99)), Step::Redirect);
        assert_eq!(ic.begin(&p, 2), Step::AskOwner(key));
        assert_eq!(ic.owner_found(&p, 2, OWN, None), Step::Redirect);
    }
}

#[test]
fn rules_add_processes() {
    let mut ic = Interceptor::new(0);
    let mut active = targets(&[]);
    let p = tcp(1000, 443, 0x02);
    let chrome = Some(("Chrome.EXE".to_string(), "C:\\Apps\\chrome.exe".to_string()));
    assert_eq!(ic.begin(&p, 1), Step::AskOwner(NatKey::tcp(1000)));
    assert_eq!(ic.owner_found(&p, 1, OWN, Some(8)), Step::AskProcess(8));
    assert_eq!(
        ic.process_found(&p, 8, &chrome, &rules(&["firefox"]), &mut active),
        Step::Reinject
    );
    assert!(active.is_empty());
    assert_eq!(ic.process_found(&p, 8, &None, &rules(&["chrome"]), &mut active), Step::Reinject);
    assert_eq!(
        ic.process_found(&p, 8, &chrome, &rules(&["firefox", "CHROME"]), &mut active),
        Step::Redirect
    );
    assert_eq!(active, targets(&[8]));
    // From now on the process is tunneled without a question for its name.
    let q = udp(2000, 443);
    assert_eq!(ic.begin(&q, 2), Step::AskOwner(NatKey::udp(2000)));
    assert_eq!(ic.owner_found(&q, 2, OWN, Some(8)), Step::Redirect);
}

#[test]
fn copy_of_the_tunneled_processes_is_renewed() {
    let mut ic = Interceptor::new(0);
    assert!(ic.refresh_due(0));
    ic.refresh(targets(&[7]), 0);
    assert!(!ic.refresh_due(199_999_999));
    assert!(ic.refresh_due(200_000_000));
    let p = udp(1000, 443);
    assert_eq!(ic.begin(&p, 1), Step::AskOwner(NatKey::udp(1000)));
    assert_eq!(ic.owner_found(&p, 1, OWN, Some(7)), Step::Redirect);
    ic.refresh(targets(&[]), 300_000_000);
    assert_eq!(ic.begin(&p, 300_000_001), Step::Reinject);
}

#[test]
fn idle_ports_are_forgotten() {
    let second: u64 = 1_000_000_000;
    let mut ic = Interceptor::new(0);
    ic.refresh(targets(&[7]), 0);
    let t = tcp(1000, 443, 0x10);
    let u = udp(1000, 443);
    ic.begin(&t, 0);
    ic.owner_found(&t, 0, OWN, Some(7));
    ic.begin(&u, 0);
    ic.owner_found(&u, 0, OWN, Some(7));
    ic.clean(9 * second);
    ic.clean(29 * second);
    assert_eq!(ic.begin(&u, 29 * second), Step::Redirect);
    ic.clean(30 * second);
    ic.clean(59 * second);
    assert_eq!(ic.begin(&u, 59 * second), Step::AskOwner(NatKey::udp(1000)));
    assert_eq!(ic.begin(&t, 59 * second), Step::Redirect);
    ic.clean(358 * second);
    assert_eq!(ic.begin(&t, 358 * second), Step::Redirect);
    ic.clean(658 * second);
    assert_eq!(ic.begin(&t, 658 * second), Step::AskOwner(NatKey::tcp(1000)));
}

#[test]
fn tcp_packet_goes_to_the_proxy_and_back() {
    let mut flows = NatTable::new();
    let mut dns = DnsToggle::new();
    let mut p = tcp(1000, 443, 0x02);
    let before = p.clone();
    assert!(redirect_packet(&mut p, &mut flows, &mut dns, 5));
    let expected = packet(6, [10, 0, 0, 2], 1000, [10, 0, 0, 2], 1080, 0x02);
    assert_eq!(p, expected);
    assert_eq!(
        flows.lookup(&NatKey::tcp(1000)),
        Some(OriginalDest::new(Ipv4Addr::new(93, 184, 216, 34), 443, Ipv4Addr::new(10, 0, 0, 2), 5))
    );
    assert!(dns.use_primary);

    let mut r = packet(6, [10, 0, 0, 2], 1080, [10, 0, 0, 2], 1000, 0x12);
    assert_eq!(restore_packet(&mut r, &mut flows, 9), ReturnVerdict::Restored);
    assert_eq!(r, packet(6, [93, 184, 216, 34], 443, [10, 0, 0, 2], 1000, 0x12));
    assert_eq!(read_src_ip(&r), read_dst_ip(&before));
    assert_eq!(flows.lookup(&NatKey::tcp(1000)).unwrap().last_seen, 9);
}

#[test]
fn queries_go_to_two_servers_in_turn() {
    let mut flows = NatTable::new();
    let mut dns = DnsToggle::new();
    for (port, server) in
        [(1u16, Ipv4Addr::new(1, 1, 1, 1)), (2, Ipv4Addr::new(1, 0, 0, 1)), (3, Ipv4Addr::new(1, 1, 1, 1))]
    {
        let mut p = packet(17, [10, 0, 0, 2], port, [192, 168, 1, 1], 53, 0);
        assert!(redirect_packet(&mut p, &mut flows, &mut dns, 0));
        assert_eq!(p, packet(17, [10, 0, 0, 2], port, [10, 0, 0, 2], 1081, 0));
        let d = flows.lookup(&NatKey::udp(port)).unwrap();
        assert_eq!(d.ip, server);
        assert_eq!(d.port, 53);
        assert_eq!(d.dns_restore_ip, Some(Ipv4Addr::new(192, 168, 1, 1)));
        // The answer seems to come from the resolver that was asked.
        let mut r = packet(17, [10, 0, 0, 2], 1081, [10, 0, 0, 2], port, 0);
        assert_eq!(restore_packet(&mut r, &mut flows, 1), ReturnVerdict::Restored);
        assert_eq!(r, packet(17, [192, 168, 1, 1], 53, [10, 0, 0, 2], port, 0));
    }
}

#[test]
fn packets_that_cannot_be_turned_are_left_alone() {
    let mut flows = NatTable::new();
    let mut dns = DnsToggle::new();
    let mut icmp = packet(1, [10, 0, 0, 2], 1, [9, 9, 9, 9], 53, 0);
    let before = icmp.clone();
    assert!(!redirect_packet(&mut icmp, &mut flows, &mut dns, 0));
    assert_eq!(icmp, before);
    assert_eq!(flows.len(), 0);
    assert!(dns.use_primary);
}

#[test]
fn the_end_of_a_connection_ends_its_flow() {
    for flags in [0x01u8, 0x04, 0x11, 0x14] {
        let mut flows = NatTable::new();
        let mut dns = DnsToggle::new();
        redirect_packet(&mut tcp(1000, 443, 0x02), &mut flows, &mut dns, 0);
        redirect_packet(&mut tcp(1001, 443, 0x02), &mut flows, &mut dns, 0);
        let mut r = packet(6, [10, 0, 0, 2], 1080, [10, 0, 0, 2], 1000, flags);
        assert_eq!(restore_packet(&mut r, &mut flows, 1), ReturnVerdict::Restored);
        assert_eq!(flows.lookup(&NatKey::tcp(1000)), None);
        assert!(flows.lookup(&NatKey::tcp(1001)).is_some());
    }
}

#[test]
fn foreign_return_packets_pass() {
    let mut flows = NatTable::new();
    let mut other = packet(6, [10, 0, 0, 2], 1080, [10, 0, 0, 3], 1000, 0x10);
    let before = other.clone();
    assert_eq!(restore_packet(&mut other, &mut flows, 1), ReturnVerdict::PassThrough);
    assert_eq!(other, before);
    let mut icmp = packet(1, [10, 0, 0, 2], 1080, [10, 0, 0, 2], 1000, 0);
    assert_eq!(restore_packet(&mut icmp, &mut flows, 1), ReturnVerdict::PassThrough);
    let mut short = packet(6, [10, 0, 0, 2], 1080, [10, 0, 0, 2], 1000, 0);
    assert_eq!(restore_packet(&mut short[..22], &mut flows, 1), ReturnVerdict::PassThrough);
    assert_eq!(restore_packet(&mut short[..10], &mut flows, 1), ReturnVerdict::PassThrough);
    let mut unknown = packet(6, [10, 0, 0, 2], 1080, [10, 0, 0, 2], 1000, 0x10);
    let before = unknown.clone();
    assert_eq!(restore_packet(&mut unknown, &mut flows, 1), ReturnVerdict::NoEntry);
    assert_eq!(unknown, before);
}

#[test]
fn other_packets_do_not_change_the_turn_of_the_servers() {
    let mut flows = NatTable::new();
    let mut dns = DnsToggle::new();
    redirect_packet(&mut udp(1, 53), &mut flows, &mut dns, 0);
    redirect_packet(&mut tcp(2, 443, 0), &mut flows, &mut dns, 0);
    redirect_packet(&mut packet(1, [10, 0, 0, 2], 1, [9, 9, 9, 9], 53, 0), &mut flows, &mut dns, 0);
    redirect_packet(&mut tcp(3, 53, 0), &mut flows, &mut dns, 0);
    redirect_packet(&mut udp(4, 53), &mut flows, &mut dns, 0);
    let server = |key: NatKey| flows.lookup(&key).unwrap().ip;
    assert_eq!(server(NatKey::udp(1)), Ipv4Addr::new(1, 1, 1, 1));
    assert_eq!(server(NatKey::tcp(3)), Ipv4Addr::new(1, 0, 0, 1));
    assert_eq!(server(NatKey::udp(4)), Ipv4Addr::new(1, 1, 1, 1));
}
