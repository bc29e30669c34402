use kepler::ipv4::Ipv4Addr;
use kepler::nat_table::{NatKey, NatTable, OriginalDest};
use kepler::proxy::{
    client_payload, dial_tcp, plan_tcp, relayed, tcp_dialed, tcp_request, udp_destination,
    udp_request, Datagram, NatGuard, TcpDial, TcpRoute, TcpStep, UdpBackend, UdpRoute,
    UdpSessionManager,
};
use kepler::socks5::{Client, Next, Socks5Error, UdpAssociation};
use kepler::state::ProxyConfig;

const SECOND: u64 = 1_000_000_000;

fn far() -> Ipv4Addr {
    Ipv4Addr::new(93, 184, 216, 34)
}

fn relay() -> UdpBackend {
    UdpBackend::Socks5 { relay_ip: Ipv4Addr::new(7, 7, 7, 7), relay_port: 700 }
}

fn flows() -> NatTable {
    let mut t = NatTable::new();
    t.insert(NatKey::tcp(1), OriginalDest::new(far(), 443, Ipv4Addr::new(10, 0, 0, 2), 0));
    t.insert(NatKey::udp(2), OriginalDest::new(far(), 500, Ipv4Addr::new(10, 0, 0, 2), 0));
    t
}

fn config(enabled: bool, host: &str) -> ProxyConfig {
    ProxyConfig { enabled, host: host.into(), port: 9050, username: None, password: None }
}

#[test]
fn connections_go_to_their_destination() {
    let t = flows();
    let direct = TcpRoute { ip: far(), port: 443, proxy: None };
    assert_eq!(plan_tcp(&t, &config(false, "h"), 1), Some(direct));
    let direct = TcpRoute { ip: far(), port: 443, proxy: None };
    assert_eq!(plan_tcp(&t, &config(true, ""), 1), Some(direct));
    let proxied = TcpRoute { ip: far(), port: 443, proxy: Some("h:9050".into()) };
    assert_eq!(plan_tcp(&t, &config(true, "h"), 1), Some(proxied));
    assert_eq!(plan_tcp(&t, &config(true, "h"), 2), None);
}

#[test]
fn datagrams_have_a_destination_if_their_flow_is_known() {
    let t = flows();
    assert_eq!(udp_destination(&t, 2), Some((far(), 500)));
    assert_eq!(udp_destination(&t, 1), None);
}

#[test]
fn a_guard_takes_its_flow_out_once() {
    let mut t = flows();
    let mut g = NatGuard::new(NatKey::tcp(1));
    g.release(&mut t);
    assert_eq!(t.lookup(&NatKey::tcp(1)), None);
    assert!(t.lookup(&NatKey::udp(2)).is_some());
    let again = OriginalDest::new(far(), 80, far(), 1);
    t.insert(NatKey::tcp(1), again);
    g.release(&mut t);
    assert_eq!(t.lookup(&NatKey::tcp(1)), Some(again));
}

#[test]
fn queries_need_no_session() {
    let mut m = UdpSessionManager::new();
    let c = config(true, "h");
    assert_eq!(m.route(2, far(), 53, b"q", &c, 0), UdpRoute::Dns(far()));
    m.opened(2, relay(), far(), 500, b"x", 0);
    assert_eq!(m.route(2, far(), 53, b"q", &c, 40 * SECOND), UdpRoute::Dns(far()));
    // The query has not kept the session alive.
    assert_eq!(m.reap(40 * SECOND), vec![2]);
}

#[test]
fn sessions_are_opened_directly_or_through_the_proxy() {
    let mut m = UdpSessionManager::new();
    assert_eq!(m.route(2, far(), 500, b"x", &config(false, "h"), 0), UdpRoute::Open(None));
    assert_eq!(m.route(2, far(), 500, b"x", &config(true, ""), 0), UdpRoute::Open(None));
    assert_eq!(
        m.route(2, far(), 500, b"x", &config(true, "h"), 0),
        UdpRoute::Open(Some("h:9050".into()))
    );
}

#[test]
fn a_direct_session_sends_as_is() {
    let mut m = UdpSessionManager::new();
    let out = Datagram { ip: far(), port: 500, data: b"x".to_vec() };
    assert_eq!(m.opened(2, UdpBackend::Direct, far(), 500, b"x", 0), out);
    let c = config(true, "h");
    let next = Datagram { ip: far(), port: 501, data: b"yz".to_vec() };
    assert_eq!(m.route(2, far(), 501, b"yz", &c, 1), UdpRoute::Send(next));
    assert_eq!(client_payload(UdpBackend::Direct, b"abc"), Some(&b"abc"[..]));
}

#[test]
fn a_relayed_session_wraps_and_unwraps() {
    let mut m = UdpSessionManager::new();
    let mut wrapped = vec![0, 0, 0, 1, 93, 184, 216, 34, 1, 244];
    wrapped.push(b'x');
    let out = Datagram { ip: Ipv4Addr::new(7, 7, 7, 7), port: 700, data: wrapped.clone() };
    assert_eq!(m.opened(2, relay(), far(), 500, b"x", 0), out);
    let again = Datagram { ip: Ipv4Addr::new(7, 7, 7, 7), port: 700, data: wrapped.clone() };
    assert_eq!(m.route(2, far(), 500, b"x", &config(false, ""), 1), UdpRoute::Send(again));
    assert_eq!(client_payload(relay(), &wrapped), Some(&b"x"[..]));
    assert_eq!(client_payload(relay(), b"short"), None);
    wrapped[3] = 3;
    assert_eq!(client_payload(relay(), &wrapped), None);
}

#[test]
fn idle_sessions_are_reaped() {
    let mut m = UdpSessionManager::new();
    m.opened(1, UdpBackend::Direct, far(), 500, b"", 0);
    m.opened(2, UdpBackend::Direct, far(), 500, b"", 0);
    m.opened(3, UdpBackend::Direct, far(), 500, b"", 10 * SECOND);
    assert_eq!(m.reap(30 * SECOND), Vec::<u16>::new());
    m.route(2, far(), 500, b"", &config(false, ""), 20 * SECOND);
    assert_eq!(m.reap(30 * SECOND + 1), vec![1]);
    assert_eq!(m.reap(40 * SECOND + 1), vec![3]);
    assert!(matches!(
        m.route(2, far(), 500, b"", &config(false, ""), 45 * SECOND),
        UdpRoute::Send(_)
    ));
    assert!(matches!(
        m.route(1, far(), 500, b"", &config(false, ""), 45 * SECOND),
        UdpRoute::Open(None)
    ));
}

#[test]
fn shutdown_ends_every_session() {
    let mut m = UdpSessionManager::new();
    for port in [5u16, 6, 7] {
        m.opened(port, UdpBackend::Direct, far(), 500, b"", 0);
    }
    let mut ports = m.drain();
    ports.sort();
    assert_eq!(ports, vec![5, 6, 7]);
    assert_eq!(m.drain(), Vec::<u16>::new());
}

/// The bytes of a greeting, of the answer to a server that asks for a password, and of the request.
fn carried_through((mut client, first): (Client, Next)) -> Vec<Vec<u8>> {
    let mut sent = Vec::new();
    for step in [first, client.resume(&[5, 2]), client.resume(&[1, 0])] {
        if let Next::Exchange { send, .. } = step {
            sent.push(send);
        }
    }
    sent
}

fn with_password() -> ProxyConfig {
    ProxyConfig { username: Some("me".into()), password: Some("pw".into()), ..config(true, "h") }
}

const PASSWORD: &[u8] = b"\x01\x02me\x02pw";

#[test]
fn a_proxied_connection_is_asked_for_with_the_password() {
    let route = TcpRoute { ip: far(), port: 443, proxy: Some("h:9050".into()) };
    let expected = vec![
        vec![5, 2, 0, 2],
        PASSWORD.to_vec(),
        vec![5, 1, 0, 1, 93, 184, 216, 34, 1, 187],
    ];
    assert_eq!(carried_through(tcp_request(&route, &with_password())), expected);
    match dial_tcp(&flows(), &with_password(), 1) {
        Some(TcpDial::Proxied { ip, port, addr, client, first }) => {
            assert_eq!((ip, port), (far(), 443));
            assert_eq!(addr, "h:9050");
            assert_eq!(carried_through((client, first)), expected);
        }
        _ => panic!("the proxy is not used"),
    }
}

#[test]
fn a_connection_without_a_proxy_is_dialed_straight() {
    for c in [config(false, "h"), config(true, "")] {
        match dial_tcp(&flows(), &c, 1) {
            Some(TcpDial::Direct { ip, port }) => assert_eq!((ip, port), (far(), 443)),
            _ => panic!("not direct"),
        }
    }
    assert!(dial_tcp(&flows(), &with_password(), 2).is_none());
}

#[test]
fn a_failed_dial_ends_the_connection() {
    let mut t = flows();
    let mut g = NatGuard::new(NatKey::tcp(1));
    assert_eq!(tcp_dialed(true, &mut g, &mut t), TcpStep::Forward);
    assert!(t.lookup(&NatKey::tcp(1)).is_some());
    assert_eq!(tcp_dialed(false, &mut g, &mut t), TcpStep::End);
    assert_eq!(t.lookup(&NatKey::tcp(1)), None);
    assert!(t.lookup(&NatKey::udp(2)).is_some());
}

#[test]
fn a_relay_is_asked_for_with_the_password() {
    assert_eq!(
        carried_through(udp_request(&with_password())),
        vec![vec![5, 2, 0, 2], PASSWORD.to_vec(), vec![5, 3, 0, 1, 0, 0, 0, 0, 0, 0]]
    );
}

#[test]
fn a_session_needs_its_relay() {
    let relay_ip = Ipv4Addr::new(7, 7, 7, 7);
    assert_eq!(relayed(&Ok(UdpAssociation { relay_ip, relay_port: 700 })), Some(relay()));
    assert_eq!(relayed(&Err(Socks5Error::AuthFailed)), None);
}
