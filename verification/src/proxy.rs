//! The local proxies: where a redirected connection or datagram goes on to.
use crate::ipv4::Ipv4Addr;
use crate::nat_table::{elapsed, NatKey, NatTable, OriginalDest, Protocol};
use crate::outbound::{flow_dest, flow_key, is_candidate, is_dns, DNS_PORT};
use crate::packet::{dst_ip, dst_port, protocol_of, src_port};
use crate::socks5::{
    decapsulate_udp, decapsulation_undoes_encapsulation, encapsulate_udp, encapsulated,
    has_udp_header, Client, Command, Next, Socks5Error, UdpAssociation,
};
use crate::state::ProxyConfig;
use std::collections::HashMap;
use vstd::prelude::*;

verus! {

broadcast use vstd::std_specs::hash::group_hash_axioms;

/// How long a datagram session may be idle, in nanoseconds.
pub const SESSION_IDLE: u64 = 30_000_000_000;

/// Where a connection goes on to.
#[derive(Debug, PartialEq, Eq)]
pub struct TcpRoute {
    pub ip: Ipv4Addr,
    pub port: u16,
    /// The address of the proxy that it goes through, if it does.
    pub proxy: Option<String>,
}

/// Whether `proxy` is the address of the proxy if one is in use, and none otherwise.
pub open spec fn is_proxy_choice(config: ProxyConfig, proxy: Option<String>) -> bool {
    if config.in_use() {
        proxy matches Some(addr) && addr@ == config.addr_text()
    } else {
        proxy is None
    }
}

fn choose_proxy(config: &ProxyConfig) -> (r: Option<String>)
    ensures
        is_proxy_choice(*config, r),
{
    if config.uses_proxy() {
        Some(config.addr())
    } else {
        None
    }
}

/// Where the connection from a port goes on to; nowhere if its flow is not known.
pub fn plan_tcp(flows: &NatTable, config: &ProxyConfig, peer_port: u16) -> (r: Option<TcpRoute>)
    ensures
        match flows@.get(NatKey { protocol: Protocol::Tcp, src_port: peer_port }) {
            Some(dest) => {
                &&& r matches Some(route)
                &&& route.ip == dest.ip
                &&& route.port == dest.port
                &&& is_proxy_choice(*config, route.proxy)
            },
            None => r is None,
        },
{
    match flows.lookup(&NatKey::tcp(peer_port)) {
        Some(dest) => Some(
            TcpRoute { ip: dest.ip, port: dest.port, proxy: choose_proxy(config) },
        ),
        None => None,
    }
}

/// Begins the request for a connection that goes through the proxy.
pub fn tcp_request(route: &TcpRoute, config: &ProxyConfig) -> (r: (Client, Next))
    ensures
        config.requests(r, Command::Connect { ip: route.ip, port: route.port }),
{
    config.request(Command::Connect { ip: route.ip, port: route.port })
}

/// The one connection that is made for a redirected one.
pub enum TcpDial {
    /// To the destination.
    Direct { ip: Ipv4Addr, port: u16 },
    /// To the proxy with this address, where the request for the destination is then carried
    /// through.
    Proxied { ip: Ipv4Addr, port: u16, addr: String, client: Client, first: Next },
}

/// Whether `dial` is how a destination is reached: through the proxy if one is in use, with what is
/// set for it, and otherwise straight.
pub open spec fn is_dial(dial: TcpDial, config: ProxyConfig, dest: OriginalDest) -> bool {
    match dial {
        TcpDial::Direct { ip, port } => {
            &&& !config.in_use()
            &&& ip == dest.ip
            &&& port == dest.port
        },
        TcpDial::Proxied { ip, port, addr, client, first } => {
            &&& config.in_use()
            &&& ip == dest.ip
            &&& port == dest.port
            &&& addr@ == config.addr_text()
            &&& config.requests(
                (client, first),
                Command::Connect { ip: dest.ip, port: dest.port },
            )
        },
    }
}

/// How the destination of the connection from a port is reached; not at all if its flow is not
/// known.
pub fn dial_tcp(flows: &NatTable, config: &ProxyConfig, peer_port: u16) -> (r: Option<TcpDial>)
    ensures
        match flows@.get(NatKey { protocol: Protocol::Tcp, src_port: peer_port }) {
            Some(dest) => r matches Some(dial) && is_dial(dial, *config, dest),
            None => r is None,
        },
{
    match plan_tcp(flows, config, peer_port) {
        None => None,
        Some(route) => {
            let (client, first) = tcp_request(&route, config);
            let (ip, port) = (route.ip, route.port);
            match route.proxy {
                Some(addr) => Some(TcpDial::Proxied { ip, port, addr, client, first }),
                None => Some(TcpDial::Direct { ip, port }),
            }
        },
    }
}

/// Takes the flow of a connection out when the connection ends, and once only: the port may by then
/// have a new flow.
#[derive(Debug)]
pub struct NatGuard {
    key: NatKey,
    removed: bool,
}

impl NatGuard {
    /// The flow that the guard is for.
    pub closed spec fn key(&self) -> NatKey {
        self.key
    }

    /// Whether the flow was taken out.
    pub closed spec fn removed(&self) -> bool {
        self.removed
    }

    /// A guard for a flow.
    pub fn new(key: NatKey) -> (r: NatGuard)
        ensures
            r.key() == key,
            !r.removed(),
    {
        NatGuard { key, removed: false }
    }

    /// Takes the flow out, unless that was done.
    pub fn release(&mut self, flows: &mut NatTable)
        ensures
            final(self).key() == old(self).key(),
            final(self).removed(),
            final(flows)@ == released(old(flows)@, old(self).key(), old(self).removed()),
    {
        if !self.removed {
            self.removed = true;
            flows.remove(&self.key);
        }
    }
}

/// The flows after a guard is released.
pub open spec fn released(
    flows: Map<NatKey, OriginalDest>,
    key: NatKey,
    removed: bool,
) -> Map<NatKey, OriginalDest> {
    if removed {
        flows
    } else {
        flows.remove(key)
    }
}

/// What follows when a connection was dialed.
#[derive(Debug, Clone, Copy, PartialEq, Eq, Structural)]
pub enum TcpStep {
    /// What either end sends is handed to the other.
    Forward,
    /// The connection is given up.
    End,
}

/// What follows when a connection was dialed, and whether that succeeded: if not, there is no second
/// attempt, and the flow is taken out.
pub fn tcp_dialed(connected: bool, guard: &mut NatGuard, flows: &mut NatTable) -> (r: TcpStep)
    ensures
        final(guard).key() == old(guard).key(),
        connected ==> {
            &&& r == TcpStep::Forward
            &&& final(guard).removed() == old(guard).removed()
            &&& final(flows)@ == old(flows)@
        },
        !connected ==> {
            &&& r == TcpStep::End
            &&& final(guard).removed()
            &&& final(flows)@ == released(old(flows)@, old(guard).key(), old(guard).removed())
        },
{
    if connected {
        TcpStep::Forward
    } else {
        guard.release(flows);
        TcpStep::End
    }
}

/// How the datagrams of a session travel.
#[derive(Debug, Clone, Copy, PartialEq, Eq)]
pub enum UdpBackend {
    /// To their destinations.
    Direct,
    /// To the relay of a proxy.
    Socks5 { relay_ip: Ipv4Addr, relay_port: u16 },
}

/// The datagrams from one port.
#[derive(Debug, Clone, Copy, PartialEq, Eq)]
pub struct UdpSession {
    pub backend: UdpBackend,
    /// When the port last sent, in nanoseconds of a monotonic clock.
    pub last_activity: u64,
}

/// A datagram to be sent.
#[derive(Debug, PartialEq, Eq)]
pub struct Datagram {
    pub ip: Ipv4Addr,
    pub port: u16,
    pub data: Vec<u8>,
}

/// What follows for a datagram.
#[derive(Debug, PartialEq, Eq)]
pub enum UdpRoute {
    /// It is a query, and goes to this server from a socket of its own, which takes one answer.
    Dns(Ipv4Addr),
    /// It goes out in its session.
    Send(Datagram),
    /// A session is to be opened first, through the proxy with this address if there is one.
    Open(Option<String>),
}

/// Whether `out` is the datagram for `data`, on its way to a destination.
pub open spec fn carries(
    out: Datagram,
    backend: UdpBackend,
    ip: Ipv4Addr,
    port: u16,
    data: Seq<u8>,
) -> bool {
    match backend {
        UdpBackend::Direct => out.ip == ip && out.port == port && out.data@ == data,
        UdpBackend::Socks5 { relay_ip, relay_port } => {
            &&& out.ip == relay_ip
            &&& out.port == relay_port
            &&& out.data@ == encapsulated(ip, port, data)
        },
    }
}

fn outgoing(backend: UdpBackend, ip: Ipv4Addr, port: u16, data: &[u8]) -> (r: Datagram)
    ensures
        carries(r, backend, ip, port, data@),
{
    match backend {
        UdpBackend::Direct => {
            let mut copy: Vec<u8> = Vec::new();
            copy.extend_from_slice(data);
            assert(copy@ =~= data@);
            Datagram { ip, port, data: copy }
        },
        UdpBackend::Socks5 { relay_ip, relay_port } => Datagram {
            ip: relay_ip,
            port: relay_port,
            data: encapsulate_udp(ip, port, data),
        },
    }
}

/// What the client gets of a datagram that came back.
pub open spec fn client_part(backend: UdpBackend, received: Seq<u8>) -> Option<Seq<u8>> {
    match backend {
        UdpBackend::Direct => Some(received),
        UdpBackend::Socks5 { .. } => if has_udp_header(received) {
            Some(received.skip(10))
        } else {
            None
        },
    }
}

/// What the client gets of a datagram that came back: from a relay, what stands behind the header,
/// and nothing if the header cannot be read.
pub fn client_payload(backend: UdpBackend, received: &[u8]) -> (r: Option<&[u8]>)
    ensures
        r is Some <==> client_part(backend, received@) is Some,
        r matches Some(payload) ==> payload@ == client_part(backend, received@)->0,
{
    match backend {
        UdpBackend::Direct => Some(received),
        UdpBackend::Socks5 { .. } => match decapsulate_udp(received) {
            Some((_, _, payload)) => Some(payload),
            None => None,
        },
    }
}

/// Where the datagrams from a port go; nowhere if its flow is not known.
pub fn udp_destination(flows: &NatTable, peer_port: u16) -> (r: Option<(Ipv4Addr, u16)>)
    ensures
        r == match flows@.get(NatKey { protocol: Protocol::Udp, src_port: peer_port }) {
            Some(dest) => Some((dest.ip, dest.port)),
            None => None,
        },
{
    match flows.lookup(&NatKey::udp(peer_port)) {
        Some(dest) => Some((dest.ip, dest.port)),
        None => None,
    }
}

/// Begins the request for a relay of the proxy.
pub fn udp_request(config: &ProxyConfig) -> (r: (Client, Next))
    ensures
        config.requests(r, Command::UdpAssociate),
{
    config.request(Command::UdpAssociate)
}

/// How the datagrams of a new session travel, when its relay was asked for: to the relay, or not at
/// all if there is none, in which case the session is not opened.
pub fn relayed(outcome: &Result<UdpAssociation, Socks5Error>) -> (r: Option<UdpBackend>)
    ensures
        r == match outcome {
            Ok(relay) => Some(
                UdpBackend::Socks5 { relay_ip: relay.relay_ip, relay_port: relay.relay_port },
            ),
            Err(_) => None,
        },
{
    match outcome {
        Ok(relay) => Some(
            UdpBackend::Socks5 { relay_ip: relay.relay_ip, relay_port: relay.relay_port },
        ),
        Err(_) => None,
    }
}

/// The sessions, by the port that they are for.
pub struct UdpSessionManager {
    sessions: HashMap<u16, UdpSession>,
}

impl View for UdpSessionManager {
    type V = Map<u16, UdpSession>;

    closed spec fn view(&self) -> Map<u16, UdpSession> {
        self.sessions@
    }
}

/// Whether a session is over.
pub open spec fn is_idle(session: UdpSession, now: u64) -> bool {
    elapsed(now, session.last_activity) > SESSION_IDLE
}

/// The sessions that are not over.
pub open spec fn without_idle(sessions: Map<u16, UdpSession>, now: u64) -> Map<u16, UdpSession> {
    sessions.restrict(Set::new(|port: u16| !is_idle(sessions[port], now)))
}

/// The sessions after a datagram was routed: its session, if there is one and the datagram is no
/// query, was used at `now`.
pub open spec fn sessions_after(
    sessions: Map<u16, UdpSession>,
    peer_port: u16,
    dest_port: u16,
    now: u64,
) -> Map<u16, UdpSession> {
    if dest_port != DNS_PORT && sessions.contains_key(peer_port) {
        sessions.insert(peer_port, UdpSession { last_activity: now, ..sessions[peer_port] })
    } else {
        sessions
    }
}

/// Whether `r` is what follows for a datagram.
pub open spec fn is_route(
    r: UdpRoute,
    sessions: Map<u16, UdpSession>,
    config: ProxyConfig,
    peer_port: u16,
    ip: Ipv4Addr,
    port: u16,
    data: Seq<u8>,
) -> bool {
    if port == DNS_PORT {
        r == UdpRoute::Dns(ip)
    } else if sessions.contains_key(peer_port) {
        r matches UdpRoute::Send(out) && carries(out, sessions[peer_port].backend, ip, port, data)
    } else {
        r matches UdpRoute::Open(proxy) && is_proxy_choice(config, proxy)
    }
}

impl UdpSessionManager {
    /// No sessions.
    pub fn new() -> (r: UdpSessionManager)
        ensures
            r@ == Map::<u16, UdpSession>::empty(),
    {
        UdpSessionManager { sessions: HashMap::new() }
    }

    /// What follows for a datagram from `peer_port` to a destination.
    pub fn route(
        &mut self,
        peer_port: u16,
        dest_ip: Ipv4Addr,
        dest_port: u16,
        data: &[u8],
        config: &ProxyConfig,
        now: u64,
    ) -> (r: UdpRoute)
        ensures
            is_route(r, old(self)@, *config, peer_port, dest_ip, dest_port, data@),
            final(self)@ == sessions_after(old(self)@, peer_port, dest_port, now),
    {
        if dest_port == DNS_PORT {
            return UdpRoute::Dns(dest_ip);
        }
        let known: Option<UdpBackend> = match self.sessions.get(&peer_port) {
            Some(session) => Some(session.backend),
            None => None,
        };
        match known {
            Some(backend) => {
                self.sessions.insert(peer_port, UdpSession { backend, last_activity: now });
                UdpRoute::Send(outgoing(backend, dest_ip, dest_port, data))
            },
            None => UdpRoute::Open(choose_proxy(config)),
        }
    }

    /// Enters a session that was opened at `now`, and gives its first datagram.
    pub fn opened(
        &mut self,
        peer_port: u16,
        backend: UdpBackend,
        dest_ip: Ipv4Addr,
        dest_port: u16,
        data: &[u8],
        now: u64,
    ) -> (r: Datagram)
        ensures
            carries(r, backend, dest_ip, dest_port, data@),
            final(self)@ == old(self)@.insert(
                peer_port,
                UdpSession { backend, last_activity: now },
            ),
    {
        self.sessions.insert(peer_port, UdpSession { backend, last_activity: now });
        outgoing(backend, dest_ip, dest_port, data)
    }

    fn ports(&self) -> (ports: Vec<u16>)
        ensures
            ports@.no_duplicates(),
            ports@.to_set() == self@.dom(),
    {
        let mut ports: Vec<u16> = Vec::new();
        for port in iter: self.sessions.keys()
            invariant
                iter.seq().no_duplicates(),
                iter.seq().unref().to_set() == self.sessions@.dom(),
                ports@ =~= iter.seq().unref().take(iter.index() as int),
                iter.index() == iter.seq().len() ==> ports@ =~= iter.seq().unref(),
        {
            ports.push(*port);
        }
        ports
    }

    /// Ends the sessions that are over, and gives their ports.
    pub fn reap(&mut self, now: u64) -> (r: Vec<u16>)
        ensures
            final(self)@ == without_idle(old(self)@, now),
            r@.no_duplicates(),
            r@.to_set() == old(self)@.dom().difference(final(self)@.dom()),
    {
        let ports = self.ports();
        let ghost before = self@;
        let mut over: Vec<u16> = Vec::new();
        let mut i: usize = 0;
        while i < ports.len()
            invariant
                i <= ports.len(),
                ports@.no_duplicates(),
                ports@.to_set() == before.dom(),
                over@.no_duplicates(),
                forall|k: u16| #[trigger]
                    over@.contains(k) <==> ports@.take(i as int).contains(k) && is_idle(
                        before[k],
                        now,
                    ),
                forall|k: u16| #[trigger]
                    self.sessions@.contains_key(k) <==> before.contains_key(k) && !over@.contains(
                        k,
                    ),
                forall|k: u16| #[trigger]
                    self.sessions@.contains_key(k) ==> self.sessions@[k] == before[k],
            decreases ports.len() - i,
        {
            let port = ports[i];
            proof {
                let seen = ports@.take(i as int);
                assert(ports@.contains(port));
                assert(before.contains_key(port));
                assert(!seen.contains(port));
                assert(ports@.take(i + 1) =~= seen.push(port));
                assert forall|k: u16| #[trigger] seen.push(port).contains(k) <==> seen.contains(k)
                    || k == port by {
                    if seen.contains(k) {
                        let j = choose|j: int| 0 <= j < seen.len() && seen[j] == k;
                        assert(seen.push(port)[j] == k);
                    }
                    assert(seen.push(port)[seen.len() as int] == port);
                }
            }
            if let Some(session) = self.sessions.get(&port) {
                if now.saturating_sub(session.last_activity) > SESSION_IDLE {
                    let ghost over_before = over@;
                    over.push(port);
                    self.sessions.remove(&port);
                    proof {
                        assert forall|k: u16| #[trigger] over@.contains(k) <==> over_before.contains(
                            k,
                        ) || k == port by {
                            if over_before.contains(k) {
                                let j = choose|j: int|
                                    0 <= j < over_before.len() && over_before[j] == k;
                                assert(over@[j] == k);
                            }
                            assert(over@[over_before.len() as int] == port);
                        }
                    }
                }
            }
            i = i + 1;
        }
        proof {
            assert(ports@.take(i as int) =~= ports@);
            assert(self@ =~= without_idle(before, now)) by {
                assert forall|k: u16| #[trigger] self@.contains_key(k) <==> before.contains_key(k)
                    && !is_idle(before[k], now) by {
                    assert(ports@.to_set().contains(k) <==> ports@.contains(k));
                    assert(over@.contains(k) <==> ports@.contains(k) && is_idle(before[k], now));
                }
            }
            assert forall|k: u16| #[trigger] over@.to_set().contains(k) <==> before.dom().difference(
                self@.dom(),
            ).contains(k) by {
                assert(ports@.to_set().contains(k) <==> ports@.contains(k));
                assert(over@.contains(k) <==> ports@.contains(k) && is_idle(before[k], now));
                assert(self@.contains_key(k) <==> before.contains_key(k) && !over@.contains(k));
            }
            assert(over@.to_set() =~= before.dom().difference(self@.dom()));
        }
        over
    }

    /// Ends every session, and gives the ports.
    pub fn drain(&mut self) -> (r: Vec<u16>)
        ensures
            final(self)@ == Map::<u16, UdpSession>::empty(),
            r@.no_duplicates(),
            r@.to_set() == old(self)@.dom(),
    {
        let ports = self.ports();
        self.sessions = HashMap::new();
        ports
    }
}

/// The proxy finds where a redirected packet was going: after a packet was redirected, the flow of
/// its source port has the packet's destination, or the server that takes the query in its place.
pub proof fn proxy_finds_destination(
    p: Seq<u8>,
    flows: Map<NatKey, OriginalDest>,
    server: Ipv4Addr,
    now: u64,
)
    requires
        is_candidate(p),
    ensures
        ({
            let known = flows.insert(flow_key(p), flow_dest(p, server, now));
            let key = NatKey { protocol: protocol_of(p)->0, src_port: src_port(p) };
            &&& known.get(key) matches Some(dest)
            &&& dest.port == dst_port(p)
            &&& dest.ip == if is_dns(p) {
                server
            } else {
                dst_ip(p)
            }
        }),
{
}

/// A guard takes its flow out once: released again, it leaves alone what was entered since.
pub proof fn guard_releases_once(
    flows: Map<NatKey, OriginalDest>,
    key: NatKey,
    since: Map<NatKey, OriginalDest>,
    other: NatKey,
)
    ensures
        !released(flows, key, false).contains_key(key),
        other != key ==> released(flows, key, false).get(other) == flows.get(other),
        released(since, key, true) == since,
{
}

/// Headers are put on and taken off alike: what a session sends goes to the destination as it is,
/// or to the relay behind a header; and of a datagram in that form the client gets just the data.
pub proof fn sessions_are_transparent(
    backend: UdpBackend,
    out: Datagram,
    ip: Ipv4Addr,
    port: u16,
    data: Seq<u8>,
)
    requires
        carries(out, backend, ip, port, data),
    ensures
        client_part(backend, out.data@) == Some(data),
        backend is Socks5 ==> out.data@ == encapsulated(ip, port, data),
        backend is Direct ==> out.data@ == data && out.ip == ip && out.port == port,
{
    decapsulation_undoes_encapsulation(ip, port, data);
}

/// A query goes out by itself: it neither needs, nor opens, nor uses a session, and so never goes
/// through the proxy.
pub proof fn queries_bypass_the_proxy(
    r: UdpRoute,
    sessions: Map<u16, UdpSession>,
    config: ProxyConfig,
    peer_port: u16,
    ip: Ipv4Addr,
    data: Seq<u8>,
    now: u64,
)
    requires
        is_route(r, sessions, config, peer_port, ip, DNS_PORT, data),
    ensures
        r == UdpRoute::Dns(ip),
        sessions_after(sessions, peer_port, DNS_PORT, now) == sessions,
{
}

/// A session stays while its port sends at least once in the idle time, and is gone after a longer
/// pause; the other sessions have no part in that.
pub proof fn session_stays_while_used(
    sessions: Map<u16, UdpSession>,
    peer_port: u16,
    dest_port: u16,
    now: u64,
    later: u64,
)
    requires
        sessions.contains_key(peer_port),
        dest_port != DNS_PORT,
        now <= later,
    ensures
        ({
            let used = sessions_after(sessions, peer_port, dest_port, now);
            let left = without_idle(used, later);
            &&& left.contains_key(peer_port) <==> later - now <= SESSION_IDLE
            &&& left.contains_key(peer_port) ==> left[peer_port].backend
                == sessions[peer_port].backend
            &&& forall|other: u16| other != peer_port ==> #[trigger] left.get(other)
                == without_idle(sessions, later).get(other)
        }),
{
}

} // verus!
