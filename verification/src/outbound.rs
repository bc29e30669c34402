//! Outbound packets: which of them belong to a tunneled process, and what becomes of them.
//!
//! A packet is judged in steps. [`Interceptor::begin`] settles it where the packet and the cache
//! of port owners suffice; otherwise it asks who owns the source port, and
//! [`Interceptor::owner_found`] goes on with the answer, which may in turn ask for the name of a
//! process that [`Interceptor::process_found`] holds against the rules.
use crate::ipv4::Ipv4Addr;
use crate::laws::judging::{from_port, sent, to_53};
use crate::laws::packets::{
    ip_at, is_flow_packet, packets_are_known_by_their_bytes, ports_at,
    redirection_writes_these_bytes, word,
};
use crate::laws::rules::{a_process_is_matched_by_any_rule, speaks_of};
use crate::nat_table::{elapsed, NatKey, NatTable, OriginalDest, Protocol};
use crate::packet::{
    closes_tcp, dst_ip, dst_port, has_ports, ipv4_header, opens_tcp, protocol_of, read_dst_ip,
    read_protocol, read_src_ip, read_tcp_flags, redirect, redirected, src_ip, src_port,
    stated_header_len, u16_from_be,
};
use crate::rules::{any_rule_matches, process_matches, texts};
use std::collections::{HashMap, HashSet};
use vstd::prelude::*;

verus! {

broadcast use vstd::std_specs::hash::group_hash_axioms;

/// The port on which the TCP proxy listens.
pub const PROXY_TCP_PORT: u16 = 1080;

/// The port on which the UDP relay listens.
pub const PROXY_UDP_PORT: u16 = 1081;

/// The port of name servers.
pub const DNS_PORT: u16 = 53;

/// How long the copy of the tunneled processes is used, in nanoseconds.
pub const REFRESH_INTERVAL: u64 = 200_000_000;

/// How often the caches of port owners are cleaned, in nanoseconds.
pub const CLEANUP_INTERVAL: u64 = 10_000_000_000;

/// How long a TCP port may be idle before its owner is forgotten, in nanoseconds.
pub const TCP_IDLE: u64 = 300_000_000_000;

/// How long a UDP port may be idle before its owner is forgotten, in nanoseconds.
pub const UDP_IDLE: u64 = 30_000_000_000;

/// The process that owns a port, and when the port was last used. Process 0 stands for none that
/// could be found, and for this process.
#[derive(Debug, Clone, Copy, PartialEq, Eq)]
pub struct PortOwner {
    pub pid: u32,
    pub last_seen: u64,
}

/// What an [`Interceptor`] knows.
#[verifier::ext_equal]
pub struct OutboundState {
    pub tcp_ports: Map<u16, PortOwner>,
    pub udp_ports: Map<u16, PortOwner>,
    pub targets: Set<u32>,
    pub last_refresh: Option<u64>,
    pub last_cleanup: u64,
}

/// What follows for a packet.
#[derive(Debug, Clone, Copy, PartialEq, Eq, Structural)]
pub enum Step {
    /// Send it on as it is.
    Reinject,
    /// Turn it to the proxy.
    Redirect,
    /// Find out which process owns this port.
    AskOwner(NatKey),
    /// Find out the name and the path of this process.
    AskProcess(u32),
}

/// The packets that are judged: those with ports, of one of the redirected protocols.
pub open spec fn is_candidate(p: Seq<u8>) -> bool {
    has_ports(p) && protocol_of(p) is Some
}

/// Whether the packet goes to a name server.
pub open spec fn is_dns(p: Seq<u8>) -> bool {
    dst_port(p) == DNS_PORT
}

impl OutboundState {
    /// The known owner of a packet's source port. A new TCP connection may have a new owner, so
    /// for its first packet none is known.
    pub open spec fn known_owner(self, p: Seq<u8>) -> Option<PortOwner> {
        if protocol_of(p) == Some(Protocol::Tcp) {
            if opens_tcp(p) {
                None
            } else {
                self.tcp_ports.get(src_port(p))
            }
        } else {
            self.udp_ports.get(src_port(p))
        }
    }

    /// The state in which `pid` owns the packet's source port, last used at `now`.
    pub open spec fn owned(self, p: Seq<u8>, pid: u32, now: u64) -> OutboundState {
        let owner = PortOwner { pid, last_seen: now };
        if protocol_of(p) == Some(Protocol::Tcp) {
            OutboundState { tcp_ports: self.tcp_ports.insert(src_port(p), owner), ..self }
        } else {
            OutboundState { udp_ports: self.udp_ports.insert(src_port(p), owner), ..self }
        }
    }

    /// The state after the packet: a TCP port whose connection it ends is forgotten.
    pub open spec fn passed(self, p: Seq<u8>) -> OutboundState {
        if protocol_of(p) == Some(Protocol::Tcp) && closes_tcp(p) {
            OutboundState { tcp_ports: self.tcp_ports.remove(src_port(p)), ..self }
        } else {
            self
        }
    }
}

/// What becomes of a packet once it is known whether it belongs to a tunneled process: packets to
/// this machine itself are never turned.
pub open spec fn verdict(p: Seq<u8>, is_target: bool) -> Step {
    if is_target && !dst_ip(p).loopback() {
        Step::Redirect
    } else {
        Step::Reinject
    }
}

/// The first step for a packet.
pub open spec fn begin_spec(st: OutboundState, p: Seq<u8>, now: u64) -> (OutboundState, Step) {
    if !is_candidate(p) {
        (st, Step::Reinject)
    } else if is_dns(p) {
        (st, Step::AskOwner(flow_key(p)))
    } else {
        match st.known_owner(p) {
            Some(owner) => (
                st.owned(p, owner.pid, now).passed(p),
                verdict(p, st.targets.contains(owner.pid)),
            ),
            None => (st, Step::AskOwner(flow_key(p))),
        }
    }
}

/// The process that a packet is ascribed to: this one counts as none.
pub open spec fn ascribed(own_pid: u32, found: Option<u32>) -> u32 {
    match found {
        Some(pid) => if pid == own_pid {
            0
        } else {
            pid
        },
        None => 0,
    }
}

/// The step that follows the answer to [`Step::AskOwner`].
pub open spec fn owner_spec(
    st: OutboundState,
    p: Seq<u8>,
    now: u64,
    own_pid: u32,
    found: Option<u32>,
) -> (OutboundState, Step) {
    if !is_candidate(p) {
        (st, Step::Reinject)
    } else if is_dns(p) {
        (st, verdict(p, found != Some(own_pid)))
    } else {
        let pid = ascribed(own_pid, found);
        let st1 = st.owned(p, pid, now);
        if pid != 0 && !st.targets.contains(pid) {
            (st1, Step::AskProcess(pid))
        } else {
            (st1.passed(p), verdict(p, st.targets.contains(pid)))
        }
    }
}

/// The step that follows the answer to [`Step::AskProcess`].
pub open spec fn process_spec(
    st: OutboundState,
    p: Seq<u8>,
    pid: u32,
    matched: bool,
) -> (OutboundState, Step) {
    if !is_candidate(p) {
        (st, Step::Reinject)
    } else {
        let st1 = if matched {
            OutboundState { targets: st.targets.insert(pid), ..st }
        } else {
            st
        };
        (st1.passed(p), verdict(p, st1.targets.contains(pid)))
    }
}

/// The ports that were used less than `max_idle` ago.
pub open spec fn recent(ports: Map<u16, PortOwner>, now: u64, max_idle: u64) -> Map<
    u16,
    PortOwner,
> {
    ports.restrict(Set::new(|port: u16| elapsed(now, ports[port].last_seen) < max_idle))
}

/// The state after a cleaning of the caches, if one is due.
pub open spec fn cleaned(st: OutboundState, now: u64) -> OutboundState {
    if elapsed(now, st.last_cleanup) >= CLEANUP_INTERVAL {
        OutboundState {
            tcp_ports: recent(st.tcp_ports, now, TCP_IDLE),
            udp_ports: recent(st.udp_ports, now, UDP_IDLE),
            last_cleanup: now,
            ..st
        }
    } else {
        st
    }
}

fn keep_recent(ports: &HashMap<u16, PortOwner>, now: u64, max_idle: u64) -> (r: HashMap<
    u16,
    PortOwner,
>)
    ensures
        r@ == recent(ports@, now, max_idle),
{
    let mut r: HashMap<u16, PortOwner> = HashMap::new();
    for port in iter: ports.keys()
        invariant
            iter.seq().unref().to_set() == ports@.dom(),
            forall|k: u16| #[trigger]
                r@.contains_key(k) ==> ports@.contains_key(k) && r@[k] == ports@[k] && elapsed(
                    now,
                    ports@[k].last_seen,
                ) < max_idle,
            forall|i: int|
                0 <= i < iter.index() && elapsed(now, ports@[*#[trigger] iter.seq()[i]].last_seen)
                    < max_idle ==> r@.contains_key(*iter.seq()[i]),
    {
        proof {
            assert(iter.seq().unref().contains(*port));
        }
        if let Some(owner) = ports.get(port) {
            if now.saturating_sub(owner.last_seen) < max_idle {
                r.insert(*port, *owner);
            }
        }
    }
    r
}

/// Judges outbound packets.
pub struct Interceptor {
    tcp_ports: HashMap<u16, PortOwner>,
    udp_ports: HashMap<u16, PortOwner>,
    targets: HashSet<u32>,
    last_refresh: Option<u64>,
    last_cleanup: u64,
}

impl View for Interceptor {
    type V = OutboundState;

    closed spec fn view(&self) -> OutboundState {
        OutboundState {
            tcp_ports: self.tcp_ports@,
            udp_ports: self.udp_ports@,
            targets: self.targets@,
            last_refresh: self.last_refresh,
            last_cleanup: self.last_cleanup,
        }
    }
}

/// The protocol and the two ports of a packet.
fn read_flow(p: &[u8]) -> (r: Option<(Protocol, u16, u16)>)
    ensures
        r is Some <==> is_candidate(p@),
        r matches Some(f) ==> protocol_of(p@) == Some(f.0) && f.1 == src_port(p@) && f.2
            == dst_port(p@),
{
    if !ipv4_header(p) {
        return None;
    }
    let h = stated_header_len(p);
    if p.len() < h + 4 {
        return None;
    }
    match read_protocol(p) {
        None => None,
        Some(protocol) => Some(
            (protocol, u16_from_be(p[h], p[h + 1]), u16_from_be(p[h + 2], p[h + 3])),
        ),
    }
}

fn judge(p: &[u8], is_target: bool) -> (r: Step)
    requires
        p@.len() >= 20,
    ensures
        r == verdict(p@, is_target),
{
    if is_target && !read_dst_ip(p).is_loopback() {
        Step::Redirect
    } else {
        Step::Reinject
    }
}

impl Interceptor {
    /// An interceptor that knows no owner and no tunneled process, and has yet to be told the
    /// tunneled processes.
    pub fn new(now: u64) -> (r: Interceptor)
        ensures
            r@ == (OutboundState {
                tcp_ports: Map::empty(),
                udp_ports: Map::empty(),
                targets: Set::empty(),
                last_refresh: None,
                last_cleanup: now,
            }),
    {
        Interceptor {
            tcp_ports: HashMap::new(),
            udp_ports: HashMap::new(),
            targets: HashSet::new(),
            last_refresh: None,
            last_cleanup: now,
        }
    }

    /// Whether the copy of the tunneled processes is too old to be used.
    pub fn refresh_due(&self, now: u64) -> (r: bool)
        ensures
            r == match self@.last_refresh {
                Some(since) => elapsed(now, since) >= REFRESH_INTERVAL,
                None => true,
            },
            self@.last_refresh is None ==> r,
            self@.last_refresh matches Some(since) ==> (r <==> now >= since + 200_000_000),
    {
        match self.last_refresh {
            Some(since) => now.saturating_sub(since) >= REFRESH_INTERVAL,
            None => true,
        }
    }

    /// Takes a new copy of the tunneled processes.
    pub fn refresh(&mut self, targets: HashSet<u32>, now: u64)
        ensures
            final(self)@ == (OutboundState {
                targets: targets@,
                last_refresh: Some(now),
                ..old(self)@
            }),
    {
        self.targets = targets;
        self.last_refresh = Some(now);
    }

    /// Forgets the owners of idle ports, if it was not done for a while.
    pub fn clean(&mut self, now: u64)
        ensures
            final(self)@ == cleaned(old(self)@, now),
    {
        if now.saturating_sub(self.last_cleanup) >= CLEANUP_INTERVAL {
            let tcp_ports = keep_recent(&self.tcp_ports, now, TCP_IDLE);
            let udp_ports = keep_recent(&self.udp_ports, now, UDP_IDLE);
            self.tcp_ports = tcp_ports;
            self.udp_ports = udp_ports;
            self.last_cleanup = now;
        }
    }

    fn set_owner(&mut self, p: &[u8], protocol: Protocol, port: u16, pid: u32, now: u64)
        requires
            protocol_of(p@) == Some(protocol),
            port == src_port(p@),
        ensures
            final(self)@ == old(self)@.owned(p@, pid, now),
    {
        let owner = PortOwner { pid, last_seen: now };
        match protocol {
            Protocol::Tcp => {
                self.tcp_ports.insert(port, owner);
            },
            Protocol::Udp => {
                self.udp_ports.insert(port, owner);
            },
        }
    }

    fn pass(&mut self, p: &[u8], protocol: Protocol, port: u16)
        requires
            p@.len() >= 20,
            protocol_of(p@) == Some(protocol),
            port == src_port(p@),
        ensures
            final(self)@ == old(self)@.passed(p@),
    {
        if protocol == Protocol::Tcp && read_tcp_flags(p) & 0x05 != 0 {
            self.tcp_ports.remove(&port);
        }
    }

    /// The first step for a packet.
    pub fn begin(&mut self, p: &[u8], now: u64) -> (r: Step)
        ensures
            (final(self)@, r) == begin_spec(old(self)@, p@, now),
    {
        match read_flow(p) {
            None => Step::Reinject,
            Some((protocol, port, dest)) => {
                let key = match protocol {
                    Protocol::Tcp => NatKey::tcp(port),
                    Protocol::Udp => NatKey::udp(port),
                };
                if dest == DNS_PORT {
                    return Step::AskOwner(key);
                }
                let known = match protocol {
                    Protocol::Tcp => {
                        if read_tcp_flags(p) & 0x02 != 0 {
                            None
                        } else {
                            self.tcp_ports.get(&port)
                        }
                    },
                    Protocol::Udp => self.udp_ports.get(&port),
                };
                match known {
                    None => Step::AskOwner(key),
                    Some(owner) => {
                        let pid = owner.pid;
                        self.set_owner(p, protocol, port, pid, now);
                        self.pass(p, protocol, port);
                        judge(p, self.targets.contains(&pid))
                    },
                }
            },
        }
    }

    /// The step that follows when it was asked which process owns the source port.
    pub fn owner_found(&mut self, p: &[u8], now: u64, own_pid: u32, found: Option<u32>) -> (r: Step)
        ensures
            (final(self)@, r) == owner_spec(old(self)@, p@, now, own_pid, found),
    {
        match read_flow(p) {
            None => Step::Reinject,
            Some((protocol, port, dest)) => {
                let (is_self, pid): (bool, u32) = match found {
                    Some(pid) => if pid == own_pid {
                        (true, 0)
                    } else {
                        (false, pid)
                    },
                    None => (false, 0),
                };
                if dest == DNS_PORT {
                    return judge(p, !is_self);
                }
                self.set_owner(p, protocol, port, pid, now);
                if pid != 0 && !self.targets.contains(&pid) {
                    return Step::AskProcess(pid);
                }
                self.pass(p, protocol, port);
                judge(p, self.targets.contains(&pid))
            },
        }
    }

    /// The step that follows when it was asked for the name and the path of a process. A process
    /// that a rule speaks of is tunneled from now on.
    pub fn process_found(
        &mut self,
        p: &[u8],
        pid: u32,
        process: &Option<(String, String)>,
        rules: &Vec<String>,
        active_pids: &mut HashSet<u32>,
    ) -> (r: Step)
        ensures
            ({
                let matched = is_candidate(p@) && (process matches Some(found)
                    && any_rule_matches(found.0@, found.1@, texts(rules@)));
                &&& (final(self)@, r) == process_spec(old(self)@, p@, pid, matched)
                &&& final(active_pids)@ == (if matched {
                    old(active_pids)@.insert(pid)
                } else {
                    old(active_pids)@
                })
            }),
            forall|i: int|
                0 <= i < rules@.len() && is_flow_packet(p@) && (process matches Some(found)
                    && speaks_of(#[trigger] texts(rules@)[i], found.0@, found.1@)) ==> {
                    &&& final(active_pids)@.contains(pid)
                    &&& final(self)@.targets.contains(pid)
                    &&& r == sent(p@, true)
                },
    {
        proof {
            packets_are_known_by_their_bytes(p@);
            if let Some(found) = process {
                a_process_is_matched_by_any_rule(found.0@, found.1@, texts(rules@));
            }
        }
        match read_flow(p) {
            None => Step::Reinject,
            Some((protocol, port, _)) => {
                let matched = match process {
                    Some((name, path)) => process_matches(name.as_str(), path.as_str(), rules),
                    None => false,
                };
                if matched {
                    active_pids.insert(pid);
                    self.targets.insert(pid);
                }
                self.pass(p, protocol, port);
                judge(p, self.targets.contains(&pid))
            },
        }
    }
}

/// Which of two name servers takes the next query.
#[derive(Debug, Clone, Copy, PartialEq, Eq)]
pub struct DnsToggle {
    pub use_primary: bool,
}

/// The first name server.
pub open spec fn primary_dns() -> Ipv4Addr {
    Ipv4Addr { a: 1, b: 1, c: 1, d: 1 }
}

/// The second name server.
pub open spec fn secondary_dns() -> Ipv4Addr {
    Ipv4Addr { a: 1, b: 0, c: 0, d: 1 }
}

impl DnsToggle {
    /// The server that takes the next query.
    pub open spec fn server(self) -> Ipv4Addr {
        if self.use_primary {
            primary_dns()
        } else {
            secondary_dns()
        }
    }

    /// A toggle that begins with the first server.
    pub fn new() -> (r: DnsToggle)
        ensures
            r == (DnsToggle { use_primary: true }),
    {
        DnsToggle { use_primary: true }
    }

    /// The server for this query; the next one goes to the other.
    pub fn next(&mut self) -> (r: Ipv4Addr)
        ensures
            r == old(self).server(),
            *final(self) == (DnsToggle { use_primary: !old(self).use_primary }),
    {
        let primary = self.use_primary;
        self.use_primary = !primary;
        if primary {
            Ipv4Addr::new(1, 1, 1, 1)
        } else {
            Ipv4Addr::new(1, 0, 0, 1)
        }
    }
}

/// The key under which a packet's flow is entered.
pub open spec fn flow_key(p: Seq<u8>) -> NatKey {
    NatKey { protocol: protocol_of(p)->0, src_port: src_port(p) }
}

/// What is entered of a packet's flow: queries go to `server` in place of the resolver that was
/// asked, which is remembered.
pub open spec fn flow_dest(p: Seq<u8>, server: Ipv4Addr, now: u64) -> OriginalDest {
    OriginalDest {
        ip: if is_dns(p) {
            server
        } else {
            dst_ip(p)
        },
        port: dst_port(p),
        src_ip: src_ip(p),
        dns_restore_ip: if is_dns(p) {
            Some(dst_ip(p))
        } else {
            None
        },
        last_seen: now,
    }
}

/// The proxy port for a packet.
pub open spec fn proxy_port(p: Seq<u8>) -> u16 {
    if protocol_of(p) == Some(Protocol::Tcp) {
        PROXY_TCP_PORT
    } else {
        PROXY_UDP_PORT
    }
}

/// Turns a packet to the proxy and enters its flow. A packet that cannot be turned is left alone.
pub fn redirect_packet(
    p: &mut [u8],
    flows: &mut NatTable,
    dns: &mut DnsToggle,
    now: u64,
) -> (done: bool)
    ensures
        done == is_candidate(old(p)@),
        done ==> {
            &&& final(p)@ == redirected(old(p)@, proxy_port(old(p)@))
            &&& final(flows)@ == old(flows)@.insert(
                flow_key(old(p)@),
                flow_dest(old(p)@, old(dns).server(), now),
            )
            &&& final(dns).use_primary == (old(dns).use_primary != is_dns(old(p)@))
        },
        !done ==> {
            &&& final(p)@ == old(p)@
            &&& final(flows)@ == old(flows)@
            &&& *final(dns) == *old(dns)
        },
        done <==> is_flow_packet(old(p)@),
        done ==> {
            let h = ports_at(old(p)@);
            &&& word(final(p)@, h + 2) == if old(p)@[9] == 6 {
                1080int
            } else {
                1081int
            }
            &&& h >= 20 ==> ip_at(final(p)@, 16) == ip_at(old(p)@, 12)
            &&& final(dns).use_primary != old(dns).use_primary <==> to_53(old(p)@)
            &&& final(flows)@.contains_key(
                NatKey {
                    protocol: if old(p)@[9] == 6 {
                        Protocol::Tcp
                    } else {
                        Protocol::Udp
                    },
                    src_port: from_port(old(p)@),
                },
            )
        },
{
    proof {
        packets_are_known_by_their_bytes(p@);
        if is_flow_packet(p@) {
            redirection_writes_these_bytes(p@);
            let q = redirected(p@, proxy_port(p@));
            assert(q[16] == p@[12] || ports_at(p@) < 20);
            assert(q[17] == p@[13] || ports_at(p@) < 20);
            assert(q[18] == p@[14] || ports_at(p@) < 20);
            assert(q[19] == p@[15] || ports_at(p@) < 20);
        }
    }
    match read_flow(p) {
        None => false,
        Some((protocol, port, dest)) => {
            let from = read_src_ip(p);
            let to = read_dst_ip(p);
            let (target, asked): (Ipv4Addr, Option<Ipv4Addr>) = if dest == DNS_PORT {
                (dns.next(), Some(to))
            } else {
                (to, None)
            };
            let mut orig = OriginalDest::new(target, dest, from, now);
            orig.dns_restore_ip = asked;
            match protocol {
                Protocol::Tcp => {
                    flows.insert(NatKey::tcp(port), orig);
                    redirect(p, PROXY_TCP_PORT);
                },
                Protocol::Udp => {
                    flows.insert(NatKey::udp(port), orig);
                    redirect(p, PROXY_UDP_PORT);
                },
            }
            true
        },
    }
}

/// What becomes of a packet when every question about it is answered: `found` is the process that
/// owns the source port, and `matched` says whether a rule speaks of that process.
pub open spec fn outcome(
    st: OutboundState,
    p: Seq<u8>,
    now: u64,
    own_pid: u32,
    found: Option<u32>,
    matched: bool,
) -> (OutboundState, Step) {
    let (st1, step1) = begin_spec(st, p, now);
    if step1 is AskOwner {
        let (st2, step2) = owner_spec(st1, p, now, own_pid, found);
        match step2 {
            Step::AskProcess(pid) => process_spec(st2, p, pid, matched),
            _ => (st2, step2),
        }
    } else {
        (st1, step1)
    }
}

/// The process that a packet belongs to.
pub open spec fn packet_owner(
    st: OutboundState,
    p: Seq<u8>,
    own_pid: u32,
    found: Option<u32>,
) -> u32 {
    match st.known_owner(p) {
        Some(owner) => owner.pid,
        None => ascribed(own_pid, found),
    }
}

/// Every packet is settled once at most two questions were asked, and it is redirected just if it
/// goes to another machine and is either a query that does not come from this process or a packet
/// of a process that is tunneled, be it that a rule has just made it so.
pub proof fn redirected_iff_tunneled(
    st: OutboundState,
    p: Seq<u8>,
    now: u64,
    own_pid: u32,
    found: Option<u32>,
    matched: bool,
)
    ensures
        ({
            let (st1, step) = outcome(st, p, now, own_pid, found, matched);
            &&& step == Step::Reinject || step == Step::Redirect
            &&& step == Step::Redirect <==> {
                &&& is_candidate(p)
                &&& !dst_ip(p).loopback()
                &&& if is_dns(p) {
                    found != Some(own_pid)
                } else {
                    st1.targets.contains(packet_owner(st, p, own_pid, found))
                }
            }
        }),
{
}

/// The tunneled processes change only by the owner of the packet, and only if a rule speaks of
/// it.
pub proof fn only_rules_add_targets(
    st: OutboundState,
    p: Seq<u8>,
    now: u64,
    own_pid: u32,
    found: Option<u32>,
    matched: bool,
)
    ensures
        ({
            let (st1, step) = outcome(st, p, now, own_pid, found, matched);
            let pid = packet_owner(st, p, own_pid, found);
            ||| st1.targets == st.targets
            ||| matched && pid != 0 && st1.targets == st.targets.insert(pid)
        }),
{
}

/// What this process itself sends is let through, so that what the proxies send does not come
/// back to them. This needs that no tunneled process counts as the owner of the port: neither one
/// that had the port before, nor process 0, which the port is ascribed to otherwise.
pub proof fn own_packets_pass(
    st: OutboundState,
    p: Seq<u8>,
    now: u64,
    own_pid: u32,
    matched: bool,
)
    requires
        is_dns(p) || !st.targets.contains(packet_owner(st, p, own_pid, Some(own_pid))),
    ensures
        outcome(st, p, now, own_pid, Some(own_pid), matched).1 == Step::Reinject,
{
}

/// The owner of a port is asked for once: a later packet from the port that opens no new
/// connection is settled at once, for the same process, unless the first ended its connection.
pub proof fn owner_is_remembered(
    st: OutboundState,
    p: Seq<u8>,
    next: Seq<u8>,
    now: u64,
    own_pid: u32,
    found: Option<u32>,
    matched: bool,
)
    requires
        is_candidate(p),
        !is_dns(p),
        !closes_tcp(p),
        is_candidate(next),
        !is_dns(next),
        !opens_tcp(next),
        flow_key(next) == flow_key(p),
    ensures
        ({
            let st1 = outcome(st, p, now, own_pid, found, matched).0;
            let pid = packet_owner(st, p, own_pid, found);
            &&& st1.known_owner(next) == Some(PortOwner { pid, last_seen: now })
            &&& forall|later: u64| #[trigger]
                begin_spec(st1, next, later).1 == verdict(next, st1.targets.contains(pid))
        }),
{
}

/// Two queries in a row go to two servers.
pub proof fn queries_alternate(first: DnsToggle, second: DnsToggle)
    requires
        second.use_primary == !first.use_primary,
    ensures
        first.server() != second.server(),
        first.server() == primary_dns() || first.server() == secondary_dns(),
{
}

/// The queries among packets.
pub open spec fn queries_in(ps: Seq<Seq<u8>>) -> nat
    decreases ps.len(),
{
    if ps.len() == 0 {
        0
    } else {
        queries_in(ps.drop_last()) + if is_candidate(ps.last()) && is_dns(ps.last()) {
            1nat
        } else {
            0nat
        }
    }
}

/// The toggle after packets were redirected in turn, as [`redirect_packet`] leaves it.
pub open spec fn toggle_after(first: DnsToggle, ps: Seq<Seq<u8>>) -> DnsToggle
    decreases ps.len(),
{
    if ps.len() == 0 {
        first
    } else {
        let before = toggle_after(first, ps.drop_last());
        if is_candidate(ps.last()) {
            DnsToggle { use_primary: before.use_primary != is_dns(ps.last()) }
        } else {
            before
        }
    }
}

/// The servers take the queries in turn, whatever other packets come between: with an even number of
/// queries before it, a query goes to the server that was the next at the beginning, and with an odd
/// number to the other.
pub proof fn servers_take_turns(first: DnsToggle, ps: Seq<Seq<u8>>)
    ensures
        toggle_after(first, ps).server() == if (queries_in(ps) % 2 == 0) == first.use_primary {
            primary_dns()
        } else {
            secondary_dns()
        },
    decreases ps.len(),
{
    if ps.len() > 0 {
        servers_take_turns(first, ps.drop_last());
    }
}

} // verus!
