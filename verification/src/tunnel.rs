//! The tunnel engine: its filters, its handles, and the way back of redirected flows.
use crate::divert::{DivertError, DivertHandle};
use crate::ipv4::Ipv4Addr;
use crate::laws::packets::{
    fin_or_rst, has_flags, ip_at, is_flow_packet, only_fin_and_rst_end_a_flow, ports_at,
    return_packets_are_known_by_their_bytes, word,
};
use crate::nat_table::{touched, NatKey, NatTable, OriginalDest, Protocol};
use crate::outbound::{
    flow_dest, flow_key, is_candidate, proxy_port, PROXY_TCP_PORT, PROXY_UDP_PORT,
};
use crate::packet::{
    be16, be_bytes, dst_ip, dst_port, has_ports, header_len, ipv4_header, ports_clear_addresses,
    ports_clear_header, protocol_of, put, read_dst_ip, read_protocol, read_src_ip, redirected,
    restore, restore_ip, restored, src_ip, src_port, stated_header_len, u16_from_be,
};
use crate::text::{decimal, push_decimal};
use vstd::prelude::*;
use vstd::string::StringExecFns;

verus! {

/// The filter that takes outbound TCP and UDP packets, but for those to this machine and to the
/// proxies.
pub open spec fn outbound_filter_text() -> Seq<char> {
    "outbound and ip.DstAddr != 127.0.0.1 and ((tcp and tcp.DstPort != "@ + decimal(
        PROXY_TCP_PORT as nat,
    ) + ") or (udp and udp.DstPort != "@ + decimal(PROXY_UDP_PORT as nat) + "))"@
}

/// The filter that takes what the proxies send.
pub open spec fn return_filter_text() -> Seq<char> {
    "(tcp and tcp.SrcPort == "@ + decimal(PROXY_TCP_PORT as nat) + ") or (udp and udp.SrcPort == "@
        + decimal(PROXY_UDP_PORT as nat) + ")"@
}

/// The filter for outbound packets.
pub fn outbound_filter() -> (r: String)
    ensures
        r@ == outbound_filter_text(),
{
    let mut out = String::new();
    out.append("outbound and ip.DstAddr != 127.0.0.1 and ((tcp and tcp.DstPort != ");
    push_decimal(&mut out, PROXY_TCP_PORT as u64);
    out.append(") or (udp and udp.DstPort != ");
    push_decimal(&mut out, PROXY_UDP_PORT as u64);
    out.append("))");
    assert(out@ =~= outbound_filter_text());
    out
}

/// The filter for what the proxies send.
pub fn return_filter() -> (r: String)
    ensures
        r@ == return_filter_text(),
{
    let mut out = String::new();
    out.append("(tcp and tcp.SrcPort == ");
    push_decimal(&mut out, PROXY_TCP_PORT as u64);
    out.append(") or (udp and udp.SrcPort == ");
    push_decimal(&mut out, PROXY_UDP_PORT as u64);
    out.append(")");
    assert(out@ =~= return_filter_text());
    out
}

/// A started engine: whether its threads are to go on, and the handles that they use.
#[derive(Debug)]
pub struct TunnelEngine {
    running: bool,
    outbound_handle: DivertHandle,
    return_handle: DivertHandle,
}

impl TunnelEngine {
    /// Whether the engine's threads are to go on.
    pub closed spec fn running(&self) -> bool {
        self.running
    }

    /// The value of the outbound handle while it is open.
    pub closed spec fn outbound(&self) -> Option<isize> {
        self.outbound_handle.raw()
    }

    /// The value of the return handle while it is open.
    pub closed spec fn inbound(&self) -> Option<isize> {
        self.return_handle.raw()
    }

    /// An engine that runs on two handles.
    pub fn start(outbound_handle: DivertHandle, return_handle: DivertHandle) -> (r: TunnelEngine)
        ensures
            r.running(),
            r.outbound() == outbound_handle.raw(),
            r.inbound() == return_handle.raw(),
    {
        TunnelEngine { running: true, outbound_handle, return_handle }
    }

    /// Whether the engine's threads are to go on.
    pub fn is_running(&self) -> (r: bool)
        ensures
            r == self.running(),
    {
        self.running
    }

    /// The handle to read outbound packets from.
    pub fn outbound_raw(&self) -> (r: Result<isize, DivertError>)
        ensures
            match self.outbound() {
                Some(raw) => r == Ok::<isize, DivertError>(raw),
                None => r == Err::<isize, DivertError>(DivertError::Closed),
            },
    {
        self.outbound_handle.live()
    }

    /// The handle to read return packets from.
    pub fn return_raw(&self) -> (r: Result<isize, DivertError>)
        ensures
            match self.inbound() {
                Some(raw) => r == Ok::<isize, DivertError>(raw),
                None => r == Err::<isize, DivertError>(DivertError::Closed),
            },
    {
        self.return_handle.live()
    }

    /// Stops the engine. Gives the handles to close, which ends a read that waits on them.
    pub fn stop(&mut self) -> (r: (Option<isize>, Option<isize>))
        ensures
            r == (old(self).outbound(), old(self).inbound()),
            !final(self).running(),
            final(self).outbound() is None,
            final(self).inbound() is None,
    {
        self.running = false;
        let outbound = self.outbound_handle.close();
        let inbound = self.return_handle.close();
        (outbound, inbound)
    }
}

/// The priority of the handle for outbound packets.
pub const OUTBOUND_PRIORITY: i16 = 0;

/// The priority of the handle for what the proxies send.
pub const RETURN_PRIORITY: i16 = 1;

/// An engine whose handles are being opened, one after the other.
#[derive(Debug)]
pub struct EngineStart {
    outbound_handle: Option<DivertHandle>,
}

/// What follows in the start of an engine.
#[derive(Debug)]
pub enum StartStep {
    /// Open a handle with this filter and priority.
    Open { pending: EngineStart, filter: String, priority: i16 },
    /// Both handles are open, and the engine's threads are to begin.
    Started(TunnelEngine),
    /// There is no engine. The error is that of the handle that could not be opened, and the other
    /// handle is to be closed, if it is open.
    Failed { error: String, close: Option<isize> },
}

impl EngineStart {
    /// The outbound handle, once it was opened.
    pub closed spec fn first(&self) -> Option<DivertHandle> {
        self.outbound_handle
    }

    /// Begins a start, with the outbound handle.
    pub fn begin() -> (r: StartStep)
        ensures
            r matches StartStep::Open { pending, filter, priority } && pending.first() is None
                && filter@ == outbound_filter_text() && priority == OUTBOUND_PRIORITY,
    {
        StartStep::Open {
            pending: EngineStart { outbound_handle: None },
            filter: outbound_filter(),
            priority: OUTBOUND_PRIORITY,
        }
    }

    /// Goes on with what the last open gave. The return handle is opened only once the outbound one
    /// is there.
    pub fn opened(self, outcome: Result<DivertHandle, String>) -> (r: StartStep)
        ensures
            match (self.first(), outcome) {
                (None, Ok(outbound)) => r matches StartStep::Open { pending, filter, priority }
                    && pending.first() == Some(outbound) && filter@ == return_filter_text()
                    && priority == RETURN_PRIORITY,
                (Some(outbound), Ok(inbound)) => r matches StartStep::Started(engine)
                    && engine.running() && engine.outbound() == outbound.raw() && engine.inbound()
                    == inbound.raw(),
                (None, Err(e)) => r == (StartStep::Failed { error: e, close: None }),
                (Some(outbound), Err(e)) => r == (StartStep::Failed {
                    error: e,
                    close: outbound.raw(),
                }),
            },
    {
        match (self.outbound_handle, outcome) {
            (None, Ok(outbound)) => StartStep::Open {
                pending: EngineStart { outbound_handle: Some(outbound) },
                filter: return_filter(),
                priority: RETURN_PRIORITY,
            },
            (Some(outbound), Ok(inbound)) => StartStep::Started(
                TunnelEngine::start(outbound, inbound),
            ),
            (None, Err(error)) => StartStep::Failed { error, close: None },
            (Some(outbound), Err(error)) => {
                let mut outbound = outbound;
                StartStep::Failed { error, close: outbound.close() }
            },
        }
    }
}

/// What became of a packet that a proxy sent.
#[derive(Debug, Clone, Copy, PartialEq, Eq, Structural)]
pub enum ReturnVerdict {
    /// It is none of the tunnel's packets.
    PassThrough,
    /// It looks like one, but its flow is not known.
    NoEntry,
    /// It now seems to come from the destination; its checksums are to be renewed.
    Restored,
}

/// The key of the flow that a packet from a proxy belongs to: such a packet has one address for
/// both ends, and goes to the port that the flow came from.
pub open spec fn return_key(p: Seq<u8>) -> Option<NatKey> {
    if has_ports(p) && src_ip(p) == dst_ip(p) {
        match protocol_of(p) {
            Some(protocol) => Some(NatKey { protocol, src_port: dst_port(p) }),
            None => None,
        }
    } else {
        None
    }
}

/// Whether a packet from a proxy, once restored, ends its TCP connection. Where the flags stand
/// is said by the header as it came in.
pub open spec fn return_closes(p: Seq<u8>, dest: OriginalDest) -> bool {
    &&& protocol_of(p) == Some(Protocol::Tcp)
    &&& p.len() >= header_len(p) + 14
    &&& restored(p, dest)[header_len(p) + 13] & 0x05 != 0
}

/// The flows after a packet of the flow `key` went back: it was seen at `now`, and is gone if the
/// packet ends its connection.
pub open spec fn flows_after_return(
    flows: Map<NatKey, OriginalDest>,
    key: NatKey,
    closes: bool,
    now: u64,
) -> Map<NatKey, OriginalDest> {
    if closes {
        touched(flows, key, now).remove(key)
    } else {
        touched(flows, key, now)
    }
}

/// Restores a packet that a proxy sent.
pub fn restore_packet(p: &mut [u8], flows: &mut NatTable, now: u64) -> (r: ReturnVerdict)
    ensures
        match return_key(old(p)@) {
            None => {
                &&& r == ReturnVerdict::PassThrough
                &&& final(p)@ == old(p)@
                &&& final(flows)@ == old(flows)@
            },
            Some(key) => match old(flows)@.get(key) {
                None => {
                    &&& r == ReturnVerdict::NoEntry
                    &&& final(p)@ == old(p)@
                    &&& final(flows)@ == old(flows)@
                },
                Some(dest) => {
                    &&& r == ReturnVerdict::Restored
                    &&& final(p)@ == restored(old(p)@, dest)
                    &&& final(flows)@ == flows_after_return(
                        old(flows)@,
                        key,
                        return_closes(old(p)@, dest),
                        now,
                    )
                },
            },
        },
        r == ReturnVerdict::PassThrough <==> !(is_flow_packet(old(p)@) && ip_at(old(p)@, 12) == ip_at(
            old(p)@,
            16,
        )),
        r == ReturnVerdict::Restored && ports_at(old(p)@) >= 20 ==> {
            let key = NatKey {
                protocol: if old(p)@[9] == 6 {
                    Protocol::Tcp
                } else {
                    Protocol::Udp
                },
                src_port: word(old(p)@, ports_at(old(p)@) + 2) as u16,
            };
            final(flows)@.contains_key(key) <==> !(has_flags(old(p)@) && fin_or_rst(
                old(p)@[ports_at(old(p)@) + 13],
            ))
        },
{
    proof {
        return_packets_are_known_by_their_bytes(p@);
        if is_flow_packet(p@) {
            assert forall|dest: OriginalDest| ports_at(p@) >= 20 implies #[trigger] return_closes(
                p@,
                dest,
            ) == (has_flags(p@) && fin_or_rst(p@[ports_at(p@) + 13])) by {
                only_fin_and_rst_end_a_flow(p@, dest);
            }
        }
    }
    if !ipv4_header(p) {
        return ReturnVerdict::PassThrough;
    }
    if read_src_ip(p) != read_dst_ip(p) {
        return ReturnVerdict::PassThrough;
    }
    let h = stated_header_len(p);
    if p.len() < h + 4 {
        return ReturnVerdict::PassThrough;
    }
    let app_port: u16 = u16_from_be(p[h + 2], p[h + 3]);
    let key = match read_protocol(p) {
        Some(Protocol::Tcp) => NatKey::tcp(app_port),
        Some(Protocol::Udp) => NatKey::udp(app_port),
        None => {
            return ReturnVerdict::PassThrough;
        },
    };
    match flows.lookup(&key) {
        None => ReturnVerdict::NoEntry,
        Some(dest) => {
            restore(p, dest);
            flows.touch(&key, now);
            if key.protocol == Protocol::Tcp && p.len() >= h + 14 && p[h + 13] & 0x05 != 0 {
                flows.remove(&key);
            }
            ReturnVerdict::Restored
        },
    }
}

/// A reply seems to come from where the packet went: after a packet `p` was redirected, whatever
/// other flows there are, a reply `r` from the proxy to the flow's port is restored so that it
/// comes from `p`'s destination, also where a query went to another server, and goes to `p`'s
/// sender; its other bytes stay as they are.
pub proof fn reply_mirrors_packet(
    p: Seq<u8>,
    r: Seq<u8>,
    flows: Map<NatKey, OriginalDest>,
    server: Ipv4Addr,
    now: u64,
)
    requires
        is_candidate(p),
        return_key(r) == Some(flow_key(p)),
        ports_clear_header(r),
    ensures
        ({
            let known = flows.insert(flow_key(p), flow_dest(p, server, now));
            &&& known.get(return_key(r)->0) == Some(flow_dest(p, server, now))
            &&& {
                let q = restored(r, flow_dest(p, server, now));
                let h = header_len(r);
                &&& src_ip(q) == dst_ip(p)
                &&& src_port(q) == dst_port(p)
                &&& dst_ip(q) == src_ip(p)
                &&& dst_port(q) == src_port(p)
                &&& protocol_of(q) == protocol_of(p)
                &&& q.len() == r.len()
                &&& forall|i: int|
                    0 <= i < r.len() && !(12 <= i < 20) && !(h <= i < h + 2) ==> q[i] == r[i]
            }
        }),
{
    let d = flow_dest(p, server, now);
    let h = header_len(r);
    let q1 = put(r, 12, restore_ip(d).octets());
    let q2 = put(q1, h, be_bytes(d.port));
    let q = put(q2, 16, d.src_ip.octets());
    assert(q == restored(r, d));
    assert(q[h] == be_bytes(d.port)[0]);
    assert(q[h + 1] == be_bytes(d.port)[1]);
    lemma_be16(dst_port(p));
}

/// A redirected packet reaches the proxy as if its sender had addressed it there: it goes from
/// the sender's own address and port to that address and the proxy's port, and keeps its other
/// bytes.
pub proof fn redirected_packet_reaches_proxy(p: Seq<u8>)
    requires
        is_candidate(p),
        ports_clear_addresses(p),
    ensures
        ({
            let q = redirected(p, proxy_port(p));
            let h = header_len(p);
            &&& is_candidate(q)
            &&& protocol_of(q) == protocol_of(p)
            &&& src_ip(q) == src_ip(p)
            &&& src_port(q) == src_port(p)
            &&& dst_ip(q) == src_ip(p)
            &&& dst_port(q) == proxy_port(p)
            &&& q.len() == p.len()
            &&& forall|i: int|
                0 <= i < p.len() && !(16 <= i < 20) && !(h + 2 <= i < h + 4) ==> q[i] == p[i]
        }),
{
    let h = header_len(p);
    let q1 = put(p, 16, src_ip(p).octets());
    let q = put(q1, h + 2, be_bytes(proxy_port(p)));
    assert(q == redirected(p, proxy_port(p)));
    assert(q[h + 2] == be_bytes(proxy_port(p))[0]);
    assert(q[h + 3] == be_bytes(proxy_port(p))[1]);
    lemma_be16(proxy_port(p));
}

/// Redirecting a packet and restoring one leave the flows of other keys as they are.
pub proof fn other_flows_stay(
    flows: Map<NatKey, OriginalDest>,
    key: NatKey,
    other: NatKey,
    dest: OriginalDest,
    closes: bool,
    now: u64,
)
    requires
        other != key,
    ensures
        flows.insert(key, dest).get(other) == flows.get(other),
        flows_after_return(flows, key, closes, now).get(other) == flows.get(other),
{
}

/// A flow stays for the next reply, with the same destination, unless the reply ends it.
pub proof fn flow_ends_with_connection(
    flows: Map<NatKey, OriginalDest>,
    key: NatKey,
    closes: bool,
    now: u64,
)
    requires
        flows.contains_key(key),
    ensures
        ({
            let after = flows_after_return(flows, key, closes, now);
            &&& after.contains_key(key) == !closes
            &&& !closes ==> after[key] == (OriginalDest { last_seen: now, ..flows[key] })
        }),
{
}

proof fn lemma_be16(n: u16)
    ensures
        be16(be_bytes(n)[0], be_bytes(n)[1]) == n,
{
}

} // verus!
