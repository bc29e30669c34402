//! Packets, by their bytes.
use crate::ipv4::Ipv4Addr;
use crate::nat_table::{elapsed, touched, without_stale, NatKey, OriginalDest, Protocol};
use crate::outbound::{flow_dest, flow_key, is_candidate, is_dns, proxy_port, DnsToggle};
use crate::packet::{
    be16, be_bytes, closes_tcp, dst_ip, dst_port, opens_tcp, protocol_of, put, redirected,
    restore_ip, restored, src_ip, src_port,
};
use crate::tunnel::{flows_after_return, return_closes, return_key};
use vstd::prelude::*;

verus! {

/// The number in two bytes, high byte first.
pub open spec fn word(p: Seq<u8>, at: int) -> int {
    p[at] * 256 + p[at + 1]
}

/// Where the ports stand: behind the header, whose length in units of four bytes is in the low half
/// of the first byte.
pub open spec fn ports_at(p: Seq<u8>) -> int {
    (p[0] % 16) * 4
}

/// Whether the packet is of IPv4 and has its ports.
pub open spec fn has_flow(p: Seq<u8>) -> bool {
    p.len() >= 20 && 64 <= p[0] < 80 && p.len() >= ports_at(p) + 4
}

/// Whether the packet is a TCP packet (6) or a UDP packet (17) of IPv4 that has its ports.
pub open spec fn is_flow_packet(p: Seq<u8>) -> bool {
    has_flow(p) && (p[9] == 6 || p[9] == 17)
}

/// Whether the packet is a TCP packet that has its flags.
pub open spec fn has_flags(p: Seq<u8>) -> bool {
    p[9] == 6 && p.len() >= ports_at(p) + 14
}

/// Whether a byte of flags has SYN.
pub open spec fn syn(flags: u8) -> bool {
    flags % 4 >= 2
}

/// Whether a byte of flags has FIN or RST.
pub open spec fn fin_or_rst(flags: u8) -> bool {
    flags % 2 == 1 || flags % 8 >= 4
}

/// The four bytes of an address in a packet.
pub open spec fn ip_at(p: Seq<u8>, at: int) -> Ipv4Addr {
    Ipv4Addr { a: p[at], b: p[at + 1], c: p[at + 2], d: p[at + 3] }
}

/// The byte at place `i` of an address.
pub open spec fn octet(ip: Ipv4Addr, i: int) -> u8 {
    if i == 0 {
        ip.a
    } else if i == 1 {
        ip.b
    } else if i == 2 {
        ip.c
    } else {
        ip.d
    }
}

proof fn lemma_flags(flags: u8)
    ensures
        flags & 0x02 != 0 <==> syn(flags),
        flags & 0x05 != 0 <==> fin_or_rst(flags),
{
    assert((flags & 0x02 != 0) == (flags % 4 >= 2)) by (bit_vector);
    assert((flags & 0x05 != 0) == (flags % 2 == 1 || flags % 8 >= 4)) by (bit_vector);
}

/// What is read of a packet stands at these bytes.
pub proof fn packets_are_known_by_their_bytes(p: Seq<u8>)
    ensures
        is_candidate(p) <==> is_flow_packet(p),
        is_flow_packet(p) ==> {
            &&& src_port(p) == word(p, ports_at(p))
            &&& dst_port(p) == word(p, ports_at(p) + 2)
            &&& src_ip(p) == ip_at(p, 12)
            &&& dst_ip(p) == ip_at(p, 16)
            &&& protocol_of(p) == Some(
                if p[9] == 6 {
                    Protocol::Tcp
                } else {
                    Protocol::Udp
                },
            )
            &&& flow_key(p) == NatKey {
                protocol: if p[9] == 6 {
                    Protocol::Tcp
                } else {
                    Protocol::Udp
                },
                src_port: word(p, ports_at(p)) as u16,
            }
            &&& is_dns(p) <==> word(p, ports_at(p) + 2) == 53
            &&& opens_tcp(p) <==> has_flags(p) && syn(p[ports_at(p) + 13])
            &&& closes_tcp(p) <==> has_flags(p) && fin_or_rst(p[ports_at(p) + 13])
        },
{
    if is_flow_packet(p) {
        if has_flags(p) {
            lemma_flags(p[ports_at(p) + 13]);
        } else {
            lemma_flags(0);
        }
    }
}

/// A redirected TCP packet goes to port 1080 and a redirected UDP packet to port 1081, whatever port
/// it went to, at the address that it comes from; its other bytes stay.
pub proof fn redirection_writes_these_bytes(p: Seq<u8>)
    requires
        is_flow_packet(p),
    ensures
        ({
            let q = redirected(p, proxy_port(p));
            let h = ports_at(p);
            &&& q.len() == p.len()
            &&& word(q, h + 2) == if p[9] == 6 {
                1080int
            } else {
                1081int
            }
            &&& forall|i: int|
                0 <= i < p.len() && i != h + 2 && i != h + 3 ==> #[trigger] q[i] == if 16 <= i < 20 {
                    p[i - 4]
                } else {
                    p[i]
                }
        }),
{
    let h = ports_at(p);
    let q1 = put(p, 16, src_ip(p).octets());
    let q = put(q1, h + 2, be_bytes(proxy_port(p)));
    assert(q == redirected(p, proxy_port(p)));
    assert(q[h + 2] == be_bytes(proxy_port(p))[0]);
    assert(q[h + 3] == be_bytes(proxy_port(p))[1]);
}

/// What is entered of a redirected packet: its destination and its sender, as they stand in it. A
/// query, to port 53, goes to 1.1.1.1 or 1.0.0.1, as the toggle says, and the resolver that it was
/// meant for is kept.
pub proof fn redirection_remembers_the_packet(p: Seq<u8>, toggle: DnsToggle, now: u64)
    requires
        is_flow_packet(p),
    ensures
        ({
            let dest = flow_dest(p, toggle.server(), now);
            let port = word(p, ports_at(p) + 2);
            &&& dest.port == port
            &&& dest.src_ip == ip_at(p, 12)
            &&& dest.last_seen == now
            &&& port != 53 ==> dest.ip == ip_at(p, 16) && dest.dns_restore_ip is None
            &&& port == 53 ==> dest.dns_restore_ip == Some(ip_at(p, 16)) && dest.ip == if toggle.use_primary {
                Ipv4Addr { a: 1, b: 1, c: 1, d: 1 }
            } else {
                Ipv4Addr { a: 1, b: 0, c: 0, d: 1 }
            }
        }),
{
}

/// A packet from a proxy belongs to the flow of the port that it goes to, if it has one address for
/// both ends and is a TCP or UDP packet; no other packet belongs to a flow.
pub proof fn return_packets_are_known_by_their_bytes(p: Seq<u8>)
    ensures
        return_key(p) == if is_flow_packet(p) && ip_at(p, 12) == ip_at(p, 16) {
            Some(
                NatKey {
                    protocol: if p[9] == 6 {
                        Protocol::Tcp
                    } else {
                        Protocol::Udp
                    },
                    src_port: word(p, ports_at(p) + 2) as u16,
                },
            )
        } else {
            None
        },
{
}

/// A restored packet comes from the flow's destination, or from the resolver that was asked, and
/// goes to the flow's sender; its other bytes stay. Where a short header lets the places overlap,
/// the sender's address is written over the port, and the port over the other address.
pub proof fn restoration_writes_these_bytes(p: Seq<u8>, dest: OriginalDest)
    requires
        is_flow_packet(p),
    ensures
        ({
            let q = restored(p, dest);
            let h = ports_at(p);
            let from = match dest.dns_restore_ip {
                Some(asked) => asked,
                None => dest.ip,
            };
            &&& q.len() == p.len()
            &&& forall|i: int|
                0 <= i < p.len() ==> #[trigger] q[i] as int == if 16 <= i < 20 {
                    octet(dest.src_ip, i - 16) as int
                } else if i == h {
                    dest.port as int / 256
                } else if i == h + 1 {
                    dest.port as int % 256
                } else if 12 <= i < 16 {
                    octet(from, i - 12) as int
                } else {
                    p[i] as int
                }
        }),
{
    let h = ports_at(p);
    let q1 = put(p, 12, restore_ip(dest).octets());
    let q2 = put(q1, h, be_bytes(dest.port));
    let q = put(q2, 16, dest.src_ip.octets());
    assert(q == restored(p, dest));
    assert(q2[h] == be_bytes(dest.port)[0]);
    assert(q2[h + 1] == be_bytes(dest.port)[1]);
    assert forall|i: int| 0 <= i < p.len() implies #[trigger] q[i] as int == if 16 <= i < 20 {
        octet(dest.src_ip, i - 16) as int
    } else if i == h {
        dest.port as int / 256
    } else if i == h + 1 {
        dest.port as int % 256
    } else if 12 <= i < 16 {
        octet(restore_ip(dest), i - 12) as int
    } else {
        p[i] as int
    } by {
        if 16 <= i < 20 {
            assert(q[i] == dest.src_ip.octets()[i - 16]);
        } else {
            assert(q[i] == q2[i]);
            if i != h && i != h + 1 {
                assert(q2[i] == q1[i]);
                if 12 <= i < 16 {
                    assert(q1[i] == restore_ip(dest).octets()[i - 12]);
                }
            }
        }
    }
}

/// A restored TCP packet ends its flow if and only if it has FIN or RST, whatever its other flags; a
/// UDP packet, or one that does not reach to its flags, ends none. The flags are those that came in,
/// if the header states its 20 bytes.
pub proof fn only_fin_and_rst_end_a_flow(p: Seq<u8>, dest: OriginalDest)
    requires
        is_flow_packet(p),
    ensures
        return_closes(p, dest) <==> has_flags(p) && fin_or_rst(
            restored(p, dest)[ports_at(p) + 13],
        ),
        ports_at(p) >= 20 ==> (return_closes(p, dest) <==> has_flags(p) && fin_or_rst(
            p[ports_at(p) + 13],
        )),
{
    if has_flags(p) {
        lemma_flags(restored(p, dest)[ports_at(p) + 13]);
        restoration_writes_these_bytes(p, dest);
        assert(0 <= ports_at(p) + 13 < p.len());
    }
}

/// After a packet of a flow went back, the flow is gone if the packet ends it, and otherwise it is
/// there with its destination, seen just now. No other flow is touched.
pub proof fn a_return_packet_renews_or_ends_its_flow(
    flows: Map<NatKey, OriginalDest>,
    key: NatKey,
    closes: bool,
    now: u64,
    other: NatKey,
)
    requires
        flows.contains_key(key),
    ensures
        ({
            let after = flows_after_return(flows, key, closes, now);
            &&& closes ==> !after.contains_key(key)
            &&& !closes ==> after.contains_key(key) && after[key] == OriginalDest {
                ip: flows[key].ip,
                port: flows[key].port,
                src_ip: flows[key].src_ip,
                dns_restore_ip: flows[key].dns_restore_ip,
                last_seen: now,
            }
            &&& other != key ==> (after.contains_key(other) <==> flows.contains_key(other))
            &&& other != key && flows.contains_key(other) ==> after[other] == flows[other]
        }),
{
}

/// A flow is taken out as stale if and only if it is one of UDP and was seen more than `max_age`
/// before; the others stay as they are.
pub proof fn only_old_udp_flows_are_stale(
    flows: Map<NatKey, OriginalDest>,
    key: NatKey,
    now: u64,
    max_age: u64,
)
    ensures
        ({
            let left = without_stale(flows, now, max_age);
            &&& left.contains_key(key) <==> flows.contains_key(key) && !(key.protocol is Udp && now
                > flows[key].last_seen + max_age)
            &&& left.contains_key(key) ==> left[key] == flows[key]
        }),
{
}

/// A touched flow is as it was but for the time, if it is there, and nothing else changes.
pub proof fn touch_changes_the_time_alone(
    flows: Map<NatKey, OriginalDest>,
    key: NatKey,
    now: u64,
    other: NatKey,
)
    ensures
        ({
            let after = touched(flows, key, now);
            &&& after.contains_key(other) <==> flows.contains_key(other)
            &&& flows.contains_key(other) && other != key ==> after[other] == flows[other]
            &&& flows.contains_key(key) ==> after[key] == OriginalDest {
                ip: flows[key].ip,
                port: flows[key].port,
                src_ip: flows[key].src_ip,
                dns_restore_ip: flows[key].dns_restore_ip,
                last_seen: now,
            }
        }),
{
}

/// The time between two readings of the clock; none if the second is the earlier.
pub proof fn elapsed_is_the_difference(now: u64, since: u64)
    ensures
        now >= since ==> elapsed(now, since) == now - since,
        now <= since ==> elapsed(now, since) == 0,
{
}

/// Ports are written high byte first, and read as they are written.
pub proof fn ports_are_big_endian(n: u16, hi: u8, lo: u8)
    ensures
        be_bytes(n).len() == 2,
        be_bytes(n)[0] * 256 + be_bytes(n)[1] == n,
        be16(hi, lo) == hi * 256 + lo,
{
}

/// A whole flow in terms of bytes: after a TCP or UDP packet `p` was redirected, a packet `r` of the
/// same protocol from one address to the same address and `p`'s source port is restored so that it
/// goes from `p`'s destination, address and port, to `p`'s sender, address and port.
pub proof fn replies_come_from_where_the_packet_went(
    p: Seq<u8>,
    r: Seq<u8>,
    flows: Map<NatKey, OriginalDest>,
    toggle: DnsToggle,
    now: u64,
)
    requires
        is_flow_packet(p),
        is_flow_packet(r),
        ports_at(r) >= 20,
        p[9] == r[9],
        ip_at(r, 12) == ip_at(r, 16),
        word(r, ports_at(r) + 2) == word(p, ports_at(p)),
    ensures
        ({
            let known = flows.insert(flow_key(p), flow_dest(p, toggle.server(), now));
            &&& return_key(r) matches Some(key)
            &&& known.contains_key(key)
            &&& {
                let q = restored(r, known[key]);
                &&& ip_at(q, 12) == ip_at(p, 16)
                &&& ip_at(q, 16) == ip_at(p, 12)
                &&& word(q, ports_at(q)) == word(p, ports_at(p) + 2)
                &&& word(q, ports_at(q) + 2) == word(p, ports_at(p))
            }
        }),
{
    let dest = flow_dest(p, toggle.server(), now);
    return_packets_are_known_by_their_bytes(r);
    packets_are_known_by_their_bytes(p);
    redirection_remembers_the_packet(p, toggle, now);
    restoration_writes_these_bytes(r, dest);
    let q = restored(r, dest);
    let h = ports_at(r);
    assert(q[0] == r[0]);
    assert(q[12] == p[16] && q[13] == p[17] && q[14] == p[18] && q[15] == p[19]);
    assert(q[16] == p[12] && q[17] == p[13] && q[18] == p[14] && q[19] == p[15]);
    assert(q[h + 2] == r[h + 2] && q[h + 3] == r[h + 3]);
    assert(q[h] as int == dest.port as int / 256 && q[h + 1] as int == dest.port as int % 256);
}

} // verus!
