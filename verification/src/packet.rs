//! IPv4 packets: the fields that redirection reads, and the bytes that it replaces.
use crate::ipv4::Ipv4Addr;
use crate::nat_table::{OriginalDest, Protocol};
use vstd::prelude::*;

verus! {

/// The protocol number of TCP.
pub const PROTO_TCP: u8 = 6;

/// The protocol number of UDP.
pub const PROTO_UDP: u8 = 17;

/// Two bytes in network order as a number.
pub open spec fn be16(hi: u8, lo: u8) -> u16 {
    (hi * 256 + lo) as u16
}

/// A number as two bytes in network order.
pub open spec fn be_bytes(n: u16) -> Seq<u8> {
    seq![(n / 256) as u8, (n % 256) as u8]
}

/// Whether `p` has a whole minimal header and says that it is of version 4.
pub open spec fn is_ipv4(p: Seq<u8>) -> bool {
    p.len() >= 20 && p[0] / 16 == 4
}

/// The header length that the packet states, in bytes.
pub open spec fn header_len(p: Seq<u8>) -> int {
    (p[0] % 16) * 4
}

/// Whether the packet is of version 4 and reaches to the end of its port numbers.
pub open spec fn has_ports(p: Seq<u8>) -> bool {
    is_ipv4(p) && p.len() >= header_len(p) + 4
}

/// Whether the port numbers stand clear of the addresses, as they do in every packet that states
/// its whole header.
pub open spec fn ports_clear_addresses(p: Seq<u8>) -> bool {
    header_len(p) + 4 <= 12 || header_len(p) >= 20
}

/// Whether the port numbers stand clear of the addresses, of the byte with the header's length, and
/// of the byte with the protocol.
pub open spec fn ports_clear_header(p: Seq<u8>) -> bool {
    &&& ports_clear_addresses(p)
    &&& header_len(p) > 0
    &&& !(header_len(p) <= 9 < header_len(p) + 4)
}

/// The source port.
pub open spec fn src_port(p: Seq<u8>) -> u16 {
    be16(p[header_len(p)], p[header_len(p) + 1])
}

/// The destination port.
pub open spec fn dst_port(p: Seq<u8>) -> u16 {
    be16(p[header_len(p) + 2], p[header_len(p) + 3])
}

/// The source address.
pub open spec fn src_ip(p: Seq<u8>) -> Ipv4Addr {
    Ipv4Addr { a: p[12], b: p[13], c: p[14], d: p[15] }
}

/// The destination address.
pub open spec fn dst_ip(p: Seq<u8>) -> Ipv4Addr {
    Ipv4Addr { a: p[16], b: p[17], c: p[18], d: p[19] }
}

/// Which of the redirected protocols the packet is of.
pub open spec fn protocol_of(p: Seq<u8>) -> Option<Protocol> {
    if p[9] == PROTO_TCP {
        Some(Protocol::Tcp)
    } else if p[9] == PROTO_UDP {
        Some(Protocol::Udp)
    } else {
        None
    }
}

/// The flags of a TCP packet that reaches to them; none are set otherwise.
pub open spec fn tcp_flags(p: Seq<u8>) -> u8 {
    if p[9] == PROTO_TCP && p.len() >= header_len(p) + 14 {
        p[header_len(p) + 13]
    } else {
        0
    }
}

/// Whether the packet opens a TCP connection (`SYN`).
pub open spec fn opens_tcp(p: Seq<u8>) -> bool {
    tcp_flags(p) & 0x02 != 0
}

/// Whether the packet ends a TCP connection (`FIN` or `RST`).
pub open spec fn closes_tcp(p: Seq<u8>) -> bool {
    tcp_flags(p) & 0x05 != 0
}

/// `p` with `bytes` in the place of those from `at` on.
pub open spec fn put(p: Seq<u8>, at: int, bytes: Seq<u8>) -> Seq<u8> {
    p.take(at) + bytes + p.skip(at + bytes.len())
}

/// The packet turned back to its own sender, to `port`.
pub open spec fn redirected(p: Seq<u8>, port: u16) -> Seq<u8> {
    put(put(p, 16, src_ip(p).octets()), header_len(p) + 2, be_bytes(port))
}

/// The address that a return packet seems to come from: the resolver that was asked, where the
/// query went to another one, else the destination.
pub open spec fn restore_ip(dest: OriginalDest) -> Ipv4Addr {
    match dest.dns_restore_ip {
        Some(ip) => ip,
        None => dest.ip,
    }
}

/// The packet as if it came straight from the destination to the sender of the flow.
pub open spec fn restored(p: Seq<u8>, dest: OriginalDest) -> Seq<u8> {
    put(
        put(put(p, 12, restore_ip(dest).octets()), header_len(p), be_bytes(dest.port)),
        16,
        dest.src_ip.octets(),
    )
}

/// Two bytes in network order as a number.
pub fn u16_from_be(hi: u8, lo: u8) -> (r: u16)
    ensures
        r == be16(hi, lo),
{
    hi as u16 * 256 + lo as u16
}

/// Whether the packet is of version 4 with a whole minimal header.
pub fn ipv4_header(p: &[u8]) -> (r: bool)
    ensures
        r == is_ipv4(p@),
{
    p.len() >= 20 && p[0] / 16 == 4
}

/// The header length that the packet states.
pub fn stated_header_len(p: &[u8]) -> (r: usize)
    requires
        p@.len() > 0,
    ensures
        r == header_len(p@),
        r <= 60,
{
    (p[0] % 16) as usize * 4
}

/// The source address.
pub fn read_src_ip(p: &[u8]) -> (r: Ipv4Addr)
    requires
        p@.len() >= 20,
    ensures
        r == src_ip(p@),
{
    Ipv4Addr::new(p[12], p[13], p[14], p[15])
}

/// The destination address.
pub fn read_dst_ip(p: &[u8]) -> (r: Ipv4Addr)
    requires
        p@.len() >= 20,
    ensures
        r == dst_ip(p@),
{
    Ipv4Addr::new(p[16], p[17], p[18], p[19])
}

/// Which of the redirected protocols the packet is of.
pub fn read_protocol(p: &[u8]) -> (r: Option<Protocol>)
    requires
        p@.len() >= 20,
    ensures
        r == protocol_of(p@),
{
    if p[9] == PROTO_TCP {
        Some(Protocol::Tcp)
    } else if p[9] == PROTO_UDP {
        Some(Protocol::Udp)
    } else {
        None
    }
}

/// The flags of a TCP packet that reaches to them.
pub fn read_tcp_flags(p: &[u8]) -> (r: u8)
    requires
        p@.len() >= 20,
    ensures
        r == tcp_flags(p@),
{
    let h = stated_header_len(p);
    if p[9] == PROTO_TCP && p.len() >= h + 14 {
        p[h + 13]
    } else {
        0
    }
}

/// Writes an address over the four bytes from `at` on.
fn write_ip(p: &mut [u8], at: usize, ip: Ipv4Addr)
    requires
        at + 4 <= old(p)@.len(),
    ensures
        final(p)@ == put(old(p)@, at as int, ip.octets()),
{
    p[at] = ip.a;
    p[at + 1] = ip.b;
    p[at + 2] = ip.c;
    p[at + 3] = ip.d;
    assert(p@ =~= put(old(p)@, at as int, ip.octets()));
}

/// Writes a port over the two bytes from `at` on.
fn write_port(p: &mut [u8], at: usize, port: u16)
    requires
        at + 2 <= old(p)@.len(),
    ensures
        final(p)@ == put(old(p)@, at as int, be_bytes(port)),
{
    p[at] = (port / 256) as u8;
    p[at + 1] = (port % 256) as u8;
    assert(p@ =~= put(old(p)@, at as int, be_bytes(port)));
}

/// Turns the packet back to its own sender, to `port`.
pub fn redirect(p: &mut [u8], port: u16)
    requires
        has_ports(old(p)@),
    ensures
        final(p)@ == redirected(old(p)@, port),
{
    let h = stated_header_len(p);
    let ip = read_src_ip(p);
    write_ip(p, 16, ip);
    write_port(p, h + 2, port);
}

/// Makes the packet seem to come straight from the destination to the sender of the flow.
pub fn restore(p: &mut [u8], dest: OriginalDest)
    requires
        has_ports(old(p)@),
    ensures
        final(p)@ == restored(old(p)@, dest),
{
    let h = stated_header_len(p);
    let ip = match dest.dns_restore_ip {
        Some(ip) => ip,
        None => dest.ip,
    };
    write_ip(p, 12, ip);
    write_port(p, h, dest.port);
    write_ip(p, 16, dest.src_ip);
}

} // verus!
