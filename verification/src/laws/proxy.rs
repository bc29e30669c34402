//! The routing of connections and datagrams, by the fields of the settings and of the sessions.
use crate::ipv4::Ipv4Addr;
use crate::nat_table::{NatKey, OriginalDest};
use crate::proxy::{
    carries, client_part, is_dial, is_proxy_choice, is_route, released, sessions_after,
    without_idle, Datagram, TcpDial, UdpBackend, UdpRoute, UdpSession,
};
use crate::socks5::{encapsulated, Client, Command, Move, Next};
use crate::state::ProxyConfig;
use crate::text::decimal;
use vstd::prelude::*;

verus! {

/// The address of the proxy is its host, a colon, and its port.
pub proof fn the_address_is_host_and_port(config: ProxyConfig)
    ensures
        config.addr_text() == config.host@ + seq![':'] + decimal(config.port as nat),
{
    reveal_strlit(":");
}

/// A connection goes through the proxy if and only if the proxy is switched on and has a host,
/// whatever its port, user name and password; it is then asked for with that user name and that
/// password. Otherwise it goes straight to its destination.
pub proof fn an_enabled_proxy_is_used_for_connections(
    dial: TcpDial,
    config: ProxyConfig,
    dest: OriginalDest,
)
    requires
        is_dial(dial, config, dest),
    ensures
        dial is Proxied <==> config.enabled && config.host@.len() > 0,
        dial matches TcpDial::Direct { ip, port } ==> ip == dest.ip && port == dest.port,
        dial matches TcpDial::Proxied { ip, port, addr, client, first } ==> {
            &&& ip == dest.ip
            &&& port == dest.port
            &&& addr@ == config.host@ + seq![':'] + decimal(config.port as nat)
            &&& client.command() == (Command::Connect { ip: dest.ip, port: dest.port })
            &&& client.user() == match config.username {
                Some(user) => Some(user@),
                None => None,
            }
            &&& client.pass() == match config.password {
                Some(password) => Some(password@),
                None => None,
            }
        },
{
    the_address_is_host_and_port(config);
}

/// Every request to the proxy, for a connection, for a relay or on trial, is for what is asked, and
/// goes out with the user name and the password of the settings; a password is offered if and only
/// if both are set.
pub proof fn requests_carry_the_settings(r: (Client, Next), config: ProxyConfig, command: Command)
    requires
        config.requests(r, command),
    ensures
        r.0.command() == command,
        r.0.user() is Some <==> config.username is Some,
        r.0.pass() is Some <==> config.password is Some,
        config.username matches Some(user) ==> r.0.user() == Some(user@),
        config.password matches Some(password) ==> r.0.pass() == Some(password@),
        r.1@ == (Move::Exchange {
            send: if config.username is Some && config.password is Some {
                seq![5u8, 2u8, 0u8, 2u8]
            } else {
                seq![5u8, 1u8, 0u8]
            },
            read: 2,
        }),
{
}

/// The proxy is in use if and only if it is switched on and has a host, whatever its port, user name
/// and password.
pub proof fn a_proxy_is_chosen_by_switch_and_host(config: ProxyConfig, proxy: Option<String>)
    requires
        is_proxy_choice(config, proxy),
    ensures
        config.in_use() <==> config.enabled && config.host@.len() > 0,
        proxy is Some <==> config.enabled && config.host@.len() > 0,
        proxy matches Some(addr) ==> addr@ == config.host@ + seq![':'] + decimal(
            config.port as nat,
        ),
{
    the_address_is_host_and_port(config);
}

/// A datagram to port 53 goes out by itself. Another goes out in the session of its port, if there is
/// one, the way that the session was opened. If there is none, one is opened: through the proxy if
/// and only if the proxy is switched on and has a host.
pub proof fn datagrams_are_routed_by_port_and_session(
    r: UdpRoute,
    sessions: Map<u16, UdpSession>,
    config: ProxyConfig,
    peer_port: u16,
    ip: Ipv4Addr,
    port: u16,
    data: Seq<u8>,
)
    requires
        is_route(r, sessions, config, peer_port, ip, port, data),
    ensures
        port == 53 ==> r == UdpRoute::Dns(ip),
        port != 53 && sessions.contains_key(peer_port) ==> (r matches UdpRoute::Send(out)
            && match sessions[peer_port].backend {
            UdpBackend::Direct => out.ip == ip && out.port == port && out.data@ == data,
            UdpBackend::Socks5 { relay_ip, relay_port } => out.ip == relay_ip && out.port
                == relay_port && out.data@ == encapsulated(ip, port, data),
        }),
        port != 53 && !sessions.contains_key(peer_port) ==> {
            &&& r is Open
            &&& r->Open_0 is Some <==> config.enabled && config.host@.len() > 0
            &&& r->Open_0 matches Some(addr) ==> addr@ == config.host@ + seq![':'] + decimal(
                config.port as nat,
            )
        },
{
    the_address_is_host_and_port(config);
}

/// A relayed datagram is ten bytes and the data: three zeros, the kind 1, the address, and the port,
/// high byte first.
pub proof fn a_relayed_datagram_has_these_bytes(ip: Ipv4Addr, port: u16, data: Seq<u8>)
    ensures
        ({
            let pkt = encapsulated(ip, port, data);
            &&& pkt.len() == 10 + data.len()
            &&& pkt[0] == 0 && pkt[1] == 0 && pkt[2] == 0 && pkt[3] == 1
            &&& pkt[4] == ip.a && pkt[5] == ip.b && pkt[6] == ip.c && pkt[7] == ip.d
            &&& pkt[8] * 256 + pkt[9] == port
            &&& forall|i: int| 0 <= i < data.len() ==> #[trigger] pkt[10 + i] == data[i]
        }),
{
}

/// What a session sends goes to the destination as it is, or to the relay behind a header.
pub proof fn datagrams_carry_the_data(
    out: Datagram,
    backend: UdpBackend,
    ip: Ipv4Addr,
    port: u16,
    data: Seq<u8>,
)
    requires
        carries(out, backend, ip, port, data),
    ensures
        backend is Direct ==> out.ip == ip && out.port == port && out.data@ == data,
        backend matches UdpBackend::Socks5 { relay_ip, relay_port } ==> {
            &&& out.ip == relay_ip
            &&& out.port == relay_port
            &&& out.data@ == encapsulated(ip, port, data)
        },
{
}

/// The client gets all that comes back without a relay, and from a relay what stands behind ten
/// bytes of which the fourth is 1; of any other datagram from a relay it gets nothing.
pub proof fn the_client_gets_what_stands_behind_the_header(
    backend: UdpBackend,
    received: Seq<u8>,
)
    ensures
        backend is Direct ==> client_part(backend, received) == Some(received),
        backend is Socks5 && received.len() >= 10 && received[3] == 1 ==> client_part(
            backend,
            received,
        ) == Some(received.subrange(10, received.len() as int)),
        backend is Socks5 && !(received.len() >= 10 && received[3] == 1) ==> client_part(
            backend,
            received,
        ) is None,
{
    if received.len() >= 10 {
        assert(received.skip(10) =~= received.subrange(10, received.len() as int));
    }
}

/// A datagram that is no query renews the session of its port, and nothing else changes.
pub proof fn a_datagram_renews_its_session(
    sessions: Map<u16, UdpSession>,
    peer_port: u16,
    dest_port: u16,
    now: u64,
    port: u16,
)
    ensures
        ({
            let after = sessions_after(sessions, peer_port, dest_port, now);
            &&& after.contains_key(port) <==> sessions.contains_key(port)
            &&& sessions.contains_key(port) ==> after[port].backend == sessions[port].backend
            &&& sessions.contains_key(port) ==> after[port].last_activity == if port == peer_port
                && dest_port != 53 {
                now
            } else {
                sessions[port].last_activity
            }
        }),
{
}

/// A session is over if and only if its port has not sent for more than 30 seconds.
pub proof fn sessions_end_after_thirty_idle_seconds(
    sessions: Map<u16, UdpSession>,
    now: u64,
    port: u16,
)
    ensures
        ({
            let left = without_idle(sessions, now);
            &&& left.contains_key(port) <==> sessions.contains_key(port) && now
                <= sessions[port].last_activity + 30_000_000_000
            &&& left.contains_key(port) ==> left[port] == sessions[port]
        }),
{
}

/// A guard takes out its flow, the first time it is released, and no other flow at any time.
pub proof fn a_guard_takes_out_its_own_flow(
    flows: Map<NatKey, OriginalDest>,
    key: NatKey,
    removed: bool,
    other: NatKey,
)
    ensures
        ({
            let after = released(flows, key, removed);
            &&& after.contains_key(other) <==> flows.contains_key(other) && (removed || other != key)
            &&& after.contains_key(other) ==> after[other] == flows[other]
        }),
{
}

} // verus!
