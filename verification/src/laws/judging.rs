//! The judging of outbound packets, by their bytes and the sets and maps of the state.
use crate::laws::packets::{
    fin_or_rst, has_flags, is_flow_packet, packets_are_known_by_their_bytes, ports_at, syn, word,
};
use crate::nat_table::{NatKey, Protocol};
use crate::outbound::{
    begin_spec, cleaned, outcome, owner_spec, process_spec, OutboundState, PortOwner, Step,
};
use vstd::prelude::*;

verus! {

/// The source port of a packet.
pub open spec fn from_port(p: Seq<u8>) -> u16 {
    word(p, ports_at(p)) as u16
}

/// Whether a packet is a query, to port 53.
pub open spec fn to_53(p: Seq<u8>) -> bool {
    word(p, ports_at(p) + 2) == 53
}

/// What the state knows of the ports of the packet's protocol.
pub open spec fn ports_like(st: OutboundState, p: Seq<u8>) -> Map<u16, PortOwner> {
    if p[9] == 6 {
        st.tcp_ports
    } else {
        st.udp_ports
    }
}

/// Whether the owner of the packet's port is taken from what is known: it is known, and the packet
/// does not open a TCP connection.
pub open spec fn owner_is_known(st: OutboundState, p: Seq<u8>) -> bool {
    ports_like(st, p).contains_key(from_port(p)) && !(has_flags(p) && syn(p[ports_at(p) + 13]))
}

/// Whether the packet ends a TCP connection.
pub open spec fn hangs_up(p: Seq<u8>) -> bool {
    has_flags(p) && fin_or_rst(p[ports_at(p) + 13])
}

/// Whether `st1` differs from `st` at most in the targets and in the entry of the packet's port,
/// which is `pid` since `now`, or is gone.
pub open spec fn port_entered(
    st: OutboundState,
    st1: OutboundState,
    p: Seq<u8>,
    pid: u32,
    now: u64,
    gone: bool,
) -> bool {
    let ports = ports_like(st, p);
    let after = if gone {
        ports.remove(from_port(p))
    } else {
        ports.insert(from_port(p), PortOwner { pid, last_seen: now })
    };
    &&& ports_like(st1, p) == after
    &&& p[9] == 6 ==> st1.udp_ports == st.udp_ports
    &&& p[9] != 6 ==> st1.tcp_ports == st.tcp_ports
    &&& st1.last_refresh == st.last_refresh
    &&& st1.last_cleanup == st.last_cleanup
}

/// The step that a packet ends with: it is redirected if it belongs to the tunnel and does not go to
/// 127.0.0.0/8.
pub open spec fn sent(p: Seq<u8>, tunneled: bool) -> Step {
    if tunneled && p[16] != 127 {
        Step::Redirect
    } else {
        Step::Reinject
    }
}

/// A packet that is not a TCP or UDP packet of IPv4 with its ports passes, and leaves no trace.
pub proof fn other_packets_pass(
    st: OutboundState,
    p: Seq<u8>,
    now: u64,
    own_pid: u32,
    found: Option<u32>,
    pid: u32,
    matched: bool,
)
    requires
        !is_flow_packet(p),
    ensures
        begin_spec(st, p, now) == (st, Step::Reinject),
        owner_spec(st, p, now, own_pid, found) == (st, Step::Reinject),
        process_spec(st, p, pid, matched) == (st, Step::Reinject),
{
    packets_are_known_by_their_bytes(p);
}

/// For a query, and where the owner is not known, the owner of the packet's port is asked for, and
/// nothing changes. Otherwise the packet is redirected if its owner is tunneled and it leaves this
/// machine, and the entry of its port is renewed, or dropped if the packet ends the connection.
pub proof fn the_first_step(st: OutboundState, p: Seq<u8>, now: u64)
    requires
        is_flow_packet(p),
    ensures
        ({
            let (st1, step) = begin_spec(st, p, now);
            if to_53(p) || !owner_is_known(st, p) {
                &&& st1 == st
                &&& step == Step::AskOwner(
                    NatKey {
                        protocol: if p[9] == 6 {
                            Protocol::Tcp
                        } else {
                            Protocol::Udp
                        },
                        src_port: from_port(p),
                    },
                )
            } else {
                let pid = ports_like(st, p)[from_port(p)].pid;
                &&& step == sent(p, st.targets.contains(pid))
                &&& st1.targets == st.targets
                &&& port_entered(st, st1, p, pid, now, hangs_up(p))
            }
        }),
{
    packets_are_known_by_their_bytes(p);
    let (st1, step) = begin_spec(st, p, now);
    if !to_53(p) && owner_is_known(st, p) {
        let port = from_port(p);
        let owner = PortOwner { pid: ports_like(st, p)[port].pid, last_seen: now };
        assert(ports_like(st, p).insert(port, owner).remove(port) =~= ports_like(st, p).remove(
            port,
        ));
    }
}

/// A query is redirected unless it comes from this process or stays on this machine, and nothing
/// changes. Another packet's port is entered for its owner, or for process 0 if there is none or it
/// is this process. A process that is not tunneled yet is looked up; otherwise the packet is
/// redirected if its owner is tunneled and it leaves this machine.
pub proof fn the_step_after_the_owner(
    st: OutboundState,
    p: Seq<u8>,
    now: u64,
    own_pid: u32,
    found: Option<u32>,
)
    requires
        is_flow_packet(p),
    ensures
        ({
            let (st1, step) = owner_spec(st, p, now, own_pid, found);
            let pid = if found is Some && found->0 != own_pid {
                found->0
            } else {
                0u32
            };
            &&& st1.targets == st.targets
            &&& to_53(p) ==> st1 == st && step == sent(p, found is None || found->0 != own_pid)
            &&& !to_53(p) && pid != 0 && !st.targets.contains(pid) ==> {
                &&& step == Step::AskProcess(pid)
                &&& port_entered(st, st1, p, pid, now, false)
            }
            &&& !to_53(p) && (pid == 0 || st.targets.contains(pid)) ==> {
                &&& step == sent(p, st.targets.contains(pid))
                &&& port_entered(st, st1, p, pid, now, hangs_up(p))
            }
        }),
{
    packets_are_known_by_their_bytes(p);
    let pid = if found is Some && found->0 != own_pid {
        found->0
    } else {
        0u32
    };
    let port = from_port(p);
    let owner = PortOwner { pid, last_seen: now };
    assert(ports_like(st, p).insert(port, owner).remove(port) =~= ports_like(st, p).remove(port));
}

/// A process that a rule speaks of is tunneled from this packet on, for TCP and UDP alike; otherwise
/// the tunneled processes stay as they are. The packet is redirected if its owner is then tunneled
/// and it leaves this machine.
pub proof fn the_step_after_the_rules(st: OutboundState, p: Seq<u8>, pid: u32, matched: bool)
    requires
        is_flow_packet(p),
    ensures
        ({
            let (st1, step) = process_spec(st, p, pid, matched);
            &&& matched ==> st1.targets == st.targets.insert(pid) && step == sent(p, true)
            &&& !matched ==> st1.targets == st.targets && step == sent(
                p,
                st.targets.contains(pid),
            )
            &&& hangs_up(p) ==> ports_like(st1, p) == ports_like(st, p).remove(from_port(p))
            &&& !hangs_up(p) ==> ports_like(st1, p) == ports_like(st, p)
            &&& p[9] == 6 ==> st1.udp_ports == st.udp_ports
            &&& p[9] != 6 ==> st1.tcp_ports == st.tcp_ports
            &&& st1.last_refresh == st.last_refresh
            &&& st1.last_cleanup == st.last_cleanup
        }),
{
    packets_are_known_by_their_bytes(p);
}

/// What a rule matches is tunneled: if the owner of a packet that is no query has to be asked for,
/// and is a process other than this one and not 0, and a rule speaks of it, then it is tunneled
/// afterwards and the packet is redirected, unless it goes to 127.0.0.0/8, be it of TCP or of UDP.
/// The next packet from the port, if it opens no connection and the first ended none, is then
/// redirected without a question.
pub proof fn what_a_rule_matches_is_tunneled(
    st: OutboundState,
    p: Seq<u8>,
    now: u64,
    own_pid: u32,
    pid: u32,
    next: Seq<u8>,
    later: u64,
)
    requires
        is_flow_packet(p),
        !to_53(p),
        !owner_is_known(st, p),
        pid != own_pid,
        pid != 0,
    ensures
        ({
            let (st1, step) = outcome(st, p, now, own_pid, Some(pid), true);
            &&& st1.targets == st.targets.insert(pid)
            &&& step == sent(p, true)
            &&& is_flow_packet(next) && next[9] == p[9] && from_port(next) == from_port(p)
                && !to_53(next) && !hangs_up(p) && !(has_flags(next) && syn(
                next[ports_at(next) + 13],
            )) ==> begin_spec(st1, next, later).1 == sent(next, true)
        }),
{
    the_first_step(st, p, now);
    the_step_after_the_owner(st, p, now, own_pid, Some(pid));
    let st2 = owner_spec(st, p, now, own_pid, Some(pid)).0;
    the_step_after_the_rules(st2, p, pid, true);
    let st1 = outcome(st, p, now, own_pid, Some(pid), true).0;
    assert(st.targets.contains(pid) ==> st.targets.insert(pid) =~= st.targets);
    if is_flow_packet(next) {
        the_first_step(st1, next, later);
    }
}

/// A packet whose owner is not tunneled and not matched by a rule passes.
pub proof fn what_no_rule_matches_passes(
    st: OutboundState,
    p: Seq<u8>,
    now: u64,
    own_pid: u32,
    found: Option<u32>,
)
    requires
        is_flow_packet(p),
        !to_53(p),
        !owner_is_known(st, p),
        found is Some && found->0 != own_pid ==> !st.targets.contains(found->0),
        !(found is Some && found->0 != own_pid) ==> !st.targets.contains(0),
    ensures
        outcome(st, p, now, own_pid, found, false).1 == Step::Reinject,
        outcome(st, p, now, own_pid, found, false).0.targets == st.targets,
{
    the_first_step(st, p, now);
    the_step_after_the_owner(st, p, now, own_pid, found);
    let st2 = owner_spec(st, p, now, own_pid, found).0;
    if found is Some {
        the_step_after_the_rules(st2, p, found->0, false);
    }
}

/// The owners of ports are forgotten at most every ten seconds: of TCP ports that were idle for five
/// minutes or more, and of UDP ports that were idle for half a minute or more. The others stay, and
/// so does everything else.
pub proof fn idle_owners_are_forgotten(st: OutboundState, now: u64, port: u16)
    ensures
        ({
            let st1 = cleaned(st, now);
            let due = now >= st.last_cleanup + 10_000_000_000;
            &&& st1.targets == st.targets && st1.last_refresh == st.last_refresh
            &&& st1.last_cleanup == if due {
                now
            } else {
                st.last_cleanup
            }
            &&& st1.tcp_ports.contains_key(port) <==> st.tcp_ports.contains_key(port) && !(due && now
                >= st.tcp_ports[port].last_seen + 300_000_000_000)
            &&& st1.udp_ports.contains_key(port) <==> st.udp_ports.contains_key(port) && !(due && now
                >= st.udp_ports[port].last_seen + 30_000_000_000)
            &&& st1.tcp_ports.contains_key(port) ==> st1.tcp_ports[port] == st.tcp_ports[port]
            &&& st1.udp_ports.contains_key(port) ==> st1.udp_ports[port] == st.udp_ports[port]
        }),
{
}

} // verus!
