//! The commands and the monitor, by the processes, the switch, the engine and the flows.
use crate::control::{
    after_removal, after_start, batch_spec, begin_spec, count_text, is_matched, round, shut_down,
    start_failure, switch_spec, test_command, tick_spec, with_settings, PersistedConfig,
    SwitchStep, TunnelStep,
};
use crate::ipv4::Ipv4Addr;
use crate::laws::rules::{a_process_is_matched_by_any_rule, saved_rules_are_each_there_once, speaks_of};
use crate::nat_table::{NatKey, OriginalDest};
use crate::process_list::ProcessInfo;
use crate::socks5::Command;
use crate::state::Session;
use crate::text::decimal;
use vstd::prelude::*;

verus! {

/// The state with other processes, another engine, and other flows; the settings are the same.
pub open spec fn with(
    st: Session,
    pids: Set<u32>,
    running: bool,
    flows: Map<NatKey, OriginalDest>,
) -> Session {
    Session {
        pids,
        running,
        flows,
        config: st.config,
        rules: st.rules,
        started: st.started,
        dns: st.dns,
    }
}

/// A process that is tunneled stays so, and nothing changes. While the tunnel is on and the engine
/// does not run, it has to be started for another process, and the flows are dropped. Otherwise the
/// process is added, and nothing else changes.
pub proof fn a_process_is_added_or_waits_for_the_engine(st: Session, pid: u32)
    ensures
        st.pids.contains(pid) ==> begin_spec(st, pid) == (st, TunnelStep::AlreadyActive),
        !st.pids.contains(pid) && st.started && !st.running ==> begin_spec(st, pid) == (
            with(st, st.pids, false, Map::empty()),
            TunnelStep::StartEngine,
        ),
        !st.pids.contains(pid) && (!st.started || st.running) ==> begin_spec(st, pid) == (
            with(st, st.pids.insert(pid), st.running, st.flows),
            TunnelStep::Added,
        ),
{
}

/// Once the engine was started for a process, it runs and the process is tunneled; if it could not
/// be started, nothing changes.
pub proof fn a_start_adds_its_process(st: Session, pid: u32)
    ensures
        after_start(st, pid, true) == with(st, st.pids.insert(pid), true, st.flows),
        after_start(st, pid, false) == st,
{
}

/// A list stops at its first process that is not tunneled, if the tunnel is on and the engine does
/// not run; it is then to be started there, and the flows are dropped. Otherwise the whole list is
/// tunneled, and nothing else changes.
pub proof fn a_list_stops_at_the_first_start(st: Session, pids: Seq<u32>, from: int)
    requires
        0 <= from <= pids.len(),
    ensures
        ({
            let (st1, at) = batch_spec(st, pids, from);
            &&& !(st.started && !st.running) ==> at is None && st1 == with(
                st,
                st.pids.union(pids.subrange(from, pids.len() as int).to_set()),
                st.running,
                st.flows,
            )
            &&& st.started && !st.running ==> match at {
                None => st1 == st && forall|k: int|
                    from <= k < pids.len() ==> st.pids.contains(#[trigger] pids[k]),
                Some(i) => {
                    &&& from <= i < pids.len()
                    &&& !st.pids.contains(pids[i])
                    &&& forall|k: int| from <= k < i ==> st.pids.contains(#[trigger] pids[k])
                    &&& st1 == with(st, st.pids, false, Map::empty())
                },
            }
        }),
    decreases pids.len() - from,
{
    if from < pids.len() {
        a_process_is_added_or_waits_for_the_engine(st, pids[from]);
        let (st0, step) = begin_spec(st, pids[from]);
        if step != TunnelStep::StartEngine {
            a_list_stops_at_the_first_start(st0, pids, from + 1);
            let rest = pids.subrange(from + 1, pids.len() as int);
            let all = pids.subrange(from, pids.len() as int);
            assert(all =~= seq![pids[from]] + rest);
            assert forall|x: u32| #[trigger] all.contains(x) <==> rest.contains(x) || x
                == pids[from] by {
                if rest.contains(x) {
                    let k = choose|k: int| 0 <= k < rest.len() && rest[k] == x;
                    assert(all[k + 1] == x);
                }
                if x == pids[from] {
                    assert(all[0] == x);
                }
                if all.contains(x) {
                    let k = choose|k: int| 0 <= k < all.len() && all[k] == x;
                    if k > 0 {
                        assert(rest[k - 1] == x);
                    }
                }
            }
            assert(st0.pids.union(rest.to_set()) =~= st.pids.union(all.to_set()));
        }
    } else {
        assert(pids.subrange(from, pids.len() as int).to_set() =~= Set::<u32>::empty());
        assert(st.pids.union(Set::<u32>::empty()) =~= st.pids);
    }
}

/// With the last process the engine and the flows go; while others are left, they stay. The settings
/// stay in any case.
pub proof fn the_last_process_takes_the_engine_along(st: Session, left: Set<u32>)
    ensures
        !left.is_empty() || st.pids.is_empty() ==> after_removal(st, left) == with(
            st,
            left,
            st.running,
            st.flows,
        ),
        left.is_empty() && !st.pids.is_empty() ==> after_removal(st, left) == with(
            st,
            left,
            false,
            Map::empty(),
        ),
{
}

/// A shutdown stops the engine and drops the flows, and changes nothing else.
pub proof fn a_shutdown_drops_the_flows(st: Session)
    ensures
        shut_down(st) == with(st, st.pids, false, Map::empty()),
{
}

/// Switching the tunnel to what it is changes nothing. Switching it off shuts the engine down and
/// drops the flows. Switching it on starts the engine if it does not run and there is a process or a
/// rule, and then drops the flows, and otherwise changes the switch alone.
pub proof fn the_switch_starts_and_stops(st: Session, active: bool)
    ensures
        ({
            let (st1, step) = switch_spec(st, active);
            let on = Session { started: active, ..st };
            &&& st.started == active ==> st1 == st && step == SwitchStep::Nothing
            &&& st.started && !active ==> st1 == with(on, st.pids, false, Map::empty()) && step
                == SwitchStep::Shutdown
            &&& !st.started && active && !st.running && (!st.pids.is_empty() || st.rules.len() > 0)
                ==> st1 == with(on, st.pids, false, Map::empty()) && step == SwitchStep::StartEngine
            &&& !st.started && active && (st.running || st.pids.is_empty() && st.rules.len() == 0)
                ==> st1 == on && step == SwitchStep::Nothing
        }),
{
}

/// A tick keeps the processes that still run. If the tunnel is on and there is such a process or a
/// rule, an engine that does not run is to be started, and the flows are dropped; if not, one that
/// runs is shut down, and the flows are dropped. Otherwise nothing else changes.
pub proof fn a_tick_keeps_what_runs(st: Session, alive: Set<u32>)
    ensures
        ({
            let (st1, step) = tick_spec(st, alive);
            let left = st.pids.intersect(alive);
            let wanted = st.started && (!left.is_empty() || st.rules.len() > 0);
            &&& wanted && !st.running ==> st1 == with(st, left, false, Map::empty()) && step
                == SwitchStep::StartEngine
            &&& !wanted && st.running ==> st1 == with(st, left, false, Map::empty()) && step
                == SwitchStep::Shutdown
            &&& wanted == st.running ==> st1 == with(st, left, st.running, st.flows) && step
                == SwitchStep::Nothing
        }),
{
}

/// Settings that are put in replace the proxy, the rules and the switch, and nothing else.
pub proof fn settings_replace_settings(st: Session, saved: PersistedConfig, rule: Seq<char>, i: int)
    ensures
        ({
            let st1 = with_settings(st, saved);
            let names = saved.auto_tunnel_names@;
            &&& st1.config == saved.proxy_config
            &&& st1.started == saved.tunnel_started
            &&& st1.pids == st.pids && st1.running == st.running && st1.flows == st.flows && st1.dns
                == st.dns
            &&& st1.rules.no_duplicates()
            &&& 0 <= i < names.len() ==> st1.rules.contains(names[i]@)
            &&& st1.rules.contains(rule) ==> exists|k: int|
                0 <= k < names.len() && (#[trigger] names[k])@ == rule
        }),
{
    let names = saved.auto_tunnel_names@;
    let all = crate::rules::texts(names);
    saved_rules_are_each_there_once(all, rule);
    if 0 <= i < names.len() {
        saved_rules_are_each_there_once(all, names[i]@);
        assert(all[i] == names[i]@);
    }
    if all.contains(rule) {
        let k = choose|k: int| 0 <= k < all.len() && all[k] == rule;
        assert(names[k]@ == rule);
    }
}

/// A running process is matched if one of the rules speaks of its name or its path.
pub proof fn a_running_process_is_matched_by_name_or_path(p: ProcessInfo, rules: Seq<Seq<char>>)
    ensures
        is_matched(p, rules) <==> exists|i: int|
            0 <= i < rules.len() && speaks_of(#[trigger] rules[i], p.name@, p.exe_path@),
{
    a_process_is_matched_by_any_rule(p.name@, p.exe_path@, rules);
}

/// The texts for the user have the reason and the number in them.
pub proof fn texts_have_the_reason_and_the_number(reason: Seq<char>, n: nat)
    ensures
        start_failure(reason) == "Failed to start WinDivert: "@ + reason
            + ". Are you running as Administrator? Is WinDivert.dll in the application directory?"@,
        count_text(n) == "Tunneling "@ + decimal(n) + " app(s)"@,
        test_command() == (Command::Connect {
            ip: Ipv4Addr { a: 1, b: 1, c: 1, d: 1 },
            port: 80,
        }),
{
}

/// A process that runs and that a rule speaks of is tunneled after a round of the monitor, if the
/// engine started where that was asked for; one that no longer runs is not.
pub proof fn a_round_tunnels_what_a_rule_speaks_of(
    st: Session,
    running: Seq<ProcessInfo>,
    starts: Seq<bool>,
    k: int,
    i: int,
    pid: u32,
)
    requires
        0 <= k < running.len(),
        0 <= i < st.rules.len(),
        speaks_of(st.rules[i], running[k].name@, running[k].exe_path@),
    ensures
        round(st, running, true, starts).pids.contains(running[k].pid),
        (forall|j: int| 0 <= j < running.len() ==> (#[trigger] running[j]).pid != pid) ==> !round(
            st,
            running,
            true,
            starts,
        ).pids.contains(pid),
{
    broadcast use vstd::seq_lib::group_filter_ensures;

    let pred = |p: ProcessInfo| is_matched(p, st.rules);
    let matched = running.filter(pred);
    let found = crate::process_list::pids_of(matched);
    crate::control::round_tunnels_matches(st, running, true, starts);
    a_running_process_is_matched_by_name_or_path(running[k], st.rules);
    assert(pred(running[k]));
    assert(matched.contains(running[k]));
    let j = choose|j: int| 0 <= j < matched.len() && matched[j] == running[k];
    assert(found[j] == running[k].pid);
    assert(found.contains(running[k].pid));
    let alive = crate::process_list::pids_of(running);
    if alive.contains(pid) {
        let j = choose|j: int| 0 <= j < alive.len() && alive[j] == pid;
        assert(running[j].pid == pid);
    }
}

} // verus!
