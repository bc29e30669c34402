//! What the commands and the monitor do to the state, and what is left for the caller to carry
//! out: starting the engine, and shutting it down.
//!
//! A start takes two calls. The first says that the engine is to be started, and the second takes
//! note of how that went.
use crate::ipv4::Ipv4Addr;
use crate::process_list::{pids_of, ProcessInfo};
use crate::rules::{
    any_rule_matches, as_rules, first_uses, process_matches, saved_rules_are_read_back, texts,
    RuleSet,
};
use crate::socks5::{fault_text, Client, Command, Next, Socks5Error};
use crate::state::{has_work, is_sound, should_run, AppState, ProxyConfig, Session};
use crate::text::{decimal, push_decimal};
use std::collections::HashSet;
use vstd::prelude::*;
use vstd::string::StringExecFns;

verus! {

broadcast use vstd::std_specs::hash::group_hash_axioms;

/// Whether a request for the engine leads to its start: the tunnel is switched on, and the engine
/// does not run yet.
pub open spec fn start_due(st: Session) -> bool {
    st.started && !st.running
}

/// The state without flows.
pub open spec fn without_flows(st: Session) -> Session {
    Session { flows: Map::empty(), ..st }
}

/// The state after the engine was shut down.
pub open spec fn shut_down(st: Session) -> Session {
    Session { running: false, flows: Map::empty(), ..st }
}

/// The text for an engine that did not start.
pub open spec fn start_failure(reason: Seq<char>) -> Seq<char> {
    "Failed to start WinDivert: "@ + reason
        + ". Are you running as Administrator? Is WinDivert.dll in the application directory?"@
}

/// The text that says how many processes are tunneled.
pub open spec fn count_text(n: nat) -> Seq<char> {
    "Tunneling "@ + decimal(n) + " app(s)"@
}

/// What follows when a process is to be tunneled.
#[derive(Debug, Clone, Copy, PartialEq, Eq, Structural)]
pub enum TunnelStep {
    /// It is tunneled already.
    AlreadyActive,
    /// It is tunneled now.
    Added,
    /// The engine is to be started first.
    StartEngine,
}

/// What becomes of the state when `pid` is to be tunneled, and what follows.
pub open spec fn begin_spec(st: Session, pid: u32) -> (Session, TunnelStep) {
    if st.pids.contains(pid) {
        (st, TunnelStep::AlreadyActive)
    } else if start_due(st) {
        (without_flows(st), TunnelStep::StartEngine)
    } else {
        (Session { pids: st.pids.insert(pid), ..st }, TunnelStep::Added)
    }
}

/// What becomes of the state when the processes of a list are to be tunneled in turn, from the
/// `from`-th on, and the place of the first for which the engine is to be started.
pub open spec fn batch_spec(st: Session, pids: Seq<u32>, from: int) -> (Session, Option<int>)
    decreases pids.len() - from,
{
    if from >= pids.len() {
        (st, None)
    } else {
        let (st1, step) = begin_spec(st, pids[from]);
        if step == TunnelStep::StartEngine {
            (st1, Some(from))
        } else {
            batch_spec(st1, pids, from + 1)
        }
    }
}

/// The state after the engine was started for a process.
pub open spec fn started_for(st: Session, pid: u32) -> Session {
    Session { running: true, pids: st.pids.insert(pid), ..st }
}

/// The state after the engine was to be started for a process: if it did not start, nothing has
/// changed.
pub open spec fn after_start(st: Session, pid: u32, ok: bool) -> Session {
    if ok {
        started_for(st, pid)
    } else {
        st
    }
}

/// The state after a process was to be tunneled, when a start of the engine for it, should there be
/// one, goes as `ok` says.
pub open spec fn tunneled(st: Session, pid: u32, ok: bool) -> Session {
    let (st1, step) = begin_spec(st, pid);
    if step == TunnelStep::StartEngine {
        after_start(st1, pid, ok)
    } else {
        st1
    }
}

/// The state after the processes of a list from the `from`-th up to the `to`-th were to be tunneled
/// in turn, all of them, however the starts of the engine went: `starts` says of each place how a
/// start there goes.
pub open spec fn batch_run(
    st: Session,
    pids: Seq<u32>,
    starts: Seq<bool>,
    from: int,
    to: int,
) -> Session
    decreases to - from,
{
    if to <= from {
        st
    } else {
        tunneled(batch_run(st, pids, starts, from, to - 1), pids[to - 1], starts[to - 1])
    }
}

/// Whether the engine is started for the `i`-th process of a list, and that fails.
pub open spec fn start_fails(
    st: Session,
    pids: Seq<u32>,
    starts: Seq<bool>,
    from: int,
    i: int,
) -> bool {
    &&& begin_spec(batch_run(st, pids, starts, from, i), pids[i]).1 == TunnelStep::StartEngine
    &&& !starts[i]
}

/// What a stop has done.
#[derive(Debug, PartialEq, Eq)]
pub struct StopReport {
    /// Whether the engine is to be shut down, as nothing is tunneled any more.
    pub shutdown: bool,
    pub message: String,
}

/// The state after processes were taken out: with the last one, the engine goes.
pub open spec fn after_removal(st: Session, pids: Set<u32>) -> Session {
    let st1 = Session { pids, ..st };
    if pids.is_empty() && !st.pids.is_empty() {
        shut_down(st1)
    } else {
        st1
    }
}

/// What follows when the tunnel was switched.
#[derive(Debug, Clone, Copy, PartialEq, Eq, Structural)]
pub enum SwitchStep {
    /// Nothing.
    Nothing,
    /// The engine is to be started.
    StartEngine,
    /// The engine is to be shut down.
    Shutdown,
}

/// What becomes of the state when the tunnel is switched, and what follows.
pub open spec fn switch_spec(st: Session, active: bool) -> (Session, SwitchStep) {
    let st1 = Session { started: active, ..st };
    if st.started == active {
        (st1, SwitchStep::Nothing)
    } else if !active {
        (shut_down(st1), SwitchStep::Shutdown)
    } else if has_work(st1) && start_due(st1) {
        (without_flows(st1), SwitchStep::StartEngine)
    } else {
        (st1, SwitchStep::Nothing)
    }
}

/// What becomes of the state when only `alive` processes are left, and what follows: the engine is
/// started or stopped, so that it runs just if it should.
pub open spec fn tick_spec(st: Session, alive: Set<u32>) -> (Session, SwitchStep) {
    let st1 = Session { pids: st.pids.intersect(alive), ..st };
    if should_run(st1) && !st1.running {
        (without_flows(st1), SwitchStep::StartEngine)
    } else if !should_run(st1) && st1.running {
        (shut_down(st1), SwitchStep::Shutdown)
    } else {
        (st1, SwitchStep::Nothing)
    }
}

/// What is known of the tunnel.
#[derive(Debug, PartialEq, Eq)]
pub struct TunnelStatus {
    /// Whether the tunnel is switched on and has a process.
    pub active: bool,
    pub active_pids: Vec<u32>,
    pub nat_entries: usize,
    pub tunnel_started: bool,
    pub engine_running: bool,
}

/// The settings that outlive the application.
#[derive(Debug, PartialEq, Eq)]
pub struct PersistedConfig {
    pub proxy_config: ProxyConfig,
    pub auto_tunnel_names: Vec<String>,
    pub tunnel_started: bool,
}

/// The state with settings put in.
pub open spec fn with_settings(st: Session, saved: PersistedConfig) -> Session {
    Session {
        config: saved.proxy_config,
        rules: first_uses(texts(saved.auto_tunnel_names@)),
        started: saved.tunnel_started,
        ..st
    }
}

/// The text of the menu item that switches the tunnel.
pub fn toggle_label(started: bool) -> (r: &'static str)
    ensures
        r@ == if started {
            "Stop Tunnel"@
        } else {
            "Start Tunnel"@
        },
{
    if started {
        "Stop Tunnel"
    } else {
        "Start Tunnel"
    }
}

impl AppState {
    /// Whether the engine is to be started now; if so, the flows of an earlier one are forgotten.
    pub fn ensure_engine_started(&mut self) -> (start: bool)
        ensures
            start == start_due(old(self)@),
            final(self)@ == (if start {
                without_flows(old(self)@)
            } else {
                old(self)@
            }),
    {
        if self.engine_running || !self.tunnel_started {
            return false;
        }
        self.nat_table.clear();
        true
    }

    /// Takes note of how the start of the engine went. An error becomes a text for the user.
    pub fn engine_started(&mut self, outcome: Result<(), String>) -> (r: Result<(), String>)
        ensures
            outcome is Ok <==> r is Ok,
            outcome is Ok ==> final(self)@ == (Session { running: true, ..old(self)@ }),
            outcome matches Err(reason) ==> final(self)@ == old(self)@ && r->Err_0@
                == start_failure(reason@),
    {
        match outcome {
            Ok(()) => {
                self.engine_running = true;
                Ok(())
            },
            Err(reason) => {
                let mut out = String::new();
                out.append("Failed to start WinDivert: ");
                out.append(reason.as_str());
                out.append(
                    ". Are you running as Administrator? Is WinDivert.dll in the application directory?",
                );
                Err(out)
            },
        }
    }

    /// Begins to tunnel a process.
    pub fn begin_tunnel(&mut self, pid: u32) -> (r: TunnelStep)
        ensures
            (final(self)@, r) == begin_spec(old(self)@, pid),
    {
        if self.active_pids.contains(&pid) {
            return TunnelStep::AlreadyActive;
        }
        if self.ensure_engine_started() {
            return TunnelStep::StartEngine;
        }
        self.active_pids.insert(pid);
        TunnelStep::Added
    }

    /// Tunnels a process for which the engine was started, unless that failed.
    pub fn finish_tunnel(&mut self, pid: u32, outcome: Result<(), String>) -> (r: Result<
        (),
        String,
    >)
        ensures
            outcome is Ok <==> r is Ok,
            outcome is Ok ==> final(self)@ == started_for(old(self)@, pid),
            outcome matches Err(reason) ==> final(self)@ == old(self)@ && r->Err_0@
                == start_failure(reason@),
    {
        let r = self.engine_started(outcome);
        if r.is_ok() {
            self.active_pids.insert(pid);
        }
        r
    }

    /// Begins to tunnel the processes of a list, from the `from`-th on. Stops where the engine is to
    /// be started, and gives that place.
    pub fn begin_tunnels(&mut self, pids: &Vec<u32>, from: usize) -> (r: Option<usize>)
        ensures
            ({
                let (st, at) = batch_spec(old(self)@, pids@, from as int);
                &&& final(self)@ == st
                &&& r is Some <==> at is Some
                &&& r is Some ==> r->0 == at->0
            }),
    {
        let mut i: usize = from;
        while i < pids.len()
            invariant
                batch_spec(self@, pids@, i as int) == batch_spec(old(self)@, pids@, from as int),
            decreases pids.len() - i,
        {
            let step = self.begin_tunnel(pids[i]);
            if step == TunnelStep::StartEngine {
                return Some(i);
            }
            i = i + 1;
        }
        None
    }

    /// Goes on with a list for whose `at`-th process the engine was started, or could not be: the
    /// process is tunneled unless the start failed, and either way those behind it are taken up.
    /// Gives the outcome for that process, and the next place where the engine is to be started.
    pub fn resume_tunnels(
        &mut self,
        pids: &Vec<u32>,
        at: usize,
        outcome: Result<(), String>,
    ) -> (r: (Result<(), String>, Option<usize>))
        requires
            at < pids.len(),
        ensures
            ({
                let st0 = after_start(old(self)@, pids@[at as int], outcome is Ok);
                let (st, next) = batch_spec(st0, pids@, at + 1);
                &&& final(self)@ == st
                &&& r.1 is Some <==> next is Some
                &&& r.1 is Some ==> r.1->0 == next->0
            }),
            outcome is Ok <==> r.0 is Ok,
            outcome matches Err(reason) ==> r.0->Err_0@ == start_failure(reason@),
    {
        let done = self.finish_tunnel(pids[at], outcome);
        let next = self.begin_tunnels(pids, at + 1);
        (done, next)
    }

    /// Says how many processes are tunneled.
    pub fn count_message(&self) -> (r: String)
        ensures
            r@ == count_text(self@.pids.len()),
    {
        let mut out = String::new();
        out.append("Tunneling ");
        push_decimal(&mut out, self.active_pids.len() as u64);
        out.append(" app(s)");
        out
    }

    /// Takes note that the engine is shut down. Says whether it ran.
    pub fn shutdown_engine(&mut self) -> (was_running: bool)
        ensures
            was_running == old(self)@.running,
            final(self)@ == shut_down(old(self)@),
    {
        let was_running = self.engine_running;
        self.engine_running = false;
        self.nat_table.clear();
        was_running
    }

    /// Tunnels a process no longer; it is an error if it was not tunneled.
    pub fn stop_tunnel(&mut self, pid: u32) -> (r: Result<StopReport, String>)
        ensures
            r is Ok <==> old(self)@.pids.contains(pid),
            r matches Ok(report) ==> {
                &&& final(self)@ == after_removal(old(self)@, old(self)@.pids.remove(pid))
                &&& report.shutdown == final(self)@.pids.is_empty()
                &&& report.message@ == count_text(final(self)@.pids.len())
            },
            r matches Err(message) ==> {
                &&& final(self)@ == old(self)@
                &&& message@ == "PID "@ + decimal(pid as nat) + " is not being tunneled"@
            },
    {
        if !self.active_pids.remove(&pid) {
            let mut out = String::new();
            out.append("PID ");
            push_decimal(&mut out, pid as u64);
            out.append(" is not being tunneled");
            return Err(out);
        }
        let shutdown = self.active_pids.is_empty();
        if shutdown {
            self.shutdown_engine();
        }
        Ok(StopReport { shutdown, message: self.count_message() })
    }

    /// Tunnels the processes of a list no longer.
    pub fn stop_tunnels(&mut self, pids: &Vec<u32>) -> (r: StopReport)
        ensures
            final(self)@ == after_removal(old(self)@, old(self)@.pids.difference(pids@.to_set())),
            r.shutdown == (final(self)@.pids.is_empty() && !old(self)@.pids.is_empty()),
            r.message@ == count_text(final(self)@.pids.len()),
    {
        let mut shutdown = false;
        let mut i: usize = 0;
        assert(old(self)@.pids.difference(pids@.take(0).to_set()) =~= old(self)@.pids);
        while i < pids.len()
            invariant
                i <= pids.len(),
                self@ == after_removal(
                    old(self)@,
                    old(self)@.pids.difference(pids@.take(i as int).to_set()),
                ),
                shutdown == (self@.pids.is_empty() && !old(self)@.pids.is_empty()),
            decreases pids.len() - i,
        {
            let ghost before = pids@.take(i as int);
            let ghost after = pids@.take(i + 1);
            let pid = pids[i];
            proof {
                assert(after =~= before.push(pid));
                assert(after.to_set() =~= before.to_set().insert(pid)) by {
                    before.lemma_push_to_set_commute(pid);
                }
                assert(old(self)@.pids.difference(after.to_set()) =~= old(self)@.pids.difference(
                    before.to_set(),
                ).remove(pid));
            }
            if self.active_pids.remove(&pid) {
                if self.active_pids.is_empty() {
                    self.shutdown_engine();
                    shutdown = true;
                }
            } else {
                assert(old(self)@.pids.difference(after.to_set()) =~= old(self)@.pids.difference(
                    before.to_set(),
                ));
            }
            i = i + 1;
        }
        assert(pids@.take(i as int) =~= pids@);
        StopReport { shutdown, message: self.count_message() }
    }

    /// The auto-tunnel rules.
    pub fn get_auto_tunnel_names(&self) -> (r: Vec<String>)
        ensures
            texts(r@) == self@.rules,
    {
        let names = self.auto_tunnel_names.list();
        let mut r: Vec<String> = Vec::new();
        let mut i: usize = 0;
        while i < names.len()
            invariant
                i <= names.len(),
                texts(r@) =~= texts(names@).take(i as int),
            decreases names.len() - i,
        {
            let name = names[i].clone();
            proof {
                assert(texts(r@.push(name)) =~= texts(r@).push(name@));
                assert(texts(names@).take(i + 1) =~= texts(names@).take(i as int).push(name@));
            }
            r.push(name);
            i = i + 1;
        }
        assert(texts(r@) =~= texts(names@));
        r
    }

    /// Replaces the auto-tunnel rules by those that were typed in.
    pub fn set_auto_tunnel_names(&mut self, names: &Vec<String>)
        ensures
            final(self)@ == (Session { rules: as_rules(texts(names@)), ..old(self)@ }),
    {
        self.auto_tunnel_names = RuleSet::from_input(names);
    }

    /// Switches the tunnel on or off.
    pub fn set_global_tunnel_active(&mut self, active: bool) -> (r: SwitchStep)
        ensures
            (final(self)@, r) == switch_spec(old(self)@, active),
    {
        let was = self.tunnel_started;
        self.tunnel_started = active;
        if was == active {
            return SwitchStep::Nothing;
        }
        if !active {
            self.shutdown_engine();
            return SwitchStep::Shutdown;
        }
        let has_work = !self.active_pids.is_empty() || !self.auto_tunnel_names.is_empty();
        if has_work && self.ensure_engine_started() {
            SwitchStep::StartEngine
        } else {
            SwitchStep::Nothing
        }
    }

    /// What is known of the tunnel.
    pub fn get_tunnel_status(&self) -> (r: TunnelStatus)
        ensures
            r.active == (self@.started && !self@.pids.is_empty()),
            r.active_pids@.no_duplicates(),
            r.active_pids@.to_set() == self@.pids,
            r.nat_entries == self@.flows.len(),
            r.tunnel_started == self@.started,
            r.engine_running == self@.running,
    {
        let mut active_pids: Vec<u32> = Vec::new();
        for pid in iter: self.active_pids.iter()
            invariant
                iter.seq().no_duplicates(),
                iter.seq().unref().to_set() == self.active_pids@,
                active_pids@ =~= iter.seq().unref().take(iter.index() as int),
                iter.index() == iter.seq().len() ==> active_pids@ =~= iter.seq().unref(),
        {
            active_pids.push(*pid);
        }
        TunnelStatus {
            active: self.tunnel_started && !self.active_pids.is_empty(),
            active_pids,
            nat_entries: self.nat_table.len(),
            tunnel_started: self.tunnel_started,
            engine_running: self.engine_running,
        }
    }

    /// The proxy.
    pub fn get_proxy_config(&self) -> (r: ProxyConfig)
        ensures
            r == self@.config,
    {
        self.proxy_config.clone()
    }

    /// Replaces the proxy. Gives a text for the user.
    pub fn set_proxy_config(&mut self, config: ProxyConfig) -> (r: String)
        ensures
            final(self)@ == (Session { config, ..old(self)@ }),
            r@ == "Proxy configuration updated"@,
    {
        self.proxy_config = config;
        let mut out = String::new();
        out.append("Proxy configuration updated");
        out
    }

    /// The settings, to be saved.
    pub fn to_persisted(&self) -> (r: PersistedConfig)
        ensures
            r.proxy_config == self@.config,
            texts(r.auto_tunnel_names@) == self@.rules,
            r.tunnel_started == self@.started,
    {
        PersistedConfig {
            proxy_config: self.proxy_config.clone(),
            auto_tunnel_names: self.get_auto_tunnel_names(),
            tunnel_started: self.tunnel_started,
        }
    }

    /// Puts in settings that were saved.
    pub fn load_persisted(&mut self, saved: PersistedConfig)
        ensures
            final(self)@ == with_settings(old(self)@, saved),
    {
        self.auto_tunnel_names = RuleSet::from_saved(&saved.auto_tunnel_names);
        self.proxy_config = saved.proxy_config;
        self.tunnel_started = saved.tunnel_started;
    }

    /// Drops the tunneled processes that no longer run, and decides on the engine.
    pub fn tick(&mut self, running: &Vec<ProcessInfo>) -> (r: SwitchStep)
        ensures
            (final(self)@, r) == tick_spec(old(self)@, pids_of(running@).to_set()),
    {
        let kept = alive_pids(&self.active_pids, running);
        self.active_pids = kept;
        let should_run = self.tunnel_started && (!self.active_pids.is_empty()
            || !self.auto_tunnel_names.is_empty());
        if should_run {
            if self.ensure_engine_started() {
                return SwitchStep::StartEngine;
            }
        } else if self.engine_running {
            self.shutdown_engine();
            return SwitchStep::Shutdown;
        }
        SwitchStep::Nothing
    }
}

/// Those of the processes that still run.
fn alive_pids(pids: &HashSet<u32>, running: &Vec<ProcessInfo>) -> (r: HashSet<u32>)
    ensures
        r@ == pids@.intersect(pids_of(running@).to_set()),
{
    let mut r: HashSet<u32> = HashSet::new();
    let mut i: usize = 0;
    while i < running.len()
        invariant
            i <= running.len(),
            r@ =~= pids@.intersect(pids_of(running@).take(i as int).to_set()),
        decreases running.len() - i,
    {
        let pid = running[i].pid;
        proof {
            let before = pids_of(running@).take(i as int);
            assert(pids_of(running@).take(i + 1) =~= before.push(pid));
            before.lemma_push_to_set_commute(pid);
        }
        if pids.contains(&pid) {
            r.insert(pid);
        }
        i = i + 1;
    }
    assert(pids_of(running@).take(i as int) =~= pids_of(running@));
    r
}

/// Whether a rule speaks of a process.
pub open spec fn is_matched(p: ProcessInfo, rules: Seq<Seq<char>>) -> bool {
    any_rule_matches(p.name@, p.exe_path@, rules)
}

/// The running processes that a rule speaks of, in the same order.
pub fn auto_matches(running: &Vec<ProcessInfo>, rules: &RuleSet) -> (r: Vec<u32>)
    ensures
        r@ == pids_of(running@.filter(|p: ProcessInfo| is_matched(p, rules@))),
{
    let list = rules.list();
    let ghost pred = |p: ProcessInfo| is_matched(p, rules@);
    let mut r: Vec<u32> = Vec::new();
    let mut i: usize = 0;
    while i < running.len()
        invariant
            i <= running.len(),
            texts(list@) == rules@,
            pred == (|p: ProcessInfo| is_matched(p, rules@)),
            r@ =~= pids_of(running@.take(i as int).filter(pred)),
        decreases running.len() - i,
    {
        proof {
            let before = running@.take(i as int);
            assert(running@.take(i + 1) =~= before.push(running@[i as int]));
            before.lemma_filter_push(running@[i as int], pred);
        }
        if process_matches(running[i].name.as_str(), running[i].exe_path.as_str(), list) {
            r.push(running[i].pid);
        }
        i = i + 1;
    }
    assert(running@.take(i as int) =~= running@);
    r
}

/// What is asked of a proxy to try it out.
#[derive(Debug, PartialEq, Eq)]
pub struct ProxyTest {
    pub addr: String,
    pub command: Command,
}

/// How a trial of a proxy went.
#[derive(Debug, PartialEq, Eq)]
pub struct TestReport {
    pub ok: bool,
    pub latency_ms: Option<u64>,
    pub error: Option<String>,
}

/// The address that a proxy on trial is asked to connect to.
pub open spec fn test_command() -> Command {
    Command::Connect { ip: Ipv4Addr { a: 1, b: 1, c: 1, d: 1 }, port: 80 }
}

/// How a proxy is tried out; one without a host has failed already.
pub fn plan_proxy_test(config: &ProxyConfig) -> (r: Result<ProxyTest, TestReport>)
    ensures
        r is Ok <==> config.host@.len() > 0,
        r matches Ok(test) ==> test.addr@ == config.addr_text() && test.command == test_command(),
        r matches Err(report) ==> {
            &&& !report.ok
            &&& report.latency_ms is None
            &&& (report.error matches Some(text) && text@ == "Proxy host is empty"@)
        },
{
    if config.host.as_str().is_empty() {
        let mut text = String::new();
        text.append("Proxy host is empty");
        return Err(TestReport { ok: false, latency_ms: None, error: Some(text) });
    }
    Ok(
        ProxyTest {
            addr: config.addr(),
            command: Command::Connect { ip: Ipv4Addr::new(1, 1, 1, 1), port: 80 },
        },
    )
}

/// Begins the request of a trial.
pub fn test_request(test: &ProxyTest, config: &ProxyConfig) -> (r: (Client, Next))
    ensures
        config.requests(r, test.command),
{
    config.request(test.command)
}

/// How a trial went that took so many nanoseconds.
pub fn proxy_test_report(outcome: &Result<(), Socks5Error>, took: u64) -> (r: TestReport)
    ensures
        match outcome {
            Ok(()) => r.ok && r.latency_ms == Some((took / 1_000_000) as u64) && r.error is None,
            Err(e) => {
                &&& !r.ok
                &&& r.latency_ms is None
                &&& (r.error matches Some(text) && text@ == fault_text(e@))
            },
        },
{
    match outcome {
        Ok(()) => TestReport { ok: true, latency_ms: Some(took / 1_000_000), error: None },
        Err(e) => TestReport { ok: false, latency_ms: None, error: Some(e.message()) },
    }
}

/// The engine runs only while the tunnel is switched on: whatever is asked of a state in which
/// that holds, it holds again, and a start is only asked for where it will hold. Settings are put in
/// while the engine does not run.
pub proof fn engine_needs_the_switch(
    st: Session,
    pid: u32,
    pids: Seq<u32>,
    from: int,
    left: Set<u32>,
    active: bool,
    saved: PersistedConfig,
)
    requires
        is_sound(st),
        0 <= from,
    ensures
        is_sound(begin_spec(st, pid).0),
        is_sound(batch_spec(st, pids, from).0),
        is_sound(after_removal(st, left)),
        is_sound(switch_spec(st, active).0),
        is_sound(tick_spec(st, left).0),
        is_sound(shut_down(st)),
        !st.running ==> is_sound(with_settings(st, saved)),
        begin_spec(st, pid).1 == TunnelStep::StartEngine ==> begin_spec(st, pid).0.started,
        batch_spec(st, pids, from).1 is Some ==> batch_spec(st, pids, from).0.started,
        switch_spec(st, active).1 == SwitchStep::StartEngine ==> switch_spec(st, active).0.started,
        tick_spec(st, left).1 == SwitchStep::StartEngine ==> tick_spec(st, left).0.started,
    decreases pids.len() - from,
{
    if from < pids.len() {
        let (st1, step) = begin_spec(st, pids[from]);
        if step != TunnelStep::StartEngine {
            engine_needs_the_switch(st1, pid, pids, from + 1, left, active, saved);
        }
    }
}

/// After a tick, once the engine was started where that was asked for, it runs just if the tunnel
/// is switched on and there is something to tunnel; and only processes that run are tunneled.
pub proof fn tick_settles_engine(st: Session, alive: Set<u32>)
    ensures
        ({
            let (st1, step) = tick_spec(st, alive);
            let st2 = if step == SwitchStep::StartEngine {
                Session { running: true, ..st1 }
            } else {
                st1
            };
            &&& st2.running == should_run(st2)
            &&& st2.pids == st.pids.intersect(alive)
            &&& step == SwitchStep::Shutdown ==> st1.flows.is_empty()
        }),
{
}

/// While nothing changes, a second tick has nothing to do.
pub proof fn tick_is_idempotent(st: Session, alive: Set<u32>)
    ensures
        ({
            let (st1, step) = tick_spec(st, alive);
            let st2 = if step == SwitchStep::StartEngine {
                Session { running: true, ..st1 }
            } else {
                st1
            };
            tick_spec(st2, alive) == (st2, SwitchStep::Nothing)
        }),
{
    let (st1, step) = tick_spec(st, alive);
    let st2 = if step == SwitchStep::StartEngine {
        Session { running: true, ..st1 }
    } else {
        st1
    };
    assert(st2.pids.intersect(alive) =~= st2.pids);
    assert(tick_spec(st2, alive).0 =~= st2);
}

/// Once the last process was taken out, or the tunnel was switched off, the engine does not run
/// and no flow is left.
pub proof fn nothing_is_left_behind(st: Session, left: Set<u32>)
    ensures
        !st.pids.is_empty() && left.is_empty() ==> {
            &&& !after_removal(st, left).running
            &&& after_removal(st, left).flows.is_empty()
        },
        st.started ==> {
            &&& !switch_spec(st, false).0.running
            &&& switch_spec(st, false).0.flows.is_empty()
        },
{
}

/// A process that was tunneled and stopped leaves the tunneled processes and the settings as they
/// were.
pub proof fn stop_undoes_start(st: Session, pid: u32)
    requires
        !st.pids.contains(pid),
    ensures
        ({
            let (st1, step) = begin_spec(st, pid);
            let st2 = if step == TunnelStep::StartEngine {
                started_for(st1, pid)
            } else {
                st1
            };
            let st3 = after_removal(st2, st2.pids.remove(pid));
            &&& st2.pids.contains(pid)
            &&& st3.pids == st.pids
            &&& st3.config == st.config
            &&& st3.rules == st.rules
            &&& st3.started == st.started
        }),
{
    assert(st.pids.insert(pid).remove(pid) =~= st.pids);
}

/// A list of processes is tunneled up to where the engine is to be started, or to its end: all of
/// that part is, and nothing else is added or taken out.
pub proof fn batch_tunnels_its_part(st: Session, pids: Seq<u32>, from: int)
    requires
        0 <= from <= pids.len(),
    ensures
        ({
            let (st1, at) = batch_spec(st, pids, from);
            let end = match at {
                Some(i) => i,
                None => pids.len() as int,
            };
            &&& from <= end <= pids.len()
            &&& at is Some ==> end < pids.len() && start_due(st1) && !st1.pids.contains(pids[end])
            &&& st1.pids == st.pids.union(pids.subrange(from, end).to_set())
        }),
    decreases pids.len() - from,
{
    let (st1, at) = batch_spec(st, pids, from);
    if from < pids.len() {
        let (st0, step) = begin_spec(st, pids[from]);
        if step == TunnelStep::StartEngine {
            assert(pids.subrange(from, from).to_set() =~= Set::<u32>::empty());
            assert(st.pids.union(Set::<u32>::empty()) =~= st.pids);
        } else {
            batch_tunnels_its_part(st0, pids, from + 1);
            let end = match at {
                Some(i) => i,
                None => pids.len() as int,
            };
            let rest = pids.subrange(from + 1, end);
            let all = pids.subrange(from, end);
            assert(all =~= seq![pids[from]] + rest);
            assert(all.to_set() =~= rest.to_set().insert(pids[from])) by {
                assert forall|x: u32| #[trigger] all.contains(x) <==> rest.contains(x) || x
                    == pids[from] by {
                    if rest.contains(x) {
                        let k = choose|k: int| 0 <= k < rest.len() && rest[k] == x;
                        assert(all[k + 1] == x);
                    }
                    if x == pids[from] {
                        assert(all[0] == x);
                    }
                    if all.contains(x) {
                        let k = choose|k: int| 0 <= k < all.len() && all[k] == x;
                        if k > 0 {
                            assert(rest[k - 1] == x);
                        }
                    }
                }
            }
            assert(st1.pids =~= st.pids.union(all.to_set()));
        }
    } else {
        assert(pids.subrange(from, from).to_set() =~= Set::<u32>::empty());
        assert(st.pids.union(Set::<u32>::empty()) =~= st.pids);
    }
}

/// A tunneled process is not begun again.
pub proof fn start_is_idempotent(st: Session, pid: u32)
    requires
        st.pids.contains(pid),
    ensures
        begin_spec(st, pid) == (st, TunnelStep::AlreadyActive),
{
}

/// Settings that are saved and put in again are the same; what is tunneled is not touched.
pub proof fn settings_survive(st: Session, saved: PersistedConfig, fresh: Session)
    requires
        st.rules.no_duplicates(),
        saved.proxy_config == st.config,
        texts(saved.auto_tunnel_names@) == st.rules,
        saved.tunnel_started == st.started,
    ensures
        ({
            let loaded = with_settings(fresh, saved);
            &&& loaded.config == st.config
            &&& loaded.rules == st.rules
            &&& loaded.started == st.started
            &&& loaded.pids == fresh.pids
            &&& loaded.flows == fresh.flows
        }),
{
    saved_rules_are_read_back(st.rules);
}

proof fn lemma_batch_run_splits(
    st: Session,
    pids: Seq<u32>,
    starts: Seq<bool>,
    from: int,
    mid: int,
    to: int,
)
    requires
        from <= mid <= to,
    ensures
        batch_run(st, pids, starts, from, to) == batch_run(
            batch_run(st, pids, starts, from, mid),
            pids,
            starts,
            mid,
            to,
        ),
    decreases to - mid,
{
    if mid < to {
        lemma_batch_run_splits(st, pids, starts, from, mid, to - 1);
    }
}

/// A list is carried through by taking it up where it stopped: the first call goes to where the
/// engine is to be started, and each further one goes on from there with how the start went, until
/// none is due. The state is then that after the whole list.
pub proof fn batch_is_carried_through(st: Session, pids: Seq<u32>, starts: Seq<bool>, from: int)
    requires
        0 <= from <= pids.len(),
    ensures
        ({
            let (st1, at) = batch_spec(st, pids, from);
            match at {
                None => batch_run(st, pids, starts, from, pids.len() as int) == st1,
                Some(i) => {
                    &&& from <= i < pids.len()
                    &&& batch_run(st, pids, starts, from, pids.len() as int) == batch_run(
                        after_start(st1, pids[i], starts[i]),
                        pids,
                        starts,
                        i + 1,
                        pids.len() as int,
                    )
                },
            }
        }),
    decreases pids.len() - from,
{
    if from < pids.len() {
        let n = pids.len() as int;
        lemma_batch_run_splits(st, pids, starts, from, from + 1, n);
        reveal_with_fuel(batch_run, 2);
        let (st0, step) = begin_spec(st, pids[from]);
        if step != TunnelStep::StartEngine {
            batch_is_carried_through(st0, pids, starts, from + 1);
        }
    }
}

/// What is tunneled after a list is what was, and every process of the list but for those places at
/// which the engine could not be started.
pub proof fn batch_tunnels_what_starts(
    st: Session,
    pids: Seq<u32>,
    starts: Seq<bool>,
    from: int,
    to: int,
    pid: u32,
)
    requires
        0 <= from <= to <= pids.len(),
    ensures
        batch_run(st, pids, starts, from, to).pids.contains(pid) <==> {
            ||| st.pids.contains(pid)
            ||| exists|i: int|
                from <= i < to && #[trigger] pids[i] == pid && !start_fails(
                    st,
                    pids,
                    starts,
                    from,
                    i,
                )
        },
    decreases to - from,
{
    if from < to {
        batch_tunnels_what_starts(st, pids, starts, from, to - 1, pid);
        let before = batch_run(st, pids, starts, from, to - 1);
        let after = batch_run(st, pids, starts, from, to);
        assert(after == tunneled(before, pids[to - 1], starts[to - 1]));
        if pids[to - 1] == pid && !start_fails(st, pids, starts, from, to - 1) {
            assert(after.pids.contains(pid));
        } else {
            assert(after.pids.contains(pid) <==> before.pids.contains(pid));
        }
    }
}

/// A list changes nothing but the tunneled processes, the flows, and whether the engine runs; where
/// no start is due, it changes the processes alone, and every one of the list is tunneled.
pub proof fn batch_keeps_settings(
    st: Session,
    pids: Seq<u32>,
    starts: Seq<bool>,
    from: int,
    to: int,
)
    requires
        0 <= from <= to <= pids.len(),
    ensures
        ({
            let st1 = batch_run(st, pids, starts, from, to);
            &&& st1 == (Session { pids: st1.pids, running: st1.running, flows: st1.flows, ..st })
            &&& !start_due(st) ==> st1 == (Session {
                pids: st.pids.union(pids.subrange(from, to).to_set()),
                ..st
            })
        }),
    decreases to - from,
{
    if from < to {
        batch_keeps_settings(st, pids, starts, from, to - 1);
        let head = pids.subrange(from, to - 1);
        let all = pids.subrange(from, to);
        assert(all =~= head.push(pids[to - 1]));
        head.lemma_push_to_set_commute(pids[to - 1]);
        if !start_due(st) {
            let st1 = batch_run(st, pids, starts, from, to);
            assert(st1.pids =~= st.pids.union(all.to_set()));
        }
    } else {
        assert(pids.subrange(from, to).to_set() =~= Set::<u32>::empty());
        assert(st.pids.union(Set::<u32>::empty()) =~= st.pids);
    }
}

/// The state after a round of the monitor: a tick, the start of the engine if the tick asks for it,
/// which goes as `ok` says, and the list of the running processes that a rule speaks of.
pub open spec fn round(
    st: Session,
    running: Seq<ProcessInfo>,
    ok: bool,
    starts: Seq<bool>,
) -> Session {
    let found = pids_of(running.filter(|p: ProcessInfo| is_matched(p, st.rules)));
    let (st1, step) = tick_spec(st, pids_of(running).to_set());
    let st2 = if step == SwitchStep::StartEngine && ok {
        Session { running: true, ..st1 }
    } else {
        st1
    };
    batch_run(st2, found, starts, 0, found.len() as int)
}

/// After a round of the monitor only running processes are tunneled. If the engine started where it
/// was asked for, they are those that were tunneled before and still run, and those that a rule
/// speaks of.
pub proof fn round_tunnels_matches(
    st: Session,
    running: Seq<ProcessInfo>,
    ok: bool,
    starts: Seq<bool>,
)
    ensures
        ({
            let alive = pids_of(running).to_set();
            let found = pids_of(running.filter(|p: ProcessInfo| is_matched(p, st.rules)));
            let after = round(st, running, ok, starts);
            &&& after.pids.subset_of(alive)
            &&& after.config == st.config && after.rules == st.rules && after.started == st.started
            &&& ok ==> after.pids == st.pids.intersect(alive).union(found.to_set())
        }),
{
    broadcast use vstd::seq_lib::group_filter_ensures;

    let alive = pids_of(running).to_set();
    let pred = |p: ProcessInfo| is_matched(p, st.rules);
    let matched = running.filter(pred);
    let found = pids_of(matched);
    let n = found.len() as int;
    let (st1, step) = tick_spec(st, alive);
    let st2 = if step == SwitchStep::StartEngine && ok {
        Session { running: true, ..st1 }
    } else {
        st1
    };
    let after = batch_run(st2, found, starts, 0, n);
    assert(after == round(st, running, ok, starts));
    batch_keeps_settings(st2, found, starts, 0, n);
    assert(found.subrange(0, n) =~= found);
    assert forall|i: int| 0 <= i < n implies alive.contains(#[trigger] found[i]) by {
        assert(matched.contains(matched[i]));
        running.lemma_filter_contains_rev(pred, matched[i]);
        let k = choose|k: int| 0 <= k < running.len() && running[k] == matched[i];
        assert(pids_of(running)[k] == found[i]);
        assert(pids_of(running).contains(found[i]));
    }
    assert forall|pid: u32| #[trigger] after.pids.contains(pid) implies alive.contains(pid) by {
        batch_tunnels_what_starts(st2, found, starts, 0, n, pid);
    }
    if ok && start_due(st2) {
        // Without work there is no rule, and so nothing is found.
        assert(st.rules.len() == 0);
        if n > 0 {
            assert(matched.contains(matched[0]));
            running.lemma_filter_contains_rev(pred, matched[0]);
            assert(pred(matched[0]));
        }
        assert(found.to_set() =~= Set::<u32>::empty());
        assert(after.pids =~= st.pids.intersect(alive).union(found.to_set()));
    }
}

} // verus!
