use kepler::control::{
    auto_matches, plan_proxy_test, proxy_test_report, test_request, toggle_label, PersistedConfig,
    ProxyTest, StopReport, SwitchStep, TestReport, TunnelStep,
};
use kepler::ipv4::Ipv4Addr;
use kepler::nat_table::{NatKey, OriginalDest};
use kepler::process_list::ProcessInfo;
use kepler::socks5::{Command, Next, Socks5Error};
use kepler::state::{AppState, ProxyConfig};

fn names(list: &[&str]) -> Vec<String> {
    list.iter().map(|n| n.to_string()).collect()
}

fn process(pid: u32, name: &str) -> ProcessInfo {
    ProcessInfo { pid, name: name.into(), exe_path: String::new(), icon: None }
}

fn with_flow(mut s: AppState) -> AppState {
    let ip = Ipv4Addr::new(9, 9, 9, 9);
    s.nat_table.insert(NatKey::tcp(1), OriginalDest::new(ip, 443, ip, 0));
    s
}

fn sorted_pids(s: &AppState) -> Vec<u32> {
    let mut pids = s.get_tunnel_status().active_pids;
    pids.sort();
    pids
}

fn running_with(pids: &[u32]) -> AppState {
    let mut s = AppState::new();
    assert_eq!(s.set_global_tunnel_active(true), SwitchStep::Nothing);
    for pid in pids {
        match s.begin_tunnel(*pid) {
            TunnelStep::StartEngine => s.finish_tunnel(*pid, Ok(())).unwrap(),
            step => assert_eq!(step, TunnelStep::Added),
        }
    }
    s
}

#[test]
fn a_new_state_is_empty() {
    let s = AppState::new();
    let status = s.get_tunnel_status();
    assert!(!status.active && !status.tunnel_started && !status.engine_running);
    assert_eq!(status.active_pids, Vec::<u32>::new());
    assert_eq!(status.nat_entries, 0);
    assert_eq!(s.get_proxy_config(), ProxyConfig::default());
    assert_eq!(s.get_auto_tunnel_names(), Vec::<String>::new());
    assert!(s.dns.use_primary);
}

#[test]
fn the_default_proxy_is_none() {
    let c = ProxyConfig::default();
    assert!(!c.enabled);
    assert_eq!(c.host, "");
    assert_eq!(c.port, 1080);
    assert_eq!(c.username, None);
    assert_eq!(c.password, None);
    assert!(!c.uses_proxy());
    assert_eq!(c.addr(), ":1080");
}

#[test]
fn a_proxy_address_has_host_and_port() {
    let mut c = ProxyConfig::default();
    c.host = "proxy.example".into();
    c.port = 65535;
    assert_eq!(c.addr(), "proxy.example:65535");
    assert!(!c.uses_proxy());
    c.enabled = true;
    assert!(c.uses_proxy());
    c.port = 0;
    assert_eq!(c.addr(), "proxy.example:0");
    assert_eq!(c.clone(), c);
}

#[test]
fn a_process_is_tunneled_while_the_tunnel_is_off() {
    let mut s = AppState::new();
    assert_eq!(s.begin_tunnel(7), TunnelStep::Added);
    assert_eq!(s.begin_tunnel(7), TunnelStep::AlreadyActive);
    let status = s.get_tunnel_status();
    assert_eq!(status.active_pids, vec![7]);
    assert!(!status.active && !status.engine_running);
    assert_eq!(s.count_message(), "Tunneling 1 app(s)");
}

#[test]
fn the_first_process_starts_the_engine() {
    let mut s = with_flow(AppState::new());
    s.set_global_tunnel_active(true);
    assert_eq!(s.begin_tunnel(7), TunnelStep::StartEngine);
    // Flows of an earlier engine are gone, and the process waits for the engine.
    assert_eq!(s.nat_table.len(), 0);
    assert_eq!(sorted_pids(&s), Vec::<u32>::new());
    assert_eq!(s.finish_tunnel(7, Ok(())), Ok(()));
    let status = s.get_tunnel_status();
    assert!(status.active && status.engine_running && status.tunnel_started);
    assert_eq!(status.active_pids, vec![7]);
    assert_eq!(s.begin_tunnel(8), TunnelStep::Added);
    assert_eq!(s.count_message(), "Tunneling 2 app(s)");
}

#[test]
fn an_engine_that_fails_to_start_is_reported() {
    let mut s = AppState::new();
    s.set_global_tunnel_active(true);
    assert_eq!(s.begin_tunnel(7), TunnelStep::StartEngine);
    let text = "Failed to start WinDivert: denied. Are you running as Administrator? Is WinDivert.dll in the application directory?";
    assert_eq!(s.finish_tunnel(7, Err("denied".into())), Err(text.to_string()));
    assert!(!s.engine_running);
    assert_eq!(sorted_pids(&s), Vec::<u32>::new());
    assert_eq!(s.engine_started(Err("denied".into())), Err(text.to_string()));
    assert_eq!(s.engine_started(Ok(())), Ok(()));
    assert!(s.engine_running);
}

#[test]
fn a_list_is_tunneled_up_to_the_start_and_on() {
    let mut s = AppState::new();
    s.set_global_tunnel_active(true);
    let list = vec![3, 4, 3, 5];
    assert_eq!(s.begin_tunnels(&list, 0), Some(0));
    assert!(s.finish_tunnel(3, Err("no".into())).is_err());
    assert_eq!(s.begin_tunnels(&list, 1), Some(1));
    assert!(s.finish_tunnel(4, Ok(())).is_ok());
    assert_eq!(s.begin_tunnels(&list, 2), None);
    assert_eq!(sorted_pids(&s), vec![3, 4, 5]);
    assert_eq!(s.begin_tunnels(&list, 9), None);
}

#[test]
fn the_last_stop_shuts_the_engine_down() {
    let mut s = with_flow(running_with(&[7, 8]));
    assert_eq!(
        s.stop_tunnel(7),
        Ok(StopReport { shutdown: false, message: "Tunneling 1 app(s)".into() })
    );
    assert!(s.engine_running);
    assert_eq!(s.nat_table.len(), 1);
    assert_eq!(s.stop_tunnel(7), Err("PID 7 is not being tunneled".to_string()));
    assert_eq!(
        s.stop_tunnel(8),
        Ok(StopReport { shutdown: true, message: "Tunneling 0 app(s)".into() })
    );
    assert!(!s.engine_running);
    assert!(s.tunnel_started);
    assert_eq!(s.nat_table.len(), 0);
}

#[test]
fn a_list_is_stopped() {
    let mut s = with_flow(running_with(&[1, 2, 3]));
    assert_eq!(
        s.stop_tunnels(&vec![2, 9, 2]),
        StopReport { shutdown: false, message: "Tunneling 2 app(s)".into() }
    );
    assert_eq!(sorted_pids(&s), vec![1, 3]);
    assert_eq!(
        s.stop_tunnels(&vec![3, 1, 1]),
        StopReport { shutdown: true, message: "Tunneling 0 app(s)".into() }
    );
    assert!(!s.engine_running);
    assert_eq!(s.nat_table.len(), 0);
    assert!(!s.stop_tunnels(&vec![1]).shutdown);
}

#[test]
fn the_switch_starts_and_stops_the_engine() {
    let mut s = with_flow(AppState::new());
    assert_eq!(s.set_global_tunnel_active(false), SwitchStep::Nothing);
    assert_eq!(s.set_global_tunnel_active(true), SwitchStep::Nothing);
    assert_eq!(s.nat_table.len(), 1);
    assert_eq!(s.set_global_tunnel_active(true), SwitchStep::Nothing);
    assert_eq!(s.set_global_tunnel_active(false), SwitchStep::Shutdown);
    assert_eq!(s.nat_table.len(), 0);
    s.set_auto_tunnel_names(&names(&["steam"]));
    assert_eq!(s.set_global_tunnel_active(true), SwitchStep::StartEngine);
    s.engine_started(Ok(())).unwrap();
    assert_eq!(s.set_global_tunnel_active(true), SwitchStep::Nothing);
    assert_eq!(s.set_global_tunnel_active(false), SwitchStep::Shutdown);
    assert!(!s.engine_running);
    s.set_auto_tunnel_names(&names(&[]));
    s.begin_tunnel(4);
    assert_eq!(s.set_global_tunnel_active(true), SwitchStep::StartEngine);
    assert_eq!(toggle_label(true), "Stop Tunnel");
    assert_eq!(toggle_label(false), "Start Tunnel");
}

#[test]
fn a_start_is_due_only_once() {
    let mut s = AppState::new();
    assert!(!s.ensure_engine_started());
    s.set_global_tunnel_active(true);
    assert!(s.ensure_engine_started());
    s.engine_started(Ok(())).unwrap();
    assert!(!s.ensure_engine_started());
    assert!(s.shutdown_engine());
    assert!(!s.shutdown_engine());
}

#[test]
fn dead_processes_are_dropped() {
    let mut s = with_flow(running_with(&[1, 2]));
    assert_eq!(s.tick(&vec![process(2, "b"), process(3, "c")]), SwitchStep::Nothing);
    assert_eq!(sorted_pids(&s), vec![2]);
    assert_eq!(s.nat_table.len(), 1);
    assert_eq!(s.tick(&vec![]), SwitchStep::Shutdown);
    assert!(!s.engine_running);
    assert_eq!(s.nat_table.len(), 0);
    assert_eq!(s.tick(&vec![]), SwitchStep::Nothing);
}

#[test]
fn the_monitor_starts_the_engine_for_rules() {
    let mut s = AppState::new();
    s.set_auto_tunnel_names(&names(&["steam"]));
    assert_eq!(s.tick(&vec![]), SwitchStep::Nothing);
    s.tunnel_started = true;
    assert_eq!(s.tick(&vec![]), SwitchStep::StartEngine);
    s.engine_started(Err("x".into())).unwrap_err();
    assert_eq!(s.tick(&vec![]), SwitchStep::StartEngine);
    s.engine_started(Ok(())).unwrap();
    let running = vec![process(5, "Steam.exe"), process(6, "other")];
    assert_eq!(s.tick(&running), SwitchStep::Nothing);
    let found = auto_matches(&running, &s.auto_tunnel_names);
    assert_eq!(found, vec![5]);
    assert_eq!(s.begin_tunnels(&found, 0), None);
    assert_eq!(sorted_pids(&s), vec![5]);
}

#[test]
fn rules_are_set_and_given() {
    let mut s = AppState::new();
    s.set_auto_tunnel_names(&names(&[" a", "b ", "a", " "]));
    assert_eq!(s.get_auto_tunnel_names(), names(&["a", "b"]));
    s.set_auto_tunnel_names(&names(&["c"]));
    assert_eq!(s.get_auto_tunnel_names(), names(&["c"]));
}

#[test]
fn settings_are_saved_and_loaded() {
    let mut s = AppState::new();
    let config = ProxyConfig {
        enabled: true,
        host: "h".into(),
        port: 1,
        username: Some("u".into()),
        password: Some("p".into()),
    };
    assert_eq!(s.set_proxy_config(config.clone()), "Proxy configuration updated");
    s.set_auto_tunnel_names(&names(&["b", "a"]));
    s.set_global_tunnel_active(true);
    let saved = s.to_persisted();
    assert_eq!(
        saved,
        PersistedConfig {
            proxy_config: config.clone(),
            auto_tunnel_names: names(&["b", "a"]),
            tunnel_started: true,
        }
    );
    let mut t = AppState::new();
    t.load_persisted(saved);
    assert_eq!(t.get_proxy_config(), config);
    assert_eq!(t.get_auto_tunnel_names(), names(&["b", "a"]));
    assert!(t.tunnel_started);
    assert!(!t.engine_running);
}

#[test]
fn proxies_are_tried_out() {
    let mut c = ProxyConfig::default();
    assert_eq!(
        plan_proxy_test(&c),
        Err(TestReport { ok: false, latency_ms: None, error: Some("Proxy host is empty".into()) })
    );
    c.host = "h".into();
    assert_eq!(
        plan_proxy_test(&c),
        Ok(ProxyTest {
            addr: "h:1080".into(),
            command: Command::Connect { ip: Ipv4Addr::new(1, 1, 1, 1), port: 80 },
        })
    );
    assert_eq!(
        proxy_test_report(&Ok(()), 12_999_999),
        TestReport { ok: true, latency_ms: Some(12), error: None }
    );
    assert_eq!(
        proxy_test_report(&Err(Socks5Error::AuthFailed), 5),
        TestReport {
            ok: false,
            latency_ms: None,
            error: Some("SOCKS5 username/password auth failed".into()),
        }
    );
}

#[test]
fn a_list_goes_on_after_a_failed_start() {
    let mut s = AppState::new();
    s.set_global_tunnel_active(true);
    s.active_pids.insert(2);
    let list = vec![1, 2, 3, 4, 1];
    assert_eq!(s.begin_tunnels(&list, 0), Some(0));
    let (done, next) = s.resume_tunnels(&list, 0, Err("no".into()));
    assert!(done.unwrap_err().starts_with("Failed to start WinDivert: no. "));
    assert_eq!(next, Some(2));
    let (done, next) = s.resume_tunnels(&list, 2, Ok(()));
    assert_eq!((done, next), (Ok(()), None));
    assert!(s.engine_running);
    // The first place failed, but the process is listed again.
    assert_eq!(sorted_pids(&s), vec![1, 2, 3, 4]);

    let mut t = AppState::new();
    t.set_global_tunnel_active(true);
    let list = vec![1, 2];
    assert_eq!(t.begin_tunnels(&list, 0), Some(0));
    assert_eq!(t.resume_tunnels(&list, 0, Err("no".into())).1, Some(1));
    assert_eq!(t.resume_tunnels(&list, 1, Ok(())).1, None);
    assert_eq!(sorted_pids(&t), vec![2]);
}

#[test]
fn a_round_of_the_monitor_tunnels_what_matches() {
    let mut s = running_with(&[7, 8]);
    s.set_auto_tunnel_names(&names(&["steam"]));
    let running = vec![process(5, "steam.exe"), process(7, "a"), process(9, "b")];
    assert_eq!(s.tick(&running), SwitchStep::Nothing);
    let found = auto_matches(&running, &s.auto_tunnel_names);
    assert_eq!(s.begin_tunnels(&found, 0), None);
    assert_eq!(sorted_pids(&s), vec![5, 7]);
}

#[test]
fn a_trial_uses_the_password() {
    let mut c = ProxyConfig::default();
    c.host = "h".into();
    c.username = Some("me".into());
    c.password = Some("pw".into());
    let test = plan_proxy_test(&c).unwrap();
    let (mut client, first) = test_request(&test, &c);
    assert_eq!(first, Next::Exchange { send: vec![5, 2, 0, 2], read: 2 });
    let password = b"\x01\x02me\x02pw".to_vec();
    assert_eq!(client.resume(&[5, 2]), Next::Exchange { send: password, read: 2 });
    let request = vec![5, 1, 0, 1, 1, 1, 1, 1, 0, 80];
    assert_eq!(client.resume(&[1, 0]), Next::Exchange { send: request, read: 4 });
}
