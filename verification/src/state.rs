//! What the application keeps: the settings, the tunneled processes, and the flows.
use crate::nat_table::{NatKey, NatTable, OriginalDest};
use crate::outbound::DnsToggle;
use crate::rules::RuleSet;
use crate::socks5::{is_request, text_of, Client, Command, Next};
use crate::text::{before_first, decimal, push_decimal};
use std::collections::HashSet;
use vstd::prelude::*;
use vstd::string::StringExecFns;

verus! {

broadcast use vstd::std_specs::hash::group_hash_axioms;

/// The SOCKS5 proxy that traffic is sent through.
#[derive(Debug, PartialEq, Eq)]
pub struct ProxyConfig {
    pub enabled: bool,
    pub host: String,
    pub port: u16,
    pub username: Option<String>,
    pub password: Option<String>,
}

impl Clone for ProxyConfig {
    fn clone(&self) -> (r: ProxyConfig)
        ensures
            r == *self,
    {
        ProxyConfig {
            enabled: self.enabled,
            host: self.host.clone(),
            port: self.port,
            username: self.username.clone(),
            password: self.password.clone(),
        }
    }
}

impl Default for ProxyConfig {
    /// No proxy.
    fn default() -> (r: ProxyConfig)
        ensures
            !r.enabled,
            r.host@ == Seq::<char>::empty(),
            r.port == 1080,
            r.username is None,
            r.password is None,
    {
        ProxyConfig {
            enabled: false,
            host: String::new(),
            port: 1080,
            username: None,
            password: None,
        }
    }
}

impl ProxyConfig {
    /// The host and the port as one text.
    pub open spec fn addr_text(&self) -> Seq<char> {
        self.host@ + ":"@ + decimal(self.port as nat)
    }

    /// Whether traffic goes through the proxy.
    pub open spec fn in_use(&self) -> bool {
        self.enabled && self.host@.len() > 0
    }

    /// The host and the port as one text.
    pub fn addr(&self) -> (r: String)
        ensures
            r@ == self.addr_text(),
    {
        let mut out = self.host.clone();
        out.append(":");
        push_decimal(&mut out, self.port as u64);
        out
    }

    /// Whether traffic goes through the proxy: it is switched on and has a host.
    pub fn uses_proxy(&self) -> (r: bool)
        ensures
            r == self.in_use(),
            r <==> self.enabled && self.host@.len() > 0,
    {
        self.enabled && !self.host.as_str().is_empty()
    }

    /// Whether `r` is a request to the proxy that has just begun, with the user name and the
    /// password that are set for it.
    pub open spec fn requests(&self, r: (Client, Next), command: Command) -> bool {
        is_request(r, command, text_of(self.username), text_of(self.password))
    }

    /// Begins a request to the proxy, with the user name and the password that are set for it.
    pub fn request(&self, command: Command) -> (r: (Client, Next))
        ensures
            self.requests(r, command),
    {
        Client::start(command, self.username.clone(), self.password.clone())
    }
}

/// What an [`AppState`] holds.
#[verifier::ext_equal]
pub struct Session {
    /// The tunneled processes.
    pub pids: Set<u32>,
    /// Whether the engine runs.
    pub running: bool,
    /// The redirected flows.
    pub flows: Map<NatKey, OriginalDest>,
    pub config: ProxyConfig,
    /// The auto-tunnel rules.
    pub rules: Seq<Seq<char>>,
    /// Whether the tunnel is switched on.
    pub started: bool,
    pub dns: DnsToggle,
}

/// The state of the application.
pub struct AppState {
    pub active_pids: HashSet<u32>,
    pub engine_running: bool,
    pub nat_table: NatTable,
    pub proxy_config: ProxyConfig,
    pub auto_tunnel_names: RuleSet,
    pub tunnel_started: bool,
    pub dns: DnsToggle,
}

impl View for AppState {
    type V = Session;

    open spec fn view(&self) -> Session {
        Session {
            pids: self.active_pids@,
            running: self.engine_running,
            flows: self.nat_table@,
            config: self.proxy_config,
            rules: self.auto_tunnel_names@,
            started: self.tunnel_started,
            dns: self.dns,
        }
    }
}

impl AppState {
    /// Nothing is tunneled, nothing is set.
    pub fn new() -> (r: AppState)
        ensures
            r@ == (Session {
                pids: Set::empty(),
                running: false,
                flows: Map::empty(),
                config: r.proxy_config,
                rules: Seq::empty(),
                started: false,
                dns: DnsToggle { use_primary: true },
            }),
            !r.proxy_config.enabled,
            r.proxy_config.host@ == Seq::<char>::empty(),
            r.proxy_config.port == 1080,
            r.proxy_config.username is None,
            r.proxy_config.password is None,
    {
        AppState {
            active_pids: HashSet::new(),
            engine_running: false,
            nat_table: NatTable::new(),
            proxy_config: ProxyConfig::default(),
            auto_tunnel_names: RuleSet::new(),
            tunnel_started: false,
            dns: DnsToggle::new(),
        }
    }
}

/// Whether there is anything to tunnel: a process, or a rule that may find one.
pub open spec fn has_work(st: Session) -> bool {
    !st.pids.is_empty() || st.rules.len() > 0
}

/// Whether the engine is to run: the tunnel is switched on, and there is something to tunnel.
pub open spec fn should_run(st: Session) -> bool {
    st.started && has_work(st)
}

/// Whether the state is one that can come about: the engine runs only while the tunnel is switched
/// on.
pub open spec fn is_sound(st: Session) -> bool {
    st.running ==> st.started
}

/// The host can be read from the address, as the part before the colon.
pub proof fn host_is_read_from_addr(config: ProxyConfig)
    requires
        !config.host@.contains(':'),
    ensures
        before_first(config.addr_text(), ':') == config.host@,
{
    reveal_strlit(":");
    lemma_before_colon(config.host@, decimal(config.port as nat));
    assert(config.addr_text() =~= config.host@ + (seq![':'] + decimal(config.port as nat)));
}

proof fn lemma_before_colon(host: Seq<char>, rest: Seq<char>)
    requires
        !host.contains(':'),
    ensures
        before_first(host + (seq![':'] + rest), ':') == host,
    decreases host.len(),
{
    let s = host + (seq![':'] + rest);
    if host.len() > 0 {
        let tail = host.drop_first();
        assert(host[0] != ':') by {
            assert(host.contains(host[0]));
        }
        assert(!tail.contains(':')) by {
            if tail.contains(':') {
                let k = choose|k: int| 0 <= k < tail.len() && tail[k] == ':';
                assert(host[k + 1] == ':');
            }
        }
        lemma_before_colon(tail, rest);
        assert(s.drop_first() =~= tail + (seq![':'] + rest));
        assert(seq![host[0]] + tail =~= host);
    } else {
        assert(s[0] == ':');
    }
}

} // verus!
