//! The verified core of Kepler, a per-process tunnel: packet rewriting and its NAT table,
//! the SOCKS5 client protocol, the routing decisions of the local proxies, and the rules that
//! say which processes are tunneled and when the engine runs.
pub mod control;
pub mod divert;
pub mod ipv4;
pub mod laws;
pub mod nat_table;
pub mod outbound;
pub mod packet;
pub mod pid_lookup;
pub mod process_list;
pub mod proxy;
pub mod rules;
pub mod socks5;
pub mod state;
pub mod text;
pub mod tunnel;
