//! What the operations are for, stated on what goes in and comes out: the bytes of packets, tables
//! and messages, the fields of the settings, and the maps and sets of the state.
pub mod control;
pub mod judging;
pub mod packets;
pub mod ports;
pub mod processes;
pub mod proxy;
pub mod rules;
pub mod socks5;
pub mod text;
