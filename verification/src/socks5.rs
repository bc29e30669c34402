//! The SOCKS5 client protocol (RFC 1928, with the passwords of RFC 1929).
//!
//! A [`Client`] says what to send and how many bytes to read, and goes on with what was read,
//! until the request is granted or has failed.
use crate::ipv4::{dotted, Ipv4Addr};
use crate::packet::{be16, be_bytes, u16_from_be};
use crate::text::{before_first, hex_byte, push_hex_byte, split_first};
use vstd::prelude::*;
use vstd::string::StringExecFns;
use vstd::utf8::encode_utf8;

verus! {

/// The version of the protocol.
pub const SOCKS_VERSION: u8 = 0x05;

/// The version of the password exchange.
pub const AUTH_VERSION: u8 = 0x01;

/// The method without a password.
pub const AUTH_NONE: u8 = 0x00;

/// The method with a user name and a password.
pub const AUTH_USERNAME_PASSWORD: u8 = 0x02;

/// The answer of a server that takes none of the methods.
pub const AUTH_NO_ACCEPTABLE: u8 = 0xFF;

/// The request for a connection.
pub const CMD_CONNECT: u8 = 0x01;

/// The request for a relay of datagrams.
pub const CMD_UDP_ASSOCIATE: u8 = 0x03;

/// The kind of IPv4 addresses.
pub const ATYP_IPV4: u8 = 0x01;

/// The kind of domain names.
pub const ATYP_DOMAIN: u8 = 0x03;

/// The kind of IPv6 addresses.
pub const ATYP_IPV6: u8 = 0x04;

/// The reply to a request that is granted.
pub const REP_SUCCESS: u8 = 0x00;

/// Why a request came to nothing.
#[derive(Debug, PartialEq, Eq)]
pub enum Socks5Error {
    /// The connection failed, with the system's words for it.
    Io(String),
    /// The server takes none of the methods that were offered.
    AuthMethodRejected,
    /// The server refused the password, or asked for one that is not there.
    AuthFailed,
    /// The server refused the request, with its code.
    RequestFailed(u8),
    /// The server does not keep to the protocol.
    ProtocolError(String),
}

/// What a [`Socks5Error`] says.
pub enum Fault {
    Io(Seq<char>),
    AuthMethodRejected,
    AuthFailed,
    RequestFailed(u8),
    ProtocolError(Seq<char>),
}

impl View for Socks5Error {
    type V = Fault;

    open spec fn view(&self) -> Fault {
        match self {
            Socks5Error::Io(text) => Fault::Io(text@),
            Socks5Error::AuthMethodRejected => Fault::AuthMethodRejected,
            Socks5Error::AuthFailed => Fault::AuthFailed,
            Socks5Error::RequestFailed(code) => Fault::RequestFailed(*code),
            Socks5Error::ProtocolError(text) => Fault::ProtocolError(text@),
        }
    }
}

/// The meaning of a reply code.
pub open spec fn reply_text(code: u8) -> Seq<char> {
    if code == 0x00 {
        "succeeded"@
    } else if code == 0x01 {
        "general SOCKS server failure"@
    } else if code == 0x02 {
        "connection not allowed by ruleset"@
    } else if code == 0x03 {
        "network unreachable"@
    } else if code == 0x04 {
        "host unreachable"@
    } else if code == 0x05 {
        "connection refused"@
    } else if code == 0x06 {
        "TTL expired"@
    } else if code == 0x07 {
        "command not supported"@
    } else if code == 0x08 {
        "address type not supported"@
    } else {
        "unknown error"@
    }
}

/// The meaning of a reply code.
pub fn reply_message(code: u8) -> (r: &'static str)
    ensures
        r@ == reply_text(code),
{
    match code {
        0x00 => "succeeded",
        0x01 => "general SOCKS server failure",
        0x02 => "connection not allowed by ruleset",
        0x03 => "network unreachable",
        0x04 => "host unreachable",
        0x05 => "connection refused",
        0x06 => "TTL expired",
        0x07 => "command not supported",
        0x08 => "address type not supported",
        _ => "unknown error",
    }
}

/// The text of an error.
pub open spec fn fault_text(fault: Fault) -> Seq<char> {
    match fault {
        Fault::Io(text) => "SOCKS5 I/O error: "@ + text,
        Fault::AuthMethodRejected => "SOCKS5 server rejected all auth methods"@,
        Fault::AuthFailed => "SOCKS5 username/password auth failed"@,
        Fault::RequestFailed(code) => "SOCKS5 request failed (reply=0x"@ + hex_byte(code) + "): "@
            + reply_text(code),
        Fault::ProtocolError(text) => "SOCKS5 protocol error: "@ + text,
    }
}

impl Socks5Error {
    /// The text of the error.
    pub fn message(&self) -> (r: String)
        ensures
            r@ == fault_text(self@),
    {
        let mut out = String::new();
        match self {
            Socks5Error::Io(text) => {
                out.append("SOCKS5 I/O error: ");
                out.append(text.as_str());
            },
            Socks5Error::AuthMethodRejected => {
                out.append("SOCKS5 server rejected all auth methods");
            },
            Socks5Error::AuthFailed => {
                out.append("SOCKS5 username/password auth failed");
            },
            Socks5Error::RequestFailed(code) => {
                out.append("SOCKS5 request failed (reply=0x");
                push_hex_byte(&mut out, *code);
                out.append("): ");
                out.append(reply_message(*code));
            },
            Socks5Error::ProtocolError(text) => {
                out.append("SOCKS5 protocol error: ");
                out.append(text.as_str());
            },
        }
        assert(out@ =~= fault_text(self@));
        out
    }
}

/// The header of a relayed datagram, and the datagram.
pub open spec fn encapsulated(ip: Ipv4Addr, port: u16, data: Seq<u8>) -> Seq<u8> {
    seq![0u8, 0u8, 0u8, ATYP_IPV4] + ip.octets() + be_bytes(port) + data
}

fn push_all(out: &mut Vec<u8>, bytes: &[u8])
    ensures
        final(out)@ == old(out)@ + bytes@,
{
    out.extend_from_slice(bytes);
    assert(out@ =~= old(out)@ + bytes@);
}

fn push_ip_port(out: &mut Vec<u8>, ip: Ipv4Addr, port: u16)
    ensures
        final(out)@ == old(out)@ + ip.octets() + be_bytes(port),
{
    out.push(ip.a);
    out.push(ip.b);
    out.push(ip.c);
    out.push(ip.d);
    out.push((port / 256) as u8);
    out.push((port % 256) as u8);
    assert(out@ =~= old(out)@ + ip.octets() + be_bytes(port));
}

/// Puts the header of a relayed datagram before its data.
pub fn encapsulate_udp(dest_ip: Ipv4Addr, dest_port: u16, data: &[u8]) -> (r: Vec<u8>)
    ensures
        r@ == encapsulated(dest_ip, dest_port, data@),
{
    let mut pkt: Vec<u8> = Vec::new();
    pkt.push(0x00);
    pkt.push(0x00);
    pkt.push(0x00);
    pkt.push(ATYP_IPV4);
    push_ip_port(&mut pkt, dest_ip, dest_port);
    push_all(&mut pkt, data);
    assert(pkt@ =~= encapsulated(dest_ip, dest_port, data@));
    pkt
}

/// Whether a datagram has a header that can be read: one with an IPv4 address.
pub open spec fn has_udp_header(pkt: Seq<u8>) -> bool {
    pkt.len() >= 10 && pkt[3] == ATYP_IPV4
}

/// Takes the header off a relayed datagram: its address, its port, and the data.
pub fn decapsulate_udp(pkt: &[u8]) -> (r: Option<(Ipv4Addr, u16, &[u8])>)
    ensures
        r is Some <==> has_udp_header(pkt@),
        r matches Some(d) ==> {
            &&& d.0 == (Ipv4Addr { a: pkt@[4], b: pkt@[5], c: pkt@[6], d: pkt@[7] })
            &&& d.1 == be16(pkt@[8], pkt@[9])
            &&& d.2@ == pkt@.skip(10)
        },
{
    if pkt.len() < 10 {
        return None;
    }
    if pkt[3] != ATYP_IPV4 {
        return None;
    }
    let ip = Ipv4Addr::new(pkt[4], pkt[5], pkt[6], pkt[7]);
    let port: u16 = u16_from_be(pkt[8], pkt[9]);
    let data = vstd::slice::slice_subrange(pkt, 10, pkt.len());
    assert(data@ =~= pkt@.skip(10));
    Some((ip, port, data))
}

/// What is put into a datagram's header and behind it comes out again.
pub proof fn decapsulation_undoes_encapsulation(ip: Ipv4Addr, port: u16, data: Seq<u8>)
    ensures
        ({
            let pkt = encapsulated(ip, port, data);
            &&& has_udp_header(pkt)
            &&& Ipv4Addr { a: pkt[4], b: pkt[5], c: pkt[6], d: pkt[7] } == ip
            &&& be16(pkt[8], pkt[9]) == port
            &&& pkt.skip(10) == data
        }),
{
    assert(encapsulated(ip, port, data).skip(10) =~= data);
}

/// A datagram whose header can be read, put together again from what was read, differs from it at
/// most in the reserved bytes and the fragment number, which become zero.
pub proof fn encapsulation_undoes_decapsulation(pkt: Seq<u8>)
    requires
        has_udp_header(pkt),
    ensures
        encapsulated(
            Ipv4Addr { a: pkt[4], b: pkt[5], c: pkt[6], d: pkt[7] },
            be16(pkt[8], pkt[9]),
            pkt.skip(10),
        ) == seq![0u8, 0u8, 0u8] + pkt.skip(3),
{
    assert(encapsulated(
        Ipv4Addr { a: pkt[4], b: pkt[5], c: pkt[6], d: pkt[7] },
        be16(pkt[8], pkt[9]),
        pkt.skip(10),
    ) =~= seq![0u8, 0u8, 0u8] + pkt.skip(3));
}

/// What the server is asked for.
#[derive(Debug, Clone, Copy, PartialEq, Eq)]
pub enum Command {
    /// A connection to an address.
    Connect { ip: Ipv4Addr, port: u16 },
    /// A relay for datagrams, whose flows are not known beforehand.
    UdpAssociate,
}

/// The address that the server names in its reply; a name or an IPv6 address counts as
/// unspecified.
#[derive(Debug, Clone, Copy, PartialEq, Eq)]
pub struct Reply {
    pub ip: Ipv4Addr,
    pub port: u16,
}

/// What the client waits for.
#[derive(Debug, Clone, Copy, PartialEq, Eq)]
pub enum Stage {
    /// The choice of a method.
    Method,
    /// The answer to the password.
    Auth,
    /// The head of the reply.
    Header,
    /// The address of the reply with this code.
    Ipv4(u8),
    /// The length of the name in the reply with this code.
    DomainLen(u8),
    /// The name in the reply with this code, of this length.
    Domain(u8, u8),
    /// The IPv6 address in the reply with this code.
    Ipv6(u8),
    /// Nothing.
    Finished,
}

/// What the client does next.
#[derive(Debug, PartialEq, Eq)]
pub enum Next {
    /// It sends these bytes and then reads so many.
    Exchange { send: Vec<u8>, read: usize },
    /// The request is granted or has failed.
    Done(Result<Reply, Socks5Error>),
}

/// What a [`Next`] says.
pub enum Move {
    Exchange { send: Seq<u8>, read: nat },
    Done(Result<Reply, Fault>),
}

impl View for Next {
    type V = Move;

    open spec fn view(&self) -> Move {
        match self {
            Next::Exchange { send, read } => Move::Exchange { send: send@, read: *read as nat },
            Next::Done(Ok(reply)) => Move::Done(Ok(*reply)),
            Next::Done(Err(e)) => Move::Done(Err(e@)),
        }
    }
}

/// The methods that are offered: a password only if there is one.
pub open spec fn greeting(has_password: bool) -> Seq<u8> {
    if has_password {
        seq![SOCKS_VERSION, 2u8, AUTH_NONE, AUTH_USERNAME_PASSWORD]
    } else {
        seq![SOCKS_VERSION, 1u8, AUTH_NONE]
    }
}

/// The low byte of a length.
pub open spec fn low_byte(n: nat) -> u8 {
    (n % 256) as u8
}

/// The message with the user name and the password. The protocol has one byte for the length of
/// each, which of a longer text holds the low byte.
pub open spec fn password_message(user: Seq<char>, password: Seq<char>) -> Seq<u8> {
    let u = encode_utf8(user);
    let p = encode_utf8(password);
    seq![AUTH_VERSION, low_byte(u.len())] + u + seq![low_byte(p.len())] + p
}

/// The request.
pub open spec fn request(command: Command) -> Seq<u8> {
    match command {
        Command::Connect { ip, port } => seq![SOCKS_VERSION, CMD_CONNECT, 0u8, ATYP_IPV4]
            + ip.octets() + be_bytes(port),
        Command::UdpAssociate => seq![
            SOCKS_VERSION,
            CMD_UDP_ASSOCIATE,
            0u8,
            ATYP_IPV4,
            0u8,
            0u8,
            0u8,
            0u8,
            0u8,
            0u8,
        ],
    }
}

/// The address that stands for none.
pub open spec fn no_ip() -> Ipv4Addr {
    Ipv4Addr { a: 0, b: 0, c: 0, d: 0 }
}

/// How many bytes a stage reads.
pub open spec fn expected(stage: Stage) -> nat {
    match stage {
        Stage::Method => 2,
        Stage::Auth => 2,
        Stage::Header => 4,
        Stage::Ipv4(_) => 6,
        Stage::DomainLen(_) => 1,
        Stage::Domain(_, len) => (len + 2) as nat,
        Stage::Ipv6(_) => 18,
        Stage::Finished => 0,
    }
}

/// A text with a byte at its end.
pub open spec fn with_byte(text: Seq<char>, b: u8) -> Seq<char> {
    text + hex_byte(b)
}

/// The move that reads on without sending.
pub open spec fn read_on(stage: Stage) -> (Stage, Move) {
    (stage, Move::Exchange { send: seq![], read: expected(stage) })
}

/// The move that sends the request.
pub open spec fn ask(command: Command) -> (Stage, Move) {
    (Stage::Header, Move::Exchange { send: request(command), read: expected(Stage::Header) })
}

/// The end, with an error.
pub open spec fn fail(fault: Fault) -> (Stage, Move) {
    (Stage::Finished, Move::Done(Err(fault)))
}

/// The end, with the reply's code.
pub open spec fn finish(code: u8, ip: Ipv4Addr, port: u16) -> (Stage, Move) {
    if code == REP_SUCCESS {
        (Stage::Finished, Move::Done(Ok(Reply { ip, port })))
    } else {
        fail(Fault::RequestFailed(code))
    }
}

/// What the client does when it has read `b`.
pub open spec fn resume_spec(
    command: Command,
    user: Option<Seq<char>>,
    password: Option<Seq<char>>,
    stage: Stage,
    b: Seq<u8>,
) -> (Stage, Move) {
    match stage {
        Stage::Method => if b[0] != SOCKS_VERSION {
            fail(Fault::ProtocolError(with_byte("expected SOCKS5, got version 0x"@, b[0])))
        } else if b[1] == AUTH_NONE {
            ask(command)
        } else if b[1] == AUTH_USERNAME_PASSWORD {
            match (user, password) {
                (Some(u), Some(p)) => (
                    Stage::Auth,
                    Move::Exchange { send: password_message(u, p), read: expected(Stage::Auth) },
                ),
                _ => fail(Fault::AuthFailed),
            }
        } else if b[1] == AUTH_NO_ACCEPTABLE {
            fail(Fault::AuthMethodRejected)
        } else {
            fail(Fault::ProtocolError(with_byte("unknown auth method 0x"@, b[1])))
        },
        Stage::Auth => if b[1] != 0 {
            fail(Fault::AuthFailed)
        } else {
            ask(command)
        },
        Stage::Header => if b[0] != SOCKS_VERSION {
            fail(Fault::ProtocolError(with_byte("expected SOCKS5 response version, got 0x"@, b[0])))
        } else if b[3] == ATYP_IPV4 {
            read_on(Stage::Ipv4(b[1]))
        } else if b[3] == ATYP_DOMAIN {
            read_on(Stage::DomainLen(b[1]))
        } else if b[3] == ATYP_IPV6 {
            read_on(Stage::Ipv6(b[1]))
        } else {
            fail(Fault::ProtocolError(with_byte("unsupported SOCKS5 address type 0x"@, b[3])))
        },
        Stage::Ipv4(code) => finish(
            code,
            Ipv4Addr { a: b[0], b: b[1], c: b[2], d: b[3] },
            be16(b[4], b[5]),
        ),
        Stage::DomainLen(code) => read_on(Stage::Domain(code, b[0])),
        Stage::Domain(code, len) => finish(code, no_ip(), be16(b[len as int], b[len + 1])),
        Stage::Ipv6(code) => finish(code, no_ip(), be16(b[16], b[17])),
        Stage::Finished => (Stage::Finished, Move::Done(Err(Fault::AuthFailed))),
    }
}

/// A request on its way.
pub struct Client {
    command: Command,
    username: Option<String>,
    password: Option<String>,
    stage: Stage,
}

/// The text of an optional string.
pub open spec fn text_of(s: Option<String>) -> Option<Seq<char>> {
    match s {
        Some(text) => Some(text@),
        None => None,
    }
}

fn protocol_error(text: &str, b: u8) -> (r: Next)
    ensures
        r@ == Move::Done(Err(Fault::ProtocolError(with_byte(text@, b)))),
{
    let mut out = String::new();
    out.append(text);
    push_hex_byte(&mut out, b);
    assert(out@ =~= with_byte(text@, b));
    Next::Done(Err(Socks5Error::ProtocolError(out)))
}

fn write_request(command: Command) -> (r: Vec<u8>)
    ensures
        r@ == request(command),
{
    let mut req: Vec<u8> = Vec::new();
    req.push(SOCKS_VERSION);
    match command {
        Command::Connect { ip, port } => {
            req.push(CMD_CONNECT);
            req.push(0x00);
            req.push(ATYP_IPV4);
            push_ip_port(&mut req, ip, port);
        },
        Command::UdpAssociate => {
            req.push(CMD_UDP_ASSOCIATE);
            req.push(0x00);
            req.push(ATYP_IPV4);
            push_ip_port(&mut req, Ipv4Addr::new(0, 0, 0, 0), 0);
        },
    }
    assert(req@ =~= request(command));
    req
}

fn write_password(user: &str, password: &str) -> (r: Vec<u8>)
    ensures
        r@ == password_message(user@, password@),
{
    let u = user.as_bytes();
    let p = password.as_bytes();
    let mut req: Vec<u8> = Vec::new();
    req.push(AUTH_VERSION);
    req.push((u.len() % 256) as u8);
    push_all(&mut req, u);
    req.push((p.len() % 256) as u8);
    push_all(&mut req, p);
    assert(req@ =~= password_message(user@, password@));
    req
}

impl Client {
    /// What is asked for.
    pub closed spec fn command(&self) -> Command {
        self.command
    }

    /// The user name.
    pub closed spec fn user(&self) -> Option<Seq<char>> {
        text_of(self.username)
    }

    /// The password.
    pub closed spec fn pass(&self) -> Option<Seq<char>> {
        text_of(self.password)
    }

    /// What is waited for.
    pub closed spec fn stage(&self) -> Stage {
        self.stage
    }

    /// Begins a request: offers the methods, and waits for the choice.
    pub fn start(command: Command, username: Option<String>, password: Option<String>) -> (r: (
        Client,
        Next,
    ))
        ensures
            r.0.command() == command,
            r.0.user() == text_of(username),
            r.0.pass() == text_of(password),
            r.0.stage() == Stage::Method,
            r.1@ == (Move::Exchange {
                send: greeting(username is Some && password is Some),
                read: expected(Stage::Method),
            }),
    {
        let mut send: Vec<u8> = Vec::new();
        send.push(SOCKS_VERSION);
        if username.is_some() && password.is_some() {
            send.push(2);
            send.push(AUTH_NONE);
            send.push(AUTH_USERNAME_PASSWORD);
        } else {
            send.push(1);
            send.push(AUTH_NONE);
        }
        assert(send@ =~= greeting(username is Some && password is Some));
        (
            Client { command, username, password, stage: Stage::Method },
            Next::Exchange { send, read: 2 },
        )
    }

    /// Goes on with the bytes that were read, as many as were asked for.
    pub fn resume(&mut self, b: &[u8]) -> (r: Next)
        requires
            old(self).stage() != Stage::Finished,
            b@.len() == expected(old(self).stage()),
        ensures
            (final(self).stage(), r@) == resume_spec(
                old(self).command(),
                old(self).user(),
                old(self).pass(),
                old(self).stage(),
                b@,
            ),
            final(self).command() == old(self).command(),
            final(self).user() == old(self).user(),
            final(self).pass() == old(self).pass(),
    {
        match self.stage {
            Stage::Method => self.method_chosen(b),
            Stage::Auth => {
                if b[1] != 0 {
                    self.failed(Socks5Error::AuthFailed)
                } else {
                    self.send_request()
                }
            },
            Stage::Header => self.header_read(b),
            Stage::Ipv4(code) => self.replied(
                code,
                Ipv4Addr::new(b[0], b[1], b[2], b[3]),
                u16_from_be(b[4], b[5]),
            ),
            Stage::DomainLen(code) => {
                let len: u8 = b[0];
                self.stage = Stage::Domain(code, len);
                Next::Exchange { send: Vec::new(), read: len as usize + 2 }
            },
            Stage::Domain(code, len) => self.replied(
                code,
                Ipv4Addr::new(0, 0, 0, 0),
                u16_from_be(b[len as usize], b[len as usize + 1]),
            ),
            Stage::Ipv6(code) => self.replied(
                code,
                Ipv4Addr::new(0, 0, 0, 0),
                u16_from_be(b[16], b[17]),
            ),
            Stage::Finished => self.failed(Socks5Error::AuthFailed),
        }
    }

    fn failed(&mut self, e: Socks5Error) -> (r: Next)
        ensures
            *final(self) == (Client { stage: Stage::Finished, ..*old(self) }),
            r@ == Move::Done(Err(e@)),
    {
        self.stage = Stage::Finished;
        Next::Done(Err(e))
    }

    fn send_request(&mut self) -> (r: Next)
        ensures
            *final(self) == (Client { stage: Stage::Header, ..*old(self) }),
            r@ == ask(old(self).command).1,
    {
        self.stage = Stage::Header;
        Next::Exchange { send: write_request(self.command), read: 4 }
    }

    fn replied(&mut self, code: u8, ip: Ipv4Addr, port: u16) -> (r: Next)
        ensures
            *final(self) == (Client { stage: Stage::Finished, ..*old(self) }),
            r@ == finish(code, ip, port).1,
    {
        if code != REP_SUCCESS {
            return self.failed(Socks5Error::RequestFailed(code));
        }
        self.stage = Stage::Finished;
        Next::Done(Ok(Reply { ip, port }))
    }

    fn method_chosen(&mut self, b: &[u8]) -> (r: Next)
        requires
            b@.len() == 2,
        ensures
            ({
                let (stage, step) = resume_spec(
                    old(self).command,
                    old(self).user(),
                    old(self).pass(),
                    Stage::Method,
                    b@,
                );
                &&& *final(self) == (Client { stage, ..*old(self) })
                &&& r@ == step
            }),
    {
        if b[0] != SOCKS_VERSION {
            self.stage = Stage::Finished;
            return protocol_error("expected SOCKS5, got version 0x", b[0]);
        }
        if b[1] == AUTH_NONE {
            return self.send_request();
        }
        if b[1] == AUTH_USERNAME_PASSWORD {
            let message = match (&self.username, &self.password) {
                (Some(user), Some(password)) => Some(
                    write_password(user.as_str(), password.as_str()),
                ),
                _ => None,
            };
            return match message {
                Some(send) => {
                    self.stage = Stage::Auth;
                    Next::Exchange { send, read: 2 }
                },
                None => self.failed(Socks5Error::AuthFailed),
            };
        }
        if b[1] == AUTH_NO_ACCEPTABLE {
            return self.failed(Socks5Error::AuthMethodRejected);
        }
        self.stage = Stage::Finished;
        protocol_error("unknown auth method 0x", b[1])
    }

    fn header_read(&mut self, b: &[u8]) -> (r: Next)
        requires
            b@.len() == 4,
        ensures
            ({
                let (stage, step) = resume_spec(
                    old(self).command,
                    old(self).user(),
                    old(self).pass(),
                    Stage::Header,
                    b@,
                );
                &&& *final(self) == (Client { stage, ..*old(self) })
                &&& r@ == step
            }),
    {
        if b[0] != SOCKS_VERSION {
            self.stage = Stage::Finished;
            return protocol_error("expected SOCKS5 response version, got 0x", b[0]);
        }
        if b[3] == ATYP_IPV4 {
            self.stage = Stage::Ipv4(b[1]);
            Next::Exchange { send: Vec::new(), read: 6 }
        } else if b[3] == ATYP_DOMAIN {
            self.stage = Stage::DomainLen(b[1]);
            Next::Exchange { send: Vec::new(), read: 1 }
        } else if b[3] == ATYP_IPV6 {
            self.stage = Stage::Ipv6(b[1]);
            Next::Exchange { send: Vec::new(), read: 18 }
        } else {
            self.stage = Stage::Finished;
            protocol_error("unsupported SOCKS5 address type 0x", b[3])
        }
    }
}

/// Whether a request for `command` has just begun, with a user name and a password: the methods are
/// offered, and the choice is waited for.
pub open spec fn is_request(
    r: (Client, Next),
    command: Command,
    user: Option<Seq<char>>,
    password: Option<Seq<char>>,
) -> bool {
    &&& r.0.command() == command
    &&& r.0.user() == user
    &&& r.0.pass() == password
    &&& r.0.stage() == Stage::Method
    &&& r.1@ == (Move::Exchange {
        send: greeting(user is Some && password is Some),
        read: expected(Stage::Method),
    })
}

/// The address of a relay: the one that the server names or, where it names none, that of the
/// server itself. `peer` is the IPv4 address of the other end of the connection, if it is known;
/// failing that, the host part of the server's address is read, and at last this machine is taken.
pub open spec fn relay_address(
    named: Ipv4Addr,
    peer: Option<Ipv4Addr>,
    proxy_addr: Seq<char>,
    r: Ipv4Addr,
) -> bool {
    let host = before_first(proxy_addr, ':');
    if !named.unspecified() {
        r == named
    } else if peer is Some {
        r == peer->0
    } else if exists|ip: Ipv4Addr| host == #[trigger] dotted(ip) {
        host == dotted(r)
    } else {
        r == Ipv4Addr { a: 127, b: 0, c: 0, d: 1 }
    }
}

/// Where datagrams for the relay go.
#[derive(Debug, Clone, Copy, PartialEq, Eq)]
pub struct UdpAssociation {
    pub relay_ip: Ipv4Addr,
    pub relay_port: u16,
}

/// The relay that a server has granted.
pub fn udp_association(reply: Reply, peer: Option<Ipv4Addr>, proxy_addr: &str) -> (r:
    UdpAssociation)
    ensures
        relay_address(reply.ip, peer, proxy_addr@, r.relay_ip),
        r.relay_port == reply.port,
{
    let relay_ip = if reply.ip.is_unspecified() {
        match peer {
            Some(ip) => ip,
            None => match Ipv4Addr::parse(split_first(proxy_addr, ':').as_str()) {
                Some(ip) => ip,
                None => Ipv4Addr::new(127, 0, 0, 1),
            },
        }
    } else {
        reply.ip
    };
    UdpAssociation { relay_ip, relay_port: reply.port }
}

/// A whole exchange, from what the server sends: what the client sends after its greeting, and how
/// the request ends, unless the server falls silent before.
pub struct Talk {
    pub sent: Seq<u8>,
    pub result: Option<Result<Reply, Fault>>,
}

/// How far a stage is from the end.
pub open spec fn distance(stage: Stage) -> nat {
    match stage {
        Stage::Method => 5,
        Stage::Auth => 4,
        Stage::Header => 3,
        Stage::DomainLen(_) => 2,
        Stage::Ipv4(_) => 1,
        Stage::Domain(_, _) => 1,
        Stage::Ipv6(_) => 1,
        Stage::Finished => 0,
    }
}

/// The exchange from a stage on, when the server sends `stream`.
pub open spec fn talk(
    command: Command,
    user: Option<Seq<char>>,
    password: Option<Seq<char>>,
    stage: Stage,
    stream: Seq<u8>,
) -> Talk
    decreases distance(stage),
{
    let n = expected(stage) as int;
    if stage == Stage::Finished || stream.len() < n {
        Talk { sent: seq![], result: None }
    } else {
        let (next, step) = resume_spec(command, user, password, stage, stream.take(n));
        match step {
            Move::Done(result) => Talk { sent: seq![], result: Some(result) },
            Move::Exchange { send, read } => {
                let rest = talk(command, user, password, next, stream.skip(n));
                Talk { sent: send + rest.sent, result: rest.result }
            },
        }
    }
}

/// How long the server's part in the choice of a method is, if it lets the client in: it asks for
/// no password, or takes the one that there is.
pub open spec fn admitted(
    user: Option<Seq<char>>,
    password: Option<Seq<char>>,
    stream: Seq<u8>,
) -> Option<int> {
    if stream.len() < 2 || stream[0] != SOCKS_VERSION {
        None
    } else if stream[1] == AUTH_NONE {
        Some(2int)
    } else if stream[1] == AUTH_USERNAME_PASSWORD && user is Some && password is Some
        && stream.len() >= 4 && stream[3] == 0 {
        Some(4int)
    } else {
        None
    }
}

/// The code and the address of a reply, if it is whole and of a known kind.
pub open spec fn reply_of(s: Seq<u8>) -> Option<(u8, Reply)> {
    if s.len() < 4 || s[0] != SOCKS_VERSION {
        None
    } else if s[3] == ATYP_IPV4 && s.len() >= 10 {
        Some(
            (
                s[1],
                Reply {
                    ip: Ipv4Addr { a: s[4], b: s[5], c: s[6], d: s[7] },
                    port: be16(s[8], s[9]),
                },
            ),
        )
    } else if s[3] == ATYP_DOMAIN && s.len() >= 5 && s.len() >= s[4] + 7 {
        Some((s[1], Reply { ip: no_ip(), port: be16(s[s[4] + 5], s[s[4] + 6]) }))
    } else if s[3] == ATYP_IPV6 && s.len() >= 22 {
        Some((s[1], Reply { ip: no_ip(), port: be16(s[20], s[21]) }))
    } else {
        None
    }
}

proof fn lemma_reply(
    command: Command,
    user: Option<Seq<char>>,
    password: Option<Seq<char>>,
    s: Seq<u8>,
)
    ensures
        ({
            let t = talk(command, user, password, Stage::Header, s);
            &&& t.sent == Seq::<u8>::empty()
            &&& match reply_of(s) {
                Some((code, reply)) => t.result == Some(
                    if code == REP_SUCCESS {
                        Ok::<Reply, Fault>(reply)
                    } else {
                        Err::<Reply, Fault>(Fault::RequestFailed(code))
                    },
                ),
                None => t.result is None || (t.result matches Some(Err(Fault::ProtocolError(_)))),
            }
        }),
{
    reveal_with_fuel(talk, 4);
    if s.len() >= 4 {
        let b = s.skip(4);
        if b.len() >= 1 {
            assert(b.take(1)[0] == s[4]);
            assert(b.skip(1).len() == s.len() - 5);
        }
        let t = talk(command, user, password, Stage::Header, s);
        assert(t.sent =~= Seq::<u8>::empty());
    }
}

/// A request is granted just if the server lets the client in and its reply says so; the address
/// is that of the reply. A request that the server refuses after it let the client in ends with
/// the code of the reply.
pub proof fn granted_iff_server_says_so(
    command: Command,
    user: Option<Seq<char>>,
    password: Option<Seq<char>>,
    stream: Seq<u8>,
)
    ensures
        ({
            let result = talk(command, user, password, Stage::Method, stream).result;
            let said = match admitted(user, password, stream) {
                Some(n) => reply_of(stream.skip(n)),
                None => None,
            };
            &&& forall|reply: Reply|
                result == Some(Ok::<Reply, Fault>(reply)) <==> said == Some((REP_SUCCESS, reply))
            &&& forall|code: u8|
                result == Some(Err::<Reply, Fault>(Fault::RequestFailed(code))) <==> (said matches Some(
                    r,
                ) && r.0 == code && code != REP_SUCCESS)
        }),
{
    reveal_with_fuel(talk, 3);
    if stream.len() >= 2 {
        lemma_reply(command, user, password, stream.skip(2));
        if stream.len() >= 4 {
            assert(stream.skip(2).skip(2) =~= stream.skip(4));
            assert(stream.skip(2).take(2)[1] == stream[3]);
            lemma_reply(command, user, password, stream.skip(4));
        }
    }
}

/// The password is sent only to a server that asks for it, and the request only to one that has
/// let the client in.
pub proof fn nothing_is_sent_unasked(
    command: Command,
    user: Option<Seq<char>>,
    password: Option<Seq<char>>,
    stream: Seq<u8>,
)
    ensures
        ({
            let sent = talk(command, user, password, Stage::Method, stream).sent;
            let asked = stream.len() >= 2 && stream[0] == SOCKS_VERSION && stream[1]
                == AUTH_USERNAME_PASSWORD && user is Some && password is Some;
            let first = if asked {
                password_message(user->0, password->0)
            } else {
                seq![]
            };
            let second = if admitted(user, password, stream) is Some {
                request(command)
            } else {
                seq![]
            };
            sent == first + second
        }),
{
    reveal_with_fuel(talk, 3);
    let t = talk(command, user, password, Stage::Method, stream);
    if stream.len() >= 2 {
        lemma_reply(command, user, password, stream.skip(2));
        if stream.len() >= 4 {
            assert(stream.skip(2).skip(2) =~= stream.skip(4));
            assert(stream.skip(2).take(2)[1] == stream[3]);
            lemma_reply(command, user, password, stream.skip(4));
        }
    }
    let asked = stream.len() >= 2 && stream[0] == SOCKS_VERSION && stream[1]
        == AUTH_USERNAME_PASSWORD && user is Some && password is Some;
    let first = if asked {
        password_message(user->0, password->0)
    } else {
        seq![]
    };
    let second = if admitted(user, password, stream) is Some {
        request(command)
    } else {
        seq![]
    };
    assert(t.sent =~= first + second);
}

} // verus!
