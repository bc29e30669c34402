//! The SOCKS5 exchange, by the bytes that are sent and received.
use crate::ipv4::{dotted, Ipv4Addr};
use crate::socks5::{
    encapsulated, fault_text, greeting, has_udp_header, is_request, password_message, relay_address,
    reply_text, request, talk, Client, Command, Fault, Move, Next, Reply, Stage, Talk,
};
use crate::text::{before_first, hex_byte};
use vstd::prelude::*;
use vstd::utf8::encode_utf8;

verus! {

/// What the client says first: the version 5 and the methods, 0 alone or 0 and 2. It offers a
/// password, method 2, if and only if it has both a user name and a password. Two bytes are then
/// waited for.
pub proof fn the_greeting_has_these_bytes(
    r: (Client, Next),
    command: Command,
    user: Option<Seq<char>>,
    password: Option<Seq<char>>,
)
    requires
        is_request(r, command, user, password),
    ensures
        r.0.command() == command,
        r.0.user() == user,
        r.0.pass() == password,
        r.0.stage() is Method,
        r.1@ == (Move::Exchange {
            send: if user is Some && password is Some {
                seq![5u8, 2u8, 0u8, 2u8]
            } else {
                seq![5u8, 1u8, 0u8]
            },
            read: 2,
        }),
        greeting(true) == seq![5u8, 2u8, 0u8, 2u8],
        greeting(false) == seq![5u8, 1u8, 0u8],
{
}

/// The password goes out behind the version 1: the length and the bytes of the user name, then the
/// length and the bytes of the password.
pub proof fn the_password_has_these_bytes(user: Seq<char>, password: Seq<char>)
    ensures
        ({
            let m = password_message(user, password);
            let u = encode_utf8(user);
            let w = encode_utf8(password);
            &&& m.len() == u.len() + w.len() + 3
            &&& m[0] == 1
            &&& m[1] as int == u.len() as int % 256
            &&& m.subrange(2, 2int + u.len()) == u
            &&& m[2int + u.len()] as int == w.len() as int % 256
            &&& m.subrange(3int + u.len(), m.len() as int) == w
        }),
{
    let m = password_message(user, password);
    let u = encode_utf8(user);
    let w = encode_utf8(password);
    assert(m.subrange(2, 2int + u.len()) =~= u);
    assert(m.subrange(3int + u.len(), m.len() as int) =~= w);
}

/// A request is ten bytes: the version 5, the command 1 or 3, a zero, the kind 1, and an address and
/// a port, high byte first, which are zeros where a relay is asked for.
pub proof fn the_request_has_these_bytes(command: Command)
    ensures
        ({
            let m = request(command);
            &&& m.len() == 10
            &&& m[0] == 5 && m[2] == 0 && m[3] == 1
            &&& command matches Command::Connect { ip, port } ==> {
                &&& m[1] == 1
                &&& m[4] == ip.a && m[5] == ip.b && m[6] == ip.c && m[7] == ip.d
                &&& m[8] * 256 + m[9] == port
            }
            &&& command is UdpAssociate ==> m[1] == 3 && forall|i: int|
                4 <= i < 10 ==> #[trigger] m[i] == 0
        }),
{
}

/// What a server says ends the exchange, by its first two bytes: another version than 5, or a
/// method that is neither 0 nor 2, is an error. With method 2 a password is sent, if there is one,
/// and the fourth byte has to be 0.
pub proof fn the_choice_of_a_method_decides(
    command: Command,
    user: Option<Seq<char>>,
    password: Option<Seq<char>>,
    s: Seq<u8>,
)
    ensures
        ({
            let t = talk(command, user, password, Stage::Method, s);
            let after = |n: int| talk(command, user, password, Stage::Header, s.skip(n));
            let has_password = user is Some && password is Some;
            &&& s.len() < 2 ==> t == (Talk { sent: seq![], result: None })
            &&& s.len() >= 2 && s[0] != 5 ==> t == (Talk {
                sent: seq![],
                result: Some(
                    Err(Fault::ProtocolError("expected SOCKS5, got version 0x"@ + hex_byte(s[0]))),
                ),
            })
            &&& s.len() >= 2 && s[0] == 5 && s[1] == 0 ==> t.result == after(2).result && t.sent
                == request(command) + after(2).sent
            &&& s.len() >= 2 && s[0] == 5 && s[1] == 2 && !has_password ==> t == (Talk {
                sent: seq![],
                result: Some(Err(Fault::AuthFailed)),
            })
            &&& s.len() >= 2 && s[0] == 5 && s[1] == 2 && has_password ==> {
                let m = password_message(user->0, password->0);
                &&& s.len() < 4 ==> t.sent == m && t.result is None
                &&& s.len() >= 4 && s[3] != 0 ==> t.sent == m && t.result == Some(
                    Err::<Reply, Fault>(Fault::AuthFailed),
                )
                &&& s.len() >= 4 && s[3] == 0 ==> t.sent == m + request(command) + after(4).sent
                    && t.result == after(4).result
            }
            &&& s.len() >= 2 && s[0] == 5 && s[1] == 255 ==> t == (Talk {
                sent: seq![],
                result: Some(Err(Fault::AuthMethodRejected)),
            })
            &&& s.len() >= 2 && s[0] == 5 && s[1] != 0 && s[1] != 2 && s[1] != 255 ==> t == (Talk {
                sent: seq![],
                result: Some(
                    Err(Fault::ProtocolError("unknown auth method 0x"@ + hex_byte(s[1]))),
                ),
            })
        }),
{
    reveal_with_fuel(talk, 3);
    let t = talk(command, user, password, Stage::Method, s);
    if s.len() >= 2 {
        assert(s.take(2)[0] == s[0] && s.take(2)[1] == s[1]);
        if s.len() >= 4 {
            assert(s.skip(2).take(2)[1] == s[3]);
            assert(s.skip(2).skip(2) =~= s.skip(4));
        }
        if s[0] == 5 && s[1] == 2 && user is Some && password is Some {
            let m = password_message(user->0, password->0);
            if s.len() < 4 {
                assert(t.sent =~= m);
            } else if s[3] != 0 {
                assert(t.sent =~= m);
            } else {
                assert(t.sent =~= m + request(command) + talk(
                    command,
                    user,
                    password,
                    Stage::Header,
                    s.skip(4),
                ).sent);
            }
        }
    }
}

/// A reply is decided by its bytes: the version 5, the code, a byte, and the kind of address. Kind 1
/// has four bytes of address, kind 3 a length and so many bytes, kind 4 sixteen bytes, and a port
/// follows, high byte first. Nothing is sent. The code 0 grants the request, and any other refuses it.
pub proof fn the_reply_decides(
    command: Command,
    user: Option<Seq<char>>,
    password: Option<Seq<char>>,
    s: Seq<u8>,
)
    ensures
        ({
            let t = talk(command, user, password, Stage::Header, s);
            let none = Ipv4Addr { a: 0, b: 0, c: 0, d: 0 };
            let granted = |ip: Ipv4Addr, hi: u8, lo: u8|
                if s[1] == 0 {
                    Some(Ok::<Reply, Fault>(Reply { ip, port: (hi * 256 + lo) as u16 }))
                } else {
                    Some(Err::<Reply, Fault>(Fault::RequestFailed(s[1])))
                };
            &&& t.sent == Seq::<u8>::empty()
            &&& s.len() < 4 ==> t.result is None
            &&& s.len() >= 4 && s[0] != 5 ==> t.result == Some(
                Err::<Reply, Fault>(
                    Fault::ProtocolError(
                        "expected SOCKS5 response version, got 0x"@ + hex_byte(s[0]),
                    ),
                ),
            )
            &&& s.len() >= 4 && s[0] == 5 && s[3] != 1 && s[3] != 3 && s[3] != 4 ==> t.result
                == Some(
                Err::<Reply, Fault>(
                    Fault::ProtocolError("unsupported SOCKS5 address type 0x"@ + hex_byte(s[3])),
                ),
            )
            &&& s.len() >= 4 && s[0] == 5 && s[3] == 1 ==> t.result == if s.len() < 10 {
                None
            } else {
                granted(Ipv4Addr { a: s[4], b: s[5], c: s[6], d: s[7] }, s[8], s[9])
            }
            &&& s.len() >= 4 && s[0] == 5 && s[3] == 3 ==> t.result == if s.len() < 5 || s.len()
                < 7 + s[4] {
                None
            } else {
                granted(none, s[5 + s[4]], s[6 + s[4]])
            }
            &&& s.len() >= 4 && s[0] == 5 && s[3] == 4 ==> t.result == if s.len() < 22 {
                None
            } else {
                granted(none, s[20], s[21])
            }
        }),
{
    reveal_with_fuel(talk, 4);
    if s.len() >= 4 {
        let b = s.skip(4);
        if b.len() >= 1 {
            assert(b.take(1)[0] == s[4]);
            assert(b.skip(1).len() == s.len() - 5);
        }
        assert(talk(command, user, password, Stage::Header, s).sent =~= Seq::<u8>::empty());
    }
}

/// The address of a relay is the one that the server names, unless that is 0.0.0.0; then it is that
/// of the other end, if it is known; then the one that stands before the colon in the proxy's
/// address; and at last 127.0.0.1.
pub proof fn the_relay_is_found_in_this_order(
    named: Ipv4Addr,
    peer: Option<Ipv4Addr>,
    proxy_addr: Seq<char>,
    r: Ipv4Addr,
    host: Ipv4Addr,
)
    requires
        relay_address(named, peer, proxy_addr, r),
    ensures
        ({
            let zero = named.a == 0 && named.b == 0 && named.c == 0 && named.d == 0;
            &&& !zero ==> r == named
            &&& zero && peer is Some ==> r == peer->0
            &&& zero && peer is None && before_first(proxy_addr, ':') == dotted(host) ==> r == host
            &&& zero && peer is None && (forall|ip: Ipv4Addr|
                before_first(proxy_addr, ':') != #[trigger] dotted(ip)) ==> r == (Ipv4Addr {
                a: 127,
                b: 0,
                c: 0,
                d: 1,
            })
        }),
{
    if before_first(proxy_addr, ':') == dotted(host) && dotted(r) == dotted(host) {
        crate::ipv4::text_tells_address(r, host);
    }
}

/// The header of a relayed datagram can be read if it has its ten bytes and the kind 1.
pub proof fn a_header_has_ten_bytes_and_kind_one(pkt: Seq<u8>)
    ensures
        has_udp_header(pkt) <==> pkt.len() >= 10 && pkt[3] == 1,
{
}

/// The text of an error says what it is, with the code of a refused request in two digits and in
/// words.
pub proof fn errors_say_what_they_are(text: Seq<char>, code: u8)
    ensures
        fault_text(Fault::Io(text)) == "SOCKS5 I/O error: "@ + text,
        fault_text(Fault::ProtocolError(text)) == "SOCKS5 protocol error: "@ + text,
        fault_text(Fault::AuthMethodRejected) == "SOCKS5 server rejected all auth methods"@,
        fault_text(Fault::AuthFailed) == "SOCKS5 username/password auth failed"@,
        fault_text(Fault::RequestFailed(code)) == "SOCKS5 request failed (reply=0x"@ + hex_byte(code)
            + "): "@ + reply_text(code),
        code > 8 ==> reply_text(code) == "unknown error"@,
{
}

} // verus!
