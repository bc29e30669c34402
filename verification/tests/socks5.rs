use kepler::ipv4::Ipv4Addr;
use kepler::socks5::{
    decapsulate_udp, encapsulate_udp, reply_message, udp_association, Client, Command, Next, Reply,
    Socks5Error,
};

fn connect() -> Command {
    Command::Connect { ip: Ipv4Addr::new(93, 184, 216, 34), port: 443 }
}

fn begin(user: Option<&str>, password: Option<&str>) -> (Client, Next) {
    Client::start(connect(), user.map(|s| s.to_string()), password.map(|s| s.to_string()))
}

fn exchange(send: &[u8], read: usize) -> Next {
    Next::Exchange { send: send.to_vec(), read }
}

const CONNECT: [u8; 10] = [5, 1, 0, 1, 93, 184, 216, 34, 1, 187];

#[test]
fn connect_without_password() {
    let (mut c, first) = begin(None, None);
    assert_eq!(first, exchange(&[5, 1, 0], 2));
    assert_eq!(c.resume(&[5, 0]), exchange(&CONNECT, 4));
    assert_eq!(c.resume(&[5, 0, 0, 1]), exchange(&[], 6));
    assert_eq!(
        c.resume(&[10, 0, 0, 1, 0x12, 0x34]),
        Next::Done(Ok(Reply { ip: Ipv4Addr::new(10, 0, 0, 1), port: 0x1234 }))
    );
}

#[test]
fn connect_with_password() {
    let (mut c, first) = begin(Some("me"), Some("pässword"));
    assert_eq!(first, exchange(&[5, 2, 0, 2], 2));
    let mut message = vec![1, 2];
    message.extend_from_slice(b"me");
    message.push(9);
    message.extend_from_slice("pässword".as_bytes());
    assert_eq!(c.resume(&[5, 2]), exchange(&message, 2));
    assert_eq!(c.resume(&[1, 0]), exchange(&CONNECT, 4));
}

#[test]
fn half_a_password_is_not_offered() {
    assert_eq!(begin(Some("me"), None).1, exchange(&[5, 1, 0], 2));
    assert_eq!(begin(None, Some("x")).1, exchange(&[5, 1, 0], 2));
    let (mut c, _) = begin(Some("me"), None);
    assert_eq!(c.resume(&[5, 2]), Next::Done(Err(Socks5Error::AuthFailed)));
}

#[test]
fn long_texts_have_the_low_byte_of_their_length() {
    let long = "u".repeat(258);
    let (mut c, _) = begin(Some(&long), Some("p"));
    let mut message = vec![1, 2];
    message.extend_from_slice(long.as_bytes());
    message.push(1);
    message.push(b'p');
    assert_eq!(c.resume(&[5, 2]), exchange(&message, 2));
}

#[test]
fn refused_password_fails() {
    let (mut c, _) = begin(Some("a"), Some("b"));
    c.resume(&[5, 2]);
    assert_eq!(c.resume(&[1, 1]), Next::Done(Err(Socks5Error::AuthFailed)));
}

#[test]
fn rejected_methods_fail() {
    let (mut c, _) = begin(None, None);
    assert_eq!(c.resume(&[5, 0xff]), Next::Done(Err(Socks5Error::AuthMethodRejected)));
}

#[test]
fn protocol_errors_name_the_byte() {
    let (mut c, _) = begin(None, None);
    assert_eq!(
        c.resume(&[4, 0]),
        Next::Done(Err(Socks5Error::ProtocolError("expected SOCKS5, got version 0x04".into())))
    );
    let (mut c, _) = begin(None, None);
    assert_eq!(
        c.resume(&[5, 0xab]),
        Next::Done(Err(Socks5Error::ProtocolError("unknown auth method 0xab".into())))
    );
    let (mut c, _) = begin(None, None);
    c.resume(&[5, 0]);
    assert_eq!(
        c.resume(&[0x10, 0, 0, 1]),
        Next::Done(Err(Socks5Error::ProtocolError(
            "expected SOCKS5 response version, got 0x10".into()
        )))
    );
    let (mut c, _) = begin(None, None);
    c.resume(&[5, 0]);
    assert_eq!(
        c.resume(&[5, 0, 0, 9]),
        Next::Done(Err(Socks5Error::ProtocolError("unsupported SOCKS5 address type 0x09".into())))
    );
}

#[test]
fn refused_requests_fail_with_their_code() {
    let (mut c, _) = begin(None, None);
    c.resume(&[5, 0]);
    assert_eq!(c.resume(&[5, 5, 0, 1]), exchange(&[], 6));
    assert_eq!(c.resume(&[0, 0, 0, 0, 0, 0]), Next::Done(Err(Socks5Error::RequestFailed(5))));
}

#[test]
fn replies_with_other_addresses_are_read() {
    let (mut c, _) = begin(None, None);
    c.resume(&[5, 0]);
    assert_eq!(c.resume(&[5, 0, 0, 3]), exchange(&[], 1));
    assert_eq!(c.resume(&[3]), exchange(&[], 5));
    let none = Ipv4Addr::new(0, 0, 0, 0);
    assert_eq!(c.resume(b"abc\x01\x02"), Next::Done(Ok(Reply { ip: none, port: 0x0102 })));
    let (mut c, _) = begin(None, None);
    c.resume(&[5, 0]);
    assert_eq!(c.resume(&[5, 0, 0, 4]), exchange(&[], 18));
    let mut v6 = [7u8; 18];
    v6[16] = 4;
    v6[17] = 1;
    assert_eq!(c.resume(&v6), Next::Done(Ok(Reply { ip: none, port: 0x0401 })));
}

#[test]
fn a_relay_is_asked_for_without_an_address() {
    let (mut c, _) = Client::start(Command::UdpAssociate, None, None);
    assert_eq!(c.resume(&[5, 0]), exchange(&[5, 3, 0, 1, 0, 0, 0, 0, 0, 0], 4));
}

#[test]
fn the_relay_address_falls_back() {
    let named = Reply { ip: Ipv4Addr::new(1, 2, 3, 4), port: 9 };
    let unnamed = Reply { ip: Ipv4Addr::new(0, 0, 0, 0), port: 9 };
    let peer = Some(Ipv4Addr::new(5, 6, 7, 8));
    let a = udp_association(named, peer, "9.9.9.9:1");
    assert_eq!((a.relay_ip, a.relay_port), (Ipv4Addr::new(1, 2, 3, 4), 9));
    assert_eq!(udp_association(unnamed, peer, "9.9.9.9:1").relay_ip, Ipv4Addr::new(5, 6, 7, 8));
    assert_eq!(udp_association(unnamed, None, "9.9.9.9:1").relay_ip, Ipv4Addr::new(9, 9, 9, 9));
    assert_eq!(udp_association(unnamed, None, "9.9.9.9").relay_ip, Ipv4Addr::new(9, 9, 9, 9));
    for addr in ["proxy.example:1", "", ":1", "::1:1080"] {
        assert_eq!(udp_association(unnamed, None, addr).relay_ip, Ipv4Addr::new(127, 0, 0, 1));
    }
}

#[test]
fn datagrams_are_wrapped_and_unwrapped() {
    let ip = Ipv4Addr::new(8, 8, 4, 4);
    let pkt = encapsulate_udp(ip, 0x1234, b"hello");
    assert_eq!(pkt, [&[0, 0, 0, 1, 8, 8, 4, 4, 0x12, 0x34][..], b"hello"].concat());
    assert_eq!(decapsulate_udp(&pkt), Some((ip, 0x1234, &b"hello"[..])));
    assert_eq!(decapsulate_udp(&encapsulate_udp(ip, 1, b"")), Some((ip, 1, &b""[..])));
    let mut odd = pkt.clone();
    odd[0] = 7;
    odd[2] = 1;
    let (a, p, d) = decapsulate_udp(&odd).unwrap();
    assert_eq!(encapsulate_udp(a, p, d), pkt);
}

#[test]
fn unreadable_datagrams_are_dropped() {
    assert_eq!(decapsulate_udp(&[0, 0, 0, 1, 8, 8, 8, 8, 0]), None);
    assert_eq!(decapsulate_udp(&[0, 0, 0, 3, 8, 8, 8, 8, 0, 53, 1]), None);
    assert_eq!(decapsulate_udp(&[]), None);
}

#[test]
fn errors_have_texts() {
    assert_eq!(Socks5Error::Io("refused".into()).message(), "SOCKS5 I/O error: refused");
    assert_eq!(
        Socks5Error::AuthMethodRejected.message(),
        "SOCKS5 server rejected all auth methods"
    );
    assert_eq!(Socks5Error::AuthFailed.message(), "SOCKS5 username/password auth failed");
    assert_eq!(
        Socks5Error::RequestFailed(5).message(),
        "SOCKS5 request failed (reply=0x05): connection refused"
    );
    assert_eq!(
        Socks5Error::RequestFailed(0xfe).message(),
        "SOCKS5 request failed (reply=0xfe): unknown error"
    );
    assert_eq!(Socks5Error::ProtocolError("x".into()).message(), "SOCKS5 protocol error: x");
}

#[test]
fn reply_codes_have_meanings() {
    let texts = [
        "succeeded",
        "general SOCKS server failure",
        "connection not allowed by ruleset",
        "network unreachable",
        "host unreachable",
        "connection refused",
        "TTL expired",
        "command not supported",
        "address type not supported",
        "unknown error",
    ];
    for (code, text) in texts.iter().enumerate() {
        assert_eq!(reply_message(code as u8), *text);
    }
    assert_eq!(reply_message(255), "unknown error");
}
