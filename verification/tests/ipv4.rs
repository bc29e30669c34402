use kepler::ipv4::Ipv4Addr;

#[test]
fn dotted_text_is_read_back() {
    let ip = Ipv4Addr::new(192, 168, 0, 255);
    assert_eq!(ip.text(), "192.168.0.255");
    assert_eq!(Ipv4Addr::parse("192.168.0.255"), Some(ip));
    let zero = Ipv4Addr::new(0, 0, 0, 0);
    assert_eq!(zero.text(), "0.0.0.0");
    assert_eq!(Ipv4Addr::parse("0.0.0.0"), Some(zero));
}

#[test]
fn other_texts_are_no_addresses() {
    for text in [
        "", "1", "1.2.3", "1.2.3.", "1.2.3.4.", "1.2.3.4.5", ".1.2.3", "1..2.3", "256.0.0.1",
        "01.2.3.4", "1.2.3.04", "1.2.3.4 ", " 1.2.3.4", "a.b.c.d", "1.2.3.-4", "1000.2.3.4",
        "localhost", "::1", "99999999999.1.1.1",
    ] {
        assert_eq!(Ipv4Addr::parse(text), None, "{}", text);
    }
}

#[test]
fn special_addresses_are_known() {
    assert!(Ipv4Addr::new(127, 0, 0, 1).is_loopback());
    assert!(Ipv4Addr::new(127, 255, 3, 4).is_loopback());
    assert!(!Ipv4Addr::new(128, 0, 0, 1).is_loopback());
    assert!(Ipv4Addr::new(0, 0, 0, 0).is_unspecified());
    assert!(!Ipv4Addr::new(0, 0, 0, 1).is_unspecified());
}
