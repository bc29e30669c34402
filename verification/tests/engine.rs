use kepler::divert::{filter_bytes, DivertError, DivertHandle, WinDivertAddress};
use kepler::pid_lookup::{size_known, table_fetched, LookupStep};
use kepler::tunnel::{outbound_filter, return_filter, EngineStart, StartStep, TunnelEngine};

#[test]
fn filters_have_their_texts() {
    assert_eq!(
        outbound_filter(),
        "outbound and ip.DstAddr != 127.0.0.1 and ((tcp and tcp.DstPort != 1080) or (udp and udp.DstPort != 1081))"
    );
    assert_eq!(
        return_filter(),
        "(tcp and tcp.SrcPort == 1080) or (udp and udp.SrcPort == 1081)"
    );
}

#[test]
fn filters_end_with_a_null_byte() {
    assert_eq!(filter_bytes("tcp"), Ok(b"tcp\0".to_vec()));
    assert_eq!(filter_bytes(""), Ok(vec![0]));
    assert_eq!(filter_bytes("t\0p"), Err(DivertError::NullInFilter));
    assert_eq!(DivertError::NullInFilter.message(), Some("filter string contains null byte"));
    assert_eq!(DivertError::Closed.message(), Some("WinDivert handle already closed"));
    assert_eq!(DivertError::Os.message(), None);
}

#[test]
fn zeroed_address_is_zero() {
    assert!(WinDivertAddress::zeroed().data.iter().all(|b| *b == 0));
}

#[test]
fn a_handle_is_closed_once() {
    assert!(matches!(DivertHandle::open(-1), Err(DivertError::Os)));
    let mut h = DivertHandle::open(42).unwrap();
    assert_eq!(h.live(), Ok(42));
    assert_eq!(h.close(), Some(42));
    assert_eq!(h.live(), Err(DivertError::Closed));
    assert_eq!(h.close(), None);
}

#[test]
fn the_driver_says_whether_it_succeeded() {
    assert_eq!(DivertHandle::transferred(0, 9), Err(DivertError::Os));
    assert_eq!(DivertHandle::transferred(1, 9), Ok(9));
    assert_eq!(DivertHandle::transferred(-1, 0), Ok(0));
}

#[test]
fn stopping_the_engine_closes_both_handles() {
    let mut e = TunnelEngine::start(DivertHandle::open(1).unwrap(), DivertHandle::open(2).unwrap());
    assert!(e.is_running());
    assert_eq!(e.outbound_raw(), Ok(1));
    assert_eq!(e.return_raw(), Ok(2));
    assert_eq!(e.stop(), (Some(1), Some(2)));
    assert!(!e.is_running());
    assert_eq!(e.outbound_raw(), Err(DivertError::Closed));
    assert_eq!(e.return_raw(), Err(DivertError::Closed));
    assert_eq!(e.stop(), (None, None));
}

fn tcp_table(rows: &[(u16, u32)], stated: u32) -> Vec<u8> {
    let mut t = stated.to_le_bytes().to_vec();
    for (port, pid) in rows {
        t.extend_from_slice(&[1, 0, 0, 0, 10, 0, 0, 2]);
        t.extend_from_slice(&port.to_be_bytes());
        t.extend_from_slice(&[0xaa, 0xbb]);
        t.extend_from_slice(&[9, 9, 9, 9, 1, 187, 0, 0]);
        t.extend_from_slice(&pid.to_le_bytes());
    }
    t
}

fn udp_table(rows: &[(u16, u32)], stated: u32) -> Vec<u8> {
    let mut t = stated.to_le_bytes().to_vec();
    for (port, pid) in rows {
        t.extend_from_slice(&[10, 0, 0, 2]);
        t.extend_from_slice(&port.to_be_bytes());
        t.extend_from_slice(&[0, 0]);
        t.extend_from_slice(&pid.to_le_bytes());
    }
    t
}

#[test]
fn owners_are_found_in_the_tables() {
    let t = tcp_table(&[(80, 11), (443, 0x01020304), (443, 13)], 3);
    assert_eq!(table_fetched(1, true, 443, 0, &t), LookupStep::Done(Some(0x01020304)));
    assert_eq!(table_fetched(1, true, 80, 0, &t), LookupStep::Done(Some(11)));
    let u = udp_table(&[(53, 21), (5353, 22)], 2);
    assert_eq!(table_fetched(1, false, 5353, 0, &u), LookupStep::Done(Some(22)));
    assert_eq!(table_fetched(1, false, 54, 0, &u), LookupStep::Done(None));
}

#[test]
fn rows_that_are_not_there_are_not_read() {
    let t = tcp_table(&[(80, 11), (443, 12)], 1);
    assert_eq!(table_fetched(3, true, 443, 0, &t), LookupStep::Done(None));
    let u = tcp_table(&[(80, 11)], 1_000_000);
    assert_eq!(table_fetched(3, true, 443, 0, &u), LookupStep::Done(None));
    assert_eq!(table_fetched(3, true, 80, 0, &u), LookupStep::Done(Some(11)));
    let cut = u[..27].to_vec();
    assert_eq!(table_fetched(3, true, 80, 0, &cut), LookupStep::Done(None));
    assert_eq!(table_fetched(1, true, 80, 0, &vec![1, 0, 0]), LookupStep::Done(None));
}

#[test]
fn tcp_is_asked_thrice_and_udp_once() {
    let t = tcp_table(&[], 0);
    assert_eq!(table_fetched(1, true, 80, 0, &t), LookupStep::Retry(2));
    assert_eq!(table_fetched(2, true, 80, 122, &t), LookupStep::Retry(3));
    assert_eq!(table_fetched(3, true, 80, 122, &t), LookupStep::Done(None));
    assert_eq!(table_fetched(1, false, 80, 122, &t), LookupStep::Done(None));
    assert_eq!(size_known(1, true, 0), LookupStep::Retry(2));
    assert_eq!(size_known(3, true, 0), LookupStep::Done(None));
    assert_eq!(size_known(1, false, 0), LookupStep::Done(None));
    assert_eq!(size_known(1, false, 100), LookupStep::Fetch(100));
}

/// The place in the start that asks for a handle with this filter and priority.
fn asked(step: StartStep, text: String, with: i16) -> EngineStart {
    match step {
        StartStep::Open { pending, filter, priority } => {
            assert_eq!(filter, text);
            assert_eq!(priority, with);
            pending
        }
        _ => panic!("no handle is asked for"),
    }
}

#[test]
fn an_engine_starts_on_two_handles_in_order() {
    let first = asked(EngineStart::begin(), outbound_filter(), 0);
    let second = asked(first.opened(Ok(DivertHandle::open(1).unwrap())), return_filter(), 1);
    match second.opened(Ok(DivertHandle::open(2).unwrap())) {
        StartStep::Started(e) => {
            assert!(e.is_running());
            assert_eq!(e.outbound_raw(), Ok(1));
            assert_eq!(e.return_raw(), Ok(2));
        }
        _ => panic!("not started"),
    }
}

#[test]
fn a_failed_first_handle_ends_the_start() {
    let first = asked(EngineStart::begin(), outbound_filter(), 0);
    match first.opened(Err("denied".into())) {
        StartStep::Failed { error, close } => assert_eq!((error.as_str(), close), ("denied", None)),
        _ => panic!("not failed"),
    }
}

#[test]
fn a_failed_second_handle_closes_the_first() {
    let first = asked(EngineStart::begin(), outbound_filter(), 0);
    let second = asked(first.opened(Ok(DivertHandle::open(7).unwrap())), return_filter(), 1);
    match second.opened(Err("busy".into())) {
        StartStep::Failed { error, close } => assert_eq!((error.as_str(), close), ("busy", Some(7))),
        _ => panic!("not failed"),
    }
}

/// A whole search, in which the attempts meet these sizes, statuses and tables.
fn search(is_tcp: bool, port: u16, said: &[(u32, u32, Vec<u8>)]) -> Option<u32> {
    let mut attempt: u32 = 1;
    loop {
        let (size, status, table) = &said[attempt as usize - 1];
        let mut step = size_known(attempt, is_tcp, *size);
        if step == LookupStep::Fetch(*size) {
            step = table_fetched(attempt, is_tcp, port, *status, table);
        }
        match step {
            LookupStep::Retry(next) => attempt = next,
            LookupStep::Done(found) => return found,
            LookupStep::Fetch(_) => panic!("the size is not the one that was said"),
        }
    }
}

#[test]
fn a_search_gives_the_owner_in_the_first_table_with_the_port() {
    let none = (28, 0, tcp_table(&[(80, 1)], 1));
    let one = (28, 0, tcp_table(&[(443, 11)], 1));
    let two = (28, 0, tcp_table(&[(443, 12)], 1));
    let failed = (28, 122, tcp_table(&[(443, 13)], 1));
    let empty = (0, 0, tcp_table(&[(443, 14)], 1));
    let short = (3, 0, vec![1, 0, 0]);
    let tcp = |said: [&(u32, u32, Vec<u8>); 3]| search(true, 443, &said.map(|s| s.clone()));
    assert_eq!(tcp([&one, &two, &two]), Some(11));
    assert_eq!(tcp([&none, &two, &one]), Some(12));
    assert_eq!(tcp([&failed, &empty, &one]), Some(11));
    assert_eq!(tcp([&none, &failed, &empty]), None);
    assert_eq!(tcp([&short, &one, &one]), None);
    assert_eq!(tcp([&none, &short, &one]), None);
    let udp = (16, 0, udp_table(&[(53, 21)], 1));
    assert_eq!(search(false, 53, &[udp.clone()]), Some(21));
    assert_eq!(search(false, 54, &[udp]), None);
}
