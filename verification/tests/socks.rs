use nodeinnet::socks::{
    batch_is_external, build_connect_request, is_console_host, is_external_udp, launch_flags, loopback, proxy_port,
    resume_after_injection, Action, BlockingModes, Destination, Errno, Event, Family, Platform, Redirect, Stage,
};

fn v4(a: u8, b: u8, c: u8, d: u8, port: u16) -> Destination {
    Destination { family: Family::V4, ip: vec![a, b, c, d], port: port.to_be_bytes() }
}

#[test]
fn loopback_addresses_are_left_alone() {
    assert!(loopback(&v4(127, 0, 0, 1, 80)));
    assert!(!loopback(&v4(10, 0, 0, 1, 80)));
    let mut ip6 = vec![0u8; 16];
    ip6[15] = 1;
    assert!(loopback(&Destination { family: Family::V6, ip: ip6, port: [0, 80] }));
    let mut r = Redirect::new(Platform::Unix, 1080, v4(127, 0, 0, 1, 80));
    assert!(matches!(r.step(Event::Begin), Action::CallOriginal));
    assert_eq!(r.stage, Stage::Finished);
}

#[test]
fn proxy_port_parsing() {
    assert_eq!(proxy_port(Some("1080")), 1080);
    assert_eq!(proxy_port(Some("+22")), 22);
    assert_eq!(proxy_port(Some("70000")), 0);
    assert_eq!(proxy_port(Some("x")), 0);
    assert_eq!(proxy_port(None), 0);
}

#[test]
fn connect_request_bytes() {
    assert_eq!(build_connect_request(&v4(1, 2, 3, 4, 443)), vec![5, 1, 0, 1, 1, 2, 3, 4, 1, 187]);
}

#[test]
fn full_unix_handshake() {
    let mut r = Redirect::new(Platform::Unix, 9050, v4(93, 184, 216, 34, 80));
    assert!(matches!(r.step(Event::Begin), Action::QuerySockType));
    assert!(matches!(
        r.step(Event::SockType { known: true, datagram: false }),
        Action::ConnectProxy { port: 9050, ipv6: false }
    ));
    assert!(matches!(r.step(Event::Connected(0)), Action::Send(ref b) if b == &vec![5, 1, 0]));
    assert!(matches!(r.step(Event::Sent(3)), Action::Receive(2)));
    assert!(matches!(r.step(Event::Received { count: 2, bytes: vec![5, 0] }), Action::Send(ref b) if b.len() == 10));
    assert!(matches!(r.step(Event::Sent(10)), Action::Receive(4)));
    assert!(matches!(r.step(Event::Received { count: 4, bytes: vec![5, 0, 0, 1] }), Action::Receive(6)));
    assert!(matches!(r.step(Event::Received { count: 6, bytes: vec![0; 6] }), Action::Return { code: 0, errno: None }));
}

#[test]
fn datagrams_are_refused_and_a_missing_proxy_fails_closed() {
    let mut r = Redirect::new(Platform::Unix, 1080, v4(8, 8, 8, 8, 53));
    r.step(Event::Begin);
    assert!(matches!(
        r.step(Event::SockType { known: true, datagram: true }),
        Action::Return { code: -1, errno: Some(Errno::Access) }
    ));
    let mut r = Redirect::new(Platform::Unix, 0, v4(8, 8, 8, 8, 53));
    r.step(Event::Begin);
    assert!(matches!(
        r.step(Event::SockType { known: true, datagram: false }),
        Action::Return { code: -1, errno: Some(Errno::ConnectionRefused) }
    ));
}

#[test]
fn windows_dials_the_fixed_port() {
    let mut r = Redirect::new(Platform::Windows, 0, v4(1, 1, 1, 1, 443));
    r.step(Event::Begin);
    assert!(matches!(
        r.step(Event::SockType { known: false, datagram: false }),
        Action::ConnectProxy { port: 1080, ipv6: false }
    ));
}

#[test]
fn external_udp_and_console_hosts() {
    assert!(is_external_udp(&v4(8, 8, 4, 4, 53), true, true));
    assert!(!is_external_udp(&v4(127, 0, 0, 1, 53), true, true));
    assert!(is_console_host("C:\\Windows\\System32\\CONHOST.EXE 0x4"));
    assert!(!is_console_host("notepad.exe"));
    assert_eq!(launch_flags(0x10, false), 0x14);
    assert_eq!(launch_flags(0x10, true), 0x10);
    assert!(resume_after_injection(0, false));
    assert!(!resume_after_injection(4, false));
}

#[test]
fn blocking_modes_are_restored() {
    let mut m = BlockingModes::new();
    m.record(5, 1);
    m.record(6, 0);
    assert_eq!(m.restore_mode(5), Some(1));
    assert_eq!(m.restore_mode(6), None);
    m.forget(5);
    assert_eq!(m.restore_mode(5), None);
}

#[test]
fn a_batch_with_any_external_datagram_is_refused() {
    let batch = vec![Some(v4(127, 0, 0, 1, 53)), None, Some(v4(8, 8, 8, 8, 53))];
    assert!(batch_is_external(&batch, true, true));
    assert!(!batch_is_external(&batch, true, false));
    assert!(!batch_is_external(&batch, false, true));
    let local = vec![Some(v4(127, 0, 0, 1, 53)), None];
    assert!(!batch_is_external(&local, true, true));
    assert!(!batch_is_external(&[], true, true));
}
