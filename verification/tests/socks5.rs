use vnt::address::{port_from_be, BindAddr, TargetAddr};
use vnt::protocol::{
    ADDRESS_TYPE_NOT_SUPPORTED, AUTH_METHOD_NOT_ACCEPTABLE, BIND, COMMAND_NOT_SUPPORTED, CONNECT,
    DOMAIN_NAME, GSSAPI, HOST_UNREACHABLE, IPV4_ADDRESS, IPV6_ADDRESS, NO_AUTH, SOCKS_VERSION,
    SUCCEEDED, USERNAME_PASSWORD,
};
use vnt::reply::{create_response, failure_reply, method_reply};
use vnt::session::{Action, Socks5Error, Socks5Session, Stage, Step};
use vnt::text::{decimal_string, hex_string};

fn read_step(session: &mut Socks5Session, bytes: &[u8]) -> Step {
    assert_eq!(session.wanted(), Some(bytes.len()));
    session.on_bytes(bytes)
}

fn expect_read(step: &Step) -> usize {
    match step.action {
        Action::Read(n) => n,
        _ => panic!("expected a read"),
    }
}

fn expect_target(step: Step) -> TargetAddr {
    match step.action {
        Action::Connect(t) => t,
        _ => panic!("expected a connect"),
    }
}

fn expect_close(step: &Step) -> Socks5Error {
    match step.action {
        Action::Close(e) => e,
        _ => panic!("expected the session to close"),
    }
}

/// Drives a session through an accepted greeting and returns it waiting for
/// the request.
fn accepted_session() -> Socks5Session {
    let mut s = Socks5Session::new();
    let step = read_step(&mut s, &[SOCKS_VERSION, 1]);
    assert!(step.reply.is_none());
    assert_eq!(expect_read(&step), 1);
    let step = read_step(&mut s, &[NO_AUTH]);
    assert_eq!(step.reply, Some(vec![SOCKS_VERSION, NO_AUTH]));
    assert_eq!(expect_read(&step), 4);
    assert_eq!(s.stage, Stage::Request);
    s
}

#[test]
fn test_socks5_connect() {
    let target_port: u16 = 40123;
    let mut session = Socks5Session::new();
    assert_eq!(session.wanted(), Some(2));

    // Version and one auth method, in two reads as the server asks.
    let step = read_step(&mut session, &[SOCKS_VERSION, 1]);
    assert_eq!(expect_read(&step), 1);
    let step = read_step(&mut session, &[NO_AUTH]);
    assert_eq!(step.reply, Some(vec![SOCKS_VERSION, NO_AUTH]));

    // The connect request to 127.0.0.1.
    let mut request = vec![SOCKS_VERSION, CONNECT, 0, IPV4_ADDRESS];
    request.extend_from_slice(&[127, 0, 0, 1]);
    request.extend_from_slice(&target_port.to_be_bytes());
    let n = expect_read(&step);
    let step = read_step(&mut session, &request[..n]);
    let rest = &request[n..];
    assert_eq!(expect_read(&step), rest.len());
    let step = read_step(&mut session, rest);
    assert!(step.reply.is_none());
    let target = expect_target(step);
    assert_eq!(target.to_address_string(), "127.0.0.1:40123");

    // The connection succeeds; the reply reports the bound address.
    let bound = BindAddr::V4 { ipv4: [127, 0, 0, 1], port: 50000 };
    let step = session.on_connect(Some(bound));
    let reply = step.reply.unwrap();
    assert_eq!(reply[0], SOCKS_VERSION);
    assert_eq!(reply[1], SUCCEEDED);
    match reply[3] {
        IPV4_ADDRESS => assert_eq!(reply.len(), 4 + 6),
        IPV6_ADDRESS => assert_eq!(reply.len(), 4 + 18),
        other => panic!("Unexpected address type: {}", other),
    }
    assert!(matches!(step.action, Action::Relay));
    assert_eq!(session.stage, Stage::Relaying);
}

#[test]
fn greeting_with_wrong_version_closes_silently() {
    let mut s = Socks5Session::new();
    let step = read_step(&mut s, &[4, 1]);
    assert!(step.reply.is_none());
    let e = expect_close(&step);
    assert_eq!(e, Socks5Error::UnsupportedVersion(4));
    assert_eq!(e.message(), "Unsupported SOCKS version: 4");
    assert_eq!(s.stage, Stage::Closed);
    assert_eq!(s.wanted(), None);
}

#[test]
fn methods_without_no_auth_are_refused() {
    let mut s = Socks5Session::new();
    let step = read_step(&mut s, &[SOCKS_VERSION, 2]);
    assert_eq!(expect_read(&step), 2);
    let step = read_step(&mut s, &[GSSAPI, USERNAME_PASSWORD]);
    assert_eq!(step.reply, Some(vec![SOCKS_VERSION, AUTH_METHOD_NOT_ACCEPTABLE]));
    let e = expect_close(&step);
    assert_eq!(e, Socks5Error::NoAcceptableAuthMethod);
    assert_eq!(e.message(), "No supported authentication methods");
}

#[test]
fn zero_methods_are_refused() {
    let mut s = Socks5Session::new();
    let step = read_step(&mut s, &[SOCKS_VERSION, 0]);
    assert_eq!(expect_read(&step), 0);
    let step = read_step(&mut s, &[]);
    assert_eq!(step.reply, Some(vec![SOCKS_VERSION, AUTH_METHOD_NOT_ACCEPTABLE]));
    assert_eq!(expect_close(&step), Socks5Error::NoAcceptableAuthMethod);
}

#[test]
fn no_auth_among_several_methods_is_chosen() {
    let mut s = Socks5Session::new();
    let step = read_step(&mut s, &[SOCKS_VERSION, 3]);
    assert_eq!(expect_read(&step), 3);
    let step = read_step(&mut s, &[USERNAME_PASSWORD, GSSAPI, NO_AUTH]);
    assert_eq!(step.reply, Some(vec![SOCKS_VERSION, NO_AUTH]));
    assert_eq!(expect_read(&step), 4);
}

#[test]
fn request_with_wrong_version_closes_silently() {
    let mut s = accepted_session();
    let step = read_step(&mut s, &[4, CONNECT, 0, IPV4_ADDRESS]);
    assert!(step.reply.is_none());
    let e = expect_close(&step);
    assert_eq!(e, Socks5Error::UnexpectedVersion(4));
    assert_eq!(e.message(), "Unexpected SOCKS version: 4");
}

#[test]
fn bind_command_is_not_supported() {
    let mut s = accepted_session();
    let step = read_step(&mut s, &[SOCKS_VERSION, BIND, 0, IPV4_ADDRESS]);
    assert_eq!(
        step.reply,
        Some(vec![SOCKS_VERSION, COMMAND_NOT_SUPPORTED, 0, IPV4_ADDRESS, 0, 0, 0, 0, 0, 0])
    );
    let e = expect_close(&step);
    assert_eq!(e, Socks5Error::UnsupportedCommand(2));
    assert_eq!(e.message(), "Unsupported command: 2");
}

#[test]
fn unknown_address_type_is_not_supported() {
    let mut s = accepted_session();
    let step = read_step(&mut s, &[SOCKS_VERSION, CONNECT, 0, 2]);
    assert_eq!(
        step.reply,
        Some(vec![SOCKS_VERSION, ADDRESS_TYPE_NOT_SUPPORTED, 0, IPV4_ADDRESS, 0, 0, 0, 0, 0, 0])
    );
    let e = expect_close(&step);
    assert_eq!(e, Socks5Error::UnsupportedAddressType(2));
    assert_eq!(e.message(), "Unsupported address type: 2");
}

#[test]
fn domain_request_names_host_and_port() {
    let mut s = accepted_session();
    let step = read_step(&mut s, &[SOCKS_VERSION, CONNECT, 0, DOMAIN_NAME]);
    assert_eq!(expect_read(&step), 1);
    let step = read_step(&mut s, &[11]);
    assert_eq!(expect_read(&step), 13);
    assert_eq!(s.stage, Stage::DomainName { len: 11 });
    let mut rest = b"example.com".to_vec();
    rest.extend_from_slice(&443u16.to_be_bytes());
    let step = read_step(&mut s, &rest);
    let target = expect_target(step);
    match &target {
        TargetAddr::Domain { name, port } => {
            assert_eq!(name.as_slice(), b"example.com");
            assert_eq!(*port, 443);
        }
        _ => panic!("expected a domain target"),
    }
    assert_eq!(target.to_address_string(), "example.com:443");
    assert_eq!(s.stage, Stage::Connecting);
}

#[test]
fn invalid_utf8_domain_is_decoded_leniently() {
    let target = TargetAddr::Domain { name: vec![b'f', 0xFF, b'o'], port: 80 };
    assert_eq!(target.to_address_string(), "f\u{FFFD}o:80");
}

#[test]
fn ipv6_request_names_address_in_hex_groups() {
    let mut s = accepted_session();
    let step = read_step(&mut s, &[SOCKS_VERSION, CONNECT, 0, IPV6_ADDRESS]);
    assert_eq!(expect_read(&step), 18);
    let mut rest = vec![0x20, 0x01, 0x0d, 0xb8, 0, 0, 0, 0, 0, 0, 0, 0, 0x12, 0x34, 0, 1];
    rest.extend_from_slice(&8080u16.to_be_bytes());
    let step = read_step(&mut s, &rest);
    let target = expect_target(step);
    assert_eq!(target.to_address_string(), "[2001:db8:0:0:0:0:1234:1]:8080");
}

#[test]
fn connect_failure_replies_host_unreachable() {
    let mut s = accepted_session();
    let step = read_step(&mut s, &[SOCKS_VERSION, CONNECT, 0, IPV4_ADDRESS]);
    let step = read_step(&mut s, &[10, 0, 0, 1, 0, 80]);
    let target = expect_target(step);
    assert_eq!(target.to_address_string(), "10.0.0.1:80");
    let step = s.on_connect(None);
    assert_eq!(
        step.reply,
        Some(vec![SOCKS_VERSION, HOST_UNREACHABLE, 0, IPV4_ADDRESS, 0, 0, 0, 0, 0, 0])
    );
    let e = expect_close(&step);
    assert_eq!(e, Socks5Error::ConnectFailed);
    assert_eq!(e.message(), "Failed to connect to target");
    assert_eq!(s.stage, Stage::Closed);
}

#[test]
fn response_for_ipv4_and_ipv6_bind_addresses() {
    let v4 = BindAddr::V4 { ipv4: [192, 168, 1, 2], port: 0x1F90 };
    assert_eq!(create_response(SUCCEEDED, &v4), vec![5, 0, 0, 1, 192, 168, 1, 2, 0x1F, 0x90]);
    let mut ip6 = [0u8; 16];
    ip6[15] = 1;
    let v6 = BindAddr::V6 { ipv6: ip6, port: 65535 };
    let r = create_response(SUCCEEDED, &v6);
    assert_eq!(r.len(), 22);
    assert_eq!(&r[..4], &[5, 0, 0, 4]);
    assert_eq!(&r[4..20], &ip6);
    assert_eq!(&r[20..], &[0xFF, 0xFF]);
}

#[test]
fn fixed_replies() {
    assert_eq!(method_reply(NO_AUTH), vec![5, 0]);
    assert_eq!(method_reply(AUTH_METHOD_NOT_ACCEPTABLE), vec![5, 0xFF]);
    assert_eq!(failure_reply(HOST_UNREACHABLE), vec![5, 4, 0, 1, 0, 0, 0, 0, 0, 0]);
}

#[test]
fn numbers_as_text() {
    assert_eq!(decimal_string(0), "0");
    assert_eq!(decimal_string(9), "9");
    assert_eq!(decimal_string(10), "10");
    assert_eq!(decimal_string(65535), "65535");
    assert_eq!(hex_string(0), "0");
    assert_eq!(hex_string(0x0db8), "db8");
    assert_eq!(hex_string(0xffff), "ffff");
    assert_eq!(hex_string(0x1000), "1000");
}

#[test]
fn big_endian_ports() {
    assert_eq!(port_from_be(0x1F, 0x90), 8080);
    assert_eq!(port_from_be(0, 0), 0);
    assert_eq!(port_from_be(0xFF, 0xFF), 65535);
    for p in [0u16, 1, 255, 256, 8080, 65535] {
        let b = p.to_be_bytes();
        assert_eq!(port_from_be(b[0], b[1]), p);
    }
}

#[test]
fn ipv4_target_text_uses_decimal_octets() {
    let t = TargetAddr::Ipv4 { ipv4: [255, 0, 10, 99], port: 0 };
    assert_eq!(t.to_address_string(), "255.0.10.99:0");
}
