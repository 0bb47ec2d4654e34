use gsc_fq::config::{ConfigFile, ReverseProxySection};
use gsc_fq::error::ReverseProxyError;
use gsc_fq::protocol::{
    config_hash_of, frame_message, hex_string, message_length, parse_tunnel_header, tunnel_header,
    udp_frame, udp_frame_length, ControlMessage, HandshakeStatus, ReverseProxyConfig, MAX_MESSAGE_SIZE,
    PROTOCOL_VERSION,
};
use gsc_fq::totp::Totp;
use gsc_fq::tunnel::{
    answer_client_hello, build_client_hello, handshake_result, parse_proxy_configs, route_pool_stream,
    route_tunnel, ReconnectAction, ReconnectPolicy, TunnelRoute,
};

fn tunnel(server_port: u16, local_port: u16) -> ReverseProxyConfig {
    ReverseProxyConfig { server_port, server_host: None, local_host: "localhost".to_string(), local_port }
}

const JSON: &[u8] = b"[{\"server_port\":8080,\"server_host\":null,\"local_host\":\"localhost\",\"local_port\":80}]";

#[test]
fn frames_carry_big_endian_lengths() {
    let framed = frame_message(b"abc").unwrap();
    assert_eq!(framed, vec![0, 0, 0, 3, b'a', b'b', b'c']);
    assert_eq!(message_length(&framed[..4]).unwrap(), 3);
    match message_length(&[0x01, 0x00, 0x00, 0x01]) {
        Err(ReverseProxyError::InvalidMessage(m)) => assert_eq!(m, "Message too large: 16777217 bytes"),
        _ => panic!("expected refusal"),
    }
    assert_eq!(message_length(&[0x01, 0x00, 0x00, 0x00]).unwrap(), MAX_MESSAGE_SIZE);
}

#[test]
fn tunnel_headers_round_trip() {
    let h = tunnel_header(2, 0xBEEF);
    assert_eq!(h, [2, 0, 0xBE, 0xEF]);
    assert_eq!(parse_tunnel_header(&h), (2, 0xBEEF));
    assert_eq!(udp_frame(&[9, 8, 7]), vec![0, 3, 9, 8, 7]);
    assert_eq!(udp_frame_length(&[1, 2]), 258);
}

#[test]
fn config_hash_is_sha256_hex() {
    assert_eq!(hex_string(&[0x00, 0xab, 0x10]), "00ab10");
    assert_eq!(
        config_hash_of(b"abc"),
        "ba7816bf8f01cfea414140de5dae2223b00361a396177a9cb410ff61f20015ad"
    );
}

fn hello(token: &str, totp_code: Option<u32>, proxies: Vec<ReverseProxyConfig>, hash: String) -> ControlMessage {
    ControlMessage::ClientHello { version: PROTOCOL_VERSION, token: token.to_string(), totp_code, proxies, config_hash: hash }
}

#[test]
fn server_accepts_a_matching_hello() {
    let h = hello("secret", None, vec![tunnel(8080, 80)], config_hash_of(JSON));
    let (resp, err) = answer_client_hello(&h, &Some("secret".to_string()), &vec![], &None, JSON, 1700000000, "1.2.3.4:5555");
    assert!(err.is_none());
    match resp {
        Some(ControlMessage::ServerHello { version, status, message, allowed_ports, session_id }) => {
            assert_eq!(version, PROTOCOL_VERSION);
            assert_eq!(status, HandshakeStatus::Accepted);
            assert_eq!(message, "Connected, 1 ports allocated");
            assert_eq!(allowed_ports, vec![8080]);
            assert_eq!(session_id.as_deref(), Some("session_1700000000_1.2.3.4:5555"));
        }
        _ => panic!("expected a server hello"),
    }
}

#[test]
fn server_refusals_in_order() {
    let good_hash = config_hash_of(JSON);
    let wrong_version = ControlMessage::ClientHello {
        version: 2,
        token: String::new(),
        totp_code: None,
        proxies: vec![],
        config_hash: String::new(),
    };
    let (r, e) = answer_client_hello(&wrong_version, &None, &vec![], &None, JSON, 0, "a");
    assert!(matches!(r, Some(ControlMessage::ServerHello { status: HandshakeStatus::VersionMismatch, .. })));
    assert!(matches!(e, Some(ReverseProxyError::UnsupportedVersion(2))));

    let bad_token = hello("nope", None, vec![tunnel(1, 1)], good_hash.clone());
    let (r, e) = answer_client_hello(&bad_token, &Some("secret".to_string()), &vec!["other".to_string()], &None, JSON, 0, "a");
    assert!(matches!(r, Some(ControlMessage::ServerHello { status: HandshakeStatus::InvalidToken, .. })));
    assert!(matches!(e, Some(ReverseProxyError::HandshakeFailed(ref m)) if m == "Authentication failed (Token)"));

    let allowed = hello("other", None, vec![tunnel(8080, 80)], good_hash.clone());
    let (_, e) = answer_client_hello(&allowed, &Some("secret".to_string()), &vec!["other".to_string()], &None, JSON, 0, "a");
    assert!(e.is_none());

    let no_code = hello("", None, vec![tunnel(1, 1)], good_hash.clone());
    let (r, e) = answer_client_hello(&no_code, &None, &vec![], &Some("JBSWY3DPEE".to_string()), JSON, 0, "a");
    match r {
        Some(ControlMessage::ServerHello { status, message, .. }) => {
            assert_eq!(status, HandshakeStatus::InvalidToken);
            assert_eq!(message, "Invalid or missing TOTP code");
        }
        _ => panic!("expected a server hello"),
    }
    assert!(matches!(e, Some(ReverseProxyError::HandshakeFailed(ref m)) if m == "Authentication failed (TOTP)"));

    let tampered = hello("", None, vec![tunnel(1, 1)], "00".to_string());
    let (r, _) = answer_client_hello(&tampered, &None, &vec![], &None, JSON, 0, "a");
    assert!(matches!(r, Some(ControlMessage::ServerHello { status: HandshakeStatus::InvalidConfigHash, .. })));

    let empty = hello("", None, vec![], good_hash.clone());
    let (r, e) = answer_client_hello(&empty, &None, &vec![], &None, JSON, 0, "a");
    assert!(matches!(r, Some(ControlMessage::ServerHello { status: HandshakeStatus::ConfigError, .. })));
    assert!(matches!(e, Some(ReverseProxyError::HandshakeFailed(ref m)) if m == "No proxies"));

    let (r, e) = answer_client_hello(&ControlMessage::Ping, &None, &vec![], &None, JSON, 0, "a");
    assert!(r.is_none());
    assert!(matches!(e, Some(ReverseProxyError::ProtocolError(ref m)) if m == "Expected ClientHello"));
}

#[test]
fn client_hello_with_totp_is_accepted() {
    let secret = Some("JBSWY3DPEE".to_string());
    let now = 1_700_000_000u64;
    let h = build_client_hello(&Some("tok".to_string()), &secret, vec![tunnel(8080, 80)], JSON, now);
    match &h {
        ControlMessage::ClientHello { version, token, totp_code, config_hash, .. } => {
            assert_eq!(*version, PROTOCOL_VERSION);
            assert_eq!(token, "tok");
            let expected = Totp::from_base32("JBSWY3DPEE").unwrap().generate(now);
            assert_eq!(*totp_code, Some(expected));
            assert_eq!(*config_hash, config_hash_of(JSON));
        }
        _ => panic!("expected a client hello"),
    }
    let (resp, err) = answer_client_hello(&h, &Some("tok".to_string()), &vec![], &secret, JSON, now + 20, "c");
    assert!(err.is_none());
    assert!(handshake_result(resp.unwrap()).is_ok());
}

#[test]
fn raw_secret_is_used_when_not_base32() {
    let secret = Some("not base32!".to_string());
    let h = build_client_hello(&None, &secret, vec![tunnel(1, 2)], JSON, 90);
    match &h {
        ControlMessage::ClientHello { totp_code, .. } => {
            assert_eq!(*totp_code, Some(Totp::new(b"not base32!".to_vec()).generate(90)));
        }
        _ => panic!("expected a client hello"),
    }
}

#[test]
fn client_reads_server_answers() {
    let refused = ControlMessage::ServerHello {
        version: 1,
        status: HandshakeStatus::InvalidToken,
        message: "go away".to_string(),
        allowed_ports: vec![],
        session_id: None,
    };
    assert!(matches!(handshake_result(refused), Err(ReverseProxyError::HandshakeFailed(ref m)) if m == "go away"));
    assert!(matches!(handshake_result(ControlMessage::Pong), Err(ReverseProxyError::HandshakeFailed(ref m)) if m == "Invalid server response"));
}

#[test]
fn tunnel_list_from_configuration() {
    let mut c = ConfigFile {
        server: None,
        proxies: vec![],
        token: None,
        totp_secret: None,
        reverse_proxies: vec![
            ReverseProxySection { server: "0.0.0.0:7000".to_string(), local: "127.0.0.1:22".to_string(), source_ip: None },
            ReverseProxySection { server: "7001".to_string(), local: "8080".to_string(), source_ip: None },
        ],
        reverse_proxy_server: None,
        reverse_proxy_client: None,
    };
    let v = parse_proxy_configs(&c).unwrap();
    assert_eq!(v.len(), 2);
    assert_eq!(v[0].server_port, 7000);
    assert_eq!(v[0].server_host.as_deref(), Some("0.0.0.0"));
    assert_eq!(v[0].local_host, "127.0.0.1");
    assert_eq!(v[0].local_port, 22);
    assert_eq!(v[1].server_host, None);
    assert_eq!(v[1].local_host, "localhost");
    c.reverse_proxies.push(ReverseProxySection { server: "x".to_string(), local: "1".to_string(), source_ip: None });
    match parse_proxy_configs(&c) {
        Err(ReverseProxyError::HandshakeFailed(m)) => assert_eq!(
            m,
            "Invalid server config: Configuration error: Invalid configuration value at server: Invalid port number 'x'"
        ),
        _ => panic!("expected an error"),
    }
}

#[test]
fn reconnection_backs_off_then_gives_up() {
    let mut p = ReconnectPolicy::new();
    let mut delays = Vec::new();
    loop {
        match p.after_attempt(false) {
            ReconnectAction::RetryAfter(d) => delays.push(d),
            ReconnectAction::GiveUp => break,
            ReconnectAction::Finished => panic!("no success was reported"),
        }
    }
    assert_eq!(delays, vec![1, 2, 4, 8, 16, 32, 60, 60, 60]);
    assert_eq!(p.retry_count(), 10);
    match p.give_up_error() {
        ReverseProxyError::ConnectionFailed(m) => assert_eq!(m, "Failed after 10 retry attempts"),
        _ => panic!("unexpected error"),
    }
    let mut q = ReconnectPolicy::new();
    assert_eq!(q.after_attempt(true), ReconnectAction::Finished);
}

#[test]
fn tunnel_streams_are_routed() {
    let ps = vec![tunnel(8080, 80), tunnel(8080, 81), tunnel(9090, 90)];
    match route_tunnel(&[1, 0, 0x1F, 0x90], &ps) {
        Ok(TunnelRoute::Tcp { local_host, local_port }) => {
            assert_eq!(local_host, "localhost");
            assert_eq!(local_port, 80);
        }
        _ => panic!("expected tcp"),
    }
    assert!(matches!(route_tunnel(&[2, 0, 0x23, 0x82], &ps), Ok(TunnelRoute::Udp { local_port: 90, .. })));
    assert!(matches!(route_tunnel(&[1, 0, 0, 1], &ps), Err(ReverseProxyError::ConnectionFailed(ref m)) if m == "No local target for port 1"));
    assert!(matches!(route_tunnel(&[3, 0, 0, 1], &ps), Err(ReverseProxyError::ConnectionFailed(ref m)) if m == "PROXY protocol not implemented"));
    assert!(matches!(route_tunnel(&[0xAB, 0, 0, 1], &ps), Err(ReverseProxyError::ConnectionFailed(ref m)) if m == "Unknown protocol type 0xab"));
    assert_eq!(route_pool_stream(&[0x23, 0x82], &ps).unwrap(), ("localhost".to_string(), 90));
    assert!(matches!(route_pool_stream(&[0, 7], &ps), Err(ReverseProxyError::ConnectionFailed(ref m)) if m == "Unknown server port: 7"));
}

#[test]
fn allowed_tokens_bind_a_server_without_its_own_token() {
    let good_hash = config_hash_of(JSON);
    let outsider = hello("b", None, vec![tunnel(8080, 80)], good_hash.clone());
    let (r, e) = answer_client_hello(&outsider, &None, &vec!["a".to_string()], &None, JSON, 0, "c");
    match r {
        Some(ControlMessage::ServerHello { status, allowed_ports, session_id, .. }) => {
            assert_eq!(status, HandshakeStatus::InvalidToken);
            assert!(allowed_ports.is_empty());
            assert!(session_id.is_none());
        }
        _ => panic!("expected a server hello"),
    }
    assert!(matches!(e, Some(ReverseProxyError::HandshakeFailed(_))));

    let member = hello("a", None, vec![tunnel(8080, 80)], good_hash.clone());
    let (r, e) = answer_client_hello(&member, &None, &vec!["a".to_string()], &None, JSON, 0, "c");
    assert!(e.is_none());
    assert!(matches!(r, Some(ControlMessage::ServerHello { status: HandshakeStatus::Accepted, .. })));

    let open = hello("anything", None, vec![tunnel(8080, 80)], good_hash);
    let (_, e) = answer_client_hello(&open, &None, &vec![], &None, JSON, 0, "c");
    assert!(e.is_none());
}
