//! Opening a session: URLs, server names, the handshake, and the socket.

use rdows::args::{get_arg, DemoMode};
use rdows::connection::{
    accept_server_name, check_echo, check_server_name, connect, connect_complete, connect_to,
    recv_message, session_id_from, SocketEvent, UrlParts,
};
use rdows::error::{ErrorCode, RdowsError};
use rdows::frame::RdowsHeader;
use rdows::memory::ProtectionDomain;
use rdows::message::{ConnectPayload, ErrorPayload, RdowsMessage};
use rdows::opcode::Opcode;
use rdows::random::word_of_bytes;
use rdows::tls::{build_server_tls_config, server_identity, trust_anchors, KeyKind};

#[test]
fn url_names_host_and_port() {
    let endpoint = connect("wss://localhost:9443/rdows").unwrap();
    assert_eq!(endpoint.host, "localhost");
    assert_eq!(endpoint.port, 9443);
}

#[test]
fn default_port() {
    let endpoint = connect("wss://example.org/rdows").unwrap();
    assert_eq!(endpoint.host, "example.org");
    assert_eq!(endpoint.port, 443);
}

#[test]
fn user_part_is_not_the_host() {
    let endpoint = connect("wss://user@10.1.0.22:1/").unwrap();
    assert_eq!(endpoint.host, "10.1.0.22");
    assert_eq!(endpoint.port, 1);
}

#[test]
fn bad_url_is_an_error() {
    assert!(matches!(connect("wss://"), Err(RdowsError::WebSocket(_))));
    assert!(matches!(connect("/path"), Err(RdowsError::WebSocket(_))));
    assert!(matches!(connect(""), Err(RdowsError::WebSocket(_))));
}

#[test]
fn endpoint_from_parts() {
    let parts = UrlParts { host: None, port: Some(1) };
    match connect_to("wss://x", Ok(parts)) {
        Err(e) => assert_eq!(e.to_string(), "connection rejected: no host in URL"),
        Ok(_) => panic!("expected an error"),
    }
    match connect_to("x", Err("bad".to_string())) {
        Err(e) => assert_eq!(e.to_string(), "websocket error: bad"),
        Ok(_) => panic!("expected an error"),
    }
    let parts = UrlParts { host: Some("h".to_string()), port: Some(8) };
    match connect_to("ws://h:8", Ok(parts)) {
        Err(e) => {
            assert_eq!(e.to_string(), "connection rejected: TLS required: use wss:// not ws://")
        }
        Ok(_) => panic!("expected an error"),
    }
    let parts = UrlParts { host: Some("h".to_string()), port: None };
    assert_eq!(connect_to("ws:/", Ok(parts)).unwrap().port, 443);
}

#[test]
fn server_names() {
    assert!(check_server_name("localhost").is_ok());
    assert!(check_server_name("10.1.0.22").is_ok());
    let err = check_server_name("not a name").unwrap_err();
    assert_eq!(err.to_string(), "tls error: invalid server name: invalid dns name");
    assert!(accept_server_name(None).is_ok());
    let err = accept_server_name(Some("x".to_string())).unwrap_err();
    assert_eq!(err.to_string(), "tls error: invalid server name: x");
}

#[test]
fn subprotocol_echo() {
    assert!(check_echo(Some(b"rdows.v1")).is_ok());
    let expected = "connection rejected: server did not echo rdows.v1 subprotocol";
    assert_eq!(check_echo(Some(b"chat")).unwrap_err().to_string(), expected);
    assert_eq!(check_echo(None).unwrap_err().to_string(), expected);
}

#[test]
fn connect_answers() {
    let ack = |max_msg_size: u32, sequence: u32| {
        RdowsMessage::ConnectAck(
            RdowsHeader::new(Opcode::ConnectAck, 7, sequence, 0),
            ConnectPayload { pd: ProtectionDomain(3), capability_flags: 0, max_msg_size, icc: 12 },
        )
    };
    let params = connect_complete(7, ack(500, 0)).unwrap();
    assert_eq!(params.max_msg_size, 500);
    assert_eq!(params.pd, ProtectionDomain(3));
    assert_eq!(params.initial_remote_seq, 1);
    assert_eq!(params.icc, 12);
    let params = connect_complete(7, ack(u32::MAX, u32::MAX)).unwrap();
    assert_eq!(params.max_msg_size, 16_777_216);
    assert_eq!(params.initial_remote_seq, 0);

    let refusal = RdowsMessage::Error(
        RdowsHeader::new(Opcode::Error, 7, 0, 0),
        ErrorPayload {
            error_code: ErrorCode::ErrProtoVersion,
            failing_seq: 0,
            description: String::new(),
        },
    );
    match connect_complete(7, refusal) {
        Err(e) => assert_eq!(e.to_string(), "protocol error: ERR_PROTO_VERSION"),
        Ok(_) => panic!("expected an error"),
    }
    let stray = RdowsMessage::Ack(RdowsHeader::new(Opcode::Ack, 7, 0, 0));
    match connect_complete(7, stray) {
        Err(e) => {
            assert_eq!(e.to_string(), "unexpected message: expected CONNECT_ACK, got Ack")
        }
        Ok(_) => panic!("expected an error"),
    }
}

#[test]
fn socket_events() {
    assert_eq!(recv_message(SocketEvent::Binary(vec![1, 2])).unwrap(), Some(vec![1, 2]));
    assert_eq!(recv_message(SocketEvent::Other).unwrap(), None);
    assert!(matches!(recv_message(SocketEvent::Close), Err(RdowsError::SessionClosed)));
    assert!(matches!(recv_message(SocketEvent::Ended), Err(RdowsError::SessionClosed)));
    let err = recv_message(SocketEvent::Failed("reset".to_string())).unwrap_err();
    assert_eq!(err.to_string(), "websocket error: reset");
}

#[test]
fn session_number_is_never_zero() {
    assert_eq!(session_id_from(0), 1);
    assert_eq!(session_id_from(1), 1);
    assert_eq!(session_id_from(0x1234_5678), 0x1234_5678);
    assert_eq!(session_id_from(u32::MAX), u32::MAX);
}

#[test]
fn session_numbers_are_big_endian() {
    assert_eq!(word_of_bytes([0x12, 0x34, 0x56, 0x78]), 0x1234_5678);
    assert_eq!(word_of_bytes([0xff; 4]), u32::MAX);
    assert_eq!(word_of_bytes([0, 0, 0, 1]), 1);
}

fn section(label: &str, base64: &str) -> String {
    format!("-----BEGIN {label}-----\n{base64}\n-----END {label}-----\n")
}

#[test]
fn certificates_from_pem() {
    let pem = format!("{}{}", section("CERTIFICATE", "AQID"), section("CERTIFICATE", "BAUG"));
    let certs = trust_anchors(pem.as_bytes()).unwrap();
    assert_eq!(certs, vec![vec![1, 2, 3], vec![4, 5, 6]]);
    assert!(trust_anchors(b"no section here").unwrap().is_empty());
    assert!(trust_anchors(b"-----BEGIN CERTIFICATE-----\nAQID\n").is_err());
}

#[test]
fn server_identity_from_pem() {
    let cert = section("CERTIFICATE", "AQID");
    let key = section("EC PRIVATE KEY", "BAUG");
    let identity = build_server_tls_config(cert.as_bytes(), key.as_bytes()).unwrap();
    assert_eq!(identity.certs, vec![vec![1, 2, 3]]);
    assert_eq!(identity.key.kind, KeyKind::Sec1);
    assert_eq!(identity.key.der, vec![4, 5, 6]);
    let key = section("RSA PRIVATE KEY", "BAUG");
    let identity = build_server_tls_config(cert.as_bytes(), key.as_bytes()).unwrap();
    assert_eq!(identity.key.kind, KeyKind::Pkcs1);
    match build_server_tls_config(cert.as_bytes(), cert.as_bytes()) {
        Err(e) => assert_eq!(e, "no private key found"),
        Ok(_) => panic!("expected an error"),
    }
    assert!(build_server_tls_config(b"-----BEGIN CERTIFICATE-----\n", key.as_bytes()).is_err());
}

#[test]
fn certificate_faults_count_first() {
    match server_identity(Err("certs".to_string()), Err("key".to_string())) {
        Err(e) => assert_eq!(e, "certs"),
        Ok(_) => panic!("expected an error"),
    }
    match server_identity(Ok(Vec::new()), Err("key".to_string())) {
        Err(e) => assert_eq!(e, "key"),
        Ok(_) => panic!("expected an error"),
    }
}

#[test]
fn command_line_arguments() {
    let args: Vec<String> =
        ["prog", "--url", "a", "--url", "b", "--cert"].iter().map(|s| s.to_string()).collect();
    assert_eq!(get_arg(&args, "--url"), Some("a".to_string()));
    assert_eq!(get_arg(&args, "--cert"), None);
    assert_eq!(get_arg(&args, "--mode"), None);
    assert_eq!(get_arg(&args, "a"), Some("--url".to_string()));
}

#[test]
fn demo_modes() {
    assert_eq!(DemoMode::from_name("write"), Some(DemoMode::Write));
    assert_eq!(DemoMode::from_name("read"), Some(DemoMode::Read));
    assert_eq!(DemoMode::from_name("echo"), Some(DemoMode::Echo));
    assert_eq!(DemoMode::from_name("atomic"), Some(DemoMode::Atomic));
    assert_eq!(DemoMode::from_name("err_rnr"), Some(DemoMode::ErrRnr));
    assert_eq!(DemoMode::from_name("Write"), None);
}
