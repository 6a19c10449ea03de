use http_client::connect::{plan_connect, stage_error, ConnectAction, Connection, EstablishStage};
use http_client::errors::ClientError;
use http_client::transport::TransportStream;
use http_client::url::{split_host_port, Scheme, Target};

fn target(host: &str, path: &str, scheme: Scheme) -> Target {
    Target { host: host.to_string(), path: path.to_string(), scheme }
}

/// A generic reader that only uses the shared read contract: it collects
/// chunks until a read returns zero bytes.
fn generic_reader(s: &mut TransportStream) -> Vec<u8> {
    let mut out = Vec::new();
    loop {
        let chunk = s.read(7);
        if chunk.is_empty() {
            break;
        }
        out.extend(chunk);
    }
    out
}

#[test]
fn plaintext_and_encrypted_doubles_are_indistinguishable() {
    let injected: Vec<u8> = (0..100u8).collect();
    let mut plain = TransportStream::new_plaintext(injected.clone());
    let mut enc = TransportStream::new_encrypted(injected.clone());
    let from_plain = generic_reader(&mut plain);
    let from_enc = generic_reader(&mut enc);
    assert_eq!(from_plain, from_enc);
    assert_eq!(from_plain, injected);
}

#[test]
fn writes_are_identical_across_variants() {
    let mut plain = TransportStream::new_plaintext(Vec::new());
    let mut enc = TransportStream::new_encrypted(Vec::new());
    for s in [&mut plain, &mut enc] {
        s.write_all(b"abc");
        s.write_all(b"def");
        s.flush();
    }
    assert_eq!(plain.sent_bytes(), enc.sent_bytes());
    assert_eq!(plain.sent_bytes(), b"abcdef".to_vec());
}

#[test]
fn read_stops_exactly_at_zero_read() {
    let mut s = TransportStream::new_plaintext(vec![1, 2, 3, 4, 5]);
    let first = s.read(2);
    assert_eq!(first, vec![1, 2]);
    let rest = s.read_to_end();
    assert_eq!(rest, vec![3, 4, 5]);
    assert!(s.read(10).is_empty());
}

#[test]
fn zero_capacity_read_consumes_nothing() {
    let mut s = TransportStream::new_plaintext(vec![9, 8, 7]);
    assert!(s.read(0).is_empty());
    assert_eq!(s.read_to_end(), vec![9, 8, 7]);
}

#[test]
fn reads_after_end_return_nothing() {
    let mut s = TransportStream::new_encrypted(vec![5, 6]);
    assert_eq!(s.read_to_end(), vec![5, 6]);
    assert!(s.read(1024).is_empty());
    assert!(s.read(1).is_empty());
    assert!(s.read_to_end().is_empty());
}

#[test]
fn flush_moves_pending_to_sent() {
    let mut s = TransportStream::new_plaintext(Vec::new());
    s.write_all(b"xy");
    assert_eq!(s.pending_bytes(), b"xy".to_vec());
    assert!(s.sent_bytes().is_empty());
    s.flush();
    assert!(s.pending_bytes().is_empty());
    assert_eq!(s.sent_bytes(), b"xy".to_vec());
}

#[test]
fn connection_one_cycle() {
    let response = b"HTTP/1.1 200 OK\r\n\r\nhello".to_vec();
    let stream = TransportStream::new_encrypted(response.clone());
    let t = target("example.com", "", Scheme::Encrypted);
    let mut conn = Connection { stream, target: t };
    conn.send_request("GET / HTTP/1.1\r\n\r\n");
    assert_eq!(conn.stream.sent_bytes(), b"GET / HTTP/1.1\r\n\r\n".to_vec());
    assert_eq!(conn.read_response(), response);
}

/// The test double resolver of the round-trip property: it recognizes one
/// host and answers one fake address candidate for it.
fn double_resolver(conn_str: &str) -> Option<u32> {
    let (host, _port) = split_host_port(conn_str)?;
    if host == "known.example" {
        Some(1)
    } else {
        None
    }
}

#[test]
fn establish_round_trip_with_double_resolver() {
    let t = target("known.example", "", Scheme::CustomPort(8080));
    let candidate = double_resolver(&t.connection_string());
    assert_eq!(candidate, Some(1));
    match plan_connect(&t, candidate).unwrap() {
        ConnectAction::OpenPlaintext { addr } => assert_eq!(addr, 1),
        ConnectAction::OpenTls { .. } => panic!("plaintext scheme must not plan TLS"),
    }
}

#[test]
fn establish_fails_before_connect_without_candidates() {
    // No candidate: the resolution error, and no connect action at all.
    let t = target("unknown.example", "", Scheme::Encrypted);
    let candidate = double_resolver(&t.connection_string());
    assert_eq!(candidate, None);
    let r = plan_connect::<u32>(&t, candidate);
    assert_eq!(r.unwrap_err(), ClientError::AddressResolution);
}

#[test]
fn encrypted_scheme_plans_tls_with_host_as_peer_name() {
    let t = target("example.com", "x", Scheme::Encrypted);
    match plan_connect(&t, Some(7u32)).unwrap() {
        ConnectAction::OpenTls { addr, server_name } => {
            assert_eq!(addr, 7);
            assert_eq!(server_name, "example.com");
        }
        ConnectAction::OpenPlaintext { .. } => panic!("encrypted scheme must plan TLS"),
    }
}

#[test]
fn stage_errors_map_one_to_one() {
    assert_eq!(stage_error(EstablishStage::Resolve), ClientError::AddressResolution);
    assert_eq!(stage_error(EstablishStage::TlsContext), ClientError::TlsSetup);
    assert_eq!(stage_error(EstablishStage::RawConnect), ClientError::Connect);
    assert_eq!(stage_error(EstablishStage::TlsHandshake), ClientError::TlsHandshake);
    assert_eq!(stage_error(EstablishStage::Transfer), ClientError::Io);
}
