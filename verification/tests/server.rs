use moq_boy::server::{
    select_protocol, AcceptEvent, AcceptStep, CloseStep, Compiled, QuicBackend, Rejection, Request, RequestKind, Server,
    ServerConfig, ServerError, ServerId,
};
use moq_boy::tls::Server as TlsServer;

const ALL: Compiled = Compiled { quinn: true, noq: true, quiche: true };

fn config() -> ServerConfig {
    ServerConfig {
        bind: None,
        backend: None,
        quic_lb_id: None,
        quic_lb_nonce: None,
        preferred_v4: None,
        preferred_v6: None,
        max_streams: None,
        version: vec![],
        tls: TlsServer::default(),
    }
}

fn request(kind: RequestKind) -> Request {
    Request {
        kind,
        url: Some("https://host/path".to_string()),
        peer_certificate: true,
    }
}

#[test]
fn backends_are_chosen_in_order() {
    let chosen = |quinn, noq, quiche| config().init(Compiled { quinn, noq, quiche }).unwrap().backend();
    assert_eq!(chosen(true, true, true), QuicBackend::Quinn);
    assert_eq!(chosen(false, true, true), QuicBackend::Noq);
    assert_eq!(chosen(false, false, true), QuicBackend::Quiche);
    let mut c = config();
    c.backend = Some(QuicBackend::Quiche);
    assert_eq!(Server::new(&c, ALL).unwrap().backend(), QuicBackend::Quiche);
}

#[test]
fn client_certificates_need_quinn() {
    let mut c = config();
    c.tls.root.push("ca.pem".into());
    assert!(Server::new(&c, ALL).is_ok());
    c.backend = Some(QuicBackend::Noq);
    assert!(matches!(Server::new(&c, ALL), Err(ServerError::MtlsQuinnOnly)));
    c.backend = None;
    let without = Compiled { quinn: false, ..ALL };
    assert!(matches!(Server::new(&c, without), Err(ServerError::MtlsQuinnOnly)));
    assert!(matches!(c.init(without), Err(ServerError::MtlsQuinnOnly)));
}

#[test]
fn versions_default_to_all() {
    let mut c = config();
    let codes = |c: &ServerConfig| -> Vec<u64> { c.versions().iter().map(|v| v.code()).collect() };
    assert_eq!(
        codes(&c),
        vec![
            0xff0dad04, 0xff0dad03, 0xff0dad02, 0xff0dad01, 0xff000013, 0xff000012, 0xff000011, 0xff000010,
            0xff00000f, 0xff00000e
        ]
    );
    c.version = vec![0xff0dad02, 0xff00000e];
    assert_eq!(codes(&c), vec![0xff0dad02, 0xff00000e]);
}

#[test]
fn the_default_address() {
    let mut c = config();
    assert_eq!(c.bind_addr(), "[::]:443");
    c.bind = Some("host:1".to_string());
    assert_eq!(c.bind_addr(), "host:1");
}

#[test]
fn connections_are_offered_the_alpns_of_the_versions() {
    let offered = |version: Vec<u64>| {
        let mut c = config();
        c.version = version;
        match Server::new(&c, ALL).unwrap().accept(AcceptEvent::Quic(QuicBackend::Quinn)) {
            AcceptStep::StartHandshake(alpns) => alpns,
            other => panic!("{:?}", other),
        }
    };
    assert_eq!(
        offered(vec![]),
        vec!["moq-lite-04", "moq-lite-03", "moql", "moqt-19", "moqt-18", "moqt-17", "moqt-16", "moqt-15", "moq-00"]
    );
    assert_eq!(offered(vec![0xff0dad05, 0xff0dad01, 0xff0dad02]), vec!["moq-lite-05-wip", "moql"]);
}

#[test]
fn sessions_are_handed_out_when_they_are_ready() {
    let mut s = Server::new(&config(), ALL).unwrap();
    assert!(matches!(s.accept(AcceptEvent::Iroh), AcceptStep::StartIroh));
    assert!(matches!(s.accept(AcceptEvent::Handshake { succeeded: true }), AcceptStep::HandshakeSession));
    assert!(matches!(s.accept(AcceptEvent::Handshake { succeeded: false }), AcceptStep::Wait));
    assert!(matches!(s.accept(AcceptEvent::WebSocket { established: true }), AcceptStep::WebSocketSession));
    assert!(matches!(s.accept(AcceptEvent::WebSocket { established: false }), AcceptStep::Wait));
}

#[test]
fn shutting_down_closes_everything_once() {
    let mut s = Server::new(&config(), ALL).unwrap().with_websocket(true).with_iroh(true);
    assert!(s.websocket && s.iroh);
    match s.accept(AcceptEvent::Interrupted) {
        AcceptStep::Shutdown(steps) => assert_eq!(
            steps,
            vec![CloseStep::Quic(QuicBackend::Quinn), CloseStep::Iroh, CloseStep::WebSocket]
        ),
        other => panic!("{:?}", other),
    }
    assert_eq!(s.close(), vec![CloseStep::Quic(QuicBackend::Quinn)]);
    let mut c = config();
    c.backend = Some(QuicBackend::Noq);
    assert_eq!(Server::new(&c, ALL).unwrap().close(), vec![CloseStep::Quic(QuicBackend::Noq)]);
}

#[test]
fn requests_are_rejected_with_a_status_code() {
    for kind in [RequestKind::Noq, RequestKind::Quinn, RequestKind::Quiche, RequestKind::Iroh] {
        assert_eq!(request(kind).close(404), Ok(Rejection::Status(404)));
        assert_eq!(request(kind).close(100), Ok(Rejection::Status(100)));
        assert_eq!(request(kind).close(999), Ok(Rejection::Status(999)));
        assert_eq!(request(kind).close(99), Err(ServerError::InvalidStatusCode));
        assert_eq!(request(kind).close(1000), Err(ServerError::InvalidStatusCode));
    }
    assert_eq!(request(RequestKind::WebSocket).close(404), Ok(Rejection::Drop));
    assert_eq!(request(RequestKind::WebSocket).close(0), Ok(Rejection::Drop));
}

#[test]
fn requests_know_their_transport() {
    for (kind, transport, url, certificate) in [
        (RequestKind::Noq, "quic", true, false),
        (RequestKind::Quinn, "quic", true, true),
        (RequestKind::Quiche, "quic", true, false),
        (RequestKind::Iroh, "iroh", true, false),
        (RequestKind::WebSocket, "websocket", false, false),
    ] {
        let r = request(kind);
        assert_eq!(r.transport(), transport);
        assert_eq!(r.url().is_some(), url);
        assert_eq!(r.has_peer_certificate(), certificate);
    }
    let mut r = request(RequestKind::Quinn);
    assert_eq!(r.url(), Some("https://host/path"));
    r.url = None;
    r.peer_certificate = false;
    assert_eq!(r.url(), None);
    assert!(!r.has_peer_certificate());
}

#[test]
fn server_ids_are_hexadecimal() {
    let id: ServerId = "0a1bFF".parse().unwrap();
    assert_eq!(id.0, vec![0x0a, 0x1b, 0xff]);
    assert_eq!(id.len(), 3);
    assert_eq!(id.debug_text(), "QuicLbServerId(\"0a1bff\")");
    assert_eq!(ServerId::from_hex("").unwrap().len(), 0);
    assert_eq!(ServerId::from_hex("abc").err(), Some(hex::FromHexError::OddLength));
    assert!(ServerId::from_hex("zz").is_err());
    assert!(ServerId::from_hex("\u{e9}").is_err());
    let all: Vec<u8> = (0..=255).collect();
    let text = ServerId(all.clone()).debug_text();
    let digits = &text["QuicLbServerId(\"".len()..text.len() - 2];
    assert_eq!(ServerId::from_hex(digits).unwrap().0, all);
    assert_eq!(ServerId::from_hex(&digits.to_uppercase()).unwrap().0, all);
}

#[test]
fn the_first_protocol_that_is_supported_is_spoken() {
    let list = |names: &[&str]| -> Vec<String> { names.iter().map(|n| n.to_string()).collect() };
    let supported = list(&["moq-lite-04", "moqt-16"]);
    assert_eq!(select_protocol(&list(&["x", "moqt-16", "moq-lite-04"]), &supported), Some("moqt-16".to_string()));
    assert_eq!(select_protocol(&list(&["x"]), &supported), None);
    assert_eq!(select_protocol(&list(&[]), &supported), None);
    assert_eq!(select_protocol(&list(&["x"]), &list(&[])), None);
}
