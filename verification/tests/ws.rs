use actix_http::header::{Header, HeaderMap, HeaderName, StandardHeader};
use actix_http::message::ResponseHead;
use actix_http::ws::{
    check_response, handshake, has_error, joined, value_says, Client, ClientError, ClientResponseFut, Codec,
    Connect, Protocol, Uri,
};

fn uri(scheme: Option<&str>, host: Option<&str>, port: Option<u16>) -> Uri {
    Uri { scheme: scheme.map(|s| s.to_string()), host: host.map(|s| s.to_string()), port }
}

fn connect(uri: Uri) -> Connect {
    Connect {
        uri,
        headers: HeaderMap::new(),
        origin: None,
        protocols: None,
        max_size: 65_536,
        server_mode: false,
        err: None,
        http_err: None,
    }
}

fn std_line(name: StandardHeader, value: &[u8]) -> Header {
    Header { name: HeaderName::Standard(name), value: value.to_vec() }
}

fn answer(status: u16, lines: Vec<Header>) -> ResponseHead {
    let mut h = ResponseHead::new(status);
    for l in lines {
        h.headers.append(l.name, l.value);
    }
    h
}

const KEY: &str = "dGhlIHNhbXBsZSBub25jZQ==";
const ACCEPT: &[u8] = b"s3pPLMBiTxaQ9kYGzzhZRbK+xOo=";

fn good_answer() -> ResponseHead {
    answer(
        101,
        vec![
            std_line(StandardHeader::Upgrade, b"websocket"),
            std_line(StandardHeader::Connection, b"Upgrade"),
            std_line(StandardHeader::SecWebsocketAccept, ACCEPT),
        ],
    )
}

fn fut() -> ClientResponseFut {
    ClientResponseFut { key: KEY.to_string(), max_size: 1024, server_mode: false }
}

#[test]
fn protocols_and_their_ports() {
    assert_eq!(Protocol::from("http"), Some(Protocol::Http));
    assert_eq!(Protocol::from("https"), Some(Protocol::Https));
    assert_eq!(Protocol::from("ws"), Some(Protocol::Ws));
    assert_eq!(Protocol::from("wss"), Some(Protocol::Wss));
    assert_eq!(Protocol::from("ftp"), None);
    assert_eq!(Protocol::from(""), None);
    assert_eq!(Protocol::from("WS"), None);
    assert_eq!(Protocol::Http.port(), 80);
    assert_eq!(Protocol::Ws.port(), 80);
    assert_eq!(Protocol::Https.port(), 443);
    assert_eq!(Protocol::Wss.port(), 443);
}

#[test]
fn handshake_sets_the_upgrade_headers() {
    let mut req = connect(uri(Some("ws"), Some("example.org"), None));
    req.headers.append(HeaderName::Standard(StandardHeader::Upgrade), b"h2c".to_vec());
    req.headers.append(HeaderName::Custom(b"x-token".to_vec()), b"abc".to_vec());
    req.origin = Some(b"https://example.org".to_vec());
    req.protocols = Some("chat,superchat".to_string());
    req.server_mode = true;
    let h = handshake(req, KEY.to_string()).unwrap();
    assert_eq!(
        h.headers.entries,
        vec![
            Header { name: HeaderName::Custom(b"x-token".to_vec()), value: b"abc".to_vec() },
            std_line(StandardHeader::Origin, b"https://example.org"),
            std_line(StandardHeader::Upgrade, b"websocket"),
            std_line(StandardHeader::SecWebsocketVersion, b"13"),
            std_line(StandardHeader::SecWebsocketProtocol, b"chat,superchat"),
            std_line(StandardHeader::SecWebsocketKey, KEY.as_bytes()),
        ]
    );
    assert!(h.upgrade);
    assert_eq!(h.host, "example.org");
    assert_eq!(h.port, 80);
    assert_eq!(h.fut.key, KEY);
    assert_eq!(h.fut.max_size, 65_536);
    assert!(h.fut.server_mode);
}

#[test]
fn handshake_picks_the_port() {
    let h = handshake(connect(uri(Some("wss"), Some("example.org"), None)), KEY.to_string());
    assert_eq!(h.unwrap().port, 443);
    let h = handshake(connect(uri(Some("https"), Some("example.org"), None)), KEY.to_string());
    assert_eq!(h.unwrap().port, 443);
    let h = handshake(connect(uri(Some("ws"), Some("example.org"), Some(9000))), KEY.to_string());
    assert_eq!(h.unwrap().port, 9000);
}

#[test]
fn handshake_refuses_bad_addresses() {
    let no_host = handshake(connect(uri(Some("ws"), None, None)), KEY.to_string());
    assert_eq!(no_host.unwrap_err(), ClientError::InvalidUrl);
    let no_scheme = handshake(connect(uri(None, Some("example.org"), None)), KEY.to_string());
    assert_eq!(no_scheme.unwrap_err(), ClientError::InvalidUrl);
    let other = handshake(connect(uri(Some("ftp"), Some("example.org"), None)), KEY.to_string());
    assert_eq!(other.unwrap_err(), ClientError::InvalidUrl);
}

#[test]
fn errors_of_the_builder_come_first() {
    let mut req = connect(uri(None, None, None));
    req.err = Some(ClientError::Disconnected);
    req.http_err = Some("bad header".to_string());
    assert_eq!(handshake(req, KEY.to_string()).unwrap_err(), ClientError::Disconnected);
    let mut req = connect(uri(None, None, None));
    req.http_err = Some("bad header".to_string());
    assert_eq!(
        handshake(req, KEY.to_string()).unwrap_err(),
        ClientError::Http("bad header".to_string())
    );
}

#[test]
fn error_of_the_builder_comes_before_unfit_subprotocols() {
    let mut req = connect(uri(Some("ws"), Some("example.org"), None));
    req.err = Some(ClientError::Disconnected);
    req.protocols = Some("chat\r\n".to_string());
    assert_eq!(handshake(req, KEY.to_string()).unwrap_err(), ClientError::Disconnected);
    let mut req = connect(uri(Some("ws"), Some("example.org"), None));
    req.http_err = Some("bad header".to_string());
    req.protocols = Some("chat\r\n".to_string());
    assert!(has_error(&req));
    let mut client = Client::new(());
    assert_eq!(client.call(req).unwrap_err(), ClientError::Http("bad header".to_string()));
    assert!(!has_error(&connect(uri(Some("ws"), Some("example.org"), None))));
    assert!(has_error(&connect(uri(Some("ws"), None, None))));
    assert!(has_error(&connect(uri(Some("gopher"), Some("example.org"), None))));
}

#[test]
fn client_fills_the_handshake_from_the_request() {
    let mut client = Client::new(());
    let mut req = connect(uri(Some("wss"), Some("example.org"), None));
    req.max_size = 77;
    req.server_mode = true;
    let h = client.call(req).unwrap();
    assert!(h.upgrade);
    assert_eq!(h.host, "example.org");
    assert_eq!(h.port, 443);
    assert_eq!(h.fut.max_size, 77);
    assert!(h.fut.server_mode);
    assert_eq!(h.fut.key.len(), 24);
    let h = client.call(connect(uri(Some("ws"), Some("example.org"), Some(8080)))).unwrap();
    assert_eq!(h.port, 8080);
}

#[test]
fn client_draws_a_key_of_sixteen_bytes() {
    let mut client = Client::new(7u8);
    let a = client.call(connect(uri(Some("ws"), Some("example.org"), None))).unwrap();
    let b = client.call(connect(uri(Some("ws"), Some("example.org"), None))).unwrap();
    let key = base64::decode(&a.fut.key).unwrap();
    assert_eq!(key.len(), 16);
    assert_eq!(a.fut.key.len(), 24);
    assert_ne!(a.fut.key, b.fut.key);
    assert_eq!(
        a.headers.get(StandardHeader::SecWebsocketKey),
        Some(&a.fut.key.as_bytes().to_vec())
    );
    let copy = client.clone();
    assert_eq!(copy.into_connector(), 7u8);
    assert_eq!(client.into_connector(), 7u8);
    let bad = client_error();
    assert_eq!(bad, ClientError::InvalidUrl);
}

fn client_error() -> ClientError {
    let mut client = Client::new(());
    client.call(connect(uri(Some("ws"), None, None))).unwrap_err()
}

#[test]
fn answer_with_the_right_accept_value_opens_the_connection() {
    assert_eq!(
        fut().poll(Some(&good_answer())),
        Ok(Codec { max_size: 1024, server_mode: false })
    );
    let server = ClientResponseFut { key: KEY.to_string(), max_size: 9, server_mode: true };
    assert_eq!(server.poll(Some(&good_answer())), Ok(Codec { max_size: 9, server_mode: true }));
}

#[test]
fn answer_with_a_wrong_accept_value_is_refused() {
    let mut res = good_answer();
    res.headers.insert(StandardHeader::SecWebsocketAccept, KEY.as_bytes().to_vec());
    assert_eq!(
        fut().poll(Some(&res)),
        Err(ClientError::InvalidChallengeResponse(
            "s3pPLMBiTxaQ9kYGzzhZRbK+xOo=".to_string(),
            KEY.as_bytes().to_vec()
        ))
    );
    let other = ClientResponseFut { key: "x".to_string(), max_size: 1024, server_mode: false };
    assert!(matches!(
        other.poll(Some(&good_answer())),
        Err(ClientError::InvalidChallengeResponse(_, _))
    ));
}

#[test]
fn answers_are_checked_in_order() {
    assert_eq!(fut().poll(None), Err(ClientError::Disconnected));
    assert_eq!(
        fut().poll(Some(&answer(200, vec![]))),
        Err(ClientError::InvalidResponseStatus(200))
    );
    assert_eq!(fut().poll(Some(&answer(101, vec![]))), Err(ClientError::InvalidUpgradeHeader));
    assert_eq!(
        fut().poll(Some(&answer(101, vec![std_line(StandardHeader::Upgrade, b"h2c")]))),
        Err(ClientError::InvalidUpgradeHeader)
    );
    assert_eq!(
        fut().poll(Some(&answer(101, vec![std_line(StandardHeader::Upgrade, b"websocket\xff")]))),
        Err(ClientError::InvalidUpgradeHeader)
    );
    assert_eq!(
        fut().poll(Some(&answer(101, vec![std_line(StandardHeader::Upgrade, b"WebSocket")]))),
        Err(ClientError::MissingConnectionHeader)
    );
    assert_eq!(
        fut().poll(Some(&answer(
            101,
            vec![
                std_line(StandardHeader::Upgrade, b"websocket"),
                std_line(StandardHeader::Connection, b"close"),
            ]
        ))),
        Err(ClientError::InvalidConnectionHeader(b"close".to_vec()))
    );
    assert_eq!(
        fut().poll(Some(&answer(
            101,
            vec![
                std_line(StandardHeader::Upgrade, b"websocket"),
                std_line(StandardHeader::Connection, b"keep-alive, UPGRADE"),
            ]
        ))),
        Err(ClientError::MissingWebSocketAcceptHeader)
    );
}

#[test]
fn expected_value_is_compared_byte_for_byte() {
    assert_eq!(check_response(Some(&good_answer()), "s3pPLMBiTxaQ9kYGzzhZRbK+xOo=".to_string()), Ok(()));
    assert_eq!(
        check_response(Some(&good_answer()), "S3pPLMBiTxaQ9kYGzzhZRbK+xOo=".to_string()),
        Err(ClientError::InvalidChallengeResponse(
            "S3pPLMBiTxaQ9kYGzzhZRbK+xOo=".to_string(),
            ACCEPT.to_vec()
        ))
    );
    assert_eq!(check_response(None, String::new()), Err(ClientError::Disconnected));
}

#[test]
fn values_and_joined_bytes() {
    assert!(value_says(b"Upgrade", "upgrade"));
    assert!(!value_says(b"Upgrade\x01", "upgrade"));
    assert!(!value_says(b"close", "upgrade"));
    assert_eq!(joined(b"ab", b"cd"), b"abcd".to_vec());
    assert_eq!(joined(b"", b""), Vec::<u8>::new());
}
