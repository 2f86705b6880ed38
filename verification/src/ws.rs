//! The client side of the WebSocket opening handshake: the request that asks
//! for the upgrade, and the check of the server's answer.

use crate::header::{
    bytes_eq, contains_lowered, bytes_are_text, copy_bytes, first_value, is_text, is_value, line, lowered,
    occurs, str_bytes, without, HeaderMap, Line, Name, StandardHeader,
};
use crate::message::{ResponseHead, ResponseHeadView, SWITCHING_PROTOCOLS};
use vstd::prelude::*;
use vstd::string::StringSliceAdditionalSpecFns;
use vstd::utf8::encode_utf8;

verus! {

/// The text that the `base64` crate's `encode` gives for these bytes: the
/// standard alphabet, with padding.
pub uninterp spec fn base64_text(input: Seq<u8>) -> Seq<char>;

/// The twenty bytes of the SHA-1 digest of these bytes, as the `sha1` crate
/// computes it.
pub uninterp spec fn sha1_hash(data: Seq<u8>) -> Seq<u8>;

/// `base64::encode` of the `base64` crate: the result depends on the input
/// alone and is named, not described. Its length is the one that the crate
/// computes before it encodes: four characters for every three bytes begun,
/// since the standard form pads.
#[verifier::external_body]
pub(crate) fn base64_encode(input: &[u8]) -> (r: String)
    ensures
        r@ == base64_text(input@),
        r@.len() == 4 * ((input@.len() + 2) / 3),
{
    base64::encode(input)
}

/// `Sha1::from(..).digest().bytes()` of the `sha1` crate: the digest of the
/// data as one piece. The result depends on the input alone and is named,
/// not described.
#[verifier::external_body]
pub(crate) fn sha1_digest(data: &[u8]) -> (r: [u8; 20])
    ensures
        r@ == sha1_hash(data@),
{
    sha1::Sha1::from(data).digest().bytes()
}

/// `rand::random` of the `rand` crate for sixteen bytes. Nothing is known
/// of the bytes.
#[verifier::external_body]
pub(crate) fn random_key() -> [u8; 16] {
    rand::random()
}

/// The protocols that a WebSocket address may name.
#[derive(Clone, Copy, Debug, PartialEq, Eq, Structural)]
pub enum Protocol {
    Http,
    Https,
    Ws,
    Wss,
}

impl Protocol {
    /// The protocol that a scheme names, if it names one.
    pub open spec fn spec_from(scheme: Seq<u8>) -> Option<Protocol> {
        if scheme == "http".spec_bytes() {
            Some(Protocol::Http)
        } else if scheme == "https".spec_bytes() {
            Some(Protocol::Https)
        } else if scheme == "ws".spec_bytes() {
            Some(Protocol::Ws)
        } else if scheme == "wss".spec_bytes() {
            Some(Protocol::Wss)
        } else {
            None
        }
    }

    /// Reads the protocol from the scheme of an address.
    pub fn from(scheme: &str) -> (r: Option<Protocol>)
        ensures
            r == Protocol::spec_from(scheme.spec_bytes()),
    {
        let s = scheme.as_bytes();
        if bytes_eq(s, "http".as_bytes()) {
            Some(Protocol::Http)
        } else if bytes_eq(s, "https".as_bytes()) {
            Some(Protocol::Https)
        } else if bytes_eq(s, "ws".as_bytes()) {
            Some(Protocol::Ws)
        } else if bytes_eq(s, "wss".as_bytes()) {
            Some(Protocol::Wss)
        } else {
            None
        }
    }

    /// The port that the protocol uses where the address names none.
    pub open spec fn spec_port(self) -> u16 {
        match self {
            Protocol::Http => 80,
            Protocol::Ws => 80,
            Protocol::Https => 443,
            Protocol::Wss => 443,
        }
    }

    /// The port that the protocol uses where the address names none.
    #[verifier::when_used_as_spec(spec_port)]
    pub fn port(self) -> (r: u16)
        ensures
            r == self.spec_port(),
    {
        match self {
            Protocol::Http => 80,
            Protocol::Ws => 80,
            Protocol::Https => 443,
            Protocol::Wss => 443,
        }
    }
}

/// What can go wrong with a handshake.
#[derive(Debug, PartialEq, Eq)]
pub enum ClientError {
    /// The address names no host or no known protocol.
    InvalidUrl,
    /// The server has not switched protocols; its status is given.
    InvalidResponseStatus(u16),
    /// The answer does not upgrade to a WebSocket.
    InvalidUpgradeHeader,
    /// The answer's `Connection` header, given here, does not say `upgrade`.
    InvalidConnectionHeader(Vec<u8>),
    /// The answer has no `Connection` header.
    MissingConnectionHeader,
    /// The answer has no `Sec-WebSocket-Accept` header.
    MissingWebSocketAcceptHeader,
    /// The answer's accept value, given second, is not the expected one,
    /// given first.
    InvalidChallengeResponse(String, Vec<u8>),
    /// The request could not be built; the reason is given.
    Http(String),
    /// The server has gone away without an answer.
    Disconnected,
}

/// The model of a handshake error.
pub enum ClientErrorView {
    InvalidUrl,
    InvalidResponseStatus(u16),
    InvalidUpgradeHeader,
    InvalidConnectionHeader(Seq<u8>),
    MissingConnectionHeader,
    MissingWebSocketAcceptHeader,
    InvalidChallengeResponse(Seq<char>, Seq<u8>),
    Http(Seq<char>),
    Disconnected,
}

impl View for ClientError {
    type V = ClientErrorView;

    open spec fn view(&self) -> ClientErrorView {
        match self {
            ClientError::InvalidUrl => ClientErrorView::InvalidUrl,
            ClientError::InvalidResponseStatus(s) => ClientErrorView::InvalidResponseStatus(*s),
            ClientError::InvalidUpgradeHeader => ClientErrorView::InvalidUpgradeHeader,
            ClientError::InvalidConnectionHeader(v) => ClientErrorView::InvalidConnectionHeader(v@),
            ClientError::MissingConnectionHeader => ClientErrorView::MissingConnectionHeader,
            ClientError::MissingWebSocketAcceptHeader =>
                ClientErrorView::MissingWebSocketAcceptHeader,
            ClientError::InvalidChallengeResponse(e, v) =>
                ClientErrorView::InvalidChallengeResponse(e@, v@),
            ClientError::Http(t) => ClientErrorView::Http(t@),
            ClientError::Disconnected => ClientErrorView::Disconnected,
        }
    }
}

/// The parts of an address that the handshake reads.
#[derive(Debug)]
pub struct Uri {
    pub scheme: Option<String>,
    pub host: Option<String>,
    pub port: Option<u16>,
}

/// A request for a WebSocket connection, as its builder leaves it.
#[derive(Debug)]
pub struct Connect {
    /// The address of the server.
    pub uri: Uri,
    /// The headers set so far.
    pub headers: HeaderMap,
    /// The value of the `Origin` header, if one is wanted.
    pub origin: Option<Vec<u8>>,
    /// The subprotocols asked for, separated by commas.
    pub protocols: Option<String>,
    /// The largest frame that the connection accepts.
    pub max_size: usize,
    /// Whether frames are handled as a server handles them.
    pub server_mode: bool,
    /// An error that the builder has met.
    pub err: Option<ClientError>,
    /// The reason why the builder could not build the request, if it could
    /// not.
    pub http_err: Option<String>,
}

/// How the frames of an open connection are handled.
#[derive(Clone, Copy, Debug, PartialEq, Eq, Structural)]
pub struct Codec {
    /// The largest frame that is accepted.
    pub max_size: usize,
    /// Whether frames are handled as a server handles them.
    pub server_mode: bool,
}

/// The second half of a handshake: what is needed to check the server's
/// answer.
#[derive(Debug)]
pub struct ClientResponseFut {
    /// The key that was sent.
    pub key: String,
    /// The largest frame that the connection accepts.
    pub max_size: usize,
    /// Whether frames are handled as a server handles them.
    pub server_mode: bool,
}

/// A handshake that is ready to be sent.
#[derive(Debug)]
pub struct Handshake {
    /// The headers of the request.
    pub headers: HeaderMap,
    /// The request asks for the connection to be upgraded.
    pub upgrade: bool,
    /// The host to connect to.
    pub host: String,
    /// The port to connect to.
    pub port: u16,
    /// What checks the answer.
    pub fut: ClientResponseFut,
}

/// The lines with the standard header `name` set to the single value
/// `value`.
pub open spec fn with_header(lines: Seq<Line>, name: StandardHeader, value: Seq<u8>) -> Seq<Line> {
    without(lines, Name::Standard(name)).push(line(name, value))
}

/// The headers of a handshake request: the caller's, with the origin if one
/// is wanted, the upgrade to a WebSocket, the protocol version, the
/// subprotocols if any are asked for, and the key.
pub open spec fn handshake_lines(
    lines: Seq<Line>,
    origin: Option<Seq<u8>>,
    protocols: Option<Seq<u8>>,
    key: Seq<u8>,
) -> Seq<Line> {
    let a = match origin {
        Some(o) => with_header(lines, StandardHeader::Origin, o),
        None => lines,
    };
    let b = with_header(a, StandardHeader::Upgrade, "websocket".spec_bytes());
    let c = with_header(b, StandardHeader::SecWebsocketVersion, "13".spec_bytes());
    let d = match protocols {
        Some(p) => with_header(c, StandardHeader::SecWebsocketProtocol, p),
        None => c,
    };
    with_header(d, StandardHeader::SecWebsocketKey, key)
}

/// The protocol of an address, if its scheme names one.
pub open spec fn protocol_of(uri: Uri) -> Option<Protocol> {
    match uri.scheme {
        Some(s) => Protocol::spec_from(encode_utf8(s@)),
        None => None,
    }
}

/// Why no handshake can be made for a request, if none can: an error of the
/// builder comes first, then an address without a host or a known protocol.
pub open spec fn request_error(req: Connect) -> Option<ClientErrorView> {
    if req.err is Some {
        Some(req.err->0@)
    } else if req.http_err is Some {
        Some(ClientErrorView::Http(req.http_err->0@))
    } else if req.uri.host is None || protocol_of(req.uri) is None {
        Some(ClientErrorView::InvalidUrl)
    } else {
        None
    }
}

/// The bytes that are appended to the key before it is hashed.
pub open spec fn ws_guid() -> Seq<u8> {
    "258EAFA5-E914-47DA-95CA-C5AB0DC85B11".spec_bytes()
}

/// The accept value that answers a key: the digest of the key and the fixed
/// identifier, in base 64.
pub open spec fn accept_text(key: Seq<char>) -> Seq<char> {
    base64_text(sha1_hash(encode_utf8(key) + ws_guid()))
}

/// Whether a header value says `word`, in any case of letters; a value that
/// is no text says nothing.
pub open spec fn says(value: Seq<u8>, word: Seq<u8>) -> bool {
    is_text(value) && occurs(lowered(value), word)
}

/// Why a server's answer does not open the connection, if it does not.
/// `expected` is the accept value that answers the key.
pub open spec fn response_error(res: Option<ResponseHeadView>, expected: Seq<char>) -> Option<
    ClientErrorView,
> {
    match res {
        None => Some(ClientErrorView::Disconnected),
        Some(head) => {
            let upgrade = first_value(head.headers, Name::Standard(StandardHeader::Upgrade));
            let connection = first_value(head.headers, Name::Standard(StandardHeader::Connection));
            let accept = first_value(
                head.headers,
                Name::Standard(StandardHeader::SecWebsocketAccept),
            );
            if head.status != SWITCHING_PROTOCOLS {
                Some(ClientErrorView::InvalidResponseStatus(head.status))
            } else if !(upgrade is Some && says(upgrade->0, "websocket".spec_bytes())) {
                Some(ClientErrorView::InvalidUpgradeHeader)
            } else if connection is None {
                Some(ClientErrorView::MissingConnectionHeader)
            } else if !says(connection->0, "upgrade".spec_bytes()) {
                Some(ClientErrorView::InvalidConnectionHeader(connection->0))
            } else if accept is None {
                Some(ClientErrorView::MissingWebSocketAcceptHeader)
            } else if accept->0 != encode_utf8(expected) {
                Some(ClientErrorView::InvalidChallengeResponse(expected, accept->0))
            } else {
                None
            }
        },
    }
}

/// Joins two runs of bytes.
pub fn joined(a: &[u8], b: &[u8]) -> (r: Vec<u8>)
    ensures
        r@ == a@ + b@,
{
    let mut out = copy_bytes(a);
    let mut i: usize = 0;
    while i < b.len()
        invariant
            i <= b.len(),
            out@ == a@ + b@.take(i as int),
        decreases b.len() - i,
    {
        out.push(b[i]);
        proof {
            assert(a@ + b@.take(i + 1) =~= (a@ + b@.take(i as int)).push(b@[i as int]));
        }
        i = i + 1;
    }
    proof {
        assert(b@.take(i as int) =~= b@);
    }
    out
}

/// Tells whether a header value says `word`, in any case of letters.
pub fn value_says(value: &[u8], word: &str) -> (r: bool)
    ensures
        r == says(value@, word.spec_bytes()),
{
    bytes_are_text(value) && contains_lowered(value, word.as_bytes())
}

/// Whether the subprotocols of a request can be sent: they must be fit for
/// a header value. Nothing is asked of a request that carries an error of
/// its builder, since its subprotocols are never looked at.
pub open spec fn protocols_fit(req: Connect) -> bool {
    req.err is None && req.http_err is None ==> (req.protocols matches Some(p) ==> is_value(
        encode_utf8(p@),
    ))
}

/// Whether `h` is the handshake for the request `req` with the key `key`:
/// the headers are those of `handshake_lines`, the request asks for the
/// upgrade, the connection goes to the host of the address and to its port
/// or else to the port of its protocol, and the answer will be checked
/// against the key, with the frame size and the mode of the request.
pub open spec fn handshake_made(req: Connect, key: Seq<char>, h: Handshake) -> bool {
    &&& h.headers@ == handshake_lines(
        req.headers@,
        match req.origin {
            Some(o) => Some(o@),
            None => None,
        },
        match req.protocols {
            Some(p) => Some(encode_utf8(p@)),
            None => None,
        },
        encode_utf8(key),
    )
    &&& h.upgrade
    &&& h.host == req.uri.host->0
    &&& h.port == match req.uri.port {
        Some(p) => p,
        None => protocol_of(req.uri)->0.spec_port(),
    }
    &&& h.fut.key@ == key
    &&& h.fut.max_size == req.max_size
    &&& h.fut.server_mode == req.server_mode
}

/// Tells whether no handshake can be made for a request.
pub fn has_error(req: &Connect) -> (r: bool)
    ensures
        r == request_error(*req) is Some,
{
    if req.err.is_some() || req.http_err.is_some() || req.uri.host.is_none() {
        return true;
    }
    match &req.uri.scheme {
        Some(s) => Protocol::from(s.as_str()).is_none(),
        None => true,
    }
}

/// Makes the handshake for a request, with `key` as the key that is sent.
///
/// The subprotocols, if any are asked for, must be fit for a header value,
/// unless the request carries an error of its builder. It fails exactly
/// where `request_error` names an error, with that error. Where it succeeds,
/// the result is the handshake that `handshake_made` describes.
pub fn handshake(req: Connect, key: String) -> (r: Result<Handshake, ClientError>)
    requires
        protocols_fit(req),
    ensures
        r matches Err(e) ==> request_error(req) == Some(e@),
        r matches Ok(h) ==> request_error(req) is None && handshake_made(req, key@, h),
{
    let Connect { uri, headers, origin, protocols, max_size, server_mode, err, http_err } = req;
    match err {
        Some(e) => {
            return Err(e);
        },
        None => {},
    }
    match http_err {
        Some(t) => {
            return Err(ClientError::Http(t));
        },
        None => {},
    }
    let mut headers = headers;
    match origin {
        Some(o) => {
            headers.insert(StandardHeader::Origin, o);
        },
        None => {},
    }
    headers.insert(StandardHeader::Upgrade, str_bytes("websocket"));
    headers.insert(StandardHeader::SecWebsocketVersion, str_bytes("13"));
    match protocols {
        Some(p) => {
            headers.insert(StandardHeader::SecWebsocketProtocol, str_bytes(p.as_str()));
        },
        None => {},
    }
    let Uri { scheme, host, port } = uri;
    let host = match host {
        Some(h) => h,
        None => {
            return Err(ClientError::InvalidUrl);
        },
    };
    let proto = match scheme {
        Some(s) => match Protocol::from(s.as_str()) {
            Some(p) => p,
            None => {
                return Err(ClientError::InvalidUrl);
            },
        },
        None => {
            return Err(ClientError::InvalidUrl);
        },
    };
    headers.insert(StandardHeader::SecWebsocketKey, str_bytes(key.as_str()));
    let port = match port {
        Some(p) => p,
        None => proto.port(),
    };
    Ok(
        Handshake {
            headers,
            upgrade: true,
            host,
            port,
            fut: ClientResponseFut { key, max_size, server_mode },
        },
    )
}

/// Checks a server's answer against the accept value that is expected.
///
/// It fails exactly where `response_error` names an error, with that error.
pub fn check_response(res: Option<&ResponseHead>, expected: String) -> (r: Result<
    (),
    ClientError,
>)
    ensures
        r matches Err(e) ==> response_error(
            match res {
                Some(h) => Some(h@),
                None => None,
            },
            expected@,
        ) == Some(e@),
        r is Ok ==> response_error(
            match res {
                Some(h) => Some(h@),
                None => None,
            },
            expected@,
        ) is None,
{
    let res = match res {
        Some(res) => res,
        None => {
            return Err(ClientError::Disconnected);
        },
    };
    if res.status != SWITCHING_PROTOCOLS {
        return Err(ClientError::InvalidResponseStatus(res.status));
    }
    let has_hdr = match res.headers.get(StandardHeader::Upgrade) {
        Some(hdr) => value_says(hdr.as_slice(), "websocket"),
        None => false,
    };
    if !has_hdr {
        return Err(ClientError::InvalidUpgradeHeader);
    }
    match res.headers.get(StandardHeader::Connection) {
        Some(conn) => {
            if !value_says(conn.as_slice(), "upgrade") {
                return Err(ClientError::InvalidConnectionHeader(copy_bytes(conn.as_slice())));
            }
        },
        None => {
            return Err(ClientError::MissingConnectionHeader);
        },
    }
    match res.headers.get(StandardHeader::SecWebsocketAccept) {
        Some(key) => {
            if !bytes_eq(key.as_slice(), expected.as_str().as_bytes()) {
                let given = copy_bytes(key.as_slice());
                return Err(ClientError::InvalidChallengeResponse(expected, given));
            }
        },
        None => {
            return Err(ClientError::MissingWebSocketAcceptHeader);
        },
    }
    Ok(())
}

impl ClientResponseFut {
    /// Ends the handshake with the server's answer, or with `None` where
    /// the server has gone away: the answer is checked against the accept
    /// value that answers the key, and the frames are then handled as the
    /// request asked.
    pub fn poll(&self, item: Option<&ResponseHead>) -> (r: Result<Codec, ClientError>)
        ensures
            r matches Err(e) ==> response_error(
                match item {
                    Some(h) => Some(h@),
                    None => None,
                },
                accept_text(self.key@),
            ) == Some(e@),
            r matches Ok(c) ==> response_error(
                match item {
                    Some(h) => Some(h@),
                    None => None,
                },
                accept_text(self.key@),
            ) is None && c == (Codec { max_size: self.max_size, server_mode: self.server_mode }),
    {
        let input = joined(self.key.as_str().as_bytes(), "258EAFA5-E914-47DA-95CA-C5AB0DC85B11".as_bytes());
        let digest = sha1_digest(input.as_slice());
        let encoded = base64_encode(digest.as_slice());
        match check_response(item, encoded) {
            Ok(()) => Ok(Codec { max_size: self.max_size, server_mode: self.server_mode }),
            Err(e) => Err(e),
        }
    }
}

/// A WebSocket client: it makes handshakes and leaves the connecting to its
/// connector.
#[derive(Clone, Debug)]
pub struct Client<T> {
    connector: T,
}

impl<T> Client<T> {
    /// Makes a client that connects through `connector`.
    pub fn new(connector: T) -> (r: Client<T>)
        ensures
            r.connector() == connector,
    {
        Client { connector }
    }

    /// The connector of the client.
    pub closed spec fn connector(self) -> T {
        self.connector
    }

    /// Gives the connector back.
    pub fn into_connector(self) -> (c: T)
        ensures
            c == self.connector(),
    {
        self.connector
    }

    /// Makes the handshake for a request with a key drawn at random.
    ///
    /// It fails exactly where `request_error` names an error, with that
    /// error, and draws no key then. Where it succeeds, the result is the
    /// handshake that `handshake_made` describes for the request and the
    /// base-64 text of some sixteen bytes, which has twenty-four characters.
    pub fn call(&mut self, req: Connect) -> (r: Result<Handshake, ClientError>)
        requires
            protocols_fit(req),
        ensures
            final(self).connector() == old(self).connector(),
            r matches Err(e) ==> request_error(req) == Some(e@),
            r matches Ok(h) ==> request_error(req) is None && h.fut.key@.len() == 24 && exists|
                sec_key: Seq<u8>,
            |
                sec_key.len() == 16 && handshake_made(req, #[trigger] base64_text(sec_key), h),
    {
        if has_error(&req) {
            return handshake(req, String::new());
        }
        let sec_key = random_key();
        let key = base64_encode(sec_key.as_slice());
        let r = handshake(req, key);
        proof {
            assert(handshake_made(req, base64_text(sec_key@), r->Ok_0));
        }
        r
    }
}

} // verus!
