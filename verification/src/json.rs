//! JSON payloads: which requests carry one, how much of it is read, and the
//! response that carries one.

use crate::body::{BinaryBody, Body};
use crate::buf::{bytes_mut_seq, bytes_seq};
use crate::header::{
    bytes_are_text, bytes_eq, is_text, line, str_bytes, HeaderName, Line, StandardHeader,
};
use crate::message::{ResponseHead, ResponseHeadView, OK};
use vstd::prelude::*;
use vstd::string::StringSliceAdditionalSpecFns;
use vstd::utf8::encode_utf8;

verus! {

/// The most bytes of a payload that are read unless configured otherwise.
pub const DEFAULT_LIMIT: usize = 32_768;

/// The most bytes of a payload that are read where nothing is configured
/// at all.
pub const HARD_LIMIT: usize = 262_144;

/// The parts of a media type that the check of a payload reads, in lower
/// case.
#[derive(Debug, PartialEq, Eq)]
pub struct MimeParts {
    /// The type, as in `application`.
    pub type_: String,
    /// The subtype, as in `json`.
    pub subtype: String,
    /// The suffix behind a `+`, if there is one.
    pub suffix: Option<String>,
    /// The whole media type with its parameters, as the parser keeps it.
    pub source: String,
}

/// The model of the parts of a media type.
pub struct MimePartsView {
    pub type_: Seq<char>,
    pub subtype: Seq<char>,
    pub suffix: Option<Seq<char>>,
    pub source: Seq<char>,
}

impl View for MimeParts {
    type V = MimePartsView;

    open spec fn view(&self) -> MimePartsView {
        MimePartsView {
            type_: self.type_@,
            subtype: self.subtype@,
            suffix: match self.suffix {
                Some(s) => Some(s@),
                None => None,
            },
            source: self.source@,
        }
    }
}

/// The parts that the `mime` crate reads from a text, if it takes the text
/// for a media type.
pub uninterp spec fn mime_parts(text: Seq<char>) -> Option<MimePartsView>;

/// The `mime` crate's parser, `str::parse::<mime::Mime>`, and its accessors
/// `type_`, `subtype`, `suffix` and `as_ref`: the result depends on the text
/// alone and is named, not described.
#[verifier::external_body]
pub(crate) fn parse_mime(text: &str) -> (r: Option<MimeParts>)
    ensures
        r matches Some(m) ==> mime_parts(text@) == Some(m@),
        r is None ==> mime_parts(text@) is None,
{
    match text.parse::<mime::Mime>() {
        Ok(m) => Some(
            MimeParts {
                type_: m.type_().as_str().to_string(),
                subtype: m.subtype().as_str().to_string(),
                suffix: m.suffix().map(|n| n.as_str().to_string()),
                source: m.as_ref().to_string(),
            },
        ),
        Err(_) => None,
    }
}

/// Whether a media type stands for JSON: its subtype or its suffix is
/// `json`.
pub open spec fn spec_is_json(m: MimePartsView) -> bool {
    encode_utf8(m.subtype) == "json".spec_bytes() || (m.suffix is Some && encode_utf8(m.suffix->0)
        == "json".spec_bytes())
}

/// Tells whether a media type stands for JSON.
pub fn is_json(m: &MimeParts) -> (r: bool)
    ensures
        r == spec_is_json(m@),
{
    if bytes_eq(m.subtype.as_str().as_bytes(), "json".as_bytes()) {
        return true;
    }
    match &m.suffix {
        Some(s) => bytes_eq(s.as_str().as_bytes(), "json".as_bytes()),
        None => false,
    }
}

/// Whether a byte is a decimal digit.
pub open spec fn is_digit(b: u8) -> bool {
    48 <= b <= 57
}

/// The number that a run of decimal digits writes.
pub open spec fn number(s: Seq<u8>) -> nat
    decreases s.len(),
{
    if s.len() == 0 {
        0
    } else {
        number(s.drop_last()) * 10 + (s.last() - 48) as nat
    }
}

/// The digits of a number text: the text without a plus sign at its front.
pub open spec fn unsigned_part(s: Seq<u8>) -> Seq<u8> {
    if s.len() > 0 && s[0] == 43 {
        s.skip(1)
    } else {
        s
    }
}

/// The length that a text announces: the text is a plus sign at most, then
/// at least one digit and nothing but digits, and the number fits the
/// machine.
pub open spec fn announced_length(s: Seq<u8>) -> Option<usize> {
    let d = unsigned_part(s);
    if d.len() > 0 && (forall|i: int| 0 <= i < d.len() ==> is_digit(#[trigger] d[i])) && number(d)
        <= usize::MAX {
        Some(number(d) as usize)
    } else {
        None
    }
}

/// The number of a longer run of digits is no smaller.
pub proof fn lemma_number_grows(s: Seq<u8>, n: int)
    requires
        0 <= n <= s.len(),
        forall|i: int| 0 <= i < s.len() ==> is_digit(#[trigger] s[i]),
    ensures
        number(s.take(n)) <= number(s),
    decreases s.len() - n,
{
    if n < s.len() {
        assert(s.take(n + 1).drop_last() =~= s.take(n));
        assert(s.take(n + 1).last() == s[n]);
        lemma_number_grows(s, n + 1);
    } else {
        assert(s.take(n) =~= s);
    }
}

/// Reads the length that a text announces.
pub fn parse_length(text: &[u8]) -> (r: Option<usize>)
    ensures
        r == announced_length(text@),
{
    let start: usize = if text.len() > 0 && text[0] == 43 {
        1
    } else {
        0
    };
    let ghost d = unsigned_part(text@);
    if start == text.len() {
        return None;
    }
    let mut acc: usize = 0;
    let mut i: usize = start;
    proof {
        assert(d.take(0) =~= Seq::<u8>::empty());
    }
    while i < text.len()
        invariant
            start <= i <= text.len(),
            d == unsigned_part(text@),
            d.len() == text.len() - start,
            forall|k: int| 0 <= k < d.len() ==> d[k] == text@[k + start],
            forall|k: int| 0 <= k < i - start ==> is_digit(#[trigger] d[k]),
            acc == number(d.take(i - start)),
        decreases text.len() - i,
    {
        let b = text[i];
        if b < 48 || b > 57 {
            proof {
                assert(!is_digit(d[i - start]));
            }
            return None;
        }
        let v: usize = (b - 48) as usize;
        proof {
            assert(d.take(i - start + 1).drop_last() =~= d.take(i - start));
            assert(d.take(i - start + 1).last() == b);
        }
        if acc > (usize::MAX - v) / 10 {
            proof {
                assert(number(d.take(i - start + 1)) > usize::MAX);
                if forall|k: int| 0 <= k < d.len() ==> is_digit(#[trigger] d[k]) {
                    lemma_number_grows(d, i - start + 1);
                }
            }
            return None;
        }
        acc = acc * 10 + v;
        i = i + 1;
    }
    proof {
        assert(d.take(i - start) =~= d);
    }
    Some(acc)
}

/// What can go wrong with a JSON payload.
#[derive(Debug, PartialEq, Eq)]
pub enum JsonPayloadError {
    /// The payload is larger than allowed.
    Overflow,
    /// The content type does not stand for JSON.
    ContentType,
    /// The payload is no JSON of the expected form; the reason is given.
    Deserialize(String),
    /// The payload could not be read; the reason is given.
    Payload(String),
}

/// The model of a payload error.
pub enum JsonPayloadErrorView {
    Overflow,
    ContentType,
    Deserialize(Seq<char>),
    Payload(Seq<char>),
}

impl View for JsonPayloadError {
    type V = JsonPayloadErrorView;

    open spec fn view(&self) -> JsonPayloadErrorView {
        match self {
            JsonPayloadError::Overflow => JsonPayloadErrorView::Overflow,
            JsonPayloadError::ContentType => JsonPayloadErrorView::ContentType,
            JsonPayloadError::Deserialize(t) => JsonPayloadErrorView::Deserialize(t@),
            JsonPayloadError::Payload(t) => JsonPayloadErrorView::Payload(t@),
        }
    }
}

impl JsonPayloadError {
    /// The text that describes the error.
    pub open spec fn text(self) -> Seq<char> {
        match self {
            JsonPayloadError::Overflow => "Json payload size is bigger than allowed"@,
            JsonPayloadError::ContentType => "Content type error"@,
            JsonPayloadError::Deserialize(t) => "Json deserialize error: "@ + t@,
            JsonPayloadError::Payload(t) => "Error that occur during reading payload: "@ + t@,
        }
    }

    /// Describes the error in words.
    pub fn to_string(&self) -> (r: String)
        ensures
            r@ == self.text(),
    {
        match self {
            JsonPayloadError::Overflow => "Json payload size is bigger than allowed".to_owned(),
            JsonPayloadError::ContentType => "Content type error".to_owned(),
            JsonPayloadError::Deserialize(t) => {
                let mut s = "Json deserialize error: ".to_owned();
                s.append(t.as_str());
                s
            },
            JsonPayloadError::Payload(t) => {
                let mut s = "Error that occur during reading payload: ".to_owned();
                s.append(t.as_str());
                s
            },
        }
    }
}

/// The configuration of the reading of JSON payloads: the most bytes that
/// are read, what turns a payload error into the error that the application
/// sees, and which content types are accepted besides JSON.
pub struct JsonConfig<H, P> {
    limit: usize,
    err_handler: Option<H>,
    content_type: Option<P>,
}

impl<H, P> JsonConfig<H, P> {
    /// The most bytes of a payload that are read.
    pub closed spec fn spec_limit(self) -> usize {
        self.limit
    }

    /// The handler of errors, if one is set.
    pub closed spec fn spec_err_handler(self) -> Option<H> {
        self.err_handler
    }

    /// The predicate for content types, if one is set.
    pub closed spec fn spec_content_type(self) -> Option<P> {
        self.content_type
    }

    /// Sets the most bytes of a payload that are read.
    pub fn limit(self, limit: usize) -> (r: JsonConfig<H, P>)
        ensures
            r.spec_limit() == limit,
            r.spec_err_handler() == self.spec_err_handler(),
            r.spec_content_type() == self.spec_content_type(),
    {
        JsonConfig { limit, err_handler: self.err_handler, content_type: self.content_type }
    }

    /// Sets what turns a payload error into the error that the application
    /// sees; it will be given the error and the request.
    pub fn error_handler<F>(self, f: F) -> (r: JsonConfig<F, P>)
        ensures
            r.spec_limit() == self.spec_limit(),
            r.spec_err_handler() == Some(f),
            r.spec_content_type() == self.spec_content_type(),
    {
        JsonConfig { limit: self.limit, err_handler: Some(f), content_type: self.content_type }
    }

    /// Sets the predicate for content types that are accepted besides JSON.
    pub fn content_type<F>(self, predicate: F) -> (r: JsonConfig<H, F>)
        ensures
            r.spec_limit() == self.spec_limit(),
            r.spec_err_handler() == self.spec_err_handler(),
            r.spec_content_type() == Some(predicate),
    {
        JsonConfig { limit: self.limit, err_handler: self.err_handler, content_type: Some(predicate) }
    }

    /// Picks the configuration for a request: the one that is attached to
    /// the request itself, else the one that is shared through it, else the
    /// default.
    pub fn from_req<'a>(
        direct: Option<&'a JsonConfig<H, P>>,
        shared: Option<&'a JsonConfig<H, P>>,
        default: &'a JsonConfig<H, P>,
    ) -> (r: &'a JsonConfig<H, P>)
        ensures
            r == match direct {
                Some(c) => c,
                None => match shared {
                    Some(c) => c,
                    None => default,
                },
            },
    {
        match direct {
            Some(c) => c,
            None => match shared {
                Some(c) => c,
                None => default,
            },
        }
    }

    /// The most bytes of a payload that are read.
    pub fn get_limit(&self) -> (r: usize)
        ensures
            r == self.spec_limit(),
    {
        self.limit
    }

    /// The handler of errors, if one is set.
    pub fn get_err_handler(&self) -> (r: Option<&H>)
        ensures
            r is Some <==> self.spec_err_handler() is Some,
            r matches Some(h) ==> *h == self.spec_err_handler()->0,
    {
        match &self.err_handler {
            Some(h) => Some(h),
            None => None,
        }
    }

    /// The predicate for content types, if one is set.
    pub fn get_content_type(&self) -> (r: Option<&P>)
        ensures
            r is Some <==> self.spec_content_type() is Some,
            r matches Some(p) ==> *p == self.spec_content_type()->0,
    {
        match &self.content_type {
            Some(p) => Some(p),
            None => None,
        }
    }
}

impl<H, P> Default for JsonConfig<H, P> {
    /// The configuration that reads thirty-two kibibytes at most, with no
    /// handler of errors and no predicate for content types.
    fn default() -> (r: JsonConfig<H, P>)
        ensures
            r.spec_limit() == DEFAULT_LIMIT,
            r.spec_err_handler() is None,
            r.spec_content_type() is None,
    {
        JsonConfig { limit: DEFAULT_LIMIT, err_handler: None, content_type: None }
    }
}

/// What the payload of a request has delivered.
#[derive(Debug)]
pub enum PayloadEvent {
    /// The body is polled for the first time or after a wake-up.
    Wake,
    /// The payload has produced this chunk.
    Chunk(bytes::Bytes),
    /// The payload has ended.
    End,
    /// The payload has failed; the reason is given.
    Failed(String),
    /// The payload has nothing yet.
    Pending,
}

/// The model of a report of the payload.
pub enum PayloadEventView {
    Wake,
    Chunk(Seq<u8>),
    End,
    Failed(Seq<char>),
    Pending,
}

impl View for PayloadEvent {
    type V = PayloadEventView;

    open spec fn view(&self) -> PayloadEventView {
        match self {
            PayloadEvent::Wake => PayloadEventView::Wake,
            PayloadEvent::Chunk(b) => PayloadEventView::Chunk(bytes_seq(*b)),
            PayloadEvent::End => PayloadEventView::End,
            PayloadEvent::Failed(t) => PayloadEventView::Failed(t@),
            PayloadEvent::Pending => PayloadEventView::Pending,
        }
    }
}

/// What a poll of a JSON body yields.
#[derive(Debug, PartialEq, Eq)]
pub enum JsonPoll {
    /// Poll the payload and report what it delivers.
    More,
    /// Nothing can be done now: wait to be woken, then report `Wake`.
    Pending,
    /// The payload is complete; these are its bytes.
    Ready(bytes::Bytes),
    /// The payload is refused.
    Failed(JsonPayloadError),
}

/// The model of what a poll yields.
pub enum JsonPollView {
    More,
    Pending,
    Ready(Seq<u8>),
    Failed(JsonPayloadErrorView),
}

impl View for JsonPoll {
    type V = JsonPollView;

    open spec fn view(&self) -> JsonPollView {
        match self {
            JsonPoll::More => JsonPollView::More,
            JsonPoll::Pending => JsonPollView::Pending,
            JsonPoll::Ready(b) => JsonPollView::Ready(bytes_seq(*b)),
            JsonPoll::Failed(e) => JsonPollView::Failed(e@),
        }
    }
}

/// The reading of the JSON payload of one request.
#[derive(Debug)]
pub enum JsonBody {
    /// The payload is refused; the error is held until it is reported.
    Error(Option<JsonPayloadError>),
    /// The payload is read.
    Body {
        /// The most bytes that are read.
        limit: usize,
        /// The length that the request announces, if it announces one.
        length: Option<usize>,
        /// The bytes read so far.
        buf: bytes::BytesMut,
    },
}

/// The model of the reading of a payload.
pub enum JsonBodyView {
    Error(Option<JsonPayloadErrorView>),
    Body { limit: usize, length: Option<usize>, buf: Seq<u8> },
}

impl View for JsonBody {
    type V = JsonBodyView;

    open spec fn view(&self) -> JsonBodyView {
        match self {
            JsonBody::Error(e) => JsonBodyView::Error(
                match e {
                    Some(e) => Some(e@),
                    None => None,
                },
            ),
            JsonBody::Body { limit, length, buf } => JsonBodyView::Body {
                limit: *limit,
                length: *length,
                buf: bytes_mut_seq(*buf),
            },
        }
    }
}

/// Whether a predicate can give this verdict on a media type.
pub open spec fn predicate_says<P: Fn(&MimeParts) -> bool>(
    predicate: P,
    mime: MimePartsView,
    verdict: bool,
) -> bool {
    exists|parts: MimeParts| parts@ == mime && #[trigger] call_ensures(predicate, (&parts,), verdict)
}

/// Whether `json` can be the verdict on a request with this content type:
/// the content type must name a media type; one that stands for JSON is
/// taken; any other is for the predicate to decide, and is refused without
/// one.
pub open spec fn admitted<P: Fn(&MimeParts) -> bool>(
    content_type: Option<Seq<u8>>,
    ctype: Option<P>,
    json: bool,
) -> bool {
    match content_mime_of(content_type) {
        None => !json,
        Some(mime) => if spec_is_json(mime) {
            json
        } else {
            match ctype {
                None => !json,
                Some(predicate) => predicate_says(predicate, mime, json),
            }
        },
    }
}

/// The media type that a `Content-Type` header names: the value must be
/// text, and the parser must take the text for a media type.
pub open spec fn content_mime_of(content_type: Option<Seq<u8>>) -> Option<MimePartsView> {
    match content_type {
        Some(value) => if is_text(value) {
            mime_parts(chars_of(value))
        } else {
            None
        },
        None => None,
    }
}

/// The characters that bytes write when each is taken for a character.
pub open spec fn chars_of(bytes: Seq<u8>) -> Seq<char> {
    Seq::new(bytes.len(), |i: int| bytes[i] as char)
}

/// The length that a request announces: the `Content-Length`, where it is
/// text and writes a number.
pub open spec fn request_length(content_length: Option<Seq<u8>>) -> Option<usize> {
    match content_length {
        Some(value) => if is_text(value) {
            announced_length(value)
        } else {
            None
        },
        None => None,
    }
}

impl JsonBodyView {
    /// The reading of the payload of a request that carries JSON, or does
    /// not: the first is read up to 262,144 bytes, the second is refused
    /// with a content-type error.
    pub open spec fn init(json: bool, content_length: Option<Seq<u8>>) -> JsonBodyView {
        if json {
            JsonBodyView::Body {
                limit: HARD_LIMIT,
                length: request_length(content_length),
                buf: Seq::empty(),
            }
        } else {
            JsonBodyView::Error(Some(JsonPayloadErrorView::ContentType))
        }
    }

    /// The reading with another limit: a payload that announces more than
    /// the limit is refused at once, and an error stays.
    pub open spec fn with_limit(self, limit: usize) -> JsonBodyView {
        match self {
            JsonBodyView::Body { limit: _, length, buf } => if length is Some && length->0
                > limit {
                JsonBodyView::Error(Some(JsonPayloadErrorView::Overflow))
            } else {
                JsonBodyView::Body { limit, length, buf }
            },
            JsonBodyView::Error(e) => JsonBodyView::Error(e),
        }
    }

    /// The reading after a report of the payload, and what the poll yields.
    /// An error is reported, once, whatever the payload delivers. A chunk
    /// joins the bytes read unless they would exceed the limit.
    pub open spec fn step(self, event: PayloadEventView) -> (JsonBodyView, JsonPollView) {
        match self {
            JsonBodyView::Error(e) => (JsonBodyView::Error(None), JsonPollView::Failed(e->0)),
            JsonBodyView::Body { limit, length, buf } => match event {
                PayloadEventView::Wake => (self, JsonPollView::More),
                PayloadEventView::Pending => (self, JsonPollView::Pending),
                PayloadEventView::Chunk(chunk) => if buf.len() + chunk.len() > limit {
                    (self, JsonPollView::Failed(JsonPayloadErrorView::Overflow))
                } else {
                    (JsonBodyView::Body { limit, length, buf: buf + chunk }, JsonPollView::More)
                },
                PayloadEventView::End => (
                    JsonBodyView::Body { limit, length, buf: Seq::empty() },
                    JsonPollView::Ready(buf),
                ),
                PayloadEventView::Failed(t) => (
                    self,
                    JsonPollView::Failed(JsonPayloadErrorView::Payload(t)),
                ),
            },
        }
    }
}

/// Reads the media type from the value of a `Content-Type` header.
pub fn content_mime(content_type: Option<&[u8]>) -> (r: Option<MimeParts>)
    ensures
        r matches Some(m) ==> content_mime_of(
            match content_type {
                Some(v) => Some(v@),
                None => None,
            },
        ) == Some(m@),
        r is None ==> content_mime_of(
            match content_type {
                Some(v) => Some(v@),
                None => None,
            },
        ) is None,
{
    match content_type {
        Some(value) => {
            if !bytes_are_text(value) {
                return None;
            }
            let text = text_of(value);
            parse_mime(text.as_str())
        },
        None => None,
    }
}

/// The text that bytes write when each byte is taken for a character.
pub fn text_of(bytes: &[u8]) -> (r: String)
    ensures
        r@ == chars_of(bytes@),
{
    let mut out = String::new();
    let mut i: usize = 0;
    while i < bytes.len()
        invariant
            i <= bytes.len(),
            out@ == chars_of(bytes@.take(i as int)),
        decreases bytes.len() - i,
    {
        let b = bytes[i];
        push_byte(&mut out, b);
        proof {
            assert(chars_of(bytes@.take(i + 1)) =~= chars_of(bytes@.take(i as int)).push(
                b as char,
            ));
        }
        i = i + 1;
    }
    proof {
        assert(bytes@.take(i as int) =~= bytes@);
    }
    out
}

/// `String::push` of the standard library, for a byte taken as a character:
/// the character is appended.
#[verifier::external_body]
fn push_byte(s: &mut String, b: u8)
    ensures
        final(s)@ == old(s)@.push(b as char),
{
    s.push(b as char)
}

/// The view of an optional run of bytes.
pub open spec fn bytes_view(bytes: Option<&[u8]>) -> Option<Seq<u8>> {
    match bytes {
        Some(v) => Some(v@),
        None => None,
    }
}

/// Decides whether a media type is taken for JSON: it is if it stands for
/// JSON, and else if there is a predicate and the predicate says so.
pub fn accepts<P>(mime: &MimeParts, ctype: Option<P>) -> (r: bool) where P: Fn(&MimeParts) -> bool
    requires
        ctype matches Some(p) ==> call_requires(p, (mime,)),
    ensures
        spec_is_json(mime@) ==> r,
        !spec_is_json(mime@) ==> match ctype {
            Some(p) => call_ensures(p, (mime,), r),
            None => !r,
        },
{
    if is_json(mime) {
        return true;
    }
    match ctype {
        Some(predicate) => predicate(mime),
        None => false,
    }
}

impl JsonBody {
    /// Begins the reading of a payload once it is decided whether the
    /// request carries JSON. `content_length` is the value of that header,
    /// where the request has it.
    pub fn with_verdict(json: bool, content_length: Option<&[u8]>) -> (r: JsonBody)
        ensures
            r@ == JsonBodyView::init(json, bytes_view(content_length)),
    {
        if !json {
            return JsonBody::Error(Some(JsonPayloadError::ContentType));
        }
        let length = match content_length {
            Some(v) => if bytes_are_text(v) {
                parse_length(v)
            } else {
                None
            },
            None => None,
        };
        JsonBody::Body { limit: HARD_LIMIT, length, buf: bytes::BytesMut::with_capacity(8192) }
    }

    /// Begins the reading of the payload of a request. `content_type` and
    /// `content_length` are the values of these headers, where the request
    /// has them, and `ctype` is the predicate for content types that are
    /// accepted besides JSON, if there is one.
    ///
    /// A request that does not carry JSON is refused with a content-type
    /// error. For the others up to 262,144 bytes are read, unless another
    /// limit is set.
    pub fn new<P>(content_type: Option<&[u8]>, content_length: Option<&[u8]>, ctype: Option<P>) -> (r:
        JsonBody) where P: Fn(&MimeParts) -> bool
        requires
            ctype matches Some(p) ==> forall|m: &MimeParts| #[trigger] call_requires(p, (m,)),
        ensures
            admitted(bytes_view(content_type), ctype, r@ is Body),
            r@ == JsonBodyView::init(r@ is Body, bytes_view(content_length)),
    {
        let json = match content_mime(content_type) {
            Some(m) => accepts(&m, ctype),
            None => false,
        };
        JsonBody::with_verdict(json, content_length)
    }

    /// Sets the most bytes that are read. A payload that announces more is
    /// refused at once with an overflow error; an earlier error stays.
    pub fn limit(self, limit: usize) -> (r: JsonBody)
        ensures
            r@ == self@.with_limit(limit),
    {
        match self {
            JsonBody::Body { limit: _, length, buf } => {
                match length {
                    Some(len) => {
                        if len > limit {
                            return JsonBody::Error(Some(JsonPayloadError::Overflow));
                        }
                    },
                    None => {},
                }
                JsonBody::Body { limit, length, buf }
            },
            JsonBody::Error(e) => JsonBody::Error(e),
        }
    }

    /// Begins the extraction of a JSON value from the request `req` under a
    /// configuration: the payload is read as `new` says, with the
    /// configured predicate and the configured limit, and errors go through
    /// the configured handler together with the request.
    pub fn from_request<'a, H, P, R>(
        config: &'a JsonConfig<H, P>,
        req: R,
        content_type: Option<&[u8]>,
        content_length: Option<&[u8]>,
    ) -> (r: JsonExtractFut<&'a H, R>) where P: Fn(&MimeParts) -> bool
        requires
            config.spec_content_type() matches Some(p) ==> forall|m: &MimeParts| #[trigger]
                call_requires(p, (m,)),
        ensures
            exists|json: bool|
                admitted(bytes_view(content_type), config.spec_content_type(), json) && r.fut@
                    == JsonBodyView::init(json, bytes_view(content_length)).with_limit(
                    config.spec_limit(),
                ),
            r.err_handler is Some <==> config.spec_err_handler() is Some,
            r.err_handler matches Some(h) ==> *h == config.spec_err_handler()->0,
            r.req == req,
    {
        let json = match content_mime(content_type) {
            Some(m) => accepts(&m, config.get_content_type()),
            None => false,
        };
        proof {
            assert(admitted(bytes_view(content_type), config.spec_content_type(), json));
        }
        let fut = JsonBody::with_verdict(json, content_length).limit(config.get_limit());
        JsonExtractFut { req, fut, err_handler: config.get_err_handler() }
    }

    /// Takes a report of the payload and says how the reading goes on.
    ///
    /// An error that has been reported once cannot be asked for again.
    pub fn poll(&mut self, event: PayloadEvent) -> (r: JsonPoll)
        requires
            !(old(self)@ matches JsonBodyView::Error(None)),
        ensures
            (final(self)@, r@) == old(self)@.step(event@),
    {
        let mut taken = JsonBody::Error(None);
        std::mem::swap(self, &mut taken);
        match taken {
            JsonBody::Error(e) => match e {
                Some(e) => JsonPoll::Failed(e),
                None => JsonPoll::Pending,
            },
            JsonBody::Body { limit, length, buf } => {
                let mut buf = buf;
                let r = match event {
                    PayloadEvent::Wake => JsonPoll::More,
                    PayloadEvent::Pending => JsonPoll::Pending,
                    PayloadEvent::Chunk(chunk) => {
                        let held = buf.len();
                        if held > limit || chunk.len() > limit - held {
                            JsonPoll::Failed(JsonPayloadError::Overflow)
                        } else {
                            buf.extend_from_slice(crate::buf::bytes_as_slice(&chunk));
                            JsonPoll::More
                        }
                    },
                    PayloadEvent::End => {
                        let mut full = bytes::BytesMut::new();
                        std::mem::swap(&mut buf, &mut full);
                        JsonPoll::Ready(full.freeze())
                    },
                    PayloadEvent::Failed(t) => JsonPoll::Failed(JsonPayloadError::Payload(t)),
                };
                *self = JsonBody::Body { limit, length, buf };
                r
            },
        }
    }
}

/// A value that is sent or received as JSON.
#[derive(Debug, PartialEq, Eq)]
pub struct Json<T>(pub T);

impl<T> Json<T> {
    /// Takes the value out.
    pub fn into_inner(self) -> (r: T)
        ensures
            r == self.0,
    {
        self.0
    }
}

impl<T> std::ops::Deref for Json<T> {
    type Target = T;

    fn deref(&self) -> (r: &T)
        ensures
            *r == self.0,
    {
        &self.0
    }
}

/// A response with its body.
#[derive(Debug)]
pub struct Response {
    pub head: ResponseHead,
    pub body: Body,
}

/// Makes the response that carries a serialized value: it is successful,
/// its content type is `application/json`, and its body is the text.
pub fn json_response(body: String) -> (r: Response)
    ensures
        r.head@ == (ResponseHeadView {
            status: OK,
            headers: seq![line(StandardHeader::ContentType, "application/json".spec_bytes())],
        }),
        r.body matches Body::Binary(b) && b@ == encode_utf8(body@),
{
    let mut head = ResponseHead::new(OK);
    head.headers.append(
        HeaderName::Standard(StandardHeader::ContentType),
        str_bytes("application/json"),
    );
    proof {
        assert(head.headers@ =~= seq![
            line(StandardHeader::ContentType, "application/json".spec_bytes()),
        ]);
    }
    Response { head, body: Body::Binary(BinaryBody::from_string(body)) }
}

/// What a poll of an extraction yields.
#[derive(Debug, PartialEq, Eq)]
pub enum Extracted<E> {
    /// Poll the payload and report what it delivers.
    More,
    /// Nothing can be done now: wait to be woken, then report `Wake`.
    Pending,
    /// The payload is complete; these are its bytes.
    Ready(bytes::Bytes),
    /// The payload is refused, with the error that the application sees.
    Failed(E),
}

/// The extraction of a JSON value from a request: the request, the reading
/// of its payload, and the application's handler of errors, if it has set
/// one.
pub struct JsonExtractFut<H, R> {
    /// The request that the value is extracted from.
    pub req: R,
    /// The reading of the payload.
    pub fut: JsonBody,
    /// What turns a payload error into the error that the application sees;
    /// it is given the error and the request.
    pub err_handler: Option<H>,
}

impl<H, R> JsonExtractFut<H, R> {
    /// Turns a payload error into the error that the application sees: by
    /// its handler, called with the error and the request, if it has set
    /// one, and by `default` if not.
    pub fn fail<E, D>(&self, error: JsonPayloadError, default: D) -> (r: E) where
        H: Fn(JsonPayloadError, &R) -> E,
        D: FnOnce(JsonPayloadError) -> E,

        requires
            self.err_handler matches Some(h) ==> call_requires(h, (error, &self.req)),
            self.err_handler is None ==> call_requires(default, (error,)),
        ensures
            self.err_handler matches Some(h) ==> call_ensures(h, (error, &self.req), r),
            self.err_handler is None ==> call_ensures(default, (error,), r),
    {
        match &self.err_handler {
            Some(h) => h(error, &self.req),
            None => default(error),
        }
    }

    /// Takes a report of the payload and says how the extraction goes on:
    /// as the reading of the payload does, with an error turned into the
    /// error that the application sees.
    pub fn poll<E, D>(&mut self, event: PayloadEvent, default: D) -> (r: Extracted<E>) where
        H: Fn(JsonPayloadError, &R) -> E,
        D: FnOnce(JsonPayloadError) -> E,

        requires
            !(old(self).fut@ matches JsonBodyView::Error(None)),
            old(self).err_handler matches Some(h) ==> forall|e: JsonPayloadError| #[trigger]
                call_requires(h, (e, &old(self).req)),
            forall|e: JsonPayloadError| #[trigger] call_requires(default, (e,)),
        ensures
            final(self).fut@ == old(self).fut@.step(event@).0,
            final(self).err_handler == old(self).err_handler,
            final(self).req == old(self).req,
            match old(self).fut@.step(event@).1 {
                JsonPollView::More => r is More,
                JsonPollView::Pending => r is Pending,
                JsonPollView::Ready(bytes) => r matches Extracted::Ready(b) && bytes_seq(b)
                    == bytes,
                JsonPollView::Failed(error) => r matches Extracted::Failed(seen) && exists|
                    e: JsonPayloadError,
                |
                    e@ == error && match old(self).err_handler {
                        Some(h) => call_ensures(h, (e, &old(self).req), seen),
                        None => call_ensures(default, (e,), seen),
                    },
            },
    {
        match self.fut.poll(event) {
            JsonPoll::More => Extracted::More,
            JsonPoll::Pending => Extracted::Pending,
            JsonPoll::Ready(b) => Extracted::Ready(b),
            JsonPoll::Failed(e) => Extracted::Failed(self.fail(e, default)),
        }
    }
}

} // verus!
