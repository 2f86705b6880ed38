//! Message bodies and how their length is announced.

use crate::buf::{bytes_as_slice, bytes_from_slice, bytes_from_vec, bytes_mut_seq, bytes_seq};
use std::rc::Rc;
use std::sync::Arc;
use vstd::prelude::*;
use vstd::string::StringSliceAdditionalSpecFns;
use vstd::utf8::encode_utf8;

verus! {

/// How the length of a message body is known.
#[derive(Clone, Copy, Debug, PartialEq, Eq, Structural)]
pub enum BodySize {
    /// No body is allowed; no length is announced.
    NoBody,
    /// A body of length zero.
    Empty,
    /// A body of a known length.
    Sized(usize),
    /// A body of a known length, in 64 bits.
    Sized64(u64),
    /// A body of unknown length, sent as it is produced.
    Stream,
}

impl BodySize {
    /// Whether no body bytes follow the head.
    pub open spec fn spec_is_eof(self) -> bool {
        self == BodySize::NoBody || self == BodySize::Empty || self == BodySize::Sized(0)
            || self == BodySize::Sized64(0)
    }

    /// Tells whether no body bytes follow the head.
    #[verifier::when_used_as_spec(spec_is_eof)]
    pub fn is_eof(self) -> (r: bool)
        ensures
            r == self.spec_is_eof(),
    {
        match self {
            BodySize::NoBody | BodySize::Empty | BodySize::Sized(0) | BodySize::Sized64(0) => true,
            _ => false,
        }
    }
}

/// The kinds of body that a message can have.
#[derive(Debug)]
pub enum Body {
    /// No body; the length is announced as zero.
    Empty,
    /// A body that is held in memory.
    Binary(BinaryBody),
    /// A body of this length that is sent as it is produced.
    Length(u64),
    /// A body of unknown length that is sent as it is produced.
    Streaming,
    /// The connection is handed over to another protocol.
    Upgrade,
}

/// A body that is held in memory; its length is the length that is
/// announced.
#[derive(Debug)]
pub enum BinaryBody {
    /// A buffer of bytes.
    Bytes(bytes::Bytes),
    /// A slice that lives as long as the program.
    Slice(&'static [u8]),
    /// A shared buffer of bytes.
    SharedBytes(Rc<bytes::Bytes>),
    /// A shared string.
    SharedString(Rc<String>),
    /// A buffer of bytes shared between threads.
    ArcSharedBytes(Arc<bytes::Bytes>),
    /// A string shared between threads.
    ArcSharedString(Arc<String>),
}

impl View for BinaryBody {
    type V = Seq<u8>;

    /// The bytes of the body.
    open spec fn view(&self) -> Seq<u8> {
        match self {
            BinaryBody::Bytes(b) => bytes_seq(*b),
            BinaryBody::Slice(s) => s@,
            BinaryBody::SharedBytes(b) => bytes_seq(**b),
            BinaryBody::SharedString(s) => encode_utf8((**s)@),
            BinaryBody::ArcSharedBytes(b) => bytes_seq(**b),
            BinaryBody::ArcSharedString(s) => encode_utf8((**s)@),
        }
    }
}

impl Body {
    /// Whether the body is sent as it is produced.
    pub open spec fn spec_has_body(&self) -> bool {
        self is Length || self is Streaming
    }

    /// Tells whether the body is sent as it is produced.
    #[verifier::when_used_as_spec(spec_has_body)]
    pub fn has_body(&self) -> (r: bool)
        ensures
            r == self.spec_has_body(),
    {
        match self {
            Body::Length(_) => true,
            Body::Streaming => true,
            _ => false,
        }
    }

    /// Makes a body in memory that holds a copy of the slice.
    pub fn from_slice(s: &[u8]) -> (r: Body)
        ensures
            r matches Body::Binary(b) && b is Bytes && b@ == s@,
    {
        Body::Binary(BinaryBody::from_slice(s))
    }
}

impl BinaryBody {
    /// The number of bytes of the body.
    pub fn len(&self) -> (n: usize)
        ensures
            n == self@.len(),
    {
        match self {
            BinaryBody::Bytes(bytes) => bytes.len(),
            BinaryBody::Slice(slice) => slice.len(),
            BinaryBody::SharedBytes(bytes) => bytes.len(),
            BinaryBody::ArcSharedBytes(bytes) => bytes.len(),
            BinaryBody::SharedString(s) => s.as_str().as_bytes().len(),
            BinaryBody::ArcSharedString(s) => s.as_str().as_bytes().len(),
        }
    }

    /// Makes a body that holds a copy of the slice.
    pub fn from_slice(s: &[u8]) -> (r: BinaryBody)
        ensures
            r is Bytes,
            r@ == s@,
    {
        BinaryBody::Bytes(bytes_from_slice(s))
    }

    /// Makes a body of a slice that lives as long as the program, without
    /// copying it.
    pub fn from_static(s: &'static [u8]) -> (r: BinaryBody)
        ensures
            r == BinaryBody::Slice(s),
    {
        BinaryBody::Slice(s)
    }

    /// Makes a body of the bytes of a string that lives as long as the
    /// program, without copying it.
    pub fn from_static_str(s: &'static str) -> (r: BinaryBody)
        ensures
            r is Slice,
            r@ == encode_utf8(s@),
    {
        BinaryBody::Slice(s.as_bytes())
    }

    /// Makes a body of the bytes of a vector.
    pub fn from_vec(vec: Vec<u8>) -> (r: BinaryBody)
        ensures
            r is Bytes,
            r@ == vec@,
    {
        BinaryBody::Bytes(bytes_from_vec(vec))
    }

    /// Makes a body of the bytes of a string.
    pub fn from_string(s: String) -> (r: BinaryBody)
        ensures
            r is Bytes,
            r@ == encode_utf8(s@),
    {
        BinaryBody::Bytes(bytes_from_slice(s.as_str().as_bytes()))
    }

    /// Makes a body of a buffer that has been filled.
    pub fn from_bytes_mut(s: bytes::BytesMut) -> (r: BinaryBody)
        ensures
            r is Bytes,
            r@ == bytes_mut_seq(s),
    {
        BinaryBody::Bytes(s.freeze())
    }

    /// The bytes of the body.
    pub fn as_ref(&self) -> (r: &[u8])
        ensures
            r@ == self@,
    {
        match self {
            BinaryBody::Bytes(bytes) => bytes_as_slice(bytes),
            BinaryBody::Slice(slice) => slice,
            BinaryBody::SharedBytes(bytes) => bytes_as_slice(bytes),
            BinaryBody::ArcSharedBytes(bytes) => bytes_as_slice(bytes),
            BinaryBody::SharedString(s) => s.as_str().as_bytes(),
            BinaryBody::ArcSharedString(s) => s.as_str().as_bytes(),
        }
    }
}

impl From<BinaryBody> for Body {
    fn from(b: BinaryBody) -> (r: Body) {
        Body::Binary(b)
    }
}

impl vstd::std_specs::convert::FromSpecImpl<BinaryBody> for Body {
    open spec fn obeys_from_spec() -> bool {
        true
    }

    open spec fn from_spec(b: BinaryBody) -> Body {
        Body::Binary(b)
    }
}

impl From<&'static [u8]> for BinaryBody {
    fn from(s: &'static [u8]) -> (r: BinaryBody) {
        BinaryBody::Slice(s)
    }
}

impl vstd::std_specs::convert::FromSpecImpl<&'static [u8]> for BinaryBody {
    open spec fn obeys_from_spec() -> bool {
        true
    }

    open spec fn from_spec(s: &'static [u8]) -> BinaryBody {
        BinaryBody::Slice(s)
    }
}

impl From<bytes::Bytes> for BinaryBody {
    fn from(s: bytes::Bytes) -> (r: BinaryBody) {
        BinaryBody::Bytes(s)
    }
}

impl vstd::std_specs::convert::FromSpecImpl<bytes::Bytes> for BinaryBody {
    open spec fn obeys_from_spec() -> bool {
        true
    }

    open spec fn from_spec(s: bytes::Bytes) -> BinaryBody {
        BinaryBody::Bytes(s)
    }
}

impl From<Rc<bytes::Bytes>> for BinaryBody {
    fn from(body: Rc<bytes::Bytes>) -> (r: BinaryBody) {
        BinaryBody::SharedBytes(body)
    }
}

impl vstd::std_specs::convert::FromSpecImpl<Rc<bytes::Bytes>> for BinaryBody {
    open spec fn obeys_from_spec() -> bool {
        true
    }

    open spec fn from_spec(body: Rc<bytes::Bytes>) -> BinaryBody {
        BinaryBody::SharedBytes(body)
    }
}

impl From<Arc<bytes::Bytes>> for BinaryBody {
    fn from(body: Arc<bytes::Bytes>) -> (r: BinaryBody) {
        BinaryBody::ArcSharedBytes(body)
    }
}

impl vstd::std_specs::convert::FromSpecImpl<Arc<bytes::Bytes>> for BinaryBody {
    open spec fn obeys_from_spec() -> bool {
        true
    }

    open spec fn from_spec(body: Arc<bytes::Bytes>) -> BinaryBody {
        BinaryBody::ArcSharedBytes(body)
    }
}

impl From<Rc<String>> for BinaryBody {
    fn from(body: Rc<String>) -> (r: BinaryBody) {
        BinaryBody::SharedString(body)
    }
}

impl vstd::std_specs::convert::FromSpecImpl<Rc<String>> for BinaryBody {
    open spec fn obeys_from_spec() -> bool {
        true
    }

    open spec fn from_spec(body: Rc<String>) -> BinaryBody {
        BinaryBody::SharedString(body)
    }
}

impl From<Arc<String>> for BinaryBody {
    fn from(body: Arc<String>) -> (r: BinaryBody) {
        BinaryBody::ArcSharedString(body)
    }
}

impl vstd::std_specs::convert::FromSpecImpl<Arc<String>> for BinaryBody {
    open spec fn obeys_from_spec() -> bool {
        true
    }

    open spec fn from_spec(body: Arc<String>) -> BinaryBody {
        BinaryBody::ArcSharedString(body)
    }
}

} // verus!
