//! The heads of requests and responses, as far as the connection layer reads
//! them.

use crate::header::{HeaderMap, Line};
use vstd::prelude::*;

verus! {

/// The status code of a response that continues the exchange.
pub const CONTINUE: u16 = 100;

/// The status code of a response that switches protocols.
pub const SWITCHING_PROTOCOLS: u16 = 101;

/// The status code of an interim response to a long request.
pub const PROCESSING: u16 = 102;

/// The status code of a successful response.
pub const OK: u16 = 200;

/// The status code of a response without content.
pub const NO_CONTENT: u16 = 204;

/// The head of a response: its status code and its headers.
#[derive(Debug, PartialEq, Eq)]
pub struct ResponseHead {
    pub status: u16,
    pub headers: HeaderMap,
}

/// The model of a response head.
pub struct ResponseHeadView {
    pub status: u16,
    pub headers: Seq<Line>,
}

impl View for ResponseHead {
    type V = ResponseHeadView;

    open spec fn view(&self) -> ResponseHeadView {
        ResponseHeadView { status: self.status, headers: self.headers@ }
    }
}

impl ResponseHead {
    /// A head with the given status and no headers.
    pub fn new(status: u16) -> (r: ResponseHead)
        ensures
            r@ == (ResponseHeadView { status, headers: Seq::empty() }),
    {
        ResponseHead { status, headers: HeaderMap::new() }
    }
}

} // verus!
