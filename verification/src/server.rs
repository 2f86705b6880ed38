//! The server: which of the listeners that were tried serve, and what every
//! accepted connection starts with.

use crate::channel::{ChannelState, HttpChannel, KEEPALIVE_PERIOD, MAX_PIPELINED_MESSAGES};
use crate::seq::reversed;
use std::rc::Rc;
use vstd::prelude::*;

verus! {

/// Why a server could not start.
#[derive(Debug, PartialEq, Eq)]
pub enum BindError<E> {
    /// No address could be bound; this is the error of the last one tried.
    Failed(E),
    /// There was no address to bind to.
    NoAddress,
}

/// The listeners among the attempts to bind, in their order.
pub open spec fn bound<T, E>(attempts: Seq<Result<T, E>>) -> Seq<T>
    decreases attempts.len(),
{
    if attempts.len() == 0 {
        Seq::empty()
    } else {
        match attempts.last() {
            Ok(t) => bound(attempts.drop_last()).push(t),
            Err(_) => bound(attempts.drop_last()),
        }
    }
}

/// The error of the last attempt that failed.
pub open spec fn last_error<T, E>(attempts: Seq<Result<T, E>>) -> Option<E>
    decreases attempts.len(),
{
    if attempts.len() == 0 {
        None
    } else {
        match attempts.last() {
            Ok(_) => last_error(attempts.drop_last()),
            Err(e) => Some(e),
        }
    }
}

/// Picks the listeners to serve on from the attempts to bind each address.
///
/// The server starts on every address that could be bound, in the order of
/// the attempts, if there is at least one. If there is none, it fails with
/// the error of the last attempt, or for want of an address where nothing
/// was tried.
pub fn listeners<T, E>(attempts: Vec<Result<T, E>>) -> (r: Result<Vec<T>, BindError<E>>)
    ensures
        r matches Ok(l) ==> l@ == bound(attempts@) && l@.len() > 0,
        r matches Err(e) ==> bound(attempts@).len() == 0 && match last_error(attempts@) {
            Some(last) => e == BindError::Failed(last),
            None => e == BindError::<E>::NoAddress,
        },
{
    // The attempts are moved, not copied: they are taken from the front by
    // popping the reverse.
    let mut stack = reversed(attempts);
    let mut addrs: Vec<T> = Vec::new();
    let mut err: Option<E> = None;
    proof {
        assert(attempts@.take(0) =~= Seq::<Result<T, E>>::empty());
    }
    while stack.len() > 0
        invariant
            stack@.len() <= attempts@.len(),
            forall|j: int|
                0 <= j < stack@.len() ==> stack@[j] == attempts@[attempts@.len() - 1 - j],
            addrs@ == bound(attempts@.take(attempts@.len() - stack@.len())),
            err == last_error(attempts@.take(attempts@.len() - stack@.len())),
        decreases stack.len(),
    {
        let ghost pos = attempts@.len() - stack@.len();
        match stack.pop() {
            Some(a) => {
                proof {
                    assert(a == attempts@[pos as int]);
                    assert(attempts@.take(pos + 1).drop_last() =~= attempts@.take(pos as int));
                    assert(attempts@.take(pos + 1).last() == a);
                }
                match a {
                    Ok(tcp) => {
                        addrs.push(tcp);
                    },
                    Err(e) => {
                        err = Some(e);
                    },
                }
            },
            None => {},
        }
    }
    proof {
        assert(attempts@.take(attempts@.len() as int) =~= attempts@);
    }
    if addrs.len() == 0 {
        match err {
            Some(e) => Err(BindError::Failed(e)),
            None => Err(BindError::NoAddress),
        }
    } else {
        Ok(addrs)
    }
}

/// `Rc::clone` of the standard library: another handle to the same value.
#[verifier::external_body]
fn share<R>(rc: &Rc<R>) -> (r: Rc<R>)
    ensures
        r == *rc,
{
    Rc::clone(rc)
}

/// A server: the router that every connection shares.
pub struct HttpServer<R> {
    router: Rc<R>,
}

impl<R> HttpServer<R> {
    /// The router of the server.
    pub closed spec fn router(&self) -> R {
        *self.router
    }

    /// Makes a server that routes with `router`.
    pub fn new(router: R) -> (r: HttpServer<R>)
        ensures
            r.router() == router,
    {
        HttpServer { router: Rc::new(router) }
    }

    /// Starts the server on the listeners among the attempts to bind its
    /// addresses, as `listeners` picks them.
    pub fn serve<T, E>(self, attempts: Vec<Result<T, E>>) -> (r: Result<
        (HttpServer<R>, Vec<T>),
        BindError<E>,
    >)
        ensures
            r matches Ok(s) ==> s.0.router() == self.router() && s.1@ == bound(attempts@)
                && s.1@.len() > 0,
            r matches Err(e) ==> bound(attempts@).len() == 0 && match last_error(attempts@) {
                Some(last) => e == BindError::Failed(last),
                None => e == BindError::<E>::NoAddress,
            },
    {
        match listeners(attempts) {
            Ok(l) => Ok((self, l)),
            Err(e) => Err(e),
        }
    }

    /// Takes an accepted connection: it gets a handle to the router and a
    /// driver in its first state, with the default depth and idle time.
    pub fn handle(&self) -> (r: (Rc<R>, HttpChannel))
        ensures
            *r.0 == self.router(),
            r.1.wf(),
            r.1@ == ChannelState::init(MAX_PIPELINED_MESSAGES, KEEPALIVE_PERIOD),
    {
        (share(&self.router), HttpChannel::default())
    }
}

} // verus!
