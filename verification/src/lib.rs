//! The connection layer of an HTTP server: how one connection answers
//! pipelined requests in order, how response bodies go out under
//! backpressure, and when a connection is kept or closed. The rules are
//! stated as contracts and proved; sockets, timers and handlers stay with the
//! caller.
//!
//! - [`channel`]: the driver of a connection with pipelined requests;
//!   [`guarantees`]: what it guarantees.
//! - [`dispatcher`]: the head and the body pump of a response on a
//!   multiplexed connection.
//! - [`ws`]: the client side of the WebSocket handshake.
//! - [`json`]: the reading of JSON payloads.
//! - [`body`], [`header`], [`message`], [`config`], [`server`]: the values
//!   that these work on.
//! - [`buf`]: what is taken on trust of the byte buffers of the `bytes`
//!   crate.

pub mod body;
pub mod buf;
pub mod channel;
pub mod config;
pub mod dispatcher;
pub mod guarantees;
pub mod header;
pub mod json;
pub mod message;
pub mod seq;
pub mod server;
pub mod ws;
