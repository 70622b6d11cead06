//! The WebSocket protocol of RFC 6455, as far as a server needs it: the
//! opening handshake, single frames, and the state of a connection.

use vstd::prelude::*;

pub mod connection;
pub mod error;
pub mod frame;
pub mod handshake;
pub mod request;
pub mod text;


pub use connection::{ConnectionState, WebSocket};
pub use error::WebSocketError;
pub use frame::{Frame, OpCode};
pub use handshake::generate_accept_key;
pub use request::Request;


verus! {

/// What the WebSocket layer returns.
pub type Result<T> = std::result::Result<T, WebSocketError>;

} // verus!
