//! A WebSocket connection without its transport: the state of the
//! connection, and the bytes that go out and come in.
//!
//! The caller owns the stream or raw socket. It hands over what it read
//! and writes what comes back, and it reports its own failures with
//! [`WebSocket::close`].

use crate::websockets::error::{WebSocketError, WebSocketErrorView};
use crate::websockets::frame::{spec_decode, Frame, FrameView, OpCode};
use crate::websockets::handshake::{
    accept_request, handshake_response, spec_accept, spec_handshake_response,
};
use crate::websockets::request::{
    read_handshake_request, spec_read_request, texts, Request, RequestView,
};
use vstd::prelude::*;

verus! {

/// Where a connection stands.
#[derive(Debug, Clone, Copy, PartialEq, Eq, Structural)]
pub enum ConnectionState {
    /// The handshake has not been completed. Every connection starts here.
    Connecting,
    /// Frames flow.
    Connected,
    /// A close was started and waits for its answer.
    Closing,
    /// The connection is over. Nothing leads out of this state.
    Closed,
}

impl ConnectionState {
    /// Whether a connection in this state may be in state `next` after one
    /// operation: it may stay, move one step along `Connecting`,
    /// `Connected`, `Closing`, `Closed`, or fall to `Closed` from anywhere.
    pub open spec fn spec_may_become(self, next: ConnectionState) -> bool {
        ||| next == self
        ||| next == ConnectionState::Closed
        ||| self == ConnectionState::Connecting && next == ConnectionState::Connected
        ||| self == ConnectionState::Connected && next == ConnectionState::Closing
    }

    /// Whether a connection in this state may be in state `next` after one
    /// operation.
    pub fn may_become(self, next: ConnectionState) -> (allowed: bool)
        ensures
            allowed == self.spec_may_become(next),
    {
        match (self, next) {
            (_, ConnectionState::Closed) => true,
            (ConnectionState::Connecting, ConnectionState::Connecting) => true,
            (ConnectionState::Connecting, ConnectionState::Connected) => true,
            (ConnectionState::Connected, ConnectionState::Connected) => true,
            (ConnectionState::Connected, ConnectionState::Closing) => true,
            (ConnectionState::Closing, ConnectionState::Closing) => true,
            _ => false,
        }
    }

    /// `Closed` is terminal: the only state that may follow it is itself.
    pub proof fn lemma_closed_is_terminal(next: ConnectionState)
        ensures
            ConnectionState::Closed.spec_may_become(next) <==> next == ConnectionState::Closed,
    {
    }
}

/// One WebSocket connection, seen from the server.
#[derive(Debug)]
pub struct WebSocket {
    state: ConnectionState,
}

impl View for WebSocket {
    type V = ConnectionState;

    closed spec fn view(&self) -> ConnectionState {
        self.state
    }
}

impl WebSocket {
    /// A connection before its handshake.
    pub fn new() -> (socket: WebSocket)
        ensures
            socket@ == ConnectionState::Connecting,
    {
        WebSocket { state: ConnectionState::Connecting }
    }

    /// Where the connection stands.
    pub fn state(&self) -> (state: ConnectionState)
        ensures
            state == self@,
    {
        self.state
    }

    /// Performs the handshake on the lines of the opening request.
    ///
    /// On success the connection is `Connected`, and the response that
    /// switches protocols is returned for the caller to write. The request
    /// fails as [`accept_request`] says, and then there is no connection.
    pub fn accept(lines: &Vec<String>) -> (result: Result<(WebSocket, String), WebSocketError>)
        ensures
            match result {
                Ok((socket, response)) => socket@ == ConnectionState::Connected && spec_accept(
                    texts(lines@),
                ) == Ok::<Seq<char>, WebSocketErrorView>(response@),
                Err(e) => spec_accept(texts(lines@)) == Err::<Seq<char>, WebSocketErrorView>(e@),
            },
    {
        let mut socket = WebSocket::new();
        match accept_request(lines) {
            Ok(response) => {
                socket.state = ConnectionState::Connected;
                Ok((socket, response))
            },
            Err(e) => Err(e),
        }
    }

    /// Reads the head of the opening request from the lines that came in.
    /// A request that is no upgrade to WebSocket closes the connection.
    pub fn read_handshake_request(&mut self, lines: &Vec<String>) -> (result: Result<
        Request,
        WebSocketError,
    >)
        ensures
            match result {
                Ok(request) => spec_read_request(texts(lines@)) == Ok::<
                    RequestView,
                    WebSocketErrorView,
                >(request@) && final(self)@ == old(self)@,
                Err(e) => spec_read_request(texts(lines@)) == Err::<
                    RequestView,
                    WebSocketErrorView,
                >(e@) && final(self)@ == ConnectionState::Closed,
            },
            old(self)@.spec_may_become(final(self)@),
    {
        match read_handshake_request(lines) {
            Ok(request) => Ok(request),
            Err(e) => {
                self.state = ConnectionState::Closed;
                Err(e)
            },
        }
    }

    /// The response that completes the handshake, for the caller to write.
    /// With it a connection that was `Connecting` becomes `Connected`.
    pub fn write_handshake_response(&mut self, accept_key: &str) -> (response: String)
        ensures
            response@ == spec_handshake_response(accept_key@),
            final(self)@ == if old(self)@ == ConnectionState::Connecting {
                ConnectionState::Connected
            } else {
                old(self)@
            },
            old(self)@.spec_may_become(final(self)@),
    {
        if self.state == ConnectionState::Connecting {
            self.state = ConnectionState::Connected;
        }
        handshake_response(accept_key)
    }

    /// Decodes the frame that the caller read.
    ///
    /// Fails as [`Frame::decode`] does; a failure closes the connection.
    pub fn read_frame(&mut self, bytes: &[u8]) -> (result: Result<Frame, WebSocketError>)
        ensures
            match result {
                Ok(frame) => spec_decode(bytes@) matches Ok(decoded) && decoded.0 == frame@
                    && frame@.wf() && final(self)@ == old(self)@,
                Err(e) => spec_decode(bytes@) == Err::<(FrameView, nat), WebSocketErrorView>(e@)
                    && final(self)@ == ConnectionState::Closed,
            },
            old(self)@.spec_may_become(final(self)@),
    {
        match Frame::decode(bytes) {
            Ok((frame, _)) => Ok(frame),
            Err(e) => {
                self.state = ConnectionState::Closed;
                Err(e)
            },
        }
    }

    /// The bytes of a text message: one final, unmasked text frame.
    pub fn send(&self, payload: Vec<u8>) -> (bytes: Vec<u8>)
        ensures
            bytes@ == FrameView::spec_new(OpCode::Text, payload@).spec_to_bytes(),
    {
        Frame::new(OpCode::Text, payload).to_bytes()
    }

    /// The bytes of a ping: one final, unmasked ping frame.
    pub fn send_ping(&self, payload: Vec<u8>) -> (bytes: Vec<u8>)
        ensures
            bytes@ == FrameView::spec_new(OpCode::Ping, payload@).spec_to_bytes(),
    {
        Frame::new(OpCode::Ping, payload).to_bytes()
    }

    /// The bytes of a pong: one final, unmasked pong frame.
    pub fn send_pong(&self, payload: Vec<u8>) -> (bytes: Vec<u8>)
        ensures
            bytes@ == FrameView::spec_new(OpCode::Pong, payload@).spec_to_bytes(),
    {
        Frame::new(OpCode::Pong, payload).to_bytes()
    }

    /// Ends the connection, whatever its state: after a close frame, or
    /// when the transport failed.
    pub fn close(&mut self)
        ensures
            final(self)@ == ConnectionState::Closed,
            old(self)@.spec_may_become(final(self)@),
    {
        self.state = ConnectionState::Closed;
    }
}

} // verus!
