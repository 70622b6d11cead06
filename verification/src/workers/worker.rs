//! One step of a session: from a frame that came in to what goes out.

use crate::websockets::connection::{ConnectionState, WebSocket};
use crate::websockets::frame::{Frame, FrameView, OpCode};
use vstd::prelude::*;

verus! {

/// The roles that a thread of the server can have.
#[derive(Debug, Clone, Copy, PartialEq, Eq, Structural)]
pub enum Workers {
    Listener,
    Fetcher,
    Worker,
}

/// Seconds between two pings that the server sends unasked.
pub const PING_INTERVAL_SECS: u64 = 30;

/// What the session loop does next.
#[derive(Debug, PartialEq, Eq)]
pub enum Action {
    /// Write these bytes to the peer, then go on reading.
    Transmit(Vec<u8>),
    /// Go on reading.
    Nothing,
    /// Leave the loop: the connection is closed.
    Stop,
}

/// What an [`Action`] stands for in contracts.
pub enum ActionView {
    Transmit(Seq<u8>),
    Nothing,
    Stop,
}

impl View for Action {
    type V = ActionView;

    open spec fn view(&self) -> ActionView {
        match self {
            Action::Transmit(bytes) => ActionView::Transmit(bytes@),
            Action::Nothing => ActionView::Nothing,
            Action::Stop => ActionView::Stop,
        }
    }
}

/// How a frame is answered: text is echoed, a ping gets a pong with the
/// same payload, a close ends the session, and everything else passes.
pub open spec fn spec_handle_frame(frame: FrameView) -> ActionView {
    match frame.op_code {
        OpCode::Text => ActionView::Transmit(
            FrameView::spec_new(OpCode::Text, frame.payload).spec_to_bytes(),
        ),
        OpCode::Ping => ActionView::Transmit(
            FrameView::spec_new(OpCode::Pong, frame.payload).spec_to_bytes(),
        ),
        OpCode::ConnectionClosed => ActionView::Stop,
        _ => ActionView::Nothing,
    }
}

/// Decides what to do with a frame that came in.
///
/// Text is echoed in an unmasked text frame, a ping is answered with a pong
/// that carries the same payload, and a close frame closes the connection
/// and stops the loop. Other frames are passed over. Only a close frame
/// changes the state of the connection.
pub fn handle_frame(socket: &mut WebSocket, frame: Frame) -> (action: Action)
    ensures
        action@ == spec_handle_frame(frame@),
        final(socket)@ == if frame@.op_code == OpCode::ConnectionClosed {
            ConnectionState::Closed
        } else {
            old(socket)@
        },
        old(socket)@.spec_may_become(final(socket)@),
{
    match frame.op_code {
        OpCode::Text => Action::Transmit(socket.send(frame.payload)),
        OpCode::Ping => Action::Transmit(socket.send_pong(frame.payload)),
        OpCode::ConnectionClosed => {
            socket.close();
            Action::Stop
        },
        _ => Action::Nothing,
    }
}

/// Whether the server owes the peer a ping: [`PING_INTERVAL_SECS`] or more
/// have passed since the last one.
pub fn ping_due(elapsed_secs: u64) -> (due: bool)
    ensures
        due == (elapsed_secs >= PING_INTERVAL_SECS),
{
    elapsed_secs >= PING_INTERVAL_SECS
}

} // verus!
