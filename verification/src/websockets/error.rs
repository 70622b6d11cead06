//! Why a handshake or a frame was turned down.

use vstd::prelude::*;
use vstd::string::StringExecFns;

verus! {

/// The ways in which a WebSocket connection can fail on what the peer sent.
#[derive(Debug, Clone, PartialEq, Eq)]
pub enum WebSocketError {
    /// The opening request was no upgrade to WebSocket, or lacked its key.
    HandshakeFailed(String),
    /// A frame carried an opcode that the protocol does not define.
    InvalidOpcode,
    /// The bytes ended before the frame did.
    UnexpectedEof,
}

/// What a [`WebSocketError`] stands for in contracts.
pub enum WebSocketErrorView {
    HandshakeFailed(Seq<char>),
    InvalidOpcode,
    UnexpectedEof,
}

impl View for WebSocketError {
    type V = WebSocketErrorView;

    open spec fn view(&self) -> WebSocketErrorView {
        match self {
            WebSocketError::HandshakeFailed(message) => WebSocketErrorView::HandshakeFailed(
                message@,
            ),
            WebSocketError::InvalidOpcode => WebSocketErrorView::InvalidOpcode,
            WebSocketError::UnexpectedEof => WebSocketErrorView::UnexpectedEof,
        }
    }
}

/// What `{:?}` prints for a string: the text between double quotes, with
/// quotes, backslashes and unprintable characters escaped.
pub uninterp spec fn debug_quoted(text: Seq<char>) -> Seq<char>;

/// Formats `text` with `{:?}`, which is the standard library's `Debug` for
/// `str`. The result depends on the text alone; its escaping rules are the
/// standard library's and are not restated here.
#[verifier::external_body]
fn format_debug(text: &str) -> (quoted: String)
    ensures
        quoted@ == debug_quoted(text@),
{
    format!("{:?}", text)
}

impl WebSocketError {
    /// The text of the error: the variant's name, and for a failed handshake
    /// the quoted message in parentheses after it.
    pub open spec fn spec_to_string(self) -> Seq<char> {
        match self {
            WebSocketError::HandshakeFailed(message) => "HandshakeFailed("@ + debug_quoted(
                message@,
            ) + ")"@,
            WebSocketError::InvalidOpcode => "InvalidOpcode"@,
            WebSocketError::UnexpectedEof => "UnexpectedEof"@,
        }
    }

    /// A failed handshake with the given message.
    pub fn handshake_failed(message: &str) -> (error: WebSocketError)
        ensures
            error@ == WebSocketErrorView::HandshakeFailed(message@),
    {
        WebSocketError::HandshakeFailed(String::from_str(message))
    }

    /// The text of the error, as `{:?}` would print the value.
    pub fn to_string(&self) -> (text: String)
        ensures
            text@ == self.spec_to_string(),
    {
        match self {
            WebSocketError::HandshakeFailed(message) => {
                let quoted = format_debug(message.as_str());
                String::from_str("HandshakeFailed(").concat(quoted.as_str()).concat(")")
            },
            WebSocketError::InvalidOpcode => String::from_str("InvalidOpcode"),
            WebSocketError::UnexpectedEof => String::from_str("UnexpectedEof"),
        }
    }
}

} // verus!
