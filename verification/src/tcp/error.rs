//! Why a segment or a header was turned down.

use vstd::prelude::*;

verus! {

/// The ways in which bytes can fail to be a segment, or a payload to fit one.
#[derive(Debug, Clone, Copy, PartialEq, Eq, Structural)]
pub enum TcpError {
    /// Fewer bytes than an IPv4 header and a TCP header take together.
    TooSmall,
    /// A header that is too short or whose fields contradict each other.
    MalformedHeader,
    /// The checksum over the segment does not come to zero.
    ChecksumMismatch,
    /// More payload than one datagram can carry beside the two headers.
    PayloadTooLarge,
}

impl TcpError {
    /// A short description, for logs and for wrapping into other errors.
    pub fn to_string(&self) -> (text: String)
        ensures
            text@ == match *self {
                TcpError::TooSmall => "packet too small: insufficient header size"@,
                TcpError::MalformedHeader => "malformed header"@,
                TcpError::ChecksumMismatch => "TCP checksum mismatch: packet corrupted"@,
                TcpError::PayloadTooLarge => "payload does not fit one datagram"@,
            },
    {
        match self {
            TcpError::TooSmall => String::from_str("packet too small: insufficient header size"),
            TcpError::MalformedHeader => String::from_str("malformed header"),
            TcpError::ChecksumMismatch => String::from_str(
                "TCP checksum mismatch: packet corrupted",
            ),
            TcpError::PayloadTooLarge => String::from_str("payload does not fit one datagram"),
        }
    }
}

} // verus!
