//! The packet layer: IPv4 and TCP headers without options, the Internet
//! checksum, and whole segments as they travel.

use vstd::prelude::*;

pub mod checksum;
pub mod error;
pub mod headers;
pub mod socket;

pub use error::TcpError;
pub use headers::{IpHeader, TcpFlags, TcpHeader};
pub use socket::RawSocket;

verus! {

/// Length of a TCP header without options.
pub const TCP_HEADER_SIZE: usize = 20;

/// Length of an IPv4 header without options.
pub const IP_HEADER_SIZE: usize = 20;

/// The usual maximum segment size on Ethernet.
pub const MAX_SEGMENT_SIZE: usize = 1460;

/// What the packet layer returns.
pub type TcpResult<T> = Result<T, TcpError>;

} // verus!
