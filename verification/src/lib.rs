//! A WebSocket server core that sits on a hand-built IPv4/TCP packet layer.
//!
//! The crate is free of I/O: it encodes, decodes and checks bytes, and keeps
//! the protocol state. Sockets, threads and clocks belong to the caller, who
//! feeds in what was read and transmits what comes back.
//!
//! * [`wire`]: big-endian integers.
//! * [`tcp`]: IPv4 and TCP headers, the Internet checksum, whole segments.
//! * [`websockets`]: the opening handshake, frames, the connection state.
//! * [`workers`]: what a worker does with each frame of a session.

mod random;
pub mod tcp;
pub mod websockets;
pub mod wire;
pub mod workers;
