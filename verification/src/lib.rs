//! A stream multiplexer in the style of yamux: many logical streams share
//! one connection. Frames carry a small header (version, type, flags,
//! stream id, length); each stream runs a small state machine and credit
//! based flow control; a session owns the connection, allocates stream ids,
//! answers pings and tracks go-away notices.
use vstd::prelude::*;

mod channels;
pub mod config;
pub mod error;
mod fnv_maps;
pub mod frame;
pub mod session;
pub mod stream;

verus! {

/// Identifier of a logical stream inside a session.
pub type StreamId = u32;

/// Latest protocol version.
pub const PROTOCOL_VERSION: u8 = 0;

/// The id 0 is reserved to represent the session itself.
pub const RESERVED_STREAM_ID: StreamId = 0;

/// The header is 12 bytes.
pub const HEADER_SIZE: usize = 12;

/// Receive window every new stream starts with (256 KiB).
pub const INITIAL_STREAM_WINDOW: u32 = 262144;

/// How many streams may wait to be accepted by default.
pub const DEFAULT_ACCEPT_BACKLOG: u32 = 256;

/// Default keep-alive period, in milliseconds.
pub const DEFAULT_KEEPALIVE_INTERVAL_MS: u64 = 30000;

/// Default write timeout on the connection, in milliseconds.
pub const DEFAULT_WRITE_TIMEOUT_MS: u64 = 10000;

} // verus!
