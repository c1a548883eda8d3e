//! Errors reported by streams and sessions.
use vstd::prelude::*;

verus! {

/// What can go wrong on a stream or a session.
#[derive(Debug, Clone, Copy, PartialEq, Eq, Structural)]
pub enum Error {
    /// The session is gone: it was shut down, or its end of a channel was dropped.
    SessionShutdown,
    /// The remote side sent a go-away and accepts no new streams.
    RemoteGoAway,
    /// A flag arrived that the stream's state does not allow (a FIN after the remote already closed).
    UnexpectedFlag,
    /// A frame of a type that does not belong to a stream (ping, go-away).
    InvalidMsgType,
    /// The remote sent more data than the receive window allows.
    RecvWindowExceeded,
}

} // verus!
