//! Session configuration.
use vstd::prelude::*;
use crate::{
    DEFAULT_ACCEPT_BACKLOG, DEFAULT_KEEPALIVE_INTERVAL_MS, DEFAULT_WRITE_TIMEOUT_MS,
    INITIAL_STREAM_WINDOW,
};

verus! {

/// The settings of a session, as values. Durations are in milliseconds.
pub struct ConfigView {
    pub accept_backlog: u32,
    pub enable_keepalive: bool,
    pub keepalive_interval_ms: u64,
    pub connection_write_timeout_ms: u64,
    pub max_stream_window_size: u32,
}

/// The settings of a session.
#[derive(Clone, Copy, Debug)]
pub struct Config {
    // Limits how many streams may be waiting an accept.
    pub(crate) accept_backlog: u32,
    // Whether keep-alive pings are sent periodically.
    pub(crate) enable_keepalive: bool,
    // How often to send a keep-alive ping, in milliseconds.
    pub(crate) keepalive_interval_ms: u64,
    // A "safety valve" timeout on writes to the connection, in milliseconds:
    // past it the connection is suspected broken and closed.
    pub(crate) connection_write_timeout_ms: u64,
    // The largest window a stream allows.
    pub(crate) max_stream_window_size: u32,
}

impl View for Config {
    type V = ConfigView;

    closed spec fn view(&self) -> ConfigView {
        ConfigView {
            accept_backlog: self.accept_backlog,
            enable_keepalive: self.enable_keepalive,
            keepalive_interval_ms: self.keepalive_interval_ms,
            connection_write_timeout_ms: self.connection_write_timeout_ms,
            max_stream_window_size: self.max_stream_window_size,
        }
    }
}

impl Config {
    /// Whether keep-alive pings are sent.
    pub fn enable_keepalive(&self) -> (b: bool)
        ensures
            b == self@.enable_keepalive,
    {
        self.enable_keepalive
    }

    /// How often a keep-alive ping is sent, in milliseconds.
    pub(crate) fn keepalive_interval_ms(&self) -> (ms: u64)
        ensures
            ms == self@.keepalive_interval_ms,
    {
        self.keepalive_interval_ms
    }

    /// The largest window a stream allows.
    pub(crate) fn max_stream_window_size(&self) -> (w: u32)
        ensures
            w == self@.max_stream_window_size,
    {
        self.max_stream_window_size
    }
}

impl Default for Config {
    /// The defaults: a backlog of 256 streams, keep-alive every 30 s, a
    /// 10 s write timeout, and 256 KiB stream windows.
    fn default() -> (c: Config)
        ensures
            c@ == (ConfigView {
                accept_backlog: DEFAULT_ACCEPT_BACKLOG,
                enable_keepalive: true,
                keepalive_interval_ms: DEFAULT_KEEPALIVE_INTERVAL_MS,
                connection_write_timeout_ms: DEFAULT_WRITE_TIMEOUT_MS,
                max_stream_window_size: INITIAL_STREAM_WINDOW,
            }),
    {
        Config {
            accept_backlog: DEFAULT_ACCEPT_BACKLOG,
            enable_keepalive: true,
            keepalive_interval_ms: DEFAULT_KEEPALIVE_INTERVAL_MS,
            connection_write_timeout_ms: DEFAULT_WRITE_TIMEOUT_MS,
            max_stream_window_size: INITIAL_STREAM_WINDOW,
        }
    }
}

} // verus!
