//! What the publishing and subscribing tasks share: the error classes of a
//! link to the broker and the fixed reconnect policy.

use vstd::prelude::*;

verus! {

/// Milliseconds to wait after a failed connect attempt before the next one.
/// The delay is fixed: attempts go on without limit and without growth.
pub const RETRY_DELAY_MS: u64 = 1000;

/// Milliseconds that an idle task waits before it looks for work again.
pub const IDLE_POLL_MS: u64 = 100;

/// Seconds after which one connect attempt, or one receive, is abandoned.
pub const LINK_TIMEOUT_SECS: u64 = 60;

/// The class of a failure on a link to the broker.
#[derive(Debug, Clone, Copy, PartialEq, Eq, Structural)]
pub enum LinkError {
    /// The socket failed: unreachable host, reset, timeout.
    Transport,
    /// The broker refused a handshake, or a packet could not be framed.
    Protocol,
}

/// Where a task stands with its connection.
#[derive(Debug, Clone, Copy, PartialEq, Eq, Structural)]
pub enum ConnState {
    Disconnected,
    Connecting,
    Connected,
    /// Connected, with a publish of a queued envelope under way.
    Draining,
}

} // verus!
