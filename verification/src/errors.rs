//! Error taxonomy of the bridge core.

use vstd::prelude::*;

verus! {

/// Reported by `ChannelMap::register` when the backend identity was already
/// bound to a different platform channel in the same guild. The registration
/// still takes effect (last write wins); the error is the caller's signal to
/// log the correction, not a hard failure.
#[derive(Debug, PartialEq, Eq)]
pub struct ConflictError;

/// Reported on the outbound path when a backend command names a backend
/// channel identity that no current mapping binds. Surfaced to whoever issued
/// the command; never fatal for the bridge as a whole.
#[derive(Debug, PartialEq, Eq)]
pub struct UnknownChannelError;

/// Terminal outcome of a session's event loop, as reported to the
/// coordinator. A disconnect is normally absorbed by the session's own
/// reconnect policy and reaches the coordinator only once that policy gives
/// up; a fatal error (auth revoked, protocol incompatibility) always does.
#[derive(Clone, Copy, Debug, PartialEq, Eq)]
pub enum SessionError {
    Disconnected,
    Fatal,
}

/// Outcome of establishing a session's transport. Transient network failures
/// are retried inside the session and never surface here; what does surface
/// is either success or a fatal, non-retryable failure.
#[derive(Clone, Copy, Debug, PartialEq, Eq)]
pub enum ConnectError {
    Fatal,
    Transient,
}

} // verus!
