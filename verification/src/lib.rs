//! Verified core of a chat bridge: an in-memory channel-mapping table, a pure
//! event-translation layer between a platform gateway and a backend chat bus,
//! and the coordinator state machine that ties the two session loops together.

use vstd::prelude::*;

pub mod channel_map;
pub mod coordinator;
pub mod errors;
pub mod events;
pub mod laws;
pub mod translator;

verus! {

/// Validated configuration handed to the bridge by its environment.
///
/// The core consumes this as an opaque, already-validated value; reading and
/// validating it (environment variables, defaults) is the caller's job.
pub struct Config {
    pub platform_token: String,
    pub command_prefix: String,
    pub backend_host: String,
    pub backend_token: String,
    pub backend_identity: String,
}

} // verus!
