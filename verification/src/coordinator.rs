//! The top-level state machine of the bridge.
//!
//! The coordinator owns the channel table and decides every transition of
//! the bridge's lifecycle `Starting -> Running -> Draining -> Stopped`. The
//! session loops themselves live outside the core: they perform the network
//! work, hand every inbound event or command to the coordinator, and carry
//! its answers (backend events, platform actions, cancellation) back out.
//! The first terminal failure on either side tears the whole bridge down;
//! there is no valid half-bridge state.

use vstd::prelude::*;

use crate::channel_map::{Binding, ChannelMap};
use crate::errors::{ConnectError, SessionError, UnknownChannelError};
use crate::events::{BackendCommand, BackendEvent, PlatformAction, PlatformEvent};
use crate::translator::{
    spec_backend_actions, spec_backend_ok, spec_platform_step, translate_backend,
    translate_platform,
};

verus! {

/// The lifecycle of the bridge.
#[derive(Clone, Copy, Debug, PartialEq, Eq, Structural)]
pub enum BridgeState {
    Starting,
    Running,
    Draining,
    Stopped,
}

/// Which of the two sessions something happened to.
#[derive(Clone, Copy, Debug, PartialEq, Eq, Structural)]
pub enum SessionSide {
    Gateway,
    Ingest,
}

/// The dual-session orchestrator: owns the channel table, tracks the
/// bridge's lifecycle, and records why it is coming down.
pub struct BridgeCoordinator {
    state: BridgeState,
    map: ChannelMap,
    cancel_requested: bool,
    failure: Option<(SessionSide, SessionError)>,
}

impl BridgeCoordinator {
    /// The current lifecycle state.
    pub closed spec fn spec_state(self) -> BridgeState {
        self.state
    }

    /// The channel table's mathematical value.
    pub closed spec fn map_view(self) -> Seq<Binding> {
        self.map@
    }

    /// Whether the remaining session loop has been asked to cancel.
    pub closed spec fn cancel_was_requested(self) -> bool {
        self.cancel_requested
    }

    /// The recorded cause of the teardown, if any.
    pub closed spec fn spec_failure(self) -> Option<(SessionSide, SessionError)> {
        self.failure
    }

    /// The coordinator is well formed when its channel table is.
    pub closed spec fn wf(self) -> bool {
        self.map.wf()
    }

    /// A bridge that has not yet established its sessions.
    pub fn new() -> (r: BridgeCoordinator)
        ensures
            r.spec_state() is Starting,
            r.map_view() == Seq::<Binding>::empty(),
            !r.cancel_was_requested(),
            r.spec_failure() is None,
            r.wf(),
    {
        BridgeCoordinator {
            state: BridgeState::Starting,
            map: ChannelMap::new(),
            cancel_requested: false,
            failure: None,
        }
    }

    /// Digests the outcome of establishing both sessions. The bridge runs
    /// only if both came up; if either connect failed, it fails to start as
    /// a whole and reports the gateway's error first. A one-sided bridge
    /// has no value, so there is no partial start.
    pub fn start(&mut self, gateway: Result<(), ConnectError>, ingest: Result<(), ConnectError>)
        -> (r: Result<(), ConnectError>)
        requires
            old(self).spec_state() is Starting,
            old(self).wf(),
        ensures
            final(self).wf(),
            final(self).map_view() == old(self).map_view(),
            final(self).cancel_was_requested() == old(self).cancel_was_requested(),
            final(self).spec_failure() == old(self).spec_failure(),
            gateway is Ok && ingest is Ok ==> final(self).spec_state() is Running && r is Ok,
            gateway matches Err(e) ==> final(self).spec_state() is Stopped && r == Result::<
                (),
                ConnectError,
            >::Err(e),
            gateway is Ok && ingest is Err ==> final(self).spec_state() is Stopped && r
                == Result::<(), ConnectError>::Err(ingest->Err_0),
    {
        match gateway {
            Err(e) => {
                self.state = BridgeState::Stopped;
                Err(e)
            },
            Ok(()) => match ingest {
                Err(e) => {
                    self.state = BridgeState::Stopped;
                    Err(e)
                },
                Ok(()) => {
                    self.state = BridgeState::Running;
                    Ok(())
                },
            },
        }
    }

    /// Pumps one inbound platform event through the translator, updating
    /// the owned channel table, and returns the backend events to forward.
    pub fn handle_platform_event(&mut self, event: &PlatformEvent) -> (r: Vec<BackendEvent>)
        requires
            old(self).spec_state() is Running,
            old(self).wf(),
        ensures
            final(self).wf(),
            final(self).spec_state() is Running,
            final(self).cancel_was_requested() == old(self).cancel_was_requested(),
            final(self).spec_failure() == old(self).spec_failure(),
            final(self).map_view() == spec_platform_step(old(self).map_view(), *event).0,
            r.deep_view() == spec_platform_step(old(self).map_view(), *event).1,
    {
        translate_platform(event, &mut self.map)
    }

    /// Pumps one inbound backend command through the translator and returns
    /// the platform actions to perform. The table is only consulted, never
    /// changed.
    pub fn handle_backend_command(&mut self, command: &BackendCommand) -> (r: Result<
        Vec<PlatformAction>,
        UnknownChannelError,
    >)
        requires
            old(self).spec_state() is Running,
            old(self).wf(),
        ensures
            *final(self) == *old(self),
            r is Ok <==> spec_backend_ok(old(self).map_view(), *command),
            r matches Ok(actions) ==> actions.deep_view() == spec_backend_actions(
                old(self).map_view(),
                *command,
            ),
    {
        translate_backend(command, &self.map)
    }

    /// Reacts to the termination of one session loop. Whatever the cause,
    /// the bridge must not go on half-connected: it starts draining,
    /// records the cause, and asks the remaining loop to cancel.
    pub fn on_session_terminated(&mut self, side: SessionSide, error: SessionError)
        requires
            old(self).spec_state() is Running,
            old(self).wf(),
        ensures
            final(self).wf(),
            final(self).spec_state() is Draining,
            final(self).cancel_was_requested(),
            final(self).spec_failure() == Some((side, error)),
            final(self).map_view() == old(self).map_view(),
    {
        self.state = BridgeState::Draining;
        self.cancel_requested = true;
        self.failure = Some((side, error));
    }

    /// Reacts to an external shutdown signal: both loops are asked to
    /// cancel cooperatively and the bridge starts draining, with no failure
    /// recorded.
    pub fn request_shutdown(&mut self)
        requires
            old(self).spec_state() is Running,
            old(self).wf(),
        ensures
            final(self).wf(),
            final(self).spec_state() is Draining,
            final(self).cancel_was_requested(),
            final(self).spec_failure() == old(self).spec_failure(),
            final(self).map_view() == old(self).map_view(),
    {
        self.state = BridgeState::Draining;
        self.cancel_requested = true;
    }

    /// Acknowledges that the remaining loop has unwound: the bridge is
    /// terminal and every resource may be released.
    pub fn on_drained(&mut self)
        requires
            old(self).spec_state() is Draining,
            old(self).wf(),
        ensures
            final(self).wf(),
            final(self).spec_state() is Stopped,
            final(self).cancel_was_requested() == old(self).cancel_was_requested(),
            final(self).spec_failure() == old(self).spec_failure(),
            final(self).map_view() == old(self).map_view(),
    {
        self.state = BridgeState::Stopped;
    }

    /// The current lifecycle state.
    pub fn state(&self) -> (s: BridgeState)
        ensures
            s == self.spec_state(),
    {
        self.state
    }

    /// Whether the remaining session loop has been asked to cancel.
    pub fn cancel_requested(&self) -> (c: bool)
        ensures
            c == self.cancel_was_requested(),
    {
        self.cancel_requested
    }

    /// The recorded cause of the teardown, if any.
    pub fn failure(&self) -> (f: Option<(SessionSide, SessionError)>)
        ensures
            f == self.spec_failure(),
    {
        self.failure
    }

    /// The backend identity currently bound to a platform channel; how the
    /// surrounding process inspects the table it owns.
    pub fn lookup_backend(&self, guild_id: &String, platform_channel_id: &String) -> (r: Option<
        String,
    >)
        ensures
            r.deep_view() == crate::channel_map::spec_lookup_backend(
                self.map_view(),
                guild_id@,
                platform_channel_id@,
            ),
    {
        self.map.lookup_backend(guild_id, platform_channel_id)
    }
}

} // verus!
