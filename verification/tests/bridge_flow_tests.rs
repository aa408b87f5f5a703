use seabird_discord_backend::channel_map::ChannelMap;
use seabird_discord_backend::coordinator::{BridgeCoordinator, BridgeState, SessionSide};
use seabird_discord_backend::errors::{ConnectError, SessionError, UnknownChannelError};
use seabird_discord_backend::events::{
    BackendCommand, BackendEvent, ChannelIdentity, PlatformAction, PlatformEvent,
};
use seabird_discord_backend::translator::{translate_backend, translate_platform};

fn channel(platform: &str, backend: &str) -> ChannelIdentity {
    ChannelIdentity {
        platform_channel_id: platform.to_string(),
        backend_channel_id: backend.to_string(),
    }
}

#[test]
fn derived_identity_joins_guild_and_channel() {
    let id = ChannelIdentity::derive(&"g1".to_string(), &"c1".to_string());
    assert_eq!(id.platform_channel_id, "c1");
    assert_eq!(id.backend_channel_id, "g1/c1");
}

#[test]
fn guild_join_maps_every_channel_in_order() {
    let mut map = ChannelMap::new();
    let join = PlatformEvent::GuildJoin {
        guild_id: "g1".to_string(),
        channels: vec![channel("c1", "b1"), channel("c2", "b2"), channel("c3", "b3")],
    };
    let events = translate_platform(&join, &mut map);
    assert_eq!(
        events,
        vec![
            BackendEvent::ChannelJoin { backend_channel_id: "b1".to_string() },
            BackendEvent::ChannelJoin { backend_channel_id: "b2".to_string() },
            BackendEvent::ChannelJoin { backend_channel_id: "b3".to_string() },
        ]
    );
    for (p, b) in [("c1", "b1"), ("c2", "b2"), ("c3", "b3")] {
        assert_eq!(
            map.lookup_backend(&"g1".to_string(), &p.to_string()),
            Some(b.to_string())
        );
    }
}

#[test]
fn guild_leave_unmaps_and_emits_one_leave_per_mapped_channel() {
    let mut map = ChannelMap::new();
    let join = PlatformEvent::GuildJoin {
        guild_id: "g1".to_string(),
        channels: vec![channel("c1", "b1"), channel("c2", "b2")],
    };
    translate_platform(&join, &mut map);
    let leave = PlatformEvent::GuildLeave {
        guild_id: "g1".to_string(),
        channels: vec!["c1".to_string(), "c2".to_string(), "never-joined".to_string()],
    };
    let events = translate_platform(&leave, &mut map);
    assert_eq!(
        events,
        vec![
            BackendEvent::ChannelLeave { backend_channel_id: "b1".to_string() },
            BackendEvent::ChannelLeave { backend_channel_id: "b2".to_string() },
        ]
    );
    assert!(map.lookup_backend(&"g1".to_string(), &"c1".to_string()).is_none());
    assert!(map.lookup_backend(&"g1".to_string(), &"c2".to_string()).is_none());
    assert_eq!(map.len(), 0);
}

#[test]
fn guild_join_replay_changes_no_mapping() {
    let mut map = ChannelMap::new();
    let join = PlatformEvent::GuildJoin {
        guild_id: "g1".to_string(),
        channels: vec![channel("c1", "b1"), channel("c2", "b2")],
    };
    translate_platform(&join, &mut map);
    assert_eq!(map.len(), 2);
    // the platform re-delivers the same guild state after a reconnect
    let events = translate_platform(&join, &mut map);
    assert_eq!(
        events,
        vec![
            BackendEvent::ChannelJoin { backend_channel_id: "b1".to_string() },
            BackendEvent::ChannelJoin { backend_channel_id: "b2".to_string() },
        ]
    );
    assert_eq!(map.len(), 2);
    assert_eq!(
        map.lookup_backend(&"g1".to_string(), &"c1".to_string()),
        Some("b1".to_string())
    );
    assert_eq!(
        map.lookup_backend(&"g1".to_string(), &"c2".to_string()),
        Some("b2".to_string())
    );
}

#[test]
fn message_for_unmapped_channel_is_dropped() {
    let mut map = ChannelMap::new();
    let msg = PlatformEvent::Message {
        channel_id: "c1".to_string(),
        author_id: "u1".to_string(),
        text: "hi".to_string(),
        message_id: "m1".to_string(),
    };
    let events = translate_platform(&msg, &mut map);
    assert!(events.is_empty());
}

#[test]
fn end_to_end_ready_join_message() {
    let mut map = ChannelMap::new();
    let ready = PlatformEvent::Ready { user: "bridge".to_string() };
    let events = translate_platform(&ready, &mut map);
    assert!(events.is_empty());

    let join = PlatformEvent::GuildJoin {
        guild_id: "g1".to_string(),
        channels: vec![channel("c1", "b1")],
    };
    let mut all = translate_platform(&join, &mut map);

    let msg = PlatformEvent::Message {
        channel_id: "c1".to_string(),
        author_id: "u1".to_string(),
        text: "hi".to_string(),
        message_id: "m1".to_string(),
    };
    all.extend(translate_platform(&msg, &mut map));

    assert_eq!(
        all,
        vec![
            BackendEvent::ChannelJoin { backend_channel_id: "b1".to_string() },
            BackendEvent::Message {
                backend_channel_id: "b1".to_string(),
                author: "u1".to_string(),
                text: "hi".to_string(),
            },
        ]
    );
}

#[test]
fn end_to_end_leave_then_message_yields_nothing() {
    let mut map = ChannelMap::new();
    let join = PlatformEvent::GuildJoin {
        guild_id: "g1".to_string(),
        channels: vec![channel("c1", "b1")],
    };
    translate_platform(&join, &mut map);

    let leave = PlatformEvent::GuildLeave {
        guild_id: "g1".to_string(),
        channels: vec!["c1".to_string()],
    };
    let events = translate_platform(&leave, &mut map);
    assert_eq!(
        events,
        vec![BackendEvent::ChannelLeave { backend_channel_id: "b1".to_string() }]
    );

    let msg = PlatformEvent::Message {
        channel_id: "c1".to_string(),
        author_id: "u1".to_string(),
        text: "hi again".to_string(),
        message_id: "m2".to_string(),
    };
    let events = translate_platform(&msg, &mut map);
    assert!(events.is_empty());
}

#[test]
fn ready_resets_all_mappings() {
    let mut map = ChannelMap::new();
    let join = PlatformEvent::GuildJoin {
        guild_id: "g1".to_string(),
        channels: vec![channel("c1", "b1")],
    };
    translate_platform(&join, &mut map);
    let ready = PlatformEvent::Ready { user: "bridge".to_string() };
    let events = translate_platform(&ready, &mut map);
    assert!(events.is_empty());
    assert_eq!(map.len(), 0);
    assert!(map.lookup_backend(&"g1".to_string(), &"c1".to_string()).is_none());
}

#[test]
fn outbound_send_to_mapped_channel_produces_one_action() {
    let mut map = ChannelMap::new();
    let join = PlatformEvent::GuildJoin {
        guild_id: "g1".to_string(),
        channels: vec![channel("c1", "b1")],
    };
    translate_platform(&join, &mut map);
    let cmd = BackendCommand::SendMessage {
        backend_channel_id: "b1".to_string(),
        text: "hello".to_string(),
    };
    let actions = translate_backend(&cmd, &map);
    assert_eq!(
        actions,
        Ok(vec![PlatformAction::SendMessage {
            channel_id: "c1".to_string(),
            text: "hello".to_string(),
        }])
    );
}

#[test]
fn outbound_send_to_unmapped_channel_fails() {
    let map = ChannelMap::new();
    let cmd = BackendCommand::SendMessage {
        backend_channel_id: "b1".to_string(),
        text: "hello".to_string(),
    };
    let actions = translate_backend(&cmd, &map);
    assert_eq!(actions, Err(UnknownChannelError));
}

#[test]
fn typing_command_is_a_forward_compatible_noop() {
    let map = ChannelMap::new();
    let cmd = BackendCommand::Typing { backend_channel_id: "b1".to_string() };
    let actions = translate_backend(&cmd, &map);
    assert_eq!(actions, Ok(vec![]));
}

#[test]
fn coordinator_runs_only_when_both_sessions_come_up() {
    let mut bridge = BridgeCoordinator::new();
    assert_eq!(bridge.state(), BridgeState::Starting);
    assert_eq!(bridge.start(Ok(()), Ok(())), Ok(()));
    assert_eq!(bridge.state(), BridgeState::Running);
}

#[test]
fn coordinator_fails_to_start_when_either_connect_fails() {
    let mut bridge = BridgeCoordinator::new();
    assert_eq!(bridge.start(Err(ConnectError::Fatal), Ok(())), Err(ConnectError::Fatal));
    assert_eq!(bridge.state(), BridgeState::Stopped);

    let mut bridge = BridgeCoordinator::new();
    assert_eq!(bridge.start(Ok(()), Err(ConnectError::Fatal)), Err(ConnectError::Fatal));
    assert_eq!(bridge.state(), BridgeState::Stopped);
}

#[test]
fn coordinator_pumps_events_while_running() {
    let mut bridge = BridgeCoordinator::new();
    assert_eq!(bridge.start(Ok(()), Ok(())), Ok(()));
    let join = PlatformEvent::GuildJoin {
        guild_id: "g1".to_string(),
        channels: vec![channel("c1", "b1")],
    };
    let events = bridge.handle_platform_event(&join);
    assert_eq!(
        events,
        vec![BackendEvent::ChannelJoin { backend_channel_id: "b1".to_string() }]
    );
    assert_eq!(
        bridge.lookup_backend(&"g1".to_string(), &"c1".to_string()),
        Some("b1".to_string())
    );
    let cmd = BackendCommand::SendMessage {
        backend_channel_id: "b1".to_string(),
        text: "hello".to_string(),
    };
    let actions = bridge.handle_backend_command(&cmd);
    assert_eq!(
        actions,
        Ok(vec![PlatformAction::SendMessage {
            channel_id: "c1".to_string(),
            text: "hello".to_string(),
        }])
    );
}

#[test]
fn fatal_gateway_failure_drains_then_stops_the_bridge() {
    let mut bridge = BridgeCoordinator::new();
    assert_eq!(bridge.start(Ok(()), Ok(())), Ok(()));
    assert!(!bridge.cancel_requested());

    bridge.on_session_terminated(SessionSide::Gateway, SessionError::Fatal);
    assert_eq!(bridge.state(), BridgeState::Draining);
    // the ingest loop is asked to cancel even with no pending work
    assert!(bridge.cancel_requested());
    assert_eq!(
        bridge.failure(),
        Some((SessionSide::Gateway, SessionError::Fatal))
    );

    bridge.on_drained();
    assert_eq!(bridge.state(), BridgeState::Stopped);
}

#[test]
fn shutdown_signal_drains_without_recording_a_failure() {
    let mut bridge = BridgeCoordinator::new();
    assert_eq!(bridge.start(Ok(()), Ok(())), Ok(()));
    bridge.request_shutdown();
    assert_eq!(bridge.state(), BridgeState::Draining);
    assert!(bridge.cancel_requested());
    assert_eq!(bridge.failure(), None);
    bridge.on_drained();
    assert_eq!(bridge.state(), BridgeState::Stopped);
}
