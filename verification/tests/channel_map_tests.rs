use seabird_discord_backend::channel_map::ChannelMap;
use seabird_discord_backend::errors::ConflictError;

#[test]
fn empty_map_resolves_nothing() {
    let map = ChannelMap::new();
    assert_eq!(map.len(), 0);
    assert!(map.lookup_backend(&"g1".to_string(), &"c1".to_string()).is_none());
    assert!(map.lookup_platform(&"b1".to_string()).is_none());
    assert!(map.resolve_backend(&"c1".to_string()).is_none());
}

#[test]
fn register_then_lookup_both_directions() {
    let mut map = ChannelMap::new();
    let r = map.register(&"g1".to_string(), &"c1".to_string(), &"b1".to_string());
    assert_eq!(r, Ok(()));
    assert_eq!(
        map.lookup_backend(&"g1".to_string(), &"c1".to_string()),
        Some("b1".to_string())
    );
    assert_eq!(
        map.lookup_platform(&"b1".to_string()),
        Some(("g1".to_string(), "c1".to_string()))
    );
    assert_eq!(map.resolve_backend(&"c1".to_string()), Some("b1".to_string()));
    assert!(map.lookup_backend(&"g2".to_string(), &"c1".to_string()).is_none());
}

#[test]
fn register_is_idempotent() {
    let mut map = ChannelMap::new();
    assert_eq!(
        map.register(&"g1".to_string(), &"c1".to_string(), &"b1".to_string()),
        Ok(())
    );
    assert_eq!(map.len(), 1);
    assert_eq!(
        map.register(&"g1".to_string(), &"c1".to_string(), &"b1".to_string()),
        Ok(())
    );
    assert_eq!(map.len(), 1);
    assert_eq!(
        map.lookup_backend(&"g1".to_string(), &"c1".to_string()),
        Some("b1".to_string())
    );
}

#[test]
fn conflicting_backend_identity_overwrites_and_reports() {
    let mut map = ChannelMap::new();
    assert_eq!(
        map.register(&"g1".to_string(), &"c1".to_string(), &"b1".to_string()),
        Ok(())
    );
    let r = map.register(&"g1".to_string(), &"c2".to_string(), &"b1".to_string());
    assert_eq!(r, Err(ConflictError));
    // last write wins: b1 now belongs to c2 and c1 is unbound
    assert_eq!(
        map.lookup_backend(&"g1".to_string(), &"c2".to_string()),
        Some("b1".to_string())
    );
    assert!(map.lookup_backend(&"g1".to_string(), &"c1".to_string()).is_none());
    assert_eq!(map.len(), 1);
}

#[test]
fn rebinding_a_platform_channel_is_not_a_conflict() {
    let mut map = ChannelMap::new();
    assert_eq!(
        map.register(&"g1".to_string(), &"c1".to_string(), &"b1".to_string()),
        Ok(())
    );
    let r = map.register(&"g1".to_string(), &"c1".to_string(), &"b2".to_string());
    assert_eq!(r, Ok(()));
    assert_eq!(
        map.lookup_backend(&"g1".to_string(), &"c1".to_string()),
        Some("b2".to_string())
    );
    assert!(map.lookup_platform(&"b1".to_string()).is_none());
    assert_eq!(map.len(), 1);
}

#[test]
fn same_backend_identity_in_another_guild_is_kept() {
    let mut map = ChannelMap::new();
    assert_eq!(
        map.register(&"g1".to_string(), &"c1".to_string(), &"b1".to_string()),
        Ok(())
    );
    assert_eq!(
        map.register(&"g2".to_string(), &"c9".to_string(), &"b1".to_string()),
        Ok(())
    );
    assert_eq!(map.len(), 2);
    assert_eq!(
        map.lookup_backend(&"g1".to_string(), &"c1".to_string()),
        Some("b1".to_string())
    );
    assert_eq!(
        map.lookup_backend(&"g2".to_string(), &"c9".to_string()),
        Some("b1".to_string())
    );
}

#[test]
fn unregister_removes_only_its_key() {
    let mut map = ChannelMap::new();
    assert_eq!(
        map.register(&"g1".to_string(), &"c1".to_string(), &"b1".to_string()),
        Ok(())
    );
    assert_eq!(
        map.register(&"g1".to_string(), &"c2".to_string(), &"b2".to_string()),
        Ok(())
    );
    map.unregister(&"g1".to_string(), &"c1".to_string());
    assert!(map.lookup_backend(&"g1".to_string(), &"c1".to_string()).is_none());
    assert_eq!(
        map.lookup_backend(&"g1".to_string(), &"c2".to_string()),
        Some("b2".to_string())
    );
    assert_eq!(map.len(), 1);
}

#[test]
fn unregister_of_absent_key_is_a_noop() {
    let mut map = ChannelMap::new();
    map.unregister(&"g1".to_string(), &"c1".to_string());
    assert_eq!(map.len(), 0);
    assert_eq!(
        map.register(&"g1".to_string(), &"c1".to_string(), &"b1".to_string()),
        Ok(())
    );
    map.unregister(&"g2".to_string(), &"c1".to_string());
    assert_eq!(map.len(), 1);
}

#[test]
fn clear_empties_the_table() {
    let mut map = ChannelMap::new();
    assert_eq!(
        map.register(&"g1".to_string(), &"c1".to_string(), &"b1".to_string()),
        Ok(())
    );
    map.clear();
    assert_eq!(map.len(), 0);
    assert!(map.lookup_backend(&"g1".to_string(), &"c1".to_string()).is_none());
}
