use bsync::registry::RoomRegistry;

#[test]
fn rooms_are_entered_and_left() {
    let mut registry: RoomRegistry<u32> = RoomRegistry::new();
    assert!(!registry.contains("a"));
    registry.insert("a".into(), 1);
    registry.insert("b".into(), 2);
    registry.insert("a".into(), 3);
    assert_eq!(*registry.get("a").unwrap(), 1);
    assert_eq!(*registry.get("b").unwrap(), 2);
    assert_eq!(registry.remove("a"), Some(1));
    assert_eq!(registry.remove("a"), None);
    assert!(!registry.contains("a") && registry.contains("b"));
}

#[test]
fn missing_room_is_named() {
    let registry: RoomRegistry<u32> = RoomRegistry::new();
    assert_eq!(registry.get("work").unwrap_err().message(), "room 'work' not found");
}

#[test]
fn all_rooms_are_left_at_once() {
    let mut registry: RoomRegistry<u32> = RoomRegistry::new();
    for i in 0..3u32 {
        registry.insert(format!("room {i}"), i);
    }
    let mut handles = registry.drain();
    handles.sort();
    assert_eq!(handles, vec![0, 1, 2]);
    assert!(!registry.contains("room 0"));
    assert!(registry.drain().is_empty());
}
