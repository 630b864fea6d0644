//! Rooms.

use simple_im::clock::{millis, Instant};
use simple_im::rooms::{RoomError, RoomStore};

const NOW: Instant = 1_000_000_000;

#[test]
fn create_returns_uuid_format() {
    let mut store = RoomStore::new();
    let id = store.create();
    let parts: Vec<&str> = id.split('-').collect();
    assert_eq!(
        parts.len(),
        5,
        "UUID must have 5 hyphen-separated groups: {id}"
    );
    assert_eq!(parts[0].len(), 8);
    assert_eq!(parts[1].len(), 4);
    assert_eq!(parts[2].len(), 4);
    assert_eq!(parts[3].len(), 4);
    assert_eq!(parts[4].len(), 12);
    // Version nibble must be '4'
    assert!(parts[2].starts_with('4'), "version nibble must be 4: {id}");
}

#[test]
fn join_unknown_room_returns_not_found() {
    let mut store = RoomStore::new();
    assert!(matches!(
        store.join("no-such-room", "alice", None, NOW),
        Err(RoomError::RoomNotFound)
    ));
}

#[test]
fn join_and_members_happy_path() {
    let mut store = RoomStore::new();
    let id = store.create();
    store.join(&id, "alice", None, NOW).unwrap();
    let names = store.join(&id, "bob", None, NOW).unwrap();
    assert!(names.contains(&"alice".to_string()));
    assert!(names.contains(&"bob".to_string()));
}

#[test]
fn members_requires_caller_membership() {
    let mut store = RoomStore::new();
    let id = store.create();
    store.join(&id, "alice", None, NOW).unwrap();
    assert!(matches!(
        store.members(&id, "bob", NOW),
        Err(RoomError::NotMember)
    ));
    assert!(store.members(&id, "alice", NOW).is_ok());
}

#[test]
fn leave_is_idempotent() {
    let mut store = RoomStore::new();
    let id = store.create();
    store.join(&id, "alice", None, NOW).unwrap();
    store.leave(&id, "alice", NOW);
    store.leave(&id, "alice", NOW); // second leave is a no-op
    store.leave("phantom-room", "alice", NOW); // missing room is a no-op
}

#[test]
fn shares_room_true_when_both_present() {
    let mut store = RoomStore::new();
    let id = store.create();
    store.join(&id, "alice", None, NOW).unwrap();
    store.join(&id, "bob", None, NOW).unwrap();
    assert!(store.shares_room("alice", "bob", NOW));
    assert!(store.shares_room("bob", "alice", NOW));
}

#[test]
fn shares_room_false_after_leave() {
    let mut store = RoomStore::new();
    let id = store.create();
    store.join(&id, "alice", None, NOW).unwrap();
    store.join(&id, "bob", None, NOW).unwrap();
    store.leave(&id, "bob", NOW);
    assert!(!store.shares_room("alice", "bob", NOW));
}

#[test]
fn ttl_expiry_removes_member() {
    let mut store = RoomStore::new();
    let id = store.create();
    // 0-second TTL = already expired
    store.join(&id, "alice", Some(0), NOW).unwrap();
    let later = NOW + millis(1);
    // members() should prune alice
    assert!(matches!(
        store.members(&id, "alice", later),
        Err(RoomError::NotMember)
    ));
    assert!(!store.shares_room("alice", "bob", later));
}

#[test]
fn rejoin_resets_ttl() {
    let mut store = RoomStore::new();
    let id = store.create();
    // Join with 0-second TTL (immediately expired)
    store.join(&id, "alice", Some(0), NOW).unwrap();
    let later = NOW + millis(1);
    // Re-join with normal TTL — should reset
    let names = store.join(&id, "alice", Some(300), later).unwrap();
    assert!(
        names.contains(&"alice".to_string()),
        "alice should be back after rejoin"
    );
    assert!(store.members(&id, "alice", later).is_ok());
}
