//! Presence by liveness.

use simple_im::clock::{millis, secs, Duration, Instant};
use simple_im::presence::{PresenceModule, PresenceStatus, DEFAULT_LIVENESS_WINDOW};
use simple_im::registry::{ParticipantIdentity, PresenceScope};
use std::cell::Cell;
use std::rc::Rc;

fn controlled_module(
    ttl: Duration,
) -> (PresenceModule<impl Fn() -> Instant>, Rc<Cell<Duration>>) {
    let offset = Rc::new(Cell::new(0));
    let offset2 = Rc::clone(&offset);
    let base: Instant = 1_000_000_000;
    let module = PresenceModule::with_clock(ttl, move || base + offset2.get());
    (module, offset)
}

/// Agent within liveness window → presence query returns Online.
#[test]
fn criterion_1_agent_within_window_is_online() {
    let (mut pm, _) = controlled_module(secs(5));
    pm.register(
        "alice",
        ParticipantIdentity::valid("id-alice"),
        PresenceScope::GrantScoped,
    )
    .unwrap();
    assert_eq!(pm.query("alice"), PresenceStatus::Online);
}

/// Agent past liveness window → presence query returns Offline.
#[test]
fn criterion_2_agent_past_window_is_offline() {
    let ttl = secs(5);
    let (mut pm, offset) = controlled_module(ttl);
    pm.register(
        "alice",
        ParticipantIdentity::valid("id-alice"),
        PresenceScope::GrantScoped,
    )
    .unwrap();
    offset.set(ttl + millis(1));
    assert_eq!(pm.query("alice"), PresenceStatus::Offline);
}

/// Liveness window configurable at construction; default 30s; injectable clock works.
#[test]
fn criterion_3_configurable_window_and_injectable_clock() {
    let _pm_default = PresenceModule::new(DEFAULT_LIVENESS_WINDOW);

    let small_ttl = millis(100);
    let (mut pm, offset) = controlled_module(small_ttl);
    pm.register(
        "bob",
        ParticipantIdentity::valid("id-bob"),
        PresenceScope::GrantScoped,
    )
    .unwrap();
    assert_eq!(pm.query("bob"), PresenceStatus::Online);
    offset.set(small_ttl + millis(1));
    assert_eq!(pm.query("bob"), PresenceStatus::Offline);
}

/// Liveness lapse drives registry reap; lapsed name is free for re-registration.
#[test]
fn criterion_4_lapse_drives_reap_name_freed() {
    let ttl = secs(5);
    let (mut pm, offset) = controlled_module(ttl);
    pm.register(
        "alice",
        ParticipantIdentity::valid("id-alice"),
        PresenceScope::GrantScoped,
    )
    .unwrap();
    offset.set(ttl + millis(1));
    assert_eq!(pm.query("alice"), PresenceStatus::Offline);
    assert!(
        pm.register(
            "alice",
            ParticipantIdentity::valid("id-new"),
            PresenceScope::GrantScoped
        )
        .is_ok()
    );
}

/// Presence query for never-registered name → Offline (not an error, not RecipientUnknown).
#[test]
fn criterion_5_never_registered_name_is_offline() {
    let (mut pm, _) = controlled_module(secs(30));
    assert_eq!(pm.query("nonexistent"), PresenceStatus::Offline);
}
