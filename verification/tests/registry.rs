//! The registry of names.

use simple_im::clock::{secs, Duration, Instant};
use simple_im::error::Error;
use simple_im::registry::{AgentIdentity, PresenceScope, Registry};
use std::cell::Cell;
use std::rc::Rc;

fn controlled_registry(ttl: Duration) -> (Registry<impl Fn() -> Instant>, Rc<Cell<Duration>>) {
    let offset = Rc::new(Cell::new(0));
    let offset2 = Rc::clone(&offset);
    let base: Instant = 1_000_000_000;
    let registry = Registry::with_clock(ttl, move || base + offset2.get());
    (registry, offset)
}

/// Register with a valid identity → success; name reports online.
#[test]
fn ac_reg_1_register_valid_identity_succeeds() {
    let (mut reg, _) = controlled_registry(secs(30));
    let result = reg.register(
        "alice",
        AgentIdentity::valid("id-alice"),
        PresenceScope::GrantScoped,
    );
    assert!(result.is_ok());
    assert!(reg.is_online("alice"));
}

/// Register a live name with a different identity → NameInUse; original intact.
#[test]
fn ac_reg_2_register_different_identity_while_live_returns_name_in_use() {
    let (mut reg, _) = controlled_registry(secs(30));
    reg.register(
        "alice",
        AgentIdentity::valid("id-alice"),
        PresenceScope::GrantScoped,
    )
    .unwrap();
    let result = reg.register(
        "alice",
        AgentIdentity::valid("id-bob"),
        PresenceScope::GrantScoped,
    );
    assert!(matches!(result, Err(Error::NameInUse)));
    assert!(reg.is_online("alice"));
}

/// Re-register a live name with the same identity → success (idempotent reconnect).
#[test]
fn ac_reg_3_re_register_same_identity_is_idempotent() {
    let (mut reg, _) = controlled_registry(secs(30));
    reg.register(
        "alice",
        AgentIdentity::valid("id-alice"),
        PresenceScope::GrantScoped,
    )
    .unwrap();
    let result = reg.register(
        "alice",
        AgentIdentity::valid("id-alice"),
        PresenceScope::GrantScoped,
    );
    assert!(result.is_ok());
    assert!(reg.is_online("alice"));
}

/// Register then deregister → name free; re-register by any identity succeeds.
#[test]
fn ac_reg_4_deregister_frees_name() {
    let (mut reg, _) = controlled_registry(secs(30));
    reg.register(
        "alice",
        AgentIdentity::valid("id-alice"),
        PresenceScope::GrantScoped,
    )
    .unwrap();
    reg.deregister("alice", AgentIdentity::valid("id-alice"))
        .unwrap();
    let result = reg.register(
        "alice",
        AgentIdentity::valid("id-bob"),
        PresenceScope::GrantScoped,
    );
    assert!(result.is_ok());
}

/// Lapsed registration reaped on next reap pass; name offline and free.
#[test]
fn ac_reg_5_lapsed_registration_reaped() {
    let ttl = secs(30);
    let (mut reg, offset) = controlled_registry(ttl);
    reg.register(
        "alice",
        AgentIdentity::valid("id-alice"),
        PresenceScope::GrantScoped,
    )
    .unwrap();
    offset.set(ttl + secs(1));
    reg.reap();
    assert!(!reg.is_online("alice"));
    assert!(
        reg.register(
            "alice",
            AgentIdentity::valid("id-new"),
            PresenceScope::GrantScoped
        )
        .is_ok()
    );
}

/// Register with an invalid identity → AuthFailed; no registration created.
#[test]
fn ac_reg_6_invalid_identity_returns_auth_failed() {
    let (mut reg, _) = controlled_registry(secs(30));
    let result = reg.register(
        "alice",
        AgentIdentity::invalid(),
        PresenceScope::GrantScoped,
    );
    assert!(matches!(result, Err(Error::AuthFailed)));
    assert!(!reg.is_online("alice"));
}

/// Deregister by non-owner → Forbidden; original registration intact.
#[test]
fn criterion_7_deregister_by_non_owner_returns_forbidden() {
    let (mut reg, _) = controlled_registry(secs(30));
    reg.register(
        "alice",
        AgentIdentity::valid("id-alice"),
        PresenceScope::GrantScoped,
    )
    .unwrap();
    let result = reg.deregister("alice", AgentIdentity::valid("id-intruder"));
    assert!(matches!(result, Err(Error::Forbidden)));
    assert!(reg.is_online("alice"));
}
