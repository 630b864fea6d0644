//! Governors and grants.

use simple_im::clock::{secs, Duration, Instant};
use simple_im::error::Error;
use simple_im::trust::{ApproveGrantRequest, GrantDirection, TrustChain};
use simple_im::types::GovernorToken;
use std::cell::Cell;
use std::rc::Rc;

fn controlled_chain() -> (TrustChain<impl Fn() -> Instant>, Rc<Cell<Duration>>) {
    let offset = Rc::new(Cell::new(0));
    let offset2 = Rc::clone(&offset);
    let base: Instant = 1_000_000_000;
    let chain = TrustChain::with_clock(move || base + offset2.get());
    (chain, offset)
}

/// Install_governor creates a governor token; invalid gov token → AuthFailed.
#[test]
fn ac_tok_1_install_governor_and_forged_rejected() {
    let (mut chain, _) = controlled_chain();
    let gov = chain.install_governor(None);
    assert!(chain.validate_governor_token(&gov).is_ok());

    let forged = GovernorToken("not-a-real-gov".into());
    assert!(matches!(
        chain.validate_governor_token(&forged),
        Err(Error::AuthFailed)
    ));
}

/// Check_grant with no covering grant → NoGrant.
#[test]
fn ac_tok_5_no_grant_returns_no_grant() {
    let (chain, _) = controlled_chain();
    assert!(matches!(
        chain.check_grant("alice", "bob"),
        Err(Error::NoGrant)
    ));
}

/// Temporary grant expires → GrantExpired after expiry; permanent grant survives.
#[test]
fn ac_tok_6_temporary_grant_expires_permanent_does_not() {
    let (mut chain, offset) = controlled_chain();
    let gov = chain.install_governor(None);

    chain
        .approve_grant(&gov, "alice", "bob", Some(secs(60)))
        .unwrap();
    assert!(chain.check_grant("alice", "bob").is_ok());

    offset.set(secs(61));
    assert!(matches!(
        chain.check_grant("alice", "bob"),
        Err(Error::GrantExpired)
    ));

    chain.approve_grant(&gov, "carol", "dave", None).unwrap();
    offset.set(secs(10_000));
    assert!(chain.check_grant("carol", "dave").is_ok());
}

/// Revoking governor (via revoke_all_governors) prevents further actions;
/// grants it issued survive to own expiry.
#[test]
fn ac_tok_7_revoke_governor_grants_survive() {
    let (mut chain, _) = controlled_chain();
    let gov = chain.install_governor(None);

    chain.approve_grant(&gov, "alice", "bob", None).unwrap();

    chain.revoke_all_governors();

    assert!(matches!(
        chain.approve_grant(&gov, "alice", "carol", None),
        Err(Error::AuthFailed)
    ));
    assert!(chain.check_grant("alice", "bob").is_ok());
}

/// Offline governor cannot mint tokens or approve grants even before token expiry.
#[test]
fn ac_sec_2_offline_governor_rejected() {
    let (mut chain, _) = controlled_chain();
    let gov = chain.install_governor(None);

    chain.set_governor_online(&gov, false);

    assert!(matches!(
        chain.approve_grant(&gov, "alice", "bob", None),
        Err(Error::AuthFailed)
    ));
}

/// Grant (A, B) authorizes both A→B and B→A (symmetric).
#[test]
fn criterion_9_grants_are_symmetric() {
    let (mut chain, _) = controlled_chain();
    let gov = chain.install_governor(None);

    chain.approve_grant(&gov, "alice", "bob", None).unwrap();

    assert!(chain.check_grant("alice", "bob").is_ok());
    assert!(chain.check_grant("bob", "alice").is_ok());
}

/// AToB grant covers alice→bob but blocks bob→alice.
#[test]
fn direction_a_to_b_blocks_reverse() {
    let (mut chain, _) = controlled_chain();
    let gov = chain.install_governor(None);

    chain
        .approve_grant_req(
            &gov,
            "alice",
            "bob",
            None,
            ApproveGrantRequest {
                direction: Some(GrantDirection::AToB),
                ..Default::default()
            },
        )
        .unwrap();

    assert!(chain.check_grant_directed("alice", "bob").is_ok());
    assert!(matches!(
        chain.check_grant_directed("bob", "alice"),
        Err(Error::NoGrant)
    ));
}

/// Grant survives identity rotation (simulates /listen reconnect).
///
/// Scenario: governor approves a grant keyed on (name="alice", name="bob") with initial
/// identities ("token-alice-1", "token-bob-1").  Alice then reconnects and gets a new
/// identity "token-alice-2" while her name stays "alice".
/// check_grant_directed_with_names MUST still pass when called with the new identity
/// but with the stable names, and MUST fail if names are not supplied (identity only).
#[test]
fn fp1_grant_survives_identity_rotation() {
    let (mut chain, _) = controlled_chain();
    let gov = chain.install_governor(None);

    // Approve a name-keyed grant: identity-based fields use the initial tokens.
    chain
        .approve_grant_req(
            &gov,
            "token-alice-1", // identity_a (initial listen token for alice)
            "token-bob-1",   // identity_b (initial listen token for bob)
            None,
            ApproveGrantRequest {
                name_a: Some("alice".to_string()),
                name_b: Some("bob".to_string()),
                ..Default::default()
            },
        )
        .unwrap();

    // Sanity: original identities work via identity path (name path takes precedence
    // when names are supplied).
    assert!(
        chain
            .check_grant_directed_with_names(
                "token-alice-1",
                "token-bob-1",
                Some("alice"),
                Some("bob"),
            )
            .is_ok(),
        "original identity+name pair should pass"
    );

    // Simulate reconnect: alice re-mints a new listen token → new identity.
    // Name stays "alice".  Bob's identity is unchanged.
    let new_alice_identity = "token-alice-2";

    // NAME-based check MUST PASS: the grant covers (alice, bob) by name.
    assert!(
        chain
            .check_grant_directed_with_names(
                new_alice_identity,
                "token-bob-1",
                Some("alice"),
                Some("bob"),
            )
            .is_ok(),
        "name-keyed grant must survive alice identity rotation"
    );

    // Symmetric direction: bob→alice with new identity must also pass.
    assert!(
        chain
            .check_grant_directed_with_names(
                "token-bob-1",
                new_alice_identity,
                Some("bob"),
                Some("alice"),
            )
            .is_ok(),
        "symmetric direction must survive identity rotation"
    );

    // Pure identity check (no names): MUST FAIL because stored identities are stale.
    assert!(
        matches!(
            chain.check_grant_directed(new_alice_identity, "token-bob-1"),
            Err(Error::NoGrant)
        ),
        "identity-only check with rotated identity must return NoGrant"
    );

    // Wrong name: MUST FAIL.
    assert!(
        matches!(
            chain.check_grant_directed_with_names(
                new_alice_identity,
                "token-bob-1",
                Some("wrong-name"),
                Some("bob"),
            ),
            Err(Error::NoGrant)
        ),
        "wrong name must return NoGrant"
    );
}

/// Name-keyed grant respects directed grants after rotation.
#[test]
fn fp1_directed_grant_survives_identity_rotation() {
    let (mut chain, _) = controlled_chain();
    let gov = chain.install_governor(None);

    // AToB grant: only alice→bob, not bob→alice.
    chain
        .approve_grant_req(
            &gov,
            "token-alice-1",
            "token-bob-1",
            None,
            ApproveGrantRequest {
                direction: Some(GrantDirection::AToB),
                name_a: Some("alice".to_string()),
                name_b: Some("bob".to_string()),
                ..Default::default()
            },
        )
        .unwrap();

    let new_alice = "token-alice-99";

    // alice→bob with new identity: PASS.
    assert!(
        chain
            .check_grant_directed_with_names(
                new_alice,
                "token-bob-1",
                Some("alice"),
                Some("bob"),
            )
            .is_ok(),
        "AToB grant must pass alice→bob after rotation"
    );

    // bob→alice: FAIL (direction blocks it).
    assert!(
        matches!(
            chain.check_grant_directed_with_names(
                "token-bob-1",
                new_alice,
                Some("bob"),
                Some("alice"),
            ),
            Err(Error::NoGrant)
        ),
        "AToB grant must block bob→alice even after rotation"
    );
}
