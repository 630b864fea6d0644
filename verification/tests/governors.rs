//! Governors, elections, transfers and what a grant allows.

use simple_im::clock::{secs, Instant, Moment};
use simple_im::config::Settings;
use simple_im::delivery::{
    ClaimOutcome, ClaimResolution, DeliveryHub, Effect, MediationDecision, MediationResult, StoreWrite,
};
use simple_im::error::Error;
use simple_im::persistence::{PersistedGrant, PersistedToken};
use simple_im::trust::table::TrustTable;
use simple_im::trust::{ApproveGrantRequest, GrantDirection, GrantMediation};
use simple_im::types::{GovernorToken, ParticipantToken, Payload};

const NOW: Instant = 1_000_000_000_000_000;

fn now() -> Moment {
    Moment { instant: NOW, system: 1_750_000_000 * 1_000_000_000 }
}

fn later(n: u64) -> Moment {
    Moment { instant: NOW + secs(n), system: now().system + secs(n) as i128 }
}

fn new_hub() -> DeliveryHub {
    DeliveryHub::new(secs(30), Settings::default())
}

/// A participant with a name and a stream.
fn join(hub: &mut DeliveryHub, name: &str) -> String {
    let token = hub.register_participant(now());
    hub.open_listen(Some(&token), None, None, false, false, now()).unwrap();
    hub.announce(&token, name, now()).unwrap();
    token
}

fn election(outcome: ClaimOutcome) -> (String, usize) {
    match outcome {
        ClaimOutcome::Election { claim_id, voters } => (claim_id, voters),
        _ => panic!("no election"),
    }
}

#[test]
fn lone_participant_is_governor_at_once() {
    let mut hub = new_hub();
    let a = join(&mut hub, "alice");
    match hub.claim_governorship(&a, None, now()).unwrap() {
        ClaimOutcome::Granted { governor_token } => {
            let gov = GovernorToken(governor_token);
            assert!(hub.validate_governor_token(&gov, now()).is_ok());
        }
        _ => panic!("not granted"),
    }
}

#[test]
fn claim_needs_a_name() {
    let mut hub = new_hub();
    let a = hub.register_participant(now());
    assert!(matches!(
        hub.claim_governorship(&a, None, now()),
        Err(Error::AnnounceRequired)
    ));
    assert!(hub.claim_governorship("nobody", None, now()).is_err());
}

#[test]
fn election_needs_every_vote() {
    let mut hub = new_hub();
    let a = join(&mut hub, "alice");
    let b = join(&mut hub, "bob");
    let c = join(&mut hub, "carol");
    let (id, voters) = election(hub.claim_governorship(&a, None, now()).unwrap());
    assert_eq!(voters, 2);
    assert!(!hub.has_active_governor());
    assert!(matches!(hub.respond_claim(&a, &id, true, now()), Err(Error::Forbidden)));
    match hub.respond_claim(&b, &id, true, now()).unwrap() {
        ClaimResolution::Waiting { approved, required } => {
            assert_eq!((approved, required), (1, 2));
        }
        _ => panic!("one vote decided"),
    }
    match hub.respond_claim(&c, &id, true, now()).unwrap() {
        ClaimResolution::Established { candidate_name, governor_token } => {
            assert_eq!(candidate_name, "alice");
            let gov = GovernorToken(governor_token);
            assert!(hub.validate_governor_token(&gov, now()).is_ok());
        }
        _ => panic!("no governor"),
    }
    assert!(hub.respond_claim(&c, &id, true, now()).is_err());
}

/// Who has no stream has no vote.
#[test]
fn participants_without_a_stream_do_not_vote() {
    let mut hub = new_hub();
    let a = join(&mut hub, "alice");
    let b = hub.register_participant(now());
    hub.announce(&b, "bob", now()).unwrap();
    assert!(matches!(
        hub.claim_governorship(&a, None, now()),
        Ok(ClaimOutcome::Granted { .. })
    ));
}

#[test]
fn one_rejection_ends_an_election() {
    let mut hub = new_hub();
    let a = join(&mut hub, "alice");
    let b = join(&mut hub, "bob");
    let (id, _) = election(hub.claim_governorship(&a, None, now()).unwrap());
    match hub.respond_claim(&b, &id, false, now()).unwrap() {
        ClaimResolution::Rejected { candidate_name } => assert_eq!(candidate_name, "alice"),
        _ => panic!("not rejected"),
    }
    assert!(!hub.has_active_governor());
    assert!(hub.respond_claim(&b, &id, true, now()).is_err());
}

#[test]
fn claim_to_an_office_is_decided_by_its_holder() {
    let mut hub = new_hub();
    let gov = hub.install_governor(None, now());
    let a = join(&mut hub, "alice");
    let b = join(&mut hub, "bob");
    let id = match hub.claim_governorship(&a, None, now()).unwrap() {
        ClaimOutcome::Transfer { claim_id } => claim_id,
        _ => panic!("no transfer"),
    };
    assert!(matches!(hub.respond_claim(&b, &id, true, now()), Err(Error::Forbidden)));
    match hub.respond_claim(&gov.0, &id, true, now()).unwrap() {
        ClaimResolution::Established { governor_token, .. } => {
            let new = GovernorToken(governor_token);
            assert!(hub.validate_governor_token(&new, now()).is_ok());
            assert!(hub.validate_governor_token(&gov, now()).is_err());
        }
        _ => panic!("no governor"),
    }
}

/// The holder of the office may take as long as it likes.
#[test]
fn claim_to_an_office_does_not_lapse() {
    let mut hub = new_hub();
    let gov = hub.install_governor(None, now());
    let a = join(&mut hub, "alice");
    let id = match hub.claim_governorship(&a, None, now()).unwrap() {
        ClaimOutcome::Transfer { claim_id } => claim_id,
        _ => panic!("no transfer"),
    };
    assert!(matches!(
        hub.respond_claim(&gov.0, &id, true, later(100_000)),
        Ok(ClaimResolution::Established { .. })
    ));
}

#[test]
fn election_lapses() {
    let mut hub = new_hub();
    let a = join(&mut hub, "alice");
    let b = join(&mut hub, "bob");
    let (id, _) = election(hub.claim_governorship(&a, None, now()).unwrap());
    assert!(matches!(
        hub.respond_claim(&b, &id, true, later(30 * 60)),
        Err(Error::BadRequest)
    ));
    assert!(hub.respond_claim(&b, &id, true, now()).is_err());
}

#[test]
fn transfer_is_bound_and_used_once() {
    let mut hub = new_hub();
    let gov = hub.install_governor(None, now());
    let a = join(&mut hub, "alice");
    let b = join(&mut hub, "bob");
    let offer = hub.transfer_governor(&gov, Some("bob"), now()).unwrap();
    assert!(matches!(hub.accept_governor_transfer(&a, &offer), Err(Error::Forbidden)));
    let nameless = hub.register_participant(now());
    assert!(hub.accept_governor_transfer(&nameless, &offer).is_err());
    let new = hub.accept_governor_transfer(&b, &offer).unwrap();
    assert!(hub.validate_governor_token(&new, now()).is_ok());
    assert!(hub.validate_governor_token(&gov, now()).is_err());
    assert!(matches!(
        hub.accept_governor_transfer(&b, &offer),
        Err(Error::RecipientUnknown)
    ));
    let forged = GovernorToken("forged".into());
    assert!(matches!(hub.transfer_governor(&forged, None, now()), Err(Error::AuthFailed)));
}

/// The offer is the hexadecimal form of the bytes that were drawn for it.
#[test]
fn offer_is_made_of_its_bytes() {
    let mut hub = new_hub();
    let gov = hub.install_governor(None, now());
    let bytes: Vec<u8> = (0..16).collect();
    let offer = hub.offer_transfer(&gov, None, &bytes, now()).unwrap();
    assert!(offer.ends_with("000102030405060708090a0b0c0d0e0f"), "{offer}");
    let drawn = hub.transfer_governor(&gov, None, now()).unwrap();
    let again = hub.transfer_governor(&gov, None, now()).unwrap();
    assert_ne!(drawn, again);
}

#[test]
fn reset_leaves_one_governor_and_the_grants() {
    let mut hub = new_hub();
    let first = hub.install_governor(None, now());
    let second = hub.install_governor(None, now());
    let a = join(&mut hub, "alice");
    let b = join(&mut hub, "bob");
    hub.approve_grant(&first, &a, &b, None, now()).unwrap();
    let new = hub.admin_reset_governor(now());
    assert!(hub.validate_governor_token(&first, now()).is_err());
    assert!(hub.validate_governor_token(&second, now()).is_err());
    assert!(hub.validate_governor_token(&new, now()).is_ok());
    let from = ParticipantToken(a);
    assert!(hub.send(&from, "bob", Payload(vec![1]), None, None, now()).is_ok());
}

#[test]
fn governor_refreshes_its_token() {
    let mut hub = new_hub();
    let gov = hub.install_governor(Some(secs(60)), now());
    let new = hub.refresh_governor_token(&gov, now()).unwrap();
    assert!(hub.validate_governor_token(&new, later(59)).is_ok());
    assert!(matches!(
        hub.validate_governor_token(&new, later(61)),
        Err(Error::TokenExpired)
    ));
    assert!(matches!(hub.refresh_governor_token(&gov, now()), Err(Error::AuthFailed)));
}

#[test]
fn inspecting_governor_rules_alone() {
    let mut hub = new_hub();
    let own = hub.install_governor(None, now());
    let other = hub.install_governor(None, now());
    let a = join(&mut hub, "alice");
    let b = join(&mut hub, "bob");
    let req = ApproveGrantRequest {
        mediation: Some(GrantMediation::Inspect),
        ..Default::default()
    };
    hub.approve_grant_req(&own, &a, &b, None, req, now()).unwrap();
    let from = ParticipantToken(a);
    let sent = hub.send(&from, "bob", Payload(vec![7]), None, None, now()).unwrap();
    let id = match sent {
        simple_im::delivery::Ack::PendingMediation { mediation_id } => mediation_id,
        _ => panic!("not held"),
    };
    assert!(matches!(
        hub.resolve_mediation(&other, &id, MediationDecision::Approve, now()),
        Err(Error::Forbidden)
    ));
    assert!(hub.resolve_mediation(&own, &id, MediationDecision::Approve, now()).is_ok());
    assert_eq!(hub.pending_count(&b).unwrap(), 1);
}

// ── Grants ───────────────────────────────────────────────────────────────────

fn table() -> (TrustTable, GovernorToken) {
    let mut t = TrustTable::new();
    let gov = t.install_governor(None, NOW);
    (t, gov)
}

fn allow(t: &mut TrustTable, gov: &GovernorToken, a: &str, b: &str, req: ApproveGrantRequest) -> String {
    t.approve_grant_req(&gov.0, a, b, None, req, NOW).unwrap()
}

#[test]
fn directions_of_a_grant() {
    for (direction, there, back) in [
        (GrantDirection::Symmetric, true, true),
        (GrantDirection::AToB, true, false),
        (GrantDirection::BToA, false, true),
    ] {
        let (mut t, gov) = table();
        let req = ApproveGrantRequest { direction: Some(direction), ..Default::default() };
        allow(&mut t, &gov, "a", "b", req);
        let ask = |from: &str, to: &str| {
            t.check_grant_directed_with_names(from, to, None, None, NOW).is_ok()
        };
        assert_eq!((ask("a", "b"), ask("b", "a")), (there, back));
    }
}

#[test]
fn names_carry_a_grant_to_new_tokens() {
    let (mut t, gov) = table();
    let req = ApproveGrantRequest {
        name_a: Some("alice".into()),
        name_b: Some("bob".into()),
        ..Default::default()
    };
    allow(&mut t, &gov, "1", "2", req);
    let ask = |from: &str, to: &str, a: Option<&str>, b: Option<&str>| {
        t.check_grant_directed_with_names(from, to, a, b, NOW).is_ok()
    };
    assert!(ask("9", "8", Some("alice"), Some("bob")));
    assert!(ask("9", "8", Some("bob"), Some("alice")));
    assert!(!ask("9", "8", Some("alice"), Some("carol")));
    assert!(!ask("9", "8", None, None));
}

#[test]
fn budget_is_spent_and_given_back() {
    let (mut t, gov) = table();
    let req = ApproveGrantRequest { max_messages: Some(1), ..Default::default() };
    let id = allow(&mut t, &gov, "a", "b", req);
    t.consume_grant_message(&id);
    assert!(matches!(
        t.check_grant_directed_with_names("a", "b", None, None, NOW),
        Err(Error::GrantExhausted)
    ));
    t.restore_grant_message(&id);
    assert!(t.check_grant_directed_with_names("a", "b", None, None, NOW).is_ok());
}

#[test]
fn directed_grant_comes_before_a_symmetric_one() {
    let (mut t, gov) = table();
    let symmetric = allow(&mut t, &gov, "a", "b", ApproveGrantRequest::default());
    let req = ApproveGrantRequest {
        direction: Some(GrantDirection::AToB),
        ..Default::default()
    };
    let directed = allow(&mut t, &gov, "a", "b", req);
    let found = |from: &str, to: &str| {
        t.check_grant_directed_with_names(from, to, None, None, NOW).ok().unwrap().id
    };
    assert_eq!(found("a", "b"), directed);
    assert_eq!(found("b", "a"), symmetric);
}

#[test]
fn identifiers_are_numbered() {
    let (mut t, gov) = table();
    assert_eq!(gov.0, "gov-1");
    let grant = allow(&mut t, &gov, "a", "b", ApproveGrantRequest::default());
    assert_eq!(grant, "grant-2");
    assert!(t.remove_grant(&grant));
    assert!(!t.remove_grant(&grant));
    let next = allow(&mut t, &gov, "a", "b", ApproveGrantRequest::default());
    assert_eq!(next, "grant-3");
}

#[test]
fn governor_who_is_offline_is_refused() {
    let (mut t, gov) = table();
    assert!(t.has_online_governor(NOW));
    t.set_governor_online(&gov.0, false);
    assert!(!t.has_online_governor(NOW));
    assert!(!t.is_governor_id_online(&gov.0, NOW));
    assert!(t.has_active_governor());
}

#[test]
fn lists_of_grants() {
    let (mut t, gov) = table();
    let req = ApproveGrantRequest {
        direction: Some(GrantDirection::AToB),
        name_a: Some("alice".into()),
        name_b: Some("bob".into()),
        ..Default::default()
    };
    let id = allow(&mut t, &gov, "1", "2", req);
    let items = t.list_grants_for_name("bob", NOW);
    assert_eq!(items.len(), 1);
    assert_eq!(items[0].id, id);
    assert_eq!(items[0].counterparty, "alice");
    assert!(t.list_grants_for_name("carol", NOW).is_empty());
    assert_eq!(t.list_all_grants(None, NOW).len(), 1);
    assert_eq!(t.grant_governor_id(&id).as_deref(), Some("gov-1"));
    assert_eq!(t.grant_opens_reply_window(&id), Some(true));
    assert_eq!(t.grant_ids_for_handle("alice"), vec![id.clone()]);
    assert!(t.grant_parties(&id).is_some());
    assert!(t.grant_parties("grant-99").is_none());
}

// ── Restart ──────────────────────────────────────────────────────────────────

fn grant_row(id: &str, expires: Option<u64>) -> PersistedGrant {
    PersistedGrant {
        id: id.into(),
        identity_a: "a".into(),
        identity_b: "b".into(),
        direction: "a_to_b".into(),
        mediation: "inspect".into(),
        max_messages: Some(5),
        messages_used: 4,
        conditions: Some("polite".into()),
        opens_reply_window: true,
        expires_at_secs: expires,
        governor_id: "gov-7".into(),
        name_a: None,
        name_b: None,
    }
}

#[test]
fn stored_rows_come_back() {
    let mut t = TrustTable::new();
    let tokens = vec![PersistedToken {
        token: "gov-7".into(),
        identity: "gov-7".into(),
        token_type: "governor".into(),
        expires_at_secs: None,
    }];
    let grants = vec![grant_row("grant-12", None), grant_row("grant-40", Some(1_000))];
    t.load_from_store(tokens, grants, NOW, 2_000);
    assert!(t.verify_governor("gov-7", NOW).is_ok());
    let found = t.check_grant_directed_with_names("a", "b", None, None, NOW).ok().unwrap();
    assert_eq!(found.id, "grant-12");
    assert!(found.opens_reply_window);
    assert_eq!(found.mediation, GrantMediation::Inspect);
    assert_eq!(found.governor_id, "gov-7");
    assert_eq!(found.conditions.as_deref(), Some("polite"));
    assert!(t.check_grant_directed_with_names("b", "a", None, None, NOW).is_err());
    t.consume_grant_message("grant-12");
    assert!(matches!(
        t.check_grant_directed_with_names("a", "b", None, None, NOW),
        Err(Error::GrantExhausted)
    ));
    assert!(t.grant_parties("grant-40").is_none());
    let gov = t.install_governor(None, NOW);
    let number: u64 = gov.0.trim_start_matches("gov-").parse().unwrap();
    assert!(number > 12, "{number}");
}

#[test]
fn stored_expiry_still_holds() {
    let mut t = TrustTable::new();
    t.load_from_store(Vec::new(), vec![grant_row("grant-1", Some(2_060))], NOW, 2_000);
    assert!(t.check_grant_directed_with_names("a", "b", None, None, NOW + secs(59)).is_ok());
    assert!(matches!(
        t.check_grant_directed_with_names("a", "b", None, None, NOW + secs(61)),
        Err(Error::GrantExpired)
    ));
}

#[test]
fn governors_hear_of_claims() {
    let mut hub = new_hub();
    let _gov = hub.install_governor(None, now());
    let a = join(&mut hub, "alice");
    let _ = hub.take_effects();
    let _ = hub.claim_governorship(&a, None, now()).unwrap();
    let told = hub.take_effects().into_iter().any(
        |e| matches!(&e, Effect::Governors { text } if text.contains("transfer_request")),
    );
    assert!(told);
}

/// The identifier of a stored row is not given out again, also where the row's time is up.
#[test]
fn expired_rows_still_count() {
    let mut t = TrustTable::new();
    let tokens = vec![PersistedToken {
        token: "gov-1".into(),
        identity: "gov-1".into(),
        token_type: "governor".into(),
        expires_at_secs: Some(1),
    }];
    t.load_from_store(tokens, Vec::new(), NOW, 2_000);
    assert!(matches!(t.verify_governor("gov-1", NOW), Err(Error::AuthFailed)));
    assert_eq!(t.install_governor(None, NOW).0, "gov-2");
    t.load_from_store(Vec::new(), vec![grant_row("grant-9", Some(1))], NOW, 2_000);
    assert!(t.grant_parties("grant-9").is_none());
    assert_eq!(t.install_governor(None, NOW).0, "gov-10");
}

/// A governor who replaces its token after an offer is still the one whom the transfer revokes.
#[test]
fn transfer_follows_a_new_token() {
    let mut t = TrustTable::new();
    let gov = t.install_governor(None, NOW);
    let offer = t.transfer_governor(&gov.0, None, NOW).unwrap();
    let rotated = t.rotate_governor_token(&gov.0, NOW).unwrap();
    assert_eq!(t.offered_by(&offer).as_deref(), Some(rotated.0.as_str()));
    let new = t.accept_governor_transfer(&offer, "bob").unwrap();
    assert!(matches!(t.verify_governor(&rotated.0, NOW), Err(Error::AuthFailed)));
    assert!(matches!(t.verify_governor(&gov.0, NOW), Err(Error::AuthFailed)));
    assert_eq!(t.active_governor_tokens(), [new.0]);
}

fn dropped_rows(hub: &mut DeliveryHub) -> Vec<String> {
    hub.take_effects()
        .into_iter()
        .filter_map(|e| match e {
            Effect::Store(StoreWrite::DeleteToken { token }) => Some(token),
            _ => None,
        })
        .collect()
}

/// Governors who are out of office leave the store.
#[test]
fn outgoing_governors_leave_the_store() {
    let mut hub = new_hub();
    hub.persistent = true;
    let first = hub.install_governor(None, now());
    let b = join(&mut hub, "bob");
    let offer = hub.transfer_governor(&first, None, now()).unwrap();
    let _ = hub.take_effects();
    let second = hub.accept_governor_transfer(&b, &offer).unwrap();
    assert_eq!(dropped_rows(&mut hub), [first.0]);
    let third = hub.install_governor(None, now());
    let id = match hub.claim_governorship(&b, None, now()).unwrap() {
        ClaimOutcome::Transfer { claim_id } => claim_id,
        _ => panic!("no transfer"),
    };
    let _ = hub.respond_claim(&second.0, &id, true, now()).unwrap();
    let _ = hub.take_effects();
    assert!(matches!(
        hub.respond_claim(&third.0, &id, true, now()),
        Ok(ClaimResolution::Established { .. })
    ));
    assert_eq!(dropped_rows(&mut hub), [second.0, third.0]);
}

/// A held message is ruled on once.
#[test]
fn held_message_is_settled_once() {
    let mut hub = new_hub();
    let gov = hub.install_governor(None, now());
    let a = join(&mut hub, "alice");
    let b = join(&mut hub, "bob");
    let req = ApproveGrantRequest {
        mediation: Some(GrantMediation::Inspect),
        max_messages: Some(2),
        ..Default::default()
    };
    hub.approve_grant_req(&gov, &a, &b, None, req, now()).unwrap();
    let from = ParticipantToken(a);
    let mut held = |hub: &mut DeliveryHub, text: &[u8]| {
        match hub.send(&from, "bob", Payload(text.to_vec()), None, None, now()).unwrap() {
            simple_im::delivery::Ack::PendingMediation { mediation_id } => mediation_id,
            _ => panic!("not held"),
        }
    };
    let one = held(&mut hub, b"one");
    let two = held(&mut hub, b"two");
    assert_ne!(one, two);
    hub.resolve_mediation(&gov, &two, MediationDecision::Block, now()).unwrap();
    assert_eq!(hub.pending_count(&b).unwrap(), 0);
    hub.resolve_mediation(&gov, &one, MediationDecision::Modify(Payload(b"eins".to_vec())), now())
        .unwrap();
    assert_eq!(hub.peek_latest_message(&b).unwrap().unwrap().payload.0, b"eins");
    for id in [&one, &two] {
        assert!(matches!(
            hub.resolve_mediation(&gov, id, MediationDecision::Approve, now()),
            Err(Error::MediationUnavailable)
        ));
    }
    assert_eq!(hub.pending_count(&b).unwrap(), 1);
}

/// A hub with a store, its governor, and two participants of whom the first may send the second
/// so many messages, each of which waits for the governor.
fn inspected(max: u64) -> (DeliveryHub, GovernorToken, ParticipantToken, String) {
    let mut hub = DeliveryHub::new_with_persisted_state(
        secs(30),
        Settings::default(),
        vec![],
        vec![],
        vec![],
        vec![],
        now(),
    );
    let gov = hub.install_governor(None, now());
    let a = join(&mut hub, "alice");
    let b = join(&mut hub, "bob");
    let req = ApproveGrantRequest {
        mediation: Some(GrantMediation::Inspect),
        max_messages: Some(max),
        ..Default::default()
    };
    hub.approve_grant_req(&gov, &a, &b, None, req, now()).unwrap();
    (hub, gov, ParticipantToken(a), b)
}

fn held(hub: &mut DeliveryHub, from: &ParticipantToken, text: &[u8]) -> String {
    match hub.send(from, "bob", Payload(text.to_vec()), None, None, now()).unwrap() {
        simple_im::delivery::Ack::PendingMediation { mediation_id } => mediation_id,
        _ => panic!("not held"),
    }
}

fn uses_written(hub: &mut DeliveryHub) -> usize {
    hub.take_effects()
        .iter()
        .filter(|e| matches!(e, Effect::Store(StoreWrite::IncrementGrantUsage { .. })))
        .count()
}

/// Only a message that is delivered uses the budget.
#[test]
fn gone_recipient_costs_no_budget() {
    let (mut hub, gov, a, mut b) = inspected(1);
    for decision in [
        MediationDecision::Approve,
        MediationDecision::Modify(Payload(b"else".to_vec())),
    ] {
        let id = held(&mut hub, &a, b"hello");
        hub.cancel_listen(&b, now()).unwrap();
        assert!(matches!(
            hub.resolve_mediation(&gov, &id, decision, now()),
            Ok(MediationResult::RecipientOffline)
        ));
        assert_eq!(uses_written(&mut hub), 0);
        assert!(matches!(
            hub.resolve_mediation(&gov, &id, MediationDecision::Approve, now()),
            Err(Error::MediationUnavailable)
        ));
        b = hub.issue_participant_token(&gov, Some("bob"), now()).unwrap().0;
        hub.open_listen(Some(&b), None, None, false, false, now()).unwrap();
        assert_eq!(hub.pending_count(&b).unwrap(), 0);
    }
    let id = held(&mut hub, &a, b"hello");
    assert!(matches!(
        hub.resolve_mediation(&gov, &id, MediationDecision::Approve, now()),
        Ok(MediationResult::Delivered { .. })
    ));
    assert_eq!(uses_written(&mut hub), 1);
    assert!(matches!(
        hub.send(&a, "bob", Payload(b"more".to_vec()), None, None, now()),
        Err(Error::GrantExhausted)
    ));
}

/// A held message waits while others come, go, send, ask and are ruled on.
#[test]
fn held_message_waits_through_other_calls() {
    let (mut hub, gov, a, b) = inspected(2);
    let first = held(&mut hub, &a, b"first");
    let second = held(&mut hub, &a, b"second");
    let c = join(&mut hub, "carol");
    assert!(hub.send(&ParticipantToken(c.clone()), "bob", Payload(vec![1]), None, None, now()).is_err());
    hub.request_grant(&c, "bob", None, None, now()).unwrap();
    hub.cancel_listen(&c, now()).unwrap();
    hub.block_direct(&gov, &a.0, "carol", "no", None, now()).unwrap();
    hub.resolve_mediation(&gov, &second, MediationDecision::Block, now()).unwrap();
    hub.gc_tokens(now());
    assert!(matches!(hub.dequeue(&b, None, now()), Ok((None, 0))));
    match hub.resolve_mediation(&gov, &first, MediationDecision::Approve, now()) {
        Ok(MediationResult::Delivered { to_name }) => assert_eq!(to_name, "bob"),
        _ => panic!("not delivered"),
    }
    match hub.dequeue(&b, None, now()) {
        Ok((Some(m), 0)) => assert_eq!(m.payload.0, b"first"),
        _ => panic!("no message"),
    }
}
