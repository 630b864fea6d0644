//! Requests for grants, denials and holds.

use simple_im::clock::{secs, Moment};
use simple_im::config::Settings;
use simple_im::delivery::{
    Ack, ApproveStatus, ConnectionStage, DeliveryHub, Effect, StoreWrite, GRANT_REQUEST_TIMEOUT,
};
use simple_im::error::Error;
use simple_im::types::{GovernorToken, ParticipantToken, Payload};

fn now() -> Moment {
    Moment { instant: secs(1_000_000), system: 1_750_000_000 * 1_000_000_000 }
}

fn later(n: u64) -> Moment {
    Moment { instant: now().instant + secs(n), system: now().system + secs(n) as i128 }
}

fn join(hub: &mut DeliveryHub, name: &str) -> String {
    let token = hub.register_participant(now());
    hub.announce(&token, name, now()).unwrap();
    token
}

fn pair() -> (DeliveryHub, String, String) {
    let mut hub = DeliveryHub::new(secs(30), Settings::default());
    let a = join(&mut hub, "alice");
    let b = join(&mut hub, "bob");
    (hub, a, b)
}

fn governed() -> (DeliveryHub, GovernorToken, String, String) {
    let (mut hub, a, b) = pair();
    let gov = hub.install_governor(None, now());
    (hub, gov, a, b)
}

fn send(hub: &mut DeliveryHub, from: &str, to: &str, at: Moment) -> Result<Ack, Error> {
    hub.send(&ParticipantToken(from.into()), to, Payload(b"x".to_vec()), None, None, at)
}

fn next_event(hub: &mut DeliveryHub, token: &str) -> Option<String> {
    let (m, _) = hub.dequeue(token, None, now()).unwrap();
    m.and_then(|m| m.event_type)
}

#[test]
fn without_governors_the_recipient_decides() {
    let (mut hub, a, b) = pair();
    let id = hub.request_grant(&a, "bob", Some("hello".into()), None, now()).unwrap();
    assert_eq!(hub.requests.get(&id).unwrap().stage, ConnectionStage::PendingRecipient);
    assert_eq!(next_event(&mut hub, &b).as_deref(), Some("grant_request"));
    assert_eq!(
        hub.approve_grant_request(&b, &id, None, now()).unwrap(),
        ApproveStatus::Established
    );
    assert!(send(&mut hub, &a, "bob", now()).is_ok());
    assert!(send(&mut hub, &b, "alice", now()).is_ok());
    assert_eq!(next_event(&mut hub, &a).as_deref(), Some("grant_established"));
}

#[test]
fn with_governors_they_come_first() {
    let (mut hub, gov, a, b) = governed();
    let id = hub.request_grant(&a, "bob", None, None, now()).unwrap();
    assert_eq!(hub.requests.get(&id).unwrap().stage, ConnectionStage::PendingGovernor);
    assert!(matches!(
        hub.approve_grant_request(&b, &id, None, now()),
        Err(Error::Forbidden)
    ));
    assert_eq!(
        hub.approve_grant_request(&gov.0, &id, None, now()).unwrap(),
        ApproveStatus::PendingRecipient
    );
    assert!(matches!(
        hub.approve_grant_request(&a, &id, None, now()),
        Err(Error::Forbidden)
    ));
    assert_eq!(
        hub.approve_grant_request(&b, &id, None, now()).unwrap(),
        ApproveStatus::Established
    );
}

/// Where both set an end, the sooner one holds.
#[test]
fn sooner_end_holds() {
    let (mut hub, gov, a, b) = governed();
    let id = hub.request_grant(&a, "bob", None, None, now()).unwrap();
    hub.approve_grant_request(&gov.0, &id, Some(secs(600)), now()).unwrap();
    hub.approve_grant_request(&b, &id, Some(secs(60)), now()).unwrap();
    assert!(send(&mut hub, &a, "bob", later(59)).is_ok());
    assert!(matches!(send(&mut hub, &a, "bob", later(61)), Err(Error::GrantExpired)));
}

#[test]
fn request_stands_until_it_lapses() {
    let (mut hub, a, _b) = pair();
    let id = hub.request_grant(&a, "bob", None, None, now()).unwrap();
    assert!(matches!(
        hub.request_grant(&a, "bob", None, None, now()),
        Err(Error::RequestPending)
    ));
    let over = (GRANT_REQUEST_TIMEOUT / secs(1)) as u64 + 1;
    let again = hub.request_grant(&a, "bob", Some("again".into()), None, later(over)).unwrap();
    assert_eq!(again, id);
    assert_eq!(hub.requests.get(&id).unwrap().reason.as_deref(), Some("again"));
    assert!(matches!(
        hub.request_grant(&a, "bob", None, None, later(over)),
        Err(Error::RequestPending)
    ));
}

#[test]
fn request_is_updated_by_its_sender() {
    let (mut hub, a, _b) = pair();
    let c = join(&mut hub, "carol");
    let id = hub.request_grant(&a, "bob", Some("one".into()), None, now()).unwrap();
    let same = hub.request_grant(&a, "bob", Some("two".into()), Some(&id), now()).unwrap();
    assert_eq!(same, id);
    assert_eq!(hub.requests.get(&id).unwrap().reason.as_deref(), Some("two"));
    assert!(hub.request_grant(&c, "bob", None, Some(&id), now()).is_err());
    assert!(hub.request_grant(&a, "bob", None, Some("req-99"), now()).is_err());
}

#[test]
fn denial_stands_and_is_lifted() {
    let (mut hub, gov, a, b) = governed();
    let id = hub.request_grant(&a, "bob", None, None, now()).unwrap();
    hub.deny_grant_request(&gov.0, &id, "not now", None, now()).unwrap();
    assert_eq!(next_event(&mut hub, &a).as_deref(), Some("grant_denied"));
    assert!(matches!(
        hub.request_grant(&a, "bob", None, None, now()),
        Err(Error::GrantBlocked(why)) if why == "not now"
    ));
    assert!(matches!(send(&mut hub, &a, "bob", now()), Err(Error::GrantBlocked(_))));
    assert!(matches!(hub.unblock_grant(&b, &a, "bob", now()), Err(Error::Forbidden)));
    hub.unblock_grant(&gov.0, &a, "bob", now()).unwrap();
    assert!(hub.request_grant(&a, "bob", None, None, now()).is_ok());
}

#[test]
fn denial_with_an_end() {
    let (mut hub, gov, a, b) = governed();
    hub.approve_grant(&gov, &a, &b, None, now()).unwrap();
    hub.block_direct(&gov, &a, "bob", "calm down", Some(1_750_000_060), now()).unwrap();
    assert!(matches!(send(&mut hub, &a, "bob", later(59)), Err(Error::GrantBlocked(_))));
    assert!(send(&mut hub, &a, "bob", later(61)).is_ok());
    let forged = GovernorToken(a.clone());
    assert!(matches!(
        hub.block_direct(&forged, &b, "alice", "", None, now()),
        Err(Error::AuthFailed)
    ));
}

#[test]
fn held_request_goes_back() {
    let (mut hub, gov, a, _b) = governed();
    let id = hub.request_grant(&a, "bob", None, None, now()).unwrap();
    hub.hold_grant_request(&gov.0, &id, "say why", now()).unwrap();
    assert_eq!(next_event(&mut hub, &a).as_deref(), Some("grant_held"));
    assert!(hub.requests.get(&id).is_some());
    let c = join(&mut hub, "carol");
    assert!(hub.hold_grant_request(&c, &id, "me too", now()).is_err());
}

#[test]
fn revoked_grant_is_gone() {
    let (mut hub, gov, a, b) = governed();
    let id = hub.approve_grant(&gov, &a, &b, None, now()).unwrap();
    assert!(hub.has_any_grant_with(&a, "bob", now()));
    assert_eq!(hub.list_grants_for_token(&a, now()).unwrap().len(), 1);
    let stranger = GovernorToken(b.clone());
    assert!(matches!(hub.revoke_grant(&id, &stranger, now()), Err(Error::AuthFailed)));
    hub.revoke_grant(&id, &gov, now()).unwrap();
    assert!(!hub.has_any_grant_with(&a, "bob", now()));
    assert!(matches!(send(&mut hub, &a, "bob", now()), Err(Error::NoGrant)));
    assert!(matches!(hub.revoke_grant(&id, &gov, now()), Err(Error::NoGrant)));
}

#[test]
fn store_hears_of_grants_and_denials() {
    let (mut hub, gov, a, b) = governed();
    hub.persistent = true;
    let _ = hub.take_effects();
    let id = hub.approve_grant(&gov, &a, &b, Some(secs(60)), now()).unwrap();
    let wrote = hub.take_effects().into_iter().any(|e| match e {
        Effect::Store(StoreWrite::UpsertGrant { id: row, expires_at, name_a, .. }) => {
            row == id
                && expires_at == Some(1_750_000_060 * 1_000_000_000)
                && name_a.as_deref() == Some("alice")
        }
        _ => false,
    });
    assert!(wrote);
    let _ = send(&mut hub, &a, "bob", now());
    let counted = hub.take_effects().into_iter().any(|e| {
        matches!(e, Effect::Store(StoreWrite::IncrementGrantUsage { grant_id }) if grant_id == id)
    });
    assert!(counted);
    hub.block_direct(&gov, &a, "bob", "r", None, now()).unwrap();
    hub.revoke_grant(&id, &gov, now()).unwrap();
    let mut blocked = false;
    let mut removed = false;
    for e in hub.take_effects() {
        match e {
            Effect::Store(StoreWrite::UpsertDenialBlock { to_name, .. }) => {
                blocked = to_name == "bob";
            }
            Effect::Store(StoreWrite::DeleteGrant { grant_id }) => removed = grant_id == id,
            _ => {}
        }
    }
    assert!(blocked && removed);
}

/// Nothing is written where there is no store.
#[test]
fn no_store_no_writes() {
    let (mut hub, gov, a, b) = governed();
    hub.approve_grant(&gov, &a, &b, None, now()).unwrap();
    let _ = send(&mut hub, &a, "bob", now());
    assert!(!hub.take_effects().iter().any(|e| matches!(e, Effect::Store(_))));
}

/// A request whose time is up is gone: nobody approves, denies or holds it, and no grant is made.
#[test]
fn lapsed_request_is_gone() {
    let over = (GRANT_REQUEST_TIMEOUT / secs(1)) as u64;
    for act in 0..3 {
        let (mut hub, a, b) = pair();
        let id = hub.request_grant(&a, "bob", None, None, now()).unwrap();
        let refused = match act {
            0 => hub.approve_grant_request(&b, &id, None, later(over)).err(),
            1 => hub.deny_grant_request(&b, &id, "no", None, later(over)).err(),
            _ => hub.hold_grant_request(&b, &id, "why", later(over)).err(),
        };
        assert!(matches!(refused, Some(Error::BadRequest)));
        assert!(hub.requests.get(&id).is_none());
        assert!(!hub.has_any_grant_with(&a, "bob", later(over)));
        assert!(matches!(send(&mut hub, &a, "bob", later(over)), Err(Error::NoGrant)));
    }
    let (mut hub, a, b) = pair();
    let id = hub.request_grant(&a, "bob", None, None, now()).unwrap();
    assert!(hub.approve_grant_request(&b, &id, None, later(over - 1)).is_ok());
}

/// The governor's approval gives the recipient as long again.
#[test]
fn passing_on_restarts_the_time() {
    let over = (GRANT_REQUEST_TIMEOUT / secs(1)) as u64;
    let (mut hub, gov, a, b) = governed();
    let id = hub.request_grant(&a, "bob", None, None, now()).unwrap();
    hub.approve_grant_request(&gov.0, &id, None, later(over - 1)).unwrap();
    assert_eq!(
        hub.approve_grant_request(&b, &id, None, later(over + 60)).unwrap(),
        ApproveStatus::Established
    );
}

/// Without governors a request that is answered after a hold is again the recipient's to decide.
#[test]
fn answered_hold_goes_to_the_recipient() {
    let (mut hub, a, b) = pair();
    let id = hub.request_grant(&a, "bob", None, None, now()).unwrap();
    hub.hold_grant_request(&b, &id, "say why", now()).unwrap();
    let same = hub.request_grant(&a, "bob", Some("because".into()), Some(&id), now()).unwrap();
    assert_eq!(same, id);
    assert_eq!(
        hub.approve_grant_request(&b, &id, None, now()).unwrap(),
        ApproveStatus::Established
    );
    assert!(send(&mut hub, &a, "bob", now()).is_ok());
}

/// The grant that consent makes is stored with the sooner of the two ends.
#[test]
fn consent_is_stored_with_its_end() {
    let (mut hub, gov, a, b) = governed();
    hub.persistent = true;
    let id = hub.request_grant(&a, "bob", None, None, now()).unwrap();
    hub.approve_grant_request(&gov.0, &id, Some(secs(600)), now()).unwrap();
    let _ = hub.take_effects();
    hub.approve_grant_request(&b, &id, Some(secs(60)), now()).unwrap();
    let ends: Vec<_> = hub
        .take_effects()
        .into_iter()
        .filter_map(|e| match e {
            Effect::Store(StoreWrite::UpsertGrant { expires_at, .. }) => Some(expires_at),
            _ => None,
        })
        .collect();
    assert_eq!(ends, [Some(1_750_000_060 * 1_000_000_000)]);
}

/// Whoever has a request or its outcome waiting is woken with the number of waiting messages.
#[test]
fn requests_wake_with_a_notify() {
    let mut hub = DeliveryHub::new(secs(30), Settings::default());
    let mut streams = Vec::new();
    for name in ["alice", "bob"] {
        let token = hub.register_participant(now());
        let (token, stream) =
            hub.open_listen(Some(&token), None, None, false, false, now()).unwrap();
        hub.announce(&token, name, now()).unwrap();
        streams.push((token, stream));
    }
    let texts = |hub: &mut DeliveryHub, to: u64| -> Vec<String> {
        hub.take_effects()
            .into_iter()
            .filter_map(|e| match e {
                Effect::Push { stream, text } if stream == to => Some(text),
                _ => None,
            })
            .collect()
    };
    let _ = hub.take_effects();
    let id = hub.request_grant(&streams[0].0, "bob", None, None, now()).unwrap();
    assert_eq!(texts(&mut hub, streams[1].1), ["{\"type\":\"notify\",\"pending\":1}"]);
    hub.approve_grant_request(&streams[1].0, &id, None, now()).unwrap();
    assert_eq!(
        texts(&mut hub, streams[0].1),
        [
            "{\"type\":\"service\",\"event\":\"identity_persisted\"}",
            "{\"type\":\"notify\",\"pending\":1}"
        ]
    );
}

/// A file is refused like a message: by a denial with its reason, and by a grant that is over.
#[test]
fn files_are_refused_like_messages() {
    let (mut hub, gov, a, b) = governed();
    hub.persistent = true;
    hub.approve_grant(&gov, &a, &b, Some(secs(60)), now()).unwrap();
    let attach = |hub: &DeliveryHub, at: Moment| {
        hub.attach(&a, "bob", "f.txt", "text/plain", secs(60), at).map(|f| f.to_name)
    };
    assert_eq!(attach(&hub, now()).ok().as_deref(), Some("bob"));
    assert!(matches!(attach(&hub, later(61)), Err(Error::GrantExpired)));
    hub.block_direct(&gov, &a, "bob", "no", None, now()).unwrap();
    assert!(matches!(attach(&hub, now()), Err(Error::GrantBlocked(why)) if why == "no"));
    assert!(matches!(send(&mut hub, &a, "bob", now()), Err(Error::GrantBlocked(why)) if why == "no"));
    hub.unblock_grant(&gov.0, &a, "bob", now()).unwrap();
    assert!(attach(&hub, now()).is_ok());
}
