//! Tokens, streams and who is seen.

use simple_im::clock::{secs, Moment};
use simple_im::config::Settings;
use simple_im::delivery::{
    AnnounceResult, DeliveryHub, Effect, StoreWrite, WaitAction, WaitEvent,
};
use simple_im::error::Error;
use simple_im::types::{GovernorToken, ParticipantToken, Payload};

fn now() -> Moment {
    Moment { instant: secs(1_000_000), system: 1_750_000_000 * 1_000_000_000 }
}

fn later(n: u64) -> Moment {
    Moment { instant: now().instant + secs(n), system: now().system + secs(n) as i128 }
}

fn new_hub() -> DeliveryHub {
    DeliveryHub::new(secs(30), Settings::default())
}

/// A participant with a name and a stream.
fn listen(hub: &mut DeliveryHub, name: &str, push: bool) -> (String, u64) {
    let token = hub.register_participant(now());
    let (token, stream) = hub.open_listen(Some(&token), None, None, false, push, now()).unwrap();
    hub.announce(&token, name, now()).unwrap();
    (token, stream)
}

fn pushed(hub: &mut DeliveryHub, to: u64) -> Vec<String> {
    hub.take_effects()
        .into_iter()
        .filter_map(|e| match e {
            Effect::Push { stream, text } if stream == to => Some(text),
            _ => None,
        })
        .collect()
}

/// Two participants with a grant, the first of whom follows who comes and goes.
fn watching() -> (DeliveryHub, GovernorToken, (String, u64), (String, u64)) {
    let mut hub = new_hub();
    let gov = hub.install_governor(None, now());
    let a = listen(&mut hub, "alice", true);
    let b = listen(&mut hub, "bob", false);
    hub.approve_grant(&gov, &a.0, &b.0, None, now()).unwrap();
    let _ = hub.take_effects();
    (hub, gov, a, b)
}

#[test]
fn tokens_are_numbers_and_differ() {
    let mut hub = new_hub();
    let mut seen = std::collections::BTreeSet::new();
    for _ in 0..50 {
        let token = hub.issue_token(now());
        assert!(token.len() >= 8 && token.len() <= 12, "{token}");
        let number: u64 = token.parse().unwrap();
        assert_eq!(number.to_string(), token);
        assert!(seen.insert(token));
    }
}

/// A token is the numeral of the number that was drawn for it.
#[test]
fn token_is_its_number() {
    let mut hub = new_hub();
    let token = hub.enrol(4_711_000_000, true, now().instant);
    assert_eq!(token, "4711000000");
    assert!(hub.is_participant_token(&token));
    assert!(hub.tokens.get(&token).unwrap().pending_first_listen);
}

#[test]
fn streams_are_one_at_a_time() {
    let mut hub = new_hub();
    let (token, first) = listen(&mut hub, "alice", false);
    assert!(matches!(
        hub.open_listen(Some(&token), None, None, false, false, now()),
        Err(Error::ActiveSubscription)
    ));
    let _ = hub.take_effects();
    let (_, second) = hub.open_listen(Some(&token), None, None, true, false, now()).unwrap();
    assert_ne!(first, second);
    let effects = hub.take_effects();
    assert!(effects.iter().any(
        |e| matches!(e, Effect::Push { stream, text } if *stream == first && text.contains("superseded"))
    ));
    assert!(effects.iter().any(|e| matches!(e, Effect::Close { stream } if *stream == first)));
    assert!(!effects.iter().any(|e| matches!(e, Effect::Close { stream } if *stream == second)));
}

#[test]
fn unknown_token_opens_nothing() {
    let mut hub = new_hub();
    assert!(matches!(
        hub.open_listen(Some("12345678"), None, None, false, false, now()),
        Err(Error::AuthFailed)
    ));
}

#[test]
fn name_is_bound_while_listening() {
    let mut hub = new_hub();
    let token = hub.register_participant(now());
    hub.open_listen(Some(&token), Some("10.0.0.1"), Some("alice"), false, false, now()).unwrap();
    assert_eq!(hub.validate_token(&token).unwrap().as_deref(), Some("alice"));
    assert_eq!(hub.name_for_bearer_token(&token).as_deref(), Some("alice"));
    let other = hub.register_participant(now());
    hub.open_listen(Some(&other), None, Some("alice"), false, false, now()).unwrap();
    assert_eq!(hub.validate_token(&other).unwrap(), None);
    assert_eq!(hub.name_to_token.get("alice"), Some(&token));
}

#[test]
fn name_may_be_announced_again() {
    let mut hub = new_hub();
    let (token, _) = listen(&mut hub, "alice", false);
    assert!(matches!(hub.announce(&token, "alice", now()), Ok(AnnounceResult::Bound)));
    assert!(matches!(hub.announce("12345678", "x", now()), Err(Error::TokenRejected)));
}

#[test]
fn going_away_is_told_after_the_settle_window() {
    let (mut hub, _gov, a, b) = watching();
    hub.stream_dropped(&b.0, b.1);
    hub.close_listen(&b.0, now());
    let mut timers = Vec::new();
    for e in hub.take_effects() {
        match e {
            Effect::StartSettle { name, timer, window } => timers.push((name, timer, window)),
            Effect::Push { .. } => panic!("told at once"),
            _ => {}
        }
    }
    assert_eq!(timers.len(), 1);
    assert_eq!(timers[0].0, "bob");
    assert_eq!(timers[0].2, secs(30));
    hub.settle_fired("bob", timers[0].1);
    let told = pushed(&mut hub, a.1);
    assert_eq!(told.len(), 1);
    assert!(told[0].contains("offline") && told[0].contains("bob"), "{told:?}");
    hub.settle_fired("bob", timers[0].1);
    assert!(pushed(&mut hub, a.1).is_empty());
}

#[test]
fn coming_back_in_time_is_not_told() {
    let (mut hub, _gov, a, b) = watching();
    hub.stream_dropped(&b.0, b.1);
    hub.close_listen(&b.0, now());
    let timer = hub
        .take_effects()
        .into_iter()
        .find_map(|e| match e {
            Effect::StartSettle { timer, .. } => Some(timer),
            _ => None,
        })
        .unwrap();
    hub.open_listen(Some(&b.0), None, None, false, false, later(1)).unwrap();
    hub.announce(&b.0, "bob", later(1)).unwrap();
    let back = pushed(&mut hub, a.1);
    assert!(back.iter().all(|t| !t.contains("offline")), "{back:?}");
    hub.settle_fired("bob", timer);
    assert!(pushed(&mut hub, a.1).is_empty());
}

#[test]
fn only_those_who_asked_are_told() {
    let (mut hub, _gov, a, b) = watching();
    hub.stream_dropped(&a.0, a.1);
    hub.close_listen(&a.0, now());
    let timer = hub
        .take_effects()
        .into_iter()
        .find_map(|e| match e {
            Effect::StartSettle { timer, .. } => Some(timer),
            _ => None,
        });
    if let Some(timer) = timer {
        hub.settle_fired("alice", timer);
    }
    assert!(pushed(&mut hub, b.1).is_empty());
}

#[test]
fn hidden_participant_is_offline() {
    let (mut hub, _gov, a, b) = watching();
    assert!(hub.presence_for_token(&a.0, "bob", now()).unwrap());
    hub.conceal(&b.0).unwrap();
    assert!(!hub.presence_for_token(&a.0, "bob", now()).unwrap());
    hub.show(&b.0).unwrap();
    assert!(hub.presence_for_token(&a.0, "bob", now()).unwrap());
    assert!(matches!(hub.conceal("12345678"), Err(Error::TokenRejected)));
}

#[test]
fn sharing_a_room_is_enough_to_be_seen() {
    let mut hub = new_hub();
    let a = listen(&mut hub, "alice", false);
    let _b = listen(&mut hub, "bob", false);
    assert!(!hub.presence_for_token(&a.0, "bob", now()).unwrap());
    let room = hub.room_store().create();
    hub.room_store().join(&room, "alice", Some(60), now().instant).unwrap();
    hub.room_store().join(&room, "bob", Some(60), now().instant).unwrap();
    assert!(hub.presence_for_token(&a.0, "bob", now()).unwrap());
    assert!(!hub.presence_for_token(&a.0, "bob", later(61)).unwrap());
}

#[test]
fn revoked_token_is_dead() {
    let (mut hub, gov, a, b) = watching();
    let stranger = GovernorToken(b.0.clone());
    assert!(hub.revoke_token(&a.0, &stranger, now()).is_err());
    hub.revoke_token(&b.0, &gov, now()).unwrap();
    assert!(matches!(hub.validate_token(&b.0), Err(Error::TokenRevoked)));
    assert!(hub.dequeue(&b.0, None, now()).is_err());
    let from = ParticipantToken(b.0.clone());
    assert!(hub.send(&from, "alice", Payload(vec![1]), None, None, now()).is_err());
    assert!(hub.open_listen(Some(&b.0), None, None, false, false, now()).is_err());
    hub.revoke_by_name("alice", &gov, now()).unwrap();
    assert!(matches!(hub.validate_token(&a.0), Err(Error::TokenRevoked)));
    assert!(hub.revoke_by_name("nobody", &gov, now()).is_ok());
    assert!(hub.revoke_by_name("nobody", &stranger, now()).is_err());
}

#[test]
fn name_outlives_its_token() {
    let (mut hub, gov, a, _b) = watching();
    hub.revoke_by_name("alice", &gov, now()).unwrap();
    let other = hub.register_participant(now());
    assert!(matches!(
        hub.announce(&other, "alice", now()),
        Ok(AnnounceResult::NameInUse { .. })
    ));
    let (fresh, name) = hub.issue_participant_token(&gov, Some("alice"), now()).unwrap();
    assert_eq!(name.as_deref(), Some("alice"));
    assert_ne!(fresh, a.0);
    assert_eq!(hub.validate_token(&fresh).unwrap().as_deref(), Some("alice"));
    let from = ParticipantToken(fresh);
    assert!(hub.send(&from, "bob", Payload(vec![1]), None, None, now()).is_ok());
}

#[test]
fn waiting_messages_are_told_once() {
    let (mut hub, _gov, a, b) = watching();
    let from = ParticipantToken(a.0.clone());
    let send = |hub: &mut DeliveryHub| {
        hub.send(&from, "bob", Payload(b"x".to_vec()), None, None, now()).unwrap();
    };
    send(&mut hub);
    assert_eq!(pushed(&mut hub, b.1).len(), 1);
    send(&mut hub);
    assert!(pushed(&mut hub, b.1).is_empty());
    let _ = hub.dequeue(&b.0, None, now()).unwrap();
    let _ = hub.take_effects();
    send(&mut hub);
    assert_eq!(pushed(&mut hub, b.1).len(), 1);
}

#[test]
fn threads_are_fetched_apart() {
    let (mut hub, _gov, a, b) = watching();
    let from = ParticipantToken(a.0);
    for (text, thread) in [("1", Some("x")), ("2", None), ("3", Some("x")), ("4", Some("y"))] {
        let payload = Payload(text.as_bytes().to_vec());
        hub.send(&from, "bob", payload, None, thread.map(String::from), now()).unwrap();
    }
    assert_eq!(hub.pending_count(&b.0).unwrap(), 4);
    let (m, _) = hub.dequeue(&b.0, Some("y"), now()).unwrap();
    assert_eq!(m.unwrap().payload.0, b"4");
    assert_eq!(hub.peek_latest_message(&b.0).unwrap().unwrap().payload.0, b"3");
    let rest = hub.drain_queue(&b.0, Some("x")).unwrap();
    let texts: Vec<&[u8]> = rest.iter().map(|m| m.payload.0.as_slice()).collect();
    assert_eq!(texts, [b"1", b"3"]);
    assert_eq!(hub.peek_latest_message(&b.0).unwrap().unwrap().payload.0, b"2");
    assert_eq!(hub.pending_count(&b.0).unwrap(), 1);
    assert!(hub.kick_pending_for("bob"));
    assert!(hub.drain_queue(&b.0, Some("x")).unwrap().is_empty());
    assert_eq!(hub.drain_queue(&b.0, None).unwrap()[0].payload.0, b"2");
    assert!(hub.peek_latest_message(&b.0).unwrap().is_none());
    assert!(!hub.kick_pending_for("bob"));
    assert_eq!(hub.latest_message_id(&b.0).unwrap(), Some(4));
}

#[test]
fn waiting_for_a_message() {
    let (mut hub, gov, a, b) = watching();
    let step = |hub: &DeliveryHub, event: WaitEvent| hub.wait_for_new_message_id(&b.0, 0, event);
    assert_eq!(step(&hub, WaitEvent::Begun).unwrap(), WaitAction::Wait);
    assert_eq!(step(&hub, WaitEvent::Changed).unwrap(), WaitAction::Wait);
    assert_eq!(step(&hub, WaitEvent::Over).unwrap(), WaitAction::Stop);
    hub.send(&ParticipantToken(a.0), "bob", Payload(vec![1]), None, None, now()).unwrap();
    assert_eq!(step(&hub, WaitEvent::Begun).unwrap(), WaitAction::Found(1));
    assert_eq!(step(&hub, WaitEvent::Changed).unwrap(), WaitAction::Found(1));
    hub.revoke_token(&b.0, &gov, now()).unwrap();
    assert!(matches!(step(&hub, WaitEvent::Begun), Err(Error::TokenRevoked)));
    assert_eq!(step(&hub, WaitEvent::Changed).unwrap(), WaitAction::Found(1));
    assert!(matches!(
        hub.wait_for_new_message_id("12345678", 0, WaitEvent::Begun),
        Err(Error::TokenRejected)
    ));
    assert_eq!(
        hub.wait_for_new_message_id("12345678", 0, WaitEvent::Changed).unwrap(),
        WaitAction::Stop
    );
}

#[test]
fn messages_by_token() {
    let (mut hub, _gov, a, b) = watching();
    let from = ParticipantToken(a.0);
    hub.send_to_token(&from, &b.0, Payload(vec![5]), None, None, now()).unwrap();
    assert_eq!(hub.pending_count(&b.0).unwrap(), 1);
    assert!(matches!(
        hub.send_to_token(&from, "12345678", Payload(vec![5]), None, None, now()),
        Err(Error::RecipientUnknown)
    ));
}

#[test]
fn senders_in_order() {
    let (mut hub, _gov, _a, b) = watching();
    let nameless = hub.register_participant(now());
    assert!(matches!(
        hub.send(&ParticipantToken(nameless), "bob", Payload(vec![1]), None, None, now()),
        Err(Error::AnnounceRequired)
    ));
    assert!(hub
        .send(&ParticipantToken("12345678".into()), "bob", Payload(vec![1]), None, None, now())
        .is_err());
    assert_eq!(hub.pending_count(&b.0).unwrap(), 0);
}

#[test]
fn collections_are_counted() {
    let (hub, _gov, _a, _b) = watching();
    let line = hub.debug_state_sizes();
    assert!(line.starts_with("listen_tokens=2"), "{line}");
}

#[test]
fn cancelled_stream_is_closed() {
    let mut hub = new_hub();
    let (token, stream) = listen(&mut hub, "alice", false);
    let _ = hub.take_effects();
    hub.cancel_listen(&token, now()).unwrap();
    let effects = hub.take_effects();
    assert!(effects.iter().any(|e| matches!(e, Effect::Close { stream: s } if *s == stream)));
    assert!(hub.open_listen(Some(&token), None, None, false, false, now()).is_ok());
}

/// A governor who listens gets a token of its own, the numeral of the number drawn for it.
#[test]
fn governor_listens_under_a_numbered_token() {
    let mut hub = new_hub();
    let gov = hub.install_governor(None, now());
    let (token, stream) = hub
        .open_listen_numbered(Some(&gov.0), None, Some("chief"), false, false, 123_456_789, now())
        .unwrap();
    assert_eq!(token, "123456789");
    assert_eq!(hub.validate_token(&token).unwrap().as_deref(), Some("chief"));
    let told = pushed(&mut hub, stream);
    assert!(told[0].contains("123456789"), "{}", told[0]);
    // A known token keeps its own number.
    let known = hub.enrol(55_555_555, true, now().instant);
    let (again, _) = hub
        .open_listen_numbered(Some(&known), None, None, false, false, 66_666_666, now())
        .unwrap();
    assert_eq!(again, "55555555");
    assert!(!hub.is_participant_token("66666666"));
}

/// A token handed out by a governor is the numeral of its number, and takes over the name it is
/// for.
#[test]
fn numbered_token_takes_a_name_over() {
    let mut hub = new_hub();
    let gov = hub.install_governor(None, now());
    let free = hub.issue_participant_token_numbered(&gov, None, 10_000_001, now()).unwrap();
    assert_eq!(free, ("10000001".to_string(), None));
    let (former, _) = listen(&mut hub, "alice", false);
    let taken = hub.issue_participant_token_numbered(&gov, Some("alice"), 10_000_002, now()).unwrap();
    assert_eq!(taken, ("10000002".to_string(), Some("alice".to_string())));
    assert!(!hub.is_participant_token(&former));
    assert_eq!(hub.validate_token("10000002").unwrap().as_deref(), Some("alice"));
    assert!(matches!(
        hub.issue_participant_token_numbered(&gov, Some("nobody"), 10_000_003, now()),
        Err(Error::RecipientUnknown)
    ));
    assert!(!hub.is_participant_token("10000003"));
    assert!(matches!(
        hub.issue_participant_token_numbered(&GovernorToken("nope".to_string()), None, 10_000_004, now()),
        Err(Error::AuthFailed)
    ));
}

/// A name is marked only while messages wait for it, and every name in use is an identity.
#[test]
fn books_agree_after_every_step() {
    let (mut hub, gov, a, b) = watching();
    let books = |hub: &DeliveryHub| {
        for name in ["alice", "bob", "carol"] {
            assert!(!hub.kick_pending_for(name) || hub.queues.get(name).map_or(0, |q| q.messages.len()) > 0);
            assert!(hub.name_to_token.get(name).is_none() || hub.identities.contains(name));
            assert!(hub.agents.get(name).is_none() || hub.identities.contains(name));
        }
    };
    books(&hub);
    let _ = hub.send(&ParticipantToken(a.0.clone()), "bob", Payload(b"one".to_vec()), None, None, now());
    books(&hub);
    assert!(hub.kick_pending_for("bob"));
    let _ = hub.dequeue(&b.0, None, now());
    books(&hub);
    assert!(!hub.kick_pending_for("bob"));
    let (c, _) = listen(&mut hub, "carol", false);
    let _ = hub.send(&ParticipantToken(c.clone()), "bob", Payload(b"two".to_vec()), None, None, now());
    books(&hub);
    hub.cancel_listen(&c, now()).unwrap();
    books(&hub);
    hub.revoke_by_name("bob", &gov, now()).unwrap();
    books(&hub);
    hub.gc_tokens(later(1_000_000));
    books(&hub);
}

/// The first event of a stream says whether the name that was asked for is another's.
#[test]
fn welcome_tells_of_a_name_in_use() {
    let mut hub = new_hub();
    let (_a, _) = listen(&mut hub, "alice", false);
    let _ = hub.take_effects();
    let token = hub.register_participant(now());
    let (_, stream) = hub.open_listen(Some(&token), None, Some("alice"), false, false, now()).unwrap();
    let told: serde_json::Value = serde_json::from_str(&pushed(&mut hub, stream)[0]).unwrap();
    assert_eq!(told["event"], "welcome");
    assert_eq!(told["name_in_use"], true);
    assert_eq!(told["holder_identity"], "alice");
    assert!(told.get("resolution_token").unwrap().is_null());
    assert!(told["name"].is_null());
    let free = hub.register_participant(now());
    let (_, stream) = hub.open_listen(Some(&free), None, Some("bob"), false, false, now()).unwrap();
    let told: serde_json::Value = serde_json::from_str(&pushed(&mut hub, stream)[0]).unwrap();
    assert_eq!(told["name_in_use"], false);
    assert!(told.get("holder_identity").unwrap().is_null());
    assert!(told.get("resolution_token").unwrap().is_null());
    assert_eq!(told["name"], "bob");
}

/// A rebound identity gets another token than it had; the former one is void.
#[test]
fn rebinding_voids_the_former_token() {
    let mut hub = new_hub();
    let gov = hub.install_governor(None, now());
    let (former, _) = listen(&mut hub, "alice", false);
    let (new, name) = hub.issue_participant_token(&gov, Some("alice"), now()).unwrap();
    assert_eq!(name.as_deref(), Some("alice"));
    assert_ne!(new, former);
    assert!(matches!(hub.announce(&former, "alice", now()), Err(Error::TokenRejected)));
    assert!(matches!(hub.announce(&new, "alice", now()), Ok(AnnounceResult::Bound)));
    let bearer = GovernorToken(new);
    assert!(matches!(
        hub.issue_participant_token(&bearer, None, now()),
        Err(Error::AuthFailed)
    ));
}

/// Fetching a message clears stale tokens away.
#[test]
fn fetching_clears_stale_tokens() {
    let (mut hub, _gov, _a, b) = watching();
    let idle = hub.issue_token(now());
    assert!(hub.is_participant_token(&idle));
    hub.dequeue(&b.0, None, later(1_000_000)).unwrap();
    assert!(!hub.is_participant_token(&idle));
    assert!(hub.is_participant_token(&b.0));
}

/// What the hub itself puts into a queue is marked and counted like a message.
#[test]
fn notices_are_marked_and_counted() {
    let mut hub = new_hub();
    let (a, _) = listen(&mut hub, "alice", false);
    let _b = listen(&mut hub, "bob", false);
    let from = ParticipantToken(a.clone());
    assert!(matches!(
        hub.send(&from, "bob", Payload(b"x".to_vec()), None, None, now()),
        Err(Error::NoGrant)
    ));
    assert!(hub.kick_pending_for("alice"));
    assert_eq!(hub.latest_message_id(&a).unwrap(), Some(1));
    let gov = hub.install_governor(None, now());
    let (chief, _) = hub.open_listen(Some(&gov.0), None, None, false, false, now()).unwrap();
    hub.announce(&chief, "chief", now()).unwrap();
    assert!(hub.kick_pending_for("chief"));
    assert_eq!(hub.latest_message_id(&chief).unwrap(), Some(1));
}

/// A revoked token leaves the store.
#[test]
fn revoked_token_leaves_the_store() {
    let (mut hub, gov, a, b) = watching();
    hub.persistent = true;
    hub.revoke_token(&a.0, &gov, now()).unwrap();
    hub.revoke_by_name("bob", &gov, now()).unwrap();
    let gone: Vec<String> = hub
        .take_effects()
        .into_iter()
        .filter_map(|e| match e {
            Effect::Store(StoreWrite::DeleteToken { token }) => Some(token),
            _ => None,
        })
        .collect();
    assert_eq!(gone, [a.0, b.0]);
}
