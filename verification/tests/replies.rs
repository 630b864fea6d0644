//! Requests and what is answered.

use simple_im::clock::{secs, Moment};
use simple_im::config::Settings;
use simple_im::delivery::{DeliveryHub, Effect, WaitEvent};
use simple_im::error::Error;
use simple_im::http::file_handlers::{
    disposition, handle_attach_download, handle_attach_upload, uploaded,
};
use simple_im::http::grant_handlers::{
    handle_approve_grant, handle_governor_list_grants, handle_grant_block, handle_grant_request,
    handle_grant_request_action, handle_grant_unblock, handle_list_grants, handle_revoke_grant,
    ApproveGrantBody,
};
use simple_im::http::handlers::{
    handle_accept_governor_transfer, handle_admin_governor_reset, handle_announce,
    handle_cancel_listen, handle_claim_governorship, handle_dequeue, handle_dequeue_all,
    handle_deregister, handle_election_vote, handle_gov_events, handle_latest_message,
    handle_latest_message_id, handle_list_participants, handle_listen, handle_mediate,
    handle_new_message_id, handle_pending, handle_presence, handle_refresh_governor_token,
    handle_register, handle_send, handle_set_presence_scope, handle_transfer_governor,
    longest_wait, SendBody,
};
use simple_im::http::room_handlers::{
    handle_room_create, handle_room_create_get_reserved, handle_room_get, handle_room_join,
    handle_room_leave,
};
use simple_im::http::routes::{discovery_heading, handle_discovery, router_routes};
use simple_im::http::{
    bearer_token, err_response, error_status, mime_of, peer_address, sanitize_filename, Body,
    Field, Reply, Scalar,
};
use simple_im::trust::{ApproveGrantRequest, GrantMediation};
use simple_im::types::{GovernorToken, ParticipantToken, Payload};
use std::collections::BTreeSet;

fn now() -> Moment {
    Moment { instant: secs(1_000_000), system: 1_750_000_000 * 1_000_000_000 }
}

fn later(n: u64) -> Moment {
    Moment {
        instant: now().instant + secs(n),
        system: now().system + secs(n) as i128,
    }
}

fn new_hub() -> DeliveryHub {
    DeliveryHub::new(secs(30), Settings::default())
}

fn bearer(token: &str) -> String {
    format!("Bearer {token}")
}

fn join(hub: &mut DeliveryHub, name: &str) -> String {
    let token = hub.register_participant(now());
    hub.announce(&token, name, now()).unwrap();
    token
}

/// A hub with a governor and two participants who may write to each other.
fn granted() -> (DeliveryHub, GovernorToken, String, String) {
    let mut hub = new_hub();
    let gov = hub.install_governor(None, now());
    let a = join(&mut hub, "alice");
    let b = join(&mut hub, "bob");
    hub.approve_grant(&gov, &a, &b, None, now()).unwrap();
    let _ = hub.take_effects();
    (hub, gov, a, b)
}

fn show(value: &Scalar) -> String {
    match value {
        Scalar::Null => "null".into(),
        Scalar::Text(s) => s.clone(),
        Scalar::Number(n) => n.to_string(),
        Scalar::Flag(b) => b.to_string(),
    }
}

fn field(fields: &Vec<Field>, key: &str) -> Option<String> {
    fields.iter().find(|f| f.0 == key).map(|f| show(&f.1))
}

fn get(r: &Reply, key: &str) -> Option<String> {
    match &r.body {
        Body::Object(fields) => field(fields, key),
        _ => None,
    }
}

fn keys(r: &Reply) -> Vec<String> {
    match &r.body {
        Body::Object(fields) => fields.iter().map(|f| f.0.clone()).collect(),
        _ => Vec::new(),
    }
}

fn code(r: &Reply) -> (u16, String) {
    (r.status, get(r, "error").unwrap_or_default())
}

fn refused(status: u16, error: &str) -> (u16, String) {
    (status, error.to_string())
}

fn is_bare(r: &Reply, status: u16) -> bool {
    r.status == status && matches!(r.body, Body::Empty)
}

/// Every route that is served is described, and no other.
#[test]
fn router_discovery_consistency() {
    let routed: BTreeSet<&str> = router_routes().into_iter().collect();
    let described: BTreeSet<&str> = handle_discovery().into_iter().map(|e| e.route).collect();
    let missing: Vec<_> = routed.difference(&described).collect();
    let extra: Vec<_> = described.difference(&routed).collect();
    assert!(missing.is_empty(), "routes that are not described: {missing:?}");
    assert!(extra.is_empty(), "descriptions without a route: {extra:?}");
    assert!(discovery_heading().contains(&("service", "simple-im")));
}

#[test]
fn statuses_of_the_errors() {
    for (e, status) in [
        (Error::AuthFailed, 401),
        (Error::TokenExpired, 401),
        (Error::TokenRejected, 401),
        (Error::TokenRevoked, 401),
        (Error::Forbidden, 403),
        (Error::NoGrant, 403),
        (Error::GrantExpired, 403),
        (Error::GrantExhausted, 403),
        (Error::BriefRequired, 403),
        (Error::Blocked, 403),
        (Error::GrantBlocked("spam".into()), 403),
        (Error::AnnounceRequired, 409),
        (Error::NameInUse, 409),
        (Error::RecipientOffline, 409),
        (Error::MediationUnavailable, 409),
        (Error::RequestPending, 409),
        (Error::ActiveSubscription, 409),
        (Error::RecipientUnknown, 404),
        (Error::AttachmentNotFound, 404),
        (Error::BadRequest, 400),
        (Error::Internal, 500),
        (Error::HandleExists, 500),
        (Error::IdentityNotFound, 500),
        (Error::ProbeExpired, 500),
        (Error::ProbeInvalid, 500),
        (Error::NotConnected, 500),
    ] {
        assert_eq!(error_status(&e), status, "{e:?}");
        let c = e.code().to_string();
        assert_eq!(code(&err_response(e)), (status, c));
    }
}

#[test]
fn denial_gives_its_reason() {
    let r = err_response(Error::GrantBlocked("spam".into()));
    assert_eq!(keys(&r), ["error", "message", "reason"]);
    assert_eq!(get(&r, "reason").as_deref(), Some("spam"));
    assert_eq!(keys(&err_response(Error::NoGrant)), ["error", "message"]);
    assert_eq!(keys(&err_response(Error::BriefRequired)), ["error", "message", "hint"]);
}

#[test]
fn headers_are_read() {
    assert_eq!(bearer_token(Some("Bearer 42")).as_deref(), Some("42"));
    assert_eq!(bearer_token(Some("Basic 42")), None);
    assert_eq!(bearer_token(None), None);
    assert_eq!(peer_address("10.0.0.1, 10.0.0.2"), "10.0.0.1");
    assert_eq!(peer_address(" 10.0.0.1 "), "10.0.0.1");
    assert_eq!(mime_of(Some("text/plain; charset=utf-8")), "text/plain");
    assert_eq!(mime_of(Some(" ; x")), "application/octet-stream");
    assert_eq!(mime_of(None), "application/octet-stream");
}

#[test]
fn file_names_are_made_safe() {
    assert_eq!(sanitize_filename("a\"b\\c\r\n.txt"), "abc.txt");
    assert_eq!(sanitize_filename("  notes.txt  "), "notes.txt");
    assert_eq!(sanitize_filename("\u{7f}\t"), "file");
    assert_eq!(sanitize_filename(""), "file");
    assert_eq!(sanitize_filename(&"x".repeat(300)), "x".repeat(255));
    assert_eq!(disposition("a.txt"), "attachment; filename=\"a.txt\"");
}

/// Control characters are what the standard library takes them to be, for every character.
#[test]
fn control_characters_are_as_usual() {
    for u in 0..=0x10_ffff_u32 {
        if let Some(c) = char::from_u32(u) {
            let kept = sanitize_filename(&format!("a{c}b"));
            let dropped = c.is_control() || c == '"' || c == '\\';
            assert_eq!(kept.len() == 2, dropped, "{u:x}");
        }
    }
}

#[test]
fn anyone_registers_before_there_is_a_governor() {
    let mut hub = new_hub();
    let r = handle_register(&mut hub, None, None, None, now());
    assert_eq!(r.status, 200);
    let token = get(&r, "token").unwrap();
    assert!(token.len() >= 8 && token.len() <= 12, "{token}");
    assert!(token.chars().all(|c| c.is_ascii_digit()));
    assert!(hub.is_participant_token(&token));

    let end = Some(now().instant + secs(10));
    assert_eq!(handle_register(&mut hub, None, None, end, later(10)).status, 200);
    let r = handle_register(&mut hub, None, None, end, later(11));
    assert_eq!(r.status, 503);
    assert_eq!(
        get(&r, "error").as_deref(),
        Some("bootstrap window closed; contact operator")
    );
}

#[test]
fn governors_register_participants() {
    let (mut hub, gov, a, _) = granted();
    assert_eq!(
        code(&handle_register(&mut hub, None, None, None, now())),
        refused(401, "AUTH_FAILED")
    );
    assert_eq!(
        code(&handle_register(&mut hub, Some(&bearer(&a)), None, None, now())),
        refused(403, "FORBIDDEN")
    );
    let r = handle_register(&mut hub, Some(&bearer(&gov.0)), None, None, now());
    assert_eq!(r.status, 200);
    assert_eq!(keys(&r), ["token"]);
    let r = handle_register(&mut hub, Some(&bearer(&gov.0)), Some("alice"), None, now());
    assert_eq!(get(&r, "name").as_deref(), Some("alice"));
    assert_ne!(get(&r, "token").unwrap(), a);
    let r = handle_register(&mut hub, Some(&bearer(&gov.0)), Some("nobody"), None, now());
    assert_eq!(code(&r), refused(404, "RECIPIENT_UNKNOWN"));
    let r = handle_register(&mut hub, Some(&bearer("forged")), None, None, now());
    assert_eq!(code(&r), refused(401, "AUTH_FAILED"));
}

#[test]
fn listening_and_announcing() {
    let mut hub = new_hub();
    let token = hub.register_participant(now());
    let auth = bearer(&token);
    let r = handle_listen(&mut hub, None, None, None, None, None, now());
    assert!(matches!(r, Err(Reply { status: 401, .. })));
    let r = handle_listen(&mut hub, Some(&auth), Some("1.2.3.4, 5.6.7.8"), None, None, None, now());
    assert_eq!(r.ok().map(|opened| opened.0), Some(token.clone()));
    assert_eq!(hub.tokens.get(&token).unwrap().last_ip.as_deref(), Some("1.2.3.4"));
    let r = handle_listen(&mut hub, Some(&auth), None, None, Some(false), None, now());
    match r {
        Err(reply) => assert_eq!(code(&reply), refused(409, "ACTIVE_SUBSCRIPTION")),
        Ok(_) => panic!("a second stream"),
    }
    let r = handle_listen(&mut hub, Some(&auth), None, None, Some(true), None, now());
    assert!(r.is_ok());

    assert!(is_bare(&handle_announce(&mut hub, Some(&auth), Some("alice"), now()), 204));
    assert!(is_bare(&handle_announce(&mut hub, Some(&auth), Some("alice"), now()), 204));
    let r = handle_announce(&mut hub, Some(&auth), None, now());
    assert_eq!(code(&r), refused(400, "BAD_REQUEST"));
    let r = handle_announce(&mut hub, None, Some("alice"), now());
    assert_eq!(code(&r), refused(401, "AUTH_FAILED"));
    let other = hub.register_participant(now());
    let r = handle_announce(&mut hub, Some(&bearer(&other)), Some("alice"), now());
    assert_eq!(code(&r), refused(409, "NAME_IN_USE"));
    assert_eq!(keys(&r), ["error", "message", "resolution_stream", "resolution"]);

    assert!(is_bare(&handle_cancel_listen(&mut hub, Some(&auth), now()), 204));
    assert_eq!(
        code(&handle_cancel_listen(&mut hub, Some(&bearer("x")), now())),
        refused(404, "NOT_FOUND")
    );
}

#[test]
fn messages_through_the_requests() {
    let (mut hub, _gov, a, b) = granted();
    let (alice, bob) = (bearer(&a), bearer(&b));
    let body = |to: Option<&str>, to_token: Option<&str>, text: &str| SendBody {
        to: to.map(String::from),
        to_token: to_token.map(String::from),
        payload: text.into(),
        reason: None,
        thread_id: Some("t1".into()),
    };
    let r = handle_send(&mut hub, Some(&alice), body(Some("bob"), None, "hé"), now());
    assert_eq!((r.status, get(&r, "status")), (202, Some("accepted".into())));
    let r = handle_send(&mut hub, Some(&alice), body(None, Some(&b), "two"), now());
    assert_eq!(r.status, 202);
    let r = handle_send(&mut hub, Some(&alice), body(None, None, "x"), now());
    assert_eq!(code(&r), refused(400, "BAD_REQUEST"));
    let r = handle_send(&mut hub, None, body(Some("bob"), None, "x"), now());
    assert_eq!(code(&r), refused(401, "AUTH_FAILED"));
    let r = handle_send(&mut hub, Some(&alice), body(Some("zoe"), None, "x"), now());
    assert_eq!(code(&r), refused(404, "RECIPIENT_UNKNOWN"));

    let r = handle_pending(&hub, Some(&bob));
    assert_eq!(get(&r, "pending").as_deref(), Some("2"));
    let r = handle_latest_message_id(&hub, Some(&bob));
    assert!(matches!(&r.body, Body::Text(s) if s == "2"));
    let r = handle_new_message_id(&hub, Some(&bob), 1, WaitEvent::Begun).unwrap();
    assert!(matches!(&r.body, Body::Text(s) if s == "2"));
    assert!(handle_new_message_id(&hub, Some(&bob), 2, WaitEvent::Begun).is_none());
    let r = handle_new_message_id(&hub, Some(&bob), 2, WaitEvent::Over).unwrap();
    assert!(is_bare(&r, 204));
    let r = handle_new_message_id(&hub, None, 2, WaitEvent::Begun).unwrap();
    assert_eq!(code(&r), refused(401, "AUTH_FAILED"));
    match handle_latest_message(&hub, Some(&bob)).body {
        Body::Message { message: Some(m), .. } => {
            assert_eq!(field(&m, "payload").as_deref(), Some("two"));
        }
        _ => panic!("no message"),
    }

    match handle_dequeue(&mut hub, Some(&bob), None, now()).body {
        Body::Message { message: Some(m), remaining } => {
            assert_eq!(field(&m, "payload").as_deref(), Some("hé"));
            assert_eq!(field(&m, "from").as_deref(), Some("alice"));
            assert_eq!(field(&m, "thread_id").as_deref(), Some("t1"));
            assert_eq!(field(&m, "reason"), None);
            assert_eq!(remaining, Some(1));
        }
        _ => panic!("no message"),
    }
    match handle_dequeue_all(&mut hub, Some(&bob), None).body {
        Body::Listing { key, rows } => {
            assert_eq!(key, "messages");
            assert_eq!(rows.len(), 1);
        }
        _ => panic!("no list"),
    }
    match handle_dequeue(&mut hub, Some(&bob), None, now()).body {
        Body::Message { message: None, remaining } => assert_eq!(remaining, Some(0)),
        _ => panic!("a message"),
    }
    assert_eq!(
        code(&handle_dequeue(&mut hub, Some(&bearer("x")), None, now())),
        refused(401, "TOKEN_REJECTED")
    );
    assert_eq!(longest_wait(60), secs(60));
    assert_eq!(longest_wait(3000), secs(300));
}

/// Bytes that are no UTF-8 are shown with the replacement character.
#[test]
fn odd_bytes_are_shown() {
    let (mut hub, _gov, a, b) = granted();
    let from = ParticipantToken(a);
    hub.send(&from, "bob", Payload(vec![b'a', 0xff, b'b']), None, None, now()).unwrap();
    match handle_dequeue(&mut hub, Some(&bearer(&b)), None, now()).body {
        Body::Message { message: Some(m), .. } => {
            assert_eq!(field(&m, "payload").as_deref(), Some("a\u{fffd}b"));
        }
        _ => panic!("no message"),
    }
}

#[test]
fn inspected_messages_are_ruled_upon() {
    let mut hub = new_hub();
    let gov = hub.install_governor(None, now());
    let a = join(&mut hub, "alice");
    let b = join(&mut hub, "bob");
    let auth = bearer(&gov.0);
    let body = ApproveGrantBody {
        identity_a: a.clone(),
        identity_b: b.clone(),
        expiry_secs: None,
        direction: Some("a_to_b".into()),
        max_messages: Some(9),
        mediation: Some("inspect".into()),
        opens_reply_window: None,
        conditions: Some("polite".into()),
    };
    let r = handle_approve_grant(&mut hub, Some(&auth), body, now());
    assert_eq!(r.status, 200);
    assert_eq!(
        keys(&r),
        ["grant_id", "direction", "max_messages", "mediation", "conditions"]
    );
    assert_eq!(get(&r, "direction").as_deref(), Some("a_to_b"));
    assert_eq!(get(&r, "max_messages").as_deref(), Some("9"));
    assert_eq!(get(&r, "mediation").as_deref(), Some("inspect"));

    let send = |hub: &mut DeliveryHub| {
        let body = SendBody {
            to: Some("bob".into()),
            to_token: None,
            payload: "hi".into(),
            reason: None,
            thread_id: None,
        };
        let r = handle_send(hub, Some(&bearer(&a)), body, now());
        assert_eq!((r.status, get(&r, "status")), (200, Some("pending_mediation".into())));
        get(&r, "mediation_id").unwrap()
    };
    let id = send(&mut hub);
    let r = handle_mediate(&mut hub, Some(&auth), &id, "modify", Some("hey"), now());
    assert_eq!(get(&r, "status").as_deref(), Some("delivered"));
    match handle_dequeue(&mut hub, Some(&bearer(&b)), None, now()).body {
        Body::Message { message: Some(m), .. } => {
            assert_eq!(field(&m, "payload").as_deref(), Some("hey"));
        }
        _ => panic!("no message"),
    }
    let r = handle_mediate(&mut hub, Some(&auth), &id, "approve", None, now());
    assert_eq!(code(&r), refused(409, "MEDIATION_UNAVAILABLE"));
    let id = send(&mut hub);
    let r = handle_mediate(&mut hub, Some(&auth), &id, "modify", None, now());
    assert_eq!(code(&r), refused(400, "BAD_REQUEST"));
    let r = handle_mediate(&mut hub, Some(&auth), &id, "maybe", None, now());
    assert_eq!(code(&r), refused(400, "BAD_REQUEST"));
    let r = handle_mediate(&mut hub, Some(&bearer(&b)), &id, "block", None, now());
    assert_eq!(code(&r), refused(401, "AUTH_FAILED"));
    let r = handle_mediate(&mut hub, Some(&auth), &id, "block", None, now());
    assert_eq!(get(&r, "status").as_deref(), Some("blocked"));
}

#[test]
fn grants_are_approved_by_governors() {
    let (mut hub, gov, a, b) = granted();
    let body = |direction: Option<&str>, mediation: Option<&str>| ApproveGrantBody {
        identity_a: "x".into(),
        identity_b: "y".into(),
        expiry_secs: Some(60),
        direction: direction.map(String::from),
        max_messages: None,
        mediation: mediation.map(String::from),
        opens_reply_window: None,
        conditions: None,
    };
    let auth = bearer(&gov.0);
    let r = handle_approve_grant(&mut hub, Some(&auth), body(None, None), now());
    assert_eq!(get(&r, "direction").as_deref(), Some("symmetric"));
    assert_eq!(get(&r, "mediation").as_deref(), Some("bypass"));
    assert_eq!(get(&r, "max_messages").as_deref(), Some("null"));
    let r = handle_approve_grant(&mut hub, Some(&auth), body(Some("up"), None), now());
    assert_eq!(code(&r), refused(400, "BAD_REQUEST"));
    let r = handle_approve_grant(&mut hub, Some(&auth), body(None, Some("read")), now());
    assert_eq!(code(&r), refused(400, "BAD_REQUEST"));
    let r = handle_approve_grant(&mut hub, None, body(None, None), now());
    assert_eq!(code(&r), refused(401, "AUTH_FAILED"));

    match handle_governor_list_grants(&hub, Some(&auth), None, now()).body {
        Body::Listing { key, rows } => {
            assert_eq!(key, "grants");
            assert_eq!(rows.len(), 2);
            let ends: BTreeSet<String> =
                rows.iter().map(|g| field(g, "expires").unwrap()).collect();
            assert!(ends.contains("null"));
            assert!(ends.contains("2025-06-15T15:07:40Z"), "{ends:?}");
        }
        _ => panic!("no list"),
    }
    match handle_list_grants(&hub, Some(&bearer(&a)), now()).body {
        Body::Listing { rows, .. } => {
            assert_eq!(rows.len(), 1);
            assert_eq!(field(&rows[0], "counterparty").as_deref(), Some("bob"));
            assert_eq!(field(&rows[0], "direction").as_deref(), Some("symmetric"));
            let id = field(&rows[0], "id").unwrap();
            let r = handle_revoke_grant(&mut hub, Some(&bearer(&b)), &id, now());
            assert_eq!(code(&r), refused(401, "AUTH_FAILED"));
            assert!(is_bare(&handle_revoke_grant(&mut hub, Some(&auth), &id, now()), 204));
            let r = handle_revoke_grant(&mut hub, Some(&auth), &id, now());
            assert_eq!(code(&r), refused(403, "NO_GRANT"));
        }
        _ => panic!("no list"),
    }
}

#[test]
fn grants_are_asked_for() {
    let mut hub = new_hub();
    let gov = hub.install_governor(None, now());
    let a = join(&mut hub, "alice");
    let b = join(&mut hub, "bob");
    let (alice, bob, auth) = (bearer(&a), bearer(&b), bearer(&gov.0));
    let r = handle_grant_request(&mut hub, Some(&alice), "bob", None, None, now());
    assert_eq!(r.status, 403);
    let room = get(&handle_room_create(&mut hub, Some(&alice)), "room_id").unwrap();
    assert_eq!(handle_room_join(&mut hub, Some(&alice), &room, None, now()).status, 200);
    assert_eq!(handle_room_join(&mut hub, Some(&bob), &room, None, now()).status, 200);
    let r = handle_grant_request(&mut hub, Some(&alice), "bob", None, None, now());
    assert_eq!(r.status, 200);
    let id = get(&r, "request_id").unwrap();
    let act = |hub: &mut DeliveryHub, who: &str, what: &str, reason: Option<&str>| {
        handle_grant_request_action(hub, Some(who), &id, what, reason, None, None, now())
    };
    assert_eq!(code(&act(&mut hub, &auth, "hold", None)), refused(400, "BAD_REQUEST"));
    assert_eq!(code(&act(&mut hub, &auth, "wave", None)), refused(400, "BAD_REQUEST"));
    let r = act(&mut hub, &auth, "approve", None);
    assert_eq!(get(&r, "status").as_deref(), Some("pending_recipient"));
    let r = act(&mut hub, &bob, "approve", None);
    assert_eq!(get(&r, "status").as_deref(), Some("established"));
    assert_eq!(code(&act(&mut hub, &bob, "approve", None)), refused(400, "BAD_REQUEST"));
}

#[test]
fn pairs_are_blocked_and_freed() {
    let (mut hub, gov, a, b) = granted();
    let auth = bearer(&gov.0);
    let r = handle_grant_block(&mut hub, Some(&bearer(&a)), &a, "bob", "no", None, now());
    assert_eq!(code(&r), refused(401, "AUTH_FAILED"));
    let r = handle_grant_block(&mut hub, Some(&auth), &a, "bob", "noise", None, now());
    assert!(is_bare(&r, 204));
    let send = |hub: &mut DeliveryHub| {
        let from = ParticipantToken(a.clone());
        hub.send(&from, "bob", Payload(vec![1]), None, None, now())
    };
    assert!(matches!(send(&mut hub), Err(Error::GrantBlocked(why)) if why == "noise"));
    let r = handle_grant_unblock(&mut hub, Some(&bearer(&b)), &a, "bob", now());
    assert_eq!(code(&r), refused(403, "FORBIDDEN"));
    assert!(is_bare(&handle_grant_unblock(&mut hub, Some(&auth), &a, "bob", now()), 204));
    assert!(send(&mut hub).is_ok());
}

#[test]
fn governors_through_the_requests() {
    let mut hub = new_hub();
    let a = join(&mut hub, "alice");
    let r = handle_claim_governorship(&mut hub, Some(&bearer(&a)), None, now());
    assert_eq!((r.status, get(&r, "status")), (200, Some("granted".into())));
    let gov = get(&r, "governor_token").unwrap();
    assert!(handle_gov_events(&hub, Some(&bearer(&gov)), now()).is_ok());
    assert!(handle_gov_events(&hub, Some(&bearer(&a)), now()).is_err());
    assert!(handle_gov_events(&hub, None, now()).is_err());

    let r = handle_refresh_governor_token(&mut hub, Some(&bearer(&gov)), now());
    let fresh = get(&r, "token").unwrap();
    assert_ne!(fresh, gov);
    let r = handle_refresh_governor_token(&mut hub, Some(&bearer(&gov)), now());
    assert_eq!(code(&r), refused(401, "AUTH_FAILED"));

    let b = join(&mut hub, "bob");
    let r = handle_claim_governorship(&mut hub, Some(&bearer(&b)), None, now());
    assert_eq!((r.status, get(&r, "status")), (202, Some("transfer_pending".into())));
    let claim = get(&r, "claim_id").unwrap();
    let r = handle_election_vote(&mut hub, Some(&bearer(&fresh)), &claim, "abstain", now());
    assert_eq!(code(&r), refused(400, "BAD_REQUEST"));
    let r = handle_election_vote(&mut hub, Some(&bearer(&fresh)), &claim, "reject", now());
    assert_eq!(get(&r, "status").as_deref(), Some("rejected"));

    let r = handle_transfer_governor(&mut hub, Some(&bearer(&fresh)), Some("bob"), now());
    assert_eq!(r.status, 200);
    let transfer = match &r.body {
        Body::Object(fields) => show(&fields[0].1),
        _ => panic!("no token"),
    };
    assert!(transfer.len() >= 32);
    let r = handle_accept_governor_transfer(&mut hub, Some(&bearer(&a)), Some(&transfer), now());
    assert_eq!(code(&r), refused(403, "FORBIDDEN"));
    let r = handle_accept_governor_transfer(&mut hub, Some(&bearer(&b)), Some(&transfer), now());
    assert_eq!(r.status, 200);
    let r = handle_accept_governor_transfer(&mut hub, Some(&bearer(&b)), Some(&transfer), now());
    assert_eq!(code(&r), refused(404, "NOT_FOUND"));
}

#[test]
fn operator_resets_the_governors() {
    let (mut hub, gov, _, _) = granted();
    let before = hub.validate_governor_token(&gov, now());
    assert!(before.is_ok());
    let r = handle_admin_governor_reset(&mut hub, None, Some("x"), now());
    assert!(r.status >= 400);
    let r = handle_admin_governor_reset(&mut hub, Some("right"), Some("wrong"), now());
    assert!(r.status >= 400);
    let r = handle_admin_governor_reset(&mut hub, Some("right"), None, now());
    assert!(r.status >= 400);
    assert!(hub.validate_governor_token(&gov, now()).is_ok());
    let r = handle_admin_governor_reset(&mut hub, Some("right"), Some("right"), now());
    assert_eq!(r.status, 200);
    assert!(hub.validate_governor_token(&gov, now()).is_err());
    assert!(hub.has_active_governor());
}

#[test]
fn presence_through_the_requests() {
    let (mut hub, gov, a, b) = granted();
    let status = |hub: &DeliveryHub, who: &str| {
        get(&handle_presence(hub, Some(&bearer(who)), "alice", now()), "status")
    };
    assert_eq!(status(&hub, &b).as_deref(), Some("online"));
    assert!(is_bare(&handle_set_presence_scope(&mut hub, Some(&bearer(&a)), "hidden"), 204));
    assert_eq!(status(&hub, &b).as_deref(), Some("offline"));
    assert!(is_bare(&handle_set_presence_scope(&mut hub, Some(&bearer(&a)), "public"), 204));
    assert_eq!(status(&hub, &b).as_deref(), Some("online"));
    assert!(is_bare(&handle_set_presence_scope(&mut hub, Some(&bearer(&a)), "hidden"), 204));
    assert_eq!(
        code(&handle_set_presence_scope(&mut hub, None, "hidden")),
        refused(401, "AUTH_FAILED")
    );
    assert_eq!(code(&handle_presence(&hub, None, "alice", now())), refused(401, "AUTH_FAILED"));
    match handle_list_participants(&hub, Some(&bearer(&gov.0)), now()).body {
        Body::Listing { key, rows } => {
            assert_eq!(key, "participants");
            assert_eq!(rows.len(), 2);
            assert_eq!(field(&rows[0], "name").as_deref(), Some("alice"));
            assert_eq!(field(&rows[0], "status").as_deref(), Some("offline"));
            assert_eq!(field(&rows[1], "status").as_deref(), Some("online"));
        }
        _ => panic!("no list"),
    }
    let r = handle_deregister(&mut hub, Some(&bearer(&b)), "alice", now());
    assert!(r.status >= 400);
    assert!(is_bare(&handle_deregister(&mut hub, Some(&bearer(&gov.0)), "alice", now()), 204));
    assert!(matches!(hub.validate_token(&a), Err(Error::TokenRevoked)));
}

#[test]
fn rooms_through_the_requests() {
    let (mut hub, _gov, a, b) = granted();
    let (alice, bob) = (bearer(&a), bearer(&b));
    assert_eq!(code(&handle_room_create_get_reserved()), refused(400, "BAD_REQUEST"));
    assert_eq!(code(&handle_room_create(&mut hub, None)), refused(401, "AUTH_FAILED"));
    let room = get(&handle_room_create(&mut hub, Some(&alice)), "room_id").unwrap();
    let r = handle_room_join(&mut hub, Some(&alice), "nowhere", None, now());
    assert_eq!(code(&r), refused(404, "NOT_FOUND"));
    let r = handle_room_join(&mut hub, Some(&alice), "create", None, now());
    assert_eq!(code(&r), refused(400, "BAD_REQUEST"));
    let r = handle_room_get(&mut hub, Some(&bob), &room, now());
    assert_eq!(code(&r), refused(403, "FORBIDDEN"));
    assert_eq!(handle_room_join(&mut hub, Some(&alice), &room, Some(60), now()).status, 200);
    match handle_room_join(&mut hub, Some(&bob), &room, None, now()).body {
        Body::Listing { key, rows } => {
            assert_eq!(key, "members");
            let names: Vec<String> = rows.iter().map(|m| field(m, "name").unwrap()).collect();
            assert_eq!(names, ["alice", "bob"]);
            assert_eq!(field(&rows[0], "online").as_deref(), Some("true"));
        }
        _ => panic!("no list"),
    }
    match handle_room_get(&mut hub, Some(&bob), &room, later(61)).body {
        Body::Listing { rows, .. } => assert_eq!(rows.len(), 1),
        _ => panic!("no list"),
    }
    for _ in 0..2 {
        let r = handle_room_leave(&mut hub, Some(&bob), &room, now());
        assert_eq!((r.status, get(&r, "status")), (200, Some("ok".into())));
    }
    let r = handle_room_get(&mut hub, Some(&bob), &room, now());
    assert_eq!(code(&r), refused(403, "FORBIDDEN"));
}

#[test]
fn files_through_the_requests() {
    let (mut hub, _gov, a, b) = granted();
    let up = |hub: &DeliveryHub, auth: Option<&str>, size: usize| {
        handle_attach_upload(
            hub,
            auth,
            "bob",
            Some("no\"te.txt"),
            Some("text/plain; charset=utf-8"),
            size,
            secs(60),
            now(),
        )
    };
    assert!(matches!(up(&hub, Some(&bearer(&a)), 3), Err(Reply { status: 500, .. })));
    hub.persistent = true;
    assert!(matches!(up(&hub, None, 3), Err(Reply { status: 401, .. })));
    assert!(matches!(up(&hub, Some(&bearer(&a)), 0), Err(Reply { status: 400, .. })));
    let file = up(&hub, Some(&bearer(&a)), 3).ok().unwrap();
    assert_eq!(file.filename, "note.txt");
    assert_eq!(file.mime, "text/plain");
    assert_eq!(file.expires_at_secs, 1_750_000_060);
    assert!(file.id.starts_with("att-"));
    assert_eq!(file.id.len(), 36);
    let again = up(&hub, Some(&bearer(&a)), 3).ok().unwrap();
    assert_ne!(file.id, again.id);
    let meta = hub.attached(&file, 3, None);
    let r = uploaded(meta);
    assert_eq!(get(&r, "attachment_id").as_deref(), Some(file.id.as_str()));
    assert_eq!(get(&r, "size").as_deref(), Some("3"));
    assert!(handle_attach_download(&hub, Some(&bearer(&b))).is_ok());
    assert!(matches!(
        handle_attach_download(&hub, Some(&bearer("x"))),
        Err(Reply { status: 401, .. })
    ));
}

fn pushed(hub: &mut DeliveryHub, to: u64) -> Vec<String> {
    hub.take_effects()
        .into_iter()
        .filter_map(|e| match e {
            Effect::Push { stream, text } if stream == to => Some(text),
            _ => None,
        })
        .collect()
}

/// The count of waiting messages has a form of its own; the fields of other events come in the
/// order of their names.
#[test]
fn events_are_json_texts() {
    let (mut hub, gov, a, b) = granted();
    let opened = hub.open_listen(Some(&b), None, None, false, false, now()).unwrap();
    let _ = hub.take_effects();
    let from = ParticipantToken(a.clone());
    hub.send(&from, "bob", Payload(b"x".to_vec()), None, None, now()).unwrap();
    assert_eq!(pushed(&mut hub, opened.1), [r#"{"type":"notify","pending":1}"#]);

    hub.approve_grant_req(
        &gov,
        &b,
        "id-carol",
        None,
        ApproveGrantRequest {
            mediation: Some(GrantMediation::Notify),
            conditions: Some("a \"b\"\n".into()),
            ..Default::default()
        },
        now(),
    )
    .unwrap();
    hub.agents.insert("carol".into(), "id-carol".into());
    let from = ParticipantToken(b);
    let _ = hub.take_effects();
    hub.send(&from, "carol", Payload(b"hi".to_vec()), None, None, now()).unwrap();
    let told: Vec<String> = hub
        .take_effects()
        .into_iter()
        .filter_map(|e| match e {
            Effect::Governors { text } => Some(text),
            _ => None,
        })
        .collect();
    assert_eq!(
        told,
        [concat_event(&[
            r#""conditions":"a \"b\"\n""#,
            r#""from":"bob""#,
            r#""grant_id":"grant-3""#,
            r#""payload":"hi""#,
            r#""to":"carol""#,
            r#""type":"notify""#,
        ])]
    );
}

fn concat_event(fields: &[&str]) -> String {
    format!("{{{}}}", fields.join(","))
}
