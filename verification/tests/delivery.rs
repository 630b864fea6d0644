//! Messages, grants, presence and sessions at the hub.

use serde_json::Value;
use simple_im::clock::{millis, secs, Duration, Moment};
use simple_im::config::Settings;
use simple_im::delivery::{
    Ack, AnnounceResult, ApproveStatus, AttachmentMeta, DeliveryHub, DequeueOutcome, Effect,
    ListenTokenState, MediationDecision, MediationHold, MediationResult, ParticipantInfo,
    ReplyWindow, StoreWrite,
};
use simple_im::error::Error;
use simple_im::persistence::{
    PersistedDenialBlock, PersistedGrant, PersistedIdentity, PersistedToken, StoredAttachment,
};
use simple_im::registry::{AgentIdentity, PresenceScope};
use simple_im::trust::{AllGrantItem, ApproveGrantRequest, GrantDirection, GrantMediation};
use simple_im::types::{GovernorToken, ParticipantToken, Payload, QueuedMessage};
use std::cell::{Cell, RefCell, RefMut};
use std::collections::{BTreeMap, VecDeque};
use std::rc::Rc;

/// A token store in memory.
#[derive(Default)]
struct Shelf {
    tokens: BTreeMap<String, (String, String, Option<u64>)>,
    grants: BTreeMap<String, PersistedGrant>,
    blocks: BTreeMap<(String, String), (String, Option<u64>)>,
    identities: BTreeMap<String, u64>,
    attachments: BTreeMap<String, StoredAttachment>,
}

fn unix_secs(t: i128) -> u64 {
    if t < 0 {
        0
    } else {
        (t / 1_000_000_000) as u64
    }
}

impl Shelf {
    fn write(&mut self, w: StoreWrite, now: Moment) {
        match w {
            StoreWrite::UpsertToken { token, identity, token_type, expires_at } => {
                self.tokens.insert(token, (identity, token_type, expires_at.map(unix_secs)));
            }
            StoreWrite::DeleteToken { token } => {
                self.tokens.remove(&token);
            }
            StoreWrite::UpsertIdentity { name } => {
                self.identities.entry(name).or_insert(now.unix_now());
            }
            StoreWrite::UpsertGrant {
                id,
                identity_a,
                identity_b,
                direction,
                mediation,
                max_messages,
                conditions,
                opens_reply_window,
                expires_at,
                governor_id,
                name_a,
                name_b,
            } => {
                let row = PersistedGrant {
                    id: id.clone(),
                    identity_a,
                    identity_b,
                    direction,
                    mediation,
                    max_messages: max_messages.map(|n| n as i64),
                    messages_used: 0,
                    conditions,
                    opens_reply_window,
                    expires_at_secs: expires_at.map(unix_secs),
                    governor_id,
                    name_a,
                    name_b,
                };
                self.grants.insert(id, row);
            }
            StoreWrite::IncrementGrantUsage { grant_id } => {
                if let Some(g) = self.grants.get_mut(&grant_id) {
                    g.messages_used += 1;
                }
            }
            StoreWrite::DeleteGrant { grant_id } => {
                self.grants.remove(&grant_id);
            }
            StoreWrite::UpsertDenialBlock { from_identity, to_name, reason, expires_at } => {
                self.blocks.insert((from_identity, to_name), (reason, expires_at));
            }
            StoreWrite::DeleteDenialBlock { from_identity, to_name } => {
                self.blocks.remove(&(from_identity, to_name));
            }
            StoreWrite::ResetGovernors { revoked, new_token } => {
                for token in revoked {
                    self.tokens.remove(&token);
                }
                self.tokens.insert(new_token.clone(), (new_token, "governor".into(), None));
            }
        }
    }

    fn token_identity(&self, token: &str) -> Option<String> {
        self.tokens.get(token).map(|row| row.0.clone())
    }

    fn token_type_of(&self, token: &str) -> Option<String> {
        self.tokens.get(token).map(|row| row.1.clone())
    }

    fn identity_created_at(&self, name: &str) -> Option<u64> {
        self.identities.get(name).copied()
    }
}

/// What surrounds a hub: a clock, the streams, the governors' events, timers and a store.
struct Outside {
    hub: RefCell<DeliveryHub>,
    now: Cell<Moment>,
    streams: RefCell<BTreeMap<u64, VecDeque<String>>>,
    governors: RefCell<Vec<String>>,
    timers: RefCell<Vec<(String, u64, u128)>>,
    shelf: Rc<RefCell<Shelf>>,
}

#[derive(Clone)]
struct Hub(Rc<Outside>);

/// The client's end of a stream.
struct Rx {
    token: String,
    stream: u64,
    hub: Hub,
}

impl Rx {
    fn try_recv(&mut self) -> Result<String, ()> {
        let mut streams = self.hub.0.streams.borrow_mut();
        streams.entry(self.stream).or_default().pop_front().ok_or(())
    }
}

impl Drop for Rx {
    fn drop(&mut self) {
        self.hub.0.hub.borrow_mut().stream_dropped(&self.token, self.stream);
    }
}

/// A reader of the governors' events.
struct Events {
    next: usize,
    hub: Hub,
}

impl Events {
    fn try_recv(&mut self) -> Option<String> {
        let events = self.hub.0.governors.borrow();
        let event = events.get(self.next).cloned();
        self.next += 1;
        event
    }
}

fn start() -> Moment {
    Moment { instant: secs(1_000_000), system: 1_750_000_000 * 1_000_000_000 }
}

impl Hub {
    fn around(hub: DeliveryHub, now: Moment, shelf: Rc<RefCell<Shelf>>) -> Hub {
        Hub(Rc::new(Outside {
            hub: RefCell::new(hub),
            now: Cell::new(now),
            streams: RefCell::new(BTreeMap::new()),
            governors: RefCell::new(Vec::new()),
            timers: RefCell::new(Vec::new()),
            shelf,
        }))
    }

    fn now(&self) -> Moment {
        self.0.now.get()
    }

    fn lock(&self) -> RefMut<'_, DeliveryHub> {
        self.0.hub.borrow_mut()
    }

    fn shelf(&self) -> RefMut<'_, Shelf> {
        self.0.shelf.borrow_mut()
    }

    /// Makes a call and performs what it asks for.
    fn call<R>(&self, f: impl FnOnce(&mut DeliveryHub, Moment) -> R) -> R {
        let now = self.now();
        let mut hub = self.lock();
        assert!(hub.is_ready() && hub.can_mint() && now.is_in_range());
        let r = f(&mut hub, now);
        for effect in hub.take_effects() {
            match effect {
                Effect::Push { stream, text } => {
                    self.0.streams.borrow_mut().entry(stream).or_default().push_back(text);
                }
                Effect::Close { .. } => {}
                Effect::Governors { text } => self.0.governors.borrow_mut().push(text),
                Effect::StartSettle { name, timer, window } => {
                    self.0.timers.borrow_mut().push((name, timer, now.instant + window));
                }
                Effect::Store(w) => self.shelf().write(w, now),
            }
        }
        r
    }

    /// Lets time pass.
    fn advance(&self, d: Duration) {
        let now = self.now();
        let later = Moment { instant: now.instant + d, system: now.system + d as i128 };
        self.0.now.set(later);
        let all: Vec<(String, u64, u128)> = self.0.timers.borrow_mut().drain(..).collect();
        for (name, timer, at) in all {
            if at <= later.instant {
                self.call(|h, _| h.settle_fired(&name, timer));
            } else {
                self.0.timers.borrow_mut().push((name, timer, at));
            }
        }
    }

    fn token_state(&self, token: &str, f: impl FnOnce(&mut ListenTokenState)) {
        let mut hub = self.lock();
        let mut st = hub.tokens.remove(token).unwrap();
        f(&mut st);
        hub.tokens.insert(token.to_string(), st);
    }

    fn subscribe_gov_events(&self) -> Events {
        Events { next: self.0.governors.borrow().len(), hub: self.clone() }
    }

    fn install_governor(&self, expiry: Option<Duration>) -> GovernorToken {
        self.call(|h, now| h.install_governor(expiry, now))
    }

    fn validate_governor_token(&self, gov: &GovernorToken) -> Result<(), Error> {
        self.call(|h, now| h.validate_governor_token(gov, now))
    }

    fn has_active_governor(&self) -> bool {
        self.call(|h, _| h.has_active_governor())
    }

    fn admin_reset_governor(&self) -> GovernorToken {
        self.call(|h, now| h.admin_reset_governor(now))
    }

    fn refresh_governor_token(&self, gov: &GovernorToken) -> Result<GovernorToken, Error> {
        self.call(|h, now| h.refresh_governor_token(gov, now))
    }

    fn register_participant(&self) -> String {
        self.call(|h, now| h.register_participant(now))
    }

    fn issue_token(&self) -> String {
        self.call(|h, now| h.issue_token(now))
    }

    fn issue_participant_token(
        &self,
        gov: &GovernorToken,
        name: Option<&str>,
    ) -> Result<(String, Option<String>), Error> {
        self.call(|h, now| h.issue_participant_token(gov, name, now))
    }

    fn open_listen(
        &self,
        token: Option<&str>,
        peer_ip: Option<&str>,
        name: Option<&str>,
        force: bool,
        presence_push: bool,
    ) -> Result<(String, Rx), Error> {
        let (token, stream) =
            self.call(|h, now| h.open_listen(token, peer_ip, name, force, presence_push, now))?;
        let rx = Rx { token: token.clone(), stream, hub: self.clone() };
        Ok((token, rx))
    }

    fn close_listen(&self, token: &str) {
        self.call(|h, now| h.close_listen(token, now))
    }

    fn announce(&self, token: &str, name: &str) -> Result<AnnounceResult, Error> {
        self.call(|h, now| h.announce(token, name, now))
    }

    fn validate_token(&self, token: &str) -> Result<Option<String>, Error> {
        self.call(|h, _| h.validate_token(token))
    }

    fn kick_pending_for(&self, name: &str) -> bool {
        self.call(|h, _| h.kick_pending_for(name))
    }

    fn sse_open(&self, name: &str) {
        self.call(|h, _| h.sse_open(name))
    }

    fn sse_close(&self, name: &str) {
        self.call(|h, _| h.sse_close(name))
    }

    fn presence(&self, name: &str) -> bool {
        self.call(|h, now| h.presence(name, now))
    }

    fn presence_for_token(&self, token: &str, target: &str) -> Result<bool, Error> {
        self.call(|h, now| h.presence_for_token(token, target, now))
    }

    fn list_participants(&self, gov: &GovernorToken) -> Result<Vec<ParticipantInfo>, Error> {
        self.call(|h, now| h.list_participants(gov, now))
    }

    fn approve_grant(
        &self,
        gov: &GovernorToken,
        a: &str,
        b: &str,
        expiry: Option<Duration>,
    ) -> Result<String, Error> {
        self.call(|h, now| h.approve_grant(gov, a, b, expiry, now))
    }

    fn approve_grant_req(
        &self,
        gov: &GovernorToken,
        a: &str,
        b: &str,
        expiry: Option<Duration>,
        req: ApproveGrantRequest,
    ) -> Result<String, Error> {
        self.call(|h, now| h.approve_grant_req(gov, a, b, expiry, req, now))
    }

    fn request_grant(
        &self,
        token: &str,
        to: &str,
        reason: Option<String>,
        update: Option<&str>,
    ) -> Result<String, Error> {
        self.call(|h, now| h.request_grant(token, to, reason, update, now))
    }

    fn approve_grant_request(
        &self,
        token: &str,
        id: &str,
        expiry: Option<Duration>,
    ) -> Result<ApproveStatus, Error> {
        self.call(|h, now| h.approve_grant_request(token, id, expiry, now))
    }

    fn deny_grant_request(
        &self,
        token: &str,
        id: &str,
        reason: &str,
        expires_at: Option<u64>,
    ) -> Result<(), Error> {
        self.call(|h, now| h.deny_grant_request(token, id, reason, expires_at, now))
    }

    fn list_all_grants_gov(
        &self,
        gov: &GovernorToken,
        filter: Option<&str>,
    ) -> Result<Vec<AllGrantItem>, Error> {
        self.call(|h, now| h.list_all_grants_gov(gov, filter, now))
    }

    fn send(
        &self,
        token: &ParticipantToken,
        to: &str,
        payload: Payload,
        reason: Option<String>,
        thread: Option<String>,
    ) -> Result<Ack, Error> {
        self.call(|h, now| h.send(token, to, payload, reason, thread, now))
    }

    fn resolve_mediation(
        &self,
        gov: &GovernorToken,
        id: &str,
        decision: MediationDecision,
    ) -> Result<MediationResult, Error> {
        self.call(|h, now| h.resolve_mediation(gov, id, decision, now))
    }

    fn dequeue(
        &self,
        token: &str,
        thread: Option<&str>,
    ) -> Result<(Option<QueuedMessage>, usize), Error> {
        self.call(|h, now| h.dequeue(token, thread, now))
    }

    fn attach(
        &self,
        token: &str,
        to: &str,
        filename: &str,
        mime: &str,
        bytes: Vec<u8>,
        note: Option<&str>,
        ttl: Duration,
    ) -> Result<AttachmentMeta, Error> {
        let a = self.call(|h, now| h.attach(token, to, filename, mime, ttl, now))?;
        let size = bytes.len();
        let file = StoredAttachment {
            from_identity: a.from_identity.clone(),
            to_name: a.to_name.clone(),
            filename: a.filename.clone(),
            mime: a.mime.clone(),
            bytes,
            expires_at_secs: a.expires_at_secs,
        };
        self.shelf().attachments.insert(a.id.clone(), file);
        Ok(self.call(|h, _| h.attached(&a, size, note)))
    }

    fn fetch_attachment(&self, token: &str, id: &str) -> Result<(Vec<u8>, String, String), Error> {
        let reader = self.call(|h, _| h.reader_of(token))?;
        let found = self.shelf().attachments.get(id).map(|f| StoredAttachment {
            from_identity: f.from_identity.clone(),
            to_name: f.to_name.clone(),
            filename: f.filename.clone(),
            mime: f.mime.clone(),
            bytes: f.bytes.clone(),
            expires_at_secs: f.expires_at_secs,
        });
        reader.fetch_attachment(found, self.now().unix_now())
    }

    /// Collects the garbage and counts the tokens that went.
    fn trigger_gc_for_test(&self) -> usize {
        let before = self.lock().tokens.len();
        self.call(|h, now| h.gc_tokens(now));
        before - self.lock().tokens.len()
    }
}

fn make_hub(lapse: Duration) -> Hub {
    let hub = DeliveryHub::new(lapse, Settings::default());
    Hub::around(hub, start(), empty_shelf())
}

fn empty_shelf() -> Rc<RefCell<Shelf>> {
    Rc::new(RefCell::new(Shelf::default()))
}

/// A hub taken up from a store an hour after the start.
fn make_persisted_hub(db: &Rc<RefCell<Shelf>>, lapse: Duration) -> Hub {
    let begun = start();
    let now = Moment {
        instant: begun.instant + secs(3600),
        system: begun.system + secs(3600) as i128,
    };
    let mut tokens = Vec::new();
    let mut grants = Vec::new();
    let mut blocks = Vec::new();
    let mut identities = Vec::new();
    {
        let shelf = db.borrow();
        for (token, (identity, token_type, expires)) in &shelf.tokens {
            tokens.push(PersistedToken {
                token: token.clone(),
                identity: identity.clone(),
                token_type: token_type.clone(),
                expires_at_secs: *expires,
            });
        }
        for g in shelf.grants.values() {
            grants.push(PersistedGrant {
                id: g.id.clone(),
                identity_a: g.identity_a.clone(),
                identity_b: g.identity_b.clone(),
                direction: g.direction.clone(),
                mediation: g.mediation.clone(),
                max_messages: g.max_messages,
                messages_used: g.messages_used,
                conditions: g.conditions.clone(),
                opens_reply_window: g.opens_reply_window,
                expires_at_secs: g.expires_at_secs,
                governor_id: g.governor_id.clone(),
                name_a: g.name_a.clone(),
                name_b: g.name_b.clone(),
            });
        }
        for ((from, to), (reason, expires)) in &shelf.blocks {
            blocks.push(PersistedDenialBlock {
                from_identity: from.clone(),
                to_name: to.clone(),
                reason: reason.clone(),
                expires_at: *expires,
            });
        }
        for (name, created) in &shelf.identities {
            identities.push(PersistedIdentity {
                name: name.clone(),
                created_at: created.to_string(),
            });
        }
    }
    let hub = DeliveryHub::new_with_persisted_state(
        lapse,
        Settings::default(),
        tokens,
        grants,
        blocks,
        identities,
        now,
    );
    Hub::around(hub, now, Rc::clone(db))
}

fn test_mint(hub: &Hub) -> Result<ParticipantToken, Error> {
    Ok(ParticipantToken(hub.register_participant()))
}

/// Binds a name to a token, and shows or hides its holder.
fn test_bind(
    hub: &Hub,
    name: &str,
    tok: &ParticipantToken,
    scope: PresenceScope,
) -> Result<(), Error> {
    hub.announce(&tok.0, name)?;
    match scope {
        PresenceScope::Hidden => hub.call(|h, _| h.conceal(&tok.0)),
        PresenceScope::Public | PresenceScope::GrantScoped => hub.call(|h, _| h.show(&tok.0)),
    }
}

/// Fetches a message, after some time where none is there at once.
fn test_long_poll_dequeue(
    hub: &Hub,
    token: &ParticipantToken,
    max_wait: Duration,
) -> Result<DequeueOutcome, Error> {
    let (first, _remaining) = hub.dequeue(&token.0, None)?;
    if let Some(m) = first {
        return Ok(DequeueOutcome::Message(m));
    }
    hub.advance(max_wait);
    let (second, _remaining) = hub.dequeue(&token.0, None)?;
    Ok(match second {
        Some(m) => DequeueOutcome::Message(m),
        None => DequeueOutcome::Empty,
    })
}

fn setup_hub_ab() -> (Hub, ParticipantToken, ParticipantToken) {
    let (hub, gov, tok_a, tok_b) = setup_hub_no_grant();
    hub.approve_grant(&gov, &tok_a.0, &tok_b.0, None).unwrap();
    (hub, tok_a, tok_b)
}

fn setup_hub_no_grant() -> (Hub, GovernorToken, ParticipantToken, ParticipantToken) {
    let hub = make_hub(secs(30));
    let gov = hub.install_governor(None);
    let tok_a = test_mint(&hub).unwrap();
    let tok_b = test_mint(&hub).unwrap();
    (hub, gov, tok_a, tok_b)
}

fn setup_hub_with(
    req: ApproveGrantRequest,
) -> (Hub, GovernorToken, ParticipantToken, ParticipantToken) {
    let (hub, gov, tok_a, tok_b) = setup_hub_no_grant();
    hub.approve_grant_req(&gov, &tok_a.0, &tok_b.0, None, req).unwrap();
    (hub, gov, tok_a, tok_b)
}

/// One-way grant that opens reply windows: the answer needs a window.
fn setup_hub_ab_window() -> (Hub, GovernorToken, ParticipantToken, ParticipantToken) {
    setup_hub_with(ApproveGrantRequest {
        direction: Some(GrantDirection::AToB),
        opens_reply_window: Some(true),
        ..Default::default()
    })
}

fn setup_hub_brief() -> (Hub, GovernorToken, ParticipantToken, ParticipantToken) {
    setup_hub_no_grant()
}

fn setup_hub_inspect() -> (Hub, GovernorToken, ParticipantToken, ParticipantToken) {
    setup_hub_with(ApproveGrantRequest {
        mediation: Some(GrantMediation::Inspect),
        direction: Some(GrantDirection::AToB),
        opens_reply_window: Some(true),
        ..Default::default()
    })
}

/// A hub with a store, two participants and a grant between them.
fn setup_persisted_ab(
    db: &Rc<RefCell<Shelf>>,
) -> (Hub, ParticipantToken, ParticipantToken, GovernorToken) {
    let hub = make_persisted_hub(db, secs(30));
    let gov = hub.install_governor(None);
    let tok_a = test_mint(&hub).unwrap();
    let tok_b = test_mint(&hub).unwrap();
    hub.approve_grant(&gov, &tok_a.0, &tok_b.0, None).unwrap();
    test_bind(&hub, "alice", &tok_a, PresenceScope::GrantScoped).unwrap();
    test_bind(&hub, "bob", &tok_b, PresenceScope::GrantScoped).unwrap();
    (hub, tok_a, tok_b, gov)
}

fn assert_announce_writes_identity_not_token() {
    let db = empty_shelf();
    let hub = make_persisted_hub(&db, secs(30));
    let reg = hub.register_participant();
    let (tok, _rx) = hub.open_listen(Some(&reg), None, None, false, false).unwrap();
    hub.announce(&tok, "Alice").unwrap();
    assert_eq!(db.borrow().token_identity(&tok).as_deref(), Some("Alice"));
    assert_eq!(db.borrow().token_type_of(&tok).as_deref(), Some("participant"));
}

/// A and B registered with valid grant; send → ACCEPTED; B's dequeue returns payload once.
#[test]
fn ac_msg_1_send_accepted_dequeue_returns_payload_once() {
    let (hub, tok_a, tok_b) = setup_hub_ab();
    test_bind(&hub, "alice", &tok_a, PresenceScope::GrantScoped).unwrap();
    test_bind(&hub, "bob", &tok_b, PresenceScope::GrantScoped).unwrap();

    let ack = hub.send(&tok_a, "bob", Payload(b"hi".to_vec()), None, None);
    assert!(matches!(ack, Ok(Ack::Accepted)));

    let outcome = test_long_poll_dequeue(&hub, &tok_b, millis(100))
        .unwrap();
    match outcome {
        DequeueOutcome::Message(m) => assert_eq!(m.payload.0, b"hi"),
        DequeueOutcome::Empty => panic!("expected a message"),
    }

    let second = test_long_poll_dequeue(&hub, &tok_b, millis(20))
        .unwrap();
    assert!(matches!(second, DequeueOutcome::Empty));
}

/// Send to unregistered recipient → RecipientUnknown.
#[test]
fn ac_msg_2_recipient_unknown() {
    let (hub, tok_a, tok_b) = setup_hub_ab();
    test_bind(&hub, "alice", &tok_a, PresenceScope::GrantScoped).unwrap();

    let result = hub.send(&tok_a, "bob", Payload(b"hi".to_vec()), None, None);
    assert!(matches!(result, Err(Error::RecipientUnknown)));

    test_bind(&hub, "bob", &tok_b, PresenceScope::GrantScoped).unwrap();
    let empty = test_long_poll_dequeue(&hub, &tok_b, millis(20))
        .unwrap();
    assert!(matches!(empty, DequeueOutcome::Empty));
}

#[test]
fn ac1_ac2_send_to_offline_registered_queues_message() {
    let hub = make_hub(millis(10));
    let gov = hub.install_governor(None);
    let tok_a = test_mint(&hub).unwrap();
    let tok_b = test_mint(&hub).unwrap();
    hub.approve_grant(&gov, &tok_a.0, &tok_b.0, None).unwrap();
    test_bind(&hub, "alice", &tok_a, PresenceScope::GrantScoped).unwrap();
    test_bind(&hub, "bob", &tok_b, PresenceScope::GrantScoped).unwrap();

    hub.advance(millis(20));

    let result = hub.send(
        &tok_a,
        "bob",
        Payload(b"hello offline".to_vec()),
        None,
        None,
    );
    assert!(
        matches!(result, Ok(Ack::Accepted)),
        "send to offline-but-registered agent must be accepted"
    );

    test_bind(&hub, "bob", &tok_b, PresenceScope::GrantScoped).unwrap();

    let outcome = test_long_poll_dequeue(&hub, &tok_b, millis(100))
        .unwrap();
    match outcome {
        DequeueOutcome::Message(m) => {
            assert_eq!(m.payload.0, b"hello offline");
            assert_eq!(m.from_name, "alice");
        }
        DequeueOutcome::Empty => panic!("expected queued message after offline delivery"),
    }
}

/// Send to UNREGISTERED agent returns RECIPIENT_UNKNOWN.
#[test]
fn ac3_send_to_unregistered_returns_unknown() {
    let hub = make_hub(secs(30));
    let gov = hub.install_governor(None);
    let tok_a = test_mint(&hub).unwrap();
    test_mint(&hub).unwrap();
    hub.approve_grant(&gov, &tok_a.0, "id-bob", None).unwrap();
    test_bind(&hub, "alice", &tok_a, PresenceScope::GrantScoped).unwrap();

    assert!(matches!(
        hub.send(&tok_a, "bob", Payload(b"hi".to_vec()), None, None),
        Err(Error::RecipientUnknown)
    ));
}

#[test]
fn ac5_ac6_multiple_offline_messages_returned_in_fifo_order() {
    let hub = make_hub(millis(10));
    let gov = hub.install_governor(None);
    let tok_a = test_mint(&hub).unwrap();
    let tok_b = test_mint(&hub).unwrap();
    hub.approve_grant(&gov, &tok_a.0, &tok_b.0, None).unwrap();
    test_bind(&hub, "alice", &tok_a, PresenceScope::GrantScoped).unwrap();
    test_bind(&hub, "bob", &tok_b, PresenceScope::GrantScoped).unwrap();

    hub.advance(millis(20));

    hub.send(&tok_a, "bob", Payload(b"msg1".to_vec()), None, None)
        .unwrap();
    hub.send(&tok_a, "bob", Payload(b"msg2".to_vec()), None, None)
        .unwrap();
    hub.send(&tok_a, "bob", Payload(b"msg3".to_vec()), None, None)
        .unwrap();

    test_bind(&hub, "bob", &tok_b, PresenceScope::GrantScoped).unwrap();

    let m1 = test_long_poll_dequeue(&hub, &tok_b, millis(50))
        .unwrap();
    let m2 = test_long_poll_dequeue(&hub, &tok_b, millis(50))
        .unwrap();
    let m3 = test_long_poll_dequeue(&hub, &tok_b, millis(50))
        .unwrap();
    let empty = test_long_poll_dequeue(&hub, &tok_b, millis(20))
        .unwrap();

    match m1 {
        DequeueOutcome::Message(m) => assert_eq!(m.payload.0, b"msg1"),
        _ => panic!(),
    }
    match m2 {
        DequeueOutcome::Message(m) => assert_eq!(m.payload.0, b"msg2"),
        _ => panic!(),
    }
    match m3 {
        DequeueOutcome::Message(m) => assert_eq!(m.payload.0, b"msg3"),
        _ => panic!(),
    }
    assert!(matches!(empty, DequeueOutcome::Empty));
}

/// Kick_pending is set after queuing, cleared when queue empties.
#[test]
fn ac7_kick_pending_set_on_queue_cleared_on_drain() {
    let (hub, tok_a, tok_b) = setup_hub_ab();
    test_bind(&hub, "alice", &tok_a, PresenceScope::GrantScoped).unwrap();
    test_bind(&hub, "bob", &tok_b, PresenceScope::GrantScoped).unwrap();

    assert!(!hub.kick_pending_for("bob"));

    hub.send(&tok_a, "bob", Payload(b"hi".to_vec()), None, None)
        .unwrap();
    assert!(
        hub.kick_pending_for("bob"),
        "kick_pending should be set after queuing"
    );

    let (msg, _remaining) = hub.dequeue(&tok_b.0, None).unwrap();
    assert!(msg.is_some());
    assert!(
        !hub.kick_pending_for("bob"),
        "kick_pending cleared when queue empties"
    );
}

#[test]
fn ac_msg_6_dequeue_invalid_token_returns_auth_failed() {
    let hub = make_hub(secs(30));
    let bad_token = ParticipantToken("not-a-real-token".into());

    let result = test_long_poll_dequeue(&hub, &bad_token, millis(10));
    assert!(matches!(result, Err(Error::TokenRejected)));
}

/// Two messages in order are dequeued in send order, each once.
#[test]
fn ac_msg_7_messages_delivered_in_send_order() {
    let (hub, tok_a, tok_b) = setup_hub_ab();
    test_bind(&hub, "alice", &tok_a, PresenceScope::GrantScoped).unwrap();
    test_bind(&hub, "bob", &tok_b, PresenceScope::GrantScoped).unwrap();

    hub.send(&tok_a, "bob", Payload(b"1".to_vec()), None, None)
        .unwrap();
    hub.send(&tok_a, "bob", Payload(b"2".to_vec()), None, None)
        .unwrap();

    let m1 = test_long_poll_dequeue(&hub, &tok_b, millis(50))
        .unwrap();
    let m2 = test_long_poll_dequeue(&hub, &tok_b, millis(50))
        .unwrap();

    match m1 {
        DequeueOutcome::Message(m) => assert_eq!(m.payload.0, b"1"),
        DequeueOutcome::Empty => panic!("expected first message"),
    }
    match m2 {
        DequeueOutcome::Message(m) => assert_eq!(m.payload.0, b"2"),
        DequeueOutcome::Empty => panic!("expected second message"),
    }

    let empty = test_long_poll_dequeue(&hub, &tok_b, millis(20))
        .unwrap();
    assert!(matches!(empty, DequeueOutcome::Empty));
}

/// Queued message survives re-registration (messages not tied to a session channel).
#[test]
fn queued_message_survives_reregistration() {
    let (hub, tok_a, tok_b) = setup_hub_ab();
    test_bind(&hub, "alice", &tok_a, PresenceScope::GrantScoped).unwrap();
    test_bind(&hub, "bob", &tok_b, PresenceScope::GrantScoped).unwrap();

    hub.send(&tok_a, "bob", Payload(b"survive".to_vec()), None, None)
        .unwrap();

    test_bind(&hub, "bob", &tok_b, PresenceScope::GrantScoped).unwrap();

    let outcome = test_long_poll_dequeue(&hub, &tok_b, millis(100))
        .unwrap();
    match outcome {
        DequeueOutcome::Message(m) => assert_eq!(m.payload.0, b"survive"),
        DequeueOutcome::Empty => panic!("message should survive re-registration"),
    }
}

/// Grant with max_messages=3 allows exactly 3 deliveries; 4th → GrantExhausted.
#[test]
fn budget_decrements_on_delivery() {
    let hub = make_hub(secs(30));
    let gov = hub.install_governor(None);
    let tok_a = test_mint(&hub).unwrap();
    let tok_b = test_mint(&hub).unwrap();
    hub.approve_grant_req(
        &gov,
        &tok_a.0,
        &tok_b.0,
        None,
        ApproveGrantRequest {
            max_messages: Some(3),
            ..Default::default()
        },
    )
    .unwrap();
    test_bind(&hub, "alice", &tok_a, PresenceScope::GrantScoped).unwrap();
    test_bind(&hub, "bob", &tok_b, PresenceScope::GrantScoped).unwrap();

    assert!(
        hub.send(&tok_a, "bob", Payload(b"1".to_vec()), None, None)
            .is_ok()
    );
    assert!(
        hub.send(&tok_a, "bob", Payload(b"2".to_vec()), None, None)
            .is_ok()
    );
    assert!(
        hub.send(&tok_a, "bob", Payload(b"3".to_vec()), None, None)
            .is_ok()
    );
    assert!(matches!(
        hub.send(&tok_a, "bob", Payload(b"4".to_vec()), None, None),
        Err(Error::GrantExhausted)
    ));
}

/// Grant with max_messages=1 is exhausted after a single successful delivery.
#[test]
fn one_time_grant_exhausted_after_first_delivery() {
    let hub = make_hub(secs(30));
    let gov = hub.install_governor(None);
    let tok_a = test_mint(&hub).unwrap();
    let tok_b = test_mint(&hub).unwrap();
    hub.approve_grant_req(
        &gov,
        &tok_a.0,
        &tok_b.0,
        None,
        ApproveGrantRequest {
            max_messages: Some(1),
            ..Default::default()
        },
    )
    .unwrap();
    test_bind(&hub, "alice", &tok_a, PresenceScope::GrantScoped).unwrap();
    test_bind(&hub, "bob", &tok_b, PresenceScope::GrantScoped).unwrap();

    assert!(
        hub.send(&tok_a, "bob", Payload(b"first".to_vec()), None, None)
            .is_ok()
    );
    assert!(matches!(
        hub.send(&tok_a, "bob", Payload(b"second".to_vec()), None, None),
        Err(Error::GrantExhausted)
    ));
}

/// Two concurrent sends against a max_messages=1 grant — exactly one succeeds.
#[test]
fn ac_12_concurrent_sends_single_use_grant_exactly_one_succeeds() {
    let hub = make_hub(secs(30));
    let gov = hub.install_governor(None);
    let tok_a = test_mint(&hub).unwrap();
    let tok_b = test_mint(&hub).unwrap();
    hub.approve_grant_req(
        &gov,
        &tok_a.0,
        &tok_b.0,
        None,
        ApproveGrantRequest {
            max_messages: Some(1),
            ..Default::default()
        },
    )
    .unwrap();
    test_bind(&hub, "alice", &tok_a, PresenceScope::GrantScoped).unwrap();
    test_bind(&hub, "bob", &tok_b, PresenceScope::GrantScoped).unwrap();

    let tok_a2 = ParticipantToken(tok_a.0.clone());


    let r1 = hub.send(&tok_a, "bob", Payload(b"from-t1".to_vec()), None, None);
    let r2 = hub.send(&tok_a2, "bob", Payload(b"from-t2".to_vec()), None, None);

    let successes = [r1.is_ok(), r2.is_ok()].iter().filter(|&&x| x).count();
    let exhausted = [&r1, &r2]
        .iter()
        .filter(|r| matches!(r, Err(Error::GrantExhausted)))
        .count();

    assert_eq!(
        successes, 1,
        "exactly one send should succeed on a max_messages=1 grant"
    );
    assert_eq!(
        exhausted, 1,
        "exactly one send should return GrantExhausted"
    );
}

#[test]
fn reply_window_opens_after_delivery() {
    let (hub, _gov, tok_a, tok_b) = setup_hub_ab_window();
    test_bind(&hub, "alice", &tok_a, PresenceScope::GrantScoped).unwrap();
    test_bind(&hub, "bob", &tok_b, PresenceScope::GrantScoped).unwrap();

    assert!(matches!(
        hub.send(&tok_a, "bob", Payload(b"hi".to_vec()), None, None),
        Ok(Ack::Accepted)
    ));

    let _ = test_long_poll_dequeue(&hub, &tok_b, millis(50));

    assert!(matches!(
        hub.send(&tok_b, "alice", Payload(b"reply".to_vec()), None, None),
        Ok(Ack::Accepted)
    ));

    let outcome = test_long_poll_dequeue(&hub, &tok_a, millis(50))
        .unwrap();
    match outcome {
        DequeueOutcome::Message(m) => assert_eq!(m.payload.0, b"reply"),
        DequeueOutcome::Empty => panic!("expected reply message"),
    }
}

/// After window consumed, next R→S send with no grant → RequestPending (bilateral consent).
#[test]
fn reply_window_consumed_on_use() {
    let (hub, _gov, tok_a, tok_b) = setup_hub_ab_window();
    test_bind(&hub, "alice", &tok_a, PresenceScope::GrantScoped).unwrap();
    test_bind(&hub, "bob", &tok_b, PresenceScope::GrantScoped).unwrap();

    hub.send(&tok_a, "bob", Payload(b"msg".to_vec()), None, None)
        .unwrap();

    assert!(matches!(
        hub.send(&tok_b, "alice", Payload(b"reply".to_vec()), None, None),
        Ok(Ack::Accepted)
    ));

    assert!(matches!(
        hub.send(&tok_b, "alice", Payload(b"again".to_vec()), None, None),
        Err(Error::NoGrant)
    ));
}

/// Reply via window opens a new window (S,R) enabling back-and-forth.
#[test]
fn reply_window_back_and_forth() {
    let (hub, _gov, tok_a, tok_b) = setup_hub_ab_window();
    test_bind(&hub, "alice", &tok_a, PresenceScope::GrantScoped).unwrap();
    test_bind(&hub, "bob", &tok_b, PresenceScope::GrantScoped).unwrap();

    hub.send(&tok_a, "bob", Payload(b"1".to_vec()), None, None)
        .unwrap();

    hub.send(&tok_b, "alice", Payload(b"2".to_vec()), None, None)
        .unwrap();

    assert!(matches!(
        hub.send(&tok_a, "bob", Payload(b"3".to_vec()), None, None),
        Ok(Ack::Accepted)
    ));
}

/// Standing R→S grant used; window stays unused.
#[test]
fn standing_grant_used_window_not_consumed() {
    let hub = make_hub(secs(30));
    let gov = hub.install_governor(None);
    let tok_a = test_mint(&hub).unwrap();
    let tok_b = test_mint(&hub).unwrap();
    hub.approve_grant(&gov, &tok_a.0, &tok_b.0, None).unwrap();
    test_bind(&hub, "alice", &tok_a, PresenceScope::GrantScoped).unwrap();
    test_bind(&hub, "bob", &tok_b, PresenceScope::GrantScoped).unwrap();

    hub.send(&tok_a, "bob", Payload(b"hi".to_vec()), None, None)
        .unwrap();

    hub.send(&tok_b, "alice", Payload(b"reply".to_vec()), None, None)
        .unwrap();

    let inner = hub.lock();
    let window = inner
        .windows
        .iter()
        .find(|w| w.recipient == "bob" && w.sender == "alice");
    if let Some(w) = window {
        assert!(
            !w.used,
            "window should not be consumed when standing grant is used"
        );
    }
}

/// SIMPLE_IM_REPLY_TTL_SECS env var configures TTL.
#[test]
fn reply_ttl_env_var() {
    let hub = make_hub(secs(30));
    let inner = hub.lock();
    assert!(inner.reply_ttl >= secs(5));
    assert!(inner.reply_ttl <= secs(600));
}

/// Expired window is not used.
#[test]
fn expired_window_not_used() {
    let hub = make_hub(secs(30));
    let _gov = hub.install_governor(None);
    let tok_a = test_mint(&hub).unwrap();
    let tok_b = test_mint(&hub).unwrap();
    test_bind(&hub, "alice", &tok_a, PresenceScope::GrantScoped).unwrap();
    test_bind(&hub, "bob", &tok_b, PresenceScope::GrantScoped).unwrap();

    {
        let mut inner = hub.lock();
        inner.windows.push(ReplyWindow {
            recipient: "bob".into(),
            sender: "alice".into(),
            expires: hub.now().instant - secs(1),
            used: false,
        });
    }

    assert!(matches!(
        hub.send(&tok_b, "alice", Payload(b"hi".to_vec()), None, None),
        Err(Error::NoGrant)
    ));
}

/// Two concurrent R→S sends on one window: exactly one Accepted, one error.
#[test]
fn concurrent_sends_on_one_window_exactly_one_succeeds() {
    let hub = make_hub(secs(30));
    let gov = hub.install_governor(None);
    let tok_a = test_mint(&hub).unwrap();
    let tok_b = test_mint(&hub).unwrap();
    hub.approve_grant_req(
        &gov,
        &tok_a.0,
        &tok_b.0,
        None,
        ApproveGrantRequest {
            direction: Some(GrantDirection::AToB),
            opens_reply_window: Some(true),
            ..Default::default()
        },
    )
    .unwrap();
    test_bind(&hub, "alice", &tok_a, PresenceScope::GrantScoped).unwrap();
    test_bind(&hub, "bob", &tok_b, PresenceScope::GrantScoped).unwrap();

    hub.send(&tok_a, "bob", Payload(b"init".to_vec()), None, None)
        .unwrap();

    let tok_b2 = ParticipantToken(tok_b.0.clone());

    let r1 = hub.send(&tok_b, "alice", Payload(b"r1".to_vec()), None, None);
    let r2 = hub.send(&tok_b2, "alice", Payload(b"r2".to_vec()), None, None);

    let accepted = [&r1, &r2]
        .iter()
        .filter(|r| matches!(r, Ok(Ack::Accepted)))
        .count();
    let no_grant = [&r1, &r2]
        .iter()
        .filter(|r| matches!(r, Err(Error::NoGrant)))
        .count();
    assert_eq!(
        accepted, 1,
        "exactly one concurrent window send should be Accepted"
    );
    assert_eq!(
        no_grant, 1,
        "the other concurrent send should return NoGrant"
    );
}

/// No grant + no window + no reason → send returns NoGrant; request_grant creates ConnectionRequest.
#[test]
fn no_grant_creates_connection_request() {
    let (hub, _gov, tok_a, _tok_b) = setup_hub_brief();
    test_bind(&hub, "alice", &tok_a, PresenceScope::GrantScoped).unwrap();
    hub.lock().agents.insert("bob".into(), "id-bob".into());
    let now = hub.now().instant;
    hub.lock()
        .registry
        .register("bob", AgentIdentity::valid("id-bob"), PresenceScope::Public, now)
        .unwrap();

    let result = hub.send(&tok_a, "bob", Payload(b"hello".to_vec()), None, None);
    assert!(
        matches!(result, Err(Error::NoGrant)),
        "no-grant send must return NoGrant"
    );

    let request_id = hub
        .request_grant(&tok_a.0, "bob", None, None)
        .expect("request_grant must succeed");
    let inner = hub.lock();
    assert!(
        inner.requests.contains_key(&request_id),
        "request_grant must create a connection request"
    );
}

/// No grant + no window + reason → send returns NoGrant; request_grant creates ConnectionRequest with reason.
#[test]
fn no_grant_with_reason_creates_request() {
    let (hub, _gov, tok_a, tok_b) = setup_hub_brief();
    test_bind(&hub, "alice", &tok_a, PresenceScope::GrantScoped).unwrap();
    test_bind(&hub, "bob", &tok_b, PresenceScope::GrantScoped).unwrap();

    let result = hub.send(
        &tok_a,
        "bob",
        Payload(b"hello".to_vec()),
        Some("urgent request".into()),
        None,
    );
    assert!(
        matches!(result, Err(Error::NoGrant)),
        "no-grant send must return NoGrant"
    );

    let request_id = hub
        .request_grant(&tok_a.0, "bob", Some("urgent request".into()), None)
        .expect("request_grant must succeed");
    assert!(
        request_id.starts_with("req-"),
        "request_id should start with req-"
    );
}

/// No grant + governor offline → send returns NoGrant; request_grant creates ConnectionRequest without governor online.
#[test]
fn no_grant_no_governor_still_creates_request() {
    let hub = make_hub(secs(30));
    let gov = hub.install_governor(None);
    let tok_a = test_mint(&hub).unwrap();
    let tok_b = test_mint(&hub).unwrap();
    hub.lock()
        .trust
        .set_governor_online(&gov.0, false);
    test_bind(&hub, "alice", &tok_a, PresenceScope::GrantScoped).unwrap();
    test_bind(&hub, "bob", &tok_b, PresenceScope::GrantScoped).unwrap();

    assert!(
        matches!(
            hub.send(
                &tok_a,
                "bob",
                Payload(b"hi".to_vec()),
                Some("reason".into()),
                None
            ),
            Err(Error::NoGrant)
        ),
        "no-grant send must return NoGrant"
    );
    let request_id = hub
        .request_grant(&tok_a.0, "bob", Some("reason".into()), None)
        .expect("request_grant must succeed regardless of governor online status");
    assert!(!request_id.is_empty(), "connection request must be created");
}

/// Both governor and recipient approve → grant established; subsequent sends succeed.
#[test]
fn connection_request_both_approve_delivers_message() {
    let (hub, gov, tok_a, tok_b) = setup_hub_brief();
    test_bind(&hub, "alice", &tok_a, PresenceScope::GrantScoped).unwrap();
    test_bind(&hub, "bob", &tok_b, PresenceScope::GrantScoped).unwrap();

    let request_id = hub
        .request_grant(&tok_a.0, "bob", None, None)
        .expect("request_grant must succeed");

    assert!(matches!(
        hub.approve_grant_request(&gov.0, &request_id, None),
        Ok(ApproveStatus::PendingRecipient)
    ));

    test_long_poll_dequeue(&hub, &tok_b, millis(100))
        .unwrap();

    assert!(matches!(
        hub.approve_grant_request(&tok_b.0, &request_id, None),
        Ok(ApproveStatus::Established)
    ));

    assert!(matches!(
        hub.send(&tok_a, "bob", Payload(b"follow-up".to_vec()), None, None),
        Ok(Ack::Accepted)
    ));
}

/// Governor denies → request dropped, sender gets CONNECTION_DENIED in queue.
#[test]
fn connection_request_governor_deny_queues_denied_to_sender() {
    let (hub, gov, tok_a, tok_b) = setup_hub_brief();
    test_bind(&hub, "alice", &tok_a, PresenceScope::GrantScoped).unwrap();
    test_bind(&hub, "bob", &tok_b, PresenceScope::GrantScoped).unwrap();

    let request_id = hub
        .request_grant(&tok_a.0, "bob", None, None)
        .expect("request_grant must succeed");

    let outcome = hub.deny_grant_request(&gov.0, &request_id, "declined", None);
    assert!(outcome.is_ok());

    let msg = test_long_poll_dequeue(&hub, &tok_a, millis(100))
        .unwrap();
    match msg {
        DequeueOutcome::Message(m) => {
            assert_eq!(m.from_name, "system");
            assert_eq!(m.event_type.as_deref(), Some("grant_denied"));
        }
        DequeueOutcome::Empty => panic!("expected GRANT_DENIED message for sender"),
    }
}

/// Hold TTL expiry → MediationUnavailable on resolve.
#[test]
fn hold_ttl_expiry_returns_mediation_unavailable() {
    let (hub, gov, tok_a, tok_b) = setup_hub_brief();
    test_bind(&hub, "alice", &tok_a, PresenceScope::GrantScoped).unwrap();
    test_bind(&hub, "bob", &tok_b, PresenceScope::GrantScoped).unwrap();

    let mediation_id = "med-expired".to_string();
    {
        let mut inner = hub.lock();
        inner.holds.push(MediationHold {
            mediation_id: mediation_id.clone(),
            from_name: "alice".into(),
            to_name: "bob".into(),
            from_identity: "id-alice".into(),
            to_identity: "id-bob".into(),
            payload: Payload(b"hi".to_vec()),
            reason: "test".into(),
            expires: hub.now().instant - secs(1),
            resolved: false,
            grant_id: None,
        });
    }

    assert!(matches!(
        hub.resolve_mediation(&gov, &mediation_id, MediationDecision::Approve),
        Err(Error::MediationUnavailable)
    ));
}

/// Inspect grant: send → PendingMediation (hold created, budget NOT consumed).
#[test]
fn inspect_grant_holds_awaits_governor() {
    let (hub, _gov, tok_a, tok_b) = setup_hub_inspect();
    test_bind(&hub, "alice", &tok_a, PresenceScope::Public).unwrap();
    test_bind(&hub, "bob", &tok_b, PresenceScope::Public).unwrap();

    let result = hub.send(&tok_a, "bob", Payload(b"hello".to_vec()), None, None);
    match result {
        Ok(Ack::PendingMediation { mediation_id }) => {
            assert!(mediation_id.starts_with("med-"));
        }
        other => panic!("expected PendingMediation, got {:?}", other),
    }
}

/// Inspect: governor approves → message delivered to recipient.
#[test]
fn inspect_approve_delivers() {
    let (hub, gov, tok_a, tok_b) = setup_hub_inspect();
    test_bind(&hub, "alice", &tok_a, PresenceScope::Public).unwrap();
    test_bind(&hub, "bob", &tok_b, PresenceScope::Public).unwrap();

    let mediation_id = match hub.send(&tok_a, "bob", Payload(b"hello".to_vec()), None, None) {
        Ok(Ack::PendingMediation { mediation_id }) => mediation_id,
        other => panic!("expected PendingMediation, got {:?}", other),
    };

    assert!(matches!(
        hub.resolve_mediation(&gov, &mediation_id, MediationDecision::Approve),
        Ok(MediationResult::Delivered { .. })
    ));

    let msg = test_long_poll_dequeue(&hub, &tok_b, millis(100))
        .unwrap();
    match msg {
        DequeueOutcome::Message(m) => assert_eq!(m.payload.0, b"hello"),
        DequeueOutcome::Empty => panic!("expected message after approve"),
    }
}

/// Inspect: governor blocks → no delivery, Blocked result.
#[test]
fn inspect_block_returns_blocked() {
    let (hub, gov, tok_a, tok_b) = setup_hub_inspect();
    test_bind(&hub, "alice", &tok_a, PresenceScope::Public).unwrap();
    test_bind(&hub, "bob", &tok_b, PresenceScope::Public).unwrap();

    let mediation_id = match hub.send(&tok_a, "bob", Payload(b"hello".to_vec()), None, None) {
        Ok(Ack::PendingMediation { mediation_id }) => mediation_id,
        other => panic!("expected PendingMediation, got {:?}", other),
    };

    assert!(matches!(
        hub.resolve_mediation(&gov, &mediation_id, MediationDecision::Block),
        Ok(MediationResult::Blocked)
    ));

    let empty = test_long_poll_dequeue(&hub, &tok_b, millis(20))
        .unwrap();
    assert!(matches!(empty, DequeueOutcome::Empty));
}

/// Inspect: expired hold → MediationUnavailable on resolve.
#[test]
fn inspect_ttl_expiry() {
    let (hub, gov, _tok_a, _tok_b) = setup_hub_inspect();

    let mediation_id = "med-inspect-expired".to_string();
    {
        let mut inner = hub.lock();
        inner.holds.push(MediationHold {
            mediation_id: mediation_id.clone(),
            from_name: "alice".into(),
            to_name: "bob".into(),
            from_identity: "id-alice".into(),
            to_identity: "id-bob".into(),
            payload: Payload(b"hi".to_vec()),
            reason: String::new(),
            expires: hub.now().instant - secs(1),
            resolved: false,
            grant_id: Some("grant-1".into()),
        });
    }

    assert!(matches!(
        hub.resolve_mediation(&gov, &mediation_id, MediationDecision::Approve),
        Err(Error::MediationUnavailable)
    ));
}

/// Inspect: governor offline at send time → MediationUnavailable (no hold created).
#[test]
fn inspect_governor_offline_returns_mediation_unavailable() {
    let (hub, gov, tok_a, tok_b) = setup_hub_inspect();
    test_bind(&hub, "alice", &tok_a, PresenceScope::Public).unwrap();
    test_bind(&hub, "bob", &tok_b, PresenceScope::Public).unwrap();

    hub.lock()
        .trust
        .set_governor_online(&gov.0, false);

    assert!(matches!(
        hub.send(&tok_a, "bob", Payload(b"hi".to_vec()), None, None),
        Err(Error::MediationUnavailable)
    ));
}

/// Notify: message delivered immediately AND event emitted to gov_events.
#[test]
fn notify_delivers_and_fires_event() {
    let hub = make_hub(secs(30));
    let gov = hub.install_governor(None);
    let tok_a = test_mint(&hub).unwrap();
    let tok_b = test_mint(&hub).unwrap();
    hub.approve_grant_req(
        &gov,
        &tok_a.0,
        &tok_b.0,
        None,
        ApproveGrantRequest {
            mediation: Some(GrantMediation::Notify),
            direction: Some(GrantDirection::AToB),
            ..Default::default()
        },
    )
    .unwrap();
    test_bind(&hub, "alice", &tok_a, PresenceScope::Public).unwrap();
    test_bind(&hub, "bob", &tok_b, PresenceScope::Public).unwrap();

    let mut events_rx = hub.subscribe_gov_events();

    let result = hub.send(&tok_a, "bob", Payload(b"hello".to_vec()), None, None);
    assert!(matches!(result, Ok(Ack::Accepted)));

    let msg = test_long_poll_dequeue(&hub, &tok_b, millis(100))
        .unwrap();
    assert!(matches!(msg, DequeueOutcome::Message(_)));

    let event_json = events_rx
        .try_recv()
        .expect("notify event should have been emitted");
    let event: Value = serde_json::from_str(&event_json).unwrap();
    assert_eq!(event["type"], "notify");
    assert_eq!(event["from"], "alice");
    assert_eq!(event["to"], "bob");
}

#[test]
fn sim_1_reconnect_with_queued_messages_emits_catchup_notify() {

    let hub = make_hub(secs(30));
    let gov = hub.install_governor(None);
    let tok_a = test_mint(&hub).unwrap();

    let bob_token = hub.register_participant();
    let (bob_token, rx1) = hub
        .open_listen(Some(&bob_token), None, Some("bob"), false, false)
        .unwrap();
    test_bind(&hub, "alice", &tok_a, PresenceScope::Public).unwrap();
    hub.approve_grant_req(
        &gov,
        &tok_a.0,
        &bob_token,
        None,
        ApproveGrantRequest {
            mediation: Some(GrantMediation::Notify),
            direction: Some(GrantDirection::AToB),
            ..Default::default()
        },
    )
    .unwrap();

    let result = hub.send(&tok_a, "bob", Payload(b"hello".to_vec()), None, None);
    assert!(matches!(result, Ok(Ack::Accepted)), "send must be accepted");

    drop(rx1);

    let (returned_token, mut rx2) = hub
        .open_listen(Some(&bob_token), None, None, true, false)
        .unwrap();
    assert_eq!(
        returned_token, bob_token,
        "reconnect must return same token"
    );

    let mut events: Vec<String> = Vec::new();
    while let Ok(ev) = rx2.try_recv() {
        events.push(ev);
    }

    let notify_events: Vec<&String> = events
        .iter()
        .filter(|e| e.contains(r#""type":"notify""#) && e.contains(r#""pending":"#))
        .collect();
    assert_eq!(
        notify_events.len(),
        1,
        "reconnect with queued messages must emit exactly one catch-up NOTIFY; got events: {:?}",
        events
    );

    let parsed: Value =
        serde_json::from_str(notify_events[0]).expect("catch-up notify must be valid JSON");
    assert_eq!(parsed["type"], "notify", "type field must be 'notify'");
    assert_eq!(parsed["pending"], 1u64, "pending count must be 1");

    {
        let inner = hub.lock();
        let state = inner.tokens.get(&bob_token).unwrap();
        assert!(
            state.notify_suppressed,
            "notify_suppressed must be true after catch-up notify"
        );
    }

    let _ = hub.dequeue(&bob_token, None).unwrap();
    {
        let inner = hub.lock();
        let state = inner.tokens.get(&bob_token).unwrap();
        assert!(
            !state.notify_suppressed,
            "notify_suppressed must be false after dequeue"
        );
    }
}

/// Inspect grant with conditions: mediation event carries the conditions string.
#[test]
fn conditions_included_in_inspect_event() {
    let hub = make_hub(secs(30));
    let gov = hub.install_governor(None);
    let tok_a = test_mint(&hub).unwrap();
    let tok_b = test_mint(&hub).unwrap();
    hub.approve_grant_req(
        &gov,
        &tok_a.0,
        &tok_b.0,
        None,
        ApproveGrantRequest {
            mediation: Some(GrantMediation::Inspect),
            direction: Some(GrantDirection::AToB),
            opens_reply_window: Some(true),
            conditions: Some("only urgent messages".to_string()),
            ..Default::default()
        },
    )
    .unwrap();
    test_bind(&hub, "alice", &tok_a, PresenceScope::Public).unwrap();
    test_bind(&hub, "bob", &tok_b, PresenceScope::Public).unwrap();

    let mut events_rx = hub.subscribe_gov_events();

    let result = hub.send(&tok_a, "bob", Payload(b"hello".to_vec()), None, None);
    assert!(matches!(result, Ok(Ack::PendingMediation { .. })));

    let event_json = events_rx
        .try_recv()
        .expect("inspect event should have been emitted");
    let event: Value = serde_json::from_str(&event_json).unwrap();
    assert_eq!(event["type"], "mediation");
    assert_eq!(event["conditions"], "only urgent messages");
}

/// Bypass grant: existing delivery behaviour unchanged.
#[test]
fn bypass_grant_unchanged() {
    let hub = make_hub(secs(30));
    let gov = hub.install_governor(None);
    let tok_a = test_mint(&hub).unwrap();
    let tok_b = test_mint(&hub).unwrap();
    hub.approve_grant_req(
        &gov,
        &tok_a.0,
        &tok_b.0,
        None,
        ApproveGrantRequest {
            mediation: Some(GrantMediation::Bypass),
            ..Default::default()
        },
    )
    .unwrap();
    test_bind(&hub, "alice", &tok_a, PresenceScope::Public).unwrap();
    test_bind(&hub, "bob", &tok_b, PresenceScope::Public).unwrap();

    assert!(matches!(
        hub.send(&tok_a, "bob", Payload(b"hello".to_vec()), None, None),
        Ok(Ack::Accepted)
    ));
}

/// Normal message omits reason field.
#[test]
fn normal_message_omits_reason() {
    let (hub, tok_a, tok_b) = setup_hub_ab();
    test_bind(&hub, "alice", &tok_a, PresenceScope::GrantScoped).unwrap();
    test_bind(&hub, "bob", &tok_b, PresenceScope::GrantScoped).unwrap();

    hub.send(&tok_a, "bob", Payload(b"hello".to_vec()), None, None)
        .unwrap();

    let msg = test_long_poll_dequeue(&hub, &tok_b, millis(50))
        .unwrap();
    match msg {
        DequeueOutcome::Message(m) => assert!(m.reason.is_none()),
        DequeueOutcome::Empty => panic!("expected message"),
    }
}

/// Grant-scoped agent is invisible to a querier without any grant.
#[test]
fn grant_scoped_querier_without_grant_sees_offline() {
    let hub = make_hub(secs(30));
    let _gov = hub.install_governor(None);
    let tok_a = test_mint(&hub).unwrap();
    let tok_b = test_mint(&hub).unwrap();
    test_bind(&hub, "alice", &tok_a, PresenceScope::GrantScoped).unwrap();
    test_bind(&hub, "bob", &tok_b, PresenceScope::GrantScoped).unwrap();

    let result = hub.presence_for_token(&tok_b.0, "alice");
    assert!(
        matches!(result, Ok(false)),
        "bob without grant should see alice as offline"
    );
}

/// Grant-scoped agent is visible to a querier that holds a grant.
#[test]
fn grant_scoped_querier_with_grant_sees_online() {
    let hub = make_hub(secs(30));
    let gov = hub.install_governor(None);
    let tok_a = test_mint(&hub).unwrap();
    let tok_b = test_mint(&hub).unwrap();
    hub.approve_grant(&gov, &tok_a.0, &tok_b.0, None).unwrap();
    test_bind(&hub, "alice", &tok_a, PresenceScope::GrantScoped).unwrap();
    test_bind(&hub, "bob", &tok_b, PresenceScope::GrantScoped).unwrap();

    let result = hub.presence_for_token(&tok_b.0, "alice");
    assert!(
        matches!(result, Ok(true)),
        "bob with grant should see alice as online"
    );
}

/// Hidden agent returns false to all presence queries but can still send and receive messages.
#[test]
fn hidden_agent_sends_and_receives_successfully() {
    let hub = make_hub(secs(30));
    let gov = hub.install_governor(None);
    let tok_a = test_mint(&hub).unwrap();
    let tok_b = test_mint(&hub).unwrap();
    hub.approve_grant(&gov, &tok_a.0, &tok_b.0, None).unwrap();
    test_bind(&hub, "alice", &tok_a, PresenceScope::GrantScoped).unwrap();
    test_bind(&hub, "bob", &tok_b, PresenceScope::Hidden).unwrap();

    let presence = hub.presence_for_token(&tok_a.0, "bob");
    assert!(
        matches!(presence, Ok(false)),
        "hidden agent appears offline to grant-holder"
    );

    let send_result = hub.send(&tok_a, "bob", Payload(b"hello".to_vec()), None, None);
    assert!(
        matches!(send_result, Ok(Ack::Accepted)),
        "hidden agent can still receive"
    );
}

/// Agent with active SSE connection remains online after 2× liveness window elapses.
#[test]
fn ac_sse_1_active_sse_keeps_agent_online_after_liveness_lapse() {
    let hub = make_hub(millis(10));
    let _gov = hub.install_governor(None);
    let tok_a = test_mint(&hub).unwrap();
    test_bind(&hub, "alice", &tok_a, PresenceScope::Public).unwrap();

    hub.sse_open("alice");

    hub.advance(millis(30));

    assert!(
        hub.presence("alice"),
        "agent with active SSE should be online after liveness lapse"
    );
}

/// Agent whose SSE connection closes goes offline after the liveness window expires.
#[test]
fn ac_sse_2_closed_sse_lets_agent_go_offline() {
    let hub = make_hub(millis(10));
    let _gov = hub.install_governor(None);
    let tok_a = test_mint(&hub).unwrap();
    test_bind(&hub, "alice", &tok_a, PresenceScope::Public).unwrap();

    hub.sse_open("alice");
    hub.sse_close("alice");

    hub.advance(millis(30));

    assert!(
        !hub.presence("alice"),
        "agent without active SSE should go offline after liveness lapse"
    );
}

/// Agent with active SSE appears online to presence queries from other agents (grant-scoped).
#[test]
fn ac_sse_3_active_sse_visible_to_presence_query() {
    let hub = make_hub(millis(10));
    let gov = hub.install_governor(None);
    let tok_a = test_mint(&hub).unwrap();
    let tok_b = test_mint(&hub).unwrap();
    hub.approve_grant(&gov, &tok_a.0, &tok_b.0, None).unwrap();
    test_bind(&hub, "alice", &tok_a, PresenceScope::GrantScoped).unwrap();
    test_bind(&hub, "bob", &tok_b, PresenceScope::GrantScoped).unwrap();

    {
        let mut inner = hub.lock();
        inner.connections.insert(tok_a.0.clone(), 1);
    }

    hub.advance(millis(30));

    let result = hub.presence_for_token(&tok_b.0, "alice");
    assert!(
        matches!(result, Ok(true)),
        "agent with active SSE should appear online to grant-holder"
    );
}

/// Agent without SSE goes offline after liveness window (backward compatibility).
#[test]
fn ac_sse_4_no_sse_goes_offline_after_liveness_window() {
    let hub = make_hub(millis(10));
    let _gov = hub.install_governor(None);
    let tok_a = test_mint(&hub).unwrap();
    test_bind(&hub, "alice", &tok_a, PresenceScope::Public).unwrap();

    hub.advance(millis(30));

    assert!(
        !hub.presence("alice"),
        "agent without SSE should go offline after liveness window"
    );
}

/// Governor_list_participants — register 2 agents, list shows both with correct fields.
#[test]
fn governor_list_participants() {
    let hub = make_hub(secs(30));
    let gov = hub.install_governor(None);
    let tok_a = test_mint(&hub).unwrap();
    let tok_b = test_mint(&hub).unwrap();
    test_bind(&hub, "alice", &tok_a, PresenceScope::GrantScoped).unwrap();
    test_bind(&hub, "bob", &tok_b, PresenceScope::GrantScoped).unwrap();

    let agents = hub.list_participants(&gov).unwrap();
    assert_eq!(agents.len(), 2);

    let alice = agents.iter().find(|a| a.name == "alice").unwrap();
    assert_eq!(alice.identity, tok_a.0);
    assert_eq!(alice.status, "online");

    let bob = agents.iter().find(|a| a.name == "bob").unwrap();
    assert_eq!(bob.identity, tok_b.0);
    assert_eq!(bob.status, "online");
}

/// Agent token → Forbidden (maps to 403 FORBIDDEN at HTTP layer).
#[test]
fn list_participants_rejects_participant_token() {
    let hub = make_hub(secs(30));
    let _gov = hub.install_governor(None);
    let tok_a = test_mint(&hub).unwrap();

    let fake_gov = GovernorToken(tok_a.0.clone());
    assert!(
        matches!(hub.list_participants(&fake_gov), Err(Error::AuthFailed)),
        "participant token must be rejected with AuthFailed for list_participants"
    );
}

/// Hidden agents appear offline in the list even when actually online.
#[test]
fn list_participants_hidden_appears_offline() {
    let hub = make_hub(secs(30));
    let gov = hub.install_governor(None);
    let tok_a = test_mint(&hub).unwrap();
    test_bind(&hub, "alice", &tok_a, PresenceScope::Hidden).unwrap();
    hub.sse_open("alice");

    let agents = hub.list_participants(&gov).unwrap();
    let alice = agents.iter().find(|a| a.name == "alice").unwrap();
    assert_eq!(
        alice.status, "offline",
        "hidden agent must appear offline even with SSE"
    );

    hub.sse_close("alice");
}

/// Governor refresh returns new token; old governor token invalidated.
#[test]
fn ac9_governor_token_refresh() {
    let hub = make_hub(secs(30));
    let gov = hub.install_governor(None);

    let new_gov = hub.refresh_governor_token(&gov).unwrap();

    assert_ne!(new_gov.0, gov.0);

    assert!(
        matches!(hub.validate_governor_token(&gov), Err(Error::AuthFailed)),
        "old governor token must be invalidated after refresh"
    );
    assert!(
        hub.validate_governor_token(&new_gov).is_ok(),
        "new governor token must be valid after refresh"
    );
}

/// Send to unregistered → RECIPIENT_UNKNOWN (no connection request created).
#[test]
fn ac_bilateral_1_send_to_unregistered_recipient_unknown() {
    let (hub, _gov, tok_a, _tok_b) = setup_hub_no_grant();
    test_bind(&hub, "alice", &tok_a, PresenceScope::GrantScoped).unwrap();
    assert!(matches!(
        hub.send(&tok_a, "bob", Payload(b"hi".to_vec()), None, None),
        Err(Error::RecipientUnknown)
    ));
    assert!(hub.lock().requests.len() == 0);
}

/// Request_grant → grant_request event to governor SSE; recipient notified after governor approves.
#[test]
fn ac_bilateral_2_send_no_grant_queues_connection_request() {
    let (hub, gov, tok_a, tok_b) = setup_hub_no_grant();
    test_bind(&hub, "alice", &tok_a, PresenceScope::GrantScoped).unwrap();
    test_bind(&hub, "bob", &tok_b, PresenceScope::GrantScoped).unwrap();

    let mut events_rx = hub.subscribe_gov_events();

    let _ = hub.send(&tok_a, "bob", Payload(b"payload".to_vec()), None, None);
    let request_id = hub
        .request_grant(&tok_a.0, "bob", None, None)
        .expect("request_grant must succeed");

    let gov_event = events_rx
        .try_recv()
        .expect("governor should receive grant_request event");
    let event: Value = serde_json::from_str(&gov_event).unwrap();
    assert_eq!(event["type"], "grant_request");
    assert_eq!(event["request_id"], request_id.as_str());
    assert_eq!(event["from"], "alice");
    assert_eq!(event["to"], "bob");

    hub.approve_grant_request(&gov.0, &request_id, None)
        .expect("governor approval must succeed");
    let msg = test_long_poll_dequeue(&hub, &tok_b, millis(100))
        .unwrap();
    match msg {
        DequeueOutcome::Message(m) => {
            assert_eq!(m.from_name, "system");
            assert_eq!(m.event_type.as_deref(), Some("grant_request"));
        }
        DequeueOutcome::Empty => {
            panic!("expected grant_request in recipient queue after governor approves")
        }
    }
}

/// Both approve → grant established; subsequent sends succeed.
#[test]
fn ac_bilateral_3_both_approve_grant_established_message_delivered() {
    let (hub, gov, tok_a, tok_b) = setup_hub_no_grant();
    test_bind(&hub, "alice", &tok_a, PresenceScope::GrantScoped).unwrap();
    test_bind(&hub, "bob", &tok_b, PresenceScope::GrantScoped).unwrap();

    let request_id = hub
        .request_grant(&tok_a.0, "bob", None, None)
        .expect("request_grant must succeed");

    assert!(matches!(
        hub.approve_grant_request(&gov.0, &request_id, None),
        Ok(ApproveStatus::PendingRecipient)
    ));

    test_long_poll_dequeue(&hub, &tok_b, millis(100))
        .unwrap();

    assert!(matches!(
        hub.approve_grant_request(&tok_b.0, &request_id, None),
        Ok(ApproveStatus::Established)
    ));

    assert!(matches!(
        hub.send(&tok_a, "bob", Payload(b"follow-up".to_vec()), None, None),
        Ok(Ack::Accepted)
    ));
}

/// Governor denies → message dropped, sender gets CONNECTION_DENIED.
#[test]
fn ac_bilateral_4_governor_deny_connection_denied_to_sender() {
    let (hub, gov, tok_a, tok_b) = setup_hub_no_grant();
    test_bind(&hub, "alice", &tok_a, PresenceScope::GrantScoped).unwrap();
    test_bind(&hub, "bob", &tok_b, PresenceScope::GrantScoped).unwrap();

    let request_id = hub
        .request_grant(&tok_a.0, "bob", None, None)
        .expect("request_grant must succeed");

    assert!(
        hub.deny_grant_request(&gov.0, &request_id, "declined", None)
            .is_ok()
    );

    let msg = test_long_poll_dequeue(&hub, &tok_a, millis(100))
        .unwrap();
    match msg {
        DequeueOutcome::Message(m) => {
            assert_eq!(m.from_name, "system");
            assert_eq!(m.event_type.as_deref(), Some("grant_denied"));
            let v: Value = serde_json::from_slice(&m.payload.0).unwrap();
            assert_eq!(v["type"], "grant_denied");
        }
        DequeueOutcome::Empty => panic!("expected GRANT_DENIED for sender"),
    }
}

/// Alice (recipient) denies → message dropped, sender gets CONNECTION_DENIED.
#[test]
fn ac_bilateral_5_alice_deny_connection_denied_to_sender() {
    let (hub, _gov, tok_a, tok_b) = setup_hub_no_grant();
    test_bind(&hub, "alice", &tok_a, PresenceScope::GrantScoped).unwrap();
    test_bind(&hub, "bob", &tok_b, PresenceScope::GrantScoped).unwrap();

    let request_id = hub
        .request_grant(&tok_a.0, "bob", None, None)
        .expect("request_grant must succeed");

    assert!(
        hub.deny_grant_request(&tok_b.0, &request_id, "declined", None)
            .is_ok()
    );

    let msg = test_long_poll_dequeue(&hub, &tok_a, millis(100))
        .unwrap();
    match msg {
        DequeueOutcome::Message(m) => {
            assert_eq!(m.event_type.as_deref(), Some("grant_denied"));
        }
        DequeueOutcome::Empty => panic!("expected GRANT_DENIED for sender"),
    }
}

/// Reason field from request_grant is included in the grant_request governor event.
#[test]
fn ac_bilateral_6_reason_included_in_event() {
    let (hub, _gov, tok_a, tok_b) = setup_hub_no_grant();
    test_bind(&hub, "alice", &tok_a, PresenceScope::GrantScoped).unwrap();
    test_bind(&hub, "bob", &tok_b, PresenceScope::GrantScoped).unwrap();

    let mut gov_rx = hub.subscribe_gov_events();

    let _ = hub.send(
        &tok_a,
        "bob",
        Payload(b"hi".to_vec()),
        Some("need access".into()),
        None,
    );
    hub.request_grant(&tok_a.0, "bob", Some("need access".into()), None)
        .expect("request_grant must succeed");

    let event_json = gov_rx.try_recv().unwrap();
    let event: Value = serde_json::from_str(&event_json).unwrap();
    assert_eq!(event["reason"], "need access");
    assert!(
        event["payload"].is_null() || !event.as_object().unwrap().contains_key("payload"),
        "payload should not be in grant_request event"
    );
}

/// Duplicate request_grant while pending → second call returns RequestPending error.
#[test]
fn ac_bilateral_r7_dedup_second_send_returns_existing_request() {
    let (hub, _gov, tok_a, tok_b) = setup_hub_no_grant();
    test_bind(&hub, "alice", &tok_a, PresenceScope::GrantScoped).unwrap();
    test_bind(&hub, "bob", &tok_b, PresenceScope::GrantScoped).unwrap();

    let id1 = hub
        .request_grant(&tok_a.0, "bob", None, None)
        .expect("first request_grant must succeed");
    assert!(!id1.is_empty());

    let second = hub.request_grant(&tok_a.0, "bob", None, None);
    assert!(
        matches!(second, Err(Error::RequestPending)),
        "duplicate request_grant within timeout window must return RequestPending error"
    );
}

/// Announce writes identity=name and token_type="participant".
#[test]
fn test_s1_upsert_writes_participant_type_and_name_identity() {
    assert_announce_writes_identity_not_token();
}

/// After announce, the token row stores identity=name (not the token).
#[test]
fn test_upsert_token_writes_identity_not_token() {
    assert_announce_writes_identity_not_token();
}

/// A participant session is restored (token + name binding) after restart.
#[test]
fn test_participant_sessions_restored_after_restart() {
    let db = empty_shelf();
    let tok = {
        let hub = make_persisted_hub(&db, secs(30));
        let reg = hub.register_participant();
        let (tok, _rx) = hub
            .open_listen(Some(&reg), None, None, false, false)
            .unwrap();
        hub.announce(&tok, "Alice").unwrap();
        tok
    };
    let hub2 = make_persisted_hub(&db, secs(30));
    assert!(
        hub2.validate_token(&tok).is_ok(),
        "token must be valid after restart"
    );
    {
        let inner = hub2.lock();
        assert_eq!(
            inner.name_to_token.get("Alice").map(String::as_str),
            Some(tok.as_str()),
            "name binding 'Alice' must be restored"
        );
    }
    let _gov = hub2.install_governor(None);
    let sender = test_mint(&hub2).unwrap();
    test_bind(&hub2, "sender", &sender, PresenceScope::GrantScoped).unwrap();
    let res = hub2.send(&sender, "Alice", Payload(b"hi".to_vec()), None, None);
    assert!(
        !matches!(res, Err(Error::RecipientUnknown)),
        "message to restored 'Alice' must not be RecipientUnknown; got {:?}",
        res
    );
}

/// A live name-holder is never evicted by another token.
#[test]
fn test_announce_live_holder_not_evicted() {
    let hub = make_hub(secs(30));
    let reg_a = hub.register_participant();
    let (tok_a, _rx_a) = hub
        .open_listen(Some(&reg_a), None, None, false, false)
        .unwrap();
    hub.announce(&tok_a, "Alice").unwrap();

    let reg_b = hub.register_participant();
    let (tok_b, _rx_b) = hub
        .open_listen(Some(&reg_b), None, None, false, false)
        .unwrap();
    assert!(
        matches!(
            hub.announce(&tok_b, "Alice"),
            Ok(AnnounceResult::NameInUse { .. })
        ),
        "live holder A must not be evicted; B must get NAME_IN_USE"
    );
    assert_eq!(
        hub.validate_token(&tok_a).unwrap().as_deref(),
        Some("Alice"),
        "A must still hold Alice"
    );
    assert_eq!(
        hub.lock().name_to_token.get("Alice").map(String::as_str),
        Some(tok_a.as_str())
    );
}

/// A force flag cannot evict a holder (force argument is gone).
#[test]
fn test_announce_force_body_ignored_returns_409() {
    let hub = make_hub(secs(30));
    let reg_a = hub.register_participant();
    let (tok_a, _rx_a) = hub
        .open_listen(Some(&reg_a), None, None, false, false)
        .unwrap();
    hub.announce(&tok_a, "Alice").unwrap();
    let reg_b = hub.register_participant();
    let (tok_b, _rx_b) = hub
        .open_listen(Some(&reg_b), None, None, false, false)
        .unwrap();
    assert!(matches!(
        hub.announce(&tok_b, "Alice"),
        Ok(AnnounceResult::NameInUse { .. })
    ));
    assert_eq!(
        hub.validate_token(&tok_a).unwrap().as_deref(),
        Some("Alice")
    );
}

/// An orphaned registered name (token GC'd/revoked) → NAME_IN_USE.
#[test]
fn test_orphaned_name_returns_name_in_use() {
    let hub = make_hub(secs(30));
    let reg_a = hub.register_participant();
    let (tok_a, _rx_a) = hub
        .open_listen(Some(&reg_a), None, None, false, false)
        .unwrap();
    hub.announce(&tok_a, "Alice").unwrap();
    {
        let mut inner = hub.lock();
        inner.name_to_token.remove("Alice");
        inner.token_to_name.remove(&tok_a);
        inner.agents.remove("Alice");
        inner.tokens.remove(&tok_a);
        inner.connections.remove(&tok_a);
        assert!(inner.identities.contains("Alice"));
    }
    let reg_b = hub.register_participant();
    let (tok_b, _rx_b) = hub
        .open_listen(Some(&reg_b), None, None, false, false)
        .unwrap();
    assert!(
        matches!(
            hub.announce(&tok_b, "Alice"),
            Ok(AnnounceResult::NameInUse { .. })
        ),
        "orphaned registered name must be NAME_IN_USE (governor rebind required)"
    );
}

/// A stale holder is not evicted across tokens.
#[test]
fn test_stale_cross_token_eviction_blocked() {
    let hub = make_hub(secs(30));
    let reg_a = hub.register_participant();
    let (tok_a, rx_a) = hub
        .open_listen(Some(&reg_a), None, None, false, false)
        .unwrap();
    hub.announce(&tok_a, "Alice").unwrap();
    drop(rx_a);
    hub.close_listen(&tok_a);

    let reg_b = hub.register_participant();
    let (tok_b, _rx_b) = hub
        .open_listen(Some(&reg_b), None, None, false, false)
        .unwrap();
    assert!(
        matches!(
            hub.announce(&tok_b, "Alice"),
            Ok(AnnounceResult::NameInUse { .. })
        ),
        "stale cross-token takeover must be blocked "
    );
    assert_eq!(
        hub.validate_token(&tok_a).unwrap().as_deref(),
        Some("Alice"),
        "stale A's binding must survive"
    );
}

/// Same-token stale reconnect succeeds.
#[test]
fn test_same_token_stale_reconnect_succeeds() {
    let hub = make_hub(secs(30));
    let reg_a = hub.register_participant();
    let (tok_a, rx_a) = hub
        .open_listen(Some(&reg_a), None, None, false, false)
        .unwrap();
    hub.announce(&tok_a, "Alice").unwrap();
    drop(rx_a);
    hub.close_listen(&tok_a);
    assert!(
        matches!(hub.announce(&tok_a, "Alice"), Ok(AnnounceResult::Bound)),
        "same-token stale reconnect must succeed"
    );
}

/// The identities row's created_at is unchanged across a governor rebind.
#[test]
fn test_identity_record_unchanged_after_rebind() {
    let db = empty_shelf();
    let hub = make_persisted_hub(&db, secs(30));
    let gov = hub.install_governor(None);
    let reg = hub.register_participant();
    let (t1, _rx) = hub
        .open_listen(Some(&reg), None, None, false, false)
        .unwrap();
    hub.announce(&t1, "Alice").unwrap();
    let before = db.borrow().identity_created_at("Alice");
    assert!(
        before.is_some(),
        "identity record must exist after announce"
    );

    hub.advance(secs(60));
    let (t2, name) = hub.issue_participant_token(&gov, Some("Alice")).unwrap();
    assert_eq!(name.as_deref(), Some("Alice"));
    assert_ne!(t2, t1);

    let after = db.borrow().identity_created_at("Alice");
    assert_eq!(before, after, "created_at must be unchanged by rebind");
}

/// A name-keyed grant survives a governor rebind of one party's token.
#[test]
fn test_grants_survive_rebind() {
    let hub = make_hub(secs(30));
    let gov = hub.install_governor(None);

    let reg_a = hub.register_participant();
    let (t1, _ra) = hub
        .open_listen(Some(&reg_a), None, None, false, false)
        .unwrap();
    hub.announce(&t1, "Alice").unwrap();
    let reg_b = hub.register_participant();
    let (tb, _rb) = hub
        .open_listen(Some(&reg_b), None, None, false, false)
        .unwrap();
    hub.announce(&tb, "Bob").unwrap();
    hub.approve_grant(&gov, &t1, &tb, None).unwrap();

    let (t2, _name) = hub.issue_participant_token(&gov, Some("Alice")).unwrap();
    assert!(
        hub.validate_token(&t1).is_err(),
        "old token must be invalid"
    );

    assert!(
        matches!(
            hub.send(
                &ParticipantToken(t2.clone()),
                "Bob",
                Payload(b"hi".to_vec()),
                None,
                None
            ),
            Ok(Ack::Accepted)
        ),
        "grant must survive rebind"
    );
}

/// Rebind invalidates the old token and the new token can announce.
#[test]
fn test_rebind_invalidates_old_token_new_can_announce() {
    let hub = make_hub(secs(30));
    let gov = hub.install_governor(None);
    let reg = hub.register_participant();
    let (t1, _rx) = hub
        .open_listen(Some(&reg), None, None, false, false)
        .unwrap();
    hub.announce(&t1, "Alice").unwrap();

    let (t2, _name) = hub.issue_participant_token(&gov, Some("Alice")).unwrap();
    assert_ne!(t2, t1);
    assert!(matches!(
        hub.announce(&t1, "Alice"),
        Err(Error::TokenRejected)
    ));
    assert!(matches!(
        hub.announce(&t2, "Alice"),
        Ok(AnnounceResult::Bound)
    ));
}

/// Governor rebind of an unknown name → RecipientUnknown (404).
#[test]
fn test_issue_participant_token_unknown_name() {
    let hub = make_hub(secs(30));
    let gov = hub.install_governor(None);
    assert!(matches!(
        hub.issue_participant_token(&gov, Some("Nobody")),
        Err(Error::RecipientUnknown)
    ));
}

/// Issue_participant_token requires a valid governor (a participant token → AuthFailed).
#[test]
fn test_issue_participant_token_requires_governor() {
    let hub = make_hub(secs(30));
    let forged = GovernorToken("not-a-governor".to_string());
    assert!(hub.issue_participant_token(&forged, None).is_err());
}

#[test]
fn test_s5_admin_reset_single_transaction() {
    let db = empty_shelf();
    let (old_gov, new_gov) = {
        let hub = make_persisted_hub(&db, secs(30));
        let g1 = hub.install_governor(None);
        let g2 = hub.admin_reset_governor();
        assert_ne!(g1.0, g2.0);
        assert!(hub.validate_governor_token(&g1).is_err());
        assert!(hub.validate_governor_token(&g2).is_ok());
        (g1, g2)
    };

    let hub2 = make_persisted_hub(&db, secs(30));
    assert!(
        hub2.validate_governor_token(&new_gov).is_ok(),
        "new governor must be durable after restart"
    );
    assert!(
        hub2.validate_governor_token(&old_gov).is_err(),
        "old governor must be gone after restart"
    );
    assert!(
        hub2.has_active_governor(),
        "a governor must exist after restart (no permanently-open bootstrap)"
    );
}

#[test]
fn ac_attach_1_send_notify_fetch_roundtrip() {
    let db = empty_shelf();
    let (hub, tok_a, tok_b, _gov) = setup_persisted_ab(&db);
    let name = ["spec", "md"].join(".");

    let meta = hub
        .attach(
            &tok_a.0,
            "bob",
            &name,
            "text/markdown",
            b"# hello".to_vec(),
            Some("fyi"),
            secs(3600),
        )
        .expect("attach must succeed");
    assert_eq!(meta.filename, name.as_str());
    assert_eq!(meta.size, 7);

    match test_long_poll_dequeue(&hub, &tok_b, millis(100))
        .unwrap()
    {
        DequeueOutcome::Message(m) => {
            assert_eq!(m.event_type.as_deref(), Some("attachment"));
            let v: Value = serde_json::from_slice(&m.payload.0).unwrap();
            assert_eq!(v["type"], "attachment");
            assert_eq!(v["attachment_id"], meta.id.as_str());
            assert_eq!(v["filename"], name.as_str());
            assert_eq!(v["size"], 7);
            assert!(v.get("bytes").is_none(), "notify must not carry the bytes");
        }
        DequeueOutcome::Empty => panic!("expected attachment notify"),
    }

    let (bytes, filename, mime) = hub
        .fetch_attachment(&tok_b.0, &meta.id)
        .expect("fetch must succeed");
    assert_eq!(bytes, b"# hello");
    assert_eq!(filename, name.as_str());
    assert_eq!(mime, "text/markdown");
}

/// Only the sender's identity or the recipient's bound name may fetch.
#[test]
fn ac_attach_2_access_control() {
    let db = empty_shelf();
    let (hub, tok_a, _tok_b, _gov) = setup_persisted_ab(&db);
    let tok_c = test_mint(&hub).unwrap();
    test_bind(&hub, "carol", &tok_c, PresenceScope::GrantScoped).unwrap();

    let meta = hub
        .attach(
            &tok_a.0,
            "bob",
            "secret.txt",
            "text/plain",
            b"top secret".to_vec(),
            None,
            secs(3600),
        )
        .unwrap();

    assert!(matches!(
        hub.fetch_attachment(&tok_c.0, &meta.id),
        Err(Error::Forbidden)
    ));
    assert!(hub.fetch_attachment(&tok_a.0, &meta.id).is_ok());
}

/// Grant-gated exactly like send: no grant → NoGrant.
#[test]
fn ac_attach_3_requires_grant() {
    let db = empty_shelf();
    let (hub, tok_a, _tok_b, _gov) = setup_persisted_ab(&db);
    let tok_c = test_mint(&hub).unwrap();
    test_bind(&hub, "carol", &tok_c, PresenceScope::GrantScoped).unwrap();
    let r = hub
        .attach(
            &tok_a.0,
            "carol",
            "x.txt",
            "text/plain",
            b"hi".to_vec(),
            None,
            secs(3600),
        );
    assert!(matches!(r, Err(Error::NoGrant)));
}

/// A past-TTL attachment is GC'd; fetch returns AttachmentNotFound.
#[test]
fn ac_attach_4_expiry_gc() {
    let db = empty_shelf();
    let (hub, tok_a, tok_b, _gov) = setup_persisted_ab(&db);
    let meta = hub
        .attach(
            &tok_a.0,
            "bob",
            "ephemeral.txt",
            "text/plain",
            b"poof".to_vec(),
            None,
            secs(0),
        )
        .unwrap();
    assert!(matches!(
        hub.fetch_attachment(&tok_b.0, &meta.id),
        Err(Error::AttachmentNotFound)
    ));
}

#[test]
fn ac1_tokens_survive_restart() {
    let db = empty_shelf();

    let (gov_tok, participant_tok) = {
        let hub = make_persisted_hub(&db, secs(30));
        let gov = hub.install_governor(None);
        let reg = hub.register_participant();
        let (tok, _rx) = hub
            .open_listen(Some(&reg), None, None, false, false)
            .unwrap();
        hub.announce(&tok, "alice").unwrap();
        (gov, tok)
    };

    let hub2 = make_persisted_hub(&db, secs(30));
    assert!(
        hub2.validate_token(&participant_tok).is_ok(),
        "participant token must survive restart"
    );
    assert!(
        hub2.validate_governor_token(&gov_tok).is_ok(),
        "governor token must survive restart"
    );
}

#[test]
fn ac2_grants_survive_restart() {
    let db = empty_shelf();

    let (tok_a, _tok_b) = {
        let hub = make_persisted_hub(&db, secs(30));
        let gov = hub.install_governor(None);
        let reg_a = hub.register_participant();
        let (a, _ra) = hub
            .open_listen(Some(&reg_a), None, None, false, false)
            .unwrap();
        hub.announce(&a, "alice").unwrap();
        let reg_b = hub.register_participant();
        let (b, _rb) = hub
            .open_listen(Some(&reg_b), None, None, false, false)
            .unwrap();
        hub.announce(&b, "bob").unwrap();
        hub.approve_grant(&gov, &a, &b, None).unwrap();
        (a, b)
    };

    let hub2 = make_persisted_hub(&db, secs(30));
    assert!(
        matches!(
            hub2.send(
                &ParticipantToken(tok_a.clone()),
                "bob",
                Payload(b"hi".to_vec()),
                None,
                None
            ),
            Ok(Ack::Accepted)
        ),
        "grant must allow sending after restart"
    );
}

/// After restart, governor token valid; can mint new agent tokens and approve grants.
#[test]
fn ac3_governor_operational_after_restart() {
    let db = empty_shelf();

    let gov_tok = {
        let hub = make_persisted_hub(&db, secs(30));
        hub.install_governor(None)
    };

    let hub2 = make_persisted_hub(&db, secs(30));
    assert!(
        hub2.validate_governor_token(&gov_tok).is_ok(),
        "governor must be valid after restart"
    );
    assert!(
        test_mint(&hub2).is_ok(),
        "governor can mint after restart"
    );
    assert!(
        hub2.approve_grant(&gov_tok, "a", "b", None).is_ok(),
        "governor can approve grant after restart"
    );
}

/// Revoking a token removes it from store immediately; does not return after restart.
#[test]
fn ac5_revoked_token_absent_after_restart() {
    let db = empty_shelf();

    let gov_tok = {
        let hub = make_persisted_hub(&db, secs(30));
        let gov = hub.install_governor(None);
        let revoked_toks = hub.lock().trust.revoke_all_governors();
        for tok in revoked_toks {
            hub.shelf().tokens.remove(&tok);
        }
        gov
    };

    let hub2 = make_persisted_hub(&db, secs(30));
    assert!(
        hub2.validate_governor_token(&gov_tok).is_err(),
        "revoked governor token must not be present after restart"
    );
}

#[test]
fn ac6_permanent_grant_survives_restart() {
    let db = empty_shelf();

    let tok_a = {
        let hub = make_persisted_hub(&db, secs(30));
        let gov = hub.install_governor(None);
        let reg_a = hub.register_participant();
        let (a, _ra) = hub
            .open_listen(Some(&reg_a), None, None, false, false)
            .unwrap();
        hub.announce(&a, "ag-a").unwrap();
        let reg_b = hub.register_participant();
        let (b, _rb) = hub
            .open_listen(Some(&reg_b), None, None, false, false)
            .unwrap();
        hub.announce(&b, "ag-b").unwrap();
        hub.approve_grant(&gov, &a, &b, None).unwrap();
        a
    };

    for _ in 0..3 {
        let hub = make_persisted_hub(&db, secs(30));
        assert!(
            matches!(
                hub.send(
                    &ParticipantToken(tok_a.clone()),
                    "ag-b",
                    Payload(b"x".to_vec()),
                    None,
                    None
                ),
                Ok(Ack::Accepted)
            ),
            "permanent grant must survive repeated restarts"
        );
    }
}

/// Counter seeded correctly from persisted IDs — new tokens don't collide.
#[test]
fn ac8_counter_seeded_no_id_collision() {
    let db = empty_shelf();

    let existing_ids: Vec<String> = {
        let hub = make_persisted_hub(&db, secs(30));
        let gov = hub.install_governor(None);
        let a1 = test_mint(&hub).unwrap().0;
        let a2 = test_mint(&hub).unwrap().0;
        hub.approve_grant(&gov, "a1", "a2", None).unwrap();
        vec![gov.0, a1, a2]
    };

    let hub2 = make_persisted_hub(&db, secs(30));
    let gov2 = hub2.install_governor(None);
    let new_agent = test_mint(&hub2).unwrap();

    assert!(
        !existing_ids.contains(&gov2.0),
        "new governor ID must not collide with existing"
    );
    assert!(
        !existing_ids.contains(&new_agent.0),
        "new agent ID must not collide with existing"
    );
}

#[test]
fn ac_t2_token_not_persisted_before_first_grant() {
    let hub = make_hub(secs(30));

    let reg_token = hub.register_participant();
    let (token, _rx) = hub
        .open_listen(Some(&reg_token), None, None, false, false)
        .unwrap();

    let inner = hub.lock();
    let state = inner
        .tokens
        .get(&token)
        .expect("token must be in memory after open_listen");
    assert!(
        state.ever_listened,
        "ever_listened must be true after open_listen"
    );
    assert!(
        !state.ever_granted,
        "ever_granted must be false before any grant — token is in-memory only, not yet in DB"
    );
}

#[test]
fn ac_t4_gc_unlisten_ttl_removes_never_listened_token() {
    let hub = make_hub(secs(30));

    let stale = hub.issue_token();
    assert!(
        hub.validate_token(&stale).is_ok(),
        "token exists before TTL"
    );

    let then = hub.now().instant - secs(400);
    hub.token_state(&stale, |st| st.last_active = then);

    let _fresh = hub.issue_token();

    assert!(
        matches!(hub.validate_token(&stale), Err(Error::TokenRejected)),
        "never-listened token must be GC'd after unlisten TTL"
    );
}

#[test]
fn ac_t4b_gc_branch3_evicts_never_listened_granted_token_after_unlisten_ttl() {
    let hub = make_hub(secs(30));

    let stale = hub.issue_token();
    let fresh_enough = hub.issue_token();

    let then = hub.now().instant - secs(4000);
    hub.token_state(&stale, |st| {
        st.ever_granted = true;
        st.last_active = then;
    });
    hub.token_state(&fresh_enough, |st| st.ever_granted = true);

    let _trigger = hub.issue_token();

    assert!(
        matches!(hub.validate_token(&stale), Err(Error::TokenRejected)),
        "!ever_listened && ever_granted token past unlisten_ttl MUST be GC'd"
    );
    assert!(
        hub.validate_token(&fresh_enough).is_ok(),
        "!ever_listened && ever_granted token NOT yet past TTL must NOT be GC'd"
    );
}

#[test]
fn ac_t5_gc_no_grant_ttl_removes_listened_never_granted_token() {
    let hub = make_hub(secs(30));

    let reg_token = hub.register_participant();
    let (stale, _rx) = hub
        .open_listen(Some(&reg_token), None, None, false, false)
        .unwrap();

    {
        let inner = hub.lock();
        let st = inner.tokens.get(&stale).unwrap();
        assert!(st.ever_listened, "ever_listened must be true");
        assert!(!st.ever_granted, "ever_granted must be false");
    }

    let then = hub.now().instant - secs(2000);
    hub.token_state(&stale, |st| st.last_active = then);

    let _fresh = hub.issue_token();

    assert!(
        matches!(hub.validate_token(&stale), Err(Error::TokenRejected)),
        "listened-but-never-granted token must be GC'd after no-grant TTL"
    );
}

#[test]
fn ac_t5b_gc_named_token_exempt_from_no_grant_gc() {
    let hub = make_hub(secs(30));

    let reg_token = hub.register_participant();
    let (tok, _rx) = hub
        .open_listen(Some(&reg_token), None, None, false, false)
        .unwrap();
    hub.announce(&tok, "GcExempt").unwrap();

    {
        let inner = hub.lock();
        let st = inner.tokens.get(&tok).unwrap();
        assert!(st.ever_listened, "ever_listened must be true");
        assert!(
            !st.ever_granted,
            "no grant issued — ever_granted must be false"
        );
        assert!(st.name.is_some(), "name must be bound after announce");
    }

    let then = hub.now().instant - secs(2000);
    hub.token_state(&tok, |st| st.last_active = then);

    hub.trigger_gc_for_test();

    assert!(
        hub.validate_token(&tok).is_ok(),
        "name-bound token must NOT be GC'd by the no-grant branch even past no_grant_ttl"
    );
}

#[test]
fn ac_t6_gc_branch3_identity_bound_token_exempt() {
    let hub = make_hub(secs(30));
    let gov = hub.install_governor(None);
    hub.lock().set_settle_window_for_test(secs(1));

    let reg_a = hub.register_participant();
    let (tok_a, mut rx_a) = hub
        .open_listen(Some(&reg_a), None, None, false, true)
        .unwrap();
    hub.announce(&tok_a, "GcA6").unwrap();

    let tok_b = hub.issue_token();
    hub.announce(&tok_b, "GcB6").unwrap();
    hub.approve_grant(&gov, &tok_b, &tok_a, None).unwrap();

    let then = hub.now().instant - secs(4000);
    hub.token_state(&tok_b, |st| {
        st.ever_granted = true;
        st.last_active = then;
    });

    while rx_a.try_recv().is_ok() {}

    let _trigger = hub.issue_token();

    assert!(
        hub.validate_token(&tok_b).is_ok(),
        "identity-bound token must be exempt from age-GC"
    );

    hub.advance(secs(3));
    let drained: Vec<String> = std::iter::from_fn(|| rx_a.try_recv().ok()).collect();
    assert!(
        !drained
            .iter()
            .any(|e| e.contains("\"offline\"") && e.contains("\"GcB6\"")),
        "no sim_offline may fire for an exempt identity-bound token; got: {drained:?}"
    );
}

/// An identity-bound participant token is exempt from age-GC.
#[test]
fn test_identity_bound_token_not_gcd() {
    let hub = make_hub(secs(30));
    let reg = hub.register_participant();
    let (tok, _rx) = hub
        .open_listen(Some(&reg), None, None, false, false)
        .unwrap();
    hub.announce(&tok, "Bound").unwrap();
    let then = hub.now().instant - secs(100_000);
    hub.token_state(&tok, |st| st.last_active = then);
    let _ = hub.trigger_gc_for_test();
    assert!(
        hub.validate_token(&tok).is_ok(),
        "identity-bound token must survive age-GC"
    );
}

/// An active (listening + identity-bound) token survives well beyond an hour.
#[test]
fn test_active_token_survives_one_hour() {
    let hub = make_hub(secs(30));
    hub.lock().gc_unlisten = secs(1);
    let reg = hub.register_participant();
    let (tok, _rx) = hub
        .open_listen(Some(&reg), None, None, false, false)
        .unwrap();
    hub.announce(&tok, "Active").unwrap();
    let then = hub.now().instant - secs(3700);
    hub.token_state(&tok, |st| st.last_active = then);
    let _ = hub.trigger_gc_for_test();
    assert!(
        hub.validate_token(&tok).is_ok(),
        "active identity-bound token must survive > 1h"
    );
}

/// A governor listen token is never age-GC'd.
#[test]
fn test_governor_listen_token_survives_indefinitely() {
    let hub = make_hub(secs(30));
    let gov = hub.install_governor(None);
    let (tok, _rx) = hub
        .open_listen(Some(&gov.0), None, None, false, false)
        .unwrap();
    let then = hub.now().instant - secs(100_000);
    hub.token_state(&tok, |st| {
        assert!(
            st.governor_id.is_some(),
            "governor listen token must record governor_id"
        );
        st.last_active = then;
    });
    let _ = hub.trigger_gc_for_test();
    assert!(
        hub.validate_token(&tok).is_ok(),
        "governor listen token must survive age-GC"
    );
}

/// A registered-but-never-used token IS reaped once idle past its TTL.
#[test]
fn test_abandoned_token_gcd() {
    let hub = make_hub(secs(30));
    let tok = hub.register_participant();
    let then = hub.now().instant - secs(100_000);
    hub.token_state(&tok, |st| st.last_active = then);
    let evicted = hub.trigger_gc_for_test();
    assert!(evicted >= 1, "abandoned token must be reaped");
    assert!(
        hub.validate_token(&tok).is_err(),
        "abandoned token must be gone"
    );
}

#[test]
fn ac_t3_token_persists_after_first_grant_survives_restart() {
    let db = empty_shelf();

    let listen_tok = {
        let hub = make_persisted_hub(&db, secs(30));
        let gov = hub.install_governor(None);
        let tok_a = test_mint(&hub).unwrap();

        let reg_bob = hub.register_participant();
        let (listen_tok, _rx) = hub
            .open_listen(Some(&reg_bob), None, None, false, false)
            .unwrap();
        hub.announce(&listen_tok, "bob").unwrap();

        test_bind(&hub, "alice", &tok_a, PresenceScope::GrantScoped).unwrap();

        let _ = hub.send(&tok_a, "bob", Payload(b"hello".to_vec()), None, None);
        let request_id = hub
            .request_grant(&tok_a.0, "bob", None, None)
            .expect("request_grant must succeed");

        hub.approve_grant_request(&gov.0, &request_id, None)
            .expect("governor approve must succeed");

        let _ = hub.dequeue(&listen_tok, None).unwrap();

        assert!(
            matches!(
                hub.approve_grant_request(&listen_tok, &request_id, None),
                Ok(ApproveStatus::Established)
            ),
            "both-approved path must return Established"
        );

        listen_tok
    };

    let hub2 = make_persisted_hub(&db, secs(30));

    assert!(
        hub2.validate_token(&listen_tok).is_ok(),
        "token must be valid on a new hub rebuilt from the same DB after first grant"
    );
}

#[test]
fn ac_persist_announce_send_by_name_not_unknown_after_restart() {
    let db = empty_shelf();

    let listen_tok = {
        let hub = make_persisted_hub(&db, secs(30));
        let reg_bob = hub.register_participant();
        let (listen_tok, _rx) = hub
            .open_listen(Some(&reg_bob), None, None, false, false)
            .unwrap();
        hub.announce(&listen_tok, "bob").unwrap();
        listen_tok
    };

    let hub2 = make_persisted_hub(&db, secs(30));

    let tok_a2 = test_mint(&hub2).unwrap();
    test_bind(&hub2, "alice", &tok_a2, PresenceScope::GrantScoped).unwrap();

    let result = hub2.send(&tok_a2, "bob", Payload(b"ac1-probe".to_vec()), None, None);
    assert!(
        !matches!(result, Err(Error::RecipientUnknown)),
        "after announce-time persist + restart, send to 'bob' must NOT be RecipientUnknown; got {:?}",
        result
    );
    drop(listen_tok);
}

#[test]
fn ac_persist_announce_token_valid_after_restart() {
    let db = empty_shelf();

    let listen_tok = {
        let hub = make_persisted_hub(&db, secs(30));
        let reg_bob = hub.register_participant();
        let (listen_tok, _rx) = hub
            .open_listen(Some(&reg_bob), None, None, false, false)
            .unwrap();
        hub.announce(&listen_tok, "bob").unwrap();
        listen_tok
    };

    let hub2 = make_persisted_hub(&db, secs(30));

    assert!(
        hub2.validate_token(&listen_tok).is_ok(),
        "token announced (never granted) must be valid after announce-time persist + restart"
    );
}

#[test]
fn ac_persist_announce_fields_correct_after_reload() {
    let db = empty_shelf();
    let name = "charlie";

    let listen_tok = {
        let hub = make_persisted_hub(&db, secs(30));
        let reg_charlie = hub.register_participant();
        let (listen_tok, _rx) = hub
            .open_listen(Some(&reg_charlie), None, None, false, false)
            .unwrap();
        hub.announce(&listen_tok, name).unwrap();
        listen_tok
    };

    let hub2 = make_persisted_hub(&db, secs(30));

    let inner = hub2.lock();
    assert_eq!(
        inner.name_to_token.get(name).map(String::as_str),
        Some(listen_tok.as_str()),
        "name_to_token[name] must equal the announced token after reload"
    );
    let state = inner
        .tokens
        .get(&listen_tok)
        .expect("token must exist in tokens after reload");
    assert_eq!(
        state.name.as_deref(),
        Some(name),
        "state.name must equal the announced name after reload"
    );
    drop(inner);
}

#[test]
fn ac_gov_grants_1_2_4_5_list_all_grants() {
    let hub = make_hub(secs(30));
    let gov = hub.install_governor(None);

    let result = hub.list_all_grants_gov(&gov, None).unwrap();
    assert!(result.is_empty(), "no grants yet — list must be empty");

    hub.approve_grant_req(
        &gov,
        "id-alice",
        "id-bob",
        None,
        ApproveGrantRequest {
            name_a: Some("alice".into()),
            name_b: Some("bob".into()),
            ..Default::default()
        },
    )
    .unwrap();
    hub.approve_grant_req(
        &gov,
        "id-carol",
        "id-dave",
        None,
        ApproveGrantRequest {
            name_a: Some("carol".into()),
            name_b: Some("dave".into()),
            ..Default::default()
        },
    )
    .unwrap();

    let result = hub.list_all_grants_gov(&gov, None).unwrap();
    assert_eq!(
        result.len(),
        2,
        "both grants must be returned with no filter"
    );

    for item in &result {
        assert!(!item.id.is_empty(), "id must be non-empty");
        assert!(
            !item.identity_a.is_empty(),
            "identity_a must be non-empty"
        );
        assert!(
            !item.identity_b.is_empty(),
            "identity_b must be non-empty"
        );
        let _ = &item.direction;
    }

    let alice_bob = result
        .iter()
        .find(|g| g.identity_a == "id-alice")
        .expect("alice-bob grant must be present");
    assert_eq!(alice_bob.identity_b, "id-bob");
    assert_eq!(alice_bob.name_a.as_deref(), Some("alice"));
    assert_eq!(alice_bob.name_b.as_deref(), Some("bob"));
    assert!(alice_bob.expires.is_none(), "permanent grant has no expiry");

    let carol_dave = result
        .iter()
        .find(|g| g.identity_a == "id-carol")
        .expect("carol-dave grant must be present");
    assert_eq!(carol_dave.name_a.as_deref(), Some("carol"));
    assert_eq!(carol_dave.name_b.as_deref(), Some("dave"));
}

/// ?participant=<name> filter returns only grants where name_a or name_b matches.
#[test]
fn ac_gov_grants_3_participant_filter() {
    let hub = make_hub(secs(30));
    let gov = hub.install_governor(None);

    hub.approve_grant_req(
        &gov,
        "id-alice",
        "id-bob",
        None,
        ApproveGrantRequest {
            name_a: Some("alice".into()),
            name_b: Some("bob".into()),
            ..Default::default()
        },
    )
    .unwrap();
    hub.approve_grant_req(
        &gov,
        "id-carol",
        "id-dave",
        None,
        ApproveGrantRequest {
            name_a: Some("carol".into()),
            name_b: Some("dave".into()),
            ..Default::default()
        },
    )
    .unwrap();

    let result = hub.list_all_grants_gov(&gov, Some("alice")).unwrap();
    assert_eq!(
        result.len(),
        1,
        "filter=alice must return exactly 1 grant"
    );
    assert!(
        result[0].name_a.as_deref() == Some("alice")
            || result[0].name_b.as_deref() == Some("alice"),
        "returned grant must involve alice"
    );

    let result = hub.list_all_grants_gov(&gov, Some("dave")).unwrap();
    assert_eq!(
        result.len(),
        1,
        "filter=dave must return exactly 1 grant"
    );
    assert!(
        result[0].name_a.as_deref() == Some("dave")
            || result[0].name_b.as_deref() == Some("dave"),
        "returned grant must involve dave"
    );

    let result = hub.list_all_grants_gov(&gov, Some("bob")).unwrap();
    assert_eq!(
        result.len(),
        1,
        "filter=bob (name_b) must return the alice-bob grant"
    );

    let result = hub
        .list_all_grants_gov(&gov, Some("unknown-participant"))
        .unwrap();
    assert!(
        result.is_empty(),
        "filter by unknown name must return empty list"
    );
}

#[test]
fn ac_gov_grants_6_7_8_auth_errors() {
    let hub = make_hub(secs(30));
    let _gov = hub.install_governor(None);
    let participant_tok = test_mint(&hub).unwrap();

    let no_token = GovernorToken("".into());
    assert!(
        matches!(
            hub.list_all_grants_gov(&no_token, None),
            Err(Error::AuthFailed)
        ),
        "missing token must yield AuthFailed"
    );

    let forged = GovernorToken("not-a-real-token-xyz".into());
    assert!(
        matches!(
            hub.list_all_grants_gov(&forged, None),
            Err(Error::AuthFailed)
        ),
        "invalid token must yield AuthFailed"
    );

    let participant_as_gov = GovernorToken(participant_tok.0.clone());
    assert!(
        matches!(
            hub.list_all_grants_gov(&participant_as_gov, None),
            Err(Error::AuthFailed)
        ),
        "participant token in governor slot must yield AuthFailed"
    );
}

/// Agent A with no grant to Agent B → presence_for_token returns false (not visible).
#[test]
fn test_presence_no_grant_returns_offline() {
    let hub = make_hub(secs(30));
    let _gov = hub.install_governor(None);

    let reg_a = hub.register_participant();
    let reg_b = hub.register_participant();

    let (listen_a, _rx_a) = hub
        .open_listen(Some(&reg_a), None, None, false, false)
        .unwrap();
    let (listen_b, _rx_b) = hub
        .open_listen(Some(&reg_b), None, None, false, false)
        .unwrap();

    hub.announce(&listen_a, "alice").unwrap();
    hub.announce(&listen_b, "bob").unwrap();

    let result = hub.presence_for_token(&listen_a, "bob");
    assert!(
        matches!(result, Ok(false)),
        "Agent without grant should see target as not visible (false)"
    );
}

/// Agent A with active grant to Agent B → returns real status.
#[test]
fn test_presence_with_grant_returns_online() {
    let hub = make_hub(secs(30));
    let gov = hub.install_governor(None);

    let reg_a = hub.register_participant();
    let reg_b = hub.register_participant();

    let (listen_a, _rx_a) = hub
        .open_listen(Some(&reg_a), None, None, false, false)
        .unwrap();
    let (listen_b, _rx_b) = hub
        .open_listen(Some(&reg_b), None, None, false, false)
        .unwrap();

    hub.announce(&listen_a, "alice").unwrap();
    hub.announce(&listen_b, "bob").unwrap();

    hub.approve_grant(&gov, &listen_a, &listen_b, None).unwrap();

    let result = hub.presence_for_token(&listen_a, "bob");
    assert!(
        matches!(result, Ok(true)),
        "Agent with grant should see target's real status (online)"
    );
}

/// Grant exists but expired → presence_for_token returns false.
#[test]
fn test_presence_grant_expired_returns_offline() {
    let hub = make_hub(secs(30));
    let gov = hub.install_governor(None);

    let reg_a = hub.register_participant();
    let reg_b = hub.register_participant();

    let (listen_a, _rx_a) = hub
        .open_listen(Some(&reg_a), None, None, false, false)
        .unwrap();
    let (listen_b, _rx_b) = hub
        .open_listen(Some(&reg_b), None, None, false, false)
        .unwrap();

    hub.announce(&listen_a, "alice").unwrap();
    hub.announce(&listen_b, "bob").unwrap();

    hub.approve_grant(&gov, &listen_a, &listen_b, Some(millis(1)))
        .unwrap();

    hub.advance(millis(10));

    let result = hub.presence_for_token(&listen_a, "bob");
    assert!(
        matches!(result, Ok(false)),
        "Agent with expired grant should see target as not visible"
    );
}

/// Second open_listen without force=true returns Error::ActiveSubscription.
#[test]
fn ac_listen_conflict_returns_active_subscription_error() {
    let hub = make_hub(secs(30));
    let tok = hub.register_participant();

    let (token, _rx1) = hub
        .open_listen(Some(&tok), None, None, false, false)
        .expect("first open_listen must succeed");

    let result = hub.open_listen(Some(&token), None, None, false, false);
    assert!(
        matches!(result, Err(Error::ActiveSubscription)),
        "second open_listen without force must return ActiveSubscription error"
    );
}

/// Second open_listen with force=true supersedes prior stream and returns same token.
#[test]
fn ac_listen_force_takeover_supersedes_prior_stream() {
    let hub = make_hub(secs(30));
    let tok = hub.register_participant();

    let (token1, mut rx1) = hub
        .open_listen(Some(&tok), None, None, false, false)
        .expect("first open_listen must succeed");

    let (token2, _rx2) = hub
        .open_listen(Some(&token1), None, None, true, false)
        .expect("force takeover open_listen must succeed");

    assert_eq!(
        token1, token2,
        "force takeover must return same token, got token1={}, token2={}",
        token1, token2
    );

    let mut superseded_event = None;
    while let Ok(ev) = rx1.try_recv() {
        if ev.contains("superseded") {
            superseded_event = Some(ev);
            break;
        }
    }
    assert!(
        superseded_event.is_some(),
        "old SSE rx should receive superseded event, got none"
    );
}

#[test]
fn gc_race_registered_token_survives_gc_before_open_listen() {
    let hub = make_hub(secs(30));

    hub.lock().gc_unlisten = millis(1);
    hub.lock().gc_grace = millis(200);

    let token = hub.register_participant();

    hub.advance(millis(5));

    let evicted = hub.trigger_gc_for_test();
    assert_eq!(
        evicted, 0,
        "GC must not evict a token with pending_first_listen=true that is still within the grace window"
    );

    let result = hub.open_listen(Some(&token), None, None, false, false);
    assert!(
        result.is_ok(),
        "open_listen() must succeed for a registered token that survived GC"
    );

    let token2 = hub.register_participant();
    let result2 = hub.open_listen(Some(&token2), None, None, false, false);
    assert!(
        result2.is_ok(),
        "Normal register → open_listen flow must still succeed"
    );
}

#[test]
fn gc_evicts_registered_token_after_grace_expires() {
    let hub = make_hub(secs(30));

    hub.lock().gc_unlisten = millis(1);
    hub.lock().gc_grace = millis(50);

    let token = hub.register_participant();

    hub.advance(millis(60));

    let evicted = hub.trigger_gc_for_test();
    assert_eq!(
        evicted, 1,
        "GC must evict a pending_first_listen token whose grace window has expired"
    );

    let result = hub.open_listen(Some(&token), None, None, false, false);
    assert!(
        matches!(result, Err(Error::AuthFailed)),
        "open_listen() must return AuthFailed for an evicted token, got"
    );
}
