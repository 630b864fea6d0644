//! What each request does, and what it is answered.
//!
//! A handler gets the `Authorization` header and the fields of the request as they came, and
//! works on the hub. Opening connections, reading bodies and writing replies is for the caller.

use crate::clock;
use crate::clock::{Duration, Instant, Moment};
use crate::delivery::hub::DeliveryHub;
use crate::delivery::listen;
use crate::delivery::model::HubModel;
use crate::delivery::{
    Ack, AckView, AnnounceResult, AnnounceView, ClaimOutcome, ClaimOutcomeView, ClaimResolution,
    ClaimResolutionView, DecisionView, MediationDecision, MediationResult, MediationResultView,
    ParticipantInfoView, StoreWriteView, WaitAction, WaitEvent,
};
use crate::error;
use crate::error::{Error, ErrorView};
use crate::http;
use crate::http::{
    auth_failed_reply, bare_reply, bearer_token, done_reply, err_response, peer_address, refuse, say,
    say_two, Body, BodyView, Field, Fields, Reply, ReplyView, Scalar, ScalarView,
};
use crate::strmap;
use crate::text;
use crate::text::same;
use crate::types::{GovernorToken, MessageView, ParticipantToken, Payload, QueuedMessage};
use vstd::prelude::*;

verus! {

/// A span of seconds, where one is given.
pub open spec fn span(secs: Option<u64>) -> Option<Duration> {
    match secs {
        Some(n) => Some((n * clock::NANOS_PER_SEC) as Duration),
        None => None,
    }
}

/// A span of seconds, where one is given.
pub fn span_of(secs: Option<u64>) -> (d: Option<Duration>)
    ensures
        d == span(secs),
{
    match secs {
        Some(n) => Some(clock::secs(n)),
        None => None,
    }
}

// ── Participants ─────────────────────────────────────────────────────────────

/// The row of a participant on the governor's list.
pub open spec fn participant_row(p: ParticipantInfoView) -> Fields {
    seq![
        ("name"@, ScalarView::Text(p.name)),
        ("identity"@, ScalarView::Text(p.identity)),
        ("status"@, ScalarView::Text(p.status)),
    ]
}

/// The reply with the governor's list.
pub open spec fn participants_reply(r: Result<Seq<ParticipantInfoView>, ErrorView>) -> ReplyView {
    match r {
        Ok(ps) => ReplyView {
            status: 200,
            body: BodyView::Listing {
                key: "participants"@,
                rows: ps.map_values(|p: ParticipantInfoView| participant_row(p)),
            },
        },
        Err(e) => http::error_reply(e),
    }
}

/// The answer to who asks for the participants.
pub open spec fn participants_asked(
    m: HubModel,
    authorization: Option<Seq<char>>,
    now: Moment,
) -> ReplyView {
    match http::bearer(authorization) {
        None => http::auth_failed(),
        Some(t) => participants_reply(
            match m.trust.verify(t, now.instant) {
                Ok(_) => Ok(m.participants(now)),
                Err(e) => Err(e),
            },
        ),
    }
}

/// `GET /participants`: everyone who can be written to, for a governor.
pub fn handle_list_participants(hub: &DeliveryHub, authorization: Option<&str>, now: Moment) -> (r: Reply)
    ensures
        r.deep_view() == participants_asked(
            hub@,
            authorization.deep_view(),
            now,
        ),
{
    let gov = match bearer_token(authorization) {
        Some(t) => GovernorToken(t),
        None => return auth_failed_reply(),
    };
    let list = match hub.list_participants(&gov, now) {
        Ok(list) => list,
        Err(e) => return err_response(e),
    };
    let ghost ps = list.deep_view();
    let ghost row = |p: ParticipantInfoView| participant_row(p);
    let mut rows: Vec<Vec<Field>> = Vec::new();
    let mut i: usize = 0;
    assert(rows.deep_view() =~= ps.take(0).map_values(row));
    while i < list.len()
        invariant
            i <= list@.len(),
            ps == list.deep_view(),
            row == (|p: ParticipantInfoView| participant_row(p)),
            rows.deep_view() == ps.take(i as int).map_values(row),
        decreases list@.len() - i,
    {
        let p = &list[i];
        let fields: Vec<Field> = vec![
            ("name".to_owned(), Scalar::Text(p.name.clone())),
            ("identity".to_owned(), Scalar::Text(p.identity.clone())),
            ("status".to_owned(), Scalar::Text(p.status.to_owned())),
        ];
        assert(p.deep_view() == ps[i as int]);
        assert(fields.deep_view() =~= row(ps[i as int]));
        let ghost was = rows.deep_view();
        rows.push(fields);
        assert(rows.deep_view() =~= was.push(fields.deep_view()));
        assert(rows.deep_view() =~= ps.take(i + 1).map_values(row));
        i += 1;
    }
    assert(ps.take(i as int) =~= ps);
    Reply { status: 200, body: Body::Listing { key: "participants".to_owned(), rows } }
}

/// What becomes of the hub and the caller when a participant is to be taken away by name.
pub open spec fn deregistering(
    m: HubModel,
    authorization: Option<Seq<char>>,
    name: Seq<char>,
    now: Moment,
) -> (HubModel, ReplyView) {
    match http::bearer(authorization) {
        None => (m, http::auth_failed()),
        Some(t) => {
            let (after, o) = m.revoke_by_name(name, t, now);
            (after, http::done(o))
        },
    }
}

/// `DELETE /participants/{name}`: a governor revokes whoever holds a name.
pub fn handle_deregister(hub: &mut DeliveryHub, authorization: Option<&str>, name: &str, now: Moment) -> (r: Reply)
    requires
        now.in_range(),
    ensures
        (final(hub)@, r.deep_view()) == deregistering(
            old(hub)@,
            authorization.deep_view(),
            name@,
            now,
        ),
        old(hub)@.sound() ==> final(hub)@.sound(),
{
    let gov = match bearer_token(authorization) {
        Some(t) => GovernorToken(t),
        None => return auth_failed_reply(),
    };
    done_reply(hub.revoke_by_name(name, &gov, now))
}

/// The reply on a participant's presence.
pub open spec fn presence_reply(r: Result<bool, ErrorView>) -> ReplyView {
    match r {
        Ok(seen) => http::said(
            200,
            "status"@,
            if seen {
                "online"@
            } else {
                "offline"@
            },
        ),
        Err(e) => http::error_reply(e),
    }
}

/// The answer to who asks whether a participant is there.
pub open spec fn presence_asked(
    m: HubModel,
    authorization: Option<Seq<char>>,
    name: Seq<char>,
    now: Moment,
) -> ReplyView {
    match http::bearer(authorization) {
        None => http::auth_failed(),
        Some(t) => presence_reply(m.presence_for(t, name, now)),
    }
}

/// `GET /participants/{name}/presence`: whether a participant is there, as far as the caller may
/// see it.
pub fn handle_presence(hub: &DeliveryHub, authorization: Option<&str>, name: &str, now: Moment) -> (r: Reply)
    requires
        now.in_range(),
    ensures
        r.deep_view() == presence_asked(
            hub@,
            authorization.deep_view(),
            name@,
            now,
        ),
{
    let token = match bearer_token(authorization) {
        Some(t) => t,
        None => return auth_failed_reply(),
    };
    match hub.presence_for_token(token.as_str(), name, now) {
        Ok(true) => say(200, "status", "online"),
        Ok(false) => say(200, "status", "offline"),
        Err(e) => err_response(e),
    }
}

/// What becomes of the hub and the caller when a participant hides or shows itself.
pub open spec fn hiding(
    m: HubModel,
    authorization: Option<Seq<char>>,
    scope: Seq<char>,
) -> (HubModel, ReplyView) {
    match http::bearer(authorization) {
        None => (m, http::auth_failed()),
        Some(t) => {
            let (after, o) = m.set_hidden(t, scope == "hidden"@);
            (after, http::done(o))
        },
    }
}

/// `POST /participants/{name}/presence-scope`: the caller hides, or shows itself again.
pub fn handle_set_presence_scope(hub: &mut DeliveryHub, authorization: Option<&str>, scope: &str) -> (r: Reply)
    ensures
        (final(hub)@, r.deep_view()) == hiding(
            old(hub)@,
            authorization.deep_view(),
            scope@,
        ),
        old(hub)@.sound() ==> final(hub)@.sound(),
{
    let token = match bearer_token(authorization) {
        Some(t) => t,
        None => return auth_failed_reply(),
    };
    if same(scope, "hidden") {
        done_reply(hub.conceal(token.as_str()))
    } else {
        done_reply(hub.show(token.as_str()))
    }
}

// ── Registration, streams and names ──────────────────────────────────────────

/// The reply with a token that was handed out.
pub open spec fn issued_reply(r: Result<(Seq<char>, Option<Seq<char>>), ErrorView>) -> ReplyView {
    match r {
        Ok((token, Some(name))) => http::said_two(200, "token"@, token, "name"@, name),
        Ok((token, None)) => http::said(200, "token"@, token),
        Err(ErrorView::RecipientUnknown) => http::refused(
            404,
            "RECIPIENT_UNKNOWN"@,
            "name not found in identities"@,
        ),
        Err(ErrorView::Forbidden) => http::refused(403, "FORBIDDEN"@, "governor token required"@),
        Err(e) => http::error_reply(e),
    }
}

/// The reply with a token that was handed out.
pub fn issued(r: Result<(String, Option<String>), Error>) -> (reply: Reply)
    ensures
        reply.deep_view() == issued_reply(error::outcome(r)),
{
    match r {
        Ok((token, Some(name))) => say_two(200, "token", token.as_str(), "name", name.as_str()),
        Ok((token, None)) => say(200, "token", token.as_str()),
        Err(Error::RecipientUnknown) => refuse(
            404,
            "RECIPIENT_UNKNOWN",
            "name not found in identities",
        ),
        Err(Error::Forbidden) => refuse(403, "FORBIDDEN", "governor token required"),
        Err(e) => err_response(e),
    }
}

/// What a registration meets.
pub enum Gate {
    /// Nobody governs; anyone may register.
    Open,
    /// Nobody governs, and the time for open registration is over.
    Closed,
    /// No token came with the request.
    Anonymous,
    /// A participant's token came with the request.
    Participant,
    /// A token that may be a governor's came with the request.
    Candidate { token: String },
}

/// What a gate holds.
pub enum GateView {
    Open,
    Closed,
    Anonymous,
    Participant,
    Candidate { token: Seq<char> },
}

impl DeepView for Gate {
    type V = GateView;

    open spec fn deep_view(&self) -> GateView {
        match self {
            Gate::Open => GateView::Open,
            Gate::Closed => GateView::Closed,
            Gate::Anonymous => GateView::Anonymous,
            Gate::Participant => GateView::Participant,
            Gate::Candidate { token } => GateView::Candidate { token: token@ },
        }
    }
}

/// What a registration meets. Until someone governs, registration is open, up to a deadline
/// where one is set.
pub open spec fn gate(
    m: HubModel,
    authorization: Option<Seq<char>>,
    deadline: Option<Instant>,
    now: Instant,
) -> GateView {
    if !m.trust.governed() {
        if deadline matches Some(end) && now > end {
            GateView::Closed
        } else {
            GateView::Open
        }
    } else {
        match http::bearer(authorization) {
            None => GateView::Anonymous,
            Some(t) => if m.usable(t) is Ok {
                GateView::Participant
            } else {
                GateView::Candidate { token: t }
            },
        }
    }
}

/// What a registration meets.
pub fn registration_gate(
    hub: &DeliveryHub,
    authorization: Option<&str>,
    deadline: Option<Instant>,
    now: Instant,
) -> (g: Gate)
    ensures
        g.deep_view() == gate(hub@, authorization.deep_view(), deadline, now),
{
    if !hub.has_active_governor() {
        if let Some(end) = deadline {
            if now > end {
                return Gate::Closed;
            }
        }
        return Gate::Open;
    }
    match bearer_token(authorization) {
        None => Gate::Anonymous,
        Some(t) => if hub.is_participant_token(t.as_str()) {
            Gate::Participant
        } else {
            Gate::Candidate { token: t }
        },
    }
}

/// What a registration does and is answered. `n` is the number of the token handed out.
pub open spec fn registered(m: HubModel, g: GateView, name: Option<Seq<char>>, n: u64, now: Instant) -> (
    HubModel,
    ReplyView,
) {
    match g {
        GateView::Closed => (
            m,
            http::said(503, "error"@, "bootstrap window closed; contact operator"@),
        ),
        GateView::Open => (
            m.enrol(n, true, now),
            http::said(200, "token"@, text::decimal(n as nat)),
        ),
        GateView::Anonymous => (m, http::auth_failed()),
        GateView::Participant => (
            m,
            http::refused(
                403,
                "FORBIDDEN"@,
                "a participant token cannot register participants; present the governor token"@,
            ),
        ),
        GateView::Candidate { token } => {
            let (after, o) = m.issue_participant(token, name, n, now);
            (after, issued_reply(o))
        },
    }
}

/// `POST /register`: hands out a token.
pub fn handle_register(
    hub: &mut DeliveryHub,
    authorization: Option<&str>,
    name: Option<&str>,
    deadline: Option<Instant>,
    now: Moment,
) -> (r: Reply)
    requires
        old(hub)@.can_mint(),
    ensures
        ({
            let g = gate(old(hub)@, authorization.deep_view(), deadline, now.instant);
            exists|n: u64| #[trigger]
                old(hub)@.free_number(n) && (final(hub)@, r.deep_view()) == registered(
                    old(hub)@,
                    g,
                    name.deep_view(),
                    n,
                    now.instant,
                )
        }),
        old(hub)@.sound() ==> final(hub)@.sound(),
{
    let g = registration_gate(hub, authorization, deadline, now.instant);
    match g {
        Gate::Closed => say(503, "error", "bootstrap window closed; contact operator"),
        Gate::Open => {
            let token = hub.register_participant(now);
            say(200, "token", token.as_str())
        },
        Gate::Anonymous => auth_failed_reply(),
        Gate::Participant => refuse(
            403,
            "FORBIDDEN",
            "a participant token cannot register participants; present the governor token",
        ),
        Gate::Candidate { token } => {
            let o = hub.issue_participant_token(&GovernorToken(token), name, now);
            issued(o)
        },
    }
}

/// What an optional flag comes to; it is off where it is missing.
pub open spec fn flag(b: Option<bool>) -> bool {
    b == Some(true)
}

/// The address that a forwarding header gives.
pub open spec fn address(forwarded: Option<Seq<char>>) -> Option<Seq<char>> {
    match forwarded {
        Some(h) => Some(http::first_address(h)),
        None => None,
    }
}

/// The token and the stream that were opened, or the reply to a refusal.
pub open spec fn listened(
    m: HubModel,
    authorization: Option<Seq<char>>,
    forwarded: Option<Seq<char>>,
    name: Option<Seq<char>>,
    force: Option<bool>,
    presence_push: Option<bool>,
    n: u64,
    now: Moment,
) -> (HubModel, Result<(Seq<char>, u64), ReplyView>) {
    match http::bearer(authorization) {
        None => (m, Err(http::auth_failed())),
        Some(t) => match m.open_listen(
            Some(t),
            address(forwarded),
            name,
            flag(force),
            flag(presence_push),
            n,
            now,
        ) {
            (after, Ok(opened)) => (after, Ok(opened)),
            (after, Err(e)) => (after, Err(http::error_reply(e))),
        },
    }
}

/// `POST /listen`: opens a stream.
pub fn handle_listen(
    hub: &mut DeliveryHub,
    authorization: Option<&str>,
    forwarded: Option<&str>,
    name: Option<&str>,
    force: Option<bool>,
    presence_push: Option<bool>,
    now: Moment,
) -> (r: Result<(String, u64), Reply>)
    requires
        old(hub)@.can_mint(),
        now.in_range(),
    ensures
        exists|n: u64| #[trigger]
            old(hub)@.gc(now).free_number(n) && (
            final(hub)@,
            match r {
                Ok(opened) => Ok(opened.deep_view()),
                Err(reply) => Err(reply.deep_view()),
            },
            ) == listened(
                old(hub)@,
                authorization.deep_view(),
                forwarded.deep_view(),
                name.deep_view(),
                force,
                presence_push,
                n,
                now,
            ),
        old(hub)@.sound() ==> final(hub)@.sound(),
{
    let ghost before = hub@;
    proof {
        listen::lemma_gc_leaves_room(before, now);
        let n = choose|n: u64| before.gc(now).free_number(n);
        assert(before.gc(now).free_number(n));
    }
    let token = match bearer_token(authorization) {
        Some(t) => t,
        None => return Err(auth_failed_reply()),
    };
    let ip = match forwarded {
        Some(h) => Some(peer_address(h)),
        None => None,
    };
    let ip_text = match &ip {
        Some(s) => Some(s.as_str()),
        None => None,
    };
    let forced = match force {
        Some(b) => b,
        None => false,
    };
    let push = match presence_push {
        Some(b) => b,
        None => false,
    };
    match hub.open_listen(Some(token.as_str()), ip_text, name, forced, push, now) {
        Ok(opened) => Ok(opened),
        Err(e) => Err(err_response(e)),
    }
}

/// What becomes of the hub and the caller when a stream is given up.
pub open spec fn cancelling(
    m: HubModel,
    authorization: Option<Seq<char>>,
    now: Moment,
) -> (HubModel, ReplyView) {
    match http::bearer(authorization) {
        None => (m, http::auth_failed()),
        Some(t) => match m.cancel_listen(t, now) {
            (after, Ok(_)) => (after, http::bare(204)),
            (after, Err(_)) => (after, http::refused(404, "NOT_FOUND"@, "no active subscription"@)),
        },
    }
}

/// `DELETE /listen`: gives up the stream of the caller and the name bound to it.
pub fn handle_cancel_listen(hub: &mut DeliveryHub, authorization: Option<&str>, now: Moment) -> (r: Reply)
    requires
        now.in_range(),
    ensures
        (final(hub)@, r.deep_view()) == cancelling(
            old(hub)@,
            authorization.deep_view(),
            now,
        ),
        old(hub)@.sound() ==> final(hub)@.sound(),
{
    let token = match bearer_token(authorization) {
        Some(t) => t,
        None => return auth_failed_reply(),
    };
    match hub.cancel_listen(token.as_str(), now) {
        Ok(_) => bare_reply(204),
        Err(_) => refuse(404, "NOT_FOUND", "no active subscription"),
    }
}

/// The reply to an announcement.
pub open spec fn announced_reply(r: Result<AnnounceView, ErrorView>) -> ReplyView {
    match r {
        Ok(AnnounceView::Bound) => http::bare(204),
        Ok(AnnounceView::NameInUse { resolution_stream }) => ReplyView {
            status: 409,
            body: BodyView::Object(
                seq![
                    ("error"@, ScalarView::Text("NAME_IN_USE"@)),
                    ("message"@, ScalarView::Text("name is currently in use"@)),
                    ("resolution_stream"@, ScalarView::Text(resolution_stream)),
                    (
                        "resolution"@,
                        ScalarView::Text(
                            "contact the governor to rebind your identity to a new credential"@,
                        ),
                    ),
                ],
            ),
        },
        Err(e) => http::error_reply(e),
    }
}

fn announced(r: Result<AnnounceResult, Error>) -> (reply: Reply)
    ensures
        reply.deep_view() == announced_reply(error::outcome(r)),
{
    match r {
        Ok(AnnounceResult::Bound) => bare_reply(204),
        Ok(AnnounceResult::NameInUse { resolution_stream }) => {
            let fields: Vec<Field> = vec![
                ("error".to_owned(), Scalar::Text("NAME_IN_USE".to_owned())),
                ("message".to_owned(), Scalar::Text("name is currently in use".to_owned())),
                ("resolution_stream".to_owned(), Scalar::Text(resolution_stream)),
                (
                    "resolution".to_owned(),
                    Scalar::Text(
                        "contact the governor to rebind your identity to a new credential".to_owned(),
                    ),
                ),
            ];
            assert(fields.deep_view() =~= seq![
                ("error"@, ScalarView::Text("NAME_IN_USE"@)),
                ("message"@, ScalarView::Text("name is currently in use"@)),
                ("resolution_stream"@, ScalarView::Text(resolution_stream@)),
                (
                    "resolution"@,
                    ScalarView::Text(
                        "contact the governor to rebind your identity to a new credential"@,
                    ),
                ),
            ]);
            Reply { status: 409, body: Body::Object(fields) }
        },
        Err(e) => err_response(e),
    }
}

/// What becomes of the hub and the caller when a name is announced.
pub open spec fn announcing(
    m: HubModel,
    authorization: Option<Seq<char>>,
    name: Option<Seq<char>>,
    now: Moment,
) -> (HubModel, ReplyView) {
    match http::bearer(authorization) {
        None => (m, http::auth_failed()),
        Some(t) => match name {
            None => (m, http::error_reply(ErrorView::BadRequest)),
            Some(n) => {
                let (after, o) = m.announce(t, n, now);
                (after, announced_reply(o))
            },
        },
    }
}

/// `POST /announce`: binds a name to the caller's token.
pub fn handle_announce(hub: &mut DeliveryHub, authorization: Option<&str>, name: Option<&str>, now: Moment) -> (r: Reply)
    requires
        now.in_range(),
    ensures
        (final(hub)@, r.deep_view()) == announcing(
            old(hub)@,
            authorization.deep_view(),
            name.deep_view(),
            now,
        ),
        old(hub)@.sound() ==> final(hub)@.sound(),
{
    let token = match bearer_token(authorization) {
        Some(t) => t,
        None => return auth_failed_reply(),
    };
    match name {
        None => err_response(Error::BadRequest),
        Some(n) => announced(hub.announce(token.as_str(), n, now)),
    }
}

// ── Governors ────────────────────────────────────────────────────────────────

/// The reply with a governor's new token.
pub open spec fn governor_reply(r: Result<Seq<char>, ErrorView>) -> ReplyView {
    match r {
        Ok(t) => http::said(200, "token"@, t),
        Err(e) => http::error_reply(e),
    }
}

/// What becomes of the hub and the caller when a governor renews its token.
pub open spec fn refreshing(
    m: HubModel,
    authorization: Option<Seq<char>>,
    now: Moment,
) -> (HubModel, ReplyView) {
    match http::bearer(authorization) {
        None => (m, http::auth_failed()),
        Some(t) => {
            let (after, o) = m.refresh(t, now);
            (after, governor_reply(o))
        },
    }
}

/// `POST /governors/refresh`: a governor replaces its token.
pub fn handle_refresh_governor_token(hub: &mut DeliveryHub, authorization: Option<&str>, now: Moment) -> (r: Reply)
    requires
        old(hub)@.ready(),
        now.in_range(),
    ensures
        (final(hub)@, r.deep_view()) == refreshing(
            old(hub)@,
            authorization.deep_view(),
            now,
        ),
        old(hub)@.sound() ==> final(hub)@.sound(),
{
    let gov = match bearer_token(authorization) {
        Some(t) => GovernorToken(t),
        None => return auth_failed_reply(),
    };
    match hub.refresh_governor_token(&gov, now) {
        Ok(t) => say(200, "token", t.0.as_str()),
        Err(e) => err_response(e),
    }
}

/// `POST /governors/transfer`: a governor puts the governorship on offer.
pub fn handle_transfer_governor(
    hub: &mut DeliveryHub,
    authorization: Option<&str>,
    to: Option<&str>,
    now: Moment,
) -> (r: Reply)
    ensures
        match http::bearer(authorization.deep_view()) {
            None => final(hub)@ == old(hub)@ && r.deep_view() == http::auth_failed(),
            Some(t) => match old(hub)@.trust.verify(t, now.instant) {
                Err(e) => final(hub)@ == old(hub)@ && r.deep_view() == http::error_reply(e),
                Ok(_) => exists|bytes: Seq<u8>|
                    bytes.len() == 16 && r.deep_view() == http::said(
                        200,
                        "transfer_token"@,
                        #[trigger] text::hex_bytes(bytes),
                    ) && final(hub)@ == (HubModel {
                        trust: old(hub)@.trust.offer(t, to.deep_view(), text::hex_bytes(bytes)),
                        ..old(hub)@
                    }),
            },
        },
        old(hub)@.sound() ==> final(hub)@.sound(),
{
    let gov = match bearer_token(authorization) {
        Some(t) => GovernorToken(t),
        None => return auth_failed_reply(),
    };
    match hub.transfer_governor(&gov, to, now) {
        Ok(t) => say(200, "transfer_token", t.as_str()),
        Err(e) => err_response(e),
    }
}

/// The reply to a transfer that was taken up.
pub open spec fn accepted_reply(r: Result<Seq<char>, ErrorView>) -> ReplyView {
    match r {
        Ok(t) => http::said(200, "token"@, t),
        Err(ErrorView::RecipientUnknown) => http::refused(
            404,
            "NOT_FOUND"@,
            "transfer token not found or consumed"@,
        ),
        Err(ErrorView::Forbidden) => http::refused(
            403,
            "FORBIDDEN"@,
            "transfer is bound to a different identity"@,
        ),
        Err(e) => http::error_reply(e),
    }
}

/// What becomes of the hub and the caller when an offer of governorship is taken up.
pub open spec fn accepting(
    m: HubModel,
    authorization: Option<Seq<char>>,
    transfer_token: Option<Seq<char>>,
    now: Moment,
) -> (HubModel, ReplyView) {
    match http::bearer(authorization) {
        None => (m, http::auth_failed()),
        Some(t) => if m.is_governor(t, now) {
            (m, http::refused(403, "FORBIDDEN"@, "a participant token is required"@))
        } else {
            match transfer_token {
                None => (
                    m,
                    http::refused(400, "MISSING_FIELD"@, "missing transfer_token"@),
                ),
                Some(offer) => {
                    let (after, o) = m.accept_transfer(t, offer);
                    (after, accepted_reply(o))
                },
            }
        },
    }
}

/// `POST /governors/accept-transfer`: a participant takes up an offered transfer.
pub fn handle_accept_governor_transfer(
    hub: &mut DeliveryHub,
    authorization: Option<&str>,
    transfer_token: Option<&str>,
    now: Moment,
) -> (r: Reply)
    requires
        old(hub)@.trust.can_number(),
    ensures
        (final(hub)@, r.deep_view()) == accepting(
            old(hub)@,
            authorization.deep_view(),
            transfer_token.deep_view(),
            now,
        ),
        old(hub)@.sound() ==> final(hub)@.sound(),
{
    let bearer = match bearer_token(authorization) {
        Some(t) => t,
        None => return auth_failed_reply(),
    };
    let gov = GovernorToken(bearer.clone());
    if hub.validate_governor_token(&gov, now).is_ok() {
        return refuse(403, "FORBIDDEN", "a participant token is required");
    }
    let offer = match transfer_token {
        Some(t) => t,
        None => return refuse(400, "MISSING_FIELD", "missing transfer_token"),
    };
    match hub.accept_governor_transfer(bearer.as_str(), offer) {
        Ok(t) => say(200, "token", t.0.as_str()),
        Err(Error::RecipientUnknown) => refuse(
            404,
            "NOT_FOUND",
            "transfer token not found or consumed",
        ),
        Err(Error::Forbidden) => refuse(
            403,
            "FORBIDDEN",
            "transfer is bound to a different identity",
        ),
        Err(e) => err_response(e),
    }
}

/// `POST /admin/governor/reset`: the operator puts a new governor in place of all others.
/// `secret` is the operator's, `provided` what came with the request.
pub fn handle_admin_governor_reset(
    hub: &mut DeliveryHub,
    secret: Option<&str>,
    provided: Option<&str>,
    now: Moment,
) -> (r: Reply)
    requires
        old(hub)@.trust.can_number(),
        now.in_range(),
    ensures
        match secret.deep_view() {
            None => final(hub)@ == old(hub)@ && r.deep_view() == http::refused(
                501,
                "NOT_IMPLEMENTED"@,
                "admin secret not configured"@,
            ),
            Some(s) => if provided.deep_view() != Some(s) {
                final(hub)@ == old(hub)@ && r.deep_view() == http::auth_failed()
            } else {
                &&& r.deep_view() == http::said(
                    200,
                    "governor_token"@,
                    old(hub)@.trust.next("gov"@),
                )
                &&& exists|revoked: Seq<Seq<char>>|
                    #![trigger strmap::ascending(revoked)]
                    strmap::ascending(revoked) && revoked.to_set() == old(hub)@.trust.active()
                        && final(hub)@ == old(hub)@.reset_trust(now).store(
                        StoreWriteView::ResetGovernors {
                            revoked,
                            new_token: old(hub)@.trust.next("gov"@),
                        },
                    )
            },
        },
        old(hub)@.sound() ==> final(hub)@.sound(),
{
    let secret = match secret {
        Some(s) => s,
        None => return refuse(501, "NOT_IMPLEMENTED", "admin secret not configured"),
    };
    let right = match provided {
        Some(p) => same(p, secret),
        None => false,
    };
    if !right {
        return auth_failed_reply();
    }
    let t = hub.admin_reset_governor(now);
    say(200, "governor_token", t.0.as_str())
}

/// The reply to a claim to the governorship.
pub open spec fn claimed_reply(r: Result<ClaimOutcomeView, ErrorView>) -> ReplyView {
    match r {
        Ok(ClaimOutcomeView::Granted { governor_token }) => http::said_two(
            200,
            "status"@,
            "granted"@,
            "governor_token"@,
            governor_token,
        ),
        Ok(ClaimOutcomeView::Election { claim_id, voters }) => ReplyView {
            status: 202,
            body: BodyView::Object(
                seq![
                    ("status"@, ScalarView::Text("election"@)),
                    ("claim_id"@, ScalarView::Text(claim_id)),
                    ("voters"@, ScalarView::Number(voters as u64)),
                ],
            ),
        },
        Ok(ClaimOutcomeView::Transfer { claim_id }) => http::said_two(
            202,
            "status"@,
            "transfer_pending"@,
            "claim_id"@,
            claim_id,
        ),
        Err(e) => http::error_reply(e),
    }
}

fn claimed(r: Result<ClaimOutcome, Error>) -> (reply: Reply)
    ensures
        reply.deep_view() == claimed_reply(error::outcome(r)),
{
    match r {
        Ok(ClaimOutcome::Granted { governor_token }) => say_two(
            200,
            "status",
            "granted",
            "governor_token",
            governor_token.as_str(),
        ),
        Ok(ClaimOutcome::Election { claim_id, voters }) => {
            let fields: Vec<Field> = vec![
                ("status".to_owned(), Scalar::Text("election".to_owned())),
                ("claim_id".to_owned(), Scalar::Text(claim_id)),
                ("voters".to_owned(), Scalar::Number(voters as u64)),
            ];
            assert(fields.deep_view() =~= seq![
                ("status"@, ScalarView::Text("election"@)),
                ("claim_id"@, ScalarView::Text(claim_id@)),
                ("voters"@, ScalarView::Number(voters as u64)),
            ]);
            Reply { status: 202, body: Body::Object(fields) }
        },
        Ok(ClaimOutcome::Transfer { claim_id }) => say_two(
            202,
            "status",
            "transfer_pending",
            "claim_id",
            claim_id.as_str(),
        ),
        Err(e) => err_response(e),
    }
}

/// What becomes of the hub and the caller when the governorship is claimed.
pub open spec fn claiming(
    m: HubModel,
    authorization: Option<Seq<char>>,
    expiry_secs: Option<u64>,
    now: Moment,
) -> (HubModel, ReplyView) {
    match http::bearer(authorization) {
        None => (m, http::auth_failed()),
        Some(t) => {
            let (after, o) = m.claim(t, span(expiry_secs), now);
            (after, claimed_reply(o))
        },
    }
}

/// `POST /governors/claim`: a participant claims the governorship.
pub fn handle_claim_governorship(
    hub: &mut DeliveryHub,
    authorization: Option<&str>,
    expiry_secs: Option<u64>,
    now: Moment,
) -> (r: Reply)
    requires
        old(hub)@.ready(),
        now.in_range(),
    ensures
        (final(hub)@, r.deep_view()) == claiming(
            old(hub)@,
            authorization.deep_view(),
            expiry_secs,
            now,
        ),
        old(hub)@.sound() ==> final(hub)@.sound(),
{
    let token = match bearer_token(authorization) {
        Some(t) => t,
        None => return auth_failed_reply(),
    };
    claimed(hub.claim_governorship(token.as_str(), span_of(expiry_secs), now))
}

/// The reply to a vote.
pub open spec fn voted_reply(r: Result<ClaimResolutionView, ErrorView>) -> ReplyView {
    match r {
        Ok(ClaimResolutionView::Waiting { approved, required }) => ReplyView {
            status: 200,
            body: BodyView::Object(
                seq![
                    ("status"@, ScalarView::Text("waiting"@)),
                    ("approved"@, ScalarView::Number(approved as u64)),
                    ("required"@, ScalarView::Number(required as u64)),
                ],
            ),
        },
        Ok(ClaimResolutionView::Established { .. }) => http::said(
            200,
            "status"@,
            "established"@,
        ),
        Ok(ClaimResolutionView::Rejected { .. }) => http::said(200, "status"@, "rejected"@),
        Err(e) => http::error_reply(e),
    }
}

fn voted(r: Result<ClaimResolution, Error>) -> (reply: Reply)
    ensures
        reply.deep_view() == voted_reply(error::outcome(r)),
{
    match r {
        Ok(ClaimResolution::Waiting { approved, required }) => {
            let fields: Vec<Field> = vec![
                ("status".to_owned(), Scalar::Text("waiting".to_owned())),
                ("approved".to_owned(), Scalar::Number(approved as u64)),
                ("required".to_owned(), Scalar::Number(required as u64)),
            ];
            assert(fields.deep_view() =~= seq![
                ("status"@, ScalarView::Text("waiting"@)),
                ("approved"@, ScalarView::Number(approved as u64)),
                ("required"@, ScalarView::Number(required as u64)),
            ]);
            Reply { status: 200, body: Body::Object(fields) }
        },
        Ok(ClaimResolution::Established { .. }) => say(200, "status", "established"),
        Ok(ClaimResolution::Rejected { .. }) => say(200, "status", "rejected"),
        Err(e) => err_response(e),
    }
}

/// What a vote's action means.
pub open spec fn vote(action: Seq<char>) -> Option<bool> {
    if action == "approve"@ {
        Some(true)
    } else if action == "reject"@ {
        Some(false)
    } else {
        None
    }
}

fn vote_of(action: &str) -> (r: Option<bool>)
    ensures
        r == vote(action@),
{
    if same(action, "approve") {
        Some(true)
    } else if same(action, "reject") {
        Some(false)
    } else {
        None
    }
}

/// What becomes of the hub and the caller when a vote is cast.
pub open spec fn voting(
    m: HubModel,
    authorization: Option<Seq<char>>,
    claim_id: Seq<char>,
    action: Seq<char>,
    now: Moment,
) -> (HubModel, ReplyView) {
    match http::bearer(authorization) {
        None => (m, http::auth_failed()),
        Some(t) => match vote(action) {
            None => (m, http::error_reply(ErrorView::BadRequest)),
            Some(approve) => {
                let (after, o) = m.respond(t, claim_id, approve, now);
                (after, voted_reply(o))
            },
        },
    }
}

/// `POST /governors/elections/{id}`: a vote on a claim.
pub fn handle_election_vote(
    hub: &mut DeliveryHub,
    authorization: Option<&str>,
    claim_id: &str,
    action: &str,
    now: Moment,
) -> (r: Reply)
    requires
        old(hub)@.ready(),
        now.in_range(),
    ensures
        (final(hub)@, r.deep_view()) == voting(
            old(hub)@,
            authorization.deep_view(),
            claim_id@,
            action@,
            now,
        ),
        old(hub)@.sound() ==> final(hub)@.sound(),
{
    let token = match bearer_token(authorization) {
        Some(t) => t,
        None => return auth_failed_reply(),
    };
    match vote_of(action) {
        None => err_response(Error::BadRequest),
        Some(approve) => voted(hub.respond_claim(token.as_str(), claim_id, approve, now)),
    }
}

/// `GET /governors/events`: whether the caller may hear the governors' events.
pub fn handle_gov_events(hub: &DeliveryHub, authorization: Option<&str>, now: Moment) -> (r: Result<(), Reply>)
    ensures
        match r {
            Ok(_) => http::bearer(authorization.deep_view()) matches Some(t) && hub@.is_governor(
                t,
                now,
            ),
            Err(reply) => match http::bearer(authorization.deep_view()) {
                None => reply.deep_view() == http::auth_failed(),
                Some(t) => hub@.trust.verify(t, now.instant) matches Err(e) && reply.deep_view()
                    == http::error_reply(e),
            },
        },
{
    let gov = match bearer_token(authorization) {
        Some(t) => GovernorToken(t),
        None => return Err(auth_failed_reply()),
    };
    match hub.validate_governor_token(&gov, now) {
        Ok(_) => Ok(()),
        Err(e) => Err(err_response(e)),
    }
}

/// What a ruling means; none where it makes no sense.
pub open spec fn ruling(decision: Seq<char>, payload: Option<Seq<char>>) -> Option<DecisionView> {
    if decision == "approve"@ {
        Some(DecisionView::Approve)
    } else if decision == "block"@ {
        Some(DecisionView::Block)
    } else if decision == "modify"@ {
        match payload {
            Some(p) => Some(DecisionView::Modify(vstd::utf8::encode_utf8(p))),
            None => None,
        }
    } else {
        None
    }
}

fn ruling_of(decision: &str, payload: Option<&str>) -> (r: Option<MediationDecision>)
    ensures
        r.deep_view() == ruling(decision@, payload.deep_view()),
{
    if same(decision, "approve") {
        Some(MediationDecision::Approve)
    } else if same(decision, "block") {
        Some(MediationDecision::Block)
    } else if same(decision, "modify") {
        match payload {
            Some(p) => Some(MediationDecision::Modify(Payload::of_text(p))),
            None => None,
        }
    } else {
        None
    }
}

/// The reply to a ruling.
pub open spec fn ruled_reply(r: Result<MediationResultView, ErrorView>) -> ReplyView {
    match r {
        Ok(MediationResultView::Delivered { .. }) => http::said(200, "status"@, "delivered"@),
        Ok(MediationResultView::Blocked) => http::said(200, "status"@, "blocked"@),
        Ok(MediationResultView::RecipientOffline) => http::error_reply(
            ErrorView::RecipientOffline,
        ),
        Err(e) => http::error_reply(e),
    }
}

/// What becomes of the hub and the caller when a held message is ruled on.
pub open spec fn mediating(
    m: HubModel,
    authorization: Option<Seq<char>>,
    mediation_id: Seq<char>,
    decision: Seq<char>,
    payload: Option<Seq<char>>,
    now: Moment,
) -> (HubModel, ReplyView) {
    match http::bearer(authorization) {
        None => (m, http::auth_failed()),
        Some(t) => match ruling(decision, payload) {
            None => (m, http::error_reply(ErrorView::BadRequest)),
            Some(d) => {
                let (after, o) = m.resolve(t, mediation_id, d, now);
                (after, ruled_reply(o))
            },
        },
    }
}

/// `POST /governors/mediate`: a governor rules on a message that waits.
pub fn handle_mediate(
    hub: &mut DeliveryHub,
    authorization: Option<&str>,
    mediation_id: &str,
    decision: &str,
    payload: Option<&str>,
    now: Moment,
) -> (r: Reply)
    requires
        old(hub)@.ready(),
        now.in_range(),
    ensures
        (final(hub)@, r.deep_view()) == mediating(
            old(hub)@,
            authorization.deep_view(),
            mediation_id@,
            decision@,
            payload.deep_view(),
            now,
        ),
        old(hub)@.sound() ==> final(hub)@.sound(),
{
    let gov = match bearer_token(authorization) {
        Some(t) => GovernorToken(t),
        None => return auth_failed_reply(),
    };
    let d = match ruling_of(decision, payload) {
        Some(d) => d,
        None => return err_response(Error::BadRequest),
    };
    match hub.resolve_mediation(&gov, mediation_id, d, now) {
        Ok(MediationResult::Delivered { .. }) => say(200, "status", "delivered"),
        Ok(MediationResult::Blocked) => say(200, "status", "blocked"),
        Ok(MediationResult::RecipientOffline) => err_response(Error::RecipientOffline),
        Err(e) => err_response(e),
    }
}

// ── Messages ─────────────────────────────────────────────────────────────────

/// What a request to send holds.
pub struct SendBody {
    pub to: Option<String>,
    pub to_token: Option<String>,
    pub payload: String,
    pub reason: Option<String>,
    pub thread_id: Option<String>,
}

/// The reply to a message that was sent.
pub open spec fn sent_reply(r: Result<AckView, ErrorView>) -> ReplyView {
    match r {
        Ok(AckView::Accepted) => http::said(202, "status"@, "accepted"@),
        Ok(AckView::PendingMediation { mediation_id }) => http::said_two(
            200,
            "status"@,
            "pending_mediation"@,
            "mediation_id"@,
            mediation_id,
        ),
        Err(e) => http::error_reply(e),
    }
}

fn sent(r: Result<Ack, Error>) -> (reply: Reply)
    ensures
        reply.deep_view() == sent_reply(error::outcome(r)),
{
    match r {
        Ok(Ack::Accepted) => say(202, "status", "accepted"),
        Ok(Ack::PendingMediation { mediation_id }) => say_two(
            200,
            "status",
            "pending_mediation",
            "mediation_id",
            mediation_id.as_str(),
        ),
        Err(e) => err_response(e),
    }
}

/// What becomes of the hub and the caller when a message is sent.
pub open spec fn sending(
    m: HubModel,
    authorization: Option<Seq<char>>,
    to: Option<Seq<char>>,
    to_token: Option<Seq<char>>,
    payload: Seq<char>,
    thread: Option<Seq<char>>,
    now: Moment,
) -> (HubModel, ReplyView) {
    match http::bearer(authorization) {
        None => (m, http::auth_failed()),
        Some(t) => {
            let bytes = vstd::utf8::encode_utf8(payload);
            match (to, to_token) {
                (Some(name), _) => {
                    let (after, o) = m.send(t, name, bytes, thread, now);
                    (after, sent_reply(o))
                },
                (None, Some(other)) => {
                    let (after, o) = m.send_to_token(t, other, bytes, thread, now);
                    (after, sent_reply(o))
                },
                (None, None) => (m, http::error_reply(ErrorView::BadRequest)),
            }
        },
    }
}

/// `POST /messages/send`: sends a message to a name or, where no name is given, to whoever holds
/// a token.
pub fn handle_send(hub: &mut DeliveryHub, authorization: Option<&str>, body: SendBody, now: Moment) -> (r: Reply)
    requires
        old(hub)@.ready(),
        now.in_range(),
    ensures
        (final(hub)@, r.deep_view()) == sending(
            old(hub)@,
            authorization.deep_view(),
            body.to.deep_view(),
            body.to_token.deep_view(),
            body.payload@,
            body.thread_id.deep_view(),
            now,
        ),
        old(hub)@.sound() ==> final(hub)@.sound(),
{
    let token = match bearer_token(authorization) {
        Some(t) => ParticipantToken(t),
        None => return auth_failed_reply(),
    };
    let payload = Payload::of_text(body.payload.as_str());
    match (body.to, body.to_token) {
        (Some(to), _) => sent(
            hub.send(&token, to.as_str(), payload, body.reason, body.thread_id, now),
        ),
        (None, Some(to)) => sent(
            hub.send_to_token(&token, to.as_str(), payload, body.reason, body.thread_id, now),
        ),
        (None, None) => err_response(Error::BadRequest),
    }
}

/// A field that is left out where there is nothing in it.
pub open spec fn with_field(fields: Fields, key: Seq<char>, value: Option<Seq<char>>) -> Fields {
    match value {
        Some(v) => fields.push((key, ScalarView::Text(v))),
        None => fields,
    }
}

fn add_field(fields: &mut Vec<Field>, key: &str, value: &Option<String>)
    ensures
        final(fields).deep_view() == with_field(old(fields).deep_view(), key@, value.deep_view()),
{
    let ghost was = fields.deep_view();
    if let Some(v) = value {
        fields.push((key.to_owned(), Scalar::Text(v.clone())));
        assert(fields.deep_view() =~= was.push((key@, ScalarView::Text(v@))));
    }
}

/// A message as it is handed out.
pub open spec fn message_fields(m: MessageView) -> Fields {
    let base = seq![
        ("payload"@, ScalarView::Text(text::utf8_lossy(m.payload))),
        ("from"@, ScalarView::Text(m.from_name)),
    ];
    with_field(
        with_field(with_field(base, "reason"@, m.reason), "event_type"@, m.event_type),
        "thread_id"@,
        m.thread_id,
    )
}

/// The fields of a message hand out a text.
pub open spec fn hands_out(fields: Fields, t: Seq<char>) -> bool {
    fields.len() > 0 && fields[0] == ("payload"@, ScalarView::Text(t))
}

/// A message as it is handed out. A text comes out as it was sent.
pub fn message_object(m: &QueuedMessage) -> (fields: Vec<Field>)
    ensures
        fields.deep_view() == message_fields(m.deep_view()),
        forall|t: Seq<char>|
            m.payload.deep_view() == #[trigger] vstd::utf8::encode_utf8(t) ==> hands_out(
                fields.deep_view(),
                t,
            ),
{
    let shown = text::lossy_text(&m.payload.0);
    proof {
        assert forall|t: Seq<char>|
            m.payload.deep_view() == #[trigger] vstd::utf8::encode_utf8(
                t,
            ) implies text::utf8_lossy(m.payload.deep_view()) == t by {
            vstd::utf8::encode_utf8_valid_utf8(t);
            vstd::utf8::encode_utf8_decode_utf8(t);
            vstd::utf8::encode_utf8_decode_utf8(shown@);
        }
    }
    let mut fields: Vec<Field> = vec![
        ("payload".to_owned(), Scalar::Text(shown)),
        ("from".to_owned(), Scalar::Text(m.from_name.clone())),
    ];
    assert(fields.deep_view() =~= seq![
        ("payload"@, ScalarView::Text(text::utf8_lossy(m.payload.deep_view()))),
        ("from"@, ScalarView::Text(m.from_name@)),
    ]);
    add_field(&mut fields, "reason", &m.reason);
    add_field(&mut fields, "event_type", &m.event_type);
    add_field(&mut fields, "thread_id", &m.thread_id);
    fields
}

/// The reply with a message that was fetched.
pub open spec fn fetched_reply(r: Result<(Option<MessageView>, nat), ErrorView>) -> ReplyView {
    match r {
        Ok((None, _)) => ReplyView {
            status: 200,
            body: BodyView::Message { message: None, remaining: Some(0) },
        },
        Ok((Some(m), left)) => ReplyView {
            status: 200,
            body: BodyView::Message {
                message: Some(message_fields(m)),
                remaining: Some(left as u64),
            },
        },
        Err(e) => http::error_reply(e),
    }
}

/// A message was fetched whose payload is that.
pub open spec fn takes_text(r: Result<(Option<MessageView>, nat), ErrorView>, payload: Seq<u8>) -> bool {
    r matches Ok((Some(m), _)) && m.payload == payload
}

/// What becomes of the hub and the caller when a message is fetched.
pub open spec fn fetching(
    m: HubModel,
    authorization: Option<Seq<char>>,
    thread: Option<Seq<char>>,
    now: Moment,
) -> (HubModel, ReplyView) {
    match http::bearer(authorization) {
        None => (m, http::auth_failed()),
        Some(t) => {
            let (after, o) = m.dequeue(t, thread, now);
            (after, fetched_reply(o))
        },
    }
}

/// `POST /messages/queue/pop`: fetches one message. A text comes out as it was sent.
pub fn handle_dequeue(hub: &mut DeliveryHub, authorization: Option<&str>, thread: Option<&str>, now: Moment) -> (r: Reply)
    requires
        now.in_range(),
    ensures
        (final(hub)@, r.deep_view()) == fetching(
            old(hub)@,
            authorization.deep_view(),
            thread.deep_view(),
            now,
        ),
        forall|token: Seq<char>, t: Seq<char>|
            http::bearer(authorization.deep_view()) == Some(token) && #[trigger] takes_text(
                old(hub)@.dequeue(token, thread.deep_view(), now).1,
                vstd::utf8::encode_utf8(t),
            ) ==> (r.deep_view().body matches BodyView::Message { message: Some(fields), .. }
                && hands_out(fields, t)),
        old(hub)@.sound() ==> final(hub)@.sound(),
{
    let token = match bearer_token(authorization) {
        Some(t) => t,
        None => return auth_failed_reply(),
    };
    match hub.dequeue(token.as_str(), thread, now) {
        Ok((None, _)) => Reply {
            status: 200,
            body: Body::Message { message: None, remaining: Some(0) },
        },
        Ok((Some(m), left)) => Reply {
            status: 200,
            body: Body::Message { message: Some(message_object(&m)), remaining: Some(left as u64) },
        },
        Err(e) => err_response(e),
    }
}

/// The reply with the messages of a queue.
pub open spec fn drained_reply(r: Result<Seq<MessageView>, ErrorView>) -> ReplyView {
    match r {
        Ok(ms) => ReplyView {
            status: 200,
            body: BodyView::Listing {
                key: "messages"@,
                rows: ms.map_values(|m: MessageView| message_fields(m)),
            },
        },
        Err(e) => http::error_reply(e),
    }
}

/// The `i`th of the messages that were fetched has that payload.
pub open spec fn takes_text_at(r: Result<Seq<MessageView>, ErrorView>, i: int, payload: Seq<u8>) -> bool {
    r matches Ok(ms) && 0 <= i < ms.len() && ms[i].payload == payload
}

/// What becomes of the hub and the caller when all messages are fetched.
pub open spec fn draining(
    m: HubModel,
    authorization: Option<Seq<char>>,
    thread: Option<Seq<char>>,
) -> (HubModel, ReplyView) {
    match http::bearer(authorization) {
        None => (m, http::auth_failed()),
        Some(t) => {
            let (after, o) = m.drain(t, thread);
            (after, drained_reply(o))
        },
    }
}

/// `DELETE /messages/queue`: fetches all messages, of a thread where one is named. Texts come out as
/// they were sent.
pub fn handle_dequeue_all(hub: &mut DeliveryHub, authorization: Option<&str>, thread: Option<&str>) -> (r: Reply)
    ensures
        (final(hub)@, r.deep_view()) == draining(
            old(hub)@,
            authorization.deep_view(),
            thread.deep_view(),
        ),
        forall|token: Seq<char>, i: int, t: Seq<char>|
            http::bearer(authorization.deep_view()) == Some(token) && #[trigger] takes_text_at(
                old(hub)@.drain(token, thread.deep_view()).1,
                i,
                vstd::utf8::encode_utf8(t),
            ) ==> (r.deep_view().body matches BodyView::Listing { rows, .. } && i < rows.len()
                && hands_out(rows[i], t)),
        old(hub)@.sound() ==> final(hub)@.sound(),
{
    let token = match bearer_token(authorization) {
        Some(t) => t,
        None => return auth_failed_reply(),
    };
    let list = match hub.drain_queue(token.as_str(), thread) {
        Ok(list) => list,
        Err(e) => return err_response(e),
    };
    let ghost ms = list.deep_view();
    let ghost row = |m: MessageView| message_fields(m);
    let mut rows: Vec<Vec<Field>> = Vec::new();
    let mut i: usize = 0;
    assert(rows.deep_view() =~= ms.take(0).map_values(row));
    while i < list.len()
        invariant
            i <= list@.len(),
            ms == list.deep_view(),
            row == (|m: MessageView| message_fields(m)),
            rows.deep_view() == ms.take(i as int).map_values(row),
            forall|j: int, t: Seq<char>|
                0 <= j < i && (#[trigger] ms[j]).payload == #[trigger] vstd::utf8::encode_utf8(t)
                    ==> hands_out(row(ms[j]), t),
        decreases list@.len() - i,
    {
        let fields = message_object(&list[i]);
        assert(list[i as int].deep_view() == ms[i as int]);
        let ghost was = rows.deep_view();
        rows.push(fields);
        assert(rows.deep_view() =~= was.push(fields.deep_view()));
        assert(rows.deep_view() =~= ms.take(i + 1).map_values(row));
        i += 1;
    }
    assert(ms.take(i as int) =~= ms);
    Reply { status: 200, body: Body::Listing { key: "messages".to_owned(), rows } }
}

/// How many messages wait for the holder of a token.
pub open spec fn pending(m: HubModel, token: Seq<char>) -> Result<nat, ErrorView> {
    match m.reader(token) {
        Err(e) => Err(e),
        Ok(None) => Ok(0),
        Ok(Some(name)) => Ok(m.queue(name).len()),
    }
}

/// The answer to who asks how many messages wait.
pub open spec fn pending_asked(
    m: HubModel,
    authorization: Option<Seq<char>>,
) -> ReplyView {
    match http::bearer(authorization) {
        None => http::auth_failed(),
        Some(t) => match pending(m, t) {
            Ok(n) => ReplyView {
                status: 200,
                body: BodyView::Object(seq![("pending"@, ScalarView::Number(n as u64))]),
            },
            Err(e) => http::error_reply(e),
        },
    }
}

/// `GET /messages/pending`: how many messages wait.
pub fn handle_pending(hub: &DeliveryHub, authorization: Option<&str>) -> (r: Reply)
    ensures
        r.deep_view() == pending_asked(
            hub@,
            authorization.deep_view(),
        ),
{
    let token = match bearer_token(authorization) {
        Some(t) => t,
        None => return auth_failed_reply(),
    };
    match hub.pending_count(token.as_str()) {
        Ok(n) => {
            let fields: Vec<Field> = vec![("pending".to_owned(), Scalar::Number(n as u64))];
            assert(fields.deep_view() =~= seq![("pending"@, ScalarView::Number(n as u64))]);
            Reply { status: 200, body: Body::Object(fields) }
        },
        Err(e) => err_response(e),
    }
}

/// The longest that a request waits for a message: the seconds it asks for, at most 300.
pub open spec fn wait_limit(secs: u64) -> Duration {
    (if secs <= 300 {
        secs
    } else {
        300
    } * clock::NANOS_PER_SEC) as Duration
}

/// The longest that a request waits for a message.
pub fn longest_wait(secs: u64) -> (d: Duration)
    ensures
        d == wait_limit(secs),
{
    if secs <= 300 {
        clock::secs(secs)
    } else {
        clock::secs(300)
    }
}

/// The reply with the number of a message, with `missing` for its status where there is none.
pub open spec fn number_reply(r: Result<Option<u64>, ErrorView>, missing: u16) -> ReplyView {
    match r {
        Ok(Some(id)) => ReplyView { status: 200, body: BodyView::Text(text::decimal(id as nat)) },
        Ok(None) => http::bare(missing),
        Err(e) => http::error_reply(e),
    }
}

fn numbered(r: Result<Option<u64>, Error>, missing: u16) -> (reply: Reply)
    ensures
        reply.deep_view() == number_reply(
            match r {
                Ok(id) => Ok(id),
                Err(e) => Err(e.deep_view()),
            },
            missing,
        ),
{
    match r {
        Ok(Some(id)) => Reply { status: 200, body: Body::Text(text::decimal_text(id)) },
        Ok(None) => bare_reply(missing),
        Err(e) => err_response(e),
    }
}

/// The number of the latest message for the holder of a token; none before the first.
pub open spec fn latest(m: HubModel, token: Seq<char>) -> Result<Option<u64>, ErrorView> {
    match m.reader(token) {
        Err(e) => Err(e),
        Ok(_) => Ok(
            if m.tokens[token].msg_id == 0 {
                None
            } else {
                Some(m.tokens[token].msg_id)
            },
        ),
    }
}

/// The answer to who asks for the number of the latest message.
pub open spec fn latest_id_asked(
    m: HubModel,
    authorization: Option<Seq<char>>,
) -> ReplyView {
    match http::bearer(authorization) {
        None => http::auth_failed(),
        Some(t) => number_reply(latest(m, t), 404),
    }
}

/// `GET /messages/latest/id`: the number of the latest message.
pub fn handle_latest_message_id(hub: &DeliveryHub, authorization: Option<&str>) -> (r: Reply)
    ensures
        r.deep_view() == latest_id_asked(
            hub@,
            authorization.deep_view(),
        ),
{
    let token = match bearer_token(authorization) {
        Some(t) => t,
        None => return auth_failed_reply(),
    };
    numbered(hub.latest_message_id(token.as_str()), 404)
}

/// The reply that ends a wait for a message; none while it goes on.
pub open spec fn waited_reply(r: Result<WaitAction, ErrorView>) -> Option<ReplyView> {
    match r {
        Ok(WaitAction::Found(id)) => Some(
            ReplyView { status: 200, body: BodyView::Text(text::decimal(id as nat)) },
        ),
        Ok(WaitAction::Stop) => Some(http::bare(204)),
        Ok(WaitAction::Wait) => None,
        Err(e) => Some(http::error_reply(e)),
    }
}

/// The answer to who waits for a newer message, if there is one yet.
pub open spec fn newer_id_asked(
    m: HubModel,
    authorization: Option<Seq<char>>,
    since: u64,
    event: WaitEvent,
) -> Option<ReplyView> {
    match http::bearer(authorization) {
        None => Some(http::auth_failed()),
        Some(t) => waited_reply(m.waiting_for(t, since, event)),
    }
}

/// `GET /messages/latest/id` with a number to go beyond: the reply, or none while the caller is to
/// wait for the next event.
pub fn handle_new_message_id(
    hub: &DeliveryHub,
    authorization: Option<&str>,
    since: u64,
    event: WaitEvent,
) -> (r: Option<Reply>)
    ensures
        r.deep_view() == newer_id_asked(
            hub@,
            authorization.deep_view(),
            since,
            event,
        ),
{
    let token = match bearer_token(authorization) {
        Some(t) => t,
        None => return Some(auth_failed_reply()),
    };
    match hub.wait_for_new_message_id(token.as_str(), since, event) {
        Ok(WaitAction::Found(id)) => Some(
            Reply { status: 200, body: Body::Text(text::decimal_text(id)) },
        ),
        Ok(WaitAction::Stop) => Some(bare_reply(204)),
        Ok(WaitAction::Wait) => None,
        Err(e) => Some(err_response(e)),
    }
}

/// The message that came last.
pub open spec fn latest_message(m: HubModel, token: Seq<char>) -> Result<Option<MessageView>, ErrorView> {
    match m.reader(token) {
        Err(e) => Err(e),
        Ok(None) => Ok(None),
        Ok(Some(name)) => if m.queue(name).len() == 0 {
            Ok(None)
        } else {
            Ok(Some(m.queue(name).last()))
        },
    }
}

/// A message is there whose payload is that.
pub open spec fn sees_text(r: Result<Option<MessageView>, ErrorView>, payload: Seq<u8>) -> bool {
    r matches Ok(Some(m)) && m.payload == payload
}

/// The answer to who asks for the latest message.
pub open spec fn latest_asked(
    m: HubModel,
    authorization: Option<Seq<char>>,
) -> ReplyView {
    match http::bearer(authorization) {
        None => http::auth_failed(),
        Some(t) => match latest_message(m, t) {
            Ok(Some(msg)) => ReplyView {
                status: 200,
                body: BodyView::Message { message: Some(message_fields(msg)), remaining: None },
            },
            Ok(None) => http::refused(404, "NO_MESSAGES"@, "no messages in queue"@),
            Err(e) => http::error_reply(e),
        },
    }
}

/// `GET /messages/latest`: the message that came last, left in the queue. A text comes out as it
/// was sent.
pub fn handle_latest_message(hub: &DeliveryHub, authorization: Option<&str>) -> (r: Reply)
    ensures
        r.deep_view() == latest_asked(
            hub@,
            authorization.deep_view(),
        ),
        forall|token: Seq<char>, t: Seq<char>|
            http::bearer(authorization.deep_view()) == Some(token) && #[trigger] sees_text(
                latest_message(hub@, token),
                vstd::utf8::encode_utf8(t),
            ) ==> (r.deep_view().body matches BodyView::Message { message: Some(fields), .. }
                && hands_out(fields, t)),
{
    let token = match bearer_token(authorization) {
        Some(t) => t,
        None => return auth_failed_reply(),
    };
    match hub.peek_latest_message(token.as_str()) {
        Ok(Some(m)) => Reply {
            status: 200,
            body: Body::Message { message: Some(message_object(&m)), remaining: None },
        },
        Ok(None) => refuse(404, "NO_MESSAGES", "no messages in queue"),
        Err(e) => err_response(e),
    }
}

} // verus!
