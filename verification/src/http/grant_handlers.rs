//! Requests about grants.

use crate::calendar;
use crate::clock::{Instant, Moment};
use crate::delivery::grants;
use crate::delivery::grants::direction_text;
use crate::delivery::hub::DeliveryHub;
use crate::delivery::model::HubModel;
use crate::delivery::ApproveStatus;
use crate::error::{Error, ErrorView};
use crate::http;
use crate::http::handlers;
use crate::http::handlers::span_of;
use crate::http::{
    auth_failed_reply, bearer_token, done_reply, err_response, refuse, say, Body, BodyView, Field,
    Fields, Reply, ReplyView, Scalar, ScalarView,
};
use crate::rooms;
use crate::text::same;
use crate::trust::{
    AllGrantItemView, ApproveGrantRequest, GrantDirection, GrantListItemView, GrantMediation, Terms,
};
use crate::types::{copy_opt, GovernorToken};
use vstd::prelude::*;

verus! {

/// A text, where there is one.
pub open spec fn opt_scalar(s: Option<Seq<char>>) -> ScalarView {
    match s {
        Some(t) => ScalarView::Text(t),
        None => ScalarView::Null,
    }
}

fn opt_text(s: Option<String>) -> (v: Scalar)
    ensures
        v.deep_view() == opt_scalar(s.deep_view()),
{
    match s {
        Some(t) => Scalar::Text(t),
        None => Scalar::Null,
    }
}

/// A number, where there is one.
pub open spec fn opt_count(n: Option<u64>) -> ScalarView {
    match n {
        Some(n) => ScalarView::Number(n),
        None => ScalarView::Null,
    }
}

fn opt_number(n: Option<u64>) -> (v: Scalar)
    ensures
        v.deep_view() == opt_count(n),
{
    match n {
        Some(n) => Scalar::Number(n),
        None => Scalar::Null,
    }
}

/// What a request to make a grant holds.
pub struct ApproveGrantBody {
    pub identity_a: String,
    pub identity_b: String,
    pub expiry_secs: Option<u64>,
    pub direction: Option<String>,
    pub max_messages: Option<u64>,
    pub mediation: Option<String>,
    pub opens_reply_window: Option<bool>,
    pub conditions: Option<String>,
}

/// The name of a direction, symmetric where none is given.
pub open spec fn direction_word(s: Option<Seq<char>>) -> Seq<char> {
    match s {
        Some(d) => d,
        None => "symmetric"@,
    }
}

/// The direction of a name.
pub open spec fn direction(s: Seq<char>) -> Option<GrantDirection> {
    if s == "symmetric"@ {
        Some(GrantDirection::Symmetric)
    } else if s == "a_to_b"@ {
        Some(GrantDirection::AToB)
    } else if s == "b_to_a"@ {
        Some(GrantDirection::BToA)
    } else {
        None
    }
}

fn direction_of(s: &str) -> (d: Option<GrantDirection>)
    ensures
        d == direction(s@),
{
    if same(s, "symmetric") {
        Some(GrantDirection::Symmetric)
    } else if same(s, "a_to_b") {
        Some(GrantDirection::AToB)
    } else if same(s, "b_to_a") {
        Some(GrantDirection::BToA)
    } else {
        None
    }
}

/// The name of a mediation, a bypass where none is given.
pub open spec fn mediation_word(s: Option<Seq<char>>) -> Seq<char> {
    match s {
        Some(m) => m,
        None => "bypass"@,
    }
}

/// The mediation of a name.
pub open spec fn mediation(s: Seq<char>) -> Option<GrantMediation> {
    if s == "bypass"@ {
        Some(GrantMediation::Bypass)
    } else if s == "inspect"@ {
        Some(GrantMediation::Inspect)
    } else if s == "notify"@ {
        Some(GrantMediation::Notify)
    } else {
        None
    }
}

fn mediation_of(s: &str) -> (m: Option<GrantMediation>)
    ensures
        m == mediation(s@),
{
    if same(s, "bypass") {
        Some(GrantMediation::Bypass)
    } else if same(s, "inspect") {
        Some(GrantMediation::Inspect)
    } else if same(s, "notify") {
        Some(GrantMediation::Notify)
    } else {
        None
    }
}

/// The reply with a grant that was made.
pub open spec fn granted_reply(
    r: Result<Seq<char>, ErrorView>,
    direction: Seq<char>,
    max_messages: Option<u64>,
    mediation: Seq<char>,
    conditions: Option<Seq<char>>,
) -> ReplyView {
    match r {
        Ok(id) => ReplyView {
            status: 200,
            body: BodyView::Object(
                seq![
                    ("grant_id"@, ScalarView::Text(id)),
                    ("direction"@, ScalarView::Text(direction)),
                    ("max_messages"@, opt_count(max_messages)),
                    ("mediation"@, ScalarView::Text(mediation)),
                    ("conditions"@, opt_scalar(conditions)),
                ],
            ),
        },
        Err(e) => http::error_reply(e),
    }
}

/// What becomes of the hub and the caller when a governor makes a grant.
pub open spec fn granting(
    m: HubModel,
    authorization: Option<Seq<char>>,
    identity_a: Seq<char>,
    identity_b: Seq<char>,
    expiry_secs: Option<u64>,
    way: Option<Seq<char>>,
    max_messages: Option<u64>,
    opens_reply_window: Option<bool>,
    between: Option<Seq<char>>,
    conditions: Option<Seq<char>>,
    now: Moment,
) -> (HubModel, ReplyView) {
    match http::bearer(authorization) {
        None => (m, http::auth_failed()),
        Some(t) => {
            let d = direction_word(way);
            let b = mediation_word(between);
            if direction(d) is None || mediation(b) is None {
                (m, http::error_reply(ErrorView::BadRequest))
            } else {
                let terms = Terms {
                    direction: direction(d),
                    max_messages,
                    opens_reply_window,
                    mediation: mediation(b),
                    conditions,
                    name_a: None,
                    name_b: None,
                };
                let (after, o) = m.approve_grant(
                    t,
                    identity_a,
                    identity_b,
                    handlers::span(expiry_secs),
                    terms,
                    now,
                );
                (after, granted_reply(o, d, max_messages, b, conditions))
            }
        },
    }
}

/// `POST /grants/approve`: a governor makes a grant.
pub fn handle_approve_grant(
    hub: &mut DeliveryHub,
    authorization: Option<&str>,
    body: ApproveGrantBody,
    now: Moment,
) -> (r: Reply)
    requires
        old(hub)@.trust.can_number(),
        now.in_range(),
    ensures
        (final(hub)@, r.deep_view()) == granting(
            old(hub)@,
            authorization.deep_view(),
            body.identity_a@,
            body.identity_b@,
            body.expiry_secs,
            body.direction.deep_view(),
            body.max_messages,
            body.opens_reply_window,
            body.mediation.deep_view(),
            body.conditions.deep_view(),
            now,
        ),
        old(hub)@.sound() ==> final(hub)@.sound(),
{
    let gov = match bearer_token(authorization) {
        Some(t) => GovernorToken(t),
        None => return auth_failed_reply(),
    };
    let word = match &body.direction {
        Some(d) => d.clone(),
        None => "symmetric".to_owned(),
    };
    let way = match direction_of(word.as_str()) {
        Some(d) => d,
        None => return err_response(Error::BadRequest),
    };
    let care = match &body.mediation {
        Some(m) => m.clone(),
        None => "bypass".to_owned(),
    };
    let med = match mediation_of(care.as_str()) {
        Some(m) => m,
        None => return err_response(Error::BadRequest),
    };
    let req = ApproveGrantRequest {
        direction: Some(way),
        max_messages: body.max_messages,
        opens_reply_window: body.opens_reply_window,
        mediation: Some(med),
        conditions: copy_opt(&body.conditions),
        name_a: None,
        name_b: None,
    };
    match hub.approve_grant_req(
        &gov,
        body.identity_a.as_str(),
        body.identity_b.as_str(),
        span_of(body.expiry_secs),
        req,
        now,
    ) {
        Ok(id) => {
            let fields: Vec<Field> = vec![
                ("grant_id".to_owned(), Scalar::Text(id)),
                ("direction".to_owned(), Scalar::Text(word)),
                ("max_messages".to_owned(), opt_number(body.max_messages)),
                ("mediation".to_owned(), Scalar::Text(care)),
                ("conditions".to_owned(), opt_text(body.conditions)),
            ];
            assert(fields.deep_view() =~= seq![
                ("grant_id"@, ScalarView::Text(id@)),
                ("direction"@, ScalarView::Text(word@)),
                ("max_messages"@, opt_count(body.max_messages)),
                ("mediation"@, ScalarView::Text(care@)),
                ("conditions"@, opt_scalar(body.conditions.deep_view())),
            ]);
            Reply { status: 200, body: Body::Object(fields) }
        },
        Err(e) => err_response(e),
    }
}

/// Whether the holder of a token may ask `to` for a grant: it has a name, and there is a grant
/// between the two already or they share a room.
pub open spec fn may_ask(m: HubModel, token: Seq<char>, to: Seq<char>, now: Instant) -> bool {
    match m.bearer_name(token) {
        Some(name) => m.has_grant_with(token, to, now) || rooms::together(m.rooms, name, to, now),
        None => false,
    }
}

/// The reply to a request for a grant.
pub open spec fn asked_reply(r: Result<Seq<char>, ErrorView>) -> ReplyView {
    match r {
        Ok(id) => http::said(200, "request_id"@, id),
        Err(e) => http::error_reply(e),
    }
}

/// What becomes of the hub and the caller when a grant is asked for.
pub open spec fn requesting(
    m: HubModel,
    authorization: Option<Seq<char>>,
    to: Seq<char>,
    reason: Option<Seq<char>>,
    request_id: Option<Seq<char>>,
    now: Moment,
) -> (HubModel, ReplyView) {
    match http::bearer(authorization) {
        None => (m, http::auth_failed()),
        Some(t) => if m.bearer_name(t) is None {
            (
                m,
                http::refused(
                    403,
                    "FORBIDDEN"@,
                    "must announce a name before requesting a grant"@,
                ),
            )
        } else if !may_ask(m, t, to, now.instant) {
            (
                m,
                http::refused(
                    403,
                    "FORBIDDEN"@,
                    "must share a room or hold an existing grant to submit a grant request"@,
                ),
            )
        } else {
            let (after, o) = m.request_grant(
                t,
                to,
                reason,
                request_id,
                now,
            );
            (after, asked_reply(o))
        },
    }
}

/// `POST /grants/request`: the caller asks for a grant to write to another.
pub fn handle_grant_request(
    hub: &mut DeliveryHub,
    authorization: Option<&str>,
    to: &str,
    reason: Option<String>,
    request_id: Option<&str>,
    now: Moment,
) -> (r: Reply)
    requires
        old(hub)@.ready(),
        now.in_range(),
    ensures
        (final(hub)@, r.deep_view()) == requesting(
            old(hub)@,
            authorization.deep_view(),
            to@,
            reason.deep_view(),
            request_id.deep_view(),
            now,
        ),
        old(hub)@.sound() ==> final(hub)@.sound(),
{
    let token = match bearer_token(authorization) {
        Some(t) => t,
        None => return auth_failed_reply(),
    };
    let name = match hub.name_for_bearer_token(token.as_str()) {
        Some(n) => n,
        None => return refuse(
            403,
            "FORBIDDEN",
            "must announce a name before requesting a grant",
        ),
    };
    if !hub.has_any_grant_with(token.as_str(), to, now) && !hub.rooms.shares_room(
        name.as_str(),
        to,
        now.instant,
    ) {
        return refuse(
            403,
            "FORBIDDEN",
            "must share a room or hold an existing grant to submit a grant request",
        );
    }
    match hub.request_grant(token.as_str(), to, reason, request_id, now) {
        Ok(id) => say(200, "request_id", id.as_str()),
        Err(e) => err_response(e),
    }
}

/// What becomes of the hub and the caller when a pair is to be unblocked.
pub open spec fn unblocking(
    m: HubModel,
    authorization: Option<Seq<char>>,
    from_identity: Seq<char>,
    to_name: Seq<char>,
    now: Moment,
) -> (HubModel, ReplyView) {
    match http::bearer(authorization) {
        None => (m, http::auth_failed()),
        Some(t) => {
            let (after, o) = m.unblock(t, from_identity, to_name, now);
            (after, http::done(o))
        },
    }
}

/// `POST /grants/unblock`: a governor takes a denial back.
pub fn handle_grant_unblock(
    hub: &mut DeliveryHub,
    authorization: Option<&str>,
    from_identity: &str,
    to_name: &str,
    now: Moment,
) -> (r: Reply)
    ensures
        (final(hub)@, r.deep_view()) == unblocking(
            old(hub)@,
            authorization.deep_view(),
            from_identity@,
            to_name@,
            now,
        ),
        old(hub)@.sound() ==> final(hub)@.sound(),
{
    let token = match bearer_token(authorization) {
        Some(t) => t,
        None => return auth_failed_reply(),
    };
    done_reply(hub.unblock_grant(token.as_str(), from_identity, to_name, now))
}

/// What becomes of the hub and the caller when a pair is to be blocked.
pub open spec fn blocking(
    m: HubModel,
    authorization: Option<Seq<char>>,
    from_identity: Seq<char>,
    to_name: Seq<char>,
    reason: Seq<char>,
    expires_at: Option<u64>,
    now: Moment,
) -> (HubModel, ReplyView) {
    match http::bearer(authorization) {
        None => (m, http::auth_failed()),
        Some(t) => {
            let (after, o) = m.block(
                t,
                from_identity,
                to_name,
                reason,
                expires_at,
                now,
            );
            (after, http::done(o))
        },
    }
}

/// `POST /grants/block`: a governor denies a pair.
pub fn handle_grant_block(
    hub: &mut DeliveryHub,
    authorization: Option<&str>,
    from_identity: &str,
    to_name: &str,
    reason: &str,
    expires_at: Option<u64>,
    now: Moment,
) -> (r: Reply)
    ensures
        (final(hub)@, r.deep_view()) == blocking(
            old(hub)@,
            authorization.deep_view(),
            from_identity@,
            to_name@,
            reason@,
            expires_at,
            now,
        ),
        old(hub)@.sound() ==> final(hub)@.sound(),
{
    let gov = match bearer_token(authorization) {
        Some(t) => GovernorToken(t),
        None => return auth_failed_reply(),
    };
    done_reply(hub.block_direct(&gov, from_identity, to_name, reason, expires_at, now))
}

/// The reply to an approval.
pub open spec fn approved_reply(r: Result<ApproveStatus, ErrorView>) -> ReplyView {
    match r {
        Ok(ApproveStatus::PendingRecipient) => http::said(200, "status"@, "pending_recipient"@),
        Ok(ApproveStatus::Established) => http::said(200, "status"@, "established"@),
        Err(e) => http::error_reply(e),
    }
}

/// What acting on a request for a grant does and is answered.
pub open spec fn acted(
    m: HubModel,
    token: Seq<char>,
    id: Seq<char>,
    action: Seq<char>,
    reason: Option<Seq<char>>,
    expiry_secs: Option<u64>,
    expires_at: Option<u64>,
    now: Moment,
) -> (HubModel, ReplyView) {
    if action == "approve"@ {
        let (after, o) = m.approve_request(token, id, handlers::span(expiry_secs), now);
        (after, approved_reply(o))
    } else if action == "deny"@ {
        let why = match reason {
            Some(s) => s,
            None => seq![],
        };
        let (after, o) = m.deny_request(token, id, why, expires_at, now);
        (after, http::done(o))
    } else if action == "hold"@ {
        match reason {
            Some(why) => {
                let (after, o) = m.hold_request(token, id, why, now);
                (after, http::done(o))
            },
            None => (
                m,
                http::refused(400, "BAD_REQUEST"@, "reason is required for hold action"@),
            ),
        }
    } else {
        (m, http::refused(400, "BAD_REQUEST"@, "action must be approve, deny, or hold"@))
    }
}

/// What becomes of the hub and the caller when a request is decided on.
pub open spec fn acting(
    m: HubModel,
    authorization: Option<Seq<char>>,
    id: Seq<char>,
    action: Seq<char>,
    reason: Option<Seq<char>>,
    expiry_secs: Option<u64>,
    expires_at: Option<u64>,
    now: Moment,
) -> (HubModel, ReplyView) {
    match http::bearer(authorization) {
        None => (m, http::auth_failed()),
        Some(t) => acted(
            m,
            t,
            id,
            action,
            reason,
            expiry_secs,
            expires_at,
            now,
        ),
    }
}

/// `PATCH /grants/requests/{id}`: approves, denies or holds a request.
pub fn handle_grant_request_action(
    hub: &mut DeliveryHub,
    authorization: Option<&str>,
    id: &str,
    action: &str,
    reason: Option<&str>,
    expiry_secs: Option<u64>,
    expires_at: Option<u64>,
    now: Moment,
) -> (r: Reply)
    requires
        old(hub)@.ready(),
        now.in_range(),
    ensures
        (final(hub)@, r.deep_view()) == acting(
            old(hub)@,
            authorization.deep_view(),
            id@,
            action@,
            reason.deep_view(),
            expiry_secs,
            expires_at,
            now,
        ),
        old(hub)@.sound() ==> final(hub)@.sound(),
{
    let token = match bearer_token(authorization) {
        Some(t) => t,
        None => return auth_failed_reply(),
    };
    if same(action, "approve") {
        match hub.approve_grant_request(token.as_str(), id, span_of(expiry_secs), now) {
            Ok(ApproveStatus::PendingRecipient) => say(200, "status", "pending_recipient"),
            Ok(ApproveStatus::Established) => say(200, "status", "established"),
            Err(e) => err_response(e),
        }
    } else if same(action, "deny") {
        let why = match reason {
            Some(s) => s.to_owned(),
            None => {
                let none = String::new();
                assert(none@ =~= seq![]);
                none
            },
        };
        done_reply(hub.deny_grant_request(token.as_str(), id, why.as_str(), expires_at, now))
    } else if same(action, "hold") {
        match reason {
            Some(why) => done_reply(hub.hold_grant_request(token.as_str(), id, why, now)),
            None => refuse(400, "BAD_REQUEST", "reason is required for hold action"),
        }
    } else {
        refuse(400, "BAD_REQUEST", "action must be approve, deny, or hold")
    }
}

/// What becomes of the hub and the caller when a grant is taken back.
pub open spec fn revoking(
    m: HubModel,
    authorization: Option<Seq<char>>,
    id: Seq<char>,
    now: Moment,
) -> (HubModel, ReplyView) {
    match http::bearer(authorization) {
        None => (m, http::auth_failed()),
        Some(t) => {
            let (after, o) = m.revoke_grant(id, t, now);
            (after, http::done(o))
        },
    }
}

/// `DELETE /grants/{id}`: a governor revokes a grant.
pub fn handle_revoke_grant(hub: &mut DeliveryHub, authorization: Option<&str>, id: &str, now: Moment) -> (r: Reply)
    ensures
        (final(hub)@, r.deep_view()) == revoking(
            old(hub)@,
            authorization.deep_view(),
            id@,
            now,
        ),
        old(hub)@.sound() ==> final(hub)@.sound(),
{
    let gov = match bearer_token(authorization) {
        Some(t) => GovernorToken(t),
        None => return auth_failed_reply(),
    };
    done_reply(hub.revoke_grant(id, &gov, now))
}

/// The end of a grant as text, where it ends.
pub open spec fn end_text(expires: Option<Instant>, now: Moment) -> ScalarView {
    match expires {
        Some(end) => ScalarView::Text(calendar::iso8601(calendar::instant_secs(end, now))),
        None => ScalarView::Null,
    }
}

fn end_of(expires: Option<Instant>, now: Moment) -> (v: Scalar)
    requires
        now.in_range(),
    ensures
        v.deep_view() == end_text(expires, now),
{
    match expires {
        Some(end) => Scalar::Text(calendar::instant_to_iso8601(end, now)),
        None => Scalar::Null,
    }
}

/// The row of a grant on its party's list.
pub open spec fn grant_row(g: GrantListItemView, now: Moment) -> Fields {
    seq![
        ("id"@, ScalarView::Text(g.id)),
        ("counterparty"@, ScalarView::Text(g.counterparty)),
        ("direction"@, ScalarView::Text(grants::direction_name(g.direction))),
        ("expires"@, end_text(g.expires, now)),
    ]
}

/// The reply with a party's grants.
pub open spec fn grants_reply(r: Result<Seq<GrantListItemView>, ErrorView>, now: Moment) -> ReplyView {
    match r {
        Ok(gs) => ReplyView {
            status: 200,
            body: BodyView::Listing {
                key: "grants"@,
                rows: gs.map_values(|g: GrantListItemView| grant_row(g, now)),
            },
        },
        Err(e) => http::error_reply(e),
    }
}

/// The answer to who asks for its own grants.
pub open spec fn own_grants_asked(
    m: HubModel,
    authorization: Option<Seq<char>>,
    now: Moment,
) -> ReplyView {
    match http::bearer(authorization) {
        None => http::auth_failed(),
        Some(t) => grants_reply(
            match m.name_of(t) {
                Some(name) => Ok(m.trust.listed_for(name, now.instant)),
                None => Err(ErrorView::AuthFailed),
            },
            now,
        ),
    }
}

/// `GET /grants`: the caller's grants.
pub fn handle_list_grants(hub: &DeliveryHub, authorization: Option<&str>, now: Moment) -> (r: Reply)
    requires
        now.in_range(),
    ensures
        r.deep_view() == own_grants_asked(
            hub@,
            authorization.deep_view(),
            now,
        ),
{
    let token = match bearer_token(authorization) {
        Some(t) => t,
        None => return auth_failed_reply(),
    };
    let list = match hub.list_grants_for_token(token.as_str(), now) {
        Ok(list) => list,
        Err(e) => return err_response(e),
    };
    let ghost gs = list.deep_view();
    let ghost row = |g: GrantListItemView| grant_row(g, now);
    let mut rows: Vec<Vec<Field>> = Vec::new();
    let mut i: usize = 0;
    assert(rows.deep_view() =~= gs.take(0).map_values(row));
    while i < list.len()
        invariant
            now.in_range(),
            i <= list@.len(),
            gs == list.deep_view(),
            row == (|g: GrantListItemView| grant_row(g, now)),
            rows.deep_view() == gs.take(i as int).map_values(row),
        decreases list@.len() - i,
    {
        let g = &list[i];
        assert(g.deep_view() == gs[i as int]);
        let fields: Vec<Field> = vec![
            ("id".to_owned(), Scalar::Text(g.id.clone())),
            ("counterparty".to_owned(), Scalar::Text(g.counterparty.clone())),
            ("direction".to_owned(), Scalar::Text(direction_text(g.direction).to_owned())),
            ("expires".to_owned(), end_of(g.expires, now)),
        ];
        assert(fields.deep_view() =~= row(gs[i as int]));
        let ghost was = rows.deep_view();
        rows.push(fields);
        assert(rows.deep_view() =~= was.push(fields.deep_view()));
        assert(rows.deep_view() =~= gs.take(i + 1).map_values(row));
        i += 1;
    }
    assert(gs.take(i as int) =~= gs);
    Reply { status: 200, body: Body::Listing { key: "grants".to_owned(), rows } }
}

/// The row of a grant on the governor's list.
pub open spec fn all_grants_row(g: AllGrantItemView, now: Moment) -> Fields {
    seq![
        ("id"@, ScalarView::Text(g.id)),
        ("identity_a"@, ScalarView::Text(g.identity_a)),
        ("identity_b"@, ScalarView::Text(g.identity_b)),
        ("name_a"@, opt_scalar(g.name_a)),
        ("name_b"@, opt_scalar(g.name_b)),
        ("direction"@, ScalarView::Text(grants::direction_name(g.direction))),
        ("expires"@, end_text(g.expires, now)),
    ]
}

/// The reply with all grants.
pub open spec fn all_grants_reply(r: Result<Seq<AllGrantItemView>, ErrorView>, now: Moment) -> ReplyView {
    match r {
        Ok(gs) => ReplyView {
            status: 200,
            body: BodyView::Listing {
                key: "grants"@,
                rows: gs.map_values(|g: AllGrantItemView| all_grants_row(g, now)),
            },
        },
        Err(e) => http::error_reply(e),
    }
}

/// The answer to a governor who asks for the grants.
pub open spec fn all_grants_asked(
    m: HubModel,
    authorization: Option<Seq<char>>,
    participant: Option<Seq<char>>,
    now: Moment,
) -> ReplyView {
    match http::bearer(authorization) {
        None => http::auth_failed(),
        Some(t) => all_grants_reply(
            match m.trust.verify(t, now.instant) {
                Ok(_) => Ok(m.trust.listed(participant, now.instant)),
                Err(e) => Err(e),
            },
            now,
        ),
    }
}

/// `GET /governors/grants`: all grants, or those of one participant, for a governor.
pub fn handle_governor_list_grants(
    hub: &DeliveryHub,
    authorization: Option<&str>,
    participant: Option<&str>,
    now: Moment,
) -> (r: Reply)
    requires
        now.in_range(),
    ensures
        r.deep_view() == all_grants_asked(
            hub@,
            authorization.deep_view(),
            participant.deep_view(),
            now,
        ),
{
    let gov = match bearer_token(authorization) {
        Some(t) => GovernorToken(t),
        None => return auth_failed_reply(),
    };
    let list = match hub.list_all_grants_gov(&gov, participant, now) {
        Ok(list) => list,
        Err(e) => return err_response(e),
    };
    let ghost gs = list.deep_view();
    let ghost row = |g: AllGrantItemView| all_grants_row(g, now);
    let mut rows: Vec<Vec<Field>> = Vec::new();
    let mut i: usize = 0;
    assert(rows.deep_view() =~= gs.take(0).map_values(row));
    while i < list.len()
        invariant
            now.in_range(),
            i <= list@.len(),
            gs == list.deep_view(),
            row == (|g: AllGrantItemView| all_grants_row(g, now)),
            rows.deep_view() == gs.take(i as int).map_values(row),
        decreases list@.len() - i,
    {
        let g = &list[i];
        assert(g.deep_view() == gs[i as int]);
        let fields: Vec<Field> = vec![
            ("id".to_owned(), Scalar::Text(g.id.clone())),
            ("identity_a".to_owned(), Scalar::Text(g.identity_a.clone())),
            ("identity_b".to_owned(), Scalar::Text(g.identity_b.clone())),
            ("name_a".to_owned(), opt_text(copy_opt(&g.name_a))),
            ("name_b".to_owned(), opt_text(copy_opt(&g.name_b))),
            ("direction".to_owned(), Scalar::Text(direction_text(g.direction).to_owned())),
            ("expires".to_owned(), end_of(g.expires, now)),
        ];
        assert(fields.deep_view() =~= row(gs[i as int]));
        let ghost was = rows.deep_view();
        rows.push(fields);
        assert(rows.deep_view() =~= was.push(fields.deep_view()));
        assert(rows.deep_view() =~= gs.take(i + 1).map_values(row));
        i += 1;
    }
    assert(gs.take(i as int) =~= gs);
    Reply { status: 200, body: Body::Listing { key: "grants".to_owned(), rows } }
}

} // verus!
