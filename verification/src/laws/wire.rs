//! Laws of the routes: each request acts for the token it comes with, on what it names, and its
//! answer tells what came of it.

use crate::clock::Moment;
use crate::delivery::model::HubModel;
use crate::delivery::{AckView, DecisionView, WaitEvent};
use crate::error::ErrorView;
use crate::http::grant_handlers;
use crate::http::handlers;
use crate::http::room_handlers;
use crate::http::{BodyView, ScalarView};
use crate::laws::elections::in_office;
use crate::laws::sessions;
use crate::laws::web;
use crate::rooms;
use crate::text;
use crate::trust::{GrantDirection, GrantMediation, Terms};
use vstd::prelude::*;

verus! {

/// The header that a token comes in.
pub open spec fn with_token(token: Seq<char>) -> Option<Seq<char>> {
    Some("Bearer "@ + token)
}

// ── Messages ─────────────────────────────────────────────────────────────────

/// A message that comes in over the wire is sent by the bearer to the one it names, by name first
/// and by token otherwise, with its text and its thread; without either it is no message.
pub proof fn law_message_over_wire(
    m: HubModel,
    token: Seq<char>,
    to: Seq<char>,
    other: Option<Seq<char>>,
    payload: Seq<char>,
    thread: Option<Seq<char>>,
    now: Moment,
)
    ensures
        ({
            let bytes = vstd::utf8::encode_utf8(payload);
            let (after, reply) = handlers::sending(
                m,
                with_token(token),
                Some(to),
                other,
                payload,
                thread,
                now,
            );
            let (direct, r) = m.send(token, to, bytes, thread, now);
            &&& after == direct
            &&& r matches Ok(AckView::Accepted) ==> reply.status == 202
            &&& r matches Ok(AckView::PendingMediation { mediation_id }) ==> web::says(
                reply,
                "mediation_id"@,
                mediation_id,
            )
            &&& r matches Err(e) ==> reply.status == e.status() && web::says(
                reply,
                "error"@,
                e.code(),
            )
        }),
        handlers::sending(m, with_token(token), None, Some(to), payload, thread, now).0
            == m.send_to_token(token, to, vstd::utf8::encode_utf8(payload), thread, now).0,
        handlers::sending(m, with_token(token), None, None, payload, thread, now).0 == m,
        handlers::sending(m, with_token(token), None, None, payload, thread, now).1.status == 400,
        handlers::sending(m, None, Some(to), other, payload, thread, now).0 == m,
        handlers::sending(m, None, Some(to), other, payload, thread, now).1.status == 401,
{
    web::law_bearer(token, token);
    web::law_sending_answered(
        m.send(token, to, vstd::utf8::encode_utf8(payload), thread, now).1,
    );
}

/// A message is fetched for the bearer, from the thread it names, and comes with the answer
/// together with how many are left; all messages likewise.
pub proof fn law_fetching_over_wire(
    m: HubModel,
    token: Seq<char>,
    thread: Option<Seq<char>>,
    now: Moment,
    i: int,
)
    ensures
        ({
            let (after, reply) = handlers::fetching(m, with_token(token), thread, now);
            let (direct, r) = m.dequeue(token, thread, now);
            &&& after == direct
            &&& r matches Ok((Some(msg), left)) ==> reply.status == 200 && reply.body
                == BodyView::Message {
                message: Some(handlers::message_fields(msg)),
                remaining: Some(left as u64),
            }
            &&& r matches Ok((None, _)) ==> reply.status == 200 && reply.body == BodyView::Message {
                message: None,
                remaining: Some(0u64),
            }
            &&& r matches Err(e) ==> reply.status == e.status()
        }),
        ({
            let (after, reply) = handlers::draining(m, with_token(token), thread);
            let (direct, r) = m.drain(token, thread);
            &&& after == direct
            &&& r matches Ok(ms) ==> web::lists(reply, "messages"@, ms.len()) && (0 <= i < ms.len()
                ==> reply.body->rows[i] == handlers::message_fields(ms[i]))
            &&& r matches Err(e) ==> reply.status == e.status()
        }),
        handlers::fetching(m, None, thread, now).0 == m,
        handlers::fetching(m, None, thread, now).1.status == 401,
        handlers::draining(m, None, thread).0 == m,
        handlers::draining(m, None, thread).1.status == 401,
{
    web::law_bearer(token, token);
}

/// What waits for the bearer is told in numbers and in words: how many, the number of the latest,
/// and the latest itself; where there is none, that there is none.
pub proof fn law_waiting_over_wire(m: HubModel, token: Seq<char>, since: u64, event: WaitEvent)
    ensures
        handlers::pending(m, token) matches Ok(n) ==> handlers::pending_asked(
            m,
            with_token(token),
        ).status == 200 && web::shows(
            handlers::pending_asked(m, with_token(token)),
            "pending"@,
            ScalarView::Number(n as u64),
        ),
        handlers::latest(m, token) matches Ok(Some(id)) ==> handlers::latest_id_asked(
            m,
            with_token(token),
        ).status == 200 && handlers::latest_id_asked(m, with_token(token)).body == BodyView::Text(
            text::decimal(id as nat),
        ),
        handlers::latest(m, token) matches Ok(None) ==> handlers::latest_id_asked(
            m,
            with_token(token),
        ).status == 404,
        handlers::latest_message(m, token) matches Ok(Some(msg)) ==> handlers::latest_asked(
            m,
            with_token(token),
        ).status == 200 && handlers::latest_asked(m, with_token(token)).body == (BodyView::Message {
            message: Some(handlers::message_fields(msg)),
            remaining: None,
        }),
        handlers::latest_message(m, token) matches Ok(None) ==> handlers::latest_asked(
            m,
            with_token(token),
        ).status == 404,
        sessions::in_order(m, token) && m.tokens[token].msg_id > since && !(event is Over) ==> {
            let reply = handlers::newer_id_asked(m, with_token(token), since, event);
            reply is Some && reply->0.status == 200 && reply->0.body == BodyView::Text(
                text::decimal(m.tokens[token].msg_id as nat),
            )
        },
        sessions::in_order(m, token) && m.tokens[token].msg_id <= since && !(event is Over)
            ==> handlers::newer_id_asked(m, with_token(token), since, event) is None,
        handlers::newer_id_asked(m, with_token(token), since, WaitEvent::Over) matches Some(reply)
            && reply.status == 204,
{
    web::law_bearer(token, token);
    if handlers::pending(m, token) is Ok {
        let fields = handlers::pending_asked(m, with_token(token)).body->Object_0;
        assert(fields.contains(fields[0]));
    }
}

// ── Participants ─────────────────────────────────────────────────────────────

/// Announcing, giving a stream up, hiding, and asking who is there is done for the bearer.
pub proof fn law_participant_over_wire(m: HubModel, token: Seq<char>, name: Seq<char>, scope: Seq<char>, now: Moment)
    ensures
        handlers::announcing(m, with_token(token), Some(name), now).0 == m.announce(
            token,
            name,
            now,
        ).0,
        handlers::announcing(m, with_token(token), Some(name), now).1.status == 204 ==> m.announce(
            token,
            name,
            now,
        ).1 is Ok,
        handlers::announcing(m, with_token(token), None, now).0 == m,
        handlers::announcing(m, with_token(token), None, now).1.status == 400,
        handlers::cancelling(m, with_token(token), now).0 == m.cancel_listen(token, now).0,
        handlers::cancelling(m, with_token(token), now).1.status == if m.cancel_listen(
            token,
            now,
        ).1 is Ok {
            204u16
        } else {
            404u16
        },
        handlers::hiding(m, with_token(token), "hidden"@).0 == m.set_hidden(token, true).0,
        scope != "hidden"@ ==> handlers::hiding(m, with_token(token), scope).0 == m.set_hidden(
            token,
            false,
        ).0,
        m.presence_for(token, name, now) == Ok::<bool, ErrorView>(true) ==> web::says(
            handlers::presence_asked(m, with_token(token), name, now),
            "status"@,
            "online"@,
        ),
        m.presence_for(token, name, now) == Ok::<bool, ErrorView>(false) ==> web::says(
            handlers::presence_asked(m, with_token(token), name, now),
            "status"@,
            "offline"@,
        ),
        handlers::announcing(m, None, Some(name), now).0 == m,
        handlers::cancelling(m, None, now).0 == m,
        handlers::hiding(m, None, scope).0 == m,
        handlers::presence_asked(m, None, name, now).status == 401,
{
    web::law_bearer(token, token);
    web::law_participants_shown(seq![], 0, true);
    web::law_participants_shown(seq![], 0, false);
    let r = m.announce(token, name, now).1;
    if r is Err {
        web::law_refusal_told(r->Err_0);
    }
}

/// Only a governor in office is shown the participants and takes one away.
pub proof fn law_governor_over_wire(m: HubModel, token: Seq<char>, name: Seq<char>, now: Moment)
    ensures
        in_office(m.trust, token, now.instant) ==> {
            &&& handlers::participants_asked(m, with_token(token), now)
                == handlers::participants_reply(Ok(m.participants(now)))
            &&& handlers::deregistering(m, with_token(token), name, now).0 == m.revoke_by_name(
                name,
                token,
                now,
            ).0
            &&& handlers::deregistering(m, with_token(token), name, now).1.status == 204
        },
        !in_office(m.trust, token, now.instant) ==> {
            &&& handlers::participants_asked(m, with_token(token), now).status == 401
            &&& handlers::deregistering(m, with_token(token), name, now).0 == m
            &&& handlers::deregistering(m, with_token(token), name, now).1.status == 401
        },
        handlers::participants_asked(m, None, now).status == 401,
        handlers::deregistering(m, None, name, now).0 == m,
{
    web::law_bearer(token, token);
    crate::laws::elections::law_token_accepted_in_office(m.trust, token, now.instant);
}

// ── Governance ───────────────────────────────────────────────────────────────

/// Claims, votes, rulings, renewals and offers are those of the bearer: on the claim, the message
/// and the offer that are named, with the time that was asked for in seconds.
pub proof fn law_governance_over_wire(
    m: HubModel,
    token: Seq<char>,
    id: Seq<char>,
    payload: Seq<char>,
    secs: u64,
    now: Moment,
)
    ensures
        handlers::claiming(m, with_token(token), Some(secs), now).0 == m.claim(
            token,
            Some((secs * 1_000_000_000) as crate::clock::Duration),
            now,
        ).0,
        handlers::claiming(m, with_token(token), None, now).0 == m.claim(token, None, now).0,
        handlers::voting(m, with_token(token), id, "approve"@, now).0 == m.respond(
            token,
            id,
            true,
            now,
        ).0,
        handlers::voting(m, with_token(token), id, "reject"@, now).0 == m.respond(
            token,
            id,
            false,
            now,
        ).0,
        handlers::mediating(m, with_token(token), id, "approve"@, None, now).0 == m.resolve(
            token,
            id,
            DecisionView::Approve,
            now,
        ).0,
        handlers::mediating(m, with_token(token), id, "block"@, None, now).0 == m.resolve(
            token,
            id,
            DecisionView::Block,
            now,
        ).0,
        handlers::mediating(m, with_token(token), id, "modify"@, Some(payload), now).0 == m.resolve(
            token,
            id,
            DecisionView::Modify(vstd::utf8::encode_utf8(payload)),
            now,
        ).0,
        handlers::mediating(m, with_token(token), id, "modify"@, None, now).0 == m,
        handlers::refreshing(m, with_token(token), now).0 == m.refresh(token, now).0,
        m.refresh(token, now).1 matches Ok(t) ==> web::says(
            handlers::refreshing(m, with_token(token), now).1,
            "token"@,
            t,
        ),
        !in_office(m.trust, token, now.instant) ==> handlers::accepting(
            m,
            with_token(token),
            Some(id),
            now,
        ).0 == m.accept_transfer(token, id).0,
        !in_office(m.trust, token, now.instant) && m.accept_transfer(token, id).1 is Ok ==> web::says(
            handlers::accepting(m, with_token(token), Some(id), now).1,
            "token"@,
            m.accept_transfer(token, id).1->Ok_0,
        ),
        in_office(m.trust, token, now.instant) ==> handlers::accepting(
            m,
            with_token(token),
            Some(id),
            now,
        ).0 == m,
        handlers::accepting(m, with_token(token), None, now).0 == m,
        handlers::claiming(m, None, None, now).0 == m,
        handlers::voting(m, None, id, "approve"@, now).0 == m,
        handlers::mediating(m, None, id, "approve"@, None, now).0 == m,
        handlers::refreshing(m, None, now).0 == m,
        handlers::accepting(m, None, Some(id), now).0 == m,
{
    web::law_bearer(token, token);
    web::law_ruling_read(id, None);
    web::law_ruling_read(id, Some(payload));
    web::law_times_read(secs);
    crate::laws::elections::law_token_accepted_in_office(m.trust, token, now.instant);
    if m.refresh(token, now).1 is Ok {
        let fields = handlers::refreshing(m, with_token(token), now).1.body->Object_0;
        assert(fields.contains(fields[0]));
    }
    if !in_office(m.trust, token, now.instant) && m.accept_transfer(token, id).1 is Ok {
        let fields = handlers::accepting(m, with_token(token), Some(id), now).1.body->Object_0;
        assert(fields.contains(fields[0]));
    }
}

// ── Grants ───────────────────────────────────────────────────────────────────

/// A grant is made between the two that are named, on the terms that are named, for the time that
/// was asked for in seconds; words that mean nothing make no grant.
pub proof fn law_grant_over_wire(
    m: HubModel,
    token: Seq<char>,
    a: Seq<char>,
    b: Seq<char>,
    secs: Option<u64>,
    most: Option<u64>,
    opens: Option<bool>,
    conditions: Option<Seq<char>>,
    word: Seq<char>,
    now: Moment,
)
    ensures
        ({
            let terms = Terms {
                direction: Some(GrantDirection::AToB),
                max_messages: most,
                opens_reply_window: opens,
                mediation: Some(GrantMediation::Inspect),
                conditions,
                name_a: None,
                name_b: None,
            };
            let expiry = match secs {
                Some(n) => Some((n * 1_000_000_000) as crate::clock::Duration),
                None => None,
            };
            let (after, reply) = grant_handlers::granting(
                m,
                with_token(token),
                a,
                b,
                secs,
                Some("a_to_b"@),
                most,
                opens,
                Some("inspect"@),
                conditions,
                now,
            );
            let (direct, r) = m.approve_grant(token, a, b, expiry, terms, now);
            &&& after == direct
            &&& r matches Ok(id) ==> reply.status == 200 && web::says(reply, "grant_id"@, id)
            &&& r matches Err(e) ==> reply.status == e.status()
        }),
        word != "symmetric"@ && word != "a_to_b"@ && word != "b_to_a"@ ==> {
            let (after, reply) = grant_handlers::granting(
                m,
                with_token(token),
                a,
                b,
                secs,
                Some(word),
                most,
                opens,
                None,
                conditions,
                now,
            );
            after == m && reply.status == 400
        },
        word != "bypass"@ && word != "inspect"@ && word != "notify"@ ==> {
            let (after, reply) = grant_handlers::granting(
                m,
                with_token(token),
                a,
                b,
                secs,
                None,
                most,
                opens,
                Some(word),
                conditions,
                now,
            );
            after == m && reply.status == 400
        },
{
    web::law_bearer(token, token);
    web::law_terms_read(word);
    web::law_terms_read("inspect"@);
    let expiry = match secs {
        Some(n) => Some((n * 1_000_000_000) as crate::clock::Duration),
        None => None,
    };
    assert(handlers::span(secs) == expiry);
    let terms = Terms {
        direction: Some(GrantDirection::AToB),
        max_messages: most,
        opens_reply_window: opens,
        mediation: Some(GrantMediation::Inspect),
        conditions,
        name_a: None,
        name_b: None,
    };
    let r = m.approve_grant(token, a, b, expiry, terms, now).1;
    if r is Ok {
        web::law_grant_answered(
            r->Ok_0,
            "a_to_b"@,
            most,
            "inspect"@,
            conditions,
            ErrorView::Internal,
        );
    }
}

/// Blocking, unblocking, taking a grant back and asking for one is done by the bearer, for the
/// pair and the grant that are named.
pub proof fn law_grants_over_wire(
    m: HubModel,
    token: Seq<char>,
    from: Seq<char>,
    to: Seq<char>,
    reason: Seq<char>,
    expires_at: Option<u64>,
    id: Seq<char>,
    why: Option<Seq<char>>,
    now: Moment,
)
    ensures
        grant_handlers::blocking(m, with_token(token), from, to, reason, expires_at, now).0 == m.block(
            token,
            from,
            to,
            reason,
            expires_at,
            now,
        ).0,
        grant_handlers::unblocking(m, with_token(token), from, to, now).0 == m.unblock(
            token,
            from,
            to,
            now,
        ).0,
        grant_handlers::revoking(m, with_token(token), id, now).0 == m.revoke_grant(
            id,
            token,
            now,
        ).0,
        in_office(m.trust, token, now.instant) ==> grant_handlers::blocking(
            m,
            with_token(token),
            from,
            to,
            reason,
            expires_at,
            now,
        ).1.status == 204,
        sessions::in_order(m, token) && m.tokens[token].name is Some && grant_handlers::may_ask(
            m,
            token,
            to,
            now.instant,
        ) ==> grant_handlers::requesting(m, with_token(token), to, why, Some(id), now).0
            == m.request_grant(token, to, why, Some(id), now).0 && grant_handlers::requesting(
            m,
            with_token(token),
            to,
            why,
            None,
            now,
        ).0 == m.request_grant(token, to, why, None, now).0,
        sessions::in_order(m, token) && (m.tokens[token].name is None || !grant_handlers::may_ask(
            m,
            token,
            to,
            now.instant,
        )) ==> grant_handlers::requesting(m, with_token(token), to, why, Some(id), now).0 == m
            && grant_handlers::requesting(
            m,
            with_token(token),
            to,
            why,
            Some(id),
            now,
        ).1.status == 403,
        grant_handlers::acting(m, with_token(token), id, "approve"@, why, expires_at, None, now)
            == grant_handlers::acted(m, token, id, "approve"@, why, expires_at, None, now),
        grant_handlers::blocking(m, None, from, to, reason, expires_at, now).0 == m,
        grant_handlers::unblocking(m, None, from, to, now).0 == m,
        grant_handlers::revoking(m, None, id, now).0 == m,
        grant_handlers::requesting(m, None, to, why, None, now).0 == m,
        grant_handlers::acting(m, None, id, reason, why, expires_at, None, now).0 == m,
{
    web::law_bearer(token, token);
    crate::laws::elections::law_token_accepted_in_office(m.trust, token, now.instant);
}

/// The bearer is shown its own grants, and a governor in office is shown those it asks for.
pub proof fn law_lists_over_wire(m: HubModel, token: Seq<char>, who: Option<Seq<char>>, now: Moment)
    ensures
        m.token_to_name.contains_key(token) ==> grant_handlers::own_grants_asked(
            m,
            with_token(token),
            now,
        ) == grant_handlers::grants_reply(
            Ok(m.trust.listed_for(m.token_to_name[token], now.instant)),
            now,
        ),
        !m.token_to_name.contains_key(token) ==> grant_handlers::own_grants_asked(
            m,
            with_token(token),
            now,
        ).status == 401,
        in_office(m.trust, token, now.instant) ==> grant_handlers::all_grants_asked(
            m,
            with_token(token),
            who,
            now,
        ) == grant_handlers::all_grants_reply(Ok(m.trust.listed(who, now.instant)), now),
        !in_office(m.trust, token, now.instant) ==> grant_handlers::all_grants_asked(
            m,
            with_token(token),
            who,
            now,
        ).status == 401,
{
    web::law_bearer(token, token);
    crate::laws::elections::law_token_accepted_in_office(m.trust, token, now.instant);
}

// ── Rooms ────────────────────────────────────────────────────────────────────

/// Rooms are joined, looked at and left by the bearer under its name, if it has one; whoever
/// leaves is out, and nobody else is. One word is no room.
pub proof fn law_rooms_over_wire(
    m: HubModel,
    token: Seq<char>,
    name: Seq<char>,
    room: Seq<char>,
    ttl: Option<u64>,
    now: Moment,
    other: Seq<char>,
)
    requires
        sessions::in_order(m, token),
        m.tokens[token].name == Some(name),
        other != name,
    ensures
        room != "create"@ ==> {
            &&& room_handlers::joining(m, with_token(token), room, ttl, now)
                == room_handlers::joined(m, room, name, ttl, now)
            &&& room_handlers::viewing(m, with_token(token), room, now) == room_handlers::viewed(
                m,
                room,
                name,
                now,
            )
            &&& room_handlers::leaving(m, with_token(token), room, now).1.status == 200
            &&& m.rooms.contains_key(room) ==> {
                let after = room_handlers::leaving(m, with_token(token), room, now).0;
                &&& after.rooms.contains_key(room)
                &&& !after.rooms[room].contains_key(name)
                &&& after.rooms[room].contains_key(other) <==> m.rooms[room].contains_key(other)
                    && now.instant < m.rooms[room][other]
                &&& after.rooms[room].contains_key(other) ==> after.rooms[room][other]
                    == m.rooms[room][other]
                &&& after == (HubModel { rooms: after.rooms, ..m })
            }
        },
        room_handlers::joining(m, with_token(token), "create"@, ttl, now).0 == m,
        room_handlers::joining(m, with_token(token), "create"@, ttl, now).1.status == 400,
        room_handlers::joining(m, None, room, ttl, now).0 == m,
        room_handlers::viewing(m, None, room, now).0 == m,
        room_handlers::leaving(m, None, room, now).0 == m,
{
    crate::laws::files::law_who_calls(m, token);
    if m.rooms.contains_key(room) {
        assert(rooms::pruned(m.rooms[room], now.instant).contains_key(other) == (
        m.rooms[room].contains_key(other) && now.instant < m.rooms[room][other]));
    }
}

} // verus!
