//! Laws of sending: which grant a message passes under, and what becomes of it.

use crate::clock::{Duration, Instant, Moment};
use crate::delivery::model::HubModel;
use crate::delivery::{AckView, EffectView, HoldView, StoreWriteView, WaitAction, WaitEvent};
use crate::error::ErrorView;
use crate::events;
use crate::laws;
use crate::laws::answers::{grant_back, may_try};
use crate::laws::consent::word;
use crate::laws::elections::in_office;
use crate::text;
use crate::trust;
use crate::trust::{Ask, GrantDirection, GrantMediation, GrantRefView, GrantView, Terms, TrustModel};
use crate::types::{MessageView, MAX_EXPIRY};
use vstd::prelude::*;

verus! {

// ── Which grant ──────────────────────────────────────────────────────────────

/// Whom a grant lets write to whom: with a direction, only that way; without one, both ways. It
/// goes by names where both sides have names on both accounts, and by identities otherwise.
pub proof fn law_whom_a_grant_covers(g: GrantView, ask: Ask)
    ensures
        ({
            let by_name = g.name_a is Some && g.name_b is Some && ask.from_name is Some
                && ask.to_name is Some;
            let (a, b) = if by_name {
                (g.name_a->0, g.name_b->0)
            } else {
                (g.identity_a, g.identity_b)
            };
            let (from, to) = if by_name {
                (ask.from_name->0, ask.to_name->0)
            } else {
                (ask.from, ask.to)
            };
            g.covers(ask) <==> (from == a && to == b && !(g.direction is BToA)) || (from == b && to == a
                && !(g.direction is AToB))
        }),
{
}

/// A message passes under a grant exactly if some grant covers the pair, has not reached its end,
/// and has a message left; otherwise the refusal says which of these fails.
pub proof fn law_grant_lets_pass(t: TrustModel, ask: Ask, now: Instant)
    ensures
        t.check(ask, now) is Ok <==> exists|i: int|
            0 <= i < t.grants.len() && (#[trigger] t.grants[i]).covers(ask) && (
            t.grants[i].expires matches Some(end) ==> now < end) && (
            t.grants[i].max_messages matches Some(max) ==> t.grants[i].messages_used < max),
        t.check(ask, now) == Err::<GrantRefView, ErrorView>(ErrorView::GrantExhausted)
            ==> exists|i: int|
            0 <= i < t.grants.len() && (#[trigger] t.grants[i]).covers(ask) && (
            t.grants[i].expires matches Some(end) ==> now < end),
        t.check(ask, now) == Err::<GrantRefView, ErrorView>(ErrorView::GrantExpired) ==> (exists|i: int|
            0 <= i < t.grants.len() && (#[trigger] t.grants[i]).covers(ask)) && (forall|i: int|
            0 <= i < t.grants.len() && (#[trigger] t.grants[i]).covers(ask) ==> (
            t.grants[i].expires matches Some(end) && end <= now)),
        t.check(ask, now) == Err::<GrantRefView, ErrorView>(ErrorView::NoGrant) <==> forall|i: int|
            0 <= i < t.grants.len() ==> !(#[trigger] t.grants[i]).covers(ask),
        t.check(ask, now) matches Err(e) ==> e is NoGrant || e is GrantExpired || e is GrantExhausted,
{
    laws::trust::law_check_decides(t, ask, now);
    if t.check(ask, now) is Ok {
        let i = choose|i: int| 0 <= i < t.grants.len() && (#[trigger] t.grants[i]).usable(ask, now);
        assert(t.grants[i].covers(ask));
    }
    if exists|i: int|
        0 <= i < t.grants.len() && (#[trigger] t.grants[i]).covers(ask) && (
        t.grants[i].expires matches Some(end) ==> now < end) && (
        t.grants[i].max_messages matches Some(max) ==> t.grants[i].messages_used < max) {
        let i = choose|i: int|
            0 <= i < t.grants.len() && (#[trigger] t.grants[i]).covers(ask) && (
            t.grants[i].expires matches Some(end) ==> now < end) && (
            t.grants[i].max_messages matches Some(max) ==> t.grants[i].messages_used < max);
        assert(t.grants[i].usable(ask, now));
    }
}

/// The number of a grant is the one in its identifier.
pub proof fn law_grant_number(g: GrantView, n: u64)
    requires
        g.id == "grant-"@ + text::decimal(n as nat),
    ensures
        g.number() == n,
{
    text::lemma_parse_of_decimal(n as nat, u64::MAX as nat);
    assert(g.id.skip("grant-"@.len() as int) =~= text::decimal(n as nat));
    assert(g.id.take("grant-"@.len() as int) =~= "grant-"@);
}

/// Of several grants that let a message pass, one with a direction comes before one without, and
/// among the like the one with the lowest number, that is the oldest; the message goes under its
/// mediation, its conditions and its window.
pub proof fn law_which_grant(t: TrustModel, ask: Ask, now: Instant, r: GrantRefView, j: int)
    requires
        t.check(ask, now) == Ok::<GrantRefView, ErrorView>(r),
        0 <= j < t.grants.len(),
        t.grants[j].covers(ask),
        t.grants[j].expires matches Some(end) ==> now < end,
        t.grants[j].max_messages matches Some(max) ==> t.grants[j].messages_used < max,
    ensures
        exists|i: int|
            0 <= i < t.grants.len() && {
                let g = #[trigger] t.grants[i];
                &&& g.covers(ask)
                &&& g.expires matches Some(end) ==> now < end
                &&& g.max_messages matches Some(max) ==> g.messages_used < max
                &&& r.id == g.id
                &&& r.mediation == g.mediation
                &&& r.conditions == g.conditions
                &&& r.opens_reply_window == g.opens_reply_window
                &&& r.governor_id == g.governor_id
                &&& if g.direction is Symmetric == t.grants[j].direction is Symmetric {
                    g.number() <= t.grants[j].number()
                } else {
                    t.grants[j].direction is Symmetric
                }
            },
{
    assert(t.grants[j].usable(ask, now));
    laws::trust::law_check_decides(t, ask, now);
    let i = choose|i: int| t.best_at(ask, now, i);
    assert(t.best_at(ask, now, i));
    assert(!t.grants[j].better(t.grants[i]));
    let g = t.grants[i];
    assert(g.covers(ask));
}

// ── Making a grant ───────────────────────────────────────────────────────────

/// A governor in office makes a grant: one more, with a new identifier, between the two, on the
/// terms given, where what is not given is a grant both ways, without the governor's say, that
/// opens windows for replies; it ends after the time given and never if none is. The names of the
/// parties are filled in where they are known. It is written down as it is made. Nobody else makes
/// one.
pub proof fn law_grant_made(
    m: HubModel,
    governor: Seq<char>,
    a: Seq<char>,
    b: Seq<char>,
    expiry: Option<Duration>,
    terms: Terms,
    now: Moment,
)
    requires
        now.in_range(),
    ensures
        ({
            let (after, r) = m.approve_grant(governor, a, b, expiry, terms, now);
            let g = after.trust.grants.last();
            &&& r is Ok <==> in_office(m.trust, governor, now.instant)
            &&& r is Err ==> after == m
            &&& r matches Ok(id) ==> {
                &&& after.trust.grants == m.trust.grants.push(g)
                &&& g.id == id
                &&& g.identity_a == a
                &&& g.identity_b == b
                &&& g.name_a == (if terms.name_a is Some {
                    terms.name_a
                } else if m.token_to_name.contains_key(a) {
                    Some(m.token_to_name[a])
                } else {
                    None
                })
                &&& g.name_b == (if terms.name_b is Some {
                    terms.name_b
                } else if m.token_to_name.contains_key(b) {
                    Some(m.token_to_name[b])
                } else {
                    None
                })
                &&& g.direction == (match terms.direction {
                    Some(d) => d,
                    None => GrantDirection::Symmetric,
                })
                &&& g.mediation == (match terms.mediation {
                    Some(x) => x,
                    None => GrantMediation::Bypass,
                })
                &&& g.opens_reply_window == (match terms.opens_reply_window {
                    Some(w) => w,
                    None => true,
                })
                &&& g.max_messages == terms.max_messages
                &&& g.messages_used == 0
                &&& g.conditions == terms.conditions
                &&& g.governor_id == governor
                &&& (match g.expires {
                    Some(end) => Some(end as int),
                    None => None,
                }) == (match expiry {
                    Some(d) => Some(
                        now.instant + if d < MAX_EXPIRY {
                            d as int
                        } else {
                            MAX_EXPIRY as int
                        },
                    ),
                    None => None,
                })
                &&& m.persistent ==> after.outbox == m.outbox.push(
                    EffectView::Store(
                        StoreWriteView::UpsertGrant {
                            id,
                            identity_a: a,
                            identity_b: b,
                            direction: match g.direction {
                                GrantDirection::Symmetric => "symmetric"@,
                                GrantDirection::AToB => "a_to_b"@,
                                GrantDirection::BToA => "b_to_a"@,
                            },
                            mediation: match g.mediation {
                                GrantMediation::Bypass => "bypass"@,
                                GrantMediation::Inspect => "inspect"@,
                                GrantMediation::Notify => "notify"@,
                            },
                            max_messages: terms.max_messages,
                            conditions: terms.conditions,
                            opens_reply_window: g.opens_reply_window,
                            expires_at: match expiry {
                                Some(d) => Some(
                                    (now.system + if d < MAX_EXPIRY {
                                        d as int
                                    } else {
                                        MAX_EXPIRY as int
                                    }) as i128,
                                ),
                                None => None,
                            },
                            governor_id: governor,
                            name_a: g.name_a,
                            name_b: g.name_b,
                        },
                    ),
                )
            }
        }),
{
    if in_office(m.trust, governor, now.instant) {
        let after = m.approve_grant(governor, a, b, expiry, terms, now).0;
        assert(after.trust.grants == m.trust.grants.push(after.trust.grants.last()));
    }
}

// ── What becomes of a message ────────────────────────────────────────────────

/// A message under a grant that does not ask for the governor's say is accepted: it is the last in
/// the recipient's queue, as it was sent and with its thread; it uses one message of the grant's
/// budget, and the use is written down. Under a grant that tells the governors they get the text of
/// the message, and otherwise nothing of it.
pub proof fn law_message_delivered(
    m: HubModel,
    token: Seq<char>,
    from: Seq<char>,
    to: Seq<char>,
    payload: Seq<u8>,
    thread: Option<Seq<char>>,
    now: Moment,
    grant: GrantRefView,
    other: Seq<char>,
)
    requires
        may_try(m, token, from, to),
        grant_back(m, token, to, now.instant) == Ok::<GrantRefView, ErrorView>(grant),
        !(grant.mediation is Inspect),
    ensures
        ({
            let (after, r) = m.send(token, to, payload, thread, now);
            let told = EffectView::Governors {
                text: events::delivery_notice(
                    from,
                    to,
                    text::utf8_lossy(payload),
                    grant.id,
                    grant.conditions,
                ),
            };
            let used = EffectView::Store(
                StoreWriteView::IncrementGrantUsage { grant_id: grant.id },
            );
            &&& r == Ok::<AckView, ErrorView>(AckView::Accepted)
            &&& after.queue(to) == m.queue(to).push(
                MessageView {
                    payload,
                    from_name: from,
                    reason: None,
                    event_type: None,
                    thread_id: thread,
                },
            )
            &&& other != to ==> after.queue(other) == m.queue(other)
            &&& after.trust == m.trust.consume(grant.id)
            &&& grant.mediation is Notify ==> after.outbox.contains(told)
            &&& m.persistent ==> after.outbox.contains(used)
            &&& after.holds == m.prune(now.instant).holds
        }),
{
    let after = m.send(token, to, payload, thread, now).0;
    let told = EffectView::Governors {
        text: events::delivery_notice(
            from,
            to,
            text::utf8_lossy(payload),
            grant.id,
            grant.conditions,
        ),
    };
    let used = EffectView::Store(StoreWriteView::IncrementGrantUsage { grant_id: grant.id });
    let n = m.outbox.len() as int;
    if grant.mediation is Notify {
        assert(after.outbox[n] == told);
        if m.persistent {
            assert(after.outbox[n + 1] == used);
        }
    } else if m.persistent {
        assert(after.outbox[n] == used);
    }
}

/// A message under a grant that asks for the governor's say is held while the governor of the grant
/// is in office, and the governors get its identifier, its text and its grant; otherwise it is
/// refused and nobody gets it. No queue changes and nothing is used either way.
pub proof fn law_message_put_before_governor(
    m: HubModel,
    token: Seq<char>,
    from: Seq<char>,
    to: Seq<char>,
    payload: Seq<u8>,
    thread: Option<Seq<char>>,
    now: Moment,
    grant: GrantRefView,
)
    requires
        may_try(m, token, from, to),
        grant_back(m, token, to, now.instant) == Ok::<GrantRefView, ErrorView>(grant),
        grant.mediation is Inspect,
        now.instant + m.hold_ttl <= u128::MAX,
    ensures
        ({
            let (after, r) = m.send(token, to, payload, thread, now);
            let standing = m.holds.filter(|h: HoldView| !h.resolved && h.expires > now.instant);
            &&& after.queues == m.queues
            &&& after.trust == m.trust
            &&& if in_office(m.trust, grant.governor_id, now.instant) {
                &&& r matches Ok(AckView::PendingMediation { mediation_id }) && {
                    &&& after.holds == standing.push(
                        HoldView {
                            mediation_id,
                            from_name: from,
                            to_name: to,
                            from_identity: token,
                            to_identity: m.agents[to],
                            payload,
                            reason: seq![],
                            expires: (now.instant + m.hold_ttl) as Instant,
                            resolved: false,
                            grant_id: Some(grant.id),
                        },
                    )
                    &&& after.outbox == m.outbox.push(
                        EffectView::Governors {
                            text: events::mediation(
                                mediation_id,
                                from,
                                to,
                                text::utf8_lossy(payload),
                                grant.id,
                                grant.conditions,
                            ),
                        },
                    )
                }
            } else {
                &&& r == Err::<AckView, ErrorView>(ErrorView::MediationUnavailable)
                &&& after.holds == standing
                &&& after.outbox == m.outbox
            }
        }),
{
}

/// Where neither a grant nor a window lets it, the sender learns how to ask for a grant, once: it
/// gets a hint unless it has a request for that recipient open. Nobody else gets anything.
pub proof fn law_hint_on_no_grant(
    m: HubModel,
    token: Seq<char>,
    from: Seq<char>,
    to: Seq<char>,
    payload: Seq<u8>,
    thread: Option<Seq<char>>,
    now: Moment,
    other: Seq<char>,
)
    requires
        may_try(m, token, from, to),
        m.send(token, to, payload, thread, now).1 == Err::<AckView, ErrorView>(ErrorView::NoGrant),
    ensures
        ({
            let after = m.send(token, to, payload, thread, now).0;
            let asked = exists|id: Seq<char>| #[trigger]
                m.requests.contains_key(id) && m.requests[id].from_name == from
                    && m.requests[id].to_name == to;
            &&& after.queue(from) == if asked {
                m.queue(from)
            } else {
                m.queue(from).push(word(events::no_grant_hint(to), "no_grant"@))
            }
            &&& other != from ==> after.queue(other) == m.queue(other)
            &&& after.trust == m.trust
        }),
{
}

/// Writing to a token is writing to the name it bears; a token that is unknown, revoked or nameless
/// cannot be written to.
pub proof fn law_writing_to_a_token(
    m: HubModel,
    token: Seq<char>,
    to_token: Seq<char>,
    payload: Seq<u8>,
    thread: Option<Seq<char>>,
    now: Moment,
)
    ensures
        m.send_to_token(token, to_token, payload, thread, now) == if m.tokens.contains_key(to_token)
            && !m.tokens[to_token].revoked && m.tokens[to_token].name is Some {
            m.send(token, m.tokens[to_token].name->0, payload, thread, now)
        } else {
            (m, Err::<AckView, ErrorView>(ErrorView::RecipientUnknown))
        },
{
}

/// Only a token that is known, not revoked and has announced a name sends, and only to a name that
/// can be written to.
pub proof fn law_who_sends(
    m: HubModel,
    token: Seq<char>,
    to: Seq<char>,
    payload: Seq<u8>,
    thread: Option<Seq<char>>,
    now: Moment,
)
    requires
        m.send(token, to, payload, thread, now).1 is Ok,
    ensures
        m.tokens.contains_key(token),
        !m.tokens[token].revoked,
        m.token_to_name.contains_key(token),
        m.agents.contains_key(to),
{
}

// ── The recipient's stream ───────────────────────────────────────────────────

/// A message that is delivered rings the recipient's stream, if it has one that was not told since
/// the last fetch: the stream gets the number of messages that wait, and is then quiet until the
/// next fetch. A stream that was told already hears nothing.
pub proof fn law_recipient_rung(
    m: HubModel,
    to: Seq<char>,
    msg: MessageView,
    token: Seq<char>,
    stream: u64,
)
    requires
        m.name_to_token.contains_key(to),
        m.name_to_token[to] == token,
        m.tokens.contains_key(token),
        m.connections.contains_key(token),
        m.connections[token] > 0,
        m.tokens[token].stream matches Some(s) && s.id == stream,
    ensures
        ({
            let after = m.deliver(to, msg).ring(to);
            &&& after.tokens[token].notify_suppressed
            &&& after.outbox == if m.tokens[token].notify_suppressed {
                m.outbox
            } else {
                m.outbox.push(
                    EffectView::Push { stream, text: events::notify(m.queue(to).len() + 1) },
                )
            }
        }),
{
}

/// Messages are counted for the token whose name they are sent to, each once, and waiting for a new
/// one ends exactly when the count is above what was seen.
pub proof fn law_waiting_for_messages(
    m: HubModel,
    to: Seq<char>,
    msg: MessageView,
    token: Seq<char>,
    since: u64,
)
    requires
        m.name_to_token.contains_key(to),
        m.name_to_token[to] == token,
        m.tokens.contains_key(token),
        !m.tokens[token].revoked,
        m.tokens[token].msg_id < u64::MAX,
    ensures
        m.deliver(to, msg).tokens[token].msg_id == m.tokens[token].msg_id + 1,
        m.waiting_for(token, since, WaitEvent::Changed) == Ok::<WaitAction, ErrorView>(
            if m.tokens[token].msg_id > since {
                WaitAction::Found(m.tokens[token].msg_id)
            } else {
                WaitAction::Wait
            },
        ),
        m.waiting_for(token, since, WaitEvent::Begun) == m.waiting_for(
            token,
            since,
            WaitEvent::Changed,
        ),
        m.waiting_for(token, since, WaitEvent::Over) == Ok::<WaitAction, ErrorView>(WaitAction::Stop),
{
}

} // verus!
