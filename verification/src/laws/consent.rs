//! Laws of how a request becomes a grant: what is asked, who decides, what each side is told, and
//! how long the grant lasts.

use crate::clock::{Duration, Instant, Moment};
use crate::delivery::grants;
use crate::delivery::model::HubModel;
use crate::delivery::{
    ApproveStatus, BlockView, ConnectionStage, EffectView, RequestView, StoreWriteView,
};
use crate::error::ErrorView;
use crate::events;
use crate::http::grant_handlers;
use crate::http::{BodyView, ReplyView, ScalarView};
use crate::laws;
use crate::laws::elections::in_office;
use crate::trust::{Ask, GrantRefView, GrantView, TrustModel};
use crate::types::{MessageView, MAX_EXPIRY};
use vstd::prelude::*;

verus! {

/// A message of the hub itself.
pub open spec fn word(text: Seq<char>, event_type: Seq<char>) -> MessageView {
    MessageView {
        payload: vstd::utf8::encode_utf8(text),
        from_name: "system"@,
        reason: None,
        event_type: Some(event_type),
        thread_id: None,
    }
}

/// Somebody governs.
pub open spec fn somebody_governs(t: TrustModel) -> bool {
    exists|g: Seq<char>| #[trigger] t.governors.contains_key(g) && !t.governors[g].revoked
}

/// The reply that says one thing.
pub open spec fn status_reply(status: u16, what: Seq<char>) -> ReplyView {
    ReplyView {
        status,
        body: BodyView::Object(seq![("status"@, ScalarView::Text(what))]),
    }
}

/// The time from now to the end of a grant, of what the governor and the recipient said: the
/// sooner where both said something, none where nobody did; and never more than a token can last.
pub open spec fn lasts(governor: Option<Duration>, recipient: Option<int>) -> Option<int> {
    let longest = MAX_EXPIRY as int;
    match (governor, recipient) {
        (None, None) => None,
        (Some(g), None) => Some(
            if g < longest {
                g as int
            } else {
                longest
            },
        ),
        (None, Some(r)) => Some(
            if r < longest {
                r
            } else {
                longest
            },
        ),
        (Some(g), Some(r)) => Some(
            if g < r && g < longest {
                g as int
            } else if r < longest {
                r
            } else {
                longest
            },
        ),
    }
}

/// A number of seconds on the hub's clock.
pub open spec fn seconds(n: Option<u64>) -> Option<int> {
    match n {
        Some(n) => Some(n * 1_000_000_000),
        None => None,
    }
}

/// `token` may decide on a request: it is that of the recipient, or of a governor in office.
pub open spec fn may_decide(m: HubModel, token: Seq<char>, req: RequestView, now: Moment) -> bool {
    in_office(m.trust, token, now.instant) || (m.tokens.contains_key(token) && token
        == req.to_identity)
}

// ── Asking ───────────────────────────────────────────────────────────────────

/// A new request holds who asks whom and why, for half an hour. Where somebody governs the
/// governors are told and nobody else; where nobody does the recipient is told, in its queue, and
/// decides alone. No grant is made yet.
pub proof fn law_request_made(
    m: HubModel,
    token: Seq<char>,
    to: Seq<char>,
    reason: Option<Seq<char>>,
    now: Moment,
    id: Seq<char>,
    other: Seq<char>,
)
    requires
        m.request_grant(token, to, reason, None, now).1 == Ok::<Seq<char>, ErrorView>(id),
        m.token_to_name.contains_key(token),
        !m.requests.contains_key(id),
        now.in_range(),
    ensures
        ({
            let after = m.request_grant(token, to, reason, None, now).0;
            let from = m.token_to_name[token];
            let req = after.requests[id];
            &&& after.requests.contains_key(id)
            &&& req.from_name == from
            &&& req.to_name == to
            &&& req.from_identity == token
            &&& req.to_identity == m.agents[to]
            &&& req.reason == reason
            &&& req.governor_expiry is None
            &&& req.expires_at == now.instant + 1_800_000_000_000
            &&& after.trust == m.trust
            &&& if somebody_governs(m.trust) {
                &&& req.stage == ConnectionStage::PendingGovernor
                &&& after.outbox == m.outbox.push(
                    EffectView::Governors { text: events::governor_request(id, from, to, reason) },
                )
                &&& after.queues == m.queues
            } else {
                &&& req.stage == ConnectionStage::PendingRecipient
                &&& after.queue(to) == m.queue(to).push(
                    word(events::consent_request(id, from, reason), "grant_request"@),
                )
                &&& other != to ==> after.queue(other) == m.queue(other)
            }
        }),
{
    assert(somebody_governs(m.trust) == m.trust.governed());
}

/// Asking again under the identifier of one's own request gives it a new reason and half an hour
/// more, and starts it anew; it stays between the same two.
pub proof fn law_request_renewed(
    m: HubModel,
    token: Seq<char>,
    to: Seq<char>,
    reason: Option<Seq<char>>,
    id: Seq<char>,
    now: Moment,
)
    requires
        m.request_grant(token, to, reason, Some(id), now).1 is Ok,
        m.token_to_name.contains_key(token),
        now.in_range(),
    ensures
        ({
            let after = m.request_grant(token, to, reason, Some(id), now).0;
            let (old, new) = (m.requests[id], after.requests[id]);
            &&& m.request_grant(token, to, reason, Some(id), now).1 == Ok::<Seq<char>, ErrorView>(id)
            &&& m.requests.contains_key(id)
            &&& old.from_name == m.token_to_name[token]
            &&& after.requests.contains_key(id)
            &&& new.from_name == old.from_name
            &&& new.to_name == old.to_name
            &&& new.from_identity == old.from_identity
            &&& new.to_identity == old.to_identity
            &&& new.reason == reason
            &&& new.expires_at == now.instant + 1_800_000_000_000
            &&& new.stage == if somebody_governs(m.trust) {
                ConnectionStage::PendingGovernor
            } else {
                ConnectionStage::PendingRecipient
            }
            &&& after.trust == m.trust
        }),
{
    assert(somebody_governs(m.trust) == m.trust.governed());
}

// ── The governor's sign-off ──────────────────────────────────────────────────

/// The governor's approval hands a request on to its recipient: it notes who approved and for how
/// many seconds, gives it half an hour more, and puts it before the recipient; no grant is made
/// yet. Nobody but a governor in office gives it.
pub proof fn law_governor_signs_off(
    m: HubModel,
    token: Seq<char>,
    id: Seq<char>,
    reason: Option<Seq<char>>,
    expiry_secs: Option<u64>,
    expires_at: Option<u64>,
    now: Moment,
)
    requires
        m.requests.contains_key(id),
        now.instant < m.requests[id].expires_at,
        m.requests[id].stage == ConnectionStage::PendingGovernor,
        now.in_range(),
    ensures
        ({
            let (after, r) = grant_handlers::acted(
                m,
                token,
                id,
                "approve"@,
                reason,
                expiry_secs,
                expires_at,
                now,
            );
            let (old, new) = (m.requests[id], after.requests[id]);
            if in_office(m.trust, token, now.instant) {
                &&& r == status_reply(200, "pending_recipient"@)
                &&& after.requests.contains_key(id)
                &&& new.stage == ConnectionStage::PendingRecipient
                &&& new.approving_governor == Some(token)
                &&& (match new.governor_expiry {
                    Some(d) => Some(d as int),
                    None => None,
                }) == seconds(expiry_secs)
                &&& new.expires_at == now.instant + 1_800_000_000_000
                &&& new.from_name == old.from_name
                &&& new.to_name == old.to_name
                &&& new.from_identity == old.from_identity
                &&& new.to_identity == old.to_identity
                &&& after.trust == m.trust
                &&& after.queue(old.to_name) == m.queue(old.to_name).push(
                    word(
                        events::recipient_request(id, old.from_name, old.reason),
                        "grant_request"@,
                    ),
                )
            } else {
                &&& r.status == 403
                &&& after == m
            }
        }),
{
}

// ── The recipient's consent ──────────────────────────────────────────────────

proof fn lemma_consent(m: HubModel, id: Seq<char>, req: RequestView, expiry: Option<Duration>, now: Moment)
    requires
        m.consent(id, req, expiry, now).1 is Ok,
        now.in_range(),
    ensures
        ({
            let after = m.consent(id, req, expiry, now).0;
            let g = after.trust.grants.last();
            &&& after.trust.grants == m.trust.grants.push(g)
            &&& g.identity_a == req.from_identity
            &&& g.identity_b == req.to_identity
            &&& g.name_a == Some(req.from_name)
            &&& g.name_b == Some(req.to_name)
            &&& g.direction is Symmetric
            &&& g.mediation is Bypass
            &&& g.max_messages is None
            &&& g.opens_reply_window
            &&& Some(g.governor_id) == req.approving_governor
            &&& (match g.expires {
                Some(end) => Some(end as int),
                None => None,
            }) == (match lasts(
                req.governor_expiry,
                match expiry {
                    Some(d) => Some(d as int),
                    None => None,
                },
            ) {
                Some(d) => Some(now.instant + d),
                None => None,
            })
            &&& !after.requests.contains_key(id)
        }),
{
    let authority = req.approving_governor->0;
    let terms = crate::trust::Terms {
        name_a: Some(req.from_name),
        name_b: Some(req.to_name),
        ..crate::trust::Terms::open_terms()
    };
    let until = grants::sooner(req.governor_expiry, expiry);
    let granted = m.trust.granted(
        authority,
        req.from_identity,
        req.to_identity,
        until,
        terms,
        now.instant,
    );
    laws::grants::lemma_concluding_keeps_trust(
        HubModel { trust: granted, ..m },
        id,
        req,
        authority,
        m.trust.next("grant"@),
        crate::delivery::governance::wall_end(now, until),
    );
    assert(granted.grants == m.trust.grants.push(granted.grants.last()));
}

/// Consent makes the grant: one more, between the two of the request, both ways, without the
/// governor's say and without a budget; it ends after the seconds that the recipient named or,
/// where the governor named a sooner end, then. The request is gone.
pub proof fn law_consent_makes_grant(
    m: HubModel,
    token: Seq<char>,
    id: Seq<char>,
    reason: Option<Seq<char>>,
    expiry_secs: Option<u64>,
    expires_at: Option<u64>,
    now: Moment,
)
    requires
        m.requests.contains_key(id),
        now.in_range(),
        grant_handlers::acted(m, token, id, "approve"@, reason, expiry_secs, expires_at, now).1
            == status_reply(200, "established"@),
    ensures
        ({
            let after = grant_handlers::acted(
                m,
                token,
                id,
                "approve"@,
                reason,
                expiry_secs,
                expires_at,
                now,
            ).0;
            let req = m.requests[id];
            let g = after.trust.grants.last();
            &&& now.instant < req.expires_at
            &&& req.stage == ConnectionStage::PendingRecipient
            &&& may_decide(m, token, req, now)
            &&& after.trust.grants == m.trust.grants.push(g)
            &&& g.identity_a == req.from_identity
            &&& g.identity_b == req.to_identity
            &&& g.name_a == Some(req.from_name)
            &&& g.name_b == Some(req.to_name)
            &&& g.direction is Symmetric
            &&& g.mediation is Bypass
            &&& g.max_messages is None
            &&& g.opens_reply_window
            &&& Some(g.governor_id) == req.approving_governor
            &&& (match g.expires {
                Some(end) => Some(end as int),
                None => None,
            }) == (match lasts(req.governor_expiry, seconds(expiry_secs)) {
                Some(d) => Some(now.instant + d),
                None => None,
            })
            &&& !after.requests.contains_key(id)
        }),
{
    reveal_strlit("established");
    reveal_strlit("pending_recipient");
    reveal_strlit("status");
    reveal_strlit("error");
    let req = m.requests[id];
    let expiry = crate::http::handlers::span(expiry_secs);
    let r = grant_handlers::acted(m, token, id, "approve"@, reason, expiry_secs, expires_at, now).1;
    assert(r.body->Object_0[0] == ("status"@, ScalarView::Text("established"@)));
    assert("established"@.len() == 11 && "pending_recipient"@.len() == 17);
    assert("status"@.len() == 6 && "error"@.len() == 5);
    let o = m.approve_request(token, id, expiry, now).1;
    assert(o == Ok::<ApproveStatus, ErrorView>(ApproveStatus::Established)) by {
        if o is Err {
            assert(r.body->Object_0[0] == ("error"@, ScalarView::Text((o->Err_0).code())));
        } else if o->Ok_0 is PendingRecipient {
            assert(r.body->Object_0[0] == ("status"@, ScalarView::Text("pending_recipient"@)));
        }
    }
    lemma_consent(m, id, req, expiry, now);
}

/// The grant that consent makes lets the two write to each other until its end and not from then
/// on: at its end a message between them is refused as expired, unless another grant covers them.
pub proof fn law_consent_ends(
    m: HubModel,
    token: Seq<char>,
    id: Seq<char>,
    reason: Option<Seq<char>>,
    expiry_secs: u64,
    expires_at: Option<u64>,
    now: Moment,
    from: Seq<char>,
    to: Seq<char>,
    later: Instant,
)
    requires
        m.requests.contains_key(id),
        now.in_range(),
        grant_handlers::acted(
            m,
            token,
            id,
            "approve"@,
            reason,
            Some(expiry_secs),
            expires_at,
            now,
        ).1 == status_reply(200, "established"@),
        forall|i: int|
            0 <= i < m.trust.grants.len() ==> !(#[trigger] m.trust.grants[i]).covers(
                Ask {
                    from,
                    to,
                    from_name: Some(m.requests[id].from_name),
                    to_name: Some(m.requests[id].to_name),
                },
            ),
    ensures
        ({
            let after = grant_handlers::acted(
                m,
                token,
                id,
                "approve"@,
                reason,
                Some(expiry_secs),
                expires_at,
                now,
            ).0;
            let ask = Ask {
                from,
                to,
                from_name: Some(m.requests[id].from_name),
                to_name: Some(m.requests[id].to_name),
            };
            &&& now.instant + expiry_secs * 1_000_000_000 <= later ==> after.trust.check(ask, later)
                == Err::<GrantRefView, ErrorView>(ErrorView::GrantExpired)
            &&& m.requests[id].governor_expiry is None && expiry_secs * 1_000_000_000 <= MAX_EXPIRY
                && later < now.instant + expiry_secs * 1_000_000_000 ==> after.trust.check(
                ask,
                later,
            ) is Ok
        }),
{
    law_consent_makes_grant(m, token, id, reason, Some(expiry_secs), expires_at, now);
    let after = grant_handlers::acted(
        m,
        token,
        id,
        "approve"@,
        reason,
        Some(expiry_secs),
        expires_at,
        now,
    ).0;
    let ask = Ask {
        from,
        to,
        from_name: Some(m.requests[id].from_name),
        to_name: Some(m.requests[id].to_name),
    };
    let g = after.trust.grants.last();
    let k = after.trust.grants.len() - 1;
    assert(after.trust.grants[k] == g);
    assert(g.covers(ask));
    assert forall|i: int| 0 <= i < k implies !(#[trigger] after.trust.grants[i]).covers(ask) by {
        assert(after.trust.grants[i] == m.trust.grants[i]);
    }
    laws::trust::law_check_decides(after.trust, ask, later);
    if now.instant + expiry_secs * 1_000_000_000 <= later {
        assert(g.expired(later));
        assert forall|i: int| !after.trust.best_at(ask, later, i) by {}
    } else if m.requests[id].governor_expiry is None && expiry_secs * 1_000_000_000 <= MAX_EXPIRY {
        assert(g.usable(ask, later));
    }
}

/// Consent is told to the one who asked, written down with its end, and keeps both tokens: the
/// requester's queue gets the notice that the grant is established.
pub proof fn law_consent_told(
    m: HubModel,
    token: Seq<char>,
    id: Seq<char>,
    expiry: Option<Duration>,
    now: Moment,
)
    requires
        m.approve_request(token, id, expiry, now).1 == Ok::<ApproveStatus, ErrorView>(
            ApproveStatus::Established,
        ),
        now.in_range(),
    ensures
        ({
            let after = m.approve_request(token, id, expiry, now).0;
            let req = m.requests[id];
            &&& after.queue(req.from_name) == m.queue(req.from_name).push(
                word(events::grant_established(id, req.to_name), "grant_established"@),
            )
            &&& m.tokens.contains_key(req.from_identity)
                ==> after.tokens[req.from_identity].ever_granted
            &&& m.tokens.contains_key(req.to_identity) ==> after.tokens[req.to_identity].ever_granted
        }),
{
    let req = m.requests[id];
    lemma_told(m, id, req, expiry, now);
}

proof fn lemma_told(m: HubModel, id: Seq<char>, req: RequestView, expiry: Option<Duration>, now: Moment)
    requires
        m.consent(id, req, expiry, now).1 is Ok,
    ensures
        ({
            let after = m.consent(id, req, expiry, now).0;
            &&& after.queue(req.from_name) == m.queue(req.from_name).push(
                word(events::grant_established(id, req.to_name), "grant_established"@),
            )
            &&& m.tokens.contains_key(req.from_identity)
                ==> after.tokens[req.from_identity].ever_granted
            &&& m.tokens.contains_key(req.to_identity) ==> after.tokens[req.to_identity].ever_granted
        }),
{
}

// ── Refusing and asking back ─────────────────────────────────────────────────

/// A denial through the route: the request is gone, the pair is blocked for the reason given and
/// until the end given, the one who asked is told the reason, and no grant is made. Nobody but the
/// recipient and a governor in office denies.
pub proof fn law_request_denied(
    m: HubModel,
    token: Seq<char>,
    id: Seq<char>,
    reason: Option<Seq<char>>,
    expiry_secs: Option<u64>,
    expires_at: Option<u64>,
    now: Moment,
)
    requires
        m.requests.contains_key(id),
        now.instant < m.requests[id].expires_at,
    ensures
        ({
            let (after, r) = grant_handlers::acted(
                m,
                token,
                id,
                "deny"@,
                reason,
                expiry_secs,
                expires_at,
                now,
            );
            let req = m.requests[id];
            let why = match reason {
                Some(s) => s,
                None => seq![],
            };
            if may_decide(m, token, req, now) {
                &&& r == (ReplyView { status: 204, body: BodyView::Empty })
                &&& after.requests == m.requests.remove(id)
                &&& after.blocks == m.blocks.insert(
                    (req.from_identity, req.to_name),
                    BlockView { reason: why, expires_at },
                )
                &&& after.queue(req.from_name) == m.queue(req.from_name).push(
                    word(events::grant_denied(id, req.to_name, why), "grant_denied"@),
                )
                &&& after.trust == m.trust
            } else {
                &&& r.status == 403
                &&& after == m
            }
        }),
{
    reveal_strlit("approve");
    reveal_strlit("deny");
    assert("approve"@.len() == 7 && "deny"@.len() == 4);
}

/// A request that is held goes back to the governor's stage, and the one who asked is told why, so
/// that it can be asked again with more; a hold needs a reason.
pub proof fn law_request_held(
    m: HubModel,
    token: Seq<char>,
    id: Seq<char>,
    reason: Option<Seq<char>>,
    expiry_secs: Option<u64>,
    expires_at: Option<u64>,
    now: Moment,
)
    requires
        m.requests.contains_key(id),
        now.instant < m.requests[id].expires_at,
    ensures
        ({
            let (after, r) = grant_handlers::acted(
                m,
                token,
                id,
                "hold"@,
                reason,
                expiry_secs,
                expires_at,
                now,
            );
            let req = m.requests[id];
            match reason {
                None => r.status == 400 && after == m,
                Some(why) => if may_decide(m, token, req, now) {
                    &&& r == (ReplyView { status: 204, body: BodyView::Empty })
                    &&& after.requests == m.requests.insert(
                        id,
                        RequestView { stage: ConnectionStage::PendingGovernor, ..req },
                    )
                    &&& after.queue(req.from_name) == m.queue(req.from_name).push(
                        word(events::grant_held(id, req.to_name, why), "grant_held"@),
                    )
                    &&& after.trust == m.trust
                    &&& after.blocks == m.blocks
                } else {
                    &&& r.status == 403
                    &&& after == m
                },
            }
        }),
{
    reveal_strlit("approve");
    reveal_strlit("deny");
    reveal_strlit("hold");
    assert("approve"@.len() == 7 && "deny"@.len() == 4 && "hold"@.len() == 4);
    assert("deny"@[0] == 'd' && "hold"@[0] == 'h');
}

/// Nothing but approving, denying and holding is done to a request, and nothing at all to one that
/// does not exist.
pub proof fn law_no_other_action(
    m: HubModel,
    token: Seq<char>,
    id: Seq<char>,
    action: Seq<char>,
    reason: Option<Seq<char>>,
    expiry_secs: Option<u64>,
    expires_at: Option<u64>,
    now: Moment,
)
    requires
        (action != "approve"@ && action != "deny"@ && action != "hold"@) || !m.requests.contains_key(id),
    ensures
        ({
            let (after, r) = grant_handlers::acted(
                m,
                token,
                id,
                action,
                reason,
                expiry_secs,
                expires_at,
                now,
            );
            &&& after == m
            &&& r.status == 400
        }),
{
}

/// A governor revokes a grant: no grant with its identifier is left, every other stands, both
/// parties' streams are told, and the store forgets it. Nobody else revokes one.
pub proof fn law_grant_revoked(m: HubModel, id: Seq<char>, governor: Seq<char>, now: Moment, g: GrantView)
    ensures
        ({
            let (after, r) = m.revoke_grant(id, governor, now);
            &&& !in_office(m.trust, governor, now.instant) ==> r is Err && after == m
            &&& r is Ok ==> {
                &&& after.trust.grants.contains(g) <==> m.trust.grants.contains(g) && g.id != id
                &&& after.trust.governors == m.trust.governors
                &&& m.persistent ==> after.outbox.last() == EffectView::Store(
                    StoreWriteView::DeleteGrant { grant_id: id },
                )
            }
            &&& in_office(m.trust, governor, now.instant) && m.trust.grants.contains(g) && g.id == id
                ==> r is Ok
        }),
{
    laws::trust::law_revoked_grant_gone(m.trust, id, g);
    if m.trust.grants.contains(g) && g.id == id {
        let i = m.trust.grants.index_of(g);
        laws::mediation::lemma_first_found(m.trust, id, i);
    }
}

} // verus!
