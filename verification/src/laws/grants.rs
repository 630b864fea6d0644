//! Laws of asking for grants and of denials.

use crate::clock::{Duration, Instant, Moment, SystemTime};
use crate::delivery::governance;
use crate::delivery::grants;
use crate::delivery::model::HubModel;
use crate::delivery::{
    ApproveStatus, BlockView, ConnectionStage, EffectView, RequestView, StoreWriteView,
    GRANT_REQUEST_TIMEOUT,
};
use crate::error::ErrorView;
use crate::laws;
use crate::trust;
use crate::trust::{Ask, Terms};
use vstd::prelude::*;

verus! {

/// Where nobody governs, a request waits for its recipient alone; where someone does, it waits
/// for the governor first.
pub proof fn law_request_starts(
    m: HubModel,
    token: Seq<char>,
    to: Seq<char>,
    reason: Option<Seq<char>>,
    now: Moment,
    id: Seq<char>,
)
    requires
        m.request_grant(token, to, reason, None, now).1 == Ok::<Seq<char>, ErrorView>(id),
        now.in_range(),
    ensures
        ({
            let after = m.request_grant(token, to, reason, None, now).0;
            &&& after.requests.contains_key(id)
            &&& after.requests[id].reason == reason
            &&& after.requests[id].expires_at == now.instant + GRANT_REQUEST_TIMEOUT
            &&& after.requests[id].stage == if m.trust.governed() {
                ConnectionStage::PendingGovernor
            } else {
                ConnectionStage::PendingRecipient
            }
            &&& after.requests[id].approving_governor == if m.trust.governed() {
                None
            } else {
                Some("recipient-consent"@)
            }
            &&& after.trust == m.trust
        }),
{
}

/// A request that waits for the governor is not approved by anybody else; the governor's approval
/// hands it to the recipient and makes no grant yet.
pub proof fn law_governor_first(
    m: HubModel,
    token: Seq<char>,
    id: Seq<char>,
    expiry: Option<Duration>,
    now: Moment,
)
    requires
        m.requests.contains_key(id),
        m.requests[id].stage is PendingGovernor,
        !m.lapsed(id, now),
    ensures
        !m.is_governor(token, now) ==> m.approve_request(token, id, expiry, now) == (
            m,
            Err::<ApproveStatus, ErrorView>(ErrorView::Forbidden),
        ),
        m.is_governor(token, now) ==> {
            let (after, r) = m.approve_request(token, id, expiry, now);
            &&& r == Ok::<ApproveStatus, ErrorView>(ApproveStatus::PendingRecipient)
            &&& after.trust == m.trust
            &&& after.requests.contains_key(id)
            &&& after.requests[id].stage is PendingRecipient
            &&& after.requests[id].governor_expiry == expiry
            &&& after.requests[id].approving_governor == Some(token)
        },
{
}

/// A request that waits for its recipient is approved by the recipient, or by a governor, and by
/// nobody else.
pub proof fn law_recipient_decides(
    m: HubModel,
    token: Seq<char>,
    id: Seq<char>,
    expiry: Option<Duration>,
    now: Moment,
)
    requires
        m.requests.contains_key(id),
        m.requests[id].stage is PendingRecipient,
        !m.lapsed(id, now),
        !m.is_governor(token, now),
        !m.is_recipient(token, m.requests[id]),
    ensures
        m.approve_request(token, id, expiry, now) == (
            m,
            Err::<ApproveStatus, ErrorView>(ErrorView::Forbidden),
        ),
{
}

/// A request whose time is up is neither approved nor denied nor put on hold by anybody: it is
/// gone, nothing else changes, and no grant is made.
pub proof fn law_lapsed_request_gone(
    m: HubModel,
    token: Seq<char>,
    id: Seq<char>,
    expiry: Option<Duration>,
    reason: Seq<char>,
    expires_at: Option<u64>,
    now: Moment,
)
    requires
        m.requests.contains_key(id),
        m.requests[id].expires_at <= now.instant,
    ensures
        m.approve_request(token, id, expiry, now) == (
            m.drop_request(id),
            Err::<ApproveStatus, ErrorView>(ErrorView::BadRequest),
        ),
        m.deny_request(token, id, reason, expires_at, now) == (
            m.drop_request(id),
            Err::<(), ErrorView>(ErrorView::BadRequest),
        ),
        m.hold_request(token, id, reason, now) == (
            m.drop_request(id),
            Err::<(), ErrorView>(ErrorView::BadRequest),
        ),
        m.drop_request(id).trust == m.trust,
        !m.drop_request(id).requests.contains_key(id),
{
}

/// A request lasts for half an hour from when it is made, made again or answered after a hold, and
/// for as long again from when the governor passes it on.
pub proof fn law_request_lasts(
    m: HubModel,
    token: Seq<char>,
    to: Seq<char>,
    reason: Option<Seq<char>>,
    update_id: Option<Seq<char>>,
    expiry: Option<Duration>,
    id: Seq<char>,
    now: Moment,
    later: Moment,
)
    requires
        now.in_range(),
    ensures
        m.request_grant(token, to, reason, update_id, now).1 == Ok::<Seq<char>, ErrorView>(id) ==> (
        m.request_grant(token, to, reason, update_id, now).0.lapsed(id, later) <==> later.instant
            >= now.instant + GRANT_REQUEST_TIMEOUT),
        m.approve_request(token, id, expiry, now).1 == Ok::<ApproveStatus, ErrorView>(
            ApproveStatus::PendingRecipient,
        ) ==> (m.approve_request(token, id, expiry, now).0.lapsed(id, later) <==> later.instant
            >= now.instant + GRANT_REQUEST_TIMEOUT),
{
}

pub(crate) proof fn lemma_concluding_keeps_trust(
    m: HubModel,
    id: Seq<char>,
    req: RequestView,
    authority: Seq<char>,
    grant_id: Seq<char>,
    expires_at: Option<SystemTime>,
)
    ensures
        m.conclude(id, req, authority, grant_id, expires_at).trust == m.trust,
{
}

/// The grant that an approved request leads to.
proof fn lemma_established_grant(
    m: HubModel,
    id: Seq<char>,
    req: RequestView,
    expiry: Option<Duration>,
    now: Moment,
)
    requires
        m.consent(id, req, expiry, now).1 is Ok,
    ensures
        ({
            let after = m.consent(id, req, expiry, now).0;
            let g = after.trust.grants.last();
            &&& after.trust.grants.len() == m.trust.grants.len() + 1
            &&& g.name_a == Some(req.from_name)
            &&& g.name_b == Some(req.to_name)
            &&& g.identity_a == req.from_identity
            &&& g.identity_b == req.to_identity
            &&& g.direction is Symmetric
            &&& g.max_messages is None
            &&& g.expires == trust::ends(
                now.instant,
                grants::sooner(req.governor_expiry, expiry),
            )
        }),
{
    let authority = req.approving_governor->0;
    let terms = Terms {
        name_a: Some(req.from_name),
        name_b: Some(req.to_name),
        ..Terms::open_terms()
    };
    let until = grants::sooner(req.governor_expiry, expiry);
    let granted = m.trust.granted(
        authority,
        req.from_identity,
        req.to_identity,
        until,
        terms,
        now.instant,
    );
    lemma_concluding_keeps_trust(
        HubModel { trust: granted, ..m },
        id,
        req,
        authority,
        m.trust.next("grant"@),
        governance::wall_end(now, until),
    );
}

/// Consent opens the channel: once the recipient has approved, messages pass between the two both
/// ways, until the sooner of the two expiries, and the request is done.
pub proof fn law_consent_opens_channel(
    m: HubModel,
    id: Seq<char>,
    req: RequestView,
    expiry: Option<Duration>,
    now: Moment,
    from: Seq<char>,
    to: Seq<char>,
    later: Instant,
)
    requires
        m.consent(id, req, expiry, now).1 is Ok,
        trust::ends(now.instant, grants::sooner(req.governor_expiry, expiry)) matches Some(end)
            ==> later < end,
    ensures
        m.consent(id, req, expiry, now).1 == Ok::<ApproveStatus, ErrorView>(
            ApproveStatus::Established,
        ),
        !m.consent(id, req, expiry, now).0.requests.contains_key(id),
        m.consent(id, req, expiry, now).0.trust.check(
            Ask { from, to, from_name: Some(req.from_name), to_name: Some(req.to_name) },
            later,
        ) is Ok,
        m.consent(id, req, expiry, now).0.trust.check(
            Ask { from: to, to: from, from_name: Some(req.to_name), to_name: Some(req.from_name) },
            later,
        ) is Ok,
{
    lemma_established_grant(m, id, req, expiry, now);
    let after = m.consent(id, req, expiry, now).0;
    let k = after.trust.grants.len() - 1;
    let there = Ask { from, to, from_name: Some(req.from_name), to_name: Some(req.to_name) };
    let back = Ask {
        from: to,
        to: from,
        from_name: Some(req.to_name),
        to_name: Some(req.from_name),
    };
    assert(after.trust.grants[k].usable(there, later));
    assert(after.trust.grants[k].usable(back, later));
    laws::trust::law_check_decides(after.trust, there, later);
    laws::trust::law_check_decides(after.trust, back, later);
}

/// The grant that consent makes is written down with its end, and so ends when it should also
/// after a restart.
pub proof fn law_consent_written_down(
    m: HubModel,
    id: Seq<char>,
    req: RequestView,
    expiry: Option<Duration>,
    now: Moment,
)
    requires
        m.consent(id, req, expiry, now).1 is Ok,
        m.persistent,
    ensures
        ({
            let after = m.consent(id, req, expiry, now).0;
            let g = after.trust.grants.last();
            exists|i: int|
                0 <= i < after.outbox.len() && #[trigger] after.outbox[i] == EffectView::Store(
                    StoreWriteView::UpsertGrant {
                        id: g.id,
                        identity_a: g.identity_a,
                        identity_b: g.identity_b,
                        direction: grants::direction_name(g.direction),
                        mediation: grants::mediation_name(g.mediation),
                        max_messages: g.max_messages,
                        conditions: g.conditions,
                        opens_reply_window: g.opens_reply_window,
                        expires_at: governance::wall_end(
                            now,
                            grants::sooner(req.governor_expiry, expiry),
                        ),
                        governor_id: g.governor_id,
                        name_a: g.name_a,
                        name_b: g.name_b,
                    },
                )
        }),
{
    lemma_established_grant(m, id, req, expiry, now);
    let after = m.consent(id, req, expiry, now).0;
    let g = after.trust.grants.last();
    let row = EffectView::Store(
        StoreWriteView::UpsertGrant {
            id: g.id,
            identity_a: g.identity_a,
            identity_b: g.identity_b,
            direction: grants::direction_name(g.direction),
            mediation: grants::mediation_name(g.mediation),
            max_messages: g.max_messages,
            conditions: g.conditions,
            opens_reply_window: g.opens_reply_window,
            expires_at: governance::wall_end(now, grants::sooner(req.governor_expiry, expiry)),
            governor_id: g.governor_id,
            name_a: g.name_a,
            name_b: g.name_b,
        },
    );
    let written = if after.keeps_row(req.from_name) {
        1int
    } else {
        0
    } + if after.keeps_row(req.to_name) {
        1int
    } else {
        0
    };
    assert(after.outbox[after.outbox.len() - 1 - written] == row);
}

/// Of two expiries the sooner counts, and one that is missing does not.
pub proof fn law_sooner(a: Option<Duration>, b: Option<Duration>)
    ensures
        grants::sooner(a, b) == grants::sooner(b, a),
        grants::sooner(a, b) is None <==> a is None && b is None,
        (a matches Some(x) ==> grants::sooner(a, b) matches Some(s) && s <= x),
        grants::sooner(a, b) == a || grants::sooner(a, b) == b,
{
}

/// While a request for a pair is open, another is refused and the first stands.
pub proof fn law_open_request_stands(
    m: HubModel,
    token: Seq<char>,
    from: Seq<char>,
    to: Seq<char>,
    reason: Option<Seq<char>>,
    now: Instant,
    id: Seq<char>,
)
    requires
        m.first_for(id, from, to),
        now < m.requests[id].expires_at,
    ensures
        m.file_request(token, from, to, reason, None, now) == (
            m,
            Err::<Seq<char>, ErrorView>(ErrorView::RequestPending),
        ),
{
    let k = choose|k: Seq<char>| m.first_for(k, from, to);
    assert(m.first_for(k, from, to));
    assert(m.is_for(k, from, to) && m.is_for(id, from, to));
    crate::text::lemma_lex_total(k, id);
}

/// A request is taken up again by the one who made it and by nobody else.
pub proof fn law_own_request_only(
    m: HubModel,
    token: Seq<char>,
    from: Seq<char>,
    to: Seq<char>,
    reason: Option<Seq<char>>,
    now: Instant,
    id: Seq<char>,
)
    ensures
        m.requests.contains_key(id) && m.requests[id].from_name != from ==> m.file_request(
            token,
            from,
            to,
            reason,
            Some(id),
            now,
        ) == (m, Err::<Seq<char>, ErrorView>(ErrorView::Forbidden)),
        m.requests.contains_key(id) && m.requests[id].from_name == from ==> m.file_request(
            token,
            from,
            to,
            reason,
            Some(id),
            now,
        ).1 == Ok::<Seq<char>, ErrorView>(id),
{
}

/// A denied request is gone, and from then on the denial stands between the two until it ends;
/// taking it back ends it at once.
pub proof fn law_denial_stands(
    m: HubModel,
    token: Seq<char>,
    id: Seq<char>,
    reason: Seq<char>,
    expires_at: Option<u64>,
    now: Moment,
    later: Moment,
    governor: Seq<char>,
)
    requires
        m.deny_request(token, id, reason, expires_at, now).1 is Ok,
    ensures
        ({
            let req = m.requests[id];
            let after = m.deny_request(token, id, reason, expires_at, now).0;
            &&& !after.requests.contains_key(id)
            &&& after.denied(req.from_identity, req.to_name, later) == match expires_at {
                Some(end) => end > later.unix(),
                None => true,
            }
            &&& after.trust == m.trust
            &&& after.unblock(governor, req.from_identity, req.to_name, later).1 is Ok
                ==> !after.unblock(governor, req.from_identity, req.to_name, later).0.denied(
                req.from_identity,
                req.to_name,
                later,
            )
        }),
{
}

/// A governor's denial stands until it ends, and only a governor makes one or takes one back.
pub proof fn law_only_governors_block(
    m: HubModel,
    token: Seq<char>,
    from: Seq<char>,
    to: Seq<char>,
    reason: Seq<char>,
    expires_at: Option<u64>,
    now: Moment,
)
    ensures
        m.is_governor(token, now) ==> m.block(token, from, to, reason, expires_at, now).0.blocks[(
            from,
            to,
        )] == (BlockView { reason, expires_at }),
        !m.is_governor(token, now) ==> m.block(token, from, to, reason, expires_at, now).0 == m,
        !m.is_governor(token, now) ==> m.unblock(token, from, to, now) == (
            m,
            Err::<(), ErrorView>(ErrorView::Forbidden),
        ),
{
}

/// A request on hold is back with the governor.
pub proof fn law_hold_returns_request(
    m: HubModel,
    token: Seq<char>,
    id: Seq<char>,
    reason: Seq<char>,
    now: Moment,
)
    requires
        m.hold_request(token, id, reason, now).1 is Ok,
    ensures
        m.hold_request(token, id, reason, now).0.requests.contains_key(id),
        m.hold_request(token, id, reason, now).0.requests[id] == (RequestView {
            stage: ConnectionStage::PendingGovernor,
            ..m.requests[id]
        }),
        m.hold_request(token, id, reason, now).0.trust == m.trust,
{
}

/// A revoked grant is gone from the hub, and only a governor revokes one.
pub proof fn law_revoked_grant_gone(m: HubModel, id: Seq<char>, governor: Seq<char>, now: Moment)
    ensures
        m.revoke_grant(id, governor, now).1 is Ok ==> m.revoke_grant(id, governor, now).0.trust.grant(
            id,
        ) is None,
        !m.is_governor(governor, now) ==> m.revoke_grant(id, governor, now).0 == m,
{
    crate::laws::trust::law_revoked_grant_gone(m.trust, id, m.trust.grants[0]);
}

} // verus!
