//! Laws of messages that wait for a governor's ruling.

use crate::clock::Moment;
use crate::delivery::model::HubModel;
use crate::delivery::{AckView, DecisionView, HoldView, MediationResultView};
use crate::error::ErrorView;
use crate::laws::invariants;
use crate::trust::{Ask, TrustModel};
use crate::types::MessageView;
use vstd::prelude::*;

verus! {

/// A message that is held is kept as it was sent, under the identifier that its sender gets, until
/// the ruling or the end of its time. Until then it is in no queue and spends nothing.
pub proof fn law_message_held(
    m: HubModel,
    token: Seq<char>,
    to: Seq<char>,
    payload: Seq<u8>,
    thread: Option<Seq<char>>,
    now: Moment,
    id: Seq<char>,
    name: Seq<char>,
)
    requires
        m.send(token, to, payload, thread, now).1 == Ok::<AckView, ErrorView>(
            AckView::PendingMediation { mediation_id: id },
        ),
        now.instant + m.hold_ttl <= u128::MAX,
    ensures
        ({
            let after = m.send(token, to, payload, thread, now).0;
            let from = m.token_to_name[token];
            let grant = m.trust.check(
                Ask { from: token, to: m.agents[to], from_name: Some(from), to_name: Some(to) },
                now.instant,
            );
            let hold = after.holds.last();
            &&& after.holds.len() > 0
            &&& hold.mediation_id == id
            &&& hold.payload == payload
            &&& hold.from_name == from
            &&& hold.to_name == to
            &&& !hold.resolved
            &&& hold.expires == now.instant + m.hold_ttl
            &&& grant matches Ok(g) && hold.grant_id == Some(g.id)
            &&& after.queue(name) == m.queue(name)
            &&& after.trust == m.trust
        }),
{
}

/// The one place at which a held message can be ruled on.
pub(crate) proof fn lemma_ruled_at(m: HubModel, i: int, id: Seq<char>, now: Moment) -> (k: int)
    requires
        m.sound(),
        0 <= i < m.holds.len(),
        m.holds[i].open(id, now.instant),
    ensures
        m.prune(now.instant).hold_at(id, now.instant, k),
        m.prune(now.instant).holds[k] == m.holds[i],
        (choose|j: int| m.prune(now.instant).hold_at(id, now.instant, j)) == k,
{
    reveal(HubModel::sound);
    let pruned = m.prune(now.instant);
    let p = |h: HoldView| !h.resolved && h.expires > now.instant;
    invariants::lemma_prune_keeps(m, now);
    m.holds.lemma_filter_contains(p, i);
    let k = choose|k: int| 0 <= k < pruned.holds.len() && pruned.holds[k] == m.holds[i];
    assert forall|j: int| 0 <= j < pruned.holds.len() && j != k implies (
    #[trigger] pruned.holds[j]).mediation_id != id by {
        if j < k {
            assert(pruned.holds[j].mediation_id != pruned.holds[k].mediation_id);
        } else {
            assert(pruned.holds[k].mediation_id != pruned.holds[j].mediation_id);
        }
    }
    assert(pruned.hold_at(id, now.instant, k));
    let c = choose|j: int| pruned.hold_at(id, now.instant, j);
    assert(pruned.hold_at(id, now.instant, c));
    k
}

/// The message that a ruling lets through.
pub open spec fn let_through(hold: HoldView, payload: Seq<u8>) -> MessageView {
    MessageView {
        payload,
        from_name: hold.from_name,
        reason: Some(hold.reason),
        event_type: None,
        thread_id: None,
    }
}

/// The governor whose grant a message is held under rules on it, while its recipient is announced:
/// approved it is delivered as it was sent, modified as the governor gives it, and either spends
/// one message of the grant's budget; blocked it is delivered to nobody and spends nothing. Another
/// governor is refused, and the message still waits.
pub proof fn law_ruling(
    m: HubModel,
    i: int,
    id: Seq<char>,
    gid: Seq<char>,
    governor: Seq<char>,
    payload: Seq<u8>,
    decision: DecisionView,
    now: Moment,
    name: Seq<char>,
)
    requires
        m.sound(),
        0 <= i < m.holds.len(),
        m.holds[i].open(id, now.instant),
        m.holds[i].grant_id == Some(gid),
        m.trust.grant(gid) is Some,
        m.trust.verify(governor, now.instant) is Ok,
        m.agents.contains_key(m.holds[i].to_name),
    ensures
        ({
            let hold = m.holds[i];
            let to = hold.to_name;
            let delivered = Ok::<MediationResultView, ErrorView>(
                MediationResultView::Delivered { to_name: to },
            );
            let (approved, a) = m.resolve(governor, id, DecisionView::Approve, now);
            let (modified, c) = m.resolve(governor, id, DecisionView::Modify(payload), now);
            let (blocked, b) = m.resolve(governor, id, DecisionView::Block, now);
            (m.trust.grant(gid)->0).governor_id == governor ==> {
                &&& a == delivered
                &&& approved.queue(to) == m.queue(to).push(let_through(hold, hold.payload))
                &&& name != to ==> approved.queue(name) == m.queue(name)
                &&& approved.trust == m.trust.consume(gid)
                &&& c == delivered
                &&& modified.queue(to) == m.queue(to).push(let_through(hold, payload))
                &&& name != to ==> modified.queue(name) == m.queue(name)
                &&& modified.trust == m.trust.consume(gid)
                &&& b == Ok::<MediationResultView, ErrorView>(MediationResultView::Blocked)
                &&& blocked.queue(name) == m.queue(name)
                &&& blocked.trust == m.trust
            }
        }),
        (m.trust.grant(gid)->0).governor_id != governor ==> {
            let (after, r) = m.resolve(governor, id, decision, now);
            &&& r == Err::<MediationResultView, ErrorView>(ErrorView::Forbidden)
            &&& after == m.prune(now.instant)
            &&& exists|k: int| 0 <= k < after.holds.len() && #[trigger] after.holds[k] == m.holds[i]
        },
{
    let k = lemma_ruled_at(m, i, id, now);
    let pruned = m.prune(now.instant);
    assert(pruned.holds[k] == m.holds[i]);
}

/// A held message is settled once: after a ruling on it, every further one finds nothing to rule
/// on.
pub proof fn law_hold_settled_once(
    m: HubModel,
    id: Seq<char>,
    governor: Seq<char>,
    decision: DecisionView,
    now: Moment,
    other: Seq<char>,
    again: DecisionView,
    later: Moment,
)
    requires
        m.sound(),
        m.resolve(governor, id, decision, now).1 is Ok,
    ensures
        ({
            let after = m.resolve(governor, id, decision, now).0;
            after.resolve(other, id, again, later) == (
                after.prune(later.instant),
                Err::<MediationResultView, ErrorView>(
                    match after.trust.verify(other, later.instant) {
                        Ok(_) => ErrorView::MediationUnavailable,
                        Err(e) => e,
                    },
                ),
            )
        }),
{
    reveal(HubModel::sound);
    let pruned = m.prune(now.instant);
    invariants::lemma_prune_keeps(m, now);
    let k = choose|k: int| pruned.hold_at(id, now.instant, k);
    assert(pruned.hold_at(id, now.instant, k));
    let after = m.resolve(governor, id, decision, now).0;
    assert(after.holds == pruned.holds.update(
        k,
        HoldView { resolved: true, ..pruned.holds[k] },
    ));
    let last = after.prune(later.instant);
    let p = |h: HoldView| !h.resolved && h.expires > later.instant;
    assert forall|j: int| !last.hold_at(id, later.instant, j) by {
        if last.hold_at(id, later.instant, j) {
            after.holds.lemma_filter_contains_rev(p, last.holds[j]);
            after.holds.lemma_filter_pred(p, j);
            let n = choose|n: int| 0 <= n < after.holds.len() && after.holds[n] == last.holds[j];
            if n < k {
                assert(pruned.holds[n].mediation_id != pruned.holds[k].mediation_id);
            } else if n > k {
                assert(pruned.holds[k].mediation_id != pruned.holds[n].mediation_id);
            }
        }
    }
}

/// A ruling whose recipient is no longer announced delivers the message to nobody and spends
/// nothing.
pub proof fn law_gone_recipient_costs_nothing(
    m: HubModel,
    id: Seq<char>,
    governor: Seq<char>,
    decision: DecisionView,
    now: Moment,
    name: Seq<char>,
)
    requires
        m.resolve(governor, id, decision, now).1 == Ok::<MediationResultView, ErrorView>(
            MediationResultView::RecipientOffline,
        ),
    ensures
        m.resolve(governor, id, decision, now).0.trust == m.trust,
        m.resolve(governor, id, decision, now).0.queue(name) == m.queue(name),
        m.resolve(governor, id, decision, now).0.outbox == m.outbox,
{
}

/// There is a first grant with the identifier that some grant has.
pub(crate) proof fn lemma_first_found(t: TrustModel, id: Seq<char>, i: int)
    requires
        0 <= i < t.grants.len(),
        t.grants[i].id == id,
    ensures
        t.grant(id) is Some,
    decreases i,
{
    if t.first_at(id, i) {
    } else {
        let j = choose|j: int| 0 <= j < i && (#[trigger] t.grants[j]).id == id;
        lemma_first_found(t, id, j);
    }
}

/// The grant that a message is held under still stands when it is held.
proof fn lemma_hold_has_grant(
    m: HubModel,
    token: Seq<char>,
    to: Seq<char>,
    payload: Seq<u8>,
    thread: Option<Seq<char>>,
    now: Moment,
    id: Seq<char>,
)
    requires
        m.send(token, to, payload, thread, now).1 == Ok::<AckView, ErrorView>(
            AckView::PendingMediation { mediation_id: id },
        ),
    ensures
        m.send(token, to, payload, thread, now).0.holds.last().grant_id matches Some(gid)
            && m.trust.grant(gid) is Some,
{
    let ask = Ask {
        from: token,
        to: m.agents[to],
        from_name: Some(m.token_to_name[token]),
        to_name: Some(to),
    };
    let i = choose|i: int| m.trust.best_at(ask, now.instant, i);
    lemma_first_found(m.trust, m.trust.grants[i].id, i);
}

/// From sending to ruling: a message that is held goes, while its time lasts, where the governor
/// of its grant says. Approved it is delivered once, as it was sent; modified, as the governor
/// gives it; each time one message of the grant's budget is used. Blocked it is delivered to
/// nobody and uses none. After that there is nothing left to rule on. Another governor is
/// refused, and the message still waits.
pub proof fn law_mediation(
    m: HubModel,
    token: Seq<char>,
    to: Seq<char>,
    payload: Seq<u8>,
    thread: Option<Seq<char>>,
    now: Moment,
    id: Seq<char>,
    governor: Seq<char>,
    decision: DecisionView,
    later: Moment,
    other: Seq<char>,
    again: DecisionView,
    end: Moment,
    name: Seq<char>,
)
    requires
        m.sound(),
        m.ready(),
        now.in_range(),
        m.send(token, to, payload, thread, now).1 == Ok::<AckView, ErrorView>(
            AckView::PendingMediation { mediation_id: id },
        ),
        later.instant < now.instant + m.hold_ttl,
        m.trust.verify(governor, later.instant) is Ok,
    ensures
        ({
            let held = m.send(token, to, payload, thread, now).0;
            let hold = held.holds.last();
            let gid = hold.grant_id->0;
            let grant = held.trust.grant(gid)->0;
            let delivered = Ok::<MediationResultView, ErrorView>(
                MediationResultView::Delivered { to_name: to },
            );
            let (after, r) = held.resolve(governor, id, decision, later);
            &&& hold.grant_id is Some
            &&& held.trust.grant(gid) is Some
            &&& hold.mediation_id == id && hold.payload == payload && hold.from_name
                == m.token_to_name[token]
            &&& governor != grant.governor_id ==> {
                &&& r == Err::<MediationResultView, ErrorView>(ErrorView::Forbidden)
                &&& after.holds.contains(hold)
                &&& after.queue(name) == m.queue(name)
                &&& after.trust == m.trust
            }
            &&& governor == grant.governor_id ==> {
                &&& r == match decision {
                    DecisionView::Block => Ok::<MediationResultView, ErrorView>(
                        MediationResultView::Blocked,
                    ),
                    _ => delivered,
                }
                &&& after.queue(to) == match decision {
                    DecisionView::Approve => m.queue(to).push(let_through(hold, payload)),
                    DecisionView::Modify(p) => m.queue(to).push(let_through(hold, p)),
                    DecisionView::Block => m.queue(to),
                }
                &&& name != to ==> after.queue(name) == m.queue(name)
                &&& after.trust == match decision {
                    DecisionView::Block => m.trust,
                    _ => m.trust.consume(gid),
                }
                &&& after.trust.verify(other, end.instant) is Ok ==> after.resolve(
                    other,
                    id,
                    again,
                    end,
                ).1 == Err::<MediationResultView, ErrorView>(ErrorView::MediationUnavailable)
            }
        }),
{
    law_message_held(m, token, to, payload, thread, now, id, name);
    law_message_held(m, token, to, payload, thread, now, id, to);
    lemma_hold_has_grant(m, token, to, payload, thread, now, id);
    invariants::law_send_sound(m, token, to, payload, thread, now);
    let held = m.send(token, to, payload, thread, now).0;
    let i = held.holds.len() - 1;
    let gid = held.holds[i].grant_id->0;
    let p = match decision {
        DecisionView::Modify(p) => p,
        _ => payload,
    };
    law_ruling(held, i, id, gid, governor, p, decision, later, name);
    if held.resolve(governor, id, decision, later).1 is Ok {
        law_hold_settled_once(held, id, governor, decision, later, other, again, end);
    }
}

} // verus!
