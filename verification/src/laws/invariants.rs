//! What every operation of the hub keeps.

use crate::clock::{Duration, Instant, Moment, SystemTime};
use crate::config::Settings;
use crate::delivery::attachments::NewAttachmentView;
use crate::delivery::books::{held_under, ids_apart};
use crate::delivery::grants;
use crate::delivery::listen;
use crate::delivery::messaging;
use crate::delivery::model::{self, HubModel};
use crate::delivery::start;
use crate::delivery::{
    BlockView, ClaimView, ConnectionStage, DecisionView, HoldView, ListenView, RequestView,
    SettleView, StoreWriteView, WindowView, GRANT_REQUEST_TIMEOUT,
};
use crate::events;
use crate::laws;
use crate::laws::governance;
use crate::persistence::{DenialRow, TokenRow};
use crate::text;
use crate::trust;
use crate::trust::{Ask, GrantMediation, GrantRefView, Terms, TrustModel};
use crate::types::MessageView;
use vstd::prelude::*;

verus! {

/// What `sound` speaks of is the same in both, but that a token may be gone.
spec fn same_books(a: HubModel, b: HubModel) -> bool {
    &&& a.agents == b.agents
    &&& a.token_to_name == b.token_to_name
    &&& a.name_to_token == b.name_to_token
    &&& a.identities == b.identities
    &&& a.queues == b.queues
    &&& a.kick_pending == b.kick_pending
    &&& a.holds == b.holds
    &&& a.med_counter == b.med_counter
    &&& forall|t: Seq<char>| #[trigger]
        b.tokens.contains_key(t) ==> (a.tokens.contains_key(t) && a.tokens[t].name
            == b.tokens[t].name)
}

// ── The parts of the operations ──────────────────────────────────────────────

proof fn lemma_same_books(a: HubModel, b: HubModel)
    requires
        a.sound(),
        same_books(a, b),
    ensures
        b.sound(),
{
    reveal(HubModel::sound);
    assert forall|n: Seq<char>| #[trigger] b.kick_pending.contains(n) == (b.queue(n).len() > 0) by {
        assert(a.kick_pending.contains(n) == (a.queue(n).len() > 0));
    }
}

proof fn lemma_filter_apart(holds: Seq<HoldView>, p: spec_fn(HoldView) -> bool)
    requires
        ids_apart(holds),
    ensures
        ids_apart(holds.filter(p)),
    decreases holds.len(),
{
    reveal(Seq::filter);
    if holds.len() > 0 {
        let fewer = holds.drop_last();
        assert(ids_apart(fewer));
        lemma_filter_apart(fewer, p);
        let kept = fewer.filter(p);
        assert forall|i: int| 0 <= i < kept.len() implies (#[trigger] kept[i]).mediation_id
            != holds.last().mediation_id by {
            fewer.lemma_filter_contains_rev(p, kept[i]);
            let j = choose|j: int| 0 <= j < fewer.len() && fewer[j] == kept[i];
            assert(holds[j].mediation_id != holds[holds.len() - 1].mediation_id);
        }
    }
}

pub(crate) proof fn lemma_prune_keeps(m: HubModel, now: Moment)
    requires
        m.sound(),
    ensures
        m.prune(now.instant).sound(),
{
    reveal(HubModel::sound);
    let after = m.prune(now.instant);
    let p = |h: HoldView| !h.resolved && h.expires > now.instant;
    lemma_filter_apart(m.holds, p);
    assert forall|i: int| 0 <= i < after.holds.len() implies held_under(
        (#[trigger] after.holds[i]).mediation_id,
        after.med_counter,
    ) by {
        m.holds.lemma_filter_contains_rev(p, after.holds[i]);
        let j = choose|j: int| 0 <= j < m.holds.len() && m.holds[j] == after.holds[i];
        assert(held_under(m.holds[j].mediation_id, m.med_counter));
    }
    lemma_same_books(m, HubModel { holds: m.holds, ..after });
}

proof fn lemma_push_all_keeps(m: HubModel, streams: Seq<u64>, text: Seq<char>)
    ensures
        same_books(m, m.push_all(streams, text)),
    decreases streams.len(),
{
    if streams.len() > 0 {
        lemma_push_all_keeps(m, streams.drop_last(), text);
    }
}

proof fn lemma_deliver_keeps(m: HubModel, name: Seq<char>, msg: MessageView)
    requires
        m.sound(),
    ensures
        m.deliver(name, msg).sound(),
{
    reveal(HubModel::sound);
    let put = m.put(name, msg).kick(name);
    assert forall|n: Seq<char>| #[trigger] put.kick_pending.contains(n) == (put.queue(n).len() > 0) by {
        if n != name {
            assert(m.kick_pending.contains(n) == (m.queue(n).len() > 0));
        }
    }
    lemma_same_books(put, put.bump(name));
}

proof fn lemma_bind_keeps(m: HubModel, token: Seq<char>, name: Seq<char>)
    requires
        m.sound(),
    ensures
        m.bind(token, name).sound(),
{
    reveal(HubModel::sound);
    let b = m.bind(token, name);
    assert forall|n: Seq<char>| #[trigger] b.kick_pending.contains(n) == (b.queue(n).len() > 0) by {
        assert(m.kick_pending.contains(n) == (m.queue(n).len() > 0));
    }
}

proof fn lemma_evict_keeps(m: HubModel, token: Seq<char>, now: Moment)
    requires
        m.sound(),
    ensures
        m.evict(token, now).sound(),
{
    reveal(HubModel::sound);
    let e = m.evict(token, now);
    assert forall|n: Seq<char>| #[trigger] e.kick_pending.contains(n) == (e.queue(n).len() > 0) by {
        assert(m.kick_pending.contains(n) == (m.queue(n).len() > 0));
    }
}

proof fn lemma_evict_all_keeps(m: HubModel, tokens: Seq<Seq<char>>, now: Moment)
    requires
        m.sound(),
    ensures
        m.evict_all(tokens, now).sound(),
    decreases tokens.len(),
{
    if tokens.len() > 0 {
        lemma_evict_all_keeps(m, tokens.drop_last(), now);
        lemma_evict_keeps(m.evict_all(tokens.drop_last(), now), tokens.last(), now);
    }
}

// ── Tokens and names ─────────────────────────────────────────────────────────

/// Clearing stale tokens away keeps the books sound.
pub proof fn law_gc_sound(m: HubModel, now: Moment)
    requires
        m.sound(),
    ensures
        m.gc(now).sound(),
{
    lemma_evict_all_keeps(m, m.stale_tokens(now.instant), now);
}

/// Making a token known keeps the books sound.
pub proof fn law_enrol_sound(m: HubModel, n: u64, pending: bool, now: Instant)
    requires
        m.sound(),
    ensures
        m.enrol(n, pending, now).sound(),
{
    reveal(HubModel::sound);
    let e = m.enrol(n, pending, now);
    assert forall|k: Seq<char>| #[trigger] e.kick_pending.contains(k) == (e.queue(k).len() > 0) by {
        assert(m.kick_pending.contains(k) == (m.queue(k).len() > 0));
    }
}

/// A governor's new token for a participant, whether or not it takes a name over, keeps the books
/// sound.
pub proof fn law_issue_sound(m: HubModel, governor: Seq<char>, name: Option<Seq<char>>, n: u64, now: Moment)
    requires
        m.sound(),
    ensures
        m.issue_participant(governor, name, n, now.instant).0.sound(),
{
    reveal(HubModel::sound);
    law_enrol_sound(m, n, true, now.instant);
    if name is Some {
        let nm = name->0;
        let retired = m.retire(nm);
        assert forall|k: Seq<char>| #[trigger] retired.kick_pending.contains(k) == (retired.queue(k).len() > 0) by {
            assert(m.kick_pending.contains(k) == (m.queue(k).len() > 0));
        }
        let t = text::decimal(n as nat);
        let st = ListenView {
            ever_granted: true,
            ..ListenView::registered(now.instant)
        };
        let set = retired.set_token(t, st);
        assert forall|k: Seq<char>| #[trigger] set.kick_pending.contains(k) == (set.queue(k).len() > 0) by {
            assert(retired.kick_pending.contains(k) == (retired.queue(k).len() > 0));
        }
        lemma_bind_keeps(set, t, nm);
        lemma_same_books(set.bind(t, nm), retired.seat(nm, m.holder(nm), n, now.instant));
    }
}

proof fn lemma_rebind_keeps(m: HubModel, token: Seq<char>)
    requires
        m.sound(),
        m.tokens.contains_key(token),
    ensures
        m.rebind_lost(token).sound(),
        m.rebind_lost(token).tokens == m.tokens,
{
    reveal(HubModel::sound);
    let found = m.rebind_lost(token);
    assert forall|k: Seq<char>| #[trigger] found.kick_pending.contains(k) == (found.queue(k).len() > 0) by {
        assert(m.kick_pending.contains(k) == (m.queue(k).len() > 0));
    }
}

proof fn lemma_take_stream_same(
    m: HubModel,
    token: Seq<char>,
    provided: Seq<char>,
    ip: Option<Seq<char>>,
    push: bool,
    now: Moment,
)
    requires
        m.tokens.contains_key(token),
    ensures
        ({
            let taken = m.note_address(token, ip, now.instant).take_stream(token, push, now.instant).link_session(
                token,
                provided,
                now.instant,
            );
            same_books(m, taken) && taken.tokens.contains_key(token)
        }),
{
}

proof fn lemma_greet_same(
    m: HubModel,
    token: Seq<char>,
    provided: Seq<char>,
    taken: Option<Seq<char>>,
    stream: u64,
)
    requires
        m.tokens.contains_key(token),
    ensures
        same_books(m, m.greet(token, provided, taken, stream).catch_up(token, stream)),
{
}

proof fn lemma_bind_asked_keeps(m: HubModel, token: Seq<char>, name: Option<Seq<char>>, now: Moment)
    requires
        m.sound(),
        m.tokens.contains_key(token),
    ensures
        m.bind_asked(token, name, now.instant).sound(),
        m.bind_asked(token, name, now.instant).tokens.contains_key(token),
{
    if name is Some {
        lemma_bind_keeps(m, token, name->0);
        lemma_same_books(m, m.cancel_settle(name->0));
        lemma_same_books(m.bind(token, name->0), m.bind(token, name->0).cancel_settle(name->0));
    }
}

proof fn lemma_start_stream_keeps(
    m: HubModel,
    token: Seq<char>,
    provided: Seq<char>,
    ip: Option<Seq<char>>,
    name: Option<Seq<char>>,
    push: bool,
    now: Moment,
)
    requires
        m.sound(),
        m.tokens.contains_key(token),
    ensures
        m.start_stream(token, provided, ip, name, push, now.instant).sound(),
{
    lemma_rebind_keeps(m, token);
    let found = m.rebind_lost(token);
    let taken = m.stream_taken(token, provided, ip, push, now.instant);
    lemma_take_stream_same(found, token, provided, ip, push, now);
    lemma_same_books(found, taken);
    lemma_bind_asked_keeps(taken, token, name, now);
    let bound = taken.bind_asked(token, name, now.instant);
    let vain = taken.taken_name(token, name, now.instant);
    let running = bound.greet(token, provided, vain, m.next_stream).catch_up(token, m.next_stream);
    lemma_greet_same(bound, token, provided, vain, m.next_stream);
    lemma_same_books(bound, running);
    if name is Some {
        lemma_same_books(running, running.store_binding(token, name->0));
    }
}

/// Opening a stream keeps the books sound.
pub proof fn law_open_sound(
    m: HubModel,
    provided: Option<Seq<char>>,
    ip: Option<Seq<char>>,
    name: Option<Seq<char>>,
    force: bool,
    push: bool,
    n: u64,
    now: Moment,
)
    requires
        m.sound(),
    ensures
        m.open_listen(provided, ip, name, force, push, n, now).0.sound(),
{
    if provided is Some {
        let clean = m.gc(now);
        law_gc_sound(m, now);
        let t = provided->0;
        if clean.tokens.contains_key(t) {
            lemma_start_stream_keeps(clean, t, t, ip, name, push, now);
        } else {
            law_enrol_sound(clean, n, false, now.instant);
            lemma_start_stream_keeps(
                clean.enrol(n, false, now.instant),
                text::decimal(n as nat),
                t,
                ip,
                name,
                push,
                now,
            );
        }
    }
}

/// A stream that breaks leaves the books sound.
pub proof fn law_dropped_sound(m: HubModel, token: Seq<char>, stream: u64)
    requires
        m.sound(),
    ensures
        m.stream_dropped(token, stream).sound(),
{
    lemma_same_books(m, m.stream_dropped(token, stream));
}

/// Closing a stream keeps the books sound.
pub proof fn law_close_sound(m: HubModel, token: Seq<char>, now: Moment)
    requires
        m.sound(),
    ensures
        m.close_listen(token, now).sound(),
{
    lemma_same_books(m, m.close_listen(token, now));
}

/// Giving up a stream and the name bound to it keeps the books sound.
pub proof fn law_cancel_sound(m: HubModel, token: Seq<char>, now: Moment)
    requires
        m.sound(),
    ensures
        m.cancel_listen(token, now).0.sound(),
{
    reveal(HubModel::sound);
    let cut = m.cancel_listen(token, now).0;
    assert forall|k: Seq<char>| #[trigger] cut.kick_pending.contains(k) == (cut.queue(k).len() > 0) by {
        assert(m.kick_pending.contains(k) == (m.queue(k).len() > 0));
    }
}

/// A settle window that ends leaves the books sound.
pub proof fn law_settled_sound(m: HubModel, name: Seq<char>, timer: u64)
    requires
        m.sound(),
    ensures
        m.settle_fired(name, timer).sound(),
{
    if m.settling.contains_key(name) {
        let fired = HubModel {
            settling: m.settling.insert(
                name,
                SettleView { fired: true, ..m.settling[name] },
            ),
            ..m
        };
        lemma_push_all_keeps(
            fired,
            m.settling[name].streams,
            events::presence("offline"@, name),
        );
        lemma_same_books(m, m.settle_fired(name, timer));
    }
}

/// Announcing a name keeps the books sound.
pub proof fn law_announce_sound(m: HubModel, token: Seq<char>, name: Seq<char>, now: Moment)
    requires
        m.sound(),
    ensures
        m.announce(token, name, now).0.sound(),
{
    reveal(HubModel::sound);
    let clean = m.gc(now);
    law_gc_sound(m, now);
    if clean.tokens.contains_key(token) && !clean.tokens[token].revoked {
        let used = clean.touch(token, now.instant);
        lemma_same_books(clean, used);
        lemma_same_books(used, used.mark_seen(token, name, now.instant).cancel_settle(name));
        let loose = HubModel { name_to_token: used.name_to_token.remove(name), ..used };
        assert forall|k: Seq<char>| #[trigger] loose.kick_pending.contains(k) == (loose.queue(k).len() > 0) by {
            assert(used.kick_pending.contains(k) == (used.queue(k).len() > 0));
        }
        assert(loose.sound());
        lemma_take_name_keeps(loose, token, name, now);
    }
}

proof fn lemma_take_name_keeps(m: HubModel, token: Seq<char>, name: Seq<char>, now: Moment)
    requires
        m.sound(),
    ensures
        m.take_name(token, name, now).sound(),
{
    lemma_bind_keeps(m, token, name);
    let named = m.bind(token, name).mark_seen(token, name, now.instant);
    lemma_same_books(m.bind(token, name), named);
    let governs = named.tokens[token].governor_id is Some;
    let linked = match named.tokens[token].governor_id {
        Some(g) => HubModel { trust: named.trust.link(g, token), ..named },
        None => named,
    };
    lemma_same_books(named, linked);
    let role = if governs {
        linked.tell_role(name)
    } else {
        linked
    };
    lemma_deliver_keeps(linked, name, listen::role_message());
    let hushed = if governs {
        role.hush(name)
    } else {
        role
    };
    let bell = if governs {
        role.bell(name)
    } else {
        None
    };
    let back = hushed.cancel_settle(name);
    lemma_same_books(role, back);
    let told = back.store_binding(token, name).push(
        bell,
        events::notify(back.queue(name).len()),
    );
    lemma_same_books(back, told);
    lemma_push_all_keeps(told, back.audience(name, now), events::presence("online"@, name));
    lemma_same_books(told, m.take_name(token, name, now));
}

/// Revoking a token keeps the books sound.
pub proof fn law_revoke_sound(m: HubModel, token: Seq<char>, governor: Seq<char>, now: Moment)
    requires
        m.sound(),
    ensures
        m.revoke_token(token, governor, now).0.sound(),
{
    lemma_same_books(m, m.revoke_token(token, governor, now).0);
}

/// Revoking all that a name has keeps the books sound.
pub proof fn law_revoke_name_sound(m: HubModel, name: Seq<char>, governor: Seq<char>, now: Moment)
    requires
        m.sound(),
    ensures
        m.revoke_by_name(name, governor, now).0.sound(),
{
    reveal(HubModel::sound);
    let gone = m.begin_settle(name, now).expunge(name);
    assert forall|k: Seq<char>| #[trigger] gone.kick_pending.contains(k) == (gone.queue(k).len() > 0) by {
        assert(m.kick_pending.contains(k) == (m.queue(k).len() > 0));
    }
    assert(gone.sound());
    if m.token_of(name) is Some {
        lemma_same_books(gone, gone.revoke(m.token_of(name)->0));
    }
}

/// Hiding and showing keep the books sound.
pub proof fn law_hidden_sound(m: HubModel, token: Seq<char>, hidden: bool)
    requires
        m.sound(),
    ensures
        m.set_hidden(token, hidden).0.sound(),
{
    lemma_same_books(m, m.set_hidden(token, hidden).0);
}

/// Counting streams by name keeps the books sound.
pub proof fn law_sse_sound(m: HubModel, name: Seq<char>)
    requires
        m.sound(),
    ensures
        m.sse_open(name).sound(),
        m.sse_close(name).sound(),
{
    lemma_same_books(m, m.sse_open(name));
    lemma_same_books(m, m.sse_close(name));
}

/// Whatever changes only who is trusted, who is registered, who is in which room, what is to be
/// done outside, or how long a settle window is, keeps the books sound.
pub proof fn law_rest_sound(m: HubModel, after: HubModel)
    requires
        m.sound(),
        after == (HubModel {
            trust: after.trust,
            registry: after.registry,
            rooms: after.rooms,
            outbox: after.outbox,
            settle_window: after.settle_window,
            ..m
        }),
    ensures
        after.sound(),
{
    lemma_same_books(m, after);
}

// ── Messages ─────────────────────────────────────────────────────────────────

proof fn lemma_delivered_keeps(before: HubModel, m: HubModel, name: Seq<char>, msg: MessageView, after: HubModel)
    requires
        before.sound(),
        same_books(before, m),
        same_books(m.deliver(name, msg), after),
    ensures
        after.sound(),
{
    lemma_same_books(before, m);
    lemma_deliver_keeps(m, name, msg);
    lemma_same_books(m.deliver(name, msg), after);
}

proof fn lemma_hint_keeps(m: HubModel, from: Seq<char>, to: Seq<char>)
    requires
        m.sound(),
    ensures
        m.hint(from, to).sound(),
{
    lemma_delivered_keeps(
        m,
        m,
        from,
        model::system_message(events::no_grant_hint(to), "no_grant"@),
        m.deliver(from, model::system_message(events::no_grant_hint(to), "no_grant"@)).ring(from),
    );
}

proof fn lemma_pass_keeps(
    m: HubModel,
    grant: GrantRefView,
    token: Seq<char>,
    from: Seq<char>,
    to: Seq<char>,
    payload: Seq<u8>,
    thread: Option<Seq<char>>,
    now: Moment,
)
    requires
        m.sound(),
        m.med_counter < u64::MAX,
    ensures
        m.pass(grant, token, from, to, payload, thread, now).0.sound(),
{
    reveal(HubModel::sound);
    let after = m.pass(grant, token, from, to, payload, thread, now).0;
    match grant.mediation {
        GrantMediation::Inspect => {
            if m.trust.online(grant.governor_id, now.instant) {
                laws::trust::law_number_reads_back("med"@, (m.med_counter + 1) as u64);
                assert forall|i: int| 0 <= i < after.holds.len() implies held_under(
                    (#[trigger] after.holds[i]).mediation_id,
                    after.med_counter,
                ) by {
                    if i < m.holds.len() {
                        assert(held_under(m.holds[i].mediation_id, m.med_counter));
                    }
                }
                assert forall|i: int, j: int| 0 <= i < j < after.holds.len() implies (
                #[trigger] after.holds[i]).mediation_id != (#[trigger] after.holds[j]).mediation_id by {
                    assert(held_under(m.holds[i].mediation_id, m.med_counter));
                }
                lemma_same_books(
                    m,
                    HubModel { holds: m.holds, med_counter: m.med_counter, ..after },
                );
                assert(after.names_known());
                assert forall|k: Seq<char>| #[trigger] after.kick_pending.contains(k) == (after.queue(
                    k,
                ).len() > 0) by {
                    assert(m.kick_pending.contains(k) == (m.queue(k).len() > 0));
                }
            }
        },
        _ => {
            lemma_delivered_keeps(
                m,
                m.spend(grant.id),
                to,
                messaging::plain_message(payload, from, thread),
                after,
            );
        },
    }
}

proof fn lemma_answer_keeps(m: HubModel, from: Seq<char>, to: Seq<char>, msg: MessageView, now: Moment)
    requires
        m.sound(),
    ensures
        m.answer(from, to, msg, now).sound(),
{
    let i = choose|i: int| m.window_at(from, to, now.instant, i);
    let used = HubModel {
        windows: m.windows.update(i, WindowView { used: true, ..m.windows[i] }),
        ..m
    };
    lemma_delivered_keeps(m, used, to, msg, m.answer(from, to, msg, now));
}

/// Sending a message, to a name or to a token, keeps the books sound.
pub proof fn law_send_sound(
    m: HubModel,
    token: Seq<char>,
    to: Seq<char>,
    payload: Seq<u8>,
    thread: Option<Seq<char>>,
    now: Moment,
)
    requires
        m.sound(),
        m.med_counter < u64::MAX,
    ensures
        m.send(token, to, payload, thread, now).0.sound(),
        m.send_to_token(token, to, payload, thread, now).0.sound(),
{
    lemma_send_keeps(m, token, to, payload, thread, now);
    if m.addressee(to) is Ok {
        lemma_send_keeps(m, token, m.addressee(to)->Ok_0, payload, thread, now);
    }
}

proof fn lemma_send_keeps(
    m: HubModel,
    token: Seq<char>,
    to: Seq<char>,
    payload: Seq<u8>,
    thread: Option<Seq<char>>,
    now: Moment,
)
    requires
        m.sound(),
        m.med_counter < u64::MAX,
    ensures
        m.send(token, to, payload, thread, now).0.sound(),
{
    let pruned = m.prune(now.instant);
    lemma_prune_keeps(m, now);
    match pruned.sender(token) {
        Err(_) => {},
        Ok(from) => {
            if !pruned.denied(token, to, now) {
                let asked = pruned.forget_block(token, to);
                lemma_same_books(pruned, asked);
                if asked.agents.contains_key(to) {
                    let ask = Ask {
                        from: token,
                        to: asked.agents[to],
                        from_name: Some(from),
                        to_name: Some(to),
                    };
                    match asked.trust.check(ask, now.instant) {
                        Ok(grant) => {
                            lemma_pass_keeps(asked, grant, token, from, to, payload, thread, now);
                        },
                        Err(_) => {
                            lemma_answer_keeps(
                                asked,
                                from,
                                to,
                                messaging::plain_message(payload, from, thread),
                                now,
                            );
                            lemma_hint_keeps(asked, from, to);
                        },
                    }
                }
            }
        },
    }
}

/// A governor's decision on a held message keeps the books sound.
pub proof fn law_resolve_sound(
    m: HubModel,
    governor: Seq<char>,
    id: Seq<char>,
    decision: DecisionView,
    now: Moment,
)
    requires
        m.sound(),
    ensures
        m.resolve(governor, id, decision, now).0.sound(),
{
    let pruned = m.prune(now.instant);
    lemma_prune_keeps(m, now);
    if exists|i: int| pruned.hold_at(id, now.instant, i) {
        let i = choose|i: int| pruned.hold_at(id, now.instant, i);
        assert(pruned.hold_at(id, now.instant, i));
        match pruned.holds[i].grant_id {
            Some(gid) => {
                if pruned.trust.grant(gid) is Some {
                    let opens = (pruned.trust.grant(gid)->0).opens_reply_window;
                    lemma_settle_hold_keeps(pruned, i, decision, opens, Some(gid), now);
                }
            },
            None => {
                lemma_settle_hold_keeps(pruned, i, decision, true, None, now);
            },
        }
    }
}

proof fn lemma_settle_hold_keeps(
    m: HubModel,
    i: int,
    decision: DecisionView,
    opens: bool,
    grant_id: Option<Seq<char>>,
    now: Moment,
)
    requires
        m.sound(),
        0 <= i < m.holds.len(),
    ensures
        m.settle_hold(i, decision, opens, grant_id, now).0.sound(),
{
    reveal(HubModel::sound);
    let hold = m.holds[i];
    let done = HubModel { holds: m.holds.update(i, HoldView { resolved: true, ..hold }), ..m };
    let after = m.settle_hold(i, decision, opens, grant_id, now).0;
    assert forall|j: int| 0 <= j < done.holds.len() implies (
    #[trigger] done.holds[j]).mediation_id == m.holds[j].mediation_id by {}
    lemma_same_books(m, HubModel { holds: m.holds, ..done });
    assert(done.names_known());
    assert forall|k: Seq<char>| #[trigger] done.kick_pending.contains(k) == (done.queue(k).len() > 0) by {
        assert(m.kick_pending.contains(k) == (m.queue(k).len() > 0));
    }
    assert(done.sound());
    if decision is Block || !m.agents.contains_key(hold.to_name) {
        lemma_same_books(done, after);
    } else {
        let msg = MessageView {
            payload: match decision {
                DecisionView::Modify(p) => p,
                _ => hold.payload,
            },
            from_name: hold.from_name,
            reason: Some(hold.reason),
            event_type: None,
            thread_id: None,
        };
        lemma_delivered_keeps(done, done, hold.to_name, msg, after);
    }
}

proof fn lemma_fetch_keeps(m: HubModel, token: Seq<char>, thread: Option<Seq<char>>, now: Moment)
    requires
        m.sound(),
    ensures
        m.fetch(token, thread, now.instant).0.sound(),
{
    reveal(HubModel::sound);
    match m.reader(token) {
        Ok(Some(name)) => {
            let st = ListenView {
                last_active: now.instant,
                notify_suppressed: false,
                ..m.tokens[token]
            };
            let read = m.set_token(token, st);
            lemma_same_books(m, read);
            let popped = read.pop(name).0;
            assert forall|k: Seq<char>| #[trigger] popped.kick_pending.contains(k) == (popped.queue(k).len() > 0) by {
                assert(read.kick_pending.contains(k) == (read.queue(k).len() > 0));
            }
            assert(popped.sound());
            if thread is Some {
                let q = read.queue(name);
                let t = thread->0;
                let threaded = read.pop_thread(name, t).0;
                assert forall|k: Seq<char>| #[trigger] threaded.kick_pending.contains(k) == (threaded.queue(k).len() > 0) by {
                    assert(read.kick_pending.contains(k) == (read.queue(k).len() > 0));
                    if exists|i: int| HubModel::thread_at(q, t, i) {
                        let i = choose|i: int| HubModel::thread_at(q, t, i);
                        assert(HubModel::thread_at(q, t, i));
                    }
                }
                assert(threaded.sound());
            }
        },
        Ok(None) => {
            lemma_same_books(m, m.touch(token, now.instant));
        },
        Err(_) => {},
    }
}

/// Fetching a message keeps the books sound.
pub proof fn law_fetch_sound(m: HubModel, token: Seq<char>, thread: Option<Seq<char>>, now: Moment)
    requires
        m.sound(),
    ensures
        m.dequeue(token, thread, now).0.sound(),
{
    law_gc_sound(m, now);
    lemma_fetch_keeps(m.gc(now), token, thread, now);
}

/// Fetching all messages keeps the books sound.
pub proof fn law_drain_sound(m: HubModel, token: Seq<char>, thread: Option<Seq<char>>)
    requires
        m.sound(),
    ensures
        m.drain(token, thread).0.sound(),
{
    reveal(HubModel::sound);
    let drained = m.drain(token, thread).0;
    assert forall|k: Seq<char>| #[trigger] drained.kick_pending.contains(k) == (drained.queue(k).len() > 0) by {
        assert(m.kick_pending.contains(k) == (m.queue(k).len() > 0));
    }
}

/// Telling a recipient of an attachment keeps the books sound.
pub proof fn law_attached_sound(m: HubModel, a: NewAttachmentView, size: nat, note: Option<Seq<char>>)
    requires
        m.sound(),
    ensures
        m.attached(a, size, note).sound(),
{
    let msg = MessageView {
        payload: vstd::utf8::encode_utf8(
            events::attachment_notice(a.id, a.filename, a.mime, size as u64, a.from_name, note),
        ),
        from_name: a.from_name,
        reason: None,
        event_type: Some("attachment"@),
        thread_id: None,
    };
    lemma_delivered_keeps(m, m, a.to_name, msg, m.attached(a, size, note));
}

// ── Grants ───────────────────────────────────────────────────────────────────

proof fn lemma_file_request_same(
    m: HubModel,
    token: Seq<char>,
    from: Seq<char>,
    to: Seq<char>,
    reason: Option<Seq<char>>,
    update_id: Option<Seq<char>>,
    now: Moment,
)
    ensures
        same_books(m, m.file_request(token, from, to, reason, update_id, now.instant).0),
{
}

proof fn lemma_announce_request_keeps(
    m: HubModel,
    id: Seq<char>,
    from: Seq<char>,
    to: Seq<char>,
    reason: Option<Seq<char>>,
)
    requires
        m.sound(),
    ensures
        m.announce_request(id, from, to, reason).sound(),
{
    let after = m.announce_request(id, from, to, reason);
    if m.trust.governed() {
        lemma_same_books(m, after);
    } else {
        lemma_delivered_keeps(
            m,
            m,
            to,
            model::system_message(events::consent_request(id, from, reason), "grant_request"@),
            after,
        );
    }
}

/// Asking for a grant keeps the books sound.
pub proof fn law_request_sound(
    m: HubModel,
    token: Seq<char>,
    to: Seq<char>,
    reason: Option<Seq<char>>,
    update_id: Option<Seq<char>>,
    now: Moment,
)
    requires
        m.sound(),
    ensures
        m.request_grant(token, to, reason, update_id, now).0.sound(),
{
    let asked = m.forget_block(token, to);
    lemma_same_books(m, asked);
    let from = match m.name_of(token) {
        Some(n) => n,
        None => seq![],
    };
    lemma_file_request_same(asked, token, from, to, reason, update_id, now);
    let (filed, r) = asked.file_request(token, from, to, reason, update_id, now.instant);
    lemma_same_books(asked, filed);
    if r is Ok {
        lemma_announce_request_keeps(filed, r->Ok_0, from, to, reason);
    }
}

proof fn lemma_conclude_keeps(
    m: HubModel,
    id: Seq<char>,
    req: RequestView,
    authority: Seq<char>,
    grant_id: Seq<char>,
    expires_at: Option<SystemTime>,
)
    requires
        m.sound(),
    ensures
        m.conclude(id, req, authority, grant_id, expires_at).sound(),
{
    let msg = model::system_message(
        events::grant_established(id, req.to_name),
        "grant_established"@,
    );
    let told = m.deliver(req.from_name, msg);
    lemma_deliver_keeps(m, req.from_name, msg);
    let hushed = told.hush(req.from_name);
    lemma_same_books(told, hushed);
    let one = hushed.mark_granted(req.from_identity);
    lemma_same_books(hushed, one);
    let both = one.mark_granted(req.to_identity);
    lemma_same_books(one, both);
    lemma_same_books(both, m.conclude(id, req, authority, grant_id, expires_at));
}

/// Approving a request keeps the books sound.
pub proof fn law_approval_sound(
    m: HubModel,
    token: Seq<char>,
    id: Seq<char>,
    expiry: Option<Duration>,
    now: Moment,
)
    requires
        m.sound(),
    ensures
        m.approve_request(token, id, expiry, now).0.sound(),
{
    lemma_same_books(m, m.drop_request(id));
    if m.requests.contains_key(id) && !m.lapsed(id, now) {
        lemma_pass_on_keeps(m, id, m.requests[id], token, expiry, now);
        lemma_consent_keeps(m, id, m.requests[id], expiry, now);
    }
}

/// Denying a request keeps the books sound.
pub proof fn law_denial_sound(
    m: HubModel,
    token: Seq<char>,
    id: Seq<char>,
    reason: Seq<char>,
    expires_at: Option<u64>,
    now: Moment,
)
    requires
        m.sound(),
    ensures
        m.deny_request(token, id, reason, expires_at, now).0.sound(),
{
    lemma_same_books(m, m.drop_request(id));
    if m.requests.contains_key(id) && !m.lapsed(id, now) {
        lemma_deny_keeps(m, token, id, reason, expires_at, now);
    }
}

/// Holding a request keeps the books sound.
pub proof fn law_held_request_sound(
    m: HubModel,
    token: Seq<char>,
    id: Seq<char>,
    reason: Seq<char>,
    now: Moment,
)
    requires
        m.sound(),
    ensures
        m.hold_request(token, id, reason, now).0.sound(),
{
    lemma_same_books(m, m.drop_request(id));
    if m.requests.contains_key(id) && !m.lapsed(id, now) {
        lemma_hold_keeps(m, token, id, reason, now);
    }
}

proof fn lemma_pass_on_keeps(
    m: HubModel,
    id: Seq<char>,
    req: RequestView,
    governor: Seq<char>,
    expiry: Option<Duration>,
    now: Moment,
)
    requires
        m.sound(),
    ensures
        m.pass_on(id, req, governor, expiry, now.instant).sound(),
{
    let passed = RequestView {
        governor_expiry: expiry,
        approving_governor: Some(governor),
        stage: ConnectionStage::PendingRecipient,
        expires_at: (now.instant + GRANT_REQUEST_TIMEOUT) as Instant,
        ..req
    };
    lemma_delivered_keeps(
        m,
        HubModel { requests: m.requests.insert(id, passed), ..m },
        req.to_name,
        model::system_message(
            events::recipient_request(id, req.from_name, req.reason),
            "grant_request"@,
        ),
        m.pass_on(id, req, governor, expiry, now.instant),
    );
}

proof fn lemma_consent_keeps(m: HubModel, id: Seq<char>, req: RequestView, expiry: Option<Duration>, now: Moment)
    requires
        m.sound(),
    ensures
        m.consent(id, req, expiry, now).0.sound(),
{
    match req.approving_governor {
        None => {
            lemma_same_books(m, m.consent(id, req, expiry, now).0);
        },
        Some(authority) => {
            let terms = Terms {
                name_a: Some(req.from_name),
                name_b: Some(req.to_name),
                ..Terms::open_terms()
            };
            let until = grants::sooner(req.governor_expiry, expiry);
            let granted = m.trust.granted(
                authority,
                req.from_identity,
                req.to_identity,
                until,
                terms,
                now.instant,
            );
            let (approved, r) = m.trust.approve(
                authority,
                req.from_identity,
                req.to_identity,
                until,
                terms,
                now.instant,
            );
            lemma_same_books(m, HubModel { requests: m.requests.remove(id), ..m });
            lemma_same_books(m, HubModel { trust: granted, ..m });
            lemma_same_books(m, HubModel { trust: approved, ..m });
            lemma_conclude_keeps(
                HubModel { trust: granted, ..m },
                id,
                req,
                authority,
                m.trust.next("grant"@),
                crate::delivery::governance::wall_end(now, until),
            );
            if r is Ok {
                lemma_conclude_keeps(
                    HubModel { trust: approved, ..m },
                    id,
                    req,
                    authority,
                    r->Ok_0,
                    crate::delivery::governance::wall_end(now, until),
                );
            }
        },
    }
}

proof fn lemma_deny_keeps(
    m: HubModel,
    token: Seq<char>,
    id: Seq<char>,
    reason: Seq<char>,
    expires_at: Option<u64>,
    now: Moment,
)
    requires
        m.sound(),
        m.requests.contains_key(id),
        !m.lapsed(id, now),
    ensures
        m.deny_request(token, id, reason, expires_at, now).0.sound(),
{
    let req = m.requests[id];
    if m.is_governor(token, now) || m.is_recipient(token, req) {
        lemma_delivered_keeps(
            m,
            HubModel {
                blocks: m.blocks.insert(
                    (req.from_identity, req.to_name),
                    BlockView { reason, expires_at },
                ),
                requests: m.requests.remove(id),
                ..m
            },
            req.from_name,
            model::system_message(
                events::grant_denied(id, req.to_name, reason),
                "grant_denied"@,
            ),
            m.deny_request(token, id, reason, expires_at, now).0,
        );
    }
}

proof fn lemma_hold_keeps(m: HubModel, token: Seq<char>, id: Seq<char>, reason: Seq<char>, now: Moment)
    requires
        m.sound(),
        m.requests.contains_key(id),
        !m.lapsed(id, now),
    ensures
        m.hold_request(token, id, reason, now).0.sound(),
{
    let req = m.requests[id];
    if m.is_governor(token, now) || m.is_recipient(token, req) {
        let held = RequestView { stage: ConnectionStage::PendingGovernor, ..req };
        lemma_delivered_keeps(
            m,
            HubModel { requests: m.requests.insert(id, held), ..m },
            req.from_name,
            model::system_message(events::grant_held(id, req.to_name, reason), "grant_held"@),
            m.hold_request(token, id, reason, now).0,
        );
    }
}

/// Granting outright keeps the books sound.
pub proof fn law_grant_sound(
    m: HubModel,
    governor: Seq<char>,
    a: Seq<char>,
    b: Seq<char>,
    expiry: Option<Duration>,
    terms: Terms,
    now: Moment,
)
    requires
        m.sound(),
    ensures
        m.approve_grant(governor, a, b, expiry, terms, now).0.sound(),
{
    lemma_same_books(m, m.approve_grant(governor, a, b, expiry, terms, now).0);
}

/// Blocking outright keeps the books sound.
pub proof fn law_block_sound(
    m: HubModel,
    governor: Seq<char>,
    from: Seq<char>,
    to: Seq<char>,
    reason: Seq<char>,
    expires_at: Option<u64>,
    now: Moment,
)
    requires
        m.sound(),
    ensures
        m.block(governor, from, to, reason, expires_at, now).0.sound(),
{
    lemma_same_books(m, m.block(governor, from, to, reason, expires_at, now).0);
}

/// Lifting a block keeps the books sound.
pub proof fn law_unblock_sound(m: HubModel, token: Seq<char>, from: Seq<char>, to: Seq<char>, now: Moment)
    requires
        m.sound(),
    ensures
        m.unblock(token, from, to, now).0.sound(),
{
    lemma_same_books(m, m.unblock(token, from, to, now).0);
}

/// Revoking a grant keeps the books sound.
pub proof fn law_revoked_grant_sound(m: HubModel, id: Seq<char>, governor: Seq<char>, now: Moment)
    requires
        m.sound(),
    ensures
        m.revoke_grant(id, governor, now).0.sound(),
{
    lemma_same_books(m, m.revoke_grant(id, governor, now).0);
}

// ── Governorship ─────────────────────────────────────────────────────────────

proof fn lemma_call_vote_keeps(m: HubModel, voters: Seq<Seq<char>>, claim_id: Seq<char>, candidate: Seq<char>)
    requires
        m.sound(),
    ensures
        m.call_vote(voters, claim_id, candidate).sound(),
    decreases voters.len(),
{
    if voters.len() > 0 {
        let before = m.call_vote(voters.drop_last(), claim_id, candidate);
        lemma_call_vote_keeps(m, voters.drop_last(), claim_id, candidate);
        lemma_delivered_keeps(
            before,
            before,
            voters.last(),
            model::system_message(events::election_request(claim_id, candidate), "governance"@),
            m.call_vote(voters, claim_id, candidate),
        );
    }
}

/// Claiming the governorship keeps the books sound.
pub proof fn law_claim_sound(m: HubModel, token: Seq<char>, expiry: Option<Duration>, now: Moment)
    requires
        m.sound(),
    ensures
        m.claim(token, expiry, now).0.sound(),
{
    if m.token_to_name.contains_key(token) {
        let name = m.token_to_name[token];
        let counted = HubModel { claim_counter: (m.claim_counter + 1) as u64, ..m };
        lemma_same_books(m, counted);
        let voters = counted.voters(name);
        let after = m.claim(token, expiry, now).0;
        if counted.trust.governed() || voters.len() == 0 {
            lemma_same_books(counted, after);
        } else {
            lemma_call_vote_keeps(counted, voters, m.next_claim(), name);
            lemma_same_books(counted.call_vote(voters, m.next_claim(), name), after);
        }
    }
}

proof fn lemma_establish_keeps(m: HubModel, id: Seq<char>, claim: ClaimView, now: Moment)
    requires
        m.sound(),
    ensures
        m.establish(id, claim, now).sound(),
{
    let cleared = if claim.kind is Transfer {
        m.trust.revoke_all()
    } else {
        m.trust
    };
    let won = m.won(id, claim, now);
    lemma_delivered_keeps(
        m,
        HubModel { trust: cleared.install(None, now.instant), ..m.drop_claim(id) },
        claim.candidate_name,
        model::system_message(
            events::governorship_granted(id, m.trust.next("gov"@)),
            "governance"@,
        ),
        won,
    );
    governance::lemma_rows_keep(won, m.outgoing(claim));
    lemma_same_books(won, won.drop_rows(m.outgoing(claim)));
    lemma_same_books(won.drop_rows(m.outgoing(claim)), m.establish(id, claim, now));
}

/// A vote on a claim keeps the books sound.
pub proof fn law_respond_sound(m: HubModel, approver: Seq<char>, id: Seq<char>, approve: bool, now: Moment)
    requires
        m.sound(),
    ensures
        m.respond(approver, id, approve, now).0.sound(),
{
    lemma_same_books(m, m.drop_claim(id));
    if m.claims.contains_key(id) {
        let claim = m.claims[id];
        let dropped = m.drop_claim(id);
        lemma_delivered_keeps(
            m,
            dropped,
            claim.candidate_name,
            model::system_message(events::claim_rejected(id), "governance"@),
            dropped.tell_candidate(claim.candidate_name, events::claim_rejected(id)).ring(
                claim.candidate_name,
            ),
        );
        lemma_establish_keeps(m, id, claim, now);
        match m.ballot(claim, approver, now.instant) {
            Some(key) => {
                let approved = claim.approved.insert(key);
                lemma_same_books(
                    m,
                    HubModel {
                        claims: m.claims.insert(id, ClaimView { approved, ..claim }),
                        ..m
                    },
                );
            },
            None => {},
        }
    }
}

/// Installing a governor keeps the books sound.
pub proof fn law_install_sound(m: HubModel, expiry: Option<Duration>, now: Moment)
    requires
        m.sound(),
    ensures
        m.install(expiry, now).sound(),
{
    lemma_same_books(m, m.install(expiry, now));
}

/// Taking up a transfer keeps the books sound.
pub proof fn law_accept_sound(m: HubModel, bearer: Seq<char>, token: Seq<char>)
    requires
        m.sound(),
    ensures
        m.accept_transfer(bearer, token).0.sound(),
{
    lemma_same_books(m, m.accept_transfer(bearer, token).0);
}

/// A new token for a governor keeps the books sound.
pub proof fn law_refresh_sound(m: HubModel, token: Seq<char>, now: Moment)
    requires
        m.sound(),
    ensures
        m.refresh(token, now).0.sound(),
{
    lemma_same_books(m, m.refresh(token, now).0);
}

/// The operator's reset keeps the books sound.
pub proof fn law_reset_sound(m: HubModel, revoked: Seq<Seq<char>>, new_token: Seq<char>, now: Moment)
    requires
        m.sound(),
    ensures
        m.reset_trust(now).store(StoreWriteView::ResetGovernors { revoked, new_token }).sound(),
{
    lemma_same_books(
        m,
        m.reset_trust(now).store(StoreWriteView::ResetGovernors { revoked, new_token }),
    );
}

// ── The start ────────────────────────────────────────────────────────────────

proof fn lemma_load_participants_keeps(m: HubModel, rows: Seq<TokenRow>, now: Instant)
    requires
        m.sound(),
    ensures
        m.load_participants(rows, now).sound(),
    decreases rows.len(),
{
    reveal(HubModel::sound);
    if rows.len() > 0 {
        let before = m.load_participants(rows.drop_last(), now);
        lemma_load_participants_keeps(m, rows.drop_last(), now);
        let row = rows.last();
        let after = before.load_participant(row, now);
        if start::stored_name(row) is Some {
            lemma_bind_keeps(before, row.token, start::stored_name(row)->0);
        }
        assert forall|k: Seq<char>| #[trigger] after.kick_pending.contains(k) == (after.queue(k).len() > 0) by {
            assert(before.kick_pending.contains(k) == (before.queue(k).len() > 0));
        }
    }
}

proof fn lemma_load_blocks_same(m: HubModel, rows: Seq<DenialRow>)
    ensures
        same_books(m, m.load_blocks(rows)),
    decreases rows.len(),
{
    if rows.len() > 0 {
        lemma_load_blocks_same(m, rows.drop_last());
    }
}

/// The books of a new hub are sound.
pub proof fn law_new_sound(lapse_after: Duration, settings: Settings)
    ensures
        HubModel::empty(lapse_after, settings).sound(),
{
    reveal(HubModel::sound);
}

/// The books of a hub are sound, whatever rows of a token store it is taken up from.
pub proof fn law_start_sound(
    lapse_after: Duration,
    settings: Settings,
    trust: TrustModel,
    names: Seq<Seq<char>>,
    tokens: Seq<TokenRow>,
    blocks: Seq<DenialRow>,
    now: Instant,
)
    ensures
        (HubModel {
            trust,
            persistent: true,
            ..HubModel::empty(lapse_after, settings)
        }).load_identities(names).load_participants(tokens, now).load_blocks(blocks).sound(),
{
    let empty = HubModel { trust, persistent: true, ..HubModel::empty(lapse_after, settings) };
    let known = empty.load_identities(names);
    assert(known.sound()) by {
        reveal(HubModel::sound);
    }
    lemma_load_participants_keeps(known, tokens, now);
    let loaded = known.load_participants(tokens, now);
    lemma_load_blocks_same(loaded, blocks);
    lemma_same_books(loaded, loaded.load_blocks(blocks));
}

} // verus!
