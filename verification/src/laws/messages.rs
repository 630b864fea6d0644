//! Laws of sending and fetching.

use crate::clock;
use crate::clock::{Instant, Moment};
use crate::delivery::messaging;
use crate::delivery::model::HubModel;
use crate::delivery::{AckView, DecisionView, MediationResultView, WindowView};
use crate::error::ErrorView;
use crate::trust::{Ask, GrantRefView};
use crate::types::MessageView;
use vstd::prelude::*;

verus! {

// ── Order ────────────────────────────────────────────────────────────────────

/// Messages reach a queue one after the other.
pub open spec fn delivered(m: HubModel, name: Seq<char>, msgs: Seq<MessageView>) -> HubModel
    decreases msgs.len(),
{
    if msgs.len() == 0 {
        m
    } else {
        delivered(m, name, msgs.drop_last()).deliver(name, msgs.last())
    }
}

/// `n` messages are fetched one after the other.
pub open spec fn fetched(m: HubModel, name: Seq<char>, n: nat) -> (HubModel, Seq<Option<MessageView>>)
    decreases n,
{
    if n == 0 {
        (m, seq![])
    } else {
        let (before, got) = fetched(m, name, (n - 1) as nat);
        let (after, msg) = before.pop(name);
        (after, got.push(msg))
    }
}

proof fn lemma_delivered_queue(m: HubModel, name: Seq<char>, msgs: Seq<MessageView>)
    ensures
        delivered(m, name, msgs).queue(name) == m.queue(name) + msgs,
    decreases msgs.len(),
{
    if msgs.len() > 0 {
        lemma_delivered_queue(m, name, msgs.drop_last());
        assert(m.queue(name) + msgs =~= (m.queue(name) + msgs.drop_last()).push(msgs.last()));
    } else {
        assert(m.queue(name) + msgs =~= m.queue(name));
    }
}

proof fn lemma_fetched_prefix(m: HubModel, name: Seq<char>, n: nat)
    requires
        n <= m.queue(name).len(),
    ensures
        fetched(m, name, n).1 == Seq::new(n, |i: int| Some(m.queue(name)[i])),
        fetched(m, name, n).0.queue(name) == m.queue(name).skip(n as int),
    decreases n,
{
    if n > 0 {
        lemma_fetched_prefix(m, name, (n - 1) as nat);
        let (before, got) = fetched(m, name, (n - 1) as nat);
        let q = m.queue(name);
        assert(before.queue(name)[0] == q[n - 1]);
        assert(before.queue(name).drop_first() =~= q.skip(n as int));
        assert(before.queues.contains_key(name));
        assert(got.push(Some(q[n - 1])) =~= Seq::new(n, |i: int| Some(q[i])));
    } else {
        assert(m.queue(name).skip(0) =~= m.queue(name));
        assert(fetched(m, name, 0).1 =~= Seq::new(0, |i: int| Some(m.queue(name)[i])));
    }
}

/// Messages are fetched in the order in which they came, each once, and then no more.
pub proof fn law_first_in_first_out(m: HubModel, name: Seq<char>, msgs: Seq<MessageView>)
    requires
        m.queue(name).len() == 0,
    ensures
        fetched(delivered(m, name, msgs), name, msgs.len()).1 == Seq::new(
            msgs.len(),
            |i: int| Some(msgs[i]),
        ),
        fetched(delivered(m, name, msgs), name, msgs.len()).0.pop(name).1 is None,
{
    lemma_delivered_queue(m, name, msgs);
    let after = delivered(m, name, msgs);
    assert(after.queue(name) =~= msgs);
    lemma_fetched_prefix(after, name, msgs.len());
}

/// Messages wait for a name as long as its queue is not empty, and the mark that they do is kept
/// by delivering and fetching.
pub proof fn law_mark_follows_queue(m: HubModel, name: Seq<char>, msg: MessageView)
    requires
        m.kick_pending.contains(name) <==> m.queue(name).len() > 0,
    ensures
        m.deliver(name, msg).kick_pending.contains(name),
        m.deliver(name, msg).queue(name).len() > 0,
        m.pop(name).0.kick_pending.contains(name) <==> m.pop(name).0.queue(name).len() > 0,
{
}

/// A message is counted for the token that its recipient's name is bound to.
pub proof fn law_message_counted(m: HubModel, name: Seq<char>, msg: MessageView, token: Seq<char>)
    requires
        m.token_of(name) == Some(token),
        m.tokens[token].msg_id < u64::MAX,
    ensures
        m.deliver(name, msg).tokens[token].msg_id == m.tokens[token].msg_id + 1,
{
}

// ── Who reaches whom ─────────────────────────────────────────────────────────

/// A message goes to the one it is meant for and to nobody else. Where it is accepted it is the
/// last in the recipient's queue, as it was sent; where it waits for the governor no queue
/// changes; where it is refused no queue changes but the sender's own, which may get a hint.
pub proof fn law_one_to_one(
    m: HubModel,
    token: Seq<char>,
    to: Seq<char>,
    payload: Seq<u8>,
    thread: Option<Seq<char>>,
    now: Moment,
    other: Seq<char>,
)
    ensures
        ({
            let (after, r) = m.send(token, to, payload, thread, now);
            let from = m.token_to_name[token];
            match r {
                Ok(AckView::Accepted) => {
                    &&& after.queue(to) == m.queue(to).push(
                        messaging::plain_message(payload, from, thread),
                    )
                    &&& other != to ==> after.queue(other) == m.queue(other)
                },
                Ok(AckView::PendingMediation { .. }) => after.queue(other) == m.queue(other),
                Err(_) => other != from ==> after.queue(other) == m.queue(other),
            }
        }),
{
}

/// Without a grant that covers the pair, has not expired and is not spent, and without a window
/// for a reply, no message passes, and the recipient's queue stays as it is.
pub proof fn law_no_grant_no_message(
    m: HubModel,
    token: Seq<char>,
    to: Seq<char>,
    payload: Seq<u8>,
    thread: Option<Seq<char>>,
    now: Moment,
)
    requires
        m.token_to_name.contains_key(token),
        m.agents.contains_key(to),
        m.trust.check(
            Ask {
                from: token,
                to: m.agents[to],
                from_name: Some(m.token_to_name[token]),
                to_name: Some(to),
            },
            now.instant,
        ) is Err,
        forall|i: int|
            0 <= i < m.windows.len() ==> !(#[trigger] m.windows[i]).lets(
                m.token_to_name[token],
                to,
                now.instant,
            ),
    ensures
        m.send(token, to, payload, thread, now).1 is Err,
{
    let pruned = m.prune(now.instant);
    let p = |w: WindowView| w.expires > now.instant;
    assert forall|i: int| 0 <= i < pruned.windows.len() implies !(
    #[trigger] pruned.windows[i]).lets(m.token_to_name[token], to, now.instant) by {
        m.windows.lemma_filter_contains_rev(p, pruned.windows[i]);
        let j = choose|j: int| 0 <= j < m.windows.len() && m.windows[j] == pruned.windows[i];
        assert(!m.windows[j].lets(m.token_to_name[token], to, now.instant));
    }
}

/// A grant that lets a message pass without the governor's say does so whether or not the
/// recipient is online; it is queued.
pub proof fn law_granted_message_accepted(
    m: HubModel,
    token: Seq<char>,
    to: Seq<char>,
    payload: Seq<u8>,
    thread: Option<Seq<char>>,
    now: Moment,
    grant: GrantRefView,
)
    requires
        m.sender(token) is Ok,
        !m.denied(token, to, now),
        m.agents.contains_key(to),
        m.trust.check(
            Ask {
                from: token,
                to: m.agents[to],
                from_name: Some(m.token_to_name[token]),
                to_name: Some(to),
            },
            now.instant,
        ) == Ok::<GrantRefView, ErrorView>(grant),
        !(grant.mediation is Inspect),
    ensures
        m.send(token, to, payload, thread, now).1 == Ok::<AckView, ErrorView>(AckView::Accepted),
{
}

/// A denial overrides every grant and every window: the sender is told the reason and nothing
/// else happens than that what has expired is forgotten.
pub proof fn law_denial_overrides(
    m: HubModel,
    token: Seq<char>,
    to: Seq<char>,
    payload: Seq<u8>,
    thread: Option<Seq<char>>,
    reason: Option<Seq<char>>,
    update: Option<Seq<char>>,
    now: Moment,
)
    requires
        m.sender(token) is Ok,
        m.denied(token, to, now),
    ensures
        m.send(token, to, payload, thread, now) == (
            m.prune(now.instant),
            Err::<AckView, ErrorView>(ErrorView::GrantBlocked(m.blocks[(token, to)].reason)),
        ),
        m.request_grant(token, to, reason, update, now) == (
            m,
            Err::<Seq<char>, ErrorView>(ErrorView::GrantBlocked(m.blocks[(token, to)].reason)),
        ),
        m.presence_for(token, to, now) == Ok::<bool, ErrorView>(false),
{
}

/// A file is let through where a message would pass under a grant, and is refused with the error
/// that a message would be refused with, reply windows aside.
pub proof fn law_files_gated_like_messages(
    m: HubModel,
    token: Seq<char>,
    to: Seq<char>,
    payload: Seq<u8>,
    thread: Option<Seq<char>>,
    now: Moment,
)
    requires
        m.persistent,
        forall|i: int|
            !(#[trigger] m.prune(now.instant).window_at(m.token_to_name[token], to, now.instant, i)),
    ensures
        m.may_attach(token, to, now) matches Err(e) ==> m.send(token, to, payload, thread, now).1
            == Err::<AckView, ErrorView>(e),
        m.may_attach(token, to, now) matches Ok(name) ==> {
            &&& m.sender(token) == Ok::<Seq<char>, ErrorView>(name)
            &&& !m.denied(token, to, now)
            &&& m.agents.contains_key(to)
            &&& m.trust.check(
                Ask {
                    from: token,
                    to: m.agents[to],
                    from_name: Some(name),
                    to_name: Some(to),
                },
                now.instant,
            ) is Ok
        },
{
    let asked = m.prune(now.instant).forget_block(token, to);
    assert forall|i: int| !asked.window_at(m.token_to_name[token], to, now.instant, i) by {
        assert(!m.prune(now.instant).window_at(m.token_to_name[token], to, now.instant, i));
    }
}

/// Only a known token that is not revoked and has a name sends; the refusal says what is missing.
pub proof fn law_sender_in_order(
    m: HubModel,
    token: Seq<char>,
    to: Seq<char>,
    payload: Seq<u8>,
    thread: Option<Seq<char>>,
    now: Moment,
)
    ensures
        !m.tokens.contains_key(token) ==> m.send(token, to, payload, thread, now).1 == Err::<
            AckView,
            ErrorView,
        >(ErrorView::AuthFailed),
        m.tokens.contains_key(token) && m.tokens[token].revoked ==> m.send(
            token,
            to,
            payload,
            thread,
            now,
        ).1 == Err::<AckView, ErrorView>(ErrorView::TokenRevoked),
        m.tokens.contains_key(token) && !m.tokens[token].revoked && !m.token_to_name.contains_key(
            token,
        ) ==> m.send(token, to, payload, thread, now).1 == Err::<AckView, ErrorView>(
            ErrorView::AnnounceRequired,
        ),
        m.sender(token) is Ok && !m.denied(token, to, now) && !m.agents.contains_key(to) ==> m.send(
            token,
            to,
            payload,
            thread,
            now,
        ).1 == Err::<AckView, ErrorView>(ErrorView::RecipientUnknown),
{
}

// ── Windows for replies ──────────────────────────────────────────────────────

/// A message that passes under a grant with a reply window lets the recipient answer once, for as
/// long as the window is open.
pub proof fn law_delivery_opens_window(
    m: HubModel,
    grant: GrantRefView,
    token: Seq<char>,
    from: Seq<char>,
    to: Seq<char>,
    payload: Seq<u8>,
    thread: Option<Seq<char>>,
    now: Moment,
    later: Instant,
)
    requires
        !(grant.mediation is Inspect),
        now.instant <= clock::LAST_INSTANT,
        m.reply_ttl <= clock::LAST_INSTANT,
    ensures
        ({
            let after = m.pass(grant, token, from, to, payload, thread, now).0;
            if grant.opens_reply_window {
                &&& after.windows.len() == m.windows.len() + 1
                &&& after.windows.drop_last() == m.windows
                &&& after.windows.last().lets(to, from, later) == (later < now.instant
                    + m.reply_ttl)
            } else {
                after.windows == m.windows
            }
        }),
{
    let after = m.pass(grant, token, from, to, payload, thread, now).0;
    if grant.opens_reply_window {
        assert(after.windows.drop_last() =~= m.windows);
    }
}

/// A window lets one reply through: the reply uses it up, and opens one for the other side. Where
/// it was the only one, the next reply is refused unless a grant lets it pass.
pub proof fn law_window_used_once(
    m: HubModel,
    from: Seq<char>,
    to: Seq<char>,
    msg: MessageView,
    now: Moment,
    i: int,
)
    requires
        m.window_at(from, to, now.instant, i),
        forall|j: int|
            0 <= j < m.windows.len() && (#[trigger] m.windows[j]).lets(from, to, now.instant) ==> j
                == i,
        from != to,
    ensures
        m.answer(from, to, msg, now).windows.len() == m.windows.len() + 1,
        forall|j: int|
            0 <= j < m.answer(from, to, msg, now).windows.len() ==> !(#[trigger] m.answer(
                from,
                to,
                msg,
                now,
            ).windows[j]).lets(from, to, now.instant),
        m.answer(from, to, msg, now).windows.last().recipient == to,
        m.answer(from, to, msg, now).windows.last().sender == from,
        !m.answer(from, to, msg, now).windows.last().used,
{
    let k = choose|i: int| m.window_at(from, to, now.instant, i);
    assert(m.window_at(from, to, now.instant, k));
    assert(m.windows[k].lets(from, to, now.instant));
    assert(k == i);
    let after = m.answer(from, to, msg, now);
    assert forall|j: int| 0 <= j < after.windows.len() implies !(#[trigger] after.windows[j]).lets(
        from,
        to,
        now.instant,
    ) by {
        if j < m.windows.len() && j != i {
            assert(after.windows[j] == m.windows[j]);
        }
    }
}

/// Where a grant lets a message pass, no window is used up.
pub proof fn law_standing_grant_spares_windows(
    m: HubModel,
    token: Seq<char>,
    to: Seq<char>,
    payload: Seq<u8>,
    thread: Option<Seq<char>>,
    now: Moment,
    i: int,
)
    requires
        m.sender(token) is Ok,
        m.agents.contains_key(to),
        m.trust.check(
            Ask {
                from: token,
                to: m.agents[to],
                from_name: Some(m.token_to_name[token]),
                to_name: Some(to),
            },
            now.instant,
        ) is Ok,
        0 <= i < m.prune(now.instant).windows.len(),
    ensures
        i < m.send(token, to, payload, thread, now).0.windows.len(),
        m.send(token, to, payload, thread, now).0.windows[i] == m.prune(now.instant).windows[i],
{
}

// ── The governor's say ───────────────────────────────────────────────────────

/// A message under a grant to inspect waits: nothing of the grant is spent and nothing reaches
/// the recipient before the governor has ruled.
pub proof fn law_inspected_message_waits(
    m: HubModel,
    grant: GrantRefView,
    token: Seq<char>,
    from: Seq<char>,
    to: Seq<char>,
    payload: Seq<u8>,
    thread: Option<Seq<char>>,
    now: Moment,
    name: Seq<char>,
)
    requires
        grant.mediation is Inspect,
    ensures
        m.pass(grant, token, from, to, payload, thread, now).0.trust == m.trust,
        m.pass(grant, token, from, to, payload, thread, now).0.queue(name) == m.queue(name),
        m.pass(grant, token, from, to, payload, thread, now).1 is Ok <==> m.trust.online(
            grant.governor_id,
            now.instant,
        ),
{
}

/// A message that the governor blocks is gone: it reaches nobody and spends nothing.
pub proof fn law_blocked_message_is_gone(
    m: HubModel,
    governor: Seq<char>,
    id: Seq<char>,
    now: Moment,
    name: Seq<char>,
)
    requires
        m.resolve(governor, id, DecisionView::Block, now).1 is Ok,
    ensures
        m.resolve(governor, id, DecisionView::Block, now).1 == Ok::<MediationResultView, ErrorView>(
            MediationResultView::Blocked,
        ),
        m.resolve(governor, id, DecisionView::Block, now).0.trust == m.trust,
        m.resolve(governor, id, DecisionView::Block, now).0.queue(name) == m.queue(name),
{
}

/// Only the governor behind a grant rules on the messages that wait under it.
pub proof fn law_own_governor_rules(m: HubModel, i: int, governor: Seq<char>, decision: DecisionView, now: Moment)
    requires
        m.holds[i].grant_id matches Some(gid) && m.trust.grant(gid) matches Some(g) && g.governor_id
            != governor,
    ensures
        m.rule_on(i, governor, decision, now) == (
            m,
            Err::<MediationResultView, ErrorView>(ErrorView::Forbidden),
        ),
{
}

// ── Notices on the stream ────────────────────────────────────────────────────

/// Between two fetches a stream is told of waiting messages at most once.
pub proof fn law_told_once(m: HubModel, name: Seq<char>, text: Seq<char>, more: Seq<char>)
    ensures
        m.ring_with(name, text).ring_with(name, more) == m.ring_with(name, text),
{
    match m.armed(name) {
        Some(t) => {
            let once = m.ring_with(name, text);
            assert(once.token_of(name) == Some(t));
            assert(once.tokens[t].notify_suppressed);
            assert(once.armed(name) is None);
        },
        None => {
            assert(m.ring_with(name, text).armed(name) is None);
        },
    }
}

/// Fetching a message lets the stream be told again, as long as it is open and its token was not
/// cleared away.
pub proof fn law_fetching_rearms(
    m: HubModel,
    token: Seq<char>,
    name: Seq<char>,
    thread: Option<Seq<char>>,
    now: Moment,
)
    ensures
        m.gc(now).reader(token) == Ok::<Option<Seq<char>>, ErrorView>(Some(name)) && m.gc(
            now,
        ).token_of(name) == Some(token) && m.gc(now).alive(token) ==> m.dequeue(
            token,
            thread,
            now,
        ).0.armed(name) == Some(token),
        m.reader(token) == Ok::<Option<Seq<char>>, ErrorView>(Some(name)) && m.token_of(name) == Some(
            token,
        ) && m.alive(token) ==> m.drain(token, thread).0.armed(name) == Some(token),
{
}

/// Fetching all messages of a thread hands out exactly those, in order, and leaves exactly the
/// others, in order; no message is lost and none is made up. Where no thread is named all are
/// handed out.
pub proof fn law_drain_keeps_other_threads(
    m: HubModel,
    token: Seq<char>,
    name: Seq<char>,
    thread: Seq<char>,
    other: Seq<char>,
)
    requires
        m.reader(token) == Ok::<Option<Seq<char>>, ErrorView>(Some(name)),
    ensures
        ({
            let (after, r) = m.drain(token, Some(thread));
            let here = |msg: MessageView| msg.thread_id == Some(thread);
            let elsewhere = |msg: MessageView| msg.thread_id != Some(thread);
            &&& r == Ok::<Seq<MessageView>, ErrorView>(m.queue(name).filter(here))
            &&& after.queue(name) == m.queue(name).filter(elsewhere)
            &&& after.queue(name).to_multiset().add(m.queue(name).filter(here).to_multiset())
                == m.queue(name).to_multiset()
            &&& other != name ==> after.queue(other) == m.queue(other)
        }),
        m.drain(token, None).1 == Ok::<Seq<MessageView>, ErrorView>(m.queue(name)),
        m.drain(token, None).0.queue(name) == Seq::<MessageView>::empty(),
{
    lemma_filter_splits(m.queue(name), thread);
}

proof fn lemma_filter_splits(q: Seq<MessageView>, thread: Seq<char>)
    ensures
        q.filter(|msg: MessageView| msg.thread_id != Some(thread)).to_multiset().add(
            q.filter(|msg: MessageView| msg.thread_id == Some(thread)).to_multiset(),
        ) == q.to_multiset(),
    decreases q.len(),
{
    broadcast use vstd::seq_lib::group_to_multiset_ensures;

    let here = |msg: MessageView| msg.thread_id == Some(thread);
    let elsewhere = |msg: MessageView| msg.thread_id != Some(thread);
    reveal(Seq::filter);
    if q.len() > 0 {
        lemma_filter_splits(q.drop_last(), thread);
        assert(q =~= q.drop_last().push(q.last()));
        assert(q.filter(elsewhere).to_multiset().add(q.filter(here).to_multiset())
            =~= q.drop_last().to_multiset().insert(q.last()));
    } else {
        assert(q.filter(here) =~= q && q.filter(elsewhere) =~= q);
        assert(q.filter(elsewhere).to_multiset().add(q.filter(here).to_multiset())
            =~= q.to_multiset());
    }
}

} // verus!
