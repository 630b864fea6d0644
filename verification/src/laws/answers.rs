//! Laws of answers: who may answer whom without a grant, and how often.

use crate::clock::{Instant, Moment};
use crate::delivery::model::HubModel;
use crate::delivery::{AckView, DecisionView, MediationResultView, WindowView};
use crate::error::ErrorView;
use crate::laws::mediation;
use crate::trust::{Ask, GrantRefView};
use crate::types::MessageView;
use vstd::prelude::*;

verus! {

/// Whether a message of the one who holds `token` to `to` passes under a grant.
pub open spec fn grant_back(m: HubModel, token: Seq<char>, to: Seq<char>, now: Instant) -> Result<
    GrantRefView,
    ErrorView,
> {
    m.trust.check(
        Ask {
            from: token,
            to: m.agents[to],
            from_name: Some(m.token_to_name[token]),
            to_name: Some(to),
        },
        now,
    )
}

/// `token` is in order, bears `from`, and nothing but a missing grant stands between it and `to`.
pub open spec fn may_try(m: HubModel, token: Seq<char>, from: Seq<char>, to: Seq<char>) -> bool {
    &&& m.tokens.contains_key(token)
    &&& !m.tokens[token].revoked
    &&& m.token_to_name.contains_key(token)
    &&& m.token_to_name[token] == from
    &&& m.agents.contains_key(to)
    &&& !m.blocks.contains_key((token, to))
}

/// A window that `from` has towards `to` and that is neither used nor over.
pub open spec fn open_towards(w: WindowView, from: Seq<char>, to: Seq<char>, now: Instant) -> bool {
    w.recipient == from && w.sender == to && !w.used && now < w.expires
}

proof fn lemma_first_window(m: HubModel, from: Seq<char>, to: Seq<char>, now: Instant, k: int)
    requires
        0 <= k < m.windows.len(),
        m.windows[k].lets(from, to, now),
    ensures
        exists|i: int| m.window_at(from, to, now, i),
    decreases k,
{
    if exists|j: int| 0 <= j < k && (#[trigger] m.windows[j]).lets(from, to, now) {
        let j = choose|j: int| 0 <= j < k && (#[trigger] m.windows[j]).lets(from, to, now);
        lemma_first_window(m, from, to, now, j);
    } else {
        assert(m.window_at(from, to, now, k));
    }
}

/// A window that is open lets its recipient answer its sender: the answer is accepted and is the
/// last in the sender's queue.
pub proof fn law_open_window_lets_answer(
    m: HubModel,
    k: int,
    token: Seq<char>,
    from: Seq<char>,
    to: Seq<char>,
    payload: Seq<u8>,
    thread: Option<Seq<char>>,
    now: Moment,
)
    requires
        0 <= k < m.windows.len(),
        open_towards(m.windows[k], from, to, now.instant),
        may_try(m, token, from, to),
        grant_back(m, token, to, now.instant) is Err,
    ensures
        ({
            let (after, r) = m.send(token, to, payload, thread, now);
            &&& r == Ok::<AckView, ErrorView>(AckView::Accepted)
            &&& after.queue(to) == m.queue(to).push(
                MessageView {
                    payload,
                    from_name: from,
                    reason: None,
                    event_type: None,
                    thread_id: thread,
                },
            )
        }),
{
    let p = |w: WindowView| w.expires > now.instant;
    let asked = m.prune(now.instant).forget_block(token, to);
    m.windows.lemma_filter_contains(p, k);
    let j = choose|j: int| 0 <= j < asked.windows.len() && asked.windows[j] == m.windows[k];
    lemma_first_window(asked, from, to, now.instant, j);
}

/// Where neither a grant nor an open window lets it, nothing is sent, and the recipient's queue
/// stays as it is.
pub proof fn law_no_window_no_answer(
    m: HubModel,
    token: Seq<char>,
    from: Seq<char>,
    to: Seq<char>,
    payload: Seq<u8>,
    thread: Option<Seq<char>>,
    now: Moment,
)
    requires
        may_try(m, token, from, to),
        grant_back(m, token, to, now.instant) is Err,
        forall|k: int|
            0 <= k < m.windows.len() ==> !open_towards(#[trigger] m.windows[k], from, to, now.instant),
    ensures
        m.send(token, to, payload, thread, now).1 is Err,
        from != to ==> m.send(token, to, payload, thread, now).0.queue(to) == m.queue(to),
{
    let p = |w: WindowView| w.expires > now.instant;
    let asked = m.prune(now.instant).forget_block(token, to);
    assert forall|i: int| !asked.window_at(from, to, now.instant, i) by {
        if asked.window_at(from, to, now.instant, i) {
            m.windows.lemma_filter_contains_rev(p, asked.windows[i]);
            let k = choose|k: int| 0 <= k < m.windows.len() && m.windows[k] == asked.windows[i];
            assert(!open_towards(m.windows[k], from, to, now.instant));
        }
    }
}

/// The windows after a message that passes under a grant: those that are not over, and one more
/// exactly if the grant opens windows.
proof fn lemma_windows_after_send(
    m: HubModel,
    token: Seq<char>,
    from: Seq<char>,
    to: Seq<char>,
    payload: Seq<u8>,
    thread: Option<Seq<char>>,
    now: Moment,
    grant: GrantRefView,
)
    requires
        may_try(m, token, from, to),
        grant_back(m, token, to, now.instant) == Ok::<GrantRefView, ErrorView>(grant),
        m.send(token, to, payload, thread, now).1 == Ok::<AckView, ErrorView>(AckView::Accepted),
    ensures
        ({
            let standing = m.windows.filter(|w: WindowView| w.expires > now.instant);
            m.send(token, to, payload, thread, now).0.windows == if grant.opens_reply_window {
                standing.push(
                    WindowView {
                        recipient: to,
                        sender: from,
                        expires: (now.instant + m.reply_ttl) as Instant,
                        used: false,
                    },
                )
            } else {
                standing
            }
        }),
{
}

/// A message that is accepted under a grant lets its recipient answer for as long as windows are
/// open, if the grant opens them: the answer is accepted until then, and is the last in the
/// sender's queue. Where the grant opens none, or once the time is over, there is no answer
/// without a grant.
pub proof fn law_delivered_message_may_be_answered(
    m: HubModel,
    token: Seq<char>,
    from: Seq<char>,
    to: Seq<char>,
    payload: Seq<u8>,
    thread: Option<Seq<char>>,
    now: Moment,
    grant: GrantRefView,
    back: Seq<char>,
    answer: Seq<u8>,
    later: Moment,
)
    requires
        may_try(m, token, from, to),
        grant_back(m, token, to, now.instant) == Ok::<GrantRefView, ErrorView>(grant),
        m.send(token, to, payload, thread, now).1 == Ok::<AckView, ErrorView>(AckView::Accepted),
        may_try(m.send(token, to, payload, thread, now).0, back, to, from),
        grant_back(m.send(token, to, payload, thread, now).0, back, from, later.instant) is Err,
        now.instant + m.reply_ttl <= u128::MAX,
        forall|k: int|
            0 <= k < m.windows.len() ==> !open_towards(#[trigger] m.windows[k], to, from, later.instant),
    ensures
        ({
            let delivered = m.send(token, to, payload, thread, now).0;
            let (after, r) = delivered.send(back, from, answer, thread, later);
            if grant.opens_reply_window && later.instant < now.instant + m.reply_ttl {
                &&& r == Ok::<AckView, ErrorView>(AckView::Accepted)
                &&& after.queue(from).last().payload == answer
                &&& after.queue(from).last().from_name == to
            } else {
                r is Err
            }
        }),
{
    lemma_windows_after_send(m, token, from, to, payload, thread, now, grant);
    let delivered = m.send(token, to, payload, thread, now).0;
    let p = |w: WindowView| w.expires > now.instant;
    if grant.opens_reply_window && later.instant < now.instant + m.reply_ttl {
        law_open_window_lets_answer(
            delivered,
            delivered.windows.len() - 1,
            back,
            to,
            from,
            answer,
            thread,
            later,
        );
    } else {
        assert forall|k: int| 0 <= k < delivered.windows.len() implies !open_towards(
            #[trigger] delivered.windows[k],
            to,
            from,
            later.instant,
        ) by {
            let standing = m.windows.filter(p);
            if k < standing.len() {
                m.windows.lemma_filter_contains_rev(p, standing[k]);
                let j = choose|j: int| 0 <= j < m.windows.len() && m.windows[j] == standing[k];
                assert(!open_towards(m.windows[j], to, from, later.instant));
            }
        }
        law_no_window_no_answer(delivered, back, to, from, answer, thread, later);
    }
}

/// A window lets one answer through and no more: after it the same way is shut, unless another
/// window is open.
pub proof fn law_one_answer(
    m: HubModel,
    k: int,
    token: Seq<char>,
    from: Seq<char>,
    to: Seq<char>,
    payload: Seq<u8>,
    thread: Option<Seq<char>>,
    now: Moment,
    again: Seq<u8>,
    later: Moment,
)
    requires
        0 <= k < m.windows.len(),
        open_towards(m.windows[k], from, to, now.instant),
        forall|j: int|
            0 <= j < m.windows.len() && open_towards(#[trigger] m.windows[j], from, to, now.instant)
                ==> j == k,
        now.instant <= later.instant,
        from != to,
        may_try(m, token, from, to),
        grant_back(m, token, to, now.instant) is Err,
        grant_back(m.send(token, to, payload, thread, now).0, token, to, later.instant) is Err,
    ensures
        m.send(token, to, payload, thread, now).1 is Ok,
        m.send(token, to, payload, thread, now).0.send(token, to, again, thread, later).1 is Err,
{
    law_open_window_lets_answer(m, k, token, from, to, payload, thread, now);
    let p = |w: WindowView| w.expires > now.instant;
    let asked = m.prune(now.instant).forget_block(token, to);
    let after = m.send(token, to, payload, thread, now).0;
    let i = choose|i: int| asked.window_at(from, to, now.instant, i);
    m.windows.lemma_filter_contains(p, k);
    let c = choose|c: int| 0 <= c < asked.windows.len() && asked.windows[c] == m.windows[k];
    lemma_first_window(asked, from, to, now.instant, c);
    assert(asked.window_at(from, to, now.instant, i));
    assert forall|j: int| 0 <= j < after.windows.len() implies !open_towards(
        #[trigger] after.windows[j],
        from,
        to,
        later.instant,
    ) by {
        if j < asked.windows.len() && j != i {
            lemma_filter_apart(m.windows, p, k, from, to, now.instant, i, j);
        }
    }
    law_no_window_no_answer(after, token, from, to, again, thread, later);
}

/// Where one window of a list is open, one of what is left of the list is.
proof fn lemma_filter_apart(
    ws: Seq<WindowView>,
    p: spec_fn(WindowView) -> bool,
    k: int,
    from: Seq<char>,
    to: Seq<char>,
    now: Instant,
    i: int,
    j: int,
)
    requires
        p == (|w: WindowView| w.expires > now),
        forall|n: int|
            0 <= n < ws.len() && open_towards(#[trigger] ws[n], from, to, now) ==> n == k,
        0 <= i < ws.filter(p).len(),
        0 <= j < ws.filter(p).len(),
        i != j,
        open_towards(ws.filter(p)[i], from, to, now),
    ensures
        !open_towards(ws.filter(p)[j], from, to, now),
    decreases ws.len(),
{
    reveal(Seq::filter);
    let fewer = ws.drop_last();
    let kept = fewer.filter(p);
    let whole = ws.filter(p);
    if ws.len() > 0 {
        assert forall|n: int| 0 <= n < fewer.len() && open_towards(
            #[trigger] fewer[n],
            from,
            to,
            now,
        ) implies n == k by {
            assert(ws[n] == fewer[n]);
        }
        if i < kept.len() && j < kept.len() {
            lemma_filter_apart(fewer, p, k, from, to, now, i, j);
        } else {
            let first = if i < j {
                i
            } else {
                j
            };
            fewer.lemma_filter_contains_rev(p, kept[first]);
            let n = choose|n: int| 0 <= n < fewer.len() && fewer[n] == kept[first];
            assert(ws[n] == kept[first]);
            assert(whole[first] == kept[first]);
            assert(ws[ws.len() - 1] == ws.last());
        }
    }
}

/// What a ruling that lets a message through does to the windows: those that are over are gone,
/// and exactly if the grant of the message opens windows there is one more, for the recipient
/// towards the sender, for as long as windows are open.
pub proof fn law_ruling_opens_window(
    m: HubModel,
    i: int,
    id: Seq<char>,
    k: int,
    governor: Seq<char>,
    decision: DecisionView,
    now: Moment,
)
    requires
        m.sound(),
        0 <= i < m.holds.len(),
        m.holds[i].mediation_id == id,
        !m.holds[i].resolved,
        now.instant < m.holds[i].expires,
        0 <= k < m.trust.grants.len(),
        m.holds[i].grant_id == Some(m.trust.grants[k].id),
        forall|j: int| 0 <= j < k ==> (#[trigger] m.trust.grants[j]).id != m.trust.grants[k].id,
        m.resolve(governor, id, decision, now).1 matches Ok(MediationResultView::Delivered { .. }),
    ensures
        ({
            let standing = m.windows.filter(|w: WindowView| w.expires > now.instant);
            m.resolve(governor, id, decision, now).0.windows
                == if m.trust.grants[k].opens_reply_window {
                standing.push(
                    WindowView {
                        recipient: m.holds[i].to_name,
                        sender: m.holds[i].from_name,
                        expires: (now.instant + m.reply_ttl) as Instant,
                        used: false,
                    },
                )
            } else {
                standing
            }
        }),
{
    let gid = m.trust.grants[k].id;
    let at = mediation::lemma_ruled_at(m, i, id, now);
    assert(m.trust.first_at(gid, k));
    let c = choose|c: int| m.trust.first_at(gid, c);
    assert(m.trust.first_at(gid, c));
    assert(c == k) by {
        if c < k {
            assert(m.trust.grants[c].id != gid);
        } else if k < c {
            assert(m.trust.grants[k].id != gid);
        }
    }
}

/// A message that the governor lets through, as it is or modified, may be answered: if its grant
/// opens windows, a message of the recipient back to the sender is accepted for as long as windows
/// are open, and is the last in the sender's queue.
pub proof fn law_ruled_message_may_be_answered(
    m: HubModel,
    i: int,
    id: Seq<char>,
    k: int,
    governor: Seq<char>,
    decision: DecisionView,
    now: Moment,
    back: Seq<char>,
    answer: Seq<u8>,
    thread: Option<Seq<char>>,
    later: Moment,
)
    requires
        m.sound(),
        0 <= i < m.holds.len(),
        m.holds[i].mediation_id == id,
        !m.holds[i].resolved,
        now.instant < m.holds[i].expires,
        0 <= k < m.trust.grants.len(),
        m.holds[i].grant_id == Some(m.trust.grants[k].id),
        forall|j: int| 0 <= j < k ==> (#[trigger] m.trust.grants[j]).id != m.trust.grants[k].id,
        m.trust.grants[k].opens_reply_window,
        m.resolve(governor, id, decision, now).1 matches Ok(MediationResultView::Delivered { .. }),
        now.instant + m.reply_ttl <= u128::MAX,
        later.instant < now.instant + m.reply_ttl,
        may_try(
            m.resolve(governor, id, decision, now).0,
            back,
            m.holds[i].to_name,
            m.holds[i].from_name,
        ),
        grant_back(
            m.resolve(governor, id, decision, now).0,
            back,
            m.holds[i].from_name,
            later.instant,
        ) is Err,
    ensures
        ({
            let ruled = m.resolve(governor, id, decision, now).0;
            let (after, r) = ruled.send(back, m.holds[i].from_name, answer, thread, later);
            &&& r == Ok::<AckView, ErrorView>(AckView::Accepted)
            &&& after.queue(m.holds[i].from_name).last().payload == answer
            &&& after.queue(m.holds[i].from_name).last().from_name == m.holds[i].to_name
        }),
{
    law_ruling_opens_window(m, i, id, k, governor, decision, now);
    let ruled = m.resolve(governor, id, decision, now).0;
    law_open_window_lets_answer(
        ruled,
        ruled.windows.len() - 1,
        back,
        m.holds[i].to_name,
        m.holds[i].from_name,
        answer,
        thread,
        later,
    );
}

} // verus!
