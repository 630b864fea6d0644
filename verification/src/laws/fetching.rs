//! Laws of fetching: what a fetch hands out, what it leaves, and in which order.

use crate::clock::Moment;
use crate::delivery::model::HubModel;
use crate::error::ErrorView;
use crate::laws::invariants;
use crate::laws::presence;
use crate::seqs;
use crate::strmap;
use crate::types::MessageView;
use vstd::prelude::*;

verus! {

/// The messages of a queue that belong to a thread, in their order.
pub open spec fn of_thread(q: Seq<MessageView>, thread: Seq<char>) -> Seq<MessageView> {
    q.filter(|m: MessageView| m.thread_id == Some(thread))
}

/// The messages of a queue that do not belong to a thread, in their order.
pub open spec fn off_thread(q: Seq<MessageView>, thread: Seq<char>) -> Seq<MessageView> {
    q.filter(|m: MessageView| m.thread_id != Some(thread))
}

/// `token` is in order and has `name`.
pub open spec fn reads(m: HubModel, token: Seq<char>, name: Seq<char>) -> bool {
    m.tokens.contains_key(token) && !m.tokens[token].revoked && m.tokens[token].name == Some(name)
}

// ── Clearing away ────────────────────────────────────────────────────────────

proof fn lemma_evicting_nameless(m: HubModel, doomed: Seq<Seq<char>>, now: Moment)
    requires
        forall|i: int|
            0 <= i < doomed.len() && m.tokens.contains_key(#[trigger] doomed[i])
                ==> m.tokens[doomed[i]].name is None,
    ensures
        ({
            let after = m.evict_all(doomed, now);
            &&& after == (HubModel {
                tokens: after.tokens,
                connections: after.connections,
                outbox: after.outbox,
                ..m
            })
            &&& forall|t: Seq<char>| #[trigger]
                after.tokens.contains_key(t) ==> m.tokens.contains_key(t) && after.tokens[t]
                    == m.tokens[t]
        }),
    decreases doomed.len(),
{
    if doomed.len() > 0 {
        let fewer = doomed.drop_last();
        assert forall|i: int| 0 <= i < fewer.len() && m.tokens.contains_key(
            #[trigger] fewer[i],
        ) implies m.tokens[fewer[i]].name is None by {
            assert(doomed[i] == fewer[i]);
        }
        lemma_evicting_nameless(m, fewer, now);
        assert(doomed[doomed.len() - 1] == doomed.last());
    }
}

/// Clearing stale tokens away touches nobody who has a name: queues, names, requests, grants,
/// windows, rooms and denials stay as they are, and a token with a name stays with its stream.
pub proof fn law_clearing_away_spares_the_named(m: HubModel, now: Moment, token: Seq<char>)
    requires
        m.sound(),
    ensures
        ({
            let after = m.gc(now);
            &&& after == (HubModel {
                tokens: after.tokens,
                connections: after.connections,
                outbox: after.outbox,
                ..m
            })
            &&& m.tokens.contains_key(token) && m.tokens[token].name is Some ==> {
                &&& after.tokens.contains_key(token)
                &&& after.tokens[token] == m.tokens[token]
                &&& after.connections.contains_key(token) == m.connections.contains_key(token)
                &&& after.connections[token] == m.connections[token]
            }
        }),
{
    reveal(HubModel::sound);
    let p = |t: Seq<char>| m.stale(t, now.instant);
    let all = strmap::sorted(m.tokens.dom());
    let doomed = m.stale_tokens(now.instant);
    assert forall|i: int| 0 <= i < doomed.len() && m.tokens.contains_key(
        #[trigger] doomed[i],
    ) implies m.tokens[doomed[i]].name is None by {
        all.lemma_filter_pred(p, i);
    }
    lemma_evicting_nameless(m, doomed, now);
    if m.tokens.contains_key(token) && m.tokens[token].name is Some {
        presence::law_kept_tokens(m, token, now);
        assert(!doomed.contains(token)) by {
            if doomed.contains(token) {
                let i = doomed.index_of(token);
                all.lemma_filter_pred(p, i);
            }
        }
        lemma_connections_kept(m, doomed, now, token);
    }
}

pub(crate) proof fn lemma_connections_kept(m: HubModel, doomed: Seq<Seq<char>>, now: Moment, kept: Seq<char>)
    requires
        !doomed.contains(kept),
    ensures
        m.evict_all(doomed, now).connections.contains_key(kept) == m.connections.contains_key(kept),
        m.evict_all(doomed, now).connections[kept] == m.connections[kept],
    decreases doomed.len(),
{
    if doomed.len() > 0 {
        let fewer = doomed.drop_last();
        assert(!fewer.contains(kept)) by {
            if fewer.contains(kept) {
                assert(doomed[fewer.index_of(kept)] == kept);
            }
        }
        assert(doomed[doomed.len() - 1] != kept);
        lemma_connections_kept(m, fewer, now, kept);
    }
}

// ── One message ──────────────────────────────────────────────────────────────

proof fn lemma_first_taken(q: Seq<MessageView>, p: spec_fn(MessageView) -> bool, i: int)
    requires
        0 <= i < q.len(),
        p(q[i]),
        forall|j: int| 0 <= j < i ==> !p(#[trigger] q[j]),
    ensures
        q.filter(p).len() > 0,
        q.filter(p)[0] == q[i],
        q.remove(i).filter(p) == q.filter(p).drop_first(),
{
    let (head, tail) = (q.take(i), q.skip(i + 1));
    let one = seq![q[i]];
    assert(q =~= head + (one + tail));
    assert(q.remove(i) =~= head + tail);
    Seq::filter_distributes_over_add(head, one + tail, p);
    Seq::filter_distributes_over_add(one, tail, p);
    Seq::filter_distributes_over_add(head, tail, p);
    seqs::lemma_filter_none(head, p);
    seqs::lemma_filter_all(one, p);
    assert(q.filter(p) =~= one + tail.filter(p));
    assert(q.filter(p).drop_first() =~= tail.filter(p));
    assert(q.remove(i).filter(p) =~= tail.filter(p));
}

proof fn lemma_others_left(q: Seq<MessageView>, p: spec_fn(MessageView) -> bool, i: int)
    requires
        0 <= i < q.len(),
        !p(q[i]),
    ensures
        q.remove(i).filter(p) == q.filter(p),
{
    let (head, tail) = (q.take(i), q.skip(i + 1));
    let one = seq![q[i]];
    assert(q =~= head + (one + tail));
    assert(q.remove(i) =~= head + tail);
    Seq::filter_distributes_over_add(head, one + tail, p);
    Seq::filter_distributes_over_add(one, tail, p);
    Seq::filter_distributes_over_add(head, tail, p);
    seqs::lemma_filter_none(one, p);
    assert(q.filter(p) =~= q.remove(i).filter(p));
}

proof fn lemma_first_of_thread(q: Seq<MessageView>, thread: Seq<char>, k: int)
    requires
        0 <= k < q.len(),
        q[k].thread_id == Some(thread),
    ensures
        exists|i: int| HubModel::thread_at(q, thread, i),
    decreases k,
{
    if exists|j: int| 0 <= j < k && (#[trigger] q[j]).thread_id == Some(thread) {
        let j = choose|j: int| 0 <= j < k && (#[trigger] q[j]).thread_id == Some(thread);
        lemma_first_of_thread(q, thread, j);
    } else {
        assert(HubModel::thread_at(q, thread, k));
    }
}

/// Fetching from a thread is first in, first out: what is handed out is the first message of the
/// thread, the thread keeps the others in their order, and whatever is not of the thread stays as
/// it is and in its order; nobody else's queue changes. Where the thread has no message none is
/// handed out and none is lost.
pub proof fn law_thread_fetched_in_order(
    m: HubModel,
    token: Seq<char>,
    name: Seq<char>,
    thread: Seq<char>,
    now: Moment,
    other: Seq<char>,
)
    requires
        m.sound(),
        reads(m, token, name),
    ensures
        ({
            let (after, r) = m.dequeue(token, Some(thread), now);
            let here = of_thread(m.queue(name), thread);
            &&& if here.len() > 0 {
                &&& r == Ok::<(Option<MessageView>, nat), ErrorView>(
                    (Some(here[0]), (m.queue(name).len() - 1) as nat),
                )
                &&& of_thread(after.queue(name), thread) == here.drop_first()
            } else {
                &&& r == Ok::<(Option<MessageView>, nat), ErrorView>((None, m.queue(name).len()))
                &&& after.queue(name) == m.queue(name)
            }
            &&& off_thread(after.queue(name), thread) == off_thread(m.queue(name), thread)
            &&& other != name ==> after.queue(other) == m.queue(other)
        }),
{
    law_clearing_away_spares_the_named(m, now, token);
    let q = m.queue(name);
    let here = |x: MessageView| x.thread_id == Some(thread);
    let elsewhere = |x: MessageView| x.thread_id != Some(thread);
    if exists|i: int| HubModel::thread_at(q, thread, i) {
        let i = choose|i: int| HubModel::thread_at(q, thread, i);
        assert(HubModel::thread_at(q, thread, i));
        assert forall|j: int| 0 <= j < i implies !here(#[trigger] q[j]) by {}
        lemma_first_taken(q, here, i);
        lemma_others_left(q, elsewhere, i);
        assert(m.queues.contains_key(name));
    } else {
        assert forall|k: int| 0 <= k < q.len() implies !here(#[trigger] q[k]) by {
            if here(q[k]) {
                lemma_first_of_thread(q, thread, k);
            }
        }
        seqs::lemma_filter_none(q, here);
    }
}

/// Fetching without a thread is first in, first out: the first message of all is handed out, the
/// others stay in their order, and nobody else's queue changes.
pub proof fn law_fetched_in_order(
    m: HubModel,
    token: Seq<char>,
    name: Seq<char>,
    now: Moment,
    other: Seq<char>,
)
    requires
        m.sound(),
        reads(m, token, name),
    ensures
        ({
            let (after, r) = m.dequeue(token, None, now);
            let q = m.queue(name);
            &&& if q.len() > 0 {
                &&& r == Ok::<(Option<MessageView>, nat), ErrorView>(
                    (Some(q[0]), (q.len() - 1) as nat),
                )
                &&& after.queue(name) == q.drop_first()
            } else {
                &&& r == Ok::<(Option<MessageView>, nat), ErrorView>((None, 0))
                &&& after.queue(name) == q
            }
            &&& other != name ==> after.queue(other) == m.queue(other)
        }),
{
    law_clearing_away_spares_the_named(m, now, token);
    if m.queue(name).len() > 0 {
        assert(m.queues.contains_key(name));
    }
}

// ── Many messages ────────────────────────────────────────────────────────────

/// `n` messages are fetched one after the other.
pub open spec fn popped(m: HubModel, token: Seq<char>, thread: Option<Seq<char>>, now: Moment, n: nat) -> (
    HubModel,
    Seq<Option<MessageView>>,
)
    decreases n,
{
    if n == 0 {
        (m, seq![])
    } else {
        let (before, got) = popped(m, token, thread, now, (n - 1) as nat);
        let (after, r) = before.dequeue(token, thread, now);
        (after, got.push(
            match r {
                Ok((msg, _)) => msg,
                Err(_) => None,
            },
        ))
    }
}

proof fn lemma_fetch_keeps_reader(m: HubModel, token: Seq<char>, name: Seq<char>, thread: Option<Seq<char>>, now: Moment)
    requires
        m.sound(),
        reads(m, token, name),
    ensures
        m.dequeue(token, thread, now).0.sound(),
        reads(m.dequeue(token, thread, now).0, token, name),
{
    law_clearing_away_spares_the_named(m, now, token);
    invariants::law_fetch_sound(m, token, thread, now);
}

/// Fetching `n` times from a thread brings its first `n` messages in the order in which they came.
pub proof fn law_thread_in_order(
    m: HubModel,
    token: Seq<char>,
    name: Seq<char>,
    thread: Seq<char>,
    now: Moment,
    n: nat,
)
    requires
        m.sound(),
        reads(m, token, name),
        n <= of_thread(m.queue(name), thread).len(),
    ensures
        ({
            let (after, got) = popped(m, token, Some(thread), now, n);
            let here = of_thread(m.queue(name), thread);
            &&& got == Seq::new(n, |i: int| Some(here[i]))
            &&& of_thread(after.queue(name), thread) == here.skip(n as int)
            &&& off_thread(after.queue(name), thread) == off_thread(m.queue(name), thread)
            &&& after.sound()
            &&& reads(after, token, name)
        }),
    decreases n,
{
    let here = of_thread(m.queue(name), thread);
    if n > 0 {
        law_thread_in_order(m, token, name, thread, now, (n - 1) as nat);
        let (before, got) = popped(m, token, Some(thread), now, (n - 1) as nat);
        law_thread_fetched_in_order(before, token, name, thread, now, name);
        lemma_fetch_keeps_reader(before, token, name, Some(thread), now);
        assert(here.skip(n - 1)[0] == here[n - 1]);
        assert(here.skip(n - 1).drop_first() =~= here.skip(n as int));
        assert(got.push(Some(here[n - 1])) =~= Seq::new(n, |i: int| Some(here[i])));
    } else {
        assert(here.skip(0) =~= here);
        assert(popped(m, token, Some(thread), now, 0).1 =~= Seq::new(0, |i: int| Some(here[i])));
    }
}

/// Fetching `n` times brings the first `n` messages of the queue in the order in which they came.
pub proof fn law_queue_in_order(m: HubModel, token: Seq<char>, name: Seq<char>, now: Moment, n: nat)
    requires
        m.sound(),
        reads(m, token, name),
        n <= m.queue(name).len(),
    ensures
        ({
            let (after, got) = popped(m, token, None, now, n);
            &&& got == Seq::new(n, |i: int| Some(m.queue(name)[i]))
            &&& after.queue(name) == m.queue(name).skip(n as int)
            &&& after.sound()
            &&& reads(after, token, name)
        }),
    decreases n,
{
    let q = m.queue(name);
    if n > 0 {
        law_queue_in_order(m, token, name, now, (n - 1) as nat);
        let (before, got) = popped(m, token, None, now, (n - 1) as nat);
        law_fetched_in_order(before, token, name, now, name);
        lemma_fetch_keeps_reader(before, token, name, None, now);
        assert(q.skip(n - 1)[0] == q[n - 1]);
        assert(q.skip(n - 1).drop_first() =~= q.skip(n as int));
        assert(got.push(Some(q[n - 1])) =~= Seq::new(n, |i: int| Some(q[i])));
    } else {
        assert(q.skip(0) =~= q);
        assert(popped(m, token, None, now, 0).1 =~= Seq::new(0, |i: int| Some(q[i])));
    }
}

} // verus!
