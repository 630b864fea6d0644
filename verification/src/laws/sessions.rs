//! Laws of tokens at work: which are kept, how a name is announced, how a stream opens and ends.

use crate::clock::{Instant, Moment};
use crate::delivery::model::HubModel;
use crate::delivery::{AnnounceView, EffectView, StoreWriteView, Stream};
use crate::error::ErrorView;
use crate::events;
use crate::laws::fetching;
use crate::laws::presence;
use crate::laws::seen;
use crate::strmap;
use crate::text;
use vstd::prelude::*;

verus! {

// ── In plain terms ───────────────────────────────────────────────────────────

/// How long a token has been idle.
pub open spec fn idle(m: HubModel, token: Seq<char>, now: Instant) -> int {
    if now >= m.tokens[token].last_active {
        now - m.tokens[token].last_active
    } else {
        0
    }
}

/// A token that somebody may work with.
pub open spec fn in_order(m: HubModel, token: Seq<char>) -> bool {
    m.tokens.contains_key(token) && !m.tokens[token].revoked
}

/// A token that is in order and was used within every time limit there is.
pub open spec fn in_use(m: HubModel, token: Seq<char>, now: Instant) -> bool {
    in_order(m, token) && idle(m, token, now) <= m.gc_grace && idle(m, token, now) <= m.gc_unlisten
        && idle(m, token, now) <= m.gc_no_grant
}

/// What is to be told or done is among what the hub gave out since.
pub open spec fn since(before: HubModel, after: HubModel, e: EffectView) -> bool {
    exists|i: int|
        before.outbox.len() <= i < after.outbox.len() && #[trigger] after.outbox[i] == e
}

// ── Which tokens are kept ────────────────────────────────────────────────────

/// A token nobody governs with and no name is bound to is cleared away once it has been idle too
/// long: past the grace period if it was registered and never opened a stream since, past the
/// limit for tokens that never opened one, and past the limit for tokens without a grant if it did
/// open one and no grant ever named it. Until then it is kept as it is.
pub proof fn law_idle_token_cleared(m: HubModel, token: Seq<char>, now: Moment)
    requires
        m.tokens.dom().finite(),
        in_order(m, token),
        m.tokens[token].governor_id is None,
        m.tokens[token].name is None,
    ensures
        ({
            let st = m.tokens[token];
            let kept = m.gc(now).tokens.contains_key(token);
            &&& st.pending_first_listen ==> kept == (idle(m, token, now.instant) <= m.gc_grace)
            &&& !st.pending_first_listen && !st.ever_listened ==> kept == (idle(
                m,
                token,
                now.instant,
            ) <= m.gc_unlisten)
            &&& !st.pending_first_listen && st.ever_listened && !st.ever_granted ==> kept == (idle(
                m,
                token,
                now.instant,
            ) <= m.gc_no_grant)
            &&& !st.pending_first_listen && st.ever_listened && st.ever_granted ==> kept
            &&& kept ==> m.gc(now).tokens[token] == st
        }),
{
    let p = |t: Seq<char>| m.stale(t, now.instant);
    let all = strmap::sorted(m.tokens.dom());
    let doomed = m.stale_tokens(now.instant);
    strmap::lemma_sorted_exists(m.tokens.dom());
    assert(all.to_set().contains(token));
    if m.stale(token, now.instant) {
        let i = all.index_of(token);
        all.lemma_filter_contains(p, i);
        lemma_evicted(m, doomed, now, token);
    } else {
        presence::law_kept_tokens(m, token, now);
    }
}

proof fn lemma_evicted(m: HubModel, doomed: Seq<Seq<char>>, now: Moment, token: Seq<char>)
    requires
        doomed.contains(token),
    ensures
        !m.evict_all(doomed, now).tokens.contains_key(token),
    decreases doomed.len(),
{
    let fewer = doomed.drop_last();
    if doomed.last() != token {
        assert(fewer[doomed.index_of(token)] == token);
        lemma_evicted(m, fewer, now, token);
    }
}

/// Revoked tokens, those a governor works with and those with a name that is an identity are kept
/// however long they have been idle.
pub proof fn law_token_kept(m: HubModel, token: Seq<char>, now: Moment)
    requires
        m.tokens.contains_key(token),
        m.tokens[token].revoked || m.tokens[token].governor_id is Some || (m.tokens[token].name matches Some(
            name,
        ) && m.identities.contains(name)),
    ensures
        m.gc(now).tokens.contains_key(token),
        m.gc(now).tokens[token] == m.tokens[token],
{
    presence::law_kept_tokens(m, token, now);
}

proof fn lemma_clean(m: HubModel, token: Seq<char>, now: Moment)
    requires
        m.sound(),
        in_use(m, token, now.instant) || (m.tokens.contains_key(token) && m.tokens[token].revoked),
    ensures
        ({
            let clean = m.gc(now);
            &&& clean == (HubModel {
                tokens: clean.tokens,
                connections: clean.connections,
                outbox: clean.outbox,
                ..m
            })
            &&& clean.tokens.contains_key(token)
            &&& clean.tokens[token] == m.tokens[token]
            &&& clean.connections.contains_key(token) == m.connections.contains_key(token)
            &&& clean.connections[token] == m.connections[token]
            &&& m.outbox.is_prefix_of(clean.outbox)
        }),
{
    fetching::law_clearing_away_spares_the_named(m, now, token);
    presence::law_kept_tokens(m, token, now);
    let p = |t: Seq<char>| m.stale(t, now.instant);
    let all = strmap::sorted(m.tokens.dom());
    let doomed = m.stale_tokens(now.instant);
    assert(!doomed.contains(token)) by {
        if doomed.contains(token) {
            let i = doomed.index_of(token);
            all.lemma_filter_pred(p, i);
        }
    }
    fetching::lemma_connections_kept(m, doomed, now, token);
    lemma_clearing_adds(m, doomed, now);
}

proof fn lemma_clearing_adds(m: HubModel, doomed: Seq<Seq<char>>, now: Moment)
    ensures
        m.outbox.is_prefix_of(m.evict_all(doomed, now).outbox),
    decreases doomed.len(),
{
    if doomed.len() > 0 {
        lemma_clearing_adds(m, doomed.drop_last(), now);
    }
}

proof fn lemma_clearing_frees(m: HubModel, token: Seq<char>, now: Moment)
    requires
        !m.tokens.contains_key(token),
    ensures
        !m.gc(now).tokens.contains_key(token),
{
    crate::delivery::listen::lemma_evict_all_frees(m, m.stale_tokens(now.instant), now);
}

// ── Announcing ───────────────────────────────────────────────────────────────

/// Nobody has a name: no token holds it, it was not seen alive lately, and it never was anybody's.
pub open spec fn nobodys(m: HubModel, name: Seq<char>, now: Instant) -> bool {
    !m.name_to_token.contains_key(name) && !seen::seen_lately(m.registry, name, now)
        && !m.identities.contains(name)
}

/// Whoever announces a name that is nobody's has it: messages to the name go to the token, the
/// name is an identity from then on, it counts as alive, the binding is written down, no countdown
/// runs for it, and everybody who may hear of it hears that it is online. No other name moves.
pub proof fn law_name_announced(
    m: HubModel,
    token: Seq<char>,
    name: Seq<char>,
    now: Moment,
    other: Seq<char>,
    stream: u64,
)
    requires
        m.sound(),
        in_use(m, token, now.instant),
        nobodys(m, name, now.instant),
        other != name,
    ensures
        ({
            let (after, r) = m.announce(token, name, now);
            &&& r == Ok::<AnnounceView, ErrorView>(AnnounceView::Bound)
            &&& after.name_to_token.contains_key(name) && after.name_to_token[name] == token
            &&& after.token_to_name.contains_key(token) && after.token_to_name[token] == name
            &&& after.agents.contains_key(name) && after.agents[name] == token
            &&& after.identities == m.identities.insert(name)
            &&& after.tokens.contains_key(token) && after.tokens[token].name == Some(name)
            &&& after.tokens[token].last_active == now.instant
            &&& after.registry.entries.contains_key(name)
            &&& after.registry.entries[name].identity == token
            &&& after.registry.entries[name].last_seen == now.instant
            &&& !after.settling.contains_key(name)
            &&& m.persistent ==> since(
                m,
                after,
                EffectView::Store(StoreWriteView::UpsertIdentity { name }),
            )
            &&& m.persistent ==> since(
                m,
                after,
                EffectView::Store(
                    StoreWriteView::UpsertToken {
                        token,
                        identity: name,
                        token_type: "participant"@,
                        expires_at: None,
                    },
                ),
            )
            &&& after.audience(name, now).contains(stream) ==> since(
                m,
                after,
                EffectView::Push { stream, text: events::presence("online"@, name) },
            )
            &&& after.name_to_token.contains_key(other) == m.name_to_token.contains_key(other)
            &&& after.name_to_token[other] == m.name_to_token[other]
            &&& after.agents.contains_key(other) == m.agents.contains_key(other)
            &&& after.agents[other] == m.agents[other]
            &&& after.blocks == m.blocks && after.rooms == m.rooms && after.requests == m.requests
            &&& after.trust.grants == m.trust.grants
        }),
{
    lemma_clean(m, token, now);
    let clean = m.gc(now);
    let used = clean.touch(token, now.instant);
    let loose = HubModel { name_to_token: used.name_to_token.remove(name), ..used };
    assert(loose.name_free(name, now.instant));
    lemma_taken(loose, token, name, now);
    lemma_named(loose, token, name, now);
    let after = loose.take_name(token, name, now);
    if after.audience(name, now).contains(stream) {
        lemma_taken_told(loose, token, name, now, stream);
    }
}

/// What taking a name comes to before anybody is told.
spec fn named(m: HubModel, token: Seq<char>, name: Seq<char>, now: Moment) -> HubModel {
    let bound = m.bind(token, name).mark_seen(token, name, now.instant);
    match bound.tokens[token].governor_id {
        Some(g) => HubModel { trust: bound.trust.link(g, token), ..bound }.tell_role(name).hush(
            name,
        ),
        None => bound,
    }.cancel_settle(name)
}

proof fn lemma_named(m: HubModel, token: Seq<char>, name: Seq<char>, now: Moment)
    requires
        m.tokens.contains_key(token),
        !seen::seen_lately(m.registry, name, now.instant),
    ensures
        ({
            let after = named(m, token, name, now);
            &&& after.name_to_token == m.name_to_token.insert(name, token)
            &&& after.token_to_name == m.token_to_name.insert(token, name)
            &&& after.agents == m.agents.insert(name, token)
            &&& after.identities == m.identities.insert(name)
            &&& after.tokens.contains_key(token)
            &&& after.tokens[token].name == Some(name)
            &&& after.tokens[token].last_active == m.tokens[token].last_active
            &&& after.registry.entries.contains_key(name)
            &&& after.registry.entries[name].identity == token
            &&& after.registry.entries[name].last_seen == now.instant
            &&& !after.settling.contains_key(name)
            &&& after.trust.grants == m.trust.grants
            &&& after.blocks == m.blocks && after.rooms == m.rooms && after.requests == m.requests
            &&& after.outbox == m.outbox
            &&& after.persistent == m.persistent
        }),
{
}

proof fn lemma_taken(m: HubModel, token: Seq<char>, name: Seq<char>, now: Moment)
    requires
        m.tokens.contains_key(token),
        !seen::seen_lately(m.registry, name, now.instant),
    ensures
        ({
            let after = m.take_name(token, name, now);
            &&& after == (HubModel { outbox: after.outbox, ..named(m, token, name, now) })
            &&& m.persistent ==> since(
                m,
                after,
                EffectView::Store(StoreWriteView::UpsertIdentity { name }),
            )
            &&& m.persistent ==> since(
                m,
                after,
                EffectView::Store(
                    StoreWriteView::UpsertToken {
                        token,
                        identity: name,
                        token_type: "participant"@,
                        expires_at: None,
                    },
                ),
            )
        }),
{
    lemma_named(m, token, name, now);
    let back = named(m, token, name, now);
    let bound = m.bind(token, name).mark_seen(token, name, now.instant);
    let bell = match bound.tokens[token].governor_id {
        Some(g) => HubModel { trust: bound.trust.link(g, token), ..bound }.tell_role(name).bell(
            name,
        ),
        None => None,
    };
    let text = events::presence("online"@, name);
    let streams = back.audience(name, now);
    let told = back.store_binding(token, name).push(bell, events::notify(back.queue(name).len()));
    assert(m.take_name(token, name, now) == told.push_all(streams, text));
    lemma_stored_first(back, token, name, bell, events::notify(back.queue(name).len()), streams, text);
}

proof fn lemma_stored_first(
    m: HubModel,
    token: Seq<char>,
    name: Seq<char>,
    bell: Option<u64>,
    note: Seq<char>,
    streams: Seq<u64>,
    text: Seq<char>,
)
    ensures
        ({
            let after = m.store_binding(token, name).push(bell, note).push_all(streams, text);
            &&& after == (HubModel { outbox: after.outbox, ..m })
            &&& m.persistent ==> since(
                m,
                after,
                EffectView::Store(StoreWriteView::UpsertIdentity { name }),
            )
            &&& m.persistent ==> since(
                m,
                after,
                EffectView::Store(
                    StoreWriteView::UpsertToken {
                        token,
                        identity: name,
                        token_type: "participant"@,
                        expires_at: None,
                    },
                ),
            )
        }),
{
    let stored = m.store_binding(token, name);
    let told = stored.push(bell, note);
    let after = told.push_all(streams, text);
    presence::lemma_push_all_keeps(told, streams, text);
    lemma_pushing_adds(told, streams, text);
    if m.persistent {
        let n = m.outbox.len() as int;
        assert(told.outbox[n] == EffectView::Store(StoreWriteView::UpsertIdentity { name }));
        assert(told.outbox[n + 1] == EffectView::Store(
            StoreWriteView::UpsertToken {
                token,
                identity: name,
                token_type: "participant"@,
                expires_at: None,
            },
        ));
        assert(after.outbox[n] == told.outbox[n]);
        assert(after.outbox[n + 1] == told.outbox[n + 1]);
    }
}

proof fn lemma_pushing_adds(m: HubModel, streams: Seq<u64>, text: Seq<char>)
    ensures
        m.outbox.is_prefix_of(m.push_all(streams, text).outbox),
    decreases streams.len(),
{
    if streams.len() > 0 {
        lemma_pushing_adds(m, streams.drop_last(), text);
    }
}

proof fn lemma_taken_told(m: HubModel, token: Seq<char>, name: Seq<char>, now: Moment, stream: u64)
    requires
        m.tokens.contains_key(token),
        !seen::seen_lately(m.registry, name, now.instant),
        m.take_name(token, name, now).audience(name, now).contains(stream),
    ensures
        since(
            m,
            m.take_name(token, name, now),
            EffectView::Push { stream, text: events::presence("online"@, name) },
        ),
{
    let back = named(m, token, name, now);
    let bound = m.bind(token, name).mark_seen(token, name, now.instant);
    let bell = match bound.tokens[token].governor_id {
        Some(g) => HubModel { trust: bound.trust.link(g, token), ..bound }.tell_role(name).bell(
            name,
        ),
        None => None,
    };
    let text = events::presence("online"@, name);
    let streams = back.audience(name, now);
    let told = back.store_binding(token, name).push(bell, events::notify(back.queue(name).len()));
    let after = m.take_name(token, name, now);
    assert(after == told.push_all(streams, text));
    presence::lemma_push_all_keeps(told, streams, text);
    seen::lemma_same_audience(after, back, name, now);
    lemma_named(m, token, name, now);
    lemma_pushed_since(told, streams, text, stream);
    let k = choose|k: int|
        told.outbox.len() <= k < after.outbox.len() && #[trigger] after.outbox[k]
            == EffectView::Push { stream, text };
    assert(m.outbox.len() <= k);
}

proof fn lemma_pushed_since(m: HubModel, streams: Seq<u64>, text: Seq<char>, stream: u64)
    requires
        streams.contains(stream),
    ensures
        since(m, m.push_all(streams, text), EffectView::Push { stream, text }),
    decreases streams.len(),
{
    let fewer = streams.drop_last();
    let before = m.push_all(fewer, text);
    let after = m.push_all(streams, text);
    let told = EffectView::Push { stream, text };
    lemma_pushing_adds(m, fewer, text);
    if streams.last() == stream {
        assert(after.outbox[before.outbox.len() as int] == told);
    } else {
        assert(fewer[streams.index_of(stream)] == stream);
        lemma_pushed_since(m, fewer, text, stream);
        let k = choose|k: int|
            m.outbox.len() <= k < before.outbox.len() && #[trigger] before.outbox[k] == told;
        assert(after.outbox[k] == told);
    }
}

/// A name that is somebody's is not taken over: whoever else announces it is told where to turn,
/// and the holder keeps it. The holder itself may announce it as often as it likes.
pub proof fn law_name_kept(m: HubModel, token: Seq<char>, name: Seq<char>, now: Moment)
    requires
        m.sound(),
        in_use(m, token, now.instant),
        !nobodys(m, name, now.instant),
        m.name_to_token.contains_key(name) ==> m.tokens.contains_key(m.name_to_token[name])
            && m.tokens[m.name_to_token[name]].name == Some(name),
    ensures
        ({
            let (after, r) = m.announce(token, name, now);
            let own = m.name_to_token.contains_key(name) && m.name_to_token[name] == token;
            &&& r == Ok::<AnnounceView, ErrorView>(
                if own {
                    AnnounceView::Bound
                } else {
                    AnnounceView::NameInUse {
                        resolution_stream: "/sessions/"@ + name + "/events"@,
                    }
                },
            )
            &&& after.name_to_token == m.name_to_token
            &&& after.agents == m.agents
            &&& after.token_to_name == m.token_to_name
            &&& after.identities == m.identities
            &&& after.queues == m.queues
            &&& own ==> !after.settling.contains_key(name)
            &&& own && (seen::seen_lately(m.registry, name, now.instant)
                ==> m.registry.entries[name].identity == token) ==> seen::seen_lately(
                after.registry,
                name,
                now.instant,
            ) || m.registry.lapse_after == 0
            &&& !own ==> after.registry == m.registry && after.settling == m.settling
            &&& after.tokens[token].last_active == now.instant
        }),
{
    lemma_clean(m, token, now);
    let clean = m.gc(now);
    reveal(HubModel::sound);
    if m.name_to_token.contains_key(name) && m.name_to_token[name] != token {
        law_token_kept(m, m.name_to_token[name], now);
        assert(clean.touch(token, now.instant).token_of(name) is Some);
    }
    if !m.name_to_token.contains_key(name) {
        assert(m.name_to_token.remove(name) =~= m.name_to_token);
    }
}

/// Only a token in order announces.
pub proof fn law_announcing_needs_token(m: HubModel, token: Seq<char>, name: Seq<char>, now: Moment)
    requires
        m.sound(),
    ensures
        !m.tokens.contains_key(token) ==> m.announce(token, name, now) == (
            m.gc(now),
            Err::<AnnounceView, ErrorView>(ErrorView::TokenRejected),
        ),
        m.tokens.contains_key(token) && m.tokens[token].revoked ==> m.announce(token, name, now)
            == (m.gc(now), Err::<AnnounceView, ErrorView>(ErrorView::TokenRevoked)),
{
    if !m.tokens.contains_key(token) {
        lemma_clearing_frees(m, token, now);
    } else if m.tokens[token].revoked {
        lemma_clean(m, token, now);
    }
}

/// Whoever announces a name with a token that a governor listens on is told once what a governor
/// does, as a message of its own, and the governor is reached over that token from then on.
pub proof fn law_governor_announced(
    m: HubModel,
    token: Seq<char>,
    name: Seq<char>,
    governor: Seq<char>,
    now: Moment,
)
    requires
        m.sound(),
        in_use(m, token, now.instant),
        nobodys(m, name, now.instant),
        m.tokens[token].governor_id == Some(governor),
        m.trust.governors.contains_key(governor),
        !m.queues.contains_key(name),
    ensures
        ({
            let after = m.announce(token, name, now).0;
            &&& after.trust.governors[governor].listen_token == Some(token)
            &&& after.queues[name].len() == 1
            &&& after.queues[name][0].payload == vstd::utf8::encode_utf8(events::governor_role())
            &&& after.queues[name][0].from_name == "system"@
            &&& after.queues[name][0].event_type == Some("governor_role"@)
        }),
{
    lemma_clean(m, token, now);
    let clean = m.gc(now);
    let used = clean.touch(token, now.instant);
    let loose = HubModel { name_to_token: used.name_to_token.remove(name), ..used };
    lemma_taken(loose, token, name, now);
    let bound = loose.bind(token, name).mark_seen(token, name, now.instant);
    assert(bound.tokens[token].governor_id == Some(governor));
    assert(!bound.told_of_role(name));
}

// ── Opening a stream ─────────────────────────────────────────────────────────

/// A stream that a token has.
pub open spec fn stream_held(m: HubModel, token: Seq<char>) -> Option<u64> {
    match m.tokens[token].stream {
        Some(s) => Some(s.id),
        None => None,
    }
}

/// The state of a token, and what it was told, once a stream was opened for it.
pub open spec fn opened(m: HubModel, after: HubModel, token: Seq<char>, push: bool, now: Instant) -> bool {
    let before = m.tokens[token];
    let st = after.tokens[token];
    let stream = m.next_stream;
    let waiting = match st.name {
        Some(name) => if after.queues.contains_key(name) {
            after.queues[name].len()
        } else {
            0
        },
        None => 0,
    };
    &&& after.tokens.contains_key(token)
    &&& st.stream == Some(Stream { id: stream, open: true })
    &&& after.next_stream != stream
    &&& st.ever_listened && !st.pending_first_listen && !st.revoked
    &&& st.presence_push == push
    &&& st.last_active == now
    &&& st.hidden == before.hidden && st.msg_id == before.msg_id && st.ever_granted
        == before.ever_granted
    &&& after.connections.contains_key(token)
    &&& after.connections[token] == if !m.connections.contains_key(token) {
        1
    } else if m.connections[token] < usize::MAX {
        m.connections[token] + 1
    } else {
        usize::MAX as int
    }
    &&& stream_held(m, token) matches Some(former) ==> {
        &&& since(m, after, EffectView::Push { stream: former, text: events::superseded() })
        &&& since(m, after, EffectView::Close { stream: former })
    }
    &&& since(m, after, EffectView::Push { stream, text: events::subscribed(before.msg_id) })
    &&& !m.startup_announced ==> since(
        m,
        after,
        EffectView::Push { stream, text: events::sim_online() },
    )
    &&& after.startup_announced
    &&& waiting > 0 ==> since(m, after, EffectView::Push { stream, text: events::notify(waiting) })
    &&& st.notify_suppressed == (waiting > 0)
    &&& after.queues == m.queues && after.blocks == m.blocks && after.rooms == m.rooms
}

proof fn lemma_stream_taken(
    m: HubModel,
    token: Seq<char>,
    provided: Seq<char>,
    ip: Option<Seq<char>>,
    push: bool,
    now: Instant,
)
    requires
        m.tokens.contains_key(token),
    ensures
        ({
            let after = m.stream_taken(token, provided, ip, push, now);
            let st = after.tokens[token];
            let before = m.tokens[token];
            &&& after.tokens.contains_key(token)
            &&& st.stream == Some(Stream { id: m.next_stream, open: true })
            &&& after.next_stream != m.next_stream
            &&& st.ever_listened && !st.pending_first_listen && st.revoked == before.revoked
            &&& st.presence_push == push
            &&& st.last_active == now
            &&& st.hidden == before.hidden && st.msg_id == before.msg_id && st.ever_granted
                == before.ever_granted && st.name == before.name
            &&& provided == token ==> st.governor_id == before.governor_id
            &&& after.connections.contains_key(token)
            &&& after.connections[token] == if !m.connections.contains_key(token) {
                1
            } else if m.connections[token] < usize::MAX {
                m.connections[token] + 1
            } else {
                usize::MAX as int
            }
            &&& m.outbox.is_prefix_of(after.outbox)
            &&& stream_held(m, token) matches Some(former) ==> {
                &&& since(m, after, EffectView::Push { stream: former, text: events::superseded() })
                &&& since(m, after, EffectView::Close { stream: former })
            }
            &&& after.queues == m.queues && after.blocks == m.blocks && after.rooms == m.rooms
            &&& after.startup_announced == m.startup_announced
            &&& after.persistent == m.persistent
            &&& after.identities == m.identities
            &&& after.registry == m.registry
            &&& after.settling == m.settling
            &&& before.name is None ==> after.name_to_token == m.name_to_token && after.agents
                == m.agents
        }),
{
    lemma_noted(m, token, ip, now);
    let noted = m.rebind_lost(token).note_address(token, ip, now);
    lemma_stream_held(noted, token, push, now);
    let taken = noted.take_stream(token, push, now);
    lemma_linked(taken, token, provided, now);
    let after = taken.link_session(token, provided, now);
    assert forall|e: EffectView| since(noted, taken, e) implies since(m, after, e) by {
        let k = choose|k: int|
            noted.outbox.len() <= k < taken.outbox.len() && #[trigger] taken.outbox[k] == e;
        assert(after.outbox[k] == e);
    }
}

proof fn lemma_noted(m: HubModel, token: Seq<char>, ip: Option<Seq<char>>, now: Instant)
    requires
        m.tokens.contains_key(token),
    ensures
        ({
            let after = m.rebind_lost(token).note_address(token, ip, now);
            let st = after.tokens[token];
            &&& after == (HubModel {
                name_to_token: after.name_to_token,
                token_to_name: after.token_to_name,
                agents: after.agents,
                tokens: after.tokens,
                outbox: after.outbox,
                ..m
            })
            &&& after.tokens.contains_key(token)
            &&& st == (crate::delivery::ListenView {
                last_ip: st.last_ip,
                last_ip_at: st.last_ip_at,
                ..m.tokens[token]
            })
            &&& m.outbox.is_prefix_of(after.outbox)
            &&& m.tokens[token].name is None ==> after.name_to_token == m.name_to_token
                && after.agents == m.agents
        }),
{
    let found = m.rebind_lost(token);
    lemma_found(m, token);
    if ip is Some {
        let address = ip->0;
        let st = crate::delivery::ListenView {
            last_ip: Some(address),
            last_ip_at: Some(now),
            ..found.tokens[token]
        };
        let noted = found.set_token(token, st);
        let alert = EffectView::Governors {
            text: events::concurrent_use_alert(token, address, found.tokens[token].last_ip->0),
        };
        let after = found.note_address(token, ip, now);
        assert(after == noted || after == noted.emit(alert));
    }
}

proof fn lemma_found(m: HubModel, token: Seq<char>)
    requires
        m.tokens.contains_key(token),
    ensures
        ({
            let after = m.rebind_lost(token);
            &&& after == (HubModel {
                name_to_token: after.name_to_token,
                token_to_name: after.token_to_name,
                agents: after.agents,
                ..m
            })
            &&& m.tokens[token].name is None ==> after == m
        }),
{
}

proof fn lemma_stream_held(m: HubModel, token: Seq<char>, push: bool, now: Instant)
    requires
        m.tokens.contains_key(token),
    ensures
        ({
            let after = m.take_stream(token, push, now);
            &&& after == (HubModel {
                tokens: after.tokens,
                connections: after.connections,
                outbox: after.outbox,
                next_stream: after.next_stream,
                ..m
            })
            &&& after.tokens.contains_key(token)
            &&& after.tokens[token] == (crate::delivery::ListenView {
                stream: Some(Stream { id: m.next_stream, open: true }),
                ever_listened: true,
                pending_first_listen: false,
                presence_push: push,
                last_active: now,
                ..m.tokens[token]
            })
            &&& after.next_stream != m.next_stream
            &&& after.connections.contains_key(token)
            &&& after.connections[token] == if !m.connections.contains_key(token) {
                1
            } else if m.connections[token] < usize::MAX {
                m.connections[token] + 1
            } else {
                usize::MAX as int
            }
            &&& m.outbox.is_prefix_of(after.outbox)
            &&& stream_held(m, token) matches Some(former) ==> {
                &&& since(m, after, EffectView::Push { stream: former, text: events::superseded() })
                &&& since(m, after, EffectView::Close { stream: former })
            }
        }),
{
    let after = m.take_stream(token, push, now);
    if stream_held(m, token) is Some {
        let former = stream_held(m, token)->0;
        let k = m.outbox.len() as int;
        assert(after.outbox[k] == EffectView::Push { stream: former, text: events::superseded() });
        assert(after.outbox[k + 1] == EffectView::Close { stream: former });
    }
}

proof fn lemma_linked(m: HubModel, token: Seq<char>, provided: Seq<char>, now: Instant)
    requires
        m.tokens.contains_key(token),
    ensures
        ({
            let after = m.link_session(token, provided, now);
            &&& after == (HubModel { trust: after.trust, tokens: after.tokens, ..m })
            &&& after.tokens.contains_key(token)
            &&& after.tokens[token] == (crate::delivery::ListenView {
                governor_id: after.tokens[token].governor_id,
                ..m.tokens[token]
            })
            &&& provided == token ==> after == m
        }),
{
}

proof fn lemma_greeted(
    m: HubModel,
    token: Seq<char>,
    provided: Seq<char>,
    taken: Option<Seq<char>>,
    stream: u64,
)
    requires
        m.tokens.contains_key(token),
    ensures
        ({
            let after = m.greet(token, provided, taken, stream).catch_up(token, stream);
            let st = after.tokens[token];
            let waiting = match st.name {
                Some(name) => m.queue(name).len(),
                None => 0,
            };
            &&& m.outbox.is_prefix_of(after.outbox)
            &&& after == (HubModel {
                outbox: after.outbox,
                tokens: after.tokens,
                startup_announced: true,
                ..m
            })
            &&& after.tokens == m.tokens.insert(
                token,
                crate::delivery::ListenView { notify_suppressed: waiting > 0, ..m.tokens[token] },
            )
            &&& since(
                m,
                after,
                EffectView::Push {
                    stream,
                    text: if token != provided {
                        events::minted_welcome(token, st.name, taken)
                    } else {
                        events::welcome(token, st.name, taken)
                    },
                },
            )
            &&& since(m, after, EffectView::Push { stream, text: events::subscribed(st.msg_id) })
            &&& !m.startup_announced ==> since(
                m,
                after,
                EffectView::Push { stream, text: events::sim_online() },
            )
            &&& waiting > 0 ==> since(
                m,
                after,
                EffectView::Push { stream, text: events::notify(waiting) },
            )
        }),
{
    let greeted = m.greet(token, provided, taken, stream);
    let after = greeted.catch_up(token, stream);
    let n = m.outbox.len() as int;
    assert(greeted.outbox[n] == after.outbox[n]);
    assert(greeted.outbox[n + 1] == after.outbox[n + 1]);
    if !m.startup_announced {
        assert(greeted.outbox[n + 2] == after.outbox[n + 2]);
        assert(after.outbox[n + 2] == EffectView::Push { stream, text: events::sim_online() });
    }
    assert(after.outbox[n + 1] == EffectView::Push {
        stream,
        text: events::subscribed(m.tokens[token].msg_id),
    });
    assert(after.outbox[after.outbox.len() - 1] == after.outbox.last());
}

proof fn lemma_started(
    m: HubModel,
    token: Seq<char>,
    provided: Seq<char>,
    ip: Option<Seq<char>>,
    name: Option<Seq<char>>,
    push: bool,
    now: Instant,
)
    requires
        m.tokens.contains_key(token),
        !m.tokens[token].revoked,
    ensures
        opened(m, m.start_stream(token, provided, ip, name, push, now), token, push, now),
{
    lemma_stream_taken(m, token, provided, ip, push, now);
    let taken = m.stream_taken(token, provided, ip, push, now);
    let asked = taken.bind_asked(token, name, now);
    let refused = taken.taken_name(token, name, now);
    assert(asked.outbox == taken.outbox);
    lemma_greeted(asked, token, provided, refused, m.next_stream);
    let running = asked.greet(token, provided, refused, m.next_stream).catch_up(
        token,
        m.next_stream,
    );
    let after = m.start_stream(token, provided, ip, name, push, now);
    assert(running.outbox.is_prefix_of(after.outbox));
    assert(after.tokens == running.tokens);
    assert(after.queues == m.queues);
    assert forall|e: EffectView| since(m, taken, e) implies since(m, after, e) by {
        let k = choose|k: int|
            m.outbox.len() <= k < taken.outbox.len() && #[trigger] taken.outbox[k] == e;
        assert(after.outbox[k] == e);
    }
    assert forall|e: EffectView| since(asked, running, e) implies since(m, after, e) by {
        let k = choose|k: int|
            asked.outbox.len() <= k < running.outbox.len() && #[trigger] running.outbox[k] == e;
        assert(after.outbox[k] == e);
    }
}

/// A token in order opens a stream, unless one runs and is not to be taken over: the stream is
/// open from then on, the one before it is told and ends, the newcomer is told up to where its
/// messages are numbered and how many wait, and the token counts as used.
pub proof fn law_stream_opened(
    m: HubModel,
    token: Seq<char>,
    ip: Option<Seq<char>>,
    name: Option<Seq<char>>,
    force: bool,
    push: bool,
    n: u64,
    now: Moment,
)
    requires
        m.sound(),
        in_use(m, token, now.instant),
        force || !seen::connected(m, token),
    ensures
        m.open_listen(Some(token), ip, name, force, push, n, now).1 == Ok::<
            (Seq<char>, u64),
            ErrorView,
        >((token, m.next_stream)),
        opened(
            m,
            m.open_listen(Some(token), ip, name, force, push, n, now).0,
            token,
            push,
            now.instant,
        ),
{
    lemma_clean(m, token, now);
    let clean = m.gc(now);
    lemma_started(clean, token, token, ip, name, push, now.instant);
    let after = m.open_listen(Some(token), ip, name, force, push, n, now).0;
    assert(after == clean.start_stream(token, token, ip, name, push, now.instant));
    assert forall|e: EffectView| since(clean, after, e) implies since(m, after, e) by {
        let k = choose|k: int|
            clean.outbox.len() <= k < after.outbox.len() && #[trigger] after.outbox[k] == e;
    }
}

/// Nobody else opens a stream: a running one is left alone unless it is to be taken over, and
/// tokens that are revoked or unknown open none, unless a governor comes with its own.
pub proof fn law_stream_refused(
    m: HubModel,
    token: Seq<char>,
    ip: Option<Seq<char>>,
    name: Option<Seq<char>>,
    force: bool,
    push: bool,
    n: u64,
    now: Moment,
)
    requires
        m.sound(),
    ensures
        m.open_listen(None, ip, name, force, push, n, now) == (
            m,
            Err::<(Seq<char>, u64), ErrorView>(ErrorView::AuthFailed),
        ),
        ({
            let (after, r) = m.open_listen(Some(token), ip, name, force, push, n, now);
            &&& in_use(m, token, now.instant) && seen::connected(m, token) && !force ==> after
                == m.gc(now) && r == Err::<(Seq<char>, u64), ErrorView>(
                ErrorView::ActiveSubscription,
            )
            &&& m.tokens.contains_key(token) && m.tokens[token].revoked ==> after == m.gc(now) && r
                == Err::<(Seq<char>, u64), ErrorView>(ErrorView::TokenRevoked)
            &&& !m.tokens.contains_key(token) && m.trust.verify(token, now.instant) is Err ==> after
                == m.gc(now) && r == Err::<(Seq<char>, u64), ErrorView>(ErrorView::AuthFailed)
        }),
{
    if in_use(m, token, now.instant) || (m.tokens.contains_key(token) && m.tokens[token].revoked) {
        lemma_clean(m, token, now);
    }
    if !m.tokens.contains_key(token) {
        lemma_clearing_frees(m, token, now);
        fetching::law_clearing_away_spares_the_named(m, now, token);
    }
}

/// A governor that comes with its own token is given one of its own to listen on: a new token,
/// with the stream, through which the governor is reached, and about which it is told on the
/// stream.
pub proof fn law_governor_listens(
    m: HubModel,
    governor: Seq<char>,
    ip: Option<Seq<char>>,
    force: bool,
    push: bool,
    n: u64,
    now: Moment,
)
    requires
        m.sound(),
        !m.tokens.contains_key(governor),
        m.trust.verify(governor, now.instant) is Ok,
        m.trust.governors.contains_key(governor),
        text::decimal(n as nat) != governor,
        !m.tokens.contains_key(text::decimal(n as nat)),
    ensures
        ({
            let (after, r) = m.open_listen(Some(governor), ip, None, force, push, n, now);
            let token = text::decimal(n as nat);
            let st = after.tokens[token];
            &&& r == Ok::<(Seq<char>, u64), ErrorView>((token, m.next_stream))
            &&& after.tokens.contains_key(token)
            &&& st.governor_id == Some(governor)
            &&& st.stream == Some(Stream { id: m.next_stream, open: true })
            &&& st.name is None && st.ever_listened && !st.revoked && !st.pending_first_listen
            &&& after.trust.governors[governor].listen_token == Some(token)
            &&& since(
                m,
                after,
                EffectView::Push {
                    stream: m.next_stream,
                    text: events::minted_welcome(token, None, None),
                },
            )
        }),
{
    lemma_clearing_frees(m, governor, now);
    lemma_clearing_frees(m, text::decimal(n as nat), now);
    fetching::law_clearing_away_spares_the_named(m, now, governor);
    lemma_clearing_adds(m, m.stale_tokens(now.instant), now);
    let clean = m.gc(now);
    let token = text::decimal(n as nat);
    let made = clean.enrol(n, false, now.instant);
    lemma_stream_taken(made, token, governor, ip, push, now.instant);
    let taken = made.stream_taken(token, governor, ip, push, now.instant);
    lemma_greeted(taken, token, governor, None, m.next_stream);
    let after = m.open_listen(Some(governor), ip, None, force, push, n, now).0;
    let welcome = EffectView::Push {
        stream: m.next_stream,
        text: events::minted_welcome(token, None, None),
    };
    assert(since(taken, after, welcome));
    let k = choose|k: int|
        taken.outbox.len() <= k < after.outbox.len() && #[trigger] after.outbox[k] == welcome;
    assert(m.outbox.len() <= k);
}

/// A name asked for with the stream goes to the token if it is nobody's, and is written down; a
/// name that is somebody else's stays where it is, and the newcomer is told that it was taken. A
/// name the token has already stays its own.
pub proof fn law_name_with_stream(
    m: HubModel,
    token: Seq<char>,
    ip: Option<Seq<char>>,
    name: Seq<char>,
    force: bool,
    push: bool,
    n: u64,
    now: Moment,
)
    requires
        m.sound(),
        in_use(m, token, now.instant),
        force || !seen::connected(m, token),
        m.tokens[token].name is None,
    ensures
        ({
            let after = m.open_listen(Some(token), ip, Some(name), force, push, n, now).0;
            let free = nobodys(m, name, now.instant);
            let own = m.name_to_token.contains_key(name) && m.name_to_token[name] == token;
            &&& free ==> {
                &&& after.name_to_token == m.name_to_token.insert(name, token)
                &&& after.agents == m.agents.insert(name, token)
                &&& after.identities == m.identities.insert(name)
                &&& after.tokens[token].name == Some(name)
                &&& m.persistent ==> since(
                    m,
                    after,
                    EffectView::Store(StoreWriteView::UpsertIdentity { name }),
                )
                &&& m.persistent ==> since(
                    m,
                    after,
                    EffectView::Store(
                        StoreWriteView::UpsertToken {
                            token,
                            identity: name,
                            token_type: "participant"@,
                            expires_at: None,
                        },
                    ),
                )
            }
            &&& free || own ==> !after.settling.contains_key(name)
            &&& !free ==> {
                &&& after.name_to_token == m.name_to_token
                &&& after.agents == m.agents
                &&& after.identities == m.identities
                &&& after.tokens[token].name is None
            }
            &&& since(
                m,
                after,
                EffectView::Push {
                    stream: m.next_stream,
                    text: events::welcome(
                        token,
                        after.tokens[token].name,
                        if free || own {
                            None
                        } else {
                            Some(name)
                        },
                    ),
                },
            )
        }),
{
    lemma_clean(m, token, now);
    let clean = m.gc(now);
    lemma_stream_taken(clean, token, token, ip, push, now.instant);
    let taken = clean.stream_taken(token, token, ip, push, now.instant);
    let asked = taken.bind_asked(token, Some(name), now.instant);
    let refused = taken.taken_name(token, Some(name), now.instant);
    lemma_greeted(asked, token, token, refused, m.next_stream);
    let running = asked.greet(token, token, refused, m.next_stream).catch_up(token, m.next_stream);
    let after = m.open_listen(Some(token), ip, Some(name), force, push, n, now).0;
    let welcome = EffectView::Push {
        stream: m.next_stream,
        text: events::welcome(token, asked.tokens[token].name, refused),
    };
    assert(since(asked, running, welcome));
    let k = choose|k: int|
        asked.outbox.len() <= k < running.outbox.len() && #[trigger] running.outbox[k] == welcome;
    assert(after.outbox[k] == welcome);
    if nobodys(m, name, now.instant) {
        assert(taken.name_free(name, now.instant));
        assert(after == running.store_binding(token, name));
        if m.persistent {
            let k = running.outbox.len() as int;
            assert(after.outbox[k] == EffectView::Store(StoreWriteView::UpsertIdentity { name }));
            assert(after.outbox[k + 1] == EffectView::Store(
                StoreWriteView::UpsertToken {
                    token,
                    identity: name,
                    token_type: "participant"@,
                    expires_at: None,
                },
            ));
        }
    }
}

/// A token whose name had gone lost has it again once it opens a stream.
pub proof fn law_name_comes_back(
    m: HubModel,
    token: Seq<char>,
    ip: Option<Seq<char>>,
    name: Seq<char>,
    force: bool,
    push: bool,
    n: u64,
    now: Moment,
)
    requires
        m.sound(),
        in_use(m, token, now.instant),
        force || !seen::connected(m, token),
        m.tokens[token].name == Some(name),
        !m.name_to_token.contains_key(name),
    ensures
        ({
            let after = m.open_listen(Some(token), ip, None, force, push, n, now).0;
            &&& after.name_to_token == m.name_to_token.insert(name, token)
            &&& after.token_to_name.contains_key(token) && after.token_to_name[token] == name
            &&& after.agents.contains_key(name)
            &&& after.tokens[token].name == Some(name)
        }),
{
    lemma_clean(m, token, now);
    let clean = m.gc(now);
    lemma_stream_taken(clean, token, token, ip, push, now.instant);
    let taken = clean.stream_taken(token, token, ip, push, now.instant);
    lemma_greeted(taken, token, token, None, m.next_stream);
}

/// Governors are warned where a token is used from two addresses within a minute, with both, and
/// not otherwise; the address a token was last used from is kept.
pub proof fn law_shared_token_noticed(
    m: HubModel,
    token: Seq<char>,
    ip: Seq<char>,
    last: Seq<char>,
    at: Instant,
    force: bool,
    push: bool,
    n: u64,
    now: Moment,
)
    requires
        m.sound(),
        in_use(m, token, now.instant),
        force || !seen::connected(m, token),
        m.tokens[token].last_ip == Some(last),
        m.tokens[token].last_ip_at == Some(at),
        at <= now.instant,
    ensures
        ({
            let after = m.open_listen(Some(token), Some(ip), None, force, push, n, now).0;
            &&& after.tokens[token].last_ip == Some(ip)
            &&& after.tokens[token].last_ip_at == Some(now.instant)
            &&& last != ip && now.instant - at < 60_000_000_000 ==> since(
                m,
                after,
                EffectView::Governors { text: events::concurrent_use_alert(token, ip, last) },
            )
            &&& last == ip || now.instant - at >= 60_000_000_000 ==> forall|text: Seq<char>|
                !(#[trigger] since(m.gc(now), after, EffectView::Governors { text }))
        }),
{
    lemma_clean(m, token, now);
    let clean = m.gc(now);
    lemma_noted(clean, token, Some(ip), now.instant);
    let noted = clean.rebind_lost(token).note_address(token, Some(ip), now.instant);
    lemma_stream_held(noted, token, push, now.instant);
    let taken = noted.take_stream(token, push, now.instant);
    lemma_linked(taken, token, token, now.instant);
    lemma_greeted(taken, token, token, None, m.next_stream);
    let after = m.open_listen(Some(token), Some(ip), None, force, push, n, now).0;
    assert(after == taken.greet(token, token, None, m.next_stream).catch_up(token, m.next_stream));
    assert(noted.outbox.is_prefix_of(after.outbox));
    lemma_no_alert(noted, taken, after, token, push, now.instant);
    if last != ip && now.instant - at < 60_000_000_000 {
        let k = clean.outbox.len() as int;
        assert(noted.outbox[k] == EffectView::Governors {
            text: events::concurrent_use_alert(token, ip, last),
        });
        assert(after.outbox[k] == noted.outbox[k]);
    } else {
        assert(noted.outbox == clean.outbox);
    }
}

proof fn lemma_no_alert(
    m: HubModel,
    taken: HubModel,
    after: HubModel,
    token: Seq<char>,
    push: bool,
    now: Instant,
)
    requires
        taken == m.take_stream(token, push, now),
        after == taken.greet(token, token, None, m.next_stream).catch_up(token, m.next_stream),
    ensures
        forall|i: int|
            m.outbox.len() <= i < after.outbox.len() ==> !(#[trigger] after.outbox[i] is Governors),
{
}

} // verus!
