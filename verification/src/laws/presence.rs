//! Laws of tokens, the names bound to them, and who sees whom.

use crate::clock::{Instant, Moment};
use crate::delivery::listen;
use crate::delivery::model::HubModel;
use crate::delivery::{AnnounceView, EffectView, ListenView, StoreWriteView};
use crate::error::ErrorView;
use crate::persistence::TokenRow;
use crate::rooms;
use crate::seqs;
use crate::strmap;
use crate::text;
use crate::trust;
use vstd::prelude::*;

verus! {

// ── Stale tokens ─────────────────────────────────────────────────────────────

proof fn lemma_evict_all_keeps(m: HubModel, doomed: Seq<Seq<char>>, now: Moment, kept: Seq<char>)
    requires
        !doomed.contains(kept),
    ensures
        m.evict_all(doomed, now).tokens.contains_key(kept) == m.tokens.contains_key(kept),
        m.evict_all(doomed, now).tokens[kept] == m.tokens[kept],
    decreases doomed.len(),
{
    if doomed.len() > 0 {
        assert(!doomed.drop_last().contains(kept)) by {
            if doomed.drop_last().contains(kept) {
                let i = choose|i: int| 0 <= i < doomed.drop_last().len() && doomed.drop_last()[i] == kept;
                assert(doomed[i] == kept);
            }
        }
        assert(doomed[doomed.len() - 1] != kept);
        lemma_evict_all_keeps(m, doomed.drop_last(), now, kept);
    }
}

/// A token that is revoked, that a governor opened, or whose name is an identity is never cleared
/// away, whatever its age; and no token is cleared away that is not stale.
pub proof fn law_kept_tokens(m: HubModel, token: Seq<char>, now: Moment)
    requires
        m.tokens.contains_key(token),
        m.tokens[token].revoked || m.tokens[token].governor_id is Some || (
        m.tokens[token].name is Some && m.identities.contains(m.tokens[token].name->0)) || !m.stale(
            token,
            now.instant,
        ),
    ensures
        m.gc(now).tokens.contains_key(token),
        m.gc(now).tokens[token] == m.tokens[token],
{
    let p = |t: Seq<char>| m.stale(t, now.instant);
    let doomed = m.stale_tokens(now.instant);
    assert(!m.stale(token, now.instant));
    if doomed.contains(token) {
        let i = choose|i: int| 0 <= i < doomed.len() && doomed[i] == token;
        strmap::sorted(m.tokens.dom()).lemma_filter_pred(p, i);
    }
    lemma_evict_all_keeps(m, doomed, now, token);
}

/// A token in use is young: one that was used a moment ago is not stale.
pub proof fn law_used_token_is_fresh(m: HubModel, token: Seq<char>, now: Instant)
    requires
        m.tokens[token].last_active == now,
    ensures
        !m.stale(token, now),
{
}

/// Fetching is use: whoever fetched a message, or asked for one, has a token that is not stale.
pub proof fn law_fetching_is_use(m: HubModel, token: Seq<char>, thread: Option<Seq<char>>, now: Moment)
    requires
        m.dequeue(token, thread, now).1 is Ok,
    ensures
        m.dequeue(token, thread, now).0.tokens.contains_key(token),
        m.dequeue(token, thread, now).0.tokens[token].last_active == now.instant,
        !m.dequeue(token, thread, now).0.stale(token, now.instant),
{
}

// ── Identities ───────────────────────────────────────────────────────────────

proof fn lemma_evict_all_keeps_identities(m: HubModel, doomed: Seq<Seq<char>>, now: Moment)
    ensures
        m.evict_all(doomed, now).identities == m.identities,
    decreases doomed.len(),
{
    if doomed.len() > 0 {
        lemma_evict_all_keeps_identities(m, doomed.drop_last(), now);
    }
}

pub(crate) proof fn lemma_push_all_keeps(m: HubModel, streams: Seq<u64>, text: Seq<char>)
    ensures
        m.push_all(streams, text) == (HubModel { outbox: m.push_all(streams, text).outbox, ..m }),
    decreases streams.len(),
{
    if streams.len() > 0 {
        lemma_push_all_keeps(m, streams.drop_last(), text);
    }
}

proof fn lemma_gc_keeps_identities(m: HubModel, now: Moment)
    ensures
        m.gc(now).identities == m.identities,
{
    lemma_evict_all_keeps_identities(m, m.stale_tokens(now.instant), now);
}

/// An identity is permanent: whatever becomes of its token (cleared away, cancelled, revoked,
/// replaced, or closed), the name stays an identity.
pub proof fn law_identity_is_permanent(
    m: HubModel,
    identity: Seq<char>,
    token: Seq<char>,
    name: Seq<char>,
    governor: Seq<char>,
    given: Option<Seq<char>>,
    ip: Option<Seq<char>>,
    force: bool,
    push: bool,
    n: u64,
    now: Moment,
)
    requires
        m.identities.contains(identity),
    ensures
        m.gc(now).identities.contains(identity),
        m.cancel_listen(token, now).0.identities.contains(identity),
        m.close_listen(token, now).identities.contains(identity),
        m.revoke_token(token, governor, now).0.identities.contains(identity),
        m.revoke_by_name(name, governor, now).0.identities.contains(identity),
        m.issue_participant(governor, given, n, now.instant).0.identities.contains(identity),
        m.announce(token, name, now).0.identities.contains(identity),
        m.open_listen(Some(token), ip, given, force, push, n, now).0.identities.contains(identity),
{
    lemma_gc_keeps_identities(m, now);
    lemma_announce_keeps_identities(m, token, name, now, identity);
    lemma_open_keeps_identities(m, token, ip, given, force, push, n, now, identity);
}

proof fn lemma_announce_keeps_identities(
    m: HubModel,
    token: Seq<char>,
    name: Seq<char>,
    now: Moment,
    identity: Seq<char>,
)
    requires
        m.identities.contains(identity),
    ensures
        m.announce(token, name, now).0.identities.contains(identity),
{
    lemma_gc_keeps_identities(m, now);
    let used = m.gc(now).touch(token, now.instant);
    let loose = HubModel { name_to_token: used.name_to_token.remove(name), ..used };
    lemma_take_name_keeps_identities(loose, token, name, now, identity);
}

proof fn lemma_open_keeps_identities(
    m: HubModel,
    token: Seq<char>,
    ip: Option<Seq<char>>,
    given: Option<Seq<char>>,
    force: bool,
    push: bool,
    n: u64,
    now: Moment,
    identity: Seq<char>,
)
    requires
        m.identities.contains(identity),
    ensures
        m.open_listen(Some(token), ip, given, force, push, n, now).0.identities.contains(identity),
{
    lemma_gc_keeps_identities(m, now);
    let clean = m.gc(now);
    lemma_start_stream_keeps_identities(clean, token, token, ip, given, push, now.instant, identity);
    lemma_start_stream_keeps_identities(
        clean.enrol(n, false, now.instant),
        text::decimal(n as nat),
        token,
        ip,
        given,
        push,
        now.instant,
        identity,
    );
}

proof fn lemma_take_name_keeps_identities(
    m: HubModel,
    token: Seq<char>,
    name: Seq<char>,
    now: Moment,
    identity: Seq<char>,
)
    requires
        m.identities.contains(identity),
    ensures
        m.take_name(token, name, now).identities.contains(identity),
{
    let named = m.bind(token, name).mark_seen(token, name, now.instant);
    let role = match named.tokens[token].governor_id {
        Some(g) => HubModel { trust: named.trust.link(g, token), ..named }.tell_role(name),
        None => named,
    };
    let governs = named.tokens[token].governor_id is Some;
    let bell = if governs {
        role.bell(name)
    } else {
        None
    };
    let hushed = if governs {
        role.hush(name)
    } else {
        role
    };
    let back = hushed.cancel_settle(name);
    let stored = back.store_binding(token, name).push(
        bell,
        crate::events::notify(back.queue(name).len()),
    );
    lemma_push_all_keeps(
        stored,
        back.audience(name, now),
        crate::events::presence("online"@, name),
    );
}

proof fn lemma_start_stream_keeps_identities(
    m: HubModel,
    token: Seq<char>,
    provided: Seq<char>,
    ip: Option<Seq<char>>,
    name: Option<Seq<char>>,
    push: bool,
    now: Instant,
    identity: Seq<char>,
)
    requires
        m.identities.contains(identity),
    ensures
        m.start_stream(token, provided, ip, name, push, now).identities.contains(identity),
{
    let taken = m.stream_taken(token, provided, ip, push, now);
    assert(taken.identities == m.identities);
    let asked = taken.bind_asked(token, name, now);
    assert(asked.identities.contains(identity));
    let greeted = asked.greet(
        token,
        provided,
        taken.taken_name(token, name, now),
        m.next_stream,
    );
    assert(greeted.identities == asked.identities);
    assert(greeted.catch_up(token, m.next_stream).identities == asked.identities);
}

// ── Names ────────────────────────────────────────────────────────────────────

/// A name that another token holds, that is registered and live, or that was ever bound is not
/// taken over: the caller is told that it is in use, and the name stays where it was.
pub proof fn law_no_takeover(m: HubModel, token: Seq<char>, name: Seq<char>, now: Moment)
    requires
        m.gc(now).tokens.contains_key(token),
        !m.gc(now).tokens[token].revoked,
        m.gc(now).holder(name) != Some(token),
        m.gc(now).token_of(name) is Some || m.gc(now).registry.live(name, now.instant) || m.gc(
            now,
        ).identities.contains(name),
    ensures
        m.announce(token, name, now).1 == Ok::<AnnounceView, ErrorView>(
            AnnounceView::NameInUse { resolution_stream: listen::resolution(name) },
        ),
        m.gc(now).token_of(name) is Some ==> m.announce(token, name, now).0.holder(name) == m.gc(
            now,
        ).holder(name),
        m.announce(token, name, now).0.holder(name) != Some(token),
{
    let used = m.gc(now).touch(token, now.instant);
    assert(used.token_of(name) == m.gc(now).token_of(name));
}

/// Announcing a name twice with one token is announcing it once: the name is bound to the token
/// either way.
pub proof fn law_reannounce_idempotent(m: HubModel, token: Seq<char>, name: Seq<char>, now: Moment)
    requires
        m.gc(now).tokens.contains_key(token),
        !m.gc(now).tokens[token].revoked,
        m.gc(now).holder(name) == Some(token),
    ensures
        m.announce(token, name, now).1 == Ok::<AnnounceView, ErrorView>(AnnounceView::Bound),
        m.announce(token, name, now).0.name_to_token == m.gc(now).name_to_token,
        m.announce(token, name, now).0.token_to_name == m.gc(now).token_to_name,
        m.announce(token, name, now).0.agents == m.gc(now).agents,
        m.announce(token, name, now).0.identities == m.gc(now).identities,
        m.announce(token, name, now).0.queues == m.gc(now).queues,
{
}

/// A name that was announced is bound to the token, can be written to, and is an identity.
pub proof fn law_announced_is_reachable(m: HubModel, token: Seq<char>, name: Seq<char>, now: Moment)
    requires
        m.tokens.contains_key(token),
    ensures
        m.bind(token, name).holder(name) == Some(token),
        m.bind(token, name).name_of(token) == Some(name),
        m.bind(token, name).agents.contains_key(name),
        m.bind(token, name).agents[name] == token,
        m.bind(token, name).identities.contains(name),
        m.bind(token, name).tokens[token].name == Some(name),
{
}

proof fn lemma_evict_all_keeps_holder(m: HubModel, doomed: Seq<Seq<char>>, now: Moment, name: Seq<char>)
    requires
        forall|i: int|
            0 <= i < doomed.len() ==> m.tokens[#[trigger] doomed[i]].name != Some(name),
    ensures
        m.evict_all(doomed, now).holder(name) == m.holder(name),
        forall|t: Seq<char>| #[trigger]
            m.evict_all(doomed, now).tokens.contains_key(t) ==> m.evict_all(doomed, now).tokens[t]
                == m.tokens[t],
    decreases doomed.len(),
{
    if doomed.len() > 0 {
        let fewer = doomed.drop_last();
        assert forall|i: int| 0 <= i < fewer.len() implies m.tokens[#[trigger] fewer[i]].name != Some(
            name,
        ) by {
            assert(doomed[i] == fewer[i]);
        }
        lemma_evict_all_keeps_holder(m, fewer, now, name);
        assert(doomed[doomed.len() - 1] == doomed.last());
    }
}

/// Clearing stale tokens away leaves an identity with its holder.
pub proof fn law_gc_keeps_holder(m: HubModel, name: Seq<char>, now: Moment)
    requires
        m.identities.contains(name),
    ensures
        m.gc(now).holder(name) == m.holder(name),
{
    let p = |t: Seq<char>| m.stale(t, now.instant);
    let doomed = m.stale_tokens(now.instant);
    assert forall|i: int| 0 <= i < doomed.len() implies m.tokens[#[trigger] doomed[i]].name != Some(
        name,
    ) by {
        strmap::sorted(m.tokens.dom()).lemma_filter_pred(p, i);
    }
    lemma_evict_all_keeps_holder(m, doomed, now, name);
}

/// A governor rebinds an identity: the identity, every grant, the messages that wait and every
/// denial stay; the former token, which is not the new one, is void, and the name is bound to the
/// new one. From then on only the new token announces the name.
pub proof fn law_rebind_keeps_identity(
    m: HubModel,
    governor: Seq<char>,
    name: Seq<char>,
    former: Seq<char>,
    n: u64,
    now: Instant,
    later: Moment,
)
    requires
        m.trust.verify(governor, now) is Ok,
        m.identities.contains(name),
        m.token_of(name) == Some(former),
        m.free_number(n),
    ensures
        ({
            let (after, r) = m.issue_participant(governor, Some(name), n, now);
            let token = text::decimal(n as nat);
            &&& token != former
            &&& r == Ok::<(Seq<char>, Option<Seq<char>>), ErrorView>((token, Some(name)))
            &&& after.identities == m.identities
            &&& after.trust == m.trust
            &&& after.queues == m.queues
            &&& after.blocks == m.blocks
            &&& !after.tokens.contains_key(former)
            &&& after.holder(name) == Some(token)
            &&& after.tokens[token].name == Some(name)
            &&& !after.tokens[token].revoked
            &&& after.announce(former, name, later).1 == Err::<AnnounceView, ErrorView>(
                ErrorView::TokenRejected,
            )
            &&& after.announce(token, name, later).1 == Ok::<AnnounceView, ErrorView>(
                AnnounceView::Bound,
            )
        }),
{
    assert(m.identities.insert(name) =~= m.identities);
    let after = m.issue_participant(governor, Some(name), n, now).0;
    listen::lemma_evict_all_frees(after, after.stale_tokens(later.instant), later);
    law_kept_tokens(after, text::decimal(n as nat), later);
    law_gc_keeps_holder(after, name, later);
}

/// A revoked token does nothing any more: it opens no stream, announces no name, cancels, fetches
/// and sends nothing.
pub proof fn law_revoked_token_is_dead(
    m: HubModel,
    token: Seq<char>,
    name: Seq<char>,
    ip: Option<Seq<char>>,
    given: Option<Seq<char>>,
    force: bool,
    push: bool,
    n: u64,
    thread: Option<Seq<char>>,
    now: Moment,
)
    requires
        m.tokens.contains_key(token),
        m.tokens[token].revoked,
    ensures
        m.open_listen(Some(token), ip, given, force, push, n, now).1 == Err::<
            (Seq<char>, u64),
            ErrorView,
        >(ErrorView::TokenRevoked),
        m.announce(token, name, now).1 == Err::<AnnounceView, ErrorView>(ErrorView::TokenRevoked),
        m.cancel_listen(token, now).1 == Err::<(), ErrorView>(ErrorView::TokenRevoked),
        m.dequeue(token, thread, now).1 is Err,
        m.drain(token, thread).1 is Err,
        m.set_hidden(token, force).1 == Err::<(), ErrorView>(ErrorView::TokenRevoked),
        m.sender(token) is Err,
        m.bearer_name(token) is None,
{
    law_kept_tokens(m, token, now);
}

/// Revoking takes effect at once, and the token leaves the store at once, so that it does not come
/// back with a restart.
pub proof fn law_revocation_takes_effect(m: HubModel, token: Seq<char>, governor: Seq<char>, now: Moment)
    requires
        m.revoke_token(token, governor, now).1 is Ok,
    ensures
        m.revoke_token(token, governor, now).0.usable(token) == Err::<ListenView, ErrorView>(
            ErrorView::TokenRevoked,
        ),
        m.revoke_token(token, governor, now).0.stream_of(token) is None,
        m.persistent ==> m.revoke_token(token, governor, now).0.outbox.last() == EffectView::Store(
            StoreWriteView::DeleteToken { token },
        ),
{
}

/// Revoking all that a name has revokes its token in the same way, and keeps the identity.
pub proof fn law_revocation_by_name(
    m: HubModel,
    name: Seq<char>,
    token: Seq<char>,
    governor: Seq<char>,
    now: Moment,
)
    requires
        m.trust.verify(governor, now.instant) is Ok,
        m.token_of(name) == Some(token),
    ensures
        m.revoke_by_name(name, governor, now).1 is Ok,
        m.revoke_by_name(name, governor, now).0.usable(token) == Err::<ListenView, ErrorView>(
            ErrorView::TokenRevoked,
        ),
        m.revoke_by_name(name, governor, now).0.holder(name) is None,
        m.revoke_by_name(name, governor, now).0.identities == m.identities,
        m.persistent ==> m.revoke_by_name(name, governor, now).0.outbox.last() == EffectView::Store(
            StoreWriteView::DeleteToken { token },
        ),
{
}

// ── Streams ──────────────────────────────────────────────────────────────────

/// A token has one stream: while it is open, another is refused and changes nothing but that
/// stale tokens are cleared away.
pub proof fn law_one_stream(
    m: HubModel,
    token: Seq<char>,
    ip: Option<Seq<char>>,
    name: Option<Seq<char>>,
    push: bool,
    n: u64,
    now: Moment,
)
    requires
        m.gc(now).tokens.contains_key(token),
        !m.gc(now).tokens[token].revoked,
        m.gc(now).alive(token),
    ensures
        m.open_listen(Some(token), ip, name, false, push, n, now) == (
            m.gc(now),
            Err::<(Seq<char>, u64), ErrorView>(ErrorView::ActiveSubscription),
        ),
{
}

/// A stream that is taken over by force is told and ends, and the token has the new one.
pub proof fn law_takeover_ends_stream(
    m: HubModel,
    token: Seq<char>,
    push: bool,
    now: Instant,
    former: u64,
)
    requires
        m.tokens.contains_key(token),
        m.stream_of(token) == Some(former),
    ensures
        m.take_stream(token, push, now).outbox == m.outbox.push(
            EffectView::Push { stream: former, text: crate::events::superseded() },
        ).push(EffectView::Close { stream: former }),
        m.take_stream(token, push, now).stream_of(token) == Some(m.next_stream),
        m.take_stream(token, push, now).alive(token),
{
}

/// While nothing tells that a participant came back, it counts as there until the countdown has
/// run out, and no longer by the countdown's account.
pub proof fn law_settling(m: HubModel, name: Seq<char>, now: Moment)
    requires
        m.audience(name, now).len() > 0,
    ensures
        m.begin_settle(name, now).settle_pending(name),
        m.begin_settle(name, now).present(name, now),
        !m.begin_settle(name, now).settle_fired(name, m.next_timer).settle_pending(name),
        !m.begin_settle(name, now).cancel_settle(name).settle_pending(name),
        m.begin_settle(name, now).cancel_settle(name).settle_fired(name, m.next_timer).outbox
            == m.begin_settle(name, now).outbox,
{
    let settling = m.begin_settle(name, now);
    let fired = HubModel {
        settling: settling.settling.insert(
            name,
            crate::delivery::SettleView { fired: true, ..settling.settling[name] },
        ),
        ..settling
    };
    lemma_push_all_keeps(
        fired,
        settling.settling[name].streams,
        crate::events::presence("offline"@, name),
    );
}

// ── Who sees whom ────────────────────────────────────────────────────────────

/// A participant is seen online if and only if it is there, does not hide, and the one who asks
/// has a grant with it or shares a room with it and is not denied it.
pub proof fn law_presence_rule(m: HubModel, token: Seq<char>, target: Seq<char>, now: Moment)
    requires
        m.usable(token) is Ok,
    ensures
        m.presence_for(token, target, now) is Ok,
        m.presence_for(token, target, now) == Ok::<bool, ErrorView>(true) <==> {
            &&& !m.denied(token, target, now)
            &&& m.has_grant_with(token, target, now.instant) || m.in_room_with(
                token,
                target,
                now.instant,
            )
            &&& m.shown(target, now)
        },
        m.token_of(target) matches Some(t) && m.tokens[t].hidden ==> m.presence_for(
            token,
            target,
            now,
        ) == Ok::<bool, ErrorView>(false),
{
}

/// Whoever hides is offline to everyone, the governor included, and may still send.
pub proof fn law_hidden_is_offline(m: HubModel, token: Seq<char>, name: Seq<char>, now: Moment)
    requires
        m.usable(token) is Ok,
        m.token_of(name) == Some(token),
    ensures
        !m.set_hidden(token, true).0.shown(name, now),
        !m.set_hidden(token, true).0.listed_online(name, now),
        m.set_hidden(token, true).0.sender(token) == m.sender(token),
{
}

/// A token hears of `name` because of a grant: it is the other party's, and no denial keeps it
/// away.
pub open spec fn hears_by_grant(m: HubModel, name: Seq<char>, token: Seq<char>, now: Moment) -> bool {
    let parties = trust::counterparties(m.trust.grants, name, m.identity_of(name), now.instant);
    exists|i: int|
        0 <= i < parties.len() && m.party_token(#[trigger] parties[i]) == Some(token) && !m.denied(
            parties[i].1,
            name,
            now,
        )
}

/// A token hears of `name` because of a room: it is that of a name in it, and no denial keeps it
/// away.
pub open spec fn hears_by_room(m: HubModel, name: Seq<char>, token: Seq<char>, now: Moment) -> bool {
    exists|peer: Seq<char>| #[trigger]
        m.name_to_token.contains_key(peer) && m.name_to_token[peer] == token && peer != name
            && rooms::together(m.rooms, name, peer, now.instant) && !m.denied(token, name, now)
}

/// The tokens in an audience, and their streams.
spec fn fits(m: HubModel, audience: (Set<Seq<char>>, Seq<u64>)) -> bool {
    forall|s: u64| #[trigger]
        audience.1.contains(s) <==> exists|t: Seq<char>| #[trigger]
            audience.0.contains(t) && m.tokens.contains_key(t) && m.tokens[t].presence_stream() == Some(
                s,
            )
}

proof fn lemma_join_fits(m: HubModel, audience: (Set<Seq<char>>, Seq<u64>), token: Seq<char>)
    requires
        fits(m, audience),
    ensures
        fits(m, m.join_audience(audience, token)),
        m.join_audience(audience, token).0 == audience.0.insert(token),
{
    let after = m.join_audience(audience, token);
    assert(after.0 =~= audience.0.insert(token));
    assert forall|s: u64| #[trigger]
        after.1.contains(s) <==> exists|t: Seq<char>| #[trigger]
            after.0.contains(t) && m.tokens.contains_key(t) && m.tokens[t].presence_stream() == Some(
                s,
            ) by {
        if !audience.0.contains(token) && m.tokens.contains_key(token)
            && m.tokens[token].presence_stream() is Some {
            seqs::lemma_push_contains(audience.1, m.tokens[token].presence_stream()->0);
        }
        if after.1.contains(s) {
            if audience.1.contains(s) {
                let t = choose|t: Seq<char>| #[trigger]
                    audience.0.contains(t) && m.tokens.contains_key(t)
                        && m.tokens[t].presence_stream() == Some(s);
                assert(after.0.contains(t));
            } else {
                assert(after.0.contains(token));
            }
        }
        if exists|t: Seq<char>| #[trigger]
            after.0.contains(t) && m.tokens.contains_key(t) && m.tokens[t].presence_stream() == Some(
                s,
            ) {
            let t = choose|t: Seq<char>| #[trigger]
                after.0.contains(t) && m.tokens.contains_key(t) && m.tokens[t].presence_stream()
                    == Some(s);
            if audience.0.contains(t) {
                assert(audience.1.contains(s));
            }
        }
    }
}

proof fn lemma_grant_audience(
    m: HubModel,
    name: Seq<char>,
    parties: Seq<(Option<Seq<char>>, Seq<char>)>,
    now: Moment,
    token: Seq<char>,
)
    ensures
        fits(m, m.grant_audience(name, parties, now)),
        m.grant_audience(name, parties, now).0.contains(token) <==> exists|i: int|
            0 <= i < parties.len() && m.party_token(#[trigger] parties[i]) == Some(token)
                && !m.denied(parties[i].1, name, now),
    decreases parties.len(),
{
    if parties.len() > 0 {
        let rest = parties.drop_last();
        let last = parties.len() - 1;
        lemma_grant_audience(m, name, rest, now, token);
        let before = m.grant_audience(name, rest, now);
        if let Some(t) = m.party_token(parties.last()) {
            lemma_join_fits(m, before, t);
        }
        if before.0.contains(token) {
            let i = choose|i: int|
                0 <= i < rest.len() && m.party_token(#[trigger] rest[i]) == Some(token)
                    && !m.denied(rest[i].1, name, now);
            assert(parties[i] == rest[i]);
        }
        if exists|i: int|
            0 <= i < parties.len() && m.party_token(#[trigger] parties[i]) == Some(token)
                && !m.denied(parties[i].1, name, now) {
            let i = choose|i: int|
                0 <= i < parties.len() && m.party_token(#[trigger] parties[i]) == Some(token)
                    && !m.denied(parties[i].1, name, now);
            if i < last {
                assert(rest[i] == parties[i]);
                assert(before.0.contains(token));
            }
        }
        if m.grant_audience(name, parties, now).0.contains(token) && !before.0.contains(token) {
            assert(m.party_token(parties[last]) == Some(token));
        }
    }
}

proof fn lemma_room_audience(
    m: HubModel,
    name: Seq<char>,
    audience: (Set<Seq<char>>, Seq<u64>),
    peers: Seq<Seq<char>>,
    now: Moment,
    token: Seq<char>,
)
    requires
        fits(m, audience),
    ensures
        fits(m, m.room_audience(name, audience, peers, now)),
        m.room_audience(name, audience, peers, now).0.contains(token) <==> audience.0.contains(token)
            || exists|i: int|
            0 <= i < peers.len() && m.name_to_token[#[trigger] peers[i]] == token && peers[i] != name
                && rooms::together(m.rooms, name, peers[i], now.instant) && !m.denied(
                token,
                name,
                now,
            ),
    decreases peers.len(),
{
    if peers.len() > 0 {
        let rest = peers.drop_last();
        let last = peers.len() - 1;
        lemma_room_audience(m, name, audience, rest, now, token);
        let before = m.room_audience(name, audience, rest, now);
        lemma_join_fits(m, before, m.name_to_token[peers.last()]);
        assert forall|i: int| 0 <= i < last implies rest[i] == #[trigger] peers[i] by {}
        if exists|i: int|
            0 <= i < rest.len() && m.name_to_token[#[trigger] rest[i]] == token && rest[i] != name
                && rooms::together(m.rooms, name, rest[i], now.instant) && !m.denied(
                token,
                name,
                now,
            ) {
            let i = choose|i: int|
                0 <= i < rest.len() && m.name_to_token[#[trigger] rest[i]] == token && rest[i] != name
                    && rooms::together(m.rooms, name, rest[i], now.instant) && !m.denied(
                    token,
                    name,
                    now,
                );
            assert(peers[i] == rest[i]);
        }
        if exists|i: int|
            0 <= i < peers.len() && m.name_to_token[#[trigger] peers[i]] == token && peers[i] != name
                && rooms::together(m.rooms, name, peers[i], now.instant) && !m.denied(
                token,
                name,
                now,
            ) {
            let i = choose|i: int|
                0 <= i < peers.len() && m.name_to_token[#[trigger] peers[i]] == token && peers[i]
                    != name && rooms::together(m.rooms, name, peers[i], now.instant) && !m.denied(
                    token,
                    name,
                    now,
                );
            if i < last {
                assert(rest[i] == peers[i]);
            }
        }
        if m.room_audience(name, audience, peers, now).0.contains(token) && !before.0.contains(token) {
            assert(m.name_to_token[peers[last]] == token);
        }
    }
}

/// A stream hears that `name` came or went if and only if it is open and wants to hear, and its
/// token is that of a grant partner or of somebody in a room with `name`, whom no denial keeps
/// away.
pub proof fn law_audience_rule(m: HubModel, name: Seq<char>, now: Moment, stream: u64)
    requires
        m.name_to_token.dom().finite(),
    ensures
        m.audience(name, now).contains(stream) <==> exists|t: Seq<char>| #[trigger]
            m.tokens.contains_key(t) && m.tokens[t].presence_stream() == Some(stream) && (
            hears_by_grant(m, name, t, now) || hears_by_room(m, name, t, now)),
{
    let parties = trust::counterparties(m.trust.grants, name, m.identity_of(name), now.instant);
    let peers = strmap::sorted(m.name_to_token.dom());
    let by_grant = m.grant_audience(name, parties, now);
    let all = m.room_audience(name, by_grant, peers, now);
    strmap::lemma_sorted_exists(m.name_to_token.dom());
    assert forall|t: Seq<char>| #[trigger]
        all.0.contains(t) <==> hears_by_grant(m, name, t, now) || hears_by_room(m, name, t, now) by {
        lemma_grant_audience(m, name, parties, now, t);
        lemma_room_audience(m, name, by_grant, peers, now, t);
        if hears_by_room(m, name, t, now) {
            let peer = choose|peer: Seq<char>| #[trigger]
                m.name_to_token.contains_key(peer) && m.name_to_token[peer] == t && peer != name
                    && rooms::together(m.rooms, name, peer, now.instant) && !m.denied(t, name, now);
            assert(peers.to_set().contains(peer));
            assert(peers[peers.index_of(peer)] == peer);
        }
        if exists|i: int|
            0 <= i < peers.len() && m.name_to_token[#[trigger] peers[i]] == t && peers[i] != name
                && rooms::together(m.rooms, name, peers[i], now.instant) && !m.denied(t, name, now) {
            let i = choose|i: int|
                0 <= i < peers.len() && m.name_to_token[#[trigger] peers[i]] == t && peers[i] != name
                    && rooms::together(m.rooms, name, peers[i], now.instant) && !m.denied(
                    t,
                    name,
                    now,
                );
            assert(peers.to_set().contains(peers[i]));
            assert(m.name_to_token.contains_key(peers[i]));
        }
    }
    lemma_grant_audience(m, name, parties, now, name);
    lemma_room_audience(m, name, by_grant, peers, now, name);
    assert(fits(m, all));
    if m.audience(name, now).contains(stream) {
        let t = choose|t: Seq<char>| #[trigger]
            all.0.contains(t) && m.tokens.contains_key(t) && m.tokens[t].presence_stream() == Some(
                stream,
            );
        assert(m.tokens.contains_key(t));
    }
    if exists|t: Seq<char>| #[trigger]
        m.tokens.contains_key(t) && m.tokens[t].presence_stream() == Some(stream) && (
        hears_by_grant(m, name, t, now) || hears_by_room(m, name, t, now)) {
        let t = choose|t: Seq<char>| #[trigger]
            m.tokens.contains_key(t) && m.tokens[t].presence_stream() == Some(stream) && (
            hears_by_grant(m, name, t, now) || hears_by_room(m, name, t, now));
        assert(all.0.contains(t));
    }
}

// ── After a restart ──────────────────────────────────────────────────────────

/// A participant that was stored under its name is back after a restart: its token is in order,
/// its name is bound to it and can be written to, and is an identity.
pub proof fn law_participant_restored(m: HubModel, t: TokenRow, now: Instant)
    requires
        t.identity.len() > 0,
        t.identity != t.token,
    ensures
        m.load_participant(t, now).usable(t.token) is Ok,
        m.load_participant(t, now).holder(t.identity) == Some(t.token),
        m.load_participant(t, now).sender(t.token) == Ok::<Seq<char>, ErrorView>(t.identity),
        m.load_participant(t, now).agents.contains_key(t.identity),
        m.load_participant(t, now).identities.contains(t.identity),
        !m.load_participant(t, now).stale(t.token, now),
{
}

} // verus!
