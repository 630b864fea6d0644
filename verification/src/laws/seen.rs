//! Laws of who sees whom online, and who hears of whom coming and going.

use crate::clock::{Instant, Moment};
use crate::delivery::model::HubModel;
use crate::delivery::{EffectView, SettleView};
use crate::error::ErrorView;
use crate::events;
use crate::laws::presence;
use crate::registry::RegistryModel;
use crate::rooms::Members;
use crate::strmap;
use crate::trust;
use crate::trust::{Ask, GrantView};
use vstd::prelude::*;

verus! {

// ── In plain terms ───────────────────────────────────────────────────────────

/// A denial stands between the two and has not ended.
pub open spec fn kept_apart(m: HubModel, from: Seq<char>, to: Seq<char>, now: Moment) -> bool {
    m.blocks.contains_key((from, to)) && (m.blocks[(from, to)].expires_at matches Some(end) ==> (
    if now.system < 0 {
        0int
    } else {
        now.system as int / 1_000_000_000
    }) < end)
}

/// Two are members of one room, and neither's time in it is over.
pub open spec fn roommates(rooms: Map<Seq<char>, Members>, a: Seq<char>, b: Seq<char>, now: Instant) -> bool {
    exists|id: Seq<char>| #[trigger]
        rooms.contains_key(id) && rooms[id].contains_key(a) && now < rooms[id][a]
            && rooms[id].contains_key(b) && now < rooms[id][b]
}

/// A name was seen alive within the liveness window.
pub open spec fn seen_lately(r: RegistryModel, name: Seq<char>, now: Instant) -> bool {
    r.entries.contains_key(name) && (if now >= r.entries[name].last_seen {
        now - r.entries[name].last_seen
    } else {
        0
    }) < r.lapse_after
}

/// A token has a stream.
pub open spec fn connected(m: HubModel, token: Seq<char>) -> bool {
    m.connections.contains_key(token) && m.connections[token] > 0
}

/// A participant went away and its countdown still runs.
pub open spec fn settling(m: HubModel, name: Seq<char>) -> bool {
    m.settling.contains_key(name) && !m.settling[name].fired
}

/// A participant is there, for those who may see it.
pub open spec fn there(m: HubModel, name: Seq<char>, now: Moment) -> bool {
    if m.name_to_token.contains_key(name) && m.tokens.contains_key(m.name_to_token[name]) {
        let t = m.name_to_token[name];
        !m.tokens[t].hidden && (connected(m, t) || seen_lately(m.registry, name, now.instant)
            || settling(m, name))
    } else {
        (m.active_sse.contains_key(name) && m.active_sse[name] > 0) || seen_lately(
            m.registry,
            name,
            now.instant,
        ) || settling(m, name)
    }
}

/// The identity under which a name is known.
pub open spec fn known_as(m: HubModel, name: Seq<char>) -> Option<Seq<char>> {
    if m.name_to_token.contains_key(name) {
        Some(m.name_to_token[name])
    } else if m.agents.contains_key(name) {
        Some(m.agents[name])
    } else {
        None
    }
}

/// A grant lets one of the two write to the other.
pub open spec fn in_touch(m: HubModel, token: Seq<char>, name: Seq<char>, now: Instant) -> bool {
    known_as(m, name) matches Some(id) && {
        let own = m.tokens[token].name;
        ||| m.trust.check(Ask { from: token, to: id, from_name: own, to_name: Some(name) }, now) is Ok
        ||| m.trust.check(Ask { from: id, to: token, from_name: Some(name), to_name: own }, now) is Ok
    }
}

// ── Seeing ───────────────────────────────────────────────────────────────────

/// A participant is seen online exactly by those with whom a grant or a room connects it and whom
/// no denial keeps away, and exactly while it is there and does not hide. To all others it is
/// offline, whether it is there or not.
pub proof fn law_seen_online(m: HubModel, token: Seq<char>, name: Seq<char>, now: Moment)
    requires
        m.tokens.contains_key(token),
        !m.tokens[token].revoked,
    ensures
        m.presence_for(token, name, now) == Ok::<bool, ErrorView>(
            {
                &&& !kept_apart(m, token, name, now)
                &&& in_touch(m, token, name, now.instant) || (m.tokens[token].name matches Some(own)
                    && roommates(m.rooms, own, name, now.instant))
                &&& there(m, name, now)
            },
        ),
{
    if m.tokens[token].name is Some {
        let own = m.tokens[token].name->0;
        if roommates(m.rooms, own, name, now.instant) {
            let id = choose|id: Seq<char>| #[trigger]
                m.rooms.contains_key(id) && m.rooms[id].contains_key(own) && now.instant
                    < m.rooms[id][own] && m.rooms[id].contains_key(name) && now.instant
                    < m.rooms[id][name];
            assert(m.rooms.contains_key(id));
        }
        assert(roommates(m.rooms, own, name, now.instant) == crate::rooms::together(
            m.rooms,
            own,
            name,
            now.instant,
        ));
    }
}

/// Whoever hides is seen online by nobody, and whoever shows itself again is seen as before.
pub proof fn law_hiding(m: HubModel, token: Seq<char>, name: Seq<char>, who: Seq<char>, now: Moment)
    requires
        m.tokens.contains_key(token),
        !m.tokens[token].revoked,
        m.name_to_token.contains_key(name),
        m.name_to_token[name] == token,
        m.tokens.contains_key(who),
        !m.tokens[who].revoked,
        who != token,
    ensures
        m.set_hidden(token, true).0.presence_for(who, name, now) == Ok::<bool, ErrorView>(false),
        !m.tokens[token].hidden ==> m.set_hidden(token, true).0.set_hidden(
            token,
            false,
        ).0.presence_for(who, name, now) == m.presence_for(who, name, now),
        m.set_hidden(token, true).0.tokens[token].hidden,
        m.set_hidden(token, true).1 is Ok,
{
    let hid = m.set_hidden(token, true).0;
    law_seen_online(hid, who, name, now);
    let back = hid.set_hidden(token, false).0;
    if !m.tokens[token].hidden {
        assert(back.tokens =~= m.tokens);
    }
}

/// What a governor sees of a participant: its name, its identity, and whether it is there and does
/// not hide; every name that can be written to is listed once, in order of names.
pub proof fn law_participants_listed(m: HubModel, now: Moment, i: int, name: Seq<char>)
    requires
        m.agents.dom().finite(),
    ensures
        ({
            let listed = m.participants(now);
            &&& 0 <= i < listed.len() ==> {
                let p = listed[i];
                let t = m.name_to_token[p.name];
                &&& m.agents.contains_key(p.name)
                &&& p.identity == m.agents[p.name]
                &&& p.status == "online"@ || p.status == "offline"@
                &&& m.name_to_token.contains_key(p.name) ==> (p.status == "online"@) == (!(
                m.tokens.contains_key(t) && m.tokens[t].hidden) && (connected(m, t) || seen_lately(
                    m.registry,
                    p.name,
                    now.instant,
                )))
            }
            &&& m.agents.contains_key(name) <==> exists|k: int|
                0 <= k < listed.len() && (#[trigger] listed[k]).name == name
        }),
{
    reveal_strlit("online");
    reveal_strlit("offline");
    assert("online"@.len() == 6 && "offline"@.len() == 7);
    let names = strmap::sorted(m.agents.dom());
    strmap::lemma_sorted_exists(m.agents.dom());
    let listed = m.participants(now);
    assert forall|k: int| 0 <= k < listed.len() implies (#[trigger] listed[k]).name == names[k]
        && m.agents.contains_key(names[k]) by {
        assert(names.to_set().contains(names[k]));
    }
    if m.agents.contains_key(name) {
        assert(names.to_set().contains(name));
        let k = names.index_of(name);
        assert(listed[k].name == name);
    }
}

// ── Hearing ──────────────────────────────────────────────────────────────────

/// The stream on which a token hears who comes and goes: an open one that asked for it.
pub open spec fn ear(m: HubModel, token: Seq<char>) -> Option<u64> {
    if m.tokens.contains_key(token) {
        match m.tokens[token].stream {
            Some(s) => if s.open && m.tokens[token].presence_push {
                Some(s.id)
            } else {
                None
            },
            None => None,
        }
    } else {
        None
    }
}

proof fn lemma_partner_counted(
    gs: Seq<GrantView>,
    name: Seq<char>,
    identity: Seq<char>,
    now: Instant,
    i: int,
    party: (Option<Seq<char>>, Seq<char>),
)
    requires
        0 <= i < gs.len(),
        trust::relevant(gs[i], name, identity, now),
        party == if gs[i].first_party(name, identity) {
            (gs[i].name_b, gs[i].identity_b)
        } else {
            (gs[i].name_a, gs[i].identity_a)
        },
        forall|j: int| 0 <= j < i ==> (#[trigger] gs[j]).id != gs[i].id,
    ensures
        trust::counterparties(gs, name, identity, now).contains(party),
    decreases gs.len(),
{
    let fewer = gs.drop_last();
    let before = trust::counterparties(fewer, name, identity, now);
    let after = trust::counterparties(gs, name, identity, now);
    if i < fewer.len() {
        assert(fewer[i] == gs[i]);
        assert forall|j: int| 0 <= j < i implies (#[trigger] fewer[j]).id != fewer[i].id by {
            assert(fewer[j] == gs[j]);
        }
        lemma_partner_counted(fewer, name, identity, now, i, party);
        let k = before.index_of(party);
        assert(after[k] == party);
    } else {
        assert forall|j: int| 0 <= j < gs.len() - 1 implies !(trust::relevant(
            #[trigger] gs[j],
            name,
            identity,
            now,
        ) && gs[j].id == gs.last().id) by {
            assert(gs[j].id != gs[i].id);
        }
        assert(after[before.len() as int] == party);
    }
}

/// A grant partner hears of one coming and going, under a grant that is not over: its stream is in
/// the audience, whichever side of the grant it is on, unless a denial keeps it away from the one
/// who comes or goes.
pub proof fn law_partner_hears(m: HubModel, name: Seq<char>, now: Moment, i: int, first: bool)
    requires
        m.name_to_token.dom().finite(),
        0 <= i < m.trust.grants.len(),
        forall|j: int| 0 <= j < i ==> (#[trigger] m.trust.grants[j]).id != m.trust.grants[i].id,
        m.trust.grants[i].expires matches Some(end) ==> now.instant < end,
        m.trust.grants[i].name_a == Some(
            if first {
                name
            } else {
                m.trust.grants[i].name_a->0
            },
        ),
        m.trust.grants[i].name_b == Some(
            if first {
                m.trust.grants[i].name_b->0
            } else {
                name
            },
        ),
        first || (m.trust.grants[i].name_a != Some(name) && m.trust.grants[i].identity_a != (
        if m.agents.contains_key(name) {
            m.agents[name]
        } else {
            name
        })),
    ensures
        ({
            let g = m.trust.grants[i];
            let partner = if first {
                g.name_b->0
            } else {
                g.name_a->0
            };
            let identity = if first {
                g.identity_b
            } else {
                g.identity_a
            };
            m.name_to_token.contains_key(partner) && !kept_apart(m, identity, name, now) && ear(
                m,
                m.name_to_token[partner],
            ) is Some ==> m.audience(name, now).contains(ear(m, m.name_to_token[partner])->0)
        }),
{
    let g = m.trust.grants[i];
    let party = if first {
        (g.name_b, g.identity_b)
    } else {
        (g.name_a, g.identity_a)
    };
    let partner = party.0->0;
    if m.name_to_token.contains_key(partner) && !kept_apart(m, party.1, name, now) && ear(
        m,
        m.name_to_token[partner],
    ) is Some {
        let t = m.name_to_token[partner];
        lemma_partner_counted(
            m.trust.grants,
            name,
            m.identity_of(name),
            now.instant,
            i,
            party,
        );
        let parties = trust::counterparties(
            m.trust.grants,
            name,
            m.identity_of(name),
            now.instant,
        );
        let k = parties.index_of(party);
        assert(m.party_token(parties[k]) == Some(t));
        assert(presence::hears_by_grant(m, name, t, now));
        presence::law_audience_rule(m, name, now, ear(m, t)->0);
        assert(m.tokens.contains_key(t));
    }
}

/// A roommate hears of one coming and going, unless a denial keeps it away.
pub proof fn law_roommate_hears(m: HubModel, name: Seq<char>, peer: Seq<char>, now: Moment)
    requires
        m.name_to_token.dom().finite(),
        m.name_to_token.contains_key(peer),
        peer != name,
        roommates(m.rooms, name, peer, now.instant),
        !kept_apart(m, m.name_to_token[peer], name, now),
        ear(m, m.name_to_token[peer]) is Some,
    ensures
        m.audience(name, now).contains(ear(m, m.name_to_token[peer])->0),
{
    let t = m.name_to_token[peer];
    let id = choose|id: Seq<char>| #[trigger]
        m.rooms.contains_key(id) && m.rooms[id].contains_key(name) && now.instant < m.rooms[id][name]
            && m.rooms[id].contains_key(peer) && now.instant < m.rooms[id][peer];
    assert(m.rooms.contains_key(id));
    assert(presence::hears_by_room(m, name, t, now));
    presence::law_audience_rule(m, name, now, ear(m, t)->0);
    assert(m.tokens.contains_key(t));
}

proof fn lemma_pushed(m: HubModel, streams: Seq<u64>, text: Seq<char>, stream: u64)
    requires
        streams.contains(stream),
    ensures
        m.push_all(streams, text).outbox.contains(EffectView::Push { stream, text }),
    decreases streams.len(),
{
    let before = m.push_all(streams.drop_last(), text);
    let after = m.push_all(streams, text);
    let told = EffectView::Push { stream, text };
    if streams.last() == stream {
        assert(after.outbox[before.outbox.len() as int] == told);
    } else {
        let i = streams.index_of(stream);
        assert(streams.drop_last()[i] == stream);
        lemma_pushed(m, streams.drop_last(), text, stream);
        let k = before.outbox.index_of(told);
        assert(after.outbox[k] == told);
    }
}

/// Whoever goes away is given a while to come back: a countdown starts for it, with those who may
/// hear of it, and until it has run out it still counts as there. When it runs out each of those
/// streams is told, once, that the participant is offline; where it came back before, nobody is.
pub proof fn law_going_away(m: HubModel, name: Seq<char>, now: Moment, stream: u64)
    requires
        m.audience(name, now).contains(stream),
    ensures
        ({
            let gone = m.begin_settle(name, now);
            let over = gone.settle_fired(name, m.next_timer);
            let told = EffectView::Push { stream, text: events::presence("offline"@, name) };
            &&& gone.outbox == m.outbox.push(
                EffectView::StartSettle { name, timer: m.next_timer, window: m.settle_window },
            )
            &&& settling(gone, name)
            &&& !settling(over, name)
            &&& over.outbox.contains(told)
            &&& over.settle_fired(name, m.next_timer) == over
            &&& gone.cancel_settle(name).settle_fired(name, m.next_timer) == gone.cancel_settle(name)
        }),
{
    let gone = m.begin_settle(name, now);
    let streams = m.audience(name, now);
    let fired = HubModel {
        settling: gone.settling.insert(name, SettleView { fired: true, ..gone.settling[name] }),
        ..gone
    };
    lemma_pushed(fired, streams, events::presence("offline"@, name), stream);
    presence::lemma_push_all_keeps(fired, streams, events::presence("offline"@, name));
}

pub(crate) proof fn lemma_same_audience(a: HubModel, b: HubModel, name: Seq<char>, now: Moment)
    requires
        a == (HubModel { outbox: a.outbox, ..b }),
    ensures
        a.audience(name, now) == b.audience(name, now),
{
    let parties = trust::counterparties(a.trust.grants, name, a.identity_of(name), now.instant);
    let peers = strmap::sorted(a.name_to_token.dom());
    lemma_same_grant_audience(a, b, name, parties, now);
    lemma_same_room_audience(a, b, name, a.grant_audience(name, parties, now), peers, now);
}

proof fn lemma_same_grant_audience(
    a: HubModel,
    b: HubModel,
    name: Seq<char>,
    parties: Seq<(Option<Seq<char>>, Seq<char>)>,
    now: Moment,
)
    requires
        a == (HubModel { outbox: a.outbox, ..b }),
    ensures
        a.grant_audience(name, parties, now) == b.grant_audience(name, parties, now),
    decreases parties.len(),
{
    if parties.len() > 0 {
        lemma_same_grant_audience(a, b, name, parties.drop_last(), now);
    }
}

proof fn lemma_same_room_audience(
    a: HubModel,
    b: HubModel,
    name: Seq<char>,
    audience: (Set<Seq<char>>, Seq<u64>),
    peers: Seq<Seq<char>>,
    now: Moment,
)
    requires
        a == (HubModel { outbox: a.outbox, ..b }),
    ensures
        a.room_audience(name, audience, peers, now) == b.room_audience(name, audience, peers, now),
    decreases peers.len(),
{
    if peers.len() > 0 {
        lemma_same_room_audience(a, b, name, audience, peers.drop_last(), now);
    }
}

} // verus!
