//! Laws of files, rooms and lists: who may hand over a file and read it, who is in a room, what is
//! listed.

use crate::clock;
use crate::clock::{Duration, Instant, Moment};
use crate::delivery::attachments::NewAttachmentView;
use crate::delivery::model::HubModel;
use crate::error::ErrorView;
use crate::events;
use crate::http;
use crate::http::file_handlers;
use crate::http::room_handlers;
use crate::http::{BodyView, ReplyView, ScalarView};
use crate::laws::seen;
use crate::laws::sessions;
use crate::rooms;
use crate::strmap;
use crate::text;
use crate::trust::{Ask, GrantView, TrustModel};
use vstd::prelude::*;

verus! {

// ── Files ────────────────────────────────────────────────────────────────────

/// The second on the wall clock.
pub open spec fn wall_seconds(now: Moment) -> int {
    if now.system < 0 {
        0
    } else {
        now.system as int / 1_000_000_000
    }
}

/// Whoever may write to a participant may hand it a file: the file is kept for the sender and the
/// recipient, under the name of each, for as long as asked, counted in whole seconds from now.
pub proof fn law_file_taken(
    m: HubModel,
    token: Seq<char>,
    name: Seq<char>,
    to: Seq<char>,
    filename: Seq<char>,
    mime: Seq<char>,
    ttl: Duration,
    bytes: Seq<u8>,
    now: Moment,
)
    requires
        m.persistent,
        sessions::in_order(m, token),
        m.token_to_name.contains_key(token),
        m.token_to_name[token] == name,
        !seen::kept_apart(m, token, to, now),
        m.agents.contains_key(to),
        m.trust.check(
            Ask { from: token, to: m.agents[to], from_name: Some(name), to_name: Some(to) },
            now.instant,
        ) is Ok,
    ensures
        m.attach(token, to, filename, mime, ttl, bytes, now) is Ok,
        ({
            let a = m.attach(token, to, filename, mime, ttl, bytes, now)->Ok_0;
            &&& a.from_identity == token
            &&& a.from_name == name
            &&& a.to_name == to
            &&& a.filename == filename
            &&& a.mime == mime
            &&& a.id == "att-"@ + text::hex_bytes(bytes)
            &&& wall_seconds(now) + ttl as int / 1_000_000_000 <= u64::MAX ==> a.expires_at_secs
                == wall_seconds(now) + ttl as int / 1_000_000_000
        }),
{
}

/// A file is refused where a message would be, for the same reason, and where files are not kept.
pub proof fn law_file_refused(
    m: HubModel,
    token: Seq<char>,
    to: Seq<char>,
    filename: Seq<char>,
    mime: Seq<char>,
    ttl: Duration,
    bytes: Seq<u8>,
    now: Moment,
)
    ensures
        ({
            let r = m.attach(token, to, filename, mime, ttl, bytes, now);
            let ask = Ask {
                from: token,
                to: m.agents[to],
                from_name: Some(m.token_to_name[token]),
                to_name: Some(to),
            };
            &&& !m.persistent ==> r == Err::<NewAttachmentView, ErrorView>(ErrorView::Internal)
            &&& m.persistent && !m.tokens.contains_key(token) ==> r == Err::<
                NewAttachmentView,
                ErrorView,
            >(ErrorView::AuthFailed)
            &&& m.persistent && m.tokens.contains_key(token) && m.tokens[token].revoked ==> r
                == Err::<NewAttachmentView, ErrorView>(ErrorView::TokenRevoked)
            &&& m.persistent && sessions::in_order(m, token) ==> {
                &&& !m.token_to_name.contains_key(token) ==> r == Err::<
                    NewAttachmentView,
                    ErrorView,
                >(ErrorView::AnnounceRequired)
                &&& m.token_to_name.contains_key(token) ==> {
                    &&& seen::kept_apart(m, token, to, now) ==> r == Err::<
                        NewAttachmentView,
                        ErrorView,
                    >(ErrorView::GrantBlocked(m.blocks[(token, to)].reason))
                    &&& !seen::kept_apart(m, token, to, now) && !m.agents.contains_key(to) ==> r
                        == Err::<NewAttachmentView, ErrorView>(ErrorView::RecipientUnknown)
                    &&& !seen::kept_apart(m, token, to, now) && m.agents.contains_key(to) ==> (
                    m.trust.check(ask, now.instant) matches Err(e) ==> r == Err::<
                        NewAttachmentView,
                        ErrorView,
                    >(e))
                }
            }
        }),
{
}

/// The recipient of a file finds a notice of it at the end of its queue, with what it takes to
/// fetch the file.
pub proof fn law_file_announced(m: HubModel, a: NewAttachmentView, size: nat, note: Option<Seq<char>>, other: Seq<char>)
    requires
        other != a.to_name,
        size <= u64::MAX,
    ensures
        ({
            let after = m.attached(a, size, note);
            let waiting = if m.queues.contains_key(a.to_name) {
                m.queues[a.to_name]
            } else {
                seq![]
            };
            let told = after.queues[a.to_name].last();
            &&& after.queues.contains_key(a.to_name)
            &&& after.queues[a.to_name].len() == waiting.len() + 1
            &&& after.queues[a.to_name].drop_last() == waiting
            &&& told.payload == vstd::utf8::encode_utf8(
                events::attachment_notice(a.id, a.filename, a.mime, size as u64, a.from_name, note),
            )
            &&& told.from_name == a.from_name
            &&& told.event_type == Some("attachment"@)
            &&& told.thread_id is None
            &&& after.kick_pending.contains(a.to_name)
            &&& after.queues.contains_key(other) == m.queues.contains_key(other)
            &&& after.queues[other] == m.queues[other]
        }),
{
    let after = m.attached(a, size, note);
    let waiting = if m.queues.contains_key(a.to_name) {
        m.queues[a.to_name]
    } else {
        seq![]
    };
    assert(after.queues[a.to_name] =~= waiting.push(after.queues[a.to_name].last()));
}

/// A file is read by the one who sent it and by the one it was sent to, and by nobody else.
pub proof fn law_who_reads_file(m: HubModel, token: Seq<char>, from: Seq<char>, to: Seq<char>)
    ensures
        ({
            let r = m.reader_of(token);
            &&& m.persistent && sessions::in_order(m, token) ==> r is Ok
            &&& !(m.persistent && sessions::in_order(m, token)) ==> r is Err
            &&& r matches Ok(reader) ==> (reader.may_read(from, to) <==> token == from || (
            m.token_to_name.contains_key(token) && m.token_to_name[token] == to))
        }),
{
}

/// A file that comes in over the wire is taken on behalf of the bearer, if it is not empty, under
/// a name that is safe to put into a header.
pub proof fn law_upload(
    m: HubModel,
    token: Seq<char>,
    to: Seq<char>,
    filename: Seq<char>,
    kind: Option<Seq<char>>,
    size: nat,
    ttl: Duration,
    bytes: Seq<u8>,
    now: Moment,
)
    ensures
        ({
            let r = file_handlers::uploading(
                m,
                Some("Bearer "@ + token),
                to,
                Some(filename),
                kind,
                size,
                ttl,
                bytes,
                now,
            );
            let direct = m.attach(
                token,
                to,
                http::safe_filename(filename),
                http::mime(kind),
                ttl,
                bytes,
                now,
            );
            &&& size == 0 ==> r is Err
            &&& size > 0 ==> (r is Ok <==> direct is Ok)
            &&& size > 0 && direct is Ok ==> r->Ok_0 == direct->Ok_0
            &&& r matches Err(reply) ==> reply.status >= 400
        }),
        file_handlers::uploading(m, None, to, Some(filename), kind, size, ttl, bytes, now) is Err,
{
    assert(("Bearer "@ + token).skip("Bearer "@.len() as int) =~= token);
}

// ── Rooms ────────────────────────────────────────────────────────────────────

/// A reply that is a list with a row for each name, in order of names.
pub open spec fn lists_members(reply: ReplyView, m: HubModel, room: rooms::Members, now: Moment) -> bool {
    &&& reply.status == 200
    &&& reply.body matches BodyView::Listing { key, rows } && {
        &&& key == "members"@
        &&& forall|name: Seq<char>| #[trigger]
            room.contains_key(name) && now.instant < room[name] ==> exists|i: int|
                0 <= i < rows.len() && #[trigger] rows[i] == seq![
                    ("name"@, ScalarView::Text(name)),
                    ("online"@, ScalarView::Flag(about(m, name, now))),
                ]
        &&& forall|i: int|
            0 <= i < rows.len() ==> (#[trigger] rows[i]).len() == 2 && rows[i][0].0 == "name"@ && (
            rows[i][0].1 matches ScalarView::Text(name) && room.contains_key(name) && now.instant
                < room[name])
    }
}

/// A participant has a stream, was seen alive lately, or left a moment ago.
pub open spec fn about(m: HubModel, name: Seq<char>, now: Moment) -> bool {
    (m.active_sse.contains_key(name) && m.active_sse[name] > 0) || seen::seen_lately(
        m.registry,
        name,
        now.instant,
    ) || seen::settling(m, name)
}

proof fn lemma_members(m: HubModel, room: rooms::Members, now: Moment)
    requires
        room.dom().finite(),
        forall|name: Seq<char>| #[trigger] room.contains_key(name) ==> now.instant < room[name],
    ensures
        lists_members(
            room_handlers::members_reply(m, strmap::sorted(room.dom()), now),
            m,
            room,
            now,
        ),
{
    let names = strmap::sorted(room.dom());
    strmap::lemma_sorted_exists(room.dom());
    let reply = room_handlers::members_reply(m, names, now);
    let rows = reply.body->rows;
    assert forall|i: int| 0 <= i < rows.len() implies (#[trigger] rows[i]).len() == 2
        && rows[i][0].0 == "name"@ && (rows[i][0].1 matches ScalarView::Text(name)
        && room.contains_key(name) && now.instant < room[name]) by {
        assert(names.to_set().contains(names[i]));
        assert(room.contains_key(names[i]));
    }
    assert forall|name: Seq<char>| #[trigger]
        room.contains_key(name) && now.instant < room[name] implies exists|i: int|
        0 <= i < rows.len() && #[trigger] rows[i] == seq![
            ("name"@, ScalarView::Text(name)),
            ("online"@, ScalarView::Flag(about(m, name, now))),
        ] by {
        assert(names.to_set().contains(name));
        let i = names.index_of(name);
        assert(rows[i] == room_handlers::member_row(m, name, now));
    }
}

/// Whoever joins a room is a member for the time it asked for, or five minutes; those whose time is up
/// are out, the others stay to their own time, and all members are listed to the newcomer.
pub proof fn law_room_joined(
    m: HubModel,
    id: Seq<char>,
    name: Seq<char>,
    ttl: Option<u64>,
    now: Moment,
    other: Seq<char>,
    elsewhere: Seq<char>,
)
    requires
        m.rooms.contains_key(id),
        m.rooms[id].dom().finite(),
        now.instant <= clock::LAST_INSTANT,
        ttl is None || ttl->0 > 0,
        other != name,
        elsewhere != id,
    ensures
        ({
            let (after, reply) = room_handlers::joined(m, id, name, ttl, now);
            let room = after.rooms[id];
            &&& after.rooms.contains_key(id)
            &&& room.contains_key(name)
            &&& ttl matches Some(t) ==> room[name] == now.instant + t * 1_000_000_000
            &&& ttl is None ==> room[name] == now.instant + 300 * 1_000_000_000
            &&& room.contains_key(other) <==> m.rooms[id].contains_key(other) && now.instant
                < m.rooms[id][other]
            &&& room.contains_key(other) ==> room[other] == m.rooms[id][other]
            &&& after.rooms.contains_key(elsewhere) == m.rooms.contains_key(elsewhere)
            &&& after.rooms[elsewhere] == m.rooms[elsewhere]
            &&& after == (HubModel { rooms: after.rooms, ..m })
            &&& lists_members(reply, after, room, now)
        }),
{
    let (after, reply) = room_handlers::joined(m, id, name, ttl, now);
    let room = after.rooms[id];
    let pruned = rooms::pruned(m.rooms[id], now.instant);
    assert(pruned.dom().subset_of(m.rooms[id].dom()));
    vstd::set_lib::lemma_set_subset_finite(m.rooms[id].dom(), pruned.dom());
    assert(room == pruned.insert(name, room[name]));
    assert(room.dom().finite());
    lemma_members(after, room, now);
}

/// Only a member sees who is in a room, and it sees all that are; nobody joins or sees a room that
/// there is not.
pub proof fn law_room_viewed(m: HubModel, id: Seq<char>, name: Seq<char>, ttl: Option<u64>, now: Moment)
    requires
        m.rooms.contains_key(id) ==> m.rooms[id].dom().finite(),
    ensures
        !m.rooms.contains_key(id) ==> {
            &&& room_handlers::joined(m, id, name, ttl, now).0 == m
            &&& room_handlers::joined(m, id, name, ttl, now).1.status == 404
            &&& room_handlers::viewed(m, id, name, now).0 == m
            &&& room_handlers::viewed(m, id, name, now).1.status == 404
        },
        m.rooms.contains_key(id) ==> {
            let (after, reply) = room_handlers::viewed(m, id, name, now);
            &&& m.rooms[id].contains_key(name) && now.instant < m.rooms[id][name] ==> lists_members(
                reply,
                after,
                m.rooms[id],
                now,
            )
            &&& !(m.rooms[id].contains_key(name) && now.instant < m.rooms[id][name])
                ==> reply.status == 403
            &&& after == (HubModel { rooms: after.rooms, ..m })
        },
{
    if m.rooms.contains_key(id) {
        let (after, reply) = room_handlers::viewed(m, id, name, now);
        let pruned = rooms::pruned(m.rooms[id], now.instant);
        assert(pruned.dom().subset_of(m.rooms[id].dom()));
        vstd::set_lib::lemma_set_subset_finite(m.rooms[id].dom(), pruned.dom());
        lemma_members(after, pruned, now);
        if m.rooms[id].contains_key(name) && now.instant < m.rooms[id][name] {
            assert forall|other: Seq<char>| #[trigger]
                m.rooms[id].contains_key(other) && now.instant < m.rooms[id][other] implies exists|
                i: int,
            |
                0 <= i < reply.body->rows.len() && #[trigger] reply.body->rows[i] == seq![
                    ("name"@, ScalarView::Text(other)),
                    ("online"@, ScalarView::Flag(about(after, other, now))),
                ] by {
                assert(pruned.contains_key(other) && now.instant < pruned[other]);
            }
        }
    }
}

/// Whose name goes with a request: that of the token it comes with, where the token is in order.
pub proof fn law_who_calls(m: HubModel, token: Seq<char>)
    ensures
        ({
            let who = room_handlers::caller(m, Some("Bearer "@ + token));
            &&& sessions::in_order(m, token) ==> who == m.tokens[token].name
            &&& m.tokens.contains_key(token) && m.tokens[token].revoked ==> who is None
            &&& !m.tokens.contains_key(token) ==> who == if m.token_to_name.contains_key(token) {
                Some(m.token_to_name[token])
            } else {
                None
            }
        }),
        room_handlers::caller(m, None) is None,
{
    assert(("Bearer "@ + token).skip("Bearer "@.len() as int) =~= token);
}

// ── Lists of grants ──────────────────────────────────────────────────────────

/// A grant has not run out.
pub open spec fn lasting(g: GrantView, now: Instant) -> bool {
    g.expires matches Some(end) ==> now < end
}

/// A participant is shown exactly the grants that name it and have not run out, each with the
/// other party.
pub proof fn law_own_grants_listed(t: TrustModel, name: Seq<char>, now: Instant, i: int, k: int)
    ensures
        0 <= i < t.grants.len() && lasting(t.grants[i], now) && t.grants[i].name_a == Some(name)
            && t.grants[i].name_b is Some ==> exists|j: int|
            0 <= j < t.listed_for(name, now).len() && {
                let row = #[trigger] t.listed_for(name, now)[j];
                &&& row.id == t.grants[i].id
                &&& Some(row.counterparty) == t.grants[i].name_b
                &&& row.direction == t.grants[i].direction
                &&& row.expires == t.grants[i].expires
            },
        0 <= i < t.grants.len() && lasting(t.grants[i], now) && t.grants[i].name_b == Some(name)
            && t.grants[i].name_a is Some && t.grants[i].name_a != Some(name) ==> exists|j: int|
            0 <= j < t.listed_for(name, now).len() && {
                let row = #[trigger] t.listed_for(name, now)[j];
                &&& row.id == t.grants[i].id
                &&& Some(row.counterparty) == t.grants[i].name_a
                &&& row.direction == t.grants[i].direction
                &&& row.expires == t.grants[i].expires
            },
        0 <= k < t.listed_for(name, now).len() ==> exists|j: int|
            0 <= j < t.grants.len() && {
                let g = #[trigger] t.grants[j];
                &&& g.id == t.listed_for(name, now)[k].id
                &&& lasting(g, now)
                &&& g.name_a == Some(name) || g.name_b == Some(name)
            },
{
    let p = |g: GrantView| !g.expired(now) && g.names(name);
    let kept = t.grants.filter(p);
    if 0 <= i < t.grants.len() && p(t.grants[i]) {
        t.grants.lemma_filter_contains(p, i);
        let j = kept.index_of(t.grants[i]);
        assert(t.listed_for(name, now)[j] == t.grants[i].list_item(name));
    }
    if 0 <= k < t.listed_for(name, now).len() {
        t.grants.lemma_filter_pred(p, k);
        t.grants.lemma_filter_contains_rev(p, kept[k]);
        let j = t.grants.index_of(kept[k]);
        assert(t.grants[j] == kept[k]);
    }
}

/// A governor is shown every grant that has not run out, or those of one participant, with both
/// parties as they stand in it.
pub proof fn law_all_grants_listed(t: TrustModel, who: Option<Seq<char>>, now: Instant, i: int, k: int)
    ensures
        0 <= i < t.grants.len() && lasting(t.grants[i], now) && (who is None || t.grants[i].name_a
            == who || t.grants[i].name_b == who) ==> exists|j: int|
            0 <= j < t.listed(who, now).len() && {
                let row = #[trigger] t.listed(who, now)[j];
                let g = t.grants[i];
                &&& row.id == g.id
                &&& row.identity_a == g.identity_a && row.identity_b == g.identity_b
                &&& row.name_a == g.name_a && row.name_b == g.name_b
                &&& row.direction == g.direction && row.expires == g.expires
            },
        0 <= k < t.listed(who, now).len() ==> exists|j: int|
            0 <= j < t.grants.len() && {
                let g = #[trigger] t.grants[j];
                &&& g.id == t.listed(who, now)[k].id
                &&& lasting(g, now)
                &&& who is None || g.name_a == who || g.name_b == who
            },
{
    let p = |g: GrantView| !g.expired(now) && (who matches Some(name) ==> g.names(name));
    let kept = t.grants.filter(p);
    if 0 <= i < t.grants.len() && p(t.grants[i]) {
        t.grants.lemma_filter_contains(p, i);
        let j = kept.index_of(t.grants[i]);
        assert(t.listed(who, now)[j] == t.grants[i].all_item());
    }
    if 0 <= k < t.listed(who, now).len() {
        t.grants.lemma_filter_pred(p, k);
        t.grants.lemma_filter_contains_rev(p, kept[k]);
        let j = t.grants.index_of(kept[k]);
        assert(t.grants[j] == kept[k]);
    }
}

} // verus!
