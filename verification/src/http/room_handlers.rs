//! Requests about rooms.

use crate::clock;
use crate::clock::{Instant, Moment};
use crate::delivery::hub::DeliveryHub;
use crate::delivery::model::HubModel;
use crate::http;
use crate::http::{
    bearer_token, refuse, say, Body, BodyView, Field, Fields, Reply, ReplyView, Scalar, ScalarView,
};
use crate::rooms;
use crate::rooms::{RoomError, DEFAULT_TTL_SECS};
use crate::strmap;
use crate::text::same;
use vstd::prelude::*;

verus! {

/// The refusal of a request whose caller has no name.
pub open spec fn nameless() -> ReplyView {
    http::refused(401, "AUTH_FAILED"@, "valid bearer token with announced name required"@)
}

/// The refusal of a request whose caller has no name.
pub fn room_auth_failed() -> (r: Reply)
    ensures
        r.deep_view() == nameless(),
{
    refuse(401, "AUTH_FAILED", "valid bearer token with announced name required")
}

/// The refusal of a room under a reserved name.
pub open spec fn reserved() -> ReplyView {
    http::refused(
        400,
        "BAD_REQUEST"@,
        "\"create\" is a reserved name and cannot be used as a room_id"@,
    )
}

/// The refusal of a room under a reserved name.
pub fn room_id_reserved() -> (r: Reply)
    ensures
        r.deep_view() == reserved(),
{
    refuse(400, "BAD_REQUEST", "\"create\" is a reserved name and cannot be used as a room_id")
}

/// The refusal of a room that is not there.
pub open spec fn missing() -> ReplyView {
    http::refused(404, "NOT_FOUND"@, "room not found"@)
}

/// The name of the caller.
pub open spec fn caller(m: HubModel, authorization: Option<Seq<char>>) -> Option<Seq<char>> {
    match http::bearer(authorization) {
        Some(t) => m.bearer_name(t),
        None => None,
    }
}

/// The name of the caller.
pub fn room_auth(hub: &DeliveryHub, authorization: Option<&str>) -> (r: Option<String>)
    ensures
        r.deep_view() == caller(hub@, authorization.deep_view()),
{
    match bearer_token(authorization) {
        Some(t) => hub.name_for_bearer_token(t.as_str()),
        None => None,
    }
}

/// `POST /room/create`: makes a room, into which the caller is not put.
pub fn handle_room_create(hub: &mut DeliveryHub, authorization: Option<&str>) -> (r: Reply)
    ensures
        if caller(old(hub)@, authorization.deep_view()) is None {
            final(hub)@ == old(hub)@ && r.deep_view() == nameless()
        } else {
            exists|hi: u64, lo: u64|
                r.deep_view() == http::said(200, "room_id"@, #[trigger] rooms::room_id(hi, lo))
                    && final(hub)@ == (HubModel {
                    rooms: old(hub)@.rooms.insert(rooms::room_id(hi, lo), Map::empty()),
                    ..old(hub)@
                })
        },
        old(hub)@.sound() ==> final(hub)@.sound(),
{
    if room_auth(hub, authorization).is_none() {
        return room_auth_failed();
    }
    let id = hub.room_store().create();
    say(200, "room_id", id.as_str())
}

/// `GET /room/create`: the name is reserved.
pub fn handle_room_create_get_reserved() -> (r: Reply)
    ensures
        r.deep_view() == reserved(),
{
    room_id_reserved()
}

/// The row of a room's member.
pub open spec fn member_row(m: HubModel, name: Seq<char>, now: Moment) -> Fields {
    seq![("name"@, ScalarView::Text(name)), ("online"@, ScalarView::Flag(m.present(name, now)))]
}

/// The reply with the members of a room, by name.
pub open spec fn members_reply(m: HubModel, names: Seq<Seq<char>>, now: Moment) -> ReplyView {
    ReplyView {
        status: 200,
        body: BodyView::Listing {
            key: "members"@,
            rows: names.map_values(|name: Seq<char>| member_row(m, name, now)),
        },
    }
}

fn members_listing(hub: &DeliveryHub, names: &Vec<String>, now: Moment) -> (r: Reply)
    ensures
        r.deep_view() == members_reply(hub@, names.deep_view(), now),
{
    let ghost ns = names.deep_view();
    let ghost row = |name: Seq<char>| member_row(hub@, name, now);
    let mut rows: Vec<Vec<Field>> = Vec::new();
    let mut i: usize = 0;
    assert(rows.deep_view() =~= ns.take(0).map_values(row));
    while i < names.len()
        invariant
            i <= names@.len(),
            ns == names.deep_view(),
            row == (|name: Seq<char>| member_row(hub@, name, now)),
            rows.deep_view() == ns.take(i as int).map_values(row),
        decreases names@.len() - i,
    {
        let name = names[i].clone();
        assert(name@ == ns[i as int]);
        let online = hub.presence(name.as_str(), now);
        let fields: Vec<Field> = vec![
            ("name".to_owned(), Scalar::Text(name)),
            ("online".to_owned(), Scalar::Flag(online)),
        ];
        assert(fields.deep_view() =~= row(ns[i as int]));
        let ghost was = rows.deep_view();
        rows.push(fields);
        assert(rows.deep_view() =~= was.push(fields.deep_view()));
        assert(rows.deep_view() =~= ns.take(i + 1).map_values(row));
        i += 1;
    }
    assert(ns.take(i as int) =~= ns);
    Reply { status: 200, body: Body::Listing { key: "members".to_owned(), rows } }
}

/// What joining a room does and is answered.
pub open spec fn joined(m: HubModel, id: Seq<char>, name: Seq<char>, ttl: Option<u64>, now: Moment) -> (
    HubModel,
    ReplyView,
) {
    if !m.rooms.contains_key(id) {
        (m, missing())
    } else {
        let secs = match ttl {
            Some(t) => t,
            None => DEFAULT_TTL_SECS,
        };
        let end = (now.instant + secs * clock::NANOS_PER_SEC) as Instant;
        let room = rooms::pruned(m.rooms[id], now.instant).insert(name, end);
        let after = HubModel { rooms: m.rooms.insert(id, room), ..m };
        (after, members_reply(after, strmap::sorted(room.dom()), now))
    }
}

/// What becomes of the hub and the caller when a room is joined.
pub open spec fn joining(
    m: HubModel,
    authorization: Option<Seq<char>>,
    room_id: Seq<char>,
    ttl: Option<u64>,
    now: Moment,
) -> (HubModel, ReplyView) {
    if room_id == "create"@ {
        (m, reserved())
    } else {
        match caller(m, authorization) {
            None => (m, nameless()),
            Some(name) => joined(m, room_id, name, ttl, now),
        }
    }
}

/// `POST /room/{room_id}/join`: puts the caller into a room.
pub fn handle_room_join(
    hub: &mut DeliveryHub,
    authorization: Option<&str>,
    room_id: &str,
    ttl: Option<u64>,
    now: Moment,
) -> (r: Reply)
    requires
        now.in_range(),
    ensures
        (final(hub)@, r.deep_view()) == joining(
            old(hub)@,
            authorization.deep_view(),
            room_id@,
            ttl,
            now,
        ),
        old(hub)@.sound() ==> final(hub)@.sound(),
{
    if same(room_id, "create") {
        return room_id_reserved();
    }
    let name = match room_auth(hub, authorization) {
        Some(n) => n,
        None => return room_auth_failed(),
    };
    match hub.room_store().join(room_id, name.as_str(), ttl, now.instant) {
        Ok(names) => members_listing(hub, &names, now),
        Err(_) => refuse(404, "NOT_FOUND", "room not found"),
    }
}

/// What asking for a room's members does and is answered: only members are told.
pub open spec fn viewed(m: HubModel, id: Seq<char>, name: Seq<char>, now: Moment) -> (
    HubModel,
    ReplyView,
) {
    if !m.rooms.contains_key(id) {
        (m, missing())
    } else {
        let room = rooms::pruned(m.rooms[id], now.instant);
        let after = HubModel { rooms: m.rooms.insert(id, room), ..m };
        if rooms::present(m.rooms[id], name, now.instant) {
            (after, members_reply(after, strmap::sorted(room.dom()), now))
        } else {
            (after, http::refused(403, "FORBIDDEN"@, "caller is not a member of this room"@))
        }
    }
}

/// What becomes of the hub and the caller when a room is looked at.
pub open spec fn viewing(
    m: HubModel,
    authorization: Option<Seq<char>>,
    room_id: Seq<char>,
    now: Moment,
) -> (HubModel, ReplyView) {
    if room_id == "create"@ {
        (m, reserved())
    } else {
        match caller(m, authorization) {
            None => (m, nameless()),
            Some(name) => viewed(m, room_id, name, now),
        }
    }
}

/// `GET /room/{room_id}`: the members of a room, for a member.
pub fn handle_room_get(hub: &mut DeliveryHub, authorization: Option<&str>, room_id: &str, now: Moment) -> (r: Reply)
    ensures
        (final(hub)@, r.deep_view()) == viewing(
            old(hub)@,
            authorization.deep_view(),
            room_id@,
            now,
        ),
        old(hub)@.sound() ==> final(hub)@.sound(),
{
    if same(room_id, "create") {
        return room_id_reserved();
    }
    let name = match room_auth(hub, authorization) {
        Some(n) => n,
        None => return room_auth_failed(),
    };
    match hub.room_store().members(room_id, name.as_str(), now.instant) {
        Ok(names) => members_listing(hub, &names, now),
        Err(RoomError::RoomNotFound) => refuse(404, "NOT_FOUND", "room not found"),
        Err(RoomError::NotMember) => refuse(
            403,
            "FORBIDDEN",
            "caller is not a member of this room",
        ),
    }
}

/// What becomes of the hub and the caller when a room is left.
pub open spec fn leaving(
    m: HubModel,
    authorization: Option<Seq<char>>,
    room_id: Seq<char>,
    now: Moment,
) -> (HubModel, ReplyView) {
    if room_id == "create"@ {
        (m, reserved())
    } else {
        match caller(m, authorization) {
            None => (m, nameless()),
            Some(name) => (
                HubModel {
                    rooms: if m.rooms.contains_key(room_id) {
                        m.rooms.insert(
                            room_id,
                            rooms::pruned(m.rooms[room_id], now.instant).remove(name),
                        )
                    } else {
                        m.rooms
                    },
                    ..m
                },
                http::said(200, "status"@, "ok"@),
            ),
        }
    }
}

/// `POST /room/{room_id}/leave`: takes the caller out of a room, where it is in it.
pub fn handle_room_leave(hub: &mut DeliveryHub, authorization: Option<&str>, room_id: &str, now: Moment) -> (r: Reply)
    ensures
        (final(hub)@, r.deep_view()) == leaving(
            old(hub)@,
            authorization.deep_view(),
            room_id@,
            now,
        ),
        old(hub)@.sound() ==> final(hub)@.sound(),
{
    if same(room_id, "create") {
        return room_id_reserved();
    }
    let name = match room_auth(hub, authorization) {
        Some(n) => n,
        None => return room_auth_failed(),
    };
    hub.room_store().leave(room_id, name.as_str(), now.instant);
    say(200, "status", "ok")
}

} // verus!
