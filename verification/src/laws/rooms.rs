//! Laws of rooms.

use crate::clock;
use crate::clock::{Instant, Moment};
use crate::delivery::model::HubModel;
use crate::http::room_handlers;
use crate::rooms;
use crate::rooms::Members;
use vstd::prelude::*;

verus! {

/// Two share a room or they do not, whoever asks.
pub proof fn law_together_symmetric(
    rs: Map<Seq<char>, Members>,
    a: Seq<char>,
    b: Seq<char>,
    now: Instant,
)
    ensures
        rooms::together(rs, a, b, now) == rooms::together(rs, b, a, now),
{
}

/// Members whose time is up are not there, so taking them out changes nothing that can be seen.
pub proof fn law_prune_unseen(room: Members, name: Seq<char>, now: Instant, later: Instant)
    requires
        now <= later,
    ensures
        rooms::present(rooms::pruned(room, now), name, later) == rooms::present(room, name, later),
{
}

/// Whoever joins a room is in it until the time it asked for is over, and is on the list that is
/// returned; joining again sets the time anew.
pub proof fn law_joined_is_present(
    m: HubModel,
    id: Seq<char>,
    name: Seq<char>,
    ttl: u64,
    now: Moment,
    later: Instant,
)
    requires
        m.rooms.contains_key(id),
        now.instant <= clock::LAST_INSTANT,
        now.instant <= later,
    ensures
        room_handlers::joined(m, id, name, Some(ttl), now).0.rooms.contains_key(id),
        rooms::present(
            room_handlers::joined(m, id, name, Some(ttl), now).0.rooms[id],
            name,
            later,
        ) == (later < now.instant + ttl * clock::NANOS_PER_SEC),
{
    assert(ttl * clock::NANOS_PER_SEC <= u128::MAX - clock::LAST_INSTANT) by (nonlinear_arith)
        requires
            ttl <= u64::MAX,
            clock::NANOS_PER_SEC == 1_000_000_000,
            clock::LAST_INSTANT == 18_446_744_073_709_551_615_999_999_999,
    ;
}

/// Leaving a room twice is leaving it once, and whoever left is not in it.
pub proof fn law_leave_idempotent(room: Members, name: Seq<char>, now: Instant)
    ensures
        !rooms::present(rooms::pruned(room, now).remove(name), name, now),
        rooms::pruned(rooms::pruned(room, now).remove(name), now).remove(name) == rooms::pruned(
            room,
            now,
        ).remove(name),
{
    assert(rooms::pruned(rooms::pruned(room, now).remove(name), now).remove(name)
        =~= rooms::pruned(room, now).remove(name));
}

/// Two who joined one room share it until the time of one of them is over.
pub proof fn law_joined_share(
    rs: Map<Seq<char>, Members>,
    id: Seq<char>,
    a: Seq<char>,
    b: Seq<char>,
    now: Instant,
)
    requires
        rs.contains_key(id),
        rooms::present(rs[id], a, now),
        rooms::present(rs[id], b, now),
    ensures
        rooms::together(rs, a, b, now),
{
}

/// A room that was just made is empty: whoever made it is not in it.
pub proof fn law_new_room_is_empty(
    rs: Map<Seq<char>, Members>,
    id: Seq<char>,
    name: Seq<char>,
    now: Instant,
)
    ensures
        !rooms::present(rs.insert(id, Map::empty())[id], name, now),
{
}

} // verus!
