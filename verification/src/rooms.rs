//! Rooms, where participants find each other without a grant. Membership lapses.

use crate::clock;
use crate::clock::Instant;
use crate::random::draw;
use crate::seqs;
use crate::strmap;
use crate::strmap::StrMap;
use crate::text;
use vstd::prelude::*;

verus! {

/// How many seconds a membership lasts where the caller names no other.
pub const DEFAULT_TTL_SECS: u64 = 300;

/// The members of a room with the instant at which each membership ends.
pub type Members = Map<Seq<char>, Instant>;

/// `name` is a member of a room whose membership has not ended.
pub open spec fn present(room: Members, name: Seq<char>, now: Instant) -> bool {
    room.contains_key(name) && room[name] > now
}

/// The members that are still present.
pub open spec fn pruned(room: Members, now: Instant) -> Members {
    room.restrict(Set::new(|name: Seq<char>| present(room, name, now)))
}

/// Why a room request was refused.
#[derive(Debug)]
pub enum RoomError {
    /// There is no such room.
    RoomNotFound,
    /// The caller is not a member.
    NotMember,
}

struct Room {
    members: StrMap<Instant>,
}

impl DeepView for Room {
    type V = Members;

    closed spec fn deep_view(&self) -> Members {
        self.members@
    }
}

impl Room {
    fn new() -> (r: Self)
        ensures
            r.deep_view() == Map::<Seq<char>, Instant>::empty(),
    {
        Room { members: StrMap::new() }
    }

    /// Drops the members whose time is up.
    fn prune(&mut self, now: Instant)
        ensures
            final(self).deep_view() == pruned(old(self).deep_view(), now),
    {
        let ghost room = self.members@;
        let names = self.members.keys();
        let ghost ks = names.deep_view();
        let mut gone: Vec<String> = Vec::new();
        let mut i: usize = 0;
        while i < names.len()
            invariant
                i <= names@.len(),
                ks == names.deep_view(),
                ks.to_set() == room.dom(),
                self.members@ == room,
                forall|k: Seq<char>| #[trigger]
                    gone.deep_view().contains(k) <==> ks.take(i as int).contains(k) && !present(
                        room,
                        k,
                        now,
                    ),
            decreases names@.len() - i,
        {
            proof {
                seqs::lemma_take_next(ks, i as int);
                assert(ks.to_set().contains(ks[i as int]));
            }
            let stays = match self.members.get(names[i].as_str()) {
                Some(end) => *end > now,
                None => false,
            };
            if !stays {
                let ghost was = gone.deep_view();
                let name = names[i].clone();
                gone.push(name);
                assert(gone.deep_view() =~= was.push(name@));
                proof {
                    seqs::lemma_push_contains(was, name@);
                }
            }
            i += 1;
        }
        self.members.remove_all(&gone);
        proof {
            assert(ks.take(i as int) =~= ks);
            assert forall|k: Seq<char>| room.contains_key(k) implies ks.contains(k) by {
                assert(ks.to_set().contains(k));
            }
            assert(self.members@ =~= pruned(room, now));
        }
    }

    /// The names of the members in order.
    fn active_names(&self) -> (names: Vec<String>)
        ensures
            names.deep_view() == strmap::sorted(self.deep_view().dom()),
            strmap::ascending(names.deep_view()),
            names.deep_view().to_set() == self.deep_view().dom(),
    {
        self.members.keys()
    }
}

/// All rooms.
pub struct RoomStore {
    rooms: StrMap<Room>,
}

impl View for RoomStore {
    type V = Map<Seq<char>, Members>;

    closed spec fn view(&self) -> Map<Seq<char>, Members> {
        self.rooms@
    }
}

/// `a` and `b` are both present in one room.
pub open spec fn together(rooms: Map<Seq<char>, Members>, a: Seq<char>, b: Seq<char>, now: Instant) -> bool {
    exists|id: Seq<char>| #[trigger]
        rooms.contains_key(id) && present(rooms[id], a, now) && present(rooms[id], b, now)
}

impl Default for RoomStore {
    fn default() -> (s: Self)
        ensures
            s@ == Map::<Seq<char>, Members>::empty(),
    {
        RoomStore::new()
    }
}

impl RoomStore {
    pub fn new() -> (s: Self)
        ensures
            s@ == Map::<Seq<char>, Members>::empty(),
    {
        RoomStore { rooms: StrMap::new() }
    }

    /// Makes an empty room under a fresh identifier and returns the identifier.
    pub fn create(&mut self) -> (id: String)
        ensures
            exists|hi: u64, lo: u64| id@ == #[trigger] room_id(hi, lo),
            final(self)@ == old(self)@.insert(id@, Map::empty()),
    {
        let hi: u64 = draw(0, u64::MAX);
        let lo: u64 = draw(0, u64::MAX);
        self.create_from(hi, lo)
    }

    /// Makes an empty room under the identifier that two numbers give.
    pub fn create_from(&mut self, hi: u64, lo: u64) -> (id: String)
        ensures
            id@ == room_id(hi, lo),
            final(self)@ == old(self)@.insert(id@, Map::empty()),
    {
        let id = room_id_text(hi, lo);
        let _ = self.rooms.insert(id.clone(), Room::new());
        id
    }

    /// Puts `name` into the room until `ttl_secs` from now, and returns the members present.
    pub fn join(&mut self, room_id: &str, name: &str, ttl_secs: Option<u64>, now: Instant) -> (r: Result<
        Vec<String>,
        RoomError,
    >)
        requires
            now <= clock::LAST_INSTANT,
        ensures
            match r {
                Ok(names) => {
                    let ttl = match ttl_secs {
                        Some(t) => t,
                        None => DEFAULT_TTL_SECS,
                    };
                    let end = (now + ttl * clock::NANOS_PER_SEC) as Instant;
                    let room = pruned(old(self)@[room_id@], now).insert(name@, end);
                    &&& old(self)@.contains_key(room_id@)
                    &&& final(self)@ == old(self)@.insert(room_id@, room)
                    &&& names.deep_view() == strmap::sorted(room.dom())
                    &&& strmap::ascending(names.deep_view())
                    &&& names.deep_view().to_set() == room.dom()
                },
                Err(e) => {
                    &&& e is RoomNotFound
                    &&& !old(self)@.contains_key(room_id@)
                    &&& final(self)@ == old(self)@
                },
            },
    {
        match self.rooms.remove(room_id) {
            Some(mut room) => {
                room.prune(now);
                let ttl: u64 = match ttl_secs {
                    Some(t) => t,
                    None => DEFAULT_TTL_SECS,
                };
                let end: Instant = now + clock::secs(ttl);
                let _ = room.members.insert(name.to_owned(), end);
                let names = room.active_names();
                let ghost members = room.deep_view();
                let _ = self.rooms.insert(room_id.to_owned(), room);
                assert(self@ =~= old(self)@.insert(room_id@, members));
                Ok(names)
            },
            None => {
                assert(self@ =~= old(self)@);
                Err(RoomError::RoomNotFound)
            },
        }
    }

    /// The members present, for a caller who is one of them. Drops the others.
    pub fn members(&mut self, room_id: &str, caller_name: &str, now: Instant) -> (r: Result<
        Vec<String>,
        RoomError,
    >)
        ensures
            r matches Err(RoomError::RoomNotFound) <==> !old(self)@.contains_key(room_id@),
            !old(self)@.contains_key(room_id@) ==> final(self)@ == old(self)@,
            old(self)@.contains_key(room_id@) ==> {
                let room = pruned(old(self)@[room_id@], now);
                &&& final(self)@ == old(self)@.insert(room_id@, room)
                &&& match r {
                    Ok(names) => {
                        &&& present(old(self)@[room_id@], caller_name@, now)
                        &&& names.deep_view() == strmap::sorted(room.dom())
                        &&& strmap::ascending(names.deep_view())
                        &&& names.deep_view().to_set() == room.dom()
                    },
                    Err(e) => e is NotMember && !present(old(self)@[room_id@], caller_name@, now),
                }
            },
    {
        match self.rooms.remove(room_id) {
            Some(mut room) => {
                room.prune(now);
                let r = if room.members.contains_key(caller_name) {
                    Ok(room.active_names())
                } else {
                    Err(RoomError::NotMember)
                };
                let ghost members = room.deep_view();
                let _ = self.rooms.insert(room_id.to_owned(), room);
                assert(self@ =~= old(self)@.insert(room_id@, members));
                r
            },
            None => {
                assert(self@ =~= old(self)@);
                Err(RoomError::RoomNotFound)
            },
        }
    }

    /// Takes `name` out of the room, if there is such a room and such a member.
    pub fn leave(&mut self, room_id: &str, name: &str, now: Instant)
        ensures
            final(self)@ == if old(self)@.contains_key(room_id@) {
                old(self)@.insert(room_id@, pruned(old(self)@[room_id@], now).remove(name@))
            } else {
                old(self)@
            },
    {
        if let Some(mut room) = self.rooms.remove(room_id) {
            room.prune(now);
            let _ = room.members.remove(name);
            let ghost members = room.deep_view();
            let _ = self.rooms.insert(room_id.to_owned(), room);
            assert(self@ =~= old(self)@.insert(room_id@, members));
        } else {
            assert(self@ =~= old(self)@);
        }
    }

    /// `name_a` and `name_b` are both present in one room.
    pub fn shares_room(&self, name_a: &str, name_b: &str, now: Instant) -> (r: bool)
        ensures
            r == together(self@, name_a@, name_b@, now),
    {
        let ids = self.rooms.keys();
        let ghost ks = ids.deep_view();
        let mut i: usize = 0;
        while i < ids.len()
            invariant
                i <= ids@.len(),
                ks == ids.deep_view(),
                ks.to_set() == self@.dom(),
                forall|j: int|
                    0 <= j < i ==> !(present(self@[#[trigger] ks[j]], name_a@, now) && present(
                        self@[ks[j]],
                        name_b@,
                        now,
                    )),
            decreases ids@.len() - i,
        {
            assert(ks.to_set().contains(ks[i as int]));
            if let Some(room) = self.rooms.get(ids[i].as_str()) {
                let a = match room.members.get(name_a) {
                    Some(end) => *end > now,
                    None => false,
                };
                let b = match room.members.get(name_b) {
                    Some(end) => *end > now,
                    None => false,
                };
                if a && b {
                    assert(self@.contains_key(ks[i as int]));
                    return true;
                }
            }
            i += 1;
        }
        assert forall|id: Seq<char>| #[trigger] self@.contains_key(id) implies !(present(
            self@[id],
            name_a@,
            now,
        ) && present(self@[id], name_b@, now)) by {
            assert(ks.to_set().contains(id));
            let j = ks.index_of(id);
            assert(ks[j] == id);
        }
        false
    }
}

/// The random identifier that two numbers give: a version 4, variant 1 UUID in lower case.
pub open spec fn room_id(hi: u64, lo: u64) -> Seq<char> {
    text::hex_fixed((hi >> 32) as nat, 8) + seq!['-']
        + text::hex_fixed(((hi >> 16) & 0xffff) as nat, 4) + seq!['-']
        + text::hex_fixed(((hi & 0x0fff) | 0x4000) as nat, 4) + seq!['-']
        + text::hex_fixed((((lo >> 48) & 0x3fff) | 0x8000) as nat, 4) + seq!['-']
        + text::hex_fixed((lo & 0x0000_ffff_ffff_ffff) as nat, 12)
}

fn room_id_text(hi: u64, lo: u64) -> (id: String)
    ensures
        id@ == room_id(hi, lo),
{
    let mut id = text::hex_text(hi >> 32, 8);
    id.push('-');
    id.push_str(text::hex_text((hi >> 16) & 0xffff, 4).as_str());
    id.push('-');
    id.push_str(text::hex_text((hi & 0x0fff) | 0x4000, 4).as_str());
    id.push('-');
    id.push_str(text::hex_text(((lo >> 48) & 0x3fff) | 0x8000, 4).as_str());
    id.push('-');
    id.push_str(text::hex_text(lo & 0x0000_ffff_ffff_ffff, 12).as_str());
    assert(id@ =~= room_id(hi, lo));
    id
}

proof fn lemma_hex_fixed_len(n: nat, width: nat)
    ensures
        text::hex_fixed(n, width).len() == width,
    decreases width,
{
    if width > 0 {
        lemma_hex_fixed_len(n / 16, (width - 1) as nat);
    }
}

/// A room identifier has the shape `xxxxxxxx-xxxx-4xxx-yxxx-xxxxxxxxxxxx`, with `y` one of
/// `8`, `9`, `a` and `b`.
pub proof fn law_room_id_shape(hi: u64, lo: u64)
    ensures
        room_id(hi, lo).len() == 36,
        room_id(hi, lo)[8] == '-',
        room_id(hi, lo)[13] == '-',
        room_id(hi, lo)[14] == '4',
        room_id(hi, lo)[18] == '-',
        seq!['8', '9', 'a', 'b'].contains(room_id(hi, lo)[19]),
        room_id(hi, lo)[23] == '-',
{
    let p1 = (hi >> 32) as nat;
    let p2 = ((hi >> 16) & 0xffff) as nat;
    let p3 = ((hi & 0x0fff) | 0x4000) as nat;
    let p4 = (((lo >> 48) & 0x3fff) | 0x8000) as nat;
    let p5 = (lo & 0x0000_ffff_ffff_ffff) as nat;
    lemma_hex_fixed_len(p1, 8);
    lemma_hex_fixed_len(p2, 4);
    lemma_hex_fixed_len(p3, 4);
    lemma_hex_fixed_len(p4, 4);
    lemma_hex_fixed_len(p5, 12);
    assert(((hi & 0x0fff) | 0x4000) / 4096 == 4) by (bit_vector);
    assert(8 <= (((lo >> 48) & 0x3fff) | 0x8000) / 4096 < 12) by (bit_vector);
    reveal_with_fuel(text::hex_fixed, 5);
    let first3 = text::hex_fixed(p3, 4)[0];
    assert(first3 == text::hex_digit(((p3 / 16) / 16) / 16 % 16));
    assert(((p3 / 16) / 16) / 16 == p3 / 4096) by (nonlinear_arith);
    assert(((p4 / 16) / 16) / 16 == p4 / 4096) by (nonlinear_arith);
    let first4 = text::hex_fixed(p4, 4)[0];
    assert(first4 == text::hex_digit(p4 / 4096 % 16));
    assert(room_id(hi, lo)[14] == first3);
    assert(room_id(hi, lo)[19] == first4);
    let ends = seq!['8', '9', 'a', 'b'];
    assert(first4 == ends[p4 / 4096 - 8]);
}

} // verus!
