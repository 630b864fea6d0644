//! Who sees whom online.

use crate::clock::{Instant, Moment};
use crate::delivery::hub::DeliveryHub;
use crate::delivery::model::HubModel;
use crate::delivery::{ParticipantInfo, ParticipantInfoView};
use crate::error;
use crate::error::{Error, ErrorView};
use crate::laws::invariants;
use crate::registry::PresenceScope;
use crate::rooms;
use crate::strmap;
use crate::types::{copy_opt, GovernorToken};
use vstd::prelude::*;

verus! {

impl HubModel {
    /// One more stream is counted for a name.
    pub open spec fn sse_open(self, name: Seq<char>) -> HubModel {
        let count = if self.active_sse.contains_key(name) {
            self.active_sse[name]
        } else {
            0
        };
        HubModel {
            active_sse: self.active_sse.insert(
                name,
                if count < usize::MAX {
                    (count + 1) as usize
                } else {
                    usize::MAX
                },
            ),
            ..self
        }
    }

    /// One stream less is counted for a name.
    pub open spec fn sse_close(self, name: Seq<char>) -> HubModel {
        HubModel {
            active_sse: if self.active_sse.contains_key(name) && self.active_sse[name] > 1 {
                self.active_sse.insert(name, (self.active_sse[name] - 1) as usize)
            } else {
                self.active_sse.remove(name)
            },
            ..self
        }
    }

    /// A name is online, or went away so recently that it still counts.
    pub open spec fn present(self, name: Seq<char>, now: Moment) -> bool {
        self.online(name, now) || self.settle_pending(name)
    }

    /// The holder of a token is in a room with `target`.
    pub open spec fn in_room_with(self, token: Seq<char>, target: Seq<char>, now: Instant) -> bool {
        match self.tokens[token].name {
            Some(name) => rooms::together(self.rooms, name, target, now),
            None => false,
        }
    }

    /// The holder of a token may see whether `target` is there: a grant links them or they share
    /// a room, and no denial keeps the holder away.
    pub open spec fn may_see(self, token: Seq<char>, target: Seq<char>, now: Moment) -> bool {
        !self.denied(token, target, now) && (self.has_grant_with(token, target, now.instant)
            || self.in_room_with(token, target, now.instant))
    }

    /// To those who may see it, `target` is there.
    pub open spec fn shown(self, target: Seq<char>, now: Moment) -> bool {
        match self.token_of(target) {
            Some(t) => !self.tokens[t].hidden && (self.alive(t) || self.registry.live(
                target,
                now.instant,
            ) || self.settle_pending(target)),
            None => self.present(target, now),
        }
    }

    /// What the holder of a token is told of the presence of `target`.
    pub open spec fn presence_for(self, token: Seq<char>, target: Seq<char>, now: Moment) -> Result<
        bool,
        ErrorView,
    > {
        match self.usable(token) {
            Err(e) => Err(e),
            Ok(_) => Ok(self.may_see(token, target, now) && self.shown(target, now)),
        }
    }

    /// The scope of a name: while it has a stream the registration counts, lapsed or not.
    pub open spec fn effective_scope(self, name: Seq<char>, now: Instant) -> Option<PresenceScope> {
        if self.active_sse.contains_key(name) && self.active_sse[name] > 0 {
            self.registry.scope_unconditional(name)
        } else {
            self.registry.scope(name, now)
        }
    }

    /// A name is online on the governor's list; one that hides is not.
    pub open spec fn listed_online(self, name: Seq<char>, now: Moment) -> bool {
        if self.name_to_token.contains_key(name) {
            let t = self.name_to_token[name];
            !(self.tokens.contains_key(t) && self.tokens[t].hidden) && (self.alive(t)
                || self.registry.live(name, now.instant))
        } else {
            match self.effective_scope(name, now.instant) {
                None => false,
                Some(PresenceScope::Hidden) => false,
                Some(_) => self.online(name, now),
            }
        }
    }

    /// The entry of a name on the governor's list.
    pub open spec fn participant(self, name: Seq<char>, now: Moment) -> ParticipantInfoView {
        ParticipantInfoView {
            name,
            identity: self.agents[name],
            status: if self.listed_online(name, now) {
                "online"@
            } else {
                "offline"@
            },
        }
    }

    /// The governor's list, by name.
    pub open spec fn participants(self, now: Moment) -> Seq<ParticipantInfoView> {
        strmap::sorted(self.agents.dom()).map_values(|name: Seq<char>| self.participant(name, now))
    }
}

impl DeliveryHub {
    /// Messages wait for `name`.
    pub fn kick_pending_for(&self, name: &str) -> (r: bool)
        ensures
            r == self@.kick_pending.contains(name@),
    {
        self.kick_pending.contains(name)
    }

    /// Counts a stream that was opened for a name.
    pub fn sse_open(&mut self, name: &str)
        ensures
            final(self)@ == old(self)@.sse_open(name@),
            old(self)@.sound() ==> final(self)@.sound(),
    {
        proof {
            if self@.sound() {
                invariants::law_sse_sound(self@, name@);
            }
        }
        let count: usize = match self.active_sse.get(name) {
            Some(n) => *n,
            None => 0,
        };
        let more: usize = if count < usize::MAX {
            count + 1
        } else {
            usize::MAX
        };
        let _ = self.active_sse.insert(name.to_owned(), more);
    }

    /// Counts a stream that was closed for a name.
    pub fn sse_close(&mut self, name: &str)
        ensures
            final(self)@ == old(self)@.sse_close(name@),
            old(self)@.sound() ==> final(self)@.sound(),
    {
        proof {
            if self@.sound() {
                invariants::law_sse_sound(self@, name@);
            }
        }
        let count: usize = match self.active_sse.get(name) {
            Some(n) => *n,
            None => 0,
        };
        if count > 1 {
            let _ = self.active_sse.insert(name.to_owned(), count - 1);
        } else {
            let _ = self.active_sse.remove(name);
        }
    }

    /// A name is online, or went away so recently that it still counts.
    pub fn presence(&self, name: &str, now: Moment) -> (r: bool)
        ensures
            r == self@.present(name@, now),
    {
        self.online(name, now) || self.settle_pending(name)
    }

    fn in_room_with(&self, token: &str, target: &str, now: Instant) -> (r: bool)
        requires
            self@.tokens.contains_key(token@),
        ensures
            r == self@.in_room_with(token@, target@, now),
    {
        let name = match self.tokens.get(token) {
            Some(st) => copy_opt(&st.name),
            None => None,
        };
        match name {
            Some(name) => self.rooms.shares_room(name.as_str(), target, now),
            None => false,
        }
    }

    fn shown(&self, target: &str, now: Moment) -> (r: bool)
        ensures
            r == self@.shown(target@, now),
    {
        match self.token_of(target) {
            Some(t) => {
                let hidden = match self.tokens.get(t.as_str()) {
                    Some(st) => st.hidden,
                    None => false,
                };
                !hidden && (self.alive(t.as_str()) || self.registry.is_online(target, now.instant)
                    || self.settle_pending(target))
            },
            None => self.presence(target, now),
        }
    }

    /// What the holder of a token is told of the presence of `target_name`. Without a grant or a
    /// room in common, or against a denial, nobody is there.
    pub fn presence_for_token(&self, token: &str, target_name: &str, now: Moment) -> (r: Result<bool, Error>)
        requires
            now.in_range(),
        ensures
            match r {
                Ok(seen) => self@.presence_for(token@, target_name@, now) == Ok::<bool, ErrorView>(
                    seen,
                ),
                Err(e) => self@.presence_for(token@, target_name@, now) == Err::<bool, ErrorView>(
                    e.deep_view(),
                ),
            },
    {
        match self.tokens.get(token) {
            None => return Err(Error::TokenRejected),
            Some(st) => if st.revoked {
                return Err(Error::TokenRevoked);
            },
        }
        if self.denied(token, target_name, now) {
            return Ok(false);
        }
        if !self.has_any_grant_with(token, target_name, now) && !self.in_room_with(
            token,
            target_name,
            now.instant,
        ) {
            return Ok(false);
        }
        Ok(self.shown(target_name, now))
    }

    fn effective_scope(&self, name: &str, now: Instant) -> (r: Option<PresenceScope>)
        ensures
            r == self@.effective_scope(name@, now),
    {
        let streaming = match self.active_sse.get(name) {
            Some(n) => *n > 0,
            None => false,
        };
        if streaming {
            self.registry.presence_scope_unconditional(name)
        } else {
            self.registry.presence_scope(name, now)
        }
    }

    fn listed_online(&self, name: &str, now: Moment) -> (r: bool)
        ensures
            r == self@.listed_online(name@, now),
    {
        match self.name_to_token.get(name) {
            Some(t) => {
                let hidden = match self.tokens.get(t.as_str()) {
                    Some(st) => st.hidden,
                    None => false,
                };
                !hidden && (self.alive(t.as_str()) || self.registry.is_online(name, now.instant))
            },
            None => match self.effective_scope(name, now.instant) {
                None => false,
                Some(PresenceScope::Hidden) => false,
                Some(_) => self.online(name, now),
            },
        }
    }

    /// Everyone who can be written to, by name, for a governor.
    pub fn list_participants(&self, gov: &GovernorToken, now: Moment) -> (r: Result<
        Vec<ParticipantInfo>,
        Error,
    >)
        ensures
            error::outcome(r) == match self@.trust.verify(gov.0@, now.instant) {
                Ok(_) => Ok(self@.participants(now)),
                Err(e) => Err(e),
            },
    {
        if let Err(e) = self.trust.verify_governor(gov.0.as_str(), now.instant) {
            return Err(e);
        }
        let names = self.agents.keys();
        let ghost ks = names.deep_view();
        let ghost entry = |name: Seq<char>| self@.participant(name, now);
        let mut list: Vec<ParticipantInfo> = Vec::new();
        let mut i: usize = 0;
        assert(list.deep_view() =~= ks.take(0).map_values(entry));
        while i < names.len()
            invariant
                i <= names@.len(),
                ks == names.deep_view(),
                ks.to_set() == self@.agents.dom(),
                entry == (|name: Seq<char>| self@.participant(name, now)),
                list.deep_view() == ks.take(i as int).map_values(entry),
            decreases names@.len() - i,
        {
            assert(ks.to_set().contains(ks[i as int]));
            let name = names[i].clone();
            let identity = match self.agents.get(name.as_str()) {
                Some(id) => id.clone(),
                None => String::new(),
            };
            let status = if self.listed_online(name.as_str(), now) {
                "online"
            } else {
                "offline"
            };
            let ghost was = list.deep_view();
            let info = ParticipantInfo { name, identity, status };
            assert(info.deep_view() == entry(ks[i as int]));
            list.push(info);
            assert(list.deep_view() =~= was.push(info.deep_view()));
            assert(list.deep_view() =~= ks.take(i + 1).map_values(entry));
            i += 1;
        }
        assert(ks.take(i as int) =~= ks);
        Ok(list)
    }
}

} // verus!
