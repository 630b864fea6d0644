//! The hub's state in memory, and the steps that its calls are made of.

use crate::clock;
use crate::clock::{Duration, Instant, Moment};
use crate::delivery::model::HubModel;
use crate::delivery::{
    ConnectionRequest, DenialBlock, Effect, EffectView, GovernanceClaim, HoldView,
    ListenTokenState, Mailbox, MediationHold, ReplyWindow, SettleTimer, StoreWrite, WindowView,
};
use crate::events;
use crate::laws::invariants;
use crate::random::draw;
use crate::registry::RegistryTable;
use crate::rooms;
use crate::rooms::RoomStore;
use crate::seqs;
use crate::strmap::{PairMap, StrMap, StrSet};
use crate::text;
use crate::text::same;
use crate::trust;
use crate::trust::table::TrustTable;
use crate::types::QueuedMessage;
use vstd::prelude::*;

verus! {

/// The hub.
pub struct DeliveryHub {
    pub trust: TrustTable,
    pub registry: RegistryTable,
    pub rooms: RoomStore,
    pub agents: StrMap<String>,
    pub token_to_name: StrMap<String>,
    pub name_to_token: StrMap<String>,
    pub active_sse: StrMap<usize>,
    pub queues: StrMap<Mailbox>,
    pub kick_pending: StrSet,
    pub windows: Vec<ReplyWindow>,
    pub holds: Vec<MediationHold>,
    pub requests: StrMap<ConnectionRequest>,
    pub reply_ttl: Duration,
    pub hold_ttl: Duration,
    pub med_counter: u64,
    pub req_counter: u64,
    pub claim_counter: u64,
    pub tokens: StrMap<ListenTokenState>,
    pub identities: StrSet,
    pub connections: StrMap<usize>,
    pub gc_unlisten: Duration,
    pub gc_no_grant: Duration,
    pub gc_grace: Duration,
    pub blocks: PairMap<DenialBlock>,
    pub startup_announced: bool,
    pub claims: StrMap<GovernanceClaim>,
    pub settling: StrMap<SettleTimer>,
    pub settle_window: Duration,
    pub next_stream: u64,
    pub next_timer: u64,
    pub persistent: bool,
    pub outbox: Vec<Effect>,
}

impl View for DeliveryHub {
    type V = HubModel;

    open spec fn view(&self) -> HubModel {
        HubModel {
            trust: self.trust@,
            registry: self.registry@,
            rooms: self.rooms@,
            agents: self.agents@,
            token_to_name: self.token_to_name@,
            name_to_token: self.name_to_token@,
            active_sse: self.active_sse@,
            queues: self.queues@,
            kick_pending: self.kick_pending@,
            windows: self.windows.deep_view(),
            holds: self.holds.deep_view(),
            requests: self.requests@,
            reply_ttl: self.reply_ttl,
            hold_ttl: self.hold_ttl,
            med_counter: self.med_counter,
            req_counter: self.req_counter,
            claim_counter: self.claim_counter,
            tokens: self.tokens@,
            identities: self.identities@,
            connections: self.connections@,
            gc_unlisten: self.gc_unlisten,
            gc_no_grant: self.gc_no_grant,
            gc_grace: self.gc_grace,
            blocks: self.blocks@,
            startup_announced: self.startup_announced,
            claims: self.claims@,
            settling: self.settling@,
            settle_window: self.settle_window,
            next_stream: self.next_stream,
            next_timer: self.next_timer,
            persistent: self.persistent,
            outbox: self.outbox.deep_view(),
        }
    }
}

impl DeliveryHub {
    // ── The outbox ───────────────────────────────────────────────────────────

    pub(crate) fn emit(&mut self, e: Effect)
        ensures
            final(self)@ == old(self)@.emit(e.deep_view()),
    {
        let ghost was = self.outbox.deep_view();
        let ghost v = e.deep_view();
        self.outbox.push(e);
        assert(self.outbox.deep_view() =~= was.push(v));
    }

    pub(crate) fn store(&mut self, w: StoreWrite)
        ensures
            final(self)@ == old(self)@.store(w.deep_view()),
    {
        if self.persistent {
            self.emit(Effect::Store(w));
        }
    }

    pub(crate) fn push(&mut self, stream: Option<u64>, text: String)
        ensures
            final(self)@ == old(self)@.push(stream, text@),
    {
        if let Some(stream) = stream {
            self.emit(Effect::Push { stream, text });
        }
    }

    pub(crate) fn push_all(&mut self, streams: &Vec<u64>, text: &str)
        ensures
            final(self)@ == old(self)@.push_all(streams@, text@),
    {
        let ghost before = self@;
        let mut i: usize = 0;
        assert(streams@.take(0) =~= seq![]);
        while i < streams.len()
            invariant
                i <= streams@.len(),
                self@ == before.push_all(streams@.take(i as int), text@),
            decreases streams@.len() - i,
        {
            assert(streams@.take(i + 1).drop_last() =~= streams@.take(i as int));
            self.push(Some(streams[i]), text.to_owned());
            i += 1;
        }
        assert(streams@.take(i as int) =~= streams@);
    }

    pub(crate) fn close(&mut self, stream: Option<u64>)
        ensures
            final(self)@ == old(self)@.close(stream),
    {
        if let Some(stream) = stream {
            self.emit(Effect::Close { stream });
        }
    }

    /// What the outside has to do, in order; nothing is left to do afterwards.
    pub fn take_effects(&mut self) -> (effects: Vec<Effect>)
        ensures
            effects.deep_view() == old(self)@.outbox,
            final(self)@ == (HubModel { outbox: Seq::empty(), ..old(self)@ }),
            old(self)@.sound() ==> final(self)@.sound(),
    {
        proof {
            if self@.sound() {
                invariants::law_rest_sound(self@, HubModel { outbox: Seq::empty(), ..self@ });
            }
        }
        let mut effects: Vec<Effect> = Vec::new();
        std::mem::swap(&mut effects, &mut self.outbox);
        assert(self.outbox.deep_view() =~= Seq::<EffectView>::empty());
        effects
    }

    // ── Queues ───────────────────────────────────────────────────────────────

    /// How many messages wait for `name`.
    pub(crate) fn queue_len(&self, name: &str) -> (n: usize)
        ensures
            n == self@.queue(name@).len(),
    {
        match self.queues.get(name) {
            Some(q) => q.messages.len(),
            None => 0,
        }
    }

    /// Puts a message at the end of a queue.
    pub(crate) fn put(&mut self, name: &str, msg: QueuedMessage)
        ensures
            final(self)@ == old(self)@.put(name@, msg.deep_view()),
    {
        let mut q = match self.queues.remove(name) {
            Some(q) => q,
            None => {
                let q = Mailbox { messages: std::collections::VecDeque::new() };
                assert(q.deep_view() =~= seq![]);
                q
            },
        };
        let ghost was = q.deep_view();
        let ghost v = msg.deep_view();
        q.messages.push_back(msg);
        assert(q.deep_view() =~= was.push(v));
        let _ = self.queues.insert(name.to_owned(), q);
        assert(self@.queues =~= old(self)@.put(name@, v).queues);
    }

    pub(crate) fn kick(&mut self, name: &str)
        ensures
            final(self)@ == old(self)@.kick(name@),
    {
        let _ = self.kick_pending.insert(name.to_owned());
    }

    /// The token that `name` is bound to, where the hub knows it.
    pub(crate) fn token_of(&self, name: &str) -> (r: Option<String>)
        ensures
            r.deep_view() == self@.token_of(name@),
    {
        match self.name_to_token.get(name) {
            Some(t) => if self.tokens.contains_key(t.as_str()) {
                Some(t.clone())
            } else {
                None
            },
            None => None,
        }
    }

    /// Counts a message for `name`.
    pub(crate) fn bump(&mut self, name: &str)
        ensures
            final(self)@ == old(self)@.bump(name@),
    {
        if let Some(t) = self.token_of(name) {
            if let Some(mut st) = self.tokens.remove(t.as_str()) {
                if st.msg_id < u64::MAX {
                    st.msg_id = st.msg_id + 1;
                }
                let _ = self.tokens.insert(t, st);
            }
        }
        assert(self@ =~= old(self)@.bump(name@));
    }

    pub(crate) fn deliver(&mut self, name: &str, msg: QueuedMessage)
        ensures
            final(self)@ == old(self)@.deliver(name@, msg.deep_view()),
    {
        self.put(name, msg);
        self.kick(name);
        self.bump(name);
    }

    // ── Streams ──────────────────────────────────────────────────────────────

    /// The token has an open stream.
    pub(crate) fn alive(&self, token: &str) -> (r: bool)
        ensures
            r == self@.alive(token@),
    {
        match self.connections.get(token) {
            Some(n) => *n > 0,
            None => false,
        }
    }

    pub(crate) fn stream_of(&self, token: &str) -> (r: Option<u64>)
        ensures
            r == self@.stream_of(token@),
    {
        match self.tokens.get(token) {
            Some(st) => match st.stream {
                Some(s) => Some(s.id),
                None => None,
            },
            None => None,
        }
    }

    pub(crate) fn armed(&self, name: &str) -> (r: Option<String>)
        ensures
            r.deep_view() == self@.armed(name@),
    {
        match self.token_of(name) {
            Some(t) => match self.tokens.get(t.as_str()) {
                Some(st) => if !st.notify_suppressed && self.alive(t.as_str()) {
                    Some(t)
                } else {
                    None
                },
                None => None,
            },
            None => None,
        }
    }

    /// The stream of `name` that may be told; it counts as told from now on.
    pub(crate) fn take_bell(&mut self, name: &str) -> (stream: Option<u64>)
        ensures
            stream == old(self)@.bell(name@),
            final(self)@ == old(self)@.hush(name@),
    {
        match self.armed(name) {
            None => None,
            Some(t) => {
                let stream = self.stream_of(t.as_str());
                if let Some(mut st) = self.tokens.remove(t.as_str()) {
                    st.notify_suppressed = true;
                    let _ = self.tokens.insert(t, st);
                }
                assert(self@ =~= old(self)@.hush(name@));
                stream
            },
        }
    }

    pub(crate) fn ring_with(&mut self, name: &str, text: String)
        ensures
            final(self)@ == old(self)@.ring_with(name@, text@),
    {
        let stream = self.take_bell(name);
        self.push(stream, text);
    }

    pub(crate) fn ring(&mut self, name: &str)
        ensures
            final(self)@ == old(self)@.ring(name@),
    {
        let n: usize = self.queue_len(name);
        self.ring_with(name, events::notify_text(n));
    }

    // ── Denials ──────────────────────────────────────────────────────────────

    /// A denial keeps `from` away from `to`.
    pub(crate) fn denied(&self, from: &str, to: &str, now: Moment) -> (r: bool)
        requires
            now.in_range(),
        ensures
            r == self@.denied(from@, to@, now),
    {
        match self.blocks.get(from, to) {
            Some(block) => match block.expires_at {
                Some(end) => end > now.unix_now(),
                None => true,
            },
            None => false,
        }
    }

    // ── Presence ─────────────────────────────────────────────────────────────

    /// The identity behind a name; the name itself where none is known.
    fn identity_of(&self, name: &str) -> (id: String)
        ensures
            id@ == self@.identity_of(name@),
    {
        match self.agents.get(name) {
            Some(id) => id.clone(),
            None => name.to_owned(),
        }
    }

    fn party_token(&self, name: &Option<String>, identity: &str) -> (r: Option<String>)
        ensures
            r.deep_view() == self@.party_token((name.deep_view(), identity@)),
    {
        if let Some(n) = name {
            if let Some(t) = self.name_to_token.get(n.as_str()) {
                return Some(t.clone());
            }
        }
        if self.tokens.contains_key(identity) {
            Some(identity.to_owned())
        } else {
            None
        }
    }

    fn join_audience(&self, seen: &mut StrSet, streams: &mut Vec<u64>, token: &str)
        ensures
            (final(seen)@, final(streams)@) == self@.join_audience(
                (old(seen)@, old(streams)@),
                token@,
            ),
    {
        if seen.insert(token.to_owned()) {
            if let Some(st) = self.tokens.get(token) {
                if st.presence_push {
                    if let Some(s) = st.stream {
                        if s.open {
                            streams.push(s.id);
                        }
                    }
                }
            }
        } else {
            assert(seen@ =~= old(seen)@);
        }
    }

    /// The streams that hear when `name` comes or goes.
    pub(crate) fn audience(&self, name: &str, now: Moment) -> (streams: Vec<u64>)
        requires
            now.in_range(),
        ensures
            streams@ == self@.audience(name@, now),
    {
        let identity = self.identity_of(name);
        let parties = self.trust.grant_counterparties_for(name, identity.as_str(), now.instant);
        let ghost ps = parties.deep_view();
        let mut seen = StrSet::new();
        let mut streams: Vec<u64> = Vec::new();
        let mut i: usize = 0;
        proof {
            assert(ps.take(0) =~= seq![]);
            assert(streams@ =~= seq![]);
        }
        while i < parties.len()
            invariant
                now.in_range(),
                i <= parties@.len(),
                ps == parties.deep_view(),
                (seen@, streams@) == self@.grant_audience(name@, ps.take(i as int), now),
            decreases parties@.len() - i,
        {
            let party = &parties[i];
            proof {
                assert(ps[i as int] == party.deep_view());
                assert(ps.take(i + 1).drop_last() =~= ps.take(i as int));
                assert(ps.take(i + 1).last() == ps[i as int]);
            }
            if !self.denied(party.1.as_str(), name, now) {
                if let Some(t) = self.party_token(&party.0, party.1.as_str()) {
                    self.join_audience(&mut seen, &mut streams, t.as_str());
                }
            }
            i += 1;
        }
        assert(ps.take(i as int) =~= ps);
        let ghost partners = (seen@, streams@);
        let peers = self.name_to_token.keys();
        let ghost ks = peers.deep_view();
        let mut k: usize = 0;
        assert(ks.take(0) =~= seq![]);
        while k < peers.len()
            invariant
                now.in_range(),
                k <= peers@.len(),
                ks == peers.deep_view(),
                ks.to_set() == self@.name_to_token.dom(),
                (seen@, streams@) == self@.room_audience(name@, partners, ks.take(k as int), now),
            decreases peers@.len() - k,
        {
            proof {
                assert(ks.to_set().contains(ks[k as int]));
                assert(ks.take(k + 1).drop_last() =~= ks.take(k as int));
                assert(ks.take(k + 1).last() == ks[k as int]);
            }
            let peer = peers[k].as_str();
            if !same(peer, name) && self.rooms.shares_room(name, peer, now.instant) {
                if let Some(t) = self.name_to_token.get(peer) {
                    if !self.denied(t.as_str(), name, now) {
                        self.join_audience(&mut seen, &mut streams, t.as_str());
                    }
                }
            }
            k += 1;
        }
        assert(ks.take(k as int) =~= ks);
        streams
    }

    pub(crate) fn begin_settle(&mut self, name: &str, now: Moment)
        requires
            now.in_range(),
        ensures
            final(self)@ == old(self)@.begin_settle(name@, now),
    {
        let streams = self.audience(name, now);
        if streams.len() > 0 {
            let timer: u64 = self.next_timer;
            self.next_timer = if timer == u64::MAX {
                0
            } else {
                timer + 1
            };
            let _ = self.settling.insert(
                name.to_owned(),
                SettleTimer { timer, streams, fired: false },
            );
            let window: Duration = self.settle_window;
            self.emit(Effect::StartSettle { name: name.to_owned(), timer, window });
        }
    }

    pub(crate) fn cancel_settle(&mut self, name: &str)
        ensures
            final(self)@ == old(self)@.cancel_settle(name@),
    {
        let _ = self.settling.remove(name);
    }

    pub(crate) fn settle_pending(&self, name: &str) -> (r: bool)
        ensures
            r == self@.settle_pending(name@),
    {
        match self.settling.get(name) {
            Some(t) => !t.fired,
            None => false,
        }
    }

    /// A name has an open stream of its own or was seen within the liveness window.
    pub(crate) fn online(&self, name: &str, now: Moment) -> (r: bool)
        ensures
            r == self@.online(name@, now),
    {
        let streaming = match self.active_sse.get(name) {
            Some(n) => *n > 0,
            None => false,
        };
        streaming || self.registry.is_online(name, now.instant)
    }

    // ── Names and tokens ─────────────────────────────────────────────────────

    pub(crate) fn bind(&mut self, token: &str, name: &str)
        ensures
            final(self)@ == old(self)@.bind(token@, name@),
    {
        let _ = self.identities.insert(name.to_owned());
        let _ = self.name_to_token.insert(name.to_owned(), token.to_owned());
        let _ = self.token_to_name.insert(token.to_owned(), name.to_owned());
        let _ = self.agents.insert(name.to_owned(), token.to_owned());
        if let Some(mut st) = self.tokens.remove(token) {
            st.name = Some(name.to_owned());
            let _ = self.tokens.insert(token.to_owned(), st);
        }
        assert(self@ =~= old(self)@.bind(token@, name@));
    }

    fn stale(&self, token: &str, now: Instant) -> (r: bool)
        requires
            self@.tokens.contains_key(token@),
        ensures
            r == self@.stale(token@, now),
    {
        match self.tokens.get(token) {
            Some(st) => {
                if st.revoked || st.governor_id.is_some() {
                    return false;
                }
                if let Some(name) = &st.name {
                    if self.identities.contains(name.as_str()) {
                        return false;
                    }
                }
                let idle: Duration = clock::since(st.last_active, now);
                if st.pending_first_listen {
                    idle > self.gc_grace
                } else if !st.ever_listened {
                    idle > self.gc_unlisten
                } else {
                    !st.ever_granted && st.name.is_none() && idle > self.gc_no_grant
                }
            },
            None => false,
        }
    }

    fn evict(&mut self, token: &str, now: Moment)
        requires
            now.in_range(),
        ensures
            final(self)@ == old(self)@.evict(token@, now),
    {
        let stream = self.stream_of(token);
        let _ = self.connections.remove(token);
        if let Some(st) = self.tokens.remove(token) {
            self.close(stream);
            if let Some(name) = st.name {
                if st.ever_granted {
                    self.begin_settle(name.as_str(), now);
                }
                let _ = self.name_to_token.remove(name.as_str());
                let _ = self.agents.remove(name.as_str());
                let _ = self.token_to_name.remove(token);
                let _ = self.queues.remove(name.as_str());
                self.kick_pending.remove(name.as_str());
            }
        } else {
            assert(self@.tokens =~= old(self)@.tokens);
        }
    }

    /// Evicts the stale tokens.
    pub fn gc_tokens(&mut self, now: Moment)
        requires
            now.in_range(),
        ensures
            final(self)@ == old(self)@.gc(now),
            old(self)@.sound() ==> final(self)@.sound(),
    {
        proof {
            if self@.sound() {
                invariants::law_gc_sound(self@, now);
            }
        }
        let ghost before = self@;
        let ghost p = |t: Seq<char>| before.stale(t, now.instant);
        let all = self.tokens.keys();
        let ghost ks = all.deep_view();
        let mut doomed: Vec<String> = Vec::new();
        let mut i: usize = 0;
        proof {
            seqs::lemma_filter_empty(ks.take(0), p);
            assert(doomed.deep_view() =~= ks.take(0).filter(p));
        }
        while i < all.len()
            invariant
                i <= all@.len(),
                ks == all.deep_view(),
                ks.to_set() == before.tokens.dom(),
                self@ == before,
                p == (|t: Seq<char>| before.stale(t, now.instant)),
                doomed.deep_view() == ks.take(i as int).filter(p),
            decreases all@.len() - i,
        {
            proof {
                assert(ks.to_set().contains(ks[i as int]));
                seqs::lemma_filter_next(ks, i as int, p);
            }
            if self.stale(all[i].as_str(), now.instant) {
                let ghost was = doomed.deep_view();
                let t = all[i].clone();
                doomed.push(t);
                assert(doomed.deep_view() =~= was.push(t@));
            }
            i += 1;
        }
        assert(ks.take(i as int) =~= ks);
        let ghost ds = doomed.deep_view();
        let mut k: usize = 0;
        assert(ds.take(0) =~= seq![]);
        while k < doomed.len()
            invariant
                now.in_range(),
                k <= doomed@.len(),
                ds == doomed.deep_view(),
                self@ == before.evict_all(ds.take(k as int), now),
            decreases doomed@.len() - k,
        {
            proof {
                assert(ds.take(k + 1).drop_last() =~= ds.take(k as int));
                assert(ds.take(k + 1).last() == ds[k as int]);
            }
            self.evict(doomed[k].as_str(), now);
            k += 1;
        }
        assert(ds.take(k as int) =~= ds);
    }

    /// Whether a token can be made.
    pub fn can_mint(&self) -> (r: bool)
        ensures
            r == self@.can_mint(),
    {
        let mut n: u64 = 10_000_000;
        while n <= 999_999_999_999
            invariant
                10_000_000 <= n <= 1_000_000_000_000,
                forall|m: u64| m < n ==> !self@.free_number(m),
            decreases 1_000_000_000_000 - n,
        {
            let numeral = text::decimal_text(n);
            if !self.tokens.contains_key(numeral.as_str()) {
                assert(self@.free_number(n));
                return true;
            }
            n += 1;
        }
        false
    }

    /// A random number from which no token was made yet. Drawing is repeated while the number
    /// is taken; should every draw of a very long series be taken, the lowest free number serves.
    pub(crate) fn draw_free_number(&self) -> (n: u64)
        requires
            self@.can_mint(),
        ensures
            self@.free_number(n),
    {
        let mut tries: u64 = u64::MAX;
        while tries > 0
            decreases tries,
        {
            let n: u64 = draw(10_000_000, 999_999_999_999);
            let numeral = text::decimal_text(n);
            if !self.tokens.contains_key(numeral.as_str()) {
                return n;
            }
            tries -= 1;
        }
        let mut n: u64 = 10_000_000;
        while n < 999_999_999_999
            invariant
                10_000_000 <= n <= 999_999_999_999,
                self@.can_mint(),
                forall|m: u64| m < n ==> !self@.free_number(m),
            decreases 999_999_999_999 - n,
        {
            let numeral = text::decimal_text(n);
            if !self.tokens.contains_key(numeral.as_str()) {
                return n;
            }
            n += 1;
        }
        proof {
            let m = choose|m: u64| self@.free_number(m);
            assert(self@.free_number(m));
            assert(m == n);
        }
        n
    }

    // ── Windows and holds ────────────────────────────────────────────────────

    pub(crate) fn prune(&mut self, now: Instant)
        ensures
            final(self)@ == old(self)@.prune(now),
    {
        let ghost ws = self.windows.deep_view();
        let ghost p = |w: WindowView| w.expires > now;
        let mut windows: Vec<ReplyWindow> = Vec::new();
        std::mem::swap(&mut windows, &mut self.windows);
        let ghost mut n: int = 0;
        proof {
            seqs::lemma_filter_empty(ws.take(0), p);
            assert(self.windows.deep_view() =~= ws.take(0).filter(p));
            assert(windows.deep_view() =~= ws.skip(0));
        }
        let ghost before = self@;
        while windows.len() > 0
            invariant
                0 <= n <= ws.len(),
                p == (|w: WindowView| w.expires > now),
                windows@.len() == ws.len() - n,
                windows.deep_view() == ws.skip(n),
                self@ == (HubModel { windows: ws.take(n).filter(p), ..before }),
            decreases windows@.len(),
        {
            let ghost was = self.windows.deep_view();
            let ghost left = windows.deep_view();
            proof {
                seqs::lemma_filter_next(ws, n, p);
                assert(left[0] == ws[n]);
            }
            let w = windows.remove(0);
            assert(w.deep_view() == ws[n]);
            assert(windows.deep_view() =~= left.drop_first());
            assert(left.drop_first() =~= ws.skip(n + 1));
            if w.expires > now {
                let ghost v = w.deep_view();
                self.windows.push(w);
                assert(self.windows.deep_view() =~= was.push(v));
            }
            proof {
                n = n + 1;
            }
        }
        assert(ws.take(n) =~= ws);
        self.prune_holds(now);
    }

    fn prune_holds(&mut self, now: Instant)
        ensures
            final(self)@ == (HubModel {
                holds: old(self)@.holds.filter(|h: HoldView| !h.resolved && h.expires > now),
                ..old(self)@
            }),
    {
        let ghost hs = self.holds.deep_view();
        let ghost p = |h: HoldView| !h.resolved && h.expires > now;
        let mut holds: Vec<MediationHold> = Vec::new();
        std::mem::swap(&mut holds, &mut self.holds);
        let ghost mut n: int = 0;
        proof {
            seqs::lemma_filter_empty(hs.take(0), p);
            assert(self.holds.deep_view() =~= hs.take(0).filter(p));
            assert(holds.deep_view() =~= hs.skip(0));
        }
        let ghost before = self@;
        while holds.len() > 0
            invariant
                0 <= n <= hs.len(),
                p == (|h: HoldView| !h.resolved && h.expires > now),
                holds@.len() == hs.len() - n,
                holds.deep_view() == hs.skip(n),
                self@ == (HubModel { holds: hs.take(n).filter(p), ..before }),
            decreases holds@.len(),
        {
            let ghost was = self.holds.deep_view();
            let ghost left = holds.deep_view();
            proof {
                seqs::lemma_filter_next(hs, n, p);
                assert(left[0] == hs[n]);
            }
            let h = holds.remove(0);
            assert(h.deep_view() == hs[n]);
            assert(holds.deep_view() =~= left.drop_first());
            assert(left.drop_first() =~= hs.skip(n + 1));
            if !h.resolved && h.expires > now {
                let ghost v = h.deep_view();
                self.holds.push(h);
                assert(self.holds.deep_view() =~= was.push(v));
            }
            proof {
                n = n + 1;
            }
        }
        assert(hs.take(n) =~= hs);
    }

    pub(crate) fn open_window(&mut self, recipient: &str, sender: &str, now: Instant)
        requires
            now <= clock::LAST_INSTANT,
            old(self)@.reply_ttl <= clock::LAST_INSTANT,
        ensures
            final(self)@ == old(self)@.open_window(recipient@, sender@, now),
    {
        let ghost was = self.windows.deep_view();
        let w = ReplyWindow {
            recipient: recipient.to_owned(),
            sender: sender.to_owned(),
            expires: now + self.reply_ttl,
            used: false,
        };
        let ghost v = w.deep_view();
        self.windows.push(w);
        assert(self.windows.deep_view() =~= was.push(v));
    }
}

} // verus!
