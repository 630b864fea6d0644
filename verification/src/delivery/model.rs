//! The state of the hub as its contracts speak of it, and the steps that its calls are made of.

use crate::clock;
use crate::clock::{Duration, Instant, Moment};
use crate::delivery::{
    BlockView, ClaimView, EffectView, HoldView, ListenView, RequestView, SettleView, StoreWriteView,
    WindowView,
};
use crate::events;
use crate::registry::RegistryModel;
use crate::rooms;
use crate::rooms::Members;
use crate::strmap;
use crate::text;
use crate::trust;
use crate::trust::TrustModel;
use crate::types::MessageView;
use vstd::prelude::*;

verus! {

/// The state of the hub.
#[verifier::ext_equal]
pub struct HubModel {
    pub trust: TrustModel,
    pub registry: RegistryModel,
    pub rooms: Map<Seq<char>, Members>,
    /// The identity behind each name that can be written to.
    pub agents: Map<Seq<char>, Seq<char>>,
    pub token_to_name: Map<Seq<char>, Seq<char>>,
    pub name_to_token: Map<Seq<char>, Seq<char>>,
    /// Streams counted by name.
    pub active_sse: Map<Seq<char>, usize>,
    pub queues: Map<Seq<char>, Seq<MessageView>>,
    /// The names for which messages wait.
    pub kick_pending: Set<Seq<char>>,
    pub windows: Seq<WindowView>,
    pub holds: Seq<HoldView>,
    pub requests: Map<Seq<char>, RequestView>,
    pub reply_ttl: Duration,
    pub hold_ttl: Duration,
    pub med_counter: u64,
    pub req_counter: u64,
    pub claim_counter: u64,
    pub tokens: Map<Seq<char>, ListenView>,
    /// The names that were ever bound.
    pub identities: Set<Seq<char>>,
    /// Streams counted by token.
    pub connections: Map<Seq<char>, usize>,
    pub gc_unlisten: Duration,
    pub gc_no_grant: Duration,
    pub gc_grace: Duration,
    pub blocks: Map<(Seq<char>, Seq<char>), BlockView>,
    pub startup_announced: bool,
    pub claims: Map<Seq<char>, ClaimView>,
    pub settling: Map<Seq<char>, SettleView>,
    pub settle_window: Duration,
    pub next_stream: u64,
    pub next_timer: u64,
    /// There is a token store to write to.
    pub persistent: bool,
    pub outbox: Seq<EffectView>,
}

/// The number after `n`, starting over after the last.
pub open spec fn successor(n: u64) -> u64 {
    if n == u64::MAX {
        0
    } else {
        (n + 1) as u64
    }
}

/// A message from the service itself.
pub open spec fn system_message(text: Seq<char>, event_type: Seq<char>) -> MessageView {
    MessageView {
        payload: vstd::utf8::encode_utf8(text),
        from_name: "system"@,
        reason: None,
        event_type: Some(event_type),
        thread_id: None,
    }
}

impl HubModel {
    /// No counter has reached its last value, and the spans of time fit the clock.
    pub open spec fn ready(self) -> bool {
        &&& self.med_counter < u64::MAX
        &&& self.req_counter < u64::MAX
        &&& self.claim_counter < u64::MAX
        &&& self.trust.can_number()
        &&& self.trust.has_headroom()
        &&& self.reply_ttl <= clock::LAST_INSTANT
        &&& self.hold_ttl <= clock::LAST_INSTANT
    }

    // ── The outbox ───────────────────────────────────────────────────────────

    pub open spec fn emit(self, e: EffectView) -> HubModel {
        HubModel { outbox: self.outbox.push(e), ..self }
    }

    /// A change to the token store, where there is one.
    pub open spec fn store(self, w: StoreWriteView) -> HubModel {
        if self.persistent {
            self.emit(EffectView::Store(w))
        } else {
            self
        }
    }

    /// A text goes down a stream, where there is one.
    pub open spec fn push(self, stream: Option<u64>, text: Seq<char>) -> HubModel {
        match stream {
            Some(stream) => self.emit(EffectView::Push { stream, text }),
            None => self,
        }
    }

    /// A text goes down each of the streams.
    pub open spec fn push_all(self, streams: Seq<u64>, text: Seq<char>) -> HubModel
        decreases streams.len(),
    {
        if streams.len() == 0 {
            self
        } else {
            self.push_all(streams.drop_last(), text).push(Some(streams.last()), text)
        }
    }

    /// A stream ends, where there is one.
    pub open spec fn close(self, stream: Option<u64>) -> HubModel {
        match stream {
            Some(stream) => self.emit(EffectView::Close { stream }),
            None => self,
        }
    }

    // ── Queues ───────────────────────────────────────────────────────────────

    /// The messages that wait for `name`.
    pub open spec fn queue(self, name: Seq<char>) -> Seq<MessageView> {
        if self.queues.contains_key(name) {
            self.queues[name]
        } else {
            seq![]
        }
    }

    /// A message joins the end of the queue.
    pub open spec fn put(self, name: Seq<char>, msg: MessageView) -> HubModel {
        HubModel { queues: self.queues.insert(name, self.queue(name).push(msg)), ..self }
    }

    pub open spec fn kick(self, name: Seq<char>) -> HubModel {
        HubModel { kick_pending: self.kick_pending.insert(name), ..self }
    }

    /// The token that `name` is bound to, where the hub knows it.
    pub open spec fn token_of(self, name: Seq<char>) -> Option<Seq<char>> {
        if self.name_to_token.contains_key(name) && self.tokens.contains_key(self.name_to_token[name]) {
            Some(self.name_to_token[name])
        } else {
            None
        }
    }

    pub open spec fn set_token(self, token: Seq<char>, st: ListenView) -> HubModel {
        HubModel { tokens: self.tokens.insert(token, st), ..self }
    }

    /// The count of messages for `name` goes up by one.
    pub open spec fn bump(self, name: Seq<char>) -> HubModel {
        match self.token_of(name) {
            Some(t) => self.set_token(
                t,
                ListenView {
                    msg_id: if self.tokens[t].msg_id < u64::MAX {
                        (self.tokens[t].msg_id + 1) as u64
                    } else {
                        u64::MAX
                    },
                    ..self.tokens[t]
                },
            ),
            None => self,
        }
    }

    /// A message reaches the queue of `name`, is marked as waiting and counted.
    pub open spec fn deliver(self, name: Seq<char>, msg: MessageView) -> HubModel {
        self.put(name, msg).kick(name).bump(name)
    }

    // ── Streams ──────────────────────────────────────────────────────────────

    /// The token has an open stream.
    pub open spec fn alive(self, token: Seq<char>) -> bool {
        self.connections.contains_key(token) && self.connections[token] > 0
    }

    /// The stream of a token, where it has one.
    pub open spec fn stream_of(self, token: Seq<char>) -> Option<u64> {
        if self.tokens.contains_key(token) {
            match self.tokens[token].stream {
                Some(s) => Some(s.id),
                None => None,
            }
        } else {
            None
        }
    }

    /// The token of a name whose stream may be told of waiting messages: it is alive and was not
    /// told since it last fetched one.
    pub open spec fn armed(self, name: Seq<char>) -> Option<Seq<char>> {
        match self.token_of(name) {
            Some(t) => if !self.tokens[t].notify_suppressed && self.alive(t) {
                Some(t)
            } else {
                None
            },
            None => None,
        }
    }

    /// The stream of `name` counts as told.
    pub open spec fn hush(self, name: Seq<char>) -> HubModel {
        match self.armed(name) {
            Some(t) => self.set_token(t, ListenView { notify_suppressed: true, ..self.tokens[t] }),
            None => self,
        }
    }

    /// The stream of `name` that may be told.
    pub open spec fn bell(self, name: Seq<char>) -> Option<u64> {
        match self.armed(name) {
            Some(t) => self.stream_of(t),
            None => None,
        }
    }

    /// The stream of `name` gets `text`, once until messages are fetched.
    pub open spec fn ring_with(self, name: Seq<char>, text: Seq<char>) -> HubModel {
        self.hush(name).push(self.bell(name), text)
    }

    /// The stream of `name` is told how many messages wait.
    pub open spec fn ring(self, name: Seq<char>) -> HubModel {
        self.ring_with(name, events::notify(self.queue(name).len()))
    }

    // ── Denials ──────────────────────────────────────────────────────────────

    /// A denial keeps `from` away from `to`.
    pub open spec fn denied(self, from: Seq<char>, to: Seq<char>, now: Moment) -> bool {
        self.blocks.contains_key((from, to)) && self.blocks[(from, to)].active(now.unix())
    }

    /// A denial that has ended is forgotten.
    pub open spec fn forget_block(self, from: Seq<char>, to: Seq<char>) -> HubModel {
        HubModel { blocks: self.blocks.remove((from, to)), ..self }
    }

    // ── Presence ─────────────────────────────────────────────────────────────

    /// The identity behind a name; the name itself where none is known.
    pub open spec fn identity_of(self, name: Seq<char>) -> Seq<char> {
        if self.agents.contains_key(name) {
            self.agents[name]
        } else {
            name
        }
    }

    /// The token of the other party of a grant: by its name, or else by its identity.
    pub open spec fn party_token(self, party: (Option<Seq<char>>, Seq<char>)) -> Option<Seq<char>> {
        if party.0 is Some && self.name_to_token.contains_key(party.0->0) {
            Some(self.name_to_token[party.0->0])
        } else if self.tokens.contains_key(party.1) {
            Some(party.1)
        } else {
            None
        }
    }

    /// A token is taken into an audience, once: its stream, where that wants presence events.
    pub open spec fn join_audience(self, audience: (Set<Seq<char>>, Seq<u64>), token: Seq<char>) -> (
        Set<Seq<char>>,
        Seq<u64>,
    ) {
        if audience.0.contains(token) {
            audience
        } else if self.tokens.contains_key(token) && self.tokens[token].presence_stream() is Some {
            (
                audience.0.insert(token),
                audience.1.push(self.tokens[token].presence_stream()->0),
            )
        } else {
            (audience.0.insert(token), audience.1)
        }
    }

    /// The grant partners of `name` who are not denied it, in the order of the grants.
    pub open spec fn grant_audience(
        self,
        name: Seq<char>,
        parties: Seq<(Option<Seq<char>>, Seq<char>)>,
        now: Moment,
    ) -> (Set<Seq<char>>, Seq<u64>)
        decreases parties.len(),
    {
        if parties.len() == 0 {
            (Set::empty(), seq![])
        } else {
            let before = self.grant_audience(name, parties.drop_last(), now);
            let party = parties.last();
            if self.denied(party.1, name, now) {
                before
            } else {
                match self.party_token(party) {
                    Some(t) => self.join_audience(before, t),
                    None => before,
                }
            }
        }
    }

    /// The names in `peers` who share a room with `name` and are not denied it, in order.
    pub open spec fn room_audience(
        self,
        name: Seq<char>,
        audience: (Set<Seq<char>>, Seq<u64>),
        peers: Seq<Seq<char>>,
        now: Moment,
    ) -> (Set<Seq<char>>, Seq<u64>)
        decreases peers.len(),
    {
        if peers.len() == 0 {
            audience
        } else {
            let before = self.room_audience(name, audience, peers.drop_last(), now);
            let peer = peers.last();
            if peer != name && rooms::together(self.rooms, name, peer, now.instant) && !self.denied(
                self.name_to_token[peer],
                name,
                now,
            ) {
                self.join_audience(before, self.name_to_token[peer])
            } else {
                before
            }
        }
    }

    /// The streams that hear when `name` comes or goes: those of its grant partners and of the
    /// names it shares a room with, where they want presence events and no denial keeps them
    /// away.
    pub open spec fn audience(self, name: Seq<char>, now: Moment) -> Seq<u64> {
        let parties = trust::counterparties(
            self.trust.grants,
            name,
            self.identity_of(name),
            now.instant,
        );
        self.room_audience(
            name,
            self.grant_audience(name, parties, now),
            strmap::sorted(self.name_to_token.dom()),
            now,
        ).1
    }

    /// Where someone wants to hear of it, the countdown after which `name` counts as gone starts
    /// anew.
    pub open spec fn begin_settle(self, name: Seq<char>, now: Moment) -> HubModel {
        let streams = self.audience(name, now);
        if streams.len() == 0 {
            self
        } else {
            HubModel {
                settling: self.settling.insert(
                    name,
                    SettleView { timer: self.next_timer, streams, fired: false },
                ),
                next_timer: successor(self.next_timer),
                ..self
            }.emit(
                EffectView::StartSettle { name, timer: self.next_timer, window: self.settle_window },
            )
        }
    }

    /// The countdown for `name` is off.
    pub open spec fn cancel_settle(self, name: Seq<char>) -> HubModel {
        HubModel { settling: self.settling.remove(name), ..self }
    }

    /// The countdown for `name` runs.
    pub open spec fn settle_pending(self, name: Seq<char>) -> bool {
        self.settling.contains_key(name) && !self.settling[name].fired
    }

    /// A name has an open stream of its own or was seen within the liveness window.
    pub open spec fn online(self, name: Seq<char>, now: Moment) -> bool {
        (self.active_sse.contains_key(name) && self.active_sse[name] > 0) || self.registry.live(
            name,
            now.instant,
        )
    }

    // ── Names and tokens ─────────────────────────────────────────────────────

    /// `name` is bound to `token` and is an identity from now on.
    pub open spec fn bind(self, token: Seq<char>, name: Seq<char>) -> HubModel {
        HubModel {
            identities: self.identities.insert(name),
            name_to_token: self.name_to_token.insert(name, token),
            token_to_name: self.token_to_name.insert(token, name),
            agents: self.agents.insert(name, token),
            tokens: if self.tokens.contains_key(token) {
                self.tokens.insert(token, ListenView { name: Some(name), ..self.tokens[token] })
            } else {
                self.tokens
            },
            ..self
        }
    }

    /// The token has been idle for too long and nothing speaks for keeping it. Revoked tokens,
    /// governors' tokens and tokens bound to an identity are kept whatever their age.
    pub open spec fn stale(self, token: Seq<char>, now: Instant) -> bool {
        let st = self.tokens[token];
        let idle = clock::elapsed(st.last_active, now);
        &&& !st.revoked
        &&& st.governor_id is None
        &&& !(st.name is Some && self.identities.contains(st.name->0))
        &&& if st.pending_first_listen {
            idle > self.gc_grace
        } else if !st.ever_listened {
            idle > self.gc_unlisten
        } else {
            !st.ever_granted && st.name is None && idle > self.gc_no_grant
        }
    }

    /// A token and the name bound to it are gone, with the messages that waited.
    pub open spec fn evict(self, token: Seq<char>, now: Moment) -> HubModel {
        let cut = HubModel { connections: self.connections.remove(token), ..self };
        if !self.tokens.contains_key(token) {
            cut
        } else {
            let st = self.tokens[token];
            let out = HubModel { tokens: cut.tokens.remove(token), ..cut }.close(
                self.stream_of(token),
            );
            match st.name {
                None => out,
                Some(name) => {
                    let told = if st.ever_granted {
                        out.begin_settle(name, now)
                    } else {
                        out
                    };
                    HubModel {
                        name_to_token: told.name_to_token.remove(name),
                        agents: told.agents.remove(name),
                        token_to_name: told.token_to_name.remove(token),
                        queues: told.queues.remove(name),
                        kick_pending: told.kick_pending.remove(name),
                        ..told
                    }
                },
            }
        }
    }

    /// The tokens are evicted one after the other.
    pub open spec fn evict_all(self, tokens: Seq<Seq<char>>, now: Moment) -> HubModel
        decreases tokens.len(),
    {
        if tokens.len() == 0 {
            self
        } else {
            self.evict_all(tokens.drop_last(), now).evict(tokens.last(), now)
        }
    }

    /// The stale tokens, in order.
    pub open spec fn stale_tokens(self, now: Instant) -> Seq<Seq<char>> {
        strmap::sorted(self.tokens.dom()).filter(|t: Seq<char>| self.stale(t, now))
    }

    /// The stale tokens are gone.
    pub open spec fn gc(self, now: Moment) -> HubModel {
        self.evict_all(self.stale_tokens(now.instant), now)
    }

    /// A number from which a token can be made and that no token has.
    pub open spec fn free_number(self, n: u64) -> bool {
        10_000_000 <= n <= 999_999_999_999 && !self.tokens.contains_key(text::decimal(n as nat))
    }

    /// Some number is free.
    pub open spec fn can_mint(self) -> bool {
        exists|n: u64| self.free_number(n)
    }

    /// Windows and holds whose time is up are gone, and so are the holds that were ruled on.
    pub open spec fn prune(self, now: Instant) -> HubModel {
        HubModel {
            windows: self.windows.filter(|w: WindowView| w.expires > now),
            holds: self.holds.filter(|h: HoldView| !h.resolved && h.expires > now),
            ..self
        }
    }

    /// `recipient` may answer `sender` for a while.
    pub open spec fn open_window(self, recipient: Seq<char>, sender: Seq<char>, now: Instant) -> HubModel {
        HubModel {
            windows: self.windows.push(
                WindowView {
                    recipient,
                    sender,
                    expires: (now + self.reply_ttl) as Instant,
                    used: false,
                },
            ),
            ..self
        }
    }
}

} // verus!
