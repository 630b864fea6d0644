//! Tokens, the names bound to them, and the streams opened with them.

use crate::clock;
use crate::clock::{Instant, Moment};
use crate::delivery::hub::DeliveryHub;
use crate::delivery::model;
use crate::delivery::model::HubModel;
use crate::delivery::{
    AnnounceResult, AnnounceView, Effect, EffectView, ListenTokenState, ListenView, SettleTimer,
    SettleView, StoreWrite, StoreWriteView, Stream, CONCURRENT_USE_WINDOW,
};
use crate::error;
use crate::error::{Error, ErrorView};
use crate::events;
use crate::laws::invariants;
use crate::registry::{AgentIdentity, PresenceScope};
use crate::seqs;
use crate::text;
use crate::text::same;
use crate::types::{copy_opt, GovernorToken, MessageView, Payload, QueuedMessage};
use vstd::prelude::*;

verus! {

/// The text of an optional string.
fn opt_str(s: &Option<String>) -> (r: Option<&str>)
    ensures
        r.deep_view() == s.deep_view(),
{
    match s {
        Some(t) => Some(t.as_str()),
        None => None,
    }
}

/// What a governor is told of its role.
pub open spec fn role_message() -> MessageView {
    MessageView {
        payload: vstd::utf8::encode_utf8(events::governor_role()),
        from_name: "system"@,
        reason: Some("governor_role_breadcrumb"@),
        event_type: Some("governor_role"@),
        thread_id: None,
    }
}

/// The address at which a name conflict is followed.
pub open spec fn resolution(name: Seq<char>) -> Seq<char> {
    "/sessions/"@ + name + "/events"@
}

impl HubModel {
    // ── Making tokens ────────────────────────────────────────────────────────

    /// The token made from `n` is known.
    pub open spec fn enrol(self, n: u64, pending: bool, now: Instant) -> HubModel {
        self.set_token(
            text::decimal(n as nat),
            if pending {
                ListenView::registered(now)
            } else {
                ListenView::fresh(now)
            },
        )
    }

    /// The token that a name is bound to is void: its stream is told and ends, and the name is
    /// bound to nothing.
    pub open spec fn retire(self, name: Seq<char>) -> HubModel {
        let voided = if self.name_to_token.contains_key(name) {
            let t = self.name_to_token[name];
            let told = self.push(self.stream_of(t), events::rebound()).close(self.stream_of(t));
            HubModel {
                tokens: told.tokens.remove(t),
                connections: told.connections.remove(t),
                token_to_name: told.token_to_name.remove(t),
                ..told
            }
        } else {
            self
        };
        HubModel {
            name_to_token: voided.name_to_token.remove(name),
            agents: voided.agents.remove(name),
            registry: voided.registry.force_deregister(name),
            ..voided
        }
    }

    /// The binding of a name is written down.
    pub open spec fn store_binding(self, token: Seq<char>, name: Seq<char>) -> HubModel {
        self.store(StoreWriteView::UpsertIdentity { name }).store(
            StoreWriteView::UpsertToken {
                token,
                identity: name,
                token_type: "participant"@,
                expires_at: None,
            },
        )
    }

    /// The token made from `n` is bound to a name that was retired from `old`.
    pub open spec fn seat(self, name: Seq<char>, old: Option<Seq<char>>, n: u64, now: Instant) -> HubModel {
        let t = text::decimal(n as nat);
        let st = ListenView { ever_granted: true, ..ListenView::registered(now) };
        let bound = self.set_token(t, st).bind(t, name);
        let cleared = match old {
            Some(o) => bound.store(StoreWriteView::DeleteToken { token: o }),
            None => bound,
        };
        cleared.store_binding(t, name)
    }

    /// The token that a name is bound to.
    pub open spec fn holder(self, name: Seq<char>) -> Option<Seq<char>> {
        if self.name_to_token.contains_key(name) {
            Some(self.name_to_token[name])
        } else {
            None
        }
    }

    /// A governor hands out the token made from `n`: a free one, or one bound to an identity
    /// whose former token is void from then on.
    pub open spec fn issue_participant(
        self,
        governor: Seq<char>,
        name: Option<Seq<char>>,
        n: u64,
        now: Instant,
    ) -> (HubModel, Result<(Seq<char>, Option<Seq<char>>), ErrorView>) {
        match self.trust.verify(governor, now) {
            Err(e) => (self, Err(e)),
            Ok(_) => match name {
                None => (self.enrol(n, true, now), Ok((text::decimal(n as nat), None))),
                Some(nm) => if !self.identities.contains(nm) {
                    (self, Err(ErrorView::RecipientUnknown))
                } else {
                    (
                        self.retire(nm).seat(nm, self.holder(nm), n, now),
                        Ok((text::decimal(n as nat), Some(nm))),
                    )
                },
            },
        }
    }

    // ── Opening a stream ─────────────────────────────────────────────────────

    /// A token whose name is bound to nothing gets its name back.
    pub open spec fn rebind_lost(self, token: Seq<char>) -> HubModel {
        match self.tokens[token].name {
            Some(name) => if self.name_to_token.contains_key(name) {
                self
            } else {
                HubModel {
                    name_to_token: self.name_to_token.insert(name, token),
                    token_to_name: self.token_to_name.insert(token, name),
                    agents: if self.agents.contains_key(name) {
                        self.agents
                    } else {
                        self.agents.insert(name, token)
                    },
                    ..self
                }
            },
            None => self,
        }
    }

    /// The token was used from another address a moment ago.
    pub open spec fn shared_use(self, token: Seq<char>, ip: Seq<char>, now: Instant) -> bool {
        match (self.tokens[token].last_ip, self.tokens[token].last_ip_at) {
            (Some(last), Some(at)) => last != ip && clock::elapsed(at, now) < CONCURRENT_USE_WINDOW,
            _ => false,
        }
    }

    /// The address of a client is noted; the governors hear of a token used from two.
    pub open spec fn note_address(self, token: Seq<char>, ip: Option<Seq<char>>, now: Instant) -> HubModel {
        match ip {
            None => self,
            Some(ip) => {
                let noted = self.set_token(
                    token,
                    ListenView { last_ip: Some(ip), last_ip_at: Some(now), ..self.tokens[token] },
                );
                if self.shared_use(token, ip, now) {
                    noted.emit(
                        EffectView::Governors {
                            text: events::concurrent_use_alert(
                                token,
                                ip,
                                self.tokens[token].last_ip->0,
                            ),
                        },
                    )
                } else {
                    noted
                }
            },
        }
    }

    /// The token has the next stream; the one it had before is told and ends.
    pub open spec fn take_stream(self, token: Seq<char>, presence_push: bool, now: Instant) -> HubModel {
        let count = if self.connections.contains_key(token) {
            self.connections[token]
        } else {
            0
        };
        let st = self.tokens[token].running(self.next_stream, presence_push, now);
        HubModel {
            next_stream: model::successor(self.next_stream),
            connections: self.connections.insert(
                token,
                if count < usize::MAX {
                    (count + 1) as usize
                } else {
                    usize::MAX
                },
            ),
            ..self.set_token(token, st)
        }.push(self.stream_of(token), events::superseded()).close(self.stream_of(token))
    }

    /// A session opened with a governor's token belongs to that governor.
    pub open spec fn link_session(self, token: Seq<char>, provided: Seq<char>, now: Instant) -> HubModel {
        if provided != token && self.trust.verify(provided, now) is Ok {
            HubModel { trust: self.trust.link(provided, token), ..self }.set_token(
                token,
                ListenView { governor_id: Some(provided), ..self.tokens[token] },
            )
        } else {
            self
        }
    }

    /// A name that nobody holds, has registered or ever had.
    pub open spec fn name_free(self, name: Seq<char>, now: Instant) -> bool {
        !self.name_to_token.contains_key(name) && !self.registry.live(name, now)
            && !self.identities.contains(name)
    }

    /// The name asked for is bound where it is free, and counts as back where the token has it.
    pub open spec fn bind_asked(self, token: Seq<char>, name: Option<Seq<char>>, now: Instant) -> HubModel {
        match name {
            None => self,
            Some(name) => if self.holder(name) == Some(token) {
                self.cancel_settle(name)
            } else if self.name_free(name, now) {
                self.bind(token, name).cancel_settle(name)
            } else {
                self
            },
        }
    }

    /// The name asked for, where it is neither the token's own nor free.
    pub open spec fn taken_name(self, token: Seq<char>, name: Option<Seq<char>>, now: Instant) -> Option<
        Seq<char>,
    > {
        match name {
            Some(nm) => if self.holder(nm) == Some(token) || self.name_free(nm, now) {
                None
            } else {
                Some(nm)
            },
            None => None,
        }
    }

    /// The first events of a stream. `taken` is the name that was asked for in vain.
    pub open spec fn greet(
        self,
        token: Seq<char>,
        provided: Seq<char>,
        taken: Option<Seq<char>>,
        stream: u64,
    ) -> HubModel {
        let name = self.tokens[token].name;
        let greeted = self.push(
            Some(stream),
            if token != provided {
                events::minted_welcome(token, name, taken)
            } else {
                events::welcome(token, name, taken)
            },
        ).push(Some(stream), events::subscribed(self.tokens[token].msg_id));
        if self.startup_announced {
            greeted
        } else {
            HubModel { startup_announced: true, ..greeted }.push(Some(stream), events::sim_online())
        }
    }

    /// The stream may be told of messages again, and is told at once of those that wait.
    pub open spec fn catch_up(self, token: Seq<char>, stream: u64) -> HubModel {
        let pending = match self.tokens[token].name {
            Some(name) => self.queue(name).len(),
            None => 0,
        };
        if pending > 0 {
            self.push(Some(stream), events::notify(pending)).set_token(
                token,
                ListenView { notify_suppressed: true, ..self.tokens[token] },
            )
        } else {
            self.set_token(token, ListenView { notify_suppressed: false, ..self.tokens[token] })
        }
    }

    /// The steps before a name is bound to a token that opens a stream.
    pub open spec fn stream_taken(
        self,
        token: Seq<char>,
        provided: Seq<char>,
        ip: Option<Seq<char>>,
        presence_push: bool,
        now: Instant,
    ) -> HubModel {
        self.rebind_lost(token).note_address(token, ip, now).take_stream(
            token,
            presence_push,
            now,
        ).link_session(token, provided, now)
    }

    /// A stream opens for a known token.
    pub open spec fn start_stream(
        self,
        token: Seq<char>,
        provided: Seq<char>,
        ip: Option<Seq<char>>,
        name: Option<Seq<char>>,
        presence_push: bool,
        now: Instant,
    ) -> HubModel {
        let taken = self.stream_taken(token, provided, ip, presence_push, now);
        let running = taken.bind_asked(token, name, now).greet(
            token,
            provided,
            taken.taken_name(token, name, now),
            self.next_stream,
        ).catch_up(token, self.next_stream);
        match name {
            Some(nm) => if taken.holder(nm) != Some(token) && taken.name_free(nm, now) {
                running.store_binding(token, nm)
            } else {
                running
            },
            None => running,
        }
    }

    /// A client asks for a stream. `n` is the number of the token made for a governor.
    pub open spec fn open_listen(
        self,
        provided: Option<Seq<char>>,
        ip: Option<Seq<char>>,
        name: Option<Seq<char>>,
        force: bool,
        presence_push: bool,
        n: u64,
        now: Moment,
    ) -> (HubModel, Result<(Seq<char>, u64), ErrorView>) {
        match provided {
            None => (self, Err(ErrorView::AuthFailed)),
            Some(t) => {
                self.gc(now).listen(t, ip, name, force, presence_push, n, now.instant)
            },
        }
    }

    /// A client asks for a stream with a token.
    pub open spec fn listen(
        self,
        provided: Seq<char>,
        ip: Option<Seq<char>>,
        name: Option<Seq<char>>,
        force: bool,
        presence_push: bool,
        n: u64,
        now: Instant,
    ) -> (HubModel, Result<(Seq<char>, u64), ErrorView>) {
        if self.tokens.contains_key(provided) {
            if self.tokens[provided].revoked {
                (self, Err(ErrorView::TokenRevoked))
            } else if self.alive(provided) && !force {
                (self, Err(ErrorView::ActiveSubscription))
            } else {
                (
                    self.start_stream(provided, provided, ip, name, presence_push, now),
                    Ok((provided, self.next_stream)),
                )
            }
        } else if self.trust.verify(provided, now) is Ok {
            let minted = text::decimal(n as nat);
            (
                self.enrol(n, false, now).start_stream(
                    minted,
                    provided,
                    ip,
                    name,
                    presence_push,
                    now,
                ),
                Ok((minted, self.next_stream)),
            )
        } else {
            (self, Err(ErrorView::AuthFailed))
        }
    }

    // ── Closing a stream ─────────────────────────────────────────────────────

    /// The client's end of a stream has gone away.
    pub open spec fn stream_dropped(self, token: Seq<char>, stream: u64) -> HubModel {
        if self.stream_of(token) == Some(stream) {
            self.set_token(
                token,
                ListenView {
                    stream: Some(Stream { id: stream, open: false }),
                    ..self.tokens[token]
                },
            )
        } else {
            self
        }
    }

    /// One stream less is counted for a token.
    pub open spec fn count_down(self, token: Seq<char>) -> HubModel {
        HubModel {
            connections: if self.connections.contains_key(token) && self.connections[token] > 1 {
                self.connections.insert(token, (self.connections[token] - 1) as usize)
            } else {
                self.connections.remove(token)
            },
            ..self
        }
    }

    /// A stream whose other end has gone away is forgotten.
    pub open spec fn forget_dropped(self, token: Seq<char>) -> HubModel {
        if self.tokens.contains_key(token) && self.tokens[token].stream is Some && !(
        self.tokens[token].stream->0).open {
            self.set_token(token, ListenView { stream: None, ..self.tokens[token] })
        } else {
            self
        }
    }

    /// A token that is not revoked is about to lose its last stream.
    pub open spec fn last_stream(self, token: Seq<char>) -> bool {
        !(self.tokens.contains_key(token) && self.tokens[token].revoked) && !(
        self.connections.contains_key(token) && self.connections[token] > 1)
    }

    /// One stream of a token is gone; with the last one its name begins to count as gone.
    pub open spec fn close_listen(self, token: Seq<char>, now: Moment) -> HubModel {
        let settled = if self.last_stream(token) && self.token_to_name.contains_key(token) {
            self.begin_settle(self.token_to_name[token], now)
        } else {
            self
        };
        settled.count_down(token).forget_dropped(token)
    }

    /// The name bound to a token, if any, is nobody's any more, and whoever bore it goes away.
    pub open spec fn release_name(self, token: Seq<char>, now: Moment) -> HubModel {
        if self.token_to_name.contains_key(token) {
            let name = self.token_to_name[token];
            let m = self.begin_settle(name, now);
            HubModel {
                name_to_token: m.name_to_token.remove(name),
                agents: m.agents.remove(name),
                registry: m.registry.force_deregister(name),
                ..m
            }
        } else {
            self
        }
    }

    /// A token has neither a stream nor a name.
    pub open spec fn bare(self, token: Seq<char>) -> HubModel {
        HubModel {
            connections: self.connections.remove(token),
            token_to_name: self.token_to_name.remove(token),
            ..self
        }.set_token(token, ListenView { name: None, stream: None, ..self.tokens[token] })
    }

    /// A token gives up its stream and its name.
    pub open spec fn cancel_listen(self, token: Seq<char>, now: Moment) -> (
        HubModel,
        Result<(), ErrorView>,
    ) {
        if !self.tokens.contains_key(token) {
            (self, Err(ErrorView::TokenRejected))
        } else if self.tokens[token].revoked {
            (self, Err(ErrorView::TokenRevoked))
        } else if !self.alive(token) {
            (self, Err(ErrorView::RecipientOffline))
        } else {
            let stream = self.stream_of(token);
            (
                self.release_name(token, now).bare(token).push(stream, events::cancelled()).close(
                    stream,
                ),
                Ok(()),
            )
        }
    }

    /// The countdown of a participant who went away has run out.
    pub open spec fn settle_fired(self, name: Seq<char>, timer: u64) -> HubModel {
        if self.settling.contains_key(name) && self.settling[name].timer == timer
            && !self.settling[name].fired {
            HubModel {
                settling: self.settling.insert(
                    name,
                    SettleView { fired: true, ..self.settling[name] },
                ),
                ..self
            }.push_all(self.settling[name].streams, events::presence("offline"@, name))
        } else {
            self
        }
    }

    // ── Announcing a name ────────────────────────────────────────────────────

    /// The token was used just now.
    pub open spec fn touch(self, token: Seq<char>, now: Instant) -> HubModel {
        self.set_token(token, ListenView { last_active: now, ..self.tokens[token] })
    }

    /// The name is seen alive under a token.
    pub open spec fn mark_seen(self, token: Seq<char>, name: Seq<char>, now: Instant) -> HubModel {
        HubModel {
            registry: self.registry.register(
                name,
                Some(token),
                PresenceScope::GrantScoped,
                now,
            ).0,
            ..self
        }
    }

    /// The message on a governor's role waits in the queue.
    pub open spec fn told_of_role(self, name: Seq<char>) -> bool {
        exists|i: int|
            0 <= i < self.queue(name).len() && (#[trigger] self.queue(name)[i]).event_type == Some(
                "governor_role"@,
            )
    }

    /// A governor is told of its role, once.
    pub open spec fn tell_role(self, name: Seq<char>) -> HubModel {
        if self.told_of_role(name) {
            self
        } else {
            self.deliver(name, role_message())
        }
    }

    /// A free name is bound to a token: those who may see it hear of it.
    pub open spec fn take_name(self, token: Seq<char>, name: Seq<char>, now: Moment) -> HubModel {
        let named = self.bind(token, name).mark_seen(token, name, now.instant);
        let role = match named.tokens[token].governor_id {
            Some(g) => HubModel { trust: named.trust.link(g, token), ..named }.tell_role(name),
            None => named,
        };
        let governs = named.tokens[token].governor_id is Some;
        let bell = if governs {
            role.bell(name)
        } else {
            None
        };
        let hushed = if governs {
            role.hush(name)
        } else {
            role
        };
        let back = hushed.cancel_settle(name);
        back.store_binding(token, name).push(bell, events::notify(back.queue(name).len())).push_all(
            back.audience(name, now),
            events::presence("online"@, name),
        )
    }

    /// A token asks for a name.
    pub open spec fn announce(self, token: Seq<char>, name: Seq<char>, now: Moment) -> (
        HubModel,
        Result<AnnounceView, ErrorView>,
    ) {
        let m = self.gc(now);
        let taken = Ok(AnnounceView::NameInUse { resolution_stream: resolution(name) });
        if !m.tokens.contains_key(token) {
            (m, Err(ErrorView::TokenRejected))
        } else if m.tokens[token].revoked {
            (m, Err(ErrorView::TokenRevoked))
        } else {
            let used = m.touch(token, now.instant);
            if used.holder(name) == Some(token) {
                (
                    used.mark_seen(token, name, now.instant).cancel_settle(name),
                    Ok(AnnounceView::Bound),
                )
            } else if used.token_of(name) is Some {
                (used, taken)
            } else {
                let loose = HubModel { name_to_token: used.name_to_token.remove(name), ..used };
                if loose.name_free(name, now.instant) {
                    (loose.take_name(token, name, now), Ok(AnnounceView::Bound))
                } else {
                    (loose, taken)
                }
            }
        }
    }

    // ── Revoking ─────────────────────────────────────────────────────────────

    /// A countdown for `name` is set up and given up at once; one that ran before is off.
    pub open spec fn abandon_settle(self, name: Seq<char>, now: Moment) -> HubModel {
        let streams = self.audience(name, now);
        if streams.len() == 0 {
            self
        } else {
            HubModel {
                settling: self.settling.insert(
                    name,
                    SettleView { timer: self.next_timer, streams, fired: true },
                ),
                next_timer: model::successor(self.next_timer),
                ..self
            }
        }
    }

    /// A token is revoked: its stream is told and ends, and its row leaves the store.
    pub open spec fn revoke(self, token: Seq<char>) -> HubModel {
        let stream = self.stream_of(token);
        self.set_token(
            token,
            ListenView { revoked: true, stream: None, ..self.tokens[token] },
        ).push(stream, events::revoked()).close(stream).store(
            StoreWriteView::DeleteToken { token },
        )
    }

    /// A governor revokes a token.
    pub open spec fn revoke_token(self, token: Seq<char>, governor: Seq<char>, now: Moment) -> (
        HubModel,
        Result<(), ErrorView>,
    ) {
        match self.trust.verify(governor, now.instant) {
            Err(e) => (self, Err(e)),
            Ok(_) => {
                let given_up = if self.token_to_name.contains_key(token) {
                    self.abandon_settle(self.token_to_name[token], now)
                } else {
                    self
                };
                if !self.tokens.contains_key(token) {
                    (given_up, Err(ErrorView::TokenRejected))
                } else if self.tokens[token].revoked {
                    (given_up, Err(ErrorView::TokenRevoked))
                } else if self.token_to_name.contains_key(token) {
                    (self.begin_settle(self.token_to_name[token], now).revoke(token), Ok(()))
                } else {
                    (self.revoke(token), Ok(()))
                }
            },
        }
    }

    /// Nothing of a name is left but its identity.
    pub open spec fn expunge(self, name: Seq<char>) -> HubModel {
        HubModel {
            registry: self.registry.force_deregister(name),
            agents: self.agents.remove(name),
            token_to_name: self.token_to_name.restrict(
                Set::new(|t: Seq<char>| self.token_to_name.contains_key(t) && self.token_to_name[t] != name),
            ),
            active_sse: self.active_sse.remove(name),
            queues: self.queues.remove(name),
            kick_pending: self.kick_pending.remove(name),
            requests: self.requests.restrict(
                Set::new(
                    |id: Seq<char>|
                        self.requests.contains_key(id) && self.requests[id].from_name != name
                            && self.requests[id].to_name != name,
                ),
            ),
            name_to_token: self.name_to_token.remove(name),
            ..self
        }
    }

    /// A governor revokes whoever holds a name.
    pub open spec fn revoke_by_name(self, name: Seq<char>, governor: Seq<char>, now: Moment) -> (
        HubModel,
        Result<(), ErrorView>,
    ) {
        match self.trust.verify(governor, now.instant) {
            Err(e) => (self, Err(e)),
            Ok(_) => {
                let gone = self.begin_settle(name, now).expunge(name);
                match self.token_of(name) {
                    Some(t) => (gone.revoke(t), Ok(())),
                    None => (gone, Ok(())),
                }
            },
        }
    }

    // ── Tokens ───────────────────────────────────────────────────────────────

    /// The state of a token that may be used.
    pub open spec fn usable(self, token: Seq<char>) -> Result<ListenView, ErrorView> {
        if !self.tokens.contains_key(token) {
            Err(ErrorView::TokenRejected)
        } else if self.tokens[token].revoked {
            Err(ErrorView::TokenRevoked)
        } else {
            Ok(self.tokens[token])
        }
    }

    /// The name behind a token that is in order.
    pub open spec fn bearer_name(self, token: Seq<char>) -> Option<Seq<char>> {
        if self.tokens.contains_key(token) {
            if self.tokens[token].revoked {
                None
            } else {
                self.tokens[token].name
            }
        } else {
            self.name_of(token)
        }
    }

    /// A participant hides, or shows itself again.
    pub open spec fn set_hidden(self, token: Seq<char>, hidden: bool) -> (
        HubModel,
        Result<(), ErrorView>,
    ) {
        match self.usable(token) {
            Ok(st) => (self.set_token(token, ListenView { hidden, ..st }), Ok(())),
            Err(e) => (self, Err(e)),
        }
    }
}

proof fn lemma_evict_frees(m: HubModel, token: Seq<char>, now: Moment)
    ensures
        forall|t: Seq<char>| #[trigger]
            m.evict(token, now).tokens.contains_key(t) ==> m.tokens.contains_key(t),
{
}

pub(crate) proof fn lemma_evict_all_frees(m: HubModel, tokens: Seq<Seq<char>>, now: Moment)
    ensures
        forall|t: Seq<char>| #[trigger]
            m.evict_all(tokens, now).tokens.contains_key(t) ==> m.tokens.contains_key(t),
    decreases tokens.len(),
{
    if tokens.len() > 0 {
        lemma_evict_all_frees(m, tokens.drop_last(), now);
        lemma_evict_frees(m.evict_all(tokens.drop_last(), now), tokens.last(), now);
    }
}

/// Where a token can be made, one can be made after the stale ones are gone.
pub proof fn lemma_gc_leaves_room(m: HubModel, now: Moment)
    requires
        m.can_mint(),
    ensures
        m.gc(now).can_mint(),
{
    let n = choose|n: u64| m.free_number(n);
    lemma_evict_all_frees(m, m.stale_tokens(now.instant), now);
    assert(m.gc(now).free_number(n));
}

impl DeliveryHub {
    // ── Making tokens ────────────────────────────────────────────────────────

    /// Makes the token of a number known.
    pub fn enrol(&mut self, number: u64, pending: bool, now: Instant) -> (token: String)
        ensures
            token@ == text::decimal(number as nat),
            final(self)@ == old(self)@.enrol(number, pending, now),
            old(self)@.sound() ==> final(self)@.sound(),
    {
        proof {
            if self@.sound() {
                invariants::law_enrol_sound(self@, number, pending, now);
            }
        }
        let token = text::decimal_text(number);
        let mut st = ListenTokenState::new(now);
        st.pending_first_listen = pending;
        let _ = self.tokens.insert(token.clone(), st);
        token
    }

    /// Makes a token, of eight to twelve random digits, after the stale ones are gone.
    pub fn issue_token(&mut self, now: Moment) -> (token: String)
        requires
            old(self)@.can_mint(),
            now.in_range(),
        ensures
            exists|n: u64|
                {
                    &&& #[trigger] old(self)@.gc(now).free_number(n)
                    &&& token@ == text::decimal(n as nat)
                    &&& final(self)@ == old(self)@.gc(now).enrol(n, false, now.instant)
                },
            old(self)@.sound() ==> final(self)@.sound(),
    {
        proof {
            lemma_gc_leaves_room(self@, now);
        }
        self.gc_tokens(now);
        let n: u64 = self.draw_free_number();
        self.enrol(n, false, now.instant)
    }

    /// Makes a token with which a stream can be opened.
    pub fn register_participant(&mut self, now: Moment) -> (token: String)
        requires
            old(self)@.can_mint(),
        ensures
            exists|n: u64|
                {
                    &&& #[trigger] old(self)@.free_number(n)
                    &&& token@ == text::decimal(n as nat)
                    &&& final(self)@ == old(self)@.enrol(n, true, now.instant)
                },
            old(self)@.sound() ==> final(self)@.sound(),
    {
        let n: u64 = self.draw_free_number();
        self.enrol(n, true, now.instant)
    }

    /// The token is known and not revoked.
    pub fn is_participant_token(&self, token: &str) -> (r: bool)
        ensures
            r == self@.usable(token@) is Ok,
    {
        match self.tokens.get(token) {
            Some(st) => !st.revoked,
            None => false,
        }
    }

    fn retire(&mut self, name: &str) -> (former: Option<String>)
        ensures
            former.deep_view() == old(self)@.holder(name@),
            final(self)@ == old(self)@.retire(name@),
    {
        let former = match self.name_to_token.get(name) {
            Some(t) => Some(t.clone()),
            None => None,
        };
        if let Some(t) = &former {
            let stream = self.stream_of(t.as_str());
            self.push(stream, events::rebound_text());
            self.close(stream);
            let _ = self.tokens.remove(t.as_str());
            let _ = self.connections.remove(t.as_str());
            let _ = self.token_to_name.remove(t.as_str());
        }
        let _ = self.name_to_token.remove(name);
        let _ = self.agents.remove(name);
        self.registry.force_deregister(name);
        former
    }

    fn store_binding(&mut self, token: &str, name: &str)
        ensures
            final(self)@ == old(self)@.store_binding(token@, name@),
    {
        self.store(StoreWrite::UpsertIdentity { name: name.to_owned() });
        self.store(
            StoreWrite::UpsertToken {
                token: token.to_owned(),
                identity: name.to_owned(),
                token_type: "participant".to_owned(),
                expires_at: None,
            },
        );
    }

    fn seat(&mut self, name: &str, former: Option<String>, number: u64, now: Instant) -> (token: String)
        ensures
            token@ == text::decimal(number as nat),
            final(self)@ == old(self)@.seat(name@, former.deep_view(), number, now),
    {
        let token = text::decimal_text(number);
        let mut st = ListenTokenState::new(now);
        st.pending_first_listen = true;
        st.ever_granted = true;
        let _ = self.tokens.insert(token.clone(), st);
        self.bind(token.as_str(), name);
        if let Some(t) = former {
            self.store(StoreWrite::DeleteToken { token: t });
        }
        self.store_binding(token.as_str(), name);
        token
    }

    /// Hands out the token of a number: a free one, or one bound to an identity, whose former
    /// token is void from then on.
    pub fn issue_participant_token_numbered(
        &mut self,
        gov: &GovernorToken,
        name: Option<&str>,
        number: u64,
        now: Moment,
    ) -> (r: Result<(String, Option<String>), Error>)
        ensures
            (final(self)@, error::outcome(r)) == old(self)@.issue_participant(
                gov.0@,
                name.deep_view(),
                number,
                now.instant,
            ),
            old(self)@.sound() ==> final(self)@.sound(),
    {
        proof {
            if self@.sound() {
                invariants::law_issue_sound(self@, gov.0@, name.deep_view(), number, now);
            }
        }
        if let Err(e) = self.trust.verify_governor(gov.0.as_str(), now.instant) {
            return Err(e);
        }
        match name {
            None => {
                let token = self.enrol(number, true, now.instant);
                Ok((token, None))
            },
            Some(name) => {
                if !self.identities.contains(name) {
                    return Err(Error::RecipientUnknown);
                }
                let former = self.retire(name);
                let token = self.seat(name, former, number, now.instant);
                Ok((token, Some(name.to_owned())))
            },
        }
    }

    /// Hands out a token of random digits: a free one, or one bound to an identity, whose former
    /// token is void from then on.
    pub fn issue_participant_token(&mut self, gov: &GovernorToken, name: Option<&str>, now: Moment) -> (r: Result<
        (String, Option<String>),
        Error,
    >)
        requires
            old(self)@.can_mint(),
        ensures
            exists|n: u64|
                {
                    &&& #[trigger] old(self)@.free_number(n)
                    &&& (final(self)@, error::outcome(r)) == old(self)@.issue_participant(
                        gov.0@,
                        name.deep_view(),
                        n,
                        now.instant,
                    )
                },
            old(self)@.sound() ==> final(self)@.sound(),
    {
        let n: u64 = self.draw_free_number();
        self.issue_participant_token_numbered(gov, name, n, now)
    }

    // ── Opening a stream ─────────────────────────────────────────────────────

    fn rebind_lost(&mut self, token: &str)
        requires
            old(self)@.tokens.contains_key(token@),
        ensures
            final(self)@ == old(self)@.rebind_lost(token@),
    {
        let name = match self.tokens.get(token) {
            Some(st) => copy_opt(&st.name),
            None => None,
        };
        if let Some(name) = name {
            if !self.name_to_token.contains_key(name.as_str()) {
                let _ = self.name_to_token.insert(name.clone(), token.to_owned());
                let _ = self.token_to_name.insert(token.to_owned(), name.clone());
                if !self.agents.contains_key(name.as_str()) {
                    let _ = self.agents.insert(name, token.to_owned());
                }
            }
        }
    }

    fn shared_use_alert(&self, token: &str, ip: &str, now: Instant) -> (alert: Option<String>)
        requires
            self@.tokens.contains_key(token@),
        ensures
            alert.deep_view() == if self@.shared_use(token@, ip@, now) {
                Some(events::concurrent_use_alert(token@, ip@, self@.tokens[token@].last_ip->0))
            } else {
                None
            },
    {
        if let Some(st) = self.tokens.get(token) {
            if let Some(last) = &st.last_ip {
                if let Some(at) = st.last_ip_at {
                    if !same(last.as_str(), ip) && clock::since(at, now) < CONCURRENT_USE_WINDOW {
                        return Some(
                            events::concurrent_use_alert_text(token, ip, last.as_str()),
                        );
                    }
                }
            }
        }
        None
    }

    fn keep_address(&mut self, token: &str, ip: &str, now: Instant)
        requires
            old(self)@.tokens.contains_key(token@),
        ensures
            final(self)@ == old(self)@.set_token(
                token@,
                (ListenView {
                    last_ip: Some(ip@),
                    last_ip_at: Some(now),
                    ..old(self)@.tokens[token@]
                }),
            ),
    {
        if let Some(mut st) = self.tokens.remove(token) {
            st.last_ip = Some(ip.to_owned());
            st.last_ip_at = Some(now);
            let _ = self.tokens.insert(token.to_owned(), st);
        }
        assert(self@.tokens =~= old(self)@.tokens.insert(
            token@,
            ListenView { last_ip: Some(ip@), last_ip_at: Some(now), ..old(self)@.tokens[token@] },
        ));
    }

    fn note_address(&mut self, token: &str, ip: Option<&str>, now: Instant)
        requires
            old(self)@.tokens.contains_key(token@),
        ensures
            final(self)@ == old(self)@.note_address(token@, ip.deep_view(), now),
    {
        let ip = match ip {
            Some(ip) => ip,
            None => return ,
        };
        let alert = self.shared_use_alert(token, ip, now);
        self.keep_address(token, ip, now);
        if let Some(text) = alert {
            self.emit(Effect::Governors { text });
        }
    }

    fn run_stream(&mut self, token: &str, stream: u64, presence_push: bool, now: Instant)
        requires
            old(self)@.tokens.contains_key(token@),
        ensures
            final(self)@ == old(self)@.set_token(
                token@,
                old(self)@.tokens[token@].running(stream, presence_push, now),
            ),
    {
        if let Some(mut st) = self.tokens.remove(token) {
            st.stream = Some(Stream { id: stream, open: true });
            st.ever_listened = true;
            st.pending_first_listen = false;
            st.presence_push = presence_push;
            st.last_active = now;
            let _ = self.tokens.insert(token.to_owned(), st);
        }
        assert(self@.tokens =~= old(self)@.tokens.insert(
            token@,
            old(self)@.tokens[token@].running(stream, presence_push, now),
        ));
    }

    fn take_stream(&mut self, token: &str, presence_push: bool, now: Instant) -> (stream: u64)
        requires
            old(self)@.tokens.contains_key(token@),
        ensures
            stream == old(self)@.next_stream,
            final(self)@ == old(self)@.take_stream(token@, presence_push, now),
    {
        let former = self.stream_of(token);
        let stream: u64 = self.next_stream;
        self.next_stream = if stream == u64::MAX {
            0
        } else {
            stream + 1
        };
        let count: usize = match self.connections.get(token) {
            Some(n) => *n,
            None => 0,
        };
        let more: usize = if count < usize::MAX {
            count + 1
        } else {
            usize::MAX
        };
        let _ = self.connections.insert(token.to_owned(), more);
        self.run_stream(token, stream, presence_push, now);
        self.push(former, events::superseded_text());
        self.close(former);
        stream
    }

    fn link_session(&mut self, token: &str, provided: &str, now: Instant)
        requires
            old(self)@.tokens.contains_key(token@),
        ensures
            final(self)@ == old(self)@.link_session(token@, provided@, now),
    {
        if !same(provided, token) && self.trust.verify_governor(provided, now).is_ok() {
            self.trust.link_governor_session(provided, token);
            if let Some(mut st) = self.tokens.remove(token) {
                st.governor_id = Some(provided.to_owned());
                let _ = self.tokens.insert(token.to_owned(), st);
            }
            assert(self@ =~= old(self)@.link_session(token@, provided@, now));
        }
    }

    fn name_free(&self, name: &str, now: Instant) -> (r: bool)
        ensures
            r == self@.name_free(name@, now),
    {
        !self.name_to_token.contains_key(name) && !self.registry.is_online(name, now)
            && !self.identities.contains(name)
    }

    fn holds(&self, token: &str, name: &str) -> (r: bool)
        ensures
            r == (self@.holder(name@) == Some(token@)),
    {
        match self.name_to_token.get(name) {
            Some(t) => same(t.as_str(), token),
            None => false,
        }
    }

    fn bind_asked(&mut self, token: &str, name: Option<&str>, now: Instant) -> (bound: bool)
        ensures
            final(self)@ == old(self)@.bind_asked(token@, name.deep_view(), now),
            bound == match name.deep_view() {
                Some(nm) => old(self)@.holder(nm) != Some(token@) && old(self)@.name_free(nm, now),
                None => false,
            },
    {
        match name {
            None => false,
            Some(name) => if self.holds(token, name) {
                self.cancel_settle(name);
                false
            } else if self.name_free(name, now) {
                self.bind(token, name);
                self.cancel_settle(name);
                true
            } else {
                false
            },
        }
    }

    fn taken_name<'a>(&self, token: &str, name: Option<&'a str>, now: Instant) -> (r: Option<&'a str>)
        ensures
            r.deep_view() == self@.taken_name(token@, name.deep_view(), now),
    {
        match name {
            Some(nm) => if self.holds(token, nm) || self.name_free(nm, now) {
                None
            } else {
                Some(nm)
            },
            None => None,
        }
    }

    fn greet(&mut self, token: &str, provided: &str, taken: Option<&str>, stream: u64)
        requires
            old(self)@.tokens.contains_key(token@),
        ensures
            final(self)@ == old(self)@.greet(token@, provided@, taken.deep_view(), stream),
    {
        let (name, last) = match self.tokens.get(token) {
            Some(st) => (copy_opt(&st.name), st.msg_id),
            None => (None, 0u64),
        };
        let welcome = if same(token, provided) {
            events::welcome_text(token, opt_str(&name), taken)
        } else {
            events::minted_welcome_text(token, opt_str(&name), taken)
        };
        self.push(Some(stream), welcome);
        self.push(Some(stream), events::subscribed_text(last));
        if !self.startup_announced {
            self.startup_announced = true;
            self.push(Some(stream), events::sim_online_text());
        }
    }

    fn catch_up(&mut self, token: &str, stream: u64)
        requires
            old(self)@.tokens.contains_key(token@),
        ensures
            final(self)@ == old(self)@.catch_up(token@, stream),
    {
        let pending: usize = match self.tokens.get(token) {
            Some(st) => match &st.name {
                Some(name) => self.queue_len(name.as_str()),
                None => 0,
            },
            None => 0,
        };
        if pending > 0 {
            self.push(Some(stream), events::notify_text(pending));
        }
        if let Some(mut st) = self.tokens.remove(token) {
            st.notify_suppressed = pending > 0;
            let _ = self.tokens.insert(token.to_owned(), st);
        }
        assert(self@ =~= old(self)@.catch_up(token@, stream));
    }

    fn stream_taken(
        &mut self,
        token: &str,
        provided: &str,
        ip: Option<&str>,
        presence_push: bool,
        now: Instant,
    ) -> (stream: u64)
        requires
            old(self)@.tokens.contains_key(token@),
        ensures
            stream == old(self)@.next_stream,
            final(self)@.tokens.contains_key(token@),
            final(self)@ == old(self)@.stream_taken(
                token@,
                provided@,
                ip.deep_view(),
                presence_push,
                now,
            ),
    {
        self.rebind_lost(token);
        self.note_address(token, ip, now);
        let stream: u64 = self.take_stream(token, presence_push, now);
        self.link_session(token, provided, now);
        stream
    }

    fn start_stream(
        &mut self,
        token: &str,
        provided: &str,
        ip: Option<&str>,
        name: Option<&str>,
        presence_push: bool,
        now: Instant,
    ) -> (stream: u64)
        requires
            old(self)@.tokens.contains_key(token@),
        ensures
            stream == old(self)@.next_stream,
            final(self)@ == old(self)@.start_stream(
                token@,
                provided@,
                ip.deep_view(),
                name.deep_view(),
                presence_push,
                now,
            ),
    {
        let stream: u64 = self.stream_taken(token, provided, ip, presence_push, now);
        let taken = self.taken_name(token, name, now);
        let bound = self.bind_asked(token, name, now);
        self.greet(token, provided, taken, stream);
        self.catch_up(token, stream);
        if bound {
            if let Some(nm) = name {
                self.store_binding(token, nm);
            }
        }
        stream
    }

    /// Opens a stream, with the number of the token to make should a governor's be presented.
    pub fn open_listen_numbered(
        &mut self,
        token_opt: Option<&str>,
        peer_ip: Option<&str>,
        name_to_bind: Option<&str>,
        force: bool,
        presence_push: bool,
        number: u64,
        now: Moment,
    ) -> (r: Result<(String, u64), Error>)
        requires
            now.in_range(),
        ensures
            (final(self)@, error::outcome(r)) == old(self)@.open_listen(
                token_opt.deep_view(),
                peer_ip.deep_view(),
                name_to_bind.deep_view(),
                force,
                presence_push,
                number,
                now,
            ),
            old(self)@.sound() ==> final(self)@.sound(),
    {
        proof {
            if self@.sound() {
                invariants::law_open_sound(
                    self@,
                    token_opt.deep_view(),
                    peer_ip.deep_view(),
                    name_to_bind.deep_view(),
                    force,
                    presence_push,
                    number,
                    now,
                );
            }
        }
        let provided = match token_opt {
            Some(t) => t,
            None => return Err(Error::AuthFailed),
        };
        self.gc_tokens(now);
        self.listen_after_gc(
            provided,
            peer_ip,
            name_to_bind,
            force,
            presence_push,
            number,
            now.instant,
        )
    }

    fn listen_after_gc(
        &mut self,
        provided: &str,
        peer_ip: Option<&str>,
        name_to_bind: Option<&str>,
        force: bool,
        presence_push: bool,
        number: u64,
        now: Instant,
    ) -> (r: Result<(String, u64), Error>)
        ensures
            (final(self)@, error::outcome(r)) == old(self)@.listen(
                provided@,
                peer_ip.deep_view(),
                name_to_bind.deep_view(),
                force,
                presence_push,
                number,
                now,
            ),
    {
        let known = match self.tokens.get(provided) {
            Some(st) => {
                if st.revoked {
                    return Err(Error::TokenRevoked);
                }
                true
            },
            None => false,
        };
        if known {
            if self.alive(provided) && !force {
                return Err(Error::ActiveSubscription);
            }
            let stream: u64 = self.start_stream(
                provided,
                provided,
                peer_ip,
                name_to_bind,
                presence_push,
                now,
            );
            return Ok((provided.to_owned(), stream));
        }
        if !self.trust.verify_governor(provided, now).is_ok() {
            return Err(Error::AuthFailed);
        }
        let token = self.enrol(number, false, now);
        let stream: u64 = self.start_stream(
            token.as_str(),
            provided,
            peer_ip,
            name_to_bind,
            presence_push,
            now,
        );
        Ok((token, stream))
    }

    /// Opens a stream. A governor's token gets a token of its own for the session, and the
    /// session belongs to that governor.
    pub fn open_listen(
        &mut self,
        token_opt: Option<&str>,
        peer_ip: Option<&str>,
        name_to_bind: Option<&str>,
        force: bool,
        presence_push: bool,
        now: Moment,
    ) -> (r: Result<(String, u64), Error>)
        requires
            old(self)@.can_mint(),
            now.in_range(),
        ensures
            exists|n: u64|
                {
                    &&& #[trigger] old(self)@.gc(now).free_number(n)
                    &&& (final(self)@, error::outcome(r)) == old(self)@.open_listen(
                        token_opt.deep_view(),
                        peer_ip.deep_view(),
                        name_to_bind.deep_view(),
                        force,
                        presence_push,
                        n,
                        now,
                    )
                },
            old(self)@.sound() ==> final(self)@.sound(),
    {
        let ghost before = self@;
        proof {
            lemma_gc_leaves_room(before, now);
            let n = choose|n: u64| before.gc(now).free_number(n);
            assert(before.gc(now).free_number(n));
        }
        let provided = match token_opt {
            Some(t) => t,
            None => return Err(Error::AuthFailed),
        };
        self.gc_tokens(now);
        let n: u64 = self.draw_free_number();
        proof {
            if before.sound() {
                invariants::law_open_sound(
                    before,
                    token_opt.deep_view(),
                    peer_ip.deep_view(),
                    name_to_bind.deep_view(),
                    force,
                    presence_push,
                    n,
                    now,
                );
            }
        }
        self.listen_after_gc(
            provided,
            peer_ip,
            name_to_bind,
            force,
            presence_push,
            n,
            now.instant,
        )
    }

    // ── Closing a stream ─────────────────────────────────────────────────────

    /// Notes that the client's end of a stream has gone away.
    pub fn stream_dropped(&mut self, token: &str, stream: u64)
        ensures
            final(self)@ == old(self)@.stream_dropped(token@, stream),
            old(self)@.sound() ==> final(self)@.sound(),
    {
        proof {
            if self@.sound() {
                invariants::law_dropped_sound(self@, token@, stream);
            }
        }
        match self.stream_of(token) {
            Some(id) => if id != stream {
                return ;
            },
            None => return ,
        }
        if let Some(mut st) = self.tokens.remove(token) {
            st.stream = Some(Stream { id: stream, open: false });
            let _ = self.tokens.insert(token.to_owned(), st);
        }
        assert(self@ =~= old(self)@.stream_dropped(token@, stream));
    }

    fn count_down(&mut self, token: &str)
        ensures
            final(self)@ == old(self)@.count_down(token@),
    {
        let count: usize = match self.connections.get(token) {
            Some(n) => *n,
            None => 0,
        };
        if count <= 1 {
            let _ = self.connections.remove(token);
        } else {
            let _ = self.connections.insert(token.to_owned(), count - 1);
        }
    }

    fn forget_dropped(&mut self, token: &str)
        ensures
            final(self)@ == old(self)@.forget_dropped(token@),
    {
        let dropped = match self.tokens.get(token) {
            Some(st) => match st.stream {
                Some(s) => !s.open,
                None => false,
            },
            None => false,
        };
        if dropped {
            if let Some(mut st) = self.tokens.remove(token) {
                st.stream = None;
                let _ = self.tokens.insert(token.to_owned(), st);
            }
            assert(self@ =~= old(self)@.forget_dropped(token@));
        }
    }

    fn last_stream(&self, token: &str) -> (r: bool)
        ensures
            r == self@.last_stream(token@),
    {
        let revoked = match self.tokens.get(token) {
            Some(st) => st.revoked,
            None => false,
        };
        let count: usize = match self.connections.get(token) {
            Some(n) => *n,
            None => 0,
        };
        !revoked && count <= 1
    }

    /// Notes that one stream of a token is gone.
    pub fn close_listen(&mut self, token: &str, now: Moment)
        requires
            now.in_range(),
        ensures
            final(self)@ == old(self)@.close_listen(token@, now),
            old(self)@.sound() ==> final(self)@.sound(),
    {
        proof {
            if self@.sound() {
                invariants::law_close_sound(self@, token@, now);
            }
        }
        if self.last_stream(token) {
            let name = match self.token_to_name.get(token) {
                Some(n) => Some(n.clone()),
                None => None,
            };
            if let Some(name) = name {
                self.begin_settle(name.as_str(), now);
            }
        }
        self.count_down(token);
        self.forget_dropped(token);
    }

    fn release_name(&mut self, token: &str, now: Moment)
        requires
            now.in_range(),
        ensures
            final(self)@ == old(self)@.release_name(token@, now),
    {
        let name = match self.token_to_name.get(token) {
            Some(n) => Some(n.clone()),
            None => None,
        };
        if let Some(name) = name {
            self.begin_settle(name.as_str(), now);
            let _ = self.name_to_token.remove(name.as_str());
            let _ = self.agents.remove(name.as_str());
            self.registry.force_deregister(name.as_str());
        }
    }

    fn bare(&mut self, token: &str)
        requires
            old(self)@.tokens.contains_key(token@),
        ensures
            final(self)@ == old(self)@.bare(token@),
    {
        let _ = self.connections.remove(token);
        let _ = self.token_to_name.remove(token);
        if let Some(mut st) = self.tokens.remove(token) {
            st.name = None;
            st.stream = None;
            let _ = self.tokens.insert(token.to_owned(), st);
        }
        assert(self@ =~= old(self)@.bare(token@));
    }

    /// Gives up the stream of a token and the name bound to it.
    pub fn cancel_listen(&mut self, token: &str, now: Moment) -> (r: Result<(), Error>)
        requires
            now.in_range(),
        ensures
            (final(self)@, error::outcome(r)) == old(self)@.cancel_listen(token@, now),
            old(self)@.sound() ==> final(self)@.sound(),
    {
        proof {
            if self@.sound() {
                invariants::law_cancel_sound(self@, token@, now);
            }
        }
        match self.tokens.get(token) {
            None => return Err(Error::TokenRejected),
            Some(st) => if st.revoked {
                return Err(Error::TokenRevoked);
            },
        }
        if !self.alive(token) {
            return Err(Error::RecipientOffline);
        }
        let stream = self.stream_of(token);
        self.release_name(token, now);
        self.bare(token);
        self.push(stream, events::cancelled_text());
        self.close(stream);
        Ok(())
    }

    /// Notes that a countdown has run out: those who were to hear of it do.
    pub fn settle_fired(&mut self, name: &str, timer: u64)
        ensures
            final(self)@ == old(self)@.settle_fired(name@, timer),
            old(self)@.sound() ==> final(self)@.sound(),
    {
        proof {
            if self@.sound() {
                invariants::law_settled_sound(self@, name@, timer);
            }
        }
        let due = match self.settling.get(name) {
            Some(t) => t.timer == timer && !t.fired,
            None => false,
        };
        if !due {
            return ;
        }
        let streams = match self.settling.remove(name) {
            Some(t) => {
                let streams = t.streams.clone();
                assert(streams@ =~= t.streams@);
                let _ = self.settling.insert(
                    name.to_owned(),
                    SettleTimer { timer: t.timer, streams: t.streams, fired: true },
                );
                streams
            },
            None => Vec::new(),
        };
        assert(self@ =~= (HubModel {
            settling: old(self)@.settling.insert(
                name@,
                SettleView { fired: true, ..old(self)@.settling[name@] },
            ),
            ..old(self)@
        }));
        let text = events::presence_text("offline", name);
        self.push_all(&streams, text.as_str());
    }

    // ── Announcing a name ────────────────────────────────────────────────────

    pub(crate) fn touch(&mut self, token: &str, now: Instant)
        requires
            old(self)@.tokens.contains_key(token@),
        ensures
            final(self)@ == old(self)@.touch(token@, now),
    {
        if let Some(mut st) = self.tokens.remove(token) {
            st.last_active = now;
            let _ = self.tokens.insert(token.to_owned(), st);
        }
        assert(self@ =~= old(self)@.touch(token@, now));
    }

    fn mark_seen(&mut self, token: &str, name: &str, now: Instant)
        ensures
            final(self)@ == old(self)@.mark_seen(token@, name@, now),
    {
        let _ = self.registry.register(
            name,
            AgentIdentity::valid(token),
            PresenceScope::GrantScoped,
            now,
        );
    }

    fn told_of_role(&self, name: &str) -> (r: bool)
        ensures
            r == self@.told_of_role(name@),
    {
        let q = match self.queues.get(name) {
            Some(q) => q,
            None => return false,
        };
        assert(q.deep_view() == self@.queue(name@));
        let mut i: usize = 0;
        while i < q.messages.len()
            invariant
                i <= q.messages@.len(),
                q.deep_view() == self@.queue(name@),
                forall|j: int|
                    0 <= j < i ==> (#[trigger] self@.queue(name@)[j]).event_type != Some(
                        "governor_role"@,
                    ),
            decreases q.messages@.len() - i,
        {
            assert(q.messages@[i as int].deep_view() == self@.queue(name@)[i as int]);
            if let Some(event) = &q.messages[i].event_type {
                if same(event.as_str(), "governor_role") {
                    return true;
                }
            }
            i += 1;
        }
        false
    }

    fn tell_role(&mut self, name: &str)
        ensures
            final(self)@ == old(self)@.tell_role(name@),
    {
        if !self.told_of_role(name) {
            let text = events::governor_role_text();
            let msg = QueuedMessage {
                payload: Payload::of_text(text.as_str()),
                from_name: "system".to_owned(),
                reason: Some("governor_role_breadcrumb".to_owned()),
                event_type: Some("governor_role".to_owned()),
                thread_id: None,
            };
            self.deliver(name, msg);
        }
    }

    fn take_name(&mut self, token: &str, name: &str, now: Moment)
        requires
            old(self)@.tokens.contains_key(token@),
            now.in_range(),
        ensures
            final(self)@ == old(self)@.take_name(token@, name@, now),
    {
        self.bind(token, name);
        self.mark_seen(token, name, now.instant);
        let governor = match self.tokens.get(token) {
            Some(st) => copy_opt(&st.governor_id),
            None => None,
        };
        let mut bell: Option<u64> = None;
        if let Some(g) = governor {
            self.trust.link_governor_session(g.as_str(), token);
            self.tell_role(name);
            bell = self.take_bell(name);
        }
        self.cancel_settle(name);
        let streams = self.audience(name, now);
        let pending: usize = self.queue_len(name);
        self.store_binding(token, name);
        self.push(bell, events::notify_text(pending));
        let text = events::presence_text("online", name);
        self.push_all(&streams, text.as_str());
    }

    /// Binds a name to a token, unless it is someone else's.
    pub fn announce(&mut self, token: &str, name: &str, now: Moment) -> (r: Result<AnnounceResult, Error>)
        requires
            now.in_range(),
        ensures
            (final(self)@, error::outcome(r)) == old(self)@.announce(token@, name@, now),
            old(self)@.sound() ==> final(self)@.sound(),
    {
        proof {
            if self@.sound() {
                invariants::law_announce_sound(self@, token@, name@, now);
            }
        }
        self.gc_tokens(now);
        match self.tokens.get(token) {
            None => return Err(Error::TokenRejected),
            Some(st) => if st.revoked {
                return Err(Error::TokenRevoked);
            },
        }
        self.touch(token, now.instant);
        if self.holds(token, name) {
            self.mark_seen(token, name, now.instant);
            self.cancel_settle(name);
            return Ok(AnnounceResult::Bound);
        }
        let resolution_stream = text::join3("/sessions/", name, "/events");
        if self.token_of(name).is_some() {
            return Ok(AnnounceResult::NameInUse { resolution_stream });
        }
        let _ = self.name_to_token.remove(name);
        if !self.name_free(name, now.instant) {
            return Ok(AnnounceResult::NameInUse { resolution_stream });
        }
        self.take_name(token, name, now);
        Ok(AnnounceResult::Bound)
    }

    // ── Revoking ─────────────────────────────────────────────────────────────

    fn abandon_settle(&mut self, name: &str, now: Moment)
        requires
            now.in_range(),
        ensures
            final(self)@ == old(self)@.abandon_settle(name@, now),
    {
        let streams = self.audience(name, now);
        if streams.len() > 0 {
            let timer: u64 = self.next_timer;
            self.next_timer = if timer == u64::MAX {
                0
            } else {
                timer + 1
            };
            let _ = self.settling.insert(
                name.to_owned(),
                SettleTimer { timer, streams, fired: true },
            );
        }
    }

    fn revoke(&mut self, token: &str)
        requires
            old(self)@.tokens.contains_key(token@),
        ensures
            final(self)@ == old(self)@.revoke(token@),
    {
        let stream = self.stream_of(token);
        if let Some(mut st) = self.tokens.remove(token) {
            st.revoked = true;
            st.stream = None;
            let _ = self.tokens.insert(token.to_owned(), st);
        }
        self.push(stream, events::revoked_text());
        self.close(stream);
        self.store(StoreWrite::DeleteToken { token: token.to_owned() });
        assert(self@ =~= old(self)@.revoke(token@));
    }

    /// Revokes a token.
    pub fn revoke_token(&mut self, token: &str, gov: &GovernorToken, now: Moment) -> (r: Result<(), Error>)
        requires
            now.in_range(),
        ensures
            (final(self)@, error::outcome(r)) == old(self)@.revoke_token(token@, gov.0@, now),
            old(self)@.sound() ==> final(self)@.sound(),
    {
        proof {
            if self@.sound() {
                invariants::law_revoke_sound(self@, token@, gov.0@, now);
            }
        }
        if let Err(e) = self.trust.verify_governor(gov.0.as_str(), now.instant) {
            return Err(e);
        }
        let name = match self.token_to_name.get(token) {
            Some(n) => Some(n.clone()),
            None => None,
        };
        let refusal = match self.tokens.get(token) {
            None => Some(Error::TokenRejected),
            Some(st) => if st.revoked {
                Some(Error::TokenRevoked)
            } else {
                None
            },
        };
        if let Some(e) = refusal {
            if let Some(name) = name {
                self.abandon_settle(name.as_str(), now);
            }
            return Err(e);
        }
        if let Some(name) = name {
            self.begin_settle(name.as_str(), now);
        }
        self.revoke(token);
        Ok(())
    }

    fn drop_names(&mut self, name: &str)
        ensures
            final(self)@ == (HubModel {
                token_to_name: old(self)@.token_to_name.restrict(
                    Set::new(
                        |t: Seq<char>|
                            old(self)@.token_to_name.contains_key(t) && old(self)@.token_to_name[t]
                                != name@,
                    ),
                ),
                ..old(self)@
            }),
    {
        let ghost before = self@.token_to_name;
        let tokens = self.token_to_name.keys();
        let ghost ks = tokens.deep_view();
        let mut i: usize = 0;
        while i < tokens.len()
            invariant
                i <= tokens@.len(),
                ks == tokens.deep_view(),
                ks.to_set() == before.dom(),
                self@ == (HubModel { token_to_name: self@.token_to_name, ..old(self)@ }),
                forall|k: Seq<char>| #[trigger]
                    self@.token_to_name.contains_key(k) <==> before.contains_key(k) && (before[k]
                        != name@ || !ks.take(i as int).contains(k)),
                forall|k: Seq<char>| #[trigger]
                    self@.token_to_name.contains_key(k) ==> self@.token_to_name[k] == before[k],
            decreases tokens@.len() - i,
        {
            proof {
                assert(ks.to_set().contains(ks[i as int]));
                seqs::lemma_take_next(ks, i as int);
            }
            let doomed = match self.token_to_name.get(tokens[i].as_str()) {
                Some(n) => same(n.as_str(), name),
                None => false,
            };
            if doomed {
                let _ = self.token_to_name.remove(tokens[i].as_str());
            }
            i += 1;
        }
        assert(ks.take(i as int) =~= ks);
        assert forall|k: Seq<char>| before.contains_key(k) implies ks.contains(k) by {
            assert(ks.to_set().contains(k));
        }
        assert(self@.token_to_name =~= before.restrict(
            Set::new(|t: Seq<char>| before.contains_key(t) && before[t] != name@),
        ));
    }

    fn drop_requests(&mut self, name: &str)
        ensures
            final(self)@ == (HubModel {
                requests: old(self)@.requests.restrict(
                    Set::new(
                        |id: Seq<char>|
                            old(self)@.requests.contains_key(id) && old(self)@.requests[id].from_name
                                != name@ && old(self)@.requests[id].to_name != name@,
                    ),
                ),
                ..old(self)@
            }),
    {
        let ghost before = self@.requests;
        let ids = self.requests.keys();
        let ghost ks = ids.deep_view();
        let mut i: usize = 0;
        while i < ids.len()
            invariant
                i <= ids@.len(),
                ks == ids.deep_view(),
                ks.to_set() == before.dom(),
                self@ == (HubModel { requests: self@.requests, ..old(self)@ }),
                forall|k: Seq<char>| #[trigger]
                    self@.requests.contains_key(k) <==> before.contains_key(k) && ((
                    before[k].from_name != name@ && before[k].to_name != name@) || !ks.take(
                        i as int,
                    ).contains(k)),
                forall|k: Seq<char>| #[trigger]
                    self@.requests.contains_key(k) ==> self@.requests[k] == before[k],
            decreases ids@.len() - i,
        {
            proof {
                assert(ks.to_set().contains(ks[i as int]));
                seqs::lemma_take_next(ks, i as int);
            }
            let doomed = match self.requests.get(ids[i].as_str()) {
                Some(req) => same(req.from_name.as_str(), name) || same(
                    req.to_name.as_str(),
                    name,
                ),
                None => false,
            };
            if doomed {
                let _ = self.requests.remove(ids[i].as_str());
            }
            i += 1;
        }
        assert(ks.take(i as int) =~= ks);
        assert forall|k: Seq<char>| before.contains_key(k) implies ks.contains(k) by {
            assert(ks.to_set().contains(k));
        }
        assert(self@.requests =~= before.restrict(
            Set::new(
                |id: Seq<char>|
                    before.contains_key(id) && before[id].from_name != name@ && before[id].to_name
                        != name@,
            ),
        ));
    }

    fn expunge(&mut self, name: &str)
        ensures
            final(self)@ == old(self)@.expunge(name@),
    {
        self.registry.force_deregister(name);
        let _ = self.agents.remove(name);
        self.drop_names(name);
        let _ = self.active_sse.remove(name);
        let _ = self.queues.remove(name);
        self.kick_pending.remove(name);
        self.drop_requests(name);
        let _ = self.name_to_token.remove(name);
        assert(self@ =~= old(self)@.expunge(name@));
    }

    /// Revokes whoever holds a name: the name is free but for its identity, and the token is
    /// revoked.
    pub fn revoke_by_name(&mut self, name: &str, gov: &GovernorToken, now: Moment) -> (r: Result<(), Error>)
        requires
            now.in_range(),
        ensures
            (final(self)@, error::outcome(r)) == old(self)@.revoke_by_name(name@, gov.0@, now),
            old(self)@.sound() ==> final(self)@.sound(),
    {
        proof {
            if self@.sound() {
                invariants::law_revoke_name_sound(self@, name@, gov.0@, now);
            }
        }
        if let Err(e) = self.trust.verify_governor(gov.0.as_str(), now.instant) {
            return Err(e);
        }
        let token = self.token_of(name);
        self.begin_settle(name, now);
        self.expunge(name);
        if let Some(t) = token {
            self.revoke(t.as_str());
        }
        Ok(())
    }

    // ── Tokens ───────────────────────────────────────────────────────────────

    fn set_hidden(&mut self, token: &str, hidden: bool) -> (r: Result<(), Error>)
        ensures
            (final(self)@, error::outcome(r)) == old(self)@.set_hidden(token@, hidden),
    {
        match self.tokens.get(token) {
            None => return Err(Error::TokenRejected),
            Some(st) => if st.revoked {
                return Err(Error::TokenRevoked);
            },
        }
        if let Some(mut st) = self.tokens.remove(token) {
            st.hidden = hidden;
            let _ = self.tokens.insert(token.to_owned(), st);
        }
        assert(self@ =~= old(self)@.set_hidden(token@, hidden).0);
        Ok(())
    }

    /// Hides a participant: nobody sees it online.
    pub fn conceal(&mut self, token: &str) -> (r: Result<(), Error>)
        ensures
            (final(self)@, error::outcome(r)) == old(self)@.set_hidden(token@, true),
            old(self)@.sound() ==> final(self)@.sound(),
    {
        proof {
            if self@.sound() {
                invariants::law_hidden_sound(self@, token@, true);
            }
        }
        self.set_hidden(token, true)
    }

    /// Shows a participant again.
    pub fn show(&mut self, token: &str) -> (r: Result<(), Error>)
        ensures
            (final(self)@, error::outcome(r)) == old(self)@.set_hidden(token@, false),
            old(self)@.sound() ==> final(self)@.sound(),
    {
        proof {
            if self@.sound() {
                invariants::law_hidden_sound(self@, token@, false);
            }
        }
        self.set_hidden(token, false)
    }

    /// The name bound to a token that may be used.
    pub fn validate_token(&self, token: &str) -> (r: Result<Option<String>, Error>)
        ensures
            error::outcome(r) == match self@.usable(token@) {
                Ok(st) => Ok(st.name),
                Err(e) => Err(e),
            },
    {
        match self.tokens.get(token) {
            None => Err(Error::TokenRejected),
            Some(st) => if st.revoked {
                Err(Error::TokenRevoked)
            } else {
                Ok(copy_opt(&st.name))
            },
        }
    }

    /// The name behind a token that is in order.
    pub fn name_for_bearer_token(&self, token: &str) -> (r: Option<String>)
        ensures
            r.deep_view() == self@.bearer_name(token@),
    {
        match self.tokens.get(token) {
            Some(st) => if st.revoked {
                None
            } else {
                copy_opt(&st.name)
            },
            None => match self.token_to_name.get(token) {
                Some(n) => Some(n.clone()),
                None => None,
            },
        }
    }
}

} // verus!
