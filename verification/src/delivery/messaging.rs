//! Messages: sending them, ruling on those that wait for the governor, and fetching them.

use crate::clock;
use crate::clock::{Instant, Moment};
use crate::delivery::hub::DeliveryHub;
use crate::delivery::model;
use crate::delivery::model::HubModel;
use crate::delivery::{
    Ack, AckView, DecisionView, Effect, EffectView, HoldView, ListenView, Mailbox, MediationDecision,
    MediationHold, MediationResult, MediationResultView, ReplyWindow, StoreWrite, StoreWriteView,
    WaitAction, WaitEvent, WindowView,
};
use crate::error;
use crate::error::{Error, ErrorView};
use crate::events;
use crate::laws::invariants;
use crate::seqs;
use crate::text;
use crate::text::same;
use crate::trust;
use crate::trust::{Ask, GrantMediation, GrantRef, GrantRefView};
use crate::types::{copy_opt, GovernorToken, MessageView, ParticipantToken, Payload, QueuedMessage};
use vstd::prelude::*;

verus! {

/// A message from one participant to another.
pub open spec fn plain_message(payload: Seq<u8>, from: Seq<char>, thread: Option<Seq<char>>) -> MessageView {
    MessageView { payload, from_name: from, reason: None, event_type: None, thread_id: thread }
}

/// A message from the service itself.
pub(crate) fn system_message(text: &str, event_type: &str) -> (m: QueuedMessage)
    ensures
        m.deep_view() == model::system_message(text@, event_type@),
{
    QueuedMessage {
        payload: Payload::of_text(text),
        from_name: "system".to_owned(),
        reason: None,
        event_type: Some(event_type.to_owned()),
        thread_id: None,
    }
}

impl HubModel {
    /// The name under which a token may send: the token is known, not revoked, and has announced
    /// a name.
    pub open spec fn sender(self, token: Seq<char>) -> Result<Seq<char>, ErrorView> {
        if !self.tokens.contains_key(token) {
            Err(ErrorView::AuthFailed)
        } else if self.tokens[token].revoked {
            Err(ErrorView::TokenRevoked)
        } else if !self.token_to_name.contains_key(token) {
            Err(ErrorView::AnnounceRequired)
        } else {
            Ok(self.token_to_name[token])
        }
    }

    /// A message is sent. The sender must be in order, no denial may stand between the two, and
    /// the recipient must be known; then the grants decide, and where they do not let it pass,
    /// a window for a reply may.
    pub open spec fn send(
        self,
        token: Seq<char>,
        to: Seq<char>,
        payload: Seq<u8>,
        thread: Option<Seq<char>>,
        now: Moment,
    ) -> (HubModel, Result<AckView, ErrorView>) {
        let m = self.prune(now.instant);
        match m.sender(token) {
            Err(e) => (m, Err(e)),
            Ok(from) => if m.denied(token, to, now) {
                (m, Err(ErrorView::GrantBlocked(m.blocks[(token, to)].reason)))
            } else {
                m.forget_block(token, to).route(token, from, to, payload, thread, now)
            },
        }
    }

    /// A message that no denial stops finds its way, or does not.
    pub open spec fn route(
        self,
        token: Seq<char>,
        from: Seq<char>,
        to: Seq<char>,
        payload: Seq<u8>,
        thread: Option<Seq<char>>,
        now: Moment,
    ) -> (HubModel, Result<AckView, ErrorView>) {
        if !self.agents.contains_key(to) {
            (self, Err(ErrorView::RecipientUnknown))
        } else {
            let ask = Ask {
                from: token,
                to: self.agents[to],
                from_name: Some(from),
                to_name: Some(to),
            };
            match self.trust.check(ask, now.instant) {
                Ok(grant) => self.pass(grant, token, from, to, payload, thread, now),
                Err(e) => if exists|i: int| self.window_at(from, to, now.instant, i) {
                    (self.answer(from, to, plain_message(payload, from, thread), now), Ok(AckView::Accepted))
                } else if e is NoGrant {
                    (self.hint(from, to), Err(e))
                } else {
                    (self, Err(e))
                },
            }
        }
    }

    /// A message passes under a grant: into the queue, or to the governor where the grant is one
    /// to inspect.
    pub open spec fn pass(
        self,
        grant: GrantRefView,
        token: Seq<char>,
        from: Seq<char>,
        to: Seq<char>,
        payload: Seq<u8>,
        thread: Option<Seq<char>>,
        now: Moment,
    ) -> (HubModel, Result<AckView, ErrorView>) {
        match grant.mediation {
            GrantMediation::Inspect => if self.trust.online(grant.governor_id, now.instant) {
                (
                    self.hold(grant, token, from, to, payload, now.instant),
                    Ok(AckView::PendingMediation { mediation_id: self.next_mediation() }),
                )
            } else {
                (self, Err(ErrorView::MediationUnavailable))
            },
            GrantMediation::Notify => {
                let notice = events::delivery_notice(
                    from,
                    to,
                    text::utf8_lossy(payload),
                    grant.id,
                    grant.conditions,
                );
                (
                    self.spend(grant.id).deliver(to, plain_message(payload, from, thread)).window_if(
                        grant.opens_reply_window,
                        to,
                        from,
                        now.instant,
                    ).emit(EffectView::Governors { text: notice }).count_use(grant.id).ring(to),
                    Ok(AckView::Accepted),
                )
            },
            GrantMediation::Bypass => (
                self.spend(grant.id).deliver(to, plain_message(payload, from, thread)).window_if(
                    grant.opens_reply_window,
                    to,
                    from,
                    now.instant,
                ).count_use(grant.id).ring(to),
                Ok(AckView::Accepted),
            ),
        }
    }

    /// The identifier of the next message that waits for the governor.
    pub open spec fn next_mediation(self) -> Seq<char> {
        trust::numbered("med"@, (self.med_counter + 1) as nat)
    }

    /// A message waits for the governor, who is told.
    pub open spec fn hold(
        self,
        grant: GrantRefView,
        token: Seq<char>,
        from: Seq<char>,
        to: Seq<char>,
        payload: Seq<u8>,
        now: Instant,
    ) -> HubModel {
        let id = self.next_mediation();
        HubModel {
            med_counter: (self.med_counter + 1) as u64,
            holds: self.holds.push(
                HoldView {
                    mediation_id: id,
                    from_name: from,
                    to_name: to,
                    from_identity: token,
                    to_identity: self.agents[to],
                    payload,
                    reason: seq![],
                    expires: (now + self.hold_ttl) as Instant,
                    resolved: false,
                    grant_id: Some(grant.id),
                },
            ),
            ..self
        }.emit(
            EffectView::Governors {
                text: events::mediation(
                    id,
                    from,
                    to,
                    text::utf8_lossy(payload),
                    grant.id,
                    grant.conditions,
                ),
            },
        )
    }

    /// One message of the grant's budget is spent.
    pub open spec fn spend(self, grant_id: Seq<char>) -> HubModel {
        HubModel { trust: self.trust.consume(grant_id), ..self }
    }

    /// The use of a grant is written down.
    pub open spec fn count_use(self, grant_id: Seq<char>) -> HubModel {
        self.store(StoreWriteView::IncrementGrantUsage { grant_id })
    }

    pub open spec fn window_if(
        self,
        opens: bool,
        recipient: Seq<char>,
        sender: Seq<char>,
        now: Instant,
    ) -> HubModel {
        if opens {
            self.open_window(recipient, sender, now)
        } else {
            self
        }
    }

    /// The window at `i` is the first through which `from` may answer `to`.
    pub open spec fn window_at(self, from: Seq<char>, to: Seq<char>, now: Instant, i: int) -> bool {
        &&& 0 <= i < self.windows.len()
        &&& self.windows[i].lets(from, to, now)
        &&& forall|j: int| 0 <= j < i ==> !(#[trigger] self.windows[j]).lets(from, to, now)
    }

    /// A reply goes through the first window, which is used up; the other side gets a window for
    /// its answer.
    pub open spec fn answer(self, from: Seq<char>, to: Seq<char>, msg: MessageView, now: Moment) -> HubModel {
        let i = choose|i: int| self.window_at(from, to, now.instant, i);
        HubModel {
            windows: self.windows.update(i, WindowView { used: true, ..self.windows[i] }),
            ..self
        }.deliver(to, msg).open_window(to, from, now.instant).ring(to)
    }

    /// A request for this pair is on record.
    pub open spec fn has_request(self, from: Seq<char>, to: Seq<char>) -> bool {
        exists|id: Seq<char>| #[trigger]
            self.requests.contains_key(id) && self.requests[id].from_name == from
                && self.requests[id].to_name == to
    }

    /// A sender without a grant is told how to ask for one, unless a request is on record.
    pub open spec fn hint(self, from: Seq<char>, to: Seq<char>) -> HubModel {
        if self.has_request(from, to) {
            self
        } else {
            self.deliver(
                from,
                model::system_message(events::no_grant_hint(to), "no_grant"@),
            ).ring(from)
        }
    }
}

impl HubModel {
    /// The next step of the holder of a token who waits for a message whose number lies beyond
    /// `since`.
    pub open spec fn waiting_for(self, token: Seq<char>, since: u64, event: WaitEvent) -> Result<
        WaitAction,
        ErrorView,
    > {
        match event {
            WaitEvent::Over => Ok(WaitAction::Stop),
            WaitEvent::Begun => match self.reader(token) {
                Err(e) => Err(e),
                Ok(_) => Ok(self.look(token, since)),
            },
            WaitEvent::Changed => if self.tokens.contains_key(token) {
                Ok(self.look(token, since))
            } else {
                Ok(WaitAction::Stop)
            },
        }
    }

    /// Whether a message has come to the holder of a token since.
    pub open spec fn look(self, token: Seq<char>, since: u64) -> WaitAction {
        if self.tokens[token].msg_id > since {
            WaitAction::Found(self.tokens[token].msg_id)
        } else {
            WaitAction::Wait
        }
    }
}

impl DeliveryHub {
    fn sender(&self, token: &str) -> (r: Result<String, Error>)
        ensures
            error::outcome(r) == self@.sender(token@),
    {
        match self.tokens.get(token) {
            None => Err(Error::AuthFailed),
            Some(st) => if st.revoked {
                Err(Error::TokenRevoked)
            } else {
                match self.token_to_name.get(token) {
                    Some(name) => Ok(name.clone()),
                    None => Err(Error::AnnounceRequired),
                }
            },
        }
    }

    /// Sends a message to a participant by name. It is queued also for one who is away.
    pub fn send(
        &mut self,
        from_token: &ParticipantToken,
        to_name: &str,
        payload: Payload,
        _reason: Option<String>,
        thread_id: Option<String>,
        now: Moment,
    ) -> (r: Result<Ack, Error>)
        requires
            old(self)@.ready(),
            now.in_range(),
        ensures
            (final(self)@, error::outcome(r)) == old(self)@.send(
                from_token.0@,
                to_name@,
                payload.deep_view(),
                thread_id.deep_view(),
                now,
            ),
            old(self)@.sound() ==> final(self)@.sound(),
    {
        proof {
            if self@.sound() {
                invariants::law_send_sound(
                    self@,
                    from_token.0@,
                    to_name@,
                    payload.deep_view(),
                    thread_id.deep_view(),
                    now,
                );
            }
        }
        self.prune(now.instant);
        let token = from_token.0.as_str();
        let from = match self.sender(token) {
            Ok(name) => name,
            Err(e) => return Err(e),
        };
        if self.denied(token, to_name, now) {
            if let Some(block) = self.blocks.get(token, to_name) {
                return Err(Error::GrantBlocked(block.reason.clone()));
            }
        }
        self.blocks.remove(token, to_name);
        self.route(token, from.as_str(), to_name, payload, thread_id, now)
    }

    fn route(
        &mut self,
        token: &str,
        from: &str,
        to: &str,
        payload: Payload,
        thread: Option<String>,
        now: Moment,
    ) -> (r: Result<Ack, Error>)
        requires
            old(self)@.ready(),
            now.in_range(),
        ensures
            (final(self)@, error::outcome(r)) == old(self)@.route(
                token@,
                from@,
                to@,
                payload.deep_view(),
                thread.deep_view(),
                now,
            ),
    {
        let to_identity = match self.agents.get(to) {
            None => return Err(Error::RecipientUnknown),
            Some(id) => id.clone(),
        };
        match self.trust.check_grant_directed_with_names(
            token,
            to_identity.as_str(),
            Some(from),
            Some(to),
            now.instant,
        ) {
            Ok(grant) => self.pass(&grant, token, from, to, payload, thread, now),
            Err(e) => {
                if let Some(i) = self.find_window(from, to, now.instant) {
                    let msg = QueuedMessage {
                        payload,
                        from_name: from.to_owned(),
                        reason: None,
                        event_type: None,
                        thread_id: thread,
                    };
                    self.answer(i, from, to, msg, now);
                    return Ok(Ack::Accepted);
                }
                match e {
                    Error::NoGrant => {
                        self.hint(from, to);
                        Err(Error::NoGrant)
                    },
                    other => Err(other),
                }
            },
        }
    }

    fn pass(
        &mut self,
        grant: &GrantRef,
        token: &str,
        from: &str,
        to: &str,
        payload: Payload,
        thread: Option<String>,
        now: Moment,
    ) -> (r: Result<Ack, Error>)
        requires
            old(self)@.ready(),
            now.in_range(),
            old(self)@.agents.contains_key(to@),
        ensures
            (final(self)@, error::outcome(r)) == old(self)@.pass(
                grant.deep_view(),
                token@,
                from@,
                to@,
                payload.deep_view(),
                thread.deep_view(),
                now,
            ),
    {
        let seen = text::lossy_text(&payload.0);
        let conditions = match &grant.conditions {
            Some(c) => Some(c.as_str()),
            None => None,
        };
        match grant.mediation {
            GrantMediation::Inspect => {
                if !self.trust.is_governor_id_online(grant.governor_id.as_str(), now.instant) {
                    return Err(Error::MediationUnavailable);
                }
                let numeral = text::decimal_text(self.med_counter + 1);
                let id = text::join3("med", "-", numeral.as_str());
                let to_identity = match self.agents.get(to) {
                    Some(identity) => identity.clone(),
                    None => String::new(),
                };
                self.med_counter = self.med_counter + 1;
                let ghost was = self.holds.deep_view();
                let reason = String::new();
                assert(reason@ =~= seq![]);
                let hold = MediationHold {
                    mediation_id: id.clone(),
                    from_name: from.to_owned(),
                    to_name: to.to_owned(),
                    from_identity: token.to_owned(),
                    to_identity,
                    payload,
                    reason,
                    expires: now.instant + self.hold_ttl,
                    resolved: false,
                    grant_id: Some(grant.id.clone()),
                };
                let ghost v = hold.deep_view();
                self.holds.push(hold);
                assert(self.holds.deep_view() =~= was.push(v));
                let event = events::mediation_text(
                    id.as_str(),
                    from,
                    to,
                    seen.as_str(),
                    grant.id.as_str(),
                    conditions,
                );
                self.emit(Effect::Governors { text: event });
                Ok(Ack::PendingMediation { mediation_id: id })
            },
            GrantMediation::Notify => {
                let notice = events::delivery_notice_text(
                    from,
                    to,
                    seen.as_str(),
                    grant.id.as_str(),
                    conditions,
                );
                self.deliver_under(grant, from, to, payload, thread, now.instant);
                self.emit(Effect::Governors { text: notice });
                self.store(StoreWrite::IncrementGrantUsage { grant_id: grant.id.clone() });
                self.ring(to);
                Ok(Ack::Accepted)
            },
            GrantMediation::Bypass => {
                self.deliver_under(grant, from, to, payload, thread, now.instant);
                self.store(StoreWrite::IncrementGrantUsage { grant_id: grant.id.clone() });
                self.ring(to);
                Ok(Ack::Accepted)
            },
        }
    }

    /// Spends the grant, queues the message and opens the window for the reply.
    fn deliver_under(
        &mut self,
        grant: &GrantRef,
        from: &str,
        to: &str,
        payload: Payload,
        thread: Option<String>,
        now: Instant,
    )
        requires
            old(self)@.ready(),
            now <= clock::LAST_INSTANT,
        ensures
            final(self)@ == old(self)@.spend(grant.id@).deliver(
                to@,
                plain_message(payload.deep_view(), from@, thread.deep_view()),
            ).window_if(grant.opens_reply_window, to@, from@, now),
    {
        self.trust.consume_grant_message(grant.id.as_str());
        let msg = QueuedMessage {
            payload,
            from_name: from.to_owned(),
            reason: None,
            event_type: None,
            thread_id: thread,
        };
        self.deliver(to, msg);
        if grant.opens_reply_window {
            self.open_window(to, from, now);
        }
    }

    fn find_window(&self, from: &str, to: &str, now: Instant) -> (r: Option<usize>)
        ensures
            match r {
                Some(i) => {
                    &&& self@.window_at(from@, to@, now, i as int)
                    &&& forall|j: int| self@.window_at(from@, to@, now, j) ==> j == i
                },
                None => forall|j: int| !self@.window_at(from@, to@, now, j),
            },
    {
        let ghost ws = self@.windows;
        let mut i: usize = 0;
        while i < self.windows.len()
            invariant
                i <= self.windows@.len(),
                ws == self@.windows,
                forall|j: int| 0 <= j < i ==> !(#[trigger] ws[j]).lets(from@, to@, now),
            decreases self.windows@.len() - i,
        {
            let w = &self.windows[i];
            assert(ws[i as int] == w.deep_view());
            if same(w.recipient.as_str(), from) && same(w.sender.as_str(), to) && !w.used && w.expires
                > now {
                assert forall|j: int| self@.window_at(from@, to@, now, j) implies j == i by {
                    if j < i {
                        assert(!ws[j].lets(from@, to@, now));
                    } else if i < j {
                        assert(!ws[i as int].lets(from@, to@, now));
                    }
                }
                return Some(i);
            }
            i += 1;
        }
        None
    }

    fn answer(&mut self, i: usize, from: &str, to: &str, msg: QueuedMessage, now: Moment)
        requires
            old(self)@.ready(),
            now.in_range(),
            old(self)@.window_at(from@, to@, now.instant, i as int),
            forall|j: int| old(self)@.window_at(from@, to@, now.instant, j) ==> j == i,
        ensures
            final(self)@ == old(self)@.answer(from@, to@, msg.deep_view(), now),
    {
        let ghost was = self.windows.deep_view();
        let w = self.windows.remove(i);
        assert(was[i as int] == w.deep_view());
        let used = ReplyWindow {
            recipient: w.recipient,
            sender: w.sender,
            expires: w.expires,
            used: true,
        };
        let ghost v = used.deep_view();
        self.windows.insert(i, used);
        assert(self.windows.deep_view() =~= was.update(i as int, v));
        self.deliver(to, msg);
        self.open_window(to, from, now.instant);
        self.ring(to);
    }

    fn has_request(&self, from: &str, to: &str) -> (r: bool)
        ensures
            r == self@.has_request(from@, to@),
    {
        let ids = self.requests.keys();
        let ghost ks = ids.deep_view();
        let mut i: usize = 0;
        while i < ids.len()
            invariant
                i <= ids@.len(),
                ks == ids.deep_view(),
                ks.to_set() == self@.requests.dom(),
                forall|j: int|
                    0 <= j < i ==> !(self@.requests[#[trigger] ks[j]].from_name == from@
                        && self@.requests[ks[j]].to_name == to@),
            decreases ids@.len() - i,
        {
            assert(ks.to_set().contains(ks[i as int]));
            if let Some(req) = self.requests.get(ids[i].as_str()) {
                if same(req.from_name.as_str(), from) && same(req.to_name.as_str(), to) {
                    assert(self@.requests.contains_key(ks[i as int]));
                    return true;
                }
            }
            i += 1;
        }
        assert forall|id: Seq<char>| #[trigger] self@.requests.contains_key(id) implies !(
        self@.requests[id].from_name == from@ && self@.requests[id].to_name == to@) by {
            assert(ks.to_set().contains(id));
            assert(ks[ks.index_of(id)] == id);
        }
        false
    }

    fn hint(&mut self, from: &str, to: &str)
        ensures
            final(self)@ == old(self)@.hint(from@, to@),
    {
        if !self.has_request(from, to) {
            let text = events::no_grant_hint_text(to);
            self.deliver(from, system_message(text.as_str(), "no_grant"));
            self.ring(from);
        }
    }
}

impl HubModel {
    /// The name behind a token that can be written to by token.
    pub open spec fn addressee(self, token: Seq<char>) -> Result<Seq<char>, ErrorView> {
        if self.tokens.contains_key(token) && !self.tokens[token].revoked
            && self.tokens[token].name is Some {
            Ok(self.tokens[token].name->0)
        } else {
            Err(ErrorView::RecipientUnknown)
        }
    }

    /// A message is sent to whoever holds a token.
    pub open spec fn send_to_token(
        self,
        token: Seq<char>,
        to_token: Seq<char>,
        payload: Seq<u8>,
        thread: Option<Seq<char>>,
        now: Moment,
    ) -> (HubModel, Result<AckView, ErrorView>) {
        match self.addressee(to_token) {
            Ok(to) => self.send(token, to, payload, thread, now),
            Err(e) => (self, Err(e)),
        }
    }

    /// The hold at `i` is the first open one with that identifier.
    pub open spec fn hold_at(self, id: Seq<char>, now: Instant, i: int) -> bool {
        &&& 0 <= i < self.holds.len()
        &&& self.holds[i].open(id, now)
        &&& forall|j: int| 0 <= j < i ==> !(#[trigger] self.holds[j]).open(id, now)
    }

    /// The governor rules on a message that waits.
    pub open spec fn resolve(
        self,
        governor: Seq<char>,
        id: Seq<char>,
        decision: DecisionView,
        now: Moment,
    ) -> (HubModel, Result<MediationResultView, ErrorView>) {
        let m = self.prune(now.instant);
        match m.trust.verify(governor, now.instant) {
            Err(e) => (m, Err(e)),
            Ok(_) => if exists|i: int| m.hold_at(id, now.instant, i) {
                m.rule_on(choose|i: int| m.hold_at(id, now.instant, i), governor, decision, now)
            } else {
                (m, Err(ErrorView::MediationUnavailable))
            },
        }
    }

    /// The ruling on the hold at `i`. Only the governor behind the grant may rule.
    pub open spec fn rule_on(self, i: int, governor: Seq<char>, decision: DecisionView, now: Moment) -> (
        HubModel,
        Result<MediationResultView, ErrorView>,
    ) {
        match self.holds[i].grant_id {
            Some(gid) => match self.trust.grant(gid) {
                None => (self, Err(ErrorView::MediationUnavailable)),
                Some(g) => if governor != g.governor_id {
                    (self, Err(ErrorView::Forbidden))
                } else {
                    self.settle_hold(i, decision, g.opens_reply_window, Some(gid), now)
                },
            },
            None => self.settle_hold(i, decision, true, None, now),
        }
    }

    /// The hold at `i` is done: the message is dropped, or goes to the recipient if that is still
    /// there. Only a message that goes to the recipient spends the grant.
    pub open spec fn settle_hold(
        self,
        i: int,
        decision: DecisionView,
        opens: bool,
        grant_id: Option<Seq<char>>,
        now: Moment,
    ) -> (HubModel, Result<MediationResultView, ErrorView>) {
        let hold = self.holds[i];
        let done = HubModel {
            holds: self.holds.update(i, HoldView { resolved: true, ..hold }),
            ..self
        };
        if decision is Block {
            (done, Ok(MediationResultView::Blocked))
        } else if !self.agents.contains_key(hold.to_name) {
            (done, Ok(MediationResultView::RecipientOffline))
        } else {
            let msg = MessageView {
                payload: match decision {
                    DecisionView::Modify(p) => p,
                    _ => hold.payload,
                },
                from_name: hold.from_name,
                reason: Some(hold.reason),
                event_type: None,
                thread_id: None,
            };
            let sent = done.deliver(hold.to_name, msg).window_if(
                opens,
                hold.to_name,
                hold.from_name,
                now.instant,
            );
            let counted = match grant_id {
                Some(gid) => sent.spend(gid).count_use(gid),
                None => sent,
            };
            (
                counted.ring(hold.to_name),
                Ok(MediationResultView::Delivered { to_name: hold.to_name }),
            )
        }
    }

    /// The name of a token that may look at its queue.
    pub open spec fn reader(self, token: Seq<char>) -> Result<Option<Seq<char>>, ErrorView> {
        if !self.tokens.contains_key(token) {
            Err(ErrorView::TokenRejected)
        } else if self.tokens[token].revoked {
            Err(ErrorView::TokenRevoked)
        } else {
            Ok(self.tokens[token].name)
        }
    }

    /// The message at `i` is the first of its thread.
    pub open spec fn thread_at(q: Seq<MessageView>, thread: Seq<char>, i: int) -> bool {
        &&& 0 <= i < q.len()
        &&& q[i].thread_id == Some(thread)
        &&& forall|j: int| 0 <= j < i ==> (#[trigger] q[j]).thread_id != Some(thread)
    }

    /// The first message of the queue is taken. A queue that is empty no longer counts as
    /// waiting.
    pub open spec fn pop(self, name: Seq<char>) -> (HubModel, Option<MessageView>) {
        let q = self.queue(name);
        let rest = if q.len() == 0 {
            q
        } else {
            q.drop_first()
        };
        let m = HubModel {
            queues: if self.queues.contains_key(name) {
                self.queues.insert(name, rest)
            } else {
                self.queues
            },
            kick_pending: if rest.len() == 0 {
                self.kick_pending.remove(name)
            } else {
                self.kick_pending
            },
            ..self
        };
        (
            m,
            if q.len() == 0 {
                None
            } else {
                Some(q[0])
            },
        )
    }

    /// The first message of a thread is taken.
    pub open spec fn pop_thread(self, name: Seq<char>, thread: Seq<char>) -> (
        HubModel,
        Option<MessageView>,
    ) {
        let q = self.queue(name);
        if exists|i: int| HubModel::thread_at(q, thread, i) {
            let i = choose|i: int| HubModel::thread_at(q, thread, i);
            (
                HubModel {
                    queues: self.queues.insert(name, q.remove(i)),
                    kick_pending: if q.len() == 1 {
                        self.kick_pending.remove(name)
                    } else {
                        self.kick_pending
                    },
                    ..self
                },
                Some(q[i]),
            )
        } else {
            (self, None)
        }
    }

    /// After the stale tokens are gone, one message is fetched.
    pub open spec fn dequeue(self, token: Seq<char>, thread: Option<Seq<char>>, now: Moment) -> (
        HubModel,
        Result<(Option<MessageView>, nat), ErrorView>,
    ) {
        self.gc(now).fetch(token, thread, now.instant)
    }

    /// One message is fetched, of a thread where one is named. The token counts as used and its
    /// stream may be told of waiting messages again.
    pub open spec fn fetch(self, token: Seq<char>, thread: Option<Seq<char>>, now: Instant) -> (
        HubModel,
        Result<(Option<MessageView>, nat), ErrorView>,
    ) {
        match self.reader(token) {
            Err(e) => (self, Err(e)),
            Ok(None) => (self.touch(token, now), Ok((None, 0))),
            Ok(Some(name)) => {
                let m = self.set_token(
                    token,
                    ListenView { last_active: now, notify_suppressed: false, ..self.tokens[token] },
                );
                let (after, msg) = match thread {
                    Some(t) => m.pop_thread(name, t),
                    None => m.pop(name),
                };
                (after, Ok((msg, after.queue(name).len())))
            },
        }
    }

    /// The messages that fetching all of a queue brings.
    pub open spec fn drained(q: Seq<MessageView>, thread: Option<Seq<char>>) -> Seq<MessageView> {
        match thread {
            Some(t) => q.filter(|m: MessageView| m.thread_id == Some(t)),
            None => q,
        }
    }

    /// The messages that fetching all of a queue leaves in it.
    pub open spec fn left(q: Seq<MessageView>, thread: Option<Seq<char>>) -> Seq<MessageView> {
        match thread {
            Some(t) => q.filter(|m: MessageView| m.thread_id != Some(t)),
            None => seq![],
        }
    }

    /// The messages of the named thread, or all where none is named, are handed out; the others
    /// stay in the queue.
    pub open spec fn drain(self, token: Seq<char>, thread: Option<Seq<char>>) -> (
        HubModel,
        Result<Seq<MessageView>, ErrorView>,
    ) {
        match self.reader(token) {
            Err(e) => (self, Err(e)),
            Ok(None) => (self, Ok(seq![])),
            Ok(Some(name)) => {
                let m = self.set_token(
                    token,
                    ListenView { notify_suppressed: false, ..self.tokens[token] },
                );
                (
                    HubModel {
                        queues: m.queues.insert(name, HubModel::left(m.queue(name), thread)),
                        kick_pending: if HubModel::left(m.queue(name), thread).len() == 0 {
                            m.kick_pending.remove(name)
                        } else {
                            m.kick_pending
                        },
                        ..m
                    },
                    Ok(HubModel::drained(self.queue(name), thread)),
                )
            },
        }
    }
}

/// The messages of a thread, or all where none is named, taken out of a queue, and the others.
fn pick_thread(messages: std::collections::VecDeque<QueuedMessage>, thread: Option<&str>) -> (r: (
    Vec<QueuedMessage>,
    std::collections::VecDeque<QueuedMessage>,
))
    ensures
        r.0.deep_view() == HubModel::drained(messages.deep_view(), thread.deep_view()),
        r.1.deep_view() == HubModel::left(messages.deep_view(), thread.deep_view()),
{
    let ghost q0 = messages.deep_view();
    let mut queue = messages;
    let mut out: Vec<QueuedMessage> = Vec::new();
    let mut left: std::collections::VecDeque<QueuedMessage> = std::collections::VecDeque::new();
    let ghost p = |m: MessageView| thread is None || m.thread_id == thread.deep_view();
    let ghost np = |m: MessageView| !(thread is None || m.thread_id == thread.deep_view());
    let ghost mut n: int = 0;
    proof {
        seqs::lemma_filter_empty(q0.take(0), p);
        seqs::lemma_filter_empty(q0.take(0), np);
        assert(out.deep_view() =~= q0.take(0).filter(p));
        assert(left.deep_view() =~= q0.take(0).filter(np));
        assert(queue.deep_view() =~= q0.skip(0));
    }
    while queue.len() > 0
        invariant
            0 <= n <= q0.len(),
            p == (|m: MessageView| thread is None || m.thread_id == thread.deep_view()),
            np == (|m: MessageView| !(thread is None || m.thread_id == thread.deep_view())),
            queue@.len() == q0.len() - n,
            queue.deep_view() == q0.skip(n),
            out.deep_view() == q0.take(n).filter(p),
            left.deep_view() == q0.take(n).filter(np),
        decreases queue@.len(),
    {
        let ghost was = out.deep_view();
        let ghost kept = left.deep_view();
        let ghost rest = queue.deep_view();
        proof {
            seqs::lemma_filter_next(q0, n, p);
            seqs::lemma_filter_next(q0, n, np);
            assert(rest[0] == q0[n]);
        }
        if let Some(m) = queue.pop_front() {
            assert(m.deep_view() == q0[n]);
            assert(queue.deep_view() =~= rest.drop_first());
            assert(rest.drop_first() =~= q0.skip(n + 1));
            let wanted = match thread {
                None => true,
                Some(t) => match &m.thread_id {
                    Some(u) => same(u.as_str(), t),
                    None => false,
                },
            };
            let ghost v = m.deep_view();
            if wanted {
                out.push(m);
                assert(out.deep_view() =~= was.push(v));
            } else {
                left.push_back(m);
                assert(left.deep_view() =~= kept.push(v));
            }
        }
        proof {
            n = n + 1;
        }
    }
    proof {
        assert(q0.take(n) =~= q0);
        match thread.deep_view() {
            None => {
                seqs::lemma_filter_all(q0, p);
                seqs::lemma_filter_none(q0, np);
            },
            Some(t) => {
                assert(p =~= (|m: MessageView| m.thread_id == Some(t)));
                assert(np =~= (|m: MessageView| m.thread_id != Some(t)));
            },
        }
        assert(left.deep_view() == HubModel::left(q0, thread.deep_view()));
    }
    (out, left)
}

impl DeliveryHub {
    /// Sends a message to whoever holds a token.
    pub fn send_to_token(
        &mut self,
        from_token: &ParticipantToken,
        to_token: &str,
        payload: Payload,
        reason: Option<String>,
        thread_id: Option<String>,
        now: Moment,
    ) -> (r: Result<Ack, Error>)
        requires
            old(self)@.ready(),
            now.in_range(),
        ensures
            (final(self)@, error::outcome(r)) == old(self)@.send_to_token(
                from_token.0@,
                to_token@,
                payload.deep_view(),
                thread_id.deep_view(),
                now,
            ),
            old(self)@.sound() ==> final(self)@.sound(),
    {
        proof {
            if self@.sound() {
                invariants::law_send_sound(
                    self@,
                    from_token.0@,
                    to_token@,
                    payload.deep_view(),
                    thread_id.deep_view(),
                    now,
                );
            }
        }
        let to = match self.tokens.get(to_token) {
            Some(st) => if st.revoked {
                return Err(Error::RecipientUnknown);
            } else {
                match &st.name {
                    Some(n) => n.clone(),
                    None => return Err(Error::RecipientUnknown),
                }
            },
            None => return Err(Error::RecipientUnknown),
        };
        self.send(from_token, to.as_str(), payload, reason, thread_id, now)
    }

    fn find_hold(&self, id: &str, now: Instant) -> (r: Option<usize>)
        ensures
            match r {
                Some(i) => {
                    &&& self@.hold_at(id@, now, i as int)
                    &&& forall|j: int| self@.hold_at(id@, now, j) ==> j == i
                },
                None => forall|j: int| !self@.hold_at(id@, now, j),
            },
    {
        let ghost hs = self@.holds;
        let mut i: usize = 0;
        while i < self.holds.len()
            invariant
                i <= self.holds@.len(),
                hs == self@.holds,
                forall|j: int| 0 <= j < i ==> !(#[trigger] hs[j]).open(id@, now),
            decreases self.holds@.len() - i,
        {
            let h = &self.holds[i];
            assert(hs[i as int] == h.deep_view());
            if same(h.mediation_id.as_str(), id) && !h.resolved && h.expires > now {
                assert forall|j: int| self@.hold_at(id@, now, j) implies j == i by {
                    if j < i {
                        assert(!hs[j].open(id@, now));
                    } else if i < j {
                        assert(!hs[i as int].open(id@, now));
                    }
                }
                return Some(i);
            }
            i += 1;
        }
        None
    }

    /// The governor rules on a message that waits for it.
    pub fn resolve_mediation(
        &mut self,
        gov_token: &GovernorToken,
        mediation_id: &str,
        decision: MediationDecision,
        now: Moment,
    ) -> (r: Result<MediationResult, Error>)
        requires
            old(self)@.ready(),
            now.in_range(),
        ensures
            (final(self)@, error::outcome(r)) == old(self)@.resolve(
                gov_token.0@,
                mediation_id@,
                decision.deep_view(),
                now,
            ),
            old(self)@.sound() ==> final(self)@.sound(),
    {
        proof {
            if self@.sound() {
                invariants::law_resolve_sound(
                    self@,
                    gov_token.0@,
                    mediation_id@,
                    decision.deep_view(),
                    now,
                );
            }
        }
        self.prune(now.instant);
        match self.trust.verify_governor(gov_token.0.as_str(), now.instant) {
            Ok(_) => {},
            Err(e) => return Err(e),
        }
        let i: usize = match self.find_hold(mediation_id, now.instant) {
            Some(i) => i,
            None => return Err(Error::MediationUnavailable),
        };
        assert(self@.holds[i as int] == self.holds@[i as int].deep_view());
        let grant_id = copy_opt(&self.holds[i].grant_id);
        match grant_id {
            Some(gid) => {
                let expected = match self.trust.grant_governor_id(gid.as_str()) {
                    Some(g) => g,
                    None => return Err(Error::MediationUnavailable),
                };
                if !same(gov_token.0.as_str(), expected.as_str()) {
                    return Err(Error::Forbidden);
                }
                let opens = match self.trust.grant_opens_reply_window(gid.as_str()) {
                    Some(w) => w,
                    None => false,
                };
                self.settle_hold(i, decision, opens, Some(gid), now)
            },
            None => self.settle_hold(i, decision, true, None, now),
        }
    }

    fn settle_hold(
        &mut self,
        i: usize,
        decision: MediationDecision,
        opens: bool,
        grant_id: Option<String>,
        now: Moment,
    ) -> (r: Result<MediationResult, Error>)
        requires
            i < old(self)@.holds.len(),
            old(self)@.ready(),
            now.in_range(),
        ensures
            (final(self)@, error::outcome(r)) == old(self)@.settle_hold(
                i as int,
                decision.deep_view(),
                opens,
                grant_id.deep_view(),
                now,
            ),
    {
        let ghost was = self.holds.deep_view();
        let h = self.holds.remove(i);
        assert(was[i as int] == h.deep_view());
        let payload = h.payload.copy();
        let from = h.from_name.clone();
        let to = h.to_name.clone();
        let reason = h.reason.clone();
        let done = MediationHold { resolved: true, ..h };
        let ghost v = done.deep_view();
        self.holds.insert(i, done);
        assert(self.holds.deep_view() =~= was.update(i as int, v));
        let payload = match decision {
            MediationDecision::Block => return Ok(MediationResult::Blocked),
            MediationDecision::Approve => payload,
            MediationDecision::Modify(p) => p,
        };
        if !self.agents.contains_key(to.as_str()) {
            return Ok(MediationResult::RecipientOffline);
        }
        let msg = QueuedMessage {
            payload,
            from_name: from.clone(),
            reason: Some(reason),
            event_type: None,
            thread_id: None,
        };
        self.deliver(to.as_str(), msg);
        if opens {
            self.open_window(to.as_str(), from.as_str(), now.instant);
        }
        if let Some(gid) = grant_id {
            self.trust.consume_grant_message(gid.as_str());
            self.store(StoreWrite::IncrementGrantUsage { grant_id: gid });
        }
        self.ring(to.as_str());
        Ok(MediationResult::Delivered { to_name: to })
    }

    pub(crate) fn reader(&self, token: &str) -> (r: Result<Option<String>, Error>)
        ensures
            error::outcome(r) == self@.reader(token@),
    {
        match self.tokens.get(token) {
            None => Err(Error::TokenRejected),
            Some(st) => if st.revoked {
                Err(Error::TokenRevoked)
            } else {
                Ok(copy_opt(&st.name))
            },
        }
    }

    fn pop(&mut self, name: &str) -> (msg: Option<QueuedMessage>)
        ensures
            (final(self)@, msg.deep_view()) == old(self)@.pop(name@),
    {
        match self.queues.remove(name) {
            None => {
                assert(self@.queues =~= old(self)@.queues);
                self.kick_pending.remove(name);
                None
            },
            Some(mut q) => {
                let ghost was = q.deep_view();
                let msg = q.messages.pop_front();
                proof {
                    if was.len() > 0 {
                        assert(q.deep_view() =~= was.drop_first());
                        assert(msg.deep_view() == Some(was[0]));
                    } else {
                        assert(q.deep_view() =~= was);
                    }
                }
                let empty = q.messages.len() == 0;
                let ghost rest = q.deep_view();
                let _ = self.queues.insert(name.to_owned(), q);
                if empty {
                    self.kick_pending.remove(name);
                }
                assert(self@.queues =~= old(self)@.queues.insert(name@, rest));
                msg
            },
        }
    }

    fn find_thread(q: &std::collections::VecDeque<QueuedMessage>, thread: &str) -> (r: Option<usize>)
        ensures
            match r {
                Some(i) => {
                    &&& HubModel::thread_at(q.deep_view(), thread@, i as int)
                    &&& forall|j: int| HubModel::thread_at(q.deep_view(), thread@, j) ==> j == i
                },
                None => forall|j: int| !HubModel::thread_at(q.deep_view(), thread@, j),
            },
    {
        let ghost ms = q.deep_view();
        let mut i: usize = 0;
        while i < q.len()
            invariant
                i <= q@.len(),
                ms == q.deep_view(),
                forall|j: int| 0 <= j < i ==> (#[trigger] ms[j]).thread_id != Some(thread@),
            decreases q@.len() - i,
        {
            let m = &q[i];
            assert(ms[i as int] == m.deep_view());
            let found = match &m.thread_id {
                Some(t) => same(t.as_str(), thread),
                None => false,
            };
            if found {
                assert forall|j: int| HubModel::thread_at(ms, thread@, j) implies j == i by {
                    if j < i {
                        assert(ms[j].thread_id != Some(thread@));
                    } else if i < j {
                        assert(ms[i as int].thread_id != Some(thread@));
                    }
                }
                return Some(i);
            }
            i += 1;
        }
        None
    }

    fn pop_thread(&mut self, name: &str, thread: &str) -> (msg: Option<QueuedMessage>)
        ensures
            (final(self)@, msg.deep_view()) == old(self)@.pop_thread(name@, thread@),
    {
        match self.queues.remove(name) {
            None => {
                assert(self@.queues =~= old(self)@.queues);
                None
            },
            Some(mut q) => {
                let ghost was = q.deep_view();
                match DeliveryHub::find_thread(&q.messages, thread) {
                    None => {
                        let _ = self.queues.insert(name.to_owned(), q);
                        assert(self@.queues =~= old(self)@.queues);
                        None
                    },
                    Some(i) => {
                        let msg = q.messages.remove(i);
                        assert(q.deep_view() =~= was.remove(i as int));
                        let empty = q.messages.len() == 0;
                        let ghost rest = q.deep_view();
                        let _ = self.queues.insert(name.to_owned(), q);
                        if empty {
                            self.kick_pending.remove(name);
                        }
                        assert(self@.queues =~= old(self)@.queues.insert(name@, rest));
                        msg
                    },
                }
            },
        }
    }

    /// Fetches one message, of a thread where one is named, and says how many are left. Stale
    /// tokens are cleared away first.
    pub fn dequeue(&mut self, token: &str, thread: Option<&str>, now: Moment) -> (r: Result<
        (Option<QueuedMessage>, usize),
        Error,
    >)
        requires
            now.in_range(),
        ensures
            match r {
                Ok((msg, left)) => (final(self)@, Ok::<_, ErrorView>((msg.deep_view(), left as nat))),
                Err(e) => (final(self)@, Err(e.deep_view())),
            } == old(self)@.dequeue(token@, thread.deep_view(), now),
            old(self)@.sound() ==> final(self)@.sound(),
    {
        proof {
            if self@.sound() {
                invariants::law_fetch_sound(self@, token@, thread.deep_view(), now);
            }
        }
        self.gc_tokens(now);
        self.fetch(token, thread, now.instant)
    }

    fn fetch(&mut self, token: &str, thread: Option<&str>, now: Instant) -> (r: Result<
        (Option<QueuedMessage>, usize),
        Error,
    >)
        ensures
            match r {
                Ok((msg, left)) => (final(self)@, Ok::<_, ErrorView>((msg.deep_view(), left as nat))),
                Err(e) => (final(self)@, Err(e.deep_view())),
            } == old(self)@.fetch(token@, thread.deep_view(), now),
    {
        let name = match self.reader(token) {
            Err(e) => return Err(e),
            Ok(None) => {
                self.touch(token, now);
                return Ok((None, 0));
            },
            Ok(Some(name)) => name,
        };
        if let Some(mut st) = self.tokens.remove(token) {
            st.last_active = now;
            st.notify_suppressed = false;
            let _ = self.tokens.insert(token.to_owned(), st);
        }
        assert(self@ =~= old(self)@.set_token(
            token@,
            ListenView { last_active: now, notify_suppressed: false, ..old(self)@.tokens[token@] },
        ));
        let msg = match thread {
            Some(t) => self.pop_thread(name.as_str(), t),
            None => self.pop(name.as_str()),
        };
        let left: usize = self.queue_len(name.as_str());
        Ok((msg, left))
    }

    /// How many messages wait for the holder of a token.
    pub fn pending_count(&self, token: &str) -> (r: Result<usize, Error>)
        ensures
            match self@.reader(token@) {
                Err(e) => error::outcome(r) == Err::<usize, ErrorView>(e),
                Ok(None) => r matches Ok(n) && n == 0,
                Ok(Some(name)) => r matches Ok(n) && n == self@.queue(name).len(),
            },
    {
        match self.reader(token) {
            Err(e) => Err(e),
            Ok(None) => Ok(0),
            Ok(Some(name)) => Ok(self.queue_len(name.as_str())),
        }
    }

    /// The number of the latest message for the holder of a token; none before the first.
    pub fn latest_message_id(&self, token: &str) -> (r: Result<Option<u64>, Error>)
        ensures
            match self@.reader(token@) {
                Err(e) => error::outcome(r) == Err::<Option<u64>, ErrorView>(e),
                Ok(_) => r matches Ok(id) && id == if self@.tokens[token@].msg_id == 0 {
                    None
                } else {
                    Some(self@.tokens[token@].msg_id)
                },
            },
    {
        match self.tokens.get(token) {
            None => Err(Error::TokenRejected),
            Some(st) => if st.revoked {
                Err(Error::TokenRevoked)
            } else if st.msg_id == 0 {
                Ok(None)
            } else {
                Ok(Some(st.msg_id))
            },
        }
    }

    /// The next step in a wait for a message whose number lies beyond `since`. Only the beginning
    /// asks for a token in order; after that the wait ends with a message, with the token, or with
    /// the time.
    pub fn wait_for_new_message_id(&self, token: &str, since: u64, event: WaitEvent) -> (r: Result<
        WaitAction,
        Error,
    >)
        ensures
            error::outcome(r) == self@.waiting_for(token@, since, event),
    {
        match event {
            WaitEvent::Over => Ok(WaitAction::Stop),
            _ => match self.tokens.get(token) {
                None => if event == WaitEvent::Begun {
                    Err(Error::TokenRejected)
                } else {
                    Ok(WaitAction::Stop)
                },
                Some(st) => if event == WaitEvent::Begun && st.revoked {
                    Err(Error::TokenRevoked)
                } else if st.msg_id > since {
                    Ok(WaitAction::Found(st.msg_id))
                } else {
                    Ok(WaitAction::Wait)
                },
            },
        }
    }

    /// The message that came last, left in the queue.
    pub fn peek_latest_message(&self, token: &str) -> (r: Result<Option<QueuedMessage>, Error>)
        ensures
            error::outcome(r) == match self@.reader(token@) {
                Err(e) => Err(e),
                Ok(None) => Ok(None),
                Ok(Some(name)) => if self@.queue(name).len() == 0 {
                    Ok(None)
                } else {
                    Ok(Some(self@.queue(name).last()))
                },
            },
    {
        match self.reader(token) {
            Err(e) => Err(e),
            Ok(None) => Ok(None),
            Ok(Some(name)) => match self.queues.get(name.as_str()) {
                None => Ok(None),
                Some(q) => if q.messages.len() == 0 {
                    Ok(None)
                } else {
                    let last = &q.messages[q.messages.len() - 1];
                    Ok(Some(last.copy()))
                },
            },
        }
    }

    /// Hands out the messages of a thread, or all where none is named; the others stay in the
    /// queue.
    pub fn drain_queue(&mut self, token: &str, thread: Option<&str>) -> (r: Result<
        Vec<QueuedMessage>,
        Error,
    >)
        ensures
            (final(self)@, error::outcome(r)) == old(self)@.drain(token@, thread.deep_view()),
            old(self)@.sound() ==> final(self)@.sound(),
    {
        proof {
            if self@.sound() {
                invariants::law_drain_sound(self@, token@, thread.deep_view());
            }
        }
        let name = match self.reader(token) {
            Err(e) => return Err(e),
            Ok(None) => {
                let none: Vec<QueuedMessage> = Vec::new();
                assert(none.deep_view() =~= seq![]);
                return Ok(none);
            },
            Ok(Some(name)) => name,
        };
        if let Some(mut st) = self.tokens.remove(token) {
            st.notify_suppressed = false;
            let _ = self.tokens.insert(token.to_owned(), st);
        }
        let queue = match self.queues.remove(name.as_str()) {
            Some(q) => q.messages,
            None => std::collections::VecDeque::new(),
        };
        assert(queue.deep_view() =~= old(self)@.queue(name@));
        let (out, left) = pick_thread(queue, thread);
        if left.len() == 0 {
            self.kick_pending.remove(name.as_str());
        }
        let mailbox = Mailbox { messages: left };
        let _ = self.queues.insert(name, mailbox);
        assert(self@ =~= old(self)@.drain(token@, thread.deep_view()).0);
        Ok(out)
    }
}

} // verus!
