//! Grants: making them, asking for them, and refusing them.

use crate::clock;
use crate::clock::{Duration, Instant, Moment, SystemTime};
use crate::delivery::governance;
use crate::delivery::governance::wall_end_of;
use crate::delivery::hub::DeliveryHub;
use crate::delivery::messaging::system_message;
use crate::delivery::model;
use crate::delivery::model::HubModel;
use crate::delivery::{
    ApproveStatus, BlockView, ConnectionRequest, ConnectionStage, DenialBlock, Effect, EffectView,
    ListenView, RequestView, StoreWrite, StoreWriteView, GRANT_REQUEST_TIMEOUT,
};
use crate::error;
use crate::error::{Error, ErrorView};
use crate::events;
use crate::laws::invariants;
use crate::strmap;
use crate::text;
use crate::text::same;
use crate::trust;
use crate::trust::{
    AllGrantItem, ApproveGrantRequest, Ask, GrantDirection, GrantListItem, GrantMediation, Terms,
};
use crate::types::{copy_opt, GovernorToken};
use vstd::prelude::*;

verus! {

/// The stored name of a direction.
pub open spec fn direction_name(d: GrantDirection) -> Seq<char> {
    match d {
        GrantDirection::Symmetric => "symmetric"@,
        GrantDirection::AToB => "a_to_b"@,
        GrantDirection::BToA => "b_to_a"@,
    }
}

/// The stored name of a direction.
pub fn direction_text(d: GrantDirection) -> (s: &'static str)
    ensures
        s@ == direction_name(d),
{
    match d {
        GrantDirection::Symmetric => "symmetric",
        GrantDirection::AToB => "a_to_b",
        GrantDirection::BToA => "b_to_a",
    }
}

/// The stored name of a mediation.
pub open spec fn mediation_name(m: GrantMediation) -> Seq<char> {
    match m {
        GrantMediation::Bypass => "bypass"@,
        GrantMediation::Inspect => "inspect"@,
        GrantMediation::Notify => "notify"@,
    }
}

/// The stored name of a mediation.
pub fn mediation_text(m: GrantMediation) -> (s: &'static str)
    ensures
        s@ == mediation_name(m),
{
    match m {
        GrantMediation::Bypass => "bypass",
        GrantMediation::Inspect => "inspect",
        GrantMediation::Notify => "notify",
    }
}

/// The sooner of two expiries; none lasts longest.
pub open spec fn sooner(a: Option<Duration>, b: Option<Duration>) -> Option<Duration> {
    match (a, b) {
        (None, None) => None,
        (Some(x), None) => Some(x),
        (None, Some(y)) => Some(y),
        (Some(x), Some(y)) => Some(
            if x <= y {
                x
            } else {
                y
            },
        ),
    }
}

fn sooner_of(a: Option<Duration>, b: Option<Duration>) -> (r: Option<Duration>)
    ensures
        r == sooner(a, b),
{
    match (a, b) {
        (None, None) => None,
        (Some(x), None) => Some(x),
        (None, Some(y)) => Some(y),
        (Some(x), Some(y)) => if x <= y {
            Some(x)
        } else {
            Some(y)
        },
    }
}

impl HubModel {
    /// The name of the holder of a token.
    pub open spec fn name_of(self, token: Seq<char>) -> Option<Seq<char>> {
        if self.token_to_name.contains_key(token) {
            Some(self.token_to_name[token])
        } else {
            None
        }
    }

    /// The terms of a grant, with the names of the parties filled in where they are known.
    pub open spec fn named_terms(self, a: Seq<char>, b: Seq<char>, terms: Terms) -> Terms {
        Terms {
            name_a: if terms.name_a is None {
                self.name_of(a)
            } else {
                terms.name_a
            },
            name_b: if terms.name_b is None {
                self.name_of(b)
            } else {
                terms.name_b
            },
            ..terms
        }
    }

    /// A governor makes a grant between two identities.
    pub open spec fn approve_grant(
        self,
        governor: Seq<char>,
        a: Seq<char>,
        b: Seq<char>,
        expiry: Option<Duration>,
        terms: Terms,
        now: Moment,
    ) -> (HubModel, Result<Seq<char>, ErrorView>) {
        let named = self.named_terms(a, b, terms);
        let (trust, r) = self.trust.approve(governor, a, b, expiry, named, now.instant);
        match r {
            Err(e) => (self, Err(e)),
            Ok(id) => (
                HubModel { trust, ..self }.store(
                    StoreWriteView::UpsertGrant {
                        id,
                        identity_a: a,
                        identity_b: b,
                        direction: direction_name(named.chosen_direction()),
                        mediation: mediation_name(named.chosen_mediation()),
                        max_messages: named.max_messages,
                        conditions: named.conditions,
                        opens_reply_window: named.chosen_window(),
                        expires_at: governance::wall_end(now, expiry),
                        governor_id: governor,
                        name_a: named.name_a,
                        name_b: named.name_b,
                    },
                ),
                Ok(id),
            ),
        }
    }

    /// The request under `id` is for the pair.
    pub open spec fn is_for(self, id: Seq<char>, from: Seq<char>, to: Seq<char>) -> bool {
        self.requests.contains_key(id) && self.requests[id].from_name == from
            && self.requests[id].to_name == to
    }

    /// The request under `id` is the first for the pair.
    pub open spec fn first_for(self, id: Seq<char>, from: Seq<char>, to: Seq<char>) -> bool {
        self.is_for(id, from, to) && forall|k: Seq<char>| #[trigger]
            self.is_for(k, from, to) ==> !text::lex_lt(k, id)
    }

    /// The identifier of the next request.
    pub open spec fn next_request(self) -> Seq<char> {
        trust::numbered("req"@, (self.req_counter + 1) as nat)
    }

    /// Where a request starts: with the governor, or with the recipient where nobody governs.
    pub open spec fn first_stage(self) -> ConnectionStage {
        if self.trust.governed() {
            ConnectionStage::PendingGovernor
        } else {
            ConnectionStage::PendingRecipient
        }
    }

    /// In whose name the grant will be made; still open where someone governs.
    pub open spec fn first_authority(self) -> Option<Seq<char>> {
        if self.trust.governed() {
            None
        } else {
            Some("recipient-consent"@)
        }
    }

    /// A request is on record, or why it is not: a held one taken up again, an expired one
    /// renewed, or a new one.
    pub open spec fn file_request(
        self,
        token: Seq<char>,
        from: Seq<char>,
        to: Seq<char>,
        reason: Option<Seq<char>>,
        update_id: Option<Seq<char>>,
        now: Instant,
    ) -> (HubModel, Result<Seq<char>, ErrorView>) {
        let end = (now + GRANT_REQUEST_TIMEOUT) as Instant;
        match update_id {
            Some(id) => if !self.requests.contains_key(id) {
                (self, Err(ErrorView::BadRequest))
            } else if self.requests[id].from_name != from {
                (self, Err(ErrorView::Forbidden))
            } else {
                let req = RequestView {
                    reason,
                    stage: self.first_stage(),
                    approving_governor: if self.trust.governed() {
                        self.requests[id].approving_governor
                    } else {
                        self.first_authority()
                    },
                    expires_at: end,
                    ..self.requests[id]
                };
                (HubModel { requests: self.requests.insert(id, req), ..self }, Ok(id))
            },
            None => if exists|id: Seq<char>| self.first_for(id, from, to) {
                let id = choose|id: Seq<char>| self.first_for(id, from, to);
                if now < self.requests[id].expires_at {
                    (self, Err(ErrorView::RequestPending))
                } else {
                    let req = RequestView {
                        reason,
                        stage: self.first_stage(),
                        governor_expiry: None,
                        recipient_expiry: None,
                        approving_governor: self.first_authority(),
                        expires_at: end,
                        ..self.requests[id]
                    };
                    (HubModel { requests: self.requests.insert(id, req), ..self }, Ok(id))
                }
            } else {
                let id = self.next_request();
                let req = RequestView {
                    request_id: id,
                    from_name: from,
                    to_name: to,
                    from_identity: token,
                    to_identity: self.agents[to],
                    reason,
                    stage: self.first_stage(),
                    governor_expiry: None,
                    recipient_expiry: None,
                    approving_governor: self.first_authority(),
                    expires_at: end,
                };
                (
                    HubModel {
                        req_counter: (self.req_counter + 1) as u64,
                        requests: self.requests.insert(id, req),
                        ..self
                    },
                    Ok(id),
                )
            },
        }
    }

    /// Whoever decides on a request first is told of it.
    pub open spec fn announce_request(
        self,
        id: Seq<char>,
        from: Seq<char>,
        to: Seq<char>,
        reason: Option<Seq<char>>,
    ) -> HubModel {
        if self.trust.governed() {
            self.emit(
                EffectView::Governors { text: events::governor_request(id, from, to, reason) },
            )
        } else {
            self.deliver(
                to,
                model::system_message(
                    events::consent_request(id, from, reason),
                    "grant_request"@,
                ),
            ).ring(to)
        }
    }

    /// A participant asks for a grant to write to another.
    pub open spec fn request_grant(
        self,
        token: Seq<char>,
        to: Seq<char>,
        reason: Option<Seq<char>>,
        update_id: Option<Seq<char>>,
        now: Moment,
    ) -> (HubModel, Result<Seq<char>, ErrorView>) {
        if !self.tokens.contains_key(token) {
            (self, Err(ErrorView::AuthFailed))
        } else if self.tokens[token].revoked {
            (self, Err(ErrorView::TokenRevoked))
        } else if self.denied(token, to, now) {
            (self, Err(ErrorView::GrantBlocked(self.blocks[(token, to)].reason)))
        } else {
            let m = self.forget_block(token, to);
            let from = match self.name_of(token) {
                Some(n) => n,
                None => seq![],
            };
            if !m.agents.contains_key(to) {
                (m, Err(ErrorView::RecipientUnknown))
            } else {
                match m.file_request(token, from, to, reason, update_id, now.instant) {
                    (filed, Ok(id)) => (filed.announce_request(id, from, to, reason), Ok(id)),
                    (same, Err(e)) => (same, Err(e)),
                }
            }
        }
    }

    /// The token is that of the recipient of a request.
    pub open spec fn is_recipient(self, token: Seq<char>, req: RequestView) -> bool {
        self.tokens.contains_key(token) && token == req.to_identity
    }

    /// A governor that may act now.
    pub open spec fn is_governor(self, token: Seq<char>, now: Moment) -> bool {
        self.trust.verify(token, now.instant) is Ok
    }

    /// The governor approved; the recipient is asked, and has as long as a new request.
    pub open spec fn pass_on(
        self,
        id: Seq<char>,
        req: RequestView,
        governor: Seq<char>,
        expiry: Option<Duration>,
        now: Instant,
    ) -> HubModel {
        let passed = RequestView {
            governor_expiry: expiry,
            approving_governor: Some(governor),
            stage: ConnectionStage::PendingRecipient,
            expires_at: (now + GRANT_REQUEST_TIMEOUT) as Instant,
            ..req
        };
        HubModel { requests: self.requests.insert(id, passed), ..self }.deliver(
            req.to_name,
            model::system_message(
                events::recipient_request(id, req.from_name, req.reason),
                "grant_request"@,
            ),
        ).ring(req.to_name)
    }

    /// A token has had a grant.
    pub open spec fn mark_granted(self, token: Seq<char>) -> HubModel {
        if self.tokens.contains_key(token) {
            self.set_token(token, ListenView { ever_granted: true, ..self.tokens[token] })
        } else {
            self
        }
    }

    /// A token that is not revoked is bound to the name.
    pub open spec fn keeps_row(self, name: Seq<char>) -> bool {
        self.name_to_token.contains_key(name) && !(self.tokens.contains_key(self.name_to_token[name])
            && self.tokens[self.name_to_token[name]].revoked)
    }

    /// The token bound to a name is written down, unless it is revoked.
    pub open spec fn store_participant(self, name: Seq<char>) -> HubModel {
        if self.keeps_row(name) {
            self.store(
                StoreWriteView::UpsertToken {
                    token: self.name_to_token[name],
                    identity: name,
                    token_type: "participant"@,
                    expires_at: None,
                },
            )
        } else {
            self
        }
    }

    /// Everyone approved: the grant under `grant_id`, which stands until `expires_at`, has been made,
    /// the parties are told and the request is done.
    pub open spec fn conclude(
        self,
        id: Seq<char>,
        req: RequestView,
        authority: Seq<char>,
        grant_id: Seq<char>,
        expires_at: Option<SystemTime>,
    ) -> HubModel {
        let told = self.deliver(
            req.from_name,
            model::system_message(
                events::grant_established(id, req.to_name),
                "grant_established"@,
            ),
        );
        let bell = told.bell(req.from_name);
        let marked = told.hush(req.from_name).mark_granted(req.from_identity).mark_granted(
            req.to_identity,
        );
        let text = events::identity_persisted();
        HubModel { requests: marked.requests.remove(id), ..marked }.push(
            marked.stream_of(req.from_identity),
            text,
        ).push(marked.stream_of(req.to_identity), text).push(
            bell,
            events::notify(told.queue(req.from_name).len()),
        ).store(
            StoreWriteView::UpsertGrant {
                id: grant_id,
                identity_a: req.from_identity,
                identity_b: req.to_identity,
                direction: "symmetric"@,
                mediation: "bypass"@,
                max_messages: None,
                conditions: None,
                opens_reply_window: true,
                expires_at,
                governor_id: authority,
                name_a: Some(req.from_name),
                name_b: Some(req.to_name),
            },
        ).store_participant(req.from_name).store_participant(req.to_name)
    }

    /// The recipient, or a governor in its place, approves: the grant is made, for the sooner of
    /// the two expiries.
    pub open spec fn consent(
        self,
        id: Seq<char>,
        req: RequestView,
        expiry: Option<Duration>,
        now: Moment,
    ) -> (HubModel, Result<ApproveStatus, ErrorView>) {
        match req.approving_governor {
            None => {
                let noted = RequestView { recipient_expiry: expiry, ..req };
                (
                    HubModel { requests: self.requests.insert(id, noted), ..self },
                    Err(ErrorView::BadRequest),
                )
            },
            Some(authority) => {
                let terms = Terms {
                    name_a: Some(req.from_name),
                    name_b: Some(req.to_name),
                    ..Terms::open_terms()
                };
                let until = sooner(req.governor_expiry, expiry);
                let (trust, r) = if authority == "recipient-consent"@ {
                    (
                        self.trust.granted(
                            authority,
                            req.from_identity,
                            req.to_identity,
                            until,
                            terms,
                            now.instant,
                        ),
                        Ok(self.trust.next("grant"@)),
                    )
                } else {
                    self.trust.approve(
                        authority,
                        req.from_identity,
                        req.to_identity,
                        until,
                        terms,
                        now.instant,
                    )
                };
                match r {
                    Err(e) => (
                        HubModel { requests: self.requests.remove(id), ..self },
                        Err(e),
                    ),
                    Ok(grant_id) => (
                        HubModel { trust, ..self }.conclude(
                            id,
                            req,
                            authority,
                            grant_id,
                            governance::wall_end(now, until),
                        ),
                        Ok(ApproveStatus::Established),
                    ),
                }
            },
        }
    }

    /// The time of a request is up.
    pub open spec fn lapsed(self, id: Seq<char>, now: Moment) -> bool {
        self.requests[id].expires_at <= now.instant
    }

    /// A request is gone.
    pub open spec fn drop_request(self, id: Seq<char>) -> HubModel {
        HubModel { requests: self.requests.remove(id), ..self }
    }

    /// A request is approved: first by a governor, then by the recipient. One whose time is up is
    /// gone.
    pub open spec fn approve_request(
        self,
        token: Seq<char>,
        id: Seq<char>,
        expiry: Option<Duration>,
        now: Moment,
    ) -> (HubModel, Result<ApproveStatus, ErrorView>) {
        if !self.requests.contains_key(id) {
            (self, Err(ErrorView::BadRequest))
        } else if self.lapsed(id, now) {
            (self.drop_request(id), Err(ErrorView::BadRequest))
        } else {
            let req = self.requests[id];
            match req.stage {
                ConnectionStage::PendingGovernor => if self.is_governor(token, now) {
                    (
                        self.pass_on(id, req, token, expiry, now.instant),
                        Ok(ApproveStatus::PendingRecipient),
                    )
                } else {
                    (self, Err(ErrorView::Forbidden))
                },
                ConnectionStage::PendingRecipient => if self.is_governor(token, now)
                    || self.is_recipient(token, req) {
                    self.consent(id, req, expiry, now)
                } else {
                    (self, Err(ErrorView::Forbidden))
                },
            }
        }
    }

    /// A request is denied: the requester is told, and may not ask or write again until the
    /// denial ends. A request whose time is up is gone.
    pub open spec fn deny_request(
        self,
        token: Seq<char>,
        id: Seq<char>,
        reason: Seq<char>,
        expires_at: Option<u64>,
        now: Moment,
    ) -> (HubModel, Result<(), ErrorView>) {
        if !self.requests.contains_key(id) {
            (self, Err(ErrorView::BadRequest))
        } else if self.lapsed(id, now) {
            (self.drop_request(id), Err(ErrorView::BadRequest))
        } else {
            let req = self.requests[id];
            if !self.is_governor(token, now) && !self.is_recipient(token, req) {
                (self, Err(ErrorView::Forbidden))
            } else {
                (
                    HubModel {
                        blocks: self.blocks.insert(
                            (req.from_identity, req.to_name),
                            BlockView { reason, expires_at },
                        ),
                        requests: self.requests.remove(id),
                        ..self
                    }.deliver(
                        req.from_name,
                        model::system_message(
                            events::grant_denied(id, req.to_name, reason),
                            "grant_denied"@,
                        ),
                    ).ring(req.from_name).store(
                        StoreWriteView::UpsertDenialBlock {
                            from_identity: req.from_identity,
                            to_name: req.to_name,
                            reason,
                            expires_at,
                        },
                    ),
                    Ok(()),
                )
            }
        }
    }

    /// A denial is taken back.
    pub open spec fn unblock(self, token: Seq<char>, from: Seq<char>, to: Seq<char>, now: Moment) -> (
        HubModel,
        Result<(), ErrorView>,
    ) {
        if self.is_governor(token, now) {
            (
                self.forget_block(from, to).store(
                    StoreWriteView::DeleteDenialBlock { from_identity: from, to_name: to },
                ),
                Ok(()),
            )
        } else {
            (self, Err(ErrorView::Forbidden))
        }
    }

    /// A governor denies a pair without being asked.
    pub open spec fn block(
        self,
        governor: Seq<char>,
        from: Seq<char>,
        to: Seq<char>,
        reason: Seq<char>,
        expires_at: Option<u64>,
        now: Moment,
    ) -> (HubModel, Result<(), ErrorView>) {
        match self.trust.verify(governor, now.instant) {
            Err(e) => (self, Err(e)),
            Ok(_) => (
                HubModel {
                    blocks: self.blocks.insert((from, to), BlockView { reason, expires_at }),
                    ..self
                }.store(
                    StoreWriteView::UpsertDenialBlock {
                        from_identity: from,
                        to_name: to,
                        reason,
                        expires_at,
                    },
                ),
                Ok(()),
            ),
        }
    }

    /// A token whose holder is named like one of two identities.
    pub open spec fn named_like(self, token: Seq<char>, a: Seq<char>, b: Seq<char>) -> bool {
        self.token_to_name.contains_key(token) && (self.token_to_name[token] == a
            || self.token_to_name[token] == b)
    }

    /// The first of those tokens.
    pub open spec fn first_named_like(self, token: Seq<char>, a: Seq<char>, b: Seq<char>) -> bool {
        self.named_like(token, a, b) && forall|k: Seq<char>| #[trigger]
            self.named_like(k, a, b) ==> !text::lex_lt(k, token)
    }

    /// The stream on which a party of a revoked grant is told: that of its name, or that of a
    /// holder named like one of the identities where the grant has no name.
    pub open spec fn party_stream(self, name: Option<Seq<char>>, a: Seq<char>, b: Seq<char>) -> Option<u64> {
        match name {
            Some(n) => if self.name_to_token.contains_key(n) {
                self.stream_of(self.name_to_token[n])
            } else {
                None
            },
            None => if exists|t: Seq<char>| self.first_named_like(t, a, b) {
                self.stream_of(choose|t: Seq<char>| self.first_named_like(t, a, b))
            } else {
                None
            },
        }
    }

    /// A grant is revoked and its parties are told.
    pub open spec fn revoke_grant(self, id: Seq<char>, governor: Seq<char>, now: Moment) -> (
        HubModel,
        Result<(), ErrorView>,
    ) {
        match self.trust.verify(governor, now.instant) {
            Err(e) => (self, Err(e)),
            Ok(_) => match self.trust.grant(id) {
                None => (self, Err(ErrorView::NoGrant)),
                Some(g) => {
                    let a = self.party_stream(g.name_a, g.identity_a, g.identity_b);
                    let b = self.party_stream(g.name_b, g.identity_a, g.identity_b);
                    let text = events::grant_revoked(id);
                    (
                        HubModel { trust: self.trust.remove_grant(id), ..self }.push(a, text).push(
                            b,
                            text,
                        ).store(StoreWriteView::DeleteGrant { grant_id: id }),
                        Ok(()),
                    )
                },
            },
        }
    }

    /// A request is put on hold: it is back with the governor, and the requester is asked to say
    /// more.
    pub open spec fn hold_request(self, token: Seq<char>, id: Seq<char>, reason: Seq<char>, now: Moment) -> (
        HubModel,
        Result<(), ErrorView>,
    ) {
        if !self.requests.contains_key(id) {
            (self, Err(ErrorView::BadRequest))
        } else if self.lapsed(id, now) {
            (self.drop_request(id), Err(ErrorView::BadRequest))
        } else {
            let req = self.requests[id];
            if !self.is_governor(token, now) && !self.is_recipient(token, req) {
                (self, Err(ErrorView::Forbidden))
            } else {
                let held = RequestView { stage: ConnectionStage::PendingGovernor, ..req };
                (
                    HubModel { requests: self.requests.insert(id, held), ..self }.deliver(
                        req.from_name,
                        model::system_message(
                            events::grant_held(id, req.to_name, reason),
                            "grant_held"@,
                        ),
                    ).ring(req.from_name),
                    Ok(()),
                )
            }
        }
    }

    /// A message could pass between the two, in one direction or the other.
    pub open spec fn linked(
        self,
        a: Seq<char>,
        b: Seq<char>,
        name_a: Option<Seq<char>>,
        name_b: Option<Seq<char>>,
        now: Instant,
    ) -> bool {
        self.trust.check(Ask { from: a, to: b, from_name: name_a, to_name: name_b }, now) is Ok
            || self.trust.check(Ask { from: b, to: a, from_name: name_b, to_name: name_a }, now) is Ok
    }

    /// The identity by which a name is looked up among the grants: its token, or what is known
    /// of it.
    pub open spec fn target_identity(self, name: Seq<char>) -> Option<Seq<char>> {
        if self.name_to_token.contains_key(name) {
            Some(self.name_to_token[name])
        } else if self.agents.contains_key(name) {
            Some(self.agents[name])
        } else {
            None
        }
    }

    /// The holder of a token that is in order has a grant with `to`.
    pub open spec fn has_grant_with(self, token: Seq<char>, to: Seq<char>, now: Instant) -> bool {
        self.tokens.contains_key(token) && !self.tokens[token].revoked && match self.target_identity(
            to,
        ) {
            Some(id) => self.linked(token, id, self.tokens[token].name, Some(to), now),
            None => false,
        }
    }
}

impl DeliveryHub {
    fn name_of(&self, token: &str) -> (r: Option<String>)
        ensures
            r.deep_view() == self@.name_of(token@),
    {
        match self.token_to_name.get(token) {
            Some(n) => Some(n.clone()),
            None => None,
        }
    }

    /// A governor makes a grant on open terms.
    pub fn approve_grant(
        &mut self,
        gov: &GovernorToken,
        id_a: &str,
        id_b: &str,
        expiry: Option<Duration>,
        now: Moment,
    ) -> (r: Result<String, Error>)
        requires
            old(self)@.trust.can_number(),
            now.in_range(),
        ensures
            (final(self)@, error::outcome(r)) == old(self)@.approve_grant(
                gov.0@,
                id_a@,
                id_b@,
                expiry,
                Terms::open_terms(),
                now,
            ),
            old(self)@.sound() ==> final(self)@.sound(),
    {
        self.approve_grant_req(gov, id_a, id_b, expiry, ApproveGrantRequest::default(), now)
    }

    /// A governor makes a grant. The names of the parties are filled in where they are known.
    pub fn approve_grant_req(
        &mut self,
        gov: &GovernorToken,
        id_a: &str,
        id_b: &str,
        expiry: Option<Duration>,
        req: ApproveGrantRequest,
        now: Moment,
    ) -> (r: Result<String, Error>)
        requires
            old(self)@.trust.can_number(),
            now.in_range(),
        ensures
            (final(self)@, error::outcome(r)) == old(self)@.approve_grant(
                gov.0@,
                id_a@,
                id_b@,
                expiry,
                req.deep_view(),
                now,
            ),
            old(self)@.sound() ==> final(self)@.sound(),
    {
        proof {
            if self@.sound() {
                invariants::law_grant_sound(
                    self@,
                    gov.0@,
                    id_a@,
                    id_b@,
                    expiry,
                    req.deep_view(),
                    now,
                );
            }
        }
        let name_a = match req.name_a {
            Some(n) => Some(n),
            None => self.name_of(id_a),
        };
        let name_b = match req.name_b {
            Some(n) => Some(n),
            None => self.name_of(id_b),
        };
        let direction = match req.direction {
            Some(d) => d,
            None => GrantDirection::Symmetric,
        };
        let mediation = match req.mediation {
            Some(m) => m,
            None => GrantMediation::Bypass,
        };
        let window = match req.opens_reply_window {
            Some(w) => w,
            None => true,
        };
        let terms = ApproveGrantRequest {
            direction: req.direction,
            max_messages: req.max_messages,
            opens_reply_window: req.opens_reply_window,
            mediation: req.mediation,
            conditions: copy_opt(&req.conditions),
            name_a: copy_opt(&name_a),
            name_b: copy_opt(&name_b),
        };
        assert(terms.deep_view() == self@.named_terms(id_a@, id_b@, req.deep_view()));
        match self.trust.approve_grant_req(gov.0.as_str(), id_a, id_b, expiry, terms, now.instant) {
            Err(e) => Err(e),
            Ok(id) => {
                let expires_at = wall_end_of(now, expiry);
                self.store(
                    StoreWrite::UpsertGrant {
                        id: id.clone(),
                        identity_a: id_a.to_owned(),
                        identity_b: id_b.to_owned(),
                        direction: direction_text(direction).to_owned(),
                        mediation: mediation_text(mediation).to_owned(),
                        max_messages: req.max_messages,
                        conditions: req.conditions,
                        opens_reply_window: window,
                        expires_at,
                        governor_id: gov.0.clone(),
                        name_a,
                        name_b,
                    },
                );
                Ok(id)
            },
        }
    }

    /// The first request for a pair.
    fn find_request(&self, from: &str, to: &str) -> (r: Option<String>)
        ensures
            match r {
                Some(id) => self@.first_for(id@, from@, to@) && forall|k: Seq<char>|
                    self@.first_for(k, from@, to@) ==> k == id@,
                None => forall|k: Seq<char>| !self@.first_for(k, from@, to@),
            },
    {
        let ids = self.requests.keys();
        let ghost ks = ids.deep_view();
        let mut i: usize = 0;
        while i < ids.len()
            invariant
                i <= ids@.len(),
                ks == ids.deep_view(),
                ks.to_set() == self@.requests.dom(),
                strmap::ascending(ks),
                forall|j: int| 0 <= j < i ==> !self@.is_for(#[trigger] ks[j], from@, to@),
            decreases ids@.len() - i,
        {
            assert(ks.to_set().contains(ks[i as int]));
            if let Some(req) = self.requests.get(ids[i].as_str()) {
                if same(req.from_name.as_str(), from) && same(req.to_name.as_str(), to) {
                    let id = ids[i].clone();
                    proof {
                        assert(self@.is_for(id@, from@, to@));
                        assert forall|k: Seq<char>| #[trigger] self@.is_for(k, from@, to@) implies !text::lex_lt(
                            k,
                            id@,
                        ) by {
                            assert(ks.to_set().contains(k));
                            let j = ks.index_of(k);
                            assert(ks[j] == k);
                            if j == i {
                                text::lemma_lex_irreflexive(k);
                            } else {
                                assert(text::lex_lt(ks[i as int], ks[j]));
                                if text::lex_lt(k, id@) {
                                    text::lemma_lex_transitive(k, id@, k);
                                    text::lemma_lex_irreflexive(k);
                                }
                            }
                        }
                        assert(self@.first_for(id@, from@, to@));
                        assert forall|k: Seq<char>| self@.first_for(k, from@, to@) implies k == id@ by {
                            assert(self@.is_for(k, from@, to@));
                            text::lemma_lex_total(k, id@);
                        }
                    }
                    return Some(id);
                }
            }
            i += 1;
        }
        assert forall|k: Seq<char>| !self@.first_for(k, from@, to@) by {
            if self@.is_for(k, from@, to@) {
                assert(ks.to_set().contains(k));
                assert(ks[ks.index_of(k)] == k);
            }
        }
        None
    }

    fn file_request(
        &mut self,
        token: &str,
        from: &str,
        to: &str,
        reason: &Option<String>,
        update_id: Option<&str>,
        now: Instant,
    ) -> (r: Result<String, Error>)
        requires
            old(self)@.req_counter < u64::MAX,
            now <= clock::LAST_INSTANT,
            old(self)@.agents.contains_key(to@),
        ensures
            (final(self)@, error::outcome(r)) == old(self)@.file_request(
                token@,
                from@,
                to@,
                reason.deep_view(),
                update_id.deep_view(),
                now,
            ),
    {
        let end: Instant = now + GRANT_REQUEST_TIMEOUT;
        let governed = self.trust.has_active_governor();
        let stage = if governed {
            ConnectionStage::PendingGovernor
        } else {
            ConnectionStage::PendingRecipient
        };
        let authority = if governed {
            None
        } else {
            Some("recipient-consent".to_owned())
        };
        if let Some(uid) = update_id {
            match self.requests.get(uid) {
                None => return Err(Error::BadRequest),
                Some(req) => if !same(req.from_name.as_str(), from) {
                    return Err(Error::Forbidden);
                },
            }
            if let Some(mut req) = self.requests.remove(uid) {
                req.reason = copy_opt(reason);
                req.stage = stage;
                if !governed {
                    req.approving_governor = authority;
                }
                req.expires_at = end;
                let _ = self.requests.insert(uid.to_owned(), req);
            }
            assert(self@ =~= old(self)@.file_request(
                token@,
                from@,
                to@,
                reason.deep_view(),
                update_id.deep_view(),
                now,
            ).0);
            return Ok(uid.to_owned());
        }
        if let Some(id) = self.find_request(from, to) {
            assert(self@.is_for(id@, from@, to@));
            let pending = match self.requests.get(id.as_str()) {
                Some(req) => now < req.expires_at,
                None => false,
            };
            if pending {
                return Err(Error::RequestPending);
            }
            if let Some(mut req) = self.requests.remove(id.as_str()) {
                req.reason = copy_opt(reason);
                req.stage = stage;
                req.governor_expiry = None;
                req.recipient_expiry = None;
                req.approving_governor = authority;
                req.expires_at = end;
                let _ = self.requests.insert(id.clone(), req);
            }
            assert(self@ =~= old(self)@.file_request(
                token@,
                from@,
                to@,
                reason.deep_view(),
                update_id.deep_view(),
                now,
            ).0);
            return Ok(id);
        }
        let numeral = text::decimal_text(self.req_counter + 1);
        let id = text::join3("req", "-", numeral.as_str());
        let to_identity = match self.agents.get(to) {
            Some(identity) => identity.clone(),
            None => String::new(),
        };
        self.req_counter = self.req_counter + 1;
        let _ = self.requests.insert(
            id.clone(),
            ConnectionRequest {
                request_id: id.clone(),
                from_name: from.to_owned(),
                to_name: to.to_owned(),
                from_identity: token.to_owned(),
                to_identity,
                reason: copy_opt(reason),
                stage,
                governor_expiry: None,
                recipient_expiry: None,
                approving_governor: authority,
                expires_at: end,
            },
        );
        Ok(id)
    }

    /// A participant asks for a grant to write to another. `update_id` takes up a request that
    /// was put on hold.
    pub fn request_grant(
        &mut self,
        from_token_str: &str,
        to_name: &str,
        reason: Option<String>,
        update_id: Option<&str>,
        now: Moment,
    ) -> (r: Result<String, Error>)
        requires
            old(self)@.ready(),
            now.in_range(),
        ensures
            (final(self)@, error::outcome(r)) == old(self)@.request_grant(
                from_token_str@,
                to_name@,
                reason.deep_view(),
                update_id.deep_view(),
                now,
            ),
            old(self)@.sound() ==> final(self)@.sound(),
    {
        proof {
            if self@.sound() {
                invariants::law_request_sound(
                    self@,
                    from_token_str@,
                    to_name@,
                    reason.deep_view(),
                    update_id.deep_view(),
                    now,
                );
            }
        }
        match self.tokens.get(from_token_str) {
            None => return Err(Error::AuthFailed),
            Some(st) => if st.revoked {
                return Err(Error::TokenRevoked);
            },
        }
        let from = match self.name_of(from_token_str) {
            Some(n) => n,
            None => {
                let none = String::new();
                assert(none@ =~= seq![]);
                none
            },
        };
        if self.denied(from_token_str, to_name, now) {
            if let Some(block) = self.blocks.get(from_token_str, to_name) {
                return Err(Error::GrantBlocked(block.reason.clone()));
            }
        }
        self.blocks.remove(from_token_str, to_name);
        if !self.agents.contains_key(to_name) {
            return Err(Error::RecipientUnknown);
        }
        let id = match self.file_request(
            from_token_str,
            from.as_str(),
            to_name,
            &reason,
            update_id,
            now.instant,
        ) {
            Ok(id) => id,
            Err(e) => return Err(e),
        };
        let reason_text = match &reason {
            Some(s) => Some(s.as_str()),
            None => None,
        };
        if self.trust.has_active_governor() {
            let event = events::governor_request_text(
                id.as_str(),
                from.as_str(),
                to_name,
                reason_text,
            );
            self.emit(Effect::Governors { text: event });
        } else {
            let text = events::consent_request_text(id.as_str(), from.as_str(), reason_text);
            self.deliver(to_name, system_message(text.as_str(), "grant_request"));
            self.ring(to_name);
        }
        Ok(id)
    }

    /// Drops a request whose time is up; true where it did.
    fn drop_lapsed(&mut self, id: &str, now: Moment) -> (r: bool)
        ensures
            r == (old(self)@.requests.contains_key(id@) && old(self)@.lapsed(id@, now)),
            final(self)@ == if r {
                old(self)@.drop_request(id@)
            } else {
                old(self)@
            },
    {
        let lapsed = match self.requests.get(id) {
            Some(req) => req.expires_at <= now.instant,
            None => false,
        };
        if lapsed {
            let _ = self.requests.remove(id);
        }
        lapsed
    }

    fn is_governor(&self, token: &str, now: Moment) -> (r: bool)
        ensures
            r == self@.is_governor(token@, now),
    {
        self.trust.verify_governor(token, now.instant).is_ok()
    }

    fn mark_granted(&mut self, token: &str)
        ensures
            final(self)@ == old(self)@.mark_granted(token@),
    {
        if let Some(mut st) = self.tokens.remove(token) {
            st.ever_granted = true;
            let _ = self.tokens.insert(token.to_owned(), st);
        }
        assert(self@ =~= old(self)@.mark_granted(token@));
    }

    fn store_participant(&mut self, name: &str)
        ensures
            final(self)@ == old(self)@.store_participant(name@),
    {
        let token = match self.name_to_token.get(name) {
            Some(t) => t.clone(),
            None => return ,
        };
        if let Some(st) = self.tokens.get(token.as_str()) {
            if st.revoked {
                return ;
            }
        }
        self.store(
            StoreWrite::UpsertToken {
                token,
                identity: name.to_owned(),
                token_type: "participant".to_owned(),
                expires_at: None,
            },
        );
    }

    fn pass_on(
        &mut self,
        id: &str,
        req: ConnectionRequest,
        governor: &str,
        expiry: Option<Duration>,
        now: Instant,
    )
        requires
            now <= clock::LAST_INSTANT,
        ensures
            final(self)@ == old(self)@.pass_on(id@, req.deep_view(), governor@, expiry, now),
    {
        let mut passed = req;
        let to = passed.to_name.clone();
        let text = {
            let reason = match &passed.reason {
                Some(s) => Some(s.as_str()),
                None => None,
            };
            events::recipient_request_text(id, passed.from_name.as_str(), reason)
        };
        passed.governor_expiry = expiry;
        passed.approving_governor = Some(governor.to_owned());
        passed.stage = ConnectionStage::PendingRecipient;
        passed.expires_at = now + GRANT_REQUEST_TIMEOUT;
        let _ = self.requests.insert(id.to_owned(), passed);
        self.deliver(to.as_str(), system_message(text.as_str(), "grant_request"));
        self.ring(to.as_str());
    }

    fn conclude(
        &mut self,
        id: &str,
        req: ConnectionRequest,
        authority: &str,
        grant_id: &str,
        expires_at: Option<SystemTime>,
    )
        ensures
            final(self)@ == old(self)@.conclude(
                id@,
                req.deep_view(),
                authority@,
                grant_id@,
                expires_at,
            ),
    {
        let from = req.from_name;
        let to = req.to_name;
        let text = events::grant_established_text(id, to.as_str());
        self.deliver(from.as_str(), system_message(text.as_str(), "grant_established"));
        let pending: usize = self.queue_len(from.as_str());
        let bell = self.take_bell(from.as_str());
        self.mark_granted(req.from_identity.as_str());
        self.mark_granted(req.to_identity.as_str());
        let from_stream = self.stream_of(req.from_identity.as_str());
        let to_stream = self.stream_of(req.to_identity.as_str());
        let _ = self.requests.remove(id);
        self.push(from_stream, events::identity_persisted_text());
        self.push(to_stream, events::identity_persisted_text());
        self.push(bell, events::notify_text(pending));
        self.store(
            StoreWrite::UpsertGrant {
                id: grant_id.to_owned(),
                identity_a: req.from_identity,
                identity_b: req.to_identity,
                direction: "symmetric".to_owned(),
                mediation: "bypass".to_owned(),
                max_messages: None,
                conditions: None,
                opens_reply_window: true,
                expires_at,
                governor_id: authority.to_owned(),
                name_a: Some(from.clone()),
                name_b: Some(to.clone()),
            },
        );
        self.store_participant(from.as_str());
        self.store_participant(to.as_str());
    }

    fn consent(&mut self, id: &str, req: ConnectionRequest, expiry: Option<Duration>, now: Moment) -> (r: Result<
        ApproveStatus,
        Error,
    >)
        requires
            old(self)@.trust.can_number(),
            now.in_range(),
        ensures
            (final(self)@, error::outcome(r)) == old(self)@.consent(id@, req.deep_view(), expiry, now),
    {
        let authority = match &req.approving_governor {
            Some(g) => g.clone(),
            None => {
                let mut noted = req;
                noted.recipient_expiry = expiry;
                let _ = self.requests.insert(id.to_owned(), noted);
                return Err(Error::BadRequest);
            },
        };
        let terms = ApproveGrantRequest {
            direction: None,
            max_messages: None,
            opens_reply_window: None,
            mediation: None,
            conditions: None,
            name_a: Some(req.from_name.clone()),
            name_b: Some(req.to_name.clone()),
        };
        let until = sooner_of(req.governor_expiry, expiry);
        let made = if same(authority.as_str(), "recipient-consent") {
            self.trust.create_consent_grant(
                req.from_identity.as_str(),
                req.to_identity.as_str(),
                until,
                terms,
                now.instant,
            )
        } else {
            self.trust.approve_grant_req(
                authority.as_str(),
                req.from_identity.as_str(),
                req.to_identity.as_str(),
                until,
                terms,
                now.instant,
            )
        };
        match made {
            Err(e) => {
                let _ = self.requests.remove(id);
                Err(e)
            },
            Ok(grant_id) => {
                let expires_at = wall_end_of(now, until);
                self.conclude(id, req, authority.as_str(), grant_id.as_str(), expires_at);
                Ok(ApproveStatus::Established)
            },
        }
    }

    /// Approves a request: first a governor does, then the recipient. A request whose time is up
    /// is gone.
    pub fn approve_grant_request(
        &mut self,
        token_str: &str,
        request_id: &str,
        expiry: Option<Duration>,
        now: Moment,
    ) -> (r: Result<ApproveStatus, Error>)
        requires
            old(self)@.ready(),
            now.in_range(),
        ensures
            (final(self)@, error::outcome(r)) == old(self)@.approve_request(
                token_str@,
                request_id@,
                expiry,
                now,
            ),
            old(self)@.sound() ==> final(self)@.sound(),
    {
        proof {
            if self@.sound() {
                invariants::law_approval_sound(self@, token_str@, request_id@, expiry, now);
            }
        }
        if self.drop_lapsed(request_id, now) {
            return Err(Error::BadRequest);
        }
        let governor = self.is_governor(token_str, now);
        let known = self.tokens.contains_key(token_str);
        let (stage, allowed) = match self.requests.get(request_id) {
            None => return Err(Error::BadRequest),
            Some(req) => {
                let recipient = known && same(token_str, req.to_identity.as_str());
                let allowed = match req.stage {
                    ConnectionStage::PendingGovernor => governor,
                    ConnectionStage::PendingRecipient => governor || recipient,
                };
                (req.stage, allowed)
            },
        };
        if !allowed {
            return Err(Error::Forbidden);
        }
        match self.requests.get(request_id) {
            None => Err(Error::BadRequest),
            Some(found) => {
                let req = found.copy();
                match stage {
                    ConnectionStage::PendingGovernor => {
                        self.pass_on(request_id, req, token_str, expiry, now.instant);
                        Ok(ApproveStatus::PendingRecipient)
                    },
                    ConnectionStage::PendingRecipient => self.consent(request_id, req, expiry, now),
                }
            },
        }
    }

    /// Denies a request. The denial stands until it ends, or for good. A request whose time is up
    /// is gone.
    pub fn deny_grant_request(
        &mut self,
        token_str: &str,
        request_id: &str,
        reason: &str,
        expires_at: Option<u64>,
        now: Moment,
    ) -> (r: Result<(), Error>)
        ensures
            (final(self)@, error::outcome(r)) == old(self)@.deny_request(
                token_str@,
                request_id@,
                reason@,
                expires_at,
                now,
            ),
            old(self)@.sound() ==> final(self)@.sound(),
    {
        proof {
            if self@.sound() {
                invariants::law_denial_sound(
                    self@,
                    token_str@,
                    request_id@,
                    reason@,
                    expires_at,
                    now,
                );
            }
        }
        if self.drop_lapsed(request_id, now) {
            return Err(Error::BadRequest);
        }
        let governor = self.is_governor(token_str, now);
        let known = self.tokens.contains_key(token_str);
        let req = match self.requests.get(request_id) {
            None => return Err(Error::BadRequest),
            Some(req) => req.copy(),
        };
        if !governor && !(known && same(token_str, req.to_identity.as_str())) {
            return Err(Error::Forbidden);
        }
        self.blocks.insert(
            req.from_identity.clone(),
            req.to_name.clone(),
            DenialBlock { reason: reason.to_owned(), expires_at },
        );
        let _ = self.requests.remove(request_id);
        let text = events::grant_denied_text(request_id, req.to_name.as_str(), reason);
        self.deliver(req.from_name.as_str(), system_message(text.as_str(), "grant_denied"));
        self.ring(req.from_name.as_str());
        self.store(
            StoreWrite::UpsertDenialBlock {
                from_identity: req.from_identity,
                to_name: req.to_name,
                reason: reason.to_owned(),
                expires_at,
            },
        );
        Ok(())
    }

    /// Takes a denial back.
    pub fn unblock_grant(&mut self, token_str: &str, from_identity: &str, to_name: &str, now: Moment) -> (r: Result<
        (),
        Error,
    >)
        ensures
            (final(self)@, error::outcome(r)) == old(self)@.unblock(
                token_str@,
                from_identity@,
                to_name@,
                now,
            ),
            old(self)@.sound() ==> final(self)@.sound(),
    {
        proof {
            if self@.sound() {
                invariants::law_unblock_sound(self@, token_str@, from_identity@, to_name@, now);
            }
        }
        if !self.is_governor(token_str, now) {
            return Err(Error::Forbidden);
        }
        self.blocks.remove(from_identity, to_name);
        self.store(
            StoreWrite::DeleteDenialBlock {
                from_identity: from_identity.to_owned(),
                to_name: to_name.to_owned(),
            },
        );
        Ok(())
    }

    /// Denies a pair without a request.
    pub fn block_direct(
        &mut self,
        gov: &GovernorToken,
        from_identity: &str,
        to_name: &str,
        reason: &str,
        expires_at: Option<u64>,
        now: Moment,
    ) -> (r: Result<(), Error>)
        ensures
            (final(self)@, error::outcome(r)) == old(self)@.block(
                gov.0@,
                from_identity@,
                to_name@,
                reason@,
                expires_at,
                now,
            ),
            old(self)@.sound() ==> final(self)@.sound(),
    {
        proof {
            if self@.sound() {
                invariants::law_block_sound(
                    self@,
                    gov.0@,
                    from_identity@,
                    to_name@,
                    reason@,
                    expires_at,
                    now,
                );
            }
        }
        match self.trust.verify_governor(gov.0.as_str(), now.instant) {
            Err(e) => return Err(e),
            Ok(_) => {},
        }
        self.blocks.insert(
            from_identity.to_owned(),
            to_name.to_owned(),
            DenialBlock { reason: reason.to_owned(), expires_at },
        );
        self.store(
            StoreWrite::UpsertDenialBlock {
                from_identity: from_identity.to_owned(),
                to_name: to_name.to_owned(),
                reason: reason.to_owned(),
                expires_at,
            },
        );
        Ok(())
    }

    fn find_named_like(&self, a: &str, b: &str) -> (r: Option<String>)
        ensures
            match r {
                Some(t) => self@.first_named_like(t@, a@, b@) && forall|k: Seq<char>|
                    self@.first_named_like(k, a@, b@) ==> k == t@,
                None => forall|k: Seq<char>| !self@.first_named_like(k, a@, b@),
            },
    {
        let tokens = self.token_to_name.keys();
        let ghost ks = tokens.deep_view();
        let mut i: usize = 0;
        while i < tokens.len()
            invariant
                i <= tokens@.len(),
                ks == tokens.deep_view(),
                ks.to_set() == self@.token_to_name.dom(),
                strmap::ascending(ks),
                forall|j: int| 0 <= j < i ==> !self@.named_like(#[trigger] ks[j], a@, b@),
            decreases tokens@.len() - i,
        {
            assert(ks.to_set().contains(ks[i as int]));
            if let Some(name) = self.token_to_name.get(tokens[i].as_str()) {
                if same(name.as_str(), a) || same(name.as_str(), b) {
                    let t = tokens[i].clone();
                    proof {
                        assert(self@.named_like(t@, a@, b@));
                        assert forall|k: Seq<char>| #[trigger] self@.named_like(k, a@, b@) implies !text::lex_lt(
                            k,
                            t@,
                        ) by {
                            assert(ks.to_set().contains(k));
                            let j = ks.index_of(k);
                            assert(ks[j] == k);
                            if j == i {
                                text::lemma_lex_irreflexive(k);
                            } else {
                                assert(text::lex_lt(ks[i as int], ks[j]));
                                if text::lex_lt(k, t@) {
                                    text::lemma_lex_transitive(k, t@, k);
                                    text::lemma_lex_irreflexive(k);
                                }
                            }
                        }
                        assert(self@.first_named_like(t@, a@, b@));
                        assert forall|k: Seq<char>| self@.first_named_like(k, a@, b@) implies k == t@ by {
                            assert(self@.named_like(k, a@, b@));
                            text::lemma_lex_total(k, t@);
                        }
                    }
                    return Some(t);
                }
            }
            i += 1;
        }
        assert forall|k: Seq<char>| !self@.first_named_like(k, a@, b@) by {
            if self@.named_like(k, a@, b@) {
                assert(ks.to_set().contains(k));
                assert(ks[ks.index_of(k)] == k);
            }
        }
        None
    }

    fn party_stream(&self, name: &Option<String>, a: &str, b: &str) -> (r: Option<u64>)
        ensures
            r == self@.party_stream(name.deep_view(), a@, b@),
    {
        match name {
            Some(n) => match self.name_to_token.get(n.as_str()) {
                Some(t) => self.stream_of(t.as_str()),
                None => None,
            },
            None => match self.find_named_like(a, b) {
                Some(t) => self.stream_of(t.as_str()),
                None => None,
            },
        }
    }

    /// Revokes a grant and tells its parties.
    pub fn revoke_grant(&mut self, grant_id: &str, gov: &GovernorToken, now: Moment) -> (r: Result<(), Error>)
        ensures
            (final(self)@, error::outcome(r)) == old(self)@.revoke_grant(grant_id@, gov.0@, now),
            old(self)@.sound() ==> final(self)@.sound(),
    {
        proof {
            if self@.sound() {
                invariants::law_revoked_grant_sound(self@, grant_id@, gov.0@, now);
            }
        }
        match self.trust.verify_governor(gov.0.as_str(), now.instant) {
            Err(e) => return Err(e),
            Ok(_) => {},
        }
        let (id_a, id_b, name_a, name_b) = match self.trust.grant_parties(grant_id) {
            None => return Err(Error::NoGrant),
            Some(p) => p,
        };
        let a = self.party_stream(&name_a, id_a.as_str(), id_b.as_str());
        let b = self.party_stream(&name_b, id_a.as_str(), id_b.as_str());
        let _ = self.trust.remove_grant(grant_id);
        self.push(a, events::grant_revoked_text(grant_id));
        self.push(b, events::grant_revoked_text(grant_id));
        self.store(StoreWrite::DeleteGrant { grant_id: grant_id.to_owned() });
        Ok(())
    }

    /// Puts a request on hold and asks the requester to say more. A request whose time is up is
    /// gone.
    pub fn hold_grant_request(&mut self, token_str: &str, request_id: &str, reason: &str, now: Moment) -> (r: Result<
        (),
        Error,
    >)
        ensures
            (final(self)@, error::outcome(r)) == old(self)@.hold_request(
                token_str@,
                request_id@,
                reason@,
                now,
            ),
            old(self)@.sound() ==> final(self)@.sound(),
    {
        proof {
            if self@.sound() {
                invariants::law_held_request_sound(self@, token_str@, request_id@, reason@, now);
            }
        }
        if self.drop_lapsed(request_id, now) {
            return Err(Error::BadRequest);
        }
        let governor = self.is_governor(token_str, now);
        let known = self.tokens.contains_key(token_str);
        let req = match self.requests.get(request_id) {
            None => return Err(Error::BadRequest),
            Some(req) => req.copy(),
        };
        if !governor && !(known && same(token_str, req.to_identity.as_str())) {
            return Err(Error::Forbidden);
        }
        let from = req.from_name.clone();
        let text = events::grant_held_text(request_id, req.to_name.as_str(), reason);
        let mut held = req;
        held.stage = ConnectionStage::PendingGovernor;
        let _ = self.requests.insert(request_id.to_owned(), held);
        self.deliver(from.as_str(), system_message(text.as_str(), "grant_held"));
        self.ring(from.as_str());
        Ok(())
    }

    /// The grants that name the holder of a token and have not expired.
    pub fn list_grants_for_token(&self, token: &str, now: Moment) -> (r: Result<Vec<GrantListItem>, Error>)
        ensures
            error::outcome(r) == match self@.name_of(token@) {
                Some(name) => Ok(self@.trust.listed_for(name, now.instant)),
                None => Err(ErrorView::AuthFailed),
            },
    {
        match self.name_of(token) {
            Some(name) => Ok(self.trust.list_grants_for_name(name.as_str(), now.instant)),
            None => Err(Error::AuthFailed),
        }
    }

    /// The grants that have not expired, for a governor; with a name given, those that name it.
    pub fn list_all_grants_gov(
        &self,
        gov: &GovernorToken,
        participant_filter: Option<&str>,
        now: Moment,
    ) -> (r: Result<Vec<AllGrantItem>, Error>)
        ensures
            error::outcome(r) == match self@.trust.verify(gov.0@, now.instant) {
                Ok(_) => Ok(self@.trust.listed(participant_filter.deep_view(), now.instant)),
                Err(e) => Err(e),
            },
    {
        match self.trust.verify_governor(gov.0.as_str(), now.instant) {
            Ok(_) => Ok(self.trust.list_all_grants(participant_filter, now.instant)),
            Err(e) => Err(e),
        }
    }

    pub(crate) fn linked(
        &self,
        a: &str,
        b: &str,
        name_a: Option<&str>,
        name_b: Option<&str>,
        now: Instant,
    ) -> (r: bool)
        ensures
            r == self@.linked(a@, b@, name_a.deep_view(), name_b.deep_view(), now),
    {
        self.trust.check_grant_directed_with_names(a, b, name_a, name_b, now).is_ok()
            || self.trust.check_grant_directed_with_names(b, a, name_b, name_a, now).is_ok()
    }

    pub(crate) fn target_identity(&self, name: &str) -> (r: Option<String>)
        ensures
            r.deep_view() == self@.target_identity(name@),
    {
        match self.name_to_token.get(name) {
            Some(t) => Some(t.clone()),
            None => match self.agents.get(name) {
                Some(id) => Some(id.clone()),
                None => None,
            },
        }
    }

    /// The holder of a token has a grant with `to_name`, in one direction or the other.
    pub fn has_any_grant_with(&self, from_token: &str, to_name: &str, now: Moment) -> (r: bool)
        ensures
            r == self@.has_grant_with(from_token@, to_name@, now.instant),
    {
        let name = match self.tokens.get(from_token) {
            None => return false,
            Some(st) => if st.revoked {
                return false;
            } else {
                copy_opt(&st.name)
            },
        };
        let from_name = match &name {
            Some(n) => Some(n.as_str()),
            None => None,
        };
        match self.target_identity(to_name) {
            Some(id) => self.linked(
                from_token,
                id.as_str(),
                from_name,
                Some(to_name),
                now.instant,
            ),
            None => false,
        }
    }
}

impl ConnectionRequest {
    /// A request with the same contents.
    pub fn copy(&self) -> (r: ConnectionRequest)
        ensures
            r.deep_view() == self.deep_view(),
    {
        ConnectionRequest {
            request_id: self.request_id.clone(),
            from_name: self.from_name.clone(),
            to_name: self.to_name.clone(),
            from_identity: self.from_identity.clone(),
            to_identity: self.to_identity.clone(),
            reason: copy_opt(&self.reason),
            stage: self.stage,
            governor_expiry: self.governor_expiry,
            recipient_expiry: self.recipient_expiry,
            approving_governor: copy_opt(&self.approving_governor),
            expires_at: self.expires_at,
        }
    }
}

} // verus!
