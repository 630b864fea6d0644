//! Governors, and the grants under which one participant may write to another.

use crate::clock;
use crate::clock::{Clock, Duration, Instant, SystemClock};
use crate::error;
use crate::error::{Error, ErrorView};
use crate::persistence;
use crate::persistence::{GrantRow, PersistedGrant, PersistedToken, TokenRow};
use crate::strmap;
use crate::text;
use crate::trust::table::TrustTable;
use crate::types::GovernorToken;
use vstd::prelude::*;

pub mod table;

verus! {

/// Which way a grant lets messages pass.
#[derive(Debug, Clone, Copy, PartialEq, Eq, Structural)]
pub enum GrantDirection {
    Symmetric,
    AToB,
    BToA,
}

impl DeepView for GrantDirection {
    type V = GrantDirection;

    open spec fn deep_view(&self) -> GrantDirection {
        *self
    }
}

/// What the governor sees of the messages under a grant.
#[derive(Debug, Clone, Copy, PartialEq, Eq, Structural)]
pub enum GrantMediation {
    Bypass,
    Inspect,
    Notify,
}

impl DeepView for GrantMediation {
    type V = GrantMediation;

    open spec fn deep_view(&self) -> GrantMediation {
        *self
    }
}

/// A participant's view of one of its grants.
pub struct GrantListItem {
    pub id: String,
    pub counterparty: String,
    pub direction: GrantDirection,
    pub expires: Option<Instant>,
}

/// What a listed grant holds.
pub struct GrantListItemView {
    pub id: Seq<char>,
    pub counterparty: Seq<char>,
    pub direction: GrantDirection,
    pub expires: Option<Instant>,
}

impl DeepView for GrantListItem {
    type V = GrantListItemView;

    open spec fn deep_view(&self) -> GrantListItemView {
        GrantListItemView {
            id: self.id@,
            counterparty: self.counterparty@,
            direction: self.direction,
            expires: self.expires,
        }
    }
}

/// The governor's view of a grant.
pub struct AllGrantItem {
    pub id: String,
    pub identity_a: String,
    pub identity_b: String,
    pub name_a: Option<String>,
    pub name_b: Option<String>,
    pub direction: GrantDirection,
    pub expires: Option<Instant>,
}

/// What a grant in the governor's list holds.
pub struct AllGrantItemView {
    pub id: Seq<char>,
    pub identity_a: Seq<char>,
    pub identity_b: Seq<char>,
    pub name_a: Option<Seq<char>>,
    pub name_b: Option<Seq<char>>,
    pub direction: GrantDirection,
    pub expires: Option<Instant>,
}

impl DeepView for AllGrantItem {
    type V = AllGrantItemView;

    open spec fn deep_view(&self) -> AllGrantItemView {
        AllGrantItemView {
            id: self.id@,
            identity_a: self.identity_a@,
            identity_b: self.identity_b@,
            name_a: self.name_a.deep_view(),
            name_b: self.name_b.deep_view(),
            direction: self.direction,
            expires: self.expires,
        }
    }
}

/// The grant under which a message may pass.
pub struct GrantRef {
    pub id: String,
    pub opens_reply_window: bool,
    pub mediation: GrantMediation,
    pub governor_id: String,
    pub conditions: Option<String>,
}

/// What a grant reference holds.
pub struct GrantRefView {
    pub id: Seq<char>,
    pub opens_reply_window: bool,
    pub mediation: GrantMediation,
    pub governor_id: Seq<char>,
    pub conditions: Option<Seq<char>>,
}

impl DeepView for GrantRef {
    type V = GrantRefView;

    open spec fn deep_view(&self) -> GrantRefView {
        GrantRefView {
            id: self.id@,
            opens_reply_window: self.opens_reply_window,
            mediation: self.mediation,
            governor_id: self.governor_id@,
            conditions: self.conditions.deep_view(),
        }
    }
}

/// The terms of a grant; what is left open takes its default.
#[derive(Clone)]
pub struct ApproveGrantRequest {
    pub direction: Option<GrantDirection>,
    pub max_messages: Option<u64>,
    pub opens_reply_window: Option<bool>,
    pub mediation: Option<GrantMediation>,
    pub conditions: Option<String>,
    /// The announced name of the first party.
    pub name_a: Option<String>,
    /// The announced name of the second party.
    pub name_b: Option<String>,
}

/// What the terms of a grant hold.
pub struct Terms {
    pub direction: Option<GrantDirection>,
    pub max_messages: Option<u64>,
    pub opens_reply_window: Option<bool>,
    pub mediation: Option<GrantMediation>,
    pub conditions: Option<Seq<char>>,
    pub name_a: Option<Seq<char>>,
    pub name_b: Option<Seq<char>>,
}

impl Terms {
    /// Terms that leave everything open.
    pub open spec fn open_terms() -> Terms {
        Terms {
            direction: None,
            max_messages: None,
            opens_reply_window: None,
            mediation: None,
            conditions: None,
            name_a: None,
            name_b: None,
        }
    }

    /// The chosen direction, or both ways.
    pub open spec fn chosen_direction(self) -> GrantDirection {
        match self.direction {
            Some(d) => d,
            None => GrantDirection::Symmetric,
        }
    }

    /// The chosen mediation, or none.
    pub open spec fn chosen_mediation(self) -> GrantMediation {
        match self.mediation {
            Some(m) => m,
            None => GrantMediation::Bypass,
        }
    }

    /// Whether a message opens a window for the reply; it does unless that was turned off.
    pub open spec fn chosen_window(self) -> bool {
        match self.opens_reply_window {
            Some(w) => w,
            None => true,
        }
    }
}

impl DeepView for ApproveGrantRequest {
    type V = Terms;

    open spec fn deep_view(&self) -> Terms {
        Terms {
            direction: self.direction,
            max_messages: self.max_messages,
            opens_reply_window: self.opens_reply_window,
            mediation: self.mediation,
            conditions: self.conditions.deep_view(),
            name_a: self.name_a.deep_view(),
            name_b: self.name_b.deep_view(),
        }
    }
}

impl Default for ApproveGrantRequest {
    fn default() -> (r: Self)
        ensures
            r.deep_view() == Terms::open_terms(),
    {
        ApproveGrantRequest {
            direction: None,
            max_messages: None,
            opens_reply_window: None,
            mediation: None,
            conditions: None,
            name_a: None,
            name_b: None,
        }
    }
}

/// What a governor's record holds.
pub struct GovernorView {
    pub expires: Option<Instant>,
    pub online: bool,
    pub revoked: bool,
    pub listen_token: Option<Seq<char>>,
}

impl GovernorView {
    /// A governor that has just been installed.
    pub open spec fn fresh(expires: Option<Instant>) -> GovernorView {
        GovernorView { expires, online: true, revoked: false, listen_token: None }
    }

    /// Its time ends by `last`, where it ends.
    pub open spec fn within(self, last: int) -> bool {
        self.expires matches Some(end) ==> end <= last
    }

    /// Its time is not up.
    pub open spec fn unexpired(self, now: Instant) -> bool {
        self.expires matches Some(end) ==> now < end
    }

    /// It may act.
    pub open spec fn acting(self, now: Instant) -> bool {
        !self.revoked && self.online && self.unexpired(now)
    }
}

/// What an offered transfer of the governorship holds.
pub struct TransferView {
    pub from_gov_token: Seq<char>,
    pub to_identity: Option<Seq<char>>,
}

/// What a grant holds.
pub struct GrantView {
    pub id: Seq<char>,
    pub identity_a: Seq<char>,
    pub identity_b: Seq<char>,
    pub name_a: Option<Seq<char>>,
    pub name_b: Option<Seq<char>>,
    pub expires: Option<Instant>,
    pub direction: GrantDirection,
    pub max_messages: Option<u64>,
    pub messages_used: u64,
    pub opens_reply_window: bool,
    pub governor_id: Seq<char>,
    pub mediation: GrantMediation,
    pub conditions: Option<Seq<char>>,
}

/// The question whether one party may write to another. The names are those under which the
/// parties are announced.
pub struct Ask {
    pub from: Seq<char>,
    pub to: Seq<char>,
    pub from_name: Option<Seq<char>>,
    pub to_name: Option<Seq<char>>,
}

/// `(from, to)` is the pair `(a, b)` taken in a direction that the grant allows.
pub open spec fn passes(
    direction: GrantDirection,
    a: Seq<char>,
    b: Seq<char>,
    from: Seq<char>,
    to: Seq<char>,
) -> bool {
    match direction {
        GrantDirection::Symmetric => (a == from && b == to) || (a == to && b == from),
        GrantDirection::AToB => a == from && b == to,
        GrantDirection::BToA => a == to && b == from,
    }
}

impl GrantView {
    /// The grant is about the pair in the question. Where the grant and the question both hold
    /// both names, the names decide and the identities count for nothing, so a grant outlives a
    /// change of identity. Otherwise the identities decide.
    pub open spec fn covers(self, ask: Ask) -> bool {
        match (self.name_a, self.name_b, ask.from_name, ask.to_name) {
            (Some(a), Some(b), Some(from), Some(to)) => passes(self.direction, a, b, from, to),
            _ => passes(self.direction, self.identity_a, self.identity_b, ask.from, ask.to),
        }
    }

    pub open spec fn expired(self, now: Instant) -> bool {
        self.expires matches Some(end) && now >= end
    }

    /// The message budget is spent.
    pub open spec fn exhausted(self) -> bool {
        self.max_messages matches Some(max) && self.messages_used >= max
    }

    /// Another message can be counted, where messages are counted at all.
    pub open spec fn can_count(self) -> bool {
        self.max_messages is Some ==> self.messages_used < u64::MAX
    }

    /// A message may pass under the grant.
    pub open spec fn usable(self, ask: Ask, now: Instant) -> bool {
        self.covers(ask) && !self.expired(now) && !self.exhausted()
    }

    pub open spec fn directed(self) -> bool {
        !(self.direction is Symmetric)
    }

    /// The number in the grant's identifier; the largest number where there is none.
    pub open spec fn number(self) -> nat {
        match text::without_prefix(self.id, "grant-"@) {
            Some(tail) => match text::parsed(tail, u64::MAX as nat) {
                Some(n) => n,
                None => u64::MAX as nat,
            },
            None => u64::MAX as nat,
        }
    }

    /// The grant stands before `other`: a directed one before a symmetric one, then the one
    /// with the lower number.
    pub open spec fn better(self, other: GrantView) -> bool {
        if self.directed() == other.directed() {
            self.number() < other.number()
        } else {
            self.directed()
        }
    }

    pub open spec fn reference(self) -> GrantRefView {
        GrantRefView {
            id: self.id,
            opens_reply_window: self.opens_reply_window,
            mediation: self.mediation,
            governor_id: self.governor_id,
            conditions: self.conditions,
        }
    }

    /// The grant names `name` as one of its parties.
    pub open spec fn names(self, name: Seq<char>) -> bool {
        self.name_a == Some(name) || self.name_b == Some(name)
    }

    /// The name of the other party, empty where the grant holds none.
    pub open spec fn counterparty_name(self, name: Seq<char>) -> Seq<char> {
        let other = if self.name_a == Some(name) {
            self.name_b
        } else {
            self.name_a
        };
        match other {
            Some(n) => n,
            None => seq![],
        }
    }

    pub open spec fn list_item(self, name: Seq<char>) -> GrantListItemView {
        GrantListItemView {
            id: self.id,
            counterparty: self.counterparty_name(name),
            direction: self.direction,
            expires: self.expires,
        }
    }

    pub open spec fn all_item(self) -> AllGrantItemView {
        AllGrantItemView {
            id: self.id,
            identity_a: self.identity_a,
            identity_b: self.identity_b,
            name_a: self.name_a,
            name_b: self.name_b,
            direction: self.direction,
            expires: self.expires,
        }
    }

    /// The participant is the first party.
    pub open spec fn first_party(self, name: Seq<char>, identity: Seq<char>) -> bool {
        self.name_a == Some(name) || self.identity_a == identity
    }

    /// The participant is the second party.
    pub open spec fn second_party(self, name: Seq<char>, identity: Seq<char>) -> bool {
        self.name_b == Some(name) || self.identity_b == identity
    }
}

/// An identifier made of a word and a number.
pub open spec fn numbered(word: Seq<char>, n: nat) -> Seq<char> {
    word + "-"@ + text::decimal(n)
}

/// The number at the end of an identifier, zero where there is none.
pub open spec fn counter_of(id: Seq<char>) -> nat {
    match text::parsed(text::after_last(id, '-'), u64::MAX as nat) {
        Some(n) => n,
        None => 0,
    }
}

/// The end of something that starts now and lasts for `expiry`, never longer than the longest
/// expiry that is kept.
pub open spec fn ends(now: Instant, expiry: Option<Duration>) -> Option<Instant> {
    match expiry {
        Some(d) => Some((now + persistence::capped(d)) as Instant),
        None => None,
    }
}

/// The state of trust: who governs, which grants stand, and which transfers of the governorship
/// are on offer.
#[verifier::ext_equal]
pub struct TrustModel {
    pub governors: Map<Seq<char>, GovernorView>,
    pub grants: Seq<GrantView>,
    pub transfers: Map<Seq<char>, TransferView>,
    pub counter: u64,
}

impl TrustModel {
    pub open spec fn empty() -> TrustModel {
        TrustModel {
            governors: Map::empty(),
            grants: Seq::empty(),
            transfers: Map::empty(),
            counter: 0,
        }
    }

    /// Every grant with a budget can count another message, and every governor's time ends within what a clock
    /// reads.
    pub open spec fn has_headroom(self) -> bool {
        &&& forall|i: int|
            0 <= i < self.grants.len() ==> (#[trigger] self.grants[i]).can_count()
        &&& forall|id: Seq<char>| #[trigger]
            self.governors.contains_key(id) ==> self.governors[id].within(2 * clock::LAST_INSTANT)
    }

    /// No identifier in use has a number beyond the counter.
    pub open spec fn numbers_bounded(self) -> bool {
        &&& forall|i: int|
            0 <= i < self.grants.len() ==> counter_of((#[trigger] self.grants[i]).id) <= self.counter
        &&& forall|id: Seq<char>| #[trigger]
            self.governors.contains_key(id) ==> counter_of(id) <= self.counter
    }

    /// Whoever put the governorship on offer is on record as a governor.
    pub open spec fn offers_known(self) -> bool {
        forall|t: Seq<char>| #[trigger]
            self.transfers.contains_key(t) ==> self.governors.contains_key(
                self.transfers[t].from_gov_token,
            )
    }

    /// What holds of every table.
    pub open spec fn coherent(self) -> bool {
        self.numbers_bounded() && self.offers_known()
    }

    /// Neither a governor nor a grant has that identifier.
    pub open spec fn unused(self, id: Seq<char>) -> bool {
        &&& !self.governors.contains_key(id)
        &&& forall|i: int| 0 <= i < self.grants.len() ==> (#[trigger] self.grants[i]).id != id
    }

    /// One more identifier can be made.
    pub open spec fn can_number(self) -> bool {
        self.counter < u64::MAX
    }

    /// The next identifier that starts with `word`.
    pub open spec fn next(self, word: Seq<char>) -> Seq<char> {
        numbered(word, (self.counter + 1) as nat)
    }

    /// Whether `token` is a governor that may act now: neither revoked, nor offline, nor
    /// expired.
    pub open spec fn verify(self, token: Seq<char>, now: Instant) -> Result<(), ErrorView> {
        if !self.governors.contains_key(token) || self.governors[token].revoked
            || !self.governors[token].online {
            Err(ErrorView::AuthFailed)
        } else if !self.governors[token].unexpired(now) {
            Err(ErrorView::TokenExpired)
        } else {
            Ok(())
        }
    }

    /// Some governor is not revoked.
    pub open spec fn governed(self) -> bool {
        exists|id: Seq<char>| #[trigger] self.governors.contains_key(id) && !self.governors[id].revoked
    }

    /// The governors that are not revoked.
    pub open spec fn active(self) -> Set<Seq<char>> {
        Set::new(|id: Seq<char>| self.governors.contains_key(id) && !self.governors[id].revoked)
    }

    /// A new governor.
    pub open spec fn install(self, expiry: Option<Duration>, now: Instant) -> TrustModel {
        TrustModel {
            governors: self.governors.insert(
                self.next("gov"@),
                GovernorView::fresh(ends(now, expiry)),
            ),
            counter: (self.counter + 1) as u64,
            ..self
        }
    }

    /// Every governor is revoked.
    pub open spec fn revoke_all(self) -> TrustModel {
        TrustModel {
            governors: self.governors.map_values(
                |g: GovernorView| GovernorView { revoked: true, ..g },
            ),
            ..self
        }
    }

    pub open spec fn set_online(self, id: Seq<char>, online: bool) -> TrustModel {
        if self.governors.contains_key(id) {
            TrustModel {
                governors: self.governors.insert(
                    id,
                    GovernorView { online, ..self.governors[id] },
                ),
                ..self
            }
        } else {
            self
        }
    }

    /// The governor's session is the one of `listen_token`.
    pub open spec fn link(self, id: Seq<char>, listen_token: Seq<char>) -> TrustModel {
        if self.governors.contains_key(id) {
            TrustModel {
                governors: self.governors.insert(
                    id,
                    GovernorView { listen_token: Some(listen_token), ..self.governors[id] },
                ),
                ..self
            }
        } else {
            self
        }
    }

    /// A new grant on the given terms.
    pub open spec fn granted(
        self,
        governor_id: Seq<char>,
        a: Seq<char>,
        b: Seq<char>,
        expiry: Option<Duration>,
        terms: Terms,
        now: Instant,
    ) -> TrustModel {
        let grant = GrantView {
            id: self.next("grant"@),
            identity_a: a,
            identity_b: b,
            name_a: terms.name_a,
            name_b: terms.name_b,
            expires: ends(now, expiry),
            direction: terms.chosen_direction(),
            max_messages: terms.max_messages,
            messages_used: 0,
            opens_reply_window: terms.chosen_window(),
            governor_id,
            mediation: terms.chosen_mediation(),
            conditions: terms.conditions,
        };
        TrustModel {
            grants: self.grants.push(grant),
            counter: (self.counter + 1) as u64,
            ..self
        }
    }

    /// A governor that may act makes a grant; any other is refused.
    pub open spec fn approve(
        self,
        governor: Seq<char>,
        a: Seq<char>,
        b: Seq<char>,
        expiry: Option<Duration>,
        terms: Terms,
        now: Instant,
    ) -> (TrustModel, Result<Seq<char>, ErrorView>) {
        match self.verify(governor, now) {
            Err(e) => (self, Err(e)),
            Ok(_) => (
                self.granted(governor, a, b, expiry, terms, now),
                Ok(self.next("grant"@)),
            ),
        }
    }

    /// The grant at `i` is usable and stands before every other usable one; among equals it
    /// comes first in the list.
    pub open spec fn best_at(self, ask: Ask, now: Instant, i: int) -> bool {
        &&& 0 <= i < self.grants.len()
        &&& self.grants[i].usable(ask, now)
        &&& forall|j: int|
            0 <= j < self.grants.len() && #[trigger] self.grants[j].usable(ask, now)
                ==> !self.grants[j].better(self.grants[i]) && (self.grants[i].better(self.grants[j])
                || i <= j)
    }

    /// The answer to the question whether a message may pass: the best usable grant. Where there
    /// is none, a spent grant is reported before an expired one, and an expired one before none.
    pub open spec fn check(self, ask: Ask, now: Instant) -> Result<GrantRefView, ErrorView> {
        if exists|i: int| self.best_at(ask, now, i) {
            Ok(self.grants[choose|i: int| self.best_at(ask, now, i)].reference())
        } else if exists|i: int|
            0 <= i < self.grants.len() && (#[trigger] self.grants[i]).covers(ask)
                && !self.grants[i].expired(now) {
            Err(ErrorView::GrantExhausted)
        } else if exists|i: int| 0 <= i < self.grants.len() && (#[trigger] self.grants[i]).covers(ask) {
            Err(ErrorView::GrantExpired)
        } else {
            Err(ErrorView::NoGrant)
        }
    }

    /// The grant at `i` is the first with that identifier.
    pub open spec fn first_at(self, id: Seq<char>, i: int) -> bool {
        &&& 0 <= i < self.grants.len()
        &&& self.grants[i].id == id
        &&& forall|j: int| 0 <= j < i ==> (#[trigger] self.grants[j]).id != id
    }

    /// The first grant with that identifier.
    pub open spec fn grant(self, id: Seq<char>) -> Option<GrantView> {
        if exists|i: int| self.first_at(id, i) {
            Some(self.grants[choose|i: int| self.first_at(id, i)])
        } else {
            None
        }
    }

    /// One more message of the grant's budget is spent; a grant without a budget stays as it is.
    pub open spec fn consume(self, id: Seq<char>) -> TrustModel {
        TrustModel {
            grants: Seq::new(
                self.grants.len(),
                |i: int|
                    if self.first_at(id, i) && self.grants[i].max_messages is Some {
                        GrantView {
                            messages_used: (self.grants[i].messages_used + 1) as u64,
                            ..self.grants[i]
                        }
                    } else {
                        self.grants[i]
                    },
            ),
            ..self
        }
    }

    /// One message of the grant's budget is given back.
    pub open spec fn restore(self, id: Seq<char>) -> TrustModel {
        TrustModel {
            grants: Seq::new(
                self.grants.len(),
                |i: int|
                    if self.first_at(id, i) && self.grants[i].max_messages is Some
                        && self.grants[i].messages_used > 0 {
                        GrantView {
                            messages_used: (self.grants[i].messages_used - 1) as u64,
                            ..self.grants[i]
                        }
                    } else {
                        self.grants[i]
                    },
            ),
            ..self
        }
    }

    /// No grant has that identifier any more.
    pub open spec fn remove_grant(self, id: Seq<char>) -> TrustModel {
        TrustModel { grants: self.grants.filter(|g: GrantView| g.id != id), ..self }
    }

    /// The offers of one governor are those of another.
    pub open spec fn offers_moved(self, from: Seq<char>, to: Seq<char>) -> Map<Seq<char>, TransferView> {
        self.transfers.map_values(
            |t: TransferView|
                if t.from_gov_token == from {
                    TransferView { from_gov_token: to, ..t }
                } else {
                    t
                },
        )
    }

    /// The governor's record moves to a new token, unchanged, and the old token is void. What the
    /// governor has put on offer stays on offer in the new token's name.
    pub open spec fn rotate(self, old_token: Seq<char>, now: Instant) -> (
        TrustModel,
        Result<Seq<char>, ErrorView>,
    ) {
        match self.verify(old_token, now) {
            Err(e) => (self, Err(e)),
            Ok(_) => (
                TrustModel {
                    governors: self.governors.remove(old_token).insert(
                        self.next("gov"@),
                        self.governors[old_token],
                    ),
                    transfers: self.offers_moved(old_token, self.next("gov"@)),
                    counter: (self.counter + 1) as u64,
                    ..self
                },
                Ok(self.next("gov"@)),
            ),
        }
    }

    /// The governorship is on offer under `transfer_token`.
    pub open spec fn offer(
        self,
        from: Seq<char>,
        to_identity: Option<Seq<char>>,
        transfer_token: Seq<char>,
    ) -> TrustModel {
        TrustModel {
            transfers: self.transfers.insert(
                transfer_token,
                TransferView { from_gov_token: from, to_identity },
            ),
            ..self
        }
    }

    /// Whoever holds the transfer token, and is the one it was meant for where it was meant for
    /// one, becomes governor. The token is used up and the governor who offered it is revoked.
    pub open spec fn accept(self, transfer_token: Seq<char>, identity: Seq<char>) -> (
        TrustModel,
        Result<Seq<char>, ErrorView>,
    ) {
        if !self.transfers.contains_key(transfer_token) {
            (self, Err(ErrorView::AuthFailed))
        } else {
            let offer = self.transfers[transfer_token];
            if offer.to_identity is Some && offer.to_identity != Some(identity) {
                (self, Err(ErrorView::Forbidden))
            } else {
                let from = offer.from_gov_token;
                let revoked = if self.governors.contains_key(from) {
                    self.governors.insert(
                        from,
                        GovernorView { revoked: true, ..self.governors[from] },
                    )
                } else {
                    self.governors
                };
                (
                    TrustModel {
                        governors: revoked.insert(self.next("gov"@), GovernorView::fresh(None)),
                        transfers: self.transfers.remove(transfer_token),
                        counter: (self.counter + 1) as u64,
                        ..self
                    },
                    Ok(self.next("gov"@)),
                )
            }
        }
    }

    /// When a governor's time is up, where it ever is.
    pub open spec fn governor_expiry(self, token: Seq<char>) -> Option<Instant> {
        if self.governors.contains_key(token) {
            self.governors[token].expires
        } else {
            None
        }
    }

    /// The governor may act now.
    pub open spec fn online(self, id: Seq<char>, now: Instant) -> bool {
        self.governors.contains_key(id) && self.governors[id].acting(now)
    }

    /// Some governor may act now.
    pub open spec fn some_online(self, now: Instant) -> bool {
        exists|id: Seq<char>| self.online(id, now)
    }

    /// The grants that name `name` and have not expired, in order.
    pub open spec fn listed_for(self, name: Seq<char>, now: Instant) -> Seq<GrantListItemView> {
        self.grants.filter(|g: GrantView| !g.expired(now) && g.names(name)).map_values(
            |g: GrantView| g.list_item(name),
        )
    }

    /// The grants that have not expired, in order; where a name is given, those that name it.
    pub open spec fn listed(self, filter: Option<Seq<char>>, now: Instant) -> Seq<AllGrantItemView> {
        self.grants.filter(
            |g: GrantView| !g.expired(now) && (filter matches Some(name) ==> g.names(name)),
        ).map_values(|g: GrantView| g.all_item())
    }

    /// The highest of the counter and the number in an identifier.
    pub open spec fn seen(self, id: Seq<char>) -> TrustModel {
        if counter_of(id) > self.counter {
            TrustModel { counter: counter_of(id) as u64, ..self }
        } else {
            self
        }
    }

    /// The present counts from which a stored expiry is taken up again.
    pub open spec fn stored_end(expires_at: Option<u64>, now: Instant, unix: u64) -> Option<Instant> {
        match expires_at {
            Some(at) => ends(now, Some(((at - unix) * clock::NANOS_PER_SEC) as Duration)),
            None => None,
        }
    }

    /// The number of a stored credential is taken note of, and the credential is taken up unless
    /// its time was up. Only governors are kept here.
    pub open spec fn load_token(self, t: TokenRow, now: Instant, unix: u64) -> TrustModel {
        let m = self.seen(t.token);
        if t.expires_at_secs matches Some(at) && at <= unix {
            m
        } else if t.token_type == "governor"@ {
            let end = TrustModel::stored_end(t.expires_at_secs, now, unix);
            TrustModel { governors: m.governors.insert(t.token, GovernorView::fresh(end)), ..m }
        } else {
            m
        }
    }

    /// The stored credentials are taken up one after the other.
    pub open spec fn load_tokens(self, ts: Seq<TokenRow>, now: Instant, unix: u64) -> TrustModel
        decreases ts.len(),
    {
        if ts.len() == 0 {
            self
        } else {
            self.load_tokens(ts.drop_last(), now, unix).load_token(ts.last(), now, unix)
        }
    }

    /// The number of a stored grant is taken note of, and the grant is taken up unless its time was
    /// up.
    pub open spec fn load_grant(self, g: GrantRow, now: Instant, unix: u64) -> TrustModel {
        let m = self.seen(g.id);
        if g.expires_at_secs matches Some(at) && at <= unix {
            m
        } else {
            let grant = GrantView {
                id: g.id,
                identity_a: g.identity_a,
                identity_b: g.identity_b,
                name_a: g.name_a,
                name_b: g.name_b,
                expires: TrustModel::stored_end(g.expires_at_secs, now, unix),
                direction: if g.direction == "a_to_b"@ {
                    GrantDirection::AToB
                } else if g.direction == "b_to_a"@ {
                    GrantDirection::BToA
                } else {
                    GrantDirection::Symmetric
                },
                max_messages: match g.max_messages {
                    Some(n) => Some(n as u64),
                    None => None,
                },
                messages_used: g.messages_used as u64,
                opens_reply_window: g.opens_reply_window,
                governor_id: g.governor_id,
                mediation: if g.mediation == "inspect"@ {
                    GrantMediation::Inspect
                } else if g.mediation == "notify"@ {
                    GrantMediation::Notify
                } else {
                    GrantMediation::Bypass
                },
                conditions: g.conditions,
            };
            TrustModel { grants: m.grants.push(grant), ..m }
        }
    }

    /// The stored grants are taken up one after the other.
    pub open spec fn load_grants(self, gs: Seq<GrantRow>, now: Instant, unix: u64) -> TrustModel
        decreases gs.len(),
    {
        if gs.len() == 0 {
            self
        } else {
            self.load_grants(gs.drop_last(), now, unix).load_grant(gs.last(), now, unix)
        }
    }
}

/// A grant that has not expired and has the participant as a party.
pub open spec fn relevant(g: GrantView, name: Seq<char>, identity: Seq<char>, now: Instant) -> bool {
    !g.expired(now) && (g.first_party(name, identity) || g.second_party(name, identity))
}

/// The other party of each grant of the participant that has not expired, by name and by
/// identity, in order; of several grants with one identifier only the first counts.
pub open spec fn counterparties(gs: Seq<GrantView>, name: Seq<char>, identity: Seq<char>, now: Instant) -> Seq<
    (Option<Seq<char>>, Seq<char>),
>
    decreases gs.len(),
{
    if gs.len() == 0 {
        seq![]
    } else {
        let before = counterparties(gs.drop_last(), name, identity, now);
        let g = gs.last();
        if relevant(g, name, identity, now) && !(exists|j: int|
            0 <= j < gs.len() - 1 && relevant(#[trigger] gs[j], name, identity, now) && gs[j].id == g.id) {
            before.push(
                if g.first_party(name, identity) {
                    (g.name_b, g.identity_b)
                } else {
                    (g.name_a, g.identity_a)
                },
            )
        } else {
            before
        }
    }
}

/// A result whose value is a governor's token.
pub open spec fn token_outcome(r: Result<GovernorToken, Error>) -> Result<Seq<char>, ErrorView> {
    match r {
        Ok(t) => Ok(t.0@),
        Err(e) => Err(e.deep_view()),
    }
}

/// The state of trust, with the present read from a clock.
pub struct TrustChain<C: Clock = SystemClock> {
    table: TrustTable,
    clock: C,
}

impl Default for TrustChain {
    fn default() -> (t: Self)
        ensures
            t@ == TrustModel::empty(),
            t@.coherent(),
            t.ready(),
    {
        TrustChain::new()
    }
}

impl TrustChain {
    /// A state of trust on the system's clock.
    pub fn new() -> (t: Self)
        ensures
            t@ == TrustModel::empty(),
            t@.coherent(),
            t.ready(),
    {
        TrustChain { table: TrustTable::new(), clock: SystemClock::start() }
    }
}

impl<C: Clock> View for TrustChain<C> {
    type V = TrustModel;

    closed spec fn view(&self) -> TrustModel {
        self.table@
    }
}

impl<C: Clock> TrustChain<C> {
    /// The clock that expiries are measured by.
    pub closed spec fn clock(self) -> C {
        self.clock
    }

    /// The clock can be read and stays in range.
    pub open spec fn ready(self) -> bool {
        &&& self.clock().ready()
        &&& forall|t: Instant| #[trigger] self.clock().may_read(t) ==> t <= clock::LAST_INSTANT
    }

    pub fn with_clock(now: C) -> (t: Self)
        ensures
            t@ == TrustModel::empty(),
            t@.coherent(),
            t.clock() == now,
    {
        TrustChain { table: TrustTable::new(), clock: now }
    }

    /// Some governor is not revoked.
    pub fn has_active_governor(&self) -> (r: bool)
        ensures
            r == self@.governed(),
    {
        self.table.has_active_governor()
    }

    /// Installs a governor; who may have one installed is the caller's policy.
    pub fn install_governor(&mut self, expiry: Option<Duration>) -> (t: GovernorToken)
        requires
            old(self).ready(),
            old(self)@.can_number(),
        ensures
            final(self).clock() == old(self).clock(),
            final(self)@.coherent(),
            t.0@ == old(self)@.next("gov"@),
            old(self)@.unused(t.0@),
            exists|now: Instant| #[trigger]
                old(self).clock().may_read(now) && final(self)@ == old(self)@.install(expiry, now),
    {
        let now: Instant = self.clock.now();
        self.table.install_governor(expiry, now)
    }

    /// The governors that are not revoked, in order.
    pub fn active_governor_tokens(&self) -> (ids: Vec<String>)
        ensures
            ids.deep_view().to_set() == self@.active(),
            strmap::ascending(ids.deep_view()),
    {
        self.table.active_governor_tokens()
    }

    /// Revokes every governor and returns those that were not revoked before, in order.
    pub fn revoke_all_governors(&mut self) -> (revoked: Vec<String>)
        ensures
            final(self).clock() == old(self).clock(),
            final(self)@.coherent(),
            final(self)@ == old(self)@.revoke_all(),
            revoked.deep_view().to_set() == old(self)@.active(),
            strmap::ascending(revoked.deep_view()),
    {
        self.table.revoke_all_governors()
    }

    /// Marks a governor online or offline.
    pub fn set_governor_online(&mut self, governor: &GovernorToken, online: bool)
        ensures
            final(self).clock() == old(self).clock(),
            final(self)@.coherent(),
            final(self)@ == old(self)@.set_online(governor.0@, online),
    {
        self.table.set_governor_online(governor.0.as_str(), online);
    }

    /// A grant on open terms: both ways, without a budget, with a window for the reply.
    pub fn approve_grant(
        &mut self,
        governor: &GovernorToken,
        identity_a: &str,
        identity_b: &str,
        expiry: Option<Duration>,
    ) -> (r: Result<String, Error>)
        requires
            old(self).ready(),
            old(self)@.can_number(),
        ensures
            final(self).clock() == old(self).clock(),
            r matches Ok(id) ==> old(self)@.unused(id@),
            final(self)@.coherent(),
            exists|now: Instant| #[trigger]
                old(self).clock().may_read(now) && (final(self)@, error::outcome(r)) == old(
                    self,
                )@.approve(
                    governor.0@,
                    identity_a@,
                    identity_b@,
                    expiry,
                    Terms::open_terms(),
                    now,
                ),
    {
        let terms = ApproveGrantRequest::default();
        self.approve_grant_req(governor, identity_a, identity_b, expiry, terms)
    }

    /// A governor that may act makes a grant between two identities.
    pub fn approve_grant_req(
        &mut self,
        governor: &GovernorToken,
        identity_a: &str,
        identity_b: &str,
        expiry: Option<Duration>,
        req: ApproveGrantRequest,
    ) -> (r: Result<String, Error>)
        requires
            old(self).ready(),
            old(self)@.can_number(),
        ensures
            final(self).clock() == old(self).clock(),
            r matches Ok(id) ==> old(self)@.unused(id@),
            final(self)@.coherent(),
            exists|now: Instant| #[trigger]
                old(self).clock().may_read(now) && (final(self)@, error::outcome(r)) == old(
                    self,
                )@.approve(governor.0@, identity_a@, identity_b@, expiry, req.deep_view(), now),
    {
        let now: Instant = self.clock.now();
        self.table.approve_grant_req(
            governor.0.as_str(),
            identity_a,
            identity_b,
            expiry,
            req,
            now,
        )
    }

    /// The recipient's consent alone makes a grant; for a hub without a governor.
    pub fn create_consent_grant(
        &mut self,
        identity_a: &str,
        identity_b: &str,
        expiry: Option<Duration>,
        req: ApproveGrantRequest,
    ) -> (r: Result<String, Error>)
        requires
            old(self).ready(),
            old(self)@.can_number(),
        ensures
            final(self).clock() == old(self).clock(),
            final(self)@.coherent(),
            error::outcome(r) == Ok::<Seq<char>, ErrorView>(old(self)@.next("grant"@)),
            old(self)@.unused(old(self)@.next("grant"@)),
            exists|now: Instant| #[trigger]
                old(self).clock().may_read(now) && final(self)@ == old(self)@.granted(
                    "recipient-consent"@,
                    identity_a@,
                    identity_b@,
                    expiry,
                    req.deep_view(),
                    now,
                ),
    {
        let now: Instant = self.clock.now();
        self.table.create_consent_grant(identity_a, identity_b, expiry, req, now)
    }

    /// Whether a message may pass between two identities.
    pub fn check_grant(&self, identity_a: &str, identity_b: &str) -> (r: Result<(), Error>)
        requires
            self.ready(),
        ensures
            exists|now: Instant| #[trigger]
                self.clock().may_read(now) && error::outcome(r) == match self@.check(
                    Ask { from: identity_a@, to: identity_b@, from_name: None, to_name: None },
                    now,
                ) {
                    Ok(_) => Ok(()),
                    Err(e) => Err(e),
                },
    {
        match self.check_grant_directed(identity_a, identity_b) {
            Ok(_) => Ok(()),
            Err(e) => Err(e),
        }
    }

    /// Whether a message may pass between two identities, and under which grant.
    pub fn check_grant_directed(&self, from: &str, to: &str) -> (r: Result<GrantRef, Error>)
        requires
            self.ready(),
        ensures
            exists|now: Instant| #[trigger]
                self.clock().may_read(now) && error::outcome(r) == self@.check(
                    Ask { from: from@, to: to@, from_name: None, to_name: None },
                    now,
                ),
    {
        self.check_grant_directed_with_names(from, to, None, None)
    }

    /// Whether a message may pass, and under which grant. A grant that holds the names of both
    /// parties is found by them.
    pub fn check_grant_directed_with_names(
        &self,
        from: &str,
        to: &str,
        from_name: Option<&str>,
        to_name: Option<&str>,
    ) -> (r: Result<GrantRef, Error>)
        requires
            self.ready(),
        ensures
            exists|now: Instant| #[trigger]
                self.clock().may_read(now) && error::outcome(r) == self@.check(
                    Ask {
                        from: from@,
                        to: to@,
                        from_name: from_name.deep_view(),
                        to_name: to_name.deep_view(),
                    },
                    now,
                ),
    {
        let now: Instant = self.clock.now();
        self.table.check_grant_directed_with_names(from, to, from_name, to_name, now)
    }

    /// Spends one message of a grant's budget.
    pub fn consume_grant_message(&mut self, grant_id: &str)
        requires
            old(self)@.grant(grant_id@) matches Some(g) ==> g.can_count(),
        ensures
            final(self).clock() == old(self).clock(),
            final(self)@.coherent(),
            final(self)@ == old(self)@.consume(grant_id@),
    {
        self.table.consume_grant_message(grant_id);
    }

    /// Whether the token is a governor that may act now.
    pub fn validate_governor_token(&self, token: &GovernorToken) -> (r: Result<(), Error>)
        requires
            self.ready(),
        ensures
            exists|now: Instant| #[trigger]
                self.clock().may_read(now) && error::outcome(r) == self@.verify(token.0@, now),
    {
        let now: Instant = self.clock.now();
        self.table.verify_governor(token.0.as_str(), now)
    }

    /// Some governor may act now.
    pub fn has_online_governor(&self) -> (r: bool)
        requires
            self.ready(),
        ensures
            exists|now: Instant| #[trigger]
                self.clock().may_read(now) && r == self@.some_online(now),
    {
        let now: Instant = self.clock.now();
        self.table.has_online_governor(now)
    }

    /// The governor may act now.
    pub fn is_governor_id_online(&self, id: &str) -> (r: bool)
        requires
            self.ready(),
        ensures
            exists|now: Instant| #[trigger]
                self.clock().may_read(now) && r == self@.online(id@, now),
    {
        let now: Instant = self.clock.now();
        self.table.is_governor_id_online(id, now)
    }

    /// Ties a governor to the session of a listen token.
    pub fn link_governor_session(&mut self, gov_token_id: &str, listen_token: &str)
        ensures
            final(self).clock() == old(self).clock(),
            final(self)@.coherent(),
            final(self)@ == old(self)@.link(gov_token_id@, listen_token@),
    {
        self.table.link_governor_session(gov_token_id, listen_token);
    }

    /// The identifiers of the grants that name `handle`, in order.
    pub fn grant_ids_for_handle(&self, handle: &str) -> (ids: Vec<String>)
        ensures
            ids.deep_view() == self@.grants.filter(|g: GrantView| g.names(handle@)).map_values(
                |g: GrantView| g.id,
            ),
    {
        self.table.grant_ids_for_handle(handle)
    }

    /// The authority behind a grant.
    pub fn grant_governor_id(&self, grant_id: &str) -> (r: Option<String>)
        ensures
            r.deep_view() == match self@.grant(grant_id@) {
                Some(g) => Some(g.governor_id),
                None => None,
            },
    {
        self.table.grant_governor_id(grant_id)
    }

    /// The grants that name `caller_name` and have not expired, in order.
    pub fn list_grants_for_name(&self, caller_name: &str) -> (items: Vec<GrantListItem>)
        requires
            self.ready(),
        ensures
            exists|now: Instant| #[trigger]
                self.clock().may_read(now) && items.deep_view() == self@.listed_for(caller_name@, now),
    {
        let now: Instant = self.clock.now();
        self.table.list_grants_for_name(caller_name, now)
    }

    /// The other party of each grant of the participant that has not expired, by name and by
    /// identity.
    pub fn grant_counterparties_for(&self, name: &str, identity: &str) -> (r: Vec<
        (Option<String>, String),
    >)
        requires
            self.ready(),
        ensures
            exists|now: Instant| #[trigger]
                self.clock().may_read(now) && r.deep_view() == counterparties(
                    self@.grants,
                    name@,
                    identity@,
                    now,
                ),
    {
        let now: Instant = self.clock.now();
        self.table.grant_counterparties_for(name, identity, now)
    }

    /// The grants that have not expired, in order; with a name given, those that name it.
    pub fn list_all_grants(&self, participant_filter: Option<&str>) -> (items: Vec<AllGrantItem>)
        requires
            self.ready(),
        ensures
            exists|now: Instant| #[trigger]
                self.clock().may_read(now) && items.deep_view() == self@.listed(
                    participant_filter.deep_view(),
                    now,
                ),
    {
        let now: Instant = self.clock.now();
        self.table.list_all_grants(participant_filter, now)
    }

    /// Whether a message under the grant opens a window for the reply.
    pub fn grant_opens_reply_window(&self, grant_id: &str) -> (r: Option<bool>)
        ensures
            r == match self@.grant(grant_id@) {
                Some(g) => Some(g.opens_reply_window),
                None => None,
            },
    {
        self.table.grant_opens_reply_window(grant_id)
    }

    /// Removes a grant; true where there was one.
    pub fn remove_grant(&mut self, grant_id: &str) -> (removed: bool)
        ensures
            final(self).clock() == old(self).clock(),
            final(self)@.coherent(),
            final(self)@ == old(self)@.remove_grant(grant_id@),
            removed == exists|i: int| old(self)@.first_at(grant_id@, i),
    {
        self.table.remove_grant(grant_id)
    }

    /// The two parties of a grant, by identity and by name.
    pub fn grant_parties(&self, grant_id: &str) -> (r: Option<
        (String, String, Option<String>, Option<String>),
    >)
        ensures
            match self@.grant(grant_id@) {
                Some(g) => r matches Some(p) && p.0@ == g.identity_a && p.1@ == g.identity_b
                    && p.2.deep_view() == g.name_a && p.3.deep_view() == g.name_b,
                None => r is None,
            },
    {
        self.table.grant_parties(grant_id)
    }

    /// Moves a governor's record to a new token.
    pub fn rotate_governor_token(&mut self, old_token: &GovernorToken) -> (r: Result<GovernorToken, Error>)
        requires
            old(self).ready(),
            old(self)@.can_number(),
        ensures
            final(self).clock() == old(self).clock(),
            r matches Ok(t) ==> old(self)@.unused(t.0@),
            final(self)@.coherent(),
            exists|now: Instant| #[trigger]
                old(self).clock().may_read(now) && (final(self)@, token_outcome(r)) == old(self)@.rotate(
                    old_token.0@,
                    now,
                ),
    {
        let now: Instant = self.clock.now();
        self.table.rotate_governor_token(old_token.0.as_str(), now)
    }

    /// When a governor's time is up, where it ever is.
    pub fn governor_expiry(&self, token: &GovernorToken) -> (r: Option<Instant>)
        ensures
            r == self@.governor_expiry(token.0@),
    {
        self.table.governor_expiry(token.0.as_str())
    }

    /// Gives one message of a grant's budget back.
    pub fn restore_grant_message(&mut self, grant_id: &str)
        ensures
            final(self).clock() == old(self).clock(),
            final(self)@.coherent(),
            final(self)@ == old(self)@.restore(grant_id@),
    {
        self.table.restore_grant_message(grant_id);
    }

    /// Puts the governorship on offer under a random transfer token of sixteen bytes.
    pub fn transfer_governor(&mut self, from: &GovernorToken, to_identity: Option<&str>) -> (r: Result<String, Error>)
        requires
            old(self).ready(),
        ensures
            final(self).clock() == old(self).clock(),
            final(self)@.coherent(),
            exists|now: Instant| #[trigger]
                old(self).clock().may_read(now) && match old(self)@.verify(from.0@, now) {
                    Err(e) => error::outcome(r) == Err::<Seq<char>, ErrorView>(e) && final(self)@ == old(
                        self,
                    )@,
                    Ok(_) => exists|bytes: Seq<u8>|
                        bytes.len() == 16 && r is Ok && r->Ok_0@ == #[trigger] text::hex_bytes(bytes)
                            && final(self)@ == old(self)@.offer(
                            from.0@,
                            to_identity.deep_view(),
                            r->Ok_0@,
                        ),
                },
    {
        let now: Instant = self.clock.now();
        self.table.transfer_governor(from.0.as_str(), to_identity, now)
    }

    /// Takes back every offer of the governorship.
    pub fn clear_pending_transfers(&mut self)
        ensures
            final(self).clock() == old(self).clock(),
            final(self)@.coherent(),
            final(self)@ == (TrustModel { transfers: Map::empty(), ..old(self)@ }),
    {
        self.table.clear_pending_transfers();
    }

    /// Makes the holder of a transfer token governor in place of the one who offered it.
    pub fn accept_governor_transfer(
        &mut self,
        transfer_token: &str,
        verified_bearer_identity: &str,
    ) -> (r: Result<GovernorToken, Error>)
        requires
            old(self)@.can_number(),
        ensures
            final(self).clock() == old(self).clock(),
            r matches Ok(t) ==> old(self)@.unused(t.0@),
            final(self)@.coherent(),
            (final(self)@, token_outcome(r)) == old(self)@.accept(
                transfer_token@,
                verified_bearer_identity@,
            ),
    {
        self.table.accept_governor_transfer(transfer_token, verified_bearer_identity)
    }

    /// Takes up stored credentials and grants; `unix` is the wall clock in whole seconds.
    pub fn load_from_store(
        &mut self,
        tokens: Vec<PersistedToken>,
        grants: Vec<PersistedGrant>,
        unix: u64,
    )
        requires
            old(self).ready(),
        ensures
            final(self).clock() == old(self).clock(),
            final(self)@.coherent(),
            exists|now: Instant| #[trigger]
                old(self).clock().may_read(now) && final(self)@ == old(self)@.load_tokens(
                    tokens.deep_view(),
                    now,
                    unix,
                ).load_grants(grants.deep_view(), now, unix),
    {
        let now: Instant = self.clock.now();
        self.table.load_from_store(tokens, grants, now, unix);
    }
}

} // verus!
