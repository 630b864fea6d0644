//! The state of trust in memory.

use crate::clock;
use crate::clock::{Duration, Instant};
use crate::error;
use crate::error::{Error, ErrorView};
use crate::laws;
use crate::persistence;
use crate::persistence::{PersistedGrant, PersistedToken};
use crate::random::draw_bytes;
use crate::seqs;
use crate::strmap;
use crate::strmap::StrMap;
use crate::text;
use crate::text::same;
use crate::trust;
use crate::trust::{
    AllGrantItem, ApproveGrantRequest, Ask, GovernorView, GrantDirection, GrantListItem,
    GrantMediation, GrantRef, GrantView, TransferView, TrustModel,
};
use crate::types::{copy_opt, GovernorToken};
use vstd::prelude::*;

verus! {

struct GovernorRecord {
    expires: Option<Instant>,
    online: bool,
    revoked: bool,
    /// The listen token of the governor's session.
    listen_token: Option<String>,
}

impl DeepView for GovernorRecord {
    type V = GovernorView;

    closed spec fn deep_view(&self) -> GovernorView {
        GovernorView {
            expires: self.expires,
            online: self.online,
            revoked: self.revoked,
            listen_token: self.listen_token.deep_view(),
        }
    }
}

struct PendingTransfer {
    from_gov_token: String,
    to_identity: Option<String>,
}

impl DeepView for PendingTransfer {
    type V = TransferView;

    closed spec fn deep_view(&self) -> TransferView {
        TransferView {
            from_gov_token: self.from_gov_token@,
            to_identity: self.to_identity.deep_view(),
        }
    }
}

struct Grant {
    id: String,
    identity_a: String,
    identity_b: String,
    name_a: Option<String>,
    name_b: Option<String>,
    expires: Option<Instant>,
    direction: GrantDirection,
    max_messages: Option<u64>,
    messages_used: u64,
    opens_reply_window: bool,
    governor_id: String,
    mediation: GrantMediation,
    conditions: Option<String>,
}

impl DeepView for Grant {
    type V = GrantView;

    closed spec fn deep_view(&self) -> GrantView {
        GrantView {
            id: self.id@,
            identity_a: self.identity_a@,
            identity_b: self.identity_b@,
            name_a: self.name_a.deep_view(),
            name_b: self.name_b.deep_view(),
            expires: self.expires,
            direction: self.direction,
            max_messages: self.max_messages,
            messages_used: self.messages_used,
            opens_reply_window: self.opens_reply_window,
            governor_id: self.governor_id@,
            mediation: self.mediation,
            conditions: self.conditions.deep_view(),
        }
    }
}

/// Where an optional string is `s`.
fn is(o: &Option<String>, s: &str) -> (r: bool)
    ensures
        r == (o.deep_view() == Some(s@)),
{
    match o {
        Some(t) => same(t.as_str(), s),
        None => false,
    }
}

fn passes_exec(direction: GrantDirection, a: &str, b: &str, from: &str, to: &str) -> (r: bool)
    ensures
        r == trust::passes(direction, a@, b@, from@, to@),
{
    match direction {
        GrantDirection::Symmetric => (same(a, from) && same(b, to)) || (same(a, to) && same(b, from)),
        GrantDirection::AToB => same(a, from) && same(b, to),
        GrantDirection::BToA => same(a, to) && same(b, from),
    }
}

fn grant_covers_directed_with_names(
    from: &str,
    to: &str,
    from_name: Option<&str>,
    to_name: Option<&str>,
    grant: &Grant,
) -> (r: bool)
    ensures
        r == grant.deep_view().covers(
            Ask {
                from: from@,
                to: to@,
                from_name: from_name.deep_view(),
                to_name: to_name.deep_view(),
            },
        ),
{
    match (&grant.name_a, &grant.name_b, from_name, to_name) {
        (Some(a), Some(b), Some(f), Some(t)) => passes_exec(
            grant.direction,
            a.as_str(),
            b.as_str(),
            f,
            t,
        ),
        _ => passes_exec(
            grant.direction,
            grant.identity_a.as_str(),
            grant.identity_b.as_str(),
            from,
            to,
        ),
    }
}

/// The number at the end of an identifier, zero where there is none.
fn parse_counter_val(id: &str) -> (n: u64)
    ensures
        n == trust::counter_of(id@),
{
    let tail = text::after_last_text(id, '-');
    match text::parse_decimal(tail.as_str(), u64::MAX) {
        Some(n) => n,
        None => 0,
    }
}

fn grant_id_num(grant: &Grant) -> (n: u64)
    ensures
        n == grant.deep_view().number(),
{
    match text::strip_prefix(grant.id.as_str(), "grant-") {
        Some(tail) => match text::parse_decimal(tail.as_str(), u64::MAX) {
            Some(n) => n,
            None => u64::MAX,
        },
        None => u64::MAX,
    }
}

/// Whether `b` stands before `a`.
fn is_better(b: &Grant, a: &Grant) -> (r: bool)
    ensures
        r == b.deep_view().better(a.deep_view()),
{
    let a_directed = match a.direction {
        GrantDirection::Symmetric => false,
        _ => true,
    };
    let b_directed = match b.direction {
        GrantDirection::Symmetric => false,
        _ => true,
    };
    if a_directed == b_directed {
        grant_id_num(b) < grant_id_num(a)
    } else {
        b_directed
    }
}

fn expired(expires: Option<Instant>, now: Instant) -> (r: bool)
    ensures
        r == (expires matches Some(end) && now >= end),
{
    match expires {
        Some(end) => now >= end,
        None => false,
    }
}

/// The end of something that starts now and lasts for `expiry`.
fn end_of(now: Instant, expiry: Option<Duration>) -> (r: Option<Instant>)
    requires
        now <= clock::LAST_INSTANT,
    ensures
        r == trust::ends(now, expiry),
{
    match expiry {
        Some(d) => Some(now + persistence::cap(d)),
        None => None,
    }
}

/// The state of trust, with the present handed in by the caller.
pub struct TrustTable {
    governors: StrMap<GovernorRecord>,
    grants: Vec<Grant>,
    transfers: StrMap<PendingTransfer>,
    counter: u64,
}

impl View for TrustTable {
    type V = TrustModel;

    closed spec fn view(&self) -> TrustModel {
        TrustModel {
            governors: self.governors@,
            grants: self.grants.deep_view(),
            transfers: self.transfers@,
            counter: self.counter,
        }
    }
}

impl TrustTable {
    #[verifier::type_invariant]
    spec fn in_order(self) -> bool {
        self@.coherent()
    }

    pub fn new() -> (t: Self)
        ensures
            t@ == TrustModel::empty(),
            t@.coherent(),
    {
        let t = TrustTable {
            governors: StrMap::new(),
            grants: Vec::new(),
            transfers: StrMap::new(),
            counter: 0,
        };
        assert(t@ =~= TrustModel::empty());
        t
    }

    /// The highest number given out so far.
    pub fn counter(&self) -> (n: u64)
        ensures
            n == self@.counter,
    {
        self.counter
    }

    /// Whether every grant with a budget can count another message, and every governor's time ends within what
    /// a clock reads.
    pub fn has_headroom(&self) -> (r: bool)
        ensures
            r == self@.has_headroom(),
    {
        let mut i: usize = 0;
        while i < self.grants.len()
            invariant
                i <= self.grants@.len(),
                forall|j: int|
                    0 <= j < i ==> (#[trigger] self@.grants[j]).can_count(),
            decreases self.grants@.len() - i,
        {
            assert(self@.grants[i as int] == self.grants[i as int].deep_view());
            if self.grants[i].max_messages.is_some() && self.grants[i].messages_used == u64::MAX {
                return false;
            }
            i += 1;
        }
        let ids = self.governors.keys();
        let ghost ks = ids.deep_view();
        let mut k: usize = 0;
        while k < ids.len()
            invariant
                k <= ids@.len(),
                ks == ids.deep_view(),
                ks.to_set() == self@.governors.dom(),
                forall|j: int|
                    0 <= j < k ==> self@.governors[#[trigger] ks[j]].within(2 * clock::LAST_INSTANT),
            decreases ids@.len() - k,
        {
            assert(ks.to_set().contains(ks[k as int]));
            if let Some(g) = self.governors.get(ids[k].as_str()) {
                if let Some(end) = g.expires {
                    if end > 2 * clock::LAST_INSTANT {
                        assert(!self@.governors[ks[k as int]].within(2 * clock::LAST_INSTANT));
                        return false;
                    }
                }
            }
            k += 1;
        }
        assert forall|id: Seq<char>| #[trigger]
            self@.governors.contains_key(id) implies self@.governors[id].within(
            2 * clock::LAST_INSTANT,
        ) by {
            assert(ks.to_set().contains(id));
            assert(ks[ks.index_of(id)] == id);
        }
        true
    }

    pub fn verify_governor(&self, token: &str, now: Instant) -> (r: Result<(), Error>)
        ensures
            error::outcome(r) == self@.verify(token@, now),
    {
        match self.governors.get(token) {
            Some(record) => {
                if record.revoked || !record.online {
                    return Err(Error::AuthFailed);
                }
                if expired(record.expires, now) {
                    return Err(Error::TokenExpired);
                }
                Ok(())
            },
            None => Err(Error::AuthFailed),
        }
    }

    // ── Changing one entry ───────────────────────────────────────────────────

    /// A copy of a governor's record.
    fn record(&self, id: &str) -> (r: Option<GovernorRecord>)
        ensures
            r is Some == self@.governors.contains_key(id@),
            r matches Some(g) ==> g.deep_view() == self@.governors[id@],
    {
        match self.governors.get(id) {
            Some(g) => Some(
                GovernorRecord {
                    expires: g.expires,
                    online: g.online,
                    revoked: g.revoked,
                    listen_token: copy_opt(&g.listen_token),
                },
            ),
            None => None,
        }
    }

    /// Sets a governor's record.
    fn put_governor(&mut self, id: String, record: GovernorRecord)
        requires
            trust::counter_of(id@) <= old(self)@.counter,
        ensures
            final(self)@ == (TrustModel {
                governors: old(self)@.governors.insert(id@, record.deep_view()),
                ..old(self)@
            }),
    {
        proof {
            use_type_invariant(&*self);
        }
        let mut own = TrustTable::new();
        std::mem::swap(self, &mut own);
        let mut governors = own.governors;
        let _ = governors.insert(id, record);
        *self = TrustTable {
            governors,
            grants: own.grants,
            transfers: own.transfers,
            counter: own.counter,
        };
    }

    /// Removes a governor's record.
    fn drop_governor(&mut self, id: &str)
        requires
            forall|t: Seq<char>| #[trigger]
                old(self)@.transfers.contains_key(t) ==> old(self)@.transfers[t].from_gov_token != id@,
        ensures
            final(self)@ == (TrustModel {
                governors: old(self)@.governors.remove(id@),
                ..old(self)@
            }),
    {
        proof {
            use_type_invariant(&*self);
        }
        let mut own = TrustTable::new();
        std::mem::swap(self, &mut own);
        let mut governors = own.governors;
        let _ = governors.remove(id);
        *self = TrustTable {
            governors,
            grants: own.grants,
            transfers: own.transfers,
            counter: own.counter,
        };
    }

    /// Sets an offer of the governorship.
    fn put_transfer(&mut self, token: String, transfer: PendingTransfer)
        requires
            old(self)@.governors.contains_key(transfer.deep_view().from_gov_token),
        ensures
            final(self)@ == (TrustModel {
                transfers: old(self)@.transfers.insert(token@, transfer.deep_view()),
                ..old(self)@
            }),
    {
        proof {
            use_type_invariant(&*self);
        }
        let mut own = TrustTable::new();
        std::mem::swap(self, &mut own);
        let mut transfers = own.transfers;
        let _ = transfers.insert(token, transfer);
        *self = TrustTable {
            governors: own.governors,
            grants: own.grants,
            transfers,
            counter: own.counter,
        };
    }

    /// Takes an offer of the governorship back.
    fn drop_transfer(&mut self, token: &str)
        ensures
            final(self)@ == (TrustModel {
                transfers: old(self)@.transfers.remove(token@),
                ..old(self)@
            }),
    {
        proof {
            use_type_invariant(&*self);
        }
        let mut own = TrustTable::new();
        std::mem::swap(self, &mut own);
        let mut transfers = own.transfers;
        let _ = transfers.remove(token);
        *self = TrustTable {
            governors: own.governors,
            grants: own.grants,
            transfers,
            counter: own.counter,
        };
    }

    /// Adds a grant at the end.
    fn add_grant(&mut self, grant: Grant)
        requires
            trust::counter_of(grant.deep_view().id) <= old(self)@.counter,
        ensures
            final(self)@ == (TrustModel {
                grants: old(self)@.grants.push(grant.deep_view()),
                ..old(self)@
            }),
    {
        proof {
            use_type_invariant(&*self);
        }
        let ghost was = self@.grants;
        let ghost g = grant.deep_view();
        let mut own = TrustTable::new();
        std::mem::swap(self, &mut own);
        let mut grants = own.grants;
        grants.push(grant);
        assert(grants.deep_view() =~= was.push(g));
        *self = TrustTable {
            governors: own.governors,
            grants,
            transfers: own.transfers,
            counter: own.counter,
        };
    }

    // ── Governors ────────────────────────────────────────────────────────────

    fn next_id(&mut self, word: &str) -> (id: String)
        requires
            old(self)@.can_number(),
        ensures
            id@ == old(self)@.next(word@),
            final(self)@ == (TrustModel { counter: (old(self)@.counter + 1) as u64, ..old(self)@ }),
            old(self)@.unused(id@),
            trust::counter_of(id@) == final(self)@.counter,
    {
        proof {
            use_type_invariant(&*self);
            laws::trust::law_new_identifier_unused(self@, word@);
            laws::trust::law_number_reads_back(word@, (self@.counter + 1) as u64);
        }
        self.counter = self.counter + 1;
        let numeral = text::decimal_text(self.counter);
        text::join3(word, "-", numeral.as_str())
    }

    /// The governors that are not revoked, in order.
    pub fn active_governor_tokens(&self) -> (ids: Vec<String>)
        ensures
            ids.deep_view().to_set() == self@.active(),
            strmap::ascending(ids.deep_view()),
    {
        let all = self.governors.keys();
        let ghost ks = all.deep_view();
        let mut ids: Vec<String> = Vec::new();
        let mut i: usize = 0;
        while i < all.len()
            invariant
                i <= all@.len(),
                ks == all.deep_view(),
                ks.to_set() == self@.governors.dom(),
                strmap::ascending(ks),
                strmap::ascending(ids.deep_view()),
                forall|k: Seq<char>| #[trigger]
                    ids.deep_view().contains(k) <==> ks.take(i as int).contains(k) && self@.active().contains(k),
            decreases all@.len() - i,
        {
            proof {
                seqs::lemma_take_next(ks, i as int);
                assert(ks.to_set().contains(ks[i as int]));
            }
            let active = match self.governors.get(all[i].as_str()) {
                Some(record) => !record.revoked,
                None => false,
            };
            if active {
                let ghost was = ids.deep_view();
                let id = all[i].clone();
                ids.push(id);
                assert(ids.deep_view() =~= was.push(id@));
                proof {
                    seqs::lemma_push_contains(was, id@);
                    assert forall|a: int, b: int| 0 <= a < b < was.len() + 1 implies #[trigger] text::lex_lt(
                        ids.deep_view()[a],
                        ids.deep_view()[b],
                    ) by {
                        if b < was.len() {
                            assert(text::lex_lt(was[a], was[b]));
                        } else {
                            assert(was.contains(was[a]));
                            let p = ks.take(i as int).index_of(was[a]);
                            assert(ks[p] == was[a]);
                            assert(text::lex_lt(ks[p], ks[i as int]));
                        }
                    }
                }
            }
            i += 1;
        }
        proof {
            assert(ks.take(i as int) =~= ks);
            assert forall|k: Seq<char>| self@.active().contains(k) implies ids.deep_view().contains(k) by {
                assert(ks.to_set().contains(k));
            }
            assert(ids.deep_view().to_set() =~= self@.active());
        }
        ids
    }

    /// Some governor is not revoked.
    pub fn has_active_governor(&self) -> (r: bool)
        ensures
            r == self@.governed(),
    {
        let ids = self.active_governor_tokens();
        proof {
            let ks = ids.deep_view();
            if ids@.len() > 0 {
                assert(ks.to_set().contains(ks[0]));
                assert(self@.active().contains(ks[0]));
                assert(self@.governors.contains_key(ks[0]));
            } else {
                assert forall|id: Seq<char>| #[trigger] self@.governors.contains_key(id) implies self@.governors[id].revoked by {
                    if !self@.governors[id].revoked {
                        assert(self@.active().contains(id));
                        assert(ks.to_set().contains(id));
                    }
                }
            }
        }
        ids.len() > 0
    }

    /// Installs a governor; who may have one installed is the caller's policy.
    pub fn install_governor(&mut self, expiry: Option<Duration>, now: Instant) -> (t: GovernorToken)
        requires
            old(self)@.can_number(),
            now <= clock::LAST_INSTANT,
        ensures
            t.0@ == old(self)@.next("gov"@),
            old(self)@.unused(t.0@),
            final(self)@ == old(self)@.install(expiry, now),
            final(self)@.coherent(),
    {
        let expires = end_of(now, expiry);
        let id = self.next_id("gov");
        self.put_governor(
            id.clone(),
            GovernorRecord { expires, online: true, revoked: false, listen_token: None },
        );
        proof {
            use_type_invariant(&*self);
        }
        GovernorToken(id)
    }

    /// Revokes every governor and returns those that were not revoked before, in order.
    pub fn revoke_all_governors(&mut self) -> (revoked: Vec<String>)
        ensures
            final(self)@ == old(self)@.revoke_all(),
            final(self)@.coherent(),
            revoked.deep_view().to_set() == old(self)@.active(),
            strmap::ascending(revoked.deep_view()),
    {
        let revoked = self.active_governor_tokens();
        let ghost ks = revoked.deep_view();
        let ghost before = self@;
        let mut i: usize = 0;
        while i < revoked.len()
            invariant
                i <= revoked@.len(),
                ks == revoked.deep_view(),
                ks.to_set() == before.active(),
                self@.grants == before.grants,
                self@.transfers == before.transfers,
                self@.counter == before.counter,
                self@.governors.dom() == before.governors.dom(),
                forall|k: Seq<char>| #[trigger]
                    self@.governors.contains_key(k) ==> self@.governors[k] == if ks.take(i as int).contains(k) {
                        GovernorView { revoked: true, ..before.governors[k] }
                    } else {
                        before.governors[k]
                    },
            decreases revoked@.len() - i,
        {
            proof {
                seqs::lemma_take_next(ks, i as int);
                assert(ks.to_set().contains(ks[i as int]));
                use_type_invariant(&*self);
            }
            if let Some(record) = self.record(revoked[i].as_str()) {
                self.put_governor(
                    revoked[i].clone(),
                    GovernorRecord {
                        expires: record.expires,
                        online: record.online,
                        revoked: true,
                        listen_token: record.listen_token,
                    },
                );
            }
            assert(self@.governors.dom() =~= before.governors.dom());
            i += 1;
        }
        proof {
            assert(ks.take(i as int) =~= ks);
            assert forall|k: Seq<char>| before.governors.contains_key(k) implies self@.governors[k]
                == before.revoke_all().governors[k] by {
                assert(self@.governors.contains_key(k));
                assert(ks.to_set().contains(k) == ks.contains(k));
                if !ks.contains(k) {
                    assert(!before.active().contains(k));
                }
            }
            assert(self@.governors =~= before.revoke_all().governors);
            use_type_invariant(&*self);
        }
        revoked
    }

    /// Marks a governor online or offline.
    pub fn set_governor_online(&mut self, id: &str, online: bool)
        ensures
            final(self)@ == old(self)@.set_online(id@, online),
            final(self)@.coherent(),
    {
        proof {
            use_type_invariant(&*self);
        }
        if let Some(record) = self.record(id) {
            self.put_governor(
                id.to_owned(),
                GovernorRecord {
                    expires: record.expires,
                    online,
                    revoked: record.revoked,
                    listen_token: record.listen_token,
                },
            );
        }
        assert(self@ =~= old(self)@.set_online(id@, online));
        proof {
            use_type_invariant(&*self);
        }
    }

    /// Ties a governor to the session of a listen token.
    pub fn link_governor_session(&mut self, id: &str, listen_token: &str)
        ensures
            final(self)@ == old(self)@.link(id@, listen_token@),
            final(self)@.coherent(),
    {
        proof {
            use_type_invariant(&*self);
        }
        if let Some(record) = self.record(id) {
            self.put_governor(
                id.to_owned(),
                GovernorRecord {
                    expires: record.expires,
                    online: record.online,
                    revoked: record.revoked,
                    listen_token: Some(listen_token.to_owned()),
                },
            );
        }
        assert(self@ =~= old(self)@.link(id@, listen_token@));
        proof {
            use_type_invariant(&*self);
        }
    }

    /// Makes a grant under the authority `governor_id`.
    fn push_grant(
        &mut self,
        governor_id: &str,
        identity_a: &str,
        identity_b: &str,
        expiry: Option<Duration>,
        req: ApproveGrantRequest,
        now: Instant,
    ) -> (id: String)
        requires
            old(self)@.can_number(),
            now <= clock::LAST_INSTANT,
        ensures
            id@ == old(self)@.next("grant"@),
            old(self)@.unused(id@),
            final(self)@ == old(self)@.granted(
                governor_id@,
                identity_a@,
                identity_b@,
                expiry,
                req.deep_view(),
                now,
            ),
    {
        let expires = end_of(now, expiry);
        let id = self.next_id("grant");
        let grant = Grant {
            id: id.clone(),
            identity_a: identity_a.to_owned(),
            identity_b: identity_b.to_owned(),
            name_a: req.name_a,
            name_b: req.name_b,
            expires,
            direction: match req.direction {
                Some(d) => d,
                None => GrantDirection::Symmetric,
            },
            max_messages: req.max_messages,
            messages_used: 0,
            opens_reply_window: match req.opens_reply_window {
                Some(w) => w,
                None => true,
            },
            governor_id: governor_id.to_owned(),
            mediation: match req.mediation {
                Some(m) => m,
                None => GrantMediation::Bypass,
            },
            conditions: req.conditions,
        };
        self.add_grant(grant);
        id
    }

    /// A governor that may act makes a grant between two identities.
    pub fn approve_grant_req(
        &mut self,
        governor: &str,
        identity_a: &str,
        identity_b: &str,
        expiry: Option<Duration>,
        req: ApproveGrantRequest,
        now: Instant,
    ) -> (r: Result<String, Error>)
        requires
            old(self)@.can_number(),
            now <= clock::LAST_INSTANT,
        ensures
            (final(self)@, error::outcome(r)) == old(self)@.approve(
                governor@,
                identity_a@,
                identity_b@,
                expiry,
                req.deep_view(),
                now,
            ),
            r matches Ok(id) ==> old(self)@.unused(id@),
            final(self)@.coherent(),
    {
        let r = match self.verify_governor(governor, now) {
            Ok(_) => Ok(self.push_grant(governor, identity_a, identity_b, expiry, req, now)),
            Err(e) => Err(e),
        };
        proof {
            use_type_invariant(&*self);
        }
        r
    }

    /// The recipient's consent alone makes a grant; for a hub without a governor.
    pub fn create_consent_grant(
        &mut self,
        identity_a: &str,
        identity_b: &str,
        expiry: Option<Duration>,
        req: ApproveGrantRequest,
        now: Instant,
    ) -> (r: Result<String, Error>)
        requires
            old(self)@.can_number(),
            now <= clock::LAST_INSTANT,
        ensures
            error::outcome(r) == Ok::<Seq<char>, ErrorView>(old(self)@.next("grant"@)),
            old(self)@.unused(old(self)@.next("grant"@)),
            final(self)@ == old(self)@.granted(
                "recipient-consent"@,
                identity_a@,
                identity_b@,
                expiry,
                req.deep_view(),
                now,
            ),
            final(self)@.coherent(),
    {
        let id = self.push_grant("recipient-consent", identity_a, identity_b, expiry, req, now);
        proof {
            use_type_invariant(&*self);
        }
        Ok(id)
    }

    /// Whether a message may pass, and under which grant.
    pub fn check_grant_directed_with_names(
        &self,
        from: &str,
        to: &str,
        from_name: Option<&str>,
        to_name: Option<&str>,
        now: Instant,
    ) -> (r: Result<GrantRef, Error>)
        ensures
            error::outcome(r) == self@.check(
                Ask {
                    from: from@,
                    to: to@,
                    from_name: from_name.deep_view(),
                    to_name: to_name.deep_view(),
                },
                now,
            ),
    {
        let ghost ask = Ask {
            from: from@,
            to: to@,
            from_name: from_name.deep_view(),
            to_name: to_name.deep_view(),
        };
        let ghost gs = self@.grants;
        let mut best: Option<usize> = None;
        let mut found_exhausted = false;
        let mut found_expired = false;
        let mut i: usize = 0;
        while i < self.grants.len()
            invariant
                i <= self.grants@.len(),
                gs == self@.grants,
                ask == (Ask {
                    from: from@,
                    to: to@,
                    from_name: from_name.deep_view(),
                    to_name: to_name.deep_view(),
                }),
                found_expired ==> exists|j: int|
                    0 <= j < gs.len() && (#[trigger] gs[j]).covers(ask) && gs[j].expired(now),
                found_exhausted ==> exists|j: int|
                    0 <= j < gs.len() && (#[trigger] gs[j]).covers(ask) && !gs[j].expired(now),
                forall|j: int|
                    0 <= j < i && (#[trigger] gs[j]).covers(ask) ==> (if gs[j].expired(now) {
                        found_expired
                    } else {
                        gs[j].exhausted() ==> found_exhausted
                    }),
                best matches Some(b) ==> b < i && gs[b as int].usable(ask, now),
                forall|j: int|
                    0 <= j < i && (#[trigger] gs[j]).usable(ask, now) ==> (best matches Some(b)
                        && !gs[j].better(gs[b as int]) && (gs[b as int].better(gs[j]) || b <= j)),
            decreases self.grants@.len() - i,
        {
            let grant = &self.grants[i];
            assert(gs[i as int] == grant.deep_view());
            if grant_covers_directed_with_names(from, to, from_name, to_name, grant) {
                if expired(grant.expires, now) {
                    found_expired = true;
                } else {
                    let spent = match grant.max_messages {
                        Some(max) => grant.messages_used >= max,
                        None => false,
                    };
                    if spent {
                        found_exhausted = true;
                    } else {
                        best = match best {
                            None => Some(i),
                            Some(b) => {
                                assert(gs[b as int] == self.grants[b as int].deep_view());
                                if is_better(grant, &self.grants[b]) {
                                    Some(i)
                                } else {
                                    Some(b)
                                }
                            },
                        };
                    }
                }
            }
            i += 1;
        }
        match best {
            Some(b) => {
                let grant = &self.grants[b];
                proof {
                    assert(self@.best_at(ask, now, b as int));
                    let c = choose|c: int| self@.best_at(ask, now, c);
                    assert(self@.best_at(ask, now, c));
                    assert(gs[c].usable(ask, now) && gs[b as int].usable(ask, now));
                    assert(c == b);
                    assert(gs[b as int] == grant.deep_view());
                }
                Ok(
                    GrantRef {
                        id: grant.id.clone(),
                        opens_reply_window: grant.opens_reply_window,
                        mediation: grant.mediation,
                        governor_id: grant.governor_id.clone(),
                        conditions: copy_opt(&grant.conditions),
                    },
                )
            },
            None => {
                assert(!exists|c: int| self@.best_at(ask, now, c)) by {
                    if exists|c: int| self@.best_at(ask, now, c) {
                        let c = choose|c: int| self@.best_at(ask, now, c);
                        assert(gs[c].usable(ask, now));
                    }
                }
                if found_exhausted {
                    Err(Error::GrantExhausted)
                } else if found_expired {
                    Err(Error::GrantExpired)
                } else {
                    Err(Error::NoGrant)
                }
            },
        }
    }

    /// The place of the first grant with that identifier.
    fn position(&self, grant_id: &str) -> (r: Option<usize>)
        ensures
            match r {
                Some(i) => {
                    &&& self@.first_at(grant_id@, i as int)
                    &&& i < self.grants@.len()
                    &&& self@.grant(grant_id@) == Some(self.grants@[i as int].deep_view())
                    &&& forall|j: int| self@.first_at(grant_id@, j) ==> j == i
                },
                None => {
                    &&& forall|j: int| !self@.first_at(grant_id@, j)
                    &&& self@.grant(grant_id@) is None
                },
            },
    {
        let ghost gs = self@.grants;
        let mut i: usize = 0;
        while i < self.grants.len()
            invariant
                i <= self.grants@.len(),
                gs == self@.grants,
                forall|j: int| 0 <= j < i ==> (#[trigger] gs[j]).id != grant_id@,
            decreases self.grants@.len() - i,
        {
            assert(gs[i as int] == self.grants@[i as int].deep_view());
            if same(self.grants[i].id.as_str(), grant_id) {
                proof {
                    assert(self@.first_at(grant_id@, i as int));
                    let c = choose|c: int| self@.first_at(grant_id@, c);
                    assert(self@.first_at(grant_id@, c));
                    assert forall|j: int| self@.first_at(grant_id@, j) implies j == i by {
                        if j < i {
                            assert(gs[j].id != grant_id@);
                        } else if i < j {
                            assert(gs[i as int].id != grant_id@);
                        }
                    }
                }
                return Some(i);
            }
            i += 1;
        }
        None
    }

    /// Replaces the count of messages under the grant at `i`.
    fn set_used(&mut self, i: usize, used: u64)
        requires
            i < old(self)@.grants.len(),
        ensures
            final(self)@ == (TrustModel {
                grants: old(self)@.grants.update(
                    i as int,
                    GrantView { messages_used: used, ..old(self)@.grants[i as int] },
                ),
                ..old(self)@
            }),
    {
        proof {
            use_type_invariant(&*self);
        }
        let ghost was = self@.grants;
        let mut own = TrustTable::new();
        std::mem::swap(self, &mut own);
        let mut grants = own.grants;
        let g = grants.remove(i);
        assert(was[i as int] == g.deep_view());
        let grant = Grant { messages_used: used, ..g };
        let ghost v = grant.deep_view();
        grants.insert(i, grant);
        assert(grants.deep_view() =~= was.update(i as int, v));
        *self = TrustTable {
            governors: own.governors,
            grants,
            transfers: own.transfers,
            counter: own.counter,
        };
    }

    /// Spends one message of a grant's budget.
    pub fn consume_grant_message(&mut self, grant_id: &str)
        requires
            old(self)@.grant(grant_id@) matches Some(g) ==> g.can_count(),
        ensures
            final(self)@ == old(self)@.consume(grant_id@),
            final(self)@.coherent(),
    {
        if let Some(i) = self.position(grant_id) {
            let ghost g = self@.grants[i as int];
            assert(g == self.grants@[i as int].deep_view());
            if self.grants[i].max_messages.is_some() {
                let used: u64 = self.grants[i].messages_used + 1;
                self.set_used(i, used);
            }
        }
        assert(self@.grants =~= old(self)@.consume(grant_id@).grants);
        proof {
            use_type_invariant(&*self);
        }
    }

    /// Gives one message of a grant's budget back.
    pub fn restore_grant_message(&mut self, grant_id: &str)
        ensures
            final(self)@ == old(self)@.restore(grant_id@),
            final(self)@.coherent(),
    {
        if let Some(i) = self.position(grant_id) {
            let ghost g = self@.grants[i as int];
            assert(g == self.grants@[i as int].deep_view());
            if self.grants[i].max_messages.is_some() && self.grants[i].messages_used > 0 {
                let used: u64 = self.grants[i].messages_used - 1;
                self.set_used(i, used);
            }
        }
        assert(self@.grants =~= old(self)@.restore(grant_id@).grants);
        proof {
            use_type_invariant(&*self);
        }
    }

    /// Some governor may act now.
    pub fn has_online_governor(&self, now: Instant) -> (r: bool)
        ensures
            r == self@.some_online(now),
    {
        let all = self.governors.keys();
        let ghost ks = all.deep_view();
        let mut i: usize = 0;
        while i < all.len()
            invariant
                i <= all@.len(),
                ks == all.deep_view(),
                ks.to_set() == self@.governors.dom(),
                forall|j: int| 0 <= j < i ==> !self@.online(#[trigger] ks[j], now),
            decreases all@.len() - i,
        {
            assert(ks.to_set().contains(ks[i as int]));
            if self.is_governor_id_online(all[i].as_str(), now) {
                return true;
            }
            i += 1;
        }
        assert forall|id: Seq<char>| !self@.online(id, now) by {
            if self@.governors.contains_key(id) {
                assert(ks.to_set().contains(id));
                assert(ks[ks.index_of(id)] == id);
            }
        }
        false
    }

    /// The governor may act now.
    pub fn is_governor_id_online(&self, id: &str, now: Instant) -> (r: bool)
        ensures
            r == self@.online(id@, now),
    {
        match self.governors.get(id) {
            Some(r) => !r.revoked && r.online && !expired(r.expires, now),
            None => false,
        }
    }

    /// The identifiers of the grants that name `handle`, in order.
    pub fn grant_ids_for_handle(&self, handle: &str) -> (ids: Vec<String>)
        ensures
            ids.deep_view() == self@.grants.filter(|g: GrantView| g.names(handle@)).map_values(
                |g: GrantView| g.id,
            ),
    {
        let ghost gs = self@.grants;
        let ghost p = |g: GrantView| g.names(handle@);
        let ghost f = |g: GrantView| g.id;
        let mut ids: Vec<String> = Vec::new();
        let mut i: usize = 0;
        proof {
            seqs::lemma_filter_empty(gs.take(0), p);
            assert(ids.deep_view() =~= gs.take(0).filter(p).map_values(f));
        }
        while i < self.grants.len()
            invariant
                i <= self.grants@.len(),
                gs == self@.grants,
                p == (|g: GrantView| g.names(handle@)),
                f == (|g: GrantView| g.id),
                ids.deep_view() == gs.take(i as int).filter(p).map_values(f),
            decreases self.grants@.len() - i,
        {
            let ghost was = ids.deep_view();
            let ghost before = gs.take(i as int).filter(p);
            proof {
                seqs::lemma_filter_next(gs, i as int, p);
            }
            let g = &self.grants[i];
            assert(gs[i as int] == g.deep_view());
            if is(&g.name_a, handle) || is(&g.name_b, handle) {
                let id = g.id.clone();
                ids.push(id);
                assert(ids.deep_view() =~= was.push(id@));
                assert(before.push(gs[i as int]).map_values(f) =~= before.map_values(f).push(id@));
            }
            i += 1;
        }
        assert(gs.take(i as int) =~= gs);
        ids
    }

    /// The authority behind a grant.
    pub fn grant_governor_id(&self, grant_id: &str) -> (r: Option<String>)
        ensures
            r.deep_view() == match self@.grant(grant_id@) {
                Some(g) => Some(g.governor_id),
                None => None,
            },
    {
        match self.position(grant_id) {
            Some(i) => Some(self.grants[i].governor_id.clone()),
            None => None,
        }
    }

    /// The grants that name `caller_name` and have not expired, in order.
    pub fn list_grants_for_name(&self, caller_name: &str, now: Instant) -> (items: Vec<GrantListItem>)
        ensures
            items.deep_view() == self@.listed_for(caller_name@, now),
    {
        let ghost gs = self@.grants;
        let ghost p = |g: GrantView| !g.expired(now) && g.names(caller_name@);
        let ghost f = |g: GrantView| g.list_item(caller_name@);
        let mut items: Vec<GrantListItem> = Vec::new();
        let mut i: usize = 0;
        proof {
            seqs::lemma_filter_empty(gs.take(0), p);
            assert(items.deep_view() =~= gs.take(0).filter(p).map_values(f));
        }
        while i < self.grants.len()
            invariant
                i <= self.grants@.len(),
                gs == self@.grants,
                p == (|g: GrantView| !g.expired(now) && g.names(caller_name@)),
                f == (|g: GrantView| g.list_item(caller_name@)),
                items.deep_view() == gs.take(i as int).filter(p).map_values(f),
            decreases self.grants@.len() - i,
        {
            let ghost was = items.deep_view();
            let ghost before = gs.take(i as int).filter(p);
            proof {
                seqs::lemma_filter_next(gs, i as int, p);
            }
            let g = &self.grants[i];
            assert(gs[i as int] == g.deep_view());
            if !expired(g.expires, now) && (is(&g.name_a, caller_name) || is(&g.name_b, caller_name)) {
                let other = if is(&g.name_a, caller_name) {
                    copy_opt(&g.name_b)
                } else {
                    copy_opt(&g.name_a)
                };
                let counterparty = match other {
                    Some(n) => n,
                    None => String::new(),
                };
                let item = GrantListItem {
                    id: g.id.clone(),
                    counterparty,
                    direction: g.direction,
                    expires: g.expires,
                };
                let ghost v = item.deep_view();
                items.push(item);
                assert(v == f(gs[i as int]));
                assert(items.deep_view() =~= was.push(v));
                assert(before.push(gs[i as int]).map_values(f) =~= before.map_values(f).push(v));
            }
            i += 1;
        }
        assert(gs.take(i as int) =~= gs);
        items
    }

    /// The grants that have not expired, in order; with a name given, those that name it.
    pub fn list_all_grants(&self, participant_filter: Option<&str>, now: Instant) -> (items: Vec<
        AllGrantItem,
    >)
        ensures
            items.deep_view() == self@.listed(participant_filter.deep_view(), now),
    {
        let ghost gs = self@.grants;
        let ghost filter = participant_filter.deep_view();
        let ghost p = |g: GrantView| !g.expired(now) && (filter matches Some(name) ==> g.names(name));
        let ghost f = |g: GrantView| g.all_item();
        let mut items: Vec<AllGrantItem> = Vec::new();
        let mut i: usize = 0;
        proof {
            seqs::lemma_filter_empty(gs.take(0), p);
            assert(items.deep_view() =~= gs.take(0).filter(p).map_values(f));
        }
        while i < self.grants.len()
            invariant
                i <= self.grants@.len(),
                gs == self@.grants,
                filter == participant_filter.deep_view(),
                p == (|g: GrantView|
                    !g.expired(now) && (filter matches Some(name) ==> g.names(name))),
                f == (|g: GrantView| g.all_item()),
                items.deep_view() == gs.take(i as int).filter(p).map_values(f),
            decreases self.grants@.len() - i,
        {
            let ghost was = items.deep_view();
            let ghost before = gs.take(i as int).filter(p);
            proof {
                seqs::lemma_filter_next(gs, i as int, p);
            }
            let g = &self.grants[i];
            assert(gs[i as int] == g.deep_view());
            let wanted = match participant_filter {
                Some(name) => is(&g.name_a, name) || is(&g.name_b, name),
                None => true,
            };
            if !expired(g.expires, now) && wanted {
                let item = AllGrantItem {
                    id: g.id.clone(),
                    identity_a: g.identity_a.clone(),
                    identity_b: g.identity_b.clone(),
                    name_a: copy_opt(&g.name_a),
                    name_b: copy_opt(&g.name_b),
                    direction: g.direction,
                    expires: g.expires,
                };
                let ghost v = item.deep_view();
                items.push(item);
                assert(v == f(gs[i as int]));
                assert(items.deep_view() =~= was.push(v));
                assert(before.push(gs[i as int]).map_values(f) =~= before.map_values(f).push(v));
            }
            i += 1;
        }
        assert(gs.take(i as int) =~= gs);
        items
    }

    /// The other party of each grant of the participant that has not expired.
    pub fn grant_counterparties_for(&self, name: &str, identity: &str, now: Instant) -> (r: Vec<
        (Option<String>, String),
    >)
        ensures
            r.deep_view() == trust::counterparties(self@.grants, name@, identity@, now),
    {
        let ghost gs = self@.grants;
        let mut seen: strmap::StrSet = strmap::StrSet::new();
        let mut result: Vec<(Option<String>, String)> = Vec::new();
        let mut i: usize = 0;
        assert(result.deep_view() =~= trust::counterparties(gs.take(0), name@, identity@, now));
        while i < self.grants.len()
            invariant
                i <= self.grants@.len(),
                gs == self@.grants,
                forall|id: Seq<char>| #[trigger]
                    seen@.contains(id) <==> exists|j: int|
                        0 <= j < i && trust::relevant(#[trigger] gs[j], name@, identity@, now) && gs[j].id == id,
                result.deep_view() == trust::counterparties(gs.take(i as int), name@, identity@, now),
            decreases self.grants@.len() - i,
        {
            let ghost was = result.deep_view();
            let g = &self.grants[i];
            let ghost v = gs[i as int];
            let ghost next = gs.take(i + 1);
            proof {
                assert(v == g.deep_view());
                assert(next.drop_last() =~= gs.take(i as int));
                assert(next.last() == v);
                assert forall|j: int| 0 <= j < i implies next[j] == gs[j] by {}
            }
            let a = is(&g.name_a, name) || same(g.identity_a.as_str(), identity);
            let b = is(&g.name_b, name) || same(g.identity_b.as_str(), identity);
            if !expired(g.expires, now) && (a || b) {
                let ghost met = seen@;
                assert(trust::relevant(v, name@, identity@, now));
                let fresh = seen.insert(g.id.clone());
                assert forall|id: Seq<char>| #[trigger] seen@.contains(id) implies exists|j: int|
                    0 <= j < i + 1 && trust::relevant(#[trigger] gs[j], name@, identity@, now) && gs[j].id == id by {
                    if id == v.id {
                        assert(trust::relevant(gs[i as int], name@, identity@, now));
                    } else {
                        assert(met.contains(id));
                    }
                }
                if fresh {
                    assert(!(exists|j: int|
                        0 <= j < next.len() - 1 && trust::relevant(#[trigger] next[j], name@, identity@, now)
                            && next[j].id == v.id)) by {
                        if exists|j: int|
                            0 <= j < next.len() - 1 && trust::relevant(#[trigger] next[j], name@, identity@, now)
                                && next[j].id == v.id {
                            let j = choose|j: int|
                                0 <= j < next.len() - 1 && trust::relevant(
                                    #[trigger] next[j],
                                    name@,
                                    identity@,
                                    now,
                                ) && next[j].id == v.id;
                            assert(trust::relevant(gs[j], name@, identity@, now));
                            assert(met.contains(v.id));
                        }
                    }
                    let other = if a {
                        (copy_opt(&g.name_b), g.identity_b.clone())
                    } else {
                        (copy_opt(&g.name_a), g.identity_a.clone())
                    };
                    let ghost o = other.deep_view();
                    result.push(other);
                    assert(result.deep_view() =~= was.push(o));
                } else {
                    proof {
                        assert(met.contains(v.id));
                        let j = choose|j: int|
                            0 <= j < i && trust::relevant(#[trigger] gs[j], name@, identity@, now) && gs[j].id
                                == v.id;
                        assert(trust::relevant(next[j], name@, identity@, now));
                    }
                }
            } else {
                assert(!trust::relevant(v, name@, identity@, now));
            }
            i += 1;
        }
        assert(gs.take(i as int) =~= gs);
        result
    }

    /// Whether a message under the grant opens a window for the reply.
    pub fn grant_opens_reply_window(&self, grant_id: &str) -> (r: Option<bool>)
        ensures
            r == match self@.grant(grant_id@) {
                Some(g) => Some(g.opens_reply_window),
                None => None,
            },
    {
        match self.position(grant_id) {
            Some(i) => Some(self.grants[i].opens_reply_window),
            None => None,
        }
    }

    /// Removes a grant; true where there was one.
    pub fn remove_grant(&mut self, grant_id: &str) -> (removed: bool)
        ensures
            final(self)@ == old(self)@.remove_grant(grant_id@),
            final(self)@.coherent(),
            removed == exists|i: int| old(self)@.first_at(grant_id@, i),
    {
        let found = self.position(grant_id).is_some();
        let ghost gs = self@.grants;
        let ghost p = |g: GrantView| g.id != grant_id@;
        let ghost mut n: int = 0;
        let mut kept: Vec<Grant> = Vec::new();
        proof {
            use_type_invariant(&*self);
            laws::trust::lemma_remove_grant_coherent(self@, grant_id@);
        }
        let mut own = TrustTable::new();
        std::mem::swap(self, &mut own);
        let mut grants = own.grants;
        proof {
            seqs::lemma_filter_empty(gs.take(0), p);
            assert(kept.deep_view() =~= gs.take(0).filter(p));
            assert(grants.deep_view() =~= gs.skip(0));
        }
        while grants.len() > 0
            invariant
                0 <= n <= gs.len(),
                p == (|g: GrantView| g.id != grant_id@),
                grants@.len() == gs.len() - n,
                grants.deep_view() == gs.skip(n),
                kept.deep_view() == gs.take(n).filter(p),
            decreases grants@.len(),
        {
            let ghost was = kept.deep_view();
            let ghost left = grants.deep_view();
            proof {
                seqs::lemma_filter_next(gs, n, p);
                assert(left[0] == gs[n]);
            }
            let g = grants.remove(0);
            assert(g.deep_view() == gs[n]);
            assert(grants.deep_view() =~= left.drop_first());
            assert(left.drop_first() =~= gs.skip(n + 1));
            if !same(g.id.as_str(), grant_id) {
                let ghost v = g.deep_view();
                kept.push(g);
                assert(kept.deep_view() =~= was.push(v));
            }
            proof {
                n = n + 1;
            }
        }
        assert(gs.take(n) =~= gs);
        *self = TrustTable {
            governors: own.governors,
            grants: kept,
            transfers: own.transfers,
            counter: own.counter,
        };
        proof {
            use_type_invariant(&*self);
        }
        found
    }

    /// The two parties of a grant, by identity and by name.
    pub fn grant_parties(&self, grant_id: &str) -> (r: Option<
        (String, String, Option<String>, Option<String>),
    >)
        ensures
            match self@.grant(grant_id@) {
                Some(g) => r matches Some(p) && p.0@ == g.identity_a && p.1@ == g.identity_b
                    && p.2.deep_view() == g.name_a && p.3.deep_view() == g.name_b,
                None => r is None,
            },
    {
        match self.position(grant_id) {
            Some(i) => {
                let g = &self.grants[i];
                Some(
                    (
                        g.identity_a.clone(),
                        g.identity_b.clone(),
                        copy_opt(&g.name_a),
                        copy_opt(&g.name_b),
                    ),
                )
            },
            None => None,
        }
    }

    /// Moves a governor's record to a new token.
    pub fn rotate_governor_token(&mut self, old_token: &str, now: Instant) -> (r: Result<
        GovernorToken,
        Error,
    >)
        requires
            old(self)@.can_number(),
        ensures
            (final(self)@, trust::token_outcome(r)) == old(self)@.rotate(old_token@, now),
            r matches Ok(t) ==> old(self)@.unused(t.0@),
            final(self)@.coherent(),
    {
        proof {
            use_type_invariant(&*self);
        }
        match self.verify_governor(old_token, now) {
            Ok(_) => {},
            Err(e) => return Err(e),
        }
        match self.record(old_token) {
            Some(record) => {
                let new_id = self.next_id("gov");
                self.put_governor(new_id.clone(), record);
                self.move_offers(old_token, new_id.as_str());
                self.drop_governor(old_token);
                proof {
                    use_type_invariant(&*self);
                    assert(self@ =~= old(self)@.rotate(old_token@, now).0);
                }
                Ok(GovernorToken(new_id))
            },
            None => Err(Error::AuthFailed),
        }
    }

    /// What one governor has put on offer becomes the offer of another.
    fn move_offers(&mut self, from: &str, to: &str)
        requires
            old(self)@.governors.contains_key(to@),
        ensures
            final(self)@ == (TrustModel {
                transfers: old(self)@.offers_moved(from@, to@),
                ..old(self)@
            }),
    {
        let tokens = self.transfers.keys();
        let ghost ks = tokens.deep_view();
        let ghost before = self@;
        let mut i: usize = 0;
        while i < tokens.len()
            invariant
                i <= tokens@.len(),
                ks == tokens.deep_view(),
                ks.to_set() == before.transfers.dom(),
                strmap::ascending(ks),
                before.governors.contains_key(to@),
                self@.governors == before.governors,
                self@.grants == before.grants,
                self@.counter == before.counter,
                self@.transfers.dom() == before.transfers.dom(),
                forall|k: Seq<char>| #[trigger]
                    self@.transfers.contains_key(k) ==> self@.transfers[k] == if ks.take(i as int).contains(k) {
                        before.offers_moved(from@, to@)[k]
                    } else {
                        before.transfers[k]
                    },
            decreases tokens@.len() - i,
        {
            proof {
                seqs::lemma_take_next(ks, i as int);
                assert(ks.to_set().contains(ks[i as int]));
                strmap::lemma_ascending_distinct(ks);
                assert(!ks.take(i as int).contains(ks[i as int]));
            }
            let token = tokens[i].as_str();
            let moved = match self.transfers.get(token) {
                Some(t) => if same(t.from_gov_token.as_str(), from) {
                    Some(copy_opt(&t.to_identity))
                } else {
                    None
                },
                None => None,
            };
            if let Some(to_identity) = moved {
                self.put_transfer(
                    tokens[i].clone(),
                    PendingTransfer { from_gov_token: to.to_owned(), to_identity },
                );
            }
            assert(self@.transfers.dom() =~= before.transfers.dom());
            i += 1;
        }
        proof {
            assert(ks.take(i as int) =~= ks);
            assert forall|k: Seq<char>| before.transfers.contains_key(k) implies self@.transfers[k]
                == before.offers_moved(from@, to@)[k] by {
                assert(self@.transfers.contains_key(k));
                assert(ks.to_set().contains(k));
            }
            assert(self@.transfers =~= before.offers_moved(from@, to@));
        }
    }

    /// When a governor's time is up, where it ever is.
    pub fn governor_expiry(&self, token: &str) -> (r: Option<Instant>)
        ensures
            r == self@.governor_expiry(token@),
    {
        match self.governors.get(token) {
            Some(record) => record.expires,
            None => None,
        }
    }

    /// Puts the governorship on offer under a transfer token made from `bytes`.
    pub fn offer_transfer(
        &mut self,
        from: &str,
        to_identity: Option<&str>,
        bytes: &Vec<u8>,
        now: Instant,
    ) -> (r: Result<String, Error>)
        ensures
            match old(self)@.verify(from@, now) {
                Err(e) => error::outcome(r) == Err::<Seq<char>, ErrorView>(e) && final(self)@ == old(self)@,
                Ok(_) => {
                    &&& error::outcome(r) == Ok::<Seq<char>, ErrorView>(text::hex_bytes(bytes@))
                    &&& final(self)@ == old(self)@.offer(
                        from@,
                        to_identity.deep_view(),
                        text::hex_bytes(bytes@),
                    )
                },
            },
            final(self)@.coherent(),
    {
        proof {
            use_type_invariant(&*self);
        }
        match self.verify_governor(from, now) {
            Ok(_) => {},
            Err(e) => return Err(e),
        }
        let transfer_token = text::hex_bytes_text(bytes);
        let to_identity = match to_identity {
            Some(s) => Some(s.to_owned()),
            None => None,
        };
        self.put_transfer(
            transfer_token.clone(),
            PendingTransfer { from_gov_token: from.to_owned(), to_identity },
        );
        proof {
            use_type_invariant(&*self);
        }
        Ok(transfer_token)
    }

    /// Puts the governorship on offer under a random transfer token of sixteen bytes.
    pub fn transfer_governor(&mut self, from: &str, to_identity: Option<&str>, now: Instant) -> (r: Result<
        String,
        Error,
    >)
        ensures
            match old(self)@.verify(from@, now) {
                Err(e) => error::outcome(r) == Err::<Seq<char>, ErrorView>(e) && final(self)@ == old(self)@,
                Ok(_) => exists|bytes: Seq<u8>|
                    bytes.len() == 16 && r is Ok && r->Ok_0@ == #[trigger] text::hex_bytes(bytes)
                        && final(self)@ == old(self)@.offer(
                        from@,
                        to_identity.deep_view(),
                        r->Ok_0@,
                    ),
            },
            final(self)@.coherent(),
    {
        let bytes = draw_bytes(16);
        self.offer_transfer(from, to_identity, &bytes, now)
    }

    /// Takes back every offer of the governorship.
    pub fn clear_pending_transfers(&mut self)
        ensures
            final(self)@ == (TrustModel { transfers: Map::empty(), ..old(self)@ }),
            final(self)@.coherent(),
    {
        proof {
            use_type_invariant(&*self);
        }
        self.transfers = StrMap::new();
    }

    /// The governor who put the governorship on offer under a transfer token.
    pub fn offered_by(&self, transfer_token: &str) -> (r: Option<String>)
        ensures
            r.deep_view() == if self@.transfers.contains_key(transfer_token@) {
                Some(self@.transfers[transfer_token@].from_gov_token)
            } else {
                None
            },
    {
        match self.transfers.get(transfer_token) {
            Some(t) => Some(t.from_gov_token.clone()),
            None => None,
        }
    }

    /// Makes the holder of a transfer token governor in place of the one who offered it.
    pub fn accept_governor_transfer(&mut self, transfer_token: &str, verified_bearer_identity: &str) -> (r: Result<
        GovernorToken,
        Error,
    >)
        requires
            old(self)@.can_number(),
        ensures
            (final(self)@, trust::token_outcome(r)) == old(self)@.accept(
                transfer_token@,
                verified_bearer_identity@,
            ),
            r matches Ok(t) ==> old(self)@.unused(t.0@),
            final(self)@.coherent(),
    {
        proof {
            use_type_invariant(&*self);
        }
        let from_gov = match self.transfers.get(transfer_token) {
            None => return Err(Error::AuthFailed),
            Some(pending) => {
                if let Some(expected) = &pending.to_identity {
                    if !same(expected.as_str(), verified_bearer_identity) {
                        return Err(Error::Forbidden);
                    }
                }
                pending.from_gov_token.clone()
            },
        };
        self.drop_transfer(transfer_token);
        if let Some(record) = self.record(from_gov.as_str()) {
            self.put_governor(
                from_gov,
                GovernorRecord {
                    expires: record.expires,
                    online: record.online,
                    revoked: true,
                    listen_token: record.listen_token,
                },
            );
        }
        let new_id = self.next_id("gov");
        self.put_governor(
            new_id.clone(),
            GovernorRecord { expires: None, online: true, revoked: false, listen_token: None },
        );
        proof {
            use_type_invariant(&*self);
            assert(self@ =~= old(self)@.accept(transfer_token@, verified_bearer_identity@).0);
        }
        Ok(GovernorToken(new_id))
    }

    /// Takes note of the number in an identifier.
    fn note_id(&mut self, id: &str)
        ensures
            final(self)@ == old(self)@.seen(id@),
            trust::counter_of(id@) <= final(self)@.counter,
    {
        proof {
            use_type_invariant(&*self);
        }
        let n: u64 = parse_counter_val(id);
        if n > self.counter {
            self.counter = n;
        }
    }

    /// Takes up stored credentials and grants. Those whose time was up are skipped, but the counter
    /// moves past their numbers as past those of what was taken up.
    pub fn load_from_store(
        &mut self,
        tokens: Vec<PersistedToken>,
        grants: Vec<PersistedGrant>,
        now: Instant,
        unix: u64,
    )
        requires
            now <= clock::LAST_INSTANT,
        ensures
            final(self)@ == old(self)@.load_tokens(tokens.deep_view(), now, unix).load_grants(
                grants.deep_view(),
                now,
                unix,
            ),
            final(self)@.coherent(),
    {
        let ghost before = self@;
        let ghost ts = tokens.deep_view();
        let ghost gs = grants.deep_view();
        let mut i: usize = 0;
        assert(ts.take(0) =~= seq![]);
        while i < tokens.len()
            invariant
                now <= clock::LAST_INSTANT,
                i <= tokens@.len(),
                ts == tokens.deep_view(),
                self@ == before.load_tokens(ts.take(i as int), now, unix),
            decreases tokens@.len() - i,
        {
            let t = &tokens[i];
            proof {
                assert(ts[i as int] == t.deep_view());
                assert(ts.take(i + 1).drop_last() =~= ts.take(i as int));
            }
            self.load_token(t, now, unix);
            i += 1;
        }
        assert(ts.take(i as int) =~= ts);
        let ghost middle = self@;
        let mut k: usize = 0;
        assert(gs.take(0) =~= seq![]);
        while k < grants.len()
            invariant
                now <= clock::LAST_INSTANT,
                k <= grants@.len(),
                gs == grants.deep_view(),
                self@ == middle.load_grants(gs.take(k as int), now, unix),
            decreases grants@.len() - k,
        {
            let g = &grants[k];
            proof {
                assert(gs[k as int] == g.deep_view());
                assert(gs.take(k + 1).drop_last() =~= gs.take(k as int));
            }
            self.load_grant(g, now, unix);
            k += 1;
        }
        assert(gs.take(k as int) =~= gs);
        proof {
            use_type_invariant(&*self);
        }
    }

    fn load_token(&mut self, t: &PersistedToken, now: Instant, unix: u64)
        requires
            now <= clock::LAST_INSTANT,
        ensures
            final(self)@ == old(self)@.load_token(t.deep_view(), now, unix),
    {
        self.note_id(t.token.as_str());
        let expires = match t.expires_at_secs {
            Some(at) => {
                if at <= unix {
                    return ;
                }
                end_of(now, Some(clock::secs(at - unix)))
            },
            None => None,
        };
        if same(t.token_type.as_str(), "governor") {
            self.put_governor(
                t.token.clone(),
                GovernorRecord { expires, online: true, revoked: false, listen_token: None },
            );
        }
    }

    fn load_grant(&mut self, g: &PersistedGrant, now: Instant, unix: u64)
        requires
            now <= clock::LAST_INSTANT,
        ensures
            final(self)@ == old(self)@.load_grant(g.deep_view(), now, unix),
    {
        self.note_id(g.id.as_str());
        let expires = match g.expires_at_secs {
            Some(at) => {
                if at <= unix {
                    return ;
                }
                end_of(now, Some(clock::secs(at - unix)))
            },
            None => None,
        };
        let direction = if same(g.direction.as_str(), "a_to_b") {
            GrantDirection::AToB
        } else if same(g.direction.as_str(), "b_to_a") {
            GrantDirection::BToA
        } else {
            GrantDirection::Symmetric
        };
        let mediation = if same(g.mediation.as_str(), "inspect") {
            GrantMediation::Inspect
        } else if same(g.mediation.as_str(), "notify") {
            GrantMediation::Notify
        } else {
            GrantMediation::Bypass
        };
        let max_messages: Option<u64> = match g.max_messages {
            Some(n) => Some(n as u64),
            None => None,
        };
        let grant = Grant {
            id: g.id.clone(),
            identity_a: g.identity_a.clone(),
            identity_b: g.identity_b.clone(),
            name_a: copy_opt(&g.name_a),
            name_b: copy_opt(&g.name_b),
            expires,
            direction,
            max_messages,
            messages_used: g.messages_used as u64,
            opens_reply_window: g.opens_reply_window,
            governor_id: g.governor_id.clone(),
            mediation,
            conditions: copy_opt(&g.conditions),
        };
        self.add_grant(grant);
    }
}

} // verus!
