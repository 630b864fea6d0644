//! Who governs: claims and votes, transfers, and the operator's reset.

use crate::clock;
use crate::clock::{Duration, Instant, Moment, SystemTime};
use crate::delivery::hub::DeliveryHub;
use crate::delivery::messaging::system_message;
use crate::delivery::model;
use crate::delivery::model::HubModel;
use crate::delivery::{
    ClaimKind, ClaimOutcome, ClaimOutcomeView, ClaimResolution, ClaimResolutionView, ClaimView,
    Effect, EffectView, GovernanceClaim, StoreWrite, StoreWriteView, GRANT_REQUEST_TIMEOUT,
};
use crate::error;
use crate::error::{Error, ErrorView};
use crate::events;
use crate::laws::invariants;
use crate::persistence;
use crate::seqs;
use crate::strmap;
use crate::strmap::StrSet;
use crate::text;
use crate::text::same;
use crate::trust;
use crate::trust::TrustModel;
use crate::types::GovernorToken;
use vstd::prelude::*;

verus! {

/// The wall clock time at which something that starts now and lasts for `expiry` ends.
pub open spec fn wall_end(now: Moment, expiry: Option<Duration>) -> Option<SystemTime> {
    match expiry {
        Some(d) => Some((now.system + persistence::capped(d)) as SystemTime),
        None => None,
    }
}

/// The wall clock time at which something that starts now and lasts for `expiry` ends.
pub(crate) fn wall_end_of(now: Moment, expiry: Option<Duration>) -> (r: Option<SystemTime>)
    requires
        now.in_range(),
    ensures
        r == wall_end(now, expiry),
{
    match expiry {
        Some(d) => Some(now.system + persistence::cap(d) as i128),
        None => None,
    }
}

/// The wall clock time of an instant.
pub open spec fn wall_time(instant: Instant, now: Moment) -> SystemTime {
    (now.system + (instant - now.instant)) as SystemTime
}

/// The wall clock time of an instant.
pub fn instant_to_system_time(instant: Instant, now: Moment) -> (t: SystemTime)
    requires
        now.in_range(),
        instant <= 2 * clock::LAST_INSTANT,
    ensures
        t == wall_time(instant, now),
{
    if instant >= now.instant {
        now.system + (instant - now.instant) as i128
    } else {
        now.system - (now.instant - instant) as i128
    }
}

impl HubModel {
    /// A governor's token is written down.
    pub open spec fn store_governor(self, token: Seq<char>, expires_at: Option<SystemTime>) -> HubModel {
        self.store(
            StoreWriteView::UpsertToken {
                token,
                identity: token,
                token_type: "governor"@,
                expires_at,
            },
        )
    }

    /// The rows of tokens that are void leave the store.
    pub open spec fn drop_rows(self, tokens: Seq<Seq<char>>) -> HubModel
        decreases tokens.len(),
    {
        if tokens.len() == 0 {
            self
        } else {
            self.drop_rows(tokens.drop_last()).store(
                StoreWriteView::DeleteToken { token: tokens.last() },
            )
        }
    }

    /// A new governor, written down.
    pub open spec fn install(self, expiry: Option<Duration>, now: Moment) -> HubModel {
        HubModel { trust: self.trust.install(expiry, now.instant), ..self }.store_governor(
            self.trust.next("gov"@),
            wall_end(now, expiry),
        )
    }

    /// A participant other than the candidate whose token has an open stream.
    pub open spec fn votes(self, candidate: Seq<char>, name: Seq<char>) -> bool {
        name != candidate && self.name_to_token.contains_key(name) && self.alive(
            self.name_to_token[name],
        )
    }

    /// The participants who vote, in order.
    pub open spec fn voters(self, candidate: Seq<char>) -> Seq<Seq<char>> {
        strmap::sorted(self.agents.dom()).filter(|n: Seq<char>| self.votes(candidate, n))
    }

    /// Each voter is asked for its vote.
    pub open spec fn call_vote(self, voters: Seq<Seq<char>>, claim_id: Seq<char>, candidate: Seq<char>) -> HubModel
        decreases voters.len(),
    {
        if voters.len() == 0 {
            self
        } else {
            self.call_vote(voters.drop_last(), claim_id, candidate).deliver(
                voters.last(),
                model::system_message(
                    events::election_request(claim_id, candidate),
                    "governance"@,
                ),
            ).ring(voters.last())
        }
    }

    /// The identifier of the next claim.
    pub open spec fn next_claim(self) -> Seq<char> {
        trust::numbered("claim"@, (self.claim_counter + 1) as nat)
    }

    /// A claim is on record.
    pub open spec fn file_claim(
        self,
        id: Seq<char>,
        token: Seq<char>,
        name: Seq<char>,
        kind: ClaimKind,
        required: Set<Seq<char>>,
        now: Instant,
    ) -> HubModel {
        HubModel {
            claims: self.claims.insert(
                id,
                ClaimView {
                    candidate_token: token,
                    candidate_name: name,
                    kind,
                    required,
                    approved: Set::empty(),
                    expires_at: (now + GRANT_REQUEST_TIMEOUT) as Instant,
                },
            ),
            ..self
        }
    }

    /// A participant claims the governorship. Where someone governs, the governors decide; where
    /// nobody does, the others who are online vote; where nobody else is there, it is granted.
    pub open spec fn claim(self, token: Seq<char>, expiry: Option<Duration>, now: Moment) -> (
        HubModel,
        Result<ClaimOutcomeView, ErrorView>,
    ) {
        if !self.token_to_name.contains_key(token) {
            (self, Err(ErrorView::AnnounceRequired))
        } else {
            let name = self.token_to_name[token];
            let id = self.next_claim();
            let m = HubModel { claim_counter: (self.claim_counter + 1) as u64, ..self };
            let voters = m.voters(name);
            if m.trust.governed() {
                (
                    m.file_claim(id, token, name, ClaimKind::Transfer, m.trust.active(), now.instant).emit(
                        EffectView::Governors { text: events::transfer_request(id, name) },
                    ),
                    Ok(ClaimOutcomeView::Transfer { claim_id: id }),
                )
            } else if voters.len() == 0 {
                (
                    m.install(expiry, now),
                    Ok(ClaimOutcomeView::Granted { governor_token: m.trust.next("gov"@) }),
                )
            } else {
                (
                    m.call_vote(voters, id, name).file_claim(
                        id,
                        token,
                        name,
                        ClaimKind::Election,
                        voters.to_set(),
                        now.instant,
                    ),
                    Ok(ClaimOutcomeView::Election { claim_id: id, voters: voters.len() }),
                )
            }
        }
    }

    /// Under what the vote of `approver` on a claim counts; nothing where it has no vote.
    pub open spec fn ballot(self, claim: ClaimView, approver: Seq<char>, now: Instant) -> Option<Seq<char>> {
        match claim.kind {
            ClaimKind::Transfer => if self.trust.verify(approver, now) is Ok && claim.required.contains(
                approver,
            ) {
                Some(approver)
            } else {
                None
            },
            ClaimKind::Election => if self.token_to_name.contains_key(approver)
                && claim.required.contains(self.token_to_name[approver]) {
                Some(self.token_to_name[approver])
            } else {
                None
            },
        }
    }

    /// The claim is off the record.
    pub open spec fn drop_claim(self, id: Seq<char>) -> HubModel {
        HubModel { claims: self.claims.remove(id), ..self }
    }

    /// The candidate is told what became of its claim.
    pub open spec fn tell_candidate(self, name: Seq<char>, text: Seq<char>) -> HubModel {
        self.deliver(name, model::system_message(text, "governance"@))
    }

    /// A vote on a claim. One rejection ends it; when all whose vote is required have approved,
    /// the candidate governs, and after a transfer the governors before it no longer do.
    pub open spec fn respond(self, approver: Seq<char>, id: Seq<char>, approve: bool, now: Moment) -> (
        HubModel,
        Result<ClaimResolutionView, ErrorView>,
    ) {
        if !self.claims.contains_key(id) {
            (self, Err(ErrorView::BadRequest))
        } else if self.claims[id].lapsed(now.instant) {
            (self.drop_claim(id), Err(ErrorView::BadRequest))
        } else {
            let claim = self.claims[id];
            match self.ballot(claim, approver, now.instant) {
                None => (self, Err(ErrorView::Forbidden)),
                Some(key) => if !approve {
                    (
                        self.drop_claim(id).tell_candidate(
                            claim.candidate_name,
                            events::claim_rejected(id),
                        ).ring(claim.candidate_name),
                        Ok(ClaimResolutionView::Rejected { candidate_name: claim.candidate_name }),
                    )
                } else {
                    let approved = claim.approved.insert(key);
                    if claim.required.subset_of(approved) {
                        (
                            self.establish(id, claim, now),
                            Ok(
                                ClaimResolutionView::Established {
                                    candidate_name: claim.candidate_name,
                                    governor_token: self.trust.next("gov"@),
                                },
                            ),
                        )
                    } else {
                        (
                            HubModel {
                                claims: self.claims.insert(id, ClaimView { approved, ..claim }),
                                ..self
                            },
                            Ok(
                                ClaimResolutionView::Waiting {
                                    approved: approved.len(),
                                    required: claim.required.len(),
                                },
                            ),
                        )
                    }
                },
            }
        }
    }

    /// The governors that a claim puts out of office, in order.
    pub open spec fn outgoing(self, claim: ClaimView) -> Seq<Seq<char>> {
        if claim.kind is Transfer {
            strmap::sorted(self.trust.active())
        } else {
            seq![]
        }
    }

    /// The candidate of a claim has won: after a transfer the governors before are revoked, and the
    /// candidate is told its governor token.
    pub open spec fn won(self, id: Seq<char>, claim: ClaimView, now: Moment) -> HubModel {
        let cleared = if claim.kind is Transfer {
            self.trust.revoke_all()
        } else {
            self.trust
        };
        HubModel { trust: cleared.install(None, now.instant), ..self.drop_claim(id) }.tell_candidate(
            claim.candidate_name,
            events::governorship_granted(id, self.trust.next("gov"@)),
        )
    }

    /// The candidate of a claim governs, and the store follows.
    pub open spec fn establish(self, id: Seq<char>, claim: ClaimView, now: Moment) -> HubModel {
        self.won(id, claim, now).drop_rows(self.outgoing(claim)).store_governor(
            self.trust.next("gov"@),
            None,
        ).ring(claim.candidate_name)
    }

    /// A participant takes up an offered transfer in its own name. The row of the governor who
    /// offered it leaves the store.
    pub open spec fn accept_transfer(self, bearer: Seq<char>, transfer_token: Seq<char>) -> (
        HubModel,
        Result<Seq<char>, ErrorView>,
    ) {
        if !self.tokens.contains_key(bearer) || self.tokens[bearer].revoked
            || !self.token_to_name.contains_key(bearer) {
            (self, Err(ErrorView::AuthFailed))
        } else {
            let (trust, r) = self.trust.accept(transfer_token, self.token_to_name[bearer]);
            match r {
                Ok(t) => (
                    HubModel { trust, ..self }.store(
                        StoreWriteView::DeleteToken {
                            token: self.trust.transfers[transfer_token].from_gov_token,
                        },
                    ).store_governor(t, None),
                    Ok(t),
                ),
                Err(ErrorView::AuthFailed) => (self, Err(ErrorView::RecipientUnknown)),
                Err(e) => (self, Err(e)),
            }
        }
    }

    /// Every governor is revoked, no offer stands, and there is a new governor.
    pub open spec fn reset_trust(self, now: Moment) -> HubModel {
        let cleared = TrustModel { transfers: Map::empty(), ..self.trust.revoke_all() };
        HubModel { trust: cleared.install(None, now.instant), ..self }
    }

    /// A governor's token is replaced by a new one.
    pub open spec fn refresh(self, old_token: Seq<char>, now: Moment) -> (
        HubModel,
        Result<Seq<char>, ErrorView>,
    ) {
        let (trust, r) = self.trust.rotate(old_token, now.instant);
        match r {
            Err(e) => (self, Err(e)),
            Ok(t) => {
                let expires_at = match trust.governor_expiry(t) {
                    Some(end) => Some(wall_time(end, now)),
                    None => None,
                };
                (
                    HubModel { trust, ..self }.store(
                        StoreWriteView::DeleteToken { token: old_token },
                    ).store_governor(t, expires_at),
                    Ok(t),
                )
            },
        }
    }
}

impl DeliveryHub {
    /// Someone governs.
    pub fn has_active_governor(&self) -> (r: bool)
        ensures
            r == self@.trust.governed(),
    {
        self.trust.has_active_governor()
    }

    /// Whether the token is a governor that may act now.
    pub fn validate_governor_token(&self, token: &GovernorToken, now: Moment) -> (r: Result<(), Error>)
        ensures
            error::outcome(r) == self@.trust.verify(token.0@, now.instant),
    {
        self.trust.verify_governor(token.0.as_str(), now.instant)
    }

    fn store_governor(&mut self, token: &str, expires_at: Option<SystemTime>)
        ensures
            final(self)@ == old(self)@.store_governor(token@, expires_at),
    {
        self.store(
            StoreWrite::UpsertToken {
                token: token.to_owned(),
                identity: token.to_owned(),
                token_type: "governor".to_owned(),
                expires_at,
            },
        );
    }

    fn drop_rows(&mut self, tokens: &Vec<String>)
        ensures
            final(self)@ == old(self)@.drop_rows(tokens.deep_view()),
    {
        let ghost before = self@;
        let ghost ts = tokens.deep_view();
        let mut i: usize = 0;
        assert(ts.take(0) =~= seq![]);
        while i < tokens.len()
            invariant
                i <= tokens@.len(),
                ts == tokens.deep_view(),
                self@ == before.drop_rows(ts.take(i as int)),
            decreases tokens@.len() - i,
        {
            assert(ts.take(i + 1).drop_last() =~= ts.take(i as int));
            assert(ts.take(i + 1).last() == tokens@[i as int]@);
            self.store(StoreWrite::DeleteToken { token: tokens[i].clone() });
            i += 1;
        }
        assert(ts.take(i as int) =~= ts);
    }

    /// Installs a governor without asking anyone.
    pub fn install_governor(&mut self, expiry: Option<Duration>, now: Moment) -> (t: GovernorToken)
        requires
            old(self)@.trust.can_number(),
            now.in_range(),
        ensures
            t.0@ == old(self)@.trust.next("gov"@),
            old(self)@.trust.unused(t.0@),
            final(self)@ == old(self)@.install(expiry, now),
            old(self)@.sound() ==> final(self)@.sound(),
    {
        proof {
            if self@.sound() {
                invariants::law_install_sound(self@, expiry, now);
            }
        }
        let gov = self.trust.install_governor(expiry, now.instant);
        let expires_at = wall_end_of(now, expiry);
        self.store_governor(gov.0.as_str(), expires_at);
        gov
    }

    fn voters(&self, candidate: &str) -> (names: Vec<String>)
        ensures
            names.deep_view() == self@.voters(candidate@),
    {
        let ghost p = |n: Seq<char>| self@.votes(candidate@, n);
        let all = self.agents.keys();
        let ghost ks = all.deep_view();
        let mut names: Vec<String> = Vec::new();
        let mut i: usize = 0;
        proof {
            seqs::lemma_filter_empty(ks.take(0), p);
            assert(names.deep_view() =~= ks.take(0).filter(p));
        }
        while i < all.len()
            invariant
                i <= all@.len(),
                ks == all.deep_view(),
                p == (|n: Seq<char>| self@.votes(candidate@, n)),
                names.deep_view() == ks.take(i as int).filter(p),
            decreases all@.len() - i,
        {
            proof {
                seqs::lemma_filter_next(ks, i as int, p);
            }
            let name = all[i].as_str();
            let votes = !same(name, candidate) && match self.name_to_token.get(name) {
                Some(t) => self.alive(t.as_str()),
                None => false,
            };
            if votes {
                let ghost was = names.deep_view();
                let n = all[i].clone();
                names.push(n);
                assert(names.deep_view() =~= was.push(n@));
            }
            i += 1;
        }
        assert(ks.take(i as int) =~= ks);
        names
    }

    fn call_vote(&mut self, voters: &Vec<String>, claim_id: &str, candidate: &str)
        ensures
            final(self)@ == old(self)@.call_vote(voters.deep_view(), claim_id@, candidate@),
    {
        let ghost before = self@;
        let ghost vs = voters.deep_view();
        let mut i: usize = 0;
        assert(vs.take(0) =~= seq![]);
        while i < voters.len()
            invariant
                i <= voters@.len(),
                vs == voters.deep_view(),
                self@ == before.call_vote(vs.take(i as int), claim_id@, candidate@),
            decreases voters@.len() - i,
        {
            proof {
                assert(vs.take(i + 1).drop_last() =~= vs.take(i as int));
                assert(vs.take(i + 1).last() == vs[i as int]);
            }
            let text = events::election_request_text(claim_id, candidate);
            self.deliver(voters[i].as_str(), system_message(text.as_str(), "governance"));
            self.ring(voters[i].as_str());
            i += 1;
        }
        assert(vs.take(i as int) =~= vs);
    }

    fn file_claim(
        &mut self,
        id: &str,
        token: &str,
        name: &str,
        kind: ClaimKind,
        required: &Vec<String>,
        now: Instant,
    )
        requires
            now <= clock::LAST_INSTANT,
        ensures
            final(self)@ == old(self)@.file_claim(
                id@,
                token@,
                name@,
                kind,
                required.deep_view().to_set(),
                now,
            ),
    {
        let ghost rs = required.deep_view();
        let mut set = StrSet::new();
        let mut i: usize = 0;
        assert(set@ =~= rs.take(0).to_set());
        while i < required.len()
            invariant
                i <= required@.len(),
                rs == required.deep_view(),
                set@ == rs.take(i as int).to_set(),
            decreases required@.len() - i,
        {
            proof {
                seqs::lemma_take_next(rs, i as int);
            }
            let _ = set.insert(required[i].clone());
            i += 1;
            assert(set@ =~= rs.take(i as int).to_set());
        }
        assert(rs.take(i as int) =~= rs);
        let _ = self.claims.insert(
            id.to_owned(),
            GovernanceClaim {
                candidate_token: token.to_owned(),
                candidate_name: name.to_owned(),
                kind,
                required: set,
                approved: StrSet::new(),
                expires_at: now + GRANT_REQUEST_TIMEOUT,
            },
        );
    }

    /// A participant claims the governorship.
    pub fn claim_governorship(&mut self, claimant_token: &str, expiry: Option<Duration>, now: Moment) -> (r: Result<
        ClaimOutcome,
        Error,
    >)
        requires
            old(self)@.ready(),
            now.in_range(),
        ensures
            (final(self)@, error::outcome(r)) == old(self)@.claim(claimant_token@, expiry, now),
            old(self)@.sound() ==> final(self)@.sound(),
    {
        proof {
            if self@.sound() {
                invariants::law_claim_sound(self@, claimant_token@, expiry, now);
            }
        }
        let name = match self.token_to_name.get(claimant_token) {
            Some(n) => n.clone(),
            None => return Err(Error::AnnounceRequired),
        };
        let numeral = text::decimal_text(self.claim_counter + 1);
        let id = text::join3("claim", "-", numeral.as_str());
        self.claim_counter = self.claim_counter + 1;
        if self.trust.has_active_governor() {
            let required = self.trust.active_governor_tokens();
            self.file_claim(
                id.as_str(),
                claimant_token,
                name.as_str(),
                ClaimKind::Transfer,
                &required,
                now.instant,
            );
            let event = events::transfer_request_text(id.as_str(), name.as_str());
            self.emit(Effect::Governors { text: event });
            return Ok(ClaimOutcome::Transfer { claim_id: id });
        }
        let voters = self.voters(name.as_str());
        if voters.len() == 0 {
            let gov = self.install_governor(expiry, now);
            return Ok(ClaimOutcome::Granted { governor_token: gov.0 });
        }
        self.call_vote(&voters, id.as_str(), name.as_str());
        self.file_claim(
            id.as_str(),
            claimant_token,
            name.as_str(),
            ClaimKind::Election,
            &voters,
            now.instant,
        );
        Ok(ClaimOutcome::Election { claim_id: id, voters: voters.len() })
    }

    fn all_approved(required: &StrSet, approved: &StrSet) -> (r: bool)
        ensures
            r == required@.subset_of(approved@),
    {
        let names = required.members();
        let ghost ks = names.deep_view();
        let mut i: usize = 0;
        while i < names.len()
            invariant
                i <= names@.len(),
                ks == names.deep_view(),
                ks.to_set() == required@,
                forall|j: int| 0 <= j < i ==> approved@.contains(#[trigger] ks[j]),
            decreases names@.len() - i,
        {
            if !approved.contains(names[i].as_str()) {
                assert(ks.to_set().contains(ks[i as int]));
                return false;
            }
            i += 1;
        }
        assert forall|k: Seq<char>| required@.contains(k) implies approved@.contains(k) by {
            assert(ks.to_set().contains(k));
            assert(ks[ks.index_of(k)] == k);
        }
        true
    }

    fn ballot(&self, claim: &GovernanceClaim, approver: &str, now: Instant) -> (r: Option<String>)
        ensures
            r.deep_view() == self@.ballot(claim.deep_view(), approver@, now),
    {
        match claim.kind {
            ClaimKind::Transfer => match self.trust.verify_governor(approver, now) {
                Ok(_) => if claim.required.contains(approver) {
                    Some(approver.to_owned())
                } else {
                    None
                },
                Err(_) => None,
            },
            ClaimKind::Election => match self.token_to_name.get(approver) {
                Some(name) => if claim.required.contains(name.as_str()) {
                    Some(name.clone())
                } else {
                    None
                },
                None => None,
            },
        }
    }

    /// A vote on a claim to the governorship.
    pub fn respond_claim(&mut self, approver_token: &str, claim_id: &str, approve: bool, now: Moment) -> (r: Result<
        ClaimResolution,
        Error,
    >)
        requires
            old(self)@.ready(),
            now.in_range(),
        ensures
            (final(self)@, error::outcome(r)) == old(self)@.respond(
                approver_token@,
                claim_id@,
                approve,
                now,
            ),
            old(self)@.sound() ==> final(self)@.sound(),
    {
        proof {
            if self@.sound() {
                invariants::law_respond_sound(self@, approver_token@, claim_id@, approve, now);
            }
        }
        let (expired, key) = match self.claims.get(claim_id) {
            None => return Err(Error::BadRequest),
            Some(claim) => (
                claim.kind == ClaimKind::Election && now.instant >= claim.expires_at,
                self.ballot(claim, approver_token, now.instant),
            ),
        };
        if expired {
            let _ = self.claims.remove(claim_id);
            return Err(Error::BadRequest);
        }
        let key = match key {
            Some(k) => k,
            None => return Err(Error::Forbidden),
        };
        let mut claim = match self.claims.remove(claim_id) {
            Some(c) => c,
            None => return Err(Error::BadRequest),
        };
        let candidate = claim.candidate_name.clone();
        if !approve {
            let text = events::claim_rejected_text(claim_id);
            self.deliver(candidate.as_str(), system_message(text.as_str(), "governance"));
            self.ring(candidate.as_str());
            return Ok(ClaimResolution::Rejected { candidate_name: candidate });
        }
        let ghost k = key@;
        let _ = claim.approved.insert(key);
        if !DeliveryHub::all_approved(&claim.required, &claim.approved) {
            let approved: usize = claim.approved.len();
            let required: usize = claim.required.len();
            let ghost v = claim.deep_view();
            let _ = self.claims.insert(claim_id.to_owned(), claim);
            assert(self@.claims =~= old(self)@.claims.insert(claim_id@, v));
            return Ok(ClaimResolution::Waiting { approved, required });
        }
        let outgoing = match claim.kind {
            ClaimKind::Transfer => self.trust.revoke_all_governors(),
            ClaimKind::Election => Vec::new(),
        };
        proof {
            if claim.kind is Transfer {
                strmap::lemma_sorted_of(outgoing.deep_view());
            }
            assert(outgoing.deep_view() =~= old(self)@.outgoing(claim.deep_view()));
        }
        let gov = self.trust.install_governor(None, now.instant);
        let text = events::governorship_granted_text(claim_id, gov.0.as_str());
        self.deliver(candidate.as_str(), system_message(text.as_str(), "governance"));
        self.drop_rows(&outgoing);
        self.store_governor(gov.0.as_str(), None);
        self.ring(candidate.as_str());
        Ok(ClaimResolution::Established { candidate_name: candidate, governor_token: gov.0 })
    }

    /// A governor puts the governorship on offer under a token made from `bytes`.
    pub fn offer_transfer(
        &mut self,
        from: &GovernorToken,
        to_identity: Option<&str>,
        bytes: &Vec<u8>,
        now: Moment,
    ) -> (r: Result<String, Error>)
        ensures
            match old(self)@.trust.verify(from.0@, now.instant) {
                Err(e) => error::outcome(r) == Err::<Seq<char>, ErrorView>(e) && final(self)@ == old(self)@,
                Ok(_) => {
                    &&& error::outcome(r) == Ok::<Seq<char>, ErrorView>(text::hex_bytes(bytes@))
                    &&& final(self)@ == (HubModel {
                        trust: old(self)@.trust.offer(
                            from.0@,
                            to_identity.deep_view(),
                            text::hex_bytes(bytes@),
                        ),
                        ..old(self)@
                    })
                },
            },
            old(self)@.sound() ==> final(self)@.sound(),
    {
        let r = self.trust.offer_transfer(from.0.as_str(), to_identity, bytes, now.instant);
        proof {
            if old(self)@.sound() {
                invariants::law_rest_sound(old(self)@, self@);
            }
        }
        r
    }

    /// A governor puts the governorship on offer under a random token.
    pub fn transfer_governor(&mut self, from: &GovernorToken, to_identity: Option<&str>, now: Moment) -> (r: Result<
        String,
        Error,
    >)
        ensures
            match old(self)@.trust.verify(from.0@, now.instant) {
                Err(e) => error::outcome(r) == Err::<Seq<char>, ErrorView>(e) && final(self)@ == old(self)@,
                Ok(_) => exists|bytes: Seq<u8>|
                    bytes.len() == 16 && r is Ok && r->Ok_0@ == #[trigger] text::hex_bytes(bytes)
                        && final(self)@ == (HubModel {
                        trust: old(self)@.trust.offer(
                            from.0@,
                            to_identity.deep_view(),
                            r->Ok_0@,
                        ),
                        ..old(self)@
                    }),
            },
            old(self)@.sound() ==> final(self)@.sound(),
    {
        let r = self.trust.transfer_governor(from.0.as_str(), to_identity, now.instant);
        proof {
            if old(self)@.sound() {
                invariants::law_rest_sound(old(self)@, self@);
            }
        }
        r
    }

    /// A participant takes up an offered transfer in its own name.
    pub fn accept_governor_transfer(&mut self, bearer: &str, transfer_token: &str) -> (r: Result<
        GovernorToken,
        Error,
    >)
        requires
            old(self)@.trust.can_number(),
        ensures
            (final(self)@, trust::token_outcome(r)) == old(self)@.accept_transfer(
                bearer@,
                transfer_token@,
            ),
            old(self)@.sound() ==> final(self)@.sound(),
    {
        proof {
            if self@.sound() {
                invariants::law_accept_sound(self@, bearer@, transfer_token@);
            }
        }
        let live = match self.tokens.get(bearer) {
            Some(st) => !st.revoked,
            None => false,
        };
        if !live {
            return Err(Error::AuthFailed);
        }
        let name = match self.token_to_name.get(bearer) {
            Some(n) => n.clone(),
            None => return Err(Error::AuthFailed),
        };
        let from = match self.trust.offered_by(transfer_token) {
            Some(id) => id,
            None => return Err(Error::RecipientUnknown),
        };
        match self.trust.accept_governor_transfer(transfer_token, name.as_str()) {
            Ok(t) => {
                self.store(StoreWrite::DeleteToken { token: from });
                self.store_governor(t.0.as_str(), None);
                Ok(t)
            },
            Err(Error::AuthFailed) => Err(Error::RecipientUnknown),
            Err(e) => Err(e),
        }
    }

    /// The operator's way out: a new governor in place of all others.
    pub fn admin_reset_governor(&mut self, now: Moment) -> (t: GovernorToken)
        requires
            old(self)@.trust.can_number(),
            now.in_range(),
        ensures
            t.0@ == old(self)@.trust.next("gov"@),
            exists|revoked: Seq<Seq<char>>|
                #![trigger strmap::ascending(revoked)]
                strmap::ascending(revoked) && revoked.to_set() == old(self)@.trust.active()
                    && final(self)@ == old(self)@.reset_trust(now).store(
                    StoreWriteView::ResetGovernors { revoked, new_token: t.0@ },
                ),
            old(self)@.sound() ==> final(self)@.sound(),
    {
        let revoked = self.trust.revoke_all_governors();
        self.trust.clear_pending_transfers();
        let gov = self.trust.install_governor(None, now.instant);
        assert(strmap::ascending(revoked.deep_view()));
        proof {
            if old(self)@.sound() {
                invariants::law_reset_sound(old(self)@, revoked.deep_view(), gov.0@, now);
            }
        }
        self.store(StoreWrite::ResetGovernors { revoked, new_token: gov.0.clone() });
        gov
    }

    /// A governor replaces its token by a new one.
    pub fn refresh_governor_token(&mut self, old_token: &GovernorToken, now: Moment) -> (r: Result<
        GovernorToken,
        Error,
    >)
        requires
            old(self)@.ready(),
            now.in_range(),
        ensures
            (final(self)@, trust::token_outcome(r)) == old(self)@.refresh(old_token.0@, now),
            r matches Ok(t) ==> old(self)@.trust.unused(t.0@),
            old(self)@.sound() ==> final(self)@.sound(),
    {
        proof {
            if self@.sound() {
                invariants::law_refresh_sound(self@, old_token.0@, now);
            }
        }
        match self.trust.rotate_governor_token(old_token.0.as_str(), now.instant) {
            Err(e) => Err(e),
            Ok(t) => {
                let expires_at = match self.trust.governor_expiry(t.0.as_str()) {
                    Some(end) => Some(instant_to_system_time(end, now)),
                    None => None,
                };
                self.store(StoreWrite::DeleteToken { token: old_token.0.clone() });
                self.store_governor(t.0.as_str(), expires_at);
                Ok(t)
            },
        }
    }
}

} // verus!
