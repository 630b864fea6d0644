//! Laws of how the governorship is won and lost.

use crate::clock::{Duration, Moment};
use crate::delivery::model::HubModel;
use crate::delivery::{
    ClaimOutcomeView, ClaimResolutionView, ClaimView, EffectView, StoreWriteView,
};
use crate::error::ErrorView;
use crate::laws::trust;
use crate::seqs;
use crate::strmap;
use vstd::prelude::*;

verus! {

/// Dropping rows only adds to what the outside has to do.
pub(crate) proof fn lemma_rows_keep(m: HubModel, tokens: Seq<Seq<char>>)
    ensures
        m.drop_rows(tokens) == (HubModel { outbox: m.drop_rows(tokens).outbox, ..m }),
    decreases tokens.len(),
{
    if tokens.len() > 0 {
        lemma_rows_keep(m, tokens.drop_last());
    }
}

/// What a claim leads to: where someone governs, the governors in office decide; where nobody
/// does and others are online, they vote; where nobody else is there, it is granted at once.
pub proof fn law_claim_outcome(m: HubModel, token: Seq<char>, expiry: Option<Duration>, now: Moment)
    requires
        m.token_to_name.contains_key(token),
    ensures
        ({
            let name = m.token_to_name[token];
            let (after, r) = m.claim(token, expiry, now);
            if m.trust.governed() {
                &&& r == Ok::<ClaimOutcomeView, ErrorView>(
                    ClaimOutcomeView::Transfer { claim_id: m.next_claim() },
                )
                &&& after.claims[m.next_claim()].required == m.trust.active()
                &&& after.trust == m.trust
            } else if m.voters(name).len() > 0 {
                &&& r == Ok::<ClaimOutcomeView, ErrorView>(
                    ClaimOutcomeView::Election {
                        claim_id: m.next_claim(),
                        voters: m.voters(name).len(),
                    },
                )
                &&& after.claims[m.next_claim()].required == m.voters(name).to_set()
                &&& after.trust == m.trust
            } else {
                &&& r == Ok::<ClaimOutcomeView, ErrorView>(
                    ClaimOutcomeView::Granted { governor_token: m.trust.next("gov"@) },
                )
                &&& after.trust.governed()
            }
        }),
{
    let name = m.token_to_name[token];
    let counted = HubModel { claim_counter: (m.claim_counter + 1) as u64, ..m };
    lemma_voters_same(counted, m, name);
    if !m.trust.governed() {
        if m.voters(name).len() > 0 {
            lemma_call_vote_keeps_trust(counted, m.voters(name), m.next_claim(), name);
        } else {
            trust::law_installed_may_act(m.trust, None, 0, 0);
            let installed = m.claim(token, expiry, now).0;
            assert(installed.trust.governors.contains_key(m.trust.next("gov"@)));
        }
    }
}

proof fn lemma_voters_same(m: HubModel, k: HubModel, candidate: Seq<char>)
    requires
        m.agents == k.agents,
        m.name_to_token == k.name_to_token,
        m.connections == k.connections,
    ensures
        m.voters(candidate) == k.voters(candidate),
{
    let p = |n: Seq<char>| m.votes(candidate, n);
    let q = |n: Seq<char>| k.votes(candidate, n);
    seqs::lemma_filter_same(strmap::sorted(m.agents.dom()), p, q);
    assert(m.voters(candidate) == strmap::sorted(m.agents.dom()).filter(p));
    assert(k.voters(candidate) == strmap::sorted(m.agents.dom()).filter(q));
}

proof fn lemma_call_vote_keeps_trust(m: HubModel, voters: Seq<Seq<char>>, id: Seq<char>, name: Seq<char>)
    ensures
        m.call_vote(voters, id, name).trust == m.trust,
        m.call_vote(voters, id, name).claims == m.claims,
    decreases voters.len(),
{
    if voters.len() > 0 {
        lemma_call_vote_keeps_trust(m, voters.drop_last(), id, name);
    }
}

/// The candidate governs when all whose approval is required have given it, and not before; one
/// rejection ends the claim.
pub proof fn law_unanimity(m: HubModel, approver: Seq<char>, id: Seq<char>, approve: bool, now: Moment)
    requires
        m.claims.contains_key(id),
    ensures
        ({
            let claim = m.claims[id];
            let (after, r) = m.respond(approver, id, approve, now);
            &&& r matches Ok(ClaimResolutionView::Established { .. }) ==> {
                &&& approve
                &&& m.ballot(claim, approver, now.instant) is Some
                &&& claim.required.subset_of(
                    claim.approved.insert(m.ballot(claim, approver, now.instant)->0),
                )
                &&& !after.claims.contains_key(id)
            }
            &&& r matches Ok(ClaimResolutionView::Rejected { .. }) ==> {
                &&& !approve
                &&& !after.claims.contains_key(id)
                &&& after.trust == m.trust
            }
            &&& r matches Ok(ClaimResolutionView::Waiting { .. }) ==> {
                &&& approve
                &&& after.claims.contains_key(id)
                &&& after.trust == m.trust
            }
        }),
{
    lemma_rows_keep(m.won(id, m.claims[id], now), m.outgoing(m.claims[id]));
}

/// Nobody votes who was not asked, and a claim whose time is up is gone.
pub proof fn law_no_vote_no_say(m: HubModel, approver: Seq<char>, id: Seq<char>, approve: bool, now: Moment)
    requires
        m.claims.contains_key(id),
    ensures
        !m.claims[id].lapsed(now.instant) && m.ballot(m.claims[id], approver, now.instant) is None
            ==> m.respond(approver, id, approve, now) == (
            m,
            Err::<ClaimResolutionView, ErrorView>(ErrorView::Forbidden),
        ),
        m.claims[id].lapsed(now.instant) ==> m.respond(approver, id, approve, now) == (
            m.drop_claim(id),
            Err::<ClaimResolutionView, ErrorView>(ErrorView::BadRequest),
        ),
{
}

/// Whoever wins governs under a new token; after a transfer nobody else does, and every grant
/// stands.
pub proof fn law_winner_governs(m: HubModel, id: Seq<char>, claim: ClaimView, now: Moment, other: Seq<char>)
    ensures
        m.establish(id, claim, now).trust.verify(m.trust.next("gov"@), now.instant) is Ok,
        claim.kind is Transfer && other != m.trust.next("gov"@) ==> m.establish(
            id,
            claim,
            now,
        ).trust.verify(other, now.instant) is Err,
        m.establish(id, claim, now).trust.grants == m.trust.grants,
{
    lemma_rows_keep(m.won(id, claim, now), m.outgoing(claim));
}

proof fn lemma_rows_dropped(m: HubModel, tokens: Seq<Seq<char>>, token: Seq<char>)
    requires
        m.persistent,
        tokens.contains(token),
    ensures
        m.drop_rows(tokens).persistent,
        m.drop_rows(tokens).outbox.contains(
            EffectView::Store(StoreWriteView::DeleteToken { token }),
        ),
    decreases tokens.len(),
{
    let before = m.drop_rows(tokens.drop_last());
    let gone = EffectView::Store(StoreWriteView::DeleteToken { token });
    lemma_rows_keep(m, tokens.drop_last());
    let after = m.drop_rows(tokens);
    if tokens.last() == token {
        assert(after.outbox[before.outbox.len() as int] == gone);
    } else {
        let i = tokens.index_of(token);
        assert(tokens.drop_last()[i] == token);
        lemma_rows_dropped(m, tokens.drop_last(), token);
        let j = before.outbox.index_of(gone);
        assert(after.outbox[j] == gone);
    }
}

/// A governor who is out of office after a transfer, by claim or by offer, leaves the token store
/// too, and so stays out of office after a restart.
pub proof fn law_outgoing_leave_store(
    m: HubModel,
    id: Seq<char>,
    claim: ClaimView,
    governor: Seq<char>,
    bearer: Seq<char>,
    offer: Seq<char>,
    now: Moment,
)
    requires
        m.persistent,
    ensures
        claim.kind is Transfer && m.outgoing(claim).contains(governor) ==> m.establish(
            id,
            claim,
            now,
        ).outbox.contains(EffectView::Store(StoreWriteView::DeleteToken { token: governor })),
        m.accept_transfer(bearer, offer).1 is Ok ==> m.accept_transfer(bearer, offer).0.outbox.contains(
            EffectView::Store(
                StoreWriteView::DeleteToken { token: m.trust.transfers[offer].from_gov_token },
            ),
        ),
{
    if claim.kind is Transfer && m.outgoing(claim).contains(governor) {
        let told = m.won(id, claim, now);
        lemma_rows_dropped(told, m.outgoing(claim), governor);
        let gone = EffectView::Store(StoreWriteView::DeleteToken { token: governor });
        let i = told.drop_rows(m.outgoing(claim)).outbox.index_of(gone);
        assert(m.establish(id, claim, now).outbox[i] == gone);
    }
    if m.accept_transfer(bearer, offer).1 is Ok {
        let gone = EffectView::Store(
            StoreWriteView::DeleteToken { token: m.trust.transfers[offer].from_gov_token },
        );
        assert(m.accept_transfer(bearer, offer).0.outbox[m.outbox.len() as int] == gone);
    }
}

/// The operator's reset leaves one governor in office, the new one, no transfer on offer, and
/// every grant standing.
pub proof fn law_reset_leaves_one(m: HubModel, now: Moment, token: Seq<char>)
    ensures
        m.reset_trust(now).trust.active() == set![m.trust.next("gov"@)],
        m.reset_trust(now).trust.verify(token, now.instant) is Ok <==> token == m.trust.next("gov"@),
        m.reset_trust(now).trust.transfers == Map::<Seq<char>, crate::trust::TransferView>::empty(),
        m.reset_trust(now).trust.grants == m.trust.grants,
{
    assert(m.reset_trust(now).trust.active() =~= set![m.trust.next("gov"@)]);
}

/// The governorship passes by an accepted transfer to a participant in its own name, never to a
/// caller without one.
pub proof fn law_transfer_needs_name(m: HubModel, bearer: Seq<char>, offer: Seq<char>)
    requires
        !m.token_to_name.contains_key(bearer) || !m.tokens.contains_key(bearer)
            || m.tokens[bearer].revoked,
    ensures
        m.accept_transfer(bearer, offer) == (
            m,
            Err::<Seq<char>, ErrorView>(ErrorView::AuthFailed),
        ),
{
}

} // verus!
