//! Laws of elections and of handing the governorship on: who is asked, who decides, and what the
//! one who wins is told.

use crate::clock::{Duration, Instant, Moment};
use crate::delivery::model::HubModel;
use crate::delivery::{
    ClaimKind, ClaimOutcomeView, ClaimResolutionView, ClaimView, EffectView, StoreWriteView,
};
use crate::error::ErrorView;
use crate::events;
use crate::laws::governance;
use crate::strmap;
use crate::trust::TrustModel;
use crate::types::{MessageView, MAX_EXPIRY};
use vstd::prelude::*;

verus! {

/// A message of the hub itself on the governorship.
pub open spec fn notice(text: Seq<char>) -> MessageView {
    MessageView {
        payload: vstd::utf8::encode_utf8(text),
        from_name: "system"@,
        reason: None,
        event_type: Some("governance"@),
        thread_id: None,
    }
}

/// The governor with that token is in office and may act at `now`.
pub open spec fn in_office(t: TrustModel, token: Seq<char>, now: Instant) -> bool {
    &&& t.governors.contains_key(token)
    &&& !t.governors[token].revoked
    &&& t.governors[token].online
    &&& t.governors[token].expires matches Some(end) ==> now < end
}

/// A governor's token is accepted exactly while its governor is in office: not when it is unknown,
/// revoked or offline, and not from its end on.
pub proof fn law_token_accepted_in_office(t: TrustModel, token: Seq<char>, now: Instant)
    ensures
        t.verify(token, now) is Ok <==> in_office(t, token, now),
        t.verify(token, now) == Err::<(), ErrorView>(ErrorView::TokenExpired) <==> {
            &&& t.governors.contains_key(token)
            &&& !t.governors[token].revoked
            &&& t.governors[token].online
            &&& t.governors[token].expires matches Some(end) && end <= now
        },
{
}

// ── The vote ─────────────────────────────────────────────────────────────────

/// Whose approval a vote stands for: in an election that of the name its token bears, in a
/// transfer that of the governor himself, who must be in office.
pub open spec fn voice(m: HubModel, claim: ClaimView, approver: Seq<char>, now: Instant) -> Option<Seq<char>> {
    if claim.kind == ClaimKind::Election {
        if m.token_to_name.contains_key(approver) {
            Some(m.token_to_name[approver])
        } else {
            None
        }
    } else if in_office(m.trust, approver, now) {
        Some(approver)
    } else {
        None
    }
}

/// What a vote leads to. One who was not asked has no say; one rejection ends the claim, and the
/// candidate is told; the candidate is established exactly by the approval that was the last one
/// missing, and until then the approvals are counted.
pub proof fn law_vote(m: HubModel, approver: Seq<char>, id: Seq<char>, approve: bool, now: Moment)
    requires
        m.claims.contains_key(id),
        m.claims[id].kind == ClaimKind::Election ==> now.instant < m.claims[id].expires_at,
    ensures
        ({
            let claim = m.claims[id];
            let who = voice(m, claim, approver, now.instant);
            let (after, r) = m.respond(approver, id, approve, now);
            if who is None || !claim.required.contains(who->0) {
                &&& r == Err::<ClaimResolutionView, ErrorView>(ErrorView::Forbidden)
                &&& after == m
            } else if !approve {
                &&& r == Ok::<ClaimResolutionView, ErrorView>(
                    ClaimResolutionView::Rejected { candidate_name: claim.candidate_name },
                )
                &&& after.claims == m.claims.remove(id)
                &&& after.trust == m.trust
                &&& after.queue(claim.candidate_name) == m.queue(claim.candidate_name).push(
                    notice(events::claim_rejected(id)),
                )
            } else if forall|n: Seq<char>| #[trigger]
                claim.required.contains(n) ==> claim.approved.contains(n) || n == who->0 {
                &&& r matches Ok(ClaimResolutionView::Established { candidate_name, .. })
                    && candidate_name == claim.candidate_name
                &&& after.claims == m.claims.remove(id)
            } else {
                &&& r == Ok::<ClaimResolutionView, ErrorView>(
                    ClaimResolutionView::Waiting {
                        approved: claim.approved.insert(who->0).len(),
                        required: claim.required.len(),
                    },
                )
                &&& after.claims == m.claims.insert(
                    id,
                    ClaimView { approved: claim.approved.insert(who->0), ..claim },
                )
                &&& after.trust == m.trust
            }
        }),
{
    let claim = m.claims[id];
    let who = voice(m, claim, approver, now.instant);
    if who is Some {
        let approved = claim.approved.insert(who->0);
        if claim.required.subset_of(approved) {
            assert forall|n: Seq<char>| #[trigger] claim.required.contains(
                n,
            ) implies claim.approved.contains(n) || n == who->0 by {
                assert(approved.contains(n));
            }
        }
    }
    governance::lemma_rows_keep(m.won(id, claim, now), m.outgoing(claim));
}

/// An election that is not decided in time is over, and nobody governs by it; a transfer is held
/// until it is decided.
pub proof fn law_claim_in_time(m: HubModel, approver: Seq<char>, id: Seq<char>, approve: bool, now: Moment)
    requires
        m.claims.contains_key(id),
        m.claims[id].expires_at <= now.instant,
    ensures
        m.claims[id].kind == ClaimKind::Election ==> {
            let (after, r) = m.respond(approver, id, approve, now);
            &&& r == Err::<ClaimResolutionView, ErrorView>(ErrorView::BadRequest)
            &&& after.claims == m.claims.remove(id)
            &&& after.trust == m.trust
        },
        m.claims[id].kind == ClaimKind::Transfer && in_office(m.trust, approver, now.instant)
            && m.claims[id].required.contains(approver) ==> m.respond(approver, id, approve, now).1 is Ok,
{
}

/// Whoever wins is told the token to govern with: when a vote establishes a candidate, the last
/// message in the candidate's queue is the notice that names the claim and the very token of the
/// result, under which the candidate is in office from then on and without end. The token is
/// written down.
pub proof fn law_winner_is_told_its_token(
    m: HubModel,
    approver: Seq<char>,
    id: Seq<char>,
    approve: bool,
    now: Moment,
    name: Seq<char>,
    token: Seq<char>,
    later: Instant,
)
    requires
        m.respond(approver, id, approve, now).1 == Ok::<ClaimResolutionView, ErrorView>(
            ClaimResolutionView::Established { candidate_name: name, governor_token: token },
        ),
    ensures
        ({
            let after = m.respond(approver, id, approve, now).0;
            &&& name == m.claims[id].candidate_name
            &&& after.queue(name) == m.queue(name).push(
                notice(events::governorship_granted(id, token)),
            )
            &&& in_office(after.trust, token, later)
            &&& m.persistent ==> after.outbox.contains(
                EffectView::Store(
                    StoreWriteView::UpsertToken {
                        token,
                        identity: token,
                        token_type: "governor"@,
                        expires_at: None,
                    },
                ),
            )
        }),
{
    let claim = m.claims[id];
    let won = m.won(id, claim, now);
    governance::lemma_rows_keep(won, m.outgoing(claim));
    let told = won.drop_rows(m.outgoing(claim));
    let after = m.establish(id, claim, now);
    if m.persistent {
        assert(after.outbox[told.outbox.len() as int] == EffectView::Store(
            StoreWriteView::UpsertToken {
                token,
                identity: token,
                token_type: "governor"@,
                expires_at: None,
            },
        ));
    }
}

/// After a transfer by claim nobody governs but the winner; an election leaves the others as they
/// are. Every grant stands either way.
pub proof fn law_who_governs_after_vote(
    m: HubModel,
    approver: Seq<char>,
    id: Seq<char>,
    approve: bool,
    now: Moment,
    name: Seq<char>,
    token: Seq<char>,
    other: Seq<char>,
    later: Instant,
)
    requires
        m.respond(approver, id, approve, now).1 == Ok::<ClaimResolutionView, ErrorView>(
            ClaimResolutionView::Established { candidate_name: name, governor_token: token },
        ),
        other != token,
    ensures
        ({
            let after = m.respond(approver, id, approve, now).0;
            &&& m.claims[id].kind == ClaimKind::Transfer ==> !in_office(after.trust, other, later)
            &&& m.claims[id].kind == ClaimKind::Election ==> in_office(after.trust, other, later)
                == in_office(m.trust, other, later)
            &&& after.trust.grants == m.trust.grants
        }),
{
    let claim = m.claims[id];
    governance::lemma_rows_keep(m.won(id, claim, now), m.outgoing(claim));
}

// ── The claim ────────────────────────────────────────────────────────────────

/// `name` is asked when `candidate` claims the governorship: it can be written to, its token has a
/// stream, and it is not the candidate.
pub open spec fn asked(m: HubModel, candidate: Seq<char>, name: Seq<char>) -> bool {
    &&& name != candidate
    &&& m.agents.contains_key(name)
    &&& m.name_to_token.contains_key(name)
    &&& m.connections.contains_key(m.name_to_token[name])
    &&& m.connections[m.name_to_token[name]] > 0
}

pub(crate) proof fn lemma_voters(m: HubModel, candidate: Seq<char>, name: Seq<char>)
    requires
        m.agents.dom().finite(),
    ensures
        m.voters(candidate).contains(name) <==> asked(m, candidate, name),
        m.voters(candidate).no_duplicates(),
{
    let p = |n: Seq<char>| m.votes(candidate, n);
    let all = strmap::sorted(m.agents.dom());
    strmap::lemma_sorted_exists(m.agents.dom());
    strmap::lemma_ascending_distinct(all);
    let voters = m.voters(candidate);
    assert(all.to_set() == m.agents.dom());
    if voters.contains(name) {
        let i = voters.index_of(name);
        all.lemma_filter_pred(p, i);
        all.lemma_filter_contains_rev(p, name);
        assert(all.to_set().contains(name));
    }
    if asked(m, candidate, name) {
        assert(all.to_set().contains(name));
        all.lemma_filter_contains(p, all.index_of(name));
    }
    lemma_filter_distinct(all, p);
}

proof fn lemma_filter_distinct(s: Seq<Seq<char>>, p: spec_fn(Seq<char>) -> bool)
    requires
        s.no_duplicates(),
    ensures
        s.filter(p).no_duplicates(),
    decreases s.len(),
{
    reveal(Seq::filter);
    if s.len() > 0 {
        let fewer = s.drop_last();
        lemma_filter_distinct(fewer, p);
        let kept = fewer.filter(p);
        assert forall|i: int| 0 <= i < kept.len() implies kept[i] != s.last() by {
            fewer.lemma_filter_contains_rev(p, kept[i]);
            let j = choose|j: int| 0 <= j < fewer.len() && fewer[j] == kept[i];
            assert(s[j] == kept[i]);
            assert(s[s.len() - 1] == s.last());
        }
    }
}

proof fn lemma_vote_called(m: HubModel, voters: Seq<Seq<char>>, id: Seq<char>, candidate: Seq<char>, name: Seq<char>)
    requires
        voters.no_duplicates(),
    ensures
        m.call_vote(voters, id, candidate).queue(name) == if voters.contains(name) {
            m.queue(name).push(notice(events::election_request(id, candidate)))
        } else {
            m.queue(name)
        },
        m.call_vote(voters, id, candidate).trust == m.trust,
        m.call_vote(voters, id, candidate).claims == m.claims,
    decreases voters.len(),
{
    if voters.len() > 0 {
        let fewer = voters.drop_last();
        assert forall|i: int, j: int| 0 <= i < fewer.len() && 0 <= j < fewer.len() && i != j implies fewer[i]
            != fewer[j] by {
            assert(voters[i] == fewer[i] && voters[j] == fewer[j]);
        }
        lemma_vote_called(m, fewer, id, candidate, name);
        assert(voters[voters.len() - 1] == voters.last());
        if fewer.contains(name) {
            let i = fewer.index_of(name);
            assert(voters[i] == name);
            assert(name != voters.last());
        }
        if voters.contains(name) && name != voters.last() {
            let i = voters.index_of(name);
            assert(fewer[i] == name);
        }
    }
}

/// A claim where nobody governs and others are online asks each of them once, and nobody else,
/// under one new identifier; it then waits for the approval of exactly those, for half an hour,
/// and nobody governs yet.
pub proof fn law_election_called(m: HubModel, token: Seq<char>, expiry: Option<Duration>, now: Moment, name: Seq<char>)
    requires
        m.agents.dom().finite(),
        m.token_to_name.contains_key(token),
        now.in_range(),
        forall|g: Seq<char>| #[trigger] m.trust.governors.contains_key(g) ==> m.trust.governors[g].revoked,
        exists|n: Seq<char>| asked(m, m.token_to_name[token], n),
    ensures
        ({
            let candidate = m.token_to_name[token];
            let (after, r) = m.claim(token, expiry, now);
            &&& r matches Ok(ClaimOutcomeView::Election { claim_id, .. }) && {
                &&& after.queue(name) == if asked(m, candidate, name) {
                    m.queue(name).push(notice(events::election_request(claim_id, candidate)))
                } else {
                    m.queue(name)
                }
                &&& after.claims.contains_key(claim_id)
                &&& after.claims[claim_id].candidate_name == candidate
                &&& after.claims[claim_id].candidate_token == token
                &&& after.claims[claim_id].kind == ClaimKind::Election
                &&& after.claims[claim_id].required.contains(name) == asked(m, candidate, name)
                &&& !after.claims[claim_id].approved.contains(name)
                &&& after.claims[claim_id].expires_at == now.instant + 1_800_000_000_000
            }
            &&& after.trust == m.trust
        }),
{
    let candidate = m.token_to_name[token];
    let counted = HubModel { claim_counter: (m.claim_counter + 1) as u64, ..m };
    let voters = counted.voters(candidate);
    assert(!m.trust.governed());
    let n = choose|n: Seq<char>| asked(m, candidate, n);
    lemma_voters(counted, candidate, n);
    assert(asked(counted, candidate, n));
    assert(voters.len() > 0);
    lemma_voters(counted, candidate, name);
    assert(asked(counted, candidate, name) == asked(m, candidate, name));
    lemma_vote_called(counted, voters, m.next_claim(), candidate, name);
}

/// A claim where nobody governs and nobody else is online is granted at once: the token of the
/// result is in office, for as long as was asked and at most as long as a token can last.
pub proof fn law_lone_claim_granted(m: HubModel, token: Seq<char>, expiry: Option<Duration>, now: Moment, later: Instant)
    requires
        m.agents.dom().finite(),
        m.token_to_name.contains_key(token),
        now.in_range(),
        forall|g: Seq<char>| #[trigger] m.trust.governors.contains_key(g) ==> m.trust.governors[g].revoked,
        forall|n: Seq<char>| !asked(m, m.token_to_name[token], n),
    ensures
        m.claim(token, expiry, now).1 matches Ok(ClaimOutcomeView::Granted { governor_token })
            && in_office(m.claim(token, expiry, now).0.trust, governor_token, later) == match expiry {
            None => true,
            Some(d) => later < now.instant + if d <= MAX_EXPIRY {
                d as int
            } else {
                MAX_EXPIRY as int
            },
        },
{
    let candidate = m.token_to_name[token];
    let counted = HubModel { claim_counter: (m.claim_counter + 1) as u64, ..m };
    let voters = counted.voters(candidate);
    assert(!m.trust.governed());
    if voters.len() > 0 {
        lemma_voters(counted, candidate, voters[0]);
        assert(voters.contains(voters[0]));
        assert(asked(m, candidate, voters[0]));
    }
}

/// A claim where someone governs is put to exactly those who are in office, all of whom must
/// approve, and the governors are told; until then nothing changes in who governs.
pub proof fn law_transfer_called(m: HubModel, token: Seq<char>, expiry: Option<Duration>, now: Moment, governor: Seq<char>)
    requires
        m.token_to_name.contains_key(token),
        m.trust.governors.contains_key(governor),
        !m.trust.governors[governor].revoked,
    ensures
        ({
            let candidate = m.token_to_name[token];
            let (after, r) = m.claim(token, expiry, now);
            &&& r matches Ok(ClaimOutcomeView::Transfer { claim_id }) && {
                &&& after.outbox.last() == EffectView::Governors {
                    text: events::transfer_request(claim_id, candidate),
                }
                &&& after.claims[claim_id].candidate_name == candidate
                &&& after.claims[claim_id].candidate_token == token
                &&& after.claims[claim_id].kind == ClaimKind::Transfer
                &&& after.claims[claim_id].required.contains(governor)
                &&& forall|g: Seq<char>| #[trigger]
                    after.claims[claim_id].required.contains(g) <==> m.trust.governors.contains_key(g)
                        && !m.trust.governors[g].revoked
                &&& forall|g: Seq<char>| !#[trigger] after.claims[claim_id].approved.contains(g)
            }
            &&& after.trust == m.trust
            &&& after.queues == m.queues
        }),
{
    assert(m.trust.governed());
}

/// Only a participant with a name claims the governorship.
pub proof fn law_nameless_claims_nothing(m: HubModel, token: Seq<char>, expiry: Option<Duration>, now: Moment)
    requires
        !m.token_to_name.contains_key(token),
    ensures
        m.claim(token, expiry, now) == (
            m,
            Err::<ClaimOutcomeView, ErrorView>(ErrorView::AnnounceRequired),
        ),
{
}

// ── Handing on and renewing ──────────────────────────────────────────────────

/// An offer that is taken up makes a new governor of the one who takes it up and ends the office
/// of the one who made it; nobody else's office changes, and every grant stands. The offer is gone,
/// and the store forgets the old token and learns the new one.
pub proof fn law_offer_taken_up(
    m: HubModel,
    bearer: Seq<char>,
    offer: Seq<char>,
    token: Seq<char>,
    other: Seq<char>,
    later: Instant,
)
    requires
        m.accept_transfer(bearer, offer).1 == Ok::<Seq<char>, ErrorView>(token),
        m.trust.unused(token),
        m.trust.governors.contains_key(m.trust.transfers[offer].from_gov_token),
    ensures
        ({
            let after = m.accept_transfer(bearer, offer).0;
            let from = m.trust.transfers[offer].from_gov_token;
            &&& m.trust.transfers.contains_key(offer)
            &&& m.trust.transfers[offer].to_identity is None || m.trust.transfers[offer].to_identity
                == Some(m.token_to_name[bearer])
            &&& in_office(after.trust, token, later)
            &&& !in_office(after.trust, from, later)
            &&& other != from && other != token ==> in_office(after.trust, other, later) == in_office(
                m.trust,
                other,
                later,
            )
            &&& after.trust.grants == m.trust.grants
            &&& !after.trust.transfers.contains_key(offer)
            &&& m.persistent ==> after.outbox == m.outbox.push(
                EffectView::Store(StoreWriteView::DeleteToken { token: from }),
            ).push(
                EffectView::Store(
                    StoreWriteView::UpsertToken {
                        token,
                        identity: token,
                        token_type: "governor"@,
                        expires_at: None,
                    },
                ),
            )
        }),
{
}

/// An offer that nobody made, or that was made to somebody else, is not taken up.
pub proof fn law_offer_not_taken_up(m: HubModel, bearer: Seq<char>, offer: Seq<char>)
    requires
        m.tokens.contains_key(bearer),
        !m.tokens[bearer].revoked,
        m.token_to_name.contains_key(bearer),
    ensures
        !m.trust.transfers.contains_key(offer) ==> m.accept_transfer(bearer, offer) == (
            m,
            Err::<Seq<char>, ErrorView>(ErrorView::RecipientUnknown),
        ),
        m.trust.transfers.contains_key(offer) && (m.trust.transfers[offer].to_identity matches Some(to)
            && to != m.token_to_name[bearer]) ==> m.accept_transfer(bearer, offer) == (
            m,
            Err::<Seq<char>, ErrorView>(ErrorView::Forbidden),
        ),
{
}

/// An offer that a governor makes can be taken up by the one it is made to, or by anybody with a
/// name where it is made to nobody.
pub proof fn law_offer_stands(
    m: HubModel,
    from: Seq<char>,
    to: Option<Seq<char>>,
    offer: Seq<char>,
    bearer: Seq<char>,
)
    requires
        m.tokens.contains_key(bearer),
        !m.tokens[bearer].revoked,
        m.token_to_name.contains_key(bearer),
        to is None || to == Some(m.token_to_name[bearer]),
    ensures
        (HubModel { trust: m.trust.offer(from, to, offer), ..m }).accept_transfer(bearer, offer).1 is Ok,
        m.trust.offer(from, to, offer).transfers[offer].from_gov_token == from,
{
}

/// A governor's new token takes the place of the old one: it is in office exactly as long as the
/// old one was, the old one is not, nobody else's office changes, and the store forgets the old
/// one and learns the new one with its end.
pub proof fn law_token_renewed(
    m: HubModel,
    old_token: Seq<char>,
    now: Moment,
    token: Seq<char>,
    other: Seq<char>,
    later: Instant,
)
    requires
        m.refresh(old_token, now).1 == Ok::<Seq<char>, ErrorView>(token),
        m.trust.unused(token),
    ensures
        ({
            let after = m.refresh(old_token, now).0;
            &&& in_office(m.trust, old_token, now.instant)
            &&& in_office(after.trust, token, later) == in_office(m.trust, old_token, later)
            &&& !in_office(after.trust, old_token, later)
            &&& other != old_token && other != token ==> in_office(after.trust, other, later)
                == in_office(m.trust, other, later)
            &&& after.trust.grants == m.trust.grants
            &&& m.persistent ==> after.outbox == m.outbox.push(
                EffectView::Store(StoreWriteView::DeleteToken { token: old_token }),
            ).push(
                EffectView::Store(
                    StoreWriteView::UpsertToken {
                        token,
                        identity: token,
                        token_type: "governor"@,
                        expires_at: match m.trust.governors[old_token].expires {
                            Some(end) => Some((now.system + (end - now.instant)) as i128),
                            None => None,
                        },
                    },
                ),
            )
        }),
{
}

} // verus!
