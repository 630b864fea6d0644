//! Laws of ringing: whoever gets a message is told so on its stream, whatever the message came of.

use crate::clock::{Duration, Moment};
use crate::delivery::attachments::NewAttachmentView;
use crate::delivery::model;
use crate::delivery::model::HubModel;
use crate::delivery::{
    AckView, ApproveStatus, ClaimOutcomeView, ConnectionStage, DecisionView,
    EffectView, MediationResultView,
};
use crate::error::ErrorView;
use crate::events;
use crate::laws::seen;
use crate::laws::sessions;
use crate::trust;
use crate::types::MessageView;
use vstd::prelude::*;

verus! {

// ── In plain terms ───────────────────────────────────────────────────────────

/// A participant has a stream and was not told of a message since it last fetched.
pub open spec fn listening(m: HubModel, name: Seq<char>, token: Seq<char>, stream: u64) -> bool {
    &&& m.name_to_token.contains_key(name)
    &&& m.name_to_token[name] == token
    &&& m.tokens.contains_key(token)
    &&& m.tokens[token].stream matches Some(s) && s.id == stream
    &&& seen::connected(m, token)
    &&& !m.tokens[token].notify_suppressed
}

/// The messages that wait for a name.
pub open spec fn waiting(m: HubModel, name: Seq<char>) -> Seq<MessageView> {
    if m.queues.contains_key(name) {
        m.queues[name]
    } else {
        seq![]
    }
}

/// One more message waits for a name than before, and its stream was told how many there are.
pub open spec fn rung(m: HubModel, after: HubModel, name: Seq<char>, token: Seq<char>, stream: u64) -> bool {
    &&& waiting(after, name).len() == waiting(m, name).len() + 1
    &&& sessions::since(
        m,
        after,
        EffectView::Push { stream, text: events::notify(waiting(m, name).len() + 1) },
    )
    &&& after.tokens[token].notify_suppressed
}

proof fn lemma_rings(m: HubModel, name: Seq<char>, msg: MessageView, token: Seq<char>, stream: u64)
    requires
        listening(m, name, token, stream),
    ensures
        ({
            let after = m.deliver(name, msg).ring(name);
            &&& rung(m, after, name, token, stream)
            &&& after.outbox.len() == m.outbox.len() + 1
            &&& m.outbox.is_prefix_of(after.outbox)
        }),
{
    let after = m.deliver(name, msg).ring(name);
    assert(after.outbox[m.outbox.len() as int] == EffectView::Push {
        stream,
        text: events::notify(waiting(m, name).len() + 1),
    });
}

proof fn lemma_more(m: HubModel, mid: HubModel, after: HubModel, name: Seq<char>, token: Seq<char>, stream: u64)
    requires
        rung(m, mid, name, token, stream),
        mid.outbox.is_prefix_of(after.outbox),
        after.queues == mid.queues,
        after.tokens[token].notify_suppressed == mid.tokens[token].notify_suppressed,
    ensures
        rung(m, after, name, token, stream),
{
    let e = EffectView::Push { stream, text: events::notify(waiting(m, name).len() + 1) };
    let k = choose|k: int|
        m.outbox.len() <= k < mid.outbox.len() && #[trigger] mid.outbox[k] == e;
    assert(after.outbox[k] == e);
}

// ── What rings ───────────────────────────────────────────────────────────────

/// A file rings its recipient.
pub proof fn law_file_rings(
    m: HubModel,
    a: NewAttachmentView,
    size: nat,
    note: Option<Seq<char>>,
    token: Seq<char>,
    stream: u64,
)
    requires
        listening(m, a.to_name, token, stream),
    ensures
        rung(m, m.attached(a, size, note), a.to_name, token, stream),
{
    let msg = m.attached(a, size, note).queues[a.to_name].last();
    lemma_rings(m, a.to_name, msg, token, stream);
}

/// A message that is accepted rings its recipient.
pub proof fn law_message_rings(
    m: HubModel,
    from: Seq<char>,
    to: Seq<char>,
    payload: Seq<u8>,
    thread: Option<Seq<char>>,
    now: Moment,
    token: Seq<char>,
    stream: u64,
)
    requires
        listening(m, to, token, stream),
        m.send(from, to, payload, thread, now).1 == Ok::<AckView, ErrorView>(AckView::Accepted),
    ensures
        rung(m, m.send(from, to, payload, thread, now).0, to, token, stream),
{
    let sender = m.prune(now.instant).sender(from)->Ok_0;
    let msg = crate::delivery::messaging::plain_message(payload, sender, thread);
    lemma_rings(m, to, msg, token, stream);
    let after = m.send(from, to, payload, thread, now).0;
    let told = EffectView::Push { stream, text: events::notify(waiting(m, to).len() + 1) };
    assert(after.outbox.last() == told);
    assert(after.outbox[after.outbox.len() - 1] == told);
}

/// A message that a governor lets through rings its recipient.
pub proof fn law_ruled_message_rings(
    m: HubModel,
    governor: Seq<char>,
    id: Seq<char>,
    decision: DecisionView,
    now: Moment,
    to: Seq<char>,
    token: Seq<char>,
    stream: u64,
)
    requires
        listening(m, to, token, stream),
        m.resolve(governor, id, decision, now).1 == Ok::<MediationResultView, ErrorView>(
            MediationResultView::Delivered { to_name: to },
        ),
    ensures
        rung(m, m.resolve(governor, id, decision, now).0, to, token, stream),
{
    let pruned = m.prune(now.instant);
    let i = choose|i: int| pruned.hold_at(id, now.instant, i);
    let (after, r) = pruned.rule_on(i, governor, decision, now);
    match pruned.holds[i].grant_id {
        Some(gid) => {
            let opens = (pruned.trust.grant(gid)->0).opens_reply_window;
            assert((after, r) == pruned.settle_hold(i, decision, opens, Some(gid), now));
            lemma_settling_rings(pruned, i, decision, opens, Some(gid), now, to, token, stream);
        },
        None => {
            lemma_settling_rings(pruned, i, decision, true, None, now, to, token, stream);
        },
    }
}

proof fn lemma_settling_rings(
    m: HubModel,
    i: int,
    decision: DecisionView,
    opens: bool,
    grant_id: Option<Seq<char>>,
    now: Moment,
    to: Seq<char>,
    token: Seq<char>,
    stream: u64,
)
    requires
        listening(m, to, token, stream),
        m.settle_hold(i, decision, opens, grant_id, now).1 == Ok::<MediationResultView, ErrorView>(
            MediationResultView::Delivered { to_name: to },
        ),
    ensures
        rung(m, m.settle_hold(i, decision, opens, grant_id, now).0, to, token, stream),
{
    let hold = m.holds[i];
    let done = HubModel {
        holds: m.holds.update(i, crate::delivery::HoldView { resolved: true, ..hold }),
        ..m
    };
    let msg = MessageView {
        payload: match decision {
            DecisionView::Modify(p) => p,
            _ => hold.payload,
        },
        from_name: hold.from_name,
        reason: Some(hold.reason),
        event_type: None,
        thread_id: None,
    };
    let put = done.deliver(to, msg);
    let sent = put.window_if(opens, to, hold.from_name, now.instant);
    let counted = match grant_id {
        Some(gid) => sent.spend(gid).count_use(gid),
        None => sent,
    };
    assert(counted == (HubModel {
        windows: counted.windows,
        trust: counted.trust,
        outbox: counted.outbox,
        ..put
    }));
    assert(put.outbox == m.outbox);
    assert(m.outbox.is_prefix_of(counted.outbox));
    let after = counted.ring(to);
    assert(after == m.settle_hold(i, decision, opens, grant_id, now).0);
    assert(after.outbox[counted.outbox.len() as int] == EffectView::Push {
        stream,
        text: events::notify(waiting(m, to).len() + 1),
    });
}

/// A request rings the one it asks, where nobody governs.
pub proof fn law_request_rings(
    m: HubModel,
    from: Seq<char>,
    to: Seq<char>,
    reason: Option<Seq<char>>,
    update: Option<Seq<char>>,
    now: Moment,
    token: Seq<char>,
    stream: u64,
)
    requires
        listening(m, to, token, stream),
        forall|g: Seq<char>| #[trigger] m.trust.governors.contains_key(g) ==> m.trust.governors[g].revoked,
        m.request_grant(from, to, reason, update, now).1 is Ok,
    ensures
        rung(m, m.request_grant(from, to, reason, update, now).0, to, token, stream),
{
    assert(!m.trust.governed());
    let clear = m.forget_block(from, to);
    let name = match m.name_of(from) {
        Some(n) => n,
        None => seq![],
    };
    let (filed, r) = clear.file_request(from, name, to, reason, update, now.instant);
    assert(filed == (HubModel { requests: filed.requests, req_counter: filed.req_counter, ..clear }));
    let msg = model::system_message(
        events::consent_request(r->Ok_0, name, reason),
        "grant_request"@,
    );
    lemma_rings(filed, to, msg, token, stream);
}

/// A request that a governor passes on rings the one it asks.
pub proof fn law_passed_request_rings(
    m: HubModel,
    governor: Seq<char>,
    id: Seq<char>,
    expiry: Option<Duration>,
    now: Moment,
    token: Seq<char>,
    stream: u64,
)
    requires
        listening(m, m.requests[id].to_name, token, stream),
        m.approve_request(governor, id, expiry, now).1 == Ok::<ApproveStatus, ErrorView>(
            ApproveStatus::PendingRecipient,
        ),
    ensures
        rung(
            m,
            m.approve_request(governor, id, expiry, now).0,
            m.requests[id].to_name,
            token,
            stream,
        ),
{
    let req = m.requests[id];
    if req.stage == ConnectionStage::PendingGovernor {
        let after = m.approve_request(governor, id, expiry, now).0;
        let passed = HubModel { requests: after.requests, ..m };
        let msg = model::system_message(
            events::recipient_request(id, req.from_name, req.reason),
            "grant_request"@,
        );
        lemma_rings(passed, req.to_name, msg, token, stream);
        assert(after == passed.deliver(req.to_name, msg).ring(req.to_name));
    }
}

/// Whoever asked for a grant is rung when it has one.
pub proof fn law_grant_rings(
    m: HubModel,
    by: Seq<char>,
    id: Seq<char>,
    expiry: Option<Duration>,
    now: Moment,
    token: Seq<char>,
    stream: u64,
)
    requires
        listening(m, m.requests[id].from_name, token, stream),
        m.approve_request(by, id, expiry, now).1 == Ok::<ApproveStatus, ErrorView>(
            ApproveStatus::Established,
        ),
    ensures
        rung(m, m.approve_request(by, id, expiry, now).0, m.requests[id].from_name, token, stream),
{
    let req = m.requests[id];
    let authority = req.approving_governor->0;
    let terms = trust::Terms {
        name_a: Some(req.from_name),
        name_b: Some(req.to_name),
        ..trust::Terms::open_terms()
    };
    let until = crate::delivery::grants::sooner(req.governor_expiry, expiry);
    let made = HubModel {
        trust: m.trust.granted(
            authority,
            req.from_identity,
            req.to_identity,
            until,
            terms,
            now.instant,
        ),
        ..m
    };
    let end = crate::delivery::governance::wall_end(now, until);
    let after = m.approve_request(by, id, expiry, now).0;
    assert(after == made.conclude(id, req, authority, m.trust.next("grant"@), end));
    lemma_concluding_rings(made, id, req, authority, m.trust.next("grant"@), end, token, stream);
}

proof fn lemma_concluding_rings(
    m: HubModel,
    id: Seq<char>,
    req: crate::delivery::RequestView,
    authority: Seq<char>,
    grant_id: Seq<char>,
    end: Option<crate::clock::SystemTime>,
    token: Seq<char>,
    stream: u64,
)
    requires
        listening(m, req.from_name, token, stream),
    ensures
        rung(
            m,
            m.conclude(id, req, authority, grant_id, end),
            req.from_name,
            token,
            stream,
        ),
{
    let msg = model::system_message(
        events::grant_established(id, req.to_name),
        "grant_established"@,
    );
    let told = m.deliver(req.from_name, msg);
    let bell = told.bell(req.from_name);
    assert(bell == Some(stream));
    let marked = told.hush(req.from_name).mark_granted(req.from_identity).mark_granted(
        req.to_identity,
    );
    assert(marked.tokens.contains_key(token) && marked.tokens[token].notify_suppressed);
    assert(marked.outbox == m.outbox);
    let text = events::identity_persisted();
    let gone = HubModel { requests: marked.requests.remove(id), ..marked };
    let second = gone.push(marked.stream_of(req.from_identity), text).push(
        marked.stream_of(req.to_identity),
        text,
    );
    let third = second.push(bell, events::notify(told.queue(req.from_name).len()));
    let after = m.conclude(id, req, authority, grant_id, end);
    let e = EffectView::Push { stream, text: events::notify(waiting(m, req.from_name).len() + 1) };
    assert(third.outbox[second.outbox.len() as int] == e);
    assert(third.outbox.is_prefix_of(after.outbox));
    assert(after.outbox[second.outbox.len() as int] == e);
    assert(after.queues == told.queues);
    assert(after.tokens == marked.tokens);
}

/// Whoever asked for a grant is rung when it is denied.
pub proof fn law_denial_rings(
    m: HubModel,
    by: Seq<char>,
    id: Seq<char>,
    reason: Seq<char>,
    expires_at: Option<u64>,
    now: Moment,
    token: Seq<char>,
    stream: u64,
)
    requires
        listening(m, m.requests[id].from_name, token, stream),
        m.deny_request(by, id, reason, expires_at, now).1 is Ok,
    ensures
        rung(
            m,
            m.deny_request(by, id, reason, expires_at, now).0,
            m.requests[id].from_name,
            token,
            stream,
        ),
{
    let req = m.requests[id];
    let denied = m.deny_request(by, id, reason, expires_at, now).0;
    let blocked = HubModel { blocks: denied.blocks, requests: denied.requests, ..m };
    let msg = model::system_message(events::grant_denied(id, req.to_name, reason), "grant_denied"@);
    lemma_rings(blocked, req.from_name, msg, token, stream);
    let mid = blocked.deliver(req.from_name, msg).ring(req.from_name);
    assert(rung(m, mid, req.from_name, token, stream));
    let row = crate::delivery::StoreWriteView::UpsertDenialBlock {
        from_identity: req.from_identity,
        to_name: req.to_name,
        reason,
        expires_at,
    };
    assert(denied == mid.store(row));
    lemma_more(m, mid, denied, req.from_name, token, stream);
}

/// Whoever asked for a grant is rung when it is asked back.
pub proof fn law_asking_back_rings(
    m: HubModel,
    by: Seq<char>,
    id: Seq<char>,
    reason: Seq<char>,
    now: Moment,
    token: Seq<char>,
    stream: u64,
)
    requires
        listening(m, m.requests[id].from_name, token, stream),
        m.hold_request(by, id, reason, now).1 is Ok,
    ensures
        rung(
            m,
            m.hold_request(by, id, reason, now).0,
            m.requests[id].from_name,
            token,
            stream,
        ),
{
    let req = m.requests[id];
    let held = m.hold_request(by, id, reason, now).0;
    let back = HubModel { requests: held.requests, ..m };
    let msg = model::system_message(events::grant_held(id, req.to_name, reason), "grant_held"@);
    lemma_rings(back, req.from_name, msg, token, stream);
    assert(held == back.deliver(req.from_name, msg).ring(req.from_name));
}

/// A candidate is rung when it was voted down and when it won.
pub proof fn law_vote_rings(
    m: HubModel,
    approver: Seq<char>,
    id: Seq<char>,
    approve: bool,
    now: Moment,
    token: Seq<char>,
    stream: u64,
)
    requires
        listening(m, m.claims[id].candidate_name, token, stream),
        m.respond(approver, id, approve, now).1 matches Ok(r) && !(r is Waiting),
    ensures
        rung(
            m,
            m.respond(approver, id, approve, now).0,
            m.claims[id].candidate_name,
            token,
            stream,
        ),
{
    let claim = m.claims[id];
    let (after, r) = m.respond(approver, id, approve, now);
    if r->Ok_0 is Rejected {
        let msg = model::system_message(events::claim_rejected(id), "governance"@);
        lemma_rings(m.drop_claim(id), claim.candidate_name, msg, token, stream);
    } else {
        let won = m.won(id, claim, now);
        let cleared = won.drop_rows(m.outgoing(claim));
        lemma_rows_dropped(won, m.outgoing(claim));
        let stored = cleared.store_governor(m.trust.next("gov"@), None);
        assert(after == stored.ring(claim.candidate_name));
        assert(after.outbox.last() == EffectView::Push {
            stream,
            text: events::notify(waiting(m, claim.candidate_name).len() + 1),
        });
        assert(after.outbox[after.outbox.len() - 1] == after.outbox.last());
    }
}

proof fn lemma_rows_dropped(m: HubModel, tokens: Seq<Seq<char>>)
    ensures
        m.drop_rows(tokens) == (HubModel { outbox: m.drop_rows(tokens).outbox, ..m }),
        m.outbox.is_prefix_of(m.drop_rows(tokens).outbox),
    decreases tokens.len(),
{
    if tokens.len() > 0 {
        lemma_rows_dropped(m, tokens.drop_last());
    }
}

/// Everybody who has a vote is rung when a vote is called.
pub proof fn law_election_rings(
    m: HubModel,
    candidate: Seq<char>,
    expiry: Option<Duration>,
    now: Moment,
    name: Seq<char>,
    token: Seq<char>,
    stream: u64,
)
    requires
        m.claim(candidate, expiry, now).1 matches Ok(ClaimOutcomeView::Election { .. }),
        m.agents.dom().finite(),
        listening(m, name, token, stream),
        m.agents.contains_key(name),
        name != m.token_to_name[candidate],
        forall|other: Seq<char>| #[trigger]
            m.name_to_token.contains_key(other) && other != name ==> m.name_to_token[other] != token,
    ensures
        rung(m, m.claim(candidate, expiry, now).0, name, token, stream),
        m.claim(candidate, expiry, now).1 matches Ok(ClaimOutcomeView::Election { claim_id, voters })
            && voters == m.claim(candidate, expiry, now).0.claims[claim_id].required.len(),
{
    let who = m.token_to_name[candidate];
    let counted = HubModel { claim_counter: (m.claim_counter + 1) as u64, ..m };
    let voters = counted.voters(who);
    let id = m.next_claim();
    crate::laws::elections::lemma_voters(counted, who, name);
    assert(crate::laws::elections::asked(counted, who, name));
    assert(voters.contains(name));
    lemma_call_rings(counted, voters, id, who, name, token, stream);
    let called = counted.call_vote(voters, id, who);
    let after = m.claim(candidate, expiry, now).0;
    assert(after == called.file_claim(
        id,
        candidate,
        who,
        crate::delivery::ClaimKind::Election,
        voters.to_set(),
        now.instant,
    ));
    assert(rung(counted, called, name, token, stream));
    lemma_more(counted, called, after, name, token, stream);
    assert(waiting(counted, name) == waiting(m, name));
    voters.unique_seq_to_set();
}

proof fn lemma_call_rings(
    m: HubModel,
    voters: Seq<Seq<char>>,
    id: Seq<char>,
    candidate: Seq<char>,
    name: Seq<char>,
    token: Seq<char>,
    stream: u64,
)
    requires
        voters.no_duplicates(),
        listening(m, name, token, stream),
        forall|other: Seq<char>| #[trigger]
            m.name_to_token.contains_key(other) && other != name ==> m.name_to_token[other] != token,
    ensures
        ({
            let after = m.call_vote(voters, id, candidate);
            &&& after.name_to_token == m.name_to_token
            &&& after.connections == m.connections
            &&& m.outbox.is_prefix_of(after.outbox)
            &&& !voters.contains(name) ==> listening(after, name, token, stream) && waiting(after, name)
                == waiting(m, name)
            &&& voters.contains(name) ==> rung(m, after, name, token, stream)
            &&& after.tokens.contains_key(token)
        }),
    decreases voters.len(),
{
    if voters.len() > 0 {
        let fewer = voters.drop_last();
        assert(fewer.no_duplicates());
        lemma_call_rings(m, fewer, id, candidate, name, token, stream);
        let before = m.call_vote(fewer, id, candidate);
        let last = voters.last();
        let msg = model::system_message(events::election_request(id, candidate), "governance"@);
        let after = before.deliver(last, msg).ring(last);
        assert(after == m.call_vote(voters, id, candidate));
        if last == name {
            assert(!fewer.contains(name)) by {
                if fewer.contains(name) {
                    assert(voters[fewer.index_of(name)] == name);
                }
            }
            assert(voters.contains(voters[voters.len() - 1]));
            lemma_rings(before, name, msg, token, stream);
        } else {
            if voters.contains(name) {
                assert(fewer[voters.index_of(name)] == name);
                let e = EffectView::Push {
                    stream,
                    text: events::notify(waiting(m, name).len() + 1),
                };
                let k = choose|k: int|
                    m.outbox.len() <= k < before.outbox.len() && #[trigger] before.outbox[k] == e;
                assert(after.outbox[k] == e);
            } else if fewer.contains(name) {
                assert(voters[fewer.index_of(name)] == name);
            }
        }
    }
}

} // verus!
