//! A held message waits, whatever else happens, until it is ruled on or its time is over.

use crate::clock::{Duration, Instant, Moment};
use crate::delivery::attachments::NewAttachmentView;
use crate::delivery::model::HubModel;
use crate::delivery::{DecisionView, HoldView};
use crate::laws::governance;
use crate::text;
use crate::trust::Terms;
use vstd::prelude::*;

verus! {

proof fn lemma_push_all_holds(m: HubModel, streams: Seq<u64>, text: Seq<char>)
    ensures
        m.push_all(streams, text).holds == m.holds,
    decreases streams.len(),
{
    if streams.len() > 0 {
        lemma_push_all_holds(m, streams.drop_last(), text);
    }
}

proof fn lemma_evict_all_holds(m: HubModel, tokens: Seq<Seq<char>>, now: Moment)
    ensures
        m.evict_all(tokens, now).holds == m.holds,
    decreases tokens.len(),
{
    if tokens.len() > 0 {
        lemma_evict_all_holds(m, tokens.drop_last(), now);
    }
}

proof fn lemma_call_vote_holds(m: HubModel, voters: Seq<Seq<char>>, claim_id: Seq<char>, candidate: Seq<char>)
    ensures
        m.call_vote(voters, claim_id, candidate).holds == m.holds,
    decreases voters.len(),
{
    if voters.len() > 0 {
        lemma_call_vote_holds(m, voters.drop_last(), claim_id, candidate);
    }
}

/// What is done for each of a list leaves the held messages as they are.
proof fn lemma_lists_leave_holds()
    ensures
        forall|m: HubModel, streams: Seq<u64>, text: Seq<char>|
            (#[trigger] m.push_all(streams, text)).holds == m.holds,
        forall|m: HubModel, tokens: Seq<Seq<char>>, now: Moment|
            (#[trigger] m.evict_all(tokens, now)).holds == m.holds,
        forall|m: HubModel, voters: Seq<Seq<char>>, id: Seq<char>, candidate: Seq<char>|
            (#[trigger] m.call_vote(voters, id, candidate)).holds == m.holds,
        forall|m: HubModel, ids: Seq<Seq<char>>| (#[trigger] m.drop_rows(ids)).holds == m.holds,
{
    assert forall|m: HubModel, streams: Seq<u64>, text: Seq<char>|
        (#[trigger] m.push_all(streams, text)).holds == m.holds by {
        lemma_push_all_holds(m, streams, text);
    }
    assert forall|m: HubModel, tokens: Seq<Seq<char>>, now: Moment|
        (#[trigger] m.evict_all(tokens, now)).holds == m.holds by {
        lemma_evict_all_holds(m, tokens, now);
    }
    assert forall|m: HubModel, voters: Seq<Seq<char>>, id: Seq<char>, candidate: Seq<char>|
        (#[trigger] m.call_vote(voters, id, candidate)).holds == m.holds by {
        lemma_call_vote_holds(m, voters, id, candidate);
    }
    assert forall|m: HubModel, ids: Seq<Seq<char>>| (#[trigger] m.drop_rows(ids)).holds == m.holds by {
        governance::lemma_rows_keep(m, ids);
    }
}

/// Clearing stale tokens away, making tokens known, and revoking tokens or all that a name has
/// leave the held messages as they are.
pub proof fn law_tokens_leave_holds(
    m: HubModel,
    n: u64,
    pending: bool,
    token: Seq<char>,
    name: Seq<char>,
    asked: Option<Seq<char>>,
    governor: Seq<char>,
    now: Moment,
)
    ensures
        m.gc(now).holds == m.holds,
        m.enrol(n, pending, now.instant).holds == m.holds,
        m.issue_participant(governor, asked, n, now.instant).0.holds == m.holds,
        m.revoke_token(token, governor, now).0.holds == m.holds,
        m.revoke_by_name(name, governor, now).0.holds == m.holds,
{
    lemma_lists_leave_holds();
}

proof fn lemma_stream_taken_holds(
    m: HubModel,
    token: Seq<char>,
    provided: Seq<char>,
    ip: Option<Seq<char>>,
    push: bool,
    now: Instant,
)
    ensures
        m.stream_taken(token, provided, ip, push, now).holds == m.holds,
{
}

proof fn lemma_greeting_holds(
    m: HubModel,
    token: Seq<char>,
    provided: Seq<char>,
    taken: Option<Seq<char>>,
    stream: u64,
)
    ensures
        m.greet(token, provided, taken, stream).catch_up(token, stream).holds == m.holds,
{
}

proof fn lemma_start_stream_holds(
    m: HubModel,
    token: Seq<char>,
    provided: Seq<char>,
    ip: Option<Seq<char>>,
    name: Option<Seq<char>>,
    push: bool,
    now: Instant,
)
    ensures
        m.start_stream(token, provided, ip, name, push, now).holds == m.holds,
{
    lemma_stream_taken_holds(m, token, provided, ip, push, now);
    let taken = m.stream_taken(token, provided, ip, push, now);
    let bound = taken.bind_asked(token, name, now);
    lemma_greeting_holds(bound, token, provided, taken.taken_name(token, name, now), m.next_stream);
}

/// Opening a stream leaves the held messages as they are.
pub proof fn law_opening_leaves_holds(
    m: HubModel,
    provided: Option<Seq<char>>,
    ip: Option<Seq<char>>,
    asked: Option<Seq<char>>,
    force: bool,
    push: bool,
    n: u64,
    now: Moment,
)
    ensures
        m.open_listen(provided, ip, asked, force, push, n, now).0.holds == m.holds,
{
    if provided is Some {
        let t = provided->0;
        let clean = m.gc(now);
        lemma_evict_all_holds(m, m.stale_tokens(now.instant), now);
        lemma_start_stream_holds(clean, t, t, ip, asked, push, now.instant);
        lemma_start_stream_holds(
            clean.enrol(n, false, now.instant),
            text::decimal(n as nat),
            t,
            ip,
            asked,
            push,
            now.instant,
        );
    }
}

/// Announcing a name leaves the held messages as they are.
pub proof fn law_announcing_leaves_holds(m: HubModel, token: Seq<char>, name: Seq<char>, now: Moment)
    ensures
        m.announce(token, name, now).0.holds == m.holds,
{
    lemma_lists_leave_holds();
}

/// Streams that break, are closed or are given up, countdowns that run out, hiding and showing
/// leave the held messages as they are.
pub proof fn law_closing_leaves_holds(
    m: HubModel,
    token: Seq<char>,
    stream: u64,
    name: Seq<char>,
    timer: u64,
    hidden: bool,
    now: Moment,
)
    ensures
        m.stream_dropped(token, stream).holds == m.holds,
        m.close_listen(token, now).holds == m.holds,
        m.cancel_listen(token, now).0.holds == m.holds,
        m.settle_fired(name, timer).holds == m.holds,
        m.set_hidden(token, hidden).0.holds == m.holds,
        m.sse_open(name).holds == m.holds,
        m.sse_close(name).holds == m.holds,
{
    lemma_lists_leave_holds();
}

/// Grants, requests for them, denials, files, and fetching messages leave the held messages as they
/// are.
pub proof fn law_grants_leave_holds(
    m: HubModel,
    token: Seq<char>,
    to: Seq<char>,
    reason: Option<Seq<char>>,
    update_id: Option<Seq<char>>,
    id: Seq<char>,
    why: Seq<char>,
    expires_at: Option<u64>,
    expiry: Option<Duration>,
    a: Seq<char>,
    b: Seq<char>,
    terms: Terms,
    file: NewAttachmentView,
    size: nat,
    thread: Option<Seq<char>>,
    now: Moment,
)
    ensures
        m.request_grant(token, to, reason, update_id, now).0.holds == m.holds,
        m.approve_request(token, id, expiry, now).0.holds == m.holds,
        m.deny_request(token, id, why, expires_at, now).0.holds == m.holds,
        m.hold_request(token, id, why, now).0.holds == m.holds,
        m.approve_grant(token, a, b, expiry, terms, now).0.holds == m.holds,
        m.block(token, a, b, why, expires_at, now).0.holds == m.holds,
        m.unblock(token, a, b, now).0.holds == m.holds,
        m.revoke_grant(id, token, now).0.holds == m.holds,
        m.attached(file, size, reason).holds == m.holds,
        m.dequeue(token, thread, now).0.holds == m.holds,
        m.drain(token, thread).0.holds == m.holds,
{
    lemma_lists_leave_holds();
}

/// Installing, claiming, voting, handing over, resetting and refreshing leave the held messages as
/// they are.
pub proof fn law_governance_leaves_holds(
    m: HubModel,
    token: Seq<char>,
    expiry: Option<Duration>,
    id: Seq<char>,
    approve: bool,
    bearer: Seq<char>,
    now: Moment,
)
    ensures
        m.install(expiry, now).holds == m.holds,
        m.claim(token, expiry, now).0.holds == m.holds,
        m.respond(token, id, approve, now).0.holds == m.holds,
        m.accept_transfer(bearer, token).0.holds == m.holds,
        m.refresh(token, now).0.holds == m.holds,
        m.reset_trust(now).holds == m.holds,
{
    lemma_lists_leave_holds();
}

proof fn lemma_pruning_keeps_open(m: HubModel, hold: HoldView, now: Moment)
    requires
        m.holds.contains(hold),
        !hold.resolved,
        hold.expires > now.instant,
    ensures
        m.prune(now.instant).holds.contains(hold),
{
    let p = |h: HoldView| !h.resolved && h.expires > now.instant;
    let i = choose|i: int| 0 <= i < m.holds.len() && m.holds[i] == hold;
    m.holds.lemma_filter_contains(p, i);
}

/// Another message that is sent, whatever becomes of it, does not move a message that is held and
/// whose time lasts.
pub proof fn law_sending_keeps_hold(
    m: HubModel,
    hold: HoldView,
    token: Seq<char>,
    to: Seq<char>,
    payload: Seq<u8>,
    thread: Option<Seq<char>>,
    now: Moment,
)
    requires
        m.holds.contains(hold),
        !hold.resolved,
        hold.expires > now.instant,
    ensures
        m.send(token, to, payload, thread, now).0.holds.contains(hold),
        m.send_to_token(token, to, payload, thread, now).0.holds.contains(hold),
{
    lemma_sending_keeps_hold(m, hold, token, to, payload, thread, now);
    if m.addressee(to) is Ok {
        lemma_sending_keeps_hold(m, hold, token, m.addressee(to)->Ok_0, payload, thread, now);
    }
}

proof fn lemma_sending_keeps_hold(
    m: HubModel,
    hold: HoldView,
    token: Seq<char>,
    to: Seq<char>,
    payload: Seq<u8>,
    thread: Option<Seq<char>>,
    now: Moment,
)
    requires
        m.holds.contains(hold),
        !hold.resolved,
        hold.expires > now.instant,
    ensures
        m.send(token, to, payload, thread, now).0.holds.contains(hold),
{
    lemma_pruning_keeps_open(m, hold, now);
    let pruned = m.prune(now.instant).holds;
    let after = m.send(token, to, payload, thread, now).0.holds;
    let i = choose|i: int| 0 <= i < pruned.len() && pruned[i] == hold;
    assert(after == pruned || after == pruned.push(after.last()));
    assert(after[i] == hold);
}

/// A ruling on another message does not move a message that is held and whose time lasts.
pub proof fn law_ruling_keeps_other_hold(
    m: HubModel,
    hold: HoldView,
    governor: Seq<char>,
    id: Seq<char>,
    decision: DecisionView,
    now: Moment,
)
    requires
        m.holds.contains(hold),
        !hold.resolved,
        hold.expires > now.instant,
        hold.mediation_id != id,
    ensures
        m.resolve(governor, id, decision, now).0.holds.contains(hold),
{
    lemma_pruning_keeps_open(m, hold, now);
    let pruned = m.prune(now.instant);
    let after = m.resolve(governor, id, decision, now).0;
    let i = choose|i: int| 0 <= i < pruned.holds.len() && pruned.holds[i] == hold;
    if exists|k: int| pruned.hold_at(id, now.instant, k) {
        let k = choose|k: int| pruned.hold_at(id, now.instant, k);
        assert(pruned.hold_at(id, now.instant, k));
        assert(k != i);
    }
    assert(after.holds[i] == hold);
}

} // verus!
