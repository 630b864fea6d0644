//! Laws of a restart: what was written down is back, and nothing else.

use crate::clock::{Duration, Instant, Moment};
use crate::config::Settings;
use crate::delivery::model::HubModel;
use crate::delivery::start;
use crate::delivery::{AckView, BlockView, EffectView, StoreWriteView};
use crate::error::ErrorView;
use crate::laws::elections::in_office;
use crate::persistence::{DenialRow, GrantRow, TokenRow};
use crate::trust::{GrantView, TrustModel};
use crate::types::MAX_EXPIRY;
use vstd::prelude::*;

verus! {

// ── Denials ──────────────────────────────────────────────────────────────────

/// The row at `i` is the last for its pair.
pub open spec fn last_denial(rows: Seq<DenialRow>, i: int) -> bool {
    &&& 0 <= i < rows.len()
    &&& forall|j: int|
        i < j < rows.len() ==> (#[trigger] rows[j]).from_identity != rows[i].from_identity
            || rows[j].to_name != rows[i].to_name
}

proof fn lemma_blocks_loaded(m: HubModel, rows: Seq<DenialRow>, i: int)
    requires
        last_denial(rows, i),
    ensures
        m.load_blocks(rows).blocks.contains_key((rows[i].from_identity, rows[i].to_name)),
        m.load_blocks(rows).blocks[(rows[i].from_identity, rows[i].to_name)] == (BlockView {
            reason: rows[i].reason,
            expires_at: rows[i].expires_at,
        }),
    decreases rows.len(),
{
    let fewer = rows.drop_last();
    if i < fewer.len() {
        assert forall|j: int| i < j < fewer.len() implies (#[trigger] fewer[j]).from_identity
            != fewer[i].from_identity || fewer[j].to_name != fewer[i].to_name by {
            assert(rows[j] == fewer[j]);
        }
        assert(fewer[i] == rows[i]);
        lemma_blocks_loaded(m, fewer, i);
        assert(rows[rows.len() - 1] == rows.last());
    }
}

proof fn lemma_no_other_blocks(m: HubModel, rows: Seq<DenialRow>, from: Seq<char>, to: Seq<char>)
    requires
        forall|i: int|
            0 <= i < rows.len() ==> (#[trigger] rows[i]).from_identity != from || rows[i].to_name != to,
    ensures
        m.load_blocks(rows).blocks.contains_key((from, to)) == m.blocks.contains_key((from, to)),
        m.load_blocks(rows) == (HubModel { blocks: m.load_blocks(rows).blocks, ..m }),
    decreases rows.len(),
{
    if rows.len() > 0 {
        let fewer = rows.drop_last();
        assert forall|i: int| 0 <= i < fewer.len() implies (#[trigger] fewer[i]).from_identity != from
            || fewer[i].to_name != to by {
            assert(rows[i] == fewer[i]);
        }
        lemma_no_other_blocks(m, fewer, from, to);
        assert(rows[rows.len() - 1] == rows.last());
    }
}

proof fn lemma_blocks_only(m: HubModel, rows: Seq<DenialRow>)
    ensures
        m.load_blocks(rows) == (HubModel { blocks: m.load_blocks(rows).blocks, ..m }),
    decreases rows.len(),
{
    if rows.len() > 0 {
        lemma_blocks_only(m, rows.drop_last());
    }
}

proof fn lemma_participants_leave(m: HubModel, rows: Seq<TokenRow>, now: Instant)
    ensures
        m.load_participants(rows, now).blocks == m.blocks,
        m.load_participants(rows, now).trust == m.trust,
        m.load_participants(rows, now).windows == m.windows,
        m.load_participants(rows, now).holds == m.holds,
    decreases rows.len(),
{
    if rows.len() > 0 {
        lemma_participants_leave(m, rows.drop_last(), now);
    }
}

/// Denials survive a restart: the last stored row for a pair stands, with its reason and its end,
/// and where a pair has no row there is no denial.
pub proof fn law_denials_survive(
    lapse_after: Duration,
    settings: Settings,
    tokens: Seq<TokenRow>,
    grants: Seq<GrantRow>,
    rows: Seq<DenialRow>,
    names: Seq<Seq<char>>,
    now: Moment,
    i: int,
    from: Seq<char>,
    to: Seq<char>,
)
    ensures
        ({
            let hub = HubModel::taken_up(lapse_after, settings, tokens, grants, rows, names, now);
            &&& last_denial(rows, i) ==> hub.blocks.contains_key(
                (rows[i].from_identity, rows[i].to_name),
            ) && hub.blocks[(rows[i].from_identity, rows[i].to_name)] == (BlockView {
                reason: rows[i].reason,
                expires_at: rows[i].expires_at,
            })
            &&& (forall|j: int|
                0 <= j < rows.len() ==> (#[trigger] rows[j]).from_identity != from || rows[j].to_name
                    != to) ==> !hub.blocks.contains_key((from, to))
        }),
{
    let empty = HubModel::empty(lapse_after, settings);
    let p = |t: TokenRow| start::is_participant(t);
    let trusted = HubModel {
        trust: empty.trust.load_tokens(
            tokens.filter(|t: TokenRow| !start::is_participant(t)),
            now.instant,
            now.unix() as u64,
        ).load_grants(grants, now.instant, now.unix() as u64),
        persistent: true,
        ..empty
    };
    let known = trusted.load_identities(names);
    lemma_participants_leave(known, tokens.filter(p), now.instant);
    let loaded = known.load_participants(tokens.filter(p), now.instant);
    if last_denial(rows, i) {
        lemma_blocks_loaded(loaded, rows, i);
    }
    if forall|j: int|
        0 <= j < rows.len() ==> (#[trigger] rows[j]).from_identity != from || rows[j].to_name != to {
        lemma_no_other_blocks(loaded, rows, from, to);
    }
}

/// A denial is in force exactly while it stands and has not ended, in whole seconds since the Unix
/// epoch: the one it stops gets its reason, for messages as for requests, and is seen offline by;
/// once it has ended it stops nobody.
pub proof fn law_denial_in_force(
    m: HubModel,
    token: Seq<char>,
    to: Seq<char>,
    payload: Seq<u8>,
    thread: Option<Seq<char>>,
    why: Option<Seq<char>>,
    update: Option<Seq<char>>,
    now: Moment,
)
    requires
        m.tokens.contains_key(token),
        !m.tokens[token].revoked,
        m.token_to_name.contains_key(token),
        m.blocks.contains_key((token, to)),
        now.system >= 0,
    ensures
        ({
            let block = m.blocks[(token, to)];
            let r = m.send(token, to, payload, thread, now).1;
            let asked = m.request_grant(token, to, why, update, now).1;
            if block.expires_at is None || now.system / 1_000_000_000 < block.expires_at->0 {
                &&& r == Err::<AckView, ErrorView>(ErrorView::GrantBlocked(block.reason))
                &&& asked == Err::<Seq<char>, ErrorView>(ErrorView::GrantBlocked(block.reason))
                &&& m.presence_for(token, to, now) == Ok::<bool, ErrorView>(false)
                &&& m.persistent ==> m.may_attach(token, to, now) == Err::<Seq<char>, ErrorView>(
                    ErrorView::GrantBlocked(block.reason),
                )
            } else {
                &&& !(r matches Err(ErrorView::GrantBlocked(_)))
                &&& !(asked matches Err(ErrorView::GrantBlocked(_)))
                &&& !m.send(token, to, payload, thread, now).0.blocks.contains_key((token, to))
            }
        }),
{
}

/// What a governor blocks is written down as it stands, what is unblocked leaves the store, and a
/// denied request is written down like a block of its pair.
pub proof fn law_denials_written_down(
    m: HubModel,
    governor: Seq<char>,
    from: Seq<char>,
    to: Seq<char>,
    reason: Seq<char>,
    expires_at: Option<u64>,
    id: Seq<char>,
    now: Moment,
)
    requires
        m.persistent,
    ensures
        m.block(governor, from, to, reason, expires_at, now).1 is Ok ==> {
            let after = m.block(governor, from, to, reason, expires_at, now).0;
            &&& after.blocks == m.blocks.insert((from, to), BlockView { reason, expires_at })
            &&& after.outbox == m.outbox.push(
                EffectView::Store(
                    StoreWriteView::UpsertDenialBlock {
                        from_identity: from,
                        to_name: to,
                        reason,
                        expires_at,
                    },
                ),
            )
        },
        m.unblock(governor, from, to, now).1 is Ok ==> {
            let after = m.unblock(governor, from, to, now).0;
            &&& after.blocks == m.blocks.remove((from, to))
            &&& after.outbox == m.outbox.push(
                EffectView::Store(
                    StoreWriteView::DeleteDenialBlock { from_identity: from, to_name: to },
                ),
            )
        },
        m.deny_request(governor, id, reason, expires_at, now).1 is Ok ==> {
            let after = m.deny_request(governor, id, reason, expires_at, now).0;
            let req = m.requests[id];
            &&& after.blocks == m.blocks.insert(
                (req.from_identity, req.to_name),
                BlockView { reason, expires_at },
            )
            &&& after.outbox.last() == EffectView::Store(
                StoreWriteView::UpsertDenialBlock {
                    from_identity: req.from_identity,
                    to_name: req.to_name,
                    reason,
                    expires_at,
                },
            )
        },
{
}

/// Only a governor in office blocks and unblocks.
pub proof fn law_governors_block(
    m: HubModel,
    governor: Seq<char>,
    from: Seq<char>,
    to: Seq<char>,
    reason: Seq<char>,
    expires_at: Option<u64>,
    now: Moment,
)
    ensures
        m.block(governor, from, to, reason, expires_at, now).1 is Ok <==> in_office(
            m.trust,
            governor,
            now.instant,
        ),
        m.unblock(governor, from, to, now).1 is Ok <==> in_office(m.trust, governor, now.instant),
        !in_office(m.trust, governor, now.instant) ==> m.block(
            governor,
            from,
            to,
            reason,
            expires_at,
            now,
        ).0 == m && m.unblock(governor, from, to, now).0 == m,
{
}

// ── Participants ─────────────────────────────────────────────────────────────

/// The row at `i` is the last that speaks of its token or of its identity.
pub open spec fn last_participant(rows: Seq<TokenRow>, i: int) -> bool {
    &&& 0 <= i < rows.len()
    &&& forall|j: int|
        i < j < rows.len() ==> (#[trigger] rows[j]).token != rows[i].token && rows[j].identity
            != rows[i].identity
}

proof fn lemma_participant_loaded(m: HubModel, rows: Seq<TokenRow>, now: Instant, i: int)
    requires
        last_participant(rows, i),
    ensures
        ({
            let after = m.load_participants(rows, now);
            let row = rows[i];
            &&& after.tokens.contains_key(row.token)
            &&& !after.tokens[row.token].revoked
            &&& row.identity.len() > 0 && row.identity != row.token ==> {
                &&& after.tokens[row.token].name == Some(row.identity)
                &&& after.token_to_name.contains_key(row.token)
                &&& after.token_to_name[row.token] == row.identity
                &&& after.name_to_token.contains_key(row.identity)
                &&& after.name_to_token[row.identity] == row.token
                &&& after.agents.contains_key(row.identity)
                &&& after.agents[row.identity] == row.token
                &&& after.identities.contains(row.identity)
            }
            &&& row.identity.len() == 0 || row.identity == row.token
                ==> after.tokens[row.token].name is None
        }),
    decreases rows.len(),
{
    let fewer = rows.drop_last();
    if i < fewer.len() {
        assert forall|j: int| i < j < fewer.len() implies (#[trigger] fewer[j]).token != fewer[i].token
            && fewer[j].identity != fewer[i].identity by {
            assert(rows[j] == fewer[j]);
        }
        assert(fewer[i] == rows[i]);
        lemma_participant_loaded(m, fewer, now, i);
        assert(rows[rows.len() - 1] == rows.last());
    }
}

proof fn lemma_no_other_tokens(m: HubModel, rows: Seq<TokenRow>, now: Instant, token: Seq<char>)
    requires
        !m.tokens.contains_key(token),
        forall|i: int| 0 <= i < rows.len() ==> (#[trigger] rows[i]).token != token,
    ensures
        !m.load_participants(rows, now).tokens.contains_key(token),
    decreases rows.len(),
{
    if rows.len() > 0 {
        let fewer = rows.drop_last();
        assert forall|i: int| 0 <= i < fewer.len() implies (#[trigger] fewer[i]).token != token by {
            assert(rows[i] == fewer[i]);
        }
        lemma_no_other_tokens(m, fewer, now, token);
        assert(rows[rows.len() - 1] == rows.last());
    }
}

proof fn lemma_identities_kept(m: HubModel, rows: Seq<TokenRow>, now: Instant, name: Seq<char>)
    requires
        m.identities.contains(name),
    ensures
        m.load_participants(rows, now).identities.contains(name),
    decreases rows.len(),
{
    if rows.len() > 0 {
        lemma_identities_kept(m, rows.drop_last(), now, name);
    }
}

/// The rows that are participants'.
pub open spec fn participants_of(tokens: Seq<TokenRow>) -> Seq<TokenRow> {
    tokens.filter(|t: TokenRow| t.token_type == "participant"@ || t.token_type == "listen"@)
}

/// Participants survive a restart: a stored token is in order again, and where it was stored under
/// a name it bears the name, which can be written to and is an identity; every stored identity is
/// one again; a token without a row is not known.
pub proof fn law_participants_survive(
    lapse_after: Duration,
    settings: Settings,
    tokens: Seq<TokenRow>,
    grants: Seq<GrantRow>,
    blocks: Seq<DenialRow>,
    names: Seq<Seq<char>>,
    now: Moment,
    i: int,
    token: Seq<char>,
    name: Seq<char>,
)
    ensures
        ({
            let hub = HubModel::taken_up(lapse_after, settings, tokens, grants, blocks, names, now);
            let rows = participants_of(tokens);
            let row = rows[i];
            &&& last_participant(rows, i) ==> {
                &&& hub.tokens.contains_key(row.token)
                &&& !hub.tokens[row.token].revoked
                &&& row.identity.len() > 0 && row.identity != row.token ==> {
                    &&& hub.tokens[row.token].name == Some(row.identity)
                    &&& hub.token_to_name.contains_key(row.token)
                    &&& hub.token_to_name[row.token] == row.identity
                    &&& hub.name_to_token.contains_key(row.identity)
                    &&& hub.name_to_token[row.identity] == row.token
                    &&& hub.agents.contains_key(row.identity)
                    &&& hub.agents[row.identity] == row.token
                    &&& hub.identities.contains(row.identity)
                }
            }
            &&& (forall|j: int| 0 <= j < rows.len() ==> (#[trigger] rows[j]).token != token)
                ==> !hub.tokens.contains_key(token)
            &&& names.contains(name) ==> hub.identities.contains(name)
        }),
{
    let empty = HubModel::empty(lapse_after, settings);
    let p = |t: TokenRow| start::is_participant(t);
    let q = |t: TokenRow| t.token_type == "participant"@ || t.token_type == "listen"@;
    assert(p =~= q);
    let rows = participants_of(tokens);
    let trusted = HubModel {
        trust: empty.trust.load_tokens(
            tokens.filter(|t: TokenRow| !start::is_participant(t)),
            now.instant,
            now.unix() as u64,
        ).load_grants(grants, now.instant, now.unix() as u64),
        persistent: true,
        ..empty
    };
    let known = trusted.load_identities(names);
    let loaded = known.load_participants(rows, now.instant);
    lemma_blocks_only(loaded, blocks);
    if last_participant(rows, i) {
        lemma_participant_loaded(known, rows, now.instant, i);
    }
    if forall|j: int| 0 <= j < rows.len() ==> (#[trigger] rows[j]).token != token {
        lemma_no_other_tokens(known, rows, now.instant, token);
    }
    if names.contains(name) {
        assert(names.to_set().contains(name));
        lemma_identities_kept(known, rows, now.instant, name);
    }
}

// ── Governors and grants ─────────────────────────────────────────────────────

/// The end of what was stored to end `at` seconds after the Unix epoch, on the hub's own clock.
pub open spec fn end_of(at: Option<u64>, now: Moment) -> Option<int> {
    match at {
        Some(at) => {
            let left = (at - now.system / 1_000_000_000) * 1_000_000_000;
            Some(
                now.instant + if left <= MAX_EXPIRY {
                    left
                } else {
                    MAX_EXPIRY as int
                },
            )
        },
        None => None,
    }
}

/// The grant that a stored row stands for.
pub open spec fn stands_for(g: GrantView, row: GrantRow, now: Moment) -> bool {
    &&& g.id == row.id
    &&& g.identity_a == row.identity_a
    &&& g.identity_b == row.identity_b
    &&& g.name_a == row.name_a
    &&& g.name_b == row.name_b
    &&& g.governor_id == row.governor_id
    &&& g.conditions == row.conditions
    &&& g.opens_reply_window == row.opens_reply_window
    &&& row.direction == "a_to_b"@ ==> g.direction is AToB
    &&& row.direction == "b_to_a"@ ==> g.direction is BToA
    &&& row.direction == "symmetric"@ ==> g.direction is Symmetric
    &&& row.mediation == "inspect"@ ==> g.mediation is Inspect
    &&& row.mediation == "notify"@ ==> g.mediation is Notify
    &&& row.mediation == "bypass"@ ==> g.mediation is Bypass
    &&& (row.max_messages matches Some(n) ==> 0 <= n ==> g.max_messages == Some(n as u64))
    &&& (row.max_messages is None ==> g.max_messages is None)
    &&& 0 <= row.messages_used ==> g.messages_used == row.messages_used as u64
    &&& (match g.expires {
        Some(end) => Some(end as int),
        None => None,
    }) == end_of(row.expires_at_secs, now)
}

/// The rows of grants whose time is not up.
pub open spec fn lasting(rows: Seq<GrantRow>, now: Moment) -> Seq<GrantRow> {
    rows.filter(
        |g: GrantRow| g.expires_at_secs is None || now.system / 1_000_000_000 < g.expires_at_secs->0,
    )
}

proof fn lemma_grant_strings()
    ensures
        "a_to_b"@ != "b_to_a"@,
        "a_to_b"@ != "symmetric"@,
        "b_to_a"@ != "symmetric"@,
        "inspect"@ != "notify"@,
        "inspect"@ != "bypass"@,
        "notify"@ != "bypass"@,
{
    reveal_strlit("symmetric");
    reveal_strlit("a_to_b");
    reveal_strlit("b_to_a");
    reveal_strlit("bypass");
    reveal_strlit("inspect");
    reveal_strlit("notify");
    assert("symmetric"@.len() == 9 && "a_to_b"@.len() == 6 && "b_to_a"@.len() == 6);
    assert("a_to_b"@[0] == 'a' && "b_to_a"@[0] == 'b');
    assert("bypass"@.len() == 6 && "inspect"@.len() == 7 && "notify"@.len() == 6);
    assert("bypass"@[0] == 'b' && "notify"@[0] == 'n');
}

proof fn lemma_end_of(at: u64, now: Moment)
    requires
        now.in_range(),
        now.system >= 0,
        now.system / 1_000_000_000 < at,
    ensures
        TrustModel::stored_end(Some(at), now.instant, now.unix() as u64) matches Some(end) && end_of(
            Some(at),
            now,
        ) == Some(end as int),
{
    assert(now.unix() == now.system / 1_000_000_000);
}

proof fn lemma_grants_loaded(m: TrustModel, rows: Seq<GrantRow>, now: Moment)
    requires
        now.in_range(),
        now.system >= 0,
    ensures
        ({
            let after = m.load_grants(rows, now.instant, now.unix() as u64);
            &&& after.governors == m.governors
            &&& after.grants.len() == m.grants.len() + lasting(rows, now).len()
            &&& forall|i: int|
                0 <= i < m.grants.len() ==> #[trigger] after.grants[i] == m.grants[i]
            &&& forall|i: int|
                0 <= i < lasting(rows, now).len() ==> stands_for(
                    #[trigger] after.grants[m.grants.len() + i],
                    lasting(rows, now)[i],
                    now,
                )
        }),
    decreases rows.len(),
{
    reveal(Seq::filter);
    if rows.len() > 0 {
        let fewer = rows.drop_last();
        lemma_grants_loaded(m, fewer, now);
        let before = m.load_grants(fewer, now.instant, now.unix() as u64);
        let after = m.load_grants(rows, now.instant, now.unix() as u64);
        let row = rows.last();
        assert(now.unix() == now.system / 1_000_000_000);
        lemma_grant_strings();
        let some = lasting(fewer, now);
        let all = lasting(rows, now);
        if row.expires_at_secs is None || now.system / 1_000_000_000 < row.expires_at_secs->0 {
            if row.expires_at_secs is Some {
                lemma_end_of(row.expires_at_secs->0, now);
            }
            assert(stands_for(after.grants.last(), row, now));
            assert(all =~= some.push(row));
            assert forall|i: int| 0 <= i < all.len() implies stands_for(
                #[trigger] after.grants[m.grants.len() + i],
                all[i],
                now,
            ) by {
                if i < some.len() {
                    assert(after.grants[m.grants.len() + i] == before.grants[m.grants.len() + i]);
                }
            }
            assert forall|i: int| 0 <= i < m.grants.len() implies #[trigger] after.grants[i]
                == m.grants[i] by {
                assert(before.grants[i] == m.grants[i]);
            }
        } else {
            assert(all =~= some);
            assert(after.grants == before.grants);
        }
    }
}

proof fn lemma_tokens_keep_grants(m: TrustModel, rows: Seq<TokenRow>, now: Instant, unix: u64)
    ensures
        m.load_tokens(rows, now, unix).grants == m.grants,
    decreases rows.len(),
{
    if rows.len() > 0 {
        lemma_tokens_keep_grants(m, rows.drop_last(), now, unix);
    }
}

/// Grants survive a restart: exactly those whose time is not up are back, in their order, each with
/// its parties, its direction, its mediation, its budget and what is used of it, and its end.
pub proof fn law_grants_survive(
    lapse_after: Duration,
    settings: Settings,
    tokens: Seq<TokenRow>,
    rows: Seq<GrantRow>,
    blocks: Seq<DenialRow>,
    names: Seq<Seq<char>>,
    now: Moment,
    i: int,
)
    requires
        now.in_range(),
        now.system >= 0,
    ensures
        ({
            let hub = HubModel::taken_up(lapse_after, settings, tokens, rows, blocks, names, now);
            &&& hub.trust.grants.len() == lasting(rows, now).len()
            &&& 0 <= i < lasting(rows, now).len() ==> stands_for(
                hub.trust.grants[i],
                lasting(rows, now)[i],
                now,
            )
        }),
{
    let empty = HubModel::empty(lapse_after, settings);
    let p = |t: TokenRow| start::is_participant(t);
    let governors = empty.trust.load_tokens(
        tokens.filter(|t: TokenRow| !start::is_participant(t)),
        now.instant,
        now.unix() as u64,
    );
    lemma_tokens_keep_grants(
        empty.trust,
        tokens.filter(|t: TokenRow| !start::is_participant(t)),
        now.instant,
        now.unix() as u64,
    );
    lemma_grants_loaded(governors, rows, now);
    let trusted = HubModel {
        trust: governors.load_grants(rows, now.instant, now.unix() as u64),
        persistent: true,
        ..empty
    };
    let known = trusted.load_identities(names);
    lemma_participants_leave(known, tokens.filter(p), now.instant);
    lemma_blocks_only(known.load_participants(tokens.filter(p), now.instant), blocks);
    if 0 <= i < lasting(rows, now).len() {
        assert(stands_for(
            hub_grants(lapse_after, settings, tokens, rows, blocks, names, now)[0 + i],
            lasting(rows, now)[i],
            now,
        ));
    }
}

spec fn hub_grants(
    lapse_after: Duration,
    settings: Settings,
    tokens: Seq<TokenRow>,
    rows: Seq<GrantRow>,
    blocks: Seq<DenialRow>,
    names: Seq<Seq<char>>,
    now: Moment,
) -> Seq<GrantView> {
    HubModel::taken_up(lapse_after, settings, tokens, rows, blocks, names, now).trust.grants
}

/// The row at `i` is the last that speaks of its token.
pub open spec fn last_token(rows: Seq<TokenRow>, i: int) -> bool {
    &&& 0 <= i < rows.len()
    &&& forall|j: int| i < j < rows.len() ==> (#[trigger] rows[j]).token != rows[i].token
}

proof fn lemma_governor_loaded(m: TrustModel, rows: Seq<TokenRow>, now: Moment, i: int, later: Instant)
    requires
        now.in_range(),
        now.system >= 0,
        last_token(rows, i),
        rows[i].token_type == "governor"@,
        rows[i].expires_at_secs is None || now.system / 1_000_000_000 < rows[i].expires_at_secs->0,
    ensures
        in_office(m.load_tokens(rows, now.instant, now.unix() as u64), rows[i].token, later) == (
        end_of(rows[i].expires_at_secs, now) matches Some(end) ==> later < end),
    decreases rows.len(),
{
    let fewer = rows.drop_last();
    assert(now.unix() == now.system / 1_000_000_000);
    if i < fewer.len() {
        assert forall|j: int| i < j < fewer.len() implies (#[trigger] fewer[j]).token != fewer[i].token by {
            assert(rows[j] == fewer[j]);
        }
        assert(fewer[i] == rows[i]);
        lemma_governor_loaded(m, fewer, now, i, later);
        assert(rows[rows.len() - 1] == rows.last());
    } else if rows[i].expires_at_secs is Some {
        lemma_end_of(rows[i].expires_at_secs->0, now);
    }
}

proof fn lemma_no_other_governors(m: TrustModel, rows: Seq<TokenRow>, now: Instant, unix: u64, token: Seq<char>)
    requires
        !m.governors.contains_key(token),
        forall|i: int|
            0 <= i < rows.len() ==> (#[trigger] rows[i]).token != token || rows[i].token_type
                != "governor"@ || (rows[i].expires_at_secs matches Some(at) && at <= unix),
    ensures
        !m.load_tokens(rows, now, unix).governors.contains_key(token),
    decreases rows.len(),
{
    if rows.len() > 0 {
        let fewer = rows.drop_last();
        assert forall|i: int| 0 <= i < fewer.len() implies (#[trigger] fewer[i]).token != token
            || fewer[i].token_type != "governor"@ || (fewer[i].expires_at_secs matches Some(at) && at
            <= unix) by {
            assert(rows[i] == fewer[i]);
        }
        lemma_no_other_governors(m, fewer, now, unix, token);
        assert(rows[rows.len() - 1] == rows.last());
    }
}

/// Governors survive a restart: whoever was stored as a governor and whose time is not up is in
/// office again, until the stored end and no longer; nobody else governs.
pub proof fn law_governors_survive(
    lapse_after: Duration,
    settings: Settings,
    tokens: Seq<TokenRow>,
    grants: Seq<GrantRow>,
    blocks: Seq<DenialRow>,
    names: Seq<Seq<char>>,
    now: Moment,
    i: int,
    token: Seq<char>,
    later: Instant,
)
    requires
        now.in_range(),
        now.system >= 0,
    ensures
        ({
            let hub = HubModel::taken_up(lapse_after, settings, tokens, grants, blocks, names, now);
            let rows = tokens.filter(
                |t: TokenRow| t.token_type != "participant"@ && t.token_type != "listen"@,
            );
            &&& last_token(rows, i) && rows[i].token_type == "governor"@ && (
            rows[i].expires_at_secs is None || now.system / 1_000_000_000
                < rows[i].expires_at_secs->0) ==> in_office(hub.trust, rows[i].token, later) == (
            end_of(rows[i].expires_at_secs, now) matches Some(end) ==> later < end)
            &&& (forall|j: int|
                0 <= j < rows.len() ==> (#[trigger] rows[j]).token != token || rows[j].token_type
                    != "governor"@ || (rows[j].expires_at_secs matches Some(at) && at <= now.system
                    / 1_000_000_000)) ==> !in_office(hub.trust, token, later)
        }),
{
    let empty = HubModel::empty(lapse_after, settings);
    let p = |t: TokenRow| start::is_participant(t);
    let np = |t: TokenRow| !start::is_participant(t);
    let nq = |t: TokenRow| t.token_type != "participant"@ && t.token_type != "listen"@;
    assert(np =~= nq);
    assert(now.unix() == now.system / 1_000_000_000);
    let rows = tokens.filter(nq);
    let governors = empty.trust.load_tokens(rows, now.instant, now.unix() as u64);
    lemma_grants_loaded(governors, grants, now);
    let trusted = HubModel {
        trust: governors.load_grants(grants, now.instant, now.unix() as u64),
        persistent: true,
        ..empty
    };
    let known = trusted.load_identities(names);
    lemma_participants_leave(known, tokens.filter(p), now.instant);
    lemma_blocks_only(known.load_participants(tokens.filter(p), now.instant), blocks);
    if last_token(rows, i) && rows[i].token_type == "governor"@ && (rows[i].expires_at_secs is None
        || now.system / 1_000_000_000 < rows[i].expires_at_secs->0) {
        lemma_governor_loaded(empty.trust, rows, now, i, later);
    }
    if forall|j: int|
        0 <= j < rows.len() ==> (#[trigger] rows[j]).token != token || rows[j].token_type
            != "governor"@ || (rows[j].expires_at_secs matches Some(at) && at <= now.system
            / 1_000_000_000) {
        lemma_no_other_governors(empty.trust, rows, now.instant, now.unix() as u64, token);
    }
}

} // verus!
