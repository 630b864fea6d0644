//! Laws of governors and grants.

use crate::clock::{Duration, Instant};
use crate::delivery::grants;
use crate::error::ErrorView;
use crate::persistence::{GrantRow, TokenRow};
use crate::text;
use crate::trust;
use crate::trust::{Ask, GrantRefView, GrantView, Terms, TrustModel};
use vstd::prelude::*;

verus! {

// ── Which grant lets a message pass ──────────────────────────────────────────

/// The question whether the answer may pass: the same pair, the other way.
pub open spec fn reversed(ask: Ask) -> Ask {
    Ask { from: ask.to, to: ask.from, from_name: ask.to_name, to_name: ask.from_name }
}

/// A symmetric grant covers a pair both ways.
pub proof fn law_symmetric_both_ways(g: GrantView, ask: Ask)
    requires
        g.direction is Symmetric,
    ensures
        g.covers(ask) == g.covers(reversed(ask)),
{
}

/// A directed grant that covers a pair one way does not cover it the other way, unless somebody
/// writes to itself.
pub proof fn law_directed_one_way(g: GrantView, ask: Ask)
    requires
        g.directed(),
        g.covers(ask),
        g.covers(reversed(ask)),
    ensures
        ask.from == ask.to || (ask.from_name == ask.to_name && ask.from_name is Some),
{
}

/// A grant that holds both names goes by the names alone: it survives a change of identity on
/// either side.
pub proof fn law_grant_survives_new_identity(g: GrantView, ask: Ask, from: Seq<char>, to: Seq<char>)
    requires
        g.name_a is Some,
        g.name_b is Some,
        ask.from_name is Some,
        ask.to_name is Some,
    ensures
        g.covers(ask) == g.covers(Ask { from, to, ..ask }),
{
}

/// The grant at `i` is the best usable one among the first `n`.
spec fn best_upto(m: TrustModel, ask: Ask, now: Instant, i: int, n: int) -> bool {
    &&& 0 <= i < n
    &&& m.grants[i].usable(ask, now)
    &&& forall|j: int|
        0 <= j < n && #[trigger] m.grants[j].usable(ask, now) ==> !m.grants[j].better(m.grants[i])
            && (m.grants[i].better(m.grants[j]) || i <= j)
}

proof fn lemma_some_best(m: TrustModel, ask: Ask, now: Instant, k: int, n: int)
    requires
        0 <= k < n <= m.grants.len(),
        m.grants[k].usable(ask, now),
    ensures
        exists|i: int| best_upto(m, ask, now, i, n),
    decreases n,
{
    let last = n - 1;
    if exists|j: int| 0 <= j < last && #[trigger] m.grants[j].usable(ask, now) {
        let j = choose|j: int| 0 <= j < last && #[trigger] m.grants[j].usable(ask, now);
        lemma_some_best(m, ask, now, j, last);
        let i = choose|i: int| best_upto(m, ask, now, i, last);
        if m.grants[last].usable(ask, now) && m.grants[last].better(m.grants[i]) {
            assert(best_upto(m, ask, now, last, n));
        } else {
            assert(best_upto(m, ask, now, i, n));
        }
    } else {
        assert(k == last);
        assert(best_upto(m, ask, now, last, n));
    }
}

/// A message may pass if and only if some grant covers the pair, has not expired and is not
/// spent; it then passes under such a grant. Otherwise the refusal says why: every grant that
/// covers the pair and has not expired is spent, or every one has expired, or there is none.
pub proof fn law_check_decides(m: TrustModel, ask: Ask, now: Instant)
    ensures
        m.check(ask, now) is Ok <==> exists|i: int|
            0 <= i < m.grants.len() && (#[trigger] m.grants[i]).usable(ask, now),
        m.check(ask, now) matches Ok(r) ==> exists|i: int|
            0 <= i < m.grants.len() && (#[trigger] m.grants[i]).usable(ask, now)
                && m.grants[i].reference() == r,
        m.check(ask, now) == Err::<GrantRefView, ErrorView>(ErrorView::NoGrant) <==> forall|i: int|
            0 <= i < m.grants.len() ==> !(#[trigger] m.grants[i]).covers(ask),
        m.check(ask, now) == Err::<GrantRefView, ErrorView>(ErrorView::GrantExpired) ==> forall|
            i: int,
        |
            0 <= i < m.grants.len() && (#[trigger] m.grants[i]).covers(ask) ==> m.grants[i].expired(
                now,
            ),
        m.check(ask, now) == Err::<GrantRefView, ErrorView>(ErrorView::GrantExhausted) ==> forall|
            i: int,
        |
            0 <= i < m.grants.len() && (#[trigger] m.grants[i]).covers(ask) && !m.grants[i].expired(
                now,
            ) ==> m.grants[i].exhausted(),
{
    if exists|i: int| 0 <= i < m.grants.len() && (#[trigger] m.grants[i]).usable(ask, now) {
        let k = choose|i: int| 0 <= i < m.grants.len() && (#[trigger] m.grants[i]).usable(ask, now);
        lemma_some_best(m, ask, now, k, m.grants.len() as int);
        let i = choose|i: int| best_upto(m, ask, now, i, m.grants.len() as int);
        assert(m.best_at(ask, now, i));
    }
}

/// A directed grant stands before a symmetric one: where a usable directed grant covers the pair,
/// the message passes under a directed one.
pub proof fn law_directed_first(m: TrustModel, ask: Ask, now: Instant, k: int)
    requires
        0 <= k < m.grants.len(),
        m.grants[k].usable(ask, now),
        m.grants[k].directed(),
    ensures
        exists|i: int|
            0 <= i < m.grants.len() && (#[trigger] m.grants[i]).usable(ask, now)
                && m.grants[i].directed() && m.check(ask, now) == Ok::<GrantRefView, ErrorView>(
                m.grants[i].reference(),
            ),
{
    law_check_decides(m, ask, now);
    lemma_some_best(m, ask, now, k, m.grants.len() as int);
    let b = choose|i: int| best_upto(m, ask, now, i, m.grants.len() as int);
    assert(m.best_at(ask, now, b));
    let i = choose|i: int| m.best_at(ask, now, i);
    assert(m.best_at(ask, now, i));
    assert(!m.grants[k].better(m.grants[i]));
}

/// A grant that a governor made lets messages pass at once, on the terms it was made on.
pub proof fn law_granted_passes(
    m: TrustModel,
    governor: Seq<char>,
    a: Seq<char>,
    b: Seq<char>,
    expiry: Option<Duration>,
    terms: Terms,
    now: Instant,
    ask: Ask,
    later: Instant,
)
    requires
        m.verify(governor, now) is Ok,
        terms.max_messages != Some(0u64),
        trust::ends(now, expiry) matches Some(end) ==> later < end,
        match (terms.name_a, terms.name_b, ask.from_name, ask.to_name) {
            (Some(na), Some(nb), Some(from), Some(to)) => trust::passes(
                terms.chosen_direction(),
                na,
                nb,
                from,
                to,
            ),
            _ => trust::passes(terms.chosen_direction(), a, b, ask.from, ask.to),
        },
    ensures
        m.approve(governor, a, b, expiry, terms, now).1 is Ok,
        m.approve(governor, a, b, expiry, terms, now).0.check(ask, later) is Ok,
{
    let after = m.approve(governor, a, b, expiry, terms, now).0;
    let k = after.grants.len() - 1;
    assert(after.grants[k].usable(ask, later));
    law_check_decides(after, ask, later);
}

// ── Governors ────────────────────────────────────────────────────────────────

/// A governor who is revoked, offline, or past its time makes no grants and changes nothing.
pub proof fn law_idle_governor_refused(
    m: TrustModel,
    governor: Seq<char>,
    a: Seq<char>,
    b: Seq<char>,
    expiry: Option<Duration>,
    terms: Terms,
    now: Instant,
)
    requires
        !m.governors.contains_key(governor) || !m.governors[governor].acting(now),
    ensures
        m.approve(governor, a, b, expiry, terms, now).1 is Err,
        m.approve(governor, a, b, expiry, terms, now).0 == m,
        m.rotate(governor, now).1 is Err,
        m.rotate(governor, now).0 == m,
{
}

/// Revoking every governor leaves none in office and every grant standing.
pub proof fn law_revoking_governors_keeps_grants(m: TrustModel, ask: Ask, now: Instant, token: Seq<char>)
    ensures
        !m.revoke_all().governed(),
        m.revoke_all().verify(token, now) is Err,
        m.revoke_all().grants == m.grants,
        m.revoke_all().check(ask, now) == m.check(ask, now),
{
    let after = m.revoke_all();
    assert forall|i: int| after.best_at(ask, now, i) == m.best_at(ask, now, i) by {}
    if exists|i: int| m.best_at(ask, now, i) {
        let i = choose|i: int| m.best_at(ask, now, i);
        assert(after.best_at(ask, now, i));
    }
    lemma_check_by_grants(after, m, ask, now);
}

proof fn lemma_check_by_grants(m: TrustModel, n: TrustModel, ask: Ask, now: Instant)
    requires
        m.grants == n.grants,
    ensures
        m.check(ask, now) == n.check(ask, now),
{
    assert forall|i: int| m.best_at(ask, now, i) == n.best_at(ask, now, i) by {}
    if exists|i: int| m.best_at(ask, now, i) {
        let i = choose|i: int| m.best_at(ask, now, i);
        let j = choose|i: int| n.best_at(ask, now, i);
        assert(n.best_at(ask, now, i));
        assert(m.best_at(ask, now, j));
    }
}

/// Whoever is installed as governor may act at once and until its time is up.
pub proof fn law_installed_may_act(m: TrustModel, expiry: Option<Duration>, now: Instant, later: Instant)
    requires
        trust::ends(now, expiry) matches Some(end) ==> later < end,
    ensures
        m.install(expiry, now).verify(m.next("gov"@), later) is Ok,
        m.install(expiry, now).governed(),
{
    assert(m.install(expiry, now).governors.contains_key(m.next("gov"@)));
}

/// A governor that may act replaces its token by one that nothing had: its record moves to the new
/// token, the old token is void, and the other governors and the grants are as before. Anyone else
/// is refused, and nothing changes.
pub proof fn law_rotation_moves_record(m: TrustModel, token: Seq<char>, other: Seq<char>, now: Instant, later: Instant)
    requires
        m.coherent(),
        m.can_number(),
    ensures
        m.verify(token, now) matches Err(e) ==> m.rotate(token, now) == (
            m,
            Err::<Seq<char>, ErrorView>(e),
        ),
        m.verify(token, now) is Ok ==> {
            let (after, r) = m.rotate(token, now);
            let new = m.next("gov"@);
            &&& r == Ok::<Seq<char>, ErrorView>(new)
            &&& m.unused(new)
            &&& after.governors[new] == m.governors[token]
            &&& after.governor_expiry(new) == m.governor_expiry(token)
            &&& after.verify(new, later) == m.verify(token, later)
            &&& after.verify(token, later) == Err::<(), ErrorView>(ErrorView::AuthFailed)
            &&& other != token && other != new ==> after.governors.contains_key(other)
                == m.governors.contains_key(other) && after.governors[other] == m.governors[other]
            &&& after.grants == m.grants
        },
{
    law_new_identifier_unused(m, "gov"@);
}

/// A transfer is taken up once: the new governor may act, the one who offered it is revoked, and
/// the offer is gone.
pub proof fn law_transfer_once(
    m: TrustModel,
    offer: Seq<char>,
    identity: Seq<char>,
    other: Seq<char>,
    now: Instant,
)
    requires
        m.coherent(),
        m.can_number(),
        m.accept(offer, identity).1 is Ok,
    ensures
        m.accept(offer, identity).1 == Ok::<Seq<char>, ErrorView>(m.next("gov"@)),
        m.unused(m.next("gov"@)),
        m.accept(offer, identity).0.verify(m.next("gov"@), now) is Ok,
        m.accept(offer, identity).0.governors[m.transfers[offer].from_gov_token].revoked,
        m.accept(offer, identity).0.verify(m.transfers[offer].from_gov_token, now) == Err::<
            (),
            ErrorView,
        >(ErrorView::AuthFailed),
        m.accept(offer, identity).0.accept(offer, other).1 == Err::<Seq<char>, ErrorView>(
            ErrorView::AuthFailed,
        ),
{
    law_new_identifier_unused(m, "gov"@);
}

/// A governor who put the governorship on offer is revoked when the offer is taken up, also where
/// it has replaced its token in between.
pub proof fn law_transfer_follows_rotation(
    m: TrustModel,
    governor: Seq<char>,
    offer: Seq<char>,
    identity: Seq<char>,
    now: Instant,
    later: Instant,
)
    requires
        m.coherent(),
        m.counter < u64::MAX - 1,
        m.verify(governor, now) is Ok,
        m.transfers.contains_key(offer),
        m.transfers[offer].from_gov_token == governor,
        m.accept(offer, identity).1 is Ok,
    ensures
        ({
            let moved = m.rotate(governor, now).0;
            let (after, r) = moved.accept(offer, identity);
            &&& r is Ok
            &&& after.verify(r->Ok_0, later) is Ok
            &&& after.verify(m.rotate(governor, now).1->Ok_0, later) == Err::<(), ErrorView>(
                ErrorView::AuthFailed,
            )
            &&& after.verify(governor, later) == Err::<(), ErrorView>(ErrorView::AuthFailed)
        }),
{
    let moved = m.rotate(governor, now).0;
    law_rotation_moves_record(m, governor, governor, now, later);
    law_stays_coherent(
        m,
        governor,
        governor,
        governor,
        None,
        Terms::open_terms(),
        governor,
        true,
        now,
    );
    law_transfer_once(moved, offer, identity, identity, later);
    law_new_identifier_unused(moved, "gov"@);
    law_number_reads_back("gov"@, (moved.counter + 1) as u64);
    assert(trust::counter_of(governor) <= m.counter);
}

/// A transfer that is meant for one identity is not taken up by another, and stays on offer.
pub proof fn law_transfer_bound(m: TrustModel, from: Seq<char>, to: Seq<char>, offer: Seq<char>, other: Seq<char>)
    requires
        other != to,
    ensures
        m.offer(from, Some(to), offer).accept(offer, other) == (
            m.offer(from, Some(to), offer),
            Err::<Seq<char>, ErrorView>(ErrorView::Forbidden),
        ),
        m.offer(from, Some(to), offer).accept(offer, to).1 is Ok,
        m.offer(from, None, offer).accept(offer, other).1 is Ok,
{
}

// ── Budgets ──────────────────────────────────────────────────────────────────

/// Every message spends one of a grant's budget, and nothing but the budget changes.
pub proof fn law_message_spends_budget(m: TrustModel, id: Seq<char>, i: int)
    requires
        m.first_at(id, i),
        m.grants[i].max_messages is Some,
        m.grants[i].messages_used < u64::MAX,
    ensures
        m.consume(id).grants.len() == m.grants.len(),
        m.consume(id).grants[i] == (GrantView {
            messages_used: (m.grants[i].messages_used + 1) as u64,
            ..m.grants[i]
        }),
        forall|j: int|
            0 <= j < m.grants.len() && j != i ==> m.consume(id).grants[j] == #[trigger] m.grants[j],
{
    assert forall|j: int| 0 <= j < m.grants.len() && j != i implies m.consume(id).grants[j]
        == #[trigger] m.grants[j] by {
        if m.first_at(id, j) {
            if j < i {
                assert(m.grants[j].id != id);
            } else {
                assert(m.grants[i].id != id);
            }
        }
    }
}

/// A grant under which `n` messages were sent.
pub open spec fn consumed(m: TrustModel, id: Seq<char>, n: nat) -> TrustModel
    decreases n,
{
    if n == 0 {
        m
    } else {
        consumed(m, id, (n - 1) as nat).consume(id)
    }
}

/// A grant of `max` messages lets `max` messages pass and no more: after `n` of them it is spent
/// if and only if `n` is `max` or beyond.
pub proof fn law_budget_exact(m: TrustModel, id: Seq<char>, i: int, max: u64, n: nat)
    requires
        m.first_at(id, i),
        m.grants[i].max_messages == Some(max),
        m.grants[i].messages_used == 0,
        n < u64::MAX,
    ensures
        consumed(m, id, n).first_at(id, i),
        consumed(m, id, n).grants[i] == (GrantView { messages_used: n as u64, ..m.grants[i] }),
        consumed(m, id, n).grants[i].exhausted() <==> n >= max,
    decreases n,
{
    if n > 0 {
        law_budget_exact(m, id, i, max, (n - 1) as nat);
        let before = consumed(m, id, (n - 1) as nat);
        law_message_spends_budget(before, id, i);
        let after = before.consume(id);
        assert forall|j: int| 0 <= j < i implies (#[trigger] after.grants[j]).id != id by {
            assert(before.grants[j].id != id);
        }
    }
}

/// What was spent and given back was never spent.
pub proof fn law_restore_undoes_consume(m: TrustModel, id: Seq<char>)
    requires
        m.grant(id) matches Some(g) ==> g.can_count(),
    ensures
        m.consume(id).restore(id) == m,
{
    let spent = m.consume(id);
    assert forall|i: int| spent.first_at(id, i) == m.first_at(id, i) by {
        if m.first_at(id, i) {
            assert forall|j: int| 0 <= j < i implies (#[trigger] spent.grants[j]).id != id by {
                assert(m.grants[j].id != id);
            }
        }
        if spent.first_at(id, i) {
            assert forall|j: int| 0 <= j < i implies (#[trigger] m.grants[j]).id != id by {
                assert(spent.grants[j].id != id);
            }
        }
    }
    assert forall|i: int| 0 <= i < m.grants.len() implies spent.restore(id).grants[i]
        == #[trigger] m.grants[i] by {
        assert(spent.first_at(id, i) == m.first_at(id, i));
    }
    assert(spent.restore(id).grants =~= m.grants);
}

/// Revoking a grant takes it away for good: no grant with its identifier is left, and the others
/// stand.
pub proof fn law_revoked_grant_gone(m: TrustModel, id: Seq<char>, g: GrantView)
    ensures
        m.remove_grant(id).grant(id) is None,
        m.remove_grant(id).grants.contains(g) <==> m.grants.contains(g) && g.id != id,
{
    let p = |g: GrantView| g.id != id;
    let after = m.remove_grant(id);
    assert forall|i: int| 0 <= i < after.grants.len() implies (#[trigger] after.grants[i]).id != id by {
        m.grants.lemma_filter_pred(p, i);
    }
    if after.grants.contains(g) {
        m.grants.lemma_filter_contains_rev(p, g);
        let i = choose|i: int| 0 <= i < after.grants.len() && after.grants[i] == g;
        assert(after.grants[i].id != id);
    }
    if m.grants.contains(g) && g.id != id {
        let i = choose|i: int| 0 <= i < m.grants.len() && m.grants[i] == g;
        m.grants.lemma_filter_contains(p, i);
    }
}

// ── Identifiers ──────────────────────────────────────────────────────────────

/// The number of an identifier reads back.
pub proof fn law_number_reads_back(word: Seq<char>, n: u64)
    ensures
        trust::counter_of(trust::numbered(word, n as nat)) == n,
{
    text::lemma_after_last_of_numeral(word, n as nat);
    text::lemma_parse_of_decimal(n as nat, u64::MAX as nat);
}

/// A new identifier is one that nothing has: neither a governor nor a grant, whether it was made
/// here or taken up from the store.
pub proof fn law_new_identifier_unused(m: TrustModel, word: Seq<char>)
    requires
        m.numbers_bounded(),
        m.can_number(),
    ensures
        m.unused(m.next(word)),
{
    law_number_reads_back(word, (m.counter + 1) as u64);
}

pub(crate) proof fn lemma_remove_grant_coherent(m: TrustModel, id: Seq<char>)
    requires
        m.coherent(),
    ensures
        m.remove_grant(id).coherent(),
{
    let fewer = m.remove_grant(id);
    assert forall|i: int| 0 <= i < fewer.grants.len() implies trust::counter_of(
        (#[trigger] fewer.grants[i]).id,
    ) <= fewer.counter by {
        let p = |g: GrantView| g.id != id;
        m.grants.lemma_filter_contains_rev(p, fewer.grants[i]);
        let j = choose|j: int| 0 <= j < m.grants.len() && m.grants[j] == fewer.grants[i];
        assert(m.grants[j].id == fewer.grants[i].id);
    }
}

/// Whatever is done, the numbers stay bounded, so that new identifiers stay unused, and every
/// offer of the governorship stays the offer of a governor on record.
pub proof fn law_stays_coherent(
    m: TrustModel,
    governor: Seq<char>,
    a: Seq<char>,
    b: Seq<char>,
    expiry: Option<Duration>,
    terms: Terms,
    id: Seq<char>,
    online: bool,
    now: Instant,
)
    requires
        m.coherent(),
        m.can_number(),
    ensures
        TrustModel::empty().coherent(),
        m.install(expiry, now).coherent(),
        m.revoke_all().coherent(),
        m.set_online(id, online).coherent(),
        m.link(id, a).coherent(),
        m.granted(governor, a, b, expiry, terms, now).coherent(),
        m.approve(governor, a, b, expiry, terms, now).0.coherent(),
        m.consume(id).coherent(),
        m.restore(id).coherent(),
        m.remove_grant(id).coherent(),
        m.rotate(governor, now).0.coherent(),
        m.verify(governor, now) is Ok ==> m.offer(governor, Some(a), id).coherent(),
        m.verify(governor, now) is Ok ==> m.offer(governor, None, id).coherent(),
        m.accept(id, a).0.coherent(),
{
    law_number_reads_back("gov"@, (m.counter + 1) as u64);
    law_number_reads_back("grant"@, (m.counter + 1) as u64);
    let spent = m.consume(id);
    assert forall|i: int| 0 <= i < spent.grants.len() implies trust::counter_of(
        (#[trigger] spent.grants[i]).id,
    ) <= spent.counter by {
        assert(spent.grants[i].id == m.grants[i].id);
    }
    let back = m.restore(id);
    assert forall|i: int| 0 <= i < back.grants.len() implies trust::counter_of(
        (#[trigger] back.grants[i]).id,
    ) <= back.counter by {
        assert(back.grants[i].id == m.grants[i].id);
    }
    lemma_remove_grant_coherent(m, id);
    let more = m.granted(governor, a, b, expiry, terms, now);
    assert forall|i: int| 0 <= i < more.grants.len() implies trust::counter_of(
        (#[trigger] more.grants[i]).id,
    ) <= more.counter by {
        if i < m.grants.len() {
            assert(more.grants[i] == m.grants[i]);
        }
    }
}

// ── What is taken up from the store ──────────────────────────────────────────

proof fn lemma_counter_fits(id: Seq<char>)
    ensures
        trust::counter_of(id) <= u64::MAX,
{
}

/// Taking up stored credentials and grants keeps the numbers bounded, also by the numbers of the
/// rows whose time is up: what is made afterwards collides with nothing that was stored.
pub proof fn law_loaded_numbers_bounded(
    m: TrustModel,
    tokens: Seq<TokenRow>,
    grants: Seq<GrantRow>,
    now: Instant,
    unix: u64,
)
    requires
        m.numbers_bounded(),
    ensures
        m.load_tokens(tokens, now, unix).numbers_bounded(),
        m.load_tokens(tokens, now, unix).load_grants(grants, now, unix).numbers_bounded(),
        m.counter <= m.load_tokens(tokens, now, unix).load_grants(grants, now, unix).counter,
        forall|i: int|
            0 <= i < tokens.len() ==> trust::counter_of((#[trigger] tokens[i]).token) <= m.load_tokens(
                tokens,
                now,
                unix,
            ).load_grants(grants, now, unix).counter,
        forall|i: int|
            0 <= i < grants.len() ==> trust::counter_of((#[trigger] grants[i]).id) <= m.load_tokens(
                tokens,
                now,
                unix,
            ).load_grants(grants, now, unix).counter,
    decreases tokens.len() + grants.len(),
{
    if grants.len() > 0 {
        law_loaded_numbers_bounded(m, tokens, grants.drop_last(), now, unix);
        assert forall|i: int| 0 <= i < grants.len() - 1 implies #[trigger] grants[i]
            == grants.drop_last()[i] by {}
        lemma_counter_fits(grants.last().id);
        let before = m.load_tokens(tokens, now, unix).load_grants(grants.drop_last(), now, unix);
        lemma_load_grant_bounded(before, grants.last(), now, unix);
        if tokens.len() > 0 {
            law_loaded_numbers_bounded(m, tokens, Seq::empty(), now, unix);
        }
    } else if tokens.len() > 0 {
        law_loaded_numbers_bounded(m, tokens.drop_last(), grants, now, unix);
        assert forall|i: int| 0 <= i < tokens.len() - 1 implies #[trigger] tokens[i]
            == tokens.drop_last()[i] by {}
        lemma_counter_fits(tokens.last().token);
        lemma_load_token_bounded(
            m.load_tokens(tokens.drop_last(), now, unix),
            tokens.last(),
            now,
            unix,
        );
    }
}

proof fn lemma_load_token_bounded(m: TrustModel, t: TokenRow, now: Instant, unix: u64)
    requires
        m.numbers_bounded(),
    ensures
        m.load_token(t, now, unix).numbers_bounded(),
{
    lemma_counter_fits(t.token);
}

proof fn lemma_load_grant_bounded(m: TrustModel, g: GrantRow, now: Instant, unix: u64)
    requires
        m.numbers_bounded(),
    ensures
        m.load_grant(g, now, unix).numbers_bounded(),
{
    lemma_counter_fits(g.id);
    let after = m.load_grant(g, now, unix);
    assert forall|i: int| 0 <= i < after.grants.len() implies trust::counter_of(
        (#[trigger] after.grants[i]).id,
    ) <= after.counter by {
        if i < m.grants.len() {
            assert(after.grants[i] == m.grants[i]);
        }
    }
}

/// An identifier that is made after a store was taken up is none that was stored, whether or not
/// its time was up.
pub proof fn law_new_identifier_not_stored(
    m: TrustModel,
    tokens: Seq<TokenRow>,
    grants: Seq<GrantRow>,
    now: Instant,
    unix: u64,
    word: Seq<char>,
    i: int,
)
    requires
        m.numbers_bounded(),
        m.load_tokens(tokens, now, unix).load_grants(grants, now, unix).can_number(),
    ensures
        ({
            let new = m.load_tokens(tokens, now, unix).load_grants(grants, now, unix).next(word);
            &&& 0 <= i < tokens.len() ==> tokens[i].token != new
            &&& 0 <= i < grants.len() ==> grants[i].id != new
        }),
{
    let loaded = m.load_tokens(tokens, now, unix).load_grants(grants, now, unix);
    law_loaded_numbers_bounded(m, tokens, grants, now, unix);
    law_number_reads_back(word, (loaded.counter + 1) as u64);
}

/// The row under which a grant is stored.
pub open spec fn row_of(g: GrantView, expires_at_secs: Option<u64>) -> GrantRow {
    GrantRow {
        id: g.id,
        identity_a: g.identity_a,
        identity_b: g.identity_b,
        direction: grants::direction_name(g.direction),
        mediation: grants::mediation_name(g.mediation),
        max_messages: match g.max_messages {
            Some(n) => Some(n as i64),
            None => None,
        },
        messages_used: g.messages_used as i64,
        conditions: g.conditions,
        opens_reply_window: g.opens_reply_window,
        expires_at_secs,
        governor_id: g.governor_id,
        name_a: g.name_a,
        name_b: g.name_b,
    }
}

/// A grant that was stored and whose time is not up comes back with its parties, its direction,
/// its mediation, its conditions and what is left of its budget, and covers the same pairs.
pub proof fn law_stored_grant_comes_back(
    m: TrustModel,
    g: GrantView,
    expires_at_secs: Option<u64>,
    now: Instant,
    unix: u64,
    ask: Ask,
)
    requires
        expires_at_secs matches Some(at) ==> at > unix,
        g.messages_used <= i64::MAX,
        g.max_messages matches Some(n) ==> n <= i64::MAX,
    ensures
        m.load_grant(row_of(g, expires_at_secs), now, unix).grants == m.grants.push(
            GrantView { expires: TrustModel::stored_end(expires_at_secs, now, unix), ..g },
        ),
        (GrantView { expires: TrustModel::stored_end(expires_at_secs, now, unix), ..g }).covers(ask)
            == g.covers(ask),
        (GrantView {
            expires: TrustModel::stored_end(expires_at_secs, now, unix),
            ..g
        }).exhausted() == g.exhausted(),
{
    reveal_strlit("symmetric");
    reveal_strlit("a_to_b");
    reveal_strlit("b_to_a");
    reveal_strlit("bypass");
    reveal_strlit("inspect");
    reveal_strlit("notify");
    assert("symmetric"@.len() == 9 && "a_to_b"@.len() == 6 && "b_to_a"@.len() == 6);
    assert("a_to_b"@[0] == 'a' && "b_to_a"@[0] == 'b');
    assert("bypass"@.len() == 6 && "inspect"@.len() == 7 && "notify"@.len() == 6);
    assert("bypass"@[0] == 'b' && "notify"@[0] == 'n');
}

/// A governor's token that was stored and whose time is not up may act after it was taken up.
pub proof fn law_stored_governor_may_act(m: TrustModel, t: TokenRow, now: Instant, unix: u64, later: Instant)
    requires
        t.token_type == "governor"@,
        t.expires_at_secs matches Some(at) ==> at > unix,
        TrustModel::stored_end(t.expires_at_secs, now, unix) matches Some(end) ==> later < end,
    ensures
        m.load_token(t, now, unix).verify(t.token, later) is Ok,
        m.load_token(t, now, unix).governed(),
{
    assert(m.load_token(t, now, unix).governors.contains_key(t.token));
}

/// What was stored and whose time is up is not taken up; only its number counts.
pub proof fn law_expired_rows_skipped(m: TrustModel, t: TokenRow, g: GrantRow, now: Instant, unix: u64)
    ensures
        t.expires_at_secs matches Some(at) && at <= unix ==> m.load_token(t, now, unix) == m.seen(
            t.token,
        ),
        g.expires_at_secs matches Some(at) && at <= unix ==> m.load_grant(g, now, unix) == m.seen(g.id),
{
}

} // verus!
