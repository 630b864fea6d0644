//! Laws of what is written down, and of how a hub starts.

use crate::clock::{Duration, Instant, Moment, SystemTime};
use crate::config::Settings;
use crate::delivery::model::HubModel;
use crate::delivery::{ApproveStatus, EffectView, StoreWriteView};
use crate::error::ErrorView;
use crate::events;
use crate::laws::sessions;
use crate::persistence::{DenialRow, GrantRow, TokenRow};
use crate::strmap;
use crate::text;
use crate::trust::{GrantDirection, GrantMediation, GrantView, Terms};
use crate::types::MessageView;
use vstd::prelude::*;

verus! {

// ── Grants ───────────────────────────────────────────────────────────────────

/// The word for which way a grant lets messages pass.
pub open spec fn way_word(d: GrantDirection) -> Seq<char> {
    match d {
        GrantDirection::Symmetric => "symmetric"@,
        GrantDirection::AToB => "a_to_b"@,
        GrantDirection::BToA => "b_to_a"@,
    }
}

/// The word for what a governor does with messages under a grant.
pub open spec fn between_word(m: GrantMediation) -> Seq<char> {
    match m {
        GrantMediation::Bypass => "bypass"@,
        GrantMediation::Inspect => "inspect"@,
        GrantMediation::Notify => "notify"@,
    }
}

/// An end on the wall clock is as far off as an end that is counted from the start, or both are
/// open.
pub open spec fn same_end(wall: Option<SystemTime>, end: Option<Instant>, now: Moment) -> bool {
    match (wall, end) {
        (Some(w), Some(e)) => w - now.system == e - now.instant,
        (None, None) => true,
        _ => false,
    }
}

/// A line of the store holds a grant as it stands.
pub open spec fn holds_grant(e: EffectView, g: GrantView, now: Moment) -> bool {
    e matches EffectView::Store(
        StoreWriteView::UpsertGrant {
            id,
            identity_a,
            identity_b,
            direction,
            mediation,
            max_messages,
            conditions,
            opens_reply_window,
            expires_at,
            governor_id,
            name_a,
            name_b,
        },
    ) && {
        &&& id == g.id
        &&& identity_a == g.identity_a && identity_b == g.identity_b
        &&& direction == way_word(g.direction)
        &&& mediation == between_word(g.mediation)
        &&& max_messages == g.max_messages
        &&& conditions == g.conditions
        &&& opens_reply_window == g.opens_reply_window
        &&& same_end(expires_at, g.expires, now)
        &&& governor_id == g.governor_id
        &&& name_a == g.name_a && name_b == g.name_b
    }
}

/// A grant that a governor makes is written down as it stands, with an end that is as far off on
/// the wall clock; the parties go by the names of their tokens unless they were given names.
pub proof fn law_grant_written_down(
    m: HubModel,
    governor: Seq<char>,
    a: Seq<char>,
    b: Seq<char>,
    expiry: Option<Duration>,
    terms: Terms,
    now: Moment,
)
    requires
        m.persistent,
        now.in_range(),
        m.trust.verify(governor, now.instant) is Ok,
    ensures
        ({
            let (after, r) = m.approve_grant(governor, a, b, expiry, terms, now);
            let g = after.trust.grants.last();
            &&& r == Ok::<Seq<char>, ErrorView>(g.id)
            &&& after.trust.grants == m.trust.grants.push(g)
            &&& g.governor_id == governor
            &&& g.identity_a == a && g.identity_b == b
            &&& after.outbox.len() == m.outbox.len() + 1
            &&& holds_grant(after.outbox.last(), g, now)
            &&& terms.name_a is Some ==> g.name_a == terms.name_a
            &&& terms.name_b is Some ==> g.name_b == terms.name_b
            &&& terms.name_a is None ==> g.name_a == if m.token_to_name.contains_key(a) {
                Some(m.token_to_name[a])
            } else {
                None
            }
            &&& terms.name_b is None ==> g.name_b == if m.token_to_name.contains_key(b) {
                Some(m.token_to_name[b])
            } else {
                None
            }
        }),
{
    assert(m.trust.grants.push(
        m.approve_grant(governor, a, b, expiry, terms, now).0.trust.grants.last(),
    ) =~= m.approve_grant(governor, a, b, expiry, terms, now).0.trust.grants);
}

/// A line of the store holds a participant's token under its name.
pub open spec fn holds_participant(e: EffectView, token: Seq<char>, name: Seq<char>) -> bool {
    e == EffectView::Store(
        StoreWriteView::UpsertToken {
            token,
            identity: name,
            token_type: "participant"@,
            expires_at: None,
        },
    )
}

/// A grant that came of consent is written down as it stands, and with it both parties, so that a
/// restart finds them; both are told that they are kept.
pub proof fn law_consent_kept(
    m: HubModel,
    token: Seq<char>,
    id: Seq<char>,
    expiry: Option<Duration>,
    now: Moment,
    stream: u64,
)
    requires
        m.persistent,
        now.in_range(),
        m.approve_request(token, id, expiry, now).1 == Ok::<ApproveStatus, ErrorView>(
            ApproveStatus::Established,
        ),
    ensures
        ({
            let after = m.approve_request(token, id, expiry, now).0;
            let req = m.requests[id];
            let g = after.trust.grants.last();
            let a = m.name_to_token[req.from_name];
            let b = m.name_to_token[req.to_name];
            &&& exists|i: int|
                m.outbox.len() <= i < after.outbox.len() && holds_grant(
                    #[trigger] after.outbox[i],
                    g,
                    now,
                )
            &&& m.name_to_token.contains_key(req.from_name) && sessions::in_order(m, a) ==> exists|
                i: int,
            |
                m.outbox.len() <= i < after.outbox.len() && holds_participant(
                    #[trigger] after.outbox[i],
                    a,
                    req.from_name,
                )
            &&& m.name_to_token.contains_key(req.to_name) && sessions::in_order(m, b) ==> exists|
                i: int,
            |
                m.outbox.len() <= i < after.outbox.len() && holds_participant(
                    #[trigger] after.outbox[i],
                    b,
                    req.to_name,
                )
            &&& m.tokens.contains_key(req.from_identity) && sessions::stream_held(
                m,
                req.from_identity,
            ) == Some(stream) ==> sessions::since(
                m,
                after,
                EffectView::Push { stream, text: events::identity_persisted() },
            )
            &&& m.tokens.contains_key(req.to_identity) && sessions::stream_held(m, req.to_identity)
                == Some(stream) ==> sessions::since(
                m,
                after,
                EffectView::Push { stream, text: events::identity_persisted() },
            )
        }),
{
    let req = m.requests[id];
    let authority = req.approving_governor->0;
    let terms = Terms {
        name_a: Some(req.from_name),
        name_b: Some(req.to_name),
        ..Terms::open_terms()
    };
    let until = crate::delivery::grants::sooner(req.governor_expiry, expiry);
    let trust = m.trust.granted(
        authority,
        req.from_identity,
        req.to_identity,
        until,
        terms,
        now.instant,
    );
    let made = HubModel { trust, ..m };
    let after = m.approve_request(token, id, expiry, now).0;
    assert(after == made.conclude(
        id,
        req,
        authority,
        m.trust.next("grant"@),
        crate::delivery::governance::wall_end(now, until),
    ));
    let g = after.trust.grants.last();
    lemma_concluded(
        made,
        id,
        req,
        authority,
        m.trust.next("grant"@),
        crate::delivery::governance::wall_end(now, until),
        stream,
    );
    let k = choose|k: int|
        made.outbox.len() <= k < after.outbox.len() && #[trigger] after.outbox[k]
            == EffectView::Store(
            StoreWriteView::UpsertGrant {
                id: m.trust.next("grant"@),
                identity_a: req.from_identity,
                identity_b: req.to_identity,
                direction: "symmetric"@,
                mediation: "bypass"@,
                max_messages: None,
                conditions: None,
                opens_reply_window: true,
                expires_at: crate::delivery::governance::wall_end(now, until),
                governor_id: authority,
                name_a: Some(req.from_name),
                name_b: Some(req.to_name),
            },
        );
    assert(g == trust.grants.last());
    assert(holds_grant(after.outbox[k], g, now));
}

proof fn lemma_concluded(
    m: HubModel,
    id: Seq<char>,
    req: crate::delivery::RequestView,
    authority: Seq<char>,
    grant_id: Seq<char>,
    expires_at: Option<SystemTime>,
    stream: u64,
)
    requires
        m.persistent,
    ensures
        ({
            let after = m.conclude(id, req, authority, grant_id, expires_at);
            let a = m.name_to_token[req.from_name];
            let b = m.name_to_token[req.to_name];
            &&& after.trust == m.trust
            &&& sessions::since(
                m,
                after,
                EffectView::Store(
                    StoreWriteView::UpsertGrant {
                        id: grant_id,
                        identity_a: req.from_identity,
                        identity_b: req.to_identity,
                        direction: "symmetric"@,
                        mediation: "bypass"@,
                        max_messages: None,
                        conditions: None,
                        opens_reply_window: true,
                        expires_at,
                        governor_id: authority,
                        name_a: Some(req.from_name),
                        name_b: Some(req.to_name),
                    },
                ),
            )
            &&& m.name_to_token.contains_key(req.from_name) && sessions::in_order(m, a) ==> exists|
                i: int,
            |
                m.outbox.len() <= i < after.outbox.len() && holds_participant(
                    #[trigger] after.outbox[i],
                    a,
                    req.from_name,
                )
            &&& m.name_to_token.contains_key(req.to_name) && sessions::in_order(m, b) ==> exists|
                i: int,
            |
                m.outbox.len() <= i < after.outbox.len() && holds_participant(
                    #[trigger] after.outbox[i],
                    b,
                    req.to_name,
                )
            &&& m.tokens.contains_key(req.from_identity) && sessions::stream_held(
                m,
                req.from_identity,
            ) == Some(stream) ==> sessions::since(
                m,
                after,
                EffectView::Push { stream, text: events::identity_persisted() },
            )
            &&& m.tokens.contains_key(req.to_identity) && sessions::stream_held(m, req.to_identity)
                == Some(stream) ==> sessions::since(
                m,
                after,
                EffectView::Push { stream, text: events::identity_persisted() },
            )
        }),
{
    let told = m.deliver(
        req.from_name,
        crate::delivery::model::system_message(
            events::grant_established(id, req.to_name),
            "grant_established"@,
        ),
    );
    let bell = told.bell(req.from_name);
    let marked = told.hush(req.from_name).mark_granted(req.from_identity).mark_granted(
        req.to_identity,
    );
    assert(marked.outbox == m.outbox && marked.trust == m.trust && marked.name_to_token
        == m.name_to_token && marked.persistent);
    assert forall|t: Seq<char>| #[trigger] m.tokens.contains_key(t) implies marked.tokens.contains_key(
        t,
    ) && marked.tokens[t].stream == m.tokens[t].stream && marked.tokens[t].revoked
        == m.tokens[t].revoked by {}
    let text = events::identity_persisted();
    let gone = HubModel { requests: marked.requests.remove(id), ..marked };
    let first = gone.push(marked.stream_of(req.from_identity), text);
    let second = first.push(marked.stream_of(req.to_identity), text);
    let third = second.push(bell, events::notify(told.queue(req.from_name).len()));
    let row = StoreWriteView::UpsertGrant {
        id: grant_id,
        identity_a: req.from_identity,
        identity_b: req.to_identity,
        direction: "symmetric"@,
        mediation: "bypass"@,
        max_messages: None,
        conditions: None,
        opens_reply_window: true,
        expires_at,
        governor_id: authority,
        name_a: Some(req.from_name),
        name_b: Some(req.to_name),
    };
    let stored = third.store(row);
    let fourth = stored.store_participant(req.from_name);
    let after = fourth.store_participant(req.to_name);
    assert(after == m.conclude(id, req, authority, grant_id, expires_at));
    assert(after.outbox[third.outbox.len() as int] == EffectView::Store(row));
    let a = m.name_to_token[req.from_name];
    let b = m.name_to_token[req.to_name];
    if m.name_to_token.contains_key(req.from_name) && sessions::in_order(m, a) {
        assert(holds_participant(after.outbox[stored.outbox.len() as int], a, req.from_name));
    }
    if m.name_to_token.contains_key(req.to_name) && sessions::in_order(m, b) {
        assert(holds_participant(after.outbox[fourth.outbox.len() as int], b, req.to_name));
    }
    if m.tokens.contains_key(req.from_identity) && sessions::stream_held(m, req.from_identity)
        == Some(stream) {
        assert(after.outbox[gone.outbox.len() as int] == EffectView::Push { stream, text });
    }
    if m.tokens.contains_key(req.to_identity) && sessions::stream_held(m, req.to_identity) == Some(
        stream,
    ) {
        assert(after.outbox[first.outbox.len() as int] == EffectView::Push { stream, text });
    }
}

/// Both parties of a grant that is taken back are told on their streams.
pub proof fn law_revoked_grant_told(
    m: HubModel,
    id: Seq<char>,
    governor: Seq<char>,
    now: Moment,
    i: int,
    name: Seq<char>,
    stream: u64,
)
    requires
        m.trust.verify(governor, now.instant) is Ok,
        0 <= i < m.trust.grants.len(),
        m.trust.grants[i].id == id,
        forall|j: int| 0 <= j < i ==> (#[trigger] m.trust.grants[j]).id != id,
        m.trust.grants[i].name_a == Some(name) || m.trust.grants[i].name_b == Some(name),
        m.name_to_token.contains_key(name),
        m.tokens.contains_key(m.name_to_token[name]),
        sessions::stream_held(m, m.name_to_token[name]) == Some(stream),
    ensures
        m.revoke_grant(id, governor, now).1 is Ok,
        sessions::since(
            m,
            m.revoke_grant(id, governor, now).0,
            EffectView::Push { stream, text: events::grant_revoked(id) },
        ),
{
    crate::laws::mediation::lemma_first_found(m.trust, id, i);
    let g = m.trust.grants[i];
    assert(m.trust.grant(id) == Some(g)) by {
        assert(m.trust.first_at(id, i));
        let k = choose|k: int| m.trust.first_at(id, k);
        assert(k == i) by {
            if k < i {
                assert(m.trust.grants[k].id != id);
            }
        }
    }
    let after = m.revoke_grant(id, governor, now).0;
    let text = events::grant_revoked(id);
    let gone = HubModel { trust: m.trust.remove_grant(id), ..m };
    let a = m.party_stream(g.name_a, g.identity_a, g.identity_b);
    let b = m.party_stream(g.name_b, g.identity_a, g.identity_b);
    let first = gone.push(a, text);
    let second = first.push(b, text);
    if g.name_a == Some(name) {
        assert(first.outbox[m.outbox.len() as int] == EffectView::Push { stream, text });
        assert(after.outbox[m.outbox.len() as int] == EffectView::Push { stream, text });
    } else {
        assert(second.outbox[first.outbox.len() as int] == EffectView::Push { stream, text });
        assert(after.outbox[first.outbox.len() as int] == EffectView::Push { stream, text });
    }
}

// ── Governors ────────────────────────────────────────────────────────────────

/// A line of the store holds a governor's token with its end.
pub open spec fn holds_governor(e: EffectView, token: Seq<char>, end: Option<Instant>, now: Moment) -> bool {
    e matches EffectView::Store(StoreWriteView::UpsertToken { token: t, identity, token_type, expires_at })
        && t == token && identity == token && token_type == "governor"@ && same_end(
        expires_at,
        end,
        now,
    )
}

/// A new governor is written down with the end it has, and so is a token that takes the place of
/// another, which leaves the store.
pub proof fn law_governor_written_down(m: HubModel, expiry: Option<Duration>, former: Seq<char>, now: Moment)
    requires
        m.persistent,
        now.in_range(),
        m.trust.counter < u64::MAX,
    ensures
        ({
            let after = m.install(expiry, now);
            let t = m.trust.next("gov"@);
            &&& after.trust.governors.contains_key(t)
            &&& after.outbox.len() == m.outbox.len() + 1
            &&& holds_governor(after.outbox.last(), t, after.trust.governors[t].expires, now)
        }),
        m.refresh(former, now).1 matches Ok(t) ==> {
            let after = m.refresh(former, now).0;
            let end = m.trust.governors[former].expires;
            &&& after.trust.governors.contains_key(t)
            &&& after.trust.governors[t].expires == end
            &&& after.outbox.len() == m.outbox.len() + 2
            &&& after.outbox[m.outbox.len() as int] == EffectView::Store(
                StoreWriteView::DeleteToken { token: former },
            )
            &&& (end matches Some(e) ==> now.system + (e - now.instant) <= SystemTime::MAX
                && now.system + (e - now.instant) >= SystemTime::MIN) ==> holds_governor(
                after.outbox.last(),
                t,
                end,
                now,
            )
        },
{
}

// ── Starting ─────────────────────────────────────────────────────────────────

/// A hub starts with the times it was set to, with nothing waiting, nobody connected and nothing
/// told, and it writes down what happens from then on.
pub proof fn law_hub_starts(
    lapse_after: Duration,
    settings: Settings,
    tokens: Seq<TokenRow>,
    grants: Seq<GrantRow>,
    blocks: Seq<DenialRow>,
    names: Seq<Seq<char>>,
    now: Moment,
)
    ensures
        ({
            let hub = HubModel::taken_up(lapse_after, settings, tokens, grants, blocks, names, now);
            &&& hub.persistent
            &&& set_up(hub, lapse_after, settings)
        }),
        set_up(HubModel::empty(lapse_after, settings), lapse_after, settings),
        !HubModel::empty(lapse_after, settings).persistent,
{
    let empty = HubModel::empty(lapse_after, settings);
    let trusted = HubModel {
        trust: empty.trust.load_tokens(
            tokens.filter(|t: TokenRow| !crate::delivery::start::is_participant(t)),
            now.instant,
            now.unix() as u64,
        ).load_grants(grants, now.instant, now.unix() as u64),
        persistent: true,
        ..empty
    };
    let known = trusted.load_identities(names);
    let rows = tokens.filter(|t: TokenRow| crate::delivery::start::is_participant(t));
    lemma_participants_leave_setup(known, rows, now.instant, lapse_after, settings);
    let seated = known.load_participants(rows, now.instant);
    lemma_blocks_leave_setup(seated, blocks, lapse_after, settings);
}

/// A hub is set to its times and nothing has happened in it yet.
pub open spec fn set_up(m: HubModel, lapse_after: Duration, settings: Settings) -> bool {
    &&& m.reply_ttl == settings.reply_ttl
    &&& m.hold_ttl == settings.hold_ttl
    &&& m.gc_unlisten == settings.gc_unlisten
    &&& m.gc_no_grant == settings.gc_no_grant
    &&& m.settle_window == settings.settle_window
    &&& m.gc_grace == 60_000_000_000
    &&& m.registry.lapse_after == lapse_after
    &&& m.registry.entries == Map::<Seq<char>, crate::registry::RegistrationView>::empty()
    &&& m.queues.dom() == Set::<Seq<char>>::empty()
    &&& m.rooms.dom() == Set::<Seq<char>>::empty()
    &&& m.requests.dom() == Set::<Seq<char>>::empty()
    &&& m.claims.dom() == Set::<Seq<char>>::empty()
    &&& m.connections.dom() == Set::<Seq<char>>::empty()
    &&& m.active_sse.dom() == Set::<Seq<char>>::empty()
    &&& m.settling.dom() == Set::<Seq<char>>::empty()
    &&& m.windows.len() == 0 && m.holds.len() == 0 && m.outbox.len() == 0
    &&& !m.startup_announced
    &&& m.med_counter == 0 && m.req_counter == 0 && m.claim_counter == 0
}

proof fn lemma_participants_leave_setup(
    m: HubModel,
    rows: Seq<TokenRow>,
    now: Instant,
    lapse_after: Duration,
    settings: Settings,
)
    requires
        set_up(m, lapse_after, settings),
    ensures
        set_up(m.load_participants(rows, now), lapse_after, settings),
        m.load_participants(rows, now).persistent == m.persistent,
    decreases rows.len(),
{
    if rows.len() > 0 {
        lemma_participants_leave_setup(m, rows.drop_last(), now, lapse_after, settings);
    }
}

proof fn lemma_blocks_leave_setup(
    m: HubModel,
    rows: Seq<DenialRow>,
    lapse_after: Duration,
    settings: Settings,
)
    requires
        set_up(m, lapse_after, settings),
    ensures
        set_up(m.load_blocks(rows), lapse_after, settings),
        m.load_blocks(rows).persistent == m.persistent,
    decreases rows.len(),
{
    if rows.len() > 0 {
        lemma_blocks_leave_setup(m, rows.drop_last(), lapse_after, settings);
    }
}

/// A participant that a restart brings back counts as one that listened and was granted something,
/// used at that moment; so it is not cleared away for want of either.
pub proof fn law_returned_participant(m: HubModel, row: TokenRow, now: Instant)
    ensures
        ({
            let st = m.load_participant(row, now).tokens[row.token];
            &&& m.load_participant(row, now).tokens.contains_key(row.token)
            &&& st.ever_listened && st.ever_granted && !st.pending_first_listen
            &&& st.last_active == now
            &&& st.stream is None && st.governor_id is None && !st.hidden && !st.revoked
            &&& st.msg_id == 0
        }),
{
}

// ── Counting ─────────────────────────────────────────────────────────────────

/// Every stream that opens under a name counts, and every one that ends counts back; other names
/// are not counted along.
pub proof fn law_streams_counted(m: HubModel, name: Seq<char>, other: Seq<char>)
    requires
        m.active_sse.contains_key(name) ==> 0 < m.active_sse[name] < usize::MAX,
        other != name,
    ensures
        ({
            let opened = m.sse_open(name);
            let closed = opened.sse_close(name);
            &&& opened.active_sse.contains_key(name)
            &&& opened.active_sse[name] == if m.active_sse.contains_key(name) {
                m.active_sse[name] + 1
            } else {
                1
            }
            &&& closed.active_sse =~= m.active_sse
            &&& opened.active_sse.contains_key(other) == m.active_sse.contains_key(other)
            &&& opened.active_sse[other] == m.active_sse[other]
            &&& !m.sse_close(name).active_sse.contains_key(name) <==> !m.active_sse.contains_key(
                name,
            ) || m.active_sse[name] == 1
        }),
{
}

/// A line tells a number behind a label.
pub open spec fn counts(line: Seq<char>, label: Seq<char>, n: nat) -> bool {
    exists|before: Seq<char>, after: Seq<char>|
        line == #[trigger] (before + label + text::decimal(n) + after)
}

/// A line goes on with a label and a number, and keeps telling what it told.
spec fn told(line: Seq<char>, label: Seq<char>, n: nat) -> Seq<char> {
    line + label + text::decimal(n)
}

proof fn lemma_told(line: Seq<char>, label: Seq<char>, n: nat)
    ensures
        counts(told(line, label, n), label, n),
        forall|l: Seq<char>, k: nat| #[trigger]
            counts(line, l, k) ==> counts(told(line, label, n), l, k),
{
    let after = told(line, label, n);
    assert(after =~= line + label + text::decimal(n) + Seq::<char>::empty());
    assert forall|l: Seq<char>, k: nat| #[trigger] counts(line, l, k) implies counts(after, l, k) by {
        let (before, rest) = choose|before: Seq<char>, rest: Seq<char>|
            line == #[trigger] (before + l + text::decimal(k) + rest);
        let more = rest + label + text::decimal(n);
        assert(after =~= before + l + text::decimal(k) + more);
    }
}

/// The line of sizes tells how many there are of each kind, behind the name of the kind.
pub proof fn law_sizes_tell(m: HubModel)
    ensures
        counts(m.sizes(), "listen_tokens="@, m.tokens.dom().len()),
        counts(m.sizes(), " agents="@, m.agents.dom().len()),
        counts(m.sizes(), " name_to_token="@, m.name_to_token.dom().len()),
        counts(m.sizes(), " token_to_name="@, m.token_to_name.dom().len()),
        counts(m.sizes(), " queues="@, m.queues.dom().len()),
        counts(m.sizes(), " conn_reqs="@, m.requests.dom().len()),
        counts(m.sizes(), " reply_windows="@, m.windows.len()),
        counts(m.sizes(), " mediation_holds="@, m.holds.len()),
        m.blocks.dom().len() <= u64::MAX ==> counts(
            m.sizes(),
            " denial_blocks="@,
            m.blocks.dom().len(),
        ),
        counts(m.sizes(), " sse_conns="@, m.connections.dom().len()),
        counts(m.sizes(), " active_sse="@, m.active_sse.dom().len()),
        m.waiting(strmap::sorted(m.queues.dom())) <= u64::MAX ==> counts(
            m.sizes(),
            " queued_msgs="@,
            m.waiting(strmap::sorted(m.queues.dom())),
        ),
{
    let s0 = Seq::<char>::empty();
    let s1 = told(s0, "listen_tokens="@, m.tokens.dom().len());
    let s2 = told(s1, " agents="@, m.agents.dom().len());
    let s3 = told(s2, " name_to_token="@, m.name_to_token.dom().len());
    let s4 = told(s3, " token_to_name="@, m.token_to_name.dom().len());
    let s5 = told(s4, " queues="@, m.queues.dom().len());
    let queued = crate::delivery::start::shown(m.waiting(strmap::sorted(m.queues.dom())));
    let s6 = told(s5, " queued_msgs="@, queued);
    let s7 = told(s6, " conn_reqs="@, m.requests.dom().len());
    let s8 = told(s7, " reply_windows="@, m.windows.len());
    let s9 = told(s8, " mediation_holds="@, m.holds.len());
    let s10 = told(
        s9,
        " denial_blocks="@,
        crate::delivery::start::shown(m.blocks.dom().len()),
    );
    let s11 = told(s10, " sse_conns="@, m.connections.dom().len());
    let s12 = told(s11, " active_sse="@, m.active_sse.dom().len());
    lemma_told(s0, "listen_tokens="@, m.tokens.dom().len());
    lemma_told(s1, " agents="@, m.agents.dom().len());
    lemma_told(s2, " name_to_token="@, m.name_to_token.dom().len());
    lemma_told(s3, " token_to_name="@, m.token_to_name.dom().len());
    lemma_told(s4, " queues="@, m.queues.dom().len());
    lemma_told(s5, " queued_msgs="@, queued);
    lemma_told(s6, " conn_reqs="@, m.requests.dom().len());
    lemma_told(s7, " reply_windows="@, m.windows.len());
    lemma_told(s8, " mediation_holds="@, m.holds.len());
    lemma_told(s9, " denial_blocks="@, crate::delivery::start::shown(m.blocks.dom().len()));
    lemma_told(s10, " sse_conns="@, m.connections.dom().len());
    lemma_told(s11, " active_sse="@, m.active_sse.dom().len());
    assert(s0 + "listen_tokens="@ =~= "listen_tokens="@);
    assert(m.sizes() == s12);
}

/// One more message in a queue is one more message that waits.
pub proof fn law_waiting_counted(m: HubModel, names: Seq<Seq<char>>, name: Seq<char>, msg: MessageView)
    requires
        names.no_duplicates(),
    ensures
        m.put(name, msg).waiting(names) == m.waiting(names) + if names.contains(name) {
            1int
        } else {
            0
        },
    decreases names.len(),
{
    if names.len() > 0 {
        let fewer = names.drop_last();
        law_waiting_counted(m, fewer, name, msg);
        assert(names.last() == names[names.len() - 1]);
        if names.last() == name {
            assert(!fewer.contains(name)) by {
                if fewer.contains(name) {
                    assert(names[fewer.index_of(name)] == name);
                }
            }
            assert(names.contains(name));
        } else if names.contains(name) {
            assert(fewer[names.index_of(name)] == name);
        } else if fewer.contains(name) {
            assert(names[fewer.index_of(name)] == name);
        }
    }
}

} // verus!
