//! Laws of how streams end, how tokens are made and replaced, and how they are taken away.

use crate::clock::{Instant, Moment};
use crate::delivery::model::HubModel;
use crate::delivery::{EffectView, StoreWriteView, Stream};
use crate::error::ErrorView;
use crate::events;
use crate::laws::seen;
use crate::laws::sessions;
use crate::text;
use vstd::prelude::*;

verus! {

// ── Ends of streams ──────────────────────────────────────────────────────────

/// A stream that broke down counts as closed, and only that one: a token that has another stream
/// by then keeps it.
pub proof fn law_broken_stream(m: HubModel, token: Seq<char>, stream: u64, other: Seq<char>)
    requires
        m.tokens.contains_key(token),
    ensures
        ({
            let after = m.stream_dropped(token, stream);
            &&& sessions::stream_held(m, token) == Some(stream) ==> after.tokens[token].stream
                == Some(Stream { id: stream, open: false })
            &&& sessions::stream_held(m, token) != Some(stream) ==> after == m
            &&& other != token && m.tokens.contains_key(other) ==> after.tokens.contains_key(other)
                && after.tokens[other] == m.tokens[other]
            &&& after.tokens.contains_key(token) && after.tokens[token].name == m.tokens[token].name
            &&& after.outbox == m.outbox
        }),
{
}

/// When a stream ends, the token has one stream fewer. Whoever ended the last one is given a while
/// to come back: those who may hear of it are remembered and the countdown is started. With other
/// streams open, or on a revoked token, nothing is started. The name stays bound either way.
pub proof fn law_stream_ended(m: HubModel, token: Seq<char>, name: Seq<char>, now: Moment)
    requires
        m.tokens.contains_key(token),
        m.token_to_name.contains_key(token),
        m.token_to_name[token] == name,
    ensures
        ({
            let after = m.close_listen(token, now);
            let more = m.connections.contains_key(token) && m.connections[token] > 1;
            let heard = m.audience(name, now);
            &&& more ==> after.connections.contains_key(token) && after.connections[token]
                == m.connections[token] - 1
            &&& !more ==> !after.connections.contains_key(token)
            &&& !more && !m.tokens[token].revoked && heard.len() > 0 ==> {
                &&& after.outbox == m.outbox.push(
                    EffectView::StartSettle { name, timer: m.next_timer, window: m.settle_window },
                )
                &&& after.settling.contains_key(name)
                &&& after.settling[name].streams == heard
                &&& after.settling[name].timer == m.next_timer
                &&& !after.settling[name].fired
            }
            &&& more || m.tokens[token].revoked || heard.len() == 0 ==> after.outbox == m.outbox
                && after.settling == m.settling
            &&& after.name_to_token == m.name_to_token && after.agents == m.agents
                && after.token_to_name == m.token_to_name && after.queues == m.queues
            &&& after.tokens.contains_key(token)
            &&& m.tokens[token].stream matches Some(s) ==> after.tokens[token].stream == if s.open {
                Some(s)
            } else {
                None
            }
        }),
{
}

/// Whoever gives its stream up by itself is told, the stream ends, and the name is given back: no
/// message reaches it and it is not seen alive; the identity stays its own.
pub proof fn law_stream_given_up(m: HubModel, token: Seq<char>, name: Seq<char>, stream: u64, now: Moment)
    requires
        sessions::in_order(m, token),
        seen::connected(m, token),
        m.token_to_name.contains_key(token),
        m.token_to_name[token] == name,
        sessions::stream_held(m, token) == Some(stream),
    ensures
        ({
            let (after, r) = m.cancel_listen(token, now);
            &&& r == Ok::<(), ErrorView>(())
            &&& !after.name_to_token.contains_key(name)
            &&& !after.agents.contains_key(name)
            &&& !after.token_to_name.contains_key(token)
            &&& !after.registry.entries.contains_key(name)
            &&& !after.connections.contains_key(token)
            &&& after.tokens.contains_key(token)
            &&& after.tokens[token].stream is None && after.tokens[token].name is None
            &&& !after.tokens[token].revoked
            &&& after.identities == m.identities && after.queues == m.queues
            &&& sessions::since(m, after, EffectView::Push { stream, text: events::cancelled() })
            &&& sessions::since(m, after, EffectView::Close { stream })
            &&& m.audience(name, now).len() > 0 ==> sessions::since(
                m,
                after,
                EffectView::StartSettle { name, timer: m.next_timer, window: m.settle_window },
            )
        }),
{
    let after = m.cancel_listen(token, now).0;
    let n = after.outbox.len() as int;
    assert(after.outbox[n - 1] == EffectView::Close { stream });
    assert(after.outbox[n - 2] == EffectView::Push { stream, text: events::cancelled() });
    if m.audience(name, now).len() > 0 {
        assert(after.outbox[n - 3] == EffectView::StartSettle {
            name,
            timer: m.next_timer,
            window: m.settle_window,
        });
    }
}

/// There is nothing to give up for a token that is unknown, revoked, or has no stream.
pub proof fn law_nothing_given_up(m: HubModel, token: Seq<char>, now: Moment)
    requires
        !sessions::in_order(m, token) || !seen::connected(m, token),
    ensures
        m.cancel_listen(token, now) == (
            m,
            Err::<(), ErrorView>(
                if !m.tokens.contains_key(token) {
                    ErrorView::TokenRejected
                } else if m.tokens[token].revoked {
                    ErrorView::TokenRevoked
                } else {
                    ErrorView::RecipientOffline
                },
            ),
        ),
{
}

// ── Making tokens ────────────────────────────────────────────────────────────

/// A token that was just made is good for nothing yet but to open a stream: it has no name, no
/// grant and no governor, and its time runs from now. All other tokens are as they were.
pub proof fn law_token_made(m: HubModel, n: u64, pending: bool, now: Instant, other: Seq<char>)
    requires
        other != text::decimal(n as nat),
    ensures
        ({
            let after = m.enrol(n, pending, now);
            let token = text::decimal(n as nat);
            let st = after.tokens[token];
            &&& after.tokens.contains_key(token)
            &&& st.pending_first_listen == pending
            &&& st.last_active == now
            &&& st.name is None && st.governor_id is None && st.stream is None
            &&& !st.revoked && !st.hidden && !st.ever_listened && !st.ever_granted
            &&& st.msg_id == 0
            &&& after == (HubModel { tokens: after.tokens, ..m })
            &&& after.tokens.contains_key(other) == m.tokens.contains_key(other)
            &&& after.tokens[other] == m.tokens[other]
        }),
{
}

/// Only a governor makes participants, and it makes one for a name only if the name is an
/// identity.
pub proof fn law_who_makes_tokens(
    m: HubModel,
    governor: Seq<char>,
    name: Option<Seq<char>>,
    n: u64,
    now: Instant,
)
    ensures
        m.trust.verify(governor, now) is Err ==> m.issue_participant(governor, name, n, now).0 == m
            && m.issue_participant(governor, name, n, now).1 is Err,
        m.trust.verify(governor, now) is Ok && name is None ==> m.issue_participant(
            governor,
            name,
            n,
            now,
        ).1 == Ok::<(Seq<char>, Option<Seq<char>>), ErrorView>((text::decimal(n as nat), None)),
        m.trust.verify(governor, now) is Ok && name is Some && !m.identities.contains(name->0)
            ==> m.issue_participant(governor, name, n, now) == (
            m,
            Err::<(Seq<char>, Option<Seq<char>>), ErrorView>(ErrorView::RecipientUnknown),
        ),
{
}

/// A governor gives an identity a new token: the one before it is void, its stream is told and
/// ends, and it leaves the store; the new one has the name, is reached under it, keeps its grants,
/// and is written down. Nobody else is touched.
pub proof fn law_identity_reseated(
    m: HubModel,
    governor: Seq<char>,
    name: Seq<char>,
    former: Seq<char>,
    n: u64,
    now: Instant,
)
    requires
        m.trust.verify(governor, now) is Ok,
        m.identities.contains(name),
        m.name_to_token.contains_key(name),
        m.name_to_token[name] == former,
        m.tokens.contains_key(former),
        !m.tokens.contains_key(text::decimal(n as nat)),
    ensures
        ({
            let (after, r) = m.issue_participant(governor, Some(name), n, now);
            let token = text::decimal(n as nat);
            let st = after.tokens[token];
            &&& r == Ok::<(Seq<char>, Option<Seq<char>>), ErrorView>((token, Some(name)))
            &&& !after.tokens.contains_key(former)
            &&& !after.connections.contains_key(former)
            &&& !after.token_to_name.contains_key(former)
            &&& after.tokens.contains_key(token)
            &&& st.name == Some(name) && !st.revoked && st.pending_first_listen && st.ever_granted
            &&& st.last_active == now
            &&& after.name_to_token == m.name_to_token.insert(name, token)
            &&& after.agents == m.agents.insert(name, token)
            &&& after.token_to_name.contains_key(token) && after.token_to_name[token] == name
            &&& !after.registry.entries.contains_key(name)
            &&& after.identities =~= m.identities
            &&& after.trust == m.trust && after.queues == m.queues && after.blocks == m.blocks
                && after.rooms == m.rooms
            &&& sessions::stream_held(m, former) matches Some(stream) ==> {
                &&& sessions::since(m, after, EffectView::Push { stream, text: events::rebound() })
                &&& sessions::since(m, after, EffectView::Close { stream })
            }
            &&& m.persistent ==> {
                &&& sessions::since(
                    m,
                    after,
                    EffectView::Store(StoreWriteView::DeleteToken { token: former }),
                )
                &&& sessions::since(
                    m,
                    after,
                    EffectView::Store(StoreWriteView::UpsertIdentity { name }),
                )
                &&& sessions::since(
                    m,
                    after,
                    EffectView::Store(
                        StoreWriteView::UpsertToken {
                            token,
                            identity: name,
                            token_type: "participant"@,
                            expires_at: None,
                        },
                    ),
                )
            }
        }),
{
    let token = text::decimal(n as nat);
    let retired = m.retire(name);
    let after = m.issue_participant(governor, Some(name), n, now).0;
    assert(after == retired.seat(name, Some(former), n, now));
    assert(retired.outbox.is_prefix_of(after.outbox));
    let k = m.outbox.len() as int;
    if sessions::stream_held(m, former) is Some {
        let stream = sessions::stream_held(m, former)->0;
        assert(retired.outbox[k] == EffectView::Push { stream, text: events::rebound() });
        assert(retired.outbox[k + 1] == EffectView::Close { stream });
        assert(after.outbox[k] == retired.outbox[k]);
        assert(after.outbox[k + 1] == retired.outbox[k + 1]);
    }
    if m.persistent {
        let j = retired.outbox.len() as int;
        assert(after.outbox[j] == EffectView::Store(StoreWriteView::DeleteToken { token: former }));
        assert(after.outbox[j + 1] == EffectView::Store(StoreWriteView::UpsertIdentity { name }));
        assert(after.outbox[j + 2] == EffectView::Store(
            StoreWriteView::UpsertToken {
                token,
                identity: name,
                token_type: "participant"@,
                expires_at: None,
            },
        ));
    }
}

// ── Taking tokens away ───────────────────────────────────────────────────────

/// A governor takes a token away: it stays on the books as revoked, its stream is told and ends,
/// and it leaves the store; whoever could hear of it hears that it left unless it comes back.
pub proof fn law_token_taken_away(m: HubModel, token: Seq<char>, governor: Seq<char>, now: Moment)
    requires
        m.trust.verify(governor, now.instant) is Ok,
        sessions::in_order(m, token),
    ensures
        ({
            let (after, r) = m.revoke_token(token, governor, now);
            &&& r == Ok::<(), ErrorView>(())
            &&& after.tokens.contains_key(token)
            &&& after.tokens[token].revoked && after.tokens[token].stream is None
            &&& after.tokens[token].name == m.tokens[token].name
            &&& sessions::stream_held(m, token) matches Some(stream) ==> {
                &&& sessions::since(m, after, EffectView::Push { stream, text: events::revoked() })
                &&& sessions::since(m, after, EffectView::Close { stream })
            }
            &&& m.persistent ==> sessions::since(
                m,
                after,
                EffectView::Store(StoreWriteView::DeleteToken { token }),
            )
            &&& m.token_to_name.contains_key(token) && m.audience(
                m.token_to_name[token],
                now,
            ).len() > 0 ==> seen::settling(after, m.token_to_name[token]) && sessions::since(
                m,
                after,
                EffectView::StartSettle {
                    name: m.token_to_name[token],
                    timer: m.next_timer,
                    window: m.settle_window,
                },
            )
            &&& after.trust == m.trust && after.queues == m.queues && after.identities
                == m.identities
        }),
{
    let settled = if m.token_to_name.contains_key(token) {
        m.begin_settle(m.token_to_name[token], now)
    } else {
        m
    };
    let after = m.revoke_token(token, governor, now).0;
    assert(after == settled.revoke(token));
    assert(settled.outbox.is_prefix_of(after.outbox));
    lemma_revoking_tells(settled, token);
    assert forall|e: EffectView| sessions::since(settled, after, e) implies sessions::since(
        m,
        after,
        e,
    ) by {
        let k = choose|k: int|
            settled.outbox.len() <= k < after.outbox.len() && #[trigger] after.outbox[k] == e;
    }
    if m.token_to_name.contains_key(token) && m.audience(m.token_to_name[token], now).len() > 0 {
        let k = m.outbox.len() as int;
        assert(after.outbox[k] == settled.outbox[k]);
    }
}

proof fn lemma_revoking_tells(m: HubModel, token: Seq<char>)
    requires
        m.tokens.contains_key(token),
    ensures
        sessions::stream_held(m, token) matches Some(stream) ==> {
            &&& sessions::since(
                m,
                m.revoke(token),
                EffectView::Push { stream, text: events::revoked() },
            )
            &&& sessions::since(m, m.revoke(token), EffectView::Close { stream })
        },
        m.persistent ==> sessions::since(
            m,
            m.revoke(token),
            EffectView::Store(StoreWriteView::DeleteToken { token }),
        ),
{
    let after = m.revoke(token);
    let k = m.outbox.len() as int;
    if sessions::stream_held(m, token) is Some {
        let stream = sessions::stream_held(m, token)->0;
        assert(after.outbox[k] == EffectView::Push { stream, text: events::revoked() });
        assert(after.outbox[k + 1] == EffectView::Close { stream });
    }
    if m.persistent {
        assert(after.outbox[after.outbox.len() - 1] == EffectView::Store(
            StoreWriteView::DeleteToken { token },
        ));
    }
}

/// Only a governor takes tokens away, and only known ones that were not taken away before.
pub proof fn law_who_takes_away(m: HubModel, token: Seq<char>, name: Seq<char>, governor: Seq<char>, now: Moment)
    ensures
        m.trust.verify(governor, now.instant) is Err ==> m.revoke_token(token, governor, now).0 == m
            && m.revoke_token(token, governor, now).1 is Err && m.revoke_by_name(
            name,
            governor,
            now,
        ).0 == m && m.revoke_by_name(name, governor, now).1 is Err,
        m.trust.verify(governor, now.instant) is Ok && !m.tokens.contains_key(token)
            ==> m.revoke_token(token, governor, now).1 == Err::<(), ErrorView>(
            ErrorView::TokenRejected,
        ),
        m.trust.verify(governor, now.instant) is Ok && m.tokens.contains_key(token)
            && m.tokens[token].revoked ==> m.revoke_token(token, governor, now).1 == Err::<
            (),
            ErrorView,
        >(ErrorView::TokenRevoked),
{
}

/// A participant that is taken away by name is gone from the books: its token is revoked, nothing
/// waits for it, nobody reaches it, and its requests and those made of it fall away. Nobody else's
/// queue, name or request is touched.
pub proof fn law_participant_taken_away(
    m: HubModel,
    name: Seq<char>,
    token: Seq<char>,
    governor: Seq<char>,
    now: Moment,
    other: Seq<char>,
    id: Seq<char>,
)
    requires
        m.trust.verify(governor, now.instant) is Ok,
        m.name_to_token.contains_key(name),
        m.name_to_token[name] == token,
        m.tokens.contains_key(token),
        other != name,
    ensures
        ({
            let (after, r) = m.revoke_by_name(name, governor, now);
            &&& r == Ok::<(), ErrorView>(())
            &&& after.tokens.contains_key(token) && after.tokens[token].revoked
            &&& after.tokens[token].stream is None
            &&& !after.name_to_token.contains_key(name)
            &&& !after.agents.contains_key(name)
            &&& !after.queues.contains_key(name)
            &&& !after.registry.entries.contains_key(name)
            &&& !after.active_sse.contains_key(name)
            &&& m.token_to_name.contains_key(token) && m.token_to_name[token] == name
                ==> !after.token_to_name.contains_key(token)
            &&& after.requests.contains_key(id) <==> m.requests.contains_key(id)
                && m.requests[id].from_name != name && m.requests[id].to_name != name
            &&& after.requests.contains_key(id) ==> after.requests[id] == m.requests[id]
            &&& after.name_to_token.contains_key(other) == m.name_to_token.contains_key(other)
            &&& after.queues.contains_key(other) == m.queues.contains_key(other)
            &&& after.queues[other] == m.queues[other]
            &&& after.agents.contains_key(other) == m.agents.contains_key(other)
            &&& after.identities == m.identities && after.trust == m.trust
            &&& sessions::stream_held(m, token) matches Some(stream) ==> {
                &&& sessions::since(m, after, EffectView::Push { stream, text: events::revoked() })
                &&& sessions::since(m, after, EffectView::Close { stream })
            }
            &&& m.persistent ==> sessions::since(
                m,
                after,
                EffectView::Store(StoreWriteView::DeleteToken { token }),
            )
        }),
{
    let gone = m.begin_settle(name, now).expunge(name);
    let after = m.revoke_by_name(name, governor, now).0;
    assert(after == gone.revoke(token));
    lemma_revoking_tells(gone, token);
    assert forall|e: EffectView| sessions::since(gone, after, e) implies sessions::since(
        m,
        after,
        e,
    ) by {
        let k = choose|k: int|
            gone.outbox.len() <= k < after.outbox.len() && #[trigger] after.outbox[k] == e;
    }
}

} // verus!
