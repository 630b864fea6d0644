//! Laws of what is asked and answered over the wire.

use crate::calendar;
use crate::clock::{Instant, Moment};
use crate::config::{OptionsView, Settings};
use crate::delivery::model::HubModel;
use crate::delivery::{
    AckView, AnnounceView, ApproveStatus, ClaimOutcomeView, ClaimResolutionView, DecisionView,
    MediationResultView, ParticipantInfoView,
};
use crate::error::ErrorView;
use crate::http;
use crate::http::grant_handlers;
use crate::http::handlers;
use crate::http::{BodyView, ReplyView, ScalarView};
use crate::laws::seen;
use crate::laws::sessions;
use crate::laws::written;
use crate::text;
use crate::trust::{AllGrantItemView, GrantDirection, GrantListItemView, GrantMediation};
use crate::types::MessageView;
use vstd::prelude::*;

verus! {

// ── In plain terms ───────────────────────────────────────────────────────────

/// A reply is an object with `value` under `key`.
pub open spec fn shows(reply: ReplyView, key: Seq<char>, value: ScalarView) -> bool {
    reply.body matches BodyView::Object(fields) && fields.contains((key, value))
}

/// A reply says `word` under `key`.
pub open spec fn says(reply: ReplyView, key: Seq<char>, word: Seq<char>) -> bool {
    shows(reply, key, ScalarView::Text(word))
}

proof fn lemma_first(fields: Seq<(Seq<char>, ScalarView)>, i: int)
    requires
        0 <= i < fields.len(),
    ensures
        fields.contains(fields[i]),
{
}

// ── Who asks ─────────────────────────────────────────────────────────────────

/// A request comes with the token that stands behind the word `Bearer`, and with none otherwise.
pub proof fn law_bearer(token: Seq<char>, header: Seq<char>)
    ensures
        http::bearer(Some("Bearer "@ + token)) == Some(token),
        http::bearer(Some(header)) matches Some(t) ==> header == "Bearer "@ + t,
        http::bearer(None) is None,
{
    assert(("Bearer "@ + token).skip("Bearer "@.len() as int) =~= token);
    if http::bearer(Some(header)) is Some {
        assert(header =~= "Bearer "@ + header.skip("Bearer "@.len() as int));
    }
}

/// Whoever tells where it comes from counts as coming from the first address it tells, and the
/// rest makes no difference.
pub proof fn law_first_address(first: Seq<char>, rest: Seq<char>)
    requires
        !first.contains(','),
    ensures
        handlers::address(Some(first + seq![','] + rest)) == Some(text::trimmed(first)),
        handlers::address(Some(first)) == Some(text::trimmed(first)),
        handlers::address(None) is None,
{
    lemma_before_comma(first, seq![','] + rest);
    lemma_before_comma(first, seq![]);
    assert(first + seq![','] + rest =~= first + (seq![','] + rest));
    assert(first + Seq::<char>::empty() =~= first);
}

proof fn lemma_before_comma(first: Seq<char>, rest: Seq<char>)
    requires
        !first.contains(','),
        rest.len() == 0 || rest[0] == ',',
    ensures
        text::before_first(first + rest, ',') == first,
    decreases first.len(),
{
    let s = first + rest;
    if first.len() == 0 {
        assert(s =~= rest);
    } else {
        let tail = first.drop_first();
        assert(!tail.contains(',')) by {
            if tail.contains(',') {
                assert(first[tail.index_of(',') + 1] == ',');
            }
        }
        assert(first.contains(first[0]));
        lemma_before_comma(tail, rest);
        assert(s.drop_first() =~= tail + rest);
        assert(seq![first[0]] + tail =~= first);
    }
}

// ── Registering ──────────────────────────────────────────────────────────────

/// Somebody governs: there is a governor that was not replaced.
pub open spec fn governed(m: HubModel) -> bool {
    exists|g: Seq<char>| #[trigger] m.trust.governors.contains_key(g) && !m.trust.governors[g].revoked
}

/// While nobody governs, whoever asks is registered until the bootstrap time is over, and nobody
/// after it, whatever it comes with.
pub proof fn law_registering_ungoverned(
    m: HubModel,
    authorization: Option<Seq<char>>,
    deadline: Option<Instant>,
    name: Option<Seq<char>>,
    n: u64,
    now: Instant,
)
    requires
        !governed(m),
    ensures
        ({
            let g = handlers::gate(m, authorization, deadline, now);
            let (after, reply) = handlers::registered(m, g, name, n, now);
            let token = text::decimal(n as nat);
            let open = deadline matches Some(end) ==> now <= end;
            &&& open ==> {
                &&& reply.status == 200
                &&& says(reply, "token"@, token)
                &&& after.tokens == m.tokens.insert(token, after.tokens[token])
                &&& after.tokens[token].pending_first_listen && !after.tokens[token].revoked
                &&& after.tokens[token].name is None
            }
            &&& !open ==> after == m && reply.status == 503
        }),
{
    let g = handlers::gate(m, authorization, deadline, now);
    let reply = handlers::registered(m, g, name, n, now).1;
    if deadline matches Some(end) ==> now <= end {
        lemma_first(reply.body->Object_0, 0);
    }
}

/// Once somebody governs, only a governor registers participants: without a token, with one that
/// is a participant's, or with one that is nobody's, nobody is registered.
pub proof fn law_registering_governed(
    m: HubModel,
    token: Seq<char>,
    deadline: Option<Instant>,
    name: Option<Seq<char>>,
    n: u64,
    now: Instant,
)
    requires
        governed(m),
    ensures
        ({
            let g = handlers::gate(m, Some("Bearer "@ + token), deadline, now);
            let (after, reply) = handlers::registered(m, g, name, n, now);
            let made = text::decimal(n as nat);
            &&& sessions::in_order(m, token) ==> after == m && reply.status == 403
            &&& !sessions::in_order(m, token) && m.trust.verify(token, now) is Err ==> after == m
                && reply.status >= 400
            &&& !sessions::in_order(m, token) && m.trust.verify(token, now) is Ok && name is None
                ==> {
                &&& reply.status == 200
                &&& says(reply, "token"@, made)
                &&& after.tokens.contains_key(made)
            }
            &&& !sessions::in_order(m, token) && m.trust.verify(token, now) is Ok && name is Some
                && m.identities.contains(name->0) ==> {
                &&& reply.status == 200
                &&& says(reply, "token"@, made)
                &&& says(reply, "name"@, name->0)
                &&& after.name_to_token[name->0] == made
            }
            &&& !sessions::in_order(m, token) && m.trust.verify(token, now) is Ok && name is Some
                && !m.identities.contains(name->0) ==> after == m && reply.status == 404
        }),
        ({
            let g = handlers::gate(m, None, deadline, now);
            handlers::registered(m, g, name, n, now).0 == m && handlers::registered(
                m,
                g,
                name,
                n,
                now,
            ).1.status == 401
        }),
{
    assert(("Bearer "@ + token).skip("Bearer "@.len() as int) =~= token);
    let w = choose|g: Seq<char>| #[trigger]
        m.trust.governors.contains_key(g) && !m.trust.governors[g].revoked;
    assert(m.trust.governed());
    let g = handlers::gate(m, Some("Bearer "@ + token), deadline, now);
    let reply = handlers::registered(m, g, name, n, now).1;
    if !sessions::in_order(m, token) && m.trust.verify(token, now) is Ok {
        if name is None {
            lemma_first(reply.body->Object_0, 0);
        } else if m.identities.contains(name->0) {
            lemma_first(reply.body->Object_0, 0);
            lemma_first(reply.body->Object_0, 1);
        }
    }
}

/// Listening over the wire is listening with the bearer's token, with the name asked for, and
/// taking over or hearing of others only where that was asked for.
pub proof fn law_listening_over_wire(
    m: HubModel,
    token: Seq<char>,
    name: Option<Seq<char>>,
    force: Option<bool>,
    push: Option<bool>,
    n: u64,
    now: Moment,
)
    ensures
        ({
            let (after, r) = handlers::listened(
                m,
                Some("Bearer "@ + token),
                None,
                name,
                force,
                push,
                n,
                now,
            );
            let (direct, o) = m.open_listen(
                Some(token),
                None,
                name,
                force is Some && force->0,
                push is Some && push->0,
                n,
                now,
            );
            &&& after == direct
            &&& o matches Ok(opened) ==> r == Ok::<(Seq<char>, u64), ReplyView>(opened)
            &&& o matches Err(e) ==> (r matches Err(reply) && says(reply, "error"@, e.code())
                && reply.status == e.status())
        }),
        handlers::listened(m, None, None, name, force, push, n, now).0 == m,
        handlers::listened(m, None, None, name, force, push, n, now).1 matches Err(reply)
            && reply.status == 401,
{
    assert(("Bearer "@ + token).skip("Bearer "@.len() as int) =~= token);
    let o = m.open_listen(
        Some(token),
        None,
        name,
        force is Some && force->0,
        push is Some && push->0,
        n,
        now,
    ).1;
    if o is Err {
        law_refusal_told(o->Err_0);
    }
}

// ── What is answered ─────────────────────────────────────────────────────────

/// Whoever is refused is told by which rule, in a word and in a sentence, and a block with its
/// reason; a refusal is never taken for success.
pub proof fn law_refusal_told(e: ErrorView)
    ensures
        says(http::error_reply(e), "error"@, e.code()),
        says(http::error_reply(e), "message"@, e.message()),
        e matches ErrorView::GrantBlocked(reason) ==> says(http::error_reply(e), "reason"@, reason),
        http::error_reply(e).status == e.status(),
        400 <= e.status() <= 500,
        e is AuthFailed || e is TokenExpired || e is TokenRejected || e is TokenRevoked <==> e.status()
            == 401,
        e is RecipientUnknown || e is AttachmentNotFound <==> e.status() == 404,
        e is BadRequest <==> e.status() == 400,
{
    let fields = http::error_reply(e).body->Object_0;
    lemma_first(fields, 0);
    lemma_first(fields, 1);
    if e is GrantBlocked {
        lemma_first(fields, 2);
    }
}

/// What became of a message is answered: taken, or held for a governor and under which number, or
/// refused and why.
pub proof fn law_sending_answered(r: Result<AckView, ErrorView>)
    ensures
        ({
            let reply = handlers::sent_reply(r);
            &&& r matches Ok(AckView::Accepted) ==> reply.status == 202 && says(
                reply,
                "status"@,
                "accepted"@,
            )
            &&& r matches Ok(AckView::PendingMediation { mediation_id }) ==> reply.status == 200
                && says(reply, "status"@, "pending_mediation"@) && says(
                reply,
                "mediation_id"@,
                mediation_id,
            )
            &&& r matches Err(e) ==> reply.status == e.status() && says(reply, "error"@, e.code())
        }),
{
    let fields = handlers::sent_reply(r).body->Object_0;
    lemma_first(fields, 0);
    if r is Err {
        law_refusal_told(r->Err_0);
    } else if r->Ok_0 is PendingMediation {
        lemma_first(fields, 1);
    }
}

/// What a governor decided on a message is told apart by a word, and a change comes with the text
/// that is sent in its place; nothing else is a decision.
pub proof fn law_ruling_read(word: Seq<char>, payload: Option<Seq<char>>)
    ensures
        handlers::ruling("approve"@, payload) == Some(DecisionView::Approve),
        handlers::ruling("block"@, payload) == Some(DecisionView::Block),
        payload matches Some(p) ==> handlers::ruling("modify"@, payload) == Some(
            DecisionView::Modify(vstd::utf8::encode_utf8(p)),
        ),
        payload is None ==> handlers::ruling("modify"@, payload) is None,
        word != "approve"@ && word != "block"@ && word != "modify"@ ==> handlers::ruling(
            word,
            payload,
        ) is None,
        handlers::vote("approve"@) == Some(true),
        handlers::vote("reject"@) == Some(false),
        word != "approve"@ && word != "reject"@ ==> handlers::vote(word) is None,
{
    reveal_strlit("approve");
    reveal_strlit("block");
    reveal_strlit("modify");
    reveal_strlit("reject");
    assert("approve"@.len() == 7 && "block"@.len() == 5 && "modify"@.len() == 6
        && "reject"@.len() == 6);
}

/// What came of a ruling, a vote, a claim, an approval and an announcement is answered.
pub proof fn law_outcomes_answered(
    ruled: Result<MediationResultView, ErrorView>,
    voted: Result<ClaimResolutionView, ErrorView>,
    claimed: Result<ClaimOutcomeView, ErrorView>,
    approved: Result<ApproveStatus, ErrorView>,
    announced: Result<AnnounceView, ErrorView>,
)
    ensures
        ruled matches Ok(MediationResultView::Delivered { .. }) ==> handlers::ruled_reply(
            ruled,
        ).status == 200 && says(handlers::ruled_reply(ruled), "status"@, "delivered"@),
        ruled matches Ok(MediationResultView::Blocked) ==> handlers::ruled_reply(ruled).status == 200
            && says(handlers::ruled_reply(ruled), "status"@, "blocked"@),
        ruled matches Ok(MediationResultView::RecipientOffline) ==> handlers::ruled_reply(
            ruled,
        ).status >= 400,
        ruled matches Err(e) ==> handlers::ruled_reply(ruled) == http::error_reply(e),
        voted matches Ok(ClaimResolutionView::Waiting { approved, required }) ==> {
            let reply = handlers::voted_reply(voted);
            &&& reply.status == 200
            &&& says(reply, "status"@, "waiting"@)
            &&& shows(reply, "approved"@, ScalarView::Number(approved as u64))
            &&& shows(reply, "required"@, ScalarView::Number(required as u64))
        },
        voted matches Ok(ClaimResolutionView::Established { .. }) ==> handlers::voted_reply(
            voted,
        ).status == 200 && says(handlers::voted_reply(voted), "status"@, "established"@),
        voted matches Ok(ClaimResolutionView::Rejected { .. }) ==> handlers::voted_reply(
            voted,
        ).status == 200 && says(handlers::voted_reply(voted), "status"@, "rejected"@),
        claimed matches Ok(ClaimOutcomeView::Granted { governor_token }) ==> {
            let reply = handlers::claimed_reply(claimed);
            &&& reply.status == 200
            &&& says(reply, "status"@, "granted"@)
            &&& says(reply, "governor_token"@, governor_token)
        },
        claimed matches Ok(ClaimOutcomeView::Election { claim_id, voters }) ==> {
            let reply = handlers::claimed_reply(claimed);
            &&& reply.status == 202
            &&& says(reply, "status"@, "election"@)
            &&& says(reply, "claim_id"@, claim_id)
            &&& shows(reply, "voters"@, ScalarView::Number(voters as u64))
        },
        claimed matches Ok(ClaimOutcomeView::Transfer { claim_id }) ==> {
            let reply = handlers::claimed_reply(claimed);
            &&& reply.status == 202
            &&& says(reply, "status"@, "transfer_pending"@)
            &&& says(reply, "claim_id"@, claim_id)
        },
        approved matches Ok(ApproveStatus::PendingRecipient) ==> grant_handlers::approved_reply(
            approved,
        ).status == 200 && says(
            grant_handlers::approved_reply(approved),
            "status"@,
            "pending_recipient"@,
        ),
        approved matches Ok(ApproveStatus::Established) ==> grant_handlers::approved_reply(
            approved,
        ).status == 200 && says(
            grant_handlers::approved_reply(approved),
            "status"@,
            "established"@,
        ),
        announced matches Ok(AnnounceView::Bound) ==> handlers::announced_reply(announced).status
            == 204,
        announced matches Ok(AnnounceView::NameInUse { resolution_stream }) ==> {
            let reply = handlers::announced_reply(announced);
            &&& reply.status == 409
            &&& says(reply, "error"@, "NAME_IN_USE"@)
            &&& says(reply, "resolution_stream"@, resolution_stream)
        },
{
    let a = handlers::ruled_reply(ruled).body->Object_0;
    let b = handlers::voted_reply(voted).body->Object_0;
    let c = handlers::claimed_reply(claimed).body->Object_0;
    let d = grant_handlers::approved_reply(approved).body->Object_0;
    let e = handlers::announced_reply(announced).body->Object_0;
    assert(a.contains(a[0]) || a.len() == 0);
    assert(b.contains(b[0]) || b.len() == 0);
    assert(b.contains(b[1]) || b.len() <= 1);
    assert(b.contains(b[2]) || b.len() <= 2);
    assert(c.contains(c[0]) || c.len() == 0);
    assert(c.contains(c[1]) || c.len() <= 1);
    assert(c.contains(c[2]) || c.len() <= 2);
    assert(d.contains(d[0]) || d.len() == 0);
    assert(e.contains(e[0]) || e.len() == 0);
    assert(e.contains(e[2]) || e.len() <= 2);
}

/// A grant is asked for in words: which way it lets messages pass, and what a governor does with
/// them. Each word means its own; without a word it is open both ways with nobody between.
pub proof fn law_terms_read(word: Seq<char>)
    ensures
        grant_handlers::direction("symmetric"@) == Some(GrantDirection::Symmetric),
        grant_handlers::direction("a_to_b"@) == Some(GrantDirection::AToB),
        grant_handlers::direction("b_to_a"@) == Some(GrantDirection::BToA),
        word != "symmetric"@ && word != "a_to_b"@ && word != "b_to_a"@ ==> grant_handlers::direction(
            word,
        ) is None,
        grant_handlers::direction(grant_handlers::direction_word(None)) == Some(
            GrantDirection::Symmetric,
        ),
        grant_handlers::direction_word(Some(word)) == word,
        grant_handlers::mediation("bypass"@) == Some(GrantMediation::Bypass),
        grant_handlers::mediation("inspect"@) == Some(GrantMediation::Inspect),
        grant_handlers::mediation("notify"@) == Some(GrantMediation::Notify),
        word != "bypass"@ && word != "inspect"@ && word != "notify"@ ==> grant_handlers::mediation(
            word,
        ) is None,
        grant_handlers::mediation(grant_handlers::mediation_word(None)) == Some(
            GrantMediation::Bypass,
        ),
        grant_handlers::mediation_word(Some(word)) == word,
{
    reveal_strlit("symmetric");
    reveal_strlit("a_to_b");
    reveal_strlit("b_to_a");
    reveal_strlit("bypass");
    reveal_strlit("inspect");
    reveal_strlit("notify");
    assert("symmetric"@.len() == 9 && "a_to_b"@.len() == 6 && "b_to_a"@.len() == 6);
    assert("a_to_b"@[0] == 'a' && "b_to_a"@[0] == 'b');
    assert("bypass"@.len() == 6 && "inspect"@.len() == 7 && "notify"@.len() == 6);
    assert("bypass"@[0] == 'b' && "notify"@[0] == 'n');
}

/// A message that is fetched comes with its text, its sender, and what else it has; how many are
/// left is told with it.
pub proof fn law_message_shown(m: MessageView, left: nat)
    requires
        left <= u64::MAX,
    ensures
        ({
            let fields = handlers::message_fields(m);
            &&& fields.contains(("payload"@, ScalarView::Text(text::utf8_lossy(m.payload))))
            &&& fields.contains(("from"@, ScalarView::Text(m.from_name)))
            &&& m.reason matches Some(s) ==> fields.contains(("reason"@, ScalarView::Text(s)))
            &&& m.event_type matches Some(s) ==> fields.contains(
                ("event_type"@, ScalarView::Text(s)),
            )
            &&& m.thread_id matches Some(s) ==> fields.contains(("thread_id"@, ScalarView::Text(s)))
            &&& fields.len() == 2 + if m.reason is Some {
                1int
            } else {
                0
            } + if m.event_type is Some {
                1int
            } else {
                0
            } + if m.thread_id is Some {
                1int
            } else {
                0
            }
            &&& handlers::fetched_reply(Ok((Some(m), left))).status == 200
            &&& handlers::fetched_reply(Ok((Some(m), left))).body == BodyView::Message {
                message: Some(fields),
                remaining: Some(left as u64),
            }
        }),
{
    let fields = handlers::message_fields(m);
    lemma_first(fields, 0);
    lemma_first(fields, 1);
    let r = if m.reason is Some {
        1int
    } else {
        0
    };
    let e = if m.event_type is Some {
        1int
    } else {
        0
    };
    if m.reason is Some {
        assert(fields[2] == ("reason"@, ScalarView::Text(m.reason->0)));
        lemma_first(fields, 2);
    }
    if m.event_type is Some {
        assert(fields[2 + r] == ("event_type"@, ScalarView::Text(m.event_type->0)));
        lemma_first(fields, 2 + r);
    }
    if m.thread_id is Some {
        assert(fields[2 + r + e] == ("thread_id"@, ScalarView::Text(m.thread_id->0)));
        lemma_first(fields, 2 + r + e);
    }
}

/// How many messages wait, what the latest is and which number it has is told to the one they wait
/// for; only a token in order is told.
pub proof fn law_waiting_told(m: HubModel, token: Seq<char>)
    ensures
        ({
            let waiting = match m.tokens[token].name {
                Some(name) => if m.queues.contains_key(name) {
                    m.queues[name]
                } else {
                    seq![]
                },
                None => seq![],
            };
            &&& sessions::in_order(m, token) ==> {
                &&& handlers::pending(m, token) == Ok::<nat, ErrorView>(waiting.len())
                &&& waiting.len() == 0 ==> handlers::latest_message(m, token) == Ok::<
                    Option<MessageView>,
                    ErrorView,
                >(None)
                &&& waiting.len() > 0 ==> handlers::latest_message(m, token) == Ok::<
                    Option<MessageView>,
                    ErrorView,
                >(Some(waiting[waiting.len() - 1]))
                &&& handlers::latest(m, token) == Ok::<Option<u64>, ErrorView>(
                    if m.tokens[token].msg_id > 0 {
                        Some(m.tokens[token].msg_id)
                    } else {
                        None
                    },
                )
            }
            &&& !sessions::in_order(m, token) ==> handlers::pending(m, token) is Err
                && handlers::latest_message(m, token) is Err && handlers::latest(m, token) is Err
        }),
{
}

/// Times are asked for in seconds, and nobody waits longer than five minutes for a message.
pub proof fn law_times_read(secs: u64)
    ensures
        handlers::span(Some(secs)) == Some((secs * 1_000_000_000) as crate::clock::Duration),
        handlers::span(None) is None,
        secs <= 300 ==> handlers::wait_limit(secs) == secs * 1_000_000_000,
        secs > 300 ==> handlers::wait_limit(secs) == 300_000_000_000,
{
}

// ── Settings ─────────────────────────────────────────────────────────────────

/// A time that is set as a number of seconds within its range is taken as it is, outside of it as
/// the nearest end, and each setting has its own default.
pub proof fn law_settings_read(n: u64)
    ensures
        ({
            let some = Some(text::decimal(n as nat));
            let nothing: Option<Seq<char>> = None;
            let none = Settings::given(nothing, nothing, nothing, nothing, nothing);
            let s = Settings::given(some, some, some, some, some);
            &&& none.reply_ttl == 120_000_000_000
            &&& none.hold_ttl == 60_000_000_000
            &&& none.gc_unlisten == 300_000_000_000
            &&& none.gc_no_grant == 1_800_000_000_000
            &&& none.settle_window == 30_000_000_000
            &&& 5 <= n <= 600 ==> s.reply_ttl == n * 1_000_000_000
            &&& 10 <= n <= 300 ==> s.hold_ttl == n * 1_000_000_000
            &&& 60 <= n <= 3_600 ==> s.gc_unlisten == n * 1_000_000_000
            &&& 120 <= n <= 7_200 ==> s.gc_no_grant == n * 1_000_000_000
            &&& 1 <= n <= 300 ==> s.settle_window == n * 1_000_000_000
            &&& 5_000_000_000 <= s.reply_ttl <= 600_000_000_000
            &&& 10_000_000_000 <= s.hold_ttl <= 300_000_000_000
            &&& 60_000_000_000 <= s.gc_unlisten <= 3_600_000_000_000
            &&& 120_000_000_000 <= s.gc_no_grant <= 7_200_000_000_000
            &&& 1_000_000_000 <= s.settle_window <= 300_000_000_000
        }),
{
    text::lemma_parse_of_decimal(n as nat, u64::MAX as nat);
}

/// An option with a value sets its own setting to that value, a later one overrides an earlier
/// one, and the environment gives what no option gave.
pub proof fn law_options_read(o: OptionsView, args: Seq<Seq<char>>, i: int, port: u16, secs: u64)
    requires
        0 <= i,
        i + 2 == args.len(),
        5 <= secs <= 600,
    ensures
        args[i] == "--port"@ && args[i + 1] == text::decimal(port as nat) ==> o.scan(args, i) == Some(
            OptionsView { port: Some(port), ..o },
        ),
        args[i] == "--liveness-window-secs"@ && args[i + 1] == text::decimal(secs as nat) ==> o.scan(
            args,
            i,
        ) == Some(OptionsView { liveness: secs, ..o }),
        args[i] == "--token-store-path"@ ==> o.scan(args, i) == Some(
            OptionsView { store: Some(args[i + 1]), ..o },
        ),
        args[i] == "--help"@ || args[i] == "-h"@ ==> o.scan(args, i) is None,
        args[i] == "--insecure-http"@ ==> o.scan(args, i) == (OptionsView {
            insecure_http: true,
            ..o
        }).scan(args, i + 1),
{
    reveal_with_fuel(OptionsView::scan, 3);
    reveal_strlit("--port");
    reveal_strlit("--liveness-window-secs");
    reveal_strlit("--token-store-path");
    reveal_strlit("--insecure-http");
    reveal_strlit("--help");
    reveal_strlit("-h");
    assert("--port"@.len() == 6 && "--help"@.len() == 6 && "-h"@.len() == 2
        && "--insecure-http"@.len() == 15 && "--liveness-window-secs"@.len() == 22
        && "--token-store-path"@.len() == 18);
    assert("--port"@[2] == 'p' && "--help"@[2] == 'h');
    text::lemma_parse_of_decimal(port as nat, u16::MAX as nat);
    text::lemma_parse_of_decimal(secs as nat, u64::MAX as nat);
}

/// What the options give is used; what they leave open comes from the environment, and what that
/// leaves open has a default that goes with the way the hub is reached.
pub proof fn law_config_completed(
    o: OptionsView,
    insecure: Option<Seq<char>>,
    liveness: Option<Seq<char>>,
    store: Option<Seq<char>>,
    secs: u64,
)
    ensures
        ({
            let c = o.config(insecure, liveness, store);
            &&& o.port matches Some(p) ==> c.port == p
            &&& o.port is None && o.insecure_http ==> c.port == 8080
            &&& o.port is None && !o.insecure_http ==> c.port == 8443
            &&& c.insecure_http <==> o.insecure_http || insecure == Some("1"@)
            &&& o.store matches Some(path) ==> c.token_store_path == path
            &&& o.store is None && store is Some && store->0.len() > 0 ==> c.token_store_path
                == store->0
            &&& o.store is None && (store is None || store->0.len() == 0) ==> c.token_store_path
                == "sim-tokens.db"@
            &&& liveness is None ==> c.liveness_window_secs == o.liveness
            &&& liveness == Some(text::decimal(secs as nat)) && 5 <= secs <= 600
                ==> c.liveness_window_secs == secs
        }),
        OptionsView::unset().liveness == 30,
        OptionsView::unset().port is None && OptionsView::unset().store is None,
        !OptionsView::unset().insecure_http,
{
    text::lemma_parse_of_decimal(secs as nat, u64::MAX as nat);
}

// ── Lists ────────────────────────────────────────────────────────────────────

/// A reply is a list under `key` with one row for each of `n`.
pub open spec fn lists(reply: ReplyView, key: Seq<char>, n: nat) -> bool {
    reply.status == 200 && (reply.body matches BodyView::Listing { key: k, rows } && k == key
        && rows.len() == n)
}

/// A row of a listing has `value` under `key`.
pub open spec fn row_shows(reply: ReplyView, i: int, key: Seq<char>, value: ScalarView) -> bool {
    reply.body matches BodyView::Listing { rows, .. } && rows[i].contains((key, value))
}

/// The end of a grant as it is shown: the moment on the wall clock that is as far off as the end.
pub open spec fn end_shown(end: Option<Instant>, now: Moment) -> ScalarView {
    match end {
        Some(e) => {
            let wall = now.system + (e - now.instant);
            ScalarView::Text(
                calendar::iso8601(
                    if wall < 0 {
                        0
                    } else if wall / 1_000_000_000 <= u64::MAX {
                        (wall / 1_000_000_000) as nat
                    } else {
                        u64::MAX as nat
                    },
                ),
            )
        },
        None => ScalarView::Null,
    }
}

/// A list of grants shows of each what it is, in its order.
pub proof fn law_grants_shown(
    own: Seq<GrantListItemView>,
    all: Seq<AllGrantItemView>,
    now: Moment,
    i: int,
)
    ensures
        ({
            let reply = grant_handlers::grants_reply(Ok(own), now);
            &&& lists(reply, "grants"@, own.len())
            &&& 0 <= i < own.len() ==> {
                &&& row_shows(reply, i, "id"@, ScalarView::Text(own[i].id))
                &&& row_shows(reply, i, "counterparty"@, ScalarView::Text(own[i].counterparty))
                &&& row_shows(
                    reply,
                    i,
                    "direction"@,
                    ScalarView::Text(written::way_word(own[i].direction)),
                )
                &&& row_shows(reply, i, "expires"@, end_shown(own[i].expires, now))
            }
        }),
        ({
            let reply = grant_handlers::all_grants_reply(Ok(all), now);
            &&& lists(reply, "grants"@, all.len())
            &&& 0 <= i < all.len() ==> {
                &&& row_shows(reply, i, "id"@, ScalarView::Text(all[i].id))
                &&& row_shows(reply, i, "identity_a"@, ScalarView::Text(all[i].identity_a))
                &&& row_shows(reply, i, "identity_b"@, ScalarView::Text(all[i].identity_b))
                &&& all[i].name_a matches Some(n) ==> row_shows(
                    reply,
                    i,
                    "name_a"@,
                    ScalarView::Text(n),
                )
                &&& all[i].name_b matches Some(n) ==> row_shows(
                    reply,
                    i,
                    "name_b"@,
                    ScalarView::Text(n),
                )
                &&& row_shows(
                    reply,
                    i,
                    "direction"@,
                    ScalarView::Text(written::way_word(all[i].direction)),
                )
                &&& row_shows(reply, i, "expires"@, end_shown(all[i].expires, now))
            }
        }),
{
    if 0 <= i < own.len() {
        let row = grant_handlers::grant_row(own[i], now);
        assert(grant_handlers::grants_reply(Ok(own), now).body->rows[i] == row);
        lemma_first(row, 0);
        lemma_first(row, 1);
        lemma_first(row, 2);
        lemma_first(row, 3);
    }
    if 0 <= i < all.len() {
        let row = grant_handlers::all_grants_row(all[i], now);
        assert(grant_handlers::all_grants_reply(Ok(all), now).body->rows[i] == row);
        lemma_first(row, 0);
        lemma_first(row, 1);
        lemma_first(row, 2);
        lemma_first(row, 3);
        lemma_first(row, 4);
        lemma_first(row, 5);
        lemma_first(row, 6);
    }
}

/// A list of participants shows of each its name, its identity and its status; and whether one is
/// there is told in a word.
pub proof fn law_participants_shown(ps: Seq<ParticipantInfoView>, i: int, seen: bool)
    ensures
        ({
            let reply = handlers::participants_reply(Ok(ps));
            &&& lists(reply, "participants"@, ps.len())
            &&& 0 <= i < ps.len() ==> {
                &&& row_shows(reply, i, "name"@, ScalarView::Text(ps[i].name))
                &&& row_shows(reply, i, "identity"@, ScalarView::Text(ps[i].identity))
                &&& row_shows(reply, i, "status"@, ScalarView::Text(ps[i].status))
            }
        }),
        handlers::presence_reply(Ok(seen)).status == 200,
        seen ==> says(handlers::presence_reply(Ok(seen)), "status"@, "online"@),
        !seen ==> says(handlers::presence_reply(Ok(seen)), "status"@, "offline"@),
{
    if 0 <= i < ps.len() {
        let row = handlers::participant_row(ps[i]);
        assert(handlers::participants_reply(Ok(ps)).body->rows[i] == row);
        lemma_first(row, 0);
        lemma_first(row, 1);
        lemma_first(row, 2);
    }
    lemma_first(handlers::presence_reply(Ok(seen)).body->Object_0, 0);
}

/// A grant that was made is answered with its number and its terms.
pub proof fn law_grant_answered(
    id: Seq<char>,
    way: Seq<char>,
    most: Option<u64>,
    between: Seq<char>,
    conditions: Option<Seq<char>>,
    e: ErrorView,
)
    ensures
        ({
            let reply = grant_handlers::granted_reply(Ok(id), way, most, between, conditions);
            &&& reply.status == 200
            &&& says(reply, "grant_id"@, id)
            &&& says(reply, "direction"@, way)
            &&& says(reply, "mediation"@, between)
            &&& most matches Some(n) ==> shows(reply, "max_messages"@, ScalarView::Number(n))
            &&& most is None ==> shows(reply, "max_messages"@, ScalarView::Null)
            &&& conditions matches Some(c) ==> says(reply, "conditions"@, c)
        }),
        grant_handlers::granted_reply(Err(e), way, most, between, conditions) == http::error_reply(e),
        says(grant_handlers::asked_reply(Ok(id)), "request_id"@, id),
        grant_handlers::asked_reply(Err(e)) == http::error_reply(e),
        http::done(Ok(())).status == 204,
        http::done(Err(e)) == http::error_reply(e),
{
    let fields = grant_handlers::granted_reply(
        Ok(id),
        way,
        most,
        between,
        conditions,
    ).body->Object_0;
    lemma_first(fields, 0);
    lemma_first(fields, 1);
    lemma_first(fields, 2);
    lemma_first(fields, 3);
    lemma_first(fields, 4);
    lemma_first(grant_handlers::asked_reply(Ok(id)).body->Object_0, 0);
}

/// Whoever has a grant with a participant, in either direction, or shares a room with it, may ask
/// it for another; nobody else may, and nobody without a name.
pub proof fn law_who_may_ask(m: HubModel, token: Seq<char>, to: Seq<char>, now: Instant)
    requires
        sessions::in_order(m, token),
    ensures
        grant_handlers::may_ask(m, token, to, now) <==> (m.tokens[token].name matches Some(name) && (
        seen::in_touch(m, token, to, now) || seen::roommates(m.rooms, name, to, now))),
{
    if m.tokens[token].name is Some {
        let name = m.tokens[token].name->0;
        if seen::roommates(m.rooms, name, to, now) {
            let id = choose|id: Seq<char>| #[trigger]
                m.rooms.contains_key(id) && m.rooms[id].contains_key(name) && now < m.rooms[id][name]
                    && m.rooms[id].contains_key(to) && now < m.rooms[id][to];
            assert(m.rooms.contains_key(id));
        }
        assert(seen::roommates(m.rooms, name, to, now) == crate::rooms::together(
            m.rooms,
            name,
            to,
            now,
        ));
    }
}

} // verus!
