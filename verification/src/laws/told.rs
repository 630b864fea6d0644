//! Laws of what the events tell: each holds what its reader needs, under its own key.

use crate::events;
use crate::events::EventValueView;
use crate::text;
use vstd::prelude::*;

verus! {

/// An event tells a value under a key: it is the text of an object that has that value there.
pub open spec fn tells(event: Seq<char>, key: Seq<char>, value: EventValueView) -> bool {
    exists|fields: Seq<(Seq<char>, EventValueView)>|
        event == #[trigger] events::json_text(fields) && fields.contains((key, value))
}

/// An event tells a text under a key.
pub open spec fn says(event: Seq<char>, key: Seq<char>, value: Seq<char>) -> bool {
    tells(event, key, EventValueView::Text(value))
}

/// An event tells a text under a key, or that there is none.
pub open spec fn says_if(event: Seq<char>, key: Seq<char>, value: Option<Seq<char>>) -> bool {
    tells(
        event,
        key,
        match value {
            Some(s) => EventValueView::Text(s),
            None => EventValueView::Null,
        },
    )
}

proof fn lemma_tells(fields: Seq<(Seq<char>, EventValueView)>, i: int)
    requires
        0 <= i < fields.len(),
    ensures
        tells(events::json_text(fields), fields[i].0, fields[i].1),
{
    assert(fields.contains(fields[i]));
}

/// The governors learn who claims the governorship, under which identifier, and where to answer.
pub proof fn law_transfer_request_tells(claim_id: Seq<char>, candidate: Seq<char>, e: Seq<char>)
    requires
        e == events::transfer_request(claim_id, candidate),
    ensures
        says(e, "type"@, "governance"@),
        says(e, "event"@, "transfer_request"@),
        says(e, "claim_id"@, claim_id),
        says(e, "candidate"@, candidate),
        says(e, "action_url"@, "/governors/elections/"@ + claim_id),
        says(e, "method"@, "POST"@),
        tells(e, "actions"@, EventValueView::Texts(seq!["approve"@, "reject"@])),
{
    let fields = seq![
        ("type"@, EventValueView::Text("governance"@)),
        ("event"@, EventValueView::Text("transfer_request"@)),
        ("claim_id"@, EventValueView::Text(claim_id)),
        ("candidate"@, EventValueView::Text(candidate)),
        ("action_url"@, EventValueView::Text("/governors/elections/"@ + claim_id)),
        ("method"@, EventValueView::Text("POST"@)),
        ("actions"@, EventValueView::Texts(seq!["approve"@, "reject"@])),
    ];
    assert(e == events::json_text(fields));
    lemma_tells(fields, 0);
    lemma_tells(fields, 1);
    lemma_tells(fields, 2);
    lemma_tells(fields, 3);
    lemma_tells(fields, 4);
    lemma_tells(fields, 5);
    lemma_tells(fields, 6);
}

/// A voter learns who claims the governorship, under which identifier, and where to answer.
pub proof fn law_election_request_tells(claim_id: Seq<char>, candidate: Seq<char>, e: Seq<char>)
    requires
        e == events::election_request(claim_id, candidate),
    ensures
        says(e, "type"@, "governance"@),
        says(e, "event"@, "election_request"@),
        says(e, "claim_id"@, claim_id),
        says(e, "candidate"@, candidate),
        says(e, "action_url"@, "/governors/elections/"@ + claim_id),
        says(e, "method"@, "POST"@),
        tells(e, "actions"@, EventValueView::Texts(seq!["approve"@, "reject"@])),
{
    let fields = seq![
        ("type"@, EventValueView::Text("governance"@)),
        ("event"@, EventValueView::Text("election_request"@)),
        ("claim_id"@, EventValueView::Text(claim_id)),
        ("candidate"@, EventValueView::Text(candidate)),
        ("action_url"@, EventValueView::Text("/governors/elections/"@ + claim_id)),
        ("method"@, EventValueView::Text("POST"@)),
        ("actions"@, EventValueView::Texts(seq!["approve"@, "reject"@])),
    ];
    assert(e == events::json_text(fields));
    lemma_tells(fields, 0);
    lemma_tells(fields, 1);
    lemma_tells(fields, 2);
    lemma_tells(fields, 3);
    lemma_tells(fields, 4);
    lemma_tells(fields, 5);
    lemma_tells(fields, 6);
}

/// A candidate learns which of its claims was rejected.
pub proof fn law_claim_rejected_tells(claim_id: Seq<char>, e: Seq<char>)
    requires
        e == events::claim_rejected(claim_id),
    ensures
        says(e, "type"@, "governance"@),
        says(e, "event"@, "claim_rejected"@),
        says(e, "claim_id"@, claim_id),
{
    let fields = seq![
        ("type"@, EventValueView::Text("governance"@)),
        ("event"@, EventValueView::Text("claim_rejected"@)),
        ("claim_id"@, EventValueView::Text(claim_id)),
    ];
    assert(e == events::json_text(fields));
    lemma_tells(fields, 0);
    lemma_tells(fields, 1);
    lemma_tells(fields, 2);
}

/// A candidate who wins learns on which claim, and the token to govern with.
pub proof fn law_governorship_granted_tells(claim_id: Seq<char>, governor_token: Seq<char>, e: Seq<char>)
    requires
        e == events::governorship_granted(claim_id, governor_token),
    ensures
        says(e, "type"@, "governance"@),
        says(e, "event"@, "governorship_granted"@),
        says(e, "claim_id"@, claim_id),
        says(e, "governor_token"@, governor_token),
{
    let fields = seq![
        ("type"@, EventValueView::Text("governance"@)),
        ("event"@, EventValueView::Text("governorship_granted"@)),
        ("claim_id"@, EventValueView::Text(claim_id)),
        ("governor_token"@, EventValueView::Text(governor_token)),
    ];
    assert(e == events::json_text(fields));
    lemma_tells(fields, 0);
    lemma_tells(fields, 1);
    lemma_tells(fields, 2);
    lemma_tells(fields, 3);
}

/// The governors learn of a held message: its identifier, who writes to whom what, and under which grant.
pub proof fn law_mediation_tells(mediation_id: Seq<char>, from: Seq<char>, to: Seq<char>, payload: Seq<char>, grant_id: Seq<char>, conditions: Option<Seq<char>>, e: Seq<char>)
    requires
        e == events::mediation(mediation_id, from, to, payload, grant_id, conditions),
    ensures
        says(e, "type"@, "mediation"@),
        says(e, "mediation_id"@, mediation_id),
        says(e, "from"@, from),
        says(e, "to"@, to),
        says(e, "payload"@, payload),
        says(e, "grant_id"@, grant_id),
        says_if(e, "conditions"@, conditions),
{
    let fields = seq![
        ("type"@, EventValueView::Text("mediation"@)),
        ("mediation_id"@, EventValueView::Text(mediation_id)),
        ("from"@, EventValueView::Text(from)),
        ("to"@, EventValueView::Text(to)),
        ("payload"@, EventValueView::Text(payload)),
        ("grant_id"@, EventValueView::Text(grant_id)),
        ("conditions"@, events::opt_value(conditions)),
    ];
    assert(e == events::json_text(fields));
    lemma_tells(fields, 0);
    lemma_tells(fields, 1);
    lemma_tells(fields, 2);
    lemma_tells(fields, 3);
    lemma_tells(fields, 4);
    lemma_tells(fields, 5);
    lemma_tells(fields, 6);
}

/// The governors learn of a delivered message: who writes to whom what, and under which grant.
pub proof fn law_delivery_notice_tells(from: Seq<char>, to: Seq<char>, payload: Seq<char>, grant_id: Seq<char>, conditions: Option<Seq<char>>, e: Seq<char>)
    requires
        e == events::delivery_notice(from, to, payload, grant_id, conditions),
    ensures
        says(e, "type"@, "notify"@),
        says(e, "from"@, from),
        says(e, "to"@, to),
        says(e, "payload"@, payload),
        says(e, "grant_id"@, grant_id),
        says_if(e, "conditions"@, conditions),
{
    let fields = seq![
        ("type"@, EventValueView::Text("notify"@)),
        ("from"@, EventValueView::Text(from)),
        ("to"@, EventValueView::Text(to)),
        ("payload"@, EventValueView::Text(payload)),
        ("grant_id"@, EventValueView::Text(grant_id)),
        ("conditions"@, events::opt_value(conditions)),
    ];
    assert(e == events::json_text(fields));
    lemma_tells(fields, 0);
    lemma_tells(fields, 1);
    lemma_tells(fields, 2);
    lemma_tells(fields, 3);
    lemma_tells(fields, 4);
    lemma_tells(fields, 5);
}

/// A sender without a grant learns whom it may not write to.
pub proof fn law_no_grant_hint_tells(to: Seq<char>, e: Seq<char>)
    requires
        e == events::no_grant_hint(to),
    ensures
        says(e, "type"@, "system"@),
        says(e, "event"@, "no_grant"@),
        says(e, "to"@, to),
        says(e, "hint"@, "No grant exists. Request access: POST /grants/request {\"to\":\""@ + to + "\",\"reason\":\"your reason\"}"@),
{
    let fields = seq![
        ("type"@, EventValueView::Text("system"@)),
        ("event"@, EventValueView::Text("no_grant"@)),
        ("to"@, EventValueView::Text(to)),
        ("hint"@, EventValueView::Text("No grant exists. Request access: POST /grants/request {\"to\":\""@ + to + "\",\"reason\":\"your reason\"}"@)),
    ];
    assert(e == events::json_text(fields));
    lemma_tells(fields, 0);
    lemma_tells(fields, 1);
    lemma_tells(fields, 2);
    lemma_tells(fields, 3);
}

/// A recipient learns of a file: under which identifier to fetch it, its name, its kind, its size, who sent it and with which note.
pub proof fn law_attachment_notice_tells(attachment_id: Seq<char>, filename: Seq<char>, mime: Seq<char>, size: u64, from: Seq<char>, note: Option<Seq<char>>, e: Seq<char>)
    requires
        e == events::attachment_notice(attachment_id, filename, mime, size, from, note),
    ensures
        says(e, "type"@, "attachment"@),
        says(e, "attachment_id"@, attachment_id),
        says(e, "filename"@, filename),
        says(e, "mime"@, mime),
        tells(e, "size"@, EventValueView::Number(size)),
        says(e, "from"@, from),
        says_if(e, "note"@, note),
        says(e, "fetch"@, "GET /attachments/"@ + attachment_id),
{
    let fields = seq![
        ("type"@, EventValueView::Text("attachment"@)),
        ("attachment_id"@, EventValueView::Text(attachment_id)),
        ("filename"@, EventValueView::Text(filename)),
        ("mime"@, EventValueView::Text(mime)),
        ("size"@, EventValueView::Number(size)),
        ("from"@, EventValueView::Text(from)),
        ("note"@, events::opt_value(note)),
        ("fetch"@, EventValueView::Text("GET /attachments/"@ + attachment_id)),
    ];
    assert(e == events::json_text(fields));
    lemma_tells(fields, 0);
    lemma_tells(fields, 1);
    lemma_tells(fields, 2);
    lemma_tells(fields, 3);
    lemma_tells(fields, 4);
    lemma_tells(fields, 5);
    lemma_tells(fields, 6);
    lemma_tells(fields, 7);
}

/// A recipient who decides alone learns who asks, why, and where to answer.
pub proof fn law_consent_request_tells(request_id: Seq<char>, from: Seq<char>, reason: Option<Seq<char>>, e: Seq<char>)
    requires
        e == events::consent_request(request_id, from, reason),
    ensures
        says(e, "type"@, "grant_request"@),
        says(e, "request_id"@, request_id),
        says(e, "from"@, from),
        says_if(e, "reason"@, reason),
        says(e, "action_url"@, "/grants/requests/"@ + request_id),
        says(e, "method"@, "PATCH"@),
        tells(e, "actions"@, EventValueView::Texts(seq!["approve"@, "deny"@])),
{
    let fields = seq![
        ("type"@, EventValueView::Text("grant_request"@)),
        ("request_id"@, EventValueView::Text(request_id)),
        ("from"@, EventValueView::Text(from)),
        ("reason"@, events::opt_value(reason)),
        ("action_url"@, EventValueView::Text("/grants/requests/"@ + request_id)),
        ("method"@, EventValueView::Text("PATCH"@)),
        ("actions"@, EventValueView::Texts(seq!["approve"@, "deny"@])),
    ];
    assert(e == events::json_text(fields));
    lemma_tells(fields, 0);
    lemma_tells(fields, 1);
    lemma_tells(fields, 2);
    lemma_tells(fields, 3);
    lemma_tells(fields, 4);
    lemma_tells(fields, 5);
    lemma_tells(fields, 6);
}

/// A recipient learns who asks with the approval of the governor, why, and where to answer.
pub proof fn law_recipient_request_tells(request_id: Seq<char>, from: Seq<char>, reason: Option<Seq<char>>, e: Seq<char>)
    requires
        e == events::recipient_request(request_id, from, reason),
    ensures
        says(e, "type"@, "grant_request"@),
        says(e, "request_id"@, request_id),
        says(e, "from"@, from),
        says_if(e, "reason"@, reason),
        says(e, "action_url"@, "/grants/requests/"@ + request_id),
        says(e, "method"@, "PATCH"@),
        tells(e, "actions"@, EventValueView::Texts(seq!["approve"@, "deny"@, "hold"@])),
{
    let fields = seq![
        ("type"@, EventValueView::Text("grant_request"@)),
        ("request_id"@, EventValueView::Text(request_id)),
        ("from"@, EventValueView::Text(from)),
        ("reason"@, events::opt_value(reason)),
        ("action_url"@, EventValueView::Text("/grants/requests/"@ + request_id)),
        ("method"@, EventValueView::Text("PATCH"@)),
        ("actions"@, EventValueView::Texts(seq!["approve"@, "deny"@, "hold"@])),
    ];
    assert(e == events::json_text(fields));
    lemma_tells(fields, 0);
    lemma_tells(fields, 1);
    lemma_tells(fields, 2);
    lemma_tells(fields, 3);
    lemma_tells(fields, 4);
    lemma_tells(fields, 5);
    lemma_tells(fields, 6);
}

/// The governors learn who asks whom, why, and where to answer.
pub proof fn law_governor_request_tells(request_id: Seq<char>, from: Seq<char>, to: Seq<char>, reason: Option<Seq<char>>, e: Seq<char>)
    requires
        e == events::governor_request(request_id, from, to, reason),
    ensures
        says(e, "type"@, "grant_request"@),
        says(e, "request_id"@, request_id),
        says(e, "from"@, from),
        says(e, "to"@, to),
        says_if(e, "reason"@, reason),
        says(e, "action_url"@, "/grants/requests/"@ + request_id),
        says(e, "method"@, "PATCH"@),
        tells(e, "actions"@, EventValueView::Texts(seq!["approve"@, "deny"@, "hold"@])),
{
    let fields = seq![
        ("type"@, EventValueView::Text("grant_request"@)),
        ("request_id"@, EventValueView::Text(request_id)),
        ("from"@, EventValueView::Text(from)),
        ("to"@, EventValueView::Text(to)),
        ("reason"@, events::opt_value(reason)),
        ("action_url"@, EventValueView::Text("/grants/requests/"@ + request_id)),
        ("method"@, EventValueView::Text("PATCH"@)),
        ("actions"@, EventValueView::Texts(seq!["approve"@, "deny"@, "hold"@])),
    ];
    assert(e == events::json_text(fields));
    lemma_tells(fields, 0);
    lemma_tells(fields, 1);
    lemma_tells(fields, 2);
    lemma_tells(fields, 3);
    lemma_tells(fields, 4);
    lemma_tells(fields, 5);
    lemma_tells(fields, 6);
    lemma_tells(fields, 7);
}

/// Whoever asked learns that the grant is made.
pub proof fn law_grant_established_tells(request_id: Seq<char>, to: Seq<char>, e: Seq<char>)
    requires
        e == events::grant_established(request_id, to),
    ensures
        says(e, "type"@, "grant_established"@),
        says(e, "request_id"@, request_id),
        says(e, "to"@, to),
{
    let fields = seq![
        ("type"@, EventValueView::Text("grant_established"@)),
        ("request_id"@, EventValueView::Text(request_id)),
        ("to"@, EventValueView::Text(to)),
    ];
    assert(e == events::json_text(fields));
    lemma_tells(fields, 0);
    lemma_tells(fields, 1);
    lemma_tells(fields, 2);
}

/// Whoever asked learns that it was denied, and why.
pub proof fn law_grant_denied_tells(request_id: Seq<char>, to: Seq<char>, reason: Seq<char>, e: Seq<char>)
    requires
        e == events::grant_denied(request_id, to, reason),
    ensures
        says(e, "type"@, "grant_denied"@),
        says(e, "request_id"@, request_id),
        says(e, "to"@, to),
        says(e, "reason"@, reason),
{
    let fields = seq![
        ("type"@, EventValueView::Text("grant_denied"@)),
        ("request_id"@, EventValueView::Text(request_id)),
        ("to"@, EventValueView::Text(to)),
        ("reason"@, EventValueView::Text(reason)),
    ];
    assert(e == events::json_text(fields));
    lemma_tells(fields, 0);
    lemma_tells(fields, 1);
    lemma_tells(fields, 2);
    lemma_tells(fields, 3);
}

/// Whoever asked learns that more is wanted, and what.
pub proof fn law_grant_held_tells(request_id: Seq<char>, to: Seq<char>, reason: Seq<char>, e: Seq<char>)
    requires
        e == events::grant_held(request_id, to, reason),
    ensures
        says(e, "type"@, "grant_held"@),
        says(e, "request_id"@, request_id),
        says(e, "to"@, to),
        says(e, "reason"@, reason),
        says(e, "hint"@, "Provide more context: POST /grants/request {\"to\":\""@ + to + "\",\"reason\":\"...\",\"request_id\":\""@ + request_id + "\"}"@),
{
    let fields = seq![
        ("type"@, EventValueView::Text("grant_held"@)),
        ("request_id"@, EventValueView::Text(request_id)),
        ("to"@, EventValueView::Text(to)),
        ("reason"@, EventValueView::Text(reason)),
        ("hint"@, EventValueView::Text("Provide more context: POST /grants/request {\"to\":\""@ + to + "\",\"reason\":\"...\",\"request_id\":\""@ + request_id + "\"}"@)),
    ];
    assert(e == events::json_text(fields));
    lemma_tells(fields, 0);
    lemma_tells(fields, 1);
    lemma_tells(fields, 2);
    lemma_tells(fields, 3);
    lemma_tells(fields, 4);
}

/// The parties of a grant learn that it is revoked.
pub proof fn law_grant_revoked_tells(grant_id: Seq<char>, e: Seq<char>)
    requires
        e == events::grant_revoked(grant_id),
    ensures
        says(e, "type"@, "service"@),
        says(e, "event"@, "grant_revoked"@),
        says(e, "grant_id"@, grant_id),
        says(e, "reason"@, "governor_revoked"@),
{
    let fields = seq![
        ("type"@, EventValueView::Text("service"@)),
        ("event"@, EventValueView::Text("grant_revoked"@)),
        ("grant_id"@, EventValueView::Text(grant_id)),
        ("reason"@, EventValueView::Text("governor_revoked"@)),
    ];
    assert(e == events::json_text(fields));
    lemma_tells(fields, 0);
    lemma_tells(fields, 1);
    lemma_tells(fields, 2);
    lemma_tells(fields, 3);
}

/// The governors learn that a token is used from two addresses, and from which.
pub proof fn law_concurrent_use_alert_tells(token: Seq<char>, new_ip: Seq<char>, last_ip: Seq<char>, e: Seq<char>)
    requires
        e == events::concurrent_use_alert(token, new_ip, last_ip),
    ensures
        says(e, "type"@, "concurrent_use_alert"@),
        says(e, "token"@, token),
        says(e, "new_ip"@, new_ip),
        says(e, "last_ip"@, last_ip),
{
    let fields = seq![
        ("type"@, EventValueView::Text("concurrent_use_alert"@)),
        ("token"@, EventValueView::Text(token)),
        ("new_ip"@, EventValueView::Text(new_ip)),
        ("last_ip"@, EventValueView::Text(last_ip)),
    ];
    assert(e == events::json_text(fields));
    lemma_tells(fields, 0);
    lemma_tells(fields, 1);
    lemma_tells(fields, 2);
    lemma_tells(fields, 3);
}

/// A stream learns which token it belongs to, which name it bears, and whether the name asked for is somebody else's.
pub proof fn law_welcome_tells(subscription_id: Seq<char>, name: Option<Seq<char>>, taken: Option<Seq<char>>, e: Seq<char>)
    requires
        e == events::welcome(subscription_id, name, taken),
    ensures
        says(e, "type"@, "service"@),
        says(e, "event"@, "welcome"@),
        says(e, "subscription_id"@, subscription_id),
        says_if(e, "name"@, name),
        tells(e, "name_in_use"@, EventValueView::Flag(taken is Some)),
        says_if(e, "holder_identity"@, taken),
        tells(e, "resolution_token"@, EventValueView::Null),
{
    let fields = seq![
        ("type"@, EventValueView::Text("service"@)),
        ("event"@, EventValueView::Text("welcome"@)),
        ("subscription_id"@, EventValueView::Text(subscription_id)),
        ("name"@, events::opt_value(name)),
        ("name_in_use"@, EventValueView::Flag(taken is Some)),
        ("holder_identity"@, events::opt_value(taken)),
        ("resolution_token"@, EventValueView::Null),
        ("instructions"@, EventValueView::Text("Call POST /announce to register your name. You will receive notify events when messages arrive — call POST /messages/dequeue to retrieve them."@)),
    ];
    assert(e == events::json_text(fields));
    lemma_tells(fields, 0);
    lemma_tells(fields, 1);
    lemma_tells(fields, 2);
    lemma_tells(fields, 3);
    lemma_tells(fields, 4);
    lemma_tells(fields, 5);
    lemma_tells(fields, 6);
    lemma_tells(fields, 7);
}

/// A governor's stream learns the token that was made for it, which name it bears, and whether the name asked for is somebody else's.
pub proof fn law_minted_welcome_tells(token: Seq<char>, name: Option<Seq<char>>, taken: Option<Seq<char>>, e: Seq<char>)
    requires
        e == events::minted_welcome(token, name, taken),
    ensures
        says(e, "type"@, "service"@),
        says(e, "event"@, "welcome"@),
        says(e, "subscription_id"@, token),
        says(e, "token"@, token),
        says_if(e, "name"@, name),
        tells(e, "name_in_use"@, EventValueView::Flag(taken is Some)),
        says_if(e, "holder_identity"@, taken),
        tells(e, "resolution_token"@, EventValueView::Null),
{
    let fields = seq![
        ("type"@, EventValueView::Text("service"@)),
        ("event"@, EventValueView::Text("welcome"@)),
        ("subscription_id"@, EventValueView::Text(token)),
        ("token"@, EventValueView::Text(token)),
        ("name"@, events::opt_value(name)),
        ("name_in_use"@, EventValueView::Flag(taken is Some)),
        ("holder_identity"@, events::opt_value(taken)),
        ("resolution_token"@, EventValueView::Null),
        ("instructions"@, EventValueView::Text("Call POST /announce to register your name. You will receive notify events when messages arrive — call POST /messages/dequeue to retrieve them."@)),
    ];
    assert(e == events::json_text(fields));
    lemma_tells(fields, 0);
    lemma_tells(fields, 1);
    lemma_tells(fields, 2);
    lemma_tells(fields, 3);
    lemma_tells(fields, 4);
    lemma_tells(fields, 5);
    lemma_tells(fields, 6);
    lemma_tells(fields, 7);
    lemma_tells(fields, 8);
}

/// A stream learns the number of the latest message.
pub proof fn law_subscribed_tells(last_message_id: u64, e: Seq<char>)
    requires
        e == events::subscribed(last_message_id),
    ensures
        says(e, "type"@, "sub"@),
        tells(e, "last_message_id"@, EventValueView::Number(last_message_id)),
{
    let fields = seq![
        ("type"@, EventValueView::Text("sub"@)),
        ("last_message_id"@, EventValueView::Number(last_message_id)),
    ];
    assert(e == events::json_text(fields));
    lemma_tells(fields, 0);
    lemma_tells(fields, 1);
}

/// A stream learns who came or went.
pub proof fn law_presence_tells(event: Seq<char>, participant: Seq<char>, e: Seq<char>)
    requires
        e == events::presence(event, participant),
    ensures
        says(e, "type"@, "presence"@),
        says(e, "event"@, event),
        says(e, "participant"@, participant),
{
    let fields = seq![
        ("type"@, EventValueView::Text("presence"@)),
        ("event"@, EventValueView::Text(event)),
        ("participant"@, EventValueView::Text(participant)),
    ];
    assert(e == events::json_text(fields));
    lemma_tells(fields, 0);
    lemma_tells(fields, 1);
    lemma_tells(fields, 2);
}

/// A stream that is rung learns how many messages wait, and different numbers read differently.
pub proof fn law_notify_tells(a: nat, b: nat)
    requires
        a <= u64::MAX,
        b <= u64::MAX,
        events::notify(a) == events::notify(b),
    ensures
        a == b,
{
    let head = "{\"type\":\"notify\",\"pending\":"@;
    let tail = "}"@;
    let (x, y) = (text::decimal(a), text::decimal(b));
    assert(events::notify(a) =~= head + (x + tail));
    assert(events::notify(b) =~= head + (y + tail));
    assert(x + tail =~= events::notify(a).skip(head.len() as int));
    assert(y + tail =~= events::notify(b).skip(head.len() as int));
    assert(x.len() == y.len());
    assert(x =~= (x + tail).take(x.len() as int));
    assert(y =~= (y + tail).take(y.len() as int));
    text::lemma_parse_of_decimal(a, u64::MAX as nat);
    text::lemma_parse_of_decimal(b, u64::MAX as nat);
}

/// The events that end a stream, or tell that an identity is kept, are told apart: no two of them
/// have one text, and none is the text of a count of messages.
pub proof fn law_events_told_apart(pending: nat)
    ensures
        events::revoked() != events::cancelled(),
        events::revoked() != events::rebound(),
        events::revoked() != events::superseded(),
        events::revoked() != events::identity_persisted(),
        events::cancelled() != events::rebound(),
        events::cancelled() != events::superseded(),
        events::cancelled() != events::identity_persisted(),
        events::rebound() != events::superseded(),
        events::rebound() != events::identity_persisted(),
        events::superseded() != events::identity_persisted(),
        events::notify(pending) != events::revoked(),
        events::notify(pending) != events::cancelled(),
        events::notify(pending) != events::rebound(),
        events::notify(pending) != events::superseded(),
        events::notify(pending) != events::identity_persisted(),
{
    reveal_strlit("{\"type\":\"notify\",\"pending\":");
    reveal_strlit("}");
    reveal_strlit("{\"type\":\"service\",\"event\":\"revoked\"}");
    reveal_strlit("{\"type\":\"service\",\"event\":\"cancelled\"}");
    reveal_strlit(
        "{\"type\":\"service\",\"event\":\"superseded\",\"reason\":\"governor_rebind\"}",
    );
    reveal_strlit(
        "{\"type\":\"service\",\"event\":\"superseded\",\"reason\":\"new_listen_created\"}",
    );
    reveal_strlit("{\"type\":\"service\",\"event\":\"identity_persisted\"}");
    let a = events::revoked();
    let b = events::cancelled();
    let c = events::rebound();
    let d = events::superseded();
    let e = events::identity_persisted();
    let n = events::notify(pending);
    assert(a[27] == 'r' && b[27] == 'c' && c[27] == 's' && d[27] == 's' && e[27] == 'i');
    assert(c[50] != d[50]);
    assert(n[9] == 'n' && a[9] == 's' && b[9] == 's' && c[9] == 's' && d[9] == 's' && e[9] == 's');
}

} // verus!
