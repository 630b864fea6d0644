//! The text of the events that the hub sends out.

use crate::text;
use vstd::prelude::*;

verus! {

/// A value in an event.
pub enum EventValue {
    Null,
    Flag(bool),
    Number(u64),
    Text(String),
    Texts(Vec<String>),
    Table(Vec<(String, String)>),
}

/// What a value in an event holds.
pub enum EventValueView {
    Null,
    Flag(bool),
    Number(u64),
    Text(Seq<char>),
    Texts(Seq<Seq<char>>),
    Table(Seq<(Seq<char>, Seq<char>)>),
}

impl DeepView for EventValue {
    type V = EventValueView;

    open spec fn deep_view(&self) -> EventValueView {
        match self {
            EventValue::Null => EventValueView::Null,
            EventValue::Flag(b) => EventValueView::Flag(*b),
            EventValue::Number(n) => EventValueView::Number(*n),
            EventValue::Text(t) => EventValueView::Text(t@),
            EventValue::Texts(ts) => EventValueView::Texts(ts.deep_view()),
            EventValue::Table(rows) => EventValueView::Table(rows.deep_view()),
        }
    }
}

/// The fields of an event, with their keys.
pub type Fields = Seq<(Seq<char>, EventValueView)>;

/// The JSON text that serde_json makes of an object with these fields.
pub uninterp spec fn json_text(fields: Seq<(Seq<char>, EventValueView)>) -> Seq<char>;

/// `to_string` of `serde_json::Value` on an object: the compact JSON text of the fields. The
/// text depends on the fields alone.
#[verifier::external_body]
fn object_text(fields: &Vec<(String, EventValue)>) -> (s: String)
    ensures
        s@ == json_text(fields.deep_view()),
{
    let mut map = serde_json::Map::new();
    for (key, value) in fields {
        let value = match value {
            EventValue::Null => serde_json::Value::Null,
            EventValue::Flag(b) => serde_json::Value::from(*b),
            EventValue::Number(n) => serde_json::Value::from(*n),
            EventValue::Text(t) => serde_json::Value::from(t.as_str()),
            EventValue::Texts(ts) => serde_json::Value::from(ts.clone()),
            EventValue::Table(rows) => rows.iter().cloned().collect::<serde_json::Value>(),
        };
        map.insert(key.clone(), value);
    }
    serde_json::Value::Object(map).to_string()
}

fn field(key: &str, value: &str) -> (f: (String, EventValue))
    ensures
        f.deep_view() == (key@, EventValueView::Text(value@)),
{
    (key.to_owned(), EventValue::Text(value.to_owned()))
}

fn opt_field(key: &str, value: Option<&str>) -> (f: (String, EventValue))
    ensures
        f.deep_view() == (key@, opt_value(value.deep_view())),
{
    let value = match value {
        Some(s) => EventValue::Text(s.to_owned()),
        None => EventValue::Null,
    };
    (key.to_owned(), value)
}

/// A text, or null.
pub open spec fn opt_value(o: Option<Seq<char>>) -> EventValueView {
    match o {
        Some(s) => EventValueView::Text(s),
        None => EventValueView::Null,
    }
}

fn flag_field(key: &str, b: bool) -> (f: (String, EventValue))
    ensures
        f.deep_view() == (key@, EventValueView::Flag(b)),
{
    (key.to_owned(), EventValue::Flag(b))
}

fn number_field(key: &str, n: u64) -> (f: (String, EventValue))
    ensures
        f.deep_view() == (key@, EventValueView::Number(n)),
{
    (key.to_owned(), EventValue::Number(n))
}

fn choices(a: &str, b: &str) -> (f: (String, EventValue))
    ensures
        f.deep_view() == ("actions"@, EventValueView::Texts(seq![a@, b@])),
{
    let list = vec![a.to_owned(), b.to_owned()];
    assert(list.deep_view() =~= seq![a@, b@]);
    ("actions".to_owned(), EventValue::Texts(list))
}

fn choices3(a: &str, b: &str, c: &str) -> (f: (String, EventValue))
    ensures
        f.deep_view() == ("actions"@, EventValueView::Texts(seq![a@, b@, c@])),
{
    let list = vec![a.to_owned(), b.to_owned(), c.to_owned()];
    assert(list.deep_view() =~= seq![a@, b@, c@]);
    ("actions".to_owned(), EventValue::Texts(list))
}

/// A text field.
pub open spec fn f(key: Seq<char>, value: Seq<char>) -> (Seq<char>, EventValueView) {
    (key, EventValueView::Text(value))
}

/// The choice between two actions.
pub open spec fn two(a: Seq<char>, b: Seq<char>) -> (Seq<char>, EventValueView) {
    ("actions"@, EventValueView::Texts(seq![a, b]))
}

/// The choice between three actions.
pub open spec fn three(a: Seq<char>, b: Seq<char>, c: Seq<char>) -> (Seq<char>, EventValueView) {
    ("actions"@, EventValueView::Texts(seq![a, b, c]))
}

/// A claim asks the governors to hand over.
pub open spec fn transfer_request(claim_id: Seq<char>, candidate: Seq<char>) -> Seq<char> {
    json_text(
        seq![
            f("type"@, "governance"@),
            f("event"@, "transfer_request"@),
            f("claim_id"@, claim_id),
            f("candidate"@, candidate),
            f("action_url"@, "/governors/elections/"@ + claim_id),
            f("method"@, "POST"@),
            two("approve"@, "reject"@),
        ],
    )
}

pub(crate) fn transfer_request_text(claim_id: &str, candidate: &str) -> (s: String)
    ensures
        s@ == transfer_request(claim_id@, candidate@),
{
    let action_url_text = text::join2("/governors/elections/", claim_id);
    let fields: Vec<(String, EventValue)> = vec![
        field("type", "governance"),
        field("event", "transfer_request"),
        field("claim_id", claim_id),
        field("candidate", candidate),
        field("action_url", action_url_text.as_str()),
        field("method", "POST"),
        choices("approve", "reject"),
    ];
    assert(fields.deep_view() =~= seq![
        f("type"@, "governance"@),
        f("event"@, "transfer_request"@),
        f("claim_id"@, claim_id@),
        f("candidate"@, candidate@),
        f("action_url"@, "/governors/elections/"@ + claim_id@),
        f("method"@, "POST"@),
        two("approve"@, "reject"@),
    ]);
    object_text(&fields)
}

/// A claim asks a participant for its vote.
pub open spec fn election_request(claim_id: Seq<char>, candidate: Seq<char>) -> Seq<char> {
    json_text(
        seq![
            f("type"@, "governance"@),
            f("event"@, "election_request"@),
            f("claim_id"@, claim_id),
            f("candidate"@, candidate),
            f("action_url"@, "/governors/elections/"@ + claim_id),
            f("method"@, "POST"@),
            two("approve"@, "reject"@),
        ],
    )
}

pub(crate) fn election_request_text(claim_id: &str, candidate: &str) -> (s: String)
    ensures
        s@ == election_request(claim_id@, candidate@),
{
    let action_url_text = text::join2("/governors/elections/", claim_id);
    let fields: Vec<(String, EventValue)> = vec![
        field("type", "governance"),
        field("event", "election_request"),
        field("claim_id", claim_id),
        field("candidate", candidate),
        field("action_url", action_url_text.as_str()),
        field("method", "POST"),
        choices("approve", "reject"),
    ];
    assert(fields.deep_view() =~= seq![
        f("type"@, "governance"@),
        f("event"@, "election_request"@),
        f("claim_id"@, claim_id@),
        f("candidate"@, candidate@),
        f("action_url"@, "/governors/elections/"@ + claim_id@),
        f("method"@, "POST"@),
        two("approve"@, "reject"@),
    ]);
    object_text(&fields)
}

/// A claim was voted down.
pub open spec fn claim_rejected(claim_id: Seq<char>) -> Seq<char> {
    json_text(
        seq![
            f("type"@, "governance"@),
            f("event"@, "claim_rejected"@),
            f("claim_id"@, claim_id),
        ],
    )
}

pub(crate) fn claim_rejected_text(claim_id: &str) -> (s: String)
    ensures
        s@ == claim_rejected(claim_id@),
{
    let fields: Vec<(String, EventValue)> = vec![
        field("type", "governance"),
        field("event", "claim_rejected"),
        field("claim_id", claim_id),
    ];
    assert(fields.deep_view() =~= seq![
        f("type"@, "governance"@),
        f("event"@, "claim_rejected"@),
        f("claim_id"@, claim_id@),
    ]);
    object_text(&fields)
}

/// A claim was carried.
pub open spec fn governorship_granted(claim_id: Seq<char>, governor_token: Seq<char>) -> Seq<char> {
    json_text(
        seq![
            f("type"@, "governance"@),
            f("event"@, "governorship_granted"@),
            f("claim_id"@, claim_id),
            f("governor_token"@, governor_token),
        ],
    )
}

pub(crate) fn governorship_granted_text(claim_id: &str, governor_token: &str) -> (s: String)
    ensures
        s@ == governorship_granted(claim_id@, governor_token@),
{
    let fields: Vec<(String, EventValue)> = vec![
        field("type", "governance"),
        field("event", "governorship_granted"),
        field("claim_id", claim_id),
        field("governor_token", governor_token),
    ];
    assert(fields.deep_view() =~= seq![
        f("type"@, "governance"@),
        f("event"@, "governorship_granted"@),
        f("claim_id"@, claim_id@),
        f("governor_token"@, governor_token@),
    ]);
    object_text(&fields)
}

/// A message waits for the governor.
pub open spec fn mediation(mediation_id: Seq<char>, from: Seq<char>, to: Seq<char>, payload: Seq<char>, grant_id: Seq<char>, conditions: Option<Seq<char>>) -> Seq<char> {
    json_text(
        seq![
            f("type"@, "mediation"@),
            f("mediation_id"@, mediation_id),
            f("from"@, from),
            f("to"@, to),
            f("payload"@, payload),
            f("grant_id"@, grant_id),
            ("conditions"@, opt_value(conditions)),
        ],
    )
}

pub(crate) fn mediation_text(mediation_id: &str, from: &str, to: &str, payload: &str, grant_id: &str, conditions: Option<&str>) -> (s: String)
    ensures
        s@ == mediation(mediation_id@, from@, to@, payload@, grant_id@, conditions.deep_view()),
{
    let fields: Vec<(String, EventValue)> = vec![
        field("type", "mediation"),
        field("mediation_id", mediation_id),
        field("from", from),
        field("to", to),
        field("payload", payload),
        field("grant_id", grant_id),
        opt_field("conditions", conditions),
    ];
    assert(fields.deep_view() =~= seq![
        f("type"@, "mediation"@),
        f("mediation_id"@, mediation_id@),
        f("from"@, from@),
        f("to"@, to@),
        f("payload"@, payload@),
        f("grant_id"@, grant_id@),
        ("conditions"@, opt_value(conditions.deep_view())),
    ]);
    object_text(&fields)
}

/// A message passed under the eyes of the governor.
pub open spec fn delivery_notice(from: Seq<char>, to: Seq<char>, payload: Seq<char>, grant_id: Seq<char>, conditions: Option<Seq<char>>) -> Seq<char> {
    json_text(
        seq![
            f("type"@, "notify"@),
            f("from"@, from),
            f("to"@, to),
            f("payload"@, payload),
            f("grant_id"@, grant_id),
            ("conditions"@, opt_value(conditions)),
        ],
    )
}

pub(crate) fn delivery_notice_text(from: &str, to: &str, payload: &str, grant_id: &str, conditions: Option<&str>) -> (s: String)
    ensures
        s@ == delivery_notice(from@, to@, payload@, grant_id@, conditions.deep_view()),
{
    let fields: Vec<(String, EventValue)> = vec![
        field("type", "notify"),
        field("from", from),
        field("to", to),
        field("payload", payload),
        field("grant_id", grant_id),
        opt_field("conditions", conditions),
    ];
    assert(fields.deep_view() =~= seq![
        f("type"@, "notify"@),
        f("from"@, from@),
        f("to"@, to@),
        f("payload"@, payload@),
        f("grant_id"@, grant_id@),
        ("conditions"@, opt_value(conditions.deep_view())),
    ]);
    object_text(&fields)
}

/// A sender without a grant is told how to ask for one.
pub open spec fn no_grant_hint(to: Seq<char>) -> Seq<char> {
    json_text(
        seq![
            f("type"@, "system"@),
            f("event"@, "no_grant"@),
            f("to"@, to),
            f("hint"@, "No grant exists. Request access: POST /grants/request {\"to\":\""@ + to + "\",\"reason\":\"your reason\"}"@),
        ],
    )
}

pub(crate) fn no_grant_hint_text(to: &str) -> (s: String)
    ensures
        s@ == no_grant_hint(to@),
{
    let mut hint_text = String::new();
    hint_text.push_str("No grant exists. Request access: POST /grants/request {\"to\":\"");
    hint_text.push_str(to);
    hint_text.push_str("\",\"reason\":\"your reason\"}");
    assert(hint_text@ =~= "No grant exists. Request access: POST /grants/request {\"to\":\""@ + to@ + "\",\"reason\":\"your reason\"}"@);
    let fields: Vec<(String, EventValue)> = vec![
        field("type", "system"),
        field("event", "no_grant"),
        field("to", to),
        field("hint", hint_text.as_str()),
    ];
    assert(fields.deep_view() =~= seq![
        f("type"@, "system"@),
        f("event"@, "no_grant"@),
        f("to"@, to@),
        f("hint"@, "No grant exists. Request access: POST /grants/request {\"to\":\""@ + to@ + "\",\"reason\":\"your reason\"}"@),
    ]);
    object_text(&fields)
}

/// A file waits for its recipient.
pub open spec fn attachment_notice(attachment_id: Seq<char>, filename: Seq<char>, mime: Seq<char>, size: u64, from: Seq<char>, note: Option<Seq<char>>) -> Seq<char> {
    json_text(
        seq![
            f("type"@, "attachment"@),
            f("attachment_id"@, attachment_id),
            f("filename"@, filename),
            f("mime"@, mime),
            ("size"@, EventValueView::Number(size)),
            f("from"@, from),
            ("note"@, opt_value(note)),
            f("fetch"@, "GET /attachments/"@ + attachment_id),
        ],
    )
}

pub(crate) fn attachment_notice_text(attachment_id: &str, filename: &str, mime: &str, size: u64, from: &str, note: Option<&str>) -> (s: String)
    ensures
        s@ == attachment_notice(attachment_id@, filename@, mime@, size, from@, note.deep_view()),
{
    let fetch_text = text::join2("GET /attachments/", attachment_id);
    let fields: Vec<(String, EventValue)> = vec![
        field("type", "attachment"),
        field("attachment_id", attachment_id),
        field("filename", filename),
        field("mime", mime),
        number_field("size", size),
        field("from", from),
        opt_field("note", note),
        field("fetch", fetch_text.as_str()),
    ];
    assert(fields.deep_view() =~= seq![
        f("type"@, "attachment"@),
        f("attachment_id"@, attachment_id@),
        f("filename"@, filename@),
        f("mime"@, mime@),
        ("size"@, EventValueView::Number(size)),
        f("from"@, from@),
        ("note"@, opt_value(note.deep_view())),
        f("fetch"@, "GET /attachments/"@ + attachment_id@),
    ]);
    object_text(&fields)
}

/// A participant is asked for a grant; there is no governor to ask.
pub open spec fn consent_request(request_id: Seq<char>, from: Seq<char>, reason: Option<Seq<char>>) -> Seq<char> {
    json_text(
        seq![
            f("type"@, "grant_request"@),
            f("request_id"@, request_id),
            f("from"@, from),
            ("reason"@, opt_value(reason)),
            f("action_url"@, "/grants/requests/"@ + request_id),
            f("method"@, "PATCH"@),
            two("approve"@, "deny"@),
        ],
    )
}

pub(crate) fn consent_request_text(request_id: &str, from: &str, reason: Option<&str>) -> (s: String)
    ensures
        s@ == consent_request(request_id@, from@, reason.deep_view()),
{
    let action_url_text = text::join2("/grants/requests/", request_id);
    let fields: Vec<(String, EventValue)> = vec![
        field("type", "grant_request"),
        field("request_id", request_id),
        field("from", from),
        opt_field("reason", reason),
        field("action_url", action_url_text.as_str()),
        field("method", "PATCH"),
        choices("approve", "deny"),
    ];
    assert(fields.deep_view() =~= seq![
        f("type"@, "grant_request"@),
        f("request_id"@, request_id@),
        f("from"@, from@),
        ("reason"@, opt_value(reason.deep_view())),
        f("action_url"@, "/grants/requests/"@ + request_id@),
        f("method"@, "PATCH"@),
        two("approve"@, "deny"@),
    ]);
    object_text(&fields)
}

/// A participant is asked for a grant that the governor approved.
pub open spec fn recipient_request(request_id: Seq<char>, from: Seq<char>, reason: Option<Seq<char>>) -> Seq<char> {
    json_text(
        seq![
            f("type"@, "grant_request"@),
            f("request_id"@, request_id),
            f("from"@, from),
            ("reason"@, opt_value(reason)),
            f("action_url"@, "/grants/requests/"@ + request_id),
            f("method"@, "PATCH"@),
            three("approve"@, "deny"@, "hold"@),
        ],
    )
}

pub(crate) fn recipient_request_text(request_id: &str, from: &str, reason: Option<&str>) -> (s: String)
    ensures
        s@ == recipient_request(request_id@, from@, reason.deep_view()),
{
    let action_url_text = text::join2("/grants/requests/", request_id);
    let fields: Vec<(String, EventValue)> = vec![
        field("type", "grant_request"),
        field("request_id", request_id),
        field("from", from),
        opt_field("reason", reason),
        field("action_url", action_url_text.as_str()),
        field("method", "PATCH"),
        choices3("approve", "deny", "hold"),
    ];
    assert(fields.deep_view() =~= seq![
        f("type"@, "grant_request"@),
        f("request_id"@, request_id@),
        f("from"@, from@),
        ("reason"@, opt_value(reason.deep_view())),
        f("action_url"@, "/grants/requests/"@ + request_id@),
        f("method"@, "PATCH"@),
        three("approve"@, "deny"@, "hold"@),
    ]);
    object_text(&fields)
}

/// The governors are asked for a grant.
pub open spec fn governor_request(request_id: Seq<char>, from: Seq<char>, to: Seq<char>, reason: Option<Seq<char>>) -> Seq<char> {
    json_text(
        seq![
            f("type"@, "grant_request"@),
            f("request_id"@, request_id),
            f("from"@, from),
            f("to"@, to),
            ("reason"@, opt_value(reason)),
            f("action_url"@, "/grants/requests/"@ + request_id),
            f("method"@, "PATCH"@),
            three("approve"@, "deny"@, "hold"@),
        ],
    )
}

pub(crate) fn governor_request_text(request_id: &str, from: &str, to: &str, reason: Option<&str>) -> (s: String)
    ensures
        s@ == governor_request(request_id@, from@, to@, reason.deep_view()),
{
    let action_url_text = text::join2("/grants/requests/", request_id);
    let fields: Vec<(String, EventValue)> = vec![
        field("type", "grant_request"),
        field("request_id", request_id),
        field("from", from),
        field("to", to),
        opt_field("reason", reason),
        field("action_url", action_url_text.as_str()),
        field("method", "PATCH"),
        choices3("approve", "deny", "hold"),
    ];
    assert(fields.deep_view() =~= seq![
        f("type"@, "grant_request"@),
        f("request_id"@, request_id@),
        f("from"@, from@),
        f("to"@, to@),
        ("reason"@, opt_value(reason.deep_view())),
        f("action_url"@, "/grants/requests/"@ + request_id@),
        f("method"@, "PATCH"@),
        three("approve"@, "deny"@, "hold"@),
    ]);
    object_text(&fields)
}

/// A request has become a grant.
pub open spec fn grant_established(request_id: Seq<char>, to: Seq<char>) -> Seq<char> {
    json_text(
        seq![
            f("type"@, "grant_established"@),
            f("request_id"@, request_id),
            f("to"@, to),
        ],
    )
}

pub(crate) fn grant_established_text(request_id: &str, to: &str) -> (s: String)
    ensures
        s@ == grant_established(request_id@, to@),
{
    let fields: Vec<(String, EventValue)> = vec![
        field("type", "grant_established"),
        field("request_id", request_id),
        field("to", to),
    ];
    assert(fields.deep_view() =~= seq![
        f("type"@, "grant_established"@),
        f("request_id"@, request_id@),
        f("to"@, to@),
    ]);
    object_text(&fields)
}

/// A request was denied.
pub open spec fn grant_denied(request_id: Seq<char>, to: Seq<char>, reason: Seq<char>) -> Seq<char> {
    json_text(
        seq![
            f("type"@, "grant_denied"@),
            f("request_id"@, request_id),
            f("to"@, to),
            f("reason"@, reason),
        ],
    )
}

pub(crate) fn grant_denied_text(request_id: &str, to: &str, reason: &str) -> (s: String)
    ensures
        s@ == grant_denied(request_id@, to@, reason@),
{
    let fields: Vec<(String, EventValue)> = vec![
        field("type", "grant_denied"),
        field("request_id", request_id),
        field("to", to),
        field("reason", reason),
    ];
    assert(fields.deep_view() =~= seq![
        f("type"@, "grant_denied"@),
        f("request_id"@, request_id@),
        f("to"@, to@),
        f("reason"@, reason@),
    ]);
    object_text(&fields)
}

/// A request was put on hold.
pub open spec fn grant_held(request_id: Seq<char>, to: Seq<char>, reason: Seq<char>) -> Seq<char> {
    json_text(
        seq![
            f("type"@, "grant_held"@),
            f("request_id"@, request_id),
            f("to"@, to),
            f("reason"@, reason),
            f("hint"@, "Provide more context: POST /grants/request {\"to\":\""@ + to + "\",\"reason\":\"...\",\"request_id\":\""@ + request_id + "\"}"@),
        ],
    )
}

pub(crate) fn grant_held_text(request_id: &str, to: &str, reason: &str) -> (s: String)
    ensures
        s@ == grant_held(request_id@, to@, reason@),
{
    let mut hint_text = String::new();
    hint_text.push_str("Provide more context: POST /grants/request {\"to\":\"");
    hint_text.push_str(to);
    hint_text.push_str("\",\"reason\":\"...\",\"request_id\":\"");
    hint_text.push_str(request_id);
    hint_text.push_str("\"}");
    assert(hint_text@ =~= "Provide more context: POST /grants/request {\"to\":\""@ + to@ + "\",\"reason\":\"...\",\"request_id\":\""@ + request_id@ + "\"}"@);
    let fields: Vec<(String, EventValue)> = vec![
        field("type", "grant_held"),
        field("request_id", request_id),
        field("to", to),
        field("reason", reason),
        field("hint", hint_text.as_str()),
    ];
    assert(fields.deep_view() =~= seq![
        f("type"@, "grant_held"@),
        f("request_id"@, request_id@),
        f("to"@, to@),
        f("reason"@, reason@),
        f("hint"@, "Provide more context: POST /grants/request {\"to\":\""@ + to@ + "\",\"reason\":\"...\",\"request_id\":\""@ + request_id@ + "\"}"@),
    ]);
    object_text(&fields)
}

/// A grant was revoked.
pub open spec fn grant_revoked(grant_id: Seq<char>) -> Seq<char> {
    json_text(
        seq![
            f("type"@, "service"@),
            f("event"@, "grant_revoked"@),
            f("grant_id"@, grant_id),
            f("reason"@, "governor_revoked"@),
        ],
    )
}

pub(crate) fn grant_revoked_text(grant_id: &str) -> (s: String)
    ensures
        s@ == grant_revoked(grant_id@),
{
    let fields: Vec<(String, EventValue)> = vec![
        field("type", "service"),
        field("event", "grant_revoked"),
        field("grant_id", grant_id),
        field("reason", "governor_revoked"),
    ];
    assert(fields.deep_view() =~= seq![
        f("type"@, "service"@),
        f("event"@, "grant_revoked"@),
        f("grant_id"@, grant_id@),
        f("reason"@, "governor_revoked"@),
    ]);
    object_text(&fields)
}

/// A token is in use from two addresses.
pub open spec fn concurrent_use_alert(token: Seq<char>, new_ip: Seq<char>, last_ip: Seq<char>) -> Seq<char> {
    json_text(
        seq![
            f("type"@, "concurrent_use_alert"@),
            f("token"@, token),
            f("new_ip"@, new_ip),
            f("last_ip"@, last_ip),
        ],
    )
}

pub(crate) fn concurrent_use_alert_text(token: &str, new_ip: &str, last_ip: &str) -> (s: String)
    ensures
        s@ == concurrent_use_alert(token@, new_ip@, last_ip@),
{
    let fields: Vec<(String, EventValue)> = vec![
        field("type", "concurrent_use_alert"),
        field("token", token),
        field("new_ip", new_ip),
        field("last_ip", last_ip),
    ];
    assert(fields.deep_view() =~= seq![
        f("type"@, "concurrent_use_alert"@),
        f("token"@, token@),
        f("new_ip"@, new_ip@),
        f("last_ip"@, last_ip@),
    ]);
    object_text(&fields)
}

/// The first event of a stream. `taken` is the name that was asked for and that another identity
/// has, where there is one; there is never a token for settling that.
pub open spec fn welcome(subscription_id: Seq<char>, name: Option<Seq<char>>, taken: Option<Seq<char>>) -> Seq<char> {
    json_text(
        seq![
            f("type"@, "service"@),
            f("event"@, "welcome"@),
            f("subscription_id"@, subscription_id),
            ("name"@, opt_value(name)),
            ("name_in_use"@, EventValueView::Flag(taken is Some)),
            ("holder_identity"@, opt_value(taken)),
            ("resolution_token"@, EventValueView::Null),
            f("instructions"@, "Call POST /announce to register your name. You will receive notify events when messages arrive — call POST /messages/dequeue to retrieve them."@),
        ],
    )
}

pub(crate) fn welcome_text(subscription_id: &str, name: Option<&str>, taken: Option<&str>) -> (s: String)
    ensures
        s@ == welcome(subscription_id@, name.deep_view(), taken.deep_view()),
{
    let fields: Vec<(String, EventValue)> = vec![
        field("type", "service"),
        field("event", "welcome"),
        field("subscription_id", subscription_id),
        opt_field("name", name),
        flag_field("name_in_use", taken.is_some()),
        opt_field("holder_identity", taken),
        opt_field("resolution_token", None),
        field("instructions", "Call POST /announce to register your name. You will receive notify events when messages arrive — call POST /messages/dequeue to retrieve them."),
    ];
    assert(fields.deep_view() =~= seq![
        f("type"@, "service"@),
        f("event"@, "welcome"@),
        f("subscription_id"@, subscription_id@),
        ("name"@, opt_value(name.deep_view())),
        ("name_in_use"@, EventValueView::Flag(taken.deep_view() is Some)),
        ("holder_identity"@, opt_value(taken.deep_view())),
        ("resolution_token"@, EventValueView::Null),
        f("instructions"@, "Call POST /announce to register your name. You will receive notify events when messages arrive — call POST /messages/dequeue to retrieve them."@),
    ]);
    object_text(&fields)
}

/// The first event of a stream whose token was made for a governor.
pub open spec fn minted_welcome(token: Seq<char>, name: Option<Seq<char>>, taken: Option<Seq<char>>) -> Seq<char> {
    json_text(
        seq![
            f("type"@, "service"@),
            f("event"@, "welcome"@),
            f("subscription_id"@, token),
            f("token"@, token),
            ("name"@, opt_value(name)),
            ("name_in_use"@, EventValueView::Flag(taken is Some)),
            ("holder_identity"@, opt_value(taken)),
            ("resolution_token"@, EventValueView::Null),
            f("instructions"@, "Call POST /announce to register your name. You will receive notify events when messages arrive — call POST /messages/dequeue to retrieve them."@),
        ],
    )
}

pub(crate) fn minted_welcome_text(token: &str, name: Option<&str>, taken: Option<&str>) -> (s: String)
    ensures
        s@ == minted_welcome(token@, name.deep_view(), taken.deep_view()),
{
    let fields: Vec<(String, EventValue)> = vec![
        field("type", "service"),
        field("event", "welcome"),
        field("subscription_id", token),
        field("token", token),
        opt_field("name", name),
        flag_field("name_in_use", taken.is_some()),
        opt_field("holder_identity", taken),
        opt_field("resolution_token", None),
        field("instructions", "Call POST /announce to register your name. You will receive notify events when messages arrive — call POST /messages/dequeue to retrieve them."),
    ];
    assert(fields.deep_view() =~= seq![
        f("type"@, "service"@),
        f("event"@, "welcome"@),
        f("subscription_id"@, token@),
        f("token"@, token@),
        ("name"@, opt_value(name.deep_view())),
        ("name_in_use"@, EventValueView::Flag(taken.deep_view() is Some)),
        ("holder_identity"@, opt_value(taken.deep_view())),
        ("resolution_token"@, EventValueView::Null),
        f("instructions"@, "Call POST /announce to register your name. You will receive notify events when messages arrive — call POST /messages/dequeue to retrieve them."@),
    ]);
    object_text(&fields)
}

/// The number of the latest message, sent when a stream opens.
pub open spec fn subscribed(last_message_id: u64) -> Seq<char> {
    json_text(
        seq![
            f("type"@, "sub"@),
            ("last_message_id"@, EventValueView::Number(last_message_id)),
        ],
    )
}

pub(crate) fn subscribed_text(last_message_id: u64) -> (s: String)
    ensures
        s@ == subscribed(last_message_id),
{
    let fields: Vec<(String, EventValue)> = vec![
        field("type", "sub"),
        number_field("last_message_id", last_message_id),
    ];
    assert(fields.deep_view() =~= seq![
        f("type"@, "sub"@),
        ("last_message_id"@, EventValueView::Number(last_message_id)),
    ]);
    object_text(&fields)
}

/// The service has its first stream.
pub open spec fn sim_online() -> Seq<char> {
    json_text(
        seq![
            f("type"@, "service"@),
            f("event"@, "sim_online"@),
        ],
    )
}

pub(crate) fn sim_online_text() -> (s: String)
    ensures
        s@ == sim_online(),
{
    let fields: Vec<(String, EventValue)> = vec![
        field("type", "service"),
        field("event", "sim_online"),
    ];
    assert(fields.deep_view() =~= seq![
        f("type"@, "service"@),
        f("event"@, "sim_online"@),
    ]);
    object_text(&fields)
}

/// A participant came or went.
pub open spec fn presence(event: Seq<char>, participant: Seq<char>) -> Seq<char> {
    json_text(
        seq![
            f("type"@, "presence"@),
            f("event"@, event),
            f("participant"@, participant),
        ],
    )
}

pub(crate) fn presence_text(event: &str, participant: &str) -> (s: String)
    ensures
        s@ == presence(event@, participant@),
{
    let fields: Vec<(String, EventValue)> = vec![
        field("type", "presence"),
        field("event", event),
        field("participant", participant),
    ];
    assert(fields.deep_view() =~= seq![
        f("type"@, "presence"@),
        f("event"@, event@),
        f("participant"@, participant@),
    ]);
    object_text(&fields)
}

/// What a governor may do.
pub open spec fn governor_actions() -> Seq<(Seq<char>, Seq<char>)> {
    seq![
        ("grant_action"@, "PATCH /grants/requests/{id}  body: {action: approve|deny|hold, reason?, expiry_secs?}"@),
        ("mediate"@, "POST /governors/mediate"@),
        ("events"@, "GET /governors/events"@),
    ]
}

/// A governor is told of its role.
pub open spec fn governor_role() -> Seq<char> {
    json_text(
        seq![
            f("type"@, "service"@),
            f("kind"@, "governor_role"@),
            f("role"@, "governor"@),
            f("message"@, "You are the governor of this SIM instance. Your responsibilities: (1) Approve or deny grant requests via PATCH /grants/requests/{id}. (2) Mediate disputed messages via POST /governors/mediate. (3) Monitor governor events via GET /governors/events. Your token is valid for this session."@),
            ("actions"@, EventValueView::Table(governor_actions())),
        ],
    )
}

pub(crate) fn governor_role_text() -> (s: String)
    ensures
        s@ == governor_role(),
{
    let rows: Vec<(String, String)> = vec![
        ("grant_action".to_owned(), "PATCH /grants/requests/{id}  body: {action: approve|deny|hold, reason?, expiry_secs?}".to_owned()),
        ("mediate".to_owned(), "POST /governors/mediate".to_owned()),
        ("events".to_owned(), "GET /governors/events".to_owned()),
    ];
    assert(rows.deep_view() =~= governor_actions());
    let fields: Vec<(String, EventValue)> = vec![
        field("type", "service"),
        field("kind", "governor_role"),
        field("role", "governor"),
        field("message", "You are the governor of this SIM instance. Your responsibilities: (1) Approve or deny grant requests via PATCH /grants/requests/{id}. (2) Mediate disputed messages via POST /governors/mediate. (3) Monitor governor events via GET /governors/events. Your token is valid for this session."),
        ("actions".to_owned(), EventValue::Table(rows)),
    ];
    assert(fields.deep_view() =~= seq![
        f("type"@, "service"@),
        f("kind"@, "governor_role"@),
        f("role"@, "governor"@),
        f("message"@, "You are the governor of this SIM instance. Your responsibilities: (1) Approve or deny grant requests via PATCH /grants/requests/{id}. (2) Mediate disputed messages via POST /governors/mediate. (3) Monitor governor events via GET /governors/events. Your token is valid for this session."@),
        ("actions"@, EventValueView::Table(governor_actions())),
    ]);
    object_text(&fields)
}

/// A stream is told how many messages wait.
pub open spec fn notify(pending: nat) -> Seq<char> {
    "{\"type\":\"notify\",\"pending\":"@ + text::decimal(pending) + "}"@
}

pub(crate) fn notify_text(pending: usize) -> (s: String)
    ensures
        s@ == notify(pending as nat),
{
    let n = text::decimal_text(pending as u64);
    text::join3("{\"type\":\"notify\",\"pending\":", n.as_str(), "}")
}

/// The stream's token was revoked.
pub open spec fn revoked() -> Seq<char> {
    "{\"type\":\"service\",\"event\":\"revoked\"}"@
}

/// The stream was cancelled by its owner.
pub open spec fn cancelled() -> Seq<char> {
    "{\"type\":\"service\",\"event\":\"cancelled\"}"@
}

/// The name was bound to another token by the governor.
pub open spec fn rebound() -> Seq<char> {
    "{\"type\":\"service\",\"event\":\"superseded\",\"reason\":\"governor_rebind\"}"@
}

/// The token opened another stream.
pub open spec fn superseded() -> Seq<char> {
    "{\"type\":\"service\",\"event\":\"superseded\",\"reason\":\"new_listen_created\"}"@
}

/// The token has become permanent.
pub open spec fn identity_persisted() -> Seq<char> {
    "{\"type\":\"service\",\"event\":\"identity_persisted\"}"@
}

pub(crate) fn revoked_text() -> (s: String)
    ensures
        s@ == revoked(),
{
    "{\"type\":\"service\",\"event\":\"revoked\"}".to_owned()
}

pub(crate) fn cancelled_text() -> (s: String)
    ensures
        s@ == cancelled(),
{
    "{\"type\":\"service\",\"event\":\"cancelled\"}".to_owned()
}

pub(crate) fn rebound_text() -> (s: String)
    ensures
        s@ == rebound(),
{
    "{\"type\":\"service\",\"event\":\"superseded\",\"reason\":\"governor_rebind\"}".to_owned()
}

pub(crate) fn superseded_text() -> (s: String)
    ensures
        s@ == superseded(),
{
    "{\"type\":\"service\",\"event\":\"superseded\",\"reason\":\"new_listen_created\"}".to_owned()
}

pub(crate) fn identity_persisted_text() -> (s: String)
    ensures
        s@ == identity_persisted(),
{
    "{\"type\":\"service\",\"event\":\"identity_persisted\"}".to_owned()
}

} // verus!
