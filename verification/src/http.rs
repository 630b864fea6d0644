//! Requests and replies: what a request's headers say, and what is answered.

use crate::clock;
use crate::clock::{Duration, Instant};
use crate::config;
use crate::error::{Error, ErrorView};
use crate::text;
use vstd::prelude::*;

pub mod file_handlers;
pub mod grant_handlers;
pub mod handlers;
pub mod room_handlers;
pub mod routes;

verus! {

/// A value in a reply.
pub enum Scalar {
    Null,
    Text(String),
    Number(u64),
    Flag(bool),
}

/// What a value holds.
pub enum ScalarView {
    Null,
    Text(Seq<char>),
    Number(u64),
    Flag(bool),
}

impl DeepView for Scalar {
    type V = ScalarView;

    open spec fn deep_view(&self) -> ScalarView {
        match self {
            Scalar::Null => ScalarView::Null,
            Scalar::Text(s) => ScalarView::Text(s@),
            Scalar::Number(n) => ScalarView::Number(*n),
            Scalar::Flag(b) => ScalarView::Flag(*b),
        }
    }
}

/// A named value in a reply.
pub type Field = (String, Scalar);

/// What the fields of an object hold.
pub type Fields = Seq<(Seq<char>, ScalarView)>;

/// The body of a reply.
pub enum Body {
    Empty,
    /// Plain text.
    Text(String),
    /// A JSON object.
    Object(Vec<Field>),
    /// A JSON object with one field, a list of objects.
    Listing { key: String, rows: Vec<Vec<Field>> },
    /// A JSON object with the field `message`, an object or null, and the field `remaining`
    /// where it is given.
    Message { message: Option<Vec<Field>>, remaining: Option<u64> },
}

/// What a body holds.
pub enum BodyView {
    Empty,
    Text(Seq<char>),
    Object(Fields),
    Listing { key: Seq<char>, rows: Seq<Fields> },
    Message { message: Option<Fields>, remaining: Option<u64> },
}

impl DeepView for Body {
    type V = BodyView;

    open spec fn deep_view(&self) -> BodyView {
        match self {
            Body::Empty => BodyView::Empty,
            Body::Text(s) => BodyView::Text(s@),
            Body::Object(fields) => BodyView::Object(fields.deep_view()),
            Body::Listing { key, rows } => BodyView::Listing {
                key: key@,
                rows: rows.deep_view(),
            },
            Body::Message { message, remaining } => BodyView::Message {
                message: message.deep_view(),
                remaining: *remaining,
            },
        }
    }
}

/// A status and a body.
pub struct Reply {
    pub status: u16,
    pub body: Body,
}

/// What a reply holds.
pub struct ReplyView {
    pub status: u16,
    pub body: BodyView,
}

impl DeepView for Reply {
    type V = ReplyView;

    open spec fn deep_view(&self) -> ReplyView {
        ReplyView { status: self.status, body: self.body.deep_view() }
    }
}

// ── Replies ──────────────────────────────────────────────────────────────────

/// A status alone.
pub open spec fn bare(status: u16) -> ReplyView {
    ReplyView { status, body: BodyView::Empty }
}

/// A status alone.
pub fn bare_reply(status: u16) -> (r: Reply)
    ensures
        r.deep_view() == bare(status),
{
    Reply { status, body: Body::Empty }
}

/// An object with one text.
pub open spec fn said(status: u16, key: Seq<char>, value: Seq<char>) -> ReplyView {
    ReplyView { status, body: BodyView::Object(seq![(key, ScalarView::Text(value))]) }
}

/// An object with one text.
pub fn say(status: u16, key: &str, value: &str) -> (r: Reply)
    ensures
        r.deep_view() == said(status, key@, value@),
{
    let fields: Vec<Field> = vec![(key.to_owned(), Scalar::Text(value.to_owned()))];
    assert(fields.deep_view() =~= seq![(key@, ScalarView::Text(value@))]);
    Reply { status, body: Body::Object(fields) }
}

/// An object with two texts.
pub open spec fn said_two(
    status: u16,
    key: Seq<char>,
    value: Seq<char>,
    second: Seq<char>,
    other: Seq<char>,
) -> ReplyView {
    ReplyView {
        status,
        body: BodyView::Object(
            seq![(key, ScalarView::Text(value)), (second, ScalarView::Text(other))],
        ),
    }
}

/// An object with two texts.
pub fn say_two(status: u16, key: &str, value: &str, second: &str, other: &str) -> (r: Reply)
    ensures
        r.deep_view() == said_two(status, key@, value@, second@, other@),
{
    let fields: Vec<Field> = vec![
        (key.to_owned(), Scalar::Text(value.to_owned())),
        (second.to_owned(), Scalar::Text(other.to_owned())),
    ];
    assert(fields.deep_view() =~= seq![
        (key@, ScalarView::Text(value@)),
        (second@, ScalarView::Text(other@)),
    ]);
    Reply { status, body: Body::Object(fields) }
}

/// A refusal: a code and a sentence.
pub open spec fn refused(status: u16, code: Seq<char>, message: Seq<char>) -> ReplyView {
    said_two(status, "error"@, code, "message"@, message)
}

/// A refusal: a code and a sentence.
pub fn refuse(status: u16, code: &str, message: &str) -> (r: Reply)
    ensures
        r.deep_view() == refused(status, code@, message@),
{
    say_two(status, "error", code, "message", message)
}

/// The refusal of a request without a token.
pub open spec fn auth_failed() -> ReplyView {
    refused(401, "AUTH_FAILED"@, "authentication required"@)
}

/// The refusal of a request without a token.
pub fn auth_failed_reply() -> (r: Reply)
    ensures
        r.deep_view() == auth_failed(),
{
    refuse(401, "AUTH_FAILED", "authentication required")
}

impl ErrorView {
    /// The status that goes with an error. Those that no call of the hub gives are internal.
    pub open spec fn status(self) -> u16 {
        match self {
            ErrorView::AuthFailed => 401,
            ErrorView::TokenExpired => 401,
            ErrorView::TokenRejected => 401,
            ErrorView::TokenRevoked => 401,
            ErrorView::Forbidden => 403,
            ErrorView::NoGrant => 403,
            ErrorView::GrantExpired => 403,
            ErrorView::GrantExhausted => 403,
            ErrorView::BriefRequired => 403,
            ErrorView::Blocked => 403,
            ErrorView::GrantBlocked(_) => 403,
            ErrorView::AnnounceRequired => 409,
            ErrorView::NameInUse => 409,
            ErrorView::RecipientOffline => 409,
            ErrorView::MediationUnavailable => 409,
            ErrorView::RequestPending => 409,
            ErrorView::ActiveSubscription => 409,
            ErrorView::RecipientUnknown => 404,
            ErrorView::AttachmentNotFound => 404,
            ErrorView::BadRequest => 400,
            _ => 500,
        }
    }
}

/// The status that goes with an error.
pub fn error_status(e: &Error) -> (status: u16)
    ensures
        status == e.deep_view().status(),
{
    match e {
        Error::AuthFailed => 401,
        Error::TokenExpired => 401,
        Error::TokenRejected => 401,
        Error::TokenRevoked => 401,
        Error::Forbidden => 403,
        Error::NoGrant => 403,
        Error::GrantExpired => 403,
        Error::GrantExhausted => 403,
        Error::BriefRequired => 403,
        Error::Blocked => 403,
        Error::GrantBlocked(_) => 403,
        Error::AnnounceRequired => 409,
        Error::NameInUse => 409,
        Error::RecipientOffline => 409,
        Error::MediationUnavailable => 409,
        Error::RequestPending => 409,
        Error::ActiveSubscription => 409,
        Error::RecipientUnknown => 404,
        Error::AttachmentNotFound => 404,
        Error::BadRequest => 400,
        _ => 500,
    }
}

/// The reply to an error: its code and sentence, with a hint where authorization is missing and
/// with the reason of a denial.
pub open spec fn error_reply(e: ErrorView) -> ReplyView {
    let base = seq![
        ("error"@, ScalarView::Text(e.code())),
        ("message"@, ScalarView::Text(e.message())),
    ];
    ReplyView {
        status: e.status(),
        body: BodyView::Object(
            match e {
                ErrorView::BriefRequired => base.push(
                    (
                        "hint"@,
                        ScalarView::Text(
                            "No authorization covers this message. Resend with a 'reason' field to request authorization from the governor."@,
                        ),
                    ),
                ),
                ErrorView::GrantBlocked(reason) => base.push(
                    ("reason"@, ScalarView::Text(reason)),
                ),
                _ => base,
            },
        ),
    }
}

/// The reply to an error.
pub fn err_response(e: Error) -> (r: Reply)
    ensures
        r.deep_view() == error_reply(e.deep_view()),
{
    let status: u16 = error_status(&e);
    let mut fields: Vec<Field> = vec![
        ("error".to_owned(), Scalar::Text(e.code().to_owned())),
        ("message".to_owned(), Scalar::Text(e.message().to_owned())),
    ];
    let ghost base = seq![
        ("error"@, ScalarView::Text(e.deep_view().code())),
        ("message"@, ScalarView::Text(e.deep_view().message())),
    ];
    assert(fields.deep_view() =~= base);
    match e {
        Error::BriefRequired => {
            fields.push(
                (
                    "hint".to_owned(),
                    Scalar::Text(
                        "No authorization covers this message. Resend with a 'reason' field to request authorization from the governor.".to_owned(),
                    ),
                ),
            );
            assert(fields.deep_view() =~= base.push(
                (
                    "hint"@,
                    ScalarView::Text(
                        "No authorization covers this message. Resend with a 'reason' field to request authorization from the governor."@,
                    ),
                ),
            ));
        },
        Error::GrantBlocked(reason) => {
            fields.push(("reason".to_owned(), Scalar::Text(reason)));
            assert(fields.deep_view() =~= base.push(("reason"@, ScalarView::Text(reason@))));
        },
        _ => {},
    }
    Reply { status, body: Body::Object(fields) }
}

/// The reply to something that was done or refused.
pub open spec fn done(r: Result<(), ErrorView>) -> ReplyView {
    match r {
        Ok(_) => bare(204),
        Err(e) => error_reply(e),
    }
}

/// The reply to something that was done or refused.
pub fn done_reply(r: Result<(), Error>) -> (reply: Reply)
    ensures
        reply.deep_view() == done(crate::error::outcome(r)),
{
    match r {
        Ok(_) => bare_reply(204),
        Err(e) => err_response(e),
    }
}

// ── Headers ──────────────────────────────────────────────────────────────────

/// The token that the `Authorization` header gives.
pub open spec fn bearer(authorization: Option<Seq<char>>) -> Option<Seq<char>> {
    match authorization {
        Some(h) => text::without_prefix(h, "Bearer "@),
        None => None,
    }
}

/// The token that the `Authorization` header gives.
pub fn bearer_token(authorization: Option<&str>) -> (r: Option<String>)
    ensures
        r.deep_view() == bearer(authorization.deep_view()),
{
    match authorization {
        Some(h) => text::strip_prefix(h, "Bearer "),
        None => None,
    }
}

/// The first address of a forwarding header.
pub open spec fn first_address(header: Seq<char>) -> Seq<char> {
    text::trimmed(text::before_first(header, ','))
}

/// The first address of a forwarding header.
pub fn peer_address(header: &str) -> (s: String)
    ensures
        s@ == first_address(header@),
{
    let first = text::before_first_text(header, ',');
    text::trim_text(first.as_str())
}

/// The type of a file, from the `Content-Type` header without its parameters.
pub open spec fn mime(header: Option<Seq<char>>) -> Seq<char> {
    match header {
        Some(h) => {
            let kind = text::trimmed(text::before_first(h, ';'));
            if kind.len() > 0 {
                kind
            } else {
                "application/octet-stream"@
            }
        },
        None => "application/octet-stream"@,
    }
}

/// The type of a file, from the `Content-Type` header without its parameters.
pub fn mime_of(header: Option<&str>) -> (s: String)
    ensures
        s@ == mime(header.deep_view()),
{
    if let Some(h) = header {
        let first = text::before_first_text(h, ';');
        let kind = text::trim_text(first.as_str());
        if text::chars_of(kind.as_str()).len() > 0 {
            return kind;
        }
    }
    "application/octet-stream".to_owned()
}

/// A control character.
pub open spec fn is_control(c: char) -> bool {
    c as u32 <= 0x1f || 0x7f <= c as u32 <= 0x9f
}

/// A character that may stand in a file name.
pub open spec fn in_filename(c: char) -> bool {
    !is_control(c) && c != '"' && c != '\\'
}

/// A file name that is safe in a header: without control characters, quotes, backslashes and
/// white space around it, at most 255 characters long, and never empty.
pub open spec fn safe_filename(name: Seq<char>) -> Seq<char> {
    let clean = text::trimmed(name.filter(|c: char| in_filename(c)));
    if clean.len() == 0 {
        "file"@
    } else if clean.len() <= 255 {
        clean
    } else {
        clean.take(255)
    }
}

fn allowed_in_filename(c: char) -> (r: bool)
    ensures
        r == in_filename(c),
{
    let u: u32 = c as u32;
    !(u <= 0x1f || (0x7f <= u && u <= 0x9f)) && c != '"' && c != '\\'
}

/// A file name that is safe in a header.
pub fn sanitize_filename(name: &str) -> (s: String)
    ensures
        s@ == safe_filename(name@),
{
    let chars = text::chars_of(name);
    let ghost p = |c: char| in_filename(c);
    let mut kept: Vec<char> = Vec::new();
    let mut i: usize = 0;
    proof {
        crate::seqs::lemma_filter_empty(name@.take(0), p);
    }
    while i < chars.len()
        invariant
            i <= chars@.len(),
            chars@ == name@,
            p == (|c: char| in_filename(c)),
            kept@ == name@.take(i as int).filter(p),
        decreases chars@.len() - i,
    {
        proof {
            crate::seqs::lemma_filter_next(name@, i as int, p);
        }
        if allowed_in_filename(chars[i]) {
            kept.push(chars[i]);
        }
        i += 1;
    }
    assert(name@.take(i as int) =~= name@);
    assert(kept@.subrange(0, kept@.len() as int) =~= kept@);
    let raw = text::text_of(&kept, 0, kept.len());
    let clean = text::trim_text(raw.as_str());
    let left = text::chars_of(clean.as_str());
    if left.len() == 0 {
        "file".to_owned()
    } else if left.len() <= 255 {
        clean
    } else {
        assert(left@.subrange(0, 255) =~= left@.take(255));
        text::text_of(&left, 0, 255)
    }
}

// ── Settings ─────────────────────────────────────────────────────────────────

/// How long a file is kept, and how large it may be, from the texts that the environment gives:
/// a minute to thirty days, a day where nothing is set; 1 KiB to 200 MiB, 10 MiB where nothing is
/// set.
pub fn attachment_config(ttl: Option<&str>, max_bytes: Option<&str>) -> (r: (Duration, u64))
    ensures
        r.0 == config::clamped(config::setting(ttl.deep_view(), 86_400), 60, 2_592_000)
            * clock::NANOS_PER_SEC,
        r.1 == config::clamped(
            config::setting(max_bytes.deep_view(), 10_485_760),
            1024,
            209_715_200,
        ),
{
    (
        config::clamp_env_secs(ttl, 60, 2_592_000, 86_400),
        config::clamp_setting(max_bytes, 1024, 209_715_200, 10_485_760),
    )
}

/// When registration without a governor ends, from the text that the environment gives. Without
/// a number, or with zero, it does not end.
pub open spec fn bootstrap_end(timeout: Option<Seq<char>>, now: Instant) -> Option<Instant> {
    match timeout {
        Some(s) => match text::parsed(s, u64::MAX as nat) {
            Some(n) => if n > 0 {
                Some((now + n * clock::NANOS_PER_SEC) as Instant)
            } else {
                None
            },
            None => None,
        },
        None => None,
    }
}

/// When registration without a governor ends, from the text that the environment gives.
pub fn bootstrap_deadline(timeout: Option<&str>, now: Instant) -> (r: Option<Instant>)
    requires
        now <= clock::LAST_INSTANT,
    ensures
        r == bootstrap_end(timeout.deep_view(), now),
{
    match timeout {
        Some(s) => match text::parse_decimal(s, u64::MAX) {
            Some(n) => if n > 0 {
                Some(now + clock::secs(n))
            } else {
                None
            },
            None => None,
        },
        None => None,
    }
}

/// The operator's secret, from the text that the environment gives; an empty one is none.
pub open spec fn admin_secret(value: Option<Seq<char>>) -> Option<Seq<char>> {
    match value {
        Some(s) => if s.len() > 0 {
            Some(s)
        } else {
            None
        },
        None => None,
    }
}

/// The operator's secret, from the text that the environment gives; an empty one is none.
pub fn admin_secret_of(value: Option<&str>) -> (r: Option<String>)
    ensures
        r.deep_view() == admin_secret(value.deep_view()),
{
    match value {
        Some(s) => if text::chars_of(s).len() > 0 {
            Some(s.to_owned())
        } else {
            None
        },
        None => None,
    }
}

} // verus!
