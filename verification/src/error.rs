//! Failures, their codes and their messages.

use vstd::prelude::*;

verus! {

/// Why a request was refused.
#[derive(Debug)]
pub enum Error {
    AuthFailed,
    TokenExpired,
    Forbidden,
    NameInUse,
    NoGrant,
    GrantExpired,
    GrantExhausted,
    RecipientOffline,
    RecipientUnknown,
    BadRequest,
    BriefRequired,
    MediationUnavailable,
    Blocked,
    TokenRejected,
    TokenRevoked,
    RequestPending,
    /// The sender has not announced a name.
    AnnounceRequired,
    /// A standing denial covers the pair; carries its reason.
    GrantBlocked(String),
    /// A handle of that name exists.
    HandleExists,
    /// No such handle.
    IdentityNotFound,
    /// The connection probe is unknown or has lapsed.
    ProbeExpired,
    /// The connection probe does not match.
    ProbeInvalid,
    /// The sender has not completed the probe handshake.
    NotConnected,
    /// The attachment is unknown or has expired.
    AttachmentNotFound,
    /// A failure on the server side.
    Internal,
    /// The token has an active stream already.
    ActiveSubscription,
}

/// An error with the text it carries.
pub enum ErrorView {
    AuthFailed,
    TokenExpired,
    Forbidden,
    NameInUse,
    NoGrant,
    GrantExpired,
    GrantExhausted,
    RecipientOffline,
    RecipientUnknown,
    BadRequest,
    BriefRequired,
    MediationUnavailable,
    Blocked,
    TokenRejected,
    TokenRevoked,
    RequestPending,
    AnnounceRequired,
    GrantBlocked(Seq<char>),
    HandleExists,
    IdentityNotFound,
    ProbeExpired,
    ProbeInvalid,
    NotConnected,
    AttachmentNotFound,
    Internal,
    ActiveSubscription,
}

impl DeepView for Error {
    type V = ErrorView;

    open spec fn deep_view(&self) -> ErrorView {
        match self {
            Error::AuthFailed => ErrorView::AuthFailed,
            Error::TokenExpired => ErrorView::TokenExpired,
            Error::Forbidden => ErrorView::Forbidden,
            Error::NameInUse => ErrorView::NameInUse,
            Error::NoGrant => ErrorView::NoGrant,
            Error::GrantExpired => ErrorView::GrantExpired,
            Error::GrantExhausted => ErrorView::GrantExhausted,
            Error::RecipientOffline => ErrorView::RecipientOffline,
            Error::RecipientUnknown => ErrorView::RecipientUnknown,
            Error::BadRequest => ErrorView::BadRequest,
            Error::BriefRequired => ErrorView::BriefRequired,
            Error::MediationUnavailable => ErrorView::MediationUnavailable,
            Error::Blocked => ErrorView::Blocked,
            Error::TokenRejected => ErrorView::TokenRejected,
            Error::TokenRevoked => ErrorView::TokenRevoked,
            Error::RequestPending => ErrorView::RequestPending,
            Error::AnnounceRequired => ErrorView::AnnounceRequired,
            Error::GrantBlocked(s) => ErrorView::GrantBlocked(s@),
            Error::HandleExists => ErrorView::HandleExists,
            Error::IdentityNotFound => ErrorView::IdentityNotFound,
            Error::ProbeExpired => ErrorView::ProbeExpired,
            Error::ProbeInvalid => ErrorView::ProbeInvalid,
            Error::NotConnected => ErrorView::NotConnected,
            Error::AttachmentNotFound => ErrorView::AttachmentNotFound,
            Error::Internal => ErrorView::Internal,
            Error::ActiveSubscription => ErrorView::ActiveSubscription,
        }
    }
}

impl ErrorView {
    /// The code on the wire.
    pub open spec fn code(self) -> Seq<char> {
        match self {
            ErrorView::AuthFailed => "AUTH_FAILED"@,
            ErrorView::TokenExpired => "TOKEN_EXPIRED"@,
            ErrorView::Forbidden => "FORBIDDEN"@,
            ErrorView::NameInUse => "NAME_IN_USE"@,
            ErrorView::NoGrant => "NO_GRANT"@,
            ErrorView::GrantExpired => "GRANT_EXPIRED"@,
            ErrorView::GrantExhausted => "GRANT_EXHAUSTED"@,
            ErrorView::RecipientOffline => "RECIPIENT_OFFLINE"@,
            ErrorView::RecipientUnknown => "RECIPIENT_UNKNOWN"@,
            ErrorView::BadRequest => "BAD_REQUEST"@,
            ErrorView::BriefRequired => "BRIEF_REQUIRED"@,
            ErrorView::MediationUnavailable => "MEDIATION_UNAVAILABLE"@,
            ErrorView::Blocked => "BLOCKED"@,
            ErrorView::TokenRejected => "TOKEN_REJECTED"@,
            ErrorView::TokenRevoked => "TOKEN_REVOKED"@,
            ErrorView::RequestPending => "REQUEST_PENDING"@,
            ErrorView::AnnounceRequired => "ANNOUNCE_REQUIRED"@,
            ErrorView::GrantBlocked(_) => "GRANT_BLOCKED"@,
            ErrorView::HandleExists => "HANDLE_EXISTS"@,
            ErrorView::IdentityNotFound => "IDENTITY_NOT_FOUND"@,
            ErrorView::ProbeExpired => "PROBE_EXPIRED"@,
            ErrorView::ProbeInvalid => "PROBE_INVALID"@,
            ErrorView::NotConnected => "NOT_CONNECTED"@,
            ErrorView::AttachmentNotFound => "ATTACHMENT_NOT_FOUND"@,
            ErrorView::Internal => "INTERNAL"@,
            ErrorView::ActiveSubscription => "ACTIVE_SUBSCRIPTION"@,
        }
    }

    /// The sentence that goes with the code.
    pub open spec fn message(self) -> Seq<char> {
        match self {
            ErrorView::AuthFailed => "authentication failed"@,
            ErrorView::TokenExpired => "token has expired"@,
            ErrorView::Forbidden => "access forbidden"@,
            ErrorView::NameInUse => "name is currently in use"@,
            ErrorView::NoGrant => "no grant exists for this sender-recipient pair"@,
            ErrorView::GrantExpired => "grant has expired"@,
            ErrorView::GrantExhausted => "grant message limit reached"@,
            ErrorView::RecipientOffline => "recipient is offline"@,
            ErrorView::RecipientUnknown => "recipient not found"@,
            ErrorView::BadRequest => "bad request"@,
            ErrorView::BriefRequired => "authorization required for this message"@,
            ErrorView::MediationUnavailable => "mediation is unavailable"@,
            ErrorView::Blocked => "access blocked"@,
            ErrorView::TokenRejected => "token not recognized"@,
            ErrorView::TokenRevoked => "token has been revoked"@,
            ErrorView::RequestPending => "a grant request is already pending for this target"@,
            ErrorView::AnnounceRequired => "announce your name before sending"@,
            ErrorView::GrantBlocked(_) => "sender-recipient pair is blocked"@,
            ErrorView::HandleExists => "handle already exists"@,
            ErrorView::IdentityNotFound => "identity not found"@,
            ErrorView::ProbeExpired => "connect probe has expired"@,
            ErrorView::ProbeInvalid => "connect probe is invalid"@,
            ErrorView::NotConnected => "not connected — complete probe handshake first"@,
            ErrorView::AttachmentNotFound => "attachment not found or expired"@,
            ErrorView::Internal => "internal server error"@,
            ErrorView::ActiveSubscription => "token already has an active subscription"@,
        }
    }
}

impl Error {
    /// The code on the wire.
    pub fn code(&self) -> (s: &'static str)
        ensures
            s@ == self.deep_view().code(),
    {
        match self {
            Error::AuthFailed => "AUTH_FAILED",
            Error::TokenExpired => "TOKEN_EXPIRED",
            Error::Forbidden => "FORBIDDEN",
            Error::NameInUse => "NAME_IN_USE",
            Error::NoGrant => "NO_GRANT",
            Error::GrantExpired => "GRANT_EXPIRED",
            Error::GrantExhausted => "GRANT_EXHAUSTED",
            Error::RecipientOffline => "RECIPIENT_OFFLINE",
            Error::RecipientUnknown => "RECIPIENT_UNKNOWN",
            Error::BadRequest => "BAD_REQUEST",
            Error::BriefRequired => "BRIEF_REQUIRED",
            Error::MediationUnavailable => "MEDIATION_UNAVAILABLE",
            Error::Blocked => "BLOCKED",
            Error::TokenRejected => "TOKEN_REJECTED",
            Error::TokenRevoked => "TOKEN_REVOKED",
            Error::RequestPending => "REQUEST_PENDING",
            Error::AnnounceRequired => "ANNOUNCE_REQUIRED",
            Error::GrantBlocked(_) => "GRANT_BLOCKED",
            Error::HandleExists => "HANDLE_EXISTS",
            Error::IdentityNotFound => "IDENTITY_NOT_FOUND",
            Error::ProbeExpired => "PROBE_EXPIRED",
            Error::ProbeInvalid => "PROBE_INVALID",
            Error::NotConnected => "NOT_CONNECTED",
            Error::AttachmentNotFound => "ATTACHMENT_NOT_FOUND",
            Error::Internal => "INTERNAL",
            Error::ActiveSubscription => "ACTIVE_SUBSCRIPTION",
        }
    }

    /// The sentence that goes with the code.
    pub fn message(&self) -> (s: &'static str)
        ensures
            s@ == self.deep_view().message(),
    {
        match self {
            Error::AuthFailed => "authentication failed",
            Error::TokenExpired => "token has expired",
            Error::Forbidden => "access forbidden",
            Error::NameInUse => "name is currently in use",
            Error::NoGrant => "no grant exists for this sender-recipient pair",
            Error::GrantExpired => "grant has expired",
            Error::GrantExhausted => "grant message limit reached",
            Error::RecipientOffline => "recipient is offline",
            Error::RecipientUnknown => "recipient not found",
            Error::BadRequest => "bad request",
            Error::BriefRequired => "authorization required for this message",
            Error::MediationUnavailable => "mediation is unavailable",
            Error::Blocked => "access blocked",
            Error::TokenRejected => "token not recognized",
            Error::TokenRevoked => "token has been revoked",
            Error::RequestPending => "a grant request is already pending for this target",
            Error::AnnounceRequired => "announce your name before sending",
            Error::GrantBlocked(_) => "sender-recipient pair is blocked",
            Error::HandleExists => "handle already exists",
            Error::IdentityNotFound => "identity not found",
            Error::ProbeExpired => "connect probe has expired",
            Error::ProbeInvalid => "connect probe is invalid",
            Error::NotConnected => "not connected — complete probe handshake first",
            Error::AttachmentNotFound => "attachment not found or expired",
            Error::Internal => "internal server error",
            Error::ActiveSubscription => "token already has an active subscription",
        }
    }
}

/// A result with both of its sides taken by their contents.
pub open spec fn outcome<T: DeepView>(r: Result<T, Error>) -> Result<T::V, ErrorView> {
    match r {
        Ok(t) => Ok(t.deep_view()),
        Err(e) => Err(e.deep_view()),
    }
}

} // verus!
