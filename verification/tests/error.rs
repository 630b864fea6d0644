//! The codes and sentences of the errors.

use simple_im::error::Error;

#[test]
fn auth_failed_code() {
    assert_eq!(Error::AuthFailed.code(), "AUTH_FAILED");
}

#[test]
fn token_expired_code() {
    assert_eq!(Error::TokenExpired.code(), "TOKEN_EXPIRED");
}

#[test]
fn forbidden_code() {
    assert_eq!(Error::Forbidden.code(), "FORBIDDEN");
}

#[test]
fn name_in_use_code() {
    assert_eq!(Error::NameInUse.code(), "NAME_IN_USE");
}

#[test]
fn no_grant_code() {
    assert_eq!(Error::NoGrant.code(), "NO_GRANT");
}

#[test]
fn grant_expired_code() {
    assert_eq!(Error::GrantExpired.code(), "GRANT_EXPIRED");
}

#[test]
fn recipient_offline_code() {
    assert_eq!(Error::RecipientOffline.code(), "RECIPIENT_OFFLINE");
}

#[test]
fn recipient_unknown_code() {
    assert_eq!(Error::RecipientUnknown.code(), "RECIPIENT_UNKNOWN");
}

#[test]
fn bad_request_code() {
    assert_eq!(Error::BadRequest.code(), "BAD_REQUEST");
}

#[test]
fn brief_required_code() {
    assert_eq!(Error::BriefRequired.code(), "BRIEF_REQUIRED");
}

#[test]
fn mediation_unavailable_code() {
    assert_eq!(Error::MediationUnavailable.code(), "MEDIATION_UNAVAILABLE");
}

#[test]
fn blocked_code() {
    assert_eq!(Error::Blocked.code(), "BLOCKED");
}

#[test]
fn token_rejected_code() {
    assert_eq!(Error::TokenRejected.code(), "TOKEN_REJECTED");
}

#[test]
fn token_revoked_code() {
    assert_eq!(Error::TokenRevoked.code(), "TOKEN_REVOKED");
}
