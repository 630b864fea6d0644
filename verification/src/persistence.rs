//! Rows of the token store, and the timestamps that they hold.

use crate::clock;
use crate::clock::{Duration, SystemTime};
use crate::text;
use crate::types::MAX_EXPIRY;
use vstd::prelude::*;

verus! {

/// A stored credential.
pub struct PersistedToken {
    pub token: String,
    pub identity: String,
    /// `governor` or `participant`.
    pub token_type: String,
    pub expires_at_secs: Option<u64>,
}

/// What a stored credential holds.
pub struct TokenRow {
    pub token: Seq<char>,
    pub identity: Seq<char>,
    pub token_type: Seq<char>,
    pub expires_at_secs: Option<u64>,
}

impl DeepView for PersistedToken {
    type V = TokenRow;

    open spec fn deep_view(&self) -> TokenRow {
        TokenRow {
            token: self.token@,
            identity: self.identity@,
            token_type: self.token_type@,
            expires_at_secs: self.expires_at_secs,
        }
    }
}

/// A permanent name. It outlives every credential bound to it.
pub struct PersistedIdentity {
    pub name: String,
    pub created_at: String,
}

impl DeepView for PersistedIdentity {
    type V = Seq<char>;

    open spec fn deep_view(&self) -> Seq<char> {
        self.name@
    }
}

/// A stored denial.
pub struct PersistedDenialBlock {
    pub from_identity: String,
    pub to_name: String,
    pub reason: String,
    pub expires_at: Option<u64>,
}

/// What a stored denial holds.
pub struct DenialRow {
    pub from_identity: Seq<char>,
    pub to_name: Seq<char>,
    pub reason: Seq<char>,
    pub expires_at: Option<u64>,
}

impl DeepView for PersistedDenialBlock {
    type V = DenialRow;

    open spec fn deep_view(&self) -> DenialRow {
        DenialRow {
            from_identity: self.from_identity@,
            to_name: self.to_name@,
            reason: self.reason@,
            expires_at: self.expires_at,
        }
    }
}

/// A file held for its recipient.
pub struct StoredAttachment {
    pub from_identity: String,
    pub to_name: String,
    pub filename: String,
    pub mime: String,
    pub bytes: Vec<u8>,
    pub expires_at_secs: u64,
}

/// A stored grant.
pub struct PersistedGrant {
    pub id: String,
    pub identity_a: String,
    pub identity_b: String,
    /// `symmetric`, `a_to_b` or `b_to_a`.
    pub direction: String,
    /// `bypass`, `inspect` or `notify`.
    pub mediation: String,
    pub max_messages: Option<i64>,
    pub messages_used: i64,
    pub conditions: Option<String>,
    pub opens_reply_window: bool,
    pub expires_at_secs: Option<u64>,
    pub governor_id: String,
    /// The announced name of the first party, where it was known.
    pub name_a: Option<String>,
    /// The announced name of the second party, where it was known.
    pub name_b: Option<String>,
}

/// What a stored grant holds.
pub struct GrantRow {
    pub id: Seq<char>,
    pub identity_a: Seq<char>,
    pub identity_b: Seq<char>,
    pub direction: Seq<char>,
    pub mediation: Seq<char>,
    pub max_messages: Option<i64>,
    pub messages_used: i64,
    pub conditions: Option<Seq<char>>,
    pub opens_reply_window: bool,
    pub expires_at_secs: Option<u64>,
    pub governor_id: Seq<char>,
    pub name_a: Option<Seq<char>>,
    pub name_b: Option<Seq<char>>,
}

impl DeepView for PersistedGrant {
    type V = GrantRow;

    open spec fn deep_view(&self) -> GrantRow {
        GrantRow {
            id: self.id@,
            identity_a: self.identity_a@,
            identity_b: self.identity_b@,
            direction: self.direction@,
            mediation: self.mediation@,
            max_messages: self.max_messages,
            messages_used: self.messages_used,
            conditions: self.conditions.deep_view(),
            opens_reply_window: self.opens_reply_window,
            expires_at_secs: self.expires_at_secs,
            governor_id: self.governor_id@,
            name_a: self.name_a.deep_view(),
            name_b: self.name_b.deep_view(),
        }
    }
}

/// The lesser of an expiry and the longest one that is kept.
pub open spec fn capped(expiry: Duration) -> Duration {
    if expiry <= MAX_EXPIRY {
        expiry
    } else {
        MAX_EXPIRY
    }
}

/// The lesser of an expiry and the longest one that is kept.
pub fn cap(expiry: Duration) -> (d: Duration)
    ensures
        d == capped(expiry),
        d <= MAX_EXPIRY,
{
    if expiry <= MAX_EXPIRY {
        expiry
    } else {
        MAX_EXPIRY
    }
}

/// The stored form of a time: whole seconds since the Unix epoch, in decimal.
pub fn system_time_to_secs_str(t: SystemTime) -> (s: String)
    requires
        clock::unix_secs(t) <= u64::MAX,
    ensures
        s@ == text::decimal(clock::unix_secs(t) as nat),
{
    let n: u64 = if t < 0 {
        0
    } else {
        (t / 1_000_000_000) as u64
    };
    text::decimal_text(n)
}

/// The stored form of the time that lies `expiry` after `base`.
pub fn expiry_to_secs_str(base: SystemTime, expiry: Duration) -> (s: String)
    requires
        base + capped(expiry) <= i128::MAX,
        clock::unix_secs((base + capped(expiry)) as SystemTime) <= u64::MAX,
    ensures
        s@ == text::decimal(clock::unix_secs((base + capped(expiry)) as SystemTime) as nat),
{
    let d: i128 = cap(expiry) as i128;
    system_time_to_secs_str(base + d)
}

/// The number of seconds that a stored time holds.
pub fn secs_str_to_u64(s: &str) -> (r: Option<u64>)
    ensures
        r is Some == text::parsed(s@, u64::MAX as nat) is Some,
        r matches Some(n) ==> n as nat == text::parsed(s@, u64::MAX as nat)->0,
{
    text::parse_decimal(s, u64::MAX)
}

/// A stored time reads back as the seconds it was written from.
pub proof fn law_stored_time_reads_back(t: SystemTime)
    requires
        clock::unix_secs(t) <= u64::MAX,
    ensures
        text::parsed(text::decimal(clock::unix_secs(t) as nat), u64::MAX as nat) == Some(
            clock::unix_secs(t) as nat,
        ),
{
    text::lemma_parse_of_decimal(clock::unix_secs(t) as nat, u64::MAX as nat);
}

} // verus!
