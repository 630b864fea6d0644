//! Names, credentials and messages.

use crate::clock::Duration;
use vstd::prelude::*;

verus! {

/// The longest expiry that is materialized as a point in time, about a hundred years. A longer
/// one is cut to this before it is added to the present.
pub const MAX_EXPIRY: Duration = 3_153_600_000_000_000_000;

/// A name bound to an identity.
pub struct ParticipantName(pub String);

/// The credential of one participant.
pub struct ParticipantToken(pub String);

/// A bearer string at a place where the governor privilege is asserted.
pub struct GovernorToken(pub String);

/// Opaque bytes handed from sender to recipient.
#[derive(Debug, PartialEq, Eq, Clone)]
pub struct Payload(pub Vec<u8>);

impl DeepView for Payload {
    type V = Seq<u8>;

    open spec fn deep_view(&self) -> Seq<u8> {
        self.0@
    }
}

impl Payload {
    /// A payload with the same bytes.
    pub fn copy(&self) -> (p: Payload)
        ensures
            p.deep_view() == self.deep_view(),
    {
        let bytes = self.0.clone();
        assert(bytes@ =~= self.0@);
        Payload(bytes)
    }

    /// The UTF-8 encoding of `text`.
    pub fn of_text(text: &str) -> (p: Payload)
        ensures
            p.deep_view() == vstd::utf8::encode_utf8(text@),
    {
        Payload(text.as_bytes_vec())
    }
}

/// A copy of an optional string.
pub fn copy_opt(o: &Option<String>) -> (r: Option<String>)
    ensures
        r.deep_view() == o.deep_view(),
{
    match o {
        Some(s) => Some(s.clone()),
        None => None,
    }
}

/// A message waiting in a participant's queue.
#[derive(Debug, Clone)]
pub struct QueuedMessage {
    pub payload: Payload,
    pub from_name: String,
    pub reason: Option<String>,
    pub event_type: Option<String>,
    pub thread_id: Option<String>,
}

/// What a queued message holds.
pub struct MessageView {
    pub payload: Seq<u8>,
    pub from_name: Seq<char>,
    pub reason: Option<Seq<char>>,
    pub event_type: Option<Seq<char>>,
    pub thread_id: Option<Seq<char>>,
}

impl DeepView for QueuedMessage {
    type V = MessageView;

    open spec fn deep_view(&self) -> MessageView {
        MessageView {
            payload: self.payload.deep_view(),
            from_name: self.from_name@,
            reason: self.reason.deep_view(),
            event_type: self.event_type.deep_view(),
            thread_id: self.thread_id.deep_view(),
        }
    }
}

impl QueuedMessage {
    /// A message with the same contents.
    pub fn copy(&self) -> (m: QueuedMessage)
        ensures
            m.deep_view() == self.deep_view(),
    {
        QueuedMessage {
            payload: self.payload.copy(),
            from_name: self.from_name.clone(),
            reason: copy_opt(&self.reason),
            event_type: copy_opt(&self.event_type),
            thread_id: copy_opt(&self.thread_id),
        }
    }
}

} // verus!
