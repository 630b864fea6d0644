//! Files sent from one participant to another.

use crate::clock;
use crate::clock::{Duration, Moment};
use crate::delivery::hub::DeliveryHub;
use crate::delivery::model::HubModel;
use crate::delivery::AttachmentMeta;
use crate::error;
use crate::error::{Error, ErrorView};
use crate::events;
use crate::laws::invariants;
use crate::persistence::StoredAttachment;
use crate::random::draw_bytes;
use crate::text;
use crate::text::same;
use crate::trust::Ask;
use crate::types::{MessageView, Payload, QueuedMessage};
use vstd::prelude::*;

verus! {

/// A file that may be stored for its recipient.
pub struct NewAttachment {
    pub id: String,
    pub from_identity: String,
    pub from_name: String,
    pub to_name: String,
    pub filename: String,
    pub mime: String,
    /// Unix seconds after which the file is gone.
    pub expires_at_secs: u64,
}

/// What a file that may be stored holds.
pub struct NewAttachmentView {
    pub id: Seq<char>,
    pub from_identity: Seq<char>,
    pub from_name: Seq<char>,
    pub to_name: Seq<char>,
    pub filename: Seq<char>,
    pub mime: Seq<char>,
    pub expires_at_secs: u64,
}

impl DeepView for NewAttachment {
    type V = NewAttachmentView;

    open spec fn deep_view(&self) -> NewAttachmentView {
        NewAttachmentView {
            id: self.id@,
            from_identity: self.from_identity@,
            from_name: self.from_name@,
            to_name: self.to_name@,
            filename: self.filename@,
            mime: self.mime@,
            expires_at_secs: self.expires_at_secs,
        }
    }
}

/// Who wants to read a file.
pub struct Reader {
    pub identity: String,
    pub name: Option<String>,
}

/// What a reader holds.
pub struct ReaderView {
    pub identity: Seq<char>,
    pub name: Option<Seq<char>>,
}

impl DeepView for Reader {
    type V = ReaderView;

    open spec fn deep_view(&self) -> ReaderView {
        ReaderView { identity: self.identity@, name: self.name.deep_view() }
    }
}

impl ReaderView {
    /// A file is for its sender's identity and for the recipient's name.
    pub open spec fn may_read(self, from_identity: Seq<char>, to_name: Seq<char>) -> bool {
        self.identity == from_identity || self.name == Some(to_name)
    }
}

/// The identifier made of sixteen bytes.
pub open spec fn attachment_id(bytes: Seq<u8>) -> Seq<char> {
    "att-"@ + text::hex_bytes(bytes)
}

/// When a file stored now is gone.
pub open spec fn attachment_end(ttl: Duration, now: Moment) -> u64 {
    let end = now.unix() + ttl / clock::NANOS_PER_SEC;
    if end <= u64::MAX {
        end as u64
    } else {
        u64::MAX
    }
}

/// When a file stored now is gone.
pub fn attachment_end_secs(ttl: Duration, now: Moment) -> (s: u64)
    requires
        now.in_range(),
    ensures
        s == attachment_end(ttl, now),
{
    let start: u64 = now.unix_now();
    let span: u128 = ttl / clock::NANOS_PER_SEC;
    if span <= (u64::MAX - start) as u128 {
        start + span as u64
    } else {
        u64::MAX
    }
}

impl HubModel {
    /// The name under which the holder of a token may send `to` a file: there is a store, no denial
    /// stands between the two, and a grant covers them.
    pub open spec fn may_attach(self, token: Seq<char>, to: Seq<char>, now: Moment) -> Result<
        Seq<char>,
        ErrorView,
    > {
        if !self.persistent {
            Err(ErrorView::Internal)
        } else if !self.tokens.contains_key(token) {
            Err(ErrorView::AuthFailed)
        } else if self.tokens[token].revoked {
            Err(ErrorView::TokenRevoked)
        } else {
            match self.name_of(token) {
                None => Err(ErrorView::AnnounceRequired),
                Some(name) => if self.denied(token, to, now) {
                    Err(ErrorView::GrantBlocked(self.blocks[(token, to)].reason))
                } else if !self.agents.contains_key(to) {
                    Err(ErrorView::RecipientUnknown)
                } else {
                    match self.trust.check(
                        Ask {
                            from: token,
                            to: self.agents[to],
                            from_name: Some(name),
                            to_name: Some(to),
                        },
                        now.instant,
                    ) {
                        Ok(_) => Ok(name),
                        Err(e) => Err(e),
                    }
                },
            }
        }
    }

    /// The file that the holder of a token may store for `to`, with the identifier made of
    /// `bytes`.
    pub open spec fn attach(
        self,
        token: Seq<char>,
        to: Seq<char>,
        filename: Seq<char>,
        mime: Seq<char>,
        ttl: Duration,
        bytes: Seq<u8>,
        now: Moment,
    ) -> Result<NewAttachmentView, ErrorView> {
        match self.may_attach(token, to, now) {
            Err(e) => Err(e),
            Ok(from_name) => Ok(
                NewAttachmentView {
                    id: attachment_id(bytes),
                    from_identity: token,
                    from_name,
                    to_name: to,
                    filename,
                    mime,
                    expires_at_secs: attachment_end(ttl, now),
                },
            ),
        }
    }

    /// The recipient is told of a file that was stored.
    pub open spec fn attached(self, a: NewAttachmentView, size: nat, note: Option<Seq<char>>) -> HubModel {
        self.deliver(
            a.to_name,
            MessageView {
                payload: vstd::utf8::encode_utf8(
                    events::attachment_notice(
                        a.id,
                        a.filename,
                        a.mime,
                        size as u64,
                        a.from_name,
                        note,
                    ),
                ),
                from_name: a.from_name,
                reason: None,
                event_type: Some("attachment"@),
                thread_id: None,
            },
        ).ring(a.to_name)
    }

    /// Who the holder of a token is to the files.
    pub open spec fn reader_of(self, token: Seq<char>) -> Result<ReaderView, ErrorView> {
        if !self.persistent {
            Err(ErrorView::Internal)
        } else if !self.tokens.contains_key(token) {
            Err(ErrorView::AuthFailed)
        } else if self.tokens[token].revoked {
            Err(ErrorView::TokenRevoked)
        } else {
            Ok(ReaderView { identity: token, name: self.name_of(token) })
        }
    }
}

impl DeliveryHub {
    /// The file that may be stored for a recipient, with the identifier made of the given bytes.
    pub fn attach_numbered(
        &self,
        from_token: &str,
        to_name: &str,
        filename: &str,
        mime: &str,
        ttl: Duration,
        bytes: &Vec<u8>,
        now: Moment,
    ) -> (r: Result<NewAttachment, Error>)
        requires
            now.in_range(),
        ensures
            error::outcome(r) == self@.attach(
                from_token@,
                to_name@,
                filename@,
                mime@,
                ttl,
                bytes@,
                now,
            ),
    {
        if !self.persistent {
            return Err(Error::Internal);
        }
        match self.tokens.get(from_token) {
            None => return Err(Error::AuthFailed),
            Some(st) => if st.revoked {
                return Err(Error::TokenRevoked);
            },
        }
        let from_name = match self.token_to_name.get(from_token) {
            Some(n) => n.clone(),
            None => return Err(Error::AnnounceRequired),
        };
        if self.denied(from_token, to_name, now) {
            if let Some(block) = self.blocks.get(from_token, to_name) {
                return Err(Error::GrantBlocked(block.reason.clone()));
            }
        }
        let to_identity = match self.agents.get(to_name) {
            Some(id) => id.clone(),
            None => return Err(Error::RecipientUnknown),
        };
        if let Err(e) = self.trust.check_grant_directed_with_names(
            from_token,
            to_identity.as_str(),
            Some(from_name.as_str()),
            Some(to_name),
            now.instant,
        ) {
            return Err(e);
        }
        let hex = text::hex_bytes_text(bytes);
        Ok(
            NewAttachment {
                id: text::join2("att-", hex.as_str()),
                from_identity: from_token.to_owned(),
                from_name,
                to_name: to_name.to_owned(),
                filename: filename.to_owned(),
                mime: mime.to_owned(),
                expires_at_secs: attachment_end_secs(ttl, now),
            },
        )
    }

    /// The file that may be stored for a recipient: as for a message, no denial may stand between
    /// the two and a grant must cover them.
    /// Its identifier is made of sixteen random bytes.
    pub fn attach(
        &self,
        from_token: &str,
        to_name: &str,
        filename: &str,
        mime: &str,
        ttl: Duration,
        now: Moment,
    ) -> (r: Result<NewAttachment, Error>)
        requires
            now.in_range(),
        ensures
            exists|bytes: Seq<u8>|
                bytes.len() == 16 && error::outcome(r) == #[trigger] self@.attach(
                    from_token@,
                    to_name@,
                    filename@,
                    mime@,
                    ttl,
                    bytes,
                    now,
                ),
    {
        let bytes = draw_bytes(16);
        self.attach_numbered(from_token, to_name, filename, mime, ttl, &bytes, now)
    }

    /// Tells the recipient of a file that was stored; the file itself is fetched later.
    pub fn attached(&mut self, a: &NewAttachment, size: usize, note: Option<&str>) -> (meta: AttachmentMeta)
        ensures
            final(self)@ == old(self)@.attached(a.deep_view(), size as nat, note.deep_view()),
            meta.id@ == a.id@,
            meta.filename@ == a.filename@,
            meta.mime@ == a.mime@,
            meta.size == size,
            old(self)@.sound() ==> final(self)@.sound(),
    {
        proof {
            if self@.sound() {
                invariants::law_attached_sound(self@, a.deep_view(), size as nat, note.deep_view());
            }
        }
        let text = events::attachment_notice_text(
            a.id.as_str(),
            a.filename.as_str(),
            a.mime.as_str(),
            size as u64,
            a.from_name.as_str(),
            note,
        );
        let msg = QueuedMessage {
            payload: Payload::of_text(text.as_str()),
            from_name: a.from_name.clone(),
            reason: None,
            event_type: Some("attachment".to_owned()),
            thread_id: None,
        };
        self.deliver(a.to_name.as_str(), msg);
        self.ring(a.to_name.as_str());
        AttachmentMeta {
            id: a.id.clone(),
            filename: a.filename.clone(),
            mime: a.mime.clone(),
            size,
        }
    }

    /// Who the holder of a token is to the files.
    pub fn reader_of(&self, token: &str) -> (r: Result<Reader, Error>)
        ensures
            error::outcome(r) == self@.reader_of(token@),
    {
        if !self.persistent {
            return Err(Error::Internal);
        }
        match self.tokens.get(token) {
            None => Err(Error::AuthFailed),
            Some(st) => if st.revoked {
                Err(Error::TokenRevoked)
            } else {
                let name = match self.token_to_name.get(token) {
                    Some(n) => Some(n.clone()),
                    None => None,
                };
                Ok(Reader { identity: token.to_owned(), name })
            },
        }
    }
}

impl Reader {
    /// The bytes, the name and the type of a file that was found, for those it is for and until
    /// it is gone.
    pub fn fetch_attachment(&self, found: Option<StoredAttachment>, unix: u64) -> (r: Result<
        (Vec<u8>, String, String),
        Error,
    >)
        ensures
            match found {
                None => r is Err && (r->Err_0).deep_view() == ErrorView::AttachmentNotFound,
                Some(a) => if a.expires_at_secs <= unix {
                    r is Err && (r->Err_0).deep_view() == ErrorView::AttachmentNotFound
                } else if !self.deep_view().may_read(a.from_identity@, a.to_name@) {
                    r is Err && (r->Err_0).deep_view() == ErrorView::Forbidden
                } else {
                    r is Ok && (r->Ok_0).0@ == a.bytes@ && (r->Ok_0).1@ == a.filename@
                        && (r->Ok_0).2@ == a.mime@
                },
            },
    {
        let a = match found {
            Some(a) => a,
            None => return Err(Error::AttachmentNotFound),
        };
        if a.expires_at_secs <= unix {
            return Err(Error::AttachmentNotFound);
        }
        let named = match &self.name {
            Some(n) => same(n.as_str(), a.to_name.as_str()),
            None => false,
        };
        if !same(a.from_identity.as_str(), self.identity.as_str()) && !named {
            return Err(Error::Forbidden);
        }
        Ok((a.bytes, a.filename, a.mime))
    }
}

} // verus!
