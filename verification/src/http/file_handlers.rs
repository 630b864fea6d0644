//! Requests about files.

use crate::clock::{Duration, Moment};
use crate::delivery::attachments::{NewAttachment, NewAttachmentView, Reader, ReaderView};
use crate::delivery::hub::DeliveryHub;
use crate::delivery::model::HubModel;
use crate::delivery::AttachmentMeta;
use crate::error::{Error, ErrorView};
use crate::http;
use crate::http::{
    auth_failed_reply, bearer_token, err_response, mime_of, sanitize_filename, Body, BodyView, Field,
    Reply, ReplyView, Scalar, ScalarView,
};
use crate::text;
use vstd::prelude::*;

verus! {

/// The name under which a file is kept.
pub open spec fn kept_name(filename: Option<Seq<char>>) -> Seq<char> {
    http::safe_filename(
        match filename {
            Some(f) => f,
            None => "file"@,
        },
    )
}

/// The file that may be stored, or the reply to a refusal. An empty file is refused.
pub open spec fn uploading(
    m: HubModel,
    authorization: Option<Seq<char>>,
    to: Seq<char>,
    filename: Option<Seq<char>>,
    content_type: Option<Seq<char>>,
    size: nat,
    ttl: Duration,
    bytes: Seq<u8>,
    now: Moment,
) -> Result<NewAttachmentView, ReplyView> {
    match http::bearer(authorization) {
        None => Err(http::auth_failed()),
        Some(t) => if size == 0 {
            Err(http::error_reply(ErrorView::BadRequest))
        } else {
            match m.attach(t, to, kept_name(filename), http::mime(content_type), ttl, bytes, now) {
                Ok(a) => Ok(a),
                Err(e) => Err(http::error_reply(e)),
            }
        },
    }
}

/// `POST /attachments`, before the file is stored: the file that may be stored, or the reply to a
/// refusal.
pub fn handle_attach_upload(
    hub: &DeliveryHub,
    authorization: Option<&str>,
    to: &str,
    filename: Option<&str>,
    content_type: Option<&str>,
    size: usize,
    ttl: Duration,
    now: Moment,
) -> (r: Result<NewAttachment, Reply>)
    requires
        now.in_range(),
    ensures
        exists|bytes: Seq<u8>|
            bytes.len() == 16 && match r {
                Ok(a) => Ok(a.deep_view()),
                Err(reply) => Err(reply.deep_view()),
            } == #[trigger] uploading(
                hub@,
                authorization.deep_view(),
                to@,
                filename.deep_view(),
                content_type.deep_view(),
                size as nat,
                ttl,
                bytes,
                now,
            ),
{
    let ghost mut sixteen: Seq<u8> = Seq::new(16, |i: int| 0u8);
    let token = match bearer_token(authorization) {
        Some(t) => t,
        None => {
            let reply = auth_failed_reply();
            assert(Err::<NewAttachmentView, ReplyView>(reply.deep_view()) == uploading(
                hub@,
                authorization.deep_view(),
                to@,
                filename.deep_view(),
                content_type.deep_view(),
                size as nat,
                ttl,
                sixteen,
                now,
            ));
            return Err(reply);
        },
    };
    if size == 0 {
        let reply = err_response(Error::BadRequest);
        assert(Err::<NewAttachmentView, ReplyView>(reply.deep_view()) == uploading(
            hub@,
            authorization.deep_view(),
            to@,
            filename.deep_view(),
            content_type.deep_view(),
            size as nat,
            ttl,
            sixteen,
            now,
        ));
        return Err(reply);
    }
    let mime = mime_of(content_type);
    let name = match filename {
        Some(f) => sanitize_filename(f),
        None => sanitize_filename("file"),
    };
    let o = hub.attach(token.as_str(), to, name.as_str(), mime.as_str(), ttl, now);
    let ghost outcome = crate::error::outcome(o);
    let r = match o {
        Ok(a) => Ok(a),
        Err(e) => Err(err_response(e)),
    };
    proof {
        let bytes = choose|bytes: Seq<u8>|
            bytes.len() == 16 && outcome == #[trigger] hub@.attach(
                token@,
                to@,
                name@,
                mime@,
                ttl,
                bytes,
                now,
            );
        assert(match r {
            Ok(a) => Ok(a.deep_view()),
            Err(reply) => Err(reply.deep_view()),
        } == uploading(
            hub@,
            authorization.deep_view(),
            to@,
            filename.deep_view(),
            content_type.deep_view(),
            size as nat,
            ttl,
            bytes,
            now,
        ));
    }
    r
}

/// `POST /attachments`, after the file was stored: the reply.
pub fn uploaded(meta: AttachmentMeta) -> (r: Reply)
    ensures
        r.deep_view() == (ReplyView {
            status: 201,
            body: BodyView::Object(
                seq![
                    ("attachment_id"@, ScalarView::Text(meta.id@)),
                    ("filename"@, ScalarView::Text(meta.filename@)),
                    ("mime"@, ScalarView::Text(meta.mime@)),
                    ("size"@, ScalarView::Number(meta.size as u64)),
                ],
            ),
        }),
{
    let fields: Vec<Field> = vec![
        ("attachment_id".to_owned(), Scalar::Text(meta.id)),
        ("filename".to_owned(), Scalar::Text(meta.filename)),
        ("mime".to_owned(), Scalar::Text(meta.mime)),
        ("size".to_owned(), Scalar::Number(meta.size as u64)),
    ];
    assert(fields.deep_view() =~= seq![
        ("attachment_id"@, ScalarView::Text(meta.id@)),
        ("filename"@, ScalarView::Text(meta.filename@)),
        ("mime"@, ScalarView::Text(meta.mime@)),
        ("size"@, ScalarView::Number(meta.size as u64)),
    ]);
    Reply { status: 201, body: Body::Object(fields) }
}

/// `GET /attachments/{id}`, before the file is looked up: who reads, or the reply to a refusal.
pub fn handle_attach_download(hub: &DeliveryHub, authorization: Option<&str>) -> (r: Result<Reader, Reply>)
    ensures
        match r {
            Ok(reader) => Ok::<ReaderView, ReplyView>(reader.deep_view()),
            Err(reply) => Err::<ReaderView, ReplyView>(reply.deep_view()),
        } == match http::bearer(authorization.deep_view()) {
            None => Err(http::auth_failed()),
            Some(t) => match hub@.reader_of(t) {
                Ok(reader) => Ok(reader),
                Err(e) => Err(http::error_reply(e)),
            },
        },
{
    let token = match bearer_token(authorization) {
        Some(t) => t,
        None => return Err(auth_failed_reply()),
    };
    match hub.reader_of(token.as_str()) {
        Ok(reader) => Ok(reader),
        Err(e) => Err(err_response(e)),
    }
}

/// The `Content-Disposition` header of a file.
pub fn disposition(filename: &str) -> (s: String)
    ensures
        s@ == "attachment; filename=\""@ + http::safe_filename(filename@) + "\""@,
{
    let name = sanitize_filename(filename);
    text::join3("attachment; filename=\"", name.as_str(), "\"")
}

} // verus!
