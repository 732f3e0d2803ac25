//! The answers that the gateway gives to its own clients.

use vstd::prelude::*;
use crate::json::{
    doc_of, field, json_record, json_string, named_docs, record_of, render_json,
    rendered, JsonDoc,
};
use crate::text::join;
use crate::upstream::UpstreamOutcome;

verus! {

/// An HTTP response of the gateway.
#[derive(Clone, Debug, PartialEq, Eq)]
pub struct HttpReply {
    pub status: u16,
    pub content_type: String,
    pub body: Vec<u8>,
}

/// What a reply is, in mathematical terms.
pub struct ReplyView {
    pub status: u16,
    pub content_type: Seq<char>,
    pub body: Seq<u8>,
}

impl View for HttpReply {
    type V = ReplyView;

    open spec fn view(&self) -> ReplyView {
        ReplyView { status: self.status, content_type: self.content_type@, body: self.body@ }
    }
}

/// The document `{"error": {"message": .., "type": ..}}`.
pub open spec fn error_doc(message: Seq<char>, kind: Seq<char>) -> JsonDoc {
    JsonDoc::Record(
        map![
            "error"@ => JsonDoc::Record(
                map!["message"@ => JsonDoc::Text(message), "type"@ => JsonDoc::Text(kind)],
            ),
        ],
    )
}

/// The bytes of a document, and none where it cannot be written.
pub open spec fn rendered_or_empty(doc: JsonDoc) -> Seq<u8> {
    match rendered(doc) {
        Some(bytes) => bytes,
        None => Seq::empty(),
    }
}

/// The reply that reports an error of the gateway's own.
pub open spec fn error_reply_view(status: u16, message: Seq<char>, kind: Seq<char>) -> ReplyView {
    ReplyView {
        status,
        content_type: "application/json"@,
        body: rendered_or_empty(error_doc(message, kind)),
    }
}

/// Whether a number can stand as an HTTP status code.
pub open spec fn is_status_code(code: u16) -> bool {
    100 <= code < 1000
}

/// The status under which an upstream status is handed on: itself, and 500
/// only for a number that is no status code.
pub open spec fn relayed_status(code: u16) -> u16 {
    if is_status_code(code) {
        code
    } else {
        500
    }
}

/// The message of the reply for an upstream call that brought no response.
pub open spec fn forward_failure(reason: Seq<char>) -> Seq<char> {
    "Failed to forward request: "@ + reason
}

/// The reply to a completion request, given how the upstream call ended. A
/// response is handed on with its status and its body, byte for byte; only a
/// call without a response makes the gateway speak for itself.
pub open spec fn relayed(outcome: UpstreamOutcome) -> ReplyView {
    match outcome {
        UpstreamOutcome::Answered { status, body } => ReplyView {
            status: relayed_status(status),
            content_type: "application/json"@,
            body: body@,
        },
        UpstreamOutcome::Unreachable { reason } => error_reply_view(
            500,
            forward_failure(reason@),
            "internal_error"@,
        ),
        UpstreamOutcome::NotAsked => error_reply_view(
            500,
            forward_failure("no call was made"@),
            "internal_error"@,
        ),
    }
}

/// A response is handed on as it came: with its status, whatever that is, and
/// with its body byte for byte.
pub proof fn response_is_handed_on(status: u16, body: Vec<u8>)
    requires
        is_status_code(status),
    ensures
        relayed(UpstreamOutcome::Answered { status, body }).status == status,
        relayed(UpstreamOutcome::Answered { status, body }).body == body@,
{
}

/// Builds the document `{"error": {"message": .., "type": ..}}`.
pub fn make_error_doc(message: &str, kind: &str) -> (doc: serde_json::Value)
    ensures
        doc_of(doc) == error_doc(message@, kind@),
{
    let mut inner: Vec<(String, serde_json::Value)> = Vec::new();
    inner.push(field("message", json_string(String::from_str(message))));
    inner.push(field("type", json_string(String::from_str(kind))));
    proof {
        reveal_strlit("message");
        reveal_strlit("type");
        assert("message"@[0] != "type"@[0]);
        reveal_with_fuel(record_of, 3);
        assert(named_docs(inner@).drop_last().drop_last().len() == 0);
        assert(record_of(named_docs(inner@)) =~= map![
            "message"@ => JsonDoc::Text(message@),
            "type"@ => JsonDoc::Text(kind@),
        ]);
    }
    let detail = json_record(inner);
    let mut outer: Vec<(String, serde_json::Value)> = Vec::new();
    outer.push(field("error", detail));
    proof {
        reveal_with_fuel(record_of, 2);
        assert(named_docs(outer@).drop_last().len() == 0);
        assert(record_of(named_docs(outer@)) =~= map!["error"@ => doc_of(detail)]);
    }
    json_record(outer)
}

/// The reply that reports an error of the gateway's own, as JSON.
pub fn error_reply(status: u16, message: &str, kind: &str) -> (reply: HttpReply)
    ensures
        reply@ == error_reply_view(status, message@, kind@),
{
    let doc = make_error_doc(message, kind);
    let body = match render_json(&doc) {
        Some(bytes) => bytes,
        None => Vec::new(),
    };
    HttpReply { status, content_type: String::from_str("application/json"), body }
}

/// The status under which an upstream status is handed on.
pub fn relay_status(code: u16) -> (status: u16)
    ensures
        status == relayed_status(code),
{
    if 100 <= code && code < 1000 {
        code
    } else {
        500
    }
}

/// The reply to a completion request, given how the upstream call ended.
pub fn relay_completion(outcome: UpstreamOutcome) -> (reply: HttpReply)
    ensures
        reply@ == relayed(outcome),
{
    match outcome {
        UpstreamOutcome::Answered { status, body } => HttpReply {
            status: relay_status(status),
            content_type: String::from_str("application/json"),
            body,
        },
        UpstreamOutcome::Unreachable { reason } => {
            let message = join("Failed to forward request: ", reason.as_str());
            error_reply(500, message.as_str(), "internal_error")
        },
        UpstreamOutcome::NotAsked => {
            let message = join("Failed to forward request: ", "no call was made");
            error_reply(500, message.as_str(), "internal_error")
        },
    }
}

} // verus!
