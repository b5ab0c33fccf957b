//! Replies to HTTP requests, as plain values.

use crate::host::{ErrorKind, FsError, FsErrorOf};
use crate::outside::{json_object, json_object_text, plain, plain_object};
use crate::text::{copy_bytes, optional, text_before};
use vstd::prelude::*;
use vstd::utf8::*;

verus! {

/// A reply: its status, the headers that can differ between replies, and its body.
#[verifier::ext_equal]
#[derive(Clone, Debug, PartialEq, Eq)]
pub struct ReplyOf<B, T> {
    pub status: u16,
    pub content_type: T,
    pub accept_ranges: Option<T>,
    pub last_modified: Option<T>,
    pub content_range: Option<T>,
    pub body: B,
}

pub type Reply = ReplyOf<Vec<u8>, String>;

pub type ReplyView = ReplyOf<Seq<u8>, Seq<char>>;

impl View for ReplyOf<Vec<u8>, String> {
    type V = ReplyOf<Seq<u8>, Seq<char>>;

    open spec fn view(&self) -> ReplyOf<Seq<u8>, Seq<char>> {
        ReplyOf {
            status: self.status,
            content_type: self.content_type@,
            accept_ranges: optional(self.accept_ranges),
            last_modified: optional(self.last_modified),
            content_range: optional(self.content_range),
            body: self.body@,
        }
    }
}

/// A reply with a JSON body.
pub open spec fn json_reply(status: u16, body: Seq<char>) -> ReplyView {
    ReplyOf {
        status,
        content_type: "application/json"@,
        accept_ranges: None,
        last_modified: None,
        content_range: None,
        body: encode_utf8(body),
    }
}

/// The JSON text of an error: an object with a code and a message. Where both are plain it holds them as
/// they are, the code first.
pub open spec fn error_object(code: Seq<char>, message: Seq<char>) -> Seq<char> {
    if plain(code) && plain(message) {
        plain_object("code"@, code, "message"@, message)
    } else {
        json_object_text("code"@, code, "message"@, message)
    }
}

/// A reply that names an error by a code and describes it.
pub open spec fn coded_error(status: u16, code: Seq<char>, message: Seq<char>) -> ReplyView {
    json_reply(status, error_object(code, message))
}

/// The status for a kind of failure.
pub open spec fn failure_status(kind: ErrorKind) -> u16 {
    match kind {
        ErrorKind::NotFound => 404,
        ErrorKind::PermissionDenied => 403,
        ErrorKind::InvalidInput => 400,
        ErrorKind::Other => 500,
    }
}

/// The code for a kind of failure.
pub open spec fn failure_code(kind: ErrorKind) -> Seq<char> {
    match kind {
        ErrorKind::NotFound => "not_found"@,
        ErrorKind::PermissionDenied => "permission_denied"@,
        ErrorKind::InvalidInput => "invalid_argument"@,
        ErrorKind::Other => "internal"@,
    }
}

/// The reply to a request on which the host failed.
pub open spec fn failure_reply(error: FsErrorOf<Seq<char>>) -> ReplyView {
    coded_error(failure_status(error.kind), failure_code(error.kind), error.message)
}

/// The names of the members of an error are plain, and the code comes first.
proof fn lemma_error_members()
    ensures
        plain("code"@),
        plain("message"@),
        text_before("code"@, "message"@),
{
    reveal_strlit("code");
    reveal_strlit("message");
    is_ascii_chars_encode_utf8("code"@);
    is_ascii_chars_encode_utf8("message"@);
    assert("code"@[0] == 'c' && "message"@[0] == 'm');
}

/// The codes for failures are plain.
proof fn lemma_codes_are_plain(kind: ErrorKind)
    ensures
        plain(failure_code(kind)),
        plain("invalid_argument"@),
{
    reveal_strlit("not_found");
    reveal_strlit("permission_denied");
    reveal_strlit("invalid_argument");
    reveal_strlit("internal");
}

/// Writes the JSON text of an error.
pub fn write_error_object(code: &str, message: &str) -> (text: String)
    ensures
        text@ == error_object(code@, message@),
{
    proof {
        lemma_error_members();
    }
    json_object("code", code, "message", message)
}

/// A reply that names an error by a code and describes it. Where code and message are plain, the body
/// is the object with these two members, the code first.
pub fn error_response_with_code(status: u16, code: &str, message: &str) -> (reply: Reply)
    ensures
        reply@ == coded_error(status, code@, message@),
        plain(code@) && plain(message@) ==> reply@.body == encode_utf8(
            plain_object("code"@, code@, "message"@, message@),
        ),
{
    let text: String = write_error_object(code, message);
    ReplyOf {
        status,
        content_type: "application/json".to_owned(),
        accept_ranges: None,
        last_modified: None,
        content_range: None,
        body: copy_bytes(text.as_str().as_bytes()),
    }
}

/// The reply to a request on which the host failed.
pub fn fs_error_response(error: &FsError) -> (reply: Reply)
    ensures
        reply@ == failure_reply(error@),
        plain(error@.message) ==> reply@.body == encode_utf8(
            plain_object("code"@, failure_code(error.kind), "message"@, error@.message),
        ),
{
    proof {
        lemma_codes_are_plain(error.kind);
    }
    let (status, code): (u16, &str) = match error.kind {
        ErrorKind::NotFound => (404, "not_found"),
        ErrorKind::PermissionDenied => (403, "permission_denied"),
        ErrorKind::InvalidInput => (400, "invalid_argument"),
        ErrorKind::Other => (500, "internal"),
    };
    error_response_with_code(status, code, error.message.as_str())
}

/// The reply to a request that is not acceptable as it stands.
pub fn request_error_response(status: u16, message: &str) -> (reply: Reply)
    ensures
        reply@ == coded_error(status, "invalid_argument"@, message@),
        plain(message@) ==> reply@.body == encode_utf8(
            plain_object("code"@, "invalid_argument"@, "message"@, message@),
        ),
{
    proof {
        lemma_codes_are_plain(ErrorKind::InvalidInput);
    }
    error_response_with_code(status, "invalid_argument", message)
}

/// The status and the content type of a reply.
#[verifier::ext_equal]
#[derive(Clone, Debug, PartialEq, Eq)]
pub struct HeadOf<T> {
    pub status: u16,
    pub content_type: T,
}

pub type Head = HeadOf<String>;

pub type HeadView = HeadOf<Seq<char>>;

impl View for HeadOf<String> {
    type V = HeadOf<Seq<char>>;

    open spec fn view(&self) -> HeadOf<Seq<char>> {
        HeadOf { status: self.status, content_type: self.content_type@ }
    }
}

/// The head of a reply to a request that succeeded.
pub open spec fn success(content_type: Seq<char>) -> HeadView {
    HeadOf { status: 200, content_type }
}

/// The head of a reply with JSON to a request that succeeded.
pub open spec fn json_success() -> HeadView {
    success("application/json"@)
}

/// The head of a stream of messages.
pub open spec fn stream_success() -> HeadView {
    success("application/connect+json"@)
}

/// A reply with a head and a body and nothing else.
pub open spec fn headed(head: HeadView, body: Seq<u8>) -> ReplyView {
    ReplyOf {
        status: head.status,
        content_type: head.content_type,
        accept_ranges: None,
        last_modified: None,
        content_range: None,
        body,
    }
}

/// Makes the head of a reply to a request that succeeded.
pub fn ok_head(content_type: &str) -> (head: Head)
    ensures
        head@ == success(content_type@),
{
    HeadOf { status: 200, content_type: content_type.to_owned() }
}

/// Makes the head of a stream of messages.
pub fn stream_head() -> (head: Head)
    ensures
        head@ == stream_success(),
{
    ok_head("application/connect+json")
}

impl HeadOf<String> {
    /// Makes the reply with this head and a body.
    pub fn with_body(self, body: Vec<u8>) -> (reply: Reply)
        ensures
            reply@ == headed(self@, body@),
    {
        ReplyOf {
            status: self.status,
            content_type: self.content_type,
            accept_ranges: None,
            last_modified: None,
            content_range: None,
            body,
        }
    }
}

/// Makes the reply to a request that succeeded.
pub fn ok_reply(content_type: &str, body: Vec<u8>) -> (reply: Reply)
    ensures
        reply.status == 200,
        reply.content_type@ == content_type@,
        reply.body@ == body@,
        reply@.accept_ranges is None,
        reply@.last_modified is None,
        reply@.content_range is None,
{
    ok_head(content_type).with_body(body)
}

/// The reply to a request that succeeded and has nothing to tell.
pub fn empty_response() -> (reply: Reply)
    ensures
        reply@ == json_reply(200, "{}"@),
{
    ok_reply("application/json", copy_bytes("{}".as_bytes()))
}

} // verus!
