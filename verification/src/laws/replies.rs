//! What replies tell of failures and of success, and who is let in.

use crate::auth::{exempt, passes, provided_token, token_accepted, unauthorized_reply};
use crate::connect::{
    end_payload, frame, frame_content, frame_error_text, law_frame_reads_back, message_frame, ConnectErrorView,
    FrameError, END_STREAM,
};
use crate::host::FsErrorView;
use crate::outside::json_object_text;
use crate::reply::{
    coded_error, error_object, failure_reply, headed, json_reply, json_success, stream_success, success,
    HeadOf,
};
use crate::text::header_content;
use vstd::prelude::*;
use vstd::utf8::*;

verus! {

/// Text that JSON holds as it is: printable ASCII characters but for quotes and backslashes.
pub open spec fn needs_no_escape(text: Seq<char>) -> bool {
    forall|i: int| 0 <= i < text.len() ==> ' ' <= #[trigger] text[i] <= '~' && text[i] != '"' && text[i] != '\\'
}

/// The JSON text of an error is an object with its code and its message, the code first.
pub proof fn law_errors_are_written_in_json(code: Seq<char>, message: Seq<char>)
    ensures
        needs_no_escape(code) && needs_no_escape(message) ==> error_object(code, message) == "{\""@ + "code"@
            + "\":\""@ + code + "\",\""@ + "message"@ + "\":\""@ + message + "\"}"@,
        !needs_no_escape(code) || !needs_no_escape(message) ==> error_object(code, message) == json_object_text(
            "code"@,
            code,
            "message"@,
            message,
        ),
{
}

/// A failure of the host is told with its description, and with a status and a code that fit its kind.
pub proof fn law_failures_have_their_status(error: FsErrorView)
    ensures
        ({
            let reply = failure_reply(error);
            let told = |code: Seq<char>| encode_utf8(error_object(code, error.message));
            &&& error.kind is NotFound ==> reply.status == 404 && reply.body == told("not_found"@)
            &&& error.kind is PermissionDenied ==> reply.status == 403 && reply.body == told("permission_denied"@)
            &&& error.kind is InvalidInput ==> reply.status == 400 && reply.body == told("invalid_argument"@)
            &&& error.kind is Other ==> reply.status == 500 && reply.body == told("internal"@)
            &&& reply.content_type == "application/json"@
            &&& reply.accept_ranges is None && reply.last_modified is None && reply.content_range is None
        }),
{
}

/// A reply that names an error has the status, the code and the message that it was made with.
pub proof fn law_errors_are_told_in_full(status: u16, code: Seq<char>, message: Seq<char>)
    ensures
        ({
            let reply = coded_error(status, code, message);
            &&& reply.status == status
            &&& reply.content_type == "application/json"@
            &&& reply.body == encode_utf8(error_object(code, message))
            &&& reply.accept_ranges is None && reply.last_modified is None && reply.content_range is None
        }),
{
}

/// Success has the status 200. JSON is told as such, and a stream as one of messages in JSON.
pub proof fn law_success_has_status_200(content_type: Seq<char>, body: Seq<u8>)
    ensures
        success(content_type) == (HeadOf { status: 200, content_type }),
        json_success() == (HeadOf { status: 200, content_type: "application/json"@ }),
        stream_success() == (HeadOf { status: 200, content_type: "application/connect+json"@ }),
        ({
            let reply = headed(success(content_type), body);
            reply.status == 200 && reply.content_type == content_type && reply.body == body && reply.accept_ranges is None
                && reply.last_modified is None && reply.content_range is None
        }),
{
}

/// Two paths stay reachable without a token, and no other: the one that is probed for readiness, and the one
/// that sets things up.
pub proof fn law_two_paths_need_no_token(path: Seq<char>)
    ensures
        exempt(path) <==> path == "/health"@ || path == "/init"@,
{
}

/// A request passes exactly where no token is expected or it provides the expected one; otherwise it is
/// told that it is not authorised.
pub proof fn law_tokens_are_compared(provided: Option<Seq<char>>, expected: Option<Seq<char>>)
    ensures
        token_accepted(provided, expected) <==> (expected matches Some(token) ==> provided == Some(token)),
        unauthorized_reply().status == 401,
        unauthorized_reply().content_type == "application/json"@,
        unauthorized_reply().body == encode_utf8(
            error_object("unauthenticated"@, "missing or invalid access token"@),
        ),
{
}

/// A frame is one byte of flags, the length of the payload in four bytes with the most significant one
/// first, and the payload.
pub proof fn law_frame_has_a_header_of_five_bytes(flags: u8, payload: Seq<u8>)
    requires
        payload.len() <= u32::MAX,
    ensures
        ({
            let bytes = frame(flags, payload);
            &&& bytes.len() == payload.len() + 5
            &&& bytes[0] == flags
            &&& payload.len() == ((bytes[1] * 256 + bytes[2]) * 256 + bytes[3]) * 256 + bytes[4]
            &&& bytes.skip(5) == payload
        }),
{
    let bytes = frame(flags, payload);
    let length = payload.len();
    assert(bytes.skip(5) =~= payload);
    assert(length / 65536 / 256 == length / 16777216);
    assert(length / 256 / 256 == length / 65536);
    assert(length / 16777216 < 256);
}

/// Bytes are one frame exactly where there are as many behind the header as it tells; otherwise it is said
/// what is wrong with them.
pub proof fn law_frames_are_told_from_other_bytes(bytes: Seq<u8>)
    ensures
        ({
            let told = ((bytes[1] * 256 + bytes[2]) * 256 + bytes[3]) * 256 + bytes[4];
            let content = frame_content(bytes);
            &&& bytes.len() < 5 ==> content == Err::<(u8, Seq<u8>), FrameError>(FrameError::ShortHeader)
            &&& bytes.len() >= 5 && bytes.len() < 5 + told ==> content == Err::<(u8, Seq<u8>), FrameError>(
                FrameError::ShortPayload,
            )
            &&& bytes.len() >= 5 && bytes.len() > 5 + told ==> content == Err::<(u8, Seq<u8>), FrameError>(
                FrameError::TrailingBytes,
            )
            &&& bytes.len() >= 5 && bytes.len() == 5 + told ==> content == Ok::<(u8, Seq<u8>), FrameError>(
                (bytes[0], bytes.skip(5)),
            )
        }),
        frame_error_text(FrameError::ShortHeader) == "Connect frame header is incomplete"@,
        frame_error_text(FrameError::ShortPayload) == "Connect frame payload is incomplete"@,
        frame_error_text(FrameError::TrailingBytes) == "Connect frame has trailing bytes"@,
{
    if bytes.len() >= 5 {
        let header = bytes.subrange(1, 5);
        assert(header[0] == bytes[1] && header[1] == bytes[2] && header[2] == bytes[3] && header[3] == bytes[4]);
    }
}

/// A stream ends with an empty object, or with one that holds the error with its code and its message.
pub proof fn law_streams_end_with_their_error(error: ConnectErrorView)
    ensures
        end_payload(None) == encode_utf8("{}"@),
        end_payload(Some(error)) == encode_utf8(
            "{\"error\":"@ + error_object(error.code, error.message) + "}"@,
        ),
{
}

/// A token is what its header holds, where that is text.
pub proof fn law_token_is_what_its_header_holds(value: &[u8])
    ensures
        provided_token(None) is None,
        provided_token(Some(value)) == header_content(value@),
{
}

/// A reply with JSON has the status and the text that it was made with.
pub proof fn law_json_is_told_as_it_is(status: u16, text: Seq<char>)
    ensures
        ({
            let reply = json_reply(status, text);
            &&& reply.status == status
            &&& reply.content_type == "application/json"@
            &&& reply.body == encode_utf8(text)
            &&& reply.accept_ranges is None && reply.last_modified is None && reply.content_range is None
        }),
{
}

/// The last frame of a stream has the flag 2.
pub proof fn law_last_frame_is_marked()
    ensures
        END_STREAM == 2,
{
}

/// A request passes on its path alone for the two paths that need no token, and otherwise exactly where no
/// token is expected or the expected one is provided.
pub proof fn law_requests_pass_with_their_token(
    path: Seq<char>,
    provided: Option<Seq<char>>,
    expected: Option<Seq<char>>,
)
    ensures
        passes("/health"@, provided, expected),
        passes("/init"@, provided, expected),
        passes(path, provided, None),
        expected matches Some(token) ==> path != "/health"@ && path != "/init"@ ==> (passes(path, provided, expected)
            <==> provided == Some(token)),
{
}

/// A message of a stream is a regular frame, with the flag 0, around the message as it is.
pub proof fn law_messages_are_regular_frames(payload: Seq<u8>)
    requires
        payload.len() <= u32::MAX,
    ensures
        message_frame(payload)[0] == 0,
        message_frame(payload).len() == payload.len() + 5,
        message_frame(payload).skip(5) == payload,
        frame_content(message_frame(payload)) == Ok::<(u8, Seq<u8>), FrameError>((0, payload)),
{
    law_frame_has_a_header_of_five_bytes(0, payload);
    law_frame_reads_back(0, payload);
}

} // verus!
