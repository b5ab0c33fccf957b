//! The access token that requests carry once one has been set.

use crate::outside::plain_object;
use crate::reply::{coded_error, error_response_with_code, Reply, ReplyView};
use crate::text::{header_content, header_text, same_text};
use vstd::prelude::*;
use vstd::utf8::*;

verus! {

/// The paths that stay reachable without a token, so that readiness probing and bootstrap work.
pub open spec fn exempt(path: Seq<char>) -> bool {
    path == "/health"@ || path == "/init"@
}

/// The content of an optional text slice.
pub open spec fn slice_content(text: Option<&str>) -> Option<Seq<char>> {
    match text {
        Some(text) => Some(text@),
        None => None,
    }
}

/// Whether a request may pass: no token is expected, or the one provided is the expected one.
pub open spec fn token_accepted(provided: Option<Seq<char>>, expected: Option<Seq<char>>) -> bool {
    expected is None || provided == expected
}

/// The token that a header provides, where the header is there and can be read as text.
pub open spec fn provided_token(header: Option<&[u8]>) -> Option<Seq<char>> {
    match header {
        Some(value) => header_content(value@),
        None => None,
    }
}

/// Whether a request passes, by its path, the token that it provides and the one that is expected.
pub open spec fn passes(path: Seq<char>, provided: Option<Seq<char>>, expected: Option<Seq<char>>) -> bool {
    exempt(path) || token_accepted(provided, expected)
}

/// The reply to a request without the expected token.
pub open spec fn unauthorized_reply() -> ReplyView {
    coded_error(401, "unauthenticated"@, "missing or invalid access token"@)
}

/// Compares the token of a request with the expected one.
pub fn token_matches(provided: Option<&str>, expected: Option<&str>) -> (accepted: bool)
    ensures
        accepted == token_accepted(slice_content(provided), slice_content(expected)),
{
    match expected {
        None => true,
        Some(expected) => match provided {
            None => false,
            Some(provided) => same_text(provided, expected),
        },
    }
}

/// The reply to a request without the expected token.
pub fn unauthorized() -> (reply: Reply)
    ensures
        reply@ == unauthorized_reply(),
        reply@.body == encode_utf8(
            plain_object("code"@, "unauthenticated"@, "message"@, "missing or invalid access token"@),
        ),
{
    proof {
        reveal_strlit("unauthenticated");
        reveal_strlit("missing or invalid access token");
    }
    error_response_with_code(401, "unauthenticated", "missing or invalid access token")
}

/// Decides on a request by its path, the value of its `x-access-token` header and the token that is
/// expected. Nothing means that the request goes on to its handler; otherwise the reply is what the
/// caller gets.
pub fn layer(path: &str, header: Option<&[u8]>, expected: Option<&str>) -> (refusal: Option<Reply>)
    ensures
        refusal is None <==> exempt(path@) || token_accepted(provided_token(header), slice_content(expected)),
        refusal is None <==> passes(path@, provided_token(header), slice_content(expected)),
        refusal matches Some(reply) ==> reply@ == unauthorized_reply(),
{
    if same_text(path, "/health") || same_text(path, "/init") {
        return None;
    }
    let provided: Option<String> = match header {
        Some(value) => header_text(value),
        None => None,
    };
    let accepted = match &provided {
        Some(token) => token_matches(Some(token.as_str()), expected),
        None => token_matches(None, expected),
    };
    if accepted {
        None
    } else {
        Some(unauthorized())
    }
}

/// While no token is expected every request passes, whatever it carries.
pub proof fn law_open_until_token_is_set(provided: Option<Seq<char>>)
    ensures
        token_accepted(provided, None),
{
}

/// Once a token is expected, exactly the requests that provide it pass.
pub proof fn law_closed_once_token_is_set(provided: Option<Seq<char>>, expected: Seq<char>)
    ensures
        token_accepted(provided, Some(expected)) <==> provided == Some(expected),
{
}

} // verus!
