//! Calls into other crates, and into the parts of the standard library that carry no
//! specification. What stands here is believed, not proved.

use crate::text::text_before;
use base64::Engine;
use vstd::prelude::*;
use vstd::utf8::*;

verus! {

/// The last second that the calendar of the `chrono` crate holds, counted from the Unix epoch: the
/// end of its last year, 262142.
pub const LAST_CALENDAR_SECOND: i64 = 8210266876799;

/// The first second that the calendar of the `chrono` crate holds, counted from the Unix epoch: the
/// start of its first year, -262143.
pub const FIRST_CALENDAR_SECOND: i64 = -8334601228800;

/// The last second of the year 9999, counted from the Unix epoch.
pub const LAST_FOUR_DIGIT_SECOND: i64 = 253402300799;

/// The pattern of dates in HTTP headers, in the notation of `chrono`.
pub const HTTP_DATE_PATTERN: &'static str = "%a, %d %b %Y %H:%M:%S GMT";

/// A second that the calendar holds.
pub open spec fn in_calendar(seconds: i64) -> bool {
    FIRST_CALENDAR_SECOND <= seconds <= LAST_CALENDAR_SECOND
}

/// The error of `base64` on text that is no base64.
#[verifier::external_type_specification]
#[verifier::external_body]
pub struct ExDecodeError(base64::DecodeError);

/// The error of `chrono` on text that is no date.
#[verifier::external_type_specification]
#[verifier::external_body]
pub struct ExParseError(chrono::ParseError);

/// The error of `String::from_utf8` on bytes that are no UTF-8.
#[verifier::external_type_specification]
#[verifier::external_body]
pub struct ExFromUtf8Error(std::string::FromUtf8Error);

/// `String::from_utf8`: the text that the bytes encode, or an error where they are no UTF-8.
pub assume_specification[ String::from_utf8 ](bytes: Vec<u8>) -> (text: Result<String, std::string::FromUtf8Error>)
    ensures
        text is Ok <==> valid_utf8(bytes@),
        text matches Ok(text) ==> text@ == decode_utf8(bytes@),
;

/// What `String::from_utf8_lossy` makes of bytes.
pub uninterp spec fn lossy_text(bytes: Seq<u8>) -> Seq<char>;

/// `String::from_utf8_lossy`: bytes as text, with a replacement character for what is no UTF-8.
/// Bytes that are UTF-8 give the text that they encode.
#[verifier::external_body]
pub(crate) fn utf8_lossy(bytes: &[u8]) -> (text: String)
    ensures
        text@ == lossy_text(bytes@),
        valid_utf8(bytes@) ==> text@ == decode_utf8(bytes@),
{
    String::from_utf8_lossy(bytes).into_owned()
}

/// The standard base64 encoding of bytes, with padding.
pub uninterp spec fn base64_text(bytes: Seq<u8>) -> Seq<char>;

/// The bytes that standard base64 text with padding encodes, where it encodes any.
pub uninterp spec fn base64_bytes(encoded: Seq<u8>) -> Option<Seq<u8>>;

/// The length of the base64 encoding of so many bytes: four characters for every three bytes begun.
pub open spec fn base64_length(bytes: nat) -> nat {
    (bytes + 2) / 3 * 4
}

/// `encode` of the `STANDARD` engine of `base64`: the encoding of the bytes, which decodes to them
/// again. It panics where the encoding is too long for a string.
#[verifier::external_body]
pub(crate) fn base64_encode(bytes: &[u8]) -> (text: String)
    requires
        base64_length(bytes@.len()) <= isize::MAX,
    ensures
        text@ == base64_text(bytes@),
        text@.len() == base64_length(bytes@.len()),
        base64_bytes(encode_utf8(text@)) == Some(bytes@),
{
    base64::engine::general_purpose::STANDARD.encode(bytes)
}

/// `decode` of the `STANDARD` engine of `base64`: the bytes that the text encodes, or an error where
/// it encodes none.
#[verifier::external_body]
pub(crate) fn base64_decode(encoded: &[u8]) -> (bytes: Result<Vec<u8>, base64::DecodeError>)
    ensures
        bytes is Ok <==> base64_bytes(encoded@) is Some,
        bytes matches Ok(bytes) ==> base64_bytes(encoded@) == Some(bytes@),
{
    base64::engine::general_purpose::STANDARD.decode(encoded)
}

/// A second of the calendar in UTC, written by a pattern of `chrono`.
pub uninterp spec fn utc_text(seconds: int, pattern: Seq<char>) -> Seq<char>;

/// The second, counted from the Unix epoch, that a date as of RFC 2822 denotes, where the text is
/// such a date.
pub uninterp spec fn rfc2822_second(text: Seq<char>) -> Option<int>;

/// `DateTime::<Utc>::from_timestamp` of `chrono`, and `format` on its result: a second written by
/// the pattern of HTTP dates, or nothing where the calendar does not hold it. Up to the year 9999
/// the text is a date as of RFC 2822 and denotes the same second; later years are written with a
/// plus sign, which RFC 2822 does not know. All of the text is printable ASCII.
#[verifier::external_body]
pub(crate) fn format_utc(seconds: i64, pattern: &str) -> (text: Option<String>)
    requires
        pattern@ == HTTP_DATE_PATTERN@,
    ensures
        text is Some <==> in_calendar(seconds),
        text matches Some(text) ==> text@ == utc_text(seconds as int, pattern@),
        text matches Some(text) ==> forall|i: int| 0 <= i < text@.len() ==> ' ' <= #[trigger] text@[i] <= '~',
        text matches Some(text) ==> 0 <= seconds <= LAST_FOUR_DIGIT_SECOND ==> rfc2822_second(text@)
            == Some(seconds as int),
{
    chrono::DateTime::<chrono::Utc>::from_timestamp(seconds, 0).map(|date| date.format(pattern).to_string())
}

/// `DateTime::parse_from_rfc2822` of `chrono`, and `timestamp` of its result: the second that a date
/// denotes, or an error where the text is no date.
#[verifier::external_body]
pub(crate) fn parse_rfc2822(text: &str) -> (seconds: Result<i64, chrono::ParseError>)
    ensures
        seconds is Ok <==> rfc2822_second(text@) is Some,
        seconds matches Ok(seconds) ==> rfc2822_second(text@) == Some(seconds as int),
{
    chrono::DateTime::parse_from_rfc2822(text).map(|date| date.timestamp())
}

/// A moment after the Unix epoch as of RFC 3339, in UTC, with milliseconds.
pub uninterp spec fn rfc3339_text(seconds: u64, nanoseconds: u32) -> Seq<char>;

/// `DateTime::<Utc>::from` of `chrono` on a system time, and `to_rfc3339_opts` on its result, with
/// milliseconds and `Z` for UTC. It panics on a moment that the calendar does not hold.
#[verifier::external_body]
pub(crate) fn format_rfc3339(seconds: u64, nanoseconds: u32) -> (text: String)
    requires
        seconds <= LAST_CALENDAR_SECOND,
        nanoseconds < 1_000_000_000,
    ensures
        text@ == rfc3339_text(seconds, nanoseconds),
{
    let moment = std::time::UNIX_EPOCH + std::time::Duration::new(seconds, nanoseconds);
    chrono::DateTime::<chrono::Utc>::from(moment).to_rfc3339_opts(chrono::SecondsFormat::Millis, true)
}

/// The JSON text of an object with two string members.
pub uninterp spec fn json_object_text(
    first_key: Seq<char>,
    first: Seq<char>,
    second_key: Seq<char>,
    second: Seq<char>,
) -> Seq<char>;

/// Text that JSON holds as it is: printable ASCII without quotes and backslashes.
pub open spec fn plain(text: Seq<char>) -> bool {
    forall|i: int| 0 <= i < text.len() ==> ' ' <= #[trigger] text[i] <= '~' && text[i] != '"' && text[i] != '\\'
}

/// An object with two string members, written without escapes.
pub open spec fn plain_object(
    first_key: Seq<char>,
    first: Seq<char>,
    second_key: Seq<char>,
    second: Seq<char>,
) -> Seq<char> {
    "{\""@ + first_key + "\":\""@ + first + "\",\""@ + second_key + "\":\""@ + second + "\"}"@
}

/// `to_string` of a `Value::Object` of `serde_json` with two string members. Where all four texts are
/// plain and the first key comes before the second, the text is written without escapes, the first
/// member first.
#[verifier::external_body]
pub(crate) fn json_object(first_key: &str, first: &str, second_key: &str, second: &str) -> (text: String)
    ensures
        text@ == json_object_text(first_key@, first@, second_key@, second@),
        plain(first_key@) && plain(first@) && plain(second_key@) && plain(second@) && text_before(
            first_key@,
            second_key@,
        ) ==> text@ == plain_object(first_key@, first@, second_key@, second@),
{
    let mut members = serde_json::Map::new();
    members.insert(first_key.to_owned(), serde_json::Value::String(first.to_owned()));
    members.insert(second_key.to_owned(), serde_json::Value::String(second.to_owned()));
    serde_json::Value::Object(members).to_string()
}

} // verus!
