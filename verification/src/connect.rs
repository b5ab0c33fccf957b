//! Connect framing: a message in a stream is one byte of flags, four bytes of length with the most
//! significant one first, and the payload.

use crate::outside::{plain, plain_object};
use crate::reply::{error_object, write_error_object};
use crate::text::{append_bytes, copy_bytes, join};
use vstd::prelude::*;
use vstd::slice::*;
use vstd::utf8::*;

verus! {

/// The flag of the last frame of a stream.
pub const END_STREAM: u8 = 2;

/// A length in four bytes, the most significant one first.
pub open spec fn length_bytes(length: nat) -> Seq<u8> {
    seq![
        (length / 16777216) as u8,
        (length / 65536 % 256) as u8,
        (length / 256 % 256) as u8,
        (length % 256) as u8,
    ]
}

/// The length that four bytes denote, the most significant one first.
pub open spec fn length_value(bytes: Seq<u8>) -> nat {
    (bytes[0] * 16777216 + bytes[1] * 65536 + bytes[2] * 256 + bytes[3]) as nat
}

/// A frame.
pub open spec fn frame(flags: u8, payload: Seq<u8>) -> Seq<u8> {
    seq![flags] + length_bytes(payload.len()) + payload
}

/// Why bytes are not one frame.
#[derive(Clone, Copy, Debug, PartialEq, Eq, Structural)]
pub enum FrameError {
    /// There are fewer bytes than a header has.
    ShortHeader,
    /// There are fewer bytes than the header tells.
    ShortPayload,
    /// There are more bytes than the header tells.
    TrailingBytes,
}

/// The flags and the payload of one frame, or why the bytes are not one.
pub open spec fn frame_content(bytes: Seq<u8>) -> Result<(u8, Seq<u8>), FrameError> {
    let length = length_value(bytes.subrange(1, 5));
    if bytes.len() < 5 {
        Err(FrameError::ShortHeader)
    } else if bytes.len() - 5 < length {
        Err(FrameError::ShortPayload)
    } else if bytes.len() - 5 > length {
        Err(FrameError::TrailingBytes)
    } else {
        Ok((bytes[0], bytes.skip(5)))
    }
}

/// The description of why bytes are not one frame.
pub open spec fn frame_error_text(error: FrameError) -> Seq<char> {
    match error {
        FrameError::ShortHeader => "Connect frame header is incomplete"@,
        FrameError::ShortPayload => "Connect frame payload is incomplete"@,
        FrameError::TrailingBytes => "Connect frame has trailing bytes"@,
    }
}

impl FrameError {
    /// Describes the error.
    pub fn message(self) -> (text: String)
        ensures
            text@ == frame_error_text(self),
    {
        let text: &str = match self {
            FrameError::ShortHeader => "Connect frame header is incomplete",
            FrameError::ShortPayload => "Connect frame payload is incomplete",
            FrameError::TrailingBytes => "Connect frame has trailing bytes",
        };
        text.to_owned()
    }
}

/// Reads one frame.
pub fn decode_frame(bytes: &[u8]) -> (content: Result<(u8, Vec<u8>), FrameError>)
    ensures
        match content {
            Ok((flags, payload)) => frame_content(bytes@) == Ok::<(u8, Seq<u8>), FrameError>((flags, payload@)),
            Err(error) => frame_content(bytes@) == Err::<(u8, Seq<u8>), FrameError>(error),
        },
{
    if bytes.len() < 5 {
        return Err(FrameError::ShortHeader);
    }
    let high: u64 = bytes[1] as u64 * 16777216 + bytes[2] as u64 * 65536;
    let length: u64 = high + bytes[3] as u64 * 256 + bytes[4] as u64;
    assert(length == length_value(bytes@.subrange(1, 5)));
    let rest: u64 = (bytes.len() - 5) as u64;
    if rest < length {
        return Err(FrameError::ShortPayload);
    }
    if rest > length {
        return Err(FrameError::TrailingBytes);
    }
    let payload = slice_subrange(bytes, 5, bytes.len());
    assert(payload@ =~= bytes@.skip(5));
    Ok((bytes[0], copy_bytes(payload)))
}

/// Writes one frame. The payload has to be short enough for its length to fit into the header.
pub fn encode_frame(flags: u8, payload: &[u8]) -> (bytes: Vec<u8>)
    requires
        payload@.len() <= u32::MAX,
    ensures
        bytes@ == frame(flags, payload@),
{
    let length: usize = payload.len();
    let mut bytes: Vec<u8> = Vec::new();
    bytes.push(flags);
    bytes.push((length / 16777216) as u8);
    bytes.push((length / 65536 % 256) as u8);
    bytes.push((length / 256 % 256) as u8);
    bytes.push((length % 256) as u8);
    append_bytes(&mut bytes, payload);
    assert(bytes@ =~= frame(flags, payload@));
    bytes
}

/// A message of a stream: a regular frame.
pub open spec fn message_frame(payload: Seq<u8>) -> Seq<u8> {
    frame(0, payload)
}

/// Writes a message of a stream as a regular frame.
pub fn encode_stream_message(payload: &[u8]) -> (bytes: Vec<u8>)
    requires
        payload@.len() <= u32::MAX,
    ensures
        bytes@ == frame(0, payload@),
        bytes@ == message_frame(payload@),
{
    encode_frame(0, payload)
}

/// An error that ends a stream.
#[verifier::ext_equal]
#[derive(Clone, Debug, PartialEq, Eq)]
pub struct ConnectErrorOf<T> {
    pub code: T,
    pub message: T,
}

pub type ConnectError = ConnectErrorOf<String>;

pub type ConnectErrorView = ConnectErrorOf<Seq<char>>;

impl View for ConnectErrorOf<String> {
    type V = ConnectErrorOf<Seq<char>>;

    open spec fn view(&self) -> ConnectErrorOf<Seq<char>> {
        ConnectErrorOf { code: self.code@, message: self.message@ }
    }
}

impl ConnectErrorOf<String> {
    /// Makes an error.
    pub fn new(code: &str, message: String) -> (error: Self)
        ensures
            error@ == (ConnectErrorOf { code: code@, message: message@ }),
    {
        ConnectErrorOf { code: code.to_owned(), message }
    }
}

/// The content of an optional error.
pub open spec fn error_content(error: Option<ConnectError>) -> Option<ConnectErrorView> {
    match error {
        Some(error) => Some(error@),
        None => None,
    }
}

/// The JSON text in the last frame of a stream, given the JSON text of the error where there is one.
pub open spec fn end_text(error: Option<Seq<char>>) -> Seq<char> {
    match error {
        Some(object) => "{\"error\":"@ + object + "}"@,
        None => "{}"@,
    }
}

/// The JSON text in the last frame of a stream.
pub open spec fn end_payload(error: Option<ConnectErrorView>) -> Seq<u8> {
    encode_utf8(
        end_text(
            match error {
                Some(error) => Some(error_object(error.code, error.message)),
                None => None,
            },
        ),
    )
}

/// Writes the JSON text in the last frame of a stream, given the JSON text of the error where there
/// is one.
pub fn write_end(error: Option<String>) -> (text: String)
    ensures
        text@ == end_text(crate::text::optional(error)),
{
    match error {
        Some(object) => {
            let start: String = join("{\"error\":", object.as_str());
            join(start.as_str(), "}")
        },
        None => "{}".to_owned(),
    }
}

/// Writes the last frame of a stream that ends without an error.
pub fn encode_plain_end() -> (bytes: Vec<u8>)
    ensures
        bytes@ == frame(END_STREAM, end_payload(None)),
{
    let text: String = write_end(None);
    proof {
        reveal_strlit("{}");
        is_ascii_chars_encode_utf8("{}"@);
    }
    encode_frame(END_STREAM, text.as_str().as_bytes())
}

/// Writes the last frame of a stream. There is none where the error is too long for its length to fit
/// into the header.
pub fn encode_end_stream(error: Option<ConnectError>) -> (bytes: Option<Vec<u8>>)
    ensures
        ({
            let payload = end_payload(error_content(error));
            match bytes {
                Some(bytes) => payload.len() <= u32::MAX && bytes@ == frame(END_STREAM, payload),
                None => payload.len() > u32::MAX,
            }
        }),
        error is None ==> bytes is Some,
        error matches Some(error) ==> plain(error@.code) && plain(error@.message) && bytes is Some ==> bytes->0@
            == frame(
            END_STREAM,
            encode_utf8("{\"error\":"@ + plain_object("code"@, error@.code, "message"@, error@.message) + "}"@),
        ),
{
    let object: Option<String> = match &error {
        Some(error) => Some(write_error_object(error.code.as_str(), error.message.as_str())),
        None => None,
    };
    let text: String = write_end(object);
    let payload = text.as_str().as_bytes();
    proof {
        reveal_strlit("{}");
        is_ascii_chars_encode_utf8("{}"@);
    }
    if payload.len() as u64 <= u32::MAX as u64 {
        Some(encode_frame(END_STREAM, payload))
    } else {
        None
    }
}

/// What was written as a frame is read back.
pub proof fn law_frame_reads_back(flags: u8, payload: Seq<u8>)
    requires
        payload.len() <= u32::MAX,
    ensures
        frame_content(frame(flags, payload)) == Ok::<(u8, Seq<u8>), FrameError>((flags, payload)),
{
    let bytes = frame(flags, payload);
    let length = payload.len();
    assert(bytes.subrange(1, 5) =~= length_bytes(length));
    assert(bytes.skip(5) =~= payload);
    assert(length / 16777216 < 256);
    assert(length == length / 16777216 * 16777216 + length / 65536 % 256 * 65536 + length / 256 % 256 * 256 + length
        % 256) by {
        assert(length / 65536 / 256 == length / 16777216);
        assert(length / 256 / 256 == length / 65536);
    }
}

/// Bytes that are read as a frame are what the frame is written as: no two byte strings have the same
/// content.
pub proof fn law_frame_is_unique(bytes: Seq<u8>)
    ensures
        frame_content(bytes) matches Ok((flags, payload)) ==> frame(flags, payload) == bytes && payload.len()
            <= u32::MAX,
{
    if let Ok((flags, payload)) = frame_content(bytes) {
        let header = bytes.subrange(1, 5);
        let length = payload.len();
        let (a, b, c, d) = (header[0], header[1], header[2], header[3]);
        assert(length == a * 16777216 + b * 65536 + c * 256 + d);
        assert(length / 16777216 == a);
        assert(length / 65536 == a * 256 + b);
        assert(length / 256 == a * 65536 + b * 256 + c);
        assert(length_bytes(length) =~= header);
        assert(frame(flags, payload) =~= bytes);
    }
}

/// A reader can tell where a stream ends: the last frame carries another flag than a message.
pub proof fn law_end_is_told_from_messages(message: Seq<u8>, end: Seq<u8>)
    ensures
        frame(0, message) != frame(END_STREAM, end),
{
    assert(frame(0, message)[0] == 0);
    assert(frame(END_STREAM, end)[0] == END_STREAM);
}

} // verus!
