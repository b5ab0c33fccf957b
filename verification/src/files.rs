//! Reading files over HTTP, whole or in part.

use crate::fsutil::{
    bits_for, class_bits, failure_of, found_account, is_unrestricted, require_account, unrestricted,
    user_refusal, validate_username,
};
use crate::host::{
    answered, error, exchange, mismatch, mismatch_error, modifies, Account, Answer, AnswerOf, AnswerView,
    ErrorKind, FsError, FsErrorOf, FsErrorView, FsOpOf, FsOpView, Lookup, LookupOf, LookupView, Metadata,
    MetadataView, ModifiedOf, Step, StepOf, StepView,
};
use crate::outside::{
    format_utc, in_calendar, parse_rfc2822, rfc2822_second, utc_text, FIRST_CALENDAR_SECOND, HTTP_DATE_PATTERN,
    LAST_CALENDAR_SECOND, LAST_FOUR_DIGIT_SECOND,
};
use crate::reply::{coded_error, request_error_response, Reply, ReplyOf, ReplyView};
use crate::text::{
    all_visible, ascii_text, borrowed, copy_bytes, decimal, decimal_text, find_byte, first_place, has_prefix,
    header_bytes, header_content, header_text, is_all_visible, is_visible, join, lemma_ascii_text, optional,
    optional_bytes, parse_unsigned, show, shown, unsigned_value,
};
use vstd::prelude::*;
use vstd::slice::*;
use vstd::utf8::*;

verus! {

/// The most bytes that a file may have to be sent, or an upload to be accepted.
pub const MAX_FILE_BODY_SIZE: usize = 64 * 1024 * 1024;

/// The unit of a range and the sign behind it: `bytes=`.
pub open spec fn range_unit() -> Seq<u8> {
    seq![98, 121, 116, 101, 115, 61]
}

/// The number that a text denotes, where it fits into a `usize`.
pub open spec fn place_value(text: Seq<u8>) -> Option<nat> {
    match unsigned_value(text) {
        Some(number) => if number <= usize::MAX {
            Some(number)
        } else {
            None
        },
        None => None,
    }
}

/// The bytes, from the first to the last, that two texts on both sides of a dash ask for. The last
/// number is cut off at the end of the file. Where it is missing, the rest of the file is meant.
/// Where the first number is missing, the other one counts from the end of the file.
pub open spec fn span(first: Seq<u8>, last: Seq<u8>, length: nat) -> Option<(nat, nat)> {
    let end = (length - 1) as nat;
    if length == 0 {
        None
    } else if first.len() == 0 {
        match place_value(last) {
            Some(count) => if count == 0 {
                None
            } else if count >= length {
                Some((0, end))
            } else {
                Some(((length - count) as nat, end))
            },
            None => None,
        }
    } else {
        match place_value(first) {
            Some(start) => if start >= length {
                None
            } else if last.len() == 0 {
                Some((start, end))
            } else {
                match place_value(last) {
                    Some(stop) => if start > stop {
                        None
                    } else if stop > end {
                        Some((start, end))
                    } else {
                        Some((start, stop))
                    },
                    None => None,
                }
            },
            None => None,
        }
    }
}

/// What the value of a `Range` header asks for: one span of bytes, or nothing that can be served.
pub open spec fn value_span(value: Seq<u8>, length: nat) -> Option<(nat, nat)> {
    let ranges = value.skip(6);
    let dash = first_place(ranges, 45) as int;
    if !all_visible(value) || value.len() < 6 || value.take(6) != range_unit() {
        None
    } else if ranges.contains(44) || dash >= ranges.len() {
        None
    } else {
        span(ranges.take(dash), ranges.skip(dash + 1), length)
    }
}

/// What a request asks for of a file: all of it, where it has no `Range` header; a span of bytes; or
/// nothing that can be served.
pub open spec fn requested_range(value: Option<Seq<u8>>, length: nat) -> Result<Option<(nat, nat)>, ()> {
    match value {
        None => Ok(None),
        Some(value) => match value_span(value, length) {
            Some(span) => Ok(Some(span)),
            None => Err(()),
        },
    }
}

/// A range with machine numbers as one with numbers.
pub open spec fn range_numbers(range: Result<Option<(usize, usize)>, ()>) -> Result<Option<(nat, nat)>, ()> {
    match range {
        Ok(Some((start, end))) => Ok(Some((start as nat, end as nat))),
        Ok(None) => Ok(None),
        Err(()) => Err(()),
    }
}

/// Reads a number of bytes.
fn parse_place(text: &[u8]) -> (place: Option<usize>)
    ensures
        match place {
            Some(place) => place_value(text@) == Some(place as nat),
            None => place_value(text@) is None,
        },
{
    match parse_unsigned(text, usize::MAX as u64) {
        Some(place) => Some(place as usize),
        None => None,
    }
}

/// Reads the numbers of a range.
fn parse_span(first: &[u8], last: &[u8], length: usize) -> (range: Option<(usize, usize)>)
    ensures
        match range {
            Some((start, end)) => span(first@, last@, length as nat) == Some((start as nat, end as nat)),
            None => span(first@, last@, length as nat) is None,
        },
{
    if length == 0 {
        return None;
    }
    let end: usize = length - 1;
    if first.len() == 0 {
        return match parse_place(last) {
            Some(count) => if count == 0 {
                None
            } else if count >= length {
                Some((0, end))
            } else {
                Some((length - count, end))
            },
            None => None,
        };
    }
    match parse_place(first) {
        Some(start) => if start >= length {
            None
        } else if last.len() == 0 {
            Some((start, end))
        } else {
            match parse_place(last) {
                Some(stop) => if start > stop {
                    None
                } else if stop > end {
                    Some((start, end))
                } else {
                    Some((start, stop))
                },
                None => None,
            }
        },
        None => None,
    }
}

/// Reads the value of a `Range` header for a file of the given length. It is an error to ask for
/// what cannot be served, several ranges among it.
pub fn parse_range(value: Option<&[u8]>, length: usize) -> (range: Result<Option<(usize, usize)>, ()>)
    ensures
        range_numbers(range) == requested_range(header_bytes(value), length as nat),
{
    let value = match value {
        Some(value) => value,
        None => {
            return Ok(None);
        },
    };
    let unit: [u8; 6] = [98, 121, 116, 101, 115, 61];
    assert(unit@ =~= range_unit());
    if !is_all_visible(value) || !has_prefix(value, &unit) {
        return Err(());
    }
    let ranges = slice_subrange(value, 6, value.len());
    assert(ranges@ =~= value@.skip(6));
    let comma: usize = find_byte(ranges, 44);
    let dash: usize = find_byte(ranges, 45);
    if comma < ranges.len() {
        assert(ranges@.contains(44)) by {
            assert(ranges@[comma as int] == 44);
        }
        return Err(());
    }
    assert(!ranges@.contains(44));
    if dash >= ranges.len() {
        return Err(());
    }
    let first = slice_subrange(ranges, 0, dash);
    let last = slice_subrange(ranges, dash + 1, ranges.len());
    assert(first@ =~= ranges@.take(dash as int));
    assert(last@ =~= ranges@.skip(dash + 1));
    match parse_span(first, last, length) {
        Some(range) => Ok(Some(range)),
        None => Err(()),
    }
}

/// A range that is served lies inside the file and is not empty.
pub proof fn law_range_lies_in_file(value: Option<Seq<u8>>, length: nat)
    ensures
        requested_range(value, length) matches Ok(Some((start, end))) ==> start <= end < length,
{
}

/// The date of a second, as it stands in HTTP headers.
pub open spec fn http_date(seconds: u64) -> Seq<char> {
    utc_text(seconds as i64 as int, HTTP_DATE_PATTERN@)
}

/// All of a text is printable ASCII, so that it can stand in a header.
pub open spec fn printable(text: Seq<char>) -> bool {
    forall|i: int| 0 <= i < text.len() ==> ' ' <= #[trigger] text[i] <= '~'
}

/// The second that a number read from a date stands for: none before the Unix epoch.
pub open spec fn after_epoch(second: Option<int>) -> Option<u64> {
    match second {
        Some(second) => if 0 <= second <= u64::MAX {
            Some(second as u64)
        } else {
            None
        },
        None => None,
    }
}

/// Writes a modification time as it stands in HTTP headers. Up to the year 9999 the date is read back
/// as the same second.
pub fn format_http_date(seconds: u64) -> (date: String)
    requires
        in_calendar(seconds as i64),
    ensures
        date@ == http_date(seconds),
        printable(date@),
        seconds <= LAST_FOUR_DIGIT_SECOND ==> after_epoch(rfc2822_second(date@)) == Some(seconds),
{
    match format_utc(seconds as i64, HTTP_DATE_PATTERN) {
        Some(date) => date,
        None => String::new(),
    }
}

/// The second of a date, given what the date was read as.
pub fn second_after_epoch(second: Option<i64>) -> (after: Option<u64>)
    ensures
        after == after_epoch(match second {
            Some(second) => Some(second as int),
            None => None,
        }),
{
    match second {
        Some(second) => if second >= 0 {
            Some(second as u64)
        } else {
            None
        },
        None => None,
    }
}

/// Reads a date out of an HTTP header.
pub fn parse_http_date(value: &str) -> (second: Option<u64>)
    ensures
        second == after_epoch(rfc2822_second(value@)),
{
    match parse_rfc2822(value) {
        Ok(second) => second_after_epoch(Some(second)),
        Err(_) => second_after_epoch(None),
    }
}

/// The second that an `If-Modified-Since` header names.
pub open spec fn requested_second(if_modified_since: Option<Seq<u8>>) -> Option<u64> {
    match if_modified_since {
        Some(value) => match header_content(value) {
            Some(text) => after_epoch(rfc2822_second(text)),
            None => None,
        },
        None => None,
    }
}

/// A file as it was read.
#[verifier::ext_equal]
#[derive(Debug, PartialEq, Eq)]
pub struct FileReadOf<B, T> {
    pub data: B,
    pub last_modified: T,
    pub modified_seconds: u64,
}

pub type FileRead = FileReadOf<Vec<u8>, String>;

pub type FileReadView = FileReadOf<Seq<u8>, Seq<char>>;

impl View for FileReadOf<Vec<u8>, String> {
    type V = FileReadOf<Seq<u8>, Seq<char>>;

    open spec fn view(&self) -> FileReadOf<Seq<u8>, Seq<char>> {
        FileReadOf {
            data: self.data@,
            last_modified: self.last_modified@,
            modified_seconds: self.modified_seconds,
        }
    }
}

/// The date of a file can stand in a header, and up to the year 9999 it is read back as the time of the
/// last modification.
pub open spec fn dated(read: FileReadView) -> bool {
    &&& printable(read.last_modified)
    &&& read.modified_seconds <= LAST_FOUR_DIGIT_SECOND ==> after_epoch(rfc2822_second(read.last_modified)) == Some(
        read.modified_seconds,
    )
}

/// A reply to a request for a file.
pub open spec fn file_reply(
    status: u16,
    last_modified: Seq<char>,
    content_range: Option<Seq<char>>,
    body: Seq<u8>,
) -> ReplyView {
    ReplyOf {
        status,
        content_type: "text/plain; charset=utf-8"@,
        accept_ranges: Some("bytes"@),
        last_modified: Some(last_modified),
        content_range,
        body,
    }
}

/// The text of a range that is served.
pub open spec fn served_range(start: nat, end: nat, length: nat) -> Seq<char> {
    "bytes "@ + decimal_text(start) + "-"@ + decimal_text(end) + "/"@ + decimal_text(length)
}

/// The text that tells the length of a file of which the requested range cannot be served.
pub open spec fn unserved_range(length: nat) -> Seq<char> {
    "bytes */"@ + decimal_text(length)
}

/// The reply to a request for a file, given the second that the client already has it from. A file
/// that was not modified later is not sent. Otherwise the requested part of it is sent, or the length
/// of the file where that part cannot be served.
pub open spec fn read_reply(since: Option<u64>, range: Option<Seq<u8>>, read: FileReadView) -> ReplyView {
    let length = read.data.len();
    if since is Some && since->0 >= read.modified_seconds {
        file_reply(304, read.last_modified, None, Seq::empty())
    } else {
        match requested_range(range, length) {
            Err(()) => file_reply(416, read.last_modified, Some(unserved_range(length)), Seq::empty()),
            Ok(Some((start, end))) => file_reply(
                206,
                read.last_modified,
                Some(served_range(start, end, length)),
                read.data.subrange(start as int, end as int + 1),
            ),
            Ok(None) => file_reply(200, read.last_modified, None, read.data),
        }
    }
}

/// Makes a reply to a request for a file.
fn response_with_file_headers(
    status: u16,
    last_modified: String,
    content_range: Option<String>,
    body: Vec<u8>,
) -> (reply: Reply)
    ensures
        reply@ == file_reply(status, last_modified@, optional(content_range), body@),
{
    ReplyOf {
        status,
        content_type: "text/plain; charset=utf-8".to_owned(),
        accept_ranges: Some("bytes".to_owned()),
        last_modified: Some(last_modified),
        content_range,
        body,
    }
}

/// Answers a request for a file, given the second that the client already has it from.
pub fn read_response(since: Option<u64>, range: Option<&[u8]>, read: FileRead) -> (reply: Reply)
    ensures
        reply@ == read_reply(since, header_bytes(range), read@),
{
    match since {
        Some(second) => {
            if second >= read.modified_seconds {
                return response_with_file_headers(304, read.last_modified, None, Vec::new());
            }
        },
        None => {},
    }
    let length: usize = read.data.len();
    match parse_range(range, length) {
        Err(()) => {
            let total: String = decimal(length as u64);
            let content_range: String = join("bytes */", total.as_str());
            response_with_file_headers(416, read.last_modified, Some(content_range), Vec::new())
        },
        Ok(Some((start, end))) => {
            proof {
                law_range_lies_in_file(header_bytes(range), length as nat);
            }
            let mut content_range: String = join("bytes ", decimal(start as u64).as_str());
            content_range = join(content_range.as_str(), "-");
            content_range = join(content_range.as_str(), decimal(end as u64).as_str());
            content_range = join(content_range.as_str(), "/");
            content_range = join(content_range.as_str(), decimal(length as u64).as_str());
            let part: Vec<u8> = copy_bytes(slice_subrange(&read.data, start, end + 1));
            response_with_file_headers(206, read.last_modified, Some(content_range), part)
        },
        Ok(None) => response_with_file_headers(200, read.last_modified, None, read.data),
    }
}

/// Answers a request for a file, given its `If-Modified-Since` and `Range` headers.
pub fn build_read_response(if_modified_since: Option<&[u8]>, range: Option<&[u8]>, read: FileRead) -> (reply: Reply)
    ensures
        reply@ == read_reply(requested_second(header_bytes(if_modified_since)), header_bytes(range), read@),
{
    let since: Option<u64> = match if_modified_since {
        Some(value) => match header_text(value) {
            Some(text) => parse_http_date(text.as_str()),
            None => None,
        },
        None => None,
    };
    read_response(since, range, read)
}

/// The `Last-Modified` date of a reply makes the next reply empty when it is sent back as
/// `If-Modified-Since` and the file has not been modified in the meantime, whatever range is asked for.
/// Dates after the year 9999 are left out: they are not read back.
pub proof fn law_unmodified_file_is_not_sent_again(range: Option<Seq<u8>>, read: FileReadView)
    requires
        dated(read),
        read.modified_seconds <= LAST_FOUR_DIGIT_SECOND,
    ensures
        read_reply(requested_second(Some(encode_utf8(read.last_modified))), range, read) == file_reply(
            304,
            read.last_modified,
            None,
            Seq::empty(),
        ),
{
    let chars = read.last_modified;
    let bytes = Seq::new(chars.len(), |i: int| chars[i] as u8);
    assert forall|i: int| 0 <= i < bytes.len() implies #[trigger] bytes[i] < 128 && is_visible(bytes[i])
        && bytes[i] as char == chars[i] by {
        assert(' ' <= chars[i] <= '~');
    }
    lemma_ascii_text(bytes);
    assert(ascii_text(bytes) =~= chars);
}

/// What a request says of a file: its path, and the user that asks.
#[verifier::ext_equal]
#[derive(Clone, Debug, PartialEq, Eq)]
pub struct FileQueryOf<T> {
    pub path: T,
    pub username: Option<T>,
}

pub type FileQuery = FileQueryOf<String>;

pub type FileQueryView = FileQueryOf<Seq<char>>;

impl View for FileQueryOf<String> {
    type V = FileQueryOf<Seq<char>>;

    open spec fn view(&self) -> FileQueryOf<Seq<char>> {
        FileQueryOf { path: self.path@, username: optional(self.username) }
    }
}

/// The user that asks: `root` where none is named.
pub open spec fn asking_user(query: FileQueryView) -> Seq<char> {
    match query.username {
        Some(username) => username,
        None => "root"@,
    }
}

/// Names the user that asks.
pub fn username_of(username: Option<String>) -> (name: String)
    ensures
        name@ == (match username {
            Some(username) => username@,
            None => "root"@,
        }),
{
    match username {
        Some(username) => username,
        None => "root".to_owned(),
    }
}

/// Whether an account may read a file.
pub open spec fn may_read(account: Account, metadata: MetadataView) -> bool {
    metadata.mode & class_bits(account, metadata, 0o400, 0o040, 0o004) != 0
}

/// Why a user may not read a file, where they may not, given what two searches for the account brought,
/// the first to see that the user exists and the second to see which permissions hold, and what is known
/// of the file. An unrestricted user may read every file.
pub open spec fn read_refusal(
    path: Seq<u8>,
    username: Seq<char>,
    validated: LookupView,
    lookup: LookupView,
    metadata: MetadataView,
) -> Option<FsErrorView> {
    if unrestricted(username) {
        None
    } else {
        match (user_refusal(username, validated), found_account(lookup)) {
            (Some(failure), _) => Some(failure),
            (None, Err(failure)) => Some(failure),
            (None, Ok(account)) => if may_read(account, metadata) {
                None
            } else {
                Some(
                    FsErrorOf {
                        kind: ErrorKind::PermissionDenied,
                        message: "user "@ + username + " cannot read "@ + shown(path),
                    },
                )
            },
        }
    }
}

/// Checks that a user may read a file, given what two searches for the account brought and what is known
/// of the file. Neither matters for an unrestricted user.
pub fn check_read_permission(
    path: &[u8],
    username: &str,
    validated: &Lookup,
    lookup: &Lookup,
    metadata: &Metadata,
) -> (result: Result<(), FsError>)
    ensures
        failure_of(result) == read_refusal(path@, username@, validated@, lookup@, metadata@),
{
    if is_unrestricted(username) {
        return Ok(());
    }
    match validate_username(username, validated) {
        Err(failure) => Err(failure),
        Ok(()) => match require_account(lookup) {
            Err(failure) => Err(failure),
            Ok(account) => {
                if metadata.mode & bits_for(account, metadata, 0o400, 0o040, 0o004) != 0 {
                    return Ok(());
                }
                let mut message: String = join("user ", username);
                message = join(message.as_str(), " cannot read ");
                message = join(message.as_str(), show(path).as_str());
                Err(FsErrorOf { kind: ErrorKind::PermissionDenied, message })
            },
        },
    }
}

/// The time of the last modification in whole seconds after the Unix epoch.
pub open spec fn modification(metadata: MetadataView) -> Result<u64, FsErrorView> {
    match metadata.modified {
        ModifiedOf::At { seconds, .. } => Ok(seconds),
        ModifiedOf::Unknown(message) => Err(FsErrorOf { kind: ErrorKind::Other, message }),
    }
}

/// Reads the time of the last modification.
pub fn modified_seconds(metadata: &Metadata) -> (result: Result<u64, FsError>)
    ensures
        match result {
            Ok(seconds) => modification(metadata@) == Ok::<u64, FsErrorView>(seconds),
            Err(failure) => modification(metadata@) == Err::<u64, FsErrorView>(failure@),
        },
{
    match &metadata.modified {
        ModifiedOf::At { seconds, .. } => Ok(*seconds),
        ModifiedOf::Unknown(message) => Err(FsErrorOf { kind: ErrorKind::Other, message: message.clone() }),
    }
}

/// How far the reading of a file has come: its real path is asked for; the account of the user, to see
/// that the user exists; the account again, to see which permissions hold for it; what is known of the
/// file, to check the permission; the same, to learn its size and time; its content.
#[verifier::ext_equal]
#[derive(Debug, PartialEq, Eq)]
pub enum ReadStageOf<B, T> {
    Path,
    Validate { path: B },
    Account { path: B },
    Access { path: B, account: Account },
    Metadata { path: B },
    Content { last_modified: T, modified_seconds: u64 },
}

/// The reading of a file for a request.
#[verifier::ext_equal]
#[derive(Debug, PartialEq, Eq)]
pub struct ReadFileOf<B, T> {
    pub stage: ReadStageOf<B, T>,
    pub username: T,
    pub if_modified_since: Option<B>,
    pub range: Option<B>,
}

pub type ReadFile = ReadFileOf<Vec<u8>, String>;

pub type ReadFileView = ReadFileOf<Seq<u8>, Seq<char>>;

impl View for ReadStageOf<Vec<u8>, String> {
    type V = ReadStageOf<Seq<u8>, Seq<char>>;

    open spec fn view(&self) -> ReadStageOf<Seq<u8>, Seq<char>> {
        match self {
            ReadStageOf::Path => ReadStageOf::Path,
            ReadStageOf::Validate { path } => ReadStageOf::Validate { path: path@ },
            ReadStageOf::Account { path } => ReadStageOf::Account { path: path@ },
            ReadStageOf::Access { path, account } => ReadStageOf::Access { path: path@, account: *account },
            ReadStageOf::Metadata { path } => ReadStageOf::Metadata { path: path@ },
            ReadStageOf::Content { last_modified, modified_seconds } => ReadStageOf::Content {
                last_modified: last_modified@,
                modified_seconds: *modified_seconds,
            },
        }
    }
}

impl View for ReadFileOf<Vec<u8>, String> {
    type V = ReadFileOf<Seq<u8>, Seq<char>>;

    open spec fn view(&self) -> ReadFileOf<Seq<u8>, Seq<char>> {
        ReadFileOf {
            stage: self.stage@,
            username: self.username@,
            if_modified_since: optional_bytes(self.if_modified_since),
            range: optional_bytes(self.range),
        }
    }
}

/// The reply for a file that is too large to be sent.
pub open spec fn too_large() -> ReplyView {
    coded_error(
        413,
        "invalid_argument"@,
        "file exceeds the "@ + decimal_text(MAX_FILE_BODY_SIZE as nat) + " byte limit"@,
    )
}

/// The failure of a file whose modification time no date can express.
pub open spec fn no_date() -> FsErrorView {
    FsErrorOf {
        kind: ErrorKind::Other,
        message: "file modification time is not representable as an HTTP date"@,
    }
}

/// Begins with the real path of the file.
pub open spec fn read_start(
    query: FileQueryView,
    if_modified_since: Option<Seq<u8>>,
    range: Option<Seq<u8>>,
) -> StepView<ReadFileView, ReplyView> {
    StepOf::Ask(
        FsOpOf::Canonicalize(encode_utf8(query.path)),
        ReadFileOf { stage: ReadStageOf::Path, username: asking_user(query), if_modified_since, range },
    )
}

/// Goes on once the size and the time of the file are known.
pub open spec fn read_sized(
    reading: ReadFileView,
    path: Seq<u8>,
    metadata: MetadataView,
) -> StepView<ReadFileView, ReplyView> {
    if metadata.size > MAX_FILE_BODY_SIZE {
        StepOf::Finish(too_large())
    } else {
        match modification(metadata) {
            Err(failure) => StepOf::Fail(failure),
            Ok(seconds) => if in_calendar(seconds as i64) {
                StepOf::Ask(
                    FsOpOf::ReadFile(path),
                    ReadFileOf {
                        stage: ReadStageOf::Content { last_modified: http_date(seconds), modified_seconds: seconds },
                        ..reading
                    },
                )
            } else {
                StepOf::Fail(no_date())
            },
        }
    }
}

/// Goes on with an answer of the host. A user who is held to permissions must exist and may read the
/// file; then the size is checked; then the content is read and answered with.
pub open spec fn read_next(reading: ReadFileView, answer: AnswerView) -> StepView<ReadFileView, ReplyView> {
    match (reading.stage, answer) {
        (ReadStageOf::Path, AnswerOf::Path(path)) => if unrestricted(reading.username) {
            StepOf::Ask(FsOpOf::Metadata(path), ReadFileOf { stage: ReadStageOf::Metadata { path }, ..reading })
        } else {
            StepOf::Ask(
                FsOpOf::FindAccount(reading.username),
                ReadFileOf { stage: ReadStageOf::Validate { path }, ..reading },
            )
        },
        (ReadStageOf::Validate { path }, AnswerOf::Account(lookup)) => match user_refusal(reading.username, lookup) {
            Some(failure) => StepOf::Fail(failure),
            None => StepOf::Ask(
                FsOpOf::FindAccount(reading.username),
                ReadFileOf { stage: ReadStageOf::Account { path }, ..reading },
            ),
        },
        (ReadStageOf::Account { path }, AnswerOf::Account(lookup)) => match found_account(lookup) {
            Err(failure) => StepOf::Fail(failure),
            Ok(account) => StepOf::Ask(
                FsOpOf::Metadata(path),
                ReadFileOf { stage: ReadStageOf::Access { path, account }, ..reading },
            ),
        },
        (ReadStageOf::Access { path, account }, AnswerOf::Metadata(metadata)) => match read_refusal(
            path,
            reading.username,
            LookupOf::Found(account),
            LookupOf::Found(account),
            metadata,
        ) {
            Some(failure) => StepOf::Fail(failure),
            None => StepOf::Ask(
                FsOpOf::Metadata(path),
                ReadFileOf { stage: ReadStageOf::Metadata { path }, ..reading },
            ),
        },
        (ReadStageOf::Metadata { path }, AnswerOf::Metadata(metadata)) => read_sized(reading, path, metadata),
        (ReadStageOf::Content { last_modified, modified_seconds }, AnswerOf::Data(data)) => StepOf::Finish(
            read_reply(
                requested_second(reading.if_modified_since),
                reading.range,
                FileReadOf { data, last_modified, modified_seconds },
            ),
        ),
        (_, AnswerOf::Failed(failure)) => StepOf::Fail(failure),
        _ => StepOf::Fail(mismatch()),
    }
}

/// A reading that waits for the content of a file has a date for it.
pub open spec fn dates_agree(step: StepView<ReadFileView, ReplyView>) -> bool {
    step matches StepOf::Ask(_, ReadFileOf { stage: ReadStageOf::Content { last_modified, modified_seconds }, .. })
        ==> forall|data: Seq<u8>| #[trigger] dated(FileReadOf { data, last_modified, modified_seconds })
}

/// Starts to answer a request for a file.
pub fn get(query: FileQuery, if_modified_since: Option<Vec<u8>>, range: Option<Vec<u8>>) -> (step: Step<ReadFile, Reply>)
    ensures
        step@ == read_start(query@, optional_bytes(if_modified_since), optional_bytes(range)),
{
    StepOf::Ask(
        FsOpOf::Canonicalize(copy_bytes(query.path.as_str().as_bytes())),
        ReadFileOf { stage: ReadStageOf::Path, username: username_of(query.username), if_modified_since, range },
    )
}

impl ReadFileOf<Vec<u8>, String> {
    /// Goes on once the size and the time of the file are known.
    fn sized(self, path: Vec<u8>, metadata: &Metadata) -> (step: Step<ReadFile, Reply>)
        ensures
            step@ == read_sized(self@, path@, metadata@),
            dates_agree(step@),
    {
        if metadata.size > MAX_FILE_BODY_SIZE as u64 {
            let mut message: String = join("file exceeds the ", decimal(MAX_FILE_BODY_SIZE as u64).as_str());
            message = join(message.as_str(), " byte limit");
            return StepOf::Finish(request_error_response(413, message.as_str()));
        }
        let modified_seconds: u64 = match modified_seconds(metadata) {
            Ok(seconds) => seconds,
            Err(failure) => {
                return StepOf::Fail(failure);
            },
        };
        let second: i64 = modified_seconds as i64;
        if second < FIRST_CALENDAR_SECOND || second > LAST_CALENDAR_SECOND {
            return StepOf::Fail(
                error(ErrorKind::Other, "file modification time is not representable as an HTTP date"),
            );
        }
        let last_modified: String = format_http_date(modified_seconds);
        StepOf::Ask(
            FsOpOf::ReadFile(path),
            ReadFileOf {
                stage: ReadStageOf::Content { last_modified, modified_seconds },
                username: self.username,
                if_modified_since: self.if_modified_since,
                range: self.range,
            },
        )
    }

    /// Goes on with an answer of the host.
    pub fn step(self, answer: Answer) -> (step: Step<ReadFile, Reply>)
        ensures
            step@ == read_next(self@, answer@),
            dates_agree(step@),
    {
        let ReadFileOf { stage, username, if_modified_since, range } = self;
        match (stage, answer) {
            (ReadStageOf::Path, AnswerOf::Path(path)) => if is_unrestricted(username.as_str()) {
                StepOf::Ask(
                    FsOpOf::Metadata(copy_bytes(&path)),
                    ReadFileOf { stage: ReadStageOf::Metadata { path }, username, if_modified_since, range },
                )
            } else {
                StepOf::Ask(
                    FsOpOf::FindAccount(username.clone()),
                    ReadFileOf { stage: ReadStageOf::Validate { path }, username, if_modified_since, range },
                )
            },
            (ReadStageOf::Validate { path }, AnswerOf::Account(lookup)) => match validate_username(
                username.as_str(),
                &lookup,
            ) {
                Err(failure) => StepOf::Fail(failure),
                Ok(()) => StepOf::Ask(
                    FsOpOf::FindAccount(username.clone()),
                    ReadFileOf { stage: ReadStageOf::Account { path }, username, if_modified_since, range },
                ),
            },
            (ReadStageOf::Account { path }, AnswerOf::Account(lookup)) => match require_account(&lookup) {
                Err(failure) => StepOf::Fail(failure),
                Ok(account) => StepOf::Ask(
                    FsOpOf::Metadata(copy_bytes(&path)),
                    ReadFileOf { stage: ReadStageOf::Access { path, account }, username, if_modified_since, range },
                ),
            },
            (ReadStageOf::Access { path, account }, AnswerOf::Metadata(metadata)) => match check_read_permission(
                &path,
                username.as_str(),
                &LookupOf::Found(account),
                &LookupOf::Found(account),
                &metadata,
            ) {
                Err(failure) => StepOf::Fail(failure),
                Ok(()) => StepOf::Ask(
                    FsOpOf::Metadata(copy_bytes(&path)),
                    ReadFileOf { stage: ReadStageOf::Metadata { path }, username, if_modified_since, range },
                ),
            },
            (ReadStageOf::Metadata { path }, AnswerOf::Metadata(metadata)) => {
                let reading: ReadFile = ReadFileOf {
                    stage: ReadStageOf::Path,
                    username,
                    if_modified_since,
                    range,
                };
                reading.sized(path, &metadata)
            },
            (ReadStageOf::Content { last_modified, modified_seconds }, AnswerOf::Data(data)) => {
                let read: FileRead = FileReadOf { data, last_modified, modified_seconds };
                StepOf::Finish(build_read_response(borrowed(&if_modified_since), borrowed(&range), read))
            },
            (_, AnswerOf::Failed(failure)) => StepOf::Fail(failure),
            _ => StepOf::Fail(mismatch_error()),
        }
    }
}

/// The status of a reply with a file: 304 where the file was not modified after the second that the
/// client has it from; otherwise 200 without a range, 206 for a range that can be served, and 416 for
/// one that cannot. Every reply says that ranges are served and when the file was last modified.
pub proof fn law_status_follows_the_headers(since: Option<u64>, range: Option<Seq<u8>>, read: FileReadView)
    ensures
        ({
            let reply = read_reply(since, range, read);
            let unmodified = since is Some && since->0 >= read.modified_seconds;
            let served = requested_range(range, read.data.len());
            &&& reply.status == 304 <==> unmodified
            &&& reply.status == 200 <==> !unmodified && range is None
            &&& reply.status == 206 <==> !unmodified && range is Some && served is Ok
            &&& reply.status == 416 <==> !unmodified && served is Err
            &&& reply.accept_ranges == Some("bytes"@)
            &&& reply.last_modified == Some(read.last_modified)
        }),
{
}

/// The rule by which a reading goes on.
pub open spec fn reading() -> spec_fn(ReadFileView, AnswerView) -> StepView<ReadFileView, ReplyView> {
    |reading: ReadFileView, answer: AnswerView| read_next(reading, answer)
}

/// What a host answers to the reading of a file for a user: the real path; for a user that is held to
/// permissions, what two searches for the account brought and what is known of the file; what is known of
/// the file for its size and time; its content.
pub open spec fn reading_answers(
    username: Seq<char>,
    path: Seq<u8>,
    validated: LookupView,
    lookup: LookupView,
    access: MetadataView,
    metadata: MetadataView,
    data: Seq<u8>,
) -> Seq<AnswerView> {
    let checked = if unrestricted(username) {
        Seq::empty()
    } else {
        seq![AnswerOf::Account(validated), AnswerOf::Account(lookup), AnswerOf::Metadata(access)]
    };
    seq![AnswerOf::Path(path)] + checked + seq![AnswerOf::Metadata(metadata), AnswerOf::Data(data)]
}

/// Whoever may read a file that is not too large and that has a date gets it: the reading asks for the
/// real path of the path in the query, then for no other path than that, last for the content, and is
/// answered by the content and the headers.
pub proof fn law_permitted_reading_is_answered(
    query: FileQueryView,
    if_modified_since: Option<Seq<u8>>,
    range: Option<Seq<u8>>,
    path: Seq<u8>,
    validated: LookupView,
    lookup: LookupView,
    access: MetadataView,
    metadata: MetadataView,
    seconds: u64,
    data: Seq<u8>,
)
    requires
        read_refusal(path, asking_user(query), validated, lookup, access) is None,
        metadata.size <= MAX_FILE_BODY_SIZE,
        modification(metadata) == Ok::<u64, FsErrorView>(seconds),
        in_calendar(seconds as i64),
    ensures
        ({
            let start = read_start(query, if_modified_since, range);
            let answers = reading_answers(asking_user(query), path, validated, lookup, access, metadata, data);
            let talk = exchange(reading(), start, answers);
            &&& talk.len() == answers.len()
            &&& talk[0] == (FsOpView::Canonicalize(encode_utf8(query.path)), AnswerView::Path(path))
            &&& talk.last() == (FsOpView::ReadFile(path), AnswerView::Data(data))
            &&& answered(reading(), start, answers) == StepView::<ReadFileView, ReplyView>::Finish(
                read_reply(
                    requested_second(if_modified_since),
                    range,
                    FileReadOf { data, last_modified: http_date(seconds), modified_seconds: seconds },
                ),
            )
        }),
{
    let start = read_start(query, if_modified_since, range);
    let username = asking_user(query);
    let answers = reading_answers(username, path, validated, lookup, access, metadata, data);
    reveal_with_fuel(exchange::<ReadFileView, ReplyView, FsErrorView>, 7);
    reveal_with_fuel(answered::<ReadFileView, ReplyView, FsErrorView>, 7);
    let (first, rest) = (answers.skip(1), answers.skip(1).skip(1));
    if unrestricted(username) {
        assert(answers =~= seq![AnswerOf::Path(path), AnswerOf::Metadata(metadata), AnswerOf::Data(data)]);
        assert(rest =~= seq![AnswerOf::Data(data)]);
        assert(rest.skip(1) =~= Seq::<AnswerView>::empty());
    } else {
        assert(first =~= seq![
            AnswerOf::Account(validated),
            AnswerOf::Account(lookup),
            AnswerOf::Metadata(access),
            AnswerOf::Metadata(metadata),
            AnswerOf::Data(data),
        ]);
        let last = rest.skip(1).skip(1).skip(1);
        assert(last =~= seq![AnswerOf::Data(data)]);
        assert(last.skip(1) =~= Seq::<AnswerView>::empty());
    }
}

/// The content of a file is asked for only once its size and its time are known, and these only for a
/// user that is held to no permission, or whose account was found to have the right to read the file. An
/// account counts only after the user was found to exist. Reading changes nothing.
pub proof fn law_reading_needs_permission(reading: ReadFileView, answer: AnswerView)
    ensures
        read_next(reading, answer) matches StepOf::Ask(op, next) ==> {
            &&& !modifies(op)
            &&& next.username == reading.username
            &&& op matches FsOpOf::ReadFile(path) ==> reading.stage == (ReadStageOf::<Seq<u8>, Seq<char>>::Metadata {
                path,
            })
            &&& next.stage matches ReadStageOf::Metadata { path } ==> {
                ||| reading.stage is Path && unrestricted(reading.username)
                ||| {
                    &&& reading.stage matches ReadStageOf::Access { path: checked, account }
                    &&& checked == path
                    &&& answer matches AnswerOf::Metadata(metadata)
                    &&& unrestricted(reading.username) || may_read(account, metadata)
                }
            }
            &&& next.stage matches ReadStageOf::Access { path, account } ==> {
                &&& reading.stage == (ReadStageOf::<Seq<u8>, Seq<char>>::Account { path })
                &&& answer == AnswerView::Account(LookupOf::Found(account))
            }
            &&& next.stage matches ReadStageOf::Account { path } ==> {
                &&& reading.stage == (ReadStageOf::<Seq<u8>, Seq<char>>::Validate { path })
                &&& answer matches AnswerOf::Account(lookup)
                &&& user_refusal(reading.username, lookup) is None
            }
        },
{
}

} // verus!
