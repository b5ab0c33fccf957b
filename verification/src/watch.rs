//! Watching a directory: how a request is read and checked, and what changes are called.

use crate::access::{
    check_next, check_start, existing_path, request_user, requesting_user, required_path, validate_directory,
    AccessCheckOf, AccessStep, AccessStepView, Right,
};
use crate::connect::{decode_frame, frame_content, frame_error_text};
use crate::credentials::basic_credentials;
use crate::fsutil::{is_unrestricted, unrestricted, user_refusal, validate_username};
use crate::host::{mismatch, mismatch_error, Answer, AnswerOf, AnswerView, FsError, FsOp, FsOpOf, FsOpView, StepOf};
use crate::reply::{
    coded_error, failure_reply, fs_error_response, request_error_response, stream_head, stream_success, Head,
    HeadView, Reply, ReplyView,
};
use crate::text::{borrowed, copy_bytes, optional, optional_bytes};
use vstd::prelude::*;

verus! {

/// A file was modified.
pub const MODIFY: u32 = 0x2;

/// Metadata of a file changed.
pub const ATTRIB: u32 = 0x4;

/// A file was moved out of the directory.
pub const MOVED_FROM: u32 = 0x40;

/// A file was moved into the directory.
pub const MOVED_TO: u32 = 0x80;

/// A file was created.
pub const CREATE: u32 = 0x100;

/// A file was deleted.
pub const DELETE: u32 = 0x200;

/// All that a directory is watched for.
pub const WATCH_MASK: u32 = 0x3c6;

/// What a change is called, given the bits by which it is reported. Where several are set, a creation
/// comes first, then a removal, a modification, a move, and a change of metadata.
pub open spec fn change_name(mask: u32) -> Option<Seq<char>> {
    if mask & CREATE != 0 {
        Some("EVENT_TYPE_CREATE"@)
    } else if mask & DELETE != 0 {
        Some("EVENT_TYPE_REMOVE"@)
    } else if mask & MODIFY != 0 {
        Some("EVENT_TYPE_WRITE"@)
    } else if mask & MOVED_FROM != 0 || mask & MOVED_TO != 0 {
        Some("EVENT_TYPE_RENAME"@)
    } else if mask & ATTRIB != 0 {
        Some("EVENT_TYPE_CHMOD"@)
    } else {
        None
    }
}

/// Names a change by the bits by which it is reported.
pub fn event_type(mask: u32) -> (name: Option<String>)
    ensures
        optional(name) == change_name(mask),
{
    if mask & CREATE != 0 {
        Some("EVENT_TYPE_CREATE".to_owned())
    } else if mask & DELETE != 0 {
        Some("EVENT_TYPE_REMOVE".to_owned())
    } else if mask & MODIFY != 0 {
        Some("EVENT_TYPE_WRITE".to_owned())
    } else if mask & MOVED_FROM != 0 || mask & MOVED_TO != 0 {
        Some("EVENT_TYPE_RENAME".to_owned())
    } else if mask & ATTRIB != 0 {
        Some("EVENT_TYPE_CHMOD".to_owned())
    } else {
        None
    }
}

/// A change has a name exactly where it is one that a directory is watched for.
pub proof fn law_watched_changes_have_names(mask: u32)
    ensures
        change_name(mask) is Some <==> mask & WATCH_MASK != 0,
{
    assert(mask & 0x3c6 != 0 <==> (mask & 0x100 != 0 || mask & 0x200 != 0 || mask & 0x2 != 0 || mask & 0x40 != 0
        || mask & 0x80 != 0 || mask & 0x4 != 0)) by (bit_vector);
}

/// The payload of a request, or why the body is no request to watch a directory.
pub open spec fn request_payload(body: Seq<u8>) -> Result<Seq<u8>, Seq<char>> {
    match frame_content(body) {
        Err(error) => Err(frame_error_text(error)),
        Ok((flags, payload)) => if flags == 0 {
            Ok(payload)
        } else {
            Err("WatchDir request must be a regular Connect frame"@)
        },
    }
}

/// Takes the payload out of the body of a request.
pub fn decode_request(body: &[u8]) -> (payload: Result<Vec<u8>, String>)
    ensures
        match payload {
            Ok(payload) => request_payload(body@) == Ok::<Seq<u8>, Seq<char>>(payload@),
            Err(message) => request_payload(body@) == Err::<Seq<u8>, Seq<char>>(message@),
        },
{
    match decode_frame(body) {
        Err(error) => Err(error.message()),
        Ok((flags, payload)) => if flags == 0 {
            Ok(payload)
        } else {
            Err("WatchDir request must be a regular Connect frame".to_owned())
        },
    }
}

/// The reply to a request that cannot be read, or for which no watch could be set up.
pub open spec fn watch_error(status: u16, message: Seq<char>) -> ReplyView {
    coded_error(status, "invalid_argument"@, message)
}

/// Makes the reply to a request that cannot be read, or for which no watch could be set up.
pub fn filesystem_error(status: u16, message: &str) -> (reply: Reply)
    ensures
        reply@ == watch_error(status, message@),
{
    request_error_response(status, message)
}

/// A question of a request to watch a directory: to read the path out of the JSON payload, a question
/// for the host, or to watch a directory without ever waiting for a change.
#[derive(Debug, PartialEq, Eq)]
pub enum WatchOp {
    Parse(Vec<u8>),
    Host(FsOp),
    Watch { path: Vec<u8>, mask: u32 },
}

/// The content of a `WatchOp`.
#[verifier::ext_equal]
pub enum WatchOpView {
    Parse(Seq<u8>),
    Host(FsOpView),
    Watch { path: Seq<u8>, mask: u32 },
}

impl View for WatchOp {
    type V = WatchOpView;

    open spec fn view(&self) -> WatchOpView {
        match self {
            WatchOp::Parse(payload) => WatchOpView::Parse(payload@),
            WatchOp::Host(op) => WatchOpView::Host(op@),
            WatchOp::Watch { path, mask } => WatchOpView::Watch { path: path@, mask: *mask },
        }
    }
}

/// An answer to a question of a request to watch a directory.
#[derive(Debug, PartialEq, Eq)]
pub enum WatchAnswer {
    Parsed { path: String },
    Malformed(String),
    Host(Answer),
    Watching,
    NotWatching(String),
}

/// The content of a `WatchAnswer`.
#[verifier::ext_equal]
pub enum WatchAnswerView {
    Parsed { path: Seq<char> },
    Malformed(Seq<char>),
    Host(AnswerView),
    Watching,
    NotWatching(Seq<char>),
}

impl View for WatchAnswer {
    type V = WatchAnswerView;

    open spec fn view(&self) -> WatchAnswerView {
        match self {
            WatchAnswer::Parsed { path } => WatchAnswerView::Parsed { path: path@ },
            WatchAnswer::Malformed(message) => WatchAnswerView::Malformed(message@),
            WatchAnswer::Host(answer) => WatchAnswerView::Host(answer@),
            WatchAnswer::Watching => WatchAnswerView::Watching,
            WatchAnswer::NotWatching(message) => WatchAnswerView::NotWatching(message@),
        }
    }
}

/// A request to watch a directory, by what it waits for: its payload; the account of its user; the
/// real path; an answer that shows whether that path may be watched; or that it is watched.
#[verifier::ext_equal]
#[derive(Debug, PartialEq, Eq)]
pub enum WatchOf<B, T> {
    Parse { authorization: Option<B> },
    Account { requested: T, username: T },
    Path { username: T },
    Check { path: B, check: AccessCheckOf<B, T> },
    Watch,
}

pub type Watch = WatchOf<Vec<u8>, String>;

pub type WatchView = WatchOf<Seq<u8>, Seq<char>>;

impl View for WatchOf<Vec<u8>, String> {
    type V = WatchOf<Seq<u8>, Seq<char>>;

    open spec fn view(&self) -> WatchOf<Seq<u8>, Seq<char>> {
        match self {
            WatchOf::Parse { authorization } => WatchOf::Parse { authorization: optional_bytes(*authorization) },
            WatchOf::Account { requested, username } => WatchOf::Account {
                requested: requested@,
                username: username@,
            },
            WatchOf::Path { username } => WatchOf::Path { username: username@ },
            WatchOf::Check { path, check } => WatchOf::Check { path: path@, check: check@ },
            WatchOf::Watch => WatchOf::Watch,
        }
    }
}

pub type WatchStep = StepOf<WatchOp, Watch, Head, Reply>;

pub type WatchStepView = StepOf<WatchOpView, WatchView, HeadView, ReplyView>;

/// Begins with the payload of the request.
pub open spec fn watch_begin(body: Seq<u8>, authorization: Option<Seq<u8>>) -> WatchStepView {
    match request_payload(body) {
        Ok(payload) => StepOf::Ask(WatchOpView::Parse(payload), WatchOf::Parse { authorization }),
        Err(message) => StepOf::Fail(watch_error(400, message)),
    }
}

/// Goes on to the path, once the user is known to exist.
pub open spec fn watch_path(requested: Seq<char>, username: Seq<char>) -> WatchStepView {
    match required_path(requested) {
        Ok(path) => StepOf::Ask(WatchOpView::Host(FsOpOf::Canonicalize(path)), WatchOf::Path { username }),
        Err(failure) => StepOf::Fail(failure_reply(failure)),
    }
}

/// Goes on with the check that a path may be watched, and watches it.
pub open spec fn watch_checking(path: Seq<u8>, step: AccessStepView) -> WatchStepView {
    match step {
        StepOf::Ask(op, check) => StepOf::Ask(WatchOpView::Host(op), WatchOf::Check { path, check }),
        StepOf::Finish(_) => StepOf::Ask(WatchOpView::Watch { path, mask: WATCH_MASK }, WatchOf::Watch),
        StepOf::Fail(failure) => StepOf::Fail(failure_reply(failure)),
    }
}

/// Goes on to the user, once the payload was read.
pub open spec fn watch_user(requested: Seq<char>, authorization: Option<Seq<u8>>) -> WatchStepView {
    match requesting_user(basic_credentials(authorization)) {
        Err(failure) => StepOf::Fail(failure_reply(failure)),
        Ok(username) => if unrestricted(username) {
            watch_path(requested, username)
        } else {
            StepOf::Ask(
                WatchOpView::Host(FsOpOf::FindAccount(username)),
                WatchOf::Account { requested, username },
            )
        },
    }
}

/// Goes on with an answer. A path is watched once it is known to be a directory and the user is known
/// to exist.
pub open spec fn watch_next(watch: WatchView, answer: WatchAnswerView) -> WatchStepView {
    match (watch, answer) {
        (WatchOf::Parse { authorization }, WatchAnswerView::Parsed { path }) => watch_user(path, authorization),
        (WatchOf::Parse { .. }, WatchAnswerView::Malformed(message)) => StepOf::Fail(watch_error(400, message)),
        (WatchOf::Account { requested, username }, WatchAnswerView::Host(AnswerOf::Account(lookup))) => {
            match user_refusal(username, lookup) {
                Some(failure) => StepOf::Fail(failure_reply(failure)),
                None => watch_path(requested, username),
            }
        },
        (WatchOf::Path { username }, WatchAnswerView::Host(AnswerOf::Path(path))) => watch_checking(
            path,
            check_start(Right::List, path, username),
        ),
        (WatchOf::Check { path, check }, WatchAnswerView::Host(answer)) => watch_checking(
            path,
            check_next(check, answer),
        ),
        (WatchOf::Watch, WatchAnswerView::Watching) => StepOf::Finish(stream_success()),
        (WatchOf::Watch, WatchAnswerView::NotWatching(message)) => StepOf::Fail(watch_error(500, message)),
        (_, WatchAnswerView::Host(AnswerOf::Failed(failure))) => StepOf::Fail(failure_reply(failure)),
        _ => StepOf::Fail(failure_reply(mismatch())),
    }
}

/// Ends a request on which the host failed.
fn fail(failure: &FsError) -> (step: WatchStep)
    ensures
        step@ == WatchStepView::Fail(failure_reply(failure@)),
{
    StepOf::Fail(fs_error_response(failure))
}

/// Goes on to the path.
fn to_path(requested: &str, username: String) -> (step: WatchStep)
    ensures
        step@ == watch_path(requested@, username@),
{
    match existing_path(requested) {
        Ok(path) => StepOf::Ask(WatchOp::Host(FsOpOf::Canonicalize(path)), WatchOf::Path { username }),
        Err(failure) => fail(&failure),
    }
}

/// Goes on with the check that a path may be watched.
fn checking(path: Vec<u8>, step: AccessStep) -> (next: WatchStep)
    ensures
        next@ == watch_checking(path@, step@),
{
    match step {
        StepOf::Ask(op, check) => StepOf::Ask(WatchOp::Host(op), WatchOf::Check { path, check }),
        StepOf::Finish(_) => StepOf::Ask(WatchOp::Watch { path, mask: WATCH_MASK }, WatchOf::Watch),
        StepOf::Fail(failure) => fail(&failure),
    }
}

/// Begins to answer a request to watch a directory.
pub fn watch_dir(body: &[u8], authorization: Option<Vec<u8>>) -> (step: WatchStep)
    ensures
        step@ == watch_begin(body@, optional_bytes(authorization)),
{
    match decode_request(body) {
        Ok(payload) => StepOf::Ask(WatchOp::Parse(payload), WatchOf::Parse { authorization }),
        Err(message) => StepOf::Fail(filesystem_error(400, message.as_str())),
    }
}

impl WatchOf<Vec<u8>, String> {
    /// Goes on with an answer.
    pub fn step(self, answer: WatchAnswer) -> (step: WatchStep)
        ensures
            step@ == watch_next(self@, answer@),
    {
        match (self, answer) {
            (WatchOf::Parse { authorization }, WatchAnswer::Parsed { path }) => {
                let username: String = match request_user(borrowed(&authorization)) {
                    Ok(username) => username,
                    Err(failure) => {
                        return fail(&failure);
                    },
                };
                if is_unrestricted(username.as_str()) {
                    to_path(path.as_str(), username)
                } else {
                    StepOf::Ask(
                        WatchOp::Host(FsOpOf::FindAccount(username.clone())),
                        WatchOf::Account { requested: path, username },
                    )
                }
            },
            (WatchOf::Parse { .. }, WatchAnswer::Malformed(message)) => StepOf::Fail(
                filesystem_error(400, message.as_str()),
            ),
            (WatchOf::Account { requested, username }, WatchAnswer::Host(AnswerOf::Account(lookup))) => {
                match validate_username(username.as_str(), &lookup) {
                    Err(failure) => fail(&failure),
                    Ok(()) => to_path(requested.as_str(), username),
                }
            },
            (WatchOf::Path { username }, WatchAnswer::Host(AnswerOf::Path(path))) => {
                let check = validate_directory(copy_bytes(&path), username.as_str());
                checking(path, check)
            },
            (WatchOf::Check { path, check }, WatchAnswer::Host(answer)) => checking(path, check.step(answer)),
            (WatchOf::Watch, WatchAnswer::Watching) => StepOf::Finish(stream_head()),
            (WatchOf::Watch, WatchAnswer::NotWatching(message)) => StepOf::Fail(
                filesystem_error(500, message.as_str()),
            ),
            (_, WatchAnswer::Host(AnswerOf::Failed(failure))) => fail(&failure),
            _ => fail(&mismatch_error()),
        }
    }
}

/// The check of a request to watch is that of a directory to be listed.
pub open spec fn sound(watch: WatchView) -> bool {
    watch matches WatchOf::Check { check, .. } ==> check.right is List
}

/// A path is watched only when the check that it is a directory and that the user exists has succeeded,
/// and then for all changes that have a name. A watch that is set up is answered with the head of a
/// stream.
pub proof fn law_only_directories_are_watched(watch: WatchView, answer: WatchAnswerView)
    requires
        sound(watch),
    ensures
        watch_next(watch, answer) matches StepOf::Ask(op, next) ==> {
            &&& sound(next)
            &&& op matches WatchOpView::Watch { path, mask } ==> {
                &&& mask == WATCH_MASK
                &&& watch matches WatchOf::Check { path: checked, check }
                &&& path == checked
                &&& answer matches WatchAnswerView::Host(reply)
                &&& check_next(check, reply) is Finish
            }
        },
        watch_next(watch, answer) matches StepOf::Finish(head) ==> {
            &&& head == stream_success()
            &&& watch is Watch
            &&& answer is Watching
        },
{
}

} // verus!
