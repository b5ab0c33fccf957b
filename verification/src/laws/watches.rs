//! What watching a directory is for.

use crate::access::{law_requesting_user_has_a_name, requesting_user};
use crate::connect::{frame, frame_content, frame_error_text, law_frame_reads_back, ConnectErrorOf};
use crate::credentials::basic_credentials;
use crate::host::{scripted, Account, AnswerOf, FsErrorView, FsOpOf, LookupOf, MetadataView, StepOf};
use crate::reply::{error_object, failure_reply, HeadOf, HeadView, ReplyView};
use crate::watch::{
    change_name, watch_begin, watch_next, WatchAnswerView, WatchOf, WatchOpView, WatchStepView, WatchView,
};
use crate::watcher::{
    announce, told_change, told_changes, watcher_next, ChangeView, Phase, RawChangeOf, RawChangeView,
    WatcherEventView, WatcherOf, WatcherOpView, WatcherView,
};
use vstd::prelude::*;
use vstd::utf8::*;

verus! {

/// What a change is called, by the bits by which the system reports it: 0x100 is a creation, 0x200 a
/// removal, 0x2 a modification, 0x40 and 0x80 the two sides of a move, 0x4 a change of metadata. Of several
/// the first one of these counts; other bits have no name.
pub proof fn law_changes_are_called_by_their_bits(mask: u32)
    ensures
        mask & 0x100 != 0 ==> change_name(mask) == Some("EVENT_TYPE_CREATE"@),
        mask & 0x100 == 0 && mask & 0x200 != 0 ==> change_name(mask) == Some("EVENT_TYPE_REMOVE"@),
        mask & 0x100 == 0 && mask & 0x200 == 0 && mask & 0x2 != 0 ==> change_name(mask) == Some(
            "EVENT_TYPE_WRITE"@,
        ),
        mask & 0x100 == 0 && mask & 0x200 == 0 && mask & 0x2 == 0 && (mask & 0x40 != 0 || mask & 0x80 != 0)
            ==> change_name(mask) == Some("EVENT_TYPE_RENAME"@),
        mask & 0x100 == 0 && mask & 0x200 == 0 && mask & 0x2 == 0 && mask & 0x40 == 0 && mask & 0x80 == 0 && mask & 0x4
            != 0 ==> change_name(mask) == Some("EVENT_TYPE_CHMOD"@),
        mask & 0x100 == 0 && mask & 0x200 == 0 && mask & 0x2 == 0 && mask & 0x40 == 0 && mask & 0x80 == 0 && mask & 0x4
            == 0 ==> change_name(mask) is None,
{
}

/// A change is told with the name of its file, as it is where that is UTF-8, and with what it is called. One
/// without a file, or that has no name, is not told.
pub proof fn law_change_is_told_with_its_file(name: Seq<u8>, mask: u32)
    ensures
        told_change(RawChangeOf { name: None, mask }) is None,
        change_name(mask) is None ==> told_change(RawChangeOf { name: Some(name), mask }) is None,
        change_name(mask) matches Some(event_type) ==> {
            &&& told_change(RawChangeOf { name: Some(name), mask }) matches Some(change)
            &&& change.event_type == event_type
            &&& valid_utf8(name) ==> encode_utf8(change.name) == name
        },
{
    broadcast use decode_utf8_encode_utf8;

}

/// Changes are told one after the other, each by itself: what is told of one does not depend on the others,
/// and none is left out.
pub proof fn law_changes_are_told_one_by_one(before: Seq<RawChangeView>, change: RawChangeView, after: Seq<RawChangeView>)
    ensures
        told_changes(Seq::empty()) == Seq::<ChangeView>::empty(),
        told_changes(before + seq![change] + after) == told_changes(before) + (match told_change(change) {
            Some(told) => seq![told],
            None => Seq::empty(),
        }) + told_changes(after),
    decreases after.len(),
{
    let whole = before + seq![change] + after;
    let middle = match told_change(change) {
        Some(told) => seq![told],
        None => Seq::<ChangeView>::empty(),
    };
    if after.len() == 0 {
        assert(whole.drop_last() =~= before);
        assert(whole.last() == change);
        assert(told_changes(whole) =~= told_changes(before) + middle + told_changes(after));
    } else {
        let shorter = after.drop_last();
        law_changes_are_told_one_by_one(before, change, shorter);
        assert(whole.drop_last() =~= before + seq![change] + shorter);
        assert(whole.last() == after.last());
        assert(told_changes(whole) =~= told_changes(before) + middle + told_changes(after));
    }
}

/// The rule by which a request to watch goes on.
pub open spec fn watching() -> spec_fn(WatchView, WatchAnswerView) -> WatchStepView {
    |watch: WatchView, answer: WatchAnswerView| watch_next(watch, answer)
}

/// A conversation of a request to watch.
pub type WatchScript = Seq<(WatchOpView, WatchAnswerView)>;

/// The question whether a user exists: none for `root`.
pub open spec fn existing_script(username: Seq<char>, account: Account) -> WatchScript {
    if username == "root"@ {
        Seq::empty()
    } else {
        seq![
            (
                WatchOpView::Host(FsOpOf::FindAccount(username)),
                WatchAnswerView::Host(AnswerOf::Account(LookupOf::Found(account))),
            ),
        ]
    }
}

/// A request watches the directory that it names: its payload is read, the real path of the path in it is
/// asked for, and whether that is a directory; then that path is watched for all changes that have a name,
/// and the client is told of them by a stream.
#[verifier::rlimit(40)]
pub proof fn law_request_watches_its_directory(
    payload: Seq<u8>,
    authorization: Option<Seq<u8>>,
    username: Seq<char>,
    path: Seq<char>,
    found: Account,
    directory: Seq<u8>,
    metadata: MetadataView,
    again: Account,
)
    requires
        payload.len() <= u32::MAX,
        requesting_user(basic_credentials(authorization)) == Ok::<Seq<char>, FsErrorView>(username),
        path.len() > 0,
        metadata.is_dir,
    ensures
        scripted(
            watching(),
            watch_begin(frame(0, payload), authorization),
            seq![(WatchOpView::Parse(payload), WatchAnswerView::Parsed { path })] + existing_script(username, found)
                + seq![
                (
                    WatchOpView::Host(FsOpOf::Canonicalize(encode_utf8(path))),
                    WatchAnswerView::Host(AnswerOf::Path(directory)),
                ),
                (
                    WatchOpView::Host(FsOpOf::Metadata(directory)),
                    WatchAnswerView::Host(AnswerOf::Metadata(metadata)),
                ),
            ] + existing_script(username, again) + seq![
                (WatchOpView::Watch { path: directory, mask: 0x3c6 }, WatchAnswerView::Watching),
            ],
            0,
        ) == Some(WatchStepView::Finish(HeadOf { status: 200, content_type: "application/connect+json"@ })),
{
    law_frame_reads_back(0, payload);
    law_requesting_user_has_a_name(basic_credentials(authorization));
    reveal_with_fuel(scripted::<WatchOpView, WatchAnswerView, WatchView, HeadView, ReplyView>, 8);
}

/// The reply to a request that watches nothing.
pub open spec fn not_watched(reply: ReplyView, status: u16, code: Seq<char>, message: Seq<char>) -> bool {
    &&& reply.status == status
    &&& reply.content_type == "application/json"@
    &&& reply.body == encode_utf8(error_object(code, message))
}

/// A body that is no regular frame, and a payload that cannot be read, are refused with the reason.
pub proof fn law_watch_request_has_to_be_readable(body: Seq<u8>, authorization: Option<Seq<u8>>, message: Seq<char>)
    ensures
        match frame_content(body) {
            Err(error) => watch_begin(body, authorization) matches StepOf::Fail(reply) && not_watched(
                reply,
                400,
                "invalid_argument"@,
                frame_error_text(error),
            ),
            Ok((flags, _)) => flags != 0 ==> (watch_begin(body, authorization) matches StepOf::Fail(reply)
                && not_watched(
                reply,
                400,
                "invalid_argument"@,
                "WatchDir request must be a regular Connect frame"@,
            )),
        },
        watch_next(WatchOf::Parse { authorization }, WatchAnswerView::Malformed(message)) matches StepOf::Fail(reply)
            && not_watched(reply, 400, "invalid_argument"@, message),
        watch_next(WatchOf::Watch, WatchAnswerView::NotWatching(message)) matches StepOf::Fail(reply) && not_watched(
            reply,
            500,
            "invalid_argument"@,
            message,
        ),
{
}

/// Nothing is watched for a user that does not exist.
pub proof fn law_unknown_users_watch_nothing(
    payload: Seq<u8>,
    authorization: Option<Seq<u8>>,
    username: Seq<char>,
    path: Seq<char>,
)
    requires
        payload.len() <= u32::MAX,
        requesting_user(basic_credentials(authorization)) == Ok::<Seq<char>, FsErrorView>(username),
        username != "root"@,
    ensures
        scripted(
            watching(),
            watch_begin(frame(0, payload), authorization),
            seq![
                (WatchOpView::Parse(payload), WatchAnswerView::Parsed { path }),
                (
                    WatchOpView::Host(FsOpOf::FindAccount(username)),
                    WatchAnswerView::Host(AnswerOf::Account(LookupOf::Missing)),
                ),
            ],
            0,
        ) matches Some(StepOf::Fail(reply)) && not_watched(
            reply,
            404,
            "not_found"@,
            "user "@ + username + " not found"@,
        ),
{
    law_frame_reads_back(0, payload);
    law_requesting_user_has_a_name(basic_credentials(authorization));
    reveal_with_fuel(scripted::<WatchOpView, WatchAnswerView, WatchView, HeadView, ReplyView>, 4);
}

/// Nothing is watched without a path.
pub proof fn law_watch_needs_a_path(
    payload: Seq<u8>,
    authorization: Option<Seq<u8>>,
    username: Seq<char>,
    found: Account,
)
    requires
        payload.len() <= u32::MAX,
        requesting_user(basic_credentials(authorization)) == Ok::<Seq<char>, FsErrorView>(username),
    ensures
        scripted(
            watching(),
            watch_begin(frame(0, payload), authorization),
            seq![(WatchOpView::Parse(payload), WatchAnswerView::Parsed { path: Seq::empty() })] + existing_script(
                username,
                found,
            ),
            0,
        ) matches Some(StepOf::Fail(reply)) && not_watched(reply, 400, "invalid_argument"@, "path is required"@),
{
    law_frame_reads_back(0, payload);
    law_requesting_user_has_a_name(basic_credentials(authorization));
    reveal_with_fuel(scripted::<WatchOpView, WatchAnswerView, WatchView, HeadView, ReplyView>, 4);
}

/// Nothing is watched but a directory.
#[verifier::rlimit(40)]
pub proof fn law_files_are_not_watched(
    payload: Seq<u8>,
    authorization: Option<Seq<u8>>,
    username: Seq<char>,
    path: Seq<char>,
    found: Account,
    file: Seq<u8>,
    metadata: MetadataView,
)
    requires
        payload.len() <= u32::MAX,
        requesting_user(basic_credentials(authorization)) == Ok::<Seq<char>, FsErrorView>(username),
        path.len() > 0,
        !metadata.is_dir,
    ensures
        scripted(
            watching(),
            watch_begin(frame(0, payload), authorization),
            seq![(WatchOpView::Parse(payload), WatchAnswerView::Parsed { path })] + existing_script(username, found)
                + seq![
                (
                    WatchOpView::Host(FsOpOf::Canonicalize(encode_utf8(path))),
                    WatchAnswerView::Host(AnswerOf::Path(file)),
                ),
                (WatchOpView::Host(FsOpOf::Metadata(file)), WatchAnswerView::Host(AnswerOf::Metadata(metadata))),
            ],
            0,
        ) matches Some(StepOf::Fail(reply)) && not_watched(reply, 400, "invalid_argument"@, "path is not a directory"@),
{
    law_frame_reads_back(0, payload);
    law_requesting_user_has_a_name(basic_credentials(authorization));
    reveal_with_fuel(scripted::<WatchOpView, WatchAnswerView, WatchView, HeadView, ReplyView>, 6);
}

/// A failure of the host ends a request, and the client is told of this failure.
pub proof fn law_failures_of_watching_are_passed_on(watch: WatchView, failure: FsErrorView)
    requires
        watch !is Parse,
        watch !is Watch,
    ensures
        watch_next(watch, WatchAnswerView::Host(AnswerOf::Failed(failure))) == WatchStepView::Fail(
            failure_reply(failure),
        ),
{
}

/// A watch that waits for the next look.
pub open spec fn waits(next: (WatcherView, WatcherOpView), since: u64) -> bool {
    &&& next.0 == (WatcherOf { phase: Phase::Pausing, pending: Seq::<ChangeView>::empty(), last_event: since })
    &&& next.1 == (WatcherOpView::Pause { milliseconds: 50 })
}

/// A watch begins with telling the client so. Then there is a look every 50 milliseconds.
pub proof fn law_watch_looks_again_and_again(watcher: WatcherView, now: u64)
    ensures
        announce(now).1 is Announce,
        announce(now).0 == (WatcherOf {
            phase: Phase::Announcing,
            pending: Seq::<ChangeView>::empty(),
            last_event: now,
        }),
        watcher.phase is Announcing ==> waits(watcher_next(watcher, WatcherEventView::Sent, now), now) && waits(
            watcher_next(watcher, WatcherEventView::NotSent, now),
            now,
        ),
        watcher.phase is Pausing ==> {
            let (next, op) = watcher_next(watcher, WatcherEventView::Elapsed, now);
            op is Read && next.phase is Reading && next.pending.len() == 0 && next.last_event == watcher.last_event
        },
{
}

/// What a look brings is told, the first change first, each as it is, and the others are kept until the
/// client was told of it; the time without news begins anew with each.
pub proof fn law_what_a_look_brings_is_told(watcher: WatcherView, raw: Seq<RawChangeView>, now: u64)
    ensures
        watcher.phase is Reading && told_changes(raw).len() > 0 ==> watcher_next(
            watcher,
            WatcherEventView::Changes(raw),
            now,
        ) == (
            WatcherOf { phase: Phase::Telling, pending: told_changes(raw).skip(1), last_event: now },
            WatcherOpView::Tell(told_changes(raw)[0]),
        ),
        watcher.phase is Telling && watcher.pending.len() > 0 ==> watcher_next(watcher, WatcherEventView::Sent, now) == (
            WatcherOf { phase: Phase::Telling, pending: watcher.pending.skip(1), last_event: now },
            WatcherOpView::Tell(watcher.pending[0]),
        ),
{
}

/// A sign of life is given after 30 seconds without news, and only then; the time begins anew with it.
/// Otherwise there is nothing to tell, and the next look is waited for.
pub proof fn law_life_is_shown_after_half_a_minute(watcher: WatcherView, raw: Seq<RawChangeView>, now: u64)
    ensures
        ({
            let quiet = now - watcher.last_event >= 30000;
            let shown = |next: (WatcherView, WatcherOpView)|
                next.1 is Keepalive && next.0.phase is KeepingAlive && next.0.last_event == watcher.last_event;
            let looked = watcher_next(watcher, WatcherEventView::Changes(raw), now);
            let blocked = watcher_next(watcher, WatcherEventView::WouldBlock, now);
            let told = watcher_next(watcher, WatcherEventView::Sent, now);
            &&& watcher.phase is Reading && told_changes(raw).len() == 0 ==> if quiet {
                shown(looked)
            } else {
                waits(looked, watcher.last_event)
            }
            &&& watcher.phase is Reading ==> if quiet {
                shown(blocked)
            } else {
                waits(blocked, watcher.last_event)
            }
            &&& watcher.phase is Telling && watcher.pending.len() == 0 ==> if quiet {
                shown(told)
            } else {
                waits(told, watcher.last_event)
            }
            &&& watcher.phase is KeepingAlive ==> waits(told, now)
        }),
{
}

/// A watch ends when its client is gone or cannot be told, and, after the client was told the reason, when a
/// look fails.
pub proof fn law_watch_ends(watcher: WatcherView, message: Seq<char>, now: u64)
    ensures
        watcher_next(watcher, WatcherEventView::Cancelled, now).1 is Release,
        watcher.phase !is Announcing ==> watcher_next(watcher, WatcherEventView::NotSent, now).1 is Release,
        watcher.phase is Reading ==> watcher_next(watcher, WatcherEventView::ReadFailed(message), now).1
            == WatcherOpView::EndWithError(ConnectErrorOf { code: "internal"@, message }),
        watcher.phase is Ending ==> watcher_next(watcher, WatcherEventView::Sent, now).1 is Release,
{
}

/// A request with a header that names no user is refused with the reason.
pub proof fn law_unreadable_users_watch_nothing(authorization: Option<Seq<u8>>, path: Seq<char>)
    ensures
        requesting_user(basic_credentials(authorization)) matches Err(failure) ==> watch_next(
            WatchOf::Parse { authorization },
            WatchAnswerView::Parsed { path },
        ) == WatchStepView::Fail(failure_reply(failure)),
{
}

} // verus!
