//! What reading a file over HTTP is for.

use crate::files::{
    http_date, place_value, range_unit, read_next, read_refusal, read_reply, read_start, reading,
    requested_range, requested_second, FileQueryView, FileReadOf, FileReadView, ReadFileView, ReadStageOf,
};
use crate::host::{
    scripted, Account, AnswerOf, AnswerView, ErrorKind, FsErrorOf, FsErrorView, FsOpOf, FsOpView, LookupOf,
    LookupView, MetadataView, ModifiedOf, StepOf, StepView,
};
use crate::laws::requests::Script;
use crate::laws::texts::{law_decimals_have_no_leading_zeros, law_first_place_is_the_first};
use crate::outside::{in_calendar, plain, rfc2822_second, utc_text};
use crate::reply::{error_object, ReplyView};
use crate::text::{
    all_visible, decimal_text, first_place, header_content, is_visible, law_decimal_reads_back, shown,
    unsigned_value,
};
use vstd::prelude::*;
use vstd::utf8::*;

verus! {

/// A number in ASCII digits.
pub open spec fn digits(number: nat) -> Seq<u8> {
    encode_utf8(decimal_text(number))
}

/// The value of a `Range` header: the unit, the first number, a dash, the last number.
pub open spec fn range_value(first: Seq<u8>, last: Seq<u8>) -> Seq<u8> {
    encode_utf8("bytes="@) + first + seq!['-' as u8] + last
}

/// A number in digits holds nothing but digits and is read back.
proof fn lemma_digits(number: nat)
    requires
        number <= usize::MAX,
    ensures
        digits(number).len() > 0,
        forall|i: int| 0 <= i < digits(number).len() ==> 48 <= #[trigger] digits(number)[i] <= 57,
        place_value(digits(number)) == Some(number),
{
    let chars = decimal_text(number);
    law_decimals_have_no_leading_zeros(number);
    assert(is_ascii_chars(chars)) by {
        assert forall|i: int| 0 <= i < chars.len() implies '\0' <= #[trigger] chars[i] <= '\u{7f}' by {
            assert('0' <= chars[i] <= '9');
        }
    }
    is_ascii_chars_encode_utf8(chars);
    assert forall|i: int| 0 <= i < digits(number).len() implies 48 <= #[trigger] digits(number)[i] <= 57 by {
        assert('0' <= chars[i] <= '9');
        assert(digits(number)[i] == chars[i] as u8);
    }
    law_decimal_reads_back(number as u64);
}

/// The parts of the value of a `Range` header.
proof fn lemma_range_value(first: Seq<u8>, last: Seq<u8>)
    requires
        forall|i: int| 0 <= i < first.len() ==> 48 <= #[trigger] first[i] <= 57,
        forall|i: int| 0 <= i < last.len() ==> 48 <= #[trigger] last[i] <= 57,
    ensures
        ({
            let value = range_value(first, last);
            let ranges = value.skip(6);
            &&& all_visible(value)
            &&& value.len() >= 6
            &&& value.take(6) == range_unit()
            &&& !ranges.contains(44)
            &&& first_place(ranges, 45) == first.len()
            &&& first.len() < ranges.len()
            &&& ranges.take(first.len() as int) == first
            &&& ranges.skip(first.len() as int + 1) == last
        }),
{
    let value = range_value(first, last);
    let ranges = value.skip(6);
    let unit = encode_utf8("bytes="@);
    reveal_strlit("bytes=");
    is_ascii_chars_encode_utf8("bytes="@);
    assert(unit =~= range_unit());
    assert(value.take(6) =~= unit);
    assert(ranges =~= first + seq!['-' as u8] + last);
    assert(all_visible(value)) by {
        assert forall|i: int| 0 <= i < value.len() implies is_visible(#[trigger] value[i]) by {
            if i < 6 {
                assert(value[i] == range_unit()[i]);
            } else if i < 6 + first.len() {
                assert(value[i] == first[i - 6]);
            } else if i > 6 + first.len() {
                assert(value[i] == last[i - 7 - first.len()]);
            }
        }
    }
    assert forall|i: int| 0 <= i < ranges.len() && i != first.len() implies 48 <= #[trigger] ranges[i] <= 57 by {
        if i < first.len() {
            assert(ranges[i] == first[i]);
        } else {
            assert(ranges[i] == last[i - 1 - first.len()]);
        }
    }
    assert(ranges[first.len() as int] == 45);
    law_first_place_is_the_first(ranges, 45);
    let place = first_place(ranges, 45) as int;
    if place < first.len() {
        assert(ranges[place] == 45);
    }
    assert(ranges.take(first.len() as int) =~= first);
    assert(ranges.skip(first.len() as int + 1) =~= last);
}

/// A range from one place to another asks for these bytes and all between them, as far as the file goes.
/// Nothing can be served where it begins behind the end of the file or behind its own end.
pub proof fn law_range_between_two_places(start: nat, stop: nat, length: nat)
    requires
        start <= usize::MAX,
        stop <= usize::MAX,
    ensures
        requested_range(Some(range_value(digits(start), digits(stop))), length) == (if start < length && start
            <= stop {
            Ok::<Option<(nat, nat)>, ()>(
                Some(
                    (
                        start,
                        if stop < length {
                            stop
                        } else {
                            (length - 1) as nat
                        },
                    ),
                ),
            )
        } else {
            Err(())
        }),
{
    lemma_digits(start);
    lemma_digits(stop);
    lemma_range_value(digits(start), digits(stop));
}

/// A range from a place on asks for the rest of the file.
pub proof fn law_range_from_a_place_on(start: nat, length: nat)
    requires
        start <= usize::MAX,
    ensures
        requested_range(Some(range_value(digits(start), Seq::empty())), length) == (if start < length {
            Ok::<Option<(nat, nat)>, ()>(Some((start, (length - 1) as nat)))
        } else {
            Err(())
        }),
{
    lemma_digits(start);
    lemma_range_value(digits(start), Seq::empty());
}

/// A range without a first place asks for so many bytes at the end of the file, for all of it where it has
/// no more. No bytes cannot be served, and nothing of an empty file.
pub proof fn law_range_at_the_end(count: nat, length: nat)
    requires
        count <= usize::MAX,
    ensures
        requested_range(Some(range_value(Seq::empty(), digits(count))), length) == (if count > 0 && length > 0 {
            Ok::<Option<(nat, nat)>, ()>(
                Some(
                    (
                        if count < length {
                            (length - count) as nat
                        } else {
                            0
                        },
                        (length - 1) as nat,
                    ),
                ),
            )
        } else {
            Err(())
        }),
{
    lemma_digits(count);
    lemma_range_value(Seq::empty(), digits(count));
}

/// What is no range cannot be served: several ranges, another unit than bytes, no dash, neither of the two
/// numbers, or anything else than a number in their places.
pub proof fn law_other_ranges_cannot_be_served(value: Seq<u8>, length: nat)
    requires
        ({
            let unit = encode_utf8("bytes="@);
            ||| value.len() < unit.len()
            ||| value.take(unit.len() as int) != unit
            ||| value.skip(unit.len() as int).contains(',' as u8)
            ||| !value.skip(unit.len() as int).contains('-' as u8)
            ||| value == range_value(Seq::empty(), Seq::empty())
            ||| header_content(value) is None
        }),
    ensures
        requested_range(Some(value), length) == Err::<Option<(nat, nat)>, ()>(()),
{
    let unit = encode_utf8("bytes="@);
    reveal_strlit("bytes=");
    is_ascii_chars_encode_utf8("bytes="@);
    assert(unit =~= range_unit());
    if value.len() >= 6 {
        let ranges = value.skip(6);
        law_first_place_is_the_first(ranges, 45);
    }
    lemma_range_value(Seq::empty(), Seq::empty());
}

/// Something else than a number on either side of the dash cannot be served.
pub proof fn law_ranges_consist_of_numbers(first: Seq<u8>, last: Seq<u8>, length: nat)
    requires
        !first.contains('-' as u8),
        first.len() > 0 && unsigned_value(first) is None || last.len() > 0 && unsigned_value(last) is None,
    ensures
        requested_range(Some(range_value(first, last)), length) == Err::<Option<(nat, nat)>, ()>(()),
{
    let value = range_value(first, last);
    let ranges = value.skip(6);
    let unit = encode_utf8("bytes="@);
    reveal_strlit("bytes=");
    is_ascii_chars_encode_utf8("bytes="@);
    assert(unit =~= range_unit());
    assert(ranges =~= first + seq!['-' as u8] + last);
    law_first_place_is_the_first(ranges, 45);
    let place = first_place(ranges, 45) as int;
    assert(ranges[first.len() as int] == 45);
    if place < first.len() {
        assert(first[place] == ranges[place]);
        assert(first.contains(45));
    }
    assert(place == first.len());
    assert(ranges.take(place) =~= first);
    assert(ranges.skip(place + 1) =~= last);
}

/// Without a range all of a file is asked for.
pub proof fn law_no_range_is_the_whole_file(length: nat)
    ensures
        requested_range(None, length) == Ok::<Option<(nat, nat)>, ()>(None),
{
}

/// A range that is sent consists of the bytes of the file from the first place to the last one, each of
/// them, in order; the reply says which they are and how long the file is.
pub proof fn law_sent_range_is_that_part_of_the_file(
    since: Option<u64>,
    range: Option<Seq<u8>>,
    read: FileReadView,
    start: nat,
    end: nat,
)
    requires
        requested_range(range, read.data.len()) == Ok::<Option<(nat, nat)>, ()>(Some((start, end))),
        since is None || since->0 < read.modified_seconds,
    ensures
        ({
            let reply = read_reply(since, range, read);
            &&& reply.status == 206
            &&& start <= end < read.data.len()
            &&& reply.body.len() == end - start + 1
            &&& forall|i: int| 0 <= i < reply.body.len() ==> #[trigger] reply.body[i] == read.data[start + i]
            &&& reply.content_range == Some(
                "bytes "@ + decimal_text(start) + "-"@ + decimal_text(end) + "/"@ + decimal_text(read.data.len()),
            )
        }),
{
}

/// A whole file is sent as it is. Where a range cannot be served, nothing of the file is sent but its
/// length. Nothing is sent of a file that was not modified after the time that the client has it from.
pub proof fn law_file_is_sent_whole_or_not_at_all(since: Option<u64>, range: Option<Seq<u8>>, read: FileReadView)
    ensures
        ({
            let reply = read_reply(since, range, read);
            let nothing = Seq::<u8>::empty();
            let newer = since is None || since->0 < read.modified_seconds;
            &&& !newer ==> reply.status == 304 && reply.body == nothing && reply.content_range is None
            &&& newer && range is None ==> reply.status == 200 && reply.body == read.data && reply.content_range is None
            &&& newer && requested_range(range, read.data.len()) is Err ==> {
                &&& reply.status == 416
                &&& reply.body == nothing
                &&& reply.content_range == Some("bytes */"@ + decimal_text(read.data.len()))
            }
            &&& reply.content_type == "text/plain; charset=utf-8"@
            &&& reply.accept_ranges == Some("bytes"@)
            &&& reply.last_modified == Some(read.last_modified)
        }),
{
}

/// The date of a file is written as HTTP has it.
pub proof fn law_dates_are_written_for_http(seconds: u64)
    requires
        seconds <= i64::MAX,
    ensures
        http_date(seconds) == utc_text(seconds as int, "%a, %d %b %Y %H:%M:%S GMT"@),
{
}

/// A condition on the time counts where it is a date after the Unix epoch; otherwise it is as if it were
/// not there.
pub proof fn law_condition_is_a_date(value: Seq<u8>)
    ensures
        requested_second(None) is None,
        header_content(value) is None ==> requested_second(Some(value)) is None,
        header_content(value) matches Some(text) ==> match rfc2822_second(text) {
            Some(second) => if 0 <= second <= u64::MAX {
                requested_second(Some(value)) matches Some(counted) && counted == second
            } else {
                requested_second(Some(value)) is None
            },
            None => requested_second(Some(value)) is None,
        },
{
}

/// An account may read a file: by the permission of the owner where it owns the file, otherwise by that of
/// the group where the file belongs to its group, otherwise by that of everyone else.
pub open spec fn may(account: Account, metadata: MetadataView) -> bool {
    &&& metadata.uid == account.uid ==> metadata.mode & 0o400 != 0
    &&& metadata.uid != account.uid && metadata.gid == account.gid ==> metadata.mode & 0o040 != 0
    &&& metadata.uid != account.uid && metadata.gid != account.gid ==> metadata.mode & 0o004 != 0
}

/// A user that no permission is asked of.
pub open spec fn free(username: Seq<char>) -> bool {
    username.len() == 0 || username == "root"@
}

/// The user that a query names: `root` where it names none.
pub open spec fn reader(query: FileQueryView) -> Seq<char> {
    match query.username {
        Some(name) => name,
        None => "root"@,
    }
}

/// The questions by which it is checked that a user may read a file: none for a user that no permission is
/// asked of.
pub open spec fn read_script(
    username: Seq<char>,
    file: Seq<u8>,
    validated: LookupView,
    lookup: LookupView,
    access: MetadataView,
) -> Script {
    if free(username) {
        Seq::empty()
    } else {
        seq![
            (FsOpOf::FindAccount(username), AnswerOf::Account(validated)),
            (FsOpOf::FindAccount(username), AnswerOf::Account(lookup)),
            (FsOpOf::Metadata(file), AnswerOf::Metadata(access)),
        ]
    }
}

/// How a reading stands after a conversation.
pub open spec fn read_after(
    query: FileQueryView,
    since: Option<Seq<u8>>,
    range: Option<Seq<u8>>,
    script: Script,
) -> Option<StepView<ReadFileView, ReplyView>> {
    scripted(reading(), read_start(query, since, range), script, 0)
}

/// Whoever may read a file gets its content: the real path of the path in the query is asked for, then
/// whether the user may read that path, then its size and time, then its content; and the reply is made of
/// this content and this time.
#[verifier::rlimit(40)]
pub proof fn law_reading_gives_the_content(
    query: FileQueryView,
    since: Option<Seq<u8>>,
    range: Option<Seq<u8>>,
    file: Seq<u8>,
    validated: LookupView,
    account: Account,
    access: MetadataView,
    metadata: MetadataView,
    seconds: u64,
    nanoseconds: u32,
    data: Seq<u8>,
)
    requires
        free(reader(query)) || validated is Found && may(account, access),
        metadata.size <= 67108864,
        metadata.modified == (ModifiedOf::<Seq<char>>::At { seconds, nanoseconds }),
        in_calendar(seconds as i64),
    ensures
        read_after(
            query,
            since,
            range,
            seq![(FsOpOf::Canonicalize(encode_utf8(query.path)), AnswerOf::Path(file))] + read_script(
                reader(query),
                file,
                validated,
                LookupOf::Found(account),
                access,
            ) + seq![
                (FsOpOf::Metadata(file), AnswerOf::Metadata(metadata)),
                (FsOpOf::ReadFile(file), AnswerOf::Data(data)),
            ],
        ) == Some(
            StepView::<ReadFileView, ReplyView>::Finish(
                read_reply(
                    requested_second(since),
                    range,
                    FileReadOf { data, last_modified: http_date(seconds), modified_seconds: seconds },
                ),
            ),
        ),
{
    reveal_with_fuel(scripted::<FsOpView, AnswerView, ReadFileView, ReplyView, FsErrorView>, 8);
}

/// A user who may not read a file is told so, and gets nothing of it.
#[verifier::rlimit(40)]
pub proof fn law_reading_is_denied(
    query: FileQueryView,
    since: Option<Seq<u8>>,
    range: Option<Seq<u8>>,
    file: Seq<u8>,
    validated: LookupView,
    account: Account,
    access: MetadataView,
)
    requires
        !free(reader(query)),
        validated is Found,
        !may(account, access),
    ensures
        read_after(
            query,
            since,
            range,
            seq![(FsOpOf::Canonicalize(encode_utf8(query.path)), AnswerOf::Path(file))] + read_script(
                reader(query),
                file,
                validated,
                LookupOf::Found(account),
                access,
            ),
        ) == Some(
            StepView::<ReadFileView, ReplyView>::Fail(
                FsErrorOf {
                    kind: ErrorKind::PermissionDenied,
                    message: "user "@ + reader(query) + " cannot read "@ + shown(file),
                },
            ),
        ),
{
    reveal_with_fuel(scripted::<FsOpView, AnswerView, ReadFileView, ReplyView, FsErrorView>, 6);
}

/// Nothing is read for a user that does not exist.
#[verifier::rlimit(40)]
pub proof fn law_unknown_users_read_nothing(
    query: FileQueryView,
    since: Option<Seq<u8>>,
    range: Option<Seq<u8>>,
    file: Seq<u8>,
    validated: LookupView,
    lookup: LookupView,
)
    requires
        !free(reader(query)),
    ensures
        ({
            let username = reader(query);
            let first = seq![
                (FsOpView::Canonicalize(encode_utf8(query.path)), AnswerView::Path(file)),
                (FsOpView::FindAccount(username), AnswerView::Account(validated)),
            ];
            let second = first.push((FsOpView::FindAccount(username), AnswerView::Account(lookup)));
            &&& validated is Missing ==> read_after(query, since, range, first) == Some(
                StepView::<ReadFileView, ReplyView>::Fail(
                    FsErrorOf { kind: ErrorKind::NotFound, message: "user "@ + username + " not found"@ },
                ),
            )
            &&& validated matches LookupOf::Failed(message) ==> read_after(query, since, range, first) == Some(
                StepView::<ReadFileView, ReplyView>::Fail(FsErrorOf { kind: ErrorKind::Other, message }),
            )
            &&& validated is Found && lookup is Missing ==> read_after(query, since, range, second) == Some(
                StepView::<ReadFileView, ReplyView>::Fail(
                    FsErrorOf { kind: ErrorKind::NotFound, message: "user not found"@ },
                ),
            )
            &&& validated is Found ==> (lookup matches LookupOf::Failed(message) ==> read_after(
                query,
                since,
                range,
                second,
            ) == Some(StepView::<ReadFileView, ReplyView>::Fail(FsErrorOf { kind: ErrorKind::Other, message })))
        }),
{
    reveal_with_fuel(scripted::<FsOpView, AnswerView, ReadFileView, ReplyView, FsErrorView>, 5);
}

/// A file of more than 64 MiB is not sent, nor even read.
#[verifier::rlimit(40)]
pub proof fn law_large_files_are_not_read(
    query: FileQueryView,
    since: Option<Seq<u8>>,
    range: Option<Seq<u8>>,
    file: Seq<u8>,
    validated: LookupView,
    account: Account,
    access: MetadataView,
    metadata: MetadataView,
)
    requires
        free(reader(query)) || validated is Found && may(account, access),
        metadata.size > 67108864,
    ensures
        ({
            let step = read_after(
                query,
                since,
                range,
                seq![(FsOpOf::Canonicalize(encode_utf8(query.path)), AnswerOf::Path(file))] + read_script(
                    reader(query),
                    file,
                    validated,
                    LookupOf::Found(account),
                    access,
                ) + seq![(FsOpOf::Metadata(file), AnswerOf::Metadata(metadata))],
            );
            &&& step matches Some(StepOf::Finish(reply))
            &&& reply.status == 413
            &&& reply.body == encode_utf8(
                error_object("invalid_argument"@, "file exceeds the "@ + decimal_text(67108864) + " byte limit"@),
            )
        }),
{
    reveal_with_fuel(scripted::<FsOpView, AnswerView, ReadFileView, ReplyView, FsErrorView>, 7);
}

/// A file whose time is unknown, or cannot be written as a date, is not sent.
pub proof fn law_files_without_a_date_are_not_read(
    reading: ReadFileView,
    file: Seq<u8>,
    metadata: MetadataView,
)
    requires
        reading.stage == (ReadStageOf::<Seq<u8>, Seq<char>>::Metadata { path: file }),
        metadata.size <= 67108864,
    ensures
        metadata.modified matches ModifiedOf::Unknown(message) ==> read_next(reading, AnswerOf::Metadata(metadata))
            == StepView::<ReadFileView, ReplyView>::Fail(FsErrorOf { kind: ErrorKind::Other, message }),
        metadata.modified matches ModifiedOf::At { seconds, .. } ==> !in_calendar(seconds as i64) ==> (read_next(
            reading,
            AnswerOf::Metadata(metadata),
        ) matches StepOf::Fail(failure) && failure.kind is Other),
{
}

/// A failure of the host ends a reading, and the client is told of this failure.
pub proof fn law_failures_of_reading_are_passed_on(reading: ReadFileView, failure: FsErrorView)
    ensures
        read_next(reading, AnswerOf::Failed(failure)) == StepView::<ReadFileView, ReplyView>::Fail(failure),
{
}

/// Whether a user may read a file: always where no permission is asked of them; otherwise they have to
/// exist, by both of the searches for their account, and the permission of their class has to be set.
pub proof fn law_read_permission_is_that_of_the_class(
    file: Seq<u8>,
    username: Seq<char>,
    validated: LookupView,
    lookup: LookupView,
    metadata: MetadataView,
)
    ensures
        ({
            let refusal = read_refusal(file, username, validated, lookup, metadata);
            let asked = !free(username);
            &&& !asked ==> refusal is None
            &&& asked && validated is Missing ==> refusal == Some(
                FsErrorOf { kind: ErrorKind::NotFound, message: "user "@ + username + " not found"@ },
            )
            &&& asked ==> (validated matches LookupOf::Failed(message) ==> refusal == Some(
                FsErrorOf { kind: ErrorKind::Other, message },
            ))
            &&& asked && validated is Found && lookup is Missing ==> refusal == Some(
                FsErrorOf { kind: ErrorKind::NotFound, message: "user not found"@ },
            )
            &&& asked && validated is Found ==> (lookup matches LookupOf::Failed(message) ==> refusal == Some(
                FsErrorOf { kind: ErrorKind::Other, message },
            ))
            &&& asked && validated is Found ==> (lookup matches LookupOf::Found(account) ==> refusal == if may(
                account,
                metadata,
            ) {
                None
            } else {
                Some(
                    FsErrorOf {
                        kind: ErrorKind::PermissionDenied,
                        message: "user "@ + username + " cannot read "@ + shown(file),
                    },
                )
            })
        }),
{
}

/// The calendar goes from the year -262143 to the year 262142.
pub proof fn law_calendar_is_long(seconds: i64)
    ensures
        in_calendar(seconds) <==> -8334601228800 <= seconds <= 8210266876799,
{
}

} // verus!
