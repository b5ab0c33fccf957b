//! What uploading a file over HTTP is for.

use crate::files::{FileQueryOf, FileQueryView};
use crate::fsutil::{resolve_start, resolving, ResolveStepView};
use crate::host::{
    lemma_goes_along, lemma_scripted_in_parts, scripted, Account, AnswerOf, AnswerView, ErrorKind, FsErrorOf,
    FsErrorView, FsOpOf, FsOpView, LookupOf, LookupView, StepOf,
};
use crate::laws::reading::{free, reader};
use crate::laws::requests::{leads_to, room_script, Script};
use crate::path::file_name;
use crate::reply::{error_object, failure_reply, HeadOf, ReplyView};
use crate::text::header_content;
use crate::upload::{
    is_form, upload_content, upload_next, upload_owning, upload_resolving, upload_start, upload_writing,
    uploaded, uploading, UploadOf, UploadQueryOf, UploadStageOf, UploadStepView, UploadView, UploadedView,
};
use vstd::prelude::*;
use vstd::utf8::*;

verus! {

/// A body is a form exactly where its content type is text that begins so.
pub proof fn law_forms_are_told_by_their_type(value: Seq<u8>)
    ensures
        !is_form(None),
        ({
            let beginning = encode_utf8("multipart/form-data"@);
            is_form(Some(value)) <==> header_content(value) is Some && value.len() >= beginning.len() && value.take(
                beginning.len() as int,
            ) == beginning
        }),
{
}

/// What an upload ends with tells of its file: status 200, the name at the end of the path, the path, as
/// they are where they are UTF-8, and that it is a file.
pub proof fn law_upload_tells_of_its_file(file: Seq<u8>)
    ensures
        ({
            let result = uploaded(file);
            &&& result.head == (HeadOf { status: 200, content_type: "text/plain; charset=utf-8"@ })
            &&& valid_utf8(file) ==> encode_utf8(result.entry.path) == file
            &&& file_name(file) matches Some(name) ==> valid_utf8(name) ==> encode_utf8(result.entry.name) == name
            &&& file_name(file) matches Some(name) ==> !valid_utf8(name) ==> result.entry.name == ""@
            &&& file_name(file) is None ==> result.entry.name == ""@
            &&& result.entry.file_type == "file"@
        }),
{
    broadcast use decode_utf8_encode_utf8;

}

/// The question whether a user exists: none for a user that no permission is asked of.
pub open spec fn user_script(username: Seq<char>, found: Account) -> Script {
    if free(username) {
        Seq::empty()
    } else {
        seq![(FsOpOf::FindAccount(username), AnswerOf::Account(LookupOf::Found(found)))]
    }
}

/// The fields of a form that stand before the one that counts.
pub open spec fn other_fields(names: Seq<Option<Seq<char>>>) -> Script {
    Seq::new(names.len(), |i: int| (FsOpView::NextField, AnswerView::Field { name: names[i] }))
}

/// The questions for the content: for the body of at most 64 MiB; or, of a form, for its fields up to the
/// one named `file`, and for the content of that one.
pub open spec fn content_script(form: bool, names: Seq<Option<Seq<char>>>, data: Seq<u8>) -> Script {
    if form {
        seq![(FsOpView::OpenForm, AnswerView::Done)] + other_fields(names) + seq![
            (FsOpView::NextField, AnswerView::Field { name: Some("file"@) }),
            (FsOpView::ReadField, AnswerView::Data(data)),
        ]
    } else {
        seq![(FsOpView::ReadBody { limit: 67108864 }, AnswerView::Data(data))]
    }
}

/// The questions by which a file is given to a user: none for a user that no permission is asked of.
pub open spec fn handing_script(username: Seq<char>, file: Seq<u8>, account: Account) -> Script {
    if free(username) {
        Seq::empty()
    } else {
        seq![
            (FsOpOf::FindAccount(username), AnswerOf::Account(LookupOf::Found(account))),
            (FsOpOf::SetOwner { path: file, account }, AnswerOf::Done),
        ]
    }
}

/// Fields that do not count are passed over.
proof fn lemma_other_fields(upload: UploadView, names: Seq<Option<Seq<char>>>, place: int)
    requires
        upload.stage is Field,
        0 <= place <= names.len(),
        forall|i: int| 0 <= i < names.len() ==> #[trigger] names[i] != Some("file"@),
    ensures
        scripted(uploading(), StepOf::Ask(FsOpOf::NextField, upload), other_fields(names), place) == Some(
            UploadStepView::Ask(FsOpOf::NextField, upload),
        ),
    decreases names.len() - place,
{
    if place < names.len() {
        assert(names[place] != Some("file"@));
        assert(other_fields(names)[place] == (FsOpView::NextField, AnswerView::Field { name: names[place] }));
        lemma_other_fields(upload, names, place + 1);
    }
}

/// Once the content has come, it is searched where the path leads.
proof fn lemma_content(upload: UploadView, names: Seq<Option<Seq<char>>>, data: Seq<u8>)
    requires
        forall|i: int| 0 <= i < names.len() ==> #[trigger] names[i] != Some("file"@),
    ensures
        scripted(uploading(), upload_content(upload), content_script(upload.multipart, names, data), 0) == Some(
            upload_resolving(upload, data, resolve_start(encode_utf8(upload.path))),
        ),
{
    if upload.multipart {
        let opened = seq![(FsOpView::OpenForm, AnswerView::Done)];
        let others = other_fields(names);
        let last = seq![
            (FsOpView::NextField, AnswerView::Field { name: Some("file"@) }),
            (FsOpView::ReadField, AnswerView::Data(data)),
        ];
        let asking = UploadOf { stage: UploadStageOf::Field, ..upload };
        let step = UploadStepView::Ask(FsOpOf::NextField, asking);
        assert(scripted(uploading(), upload_content(upload), opened, 0) == Some(step)) by {
            reveal_with_fuel(scripted::<FsOpView, AnswerView, UploadView, UploadedView, ReplyView>, 3);
        }
        lemma_other_fields(asking, names, 0);
        lemma_scripted_in_parts(uploading(), upload_content(upload), opened, others, 0);
        assert(scripted(uploading(), step, last, 0) == Some(
            upload_resolving(upload, data, resolve_start(encode_utf8(upload.path))),
        )) by {
            reveal_with_fuel(scripted::<FsOpView, AnswerView, UploadView, UploadedView, ReplyView>, 4);
        }
        lemma_scripted_in_parts(uploading(), upload_content(upload), opened + others, last, 0);
    } else {
        reveal_with_fuel(scripted::<FsOpView, AnswerView, UploadView, UploadedView, ReplyView>, 3);
    }
}

/// An upload stores what it brings where its path leads, and changes nothing else: the user is looked for,
/// unless no permission is asked of them; the content comes, as the body or in a form; it is searched where
/// the path leads; the directory above that is made; the content is written there, readable for everyone and
/// writable for its owner; the file is given to the user; and the reply tells of that file.
pub proof fn law_upload_stores_what_it_brings(
    query: FileQueryView,
    content_type: Option<Seq<u8>>,
    found: Account,
    names: Seq<Option<Seq<char>>>,
    data: Seq<u8>,
    search: Script,
    file: Seq<u8>,
    account: Account,
)
    requires
        query.path.len() > 0,
        forall|i: int| 0 <= i < names.len() ==> #[trigger] names[i] != Some("file"@),
        leads_to(query.path, search, file),
    ensures
        scripted(
            uploading(),
            upload_start(UploadQueryOf::Given(query), content_type),
            user_script(reader(query), found) + content_script(is_form(content_type), names, data) + search
                + room_script(file) + seq![
                (FsOpOf::WriteFile { path: file, data }, AnswerOf::Done),
                (FsOpOf::SetMode { path: file, mode: 0o644 }, AnswerOf::Done),
            ] + handing_script(reader(query), file, account),
            0,
        ) == Some(UploadStepView::Finish(uploaded(file))),
{
    let username = reader(query);
    let upload = UploadOf {
        stage: UploadStageOf::Account,
        path: query.path,
        username,
        multipart: is_form(content_type),
    };
    let start = upload_start(UploadQueryOf::Given(query), content_type);
    let user = user_script(username, found);
    let content = content_script(is_form(content_type), names, data);
    let room = room_script(file);
    let stored = seq![
        (FsOpOf::WriteFile { path: file, data }, AnswerOf::Done),
        (FsOpOf::SetMode { path: file, mode: 0o644 }, AnswerOf::Done),
    ];
    let handing = handing_script(username, file, account);
    let searching = |step: ResolveStepView| upload_resolving(upload, data, step);
    assert(scripted(uploading(), start, user, 0) == Some(upload_content(upload))) by {
        reveal_with_fuel(scripted::<FsOpView, AnswerView, UploadView, UploadedView, ReplyView>, 3);
    }
    lemma_content(upload, names, data);
    lemma_scripted_in_parts(uploading(), start, user, content, 0);
    lemma_goes_along(resolving(), uploading(), searching, resolve_start(encode_utf8(query.path)), search, 0);
    lemma_scripted_in_parts(uploading(), start, user + content, search, 0);
    let resolved = searching(StepOf::Finish(file));
    assert(scripted(uploading(), start, user + content + search, 0) == Some(resolved));
    assert(scripted(uploading(), resolved, room, 0) == Some(upload_writing(upload, file, data))) by {
        reveal_with_fuel(scripted::<FsOpView, AnswerView, UploadView, UploadedView, ReplyView>, 3);
    }
    lemma_scripted_in_parts(uploading(), start, user + content + search, room, 0);
    assert(scripted(uploading(), upload_writing(upload, file, data), stored, 0) == Some(
        upload_owning(upload, file),
    )) by {
        reveal_with_fuel(scripted::<FsOpView, AnswerView, UploadView, UploadedView, ReplyView>, 4);
    }
    lemma_scripted_in_parts(uploading(), start, user + content + search + room, stored, 0);
    assert(scripted(uploading(), upload_owning(upload, file), handing, 0) == Some(
        UploadStepView::Finish(uploaded(file)),
    )) by {
        reveal_with_fuel(scripted::<FsOpView, AnswerView, UploadView, UploadedView, ReplyView>, 4);
    }
    lemma_scripted_in_parts(uploading(), start, user + content + search + room + stored, handing, 0);
}

/// The reply to an upload that is not acceptable as it stands.
pub open spec fn not_accepted(step: UploadStepView, status: u16, message: Seq<char>) -> bool {
    &&& step matches StepOf::Fail(reply)
    &&& reply.status == status
    &&& reply.content_type == "application/json"@
    &&& reply.body == encode_utf8(error_object("invalid_argument"@, message))
}

/// An upload without a path, or with a query that cannot be read, is not accepted, and nothing is asked.
pub proof fn law_upload_needs_a_path(
    username: Option<Seq<char>>,
    content_type: Option<Seq<u8>>,
    message: Seq<char>,
)
    ensures
        not_accepted(
            upload_start(UploadQueryOf::Missing, content_type),
            400,
            "path query parameter is required"@,
        ),
        not_accepted(upload_start(UploadQueryOf::Malformed(message), content_type), 400, message),
        not_accepted(
            upload_start(UploadQueryOf::Given(FileQueryOf { path: Seq::empty(), username }), content_type),
            400,
            "path query parameter is required"@,
        ),
{
}

/// An upload whose content does not come is not accepted: a body that is refused, for its length, with
/// status 413; a form that cannot be read, or that has no field named `file`, with status 400.
pub proof fn law_upload_needs_its_content(upload: UploadView, failure: FsErrorView)
    ensures
        upload.stage is Body ==> not_accepted(upload_next(upload, AnswerOf::Failed(failure)), 413, failure.message),
        upload.stage is Form || upload.stage is Field || upload.stage is FieldContent ==> not_accepted(
            upload_next(upload, AnswerOf::Failed(failure)),
            400,
            failure.message,
        ),
        upload.stage is Field ==> not_accepted(
            upload_next(upload, AnswerOf::NoField),
            400,
            "multipart field 'file' is required"@,
        ),
{
}

/// Nothing is stored for a user that does not exist.
pub proof fn law_unknown_users_upload_nothing(
    query: FileQueryView,
    content_type: Option<Seq<u8>>,
    lookup: LookupView,
)
    requires
        query.path.len() > 0,
        !free(reader(query)),
        lookup !is Found,
    ensures
        scripted(
            uploading(),
            upload_start(UploadQueryOf::Given(query), content_type),
            seq![(FsOpOf::FindAccount(reader(query)), AnswerOf::Account(lookup))],
            0,
        ) == Some(
            UploadStepView::Fail(
                failure_reply(
                    match lookup {
                        LookupOf::Failed(message) => FsErrorOf { kind: ErrorKind::Other, message },
                        _ => FsErrorOf {
                            kind: ErrorKind::NotFound,
                            message: "user "@ + reader(query) + " not found"@,
                        },
                    },
                ),
            ),
        ),
{
    reveal_with_fuel(scripted::<FsOpView, AnswerView, UploadView, UploadedView, ReplyView>, 3);
}

/// A failure of the host while the file is stored ends the upload, and the client is told of this failure; a
/// failure to give the file away counts as one of no particular kind.
pub proof fn law_failures_of_storing_are_passed_on(upload: UploadView, failure: FsErrorView)
    requires
        upload.stage matches UploadStageOf::Resolve { search, .. } ==> search.found,
    ensures
        upload.stage is Account || upload.stage is Resolve || upload.stage is Parent || upload.stage is Write
            || upload.stage is Mode || upload.stage is Giving ==> upload_next(upload, AnswerOf::Failed(failure))
            == UploadStepView::Fail(failure_reply(failure)),
        upload.stage is Owner ==> upload_next(upload, AnswerOf::Failed(failure)) == UploadStepView::Fail(
            failure_reply(FsErrorOf { kind: ErrorKind::Other, message: failure.message }),
        ),
{
}

/// A file that was written and cannot be given to its user, because the account is gone or cannot be
/// searched, is told of with the reason.
pub proof fn law_files_are_given_to_accounts_only(upload: UploadView, lookup: LookupView)
    requires
        upload.stage is Giving,
        !free(upload.username),
        lookup !is Found,
    ensures
        upload_next(upload, AnswerOf::Account(lookup)) == UploadStepView::Fail(
            failure_reply(
                match lookup {
                    LookupOf::Failed(message) => FsErrorOf { kind: ErrorKind::Other, message },
                    _ => FsErrorOf { kind: ErrorKind::NotFound, message: "user not found"@ },
                },
            ),
        ),
{
}

} // verus!
