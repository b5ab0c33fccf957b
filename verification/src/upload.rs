//! Uploading files over HTTP.

use crate::files::{
    asking_user, file_reply, http_date, law_permitted_reading_is_answered, modification, read_refusal,
    read_start, reading, reading_answers, username_of, FileQuery, FileQueryOf, FileQueryView, ReadFileView,
    MAX_FILE_BODY_SIZE,
};
use crate::fsutil::{
    apply_owner, is_unrestricted, name_or, name_text, new_owner, resolve_next, resolve_start, resolving,
    unrestricted, user_refusal, validate_username, writable_path, ResolveStepView, WritablePath, WritablePathOf,
};
use crate::host::{
    after_changes, answered, carried_out, exchange, lemma_answered_in_parts, mismatch, mismatch_error, modifies,
    Account, Answer, AnswerOf, AnswerView, ErrorKind, FsError, FsErrorOf, FsErrorView, FsOp, FsOpOf, FsOpView,
    Lookup, LookupOf, LookupView, MetadataView, Step, StepOf, StepView,
};
use crate::outside::in_calendar;
use crate::path::{parent, parent_path};
use crate::reply::{
    coded_error, failure_reply, fs_error_response, ok_head, request_error_response, success, HeadOf, Reply,
    ReplyView,
};
use crate::text::{all_visible, copy_bytes, has_prefix, header_bytes, is_all_visible, same_text, show, shown};
use vstd::prelude::*;
use vstd::utf8::*;

verus! {

/// The query of an upload: there is none, it cannot be read, or it was read.
#[verifier::ext_equal]
#[derive(Clone, Debug, PartialEq, Eq)]
pub enum UploadQueryOf<T> {
    Missing,
    Malformed(T),
    Given(FileQueryOf<T>),
}

pub type UploadQuery = UploadQueryOf<String>;

pub type UploadQueryView = UploadQueryOf<Seq<char>>;

impl View for UploadQueryOf<String> {
    type V = UploadQueryOf<Seq<char>>;

    open spec fn view(&self) -> UploadQueryOf<Seq<char>> {
        match self {
            UploadQueryOf::Missing => UploadQueryOf::Missing,
            UploadQueryOf::Malformed(message) => UploadQueryOf::Malformed(message@),
            UploadQueryOf::Given(query) => UploadQueryOf::Given(query@),
        }
    }
}

/// What the client learns of an uploaded file.
#[verifier::ext_equal]
#[derive(Clone, Debug, PartialEq, Eq)]
pub struct UploadEntryOf<T> {
    pub name: T,
    pub path: T,
    pub file_type: T,
}

pub type UploadEntry = UploadEntryOf<String>;

pub type UploadEntryView = UploadEntryOf<Seq<char>>;

impl View for UploadEntryOf<String> {
    type V = UploadEntryOf<Seq<char>>;

    open spec fn view(&self) -> UploadEntryOf<Seq<char>> {
        UploadEntryOf { name: self.name@, path: self.path@, file_type: self.file_type@ }
    }
}

/// What an upload ends with: the head of the reply, and the entry that its body holds as the one item of
/// a JSON list.
#[verifier::ext_equal]
#[derive(Clone, Debug, PartialEq, Eq)]
pub struct UploadedOf<T> {
    pub head: HeadOf<T>,
    pub entry: UploadEntryOf<T>,
}

pub type Uploaded = UploadedOf<String>;

pub type UploadedView = UploadedOf<Seq<char>>;

impl View for UploadedOf<String> {
    type V = UploadedOf<Seq<char>>;

    open spec fn view(&self) -> UploadedOf<Seq<char>> {
        UploadedOf { head: self.head@, entry: self.entry@ }
    }
}

/// How far an upload has come: the account of the user is asked for; the form is opened, its next
/// field awaited, the content of the field read; or the body is read; the path is resolved; the
/// directory is made, the file written, its permissions set; the account of the user is asked for once
/// more, and the file is given to it.
#[verifier::ext_equal]
#[derive(Debug, PartialEq, Eq)]
pub enum UploadStageOf<B> {
    Account,
    Form,
    Field,
    FieldContent,
    Body,
    Resolve { search: WritablePathOf<B>, data: B },
    Parent { path: B, data: B },
    Write { path: B },
    Mode { path: B },
    Giving { path: B },
    Owner { path: B },
}

/// An upload in progress.
#[verifier::ext_equal]
#[derive(Debug, PartialEq, Eq)]
pub struct UploadOf<B, T> {
    pub stage: UploadStageOf<B>,
    pub path: T,
    pub username: T,
    pub multipart: bool,
}

pub type UploadStage = UploadStageOf<Vec<u8>>;

pub type Upload = UploadOf<Vec<u8>, String>;

pub type UploadView = UploadOf<Seq<u8>, Seq<char>>;

pub type UploadStep = StepOf<FsOp, Upload, Uploaded, Reply>;

pub type UploadStepView = StepOf<FsOpView, UploadView, UploadedView, ReplyView>;

impl View for UploadStageOf<Vec<u8>> {
    type V = UploadStageOf<Seq<u8>>;

    open spec fn view(&self) -> UploadStageOf<Seq<u8>> {
        match self {
            UploadStageOf::Account => UploadStageOf::Account,
            UploadStageOf::Form => UploadStageOf::Form,
            UploadStageOf::Field => UploadStageOf::Field,
            UploadStageOf::FieldContent => UploadStageOf::FieldContent,
            UploadStageOf::Body => UploadStageOf::Body,
            UploadStageOf::Resolve { search, data } => UploadStageOf::Resolve { search: search@, data: data@ },
            UploadStageOf::Parent { path, data } => UploadStageOf::Parent { path: path@, data: data@ },
            UploadStageOf::Write { path } => UploadStageOf::Write { path: path@ },
            UploadStageOf::Mode { path } => UploadStageOf::Mode { path: path@ },
            UploadStageOf::Giving { path } => UploadStageOf::Giving { path: path@ },
            UploadStageOf::Owner { path } => UploadStageOf::Owner { path: path@ },
        }
    }
}

impl View for UploadOf<Vec<u8>, String> {
    type V = UploadOf<Seq<u8>, Seq<char>>;

    open spec fn view(&self) -> UploadOf<Seq<u8>, Seq<char>> {
        UploadOf {
            stage: self.stage@,
            path: self.path@,
            username: self.username@,
            multipart: self.multipart,
        }
    }
}

/// The beginning of the content type of a form with files.
pub open spec fn form_type() -> Seq<u8> {
    encode_utf8("multipart/form-data"@)
}

/// Whether the body of an upload is a form.
pub open spec fn is_form(content_type: Option<Seq<u8>>) -> bool {
    match content_type {
        Some(value) => all_visible(value) && value.len() >= form_type().len() && value.take(
            form_type().len() as int,
        ) == form_type(),
        None => false,
    }
}

/// Tests whether the body of an upload is a form.
pub fn is_multipart(content_type: Option<&[u8]>) -> (form: bool)
    ensures
        form == is_form(header_bytes(content_type)),
{
    match content_type {
        Some(value) => is_all_visible(value) && has_prefix(value, "multipart/form-data".as_bytes()),
        None => false,
    }
}

/// The reply to an upload that is not acceptable as it stands.
pub open spec fn refused(status: u16, message: Seq<char>) -> UploadStepView {
    StepOf::Fail(coded_error(status, "invalid_argument"@, message))
}

/// The reply to an upload on which the host failed.
pub open spec fn failed(failure: FsErrorView) -> UploadStepView {
    StepOf::Fail(failure_reply(failure))
}

/// Goes on to the content of the upload: a form, or the body as it is.
pub open spec fn upload_content(upload: UploadView) -> UploadStepView {
    if upload.multipart {
        StepOf::Ask(FsOpOf::OpenForm, UploadOf { stage: UploadStageOf::Form, ..upload })
    } else {
        StepOf::Ask(
            FsOpOf::ReadBody { limit: MAX_FILE_BODY_SIZE },
            UploadOf { stage: UploadStageOf::Body, ..upload },
        )
    }
}

/// Begins with the account of the user, where the user is held to permissions.
pub open spec fn upload_start(query: UploadQueryView, content_type: Option<Seq<u8>>) -> UploadStepView {
    match query {
        UploadQueryOf::Missing => refused(400, "path query parameter is required"@),
        UploadQueryOf::Malformed(message) => refused(400, message),
        UploadQueryOf::Given(query) => if query.path.len() == 0 {
            refused(400, "path query parameter is required"@)
        } else {
            let upload = UploadOf {
                stage: UploadStageOf::Account,
                path: query.path,
                username: asking_user(query),
                multipart: is_form(content_type),
            };
            if unrestricted(upload.username) {
                upload_content(upload)
            } else {
                StepOf::Ask(FsOpOf::FindAccount(upload.username), upload)
            }
        },
    }
}

/// Goes on with the resolution of the path, and once it is done with the directory above it, where
/// there is one.
pub open spec fn upload_resolving(upload: UploadView, data: Seq<u8>, step: ResolveStepView) -> UploadStepView {
    match step {
        StepOf::Ask(op, search) => StepOf::Ask(
            op,
            UploadOf { stage: UploadStageOf::Resolve { search, data }, ..upload },
        ),
        StepOf::Finish(path) => match parent(path) {
            Some(up) => StepOf::Ask(
                FsOpOf::CreateDirAll(up),
                UploadOf { stage: UploadStageOf::Parent { path, data }, ..upload },
            ),
            None => upload_writing(upload, path, data),
        },
        StepOf::Fail(failure) => failed(failure),
    }
}

/// Writes the file.
pub open spec fn upload_writing(upload: UploadView, path: Seq<u8>, data: Seq<u8>) -> UploadStepView {
    StepOf::Ask(
        FsOpOf::WriteFile { path, data },
        UploadOf { stage: UploadStageOf::Write { path }, ..upload },
    )
}

/// What an upload to a path ends with.
pub open spec fn uploaded(path: Seq<u8>) -> UploadedView {
    UploadedOf {
        head: success("text/plain; charset=utf-8"@),
        entry: UploadEntryOf { name: name_or(path, ""@), path: shown(path), file_type: "file"@ },
    }
}

/// Gives the file to the user, where the user is held to permissions: first the account of the user is
/// asked for.
pub open spec fn upload_owning(upload: UploadView, path: Seq<u8>) -> UploadStepView {
    if unrestricted(upload.username) {
        StepOf::Finish(uploaded(path))
    } else {
        StepOf::Ask(
            FsOpOf::FindAccount(upload.username),
            UploadOf { stage: UploadStageOf::Giving { path }, ..upload },
        )
    }
}

/// Gives the file to the account of the user.
pub open spec fn upload_giving(upload: UploadView, path: Seq<u8>, lookup: LookupView) -> UploadStepView {
    match new_owner(upload.username, lookup) {
        Ok(Some(account)) => StepOf::Ask(
            FsOpOf::SetOwner { path, account },
            UploadOf { stage: UploadStageOf::Owner { path }, ..upload },
        ),
        Ok(None) => StepOf::Finish(uploaded(path)),
        Err(failure) => failed(failure),
    }
}

/// Goes on with an answer of the host. The content of the first field named `file` of a form, or the
/// body as it is, is written to the resolved path, readable for everyone and writable for the owner
/// alone.
pub open spec fn upload_next(upload: UploadView, answer: AnswerView) -> UploadStepView {
    match (upload.stage, answer) {
        (UploadStageOf::Account, AnswerOf::Account(lookup)) => match user_refusal(upload.username, lookup) {
            Some(failure) => failed(failure),
            None => upload_content(upload),
        },
        (UploadStageOf::Form, AnswerOf::Done) => StepOf::Ask(
            FsOpOf::NextField,
            UploadOf { stage: UploadStageOf::Field, ..upload },
        ),
        (UploadStageOf::Form, AnswerOf::Failed(failure)) => refused(400, failure.message),
        (UploadStageOf::Field, AnswerOf::Field { name }) => if name == Some("file"@) {
            StepOf::Ask(FsOpOf::ReadField, UploadOf { stage: UploadStageOf::FieldContent, ..upload })
        } else {
            StepOf::Ask(FsOpOf::NextField, upload)
        },
        (UploadStageOf::Field, AnswerOf::NoField) => refused(400, "multipart field 'file' is required"@),
        (UploadStageOf::Field, AnswerOf::Failed(failure)) => refused(400, failure.message),
        (UploadStageOf::FieldContent, AnswerOf::Data(data)) => upload_resolving(
            upload,
            data,
            resolve_start(encode_utf8(upload.path)),
        ),
        (UploadStageOf::FieldContent, AnswerOf::Failed(failure)) => refused(400, failure.message),
        (UploadStageOf::Body, AnswerOf::Data(data)) => upload_resolving(
            upload,
            data,
            resolve_start(encode_utf8(upload.path)),
        ),
        (UploadStageOf::Body, AnswerOf::Failed(failure)) => refused(413, failure.message),
        (UploadStageOf::Resolve { search, data }, answer) => upload_resolving(
            upload,
            data,
            resolve_next(search, answer),
        ),
        (UploadStageOf::Parent { path, data }, AnswerOf::Done) => upload_writing(upload, path, data),
        (UploadStageOf::Write { path }, AnswerOf::Done) => StepOf::Ask(
            FsOpOf::SetMode { path, mode: 0o644 },
            UploadOf { stage: UploadStageOf::Mode { path }, ..upload },
        ),
        (UploadStageOf::Mode { path }, AnswerOf::Done) => upload_owning(upload, path),
        (UploadStageOf::Giving { path }, AnswerOf::Account(lookup)) => upload_giving(upload, path, lookup),
        (UploadStageOf::Owner { path }, AnswerOf::Done) => StepOf::Finish(uploaded(path)),
        (UploadStageOf::Owner { .. }, AnswerOf::Failed(failure)) => failed(
            FsErrorOf { kind: ErrorKind::Other, ..failure },
        ),
        (_, AnswerOf::Failed(failure)) => failed(failure),
        _ => failed(mismatch()),
    }
}

/// Refuses an upload.
fn refuse(status: u16, message: &str) -> (step: UploadStep)
    ensures
        step@ == refused(status, message@),
{
    StepOf::Fail(request_error_response(status, message))
}

/// Ends an upload on which the host failed.
fn fail(failure: &FsError) -> (step: UploadStep)
    ensures
        step@ == failed(failure@),
{
    StepOf::Fail(fs_error_response(failure))
}

/// Ends an upload to a path.
fn done(path: &[u8]) -> (result: Uploaded)
    ensures
        result@ == uploaded(path@),
{
    UploadedOf {
        head: ok_head("text/plain; charset=utf-8"),
        entry: UploadEntryOf { name: name_text(path, ""), path: show(path), file_type: "file".to_owned() },
    }
}

/// Starts an upload.
pub fn post(query: UploadQuery, content_type: Option<&[u8]>) -> (step: UploadStep)
    ensures
        step@ == upload_start(query@, header_bytes(content_type)),
{
    let query: FileQuery = match query {
        UploadQueryOf::Missing => {
            return refuse(400, "path query parameter is required");
        },
        UploadQueryOf::Malformed(message) => {
            return refuse(400, message.as_str());
        },
        UploadQueryOf::Given(query) => query,
    };
    if query.path.as_str().is_empty() {
        return refuse(400, "path query parameter is required");
    }
    let upload: Upload = UploadOf {
        stage: UploadStageOf::Account,
        path: query.path,
        username: username_of(query.username),
        multipart: is_multipart(content_type),
    };
    if is_unrestricted(upload.username.as_str()) {
        upload.content()
    } else {
        StepOf::Ask(FsOpOf::FindAccount(upload.username.clone()), upload)
    }
}

impl UploadOf<Vec<u8>, String> {
    /// The upload at another stage.
    fn at(self, stage: UploadStage) -> (upload: Upload)
        ensures
            upload@ == (UploadOf { stage: stage@, ..self@ }),
    {
        UploadOf {
            stage,
            path: self.path,
            username: self.username,
            multipart: self.multipart,
        }
    }

    /// Goes on to the content.
    fn content(self) -> (step: UploadStep)
        ensures
            step@ == upload_content(self@),
    {
        if self.multipart {
            StepOf::Ask(FsOpOf::OpenForm, self.at(UploadStageOf::Form))
        } else {
            StepOf::Ask(FsOpOf::ReadBody { limit: MAX_FILE_BODY_SIZE }, self.at(UploadStageOf::Body))
        }
    }

    /// Goes on with the resolution of the path.
    fn resolving(self, data: Vec<u8>, step: Step<WritablePath, Vec<u8>>) -> (next: UploadStep)
        ensures
            next@ == upload_resolving(self@, data@, step@),
    {
        match step {
            StepOf::Ask(op, search) => StepOf::Ask(op, self.at(UploadStageOf::Resolve { search, data })),
            StepOf::Finish(path) => match parent_path(&path) {
                Some(up) => StepOf::Ask(FsOpOf::CreateDirAll(up), self.at(UploadStageOf::Parent { path, data })),
                None => self.writing(path, data),
            },
            StepOf::Fail(failure) => fail(&failure),
        }
    }

    /// Writes the file.
    fn writing(self, path: Vec<u8>, data: Vec<u8>) -> (step: UploadStep)
        ensures
            step@ == upload_writing(self@, path@, data@),
    {
        StepOf::Ask(
            FsOpOf::WriteFile { path: copy_bytes(&path), data },
            self.at(UploadStageOf::Write { path }),
        )
    }

    /// Gives the file to the user.
    fn owning(self, path: Vec<u8>) -> (step: UploadStep)
        ensures
            step@ == upload_owning(self@, path@),
    {
        if is_unrestricted(self.username.as_str()) {
            StepOf::Finish(done(&path))
        } else {
            let username: String = self.username.clone();
            StepOf::Ask(FsOpOf::FindAccount(username), self.at(UploadStageOf::Giving { path }))
        }
    }

    /// Gives the file to the account of the user.
    fn giving(self, path: Vec<u8>, lookup: &Lookup) -> (step: UploadStep)
        ensures
            step@ == upload_giving(self@, path@, lookup@),
    {
        match apply_owner(self.username.as_str(), lookup) {
            Ok(Some(account)) => StepOf::Ask(
                FsOpOf::SetOwner { path: copy_bytes(&path), account },
                self.at(UploadStageOf::Owner { path }),
            ),
            Ok(None) => StepOf::Finish(done(&path)),
            Err(failure) => fail(&failure),
        }
    }

    /// Goes on with an answer of the host.
    pub fn step(self, answer: Answer) -> (step: UploadStep)
        ensures
            step@ == upload_next(self@, answer@),
    {
        let UploadOf { stage, path: requested, username, multipart } = self;
        let upload: Upload = UploadOf {
            stage: UploadStageOf::Field,
            path: requested,
            username,
            multipart,
        };
        match (stage, answer) {
            (UploadStageOf::Account, AnswerOf::Account(lookup)) => match validate_username(
                upload.username.as_str(),
                &lookup,
            ) {
                Err(failure) => fail(&failure),
                Ok(()) => upload.at(UploadStageOf::Account).content(),
            },
            (UploadStageOf::Form, AnswerOf::Done) => StepOf::Ask(FsOpOf::NextField, upload),
            (UploadStageOf::Form, AnswerOf::Failed(failure)) => refuse(400, failure.message.as_str()),
            (UploadStageOf::Field, AnswerOf::Field { name }) => {
                let wanted: bool = match &name {
                    Some(name) => same_text(name.as_str(), "file"),
                    None => false,
                };
                if wanted {
                    StepOf::Ask(FsOpOf::ReadField, upload.at(UploadStageOf::FieldContent))
                } else {
                    StepOf::Ask(FsOpOf::NextField, upload)
                }
            },
            (UploadStageOf::Field, AnswerOf::NoField) => refuse(400, "multipart field 'file' is required"),
            (UploadStageOf::Field, AnswerOf::Failed(failure)) => refuse(400, failure.message.as_str()),
            (UploadStageOf::FieldContent, AnswerOf::Data(data)) => {
                let step = writable_path(upload.path.as_str().as_bytes());
                upload.resolving(data, step)
            },
            (UploadStageOf::FieldContent, AnswerOf::Failed(failure)) => refuse(400, failure.message.as_str()),
            (UploadStageOf::Body, AnswerOf::Data(data)) => {
                let step = writable_path(upload.path.as_str().as_bytes());
                upload.resolving(data, step)
            },
            (UploadStageOf::Body, AnswerOf::Failed(failure)) => refuse(413, failure.message.as_str()),
            (UploadStageOf::Resolve { search, data }, answer) => upload.resolving(data, search.step(answer)),
            (UploadStageOf::Parent { path, data }, AnswerOf::Done) => upload.writing(path, data),
            (UploadStageOf::Write { path }, AnswerOf::Done) => StepOf::Ask(
                FsOpOf::SetMode { path: copy_bytes(&path), mode: 0o644 },
                upload.at(UploadStageOf::Mode { path }),
            ),
            (UploadStageOf::Mode { path }, AnswerOf::Done) => upload.owning(path),
            (UploadStageOf::Giving { path }, AnswerOf::Account(lookup)) => upload.giving(path, &lookup),
            (UploadStageOf::Owner { path }, AnswerOf::Done) => StepOf::Finish(done(&path)),
            (UploadStageOf::Owner { .. }, AnswerOf::Failed(failure)) => fail(
                &FsErrorOf { kind: ErrorKind::Other, message: failure.message },
            ),
            (_, AnswerOf::Failed(failure)) => fail(&failure),
            _ => fail(&mismatch_error()),
        }
    }
}

/// An upload begins without changes. A user that is held to permissions is looked for before anything
/// else.
pub proof fn law_upload_starts_by_looking_for_its_user(query: UploadQueryView, content_type: Option<Seq<u8>>)
    ensures
        upload_start(query, content_type) matches StepOf::Ask(op, upload) ==> {
            &&& !modifies(op)
            &&& unrestricted(upload.username) || upload.stage is Account && op == FsOpView::FindAccount(
                upload.username,
            )
        },
{
}

/// Nothing is received or changed for a user that does not exist: an upload gets beyond the search for
/// the account only when that shows that the user exists, and keeps its user.
pub proof fn law_only_known_users_upload(upload: UploadView, answer: AnswerView)
    ensures
        upload_next(upload, answer) matches StepOf::Ask(op, next) ==> {
            &&& next.username == upload.username
            &&& next.stage !is Account
            &&& upload.stage is Account ==> {
                &&& !modifies(op)
                &&& answer matches AnswerOf::Account(lookup)
                &&& user_refusal(upload.username, lookup) is None
            }
        },
        upload_next(upload, answer) is Finish ==> upload.stage !is Account,
{
}

/// The rule by which an upload goes on.
pub open spec fn uploading() -> spec_fn(UploadView, AnswerView) -> UploadStepView {
    |upload: UploadView, answer: AnswerView| upload_next(upload, answer)
}

/// The changes that an upload to a path makes for a user.
pub open spec fn upload_changes(
    path: Seq<u8>,
    data: Seq<u8>,
    username: Seq<char>,
    account: Account,
) -> Seq<FsOpView> {
    let made = match parent(path) {
        Some(up) => seq![FsOpOf::CreateDirAll(up)],
        None => Seq::empty(),
    };
    let given = if unrestricted(username) {
        Seq::empty()
    } else {
        seq![FsOpOf::SetOwner { path, account }]
    };
    made + seq![FsOpOf::WriteFile { path, data }, FsOpOf::SetMode { path, mode: 0o644 }] + given
}

/// Once its path is resolved, an upload makes the directory above the file, writes what was received
/// to the file and to nothing else, sets the permissions, gives the file to the account of the user where
/// the user is held to permissions, and ends with status 200 and an entry for the file.
pub proof fn law_upload_is_carried_out(upload: UploadView, data: Seq<u8>, path: Seq<u8>, account: Account)
    ensures
        ({
            let step = upload_resolving(upload, data, StepOf::Finish(path));
            &&& carried_out(uploading(), step, account, 5) == upload_changes(path, data, upload.username, account)
            &&& after_changes(uploading(), step, account, 5) == UploadStepView::Finish(uploaded(path))
            &&& uploaded(path).head.status == 200
        }),
{
    reveal_with_fuel(carried_out::<UploadView, UploadedView, ReplyView>, 7);
    reveal_with_fuel(after_changes::<UploadView, UploadedView, ReplyView>, 7);
    let step = upload_resolving(upload, data, StepOf::Finish(path));
    assert(carried_out(uploading(), step, account, 5) =~= upload_changes(path, data, upload.username, account));
}

/// What an upload received, by what was said: the content of the field or of the body.
pub open spec fn received(talk: Seq<(FsOpView, AnswerView)>) -> Option<Seq<u8>>
    decreases talk.len(),
{
    if talk.len() == 0 {
        None
    } else {
        match talk[0] {
            (FsOpOf::ReadField, AnswerOf::Data(data)) => Some(data),
            (FsOpOf::ReadBody { .. }, AnswerOf::Data(data)) => Some(data),
            _ => received(talk.skip(1)),
        }
    }
}

/// The files that the host was asked to write and wrote, by what was said: the path and the content of
/// each.
pub open spec fn writes(talk: Seq<(FsOpView, AnswerView)>) -> Seq<(Seq<u8>, Seq<u8>)>
    decreases talk.len(),
{
    if talk.len() == 0 {
        Seq::empty()
    } else {
        let rest = writes(talk.skip(1));
        match talk[0] {
            (FsOpOf::WriteFile { path, data }, AnswerOf::Done) => seq![(path, data)] + rest,
            _ => rest,
        }
    }
}

/// An upload that has written its file to a path, or has ended.
spec fn closing(step: UploadStepView, path: Seq<u8>) -> bool {
    match step {
        StepOf::Ask(op, upload) => op !is WriteFile && match upload.stage {
            UploadStageOf::Mode { path: file } => file == path,
            UploadStageOf::Giving { path: file } => file == path,
            UploadStageOf::Owner { path: file } => file == path,
            _ => false,
        },
        StepOf::Finish(result) => result == uploaded(path),
        StepOf::Fail(_) => true,
    }
}

/// An upload that has its content and has not written it, or has failed.
spec fn storing(step: UploadStepView, data: Seq<u8>) -> bool {
    match step {
        StepOf::Ask(op, upload) => match upload.stage {
            UploadStageOf::Resolve { data: content, .. } => op !is WriteFile && content == data,
            UploadStageOf::Parent { data: content, .. } => op !is WriteFile && content == data,
            UploadStageOf::Write { path } => op == (FsOpView::WriteFile { path, data }),
            _ => false,
        },
        StepOf::Finish(_) => false,
        StepOf::Fail(_) => true,
    }
}

/// An upload that does not have its content yet, or has failed.
spec fn gathering(step: UploadStepView) -> bool {
    match step {
        StepOf::Ask(op, upload) => match upload.stage {
            UploadStageOf::Account => op is FindAccount,
            UploadStageOf::Form => op is OpenForm,
            UploadStageOf::Field => op is NextField,
            UploadStageOf::FieldContent => op is ReadField,
            UploadStageOf::Body => op is ReadBody,
            _ => false,
        },
        StepOf::Finish(_) => false,
        StepOf::Fail(_) => true,
    }
}

/// The first question and answer, and the rest, of what an upload and the host say to each other.
proof fn lemma_talk(step: UploadStepView, answers: Seq<AnswerView>)
    requires
        step is Ask,
        answers.len() > 0,
    ensures
        ({
            let next = upload_next(step->Ask_1, answers[0]);
            let talk = exchange(uploading(), step, answers);
            &&& talk.len() > 0
            &&& talk[0] == (step->Ask_0, answers[0])
            &&& talk.skip(1) == exchange(uploading(), next, answers.skip(1))
            &&& answered(uploading(), step, answers) == answered(uploading(), next, answers.skip(1))
        }),
{
    let next = upload_next(step->Ask_1, answers[0]);
    let talk = exchange(uploading(), step, answers);
    assert(talk.skip(1) =~= exchange(uploading(), next, answers.skip(1)));
}

/// Once its file is written, an upload writes nothing more and ends with the entry for the file.
proof fn lemma_closing(step: UploadStepView, path: Seq<u8>, answers: Seq<AnswerView>)
    requires
        closing(step, path),
    ensures
        writes(exchange(uploading(), step, answers)) == Seq::<(Seq<u8>, Seq<u8>)>::empty(),
        answered(uploading(), step, answers) matches StepOf::Finish(result) ==> result == uploaded(path),
    decreases answers.len(),
{
    if step is Ask && answers.len() > 0 {
        lemma_talk(step, answers);
        lemma_closing(upload_next(step->Ask_1, answers[0]), path, answers.skip(1));
    }
}

/// Once it has its content, an upload that succeeds writes it once, and ends with the entry for the file.
proof fn lemma_storing(step: UploadStepView, data: Seq<u8>, answers: Seq<AnswerView>)
    requires
        storing(step, data),
        answered(uploading(), step, answers) is Finish,
    ensures
        ({
            let written = writes(exchange(uploading(), step, answers));
            &&& written.len() == 1
            &&& written[0].1 == data
            &&& answered(uploading(), step, answers) == UploadStepView::Finish(uploaded(written[0].0))
        }),
    decreases answers.len(),
{
    if step is Ask && answers.len() > 0 {
        let upload = step->Ask_1;
        let next = upload_next(upload, answers[0]);
        lemma_talk(step, answers);
        if let UploadStageOf::Write { path } = upload.stage {
            if answers[0] is Done {
                lemma_closing(next, path, answers.skip(1));
            }
        } else {
            assert(storing(next, data));
            lemma_storing(next, data, answers.skip(1));
        }
    }
}

/// An upload that succeeds receives its content and writes it once, to the path in its entry.
proof fn lemma_gathering(step: UploadStepView, answers: Seq<AnswerView>)
    requires
        gathering(step),
        answered(uploading(), step, answers) is Finish,
    ensures
        ({
            let talk = exchange(uploading(), step, answers);
            &&& writes(talk).len() == 1
            &&& received(talk) == Some(writes(talk)[0].1)
            &&& answered(uploading(), step, answers) == UploadStepView::Finish(uploaded(writes(talk)[0].0))
        }),
    decreases answers.len(),
{
    if step is Ask && answers.len() > 0 {
        let upload = step->Ask_1;
        let next = upload_next(upload, answers[0]);
        lemma_talk(step, answers);
        if upload.stage is FieldContent || upload.stage is Body {
            if let AnswerOf::Data(data) = answers[0] {
                assert(storing(next, data));
                lemma_storing(next, data, answers.skip(1));
            }
        } else {
            assert(gathering(next));
            lemma_gathering(next, answers.skip(1));
        }
    }
}

/// Whatever the host answers, an upload that succeeds has written one file: what it received, to the path
/// of which its entry tells.
pub proof fn law_upload_writes_what_it_received(
    query: UploadQueryView,
    content_type: Option<Seq<u8>>,
    answers: Seq<AnswerView>,
)
    requires
        answered(uploading(), upload_start(query, content_type), answers) is Finish,
    ensures
        ({
            let start = upload_start(query, content_type);
            let talk = exchange(uploading(), start, answers);
            &&& writes(talk).len() == 1
            &&& received(talk) == Some(writes(talk)[0].1)
            &&& answered(uploading(), start, answers) == UploadStepView::Finish(uploaded(writes(talk)[0].0))
        }),
{
    lemma_gathering(upload_start(query, content_type), answers);
}

/// What is written in two parts of what was said.
proof fn lemma_writes_in_parts(first: Seq<(FsOpView, AnswerView)>, second: Seq<(FsOpView, AnswerView)>)
    ensures
        writes(first + second) == writes(first) + writes(second),
    decreases first.len(),
{
    if first.len() == 0 {
        assert(first + second =~= second);
    } else {
        lemma_writes_in_parts(first.skip(1), second);
        assert((first + second).skip(1) =~= first.skip(1) + second);
    }
    assert(writes(first + second) =~= writes(first) + writes(second));
}

/// What a host answers to the questions for the content: the body; or the names of fields of a form, the
/// field named `file`, and its content.
pub open spec fn content_answers(form: bool, others: Seq<Option<Seq<char>>>, data: Seq<u8>) -> Seq<AnswerView> {
    if form {
        seq![AnswerOf::Done] + others.map_values(|name: Option<Seq<char>>| AnswerView::Field { name }) + seq![
            AnswerOf::Field { name: Some("file"@) },
            AnswerOf::Data(data),
        ]
    } else {
        seq![AnswerOf::Data(data)]
    }
}

/// What a host answers once the path is resolved, when it does everything that it is asked to do: to the
/// question to make the directory above the file, where there is one; to those to write the file and to set
/// its permissions; to those for the account of a user that is held to permissions and to give the file to it.
pub open spec fn storing_answers(username: Seq<char>, file: Seq<u8>, account: Account) -> Seq<AnswerView> {
    let made: Seq<AnswerView> = if parent(file) is Some {
        seq![AnswerOf::Done]
    } else {
        Seq::empty()
    };
    let given: Seq<AnswerView> = if unrestricted(username) {
        Seq::empty()
    } else {
        seq![AnswerOf::Account(LookupOf::Found(account)), AnswerOf::Done]
    };
    made + seq![AnswerOf::Done, AnswerOf::Done] + given
}

/// What a host answers to an upload: whether the user exists, where the user is held to permissions; the
/// content; what the search for the path asks; what is asked once the path is resolved.
pub open spec fn uploading_answers(
    username: Seq<char>,
    lookup: LookupView,
    content: Seq<AnswerView>,
    search: Seq<AnswerView>,
    file: Seq<u8>,
    account: Account,
) -> Seq<AnswerView> {
    let known: Seq<AnswerView> = if unrestricted(username) {
        Seq::empty()
    } else {
        seq![AnswerOf::Account(lookup)]
    };
    known + content + search + storing_answers(username, file, account)
}

/// The fields of a form that are not named `file` are passed over.
proof fn lemma_other_fields(upload: UploadView, others: Seq<Option<Seq<char>>>)
    requires
        upload.stage is Field,
        forall|i: int| 0 <= i < others.len() ==> #[trigger] others[i] != Some("file"@),
    ensures
        answered(
            uploading(),
            StepOf::Ask(FsOpOf::NextField, upload),
            others.map_values(|name: Option<Seq<char>>| AnswerView::Field { name }),
        ) == UploadStepView::Ask(FsOpOf::NextField, upload),
    decreases others.len(),
{
    let answers = others.map_values(|name: Option<Seq<char>>| AnswerView::Field { name });
    if others.len() > 0 {
        let rest = others.skip(1);
        assert(answers[0] == (AnswerView::Field { name: others[0] }));
        assert(answers.skip(1) =~= rest.map_values(|name: Option<Seq<char>>| AnswerView::Field { name }));
        assert forall|i: int| 0 <= i < rest.len() implies #[trigger] rest[i] != Some("file"@) by {
            assert(rest[i] == others[i + 1]);
        }
        lemma_other_fields(upload, rest);
    }
}

/// Once the content has come, the path is searched for.
proof fn lemma_content_comes(upload: UploadView, others: Seq<Option<Seq<char>>>, data: Seq<u8>)
    requires
        forall|i: int| 0 <= i < others.len() ==> #[trigger] others[i] != Some("file"@),
    ensures
        answered(uploading(), upload_content(upload), content_answers(upload.multipart, others, data))
            == upload_resolving(upload, data, resolve_start(encode_utf8(upload.path))),
{
    reveal_with_fuel(answered::<UploadView, UploadedView, ReplyView>, 4);
    if upload.multipart {
        let names = others.map_values(|name: Option<Seq<char>>| AnswerView::Field { name });
        let opened = seq![AnswerView::Done];
        let last = seq![AnswerView::Field { name: Some("file"@) }, AnswerView::Data(data)];
        let asking = UploadOf { stage: UploadStageOf::Field, ..upload };
        let step = UploadStepView::Ask(FsOpOf::NextField, asking);
        lemma_answered_in_parts(uploading(), upload_content(upload), opened, names + last);
        lemma_answered_in_parts(uploading(), step, names, last);
        lemma_other_fields(asking, others);
        assert(content_answers(true, others, data) =~= opened + (names + last));
        assert(opened.skip(1) =~= Seq::<AnswerView>::empty());
        assert(answered(uploading(), upload_content(upload), opened) == step);
        assert(last.skip(1) =~= seq![AnswerView::Data(data)]);
        assert(last.skip(1).skip(1) =~= Seq::<AnswerView>::empty());
    } else {
        assert(seq![AnswerView::Data(data)].skip(1) =~= Seq::<AnswerView>::empty());
    }
}

/// An upload goes along with the search for its path.
proof fn lemma_path_is_searched(
    upload: UploadView,
    data: Seq<u8>,
    step: ResolveStepView,
    search: Seq<AnswerView>,
)
    requires
        exchange(resolving(), step, search).len() == search.len(),
    ensures
        answered(uploading(), upload_resolving(upload, data, step), search) == upload_resolving(
            upload,
            data,
            answered(resolving(), step, search),
        ),
    decreases search.len(),
{
    if search.len() > 0 {
        if let StepOf::Ask(op, machine) = step {
            let next = resolve_next(machine, search[0]);
            assert(exchange(resolving(), next, search.skip(1)).len() == search.skip(1).len());
            lemma_path_is_searched(upload, data, next, search.skip(1));
            let waiting = UploadOf { stage: UploadStageOf::Resolve { search: machine, data }, ..upload };
            assert(upload_next(waiting, search[0]) == upload_resolving(upload, data, next));
        }
    }
}

/// What a host answers from the writing of the file on, when it does everything that it is asked to do.
spec fn writing_answers(username: Seq<char>, account: Account) -> Seq<AnswerView> {
    if unrestricted(username) {
        seq![AnswerOf::Done, AnswerOf::Done]
    } else {
        seq![AnswerOf::Done, AnswerOf::Done, AnswerOf::Account(LookupOf::Found(account)), AnswerOf::Done]
    }
}

/// From the writing of its file on, an upload that the host carries out ends with the entry for the file.
proof fn lemma_writing_ends(upload: UploadView, data: Seq<u8>, file: Seq<u8>, account: Account)
    ensures
        ({
            let step = upload_writing(upload, file, data);
            let answers = writing_answers(upload.username, account);
            &&& answered(uploading(), step, answers) == UploadStepView::Finish(uploaded(file))
            &&& writes(exchange(uploading(), step, answers)) == seq![(file, data)]
        }),
{
    let writing = upload_writing(upload, file, data);
    let first = writing_answers(upload.username, account);
    let (second, third) = (first.skip(1), first.skip(1).skip(1));
    let moding = upload_next(writing->Ask_1, AnswerOf::Done);
    let owning = upload_next(moding->Ask_1, AnswerOf::Done);
    lemma_talk(writing, first);
    lemma_talk(moding, second);
    assert(owning == upload_owning(moding->Ask_1, file));
    assert(answered(uploading(), writing, first) == answered(uploading(), owning, third));
    if unrestricted(upload.username) {
        assert(third =~= Seq::<AnswerView>::empty());
    } else {
        let given = AnswerView::Account(LookupOf::Found(account));
        let giving = upload_next(owning->Ask_1, given);
        assert(third =~= seq![given, AnswerView::Done]);
        lemma_talk(owning, third);
        lemma_talk(giving, third.skip(1));
        assert(third.skip(1).skip(1) =~= Seq::<AnswerView>::empty());
    }
    lemma_closing(moding, file, second);
    assert(writes(exchange(uploading(), writing, first)) =~= seq![(file, data)]);
}

/// Once its path is resolved, an upload that the host carries out writes the file and ends with its entry.
proof fn lemma_storing_ends(upload: UploadView, data: Seq<u8>, file: Seq<u8>, account: Account)
    ensures
        ({
            let step = upload_resolving(upload, data, StepOf::Finish(file));
            let answers = storing_answers(upload.username, file, account);
            &&& answered(uploading(), step, answers) == UploadStepView::Finish(uploaded(file))
            &&& writes(exchange(uploading(), step, answers)) == seq![(file, data)]
        }),
{
    let step = upload_resolving(upload, data, StepOf::Finish(file));
    let answers = storing_answers(upload.username, file, account);
    let last = writing_answers(upload.username, account);
    lemma_writing_ends(upload, data, file, account);
    if parent(file) is Some {
        assert(answers =~= seq![AnswerView::Done] + last);
        assert(answers.skip(1) =~= last);
        lemma_talk(step, answers);
        assert(upload_next(step->Ask_1, AnswerOf::Done) == upload_writing(upload, file, data));
    } else {
        assert(answers =~= last);
    }
}

/// An upload succeeds when the host lets it: the user exists, the content comes, as the body or as the field
/// named `file` of a form, the search for the path ends at a file, and the host does what it is asked to do.
/// It then has written the content to that file and nothing else, and ends with the entry for it.
pub proof fn law_upload_succeeds(
    query: FileQueryView,
    content_type: Option<Seq<u8>>,
    lookup: LookupView,
    others: Seq<Option<Seq<char>>>,
    data: Seq<u8>,
    search: Seq<AnswerView>,
    file: Seq<u8>,
    account: Account,
)
    requires
        query.path.len() > 0,
        user_refusal(asking_user(query), lookup) is None,
        forall|i: int| 0 <= i < others.len() ==> #[trigger] others[i] != Some("file"@),
        exchange(resolving(), resolve_start(encode_utf8(query.path)), search).len() == search.len(),
        answered(resolving(), resolve_start(encode_utf8(query.path)), search) == ResolveStepView::Finish(file),
    ensures
        ({
            let start = upload_start(UploadQueryOf::Given(query), content_type);
            let content = content_answers(is_form(content_type), others, data);
            let answers = uploading_answers(asking_user(query), lookup, content, search, file, account);
            let talk = exchange(uploading(), start, answers);
            &&& answered(uploading(), start, answers) == UploadStepView::Finish(uploaded(file))
            &&& writes(talk) == seq![(file, data)]
            &&& received(talk) == Some(data)
        }),
{
    let username = asking_user(query);
    let upload = UploadOf {
        stage: UploadStageOf::Account,
        path: query.path,
        username,
        multipart: is_form(content_type),
    };
    let start = upload_start(UploadQueryOf::Given(query), content_type);
    let content = content_answers(is_form(content_type), others, data);
    let known: Seq<AnswerView> = if unrestricted(username) {
        Seq::empty()
    } else {
        seq![AnswerOf::Account(lookup)]
    };
    let storing = storing_answers(username, file, account);
    let gathered = known + content + search;
    let resolved = upload_resolving(upload, data, StepOf::Finish(file));
    reveal_with_fuel(answered::<UploadView, UploadedView, ReplyView>, 2);
    assert(seq![AnswerView::Account(lookup)].skip(1) =~= Seq::<AnswerView>::empty());
    assert(answered(uploading(), start, known) == upload_content(upload));
    lemma_answered_in_parts(uploading(), start, known, content);
    lemma_content_comes(upload, others, data);
    lemma_answered_in_parts(uploading(), start, known + content, search);
    lemma_path_is_searched(upload, data, resolve_start(encode_utf8(query.path)), search);
    assert(answered(uploading(), start, gathered) == resolved);
    lemma_answered_in_parts(uploading(), start, gathered, storing);
    lemma_storing_ends(upload, data, file, account);
    lemma_writes_in_parts(exchange(uploading(), start, gathered), exchange(uploading(), resolved, storing));
    law_upload_writes_what_it_received(UploadQueryOf::Given(query), content_type, gathered + storing);
    let talk = exchange(uploading(), start, gathered + storing);
    assert(writes(talk) == writes(exchange(uploading(), start, gathered)) + seq![(file, data)]);
    assert(writes(talk) =~= seq![(file, data)]);
}

/// A file that was uploaded is read back. Whatever the host answered to an upload to a path that
/// succeeded: when the same path is then read without conditions by a user who may read it, and the host
/// finds there the file that was written, with what was written to it, the reply has status 200 and the
/// bytes that were uploaded as its body.
pub proof fn law_read_gives_back_what_was_uploaded(
    path: Seq<char>,
    uploader: Option<Seq<char>>,
    content_type: Option<Seq<u8>>,
    answers: Seq<AnswerView>,
    reader: Option<Seq<char>>,
    validated: LookupView,
    lookup: LookupView,
    access: MetadataView,
    metadata: MetadataView,
    seconds: u64,
)
    requires
        ({
            let post = upload_start(
                UploadQueryOf::Given(FileQueryOf { path, username: uploader }),
                content_type,
            );
            let file = writes(exchange(uploading(), post, answers)).last().0;
            let user = asking_user(FileQueryOf { path, username: reader });
            &&& answered(uploading(), post, answers) is Finish
            &&& read_refusal(file, user, validated, lookup, access) is None
        }),
        metadata.size <= MAX_FILE_BODY_SIZE,
        modification(metadata) == Ok::<u64, FsErrorView>(seconds),
        in_calendar(seconds as i64),
    ensures
        ({
            let post = upload_start(
                UploadQueryOf::Given(FileQueryOf { path, username: uploader }),
                content_type,
            );
            let talk = exchange(uploading(), post, answers);
            let (file, data) = writes(talk).last();
            let query = FileQueryOf { path, username: reader };
            let found = reading_answers(asking_user(query), file, validated, lookup, access, metadata, data);
            let reply = file_reply(200, http_date(seconds), None, data);
            &&& received(talk) == Some(data)
            &&& answered(reading(), read_start(query, None, None), found) == StepView::<
                ReadFileView,
                ReplyView,
            >::Finish(reply)
            &&& reply.body == data
        }),
{
    let given = UploadQueryOf::Given(FileQueryOf { path, username: uploader });
    law_upload_writes_what_it_received(given, content_type, answers);
    let (file, data) = writes(exchange(uploading(), upload_start(given, content_type), answers)).last();
    law_permitted_reading_is_answered(
        FileQueryOf { path, username: reader },
        None,
        None,
        file,
        validated,
        lookup,
        access,
        metadata,
        seconds,
        data,
    );
}

} // verus!
