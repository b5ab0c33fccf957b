//! The filesystem requests: list a directory, look at a path, remove it, move it, make a directory.

use crate::access::{
    check_next, check_start, ensure_can_modify, existing_path, fitting, has_right, request_user,
    requesting_user, required_path, validate_directory, validate_directory_or_readable, AccessCheckOf,
    AccessCheckView, AccessStageOf, AccessStep, AccessStepView, Right,
};
use crate::credentials::basic_credentials;
use crate::entry::{
    describe, described, describing, description_next, description_start, learned, name_in, no_names, told_name,
    writable_time, Description, DescriptionOf, DescriptionView, FileEntry, FileEntryOf, FileEntryView,
    NameCache, NamesView,
};
use crate::fsutil::{
    apply_owner, is_unrestricted, new_owner, resolve_next, resolve_start, unrestricted, user_refusal,
    validate_username, writable_path, ResolveStepView, WritablePath, WritablePathOf,
};
use crate::host::{
    after_changes, carried_out, mismatch, mismatch_error, modifies, Account, Answer, AnswerOf, AnswerView,
    ErrorKind, FsErrorOf, FsErrorView, FsOp, FsOpOf, FsOpView, Lookup, LookupOf, LookupView, Metadata,
    MetadataOf, MetadataView, Step, StepOf, StepView,
};
use crate::listing::{by_name, entry_views, sort_by_name};
use crate::path::{parent, parent_or_root, parent_path, parent_path_or_root};
use crate::reply::{empty_response, json_reply, json_success, ok_head, HeadOf, ReplyOf};
use crate::text::{copy_bytes, header_bytes};
use vstd::prelude::*;
use vstd::utf8::*;

verus! {

/// What a request is for.
#[verifier::ext_equal]
#[derive(Clone, Debug, PartialEq, Eq)]
pub enum TaskOf<T> {
    List { path: T },
    Stat { path: T },
    Remove { path: T },
    Move { source: T, destination: T },
    Make { path: T },
}

pub type Task = TaskOf<String>;

pub type TaskView = TaskOf<Seq<char>>;

impl View for TaskOf<String> {
    type V = TaskOf<Seq<char>>;

    open spec fn view(&self) -> TaskOf<Seq<char>> {
        match self {
            TaskOf::List { path } => TaskOf::List { path: path@ },
            TaskOf::Stat { path } => TaskOf::Stat { path: path@ },
            TaskOf::Remove { path } => TaskOf::Remove { path: path@ },
            TaskOf::Move { source, destination } => TaskOf::Move { source: source@, destination: destination@ },
            TaskOf::Make { path } => TaskOf::Make { path: path@ },
        }
    }
}

/// What a request that succeeded brought: the entries of a directory or one entry, with the head of the
/// reply that tells of them in JSON, or a whole reply.
#[verifier::ext_equal]
#[derive(Debug, PartialEq, Eq)]
pub enum OutcomeOf<L, B, T> {
    Entries { head: HeadOf<T>, entries: L },
    Entry { head: HeadOf<T>, entry: FileEntryOf<T> },
    Empty(ReplyOf<B, T>),
}

pub type Outcome = OutcomeOf<Vec<FileEntry>, Vec<u8>, String>;

pub type OutcomeView = OutcomeOf<Seq<FileEntryView>, Seq<u8>, Seq<char>>;

impl View for OutcomeOf<Vec<FileEntry>, Vec<u8>, String> {
    type V = OutcomeOf<Seq<FileEntryView>, Seq<u8>, Seq<char>>;

    open spec fn view(&self) -> OutcomeOf<Seq<FileEntryView>, Seq<u8>, Seq<char>> {
        match self {
            OutcomeOf::Entries { head, entries } => OutcomeOf::Entries {
                head: head@,
                entries: entry_views(entries@),
            },
            OutcomeOf::Entry { head, entry } => OutcomeOf::Entry { head: head@, entry: entry@ },
            OutcomeOf::Empty(reply) => OutcomeOf::Empty(reply@),
        }
    }
}

/// The outcome of a listing.
pub open spec fn listed_outcome(entries: Seq<FileEntryView>) -> OutcomeView {
    OutcomeOf::Entries { head: json_success(), entries }
}

/// The outcome of a request that describes a path.
pub open spec fn entry_outcome(entry: FileEntryView) -> OutcomeView {
    OutcomeOf::Entry { head: json_success(), entry }
}

/// The outcome of a request with nothing to tell.
pub open spec fn empty_outcome() -> OutcomeView {
    OutcomeOf::Empty(json_reply(200, "{}"@))
}

/// What a request waits for.
#[verifier::ext_equal]
#[derive(Debug, PartialEq, Eq)]
pub enum StageOf<N, L, B, T> {
    /// The account of the user, before anything else.
    Account(TaskOf<T>),
    /// The real path of the directory to be listed.
    ListPath,
    /// An answer that shows whether the directory may be listed.
    ListCheck { path: B, check: AccessCheckOf<B, T> },
    /// That the directory can be gone through.
    ListOpen,
    /// The next entry of the directory.
    ListNext { names: N, entries: L },
    /// The name of a user or a group, to describe an entry.
    ListName { names: N, entries: L, path: B, metadata: MetadataOf<T> },
    /// The real path to be looked at.
    StatPath,
    /// An answer that shows whether the user may look at the path.
    StatCheck { path: B, check: AccessCheckOf<B, T> },
    /// The real path of what is to be removed.
    RemovePath,
    /// An answer that shows whether the user may change the directory above it.
    RemoveCheck { path: B, check: AccessCheckOf<B, T> },
    /// Whether it is a directory.
    RemoveKind { path: B },
    /// That it is removed.
    Removing,
    /// The real path of what is to be moved.
    MoveSource { target: T },
    /// Where the destination leads.
    MoveDestination { source: B, search: WritablePathOf<B> },
    /// An answer that shows whether the user may change the directory above the source.
    MoveCheckSource { source: B, destination: B, check: AccessCheckOf<B, T> },
    /// An answer that shows whether the user may change the directory above the destination.
    MoveCheckDestination { source: B, destination: B, check: AccessCheckOf<B, T> },
    /// That the directory above the destination is made.
    MoveParent { source: B, destination: B },
    /// That the source is moved.
    Moving { destination: B },
    /// Where the path of the new directory leads.
    MakePath(WritablePathOf<B>),
    /// An answer that shows whether the user may change the directory above it.
    MakeCheck { path: B, check: AccessCheckOf<B, T> },
    /// That the directory is made.
    Making { path: B },
    /// The account of the user, to give the directory to it.
    MakeAccount { path: B },
    /// That the directory is given to the user.
    MakeOwner { path: B },
    /// What is known of the path that the reply describes.
    Metadata { path: B },
    /// The name of a user or a group, to describe that path.
    Describe(DescriptionOf<N, B, T>),
}

pub type Stage = StageOf<NameCache, Vec<FileEntry>, Vec<u8>, String>;

pub type StageView = StageOf<NamesView, Seq<FileEntryView>, Seq<u8>, Seq<char>>;

impl View for StageOf<NameCache, Vec<FileEntry>, Vec<u8>, String> {
    type V = StageOf<NamesView, Seq<FileEntryView>, Seq<u8>, Seq<char>>;

    open spec fn view(&self) -> StageOf<NamesView, Seq<FileEntryView>, Seq<u8>, Seq<char>> {
        match self {
            StageOf::Account(task) => StageOf::Account(task@),
            StageOf::ListPath => StageOf::ListPath,
            StageOf::ListCheck { path, check } => StageOf::ListCheck { path: path@, check: check@ },
            StageOf::ListOpen => StageOf::ListOpen,
            StageOf::ListNext { names, entries } => StageOf::ListNext {
                names: names@,
                entries: entry_views(entries@),
            },
            StageOf::ListName { names, entries, path, metadata } => StageOf::ListName {
                names: names@,
                entries: entry_views(entries@),
                path: path@,
                metadata: metadata@,
            },
            StageOf::StatPath => StageOf::StatPath,
            StageOf::StatCheck { path, check } => StageOf::StatCheck { path: path@, check: check@ },
            StageOf::RemovePath => StageOf::RemovePath,
            StageOf::RemoveCheck { path, check } => StageOf::RemoveCheck { path: path@, check: check@ },
            StageOf::RemoveKind { path } => StageOf::RemoveKind { path: path@ },
            StageOf::Removing => StageOf::Removing,
            StageOf::MoveSource { target } => StageOf::MoveSource { target: target@ },
            StageOf::MoveDestination { source, search } => StageOf::MoveDestination {
                source: source@,
                search: search@,
            },
            StageOf::MoveCheckSource { source, destination, check } => StageOf::MoveCheckSource {
                source: source@,
                destination: destination@,
                check: check@,
            },
            StageOf::MoveCheckDestination { source, destination, check } => StageOf::MoveCheckDestination {
                source: source@,
                destination: destination@,
                check: check@,
            },
            StageOf::MoveParent { source, destination } => StageOf::MoveParent {
                source: source@,
                destination: destination@,
            },
            StageOf::Moving { destination } => StageOf::Moving { destination: destination@ },
            StageOf::MakePath(search) => StageOf::MakePath(search@),
            StageOf::MakeCheck { path, check } => StageOf::MakeCheck { path: path@, check: check@ },
            StageOf::Making { path } => StageOf::Making { path: path@ },
            StageOf::MakeAccount { path } => StageOf::MakeAccount { path: path@ },
            StageOf::MakeOwner { path } => StageOf::MakeOwner { path: path@ },
            StageOf::Metadata { path } => StageOf::Metadata { path: path@ },
            StageOf::Describe(description) => StageOf::Describe(description@),
        }
    }
}

/// A filesystem request in progress: the user that makes it, and what it waits for.
#[verifier::ext_equal]
#[derive(Debug, PartialEq, Eq)]
pub struct FsRequestOf<N, L, B, T> {
    pub username: T,
    pub stage: StageOf<N, L, B, T>,
}

pub type FsRequest = FsRequestOf<NameCache, Vec<FileEntry>, Vec<u8>, String>;

pub type FsRequestView = FsRequestOf<NamesView, Seq<FileEntryView>, Seq<u8>, Seq<char>>;

impl View for FsRequestOf<NameCache, Vec<FileEntry>, Vec<u8>, String> {
    type V = FsRequestOf<NamesView, Seq<FileEntryView>, Seq<u8>, Seq<char>>;

    open spec fn view(&self) -> FsRequestOf<NamesView, Seq<FileEntryView>, Seq<u8>, Seq<char>> {
        FsRequestOf { username: self.username@, stage: self.stage@ }
    }
}

pub type RequestStep = Step<FsRequest, Outcome>;

pub type RequestStepView = StepView<FsRequestView, OutcomeView>;

/// Waits for the answer to a question.
pub open spec fn wait(request: FsRequestView, op: FsOpView, stage: StageView) -> RequestStepView {
    StepOf::Ask(op, FsRequestOf { stage, ..request })
}

/// Asks for the real path of something that has to exist.
pub open spec fn wait_for_path(request: FsRequestView, raw_path: Seq<char>, stage: StageView) -> RequestStepView {
    match required_path(raw_path) {
        Ok(path) => wait(request, FsOpOf::Canonicalize(path), stage),
        Err(failure) => StepOf::Fail(failure),
    }
}

/// The first step for a task, once the user is known to exist.
pub open spec fn task_start(request: FsRequestView, task: TaskView) -> RequestStepView {
    match task {
        TaskOf::List { path } => wait_for_path(request, path, StageOf::ListPath),
        TaskOf::Stat { path } => wait_for_path(request, path, StageOf::StatPath),
        TaskOf::Remove { path } => wait_for_path(request, path, StageOf::RemovePath),
        TaskOf::Move { source, destination } => wait_for_path(request, source, StageOf::MoveSource { target: destination }),
        TaskOf::Make { path } => make_resolving(request, resolve_start(encode_utf8(path))),
    }
}

/// The first step of a request: it fails where the header names no user, asks for the account of the
/// user, and goes on to the task at once for `root`.
pub open spec fn request_start(authorization: Option<Seq<u8>>, task: TaskView) -> RequestStepView {
    match requesting_user(basic_credentials(authorization)) {
        Err(failure) => StepOf::Fail(failure),
        Ok(username) => {
            let request = FsRequestOf { username, stage: StageOf::Account(task) };
            if unrestricted(username) {
                task_start(request, task)
            } else {
                StepOf::Ask(FsOpOf::FindAccount(username), request)
            }
        },
    }
}

/// Goes on with one entry of a directory: it is described, or a name is asked for.
pub open spec fn list_item(
    request: FsRequestView,
    names: NamesView,
    entries: Seq<FileEntryView>,
    path: Seq<u8>,
    metadata: MetadataView,
) -> RequestStepView {
    match describing(names, path, metadata) {
        StepOf::Ask(op, _) => wait(request, op, StageOf::ListName { names, entries, path, metadata }),
        StepOf::Finish(entry) => wait(
            request,
            FsOpOf::NextEntry,
            StageOf::ListNext { names, entries: entries.push(entry) },
        ),
        StepOf::Fail(failure) => StepOf::Fail(failure),
    }
}

/// Goes on with the description of the path that the reply is about.
pub open spec fn finish_describing(
    request: FsRequestView,
    step: StepView<DescriptionView, FileEntryView>,
) -> RequestStepView {
    match step {
        StepOf::Ask(op, description) => wait(request, op, StageOf::Describe(description)),
        StepOf::Finish(entry) => StepOf::Finish(entry_outcome(entry)),
        StepOf::Fail(failure) => StepOf::Fail(failure),
    }
}

/// Goes on to the metadata of the path that the reply is about.
pub open spec fn finish_with(request: FsRequestView, path: Seq<u8>) -> RequestStepView {
    wait(request, FsOpOf::Metadata(path), StageOf::Metadata { path })
}

/// Goes on with the check that a directory may be listed, and opens it.
pub open spec fn list_checking(request: FsRequestView, path: Seq<u8>, step: AccessStepView) -> RequestStepView {
    match step {
        StepOf::Ask(op, check) => wait(request, op, StageOf::ListCheck { path, check }),
        StepOf::Finish(_) => wait(request, FsOpOf::OpenDir(path), StageOf::ListOpen),
        StepOf::Fail(failure) => StepOf::Fail(failure),
    }
}

/// Goes on with the check that the user may look at a path, and describes it.
pub open spec fn stat_checking(request: FsRequestView, path: Seq<u8>, step: AccessStepView) -> RequestStepView {
    match step {
        StepOf::Ask(op, check) => wait(request, op, StageOf::StatCheck { path, check }),
        StepOf::Finish(_) => finish_with(request, path),
        StepOf::Fail(failure) => StepOf::Fail(failure),
    }
}

/// Goes on with the check that the user may change the directory above a path, and removes what stands
/// there.
pub open spec fn remove_checking(request: FsRequestView, path: Seq<u8>, step: AccessStepView) -> RequestStepView {
    match step {
        StepOf::Ask(op, check) => wait(request, op, StageOf::RemoveCheck { path, check }),
        StepOf::Finish(_) => remove_permitted(request, path),
        StepOf::Fail(failure) => StepOf::Fail(failure),
    }
}

/// Goes on with the check that the user may change the directory above the source of a move, and checks
/// the directory above the destination.
pub open spec fn source_checking(
    request: FsRequestView,
    source: Seq<u8>,
    destination: Seq<u8>,
    step: AccessStepView,
) -> RequestStepView {
    match step {
        StepOf::Ask(op, check) => wait(request, op, StageOf::MoveCheckSource { source, destination, check }),
        StepOf::Finish(_) => destination_checking(
            request,
            source,
            destination,
            check_start(Right::Modify, parent_or_root(destination), request.username),
        ),
        StepOf::Fail(failure) => StepOf::Fail(failure),
    }
}

/// Goes on with the check that the user may change the directory above the destination of a move, and
/// moves.
pub open spec fn destination_checking(
    request: FsRequestView,
    source: Seq<u8>,
    destination: Seq<u8>,
    step: AccessStepView,
) -> RequestStepView {
    match step {
        StepOf::Ask(op, check) => wait(request, op, StageOf::MoveCheckDestination { source, destination, check }),
        StepOf::Finish(_) => move_permitted(request, source, destination),
        StepOf::Fail(failure) => StepOf::Fail(failure),
    }
}

/// Goes on with the check that the user may change the directory above a path, and makes a directory
/// there.
pub open spec fn make_checking(request: FsRequestView, path: Seq<u8>, step: AccessStepView) -> RequestStepView {
    match step {
        StepOf::Ask(op, check) => wait(request, op, StageOf::MakeCheck { path, check }),
        StepOf::Finish(_) => make_permitted(request, path),
        StepOf::Fail(failure) => StepOf::Fail(failure),
    }
}

/// Removes what stands at a path: first it is asked whether it is a directory.
pub open spec fn remove_permitted(request: FsRequestView, path: Seq<u8>) -> RequestStepView {
    wait(request, FsOpOf::LinkMetadata(path), StageOf::RemoveKind { path })
}

/// Goes on with the resolution of the destination of a move.
pub open spec fn move_resolving(request: FsRequestView, source: Seq<u8>, step: ResolveStepView) -> RequestStepView {
    match step {
        StepOf::Ask(op, search) => wait(request, op, StageOf::MoveDestination { source, search }),
        StepOf::Finish(destination) => source_checking(
            request,
            source,
            destination,
            check_start(Right::Modify, parent_or_root(source), request.username),
        ),
        StepOf::Fail(failure) => StepOf::Fail(failure),
    }
}

/// Makes the directory above the destination, where there is one, and moves.
pub open spec fn move_permitted(
    request: FsRequestView,
    source: Seq<u8>,
    destination: Seq<u8>,
) -> RequestStepView {
    match parent(destination) {
        Some(up) => wait(request, FsOpOf::CreateDirAll(up), StageOf::MoveParent { source, destination }),
        None => moving(request, source, destination),
    }
}

/// Moves.
pub open spec fn moving(request: FsRequestView, source: Seq<u8>, destination: Seq<u8>) -> RequestStepView {
    wait(request, FsOpOf::Rename { from: source, to: destination }, StageOf::Moving { destination })
}

/// Goes on with the resolution of the path of a new directory.
pub open spec fn make_resolving(request: FsRequestView, step: ResolveStepView) -> RequestStepView {
    match step {
        StepOf::Ask(op, search) => wait(request, op, StageOf::MakePath(search)),
        StepOf::Finish(path) => make_checking(
            request,
            path,
            check_start(Right::Modify, parent_or_root(path), request.username),
        ),
        StepOf::Fail(failure) => StepOf::Fail(failure),
    }
}

/// Makes a directory.
pub open spec fn make_permitted(request: FsRequestView, path: Seq<u8>) -> RequestStepView {
    wait(request, FsOpOf::CreateDirAll(path), StageOf::Making { path })
}

/// Gives a new directory to the user, where the user is held to permissions: first the account of the
/// user is asked for.
pub open spec fn make_owning(request: FsRequestView, path: Seq<u8>) -> RequestStepView {
    if unrestricted(request.username) {
        finish_with(request, path)
    } else {
        wait(request, FsOpOf::FindAccount(request.username), StageOf::MakeAccount { path })
    }
}

/// Gives a new directory to the account of the user.
pub open spec fn make_given(request: FsRequestView, path: Seq<u8>, lookup: LookupView) -> RequestStepView {
    match new_owner(request.username, lookup) {
        Ok(Some(account)) => wait(request, FsOpOf::SetOwner { path, account }, StageOf::MakeOwner { path }),
        Ok(None) => finish_with(request, path),
        Err(failure) => StepOf::Fail(failure),
    }
}

/// Goes on with `next`, unless there is a reason against it.
pub open spec fn unless(refusal: Option<FsErrorView>, next: RequestStepView) -> RequestStepView {
    match refusal {
        Some(failure) => StepOf::Fail(failure),
        None => next,
    }
}

/// Goes on with an answer of the host.
pub open spec fn request_next(request: FsRequestView, answer: AnswerView) -> RequestStepView {
    let username = request.username;
    match (request.stage, answer) {
        (StageOf::Account(task), AnswerOf::Account(found)) => unless(
            user_refusal(username, found),
            task_start(request, task),
        ),
        (StageOf::ListPath, AnswerOf::Path(path)) => list_checking(
            request,
            path,
            check_start(Right::List, path, username),
        ),
        (StageOf::ListCheck { path, check }, answer) => list_checking(request, path, check_next(check, answer)),
        (StageOf::ListOpen, AnswerOf::Done) => wait(
            request,
            FsOpOf::NextEntry,
            StageOf::ListNext { names: no_names(), entries: Seq::empty() },
        ),
        (StageOf::ListNext { names, entries }, AnswerOf::Entry { path, metadata }) => list_item(
            request,
            names,
            entries,
            path,
            metadata,
        ),
        (StageOf::ListNext { entries, .. }, AnswerOf::NoEntry) => StepOf::Finish(
            listed_outcome(by_name(entries)),
        ),
        (StageOf::ListName { names, entries, path, metadata }, answer) => match told_name(answer) {
            Ok(name) => list_item(request, learned(names, metadata, name), entries, path, metadata),
            Err(failure) => StepOf::Fail(failure),
        },
        (StageOf::StatPath, AnswerOf::Path(path)) => stat_checking(
            request,
            path,
            check_start(Right::Look, path, username),
        ),
        (StageOf::StatCheck { path, check }, answer) => stat_checking(request, path, check_next(check, answer)),
        (StageOf::RemovePath, AnswerOf::Path(path)) => remove_checking(
            request,
            path,
            check_start(Right::Modify, parent_or_root(path), username),
        ),
        (StageOf::RemovePath, AnswerOf::Failed(failure)) => if failure.kind is NotFound {
            StepOf::Finish(empty_outcome())
        } else {
            StepOf::Fail(failure)
        },
        (StageOf::RemoveCheck { path, check }, answer) => remove_checking(request, path, check_next(check, answer)),
        (StageOf::RemoveKind { path }, AnswerOf::Metadata(metadata)) => if metadata.is_dir {
            wait(request, FsOpOf::RemoveTree(path), StageOf::Removing)
        } else {
            wait(request, FsOpOf::RemoveFile(path), StageOf::Removing)
        },
        (StageOf::RemoveKind { .. }, AnswerOf::Failed(failure)) => if failure.kind is NotFound {
            StepOf::Finish(empty_outcome())
        } else {
            StepOf::Fail(failure)
        },
        (StageOf::Removing, AnswerOf::Done) => StepOf::Finish(empty_outcome()),
        (StageOf::MoveSource { target }, AnswerOf::Path(source)) => move_resolving(
            request,
            source,
            resolve_start(encode_utf8(target)),
        ),
        (StageOf::MoveDestination { source, search }, answer) => move_resolving(
            request,
            source,
            resolve_next(search, answer),
        ),
        (StageOf::MoveCheckSource { source, destination, check }, answer) => source_checking(
            request,
            source,
            destination,
            check_next(check, answer),
        ),
        (StageOf::MoveCheckDestination { source, destination, check }, answer) => destination_checking(
            request,
            source,
            destination,
            check_next(check, answer),
        ),
        (StageOf::MoveParent { source, destination }, AnswerOf::Done) => moving(request, source, destination),
        (StageOf::Moving { destination }, AnswerOf::Done) => finish_with(request, destination),
        (StageOf::MakePath(search), answer) => make_resolving(request, resolve_next(search, answer)),
        (StageOf::MakeCheck { path, check }, answer) => make_checking(request, path, check_next(check, answer)),
        (StageOf::Making { path }, AnswerOf::Done) => make_owning(request, path),
        (StageOf::MakeAccount { path }, AnswerOf::Account(lookup)) => make_given(request, path, lookup),
        (StageOf::MakeOwner { path }, AnswerOf::Done) => finish_with(request, path),
        (StageOf::MakeOwner { .. }, AnswerOf::Failed(failure)) => StepOf::Fail(
            FsErrorOf { kind: ErrorKind::Other, ..failure },
        ),
        (StageOf::Metadata { path }, AnswerOf::Metadata(metadata)) => finish_describing(
            request,
            description_start(path, metadata),
        ),
        (StageOf::Describe(description), answer) => finish_describing(
            request,
            description_next(description, answer),
        ),
        (_, AnswerOf::Failed(failure)) => StepOf::Fail(failure),
        _ => StepOf::Fail(mismatch()),
    }
}

/// Starts a request.
fn start(authorization: Option<&[u8]>, task: Task) -> (step: RequestStep)
    ensures
        step@ == request_start(header_bytes(authorization), task@),
{
    let username: String = match request_user(authorization) {
        Ok(username) => username,
        Err(failure) => {
            return StepOf::Fail(failure);
        },
    };
    if is_unrestricted(username.as_str()) {
        let caller: Caller = Caller { username };
        caller.begin(task)
    } else {
        StepOf::Ask(
            FsOpOf::FindAccount(username.clone()),
            FsRequestOf { username, stage: StageOf::Account(task) },
        )
    }
}

/// Starts to list a directory.
pub fn list_dir(authorization: Option<&[u8]>, path: String) -> (step: RequestStep)
    ensures
        step@ == request_start(header_bytes(authorization), TaskOf::List { path: path@ }),
{
    start(authorization, TaskOf::List { path })
}

/// Starts to look at a path.
pub fn stat(authorization: Option<&[u8]>, path: String) -> (step: RequestStep)
    ensures
        step@ == request_start(header_bytes(authorization), TaskOf::Stat { path: path@ }),
{
    start(authorization, TaskOf::Stat { path })
}

/// Starts to remove what stands at a path.
pub fn remove(authorization: Option<&[u8]>, path: String) -> (step: RequestStep)
    ensures
        step@ == request_start(header_bytes(authorization), TaskOf::Remove { path: path@ }),
{
    start(authorization, TaskOf::Remove { path })
}

/// Starts to move a file or a directory.
pub fn move_entry(authorization: Option<&[u8]>, source: String, destination: String) -> (step: RequestStep)
    ensures
        step@ == request_start(
            header_bytes(authorization),
            TaskOf::Move { source: source@, destination: destination@ },
        ),
{
    start(authorization, TaskOf::Move { source, destination })
}

/// Starts to make a directory.
pub fn make_dir(authorization: Option<&[u8]>, path: String) -> (step: RequestStep)
    ensures
        step@ == request_start(header_bytes(authorization), TaskOf::Make { path: path@ }),
{
    start(authorization, TaskOf::Make { path })
}

/// The user of a request.
struct Caller {
    username: String,
}

/// A request of the user at any stage.
spec fn called(caller: Caller) -> FsRequestView {
    FsRequestOf { username: caller.username@, stage: StageOf::ListPath }
}

impl Caller {
    /// Waits for the answer to a question.
    fn wait(self, op: FsOp, stage: Stage) -> (step: RequestStep)
        ensures
            step@ == wait(called(self), op@, stage@),
    {
        StepOf::Ask(op, FsRequestOf { username: self.username, stage })
    }

    /// Whether the user is held to no permission.
    fn is_free(&self) -> (free: bool)
        ensures
            free == unrestricted(self.username@),
    {
        is_unrestricted(self.username.as_str())
    }

    /// Asks for the real path of something that has to exist.
    fn wait_for_path(self, raw_path: &str, stage: Stage) -> (step: RequestStep)
        ensures
            step@ == wait_for_path(called(self), raw_path@, stage@),
    {
        match existing_path(raw_path) {
            Ok(path) => self.wait(FsOpOf::Canonicalize(path), stage),
            Err(failure) => StepOf::Fail(failure),
        }
    }

    /// Takes the first step for a task.
    fn begin(self, task: Task) -> (step: RequestStep)
        ensures
            step@ == task_start(called(self), task@),
    {
        match task {
            TaskOf::List { path } => self.wait_for_path(path.as_str(), StageOf::ListPath),
            TaskOf::Stat { path } => self.wait_for_path(path.as_str(), StageOf::StatPath),
            TaskOf::Remove { path } => self.wait_for_path(path.as_str(), StageOf::RemovePath),
            TaskOf::Move { source, destination } => self.wait_for_path(
                source.as_str(),
                StageOf::MoveSource { target: destination },
            ),
            TaskOf::Make { path } => self.make_resolving(writable_path(path.as_str().as_bytes())),
        }
    }

    /// Goes on with one entry of a directory.
    fn list_item(
        self,
        names: NameCache,
        entries: Vec<FileEntry>,
        path: Vec<u8>,
        metadata: Metadata,
    ) -> (step: RequestStep)
        ensures
            step@ == list_item(called(self), names@, entry_views(entries@), path@, metadata@),
    {
        match describe(&names, &path, &metadata) {
            StepOf::Ask(op, _) => self.wait(op, StageOf::ListName { names, entries, path, metadata }),
            StepOf::Finish(entry) => {
                let mut entries: Vec<FileEntry> = entries;
                let ghost before = entry_views(entries@);
                entries.push(entry);
                assert(entry_views(entries@) =~= before.push(entry@));
                self.wait(FsOpOf::NextEntry, StageOf::ListNext { names, entries })
            },
            StepOf::Fail(failure) => StepOf::Fail(failure),
        }
    }

    /// Goes on with the description of the path that the reply is about.
    fn finish_describing(self, step: Step<Description, FileEntry>) -> (next: RequestStep)
        ensures
            next@ == finish_describing(called(self), step@),
    {
        match step {
            StepOf::Ask(op, description) => self.wait(op, StageOf::Describe(description)),
            StepOf::Finish(entry) => StepOf::Finish(
                OutcomeOf::Entry { head: ok_head("application/json"), entry },
            ),
            StepOf::Fail(failure) => StepOf::Fail(failure),
        }
    }

    /// Goes on to the metadata of the path that the reply is about.
    fn finish_with(self, path: Vec<u8>) -> (step: RequestStep)
        ensures
            step@ == finish_with(called(self), path@),
    {
        self.wait(FsOpOf::Metadata(copy_bytes(&path)), StageOf::Metadata { path })
    }

    /// Removes what stands at a path.
    fn remove_permitted(self, path: Vec<u8>) -> (step: RequestStep)
        ensures
            step@ == remove_permitted(called(self), path@),
    {
        self.wait(FsOpOf::LinkMetadata(copy_bytes(&path)), StageOf::RemoveKind { path })
    }

    /// Goes on with the resolution of the destination of a move.
    fn move_resolving(self, source: Vec<u8>, step: Step<WritablePath, Vec<u8>>) -> (next: RequestStep)
        ensures
            next@ == move_resolving(called(self), source@, step@),
    {
        match step {
            StepOf::Ask(op, search) => self.wait(op, StageOf::MoveDestination { source, search }),
            StepOf::Finish(destination) => {
                let check = ensure_can_modify(parent_path_or_root(&source), self.username.as_str());
                self.source_checking(source, destination, check)
            },
            StepOf::Fail(failure) => StepOf::Fail(failure),
        }
    }

    /// Makes the directory above the destination and moves.
    fn move_permitted(self, source: Vec<u8>, destination: Vec<u8>) -> (step: RequestStep)
        ensures
            step@ == move_permitted(called(self), source@, destination@),
    {
        match parent_path(&destination) {
            Some(up) => self.wait(FsOpOf::CreateDirAll(up), StageOf::MoveParent { source, destination }),
            None => self.moving(source, destination),
        }
    }

    /// Moves.
    fn moving(self, source: Vec<u8>, destination: Vec<u8>) -> (step: RequestStep)
        ensures
            step@ == moving(called(self), source@, destination@),
    {
        self.wait(
            FsOpOf::Rename { from: source, to: copy_bytes(&destination) },
            StageOf::Moving { destination },
        )
    }

    /// Goes on with the resolution of the path of a new directory.
    fn make_resolving(self, step: Step<WritablePath, Vec<u8>>) -> (next: RequestStep)
        ensures
            next@ == make_resolving(called(self), step@),
    {
        match step {
            StepOf::Ask(op, search) => self.wait(op, StageOf::MakePath(search)),
            StepOf::Finish(path) => {
                let check = ensure_can_modify(parent_path_or_root(&path), self.username.as_str());
                self.make_checking(path, check)
            },
            StepOf::Fail(failure) => StepOf::Fail(failure),
        }
    }

    /// Makes a directory.
    fn make_permitted(self, path: Vec<u8>) -> (step: RequestStep)
        ensures
            step@ == make_permitted(called(self), path@),
    {
        self.wait(FsOpOf::CreateDirAll(copy_bytes(&path)), StageOf::Making { path })
    }

    /// Gives a new directory to the user.
    fn make_owning(self, path: Vec<u8>) -> (step: RequestStep)
        ensures
            step@ == make_owning(called(self), path@),
    {
        if self.is_free() {
            self.finish_with(path)
        } else {
            let username: String = self.username.clone();
            self.wait(FsOpOf::FindAccount(username), StageOf::MakeAccount { path })
        }
    }

    /// Gives a new directory to the account of the user.
    fn make_given(self, path: Vec<u8>, lookup: &Lookup) -> (step: RequestStep)
        ensures
            step@ == make_given(called(self), path@, lookup@),
    {
        match apply_owner(self.username.as_str(), lookup) {
            Ok(Some(account)) => self.wait(
                FsOpOf::SetOwner { path: copy_bytes(&path), account },
                StageOf::MakeOwner { path },
            ),
            Ok(None) => self.finish_with(path),
            Err(failure) => StepOf::Fail(failure),
        }
    }

    /// Goes on with the check that a directory may be listed.
    fn list_checking(self, path: Vec<u8>, step: AccessStep) -> (next: RequestStep)
        ensures
            next@ == list_checking(called(self), path@, step@),
    {
        match step {
            StepOf::Ask(op, check) => self.wait(op, StageOf::ListCheck { path, check }),
            StepOf::Finish(_) => self.wait(FsOpOf::OpenDir(path), StageOf::ListOpen),
            StepOf::Fail(failure) => StepOf::Fail(failure),
        }
    }

    /// Goes on with the check that the user may look at a path.
    fn stat_checking(self, path: Vec<u8>, step: AccessStep) -> (next: RequestStep)
        ensures
            next@ == stat_checking(called(self), path@, step@),
    {
        match step {
            StepOf::Ask(op, check) => self.wait(op, StageOf::StatCheck { path, check }),
            StepOf::Finish(_) => self.finish_with(path),
            StepOf::Fail(failure) => StepOf::Fail(failure),
        }
    }

    /// Goes on with the check before a removal.
    fn remove_checking(self, path: Vec<u8>, step: AccessStep) -> (next: RequestStep)
        ensures
            next@ == remove_checking(called(self), path@, step@),
    {
        match step {
            StepOf::Ask(op, check) => self.wait(op, StageOf::RemoveCheck { path, check }),
            StepOf::Finish(_) => self.remove_permitted(path),
            StepOf::Fail(failure) => StepOf::Fail(failure),
        }
    }

    /// Goes on with the check of the source of a move.
    fn source_checking(self, source: Vec<u8>, destination: Vec<u8>, step: AccessStep) -> (next: RequestStep)
        ensures
            next@ == source_checking(called(self), source@, destination@, step@),
    {
        match step {
            StepOf::Ask(op, check) => self.wait(op, StageOf::MoveCheckSource { source, destination, check }),
            StepOf::Finish(_) => {
                let check = ensure_can_modify(parent_path_or_root(&destination), self.username.as_str());
                self.destination_checking(source, destination, check)
            },
            StepOf::Fail(failure) => StepOf::Fail(failure),
        }
    }

    /// Goes on with the check of the destination of a move.
    fn destination_checking(self, source: Vec<u8>, destination: Vec<u8>, step: AccessStep) -> (next: RequestStep)
        ensures
            next@ == destination_checking(called(self), source@, destination@, step@),
    {
        match step {
            StepOf::Ask(op, check) => self.wait(op, StageOf::MoveCheckDestination { source, destination, check }),
            StepOf::Finish(_) => self.move_permitted(source, destination),
            StepOf::Fail(failure) => StepOf::Fail(failure),
        }
    }

    /// Goes on with the check before a directory is made.
    fn make_checking(self, path: Vec<u8>, step: AccessStep) -> (next: RequestStep)
        ensures
            next@ == make_checking(called(self), path@, step@),
    {
        match step {
            StepOf::Ask(op, check) => self.wait(op, StageOf::MakeCheck { path, check }),
            StepOf::Finish(_) => self.make_permitted(path),
            StepOf::Fail(failure) => StepOf::Fail(failure),
        }
    }
}

impl FsRequestOf<NameCache, Vec<FileEntry>, Vec<u8>, String> {
    /// Goes on with an answer of the host.
    pub fn step(self, answer: Answer) -> (step: RequestStep)
        ensures
            step@ == request_next(self@, answer@),
    {
        let FsRequestOf { username, stage } = self;
        let caller: Caller = Caller { username };
        match (stage, answer) {
            (StageOf::Account(task), AnswerOf::Account(found)) => match validate_username(
                caller.username.as_str(),
                &found,
            ) {
                Ok(()) => caller.begin(task),
                Err(failure) => StepOf::Fail(failure),
            },
            (StageOf::ListPath, AnswerOf::Path(path)) => {
                let check = validate_directory(copy_bytes(&path), caller.username.as_str());
                caller.list_checking(path, check)
            },
            (StageOf::ListCheck { path, check }, answer) => caller.list_checking(path, check.step(answer)),
            (StageOf::ListOpen, AnswerOf::Done) => {
                let entries: Vec<FileEntry> = Vec::new();
                assert(entry_views(entries@) =~= Seq::<FileEntryView>::empty());
                caller.wait(FsOpOf::NextEntry, StageOf::ListNext { names: NameCache::default(), entries })
            },
            (StageOf::ListNext { names, entries }, AnswerOf::Entry { path, metadata }) => caller.list_item(
                names,
                entries,
                path,
                metadata,
            ),
            (StageOf::ListNext { entries, .. }, AnswerOf::NoEntry) => StepOf::Finish(
                OutcomeOf::Entries { head: ok_head("application/json"), entries: sort_by_name(entries) },
            ),
            (StageOf::ListName { names, entries, path, metadata }, answer) => match name_in(answer) {
                Ok(name) => {
                    let mut names: NameCache = names;
                    names.learn(&metadata, name);
                    caller.list_item(names, entries, path, metadata)
                },
                Err(failure) => StepOf::Fail(failure),
            },
            (StageOf::StatPath, AnswerOf::Path(path)) => {
                let check = validate_directory_or_readable(copy_bytes(&path), caller.username.as_str());
                caller.stat_checking(path, check)
            },
            (StageOf::StatCheck { path, check }, answer) => caller.stat_checking(path, check.step(answer)),
            (StageOf::RemovePath, AnswerOf::Path(path)) => {
                let check = ensure_can_modify(parent_path_or_root(&path), caller.username.as_str());
                caller.remove_checking(path, check)
            },
            (StageOf::RemovePath, AnswerOf::Failed(failure)) => match failure.kind {
                ErrorKind::NotFound => StepOf::Finish(OutcomeOf::Empty(empty_response())),
                _ => StepOf::Fail(failure),
            },
            (StageOf::RemoveCheck { path, check }, answer) => caller.remove_checking(path, check.step(answer)),
            (StageOf::RemoveKind { path }, AnswerOf::Metadata(metadata)) => if metadata.is_dir {
                caller.wait(FsOpOf::RemoveTree(path), StageOf::Removing)
            } else {
                caller.wait(FsOpOf::RemoveFile(path), StageOf::Removing)
            },
            (StageOf::RemoveKind { .. }, AnswerOf::Failed(failure)) => match failure.kind {
                ErrorKind::NotFound => StepOf::Finish(OutcomeOf::Empty(empty_response())),
                _ => StepOf::Fail(failure),
            },
            (StageOf::Removing, AnswerOf::Done) => StepOf::Finish(OutcomeOf::Empty(empty_response())),
            (StageOf::MoveSource { target }, AnswerOf::Path(source)) => caller.move_resolving(
                source,
                writable_path(target.as_str().as_bytes()),
            ),
            (StageOf::MoveDestination { source, search }, answer) => caller.move_resolving(
                source,
                search.step(answer),
            ),
            (StageOf::MoveCheckSource { source, destination, check }, answer) => caller.source_checking(
                source,
                destination,
                check.step(answer),
            ),
            (StageOf::MoveCheckDestination { source, destination, check }, answer) => caller.destination_checking(
                source,
                destination,
                check.step(answer),
            ),
            (StageOf::MoveParent { source, destination }, AnswerOf::Done) => caller.moving(source, destination),
            (StageOf::Moving { destination }, AnswerOf::Done) => caller.finish_with(destination),
            (StageOf::MakePath(search), answer) => caller.make_resolving(search.step(answer)),
            (StageOf::MakeCheck { path, check }, answer) => caller.make_checking(path, check.step(answer)),
            (StageOf::Making { path }, AnswerOf::Done) => caller.make_owning(path),
            (StageOf::MakeAccount { path }, AnswerOf::Account(lookup)) => caller.make_given(path, &lookup),
            (StageOf::MakeOwner { path }, AnswerOf::Done) => caller.finish_with(path),
            (StageOf::MakeOwner { .. }, AnswerOf::Failed(failure)) => StepOf::Fail(
                FsErrorOf { kind: ErrorKind::Other, message: failure.message },
            ),
            (StageOf::Metadata { path }, AnswerOf::Metadata(metadata)) => caller.finish_describing(
                DescriptionOf::start(path, metadata),
            ),
            (StageOf::Describe(description), answer) => caller.finish_describing(description.step(answer)),
            (_, AnswerOf::Failed(failure)) => StepOf::Fail(failure),
            _ => StepOf::Fail(mismatch_error()),
        }
    }
}

/// The stages that come after the permission to change something was checked.
pub open spec fn permitted(stage: StageView) -> bool {
    match stage {
        StageOf::RemoveKind { .. } => true,
        StageOf::Removing => true,
        StageOf::MoveParent { .. } => true,
        StageOf::Moving { .. } => true,
        StageOf::Making { .. } => true,
        StageOf::MakeAccount { .. } => true,
        StageOf::MakeOwner { .. } => true,
        _ => false,
    }
}

/// A check is one of this right, for the user of the request.
pub open spec fn checks(request: FsRequestView, check: AccessCheckView, right: Right) -> bool {
    fitting(check) && check.right == right && check.username == request.username
}

/// A request checks what its task needs.
pub open spec fn sound(request: FsRequestView) -> bool {
    match request.stage {
        StageOf::ListCheck { check, .. } => checks(request, check, Right::List),
        StageOf::StatCheck { check, .. } => checks(request, check, Right::Look),
        StageOf::RemoveCheck { check, .. } => checks(request, check, Right::Modify),
        StageOf::MoveCheckSource { check, .. } => checks(request, check, Right::Modify),
        StageOf::MoveCheckDestination { check, .. } => checks(request, check, Right::Modify),
        StageOf::MakeCheck { check, .. } => checks(request, check, Right::Modify),
        _ => true,
    }
}

/// A request begins without changes and with nothing permitted. A user that is held to permissions is
/// looked for before anything else.
pub proof fn law_request_starts_by_looking_for_its_user(authorization: Option<Seq<u8>>, task: TaskView)
    ensures
        request_start(authorization, task) matches StepOf::Ask(op, request) ==> {
            &&& sound(request)
            &&& !modifies(op)
            &&& !permitted(request.stage)
            &&& unrestricted(request.username) || request.stage == StageView::Account(task) && op
                == FsOpView::FindAccount(request.username)
        },
{
}

/// Only a user that exists gets beyond the search for the account, to the task as it was asked for.
pub proof fn law_only_known_users_act(request: FsRequestView, task: TaskView, answer: AnswerView)
    requires
        request.stage == StageView::Account(task),
    ensures
        match request_next(request, answer) {
            StepOf::Fail(_) => true,
            step => {
                &&& answer matches AnswerOf::Account(lookup)
                &&& user_refusal(request.username, lookup) is None
                &&& step == task_start(request, task)
            },
        },
{
}

/// Nothing is changed without permission. A question that changes something belongs to a permitted
/// stage. Such a stage is reached only by `root`, or when the account of the user that was found last
/// has the right to change what is known of the directory just asked about: the one above the path to be
/// removed or made, or the one above the destination of a move, which comes after the one above its
/// source. A request keeps its user, and goes on checking what its task needs.
pub proof fn law_changes_need_permission(request: FsRequestView, answer: AnswerView)
    requires
        sound(request),
    ensures
        request_next(request, answer) matches StepOf::Ask(op, next) ==> {
            &&& sound(next)
            &&& next.username == request.username
            &&& modifies(op) ==> permitted(next.stage)
            &&& permitted(next.stage) && !permitted(request.stage) && request.username != "root"@ ==> {
                &&& changing_check(request.stage) matches Some(check)
                &&& granted(check, answer)
            }
            &&& next.stage is MoveCheckDestination && request.stage !is MoveCheckDestination && request.username
                != "root"@ ==> {
                &&& request.stage matches StageOf::MoveCheckSource { check, .. }
                &&& granted(check, answer)
            }
        },
{
}

/// The check that stands directly before a change.
pub open spec fn changing_check(stage: StageView) -> Option<AccessCheckView> {
    match stage {
        StageOf::RemoveCheck { check, .. } => Some(check),
        StageOf::MoveCheckDestination { check, .. } => Some(check),
        StageOf::MakeCheck { check, .. } => Some(check),
        _ => None,
    }
}

/// An answer grants the right to change a directory.
pub open spec fn granted(check: AccessCheckView, answer: AnswerView) -> bool {
    &&& check.stage matches AccessStageOf::Account { metadata }
    &&& answer matches AnswerOf::Account(LookupOf::Found(account))
    &&& has_right(Right::Modify, account, metadata)
}

/// Listing a directory and looking at a path change nothing.
pub open spec fn only_looks(stage: StageView) -> bool {
    match stage {
        StageOf::Account(TaskOf::List { .. }) => true,
        StageOf::Account(TaskOf::Stat { .. }) => true,
        StageOf::ListPath => true,
        StageOf::ListCheck { .. } => true,
        StageOf::ListOpen => true,
        StageOf::ListNext { .. } => true,
        StageOf::ListName { .. } => true,
        StageOf::StatPath => true,
        StageOf::StatCheck { .. } => true,
        StageOf::Metadata { .. } => true,
        StageOf::Describe(_) => true,
        _ => false,
    }
}

/// A request that lists or looks starts as one that only looks.
pub proof fn law_looking_starts_by_looking(authorization: Option<Seq<u8>>, path: Seq<char>)
    ensures
        request_start(authorization, TaskOf::List { path }) matches StepOf::Ask(op, request) ==> only_looks(
            request.stage,
        ) && !modifies(op),
        request_start(authorization, TaskOf::Stat { path }) matches StepOf::Ask(op, request) ==> only_looks(
            request.stage,
        ) && !modifies(op),
{
}

/// A request that only looks never asks for a change.
pub proof fn law_looking_changes_nothing(request: FsRequestView, answer: AnswerView)
    requires
        sound(request),
        only_looks(request.stage),
    ensures
        request_next(request, answer) matches StepOf::Ask(op, next) ==> sound(next) && only_looks(next.stage)
            && !modifies(op),
{
}

/// To remove what does not exist is no failure, whether it is missing from the start or is gone by
/// the time it is removed.
pub proof fn law_removing_what_is_missing_succeeds(request: FsRequestView, message: Seq<char>)
    requires
        request.stage is RemovePath || request.stage is RemoveKind,
    ensures
        request_next(request, AnswerOf::Failed(FsErrorOf { kind: ErrorKind::NotFound, message }))
            == RequestStepView::Finish(empty_outcome()),
{
}

/// The rule by which a request goes on.
pub open spec fn requesting() -> spec_fn(FsRequestView, AnswerView) -> RequestStepView {
    |request: FsRequestView, answer: AnswerView| request_next(request, answer)
}

/// A move that is permitted makes the directory above the destination, moves the source to the
/// destination, changes nothing else, and goes on to describe the destination.
pub proof fn law_move_is_carried_out(
    request: FsRequestView,
    source: Seq<u8>,
    destination: Seq<u8>,
    account: Account,
)
    ensures
        ({
            let step = move_permitted(request, source, destination);
            let made: Seq<FsOpView> = match parent(destination) {
                Some(up) => seq![FsOpOf::CreateDirAll(up)],
                None => Seq::empty(),
            };
            &&& carried_out(requesting(), step, account, 4) == made + seq![FsOpView::Rename { from: source, to: destination }]
            &&& after_changes(requesting(), step, account, 4) == finish_with(request, destination)
        }),
{
    reveal_with_fuel(carried_out::<FsRequestView, OutcomeView, FsErrorView>, 5);
    reveal_with_fuel(after_changes::<FsRequestView, OutcomeView, FsErrorView>, 5);
    let step = move_permitted(request, source, destination);
    let made: Seq<FsOpView> = match parent(destination) {
        Some(up) => seq![FsOpOf::CreateDirAll(up)],
        None => Seq::empty(),
    };
    assert(carried_out(requesting(), step, account, 4) =~= made + seq![FsOpView::Rename { from: source, to: destination }]);
}

/// A directory that may be made is made, is given to the account of the user where the user is held to
/// permissions, and is described; nothing else changes.
pub proof fn law_make_is_carried_out(request: FsRequestView, path: Seq<u8>, account: Account)
    ensures
        ({
            let step = make_permitted(request, path);
            let given: Seq<FsOpView> = if unrestricted(request.username) {
                Seq::empty()
            } else {
                seq![FsOpOf::SetOwner { path, account }]
            };
            &&& carried_out(requesting(), step, account, 4) == seq![FsOpView::CreateDirAll(path)] + given
            &&& after_changes(requesting(), step, account, 4) == finish_with(request, path)
        }),
{
    reveal_with_fuel(carried_out::<FsRequestView, OutcomeView, FsErrorView>, 6);
    reveal_with_fuel(after_changes::<FsRequestView, OutcomeView, FsErrorView>, 6);
    let step = make_permitted(request, path);
    let given: Seq<FsOpView> = if unrestricted(request.username) {
        Seq::empty()
    } else {
        seq![FsOpOf::SetOwner { path, account }]
    };
    assert(carried_out(requesting(), step, account, 4) =~= seq![FsOpView::CreateDirAll(path)] + given);
}

/// A removal that is permitted removes what stands at the path and nothing else: a directory with all
/// below it, anything else as a file.
pub proof fn law_removal_is_carried_out(
    request: FsRequestView,
    path: Seq<u8>,
    metadata: MetadataView,
    account: Account,
)
    requires
        request.stage == (StageView::RemoveKind { path }),
    ensures
        ({
            let step = request_next(request, AnswerOf::Metadata(metadata));
            &&& carried_out(requesting(), step, account, 2) == if metadata.is_dir {
                seq![FsOpView::RemoveTree(path)]
            } else {
                seq![FsOpView::RemoveFile(path)]
            }
            &&& after_changes(requesting(), step, account, 2) == RequestStepView::Finish(empty_outcome())
        }),
{
    reveal_with_fuel(carried_out::<FsRequestView, OutcomeView, FsErrorView>, 3);
    reveal_with_fuel(after_changes::<FsRequestView, OutcomeView, FsErrorView>, 3);
    let step = request_next(request, AnswerOf::Metadata(metadata));
    assert(carried_out(requesting(), step, account, 2) =~= if metadata.is_dir {
        seq![FsOpView::RemoveTree(path)]
    } else {
        seq![FsOpView::RemoveFile(path)]
    });
}

/// The answer to the question for a name.
pub open spec fn telling(name: Option<Seq<char>>) -> AnswerView {
    match name {
        Some(name) => AnswerOf::Name(name),
        None => AnswerOf::NoName,
    }
}

/// How a request stands once its question for the name of a user or a group, where it has one, was
/// answered by `users` and `groups`.
pub open spec fn named_once(
    step: RequestStepView,
    users: spec_fn(u32) -> Option<Seq<char>>,
    groups: spec_fn(u32) -> Option<Seq<char>>,
) -> RequestStepView {
    match step {
        StepOf::Ask(FsOpOf::UserName(uid), next) => request_next(next, telling(users(uid))),
        StepOf::Ask(FsOpOf::GroupName(gid), next) => request_next(next, telling(groups(gid))),
        _ => step,
    }
}

/// How a listing stands once it was given one more item of the directory and the names for it.
#[verifier::opaque]
pub open spec fn one_item(
    request: FsRequestView,
    item: (Seq<u8>, MetadataView),
    users: spec_fn(u32) -> Option<Seq<char>>,
    groups: spec_fn(u32) -> Option<Seq<char>>,
) -> RequestStepView {
    let step = request_next(request, AnswerOf::Entry { path: item.0, metadata: item.1 });
    named_once(named_once(step, users, groups), users, groups)
}

/// How a listing stands once it was told that the directory holds nothing more.
#[verifier::opaque]
pub open spec fn no_more_items(request: FsRequestView) -> RequestStepView {
    request_next(request, AnswerOf::NoEntry)
}

/// How a listing ends when the directory holds `items`, one after the other, and users and groups
/// have the given names.
pub open spec fn listed(
    request: FsRequestView,
    items: Seq<(Seq<u8>, MetadataView)>,
    users: spec_fn(u32) -> Option<Seq<char>>,
    groups: spec_fn(u32) -> Option<Seq<char>>,
) -> RequestStepView
    decreases items.len(),
{
    if items.len() == 0 {
        no_more_items(request)
    } else {
        match one_item(request, items[0], users, groups) {
            StepOf::Ask(FsOpOf::NextEntry, next) => listed(next, items.skip(1), users, groups),
            other => other,
        }
    }
}

/// The description of one item.
#[verifier::opaque]
pub open spec fn item_entry(
    item: (Seq<u8>, MetadataView),
    users: spec_fn(u32) -> Option<Seq<char>>,
    groups: spec_fn(u32) -> Option<Seq<char>>,
) -> FileEntryView {
    described(item.0, item.1, users(item.1.uid), groups(item.1.gid))
}

/// The descriptions of items.
pub open spec fn all_described(
    items: Seq<(Seq<u8>, MetadataView)>,
    users: spec_fn(u32) -> Option<Seq<char>>,
    groups: spec_fn(u32) -> Option<Seq<char>>,
) -> Seq<FileEntryView> {
    Seq::new(items.len(), |i: int| item_entry(items[i], users, groups))
}

/// The known names agree with the names that users and groups have.
pub open spec fn names_agree(
    names: NamesView,
    users: spec_fn(u32) -> Option<Seq<char>>,
    groups: spec_fn(u32) -> Option<Seq<char>>,
) -> bool {
    &&& forall|uid: u32| #[trigger] names.users.contains_key(uid) ==> names.users[uid] == users(uid)
    &&& forall|gid: u32| #[trigger] names.groups.contains_key(gid) ==> names.groups[gid] == groups(gid)
}

/// The names that are known once an item is described.
#[verifier::opaque]
pub open spec fn names_after(
    names: NamesView,
    metadata: MetadataView,
    users: spec_fn(u32) -> Option<Seq<char>>,
    groups: spec_fn(u32) -> Option<Seq<char>>,
) -> NamesView {
    let with_user = if names.users.contains_key(metadata.uid) {
        names
    } else {
        learned(names, metadata, users(metadata.uid))
    };
    if with_user.groups.contains_key(metadata.gid) {
        with_user
    } else {
        learned(with_user, metadata, groups(metadata.gid))
    }
}

proof fn lemma_names_still_agree(
    names: NamesView,
    metadata: MetadataView,
    users: spec_fn(u32) -> Option<Seq<char>>,
    groups: spec_fn(u32) -> Option<Seq<char>>,
)
    requires
        names_agree(names, users, groups),
    ensures
        names_agree(names_after(names, metadata, users, groups), users, groups),
{
    reveal(names_after);
}

/// An item whose names are known is described at once.
proof fn lemma_known_names_describe(
    request: FsRequestView,
    names: NamesView,
    entries: Seq<FileEntryView>,
    item: (Seq<u8>, MetadataView),
    users: spec_fn(u32) -> Option<Seq<char>>,
    groups: spec_fn(u32) -> Option<Seq<char>>,
)
    requires
        names.users.contains_key(item.1.uid),
        names.groups.contains_key(item.1.gid),
        names_agree(names, users, groups),
        writable_time(item.1.modified),
    ensures
        list_item(request, names, entries, item.0, item.1) == next_item(
            request,
            names,
            entries.push(item_entry(item, users, groups)),
        ),
{
    reveal(item_entry);
}

/// A listing that asks for the next item.
pub open spec fn next_item(request: FsRequestView, names: NamesView, entries: Seq<FileEntryView>) -> RequestStepView {
    wait(request, FsOpOf::NextEntry, StageOf::ListNext { names, entries })
}

/// One item of a directory is described with at most two names, and the next one is asked for.
proof fn lemma_one_item_is_described(
    request: FsRequestView,
    names: NamesView,
    entries: Seq<FileEntryView>,
    item: (Seq<u8>, MetadataView),
    users: spec_fn(u32) -> Option<Seq<char>>,
    groups: spec_fn(u32) -> Option<Seq<char>>,
)
    requires
        request.stage == (StageView::ListNext { names, entries }),
        names_agree(names, users, groups),
        writable_time(item.1.modified),
    ensures
        one_item(request, item, users, groups) == next_item(
            request,
            names_after(names, item.1, users, groups),
            entries.push(item_entry(item, users, groups)),
        ),
{
    reveal(one_item);
    let (path, metadata) = item;
    let after = names_after(names, metadata, users, groups);
    lemma_names_still_agree(names, metadata, users, groups);
    assert(after.users.contains_key(metadata.uid) && after.groups.contains_key(metadata.gid)) by {
        reveal(names_after);
    }
    lemma_known_names_describe(request, after, entries, item, users, groups);
    let first = list_item(request, names, entries, path, metadata);
    assert(request_next(request, AnswerOf::Entry { path, metadata }) == first);
    let once = named_once(first, users, groups);
    if !names.users.contains_key(metadata.uid) {
        let with_user = learned(names, metadata, users(metadata.uid));
        assert(once == list_item(request, with_user, entries, path, metadata));
        if !names.groups.contains_key(metadata.gid) {
            assert(named_once(once, users, groups) == list_item(
                request,
                learned(with_user, metadata, groups(metadata.gid)),
                entries,
                path,
                metadata,
            ));
        }
    } else if !names.groups.contains_key(metadata.gid) {
        assert(once == list_item(
            request,
            learned(names, metadata, groups(metadata.gid)),
            entries,
            path,
            metadata,
        ));
    }
    reveal(names_after);
}

/// A listing ends with the entries in the order of their names.
proof fn lemma_listing_ends_in_order(request: FsRequestView, names: NamesView, entries: Seq<FileEntryView>)
    requires
        request.stage == (StageView::ListNext { names, entries }),
    ensures
        no_more_items(request) == RequestStepView::Finish(listed_outcome(by_name(entries))),
{
    reveal(no_more_items);
}

/// A listing gives one description for every entry of the directory, with the names of its owner and
/// its group, and all of them in the order of their names, whatever names were known before.
pub proof fn law_listing_is_complete(
    request: FsRequestView,
    names: NamesView,
    entries: Seq<FileEntryView>,
    items: Seq<(Seq<u8>, MetadataView)>,
    users: spec_fn(u32) -> Option<Seq<char>>,
    groups: spec_fn(u32) -> Option<Seq<char>>,
)
    requires
        request.stage == (StageView::ListNext { names, entries }),
        names_agree(names, users, groups),
        forall|i: int| 0 <= i < items.len() ==> writable_time((#[trigger] items[i]).1.modified),
    ensures
        listed(request, items, users, groups) == RequestStepView::Finish(
            listed_outcome(by_name(entries + all_described(items, users, groups))),
        ),
    decreases items.len(),
{
    if items.len() == 0 {
        lemma_listing_ends_in_order(request, names, entries);
        assert(entries + all_described(items, users, groups) =~= entries);
    } else {
        let item = items[0];
        let longer = entries.push(item_entry(item, users, groups));
        let after = names_after(names, item.1, users, groups);
        let next = FsRequestOf { stage: StageView::ListNext { names: after, entries: longer }, ..request };
        let rest = items.skip(1);
        lemma_one_item_is_described(request, names, entries, item, users, groups);
        lemma_names_still_agree(names, item.1, users, groups);
        law_listing_is_complete(next, after, longer, rest, users, groups);
        assert(longer + all_described(rest, users, groups) =~= entries + all_described(items, users, groups));
    }
}

} // verus!
