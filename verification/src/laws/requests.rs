//! What the filesystem requests are for.

use crate::access::{
    check_next, check_start, checking, fitting, law_requesting_user_has_a_name, requesting_user,
    AccessCheckView, AccessStepView, Right,
};
use crate::credentials::basic_credentials;
use crate::entry::{described, no_names, writable_time, FileEntryView};
use crate::filesystem::{
    all_described, destination_checking, finish_with, item_entry, law_listing_is_complete, list_checking,
    listed, make_checking, make_owning, make_resolving, move_resolving, moving, remove_checking, request_next,
    request_start, requesting, source_checking, stat_checking, task_start, FsRequestOf, FsRequestView,
    OutcomeOf, OutcomeView, RequestStepView, StageOf, StageView, TaskOf, TaskView,
};
use crate::fsutil::{resolve_start, resolving, ResolveStepView};
use crate::host::{
    exchange, lemma_goes_along, lemma_scripted_in_parts, modifies, scripted, Account, AnswerOf, AnswerView,
    ErrorKind, FsErrorOf, FsErrorView, FsOpOf, FsOpView, LookupOf, LookupView, MetadataView, StepOf,
};
use crate::listing::{law_listing_is_ordered, lemma_listing_keeps_entries};
use crate::path::{parent, SLASH};
use crate::reply::{HeadOf, ReplyOf};
use crate::text::text_before;
use vstd::prelude::*;
use vstd::utf8::*;

verus! {

/// The directory above a path: the root for one without a parent.
pub open spec fn above(path: Seq<u8>) -> Seq<u8> {
    match parent(path) {
        Some(up) => up,
        None => seq![SLASH],
    }
}

/// An account has all of the permissions of its class: those of the owner of a file, of a member of its
/// group, or of anyone else.
pub open spec fn holds(account: Account, metadata: MetadataView, owner: u32, group: u32, other: u32) -> bool {
    &&& metadata.uid == account.uid ==> metadata.mode & owner == owner
    &&& metadata.uid != account.uid && metadata.gid == account.gid ==> metadata.mode & group == group
    &&& metadata.uid != account.uid && metadata.gid != account.gid ==> metadata.mode & other == other
}

/// The answer to the question for a name.
pub open spec fn name_answer(name: Option<Seq<char>>) -> AnswerView {
    match name {
        Some(name) => AnswerOf::Name(name),
        None => AnswerOf::NoName,
    }
}

/// A conversation: questions, each with its answer.
pub type Script = Seq<(FsOpView, AnswerView)>;

/// The questions by which a path is described: what is known of it, and what its owner and its group are
/// called.
pub open spec fn describing_script(
    path: Seq<u8>,
    metadata: MetadataView,
    owner: Option<Seq<char>>,
    group: Option<Seq<char>>,
) -> Script {
    seq![
        (FsOpOf::Metadata(path), AnswerOf::Metadata(metadata)),
        (FsOpOf::UserName(metadata.uid), name_answer(owner)),
        (FsOpOf::GroupName(metadata.gid), name_answer(group)),
    ]
}

/// The outcome of a request that describes a path.
pub open spec fn entry_told(
    path: Seq<u8>,
    metadata: MetadataView,
    owner: Option<Seq<char>>,
    group: Option<Seq<char>>,
) -> OutcomeView {
    OutcomeOf::Entry {
        head: HeadOf { status: 200, content_type: "application/json"@ },
        entry: described(path, metadata, owner, group),
    }
}

/// What a host tells when a right to a path is checked: the account of the user when it is asked whether
/// the user exists, what is known of the path, and the account when the permissions are compared.
pub struct Seen {
    pub validated: LookupView,
    pub metadata: MetadataView,
    pub lookup: LookupView,
}

/// Of a user other than `root` it is asked first of all whether they exist.
pub open spec fn known_script(username: Seq<char>, found: Account) -> Script {
    if username == "root"@ {
        Seq::empty()
    } else {
        seq![(FsOpOf::FindAccount(username), AnswerOf::Account(LookupOf::Found(found)))]
    }
}

/// The questions by which the right of a user to change a directory is checked: none for `root`.
pub open spec fn modify_script(username: Seq<char>, directory: Seq<u8>, seen: Seen) -> Script {
    if username == "root"@ {
        Seq::empty()
    } else {
        seq![
            (FsOpOf::FindAccount(username), AnswerOf::Account(seen.validated)),
            (FsOpOf::Metadata(directory), AnswerOf::Metadata(seen.metadata)),
            (FsOpOf::FindAccount(username), AnswerOf::Account(seen.lookup)),
        ]
    }
}

/// A user may change a directory: `root` may, and another user whose account has the permission to write
/// and to search.
pub open spec fn may_modify(username: Seq<char>, seen: Seen) -> bool {
    username == "root"@ || {
        &&& seen.validated is Found
        &&& seen.lookup matches LookupOf::Found(account)
        &&& holds(account, seen.metadata, 0o300, 0o030, 0o003)
    }
}

/// The questions by which the right of a user to look at a path is checked: none for `root`. The account
/// matters only for a directory.
pub open spec fn look_script(username: Seq<char>, path: Seq<u8>, seen: Seen) -> Script {
    if username == "root"@ {
        Seq::empty()
    } else if seen.metadata.is_dir {
        seq![
            (FsOpOf::FindAccount(username), AnswerOf::Account(seen.validated)),
            (FsOpOf::Metadata(path), AnswerOf::Metadata(seen.metadata)),
            (FsOpOf::FindAccount(username), AnswerOf::Account(seen.lookup)),
        ]
    } else {
        seq![
            (FsOpOf::FindAccount(username), AnswerOf::Account(seen.validated)),
            (FsOpOf::Metadata(path), AnswerOf::Metadata(seen.metadata)),
        ]
    }
}

/// A user may look at a path: `root` may, and another user that exists where it is no directory or the
/// account has the permission to read and to search it.
pub open spec fn may_look(username: Seq<char>, seen: Seen) -> bool {
    username == "root"@ || {
        &&& seen.validated is Found
        &&& seen.metadata.is_dir ==> {
            &&& seen.lookup matches LookupOf::Found(account)
            &&& holds(account, seen.metadata, 0o500, 0o050, 0o005)
        }
    }
}

/// A request names its user.
pub open spec fn made_by(authorization: Option<Seq<u8>>, username: Seq<char>) -> bool {
    requesting_user(basic_credentials(authorization)) == Ok::<Seq<char>, FsErrorView>(username)
}

/// How a request stands after a conversation.
pub open spec fn conversed(authorization: Option<Seq<u8>>, task: TaskView, script: Script) -> Option<RequestStepView> {
    scripted(requesting(), request_start(authorization, task), script, 0)
}

/// The request of a user at its first stage.
spec fn begun(username: Seq<char>, task: TaskView) -> FsRequestView {
    FsRequestOf { username, stage: StageOf::Account(task) }
}

/// Once the user is known to exist, a request goes on to its task.
proof fn lemma_known(authorization: Option<Seq<u8>>, username: Seq<char>, task: TaskView, found: Account)
    requires
        made_by(authorization, username),
    ensures
        username.len() > 0,
        conversed(authorization, task, known_script(username, found)) == Some(
            task_start(begun(username, task), task),
        ),
{
    law_requesting_user_has_a_name(basic_credentials(authorization));
    reveal_with_fuel(scripted::<FsOpView, AnswerView, FsRequestView, OutcomeView, FsErrorView>, 3);
}

/// The check of the right to change a directory ends well for a user who may.
#[verifier::rlimit(40)]
proof fn lemma_modify(username: Seq<char>, directory: Seq<u8>, seen: Seen)
    requires
        username.len() > 0,
        may_modify(username, seen),
    ensures
        scripted(
            checking(),
            check_start(Right::Modify, directory, username),
            modify_script(username, directory, seen),
            0,
        ) == Some(AccessStepView::Finish(())),
{
    reveal_with_fuel(scripted::<FsOpView, AnswerView, AccessCheckView, (), FsErrorView>, 5);
}

/// The check of the right to look at a path ends well for a user who may.
#[verifier::rlimit(40)]
proof fn lemma_look(username: Seq<char>, path: Seq<u8>, seen: Seen)
    requires
        username.len() > 0,
        may_look(username, seen),
    ensures
        scripted(
            checking(),
            check_start(Right::Look, path, username),
            look_script(username, path, seen),
            0,
        ) == Some(AccessStepView::Finish(())),
{
    reveal_with_fuel(scripted::<FsOpView, AnswerView, AccessCheckView, (), FsErrorView>, 5);
}

/// A request that is to describe a path ends with the description of what stands there.
#[verifier::rlimit(40)]
proof fn lemma_described(
    request: FsRequestView,
    path: Seq<u8>,
    metadata: MetadataView,
    owner: Option<Seq<char>>,
    group: Option<Seq<char>>,
)
    requires
        writable_time(metadata.modified),
    ensures
        scripted(
            requesting(),
            finish_with(request, path),
            describing_script(path, metadata, owner, group),
            0,
        ) == Some(RequestStepView::Finish(entry_told(path, metadata, owner, group))),
{
    reveal_with_fuel(scripted::<FsOpView, AnswerView, FsRequestView, OutcomeView, FsErrorView>, 5);
}

/// One question and its answer.
proof fn lemma_one(request: FsRequestView, op: FsOpView, answer: AnswerView)
    ensures
        scripted(requesting(), StepOf::Ask(op, request), seq![(op, answer)], 0) == Some(
            request_next(request, answer),
        ),
{
    reveal_with_fuel(scripted::<FsOpView, AnswerView, FsRequestView, OutcomeView, FsErrorView>, 3);
}

/// To look at a path gives the description of what stands there: the real path of the path in the request
/// is asked for, whether the user may look at that path, then what stands at it; and the reply describes
/// this, under that path.
pub proof fn law_stat_describes_its_path(
    authorization: Option<Seq<u8>>,
    username: Seq<char>,
    path: Seq<char>,
    found: Account,
    file: Seq<u8>,
    seen: Seen,
    metadata: MetadataView,
    owner: Option<Seq<char>>,
    group: Option<Seq<char>>,
)
    requires
        made_by(authorization, username),
        path.len() > 0,
        may_look(username, seen),
        writable_time(metadata.modified),
    ensures
        conversed(
            authorization,
            TaskOf::Stat { path },
            known_script(username, found) + seq![
                (FsOpOf::Canonicalize(encode_utf8(path)), AnswerOf::Path(file)),
            ] + look_script(username, file, seen) + describing_script(file, metadata, owner, group),
        ) == Some(RequestStepView::Finish(entry_told(file, metadata, owner, group))),
{
    let task = TaskOf::Stat { path };
    let request = begun(username, task);
    let start = request_start(authorization, task);
    let known = known_script(username, found);
    let real_path = seq![(FsOpOf::Canonicalize(encode_utf8(path)), AnswerOf::Path(file))];
    let look = look_script(username, file, seen);
    let describing = describing_script(file, metadata, owner, group);
    let within = |step: AccessStepView| stat_checking(request, file, step);
    let check = check_start(Right::Look, file, username);
    lemma_known(authorization, username, task, found);
    lemma_scripted_in_parts(requesting(), start, known, real_path, 0);
    lemma_one(
        FsRequestOf { stage: StageOf::StatPath, ..request },
        FsOpOf::Canonicalize(encode_utf8(path)),
        AnswerOf::Path(file),
    );
    assert(scripted(requesting(), start, known + real_path, 0) == Some(within(check)));
    lemma_look(username, file, seen);
    lemma_goes_along(checking(), requesting(), within, check, look, 0);
    lemma_scripted_in_parts(requesting(), start, known + real_path, look, 0);
    assert(within(StepOf::Finish(())) == finish_with(request, file));
    lemma_described(request, file, metadata, owner, group);
    lemma_scripted_in_parts(requesting(), start, known + real_path + look, describing, 0);
}

/// The outcome of a request with nothing to tell.
pub open spec fn nothing_told() -> OutcomeView {
    OutcomeOf::Empty(
        ReplyOf {
            status: 200,
            content_type: "application/json"@,
            accept_ranges: None,
            last_modified: None,
            content_range: None,
            body: encode_utf8("{}"@),
        },
    )
}

/// The question to remove what stands at a path: a directory with all below it.
pub open spec fn removal(file: Seq<u8>, metadata: MetadataView) -> FsOpView {
    if metadata.is_dir {
        FsOpOf::RemoveTree(file)
    } else {
        FsOpOf::RemoveFile(file)
    }
}

/// To remove a path removes what stands there and nothing else: the real path of the path in the request
/// is asked for, whether the user may change the directory above it, whether a directory stands at that
/// path itself, and then that path is removed, a directory with all below it.
pub proof fn law_remove_removes_its_path(
    authorization: Option<Seq<u8>>,
    username: Seq<char>,
    path: Seq<char>,
    found: Account,
    file: Seq<u8>,
    seen: Seen,
    metadata: MetadataView,
)
    requires
        made_by(authorization, username),
        path.len() > 0,
        may_modify(username, seen),
    ensures
        conversed(
            authorization,
            TaskOf::Remove { path },
            known_script(username, found) + seq![
                (FsOpOf::Canonicalize(encode_utf8(path)), AnswerOf::Path(file)),
            ] + modify_script(username, above(file), seen) + seq![
                (FsOpOf::LinkMetadata(file), AnswerOf::Metadata(metadata)),
                (removal(file, metadata), AnswerOf::Done),
            ],
        ) == Some(RequestStepView::Finish(nothing_told())),
{
    let task = TaskOf::Remove { path };
    let request = begun(username, task);
    let start = request_start(authorization, task);
    let known = known_script(username, found);
    let real_path = seq![(FsOpOf::Canonicalize(encode_utf8(path)), AnswerOf::Path(file))];
    let modify = modify_script(username, above(file), seen);
    let removing = seq![
        (FsOpOf::LinkMetadata(file), AnswerOf::Metadata(metadata)),
        (removal(file, metadata), AnswerOf::Done),
    ];
    let within = |step: AccessStepView| remove_checking(request, file, step);
    let check = check_start(Right::Modify, above(file), username);
    lemma_known(authorization, username, task, found);
    lemma_scripted_in_parts(requesting(), start, known, real_path, 0);
    lemma_one(
        FsRequestOf { stage: StageOf::RemovePath, ..request },
        FsOpOf::Canonicalize(encode_utf8(path)),
        AnswerOf::Path(file),
    );
    assert(scripted(requesting(), start, known + real_path, 0) == Some(within(check)));
    lemma_modify(username, above(file), seen);
    lemma_goes_along(checking(), requesting(), within, check, modify, 0);
    lemma_scripted_in_parts(requesting(), start, known + real_path, modify, 0);
    let permitted = within(StepOf::Finish(()));
    assert(scripted(requesting(), permitted, removing, 0) == Some(RequestStepView::Finish(nothing_told()))) by {
        reveal_with_fuel(scripted::<FsOpView, AnswerView, FsRequestView, OutcomeView, FsErrorView>, 4);
    }
    lemma_scripted_in_parts(requesting(), start, known + real_path + modify, removing, 0);
}

/// A search for where a path leads that ends at a target.
pub open spec fn leads_to(path: Seq<char>, search: Script, target: Seq<u8>) -> bool {
    scripted(resolving(), resolve_start(encode_utf8(path)), search, 0) == Some(ResolveStepView::Finish(target))
}

/// The questions by which something is given to a user: none for `root`.
pub open spec fn giving_script(username: Seq<char>, path: Seq<u8>, account: Account) -> Script {
    if username == "root"@ {
        Seq::empty()
    } else {
        seq![
            (FsOpOf::FindAccount(username), AnswerOf::Account(LookupOf::Found(account))),
            (FsOpOf::SetOwner { path, account }, AnswerOf::Done),
        ]
    }
}

/// To make a directory makes one where the path in the request leads: it is searched where that is,
/// whether the user may change the directory above that, then the directory is made there, given to the
/// user unless that is `root`, and described.
pub proof fn law_make_makes_its_directory(
    authorization: Option<Seq<u8>>,
    username: Seq<char>,
    path: Seq<char>,
    found: Account,
    search: Script,
    target: Seq<u8>,
    seen: Seen,
    account: Account,
    metadata: MetadataView,
    owner: Option<Seq<char>>,
    group: Option<Seq<char>>,
)
    requires
        made_by(authorization, username),
        leads_to(path, search, target),
        may_modify(username, seen),
        writable_time(metadata.modified),
    ensures
        conversed(
            authorization,
            TaskOf::Make { path },
            known_script(username, found) + search + modify_script(username, above(target), seen) + seq![
                (FsOpOf::CreateDirAll(target), AnswerOf::Done),
            ] + giving_script(username, target, account) + describing_script(target, metadata, owner, group),
        ) == Some(RequestStepView::Finish(entry_told(target, metadata, owner, group))),
{
    let task = TaskOf::Make { path };
    let request = begun(username, task);
    let start = request_start(authorization, task);
    let known = known_script(username, found);
    let modify = modify_script(username, above(target), seen);
    let made = seq![(FsOpOf::CreateDirAll(target), AnswerOf::Done)];
    let giving = giving_script(username, target, account);
    let describing = describing_script(target, metadata, owner, group);
    let searching = |step: ResolveStepView| make_resolving(request, step);
    let within = |step: AccessStepView| make_checking(request, target, step);
    let check = check_start(Right::Modify, above(target), username);
    lemma_known(authorization, username, task, found);
    lemma_goes_along(resolving(), requesting(), searching, resolve_start(encode_utf8(path)), search, 0);
    lemma_scripted_in_parts(requesting(), start, known, search, 0);
    assert(scripted(requesting(), start, known + search, 0) == Some(within(check)));
    lemma_modify(username, above(target), seen);
    lemma_goes_along(checking(), requesting(), within, check, modify, 0);
    lemma_scripted_in_parts(requesting(), start, known + search, modify, 0);
    lemma_one(
        FsRequestOf { stage: StageOf::Making { path: target }, ..request },
        FsOpOf::CreateDirAll(target),
        AnswerOf::Done,
    );
    assert(scripted(requesting(), within(StepOf::Finish(())), made, 0) == Some(make_owning(request, target)));
    lemma_scripted_in_parts(requesting(), start, known + search + modify, made, 0);
    assert(scripted(requesting(), make_owning(request, target), giving, 0) == Some(finish_with(request, target))) by {
        reveal_with_fuel(scripted::<FsOpView, AnswerView, FsRequestView, OutcomeView, FsErrorView>, 4);
    }
    lemma_scripted_in_parts(requesting(), start, known + search + modify + made, giving, 0);
    lemma_described(request, target, metadata, owner, group);
    lemma_scripted_in_parts(requesting(), start, known + search + modify + made + giving, describing, 0);
}

/// The question to make the directory above a path, where there is one.
pub open spec fn room_script(path: Seq<u8>) -> Script {
    match parent(path) {
        Some(up) => seq![(FsOpOf::CreateDirAll(up), AnswerOf::Done)],
        None => Seq::empty(),
    }
}

/// To move something moves what stands at the real path of the source to where the destination leads:
/// both are found out, then whether the user may change the directory above the one and above the other;
/// the directory above the destination is made; the source is moved to the destination; and what stands
/// there is described.
pub proof fn law_move_moves_source_to_destination(
    authorization: Option<Seq<u8>>,
    username: Seq<char>,
    source: Seq<char>,
    destination: Seq<char>,
    found: Account,
    from: Seq<u8>,
    search: Script,
    to: Seq<u8>,
    seen: (Seen, Seen),
    metadata: MetadataView,
    owner: Option<Seq<char>>,
    group: Option<Seq<char>>,
)
    requires
        made_by(authorization, username),
        source.len() > 0,
        leads_to(destination, search, to),
        may_modify(username, seen.0),
        may_modify(username, seen.1),
        writable_time(metadata.modified),
    ensures
        conversed(
            authorization,
            TaskOf::Move { source, destination },
            known_script(username, found) + seq![
                (FsOpOf::Canonicalize(encode_utf8(source)), AnswerOf::Path(from)),
            ] + search + modify_script(username, above(from), seen.0) + modify_script(
                username,
                above(to),
                seen.1,
            ) + room_script(to) + seq![(FsOpOf::Rename { from, to }, AnswerOf::Done)] + describing_script(
                to,
                metadata,
                owner,
                group,
            ),
        ) == Some(RequestStepView::Finish(entry_told(to, metadata, owner, group))),
{
    let task = TaskOf::Move { source, destination };
    let request = begun(username, task);
    let start = request_start(authorization, task);
    let known = known_script(username, found);
    let real_path = seq![(FsOpOf::Canonicalize(encode_utf8(source)), AnswerOf::Path(from))];
    let first = modify_script(username, above(from), seen.0);
    let second = modify_script(username, above(to), seen.1);
    let room = room_script(to);
    let moved = seq![(FsOpOf::Rename { from, to }, AnswerOf::Done)];
    let describing = describing_script(to, metadata, owner, group);
    let searching = |step: ResolveStepView| move_resolving(request, from, step);
    let leaving = |step: AccessStepView| source_checking(request, from, to, step);
    let arriving = |step: AccessStepView| destination_checking(request, from, to, step);
    let check_from = check_start(Right::Modify, above(from), username);
    let check_to = check_start(Right::Modify, above(to), username);
    let sought = known + real_path + search;
    lemma_known(authorization, username, task, found);
    lemma_scripted_in_parts(requesting(), start, known, real_path, 0);
    lemma_one(
        FsRequestOf { stage: StageOf::MoveSource { target: destination }, ..request },
        FsOpOf::Canonicalize(encode_utf8(source)),
        AnswerOf::Path(from),
    );
    lemma_goes_along(resolving(), requesting(), searching, resolve_start(encode_utf8(destination)), search, 0);
    lemma_scripted_in_parts(requesting(), start, known + real_path, search, 0);
    assert(scripted(requesting(), start, sought, 0) == Some(leaving(check_from)));
    lemma_modify(username, above(from), seen.0);
    lemma_goes_along(checking(), requesting(), leaving, check_from, first, 0);
    lemma_scripted_in_parts(requesting(), start, sought, first, 0);
    assert(scripted(requesting(), start, sought + first, 0) == Some(arriving(check_to)));
    lemma_modify(username, above(to), seen.1);
    lemma_goes_along(checking(), requesting(), arriving, check_to, second, 0);
    lemma_scripted_in_parts(requesting(), start, sought + first, second, 0);
    assert(scripted(requesting(), arriving(StepOf::Finish(())), room, 0) == Some(moving(request, from, to))) by {
        reveal_with_fuel(scripted::<FsOpView, AnswerView, FsRequestView, OutcomeView, FsErrorView>, 3);
    }
    lemma_scripted_in_parts(requesting(), start, sought + first + second, room, 0);
    lemma_one(
        FsRequestOf { stage: StageOf::Moving { destination: to }, ..request },
        FsOpOf::Rename { from, to },
        AnswerOf::Done,
    );
    lemma_scripted_in_parts(requesting(), start, sought + first + second + room, moved, 0);
    assert(scripted(requesting(), start, sought + first + second + room + moved, 0) == Some(
        finish_with(request, to),
    ));
    lemma_described(request, to, metadata, owner, group);
    lemma_scripted_in_parts(requesting(), start, sought + first + second + room + moved, describing, 0);
}

/// The questions by which it is checked that a directory may be listed or watched: what is known of it,
/// and of a user other than `root` whether they exist.
pub open spec fn directory_script(
    username: Seq<char>,
    directory: Seq<u8>,
    metadata: MetadataView,
    account: Account,
) -> Script {
    if username == "root"@ {
        seq![(FsOpOf::Metadata(directory), AnswerOf::Metadata(metadata))]
    } else {
        seq![
            (FsOpOf::Metadata(directory), AnswerOf::Metadata(metadata)),
            (FsOpOf::FindAccount(username), AnswerOf::Account(LookupOf::Found(account))),
        ]
    }
}

/// To list a directory gives a description of everything that stands in it: the real path of the path in
/// the request is asked for, whether it is a directory, and for its entries one after the other. When the
/// host gives `items`, and users and groups are called as they are, the reply holds the description of
/// each item once and nothing else, ordered by name.
pub proof fn law_list_describes_all_entries(
    authorization: Option<Seq<u8>>,
    username: Seq<char>,
    path: Seq<char>,
    found: Account,
    directory: Seq<u8>,
    metadata: MetadataView,
    account: Account,
    items: Seq<(Seq<u8>, MetadataView)>,
    users: spec_fn(u32) -> Option<Seq<char>>,
    groups: spec_fn(u32) -> Option<Seq<char>>,
)
    requires
        made_by(authorization, username),
        path.len() > 0,
        metadata.is_dir,
        forall|i: int| 0 <= i < items.len() ==> writable_time((#[trigger] items[i]).1.modified),
    ensures
        ({
            let opened = conversed(
                authorization,
                TaskOf::List { path },
                known_script(username, found) + seq![
                    (FsOpOf::Canonicalize(encode_utf8(path)), AnswerOf::Path(directory)),
                ] + directory_script(username, directory, metadata, account) + seq![
                    (FsOpOf::OpenDir(directory), AnswerOf::Done),
                ],
            );
            let described_items = Seq::new(
                items.len(),
                |i: int| described(items[i].0, items[i].1, users(items[i].1.uid), groups(items[i].1.gid)),
            );
            &&& opened matches Some(StepOf::Ask(FsOpOf::NextEntry, request))
            &&& listed(request, items, users, groups) matches StepOf::Finish(OutcomeOf::Entries { head, entries })
            &&& head == (HeadOf { status: 200, content_type: "application/json"@ })
            &&& entries.to_multiset() == described_items.to_multiset()
            &&& forall|i: int, j: int|
                0 <= i < j < entries.len() ==> !text_before(#[trigger] entries[j].name, #[trigger] entries[i].name)
        }),
{
    let task = TaskOf::List { path };
    let request = begun(username, task);
    let start = request_start(authorization, task);
    let known = known_script(username, found);
    let real_path = seq![(FsOpOf::Canonicalize(encode_utf8(path)), AnswerOf::Path(directory))];
    let checks = directory_script(username, directory, metadata, account);
    let open = seq![(FsOpOf::OpenDir(directory), AnswerOf::Done)];
    let within = |step: AccessStepView| list_checking(request, directory, step);
    let check = check_start(Right::List, directory, username);
    lemma_known(authorization, username, task, found);
    lemma_scripted_in_parts(requesting(), start, known, real_path, 0);
    lemma_one(
        FsRequestOf { stage: StageOf::ListPath, ..request },
        FsOpOf::Canonicalize(encode_utf8(path)),
        AnswerOf::Path(directory),
    );
    assert(scripted(requesting(), start, known + real_path, 0) == Some(within(check)));
    assert(scripted(checking(), check, checks, 0) == Some(AccessStepView::Finish(()))) by {
        reveal_with_fuel(scripted::<FsOpView, AnswerView, AccessCheckView, (), FsErrorView>, 4);
    }
    lemma_goes_along(checking(), requesting(), within, check, checks, 0);
    lemma_scripted_in_parts(requesting(), start, known + real_path, checks, 0);
    lemma_one(
        FsRequestOf { stage: StageOf::ListOpen, ..request },
        FsOpOf::OpenDir(directory),
        AnswerOf::Done,
    );
    lemma_scripted_in_parts(requesting(), start, known + real_path + checks, open, 0);
    let names = no_names();
    let listing = FsRequestOf { stage: StageView::ListNext { names, entries: Seq::empty() }, ..request };
    law_listing_is_complete(listing, names, Seq::empty(), items, users, groups);
    let all = all_described(items, users, groups);
    let described_items = Seq::new(
        items.len(),
        |i: int| described(items[i].0, items[i].1, users(items[i].1.uid), groups(items[i].1.gid)),
    );
    assert(all =~= described_items) by {
        reveal(item_entry);
    }
    assert(Seq::<FileEntryView>::empty() + all =~= all);
    law_listing_is_ordered(all);
    lemma_listing_keeps_entries(all);
}

/// The failure of a request that is not permitted.
pub open spec fn denied(message: Seq<char>) -> RequestStepView {
    StepOf::Fail(FsErrorOf { kind: ErrorKind::PermissionDenied, message })
}

/// The failure of a request that is not acceptable as it stands.
pub open spec fn unacceptable(message: Seq<char>) -> RequestStepView {
    StepOf::Fail(FsErrorOf { kind: ErrorKind::InvalidInput, message })
}

/// An account lacks a permission of its class.
pub open spec fn lacks(username: Seq<char>, seen: Seen, owner: u32, group: u32, other: u32) -> bool {
    &&& username != "root"@
    &&& seen.validated is Found
    &&& seen.lookup matches LookupOf::Found(account)
    &&& !holds(account, seen.metadata, owner, group, other)
}

/// The check of the right to change a directory fails for a user who lacks it.
#[verifier::rlimit(40)]
proof fn lemma_modify_denied(username: Seq<char>, directory: Seq<u8>, seen: Seen)
    requires
        username.len() > 0,
        lacks(username, seen, 0o300, 0o030, 0o003),
    ensures
        scripted(
            checking(),
            check_start(Right::Modify, directory, username),
            modify_script(username, directory, seen),
            0,
        ) == Some(
            AccessStepView::Fail(
                FsErrorOf { kind: ErrorKind::PermissionDenied, message: "directory modification denied"@ },
            ),
        ),
{
    reveal_with_fuel(scripted::<FsOpView, AnswerView, AccessCheckView, (), FsErrorView>, 5);
}

/// A user without the permission to read and to search a directory is not told of it.
#[verifier::rlimit(40)]
pub proof fn law_stat_is_denied(
    authorization: Option<Seq<u8>>,
    username: Seq<char>,
    path: Seq<char>,
    found: Account,
    file: Seq<u8>,
    seen: Seen,
)
    requires
        made_by(authorization, username),
        path.len() > 0,
        seen.metadata.is_dir,
        lacks(username, seen, 0o500, 0o050, 0o005),
    ensures
        conversed(
            authorization,
            TaskOf::Stat { path },
            known_script(username, found) + seq![
                (FsOpOf::Canonicalize(encode_utf8(path)), AnswerOf::Path(file)),
            ] + look_script(username, file, seen),
        ) == Some(denied("directory access denied"@)),
{
    let task = TaskOf::Stat { path };
    let request = begun(username, task);
    let start = request_start(authorization, task);
    let known = known_script(username, found);
    let real_path = seq![(FsOpOf::Canonicalize(encode_utf8(path)), AnswerOf::Path(file))];
    let look = look_script(username, file, seen);
    let within = |step: AccessStepView| stat_checking(request, file, step);
    let check = check_start(Right::Look, file, username);
    lemma_known(authorization, username, task, found);
    lemma_scripted_in_parts(requesting(), start, known, real_path, 0);
    lemma_one(
        FsRequestOf { stage: StageOf::StatPath, ..request },
        FsOpOf::Canonicalize(encode_utf8(path)),
        AnswerOf::Path(file),
    );
    assert(scripted(requesting(), start, known + real_path, 0) == Some(within(check)));
    assert(scripted(checking(), check, look, 0) == Some(
        AccessStepView::Fail(FsErrorOf { kind: ErrorKind::PermissionDenied, message: "directory access denied"@ }),
    )) by {
        reveal_with_fuel(scripted::<FsOpView, AnswerView, AccessCheckView, (), FsErrorView>, 5);
    }
    lemma_goes_along(checking(), requesting(), within, check, look, 0);
    lemma_scripted_in_parts(requesting(), start, known + real_path, look, 0);
}

/// A user without the permission to write and to search the directory above a path removes nothing.
pub proof fn law_remove_is_denied(
    authorization: Option<Seq<u8>>,
    username: Seq<char>,
    path: Seq<char>,
    found: Account,
    file: Seq<u8>,
    seen: Seen,
)
    requires
        made_by(authorization, username),
        path.len() > 0,
        lacks(username, seen, 0o300, 0o030, 0o003),
    ensures
        conversed(
            authorization,
            TaskOf::Remove { path },
            known_script(username, found) + seq![
                (FsOpOf::Canonicalize(encode_utf8(path)), AnswerOf::Path(file)),
            ] + modify_script(username, above(file), seen),
        ) == Some(denied("directory modification denied"@)),
{
    let task = TaskOf::Remove { path };
    let request = begun(username, task);
    let start = request_start(authorization, task);
    let known = known_script(username, found);
    let real_path = seq![(FsOpOf::Canonicalize(encode_utf8(path)), AnswerOf::Path(file))];
    let modify = modify_script(username, above(file), seen);
    let within = |step: AccessStepView| remove_checking(request, file, step);
    let check = check_start(Right::Modify, above(file), username);
    lemma_known(authorization, username, task, found);
    lemma_scripted_in_parts(requesting(), start, known, real_path, 0);
    lemma_one(
        FsRequestOf { stage: StageOf::RemovePath, ..request },
        FsOpOf::Canonicalize(encode_utf8(path)),
        AnswerOf::Path(file),
    );
    assert(scripted(requesting(), start, known + real_path, 0) == Some(within(check)));
    lemma_modify_denied(username, above(file), seen);
    lemma_goes_along(checking(), requesting(), within, check, modify, 0);
    lemma_scripted_in_parts(requesting(), start, known + real_path, modify, 0);
}

/// A user without the permission to write and to search the directory above a path makes no directory
/// there.
pub proof fn law_make_is_denied(
    authorization: Option<Seq<u8>>,
    username: Seq<char>,
    path: Seq<char>,
    found: Account,
    search: Script,
    target: Seq<u8>,
    seen: Seen,
)
    requires
        made_by(authorization, username),
        leads_to(path, search, target),
        lacks(username, seen, 0o300, 0o030, 0o003),
    ensures
        conversed(
            authorization,
            TaskOf::Make { path },
            known_script(username, found) + search + modify_script(username, above(target), seen),
        ) == Some(denied("directory modification denied"@)),
{
    let task = TaskOf::Make { path };
    let request = begun(username, task);
    let start = request_start(authorization, task);
    let known = known_script(username, found);
    let modify = modify_script(username, above(target), seen);
    let searching = |step: ResolveStepView| make_resolving(request, step);
    let within = |step: AccessStepView| make_checking(request, target, step);
    let check = check_start(Right::Modify, above(target), username);
    lemma_known(authorization, username, task, found);
    lemma_goes_along(resolving(), requesting(), searching, resolve_start(encode_utf8(path)), search, 0);
    lemma_scripted_in_parts(requesting(), start, known, search, 0);
    assert(scripted(requesting(), start, known + search, 0) == Some(within(check)));
    lemma_modify_denied(username, above(target), seen);
    lemma_goes_along(checking(), requesting(), within, check, modify, 0);
    lemma_scripted_in_parts(requesting(), start, known + search, modify, 0);
}

/// A user moves nothing who lacks the permission to write and to search the directory above the source,
/// or the one above the destination.
pub proof fn law_move_is_denied(
    authorization: Option<Seq<u8>>,
    username: Seq<char>,
    source: Seq<char>,
    destination: Seq<char>,
    found: Account,
    from: Seq<u8>,
    search: Script,
    to: Seq<u8>,
    seen: (Seen, Seen),
)
    requires
        made_by(authorization, username),
        source.len() > 0,
        leads_to(destination, search, to),
        may_modify(username, seen.0) || lacks(username, seen.0, 0o300, 0o030, 0o003),
        lacks(username, seen.1, 0o300, 0o030, 0o003),
    ensures
        ({
            let sought = known_script(username, found) + seq![
                (FsOpOf::Canonicalize(encode_utf8(source)), AnswerOf::Path(from)),
            ] + search + modify_script(username, above(from), seen.0);
            let script = if may_modify(username, seen.0) {
                sought + modify_script(username, above(to), seen.1)
            } else {
                sought
            };
            conversed(authorization, TaskOf::Move { source, destination }, script) == Some(
                denied("directory modification denied"@),
            )
        }),
{
    let task = TaskOf::Move { source, destination };
    let request = begun(username, task);
    let start = request_start(authorization, task);
    let known = known_script(username, found);
    let real_path = seq![(FsOpOf::Canonicalize(encode_utf8(source)), AnswerOf::Path(from))];
    let first = modify_script(username, above(from), seen.0);
    let second = modify_script(username, above(to), seen.1);
    let searching = |step: ResolveStepView| move_resolving(request, from, step);
    let leaving = |step: AccessStepView| source_checking(request, from, to, step);
    let arriving = |step: AccessStepView| destination_checking(request, from, to, step);
    let check_from = check_start(Right::Modify, above(from), username);
    let check_to = check_start(Right::Modify, above(to), username);
    let sought = known + real_path + search;
    lemma_known(authorization, username, task, found);
    lemma_scripted_in_parts(requesting(), start, known, real_path, 0);
    lemma_one(
        FsRequestOf { stage: StageOf::MoveSource { target: destination }, ..request },
        FsOpOf::Canonicalize(encode_utf8(source)),
        AnswerOf::Path(from),
    );
    lemma_goes_along(resolving(), requesting(), searching, resolve_start(encode_utf8(destination)), search, 0);
    lemma_scripted_in_parts(requesting(), start, known + real_path, search, 0);
    assert(scripted(requesting(), start, sought, 0) == Some(leaving(check_from)));
    if may_modify(username, seen.0) {
        lemma_modify(username, above(from), seen.0);
        lemma_goes_along(checking(), requesting(), leaving, check_from, first, 0);
        lemma_scripted_in_parts(requesting(), start, sought, first, 0);
        assert(scripted(requesting(), start, sought + first, 0) == Some(arriving(check_to)));
        lemma_modify_denied(username, above(to), seen.1);
        lemma_goes_along(checking(), requesting(), arriving, check_to, second, 0);
        lemma_scripted_in_parts(requesting(), start, sought + first, second, 0);
    } else {
        lemma_modify_denied(username, above(from), seen.0);
        lemma_goes_along(checking(), requesting(), leaving, check_from, first, 0);
        lemma_scripted_in_parts(requesting(), start, sought, first, 0);
    }
}

/// Only a directory is listed.
pub proof fn law_files_are_not_listed(
    authorization: Option<Seq<u8>>,
    username: Seq<char>,
    path: Seq<char>,
    found: Account,
    file: Seq<u8>,
    metadata: MetadataView,
)
    requires
        made_by(authorization, username),
        path.len() > 0,
        !metadata.is_dir,
    ensures
        conversed(
            authorization,
            TaskOf::List { path },
            known_script(username, found) + seq![
                (FsOpOf::Canonicalize(encode_utf8(path)), AnswerOf::Path(file)),
                (FsOpOf::Metadata(file), AnswerOf::Metadata(metadata)),
            ],
        ) == Some(unacceptable("path is not a directory"@)),
{
    let task = TaskOf::List { path };
    let start = request_start(authorization, task);
    let known = known_script(username, found);
    let looked = seq![
        (FsOpOf::Canonicalize(encode_utf8(path)), AnswerOf::Path(file)),
        (FsOpOf::Metadata(file), AnswerOf::Metadata(metadata)),
    ];
    lemma_known(authorization, username, task, found);
    lemma_scripted_in_parts(requesting(), start, known, looked, 0);
    reveal_with_fuel(scripted::<FsOpView, AnswerView, FsRequestView, OutcomeView, FsErrorView>, 4);
}

/// The path of a request that needs an existing one.
pub open spec fn needed_path(task: TaskView) -> Option<Seq<char>> {
    match task {
        TaskOf::List { path } => Some(path),
        TaskOf::Stat { path } => Some(path),
        TaskOf::Remove { path } => Some(path),
        TaskOf::Move { source, .. } => Some(source),
        TaskOf::Make { .. } => None,
    }
}

/// A request without the path that it needs is not acceptable, and nothing but its user is asked about.
pub proof fn law_path_is_required(
    authorization: Option<Seq<u8>>,
    username: Seq<char>,
    task: TaskView,
    found: Account,
)
    requires
        made_by(authorization, username),
        needed_path(task) matches Some(path) && path.len() == 0,
    ensures
        conversed(authorization, task, known_script(username, found)) == Some(unacceptable("path is required"@)),
{
    lemma_known(authorization, username, task, found);
}

/// Nothing is done for a user that does not exist, or whose account cannot be searched: the request ends
/// with the first answer.
pub proof fn law_unknown_users_do_nothing(
    authorization: Option<Seq<u8>>,
    username: Seq<char>,
    task: TaskView,
    lookup: LookupView,
)
    requires
        made_by(authorization, username),
        username != "root"@,
        lookup !is Found,
    ensures
        conversed(authorization, task, seq![(FsOpOf::FindAccount(username), AnswerOf::Account(lookup))]) == Some(
            RequestStepView::Fail(
                match lookup {
                    LookupOf::Failed(message) => FsErrorOf { kind: ErrorKind::Other, message },
                    _ => FsErrorOf { kind: ErrorKind::NotFound, message: "user "@ + username + " not found"@ },
                },
            ),
        ),
{
    law_requesting_user_has_a_name(basic_credentials(authorization));
    reveal_with_fuel(scripted::<FsOpView, AnswerView, FsRequestView, OutcomeView, FsErrorView>, 3);
}

/// A request with a header that names no user is refused with the reason, and nothing is asked for it.
pub proof fn law_unreadable_users_do_nothing(authorization: Option<Seq<u8>>, task: TaskView)
    ensures
        requesting_user(basic_credentials(authorization)) matches Err(failure) ==> request_start(authorization, task)
            == RequestStepView::Fail(failure),
{
}

/// A right is given only to an account: where the account is gone or cannot be searched, the check fails.
pub proof fn law_rights_need_an_account(check: AccessCheckView, lookup: LookupView)
    requires
        lookup !is Found,
        check.username.len() > 0,
        check.username != "root"@,
        check.stage !is Metadata,
    ensures
        check_next(check, AnswerOf::Account(lookup)) == AccessStepView::Fail(
            match lookup {
                LookupOf::Failed(message) => FsErrorOf { kind: ErrorKind::Other, message },
                _ => FsErrorOf {
                    kind: ErrorKind::NotFound,
                    message: if check.stage is Account {
                        "user not found"@
                    } else {
                        "user "@ + check.username + " not found"@
                    },
                },
            },
        ),
{
}

/// The empty name needs no account to exist, but is held to permissions like any other where they are asked
/// for by name.
pub proof fn law_empty_name_is_held_to_permissions(right: Right, path: Seq<u8>, metadata: MetadataView)
    requires
        right is Look ==> metadata.is_dir,
    ensures
        ({
            let nobody = Seq::<char>::empty();
            let known = seq![(FsOpView::Metadata(path), AnswerView::Metadata(metadata))];
            let step = scripted(checking(), check_start(right, path, nobody), known, 0);
            right !is List ==> (step matches Some(StepOf::Ask(op, _)) && op == FsOpView::FindAccount(nobody))
        }),
{
    reveal_strlit("root");
    assert("root"@.len() == 4);
    reveal_with_fuel(scripted::<FsOpView, AnswerView, AccessCheckView, (), FsErrorView>, 3);
}

/// A directory that was made and cannot be given to its user, because the account is gone or cannot be
/// searched, is told of with the reason.
pub proof fn law_directories_are_given_to_accounts_only(request: FsRequestView, lookup: LookupView)
    requires
        request.stage is MakeAccount,
        request.username.len() > 0,
        request.username != "root"@,
        lookup !is Found,
    ensures
        request_next(request, AnswerOf::Account(lookup)) == RequestStepView::Fail(
            match lookup {
                LookupOf::Failed(message) => FsErrorOf { kind: ErrorKind::Other, message },
                _ => FsErrorOf { kind: ErrorKind::NotFound, message: "user not found"@ },
            },
        ),
{
}

/// What was last modified at a time that cannot be written is not described.
pub proof fn law_unwritable_times_are_told(request: FsRequestView, path: Seq<u8>, metadata: MetadataView)
    requires
        request.stage is Metadata || request.stage is ListNext,
        !writable_time(metadata.modified),
    ensures
        ({
            let answer = if request.stage is Metadata {
                AnswerView::Metadata(metadata)
            } else {
                AnswerView::Entry { path, metadata }
            };
            request_next(request, answer) == RequestStepView::Fail(
                FsErrorOf { kind: ErrorKind::Other, message: "file modification time is not representable"@ },
            )
        }),
{
}

/// To remove what does not exist succeeds, whether there is nothing from the start or nothing is left when
/// it is to be removed; every other failure of the host is passed on.
pub proof fn law_removal_of_nothing_succeeds(
    authorization: Option<Seq<u8>>,
    username: Seq<char>,
    path: Seq<char>,
    found: Account,
    file: Seq<u8>,
    seen: Seen,
    failure: FsErrorView,
)
    requires
        made_by(authorization, username),
        path.len() > 0,
        may_modify(username, seen),
    ensures
        ({
            let outcome = Some(
                if failure.kind is NotFound {
                    RequestStepView::Finish(nothing_told())
                } else {
                    RequestStepView::Fail(failure)
                },
            );
            &&& conversed(
                authorization,
                TaskOf::Remove { path },
                known_script(username, found) + seq![
                    (FsOpOf::Canonicalize(encode_utf8(path)), AnswerOf::Failed(failure)),
                ],
            ) == outcome
            &&& conversed(
                authorization,
                TaskOf::Remove { path },
                known_script(username, found) + seq![
                    (FsOpOf::Canonicalize(encode_utf8(path)), AnswerOf::Path(file)),
                ] + modify_script(username, above(file), seen) + seq![
                    (FsOpOf::LinkMetadata(file), AnswerOf::Failed(failure)),
                ],
            ) == outcome
        }),
{
    let task = TaskOf::Remove { path };
    let request = begun(username, task);
    let start = request_start(authorization, task);
    let known = known_script(username, found);
    let missing = seq![(FsOpOf::Canonicalize(encode_utf8(path)), AnswerOf::Failed(failure))];
    let real_path = seq![(FsOpOf::Canonicalize(encode_utf8(path)), AnswerOf::Path(file))];
    let modify = modify_script(username, above(file), seen);
    let gone = seq![(FsOpOf::LinkMetadata(file), AnswerOf::Failed(failure))];
    let within = |step: AccessStepView| remove_checking(request, file, step);
    let check = check_start(Right::Modify, above(file), username);
    let waiting = FsRequestOf { stage: StageOf::RemovePath, ..request };
    lemma_known(authorization, username, task, found);
    lemma_scripted_in_parts(requesting(), start, known, missing, 0);
    lemma_one(waiting, FsOpOf::Canonicalize(encode_utf8(path)), AnswerOf::Failed(failure));
    lemma_scripted_in_parts(requesting(), start, known, real_path, 0);
    lemma_one(waiting, FsOpOf::Canonicalize(encode_utf8(path)), AnswerOf::Path(file));
    assert(scripted(requesting(), start, known + real_path, 0) == Some(within(check)));
    lemma_modify(username, above(file), seen);
    lemma_goes_along(checking(), requesting(), within, check, modify, 0);
    lemma_scripted_in_parts(requesting(), start, known + real_path, modify, 0);
    lemma_scripted_in_parts(requesting(), start, known + real_path + modify, gone, 0);
    lemma_one(
        FsRequestOf { stage: StageOf::RemoveKind { path: file }, ..request },
        FsOpOf::LinkMetadata(file),
        AnswerOf::Failed(failure),
    );
}

/// A failure of the host ends a request, and the client is told of this failure, with its kind and its
/// description. There are two exceptions: nothing is wrong where there is nothing to be removed; and a
/// failure to give a directory away counts as one of no particular kind.
pub proof fn law_failures_are_passed_on(request: FsRequestView, failure: FsErrorView)
    requires
        request.stage matches StageOf::MakePath(search) ==> search.found,
        request.stage matches StageOf::MoveDestination { search, .. } ==> search.found,
        request.stage is RemovePath || request.stage is RemoveKind ==> failure.kind !is NotFound,
    ensures
        request_next(request, AnswerOf::Failed(failure)) == RequestStepView::Fail(
            if request.stage is MakeOwner {
                FsErrorOf { kind: ErrorKind::Other, message: failure.message }
            } else {
                failure
            },
        ),
{
}

/// A question asks to remove what stands at the real path that was told for a path.
pub open spec fn removes_what_was_found(path: Seq<char>, said: (FsOpView, AnswerView), op: FsOpView) -> bool {
    &&& said.0 == FsOpView::Canonicalize(encode_utf8(path))
    &&& said.1 matches AnswerOf::Path(file)
    &&& op == FsOpView::RemoveTree(file) || op == FsOpView::RemoveFile(file)
}

/// What a request asks, one question after the other, for a task that removes a path: nothing is changed
/// but what stands at the real path of that path, whatever the host answers.
pub proof fn law_remove_changes_nothing_else(
    authorization: Option<Seq<u8>>,
    path: Seq<char>,
    answers: Seq<AnswerView>,
    place: int,
)
    requires
        ({
            let talk = exchange(requesting(), request_start(authorization, TaskOf::Remove { path }), answers);
            0 <= place < talk.len() && modifies(talk[place].0)
        }),
    ensures
        ({
            let talk = exchange(requesting(), request_start(authorization, TaskOf::Remove { path }), answers);
            exists|earlier: int|
                0 <= earlier < place && removes_what_was_found(path, #[trigger] talk[earlier], talk[place].0)
        }),
{
    let start = request_start(authorization, TaskOf::Remove { path });
    lemma_removing(path, start, answers, place);
}

/// A removal whose real path is still to come asks for nothing but that.
spec fn seeking(step: RequestStepView, path: Seq<char>) -> bool {
    match step {
        StepOf::Ask(op, request) => match request.stage {
            StageOf::Account(task) => op is FindAccount && task == (TaskOf::Remove { path }),
            StageOf::RemovePath => op == FsOpView::Canonicalize(encode_utf8(path)),
            _ => false,
        },
        _ => true,
    }
}

/// A removal that knows the real path changes nothing but what stands there.
spec fn bound_to(step: RequestStepView, file: Seq<u8>) -> bool {
    match step {
        StepOf::Ask(op, request) => {
            &&& modifies(op) ==> op == FsOpView::RemoveTree(file) || op == FsOpView::RemoveFile(file)
            &&& match request.stage {
                StageOf::RemoveCheck { path, check } => path == file && fitting(check),
                StageOf::RemoveKind { path } => path == file,
                StageOf::Removing => true,
                _ => false,
            }
        },
        _ => true,
    }
}

proof fn lemma_bound_to(file: Seq<u8>, step: RequestStepView, answers: Seq<AnswerView>, place: int)
    requires
        bound_to(step, file),
        0 <= place < exchange(requesting(), step, answers).len(),
        modifies(exchange(requesting(), step, answers)[place].0),
    ensures
        ({
            let op = exchange(requesting(), step, answers)[place].0;
            op == FsOpView::RemoveTree(file) || op == FsOpView::RemoveFile(file)
        }),
    decreases answers.len(),
{
    if step is Ask && answers.len() > 0 && place > 0 {
        let next = request_next(step->Ask_1, answers[0]);
        let rest = exchange(requesting(), next, answers.skip(1));
        assert(exchange(requesting(), step, answers) =~= seq![(step->Ask_0, answers[0])] + rest);
        assert(exchange(requesting(), step, answers)[place] == rest[place - 1]);
        assert(bound_to(next, file));
        lemma_bound_to(file, next, answers.skip(1), place - 1);
    }
}

proof fn lemma_removing(path: Seq<char>, step: RequestStepView, answers: Seq<AnswerView>, place: int)
    requires
        seeking(step, path),
        0 <= place < exchange(requesting(), step, answers).len(),
        modifies(exchange(requesting(), step, answers)[place].0),
    ensures
        ({
            let talk = exchange(requesting(), step, answers);
            exists|earlier: int|
                0 <= earlier < place && removes_what_was_found(path, #[trigger] talk[earlier], talk[place].0)
        }),
    decreases answers.len(),
{
    let talk = exchange(requesting(), step, answers);
    let next = request_next(step->Ask_1, answers[0]);
    let rest = exchange(requesting(), next, answers.skip(1));
    assert(talk =~= seq![(step->Ask_0, answers[0])] + rest);
    assert(place > 0);
    assert(talk[place] == rest[place - 1]);
    if seeking(next, path) {
        lemma_removing(path, next, answers.skip(1), place - 1);
        let earlier = choose|earlier: int|
            0 <= earlier < place - 1 && removes_what_was_found(path, #[trigger] rest[earlier], rest[place - 1].0);
        assert(removes_what_was_found(path, talk[earlier + 1], talk[place].0));
    } else {
        let file = answers[0]->Path_0;
        assert(bound_to(next, file));
        lemma_bound_to(file, next, answers.skip(1), place - 1);
        assert(removes_what_was_found(path, talk[0], talk[place].0));
    }
}

} // verus!
