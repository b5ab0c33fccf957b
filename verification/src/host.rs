//! What the library asks of the host it runs on, and what the host answers.
//!
//! A request that needs the host is a state machine. Each of its steps either asks one question and
//! waits for the answer, or ends with a result or an error. Whoever drives it carries the questions
//! out.
//!
//! The types are generic in how they hold bytes and text: as `Vec<u8>` and `String` in the running
//! program, and as sequences in specifications.

use vstd::prelude::*;

verus! {

/// What kind of failure the host reports.
#[derive(Clone, Copy, Debug, PartialEq, Eq, Structural)]
pub enum ErrorKind {
    NotFound,
    PermissionDenied,
    InvalidInput,
    Other,
}

/// A failure, with its description.
#[verifier::ext_equal]
#[derive(Clone, Debug, PartialEq, Eq)]
pub struct FsErrorOf<T> {
    pub kind: ErrorKind,
    pub message: T,
}

pub type FsError = FsErrorOf<String>;

pub type FsErrorView = FsErrorOf<Seq<char>>;

impl View for FsErrorOf<String> {
    type V = FsErrorOf<Seq<char>>;

    open spec fn view(&self) -> FsErrorOf<Seq<char>> {
        FsErrorOf { kind: self.kind, message: self.message@ }
    }
}

/// The numbers of a user account and of its primary group.
#[derive(Clone, Copy, Debug, PartialEq, Eq, Structural)]
pub struct Account {
    pub uid: u32,
    pub gid: u32,
}

/// What a search for a user account by name brought.
#[verifier::ext_equal]
#[derive(Clone, Debug, PartialEq, Eq)]
pub enum LookupOf<T> {
    Found(Account),
    Missing,
    Failed(T),
}

pub type Lookup = LookupOf<String>;

pub type LookupView = LookupOf<Seq<char>>;

impl View for LookupOf<String> {
    type V = LookupOf<Seq<char>>;

    open spec fn view(&self) -> LookupOf<Seq<char>> {
        match self {
            LookupOf::Found(account) => LookupOf::Found(*account),
            LookupOf::Missing => LookupOf::Missing,
            LookupOf::Failed(message) => LookupOf::Failed(message@),
        }
    }
}

/// When a file was last modified: a time after the Unix epoch, or why there is none.
#[verifier::ext_equal]
#[derive(Clone, Debug, PartialEq, Eq)]
pub enum ModifiedOf<T> {
    At { seconds: u64, nanoseconds: u32 },
    Unknown(T),
}

pub type Modified = ModifiedOf<String>;

impl View for ModifiedOf<String> {
    type V = ModifiedOf<Seq<char>>;

    open spec fn view(&self) -> ModifiedOf<Seq<char>> {
        match self {
            ModifiedOf::At { seconds, nanoseconds } => ModifiedOf::At {
                seconds: *seconds,
                nanoseconds: *nanoseconds,
            },
            ModifiedOf::Unknown(message) => ModifiedOf::Unknown(message@),
        }
    }
}

/// What the host knows of a file.
#[verifier::ext_equal]
#[derive(Clone, Debug, PartialEq, Eq)]
pub struct MetadataOf<T> {
    pub is_dir: bool,
    pub mode: u32,
    pub size: u64,
    pub uid: u32,
    pub gid: u32,
    pub modified: ModifiedOf<T>,
}

pub type Metadata = MetadataOf<String>;

pub type MetadataView = MetadataOf<Seq<char>>;

impl View for MetadataOf<String> {
    type V = MetadataOf<Seq<char>>;

    open spec fn view(&self) -> MetadataOf<Seq<char>> {
        MetadataOf {
            is_dir: self.is_dir,
            mode: self.mode,
            size: self.size,
            uid: self.uid,
            gid: self.gid,
            modified: self.modified@,
        }
    }
}

/// A question for the host.
#[verifier::ext_equal]
#[derive(Clone, Debug, PartialEq, Eq)]
pub enum FsOpOf<B, T> {
    /// Search the account of a user by name: `Account`.
    FindAccount(T),
    /// The name of the user with this number: `Name` or `NoName`.
    UserName(u32),
    /// The name of the group with this number: `Name` or `NoName`.
    GroupName(u32),
    /// The absolute path of a file, with all links followed: `Path`.
    Canonicalize(B),
    /// Whether something stands at the path, links followed: `Exists`.
    Exists(B),
    /// What is known of a file, links followed: `Metadata`.
    Metadata(B),
    /// What is known of a file or of the link that stands there: `Metadata`.
    LinkMetadata(B),
    /// Start to go through the entries of a directory: `Done`.
    OpenDir(B),
    /// The next entry of the directory that was opened, and what is known of it without following
    /// a link: `Entry` or `NoEntry`.
    NextEntry,
    /// The whole content of a file: `Data`.
    ReadFile(B),
    /// Make a directory and those above it that are missing: `Done`.
    CreateDirAll(B),
    /// Move a file or a directory: `Done`.
    Rename { from: B, to: B },
    /// Remove a directory and all below it: `Done`.
    RemoveTree(B),
    /// Remove a file: `Done`.
    RemoveFile(B),
    /// Replace the content of a file, making it where it is missing: `Done`.
    WriteFile { path: B, data: B },
    /// Set the permission bits of a file: `Done`.
    SetMode { path: B, mode: u32 },
    /// Give a file to a user and a group: `Done`.
    SetOwner { path: B, account: Account },
    /// The body of the request, refused where it is longer than the limit: `Data`.
    ReadBody { limit: usize },
    /// Start to go through the fields of a multipart body: `Done`.
    OpenForm,
    /// The next field of the form: `Field` or `NoField`.
    NextField,
    /// The content of the field that came last: `Data`.
    ReadField,
}

pub type FsOp = FsOpOf<Vec<u8>, String>;

pub type FsOpView = FsOpOf<Seq<u8>, Seq<char>>;

impl View for FsOpOf<Vec<u8>, String> {
    type V = FsOpOf<Seq<u8>, Seq<char>>;

    open spec fn view(&self) -> FsOpOf<Seq<u8>, Seq<char>> {
        match self {
            FsOpOf::FindAccount(name) => FsOpOf::FindAccount(name@),
            FsOpOf::UserName(uid) => FsOpOf::UserName(*uid),
            FsOpOf::GroupName(gid) => FsOpOf::GroupName(*gid),
            FsOpOf::Canonicalize(path) => FsOpOf::Canonicalize(path@),
            FsOpOf::Exists(path) => FsOpOf::Exists(path@),
            FsOpOf::Metadata(path) => FsOpOf::Metadata(path@),
            FsOpOf::LinkMetadata(path) => FsOpOf::LinkMetadata(path@),
            FsOpOf::OpenDir(path) => FsOpOf::OpenDir(path@),
            FsOpOf::NextEntry => FsOpOf::NextEntry,
            FsOpOf::ReadFile(path) => FsOpOf::ReadFile(path@),
            FsOpOf::CreateDirAll(path) => FsOpOf::CreateDirAll(path@),
            FsOpOf::Rename { from, to } => FsOpOf::Rename { from: from@, to: to@ },
            FsOpOf::RemoveTree(path) => FsOpOf::RemoveTree(path@),
            FsOpOf::RemoveFile(path) => FsOpOf::RemoveFile(path@),
            FsOpOf::WriteFile { path, data } => FsOpOf::WriteFile { path: path@, data: data@ },
            FsOpOf::SetMode { path, mode } => FsOpOf::SetMode { path: path@, mode: *mode },
            FsOpOf::SetOwner { path, account } => FsOpOf::SetOwner { path: path@, account: *account },
            FsOpOf::ReadBody { limit } => FsOpOf::ReadBody { limit: *limit },
            FsOpOf::OpenForm => FsOpOf::OpenForm,
            FsOpOf::NextField => FsOpOf::NextField,
            FsOpOf::ReadField => FsOpOf::ReadField,
        }
    }
}

/// The questions that change something on the host.
pub open spec fn modifies(op: FsOpView) -> bool {
    match op {
        FsOpOf::CreateDirAll(_) => true,
        FsOpOf::Rename { .. } => true,
        FsOpOf::RemoveTree(_) => true,
        FsOpOf::RemoveFile(_) => true,
        FsOpOf::WriteFile { .. } => true,
        FsOpOf::SetMode { .. } => true,
        FsOpOf::SetOwner { .. } => true,
        _ => false,
    }
}

/// What the host answers. `Failed` may answer every question but the search for an account, the
/// names of users and groups, and whether something exists.
#[verifier::ext_equal]
#[derive(Clone, Debug, PartialEq, Eq)]
pub enum AnswerOf<B, T> {
    Failed(FsErrorOf<T>),
    Account(LookupOf<T>),
    Name(T),
    NoName,
    Path(B),
    Exists(bool),
    Metadata(MetadataOf<T>),
    Entry { path: B, metadata: MetadataOf<T> },
    NoEntry,
    Data(B),
    Done,
    /// A field of a form, with its name where it has one.
    Field { name: Option<T> },
    NoField,
}

pub type Answer = AnswerOf<Vec<u8>, String>;

pub type AnswerView = AnswerOf<Seq<u8>, Seq<char>>;

impl View for AnswerOf<Vec<u8>, String> {
    type V = AnswerOf<Seq<u8>, Seq<char>>;

    open spec fn view(&self) -> AnswerOf<Seq<u8>, Seq<char>> {
        match self {
            AnswerOf::Failed(error) => AnswerOf::Failed(error@),
            AnswerOf::Account(lookup) => AnswerOf::Account(lookup@),
            AnswerOf::Name(name) => AnswerOf::Name(name@),
            AnswerOf::NoName => AnswerOf::NoName,
            AnswerOf::Path(path) => AnswerOf::Path(path@),
            AnswerOf::Exists(exists) => AnswerOf::Exists(*exists),
            AnswerOf::Metadata(metadata) => AnswerOf::Metadata(metadata@),
            AnswerOf::Entry { path, metadata } => AnswerOf::Entry { path: path@, metadata: metadata@ },
            AnswerOf::NoEntry => AnswerOf::NoEntry,
            AnswerOf::Data(data) => AnswerOf::Data(data@),
            AnswerOf::Done => AnswerOf::Done,
            AnswerOf::Field { name } => AnswerOf::Field { name: crate::text::optional(*name) },
            AnswerOf::NoField => AnswerOf::NoField,
        }
    }
}

/// What a request does next: ask the host and wait in a new state, end with a result, or end with
/// an error.
#[verifier::ext_equal]
#[derive(Clone, Debug, PartialEq, Eq)]
pub enum StepOf<O, M, R, E> {
    Ask(O, M),
    Finish(R),
    Fail(E),
}

pub type Step<M, R> = StepOf<FsOp, M, R, FsError>;

pub type StepView<M, R> = StepOf<FsOpView, M, R, FsErrorView>;

impl<O: View, M: View, R: View, E: View> View for StepOf<O, M, R, E> {
    type V = StepOf<O::V, M::V, R::V, E::V>;

    open spec fn view(&self) -> Self::V {
        match self {
            StepOf::Ask(op, machine) => StepOf::Ask(op@, machine@),
            StepOf::Finish(result) => StepOf::Finish(result@),
            StepOf::Fail(error) => StepOf::Fail(error@),
        }
    }
}

/// What a request and the host say to each other from a step on, when the request goes on by a rule and
/// the host gives these answers: each question with its answer.
pub open spec fn exchange<M, R, E>(
    rule: spec_fn(M, AnswerView) -> StepOf<FsOpView, M, R, E>,
    step: StepOf<FsOpView, M, R, E>,
    answers: Seq<AnswerView>,
) -> Seq<(FsOpView, AnswerView)>
    decreases answers.len(),
{
    match step {
        StepOf::Ask(op, machine) => if answers.len() == 0 {
            Seq::empty()
        } else {
            seq![(op, answers[0])] + exchange(rule, rule(machine, answers[0]), answers.skip(1))
        },
        _ => Seq::empty(),
    }
}

/// How a request stands after these answers of the host.
pub open spec fn answered<M, R, E>(
    rule: spec_fn(M, AnswerView) -> StepOf<FsOpView, M, R, E>,
    step: StepOf<FsOpView, M, R, E>,
    answers: Seq<AnswerView>,
) -> StepOf<FsOpView, M, R, E>
    decreases answers.len(),
{
    match step {
        StepOf::Ask(_, machine) => if answers.len() == 0 {
            step
        } else {
            answered(rule, rule(machine, answers[0]), answers.skip(1))
        },
        _ => step,
    }
}

/// How a request stands after a conversation, when it goes on by a rule: a script of questions, each with
/// its answer, from a place in it on. There is nothing to tell where the request asks another question
/// than the script has next, or none.
pub open spec fn scripted<O, A, M, R, E>(
    rule: spec_fn(M, A) -> StepOf<O, M, R, E>,
    step: StepOf<O, M, R, E>,
    script: Seq<(O, A)>,
    place: int,
) -> Option<StepOf<O, M, R, E>>
    decreases script.len() - place,
{
    if place >= script.len() {
        Some(step)
    } else {
        match step {
            StepOf::Ask(op, machine) => if op == script[place].0 {
                scripted(rule, rule(machine, script[place].1), script, place + 1)
            } else {
                None
            },
            _ => None,
        }
    }
}

/// A conversation in two parts takes a request as far as one after the other.
pub proof fn lemma_scripted_in_parts<O, A, M, R, E>(
    rule: spec_fn(M, A) -> StepOf<O, M, R, E>,
    step: StepOf<O, M, R, E>,
    first: Seq<(O, A)>,
    second: Seq<(O, A)>,
    place: int,
)
    requires
        0 <= place <= first.len(),
        scripted(rule, step, first, place) is Some,
    ensures
        scripted(rule, step, first + second, place) == scripted(
            rule,
            scripted(rule, step, first, place)->0,
            second,
            0,
        ),
    decreases first.len() - place,
{
    if place == first.len() {
        lemma_scripted_behind(rule, step, first, second, 0);
    } else if let StepOf::Ask(op, machine) = step {
        lemma_scripted_in_parts(rule, rule(machine, first[place].1), first, second, place + 1);
    }
}

/// The second part of a conversation does not depend on where it begins.
proof fn lemma_scripted_behind<O, A, M, R, E>(
    rule: spec_fn(M, A) -> StepOf<O, M, R, E>,
    step: StepOf<O, M, R, E>,
    first: Seq<(O, A)>,
    second: Seq<(O, A)>,
    place: int,
)
    requires
        0 <= place <= second.len(),
    ensures
        scripted(rule, step, first + second, first.len() + place) == scripted(rule, step, second, place),
    decreases second.len() - place,
{
    if place < second.len() {
        assert((first + second)[first.len() + place] == second[place]);
        if let StepOf::Ask(op, machine) = step {
            lemma_scripted_behind(rule, rule(machine, second[place].1), first, second, place + 1);
        }
    }
}

/// A request that hands each question and answer of another one on goes along with it.
pub proof fn lemma_goes_along<O, A, M, R, E, N, S, F>(
    inner: spec_fn(M, A) -> StepOf<O, M, R, E>,
    outer: spec_fn(N, A) -> StepOf<O, N, S, F>,
    within: spec_fn(StepOf<O, M, R, E>) -> StepOf<O, N, S, F>,
    step: StepOf<O, M, R, E>,
    script: Seq<(O, A)>,
    place: int,
)
    requires
        scripted(inner, step, script, place) is Some,
        forall|op: O, machine: M| #[trigger]
            within(StepOf::Ask(op, machine)) matches StepOf::Ask(asked, _) && asked == op,
        forall|op: O, machine: M, answer: A|
            #![trigger within(StepOf::Ask(op, machine)), inner(machine, answer)]
            outer(within(StepOf::Ask(op, machine))->Ask_1, answer) == within(inner(machine, answer)),
    ensures
        scripted(outer, within(step), script, place) == Some(within(scripted(inner, step, script, place)->0)),
    decreases script.len() - place,
{
    if place < script.len() {
        if let StepOf::Ask(op, machine) = step {
            assert(within(StepOf::Ask(op, machine)) is Ask);
            lemma_goes_along(inner, outer, within, inner(machine, script[place].1), script, place + 1);
        }
    }
}

/// Answers in two parts take a request as far as the answers in one.
pub proof fn lemma_answered_in_parts<M, R, E>(
    rule: spec_fn(M, AnswerView) -> StepOf<FsOpView, M, R, E>,
    step: StepOf<FsOpView, M, R, E>,
    first: Seq<AnswerView>,
    second: Seq<AnswerView>,
)
    ensures
        answered(rule, step, first + second) == answered(rule, answered(rule, step, first), second),
        exchange(rule, step, first + second) == exchange(rule, step, first) + exchange(
            rule,
            answered(rule, step, first),
            second,
        ),
    decreases first.len(),
{
    if first.len() == 0 {
        assert(first + second =~= second);
        assert(exchange(rule, step, first) =~= Seq::<(FsOpView, AnswerView)>::empty());
    } else if let StepOf::Ask(op, machine) = step {
        let next = rule(machine, first[0]);
        lemma_answered_in_parts(rule, next, first.skip(1), second);
        assert((first + second).skip(1) =~= first.skip(1) + second);
    }
    assert(exchange(rule, step, first + second) =~= exchange(rule, step, first) + exchange(
        rule,
        answered(rule, step, first),
        second,
    ));
}

/// The answer of a host that does everything that it is asked to do and finds an account.
pub open spec fn obliging(op: FsOpView, account: Account) -> AnswerView {
    match op {
        FsOpOf::FindAccount(_) => AnswerOf::Account(LookupOf::Found(account)),
        _ => AnswerOf::Done,
    }
}

/// Whether a question belongs to a change: it asks for one, or for the account that something is given to.
pub open spec fn belongs(op: FsOpView) -> bool {
    modifies(op) || op is FindAccount
}

/// The changes that a request asks for from a step on when it goes on by a rule and the host obliges, up
/// to the first question that belongs to no change, for at most so many steps.
pub open spec fn carried_out<M, R, E>(
    rule: spec_fn(M, AnswerView) -> StepOf<FsOpView, M, R, E>,
    step: StepOf<FsOpView, M, R, E>,
    account: Account,
    steps: nat,
) -> Seq<FsOpView>
    decreases steps,
{
    match step {
        StepOf::Ask(op, machine) => if steps == 0 || !belongs(op) {
            Seq::empty()
        } else {
            let rest = carried_out(rule, rule(machine, obliging(op, account)), account, (steps - 1) as nat);
            if modifies(op) {
                seq![op] + rest
            } else {
                rest
            }
        },
        _ => Seq::empty(),
    }
}

/// How a request stands once the host has obliged, after at most so many steps.
pub open spec fn after_changes<M, R, E>(
    rule: spec_fn(M, AnswerView) -> StepOf<FsOpView, M, R, E>,
    step: StepOf<FsOpView, M, R, E>,
    account: Account,
    steps: nat,
) -> StepOf<FsOpView, M, R, E>
    decreases steps,
{
    match step {
        StepOf::Ask(op, machine) => if steps == 0 || !belongs(op) {
            step
        } else {
            after_changes(rule, rule(machine, obliging(op, account)), account, (steps - 1) as nat)
        },
        _ => step,
    }
}

/// The failure with which a request ends when the host answers another question than the one asked.
pub open spec fn mismatch() -> FsErrorOf<Seq<char>> {
    FsErrorOf { kind: ErrorKind::Other, message: "unexpected answer from the host"@ }
}

/// Makes an error.
pub fn error(kind: ErrorKind, message: &str) -> (error: FsError)
    ensures
        error@ == (FsErrorOf { kind, message: message@ }),
{
    FsErrorOf { kind, message: message.to_owned() }
}

/// The error for an answer to another question.
pub fn mismatch_error() -> (failure: FsError)
    ensures
        failure@ == mismatch(),
{
    error(ErrorKind::Other, "unexpected answer from the host")
}

} // verus!
