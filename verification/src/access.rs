//! Who makes a filesystem request, and what they may do.

use crate::credentials::{basic_credentials, read_credentials, CredentialsOf};
use crate::fsutil::{
    bits_for, class_bits, found_account, is_unrestricted, require_account, unrestricted, user_refusal,
    validate_username,
};
use crate::host::{
    error, mismatch, mismatch_error, modifies, Account, Answer, AnswerOf, AnswerView, ErrorKind, FsError,
    FsErrorOf, FsErrorView, FsOpOf, FsOpView, Lookup, LookupOf, LookupView, Metadata, MetadataOf, MetadataView,
    Step, StepOf, StepView,
};
use crate::text::{copy_bytes, header_bytes, same_text};
use vstd::prelude::*;
use vstd::utf8::*;

verus! {

/// The failure of a request that is not acceptable as it stands.
pub open spec fn unacceptable(message: Seq<char>) -> FsErrorView {
    FsErrorOf { kind: ErrorKind::InvalidInput, message }
}

/// The user that an `Authorization` header names: `root` where there is no header or the name is
/// empty.
pub open spec fn requesting_user(credentials: CredentialsOf<Seq<char>>) -> Result<Seq<char>, FsErrorView> {
    match credentials {
        CredentialsOf::Absent => Ok("root"@),
        CredentialsOf::NotText => Err(unacceptable("invalid Authorization header"@)),
        CredentialsOf::NotBasic => Err(unacceptable("Authorization must use Basic"@)),
        CredentialsOf::NotBase64 => Err(unacceptable("invalid Basic credentials"@)),
        CredentialsOf::NotUtf8 => Err(unacceptable("invalid Basic credentials"@)),
        CredentialsOf::User(name) => if name.len() == 0 {
            Ok("root"@)
        } else {
            Ok(name)
        },
    }
}

/// Names the user that a header stands for, given what it says.
pub fn named_user(credentials: CredentialsOf<String>) -> (user: Result<String, FsError>)
    ensures
        match user {
            Ok(name) => requesting_user(credentials@) == Ok::<Seq<char>, FsErrorView>(name@),
            Err(failure) => requesting_user(credentials@) == Err::<Seq<char>, FsErrorView>(failure@),
        },
{
    match credentials {
        CredentialsOf::Absent => Ok("root".to_owned()),
        CredentialsOf::NotText => Err(error(ErrorKind::InvalidInput, "invalid Authorization header")),
        CredentialsOf::NotBasic => Err(error(ErrorKind::InvalidInput, "Authorization must use Basic")),
        CredentialsOf::NotBase64 => Err(error(ErrorKind::InvalidInput, "invalid Basic credentials")),
        CredentialsOf::NotUtf8 => Err(error(ErrorKind::InvalidInput, "invalid Basic credentials")),
        CredentialsOf::User(name) => if name.as_str().is_empty() {
            Ok("root".to_owned())
        } else {
            Ok(name)
        },
    }
}

/// Names the user that an `Authorization` header stands for. Whether the user exists is not checked
/// here.
pub fn request_user(authorization: Option<&[u8]>) -> (user: Result<String, FsError>)
    ensures
        match user {
            Ok(name) => requesting_user(basic_credentials(header_bytes(authorization)))
                == Ok::<Seq<char>, FsErrorView>(name@),
            Err(failure) => requesting_user(basic_credentials(header_bytes(authorization)))
                == Err::<Seq<char>, FsErrorView>(failure@),
        },
{
    named_user(read_credentials(authorization))
}

/// The user that makes a request has a name.
pub proof fn law_requesting_user_has_a_name(credentials: CredentialsOf<Seq<char>>)
    ensures
        requesting_user(credentials) matches Ok(name) ==> name.len() > 0,
{
    reveal_strlit("root");
}

/// The path that has to exist for a request.
pub open spec fn required_path(raw_path: Seq<char>) -> Result<Seq<u8>, FsErrorView> {
    if raw_path.len() == 0 {
        Err(unacceptable("path is required"@))
    } else {
        Ok(encode_utf8(raw_path))
    }
}

/// Takes the path that has to exist for a request.
pub fn existing_path(raw_path: &str) -> (path: Result<Vec<u8>, FsError>)
    ensures
        match path {
            Ok(path) => required_path(raw_path@) == Ok::<Seq<u8>, FsErrorView>(path@),
            Err(failure) => required_path(raw_path@) == Err::<Seq<u8>, FsErrorView>(failure@),
        },
{
    if raw_path.is_empty() {
        Err(error(ErrorKind::InvalidInput, "path is required"))
    } else {
        Ok(copy_bytes(raw_path.as_bytes()))
    }
}

/// Whether an account has all of the permissions that are asked of the owner, of the group, or of
/// everyone else.
pub open spec fn has_bits(account: Account, metadata: MetadataView, owner: u32, group: u32, other: u32) -> bool {
    let bits = class_bits(account, metadata, owner, group, other);
    metadata.mode & bits == bits
}

/// Tests whether the user has all of the permissions that are asked of the owner, of the group, or of
/// everyone else. The user has to have an account.
pub fn can_access_directory(metadata: &Metadata, lookup: &Lookup, owner: u32, group: u32, other: u32) -> (access: Result<
    bool,
    FsError,
>)
    ensures
        match (access, found_account(lookup@)) {
            (Ok(granted), Ok(account)) => granted == has_bits(account, metadata@, owner, group, other),
            (Err(failure), Err(expected)) => failure@ == expected,
            _ => false,
        },
{
    let account: Account = require_account(lookup)?;
    let bits: u32 = bits_for(account, metadata, owner, group, other);
    Ok(metadata.mode & bits == bits)
}

/// What a user wants of a path: to list or watch a directory, to look at it, or to change what stands in
/// it.
#[derive(Clone, Copy, Debug, PartialEq, Eq, Structural)]
pub enum Right {
    List,
    Look,
    Modify,
}

/// What the check of a right waits for.
#[verifier::ext_equal]
#[derive(Debug, PartialEq, Eq)]
pub enum AccessStageOf<B, T> {
    /// The account of the user, to see that the user exists, before the path is asked about.
    Validate { path: B },
    /// What is known of the path.
    Metadata,
    /// The account of the user, to see that the user exists, once the path is known to be a directory.
    User,
    /// The account of the user, to see which permissions hold for it.
    Account { metadata: MetadataOf<T> },
}

/// The check of a right of a user. The account is searched anew whenever it matters.
#[verifier::ext_equal]
#[derive(Debug, PartialEq, Eq)]
pub struct AccessCheckOf<B, T> {
    pub right: Right,
    pub username: T,
    pub stage: AccessStageOf<B, T>,
}

pub type AccessCheck = AccessCheckOf<Vec<u8>, String>;

pub type AccessCheckView = AccessCheckOf<Seq<u8>, Seq<char>>;

pub type AccessStep = Step<AccessCheck, ()>;

pub type AccessStepView = StepView<AccessCheckView, ()>;

impl View for AccessStageOf<Vec<u8>, String> {
    type V = AccessStageOf<Seq<u8>, Seq<char>>;

    open spec fn view(&self) -> AccessStageOf<Seq<u8>, Seq<char>> {
        match self {
            AccessStageOf::Validate { path } => AccessStageOf::Validate { path: path@ },
            AccessStageOf::Metadata => AccessStageOf::Metadata,
            AccessStageOf::User => AccessStageOf::User,
            AccessStageOf::Account { metadata } => AccessStageOf::Account { metadata: metadata@ },
        }
    }
}

impl View for AccessCheckOf<Vec<u8>, String> {
    type V = AccessCheckOf<Seq<u8>, Seq<char>>;

    open spec fn view(&self) -> AccessCheckOf<Seq<u8>, Seq<char>> {
        AccessCheckOf { right: self.right, username: self.username@, stage: self.stage@ }
    }
}

/// Whether an account has a right to what is known of a path. To look at a directory it has to be
/// readable and searchable, to change what stands in it writable and searchable.
pub open spec fn has_right(right: Right, account: Account, metadata: MetadataView) -> bool {
    match right {
        Right::List => true,
        Right::Look => has_bits(account, metadata, 0o500, 0o050, 0o005),
        Right::Modify => has_bits(account, metadata, 0o300, 0o030, 0o003),
    }
}

/// The failure of a user without a right.
pub open spec fn denial(right: Right) -> FsErrorView {
    FsErrorOf {
        kind: ErrorKind::PermissionDenied,
        message: match right {
            Right::Modify => "directory modification denied"@,
            _ => "directory access denied"@,
        },
    }
}

/// Begins the check of a right to a path. Of a directory to be listed it is asked first what it is.
/// Otherwise `root` has every right, and of every other user it is asked first whether they exist; the
/// empty name needs no account for that.
pub open spec fn check_start(right: Right, path: Seq<u8>, username: Seq<char>) -> AccessStepView {
    let known = AccessCheckOf { right, username, stage: AccessStageOf::Metadata };
    match right {
        Right::List => StepOf::Ask(FsOpOf::Metadata(path), known),
        _ => if username == "root"@ {
            StepOf::Finish(())
        } else if unrestricted(username) {
            StepOf::Ask(FsOpOf::Metadata(path), known)
        } else {
            StepOf::Ask(
                FsOpOf::FindAccount(username),
                AccessCheckOf { right, username, stage: AccessStageOf::Validate { path } },
            )
        },
    }
}

/// Goes on once it is known what stands at the path. Only a directory is listed, by a user that exists.
/// What is no directory may be looked at. Otherwise the permissions decide.
pub open spec fn check_known(check: AccessCheckView, metadata: MetadataView) -> AccessStepView {
    let account = AccessCheckOf { stage: AccessStageOf::Account { metadata }, ..check };
    match check.right {
        Right::List => if !metadata.is_dir {
            StepOf::Fail(unacceptable("path is not a directory"@))
        } else if unrestricted(check.username) {
            StepOf::Finish(())
        } else {
            StepOf::Ask(
                FsOpOf::FindAccount(check.username),
                AccessCheckOf { stage: AccessStageOf::User, ..check },
            )
        },
        Right::Look => if !metadata.is_dir {
            StepOf::Finish(())
        } else {
            StepOf::Ask(FsOpOf::FindAccount(check.username), account)
        },
        Right::Modify => StepOf::Ask(FsOpOf::FindAccount(check.username), account),
    }
}

/// Goes on with an answer of the host.
pub open spec fn check_next(check: AccessCheckView, answer: AnswerView) -> AccessStepView {
    match (check.stage, answer) {
        (AccessStageOf::Validate { path }, AnswerOf::Account(lookup)) => match user_refusal(check.username, lookup) {
            Some(failure) => StepOf::Fail(failure),
            None => StepOf::Ask(
                FsOpOf::Metadata(path),
                AccessCheckOf { stage: AccessStageOf::Metadata, ..check },
            ),
        },
        (AccessStageOf::Metadata, AnswerOf::Metadata(metadata)) => check_known(check, metadata),
        (AccessStageOf::User, AnswerOf::Account(lookup)) => match user_refusal(check.username, lookup) {
            Some(failure) => StepOf::Fail(failure),
            None => StepOf::Finish(()),
        },
        (AccessStageOf::Account { metadata }, AnswerOf::Account(lookup)) => match found_account(lookup) {
            Err(failure) => StepOf::Fail(failure),
            Ok(account) => if has_right(check.right, account, metadata) {
                StepOf::Finish(())
            } else {
                StepOf::Fail(denial(check.right))
            },
        },
        (_, AnswerOf::Failed(failure)) => StepOf::Fail(failure),
        _ => StepOf::Fail(mismatch()),
    }
}

/// The rule by which a check goes on.
pub open spec fn checking() -> spec_fn(AccessCheckView, AnswerView) -> AccessStepView {
    |check: AccessCheckView, answer: AnswerView| check_next(check, answer)
}

/// Begins the check of a right to a path.
fn start_check(right: Right, path: Vec<u8>, username: &str) -> (step: AccessStep)
    ensures
        step@ == check_start(right, path@, username@),
{
    match right {
        Right::List => StepOf::Ask(
            FsOpOf::Metadata(path),
            AccessCheckOf { right, username: username.to_owned(), stage: AccessStageOf::Metadata },
        ),
        _ => if same_text(username, "root") {
            StepOf::Finish(())
        } else if is_unrestricted(username) {
            StepOf::Ask(
                FsOpOf::Metadata(path),
                AccessCheckOf { right, username: username.to_owned(), stage: AccessStageOf::Metadata },
            )
        } else {
            StepOf::Ask(
                FsOpOf::FindAccount(username.to_owned()),
                AccessCheckOf { right, username: username.to_owned(), stage: AccessStageOf::Validate { path } },
            )
        },
    }
}

/// Begins to check that a path is a directory and that the user exists.
pub fn validate_directory(path: Vec<u8>, username: &str) -> (step: AccessStep)
    ensures
        step@ == check_start(Right::List, path@, username@),
{
    start_check(Right::List, path, username)
}

/// Begins to check that a user may look at a path.
pub fn validate_directory_or_readable(path: Vec<u8>, username: &str) -> (step: AccessStep)
    ensures
        step@ == check_start(Right::Look, path@, username@),
{
    start_check(Right::Look, path, username)
}

/// Begins to check that a user may change what stands in a directory.
pub fn ensure_can_modify(path: Vec<u8>, username: &str) -> (step: AccessStep)
    ensures
        step@ == check_start(Right::Modify, path@, username@),
{
    start_check(Right::Modify, path, username)
}

impl AccessCheckOf<Vec<u8>, String> {
    /// Goes on once it is known what stands at the path.
    fn known(self, metadata: Metadata) -> (step: AccessStep)
        ensures
            step@ == check_known(self@, metadata@),
    {
        let AccessCheckOf { right, username, .. } = self;
        match right {
            Right::List => if !metadata.is_dir {
                StepOf::Fail(error(ErrorKind::InvalidInput, "path is not a directory"))
            } else if is_unrestricted(username.as_str()) {
                StepOf::Finish(())
            } else {
                StepOf::Ask(
                    FsOpOf::FindAccount(username.clone()),
                    AccessCheckOf { right, username, stage: AccessStageOf::User },
                )
            },
            Right::Look => if !metadata.is_dir {
                StepOf::Finish(())
            } else {
                StepOf::Ask(
                    FsOpOf::FindAccount(username.clone()),
                    AccessCheckOf { right, username, stage: AccessStageOf::Account { metadata } },
                )
            },
            Right::Modify => StepOf::Ask(
                FsOpOf::FindAccount(username.clone()),
                AccessCheckOf { right, username, stage: AccessStageOf::Account { metadata } },
            ),
        }
    }

    /// Goes on with an answer of the host.
    pub fn step(self, answer: Answer) -> (step: AccessStep)
        ensures
            step@ == check_next(self@, answer@),
    {
        let AccessCheckOf { right, username, stage } = self;
        match (stage, answer) {
            (AccessStageOf::Validate { path }, AnswerOf::Account(lookup)) => match validate_username(
                username.as_str(),
                &lookup,
            ) {
                Err(failure) => StepOf::Fail(failure),
                Ok(()) => StepOf::Ask(
                    FsOpOf::Metadata(path),
                    AccessCheckOf { right, username, stage: AccessStageOf::Metadata },
                ),
            },
            (AccessStageOf::Metadata, AnswerOf::Metadata(metadata)) => {
                let check: AccessCheck = AccessCheckOf { right, username, stage: AccessStageOf::Metadata };
                check.known(metadata)
            },
            (AccessStageOf::User, AnswerOf::Account(lookup)) => match validate_username(username.as_str(), &lookup) {
                Err(failure) => StepOf::Fail(failure),
                Ok(()) => StepOf::Finish(()),
            },
            (AccessStageOf::Account { metadata }, AnswerOf::Account(lookup)) => {
                let access: Result<bool, FsError> = match right {
                    Right::List => match require_account(&lookup) {
                        Ok(_) => Ok(true),
                        Err(failure) => Err(failure),
                    },
                    Right::Look => can_access_directory(&metadata, &lookup, 0o500, 0o050, 0o005),
                    Right::Modify => can_access_directory(&metadata, &lookup, 0o300, 0o030, 0o003),
                };
                match (access, right) {
                    (Err(failure), _) => StepOf::Fail(failure),
                    (Ok(true), _) => StepOf::Finish(()),
                    (Ok(false), Right::Modify) => StepOf::Fail(
                        error(ErrorKind::PermissionDenied, "directory modification denied"),
                    ),
                    (Ok(false), _) => StepOf::Fail(error(ErrorKind::PermissionDenied, "directory access denied")),
                }
            },
            (_, AnswerOf::Failed(failure)) => StepOf::Fail(failure),
            _ => StepOf::Fail(mismatch_error()),
        }
    }
}

/// No permission bits keep `root` from looking at a path or from changing a directory: nothing is asked.
pub proof fn law_root_bypasses_permission_bits(path: Seq<u8>)
    ensures
        check_start(Right::Look, path, "root"@) == AccessStepView::Finish(()),
        check_start(Right::Modify, path, "root"@) == AccessStepView::Finish(()),
{
}

/// The stage of a check fits its right.
pub open spec fn fitting(check: AccessCheckView) -> bool {
    match check.stage {
        AccessStageOf::Validate { .. } => check.right !is List,
        AccessStageOf::Metadata => true,
        AccessStageOf::User => check.right is List,
        AccessStageOf::Account { .. } => check.right !is List,
    }
}

/// A check begins with its right and its user, and with a question that changes nothing.
pub proof fn law_checks_start_fitting(right: Right, path: Seq<u8>, username: Seq<char>)
    ensures
        check_start(right, path, username) matches StepOf::Ask(op, check) ==> {
            &&& fitting(check)
            &&& check.right == right
            &&& check.username == username
            &&& !modifies(op)
        },
        check_start(right, path, username) is Finish ==> username == "root"@,
{
}

/// A right to change a directory is granted only when what is known of the directory and the account
/// that was found last give it. A check keeps its right and its user, and changes nothing.
pub proof fn law_rights_are_checked(check: AccessCheckView, answer: AnswerView)
    requires
        fitting(check),
    ensures
        check_next(check, answer) is Finish && check.right is Modify ==> {
            &&& check.stage matches AccessStageOf::Account { metadata }
            &&& answer matches AnswerOf::Account(LookupOf::Found(account))
            &&& has_right(Right::Modify, account, metadata)
        },
        check_next(check, answer) matches StepOf::Ask(op, next) ==> {
            &&& fitting(next)
            &&& next.right == check.right
            &&& next.username == check.username
            &&& !modifies(op)
        },
{
}

/// A directory is listed or watched only when it is one, and only for a user that was just found to
/// exist or needs no account.
pub proof fn law_only_directories_are_listed(check: AccessCheckView, answer: AnswerView)
    requires
        check.right is List,
        check.stage is Metadata,
    ensures
        check_next(check, answer) is Finish ==> {
            &&& unrestricted(check.username)
            &&& answer matches AnswerOf::Metadata(metadata)
            &&& metadata.is_dir
        },
        check_next(check, answer) matches StepOf::Ask(op, next) ==> {
            &&& answer matches AnswerOf::Metadata(metadata)
            &&& metadata.is_dir
            &&& op == FsOpView::FindAccount(check.username)
            &&& forall|lookup: LookupView| (#[trigger] check_next(next, AnswerOf::Account(lookup))) is Finish
                <==> user_refusal(check.username, lookup) is None
        },
{
}

/// The owner of a directory is held to the bits of the owner alone, a member of its group to those of
/// the group, and everyone else to the rest: the other bits make no difference.
pub proof fn law_one_class_of_bits_decides(account: Account, metadata: MetadataView, mode: u32)
    requires
        ({
            let bits = class_bits(account, metadata, 0o300, 0o030, 0o003);
            mode & bits == metadata.mode & bits
        }),
    ensures
        has_right(Right::Modify, account, metadata) == has_right(
            Right::Modify,
            account,
            MetadataView { mode, ..metadata },
        ),
{
}

} // verus!
