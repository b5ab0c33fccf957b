//! Rules that the file and filesystem endpoints share: which user acts, and where a path that may
//! not exist yet leads.

use crate::host::{
    error, mismatch, mismatch_error, scripted, Account, Answer, AnswerOf, AnswerView, ErrorKind, FsError,
    FsErrorOf, FsErrorView, FsOpOf, FsOpView, Lookup, LookupOf, LookupView, Metadata, MetadataView, Step,
    StepOf, StepView,
};
use crate::path::{
    below, cut, file_name, file_name_of, is_component, join_below, last_segment, last_slash,
    law_parent_and_file_name, lemma_cut_is_shorter, lemma_trimmed_is_a_beginning, lexical_normalize,
    normal_components, normal_form, parent, parent_dir, parent_path, rendered, trimmed, unrooted, SLASH,
};
use crate::text::{append_bytes, copy_bytes, join, same_text};
use vstd::prelude::*;
use vstd::slice::*;
use vstd::utf8::*;

verus! {

/// The names of a user that is held to no permission: `root`, and the empty name, which stands for
/// it.
pub open spec fn unrestricted(username: Seq<char>) -> bool {
    username.len() == 0 || username == "root"@
}

/// The failure in a result, where it is one.
pub open spec fn failure_of<A>(result: Result<A, FsError>) -> Option<FsErrorView> {
    match result {
        Ok(_) => None,
        Err(failure) => Some(failure@),
    }
}

/// Why a user cannot act, where they cannot: the search for the account failed or found nothing.
pub open spec fn user_refusal(username: Seq<char>, lookup: LookupView) -> Option<FsErrorView> {
    if unrestricted(username) {
        None
    } else {
        match lookup {
            LookupOf::Found(_) => None,
            LookupOf::Missing => Some(
                FsErrorOf { kind: ErrorKind::NotFound, message: "user "@ + username + " not found"@ },
            ),
            LookupOf::Failed(message) => Some(FsErrorOf { kind: ErrorKind::Other, message }),
        }
    }
}

/// The account that a search found.
pub open spec fn found_account(lookup: LookupView) -> Result<Account, FsErrorView> {
    match lookup {
        LookupOf::Found(account) => Ok(account),
        LookupOf::Missing => Err(FsErrorOf { kind: ErrorKind::NotFound, message: "user not found"@ }),
        LookupOf::Failed(message) => Err(FsErrorOf { kind: ErrorKind::Other, message }),
    }
}

/// Whether a user is held to no permission.
pub fn is_unrestricted(username: &str) -> (free: bool)
    ensures
        free == unrestricted(username@),
{
    username.is_empty() || same_text(username, "root")
}

/// Checks that a user exists, given what the search for the account brought. The search does not
/// matter for an unrestricted user.
pub fn validate_username(username: &str, lookup: &Lookup) -> (result: Result<(), FsError>)
    ensures
        failure_of(result) == user_refusal(username@, lookup@),
{
    if is_unrestricted(username) {
        return Ok(());
    }
    match lookup {
        LookupOf::Found(_) => Ok(()),
        LookupOf::Missing => {
            let start: String = join("user ", username);
            let message: String = join(start.as_str(), " not found");
            Err(FsErrorOf { kind: ErrorKind::NotFound, message })
        },
        LookupOf::Failed(message) => Err(FsErrorOf { kind: ErrorKind::Other, message: message.clone() }),
    }
}

/// The account of a user that has to have one.
pub fn require_account(lookup: &Lookup) -> (result: Result<Account, FsError>)
    ensures
        match result {
            Ok(account) => found_account(lookup@) == Ok::<Account, FsErrorView>(account),
            Err(failure) => found_account(lookup@) == Err::<Account, FsErrorView>(failure@),
        },
{
    match lookup {
        LookupOf::Found(account) => Ok(*account),
        LookupOf::Missing => Err(error(ErrorKind::NotFound, "user not found")),
        LookupOf::Failed(message) => Err(FsErrorOf { kind: ErrorKind::Other, message: message.clone() }),
    }
}

/// Whom a new file is given to: nobody else for an unrestricted user, otherwise the account of the
/// user.
pub open spec fn new_owner(username: Seq<char>, lookup: LookupView) -> Result<Option<Account>, FsErrorView> {
    if unrestricted(username) {
        Ok(None)
    } else {
        match found_account(lookup) {
            Ok(account) => Ok(Some(account)),
            Err(failure) => Err(failure),
        }
    }
}

/// Decides whom a new file is given to.
pub fn apply_owner(username: &str, lookup: &Lookup) -> (result: Result<Option<Account>, FsError>)
    ensures
        match result {
            Ok(owner) => new_owner(username@, lookup@) == Ok::<Option<Account>, FsErrorView>(owner),
            Err(failure) => new_owner(username@, lookup@) == Err::<Option<Account>, FsErrorView>(failure@),
        },
{
    if is_unrestricted(username) {
        return Ok(None);
    }
    match require_account(lookup) {
        Ok(account) => Ok(Some(account)),
        Err(failure) => Err(failure),
    }
}

/// The last name of a path as text, or another text where the path has none or it is no UTF-8.
pub open spec fn name_or(path: Seq<u8>, fallback: Seq<char>) -> Seq<char> {
    match file_name(path) {
        Some(name) => if valid_utf8(name) {
            decode_utf8(name)
        } else {
            fallback
        },
        None => fallback,
    }
}

/// Takes the last name of a path.
pub fn name_text(path: &[u8], fallback: &str) -> (name: String)
    ensures
        name@ == name_or(path@, fallback@),
{
    match file_name_of(path) {
        Some(name) => match String::from_utf8(name) {
            Ok(name) => name,
            Err(_) => fallback.to_owned(),
        },
        None => fallback.to_owned(),
    }
}

/// The permission bits that hold for an account: those of the owner, of the group, or of everyone
/// else.
pub open spec fn class_bits(account: Account, metadata: MetadataView, owner: u32, group: u32, other: u32) -> u32 {
    if metadata.uid == account.uid {
        owner
    } else if metadata.gid == account.gid {
        group
    } else {
        other
    }
}

/// Picks the permission bits that hold for an account.
pub fn bits_for(account: Account, metadata: &Metadata, owner: u32, group: u32, other: u32) -> (bits: u32)
    ensures
        bits == class_bits(account, metadata@, owner, group, other),
{
    if metadata.uid == account.uid {
        owner
    } else if metadata.gid == account.gid {
        group
    } else {
        other
    }
}

/// The search for where a path that may not exist yet leads: the part of the path in normal form
/// that is under consideration, what follows it, whether the whole path was asked about only once so
/// far, and whether something is known to exist there.
#[verifier::ext_equal]
#[derive(Debug, PartialEq, Eq)]
pub struct WritablePathOf<B> {
    pub considered: B,
    pub rest: B,
    pub first: bool,
    pub found: bool,
}

pub type WritablePath = WritablePathOf<Vec<u8>>;

pub type WritablePathView = WritablePathOf<Seq<u8>>;

impl View for WritablePathOf<Vec<u8>> {
    type V = WritablePathOf<Seq<u8>>;

    open spec fn view(&self) -> WritablePathOf<Seq<u8>> {
        WritablePathOf { considered: self.considered@, rest: self.rest@, first: self.first, found: self.found }
    }
}

pub type ResolveStepView = StepView<WritablePathView, Seq<u8>>;

/// The failure of a path of which not even a parent exists.
pub open spec fn no_parent() -> FsErrorView {
    FsErrorOf { kind: ErrorKind::InvalidInput, message: "path has no existing parent"@ }
}

/// The beginning of the search: whether the whole path exists.
pub open spec fn resolve_start(raw_path: Seq<u8>) -> ResolveStepView {
    let requested = normal_form(raw_path);
    StepOf::Ask(
        FsOpOf::Exists(requested),
        WritablePathOf { considered: requested, rest: Seq::empty(), first: true, found: false },
    )
}

/// The rest of the search. Where nothing exists at the whole path it is asked about once more. Where
/// nothing exists at the part under consideration then, the part without its last name comes next. Where
/// something exists there, its real path is asked for, and the names left out are put behind it.
pub open spec fn resolve_next(search: WritablePathView, answer: AnswerView) -> ResolveStepView {
    match (search.found, answer) {
        (false, AnswerOf::Exists(true)) => StepOf::Ask(
            FsOpOf::Canonicalize(search.considered),
            WritablePathOf { first: false, found: true, ..search },
        ),
        (false, AnswerOf::Exists(false)) => if search.first {
            StepOf::Ask(FsOpOf::Exists(search.considered), WritablePathOf { first: false, ..search })
        } else {
            match (file_name(search.considered), parent(search.considered)) {
                (Some(_), Some(up)) => StepOf::Ask(
                    FsOpOf::Exists(up),
                    WritablePathOf {
                        considered: up,
                        rest: search.considered.skip(up.len() as int) + search.rest,
                        first: false,
                        found: false,
                    },
                ),
                _ => StepOf::Fail(no_parent()),
            }
        },
        (true, AnswerOf::Path(resolved)) => StepOf::Finish(below(resolved, unrooted(search.rest))),
        (true, AnswerOf::Failed(failure)) => StepOf::Fail(failure),
        _ => StepOf::Fail(mismatch()),
    }
}

/// The rule by which the search goes on.
pub open spec fn resolving() -> spec_fn(WritablePathView, AnswerView) -> ResolveStepView {
    |search: WritablePathView, answer: AnswerView| resolve_next(search, answer)
}

/// Starts to resolve a path that may not exist yet. The deepest ancestor that exists is resolved by
/// the host, so that links are followed exactly once, and the names below it are kept as they are.
pub fn writable_path(raw_path: &[u8]) -> (step: Step<WritablePath, Vec<u8>>)
    ensures
        step@ == resolve_start(raw_path@),
{
    let requested: Vec<u8> = lexical_normalize(raw_path);
    StepOf::Ask(
        FsOpOf::Exists(copy_bytes(&requested)),
        WritablePathOf { considered: requested, rest: Vec::new(), first: true, found: false },
    )
}

impl WritablePathOf<Vec<u8>> {
    /// Goes on with an answer of the host.
    pub fn step(self, answer: Answer) -> (step: Step<WritablePath, Vec<u8>>)
        ensures
            step@ == resolve_next(self@, answer@),
    {
        if self.found {
            match answer {
                AnswerOf::Path(resolved) => {
                    let rest = self.rest.as_slice();
                    if rest.len() > 0 && rest[0] == SLASH {
                        let names = slice_subrange(rest, 1, rest.len());
                        assert(names@ =~= rest@.skip(1));
                        StepOf::Finish(join_below(resolved, names))
                    } else {
                        StepOf::Finish(join_below(resolved, rest))
                    }
                },
                AnswerOf::Failed(failure) => StepOf::Fail(failure),
                _ => StepOf::Fail(mismatch_error()),
            }
        } else {
            match answer {
                AnswerOf::Exists(true) => StepOf::Ask(
                    FsOpOf::Canonicalize(copy_bytes(&self.considered)),
                    WritablePathOf { considered: self.considered, rest: self.rest, first: false, found: true },
                ),
                AnswerOf::Exists(false) => if self.first {
                    StepOf::Ask(
                        FsOpOf::Exists(copy_bytes(&self.considered)),
                        WritablePathOf { considered: self.considered, rest: self.rest, first: false, found: false },
                    )
                } else {
                    match (file_name_of(&self.considered), parent_path(&self.considered)) {
                        (Some(_), Some(up)) => {
                            proof {
                                lemma_parent_is_shorter(self.considered@);
                            }
                            let name = slice_subrange(&self.considered, up.len(), self.considered.len());
                            assert(name@ =~= self.considered@.skip(up@.len() as int));
                            let mut rest: Vec<u8> = copy_bytes(name);
                            append_bytes(&mut rest, &self.rest);
                            StepOf::Ask(
                                FsOpOf::Exists(copy_bytes(&up)),
                                WritablePathOf { considered: up, rest, first: false, found: false },
                            )
                        },
                        _ => StepOf::Fail(error(ErrorKind::InvalidInput, "path has no existing parent")),
                    }
                },
                _ => StepOf::Fail(mismatch_error()),
            }
        }
    }
}

/// A parent is a proper beginning of a path that ends with a name.
proof fn lemma_parent_is_shorter(path: Seq<u8>)
    requires
        file_name(path) is Some,
    ensures
        parent(path) matches Some(up) && up.len() < path.len() && up == path.take(up.len() as int),
{
    let whole = trimmed(path);
    lemma_trimmed_is_a_beginning(path);
    reveal_with_fuel(last_slash, 2);
    if whole.len() == 0 {
        assert(last_segment(whole) =~= Seq::<u8>::empty());
    }
    if whole == seq![SLASH] {
        assert(last_segment(whole) =~= Seq::<u8>::empty());
    }
    lemma_cut_is_shorter(whole);
    lemma_trimmed_is_a_beginning(cut(whole));
    let up = parent(path)->0;
    assert(up =~= path.take(up.len() as int));
}

/// The deepest part of a path at which something exists, where only names are left out.
pub open spec fn deepest_existing(present: spec_fn(Seq<u8>) -> bool, path: Seq<u8>) -> Option<Seq<u8>>
    decreases path.len(),
{
    if present(path) {
        Some(path)
    } else {
        match (file_name(path), parent(path)) {
            (Some(_), Some(up)) => if up.len() < path.len() {
                deepest_existing(present, up)
            } else {
                None
            },
            _ => None,
        }
    }
}

/// How often the part under consideration may be asked about once more.
pub open spec fn questions_left(search: WritablePathView) -> nat {
    if search.first {
        1
    } else {
        0
    }
}

/// What a search asks for or ends with once it no longer asks what exists, when the host answers
/// those questions by `present`.
pub open spec fn probed(present: spec_fn(Seq<u8>) -> bool, search: WritablePathView) -> ResolveStepView
    decreases search.considered.len(), questions_left(search),
{
    match resolve_next(search, AnswerOf::Exists(present(search.considered))) {
        StepOf::Ask(FsOpOf::Exists(path), next) => if next.considered.len() < search.considered.len() || search.first
            && !next.first && next.considered.len() == search.considered.len() {
            probed(present, next)
        } else {
            StepOf::Ask(FsOpOf::Exists(path), next)
        },
        other => other,
    }
}

/// The search asks for the real path of the deepest existing ancestor and of no other path, keeps
/// what lies below it, and fails exactly when there is no such ancestor.
pub proof fn law_deepest_ancestor_is_resolved(present: spec_fn(Seq<u8>) -> bool, search: WritablePathView)
    requires
        !search.found,
    ensures
        ({
            let path = search.considered + search.rest;
            match deepest_existing(present, search.considered) {
                Some(ancestor) => probed(present, search) == StepOf::<
                    FsOpView,
                    WritablePathView,
                    Seq<u8>,
                    FsErrorView,
                >::Ask(
                    FsOpOf::Canonicalize(ancestor),
                    WritablePathOf { considered: ancestor, rest: path.skip(ancestor.len() as int), first: false, found: true },
                ),
                None => probed(present, search) == StepOf::<
                    FsOpView,
                    WritablePathView,
                    Seq<u8>,
                    FsErrorView,
                >::Fail(no_parent()),
            }
        }),
    decreases search.considered.len(), questions_left(search),
{
    let considered = search.considered;
    let path = considered + search.rest;
    if present(considered) {
        assert(path.skip(considered.len() as int) =~= search.rest);
    } else if search.first {
        law_deepest_ancestor_is_resolved(present, WritablePathOf { first: false, ..search });
    } else if file_name(considered) is Some {
        lemma_parent_is_shorter(considered);
        let up = parent(considered)->0;
        let next = WritablePathOf {
            considered: up,
            rest: considered.skip(up.len() as int) + search.rest,
            first: false,
            found: false,
        };
        assert(up + next.rest =~= path);
        law_deepest_ancestor_is_resolved(present, next);
    }
}

/// A path at which something exists is resolved as a whole: the result is its real path.
pub proof fn law_existing_path_is_its_real_path(raw_path: Seq<u8>, resolved: Seq<u8>)
    ensures
        resolve_next(
            WritablePathOf { considered: normal_form(raw_path), rest: Seq::empty(), first: false, found: true },
            AnswerOf::Path(resolved),
        ) == StepOf::<FsOpView, WritablePathView, Seq<u8>, FsErrorView>::Finish(resolved),
{
}

/// The separator that a path needs before something can stand behind it.
pub open spec fn gap(path: Seq<u8>) -> Seq<u8> {
    if path.len() > 0 && path.last() != '/' as u8 {
        seq!['/' as u8]
    } else {
        Seq::empty()
    }
}

/// Where a path leads: the real path of the deepest part of its normal form at which something exists, and
/// behind it the names of what is missing, as they are. Where not even a part of it exists, that is said.
pub proof fn law_missing_names_stay_below_what_exists(
    present: spec_fn(Seq<u8>) -> bool,
    raw_path: Seq<u8>,
    real_path: Seq<u8>,
)
    ensures
        ({
            let path = normal_form(raw_path);
            &&& resolve_start(raw_path) matches StepOf::Ask(op, search)
            &&& op == FsOpView::Exists(path)
            &&& match deepest_existing(present, path) {
                Some(ancestor) => {
                    let rest = path.skip(ancestor.len() as int);
                    let missing = if rest.len() > 0 && rest[0] == '/' as u8 {
                        rest.skip(1)
                    } else {
                        rest
                    };
                    &&& probed(present, search) matches StepOf::Ask(question, found)
                    &&& question == FsOpView::Canonicalize(ancestor)
                    &&& resolve_next(found, AnswerOf::Path(real_path)) == ResolveStepView::Finish(
                        if missing.len() == 0 {
                            real_path
                        } else {
                            real_path + gap(real_path) + missing
                        },
                    )
                },
                None => probed(present, search) == ResolveStepView::Fail(
                    FsErrorOf { kind: ErrorKind::InvalidInput, message: "path has no existing parent"@ },
                ),
            }
        }),
{
    let path = normal_form(raw_path);
    let search = resolve_start(raw_path)->Ask_1;
    law_deepest_ancestor_is_resolved(present, search);
    assert(path + Seq::<u8>::empty() =~= path);
    if let Some(ancestor) = deepest_existing(present, path) {
        let rest = path.skip(ancestor.len() as int);
        let missing = unrooted(rest);
        assert(real_path.push(SLASH) + missing =~= real_path + seq!['/' as u8] + missing);
        assert(real_path + Seq::<u8>::empty() =~= real_path);
    }
}

/// A path at which something exists leads to its real path. A path of which only the last name is missing
/// leads to that name below the real path of the directory above it.
#[verifier::rlimit(40)]
pub proof fn law_new_names_stay_in_their_directory(
    raw_path: Seq<u8>,
    rooted: bool,
    list: Seq<Seq<u8>>,
    real_path: Seq<u8>,
)
    requires
        normal_components(rooted, list),
        list.len() > 0,
        list.last() != parent_dir(),
        normal_form(raw_path) == rendered(rooted, list),
    ensures
        ({
            let path = rendered(rooted, list);
            let up = rendered(rooted, list.drop_last());
            &&& scripted(
                resolving(),
                resolve_start(raw_path),
                seq![
                    (FsOpView::Exists(path), AnswerView::Exists(true)),
                    (FsOpView::Canonicalize(path), AnswerView::Path(real_path)),
                ],
                0,
            ) == Some(ResolveStepView::Finish(real_path))
            &&& scripted(
                resolving(),
                resolve_start(raw_path),
                seq![
                    (FsOpView::Exists(path), AnswerView::Exists(false)),
                    (FsOpView::Exists(path), AnswerView::Exists(false)),
                    (FsOpView::Exists(up), AnswerView::Exists(true)),
                    (FsOpView::Canonicalize(up), AnswerView::Path(real_path)),
                ],
                0,
            ) == Some(ResolveStepView::Finish(real_path + gap(real_path) + list.last()))
        }),
{
    let path = rendered(rooted, list);
    let up = rendered(rooted, list.drop_last());
    let name = list.last();
    law_parent_and_file_name(rooted, list);
    assert(is_component(name));
    lemma_parent_is_shorter(path);
    let rest = path.skip(up.len() as int);
    assert(rest + Seq::<u8>::empty() =~= rest);
    assert(unrooted(rest) == name) by {
        if up.len() > 0 && up.last() != SLASH {
            assert(path =~= up.push(SLASH) + name);
            assert(rest =~= seq![SLASH] + name);
            assert(rest.skip(1) =~= name);
        } else {
            assert(path =~= up + name);
            assert(rest =~= name);
        }
    }
    assert(real_path.push(SLASH) + name =~= real_path + seq!['/' as u8] + name);
    assert(real_path + Seq::<u8>::empty() =~= real_path);
    reveal_with_fuel(scripted::<FsOpView, AnswerView, WritablePathView, Seq<u8>, FsErrorView>, 6);
}

} // verus!
