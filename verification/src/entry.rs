//! Descriptions of files and directories.

use crate::fsutil::{name_or, name_text};
use crate::host::{
    error, mismatch, mismatch_error, Answer, AnswerOf, AnswerView, ErrorKind, FsError, FsErrorOf, FsErrorView,
    FsOpOf, Metadata, MetadataOf, MetadataView, ModifiedOf, Step, StepOf, StepView,
};
use crate::outside::{format_rfc3339, rfc3339_text, LAST_CALENDAR_SECOND};
use crate::text::{decimal, decimal_text, optional, show, shown};
use std::collections::HashMap;
use vstd::prelude::*;
use vstd::std_specs::hash::*;
use vstd::string::*;

verus! {

/// What a client learns of a file or a directory.
#[verifier::ext_equal]
#[derive(Clone, Debug, PartialEq, Eq)]
pub struct FileEntryOf<T> {
    pub name: T,
    pub file_type: T,
    pub path: T,
    pub size: T,
    pub mode: u32,
    pub permissions: T,
    pub owner: T,
    pub group: T,
    pub modified_time: T,
}

pub type FileEntry = FileEntryOf<String>;

pub type FileEntryView = FileEntryOf<Seq<char>>;

impl View for FileEntryOf<String> {
    type V = FileEntryOf<Seq<char>>;

    open spec fn view(&self) -> FileEntryOf<Seq<char>> {
        FileEntryOf {
            name: self.name@,
            file_type: self.file_type@,
            path: self.path@,
            size: self.size@,
            mode: self.mode,
            permissions: self.permissions@,
            owner: self.owner@,
            group: self.group@,
            modified_time: self.modified_time@,
        }
    }
}

/// The letter of a permission, or a dash where it is not granted.
pub open spec fn granted(mode: u32, bit: u32, letter: char) -> char {
    if mode & bit != 0 {
        letter
    } else {
        '-'
    }
}

/// The letter of the permission to execute. A special bit changes it, to a capital where there is no
/// such permission.
pub open spec fn executed(mode: u32, bit: u32, special_bit: u32, special: char, capital: char) -> char {
    if mode & bit != 0 {
        if mode & special_bit != 0 {
            special
        } else {
            'x'
        }
    } else {
        if mode & special_bit != 0 {
            capital
        } else {
            '-'
        }
    }
}

/// The permissions in letters: whether it is a directory, then what the owner, the group and everyone
/// else may do.
pub open spec fn permission_letters(is_dir: bool, mode: u32) -> Seq<char> {
    seq![
        if is_dir {
            'd'
        } else {
            '-'
        },
        granted(mode, 0o400, 'r'),
        granted(mode, 0o200, 'w'),
        executed(mode, 0o100, 0o4000, 's', 'S'),
        granted(mode, 0o040, 'r'),
        granted(mode, 0o020, 'w'),
        executed(mode, 0o010, 0o2000, 's', 'S'),
        granted(mode, 0o004, 'r'),
        granted(mode, 0o002, 'w'),
        executed(mode, 0o001, 0o1000, 't', 'T'),
    ]
}

/// Adds the letter of a permission.
fn add_granted(letters: &mut String, mode: u32, bit: u32, letter: &'static str)
    requires
        letter@.len() == 1,
    ensures
        final(letters)@ == old(letters)@.push(granted(mode, bit, letter@[0])),
{
    proof {
        reveal_strlit("-");
    }
    if mode & bit != 0 {
        letters.append(letter);
    } else {
        letters.append("-");
    }
    assert(letters@ =~= old(letters)@.push(granted(mode, bit, letter@[0])));
}

/// Adds the letter of the permission to execute.
fn add_executed(
    letters: &mut String,
    mode: u32,
    bit: u32,
    special_bit: u32,
    special: &'static str,
    capital: &'static str,
)
    requires
        special@.len() == 1,
        capital@.len() == 1,
    ensures
        final(letters)@ == old(letters)@.push(executed(mode, bit, special_bit, special@[0], capital@[0])),
{
    proof {
        reveal_strlit("-");
        reveal_strlit("x");
    }
    if mode & bit != 0 {
        if mode & special_bit != 0 {
            letters.append(special);
        } else {
            letters.append("x");
        }
    } else {
        if mode & special_bit != 0 {
            letters.append(capital);
        } else {
            letters.append("-");
        }
    }
    assert(letters@ =~= old(letters)@.push(executed(mode, bit, special_bit, special@[0], capital@[0])));
}

/// Writes the permissions in letters.
pub fn permission_string(is_dir: bool, mode: u32) -> (permissions: String)
    ensures
        permissions@ == permission_letters(is_dir, mode),
{
    proof {
        reveal_strlit("d");
        reveal_strlit("-");
        reveal_strlit("r");
        reveal_strlit("w");
        reveal_strlit("s");
        reveal_strlit("S");
        reveal_strlit("t");
        reveal_strlit("T");
    }
    let mut letters: String = if is_dir {
        "d".to_owned()
    } else {
        "-".to_owned()
    };
    add_granted(&mut letters, mode, 0o400, "r");
    add_granted(&mut letters, mode, 0o200, "w");
    add_executed(&mut letters, mode, 0o100, 0o4000, "s", "S");
    add_granted(&mut letters, mode, 0o040, "r");
    add_granted(&mut letters, mode, 0o020, "w");
    add_executed(&mut letters, mode, 0o010, 0o2000, "s", "S");
    add_granted(&mut letters, mode, 0o004, "r");
    add_granted(&mut letters, mode, 0o002, "w");
    add_executed(&mut letters, mode, 0o001, 0o1000, "t", "T");
    assert(letters@ =~= permission_letters(is_dir, mode));
    letters
}

/// The letters are ten, and they tell whether it is a directory and all of the permission bits.
pub proof fn law_permissions_are_told_in_full(is_dir: bool, mode: u32, other_is_dir: bool, other_mode: u32)
    ensures
        permission_letters(is_dir, mode).len() == 10,
        permission_letters(is_dir, mode) == permission_letters(other_is_dir, other_mode) ==> is_dir == other_is_dir
            && mode & 0o7777 == other_mode & 0o7777,
{
    let letters = permission_letters(is_dir, mode);
    let other = permission_letters(other_is_dir, other_mode);
    if letters == other {
        assert(letters[0] == other[0]);
        assert(letters[1] == other[1]);
        assert(letters[2] == other[2]);
        assert(letters[3] == other[3]);
        assert(letters[4] == other[4]);
        assert(letters[5] == other[5]);
        assert(letters[6] == other[6]);
        assert(letters[7] == other[7]);
        assert(letters[8] == other[8]);
        assert(letters[9] == other[9]);
        assert(mode & 0o7777 == other_mode & 0o7777) by (bit_vector)
            requires
                (mode & 0o400 != 0) == (other_mode & 0o400 != 0),
                (mode & 0o200 != 0) == (other_mode & 0o200 != 0),
                (mode & 0o100 != 0) == (other_mode & 0o100 != 0),
                (mode & 0o4000 != 0) == (other_mode & 0o4000 != 0),
                (mode & 0o040 != 0) == (other_mode & 0o040 != 0),
                (mode & 0o020 != 0) == (other_mode & 0o020 != 0),
                (mode & 0o010 != 0) == (other_mode & 0o010 != 0),
                (mode & 0o2000 != 0) == (other_mode & 0o2000 != 0),
                (mode & 0o004 != 0) == (other_mode & 0o004 != 0),
                (mode & 0o002 != 0) == (other_mode & 0o002 != 0),
                (mode & 0o001 != 0) == (other_mode & 0o001 != 0),
                (mode & 0o1000 != 0) == (other_mode & 0o1000 != 0),
        ;
    }
}

/// A modification time that can be written down: one that the calendar holds, or an unknown one.
pub open spec fn writable_time(modified: ModifiedOf<Seq<char>>) -> bool {
    match modified {
        ModifiedOf::At { seconds, nanoseconds } => seconds <= LAST_CALENDAR_SECOND && nanoseconds < 1_000_000_000,
        ModifiedOf::Unknown(_) => true,
    }
}

/// A modification time in writing. For an unknown time the Unix epoch stands.
pub open spec fn time_text(modified: ModifiedOf<Seq<char>>) -> Seq<char> {
    match modified {
        ModifiedOf::At { seconds, nanoseconds } => rfc3339_text(seconds, nanoseconds),
        ModifiedOf::Unknown(_) => rfc3339_text(0, 0),
    }
}

/// The name of a user or a group, or its number where it has no name.
pub open spec fn name_or_number(name: Option<Seq<char>>, number: u32) -> Seq<char> {
    match name {
        Some(name) => name,
        None => decimal_text(number as nat),
    }
}

/// The description of a file, given the names of its owner and its group.
pub open spec fn described(
    path: Seq<u8>,
    metadata: MetadataView,
    owner: Option<Seq<char>>,
    group: Option<Seq<char>>,
) -> FileEntryView {
    FileEntryOf {
        name: name_or(path, "/"@),
        file_type: if metadata.is_dir {
            "FILE_TYPE_DIRECTORY"@
        } else {
            "FILE_TYPE_FILE"@
        },
        path: shown(path),
        size: decimal_text(metadata.size as nat),
        mode: metadata.mode & 0o7777,
        permissions: permission_letters(metadata.is_dir, metadata.mode & 0o7777),
        owner: name_or_number(owner, metadata.uid),
        group: name_or_number(group, metadata.gid),
        modified_time: time_text(metadata.modified),
    }
}

/// Names a user or a group.
fn name_text_or_number(name: Option<String>, number: u32) -> (text: String)
    ensures
        text@ == name_or_number(optional(name), number),
{
    match name {
        Some(name) => name,
        None => decimal(number as u64),
    }
}

/// Describes a file, given the names of its owner and its group.
pub fn entry_from_meta(path: &[u8], metadata: &Metadata, owner: Option<String>, group: Option<String>) -> (entry:
    FileEntry)
    requires
        writable_time(metadata@.modified),
    ensures
        entry@ == described(path@, metadata@, optional(owner), optional(group)),
{
    let mode: u32 = metadata.mode & 0o7777;
    let file_type: &str = if metadata.is_dir {
        "FILE_TYPE_DIRECTORY"
    } else {
        "FILE_TYPE_FILE"
    };
    let modified_time: String = match metadata.modified {
        ModifiedOf::At { seconds, nanoseconds } => format_rfc3339(seconds, nanoseconds),
        ModifiedOf::Unknown(_) => format_rfc3339(0, 0),
    };
    FileEntryOf {
        name: name_text(path, "/"),
        file_type: file_type.to_owned(),
        path: show(path),
        size: decimal(metadata.size),
        mode,
        permissions: permission_string(metadata.is_dir, mode),
        owner: name_text_or_number(owner, metadata.uid),
        group: name_text_or_number(group, metadata.gid),
        modified_time,
    }
}

/// The names that are known so far of users and groups, by number. A number that is known to have no
/// name is held too.
#[derive(Debug, PartialEq, Eq)]
pub struct NameCache {
    pub users: HashMap<u32, Option<String>>,
    pub groups: HashMap<u32, Option<String>>,
}

/// The content of a `NameCache`.
#[verifier::ext_equal]
pub struct NamesView {
    pub users: Map<u32, Option<Seq<char>>>,
    pub groups: Map<u32, Option<Seq<char>>>,
}

/// The names as texts.
pub open spec fn name_texts(names: Map<u32, Option<String>>) -> Map<u32, Option<Seq<char>>> {
    names.map_values(|name: Option<String>| optional(name))
}

impl View for NameCache {
    type V = NamesView;

    open spec fn view(&self) -> NamesView {
        NamesView { users: name_texts(self.users@), groups: name_texts(self.groups@) }
    }
}

impl Default for NameCache {
    fn default() -> (cache: Self)
        ensures
            cache@ == no_names(),
    {
        let cache = NameCache { users: HashMap::new(), groups: HashMap::new() };
        assert(cache@ =~= no_names());
        cache
    }
}

/// No names at all.
pub open spec fn no_names() -> NamesView {
    NamesView { users: Map::empty(), groups: Map::empty() }
}

/// What is known of a number.
fn known_name(names: &HashMap<u32, Option<String>>, number: u32) -> (known: Option<Option<String>>)
    ensures
        match known {
            Some(name) => name_texts(names@).contains_key(number) && name_texts(names@)[number] == optional(name),
            None => !name_texts(names@).contains_key(number),
        },
{
    broadcast use group_hash_axioms;

    match names.get(&number) {
        Some(Some(name)) => Some(Some(name.clone())),
        Some(None) => Some(None),
        None => None,
    }
}

impl NameCache {
    /// What is known of the name of a user.
    pub fn user(&self, uid: u32) -> (known: Option<Option<String>>)
        ensures
            match known {
                Some(name) => self@.users.contains_key(uid) && self@.users[uid] == optional(name),
                None => !self@.users.contains_key(uid),
            },
    {
        known_name(&self.users, uid)
    }

    /// What is known of the name of a group.
    pub fn group(&self, gid: u32) -> (known: Option<Option<String>>)
        ensures
            match known {
                Some(name) => self@.groups.contains_key(gid) && self@.groups[gid] == optional(name),
                None => !self@.groups.contains_key(gid),
            },
    {
        known_name(&self.groups, gid)
    }

    /// Remembers the name of a user.
    pub fn learn_user(&mut self, uid: u32, name: Option<String>)
        ensures
            final(self)@ == (NamesView { users: old(self)@.users.insert(uid, optional(name)), ..old(self)@ }),
    {
        broadcast use group_hash_axioms;

        self.users.insert(uid, name);
        assert(self@ =~= NamesView { users: old(self)@.users.insert(uid, optional(name)), ..old(self)@ });
    }

    /// Remembers the name of a group.
    pub fn learn_group(&mut self, gid: u32, name: Option<String>)
        ensures
            final(self)@ == (NamesView { groups: old(self)@.groups.insert(gid, optional(name)), ..old(self)@ }),
    {
        broadcast use group_hash_axioms;

        self.groups.insert(gid, name);
        assert(self@ =~= NamesView { groups: old(self)@.groups.insert(gid, optional(name)), ..old(self)@ });
    }
}

/// The failure of a file whose modification time cannot be written down.
pub open spec fn no_time() -> FsErrorView {
    FsErrorOf { kind: ErrorKind::Other, message: "file modification time is not representable"@ }
}

/// What it takes to describe a file with the names that are known: a question for a name that is
/// missing, or nothing more.
pub open spec fn describing(names: NamesView, path: Seq<u8>, metadata: MetadataView) -> StepView<(), FileEntryView> {
    if !writable_time(metadata.modified) {
        StepOf::Fail(no_time())
    } else if !names.users.contains_key(metadata.uid) {
        StepOf::Ask(FsOpOf::UserName(metadata.uid), ())
    } else if !names.groups.contains_key(metadata.gid) {
        StepOf::Ask(FsOpOf::GroupName(metadata.gid), ())
    } else {
        StepOf::Finish(described(path, metadata, names.users[metadata.uid], names.groups[metadata.gid]))
    }
}

/// The names that are known once the host has answered the question for a missing name.
pub open spec fn learned(names: NamesView, metadata: MetadataView, name: Option<Seq<char>>) -> NamesView {
    if !names.users.contains_key(metadata.uid) {
        NamesView { users: names.users.insert(metadata.uid, name), ..names }
    } else if !names.groups.contains_key(metadata.gid) {
        NamesView { groups: names.groups.insert(metadata.gid, name), ..names }
    } else {
        names
    }
}

/// The name in an answer to the question for one.
pub open spec fn told_name(answer: AnswerView) -> Result<Option<Seq<char>>, FsErrorView> {
    match answer {
        AnswerOf::Name(name) => Ok(Some(name)),
        AnswerOf::NoName => Ok(None),
        AnswerOf::Failed(failure) => Err(failure),
        _ => Err(mismatch()),
    }
}

/// Describes a file with the names that are known, or asks for one that is missing.
pub fn describe(cache: &NameCache, path: &[u8], metadata: &Metadata) -> (step: Step<(), FileEntry>)
    ensures
        step@ == describing(cache@, path@, metadata@),
{
    match metadata.modified {
        ModifiedOf::At { seconds, nanoseconds } => {
            if seconds > LAST_CALENDAR_SECOND as u64 || nanoseconds >= 1_000_000_000 {
                return StepOf::Fail(error(ErrorKind::Other, "file modification time is not representable"));
            }
        },
        ModifiedOf::Unknown(_) => {},
    }
    let owner: Option<String> = match cache.user(metadata.uid) {
        Some(owner) => owner,
        None => {
            return StepOf::Ask(FsOpOf::UserName(metadata.uid), ());
        },
    };
    let group: Option<String> = match cache.group(metadata.gid) {
        Some(group) => group,
        None => {
            return StepOf::Ask(FsOpOf::GroupName(metadata.gid), ());
        },
    };
    StepOf::Finish(entry_from_meta(path, metadata, owner, group))
}

impl NameCache {
    /// Remembers the answer to the question for a missing name.
    pub fn learn(&mut self, metadata: &Metadata, name: Option<String>)
        ensures
            final(self)@ == learned(old(self)@, metadata@, optional(name)),
    {
        if self.user(metadata.uid).is_none() {
            self.learn_user(metadata.uid, name);
        } else if self.group(metadata.gid).is_none() {
            self.learn_group(metadata.gid, name);
        }
    }
}

/// Takes the name out of an answer.
pub fn name_in(answer: Answer) -> (name: Result<Option<String>, FsError>)
    ensures
        match name {
            Ok(name) => told_name(answer@) == Ok::<Option<Seq<char>>, FsErrorView>(optional(name)),
            Err(failure) => told_name(answer@) == Err::<Option<Seq<char>>, FsErrorView>(failure@),
        },
{
    match answer {
        AnswerOf::Name(name) => Ok(Some(name)),
        AnswerOf::NoName => Ok(None),
        AnswerOf::Failed(failure) => Err(failure),
        _ => Err(mismatch_error()),
    }
}

/// The host is asked for the name of a user or of a group only while it is not known, and what is
/// known is neither forgotten nor changed.
pub proof fn law_names_are_asked_once(
    names: NamesView,
    path: Seq<u8>,
    metadata: MetadataView,
    name: Option<Seq<char>>,
)
    ensures
        describing(names, path, metadata) matches StepOf::Ask(FsOpOf::UserName(uid), _)
            ==> !names.users.contains_key(uid) && learned(names, metadata, name).users.contains_key(uid),
        describing(names, path, metadata) matches StepOf::Ask(FsOpOf::GroupName(gid), _)
            ==> !names.groups.contains_key(gid) && learned(names, metadata, name).groups.contains_key(gid),
        names.users.submap_of(learned(names, metadata, name).users),
        names.groups.submap_of(learned(names, metadata, name).groups),
{
}

/// A file is described after at most two questions.
pub proof fn law_two_names_describe_a_file(
    names: NamesView,
    path: Seq<u8>,
    metadata: MetadataView,
    first: Option<Seq<char>>,
    second: Option<Seq<char>>,
)
    requires
        writable_time(metadata.modified),
    ensures
        describing(learned(learned(names, metadata, first), metadata, second), path, metadata) is Finish,
{
}

/// The description of one file in progress.
#[verifier::ext_equal]
#[derive(Debug, PartialEq, Eq)]
pub struct DescriptionOf<N, B, T> {
    pub names: N,
    pub path: B,
    pub metadata: MetadataOf<T>,
}

pub type Description = DescriptionOf<NameCache, Vec<u8>, String>;

pub type DescriptionView = DescriptionOf<NamesView, Seq<u8>, Seq<char>>;

impl View for DescriptionOf<NameCache, Vec<u8>, String> {
    type V = DescriptionOf<NamesView, Seq<u8>, Seq<char>>;

    open spec fn view(&self) -> DescriptionOf<NamesView, Seq<u8>, Seq<char>> {
        DescriptionOf { names: self.names@, path: self.path@, metadata: self.metadata@ }
    }
}

/// Goes on with the description of a file as far as the known names allow.
pub open spec fn description_step(description: DescriptionView) -> StepView<DescriptionView, FileEntryView> {
    match describing(description.names, description.path, description.metadata) {
        StepOf::Ask(op, _) => StepOf::Ask(op, description),
        StepOf::Finish(entry) => StepOf::Finish(entry),
        StepOf::Fail(failure) => StepOf::Fail(failure),
    }
}

/// Begins the description of a file without any names.
pub open spec fn description_start(
    path: Seq<u8>,
    metadata: MetadataView,
) -> StepView<DescriptionView, FileEntryView> {
    description_step(DescriptionOf { names: no_names(), path, metadata })
}

/// Goes on with an answer of the host.
pub open spec fn description_next(
    description: DescriptionView,
    answer: AnswerView,
) -> StepView<DescriptionView, FileEntryView> {
    match told_name(answer) {
        Ok(name) => description_step(
            DescriptionOf { names: learned(description.names, description.metadata, name), ..description },
        ),
        Err(failure) => StepOf::Fail(failure),
    }
}

impl DescriptionOf<NameCache, Vec<u8>, String> {
    /// Begins the description of a file.
    pub fn start(path: Vec<u8>, metadata: Metadata) -> (step: Step<Description, FileEntry>)
        ensures
            step@ == description_start(path@, metadata@),
    {
        let description: Description = DescriptionOf { names: NameCache::default(), path, metadata };
        description.proceed()
    }

    /// Goes on as far as the known names allow.
    fn proceed(self) -> (step: Step<Description, FileEntry>)
        ensures
            step@ == description_step(self@),
    {
        match describe(&self.names, &self.path, &self.metadata) {
            StepOf::Ask(op, _) => StepOf::Ask(op, self),
            StepOf::Finish(entry) => StepOf::Finish(entry),
            StepOf::Fail(failure) => StepOf::Fail(failure),
        }
    }

    /// Goes on with an answer of the host.
    pub fn step(self, answer: Answer) -> (step: Step<Description, FileEntry>)
        ensures
            step@ == description_next(self@, answer@),
    {
        match name_in(answer) {
            Ok(name) => {
                let DescriptionOf { names, path, metadata } = self;
                let mut names: NameCache = names;
                names.learn(&metadata, name);
                let description: Description = DescriptionOf { names, path, metadata };
                description.proceed()
            },
            Err(failure) => StepOf::Fail(failure),
        }
    }
}

} // verus!
