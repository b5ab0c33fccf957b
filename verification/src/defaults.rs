//! Process-wide defaults: the environment variables, the user and the working directory that new
//! processes get where a request does not say otherwise.

use crate::text::{optional, same_text};
use vstd::prelude::*;

verus! {

/// The variables that a list of names and values sets; a later entry overrides an earlier one.
pub open spec fn settings(entries: Seq<(String, String)>) -> Map<Seq<char>, Seq<char>>
    decreases entries.len(),
{
    if entries.len() == 0 {
        Map::empty()
    } else {
        settings(entries.drop_last()).insert(entries.last().0@, entries.last().1@)
    }
}

/// No name occurs twice.
pub open spec fn distinct_names(entries: Seq<(String, String)>) -> bool {
    forall|i: int, j: int|
        0 <= i < j < entries.len() ==> (#[trigger] entries[i]).0@ != (#[trigger] entries[j]).0@
}

/// What a list of entries with distinct names sets.
proof fn lemma_settings(entries: Seq<(String, String)>)
    requires
        distinct_names(entries),
    ensures
        forall|i: int|
            0 <= i < entries.len() ==> settings(entries).contains_key((#[trigger] entries[i]).0@)
                && settings(entries)[entries[i].0@] == entries[i].1@,
        forall|name: Seq<char>| #[trigger]
            settings(entries).contains_key(name) ==> exists|i: int|
                0 <= i < entries.len() && (#[trigger] entries[i]).0@ == name,
    decreases entries.len(),
{
    if entries.len() > 0 {
        let front = entries.drop_last();
        assert(distinct_names(front)) by {
            assert(forall|i: int| 0 <= i < front.len() ==> #[trigger] front[i] == entries[i]);
        }
        lemma_settings(front);
        assert forall|i: int| 0 <= i < entries.len() implies settings(entries).contains_key(
            (#[trigger] entries[i]).0@,
        ) && settings(entries)[entries[i].0@] == entries[i].1@ by {
            if i < front.len() {
                assert(front[i] == entries[i]);
                assert(entries[i].0@ != entries[entries.len() - 1].0@);
            }
        }
        assert forall|name: Seq<char>| #[trigger] settings(entries).contains_key(name) implies exists|i: int|
            0 <= i < entries.len() && (#[trigger] entries[i]).0@ == name by {
            if name == entries.last().0@ {
                assert(entries[entries.len() - 1].0@ == name);
            } else {
                assert(settings(front).contains_key(name));
                let i = choose|i: int| 0 <= i < front.len() && (#[trigger] front[i]).0@ == name;
                assert(entries[i].0@ == name);
            }
        }
    }
}

/// One more name at the end, or another value for a name that is there, sets that variable.
proof fn lemma_set(before: Seq<(String, String)>, after: Seq<(String, String)>, place: int)
    requires
        distinct_names(before),
        0 <= place < after.len(),
        (place < before.len() && after == before.update(place, after[place]) && before[place].0@
            == after[place].0@) || (place == before.len() && after == before.push(after[place]) && (forall|j: int|
            0 <= j < before.len() ==> (#[trigger] before[j]).0@ != after[place].0@)),
    ensures
        distinct_names(after),
        settings(after) == settings(before).insert(after[place].0@, after[place].1@),
{
    assert forall|i: int, j: int| 0 <= i < j < after.len() implies (#[trigger] after[i]).0@ != (#[trigger] after[j]).0@ by {
        if j < before.len() {
            assert(before[i].0@ != before[j].0@);
        } else {
            assert(before[i].0@ != after[place].0@);
        }
    }
    lemma_settings(before);
    lemma_settings(after);
    let expected = settings(before).insert(after[place].0@, after[place].1@);
    assert forall|name: Seq<char>| settings(after).contains_key(name) == #[trigger] expected.contains_key(name) by {
        if settings(after).contains_key(name) {
            let i = choose|i: int| 0 <= i < after.len() && (#[trigger] after[i]).0@ == name;
            if i != place {
                assert(before[i].0@ == name);
            }
        }
        if expected.contains_key(name) {
            if name == after[place].0@ {
                assert(settings(after).contains_key(after[place].0@));
            } else {
                let i = choose|i: int| 0 <= i < before.len() && (#[trigger] before[i]).0@ == name;
                assert(after[i].0@ == name);
            }
        }
    }
    assert forall|name: Seq<char>| #[trigger] settings(after).contains_key(name) implies settings(after)[name]
        == expected[name] by {
        let i = choose|i: int| 0 <= i < after.len() && (#[trigger] after[i]).0@ == name;
        assert(settings(after)[after[i].0@] == after[i].1@);
        if i != place {
            assert(after[i] == before[i]);
            assert(settings(before)[before[i].0@] == before[i].1@);
            if i < place {
                assert(after[i].0@ != after[place].0@);
            } else {
                assert(after[place].0@ != after[i].0@);
            }
        }
    }
    assert(settings(after) =~= expected);
}

/// The place of a name among entries, or their number where it is not among them.
fn place_of(entries: &Vec<(String, String)>, name: &str) -> (place: usize)
    ensures
        place <= entries@.len(),
        place < entries@.len() ==> entries@[place as int].0@ == name@,
        place == entries@.len() ==> forall|j: int| 0 <= j < entries@.len() ==> (#[trigger] entries@[j]).0@ != name@,
{
    let mut i: usize = 0;
    while i < entries.len()
        invariant
            i <= entries.len(),
            forall|j: int| 0 <= j < i ==> (#[trigger] entries@[j]).0@ != name@,
        decreases entries.len() - i,
    {
        if same_text(entries[i].0.as_str(), name) {
            return i;
        }
        i += 1;
    }
    i
}

/// Environment variables: each name is set once.
#[derive(Debug)]
pub struct EnvVars {
    entries: Vec<(String, String)>,
}

impl View for EnvVars {
    type V = Map<Seq<char>, Seq<char>>;

    closed spec fn view(&self) -> Map<Seq<char>, Seq<char>> {
        settings(self.entries@)
    }
}

impl EnvVars {
    #[verifier::type_invariant]
    spec fn names_are_distinct(self) -> bool {
        distinct_names(self.entries@)
    }

    /// No variables.
    pub fn new() -> (vars: Self)
        ensures
            vars@ == Map::<Seq<char>, Seq<char>>::empty(),
    {
        EnvVars { entries: Vec::new() }
    }

    /// The value of a variable.
    pub fn get(&self, name: &str) -> (value: Option<String>)
        ensures
            optional(value) == (if self@.contains_key(name@) {
                Some(self@[name@])
            } else {
                None
            }),
    {
        proof {
            use_type_invariant(self);
            lemma_settings(self.entries@);
        }
        let place: usize = place_of(&self.entries, name);
        if place < self.entries.len() {
            Some(self.entries[place].1.clone())
        } else {
            None
        }
    }

    /// Sets a variable, whether or not it was set before.
    pub fn insert(&mut self, name: String, value: String)
        ensures
            final(self)@ == old(self)@.insert(name@, value@),
    {
        proof {
            use_type_invariant(&*self);
        }
        let mut entries: Vec<(String, String)> = Vec::new();
        std::mem::swap(&mut entries, &mut self.entries);
        let ghost before = entries@;
        let place: usize = place_of(&entries, name.as_str());
        if place < entries.len() {
            entries[place] = (name, value);
        } else {
            entries.push((name, value));
        }
        proof {
            lemma_set(before, entries@, place as int);
        }
        self.entries = entries;
    }

    /// Sets every variable of `other`, whether or not it was set before.
    pub fn extend(&mut self, other: &EnvVars)
        ensures
            final(self)@ == old(self)@.union_prefer_right(other@),
    {
        let ghost before = self@;
        let mut i: usize = 0;
        proof {
            assert(other.entries@.take(0) =~= Seq::<(String, String)>::empty());
            assert(before.union_prefer_right(Map::empty()) =~= before);
        }
        while i < other.entries.len()
            invariant
                i <= other.entries.len(),
                self@ == before.union_prefer_right(settings(other.entries@.take(i as int))),
            decreases other.entries.len() - i,
        {
            let ghost done = other.entries@.take(i as int);
            let ghost more = other.entries@.take(i + 1);
            let name: String = other.entries[i].0.clone();
            let value: String = other.entries[i].1.clone();
            self.insert(name, value);
            proof {
                assert(more.drop_last() =~= done);
                assert(more.last() == other.entries@[i as int]);
                assert(before.union_prefer_right(settings(more)) =~= before.union_prefer_right(
                    settings(done),
                ).insert(name@, value@));
            }
            i += 1;
        }
        assert(other.entries@.take(i as int) =~= other.entries@);
    }

    /// The variables as a list of names and values in which no name occurs twice.
    pub fn to_pairs(&self) -> (pairs: Vec<(String, String)>)
        ensures
            distinct_names(pairs@),
            settings(pairs@) == self@,
    {
        proof {
            use_type_invariant(self);
        }
        let mut pairs: Vec<(String, String)> = Vec::new();
        let mut i: usize = 0;
        while i < self.entries.len()
            invariant
                i <= self.entries.len(),
                pairs@ == self.entries@.take(i as int),
            decreases self.entries.len() - i,
        {
            pairs.push((self.entries[i].0.clone(), self.entries[i].1.clone()));
            assert(pairs@ =~= self.entries@.take(i + 1));
            i += 1;
        }
        assert(pairs@ =~= self.entries@);
        pairs
    }
}

impl Clone for EnvVars {
    fn clone(&self) -> (copy: Self)
        ensures
            copy@ == self@,
    {
        let entries: Vec<(String, String)> = self.to_pairs();
        EnvVars { entries }
    }
}

/// Process-wide defaults. New processes merge them in, with the values of the request taking
/// precedence.
#[derive(Clone, Debug)]
pub struct Defaults {
    pub env_vars: EnvVars,
    pub user: Option<String>,
    pub workdir: Option<String>,
}

/// The content of `Defaults`.
#[verifier::ext_equal]
pub struct DefaultsView {
    pub env_vars: Map<Seq<char>, Seq<char>>,
    pub user: Option<Seq<char>>,
    pub workdir: Option<Seq<char>>,
}

impl View for Defaults {
    type V = DefaultsView;

    open spec fn view(&self) -> DefaultsView {
        DefaultsView { env_vars: self.env_vars@, user: optional(self.user), workdir: optional(self.workdir) }
    }
}

impl Default for Defaults {
    fn default() -> (defaults: Self)
        ensures
            defaults.env_vars@ == Map::<Seq<char>, Seq<char>>::empty(),
            defaults.user is None,
            defaults.workdir is None,
    {
        Defaults { env_vars: EnvVars::new(), user: None, workdir: None }
    }
}

/// A text that is there and not empty.
pub open spec fn given(text: Option<Seq<char>>) -> Option<Seq<char>> {
    match text {
        Some(content) => if content.len() > 0 {
            text
        } else {
            None
        },
        None => None,
    }
}

/// The user that processes run as where a request names none.
pub open spec fn default_user(user: Option<Seq<char>>) -> Seq<char> {
    match given(user) {
        Some(name) => name,
        None => "root"@,
    }
}

/// A copy of a text that is there and not empty.
fn copy_given(text: &Option<String>) -> (copy: Option<String>)
    ensures
        optional(copy) == given(optional(*text)),
{
    match text {
        Some(content) => if content.as_str().is_empty() {
            None
        } else {
            Some(content.clone())
        },
        None => None,
    }
}

impl Defaults {
    /// The default user, or `root` where none is set.
    pub fn user_or_root(&self) -> (user: String)
        ensures
            user@ == default_user(optional(self.user)),
    {
        match copy_given(&self.user) {
            Some(user) => user,
            None => "root".to_owned(),
        }
    }

    /// The default working directory, where one is set.
    pub fn workdir(&self) -> (workdir: Option<String>)
        ensures
            optional(workdir) == given(optional(self.workdir)),
    {
        copy_given(&self.workdir)
    }

    /// The default variables first, then those of the request, so that the caller can override.
    pub fn merged_env_vars(&self, request: &EnvVars) -> (merged: EnvVars)
        ensures
            merged@ == self.env_vars@.union_prefer_right(request@),
    {
        let mut merged: EnvVars = self.env_vars.clone();
        merged.extend(request);
        merged
    }
}

/// Merged variables hold what the request sets as it sets it, and what only the defaults set as
/// they set it, and nothing else.
pub proof fn law_request_overrides_defaults(
    defaults: Map<Seq<char>, Seq<char>>,
    request: Map<Seq<char>, Seq<char>>,
    name: Seq<char>,
)
    ensures
        ({
            let merged = defaults.union_prefer_right(request);
            &&& merged.contains_key(name) <==> defaults.contains_key(name) || request.contains_key(name)
            &&& request.contains_key(name) ==> merged[name] == request[name]
            &&& defaults.contains_key(name) && !request.contains_key(name) ==> merged[name] == defaults[name]
        }),
{
}

/// The user of a process is never the empty name.
pub proof fn law_default_user_is_named(user: Option<Seq<char>>)
    ensures
        default_user(user).len() > 0,
{
    reveal_strlit("root");
}

} // verus!
