//! Unix paths as byte strings: their components, their normal form, parents and file names.

use crate::text::{append_bytes, copy_bytes, same_bytes};
use vstd::prelude::*;
use vstd::slice::*;

verus! {

/// The separator of components.
pub const SLASH: u8 = 47;

/// The byte of which `.` and `..` consist.
pub const DOT: u8 = 46;

/// The component that stays where it is.
pub open spec fn current_dir() -> Seq<u8> {
    seq![DOT]
}

/// The component that goes up.
pub open spec fn parent_dir() -> Seq<u8> {
    seq![DOT, DOT]
}

/// Whether a path starts at the root.
pub open spec fn absolute(path: Seq<u8>) -> bool {
    path.len() > 0 && path[0] == SLASH
}

/// What stands between the separators of a path, in order; there is one more of them than there are
/// separators.
pub open spec fn segments(path: Seq<u8>) -> Seq<Seq<u8>>
    decreases path.len(),
{
    if path.len() == 0 {
        seq![Seq::<u8>::empty()]
    } else {
        let before = segments(path.drop_last());
        if path.last() == SLASH {
            before.push(Seq::<u8>::empty())
        } else {
            before.drop_last().push(before.last().push(path.last()))
        }
    }
}

/// Where one more segment leads from the components reached so far. An empty segment and `.` stay
/// there. `..` takes the last name away; where there is no name to take away it is kept on a
/// relative path and has no effect at the root.
pub open spec fn enter(rooted: bool, reached: Seq<Seq<u8>>, segment: Seq<u8>) -> Seq<Seq<u8>> {
    if segment.len() == 0 || segment == current_dir() {
        reached
    } else if segment != parent_dir() {
        reached.push(segment)
    } else if reached.len() > 0 && reached.last() != parent_dir() {
        reached.drop_last()
    } else if rooted {
        reached
    } else {
        reached.push(segment)
    }
}

/// The components that a walk along the segments ends with.
pub open spec fn walk(rooted: bool, along: Seq<Seq<u8>>) -> Seq<Seq<u8>>
    decreases along.len(),
{
    if along.len() == 0 {
        Seq::empty()
    } else {
        enter(rooted, walk(rooted, along.drop_last()), along.last())
    }
}

/// Components with one separator between each two.
pub open spec fn joined(components: Seq<Seq<u8>>) -> Seq<u8>
    decreases components.len(),
{
    if components.len() == 0 {
        Seq::empty()
    } else if components.len() == 1 {
        components[0]
    } else {
        joined(components.drop_last()).push(SLASH) + components.last()
    }
}

/// The path with these components.
pub open spec fn rendered(rooted: bool, components: Seq<Seq<u8>>) -> Seq<u8> {
    if rooted {
        seq![SLASH] + joined(components)
    } else {
        joined(components)
    }
}

/// The components of a path without `.`, and without `..` wherever it can be resolved.
pub open spec fn components(path: Seq<u8>) -> Seq<Seq<u8>> {
    walk(absolute(path), segments(path))
}

/// The normal form of a path.
pub open spec fn normal_form(path: Seq<u8>) -> Seq<u8> {
    rendered(absolute(path), components(path))
}

/// A component that is neither empty nor `.` and holds no separator.
pub open spec fn is_component(component: Seq<u8>) -> bool {
    &&& component.len() > 0
    &&& component != current_dir()
    &&& forall|i: int| 0 <= i < component.len() ==> #[trigger] component[i] != SLASH
}

/// The components of a path in normal form: `..` occurs only on relative paths, and there only at
/// the front.
pub open spec fn normal_components(rooted: bool, components: Seq<Seq<u8>>) -> bool {
    &&& forall|i: int| 0 <= i < components.len() ==> is_component(#[trigger] components[i])
    &&& rooted ==> forall|i: int| 0 <= i < components.len() ==> #[trigger] components[i] != parent_dir()
    &&& forall|i: int, j: int|
        0 <= i < j < components.len() && #[trigger] components[j] == parent_dir() ==> #[trigger] components[i]
            == parent_dir()
}

/// The place of the last separator.
pub open spec fn last_slash(path: Seq<u8>) -> Option<nat>
    decreases path.len(),
{
    if path.len() == 0 {
        None
    } else if path.last() == SLASH {
        Some((path.len() - 1) as nat)
    } else {
        last_slash(path.drop_last())
    }
}

/// What follows the last separator.
pub open spec fn last_segment(path: Seq<u8>) -> Seq<u8> {
    match last_slash(path) {
        None => path,
        Some(place) => path.skip(place as int + 1),
    }
}

/// A path without its last segment and the separator before it. The separator at the root stays.
pub open spec fn cut(path: Seq<u8>) -> Seq<u8> {
    match last_slash(path) {
        None => Seq::empty(),
        Some(place) => if place == 0 {
            seq![SLASH]
        } else {
            path.take(place as int)
        },
    }
}

/// A segment that leads nowhere else.
pub open spec fn idle(segment: Seq<u8>) -> bool {
    segment.len() == 0 || segment == current_dir()
}

/// A path without the separators and the `.` that follow its last component. The root stays, and so does
/// a `.` that is the whole path.
pub open spec fn trimmed(path: Seq<u8>) -> Seq<u8>
    decreases path.len(),
{
    if path.len() == 0 || path == seq![SLASH] || path == current_dir() || !idle(last_segment(path)) {
        path
    } else {
        proof {
            lemma_cut_is_shorter(path);
        }
        trimmed(cut(path))
    }
}

/// The path one component up. The root and the empty path have none.
pub open spec fn parent(path: Seq<u8>) -> Option<Seq<u8>> {
    let whole = trimmed(path);
    if whole.len() == 0 || whole == seq![SLASH] {
        None
    } else {
        Some(trimmed(cut(whole)))
    }
}

/// The parent of a path, or the root where it has none.
pub open spec fn parent_or_root(path: Seq<u8>) -> Seq<u8> {
    match parent(path) {
        Some(parent) => parent,
        None => seq![SLASH],
    }
}

/// The last component of a path, where it is a name.
pub open spec fn file_name(path: Seq<u8>) -> Option<Seq<u8>> {
    let name = last_segment(trimmed(path));
    if idle(name) || name == parent_dir() {
        None
    } else {
        Some(name)
    }
}

/// The segments that name a component, `..` among them.
pub open spec fn named(list: Seq<Seq<u8>>) -> Seq<Seq<u8>>
    decreases list.len(),
{
    if list.len() == 0 {
        Seq::empty()
    } else if idle(list.last()) {
        named(list.drop_last())
    } else {
        named(list.drop_last()).push(list.last())
    }
}

/// A path with a relative path behind it.
pub open spec fn below(base: Seq<u8>, rest: Seq<u8>) -> Seq<u8> {
    if rest.len() == 0 {
        base
    } else if base.len() > 0 && base.last() != SLASH {
        base.push(SLASH) + rest
    } else {
        base + rest
    }
}

/// A path without the separator that it may begin with.
pub open spec fn unrooted(path: Seq<u8>) -> Seq<u8> {
    if absolute(path) {
        path.skip(1)
    } else {
        path
    }
}

/// The contents of a list of byte strings.
pub open spec fn contents(list: Seq<Vec<u8>>) -> Seq<Seq<u8>> {
    list.map_values(|bytes: Vec<u8>| bytes@)
}

/// Enters one segment.
fn enter_segment(rooted: bool, reached: &mut Vec<Vec<u8>>, segment: &[u8])
    ensures
        contents(final(reached)@) == enter(rooted, contents(old(reached)@), segment@),
{
    let ghost before = contents(reached@);
    let dot: [u8; 1] = [DOT];
    let dots: [u8; 2] = [DOT, DOT];
    let one = same_bytes(segment, &dot);
    let two = same_bytes(segment, &dots);
    assert(dot@ =~= current_dir());
    assert(dots@ =~= parent_dir());
    if segment.len() == 0 || one {
        return;
    }
    if two {
        let count: usize = reached.len();
        let name_last: bool = count > 0 && !same_bytes(&reached[count - 1], &dots);
        if name_last {
            let _ = reached.pop();
            assert(contents(reached@) =~= before.drop_last());
            return;
        }
        if rooted {
            return;
        }
    }
    reached.push(copy_bytes(segment));
    assert(contents(reached@) =~= before.push(segment@));
}

/// Lexically collapses `.` and `..`, without asking what exists: the normal form of the path.
/// Leading `..` of a relative path are kept.
pub fn lexical_normalize(path: &[u8]) -> (normal: Vec<u8>)
    ensures
        normal@ == normal_form(path@),
{
    let rooted: bool = path.len() > 0 && path[0] == SLASH;
    let mut reached: Vec<Vec<u8>> = Vec::new();
    let mut start: usize = 0;
    let mut i: usize = 0;
    let ghost mut complete: Seq<Seq<u8>> = Seq::empty();
    proof {
        assert(contents(reached@) =~= Seq::<Seq<u8>>::empty());
        assert(path@.take(0) =~= Seq::<u8>::empty());
        assert(path@.subrange(0, 0) =~= Seq::<u8>::empty());
        assert(segments(path@.take(0)) =~= complete.push(path@.subrange(0, 0)));
    }
    while i < path.len()
        invariant
            start <= i <= path.len(),
            rooted == absolute(path@),
            segments(path@.take(i as int)) == complete.push(path@.subrange(start as int, i as int)),
            contents(reached@) == walk(rooted, complete),
        decreases path.len() - i,
    {
        proof {
            let here = path@.take(i + 1);
            assert(here.drop_last() =~= path@.take(i as int));
            assert(here.last() == path@[i as int]);
        }
        if path[i] == SLASH {
            enter_segment(rooted, &mut reached, slice_subrange(path, start, i));
            proof {
                let segment = path@.subrange(start as int, i as int);
                assert(complete.push(segment).drop_last() =~= complete);
                complete = complete.push(segment);
                assert(path@.subrange(i + 1, i + 1) =~= Seq::<u8>::empty());
            }
            start = i + 1;
        } else {
            proof {
                let segment = path@.subrange(start as int, i as int);
                assert(complete.push(segment).drop_last() =~= complete);
                assert(path@.subrange(start as int, i + 1) =~= segment.push(path@[i as int]));
            }
        }
        i += 1;
    }
    enter_segment(rooted, &mut reached, slice_subrange(path, start, i));
    proof {
        let segment = path@.subrange(start as int, i as int);
        assert(path@.take(i as int) =~= path@);
        assert(complete.push(segment).drop_last() =~= complete);
        assert(contents(reached@) == components(path@));
    }
    render(rooted, &reached)
}

/// Writes the path with these components.
fn render(rooted: bool, list: &Vec<Vec<u8>>) -> (path: Vec<u8>)
    ensures
        path@ == rendered(rooted, contents(list@)),
{
    let mut text: Vec<u8> = Vec::new();
    if rooted {
        text.push(SLASH);
    }
    let ghost front = text@;
    let mut i: usize = 0;
    assert(contents(list@).take(0) =~= Seq::<Seq<u8>>::empty());
    assert(text@ =~= front + joined(contents(list@).take(0)));
    while i < list.len()
        invariant
            i <= list.len(),
            front == (if rooted {
                seq![SLASH]
            } else {
                Seq::<u8>::empty()
            }),
            text@ == front + joined(contents(list@).take(i as int)),
        decreases list.len() - i,
    {
        let ghost before = contents(list@).take(i as int);
        let ghost after = contents(list@).take(i + 1);
        assert(after.drop_last() =~= before);
        assert(after.last() == list@[i as int]@);
        if i > 0 {
            text.push(SLASH);
        }
        append_bytes(&mut text, &list[i]);
        assert(text@ =~= front + joined(after));
        i += 1;
    }
    assert(contents(list@).take(i as int) =~= contents(list@));
    assert(text@ =~= rendered(rooted, contents(list@)));
    text
}

/// The place of the last separator, or nothing.
fn find_last_slash(path: &[u8]) -> (place: Option<usize>)
    ensures
        match place {
            Some(place) => last_slash(path@) == Some(place as nat) && place < path@.len(),
            None => last_slash(path@) is None,
        },
{
    let mut i: usize = path.len();
    assert(path@.take(i as int) =~= path@);
    while i > 0
        invariant
            i <= path.len(),
            last_slash(path@) == last_slash(path@.take(i as int)),
        decreases i,
    {
        assert(path@.take(i as int).drop_last() =~= path@.take(i - 1));
        if path[i - 1] == SLASH {
            return Some(i - 1);
        }
        i -= 1;
    }
    None
}

/// The length of a path without its last segment and the separator before it.
fn cut_length(path: &[u8]) -> (length: usize)
    requires
        path@.len() > 0,
    ensures
        length <= path@.len(),
        path@ != seq![SLASH] ==> length < path@.len(),
        path@.take(length as int) == cut(path@),
{
    proof {
        lemma_last_slash_bound(path@);
        if path@ != seq![SLASH] {
            lemma_cut_is_shorter(path@);
        }
    }
    match find_last_slash(path) {
        None => 0,
        Some(place) => if place == 0 {
            assert(path@.take(1) =~= seq![SLASH]);
            1
        } else {
            place
        },
    }
}

/// The length of a path without the separators and the `.` that follow its last component.
fn trimmed_length(path: &[u8]) -> (length: usize)
    ensures
        length <= path@.len(),
        path@.take(length as int) == trimmed(path@),
{
    let root: [u8; 1] = [SLASH];
    let dot: [u8; 1] = [DOT];
    let mut length: usize = path.len();
    assert(root@ =~= seq![SLASH]);
    assert(dot@ =~= current_dir());
    assert(path@.take(length as int) =~= path@);
    while length > 0
        invariant
            length <= path@.len(),
            root@ == seq![SLASH],
            dot@ == current_dir(),
            trimmed(path@.take(length as int)) == trimmed(path@),
        decreases length,
    {
        let whole = slice_subrange(path, 0, length);
        assert(whole@ =~= path@.take(length as int));
        let start: usize = match find_last_slash(whole) {
            None => 0,
            Some(place) => place + 1,
        };
        let name = slice_subrange(whole, start, length);
        assert(name@ =~= last_segment(whole@));
        let is_idle = name.len() == 0 || same_bytes(name, &dot);
        if same_bytes(whole, &root) || same_bytes(whole, &dot) || !is_idle {
            return length;
        }
        let shorter: usize = cut_length(whole);
        assert(path@.take(shorter as int) =~= whole@.take(shorter as int));
        length = shorter;
    }
    length
}

/// The path one component up.
pub fn parent_path(path: &[u8]) -> (up: Option<Vec<u8>>)
    ensures
        match up {
            Some(up) => parent(path@) == Some(up@),
            None => parent(path@) is None,
        },
{
    let length: usize = trimmed_length(path);
    let whole = slice_subrange(path, 0, length);
    assert(whole@ =~= path@.take(length as int));
    let root: [u8; 1] = [SLASH];
    assert(root@ =~= seq![SLASH]);
    if whole.len() == 0 || same_bytes(whole, &root) {
        return None;
    }
    let shorter: usize = cut_length(whole);
    let front = slice_subrange(whole, 0, shorter);
    assert(front@ =~= whole@.take(shorter as int));
    let end: usize = trimmed_length(front);
    let up = slice_subrange(front, 0, end);
    assert(up@ =~= front@.take(end as int));
    Some(copy_bytes(up))
}

/// The parent of a path, or the root where it has none.
pub fn parent_path_or_root(path: &[u8]) -> (up: Vec<u8>)
    ensures
        up@ == parent_or_root(path@),
{
    match parent_path(path) {
        Some(up) => up,
        None => {
            let mut root: Vec<u8> = Vec::new();
            root.push(SLASH);
            assert(root@ =~= seq![SLASH]);
            root
        },
    }
}

/// The last component of a path, where it is a name.
pub fn file_name_of(path: &[u8]) -> (name: Option<Vec<u8>>)
    ensures
        match name {
            Some(name) => file_name(path@) == Some(name@),
            None => file_name(path@) is None,
        },
{
    let length: usize = trimmed_length(path);
    let whole = slice_subrange(path, 0, length);
    assert(whole@ =~= path@.take(length as int));
    let start: usize = match find_last_slash(whole) {
        None => 0,
        Some(place) => place + 1,
    };
    let name = slice_subrange(whole, start, length);
    assert(name@ =~= last_segment(whole@));
    let dot: [u8; 1] = [DOT];
    let dots: [u8; 2] = [DOT, DOT];
    assert(dot@ =~= current_dir());
    assert(dots@ =~= parent_dir());
    if name.len() == 0 || same_bytes(name, &dot) || same_bytes(name, &dots) {
        None
    } else {
        Some(copy_bytes(name))
    }
}

/// Puts a relative path behind a path.
pub fn join_below(base: Vec<u8>, rest: &[u8]) -> (path: Vec<u8>)
    ensures
        path@ == below(base@, rest@),
{
    let mut path: Vec<u8> = base;
    if rest.len() == 0 {
        return path;
    }
    let count: usize = path.len();
    if count > 0 && path[count - 1] != SLASH {
        path.push(SLASH);
    }
    append_bytes(&mut path, rest);
    path
}

/// The last separator is a separator.
proof fn lemma_last_slash_bound(path: Seq<u8>)
    ensures
        last_slash(path) matches Some(place) ==> place < path.len() && path[place as int] == SLASH,
    decreases path.len(),
{
    if path.len() > 0 && path.last() != SLASH {
        lemma_last_slash_bound(path.drop_last());
    }
}

/// What is left of a path without its last segment is a proper beginning of it.
pub proof fn lemma_cut_is_shorter(path: Seq<u8>)
    requires
        path.len() > 0,
        path != seq![SLASH],
    ensures
        cut(path).len() < path.len(),
        cut(path) == path.take(cut(path).len() as int),
{
    lemma_last_slash_bound(path);
    if last_slash(path) == Some(0nat) && path.len() == 1 {
        assert(path =~= seq![SLASH]);
    }
    assert(cut(path) =~= path.take(cut(path).len() as int));
}

/// A trimmed path is a beginning of the path.
pub proof fn lemma_trimmed_is_a_beginning(path: Seq<u8>)
    ensures
        trimmed(path).len() <= path.len(),
        trimmed(path) == path.take(trimmed(path).len() as int),
    decreases path.len(),
{
    if path.len() == 0 || path == seq![SLASH] || path == current_dir() || !idle(last_segment(path)) {
        assert(path =~= path.take(path.len() as int));
    } else {
        lemma_cut_is_shorter(path);
        lemma_trimmed_is_a_beginning(cut(path));
        let length = trimmed(path).len() as int;
        assert(cut(path).take(length) =~= path.take(length));
    }
}

/// Bytes without a separator.
spec fn unbroken(bytes: Seq<u8>) -> bool {
    forall|i: int| 0 <= i < bytes.len() ==> #[trigger] bytes[i] != SLASH
}

/// No segment holds a separator.
proof fn lemma_segments_unbroken(path: Seq<u8>)
    ensures
        segments(path).len() > 0,
        forall|i: int| 0 <= i < segments(path).len() ==> unbroken(#[trigger] segments(path)[i]),
    decreases path.len(),
{
    if path.len() > 0 {
        lemma_segments_unbroken(path.drop_last());
        let before = segments(path.drop_last());
        assert(unbroken(before.last()));
    }
}

/// A separator and bytes without one add one segment.
proof fn lemma_segments_add(path: Seq<u8>, name: Seq<u8>)
    requires
        unbroken(name),
    ensures
        segments(path.push(SLASH) + name) == segments(path).push(name),
    decreases name.len(),
{
    let whole = path.push(SLASH) + name;
    if name.len() == 0 {
        assert(whole =~= path.push(SLASH));
        assert(whole.drop_last() =~= path);
        assert(name =~= Seq::<u8>::empty());
    } else {
        let shorter = name.drop_last();
        assert(whole.drop_last() =~= path.push(SLASH) + shorter);
        assert forall|i: int| 0 <= i < shorter.len() implies #[trigger] shorter[i] != SLASH by {
            assert(shorter[i] == name[i]);
        }
        lemma_segments_add(path, shorter);
        lemma_segments_unbroken(path);
        assert(name.last() != SLASH);
        assert(shorter.push(name.last()) =~= name);
        assert(segments(whole) =~= segments(path).push(name));
    }
}

/// Bytes without a separator are one segment.
proof fn lemma_segments_single(name: Seq<u8>)
    requires
        unbroken(name),
    ensures
        segments(name) == seq![name],
    decreases name.len(),
{
    if name.len() == 0 {
        assert(name =~= Seq::<u8>::empty());
    } else {
        let shorter = name.drop_last();
        assert forall|i: int| 0 <= i < shorter.len() implies #[trigger] shorter[i] != SLASH by {
            assert(shorter[i] == name[i]);
        }
        lemma_segments_single(shorter);
        assert(name.last() != SLASH);
        assert(shorter.push(name.last()) =~= name);
        assert(segments(name) =~= seq![name]);
    }
}

/// A separator in front adds an empty segment in front.
proof fn lemma_segments_rooted(path: Seq<u8>)
    ensures
        segments(seq![SLASH] + path) == seq![Seq::<u8>::empty()] + segments(path),
    decreases path.len(),
{
    let whole = seq![SLASH] + path;
    if path.len() == 0 {
        assert(whole.drop_last() =~= Seq::<u8>::empty());
        assert(whole.last() == SLASH);
        assert(path =~= Seq::<u8>::empty());
        assert(segments(Seq::<u8>::empty()) =~= seq![Seq::<u8>::empty()]);
        assert(segments(whole) =~= seq![Seq::<u8>::empty()] + segments(path));
    } else {
        assert(whole.drop_last() =~= seq![SLASH] + path.drop_last());
        assert(whole.last() == path.last());
        lemma_segments_rooted(path.drop_last());
        lemma_segments_unbroken(path.drop_last());
        assert(segments(whole) =~= seq![Seq::<u8>::empty()] + segments(path));
    }
}

/// The segments of joined components are the components.
proof fn lemma_segments_joined(list: Seq<Seq<u8>>)
    requires
        list.len() > 0,
        forall|i: int| 0 <= i < list.len() ==> is_component(#[trigger] list[i]),
    ensures
        segments(joined(list)) == list,
    decreases list.len(),
{
    assert(is_component(list.last()));
    if list.len() == 1 {
        lemma_segments_single(list[0]);
        assert(seq![list[0]] =~= list);
    } else {
        let front = list.drop_last();
        assert forall|i: int| 0 <= i < front.len() implies is_component(#[trigger] front[i]) by {
            assert(front[i] == list[i]);
        }
        lemma_segments_joined(front);
        lemma_segments_add(joined(front), list.last());
        assert(front.push(list.last()) =~= list);
    }
}

/// Joined components begin with the first of them.
proof fn lemma_joined_front(list: Seq<Seq<u8>>)
    requires
        list.len() > 0,
        forall|i: int| 0 <= i < list.len() ==> is_component(#[trigger] list[i]),
    ensures
        joined(list).len() > 0,
        joined(list)[0] != SLASH,
        joined(list).last() != SLASH,
    decreases list.len(),
{
    assert(is_component(list[0]));
    assert(is_component(list.last()));
    let last = list.last();
    assert(last[last.len() - 1] != SLASH);
    if list.len() > 1 {
        let front = list.drop_last();
        assert forall|i: int| 0 <= i < front.len() implies is_component(#[trigger] front[i]) by {
            assert(front[i] == list[i]);
        }
        lemma_joined_front(front);
    }
}

/// A walk ends with components in normal form.
proof fn lemma_walk_normal(rooted: bool, along: Seq<Seq<u8>>)
    requires
        forall|i: int| 0 <= i < along.len() ==> unbroken(#[trigger] along[i]),
    ensures
        normal_components(rooted, walk(rooted, along)),
    decreases along.len(),
{
    if along.len() > 0 {
        let front = along.drop_last();
        assert forall|i: int| 0 <= i < front.len() implies unbroken(#[trigger] front[i]) by {
            assert(front[i] == along[i]);
        }
        lemma_walk_normal(rooted, front);
        assert(unbroken(along.last()));
    }
}

/// A walk along components in normal form reaches them.
proof fn lemma_walk_along_normal(rooted: bool, list: Seq<Seq<u8>>)
    requires
        normal_components(rooted, list),
    ensures
        walk(rooted, list) == list,
    decreases list.len(),
{
    if list.len() > 0 {
        let front = list.drop_last();
        assert(normal_components(rooted, front)) by {
            assert(forall|i: int| 0 <= i < front.len() ==> #[trigger] front[i] == list[i]);
        }
        lemma_walk_along_normal(rooted, front);
        assert(is_component(list.last()));
        if list.last() == parent_dir() && front.len() > 0 {
            assert(list[list.len() - 1] == parent_dir());
            assert(list[front.len() - 1] == parent_dir());
            assert(front.last() == parent_dir());
        }
        assert(front.push(list.last()) =~= list);
    }
}

/// An empty segment in front does not change a walk.
proof fn lemma_walk_skips_empty(rooted: bool, list: Seq<Seq<u8>>)
    ensures
        walk(rooted, seq![Seq::<u8>::empty()] + list) == walk(rooted, list),
    decreases list.len(),
{
    let whole = seq![Seq::<u8>::empty()] + list;
    if list.len() == 0 {
        assert(whole.drop_last() =~= list);
        assert(whole.last() =~= Seq::<u8>::empty());
    } else {
        assert(whole.drop_last() =~= seq![Seq::<u8>::empty()] + list.drop_last());
        lemma_walk_skips_empty(rooted, list.drop_last());
    }
}

/// A path that is written from components in normal form has those components.
pub proof fn law_rendering_reads_back(rooted: bool, list: Seq<Seq<u8>>)
    requires
        normal_components(rooted, list),
    ensures
        absolute(rendered(rooted, list)) == rooted,
        components(rendered(rooted, list)) == list,
{
    let text = joined(list);
    lemma_walk_along_normal(rooted, list);
    if list.len() == 0 {
        assert(text =~= Seq::<u8>::empty());
        lemma_walk_skips_empty(rooted, Seq::empty());
        assert(seq![Seq::<u8>::empty()] + Seq::<Seq<u8>>::empty() =~= seq![Seq::<u8>::empty()]);
        assert(walk(rooted, segments(text)) =~= list);
        assert(list =~= Seq::<Seq<u8>>::empty());
    } else {
        lemma_segments_joined(list);
        lemma_joined_front(list);
    }
    if rooted {
        lemma_segments_rooted(text);
        lemma_walk_skips_empty(rooted, segments(text));
    }
}

/// The components of every path are in normal form: no `.`, no `..` on an absolute path, and on a
/// relative one `..` only at the front. The normal form of a path is as absolute as the path and has
/// its components.
pub proof fn law_normal_form_is_normal(path: Seq<u8>)
    ensures
        normal_components(absolute(path), components(path)),
        absolute(normal_form(path)) == absolute(path),
        components(normal_form(path)) == components(path),
{
    lemma_segments_unbroken(path);
    lemma_walk_normal(absolute(path), segments(path));
    law_rendering_reads_back(absolute(path), components(path));
}

/// The normal form of a normal form is itself.
pub proof fn law_normal_form_is_stable(path: Seq<u8>)
    ensures
        normal_form(normal_form(path)) == normal_form(path),
{
    law_normal_form_is_normal(path);
}

/// The last separator of a path with a name at its end stands before the name.
proof fn lemma_last_slash(path: Seq<u8>, name: Seq<u8>)
    requires
        unbroken(name),
    ensures
        last_slash(path.push(SLASH) + name) == Some(path.len()),
        last_slash(name) is None,
    decreases name.len(),
{
    let whole = path.push(SLASH) + name;
    if name.len() == 0 {
        assert(whole =~= path.push(SLASH));
    } else {
        let shorter = name.drop_last();
        assert forall|i: int| 0 <= i < shorter.len() implies #[trigger] shorter[i] != SLASH by {
            assert(shorter[i] == name[i]);
        }
        assert(whole.drop_last() =~= path.push(SLASH) + shorter);
        assert(name.last() != SLASH);
        lemma_last_slash(path, shorter);
    }
}

/// The last segment of a path in normal form is its last component, and the path is trimmed.
proof fn lemma_rendered_end(rooted: bool, list: Seq<Seq<u8>>)
    requires
        list.len() > 0,
        forall|i: int| 0 <= i < list.len() ==> is_component(#[trigger] list[i]),
    ensures
        cut(rendered(rooted, list)) == rendered(rooted, list.drop_last()),
        last_segment(rendered(rooted, list)) == list.last(),
        trimmed(rendered(rooted, list)) == rendered(rooted, list),
{
    let front = list.drop_last();
    let name = list.last();
    let path = rendered(rooted, list);
    assert(is_component(name));
    lemma_last_slash(Seq::empty(), name);
    if front.len() == 0 {
        assert(joined(list) == name);
        assert(joined(front) =~= Seq::<u8>::empty());
        if rooted {
            assert(path =~= Seq::<u8>::empty().push(SLASH) + name);
            assert(path.skip(1) =~= name);
            assert(rendered(rooted, front) =~= seq![SLASH]);
        }
    } else {
        let base = rendered(rooted, front);
        assert forall|i: int| 0 <= i < front.len() implies is_component(#[trigger] front[i]) by {
            assert(front[i] == list[i]);
        }
        lemma_joined_front(front);
        assert(path =~= base.push(SLASH) + name);
        lemma_last_slash(base, name);
        assert(path.take(base.len() as int) =~= base);
        assert(path.skip(base.len() as int + 1) =~= name);
    }
}

/// What follows the last separator of a path is its last segment, and what precedes it has the others.
proof fn lemma_last_segment(path: Seq<u8>)
    ensures
        match last_slash(path) {
            None => segments(path) == seq![path],
            Some(place) => {
                &&& place < path.len()
                &&& segments(path) == segments(path.take(place as int)).push(last_segment(path))
            },
        },
{
    lemma_no_slash_behind(path);
    match last_slash(path) {
        None => lemma_segments_single(path),
        Some(place) => {
            lemma_last_slash_bound(path);
            let front = path.take(place as int);
            assert(path =~= front.push(SLASH) + last_segment(path));
            lemma_segments_add(front, last_segment(path));
        },
    }
}

/// The last segment of a path holds no separator.
proof fn lemma_no_slash_behind(path: Seq<u8>)
    ensures
        unbroken(last_segment(path)),
    decreases path.len(),
{
    lemma_last_slash_bound(path);
    if path.len() > 0 && path.last() != SLASH {
        let shorter = path.drop_last();
        lemma_no_slash_behind(shorter);
        lemma_last_slash_bound(shorter);
        assert(last_segment(path) =~= last_segment(shorter).push(path.last()));
    }
}

/// To cut off the last segment of a path takes it away from the components, and leaves the path as
/// absolute as it was.
proof fn lemma_cut_tells(path: Seq<u8>)
    requires
        path.len() > 0,
        path != seq![SLASH],
    ensures
        absolute(cut(path)) == absolute(path),
        named(segments(path)) == (if idle(last_segment(path)) {
            named(segments(cut(path)))
        } else {
            named(segments(cut(path))).push(last_segment(path))
        }),
{
    let name = last_segment(path);
    let nothing = Seq::<u8>::empty();
    lemma_last_segment(path);
    lemma_last_slash_bound(path);
    reveal_with_fuel(named, 3);
    assert(segments(nothing) =~= seq![nothing]);
    assert(seq![nothing].drop_last() =~= Seq::<Seq<u8>>::empty());
    assert(named(segments(nothing)) =~= Seq::<Seq<u8>>::empty());
    match last_slash(path) {
        None => {
            if absolute(path) {
                assert(path[0] == SLASH);
                lemma_no_slash_behind(path);
            }
            assert(seq![path].drop_last() =~= Seq::<Seq<u8>>::empty());
        },
        Some(place) => {
            let front = path.take(place as int);
            assert(segments(front).push(name).drop_last() =~= segments(front));
            if place == 0 {
                assert(front =~= nothing);
                assert(seq![SLASH].drop_last() =~= nothing);
                assert(segments(seq![SLASH]) =~= seq![nothing].push(nothing));
                assert(seq![nothing].push(nothing).drop_last() =~= seq![nothing]);
            }
        },
    }
}

/// A trimmed path has the components of the path and is as absolute. It ends with the last of them,
/// unless it is empty, the root or `.`.
proof fn lemma_trimmed_tells(path: Seq<u8>)
    ensures
        absolute(trimmed(path)) == absolute(path),
        named(segments(trimmed(path))) == named(segments(path)),
        trimmed(path).len() == 0 || trimmed(path) == seq![SLASH] || trimmed(path) == current_dir() || !idle(
            last_segment(trimmed(path)),
        ),
    decreases path.len(),
{
    if !(path.len() == 0 || path == seq![SLASH] || path == current_dir() || !idle(last_segment(path))) {
        lemma_cut_is_shorter(path);
        lemma_cut_tells(path);
        lemma_trimmed_tells(cut(path));
    }
}

/// The empty path, the root and `.` have no component that is told.
proof fn lemma_bare_paths()
    ensures
        named(segments(Seq::empty())) == Seq::<Seq<u8>>::empty(),
        named(segments(seq![SLASH])) == Seq::<Seq<u8>>::empty(),
        named(segments(current_dir())) == Seq::<Seq<u8>>::empty(),
        last_segment(Seq::empty()) == Seq::<u8>::empty(),
        last_segment(seq![SLASH]) == Seq::<u8>::empty(),
        last_segment(current_dir()) == current_dir(),
{
    let nothing = Seq::<u8>::empty();
    reveal_with_fuel(named, 3);
    reveal_with_fuel(last_slash, 2);
    assert(segments(nothing) =~= seq![nothing]);
    assert(seq![nothing].drop_last() =~= Seq::<Seq<u8>>::empty());
    assert(seq![SLASH].drop_last() =~= nothing);
    assert(current_dir().drop_last() =~= nothing);
    assert(segments(seq![SLASH]) =~= seq![nothing].push(nothing));
    assert(seq![nothing].push(nothing).drop_last() =~= seq![nothing]);
    assert(seq![SLASH].skip(1) =~= nothing);
    lemma_segments_single(current_dir());
    assert(seq![current_dir()].drop_last() =~= Seq::<Seq<u8>>::empty());
    assert(named(segments(current_dir())) =~= Seq::<Seq<u8>>::empty());
}

/// A walk whose last named segment is a name ends with that name.
proof fn lemma_walk_ends_with_a_name(rooted: bool, along: Seq<Seq<u8>>)
    requires
        named(along).len() > 0,
        named(along).last() != parent_dir(),
    ensures
        walk(rooted, along).len() > 0,
        walk(rooted, along).last() == named(along).last(),
    decreases along.len(),
{
    if idle(along.last()) {
        lemma_walk_ends_with_a_name(rooted, along.drop_last());
    }
}

/// The file name of any path is the last of its segments that is neither empty nor `.`; there is none
/// where no such segment is left or it is `..`. A file name is the last component of the path. The file
/// name of a normal form is its last component, unless it has none or this is `..`.
pub proof fn law_file_name_is_the_last_component(path: Seq<u8>)
    ensures
        ({
            let told = named(segments(path));
            &&& file_name(path) == (if told.len() == 0 || told.last() == parent_dir() {
                None
            } else {
                Some(told.last())
            })
            &&& file_name(path) matches Some(name) ==> components(path).len() > 0 && components(path).last() == name
            &&& file_name(normal_form(path)) == (if components(path).len() == 0 || components(path).last()
                == parent_dir() {
                None
            } else {
                Some(components(path).last())
            })
        }),
{
    let whole = trimmed(path);
    let told = named(segments(path));
    lemma_trimmed_tells(path);
    lemma_bare_paths();
    if whole.len() == 0 {
        assert(whole =~= Seq::<u8>::empty());
    } else if whole != seq![SLASH] && whole != current_dir() {
        lemma_cut_tells(whole);
        assert(told.last() == last_segment(whole));
    }
    if told.len() > 0 && told.last() != parent_dir() {
        lemma_walk_ends_with_a_name(absolute(path), segments(path));
    }
    law_normal_form_is_normal(path);
    if components(path).len() > 0 {
        law_parent_and_file_name(absolute(path), components(path));
    } else {
        assert(joined(components(path)) =~= Seq::<u8>::empty());
        assert(absolute(path) ==> normal_form(path) =~= seq![SLASH]);
        assert(!absolute(path) ==> normal_form(path) =~= Seq::<u8>::empty());
    }
}

/// The parent of any path has its components but for the last, `..` counted as one, and is as absolute.
/// A path without components has a parent only where it consists of `.` alone; this is the empty path.
pub proof fn law_parent_leaves_out_the_last_component(path: Seq<u8>)
    ensures
        ({
            let told = named(segments(path));
            match parent(path) {
                Some(up) => {
                    &&& absolute(up) == absolute(path)
                    &&& named(segments(up)) == (if told.len() == 0 {
                        told
                    } else {
                        told.drop_last()
                    })
                    &&& told.len() == 0 ==> trimmed(path) == current_dir() && up == Seq::<u8>::empty()
                },
                None => told.len() == 0,
            }
        }),
{
    let whole = trimmed(path);
    let told = named(segments(path));
    lemma_trimmed_tells(path);
    lemma_bare_paths();
    if whole.len() == 0 {
        assert(whole =~= Seq::<u8>::empty());
    } else if whole != seq![SLASH] {
        lemma_cut_tells(whole);
        lemma_trimmed_tells(cut(whole));
        if whole == current_dir() {
            reveal_with_fuel(last_slash, 2);
            assert(current_dir().drop_last() =~= Seq::<u8>::empty());
            assert(cut(whole) =~= Seq::<u8>::empty());
        } else {
            assert(told.drop_last() =~= named(segments(cut(whole))));
        }
    }
}

/// On paths in normal form, the parent is the path without its last component, the file name is that
/// component unless it is `..`, and the two together are the path.
pub proof fn law_parent_and_file_name(rooted: bool, list: Seq<Seq<u8>>)
    requires
        normal_components(rooted, list),
        list.len() > 0,
    ensures
        parent(rendered(rooted, list)) == Some(rendered(rooted, list.drop_last())),
        file_name(rendered(rooted, list)) == (if list.last() == parent_dir() {
            None
        } else {
            Some(list.last())
        }),
        below(rendered(rooted, list.drop_last()), list.last()) == rendered(rooted, list),
{
    let front = list.drop_last();
    let name = list.last();
    let path = rendered(rooted, list);
    assert(is_component(name));
    lemma_rendered_end(rooted, list);
    assert(path.len() > 0 && path != seq![SLASH]) by {
        reveal_with_fuel(last_slash, 2);
        if path == seq![SLASH] {
            assert(last_segment(path) =~= Seq::<u8>::empty());
        }
    }
    if front.len() == 0 {
        assert(joined(list) == name);
        assert(joined(front) =~= Seq::<u8>::empty());
        assert(rooted ==> rendered(rooted, front) =~= seq![SLASH]);
        assert(below(rendered(rooted, front), name) =~= path);
    } else {
        assert forall|i: int| 0 <= i < front.len() implies is_component(#[trigger] front[i]) by {
            assert(front[i] == list[i]);
        }
        lemma_rendered_end(rooted, front);
        lemma_joined_front(front);
        assert(below(rendered(rooted, front), name) =~= path);
    }
}

/// The segments of a path are what stands between its slashes: none of them holds one, and with one slash
/// between each two they make up the path.
pub proof fn law_segments_make_up_the_path(path: Seq<u8>)
    ensures
        segments(path).len() > 0,
        forall|i: int, j: int|
            0 <= i < segments(path).len() && 0 <= j < segments(path)[i].len() ==> #[trigger] segments(path)[i][j] != '/' as u8,
        joined(segments(path)) == path,
    decreases path.len(),
{
    lemma_segments_unbroken(path);
    assert forall|i: int, j: int|
        0 <= i < segments(path).len() && 0 <= j < segments(path)[i].len() implies #[trigger] segments(path)[i][j] != '/' as u8 by {
        assert(unbroken(segments(path)[i]));
    }
    lemma_last_segment(path);
    match last_slash(path) {
        None => {},
        Some(place) => {
            lemma_last_slash_bound(path);
            let front = path.take(place as int);
            law_segments_make_up_the_path(front);
            assert(segments(front).push(last_segment(path)).drop_last() =~= segments(front));
            assert(path =~= front.push(SLASH) + last_segment(path));
        },
    }
}

/// Components are joined with one slash between each two.
pub proof fn law_components_are_joined_by_slashes(list: Seq<Seq<u8>>, name: Seq<u8>)
    ensures
        joined(Seq::empty()) == Seq::<u8>::empty(),
        joined(seq![name]) == name,
        list.len() > 0 ==> joined(list.push(name)) == joined(list) + seq!['/' as u8] + name,
        rendered(true, list) == seq!['/' as u8] + joined(list),
        rendered(false, list) == joined(list),
{
    if list.len() > 0 {
        assert(list.push(name).drop_last() =~= list);
        assert(joined(list).push(SLASH) + name =~= joined(list) + seq!['/' as u8] + name);
    }
}

/// A path behind another one stands behind a slash, unless there is one already or nothing to stand behind.
pub proof fn law_below_is_behind_a_slash(base: Seq<u8>, rest: Seq<u8>)
    ensures
        below(base, Seq::empty()) == base,
        below(Seq::empty(), rest) == rest,
        rest.len() > 0 && base.len() > 0 && base.last() != '/' as u8 ==> below(base, rest) == base + seq!['/' as u8] + rest,
        base.len() > 0 && base.last() == '/' as u8 ==> below(base, rest) == base + rest,
{
    assert(Seq::<u8>::empty() + rest =~= rest);
    assert(base + Seq::<u8>::empty() =~= base);
    assert(base.push(SLASH) + rest =~= base + seq!['/' as u8] + rest);
    if rest.len() == 0 {
        assert(rest =~= Seq::<u8>::empty());
    }
}

/// One more segment at the end of a path.
proof fn lemma_one_more_segment(path: Seq<u8>, segment: Seq<u8>)
    requires
        path.len() > 0,
        unbroken(segment),
    ensures
        ({
            let longer = path + seq!['/' as u8] + segment;
            &&& absolute(longer) == absolute(path)
            &&& components(longer) == enter(absolute(path), components(path), segment)
        }),
{
    let longer = path + seq!['/' as u8] + segment;
    assert(longer =~= path.push(SLASH) + segment);
    lemma_segments_add(path, segment);
    assert(segments(path).push(segment).drop_last() =~= segments(path));
    assert(longer[0] == path[0]);
}

/// The normal form of a path grows by a name at its end, is not changed by a slash or a `.` there, and a
/// `..` takes the name before it away.
pub proof fn law_normal_form_step_by_step(path: Seq<u8>, name: Seq<u8>)
    requires
        path.len() > 0,
        is_component(name),
        name != parent_dir(),
    ensures
        ({
            let slash = seq!['/' as u8];
            let dot = seq!['.' as u8];
            let dots = seq!['.' as u8, '.' as u8];
            &&& normal_form(path + slash + name) == below(normal_form(path), name)
            &&& normal_form(path + slash) == normal_form(path)
            &&& normal_form(path + slash + dot) == normal_form(path)
            &&& normal_form(path + slash + name + slash + dots) == normal_form(path)
        }),
{
    let slash = seq!['/' as u8];
    let dot = seq!['.' as u8];
    let dots = seq!['.' as u8, '.' as u8];
    let rooted = absolute(path);
    let list = components(path);
    law_normal_form_is_normal(path);
    law_normal_form_is_normal(path + slash + name);
    lemma_one_more_segment(path, name);
    lemma_one_more_segment(path, Seq::empty());
    lemma_one_more_segment(path, dot);
    lemma_one_more_segment(path + slash + name, dots);
    assert(path + slash + Seq::<u8>::empty() =~= path + slash);
    assert(dot =~= current_dir());
    assert(dots =~= parent_dir());
    assert(components(path + slash + name) == list.push(name));
    law_parent_and_file_name(rooted, list.push(name));
    assert(list.push(name).drop_last() =~= list);
}

/// A `..` goes up as far as there are names. At the root it has no effect; on a relative path those that go
/// up further are kept.
pub proof fn law_normal_form_goes_up(path: Seq<u8>)
    requires
        path.len() > 0,
    ensures
        ({
            let up = path + seq!['/' as u8, '.' as u8, '.' as u8];
            let list = components(path);
            &&& list.len() > 0 && list.last() != parent_dir() ==> components(up) == list.drop_last()
            &&& list.len() == 0 && absolute(path) ==> normal_form(up) == seq!['/' as u8]
            &&& !absolute(path) && (list.len() == 0 || list.last() == parent_dir()) ==> components(up) == list.push(
                seq!['.' as u8, '.' as u8],
            )
        }),
{
    let dots = seq!['.' as u8, '.' as u8];
    let up = path + seq!['/' as u8, '.' as u8, '.' as u8];
    assert(up =~= path + seq!['/' as u8] + dots);
    assert(dots =~= parent_dir());
    lemma_one_more_segment(path, dots);
    assert(components(path).len() == 0 ==> joined(components(path)) =~= Seq::<u8>::empty());
    assert(seq![SLASH] + Seq::<u8>::empty() =~= seq![SLASH]);
    if components(path).len() == 0 && absolute(path) {
        assert(components(up) =~= Seq::<Seq<u8>>::empty());
        assert(joined(components(up)) =~= Seq::<u8>::empty());
    }
}

/// The shortest paths: nothing, the root, and one name, are their own normal form, and `.` leads nowhere.
pub proof fn law_normal_form_of_short_paths(name: Seq<u8>)
    requires
        is_component(name),
    ensures
        normal_form(Seq::empty()) == Seq::<u8>::empty(),
        normal_form(seq!['/' as u8]) == seq!['/' as u8],
        normal_form(seq!['.' as u8]) == Seq::<u8>::empty(),
        normal_form(name) == name,
{
    let nothing = Seq::<u8>::empty();
    let none = Seq::<Seq<u8>>::empty();
    let dot = seq!['.' as u8];
    reveal_with_fuel(walk, 3);
    lemma_segments_single(nothing);
    lemma_segments_single(dot);
    lemma_segments_single(name);
    assert(seq![SLASH].drop_last() =~= nothing);
    assert(segments(seq![SLASH]) =~= seq![nothing, nothing]);
    assert(seq![nothing, nothing].drop_last() =~= seq![nothing]);
    assert(seq![nothing].drop_last() =~= none);
    assert(seq![dot].drop_last() =~= none);
    assert(seq![name].drop_last() =~= none);
    assert(dot =~= current_dir());
    assert(joined(none) =~= nothing);
    assert(seq![SLASH] + nothing =~= seq![SLASH]);
    assert(none.push(name) =~= seq![name]);
    assert(unbroken(name));
    assert(name[0] != SLASH);
}

/// A parent is a beginning of its path, and nothing stands at its end that leads nowhere else.
pub proof fn law_parent_is_a_beginning(path: Seq<u8>)
    ensures
        parent(path) matches Some(up) ==> {
            &&& up.len() < path.len()
            &&& up == path.take(up.len() as int)
            &&& up.len() > 1 ==> up.last() != '/' as u8
        },
        parent_or_root(path) == (match parent(path) {
            Some(up) => up,
            None => seq!['/' as u8],
        }),
{
    let whole = trimmed(path);
    lemma_trimmed_is_a_beginning(path);
    if let Some(up) = parent(path) {
        lemma_cut_is_shorter(whole);
        lemma_trimmed_is_a_beginning(cut(whole));
        assert(up =~= path.take(up.len() as int));
        lemma_trimmed_tells(cut(whole));
        if up.len() > 1 && up.last() == SLASH {
            lemma_last_slash_bound(up);
            assert(last_slash(up) == Some((up.len() - 1) as nat));
            assert(last_segment(up) =~= Seq::<u8>::empty());
        }
    }
}

} // verus!
