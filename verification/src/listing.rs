//! The order of the entries of a directory.

use crate::entry::{FileEntry, FileEntryView};
use crate::text::{bytes_before, comes_before, lemma_encoding_injective, reversed, text_before};
use vstd::prelude::*;
use vstd::utf8::*;

verus! {

/// A list with one more entry, put before the first one whose name comes later.
pub open spec fn inserted(entries: Seq<FileEntryView>, entry: FileEntryView) -> Seq<FileEntryView>
    decreases entries.len(),
{
    if entries.len() == 0 {
        seq![entry]
    } else if text_before(entry.name, entries.last().name) {
        inserted(entries.drop_last(), entry).push(entries.last())
    } else {
        entries.push(entry)
    }
}

/// The entries in the order of their names; those with the same name keep their order.
pub open spec fn by_name(entries: Seq<FileEntryView>) -> Seq<FileEntryView>
    decreases entries.len(),
{
    if entries.len() == 0 {
        Seq::empty()
    } else {
        inserted(by_name(entries.drop_last()), entries.last())
    }
}

/// No entry comes before an earlier one by its name.
pub open spec fn ordered(entries: Seq<FileEntryView>) -> bool {
    forall|i: int, j: int|
        0 <= i < j < entries.len() ==> !text_before(#[trigger] entries[j].name, #[trigger] entries[i].name)
}

/// The entries with a name, in order.
pub open spec fn named(entries: Seq<FileEntryView>, name: Seq<char>) -> Seq<FileEntryView>
    decreases entries.len(),
{
    if entries.len() == 0 {
        Seq::empty()
    } else if entries.last().name == name {
        named(entries.drop_last(), name).push(entries.last())
    } else {
        named(entries.drop_last(), name)
    }
}

/// Two lists hold the same entries, and those with the same name in the same order.
pub open spec fn same_by_name(left: Seq<FileEntryView>, right: Seq<FileEntryView>) -> bool {
    forall|name: Seq<char>| #[trigger] named(left, name) == named(right, name)
}

/// The contents of entries.
pub open spec fn entry_views(entries: Seq<FileEntry>) -> Seq<FileEntryView> {
    Seq::new(entries.len(), |i: int| entries[i]@)
}

proof fn lemma_before_is_strict(left: Seq<u8>, right: Seq<u8>)
    ensures
        !(bytes_before(left, right) && bytes_before(right, left)),
        !bytes_before(left, left),
    decreases left.len(),
{
    if left.len() > 0 {
        lemma_before_is_strict(left.skip(1), left.skip(1));
        if right.len() > 0 {
            lemma_before_is_strict(left.skip(1), right.skip(1));
        }
    }
}

proof fn lemma_before_is_transitive(first: Seq<u8>, second: Seq<u8>, third: Seq<u8>)
    requires
        bytes_before(first, second),
        bytes_before(second, third),
    ensures
        bytes_before(first, third),
    decreases first.len(),
{
    if first.len() > 0 && first[0] == second[0] && second[0] == third[0] {
        lemma_before_is_transitive(first.skip(1), second.skip(1), third.skip(1));
    }
}

proof fn lemma_before_is_total(left: Seq<u8>, right: Seq<u8>)
    requires
        !bytes_before(left, right),
        !bytes_before(right, left),
    ensures
        left == right,
    decreases left.len(),
{
    if left.len() > 0 && right.len() > 0 {
        lemma_before_is_total(left.skip(1), right.skip(1));
        assert(left =~= seq![left[0]] + left.skip(1));
        assert(right =~= seq![right[0]] + right.skip(1));
    } else {
        assert(left =~= right);
    }
}

/// The order of names: strict, and where neither of two names comes before the other they are equal.
proof fn lemma_name_order(first: Seq<char>, second: Seq<char>, third: Seq<char>)
    ensures
        !text_before(first, first),
        text_before(first, second) ==> !text_before(second, first),
        !text_before(first, second) && !text_before(second, first) ==> first == second,
        !text_before(second, first) && !text_before(third, second) ==> !text_before(third, first),
{
    let a = encode_utf8(first);
    let b = encode_utf8(second);
    let c = encode_utf8(third);
    lemma_before_is_strict(a, b);
    lemma_before_is_strict(b, c);
    lemma_before_is_strict(a, c);
    if !bytes_before(a, b) && !bytes_before(b, a) {
        lemma_before_is_total(a, b);
        lemma_encoding_injective(first, second);
    }
    if !bytes_before(b, a) && !bytes_before(c, b) && bytes_before(c, a) {
        if bytes_before(a, b) {
            lemma_before_is_transitive(c, a, b);
        } else {
            lemma_before_is_total(a, b);
        }
    }
}

proof fn lemma_named_concat(left: Seq<FileEntryView>, right: Seq<FileEntryView>, name: Seq<char>)
    ensures
        named(left + right, name) == named(left, name) + named(right, name),
    decreases right.len(),
{
    if right.len() == 0 {
        assert(left + right =~= left);
        assert(named(left, name) + named(right, name) =~= named(left, name));
    } else {
        lemma_named_concat(left, right.drop_last(), name);
        assert((left + right).drop_last() =~= left + right.drop_last());
        assert(named(left + right, name) =~= named(left, name) + named(right, name));
    }
}

proof fn lemma_named_push(entries: Seq<FileEntryView>, entry: FileEntryView, name: Seq<char>)
    ensures
        named(entries.push(entry), name) == if entry.name == name {
            named(entries, name).push(entry)
        } else {
            named(entries, name)
        },
{
    assert(entries.push(entry).drop_last() =~= entries);
}

/// Where no entry has a name, none is found by it.
proof fn lemma_named_none(entries: Seq<FileEntryView>, name: Seq<char>)
    requires
        forall|i: int| 0 <= i < entries.len() ==> (#[trigger] entries[i]).name != name,
    ensures
        named(entries, name) == Seq::<FileEntryView>::empty(),
    decreases entries.len(),
{
    if entries.len() > 0 {
        lemma_named_none(entries.drop_last(), name);
    }
}

/// The entries found by a name have that name and are in the list.
proof fn lemma_named_members(entries: Seq<FileEntryView>, name: Seq<char>)
    ensures
        forall|i: int|
            0 <= i < named(entries, name).len() ==> (#[trigger] named(entries, name)[i]).name == name
                && entries.contains(named(entries, name)[i]),
    decreases entries.len(),
{
    if entries.len() > 0 {
        let rest = entries.drop_last();
        lemma_named_members(rest, name);
        assert forall|i: int| 0 <= i < named(entries, name).len() implies (#[trigger] named(entries, name)[i]).name
            == name && entries.contains(named(entries, name)[i]) by {
            let found = named(entries, name)[i];
            if i < named(rest, name).len() {
                assert(named(rest, name)[i] == found);
                let at = choose|k: int| 0 <= k < rest.len() && rest[k] == found;
                assert(entries[at] == found);
            } else {
                assert(entries[entries.len() - 1] == found);
            }
        }
    }
}

proof fn lemma_inserted(entries: Seq<FileEntryView>, entry: FileEntryView)
    requires
        ordered(entries),
    ensures
        ordered(inserted(entries, entry)),
        same_by_name(inserted(entries, entry), entries.push(entry)),
        inserted(entries, entry).len() == entries.len() + 1,
        forall|k: int|
            0 <= k < inserted(entries, entry).len() ==> #[trigger] inserted(entries, entry)[k] == entry
                || entries.contains(inserted(entries, entry)[k]),
    decreases entries.len(),
{
    let result = inserted(entries, entry);
    if entries.len() == 0 {
        assert(result =~= entries.push(entry));
    } else if text_before(entry.name, entries.last().name) {
        let rest = entries.drop_last();
        let last = entries.last();
        lemma_inserted(rest, entry);
        let inner = inserted(rest, entry);
        lemma_name_order(entry.name, last.name, entry.name);
        assert forall|i: int, j: int| 0 <= i < j < result.len() implies !text_before(
            #[trigger] result[j].name,
            #[trigger] result[i].name,
        ) by {
            if j < inner.len() {
                assert(result[i] == inner[i] && result[j] == inner[j]);
            } else {
                assert(result[j] == last);
                assert(result[i] == inner[i]);
                if inner[i] != entry {
                    let at = choose|k: int| 0 <= k < rest.len() && rest[k] == inner[i];
                    assert(entries[at] == inner[i]);
                    assert(entries[entries.len() - 1] == last);
                }
            }
        }
        assert forall|name: Seq<char>| #[trigger] named(result, name) == named(entries.push(entry), name) by {
            lemma_named_push(inner, last, name);
            lemma_named_push(rest, entry, name);
            lemma_named_push(entries, entry, name);
            lemma_named_push(rest, last, name);
            assert(rest.push(last) =~= entries);
            assert(named(inner, name) == named(rest.push(entry), name));
        }
        assert forall|k: int| 0 <= k < result.len() implies #[trigger] result[k] == entry || entries.contains(
            result[k],
        ) by {
            if k < inner.len() {
                assert(result[k] == inner[k]);
                if inner[k] != entry {
                    let at = choose|m: int| 0 <= m < rest.len() && rest[m] == inner[k];
                    assert(entries[at] == inner[k]);
                }
            } else {
                assert(entries[entries.len() - 1] == result[k]);
            }
        }
    } else {
        let last = entries.last();
        assert forall|i: int, j: int| 0 <= i < j < result.len() implies !text_before(
            #[trigger] result[j].name,
            #[trigger] result[i].name,
        ) by {
            if j == entries.len() {
                assert(result[i] == entries[i]);
                lemma_name_order(entries[i].name, last.name, entry.name);
                lemma_name_order(last.name, last.name, entry.name);
                if i < entries.len() - 1 {
                    assert(!text_before(entries[entries.len() - 1].name, entries[i].name));
                }
            } else {
                assert(result[i] == entries[i] && result[j] == entries[j]);
            }
        }
        assert forall|k: int| 0 <= k < result.len() implies #[trigger] result[k] == entry || entries.contains(
            result[k],
        ) by {
            if k < entries.len() {
                assert(entries[k] == result[k]);
            }
        }
    }
}

/// A listing is ordered by name, holds the entries that were found and no others, and keeps the order
/// of those with the same name.
pub proof fn law_listing_is_ordered(entries: Seq<FileEntryView>)
    ensures
        ordered(by_name(entries)),
        same_by_name(by_name(entries), entries),
        by_name(entries).len() == entries.len(),
    decreases entries.len(),
{
    if entries.len() == 0 {
        assert(by_name(entries) =~= entries);
    } else {
        let rest = entries.drop_last();
        let last = entries.last();
        law_listing_is_ordered(rest);
        lemma_inserted(by_name(rest), last);
        assert(rest.push(last) =~= entries);
        assert forall|name: Seq<char>| #[trigger] named(by_name(entries), name) == named(entries, name) by {
            lemma_named_push(by_name(rest), last, name);
            lemma_named_push(rest, last, name);
            assert(named(by_name(rest), name) == named(rest, name));
            assert(named(inserted(by_name(rest), last), name) == named(by_name(rest).push(last), name));
        }
    }
}

/// An entry that is inserted is added to the others.
proof fn lemma_inserted_is_added(entries: Seq<FileEntryView>, entry: FileEntryView)
    ensures
        inserted(entries, entry).to_multiset() == entries.push(entry).to_multiset(),
    decreases entries.len(),
{
    broadcast use vstd::seq_lib::group_to_multiset_ensures;

    if entries.len() > 0 && text_before(entry.name, entries.last().name) {
        let rest = entries.drop_last();
        lemma_inserted_is_added(rest, entry);
        assert(rest.push(entries.last()) =~= entries);
        assert(inserted(entries, entry).to_multiset() =~= entries.push(entry).to_multiset());
    } else if entries.len() == 0 {
        assert(entries.push(entry) =~= seq![entry]);
    }
}

/// A listing holds each entry as often as it was found.
pub proof fn lemma_listing_keeps_entries(entries: Seq<FileEntryView>)
    ensures
        by_name(entries).to_multiset() == entries.to_multiset(),
    decreases entries.len(),
{
    broadcast use vstd::seq_lib::group_to_multiset_ensures;

    if entries.len() == 0 {
        assert(by_name(entries) =~= entries);
    } else {
        let rest = entries.drop_last();
        lemma_listing_keeps_entries(rest);
        lemma_inserted_is_added(by_name(rest), entries.last());
        assert(rest.push(entries.last()) =~= entries);
    }
}

/// The last entry of an ordered list that holds the same entries as another one is not before any
/// entry of the other one.
proof fn lemma_last_is_latest(left: Seq<FileEntryView>, right: Seq<FileEntryView>)
    requires
        ordered(left),
        same_by_name(left, right),
        left.len() > 0,
        right.len() > 0,
    ensures
        !text_before(left.last().name, right.last().name),
{
    let name = right.last().name;
    lemma_named_push(right.drop_last(), right.last(), name);
    assert(right.drop_last().push(right.last()) =~= right);
    assert(named(left, name) == named(right, name));
    lemma_named_members(left, name);
    let found = named(left, name).last();
    assert(named(left, name)[named(left, name).len() - 1] == found);
    let at = choose|k: int| 0 <= k < left.len() && left[k] == found;
    if at < left.len() - 1 {
        assert(!text_before(left[left.len() - 1].name, left[at].name));
    } else {
        lemma_name_order(name, name, name);
    }
}

/// There is only one ordered list with the same entries, those with the same name in the same order.
pub proof fn law_order_is_unique(left: Seq<FileEntryView>, right: Seq<FileEntryView>)
    requires
        ordered(left),
        ordered(right),
        same_by_name(left, right),
    ensures
        left == right,
    decreases left.len(),
{
    if left.len() == 0 {
        if right.len() > 0 {
            let name = right.last().name;
            assert(named(left, name) == named(right, name));
            assert(right.drop_last().push(right.last()) =~= right);
            assert(named(right, name).len() > 0);
        }
        assert(left =~= right);
    } else if right.len() == 0 {
        let name = left.last().name;
        assert(named(left, name) == named(right, name));
        assert(left.drop_last().push(left.last()) =~= left);
        assert(named(left, name).len() > 0);
    } else {
        lemma_last_is_latest(left, right);
        assert(same_by_name(right, left)) by {
            assert forall|name: Seq<char>| #[trigger] named(right, name) == named(left, name) by {
                assert(named(left, name) == named(right, name));
            }
        }
        lemma_last_is_latest(right, left);
        let name = left.last().name;
        lemma_name_order(name, right.last().name, name);
        assert(named(left, name) == named(right, name));
        assert(named(left, name).last() == left.last());
        assert(named(right, name).last() == right.last());
        let a = left.drop_last();
        let b = right.drop_last();
        assert(a.push(left.last()) =~= left);
        assert(b.push(right.last()) =~= right);
        assert forall|other: Seq<char>| #[trigger] named(a, other) == named(b, other) by {
            assert(named(left, other) == named(right, other));
            if other == name {
                assert(named(left, other).drop_last() =~= named(a, other));
                assert(named(right, other).drop_last() =~= named(b, other));
            }
        }
        assert forall|i: int, j: int| 0 <= i < j < a.len() implies !text_before(
            #[trigger] a[j].name,
            #[trigger] a[i].name,
        ) by {
            assert(!text_before(left[j].name, left[i].name));
        }
        assert forall|i: int, j: int| 0 <= i < j < b.len() implies !text_before(
            #[trigger] b[j].name,
            #[trigger] b[i].name,
        ) by {
            assert(!text_before(right[j].name, right[i].name));
        }
        law_order_is_unique(a, b);
    }
}

/// No entry of `later` comes before one of `earlier` by its name.
spec fn follows(earlier: Seq<FileEntryView>, later: Seq<FileEntryView>) -> bool {
    forall|i: int, j: int|
        0 <= i < earlier.len() && 0 <= j < later.len() ==> !text_before(
            #[trigger] later[j].name,
            #[trigger] earlier[i].name,
        )
}

/// Two ordered lists are being merged from the back: `left` and `right` are what is left of them, and
/// `merged` is the end of the result.
spec fn merging(
    left: Seq<FileEntryView>,
    right: Seq<FileEntryView>,
    merged: Seq<FileEntryView>,
    whole: Seq<FileEntryView>,
) -> bool {
    &&& ordered(left)
    &&& ordered(right)
    &&& ordered(merged)
    &&& follows(left, merged)
    &&& follows(right, merged)
    &&& forall|name: Seq<char>|
        named(left, name) + named(right, name) + named(merged, name) == #[trigger] named(whole, name)
}

proof fn lemma_ordered_front(entries: Seq<FileEntryView>)
    requires
        ordered(entries),
        entries.len() > 0,
    ensures
        ordered(entries.drop_last()),
        forall|i: int|
            0 <= i < entries.len() ==> !text_before(entries.last().name, (#[trigger] entries[i]).name),
{
    let rest = entries.drop_last();
    assert forall|i: int, j: int| 0 <= i < j < rest.len() implies !text_before(
        #[trigger] rest[j].name,
        #[trigger] rest[i].name,
    ) by {
        assert(!text_before(entries[j].name, entries[i].name));
    }
    assert forall|i: int| 0 <= i < entries.len() implies !text_before(
        entries.last().name,
        (#[trigger] entries[i]).name,
    ) by {
        if i < entries.len() - 1 {
            assert(!text_before(entries[entries.len() - 1].name, entries[i].name));
        } else {
            lemma_name_order(entries[i].name, entries[i].name, entries[i].name);
        }
    }
}

/// The last entry of `from` may be taken next, provided that no entry of the other list comes later.
proof fn lemma_take(
    from: Seq<FileEntryView>,
    other: Seq<FileEntryView>,
    merged: Seq<FileEntryView>,
)
    requires
        ordered(from),
        ordered(other),
        ordered(merged),
        follows(from, merged),
        follows(other, merged),
        from.len() > 0,
        other.len() > 0 ==> !text_before(from.last().name, other.last().name),
    ensures
        ordered(from.drop_last()),
        ordered(seq![from.last()] + merged),
        follows(from.drop_last(), seq![from.last()] + merged),
        follows(other, seq![from.last()] + merged),
{
    let taken = from.last();
    let longer = seq![taken] + merged;
    lemma_ordered_front(from);
    assert forall|i: int, j: int| 0 <= i < j < longer.len() implies !text_before(
        #[trigger] longer[j].name,
        #[trigger] longer[i].name,
    ) by {
        assert(longer[j] == merged[j - 1]);
        if i > 0 {
            assert(longer[i] == merged[i - 1]);
        } else {
            assert(!text_before(merged[j - 1].name, from[from.len() - 1].name));
        }
    }
    assert forall|i: int, j: int| 0 <= i < from.drop_last().len() && 0 <= j < longer.len() implies !text_before(
        #[trigger] longer[j].name,
        #[trigger] from.drop_last()[i].name,
    ) by {
        assert(from.drop_last()[i] == from[i]);
        if j > 0 {
            assert(longer[j] == merged[j - 1]);
        }
    }
    assert forall|i: int, j: int| 0 <= i < other.len() && 0 <= j < longer.len() implies !text_before(
        #[trigger] longer[j].name,
        #[trigger] other[i].name,
    ) by {
        if j > 0 {
            assert(longer[j] == merged[j - 1]);
        } else {
            lemma_ordered_front(other);
            lemma_name_order(other[i].name, other.last().name, taken.name);
        }
    }
}

proof fn lemma_take_left(
    left: Seq<FileEntryView>,
    right: Seq<FileEntryView>,
    merged: Seq<FileEntryView>,
    whole: Seq<FileEntryView>,
)
    requires
        merging(left, right, merged, whole),
        left.len() > 0,
        right.len() > 0 ==> text_before(right.last().name, left.last().name),
    ensures
        merging(left.drop_last(), right, seq![left.last()] + merged, whole),
{
    let taken = left.last();
    if right.len() > 0 {
        lemma_name_order(right.last().name, taken.name, taken.name);
    }
    lemma_take(left, right, merged);
    assert(left.drop_last().push(taken) =~= left);
    assert forall|name: Seq<char>|
        named(left.drop_last(), name) + named(right, name) + named(seq![taken] + merged, name) == #[trigger] named(
            whole,
            name,
        ) by {
        lemma_named_push(left.drop_last(), taken, name);
        lemma_named_concat(seq![taken], merged, name);
        lemma_named_push(Seq::empty(), taken, name);
        assert(Seq::<FileEntryView>::empty().push(taken) =~= seq![taken]);
        assert(named(left, name) + named(right, name) + named(merged, name) == named(whole, name));
        if taken.name == name {
            assert forall|i: int| 0 <= i < right.len() implies (#[trigger] right[i]).name != name by {
                lemma_ordered_front(right);
                lemma_name_order(right[i].name, right.last().name, taken.name);
                lemma_name_order(taken.name, right.last().name, right[i].name);
            }
            lemma_named_none(right, name);
        }
        assert(named(left.drop_last(), name) + named(right, name) + named(seq![taken] + merged, name) =~= named(
            left,
            name,
        ) + named(right, name) + named(merged, name));
    }
}

proof fn lemma_take_right(
    left: Seq<FileEntryView>,
    right: Seq<FileEntryView>,
    merged: Seq<FileEntryView>,
    whole: Seq<FileEntryView>,
)
    requires
        merging(left, right, merged, whole),
        right.len() > 0,
        left.len() > 0 ==> !text_before(right.last().name, left.last().name),
    ensures
        merging(left, right.drop_last(), seq![right.last()] + merged, whole),
{
    let taken = right.last();
    lemma_take(right, left, merged);
    assert(right.drop_last().push(taken) =~= right);
    assert forall|name: Seq<char>|
        named(left, name) + named(right.drop_last(), name) + named(seq![taken] + merged, name) == #[trigger] named(
            whole,
            name,
        ) by {
        lemma_named_push(right.drop_last(), taken, name);
        lemma_named_concat(seq![taken], merged, name);
        lemma_named_push(Seq::empty(), taken, name);
        assert(Seq::<FileEntryView>::empty().push(taken) =~= seq![taken]);
        assert(named(left, name) + named(right, name) + named(merged, name) == named(whole, name));
        assert(named(left, name) + named(right.drop_last(), name) + named(seq![taken] + merged, name) =~= named(
            left,
            name,
        ) + named(right, name) + named(merged, name));
    }
}

/// Merges two ordered lists. Of entries with the same name those of the left list come first.
fn merge(left: Vec<FileEntry>, right: Vec<FileEntry>) -> (merged: Vec<FileEntry>)
    requires
        ordered(entry_views(left@)),
        ordered(entry_views(right@)),
    ensures
        ordered(entry_views(merged@)),
        same_by_name(entry_views(merged@), entry_views(left@) + entry_views(right@)),
{
    let ghost whole = entry_views(left@) + entry_views(right@);
    let mut left: Vec<FileEntry> = left;
    let mut right: Vec<FileEntry> = right;
    let mut back: Vec<FileEntry> = Vec::new();
    proof {
        assert(entry_views(back@.reverse()) =~= Seq::<FileEntryView>::empty());
        assert forall|name: Seq<char>|
            named(entry_views(left@), name) + named(entry_views(right@), name) + named(
                entry_views(back@.reverse()),
                name,
            ) == #[trigger] named(whole, name) by {
            lemma_named_concat(entry_views(left@), entry_views(right@), name);
            assert(named(entry_views(back@.reverse()), name) =~= Seq::<FileEntryView>::empty());
            assert(named(whole, name) + Seq::<FileEntryView>::empty() =~= named(whole, name));
        }
    }
    while left.len() > 0 || right.len() > 0
        invariant
            merging(entry_views(left@), entry_views(right@), entry_views(back@.reverse()), whole),
        decreases left@.len() + right@.len(),
    {
        let ghost l = entry_views(left@);
        let ghost r = entry_views(right@);
        let ghost m = entry_views(back@.reverse());
        let from_left: bool = if right.len() == 0 {
            true
        } else if left.len() == 0 {
            false
        } else {
            comes_before(right[right.len() - 1].name.as_str(), left[left.len() - 1].name.as_str())
        };
        if from_left {
            proof {
                lemma_take_left(l, r, m, whole);
            }
            if let Some(entry) = left.pop() {
                back.push(entry);
                assert(entry_views(left@) =~= l.drop_last());
                assert(entry_views(back@.reverse()) =~= seq![l.last()] + m);
            }
        } else {
            proof {
                lemma_take_right(l, r, m, whole);
            }
            if let Some(entry) = right.pop() {
                back.push(entry);
                assert(entry_views(right@) =~= r.drop_last());
                assert(entry_views(back@.reverse()) =~= seq![r.last()] + m);
            }
        }
    }
    proof {
        assert forall|name: Seq<char>| #[trigger]
            named(entry_views(back@.reverse()), name) == named(whole, name) by {
            assert(named(entry_views(left@), name) + named(entry_views(right@), name) + named(
                entry_views(back@.reverse()),
                name,
            ) == named(whole, name));
            assert(named(entry_views(left@), name) + named(entry_views(right@), name) + named(
                entry_views(back@.reverse()),
                name,
            ) =~= named(entry_views(back@.reverse()), name));
        }
    }
    reversed(back)
}

/// Puts entries in order.
fn merge_sort(entries: Vec<FileEntry>) -> (sorted: Vec<FileEntry>)
    ensures
        ordered(entry_views(sorted@)),
        same_by_name(entry_views(sorted@), entry_views(entries@)),
    decreases entries@.len(),
{
    if entries.len() <= 1 {
        return entries;
    }
    let ghost whole = entry_views(entries@);
    let half: usize = entries.len() / 2;
    let mut left: Vec<FileEntry> = entries;
    let right: Vec<FileEntry> = left.split_off(half);
    let ghost l = entry_views(left@);
    let ghost r = entry_views(right@);
    assert(l + r =~= whole);
    let left: Vec<FileEntry> = merge_sort(left);
    let right: Vec<FileEntry> = merge_sort(right);
    let sorted: Vec<FileEntry> = merge(left, right);
    proof {
        assert forall|name: Seq<char>| #[trigger] named(entry_views(sorted@), name) == named(whole, name) by {
            lemma_named_concat(l, r, name);
            lemma_named_concat(entry_views(left@), entry_views(right@), name);
            assert(named(entry_views(left@), name) == named(l, name));
            assert(named(entry_views(right@), name) == named(r, name));
            assert(named(entry_views(sorted@), name) == named(
                entry_views(left@) + entry_views(right@),
                name,
            ));
        }
    }
    sorted
}

/// Puts the entries of a directory in the order of their names.
pub fn sort_by_name(entries: Vec<FileEntry>) -> (sorted: Vec<FileEntry>)
    ensures
        entry_views(sorted@) == by_name(entry_views(entries@)),
{
    let ghost whole = entry_views(entries@);
    let sorted: Vec<FileEntry> = merge_sort(entries);
    proof {
        law_listing_is_ordered(whole);
        assert forall|name: Seq<char>| #[trigger]
            named(entry_views(sorted@), name) == named(by_name(whole), name) by {
            assert(named(by_name(whole), name) == named(whole, name));
        }
        law_order_is_unique(entry_views(sorted@), by_name(whole));
    }
    sorted
}

} // verus!
