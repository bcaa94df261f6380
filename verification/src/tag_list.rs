//! Sequences of tags: what adding and removing a tag do to one, and the
//! laws that follow.

use vstd::prelude::*;
use crate::tag::Tag;

verus! {

/// The sequence without the elements that repeat the one just before them.
pub open spec fn dedup_adjacent(tags: Seq<Seq<char>>) -> Seq<Seq<char>>
    decreases tags.len(),
{
    if tags.len() <= 1 {
        tags
    } else if tags[tags.len() - 2] == tags.last() {
        dedup_adjacent(tags.drop_last())
    } else {
        dedup_adjacent(tags.drop_last()).push(tags.last())
    }
}

/// Whether no tag of the sequence repeats the one just before it.
pub open spec fn no_adjacent_repeats(tags: Seq<Seq<char>>) -> bool {
    forall|i: int| 0 < i < tags.len() ==> tags[i - 1] != #[trigger] tags[i]
}

/// The tags after one more is added: it goes to the end, and then every
/// tag that repeats its predecessor leaves.
pub open spec fn with_tag(tags: Seq<Seq<char>>, tag: Seq<char>) -> Seq<Seq<char>> {
    dedup_adjacent(tags.push(tag))
}

/// The position of the first occurrence of a tag, or the length of the
/// sequence where it does not occur.
pub open spec fn position(tags: Seq<Seq<char>>, tag: Seq<char>) -> int
    decreases tags.len(),
{
    if tags.len() == 0 {
        0
    } else if tags[0] == tag {
        0
    } else {
        1 + position(tags.drop_first(), tag)
    }
}

/// The tags without the first occurrence of one of them.
pub open spec fn without_tag(tags: Seq<Seq<char>>, tag: Seq<char>) -> Seq<Seq<char>> {
    if tags.contains(tag) {
        tags.remove(position(tags, tag))
    } else {
        tags
    }
}

/// Removes from a list of tags each one that repeats the tag just before it.
pub(crate) fn dedup_tags(tags: Vec<Tag>) -> (kept: Vec<Tag>)
    ensures
        kept.deep_view() == dedup_adjacent(tags.deep_view()),
{
    let ghost all = tags.deep_view();
    let mut kept: Vec<Tag> = Vec::new();
    for tag in it: tags
        invariant
            it.seq().len() == all.len(),
            forall|k: int| 0 <= k < all.len() ==> (#[trigger] it.seq()[k])@ == all[k],
            kept.deep_view() == dedup_adjacent(all.take(it.index() as int)),
    {
        let ghost done = it.index() as int;
        proof {
            lemma_dedup_last(all.take(done));
            assert(all.take(done + 1).drop_last() =~= all.take(done));
        }
        let repeats = kept.len() > 0 && kept[kept.len() - 1].tag_string == tag.tag_string;
        if !repeats {
            kept.push(tag);
        }
    }
    proof {
        assert(all.take(all.len() as int) =~= all);
    }
    kept
}

/// Finds the first occurrence of a tag in a list.
pub(crate) fn find_tag(tags: &Vec<Tag>, tag: &Tag) -> (found: Option<usize>)
    ensures
        match found {
            Some(index) => tags.deep_view().contains(tag@) && index == position(
                tags.deep_view(),
                tag@,
            ) && index < tags.len(),
            None => !tags.deep_view().contains(tag@),
        },
{
    let ghost views = tags.deep_view();
    let mut index: usize = 0;
    while index < tags.len()
        invariant
            index <= tags.len(),
            views == tags.deep_view(),
            forall|j: int| 0 <= j < index ==> #[trigger] views[j] != tag@,
        decreases tags.len() - index,
    {
        proof {
            assert(views[index as int] == tags@[index as int]@);
        }
        if tags[index].tag_string == tag.tag_string {
            proof {
                lemma_position(views, tag@);
            }
            return Some(index);
        }
        index = index + 1;
    }
    None
}

/// Where `position` points: at the first occurrence if there is one, else
/// past the end.
pub proof fn lemma_position(tags: Seq<Seq<char>>, tag: Seq<char>)
    ensures
        0 <= position(tags, tag) <= tags.len(),
        position(tags, tag) < tags.len() <==> tags.contains(tag),
        position(tags, tag) < tags.len() ==> tags[position(tags, tag)] == tag,
        forall|j: int| 0 <= j < position(tags, tag) ==> #[trigger] tags[j] != tag,
    decreases tags.len(),
{
    if tags.len() > 0 && tags[0] != tag {
        let rest = tags.drop_first();
        lemma_position(rest, tag);
        assert forall|j: int| 0 <= j < position(tags, tag) implies #[trigger] tags[j] != tag by {
            if j > 0 {
                assert(rest[j - 1] == tags[j]);
            }
        }
        if rest.contains(tag) {
            let k = rest.index_of(tag);
            assert(tags[k + 1] == tag);
        }
        if tags.contains(tag) {
            let k = tags.index_of(tag);
            assert(rest[k - 1] == tag);
        }
    }
}

/// Dropping adjacent repeats keeps the last tag, and leaves an empty
/// sequence empty.
pub proof fn lemma_dedup_last(tags: Seq<Seq<char>>)
    ensures
        tags.len() > 0 ==> dedup_adjacent(tags).len() > 0 && dedup_adjacent(tags).last()
            == tags.last(),
        tags.len() == 0 ==> dedup_adjacent(tags).len() == 0,
    decreases tags.len(),
{
    if tags.len() > 1 {
        lemma_dedup_last(tags.drop_last());
    }
}

/// Dropping adjacent repeats brings in no tag that was not there.
pub proof fn lemma_dedup_subset(tags: Seq<Seq<char>>, tag: Seq<char>)
    requires
        dedup_adjacent(tags).contains(tag),
    ensures
        tags.contains(tag),
    decreases tags.len(),
{
    if tags.len() > 1 {
        let shorter = tags.drop_last();
        if tag == tags.last() {
            assert(tags[tags.len() - 1] == tag);
        } else {
            if tags[tags.len() - 2] != tags.last() {
                let longer = dedup_adjacent(shorter).push(tags.last());
                let k = longer.index_of(tag);
                assert(dedup_adjacent(shorter)[k] == tag);
            }
            lemma_dedup_subset(shorter, tag);
            let j = shorter.index_of(tag);
            assert(tags[j] == tag);
        }
    }
}

/// What is left after dropping adjacent repeats has none.
pub proof fn lemma_dedup_no_repeats(tags: Seq<Seq<char>>)
    ensures
        no_adjacent_repeats(dedup_adjacent(tags)),
    decreases tags.len(),
{
    if tags.len() > 1 {
        let shorter = tags.drop_last();
        lemma_dedup_no_repeats(shorter);
        lemma_dedup_last(shorter);
        if tags[tags.len() - 2] != tags.last() {
            let kept = dedup_adjacent(shorter);
            let longer = kept.push(tags.last());
            assert forall|i: int| 0 < i < longer.len() implies longer[i - 1] != #[trigger] longer[i] by {
                if i < kept.len() {
                    assert(kept[i - 1] != kept[i]);
                }
            }
        }
    }
}

/// A sequence without adjacent repeats loses nothing when they are dropped.
pub proof fn lemma_dedup_fixed(tags: Seq<Seq<char>>)
    requires
        no_adjacent_repeats(tags),
    ensures
        dedup_adjacent(tags) == tags,
    decreases tags.len(),
{
    if tags.len() > 1 {
        let shorter = tags.drop_last();
        assert forall|i: int| 0 < i < shorter.len() implies shorter[i - 1] != #[trigger] shorter[i] by {
            assert(tags[i - 1] != tags[i]);
        }
        lemma_dedup_fixed(shorter);
        assert(tags[tags.len() - 2] != tags[tags.len() - 1]);
        assert(shorter.push(tags.last()) =~= tags);
    }
}

/// A tag that differs from the last one is simply appended.
pub proof fn lemma_with_new_last(tags: Seq<Seq<char>>, tag: Seq<char>)
    requires
        tags.len() > 0 ==> tags.last() != tag,
    ensures
        with_tag(tags, tag) == dedup_adjacent(tags).push(tag),
{
    assert(tags.push(tag).drop_last() =~= tags);
}

/// Adding a tag that was not there and removing it at once leaves the tags
/// as they were, in their order, but for the adjacent repeats that adding
/// dropped. Where there were none, nothing has changed.
pub proof fn lemma_add_then_remove(tags: Seq<Seq<char>>, tag: Seq<char>)
    requires
        !tags.contains(tag),
    ensures
        without_tag(with_tag(tags, tag), tag) == dedup_adjacent(tags),
        no_adjacent_repeats(tags) ==> without_tag(with_tag(tags, tag), tag) == tags,
{
    let kept = dedup_adjacent(tags);
    let added = kept.push(tag);
    if tags.len() > 0 {
        assert(tags[tags.len() - 1] != tag);
    }
    lemma_with_new_last(tags, tag);
    if kept.contains(tag) {
        lemma_dedup_subset(tags, tag);
    }
    lemma_position(added, tag);
    assert(added[kept.len() as int] == tag);
    assert(position(added, tag) == kept.len()) by {
        if position(added, tag) < kept.len() {
            assert(kept[position(added, tag)] == tag);
        }
    }
    assert(added.remove(kept.len() as int) =~= kept);
    if no_adjacent_repeats(tags) {
        lemma_dedup_fixed(tags);
    }
}

/// Adding a tag, then another one, then the first again keeps both copies
/// of the first: only a repeat of the tag just before it is dropped.
pub proof fn lemma_readding_keeps_both(tags: Seq<Seq<char>>, tag: Seq<char>, other: Seq<char>)
    requires
        tag != other,
    ensures
        with_tag(with_tag(with_tag(tags, tag), other), tag) == with_tag(tags, tag).push(
            other,
        ).push(tag),
{
    let first = with_tag(tags, tag);
    let second = first.push(other);
    lemma_dedup_last(tags.push(tag));
    lemma_dedup_no_repeats(tags.push(tag));
    lemma_dedup_fixed(first);
    lemma_with_new_last(first, other);
    lemma_dedup_no_repeats(second);
    lemma_dedup_fixed(second);
    lemma_with_new_last(second, tag);
}

} // verus!
