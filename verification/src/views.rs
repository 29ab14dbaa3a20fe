//! Sequences of executable values seen as sequences of their models.

use vstd::prelude::*;

verus! {

/// The views of a sequence of values.
pub open spec fn views_of<T: View>(items: Seq<T>) -> Seq<T::V> {
    Seq::new(items.len(), |i: int| items[i]@)
}

/// The texts of a sequence of strings.
pub open spec fn texts_of(names: Seq<String>) -> Seq<Seq<char>> {
    Seq::new(names.len(), |i: int| names[i]@)
}

/// The model of a sequence of entries: each key by its text, each value by its
/// view.
pub open spec fn entries_of<V: View>(pairs: Seq<(String, V)>) -> Seq<(Seq<char>, V::V)> {
    Seq::new(pairs.len(), |i: int| (pairs[i].0@, pairs[i].1@))
}

/// Appending an item that does not occur yet keeps a sequence free of
/// repetitions, and adds that item and no other.
pub proof fn lemma_push_new<A>(items: Seq<A>, item: A)
    requires
        items.no_duplicates(),
        !items.contains(item),
    ensures
        items.push(item).no_duplicates(),
        forall|other: A| #[trigger]
            items.push(item).contains(other) <==> other == item || items.contains(other),
{
    let longer = items.push(item);
    assert forall|i: int, j: int| 0 <= i < longer.len() && 0 <= j < longer.len() && i != j implies longer[i]
        != longer[j] by {
        if i < items.len() && j < items.len() {
        } else if i < items.len() {
            assert(items.contains(items[i]));
        } else {
            assert(items.contains(items[j]));
        }
    }
    assert forall|other: A| #[trigger]
        longer.contains(other) <==> other == item || items.contains(other) by {
        if longer.contains(other) {
            let i = longer.index_of(other);
            if i < items.len() {
                assert(items[i] == other);
            }
        }
        if items.contains(other) {
            let i = items.index_of(other);
            assert(longer[i] == other);
        }
        assert(longer[items.len() as int] == item);
    }
}

/// Filtering one item more: the item at `i` is appended to what the items
/// before it gave if it passes, and dropped if it does not.
pub proof fn lemma_filter_next<A>(items: Seq<A>, pred: spec_fn(A) -> bool, i: int)
    requires
        0 <= i < items.len(),
    ensures
        items.take(i + 1).filter(pred) == if pred(items[i]) {
            items.take(i).filter(pred).push(items[i])
        } else {
            items.take(i).filter(pred)
        },
{
    reveal(Seq::filter);
    let next = items.take(i + 1);
    assert(next.drop_last() =~= items.take(i));
    assert(next.last() == items[i]);
}

/// Filtering no items gives no items.
pub proof fn lemma_filter_none<A>(items: Seq<A>, pred: spec_fn(A) -> bool)
    ensures
        items.take(0).filter(pred) == Seq::<A>::empty(),
{
    reveal(Seq::filter);
    assert(items.take(0).filter(pred) =~= Seq::<A>::empty());
}

} // verus!
