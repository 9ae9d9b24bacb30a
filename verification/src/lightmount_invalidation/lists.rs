//! Slices and lists.

use vstd::prelude::*;

use super::ordered_set::{same, Keyed};

verus! {

/// Return whether a slice has this item.
pub fn slice_contains<T: Keyed>(items: &[T], item: T) -> (found: bool)
    ensures
        found == items@.contains(item),
{
    let mut index: usize = 0;
    while index < items.len()
        invariant
            index <= items@.len(),
            forall|i: int| 0 <= i < index ==> #[trigger] items@[i] != item,
        decreases items.len() - index,
    {
        if same(items[index], item) {
            assert(items@[index as int] == item);
            return true;
        }
        index = index + 1;
    }
    false
}

/// Return a list of the items of a slice.
pub fn copy_slice<T: Copy>(items: &[T]) -> (copy: Vec<T>)
    ensures
        copy@ == items@,
{
    let mut copy: Vec<T> = Vec::new();
    let mut index: usize = 0;
    while index < items.len()
        invariant
            index <= items@.len(),
            copy@ == items@.take(index as int),
        decreases items.len() - index,
    {
        copy.push(items[index]);
        assert(copy@ =~= items@.take(index + 1));
        index = index + 1;
    }
    assert(items@.take(items@.len() as int) =~= items@);
    copy
}

/// A list has an item after a push exactly when it had it or it was pushed.
pub proof fn lemma_contains_push<T>(items: Seq<T>, pushed: T, item: T)
    ensures
        items.push(pushed).contains(item) <==> items.contains(item) || pushed == item,
{
    if items.contains(item) {
        let i = items.index_of(item);
        assert(items.push(pushed)[i] == item);
    }
    if pushed == item {
        assert(items.push(pushed)[items.len() as int] == item);
    }
    if items.push(pushed).contains(item) {
        let i = items.push(pushed).index_of(item);
        if i < items.len() {
            assert(items[i] == item);
        }
    }
}

} // verus!
