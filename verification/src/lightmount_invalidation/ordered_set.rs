//! Values told apart by a key, and ordered sets of them.

use std::marker::PhantomData;

use indexmap::IndexSet;
use vstd::prelude::*;

use super::indexed::{has_key, insert_key, key_at, key_count, new_keys};

verus! {

/// A small value that is told apart from others of its type by a key alone,
/// such as the handle of an element in the embedder's document.
pub trait Keyed: Copy {
    /// The key of this value.
    spec fn key(self) -> u64;

    /// The value that a key belongs to.
    spec fn of_key(key: u64) -> Self;

    /// A value is recovered from its key.
    proof fn lemma_key_round_trip(self)
        ensures
            Self::of_key(self.key()) == self,
    ;

    /// Return the key of this value.
    fn to_key(self) -> (key: u64)
        ensures
            key == self.key(),
    ;

    /// Return the value that a key belongs to.
    fn from_key(key: u64) -> (value: Self)
        ensures
            value == Self::of_key(key),
    ;
}

impl Keyed for u8 {
    open spec fn key(self) -> u64 {
        self as u64
    }

    open spec fn of_key(key: u64) -> Self {
        key as u8
    }

    proof fn lemma_key_round_trip(self) {
    }

    fn to_key(self) -> u64 {
        self as u64
    }

    fn from_key(key: u64) -> Self {
        #[verifier::truncate]
        (key as u8)
    }
}

impl Keyed for u16 {
    open spec fn key(self) -> u64 {
        self as u64
    }

    open spec fn of_key(key: u64) -> Self {
        key as u16
    }

    proof fn lemma_key_round_trip(self) {
    }

    fn to_key(self) -> u64 {
        self as u64
    }

    fn from_key(key: u64) -> Self {
        #[verifier::truncate]
        (key as u16)
    }
}

impl Keyed for u32 {
    open spec fn key(self) -> u64 {
        self as u64
    }

    open spec fn of_key(key: u64) -> Self {
        key as u32
    }

    proof fn lemma_key_round_trip(self) {
    }

    fn to_key(self) -> u64 {
        self as u64
    }

    fn from_key(key: u64) -> Self {
        #[verifier::truncate]
        (key as u32)
    }
}

impl Keyed for u64 {
    open spec fn key(self) -> u64 {
        self
    }

    open spec fn of_key(key: u64) -> Self {
        key
    }

    proof fn lemma_key_round_trip(self) {
    }

    fn to_key(self) -> u64 {
        self
    }

    fn from_key(key: u64) -> Self {
        key
    }
}

impl Keyed for usize {
    open spec fn key(self) -> u64 {
        self as u64
    }

    open spec fn of_key(key: u64) -> Self {
        key as usize
    }

    proof fn lemma_key_round_trip(self) {
    }

    fn to_key(self) -> u64 {
        self as u64
    }

    fn from_key(key: u64) -> Self {
        #[verifier::truncate]
        (key as usize)
    }
}

impl Keyed for i32 {
    open spec fn key(self) -> u64 {
        (self as u32) as u64
    }

    open spec fn of_key(key: u64) -> Self {
        (key as u32) as i32
    }

    proof fn lemma_key_round_trip(self) {
        assert((((self as u32) as u64) as u32) as i32 == self) by (bit_vector);
    }

    fn to_key(self) -> u64 {
        #[verifier::truncate]
        ((self as u32) as u64)
    }

    fn from_key(key: u64) -> Self {
        #[verifier::truncate]
        ((key as u32) as i32)
    }
}

impl Keyed for i64 {
    open spec fn key(self) -> u64 {
        self as u64
    }

    open spec fn of_key(key: u64) -> Self {
        key as i64
    }

    proof fn lemma_key_round_trip(self) {
        assert((self as u64) as i64 == self) by (bit_vector);
    }

    fn to_key(self) -> u64 {
        #[verifier::truncate]
        (self as u64)
    }

    fn from_key(key: u64) -> Self {
        #[verifier::truncate]
        (key as i64)
    }
}

/// Return whether two values are the same.
pub fn same<T: Keyed>(left: T, right: T) -> (same: bool)
    ensures
        same == (left == right),
{
    proof {
        left.lemma_key_round_trip();
        right.lemma_key_round_trip();
    }
    left.to_key() == right.to_key()
}

/// `items` with `item` at the end, unless it is there already.
pub open spec fn push_unique<T>(items: Seq<T>, item: T) -> Seq<T> {
    if items.contains(item) {
        items
    } else {
        items.push(item)
    }
}

/// `items` followed by those of `more` that are new, each once and in the
/// order of their first occurrence.
pub open spec fn extend_unique<T>(items: Seq<T>, more: Seq<T>) -> Seq<T>
    decreases more.len(),
{
    if more.len() == 0 {
        items
    } else {
        push_unique(extend_unique(items, more.drop_last()), more.last())
    }
}

/// Extending by a list of one item is adding that item.
pub proof fn lemma_extend_unique_one<T>(items: Seq<T>, item: T)
    ensures
        extend_unique(items, seq![item]) == push_unique(items, item),
{
    assert(seq![item].drop_last() =~= Seq::<T>::empty());
    assert(extend_unique(items, seq![item].drop_last()) == items);
}

/// Adding the items of a list one after the other leaves no item twice.
pub proof fn lemma_extend_unique_no_duplicates<T>(items: Seq<T>, more: Seq<T>)
    requires
        items.no_duplicates(),
    ensures
        extend_unique(items, more).no_duplicates(),
    decreases more.len(),
{
    if more.len() > 0 {
        lemma_extend_unique_no_duplicates(items, more.drop_last());
    }
}

/// An item is in the extended list exactly when one of the two lists has it.
pub proof fn lemma_extend_unique_contains<T>(items: Seq<T>, more: Seq<T>, item: T)
    ensures
        extend_unique(items, more).contains(item) <==> items.contains(item) || more.contains(item),
    decreases more.len(),
{
    if more.len() > 0 {
        let before = extend_unique(items, more.drop_last());
        let after = extend_unique(items, more);
        lemma_extend_unique_contains(items, more.drop_last(), item);
        assert(more =~= more.drop_last().push(more.last()));
        if before.contains(item) {
            let i = before.index_of(item);
            assert(after[i] == item);
        }
        if after.contains(item) {
            let i = after.index_of(item);
            if i < before.len() {
                assert(before[i] == item);
            }
        }
        if more.contains(item) {
            let i = more.index_of(item);
            if i < more.len() - 1 {
                assert(more.drop_last()[i] == item);
            } else if !before.contains(item) {
                assert(after.last() == item);
            }
        }
        if more.drop_last().contains(item) {
            let i = more.drop_last().index_of(item);
            assert(more[i] == item);
        }
        if item == more.last() {
            assert(more[more.len() - 1] == item);
        }
    }
}

/// What was in the list stays in front, in its order.
pub proof fn lemma_extend_unique_prefix<T>(items: Seq<T>, more: Seq<T>)
    ensures
        items.is_prefix_of(extend_unique(items, more)),
    decreases more.len(),
{
    if more.len() > 0 {
        lemma_extend_unique_prefix(items, more.drop_last());
    }
}

/// Extending by two lists in turn is extending by their concatenation.
pub proof fn lemma_extend_unique_concat<T>(items: Seq<T>, first: Seq<T>, second: Seq<T>)
    ensures
        extend_unique(extend_unique(items, first), second) == extend_unique(
            items,
            first + second,
        ),
    decreases second.len(),
{
    if second.len() == 0 {
        assert(first + second =~= first);
    } else {
        lemma_extend_unique_concat(items, first, second.drop_last());
        assert((first + second).drop_last() =~= first + second.drop_last());
        assert((first + second).last() == second.last());
    }
}

/// A list without repetition that shares nothing with `items` is appended
/// whole.
pub proof fn lemma_extend_unique_disjoint<T>(items: Seq<T>, more: Seq<T>)
    requires
        more.no_duplicates(),
        forall|i: int| 0 <= i < more.len() ==> !items.contains(#[trigger] more[i]),
    ensures
        extend_unique(items, more) == items + more,
    decreases more.len(),
{
    if more.len() == 0 {
        assert(items + more =~= items);
    } else {
        let rest = more.drop_last();
        assert forall|i: int| 0 <= i < rest.len() implies !items.contains(#[trigger] rest[i]) by {
            assert(rest[i] == more[i]);
        }
        lemma_extend_unique_disjoint(items, rest);
        let last = more.last();
        if (items + rest).contains(last) {
            let i = (items + rest).index_of(last);
            if i < items.len() {
                assert(items[i] == last);
                assert(!items.contains(more[more.len() - 1]));
            } else {
                assert(rest[i - items.len()] == last);
                assert(more[i - items.len()] == more[more.len() - 1]);
            }
        }
        assert((items + rest).push(last) =~= items + more);
    }
}

/// Extending by a list that was itself extended is extending by both.
pub proof fn lemma_extend_unique_absorbs<T>(items: Seq<T>, first: Seq<T>, second: Seq<T>)
    ensures
        extend_unique(items, extend_unique(first, second)) == extend_unique(
            extend_unique(items, first),
            second,
        ),
    decreases second.len(),
{
    if second.len() > 0 {
        let rest = second.drop_last();
        let last = second.last();
        lemma_extend_unique_absorbs(items, first, rest);
        let inner = extend_unique(first, rest);
        if inner.contains(last) {
            lemma_extend_unique_contains(items, inner, last);
        } else {
            assert(inner.push(last).drop_last() =~= inner);
        }
    }
}

/// An insertion-ordered set.
///
/// Its view is the list of its items in the order in which they were first
/// inserted, without repetition.
#[derive(Debug, PartialEq, Eq)]
pub struct OrderedSet<T: Keyed> {
    keys: IndexSet<u64>,
    items: PhantomData<T>,
}

impl<T: Keyed> OrderedSet<T> {
    /// The items, in insertion order.
    pub closed spec fn view(&self) -> Seq<T> {
        super::indexed::key_items(self.keys).map_values(|key: u64| T::of_key(key))
    }

    #[verifier::type_invariant]
    spec fn keys_are_canonical(&self) -> bool {
        let keys = super::indexed::key_items(self.keys);
        &&& keys.no_duplicates()
        &&& forall|i: int| 0 <= i < keys.len() ==> T::of_key(#[trigger] keys[i]).key() == keys[i]
    }

    /// Create an empty set.
    pub fn new() -> (set: Self)
        ensures
            set@ == Seq::<T>::empty(),
    {
        let set = OrderedSet { keys: new_keys(), items: PhantomData };
        assert(set@ =~= Seq::<T>::empty());
        set
    }

    /// Add an item at the end unless the set has it; return whether it was
    /// new.
    pub fn insert(&mut self, item: T) -> (added: bool)
        ensures
            final(self)@ == push_unique(old(self)@, item),
            added == !old(self)@.contains(item),
    {
        let key: u64 = item.to_key();
        let ghost keys = super::indexed::key_items(self.keys);
        let ghost items = self@;
        proof {
            use_type_invariant(&*self);
            item.lemma_key_round_trip();
            if keys.contains(key) {
                let i = keys.index_of(key);
                assert(items[i] == item);
            }
            if items.contains(item) {
                let i = items.index_of(item);
                assert(keys[i] == key);
            }
        }
        let mut held = new_keys();
        std::mem::swap(&mut held, &mut self.keys);
        let added = insert_key(&mut held, key);
        self.keys = held;
        assert(self@ =~= push_unique(items, item));
        added
    }

    /// Return whether the set has this item.
    pub fn contains(&self, item: T) -> (found: bool)
        ensures
            found == self@.contains(item),
    {
        let key: u64 = item.to_key();
        proof {
            use_type_invariant(self);
            item.lemma_key_round_trip();
            let keys = super::indexed::key_items(self.keys);
            if keys.contains(key) {
                let i = keys.index_of(key);
                assert(self@[i] == item);
            }
            if self@.contains(item) {
                let i = self@.index_of(item);
                assert(keys[i] == key);
            }
        }
        has_key(&self.keys, key)
    }

    /// Return the number of items.
    pub fn len(&self) -> (count: usize)
        ensures
            count == self@.len(),
            self@.no_duplicates(),
    {
        proof {
            use_type_invariant(self);
            let keys = super::indexed::key_items(self.keys);
            assert forall|i: int, j: int| 0 <= i < j < keys.len() implies self@[i] != self@[j] by {
                assert(keys[i] != keys[j]);
            }
        }
        key_count(&self.keys)
    }

    /// Return whether the set has no items.
    pub fn is_empty(&self) -> (empty: bool)
        ensures
            empty == (self@.len() == 0),
    {
        key_count(&self.keys) == 0
    }

    /// Return the item at a position of the insertion order.
    pub fn get_index(&self, index: usize) -> (item: Option<T>)
        ensures
            item == if index < self@.len() {
                Some(self@[index as int])
            } else {
                None
            },
    {
        match key_at(&self.keys, index) {
            Some(key) => Some(T::from_key(key)),
            None => None,
        }
    }

    /// Return the items in insertion order.
    pub fn to_vec(&self) -> (items: Vec<T>)
        ensures
            items@ == self@,
            items@.no_duplicates(),
    {
        let count: usize = self.len();
        let mut items: Vec<T> = Vec::new();
        let mut index: usize = 0;
        while index < count
            invariant
                index <= count == self@.len(),
                items@ == self@.take(index as int),
            decreases count - index,
        {
            if let Some(item) = self.get_index(index) {
                items.push(item);
            }
            assert(self@.take(index + 1) =~= self@.take(index as int).push(self@[index as int]));
            index = index + 1;
        }
        assert(self@.take(count as int) =~= self@);
        items
    }

    /// Add the items of a slice in turn.
    pub fn extend_from_slice(&mut self, more: &[T])
        ensures
            final(self)@ == extend_unique(old(self)@, more@),
    {
        let ghost items = self@;
        let mut index: usize = 0;
        assert(more@.take(0) =~= Seq::<T>::empty());
        while index < more.len()
            invariant
                index <= more@.len(),
                self@ == extend_unique(items, more@.take(index as int)),
            decreases more.len() - index,
        {
            self.insert(more[index]);
            proof {
                let next = more@.take(index + 1);
                assert(next.drop_last() =~= more@.take(index as int));
                assert(next.last() == more@[index as int]);
            }
            index = index + 1;
        }
        assert(more@.take(more@.len() as int) =~= more@);
    }

    /// Add the items of another set in turn.
    pub fn extend_from_set(&mut self, more: &OrderedSet<T>)
        ensures
            final(self)@ == extend_unique(old(self)@, more@),
    {
        self.extend_from_slice(more.to_vec().as_slice());
    }

    /// Return a set with the items of a slice.
    pub fn from_slice(items: &[T]) -> (set: Self)
        ensures
            set@ == extend_unique(Seq::<T>::empty(), items@),
    {
        let mut set = OrderedSet::new();
        set.extend_from_slice(items);
        set
    }
}

impl<T: Keyed> Default for OrderedSet<T> {
    fn default() -> (set: Self)
        ensures
            set@ == Seq::<T>::empty(),
    {
        Self::new()
    }
}

impl<T: Keyed> Clone for OrderedSet<T> {
    /// Return a set with the same items in the same order.
    fn clone(&self) -> (set: Self)
        ensures
            set@ == self@,
    {
        let items = self.to_vec();
        proof {
            lemma_extend_unique_disjoint(Seq::<T>::empty(), items@);
            assert(Seq::<T>::empty() + items@ =~= items@);
        }
        OrderedSet::from_slice(items.as_slice())
    }
}

} // verus!
