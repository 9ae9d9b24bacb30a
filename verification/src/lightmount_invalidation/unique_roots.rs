//! Lists of roots without repetition.

use std::collections::HashSet;

use vstd::prelude::*;

use super::ordered_set::Keyed;

verus! {

/// Whether a set holds the keys of a list of roots and no others.
spec fn holds_keys<Root: Keyed>(seen: Set<u64>, roots: Seq<Root>) -> bool {
    forall|key: u64| #[trigger]
        seen.contains(key) <==> exists|i: int| 0 <= i < roots.len() && (#[trigger] roots[i]).key() == key
}

/// A list of roots in the order in which they were first seen, with a set of
/// what was seen.
#[derive(Debug, PartialEq, Eq)]
pub struct UniqueRoots<Root: Keyed> {
    noted: (Vec<Root>, HashSet<u64>),
}

impl<Root: Keyed> UniqueRoots<Root> {
    /// The roots, in the order in which they were first seen.
    pub closed spec fn view(&self) -> Seq<Root> {
        self.noted.0@
    }

    #[verifier::type_invariant]
    spec fn seen_are_noted(&self) -> bool {
        &&& holds_keys(self.noted.1@, self.noted.0@)
        &&& self.noted.0@.no_duplicates()
    }

    /// Create an empty list.
    pub fn new() -> (roots: Self)
        ensures
            roots@ == Seq::<Root>::empty(),
    {
        broadcast use vstd::std_specs::hash::group_hash_axioms;

        UniqueRoots { noted: (Vec::new(), HashSet::new()) }
    }

    /// Add a root at the end unless the list has it; return whether it was
    /// new.
    pub fn push(&mut self, root: Root) -> (added: bool)
        ensures
            final(self)@ == super::ordered_set::push_unique(old(self)@, root),
            added == !old(self)@.contains(root),
    {
        broadcast use vstd::std_specs::hash::group_hash_axioms;

        let mut noted: (Vec<Root>, HashSet<u64>) = (Vec::new(), HashSet::new());
        proof {
            use_type_invariant(&*self);
        }
        std::mem::swap(&mut noted, &mut self.noted);
        let ghost before = noted.0@;
        let ghost seen = noted.1@;
        let key: u64 = root.to_key();
        proof {
            root.lemma_key_round_trip();
            if before.contains(root) {
                let i = before.index_of(root);
                assert(before[i].key() == key);
            }
            if seen.contains(key) {
                let i = choose|i: int| 0 <= i < before.len() && (#[trigger] before[i]).key() == key;
                before[i].lemma_key_round_trip();
                assert(before[i] == root);
            }
        }
        let added = noted.1.insert(key);
        if added {
            noted.0.push(root);
        }
        proof {
            let after = noted.0@;
            assert forall|other: u64| #[trigger]
                noted.1@.contains(other) <==> exists|i: int|
                    0 <= i < after.len() && (#[trigger] after[i]).key() == other by {
                if seen.contains(other) {
                    let i = choose|i: int|
                        0 <= i < before.len() && (#[trigger] before[i]).key() == other;
                    assert(after[i].key() == other);
                }
                if other == key && added {
                    assert(after[before.len() as int].key() == other);
                }
                if exists|i: int| 0 <= i < after.len() && (#[trigger] after[i]).key() == other {
                    let i = choose|i: int|
                        0 <= i < after.len() && (#[trigger] after[i]).key() == other;
                    if i < before.len() {
                        assert(before[i].key() == other);
                    }
                }
            }
        }
        self.noted = noted;
        added
    }

    /// Add the roots of a slice in turn.
    pub fn extend_from_slice(&mut self, more: &[Root])
        ensures
            final(self)@ == super::ordered_set::extend_unique(old(self)@, more@),
    {
        let ghost before = self@;
        let mut index: usize = 0;
        assert(more@.take(0) =~= Seq::<Root>::empty());
        while index < more.len()
            invariant
                index <= more@.len(),
                self@ == super::ordered_set::extend_unique(before, more@.take(index as int)),
            decreases more.len() - index,
        {
            self.push(more[index]);
            proof {
                let next = more@.take(index + 1);
                assert(next.drop_last() =~= more@.take(index as int));
                assert(next.last() == more@[index as int]);
            }
            index = index + 1;
        }
        assert(more@.take(more@.len() as int) =~= more@);
    }

    /// Return whether there are no roots.
    pub fn is_empty(&self) -> (empty: bool)
        ensures
            empty == (self@.len() == 0),
    {
        self.noted.0.len() == 0
    }

    /// Return the number of roots.
    pub fn len(&self) -> (count: usize)
        ensures
            count == self@.len(),
    {
        self.noted.0.len()
    }

    /// Return the roots.
    pub fn as_slice(&self) -> (roots: &[Root])
        ensures
            roots@ == self@,
    {
        self.noted.0.as_slice()
    }

    /// Consume the list and return its roots.
    pub fn into_vec(self) -> (roots: Vec<Root>)
        ensures
            roots@ == self@,
            roots@.no_duplicates(),
    {
        proof {
            use_type_invariant(&self);
        }
        self.noted.0
    }
}

impl<Root: Keyed> Clone for UniqueRoots<Root> {
    /// Return a list of the same roots in the same order.
    fn clone(&self) -> (roots: Self)
        ensures
            roots@ == self@,
    {
        proof {
            use_type_invariant(self);
            super::ordered_set::lemma_extend_unique_disjoint(Seq::<Root>::empty(), self@);
            assert(Seq::<Root>::empty() + self@ =~= self@);
        }
        let mut roots = UniqueRoots::new();
        roots.extend_from_slice(self.as_slice());
        roots
    }
}

} // verus!
