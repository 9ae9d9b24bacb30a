//! Collections that affected roots are drained into.

use vstd::prelude::*;

use super::ordered_set::{Keyed, OrderedSet};
use super::processor::LightmountStyleInvalidationProcessor;

verus! {

/// A collection that roots can be added to.
pub trait RootCollection<Root> {
    /// The roots held.
    spec fn held_roots(&self) -> Seq<Root>;

    /// The roots held after more were added to those held before.
    spec fn roots_after(held: Seq<Root>, more: Seq<Root>) -> Seq<Root>;

    /// Add roots.
    fn extend_roots(&mut self, roots: Vec<Root>)
        ensures
            final(self).held_roots() == Self::roots_after(old(self).held_roots(), roots@),
    ;
}

impl<Root> RootCollection<Root> for Vec<Root> {
    open spec fn held_roots(&self) -> Seq<Root> {
        self@
    }

    open spec fn roots_after(held: Seq<Root>, more: Seq<Root>) -> Seq<Root> {
        held + more
    }

    fn extend_roots(&mut self, roots: Vec<Root>) {
        let mut roots = roots;
        self.append(&mut roots);
    }
}

impl<Root: Keyed> RootCollection<Root> for OrderedSet<Root> {
    open spec fn held_roots(&self) -> Seq<Root> {
        self@
    }

    open spec fn roots_after(held: Seq<Root>, more: Seq<Root>) -> Seq<Root> {
        super::ordered_set::extend_unique(held, more)
    }

    fn extend_roots(&mut self, roots: Vec<Root>) {
        self.extend_from_slice(roots.as_slice());
    }
}

impl<'a, Root: Keyed, RootMapper, Scope: Copy> RootCollection<
    Root,
> for LightmountStyleInvalidationProcessor<'a, Root, RootMapper, Scope> {
    open spec fn held_roots(&self) -> Seq<Root> {
        self.result_builder@.roots
    }

    open spec fn roots_after(held: Seq<Root>, more: Seq<Root>) -> Seq<Root> {
        super::ordered_set::extend_unique(held, more)
    }

    fn extend_roots(&mut self, roots: Vec<Root>) {
        self.extend(roots.as_slice());
    }
}

} // verus!
