//! Actions that a dependency asks for, and the sinks that carry them out.

use vstd::prelude::*;

use super::reasons::LightmountSourceInvalidationFallbackReason;

verus! {

/// Action represented by one dependency.
#[derive(Clone, Copy, Debug, PartialEq, Eq, Hash, Structural)]
pub enum LightmountDependencyInvalidationAction {
    /// The changed element itself can be invalidated.
    Element,
    /// The changed element and descendants can be invalidated.
    ElementAndDescendants,
    /// Descendants of the changed element can be invalidated.
    Descendants,
    /// Following siblings of the changed element can be invalidated.
    Siblings,
    /// Assigned/slotted descendants can be invalidated.
    SlottedElements,
    /// Exposed part descendants can be invalidated.
    Parts,
    /// Scope dependency handling needs the scope-specific retained path.
    Scope(LightmountScopeDependencyInvalidationAction),
    /// This dependency cannot be executed by the retained path.
    Fallback(LightmountSourceInvalidationFallbackReason),
}

/// Scope dependency branch to execute for one dependency.
#[derive(Clone, Copy, Debug, PartialEq, Eq, Hash, Structural)]
pub enum LightmountScopeDependencyInvalidationAction {
    /// The dependency is an implicit `@scope` edge and only its next
    /// dependencies should be propagated to descendants.
    ImplicitScope,
    /// The scope dependency must add invalidations at the subject.
    ForceAtSubject {
        /// Whether the subject add was forced by `:scope` in negation.
        force_add: bool,
    },
    /// Check next dependencies against the current element under this scope.
    CheckNextInScope,
    /// Push the scope dependency itself by the combinator to the right.
    PushByCombinator,
}

/// Whether the retained invalidation processor can execute one dependency, and
/// how its query result should be classified.
#[derive(Clone, Copy, Debug, PartialEq, Eq, Hash, Structural)]
pub enum LightmountRetainedProcessorDependencyEffect {
    /// The retained processor can execute this dependency.
    Retained {
        /// Whether an empty result for this dependency is an exact no-op.
        empty_result_is_exact: bool,
    },
    /// The dependency requires source-level fallback handling.
    Fallback(LightmountSourceInvalidationFallbackReason),
}

/// Relative selector candidate traversal represented by one dependency.
#[derive(Clone, Copy, Debug, PartialEq, Eq, Hash, Structural)]
pub enum LightmountRelativeDependencyInvalidationAction {
    /// Visit ancestor candidates.
    Ancestors,
    /// Visit the parent candidate.
    Parent,
    /// Visit the previous sibling candidate.
    PrevSibling,
    /// Visit previous siblings.
    EarlierSibling,
    /// Visit previous siblings of ancestors.
    AncestorPrevSibling,
    /// Visit earlier siblings of ancestors.
    AncestorEarlierSibling,
}

/// Sink for applying one retained dependency invalidation action.
pub trait LightmountDependencyInvalidationActionSink {
    /// The actions applied so far.
    open spec fn applied(&self) -> Seq<LightmountDependencyInvalidationAction> {
        Seq::empty()
    }

    /// The changed element itself should be invalidated.
    fn invalidate_element(&mut self)
        ensures
            final(self).applied() == old(self).applied().push(
                LightmountDependencyInvalidationAction::Element,
            ),
    ;

    /// The changed element and its descendants should be invalidated.
    fn invalidate_element_and_descendants(&mut self)
        ensures
            final(self).applied() == old(self).applied().push(
                LightmountDependencyInvalidationAction::ElementAndDescendants,
            ),
    ;

    /// Descendants of the changed element should be invalidated.
    fn invalidate_descendants(&mut self)
        ensures
            final(self).applied() == old(self).applied().push(
                LightmountDependencyInvalidationAction::Descendants,
            ),
    ;

    /// Following siblings of the changed element should be invalidated.
    fn invalidate_siblings(&mut self)
        ensures
            final(self).applied() == old(self).applied().push(
                LightmountDependencyInvalidationAction::Siblings,
            ),
    ;

    /// Assigned/slotted descendants should be invalidated.
    fn invalidate_slotted_elements(&mut self)
        ensures
            final(self).applied() == old(self).applied().push(
                LightmountDependencyInvalidationAction::SlottedElements,
            ),
    ;

    /// Exposed part descendants should be invalidated.
    fn invalidate_parts(&mut self)
        ensures
            final(self).applied() == old(self).applied().push(
                LightmountDependencyInvalidationAction::Parts,
            ),
    ;

    /// The dependency requires fallback handling.
    fn invalidate_fallback(&mut self, reason: LightmountSourceInvalidationFallbackReason)
        ensures
            final(self).applied() == old(self).applied().push(
                LightmountDependencyInvalidationAction::Fallback(reason),
            ),
    ;

    /// Scope-specific retained invalidation handling should run.
    fn invalidate_scope(&mut self, action: LightmountScopeDependencyInvalidationAction)
        ensures
            final(self).applied() == old(self).applied().push(
                LightmountDependencyInvalidationAction::Scope(action),
            ),
    ;
}

impl LightmountDependencyInvalidationAction {
    /// Apply this action to a retained dependency invalidation sink.
    pub fn drain_into<Sink: LightmountDependencyInvalidationActionSink>(self, target: &mut Sink)
        ensures
            final(target).applied() == old(target).applied().push(self),
    {
        match self {
            Self::Element => target.invalidate_element(),
            Self::ElementAndDescendants => target.invalidate_element_and_descendants(),
            Self::Descendants => target.invalidate_descendants(),
            Self::Siblings => target.invalidate_siblings(),
            Self::SlottedElements => target.invalidate_slotted_elements(),
            Self::Parts => target.invalidate_parts(),
            Self::Scope(action) => target.invalidate_scope(action),
            Self::Fallback(reason) => target.invalidate_fallback(reason),
        }
    }
}

/// Sink for applying one scope dependency invalidation action.
pub trait LightmountScopeDependencyInvalidationActionSink {
    /// The scope actions applied so far.
    open spec fn scope_applied(&self) -> Seq<LightmountScopeDependencyInvalidationAction> {
        Seq::empty()
    }

    /// Propagate implicit `@scope` next dependencies to descendants.
    fn invalidate_implicit_scope(&mut self)
        ensures
            final(self).scope_applied() == old(self).scope_applied().push(
                LightmountScopeDependencyInvalidationAction::ImplicitScope,
            ),
    ;

    /// Add invalidations at the scope subject.
    fn invalidate_scope_force_at_subject(&mut self, force_add: bool)
        ensures
            final(self).scope_applied() == old(self).scope_applied().push(
                LightmountScopeDependencyInvalidationAction::ForceAtSubject { force_add },
            ),
    ;

    /// Check next dependencies against the current element under this scope.
    fn invalidate_scope_check_next(&mut self)
        ensures
            final(self).scope_applied() == old(self).scope_applied().push(
                LightmountScopeDependencyInvalidationAction::CheckNextInScope,
            ),
    ;

    /// Push the scope dependency by the combinator to the right.
    fn invalidate_scope_by_combinator(&mut self)
        ensures
            final(self).scope_applied() == old(self).scope_applied().push(
                LightmountScopeDependencyInvalidationAction::PushByCombinator,
            ),
    ;
}

impl LightmountScopeDependencyInvalidationAction {
    /// Apply this scope action to a retained scope dependency invalidation sink.
    pub fn drain_into<Sink: LightmountScopeDependencyInvalidationActionSink>(
        self,
        target: &mut Sink,
    )
        ensures
            final(target).scope_applied() == old(target).scope_applied().push(self),
    {
        match self {
            Self::ImplicitScope => target.invalidate_implicit_scope(),
            Self::ForceAtSubject { force_add } => target.invalidate_scope_force_at_subject(
                force_add,
            ),
            Self::CheckNextInScope => target.invalidate_scope_check_next(),
            Self::PushByCombinator => target.invalidate_scope_by_combinator(),
        }
    }
}

/// Sink for applying one relative selector candidate traversal action.
pub trait LightmountRelativeDependencyInvalidationActionSink {
    /// The traversals asked for so far.
    open spec fn visited(&self) -> Seq<LightmountRelativeDependencyInvalidationAction> {
        Seq::empty()
    }

    /// Visit ancestor candidates.
    fn visit_relative_ancestor_candidates(&mut self)
        ensures
            final(self).visited() == old(self).visited().push(
                LightmountRelativeDependencyInvalidationAction::Ancestors,
            ),
    ;

    /// Visit the parent candidate.
    fn visit_relative_parent_candidate(&mut self)
        ensures
            final(self).visited() == old(self).visited().push(
                LightmountRelativeDependencyInvalidationAction::Parent,
            ),
    ;

    /// Visit the previous sibling candidate.
    fn visit_relative_previous_sibling_candidate(&mut self)
        ensures
            final(self).visited() == old(self).visited().push(
                LightmountRelativeDependencyInvalidationAction::PrevSibling,
            ),
    ;

    /// Visit previous sibling candidates.
    fn visit_relative_earlier_sibling_candidates(&mut self)
        ensures
            final(self).visited() == old(self).visited().push(
                LightmountRelativeDependencyInvalidationAction::EarlierSibling,
            ),
    ;

    /// Visit previous sibling candidates for ancestors.
    fn visit_relative_ancestor_previous_sibling_candidates(&mut self)
        ensures
            final(self).visited() == old(self).visited().push(
                LightmountRelativeDependencyInvalidationAction::AncestorPrevSibling,
            ),
    ;

    /// Visit earlier sibling candidates for ancestors.
    fn visit_relative_ancestor_earlier_sibling_candidates(&mut self)
        ensures
            final(self).visited() == old(self).visited().push(
                LightmountRelativeDependencyInvalidationAction::AncestorEarlierSibling,
            ),
    ;
}

impl LightmountRelativeDependencyInvalidationAction {
    /// Apply this relative traversal action to a candidate traversal sink.
    pub fn drain_into<Sink: LightmountRelativeDependencyInvalidationActionSink>(
        self,
        target: &mut Sink,
    )
        ensures
            final(target).visited() == old(target).visited().push(self),
    {
        match self {
            Self::Ancestors => target.visit_relative_ancestor_candidates(),
            Self::Parent => target.visit_relative_parent_candidate(),
            Self::PrevSibling => target.visit_relative_previous_sibling_candidate(),
            Self::EarlierSibling => target.visit_relative_earlier_sibling_candidates(),
            Self::AncestorPrevSibling => {
                target.visit_relative_ancestor_previous_sibling_candidates()
            },
            Self::AncestorEarlierSibling => {
                target.visit_relative_ancestor_earlier_sibling_candidates()
            },
        }
    }
}

} // verus!
