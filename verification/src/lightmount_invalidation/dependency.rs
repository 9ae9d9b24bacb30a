//! Dependencies recorded in invalidation maps, and what the retained
//! invalidation processor can do with them.

use vstd::prelude::*;

use super::actions::{
    LightmountDependencyInvalidationAction, LightmountRelativeDependencyInvalidationAction,
    LightmountRetainedProcessorDependencyEffect, LightmountScopeDependencyInvalidationAction,
};
use super::reasons::{
    LightmountDependencyFallbackReason, LightmountSourceInvalidationFallbackReason,
};

verus! {

/// What an ordinary dependency invalidates.
#[derive(Clone, Copy, Debug, PartialEq, Eq, Hash, Structural)]
pub enum NormalDependencyInvalidationKind {
    /// The element itself.
    Element,
    /// The element and its descendants.
    ElementAndDescendants,
    /// The element's descendants.
    Descendants,
    /// The element's following siblings.
    Siblings,
    /// Elements slotted into the element.
    SlottedElements,
    /// Parts exposed by the element.
    Parts,
}

/// Where the anchors of a relative selector dependency are found.
#[derive(Clone, Copy, Debug, PartialEq, Eq, Hash, Structural)]
pub enum RelativeDependencyInvalidationKind {
    /// Among the ancestors.
    Ancestors,
    /// At the parent.
    Parent,
    /// At the previous sibling.
    PrevSibling,
    /// Among previous siblings of ancestors.
    AncestorPrevSibling,
    /// Among earlier siblings.
    EarlierSibling,
    /// Among earlier siblings of ancestors.
    AncestorEarlierSibling,
}

/// Which edge of `@scope` a scope dependency comes from.
#[derive(Clone, Copy, Debug, PartialEq, Eq, Hash, Structural)]
pub enum ScopeDependencyInvalidationKind {
    /// A scope start with a selector.
    ExplicitScope,
    /// A scope start without a selector.
    ImplicitScope,
    /// A scope end.
    ScopeEnd,
}

/// What kind of invalidation a dependency asks for.
#[derive(Clone, Copy, Debug, PartialEq, Eq, Hash, Structural)]
pub enum DependencyInvalidationKind {
    /// The whole selector has to be checked.
    FullSelector,
    /// An ordinary dependency.
    Normal(NormalDependencyInvalidationKind),
    /// A relative selector dependency.
    Relative(RelativeDependencyInvalidationKind),
    /// A scope dependency.
    Scope(ScopeDependencyInvalidationKind),
}

/// What the selector of a dependency says about it.
#[derive(Clone, Copy, Debug, PartialEq, Eq, Hash, Structural)]
pub struct DependencySelectorFacts {
    /// The dependency stands at the rightmost compound of its selector.
    pub is_rightmost: bool,
    /// Some next dependency has `:scope` inside a negation.
    pub next_has_scope_in_negation: bool,
    /// The combinator to the right of the dependency is `+` or `~`.
    pub right_combinator_is_sibling: bool,
    /// The combinator to the right of the dependency is `+`.
    pub right_combinator_is_next_sibling: bool,
    /// The dependency is a relative selector with a single `+`.
    pub relative_with_single_next_sibling: bool,
}

impl DependencySelectorFacts {
    /// Facts of a dependency at the subject of a single compound selector.
    pub fn subject() -> (facts: Self)
        ensures
            facts == (DependencySelectorFacts {
                is_rightmost: true,
                next_has_scope_in_negation: false,
                right_combinator_is_sibling: false,
                right_combinator_is_next_sibling: false,
                relative_with_single_next_sibling: false,
            }),
    {
        Self {
            is_rightmost: true,
            next_has_scope_in_negation: false,
            right_combinator_is_sibling: false,
            right_combinator_is_next_sibling: false,
            relative_with_single_next_sibling: false,
        }
    }
}

/// One dependency of a selector on a simple selector inside it.
#[derive(Debug, PartialEq, Eq, Hash)]
pub struct Dependency {
    /// What the selector says about this dependency.
    pub facts: DependencySelectorFacts,
    /// The dependencies to check after this one, where it sits in a nested
    /// selector list.
    pub next: Vec<Dependency>,
    /// The kind of invalidation.
    pub kind: DependencyInvalidationKind,
}

impl Dependency {
    /// Create a dependency.
    pub fn new(
        facts: DependencySelectorFacts,
        next: Vec<Dependency>,
        kind: DependencyInvalidationKind,
    ) -> (dependency: Self)
        ensures
            dependency == (Dependency { facts, next, kind }),
    {
        Self { facts, next, kind }
    }

    /// Return the kind of invalidation.
    pub fn invalidation_kind(&self) -> (kind: DependencyInvalidationKind)
        ensures
            kind == self.kind,
    {
        self.kind
    }

    /// The reason reported where this dependency cannot be executed.
    pub open spec fn fallback_reason(self) -> LightmountDependencyFallbackReason {
        match self.kind {
            DependencyInvalidationKind::FullSelector => {
                LightmountDependencyFallbackReason::FullSelector
            },
            DependencyInvalidationKind::Relative(_) => {
                LightmountDependencyFallbackReason::RelativeAnySelector
            },
            DependencyInvalidationKind::Scope(_) => {
                LightmountDependencyFallbackReason::ScopeDependency
            },
            DependencyInvalidationKind::Normal(_) => {
                LightmountDependencyFallbackReason::UnsupportedDependency
            },
        }
    }

    /// The scope branch of this dependency.
    pub open spec fn scope_action(
        self,
        scope_kind: ScopeDependencyInvalidationKind,
    ) -> LightmountScopeDependencyInvalidationAction {
        let force_add = self.facts.next_has_scope_in_negation;
        if scope_kind == ScopeDependencyInvalidationKind::ImplicitScope {
            LightmountScopeDependencyInvalidationAction::ImplicitScope
        } else if !self.facts.is_rightmost {
            LightmountScopeDependencyInvalidationAction::PushByCombinator
        } else if scope_kind == ScopeDependencyInvalidationKind::ScopeEnd || force_add {
            LightmountScopeDependencyInvalidationAction::ForceAtSubject { force_add }
        } else {
            LightmountScopeDependencyInvalidationAction::CheckNextInScope
        }
    }

    /// The action that this dependency represents.
    pub open spec fn action(self) -> LightmountDependencyInvalidationAction {
        match self.kind {
            DependencyInvalidationKind::Normal(kind) => match kind {
                NormalDependencyInvalidationKind::Element => {
                    LightmountDependencyInvalidationAction::Element
                },
                NormalDependencyInvalidationKind::ElementAndDescendants => {
                    LightmountDependencyInvalidationAction::ElementAndDescendants
                },
                NormalDependencyInvalidationKind::Descendants => {
                    LightmountDependencyInvalidationAction::Descendants
                },
                NormalDependencyInvalidationKind::Siblings => {
                    LightmountDependencyInvalidationAction::Siblings
                },
                NormalDependencyInvalidationKind::SlottedElements => {
                    LightmountDependencyInvalidationAction::SlottedElements
                },
                NormalDependencyInvalidationKind::Parts => {
                    LightmountDependencyInvalidationAction::Parts
                },
            },
            DependencyInvalidationKind::Scope(scope_kind) => {
                LightmountDependencyInvalidationAction::Scope(self.scope_action(scope_kind))
            },
            _ => LightmountDependencyInvalidationAction::Fallback(
                self.fallback_reason().source_reason(),
            ),
        }
    }

    /// The candidate traversal of this dependency, where it is relative.
    pub open spec fn relative_action(self) -> Option<
        LightmountRelativeDependencyInvalidationAction,
    > {
        match self.kind {
            DependencyInvalidationKind::Relative(kind) => Some(relative_action_of(kind)),
            _ => None,
        }
    }

    /// Whether this dependency and all that follow from it are ordinary or
    /// scope dependencies.
    pub open spec fn is_retained(self) -> bool
        decreases self,
    {
        &&& self.kind is Normal || self.kind is Scope
        &&& forall|i: int| 0 <= i < self.next.len() ==> (#[trigger] self.next[i]).is_retained()
    }

    /// Whether some dependency that follows from this one is relative.
    pub open spec fn leads_to_relative(self) -> bool
        decreases self,
    {
        exists|i: int|
            0 <= i < self.next.len() && (#[trigger] self.next[i].kind is Relative
                || self.next[i].leads_to_relative())
    }

    /// Whether this dependency reaches a relative selector without being
    /// relative itself.
    pub open spec fn has_nested_relative(self) -> bool {
        !(self.kind is Relative) && self.leads_to_relative()
    }

    /// Whether this dependency involves the siblings of the changed element.
    pub open spec fn is_sibling_sensitive(self) -> bool {
        ||| self.kind == DependencyInvalidationKind::Normal(
            NormalDependencyInvalidationKind::Siblings,
        )
        ||| self.kind == DependencyInvalidationKind::Relative(
            RelativeDependencyInvalidationKind::PrevSibling,
        )
        ||| self.kind == DependencyInvalidationKind::Relative(
            RelativeDependencyInvalidationKind::AncestorPrevSibling,
        )
        ||| self.kind == DependencyInvalidationKind::Relative(
            RelativeDependencyInvalidationKind::EarlierSibling,
        )
        ||| self.kind == DependencyInvalidationKind::Relative(
            RelativeDependencyInvalidationKind::AncestorEarlierSibling,
        )
        ||| self.facts.right_combinator_is_next_sibling
        ||| self.facts.relative_with_single_next_sibling
    }
}

/// Whether some dependency of the list is sibling-sensitive.
pub open spec fn any_sibling_sensitive(dependencies: Seq<Dependency>) -> bool {
    exists|i: int| 0 <= i < dependencies.len() && (#[trigger] dependencies[i]).is_sibling_sensitive()
}

/// The candidate traversal that a relative kind asks for.
pub open spec fn relative_action_of(
    kind: RelativeDependencyInvalidationKind,
) -> LightmountRelativeDependencyInvalidationAction {
    match kind {
        RelativeDependencyInvalidationKind::Ancestors => {
            LightmountRelativeDependencyInvalidationAction::Ancestors
        },
        RelativeDependencyInvalidationKind::Parent => {
            LightmountRelativeDependencyInvalidationAction::Parent
        },
        RelativeDependencyInvalidationKind::PrevSibling => {
            LightmountRelativeDependencyInvalidationAction::PrevSibling
        },
        RelativeDependencyInvalidationKind::AncestorPrevSibling => {
            LightmountRelativeDependencyInvalidationAction::AncestorPrevSibling
        },
        RelativeDependencyInvalidationKind::EarlierSibling => {
            LightmountRelativeDependencyInvalidationAction::EarlierSibling
        },
        RelativeDependencyInvalidationKind::AncestorEarlierSibling => {
            LightmountRelativeDependencyInvalidationAction::AncestorEarlierSibling
        },
    }
}

/// Return the fallback reason represented by a dependency kind.
pub fn lightmount_dependency_fallback_reason_for_dependency(dependency: &Dependency) -> (reason:
    LightmountDependencyFallbackReason)
    ensures
        reason == dependency.fallback_reason(),
{
    match dependency.invalidation_kind() {
        DependencyInvalidationKind::FullSelector => {
            LightmountDependencyFallbackReason::FullSelector
        },
        DependencyInvalidationKind::Relative(_) => {
            LightmountDependencyFallbackReason::RelativeAnySelector
        },
        DependencyInvalidationKind::Scope(_) => {
            LightmountDependencyFallbackReason::ScopeDependency
        },
        DependencyInvalidationKind::Normal(_) => {
            LightmountDependencyFallbackReason::UnsupportedDependency
        },
    }
}

/// Return the retained invalidation action represented by a dependency.
pub fn lightmount_dependency_invalidation_action(dependency: &Dependency) -> (action:
    LightmountDependencyInvalidationAction)
    ensures
        action == dependency.action(),
{
    match dependency.invalidation_kind() {
        DependencyInvalidationKind::Normal(NormalDependencyInvalidationKind::Element) => {
            LightmountDependencyInvalidationAction::Element
        },
        DependencyInvalidationKind::Normal(
            NormalDependencyInvalidationKind::ElementAndDescendants,
        ) => LightmountDependencyInvalidationAction::ElementAndDescendants,
        DependencyInvalidationKind::Normal(NormalDependencyInvalidationKind::Descendants) => {
            LightmountDependencyInvalidationAction::Descendants
        },
        DependencyInvalidationKind::Normal(NormalDependencyInvalidationKind::Siblings) => {
            LightmountDependencyInvalidationAction::Siblings
        },
        DependencyInvalidationKind::Normal(NormalDependencyInvalidationKind::SlottedElements) => {
            LightmountDependencyInvalidationAction::SlottedElements
        },
        DependencyInvalidationKind::Normal(NormalDependencyInvalidationKind::Parts) => {
            LightmountDependencyInvalidationAction::Parts
        },
        DependencyInvalidationKind::Scope(scope_kind) => {
            LightmountDependencyInvalidationAction::Scope(
                lightmount_scope_dependency_invalidation_action(dependency, scope_kind),
            )
        },
        DependencyInvalidationKind::FullSelector | DependencyInvalidationKind::Relative(_) => {
            LightmountDependencyInvalidationAction::Fallback(
                LightmountSourceInvalidationFallbackReason::from(
                    lightmount_dependency_fallback_reason_for_dependency(dependency),
                ),
            )
        },
    }
}

/// Return the fallback reason for a relative selector invalidation that cannot
/// be represented as exact affected roots.
pub fn lightmount_relative_selector_invalidation_fallback_reason(
    _kind: RelativeDependencyInvalidationKind,
    _dependency: &Dependency,
) -> (reason: LightmountSourceInvalidationFallbackReason)
    ensures
        reason == LightmountSourceInvalidationFallbackReason::RelativeAnySelector,
{
    LightmountSourceInvalidationFallbackReason::RelativeAnySelector
}

/// Return the candidate traversal action for a relative selector dependency.
pub fn lightmount_relative_dependency_invalidation_action(dependency: &Dependency) -> (action:
    Option<LightmountRelativeDependencyInvalidationAction>)
    ensures
        action == dependency.relative_action(),
{
    let DependencyInvalidationKind::Relative(kind) = dependency.invalidation_kind() else {
        return None;
    };
    Some(lightmount_relative_dependency_action(kind))
}

/// Return whether this dependency is a relative selector dependency.
pub fn lightmount_dependency_is_relative_selector(dependency: &Dependency) -> (relative: bool)
    ensures
        relative == (dependency.kind is Relative),
{
    lightmount_relative_dependency_invalidation_action(dependency).is_some()
}

/// Return whether this dependency can be used as a snapshot-relative outer
/// dependency.
pub fn lightmount_snapshot_relative_outer_dependency_supported(dependency: &Dependency) -> (
    supported: bool)
    ensures
        supported == (dependency.kind is Normal),
{
    matches!(dependency.invalidation_kind(), DependencyInvalidationKind::Normal(_))
}

/// Return the scope branch to execute for a scope dependency.
pub fn lightmount_scope_dependency_invalidation_action(
    dependency: &Dependency,
    scope_kind: ScopeDependencyInvalidationKind,
) -> (action: LightmountScopeDependencyInvalidationAction)
    ensures
        action == dependency.scope_action(scope_kind),
{
    if scope_kind == ScopeDependencyInvalidationKind::ImplicitScope {
        return LightmountScopeDependencyInvalidationAction::ImplicitScope;
    }
    if dependency.facts.is_rightmost {
        let force_add = dependency.facts.next_has_scope_in_negation;
        if scope_kind == ScopeDependencyInvalidationKind::ScopeEnd || force_add {
            return LightmountScopeDependencyInvalidationAction::ForceAtSubject { force_add };
        }
        return LightmountScopeDependencyInvalidationAction::CheckNextInScope;
    }
    LightmountScopeDependencyInvalidationAction::PushByCombinator
}

/// Return the candidate traversal that a relative kind asks for.
pub fn lightmount_relative_dependency_action(kind: RelativeDependencyInvalidationKind) -> (action:
    LightmountRelativeDependencyInvalidationAction)
    ensures
        action == relative_action_of(kind),
{
    match kind {
        RelativeDependencyInvalidationKind::Ancestors => {
            LightmountRelativeDependencyInvalidationAction::Ancestors
        },
        RelativeDependencyInvalidationKind::Parent => {
            LightmountRelativeDependencyInvalidationAction::Parent
        },
        RelativeDependencyInvalidationKind::PrevSibling => {
            LightmountRelativeDependencyInvalidationAction::PrevSibling
        },
        RelativeDependencyInvalidationKind::AncestorPrevSibling => {
            LightmountRelativeDependencyInvalidationAction::AncestorPrevSibling
        },
        RelativeDependencyInvalidationKind::EarlierSibling => {
            LightmountRelativeDependencyInvalidationAction::EarlierSibling
        },
        RelativeDependencyInvalidationKind::AncestorEarlierSibling => {
            LightmountRelativeDependencyInvalidationAction::AncestorEarlierSibling
        },
    }
}

/// Return whether the retained invalidation processor can represent this
/// dependency without source fallback.
pub fn lightmount_dependency_supported_by_retained_processor(dependency: &Dependency) -> (
    supported: bool)
    ensures
        supported == dependency.is_retained(),
    decreases dependency,
{
    if !matches!(
        dependency.invalidation_kind(),
        DependencyInvalidationKind::Normal(_) | DependencyInvalidationKind::Scope(_)
    ) {
        return false;
    }
    let mut index: usize = 0;
    while index < dependency.next.len()
        invariant
            index <= dependency.next.len(),
            forall|i: int| 0 <= i < index ==> (#[trigger] dependency.next[i]).is_retained(),
        decreases dependency.next.len() - index,
    {
        if !lightmount_dependency_supported_by_retained_processor(&dependency.next[index]) {
            return false;
        }
        index = index + 1;
    }
    true
}

/// Return whether an empty result for this dependency can be treated as an exact
/// no-op by the retained invalidation processor.
pub fn lightmount_dependency_empty_result_supported_by_retained_processor(
    dependency: &Dependency,
) -> (supported: bool)
    ensures
        supported == dependency.is_retained(),
    decreases dependency,
{
    if !matches!(
        dependency.invalidation_kind(),
        DependencyInvalidationKind::Scope(_) | DependencyInvalidationKind::Normal(
            NormalDependencyInvalidationKind::Element
            | NormalDependencyInvalidationKind::ElementAndDescendants
            | NormalDependencyInvalidationKind::Descendants
            | NormalDependencyInvalidationKind::Siblings
            | NormalDependencyInvalidationKind::SlottedElements
            | NormalDependencyInvalidationKind::Parts,
        )
    ) {
        return false;
    }
    let mut index: usize = 0;
    while index < dependency.next.len()
        invariant
            index <= dependency.next.len(),
            forall|i: int| 0 <= i < index ==> (#[trigger] dependency.next[i]).is_retained(),
        decreases dependency.next.len() - index,
    {
        if !lightmount_dependency_empty_result_supported_by_retained_processor(
            &dependency.next[index],
        ) {
            return false;
        }
        index = index + 1;
    }
    true
}

/// The classification of a dependency: executable dependencies are retained
/// and exact when empty, all others fall back for their own reason.
pub open spec fn retained_effect(
    dependency: Dependency,
) -> LightmountRetainedProcessorDependencyEffect {
    if dependency.is_retained() {
        LightmountRetainedProcessorDependencyEffect::Retained { empty_result_is_exact: true }
    } else {
        LightmountRetainedProcessorDependencyEffect::Fallback(
            dependency.fallback_reason().source_reason(),
        )
    }
}

/// Classify one dependency for the retained invalidation processor.
pub fn lightmount_retained_processor_dependency_effect(dependency: &Dependency) -> (effect:
    LightmountRetainedProcessorDependencyEffect)
    ensures
        effect == retained_effect(*dependency),
{
    if !lightmount_dependency_supported_by_retained_processor(dependency) {
        return LightmountRetainedProcessorDependencyEffect::Fallback(
            LightmountSourceInvalidationFallbackReason::from(
                lightmount_dependency_fallback_reason_for_dependency(dependency),
            ),
        );
    }
    LightmountRetainedProcessorDependencyEffect::Retained {
        empty_result_is_exact: lightmount_dependency_empty_result_supported_by_retained_processor(
            dependency,
        ),
    }
}

/// Where a dependency is retained, so is each one that follows from it, and
/// its action is never a fallback.
pub proof fn lemma_retained_dependency_has_action(dependency: Dependency)
    requires
        dependency.is_retained(),
    ensures
        !(dependency.action() is Fallback),
        !dependency.leads_to_relative(),
        forall|i: int|
            0 <= i < dependency.next.len() ==> (#[trigger] dependency.next[i]).is_retained(),
    decreases dependency,
{
    assert forall|i: int| 0 <= i < dependency.next.len() implies !(#[trigger]
    dependency.next[i].kind is Relative) && !dependency.next[i].leads_to_relative() by {
        lemma_retained_dependency_has_action(dependency.next[i]);
    }
}

/// Return whether this dependency reaches a relative selector without being
/// relative itself.
pub fn lightmount_dependency_has_nested_relative_dependency(dependency: &Dependency) -> (nested:
    bool)
    ensures
        nested == dependency.has_nested_relative(),
{
    if matches!(dependency.invalidation_kind(), DependencyInvalidationKind::Relative(_)) {
        return false;
    }
    lightmount_dependency_chain_contains_relative_dependency(dependency)
}

/// Return whether some dependency that follows from this one is relative.
pub fn lightmount_dependency_chain_contains_relative_dependency(dependency: &Dependency) -> (
    contains: bool)
    ensures
        contains == dependency.leads_to_relative(),
    decreases dependency,
{
    let mut index: usize = 0;
    while index < dependency.next.len()
        invariant
            index <= dependency.next.len(),
            forall|i: int|
                0 <= i < index ==> !(#[trigger] dependency.next[i].kind is Relative)
                    && !dependency.next[i].leads_to_relative(),
        decreases dependency.next.len() - index,
    {
        let following = &dependency.next[index];
        if matches!(following.invalidation_kind(), DependencyInvalidationKind::Relative(_))
            || lightmount_dependency_chain_contains_relative_dependency(following) {
            assert(dependency.next[index as int].kind is Relative
                || dependency.next[index as int].leads_to_relative());
            return true;
        }
        index = index + 1;
    }
    false
}

/// Return whether some dependency of the list is sibling-sensitive.
pub fn lightmount_dependencies_have_sibling_sensitive(dependencies: &Vec<Dependency>) -> (found:
    bool)
    ensures
        found == any_sibling_sensitive(dependencies@),
{
    let mut index: usize = 0;
    while index < dependencies.len()
        invariant
            index <= dependencies.len(),
            forall|i: int|
                0 <= i < index ==> !(#[trigger] dependencies@[i]).is_sibling_sensitive(),
        decreases dependencies.len() - index,
    {
        if lightmount_dependency_is_sibling_sensitive(&dependencies[index]) {
            return true;
        }
        index = index + 1;
    }
    false
}

/// Return whether this dependency involves the siblings of the changed
/// element.
pub fn lightmount_dependency_is_sibling_sensitive(dependency: &Dependency) -> (sensitive: bool)
    ensures
        sensitive == dependency.is_sibling_sensitive(),
{
    match dependency.invalidation_kind() {
        DependencyInvalidationKind::Normal(NormalDependencyInvalidationKind::Siblings) => true,
        DependencyInvalidationKind::Relative(
            RelativeDependencyInvalidationKind::PrevSibling
            | RelativeDependencyInvalidationKind::AncestorPrevSibling
            | RelativeDependencyInvalidationKind::EarlierSibling
            | RelativeDependencyInvalidationKind::AncestorEarlierSibling,
        ) => true,
        _ => {
            dependency.facts.right_combinator_is_next_sibling
                || dependency.facts.relative_with_single_next_sibling
        },
    }
}

} // verus!
