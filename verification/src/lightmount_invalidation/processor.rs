//! The processor that turns matched dependencies into invalidations.

use vstd::prelude::*;

use super::actions::{
    LightmountDependencyInvalidationAction, LightmountRetainedProcessorDependencyEffect,
    LightmountScopeDependencyInvalidationAction,
};
use super::dependency::{
    lightmount_dependency_invalidation_action, lightmount_relative_selector_invalidation_fallback_reason,
    lightmount_retained_processor_dependency_effect, Dependency,
    RelativeDependencyInvalidationKind,
};
use super::ordered_set::Keyed;
use super::query_result::{
    LightmountSourceStyleInvalidationQueryResult,
    LightmountSourceStyleInvalidationQueryResultBuilder, QueryResultBuilderView,
};
use super::reasons::LightmountSourceInvalidationFallbackReason;

verus! {

/// Runtime-provided mapping from an element to the retained invalidation root
/// stored in a source-local result.
pub trait LightmountStyleInvalidationElementRoot<E: Copy, Root> {
    /// The root of an element.
    open spec fn root_of(&self, element: E) -> Root {
        arbitrary()
    }

    /// Return the root represented by an invalidated element.
    fn root_for_style_invalidation_element(&self, element: E) -> (root: Root)
        ensures
            root == self.root_of(element),
    ;
}

/// Whether a dependency's outer part changes for the element at hand, as the
/// old-value snapshots show it, and the same of the dependencies that follow.
#[derive(Debug, PartialEq, Eq)]
pub struct OuterDependencyCheck {
    /// The outer part changes.
    pub changes_anchor: bool,
    /// The checks of the dependencies that follow, in order.
    pub next: Vec<OuterDependencyCheck>,
}

/// What a selector is matched under.
#[derive(Copy, Debug, PartialEq, Eq)]
pub struct MatchingScope<Scope> {
    /// The host of the shadow tree that the selector comes from.
    pub current_host: Option<Scope>,
    /// The root of the scope that the selector is in.
    pub scope_element: Option<Scope>,
}

impl<Scope: Copy> Clone for MatchingScope<Scope> {
    fn clone(&self) -> (copy: Self)
        ensures
            copy == *self,
    {
        *self
    }
}

/// What an invalidation is about.
#[derive(Clone, Copy, Debug, PartialEq, Eq)]
pub enum InvalidationSubject<'a> {
    /// The dependency itself.
    Dependency(&'a Dependency),
    /// The dependency, always effective for the next descendant.
    NextDescendant(&'a Dependency),
    /// What the dependency adds at the subject of its scope.
    ScopeSubject {
        /// The scope dependency.
        dependency: &'a Dependency,
        /// The addition was forced by `:scope` in negation.
        force_add: bool,
    },
}

/// An invalidation that a dependency gives rise to.
#[derive(Copy, Debug, PartialEq, Eq)]
pub struct CollectedInvalidation<'a, Scope> {
    /// What it is about.
    pub subject: InvalidationSubject<'a>,
    /// What its selector is matched under.
    pub matching: MatchingScope<Scope>,
}

impl<'a, Scope: Copy> Clone for CollectedInvalidation<'a, Scope> {
    fn clone(&self) -> (copy: Self)
        ensures
            copy == *self,
    {
        *self
    }
}

/// The invalidations collected for an element, by where they apply.
#[derive(Debug)]
pub struct CollectedInvalidations<'a, Scope> {
    /// To the descendants.
    pub dom_descendants: Vec<CollectedInvalidation<'a, Scope>>,
    /// To the slotted descendants.
    pub slotted_descendants: Vec<CollectedInvalidation<'a, Scope>>,
    /// To the parts.
    pub parts: Vec<CollectedInvalidation<'a, Scope>>,
    /// To the siblings.
    pub siblings: Vec<CollectedInvalidation<'a, Scope>>,
}

/// What a dependency gives rise to.
pub struct DependencyEffect<'a, Scope> {
    /// The element itself is invalidated.
    pub invalidates_self: bool,
    /// Invalidations of descendants.
    pub dom_descendants: Seq<CollectedInvalidation<'a, Scope>>,
    /// Invalidations of slotted descendants.
    pub slotted_descendants: Seq<CollectedInvalidation<'a, Scope>>,
    /// Invalidations of parts.
    pub parts: Seq<CollectedInvalidation<'a, Scope>>,
    /// Invalidations of siblings.
    pub siblings: Seq<CollectedInvalidation<'a, Scope>>,
    /// Reasons for fallback.
    pub reasons: Seq<LightmountSourceInvalidationFallbackReason>,
}

impl<'a, Scope> DependencyEffect<'a, Scope> {
    /// No effect.
    pub open spec fn none() -> Self {
        DependencyEffect {
            invalidates_self: false,
            dom_descendants: Seq::empty(),
            slotted_descendants: Seq::empty(),
            parts: Seq::empty(),
            siblings: Seq::empty(),
            reasons: Seq::empty(),
        }
    }

    /// This effect followed by another.
    pub open spec fn followed_by(self, other: Self) -> Self {
        DependencyEffect {
            invalidates_self: self.invalidates_self || other.invalidates_self,
            dom_descendants: self.dom_descendants + other.dom_descendants,
            slotted_descendants: self.slotted_descendants + other.slotted_descendants,
            parts: self.parts + other.parts,
            siblings: self.siblings + other.siblings,
            reasons: self.reasons + other.reasons,
        }
    }
}

proof fn lemma_followed_by<'a, Scope>(
    first: DependencyEffect<'a, Scope>,
    second: DependencyEffect<'a, Scope>,
    third: DependencyEffect<'a, Scope>,
)
    ensures
        first.followed_by(second).followed_by(third) == first.followed_by(
            second.followed_by(third),
        ),
        first.followed_by(DependencyEffect::none()) == first,
        DependencyEffect::none().followed_by(first) == first,
{
    let left = first.followed_by(second).followed_by(third);
    let right = first.followed_by(second.followed_by(third));
    assert(left.dom_descendants =~= right.dom_descendants);
    assert(left.slotted_descendants =~= right.slotted_descendants);
    assert(left.parts =~= right.parts);
    assert(left.siblings =~= right.siblings);
    assert(left.reasons =~= right.reasons);
    let none = DependencyEffect::<'a, Scope>::none();
    assert(first.followed_by(none).dom_descendants =~= first.dom_descendants);
    assert(first.followed_by(none).slotted_descendants =~= first.slotted_descendants);
    assert(first.followed_by(none).parts =~= first.parts);
    assert(first.followed_by(none).siblings =~= first.siblings);
    assert(first.followed_by(none).reasons =~= first.reasons);
    assert(none.followed_by(first).dom_descendants =~= first.dom_descendants);
    assert(none.followed_by(first).slotted_descendants =~= first.slotted_descendants);
    assert(none.followed_by(first).parts =~= first.parts);
    assert(none.followed_by(first).siblings =~= first.siblings);
    assert(none.followed_by(first).reasons =~= first.reasons);
}

/// The check of the dependency at `index` among those that follow.
pub open spec fn next_check(
    check: Option<OuterDependencyCheck>,
    index: int,
) -> Option<OuterDependencyCheck> {
    match check {
        Some(check) => if index < check.next.len() {
            Some(check.next[index])
        } else {
            None
        },
        None => None,
    }
}

/// Whether the outer part of a dependency is to be taken as changed: it is
/// unless a snapshot shows otherwise.
pub open spec fn outer_changes(check: Option<OuterDependencyCheck>) -> bool {
    check is None || check->0.changes_anchor
}

/// Return whether the outer part of a dependency is to be taken as changed.
pub fn check_outer_dependency(check: Option<&OuterDependencyCheck>) -> (changes: bool)
    ensures
        changes == (check matches Some(check) ==> check.changes_anchor),
{
    match check {
        Some(check) => check.changes_anchor,
        None => true,
    }
}

/// What a dependency gives rise to at an element.
pub open spec fn effect_of<'a, Scope>(
    dependency: Dependency,
    check: Option<OuterDependencyCheck>,
    matching: MatchingScope<Scope>,
) -> DependencyEffect<'a, Scope>
    decreases dependency, dependency.next.len() + 1,
{
    let none = DependencyEffect::<'a, Scope>::none();
    let own = seq![
        CollectedInvalidation { subject: InvalidationSubject::Dependency(&dependency), matching },
    ];
    match dependency.action() {
        LightmountDependencyInvalidationAction::Element => {
            DependencyEffect { invalidates_self: true, ..none }
        },
        LightmountDependencyInvalidationAction::ElementAndDescendants => {
            DependencyEffect { invalidates_self: true, dom_descendants: own, ..none }
        },
        LightmountDependencyInvalidationAction::Descendants => {
            DependencyEffect { dom_descendants: own, ..none }
        },
        LightmountDependencyInvalidationAction::Siblings => {
            DependencyEffect { siblings: own, ..none }
        },
        LightmountDependencyInvalidationAction::SlottedElements => {
            DependencyEffect { slotted_descendants: own, ..none }
        },
        LightmountDependencyInvalidationAction::Parts => DependencyEffect { parts: own, ..none },
        LightmountDependencyInvalidationAction::Fallback(reason) => {
            DependencyEffect { reasons: seq![reason], ..none }
        },
        LightmountDependencyInvalidationAction::Scope(scope) => match scope {
            LightmountScopeDependencyInvalidationAction::ImplicitScope => {
                DependencyEffect {
                    dom_descendants: Seq::new(
                        dependency.next.len() as nat,
                        |i: int|
                            CollectedInvalidation {
                                subject: InvalidationSubject::NextDescendant(&dependency.next[i]),
                                matching,
                            },
                    ),
                    ..none
                }
            },
            LightmountScopeDependencyInvalidationAction::ForceAtSubject { force_add } => {
                DependencyEffect {
                    invalidates_self: true,
                    dom_descendants: seq![
                        CollectedInvalidation {
                            subject: InvalidationSubject::ScopeSubject {
                                dependency: &dependency,
                                force_add,
                            },
                            matching,
                        },
                    ],
                    ..none
                }
            },
            LightmountScopeDependencyInvalidationAction::CheckNextInScope => {
                effect_of_next(dependency, check, matching, dependency.next.len() as nat)
            },
            LightmountScopeDependencyInvalidationAction::PushByCombinator => {
                if dependency.facts.right_combinator_is_sibling {
                    DependencyEffect { invalidates_self: true, siblings: own, ..none }
                } else {
                    DependencyEffect { invalidates_self: true, dom_descendants: own, ..none }
                }
            },
        },
    }
}

/// What the first `count` of the dependencies that follow give rise to, leaving
/// out those whose outer part does not change.
pub open spec fn effect_of_next<'a, Scope>(
    dependency: Dependency,
    check: Option<OuterDependencyCheck>,
    matching: MatchingScope<Scope>,
    count: nat,
) -> DependencyEffect<'a, Scope>
    decreases dependency, count,
{
    if count == 0 || count > dependency.next.len() {
        DependencyEffect::none()
    } else {
        let before = effect_of_next(dependency, check, matching, (count - 1) as nat);
        let next = next_check(check, count - 1);
        if outer_changes(next) {
            before.followed_by(effect_of(dependency.next[count - 1], next, matching))
        } else {
            before
        }
    }
}

impl<'a, Scope> CollectedInvalidations<'a, Scope> {
    /// Create empty lists.
    pub fn new() -> (collected: Self)
        ensures
            collected.effect() == DependencyEffect::<'a, Scope>::none(),
    {
        CollectedInvalidations {
            dom_descendants: Vec::new(),
            slotted_descendants: Vec::new(),
            parts: Vec::new(),
            siblings: Vec::new(),
        }
    }

    /// The effect that these lists amount to.
    pub open spec fn effect(&self) -> DependencyEffect<'a, Scope> {
        DependencyEffect {
            invalidates_self: false,
            dom_descendants: self.dom_descendants@,
            slotted_descendants: self.slotted_descendants@,
            parts: self.parts@,
            siblings: self.siblings@,
            reasons: Seq::empty(),
        }
    }
}

/// Collect what a dependency gives rise to at an element, noting reasons for
/// fallback; return whether the element itself is invalidated.
pub fn note_dependency<'a, Root: Keyed, Scope: Copy>(
    dependency: &'a Dependency,
    check: Option<&OuterDependencyCheck>,
    matching: MatchingScope<Scope>,
    collected: &mut CollectedInvalidations<'a, Scope>,
    result_builder: &mut LightmountSourceStyleInvalidationQueryResultBuilder<Root>,
) -> (invalidates_self: bool)
    ensures
        ({
            let given = match check {
                Some(check) => Some(*check),
                None => None,
            };
            let effect = effect_of::<'a, Scope>(*dependency, given, matching);
            &&& final(collected).effect() == (DependencyEffect {
                invalidates_self: false,
                reasons: Seq::empty(),
                ..old(collected).effect().followed_by(effect)
            })
            &&& invalidates_self == effect.invalidates_self
            &&& final(result_builder)@ == old(result_builder)@.with_reasons(effect.reasons)
        }),
    decreases dependency,
{
    let ghost given = match check {
        Some(check) => Some(*check),
        None => None,
    };
    let ghost before = collected.effect();
    let ghost effect = effect_of::<'a, Scope>(*dependency, given, matching);
    let ghost builder = result_builder@;
    proof {
        lemma_followed_by(before, DependencyEffect::none(), DependencyEffect::none());
    }
    let own = CollectedInvalidation {
        subject: InvalidationSubject::Dependency(dependency),
        matching,
    };
    match lightmount_dependency_invalidation_action(dependency) {
        LightmountDependencyInvalidationAction::Element => true,
        LightmountDependencyInvalidationAction::ElementAndDescendants => {
            collected.dom_descendants.push(own);
            assert(collected.dom_descendants@ =~= before.followed_by(effect).dom_descendants);
            true
        },
        LightmountDependencyInvalidationAction::Descendants => {
            collected.dom_descendants.push(own);
            assert(collected.dom_descendants@ =~= before.followed_by(effect).dom_descendants);
            false
        },
        LightmountDependencyInvalidationAction::Siblings => {
            collected.siblings.push(own);
            assert(collected.siblings@ =~= before.followed_by(effect).siblings);
            false
        },
        LightmountDependencyInvalidationAction::SlottedElements => {
            collected.slotted_descendants.push(own);
            assert(collected.slotted_descendants@ =~= before.followed_by(
                effect,
            ).slotted_descendants);
            false
        },
        LightmountDependencyInvalidationAction::Parts => {
            collected.parts.push(own);
            assert(collected.parts@ =~= before.followed_by(effect).parts);
            false
        },
        LightmountDependencyInvalidationAction::Fallback(reason) => {
            proof {
                super::ordered_set::lemma_extend_unique_one(builder.reasons, reason);
            }
            result_builder.note_fallback_reason(reason);
            false
        },
        LightmountDependencyInvalidationAction::Scope(scope) => match scope {
            LightmountScopeDependencyInvalidationAction::ImplicitScope => {
                let ghost all = effect.dom_descendants;
                let mut index: usize = 0;
                assert(before.dom_descendants + all.take(0) =~= before.dom_descendants);
                while index < dependency.next.len()
                    invariant
                        index <= dependency.next.len(),
                        all == Seq::new(
                            dependency.next.len() as nat,
                            |i: int|
                                CollectedInvalidation {
                                    subject: InvalidationSubject::<'a>::NextDescendant(
                                        &dependency.next[i],
                                    ),
                                    matching,
                                },
                        ),
                        collected.effect() == (DependencyEffect {
                            dom_descendants: before.dom_descendants + all.take(index as int),
                            ..before
                        }),
                    decreases dependency.next.len() - index,
                {
                    collected.dom_descendants.push(
                        CollectedInvalidation {
                            subject: InvalidationSubject::NextDescendant(&dependency.next[index]),
                            matching,
                        },
                    );
                    assert(before.dom_descendants + all.take(index + 1) =~= (before.dom_descendants
                        + all.take(index as int)).push(all[index as int]));
                    index = index + 1;
                }
                assert(all.take(all.len() as int) =~= all);
                false
            },
            LightmountScopeDependencyInvalidationAction::ForceAtSubject { force_add } => {
                collected.dom_descendants.push(
                    CollectedInvalidation {
                        subject: InvalidationSubject::ScopeSubject { dependency, force_add },
                        matching,
                    },
                );
                assert(collected.dom_descendants@ =~= before.followed_by(effect).dom_descendants);
                true
            },
            LightmountScopeDependencyInvalidationAction::CheckNextInScope => {
                let mut invalidates_self = false;
                let mut index: usize = 0;
                assert(builder.with_reasons(Seq::empty()) == builder);
                while index < dependency.next.len()
                    invariant
                        index <= dependency.next.len(),
                        given == (match check {
                            Some(check) => Some(*check),
                            None => None,
                        }),
                        before == (DependencyEffect {
                            invalidates_self: false,
                            reasons: Seq::empty(),
                            ..before
                        }),
                        collected.effect() == (DependencyEffect {
                            invalidates_self: false,
                            reasons: Seq::empty(),
                            ..before.followed_by(
                                effect_of_next::<'a, Scope>(*dependency, given, matching, index as nat),
                            )
                        }),
                        invalidates_self == effect_of_next::<'a, Scope>(
                            *dependency,
                            given,
                            matching,
                            index as nat,
                        ).invalidates_self,
                        result_builder@ == builder.with_reasons(
                            effect_of_next::<'a, Scope>(*dependency, given, matching, index as nat).reasons,
                        ),
                    decreases dependency.next.len() - index,
                {
                    let ghost earlier = effect_of_next::<'a, Scope>(*dependency, given, matching, index as nat);
                    let next = match check {
                        Some(check) => {
                            if index < check.next.len() {
                                Some(&check.next[index])
                            } else {
                                None
                            }
                        },
                        None => None,
                    };
                    if check_outer_dependency(next) {
                        let ghost following = effect_of::<'a, Scope>(
                            dependency.next[index as int],
                            next_check(given, index as int),
                            matching,
                        );
                        if note_dependency(
                            &dependency.next[index],
                            next,
                            matching,
                            collected,
                            result_builder,
                        ) {
                            invalidates_self = true;
                        }
                        proof {
                            lemma_followed_by(before, earlier, following);
                            super::ordered_set::lemma_extend_unique_concat(
                                builder.reasons,
                                earlier.reasons,
                                following.reasons,
                            );
                            assert(collected.effect() == (DependencyEffect {
                                invalidates_self: false,
                                reasons: Seq::empty(),
                                ..before.followed_by(earlier).followed_by(following)
                            }));
                        }
                    }
                    index = index + 1;
                }
                invalidates_self
            },
            LightmountScopeDependencyInvalidationAction::PushByCombinator => {
                if dependency.facts.right_combinator_is_sibling {
                    collected.siblings.push(own);
                    assert(collected.siblings@ =~= before.followed_by(effect).siblings);
                } else {
                    collected.dom_descendants.push(own);
                    assert(collected.dom_descendants@ =~= before.followed_by(
                        effect,
                    ).dom_descendants);
                }
                true
            },
        },
    }
}

/// A dependency that the processor retains never leads to fallback.
pub proof fn lemma_retained_effect_has_no_reasons<'a, Scope>(
    dependency: Dependency,
    check: Option<OuterDependencyCheck>,
    matching: MatchingScope<Scope>,
)
    requires
        dependency.is_retained(),
    ensures
        effect_of::<'a, Scope>(dependency, check, matching).reasons.len() == 0,
    decreases dependency, dependency.next.len() + 1,
{
    super::dependency::lemma_retained_dependency_has_action(dependency);
    lemma_retained_next_has_no_reasons(dependency, check, matching, dependency.next.len() as nat);
}

proof fn lemma_retained_next_has_no_reasons<'a, Scope>(
    dependency: Dependency,
    check: Option<OuterDependencyCheck>,
    matching: MatchingScope<Scope>,
    count: nat,
)
    requires
        dependency.is_retained(),
        count <= dependency.next.len(),
    ensures
        effect_of_next::<'a, Scope>(dependency, check, matching, count).reasons.len() == 0,
    decreases dependency, count,
{
    if count > 0 {
        lemma_retained_next_has_no_reasons(dependency, check, matching, (count - 1) as nat);
        assert(dependency.next[count - 1].is_retained());
        lemma_retained_effect_has_no_reasons(
            dependency.next[count - 1],
            next_check(check, count - 1),
            matching,
        );
    }
}

/// What the matched dependencies of an element amount to: the effects of those
/// that are retained, and the reasons of those that are not.
pub struct CollectedEffect<'a, Scope> {
    /// The joint effect of the retained dependencies.
    pub effect: DependencyEffect<'a, Scope>,
    /// The reasons of all others.
    pub reasons: Seq<LightmountSourceInvalidationFallbackReason>,
}

/// The check of the matched dependency at `index`.
pub open spec fn check_of(
    checks: Option<Seq<OuterDependencyCheck>>,
    index: int,
) -> Option<OuterDependencyCheck> {
    match checks {
        Some(checks) => if index < checks.len() {
            Some(checks[index])
        } else {
            None
        },
        None => None,
    }
}

/// What the first `count` matched dependencies amount to.
pub open spec fn collected_effect<'a, Scope>(
    dependencies: Seq<&'a Dependency>,
    checks: Option<Seq<OuterDependencyCheck>>,
    matching: MatchingScope<Scope>,
    count: nat,
) -> CollectedEffect<'a, Scope>
    decreases count,
{
    if count == 0 || count > dependencies.len() {
        CollectedEffect { effect: DependencyEffect::none(), reasons: Seq::empty() }
    } else {
        let before = collected_effect(dependencies, checks, matching, (count - 1) as nat);
        let dependency = *dependencies[count - 1];
        match super::dependency::retained_effect(dependency) {
            LightmountRetainedProcessorDependencyEffect::Retained { .. } => CollectedEffect {
                effect: before.effect.followed_by(
                    effect_of(dependency, check_of(checks, count - 1), matching),
                ),
                ..before
            },
            LightmountRetainedProcessorDependencyEffect::Fallback(reason) => CollectedEffect {
                reasons: before.reasons.push(reason),
                ..before
            },
        }
    }
}

/// Invalidation processor for a tree invalidator.
///
/// The embedder supplies concrete elements, the outcome of snapshot checks, and
/// a root mapper. This processor owns selector dependency action application,
/// retained-vs-fallback effect classification, affected-root collection, and
/// fallback reason recording.
pub struct LightmountStyleInvalidationProcessor<'a, Root: Keyed, RootMapper, Scope> {
    /// The result so far.
    pub result_builder: LightmountSourceStyleInvalidationQueryResultBuilder<Root>,
    /// What selectors are matched under.
    pub matching_context: MatchingScope<Scope>,
    /// The matched dependencies.
    pub dependencies: Vec<&'a Dependency>,
    /// The snapshot checks of the matched dependencies, where there are
    /// snapshots.
    pub outer_checks: Option<Vec<OuterDependencyCheck>>,
    /// The mapping from elements to roots.
    pub root_mapper: RootMapper,
}

impl<'a, Root: Keyed, RootMapper, Scope: Copy> LightmountStyleInvalidationProcessor<
    'a,
    Root,
    RootMapper,
    Scope,
> {
    /// Create a retained invalidation processor from already prepared
    /// invalidator inputs.
    pub fn new(
        matching_context: MatchingScope<Scope>,
        dependencies: Vec<&'a Dependency>,
        outer_checks: Option<Vec<OuterDependencyCheck>>,
        root_mapper: RootMapper,
    ) -> (processor: Self)
        ensures
            processor.result_builder@ == QueryResultBuilderView::<Root>::none(),
            processor.matching_context == matching_context,
            processor.dependencies == dependencies,
            processor.outer_checks == outer_checks,
            processor.root_mapper == root_mapper,
    {
        Self {
            result_builder: LightmountSourceStyleInvalidationQueryResultBuilder::new(),
            matching_context,
            dependencies,
            outer_checks,
            root_mapper,
        }
    }

    /// Whether everything but the result is as in another processor.
    pub open spec fn same_inputs(&self, other: &Self) -> bool {
        &&& self.matching_context == other.matching_context
        &&& self.dependencies == other.dependencies
        &&& self.outer_checks == other.outer_checks
        &&& self.root_mapper == other.root_mapper
    }

    /// The snapshot checks of the matched dependencies.
    pub open spec fn checks(&self) -> Option<Seq<OuterDependencyCheck>> {
        match self.outer_checks {
            Some(checks) => Some(checks@),
            None => None,
        }
    }

    /// Return what selectors are matched under, to be changed while the tree is
    /// walked.
    pub fn matching_context(&mut self) -> (matching: &mut MatchingScope<Scope>)
        ensures
            *matching == old(self).matching_context,
            *final(self) == (LightmountStyleInvalidationProcessor {
                matching_context: *final(matching),
                ..*old(self)
            }),
    {
        &mut self.matching_context
    }

    /// Record an already computed affected root.
    pub fn note_affected_root(&mut self, root: Root)
        ensures
            final(self).result_builder@ == old(self).result_builder@.with_root(root),
            final(self).same_inputs(old(self)),
    {
        self.result_builder.note_affected_root(root);
    }

    /// Record several already computed affected roots.
    pub fn extend(&mut self, roots: &[Root])
        ensures
            final(self).result_builder@ == old(self).result_builder@.with_roots(roots@),
            final(self).same_inputs(old(self)),
    {
        self.result_builder.extend_affected_roots(roots);
    }

    /// Consume this processor into one source-local query result.
    pub fn into_query_result(self, matched_dependency_count: usize) -> (result:
        LightmountSourceStyleInvalidationQueryResult<Root>)
        ensures
            result@ == self.result_builder@.result(matched_dependency_count as nat),
            result@.roots.no_duplicates(),
    {
        self.result_builder.into_query_result(matched_dependency_count)
    }

    /// Return whether pseudo-elements are invalidated too.
    pub fn invalidates_on_pseudo_element(&self) -> (invalidates: bool)
        ensures
            invalidates,
    {
        true
    }

    /// Return whether descendants are processed.
    pub fn should_process_descendants(&mut self) -> (process: bool)
        ensures
            process,
            *final(self) == *old(self),
    {
        true
    }

    /// Record a relative selector invalidation, which has no exact roots.
    pub fn found_relative_selector_invalidation(
        &mut self,
        kind: RelativeDependencyInvalidationKind,
        relative_dependency: &'a Dependency,
    )
        ensures
            final(self).result_builder@ == old(self).result_builder@.with_reason(
                LightmountSourceInvalidationFallbackReason::RelativeAnySelector,
            ),
            final(self).same_inputs(old(self)),
    {
        self.result_builder.note_fallback_reason(
            lightmount_relative_selector_invalidation_fallback_reason(kind, relative_dependency),
        );
    }

    /// Record an invalidated element.
    pub fn note_affected_element<E: Copy>(&mut self, element: E) where
        RootMapper: LightmountStyleInvalidationElementRoot<E, Root>,

        ensures
            final(self).result_builder@ == old(self).result_builder@.with_root(
                old(self).root_mapper.root_of(element),
            ),
            final(self).same_inputs(old(self)),
    {
        let root = self.root_mapper.root_for_style_invalidation_element(element);
        self.note_affected_root(root);
    }

    /// Collect the invalidations of the matched dependencies at an element;
    /// return whether the element itself is invalidated, which is then
    /// recorded.
    pub fn collect_invalidations<E: Copy>(
        &mut self,
        element: E,
        collected: &mut CollectedInvalidations<'a, Scope>,
    ) -> (invalidates_self: bool) where
        RootMapper: LightmountStyleInvalidationElementRoot<E, Root>,

        ensures
            ({
                let all = collected_effect(
                    old(self).dependencies@,
                    old(self).checks(),
                    old(self).matching_context,
                    old(self).dependencies@.len(),
                );
                let noted = old(self).result_builder@.with_reasons(all.reasons);
                &&& invalidates_self == all.effect.invalidates_self
                &&& final(self).result_builder@ == if invalidates_self {
                    noted.with_root(old(self).root_mapper.root_of(element))
                } else {
                    noted
                }
                &&& final(self).same_inputs(old(self))
                &&& final(collected).effect() == (DependencyEffect {
                    invalidates_self: false,
                    reasons: Seq::empty(),
                    ..old(collected).effect().followed_by(all.effect)
                })
            }),
    {
        let ghost given = collected.effect();
        let ghost builder = self.result_builder@;
        let ghost checks = self.checks();
        let matching = self.matching_context;
        let mut invalidates_self = false;
        let mut index: usize = 0;
        proof {
            lemma_followed_by(given, DependencyEffect::none(), DependencyEffect::none());
            assert(builder.with_reasons(Seq::empty()) == builder);
        }
        while index < self.dependencies.len()
            invariant
                index <= self.dependencies.len(),
                self.same_inputs(old(self)),
                checks == old(self).checks(),
                matching == old(self).matching_context,
                given == (DependencyEffect {
                    invalidates_self: false,
                    reasons: Seq::empty(),
                    ..given
                }),
                ({
                    let all = collected_effect(self.dependencies@, checks, matching, index as nat);
                    &&& invalidates_self == all.effect.invalidates_self
                    &&& self.result_builder@ == builder.with_reasons(all.reasons)
                    &&& all.effect.reasons.len() == 0
                    &&& collected.effect() == (DependencyEffect {
                        invalidates_self: false,
                        reasons: Seq::empty(),
                        ..given.followed_by(all.effect)
                    })
                }),
            decreases self.dependencies.len() - index,
        {
            let ghost earlier = collected_effect(self.dependencies@, checks, matching, index as nat);
            let dependency: &'a Dependency = self.dependencies[index];
            match lightmount_retained_processor_dependency_effect(dependency) {
                LightmountRetainedProcessorDependencyEffect::Retained { empty_result_is_exact } => {
                    self.result_builder.note_empty_result_supported(empty_result_is_exact);
                    let check = match &self.outer_checks {
                        Some(checks) => {
                            if index < checks.len() {
                                Some(&checks[index])
                            } else {
                                None
                            }
                        },
                        None => None,
                    };
                    let ghost effect = effect_of::<'a, Scope>(
                        *dependency,
                        check_of(checks, index as int),
                        matching,
                    );
                    if note_dependency(
                        dependency,
                        check,
                        matching,
                        collected,
                        &mut self.result_builder,
                    ) {
                        invalidates_self = true;
                    }
                    proof {
                        lemma_retained_effect_has_no_reasons(
                            *dependency,
                            check_of(checks, index as int),
                            matching,
                        );
                        lemma_followed_by(given, earlier.effect, effect);
                    }
                },
                LightmountRetainedProcessorDependencyEffect::Fallback(reason) => {
                    self.result_builder.note_fallback_reason(reason);
                    proof {
                        let pushed = earlier.reasons.push(reason);
                        assert(pushed.drop_last() =~= earlier.reasons);
                    }
                },
            }
            index = index + 1;
        }
        if invalidates_self {
            self.note_affected_element(element);
        }
        invalidates_self
    }

    /// Record the element at which the recursion limit was exceeded.
    pub fn recursion_limit_exceeded<E: Copy>(&mut self, element: E) where
        RootMapper: LightmountStyleInvalidationElementRoot<E, Root>,

        ensures
            final(self).result_builder@ == old(self).result_builder@.with_root(
                old(self).root_mapper.root_of(element),
            ),
            final(self).same_inputs(old(self)),
    {
        self.note_affected_element(element);
    }

    /// Record an element that was invalidated itself.
    pub fn invalidated_self<E: Copy>(&mut self, element: E) where
        RootMapper: LightmountStyleInvalidationElementRoot<E, Root>,

        ensures
            final(self).result_builder@ == old(self).result_builder@.with_root(
                old(self).root_mapper.root_of(element),
            ),
            final(self).same_inputs(old(self)),
    {
        self.note_affected_element(element);
    }

    /// Record an invalidated sibling of an element.
    pub fn invalidated_sibling<E: Copy>(&mut self, sibling: E, _of: E) where
        RootMapper: LightmountStyleInvalidationElementRoot<E, Root>,

        ensures
            final(self).result_builder@ == old(self).result_builder@.with_root(
                old(self).root_mapper.root_of(sibling),
            ),
            final(self).same_inputs(old(self)),
    {
        self.note_affected_element(sibling);
    }

    /// Record a child through which descendants of an element were invalidated.
    pub fn invalidated_descendants<E: Copy>(&mut self, _element: E, child: E) where
        RootMapper: LightmountStyleInvalidationElementRoot<E, Root>,

        ensures
            final(self).result_builder@ == old(self).result_builder@.with_root(
                old(self).root_mapper.root_of(child),
            ),
            final(self).same_inputs(old(self)),
    {
        self.note_affected_element(child);
    }
}

} // verus!
