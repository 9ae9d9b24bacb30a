//! Laws of what matched dependencies give rise to, and of the candidates that
//! relative dependencies visit.

use vstd::prelude::*;

use super::actions::{
    LightmountDependencyInvalidationAction, LightmountRelativeDependencyInvalidationAction,
    LightmountRetainedProcessorDependencyEffect, LightmountScopeDependencyInvalidationAction,
};
use super::dependency::Dependency;
use super::element_tree::ElementLinks;
use super::invalidation_map::{
    AdditionalRelativeSelectorInvalidationMap, InvalidationMap, QuirksMode, StateDependency,
};
use super::ordered_set::{Keyed, OrderedSet};
use super::processor::{
    CollectedInvalidation, CollectedInvalidations, DependencyEffect, InvalidationSubject,
    LightmountStyleInvalidationProcessor, MatchingScope, OuterDependencyCheck,
};
use super::query::QueryShape;
use super::root_collection::RootCollection;

verus! {

/// The element that one leads to: its parent or host, or its previous sibling.
pub open spec fn next_along(tree: Seq<ElementLinks>, element: usize, up: bool) -> Option<usize> {
    if up {
        tree[element as int].parent_or_host
    } else {
        tree[element as int].previous_sibling
    }
}

/// Whether a list is what is met on the way from a first element: each element
/// leads to the one behind it, and the last leads nowhere.
pub open spec fn is_way(
    tree: Seq<ElementLinks>,
    first: Option<usize>,
    up: bool,
    way: Seq<usize>,
) -> bool {
    &&& way.len() == 0 <==> first is None
    &&& way.len() > 0 ==> first == Some(way[0])
    &&& way.len() > 0 ==> next_along(tree, way[way.len() - 1], up) is None
    &&& forall|i: int, j: int|
        0 <= i < way.len() && j == i + 1 && j < way.len() ==> next_along(tree, #[trigger] way[i], up)
            == Some(#[trigger] way[j])
}

proof fn lemma_way_with_first(
    tree: Seq<ElementLinks>,
    first: usize,
    up: bool,
    rest: Seq<usize>,
)
    requires
        is_way(tree, next_along(tree, first, up), up, rest),
    ensures
        is_way(tree, Some(first), up, seq![first] + rest),
{
    let way = seq![first] + rest;
    assert forall|i: int, j: int| 0 <= i < way.len() && j == i + 1 && j < way.len() implies
        next_along(tree, #[trigger] way[i], up) == Some(#[trigger] way[j]) by {
        if i > 0 {
            assert(way[i] == rest[i - 1] && way[j] == rest[j - 1]);
        }
    }
    if rest.len() > 0 {
        assert(way[way.len() - 1] == rest[rest.len() - 1]);
    }
}

proof fn lemma_ancestors_are_the_way_up(tree: Seq<ElementLinks>, element: int)
    requires
        super::element_tree::links_lead_before(tree),
        0 <= element < tree.len(),
    ensures
        is_way(
            tree,
            tree[element].parent_or_host,
            true,
            super::element_tree::ancestors(tree, element),
        ),
    decreases element,
{
    assert(super::element_tree::leads_before(tree[element].parent_or_host, element));
    if let Some(parent) = tree[element].parent_or_host {
        lemma_ancestors_are_the_way_up(tree, parent as int);
        lemma_way_with_first(
            tree,
            parent,
            true,
            super::element_tree::ancestors(tree, parent as int),
        );
    }
}

proof fn lemma_siblings_are_the_way_back(tree: Seq<ElementLinks>, element: int)
    requires
        super::element_tree::links_lead_before(tree),
        0 <= element < tree.len(),
    ensures
        is_way(
            tree,
            tree[element].previous_sibling,
            false,
            super::element_tree::earlier_siblings(tree, element),
        ),
    decreases element,
{
    assert(super::element_tree::leads_before(tree[element].previous_sibling, element));
    if let Some(previous) = tree[element].previous_sibling {
        lemma_siblings_are_the_way_back(tree, previous as int);
        lemma_way_with_first(
            tree,
            previous,
            false,
            super::element_tree::earlier_siblings(tree, previous as int),
        );
    }
}

proof fn lemma_siblings_from_are_the_way_back(tree: Seq<ElementLinks>, first: Option<usize>)
    requires
        super::element_tree::links_lead_before(tree),
        first matches Some(first) ==> first < tree.len(),
    ensures
        is_way(tree, first, false, super::element_tree::siblings_from(tree, first)),
{
    if let Some(first) = first {
        lemma_siblings_are_the_way_back(tree, first as int);
        lemma_way_with_first(
            tree,
            first,
            false,
            super::element_tree::earlier_siblings(tree, first as int),
        );
    }
}

/// Ancestors are met on the way up from the parent, earlier siblings on the way
/// back from the previous sibling, and the single candidates are the first of
/// these.
pub proof fn lemma_candidates_are_met_on_the_way(
    tree: Seq<ElementLinks>,
    root: int,
    previous: Option<usize>,
)
    requires
        super::element_tree::links_lead_before(tree),
        0 <= root < tree.len(),
        previous matches Some(first) ==> first < tree.len(),
    ensures
        is_way(
            tree,
            tree[root].parent_or_host,
            true,
            super::relative::relative_candidates(
                tree,
                root,
                previous,
                LightmountRelativeDependencyInvalidationAction::Ancestors,
            ),
        ),
        is_way(
            tree,
            previous,
            false,
            super::relative::relative_candidates(
                tree,
                root,
                previous,
                LightmountRelativeDependencyInvalidationAction::EarlierSibling,
            ),
        ),
        ({
            let parents = super::relative::relative_candidates(
                tree,
                root,
                previous,
                LightmountRelativeDependencyInvalidationAction::Parent,
            );
            let siblings = super::relative::relative_candidates(
                tree,
                root,
                previous,
                LightmountRelativeDependencyInvalidationAction::PrevSibling,
            );
            &&& tree[root].parent_or_host matches Some(parent) ==> parents == seq![parent]
            &&& tree[root].parent_or_host is None ==> parents.len() == 0
            &&& previous matches Some(sibling) ==> siblings == seq![sibling]
            &&& previous is None ==> siblings.len() == 0
        }),
{
    lemma_ancestors_are_the_way_up(tree, root);
    lemma_siblings_from_are_the_way_back(tree, previous);
}

proof fn lemma_one_way_back(
    tree: Seq<ElementLinks>,
    first: Option<usize>,
    way: Seq<usize>,
    other: Seq<usize>,
)
    requires
        is_way(tree, first, false, way),
        is_way(tree, first, false, other),
    ensures
        way == other,
    decreases way.len(),
{
    if way.len() > 0 {
        let link = next_along(tree, way[0], false);
        let rest = way.drop_first();
        let other_rest = other.drop_first();
        if way.len() > 1 {
            assert(link == Some(way[1]));
        }
        if other.len() > 1 {
            assert(next_along(tree, other[0], false) == Some(other[1]));
        }
        assert forall|i: int, j: int|
            0 <= i < rest.len() && j == i + 1 && j < rest.len() implies next_along(
            tree,
            #[trigger] rest[i],
            false,
        ) == Some(#[trigger] rest[j]) by {
            assert(rest[i] == way[i + 1] && rest[j] == way[j + 1]);
        }
        assert forall|i: int, j: int|
            0 <= i < other_rest.len() && j == i + 1 && j < other_rest.len() implies next_along(
            tree,
            #[trigger] other_rest[i],
            false,
        ) == Some(#[trigger] other_rest[j]) by {
            assert(other_rest[i] == other[i + 1] && other_rest[j] == other[j + 1]);
        }
        lemma_one_way_back(tree, link, rest, other_rest);
        assert(way =~= seq![way[0]] + rest);
        assert(other =~= seq![other[0]] + other_rest);
    } else {
        assert(way =~= other);
    }
}

/// The siblings before each of some elements and one more are those before each
/// of them, followed by those met on the way back from the last: all, or only
/// the first.
pub proof fn lemma_siblings_before_one_more(
    tree: Seq<ElementLinks>,
    elements: Seq<usize>,
    last: usize,
) -> (way: Seq<usize>)
    requires
        super::element_tree::links_lead_before(tree),
        last < tree.len(),
    ensures
        is_way(tree, tree[last as int].previous_sibling, false, way),
        super::element_tree::siblings_before_each(tree, elements.push(last), false)
            == super::element_tree::siblings_before_each(tree, elements, false) + way,
        super::element_tree::siblings_before_each(tree, elements.push(last), true)
            == super::element_tree::siblings_before_each(tree, elements, true) + (if way.len() > 0 {
            seq![way[0]]
        } else {
            seq![]
        }),
        super::element_tree::siblings_before_each(tree, Seq::empty(), false).len() == 0,
        super::element_tree::siblings_before_each(tree, Seq::empty(), true).len() == 0,
    decreases elements.len(),
{
    let previous = tree[last as int].previous_sibling;
    assert(super::element_tree::leads_before(previous, last as int));
    let way = super::element_tree::siblings_from(tree, previous);
    lemma_siblings_from_are_the_way_back(tree, previous);
    let more = elements.push(last);
    if elements.len() == 0 {
        assert(more.drop_first() =~= Seq::empty());
        assert(super::element_tree::siblings_before_each(tree, more.drop_first(), true)
            =~= Seq::empty());
        assert(super::element_tree::siblings_before_each(tree, more.drop_first(), false)
            =~= Seq::empty());
    } else {
        let rest = elements.drop_first();
        let same = lemma_siblings_before_one_more(tree, rest, last);
        lemma_one_way_back(tree, previous, way, same);
        assert(more.drop_first() =~= rest.push(last));
        assert(more[0] == elements[0]);
    }
    assert(super::element_tree::siblings_before_each(tree, more, false)
        =~= super::element_tree::siblings_before_each(tree, elements, false) + way);
    assert(super::element_tree::siblings_before_each(tree, more, true)
        =~= super::element_tree::siblings_before_each(tree, elements, true) + (if way.len() > 0 {
        seq![way[0]]
    } else {
        seq![]
    }));
    way
}

/// The candidates before ancestors are the siblings before each of the
/// ancestors, nearest ancestor first.
pub proof fn lemma_candidates_before_ancestors(
    tree: Seq<ElementLinks>,
    root: int,
    previous: Option<usize>,
) -> (way: Seq<usize>)
    requires
        super::element_tree::links_lead_before(tree),
        0 <= root < tree.len(),
    ensures
        is_way(tree, tree[root].parent_or_host, true, way),
        super::relative::relative_candidates(
            tree,
            root,
            previous,
            LightmountRelativeDependencyInvalidationAction::AncestorPrevSibling,
        ) == super::element_tree::siblings_before_each(tree, way, true),
        super::relative::relative_candidates(
            tree,
            root,
            previous,
            LightmountRelativeDependencyInvalidationAction::AncestorEarlierSibling,
        ) == super::element_tree::siblings_before_each(tree, way, false),
{
    lemma_ancestors_are_the_way_up(tree, root);
    super::element_tree::ancestors(tree, root)
}

/// Collecting relative dependencies keeps those of the relative kind, in order.
pub proof fn lemma_relative_dependencies_are_kept(
    dependencies: Seq<Dependency>,
    last: Dependency,
)
    ensures
        super::relative::relative_only(dependencies.push(last)) == if last.kind is Relative {
            super::relative::relative_only(dependencies).push(last)
        } else {
            super::relative::relative_only(dependencies)
        },
        super::relative::relative_only(Seq::empty()).len() == 0,
{
    assert(dependencies.push(last).drop_last() =~= dependencies);
}

/// Under a scope each dependency is paired with that scope, in order.
pub proof fn lemma_scoped_dependencies_have_the_scope<Scope>(
    dependencies: Seq<Dependency>,
    scope: Option<Scope>,
    index: int,
)
    ensures
        super::relative::in_scope(dependencies, scope).len() == dependencies.len(),
        0 <= index < dependencies.len() ==> super::relative::in_scope(dependencies, scope)[index]
            == (scope, dependencies[index]),
{
}

/// A candidate matches the dependencies that the ordinary map gives and, behind
/// them, those that the additional map gives.
pub proof fn lemma_candidates_match_both_maps(
    map: InvalidationMap,
    additional_map: AdditionalRelativeSelectorInvalidationMap,
    quirks_mode: QuirksMode,
    states: Seq<&StateDependency>,
    shape: QueryShape,
    dependency: Dependency,
)
    ensures
        ({
            let matched = super::relative::matched_at_candidate(
                map,
                additional_map,
                quirks_mode,
                states,
                shape,
            );
            let ordinary = super::invalidation_map::matching_dependencies(
                map,
                quirks_mode,
                states,
                shape,
            );
            let additional = super::invalidation_map::matching_relative_dependencies(
                additional_map,
                shape,
            );
            &&& matched.len() == ordinary.len() + additional.len()
            &&& ordinary.is_prefix_of(matched)
            &&& matched.contains(dependency) <==> ordinary.contains(dependency)
                || additional.contains(dependency)
        }),
{
    super::dependency_laws::lemma_concat_contains(
        super::invalidation_map::matching_dependencies(map, quirks_mode, states, shape),
        super::invalidation_map::matching_relative_dependencies(additional_map, shape),
        dependency,
    );
}

/// Whether a list holds the invalidation by a dependency itself and nothing
/// else.
pub open spec fn is_own<'a, Scope>(
    collected: Seq<CollectedInvalidation<'a, Scope>>,
    dependency: Dependency,
    matching: MatchingScope<Scope>,
) -> bool {
    &&& collected.len() == 1
    &&& collected[0].subject == InvalidationSubject::Dependency(&dependency)
    &&& collected[0].matching == matching
}

/// A dependency that is not followed through its scope has the effect of its
/// action, in the place that the action names and in no other.
pub proof fn lemma_effects_go_where_the_action_says<'a, Scope>(
    dependency: Dependency,
    check: Option<OuterDependencyCheck>,
    matching: MatchingScope<Scope>,
)
    requires
        dependency.action() != LightmountDependencyInvalidationAction::Scope(
            LightmountScopeDependencyInvalidationAction::CheckNextInScope,
        ),
    ensures
        ({
            let effect = super::processor::effect_of::<'a, Scope>(dependency, check, matching);
            let action = dependency.action();
            let scope_action = |scope: LightmountScopeDependencyInvalidationAction|
                action == LightmountDependencyInvalidationAction::Scope(scope);
            let implicit = scope_action(LightmountScopeDependencyInvalidationAction::ImplicitScope);
            let pushed = scope_action(LightmountScopeDependencyInvalidationAction::PushByCombinator);
            let sibling = dependency.facts.right_combinator_is_sibling;
            let added = scope_action(
                LightmountScopeDependencyInvalidationAction::ForceAtSubject { force_add: true },
            );
            let forced = added || scope_action(
                LightmountScopeDependencyInvalidationAction::ForceAtSubject { force_add: false },
            );
            let descends = action is ElementAndDescendants || action is Descendants || pushed
                && !sibling;
            &&& effect.invalidates_self <==> action is Element || action is ElementAndDescendants
                || forced || pushed
            &&& descends ==> is_own(effect.dom_descendants, dependency, matching)
            &&& forced ==> effect.dom_descendants.len() == 1 && effect.dom_descendants[0].matching
                == matching && effect.dom_descendants[0].subject
                == (InvalidationSubject::ScopeSubject {
                dependency: &dependency,
                force_add: added,
            })
            &&& implicit ==> effect.dom_descendants.len() == dependency.next.len() && forall|i: int|
                0 <= i < dependency.next.len() ==> (#[trigger] effect.dom_descendants[i]).matching
                    == matching && effect.dom_descendants[i].subject
                    == InvalidationSubject::NextDescendant(&dependency.next[i])
            &&& !descends && !forced && !implicit ==> effect.dom_descendants.len() == 0
            &&& action is Siblings || pushed && sibling ==> is_own(
                effect.siblings,
                dependency,
                matching,
            )
            &&& !(action is Siblings || pushed && sibling) ==> effect.siblings.len() == 0
            &&& action is SlottedElements ==> is_own(
                effect.slotted_descendants,
                dependency,
                matching,
            )
            &&& !(action is SlottedElements) ==> effect.slotted_descendants.len() == 0
            &&& action is Parts ==> is_own(effect.parts, dependency, matching)
            &&& !(action is Parts) ==> effect.parts.len() == 0
            &&& action matches LightmountDependencyInvalidationAction::Fallback(reason)
                ==> effect.reasons == seq![reason]
            &&& !(action is Fallback) ==> effect.reasons.len() == 0
        }),
{
}

/// Whether what follows in a scope at this place is left out: a snapshot shows
/// that its outer part did not change.
pub open spec fn shown_unchanged(check: Option<OuterDependencyCheck>, index: int) -> bool {
    check matches Some(check) && index < check.next.len() && !check.next[index].changes_anchor
}

/// Whether an effect is another one with a third added behind, group by group.
pub open spec fn is_joined<'a, Scope>(
    joined: DependencyEffect<'a, Scope>,
    first: DependencyEffect<'a, Scope>,
    second: DependencyEffect<'a, Scope>,
) -> bool {
    &&& joined.invalidates_self <==> first.invalidates_self || second.invalidates_self
    &&& joined.dom_descendants == first.dom_descendants + second.dom_descendants
    &&& joined.slotted_descendants == first.slotted_descendants + second.slotted_descendants
    &&& joined.parts == first.parts + second.parts
    &&& joined.siblings == first.siblings + second.siblings
    &&& joined.reasons == first.reasons + second.reasons
}

/// Whether an effect is none at all.
pub open spec fn has_no_effect<'a, Scope>(effect: DependencyEffect<'a, Scope>) -> bool {
    &&& !effect.invalidates_self
    &&& effect.dom_descendants.len() == 0
    &&& effect.slotted_descendants.len() == 0
    &&& effect.parts.len() == 0
    &&& effect.siblings.len() == 0
    &&& effect.reasons.len() == 0
}

/// A dependency that is followed through its scope has the effects of all that
/// follow, one behind the other, but for those shown unchanged.
pub proof fn lemma_scoped_effects_add_up<'a, Scope>(
    dependency: Dependency,
    check: Option<OuterDependencyCheck>,
    matching: MatchingScope<Scope>,
    index: nat,
)
    requires
        index < dependency.next.len(),
    ensures
        dependency.action() == LightmountDependencyInvalidationAction::Scope(
            LightmountScopeDependencyInvalidationAction::CheckNextInScope,
        ) ==> super::processor::effect_of::<'a, Scope>(dependency, check, matching)
            == super::processor::effect_of_next(
            dependency,
            check,
            matching,
            dependency.next.len() as nat,
        ),
        has_no_effect(
            super::processor::effect_of_next::<'a, Scope>(dependency, check, matching, 0),
        ),
        ({
            let before = super::processor::effect_of_next::<'a, Scope>(
                dependency,
                check,
                matching,
                index,
            );
            let after = super::processor::effect_of_next::<'a, Scope>(
                dependency,
                check,
                matching,
                index + 1,
            );
            let own_check = match check {
                Some(check) => if index < check.next.len() {
                    Some(check.next[index as int])
                } else {
                    None
                },
                None => None,
            };
            &&& shown_unchanged(check, index as int) ==> after == before
            &&& !shown_unchanged(check, index as int) ==> is_joined(
                after,
                before,
                super::processor::effect_of(dependency.next[index as int], own_check, matching),
            )
        }),
{
}

/// The matched dependencies of an element have their effects one behind the
/// other, each with the snapshot check of its own place; one that cannot be
/// retained adds its reason and no effect.
pub proof fn lemma_collected_effects_add_up<'a, Scope>(
    dependencies: Seq<&'a Dependency>,
    checks: Option<Seq<OuterDependencyCheck>>,
    matching: MatchingScope<Scope>,
    index: nat,
)
    requires
        index < dependencies.len(),
    ensures
        ({
            let none = super::processor::collected_effect(
                dependencies,
                checks,
                matching,
                0,
            );
            has_no_effect(none.effect) && none.reasons.len() == 0
        }),
        ({
            let before = super::processor::collected_effect(dependencies, checks, matching, index);
            let after = super::processor::collected_effect(
                dependencies,
                checks,
                matching,
                index + 1,
            );
            let dependency = *dependencies[index as int];
            let own_check = match checks {
                Some(checks) => if index < checks.len() {
                    Some(checks[index as int])
                } else {
                    None
                },
                None => None,
            };
            match super::dependency::retained_effect(dependency) {
                LightmountRetainedProcessorDependencyEffect::Retained { .. } => {
                    &&& after.reasons == before.reasons
                    &&& is_joined(
                        after.effect,
                        before.effect,
                        super::processor::effect_of(dependency, own_check, matching),
                    )
                },
                LightmountRetainedProcessorDependencyEffect::Fallback(reason) => {
                    &&& after.reasons == before.reasons.push(reason)
                    &&& after.effect == before.effect
                },
            }
        }),
{
}

/// Processors with the same inputs match under the same context, have the same
/// dependencies and snapshot checks, and map elements in the same way.
pub proof fn lemma_same_inputs_in_all_parts<'a, Root: Keyed, RootMapper, Scope: Copy>(
    one: LightmountStyleInvalidationProcessor<'a, Root, RootMapper, Scope>,
    two: LightmountStyleInvalidationProcessor<'a, Root, RootMapper, Scope>,
)
    ensures
        one.same_inputs(&two) <==> {
            &&& one.matching_context == two.matching_context
            &&& one.dependencies == two.dependencies
            &&& one.outer_checks == two.outer_checks
            &&& one.root_mapper == two.root_mapper
        },
        one.outer_checks is None <==> one.checks() is None,
        one.outer_checks matches Some(checks) ==> one.checks() == Some(checks@),
{
}

/// What was collected counts by list, and neither the element itself nor a
/// reason is among it.
pub proof fn lemma_collected_lists_by_place<'a, Scope>(collected: CollectedInvalidations<'a, Scope>)
    ensures
        collected.effect().dom_descendants == collected.dom_descendants@,
        collected.effect().slotted_descendants == collected.slotted_descendants@,
        collected.effect().parts == collected.parts@,
        collected.effect().siblings == collected.siblings@,
        !collected.effect().invalidates_self,
        collected.effect().reasons.len() == 0,
{
}

/// A list takes all roots that are added, a set and a processor those that they
/// do not have; what was held stays in front.
pub proof fn lemma_collections_take_roots<'a, Root: Keyed, RootMapper, Scope: Copy>(
    held: Seq<Root>,
    more: Seq<Root>,
    root: Root,
)
    ensures
        <Vec<Root> as RootCollection<Root>>::roots_after(held, more) == held + more,
        ({
            let after = <OrderedSet<Root> as RootCollection<Root>>::roots_after(held, more);
            &&& after.contains(root) <==> held.contains(root) || more.contains(root)
            &&& held.is_prefix_of(after)
            &&& held.no_duplicates() ==> after.no_duplicates()
        }),
        ({
            let after = <LightmountStyleInvalidationProcessor<
                'a,
                Root,
                RootMapper,
                Scope,
            > as RootCollection<Root>>::roots_after(held, more);
            &&& after.contains(root) <==> held.contains(root) || more.contains(root)
            &&& held.is_prefix_of(after)
            &&& held.no_duplicates() ==> after.no_duplicates()
        }),
{
    super::ordered_set::lemma_extend_unique_contains(held, more, root);
    super::ordered_set::lemma_extend_unique_prefix(held, more);
    if held.no_duplicates() {
        super::ordered_set::lemma_extend_unique_no_duplicates(held, more);
    }
}

} // verus!
