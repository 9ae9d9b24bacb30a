//! Candidates and dependencies of relative selectors.

use vstd::prelude::*;

use super::actions::LightmountRelativeDependencyInvalidationAction;
use super::dependency::{lightmount_dependency_is_relative_selector, Dependency};
use super::element_tree::{ElementLinks, ElementTree};
use super::invalidation_map::{
    lightmount_collect_dependencies_from_additional_relative_invalidation_map,
    lightmount_collect_dependencies_from_invalidation_map,
    AdditionalRelativeSelectorInvalidationMap, InvalidationMap, QuirksMode, StateDependency,
};
use super::ordered_set::Keyed;
use super::processor::LightmountStyleInvalidationElementRoot;
use super::query::{LightmountStyleInvalidationQuery, QueryShape};
use super::query_result::{
    lightmount_relative_style_invalidation_query_result,
    LightmountSnapshotRelativeDependencyRoots, LightmountSourceStyleInvalidationQueryResult,
};

verus! {

/// The candidates of a traversal from an element, in the order in which they
/// are visited. `previous` is the previous sibling of the element as the
/// mutation's sibling context gives it.
pub open spec fn relative_candidates(
    tree: Seq<ElementLinks>,
    root: int,
    previous: Option<usize>,
    action: LightmountRelativeDependencyInvalidationAction,
) -> Seq<usize> {
    match action {
        LightmountRelativeDependencyInvalidationAction::Ancestors => {
            super::element_tree::ancestors(tree, root)
        },
        LightmountRelativeDependencyInvalidationAction::Parent => {
            super::element_tree::linked(tree[root].parent_or_host)
        },
        LightmountRelativeDependencyInvalidationAction::PrevSibling => {
            super::element_tree::linked(previous)
        },
        LightmountRelativeDependencyInvalidationAction::EarlierSibling => {
            super::element_tree::siblings_from(tree, previous)
        },
        LightmountRelativeDependencyInvalidationAction::AncestorPrevSibling => {
            super::element_tree::siblings_before_each(
                tree,
                super::element_tree::ancestors(tree, root),
                true,
            )
        },
        LightmountRelativeDependencyInvalidationAction::AncestorEarlierSibling => {
            super::element_tree::siblings_before_each(
                tree,
                super::element_tree::ancestors(tree, root),
                false,
            )
        },
    }
}

/// Return the candidate elements for one relative dependency traversal action,
/// in the order in which they are to be visited.
pub fn lightmount_visit_relative_dependency_candidates(
    tree: &ElementTree,
    root: usize,
    action: LightmountRelativeDependencyInvalidationAction,
    previous: Option<usize>,
) -> (candidates: Vec<usize>)
    requires
        root < tree@.len(),
        super::element_tree::leads_before(previous, tree@.len() as int),
    ensures
        candidates@ == relative_candidates(tree@, root as int, previous, action),
{
    let mut candidates: Vec<usize> = Vec::new();
    match action {
        LightmountRelativeDependencyInvalidationAction::Ancestors => {
            tree.append_ancestors(root, &mut candidates);
        },
        LightmountRelativeDependencyInvalidationAction::Parent => {
            if let Some(parent) = tree.parent_or_host(root) {
                candidates.push(parent);
            }
        },
        LightmountRelativeDependencyInvalidationAction::PrevSibling => {
            if let Some(previous) = previous {
                candidates.push(previous);
            }
        },
        LightmountRelativeDependencyInvalidationAction::EarlierSibling => {
            tree.append_siblings_from(previous, &mut candidates);
        },
        LightmountRelativeDependencyInvalidationAction::AncestorPrevSibling => {
            tree.append_ancestor_siblings(root, true, &mut candidates);
        },
        LightmountRelativeDependencyInvalidationAction::AncestorEarlierSibling => {
            tree.append_ancestor_siblings(root, false, &mut candidates);
        },
    }
    assert(candidates@ =~= relative_candidates(tree@, root as int, previous, action));
    candidates
}

proof fn lemma_nearest_siblings_among_all(
    tree: Seq<ElementLinks>,
    elements: Seq<usize>,
    candidate: usize,
)
    requires
        super::element_tree::siblings_before_each(tree, elements, true).contains(candidate),
    ensures
        super::element_tree::siblings_before_each(tree, elements, false).contains(candidate),
    decreases elements.len(),
{
    if elements.len() > 0 {
        let rest = elements.drop_first();
        let previous = tree[elements[0] as int].previous_sibling;
        let nearest = super::element_tree::linked(previous);
        let near_rest = super::element_tree::siblings_before_each(tree, rest, true);
        let own = super::element_tree::siblings_from(tree, previous);
        let all_rest = super::element_tree::siblings_before_each(tree, rest, false);
        let index = (nearest + near_rest).index_of(candidate);
        if index < nearest.len() {
            assert((own + all_rest)[0] == candidate);
        } else {
            assert(near_rest[index - nearest.len()] == candidate);
            lemma_nearest_siblings_among_all(tree, rest, candidate);
            let i = all_rest.index_of(candidate);
            assert((own + all_rest)[own.len() + i] == candidate);
        }
    }
}

/// The parent is the first of the ancestors, the previous sibling is the first
/// of the earlier siblings, and the previous siblings of ancestors are among
/// their earlier siblings.
pub proof fn lemma_single_candidates_come_first(
    tree: Seq<ElementLinks>,
    root: int,
    previous: Option<usize>,
    candidate: usize,
)
    requires
        super::element_tree::links_lead_before(tree),
        0 <= root < tree.len(),
    ensures
        ({
            let all = relative_candidates(
                tree,
                root,
                previous,
                LightmountRelativeDependencyInvalidationAction::Ancestors,
            );
            let parent = relative_candidates(
                tree,
                root,
                previous,
                LightmountRelativeDependencyInvalidationAction::Parent,
            );
            parent == all.take(parent.len() as int) && (parent.len() == 0 ==> all.len() == 0)
        }),
        ({
            let all = relative_candidates(
                tree,
                root,
                previous,
                LightmountRelativeDependencyInvalidationAction::EarlierSibling,
            );
            let nearest = relative_candidates(
                tree,
                root,
                previous,
                LightmountRelativeDependencyInvalidationAction::PrevSibling,
            );
            nearest == all.take(nearest.len() as int) && (nearest.len() == 0 ==> all.len() == 0)
        }),
        relative_candidates(
            tree,
            root,
            previous,
            LightmountRelativeDependencyInvalidationAction::AncestorPrevSibling,
        ).contains(candidate) ==> relative_candidates(
            tree,
            root,
            previous,
            LightmountRelativeDependencyInvalidationAction::AncestorEarlierSibling,
        ).contains(candidate),
{
    let ancestors = super::element_tree::ancestors(tree, root);
    let parent = super::element_tree::linked(tree[root].parent_or_host);
    assert(super::element_tree::leads_before(tree[root].parent_or_host, root));
    assert(parent =~= ancestors.take(parent.len() as int));
    let siblings = super::element_tree::siblings_from(tree, previous);
    let nearest = super::element_tree::linked(previous);
    assert(nearest =~= siblings.take(nearest.len() as int));
    if super::element_tree::siblings_before_each(tree, ancestors, true).contains(candidate) {
        lemma_nearest_siblings_among_all(tree, ancestors, candidate);
    }
}

/// The relative dependencies of a list.
pub open spec fn relative_only(dependencies: Seq<Dependency>) -> Seq<Dependency>
    decreases dependencies.len(),
{
    if dependencies.len() == 0 {
        seq![]
    } else {
        let before = relative_only(dependencies.drop_last());
        if dependencies.last().kind is Relative {
            before.push(dependencies.last())
        } else {
            before
        }
    }
}

/// The dependencies that a list of references refers to, with their scopes.
pub open spec fn scoped<'a, Scope>(
    dependencies: Seq<(Option<Scope>, &'a Dependency)>,
) -> Seq<(Option<Scope>, Dependency)> {
    dependencies.map_values(|entry: (Option<Scope>, &'a Dependency)| (entry.0, *entry.1))
}

/// Dependencies under one scope.
pub open spec fn in_scope<Scope>(
    dependencies: Seq<Dependency>,
    scope: Option<Scope>,
) -> Seq<(Option<Scope>, Dependency)> {
    dependencies.map_values(|dependency: Dependency| (scope, dependency))
}

/// Dependencies matched while a relative selector invalidator visits
/// candidates.
#[derive(Debug)]
pub struct RelativeDependencyCollection<'a, Scope> {
    /// The number of dependencies that matched.
    pub matched_dependency_count: usize,
    /// Those of them that are relative, with the scopes of their candidates.
    pub snapshot_relative_dependencies: Vec<(Option<Scope>, &'a Dependency)>,
}

/// The dependencies that match a query at one candidate.
pub open spec fn matched_at_candidate(
    map: InvalidationMap,
    additional_map: AdditionalRelativeSelectorInvalidationMap,
    quirks_mode: QuirksMode,
    state_candidates: Seq<&StateDependency>,
    shape: QueryShape,
) -> Seq<Dependency> {
    super::invalidation_map::matching_dependencies(map, quirks_mode, state_candidates, shape)
        + super::invalidation_map::matching_relative_dependencies(additional_map, shape)
}

impl<'a, Scope: Copy> RelativeDependencyCollection<'a, Scope> {
    /// Create an empty collection.
    pub fn new() -> (collection: Self)
        ensures
            collection.matched_dependency_count == 0,
            scoped(collection.snapshot_relative_dependencies@) == Seq::<
                (Option<Scope>, Dependency),
            >::empty(),
    {
        let collection = RelativeDependencyCollection {
            matched_dependency_count: 0,
            snapshot_relative_dependencies: Vec::new(),
        };
        assert(scoped(collection.snapshot_relative_dependencies@) =~= Seq::<
            (Option<Scope>, Dependency),
        >::empty());
        collection
    }

    /// Collect the dependencies that match a query at one candidate, and return
    /// them for the invalidator. `None` where their number could not be
    /// counted; nothing is collected then.
    pub fn collect_candidate(
        &mut self,
        scope: Option<Scope>,
        map: &'a InvalidationMap,
        additional_map: &'a AdditionalRelativeSelectorInvalidationMap,
        quirks_mode: QuirksMode,
        state_candidates: &Vec<&'a StateDependency>,
        query: LightmountStyleInvalidationQuery<'_>,
    ) -> (dependencies: Option<Vec<&'a Dependency>>)
        ensures
            ({
                let matched = matched_at_candidate(
                    *map,
                    *additional_map,
                    quirks_mode,
                    state_candidates@,
                    query@,
                );
                &&& dependencies is Some <==> old(self).matched_dependency_count + matched.len()
                    <= usize::MAX
                &&& dependencies matches Some(dependencies) ==> {
                    &&& super::invalidation_map::referred(dependencies@) == matched
                    &&& final(self).matched_dependency_count == old(self).matched_dependency_count
                        + matched.len()
                    &&& scoped(final(self).snapshot_relative_dependencies@) == scoped(
                        old(self).snapshot_relative_dependencies@,
                    ) + in_scope(relative_only(matched), scope)
                }
                &&& dependencies is None ==> *final(self) == *old(self)
            }),
    {
        let ghost before = scoped(self.snapshot_relative_dependencies@);
        let mut dependencies: Vec<&'a Dependency> = Vec::new();
        lightmount_collect_dependencies_from_invalidation_map(
            map,
            quirks_mode,
            state_candidates,
            query,
            &mut dependencies,
        );
        lightmount_collect_dependencies_from_additional_relative_invalidation_map(
            additional_map,
            query,
            &mut dependencies,
        );
        let ghost matched = super::invalidation_map::referred(dependencies@);
        proof {
            assert(super::invalidation_map::referred(Seq::<&'a Dependency>::empty())
                =~= Seq::<Dependency>::empty());
            assert(matched =~= matched_at_candidate(
                *map,
                *additional_map,
                quirks_mode,
                state_candidates@,
                query@,
            ));
            assert(matched.len() == dependencies.len());
        }
        if dependencies.len() > usize::MAX - self.matched_dependency_count {
            return None;
        }
        self.matched_dependency_count = self.matched_dependency_count + dependencies.len();
        let mut index: usize = 0;
        assert(before + in_scope(relative_only(matched.take(0)), scope) =~= before);
        while index < dependencies.len()
            invariant
                index <= dependencies.len(),
                matched == super::invalidation_map::referred(dependencies@),
                self.matched_dependency_count == old(self).matched_dependency_count
                    + matched.len(),
                scoped(self.snapshot_relative_dependencies@) == before + in_scope(
                    relative_only(matched.take(index as int)),
                    scope,
                ),
            decreases dependencies.len() - index,
        {
            let dependency: &'a Dependency = dependencies[index];
            let ghost prior = self.snapshot_relative_dependencies@;
            if lightmount_dependency_is_relative_selector(dependency) {
                self.snapshot_relative_dependencies.push((scope, dependency));
                assert(scoped(self.snapshot_relative_dependencies@) =~= scoped(prior).push(
                    (scope, *dependency),
                ));
            }
            proof {
                let next = matched.take(index + 1);
                assert(next.drop_last() =~= matched.take(index as int));
                assert(next.last() == matched[index as int]);
                assert(scoped(self.snapshot_relative_dependencies@) =~= before + in_scope(
                    relative_only(next),
                    scope,
                ));
            }
            index = index + 1;
        }
        assert(matched.take(matched.len() as int) =~= matched);
        Some(dependencies)
    }
}

/// Return the result of a relative selector query from what was collected while
/// the invalidator ran, the elements that it affected, and the roots that
/// snapshots gave for the collected relative dependencies.
pub fn lightmount_collect_relative_style_invalidation_query_result<
    'a,
    E: Copy,
    Root: Keyed,
    Scope: Copy,
    RootMapper: LightmountStyleInvalidationElementRoot<E, Root>,
>(
    root_mapper: &RootMapper,
    collection: &RelativeDependencyCollection<'a, Scope>,
    affected_elements: &[E],
    snapshot_relative_roots: &LightmountSnapshotRelativeDependencyRoots<Root>,
) -> (result: LightmountSourceStyleInvalidationQueryResult<Root>)
    ensures
        result@ == super::query_result::relative_query_result(
            affected_elements@.map_values(|element: E| root_mapper.root_of(element)),
            *snapshot_relative_roots,
            collection.matched_dependency_count,
            collection.snapshot_relative_dependencies@.len() as usize,
        ),
{
    let ghost mapped = affected_elements@.map_values(|element: E| root_mapper.root_of(element));
    let mut affected_roots: Vec<Root> = Vec::new();
    let mut index: usize = 0;
    while index < affected_elements.len()
        invariant
            index <= affected_elements@.len(),
            mapped == affected_elements@.map_values(|element: E| root_mapper.root_of(element)),
            affected_roots@ == mapped.take(index as int),
        decreases affected_elements.len() - index,
    {
        affected_roots.push(
            root_mapper.root_for_style_invalidation_element(affected_elements[index]),
        );
        assert(affected_roots@ =~= mapped.take(index + 1));
        index = index + 1;
    }
    assert(mapped.take(mapped.len() as int) =~= mapped);
    lightmount_relative_style_invalidation_query_result(
        affected_roots.as_slice(),
        snapshot_relative_roots,
        collection.matched_dependency_count,
        collection.snapshot_relative_dependencies.len(),
    )
}

} // verus!
