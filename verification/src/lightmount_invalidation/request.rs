//! Retained queries of elements, their mutation context and the requests that
//! are made of them.

use vstd::prelude::*;

use super::element_state::ElementState;
use super::lists::slice_contains;
use super::ordered_set::{same, Keyed};
use super::query::{
    LightmountRetainedStyleInvalidationQuery, LightmountRetainedStyleSiblingTraversal, QueryShape,
    RetainedQueryView,
};
use super::text::{copy_optional_text, copy_texts};

verus! {

/// Requirement for running a retained query against a stylesheet source's
/// dependency summary.
#[derive(Clone, Copy, Debug, PartialEq, Eq, Structural)]
pub struct LightmountSourceDependencyRequestRequirement {
    /// The source must contain child-list structural dependencies.
    pub requires_child_list_structural_dependency: bool,
    /// The source must contain direct previous-sibling relative dependencies.
    pub requires_relative_previous_sibling_dependency: bool,
}

impl Default for LightmountSourceDependencyRequestRequirement {
    fn default() -> (requirement: Self)
        ensures
            requirement == (LightmountSourceDependencyRequestRequirement {
                requires_child_list_structural_dependency: false,
                requires_relative_previous_sibling_dependency: false,
            }),
    {
        Self {
            requires_child_list_structural_dependency: false,
            requires_relative_previous_sibling_dependency: false,
        }
    }
}

impl LightmountSourceDependencyRequestRequirement {
    /// No additional source dependency gate is required.
    pub fn exact() -> (requirement: Self)
        ensures
            requirement == (LightmountSourceDependencyRequestRequirement {
                requires_child_list_structural_dependency: false,
                requires_relative_previous_sibling_dependency: false,
            }),
    {
        Self::default()
    }

    /// The source must contain child-list structural dependencies.
    pub fn child_list_structural() -> (requirement: Self)
        ensures
            requirement == (LightmountSourceDependencyRequestRequirement {
                requires_child_list_structural_dependency: true,
                requires_relative_previous_sibling_dependency: false,
            }),
    {
        Self {
            requires_child_list_structural_dependency: true,
            requires_relative_previous_sibling_dependency: false,
        }
    }

    /// The source must contain direct previous-sibling relative dependencies.
    pub fn relative_previous_sibling() -> (requirement: Self)
        ensures
            requirement == (LightmountSourceDependencyRequestRequirement {
                requires_child_list_structural_dependency: false,
                requires_relative_previous_sibling_dependency: true,
            }),
    {
        Self {
            requires_child_list_structural_dependency: false,
            requires_relative_previous_sibling_dependency: true,
        }
    }

    /// The source must contain both child-list structural and direct
    /// previous-sibling relative dependencies.
    pub fn child_list_structural_relative_previous_sibling() -> (requirement: Self)
        ensures
            requirement == (LightmountSourceDependencyRequestRequirement {
                requires_child_list_structural_dependency: true,
                requires_relative_previous_sibling_dependency: true,
            }),
    {
        Self {
            requires_child_list_structural_dependency: true,
            requires_relative_previous_sibling_dependency: true,
        }
    }

    /// The requirement of a query that two requests make: the structural gate
    /// holds where both have it, the relative gate where either has it.
    pub open spec fn merge(self, incoming: Self) -> Self {
        LightmountSourceDependencyRequestRequirement {
            requires_child_list_structural_dependency: self.requires_child_list_structural_dependency
                && incoming.requires_child_list_structural_dependency,
            requires_relative_previous_sibling_dependency:
                self.requires_relative_previous_sibling_dependency
                || incoming.requires_relative_previous_sibling_dependency,
        }
    }

    /// Merge requirements for duplicate retained queries.
    pub fn merged_with(self, incoming: Self) -> (merged: Self)
        ensures
            merged == self.merge(incoming),
    {
        Self {
            requires_child_list_structural_dependency: self.requires_child_list_structural_dependency
                && incoming.requires_child_list_structural_dependency,
            requires_relative_previous_sibling_dependency:
                self.requires_relative_previous_sibling_dependency
                || incoming.requires_relative_previous_sibling_dependency,
        }
    }

    /// Return whether child-list structural dependencies are required.
    pub fn requires_child_list_structural_dependency(self) -> (required: bool)
        ensures
            required == self.requires_child_list_structural_dependency,
    {
        self.requires_child_list_structural_dependency
    }

    /// Return whether direct previous-sibling relative dependencies are
    /// required.
    pub fn requires_relative_previous_sibling_dependency(self) -> (required: bool)
        ensures
            required == self.requires_relative_previous_sibling_dependency,
    {
        self.requires_relative_previous_sibling_dependency
    }
}

/// Merge source dependency request requirements for duplicate retained queries.
pub fn lightmount_merge_source_dependency_request_requirement(
    existing: LightmountSourceDependencyRequestRequirement,
    incoming: LightmountSourceDependencyRequestRequirement,
) -> (merged: LightmountSourceDependencyRequestRequirement)
    ensures
        merged == existing.merge(incoming),
{
    existing.merged_with(incoming)
}

/// Merging requirements does not depend on their order or grouping, and
/// merging a requirement with itself changes nothing.
pub proof fn lemma_requirement_merge_is_semilattice(
    first: LightmountSourceDependencyRequestRequirement,
    second: LightmountSourceDependencyRequestRequirement,
    third: LightmountSourceDependencyRequestRequirement,
)
    ensures
        first.merge(second) == second.merge(first),
        first.merge(second).merge(third) == first.merge(second.merge(third)),
        first.merge(first) == first,
{
}

/// Mutation-time relation for fallback roots when the changed element has
/// already been inserted or removed from its original sibling position.
#[derive(Copy, Debug, PartialEq, Eq)]
pub struct LightmountDependencyInvalidationFallbackContext<Root> {
    /// The mutation-time parent.
    pub parent: Option<Root>,
    /// The mutation-time previous sibling.
    pub previous_sibling: Option<Root>,
    /// The mutation-time next sibling.
    pub next_sibling: Option<Root>,
}

impl<Root: Copy> Clone for LightmountDependencyInvalidationFallbackContext<Root> {
    fn clone(&self) -> (copy: Self)
        ensures
            copy == *self,
    {
        *self
    }
}

impl<Root> LightmountDependencyInvalidationFallbackContext<Root> {
    /// Create fallback context from the mutation-time sibling relation.
    pub fn from_mutation_relation(
        parent: Option<Root>,
        previous_sibling: Option<Root>,
        next_sibling: Option<Root>,
    ) -> (context: Self)
        ensures
            context == (LightmountDependencyInvalidationFallbackContext {
                parent,
                previous_sibling,
                next_sibling,
            }),
    {
        Self { parent, previous_sibling, next_sibling }
    }

    /// Return the mutation-time parent.
    pub fn parent(&self) -> (parent: Option<Root>) where Root: Copy
        ensures
            parent == self.parent,
    {
        self.parent
    }

    /// Return the mutation-time previous sibling.
    pub fn previous_sibling(&self) -> (sibling: Option<Root>) where Root: Copy
        ensures
            sibling == self.previous_sibling,
    {
        self.previous_sibling
    }

    /// Return the mutation-time next sibling.
    pub fn next_sibling(&self) -> (sibling: Option<Root>) where Root: Copy
        ensures
            sibling == self.next_sibling,
    {
        self.next_sibling
    }

    /// The context that knows no relation.
    pub open spec fn none() -> Self {
        LightmountDependencyInvalidationFallbackContext {
            parent: None,
            previous_sibling: None,
            next_sibling: None,
        }
    }
}

impl<Root> Default for LightmountDependencyInvalidationFallbackContext<Root> {
    fn default() -> (context: Self)
        ensures
            context == Self::none(),
    {
        Self { parent: None, previous_sibling: None, next_sibling: None }
    }
}

/// Dependency keys captured for one element before retained invalidation query
/// construction.
#[derive(Debug, PartialEq, Eq, Hash)]
pub struct LightmountElementDependencySnapshot<Root> {
    /// The element.
    pub handle: Root,
    /// Its local name.
    pub local_name: String,
    /// Its state.
    pub state: ElementState,
    /// The local names of its attributes.
    pub attribute_names: Vec<String>,
    /// Its class tokens.
    pub class_tokens: Vec<String>,
    /// Its custom states.
    pub custom_states: Vec<String>,
    /// Its id.
    pub id: Option<String>,
}

impl<Root: Copy> Clone for LightmountElementDependencySnapshot<Root> {
    fn clone(&self) -> (snapshot: Self)
        ensures
            snapshot.handle == self.handle,
            snapshot.local_name == self.local_name,
            snapshot.state == self.state,
            snapshot.attribute_names@ == self.attribute_names@,
            snapshot.class_tokens@ == self.class_tokens@,
            snapshot.custom_states@ == self.custom_states@,
            snapshot.id == self.id,
    {
        Self {
            handle: self.handle,
            local_name: self.local_name.clone(),
            state: self.state,
            attribute_names: copy_texts(&self.attribute_names),
            class_tokens: copy_texts(&self.class_tokens),
            custom_states: copy_texts(&self.custom_states),
            id: copy_optional_text(&self.id),
        }
    }
}

impl<Root: Copy> LightmountElementDependencySnapshot<Root> {
    /// Create dependency snapshot keys for one element.
    pub fn new(
        handle: Root,
        local_name: String,
        state: ElementState,
        attribute_names: Vec<String>,
        class_tokens: Vec<String>,
        custom_states: Vec<String>,
        id: Option<String>,
    ) -> (snapshot: Self)
        ensures
            snapshot == (LightmountElementDependencySnapshot {
                handle,
                local_name,
                state,
                attribute_names,
                class_tokens,
                custom_states,
                id,
            }),
    {
        Self { handle, local_name, state, attribute_names, class_tokens, custom_states, id }
    }

    /// Return the element handle this snapshot describes.
    pub fn handle(&self) -> (handle: Root)
        ensures
            handle == self.handle,
    {
        self.handle
    }

    /// Return captured class tokens.
    pub fn class_tokens(&self) -> (tokens: &[String])
        ensures
            tokens@ == self.class_tokens@,
    {
        self.class_tokens.as_slice()
    }

    /// The queries that this element's keys give rise to: on the universal
    /// map where asked for, then on its type, its state unless that is empty,
    /// its attributes, its classes, its id and its custom states.
    pub open spec fn queries(
        &self,
        sibling_traversal: Option<LightmountRetainedStyleSiblingTraversal<Root>>,
        include_universal: bool,
    ) -> Seq<RetainedQueryView<Root>> {
        self.shapes(include_universal).map_values(
            |shape: QueryShape|
                RetainedQueryView { root: self.handle, shape, sibling_traversal },
        )
    }

    /// What the queries on this element's keys ask about, in order.
    pub open spec fn shapes(&self, include_universal: bool) -> Seq<QueryShape> {
        (if include_universal {
            seq![QueryShape::Universal]
        } else {
            seq![]
        }) + seq![QueryShape::Type(self.local_name@)] + (if self.state.spec_is_empty() {
            seq![]
        } else {
            seq![QueryShape::State(self.state)]
        }) + self.attribute_names@.map_values(|name: String| QueryShape::Attribute(name@))
            + self.class_tokens@.map_values(|token: String| QueryShape::Class(token@)) + (
        match self.id {
            Some(id) => seq![QueryShape::Id(id@)],
            None => seq![],
        }) + self.custom_states@.map_values(|name: String| QueryShape::CustomState(name@))
    }
}

/// The views of a list of queries.
pub open spec fn query_views<Root>(
    queries: Seq<LightmountRetainedStyleInvalidationQuery<Root>>,
) -> Seq<RetainedQueryView<Root>> {
    queries.map_values(|query: LightmountRetainedStyleInvalidationQuery<Root>| query@)
}

/// Return a list of the same queries.
pub fn copy_queries<Root: Copy>(
    queries: &Vec<LightmountRetainedStyleInvalidationQuery<Root>>,
) -> (copy: Vec<LightmountRetainedStyleInvalidationQuery<Root>>)
    ensures
        query_views(copy@) == query_views(queries@),
{
    let ghost views = query_views(queries@);
    let mut copy: Vec<LightmountRetainedStyleInvalidationQuery<Root>> = Vec::new();
    let mut index: usize = 0;
    assert(query_views(copy@) =~= views.take(0));
    while index < queries.len()
        invariant
            index <= queries.len(),
            views == query_views(queries@),
            query_views(copy@) == views.take(index as int),
        decreases queries.len() - index,
    {
        let ghost before = query_views(copy@);
        copy.push(queries[index].clone());
        assert(query_views(copy@) =~= before.push(copy@.last()@));
        assert(query_views(copy@) =~= views.take(index + 1));
        index = index + 1;
    }
    assert(views.take(views.len() as int) =~= views);
    copy
}

/// Build retained dependency queries from captured element dependency keys.
pub fn lightmount_retained_queries_for_element_dependency_snapshot<Root: Copy>(
    snapshot: &LightmountElementDependencySnapshot<Root>,
    sibling_traversal: Option<LightmountRetainedStyleSiblingTraversal<Root>>,
) -> (queries: Vec<LightmountRetainedStyleInvalidationQuery<Root>>)
    ensures
        query_views(queries@) == snapshot.queries(sibling_traversal, true),
{
    lightmount_retained_queries_for_element_dependency_snapshot_with_universal(
        snapshot,
        sibling_traversal,
        true,
    )
}

/// Build non-universal retained dependency queries from captured element keys.
pub fn lightmount_retained_non_universal_queries_for_element_dependency_snapshot<Root: Copy>(
    snapshot: &LightmountElementDependencySnapshot<Root>,
    sibling_traversal: Option<LightmountRetainedStyleSiblingTraversal<Root>>,
) -> (queries: Vec<LightmountRetainedStyleInvalidationQuery<Root>>)
    ensures
        query_views(queries@) == snapshot.queries(sibling_traversal, false),
{
    lightmount_retained_queries_for_element_dependency_snapshot_with_universal(
        snapshot,
        sibling_traversal,
        false,
    )
}

/// Build retained dependency queries, with or without the universal one.
pub fn lightmount_retained_queries_for_element_dependency_snapshot_with_universal<Root: Copy>(
    snapshot: &LightmountElementDependencySnapshot<Root>,
    sibling_traversal: Option<LightmountRetainedStyleSiblingTraversal<Root>>,
    include_universal: bool,
) -> (queries: Vec<LightmountRetainedStyleInvalidationQuery<Root>>)
    ensures
        query_views(queries@) == snapshot.queries(sibling_traversal, include_universal),
{
    let mut queries: Vec<LightmountRetainedStyleInvalidationQuery<Root>> = Vec::new();
    let ghost with = |shape: QueryShape|
        RetainedQueryView { root: snapshot.handle, shape, sibling_traversal };
    let ghost mut shapes: Seq<QueryShape> = seq![];
    if include_universal {
        queries.push(
            LightmountRetainedStyleInvalidationQuery::universal(
                snapshot.handle,
            ).with_sibling_traversal(sibling_traversal),
        );
        proof {
            shapes = shapes.push(QueryShape::Universal);
        }
    }
    queries.push(
        LightmountRetainedStyleInvalidationQuery::element_type(
            snapshot.handle,
            snapshot.local_name.clone(),
        ).with_sibling_traversal(sibling_traversal),
    );
    proof {
        shapes = shapes.push(QueryShape::Type(snapshot.local_name@));
    }
    if !snapshot.state.is_empty() {
        queries.push(
            LightmountRetainedStyleInvalidationQuery::state(
                snapshot.handle,
                snapshot.state,
            ).with_sibling_traversal(sibling_traversal),
        );
        proof {
            shapes = shapes.push(QueryShape::State(snapshot.state));
        }
    }
    assert(query_views(queries@) =~= shapes.map_values(with));
    let ghost names = snapshot.attribute_names@.map_values(
        |name: String| QueryShape::Attribute(name@),
    );
    let mut index: usize = 0;
    assert(shapes + names.take(0) =~= shapes);
    while index < snapshot.attribute_names.len()
        invariant
            index <= snapshot.attribute_names.len(),
            with == (|shape: QueryShape|
                RetainedQueryView { root: snapshot.handle, shape, sibling_traversal }),
            names == snapshot.attribute_names@.map_values(
                |name: String| QueryShape::Attribute(name@),
            ),
            query_views(queries@) == (shapes + names.take(index as int)).map_values(with),
        decreases snapshot.attribute_names.len() - index,
    {
        let ghost before = query_views(queries@);
        queries.push(
            LightmountRetainedStyleInvalidationQuery::attribute(
                snapshot.handle,
                snapshot.attribute_names[index].clone(),
            ).with_sibling_traversal(sibling_traversal),
        );
        proof {
            assert(query_views(queries@) =~= before.push(queries@.last()@));
            assert(shapes + names.take(index + 1) =~= (shapes + names.take(index as int)).push(
                names[index as int],
            ));
            assert((shapes + names.take(index + 1)).map_values(with) =~= before.push(
                with(names[index as int]),
            ));
        }
        index = index + 1;
    }
    assert(names.take(names.len() as int) =~= names);
    proof {
        shapes = shapes + names;
    }
    let ghost tokens = snapshot.class_tokens@.map_values(|token: String| QueryShape::Class(token@));
    let mut index: usize = 0;
    assert(shapes + tokens.take(0) =~= shapes);
    while index < snapshot.class_tokens.len()
        invariant
            index <= snapshot.class_tokens.len(),
            with == (|shape: QueryShape|
                RetainedQueryView { root: snapshot.handle, shape, sibling_traversal }),
            tokens == snapshot.class_tokens@.map_values(|token: String| QueryShape::Class(token@)),
            query_views(queries@) == (shapes + tokens.take(index as int)).map_values(with),
        decreases snapshot.class_tokens.len() - index,
    {
        let ghost before = query_views(queries@);
        queries.push(
            LightmountRetainedStyleInvalidationQuery::class(
                snapshot.handle,
                snapshot.class_tokens[index].clone(),
            ).with_sibling_traversal(sibling_traversal),
        );
        proof {
            assert(query_views(queries@) =~= before.push(queries@.last()@));
            assert(shapes + tokens.take(index + 1) =~= (shapes + tokens.take(index as int)).push(
                tokens[index as int],
            ));
            assert((shapes + tokens.take(index + 1)).map_values(with) =~= before.push(
                with(tokens[index as int]),
            ));
        }
        index = index + 1;
    }
    assert(tokens.take(tokens.len() as int) =~= tokens);
    proof {
        shapes = shapes + tokens;
    }
    if let Some(id) = &snapshot.id {
        let ghost before = query_views(queries@);
        queries.push(
            LightmountRetainedStyleInvalidationQuery::id(
                snapshot.handle,
                id.clone(),
            ).with_sibling_traversal(sibling_traversal),
        );
        proof {
            assert(query_views(queries@) =~= before.push(queries@.last()@));
            assert(shapes.push(QueryShape::Id(id@)).map_values(with) =~= before.push(
                with(QueryShape::Id(id@)),
            ));
            shapes = shapes.push(QueryShape::Id(id@));
        }
    }
    let ghost states = snapshot.custom_states@.map_values(
        |name: String| QueryShape::CustomState(name@),
    );
    let mut index: usize = 0;
    assert(shapes + states.take(0) =~= shapes);
    while index < snapshot.custom_states.len()
        invariant
            index <= snapshot.custom_states.len(),
            with == (|shape: QueryShape|
                RetainedQueryView { root: snapshot.handle, shape, sibling_traversal }),
            states == snapshot.custom_states@.map_values(
                |name: String| QueryShape::CustomState(name@),
            ),
            query_views(queries@) == (shapes + states.take(index as int)).map_values(with),
        decreases snapshot.custom_states.len() - index,
    {
        let ghost before = query_views(queries@);
        queries.push(
            LightmountRetainedStyleInvalidationQuery::custom_state(
                snapshot.handle,
                snapshot.custom_states[index].clone(),
            ).with_sibling_traversal(sibling_traversal),
        );
        proof {
            assert(query_views(queries@) =~= before.push(queries@.last()@));
            assert(shapes + states.take(index + 1) =~= (shapes + states.take(index as int)).push(
                states[index as int],
            ));
            assert((shapes + states.take(index + 1)).map_values(with) =~= before.push(
                with(states[index as int]),
            ));
        }
        index = index + 1;
    }
    assert(states.take(states.len() as int) =~= states);
    assert(shapes + states =~= snapshot.shapes(include_universal));
    queries
}

/// Borrowed child-list mutation facts used to derive retained dependency
/// fallback context for a retained query.
#[derive(Copy, Debug, PartialEq, Eq)]
pub struct LightmountRetainedStyleChildListMutationContext<'a, Root> {
    /// The parent whose child list changed.
    pub parent: Root,
    /// The added nodes.
    pub added_nodes: &'a [Root],
    /// The removed nodes.
    pub removed_nodes: &'a [Root],
    /// Snapshots of the removed elements.
    pub removed_element_snapshots: &'a [LightmountElementDependencySnapshot<Root>],
    /// The sibling before the changed range.
    pub previous_sibling: Option<Root>,
    /// The sibling after the changed range.
    pub next_sibling: Option<Root>,
}

impl<'a, Root: Copy> Clone for LightmountRetainedStyleChildListMutationContext<'a, Root> {
    fn clone(&self) -> (copy: Self)
        ensures
            copy == *self,
    {
        *self
    }
}

/// The first value where there is one, else the second.
pub open spec fn first_of<T>(first: Option<T>, second: Option<T>) -> Option<T> {
    if first is Some {
        first
    } else {
        second
    }
}

impl<'a, Root: Keyed> LightmountRetainedStyleChildListMutationContext<'a, Root> {
    /// Create child-list mutation context from runtime-captured mutation facts.
    pub fn new(
        parent: Root,
        added_nodes: &'a [Root],
        removed_nodes: &'a [Root],
        removed_element_snapshots: &'a [LightmountElementDependencySnapshot<Root>],
        previous_sibling: Option<Root>,
        next_sibling: Option<Root>,
    ) -> (context: Self)
        ensures
            context == (LightmountRetainedStyleChildListMutationContext {
                parent,
                added_nodes,
                removed_nodes,
                removed_element_snapshots,
                previous_sibling,
                next_sibling,
            }),
    {
        Self {
            parent,
            added_nodes,
            removed_nodes,
            removed_element_snapshots,
            previous_sibling,
            next_sibling,
        }
    }

    /// Whether an element takes part in this mutation.
    pub open spec fn involves(&self, root: Root) -> bool {
        ||| self.parent == root
        ||| self.added_nodes@.contains(root)
        ||| self.removed_nodes@.contains(root)
        ||| self.previous_sibling == Some(root)
        ||| self.next_sibling == Some(root)
        ||| exists|i: int|
            0 <= i < self.removed_element_snapshots@.len()
                && (#[trigger] self.removed_element_snapshots@[i]).handle == root
    }

    /// Return whether an element takes part in this mutation.
    pub fn contains_query_root(&self, root: Root) -> (contains: bool)
        ensures
            contains == self.involves(root),
    {
        if same(self.parent, root) || slice_contains(self.added_nodes, root) || slice_contains(
            self.removed_nodes,
            root,
        ) {
            return true;
        }
        if let Some(sibling) = self.previous_sibling {
            if same(sibling, root) {
                return true;
            }
        }
        if let Some(sibling) = self.next_sibling {
            if same(sibling, root) {
                return true;
            }
        }
        let snapshots = self.removed_element_snapshots;
        let mut index: usize = 0;
        while index < snapshots.len()
            invariant
                index <= snapshots@.len(),
                snapshots == self.removed_element_snapshots,
                forall|i: int| 0 <= i < index ==> (#[trigger] snapshots@[i]).handle != root,
            decreases snapshots.len() - index,
        {
            if same(snapshots[index].handle(), root) {
                return true;
            }
            index = index + 1;
        }
        false
    }

    /// The fallback context of a query, where its root takes part in this
    /// mutation: the query's own siblings come before those of the mutation.
    pub open spec fn context_of(
        &self,
        query: LightmountRetainedStyleInvalidationQuery<Root>,
    ) -> Option<LightmountDependencyInvalidationFallbackContext<Root>> {
        if self.involves(query.root) {
            Some(
                LightmountDependencyInvalidationFallbackContext {
                    parent: Some(self.parent),
                    previous_sibling: first_of(query.traversal_previous(), self.previous_sibling),
                    next_sibling: first_of(query.traversal_next(), self.next_sibling),
                },
            )
        } else {
            None
        }
    }

    /// Return the retained dependency fallback context for this query when it
    /// belongs to this child-list mutation context.
    pub fn fallback_context_for_query(
        &self,
        query: &LightmountRetainedStyleInvalidationQuery<Root>,
    ) -> (context: Option<LightmountDependencyInvalidationFallbackContext<Root>>)
        ensures
            context == self.context_of(*query),
    {
        if !self.contains_query_root(query.root()) {
            return None;
        }
        let (previous, next) = match query.sibling_traversal() {
            Some(traversal) => (traversal.previous_sibling(), traversal.next_sibling()),
            None => (None, None),
        };
        let previous = if previous.is_some() {
            previous
        } else {
            self.previous_sibling
        };
        let next = if next.is_some() {
            next
        } else {
            self.next_sibling
        };
        Some(
            LightmountDependencyInvalidationFallbackContext::from_mutation_relation(
                Some(self.parent),
                previous,
                next,
            ),
        )
    }
}

/// The fallback context of a query in the first mutation that involves it.
pub open spec fn first_context<'a, Root: Keyed>(
    contexts: Seq<LightmountRetainedStyleChildListMutationContext<'a, Root>>,
    query: LightmountRetainedStyleInvalidationQuery<Root>,
) -> Option<LightmountDependencyInvalidationFallbackContext<Root>>
    decreases contexts.len(),
{
    if contexts.len() == 0 {
        None
    } else {
        first_of(contexts[0].context_of(query), first_context(contexts.drop_first(), query))
    }
}

/// Return the first child-list mutation fallback context matching a retained
/// query.
pub fn lightmount_child_list_dependency_fallback_context_for_query<'a, Root: Keyed>(
    contexts: &[LightmountRetainedStyleChildListMutationContext<'a, Root>],
    query: &LightmountRetainedStyleInvalidationQuery<Root>,
) -> (context: Option<LightmountDependencyInvalidationFallbackContext<Root>>)
    ensures
        context == first_context(contexts@, *query),
{
    let mut index: usize = 0;
    assert(contexts@.skip(0) =~= contexts@);
    while index < contexts.len()
        invariant
            index <= contexts@.len(),
            first_context(contexts@, *query) == first_context(contexts@.skip(index as int), *query),
        decreases contexts.len() - index,
    {
        assert(contexts@.skip(index as int).drop_first() =~= contexts@.skip(index + 1));
        let context = contexts[index].fallback_context_for_query(query);
        if context.is_some() {
            return context;
        }
        index = index + 1;
    }
    None
}

/// A query has a fallback context exactly where some mutation involves its
/// root, and the context then is that of the first such mutation.
pub proof fn lemma_first_context_is_first_involved<'a, Root: Keyed>(
    contexts: Seq<LightmountRetainedStyleChildListMutationContext<'a, Root>>,
    query: LightmountRetainedStyleInvalidationQuery<Root>,
    index: int,
)
    ensures
        first_context(contexts, query) is None <==> forall|i: int|
            0 <= i < contexts.len() ==> !(#[trigger] contexts[i]).involves(query.root),
        0 <= index < contexts.len() && contexts[index].involves(query.root) && (forall|i: int|
            0 <= i < index ==> !(#[trigger] contexts[i]).involves(query.root)) ==> first_context(
            contexts,
            query,
        ) == contexts[index].context_of(query),
    decreases contexts.len(),
{
    if contexts.len() > 0 {
        let rest = contexts.drop_first();
        lemma_first_context_is_first_involved(rest, query, index - 1);
        assert forall|i: int| 0 <= i < rest.len() implies #[trigger] rest[i] == contexts[i + 1] by {}
        if !contexts[0].involves(query.root) {
            assert forall|i: int|
                0 <= i < rest.len() && first_context(contexts, query) is None implies !(
            #[trigger] contexts[i + 1]).involves(query.root) by {
                assert(!rest[i].involves(query.root));
            }
            if first_context(contexts, query) is None {
                assert forall|i: int| 0 <= i < contexts.len() implies !(
                #[trigger] contexts[i]).involves(query.root) by {
                    if i > 0 {
                        assert(!rest[i - 1].involves(query.root));
                    }
                }
            }
        }
    }
}

/// Source-local invalidation request for one retained query, including
/// mutation context and source dependency gates.
#[derive(Copy, Debug, PartialEq, Eq)]
pub struct LightmountSourceDependencyInvalidationRequest<'a, Root> {
    /// The retained query.
    pub query: &'a LightmountRetainedStyleInvalidationQuery<Root>,
    /// The mutation-time fallback context.
    pub context: Option<LightmountDependencyInvalidationFallbackContext<Root>>,
    /// The gates of the request.
    pub requirement: LightmountSourceDependencyRequestRequirement,
}

impl<'a, Root: Copy> Clone for LightmountSourceDependencyInvalidationRequest<'a, Root> {
    fn clone(&self) -> (copy: Self)
        ensures
            copy == *self,
    {
        *self
    }
}

impl<'a, Root: Copy> LightmountSourceDependencyInvalidationRequest<'a, Root> {
    /// Create a source dependency invalidation request.
    pub fn new(
        query: &'a LightmountRetainedStyleInvalidationQuery<Root>,
        context: Option<LightmountDependencyInvalidationFallbackContext<Root>>,
        requirement: LightmountSourceDependencyRequestRequirement,
    ) -> (request: Self)
        ensures
            request == (LightmountSourceDependencyInvalidationRequest {
                query,
                context,
                requirement,
            }),
    {
        Self { query, context, requirement }
    }

    /// Return the retained query for this request.
    pub fn query(&self) -> (query: &'a LightmountRetainedStyleInvalidationQuery<Root>)
        ensures
            *query == *self.query,
    {
        self.query
    }

    /// Return the optional mutation-time fallback context.
    pub fn context(&self) -> (context: Option<LightmountDependencyInvalidationFallbackContext<Root>>)
        ensures
            context == self.context,
    {
        self.context
    }

    /// Return whether this request requires child-list structural dependencies
    /// in the source.
    pub fn requires_child_list_structural_dependency(&self) -> (required: bool)
        ensures
            required == self.requirement.requires_child_list_structural_dependency,
    {
        self.requirement.requires_child_list_structural_dependency()
    }

    /// Return whether this request requires direct previous-sibling relative
    /// dependencies in the source.
    pub fn requires_relative_previous_sibling_dependency(&self) -> (required: bool)
        ensures
            required == self.requirement.requires_relative_previous_sibling_dependency,
    {
        self.requirement.requires_relative_previous_sibling_dependency()
    }
}

} // verus!
