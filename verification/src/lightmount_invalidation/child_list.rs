//! Retained queries and cleanup roots of child-list changes.

use vstd::prelude::*;

use super::lists::copy_slice;
use super::ordered_set::{Keyed, OrderedSet};
use super::query::{LightmountRetainedStyleInvalidationQuery, RetainedQueryView};
use super::query_sets::RetainedQueryRows;
use super::request::LightmountSourceDependencyRequestRequirement;

verus! {

/// One child-list retained invalidation query and whether it should only run
/// against sources with specific child-list dependency gates.
#[derive(Debug, PartialEq, Eq)]
pub struct LightmountRetainedStyleChildListInvalidationQuery<Root> {
    /// The query.
    pub query: LightmountRetainedStyleInvalidationQuery<Root>,
    /// Its gates.
    pub requirement: LightmountSourceDependencyRequestRequirement,
}

impl<Root> LightmountRetainedStyleChildListInvalidationQuery<Root> {
    /// Create one child-list retained invalidation query row.
    pub fn new(
        query: LightmountRetainedStyleInvalidationQuery<Root>,
        requirement: LightmountSourceDependencyRequestRequirement,
    ) -> (row: Self)
        ensures
            row == (LightmountRetainedStyleChildListInvalidationQuery { query, requirement }),
    {
        Self { query, requirement }
    }

    /// Consume this row into query and requirement parts.
    pub fn into_query_and_requirement(self) -> (parts: (
        LightmountRetainedStyleInvalidationQuery<Root>,
        LightmountSourceDependencyRequestRequirement,
    ))
        ensures
            parts == (self.query, self.requirement),
    {
        (self.query, self.requirement)
    }

    /// The content of this row.
    pub open spec fn parts(&self) -> (
        RetainedQueryView<Root>,
        LightmountSourceDependencyRequestRequirement,
    ) {
        (self.query@, self.requirement)
    }
}

impl<Root: Copy> Clone for LightmountRetainedStyleChildListInvalidationQuery<Root> {
    fn clone(&self) -> (row: Self)
        ensures
            row.parts() == self.parts(),
    {
        Self { query: self.query.clone(), requirement: self.requirement }
    }
}

/// The content of a list of rows.
pub open spec fn row_parts<Root>(
    rows: Seq<LightmountRetainedStyleChildListInvalidationQuery<Root>>,
) -> Seq<(RetainedQueryView<Root>, LightmountSourceDependencyRequestRequirement)> {
    rows.map_values(|row: LightmountRetainedStyleChildListInvalidationQuery<Root>| row.parts())
}

/// Retained invalidation queries and base cleanup roots for child-list changes.
#[derive(Debug, PartialEq, Eq)]
pub struct LightmountRetainedStyleChildListInvalidationQueries<Root> {
    /// The queries.
    pub queries: Vec<LightmountRetainedStyleChildListInvalidationQuery<Root>>,
    /// Base structural-boundary cleanup roots.
    pub base_roots: Vec<Root>,
    /// Empty-target fallback roots.
    pub empty_target_fallback_roots: Vec<Root>,
    /// Direct previous-sibling relative cleanup roots.
    pub relative_previous_sibling_cleanup_roots: Vec<Root>,
}

impl<Root: Copy> Clone for LightmountRetainedStyleChildListInvalidationQueries<Root> {
    fn clone(&self) -> (batch: Self)
        ensures
            row_parts(batch.queries@) == row_parts(self.queries@),
            batch.base_roots@ == self.base_roots@,
            batch.empty_target_fallback_roots@ == self.empty_target_fallback_roots@,
            batch.relative_previous_sibling_cleanup_roots@
                == self.relative_previous_sibling_cleanup_roots@,
    {
        let ghost parts = row_parts(self.queries@);
        let mut queries: Vec<LightmountRetainedStyleChildListInvalidationQuery<Root>> = Vec::new();
        let mut index: usize = 0;
        assert(row_parts(queries@) =~= parts.take(0));
        while index < self.queries.len()
            invariant
                index <= self.queries.len(),
                parts == row_parts(self.queries@),
                row_parts(queries@) == parts.take(index as int),
            decreases self.queries.len() - index,
        {
            let ghost before = row_parts(queries@);
            queries.push(self.queries[index].clone());
            assert(row_parts(queries@) =~= before.push(queries@.last().parts()));
            assert(row_parts(queries@) =~= parts.take(index + 1));
            index = index + 1;
        }
        assert(parts.take(parts.len() as int) =~= parts);
        Self {
            queries,
            base_roots: copy_slice(self.base_roots.as_slice()),
            empty_target_fallback_roots: copy_slice(self.empty_target_fallback_roots.as_slice()),
            relative_previous_sibling_cleanup_roots: copy_slice(
                self.relative_previous_sibling_cleanup_roots.as_slice(),
            ),
        }
    }
}

/// A call that a batch makes of its sink.
pub enum ChildListCall<Root> {
    /// One query and its requirement.
    Query(
        LightmountRetainedStyleInvalidationQuery<Root>,
        LightmountSourceDependencyRequestRequirement,
    ),
    /// Base structural-boundary cleanup roots.
    BaseRoots(Seq<Root>),
    /// Empty-target fallback roots.
    EmptyTargetFallbackRoots(Seq<Root>),
    /// Direct previous-sibling relative cleanup roots.
    RelativePreviousSiblingCleanupRoots(Seq<Root>),
}

/// Sink used to drain child-list retained invalidation query batches into a
/// runtime-owned pending plan.
pub trait LightmountRetainedStyleChildListInvalidationQueriesSink<Root> {
    /// The calls received so far.
    open spec fn child_list_calls(&self) -> Seq<ChildListCall<Root>> {
        Seq::empty()
    }

    /// Record one retained query and its source dependency requirement.
    fn record_child_list_retained_query(
        &mut self,
        query: LightmountRetainedStyleInvalidationQuery<Root>,
        requirement: LightmountSourceDependencyRequestRequirement,
    )
        ensures
            final(self).child_list_calls() == old(self).child_list_calls().push(
                ChildListCall::Query(query, requirement),
            ),
    ;

    /// Extend base structural-boundary cleanup roots.
    fn extend_child_list_base_roots(&mut self, roots: Vec<Root>)
        ensures
            final(self).child_list_calls() == old(self).child_list_calls().push(
                ChildListCall::BaseRoots(roots@),
            ),
    ;

    /// Extend empty-target fallback roots.
    fn extend_child_list_empty_target_fallback_roots(&mut self, roots: Vec<Root>)
        ensures
            final(self).child_list_calls() == old(self).child_list_calls().push(
                ChildListCall::EmptyTargetFallbackRoots(roots@),
            ),
    ;

    /// Extend direct previous-sibling relative cleanup roots.
    fn extend_child_list_relative_previous_sibling_cleanup_roots(&mut self, roots: Vec<Root>)
        ensures
            final(self).child_list_calls() == old(self).child_list_calls().push(
                ChildListCall::RelativePreviousSiblingCleanupRoots(roots@),
            ),
    ;
}

impl<Root> LightmountRetainedStyleChildListInvalidationQueries<Root> {
    /// Create a child-list retained invalidation batch.
    pub fn new(
        queries: Vec<LightmountRetainedStyleChildListInvalidationQuery<Root>>,
        base_roots: Vec<Root>,
        empty_target_fallback_roots: Vec<Root>,
        relative_previous_sibling_cleanup_roots: Vec<Root>,
    ) -> (batch: Self)
        ensures
            batch == (LightmountRetainedStyleChildListInvalidationQueries {
                queries,
                base_roots,
                empty_target_fallback_roots,
                relative_previous_sibling_cleanup_roots,
            }),
    {
        Self {
            queries,
            base_roots,
            empty_target_fallback_roots,
            relative_previous_sibling_cleanup_roots,
        }
    }

    /// The calls that this batch makes of a sink: one for each query, then one
    /// for each group of roots.
    pub open spec fn calls(&self) -> Seq<ChildListCall<Root>> {
        self.queries@.map_values(
            |row: LightmountRetainedStyleChildListInvalidationQuery<Root>|
                ChildListCall::Query(row.query, row.requirement),
        ) + seq![
            ChildListCall::BaseRoots(self.base_roots@),
            ChildListCall::EmptyTargetFallbackRoots(self.empty_target_fallback_roots@),
            ChildListCall::RelativePreviousSiblingCleanupRoots(
                self.relative_previous_sibling_cleanup_roots@,
            ),
        ]
    }

    /// Consume this batch into a runtime-owned pending plan sink.
    pub fn drain_into<Sink: LightmountRetainedStyleChildListInvalidationQueriesSink<Root>>(
        self,
        target: &mut Sink,
    )
        ensures
            final(target).child_list_calls() == old(target).child_list_calls() + self.calls(),
    {
        let ghost before = target.child_list_calls();
        let ghost rows = self.queries@;
        let ghost row_calls = rows.map_values(
            |row: LightmountRetainedStyleChildListInvalidationQuery<Root>|
                ChildListCall::Query(row.query, row.requirement),
        );
        assert(before + row_calls.take(0) =~= before);
        for row in iter: self.queries
            invariant
                iter.seq() == rows,
                row_calls == rows.map_values(
                    |row: LightmountRetainedStyleChildListInvalidationQuery<Root>|
                        ChildListCall::Query(row.query, row.requirement),
                ),
                target.child_list_calls() == before + row_calls.take(iter.index()),
        {
            let ghost index = iter.index();
            let (query, requirement) = row.into_query_and_requirement();
            target.record_child_list_retained_query(query, requirement);
            assert(before + row_calls.take(index + 1) =~= (before + row_calls.take(index)).push(
                row_calls[index],
            ));
        }
        assert(row_calls.take(row_calls.len() as int) =~= row_calls);
        target.extend_child_list_base_roots(self.base_roots);
        target.extend_child_list_empty_target_fallback_roots(self.empty_target_fallback_roots);
        target.extend_child_list_relative_previous_sibling_cleanup_roots(
            self.relative_previous_sibling_cleanup_roots,
        );
        assert(target.child_list_calls() =~= before + self.calls());
    }
}

/// Builder for retained invalidation queries and cleanup roots produced from
/// child-list mutation facts.
#[derive(Debug)]
pub struct LightmountRetainedStyleChildListInvalidationQueryBuilder<Root: Keyed> {
    /// The queries and their requirements.
    pub queries: RetainedQueryRows<Root>,
    /// Base structural-boundary cleanup roots.
    pub base_roots: OrderedSet<Root>,
    /// Empty-target fallback roots.
    pub empty_target_fallback_roots: OrderedSet<Root>,
    /// Direct previous-sibling relative cleanup roots.
    pub relative_previous_sibling_cleanup_roots: OrderedSet<Root>,
}

/// The content of a child-list query builder.
pub struct ChildListBuilderView<Root> {
    /// The queries and their requirements.
    pub rows: Seq<(RetainedQueryView<Root>, LightmountSourceDependencyRequestRequirement)>,
    /// Base structural-boundary cleanup roots.
    pub base_roots: Seq<Root>,
    /// Empty-target fallback roots.
    pub empty_target_fallback_roots: Seq<Root>,
    /// Direct previous-sibling relative cleanup roots.
    pub relative_previous_sibling_cleanup_roots: Seq<Root>,
}

impl<Root: Keyed> View for LightmountRetainedStyleChildListInvalidationQueryBuilder<Root> {
    type V = ChildListBuilderView<Root>;

    open spec fn view(&self) -> ChildListBuilderView<Root> {
        ChildListBuilderView {
            rows: self.queries@,
            base_roots: self.base_roots@,
            empty_target_fallback_roots: self.empty_target_fallback_roots@,
            relative_previous_sibling_cleanup_roots: self.relative_previous_sibling_cleanup_roots@,
        }
    }
}

impl<Root> ChildListBuilderView<Root> {
    /// The builder without content.
    pub open spec fn none() -> Self {
        ChildListBuilderView {
            rows: Seq::empty(),
            base_roots: Seq::empty(),
            empty_target_fallback_roots: Seq::empty(),
            relative_previous_sibling_cleanup_roots: Seq::empty(),
        }
    }

    /// This builder with a base cleanup root.
    pub open spec fn with_base_root(self, root: Root) -> Self {
        ChildListBuilderView {
            base_roots: super::ordered_set::push_unique(self.base_roots, root),
            ..self
        }
    }

    /// This builder with an empty-target fallback root.
    pub open spec fn with_empty_target_root(self, root: Root) -> Self {
        ChildListBuilderView {
            empty_target_fallback_roots: super::ordered_set::push_unique(
                self.empty_target_fallback_roots,
                root,
            ),
            ..self
        }
    }

    /// This builder with a relative previous-sibling cleanup root.
    pub open spec fn with_cleanup_root(self, root: Root) -> Self {
        ChildListBuilderView {
            relative_previous_sibling_cleanup_roots: super::ordered_set::push_unique(
                self.relative_previous_sibling_cleanup_roots,
                root,
            ),
            ..self
        }
    }
}

impl<Root: Keyed> Clone for LightmountRetainedStyleChildListInvalidationQueryBuilder<Root> {
    fn clone(&self) -> (builder: Self)
        ensures
            builder@ == self@,
    {
        Self {
            queries: self.queries.clone(),
            base_roots: self.base_roots.clone(),
            empty_target_fallback_roots: self.empty_target_fallback_roots.clone(),
            relative_previous_sibling_cleanup_roots:
                self.relative_previous_sibling_cleanup_roots.clone(),
        }
    }
}

impl<Root: Keyed> Default for LightmountRetainedStyleChildListInvalidationQueryBuilder<Root> {
    fn default() -> (builder: Self)
        ensures
            builder@ == ChildListBuilderView::<Root>::none(),
    {
        let builder = Self {
            queries: RetainedQueryRows::new(),
            base_roots: OrderedSet::new(),
            empty_target_fallback_roots: OrderedSet::new(),
            relative_previous_sibling_cleanup_roots: OrderedSet::new(),
        };
        assert(builder@.rows =~= Seq::empty());
        builder
    }
}

impl<Root: Keyed> LightmountRetainedStyleChildListInvalidationQueryBuilder<Root> {
    /// Create an empty child-list retained invalidation query builder.
    pub fn new() -> (builder: Self)
        ensures
            builder@ == ChildListBuilderView::<Root>::none(),
    {
        Self::default()
    }

    /// Insert retained queries, merging the source dependency requirement for
    /// duplicate rows.
    pub fn insert_queries(
        &mut self,
        queries: Vec<LightmountRetainedStyleInvalidationQuery<Root>>,
        requirement: LightmountSourceDependencyRequestRequirement,
    )
        ensures
            final(self)@ == (ChildListBuilderView {
                rows: super::query_sets::with_queries(
                    old(self)@.rows,
                    super::request::query_views(queries@),
                    requirement,
                ),
                ..old(self)@
            }),
    {
        let ghost before = self@;
        let ghost given = queries@;
        let ghost views = super::request::query_views(queries@);
        for query in iter: queries
            invariant
                iter.seq() == given,
                views == super::request::query_views(given),
                self@ == (ChildListBuilderView {
                    rows: super::query_sets::with_queries(
                        before.rows,
                        views.take(iter.index()),
                        requirement,
                    ),
                    ..before
                }),
        {
            let ghost index = iter.index();
            self.queries.insert(query, requirement);
            proof {
                let next = views.take(index + 1);
                assert(next.drop_last() =~= views.take(index));
                assert(next.last() == views[index]);
            }
        }
        assert(views.take(views.len() as int) =~= views);
    }

    /// Insert a base cleanup root.
    pub fn insert_base_root(&mut self, root: Root)
        ensures
            final(self)@ == old(self)@.with_base_root(root),
    {
        self.base_roots.insert(root);
    }

    /// Insert a fallback root for empty-target structural invalidation.
    pub fn insert_empty_target_fallback_root(&mut self, root: Root)
        ensures
            final(self)@ == old(self)@.with_empty_target_root(root),
    {
        self.empty_target_fallback_roots.insert(root);
    }

    /// Insert a cleanup root for direct previous-sibling relative dependency
    /// handling.
    pub fn insert_relative_previous_sibling_cleanup_root(&mut self, root: Root)
        ensures
            final(self)@ == old(self)@.with_cleanup_root(root),
    {
        self.relative_previous_sibling_cleanup_roots.insert(root);
    }

    /// Consume the builder into a typed child-list invalidation batch. There is
    /// none without queries.
    pub fn into_queries(self) -> (batch: Option<
        LightmountRetainedStyleChildListInvalidationQueries<Root>,
    >)
        ensures
            batch is Some <==> self@.rows.len() > 0,
            batch matches Some(batch) ==> {
                &&& row_parts(batch.queries@) == self@.rows
                &&& super::query_sets::rows_have_distinct_queries(row_parts(batch.queries@))
                &&& batch.base_roots@ == self@.base_roots
                &&& batch.empty_target_fallback_roots@ == self@.empty_target_fallback_roots
                &&& batch.relative_previous_sibling_cleanup_roots@
                    == self@.relative_previous_sibling_cleanup_roots
                &&& batch.base_roots@.no_duplicates()
                &&& batch.empty_target_fallback_roots@.no_duplicates()
                &&& batch.relative_previous_sibling_cleanup_roots@.no_duplicates()
            },
    {
        let count: usize = self.queries.len();
        if count == 0 {
            return None;
        }
        let mut rows: Vec<LightmountRetainedStyleChildListInvalidationQuery<Root>> = Vec::new();
        let mut index: usize = 0;
        while index < count
            invariant
                index <= count == self.queries@.len(),
                row_parts(rows@) == self.queries@.take(index as int),
            decreases count - index,
        {
            let ghost prior = rows@;
            if let Some((query, requirement)) = self.queries.get_index(index) {
                rows.push(
                    LightmountRetainedStyleChildListInvalidationQuery::new(query, requirement),
                );
                assert(row_parts(rows@) =~= row_parts(prior).push(self.queries@[index as int]));
            }
            assert(self.queries@.take(index + 1) =~= self.queries@.take(index as int).push(
                self.queries@[index as int],
            ));
            index = index + 1;
        }
        assert(self.queries@.take(count as int) =~= self.queries@);
        Some(
            LightmountRetainedStyleChildListInvalidationQueries::new(
                rows,
                self.base_roots.to_vec(),
                self.empty_target_fallback_roots.to_vec(),
                self.relative_previous_sibling_cleanup_roots.to_vec(),
            ),
        )
    }
}

/// The child-list sibling boundary whose retained cleanup buckets are being
/// materialized.
#[derive(Clone, Copy, Debug, PartialEq, Eq, Structural)]
pub enum LightmountChildListSiblingBoundaryKind {
    /// The previous element sibling around an inserted range.
    AddedPreviousSibling {
        /// Whether the inserted range was appended at the end of the parent.
        inserted_at_end: bool,
    },
    /// The next element sibling around an inserted range.
    AddedNextSibling,
    /// The previous element sibling around a removed range.
    RemovedPreviousSibling,
    /// The next element sibling around a removed range.
    RemovedNextSibling,
    /// The sibling before the previous boundary around a removed range.
    RemovedEarlierSibling,
}

/// Retained cleanup bucket decisions for one child-list sibling boundary.
#[derive(Debug, PartialEq, Eq)]
pub struct LightmountChildListSiblingBoundaryPlan<Root> {
    /// The sibling.
    pub root: Root,
    /// It contributes to base cleanup roots.
    pub include_base_root: bool,
    /// It contributes to empty-target fallback roots.
    pub include_empty_target_fallback_root: bool,
    /// It contributes to relative previous-sibling cleanup roots.
    pub include_relative_previous_sibling_cleanup_root: bool,
}

impl<Root: Copy> Clone for LightmountChildListSiblingBoundaryPlan<Root> {
    fn clone(&self) -> (plan: Self)
        ensures
            plan == *self,
    {
        Self {
            root: self.root,
            include_base_root: self.include_base_root,
            include_empty_target_fallback_root: self.include_empty_target_fallback_root,
            include_relative_previous_sibling_cleanup_root:
                self.include_relative_previous_sibling_cleanup_root,
        }
    }
}

impl<Root> LightmountChildListSiblingBoundaryPlan<Root> {
    /// Create a plan.
    pub fn new(
        root: Root,
        include_base_root: bool,
        include_empty_target_fallback_root: bool,
        include_relative_previous_sibling_cleanup_root: bool,
    ) -> (plan: Self)
        ensures
            plan == (LightmountChildListSiblingBoundaryPlan {
                root,
                include_base_root,
                include_empty_target_fallback_root,
                include_relative_previous_sibling_cleanup_root,
            }),
    {
        Self {
            root,
            include_base_root,
            include_empty_target_fallback_root,
            include_relative_previous_sibling_cleanup_root,
        }
    }

    /// Return the sibling boundary root.
    pub fn root(&self) -> (root: &Root)
        ensures
            *root == self.root,
    {
        &self.root
    }

    /// Return whether this boundary contributes to base cleanup roots.
    pub fn includes_base_root(&self) -> (includes: bool)
        ensures
            includes == self.include_base_root,
    {
        self.include_base_root
    }

    /// Return whether this boundary contributes to empty-target fallback roots.
    pub fn includes_empty_target_fallback_root(&self) -> (includes: bool)
        ensures
            includes == self.include_empty_target_fallback_root,
    {
        self.include_empty_target_fallback_root
    }

    /// Return whether this boundary contributes to relative previous-sibling
    /// cleanup roots.
    pub fn includes_relative_previous_sibling_cleanup_root(&self) -> (includes: bool)
        ensures
            includes == self.include_relative_previous_sibling_cleanup_root,
    {
        self.include_relative_previous_sibling_cleanup_root
    }

    /// A builder with this plan applied.
    pub open spec fn applied(self, builder: ChildListBuilderView<Root>) -> ChildListBuilderView<
        Root,
    > {
        let builder = if self.include_base_root {
            builder.with_base_root(self.root)
        } else {
            builder
        };
        let builder = if self.include_empty_target_fallback_root {
            builder.with_empty_target_root(self.root)
        } else {
            builder
        };
        if self.include_relative_previous_sibling_cleanup_root {
            builder.with_cleanup_root(self.root)
        } else {
            builder
        }
    }
}

impl<Root: Keyed> LightmountChildListSiblingBoundaryPlan<Root> {
    /// Apply this plan to a child-list retained query builder.
    pub fn apply_to_builder(
        &self,
        builder: &mut LightmountRetainedStyleChildListInvalidationQueryBuilder<Root>,
    )
        ensures
            final(builder)@ == self.applied(old(builder)@),
    {
        if self.include_base_root {
            builder.insert_base_root(self.root);
        }
        if self.include_empty_target_fallback_root {
            builder.insert_empty_target_fallback_root(self.root);
        }
        if self.include_relative_previous_sibling_cleanup_root {
            builder.insert_relative_previous_sibling_cleanup_root(self.root);
        }
    }
}

impl LightmountChildListSiblingBoundaryKind {
    /// Whether a boundary of this kind is a base cleanup root: all are but an
    /// earlier sibling, and a previous sibling only where the range was
    /// inserted at the end.
    pub open spec fn is_base(self) -> bool {
        match self {
            Self::AddedPreviousSibling { inserted_at_end } => inserted_at_end,
            Self::RemovedEarlierSibling => false,
            _ => true,
        }
    }

    /// Whether a boundary of this kind is an empty-target fallback root: all
    /// are that touch the changed range.
    pub open spec fn is_empty_target(self) -> bool {
        !(self is RemovedEarlierSibling)
    }

    /// Whether a boundary of this kind is a relative cleanup root: all are
    /// that come before the changed range.
    pub open spec fn is_before_range(self) -> bool {
        !(self is AddedNextSibling || self is RemovedNextSibling)
    }
}

/// The plan of a sibling boundary: there is one where there is a sibling that
/// the mutation batch itself did not change.
pub open spec fn boundary_plan<Root>(
    root: Option<Root>,
    sibling_is_changed_by_mutation_batch: bool,
    kind: LightmountChildListSiblingBoundaryKind,
) -> Option<LightmountChildListSiblingBoundaryPlan<Root>> {
    match root {
        Some(root) => if sibling_is_changed_by_mutation_batch {
            None
        } else {
            Some(
                LightmountChildListSiblingBoundaryPlan {
                    root,
                    include_base_root: kind.is_base(),
                    include_empty_target_fallback_root: kind.is_empty_target(),
                    include_relative_previous_sibling_cleanup_root: kind.is_before_range(),
                },
            )
        },
        None => None,
    }
}

/// Return the retained cleanup bucket plan for one child-list sibling boundary.
pub fn lightmount_child_list_sibling_boundary_plan<Root>(
    root: Option<Root>,
    sibling_is_changed_by_mutation_batch: bool,
    kind: LightmountChildListSiblingBoundaryKind,
) -> (plan: Option<LightmountChildListSiblingBoundaryPlan<Root>>)
    ensures
        plan == boundary_plan(root, sibling_is_changed_by_mutation_batch, kind),
{
    if sibling_is_changed_by_mutation_batch {
        return None;
    }
    let Some(root) = root else {
        return None;
    };
    let (include_base_root, include_empty_target_fallback_root, include_relative_cleanup_root) =
        match kind {
        LightmountChildListSiblingBoundaryKind::AddedPreviousSibling { inserted_at_end } => {
            (inserted_at_end, true, true)
        },
        LightmountChildListSiblingBoundaryKind::AddedNextSibling => (true, true, false),
        LightmountChildListSiblingBoundaryKind::RemovedPreviousSibling => (true, true, true),
        LightmountChildListSiblingBoundaryKind::RemovedNextSibling => (true, true, false),
        LightmountChildListSiblingBoundaryKind::RemovedEarlierSibling => (false, false, true),
    };
    Some(
        LightmountChildListSiblingBoundaryPlan::new(
            root,
            include_base_root,
            include_empty_target_fallback_root,
            include_relative_cleanup_root,
        ),
    )
}

} // verus!
