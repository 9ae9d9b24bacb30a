//! Results of source-local invalidation queries.

use vstd::prelude::*;

use super::lists::copy_slice;
use super::ordered_set::{Keyed, OrderedSet};
use super::query::{LightmountStyleInvalidationQuery, QueryShape};
use super::reasons::LightmountSourceInvalidationFallbackReason;
use super::retained_kind::{
    LightmountSourceFallbackRootAvailability, LightmountSourceStyleInvalidationSourceResultKind,
};
use super::root_collection::RootCollection;
use super::unique_roots::UniqueRoots;

verus! {

/// The content of a query result.
pub struct QueryResultView<Root> {
    /// The affected roots.
    pub roots: Seq<Root>,
    /// Whether an empty result means that nothing is affected.
    pub exact: bool,
    /// The number of dependencies that matched.
    pub matched: nat,
    /// Why the result may be incomplete.
    pub reasons: Seq<LightmountSourceInvalidationFallbackReason>,
}

impl<Root> QueryResultView<Root> {
    /// Both results: roots and reasons in the order of their first occurrence,
    /// exact where both are.
    pub open spec fn merge(self, other: Self) -> Self {
        QueryResultView {
            roots: super::ordered_set::extend_unique(
                super::ordered_set::extend_unique(Seq::empty(), self.roots),
                other.roots,
            ),
            exact: self.exact && other.exact,
            matched: self.matched + other.matched,
            reasons: super::ordered_set::extend_unique(self.reasons, other.reasons),
        }
    }
}

/// Merging results adds up their roots, reasons and counts, and does not depend
/// on grouping. Merged roots do not repeat.
pub proof fn lemma_query_result_merge<Root>(
    first: QueryResultView<Root>,
    second: QueryResultView<Root>,
    third: QueryResultView<Root>,
)
    ensures
        first.merge(second).merge(third) == first.merge(second.merge(third)),
        first.merge(second).roots.no_duplicates(),
        forall|root: Root| #[trigger]
            first.merge(second).roots.contains(root) <==> first.roots.contains(root)
                || second.roots.contains(root),
{
    let empty = Seq::<Root>::empty();
    let once = super::ordered_set::extend_unique(empty, first.roots);
    let twice = super::ordered_set::extend_unique(once, second.roots);
    super::ordered_set::lemma_extend_unique_no_duplicates(empty, first.roots);
    super::ordered_set::lemma_extend_unique_no_duplicates(once, second.roots);
    super::ordered_set::lemma_extend_unique_disjoint(empty, twice);
    assert(empty + twice =~= twice);
    let other = super::ordered_set::extend_unique(empty, second.roots);
    super::ordered_set::lemma_extend_unique_absorbs(once, other, third.roots);
    super::ordered_set::lemma_extend_unique_absorbs(once, empty, second.roots);
    super::ordered_set::lemma_extend_unique_absorbs(
        first.reasons,
        second.reasons,
        third.reasons,
    );
    assert forall|root: Root| #[trigger]
        first.merge(second).roots.contains(root) <==> first.roots.contains(root)
            || second.roots.contains(root) by {
        super::ordered_set::lemma_extend_unique_contains(empty, first.roots, root);
        super::ordered_set::lemma_extend_unique_contains(once, second.roots, root);
    }
}

/// Result for one source-local retained style invalidation query.
///
/// The DOM adapter supplies concrete roots; exactness, matched dependency
/// counts, fallback reasons, and merge behavior are query semantics.
#[derive(Debug, PartialEq, Eq)]
pub struct LightmountSourceStyleInvalidationQueryResult<Root> {
    /// The affected roots.
    pub affected_roots: Vec<Root>,
    /// Whether an empty result means that nothing is affected.
    pub empty_result_is_exact: bool,
    /// The number of dependencies that matched.
    pub matched_dependency_count: usize,
    /// Why the result may be incomplete.
    pub fallback_reasons: OrderedSet<LightmountSourceInvalidationFallbackReason>,
}

impl<Root: Copy> Clone for LightmountSourceStyleInvalidationQueryResult<Root> {
    fn clone(&self) -> (result: Self)
        ensures
            result@ == self@,
    {
        Self {
            affected_roots: copy_slice(self.affected_roots.as_slice()),
            empty_result_is_exact: self.empty_result_is_exact,
            matched_dependency_count: self.matched_dependency_count,
            fallback_reasons: self.fallback_reasons.clone(),
        }
    }
}

impl<Root> View for LightmountSourceStyleInvalidationQueryResult<Root> {
    type V = QueryResultView<Root>;

    open spec fn view(&self) -> QueryResultView<Root> {
        QueryResultView {
            roots: self.affected_roots@,
            exact: self.empty_result_is_exact,
            matched: self.matched_dependency_count as nat,
            reasons: self.fallback_reasons@,
        }
    }
}

impl<Root> Default for LightmountSourceStyleInvalidationQueryResult<Root> {
    fn default() -> (result: Self)
        ensures
            result@ == (QueryResultView {
                roots: Seq::<Root>::empty(),
                exact: false,
                matched: 0,
                reasons: Seq::empty(),
            }),
    {
        Self {
            affected_roots: Vec::new(),
            empty_result_is_exact: false,
            matched_dependency_count: 0,
            fallback_reasons: OrderedSet::new(),
        }
    }
}

impl<Root> LightmountSourceStyleInvalidationQueryResult<Root> {
    /// Construct an exact empty result for a query whose matched dependencies
    /// have already been accounted for by the dependency plan.
    pub fn exact_empty(matched_dependency_count: usize) -> (result: Self)
        ensures
            result@ == (QueryResultView {
                roots: Seq::<Root>::empty(),
                exact: true,
                matched: matched_dependency_count as nat,
                reasons: Seq::empty(),
            }),
    {
        Self {
            affected_roots: Vec::new(),
            empty_result_is_exact: true,
            matched_dependency_count,
            fallback_reasons: OrderedSet::new(),
        }
    }

    /// Construct a single-query invalidation result from already-classified
    /// parts.
    pub fn from_parts(
        affected_roots: Vec<Root>,
        empty_result_is_exact: bool,
        matched_dependency_count: usize,
        fallback_reasons: OrderedSet<LightmountSourceInvalidationFallbackReason>,
    ) -> (result: Self)
        ensures
            result@ == (QueryResultView {
                roots: affected_roots@,
                exact: empty_result_is_exact,
                matched: matched_dependency_count as nat,
                reasons: fallback_reasons@,
            }),
    {
        Self { affected_roots, empty_result_is_exact, matched_dependency_count, fallback_reasons }
    }

    /// Consume this query result and drain affected roots into a runtime-owned
    /// root collection.
    pub fn drain_affected_roots_into<Target: RootCollection<Root>>(self, target: &mut Target)
        ensures
            final(target).held_roots() == Target::roots_after(
                old(target).held_roots(),
                self@.roots,
            ),
    {
        target.extend_roots(self.affected_roots);
    }
}

impl<Root: Keyed> LightmountSourceStyleInvalidationQueryResult<Root> {
    /// Merge two query results while preserving first-seen root and fallback
    /// reason order.
    pub fn merged_with(self, other: Self) -> (merged: Self)
        requires
            self.matched_dependency_count + other.matched_dependency_count <= usize::MAX,
        ensures
            merged@ == self@.merge(other@),
    {
        let mut affected_roots: OrderedSet<Root> = OrderedSet::new();
        affected_roots.extend_from_slice(self.affected_roots.as_slice());
        affected_roots.extend_from_slice(other.affected_roots.as_slice());
        let mut fallback_reasons = self.fallback_reasons;
        fallback_reasons.extend_from_set(&other.fallback_reasons);
        Self {
            affected_roots: affected_roots.to_vec(),
            empty_result_is_exact: self.empty_result_is_exact && other.empty_result_is_exact,
            matched_dependency_count: self.matched_dependency_count
                + other.matched_dependency_count,
            fallback_reasons,
        }
    }
}

/// Merge two source-local query results while preserving fallback and exactness
/// semantics.
pub fn lightmount_merge_source_style_invalidation_query_results<Root: Keyed>(
    existing: LightmountSourceStyleInvalidationQueryResult<Root>,
    incoming: LightmountSourceStyleInvalidationQueryResult<Root>,
) -> (merged: LightmountSourceStyleInvalidationQueryResult<Root>)
    requires
        existing.matched_dependency_count + incoming.matched_dependency_count <= usize::MAX,
    ensures
        merged@ == existing@.merge(incoming@),
{
    existing.merged_with(incoming)
}

/// Builder for one source-local retained style invalidation query result.
#[derive(Debug, PartialEq, Eq)]
pub struct LightmountSourceStyleInvalidationQueryResultBuilder<Root: Keyed> {
    /// The affected roots.
    pub affected_roots: UniqueRoots<Root>,
    /// Whether an empty result means that nothing is affected.
    pub empty_result_is_exact: bool,
    /// Why the result may be incomplete.
    pub fallback_reasons: OrderedSet<LightmountSourceInvalidationFallbackReason>,
}

/// The content of a query result builder.
pub struct QueryResultBuilderView<Root> {
    /// The affected roots.
    pub roots: Seq<Root>,
    /// Whether an empty result means that nothing is affected.
    pub exact: bool,
    /// Why the result may be incomplete.
    pub reasons: Seq<LightmountSourceInvalidationFallbackReason>,
}

impl<Root> QueryResultBuilderView<Root> {
    /// The builder without content; an empty result is exact until something
    /// says otherwise.
    pub open spec fn none() -> Self {
        QueryResultBuilderView { roots: Seq::empty(), exact: true, reasons: Seq::empty() }
    }

    /// This builder with an affected root.
    pub open spec fn with_root(self, root: Root) -> Self {
        QueryResultBuilderView {
            roots: super::ordered_set::push_unique(self.roots, root),
            ..self
        }
    }

    /// This builder with affected roots.
    pub open spec fn with_roots(self, roots: Seq<Root>) -> Self {
        QueryResultBuilderView {
            roots: super::ordered_set::extend_unique(self.roots, roots),
            ..self
        }
    }

    /// This builder with what a dependency says of an empty result.
    pub open spec fn with_support(self, supported: bool) -> Self {
        QueryResultBuilderView { exact: self.exact && supported, ..self }
    }

    /// This builder with a reason.
    pub open spec fn with_reason(
        self,
        reason: LightmountSourceInvalidationFallbackReason,
    ) -> Self {
        QueryResultBuilderView {
            reasons: super::ordered_set::push_unique(self.reasons, reason),
            ..self
        }
    }

    /// This builder with reasons.
    pub open spec fn with_reasons(
        self,
        reasons: Seq<LightmountSourceInvalidationFallbackReason>,
    ) -> Self {
        QueryResultBuilderView {
            reasons: super::ordered_set::extend_unique(self.reasons, reasons),
            ..self
        }
    }

    /// The result of this builder for a number of matched dependencies.
    pub open spec fn result(self, matched: nat) -> QueryResultView<Root> {
        QueryResultView { roots: self.roots, exact: self.exact, matched, reasons: self.reasons }
    }
}

impl<Root: Keyed> View for LightmountSourceStyleInvalidationQueryResultBuilder<Root> {
    type V = QueryResultBuilderView<Root>;

    open spec fn view(&self) -> QueryResultBuilderView<Root> {
        QueryResultBuilderView {
            roots: self.affected_roots@,
            exact: self.empty_result_is_exact,
            reasons: self.fallback_reasons@,
        }
    }
}

impl<Root: Keyed> Clone for LightmountSourceStyleInvalidationQueryResultBuilder<Root> {
    fn clone(&self) -> (builder: Self)
        ensures
            builder@ == self@,
    {
        Self {
            affected_roots: self.affected_roots.clone(),
            empty_result_is_exact: self.empty_result_is_exact,
            fallback_reasons: self.fallback_reasons.clone(),
        }
    }
}

impl<Root: Keyed> Default for LightmountSourceStyleInvalidationQueryResultBuilder<Root> {
    fn default() -> (builder: Self)
        ensures
            builder@ == QueryResultBuilderView::<Root>::none(),
    {
        Self {
            affected_roots: UniqueRoots::new(),
            empty_result_is_exact: true,
            fallback_reasons: OrderedSet::new(),
        }
    }
}

impl<Root: Keyed> LightmountSourceStyleInvalidationQueryResultBuilder<Root> {
    /// Create an empty query result builder.
    pub fn new() -> (builder: Self)
        ensures
            builder@ == QueryResultBuilderView::<Root>::none(),
    {
        Self::default()
    }

    /// Record an affected root while preserving first-seen order.
    pub fn note_affected_root(&mut self, root: Root)
        ensures
            final(self)@ == old(self)@.with_root(root),
    {
        self.affected_roots.push(root);
    }

    /// Record several affected roots while preserving first-seen order.
    pub fn extend_affected_roots(&mut self, roots: &[Root])
        ensures
            final(self)@ == old(self)@.with_roots(roots@),
    {
        self.affected_roots.extend_from_slice(roots);
    }

    /// Return whether any affected roots have been recorded.
    pub fn has_affected_roots(&self) -> (has: bool)
        ensures
            has == (self@.roots.len() > 0),
    {
        !self.affected_roots.is_empty()
    }

    /// Record whether the current dependency can prove an empty result exact.
    pub fn note_empty_result_supported(&mut self, supported: bool)
        ensures
            final(self)@ == old(self)@.with_support(supported),
    {
        self.empty_result_is_exact = self.empty_result_is_exact && supported;
    }

    /// Record a fallback reason for this query.
    pub fn note_fallback_reason(&mut self, reason: LightmountSourceInvalidationFallbackReason)
        ensures
            final(self)@ == old(self)@.with_reason(reason),
    {
        self.fallback_reasons.insert(reason);
    }

    /// Consume this builder into a typed single-query result.
    pub fn into_query_result(self, matched_dependency_count: usize) -> (result:
        LightmountSourceStyleInvalidationQueryResult<Root>)
        ensures
            result@ == self@.result(matched_dependency_count as nat),
            result@.roots.no_duplicates(),
    {
        LightmountSourceStyleInvalidationQueryResult::from_parts(
            self.affected_roots.into_vec(),
            self.empty_result_is_exact,
            matched_dependency_count,
            self.fallback_reasons,
        )
    }
}

/// Snapshot-relative affected roots and verification state for one retained
/// query.
#[derive(Debug, PartialEq, Eq)]
pub struct LightmountSnapshotRelativeDependencyRoots<Root> {
    /// The roots.
    pub roots: Vec<Root>,
    /// The number of relative dependencies that snapshots verified.
    pub verified_dependency_count: usize,
}

impl<Root: Copy> Clone for LightmountSnapshotRelativeDependencyRoots<Root> {
    fn clone(&self) -> (roots: Self)
        ensures
            roots.roots@ == self.roots@,
            roots.verified_dependency_count == self.verified_dependency_count,
    {
        Self {
            roots: copy_slice(self.roots.as_slice()),
            verified_dependency_count: self.verified_dependency_count,
        }
    }
}

impl<Root> Default for LightmountSnapshotRelativeDependencyRoots<Root> {
    fn default() -> (roots: Self)
        ensures
            roots.roots@.len() == 0,
            roots.verified_dependency_count == 0,
    {
        Self { roots: Vec::new(), verified_dependency_count: 0 }
    }
}

impl<Root> LightmountSnapshotRelativeDependencyRoots<Root> {
    /// Create snapshot-relative roots from already-collected DOM roots and the
    /// number of relative dependencies that were verified by snapshots.
    pub fn new(roots: Vec<Root>, verified_dependency_count: usize) -> (created: Self)
        ensures
            created == (LightmountSnapshotRelativeDependencyRoots {
                roots,
                verified_dependency_count,
            }),
    {
        Self { roots, verified_dependency_count }
    }

    /// Snapshot-relative roots collected for this query.
    pub fn roots(&self) -> (roots: &[Root])
        ensures
            roots@ == self.roots@,
    {
        self.roots.as_slice()
    }

    /// Whether there are dependencies and snapshots verified all of them.
    pub open spec fn verified_all(&self, dependency_count: usize) -> bool {
        dependency_count != 0 && self.verified_dependency_count == dependency_count
    }

    /// Return whether every matched dependency was verified by snapshots.
    pub fn verified_all_dependencies(
        &self,
        matched_dependency_count: usize,
        dependency_count: usize,
    ) -> (verified: bool)
        ensures
            verified == (self.verified_all(dependency_count) && matched_dependency_count
                == dependency_count),
    {
        dependency_count != 0 && self.verified_dependency_count == dependency_count
            && matched_dependency_count == dependency_count
    }

    /// Return whether every collected dependency in one dependency subset was
    /// verified by snapshots.
    pub fn verified_all_collected_dependencies(&self, dependency_count: usize) -> (verified: bool)
        ensures
            verified == self.verified_all(dependency_count),
    {
        dependency_count != 0 && self.verified_dependency_count == dependency_count
    }

    /// Whether an empty result of a relative query is exact: nothing matched,
    /// something was affected anyway, or snapshots verified all that matched.
    pub open spec fn is_exact(
        &self,
        matched_dependency_count: usize,
        dependency_count: usize,
        has_affected_roots: bool,
    ) -> bool {
        ||| matched_dependency_count == 0
        ||| has_affected_roots
        ||| self.verified_all(dependency_count) && matched_dependency_count == dependency_count
    }

    /// Return whether a relative query's empty result can be treated as exact.
    pub fn empty_result_is_exact(
        &self,
        matched_dependency_count: usize,
        dependency_count: usize,
        has_affected_roots: bool,
    ) -> (exact: bool)
        ensures
            exact == self.is_exact(matched_dependency_count, dependency_count, has_affected_roots),
    {
        matched_dependency_count == 0 || has_affected_roots || self.verified_all_dependencies(
            matched_dependency_count,
            dependency_count,
        )
    }

    /// Consume this snapshot-relative result and drain affected roots into an
    /// invalidation root collection.
    pub fn drain_affected_roots_into<Target: RootCollection<Root>>(self, target: &mut Target)
        ensures
            final(target).held_roots() == Target::roots_after(
                old(target).held_roots(),
                self.roots@,
            ),
    {
        target.extend_roots(self.roots);
    }
}

/// Policy for normal retained invalidation after snapshot-relative roots have
/// been collected.
#[derive(Clone, Copy, Debug, PartialEq, Eq, Structural)]
pub struct LightmountNormalStyleInvalidationDependencyPlan {
    /// Relative dependencies are dropped before the invalidator runs.
    pub drop_relative_dependencies: bool,
    /// The query is an exact empty result.
    pub empty_result_is_exact: bool,
}

/// Policy for relative retained invalidation after snapshot-relative roots have
/// been collected.
#[derive(Clone, Copy, Debug, PartialEq, Eq, Structural)]
pub struct LightmountRelativeStyleInvalidationDependencyPlan {
    /// The query is an exact empty result.
    pub empty_result_is_exact: bool,
}

/// An action of a normal invalidation dependency plan.
#[derive(Clone, Copy, Debug, PartialEq, Eq, Structural)]
pub enum NormalDependencyPlanAction {
    /// Drop collected relative dependencies.
    DropRelativeDependencies,
    /// The query returns exact empty.
    ExactEmptyResult,
}

/// Sink for normal invalidation dependency plan actions.
pub trait LightmountNormalStyleInvalidationDependencyPlanSink {
    /// The actions received so far.
    open spec fn plan_actions(&self) -> Seq<NormalDependencyPlanAction> {
        Seq::empty()
    }

    /// Drop relative dependencies collected by the normal invalidator before
    /// running it.
    fn drop_collected_relative_dependencies(&mut self)
        ensures
            final(self).plan_actions() == old(self).plan_actions().push(
                NormalDependencyPlanAction::DropRelativeDependencies,
            ),
    ;

    /// Record that this normal invalidation query can return exact empty.
    fn record_exact_empty_result(&mut self)
        ensures
            final(self).plan_actions() == old(self).plan_actions().push(
                NormalDependencyPlanAction::ExactEmptyResult,
            ),
    ;
}

impl LightmountNormalStyleInvalidationDependencyPlan {
    /// The actions of this plan, in order.
    pub open spec fn actions(self) -> Seq<NormalDependencyPlanAction> {
        (if self.drop_relative_dependencies {
            seq![NormalDependencyPlanAction::DropRelativeDependencies]
        } else {
            seq![]
        }) + (if self.empty_result_is_exact {
            seq![NormalDependencyPlanAction::ExactEmptyResult]
        } else {
            seq![]
        })
    }

    /// Drain this plan into an adapter-owned normal invalidation action sink.
    pub fn drain_into<Sink: LightmountNormalStyleInvalidationDependencyPlanSink>(
        self,
        target: &mut Sink,
    )
        ensures
            final(target).plan_actions() == old(target).plan_actions() + self.actions(),
    {
        let ghost before = target.plan_actions();
        if self.should_drop_relative_dependencies() {
            target.drop_collected_relative_dependencies();
        }
        if self.empty_result_is_exact() {
            target.record_exact_empty_result();
        }
        assert(target.plan_actions() =~= before + self.actions());
    }

    /// Return whether normal invalidation should drop collected relative
    /// dependencies before running the normal invalidator.
    pub fn should_drop_relative_dependencies(&self) -> (drop: bool)
        ensures
            drop == self.drop_relative_dependencies,
    {
        self.drop_relative_dependencies
    }

    /// Return whether the normal invalidation query is an exact empty result.
    pub fn empty_result_is_exact(&self) -> (exact: bool)
        ensures
            exact == self.empty_result_is_exact,
    {
        self.empty_result_is_exact
    }
}

impl LightmountRelativeStyleInvalidationDependencyPlan {
    /// Return whether the relative invalidation query is an exact empty result.
    pub fn empty_result_is_exact(&self) -> (exact: bool)
        ensures
            exact == self.empty_result_is_exact,
    {
        self.empty_result_is_exact
    }
}

impl<'a> LightmountStyleInvalidationQuery<'a> {
    /// Return whether normal invalidation of this query never runs relative
    /// dependencies.
    pub fn drops_collected_relative_dependencies(&self) -> (drops: bool)
        ensures
            drops == (self@ is CustomState),
    {
        matches!(self, Self::CustomState(_))
    }
}

/// The policy for normal invalidation: relative dependencies are dropped for
/// custom states and where snapshots verified all of them, and the result is
/// exactly empty where no dependency and no root is left.
pub open spec fn normal_plan<Root>(
    shape: QueryShape,
    matched_dependency_count: usize,
    relative_dependency_count: usize,
    snapshot_relative_roots: LightmountSnapshotRelativeDependencyRoots<Root>,
) -> LightmountNormalStyleInvalidationDependencyPlan {
    let drop_relative_dependencies = shape is CustomState || snapshot_relative_roots.verified_all(
        relative_dependency_count,
    );
    LightmountNormalStyleInvalidationDependencyPlan {
        drop_relative_dependencies,
        empty_result_is_exact: snapshot_relative_roots.roots@.len() == 0 && (
        matched_dependency_count == 0 || drop_relative_dependencies && matched_dependency_count
            <= relative_dependency_count),
    }
}

/// Return normal invalidation dependency policy after snapshot-relative
/// dependency collection.
pub fn lightmount_normal_style_invalidation_dependency_plan<Root>(
    query: LightmountStyleInvalidationQuery<'_>,
    matched_dependency_count: usize,
    relative_dependency_count: usize,
    snapshot_relative_roots: &LightmountSnapshotRelativeDependencyRoots<Root>,
) -> (plan: LightmountNormalStyleInvalidationDependencyPlan)
    ensures
        plan == normal_plan(
            query@,
            matched_dependency_count,
            relative_dependency_count,
            *snapshot_relative_roots,
        ),
{
    let drop_relative_dependencies = query.drops_collected_relative_dependencies()
        || snapshot_relative_roots.verified_all_collected_dependencies(relative_dependency_count);
    let remaining_dependency_count: usize = if drop_relative_dependencies {
        if matched_dependency_count <= relative_dependency_count {
            0
        } else {
            matched_dependency_count - relative_dependency_count
        }
    } else {
        matched_dependency_count
    };
    LightmountNormalStyleInvalidationDependencyPlan {
        drop_relative_dependencies,
        empty_result_is_exact: remaining_dependency_count == 0
            && snapshot_relative_roots.roots().len() == 0,
    }
}

/// Return relative invalidation dependency policy after the relative invalidator
/// and snapshot-relative dependency collection have both run.
pub fn lightmount_relative_style_invalidation_dependency_plan<Root>(
    matched_dependency_count: usize,
    relative_dependency_count: usize,
    has_affected_roots: bool,
    snapshot_relative_roots: &LightmountSnapshotRelativeDependencyRoots<Root>,
) -> (plan: LightmountRelativeStyleInvalidationDependencyPlan)
    ensures
        plan.empty_result_is_exact == snapshot_relative_roots.is_exact(
            matched_dependency_count,
            relative_dependency_count,
            has_affected_roots,
        ),
{
    LightmountRelativeStyleInvalidationDependencyPlan {
        empty_result_is_exact: snapshot_relative_roots.empty_result_is_exact(
            matched_dependency_count,
            relative_dependency_count,
            has_affected_roots,
        ),
    }
}

/// The result of a relative query: the roots of the invalidator and then those
/// of the snapshots.
pub open spec fn relative_query_result<Root>(
    direct_affected_roots: Seq<Root>,
    snapshot_relative_roots: LightmountSnapshotRelativeDependencyRoots<Root>,
    matched_dependency_count: usize,
    relative_dependency_count: usize,
) -> QueryResultView<Root> {
    let roots = super::ordered_set::extend_unique(
        super::ordered_set::extend_unique(Seq::empty(), direct_affected_roots),
        snapshot_relative_roots.roots@,
    );
    QueryResultView {
        roots,
        exact: snapshot_relative_roots.is_exact(
            matched_dependency_count,
            relative_dependency_count,
            roots.len() > 0,
        ),
        matched: matched_dependency_count as nat,
        reasons: Seq::empty(),
    }
}

/// Build one relative invalidation query result from relative invalidator
/// affected roots and snapshot-relative roots.
pub fn lightmount_relative_style_invalidation_query_result<Root: Keyed>(
    direct_affected_roots: &[Root],
    snapshot_relative_roots: &LightmountSnapshotRelativeDependencyRoots<Root>,
    matched_dependency_count: usize,
    relative_dependency_count: usize,
) -> (result: LightmountSourceStyleInvalidationQueryResult<Root>)
    ensures
        result@ == relative_query_result(
            direct_affected_roots@,
            *snapshot_relative_roots,
            matched_dependency_count,
            relative_dependency_count,
        ),
{
    let mut result_builder = LightmountSourceStyleInvalidationQueryResultBuilder::new();
    result_builder.extend_affected_roots(direct_affected_roots);
    result_builder.extend_affected_roots(snapshot_relative_roots.roots());
    let dependency_plan = lightmount_relative_style_invalidation_dependency_plan(
        matched_dependency_count,
        relative_dependency_count,
        result_builder.has_affected_roots(),
        snapshot_relative_roots,
    );
    result_builder.note_empty_result_supported(dependency_plan.empty_result_is_exact());
    result_builder.into_query_result(matched_dependency_count)
}

/// The content of a source-local invalidation result.
pub struct SourceInvalidationView<Root> {
    /// The affected roots.
    pub roots: Seq<Root>,
    /// Why the result is not exact.
    pub reasons: Seq<LightmountSourceInvalidationFallbackReason>,
    /// How the result falls back.
    pub kind: Option<LightmountSourceStyleInvalidationSourceResultKind>,
    /// Whether fallback roots were there.
    pub availability: Option<LightmountSourceFallbackRootAvailability>,
    /// Whether an empty result means that nothing is affected.
    pub exact: bool,
    /// The number of dependencies that matched.
    pub matched: nat,
}

/// Source-local invalidation result after a batch of retained dependency
/// queries has been merged.
#[derive(Debug, PartialEq, Eq)]
pub struct LightmountSourceStyleInvalidationResult<Root> {
    /// The affected roots.
    pub affected_roots: Vec<Root>,
    /// Why the result is not exact.
    pub fallback_reasons: OrderedSet<LightmountSourceInvalidationFallbackReason>,
    /// How the result falls back.
    pub fallback_kind: Option<LightmountSourceStyleInvalidationSourceResultKind>,
    /// Whether fallback roots were there.
    pub fallback_root_availability: Option<LightmountSourceFallbackRootAvailability>,
    /// Whether an empty result means that nothing is affected.
    pub empty_result_is_exact: bool,
    /// The number of dependencies that matched.
    pub matched_dependency_count: usize,
}

impl<Root: Copy> Clone for LightmountSourceStyleInvalidationResult<Root> {
    fn clone(&self) -> (result: Self)
        ensures
            result@ == self@,
    {
        Self {
            affected_roots: copy_slice(self.affected_roots.as_slice()),
            fallback_reasons: self.fallback_reasons.clone(),
            fallback_kind: self.fallback_kind,
            fallback_root_availability: self.fallback_root_availability,
            empty_result_is_exact: self.empty_result_is_exact,
            matched_dependency_count: self.matched_dependency_count,
        }
    }
}

/// Drainable parts for one classified source-local invalidation result.
#[derive(Debug, PartialEq, Eq)]
pub struct LightmountSourceStyleInvalidationResultParts<Root> {
    /// The affected roots.
    pub affected_roots: Vec<Root>,
    /// Why the result is not exact.
    pub fallback_reasons: OrderedSet<LightmountSourceInvalidationFallbackReason>,
    /// How the result falls back.
    pub fallback_kind: Option<LightmountSourceStyleInvalidationSourceResultKind>,
    /// Whether fallback roots were there.
    pub fallback_root_availability: Option<LightmountSourceFallbackRootAvailability>,
    /// Whether an empty result means that nothing is affected.
    pub empty_result_is_exact: bool,
    /// The number of dependencies that matched.
    pub matched_dependency_count: usize,
}

impl<Root> View for LightmountSourceStyleInvalidationResult<Root> {
    type V = SourceInvalidationView<Root>;

    open spec fn view(&self) -> SourceInvalidationView<Root> {
        SourceInvalidationView {
            roots: self.affected_roots@,
            reasons: self.fallback_reasons@,
            kind: self.fallback_kind,
            availability: self.fallback_root_availability,
            exact: self.empty_result_is_exact,
            matched: self.matched_dependency_count as nat,
        }
    }
}

impl<Root> View for LightmountSourceStyleInvalidationResultParts<Root> {
    type V = SourceInvalidationView<Root>;

    open spec fn view(&self) -> SourceInvalidationView<Root> {
        SourceInvalidationView {
            roots: self.affected_roots@,
            reasons: self.fallback_reasons@,
            kind: self.fallback_kind,
            availability: self.fallback_root_availability,
            exact: self.empty_result_is_exact,
            matched: self.matched_dependency_count as nat,
        }
    }
}

/// Sink used to drain source-local invalidation result policy into its owner.
pub trait LightmountSourceStyleInvalidationResultSink<Root> {
    /// The results received so far.
    open spec fn received_results(&self) -> Seq<SourceInvalidationView<Root>> {
        Seq::empty()
    }

    /// Record a fully classified source-local invalidation result artifact.
    fn set_source_style_invalidation_result(
        &mut self,
        parts: LightmountSourceStyleInvalidationResultParts<Root>,
    )
        ensures
            final(self).received_results() == old(self).received_results().push(parts@),
    ;
}

/// Sink used by diagnostics and tests that need source-local result parts.
pub trait LightmountSourceStyleInvalidationResultPartsSink<Root> {
    /// The results received so far.
    open spec fn received_parts(&self) -> Seq<SourceInvalidationView<Root>> {
        Seq::empty()
    }

    /// Record the classified source-local invalidation result parts.
    fn set_source_style_invalidation_result_parts(
        &mut self,
        affected_roots: Vec<Root>,
        fallback_reasons: OrderedSet<LightmountSourceInvalidationFallbackReason>,
        fallback_kind: Option<LightmountSourceStyleInvalidationSourceResultKind>,
        fallback_root_availability: Option<LightmountSourceFallbackRootAvailability>,
        empty_result_is_exact: bool,
        matched_dependency_count: usize,
    )
        ensures
            final(self).received_parts() == old(self).received_parts().push(
                SourceInvalidationView {
                    roots: affected_roots@,
                    reasons: fallback_reasons@,
                    kind: fallback_kind,
                    availability: fallback_root_availability,
                    exact: empty_result_is_exact,
                    matched: matched_dependency_count as nat,
                },
            ),
    ;
}

impl<Root> LightmountSourceStyleInvalidationResultParts<Root> {
    /// Return the parts of a result.
    pub fn from_result(result: LightmountSourceStyleInvalidationResult<Root>) -> (parts: Self)
        ensures
            parts@ == result@,
    {
        Self {
            affected_roots: result.affected_roots,
            fallback_reasons: result.fallback_reasons,
            fallback_kind: result.fallback_kind,
            fallback_root_availability: result.fallback_root_availability,
            empty_result_is_exact: result.empty_result_is_exact,
            matched_dependency_count: result.matched_dependency_count,
        }
    }

    /// Drain this artifact into a result-parts sink.
    pub fn drain_into<Sink: LightmountSourceStyleInvalidationResultPartsSink<Root>>(
        self,
        target: &mut Sink,
    )
        ensures
            final(target).received_parts() == old(target).received_parts().push(self@),
    {
        target.set_source_style_invalidation_result_parts(
            self.affected_roots,
            self.fallback_reasons,
            self.fallback_kind,
            self.fallback_root_availability,
            self.empty_result_is_exact,
            self.matched_dependency_count,
        );
    }
}

impl<Root> LightmountSourceStyleInvalidationResult<Root> {
    /// Construct a source-local invalidation result from already-classified
    /// parts.
    pub fn from_parts(
        affected_roots: Vec<Root>,
        fallback_reasons: OrderedSet<LightmountSourceInvalidationFallbackReason>,
        fallback_kind: Option<LightmountSourceStyleInvalidationSourceResultKind>,
        fallback_root_availability: Option<LightmountSourceFallbackRootAvailability>,
        empty_result_is_exact: bool,
        matched_dependency_count: usize,
    ) -> (result: Self)
        ensures
            result@ == (SourceInvalidationView {
                roots: affected_roots@,
                reasons: fallback_reasons@,
                kind: fallback_kind,
                availability: fallback_root_availability,
                exact: empty_result_is_exact,
                matched: matched_dependency_count as nat,
            }),
    {
        Self {
            affected_roots,
            fallback_reasons,
            fallback_kind,
            fallback_root_availability,
            empty_result_is_exact,
            matched_dependency_count,
        }
    }

    /// Drain this result into the source-result policy owner.
    pub fn drain_into<Sink: LightmountSourceStyleInvalidationResultSink<Root>>(
        self,
        target: &mut Sink,
    )
        ensures
            final(target).received_results() == old(target).received_results().push(self@),
    {
        target.set_source_style_invalidation_result(
            LightmountSourceStyleInvalidationResultParts::from_result(self),
        );
    }
}

impl<Root> QueryResultView<Root> {
    /// Whether nothing is affected and that is not known to be right: nothing
    /// matched, or what matched may have been missed.
    pub open spec fn is_inexact_empty(self) -> bool {
        self.roots.len() == 0 && (self.matched == 0 || !self.exact)
    }

    /// Whether the source has to fall back.
    pub open spec fn needs_fallback(self) -> bool {
        self.reasons.len() > 0 || self.is_inexact_empty()
    }

    /// The source-local result of merged queries. Where the source has to fall
    /// back, the exact-safety roots take the place of the affected roots; where
    /// there are none, their lack is reported.
    pub open spec fn source_result(self, safety_roots: Seq<Root>) -> SourceInvalidationView<Root> {
        let reasons = if self.needs_fallback() && self.reasons.len() == 0 {
            seq![LightmountSourceInvalidationFallbackReason::InexactEmptyResult]
        } else {
            self.reasons
        };
        if !self.needs_fallback() {
            SourceInvalidationView {
                roots: self.roots,
                reasons,
                kind: None,
                availability: None,
                exact: self.exact,
                matched: self.matched,
            }
        } else if safety_roots.len() == 0 {
            SourceInvalidationView {
                roots: self.roots,
                reasons: super::ordered_set::push_unique(
                    reasons,
                    LightmountSourceInvalidationFallbackReason::MissingFallbackRoots,
                ),
                kind: Some(LightmountSourceStyleInvalidationSourceResultKind::MissingFallbackRoots),
                availability: Some(LightmountSourceFallbackRootAvailability::Missing),
                exact: self.exact,
                matched: self.matched,
            }
        } else {
            SourceInvalidationView {
                roots: safety_roots,
                reasons,
                kind: Some(LightmountSourceStyleInvalidationSourceResultKind::Fallback),
                availability: LightmountSourceFallbackRootAvailability::of_count(
                    safety_roots.len(),
                ),
                exact: self.exact,
                matched: self.matched,
            }
        }
    }
}

/// A source result is exact, without kind and reasons, exactly where no query
/// gave a reason and an empty result is trusted.
pub proof fn lemma_source_result_is_exact_or_reasoned<Root>(
    merged: QueryResultView<Root>,
    safety_roots: Seq<Root>,
)
    ensures
        ({
            let result = merged.source_result(safety_roots);
            &&& result.kind is None <==> !merged.needs_fallback()
            &&& result.kind is None <==> result.reasons.len() == 0
            &&& result.kind is None ==> result.roots == merged.roots && (result.roots.len() > 0
                || merged.matched > 0 && merged.exact)
        }),
{
    let reasons = seq![LightmountSourceInvalidationFallbackReason::InexactEmptyResult];
    assert(super::ordered_set::push_unique(
        reasons,
        LightmountSourceInvalidationFallbackReason::MissingFallbackRoots,
    ).len() > 0);
}

/// Accumulates query-local affected roots and fallback reasons for one retained
/// stylesheet source.
#[derive(Debug, PartialEq, Eq)]
pub struct LightmountSourceStyleInvalidationResultAccumulator<Root: Keyed> {
    /// The affected roots.
    pub affected_roots: UniqueRoots<Root>,
    /// Why the result may be incomplete.
    pub fallback_reasons: OrderedSet<LightmountSourceInvalidationFallbackReason>,
    /// Whether an empty result means that nothing is affected.
    pub empty_result_is_exact: bool,
    /// The number of dependencies that matched.
    pub matched_dependency_count: usize,
}

impl<Root: Keyed> View for LightmountSourceStyleInvalidationResultAccumulator<Root> {
    type V = QueryResultView<Root>;

    open spec fn view(&self) -> QueryResultView<Root> {
        QueryResultView {
            roots: self.affected_roots@,
            exact: self.empty_result_is_exact,
            matched: self.matched_dependency_count as nat,
            reasons: self.fallback_reasons@,
        }
    }
}

impl<Root> QueryResultView<Root> {
    /// No query merged yet.
    pub open spec fn none() -> Self {
        QueryResultView {
            roots: Seq::empty(),
            exact: true,
            matched: 0,
            reasons: Seq::empty(),
        }
    }

    /// This accumulation with one more query result.
    pub open spec fn accumulate(self, result: Self) -> Self {
        QueryResultView {
            roots: super::ordered_set::extend_unique(self.roots, result.roots),
            exact: self.exact && result.exact,
            matched: self.matched + result.matched,
            reasons: super::ordered_set::extend_unique(self.reasons, result.reasons),
        }
    }
}

/// Accumulating two results in turn is accumulating their merge: a source
/// result does not depend on whether its queries were merged first.
pub proof fn lemma_accumulate_merged<Root>(
    accumulated: QueryResultView<Root>,
    first: QueryResultView<Root>,
    second: QueryResultView<Root>,
)
    ensures
        accumulated.accumulate(first.merge(second)) == accumulated.accumulate(first).accumulate(
            second,
        ),
{
    let empty = Seq::<Root>::empty();
    let once = super::ordered_set::extend_unique(empty, first.roots);
    super::ordered_set::lemma_extend_unique_absorbs(accumulated.roots, once, second.roots);
    super::ordered_set::lemma_extend_unique_absorbs(accumulated.roots, empty, first.roots);
    super::ordered_set::lemma_extend_unique_absorbs(
        accumulated.reasons,
        first.reasons,
        second.reasons,
    );
}

/// Every accumulated result counts: its roots and reasons are kept, and the
/// accumulation is exact only where it is.
pub proof fn lemma_accumulate_keeps_results<Root>(
    accumulated: QueryResultView<Root>,
    result: QueryResultView<Root>,
)
    ensures
        forall|root: Root| #[trigger]
            accumulated.accumulate(result).roots.contains(root) <==> accumulated.roots.contains(
                root,
            ) || result.roots.contains(root),
        forall|reason: LightmountSourceInvalidationFallbackReason| #[trigger]
            accumulated.accumulate(result).reasons.contains(reason)
                <==> accumulated.reasons.contains(reason) || result.reasons.contains(reason),
        result.reasons.len() > 0 ==> accumulated.accumulate(result).needs_fallback(),
{
    let both = accumulated.accumulate(result);
    assert forall|root: Root| #[trigger] both.roots.contains(root) <==> accumulated.roots.contains(
        root,
    ) || result.roots.contains(root) by {
        super::ordered_set::lemma_extend_unique_contains(accumulated.roots, result.roots, root);
    }
    assert forall|reason: LightmountSourceInvalidationFallbackReason| #[trigger]
        both.reasons.contains(reason) <==> accumulated.reasons.contains(reason)
            || result.reasons.contains(reason) by {
        super::ordered_set::lemma_extend_unique_contains(
            accumulated.reasons,
            result.reasons,
            reason,
        );
    }
    if result.reasons.len() > 0 {
        assert(result.reasons.contains(result.reasons[0]));
        assert(both.reasons.contains(result.reasons[0]));
    }
}

impl<Root: Keyed> LightmountSourceStyleInvalidationResultAccumulator<Root> {
    /// Create an empty source-local result accumulator.
    pub fn new() -> (accumulator: Self)
        ensures
            accumulator@ == QueryResultView::<Root>::none(),
    {
        Self {
            affected_roots: UniqueRoots::new(),
            fallback_reasons: OrderedSet::new(),
            empty_result_is_exact: true,
            matched_dependency_count: 0,
        }
    }

    /// Merge one retained dependency-query result into this source-local
    /// accumulator.
    pub fn merge_query_result(
        &mut self,
        affected_roots: Vec<Root>,
        empty_result_is_exact: bool,
        matched_dependency_count: usize,
        fallback_reasons: OrderedSet<LightmountSourceInvalidationFallbackReason>,
    )
        requires
            old(self)@.matched + matched_dependency_count <= usize::MAX,
        ensures
            final(self)@ == old(self)@.accumulate(
                QueryResultView {
                    roots: affected_roots@,
                    exact: empty_result_is_exact,
                    matched: matched_dependency_count as nat,
                    reasons: fallback_reasons@,
                },
            ),
    {
        self.fallback_reasons.extend_from_set(&fallback_reasons);
        self.empty_result_is_exact = self.empty_result_is_exact && empty_result_is_exact;
        self.matched_dependency_count = self.matched_dependency_count + matched_dependency_count;
        self.affected_roots.extend_from_slice(affected_roots.as_slice());
    }

    /// Merge one typed retained dependency-query result into this source-local
    /// accumulator.
    pub fn merge_invalidation_query_result(
        &mut self,
        result: LightmountSourceStyleInvalidationQueryResult<Root>,
    )
        requires
            old(self)@.matched + result@.matched <= usize::MAX,
        ensures
            final(self)@ == old(self)@.accumulate(result@),
    {
        self.merge_query_result(
            result.affected_roots,
            result.empty_result_is_exact,
            result.matched_dependency_count,
            result.fallback_reasons,
        );
    }

    /// Convert the accumulated query results into the source-local result
    /// policy to apply for this stylesheet source.
    pub fn into_source_result(self, exact_safety_fallback_roots: &OrderedSet<Root>) -> (result:
        LightmountSourceStyleInvalidationResult<Root>)
        ensures
            result@ == self@.source_result(exact_safety_fallback_roots@),
    {
        let has_reasons = !self.fallback_reasons.is_empty();
        let needs_source_fallback = has_reasons || self.has_inexact_empty_result();
        let mut fallback_reasons = self.fallback_reasons;
        if needs_source_fallback && !has_reasons {
            fallback_reasons.insert(LightmountSourceInvalidationFallbackReason::InexactEmptyResult);
            assert(fallback_reasons@ =~= seq![
                LightmountSourceInvalidationFallbackReason::InexactEmptyResult,
            ]);
        }
        if needs_source_fallback && exact_safety_fallback_roots.is_empty() {
            fallback_reasons.insert(
                LightmountSourceInvalidationFallbackReason::MissingFallbackRoots,
            );
            return LightmountSourceStyleInvalidationResult::from_parts(
                self.affected_roots.into_vec(),
                fallback_reasons,
                Some(LightmountSourceStyleInvalidationSourceResultKind::MissingFallbackRoots),
                Some(LightmountSourceFallbackRootAvailability::Missing),
                self.empty_result_is_exact,
                self.matched_dependency_count,
            );
        }
        if needs_source_fallback {
            let count: usize = exact_safety_fallback_roots.len();
            return LightmountSourceStyleInvalidationResult::from_parts(
                exact_safety_fallback_roots.to_vec(),
                fallback_reasons,
                Some(LightmountSourceStyleInvalidationSourceResultKind::Fallback),
                LightmountSourceFallbackRootAvailability::for_root_count(count),
                self.empty_result_is_exact,
                self.matched_dependency_count,
            );
        }
        LightmountSourceStyleInvalidationResult::from_parts(
            self.affected_roots.into_vec(),
            fallback_reasons,
            None,
            None,
            self.empty_result_is_exact,
            self.matched_dependency_count,
        )
    }

    /// Return whether nothing is affected and that is not known to be right.
    pub fn has_inexact_empty_result(&self) -> (inexact: bool)
        ensures
            inexact == self@.is_inexact_empty(),
    {
        self.affected_roots.is_empty() && (self.matched_dependency_count == 0
            || !self.empty_result_is_exact)
    }
}

impl<Root: Keyed> Clone for LightmountSourceStyleInvalidationResultAccumulator<Root> {
    fn clone(&self) -> (accumulator: Self)
        ensures
            accumulator@ == self@,
    {
        Self {
            affected_roots: self.affected_roots.clone(),
            fallback_reasons: self.fallback_reasons.clone(),
            empty_result_is_exact: self.empty_result_is_exact,
            matched_dependency_count: self.matched_dependency_count,
        }
    }
}

impl<Root: Keyed> Default for LightmountSourceStyleInvalidationResultAccumulator<Root> {
    fn default() -> (accumulator: Self)
        ensures
            accumulator@ == QueryResultView::<Root>::none(),
    {
        Self::new()
    }
}

} // verus!
