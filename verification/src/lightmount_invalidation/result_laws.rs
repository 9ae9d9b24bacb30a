//! Laws of query results, source results and the rows that are made of them.

use vstd::prelude::*;

use super::query::QueryShape;
use super::query_result::{
    LightmountNormalStyleInvalidationDependencyPlan, LightmountSnapshotRelativeDependencyRoots,
    NormalDependencyPlanAction, QueryResultBuilderView, QueryResultView, SourceInvalidationView,
};
use super::reasons::LightmountSourceInvalidationFallbackReason;
use super::results::SourceResultView;
use super::retained_kind::{
    LightmountRetainedSourceStyleInvalidationKind, LightmountSourceFallbackRootAvailability,
    LightmountSourceFallbackRootAvailabilitySummary,
    LightmountSourceStyleInvalidationSourceResultKind,
    LightmountSourceStyleInvalidationSourceResultKindSummary, SourceResultCategory,
};

verus! {

/// A merged result counts the dependencies of both, has the reasons of both, and
/// is exact where both are. The roots of the first come first, each once.
pub proof fn lemma_merged_results_add_up<Root>(
    first: QueryResultView<Root>,
    second: QueryResultView<Root>,
    reason: LightmountSourceInvalidationFallbackReason,
    root: Root,
)
    ensures
        ({
            let merged = first.merge(second);
            &&& merged.matched == first.matched + second.matched
            &&& merged.exact <==> first.exact && second.exact
            &&& merged.reasons.contains(reason) <==> first.reasons.contains(reason)
                || second.reasons.contains(reason)
            &&& first.reasons.is_prefix_of(merged.reasons)
            &&& merged.roots.contains(root) <==> first.roots.contains(root)
                || second.roots.contains(root)
            &&& merged.roots.no_duplicates()
            &&& first.roots.no_duplicates() ==> first.roots.is_prefix_of(merged.roots)
        }),
{
    let empty = Seq::<Root>::empty();
    let once = super::ordered_set::extend_unique(empty, first.roots);
    super::ordered_set::lemma_extend_unique_contains(first.reasons, second.reasons, reason);
    super::ordered_set::lemma_extend_unique_prefix(first.reasons, second.reasons);
    super::ordered_set::lemma_extend_unique_contains(empty, first.roots, root);
    super::ordered_set::lemma_extend_unique_contains(once, second.roots, root);
    super::ordered_set::lemma_extend_unique_no_duplicates(empty, first.roots);
    super::ordered_set::lemma_extend_unique_no_duplicates(once, second.roots);
    super::ordered_set::lemma_extend_unique_prefix(once, second.roots);
    if first.roots.no_duplicates() {
        super::ordered_set::lemma_extend_unique_disjoint(empty, first.roots);
        assert(empty + first.roots =~= first.roots);
    }
}

/// An accumulated result adds up what was accumulated and the result, in the
/// same way; nothing accumulated is exact and counts nothing.
pub proof fn lemma_accumulated_results_add_up<Root>(
    accumulated: QueryResultView<Root>,
    result: QueryResultView<Root>,
    root: Root,
)
    ensures
        ({
            let after = accumulated.accumulate(result);
            &&& after.matched == accumulated.matched + result.matched
            &&& after.exact <==> accumulated.exact && result.exact
            &&& after.roots.contains(root) <==> accumulated.roots.contains(root)
                || result.roots.contains(root)
            &&& accumulated.roots.is_prefix_of(after.roots)
            &&& accumulated.reasons.is_prefix_of(after.reasons)
            &&& accumulated.roots.no_duplicates() ==> after.roots.no_duplicates()
        }),
        ({
            let none = QueryResultView::<Root>::none();
            none.exact && none.matched == 0 && none.roots.len() == 0 && none.reasons.len() == 0
        }),
{
    super::ordered_set::lemma_extend_unique_contains(accumulated.roots, result.roots, root);
    super::ordered_set::lemma_extend_unique_prefix(accumulated.roots, result.roots);
    super::ordered_set::lemma_extend_unique_prefix(accumulated.reasons, result.reasons);
    if accumulated.roots.no_duplicates() {
        super::ordered_set::lemma_extend_unique_no_duplicates(accumulated.roots, result.roots);
    }
}

/// A built result holds what was noted: the roots and the reasons, and exactness
/// where nothing noted was unsupported.
pub proof fn lemma_built_results_hold_what_was_noted<Root>(
    builder: QueryResultBuilderView<Root>,
    root: Root,
    other: Root,
    reason: LightmountSourceInvalidationFallbackReason,
    supported: bool,
    matched: nat,
)
    ensures
        builder.with_root(root).roots.contains(other) <==> builder.roots.contains(other) || other
            == root,
        builder.roots.is_prefix_of(builder.with_root(root).roots),
        builder.with_root(root).exact == builder.exact,
        builder.with_root(root).reasons == builder.reasons,
        builder.with_reason(reason).reasons.contains(reason),
        builder.reasons.is_prefix_of(builder.with_reason(reason).reasons),
        builder.with_reason(reason).roots == builder.roots,
        builder.with_reason(reason).exact == builder.exact,
        builder.with_support(supported).exact <==> builder.exact && supported,
        builder.with_support(supported).roots == builder.roots,
        builder.with_support(supported).reasons == builder.reasons,
        ({
            let none = QueryResultBuilderView::<Root>::none();
            none.exact && none.roots.len() == 0 && none.reasons.len() == 0
        }),
        ({
            let result = builder.result(matched);
            &&& result.roots == builder.roots
            &&& result.exact == builder.exact
            &&& result.reasons == builder.reasons
            &&& result.matched == matched
        }),
{
    super::lists::lemma_contains_push(builder.roots, root, other);
    super::lists::lemma_contains_push(builder.reasons, reason, reason);
}

/// Noting a list of roots or reasons adds all of them.
pub proof fn lemma_built_results_hold_lists<Root>(
    builder: QueryResultBuilderView<Root>,
    roots: Seq<Root>,
    reasons: Seq<LightmountSourceInvalidationFallbackReason>,
    root: Root,
    reason: LightmountSourceInvalidationFallbackReason,
)
    ensures
        builder.with_roots(roots).roots.contains(root) <==> builder.roots.contains(root)
            || roots.contains(root),
        builder.roots.is_prefix_of(builder.with_roots(roots).roots),
        builder.with_roots(roots).exact == builder.exact,
        builder.with_roots(roots).reasons == builder.reasons,
        builder.with_reasons(reasons).reasons.contains(reason) <==> builder.reasons.contains(
            reason,
        ) || reasons.contains(reason),
        builder.reasons.is_prefix_of(builder.with_reasons(reasons).reasons),
        builder.with_reasons(reasons).roots == builder.roots,
        builder.with_reasons(reasons).exact == builder.exact,
{
    super::ordered_set::lemma_extend_unique_contains(builder.roots, roots, root);
    super::ordered_set::lemma_extend_unique_contains(builder.reasons, reasons, reason);
    super::ordered_set::lemma_extend_unique_prefix(builder.roots, roots);
    super::ordered_set::lemma_extend_unique_prefix(builder.reasons, reasons);
}

/// A source result trusts merged queries that give no reasons and either affect
/// roots or are an exact no-op of matched dependencies. Otherwise the roots kept
/// for safety take the place of the affected ones; where there are none the
/// affected ones stay, and that roots are missing is said.
pub proof fn lemma_source_results_fall_back_safely<Root>(
    merged: QueryResultView<Root>,
    safety_roots: Seq<Root>,
    reason: LightmountSourceInvalidationFallbackReason,
)
    ensures
        ({
            let result = merged.source_result(safety_roots);
            let trusted = merged.reasons.len() == 0 && (merged.roots.len() > 0 || (merged.matched
                > 0 && merged.exact));
            &&& result.exact == merged.exact
            &&& result.matched == merged.matched
            &&& trusted ==> result.roots == merged.roots && result.reasons.len() == 0
                && result.kind is None && result.availability is None
            &&& !trusted ==> {
                &&& result.reasons.contains(reason) <==> {
                    ||| merged.reasons.contains(reason)
                    ||| merged.reasons.len() == 0 && reason
                        == LightmountSourceInvalidationFallbackReason::InexactEmptyResult
                    ||| safety_roots.len() == 0 && reason
                        == LightmountSourceInvalidationFallbackReason::MissingFallbackRoots
                }
                &&& safety_roots.len() > 0 ==> {
                    &&& result.roots == safety_roots
                    &&& result.kind == Some(
                        LightmountSourceStyleInvalidationSourceResultKind::Fallback,
                    )
                    &&& result.availability matches Some(
                        LightmountSourceFallbackRootAvailability::Available { root_count },
                    ) && root_count == safety_roots.len() as usize
                }
                &&& safety_roots.len() == 0 ==> {
                    &&& result.roots == merged.roots
                    &&& result.kind == Some(
                        LightmountSourceStyleInvalidationSourceResultKind::MissingFallbackRoots,
                    )
                    &&& result.availability == Some(
                        LightmountSourceFallbackRootAvailability::Missing,
                    )
                }
            }
        }),
{
    let inexact = seq![LightmountSourceInvalidationFallbackReason::InexactEmptyResult];
    let missing = LightmountSourceInvalidationFallbackReason::MissingFallbackRoots;
    assert(inexact.contains(reason) <==> reason
        == LightmountSourceInvalidationFallbackReason::InexactEmptyResult) by {
        assert(inexact[0] == LightmountSourceInvalidationFallbackReason::InexactEmptyResult);
    }
    super::lists::lemma_contains_push(inexact, missing, reason);
    super::lists::lemma_contains_push(merged.reasons, missing, reason);
    if merged.reasons.len() == 0 {
        assert(!merged.reasons.contains(reason));
    }
}

/// Normal invalidation drops relative dependencies for custom states, and where
/// there are some and snapshots verified as many. It is exactly empty where no
/// root was collected and no dependency is left to run.
pub proof fn lemma_normal_plan_drops_verified_dependencies<Root>(
    shape: QueryShape,
    matched: usize,
    relative: usize,
    roots: LightmountSnapshotRelativeDependencyRoots<Root>,
)
    ensures
        ({
            let plan = super::query_result::normal_plan(shape, matched, relative, roots);
            let left = if plan.drop_relative_dependencies {
                matched - relative
            } else {
                matched as int
            };
            &&& plan.drop_relative_dependencies <==> shape is CustomState || relative > 0
                && roots.verified_dependency_count == relative
            &&& plan.empty_result_is_exact <==> roots.roots@.len() == 0 && left <= 0
        }),
{
}

/// What a normal plan asks of a sink is to drop dependencies first and to return
/// an exact empty result then, each where the plan says so.
pub proof fn lemma_normal_plan_asks_in_order(plan: LightmountNormalStyleInvalidationDependencyPlan)
    ensures
        ({
            let drop = NormalDependencyPlanAction::DropRelativeDependencies;
            let empty = NormalDependencyPlanAction::ExactEmptyResult;
            &&& plan.drop_relative_dependencies && plan.empty_result_is_exact ==> plan.actions()
                == seq![drop, empty]
            &&& plan.drop_relative_dependencies && !plan.empty_result_is_exact ==> plan.actions()
                == seq![drop]
            &&& !plan.drop_relative_dependencies && plan.empty_result_is_exact ==> plan.actions()
                == seq![empty]
            &&& !plan.drop_relative_dependencies && !plan.empty_result_is_exact
                ==> plan.actions().len() == 0
        }),
{
    let drop = NormalDependencyPlanAction::DropRelativeDependencies;
    let empty = NormalDependencyPlanAction::ExactEmptyResult;
    assert(seq![drop] + seq![empty] =~= seq![drop, empty]);
    assert(seq![drop] + seq![] =~= seq![drop]);
    assert(seq![] + seq![empty] =~= seq![empty]);
}

/// A relative query affects the roots that the invalidator reported and those
/// that snapshots gave. It is exact where nothing matched, where something was
/// affected, or where all that matched was relative and snapshots verified it.
pub proof fn lemma_relative_results_have_both_roots<Root>(
    direct: Seq<Root>,
    roots: LightmountSnapshotRelativeDependencyRoots<Root>,
    matched: usize,
    relative: usize,
    root: Root,
)
    ensures
        ({
            let result = super::query_result::relative_query_result(
                direct,
                roots,
                matched,
                relative,
            );
            &&& result.roots.contains(root) <==> direct.contains(root) || roots.roots@.contains(
                root,
            )
            &&& result.roots.no_duplicates()
            &&& result.matched == matched
            &&& result.reasons.len() == 0
            &&& result.exact <==> {
                ||| matched == 0
                ||| direct.len() > 0
                ||| roots.roots@.len() > 0
                ||| relative > 0 && roots.verified_dependency_count == relative && matched
                    == relative
            }
        }),
{
    let empty = Seq::<Root>::empty();
    let once = super::ordered_set::extend_unique(empty, direct);
    let all = super::ordered_set::extend_unique(once, roots.roots@);
    super::ordered_set::lemma_extend_unique_contains(empty, direct, root);
    super::ordered_set::lemma_extend_unique_contains(once, roots.roots@, root);
    super::ordered_set::lemma_extend_unique_no_duplicates(empty, direct);
    super::ordered_set::lemma_extend_unique_no_duplicates(once, roots.roots@);
    if direct.len() > 0 {
        super::ordered_set::lemma_extend_unique_contains(empty, direct, direct[0]);
        super::ordered_set::lemma_extend_unique_contains(once, roots.roots@, direct[0]);
        assert(direct.contains(direct[0]));
        assert(all.contains(direct[0]));
    }
    if roots.roots@.len() > 0 {
        super::ordered_set::lemma_extend_unique_contains(once, roots.roots@, roots.roots@[0]);
        assert(roots.roots@.contains(roots.roots@[0]));
        assert(all.contains(roots.roots@[0]));
    }
    if all.len() > 0 {
        super::ordered_set::lemma_extend_unique_contains(empty, direct, all[0]);
        super::ordered_set::lemma_extend_unique_contains(once, roots.roots@, all[0]);
        assert(all.contains(all[0]));
    }
}

/// The more conservative of two kinds of fallback wins a merge: missing roots
/// over a source scope, that over roots of the source, and those over roots of
/// the context. Retained queries win over all.
pub proof fn lemma_conservative_kinds_win(
    one: LightmountRetainedSourceStyleInvalidationKind,
    two: LightmountRetainedSourceStyleInvalidationKind,
)
    ensures
        ({
            let merged = one.merge(two);
            let context_only = one is ContextFallback && two is ContextFallback;
            &&& one is RetainedQueries || two is RetainedQueries <==> merged is RetainedQueries
            &&& !(merged is RetainedQueries) ==> (one is MissingFallbackRoots
                || two is MissingFallbackRoots <==> merged is MissingFallbackRoots)
            &&& !(merged is RetainedQueries) && !(merged is MissingFallbackRoots) ==> (
            one is SourceScopeFallback || two is SourceScopeFallback
                <==> merged is SourceScopeFallback)
            &&& merged is ContextFallback <==> context_only
            &&& merged is FallbackOnly ==> one is FallbackOnly || two is FallbackOnly
        }),
        super::retained_kind::merge_fallback_kinds(Some(one), Some(two)) == Some(one.merge(two)),
        super::retained_kind::merge_fallback_kinds(Some(one), None) == Some(one),
        super::retained_kind::merge_fallback_kinds(None, Some(two)) == Some(two),
        super::retained_kind::merge_fallback_kinds(None, None) is None,
{
}

/// What a retained kind says of a source result: only retained queries carry
/// queries, only roots of the source and of its scope can be a fallback-root
/// target, a result has the kind's own name unless it is a plain fallback with
/// reasons, and missing roots are reported whatever their number.
pub proof fn lemma_kinds_describe_results(
    kind: LightmountRetainedSourceStyleInvalidationKind,
    has_reasons: bool,
    count: nat,
)
    ensures
        kind.has_queries() <==> kind is RetainedQueries,
        kind.targets_fallback_root() <==> kind is FallbackOnly || kind is SourceScopeFallback,
        ({
            let result = kind.result_kind(has_reasons);
            &&& result is ContextFallback <==> kind is ContextFallback
            &&& result is SourceScopeFallback <==> kind is SourceScopeFallback
            &&& result is MissingFallbackRoots <==> kind is MissingFallbackRoots
            &&& result is FallbackOnly <==> kind is FallbackOnly && !has_reasons
            &&& result is Fallback <==> kind is RetainedQueries || kind is FallbackOnly
                && has_reasons
        }),
        kind.availability(count) == Some(LightmountSourceFallbackRootAvailability::Missing)
            <==> kind is MissingFallbackRoots,
        !(kind is MissingFallbackRoots) && count == 0 ==> kind.availability(count) is None,
        !(kind is MissingFallbackRoots) && count > 0 ==> (kind.availability(count) matches Some(
            LightmountSourceFallbackRootAvailability::Available { root_count },
        ) && root_count == count as usize),
        LightmountSourceFallbackRootAvailability::of_count(count) is None <==> count == 0,
        kind.implied_reason() == Some(
            LightmountSourceInvalidationFallbackReason::SourceScopeFallback,
        ) <==> kind is SourceScopeFallback,
        kind.implied_reason() == Some(
            LightmountSourceInvalidationFallbackReason::MissingFallbackRoots,
        ) <==> kind is MissingFallbackRoots,
        kind.implied_reason() is Some ==> kind is SourceScopeFallback
            || kind is MissingFallbackRoots,
{
}

/// A result is counted once under the category of its kind: unavailable where
/// the retained system or its data was missing, source scope, or context; all
/// others are not counted. Only missing roots are counted as missing.
pub proof fn lemma_results_are_counted_by_kind(
    kind: LightmountSourceStyleInvalidationSourceResultKind,
    availability: LightmountSourceFallbackRootAvailability,
)
    ensures
        ({
            let counted = kind.summary_categories();
            &&& kind is MissingRetainedStyleSystem || kind is MissingRetainedCascadeData
                <==> counted == seq![SourceResultCategory::RetainedSourceUnavailable]
            &&& kind is SourceScopeFallback <==> counted == seq![
                SourceResultCategory::SourceScopeFallback,
            ]
            &&& kind is ContextFallback <==> counted == seq![SourceResultCategory::ContextFallback]
            &&& kind is Exact || kind is FallbackOnly || kind is MissingFallbackRoots
                || kind is Fallback <==> counted.len() == 0
        }),
        availability.is_missing() <==> availability is Missing,
{
    let one = seq![SourceResultCategory::RetainedSourceUnavailable];
    let two = seq![SourceResultCategory::SourceScopeFallback];
    let three = seq![SourceResultCategory::ContextFallback];
    assert(one[0] != two[0] && one[0] != three[0] && two[0] != three[0]);
}

/// A row is exact where it claims to be, is of the exact kind and gives no
/// reasons. What its parts hand on is the row's own, and roots are for exact
/// cleanup only in an exact row.
pub proof fn lemma_parts_of_rows<Root>(row: SourceResultView<Root>, retain: bool)
    ensures
        ({
            let parts = row.parts(retain);
            let exact = row.exact && row.kind is Exact && row.reasons.len() == 0;
            &&& parts.source_index == row.source_index
            &&& parts.roots == row.roots
            &&& parts.root_kind is Exact <==> exact
            &&& parts.record.cleanup.requires_fallback <==> !exact
            &&& parts.record.cleanup.context_reasons == row.reasons
            &&& parts.record.cleanup.clear_all_reasons == row.clear_all_reasons()
            &&& parts.record.cleanup.include_context <==> row.kind is MissingRetainedStyleSystem
                || row.kind is MissingRetainedCascadeData
            &&& parts.record.diagnostics is Some <==> retain
            &&& parts.record.diagnostics matches Some(facts) ==> {
                &&& facts.kind == row.kind
                &&& facts.exact == row.exact
                &&& facts.empty_result_is_exact == row.empty_result_is_exact
                &&& facts.matched == row.matched
                &&& facts.reasons == row.reasons
                &&& facts.availability == row.availability
                &&& facts.root_count == row.roots.len()
            }
        }),
{
}

/// Everything is cleared where needed roots are missing, where a row has reasons
/// and no roots, and where it has no roots and is not an exact no-op; for the
/// row's reasons and the lack of roots, or else as an inexact empty result. A
/// row with roots that are not missing clears nothing more than those.
pub proof fn lemma_rows_clear_all_for_their_reasons<Root>(
    row: SourceResultView<Root>,
    reason: LightmountSourceInvalidationFallbackReason,
)
    ensures
        ({
            let missing = row.availability == Some(
                LightmountSourceFallbackRootAvailability::Missing,
            );
            let exact = row.exact && row.kind is Exact && row.reasons.len() == 0;
            let cleared = row.clear_all_reasons();
            &&& missing || row.roots.len() == 0 && row.reasons.len() > 0 ==> (cleared.contains(
                reason,
            ) <==> row.reasons.contains(reason) || missing && reason
                == LightmountSourceInvalidationFallbackReason::MissingFallbackRoots)
            &&& !missing && row.roots.len() == 0 && row.reasons.len() == 0 && !(exact
                && row.empty_result_is_exact) ==> cleared == seq![
                LightmountSourceInvalidationFallbackReason::InexactEmptyResult,
            ]
            &&& !missing && row.roots.len() > 0 ==> cleared.len() == 0
            &&& !missing && exact && row.empty_result_is_exact ==> cleared.len() == 0
        }),
{
    let missing = LightmountSourceInvalidationFallbackReason::MissingFallbackRoots;
    let empty = Seq::<LightmountSourceInvalidationFallbackReason>::empty();
    let reasons = super::ordered_set::extend_unique(empty, row.reasons);
    super::ordered_set::lemma_extend_unique_contains(empty, row.reasons, reason);
    super::lists::lemma_contains_push(reasons, missing, reason);
}

/// The row of a fallback-only source has the source's roots and reasons under
/// the result kind of its fallback.
pub proof fn lemma_fallback_only_rows<Root>(
    source_index: usize,
    kind: LightmountRetainedSourceStyleInvalidationKind,
    reasons: Seq<LightmountSourceInvalidationFallbackReason>,
    roots: Seq<Root>,
)
    ensures
        ({
            let row = super::results::fallback_only_row(source_index, kind, reasons, roots);
            &&& row.source_index == source_index
            &&& row.kind == kind.result_kind(reasons.len() > 0)
            &&& !row.exact
            &&& row.empty_result_is_exact <==> roots.len() == 0
            &&& row.matched == 0
            &&& row.reasons == reasons
            &&& row.availability == kind.availability(roots.len())
            &&& row.roots == roots
        }),
{
}

/// The row of a source that could not be queried has all its roots, reasoned
/// ones first, says why it could not be queried beside all other reasons, and
/// is never an exact no-op.
pub proof fn lemma_unavailable_rows<Root>(
    source_index: usize,
    why: LightmountSourceInvalidationFallbackReason,
    reasons: Seq<LightmountSourceInvalidationFallbackReason>,
    reasoned_roots: Seq<Root>,
    safety_roots: Seq<Root>,
    reason: LightmountSourceInvalidationFallbackReason,
    root: Root,
)
    ensures
        ({
            let row = super::results::unavailable_row(
                source_index,
                why,
                reasons,
                reasoned_roots,
                safety_roots,
            );
            &&& row.source_index == source_index
            &&& row.kind is MissingRetainedStyleSystem <==> why is MissingRetainedStyleSystem
            &&& row.kind is MissingRetainedCascadeData <==> why is MissingRetainedCascadeData
            &&& row.kind is Fallback <==> !(why is MissingRetainedStyleSystem) && !(
            why is MissingRetainedCascadeData)
            &&& !row.exact && !row.empty_result_is_exact && row.matched == 0
            &&& row.reasons.contains(reason) <==> reasons.contains(reason) || reason == why
            &&& reasons.is_prefix_of(row.reasons)
            &&& row.roots.contains(root) <==> reasoned_roots.contains(root)
                || safety_roots.contains(root)
            &&& reasoned_roots.is_prefix_of(row.roots)
            &&& row.availability == if row.roots.len() > 0 {
                Some(
                    LightmountSourceFallbackRootAvailability::Available {
                        root_count: row.roots.len() as usize,
                    },
                )
            } else {
                None
            }
        }),
{
    super::lists::lemma_contains_push(reasons, why, reason);
    super::ordered_set::lemma_extend_unique_contains(reasoned_roots, safety_roots, root);
    super::ordered_set::lemma_extend_unique_prefix(reasoned_roots, safety_roots);
}

/// The row of a queried source has the affected roots, followed by the planned
/// ones where planning had reasons, and the reasons of both, planned ones first.
/// What the queries say of the fallback goes before what was planned.
pub proof fn lemma_planned_rows_join_queries_and_plan<Root>(
    source_index: usize,
    result: SourceInvalidationView<Root>,
    fallback_kind: Option<LightmountRetainedSourceStyleInvalidationKind>,
    reasoned_roots: Seq<Root>,
    reasons: Seq<LightmountSourceInvalidationFallbackReason>,
    reason: LightmountSourceInvalidationFallbackReason,
    root: Root,
)
    ensures
        ({
            let row = super::results::planned_row(
                source_index,
                result,
                fallback_kind,
                reasoned_roots,
                reasons,
            );
            let exact = reasons.len() == 0 && result.reasons.len() == 0;
            &&& row.source_index == source_index
            &&& row.empty_result_is_exact == result.exact
            &&& row.matched == result.matched as usize
            &&& row.roots.contains(root) <==> result.roots.contains(root) || reasons.len() > 0
                && reasoned_roots.contains(root)
            &&& result.roots.is_prefix_of(row.roots)
            &&& row.reasons.contains(reason) <==> reasons.contains(reason)
                || result.reasons.contains(reason)
            &&& reasons.is_prefix_of(row.reasons)
            &&& row.exact <==> exact
            &&& row.kind is Exact ==> exact || result.kind == Some(
                LightmountSourceStyleInvalidationSourceResultKind::Exact,
            )
            &&& exact ==> row.kind is Exact && row.availability is None && row.reasons.len() == 0
            &&& !exact ==> {
                &&& result.kind matches Some(kind) ==> row.kind == kind
                &&& result.kind is None ==> (fallback_kind matches Some(kind) ==> row.kind
                    == kind.result_kind(true))
                &&& result.kind is None && fallback_kind is None ==> row.kind is Fallback
                &&& result.availability is Some ==> row.availability == result.availability
                &&& result.availability is None ==> (fallback_kind matches Some(kind)
                    ==> row.availability == kind.availability(reasoned_roots.len()))
                &&& result.availability is None && fallback_kind is None
                    ==> row.availability is None
            }
        }),
{
    super::ordered_set::lemma_extend_unique_contains(reasons, result.reasons, reason);
    super::ordered_set::lemma_extend_unique_prefix(reasons, result.reasons);
    super::ordered_set::lemma_extend_unique_contains(result.roots, reasoned_roots, root);
    super::ordered_set::lemma_extend_unique_prefix(result.roots, reasoned_roots);
    if result.reasons.len() > 0 {
        super::ordered_set::lemma_extend_unique_contains(
            reasons,
            result.reasons,
            result.reasons[0],
        );
        assert(result.reasons.contains(result.reasons[0]));
    }
    if reasons.len() == 0 && result.reasons.len() == 0 {
        assert(super::ordered_set::extend_unique(reasons, result.reasons) =~= reasons);
    }
}

/// The row of an exact result has its roots and counts, and no reasons.
pub proof fn lemma_exact_rows<Root>(
    source_index: usize,
    roots: Seq<Root>,
    empty_result_is_exact: bool,
    matched: usize,
)
    ensures
        ({
            let row = SourceResultView::exact_row(
                source_index,
                roots,
                empty_result_is_exact,
                matched,
            );
            &&& row.source_index == source_index && row.kind is Exact && row.exact
            &&& row.empty_result_is_exact == empty_result_is_exact && row.matched == matched
            &&& row.reasons.len() == 0 && row.availability is None && row.roots == roots
        }),
{
}

} // verus!
