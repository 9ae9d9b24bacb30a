//! Query results and the table of source results.

use lightmount_style::lightmount_invalidation::{
    LightmountInvalidationResult, LightmountInvalidationResultBuilder,
    LightmountInvalidationSourceResultsSink, LightmountSnapshotRelativeDependencyRoots,
    LightmountSourceAffectedRootsCleanup, LightmountSourceAffectedRootsCleanupSink,
    LightmountSourceFallbackRootAvailability, LightmountSourceFallbackRootAvailabilitySummary,
    LightmountSourceFallbackRootAvailabilitySummarySink, LightmountSourceInvalidationFallbackReason,
    LightmountSourceStyleInvalidationQueryResult,
    LightmountSourceStyleInvalidationQueryResultBuilder, LightmountSourceStyleInvalidationResult,
    LightmountSourceStyleInvalidationResultAccumulator,
    LightmountSourceStyleInvalidationResultParts, LightmountSourceStyleInvalidationResultPartsSink,
    LightmountSourceStyleInvalidationResultSink, LightmountSourceStyleInvalidationSourceResult,
    LightmountSourceStyleInvalidationSourceResultKind,
    LightmountSourceStyleInvalidationSourceResultKindSummary,
    LightmountSourceStyleInvalidationSourceResultKindSummarySink,
    LightmountSourceStyleInvalidationSourceResultParts,
    LightmountSourceStyleInvalidationSourceResultPartsSink,
    LightmountSourceStyleInvalidationSourceResultSink,
    LightmountSourceStyleInvalidationTargetResultCleanupFacts,
    LightmountSourceStyleInvalidationTargetResultCleanupFactsPartsSink,
    LightmountSourceStyleInvalidationTargetResultCleanupFactsSink,
    LightmountSourceStyleInvalidationTargetResultDiagnosticFacts,
    LightmountSourceStyleInvalidationTargetResultDiagnosticFactsPartsSink,
    LightmountSourceStyleInvalidationTargetResultDiagnosticFactsSink,
    LightmountSourceStyleInvalidationTargetResultRecord, LightmountStyleInvalidationQuery,
    lightmount_merge_source_style_invalidation_query_results,
    lightmount_normal_style_invalidation_dependency_plan,
    lightmount_relative_style_invalidation_dependency_plan,
    lightmount_relative_style_invalidation_query_result,
};
use lightmount_style::lightmount_invalidation::ordered_set::{
    OrderedSet,
};

#[derive(Default)]
struct LightmountSourceResultKindSummaryForTest {
    retained_source_unavailable_target_count: usize,
    source_scope_fallback_target_count: usize,
    context_fallback_target_count: usize,
}

impl LightmountSourceStyleInvalidationSourceResultKindSummarySink
    for LightmountSourceResultKindSummaryForTest
{
    fn record_retained_source_unavailable_target(&mut self) {
        self.retained_source_unavailable_target_count += 1;
    }

    fn record_source_scope_fallback_target(&mut self) {
        self.source_scope_fallback_target_count += 1;
    }

    fn record_context_fallback_target(&mut self) {
        self.context_fallback_target_count += 1;
    }
}

#[test]
fn lightmount_source_result_kind_records_summary_categories() {
    let mut summary = LightmountSourceResultKindSummaryForTest::default();

    LightmountSourceStyleInvalidationSourceResultKind::Exact.record_summary_into(&mut summary);
    LightmountSourceStyleInvalidationSourceResultKind::MissingRetainedStyleSystem
        .record_summary_into(&mut summary);
    LightmountSourceStyleInvalidationSourceResultKind::MissingRetainedCascadeData
        .record_summary_into(&mut summary);
    LightmountSourceStyleInvalidationSourceResultKind::SourceScopeFallback
        .record_summary_into(&mut summary);
    LightmountSourceStyleInvalidationSourceResultKind::ContextFallback
        .record_summary_into(&mut summary);

    assert_eq!(summary.retained_source_unavailable_target_count, 2);
    assert_eq!(summary.source_scope_fallback_target_count, 1);
    assert_eq!(summary.context_fallback_target_count, 1);
}

#[derive(Default)]
struct LightmountFallbackRootAvailabilitySummaryForTest {
    missing_fallback_roots_target_count: usize,
}

impl LightmountSourceFallbackRootAvailabilitySummarySink
    for LightmountFallbackRootAvailabilitySummaryForTest
{
    fn record_missing_fallback_roots_target(&mut self) {
        self.missing_fallback_roots_target_count += 1;
    }
}

#[test]
fn lightmount_fallback_root_availability_records_missing_summary() {
    let mut summary = LightmountFallbackRootAvailabilitySummaryForTest::default();

    LightmountSourceFallbackRootAvailability::Available { root_count: 1 }
        .record_summary_into(&mut summary);
    LightmountSourceFallbackRootAvailability::Missing.record_summary_into(&mut summary);

    assert_eq!(summary.missing_fallback_roots_target_count, 1);
}

#[derive(Default)]
struct LightmountSourceStyleInvalidationResultPartsForTest {
    affected_roots: Vec<u32>,
    fallback_reasons: OrderedSet<LightmountSourceInvalidationFallbackReason>,
    fallback_kind: Option<LightmountSourceStyleInvalidationSourceResultKind>,
    fallback_root_availability: Option<LightmountSourceFallbackRootAvailability>,
    empty_result_is_exact: bool,
    matched_dependency_count: usize,
}

impl LightmountSourceStyleInvalidationResultSink<u32>
    for LightmountSourceStyleInvalidationResultPartsForTest
{
    fn set_source_style_invalidation_result(
        &mut self,
        parts: LightmountSourceStyleInvalidationResultParts<u32>,
    ) {
        parts.drain_into(self);
    }
}

impl LightmountSourceStyleInvalidationResultPartsSink<u32>
    for LightmountSourceStyleInvalidationResultPartsForTest
{
    fn set_source_style_invalidation_result_parts(
        &mut self,
        affected_roots: Vec<u32>,
        fallback_reasons: OrderedSet<LightmountSourceInvalidationFallbackReason>,
        fallback_kind: Option<LightmountSourceStyleInvalidationSourceResultKind>,
        fallback_root_availability: Option<LightmountSourceFallbackRootAvailability>,
        empty_result_is_exact: bool,
        matched_dependency_count: usize,
    ) {
        self.affected_roots = affected_roots;
        self.fallback_reasons = fallback_reasons;
        self.fallback_kind = fallback_kind;
        self.fallback_root_availability = fallback_root_availability;
        self.empty_result_is_exact = empty_result_is_exact;
        self.matched_dependency_count = matched_dependency_count;
    }
}

fn source_style_invalidation_result_parts_for_test(
    result: LightmountSourceStyleInvalidationResult<u32>,
) -> LightmountSourceStyleInvalidationResultPartsForTest {
    let mut sink = LightmountSourceStyleInvalidationResultPartsForTest::default();
    result.drain_into(&mut sink);
    sink
}

#[test]
fn lightmount_source_result_accumulator_reports_missing_fallback_roots() {
    let mut accumulated = LightmountSourceStyleInvalidationResultAccumulator::new();
    accumulated.merge_query_result(
        Vec::<u32>::new(),
        true,
        1,
        OrderedSet::from_slice(&[LightmountSourceInvalidationFallbackReason::FullSelector]),
    );

    let result = source_style_invalidation_result_parts_for_test(
        accumulated.into_source_result(&OrderedSet::new()),
    );

    assert!(result.affected_roots.is_empty());
    assert_eq!(
        result.fallback_kind,
        Some(LightmountSourceStyleInvalidationSourceResultKind::MissingFallbackRoots)
    );
    assert_eq!(
        result.fallback_root_availability,
        Some(LightmountSourceFallbackRootAvailability::Missing)
    );
    assert!(result.empty_result_is_exact);
    assert_eq!(result.matched_dependency_count, 1);
    assert_eq!(
        result.fallback_reasons,
        OrderedSet::from_slice(&[
            LightmountSourceInvalidationFallbackReason::FullSelector,
            LightmountSourceInvalidationFallbackReason::MissingFallbackRoots,
        ])
    );
}

#[test]
fn lightmount_query_result_merge_preserves_ordered_roots_and_reasons() {
    let first = LightmountSourceStyleInvalidationQueryResult::from_parts(
        vec![1, 2],
        true,
        2,
        OrderedSet::from_slice(&[LightmountSourceInvalidationFallbackReason::FullSelector]),
    );
    let second = LightmountSourceStyleInvalidationQueryResult::from_parts(
        vec![2, 3],
        false,
        1,
        OrderedSet::from_slice(&[
            LightmountSourceInvalidationFallbackReason::FullSelector,
            LightmountSourceInvalidationFallbackReason::RelativeAnySelector,
        ]),
    );

    let merged = lightmount_merge_source_style_invalidation_query_results(first, second);
    let LightmountSourceStyleInvalidationQueryResult {
        affected_roots,
        empty_result_is_exact,
        matched_dependency_count,
        fallback_reasons,
    } = merged;

    assert_eq!(affected_roots, vec![1, 2, 3]);
    assert!(!empty_result_is_exact);
    assert_eq!(matched_dependency_count, 3);
    assert_eq!(
        fallback_reasons,
        OrderedSet::from_slice(&[
            LightmountSourceInvalidationFallbackReason::FullSelector,
            LightmountSourceInvalidationFallbackReason::RelativeAnySelector,
        ])
    );
}

#[test]
fn lightmount_query_result_builder_preserves_roots_exactness_and_reasons() {
    let mut builder = LightmountSourceStyleInvalidationQueryResultBuilder::new();
    builder.note_affected_root(1);
    builder.note_affected_root(2);
    builder.note_affected_root(1);
    builder.note_empty_result_supported(true);
    builder.note_empty_result_supported(false);
    builder.note_fallback_reason(LightmountSourceInvalidationFallbackReason::FullSelector);
    builder.note_fallback_reason(LightmountSourceInvalidationFallbackReason::FullSelector);

    let result = builder.into_query_result(3);
    let LightmountSourceStyleInvalidationQueryResult {
        affected_roots,
        empty_result_is_exact,
        matched_dependency_count,
        fallback_reasons,
    } = result;

    assert_eq!(affected_roots, vec![1, 2]);
    assert!(!empty_result_is_exact);
    assert_eq!(matched_dependency_count, 3);
    assert_eq!(
        fallback_reasons,
        OrderedSet::from_slice(&[LightmountSourceInvalidationFallbackReason::FullSelector])
    );
}

#[test]
fn lightmount_query_result_drains_affected_roots() {
    let result = LightmountSourceStyleInvalidationQueryResult::from_parts(
        vec![1, 2, 1],
        true,
        2,
        OrderedSet::from_slice(&[LightmountSourceInvalidationFallbackReason::FullSelector]),
    );
    let mut roots = OrderedSet::new();

    result.drain_affected_roots_into(&mut roots);

    assert_eq!(roots, OrderedSet::from_slice(&[1, 2]));
}

#[test]
fn lightmount_snapshot_relative_roots_classify_empty_exactness() {
    let verified = LightmountSnapshotRelativeDependencyRoots::<u32>::new(Vec::new(), 2);

    assert!(verified.verified_all_dependencies(2, 2));
    assert!(verified.verified_all_collected_dependencies(2));
    assert!(verified.empty_result_is_exact(2, 2, false));
    assert!(!verified.empty_result_is_exact(3, 2, false));
    assert!(verified.empty_result_is_exact(0, 2, false));

    let rooted = LightmountSnapshotRelativeDependencyRoots::new(vec![1], 0);
    assert_eq!(rooted.roots(), &[1]);
    assert!(rooted.empty_result_is_exact(1, 2, true));
}

#[test]
fn lightmount_normal_invalidation_dependency_plan_classifies_relative_filtering() {
    let no_snapshot_roots = LightmountSnapshotRelativeDependencyRoots::<u32>::default();

    let custom_state = lightmount_normal_style_invalidation_dependency_plan(
        LightmountStyleInvalidationQuery::CustomState("expanded"),
        1,
        1,
        &no_snapshot_roots,
    );
    assert!(custom_state.should_drop_relative_dependencies());
    assert!(custom_state.empty_result_is_exact());

    let verified_relative_roots =
        LightmountSnapshotRelativeDependencyRoots::<u32>::new(Vec::new(), 2);
    let mixed_dependencies = lightmount_normal_style_invalidation_dependency_plan(
        LightmountStyleInvalidationQuery::Class("active"),
        3,
        2,
        &verified_relative_roots,
    );
    assert!(mixed_dependencies.should_drop_relative_dependencies());
    assert!(!mixed_dependencies.empty_result_is_exact());

    let rooted_snapshot = LightmountSnapshotRelativeDependencyRoots::new(vec![1_u32], 1);
    let rooted_plan = lightmount_normal_style_invalidation_dependency_plan(
        LightmountStyleInvalidationQuery::Class("active"),
        1,
        1,
        &rooted_snapshot,
    );
    assert!(rooted_plan.should_drop_relative_dependencies());
    assert!(!rooted_plan.empty_result_is_exact());

    let unsupported_relative = lightmount_normal_style_invalidation_dependency_plan(
        LightmountStyleInvalidationQuery::Class("active"),
        1,
        1,
        &no_snapshot_roots,
    );
    assert!(!unsupported_relative.should_drop_relative_dependencies());
    assert!(!unsupported_relative.empty_result_is_exact());
}

#[test]
fn lightmount_relative_invalidation_dependency_plan_classifies_empty_exactness() {
    let no_snapshot_roots = LightmountSnapshotRelativeDependencyRoots::<u32>::default();

    let no_dependencies =
        lightmount_relative_style_invalidation_dependency_plan(0, 0, false, &no_snapshot_roots);
    assert!(no_dependencies.empty_result_is_exact());

    let affected_roots =
        lightmount_relative_style_invalidation_dependency_plan(2, 2, true, &no_snapshot_roots);
    assert!(affected_roots.empty_result_is_exact());

    let verified_snapshot_dependencies =
        LightmountSnapshotRelativeDependencyRoots::<u32>::new(Vec::new(), 2);
    let verified = lightmount_relative_style_invalidation_dependency_plan(
        2,
        2,
        false,
        &verified_snapshot_dependencies,
    );
    assert!(verified.empty_result_is_exact());

    let unsupported_relative = lightmount_relative_style_invalidation_dependency_plan(
        2,
        1,
        false,
        &verified_snapshot_dependencies,
    );
    assert!(!unsupported_relative.empty_result_is_exact());
}

#[test]
fn lightmount_relative_invalidation_query_result_merges_direct_and_snapshot_roots() {
    let snapshot_roots = LightmountSnapshotRelativeDependencyRoots::new(vec![2_u32, 3], 1);

    let result =
        lightmount_relative_style_invalidation_query_result(&[1, 2], &snapshot_roots, 2, 1);
    let LightmountSourceStyleInvalidationQueryResult {
        affected_roots,
        empty_result_is_exact,
        matched_dependency_count,
        fallback_reasons,
    } = result;

    assert_eq!(affected_roots, vec![1, 2, 3]);
    assert!(empty_result_is_exact);
    assert_eq!(matched_dependency_count, 2);
    assert!(fallback_reasons.is_empty());

    let no_snapshot_roots = LightmountSnapshotRelativeDependencyRoots::<u32>::default();
    let unsupported_empty =
        lightmount_relative_style_invalidation_query_result(&[], &no_snapshot_roots, 2, 1);
    assert!(!unsupported_empty.empty_result_is_exact);

    let no_dependencies =
        lightmount_relative_style_invalidation_query_result(&[], &no_snapshot_roots, 0, 0);
    assert!(no_dependencies.empty_result_is_exact);
}

#[test]
fn lightmount_source_result_accumulator_consumes_typed_query_result() {
    let mut accumulated = LightmountSourceStyleInvalidationResultAccumulator::new();
    accumulated.merge_invalidation_query_result(
        LightmountSourceStyleInvalidationQueryResult::from_parts(
            vec![1],
            true,
            1,
            OrderedSet::from_slice(&[LightmountSourceInvalidationFallbackReason::FullSelector]),
        ),
    );

    let result = source_style_invalidation_result_parts_for_test(
        accumulated.into_source_result(&OrderedSet::from_slice(&[2])),
    );

    assert_eq!(result.affected_roots, vec![2]);
    assert_eq!(
        result.fallback_kind,
        Some(LightmountSourceStyleInvalidationSourceResultKind::Fallback)
    );
    assert_eq!(
        result.fallback_root_availability,
        Some(LightmountSourceFallbackRootAvailability::Available { root_count: 1 })
    );
    assert!(result.empty_result_is_exact);
    assert_eq!(result.matched_dependency_count, 1);
    assert_eq!(
        result.fallback_reasons,
        OrderedSet::from_slice(&[LightmountSourceInvalidationFallbackReason::FullSelector])
    );
}

#[test]
fn lightmount_source_result_accumulator_uses_exact_safety_roots_for_fallback() {
    let mut accumulated = LightmountSourceStyleInvalidationResultAccumulator::new();
    accumulated.merge_query_result(
        vec![1],
        true,
        1,
        OrderedSet::from_slice(&[LightmountSourceInvalidationFallbackReason::FullSelector]),
    );

    let result = source_style_invalidation_result_parts_for_test(
        accumulated.into_source_result(&OrderedSet::from_slice(&[2])),
    );

    assert_eq!(result.affected_roots, vec![2]);
    assert_eq!(
        result.fallback_kind,
        Some(LightmountSourceStyleInvalidationSourceResultKind::Fallback)
    );
    assert_eq!(
        result.fallback_root_availability,
        Some(LightmountSourceFallbackRootAvailability::Available { root_count: 1 })
    );
    assert_eq!(
        result.fallback_reasons,
        OrderedSet::from_slice(&[LightmountSourceInvalidationFallbackReason::FullSelector])
    );
}

#[test]
fn lightmount_source_result_accumulator_converts_empty_inexact_result_to_reason() {
    let mut accumulated = LightmountSourceStyleInvalidationResultAccumulator::new();
    accumulated.merge_query_result(Vec::<u32>::new(), true, 0, OrderedSet::new());

    let result = source_style_invalidation_result_parts_for_test(
        accumulated.into_source_result(&OrderedSet::from_slice(&[1])),
    );

    assert_eq!(result.affected_roots, vec![1]);
    assert_eq!(
        result.fallback_kind,
        Some(LightmountSourceStyleInvalidationSourceResultKind::Fallback)
    );
    assert_eq!(
        result.fallback_reasons,
        OrderedSet::from_slice(&[LightmountSourceInvalidationFallbackReason::InexactEmptyResult])
    );
}

#[derive(Default)]
struct LightmountSourceResultDrainForTest {
    source_result_count: Option<usize>,
    source_index: Option<usize>,
    exact_roots: Vec<u32>,
    source_fallback_roots: Vec<u32>,
    diagnostic_kind: Option<LightmountSourceStyleInvalidationSourceResultKind>,
    diagnostic_fallback_reasons: Vec<LightmountSourceInvalidationFallbackReason>,
    diagnostic_fallback_root_availability: Option<LightmountSourceFallbackRootAvailability>,
    cleanup_clear_all_reasons: Vec<LightmountSourceInvalidationFallbackReason>,
    cleanup_includes_fallback_context_for_clear_all: bool,
}

impl LightmountInvalidationSourceResultsSink<u32> for LightmountSourceResultDrainForTest {
    fn record_lightmount_invalidation_source_result_count(&mut self, count: usize) {
        self.source_result_count = Some(count);
    }

    fn record_lightmount_invalidation_source_result(
        &mut self,
        result: LightmountSourceStyleInvalidationSourceResult<u32>,
    ) {
        result.drain_into(self);
    }
}

impl LightmountSourceStyleInvalidationSourceResultSink<u32> for LightmountSourceResultDrainForTest {
    fn record_source_style_invalidation_source_result(
        &mut self,
        parts: LightmountSourceStyleInvalidationSourceResultParts<u32>,
    ) {
        parts.drain_into(self);
    }
}

impl LightmountSourceStyleInvalidationSourceResultPartsSink<u32>
    for LightmountSourceResultDrainForTest
{
    fn record_source_style_invalidation_source_result_parts(
        &mut self,
        source_index: usize,
        affected_roots: LightmountSourceAffectedRootsCleanup<u32>,
        target_result_record: LightmountSourceStyleInvalidationTargetResultRecord,
    ) {
        self.source_index = Some(source_index);
        affected_roots.drain_into(self);
        if let Some(diagnostic_facts) = target_result_record.drain_cleanup_into(self) {
            diagnostic_facts.drain_into(self);
        }
    }
}

impl LightmountSourceAffectedRootsCleanupSink<u32> for LightmountSourceResultDrainForTest {
    fn extend_exact_affected_roots(&mut self, roots: &[u32]) {
        self.exact_roots.extend(roots.to_vec());
    }

    fn extend_source_fallback_roots(&mut self, roots: &[u32]) {
        self.source_fallback_roots.extend(roots.to_vec());
    }
}

impl LightmountSourceStyleInvalidationTargetResultCleanupFactsSink
    for LightmountSourceResultDrainForTest
{
    fn set_source_style_invalidation_target_result_cleanup_facts(
        &mut self,
        facts: LightmountSourceStyleInvalidationTargetResultCleanupFacts,
    ) {
        facts.drain_parts_into(self);
    }
}

impl LightmountSourceStyleInvalidationTargetResultCleanupFactsPartsSink
    for LightmountSourceResultDrainForTest
{
    fn set_source_style_invalidation_target_result_cleanup_fact_parts(
        &mut self,
        _fallback_context_reasons: Vec<LightmountSourceInvalidationFallbackReason>,
        clear_all_cleanup_reasons: Vec<LightmountSourceInvalidationFallbackReason>,
        include_fallback_context_for_clear_all: bool,
        _requires_fallback_handling: bool,
    ) {
        self.cleanup_clear_all_reasons = clear_all_cleanup_reasons;
        self.cleanup_includes_fallback_context_for_clear_all =
            include_fallback_context_for_clear_all;
    }
}

impl LightmountSourceStyleInvalidationTargetResultDiagnosticFactsSink
    for LightmountSourceResultDrainForTest
{
    fn set_source_style_invalidation_target_result_diagnostic_facts(
        &mut self,
        facts: LightmountSourceStyleInvalidationTargetResultDiagnosticFacts,
    ) {
        facts.drain_parts_into(self);
    }
}

impl LightmountSourceStyleInvalidationTargetResultDiagnosticFactsPartsSink
    for LightmountSourceResultDrainForTest
{
    fn set_source_style_invalidation_target_result_diagnostic_fact_parts(
        &mut self,
        kind: LightmountSourceStyleInvalidationSourceResultKind,
        _exact: bool,
        _empty_result_is_exact: bool,
        _matched_dependency_count: usize,
        fallback_reasons: Vec<LightmountSourceInvalidationFallbackReason>,
        fallback_root_availability: Option<LightmountSourceFallbackRootAvailability>,
        _affected_root_count: usize,
    ) {
        self.diagnostic_kind = Some(kind);
        self.diagnostic_fallback_reasons = fallback_reasons;
        self.diagnostic_fallback_root_availability = fallback_root_availability;
    }
}

#[test]
fn lightmount_source_result_drains_unavailable_retained_policy() {
    let result = LightmountSourceStyleInvalidationSourceResult::unavailable_retained_source(
        3,
        LightmountSourceInvalidationFallbackReason::MissingRetainedCascadeData,
        &OrderedSet::from_slice(&[LightmountSourceInvalidationFallbackReason::FullSelector]),
        &OrderedSet::from_slice(&[1]),
        &OrderedSet::from_slice(&[2]),
    );
    let mut sink = LightmountSourceResultDrainForTest::default();

    result.drain_into(&mut sink);

    assert_eq!(sink.source_index, Some(3));
    assert!(sink.exact_roots.is_empty());
    assert_eq!(sink.source_fallback_roots, vec![1, 2]);
    assert_eq!(
        sink.diagnostic_kind,
        Some(LightmountSourceStyleInvalidationSourceResultKind::MissingRetainedCascadeData)
    );
    assert_eq!(
        sink.diagnostic_fallback_reasons,
        vec![
            LightmountSourceInvalidationFallbackReason::FullSelector,
            LightmountSourceInvalidationFallbackReason::MissingRetainedCascadeData,
        ]
    );
    assert_eq!(
        sink.diagnostic_fallback_root_availability,
        Some(LightmountSourceFallbackRootAvailability::Available { root_count: 2 })
    );
    assert!(sink.cleanup_clear_all_reasons.is_empty());
    assert!(sink.cleanup_includes_fallback_context_for_clear_all);
}

#[test]
fn lightmount_source_result_drains_missing_roots_clear_all_policy() {
    let result = LightmountSourceStyleInvalidationSourceResult::fallback(
        0,
        LightmountSourceStyleInvalidationSourceResultKind::MissingFallbackRoots,
        false,
        1,
        vec![LightmountSourceInvalidationFallbackReason::FullSelector],
        Some(LightmountSourceFallbackRootAvailability::Missing),
        Vec::<u32>::new(),
    );
    let mut sink = LightmountSourceResultDrainForTest::default();

    result.drain_into(&mut sink);

    assert_eq!(
        sink.cleanup_clear_all_reasons,
        vec![
            LightmountSourceInvalidationFallbackReason::FullSelector,
            LightmountSourceInvalidationFallbackReason::MissingFallbackRoots,
        ]
    );
}

#[test]
fn lightmount_invalidation_result_drains_source_result_table() {
    let result = LightmountInvalidationResult::from_source_results(vec![
        LightmountSourceStyleInvalidationSourceResult::exact_result(0, vec![7], true, 1),
    ]);
    let mut sink = LightmountSourceResultDrainForTest::default();

    result.drain_source_results_into(&mut sink);

    assert_eq!(sink.source_result_count, Some(1));
    assert_eq!(sink.source_index, Some(0));
    assert_eq!(sink.exact_roots, vec![7]);
    assert!(sink.source_fallback_roots.is_empty());
}

#[test]
fn lightmount_invalidation_result_builder_builds_source_result_table() {
    let mut builder = LightmountInvalidationResultBuilder::new();
    builder.push_missing_retained_style_system_source(
        2,
        &OrderedSet::from_slice(&[LightmountSourceInvalidationFallbackReason::FullSelector]),
        &OrderedSet::from_slice(&[3]),
        &OrderedSet::from_slice(&[4]),
    );
    let result = builder.finish();
    let mut sink = LightmountSourceResultDrainForTest::default();

    result.drain_source_results_into(&mut sink);

    assert_eq!(sink.source_result_count, Some(1));
    assert_eq!(sink.source_index, Some(2));
    assert_eq!(sink.source_fallback_roots, vec![3, 4]);
    assert_eq!(
        sink.diagnostic_kind,
        Some(LightmountSourceStyleInvalidationSourceResultKind::MissingRetainedStyleSystem)
    );
    assert_eq!(
        sink.diagnostic_fallback_root_availability,
        Some(LightmountSourceFallbackRootAvailability::Available { root_count: 2 })
    );

    let mut builder = LightmountInvalidationResultBuilder::new();
    builder.push_missing_retained_cascade_data_source(
        5,
        &OrderedSet::new(),
        &OrderedSet::new(),
        &OrderedSet::from_slice(&[6]),
    );
    let result = builder.finish();
    let mut sink = LightmountSourceResultDrainForTest::default();

    result.drain_source_results_into(&mut sink);

    assert_eq!(sink.source_result_count, Some(1));
    assert_eq!(sink.source_index, Some(5));
    assert_eq!(sink.source_fallback_roots, vec![6]);
    assert_eq!(
        sink.diagnostic_kind,
        Some(LightmountSourceStyleInvalidationSourceResultKind::MissingRetainedCascadeData)
    );
}
