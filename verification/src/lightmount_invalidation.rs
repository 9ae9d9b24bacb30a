//! Selector invalidation summaries, queries and plans.

pub mod actions;
pub mod answer_laws;
pub mod batch_planner;
pub mod child_list;
pub mod coverage_laws;
pub mod dependency;
pub mod dependency_laws;
pub mod dependency_query;
pub mod dependency_summary;
pub mod element_state;
pub mod element_tree;
pub mod indexed;
pub mod invalidation_map;
pub mod lists;
pub mod mutation_laws;
pub mod mutation_policy;
pub mod ordered_set;
pub mod planned;
pub mod planner;
pub mod planner_laws;
pub mod planning_laws;
pub mod processor;
pub mod query;
pub mod query_result;
pub mod query_sets;
pub mod reasons;
pub mod relative;
pub mod request;
pub mod result_laws;
pub mod results;
pub mod retained_kind;
pub mod retained_source;
pub mod root_collection;
pub mod sibling_summary;
pub mod snapshot;
pub mod source_summary;
pub mod summary_laws;
pub mod text;
pub mod traversal_laws;
pub mod unique_roots;
pub mod view_laws;

pub use actions::{
    LightmountDependencyInvalidationAction, LightmountDependencyInvalidationActionSink,
    LightmountRelativeDependencyInvalidationAction,
    LightmountRelativeDependencyInvalidationActionSink, LightmountRetainedProcessorDependencyEffect,
    LightmountScopeDependencyInvalidationAction, LightmountScopeDependencyInvalidationActionSink,
};
pub use batch_planner::{
    LightmountSourceDependencyInvalidationBatchPlan,
    LightmountSourceDependencyInvalidationBatchPlanKind,
    LightmountSourceDependencyInvalidationBatchPlanSink,
    lightmount_source_dependency_invalidation_batch_plan,
};
pub use child_list::{
    LightmountChildListSiblingBoundaryKind, LightmountChildListSiblingBoundaryPlan,
    LightmountRetainedStyleChildListInvalidationQueries,
    LightmountRetainedStyleChildListInvalidationQueriesSink,
    LightmountRetainedStyleChildListInvalidationQuery,
    LightmountRetainedStyleChildListInvalidationQueryBuilder,
    lightmount_child_list_sibling_boundary_plan,
};
pub use dependency::{
    lightmount_dependencies_have_sibling_sensitive,
    lightmount_dependency_chain_contains_relative_dependency,
    lightmount_dependency_empty_result_supported_by_retained_processor,
    lightmount_dependency_fallback_reason_for_dependency,
    lightmount_dependency_has_nested_relative_dependency, lightmount_dependency_invalidation_action,
    lightmount_dependency_is_relative_selector, lightmount_dependency_is_sibling_sensitive,
    lightmount_dependency_supported_by_retained_processor, lightmount_relative_dependency_action,
    lightmount_relative_dependency_invalidation_action,
    lightmount_relative_selector_invalidation_fallback_reason,
    lightmount_retained_processor_dependency_effect,
    lightmount_scope_dependency_invalidation_action,
    lightmount_snapshot_relative_outer_dependency_supported,
};
pub use dependency_query::{
    LightmountDependencyContextRootFlags, LightmountDependencyContextRootFlagsSink,
    LightmountDependencyContextRootPlan, LightmountDependencyFallbackHandling,
    LightmountDependencyFallbackRootPolicy, LightmountDependencyInvalidationContextRoots,
    LightmountDependencyInvalidationContextRootsBuilder,
    LightmountDependencyInvalidationContextRootsPartsSink,
    LightmountDependencyInvalidationContextRootsSink, LightmountDependencyKind,
    LightmountDependencyQueryResult, lightmount_dependency_invalidation_context_roots,
};
pub use dependency_summary::{
    LightmountDependencyInvalidationSummary, lightmount_note_keyed_dependency,
};
pub use invalidation_map::{
    lightmount_collect_dependencies_from_additional_relative_invalidation_map,
    lightmount_collect_dependencies_from_invalidation_map,
    lightmount_collect_dependency_query_result,
    lightmount_collect_state_dependencies_from_selector_map, lightmount_collect_state_dependency,
    lightmount_collect_state_sibling_dependencies_from_selector_map,
    lightmount_collect_state_sibling_dependency,
    lightmount_dependency_query_result_for_dependencies,
    lightmount_dependency_summary_for_invalidation_map,
    lightmount_dependency_summary_for_relative_invalidation_map,
    lightmount_selector_map_has_sibling_dependency, lightmount_sibling_summary_for_invalidation_map,
    lightmount_sibling_summary_for_relative_invalidation_map,
};
pub use mutation_policy::{
    LightmountRuntimeFallbackRootInput, LightmountRuntimeFallbackRootResolver,
    lightmount_attribute_change_can_skip_fallback_without_dependency,
    lightmount_attribute_change_can_use_retained_invalidator,
    lightmount_retained_exact_state_change, lightmount_runtime_fallback_roots_for_mutation_inputs,
    lightmount_source_fallback_reason_for_unretained_state_change,
    lightmount_state_change_can_use_retained_invalidator,
};
pub use planned::{
    LightmountPlannedFallbackRootInvalidationTarget,
    LightmountPlannedFallbackRootInvalidationTargetParts,
    LightmountPlannedFallbackRootInvalidationTargetPartsSink,
    LightmountPlannedSourceDependencyInvalidation,
    LightmountPlannedSourceDependencyInvalidationPartsSink,
    LightmountPlannedSourceDependencyInvalidationTarget,
    LightmountPlannedSourceDependencyInvalidationTargetParts,
    LightmountPlannedSourceDependencyInvalidationTargetPartsSink,
    LightmountSourceDependencyBoundaryRoots, LightmountStylesheetSourceScopeFallbackInput,
    LightmountStylesheetSourceScopeFallbackRootsResolver, lightmount_fallback_roots_plan,
    lightmount_runtime_or_source_scope_fallback_plan, lightmount_source_scope_fallback_plan,
    lightmount_stylesheet_source_scope_fallback_roots,
};
pub use planner::{
    LightmountSourceDependencyInvalidationContextRootsProvider,
    LightmountSourceDependencyInvalidationSourcePlan,
    lightmount_custom_state_nth_of_dependency_needs_context_fallback,
    lightmount_source_dependency_invalidation_plan,
    lightmount_source_dependency_requires_source_fallback_plan,
};
pub use processor::{
    LightmountStyleInvalidationElementRoot, LightmountStyleInvalidationProcessor,
};
pub use query::{
    LightmountRetainedStyleInvalidationQuery, LightmountRetainedStyleInvalidationQueryKind,
    LightmountRetainedStyleSiblingTraversal, LightmountSourceStyleInvalidationQuery,
    LightmountStateInvalidationRoot, LightmountStyleInvalidationQuery,
};
pub use query_result::{
    LightmountNormalStyleInvalidationDependencyPlan,
    LightmountNormalStyleInvalidationDependencyPlanSink,
    LightmountRelativeStyleInvalidationDependencyPlan, LightmountSnapshotRelativeDependencyRoots,
    LightmountSourceStyleInvalidationQueryResult,
    LightmountSourceStyleInvalidationQueryResultBuilder, LightmountSourceStyleInvalidationResult,
    LightmountSourceStyleInvalidationResultAccumulator,
    LightmountSourceStyleInvalidationResultParts, LightmountSourceStyleInvalidationResultPartsSink,
    LightmountSourceStyleInvalidationResultSink,
    lightmount_merge_source_style_invalidation_query_results,
    lightmount_normal_style_invalidation_dependency_plan,
    lightmount_relative_style_invalidation_dependency_plan,
    lightmount_relative_style_invalidation_query_result,
};
pub use reasons::{
    LightmountDependencyFallbackReason, LightmountSourceInvalidationFallbackReason,
};
pub use relative::{
    lightmount_collect_relative_style_invalidation_query_result,
    lightmount_visit_relative_dependency_candidates,
};
pub use request::{
    LightmountDependencyInvalidationFallbackContext, LightmountElementDependencySnapshot,
    LightmountRetainedStyleChildListMutationContext, LightmountSourceDependencyInvalidationRequest,
    LightmountSourceDependencyRequestRequirement,
    lightmount_child_list_dependency_fallback_context_for_query,
    lightmount_merge_source_dependency_request_requirement,
    lightmount_retained_non_universal_queries_for_element_dependency_snapshot,
    lightmount_retained_queries_for_element_dependency_snapshot,
    lightmount_retained_queries_for_element_dependency_snapshot_with_universal,
};
pub use results::{
    LightmountInvalidationResult, LightmountInvalidationResultBuilder,
    LightmountInvalidationSourceResultsSink, LightmountSourceAffectedRootKind,
    LightmountSourceAffectedRootsCleanup, LightmountSourceAffectedRootsCleanupSink,
    LightmountSourceStyleInvalidationSourceResult,
    LightmountSourceStyleInvalidationSourceResultParts,
    LightmountSourceStyleInvalidationSourceResultPartsSink,
    LightmountSourceStyleInvalidationSourceResultSink,
    LightmountSourceStyleInvalidationTargetResultCleanupFacts,
    LightmountSourceStyleInvalidationTargetResultCleanupFactsPartsSink,
    LightmountSourceStyleInvalidationTargetResultCleanupFactsSink,
    LightmountSourceStyleInvalidationTargetResultDiagnosticFacts,
    LightmountSourceStyleInvalidationTargetResultDiagnosticFactsPartsSink,
    LightmountSourceStyleInvalidationTargetResultDiagnosticFactsSink,
    LightmountSourceStyleInvalidationTargetResultRecord,
    lightmount_source_result_kind_includes_fallback_context_for_clear_all,
};
pub use retained_kind::{
    LightmountRetainedSourceStyleInvalidationKind, LightmountSourceFallbackRootAvailability,
    LightmountSourceFallbackRootAvailabilitySummary,
    LightmountSourceFallbackRootAvailabilitySummarySink,
    LightmountSourceStyleInvalidationSourceResultKind,
    LightmountSourceStyleInvalidationSourceResultKindSummary,
    LightmountSourceStyleInvalidationSourceResultKindSummarySink,
    lightmount_merge_retained_source_invalidation_fallback_kind,
    lightmount_merge_retained_source_invalidation_kind,
    lightmount_retained_source_invalidation_kind_can_use_fallback_payload,
};
pub use retained_source::{
    LightmountRetainedSourceStyleInvalidation, LightmountRetainedSourceStyleInvalidationInput,
    LightmountRetainedSourceStyleInvalidationSink,
    lightmount_retained_source_style_invalidation_from_parts,
};
pub use sibling_summary::{
    LightmountSiblingInvalidationSummary,
};
pub use snapshot::{
    LightmountStyleInvalidationSnapshot, LightmountStyleInvalidationSnapshotAttribute,
    LightmountStyleMutationAttributeChange, LightmountStyleMutationElementSnapshot,
};
pub use source_summary::{
    LightmountChildListStructuralBoundaryDependencySummary, LightmountSourceDependencyFallbackRoots,
    LightmountSourceDependencyInvalidationBatchSource, LightmountSourceDependencySummary,
};
