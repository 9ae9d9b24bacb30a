//! Mutation policies and the planning of invalidation work.

use lightmount_style::lightmount_invalidation::{
    LightmountChildListStructuralBoundaryDependencySummary, LightmountDependencyContextRootPlan,
    LightmountDependencyFallbackReason, LightmountDependencyInvalidationContextRoots,
    LightmountDependencyInvalidationFallbackContext, LightmountDependencyInvalidationSummary,
    LightmountDependencyKind, LightmountDependencyQueryResult,
    LightmountPlannedFallbackRootInvalidationTarget,
    LightmountPlannedFallbackRootInvalidationTargetPartsSink,
    LightmountPlannedSourceDependencyInvalidation,
    LightmountPlannedSourceDependencyInvalidationPartsSink,
    LightmountPlannedSourceDependencyInvalidationTarget,
    LightmountPlannedSourceDependencyInvalidationTargetPartsSink,
    LightmountRetainedSourceStyleInvalidationKind, LightmountRetainedStyleInvalidationQuery,
    LightmountRuntimeFallbackRootInput, LightmountRuntimeFallbackRootResolver,
    LightmountSourceDependencyBoundaryRoots, LightmountSourceDependencyInvalidationBatchPlan,
    LightmountSourceDependencyInvalidationBatchPlanSink,
    LightmountSourceDependencyInvalidationBatchSource,
    LightmountSourceDependencyInvalidationContextRootsProvider,
    LightmountSourceDependencyInvalidationRequest, LightmountSourceDependencyInvalidationSourcePlan,
    LightmountSourceDependencyRequestRequirement, LightmountSourceDependencySummary,
    LightmountSourceFallbackRootAvailability, LightmountSourceInvalidationFallbackReason,
    LightmountSourceStyleInvalidationSourceResultKind, LightmountStylesheetSourceScopeFallbackInput,
    LightmountStylesheetSourceScopeFallbackRootsResolver,
    lightmount_attribute_change_can_skip_fallback_without_dependency,
    lightmount_attribute_change_can_use_retained_invalidator,
    lightmount_dependency_summary_for_invalidation_map, lightmount_fallback_roots_plan,
    lightmount_merge_retained_source_invalidation_fallback_kind,
    lightmount_merge_retained_source_invalidation_kind,
    lightmount_runtime_fallback_roots_for_mutation_inputs,
    lightmount_runtime_or_source_scope_fallback_plan,
    lightmount_source_dependency_invalidation_batch_plan,
    lightmount_source_fallback_reason_for_unretained_state_change,
    lightmount_source_scope_fallback_plan, lightmount_state_change_can_use_retained_invalidator,
    lightmount_stylesheet_source_scope_fallback_roots,
};
use lightmount_style::lightmount_invalidation::dependency::{
    Dependency, DependencyInvalidationKind, DependencySelectorFacts,
    NormalDependencyInvalidationKind,
};
use lightmount_style::lightmount_invalidation::element_state::{
    CHECKED, DEFINED, ElementState, HOVER, INDETERMINATE, MUTED, PAUSED, PLACEHOLDER_SHOWN, SEEKING,
};
use lightmount_style::lightmount_invalidation::invalidation_map::{
    InvalidationMap,
};
use lightmount_style::lightmount_invalidation::ordered_set::{
    OrderedSet,
};
use lightmount_style::lightmount_invalidation::retained_kind::LightmountRetainedSourceStyleInvalidationKind::{
    ContextFallback, FallbackOnly, MissingFallbackRoots, RetainedQueries, SourceScopeFallback,
};

/// What the selector `.active` depends on: an element's own class.
fn summary_of_active_class() -> LightmountDependencyInvalidationSummary {
    let mut map = InvalidationMap::new();
    map.class_to_selector.push((
        "active".to_string(),
        vec![Dependency::new(
            DependencySelectorFacts::subject(),
            Vec::new(),
            DependencyInvalidationKind::Normal(NormalDependencyInvalidationKind::Element),
        )],
    ));
    lightmount_dependency_summary_for_invalidation_map(&map)
}

/// What the selector `details > summary:first-of-type` depends on beyond its
/// structure: the local names of its compounds.
fn summary_of_details_summary() -> LightmountDependencyInvalidationSummary {
    let mut summary = LightmountDependencyInvalidationSummary::default();
    let mut details = LightmountDependencyQueryResult::default();
    details.add_kind(LightmountDependencyKind::Descendants);
    summary.note_type_dependency("details".to_string(), details);
    let mut subject = LightmountDependencyQueryResult::default();
    subject.add_kind(LightmountDependencyKind::Element);
    summary.note_type_dependency("summary".to_string(), subject);
    summary
}

/// What a selector such as `:first-child` can depend on beyond its structure:
/// that any element is there.
fn summary_of_any_element() -> LightmountDependencyInvalidationSummary {
    let mut map = InvalidationMap::new();
    map.any_to_selector.push(Dependency::new(
        DependencySelectorFacts::subject(),
        Vec::new(),
        DependencyInvalidationKind::Normal(NormalDependencyInvalidationKind::Element),
    ));
    lightmount_dependency_summary_for_invalidation_map(&map)
}

fn lightmount_structural_boundary_summary_for_type(
    local_name: &str,
) -> LightmountChildListStructuralBoundaryDependencySummary {
    let mut summary = LightmountChildListStructuralBoundaryDependencySummary::default();
    summary.note_type_dependency(local_name.to_string());
    summary
}

fn lightmount_structural_boundary_summary_for_class(
    class: &str,
) -> LightmountChildListStructuralBoundaryDependencySummary {
    let mut summary = LightmountChildListStructuralBoundaryDependencySummary::default();
    summary.note_class_dependency(class.to_string());
    summary
}

fn lightmount_universal_structural_boundary_summary(
) -> LightmountChildListStructuralBoundaryDependencySummary {
    let mut summary = LightmountChildListStructuralBoundaryDependencySummary::default();
    summary.note_universal_dependency();
    summary
}

#[test]
fn lightmount_attribute_and_state_runtime_policy_is_fork_owned() {
    assert!(lightmount_attribute_change_can_use_retained_invalidator(
        "class", false
    ));
    assert!(lightmount_attribute_change_can_use_retained_invalidator(
        "style", false
    ));
    assert!(!lightmount_attribute_change_can_use_retained_invalidator(
        "width", true
    ));

    assert!(lightmount_attribute_change_can_skip_fallback_without_dependency("class"));
    assert!(lightmount_attribute_change_can_skip_fallback_without_dependency("data-state"));
    assert!(lightmount_attribute_change_can_skip_fallback_without_dependency("aria-expanded"));
    assert!(lightmount_attribute_change_can_skip_fallback_without_dependency("lang"));
    assert!(lightmount_attribute_change_can_skip_fallback_without_dependency("dir"));
    assert!(!lightmount_attribute_change_can_skip_fallback_without_dependency("DATA-State"));
    assert!(!lightmount_attribute_change_can_skip_fallback_without_dependency("href"));

    for state in [
        ElementState::new(CHECKED),
        ElementState::new(INDETERMINATE),
        ElementState::new(PLACEHOLDER_SHOWN),
        ElementState::new(DEFINED),
        ElementState::new(PAUSED),
        ElementState::new(MUTED),
        ElementState::new(SEEKING),
    ] {
        assert!(lightmount_state_change_can_use_retained_invalidator(
            state, None
        ));
        assert_eq!(
            lightmount_source_fallback_reason_for_unretained_state_change(state, None),
            None
        );
    }

    assert!(!lightmount_state_change_can_use_retained_invalidator(
        ElementState::new(HOVER),
        None
    ));
    assert_eq!(
        lightmount_source_fallback_reason_for_unretained_state_change(
            ElementState::new(HOVER),
            None
        ),
        Some(LightmountSourceInvalidationFallbackReason::UnsupportedStateDependency)
    );
    assert!(lightmount_state_change_can_use_retained_invalidator(
        ElementState::new(HOVER),
        Some(ElementState::empty())
    ));
}

#[test]
fn lightmount_runtime_fallback_roots_for_mutation_inputs_are_fork_planned() {
    struct Resolver;

    impl LightmountRuntimeFallbackRootResolver<u32> for Resolver {
        fn unknown_slot_assignment_fallback_root(&self, slot: u32) -> u32 {
            slot + 100
        }
    }

    let added_nodes = [3, 5];
    let roots = lightmount_runtime_fallback_roots_for_mutation_inputs(
        vec![
            LightmountRuntimeFallbackRootInput::Attribute {
                element: 1,
                attribute_name: "class",
                has_dependency_change: true,
                has_non_css_runtime_side_effect: false,
            },
            LightmountRuntimeFallbackRootInput::Attribute {
                element: 2,
                attribute_name: "width",
                has_dependency_change: true,
                has_non_css_runtime_side_effect: true,
            },
            LightmountRuntimeFallbackRootInput::ChildList {
                added_nodes: &added_nodes,
            },
            LightmountRuntimeFallbackRootInput::SlotAssignment {
                slot: 4,
                has_assignment_snapshot: false,
            },
            LightmountRuntimeFallbackRootInput::ConnectedSubtree { root: 2 },
            LightmountRuntimeFallbackRootInput::OtherMutation,
        ],
        &Resolver,
    );

    assert_eq!(roots, vec![2, 3, 5, 104]);

    let child_list_only = lightmount_runtime_fallback_roots_for_mutation_inputs(
        vec![LightmountRuntimeFallbackRootInput::ChildList {
            added_nodes: &added_nodes,
        }],
        &Resolver,
    );
    assert!(child_list_only.is_empty());

    let known_slot = lightmount_runtime_fallback_roots_for_mutation_inputs(
        vec![LightmountRuntimeFallbackRootInput::SlotAssignment {
            slot: 4,
            has_assignment_snapshot: true,
        }],
        &Resolver,
    );
    assert!(known_slot.is_empty());
}

#[test]
fn lightmount_retained_source_invalidation_kind_exposes_result_policy() {
    assert_eq!(
        ContextFallback.merged_with(ContextFallback),
        ContextFallback
    );
    assert_eq!(
        lightmount_merge_retained_source_invalidation_kind(ContextFallback, ContextFallback),
        ContextFallback
    );
    assert_eq!(ContextFallback.merged_with(FallbackOnly), FallbackOnly);
    assert_eq!(
        lightmount_merge_retained_source_invalidation_fallback_kind(
            Some(ContextFallback),
            Some(FallbackOnly),
        ),
        Some(FallbackOnly)
    );
    assert_eq!(
        lightmount_merge_retained_source_invalidation_fallback_kind(None, Some(FallbackOnly)),
        Some(FallbackOnly)
    );
    assert_eq!(
        lightmount_merge_retained_source_invalidation_fallback_kind(
            Some(ContextFallback),
            None,
        ),
        Some(ContextFallback)
    );
    assert_eq!(
        FallbackOnly.merged_with(SourceScopeFallback),
        SourceScopeFallback
    );
    assert_eq!(
        SourceScopeFallback.merged_with(MissingFallbackRoots),
        MissingFallbackRoots
    );
    assert_eq!(
        MissingFallbackRoots.merged_with(RetainedQueries),
        RetainedQueries
    );
    assert!(RetainedQueries.carries_retained_queries());
    assert!(!FallbackOnly.carries_retained_queries());
    assert!(FallbackOnly.can_target_fallback_root());
    assert!(SourceScopeFallback.can_target_fallback_root());
    assert!(!ContextFallback.can_target_fallback_root());

    assert_eq!(
        ContextFallback.fallback_source_result_kind(true),
        LightmountSourceStyleInvalidationSourceResultKind::ContextFallback
    );
    assert_eq!(
        FallbackOnly.fallback_source_result_kind(false),
        LightmountSourceStyleInvalidationSourceResultKind::FallbackOnly
    );
    assert_eq!(
        FallbackOnly.fallback_source_result_kind(true),
        LightmountSourceStyleInvalidationSourceResultKind::Fallback
    );
    assert_eq!(
        LightmountSourceFallbackRootAvailability::for_root_count(0),
        None
    );
    assert_eq!(
        LightmountSourceFallbackRootAvailability::for_root_count(2),
        Some(LightmountSourceFallbackRootAvailability::Available { root_count: 2 })
    );
    assert_eq!(FallbackOnly.fallback_root_availability(0), None);
    assert_eq!(
        FallbackOnly.fallback_root_availability(2),
        Some(LightmountSourceFallbackRootAvailability::Available { root_count: 2 })
    );
    assert_eq!(
        MissingFallbackRoots.fallback_root_availability(0),
        Some(LightmountSourceFallbackRootAvailability::Missing)
    );
    assert_eq!(
        MissingFallbackRoots.fallback_root_availability(2),
        Some(LightmountSourceFallbackRootAvailability::Missing)
    );
    assert_eq!(
        SourceScopeFallback.fallback_reason(),
        Some(LightmountSourceInvalidationFallbackReason::SourceScopeFallback)
    );
    assert_eq!(
        MissingFallbackRoots.fallback_reason(),
        Some(LightmountSourceInvalidationFallbackReason::MissingFallbackRoots)
    );
    assert_eq!(FallbackOnly.fallback_reason(), None);
}

#[test]
fn lightmount_source_dependency_summary_and_batch_source_expose_typed_inputs() {
    let dependency_summary = summary_of_active_class();
    let source_summary = LightmountSourceDependencySummary::new(
        dependency_summary,
        true,
        lightmount_structural_boundary_summary_for_class("active"),
    );
    let query = LightmountRetainedStyleInvalidationQuery::class(1_u32, "active".into());
    let request = LightmountSourceDependencyInvalidationRequest::new(
        &query,
        None,
        LightmountSourceDependencyRequestRequirement::child_list_structural(),
    );

    assert!(source_summary
        .query_result(query.as_stylo_query())
        .has_any_dependency());
    assert!(source_summary
        .query_class("active")
        .has_any_dependency());
    assert!(source_summary.has_child_list_structural_dependency());
    assert!(source_summary.has_child_list_structural_dependency_for_requests(&[request]));
    assert!(!source_summary.has_relative_previous_sibling_dependency_for_requests(&[request]));
    assert!(!source_summary.has_slotted_dependency_for_requests(&[request]));
    assert!(source_summary.requires_empty_target_fallback_for_requests(&[request]));
    assert!(source_summary
        .structural_boundary_cleanup_roots_for_requests(&[request], &[9])
        .is_empty());

    let mut relative_dependency = LightmountDependencyQueryResult::default();
    relative_dependency.add_kind(LightmountDependencyKind::RelativePrevSibling);
    let mut relative_dependency_summary = LightmountDependencyInvalidationSummary::default();
    relative_dependency_summary
        .note_class_dependency("active".to_string(), relative_dependency);
    let relative_summary = LightmountSourceDependencySummary::new(
        relative_dependency_summary,
        false,
        LightmountChildListStructuralBoundaryDependencySummary::default(),
    );
    let relative_request = LightmountSourceDependencyInvalidationRequest::new(
        &query,
        None,
        LightmountSourceDependencyRequestRequirement::relative_previous_sibling(),
    );
    assert!(relative_summary.requires_empty_target_fallback_for_requests(&[relative_request]));
    assert_eq!(
        relative_summary
            .structural_boundary_cleanup_roots_for_requests(&[relative_request], &[9]),
        vec![9]
    );

    let source_roots = [2_u32];
    let cause_roots = [3_u32];
    let source = LightmountSourceDependencyInvalidationBatchSource::new(
        &source_summary,
        &source_roots,
        &[],
    );
    assert!(source_summary
        .query_result(query.as_stylo_query())
        .has_any_dependency());
    assert_eq!(source.selected_fallback_roots(), &[2]);

    let source = LightmountSourceDependencyInvalidationBatchSource::new(
        &source_summary,
        &source_roots,
        &cause_roots,
    );
    assert_eq!(source.selected_fallback_roots(), &[3]);
}

#[test]
fn lightmount_structural_empty_target_gate_requires_a_keyed_dependency() {
    let source_summary = LightmountSourceDependencySummary::new(
        summary_of_details_summary(),
        true,
        lightmount_structural_boundary_summary_for_type("details"),
    );
    let details_query =
        LightmountRetainedStyleInvalidationQuery::element_type(1_u32, "details".into());
    let details_request = LightmountSourceDependencyInvalidationRequest::new(
        &details_query,
        None,
        LightmountSourceDependencyRequestRequirement::child_list_structural(),
    );
    assert!(
        source_summary.has_child_list_structural_dependency_for_requests(&[details_request])
    );

    let unrelated_query =
        LightmountRetainedStyleInvalidationQuery::element_type(2_u32, "em".into());
    let unrelated_request = LightmountSourceDependencyInvalidationRequest::new(
        &unrelated_query,
        None,
        LightmountSourceDependencyRequestRequirement::child_list_structural(),
    );
    assert!(
        !source_summary.has_child_list_structural_dependency_for_requests(&[unrelated_request])
    );
    assert!(!source_summary.requires_empty_target_fallback_for_requests(&[unrelated_request,]));

    for first_child_summary in [
        LightmountDependencyInvalidationSummary::default(),
        summary_of_any_element(),
    ] {
        let universal_summary = LightmountSourceDependencySummary::new(
            first_child_summary,
            true,
            lightmount_universal_structural_boundary_summary(),
        );
        let universal_query = LightmountRetainedStyleInvalidationQuery::universal(3_u32);
        let universal_request = LightmountSourceDependencyInvalidationRequest::new(
            &universal_query,
            None,
            LightmountSourceDependencyRequestRequirement::child_list_structural(),
        );
        assert!(universal_summary
            .has_child_list_structural_dependency_for_requests(&[universal_request]));
    }
}

#[derive(Default)]
struct LightmountPlannedFallbackRootTargetPartsForTest {
    fallback_kind: Option<LightmountRetainedSourceStyleInvalidationKind>,
    fallback_roots: Vec<u32>,
    fallback_reasons: OrderedSet<LightmountSourceInvalidationFallbackReason>,
}

#[derive(Default)]
struct LightmountPlannedSourceDependencyPartsForTest {
    source_index: Option<usize>,
    structural_boundary_cleanup_roots: Vec<u32>,
    target_kind: Option<LightmountRetainedSourceStyleInvalidationKind>,
    fallback_kind: Option<LightmountRetainedSourceStyleInvalidationKind>,
    exact_queries: Vec<LightmountRetainedStyleInvalidationQuery<u32>>,
    reasoned_fallback_roots: Vec<u32>,
    exact_safety_fallback_roots: Vec<u32>,
    fallback_roots: Vec<u32>,
    fallback_reasons: OrderedSet<LightmountSourceInvalidationFallbackReason>,
}

impl LightmountPlannedFallbackRootInvalidationTargetPartsSink<u32>
    for LightmountPlannedFallbackRootTargetPartsForTest
{
    fn set_planned_fallback_root_target_parts(
        &mut self,
        fallback_kind: LightmountRetainedSourceStyleInvalidationKind,
        fallback_roots: Vec<u32>,
        fallback_reasons: OrderedSet<LightmountSourceInvalidationFallbackReason>,
    ) {
        self.fallback_kind = Some(fallback_kind);
        self.fallback_roots = fallback_roots;
        self.fallback_reasons = fallback_reasons;
    }
}

impl LightmountPlannedSourceDependencyInvalidationPartsSink<u32>
    for LightmountPlannedSourceDependencyPartsForTest
{
    fn set_planned_source_dependency_source_index(&mut self, source_index: usize) {
        self.source_index = Some(source_index);
    }

    fn set_planned_source_dependency_structural_boundary_cleanup_roots(
        &mut self,
        structural_boundary_cleanup_roots: Vec<u32>,
    ) {
        self.structural_boundary_cleanup_roots = structural_boundary_cleanup_roots;
    }
}

impl LightmountPlannedSourceDependencyInvalidationTargetPartsSink<u32>
    for LightmountPlannedSourceDependencyPartsForTest
{
    fn set_planned_retained_source_dependency_target_parts(
        &mut self,
        exact_queries: Vec<LightmountRetainedStyleInvalidationQuery<u32>>,
        fallback_kind: Option<LightmountRetainedSourceStyleInvalidationKind>,
        reasoned_fallback_roots: Vec<u32>,
        exact_safety_fallback_roots: Vec<u32>,
        fallback_reasons: OrderedSet<LightmountSourceInvalidationFallbackReason>,
    ) {
        self.target_kind = Some(LightmountRetainedSourceStyleInvalidationKind::RetainedQueries);
        self.fallback_kind = fallback_kind;
        self.exact_queries = exact_queries;
        self.reasoned_fallback_roots = reasoned_fallback_roots;
        self.exact_safety_fallback_roots = exact_safety_fallback_roots;
        self.fallback_reasons = fallback_reasons;
    }

    fn set_planned_fallback_source_dependency_target_parts(
        &mut self,
        fallback_kind: LightmountRetainedSourceStyleInvalidationKind,
        fallback_roots: Vec<u32>,
        fallback_reasons: OrderedSet<LightmountSourceInvalidationFallbackReason>,
    ) {
        self.target_kind = Some(fallback_kind);
        self.fallback_roots = fallback_roots;
        self.fallback_reasons = fallback_reasons;
    }

    fn set_planned_missing_fallback_roots_source_dependency_target_parts(
        &mut self,
        fallback_reasons: OrderedSet<LightmountSourceInvalidationFallbackReason>,
    ) {
        self.target_kind =
            Some(LightmountRetainedSourceStyleInvalidationKind::MissingFallbackRoots);
        self.fallback_reasons = fallback_reasons;
    }
}

fn planned_source_dependency_parts_for_test(
    planned: LightmountPlannedSourceDependencyInvalidation<u32>,
) -> LightmountPlannedSourceDependencyPartsForTest {
    let mut sink = LightmountPlannedSourceDependencyPartsForTest::default();
    planned.drain_into(&mut sink);
    sink
}

fn planned_source_dependency_target_parts_for_test(
    target: LightmountPlannedSourceDependencyInvalidationTarget<u32>,
) -> LightmountPlannedSourceDependencyPartsForTest {
    let mut sink = LightmountPlannedSourceDependencyPartsForTest::default();
    target.drain_into(&mut sink);
    sink
}

#[derive(Default)]
struct LightmountSourceDependencyBatchPlanForTest {
    work_sources: Vec<LightmountPlannedSourceDependencyInvalidation<u32>>,
    work_boundary_fallback: Option<LightmountPlannedFallbackRootInvalidationTarget<u32>>,
    requires_source_fallback: Option<LightmountPlannedSourceDependencyInvalidation<u32>>,
}

impl LightmountSourceDependencyInvalidationBatchPlanSink<u32>
    for LightmountSourceDependencyBatchPlanForTest
{
    fn set_source_dependency_batch_work(
        &mut self,
        sources: Vec<LightmountPlannedSourceDependencyInvalidation<u32>>,
        boundary_fallback: Option<LightmountPlannedFallbackRootInvalidationTarget<u32>>,
    ) {
        self.work_sources = sources;
        self.work_boundary_fallback = boundary_fallback;
    }

    fn set_source_dependency_batch_requires_source_fallback(
        &mut self,
        source: LightmountPlannedSourceDependencyInvalidation<u32>,
    ) {
        self.requires_source_fallback = Some(source);
    }
}

fn source_dependency_batch_plan_for_test(
    plan: LightmountSourceDependencyInvalidationBatchPlan<u32>,
) -> LightmountSourceDependencyBatchPlanForTest {
    let mut sink = LightmountSourceDependencyBatchPlanForTest::default();
    plan.drain_into(&mut sink);
    sink
}

#[test]
fn lightmount_planned_source_dependency_artifacts_drain_into_typed_sinks() {
    let empty_target_roots = [10_u32];
    let relative_cleanup_roots = [20_u32];
    let boundary_roots = LightmountSourceDependencyBoundaryRoots::new(
        &empty_target_roots,
        &relative_cleanup_roots,
    );
    assert_eq!(boundary_roots.empty_target_fallback_roots, &[10]);
    assert_eq!(
        boundary_roots.relative_previous_sibling_cleanup_roots,
        &[20]
    );

    let query = LightmountRetainedStyleInvalidationQuery::class(1_u32, "active".into());
    let planned =
        LightmountPlannedSourceDependencyInvalidation::retained_queries_with_fallback_kind(
            3,
            vec![query],
            Some(LightmountRetainedSourceStyleInvalidationKind::ContextFallback),
            vec![4],
            vec![5],
            OrderedSet::from_slice(&[LightmountSourceInvalidationFallbackReason::FullSelector]),
            vec![6],
        );
    let parts = planned_source_dependency_parts_for_test(planned);
    assert_eq!(parts.source_index, Some(3));
    assert_eq!(parts.structural_boundary_cleanup_roots, vec![6]);
    assert_eq!(
        parts.target_kind,
        Some(LightmountRetainedSourceStyleInvalidationKind::RetainedQueries)
    );
    assert_eq!(parts.exact_queries[0].root(), 1);
    assert_eq!(
        parts.fallback_kind,
        Some(LightmountRetainedSourceStyleInvalidationKind::ContextFallback)
    );
    assert_eq!(parts.reasoned_fallback_roots, vec![4]);
    assert_eq!(parts.exact_safety_fallback_roots, vec![5]);
    assert!(parts
        .fallback_reasons
        .contains(LightmountSourceInvalidationFallbackReason::FullSelector));

    let missing = planned_source_dependency_parts_for_test(
        LightmountPlannedSourceDependencyInvalidation::<u32>::missing_fallback_roots(
            7,
            OrderedSet::new(),
            Vec::new(),
        ),
    );
    assert_eq!(missing.source_index, Some(7));
    assert_eq!(
        missing.target_kind,
        Some(LightmountRetainedSourceStyleInvalidationKind::MissingFallbackRoots)
    );
    assert!(missing
        .fallback_reasons
        .contains(LightmountSourceInvalidationFallbackReason::MissingFallbackRoots));

    let boundary_fallback =
        LightmountPlannedFallbackRootInvalidationTarget::source_scope_fallback(
            vec![8],
            OrderedSet::new(),
        );
    let mut fallback_parts = LightmountPlannedFallbackRootTargetPartsForTest::default();
    boundary_fallback.drain_into(&mut fallback_parts);
    assert_eq!(
        fallback_parts.fallback_kind,
        Some(LightmountRetainedSourceStyleInvalidationKind::SourceScopeFallback)
    );
    assert_eq!(fallback_parts.fallback_roots, vec![8]);
    assert!(fallback_parts
        .fallback_reasons
        .contains(LightmountSourceInvalidationFallbackReason::SourceScopeFallback));

    let promoted_safety_target =
        LightmountPlannedSourceDependencyInvalidationTarget::from_source_dependency_work_parts(
            Vec::new(),
            None,
            Vec::new(),
            vec![9],
            OrderedSet::new(),
        )
        .expect("orphan exact-safety roots should become a fallback target");
    let promoted_safety_target =
        planned_source_dependency_target_parts_for_test(promoted_safety_target);
    assert_eq!(
        promoted_safety_target.target_kind,
        Some(LightmountRetainedSourceStyleInvalidationKind::FallbackOnly)
    );
    assert_eq!(promoted_safety_target.fallback_roots, vec![9]);
    assert!(promoted_safety_target
        .fallback_reasons
        .contains(LightmountSourceInvalidationFallbackReason::InexactEmptyResult));

    let missing_selected_roots =
        LightmountPlannedSourceDependencyInvalidationTarget::<u32>::source_dependency_fallback(
            Vec::new(),
            OrderedSet::from_slice(&[LightmountSourceInvalidationFallbackReason::FullSelector]),
        );
    let missing_selected_roots =
        planned_source_dependency_target_parts_for_test(missing_selected_roots);
    assert_eq!(
        missing_selected_roots.target_kind,
        Some(LightmountRetainedSourceStyleInvalidationKind::MissingFallbackRoots)
    );
    assert!(missing_selected_roots
        .fallback_reasons
        .contains(LightmountSourceInvalidationFallbackReason::FullSelector));
    assert!(missing_selected_roots
        .fallback_reasons
        .contains(LightmountSourceInvalidationFallbackReason::MissingFallbackRoots));

    let source_plan = LightmountSourceDependencyInvalidationSourcePlan::work(Some(
        LightmountPlannedSourceDependencyInvalidationTarget::source_dependency_fallback(
            vec![11],
            OrderedSet::from_slice(&[LightmountSourceInvalidationFallbackReason::FullSelector]),
        ),
    ));
    let LightmountSourceDependencyInvalidationSourcePlan::Work { target } = source_plan else {
        panic!("source-local work plan should expose work target");
    };
    assert!(target.is_some());

    let source_plan =
        LightmountSourceDependencyInvalidationSourcePlan::requires_source_fallback(
            LightmountPlannedSourceDependencyInvalidationTarget::source_dependency_fallback(
                Vec::<u32>::new(),
                OrderedSet::from_slice(&[LightmountSourceInvalidationFallbackReason::FullSelector]),
            ),
        );
    let LightmountSourceDependencyInvalidationSourcePlan::RequiresSourceFallback { target } =
        source_plan
    else {
        panic!("source-local fallback plan should expose fallback target");
    };
    let target = planned_source_dependency_target_parts_for_test(target);
    assert_eq!(
        target.target_kind,
        Some(LightmountRetainedSourceStyleInvalidationKind::MissingFallbackRoots)
    );
    assert!(target
        .fallback_reasons
        .contains(LightmountSourceInvalidationFallbackReason::FullSelector));

    let batch_plan_sink = source_dependency_batch_plan_for_test(
        LightmountSourceDependencyInvalidationBatchPlan::work(
            vec![
                LightmountPlannedSourceDependencyInvalidation::fallback_only(
                    1,
                    vec![2],
                    OrderedSet::new(),
                    Vec::new(),
                ),
            ],
            None,
        ),
    );
    assert_eq!(batch_plan_sink.work_sources.len(), 1);
    assert!(batch_plan_sink.work_boundary_fallback.is_none());
    assert!(batch_plan_sink.requires_source_fallback.is_none());

    let batch_plan_sink = source_dependency_batch_plan_for_test(
        LightmountSourceDependencyInvalidationBatchPlan::requires_source_fallback(
            LightmountPlannedSourceDependencyInvalidation::missing_fallback_roots(
                4,
                OrderedSet::from_slice(&[LightmountSourceInvalidationFallbackReason::FullSelector]),
                Vec::new(),
            ),
        ),
    );
    assert!(batch_plan_sink.work_sources.is_empty());
    assert!(batch_plan_sink.work_boundary_fallback.is_none());
    assert!(batch_plan_sink.requires_source_fallback.is_some());
}

#[test]
fn lightmount_source_scope_and_fallback_roots_plans_label_targets() {
    let source_scope_target = lightmount_source_scope_fallback_plan(
        || vec![4_u32],
        &[LightmountSourceInvalidationFallbackReason::UnsupportedStateDependency],
    );
    let mut source_scope_parts = LightmountPlannedFallbackRootTargetPartsForTest::default();
    source_scope_target.drain_into(&mut source_scope_parts);
    assert_eq!(
        source_scope_parts.fallback_kind,
        Some(LightmountRetainedSourceStyleInvalidationKind::SourceScopeFallback)
    );
    assert_eq!(source_scope_parts.fallback_roots, vec![4]);
    assert!(source_scope_parts
        .fallback_reasons
        .contains(LightmountSourceInvalidationFallbackReason::SourceScopeFallback));
    assert!(source_scope_parts
        .fallback_reasons
        .contains(LightmountSourceInvalidationFallbackReason::UnsupportedStateDependency));

    let fallback_target = lightmount_fallback_roots_plan(
        vec![5_u32],
        &[LightmountSourceInvalidationFallbackReason::UnsupportedStateDependency],
    );
    let mut fallback_parts = LightmountPlannedFallbackRootTargetPartsForTest::default();
    fallback_target.drain_into(&mut fallback_parts);
    assert_eq!(
        fallback_parts.fallback_kind,
        Some(LightmountRetainedSourceStyleInvalidationKind::FallbackOnly)
    );
    assert_eq!(fallback_parts.fallback_roots, vec![5]);
    assert!(!fallback_parts
        .fallback_reasons
        .contains(LightmountSourceInvalidationFallbackReason::SourceScopeFallback));
    assert!(fallback_parts
        .fallback_reasons
        .contains(LightmountSourceInvalidationFallbackReason::UnsupportedStateDependency));
}

#[test]
fn lightmount_runtime_or_source_scope_fallback_plan_prefers_runtime_roots() {
    let source_scope_target = lightmount_runtime_or_source_scope_fallback_plan(
        Vec::new(),
        || vec![1_u32, 2],
        &[LightmountSourceInvalidationFallbackReason::UnsupportedStateDependency],
    );
    let mut source_scope_parts = LightmountPlannedFallbackRootTargetPartsForTest::default();
    source_scope_target.drain_into(&mut source_scope_parts);
    assert_eq!(
        source_scope_parts.fallback_kind,
        Some(LightmountRetainedSourceStyleInvalidationKind::SourceScopeFallback)
    );
    assert_eq!(source_scope_parts.fallback_roots, vec![1, 2]);
    assert!(source_scope_parts
        .fallback_reasons
        .contains(LightmountSourceInvalidationFallbackReason::SourceScopeFallback));
    assert!(source_scope_parts
        .fallback_reasons
        .contains(LightmountSourceInvalidationFallbackReason::UnsupportedStateDependency));

    let runtime_target = lightmount_runtime_or_source_scope_fallback_plan(
        vec![3_u32],
        || panic!("source-scope roots should not be resolved when runtime roots exist"),
        &[LightmountSourceInvalidationFallbackReason::UnsupportedStateDependency],
    );
    let mut runtime_parts = LightmountPlannedFallbackRootTargetPartsForTest::default();
    runtime_target.drain_into(&mut runtime_parts);
    assert_eq!(
        runtime_parts.fallback_kind,
        Some(LightmountRetainedSourceStyleInvalidationKind::FallbackOnly)
    );
    assert_eq!(runtime_parts.fallback_roots, vec![3]);
    assert!(!runtime_parts
        .fallback_reasons
        .contains(LightmountSourceInvalidationFallbackReason::SourceScopeFallback));
    assert!(runtime_parts
        .fallback_reasons
        .contains(LightmountSourceInvalidationFallbackReason::UnsupportedStateDependency));
}

#[test]
fn lightmount_stylesheet_source_scope_fallback_roots_dispatches_input() {
    struct Resolver;

    impl LightmountStylesheetSourceScopeFallbackRootsResolver<u32> for Resolver {
        fn stylesheet_owner_source_scope_fallback_roots(&self, owner: u32) -> Vec<u32> {
            assert_eq!(owner, 1);
            vec![10]
        }

        fn document_source_scope_fallback_roots(&self, document: u32) -> Vec<u32> {
            assert_eq!(document, 2);
            vec![20]
        }

        fn shadow_root_source_scope_fallback_roots(&self, root: u32) -> Vec<u32> {
            assert_eq!(root, 3);
            vec![30, 31]
        }
    }

    assert_eq!(
        lightmount_stylesheet_source_scope_fallback_roots(
            LightmountStylesheetSourceScopeFallbackInput::StylesheetOwner { owner: 1 },
            &Resolver,
        ),
        vec![10]
    );
    assert_eq!(
        lightmount_stylesheet_source_scope_fallback_roots(
            LightmountStylesheetSourceScopeFallbackInput::DocumentAdopted { document: 2 },
            &Resolver,
        ),
        vec![20]
    );
    assert_eq!(
        lightmount_stylesheet_source_scope_fallback_roots(
            LightmountStylesheetSourceScopeFallbackInput::ShadowRootAdopted { root: 3 },
            &Resolver,
        ),
        vec![30, 31]
    );
    assert!(lightmount_stylesheet_source_scope_fallback_roots(
        LightmountStylesheetSourceScopeFallbackInput::Unscoped,
        &Resolver,
    )
    .is_empty());
}

#[test]
fn lightmount_source_dependency_batch_skips_unrelated_structural_source() {
    struct UnexpectedContextRootsProvider;

    impl LightmountSourceDependencyInvalidationContextRootsProvider<u32>
        for UnexpectedContextRootsProvider
    {
        fn context_roots_for_source_dependency(
            &mut self,
            _root: u32,
            _plan: LightmountDependencyContextRootPlan,
            _context: LightmountDependencyInvalidationFallbackContext<u32>,
        ) -> LightmountDependencyInvalidationContextRoots<u32> {
            panic!("an unrelated source query must not request context roots")
        }
    }

    let source_summary = LightmountSourceDependencySummary::new(
        summary_of_details_summary(),
        true,
        lightmount_structural_boundary_summary_for_type("details"),
    );
    let source_roots = [99_u32];
    let source = LightmountSourceDependencyInvalidationBatchSource::new(
        &source_summary,
        &source_roots,
        &[],
    );
    let query = LightmountRetainedStyleInvalidationQuery::element_type(1_u32, "em".into());
    let request = LightmountSourceDependencyInvalidationRequest::new(
        &query,
        None,
        LightmountSourceDependencyRequestRequirement::child_list_structural(),
    );
    let empty_target_roots = [10_u32];
    let mut provider = UnexpectedContextRootsProvider;

    let plan = lightmount_source_dependency_invalidation_batch_plan(
        &[source],
        &[request],
        LightmountSourceDependencyBoundaryRoots::new(&empty_target_roots, &[]),
        &mut provider,
    );

    let plan = source_dependency_batch_plan_for_test(plan);
    assert!(plan.work_sources.is_empty());
    assert!(plan.work_boundary_fallback.is_none());
    assert!(plan.requires_source_fallback.is_none());
}

#[test]
fn lightmount_source_dependency_batch_plan_uses_context_root_provider() {
    #[derive(Default)]
    struct ContextRootsProviderForTest {
        calls: usize,
    }

    impl LightmountSourceDependencyInvalidationContextRootsProvider<u32>
        for ContextRootsProviderForTest
    {
        fn context_roots_for_source_dependency(
            &mut self,
            root: u32,
            _plan: LightmountDependencyContextRootPlan,
            context: LightmountDependencyInvalidationFallbackContext<u32>,
        ) -> LightmountDependencyInvalidationContextRoots<u32> {
            self.calls += 1;
            assert_eq!(root, 1);
            assert_eq!(context.parent(), Some(2));
            assert_eq!(context.previous_sibling(), Some(3));
            assert_eq!(context.next_sibling(), Some(4));
            LightmountDependencyInvalidationContextRoots::new(false, vec![10])
        }
    }

    let mut dependency = LightmountDependencyQueryResult::default();
    dependency.add_fallback_reason(LightmountDependencyFallbackReason::NthOfDependency);
    let mut dependency_summary = LightmountDependencyInvalidationSummary::default();
    dependency_summary.note_class_dependency("active".to_string(), dependency);
    let source_summary = LightmountSourceDependencySummary::new(
        dependency_summary,
        false,
        LightmountChildListStructuralBoundaryDependencySummary::default(),
    );
    let source_roots = [99_u32];
    let source = LightmountSourceDependencyInvalidationBatchSource::new(
        &source_summary,
        &source_roots,
        &[],
    );
    let query = LightmountRetainedStyleInvalidationQuery::class(1_u32, "active".into());
    let context = LightmountDependencyInvalidationFallbackContext::from_mutation_relation(
        Some(2),
        Some(3),
        Some(4),
    );
    let request = LightmountSourceDependencyInvalidationRequest::new(
        &query,
        Some(context),
        LightmountSourceDependencyRequestRequirement::exact(),
    );
    let mut provider = ContextRootsProviderForTest::default();

    let plan = lightmount_source_dependency_invalidation_batch_plan(
        &[source],
        &[request],
        LightmountSourceDependencyBoundaryRoots::default(),
        &mut provider,
    );

    assert_eq!(provider.calls, 1);
    let mut plan = source_dependency_batch_plan_for_test(plan);
    assert!(plan.work_boundary_fallback.is_none());
    assert!(plan.requires_source_fallback.is_none());
    let sources = &mut plan.work_sources;
    assert_eq!(sources.len(), 1);
    let target = planned_source_dependency_parts_for_test(
        sources.pop().expect("source work should exist"),
    );
    assert_eq!(
        target.target_kind,
        Some(LightmountRetainedSourceStyleInvalidationKind::ContextFallback)
    );
    assert_eq!(target.fallback_roots, vec![10]);
    assert!(target
        .fallback_reasons
        .contains(LightmountSourceInvalidationFallbackReason::NthOfDependency));
}

#[test]
fn lightmount_source_dependency_batch_plan_accumulates_missing_fallback_root_reasons() {
    struct ContextRootsProviderForTest;

    impl LightmountSourceDependencyInvalidationContextRootsProvider<u32>
        for ContextRootsProviderForTest
    {
        fn context_roots_for_source_dependency(
            &mut self,
            _root: u32,
            _plan: LightmountDependencyContextRootPlan,
            _context: LightmountDependencyInvalidationFallbackContext<u32>,
        ) -> LightmountDependencyInvalidationContextRoots<u32> {
            panic!("missing-root source fallback should not need context roots")
        }
    }

    let mut nth_dependency = LightmountDependencyQueryResult::default();
    nth_dependency.add_fallback_reason(LightmountDependencyFallbackReason::NthOfDependency);
    let mut full_dependency = LightmountDependencyQueryResult::default();
    full_dependency.add_fallback_reason(LightmountDependencyFallbackReason::FullSelector);
    let mut dependency_summary = LightmountDependencyInvalidationSummary::default();
    dependency_summary.note_class_dependency("nth".to_string(), nth_dependency);
    dependency_summary.note_class_dependency("full".to_string(), full_dependency);
    let source_summary = LightmountSourceDependencySummary::new(
        dependency_summary,
        false,
        LightmountChildListStructuralBoundaryDependencySummary::default(),
    );
    let source =
        LightmountSourceDependencyInvalidationBatchSource::new(&source_summary, &[], &[]);
    let nth_query = LightmountRetainedStyleInvalidationQuery::class(1_u32, "nth".into());
    let full_query = LightmountRetainedStyleInvalidationQuery::class(1_u32, "full".into());
    let requests = [
        LightmountSourceDependencyInvalidationRequest::new(
            &nth_query,
            None,
            LightmountSourceDependencyRequestRequirement::exact(),
        ),
        LightmountSourceDependencyInvalidationRequest::new(
            &full_query,
            None,
            LightmountSourceDependencyRequestRequirement::exact(),
        ),
    ];
    let mut provider = ContextRootsProviderForTest;

    let plan = lightmount_source_dependency_invalidation_batch_plan(
        &[source],
        &requests,
        LightmountSourceDependencyBoundaryRoots::default(),
        &mut provider,
    );

    let mut plan = source_dependency_batch_plan_for_test(plan);
    assert!(plan.work_sources.is_empty());
    assert!(plan.work_boundary_fallback.is_none());
    let target = planned_source_dependency_parts_for_test(
        plan.requires_source_fallback
            .take()
            .expect("missing fallback roots should force source fallback"),
    );
    assert_eq!(
        target.target_kind,
        Some(LightmountRetainedSourceStyleInvalidationKind::MissingFallbackRoots)
    );
    assert!(target
        .fallback_reasons
        .contains(LightmountSourceInvalidationFallbackReason::NthOfDependency));
    assert!(target
        .fallback_reasons
        .contains(LightmountSourceInvalidationFallbackReason::FullSelector));
    assert!(target
        .fallback_reasons
        .contains(LightmountSourceInvalidationFallbackReason::MissingFallbackRoots));
}

#[test]
fn lightmount_source_dependency_batch_plan_uses_context_roots_for_custom_state_nth_of() {
    #[derive(Default)]
    struct ContextRootsProviderForTest {
        calls: usize,
    }

    impl LightmountSourceDependencyInvalidationContextRootsProvider<u32>
        for ContextRootsProviderForTest
    {
        fn context_roots_for_source_dependency(
            &mut self,
            root: u32,
            _plan: LightmountDependencyContextRootPlan,
            context: LightmountDependencyInvalidationFallbackContext<u32>,
        ) -> LightmountDependencyInvalidationContextRoots<u32> {
            self.calls += 1;
            assert_eq!(root, 1);
            assert_eq!(context.parent(), Some(2));
            assert_eq!(context.previous_sibling(), None);
            assert_eq!(context.next_sibling(), Some(3));
            LightmountDependencyInvalidationContextRoots::new(false, vec![3, 4])
        }
    }

    let mut dependency = LightmountDependencyQueryResult::default();
    dependency.add_kind(LightmountDependencyKind::Siblings);
    let mut dependency_summary = LightmountDependencyInvalidationSummary::default();
    dependency_summary.note_custom_state_dependency("--active".to_string(), dependency);
    let source_summary = LightmountSourceDependencySummary::new(
        dependency_summary,
        true,
        LightmountChildListStructuralBoundaryDependencySummary::default(),
    );
    let source_roots = [99_u32];
    let source = LightmountSourceDependencyInvalidationBatchSource::new(
        &source_summary,
        &source_roots,
        &[],
    );
    let query =
        LightmountRetainedStyleInvalidationQuery::custom_state(1_u32, "--active".into());
    let context = LightmountDependencyInvalidationFallbackContext::from_mutation_relation(
        Some(2),
        None,
        Some(3),
    );
    let request = LightmountSourceDependencyInvalidationRequest::new(
        &query,
        Some(context),
        LightmountSourceDependencyRequestRequirement::exact(),
    );
    let mut provider = ContextRootsProviderForTest::default();

    let plan = lightmount_source_dependency_invalidation_batch_plan(
        &[source],
        &[request],
        LightmountSourceDependencyBoundaryRoots::default(),
        &mut provider,
    );

    assert_eq!(provider.calls, 1);
    let mut plan = source_dependency_batch_plan_for_test(plan);
    assert!(plan.work_boundary_fallback.is_none());
    assert!(plan.requires_source_fallback.is_none());
    let sources = &mut plan.work_sources;
    assert_eq!(sources.len(), 1);
    let target = planned_source_dependency_parts_for_test(
        sources.pop().expect("source work should exist"),
    );
    assert_eq!(
        target.target_kind,
        Some(LightmountRetainedSourceStyleInvalidationKind::ContextFallback)
    );
    assert_eq!(target.fallback_roots, vec![3, 4]);
    assert!(target
        .fallback_reasons
        .contains(LightmountSourceInvalidationFallbackReason::NthOfDependency));
}

#[test]
fn lightmount_source_dependency_batch_plan_keeps_scope_on_source_fallback() {
    #[derive(Default)]
    struct ContextRootsProviderForTest {
        calls: usize,
    }

    impl LightmountSourceDependencyInvalidationContextRootsProvider<u32>
        for ContextRootsProviderForTest
    {
        fn context_roots_for_source_dependency(
            &mut self,
            root: u32,
            _plan: LightmountDependencyContextRootPlan,
            context: LightmountDependencyInvalidationFallbackContext<u32>,
        ) -> LightmountDependencyInvalidationContextRoots<u32> {
            self.calls += 1;
            assert_eq!(root, 1);
            assert_eq!(context.parent(), Some(2));
            assert_eq!(context.previous_sibling(), Some(3));
            assert_eq!(context.next_sibling(), Some(4));
            LightmountDependencyInvalidationContextRoots::new(true, vec![10])
        }
    }

    let mut dependency = LightmountDependencyQueryResult::default();
    dependency.add_kind(LightmountDependencyKind::Scope);
    let mut dependency_summary = LightmountDependencyInvalidationSummary::default();
    dependency_summary.note_class_dependency("scoped".to_string(), dependency);
    let source_summary = LightmountSourceDependencySummary::new(
        dependency_summary,
        false,
        LightmountChildListStructuralBoundaryDependencySummary::default(),
    );
    let source_roots = [99_u32];
    let source = LightmountSourceDependencyInvalidationBatchSource::new(
        &source_summary,
        &source_roots,
        &[],
    );
    let query = LightmountRetainedStyleInvalidationQuery::class(1_u32, "scoped".into());
    let context = LightmountDependencyInvalidationFallbackContext::from_mutation_relation(
        Some(2),
        Some(3),
        Some(4),
    );
    let request = LightmountSourceDependencyInvalidationRequest::new(
        &query,
        Some(context),
        LightmountSourceDependencyRequestRequirement::exact(),
    );
    let mut provider = ContextRootsProviderForTest::default();

    let plan = lightmount_source_dependency_invalidation_batch_plan(
        &[source],
        &[request],
        LightmountSourceDependencyBoundaryRoots::default(),
        &mut provider,
    );

    assert_eq!(provider.calls, 1);
    let mut plan = source_dependency_batch_plan_for_test(plan);
    assert!(plan.work_boundary_fallback.is_none());
    assert!(plan.requires_source_fallback.is_none());
    let sources = &mut plan.work_sources;
    assert_eq!(sources.len(), 1);
    let target = planned_source_dependency_parts_for_test(
        sources.pop().expect("source work should exist"),
    );
    assert_eq!(
        target.target_kind,
        Some(LightmountRetainedSourceStyleInvalidationKind::FallbackOnly)
    );
    assert_eq!(target.fallback_roots, vec![99]);
    assert!(target
        .fallback_reasons
        .contains(LightmountSourceInvalidationFallbackReason::ScopeDependency));
}
