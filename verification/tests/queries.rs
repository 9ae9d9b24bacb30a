//! Queries, requests and the mutation facts behind them.

use lightmount_style::lightmount_invalidation::{
    LightmountChildListSiblingBoundaryKind, LightmountChildListSiblingBoundaryPlan,
    LightmountDependencyInvalidationContextRoots, LightmountDependencyInvalidationFallbackContext,
    LightmountElementDependencySnapshot, LightmountRetainedSourceStyleInvalidationKind,
    LightmountRetainedSourceStyleInvalidationSink,
    LightmountRetainedStyleChildListInvalidationQueries,
    LightmountRetainedStyleChildListInvalidationQueriesSink,
    LightmountRetainedStyleChildListInvalidationQuery,
    LightmountRetainedStyleChildListInvalidationQueryBuilder,
    LightmountRetainedStyleChildListMutationContext, LightmountRetainedStyleInvalidationQuery,
    LightmountRetainedStyleSiblingTraversal, LightmountSourceDependencyInvalidationRequest,
    LightmountSourceDependencyRequestRequirement, LightmountSourceInvalidationFallbackReason,
    LightmountStyleInvalidationQuery, LightmountStyleMutationElementSnapshot,
    lightmount_child_list_dependency_fallback_context_for_query,
    lightmount_child_list_sibling_boundary_plan,
    lightmount_retained_non_universal_queries_for_element_dependency_snapshot,
    lightmount_retained_queries_for_element_dependency_snapshot,
    lightmount_retained_source_style_invalidation_from_parts,
};
use lightmount_style::lightmount_invalidation::element_state::{
    CHECKED, ElementState, FOCUS, HEADING_LEVEL_BITS,
};
use lightmount_style::lightmount_invalidation::ordered_set::{
    OrderedSet,
};
use lightmount_style::lightmount_invalidation::query_sets::{
    RetainedQuerySet,
};
use lightmount_style::lightmount_invalidation::source_summary::{
    CascadeData,
};

#[test]
fn lightmount_retained_style_query_maps_to_stylo_query_shape() {
    let traversal = LightmountRetainedStyleSiblingTraversal::new(Some(1_u32), Some(3_u32));
    let class_query = LightmountRetainedStyleInvalidationQuery::class(2_u32, "active".into())
        .with_sibling_traversal(Some(traversal));

    assert_eq!(class_query.root(), 2);
    assert_eq!(class_query.sibling_traversal(), Some(traversal));
    assert!(!class_query.is_universal());
    assert!(!class_query.allows_direct_previous_following_sibling_fallback());
    assert_eq!(
        class_query.as_stylo_query(),
        LightmountStyleInvalidationQuery::Class("active")
    );
    let source_query = class_query.as_source_query();
    assert_eq!(source_query.root(), 2);
    assert_eq!(
        source_query.query(),
        LightmountStyleInvalidationQuery::Class("active")
    );
    assert_eq!(source_query.previous_sibling(), Some(1));
    assert_eq!(source_query.next_sibling(), Some(3));
    assert_eq!(traversal.previous_sibling(), Some(1));
    assert_eq!(traversal.next_sibling(), Some(3));

    let universal_query = LightmountRetainedStyleInvalidationQuery::universal(7_u32);
    assert!(universal_query.is_universal());
    assert_eq!(
        universal_query.as_stylo_query(),
        LightmountStyleInvalidationQuery::Universal
    );
    assert_eq!(universal_query.as_source_query().previous_sibling(), None);
    assert_eq!(universal_query.as_source_query().next_sibling(), None);

    let heading_query = LightmountRetainedStyleInvalidationQuery::state(
        9_u32,
        ElementState::new(HEADING_LEVEL_BITS),
    );
    assert!(heading_query.allows_direct_previous_following_sibling_fallback());
    assert_eq!(
        heading_query.as_stylo_query(),
        LightmountStyleInvalidationQuery::State(ElementState::new(HEADING_LEVEL_BITS))
    );
}

#[test]
fn lightmount_element_dependency_snapshot_builds_retained_queries() {
    let traversal = LightmountRetainedStyleSiblingTraversal::new(Some(1_u32), Some(3_u32));
    let snapshot = LightmountElementDependencySnapshot::new(
        2_u32,
        "article".into(),
        ElementState::new(CHECKED),
        vec!["class".into(), "data-state".into()],
        vec!["active".into()],
        vec!["expanded".into()],
        Some("main".into()),
    );

    let queries =
        lightmount_retained_queries_for_element_dependency_snapshot(&snapshot, Some(traversal));
    let query_shapes = queries
        .iter()
        .map(|query| query.as_stylo_query())
        .collect::<Vec<_>>();
    assert_eq!(
        query_shapes,
        vec![
            LightmountStyleInvalidationQuery::Universal,
            LightmountStyleInvalidationQuery::Type("article"),
            LightmountStyleInvalidationQuery::State(ElementState::new(CHECKED)),
            LightmountStyleInvalidationQuery::Attribute("class"),
            LightmountStyleInvalidationQuery::Attribute("data-state"),
            LightmountStyleInvalidationQuery::Class("active"),
            LightmountStyleInvalidationQuery::Id("main"),
            LightmountStyleInvalidationQuery::CustomState("expanded"),
        ]
    );
    assert!(queries
        .iter()
        .all(|query| query.sibling_traversal() == Some(traversal)));
    assert_eq!(snapshot.handle(), 2);
    assert_eq!(snapshot.class_tokens(), &["active".to_string()]);

    let non_universal =
        lightmount_retained_non_universal_queries_for_element_dependency_snapshot(
            &snapshot, None,
        );
    assert!(non_universal.iter().all(|query| !query.is_universal()));
    assert_eq!(
        non_universal[0].as_stylo_query(),
        LightmountStyleInvalidationQuery::Type("article")
    );
    assert!(non_universal
        .iter()
        .all(|query| query.sibling_traversal().is_none()));
}

#[test]
fn lightmount_retained_source_invalidation_input_selects_typed_variant() {
    #[derive(Default)]
    struct Sink {
        retained_fallback_kind: Option<Option<LightmountRetainedSourceStyleInvalidationKind>>,
        retained_shadow_root: Option<u32>,
        retained_query_count: usize,
        retained_reasoned_roots: Vec<u32>,
        retained_exact_safety_roots: Vec<u32>,
        retained_fallback_reasons: Vec<LightmountSourceInvalidationFallbackReason>,
        retained_snapshot: Option<u8>,
        fallback_kind: Option<LightmountRetainedSourceStyleInvalidationKind>,
        fallback_roots: Vec<u32>,
        fallback_reasons: Vec<LightmountSourceInvalidationFallbackReason>,
    }

    impl<'a> LightmountRetainedSourceStyleInvalidationSink<'a, u32, u8> for Sink {
        fn run_retained_source_style_invalidation_queries(
            &mut self,
            fallback_kind: Option<LightmountRetainedSourceStyleInvalidationKind>,
            cascade_data: Option<&'a CascadeData>,
            shadow_root: Option<u32>,
            queries: &'a RetainedQuerySet<u32>,
            reasoned_fallback_roots: &'a OrderedSet<u32>,
            exact_safety_fallback_roots: &'a OrderedSet<u32>,
            fallback_reasons: &'a OrderedSet<LightmountSourceInvalidationFallbackReason>,
            mutation_snapshot: &'a u8,
        ) {
            assert!(cascade_data.is_none());
            self.retained_fallback_kind = Some(fallback_kind);
            self.retained_shadow_root = shadow_root;
            self.retained_query_count = queries.len();
            self.retained_reasoned_roots
                .extend(reasoned_fallback_roots.to_vec());
            self.retained_exact_safety_roots
                .extend(exact_safety_fallback_roots.to_vec());
            self.retained_fallback_reasons
                .extend(fallback_reasons.to_vec());
            self.retained_snapshot = Some(*mutation_snapshot);
        }

        fn run_fallback_source_style_invalidation(
            &mut self,
            kind: LightmountRetainedSourceStyleInvalidationKind,
            fallback_roots: &'a OrderedSet<u32>,
            fallback_reasons: &'a OrderedSet<LightmountSourceInvalidationFallbackReason>,
        ) {
            self.fallback_kind = Some(kind);
            self.fallback_roots.extend(fallback_roots.to_vec());
            self.fallback_reasons
                .extend(fallback_reasons.to_vec());
        }
    }

    let query = LightmountRetainedStyleInvalidationQuery::class(1_u32, "active".into());
    let mut queries = RetainedQuerySet::new();
    queries.insert(query);
    let reasoned_roots = OrderedSet::from_slice(&[2_u32]);
    let exact_safety_roots = OrderedSet::from_slice(&[3_u32]);
    let fallback_reasons =
        OrderedSet::from_slice(&[LightmountSourceInvalidationFallbackReason::FullSelector]);
    let snapshot = 7_u8;

    let retained = lightmount_retained_source_style_invalidation_from_parts(
        LightmountRetainedSourceStyleInvalidationKind::RetainedQueries,
        Some(LightmountRetainedSourceStyleInvalidationKind::ContextFallback),
        None,
        Some(4_u32),
        Some(&queries),
        &reasoned_roots,
        &exact_safety_roots,
        &fallback_reasons,
        &snapshot,
    );

    let mut sink = Sink::default();
    retained.drain_into(&mut sink);
    assert_eq!(
        sink.retained_fallback_kind,
        Some(Some(
            LightmountRetainedSourceStyleInvalidationKind::ContextFallback
        ))
    );
    assert_eq!(sink.retained_shadow_root, Some(4));
    assert_eq!(sink.retained_query_count, 1);
    assert_eq!(sink.retained_reasoned_roots, vec![2]);
    assert_eq!(sink.retained_exact_safety_roots, vec![3]);
    assert_eq!(
        sink.retained_fallback_reasons,
        vec![LightmountSourceInvalidationFallbackReason::FullSelector]
    );
    assert_eq!(sink.retained_snapshot, Some(snapshot));

    let fallback = lightmount_retained_source_style_invalidation_from_parts(
        LightmountRetainedSourceStyleInvalidationKind::FallbackOnly,
        None,
        None,
        None,
        None,
        &reasoned_roots,
        &exact_safety_roots,
        &fallback_reasons,
        &snapshot,
    );
    let mut sink = Sink::default();
    fallback.drain_into(&mut sink);
    assert_eq!(
        sink.fallback_kind,
        Some(LightmountRetainedSourceStyleInvalidationKind::FallbackOnly)
    );
    assert_eq!(sink.fallback_roots, vec![2]);
    assert_eq!(
        sink.fallback_reasons,
        vec![LightmountSourceInvalidationFallbackReason::FullSelector]
    );
}

#[test]
fn lightmount_source_dependency_request_requirement_merges_gates() {
    let exact = LightmountSourceDependencyRequestRequirement::exact();
    let structural = LightmountSourceDependencyRequestRequirement::child_list_structural();
    let relative = LightmountSourceDependencyRequestRequirement::relative_previous_sibling();
    let both =
        LightmountSourceDependencyRequestRequirement::child_list_structural_relative_previous_sibling();

    assert!(!exact.requires_child_list_structural_dependency());
    assert!(!exact.requires_relative_previous_sibling_dependency());
    assert!(structural.requires_child_list_structural_dependency());
    assert!(!structural.requires_relative_previous_sibling_dependency());
    assert!(!relative.requires_child_list_structural_dependency());
    assert!(relative.requires_relative_previous_sibling_dependency());
    assert!(both.requires_child_list_structural_dependency());
    assert!(both.requires_relative_previous_sibling_dependency());

    let merged = structural.merged_with(relative);
    assert!(!merged.requires_child_list_structural_dependency());
    assert!(merged.requires_relative_previous_sibling_dependency());

    let merged = both.merged_with(structural);
    assert!(merged.requires_child_list_structural_dependency());
    assert!(merged.requires_relative_previous_sibling_dependency());
}

#[test]
fn lightmount_source_dependency_request_exposes_typed_context_and_gates() {
    let query = LightmountRetainedStyleInvalidationQuery::id(1_u32, "target".into());
    let context = LightmountDependencyInvalidationFallbackContext::from_mutation_relation(
        Some(2),
        Some(3),
        Some(4),
    );
    let request = LightmountSourceDependencyInvalidationRequest::new(
        &query,
        Some(context),
        LightmountSourceDependencyRequestRequirement::child_list_structural_relative_previous_sibling(),
    );

    assert_eq!(request.query().root(), 1);
    assert!(request.requires_child_list_structural_dependency());
    assert!(request.requires_relative_previous_sibling_dependency());
    let context = request.context().expect("request should expose context");
    assert_eq!(context.parent(), Some(2));
    assert_eq!(context.previous_sibling(), Some(3));
    assert_eq!(context.next_sibling(), Some(4));

    let empty = LightmountDependencyInvalidationFallbackContext::<u32>::default();
    assert_eq!(empty.parent(), None);
    assert_eq!(empty.previous_sibling(), None);
    assert_eq!(empty.next_sibling(), None);

    let exact_safety_roots = LightmountDependencyInvalidationContextRoots::new(false, vec![5]);
    assert!(!exact_safety_roots.requires_source_fallback());
    assert_eq!(exact_safety_roots.roots(), &[5]);
    assert_eq!(exact_safety_roots.into_roots(), vec![5]);

    let source_fallback_roots =
        LightmountDependencyInvalidationContextRoots::new(true, vec![6]);
    assert!(source_fallback_roots.requires_source_fallback());
    assert_eq!(source_fallback_roots.roots(), &[6]);
}

#[test]
fn lightmount_child_list_retained_query_batch_drains_typed_parts() {
    let requirement = LightmountSourceDependencyRequestRequirement::child_list_structural();
    let query = LightmountRetainedStyleInvalidationQuery::universal(1_u32);
    let row = LightmountRetainedStyleChildListInvalidationQuery::new(query, requirement);
    let batch = LightmountRetainedStyleChildListInvalidationQueries::new(
        vec![row],
        vec![1],
        vec![2],
        vec![3],
    );
    let mut sink = ChildListInvalidationBatchSinkForTest::default();

    batch.drain_into(&mut sink);

    assert_eq!(sink.rows.len(), 1);
    assert_eq!(sink.rows[0].0.root(), 1);
    assert_eq!(
        sink.rows[0].1,
        LightmountSourceDependencyRequestRequirement::child_list_structural()
    );
    assert_eq!(sink.base_roots, vec![1]);
    assert_eq!(sink.empty_target_fallback_roots, vec![2]);
    assert_eq!(sink.relative_previous_sibling_cleanup_roots, vec![3]);
}

#[derive(Default)]
struct ChildListInvalidationBatchSinkForTest {
    rows: Vec<(
        LightmountRetainedStyleInvalidationQuery<u32>,
        LightmountSourceDependencyRequestRequirement,
    )>,
    base_roots: Vec<u32>,
    empty_target_fallback_roots: Vec<u32>,
    relative_previous_sibling_cleanup_roots: Vec<u32>,
}

impl LightmountRetainedStyleChildListInvalidationQueriesSink<u32>
    for ChildListInvalidationBatchSinkForTest
{
    fn record_child_list_retained_query(
        &mut self,
        query: LightmountRetainedStyleInvalidationQuery<u32>,
        requirement: LightmountSourceDependencyRequestRequirement,
    ) {
        self.rows.push((query, requirement));
    }

    fn extend_child_list_base_roots(&mut self, roots: Vec<u32>) {
        self.base_roots.extend(roots);
    }

    fn extend_child_list_empty_target_fallback_roots(&mut self, roots: Vec<u32>) {
        self.empty_target_fallback_roots.extend(roots);
    }

    fn extend_child_list_relative_previous_sibling_cleanup_roots(&mut self, roots: Vec<u32>) {
        self.relative_previous_sibling_cleanup_roots.extend(roots);
    }
}

#[test]
fn lightmount_child_list_retained_query_batch_drains_into_sink() {
    let requirement = LightmountSourceDependencyRequestRequirement::relative_previous_sibling();
    let query = LightmountRetainedStyleInvalidationQuery::class(1_u32, "active".into());
    let row = LightmountRetainedStyleChildListInvalidationQuery::new(query, requirement);
    let batch = LightmountRetainedStyleChildListInvalidationQueries::new(
        vec![row],
        vec![1],
        vec![2],
        vec![3],
    );
    let mut sink = ChildListInvalidationBatchSinkForTest::default();

    batch.drain_into(&mut sink);

    assert_eq!(sink.rows.len(), 1);
    assert_eq!(sink.rows[0].0.root(), 1);
    assert_eq!(sink.rows[0].1, requirement);
    assert_eq!(sink.base_roots, vec![1]);
    assert_eq!(sink.empty_target_fallback_roots, vec![2]);
    assert_eq!(sink.relative_previous_sibling_cleanup_roots, vec![3]);
}

#[test]
fn lightmount_child_list_retained_query_builder_merges_rows_and_roots() {
    let query = LightmountRetainedStyleInvalidationQuery::class(1_u32, "active".into());
    let mut builder = LightmountRetainedStyleChildListInvalidationQueryBuilder::new();
    builder.insert_queries(
        vec![query.clone()],
        LightmountSourceDependencyRequestRequirement::child_list_structural(),
    );
    builder.insert_queries(
        vec![query],
        LightmountSourceDependencyRequestRequirement::exact(),
    );
    builder.insert_base_root(2);
    builder.insert_base_root(2);
    builder.insert_empty_target_fallback_root(3);
    builder.insert_empty_target_fallback_root(3);
    builder.insert_relative_previous_sibling_cleanup_root(4);
    builder.insert_relative_previous_sibling_cleanup_root(4);

    let batch = builder
        .into_queries()
        .expect("builder should emit query rows");
    let mut sink = ChildListInvalidationBatchSinkForTest::default();
    batch.drain_into(&mut sink);
    assert_eq!(sink.rows.len(), 1);
    assert_eq!(
        sink.rows[0].0.as_stylo_query(),
        LightmountStyleInvalidationQuery::Class("active")
    );
    assert_eq!(
        sink.rows[0].1,
        LightmountSourceDependencyRequestRequirement::exact()
    );
    assert_eq!(sink.base_roots, vec![2]);
    assert_eq!(sink.empty_target_fallback_roots, vec![3]);
    assert_eq!(sink.relative_previous_sibling_cleanup_roots, vec![4]);
    assert!(
        LightmountRetainedStyleChildListInvalidationQueryBuilder::<u32>::new()
            .into_queries()
            .is_none()
    );
}

#[test]
fn lightmount_child_list_sibling_boundary_plan_classifies_cleanup_buckets() {
    fn flags(plan: &LightmountChildListSiblingBoundaryPlan<u32>) -> (bool, bool, bool) {
        (
            plan.includes_base_root(),
            plan.includes_empty_target_fallback_root(),
            plan.includes_relative_previous_sibling_cleanup_root(),
        )
    }

    let inserted_middle_previous = lightmount_child_list_sibling_boundary_plan(
        Some(1_u32),
        false,
        LightmountChildListSiblingBoundaryKind::AddedPreviousSibling {
            inserted_at_end: false,
        },
    )
    .expect("unchanged previous sibling should produce a plan");
    assert_eq!(*inserted_middle_previous.root(), 1);
    assert_eq!(flags(&inserted_middle_previous), (false, true, true));

    let inserted_end_previous = lightmount_child_list_sibling_boundary_plan(
        Some(2_u32),
        false,
        LightmountChildListSiblingBoundaryKind::AddedPreviousSibling {
            inserted_at_end: true,
        },
    )
    .expect("appended previous sibling should produce a plan");
    assert_eq!(flags(&inserted_end_previous), (true, true, true));

    let inserted_next = lightmount_child_list_sibling_boundary_plan(
        Some(3_u32),
        false,
        LightmountChildListSiblingBoundaryKind::AddedNextSibling,
    )
    .expect("unchanged next sibling should produce a plan");
    assert_eq!(flags(&inserted_next), (true, true, false));

    let removed_previous = lightmount_child_list_sibling_boundary_plan(
        Some(4_u32),
        false,
        LightmountChildListSiblingBoundaryKind::RemovedPreviousSibling,
    )
    .expect("unchanged previous sibling should produce a plan");
    assert_eq!(flags(&removed_previous), (true, true, true));

    let removed_next = lightmount_child_list_sibling_boundary_plan(
        Some(5_u32),
        false,
        LightmountChildListSiblingBoundaryKind::RemovedNextSibling,
    )
    .expect("unchanged next sibling should produce a plan");
    assert_eq!(flags(&removed_next), (true, true, false));

    let removed_earlier = lightmount_child_list_sibling_boundary_plan(
        Some(6_u32),
        false,
        LightmountChildListSiblingBoundaryKind::RemovedEarlierSibling,
    )
    .expect("unchanged earlier sibling should produce a plan");
    assert_eq!(flags(&removed_earlier), (false, false, true));

    assert!(lightmount_child_list_sibling_boundary_plan(
        Some(7_u32),
        true,
        LightmountChildListSiblingBoundaryKind::AddedNextSibling,
    )
    .is_none());
    assert!(lightmount_child_list_sibling_boundary_plan::<u32>(
        None,
        false,
        LightmountChildListSiblingBoundaryKind::RemovedNextSibling,
    )
    .is_none());

    let mut builder = LightmountRetainedStyleChildListInvalidationQueryBuilder::new();
    builder.insert_queries(
        vec![LightmountRetainedStyleInvalidationQuery::universal(10_u32)],
        LightmountSourceDependencyRequestRequirement::exact(),
    );
    inserted_end_previous.apply_to_builder(&mut builder);
    inserted_next.apply_to_builder(&mut builder);
    removed_earlier.apply_to_builder(&mut builder);

    let batch = builder
        .into_queries()
        .expect("query row keeps roots visible");
    let mut sink = ChildListInvalidationBatchSinkForTest::default();
    batch.drain_into(&mut sink);
    assert_eq!(sink.base_roots, vec![2, 3]);
    assert_eq!(sink.empty_target_fallback_roots, vec![2, 3]);
    assert_eq!(sink.relative_previous_sibling_cleanup_roots, vec![2, 6]);
}

#[test]
fn lightmount_child_list_dependency_fallback_context_matches_query_root() {
    let removed_snapshot = LightmountElementDependencySnapshot::new(
        4_u32,
        "em".into(),
        ElementState::empty(),
        Vec::new(),
        Vec::new(),
        Vec::new(),
        None,
    );
    let added_nodes = [2_u32];
    let removed_nodes = [3_u32];
    let removed_snapshots = [removed_snapshot];
    let context = LightmountRetainedStyleChildListMutationContext::new(
        1,
        &added_nodes,
        &removed_nodes,
        &removed_snapshots,
        Some(5),
        Some(6),
    );

    let snapshot_query =
        LightmountRetainedStyleInvalidationQuery::element_type(4_u32, "em".into())
            .with_sibling_traversal(Some(LightmountRetainedStyleSiblingTraversal::new(
                Some(7),
                Some(8),
            )));
    let fallback =
        lightmount_child_list_dependency_fallback_context_for_query(&[context], &snapshot_query)
            .expect("removed snapshot root should match child-list context");
    assert_eq!(fallback.parent(), Some(1));
    assert_eq!(fallback.previous_sibling(), Some(7));
    assert_eq!(fallback.next_sibling(), Some(8));

    let added_query = LightmountRetainedStyleInvalidationQuery::universal(2_u32);
    let fallback =
        lightmount_child_list_dependency_fallback_context_for_query(&[context], &added_query)
            .expect("added root should match child-list context");
    assert_eq!(fallback.previous_sibling(), Some(5));
    assert_eq!(fallback.next_sibling(), Some(6));

    let unrelated_query = LightmountRetainedStyleInvalidationQuery::universal(9_u32);
    assert!(lightmount_child_list_dependency_fallback_context_for_query(
        &[context],
        &unrelated_query,
    )
    .is_none());
}

#[test]
fn lightmount_style_mutation_element_snapshot_preserves_first_old_values() {
    let mut first = LightmountStyleMutationElementSnapshot::default();
    first.record_attribute_change("class", Some("initial".into()));
    first.record_attribute_change("class", Some("middle".into()));
    assert_eq!(first.try_record_old_state(ElementState::new(CHECKED)), Some(()));
    assert_eq!(first.try_record_old_state(ElementState::new(FOCUS)), None);
    first.record_old_custom_states(vec!["first".into()]);
    first.record_old_custom_states(vec!["second".into()]);

    let mut second = LightmountStyleMutationElementSnapshot::default();
    second.record_attribute_change("class", Some("late".into()));
    second.record_attribute_change("id", Some("old-id".into()));
    second.record_attribute_change("data-state", None);
    second.try_record_old_state(ElementState::new(FOCUS));
    second.record_old_custom_states(vec!["incoming".into()]);

    first.merge_from(second);
    let changes = first.attribute_changes();

    assert_eq!(first.attribute_change_count(), 3);
    assert_eq!(changes[0].name(), "class");
    assert_eq!(changes[0].old_value(), Some("initial"));
    assert_eq!(changes[1].name(), "id");
    assert_eq!(changes[1].old_value(), Some("old-id"));
    assert_eq!(changes[2].name(), "data-state");
    assert_eq!(changes[2].old_value(), None);
    assert_eq!(first.old_state(), Some(ElementState::new(CHECKED)));
    assert_eq!(
        first.old_custom_states(),
        Some(["first".to_string()].as_slice())
    );
}
