//! What holds of the library as a whole, on concrete values.

use std::collections::VecDeque;

use lightmount_style::lightmount_invalidation::batch_planner::LightmountSourceDependencyInvalidationBatchPlanKind;
use lightmount_style::lightmount_invalidation::element_state::{
    ElementState, CHECKED, FOCUS, FOCUSRING, FOCUS_WITHIN, HOVER, MUTED, URLTARGET,
};
use lightmount_style::lightmount_invalidation::ordered_set::{same, OrderedSet};
use lightmount_style::lightmount_invalidation::planned::LightmountPlannedSourceDependencyInvalidationTargetParts;
use lightmount_style::lightmount_invalidation::query_sets::{RetainedQueryRows, RetainedQuerySet};
use lightmount_style::lightmount_invalidation::root_collection::RootCollection;
use lightmount_style::lightmount_invalidation::unique_roots::UniqueRoots;
use lightmount_style::lightmount_invalidation::{
    lightmount_child_list_dependency_fallback_context_for_query,
    lightmount_merge_retained_source_invalidation_fallback_kind,
    lightmount_merge_retained_source_invalidation_kind,
    lightmount_merge_source_dependency_request_requirement,
    lightmount_retained_exact_state_change, lightmount_runtime_fallback_roots_for_mutation_inputs,
    lightmount_source_dependency_invalidation_batch_plan,
    LightmountChildListStructuralBoundaryDependencySummary, LightmountDependencyContextRootPlan,
    LightmountDependencyFallbackReason, LightmountDependencyFallbackRootPolicy,
    LightmountDependencyInvalidationContextRoots, LightmountDependencyInvalidationFallbackContext,
    LightmountDependencyInvalidationSummary, LightmountDependencyKind,
    LightmountDependencyQueryResult, LightmountElementDependencySnapshot,
    LightmountInvalidationResultBuilder,
    LightmountRetainedSourceStyleInvalidationKind,
    LightmountRetainedStyleChildListInvalidationQueryBuilder,
    LightmountRetainedStyleChildListMutationContext, LightmountRetainedStyleInvalidationQuery,
    LightmountRetainedStyleSiblingTraversal, LightmountRuntimeFallbackRootInput,
    LightmountRuntimeFallbackRootResolver, LightmountSiblingInvalidationSummary,
    LightmountSourceDependencyBoundaryRoots, LightmountSourceDependencyInvalidationBatchSource,
    LightmountSourceDependencyInvalidationContextRootsProvider,
    LightmountSourceDependencyInvalidationRequest, LightmountSourceDependencyRequestRequirement,
    LightmountSourceDependencySummary, LightmountSourceInvalidationFallbackReason,
    LightmountSourceStyleInvalidationQueryResult,
    LightmountSourceStyleInvalidationQueryResultBuilder,
    LightmountSourceStyleInvalidationResultAccumulator,
    LightmountSourceStyleInvalidationSourceResultKind, LightmountStyleInvalidationSnapshot,
    LightmountStyleInvalidationSnapshotAttribute, LightmountStyleMutationElementSnapshot,
};

type Query = LightmountRetainedStyleInvalidationQuery<u32>;
type Requirement = LightmountSourceDependencyRequestRequirement;
type Kind = LightmountRetainedSourceStyleInvalidationKind;
type Reason = LightmountSourceInvalidationFallbackReason;

fn answer(
    kinds: &[LightmountDependencyKind],
    reasons: &[LightmountDependencyFallbackReason],
) -> LightmountDependencyQueryResult {
    let mut answer = LightmountDependencyQueryResult::default();
    for kind in kinds {
        answer.add_kind(*kind);
    }
    for reason in reasons {
        answer.add_fallback_reason(*reason);
    }
    answer
}

#[test]
fn ordered_sets_keep_first_occurrences() {
    let mut set: OrderedSet<u32> = OrderedSet::new();
    assert!(set.insert(5));
    assert!(set.insert(3));
    assert!(!set.insert(5));
    set.extend_from_slice(&[3, 9, 9]);
    assert_eq!(set.to_vec(), [5, 3, 9]);
    assert_eq!(set.len(), 3);
    assert_eq!(set.get_index(1), Some(3));
    assert_eq!(set.get_index(3), None);
    assert!(set.contains(9));
    assert!(!set.contains(4));

    let mut other = OrderedSet::from_slice(&[9, 1]);
    other.extend_from_set(&set);
    assert_eq!(other.to_vec(), [9, 1, 5, 3]);
    assert!(OrderedSet::<u8>::default().is_empty());
    assert_eq!(other.clone(), other);
    assert!(same(-3_i64, -3_i64));
    assert!(!same(-3_i32, 3_i32));
}

#[test]
fn ordered_sets_keep_their_items_apart() {
    let mut signed: OrderedSet<i32> = OrderedSet::new();
    for item in [-1, i32::MIN, i32::MAX, 0, -1] {
        signed.insert(item);
    }
    assert_eq!(signed.to_vec(), [-1, i32::MIN, i32::MAX, 0]);

    let all = [
        Reason::UnknownDependency,
        Reason::FullSelector,
        Reason::RelativeAnySelector,
        Reason::ScopeDependency,
        Reason::UnsupportedStateDependency,
        Reason::UnsupportedShadowDependency,
        Reason::SourceScopeFallback,
        Reason::UnsupportedDependency,
        Reason::NthOfDependency,
        Reason::NestedRelativeSelectorDependency,
        Reason::InexactEmptyResult,
        Reason::MissingFallbackRoots,
        Reason::MissingRetainedStyleSystem,
        Reason::MissingRetainedCascadeData,
    ];
    let mut reasons = OrderedSet::from_slice(&all);
    reasons.extend_from_slice(&all);
    assert_eq!(reasons.to_vec(), all);
}

#[test]
fn unique_roots_keep_first_occurrences() {
    let mut roots: UniqueRoots<u64> = UniqueRoots::new();
    assert!(roots.is_empty());
    assert!(roots.push(7));
    assert!(!roots.push(7));
    roots.extend_from_slice(&[8, 7, 6, 8]);
    assert_eq!(roots.as_slice(), [7, 8, 6]);
    assert_eq!(roots.len(), 3);
    assert_eq!(roots.into_vec(), [7, 8, 6]);
}

#[test]
fn root_collections_take_roots_in_their_own_way() {
    let mut list = vec![1_u32];
    list.extend_roots(vec![1, 2]);
    assert_eq!(list, [1, 1, 2]);
    let mut set = OrderedSet::from_slice(&[1_u32]);
    set.extend_roots(vec![1, 2]);
    assert_eq!(set.to_vec(), [1, 2]);

    let result = LightmountSourceStyleInvalidationQueryResult::from_parts(
        vec![2_u32, 3],
        true,
        1,
        OrderedSet::new(),
    );
    result.clone().drain_affected_roots_into(&mut list);
    result.drain_affected_roots_into(&mut set);
    assert_eq!(list, [1, 1, 2, 2, 3]);
    assert_eq!(set.to_vec(), [1, 2, 3]);
}

fn all_shapes() -> Vec<Query> {
    let traversal = LightmountRetainedStyleSiblingTraversal::new(Some(2), None);
    vec![
        Query::universal(1),
        Query::element_type(1, "a".to_string()),
        Query::attribute(1, "a".to_string()),
        Query::class(1, "a".to_string()),
        Query::id(1, "a".to_string()),
        Query::state(1, ElementState::new(HOVER)),
        Query::state(1, ElementState::new(FOCUS)),
        Query::custom_state(1, "a".to_string()),
        Query::custom_state(1, "b".to_string()),
        Query::custom_state(2, "b".to_string()),
        Query::custom_state(2, "b".to_string()).with_sibling_traversal(Some(traversal)),
        Query::custom_state(2, "b".to_string()).with_sibling_traversal(Some(
            LightmountRetainedStyleSiblingTraversal::new(None, Some(2)),
        )),
    ]
}

#[test]
fn query_sets_tell_all_queries_apart_and_give_them_back() {
    let shapes = all_shapes();
    let mut set = RetainedQuerySet::new();
    assert!(set.is_empty());
    for query in &shapes {
        assert!(set.insert(query.clone()));
        assert!(!set.insert(query.clone()));
    }
    assert_eq!(set.len(), shapes.len());
    for (index, query) in shapes.iter().enumerate() {
        assert_eq!(set.get_index(index).as_ref(), Some(query));
    }
    assert_eq!(set.get_index(shapes.len()), None);
}

#[test]
fn query_rows_merge_the_requirements_of_duplicates() {
    let shapes = all_shapes();
    let mut rows = RetainedQueryRows::new();
    for query in &shapes {
        rows.insert(query.clone(), Requirement::child_list_structural());
    }
    rows.insert(shapes[3].clone(), Requirement::relative_previous_sibling());
    assert_eq!(rows.len(), shapes.len());
    for (index, query) in shapes.iter().enumerate() {
        let (found, requirement) = rows.get_index(index).expect("one row for each query");
        assert_eq!(&found, query);
        assert_eq!(
            requirement,
            if index == 3 {
                Requirement::relative_previous_sibling()
            } else {
                Requirement::child_list_structural()
            }
        );
    }
    assert!(rows.get_index(shapes.len()).is_none());
}

#[test]
fn requirements_merge_in_any_order() {
    let all = [
        Requirement::exact(),
        Requirement::child_list_structural(),
        Requirement::relative_previous_sibling(),
        Requirement::child_list_structural_relative_previous_sibling(),
    ];
    for one in all {
        assert_eq!(lightmount_merge_source_dependency_request_requirement(one, one), one);
        for two in all {
            let merged = lightmount_merge_source_dependency_request_requirement(one, two);
            assert_eq!(
                merged,
                lightmount_merge_source_dependency_request_requirement(two, one)
            );
            assert_eq!(
                merged.requires_child_list_structural_dependency(),
                one.requires_child_list_structural_dependency()
                    && two.requires_child_list_structural_dependency()
            );
            assert_eq!(
                merged.requires_relative_previous_sibling_dependency(),
                one.requires_relative_previous_sibling_dependency()
                    || two.requires_relative_previous_sibling_dependency()
            );
        }
    }
}

#[test]
fn fallback_kinds_merge_in_any_order() {
    let all = [
        Kind::ContextFallback,
        Kind::FallbackOnly,
        Kind::SourceScopeFallback,
        Kind::MissingFallbackRoots,
        Kind::RetainedQueries,
    ];
    for (rank, one) in all.iter().enumerate() {
        for (other, two) in all.iter().enumerate() {
            assert_eq!(
                lightmount_merge_retained_source_invalidation_kind(*one, *two),
                all[rank.max(other)]
            );
        }
    }
    assert_eq!(
        lightmount_merge_retained_source_invalidation_fallback_kind(
            Some(Kind::ContextFallback),
            None
        ),
        Some(Kind::ContextFallback)
    );
    assert_eq!(
        lightmount_merge_retained_source_invalidation_fallback_kind(
            None,
            Some(Kind::FallbackOnly)
        ),
        Some(Kind::FallbackOnly)
    );
    assert_eq!(
        lightmount_merge_retained_source_invalidation_fallback_kind(None, None),
        None
    );
}

#[test]
fn the_first_mutation_that_involves_a_query_gives_its_context() {
    let snapshot = LightmountElementDependencySnapshot::new(
        8_u32,
        "p".to_string(),
        ElementState::empty(),
        Vec::new(),
        vec!["a".to_string()],
        Vec::new(),
        None,
    );
    let snapshots = [snapshot];
    let first = LightmountRetainedStyleChildListMutationContext::new(
        1_u32,
        &[2],
        &[3],
        &[],
        Some(4),
        None,
    );
    let second = LightmountRetainedStyleChildListMutationContext::new(
        5_u32,
        &[],
        &[3],
        &snapshots,
        Some(6),
        Some(7),
    );
    let context = |root: u32| {
        lightmount_child_list_dependency_fallback_context_for_query(
            &[first, second],
            &Query::universal(root),
        )
    };

    for root in [1, 2, 3, 4] {
        let found = context(root).expect("the first mutation involves the root");
        assert_eq!(found.parent(), Some(1));
        assert_eq!(found.previous_sibling(), Some(4));
        assert_eq!(found.next_sibling(), None);
    }
    for root in [5, 6, 7, 8] {
        let found = context(root).expect("the second mutation involves the root");
        assert_eq!(found.parent(), Some(5));
        assert_eq!(found.next_sibling(), Some(7));
    }
    assert_eq!(context(9), None);

    let own = LightmountRetainedStyleSiblingTraversal::new(None, Some(11));
    let found = second
        .fallback_context_for_query(&Query::universal(8).with_sibling_traversal(Some(own)))
        .expect("the mutation removed the root");
    assert_eq!(found.previous_sibling(), Some(6));
    assert_eq!(found.next_sibling(), Some(11));
}

struct HostOfSlot;

impl LightmountRuntimeFallbackRootResolver<u32> for HostOfSlot {
    fn unknown_slot_assignment_fallback_root(&self, slot: u32) -> u32 {
        slot + 1000
    }
}

fn attribute_input(
    element: u32,
    attribute_name: &str,
    has_dependency_change: bool,
) -> LightmountRuntimeFallbackRootInput<'_, u32> {
    LightmountRuntimeFallbackRootInput::Attribute {
        element,
        attribute_name,
        has_dependency_change,
        has_non_css_runtime_side_effect: false,
    }
}

#[test]
fn child_list_batches_alone_need_no_fallback_roots() {
    let child_list = LightmountRuntimeFallbackRootInput::ChildList { added_nodes: &[1, 2] };

    assert!(lightmount_runtime_fallback_roots_for_mutation_inputs(
        vec![child_list, child_list],
        &HostOfSlot
    )
    .is_empty());
    assert_eq!(
        lightmount_runtime_fallback_roots_for_mutation_inputs(
            vec![child_list, LightmountRuntimeFallbackRootInput::OtherMutation],
            &HostOfSlot
        ),
        [1, 2]
    );
    assert_eq!(
        lightmount_runtime_fallback_roots_for_mutation_inputs(
            vec![
                LightmountRuntimeFallbackRootInput::SlotAssignment {
                    slot: 7,
                    has_assignment_snapshot: false
                },
                LightmountRuntimeFallbackRootInput::SlotAssignment {
                    slot: 8,
                    has_assignment_snapshot: true
                },
                LightmountRuntimeFallbackRootInput::ConnectedSubtree { root: 2 },
                child_list,
            ],
            &HostOfSlot
        ),
        [1007, 2, 1]
    );
}

#[test]
fn attributes_without_side_effects_skip_fallback_only_with_a_dependency() {
    for (name, skips) in [
        ("class", true),
        ("dir", true),
        ("lang", true),
        ("data-", true),
        ("data-x", true),
        ("aria-label", true),
        ("data", false),
        ("xdata-x", false),
        ("Class", false),
        ("id", false),
        ("", false),
    ] {
        let roots = lightmount_runtime_fallback_roots_for_mutation_inputs(
            vec![attribute_input(1, name, true)],
            &HostOfSlot,
        );
        assert_eq!(roots.is_empty(), skips, "{name}");
        assert_eq!(
            lightmount_runtime_fallback_roots_for_mutation_inputs(
                vec![attribute_input(1, name, false)],
                &HostOfSlot
            ),
            [1]
        );
    }
}

#[test]
fn exact_state_changes_are_single_flags() {
    let checked = ElementState::new(CHECKED);
    assert_eq!(lightmount_retained_exact_state_change(checked), Some(checked));
    assert_eq!(
        lightmount_retained_exact_state_change(ElementState::new(CHECKED | MUTED)),
        None
    );
    assert_eq!(lightmount_retained_exact_state_change(ElementState::new(HOVER)), None);
    assert_eq!(lightmount_retained_exact_state_change(ElementState::empty()), None);
}

#[test]
fn the_first_values_of_a_mutation_snapshot_stay() {
    let mut snapshot = LightmountStyleMutationElementSnapshot::default();
    snapshot.record_attribute_change("title", Some("one".to_string()));
    snapshot.record_attribute_change("title", Some("two".to_string()));
    snapshot.record_attribute_change("lang", None);
    assert_eq!(snapshot.try_record_old_state(ElementState::new(HOVER)), Some(()));
    assert_eq!(snapshot.try_record_old_state(ElementState::new(FOCUS)), None);
    let mut later = LightmountStyleMutationElementSnapshot::default();
    later.record_attribute_change("lang", Some("en".to_string()));
    later.record_attribute_change("dir", Some("rtl".to_string()));
    later.record_old_custom_states(vec!["open".to_string()]);
    later.try_record_old_state(ElementState::new(FOCUS));
    snapshot.merge_from(later);
    snapshot.record_old_custom_states(Vec::new());

    let changes = snapshot.attribute_changes();
    let values: Vec<(&str, Option<&str>)> = changes
        .iter()
        .map(|change| (change.name(), change.old_value()))
        .collect();
    assert_eq!(
        values,
        [("title", Some("one")), ("lang", None), ("dir", Some("rtl"))]
    );
    assert_eq!(snapshot.attribute_change_count(), 3);
    assert_eq!(snapshot.old_state(), Some(ElementState::new(HOVER)));
    assert_eq!(snapshot.old_custom_states(), Some(&["open".to_string()][..]));
}

#[test]
fn recorded_answers_are_read_back_under_their_keys_only() {
    let element = answer(&[LightmountDependencyKind::Element], &[]);
    let siblings = answer(
        &[LightmountDependencyKind::Siblings],
        &[LightmountDependencyFallbackReason::FullSelector],
    );
    let mut summary = LightmountDependencyInvalidationSummary::default();
    summary.note_class_dependency("a".to_string(), element.clone());
    summary.note_class_dependency("a".to_string(), siblings.clone());
    summary.note_id_dependency("a".to_string(), element.clone());
    summary.note_type_dependency("empty".to_string(), answer(&[], &[]));

    assert_eq!(
        summary.query_class("a").kinds(),
        &[LightmountDependencyKind::Element, LightmountDependencyKind::Siblings]
    );
    assert_eq!(
        summary.query_class("a").fallback_reasons(),
        &[LightmountDependencyFallbackReason::FullSelector]
    );
    assert_eq!(summary.query_id("a"), element);
    assert!(!summary.query_class("b").has_any_dependency());
    assert!(!summary.query_attribute("a").has_any_dependency());
    assert!(!summary.query_type("a").has_any_dependency());
    assert!(summary.type_dependencies.is_empty());

    let mut other = LightmountDependencyInvalidationSummary::default();
    other.note_class_dependency("a".to_string(), element.clone());
    other.note_class_dependency("b".to_string(), siblings);
    other.extend(summary);
    assert_eq!(
        other.query_class("a").kinds(),
        &[LightmountDependencyKind::Element, LightmountDependencyKind::Siblings]
    );
    assert!(other.query_class("b").has_sibling_dependency());
    assert_eq!(other.query_id("a"), element);
}

#[test]
fn recorded_states_are_found_by_every_state_that_meets_them() {
    let mut summary = LightmountDependencyInvalidationSummary::default();
    summary.note_state_dependency(
        ElementState::new(HOVER | FOCUSRING),
        answer(&[LightmountDependencyKind::Element], &[]),
    );
    summary.note_state_dependency(
        ElementState::new(FOCUS_WITHIN | HOVER),
        answer(&[LightmountDependencyKind::Parts], &[]),
    );
    summary.note_state_dependency(
        ElementState::new(URLTARGET),
        answer(&[LightmountDependencyKind::Siblings], &[]),
    );
    let element = LightmountDependencyKind::Element;
    let parts = LightmountDependencyKind::Parts;

    assert_eq!(summary.query_state(ElementState::new(HOVER)).kinds(), &[element, parts]);
    assert_eq!(summary.query_state(ElementState::new(FOCUSRING)).kinds(), &[element]);
    assert_eq!(summary.query_state(ElementState::new(FOCUS_WITHIN)).kinds(), &[parts]);
    assert!(!summary.query_state(ElementState::new(CHECKED)).has_any_dependency());
    assert_eq!(summary.query_focus().kinds(), &[element, parts]);
    assert_eq!(summary.query_focus_within().kinds(), &[parts]);
    assert_eq!(
        summary.query_target().kinds(),
        &[LightmountDependencyKind::Siblings]
    );

    summary.note_unrepresented_state_dependencies(ElementState::new(CHECKED | HOVER));
    assert_eq!(
        summary.query_state(ElementState::new(CHECKED)).fallback_reasons(),
        &[LightmountDependencyFallbackReason::UnsupportedStateDependency]
    );
    assert!(!summary.query_state(ElementState::new(HOVER)).requires_fallback());
    assert!(!summary.has_unknown_dependency());
    summary.note_state_dependency(ElementState::empty(), answer(&[element], &[]));
    assert!(summary.has_unknown_dependency());
}

#[test]
fn slotted_dependencies_are_found_under_every_key() {
    let slotted = answer(&[LightmountDependencyKind::SlottedElements], &[]);
    let mut by_type = LightmountDependencyInvalidationSummary::default();
    assert!(!by_type.has_slotted_dependency());
    by_type.note_type_dependency("slot".to_string(), slotted.clone());
    assert!(by_type.has_slotted_dependency());
    let mut by_class = LightmountDependencyInvalidationSummary::default();
    by_class.note_class_dependency("slot".to_string(), slotted);
    assert!(by_class.has_slotted_dependency());
    assert!(!by_class.has_sibling_dependency());
    assert!(!by_class.has_relative_selector_dependency());
}

#[test]
fn nth_of_keys_affect_siblings_and_use_context_roots() {
    let mut summary = LightmountDependencyInvalidationSummary::default();
    summary.note_nth_of_class_dependency("item".to_string());
    let result = summary.query_class("item");

    assert!(result.has_sibling_dependency());
    assert_eq!(
        result.fallback_root_policy(),
        LightmountDependencyFallbackRootPolicy::ContextRoots
    );
    summary.note_class_dependency(
        "item".to_string(),
        answer(&[], &[LightmountDependencyFallbackReason::FullSelector]),
    );
    assert_eq!(
        summary.query_class("item").fallback_root_policy(),
        LightmountDependencyFallbackRootPolicy::SourceFallback
    );
}

#[test]
fn every_answer_with_dependencies_asks_for_roots() {
    for (kind, wanted) in [
        (LightmountDependencyKind::Element, "local"),
        (LightmountDependencyKind::ElementAndDescendants, "local"),
        (LightmountDependencyKind::Descendants, "local"),
        (LightmountDependencyKind::Siblings, "following"),
        (LightmountDependencyKind::SlottedElements, "slotted"),
        (LightmountDependencyKind::Parts, "parts"),
        (LightmountDependencyKind::RelativeAncestors, "ancestors"),
        (LightmountDependencyKind::RelativeParent, "ancestors"),
        (LightmountDependencyKind::RelativePrevSibling, "previous"),
        (LightmountDependencyKind::RelativeEarlierSibling, "earlier"),
        (LightmountDependencyKind::RelativeAncestorPrevSibling, "ancestor previous"),
        (LightmountDependencyKind::RelativeAncestorEarlierSibling, "ancestor earlier"),
        (LightmountDependencyKind::Scope, "source"),
    ] {
        let flags = answer(&[kind], &[]).context_root_flags();
        let found = match wanted {
            "local" => flags.local_subtree,
            "following" => flags.following_siblings,
            "slotted" => flags.slotted_elements,
            "parts" => flags.parts,
            "ancestors" => flags.ancestor_chain,
            "previous" => flags.previous_sibling && flags.direct_previous_sibling_relative,
            "earlier" => flags.earlier_siblings,
            "ancestor previous" => flags.ancestor_chain && flags.ancestor_previous_siblings,
            "ancestor earlier" => flags.ancestor_chain && flags.ancestor_earlier_siblings,
            _ => flags.requires_source_fallback,
        };
        assert!(found, "{wanted}");
    }
    let flags = answer(&[], &[LightmountDependencyFallbackReason::FullSelector]);
    assert!(flags.context_root_flags().requires_source_fallback);
}

#[test]
fn both_kinds_of_descendants_are_descendants() {
    for (kind, found) in [
        (LightmountDependencyKind::Descendants, true),
        (LightmountDependencyKind::ElementAndDescendants, true),
        (LightmountDependencyKind::Element, false),
        (LightmountDependencyKind::SlottedElements, false),
    ] {
        assert_eq!(answer(&[kind], &[]).has_descendants_dependency(), found);
    }
    assert!(!answer(&[], &[]).has_descendants_dependency());
}

#[test]
fn clones_have_the_same_content() {
    let mut snapshot = LightmountStyleMutationElementSnapshot::default();
    snapshot.record_attribute_change("title", Some("one".to_string()));
    snapshot.record_attribute_change("lang", None);
    snapshot.record_old_custom_states(vec!["open".to_string()]);
    let copy = snapshot.clone();
    assert_eq!(copy, snapshot);
    snapshot.record_attribute_change("dir", None);
    assert_ne!(copy, snapshot);
    assert_eq!(copy.attribute_change_count(), 2);
    assert_eq!(copy.attribute_changes()[0].old_value(), Some("one"));

    let mut builder = LightmountRetainedStyleChildListInvalidationQueryBuilder::new();
    builder.insert_queries(all_shapes(), Requirement::child_list_structural());
    builder.insert_base_root(7);
    builder.insert_empty_target_fallback_root(8);
    builder.insert_relative_previous_sibling_cleanup_root(9);
    let batch = builder.clone().into_queries().expect("there are queries");
    assert_eq!(Some(batch.clone()), builder.into_queries());
    assert_eq!(batch.queries.len(), all_shapes().len());

    let mut accumulator = LightmountSourceStyleInvalidationResultAccumulator::new();
    accumulator.merge_invalidation_query_result(query_result(&[1, 2], true, 2, &[]));
    let copy = accumulator.clone();
    assert_eq!(copy, accumulator);
    accumulator.merge_invalidation_query_result(query_result(&[3], true, 1, &[]));
    assert_ne!(copy, accumulator);
    let mut result_builder = LightmountSourceStyleInvalidationQueryResultBuilder::new();
    result_builder.note_affected_root(4_u32);
    assert_eq!(result_builder.clone(), result_builder);
}

#[test]
fn cloned_plans_plan_the_same() {
    let element = answer(&[LightmountDependencyKind::Element], &[]);
    let source = source_with_class("a", element);
    let full = source_with_class(
        "a",
        answer(&[], &[LightmountDependencyFallbackReason::FullSelector]),
    );
    let query = Query::class(1, "a".to_string());
    let request =
        LightmountSourceDependencyInvalidationRequest::new(&query, None, Requirement::exact());
    for sources in [
        vec![LightmountSourceDependencyInvalidationBatchSource::new(&source, &[90_u32], &[])],
        vec![LightmountSourceDependencyInvalidationBatchSource::new(&full, &[90], &[])],
        vec![LightmountSourceDependencyInvalidationBatchSource::new(&full, &[], &[])],
    ] {
        let plan = lightmount_source_dependency_invalidation_batch_plan(
            &sources,
            &[request],
            LightmountSourceDependencyBoundaryRoots::default(),
            &mut Replies::new(&[]),
        );
        assert_eq!(plan.clone(), plan);
    }
}

#[test]
fn sibling_summaries_add_up() {
    let mut one = LightmountSiblingInvalidationSummary::default();
    one.class_dependencies.push("a".to_string());
    let mut two = LightmountSiblingInvalidationSummary::default();
    two.class_dependencies.push("b".to_string());
    two.note_state_dependency(ElementState::new(FOCUS));
    one.extend(two);

    assert!(one.has_class_dependency("a"));
    assert!(one.has_class_dependency("b"));
    assert!(one.focus_dependency);
    assert!(!one.unknown_dependency);
    one.note_state_dependency(ElementState::new(HOVER));
    assert!(one.unknown_dependency);
}

/// Replies with prepared roots, one list for each question.
struct Replies {
    prepared: VecDeque<(bool, Vec<u32>)>,
    asked: Vec<u32>,
}

impl Replies {
    fn new(prepared: &[(bool, &[u32])]) -> Self {
        Self {
            prepared: prepared
                .iter()
                .map(|(fallback, roots)| (*fallback, roots.to_vec()))
                .collect(),
            asked: Vec::new(),
        }
    }
}

impl LightmountSourceDependencyInvalidationContextRootsProvider<u32> for Replies {
    fn context_roots_for_source_dependency(
        &mut self,
        root: u32,
        _plan: LightmountDependencyContextRootPlan,
        _context: LightmountDependencyInvalidationFallbackContext<u32>,
    ) -> LightmountDependencyInvalidationContextRoots<u32> {
        self.asked.push(root);
        let (fallback, roots) = self.prepared.pop_front().expect("a reply is prepared");
        LightmountDependencyInvalidationContextRoots::new(fallback, roots)
    }
}

fn source_with_class(
    class: &str,
    result: LightmountDependencyQueryResult,
) -> LightmountSourceDependencySummary {
    let mut summary = LightmountDependencyInvalidationSummary::default();
    summary.note_class_dependency(class.to_string(), result);
    LightmountSourceDependencySummary::new(
        summary,
        false,
        LightmountChildListStructuralBoundaryDependencySummary::default(),
    )
}

type Parts = LightmountPlannedSourceDependencyInvalidationTargetParts<u32>;

/// The planned rows, or the row that requires fallback.
fn plan_batch(
    sources: &[LightmountSourceDependencyInvalidationBatchSource<'_, u32>],
    requests: &[LightmountSourceDependencyInvalidationRequest<'_, u32>],
    boundary_roots: &[u32],
    replies: &mut Replies,
) -> Result<Vec<(usize, Parts)>, (usize, Parts)> {
    let plan = lightmount_source_dependency_invalidation_batch_plan(
        sources,
        requests,
        LightmountSourceDependencyBoundaryRoots::new(boundary_roots, &[]),
        replies,
    );
    match plan.plan {
        LightmountSourceDependencyInvalidationBatchPlanKind::Work { sources, .. } => Ok(sources
            .into_iter()
            .map(|row| (row.source_index, row.target.into_parts()))
            .collect()),
        LightmountSourceDependencyInvalidationBatchPlanKind::RequiresSourceFallback { source } => {
            Err((source.source_index, source.target.into_parts()))
        },
    }
}

#[test]
fn concerned_sources_have_one_row_each_in_order() {
    let element = answer(&[LightmountDependencyKind::Element], &[]);
    let first = source_with_class("a", element.clone());
    let second = source_with_class("other", element.clone());
    let third = source_with_class("a", element);
    let sources = [
        LightmountSourceDependencyInvalidationBatchSource::new(&first, &[90_u32], &[]),
        LightmountSourceDependencyInvalidationBatchSource::new(&second, &[91], &[]),
        LightmountSourceDependencyInvalidationBatchSource::new(&third, &[92], &[93]),
    ];
    let query = Query::class(1, "a".to_string());
    let request =
        LightmountSourceDependencyInvalidationRequest::new(&query, None, Requirement::exact());
    let rows = plan_batch(&sources, &[request], &[], &mut Replies::new(&[]))
        .expect("no source forces fallback");

    assert_eq!(rows.len(), 2);
    for ((index, parts), (expected, safety_roots)) in
        rows.into_iter().zip([(0, [90_u32]), (2, [93])])
    {
        assert_eq!(index, expected);
        assert_eq!(
            parts,
            Parts::RetainedQueries {
                exact_queries: vec![query.clone()],
                fallback_kind: None,
                reasoned_fallback_roots: Vec::new(),
                exact_safety_fallback_roots: safety_roots.to_vec(),
                fallback_reasons: OrderedSet::new(),
            }
        );
    }
}

#[test]
fn a_source_without_fallback_roots_stops_the_batch() {
    let element = answer(&[LightmountDependencyKind::Element], &[]);
    let full = answer(&[], &[LightmountDependencyFallbackReason::FullSelector]);
    let first = source_with_class("a", element.clone());
    let second = source_with_class("a", full);
    let third = source_with_class("a", element);
    let sources = [
        LightmountSourceDependencyInvalidationBatchSource::new(&first, &[90_u32], &[]),
        LightmountSourceDependencyInvalidationBatchSource::new(&second, &[], &[]),
        LightmountSourceDependencyInvalidationBatchSource::new(&third, &[92], &[]),
    ];
    let query = Query::class(1, "a".to_string());
    let context =
        LightmountDependencyInvalidationFallbackContext::from_mutation_relation(None, None, None);
    let request = LightmountSourceDependencyInvalidationRequest::new(
        &query,
        Some(context),
        Requirement::exact(),
    );
    let mut replies = Replies::new(&[(false, &[10])]);
    let (index, parts) = plan_batch(&sources, &[request], &[], &mut replies)
        .expect_err("the second source forces fallback");

    assert_eq!(index, 1);
    assert_eq!(
        parts,
        Parts::MissingFallbackRoots {
            fallback_reasons: OrderedSet::from_slice(&[
                Reason::FullSelector,
                Reason::MissingFallbackRoots,
            ]),
        }
    );
    assert_eq!(replies.asked, [1]);
}

#[test]
fn context_replies_decide_how_a_request_is_planned() {
    let siblings = answer(&[LightmountDependencyKind::Siblings], &[]);
    let source = source_with_class("a", siblings);
    let sources = [LightmountSourceDependencyInvalidationBatchSource::new(
        &source,
        &[90_u32],
        &[],
    )];
    let query = Query::class(1, "a".to_string());
    let context = LightmountDependencyInvalidationFallbackContext::default();
    let request = LightmountSourceDependencyInvalidationRequest::new(
        &query,
        Some(context),
        Requirement::exact(),
    );
    let plan = |reply: (bool, &[u32])| {
        let mut rows = plan_batch(&sources, &[request], &[], &mut Replies::new(&[reply]))
            .expect("fallback roots are there");
        rows.remove(0).1
    };

    assert_eq!(
        plan((false, &[10, 11, 10])),
        Parts::RetainedQueries {
            exact_queries: vec![query.clone()],
            fallback_kind: None,
            reasoned_fallback_roots: Vec::new(),
            exact_safety_fallback_roots: vec![10, 11],
            fallback_reasons: OrderedSet::new(),
        }
    );
    assert_eq!(
        plan((true, &[10])),
        Parts::FallbackWithRoots {
            fallback_kind: Kind::FallbackOnly,
            fallback_roots: vec![90],
            fallback_reasons: OrderedSet::from_slice(&[Reason::UnsupportedDependency]),
        }
    );
}

#[test]
fn unrelated_requests_plan_nothing_and_ask_nothing() {
    let source = source_with_class("a", answer(&[LightmountDependencyKind::Element], &[]));
    let sources = [LightmountSourceDependencyInvalidationBatchSource::new(
        &source,
        &[90_u32],
        &[],
    )];
    let query = Query::class(1, "b".to_string());
    let gated = Query::class(1, "a".to_string());
    let context = LightmountDependencyInvalidationFallbackContext::default();
    let requests = [
        LightmountSourceDependencyInvalidationRequest::new(
            &query,
            Some(context),
            Requirement::exact(),
        ),
        LightmountSourceDependencyInvalidationRequest::new(
            &gated,
            Some(context),
            Requirement::child_list_structural(),
        ),
        LightmountSourceDependencyInvalidationRequest::new(
            &gated,
            Some(context),
            Requirement::relative_previous_sibling(),
        ),
    ];
    let mut replies = Replies::new(&[]);

    assert_eq!(plan_batch(&sources, &requests, &[50], &mut replies), Ok(Vec::new()));
    assert!(replies.asked.is_empty());
}

#[test]
fn empty_targets_fall_back_to_boundary_roots_or_their_source() {
    let slotted = answer(&[LightmountDependencyKind::SlottedElements], &[]);
    let source = source_with_class("a", slotted);
    let rootless = LightmountSourceDependencyInvalidationBatchSource::new(&source, &[], &[]);
    let rooted = LightmountSourceDependencyInvalidationBatchSource::new(&source, &[90_u32], &[]);
    let query = Query::class(1, "a".to_string());
    let request =
        LightmountSourceDependencyInvalidationRequest::new(&query, None, Requirement::exact());

    let (index, parts) = plan_batch(
        &[rootless, rooted],
        &[request],
        &[],
        &mut Replies::new(&[]),
    )
    .expect_err("there are no boundary roots");
    assert_eq!(index, 1);
    assert_eq!(
        parts,
        Parts::FallbackWithRoots {
            fallback_kind: Kind::FallbackOnly,
            fallback_roots: vec![90],
            fallback_reasons: OrderedSet::from_slice(&[Reason::InexactEmptyResult]),
        }
    );
}

fn query_result(
    roots: &[u32],
    exact: bool,
    matched: usize,
    reasons: &[Reason],
) -> LightmountSourceStyleInvalidationQueryResult<u32> {
    LightmountSourceStyleInvalidationQueryResult::from_parts(
        roots.to_vec(),
        exact,
        matched,
        OrderedSet::from_slice(reasons),
    )
}

#[test]
fn accumulating_results_is_accumulating_their_merge() {
    let one = || query_result(&[1, 2], true, 2, &[Reason::FullSelector]);
    let two = || query_result(&[2, 3], false, 1, &[Reason::NthOfDependency]);
    let mut in_turn = LightmountSourceStyleInvalidationResultAccumulator::new();
    in_turn.merge_invalidation_query_result(one());
    in_turn.merge_invalidation_query_result(two());
    let mut merged = LightmountSourceStyleInvalidationResultAccumulator::new();
    merged.merge_invalidation_query_result(one().merged_with(two()));

    let roots = OrderedSet::new();
    let result = in_turn.into_source_result(&roots);
    assert_eq!(result.affected_roots, [1, 2, 3]);
    assert_eq!(result.matched_dependency_count, 3);
    assert!(!result.empty_result_is_exact);
    assert_eq!(
        result.fallback_reasons.to_vec(),
        [
            Reason::FullSelector,
            Reason::NthOfDependency,
            Reason::MissingFallbackRoots,
        ]
    );
    assert_eq!(result, merged.into_source_result(&roots));
}

#[test]
fn source_results_are_exact_or_give_reasons() {
    let finish = |result, roots: &[u32]| {
        let mut accumulator = LightmountSourceStyleInvalidationResultAccumulator::new();
        accumulator.merge_invalidation_query_result(result);
        accumulator.into_source_result(&OrderedSet::from_slice(roots))
    };

    let exact = finish(query_result(&[], true, 1, &[]), &[9]);
    assert_eq!(exact.fallback_kind, None);
    assert!(exact.affected_roots.is_empty());
    let affected = finish(query_result(&[4], false, 0, &[]), &[9]);
    assert_eq!(affected.fallback_kind, None);
    assert_eq!(affected.affected_roots, [4]);
    let unmatched = finish(query_result(&[], true, 0, &[]), &[9]);
    assert_eq!(
        unmatched.fallback_kind,
        Some(LightmountSourceStyleInvalidationSourceResultKind::Fallback)
    );
    assert_eq!(unmatched.affected_roots, [9]);
    assert_eq!(unmatched.fallback_reasons.to_vec(), [Reason::InexactEmptyResult]);
    let rootless = finish(query_result(&[], false, 1, &[]), &[]);
    assert_eq!(
        rootless.fallback_kind,
        Some(LightmountSourceStyleInvalidationSourceResultKind::MissingFallbackRoots)
    );
    assert_eq!(
        rootless.fallback_reasons.to_vec(),
        [Reason::InexactEmptyResult, Reason::MissingFallbackRoots]
    );
}

#[test]
fn work_has_a_boundary_fallback_exactly_where_a_source_needs_one() {
    let slotted = source_with_class("a", answer(&[LightmountDependencyKind::SlottedElements], &[]));
    let plain = source_with_class("a", answer(&[LightmountDependencyKind::Element], &[]));
    let query = Query::class(1, "a".to_string());
    let request =
        LightmountSourceDependencyInvalidationRequest::new(&query, None, Requirement::exact());
    let boundary_fallback = |summaries: &[&LightmountSourceDependencySummary]| {
        let sources: Vec<LightmountSourceDependencyInvalidationBatchSource<'_, u32>> = summaries
            .iter()
            .map(|summary| {
                LightmountSourceDependencyInvalidationBatchSource::new(*summary, &[90], &[])
            })
            .collect();
        let plan = lightmount_source_dependency_invalidation_batch_plan(
            &sources,
            &[request],
            LightmountSourceDependencyBoundaryRoots::new(&[50, 51], &[]),
            &mut Replies::new(&[]),
        );
        match plan.plan {
            LightmountSourceDependencyInvalidationBatchPlanKind::Work {
                boundary_fallback,
                ..
            } => boundary_fallback.map(|target| target.into_parts().fallback_roots),
            _ => panic!("there are boundary roots"),
        }
    };

    assert_eq!(boundary_fallback(&[&plain, &plain]), None);
    assert_eq!(boundary_fallback(&[&plain, &slotted]), Some(vec![50, 51]));
    assert_eq!(boundary_fallback(&[&slotted, &plain]), Some(vec![50, 51]));
}

#[test]
fn focus_flags_follow_the_recorded_states() {
    for (bits, focus, within, target) in [
        (FOCUS, true, false, false),
        (FOCUSRING, true, false, false),
        (FOCUS_WITHIN, true, true, false),
        (URLTARGET, false, false, true),
        (HOVER, false, false, false),
        (HOVER | FOCUS_WITHIN | URLTARGET, true, true, true),
    ] {
        let mut recorded = LightmountDependencyInvalidationSummary::default();
        recorded.note_state_dependency(
            ElementState::new(bits),
            answer(&[LightmountDependencyKind::Parts], &[]),
        );
        recorded.note_state_dependency(ElementState::new(u64::MAX), answer(&[], &[]));
        let mut summary = LightmountDependencyInvalidationSummary::default();
        summary.note_class_dependency(
            "a".to_string(),
            answer(&[LightmountDependencyKind::Element], &[]),
        );
        summary.extend(recorded);
        assert_eq!(summary.query_focus().has_any_dependency(), focus);
        assert_eq!(summary.query_focus_within().has_any_dependency(), within);
        assert_eq!(summary.query_target().has_any_dependency(), target);
        for kind in summary.query_focus_within().kinds() {
            assert!(summary.query_focus().kinds().contains(kind));
        }
    }
}

#[test]
fn summaries_report_what_their_answers_affect() {
    let siblings = answer(&[LightmountDependencyKind::Siblings], &[]);
    let anchors = answer(&[LightmountDependencyKind::RelativeParent], &[]);
    let mut by_state = LightmountDependencyInvalidationSummary::default();
    by_state.note_state_dependency(ElementState::new(HOVER), siblings);
    assert!(by_state.query_state(ElementState::new(HOVER)).has_sibling_dependency());
    assert!(by_state.has_sibling_dependency());
    assert!(!by_state.has_relative_selector_dependency());

    let mut by_type = LightmountDependencyInvalidationSummary::default();
    by_type.note_type_dependency("li".to_string(), anchors);
    assert!(by_type.has_relative_selector_dependency());
    assert!(!by_type.has_sibling_dependency());

    let plain = LightmountDependencyInvalidationSummary::default();
    for (one, two, relative) in [
        (&plain, &by_state, false),
        (&plain, &by_type, true),
        (&by_type, &plain, true),
        (&by_state, &by_type, true),
    ] {
        let mut joined = one.clone();
        joined.extend(two.clone());
        assert_eq!(joined.has_relative_selector_dependency(), relative);
    }
}

#[test]
fn clones_of_results_and_snapshots_have_the_same_content() {
    let result = query_result(&[1, 2], true, 3, &[Reason::FullSelector]);
    assert_eq!(result.clone(), result);
    let mut accumulator = LightmountSourceStyleInvalidationResultAccumulator::new();
    accumulator.merge_invalidation_query_result(result);
    let source_result = accumulator.into_source_result(&OrderedSet::from_slice(&[9]));
    assert_eq!(source_result.clone(), source_result);

    let mut builder = LightmountInvalidationResultBuilder::new();
    builder.push_exact_source_result(3, vec![1_u32, 2], true, 4);
    let table = builder.clone().finish();
    assert_eq!(table, builder.finish());
    assert_eq!(table.clone(), table);
    let row = table.source_results[0].clone();
    assert_eq!(row, table.source_results[0]);
    let parts = row.into_source_result_cleanup_and_target_record_parts(true);
    assert_eq!(parts.affected_roots.clone(), parts.affected_roots);
    assert_eq!(parts.target_result_record.clone(), parts.target_result_record);

    let attribute = LightmountStyleInvalidationSnapshotAttribute::new(
        "href".to_string(),
        "xlink:href".to_string(),
        "ns".to_string(),
        Some("xlink".to_string()),
        "a".to_string(),
    );
    let snapshot = LightmountStyleInvalidationSnapshot::new(
        1_u32,
        Some(ElementState::new(HOVER)),
        Some(vec!["open".to_string()]),
        vec!["href".to_string()],
        vec![attribute.clone(), attribute],
    );
    assert_eq!(snapshot.clone(), snapshot);
    let keys = LightmountElementDependencySnapshot::new(
        1_u32,
        "p".to_string(),
        ElementState::new(HOVER),
        vec!["title".to_string()],
        vec!["a".to_string(), "b".to_string()],
        vec!["open".to_string()],
        Some("main".to_string()),
    );
    assert_eq!(keys.clone(), keys);
}
