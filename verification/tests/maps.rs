//! Invalidation maps, their summaries, and the processor and traversals that
//! work on what is found in them.

use lightmount_style::lightmount_invalidation::dependency::{
    Dependency, DependencyInvalidationKind, DependencySelectorFacts,
    NormalDependencyInvalidationKind, RelativeDependencyInvalidationKind,
    ScopeDependencyInvalidationKind,
};
use lightmount_style::lightmount_invalidation::element_state::{
    ElementState, FOCUS, HEADING_LEVEL_BITS, HOVER, INRANGE, MUTED, OUTOFRANGE, PAUSED, SEEKING,
    URLTARGET,
};
use lightmount_style::lightmount_invalidation::element_tree::ElementTree;
use lightmount_style::lightmount_invalidation::invalidation_map::{
    AdditionalRelativeSelectorInvalidationMap, InvalidationMap, QuirksMode, SelectorMap,
    StateDependency,
};
use lightmount_style::lightmount_invalidation::processor::{
    check_outer_dependency, CollectedInvalidation, CollectedInvalidations, InvalidationSubject,
    MatchingScope, OuterDependencyCheck,
};
use lightmount_style::lightmount_invalidation::relative::RelativeDependencyCollection;
use lightmount_style::lightmount_invalidation::root_collection::RootCollection;
use lightmount_style::lightmount_invalidation::{
    lightmount_collect_dependencies_from_additional_relative_invalidation_map,
    lightmount_collect_dependencies_from_invalidation_map,
    lightmount_collect_relative_style_invalidation_query_result,
    lightmount_dependency_has_nested_relative_dependency,
    lightmount_dependency_is_sibling_sensitive,
    lightmount_dependency_summary_for_invalidation_map,
    lightmount_dependency_summary_for_relative_invalidation_map,
    lightmount_selector_map_has_sibling_dependency,
    lightmount_sibling_summary_for_invalidation_map,
    lightmount_sibling_summary_for_relative_invalidation_map,
    lightmount_visit_relative_dependency_candidates, LightmountDependencyFallbackReason,
    LightmountDependencyFallbackRootPolicy, LightmountDependencyKind,
    LightmountRelativeDependencyInvalidationAction, LightmountSnapshotRelativeDependencyRoots,
    LightmountSourceInvalidationFallbackReason, LightmountStyleInvalidationElementRoot,
    LightmountStyleInvalidationProcessor, LightmountStyleInvalidationQuery,
};

fn of_kind(kind: DependencyInvalidationKind) -> Dependency {
    Dependency::new(DependencySelectorFacts::subject(), Vec::new(), kind)
}

fn normal(kind: NormalDependencyInvalidationKind) -> Dependency {
    of_kind(DependencyInvalidationKind::Normal(kind))
}

fn relative(kind: RelativeDependencyInvalidationKind) -> Dependency {
    of_kind(DependencyInvalidationKind::Relative(kind))
}

fn scope(kind: ScopeDependencyInvalidationKind, next: Vec<Dependency>) -> Dependency {
    Dependency::new(
        DependencySelectorFacts::subject(),
        next,
        DependencyInvalidationKind::Scope(kind),
    )
}

fn on_state(bits: u64, dep: Dependency) -> StateDependency {
    StateDependency { dep, state: ElementState::new(bits) }
}

fn kinds_found(
    map: &InvalidationMap,
    quirks_mode: QuirksMode,
    query: LightmountStyleInvalidationQuery<'_>,
) -> Vec<DependencyInvalidationKind> {
    let candidates: Vec<&StateDependency> = map.state_affecting_selectors.other.iter().collect();
    let mut found = Vec::new();
    lightmount_collect_dependencies_from_invalidation_map(
        map,
        quirks_mode,
        &candidates,
        query,
        &mut found,
    );
    found.iter().map(|dependency| dependency.invalidation_kind()).collect()
}

const ELEMENT: DependencyInvalidationKind =
    DependencyInvalidationKind::Normal(NormalDependencyInvalidationKind::Element);
const DESCENDANTS: DependencyInvalidationKind =
    DependencyInvalidationKind::Normal(NormalDependencyInvalidationKind::Descendants);
const SIBLINGS: DependencyInvalidationKind =
    DependencyInvalidationKind::Normal(NormalDependencyInvalidationKind::Siblings);

#[test]
fn lightmount_dependency_summary_collects_migrated_state_pseudos() {
    let states = [PAUSED, SEEKING, MUTED, HEADING_LEVEL_BITS, INRANGE, OUTOFRANGE];
    let mut map = InvalidationMap::new();
    for state in states {
        map.state_affecting_selectors
            .other
            .push(on_state(state, of_kind(ELEMENT)));
    }
    let summary = lightmount_dependency_summary_for_invalidation_map(&map);

    for state in states {
        let result = summary.query_state(ElementState::new(state));
        assert!(result.has_any_dependency(), "missing dependency for {state:?}");
        assert!(
            result.fallback_reasons().is_empty(),
            "state dependency should not require fallback for {state:?}: {:?}",
            result.fallback_reasons()
        );
    }
}

#[test]
fn lightmount_dependency_summary_collects_lang_and_dir_attribute_pseudos() {
    let mut map = InvalidationMap::new();
    for attribute in ["lang", "dir"] {
        map.other_attribute_affecting_selectors.push((
            attribute.to_string(),
            vec![normal(NormalDependencyInvalidationKind::Parts)],
        ));
    }
    let summary = lightmount_dependency_summary_for_invalidation_map(&map);

    for attribute in ["lang", "dir"] {
        let result = summary.query_attribute(attribute);
        assert!(result.has_any_dependency(), "missing dependency for {attribute}");
        assert!(
            result.fallback_reasons().is_empty(),
            "attribute dependency should not require fallback for {attribute}: {:?}",
            result.fallback_reasons()
        );
    }
}

#[test]
fn lightmount_summary_marks_nested_relative_selector_lists_for_fallback() {
    let mut map = InvalidationMap::new();
    for class in ["item", "child"] {
        map.class_to_selector.push((
            class.to_string(),
            vec![Dependency::new(
                DependencySelectorFacts::subject(),
                vec![relative(RelativeDependencyInvalidationKind::Ancestors)],
                SIBLINGS,
            )],
        ));
    }
    assert!(lightmount_dependency_has_nested_relative_dependency(
        &map.class_to_selector[0].1[0]
    ));
    let summary = lightmount_dependency_summary_for_invalidation_map(&map);

    for class in ["item", "child"] {
        let result = summary.query_class(class);
        assert!(result.has_any_dependency());
        assert!(result.requires_fallback());
        assert!(result
            .fallback_reasons()
            .contains(&LightmountDependencyFallbackReason::NestedRelativeSelectorDependency));
        assert_eq!(
            result.fallback_root_policy(),
            LightmountDependencyFallbackRootPolicy::ContextRoots
        );
    }
}

#[test]
fn lightmount_summary_exposes_link_pseudos_as_href_attribute_dependencies() {
    let mut map = InvalidationMap::new();
    map.other_attribute_affecting_selectors.push((
        "href".to_string(),
        vec![relative(RelativeDependencyInvalidationKind::Ancestors)],
    ));
    let summary = lightmount_dependency_summary_for_invalidation_map(&map);

    assert!(summary.query_attribute("href").has_any_dependency());
    assert!(!summary.query_attribute("class").has_any_dependency());
}

#[test]
fn queries_find_the_dependencies_of_their_map() {
    let mut map = InvalidationMap::new();
    map.class_to_selector
        .push(("active".to_string(), vec![of_kind(ELEMENT), of_kind(SIBLINGS)]));
    map.id_to_selector.push(("main".to_string(), vec![of_kind(DESCENDANTS)]));
    map.other_attribute_affecting_selectors
        .push(("title".to_string(), vec![of_kind(ELEMENT)]));
    map.type_to_selector.push(("p".to_string(), vec![of_kind(SIBLINGS)]));
    map.custom_state_affecting_selectors
        .push(("open".to_string(), vec![of_kind(DESCENDANTS)]));
    map.any_to_selector.push(of_kind(ELEMENT));
    map.state_affecting_selectors.other.push(on_state(HOVER, of_kind(ELEMENT)));
    map.state_affecting_selectors
        .other
        .push(on_state(HOVER | FOCUS, of_kind(DESCENDANTS)));

    let mode = QuirksMode::NoQuirks;
    assert_eq!(
        kinds_found(&map, mode, LightmountStyleInvalidationQuery::Class("active")),
        [ELEMENT, SIBLINGS]
    );
    assert_eq!(
        kinds_found(&map, mode, LightmountStyleInvalidationQuery::Id("main")),
        [DESCENDANTS]
    );
    assert_eq!(
        kinds_found(&map, mode, LightmountStyleInvalidationQuery::Attribute("title")),
        [ELEMENT]
    );
    assert_eq!(
        kinds_found(&map, mode, LightmountStyleInvalidationQuery::Type("p")),
        [SIBLINGS]
    );
    assert_eq!(
        kinds_found(&map, mode, LightmountStyleInvalidationQuery::CustomState("open")),
        [DESCENDANTS]
    );
    assert_eq!(
        kinds_found(&map, mode, LightmountStyleInvalidationQuery::Universal),
        [ELEMENT]
    );
    assert_eq!(
        kinds_found(
            &map,
            mode,
            LightmountStyleInvalidationQuery::State(ElementState::new(FOCUS))
        ),
        [DESCENDANTS]
    );
    assert_eq!(
        kinds_found(
            &map,
            mode,
            LightmountStyleInvalidationQuery::State(ElementState::new(HOVER))
        ),
        [ELEMENT, DESCENDANTS]
    );
    assert!(kinds_found(&map, mode, LightmountStyleInvalidationQuery::Type("div")).is_empty());
}

#[test]
fn quirks_mode_looks_classes_and_ids_up_in_lower_case() {
    let mut map = InvalidationMap::new();
    map.class_to_selector.push(("active".to_string(), vec![of_kind(ELEMENT)]));
    map.id_to_selector.push(("main".to_string(), vec![of_kind(DESCENDANTS)]));
    map.type_to_selector.push(("p".to_string(), vec![of_kind(SIBLINGS)]));

    assert_eq!(
        kinds_found(
            &map,
            QuirksMode::Quirks,
            LightmountStyleInvalidationQuery::Class("aCTIve")
        ),
        [ELEMENT]
    );
    assert_eq!(
        kinds_found(&map, QuirksMode::Quirks, LightmountStyleInvalidationQuery::Id("MAIN")),
        [DESCENDANTS]
    );
    for mode in [QuirksMode::LimitedQuirks, QuirksMode::NoQuirks] {
        assert!(
            kinds_found(&map, mode, LightmountStyleInvalidationQuery::Class("aCTIve")).is_empty()
        );
        assert!(kinds_found(&map, mode, LightmountStyleInvalidationQuery::Id("MAIN")).is_empty());
    }
    assert!(
        kinds_found(&map, QuirksMode::Quirks, LightmountStyleInvalidationQuery::Type("P"))
            .is_empty()
    );
}

#[test]
fn additional_relative_maps_answer_universal_and_type_queries_only() {
    let mut map = AdditionalRelativeSelectorInvalidationMap::new();
    map.any_to_selector.push(relative(RelativeDependencyInvalidationKind::Parent));
    map.type_to_selector.push((
        "li".to_string(),
        vec![relative(RelativeDependencyInvalidationKind::PrevSibling)],
    ));
    let find = |query: LightmountStyleInvalidationQuery<'_>| {
        let mut found = Vec::new();
        lightmount_collect_dependencies_from_additional_relative_invalidation_map(
            &map, query, &mut found,
        );
        found.len()
    };

    assert_eq!(find(LightmountStyleInvalidationQuery::Universal), 1);
    assert_eq!(find(LightmountStyleInvalidationQuery::Type("li")), 1);
    assert_eq!(find(LightmountStyleInvalidationQuery::Type("p")), 0);
    assert_eq!(find(LightmountStyleInvalidationQuery::Class("li")), 0);

    let summary = lightmount_dependency_summary_for_relative_invalidation_map(&map);
    assert_eq!(
        summary.query_universal().kinds(),
        &[LightmountDependencyKind::RelativeParent]
    );
    assert_eq!(
        summary.query_type("li").kinds(),
        &[LightmountDependencyKind::RelativePrevSibling]
    );
    assert!(!summary.has_unknown_dependency());
    map.ts_state_to_selector.root.push(on_state(HOVER, of_kind(ELEMENT)));
    assert!(
        lightmount_dependency_summary_for_relative_invalidation_map(&map).has_unknown_dependency()
    );
}

#[test]
fn sibling_summaries_cover_every_sensitive_dependency() {
    let mut map = InvalidationMap::new();
    map.class_to_selector.push(("plain".to_string(), vec![of_kind(ELEMENT)]));
    map.class_to_selector
        .push(("active".to_string(), vec![of_kind(ELEMENT), of_kind(SIBLINGS)]));
    map.id_to_selector.push(("main".to_string(), vec![of_kind(SIBLINGS)]));
    map.other_attribute_affecting_selectors
        .push(("title".to_string(), vec![of_kind(SIBLINGS)]));
    map.state_affecting_selectors.other.push(on_state(FOCUS, of_kind(SIBLINGS)));
    map.state_affecting_selectors.root.push(on_state(URLTARGET, of_kind(SIBLINGS)));
    let summary = lightmount_sibling_summary_for_invalidation_map(&map);

    assert!(summary.has_any_dependency());
    assert!(summary.has_class_dependency("active"));
    assert!(!summary.has_class_dependency("plain"));
    assert!(summary.has_id_dependency("main"));
    assert!(summary.has_attribute_dependency("title"));
    assert!(summary.focus_dependency);
    assert!(summary.target_dependency);
    assert!(!summary.unknown_dependency);

    map.type_to_selector.push(("p".to_string(), vec![of_kind(SIBLINGS)]));
    assert!(lightmount_sibling_summary_for_invalidation_map(&map).unknown_dependency);
    let mut hovered = InvalidationMap::new();
    assert!(!lightmount_sibling_summary_for_invalidation_map(&hovered).has_any_dependency());
    hovered
        .state_affecting_selectors
        .class_hash
        .push(("a".to_string(), vec![on_state(HOVER, of_kind(SIBLINGS))]));
    assert!(lightmount_sibling_summary_for_invalidation_map(&hovered).unknown_dependency);
}

#[test]
fn relative_sibling_summaries_are_unknown_or_empty() {
    let mut map = AdditionalRelativeSelectorInvalidationMap::new();
    assert!(!lightmount_sibling_summary_for_relative_invalidation_map(&map).has_any_dependency());
    map.any_to_selector.push(relative(RelativeDependencyInvalidationKind::Parent));
    assert!(!lightmount_sibling_summary_for_relative_invalidation_map(&map).has_any_dependency());
    map.any_to_selector.push(relative(RelativeDependencyInvalidationKind::EarlierSibling));
    assert!(lightmount_sibling_summary_for_relative_invalidation_map(&map).unknown_dependency);

    let mut states: SelectorMap<StateDependency> = SelectorMap::new();
    assert!(!lightmount_selector_map_has_sibling_dependency(&states));
    states.other.push(on_state(HOVER, of_kind(ELEMENT)));
    assert!(!lightmount_selector_map_has_sibling_dependency(&states));
    states
        .namespace_hash
        .push(("svg".to_string(), vec![on_state(HOVER, of_kind(SIBLINGS))]));
    assert!(lightmount_selector_map_has_sibling_dependency(&states));
}

#[test]
fn sibling_sensitivity_follows_kind_and_combinator() {
    assert!(lightmount_dependency_is_sibling_sensitive(&of_kind(SIBLINGS)));
    assert!(!lightmount_dependency_is_sibling_sensitive(&of_kind(ELEMENT)));
    for (kind, sensitive) in [
        (RelativeDependencyInvalidationKind::Ancestors, false),
        (RelativeDependencyInvalidationKind::Parent, false),
        (RelativeDependencyInvalidationKind::PrevSibling, true),
        (RelativeDependencyInvalidationKind::AncestorPrevSibling, true),
        (RelativeDependencyInvalidationKind::EarlierSibling, true),
        (RelativeDependencyInvalidationKind::AncestorEarlierSibling, true),
    ] {
        assert_eq!(
            lightmount_dependency_is_sibling_sensitive(&relative(kind)),
            sensitive
        );
    }
    let mut next_sibling = of_kind(ELEMENT);
    next_sibling.facts.right_combinator_is_next_sibling = true;
    assert!(lightmount_dependency_is_sibling_sensitive(&next_sibling));
}

/// A document: 0 is the host, 1 to 4 are its children, 5 to 7 those of 3.
fn document() -> ElementTree {
    let mut tree = ElementTree::new();
    assert_eq!(tree.add_element(None, None), Some(0));
    assert_eq!(tree.add_element(Some(0), None), Some(1));
    assert_eq!(tree.add_element(Some(0), Some(1)), Some(2));
    assert_eq!(tree.add_element(Some(0), Some(2)), Some(3));
    assert_eq!(tree.add_element(Some(0), Some(3)), Some(4));
    assert_eq!(tree.add_element(Some(3), None), Some(5));
    assert_eq!(tree.add_element(Some(3), Some(5)), Some(6));
    assert_eq!(tree.add_element(Some(3), Some(6)), Some(7));
    tree
}

#[test]
fn links_lead_to_earlier_elements_only() {
    let mut tree = document();
    assert_eq!(tree.add_element(Some(8), None), None);
    assert_eq!(tree.add_element(Some(0), Some(9)), None);
    assert_eq!(tree.len(), 8);
    assert_eq!(tree.parent_or_host(6), Some(3));
    assert_eq!(tree.previous_sibling(6), Some(5));
    assert_eq!(tree.parent_or_host(0), None);
    assert_eq!(tree.previous_sibling(1), None);
}

#[test]
fn relative_candidates_are_visited_in_order() {
    let tree = document();
    let visit = |action| {
        lightmount_visit_relative_dependency_candidates(&tree, 7, action, Some(6))
    };

    assert_eq!(visit(LightmountRelativeDependencyInvalidationAction::Ancestors), [3, 0]);
    assert_eq!(visit(LightmountRelativeDependencyInvalidationAction::Parent), [3]);
    assert_eq!(visit(LightmountRelativeDependencyInvalidationAction::PrevSibling), [6]);
    assert_eq!(visit(LightmountRelativeDependencyInvalidationAction::EarlierSibling), [6, 5]);
    assert_eq!(
        visit(LightmountRelativeDependencyInvalidationAction::AncestorPrevSibling),
        [2]
    );
    assert_eq!(
        visit(LightmountRelativeDependencyInvalidationAction::AncestorEarlierSibling),
        [2, 1]
    );
}

#[test]
fn the_sibling_context_replaces_the_previous_sibling() {
    let tree = document();

    assert!(lightmount_visit_relative_dependency_candidates(
        &tree,
        7,
        LightmountRelativeDependencyInvalidationAction::EarlierSibling,
        None
    )
    .is_empty());
    assert_eq!(
        lightmount_visit_relative_dependency_candidates(
            &tree,
            7,
            LightmountRelativeDependencyInvalidationAction::EarlierSibling,
            Some(4)
        ),
        [4, 3, 2, 1]
    );
    assert!(lightmount_visit_relative_dependency_candidates(
        &tree,
        0,
        LightmountRelativeDependencyInvalidationAction::AncestorEarlierSibling,
        None
    )
    .is_empty());
}

/// Maps an element to a root by adding a hundred.
struct Hundreds;

impl LightmountStyleInvalidationElementRoot<u32, u64> for Hundreds {
    fn root_for_style_invalidation_element(&self, element: u32) -> u64 {
        u64::from(element) + 100
    }
}

const MATCHING: MatchingScope<u32> = MatchingScope { current_host: Some(40), scope_element: None };

/// An invalidation that is matched under the processor's context.
fn about(subject: InvalidationSubject<'_>) -> CollectedInvalidation<'_, u32> {
    CollectedInvalidation { subject, matching: MATCHING }
}

#[test]
fn the_processor_sorts_invalidations_by_where_they_apply() {
    let descendants = of_kind(DESCENDANTS);
    let siblings = of_kind(SIBLINGS);
    let slotted = normal(NormalDependencyInvalidationKind::SlottedElements);
    let parts = normal(NormalDependencyInvalidationKind::Parts);
    let mut processor = LightmountStyleInvalidationProcessor::new(
        MATCHING,
        vec![&descendants, &siblings, &slotted, &parts],
        None,
        Hundreds,
    );
    let mut collected = CollectedInvalidations::new();

    assert!(!processor.collect_invalidations(1, &mut collected));
    assert_eq!(
        collected.dom_descendants,
        [about(InvalidationSubject::Dependency(&descendants))]
    );
    assert_eq!(collected.siblings, [about(InvalidationSubject::Dependency(&siblings))]);
    assert_eq!(
        collected.slotted_descendants,
        [about(InvalidationSubject::Dependency(&slotted))]
    );
    assert_eq!(collected.parts, [about(InvalidationSubject::Dependency(&parts))]);
    assert_eq!(processor.outer_checks, None);
    let result = processor.into_query_result(4);
    assert!(result.affected_roots.is_empty());
    assert!(result.empty_result_is_exact);
    assert_eq!(result.matched_dependency_count, 4);
    assert!(result.fallback_reasons.is_empty());
}

#[test]
fn the_processor_records_invalidated_elements_once() {
    let element = of_kind(ELEMENT);
    let both = normal(NormalDependencyInvalidationKind::ElementAndDescendants);
    let mut processor =
        LightmountStyleInvalidationProcessor::new(MATCHING, vec![&element, &both], None, Hundreds);
    let mut collected = CollectedInvalidations::new();

    assert!(processor.invalidates_on_pseudo_element());
    assert!(processor.should_process_descendants());
    assert!(processor.collect_invalidations(1, &mut collected));
    assert_eq!(collected.dom_descendants, [about(InvalidationSubject::Dependency(&both))]);
    processor.invalidated_self(1);
    processor.invalidated_sibling(2, 1);
    processor.invalidated_descendants(1, 3);
    processor.recursion_limit_exceeded(4);
    processor.note_affected_root(102);
    processor.extend(&[104, 200]);
    processor.extend_roots(vec![200, 300]);
    let result = processor.into_query_result(2);
    assert_eq!(result.affected_roots, [101, 102, 103, 104, 200, 300]);
}

#[test]
fn invalidations_carry_what_they_are_matched_under() {
    let descendants = of_kind(DESCENDANTS);
    let mut processor =
        LightmountStyleInvalidationProcessor::new(MATCHING, vec![&descendants], None, Hundreds);
    let mut collected = CollectedInvalidations::new();
    processor.collect_invalidations(1, &mut collected);
    processor.matching_context().scope_element = Some(41);
    processor.collect_invalidations(1, &mut collected);

    let scopes: Vec<Option<u32>> = collected
        .dom_descendants
        .iter()
        .map(|invalidation| invalidation.matching.scope_element)
        .collect();
    assert_eq!(scopes, [None, Some(41)]);
    assert_eq!(processor.matching_context.current_host, Some(40));
}

#[test]
fn the_processor_falls_back_for_what_it_cannot_execute() {
    let full = of_kind(DependencyInvalidationKind::FullSelector);
    let anchors = relative(RelativeDependencyInvalidationKind::Parent);
    let mut processor =
        LightmountStyleInvalidationProcessor::new(MATCHING, vec![&full, &anchors], None, Hundreds);
    let mut collected = CollectedInvalidations::new();

    assert!(!processor.collect_invalidations(1, &mut collected));
    assert!(collected.dom_descendants.is_empty());
    processor.found_relative_selector_invalidation(
        RelativeDependencyInvalidationKind::Ancestors,
        &anchors,
    );
    let reasons = processor.into_query_result(2).fallback_reasons;
    assert_eq!(
        reasons.to_vec(),
        [
            LightmountSourceInvalidationFallbackReason::FullSelector,
            LightmountSourceInvalidationFallbackReason::RelativeAnySelector,
        ]
    );
}

#[test]
fn implicit_scopes_pass_their_next_dependencies_on() {
    let implicit = scope(
        ScopeDependencyInvalidationKind::ImplicitScope,
        vec![of_kind(ELEMENT), of_kind(SIBLINGS)],
    );
    let mut processor =
        LightmountStyleInvalidationProcessor::new(MATCHING, vec![&implicit], None, Hundreds);
    let mut collected = CollectedInvalidations::new();

    assert!(!processor.collect_invalidations(1, &mut collected));
    assert_eq!(
        collected.dom_descendants,
        [
            about(InvalidationSubject::NextDescendant(&implicit.next[0])),
            about(InvalidationSubject::NextDescendant(&implicit.next[1])),
        ]
    );
    assert!(collected.siblings.is_empty());
}

#[test]
fn scopes_check_their_next_dependencies_against_snapshots() {
    let explicit = scope(
        ScopeDependencyInvalidationKind::ExplicitScope,
        vec![of_kind(ELEMENT), of_kind(SIBLINGS)],
    );
    let check = |first: bool, second: bool| {
        Some(vec![OuterDependencyCheck {
            changes_anchor: true,
            next: vec![
                OuterDependencyCheck { changes_anchor: first, next: Vec::new() },
                OuterDependencyCheck { changes_anchor: second, next: Vec::new() },
            ],
        }])
    };
    let run = |checks: Option<Vec<OuterDependencyCheck>>| {
        let mut processor =
            LightmountStyleInvalidationProcessor::new(MATCHING, vec![&explicit], checks, Hundreds);
        let mut collected = CollectedInvalidations::new();
        let invalidates_self = processor.collect_invalidations(1, &mut collected);
        (invalidates_self, collected.siblings.len())
    };

    assert_eq!(run(None), (true, 1));
    assert_eq!(run(check(true, true)), (true, 1));
    assert_eq!(run(check(true, false)), (true, 0));
    assert_eq!(run(check(false, true)), (false, 1));
    assert_eq!(run(check(false, false)), (false, 0));
    assert!(check_outer_dependency(None));
}

#[test]
fn scopes_are_forced_at_their_subject_or_pushed_by_combinator() {
    let mut forced = scope(
        ScopeDependencyInvalidationKind::ExplicitScope,
        vec![of_kind(ELEMENT)],
    );
    forced.facts.next_has_scope_in_negation = true;
    let mut beside = scope(
        ScopeDependencyInvalidationKind::ExplicitScope,
        vec![of_kind(ELEMENT)],
    );
    beside.facts.is_rightmost = false;
    beside.facts.right_combinator_is_sibling = true;
    let mut below = scope(
        ScopeDependencyInvalidationKind::ExplicitScope,
        vec![of_kind(ELEMENT)],
    );
    below.facts.is_rightmost = false;
    let end = scope(ScopeDependencyInvalidationKind::ScopeEnd, vec![of_kind(ELEMENT)]);
    let mut processor = LightmountStyleInvalidationProcessor::new(
        MATCHING,
        vec![&forced, &beside, &below, &end],
        None,
        Hundreds,
    );
    let mut collected = CollectedInvalidations::new();

    assert!(processor.collect_invalidations(1, &mut collected));
    assert_eq!(
        collected.dom_descendants,
        [
            about(InvalidationSubject::ScopeSubject { dependency: &forced, force_add: true }),
            about(InvalidationSubject::Dependency(&below)),
            about(InvalidationSubject::ScopeSubject { dependency: &end, force_add: false }),
        ]
    );
    assert_eq!(collected.siblings, [about(InvalidationSubject::Dependency(&beside))]);
}

#[test]
fn relative_queries_count_what_candidates_match() {
    let mut map = InvalidationMap::new();
    map.type_to_selector.push((
        "li".to_string(),
        vec![
            of_kind(ELEMENT),
            relative(RelativeDependencyInvalidationKind::PrevSibling),
        ],
    ));
    let mut additional = AdditionalRelativeSelectorInvalidationMap::new();
    additional.type_to_selector.push((
        "li".to_string(),
        vec![relative(RelativeDependencyInvalidationKind::Parent)],
    ));
    let mut collection = RelativeDependencyCollection::new();
    let query = LightmountStyleInvalidationQuery::Type("li");

    for scope in [None, Some(9_u32)] {
        let dependencies = collection
            .collect_candidate(
                scope,
                &map,
                &additional,
                QuirksMode::NoQuirks,
                &Vec::new(),
                query,
            )
            .expect("few dependencies can be counted");
        assert_eq!(dependencies.len(), 3);
    }
    assert_eq!(collection.matched_dependency_count, 6);
    let scopes: Vec<Option<u32>> = collection
        .snapshot_relative_dependencies
        .iter()
        .map(|(scope, _)| *scope)
        .collect();
    assert_eq!(scopes, [None, None, Some(9), Some(9)]);

    let unverified = LightmountSnapshotRelativeDependencyRoots::new(vec![300_u64], 0);
    let result = lightmount_collect_relative_style_invalidation_query_result(
        &Hundreds,
        &collection,
        &[1_u32, 2, 1],
        &unverified,
    );
    assert_eq!(result.affected_roots, [101, 102, 300]);
    assert_eq!(result.matched_dependency_count, 6);
    assert!(result.fallback_reasons.is_empty());
}
