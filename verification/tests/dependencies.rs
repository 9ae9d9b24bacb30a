//! Dependencies, their classification and their summaries.

use lightmount_style::lightmount_invalidation::{
    LightmountChildListStructuralBoundaryDependencySummary,
    LightmountDependencyContextRootFlagsSink, LightmountDependencyFallbackHandling,
    LightmountDependencyFallbackReason, LightmountDependencyFallbackRootPolicy,
    LightmountDependencyInvalidationAction, LightmountDependencyInvalidationActionSink,
    LightmountDependencyInvalidationContextRootsPartsSink,
    LightmountDependencyInvalidationContextRootsSink, LightmountDependencyInvalidationSummary,
    LightmountDependencyKind, LightmountDependencyQueryResult,
    LightmountRelativeDependencyInvalidationAction,
    LightmountRelativeDependencyInvalidationActionSink, LightmountRetainedProcessorDependencyEffect,
    LightmountScopeDependencyInvalidationAction, LightmountScopeDependencyInvalidationActionSink,
    LightmountSourceDependencySummary, LightmountSourceInvalidationFallbackReason,
    lightmount_dependency_empty_result_supported_by_retained_processor,
    lightmount_dependency_fallback_reason_for_dependency, lightmount_dependency_invalidation_action,
    lightmount_dependency_invalidation_context_roots, lightmount_dependency_is_relative_selector,
    lightmount_dependency_summary_for_relative_invalidation_map,
    lightmount_dependency_supported_by_retained_processor,
    lightmount_relative_dependency_invalidation_action,
    lightmount_relative_selector_invalidation_fallback_reason,
    lightmount_retained_processor_dependency_effect,
    lightmount_snapshot_relative_outer_dependency_supported,
};
use lightmount_style::lightmount_invalidation::dependency::{
    Dependency, DependencyInvalidationKind, DependencySelectorFacts,
    NormalDependencyInvalidationKind, RelativeDependencyInvalidationKind,
    ScopeDependencyInvalidationKind,
};
use lightmount_style::lightmount_invalidation::element_state::{
    ElementState, FOCUS, FOCUS_WITHIN, URLTARGET,
};
use lightmount_style::lightmount_invalidation::invalidation_map::{
    AdditionalRelativeSelectorInvalidationMap,
};

#[test]
fn lightmount_dependency_query_result_keeps_fallback_reasons_out_of_kinds() {
    let mut result = LightmountDependencyQueryResult::default();
    result.add_fallback_reason(LightmountDependencyFallbackReason::FullSelector);

    assert!(result.has_any_dependency());
    assert!(result.requires_fallback());
    assert_eq!(
        result.fallback_reasons(),
        &[LightmountDependencyFallbackReason::FullSelector]
    );
    assert_eq!(
        result.fallback_root_policy(),
        LightmountDependencyFallbackRootPolicy::SourceFallback
    );
    assert!(result.kinds().is_empty());
}

#[test]
fn lightmount_dependency_query_result_exposes_source_fallback_handling() {
    let mut nth_of = LightmountDependencyQueryResult::default();
    nth_of.add_fallback_reason(LightmountDependencyFallbackReason::NthOfDependency);
    let LightmountDependencyFallbackHandling::ContextRoots(reasons) =
        nth_of.source_dependency_fallback_handling()
    else {
        panic!("nth-of dependency should use context fallback roots");
    };
    assert!(reasons.contains(LightmountSourceInvalidationFallbackReason::NthOfDependency));

    let mut scope = LightmountDependencyQueryResult::default();
    scope.add_kind(LightmountDependencyKind::Scope);
    let LightmountDependencyFallbackHandling::SourceFallback(reasons) =
        scope.source_dependency_fallback_handling()
    else {
        panic!("scope dependency should require source fallback roots");
    };
    assert!(reasons.contains(LightmountSourceInvalidationFallbackReason::ScopeDependency));
}

#[test]
fn lightmount_dependency_query_result_dedupes_extended_fallback_reasons() {
    let mut first = LightmountDependencyQueryResult::default();
    first.add_fallback_reason(LightmountDependencyFallbackReason::UnknownDependency);
    let mut second = LightmountDependencyQueryResult::default();
    second.add_fallback_reason(LightmountDependencyFallbackReason::UnknownDependency);
    second.add_kind(LightmountDependencyKind::Siblings);

    first.extend(second);

    assert!(first.has_any_dependency());
    assert!(first.requires_fallback());
    assert_eq!(
        first.fallback_reasons(),
        &[LightmountDependencyFallbackReason::UnknownDependency]
    );
    assert_eq!(first.kinds(), &[LightmountDependencyKind::Siblings]);
    assert!(first.has_sibling_dependency());
}

#[test]
fn lightmount_dependency_query_result_derives_shape_fallback_reasons() {
    let mut scope = LightmountDependencyQueryResult::default();
    scope.add_kind(LightmountDependencyKind::Scope);
    assert_eq!(
        scope.fallback_or_shape_reasons(),
        vec![LightmountDependencyFallbackReason::ScopeDependency]
    );

    let mut sibling = LightmountDependencyQueryResult::default();
    sibling.add_kind(LightmountDependencyKind::Siblings);
    assert_eq!(
        sibling.fallback_or_shape_reasons(),
        vec![LightmountDependencyFallbackReason::UnsupportedDependency]
    );
}

#[test]
fn lightmount_dependency_query_result_exposes_relative_shape_predicates() {
    let mut direct_previous = LightmountDependencyQueryResult::default();
    direct_previous.add_kind(LightmountDependencyKind::RelativePrevSibling);
    direct_previous.add_kind(LightmountDependencyKind::Siblings);
    assert!(direct_previous.has_relative_selector_dependency());
    assert!(direct_previous.has_relative_previous_sibling_dependency());
    assert!(direct_previous.has_only_direct_relative_previous_sibling_dependency());

    let mut ancestor_previous = LightmountDependencyQueryResult::default();
    ancestor_previous.add_kind(LightmountDependencyKind::RelativeAncestorPrevSibling);
    assert!(ancestor_previous.has_relative_selector_dependency());
    assert!(ancestor_previous.has_relative_previous_sibling_dependency());
    assert!(!ancestor_previous.has_only_direct_relative_previous_sibling_dependency());

    let mut ancestor = LightmountDependencyQueryResult::default();
    ancestor.add_kind(LightmountDependencyKind::RelativeAncestors);
    assert!(ancestor.has_relative_selector_dependency());
    assert!(!ancestor.has_relative_previous_sibling_dependency());
    assert!(!ancestor.has_only_direct_relative_previous_sibling_dependency());
}

#[test]
fn lightmount_dependency_query_result_exposes_context_root_flags() {
    #[derive(Default)]
    struct Sink {
        calls: Vec<&'static str>,
    }

    impl LightmountDependencyContextRootFlagsSink for Sink {
        fn require_context_source_fallback(&mut self) {
            self.calls.push("source_fallback");
        }

        fn include_context_local_subtree(&mut self) {
            self.calls.push("local_subtree");
        }

        fn include_context_ancestor_chain(&mut self) {
            self.calls.push("ancestor_chain");
        }

        fn include_context_following_siblings(&mut self) {
            self.calls.push("following_siblings");
        }

        fn include_context_ancestor_following_siblings(&mut self) {
            self.calls.push("ancestor_following_siblings");
        }

        fn include_context_previous_sibling(&mut self) {
            self.calls.push("previous_sibling");
        }

        fn include_context_earlier_siblings(&mut self) {
            self.calls.push("earlier_siblings");
        }

        fn include_context_ancestor_previous_siblings(&mut self) {
            self.calls.push("ancestor_previous_siblings");
        }

        fn include_context_slotted_elements(&mut self) {
            self.calls.push("slotted_elements");
        }

        fn include_context_parts(&mut self) {
            self.calls.push("parts");
        }
    }

    let mut query = LightmountDependencyQueryResult::default();
    query.add_kind(LightmountDependencyKind::ElementAndDescendants);
    query.add_kind(LightmountDependencyKind::Siblings);
    query.add_kind(LightmountDependencyKind::SlottedElements);
    query.add_kind(LightmountDependencyKind::Parts);
    query.add_kind(LightmountDependencyKind::RelativePrevSibling);
    query.add_kind(LightmountDependencyKind::RelativeAncestorEarlierSibling);
    let flags = query.context_root_flags();
    let mut sink = Sink::default();
    flags.drain_into(false, &mut sink);

    assert_eq!(
        sink.calls,
        vec![
            "local_subtree",
            "ancestor_chain",
            "ancestor_following_siblings",
            "previous_sibling",
            "ancestor_previous_siblings",
            "slotted_elements",
            "parts"
        ]
    );

    query.add_kind(LightmountDependencyKind::Scope);
    let mut sink = Sink::default();
    query.context_root_flags().drain_into(false, &mut sink);
    assert!(sink.calls.contains(&"source_fallback"));
}

#[test]
fn lightmount_dependency_invalidation_context_roots_drains_query_into_typed_roots() {
    #[derive(Default)]
    struct Sink {
        requires_source_fallback: bool,
        roots: Vec<u32>,
    }

    impl LightmountDependencyContextRootFlagsSink for Sink {
        fn require_context_source_fallback(&mut self) {
            self.requires_source_fallback = true;
        }

        fn include_context_local_subtree(&mut self) {
            self.roots.push(1);
        }

        fn include_context_ancestor_chain(&mut self) {
            self.roots.push(2);
        }

        fn include_context_following_siblings(&mut self) {
            self.roots.push(3);
        }

        fn include_context_ancestor_following_siblings(&mut self) {
            self.roots.push(4);
        }

        fn include_context_previous_sibling(&mut self) {
            self.roots.push(5);
        }

        fn include_context_earlier_siblings(&mut self) {
            self.roots.push(6);
        }

        fn include_context_ancestor_previous_siblings(&mut self) {
            self.roots.push(7);
        }

        fn include_context_slotted_elements(&mut self) {
            self.roots.push(8);
        }

        fn include_context_parts(&mut self) {
            self.roots.push(9);
        }
    }

    impl LightmountDependencyInvalidationContextRootsSink<u32> for Sink {
        fn drain_collected_context_roots_into<
            Target: LightmountDependencyInvalidationContextRootsPartsSink<u32>,
        >(
            self,
            target: &mut Target,
        ) {
            if self.requires_source_fallback {
                target.record_context_source_fallback();
            }
            target.extend_context_roots(self.roots);
        }
    }

    let mut query = LightmountDependencyQueryResult::default();
    query.add_kind(LightmountDependencyKind::Element);
    query.add_kind(LightmountDependencyKind::Siblings);
    query.add_kind(LightmountDependencyKind::Scope);

    let roots = lightmount_dependency_invalidation_context_roots(&query, true, Sink::default());

    assert!(roots.requires_source_fallback());
    assert_eq!(roots.roots(), &[1, 3]);
}

#[test]
fn lightmount_dependency_query_result_exposes_structural_context_cleanup_policy() {
    let mut query = LightmountDependencyQueryResult::default();
    query.add_kind(LightmountDependencyKind::RelativePrevSibling);
    assert!(query.requires_structural_context_fallback_cleanup(true, true));
    assert!(!query.requires_structural_context_fallback_cleanup(false, true));
    assert!(!query.requires_structural_context_fallback_cleanup(true, false));

    let mut non_relative = LightmountDependencyQueryResult::default();
    non_relative.add_kind(LightmountDependencyKind::Element);
    assert!(!non_relative.requires_structural_context_fallback_cleanup(true, true));
}

#[test]
fn lightmount_dependency_fallback_reason_maps_raw_dependency_kind() {
    let dependency_for_kind =
        |kind| Dependency::new(DependencySelectorFacts::subject(), Vec::new(), kind);

    assert_eq!(
        lightmount_dependency_fallback_reason_for_dependency(&dependency_for_kind(
            DependencyInvalidationKind::FullSelector
        )),
        LightmountDependencyFallbackReason::FullSelector
    );
    assert_eq!(
        lightmount_dependency_fallback_reason_for_dependency(&dependency_for_kind(
            DependencyInvalidationKind::Relative(RelativeDependencyInvalidationKind::Ancestors)
        )),
        LightmountDependencyFallbackReason::RelativeAnySelector
    );
    assert_eq!(
        lightmount_relative_selector_invalidation_fallback_reason(
            RelativeDependencyInvalidationKind::Ancestors,
            &dependency_for_kind(DependencyInvalidationKind::Relative(
                RelativeDependencyInvalidationKind::Ancestors
            ))
        ),
        LightmountSourceInvalidationFallbackReason::RelativeAnySelector
    );
    assert_eq!(
        lightmount_dependency_fallback_reason_for_dependency(&dependency_for_kind(
            DependencyInvalidationKind::Scope(ScopeDependencyInvalidationKind::ScopeEnd)
        )),
        LightmountDependencyFallbackReason::ScopeDependency
    );
    assert_eq!(
        lightmount_dependency_fallback_reason_for_dependency(&dependency_for_kind(
            DependencyInvalidationKind::Normal(NormalDependencyInvalidationKind::Element)
        )),
        LightmountDependencyFallbackReason::UnsupportedDependency
    );
}

#[test]
fn lightmount_dependency_invalidation_action_maps_raw_dependency_kind() {
    let dependency_for_kind =
        |kind| Dependency::new(DependencySelectorFacts::subject(), Vec::new(), kind);

    assert_eq!(
        lightmount_dependency_invalidation_action(&dependency_for_kind(
            DependencyInvalidationKind::Normal(NormalDependencyInvalidationKind::Element)
        )),
        LightmountDependencyInvalidationAction::Element
    );
    assert_eq!(
        lightmount_dependency_invalidation_action(&dependency_for_kind(
            DependencyInvalidationKind::Normal(NormalDependencyInvalidationKind::Siblings)
        )),
        LightmountDependencyInvalidationAction::Siblings
    );
    assert_eq!(
        lightmount_dependency_invalidation_action(&dependency_for_kind(
            DependencyInvalidationKind::FullSelector
        )),
        LightmountDependencyInvalidationAction::Fallback(
            LightmountSourceInvalidationFallbackReason::FullSelector
        )
    );
    assert_eq!(
        lightmount_dependency_invalidation_action(&dependency_for_kind(
            DependencyInvalidationKind::Relative(RelativeDependencyInvalidationKind::Ancestors)
        )),
        LightmountDependencyInvalidationAction::Fallback(
            LightmountSourceInvalidationFallbackReason::RelativeAnySelector
        )
    );
    assert_eq!(
        lightmount_dependency_invalidation_action(&dependency_for_kind(
            DependencyInvalidationKind::Scope(ScopeDependencyInvalidationKind::ImplicitScope)
        )),
        LightmountDependencyInvalidationAction::Scope(
            LightmountScopeDependencyInvalidationAction::ImplicitScope
        )
    );
    assert_eq!(
        lightmount_dependency_invalidation_action(&dependency_for_kind(
            DependencyInvalidationKind::Scope(ScopeDependencyInvalidationKind::ScopeEnd)
        )),
        LightmountDependencyInvalidationAction::Scope(
            LightmountScopeDependencyInvalidationAction::ForceAtSubject { force_add: false }
        )
    );
    assert_eq!(
        lightmount_dependency_invalidation_action(&dependency_for_kind(
            DependencyInvalidationKind::Scope(ScopeDependencyInvalidationKind::ExplicitScope)
        )),
        LightmountDependencyInvalidationAction::Scope(
            LightmountScopeDependencyInvalidationAction::CheckNextInScope
        )
    );
}

#[test]
fn lightmount_dependency_invalidation_action_drains_into_sink() {
    #[derive(Default)]
    struct Sink {
        calls: Vec<&'static str>,
        fallback_reason: Option<LightmountSourceInvalidationFallbackReason>,
        scope_action: Option<LightmountScopeDependencyInvalidationAction>,
    }

    impl LightmountDependencyInvalidationActionSink for Sink {
        fn invalidate_element(&mut self) {
            self.calls.push("element");
        }

        fn invalidate_element_and_descendants(&mut self) {
            self.calls.push("element_and_descendants");
        }

        fn invalidate_descendants(&mut self) {
            self.calls.push("descendants");
        }

        fn invalidate_siblings(&mut self) {
            self.calls.push("siblings");
        }

        fn invalidate_slotted_elements(&mut self) {
            self.calls.push("slotted");
        }

        fn invalidate_parts(&mut self) {
            self.calls.push("parts");
        }

        fn invalidate_fallback(&mut self, reason: LightmountSourceInvalidationFallbackReason) {
            self.fallback_reason = Some(reason);
        }

        fn invalidate_scope(&mut self, action: LightmountScopeDependencyInvalidationAction) {
            self.scope_action = Some(action);
        }
    }

    let mut sink = Sink::default();
    LightmountDependencyInvalidationAction::ElementAndDescendants.drain_into(&mut sink);
    LightmountDependencyInvalidationAction::Fallback(
        LightmountSourceInvalidationFallbackReason::FullSelector,
    )
    .drain_into(&mut sink);
    LightmountDependencyInvalidationAction::Scope(
        LightmountScopeDependencyInvalidationAction::CheckNextInScope,
    )
    .drain_into(&mut sink);

    assert_eq!(sink.calls, vec!["element_and_descendants"]);
    assert_eq!(
        sink.fallback_reason,
        Some(LightmountSourceInvalidationFallbackReason::FullSelector)
    );
    assert_eq!(
        sink.scope_action,
        Some(LightmountScopeDependencyInvalidationAction::CheckNextInScope)
    );
}

#[test]
fn lightmount_scope_dependency_invalidation_action_drains_into_sink() {
    #[derive(Default)]
    struct Sink {
        calls: Vec<&'static str>,
        force_add: Option<bool>,
    }

    impl LightmountScopeDependencyInvalidationActionSink for Sink {
        fn invalidate_implicit_scope(&mut self) {
            self.calls.push("implicit_scope");
        }

        fn invalidate_scope_force_at_subject(&mut self, force_add: bool) {
            self.calls.push("force_at_subject");
            self.force_add = Some(force_add);
        }

        fn invalidate_scope_check_next(&mut self) {
            self.calls.push("check_next");
        }

        fn invalidate_scope_by_combinator(&mut self) {
            self.calls.push("by_combinator");
        }
    }

    let mut sink = Sink::default();
    LightmountScopeDependencyInvalidationAction::ImplicitScope.drain_into(&mut sink);
    LightmountScopeDependencyInvalidationAction::ForceAtSubject { force_add: true }
        .drain_into(&mut sink);
    LightmountScopeDependencyInvalidationAction::CheckNextInScope.drain_into(&mut sink);
    LightmountScopeDependencyInvalidationAction::PushByCombinator.drain_into(&mut sink);

    assert_eq!(
        sink.calls,
        vec![
            "implicit_scope",
            "force_at_subject",
            "check_next",
            "by_combinator"
        ]
    );
    assert_eq!(sink.force_add, Some(true));
}

#[test]
fn lightmount_relative_dependency_invalidation_action_drains_into_sink() {
    #[derive(Default)]
    struct Sink {
        calls: Vec<&'static str>,
    }

    impl LightmountRelativeDependencyInvalidationActionSink for Sink {
        fn visit_relative_ancestor_candidates(&mut self) {
            self.calls.push("ancestors");
        }

        fn visit_relative_parent_candidate(&mut self) {
            self.calls.push("parent");
        }

        fn visit_relative_previous_sibling_candidate(&mut self) {
            self.calls.push("prev_sibling");
        }

        fn visit_relative_earlier_sibling_candidates(&mut self) {
            self.calls.push("earlier_sibling");
        }

        fn visit_relative_ancestor_previous_sibling_candidates(&mut self) {
            self.calls.push("ancestor_prev_sibling");
        }

        fn visit_relative_ancestor_earlier_sibling_candidates(&mut self) {
            self.calls.push("ancestor_earlier_sibling");
        }
    }

    let mut sink = Sink::default();
    LightmountRelativeDependencyInvalidationAction::Ancestors.drain_into(&mut sink);
    LightmountRelativeDependencyInvalidationAction::Parent.drain_into(&mut sink);
    LightmountRelativeDependencyInvalidationAction::PrevSibling.drain_into(&mut sink);
    LightmountRelativeDependencyInvalidationAction::EarlierSibling.drain_into(&mut sink);
    LightmountRelativeDependencyInvalidationAction::AncestorPrevSibling.drain_into(&mut sink);
    LightmountRelativeDependencyInvalidationAction::AncestorEarlierSibling
        .drain_into(&mut sink);

    assert_eq!(
        sink.calls,
        vec![
            "ancestors",
            "parent",
            "prev_sibling",
            "earlier_sibling",
            "ancestor_prev_sibling",
            "ancestor_earlier_sibling"
        ]
    );
}

#[test]
fn lightmount_relative_dependency_helpers_map_raw_dependency_kind() {
    let dependency_for_kind =
        |kind| Dependency::new(DependencySelectorFacts::subject(), Vec::new(), kind);

    let relative = dependency_for_kind(DependencyInvalidationKind::Relative(
        RelativeDependencyInvalidationKind::AncestorEarlierSibling,
    ));
    let normal = dependency_for_kind(DependencyInvalidationKind::Normal(
        NormalDependencyInvalidationKind::Descendants,
    ));
    let full = dependency_for_kind(DependencyInvalidationKind::FullSelector);

    assert_eq!(
        lightmount_relative_dependency_invalidation_action(&relative),
        Some(LightmountRelativeDependencyInvalidationAction::AncestorEarlierSibling)
    );
    assert!(lightmount_dependency_is_relative_selector(&relative));
    assert!(!lightmount_dependency_is_relative_selector(&normal));
    assert!(lightmount_snapshot_relative_outer_dependency_supported(
        &normal
    ));
    assert!(!lightmount_snapshot_relative_outer_dependency_supported(
        &relative
    ));
    assert!(!lightmount_snapshot_relative_outer_dependency_supported(
        &full
    ));
}

#[test]
fn lightmount_source_fallback_reason_preserves_dependency_detail() {
    let cases = [
        (
            LightmountDependencyFallbackReason::UnknownDependency,
            LightmountSourceInvalidationFallbackReason::UnknownDependency,
        ),
        (
            LightmountDependencyFallbackReason::FullSelector,
            LightmountSourceInvalidationFallbackReason::FullSelector,
        ),
        (
            LightmountDependencyFallbackReason::RelativeAnySelector,
            LightmountSourceInvalidationFallbackReason::RelativeAnySelector,
        ),
        (
            LightmountDependencyFallbackReason::ScopeDependency,
            LightmountSourceInvalidationFallbackReason::ScopeDependency,
        ),
        (
            LightmountDependencyFallbackReason::UnsupportedStateDependency,
            LightmountSourceInvalidationFallbackReason::UnsupportedStateDependency,
        ),
        (
            LightmountDependencyFallbackReason::UnsupportedDependency,
            LightmountSourceInvalidationFallbackReason::UnsupportedDependency,
        ),
        (
            LightmountDependencyFallbackReason::NthOfDependency,
            LightmountSourceInvalidationFallbackReason::NthOfDependency,
        ),
        (
            LightmountDependencyFallbackReason::NestedRelativeSelectorDependency,
            LightmountSourceInvalidationFallbackReason::NestedRelativeSelectorDependency,
        ),
    ];

    for (dependency_reason, source_reason) in cases {
        assert_eq!(
            LightmountSourceInvalidationFallbackReason::from(dependency_reason),
            source_reason
        );
    }
}

#[test]
fn lightmount_source_dependency_summary_exposes_aggregate_predicates() {
    let mut dependency_summary = LightmountDependencyInvalidationSummary::default();

    let mut relative = LightmountDependencyQueryResult::default();
    relative.add_fallback_reason(LightmountDependencyFallbackReason::RelativeAnySelector);
    dependency_summary.note_class_dependency("anchor".to_string(), relative);

    let mut sibling = LightmountDependencyQueryResult::default();
    sibling.add_kind(LightmountDependencyKind::Siblings);
    dependency_summary.note_id_dependency("target".to_string(), sibling);

    let mut focus = LightmountDependencyQueryResult::default();
    focus.add_kind(LightmountDependencyKind::Element);
    dependency_summary
        .note_state_dependency(ElementState::new(FOCUS).union(ElementState::new(FOCUS_WITHIN)), focus);

    let mut target = LightmountDependencyQueryResult::default();
    target.add_kind(LightmountDependencyKind::Element);
    dependency_summary.note_state_dependency(ElementState::new(URLTARGET), target);

    let source_summary = LightmountSourceDependencySummary::new(
        dependency_summary,
        true,
        LightmountChildListStructuralBoundaryDependencySummary::default(),
    );

    assert!(source_summary.has_relative_selector_dependency());
    assert!(source_summary.has_focus_dependency());
    assert!(source_summary.has_focus_within_dependency());
    assert!(source_summary.has_target_dependency());
    assert!(source_summary.has_child_list_structural_dependency());
    assert!(source_summary.has_sibling_dependency());
}

#[test]
fn lightmount_dependency_processor_support_rejects_unsupported_shapes() {
    let dependency_for_kind =
        |kind| Dependency::new(DependencySelectorFacts::subject(), Vec::new(), kind);

    let normal = dependency_for_kind(DependencyInvalidationKind::Normal(
        NormalDependencyInvalidationKind::ElementAndDescendants,
    ));
    assert!(lightmount_dependency_supported_by_retained_processor(
        &normal
    ));
    assert!(lightmount_dependency_empty_result_supported_by_retained_processor(&normal));

    let scope = dependency_for_kind(DependencyInvalidationKind::Scope(
        ScopeDependencyInvalidationKind::ScopeEnd,
    ));
    assert!(lightmount_dependency_supported_by_retained_processor(
        &scope
    ));
    assert!(lightmount_dependency_empty_result_supported_by_retained_processor(&scope));

    let full = dependency_for_kind(DependencyInvalidationKind::FullSelector);
    assert!(!lightmount_dependency_supported_by_retained_processor(
        &full
    ));
    assert!(!lightmount_dependency_empty_result_supported_by_retained_processor(&full));

    let relative = dependency_for_kind(DependencyInvalidationKind::Relative(
        RelativeDependencyInvalidationKind::Ancestors,
    ));
    assert!(!lightmount_dependency_supported_by_retained_processor(
        &relative
    ));
    assert!(!lightmount_dependency_empty_result_supported_by_retained_processor(&relative));

    let full_next = vec![dependency_for_kind(
        DependencyInvalidationKind::FullSelector,
    )];
    let normal_with_unsupported_next = Dependency::new(
        DependencySelectorFacts::subject(),
        full_next,
        DependencyInvalidationKind::Normal(NormalDependencyInvalidationKind::Element),
    );
    assert!(!lightmount_dependency_supported_by_retained_processor(
        &normal_with_unsupported_next
    ));
    assert!(
        !lightmount_dependency_empty_result_supported_by_retained_processor(
            &normal_with_unsupported_next
        )
    );
}

#[test]
fn lightmount_retained_processor_dependency_effect_classifies_dependency() {
    let dependency_for_kind =
        |kind| Dependency::new(DependencySelectorFacts::subject(), Vec::new(), kind);

    let normal = dependency_for_kind(DependencyInvalidationKind::Normal(
        NormalDependencyInvalidationKind::Element,
    ));
    assert_eq!(
        lightmount_retained_processor_dependency_effect(&normal),
        LightmountRetainedProcessorDependencyEffect::Retained {
            empty_result_is_exact: true
        }
    );

    let full = dependency_for_kind(DependencyInvalidationKind::FullSelector);
    assert_eq!(
        lightmount_retained_processor_dependency_effect(&full),
        LightmountRetainedProcessorDependencyEffect::Fallback(
            LightmountSourceInvalidationFallbackReason::FullSelector
        )
    );
}

#[test]
fn lightmount_relative_summary_does_not_treat_used_flag_as_unknown_dependency() {
    let mut map = AdditionalRelativeSelectorInvalidationMap::new();
    map.used = true;

    let summary = lightmount_dependency_summary_for_relative_invalidation_map(&map);

    assert!(!summary.has_unknown_dependency());
    assert!(!summary.query_universal().has_any_dependency());
}

#[test]
fn lightmount_relative_summary_keeps_ancestor_traversal_unknown() {
    let mut map = AdditionalRelativeSelectorInvalidationMap::new();
    map.needs_ancestors_traversal = true;

    let summary = lightmount_dependency_summary_for_relative_invalidation_map(&map);

    assert!(summary.has_unknown_dependency());
}

#[test]
fn lightmount_nth_of_dependencies_are_sibling_sensitive_by_key() {
    let mut summary = LightmountDependencyInvalidationSummary::default();
    let class = "c".to_string();
    let other_class = "other".to_string();
    let id = "target".to_string();
    let attribute = "data-active".to_string();

    summary.note_nth_of_class_dependency(class.clone());
    summary.note_nth_of_id_dependency(id.clone());
    summary.note_nth_of_attribute_dependency(attribute.clone());
    summary.note_nth_of_state_dependency(ElementState::new(FOCUS));
    summary.note_nth_of_state_dependency(ElementState::empty());

    assert!(!summary.has_unknown_dependency());
    let class_result = summary.query_class(&class);
    assert!(class_result.requires_fallback());
    assert_eq!(class_result.kinds(), &[LightmountDependencyKind::Siblings]);
    assert_eq!(
        class_result.fallback_reasons(),
        &[LightmountDependencyFallbackReason::NthOfDependency]
    );
    assert_eq!(
        class_result.fallback_root_policy(),
        LightmountDependencyFallbackRootPolicy::ContextRoots
    );
    assert!(!summary.query_class(&other_class).has_any_dependency());
    assert_eq!(
        summary.query_id(&id).kinds(),
        &[LightmountDependencyKind::Siblings]
    );
    assert_eq!(
        summary.query_attribute(&attribute).kinds(),
        &[LightmountDependencyKind::Siblings]
    );
    assert_eq!(
        summary.query_focus().kinds(),
        &[LightmountDependencyKind::Siblings]
    );
}
