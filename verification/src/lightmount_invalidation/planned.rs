//! Planned invalidation work of stylesheet sources.

use vstd::prelude::*;

use super::lists::copy_slice;
use super::ordered_set::OrderedSet;
use super::query::{LightmountRetainedStyleInvalidationQuery, RetainedQueryView};
use super::reasons::LightmountSourceInvalidationFallbackReason;
use super::request::copy_queries;
use super::retained_kind::LightmountRetainedSourceStyleInvalidationKind;

verus! {

/// Mutation-boundary roots available to source dependency planning.
#[derive(Copy, Debug, PartialEq, Eq)]
pub struct LightmountSourceDependencyBoundaryRoots<'a, Root> {
    /// Roots for an empty structural target.
    pub empty_target_fallback_roots: &'a [Root],
    /// Roots for direct previous-sibling relative cleanup.
    pub relative_previous_sibling_cleanup_roots: &'a [Root],
}

impl<'a, Root: Copy> Clone for LightmountSourceDependencyBoundaryRoots<'a, Root> {
    fn clone(&self) -> (copy: Self)
        ensures
            copy == *self,
    {
        *self
    }
}

impl<'a, Root> LightmountSourceDependencyBoundaryRoots<'a, Root> {
    /// Create mutation-boundary roots for source dependency planning.
    pub fn new(
        empty_target_fallback_roots: &'a [Root],
        relative_previous_sibling_cleanup_roots: &'a [Root],
    ) -> (roots: Self)
        ensures
            roots == (LightmountSourceDependencyBoundaryRoots {
                empty_target_fallback_roots,
                relative_previous_sibling_cleanup_roots,
            }),
    {
        Self { empty_target_fallback_roots, relative_previous_sibling_cleanup_roots }
    }
}

impl<'a, Root> Default for LightmountSourceDependencyBoundaryRoots<'a, Root> {
    fn default() -> (roots: Self)
        ensures
            roots.empty_target_fallback_roots@.len() == 0,
            roots.relative_previous_sibling_cleanup_roots@.len() == 0,
    {
        Self::new(&[], &[])
    }
}

/// The content of a planned target.
pub enum PlannedTargetView<Root> {
    /// Run retained queries, with fallback roots for what cannot be exact.
    RetainedQueries {
        /// Exact retained dependency queries.
        exact_queries: Seq<RetainedQueryView<Root>>,
        /// Fallback kind for inexact dependency branches.
        fallback_kind: Option<LightmountRetainedSourceStyleInvalidationKind>,
        /// Fallback roots tied to explicit dependency fallback reasons.
        reasoned_fallback_roots: Seq<Root>,
        /// Fallback roots for unavailable exact invalidation.
        exact_safety_fallback_roots: Seq<Root>,
        /// Reasons why fallback handling may be needed.
        fallback_reasons: Seq<LightmountSourceInvalidationFallbackReason>,
    },
    /// Apply fallback roots.
    Fallback {
        /// The fallback policy.
        fallback_kind: LightmountRetainedSourceStyleInvalidationKind,
        /// Roots to clear.
        fallback_roots: Seq<Root>,
        /// Reasons why fallback handling is required.
        fallback_reasons: Seq<LightmountSourceInvalidationFallbackReason>,
    },
}

impl<Root> PlannedTargetView<Root> {
    /// Whether the target can be carried out: queries are there to run and
    /// fall back to roots, fallback targets do not ask for queries, and a
    /// target without roots has none.
    pub open spec fn well_formed(self) -> bool {
        match self {
            Self::RetainedQueries { exact_queries, fallback_kind, .. } => {
                &&& exact_queries.len() > 0
                &&& fallback_kind is Some ==> !fallback_kind->0.has_queries()
            },
            Self::Fallback { fallback_kind, fallback_roots, .. } => {
                &&& !fallback_kind.has_queries()
                &&& fallback_kind
                    == LightmountRetainedSourceStyleInvalidationKind::MissingFallbackRoots
                    ==> fallback_roots.len() == 0
            },
        }
    }

    /// The fallback target of a kind, with the reason that the kind implies.
    pub open spec fn fallback_of(
        fallback_kind: LightmountRetainedSourceStyleInvalidationKind,
        fallback_roots: Seq<Root>,
        fallback_reasons: Seq<LightmountSourceInvalidationFallbackReason>,
    ) -> Self {
        PlannedTargetView::Fallback {
            fallback_kind,
            fallback_roots,
            fallback_reasons: match fallback_kind.implied_reason() {
                Some(reason) => super::ordered_set::push_unique(fallback_reasons, reason),
                None => fallback_reasons,
            },
        }
    }

    /// The fallback target of a source: its selected roots, or an explicit
    /// lack of them.
    pub open spec fn source_fallback(
        fallback_roots: Seq<Root>,
        fallback_reasons: Seq<LightmountSourceInvalidationFallbackReason>,
    ) -> Self {
        PlannedTargetView::fallback_of(
            if fallback_roots.len() == 0 {
                LightmountRetainedSourceStyleInvalidationKind::MissingFallbackRoots
            } else {
                LightmountRetainedSourceStyleInvalidationKind::FallbackOnly
            },
            fallback_roots,
            fallback_reasons,
        )
    }

    /// The target of a source's planned work, where there is any. Without
    /// queries the roots become a fallback target, and exact-safety roots
    /// serve only where there are no others.
    pub open spec fn of_work(
        exact_queries: Seq<RetainedQueryView<Root>>,
        fallback_kind: Option<LightmountRetainedSourceStyleInvalidationKind>,
        reasoned_fallback_roots: Seq<Root>,
        exact_safety_fallback_roots: Seq<Root>,
        fallback_reasons: Seq<LightmountSourceInvalidationFallbackReason>,
    ) -> Option<Self> {
        let kind = match fallback_kind {
            Some(kind) => kind,
            None => LightmountRetainedSourceStyleInvalidationKind::FallbackOnly,
        };
        if exact_queries.len() > 0 {
            Some(
                PlannedTargetView::RetainedQueries {
                    exact_queries,
                    fallback_kind,
                    reasoned_fallback_roots,
                    exact_safety_fallback_roots,
                    fallback_reasons,
                },
            )
        } else if reasoned_fallback_roots.len() > 0 {
            Some(PlannedTargetView::fallback_of(kind, reasoned_fallback_roots, fallback_reasons))
        } else if exact_safety_fallback_roots.len() > 0 {
            Some(
                PlannedTargetView::fallback_of(
                    kind,
                    exact_safety_fallback_roots,
                    super::ordered_set::push_unique(
                        fallback_reasons,
                        LightmountSourceInvalidationFallbackReason::InexactEmptyResult,
                    ),
                ),
            )
        } else {
            None
        }
    }
}

/// A call that planned work makes of its sink.
pub enum PlannedCall<Root> {
    /// The stylesheet source index of a row.
    SourceIndex(usize),
    /// The structural-boundary cleanup roots of a row.
    CleanupRoots(Seq<Root>),
    /// Retained-query target parts.
    RetainedQueries {
        /// Exact retained dependency queries.
        exact_queries: Seq<RetainedQueryView<Root>>,
        /// Fallback kind for inexact dependency branches.
        fallback_kind: Option<LightmountRetainedSourceStyleInvalidationKind>,
        /// Fallback roots tied to explicit dependency fallback reasons.
        reasoned_fallback_roots: Seq<Root>,
        /// Fallback roots for unavailable exact invalidation.
        exact_safety_fallback_roots: Seq<Root>,
        /// Reasons why fallback handling may be needed.
        fallback_reasons: Seq<LightmountSourceInvalidationFallbackReason>,
    },
    /// Fallback target parts with roots.
    FallbackWithRoots {
        /// The fallback policy.
        fallback_kind: LightmountRetainedSourceStyleInvalidationKind,
        /// Roots to clear.
        fallback_roots: Seq<Root>,
        /// Reasons why fallback handling is required.
        fallback_reasons: Seq<LightmountSourceInvalidationFallbackReason>,
    },
    /// Fallback target parts without roots.
    MissingFallbackRoots {
        /// Reasons why fallback handling is required.
        fallback_reasons: Seq<LightmountSourceInvalidationFallbackReason>,
    },
}

impl<Root> PlannedTargetView<Root> {
    /// The call that this target makes of a sink.
    pub open spec fn call(self) -> PlannedCall<Root> {
        match self {
            Self::RetainedQueries {
                exact_queries,
                fallback_kind,
                reasoned_fallback_roots,
                exact_safety_fallback_roots,
                fallback_reasons,
            } => PlannedCall::RetainedQueries {
                exact_queries,
                fallback_kind,
                reasoned_fallback_roots,
                exact_safety_fallback_roots,
                fallback_reasons,
            },
            Self::Fallback { fallback_kind, fallback_roots, fallback_reasons } => {
                if fallback_kind
                    == LightmountRetainedSourceStyleInvalidationKind::MissingFallbackRoots {
                    PlannedCall::MissingFallbackRoots { fallback_reasons }
                } else {
                    PlannedCall::FallbackWithRoots {
                        fallback_kind,
                        fallback_roots,
                        fallback_reasons,
                    }
                }
            },
        }
    }
}

/// Sink for planned source dependency target parts.
pub trait LightmountPlannedSourceDependencyInvalidationTargetPartsSink<Root> {
    /// The calls received so far.
    open spec fn planned_calls(&self) -> Seq<PlannedCall<Root>> {
        Seq::empty()
    }

    /// Record retained-query target parts.
    fn set_planned_retained_source_dependency_target_parts(
        &mut self,
        exact_queries: Vec<LightmountRetainedStyleInvalidationQuery<Root>>,
        fallback_kind: Option<LightmountRetainedSourceStyleInvalidationKind>,
        reasoned_fallback_roots: Vec<Root>,
        exact_safety_fallback_roots: Vec<Root>,
        fallback_reasons: OrderedSet<LightmountSourceInvalidationFallbackReason>,
    )
        ensures
            final(self).planned_calls() == old(self).planned_calls().push(
                PlannedCall::RetainedQueries {
                    exact_queries: super::request::query_views(exact_queries@),
                    fallback_kind,
                    reasoned_fallback_roots: reasoned_fallback_roots@,
                    exact_safety_fallback_roots: exact_safety_fallback_roots@,
                    fallback_reasons: fallback_reasons@,
                },
            ),
    ;

    /// Record fallback target parts with roots.
    fn set_planned_fallback_source_dependency_target_parts(
        &mut self,
        fallback_kind: LightmountRetainedSourceStyleInvalidationKind,
        fallback_roots: Vec<Root>,
        fallback_reasons: OrderedSet<LightmountSourceInvalidationFallbackReason>,
    )
        ensures
            final(self).planned_calls() == old(self).planned_calls().push(
                PlannedCall::FallbackWithRoots {
                    fallback_kind,
                    fallback_roots: fallback_roots@,
                    fallback_reasons: fallback_reasons@,
                },
            ),
    ;

    /// Record fallback target parts when fallback roots are unavailable.
    fn set_planned_missing_fallback_roots_source_dependency_target_parts(
        &mut self,
        fallback_reasons: OrderedSet<LightmountSourceInvalidationFallbackReason>,
    )
        ensures
            final(self).planned_calls() == old(self).planned_calls().push(
                PlannedCall::MissingFallbackRoots { fallback_reasons: fallback_reasons@ },
            ),
    ;
}

/// Sink for a planned source dependency invalidation row.
pub trait LightmountPlannedSourceDependencyInvalidationPartsSink<
    Root,
>: LightmountPlannedSourceDependencyInvalidationTargetPartsSink<Root> {
    /// Record the stylesheet source index for this planned row.
    fn set_planned_source_dependency_source_index(&mut self, source_index: usize)
        ensures
            final(self).planned_calls() == old(self).planned_calls().push(
                PlannedCall::SourceIndex(source_index),
            ),
    ;

    /// Record structural-boundary cleanup roots for this planned row.
    fn set_planned_source_dependency_structural_boundary_cleanup_roots(
        &mut self,
        structural_boundary_cleanup_roots: Vec<Root>,
    )
        ensures
            final(self).planned_calls() == old(self).planned_calls().push(
                PlannedCall::CleanupRoots(structural_boundary_cleanup_roots@),
            ),
    ;
}

/// Planned source dependency invalidation target.
#[derive(Debug, PartialEq, Eq)]
pub struct LightmountPlannedSourceDependencyInvalidationTarget<Root> {
    target: LightmountPlannedSourceDependencyInvalidationTargetKind<Root>,
}

/// Shape of a planned source dependency invalidation target.
#[derive(Debug, PartialEq, Eq)]
enum LightmountPlannedSourceDependencyInvalidationTargetKind<Root> {
    /// Run retained queries, optionally carrying a fallback target for
    /// dependency shapes that cannot be exact.
    RetainedQueries {
        exact_queries: Vec<LightmountRetainedStyleInvalidationQuery<Root>>,
        fallback_kind: Option<LightmountRetainedSourceStyleInvalidationKind>,
        reasoned_fallback_roots: Vec<Root>,
        exact_safety_fallback_roots: Vec<Root>,
        fallback_reasons: OrderedSet<LightmountSourceInvalidationFallbackReason>,
    },
    /// Do not run retained queries; apply fallback roots for this source.
    FallbackOnly {
        fallback_kind: LightmountRetainedSourceStyleInvalidationKind,
        fallback_roots: Vec<Root>,
        fallback_reasons: OrderedSet<LightmountSourceInvalidationFallbackReason>,
    },
}

/// The content of a target of this shape.
spec fn kind_view<Root>(
    target: LightmountPlannedSourceDependencyInvalidationTargetKind<Root>,
) -> PlannedTargetView<Root> {
    match target {
        LightmountPlannedSourceDependencyInvalidationTargetKind::RetainedQueries {
            exact_queries,
            fallback_kind,
            reasoned_fallback_roots,
            exact_safety_fallback_roots,
            fallback_reasons,
        } => PlannedTargetView::RetainedQueries {
            exact_queries: super::request::query_views(exact_queries@),
            fallback_kind,
            reasoned_fallback_roots: reasoned_fallback_roots@,
            exact_safety_fallback_roots: exact_safety_fallback_roots@,
            fallback_reasons: fallback_reasons@,
        },
        LightmountPlannedSourceDependencyInvalidationTargetKind::FallbackOnly {
            fallback_kind,
            fallback_roots,
            fallback_reasons,
        } => PlannedTargetView::Fallback {
            fallback_kind,
            fallback_roots: fallback_roots@,
            fallback_reasons: fallback_reasons@,
        },
    }
}

impl<Root: Copy> LightmountPlannedSourceDependencyInvalidationTargetKind<Root> {
    /// Return a target of the same shape.
    fn copy(&self) -> (target: Self)
        ensures
            kind_view(target) == kind_view(*self),
    {
        match self {
            Self::RetainedQueries {
                exact_queries,
                fallback_kind,
                reasoned_fallback_roots,
                exact_safety_fallback_roots,
                fallback_reasons,
            } => Self::RetainedQueries {
                exact_queries: copy_queries(exact_queries),
                fallback_kind: *fallback_kind,
                reasoned_fallback_roots: copy_slice(reasoned_fallback_roots.as_slice()),
                exact_safety_fallback_roots: copy_slice(exact_safety_fallback_roots.as_slice()),
                fallback_reasons: fallback_reasons.clone(),
            },
            Self::FallbackOnly { fallback_kind, fallback_roots, fallback_reasons } => {
                Self::FallbackOnly {
                    fallback_kind: *fallback_kind,
                    fallback_roots: copy_slice(fallback_roots.as_slice()),
                    fallback_reasons: fallback_reasons.clone(),
                }
            },
        }
    }
}

impl<Root: Copy> Clone for LightmountPlannedSourceDependencyInvalidationTarget<Root> {
    fn clone(&self) -> (target: Self)
        ensures
            target@ == self@,
    {
        proof {
            use_type_invariant(self);
        }
        Self { target: self.target.copy() }
    }
}

/// Drainable parts for a planned source dependency invalidation target.
#[derive(Debug, PartialEq, Eq)]
pub enum LightmountPlannedSourceDependencyInvalidationTargetParts<Root> {
    /// Retained-query target parts.
    RetainedQueries {
        /// Exact retained dependency queries to run for this source.
        exact_queries: Vec<LightmountRetainedStyleInvalidationQuery<Root>>,
        /// Optional fallback kind for inexact dependency branches.
        fallback_kind: Option<LightmountRetainedSourceStyleInvalidationKind>,
        /// Fallback roots tied to explicit dependency fallback reasons.
        reasoned_fallback_roots: Vec<Root>,
        /// Fallback roots that are safe to use if exact invalidation is
        /// unavailable.
        exact_safety_fallback_roots: Vec<Root>,
        /// Reasons why fallback handling may be needed.
        fallback_reasons: OrderedSet<LightmountSourceInvalidationFallbackReason>,
    },
    /// Fallback target with explicit roots.
    FallbackWithRoots {
        /// Fallback policy represented by this target.
        fallback_kind: LightmountRetainedSourceStyleInvalidationKind,
        /// Runtime roots to clear for fallback handling.
        fallback_roots: Vec<Root>,
        /// Reasons why fallback handling is required.
        fallback_reasons: OrderedSet<LightmountSourceInvalidationFallbackReason>,
    },
    /// Fallback target whose roots are unavailable.
    MissingFallbackRoots {
        /// Reasons why fallback handling is required.
        fallback_reasons: OrderedSet<LightmountSourceInvalidationFallbackReason>,
    },
}

impl<Root: Copy> Clone for LightmountPlannedSourceDependencyInvalidationTargetParts<Root> {
    fn clone(&self) -> (parts: Self)
        ensures
            parts.call() == self.call(),
    {
        match self {
            Self::RetainedQueries {
                exact_queries,
                fallback_kind,
                reasoned_fallback_roots,
                exact_safety_fallback_roots,
                fallback_reasons,
            } => Self::RetainedQueries {
                exact_queries: copy_queries(exact_queries),
                fallback_kind: *fallback_kind,
                reasoned_fallback_roots: copy_slice(reasoned_fallback_roots.as_slice()),
                exact_safety_fallback_roots: copy_slice(exact_safety_fallback_roots.as_slice()),
                fallback_reasons: fallback_reasons.clone(),
            },
            Self::FallbackWithRoots { fallback_kind, fallback_roots, fallback_reasons } => {
                Self::FallbackWithRoots {
                    fallback_kind: *fallback_kind,
                    fallback_roots: copy_slice(fallback_roots.as_slice()),
                    fallback_reasons: fallback_reasons.clone(),
                }
            },
            Self::MissingFallbackRoots { fallback_reasons } => Self::MissingFallbackRoots {
                fallback_reasons: fallback_reasons.clone(),
            },
        }
    }
}

impl<Root> LightmountPlannedSourceDependencyInvalidationTargetParts<Root> {
    /// The call that these parts make of a sink.
    pub open spec fn call(&self) -> PlannedCall<Root> {
        match self {
            Self::RetainedQueries {
                exact_queries,
                fallback_kind,
                reasoned_fallback_roots,
                exact_safety_fallback_roots,
                fallback_reasons,
            } => PlannedCall::RetainedQueries {
                exact_queries: super::request::query_views(exact_queries@),
                fallback_kind: *fallback_kind,
                reasoned_fallback_roots: reasoned_fallback_roots@,
                exact_safety_fallback_roots: exact_safety_fallback_roots@,
                fallback_reasons: fallback_reasons@,
            },
            Self::FallbackWithRoots { fallback_kind, fallback_roots, fallback_reasons } => {
                PlannedCall::FallbackWithRoots {
                    fallback_kind: *fallback_kind,
                    fallback_roots: fallback_roots@,
                    fallback_reasons: fallback_reasons@,
                }
            },
            Self::MissingFallbackRoots { fallback_reasons } => {
                PlannedCall::MissingFallbackRoots { fallback_reasons: fallback_reasons@ }
            },
        }
    }

    /// Drain these target parts into a sink.
    pub fn drain_into<
        Sink: LightmountPlannedSourceDependencyInvalidationTargetPartsSink<Root>,
    >(self, target: &mut Sink)
        ensures
            final(target).planned_calls() == old(target).planned_calls().push(self.call()),
    {
        match self {
            Self::RetainedQueries {
                exact_queries,
                fallback_kind,
                reasoned_fallback_roots,
                exact_safety_fallback_roots,
                fallback_reasons,
            } => target.set_planned_retained_source_dependency_target_parts(
                exact_queries,
                fallback_kind,
                reasoned_fallback_roots,
                exact_safety_fallback_roots,
                fallback_reasons,
            ),
            Self::FallbackWithRoots { fallback_kind, fallback_roots, fallback_reasons } => {
                target.set_planned_fallback_source_dependency_target_parts(
                    fallback_kind,
                    fallback_roots,
                    fallback_reasons,
                )
            },
            Self::MissingFallbackRoots { fallback_reasons } => {
                target.set_planned_missing_fallback_roots_source_dependency_target_parts(
                    fallback_reasons,
                )
            },
        }
    }
}

impl<Root> LightmountPlannedSourceDependencyInvalidationTarget<Root> {
    /// The content of this target.
    pub closed spec fn view(&self) -> PlannedTargetView<Root> {
        kind_view(self.target)
    }

    #[verifier::type_invariant]
    spec fn can_be_carried_out(&self) -> bool {
        self.view().well_formed()
    }

    /// Create a target from source dependency planner work parts.
    ///
    /// Exact-safety fallback roots are only a retained-query safety net. If a
    /// source produced no exact queries, those roots become an explicit
    /// inexact-empty fallback target instead of being silently dropped.
    pub fn from_source_dependency_work_parts(
        exact_queries: Vec<LightmountRetainedStyleInvalidationQuery<Root>>,
        fallback_kind: Option<LightmountRetainedSourceStyleInvalidationKind>,
        reasoned_fallback_roots: Vec<Root>,
        exact_safety_fallback_roots: Vec<Root>,
        fallback_reasons: OrderedSet<LightmountSourceInvalidationFallbackReason>,
    ) -> (target: Option<Self>)
        requires
            fallback_kind matches Some(kind) ==> !kind.has_queries() && (kind
                == LightmountRetainedSourceStyleInvalidationKind::MissingFallbackRoots
                ==> exact_queries@.len() > 0 || (reasoned_fallback_roots@.len() == 0
                && exact_safety_fallback_roots@.len() == 0)),
        ensures
            target is Some <==> exact_queries@.len() > 0 || reasoned_fallback_roots@.len() > 0
                || exact_safety_fallback_roots@.len() > 0,
            target matches Some(target) ==> Some(target@) == PlannedTargetView::of_work(
                super::request::query_views(exact_queries@),
                fallback_kind,
                reasoned_fallback_roots@,
                exact_safety_fallback_roots@,
                fallback_reasons@,
            ),
    {
        let mut fallback_reasons = fallback_reasons;
        if exact_queries.len() == 0 {
            if reasoned_fallback_roots.len() == 0 && exact_safety_fallback_roots.len() == 0 {
                return None;
            }
            let fallback_roots = if reasoned_fallback_roots.len() == 0 {
                fallback_reasons.insert(
                    LightmountSourceInvalidationFallbackReason::InexactEmptyResult,
                );
                exact_safety_fallback_roots
            } else {
                reasoned_fallback_roots
            };
            let fallback_kind = match fallback_kind {
                Some(kind) => kind,
                None => LightmountRetainedSourceStyleInvalidationKind::FallbackOnly,
            };
            return Some(Self::fallback_with_kind(fallback_kind, fallback_roots, fallback_reasons));
        }
        Some(
            Self::retained_queries_with_fallback_kind(
                exact_queries,
                fallback_kind,
                reasoned_fallback_roots,
                exact_safety_fallback_roots,
                fallback_reasons,
            ),
        )
    }

    /// Create a source dependency fallback target from selected fallback roots.
    ///
    /// Missing roots are represented as an explicit fallback kind and reason,
    /// not as an empty generic fallback-root payload.
    pub fn source_dependency_fallback(
        fallback_roots: Vec<Root>,
        fallback_reasons: OrderedSet<LightmountSourceInvalidationFallbackReason>,
    ) -> (target: Self)
        ensures
            target@ == PlannedTargetView::source_fallback(fallback_roots@, fallback_reasons@),
    {
        let fallback_kind = if fallback_roots.len() == 0 {
            LightmountRetainedSourceStyleInvalidationKind::MissingFallbackRoots
        } else {
            LightmountRetainedSourceStyleInvalidationKind::FallbackOnly
        };
        Self::fallback_with_kind(fallback_kind, fallback_roots, fallback_reasons)
    }

    /// Create a retained-query target with optional fallback target policy.
    pub fn retained_queries_with_fallback_kind(
        exact_queries: Vec<LightmountRetainedStyleInvalidationQuery<Root>>,
        fallback_kind: Option<LightmountRetainedSourceStyleInvalidationKind>,
        reasoned_fallback_roots: Vec<Root>,
        exact_safety_fallback_roots: Vec<Root>,
        fallback_reasons: OrderedSet<LightmountSourceInvalidationFallbackReason>,
    ) -> (target: Self)
        requires
            exact_queries@.len() > 0,
            fallback_kind matches Some(kind) ==> !kind.has_queries(),
        ensures
            target@ == (PlannedTargetView::RetainedQueries {
                exact_queries: super::request::query_views(exact_queries@),
                fallback_kind,
                reasoned_fallback_roots: reasoned_fallback_roots@,
                exact_safety_fallback_roots: exact_safety_fallback_roots@,
                fallback_reasons: fallback_reasons@,
            }),
    {
        Self {
            target: LightmountPlannedSourceDependencyInvalidationTargetKind::RetainedQueries {
                exact_queries,
                fallback_kind,
                reasoned_fallback_roots,
                exact_safety_fallback_roots,
                fallback_reasons,
            },
        }
    }

    /// Create a fallback target with an explicit fallback kind.
    pub fn fallback_with_kind(
        fallback_kind: LightmountRetainedSourceStyleInvalidationKind,
        fallback_roots: Vec<Root>,
        fallback_reasons: OrderedSet<LightmountSourceInvalidationFallbackReason>,
    ) -> (target: Self)
        requires
            !fallback_kind.has_queries(),
            fallback_kind == LightmountRetainedSourceStyleInvalidationKind::MissingFallbackRoots
                ==> fallback_roots@.len() == 0,
        ensures
            target@ == PlannedTargetView::fallback_of(
                fallback_kind,
                fallback_roots@,
                fallback_reasons@,
            ),
    {
        let mut fallback_reasons = fallback_reasons;
        if let Some(fallback_reason) = fallback_kind.fallback_reason() {
            fallback_reasons.insert(fallback_reason);
        }
        Self {
            target: LightmountPlannedSourceDependencyInvalidationTargetKind::FallbackOnly {
                fallback_kind,
                fallback_roots,
                fallback_reasons,
            },
        }
    }

    /// Consume this target into drainable parts.
    pub fn into_parts(self) -> (parts: LightmountPlannedSourceDependencyInvalidationTargetParts<
        Root,
    >)
        ensures
            parts.call() == self@.call(),
            self@.well_formed(),
    {
        proof {
            use_type_invariant(&self);
        }
        match self.target {
            LightmountPlannedSourceDependencyInvalidationTargetKind::RetainedQueries {
                exact_queries,
                fallback_kind,
                reasoned_fallback_roots,
                exact_safety_fallback_roots,
                fallback_reasons,
            } => LightmountPlannedSourceDependencyInvalidationTargetParts::RetainedQueries {
                exact_queries,
                fallback_kind,
                reasoned_fallback_roots,
                exact_safety_fallback_roots,
                fallback_reasons,
            },
            LightmountPlannedSourceDependencyInvalidationTargetKind::FallbackOnly {
                fallback_kind,
                fallback_roots,
                fallback_reasons,
            } => {
                if fallback_kind
                    == LightmountRetainedSourceStyleInvalidationKind::MissingFallbackRoots {
                    LightmountPlannedSourceDependencyInvalidationTargetParts::MissingFallbackRoots {
                        fallback_reasons,
                    }
                } else {
                    LightmountPlannedSourceDependencyInvalidationTargetParts::FallbackWithRoots {
                        fallback_kind,
                        fallback_roots,
                        fallback_reasons,
                    }
                }
            },
        }
    }

    /// Consume a fallback target into its kind, roots and reasons.
    fn into_fallback_parts(self) -> (parts: (
        LightmountRetainedSourceStyleInvalidationKind,
        Vec<Root>,
        OrderedSet<LightmountSourceInvalidationFallbackReason>,
    ))
        requires
            self@ is Fallback,
        ensures
            self@ == (PlannedTargetView::Fallback {
                fallback_kind: parts.0,
                fallback_roots: parts.1@,
                fallback_reasons: parts.2@,
            }),
    {
        match self.target {
            LightmountPlannedSourceDependencyInvalidationTargetKind::FallbackOnly {
                fallback_kind,
                fallback_roots,
                fallback_reasons,
            } => (fallback_kind, fallback_roots, fallback_reasons),
            LightmountPlannedSourceDependencyInvalidationTargetKind::RetainedQueries {
                reasoned_fallback_roots,
                fallback_reasons,
                ..
            } => (
                LightmountRetainedSourceStyleInvalidationKind::RetainedQueries,
                reasoned_fallback_roots,
                fallback_reasons,
            ),
        }
    }

    /// Drain this target into a sink.
    pub fn drain_into<
        Sink: LightmountPlannedSourceDependencyInvalidationTargetPartsSink<Root>,
    >(self, target: &mut Sink)
        ensures
            final(target).planned_calls() == old(target).planned_calls().push(self@.call()),
            self@.well_formed(),
    {
        self.into_parts().drain_into(target);
    }
}

/// Planned retained invalidation work for one stylesheet source in a batch.
#[derive(Debug, PartialEq, Eq)]
pub struct LightmountPlannedSourceDependencyInvalidation<Root> {
    /// The stylesheet source index.
    pub source_index: usize,
    /// The target.
    pub target: LightmountPlannedSourceDependencyInvalidationTarget<Root>,
    /// Structural-boundary cleanup roots.
    pub structural_boundary_cleanup_roots: Vec<Root>,
}

impl<Root: Copy> Clone for LightmountPlannedSourceDependencyInvalidation<Root> {
    fn clone(&self) -> (row: Self)
        ensures
            row@ == self@,
    {
        Self {
            source_index: self.source_index,
            target: self.target.clone(),
            structural_boundary_cleanup_roots: copy_slice(
                self.structural_boundary_cleanup_roots.as_slice(),
            ),
        }
    }
}

/// The content of a planned row.
pub struct PlannedRowView<Root> {
    /// The stylesheet source index.
    pub source_index: int,
    /// The target.
    pub target: PlannedTargetView<Root>,
    /// Structural-boundary cleanup roots.
    pub cleanup_roots: Seq<Root>,
}

impl<Root> View for LightmountPlannedSourceDependencyInvalidation<Root> {
    type V = PlannedRowView<Root>;

    open spec fn view(&self) -> PlannedRowView<Root> {
        PlannedRowView {
            source_index: self.source_index as int,
            target: self.target@,
            cleanup_roots: self.structural_boundary_cleanup_roots@,
        }
    }
}

impl<Root> LightmountPlannedSourceDependencyInvalidation<Root> {
    /// Create a planned source dependency invalidation from a typed target.
    pub fn from_target(
        source_index: usize,
        target: LightmountPlannedSourceDependencyInvalidationTarget<Root>,
        structural_boundary_cleanup_roots: Vec<Root>,
    ) -> (planned: Self)
        ensures
            planned@ == (PlannedRowView {
                source_index: source_index as int,
                target: target@,
                cleanup_roots: structural_boundary_cleanup_roots@,
            }),
    {
        Self { source_index, target, structural_boundary_cleanup_roots }
    }

    /// Create a retained-query planned source dependency invalidation with a
    /// fallback kind for inexact dependency branches.
    pub fn retained_queries_with_fallback_kind(
        source_index: usize,
        exact_queries: Vec<LightmountRetainedStyleInvalidationQuery<Root>>,
        fallback_kind: Option<LightmountRetainedSourceStyleInvalidationKind>,
        reasoned_fallback_roots: Vec<Root>,
        exact_safety_fallback_roots: Vec<Root>,
        fallback_reasons: OrderedSet<LightmountSourceInvalidationFallbackReason>,
        structural_boundary_cleanup_roots: Vec<Root>,
    ) -> (planned: Self)
        requires
            exact_queries@.len() > 0,
            fallback_kind matches Some(kind) ==> !kind.has_queries(),
        ensures
            planned@ == (PlannedRowView {
                source_index: source_index as int,
                target: PlannedTargetView::RetainedQueries {
                    exact_queries: super::request::query_views(exact_queries@),
                    fallback_kind,
                    reasoned_fallback_roots: reasoned_fallback_roots@,
                    exact_safety_fallback_roots: exact_safety_fallback_roots@,
                    fallback_reasons: fallback_reasons@,
                },
                cleanup_roots: structural_boundary_cleanup_roots@,
            }),
    {
        Self::from_target(
            source_index,
            LightmountPlannedSourceDependencyInvalidationTarget::retained_queries_with_fallback_kind(
                exact_queries,
                fallback_kind,
                reasoned_fallback_roots,
                exact_safety_fallback_roots,
                fallback_reasons,
            ),
            structural_boundary_cleanup_roots,
        )
    }

    /// Create a fallback-only planned source dependency invalidation.
    pub fn fallback_only(
        source_index: usize,
        fallback_roots: Vec<Root>,
        fallback_reasons: OrderedSet<LightmountSourceInvalidationFallbackReason>,
        structural_boundary_cleanup_roots: Vec<Root>,
    ) -> (planned: Self)
        ensures
            planned@ == (PlannedRowView {
                source_index: source_index as int,
                target: PlannedTargetView::Fallback {
                    fallback_kind: LightmountRetainedSourceStyleInvalidationKind::FallbackOnly,
                    fallback_roots: fallback_roots@,
                    fallback_reasons: fallback_reasons@,
                },
                cleanup_roots: structural_boundary_cleanup_roots@,
            }),
    {
        Self::fallback_with_kind(
            source_index,
            LightmountRetainedSourceStyleInvalidationKind::FallbackOnly,
            fallback_roots,
            fallback_reasons,
            structural_boundary_cleanup_roots,
        )
    }

    /// Create a fallback planned source dependency invalidation with an
    /// explicit fallback kind.
    pub fn fallback_with_kind(
        source_index: usize,
        fallback_kind: LightmountRetainedSourceStyleInvalidationKind,
        fallback_roots: Vec<Root>,
        fallback_reasons: OrderedSet<LightmountSourceInvalidationFallbackReason>,
        structural_boundary_cleanup_roots: Vec<Root>,
    ) -> (planned: Self)
        requires
            !fallback_kind.has_queries(),
            fallback_kind == LightmountRetainedSourceStyleInvalidationKind::MissingFallbackRoots
                ==> fallback_roots@.len() == 0,
        ensures
            planned@ == (PlannedRowView {
                source_index: source_index as int,
                target: PlannedTargetView::fallback_of(
                    fallback_kind,
                    fallback_roots@,
                    fallback_reasons@,
                ),
                cleanup_roots: structural_boundary_cleanup_roots@,
            }),
    {
        Self::from_target(
            source_index,
            LightmountPlannedSourceDependencyInvalidationTarget::fallback_with_kind(
                fallback_kind,
                fallback_roots,
                fallback_reasons,
            ),
            structural_boundary_cleanup_roots,
        )
    }

    /// Create a planned source dependency invalidation for unavailable fallback
    /// roots.
    pub fn missing_fallback_roots(
        source_index: usize,
        fallback_reasons: OrderedSet<LightmountSourceInvalidationFallbackReason>,
        structural_boundary_cleanup_roots: Vec<Root>,
    ) -> (planned: Self)
        ensures
            planned@ == (PlannedRowView {
                source_index: source_index as int,
                target: PlannedTargetView::source_fallback(
                    Seq::<Root>::empty(),
                    fallback_reasons@,
                ),
                cleanup_roots: structural_boundary_cleanup_roots@,
            }),
    {
        Self::fallback_with_kind(
            source_index,
            LightmountRetainedSourceStyleInvalidationKind::MissingFallbackRoots,
            Vec::new(),
            fallback_reasons,
            structural_boundary_cleanup_roots,
        )
    }

    /// Drain this row into a sink.
    pub fn drain_into<Sink: LightmountPlannedSourceDependencyInvalidationPartsSink<Root>>(
        self,
        target: &mut Sink,
    )
        ensures
            final(target).planned_calls() == old(target).planned_calls() + seq![
                PlannedCall::SourceIndex(self.source_index),
                PlannedCall::CleanupRoots(self.structural_boundary_cleanup_roots@),
                self.target@.call(),
            ],
    {
        let ghost before = target.planned_calls();
        target.set_planned_source_dependency_source_index(self.source_index);
        target.set_planned_source_dependency_structural_boundary_cleanup_roots(
            self.structural_boundary_cleanup_roots,
        );
        self.target.drain_into(target);
        assert(target.planned_calls() =~= before + seq![
            PlannedCall::SourceIndex(self.source_index),
            PlannedCall::CleanupRoots(self.structural_boundary_cleanup_roots@),
            self.target@.call(),
        ]);
    }
}

/// Fallback-root invalidation target used when no source retained query target
/// is available.
#[derive(Debug, PartialEq, Eq)]
pub struct LightmountPlannedFallbackRootInvalidationTarget<Root> {
    target: LightmountPlannedSourceDependencyInvalidationTarget<Root>,
}

impl<Root: Copy> Clone for LightmountPlannedFallbackRootInvalidationTarget<Root> {
    fn clone(&self) -> (target: Self)
        ensures
            target@ == self@,
    {
        proof {
            use_type_invariant(self);
        }
        Self { target: self.target.clone() }
    }
}

/// The content of a fallback-root target.
pub struct FallbackRootTargetView<Root> {
    /// The fallback policy.
    pub fallback_kind: LightmountRetainedSourceStyleInvalidationKind,
    /// Roots to clear.
    pub fallback_roots: Seq<Root>,
    /// Reasons why fallback handling is required.
    pub fallback_reasons: Seq<LightmountSourceInvalidationFallbackReason>,
}

impl<Root> FallbackRootTargetView<Root> {
    /// The target that uses the roots given.
    pub open spec fn fallback_only(
        fallback_roots: Seq<Root>,
        fallback_reasons: Seq<LightmountSourceInvalidationFallbackReason>,
    ) -> Self {
        FallbackRootTargetView {
            fallback_kind: LightmountRetainedSourceStyleInvalidationKind::FallbackOnly,
            fallback_roots,
            fallback_reasons,
        }
    }

    /// The target that uses the roots of the source scope, with that reason.
    pub open spec fn source_scope(
        fallback_roots: Seq<Root>,
        fallback_reasons: Seq<LightmountSourceInvalidationFallbackReason>,
    ) -> Self {
        FallbackRootTargetView {
            fallback_kind: LightmountRetainedSourceStyleInvalidationKind::SourceScopeFallback,
            fallback_roots,
            fallback_reasons: super::ordered_set::push_unique(
                fallback_reasons,
                LightmountSourceInvalidationFallbackReason::SourceScopeFallback,
            ),
        }
    }
}

/// Drainable fallback-root invalidation target parts.
#[derive(Debug, PartialEq, Eq)]
pub struct LightmountPlannedFallbackRootInvalidationTargetParts<Root> {
    /// The fallback policy.
    pub fallback_kind: LightmountRetainedSourceStyleInvalidationKind,
    /// Roots to clear.
    pub fallback_roots: Vec<Root>,
    /// Reasons why fallback handling is required.
    pub fallback_reasons: OrderedSet<LightmountSourceInvalidationFallbackReason>,
}

impl<Root> View for LightmountPlannedFallbackRootInvalidationTargetParts<Root> {
    type V = FallbackRootTargetView<Root>;

    open spec fn view(&self) -> FallbackRootTargetView<Root> {
        FallbackRootTargetView {
            fallback_kind: self.fallback_kind,
            fallback_roots: self.fallback_roots@,
            fallback_reasons: self.fallback_reasons@,
        }
    }
}

impl<Root: Copy> Clone for LightmountPlannedFallbackRootInvalidationTargetParts<Root> {
    fn clone(&self) -> (parts: Self)
        ensures
            parts@ == self@,
    {
        Self {
            fallback_kind: self.fallback_kind,
            fallback_roots: copy_slice(self.fallback_roots.as_slice()),
            fallback_reasons: self.fallback_reasons.clone(),
        }
    }
}

/// Sink for fallback-root invalidation target parts.
pub trait LightmountPlannedFallbackRootInvalidationTargetPartsSink<Root> {
    /// The targets received so far.
    open spec fn fallback_root_targets(&self) -> Seq<FallbackRootTargetView<Root>> {
        Seq::empty()
    }

    /// Record fallback-root target parts.
    fn set_planned_fallback_root_target_parts(
        &mut self,
        fallback_kind: LightmountRetainedSourceStyleInvalidationKind,
        fallback_roots: Vec<Root>,
        fallback_reasons: OrderedSet<LightmountSourceInvalidationFallbackReason>,
    )
        ensures
            final(self).fallback_root_targets() == old(self).fallback_root_targets().push(
                FallbackRootTargetView {
                    fallback_kind,
                    fallback_roots: fallback_roots@,
                    fallback_reasons: fallback_reasons@,
                },
            ),
    ;
}

impl<Root> LightmountPlannedFallbackRootInvalidationTargetParts<Root> {
    /// Drain these fallback target parts into a sink.
    pub fn drain_into<Sink: LightmountPlannedFallbackRootInvalidationTargetPartsSink<Root>>(
        self,
        target: &mut Sink,
    )
        ensures
            final(target).fallback_root_targets() == old(target).fallback_root_targets().push(
                self@,
            ),
    {
        target.set_planned_fallback_root_target_parts(
            self.fallback_kind,
            self.fallback_roots,
            self.fallback_reasons,
        );
    }
}

impl<Root> LightmountPlannedFallbackRootInvalidationTarget<Root> {
    /// The content of this target.
    pub closed spec fn view(&self) -> FallbackRootTargetView<Root> {
        FallbackRootTargetView {
            fallback_kind: self.target@->Fallback_fallback_kind,
            fallback_roots: self.target@->Fallback_fallback_roots,
            fallback_reasons: self.target@->Fallback_fallback_reasons,
        }
    }

    #[verifier::type_invariant]
    spec fn is_fallback_root_target(&self) -> bool {
        self.target@ is Fallback && self.view().fallback_kind.targets_fallback_root()
    }

    /// Create a fallback-only target.
    pub fn fallback_only(
        fallback_roots: Vec<Root>,
        fallback_reasons: OrderedSet<LightmountSourceInvalidationFallbackReason>,
    ) -> (target: Self)
        ensures
            target@ == FallbackRootTargetView::fallback_only(fallback_roots@, fallback_reasons@),
    {
        Self::fallback_with_kind(
            LightmountRetainedSourceStyleInvalidationKind::FallbackOnly,
            fallback_roots,
            fallback_reasons,
        )
    }

    /// Create a source-scope fallback target.
    pub fn source_scope_fallback(
        fallback_roots: Vec<Root>,
        fallback_reasons: OrderedSet<LightmountSourceInvalidationFallbackReason>,
    ) -> (target: Self)
        ensures
            target@ == FallbackRootTargetView::source_scope(fallback_roots@, fallback_reasons@),
    {
        Self::fallback_with_kind(
            LightmountRetainedSourceStyleInvalidationKind::SourceScopeFallback,
            fallback_roots,
            fallback_reasons,
        )
    }

    /// Create a fallback-root target with an explicit fallback kind.
    pub fn fallback_with_kind(
        fallback_kind: LightmountRetainedSourceStyleInvalidationKind,
        fallback_roots: Vec<Root>,
        fallback_reasons: OrderedSet<LightmountSourceInvalidationFallbackReason>,
    ) -> (target: Self)
        requires
            fallback_kind.targets_fallback_root(),
        ensures
            target@ == if fallback_kind
                == LightmountRetainedSourceStyleInvalidationKind::FallbackOnly {
                FallbackRootTargetView::fallback_only(fallback_roots@, fallback_reasons@)
            } else {
                FallbackRootTargetView::source_scope(fallback_roots@, fallback_reasons@)
            },
    {
        Self {
            target: LightmountPlannedSourceDependencyInvalidationTarget::fallback_with_kind(
                fallback_kind,
                fallback_roots,
                fallback_reasons,
            ),
        }
    }

    /// Consume this fallback target into drainable parts.
    pub fn into_parts(self) -> (parts: LightmountPlannedFallbackRootInvalidationTargetParts<Root>)
        ensures
            parts@ == self@,
            self@.fallback_kind.targets_fallback_root(),
    {
        proof {
            use_type_invariant(&self);
        }
        let (fallback_kind, fallback_roots, fallback_reasons) = self.target.into_fallback_parts();
        LightmountPlannedFallbackRootInvalidationTargetParts {
            fallback_kind,
            fallback_roots,
            fallback_reasons,
        }
    }

    /// Drain this fallback-root target into a sink.
    pub fn drain_into<Sink: LightmountPlannedFallbackRootInvalidationTargetPartsSink<Root>>(
        self,
        target: &mut Sink,
    )
        ensures
            final(target).fallback_root_targets() == old(target).fallback_root_targets().push(
                self@,
            ),
            self@.fallback_kind.targets_fallback_root(),
    {
        self.into_parts().drain_into(target);
    }
}

/// Runtime source/scope fallback input for one stylesheet source.
#[derive(Copy, Debug, PartialEq, Eq)]
pub enum LightmountStylesheetSourceScopeFallbackInput<Root> {
    /// Inline or linked stylesheet owner element.
    StylesheetOwner {
        /// Stylesheet owner handle.
        owner: Root,
    },
    /// Adopted stylesheet scoped to a document.
    DocumentAdopted {
        /// Document handle.
        document: Root,
    },
    /// Adopted stylesheet scoped to a shadow root.
    ShadowRootAdopted {
        /// Shadow root handle.
        root: Root,
    },
    /// No source/scope fallback roots are available.
    Unscoped,
}

impl<Root: Copy> Clone for LightmountStylesheetSourceScopeFallbackInput<Root> {
    fn clone(&self) -> (copy: Self)
        ensures
            copy == *self,
    {
        *self
    }
}

/// DOM-backed resolver for stylesheet source/scope fallback roots.
pub trait LightmountStylesheetSourceScopeFallbackRootsResolver<Root> {
    /// The roots of a stylesheet owner's scope.
    open spec fn owner_roots(&self, owner: Root) -> Seq<Root> {
        Seq::empty()
    }

    /// The roots of a document's scope.
    open spec fn document_roots(&self, document: Root) -> Seq<Root> {
        Seq::empty()
    }

    /// The roots of a shadow root's scope.
    open spec fn shadow_roots(&self, root: Root) -> Seq<Root> {
        Seq::empty()
    }

    /// Return fallback roots for a stylesheet owner element.
    fn stylesheet_owner_source_scope_fallback_roots(&self, owner: Root) -> (roots: Vec<Root>)
        ensures
            roots@ == self.owner_roots(owner),
    ;

    /// Return fallback roots for an adopted stylesheet scoped to a document.
    fn document_source_scope_fallback_roots(&self, document: Root) -> (roots: Vec<Root>)
        ensures
            roots@ == self.document_roots(document),
    ;

    /// Return fallback roots for an adopted stylesheet scoped to a shadow root.
    fn shadow_root_source_scope_fallback_roots(&self, root: Root) -> (roots: Vec<Root>)
        ensures
            roots@ == self.shadow_roots(root),
    ;
}

/// Return source/scope fallback roots for a stylesheet source input.
pub fn lightmount_stylesheet_source_scope_fallback_roots<
    Root: Copy,
    Resolver: LightmountStylesheetSourceScopeFallbackRootsResolver<Root>,
>(input: LightmountStylesheetSourceScopeFallbackInput<Root>, resolver: &Resolver) -> (roots: Vec<
    Root,
>)
    ensures
        roots@ == match input {
            LightmountStylesheetSourceScopeFallbackInput::StylesheetOwner { owner } => {
                resolver.owner_roots(owner)
            },
            LightmountStylesheetSourceScopeFallbackInput::DocumentAdopted { document } => {
                resolver.document_roots(document)
            },
            LightmountStylesheetSourceScopeFallbackInput::ShadowRootAdopted { root } => {
                resolver.shadow_roots(root)
            },
            LightmountStylesheetSourceScopeFallbackInput::Unscoped => Seq::empty(),
        },
{
    match input {
        LightmountStylesheetSourceScopeFallbackInput::StylesheetOwner { owner } => {
            resolver.stylesheet_owner_source_scope_fallback_roots(owner)
        },
        LightmountStylesheetSourceScopeFallbackInput::DocumentAdopted { document } => {
            resolver.document_source_scope_fallback_roots(document)
        },
        LightmountStylesheetSourceScopeFallbackInput::ShadowRootAdopted { root } => {
            resolver.shadow_root_source_scope_fallback_roots(root)
        },
        LightmountStylesheetSourceScopeFallbackInput::Unscoped => Vec::new(),
    }
}

/// Create a source-scope fallback target from embedder-provided fallback roots.
pub fn lightmount_source_scope_fallback_plan<Root, Roots: FnOnce() -> Vec<Root>>(
    source_scope_fallback_roots: Roots,
    fallback_reasons: &[LightmountSourceInvalidationFallbackReason],
) -> (target: LightmountPlannedFallbackRootInvalidationTarget<Root>)
    requires
        source_scope_fallback_roots.requires(()),
    ensures
        exists|roots: Vec<Root>| #[trigger]
            source_scope_fallback_roots.ensures((), roots) && target@
                == FallbackRootTargetView::source_scope(
                roots@,
                super::ordered_set::extend_unique(Seq::empty(), fallback_reasons@),
            ),
{
    LightmountPlannedFallbackRootInvalidationTarget::source_scope_fallback(
        source_scope_fallback_roots(),
        OrderedSet::from_slice(fallback_reasons),
    )
}

/// Create a generic fallback-root target from embedder-provided fallback roots.
pub fn lightmount_fallback_roots_plan<Root>(
    fallback_roots: Vec<Root>,
    fallback_reasons: &[LightmountSourceInvalidationFallbackReason],
) -> (target: LightmountPlannedFallbackRootInvalidationTarget<Root>)
    ensures
        target@ == FallbackRootTargetView::fallback_only(
            fallback_roots@,
            super::ordered_set::extend_unique(Seq::empty(), fallback_reasons@),
        ),
{
    LightmountPlannedFallbackRootInvalidationTarget::fallback_only(
        fallback_roots,
        OrderedSet::from_slice(fallback_reasons),
    )
}

/// Create a fallback target from runtime fallback roots, falling back to the
/// source-scope roots only when no narrower runtime roots are available.
pub fn lightmount_runtime_or_source_scope_fallback_plan<Root, Roots: FnOnce() -> Vec<Root>>(
    runtime_fallback_roots: Vec<Root>,
    source_scope_fallback_roots: Roots,
    fallback_reasons: &[LightmountSourceInvalidationFallbackReason],
) -> (target: LightmountPlannedFallbackRootInvalidationTarget<Root>)
    requires
        runtime_fallback_roots@.len() == 0 ==> source_scope_fallback_roots.requires(()),
    ensures
        runtime_fallback_roots@.len() > 0 ==> target@ == FallbackRootTargetView::fallback_only(
            runtime_fallback_roots@,
            super::ordered_set::extend_unique(Seq::empty(), fallback_reasons@),
        ),
        runtime_fallback_roots@.len() == 0 ==> exists|roots: Vec<Root>| #[trigger]
            source_scope_fallback_roots.ensures((), roots) && target@
                == FallbackRootTargetView::source_scope(
                roots@,
                super::ordered_set::extend_unique(Seq::empty(), fallback_reasons@),
            ),
{
    let fallback_reasons = OrderedSet::from_slice(fallback_reasons);
    if runtime_fallback_roots.len() == 0 {
        LightmountPlannedFallbackRootInvalidationTarget::source_scope_fallback(
            source_scope_fallback_roots(),
            fallback_reasons,
        )
    } else {
        LightmountPlannedFallbackRootInvalidationTarget::fallback_only(
            runtime_fallback_roots,
            fallback_reasons,
        )
    }
}

} // verus!
