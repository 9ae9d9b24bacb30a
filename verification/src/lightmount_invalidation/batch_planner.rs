//! Planning of invalidation work for a batch of stylesheet sources.

use vstd::prelude::*;

use super::lists::copy_slice;
use super::ordered_set::{Keyed, OrderedSet};
use super::planned::{
    FallbackRootTargetView, LightmountPlannedFallbackRootInvalidationTarget,
    LightmountPlannedSourceDependencyInvalidation,
    LightmountPlannedSourceDependencyInvalidationTarget, LightmountSourceDependencyBoundaryRoots,
    PlannedRowView, PlannedTargetView,
};
use super::planner::{
    lightmount_source_dependency_invalidation_plan, ContextQuestion, ContextReply,
    LightmountSourceDependencyInvalidationContextRootsProvider,
    LightmountSourceDependencyInvalidationSourcePlan, SourcePlanView,
};
use super::reasons::LightmountSourceInvalidationFallbackReason;
use super::request::LightmountSourceDependencyInvalidationRequest;
use super::source_summary::LightmountSourceDependencyInvalidationBatchSource;

verus! {

/// What has been decided for a batch of sources so far.
pub struct BatchProgress<Root> {
    /// The planned rows.
    pub rows: Seq<PlannedRowView<Root>>,
    /// The source that an empty target falls back to, and its roots.
    pub empty_target: Option<(int, Seq<Root>)>,
    /// The row that forces fallback of the whole batch.
    pub stopped: Option<PlannedRowView<Root>>,
    /// The questions put to the provider.
    pub questions: Seq<ContextQuestion<Root>>,
}

impl<Root> BatchProgress<Root> {
    /// Nothing decided yet.
    pub open spec fn none() -> Self {
        BatchProgress {
            rows: Seq::empty(),
            empty_target: None,
            stopped: None,
            questions: Seq::empty(),
        }
    }
}

/// The source that an empty target falls back to: the first one that needs it,
/// unless that has no roots and a later one has.
pub open spec fn empty_target_after<'a, Root>(
    empty_target: Option<(int, Seq<Root>)>,
    source_index: int,
    source: LightmountSourceDependencyInvalidationBatchSource<'a, Root>,
    requests: Seq<LightmountSourceDependencyInvalidationRequest<'a, Root>>,
) -> Option<(int, Seq<Root>)> {
    let selected = source.fallback_roots.selected();
    let replaces = match empty_target {
        None => true,
        Some((_, roots)) => roots.len() == 0 && selected.len() > 0,
    };
    if source.dependency_summary@.needs_empty_target_fallback(requests) && replaces {
        Some((source_index, selected))
    } else {
        empty_target
    }
}

/// The decision on one source, where `replies` are what the provider says to
/// its questions in turn.
pub open spec fn decide_source<'a, Root: Copy>(
    progress: BatchProgress<Root>,
    source_index: int,
    source: LightmountSourceDependencyInvalidationBatchSource<'a, Root>,
    requests: Seq<LightmountSourceDependencyInvalidationRequest<'a, Root>>,
    cleanup_roots: Seq<Root>,
    replies: Seq<ContextReply<Root>>,
) -> BatchProgress<Root> {
    let summary = source.dependency_summary@;
    let selected = source.fallback_roots.selected();
    let decided = super::planner::decide_all(summary, selected, requests, replies);
    if progress.stopped is Some {
        progress
    } else {
        let asked = BatchProgress {
            empty_target: empty_target_after(
                progress.empty_target,
                source_index,
                source,
                requests,
            ),
            questions: progress.questions + decided.questions,
            ..progress
        };
        match decided.plan(selected) {
            SourcePlanView::Work { target: None } => asked,
            SourcePlanView::Work { target: Some(target) } => BatchProgress {
                rows: asked.rows.push(
                    PlannedRowView {
                        source_index,
                        target,
                        cleanup_roots: if summary.any_relative_previous(requests) {
                            cleanup_roots
                        } else {
                            Seq::empty()
                        },
                    },
                ),
                ..asked
            },
            SourcePlanView::RequiresSourceFallback { target } => BatchProgress {
                stopped: Some(
                    PlannedRowView { source_index, target, cleanup_roots: Seq::empty() },
                ),
                ..asked
            },
        }
    }
}

/// What is decided for a list of sources, where `replies` are what the provider
/// says to all questions in turn. Nothing is decided, or asked, after a source
/// that forces fallback.
pub open spec fn decide_sources<'a, Root: Copy>(
    sources: Seq<LightmountSourceDependencyInvalidationBatchSource<'a, Root>>,
    requests: Seq<LightmountSourceDependencyInvalidationRequest<'a, Root>>,
    cleanup_roots: Seq<Root>,
    replies: Seq<ContextReply<Root>>,
) -> BatchProgress<Root>
    decreases sources.len(),
{
    if sources.len() == 0 {
        BatchProgress::none()
    } else {
        let before = decide_sources(sources.drop_last(), requests, cleanup_roots, replies);
        decide_source(
            before,
            sources.len() - 1,
            sources.last(),
            requests,
            cleanup_roots,
            replies.skip(before.questions.len() as int),
        )
    }
}

/// The content of a batch plan.
pub enum BatchPlanView<Root> {
    /// Work for sources.
    Work {
        /// The planned rows.
        sources: Seq<PlannedRowView<Root>>,
        /// The fallback-root target for an empty structural target.
        boundary_fallback: Option<FallbackRootTargetView<Root>>,
    },
    /// A source requires fallback of the whole batch.
    RequiresSourceFallback {
        /// The row of that source.
        source: PlannedRowView<Root>,
    },
}

impl<Root> BatchProgress<Root> {
    /// The plan that the decisions amount to. An empty target falls back to the
    /// roots of the mutation boundary; without any, its source requires
    /// fallback.
    pub open spec fn plan(self, boundary_roots: Seq<Root>) -> BatchPlanView<Root> {
        let inexact = seq![LightmountSourceInvalidationFallbackReason::InexactEmptyResult];
        if let Some(source) = self.stopped {
            BatchPlanView::RequiresSourceFallback { source }
        } else {
            match self.empty_target {
                Some((source_index, roots)) => if boundary_roots.len() == 0 {
                    BatchPlanView::RequiresSourceFallback {
                        source: PlannedRowView {
                            source_index,
                            target: PlannedTargetView::source_fallback(roots, inexact),
                            cleanup_roots: Seq::empty(),
                        },
                    }
                } else {
                    BatchPlanView::Work {
                        sources: self.rows,
                        boundary_fallback: Some(
                            FallbackRootTargetView::fallback_only(boundary_roots, inexact),
                        ),
                    }
                },
                None => BatchPlanView::Work { sources: self.rows, boundary_fallback: None },
            }
        }
    }
}

/// Source dependency planning result for a batch of stylesheet sources.
#[derive(Debug, PartialEq, Eq)]
pub struct LightmountSourceDependencyInvalidationBatchPlan<Root> {
    /// The shape of the plan.
    pub plan: LightmountSourceDependencyInvalidationBatchPlanKind<Root>,
}

/// Shape of source dependency batch plans.
#[derive(Debug, PartialEq, Eq)]
pub enum LightmountSourceDependencyInvalidationBatchPlanKind<Root> {
    /// Retained or fallback work of sources, with optional fallback-root work
    /// for an empty exact target.
    Work {
        /// Planned rows for stylesheet sources participating in the batch.
        sources: Vec<LightmountPlannedSourceDependencyInvalidation<Root>>,
        /// Optional fallback-root target for an empty structural target.
        boundary_fallback: Option<LightmountPlannedFallbackRootInvalidationTarget<Root>>,
    },
    /// A source dependency requires fallback and no fallback roots are
    /// available at the requested boundary.
    RequiresSourceFallback {
        /// Source row that forces source-level fallback.
        source: LightmountPlannedSourceDependencyInvalidation<Root>,
    },
}

/// The contents of a list of planned rows.
pub open spec fn row_views<Root>(
    rows: Seq<LightmountPlannedSourceDependencyInvalidation<Root>>,
) -> Seq<PlannedRowView<Root>> {
    rows.map_values(|row: LightmountPlannedSourceDependencyInvalidation<Root>| row@)
}

/// The content of batch work.
pub open spec fn work_view<Root>(
    sources: Seq<LightmountPlannedSourceDependencyInvalidation<Root>>,
    boundary_fallback: Option<LightmountPlannedFallbackRootInvalidationTarget<Root>>,
) -> BatchPlanView<Root> {
    BatchPlanView::Work {
        sources: row_views(sources),
        boundary_fallback: match boundary_fallback {
            Some(target) => Some(target@),
            None => None,
        },
    }
}

impl<Root> View for LightmountSourceDependencyInvalidationBatchPlan<Root> {
    type V = BatchPlanView<Root>;

    open spec fn view(&self) -> BatchPlanView<Root> {
        plan_kind_view(self.plan)
    }
}

/// The content of a batch plan of this shape.
pub open spec fn plan_kind_view<Root>(
    plan: LightmountSourceDependencyInvalidationBatchPlanKind<Root>,
) -> BatchPlanView<Root> {
    match plan {
        LightmountSourceDependencyInvalidationBatchPlanKind::Work {
            sources,
            boundary_fallback,
        } => work_view(sources@, boundary_fallback),
        LightmountSourceDependencyInvalidationBatchPlanKind::RequiresSourceFallback { source } => {
            BatchPlanView::RequiresSourceFallback { source: source@ }
        },
    }
}

impl<Root: Copy> Clone for LightmountSourceDependencyInvalidationBatchPlanKind<Root> {
    fn clone(&self) -> (plan: Self)
        ensures
            plan_kind_view(plan) == plan_kind_view(*self),
    {
        match self {
            Self::Work { sources, boundary_fallback } => Self::Work {
                sources: copy_rows(sources),
                boundary_fallback: match boundary_fallback {
                    Some(target) => Some(target.clone()),
                    None => None,
                },
            },
            Self::RequiresSourceFallback { source } => {
                Self::RequiresSourceFallback { source: source.clone() }
            },
        }
    }
}

impl<Root: Copy> Clone for LightmountSourceDependencyInvalidationBatchPlan<Root> {
    fn clone(&self) -> (plan: Self)
        ensures
            plan@ == self@,
    {
        Self { plan: self.plan.clone() }
    }
}

/// Return a list of the same rows.
fn copy_rows<Root: Copy>(
    rows: &Vec<LightmountPlannedSourceDependencyInvalidation<Root>>,
) -> (copy: Vec<LightmountPlannedSourceDependencyInvalidation<Root>>)
    ensures
        row_views(copy@) == row_views(rows@),
{
    let ghost views = row_views(rows@);
    let mut copy: Vec<LightmountPlannedSourceDependencyInvalidation<Root>> = Vec::new();
    let mut index: usize = 0;
    assert(row_views(copy@) =~= views.take(0));
    while index < rows.len()
        invariant
            index <= rows.len(),
            views == row_views(rows@),
            row_views(copy@) == views.take(index as int),
        decreases rows.len() - index,
    {
        let ghost before = row_views(copy@);
        copy.push(rows[index].clone());
        assert(row_views(copy@) =~= before.push(copy@.last()@));
        assert(row_views(copy@) =~= views.take(index + 1));
        index = index + 1;
    }
    assert(views.take(views.len() as int) =~= views);
    copy
}

/// Sink for a source dependency batch plan.
pub trait LightmountSourceDependencyInvalidationBatchPlanSink<Root> {
    /// The plans received so far.
    open spec fn batch_plans(&self) -> Seq<BatchPlanView<Root>> {
        Seq::empty()
    }

    /// Record source-local planned work with an optional empty-target boundary
    /// fallback.
    fn set_source_dependency_batch_work(
        &mut self,
        sources: Vec<LightmountPlannedSourceDependencyInvalidation<Root>>,
        boundary_fallback: Option<LightmountPlannedFallbackRootInvalidationTarget<Root>>,
    )
        ensures
            final(self).batch_plans() == old(self).batch_plans().push(
                work_view(sources@, boundary_fallback),
            ),
    ;

    /// Record the source row that requires fallback when boundary roots are
    /// unavailable.
    fn set_source_dependency_batch_requires_source_fallback(
        &mut self,
        source: LightmountPlannedSourceDependencyInvalidation<Root>,
    )
        ensures
            final(self).batch_plans() == old(self).batch_plans().push(
                BatchPlanView::RequiresSourceFallback { source: source@ },
            ),
    ;
}

impl<Root> LightmountSourceDependencyInvalidationBatchPlan<Root> {
    /// Create a source dependency batch plan with source-local work.
    pub fn work(
        sources: Vec<LightmountPlannedSourceDependencyInvalidation<Root>>,
        boundary_fallback: Option<LightmountPlannedFallbackRootInvalidationTarget<Root>>,
    ) -> (plan: Self)
        ensures
            plan@ == work_view(sources@, boundary_fallback),
    {
        Self {
            plan: LightmountSourceDependencyInvalidationBatchPlanKind::Work {
                sources,
                boundary_fallback,
            },
        }
    }

    /// Create a source dependency batch plan that requires source fallback.
    pub fn requires_source_fallback(
        source: LightmountPlannedSourceDependencyInvalidation<Root>,
    ) -> (plan: Self)
        ensures
            plan@ == (BatchPlanView::RequiresSourceFallback { source: source@ }),
    {
        Self {
            plan: LightmountSourceDependencyInvalidationBatchPlanKind::RequiresSourceFallback {
                source,
            },
        }
    }

    /// Drain this batch plan into a runtime-owned pending target sink.
    pub fn drain_into<Sink: LightmountSourceDependencyInvalidationBatchPlanSink<Root>>(
        self,
        target: &mut Sink,
    )
        ensures
            final(target).batch_plans() == old(target).batch_plans().push(self@),
    {
        match self.plan {
            LightmountSourceDependencyInvalidationBatchPlanKind::Work {
                sources,
                boundary_fallback,
            } => target.set_source_dependency_batch_work(sources, boundary_fallback),
            LightmountSourceDependencyInvalidationBatchPlanKind::RequiresSourceFallback {
                source,
            } => target.set_source_dependency_batch_requires_source_fallback(source),
        }
    }
}

proof fn lemma_decide_sources_uses_own_replies<'a, Root: Copy>(
    sources: Seq<LightmountSourceDependencyInvalidationBatchSource<'a, Root>>,
    requests: Seq<LightmountSourceDependencyInvalidationRequest<'a, Root>>,
    cleanup_roots: Seq<Root>,
    replies: Seq<ContextReply<Root>>,
    more: Seq<ContextReply<Root>>,
)
    requires
        replies.len() >= decide_sources(sources, requests, cleanup_roots, replies).questions.len(),
    ensures
        decide_sources(sources, requests, cleanup_roots, replies) == decide_sources(
            sources,
            requests,
            cleanup_roots,
            replies + more,
        ),
    decreases sources.len(),
{
    if sources.len() > 0 {
        let before = decide_sources(sources.drop_last(), requests, cleanup_roots, replies);
        let asked = before.questions.len() as int;
        assert(replies.len() >= asked);
        lemma_decide_sources_uses_own_replies(
            sources.drop_last(),
            requests,
            cleanup_roots,
            replies,
            more,
        );
        if before.stopped is None {
            super::planner::lemma_decide_all_uses_own_replies(
                sources.last().dependency_summary@,
                sources.last().fallback_roots.selected(),
                requests,
                replies.skip(asked),
                more,
            );
            assert((replies + more).skip(asked) =~= replies.skip(asked) + more);
        }
    }
}

/// Return the single reason of an inexact empty result.
fn inexact_empty_result() -> (reasons: OrderedSet<LightmountSourceInvalidationFallbackReason>)
    ensures
        reasons@ == seq![LightmountSourceInvalidationFallbackReason::InexactEmptyResult],
{
    let mut reasons = OrderedSet::new();
    reasons.insert(LightmountSourceInvalidationFallbackReason::InexactEmptyResult);
    assert(reasons@ =~= seq![LightmountSourceInvalidationFallbackReason::InexactEmptyResult]);
    reasons
}

/// Build source-local invalidation plans for all stylesheet sources that can be
/// affected by a mutation.
///
/// The embedder owns source scopes and DOM traversal; this planner owns source
/// dependency interpretation, target normalization, empty-target fallback, and
/// structural-boundary cleanup selection.
pub fn lightmount_source_dependency_invalidation_batch_plan<
    'a,
    Root: Keyed,
    Provider: LightmountSourceDependencyInvalidationContextRootsProvider<Root>,
>(
    sources: &[LightmountSourceDependencyInvalidationBatchSource<'a, Root>],
    requests: &[LightmountSourceDependencyInvalidationRequest<'a, Root>],
    boundary_roots: LightmountSourceDependencyBoundaryRoots<'a, Root>,
    context_roots_provider: &mut Provider,
) -> (plan: LightmountSourceDependencyInvalidationBatchPlan<Root>)
    ensures
        ({
            let given = final(context_roots_provider).replies().skip(
                old(context_roots_provider).replies().len() as int,
            );
            let decided = decide_sources(
                sources@,
                requests@,
                boundary_roots.relative_previous_sibling_cleanup_roots@,
                given,
            );
            &&& plan@ == decided.plan(boundary_roots.empty_target_fallback_roots@)
            &&& final(context_roots_provider).questions() == old(
                context_roots_provider,
            ).questions() + decided.questions
            &&& final(context_roots_provider).replies() == old(context_roots_provider).replies()
                + given
            &&& given.len() == decided.questions.len()
        }),
{
    let ghost cleanup_roots = boundary_roots.relative_previous_sibling_cleanup_roots@;
    let ghost questions = context_roots_provider.questions();
    let ghost replies = context_roots_provider.replies();
    let ghost mut given: Seq<ContextReply<Root>> = Seq::empty();
    let ghost mut progress: BatchProgress<Root> = BatchProgress::none();
    let mut planned_sources: Vec<LightmountPlannedSourceDependencyInvalidation<Root>> = Vec::new();
    let mut empty_target_fallback_source: Option<(usize, Vec<Root>)> = None;
    let mut source_index: usize = 0;
    proof {
        assert(sources@.take(0) =~= Seq::empty());
        assert(row_views(planned_sources@) =~= Seq::empty());
        assert(questions + progress.questions =~= questions);
        assert(replies + given =~= replies);
    }
    while source_index < sources.len()
        invariant
            source_index <= sources@.len(),
            questions == old(context_roots_provider).questions(),
            replies == old(context_roots_provider).replies(),
            cleanup_roots == boundary_roots.relative_previous_sibling_cleanup_roots@,
            progress == decide_sources(
                sources@.take(source_index as int),
                requests@,
                cleanup_roots,
                given,
            ),
            progress.stopped is None,
            row_views(planned_sources@) == progress.rows,
            progress.empty_target == match empty_target_fallback_source {
                Some((index, roots)) => Some((index as int, roots@)),
                None => None,
            },
            given.len() == progress.questions.len(),
            context_roots_provider.questions() == questions + progress.questions,
            context_roots_provider.replies() == replies + given,
        decreases sources.len() - source_index,
    {
        let source = &sources[source_index];
        let selected_fallback_roots = source.selected_fallback_roots();
        if source.dependency_summary().requires_empty_target_fallback_for_requests(requests) {
            let has_fallback_roots = selected_fallback_roots.len() > 0;
            let should_replace_empty_target_source = match &empty_target_fallback_source {
                None => true,
                Some((_, roots)) => roots.len() == 0 && has_fallback_roots,
            };
            if should_replace_empty_target_source {
                empty_target_fallback_source =
                Some((source_index, copy_slice(selected_fallback_roots)));
            }
        }
        let plan = lightmount_source_dependency_invalidation_plan(
            source.dependency_summary(),
            selected_fallback_roots,
            requests,
            context_roots_provider,
        );
        let ghost earlier = progress;
        proof {
            let new = context_roots_provider.replies().skip((replies + given).len() as int);
            let prior = sources@.take(source_index as int);
            let next = sources@.take(source_index + 1);
            assert(next.drop_last() =~= prior);
            assert(next.last() == sources@[source_index as int]);
            lemma_decide_sources_uses_own_replies(prior, requests@, cleanup_roots, given, new);
            assert((given + new).skip(given.len() as int) =~= new);
            progress = decide_sources(next, requests@, cleanup_roots, given + new);
            let decided = super::planner::decide_all(
                source.dependency_summary@,
                selected_fallback_roots@,
                requests@,
                new,
            );
            assert(questions + (earlier.questions + decided.questions) =~= (questions
                + earlier.questions) + decided.questions);
            assert(replies + (given + new) =~= (replies + given) + new);
            given = given + new;
        }
        match plan {
            LightmountSourceDependencyInvalidationSourcePlan::Work { target } => {
                if let Some(target) = target {
                    let structural_boundary_cleanup_roots =
                        source.dependency_summary().structural_boundary_cleanup_roots_for_requests(
                        requests,
                        boundary_roots.relative_previous_sibling_cleanup_roots,
                    );
                    let ghost before = planned_sources@;
                    planned_sources.push(
                        LightmountPlannedSourceDependencyInvalidation::from_target(
                            source_index,
                            target,
                            structural_boundary_cleanup_roots,
                        ),
                    );
                    assert(row_views(planned_sources@) =~= row_views(before).push(
                        planned_sources@.last()@,
                    ));
                }
            },
            LightmountSourceDependencyInvalidationSourcePlan::RequiresSourceFallback { target } => {
                let planned: LightmountPlannedSourceDependencyInvalidation<Root> =
                    LightmountPlannedSourceDependencyInvalidation::from_target(
                    source_index,
                    target,
                    Vec::new(),
                );
                proof {
                    lemma_stopped_stays(
                        sources@,
                        source_index + 1,
                        requests@,
                        cleanup_roots,
                        given,
                    );
                    assert((replies + given).skip(replies.len() as int) =~= given);
                }
                return LightmountSourceDependencyInvalidationBatchPlan::requires_source_fallback(
                    planned,
                );
            },
        }
        source_index = source_index + 1;
    }
    proof {
        assert(sources@.take(sources@.len() as int) =~= sources@);
        assert((replies + given).skip(replies.len() as int) =~= given);
    }
    let boundary_fallback = match empty_target_fallback_source {
        Some((source_index, selected_fallback_roots)) => {
            if boundary_roots.empty_target_fallback_roots.len() == 0 {
                return LightmountSourceDependencyInvalidationBatchPlan::requires_source_fallback(
                    LightmountPlannedSourceDependencyInvalidation::from_target(
                        source_index,
                        LightmountPlannedSourceDependencyInvalidationTarget::source_dependency_fallback(
                            selected_fallback_roots,
                            inexact_empty_result(),
                        ),
                        Vec::new(),
                    ),
                );
            }
            Some(
                LightmountPlannedFallbackRootInvalidationTarget::fallback_only(
                    copy_slice(boundary_roots.empty_target_fallback_roots),
                    inexact_empty_result(),
                ),
            )
        },
        None => None,
    };
    LightmountSourceDependencyInvalidationBatchPlan::work(planned_sources, boundary_fallback)
}

/// Once a source forces fallback, later sources change nothing.
pub proof fn lemma_stopped_stays<'a, Root: Copy>(
    sources: Seq<LightmountSourceDependencyInvalidationBatchSource<'a, Root>>,
    count: int,
    requests: Seq<LightmountSourceDependencyInvalidationRequest<'a, Root>>,
    cleanup_roots: Seq<Root>,
    replies: Seq<ContextReply<Root>>,
)
    requires
        0 <= count <= sources.len(),
        decide_sources(sources.take(count), requests, cleanup_roots, replies).stopped is Some,
    ensures
        decide_sources(sources, requests, cleanup_roots, replies) == decide_sources(
            sources.take(count),
            requests,
            cleanup_roots,
            replies,
        ),
    decreases sources.len() - count,
{
    if count == sources.len() {
        assert(sources.take(count) =~= sources);
    } else {
        assert(sources.take(count + 1).drop_last() =~= sources.take(count));
        lemma_stopped_stays(sources, count + 1, requests, cleanup_roots, replies);
    }
}

} // verus!
