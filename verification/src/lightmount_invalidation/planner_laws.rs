//! Laws of invalidation planning.

use vstd::prelude::*;

use super::batch_planner::{BatchPlanView, BatchProgress};
use super::planner::{ContextReply, SourcePlanView, SourceProgress};
use super::request::LightmountSourceDependencyInvalidationRequest;
use super::source_summary::{
    LightmountSourceDependencyInvalidationBatchSource, SourceSummaryView,
};

verus! {

/// Whether the parts of a progress fit together: no list repeats an item, and
/// there is a fallback kind exactly where there are fallback roots, and exactly
/// where there are reasons for them.
pub open spec fn progress_is_consistent<Root>(progress: SourceProgress<Root>) -> bool {
    &&& progress.well_formed()
    &&& progress.reasoned_fallback_roots.no_duplicates()
    &&& progress.exact_safety_fallback_roots.no_duplicates()
    &&& progress.fallback_reasons.no_duplicates()
    &&& progress.missing_fallback_root_reasons.no_duplicates()
    &&& progress.fallback_kind is Some <==> progress.reasoned_fallback_roots.len() > 0
    &&& progress.fallback_kind is Some <==> progress.fallback_reasons.len() > 0
}

proof fn lemma_extend_unique_grows<T>(items: Seq<T>, more: Seq<T>)
    ensures
        super::ordered_set::extend_unique(items, more).len() >= items.len(),
        more.len() > 0 ==> super::ordered_set::extend_unique(items, more).len() > 0,
    decreases more.len(),
{
    if more.len() > 0 {
        lemma_extend_unique_grows(items, more.drop_last());
        let before = super::ordered_set::extend_unique(items, more.drop_last());
        if before.contains(more.last()) {
            assert(before.len() > 0);
        }
    }
}

proof fn lemma_source_reasons_not_empty(answer: super::dependency_query::DependencyAnswer)
    ensures
        answer.source_reasons().len() > 0,
{
    lemma_extend_unique_grows(
        Seq::<super::reasons::LightmountSourceInvalidationFallbackReason>::empty(),
        answer.reasons_or_shape().map_values(
            |reason: super::reasons::LightmountDependencyFallbackReason| reason.source_reason(),
        ),
    );
}

proof fn lemma_with_context_roots<Root>(
    progress: SourceProgress<Root>,
    reasons: Seq<super::reasons::LightmountSourceInvalidationFallbackReason>,
    roots: Seq<Root>,
)
    requires
        progress_is_consistent(progress),
        reasons.len() > 0,
        roots.len() > 0,
    ensures
        progress_is_consistent(progress.with_context_roots(reasons, roots)),
        progress.with_context_roots(reasons, roots).reasoned_fallback_roots.len() > 0,
{
    lemma_extend_unique_grows(progress.reasoned_fallback_roots, roots);
    lemma_extend_unique_grows(progress.fallback_reasons, reasons);
    super::ordered_set::lemma_extend_unique_no_duplicates(progress.reasoned_fallback_roots, roots);
    super::ordered_set::lemma_extend_unique_no_duplicates(progress.fallback_reasons, reasons);
}

proof fn lemma_with_source_roots<Root>(
    progress: SourceProgress<Root>,
    reasons: Seq<super::reasons::LightmountSourceInvalidationFallbackReason>,
    selected: Seq<Root>,
)
    requires
        progress_is_consistent(progress),
        reasons.len() > 0,
    ensures
        progress_is_consistent(progress.with_source_roots(reasons, selected)),
        selected.len() > 0 ==> progress.with_source_roots(
            reasons,
            selected,
        ).reasoned_fallback_roots.len() > 0,
        selected.len() == 0 ==> progress.with_source_roots(
            reasons,
            selected,
        ).missing_fallback_root_reasons.len() > 0,
{
    lemma_extend_unique_grows(progress.reasoned_fallback_roots, selected);
    lemma_extend_unique_grows(progress.fallback_reasons, reasons);
    lemma_extend_unique_grows(progress.missing_fallback_root_reasons, reasons);
    super::ordered_set::lemma_extend_unique_no_duplicates(
        progress.reasoned_fallback_roots,
        selected,
    );
    super::ordered_set::lemma_extend_unique_no_duplicates(progress.fallback_reasons, reasons);
    super::ordered_set::lemma_extend_unique_no_duplicates(
        progress.missing_fallback_root_reasons,
        reasons,
    );
}

/// Whether something was decided.
pub open spec fn has_decision<Root>(progress: SourceProgress<Root>) -> bool {
    ||| progress.exact_queries.len() > 0
    ||| progress.reasoned_fallback_roots.len() > 0
    ||| progress.missing_fallback_root_reasons.len() > 0
}

proof fn lemma_decide_exact<'a, Root: Copy>(
    progress: SourceProgress<Root>,
    summary: SourceSummaryView,
    selected: Seq<Root>,
    request: LightmountSourceDependencyInvalidationRequest<'a, Root>,
    reply: ContextReply<Root>,
)
    requires
        progress_is_consistent(progress),
    ensures
        ({
            let decided = super::planner::decide_exact(progress, summary, selected, request, reply);
            progress_is_consistent(decided) && has_decision(decided)
        }),
{
    let answer = summary.answer_to(request);
    let asked = progress.asking(super::planner::question_of(summary, request));
    let inexact = seq![
        super::reasons::LightmountSourceInvalidationFallbackReason::InexactEmptyResult,
    ];
    lemma_source_reasons_not_empty(answer);
    super::ordered_set::lemma_extend_unique_no_duplicates(
        progress.exact_safety_fallback_roots,
        selected,
    );
    super::ordered_set::lemma_extend_unique_no_duplicates(
        progress.exact_safety_fallback_roots,
        reply.roots,
    );
    super::ordered_set::lemma_extend_unique_no_duplicates(
        progress.missing_fallback_root_reasons,
        inexact,
    );
    lemma_extend_unique_grows(progress.missing_fallback_root_reasons, inexact);
    if request.context is Some {
        if reply.roots.len() > 0 {
            lemma_with_context_roots(asked, answer.source_reasons(), reply.roots);
            lemma_with_context_roots(asked, inexact, reply.roots);
        }
        lemma_with_source_roots(asked, answer.source_reasons(), selected);
    }
}

/// Deciding on a request keeps the parts of the progress consistent, decides
/// something where the request concerns the source, and changes nothing where
/// it does not.
pub proof fn lemma_decide_decides<'a, Root: Copy>(
    progress: SourceProgress<Root>,
    summary: SourceSummaryView,
    selected: Seq<Root>,
    request: LightmountSourceDependencyInvalidationRequest<'a, Root>,
    replies: Seq<ContextReply<Root>>,
)
    requires
        progress_is_consistent(progress),
    ensures
        ({
            let decided = super::planner::decide(progress, summary, selected, request, replies);
            &&& progress_is_consistent(decided)
            &&& super::planner::request_is_skipped(summary, request) ==> decided == progress
            &&& !super::planner::request_is_skipped(summary, request) ==> has_decision(decided)
        }),
{
    let answer = summary.answer_to(request);
    let asked = progress.asking(super::planner::question_of(summary, request));
    let nth_of = seq![super::reasons::LightmountSourceInvalidationFallbackReason::NthOfDependency];
    lemma_source_reasons_not_empty(answer);
    if !super::planner::request_is_skipped(summary, request) {
        if answer.reasons.len() > 0 {
            if replies[0].roots.len() > 0 {
                lemma_with_context_roots(asked, answer.source_reasons(), replies[0].roots);
            }
            lemma_with_source_roots(asked, answer.source_reasons(), selected);
            lemma_with_source_roots(progress, answer.source_reasons(), selected);
        } else {
            if replies[0].roots.len() > 0 {
                lemma_with_context_roots(asked, nth_of, replies[0].roots);
            }
            lemma_decide_exact(asked, summary, selected, request, replies[1]);
            lemma_decide_exact(progress, summary, selected, request, replies[0]);
        }
    }
}

proof fn lemma_decision_stays<'a, Root: Copy>(
    progress: SourceProgress<Root>,
    summary: SourceSummaryView,
    selected: Seq<Root>,
    request: LightmountSourceDependencyInvalidationRequest<'a, Root>,
    replies: Seq<ContextReply<Root>>,
)
    requires
        progress_is_consistent(progress),
        has_decision(progress),
    ensures
        has_decision(super::planner::decide(progress, summary, selected, request, replies)),
{
    lemma_decide_decides(progress, summary, selected, request, replies);
}

/// Whether no request of a list concerns a source.
pub open spec fn all_skipped<'a, Root>(
    summary: SourceSummaryView,
    requests: Seq<LightmountSourceDependencyInvalidationRequest<'a, Root>>,
) -> bool {
    forall|i: int|
        0 <= i < requests.len() ==> super::planner::request_is_skipped(
            summary,
            #[trigger] requests[i],
        )
}

/// The decisions for a source are consistent; there are none, and nothing is
/// asked, exactly where no request concerns the source.
pub proof fn lemma_decisions_are_consistent<'a, Root: Copy>(
    summary: SourceSummaryView,
    selected: Seq<Root>,
    requests: Seq<LightmountSourceDependencyInvalidationRequest<'a, Root>>,
    replies: Seq<ContextReply<Root>>,
)
    ensures
        ({
            let decided = super::planner::decide_all(summary, selected, requests, replies);
            &&& progress_is_consistent(decided)
            &&& has_decision(decided) <==> !all_skipped(summary, requests)
            &&& all_skipped(summary, requests) ==> decided == SourceProgress::<Root>::none()
        }),
    decreases requests.len(),
{
    if requests.len() > 0 {
        let rest = requests.drop_last();
        let last = requests.last();
        lemma_decisions_are_consistent(summary, selected, rest, replies);
        let before = super::planner::decide_all(summary, selected, rest, replies);
        let own = replies.skip(before.questions.len() as int);
        lemma_decide_decides(before, summary, selected, last, own);
        if has_decision(before) {
            lemma_decision_stays(before, summary, selected, last, own);
        }
        if all_skipped(summary, requests) {
            assert forall|i: int| 0 <= i < rest.len() implies super::planner::request_is_skipped(
                summary,
                #[trigger] rest[i],
            ) by {
                assert(rest[i] == requests[i]);
            }
            assert(super::planner::request_is_skipped(
                summary,
                requests[requests.len() - 1],
            ));
        } else if all_skipped(summary, rest) {
            let i = choose|i: int|
                0 <= i < requests.len() && !super::planner::request_is_skipped(
                    summary,
                    #[trigger] requests[i],
                );
            if i < rest.len() {
                assert(rest[i] == requests[i]);
            }
        }
    }
}

/// A source that a request concerns is never dropped from a plan without work,
/// and every planned target can be carried out.
pub proof fn lemma_affected_source_is_planned<'a, Root: Copy>(
    summary: SourceSummaryView,
    selected: Seq<Root>,
    requests: Seq<LightmountSourceDependencyInvalidationRequest<'a, Root>>,
    replies: Seq<ContextReply<Root>>,
)
    ensures
        ({
            let plan = super::planner::decide_all(summary, selected, requests, replies).plan(
                selected,
            );
            &&& plan == (SourcePlanView::<Root>::Work { target: None }) <==> all_skipped(
                summary,
                requests,
            )
            &&& plan matches SourcePlanView::Work { target: Some(target) } ==> target.well_formed()
            &&& plan matches SourcePlanView::RequiresSourceFallback { target }
                ==> target.well_formed() && target is Fallback
        }),
{
    lemma_decisions_are_consistent(summary, selected, requests, replies);
    let decided = super::planner::decide_all(summary, selected, requests, replies);
    if decided.exact_safety_fallback_roots.len() > 0 && decided.exact_queries.len() == 0
        && decided.reasoned_fallback_roots.len() == 0 {
        lemma_safety_roots_come_with_queries(summary, selected, requests, replies);
    }
}

/// Exact-safety roots are only planned beside the queries that they are for.
pub proof fn lemma_safety_roots_come_with_queries<'a, Root: Copy>(
    summary: SourceSummaryView,
    selected: Seq<Root>,
    requests: Seq<LightmountSourceDependencyInvalidationRequest<'a, Root>>,
    replies: Seq<ContextReply<Root>>,
)
    ensures
        ({
            let decided = super::planner::decide_all(summary, selected, requests, replies);
            decided.exact_safety_fallback_roots.len() > 0 ==> decided.exact_queries.len() > 0
        }),
    decreases requests.len(),
{
    if requests.len() > 0 {
        lemma_safety_roots_come_with_queries(summary, selected, requests.drop_last(), replies);
    }
}

/// Whether the rows stand in the order of their sources, at most one for each.
pub open spec fn rows_are_ordered<Root>(progress: BatchProgress<Root>, source_count: int) -> bool {
    &&& forall|i: int, j: int|
        0 <= i < j < progress.rows.len() ==> (#[trigger] progress.rows[i]).source_index < (
        #[trigger] progress.rows[j]).source_index
    &&& forall|i: int|
        0 <= i < progress.rows.len() ==> 0 <= (#[trigger] progress.rows[i]).source_index
            < source_count
    &&& progress.stopped matches Some(row) ==> 0 <= row.source_index < source_count
    &&& progress.empty_target matches Some((index, _)) ==> 0 <= index < source_count
}

/// The rows of a batch plan stand in the order of the sources, with at most one
/// row for each source.
pub proof fn lemma_rows_are_ordered<'a, Root: Copy>(
    sources: Seq<LightmountSourceDependencyInvalidationBatchSource<'a, Root>>,
    requests: Seq<LightmountSourceDependencyInvalidationRequest<'a, Root>>,
    cleanup_roots: Seq<Root>,
    replies: Seq<ContextReply<Root>>,
)
    ensures
        rows_are_ordered(
            super::batch_planner::decide_sources(sources, requests, cleanup_roots, replies),
            sources.len() as int,
        ),
    decreases sources.len(),
{
    if sources.len() > 0 {
        let rest = sources.drop_last();
        lemma_rows_are_ordered(rest, requests, cleanup_roots, replies);
        let before = super::batch_planner::decide_sources(rest, requests, cleanup_roots, replies);
        let after = super::batch_planner::decide_sources(
            sources,
            requests,
            cleanup_roots,
            replies,
        );
        assert forall|i: int, j: int| 0 <= i < j < after.rows.len() implies (#[trigger]
        after.rows[i]).source_index < (#[trigger] after.rows[j]).source_index by {
            assert(after.rows[i] == before.rows[i]);
            if j < before.rows.len() {
                assert(after.rows[j] == before.rows[j]);
            }
        }
        assert forall|i: int| 0 <= i < after.rows.len() implies 0 <= (#[trigger]
        after.rows[i]).source_index < sources.len() by {
            if i < before.rows.len() {
                assert(after.rows[i] == before.rows[i]);
            }
        }
    }
}

/// Whether there is a row for a source.
pub open spec fn has_row_for<Root>(progress: BatchProgress<Root>, source_index: int) -> bool {
    exists|i: int|
        0 <= i < progress.rows.len() && (#[trigger] progress.rows[i]).source_index == source_index
}

/// Unless a source forces fallback of the batch, the sources with a row are
/// exactly those that a request concerns. A source that forces fallback is
/// concerned too. The targets of all rows can be carried out.
pub proof fn lemma_affected_sources_have_rows<'a, Root: Copy>(
    sources: Seq<LightmountSourceDependencyInvalidationBatchSource<'a, Root>>,
    requests: Seq<LightmountSourceDependencyInvalidationRequest<'a, Root>>,
    cleanup_roots: Seq<Root>,
    replies: Seq<ContextReply<Root>>,
)
    ensures
        ({
            let decided = super::batch_planner::decide_sources(
                sources,
                requests,
                cleanup_roots,
                replies,
            );
            &&& decided.stopped is None ==> forall|i: int|
                0 <= i < sources.len() ==> (#[trigger] has_row_for(decided, i) <==> !all_skipped(
                    sources[i].dependency_summary@,
                    requests,
                ))
            &&& decided.stopped matches Some(row) ==> 0 <= row.source_index < sources.len()
                && !all_skipped(sources[row.source_index].dependency_summary@, requests)
                && row.target.well_formed() && row.target is Fallback
            &&& forall|i: int|
                0 <= i < decided.rows.len() ==> (#[trigger] decided.rows[i]).target.well_formed()
        }),
    decreases sources.len(),
{
    if sources.len() > 0 {
        let rest = sources.drop_last();
        let last = sources.last();
        let count = rest.len() as int;
        let before = super::batch_planner::decide_sources(rest, requests, cleanup_roots, replies);
        let after = super::batch_planner::decide_sources(
            sources,
            requests,
            cleanup_roots,
            replies,
        );
        lemma_affected_sources_have_rows(rest, requests, cleanup_roots, replies);
        lemma_rows_are_ordered(rest, requests, cleanup_roots, replies);
        lemma_affected_source_is_planned(
            last.dependency_summary@,
            last.fallback_roots.selected(),
            requests,
            replies.skip(before.questions.len() as int),
        );
        assert forall|i: int| 0 <= i < after.rows.len() implies (#[trigger]
        after.rows[i]).target.well_formed() by {
            if i < before.rows.len() {
                assert(after.rows[i] == before.rows[i]);
            }
        }
        if after.stopped is None {
            assert forall|i: int| 0 <= i < sources.len() implies (#[trigger] has_row_for(after, i)
                <==> !all_skipped(sources[i].dependency_summary@, requests)) by {
                if i < count {
                    assert(rest[i] == sources[i]);
                    assert(has_row_for(before, i) <==> !all_skipped(
                        rest[i].dependency_summary@,
                        requests,
                    ));
                    if has_row_for(before, i) {
                        let j = choose|j: int|
                            0 <= j < before.rows.len() && (#[trigger] before.rows[j]).source_index
                                == i;
                        assert(after.rows[j].source_index == i);
                    }
                }
                if has_row_for(after, i) {
                    let j = choose|j: int|
                        0 <= j < after.rows.len() && (#[trigger] after.rows[j]).source_index == i;
                    if j < before.rows.len() {
                        assert(after.rows[j] == before.rows[j]);
                    }
                }
                if i == count && !all_skipped(last.dependency_summary@, requests) {
                    assert(after.rows[before.rows.len() as int].source_index == count);
                }
            }
        } else if before.stopped is Some {
            assert(rest[before.stopped->0.source_index]
                == sources[before.stopped->0.source_index]);
        }
    }
}

/// Whether some source needs an empty-target fallback.
pub open spec fn any_needs_empty_target_fallback<'a, Root>(
    sources: Seq<LightmountSourceDependencyInvalidationBatchSource<'a, Root>>,
    requests: Seq<LightmountSourceDependencyInvalidationRequest<'a, Root>>,
) -> bool {
    exists|i: int|
        0 <= i < sources.len() && (
        #[trigger] sources[i]).dependency_summary@.needs_empty_target_fallback(requests)
}

proof fn lemma_empty_target_is_needed<'a, Root: Copy>(
    sources: Seq<LightmountSourceDependencyInvalidationBatchSource<'a, Root>>,
    requests: Seq<LightmountSourceDependencyInvalidationRequest<'a, Root>>,
    cleanup_roots: Seq<Root>,
    replies: Seq<ContextReply<Root>>,
)
    ensures
        ({
            let decided = super::batch_planner::decide_sources(
                sources,
                requests,
                cleanup_roots,
                replies,
            );
            decided.stopped is None ==> (decided.empty_target is Some
                <==> any_needs_empty_target_fallback(sources, requests))
        }),
    decreases sources.len(),
{
    if sources.len() > 0 {
        let rest = sources.drop_last();
        lemma_empty_target_is_needed(rest, requests, cleanup_roots, replies);
        if any_needs_empty_target_fallback(rest, requests) {
            let i = choose|i: int|
                0 <= i < rest.len() && (
                #[trigger] rest[i]).dependency_summary@.needs_empty_target_fallback(requests);
            assert(sources[i] == rest[i]);
        }
        if any_needs_empty_target_fallback(sources, requests) {
            let i = choose|i: int|
                0 <= i < sources.len() && (
                #[trigger] sources[i]).dependency_summary@.needs_empty_target_fallback(requests);
            if i < rest.len() {
                assert(rest[i] == sources[i]);
            }
        }
        if sources.last().dependency_summary@.needs_empty_target_fallback(requests) {
            assert(sources[sources.len() - 1].dependency_summary@.needs_empty_target_fallback(
                requests,
            ));
        }
    }
}

/// A plan of work has a boundary fallback exactly where some source needs an
/// empty-target fallback, and its roots are those of the mutation boundary.
/// Without such roots there is no plan of work.
pub proof fn lemma_boundary_fallback_is_needed<'a, Root: Copy>(
    sources: Seq<LightmountSourceDependencyInvalidationBatchSource<'a, Root>>,
    requests: Seq<LightmountSourceDependencyInvalidationRequest<'a, Root>>,
    cleanup_roots: Seq<Root>,
    boundary_roots: Seq<Root>,
    replies: Seq<ContextReply<Root>>,
)
    ensures
        ({
            let plan = super::batch_planner::decide_sources(
                sources,
                requests,
                cleanup_roots,
                replies,
            ).plan(boundary_roots);
            let needed = any_needs_empty_target_fallback(sources, requests);
            &&& plan matches BatchPlanView::Work { boundary_fallback, .. } ==> {
                &&& boundary_fallback is Some <==> needed
                &&& boundary_fallback matches Some(target) ==> target.fallback_roots
                    == boundary_roots && boundary_roots.len() > 0
            }
            &&& needed && boundary_roots.len() == 0 ==> plan is RequiresSourceFallback
        }),
{
    lemma_empty_target_is_needed(sources, requests, cleanup_roots, replies);
}

/// A structural selector elsewhere in a source does not turn unrelated requests
/// into an empty-target fallback: without a boundary that matches, a
/// previous-sibling anchor or a slotted dependency, none is needed.
pub proof fn lemma_unrelated_structure_needs_no_fallback<'a, Root>(
    summary: SourceSummaryView,
    requests: Seq<LightmountSourceDependencyInvalidationRequest<'a, Root>>,
)
    requires
        forall|i: int|
            0 <= i < requests.len() ==> !summary.boundaries.matches(
                (#[trigger] requests[i]).query@.shape,
            ) && !summary.answer_to(requests[i]).affects_previous_sibling_anchors()
                && !summary.answer_to(requests[i]).affects_slotted(),
    ensures
        !summary.needs_empty_target_fallback(requests),
{
}

/// A batch that concerns no source and needs no empty-target fallback plans no
/// work and asks nothing.
pub proof fn lemma_unrelated_batch_plans_nothing<'a, Root: Copy>(
    sources: Seq<LightmountSourceDependencyInvalidationBatchSource<'a, Root>>,
    requests: Seq<LightmountSourceDependencyInvalidationRequest<'a, Root>>,
    cleanup_roots: Seq<Root>,
    boundary_roots: Seq<Root>,
    replies: Seq<ContextReply<Root>>,
)
    requires
        forall|i: int|
            0 <= i < sources.len() ==> all_skipped(
                (#[trigger] sources[i]).dependency_summary@,
                requests,
            ) && !sources[i].dependency_summary@.needs_empty_target_fallback(requests),
    ensures
        ({
            let decided = super::batch_planner::decide_sources(
                sources,
                requests,
                cleanup_roots,
                replies,
            );
            &&& decided == BatchProgress::<Root>::none()
            &&& decided.plan(boundary_roots) == (BatchPlanView::<Root>::Work {
                sources: Seq::empty(),
                boundary_fallback: None,
            })
        }),
    decreases sources.len(),
{
    if sources.len() > 0 {
        let rest = sources.drop_last();
        assert forall|i: int| 0 <= i < rest.len() implies all_skipped(
            (#[trigger] rest[i]).dependency_summary@,
            requests,
        ) && !rest[i].dependency_summary@.needs_empty_target_fallback(requests) by {
            assert(rest[i] == sources[i]);
        }
        lemma_unrelated_batch_plans_nothing(rest, requests, cleanup_roots, boundary_roots, replies);
        let last = sources[sources.len() - 1];
        let before = super::batch_planner::decide_sources(rest, requests, cleanup_roots, replies);
        lemma_decisions_are_consistent(
            last.dependency_summary@,
            last.fallback_roots.selected(),
            requests,
            replies.skip(before.questions.len() as int),
        );
        assert(before.questions + Seq::<super::planner::ContextQuestion<Root>>::empty()
            =~= before.questions);
    }
}

} // verus!
