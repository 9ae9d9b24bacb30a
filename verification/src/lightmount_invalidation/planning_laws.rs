//! Laws that tie plans to the requests and the replies that they answer.

use vstd::prelude::*;

use super::batch_planner::{BatchPlanView, BatchProgress};
use super::dependency_query::{
    LightmountDependencyFallbackRootPolicy, LightmountDependencyKind,
};
use super::planned::{PlannedCall, PlannedRowView, PlannedTargetView};
use super::planner::{ContextQuestion, ContextReply, SourcePlanView, SourceProgress};
use super::query::{QueryShape, RetainedQueryView};
use super::reasons::LightmountSourceInvalidationFallbackReason;
use super::request::LightmountSourceDependencyInvalidationRequest;
use super::retained_kind::LightmountRetainedSourceStyleInvalidationKind;
use super::source_summary::{
    LightmountSourceDependencyInvalidationBatchSource, SourceSummaryView,
};

verus! {

/// Whether a list was extended by the items of another: what it held stays in
/// front, it holds the items of both and no others, none twice unless it did
/// before, and new items in their order.
pub open spec fn extended_by<T>(before: Seq<T>, after: Seq<T>, items: Seq<T>) -> bool {
    &&& before.is_prefix_of(after)
    &&& forall|item: T| #[trigger]
        after.contains(item) <==> before.contains(item) || items.contains(item)
    &&& before.no_duplicates() ==> after.no_duplicates()
    &&& items.no_duplicates() && (forall|i: int|
        0 <= i < items.len() ==> !before.contains(#[trigger] items[i])) ==> after == before + items
}

proof fn lemma_extended_by<T>(before: Seq<T>, items: Seq<T>)
    ensures
        extended_by(before, super::ordered_set::extend_unique(before, items), items),
{
    super::ordered_set::lemma_extend_unique_prefix(before, items);
    let after = super::ordered_set::extend_unique(before, items);
    assert forall|item: T| #[trigger]
        after.contains(item) <==> before.contains(item) || items.contains(item) by {
        super::ordered_set::lemma_extend_unique_contains(before, items, item);
    }
    if before.no_duplicates() {
        super::ordered_set::lemma_extend_unique_no_duplicates(before, items);
    }
    if items.no_duplicates() && (forall|i: int|
        0 <= i < items.len() ==> !before.contains(#[trigger] items[i])) {
        super::ordered_set::lemma_extend_unique_disjoint(before, items);
    }
}

/// Whether a request concerns a source: something depends on its query, and the
/// dependencies that its gates ask for are there. A structural gate is also
/// passed by relative anchors.
pub open spec fn concerns<'a, Root>(
    summary: SourceSummaryView,
    request: LightmountSourceDependencyInvalidationRequest<'a, Root>,
) -> bool {
    let answer = summary.answer(request.query@.shape);
    &&& answer.unknown || answer.kinds.len() > 0 || answer.reasons.len() > 0
    &&& request.requirement.requires_child_list_structural_dependency ==> (summary.structural
        && summary.boundaries.matches(request.query@.shape)) || answer.affects_relative_anchors()
    &&& request.requirement.requires_relative_previous_sibling_dependency
        ==> answer.affects_previous_sibling_anchors()
}

/// Whether only roots, reasons and a kind of fallback were added to a progress.
pub open spec fn fell_back<Root>(
    before: SourceProgress<Root>,
    after: SourceProgress<Root>,
    kind: LightmountRetainedSourceStyleInvalidationKind,
    roots: Seq<Root>,
    reasons: Seq<LightmountSourceInvalidationFallbackReason>,
) -> bool {
    &&& after.exact_queries == before.exact_queries
    &&& after.exact_safety_fallback_roots == before.exact_safety_fallback_roots
    &&& after.missing_fallback_root_reasons == before.missing_fallback_root_reasons
    &&& extended_by(before.reasoned_fallback_roots, after.reasoned_fallback_roots, roots)
    &&& extended_by(before.fallback_reasons, after.fallback_reasons, reasons)
    &&& after.fallback_kind == if before.fallback_kind == Some(
        LightmountRetainedSourceStyleInvalidationKind::FallbackOnly,
    ) {
        before.fallback_kind
    } else {
        Some(kind)
    }
}

/// Whether only reasons for missing roots were added to a progress.
pub open spec fn missed_roots<Root>(
    before: SourceProgress<Root>,
    after: SourceProgress<Root>,
    reasons: Seq<LightmountSourceInvalidationFallbackReason>,
) -> bool {
    &&& after.exact_queries == before.exact_queries
    &&& after.exact_safety_fallback_roots == before.exact_safety_fallback_roots
    &&& after.reasoned_fallback_roots == before.reasoned_fallback_roots
    &&& after.fallback_reasons == before.fallback_reasons
    &&& after.fallback_kind == before.fallback_kind
    &&& extended_by(
        before.missing_fallback_root_reasons,
        after.missing_fallback_root_reasons,
        reasons,
    )
}

/// Whether the selected roots of the source were added with their reasons, or
/// the lack of them was noted.
pub open spec fn fell_back_to_source<Root>(
    before: SourceProgress<Root>,
    after: SourceProgress<Root>,
    selected: Seq<Root>,
    reasons: Seq<LightmountSourceInvalidationFallbackReason>,
) -> bool {
    if selected.len() > 0 {
        fell_back(
            before,
            after,
            LightmountRetainedSourceStyleInvalidationKind::FallbackOnly,
            selected,
            reasons,
        )
    } else {
        missed_roots(before, after, reasons)
    }
}

/// Whether a query was added at the end of those to run, with roots in case its
/// result is not exact, and nothing else changed.
pub open spec fn ran_query<Root>(
    before: SourceProgress<Root>,
    after: SourceProgress<Root>,
    query: RetainedQueryView<Root>,
    roots: Seq<Root>,
) -> bool {
    &&& after.exact_queries == before.exact_queries + seq![query]
    &&& extended_by(before.exact_safety_fallback_roots, after.exact_safety_fallback_roots, roots)
    &&& after.reasoned_fallback_roots == before.reasoned_fallback_roots
    &&& after.fallback_reasons == before.fallback_reasons
    &&& after.missing_fallback_root_reasons == before.missing_fallback_root_reasons
    &&& after.fallback_kind == before.fallback_kind
}

/// Whether a question is the one about the root of a request, for the root
/// categories of its answer, with the request's own context.
pub open spec fn asks_about<'a, Root: Copy>(
    question: ContextQuestion<Root>,
    summary: SourceSummaryView,
    request: LightmountSourceDependencyInvalidationRequest<'a, Root>,
) -> bool {
    let answer = summary.answer(request.query@.shape);
    &&& question.root == request.query@.root
    &&& request.context == Some(question.context)
    &&& question.plan.flags == answer.flags()
    &&& question.plan.allow_direct_previous_following_sibling_fallback <==> (
    request.query@.shape matches QueryShape::State(state) && state.bits
        & super::element_state::HEADING_LEVEL_BITS != 0)
}

proof fn lemma_fell_back_to_source<Root>(
    before: SourceProgress<Root>,
    selected: Seq<Root>,
    reasons: Seq<LightmountSourceInvalidationFallbackReason>,
)
    requires
        before.well_formed(),
    ensures
        fell_back_to_source(before, before.with_source_roots(reasons, selected), selected, reasons),
        before.with_source_roots(reasons, selected).questions == before.questions,
{
    lemma_extended_by(before.reasoned_fallback_roots, selected);
    lemma_extended_by(before.fallback_reasons, reasons);
    lemma_extended_by(before.missing_fallback_root_reasons, reasons);
}

proof fn lemma_fell_back_to_context<Root>(
    before: SourceProgress<Root>,
    roots: Seq<Root>,
    reasons: Seq<LightmountSourceInvalidationFallbackReason>,
)
    requires
        before.well_formed(),
    ensures
        fell_back(
            before,
            before.with_context_roots(reasons, roots),
            LightmountRetainedSourceStyleInvalidationKind::ContextFallback,
            roots,
            reasons,
        ),
        before.with_context_roots(reasons, roots).questions == before.questions,
{
    lemma_extended_by(before.reasoned_fallback_roots, roots);
    lemma_extended_by(before.fallback_reasons, reasons);
}

/// A request that does not concern a source changes nothing of its plan and
/// asks nothing.
pub proof fn lemma_unconcerned_request_changes_nothing<'a, Root: Copy>(
    before: SourceProgress<Root>,
    summary: SourceSummaryView,
    selected: Seq<Root>,
    request: LightmountSourceDependencyInvalidationRequest<'a, Root>,
    replies: Seq<ContextReply<Root>>,
)
    ensures
        !concerns(summary, request) ==> super::planner::decide(
            before,
            summary,
            selected,
            request,
            replies,
        ) == before,
{
}

/// A request without mutation context is decided by its answer alone, and asks
/// nothing: an answer that gives reasons falls back to the selected roots of the
/// source, and any other has its query run with those roots to fall back to.
pub proof fn lemma_request_without_context_is_decided<'a, Root: Copy>(
    before: SourceProgress<Root>,
    summary: SourceSummaryView,
    selected: Seq<Root>,
    request: LightmountSourceDependencyInvalidationRequest<'a, Root>,
    replies: Seq<ContextReply<Root>>,
)
    requires
        before.well_formed(),
        request.context is None,
        concerns(summary, request),
    ensures
        ({
            let answer = summary.answer(request.query@.shape);
            let after = super::planner::decide(before, summary, selected, request, replies);
            &&& answer.reasons.len() == 0 ==> ran_query(before, after, request.query@, selected)
            &&& answer.reasons.len() > 0 ==> fell_back_to_source(
                before,
                after,
                selected,
                answer.source_reasons(),
            )
            &&& after.questions == before.questions
        }),
{
    let answer = summary.answer(request.query@.shape);
    lemma_fell_back_to_source(before, selected, answer.source_reasons());
    lemma_extended_by(before.exact_safety_fallback_roots, selected);
    assert(before.exact_queries.push(request.query@) =~= before.exact_queries + seq![
        request.query@,
    ]);
}

/// Whether a progress is as another after one more question about a request.
pub open spec fn asked_once<'a, Root: Copy>(
    before: SourceProgress<Root>,
    after: SourceProgress<Root>,
    summary: SourceSummaryView,
    request: LightmountSourceDependencyInvalidationRequest<'a, Root>,
) -> bool {
    &&& after.questions.len() == before.questions.len() + 1
    &&& before.questions.is_prefix_of(after.questions)
    &&& asks_about(after.questions.last(), summary, request)
}

/// A request with mutation context whose answer gives reasons falls back. Where
/// context roots cover the reasons, they are asked for and used; without any,
/// and for all other reasons, the selected roots of the source are used.
pub proof fn lemma_reasoned_request_falls_back<'a, Root: Copy>(
    before: SourceProgress<Root>,
    summary: SourceSummaryView,
    selected: Seq<Root>,
    request: LightmountSourceDependencyInvalidationRequest<'a, Root>,
    replies: Seq<ContextReply<Root>>,
)
    requires
        before.well_formed(),
        request.context is Some,
        concerns(summary, request),
        summary.answer(request.query@.shape).reasons.len() > 0,
    ensures
        ({
            let answer = summary.answer(request.query@.shape);
            let reasons = answer.source_reasons();
            let after = super::planner::decide(before, summary, selected, request, replies);
            let covered = answer.policy() == LightmountDependencyFallbackRootPolicy::ContextRoots;
            &&& covered ==> asked_once(before, after, summary, request)
            &&& !covered ==> after.questions == before.questions
            &&& covered && replies[0].roots.len() > 0 ==> fell_back(
                before,
                after,
                LightmountRetainedSourceStyleInvalidationKind::ContextFallback,
                replies[0].roots,
                reasons,
            )
            &&& !covered || replies[0].roots.len() == 0 ==> fell_back_to_source(
                before,
                after,
                selected,
                reasons,
            )
        }),
{
    let reasons = summary.answer(request.query@.shape).source_reasons();
    let asked = before.asking(super::planner::question_of(summary, request));
    lemma_fell_back_to_source(before, selected, reasons);
    lemma_fell_back_to_source(asked, selected, reasons);
    lemma_fell_back_to_context(asked, replies[0].roots, reasons);
}

/// How a request with mutation context and an answer without reasons is decided
/// by one reply: roots that are insufficient fall back, those of a structural
/// request on all elements with relative anchors are cleaned up, and otherwise
/// the query is run with the roots to fall back to.
pub open spec fn decided_by_reply<'a, Root: Copy>(
    before: SourceProgress<Root>,
    after: SourceProgress<Root>,
    summary: SourceSummaryView,
    selected: Seq<Root>,
    request: LightmountSourceDependencyInvalidationRequest<'a, Root>,
    reply: ContextReply<Root>,
) -> bool {
    let answer = summary.answer(request.query@.shape);
    let inexact = seq![LightmountSourceInvalidationFallbackReason::InexactEmptyResult];
    let cleans_up = request.requirement.requires_child_list_structural_dependency
        && request.query@.shape is Universal && answer.affects_relative_anchors();
    &&& reply.requires_source_fallback && answer.is_direct_previous_sibling_only()
        && reply.roots.len() > 0 ==> fell_back(
        before,
        after,
        LightmountRetainedSourceStyleInvalidationKind::ContextFallback,
        reply.roots,
        answer.source_reasons(),
    )
    &&& reply.requires_source_fallback && !(answer.is_direct_previous_sibling_only()
        && reply.roots.len() > 0) ==> fell_back_to_source(
        before,
        after,
        selected,
        answer.source_reasons(),
    )
    &&& !reply.requires_source_fallback && cleans_up && reply.roots.len() > 0 ==> fell_back(
        before,
        after,
        LightmountRetainedSourceStyleInvalidationKind::ContextFallback,
        reply.roots,
        inexact,
    )
    &&& !reply.requires_source_fallback && cleans_up && reply.roots.len() == 0 ==> missed_roots(
        before,
        after,
        inexact,
    )
    &&& !reply.requires_source_fallback && !cleans_up ==> ran_query(
        before,
        after,
        request.query@,
        reply.roots,
    )
}

proof fn lemma_decided_by_reply<'a, Root: Copy>(
    before: SourceProgress<Root>,
    summary: SourceSummaryView,
    selected: Seq<Root>,
    request: LightmountSourceDependencyInvalidationRequest<'a, Root>,
    reply: ContextReply<Root>,
)
    requires
        before.well_formed(),
        request.context is Some,
    ensures
        ({
            let after = super::planner::decide_exact(before, summary, selected, request, reply);
            &&& decided_by_reply(before, after, summary, selected, request, reply)
            &&& asked_once(before, after, summary, request)
        }),
{
    let reasons = summary.answer(request.query@.shape).source_reasons();
    let inexact = seq![LightmountSourceInvalidationFallbackReason::InexactEmptyResult];
    let asked = before.asking(super::planner::question_of(summary, request));
    lemma_fell_back_to_source(asked, selected, reasons);
    lemma_fell_back_to_context(asked, reply.roots, reasons);
    lemma_fell_back_to_context(asked, reply.roots, inexact);
    lemma_extended_by(asked.missing_fallback_root_reasons, inexact);
    lemma_extended_by(asked.exact_safety_fallback_roots, reply.roots);
    assert(before.exact_queries.push(request.query@) =~= before.exact_queries + seq![
        request.query@,
    ]);
}

/// Whether a request may stand for `:nth-child(... of ...)` of a custom state:
/// the source has structural dependencies, and siblings are affected.
pub open spec fn may_be_nth_of<'a, Root>(
    summary: SourceSummaryView,
    request: LightmountSourceDependencyInvalidationRequest<'a, Root>,
) -> bool {
    request.query@.shape is CustomState && summary.structural && summary.answer(
        request.query@.shape,
    ).affects_siblings()
}

/// A request with mutation context whose answer gives no reasons is decided by
/// what the context-roots provider replies. A custom state that may stand for
/// `:nth-child(... of ...)` uses the roots of a first reply for that reason, and
/// is decided by a second one where the first has none.
pub proof fn lemma_request_with_context_is_decided<'a, Root: Copy>(
    before: SourceProgress<Root>,
    summary: SourceSummaryView,
    selected: Seq<Root>,
    request: LightmountSourceDependencyInvalidationRequest<'a, Root>,
    replies: Seq<ContextReply<Root>>,
)
    requires
        before.well_formed(),
        request.context is Some,
        concerns(summary, request),
        summary.answer(request.query@.shape).reasons.len() == 0,
    ensures
        ({
            let after = super::planner::decide(before, summary, selected, request, replies);
            let nth_of = seq![LightmountSourceInvalidationFallbackReason::NthOfDependency];
            &&& !may_be_nth_of(summary, request) ==> decided_by_reply(
                before,
                after,
                summary,
                selected,
                request,
                replies[0],
            ) && asked_once(before, after, summary, request)
            &&& may_be_nth_of(summary, request) && replies[0].roots.len() > 0 ==> fell_back(
                before,
                after,
                LightmountRetainedSourceStyleInvalidationKind::ContextFallback,
                replies[0].roots,
                nth_of,
            ) && asked_once(before, after, summary, request)
            &&& may_be_nth_of(summary, request) && replies[0].roots.len() == 0 ==> {
                &&& decided_by_reply(before, after, summary, selected, request, replies[1])
                &&& after.questions.len() == before.questions.len() + 2
                &&& before.questions.is_prefix_of(after.questions)
                &&& asks_about(after.questions[before.questions.len() as int], summary, request)
                &&& asks_about(after.questions.last(), summary, request)
            }
        }),
{
    let asked = before.asking(super::planner::question_of(summary, request));
    let nth_of = seq![LightmountSourceInvalidationFallbackReason::NthOfDependency];
    lemma_decided_by_reply(before, summary, selected, request, replies[0]);
    lemma_decided_by_reply(asked, summary, selected, request, replies[1]);
    lemma_fell_back_to_context(asked, replies[0].roots, nth_of);
}

/// Whether a plan accounts for a concerned request: its query is run, or its
/// reasons are among those of the fallback or of the missing roots. Structural
/// relative cleanup, and custom states that may stand for
/// `:nth-child(... of ...)`, have reasons of their own.
pub open spec fn accounted_for<'a, Root>(
    progress: SourceProgress<Root>,
    summary: SourceSummaryView,
    request: LightmountSourceDependencyInvalidationRequest<'a, Root>,
) -> bool {
    let own = summary.answer(request.query@.shape).source_reasons();
    let inexact = seq![LightmountSourceInvalidationFallbackReason::InexactEmptyResult];
    let nth_of = seq![LightmountSourceInvalidationFallbackReason::NthOfDependency];
    ||| progress.exact_queries.contains(request.query@)
    ||| holds_all(progress.fallback_reasons, own)
    ||| holds_all(progress.missing_fallback_root_reasons, own)
    ||| holds_all(progress.fallback_reasons, inexact) && request.query@.shape is Universal
    ||| holds_all(progress.missing_fallback_root_reasons, inexact)
        && request.query@.shape is Universal
    ||| holds_all(progress.fallback_reasons, nth_of) && request.query@.shape is CustomState
}

/// Whether a list holds all items of another.
pub open spec fn holds_all<T>(list: Seq<T>, items: Seq<T>) -> bool {
    forall|item: T| #[trigger] items.contains(item) ==> list.contains(item)
}

/// Whether a progress holds all that another held, each list in front.
pub open spec fn grew_from<Root>(
    before: SourceProgress<Root>,
    after: SourceProgress<Root>,
) -> bool {
    &&& before.exact_queries.is_prefix_of(after.exact_queries)
    &&& before.reasoned_fallback_roots.is_prefix_of(after.reasoned_fallback_roots)
    &&& before.exact_safety_fallback_roots.is_prefix_of(after.exact_safety_fallback_roots)
    &&& before.fallback_reasons.is_prefix_of(after.fallback_reasons)
    &&& before.missing_fallback_root_reasons.is_prefix_of(after.missing_fallback_root_reasons)
}

/// Deciding a request never takes back what was decided before: no query, root
/// or reason is lost, and at most one query is added, that of the request. A
/// request that concerns the source is accounted for.
pub proof fn lemma_decisions_only_grow<'a, Root: Copy>(
    before: SourceProgress<Root>,
    summary: SourceSummaryView,
    selected: Seq<Root>,
    request: LightmountSourceDependencyInvalidationRequest<'a, Root>,
    replies: Seq<ContextReply<Root>>,
)
    requires
        before.well_formed(),
    ensures
        ({
            let after = super::planner::decide(before, summary, selected, request, replies);
            &&& after.well_formed()
            &&& grew_from(before, after)
            &&& after.exact_queries == before.exact_queries || after.exact_queries
                == before.exact_queries + seq![request.query@]
            &&& concerns(summary, request) ==> accounted_for(after, summary, request)
        }),
{
    let after = super::planner::decide(before, summary, selected, request, replies);
    if !concerns(summary, request) {
        lemma_unconcerned_request_changes_nothing(before, summary, selected, request, replies);
    } else if request.context is None {
        lemma_request_without_context_is_decided(before, summary, selected, request, replies);
    } else if summary.answer(request.query@.shape).reasons.len() > 0 {
        lemma_reasoned_request_falls_back(before, summary, selected, request, replies);
    } else {
        lemma_request_with_context_is_decided(before, summary, selected, request, replies);
    }
    if after.exact_queries == before.exact_queries + seq![request.query@] {
        assert(after.exact_queries[before.exact_queries.len() as int] == request.query@);
        assert(after.exact_queries.contains(request.query@));
    }
}

proof fn lemma_accounted_for_stays<'a, Root>(
    before: SourceProgress<Root>,
    after: SourceProgress<Root>,
    summary: SourceSummaryView,
    request: LightmountSourceDependencyInvalidationRequest<'a, Root>,
)
    requires
        grew_from(before, after),
        accounted_for(before, summary, request),
    ensures
        accounted_for(after, summary, request),
{
    assert forall|query: RetainedQueryView<Root>| #[trigger]
        before.exact_queries.contains(query) implies after.exact_queries.contains(query) by {
        let i = before.exact_queries.index_of(query);
        assert(after.exact_queries[i] == query);
    }
    assert forall|reason: LightmountSourceInvalidationFallbackReason| #[trigger]
        before.fallback_reasons.contains(reason) implies after.fallback_reasons.contains(
        reason,
    ) by {
        let i = before.fallback_reasons.index_of(reason);
        assert(after.fallback_reasons[i] == reason);
    }
    assert forall|reason: LightmountSourceInvalidationFallbackReason| #[trigger]
        before.missing_fallback_root_reasons.contains(
            reason,
        ) implies after.missing_fallback_root_reasons.contains(reason) by {
        let i = before.missing_fallback_root_reasons.index_of(reason);
        assert(after.missing_fallback_root_reasons[i] == reason);
    }
}

proof fn lemma_decided_is_well_formed<'a, Root: Copy>(
    summary: SourceSummaryView,
    selected: Seq<Root>,
    requests: Seq<LightmountSourceDependencyInvalidationRequest<'a, Root>>,
    replies: Seq<ContextReply<Root>>,
)
    ensures
        super::planner::decide_all(summary, selected, requests, replies).well_formed(),
    decreases requests.len(),
{
    if requests.len() > 0 {
        let before = super::planner::decide_all(summary, selected, requests.drop_last(), replies);
        lemma_decided_is_well_formed(summary, selected, requests.drop_last(), replies);
        lemma_decisions_only_grow(
            before,
            summary,
            selected,
            requests.last(),
            replies.skip(before.questions.len() as int),
        );
    }
}

/// Every request of a list that concerns the source is accounted for in what is
/// decided for the list.
pub proof fn lemma_every_concerned_request_is_accounted_for<'a, Root: Copy>(
    summary: SourceSummaryView,
    selected: Seq<Root>,
    requests: Seq<LightmountSourceDependencyInvalidationRequest<'a, Root>>,
    replies: Seq<ContextReply<Root>>,
    index: int,
)
    requires
        0 <= index < requests.len(),
        concerns(summary, requests[index]),
    ensures
        accounted_for(
            super::planner::decide_all(summary, selected, requests, replies),
            summary,
            requests[index],
        ),
    decreases requests.len(),
{
    let rest = requests.drop_last();
    let before = super::planner::decide_all(summary, selected, rest, replies);
    let own = replies.skip(before.questions.len() as int);
    lemma_decided_is_well_formed(summary, selected, rest, replies);
    lemma_decisions_only_grow(before, summary, selected, requests.last(), own);
    if index < rest.len() {
        assert(rest[index] == requests[index]);
        lemma_every_concerned_request_is_accounted_for(summary, selected, rest, replies, index);
        lemma_accounted_for_stays(
            before,
            super::planner::decide_all(summary, selected, requests, replies),
            summary,
            requests[index],
        );
    }
}

/// The queries of the requests that concern a source and give no reasons, in
/// the order of the requests.
pub open spec fn unreasoned_queries<'a, Root>(
    summary: SourceSummaryView,
    requests: Seq<LightmountSourceDependencyInvalidationRequest<'a, Root>>,
) -> Seq<RetainedQueryView<Root>>
    decreases requests.len(),
{
    if requests.len() == 0 {
        Seq::empty()
    } else {
        let first = requests[0];
        let rest = unreasoned_queries(summary, requests.drop_first());
        if concerns(summary, first) && summary.answer(first.query@.shape).reasons.len() == 0 {
            seq![first.query@] + rest
        } else {
            rest
        }
    }
}

proof fn lemma_unreasoned_queries_last<'a, Root>(
    summary: SourceSummaryView,
    requests: Seq<LightmountSourceDependencyInvalidationRequest<'a, Root>>,
)
    requires
        requests.len() > 0,
    ensures
        ({
            let last = requests.last();
            let before = unreasoned_queries(summary, requests.drop_last());
            unreasoned_queries(summary, requests) == if concerns(summary, last) && summary.answer(
                last.query@.shape,
            ).reasons.len() == 0 {
                before + seq![last.query@]
            } else {
                before
            }
        }),
    decreases requests.len(),
{
    let rest = requests.drop_first();
    if requests.len() == 1 {
        assert(rest =~= Seq::empty());
        assert(requests.drop_last() =~= Seq::empty());
        assert(unreasoned_queries(summary, rest) =~= Seq::empty());
        assert(unreasoned_queries(summary, requests.drop_last()) =~= Seq::empty());
        assert(unreasoned_queries(summary, requests) =~= if concerns(summary, requests.last())
            && summary.answer(requests.last().query@.shape).reasons.len() == 0 {
            seq![requests.last().query@]
        } else {
            Seq::empty()
        });
        assert(Seq::empty() + seq![requests.last().query@] =~= seq![requests.last().query@]);
    } else {
        lemma_unreasoned_queries_last(summary, rest);
        assert(requests.drop_last().drop_first() =~= rest.drop_last());
        assert(rest.last() == requests.last());
        let middle = unreasoned_queries(summary, rest.drop_last());
        let first = requests[0].query@;
        let last = requests.last().query@;
        assert(seq![first] + (middle + seq![last]) =~= (seq![first] + middle) + seq![last]);
    }
}

/// Of requests without mutation context, the queries to run are those of the
/// requests that concern the source and give no reasons, each once and in the
/// order of the requests.
pub proof fn lemma_queries_run_in_request_order<'a, Root: Copy>(
    summary: SourceSummaryView,
    selected: Seq<Root>,
    requests: Seq<LightmountSourceDependencyInvalidationRequest<'a, Root>>,
    replies: Seq<ContextReply<Root>>,
)
    requires
        forall|i: int| 0 <= i < requests.len() ==> (#[trigger] requests[i]).context is None,
    ensures
        ({
            let decided = super::planner::decide_all(summary, selected, requests, replies);
            &&& decided.exact_queries == unreasoned_queries(summary, requests)
            &&& decided.questions.len() == 0
        }),
    decreases requests.len(),
{
    if requests.len() > 0 {
        let rest = requests.drop_last();
        let last = requests.last();
        let before = super::planner::decide_all(summary, selected, rest, replies);
        let own = replies.skip(before.questions.len() as int);
        assert forall|i: int| 0 <= i < rest.len() implies (#[trigger] rest[i]).context is None by {
            assert(rest[i] == requests[i]);
        }
        assert(requests[requests.len() - 1].context is None);
        lemma_queries_run_in_request_order(summary, selected, rest, replies);
        lemma_decided_is_well_formed(summary, selected, rest, replies);
        lemma_unreasoned_queries_last(summary, requests);
        if concerns(summary, last) {
            lemma_request_without_context_is_decided(before, summary, selected, last, own);
        } else {
            lemma_unconcerned_request_changes_nothing(before, summary, selected, last, own);
        }
    }
}

/// A plan hands on what was decided. Missing roots require fallback of the
/// source, with the reasons for which they were needed. Otherwise queries are
/// run with all decided roots and reasons beside them; without queries the
/// reasoned roots are the target, or else the roots kept for safety, as an
/// inexact empty result; and without any there is nothing to do.
pub proof fn lemma_plan_hands_on_decisions<Root>(
    decided: SourceProgress<Root>,
    selected: Seq<Root>,
    reason: LightmountSourceInvalidationFallbackReason,
)
    requires
        decided.well_formed(),
    ensures
        ({
            let plan = decided.plan(selected);
            let missing = decided.missing_fallback_root_reasons;
            let kind = match decided.fallback_kind {
                Some(kind) => kind,
                None => LightmountRetainedSourceStyleInvalidationKind::FallbackOnly,
            };
            &&& plan is RequiresSourceFallback <==> missing.len() > 0
            &&& plan matches SourcePlanView::RequiresSourceFallback {
                target: PlannedTargetView::Fallback {
                    fallback_kind,
                    fallback_roots,
                    fallback_reasons,
                },
            } ==> {
                &&& fallback_roots == selected
                &&& fallback_kind == if selected.len() > 0 {
                    LightmountRetainedSourceStyleInvalidationKind::FallbackOnly
                } else {
                    LightmountRetainedSourceStyleInvalidationKind::MissingFallbackRoots
                }
                &&& fallback_reasons.contains(reason) <==> missing.contains(reason)
                    || selected.len() == 0 && reason
                    == LightmountSourceInvalidationFallbackReason::MissingFallbackRoots
            }
            &&& plan matches SourcePlanView::RequiresSourceFallback { target }
                ==> target is Fallback
            &&& plan matches SourcePlanView::Work { target } ==> {
                &&& target is None <==> decided.exact_queries.len() == 0
                    && decided.reasoned_fallback_roots.len() == 0
                    && decided.exact_safety_fallback_roots.len() == 0
                &&& target matches Some(target) ==> (target is RetainedQueries
                    <==> decided.exact_queries.len() > 0)
            }
            &&& plan matches SourcePlanView::Work {
                target: Some(
                    PlannedTargetView::RetainedQueries {
                        exact_queries,
                        fallback_kind,
                        reasoned_fallback_roots,
                        exact_safety_fallback_roots,
                        fallback_reasons,
                    },
                ),
            } ==> {
                &&& exact_queries == decided.exact_queries
                &&& fallback_kind == decided.fallback_kind
                &&& reasoned_fallback_roots == decided.reasoned_fallback_roots
                &&& exact_safety_fallback_roots == decided.exact_safety_fallback_roots
                &&& fallback_reasons == decided.fallback_reasons
            }
            &&& plan matches SourcePlanView::Work {
                target: Some(
                    PlannedTargetView::Fallback { fallback_kind, fallback_roots, fallback_reasons },
                ),
            } ==> {
                &&& fallback_kind == kind
                &&& decided.reasoned_fallback_roots.len() > 0 ==> fallback_roots
                    == decided.reasoned_fallback_roots && fallback_reasons
                    == decided.fallback_reasons
                &&& decided.reasoned_fallback_roots.len() == 0 ==> {
                    &&& fallback_roots == decided.exact_safety_fallback_roots
                    &&& fallback_reasons.contains(reason) <==> decided.fallback_reasons.contains(
                        reason,
                    ) || reason == LightmountSourceInvalidationFallbackReason::InexactEmptyResult
                }
            }
        }),
{
    let missing = LightmountSourceInvalidationFallbackReason::MissingFallbackRoots;
    let inexact = LightmountSourceInvalidationFallbackReason::InexactEmptyResult;
    super::lists::lemma_contains_push(decided.missing_fallback_root_reasons, missing, reason);
    super::lists::lemma_contains_push(decided.fallback_reasons, inexact, reason);
}

/// A fallback target has the roots, the kind and the reasons that it is made of,
/// and the reason that its kind implies: a source scope, or missing roots.
pub proof fn lemma_fallback_targets_say_why<Root>(
    kind: LightmountRetainedSourceStyleInvalidationKind,
    roots: Seq<Root>,
    reasons: Seq<LightmountSourceInvalidationFallbackReason>,
    reason: LightmountSourceInvalidationFallbackReason,
)
    ensures
        PlannedTargetView::fallback_of(kind, roots, reasons) matches PlannedTargetView::Fallback {
            fallback_kind,
            fallback_roots,
            fallback_reasons,
        } && {
            &&& fallback_kind == kind
            &&& fallback_roots == roots
            &&& reasons.is_prefix_of(fallback_reasons)
            &&& fallback_reasons.contains(reason) <==> reasons.contains(reason) || kind
                == LightmountRetainedSourceStyleInvalidationKind::SourceScopeFallback && reason
                == LightmountSourceInvalidationFallbackReason::SourceScopeFallback || kind
                == LightmountRetainedSourceStyleInvalidationKind::MissingFallbackRoots && reason
                == LightmountSourceInvalidationFallbackReason::MissingFallbackRoots
        },
        ({
            let target = super::planned::FallbackRootTargetView::<Root>::fallback_only(
                roots,
                reasons,
            );
            &&& target.fallback_kind is FallbackOnly
            &&& target.fallback_roots == roots
            &&& target.fallback_reasons == reasons
        }),
        ({
            let target = super::planned::FallbackRootTargetView::<Root>::source_scope(
                roots,
                reasons,
            );
            &&& target.fallback_kind is SourceScopeFallback
            &&& target.fallback_roots == roots
            &&& reasons.is_prefix_of(target.fallback_reasons)
            &&& target.fallback_reasons.contains(reason) <==> reasons.contains(reason) || reason
                == LightmountSourceInvalidationFallbackReason::SourceScopeFallback
        }),
{
    super::lists::lemma_contains_push(
        reasons,
        LightmountSourceInvalidationFallbackReason::SourceScopeFallback,
        reason,
    );
    super::lists::lemma_contains_push(
        reasons,
        LightmountSourceInvalidationFallbackReason::MissingFallbackRoots,
        reason,
    );
}

/// What a target hands to a sink is what it holds: queries with all their roots
/// and reasons, or fallback roots under their kind, or the lack of them.
pub proof fn lemma_targets_hand_on_what_they_hold<Root>(target: PlannedTargetView<Root>)
    ensures
        target matches PlannedTargetView::RetainedQueries {
            exact_queries,
            fallback_kind,
            reasoned_fallback_roots,
            exact_safety_fallback_roots,
            fallback_reasons,
        } ==> target.call() matches PlannedCall::RetainedQueries {
            exact_queries: queries,
            fallback_kind: kind,
            reasoned_fallback_roots: reasoned,
            exact_safety_fallback_roots: safety,
            fallback_reasons: reasons,
        } && queries == exact_queries && kind == fallback_kind && reasoned
            == reasoned_fallback_roots && safety == exact_safety_fallback_roots && reasons
            == fallback_reasons,
        target matches PlannedTargetView::Fallback {
            fallback_kind,
            fallback_roots,
            fallback_reasons,
        } ==> {
            &&& fallback_kind is MissingFallbackRoots ==> (target.call() matches PlannedCall::MissingFallbackRoots {
                fallback_reasons: reasons,
            } && reasons == fallback_reasons)
            &&& !(fallback_kind is MissingFallbackRoots) ==> (target.call() matches PlannedCall::FallbackWithRoots {
                fallback_kind: kind,
                fallback_roots: roots,
                fallback_reasons: reasons,
            } && kind == fallback_kind && roots == fallback_roots && reasons == fallback_reasons)
        },
{
}

/// Whether the answer of a source to some request has an anchor before an
/// element or before an ancestor.
pub open spec fn some_previous_sibling_anchor<'a, Root>(
    summary: SourceSummaryView,
    requests: Seq<LightmountSourceDependencyInvalidationRequest<'a, Root>>,
) -> bool {
    exists|i: int|
        0 <= i < requests.len() && has_previous_sibling_kind(
            summary,
            (#[trigger] requests[i]).query@.shape,
        )
}

/// Whether the answer to a query has such an anchor.
pub open spec fn has_previous_sibling_kind(summary: SourceSummaryView, shape: QueryShape) -> bool {
    let kinds = summary.answer(shape).kinds;
    ||| kinds.contains(LightmountDependencyKind::RelativePrevSibling)
    ||| kinds.contains(LightmountDependencyKind::RelativeEarlierSibling)
    ||| kinds.contains(LightmountDependencyKind::RelativeAncestorPrevSibling)
    ||| kinds.contains(LightmountDependencyKind::RelativeAncestorEarlierSibling)
}

proof fn lemma_some_previous_sibling_anchor<'a, Root>(
    summary: SourceSummaryView,
    requests: Seq<LightmountSourceDependencyInvalidationRequest<'a, Root>>,
)
    ensures
        some_previous_sibling_anchor(summary, requests) == summary.any_relative_previous(requests),
{
    if some_previous_sibling_anchor(summary, requests) {
        let i = choose|i: int|
            0 <= i < requests.len() && has_previous_sibling_kind(
                summary,
                (#[trigger] requests[i]).query@.shape,
            );
        assert(summary.answer_to(requests[i]).affects_previous_sibling_anchors());
    }
    if summary.any_relative_previous(requests) {
        let i = choose|i: int|
            0 <= i < requests.len() && summary.answer_to(
                #[trigger] requests[i],
            ).affects_previous_sibling_anchors();
        assert(has_previous_sibling_kind(summary, requests[i].query@.shape));
    }
}

/// Whether a row is that of its source: its target is what is planned for the
/// source from some point of the replies on, and it carries the cleanup roots
/// of the boundary exactly where a request has a previous-sibling anchor there.
pub open spec fn is_row_of_its_source<'a, Root: Copy>(
    row: PlannedRowView<Root>,
    sources: Seq<LightmountSourceDependencyInvalidationBatchSource<'a, Root>>,
    requests: Seq<LightmountSourceDependencyInvalidationRequest<'a, Root>>,
    cleanup_roots: Seq<Root>,
    replies: Seq<ContextReply<Root>>,
) -> bool {
    let source = sources[row.source_index];
    let summary = source.dependency_summary@;
    &&& 0 <= row.source_index < sources.len()
    &&& some_previous_sibling_anchor(summary, requests) ==> row.cleanup_roots == cleanup_roots
    &&& !some_previous_sibling_anchor(summary, requests) ==> row.cleanup_roots.len() == 0
    &&& exists|asked: int|
        0 <= asked && (#[trigger] super::planner::decide_all(
            summary,
            source.fallback_roots.selected(),
            requests,
            replies.skip(asked),
        )).plan(source.fallback_roots.selected()) == (SourcePlanView::Work {
            target: Some(row.target),
        })
}

/// Every row of a batch is that of its source.
pub proof fn lemma_rows_are_of_their_sources<'a, Root: Copy>(
    sources: Seq<LightmountSourceDependencyInvalidationBatchSource<'a, Root>>,
    requests: Seq<LightmountSourceDependencyInvalidationRequest<'a, Root>>,
    cleanup_roots: Seq<Root>,
    replies: Seq<ContextReply<Root>>,
    index: int,
)
    requires
        0 <= index < super::batch_planner::decide_sources(
            sources,
            requests,
            cleanup_roots,
            replies,
        ).rows.len(),
    ensures
        is_row_of_its_source(
            super::batch_planner::decide_sources(
                sources,
                requests,
                cleanup_roots,
                replies,
            ).rows[index],
            sources,
            requests,
            cleanup_roots,
            replies,
        ),
    decreases sources.len(),
{
    if sources.len() > 0 {
        let rest = sources.drop_last();
        let last = sources.last();
        let before = super::batch_planner::decide_sources(rest, requests, cleanup_roots, replies);
        let after = super::batch_planner::decide_sources(
            sources,
            requests,
            cleanup_roots,
            replies,
        );
        if index < before.rows.len() {
            lemma_rows_are_of_their_sources(rest, requests, cleanup_roots, replies, index);
            assert(after.rows[index] == before.rows[index]);
            assert(rest[before.rows[index].source_index]
                == sources[before.rows[index].source_index]);
        } else {
            let asked = before.questions.len() as int;
            lemma_some_previous_sibling_anchor(last.dependency_summary@, requests);
            assert(sources[sources.len() - 1] == last);
            assert(super::planner::decide_all(
                last.dependency_summary@,
                last.fallback_roots.selected(),
                requests,
                replies.skip(asked),
            ).plan(last.fallback_roots.selected()) == (SourcePlanView::Work {
                target: Some(after.rows[index].target),
            }));
        }
    }
}

/// A batch is stopped by the first source whose plan requires fallback: its row
/// has that plan's target and no cleanup roots.
pub proof fn lemma_stopping_row_is_of_its_source<'a, Root: Copy>(
    sources: Seq<LightmountSourceDependencyInvalidationBatchSource<'a, Root>>,
    requests: Seq<LightmountSourceDependencyInvalidationRequest<'a, Root>>,
    cleanup_roots: Seq<Root>,
    replies: Seq<ContextReply<Root>>,
)
    ensures
        super::batch_planner::decide_sources(
            sources,
            requests,
            cleanup_roots,
            replies,
        ).stopped matches Some(row) ==> {
            let source = sources[row.source_index];
            &&& 0 <= row.source_index < sources.len()
            &&& row.cleanup_roots.len() == 0
            &&& super::batch_planner::decide_sources(
                sources.take(row.source_index),
                requests,
                cleanup_roots,
                replies,
            ).stopped is None
            &&& exists|asked: int|
                0 <= asked && (#[trigger] super::planner::decide_all(
                    source.dependency_summary@,
                    source.fallback_roots.selected(),
                    requests,
                    replies.skip(asked),
                )).plan(source.fallback_roots.selected())
                    == (SourcePlanView::RequiresSourceFallback { target: row.target })
        },
    decreases sources.len(),
{
    if sources.len() > 0 {
        let rest = sources.drop_last();
        let last = sources.last();
        let before = super::batch_planner::decide_sources(rest, requests, cleanup_roots, replies);
        let after = super::batch_planner::decide_sources(
            sources,
            requests,
            cleanup_roots,
            replies,
        );
        lemma_stopping_row_is_of_its_source(rest, requests, cleanup_roots, replies);
        if let Some(row) = before.stopped {
            assert(rest[row.source_index] == sources[row.source_index]);
            assert(rest.take(row.source_index) =~= sources.take(row.source_index));
        } else if let Some(row) = after.stopped {
            let asked = before.questions.len() as int;
            assert(sources.take(sources.len() - 1) =~= rest);
            assert(super::planner::decide_all(
                last.dependency_summary@,
                last.fallback_roots.selected(),
                requests,
                replies.skip(asked),
            ).plan(last.fallback_roots.selected()) == (SourcePlanView::RequiresSourceFallback {
                target: row.target,
            }));
        }
    }
}

/// Whether a source needs an empty-target fallback: a request meets a structural
/// boundary of the source, or its answer has a previous-sibling anchor, affects
/// slotted elements, or is unknown.
pub open spec fn needs_empty_target<'a, Root>(
    summary: SourceSummaryView,
    requests: Seq<LightmountSourceDependencyInvalidationRequest<'a, Root>>,
) -> bool {
    exists|i: int|
        0 <= i < requests.len() && request_needs_empty_target(summary, #[trigger] requests[i])
}

/// Whether one request asks for that.
pub open spec fn request_needs_empty_target<'a, Root>(
    summary: SourceSummaryView,
    request: LightmountSourceDependencyInvalidationRequest<'a, Root>,
) -> bool {
    let answer = summary.answer(request.query@.shape);
    ||| summary.structural && request.requirement.requires_child_list_structural_dependency
        && summary.boundaries.matches(request.query@.shape)
    ||| has_previous_sibling_kind(summary, request.query@.shape)
    ||| answer.unknown
    ||| answer.kinds.contains(LightmountDependencyKind::SlottedElements)
}

proof fn lemma_needs_empty_target<'a, Root>(
    summary: SourceSummaryView,
    requests: Seq<LightmountSourceDependencyInvalidationRequest<'a, Root>>,
)
    ensures
        needs_empty_target(summary, requests) == summary.needs_empty_target_fallback(requests),
{
    if needs_empty_target(summary, requests) {
        let i = choose|i: int|
            0 <= i < requests.len() && request_needs_empty_target(summary, #[trigger] requests[i]);
        assert(summary.is_structural_for(requests[i]) || summary.answer_to(
            requests[i],
        ).affects_previous_sibling_anchors() || summary.answer_to(requests[i]).affects_slotted());
    }
    if summary.any_structural(requests) {
        let i = choose|i: int|
            0 <= i < requests.len() && summary.is_structural_for(#[trigger] requests[i]);
        assert(request_needs_empty_target(summary, requests[i]));
    }
    if summary.any_relative_previous(requests) {
        let i = choose|i: int|
            0 <= i < requests.len() && summary.answer_to(
                #[trigger] requests[i],
            ).affects_previous_sibling_anchors();
        assert(request_needs_empty_target(summary, requests[i]));
    }
    if summary.any_slotted(requests) {
        let i = choose|i: int|
            0 <= i < requests.len() && summary.answer_to(#[trigger] requests[i]).affects_slotted();
        assert(request_needs_empty_target(summary, requests[i]));
    }
}

/// The fallback roots of a source are those of the cause of a mutation, and its
/// own only where the cause has none.
pub proof fn lemma_cause_roots_come_first<'a, Root>(
    source: LightmountSourceDependencyInvalidationBatchSource<'a, Root>,
)
    ensures
        source.fallback_roots.cause_roots@.len() > 0 ==> source.fallback_roots.selected()
            == source.fallback_roots.cause_roots@,
        source.fallback_roots.cause_roots@.len() == 0 ==> source.fallback_roots.selected()
            == source.fallback_roots.source_local_roots@,
{
}

/// An empty target falls back to a source that needs it: to the first such
/// source with fallback roots, or to the first of all where none has any.
pub proof fn lemma_empty_target_falls_back_to_first_rooted_source<'a, Root: Copy>(
    sources: Seq<LightmountSourceDependencyInvalidationBatchSource<'a, Root>>,
    requests: Seq<LightmountSourceDependencyInvalidationRequest<'a, Root>>,
    cleanup_roots: Seq<Root>,
    replies: Seq<ContextReply<Root>>,
    other: int,
)
    ensures
        ({
            let decided = super::batch_planner::decide_sources(
                sources,
                requests,
                cleanup_roots,
                replies,
            );
            decided.stopped is None ==> {
                &&& decided.empty_target matches Some((index, roots)) ==> {
                    &&& 0 <= index < sources.len()
                    &&& needs_empty_target(sources[index].dependency_summary@, requests)
                    &&& roots == sources[index].fallback_roots.selected()
                    &&& 0 <= other < sources.len() && needs_empty_target(
                        sources[other].dependency_summary@,
                        requests,
                    ) ==> {
                        ||| index <= other && (roots.len() > 0
                            || sources[other].fallback_roots.selected().len() == 0)
                        ||| other < index && roots.len() > 0
                            && sources[other].fallback_roots.selected().len() == 0
                    }
                }
                &&& decided.empty_target is None && 0 <= other < sources.len()
                    ==> !needs_empty_target(sources[other].dependency_summary@, requests)
            }
        }),
    decreases sources.len(),
{
    if sources.len() > 0 {
        let rest = sources.drop_last();
        let last = sources.last();
        let before = super::batch_planner::decide_sources(rest, requests, cleanup_roots, replies);
        lemma_empty_target_falls_back_to_first_rooted_source(
            rest,
            requests,
            cleanup_roots,
            replies,
            other,
        );
        lemma_needs_empty_target(last.dependency_summary@, requests);
        assert(sources[sources.len() - 1] == last);
        if 0 <= other < rest.len() {
            assert(rest[other] == sources[other]);
        }
        if let Some((index, roots)) = before.empty_target {
            if before.stopped is None {
                assert(rest[index] == sources[index]);
            }
        }
    }
}

/// The source that an empty target falls back to, and its roots.
pub open spec fn empty_target_of<Root>(decided: BatchProgress<Root>) -> (int, Seq<Root>) {
    decided.empty_target->0
}

/// A batch plan hands on what was decided: the row that stops the batch, or else
/// all rows. An empty target adds the boundary's roots as an inexact empty
/// result, and without such roots the source that it falls back to requires
/// fallback.
pub proof fn lemma_batch_plan_hands_on_decisions<Root>(
    decided: BatchProgress<Root>,
    boundary_roots: Seq<Root>,
    reason: LightmountSourceInvalidationFallbackReason,
)
    ensures
        ({
            let plan = decided.plan(boundary_roots);
            let inexact = LightmountSourceInvalidationFallbackReason::InexactEmptyResult;
            &&& decided.stopped matches Some(row) ==> plan
                == (BatchPlanView::RequiresSourceFallback { source: row })
            &&& decided.stopped is None && (decided.empty_target is None || boundary_roots.len()
                > 0) ==> plan is Work
            &&& plan matches BatchPlanView::Work { sources, boundary_fallback } ==> {
                &&& sources == decided.rows
                &&& boundary_fallback is Some <==> decided.empty_target is Some
                &&& boundary_fallback matches Some(target) ==> {
                    &&& target.fallback_kind is FallbackOnly
                    &&& target.fallback_roots == boundary_roots
                    &&& target.fallback_reasons == seq![inexact]
                }
            }
            &&& decided.stopped is None && decided.empty_target is Some && boundary_roots.len()
                == 0 ==> (plan matches BatchPlanView::RequiresSourceFallback {
                source: PlannedRowView {
                    source_index,
                    target: PlannedTargetView::Fallback {
                        fallback_kind,
                        fallback_roots,
                        fallback_reasons,
                    },
                    cleanup_roots,
                },
            } && {
                &&& source_index == empty_target_of(decided).0
                &&& fallback_roots == empty_target_of(decided).1
                &&& fallback_roots.len() > 0 ==> fallback_kind is FallbackOnly
                &&& fallback_roots.len() == 0 ==> fallback_kind is MissingFallbackRoots
                &&& fallback_reasons.contains(reason) <==> reason == inexact
                    || fallback_roots.len() == 0 && reason
                    == LightmountSourceInvalidationFallbackReason::MissingFallbackRoots
                &&& cleanup_roots.len() == 0
            })
        }),
{
    let inexact = LightmountSourceInvalidationFallbackReason::InexactEmptyResult;
    let missing = LightmountSourceInvalidationFallbackReason::MissingFallbackRoots;
    let reasons = seq![inexact];
    assert(reasons.contains(reason) <==> reason == inexact) by {
        assert(reasons[0] == inexact);
    }
    super::lists::lemma_contains_push(reasons, missing, reason);
}

} // verus!
