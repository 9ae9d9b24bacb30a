//! Planning of invalidation work for stylesheet sources.

use vstd::prelude::*;

use super::dependency_query::{
    LightmountDependencyContextRootPlan, LightmountDependencyFallbackHandling,
    LightmountDependencyFallbackRootPolicy, LightmountDependencyInvalidationContextRoots,
    LightmountDependencyQueryResult,
};
use super::lists::copy_slice;
use super::ordered_set::{Keyed, OrderedSet};
use super::planned::{
    LightmountPlannedSourceDependencyInvalidationTarget, PlannedTargetView,
};
use super::query::{
    LightmountRetainedStyleInvalidationQuery, LightmountRetainedStyleInvalidationQueryKind,
    RetainedQueryView,
};
use super::reasons::LightmountSourceInvalidationFallbackReason;
use super::request::{
    LightmountDependencyInvalidationFallbackContext, LightmountSourceDependencyInvalidationRequest,
};
use super::retained_kind::{
    lightmount_merge_retained_source_invalidation_fallback_kind,
    LightmountRetainedSourceStyleInvalidationKind,
};
use super::source_summary::{LightmountSourceDependencySummary, SourceSummaryView};
use super::unique_roots::UniqueRoots;

verus! {

/// A question put to the provider of mutation-context roots.
pub struct ContextQuestion<Root> {
    /// The query root.
    pub root: Root,
    /// The root categories that are wanted.
    pub plan: LightmountDependencyContextRootPlan,
    /// The mutation-time relation of the root.
    pub context: LightmountDependencyInvalidationFallbackContext<Root>,
}

/// What the provider of mutation-context roots replied.
pub struct ContextReply<Root> {
    /// The roots are insufficient.
    pub requires_source_fallback: bool,
    /// The roots.
    pub roots: Seq<Root>,
}

/// Adapter used by the source dependency planner when mutation-context roots
/// require DOM traversal.
pub trait LightmountSourceDependencyInvalidationContextRootsProvider<Root> {
    /// The questions answered so far.
    open spec fn questions(&self) -> Seq<ContextQuestion<Root>> {
        Seq::empty()
    }

    /// The replies given so far, one to each question.
    open spec fn replies(&self) -> Seq<ContextReply<Root>> {
        Seq::empty()
    }

    /// Build conservative context roots from a root plan.
    fn context_roots_for_source_dependency(
        &mut self,
        root: Root,
        plan: LightmountDependencyContextRootPlan,
        context: LightmountDependencyInvalidationFallbackContext<Root>,
    ) -> (roots: LightmountDependencyInvalidationContextRoots<Root>)
        ensures
            final(self).questions() == old(self).questions().push(
                ContextQuestion { root, plan, context },
            ),
            final(self).replies() == old(self).replies().push(
                ContextReply {
                    requires_source_fallback: roots.requires_source_fallback,
                    roots: roots.roots@,
                },
            ),
    ;
}

/// What has been decided for one source so far.
pub struct SourceProgress<Root> {
    /// Queries to run.
    pub exact_queries: Seq<RetainedQueryView<Root>>,
    /// The kind of the fallback roots.
    pub fallback_kind: Option<LightmountRetainedSourceStyleInvalidationKind>,
    /// Fallback roots tied to reasons.
    pub reasoned_fallback_roots: Seq<Root>,
    /// Fallback roots for unavailable exact invalidation.
    pub exact_safety_fallback_roots: Seq<Root>,
    /// Reasons for fallback.
    pub fallback_reasons: Seq<LightmountSourceInvalidationFallbackReason>,
    /// Reasons for which fallback roots were needed and not there.
    pub missing_fallback_root_reasons: Seq<LightmountSourceInvalidationFallbackReason>,
    /// The questions put to the provider.
    pub questions: Seq<ContextQuestion<Root>>,
}

impl<Root> SourceProgress<Root> {
    /// Nothing decided yet.
    pub open spec fn none() -> Self {
        SourceProgress {
            exact_queries: Seq::empty(),
            fallback_kind: None,
            reasoned_fallback_roots: Seq::empty(),
            exact_safety_fallback_roots: Seq::empty(),
            fallback_reasons: Seq::empty(),
            missing_fallback_root_reasons: Seq::empty(),
            questions: Seq::empty(),
        }
    }

    /// A question was put.
    pub open spec fn asking(self, question: ContextQuestion<Root>) -> Self {
        SourceProgress { questions: self.questions.push(question), ..self }
    }

    /// Roots of the mutation context serve as fallback.
    pub open spec fn with_context_roots(
        self,
        reasons: Seq<LightmountSourceInvalidationFallbackReason>,
        roots: Seq<Root>,
    ) -> Self {
        SourceProgress {
            fallback_kind: super::retained_kind::merge_fallback_kinds(
                self.fallback_kind,
                Some(LightmountRetainedSourceStyleInvalidationKind::ContextFallback),
            ),
            fallback_reasons: super::ordered_set::extend_unique(self.fallback_reasons, reasons),
            reasoned_fallback_roots: super::ordered_set::extend_unique(
                self.reasoned_fallback_roots,
                roots,
            ),
            ..self
        }
    }

    /// The selected roots of the source serve as fallback; without any, the
    /// lack of them is noted.
    pub open spec fn with_source_roots(
        self,
        reasons: Seq<LightmountSourceInvalidationFallbackReason>,
        selected: Seq<Root>,
    ) -> Self {
        if selected.len() == 0 {
            self.with_missing_roots(reasons)
        } else {
            SourceProgress {
                fallback_kind: super::retained_kind::merge_fallback_kinds(
                    self.fallback_kind,
                    Some(LightmountRetainedSourceStyleInvalidationKind::FallbackOnly),
                ),
                fallback_reasons: super::ordered_set::extend_unique(
                    self.fallback_reasons,
                    reasons,
                ),
                reasoned_fallback_roots: super::ordered_set::extend_unique(
                    self.reasoned_fallback_roots,
                    selected,
                ),
                ..self
            }
        }
    }

    /// Fallback roots were needed and not there.
    pub open spec fn with_missing_roots(
        self,
        reasons: Seq<LightmountSourceInvalidationFallbackReason>,
    ) -> Self {
        SourceProgress {
            missing_fallback_root_reasons: super::ordered_set::extend_unique(
                self.missing_fallback_root_reasons,
                reasons,
            ),
            ..self
        }
    }

    /// The query is run, with roots in case its result is not exact.
    pub open spec fn with_exact_query(
        self,
        query: RetainedQueryView<Root>,
        safety_roots: Seq<Root>,
    ) -> Self {
        SourceProgress {
            exact_queries: self.exact_queries.push(query),
            exact_safety_fallback_roots: super::ordered_set::extend_unique(
                self.exact_safety_fallback_roots,
                safety_roots,
            ),
            ..self
        }
    }

    /// The fallback kind is never that of retained queries or of missing
    /// roots.
    pub open spec fn well_formed(self) -> bool {
        self.fallback_kind is None || self.fallback_kind == Some(
            LightmountRetainedSourceStyleInvalidationKind::ContextFallback,
        ) || self.fallback_kind == Some(LightmountRetainedSourceStyleInvalidationKind::FallbackOnly)
    }
}

/// Whether a request does not concern a source: nothing depends on its query,
/// or the dependencies that its gates ask for are not there.
pub open spec fn request_is_skipped<'a, Root>(
    summary: SourceSummaryView,
    request: LightmountSourceDependencyInvalidationRequest<'a, Root>,
) -> bool {
    let answer = summary.answer_to(request);
    ||| !answer.has_any()
    ||| request.requirement.requires_child_list_structural_dependency && !summary.is_structural_for(
        request,
    ) && !answer.affects_relative_anchors()
    ||| request.requirement.requires_relative_previous_sibling_dependency
        && !answer.affects_previous_sibling_anchors()
}

/// Whether a custom-state query may stand for `:nth-child(... of ...)`.
pub open spec fn is_custom_state_nth_of<'a, Root>(
    summary: SourceSummaryView,
    request: LightmountSourceDependencyInvalidationRequest<'a, Root>,
) -> bool {
    let answer = summary.answer_to(request);
    &&& request.query@.shape is CustomState
    &&& summary.structural
    &&& answer.affects_siblings()
    &&& answer.reasons.len() == 0
}

/// The question that a request with mutation context puts to the provider.
pub open spec fn question_of<'a, Root: Copy>(
    summary: SourceSummaryView,
    request: LightmountSourceDependencyInvalidationRequest<'a, Root>,
) -> ContextQuestion<Root> {
    ContextQuestion {
        root: request.query.root,
        plan: LightmountDependencyContextRootPlan::of_answer(
            summary.answer_to(request),
            request.query.asks_for_heading_level(),
        ),
        context: request.context->0,
    }
}

/// The decision on a request whose answer needs fallback, where `reply` is what
/// the provider says if it is asked.
pub open spec fn decide_fallback<'a, Root: Copy>(
    progress: SourceProgress<Root>,
    summary: SourceSummaryView,
    selected: Seq<Root>,
    request: LightmountSourceDependencyInvalidationRequest<'a, Root>,
    reply: ContextReply<Root>,
) -> SourceProgress<Root> {
    let answer = summary.answer_to(request);
    let reasons = answer.source_reasons();
    if answer.policy() == LightmountDependencyFallbackRootPolicy::ContextRoots
        && request.context is Some {
        let asked = progress.asking(question_of(summary, request));
        if reply.roots.len() > 0 {
            asked.with_context_roots(reasons, reply.roots)
        } else {
            asked.with_source_roots(reasons, selected)
        }
    } else {
        progress.with_source_roots(reasons, selected)
    }
}

/// The decision on a request that can be exact, where `reply` is what the
/// provider says if it is asked.
pub open spec fn decide_exact<'a, Root: Copy>(
    progress: SourceProgress<Root>,
    summary: SourceSummaryView,
    selected: Seq<Root>,
    request: LightmountSourceDependencyInvalidationRequest<'a, Root>,
    reply: ContextReply<Root>,
) -> SourceProgress<Root> {
    let answer = summary.answer_to(request);
    let inexact = seq![LightmountSourceInvalidationFallbackReason::InexactEmptyResult];
    if request.context is None {
        progress.with_exact_query(request.query@, selected)
    } else {
        let asked = progress.asking(question_of(summary, request));
        if reply.requires_source_fallback {
            if answer.is_direct_previous_sibling_only() && reply.roots.len() > 0 {
                asked.with_context_roots(answer.source_reasons(), reply.roots)
            } else {
                asked.with_source_roots(answer.source_reasons(), selected)
            }
        } else if request.requirement.requires_child_list_structural_dependency
            && request.query@.shape is Universal && answer.affects_relative_anchors() {
            // The context roots are the cleanup target of structural relative
            // dependencies whose exact query would report an inexact empty
            // result.
            if reply.roots.len() == 0 {
                asked.with_missing_roots(inexact)
            } else {
                asked.with_context_roots(inexact, reply.roots)
            }
        } else {
            asked.with_exact_query(request.query@, reply.roots)
        }
    }
}

/// The decision on a request, where `replies` are what the provider says to the
/// questions of this request in turn.
pub open spec fn decide<'a, Root: Copy>(
    progress: SourceProgress<Root>,
    summary: SourceSummaryView,
    selected: Seq<Root>,
    request: LightmountSourceDependencyInvalidationRequest<'a, Root>,
    replies: Seq<ContextReply<Root>>,
) -> SourceProgress<Root> {
    let answer = summary.answer_to(request);
    if request_is_skipped(summary, request) {
        progress
    } else if answer.reasons.len() > 0 {
        decide_fallback(progress, summary, selected, request, replies[0])
    } else if is_custom_state_nth_of(summary, request) && request.context is Some {
        let asked = progress.asking(question_of(summary, request));
        if replies[0].roots.len() > 0 {
            asked.with_context_roots(
                seq![LightmountSourceInvalidationFallbackReason::NthOfDependency],
                replies[0].roots,
            )
        } else {
            decide_exact(asked, summary, selected, request, replies[1])
        }
    } else {
        decide_exact(progress, summary, selected, request, replies[0])
    }
}

/// What is decided for a source after a list of requests, where `replies` are
/// what the provider says to all questions in turn.
pub open spec fn decide_all<'a, Root: Copy>(
    summary: SourceSummaryView,
    selected: Seq<Root>,
    requests: Seq<LightmountSourceDependencyInvalidationRequest<'a, Root>>,
    replies: Seq<ContextReply<Root>>,
) -> SourceProgress<Root>
    decreases requests.len(),
{
    if requests.len() == 0 {
        SourceProgress::none()
    } else {
        let before = decide_all(summary, selected, requests.drop_last(), replies);
        decide(
            before,
            summary,
            selected,
            requests.last(),
            replies.skip(before.questions.len() as int),
        )
    }
}

/// The content of a source-local plan.
pub enum SourcePlanView<Root> {
    /// Work for the source, where there is any.
    Work {
        /// The target of the work.
        target: Option<PlannedTargetView<Root>>,
    },
    /// The source requires fallback.
    RequiresSourceFallback {
        /// The fallback target.
        target: PlannedTargetView<Root>,
    },
}

impl<Root> SourceProgress<Root> {
    /// The plan that the decisions amount to.
    pub open spec fn plan(self, selected: Seq<Root>) -> SourcePlanView<Root> {
        if self.missing_fallback_root_reasons.len() > 0 {
            SourcePlanView::RequiresSourceFallback {
                target: PlannedTargetView::source_fallback(
                    selected,
                    self.missing_fallback_root_reasons,
                ),
            }
        } else {
            SourcePlanView::Work {
                target: PlannedTargetView::of_work(
                    self.exact_queries,
                    self.fallback_kind,
                    self.reasoned_fallback_roots,
                    self.exact_safety_fallback_roots,
                    self.fallback_reasons,
                ),
            }
        }
    }
}

/// Source-local dependency invalidation plan before it is added to a batch.
#[derive(Debug, PartialEq, Eq)]
pub enum LightmountSourceDependencyInvalidationSourcePlan<Root> {
    /// Source-local retained or fallback work. `None` means this source does
    /// not need a planned row for the current request batch.
    Work {
        /// Planned source dependency target, if this source has work.
        target: Option<LightmountPlannedSourceDependencyInvalidationTarget<Root>>,
    },
    /// The source requires fallback and no roots are available at the requested
    /// boundary.
    RequiresSourceFallback {
        /// Source-level fallback target.
        target: LightmountPlannedSourceDependencyInvalidationTarget<Root>,
    },
}

impl<Root> View for LightmountSourceDependencyInvalidationSourcePlan<Root> {
    type V = SourcePlanView<Root>;

    open spec fn view(&self) -> SourcePlanView<Root> {
        match self {
            Self::Work { target } => SourcePlanView::Work {
                target: match target {
                    Some(target) => Some(target@),
                    None => None,
                },
            },
            Self::RequiresSourceFallback { target } => {
                SourcePlanView::RequiresSourceFallback { target: target@ }
            },
        }
    }
}

impl<Root: Copy> Clone for LightmountSourceDependencyInvalidationSourcePlan<Root> {
    fn clone(&self) -> (plan: Self)
        ensures
            plan@ == self@,
    {
        match self {
            Self::Work { target } => Self::Work {
                target: match target {
                    Some(target) => Some(target.clone()),
                    None => None,
                },
            },
            Self::RequiresSourceFallback { target } => {
                Self::RequiresSourceFallback { target: target.clone() }
            },
        }
    }
}

impl<Root> LightmountSourceDependencyInvalidationSourcePlan<Root> {
    /// Create a source-local work plan.
    pub fn work(
        target: Option<LightmountPlannedSourceDependencyInvalidationTarget<Root>>,
    ) -> (plan: Self)
        ensures
            plan == (LightmountSourceDependencyInvalidationSourcePlan::Work { target }),
    {
        Self::Work { target }
    }

    /// Create a source-local plan that requires source fallback.
    pub fn requires_source_fallback(
        target: LightmountPlannedSourceDependencyInvalidationTarget<Root>,
    ) -> (plan: Self)
        ensures
            plan == (LightmountSourceDependencyInvalidationSourcePlan::RequiresSourceFallback {
                target,
            }),
    {
        Self::RequiresSourceFallback { target }
    }
}

/// The decisions for one source while they are made.
struct SourceWork<Root: Keyed> {
    exact_queries: Vec<LightmountRetainedStyleInvalidationQuery<Root>>,
    fallback_kind: Option<LightmountRetainedSourceStyleInvalidationKind>,
    reasoned_fallback_roots: UniqueRoots<Root>,
    // Exact-query safety roots are separate from reasoned fallback roots: they
    // are used only when retained exact invalidation is unavailable or returns
    // an inexact result.
    exact_safety_fallback_roots: UniqueRoots<Root>,
    fallback_reasons: OrderedSet<LightmountSourceInvalidationFallbackReason>,
    missing_fallback_root_reasons: OrderedSet<LightmountSourceInvalidationFallbackReason>,
}

impl<Root: Keyed> SourceWork<Root> {
    /// Whether this work is what the progress says, leaving questions aside.
    spec fn is(&self, progress: SourceProgress<Root>) -> bool {
        &&& super::request::query_views(self.exact_queries@) == progress.exact_queries
        &&& self.fallback_kind == progress.fallback_kind
        &&& self.reasoned_fallback_roots@ == progress.reasoned_fallback_roots
        &&& self.exact_safety_fallback_roots@ == progress.exact_safety_fallback_roots
        &&& self.fallback_reasons@ == progress.fallback_reasons
        &&& self.missing_fallback_root_reasons@ == progress.missing_fallback_root_reasons
        &&& progress.well_formed()
    }

    fn new() -> (work: Self)
        ensures
            work.is(SourceProgress::none()),
    {
        let work = SourceWork {
            exact_queries: Vec::new(),
            fallback_kind: None,
            reasoned_fallback_roots: UniqueRoots::new(),
            exact_safety_fallback_roots: UniqueRoots::new(),
            fallback_reasons: OrderedSet::new(),
            missing_fallback_root_reasons: OrderedSet::new(),
        };
        assert(super::request::query_views(work.exact_queries@) =~= Seq::empty());
        work
    }

    fn use_context_roots(
        &mut self,
        Ghost(progress): Ghost<SourceProgress<Root>>,
        reasons: &OrderedSet<LightmountSourceInvalidationFallbackReason>,
        roots: &[Root],
    )
        requires
            old(self).is(progress),
        ensures
            final(self).is(progress.with_context_roots(reasons@, roots@)),
    {
        self.fallback_kind =
        lightmount_merge_retained_source_invalidation_fallback_kind(
            self.fallback_kind,
            Some(LightmountRetainedSourceStyleInvalidationKind::ContextFallback),
        );
        self.fallback_reasons.extend_from_set(reasons);
        self.reasoned_fallback_roots.extend_from_slice(roots);
    }

    fn use_source_roots(
        &mut self,
        Ghost(progress): Ghost<SourceProgress<Root>>,
        reasons: &OrderedSet<LightmountSourceInvalidationFallbackReason>,
        selected: &[Root],
    )
        requires
            old(self).is(progress),
        ensures
            final(self).is(progress.with_source_roots(reasons@, selected@)),
    {
        if selected.len() == 0 {
            self.missing_fallback_root_reasons.extend_from_set(reasons);
        } else {
            self.fallback_kind =
            lightmount_merge_retained_source_invalidation_fallback_kind(
                self.fallback_kind,
                Some(LightmountRetainedSourceStyleInvalidationKind::FallbackOnly),
            );
            self.fallback_reasons.extend_from_set(reasons);
            self.reasoned_fallback_roots.extend_from_slice(selected);
        }
    }

    fn note_missing_roots(
        &mut self,
        Ghost(progress): Ghost<SourceProgress<Root>>,
        reason: LightmountSourceInvalidationFallbackReason,
    )
        requires
            old(self).is(progress),
        ensures
            final(self).is(progress.with_missing_roots(seq![reason])),
    {
        proof {
            super::ordered_set::lemma_extend_unique_one(
                progress.missing_fallback_root_reasons,
                reason,
            );
        }
        self.missing_fallback_root_reasons.insert(reason);
    }

    fn run_exact_query(
        &mut self,
        Ghost(progress): Ghost<SourceProgress<Root>>,
        query: &LightmountRetainedStyleInvalidationQuery<Root>,
        safety_roots: &[Root],
    )
        requires
            old(self).is(progress),
        ensures
            final(self).is(progress.with_exact_query(query@, safety_roots@)),
    {
        let ghost before = self.exact_queries@;
        self.exact_safety_fallback_roots.extend_from_slice(safety_roots);
        self.exact_queries.push(query.clone());
        assert(super::request::query_views(self.exact_queries@) =~= super::request::query_views(
            before,
        ).push(query@));
    }

    /// Decide on a request whose answer needs fallback.
    fn plan_fallback<'a, Provider: LightmountSourceDependencyInvalidationContextRootsProvider<Root>>(
        &mut self,
        Ghost(progress): Ghost<SourceProgress<Root>>,
        Ghost(summary): Ghost<SourceSummaryView>,
        dependency: &LightmountDependencyQueryResult,
        selected: &[Root],
        request: &LightmountSourceDependencyInvalidationRequest<'a, Root>,
        provider: &mut Provider,
    ) -> (given: Ghost<Seq<ContextReply<Root>>>)
        requires
            old(self).is(progress),
            dependency@ == summary.answer_to(*request),
        ensures
            ({
                let decided = decide_fallback(progress, summary, selected@, *request, given@[0]);
                &&& final(self).is(decided)
                &&& given@.len() == decided.questions.len() - progress.questions.len()
                &&& final(provider).questions() == old(provider).questions()
                    + decided.questions.skip(progress.questions.len() as int)
                &&& final(provider).replies() == old(provider).replies() + given@
            }),
    {
        let ghost questions = provider.questions();
        let ghost replies = provider.replies();
        let ghost mut given: Seq<ContextReply<Root>> = Seq::empty();
        match (dependency.source_dependency_fallback_handling(), request.context()) {
            (LightmountDependencyFallbackHandling::ContextRoots(reasons), Some(context)) => {
                let context_plan = LightmountDependencyContextRootPlan::new(
                    dependency,
                    request.query().allows_direct_previous_following_sibling_fallback(),
                );
                let fallback = provider.context_roots_for_source_dependency(
                    request.query().root(),
                    context_plan,
                    context,
                );
                let ghost question = question_of(summary, *request);
                proof {
                    given = given.push(
                        ContextReply {
                            requires_source_fallback: fallback.requires_source_fallback,
                            roots: fallback.roots@,
                        },
                    );
                    lemma_one_exchange(progress, question, questions, replies, given[0]);
                }
                let context_roots = fallback.roots();
                if context_roots.len() > 0 {
                    self.use_context_roots(
                        Ghost(progress.asking(question)),
                        &reasons,
                        context_roots,
                    );
                } else {
                    self.use_source_roots(Ghost(progress.asking(question)), &reasons, selected);
                }
            },
            (LightmountDependencyFallbackHandling::ContextRoots(reasons), None) => {
                self.use_source_roots(Ghost(progress), &reasons, selected);
            },
            (LightmountDependencyFallbackHandling::SourceFallback(reasons), _) => {
                self.use_source_roots(Ghost(progress), &reasons, selected);
            },
        }
        proof {
            lemma_no_exchange(progress, questions, replies);
        }
        Ghost(given)
    }

    /// Decide on a request that can be exact.
    fn plan_exact<'a, Provider: LightmountSourceDependencyInvalidationContextRootsProvider<Root>>(
        &mut self,
        Ghost(progress): Ghost<SourceProgress<Root>>,
        Ghost(summary): Ghost<SourceSummaryView>,
        dependency: &LightmountDependencyQueryResult,
        selected: &[Root],
        request: &LightmountSourceDependencyInvalidationRequest<'a, Root>,
        provider: &mut Provider,
    ) -> (given: Ghost<Seq<ContextReply<Root>>>)
        requires
            old(self).is(progress),
            dependency@ == summary.answer_to(*request),
        ensures
            ({
                let decided = decide_exact(progress, summary, selected@, *request, given@[0]);
                &&& final(self).is(decided)
                &&& given@.len() == decided.questions.len() - progress.questions.len()
                &&& final(provider).questions() == old(provider).questions()
                    + decided.questions.skip(progress.questions.len() as int)
                &&& final(provider).replies() == old(provider).replies() + given@
            }),
    {
        let ghost questions = provider.questions();
        let ghost replies = provider.replies();
        let Some(context) = request.context() else {
            self.run_exact_query(Ghost(progress), request.query(), selected);
            proof {
                lemma_no_exchange(progress, questions, replies);
            }
            return Ghost(Seq::empty());
        };
        let context_plan = LightmountDependencyContextRootPlan::new(
            dependency,
            request.query().allows_direct_previous_following_sibling_fallback(),
        );
        let fallback = provider.context_roots_for_source_dependency(
            request.query().root(),
            context_plan,
            context,
        );
        let ghost question = question_of(summary, *request);
        let ghost asked = progress.asking(question);
        let ghost reply = ContextReply {
            requires_source_fallback: fallback.requires_source_fallback,
            roots: fallback.roots@,
        };
        let ghost given = seq![reply];
        proof {
            lemma_one_exchange(progress, question, questions, replies, reply);
        }
        if fallback.requires_source_fallback() {
            let context_roots = fallback.roots();
            let reasons = dependency.source_invalidation_fallback_reasons();
            if dependency.has_only_direct_relative_previous_sibling_dependency()
                && context_roots.len() > 0 {
                self.use_context_roots(Ghost(asked), &reasons, context_roots);
            } else {
                self.use_source_roots(Ghost(asked), &reasons, selected);
            }
            return Ghost(given);
        }
        let context_roots = fallback.into_roots();
        if dependency.requires_structural_context_fallback_cleanup(
            request.requires_child_list_structural_dependency(),
            request.query().is_universal(),
        ) {
            if context_roots.len() == 0 {
                self.note_missing_roots(
                    Ghost(asked),
                    LightmountSourceInvalidationFallbackReason::InexactEmptyResult,
                );
            } else {
                // Other co-batched queries must remain in the exact-query set
                // because these fallback roots are not required to subsume
                // unrelated custom-state or media-state query targets.
                let mut reasons = OrderedSet::new();
                reasons.insert(LightmountSourceInvalidationFallbackReason::InexactEmptyResult);
                assert(reasons@ =~= seq![
                    LightmountSourceInvalidationFallbackReason::InexactEmptyResult,
                ]);
                self.use_context_roots(Ghost(asked), &reasons, context_roots.as_slice());
            }
            return Ghost(given);
        }
        self.run_exact_query(Ghost(asked), request.query(), context_roots.as_slice());
        Ghost(given)
    }

    /// Decide on a request.
    fn plan_request<'a, Provider: LightmountSourceDependencyInvalidationContextRootsProvider<Root>>(
        &mut self,
        Ghost(progress): Ghost<SourceProgress<Root>>,
        summary: &LightmountSourceDependencySummary,
        selected: &[Root],
        request: &LightmountSourceDependencyInvalidationRequest<'a, Root>,
        provider: &mut Provider,
    ) -> (given: Ghost<Seq<ContextReply<Root>>>)
        requires
            old(self).is(progress),
        ensures
            ({
                let decided = decide(progress, summary@, selected@, *request, given@);
                &&& final(self).is(decided)
                &&& given@.len() == decided.questions.len() - progress.questions.len()
                &&& final(provider).questions() == old(provider).questions()
                    + decided.questions.skip(progress.questions.len() as int)
                &&& final(provider).replies() == old(provider).replies() + given@
            }),
    {
        let ghost questions = provider.questions();
        let ghost replies = provider.replies();
        proof {
            lemma_no_exchange(progress, questions, replies);
        }
        let dependency = summary.query_result(request.query().as_stylo_query());
        if !dependency.has_any_dependency() {
            return Ghost(Seq::empty());
        }
        if request.requires_child_list_structural_dependency()
            && !summary.has_child_list_structural_boundary_dependency_for_request(request)
            && !dependency.has_relative_selector_dependency() {
            return Ghost(Seq::empty());
        }
        if request.requires_relative_previous_sibling_dependency()
            && !dependency.has_relative_previous_sibling_dependency() {
            return Ghost(Seq::empty());
        }
        if dependency.requires_fallback() {
            return self.plan_fallback(
                Ghost(progress),
                Ghost(summary@),
                &dependency,
                selected,
                request,
                provider,
            );
        }
        if lightmount_custom_state_nth_of_dependency_needs_context_fallback(
            summary,
            request,
            &dependency,
        ) {
            if let Some(context) = request.context() {
                let context_plan = LightmountDependencyContextRootPlan::new(
                    &dependency,
                    request.query().allows_direct_previous_following_sibling_fallback(),
                );
                let fallback = provider.context_roots_for_source_dependency(
                    request.query().root(),
                    context_plan,
                    context,
                );
                let ghost question = question_of(summary@, *request);
                let ghost asked = progress.asking(question);
                let ghost reply = ContextReply {
                    requires_source_fallback: fallback.requires_source_fallback,
                    roots: fallback.roots@,
                };
                let ghost first = seq![reply];
                proof {
                    lemma_one_exchange(progress, question, questions, replies, reply);
                }
                let context_roots = fallback.roots();
                if context_roots.len() > 0 {
                    let mut reasons = OrderedSet::new();
                    reasons.insert(LightmountSourceInvalidationFallbackReason::NthOfDependency);
                    assert(reasons@ =~= seq![
                        LightmountSourceInvalidationFallbackReason::NthOfDependency,
                    ]);
                    self.use_context_roots(Ghost(asked), &reasons, context_roots);
                    return Ghost(first);
                }
                let second = self.plan_exact(
                    Ghost(asked),
                    Ghost(summary@),
                    &dependency,
                    selected,
                    request,
                    provider,
                );
                let ghost given = first + second@;
                proof {
                    let decided = decide_exact(asked, summary@, selected@, *request, second@[0]);
                    assert(given[1] == second@[0]);
                    assert(decided.questions =~= asked.questions.push(question));
                    assert(provider.questions() =~= questions + decided.questions.skip(
                        progress.questions.len() as int,
                    ));
                    assert(provider.replies() =~= replies + given);
                }
                return Ghost(given);
            }
        }
        self.plan_exact(
            Ghost(progress),
            Ghost(summary@),
            &dependency,
            selected,
            request,
            provider,
        )
    }
}

proof fn lemma_one_exchange<Root>(
    progress: SourceProgress<Root>,
    question: ContextQuestion<Root>,
    questions: Seq<ContextQuestion<Root>>,
    replies: Seq<ContextReply<Root>>,
    reply: ContextReply<Root>,
)
    ensures
        questions.push(question) == questions + progress.asking(question).questions.skip(
            progress.questions.len() as int,
        ),
        replies.push(reply) == replies + seq![reply],
{
    assert(questions.push(question) =~= questions + progress.asking(question).questions.skip(
        progress.questions.len() as int,
    ));
    assert(replies.push(reply) =~= replies + seq![reply]);
}

proof fn lemma_no_exchange<Root>(
    progress: SourceProgress<Root>,
    questions: Seq<ContextQuestion<Root>>,
    replies: Seq<ContextReply<Root>>,
)
    ensures
        questions == questions + progress.questions.skip(progress.questions.len() as int),
        replies == replies + Seq::<ContextReply<Root>>::empty(),
{
    assert(questions =~= questions + progress.questions.skip(progress.questions.len() as int));
    assert(replies =~= replies + Seq::<ContextReply<Root>>::empty());
}

/// Deciding on a request puts at most two questions, keeps those put before,
/// and looks at no more replies than it puts questions.
pub proof fn lemma_decide_uses_own_replies<'a, Root: Copy>(
    progress: SourceProgress<Root>,
    summary: SourceSummaryView,
    selected: Seq<Root>,
    request: LightmountSourceDependencyInvalidationRequest<'a, Root>,
    replies: Seq<ContextReply<Root>>,
    more: Seq<ContextReply<Root>>,
)
    requires
        replies.len() >= decide(
            progress,
            summary,
            selected,
            request,
            replies,
        ).questions.len() - progress.questions.len(),
    ensures
        ({
            let decided = decide(progress, summary, selected, request, replies);
            &&& decided == decide(progress, summary, selected, request, replies + more)
            &&& progress.questions.is_prefix_of(decided.questions)
            &&& decided.questions.len() <= progress.questions.len() + 2
        }),
{
    let decided = decide(progress, summary, selected, request, replies);
    if replies.len() > 0 {
        assert((replies + more)[0] == replies[0]);
    }
    if replies.len() > 1 {
        assert((replies + more)[1] == replies[1]);
    }
}

/// The decisions for a source look at no more replies than they put questions.
pub proof fn lemma_decide_all_uses_own_replies<'a, Root: Copy>(
    summary: SourceSummaryView,
    selected: Seq<Root>,
    requests: Seq<LightmountSourceDependencyInvalidationRequest<'a, Root>>,
    replies: Seq<ContextReply<Root>>,
    more: Seq<ContextReply<Root>>,
)
    requires
        replies.len() >= decide_all(summary, selected, requests, replies).questions.len(),
    ensures
        decide_all(summary, selected, requests, replies) == decide_all(
            summary,
            selected,
            requests,
            replies + more,
        ),
    decreases requests.len(),
{
    if requests.len() > 0 {
        let before = decide_all(summary, selected, requests.drop_last(), replies);
        let asked = before.questions.len() as int;
        lemma_decide_keeps_questions(
            before,
            summary,
            selected,
            requests.last(),
            replies.skip(asked),
        );
        lemma_decide_all_uses_own_replies(summary, selected, requests.drop_last(), replies, more);
        lemma_decide_uses_own_replies(
            before,
            summary,
            selected,
            requests.last(),
            replies.skip(asked),
            more,
        );
        assert((replies + more).skip(asked) =~= replies.skip(asked) + more);
    }
}

proof fn lemma_decide_keeps_questions<'a, Root: Copy>(
    progress: SourceProgress<Root>,
    summary: SourceSummaryView,
    selected: Seq<Root>,
    request: LightmountSourceDependencyInvalidationRequest<'a, Root>,
    replies: Seq<ContextReply<Root>>,
)
    ensures
        progress.questions.len() <= decide(
            progress,
            summary,
            selected,
            request,
            replies,
        ).questions.len(),
{
}

/// Return source-local invalidation planning for a batch of queries against one
/// source dependency summary.
///
/// The embedder supplies DOM-backed mutation-context roots through
/// `context_roots_provider`; dependency interpretation, fallback priority,
/// exact-safety roots, and source fallback target shape are decided here.
pub fn lightmount_source_dependency_invalidation_plan<
    'a,
    Root: Keyed,
    Provider: LightmountSourceDependencyInvalidationContextRootsProvider<Root>,
>(
    summary: &LightmountSourceDependencySummary,
    selected_fallback_roots: &[Root],
    requests: &[LightmountSourceDependencyInvalidationRequest<'a, Root>],
    context_roots_provider: &mut Provider,
) -> (plan: LightmountSourceDependencyInvalidationSourcePlan<Root>)
    ensures
        ({
            let given = final(context_roots_provider).replies().skip(
                old(context_roots_provider).replies().len() as int,
            );
            let decided = decide_all(summary@, selected_fallback_roots@, requests@, given);
            &&& plan@ == decided.plan(selected_fallback_roots@)
            &&& final(context_roots_provider).questions() == old(
                context_roots_provider,
            ).questions() + decided.questions
            &&& final(context_roots_provider).replies() == old(context_roots_provider).replies()
                + given
            &&& given.len() == decided.questions.len()
        }),
{
    let ghost questions = context_roots_provider.questions();
    let ghost replies = context_roots_provider.replies();
    let ghost mut given: Seq<ContextReply<Root>> = Seq::empty();
    let ghost mut progress: SourceProgress<Root> = SourceProgress::none();
    let mut work: SourceWork<Root> = SourceWork::new();
    let mut index: usize = 0;
    proof {
        assert(requests@.take(0) =~= Seq::empty());
        assert(questions + progress.questions =~= questions);
        assert(replies + given =~= replies);
    }
    while index < requests.len()
        invariant
            index <= requests@.len(),
            work.is(progress),
            progress == decide_all(
                summary@,
                selected_fallback_roots@,
                requests@.take(index as int),
                given,
            ),
            given.len() == progress.questions.len(),
            context_roots_provider.questions() == questions + progress.questions,
            context_roots_provider.replies() == replies + given,
        decreases requests.len() - index,
    {
        let new = work.plan_request(
            Ghost(progress),
            summary,
            selected_fallback_roots,
            &requests[index],
            context_roots_provider,
        );
        proof {
            let prior = requests@.take(index as int);
            let next = requests@.take(index + 1);
            assert(next.drop_last() =~= prior);
            assert(next.last() == requests@[index as int]);
            let decided = decide(
                progress,
                summary@,
                selected_fallback_roots@,
                requests@[index as int],
                new@,
            );
            lemma_decide_all_uses_own_replies(
                summary@,
                selected_fallback_roots@,
                prior,
                given,
                new@,
            );
            lemma_decide_uses_own_replies(
                progress,
                summary@,
                selected_fallback_roots@,
                requests@[index as int],
                new@,
                Seq::empty(),
            );
            assert((given + new@).skip(given.len() as int) =~= new@);
            assert(questions + decided.questions =~= (questions + progress.questions)
                + decided.questions.skip(progress.questions.len() as int));
            assert(replies + (given + new@) =~= (replies + given) + new@);
            progress = decided;
            given = given + new@;
        }
        index = index + 1;
    }
    proof {
        assert(requests@.take(requests@.len() as int) =~= requests@);
        assert((replies + given).skip(replies.len() as int) =~= given);
    }
    if !work.missing_fallback_root_reasons.is_empty() {
        return lightmount_source_dependency_requires_source_fallback_plan(
            selected_fallback_roots,
            work.missing_fallback_root_reasons,
        );
    }
    LightmountSourceDependencyInvalidationSourcePlan::work(
        LightmountPlannedSourceDependencyInvalidationTarget::from_source_dependency_work_parts(
            work.exact_queries,
            work.fallback_kind,
            work.reasoned_fallback_roots.into_vec(),
            work.exact_safety_fallback_roots.into_vec(),
            work.fallback_reasons,
        ),
    )
}

/// Return the plan of a source whose fallback roots are missing.
pub fn lightmount_source_dependency_requires_source_fallback_plan<Root: Copy>(
    selected_fallback_roots: &[Root],
    fallback_reasons: OrderedSet<LightmountSourceInvalidationFallbackReason>,
) -> (plan: LightmountSourceDependencyInvalidationSourcePlan<Root>)
    ensures
        plan@ == (SourcePlanView::RequiresSourceFallback {
            target: PlannedTargetView::source_fallback(selected_fallback_roots@, fallback_reasons@),
        }),
{
    LightmountSourceDependencyInvalidationSourcePlan::requires_source_fallback(
        LightmountPlannedSourceDependencyInvalidationTarget::source_dependency_fallback(
            copy_slice(selected_fallback_roots),
            fallback_reasons,
        ),
    )
}

/// Return whether a custom-state query may stand for `:nth-child(... of ...)`.
pub fn lightmount_custom_state_nth_of_dependency_needs_context_fallback<'a, Root: Copy>(
    summary: &LightmountSourceDependencySummary,
    request: &LightmountSourceDependencyInvalidationRequest<'a, Root>,
    dependency: &LightmountDependencyQueryResult,
) -> (needs: bool)
    ensures
        needs == (request.query@.shape is CustomState && summary@.structural
            && dependency@.affects_siblings() && dependency@.reasons.len() == 0),
{
    matches!(
        request.query().kind,
        LightmountRetainedStyleInvalidationQueryKind::CustomState { .. }
    ) && summary.has_child_list_structural_dependency() && dependency.has_sibling_dependency()
        && !dependency.requires_fallback()
}

} // verus!
