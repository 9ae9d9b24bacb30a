//! Kinds of retained source inputs and of source results.

use vstd::prelude::*;

use super::reasons::LightmountSourceInvalidationFallbackReason;

verus! {

/// Whether a retained source had fallback roots available while producing its
/// source-local result.
#[derive(Clone, Copy, Debug, PartialEq, Eq, Hash, Structural)]
pub enum LightmountSourceFallbackRootAvailability {
    /// Source fallback roots were available.
    Available {
        /// Number of available fallback roots.
        root_count: usize,
    },
    /// Source fallback roots were required but unavailable.
    Missing,
}

impl LightmountSourceFallbackRootAvailability {
    /// The availability that a number of roots stands for: none is reported
    /// where there are no roots.
    pub open spec fn of_count(root_count: nat) -> Option<Self> {
        if root_count > 0 {
            Some(Self::Available { root_count: root_count as usize })
        } else {
            None
        }
    }

    /// Returns source fallback root availability for a concrete root count.
    pub fn for_root_count(root_count: usize) -> (availability: Option<Self>)
        ensures
            availability == Self::of_count(root_count as nat),
    {
        if root_count > 0 {
            Some(Self::Available { root_count })
        } else {
            None
        }
    }
}

/// One retained stylesheet source input for a source-aware invalidation batch.
#[derive(Clone, Copy, Debug, PartialEq, Eq, Hash, Structural)]
pub enum LightmountRetainedSourceStyleInvalidationKind {
    /// Run retained invalidation queries against this source's cascade data.
    RetainedQueries,
    /// Apply the source's fallback roots without retained queries.
    FallbackOnly,
    /// Apply mutation-context fallback roots without retained queries.
    ContextFallback,
    /// Apply fallback roots from a conservative source-scope fallback.
    SourceScopeFallback,
    /// The source required fallback roots, but none were available.
    MissingFallbackRoots,
}

/// How one retained source invalidation input was resolved.
#[derive(Clone, Copy, Debug, PartialEq, Eq, Hash, Structural)]
pub enum LightmountSourceStyleInvalidationSourceResultKind {
    /// The retained invalidator produced an exact-enough result for this source.
    Exact,
    /// The source intentionally carried fallback roots without retained queries.
    FallbackOnly,
    /// The source used mutation-context roots for a dependency that cannot be
    /// reported as exact affected handles.
    ContextFallback,
    /// The source fell back to the wider source scope because no narrower
    /// cause/source-local roots could represent the invalidation safely.
    SourceScopeFallback,
    /// The batch needed source fallback roots, but none were available.
    MissingFallbackRoots,
    /// The retained style system was unavailable for this source query.
    MissingRetainedStyleSystem,
    /// The retained style system was available, but did not have per-source
    /// cascade data for this source query.
    MissingRetainedCascadeData,
    /// The source could not be answered exactly and used fallback roots, or
    /// requested a wider fallback when no source-local fallback roots were
    /// available. See fallback reasons on the source result for why.
    Fallback,
}

impl LightmountRetainedSourceStyleInvalidationKind {
    /// How conservative this kind is; the greater rank wins a merge.
    pub open spec fn rank(self) -> int {
        match self {
            Self::ContextFallback => 0,
            Self::FallbackOnly => 1,
            Self::SourceScopeFallback => 2,
            Self::MissingFallbackRoots => 3,
            Self::RetainedQueries => 4,
        }
    }

    /// The kind of greater rank.
    pub open spec fn merge(self, incoming: Self) -> Self {
        if self.rank() < incoming.rank() {
            incoming
        } else {
            self
        }
    }

    /// Merge two kinds using the conservative priority needed when co-batching
    /// source dependency targets.
    pub fn merged_with(self, incoming: Self) -> (merged: Self)
        ensures
            merged == self.merge(incoming),
    {
        if self == Self::RetainedQueries || incoming == Self::RetainedQueries {
            return Self::RetainedQueries;
        }
        if self == Self::MissingFallbackRoots || incoming == Self::MissingFallbackRoots {
            return Self::MissingFallbackRoots;
        }
        if self == Self::SourceScopeFallback || incoming == Self::SourceScopeFallback {
            return Self::SourceScopeFallback;
        }
        if self == Self::FallbackOnly || incoming == Self::FallbackOnly {
            return Self::FallbackOnly;
        }
        Self::ContextFallback
    }

    /// Whether this kind carries retained invalidation queries.
    pub open spec fn has_queries(self) -> bool {
        self == Self::RetainedQueries
    }

    /// Returns whether this kind carries retained invalidation queries.
    pub fn carries_retained_queries(self) -> (carries: bool)
        ensures
            carries == self.has_queries(),
    {
        self == Self::RetainedQueries
    }

    /// Whether this kind can be represented as a fallback-root target.
    pub open spec fn targets_fallback_root(self) -> bool {
        self == Self::FallbackOnly || self == Self::SourceScopeFallback
    }

    /// Returns whether this kind can be represented as a fallback-root target.
    pub fn can_target_fallback_root(self) -> (can: bool)
        ensures
            can == self.targets_fallback_root(),
    {
        matches!(self, Self::FallbackOnly | Self::SourceScopeFallback)
    }

    /// The source result kind represented by this retained source kind.
    pub open spec fn result_kind(
        self,
        has_fallback_reasons: bool,
    ) -> LightmountSourceStyleInvalidationSourceResultKind {
        match self {
            Self::RetainedQueries => LightmountSourceStyleInvalidationSourceResultKind::Fallback,
            Self::FallbackOnly => if has_fallback_reasons {
                LightmountSourceStyleInvalidationSourceResultKind::Fallback
            } else {
                LightmountSourceStyleInvalidationSourceResultKind::FallbackOnly
            },
            Self::ContextFallback => {
                LightmountSourceStyleInvalidationSourceResultKind::ContextFallback
            },
            Self::SourceScopeFallback => {
                LightmountSourceStyleInvalidationSourceResultKind::SourceScopeFallback
            },
            Self::MissingFallbackRoots => {
                LightmountSourceStyleInvalidationSourceResultKind::MissingFallbackRoots
            },
        }
    }

    /// Returns the source result kind represented by this retained source kind.
    pub fn fallback_source_result_kind(self, has_fallback_reasons: bool) -> (kind:
        LightmountSourceStyleInvalidationSourceResultKind)
        ensures
            kind == self.result_kind(has_fallback_reasons),
    {
        match self {
            Self::RetainedQueries => LightmountSourceStyleInvalidationSourceResultKind::Fallback,
            Self::FallbackOnly if has_fallback_reasons => {
                LightmountSourceStyleInvalidationSourceResultKind::Fallback
            },
            Self::FallbackOnly => LightmountSourceStyleInvalidationSourceResultKind::FallbackOnly,
            Self::ContextFallback => {
                LightmountSourceStyleInvalidationSourceResultKind::ContextFallback
            },
            Self::SourceScopeFallback => {
                LightmountSourceStyleInvalidationSourceResultKind::SourceScopeFallback
            },
            Self::MissingFallbackRoots => {
                LightmountSourceStyleInvalidationSourceResultKind::MissingFallbackRoots
            },
        }
    }

    /// The fallback root availability represented by this kind and a number of
    /// fallback roots.
    pub open spec fn availability(
        self,
        fallback_root_count: nat,
    ) -> Option<LightmountSourceFallbackRootAvailability> {
        if self == Self::MissingFallbackRoots {
            Some(LightmountSourceFallbackRootAvailability::Missing)
        } else {
            LightmountSourceFallbackRootAvailability::of_count(fallback_root_count)
        }
    }

    /// Returns fallback root availability represented by this source kind and
    /// the number of fallback roots available to it.
    pub fn fallback_root_availability(self, fallback_root_count: usize) -> (availability: Option<
        LightmountSourceFallbackRootAvailability,
    >)
        ensures
            availability == self.availability(fallback_root_count as nat),
    {
        if self == Self::MissingFallbackRoots {
            return Some(LightmountSourceFallbackRootAvailability::Missing);
        }
        LightmountSourceFallbackRootAvailability::for_root_count(fallback_root_count)
    }

    /// The fallback reason implied directly by this kind, if any.
    pub open spec fn implied_reason(self) -> Option<LightmountSourceInvalidationFallbackReason> {
        match self {
            Self::SourceScopeFallback => {
                Some(LightmountSourceInvalidationFallbackReason::SourceScopeFallback)
            },
            Self::MissingFallbackRoots => {
                Some(LightmountSourceInvalidationFallbackReason::MissingFallbackRoots)
            },
            _ => None,
        }
    }

    /// Returns the fallback reason implied directly by this kind, if any.
    pub fn fallback_reason(self) -> (reason: Option<LightmountSourceInvalidationFallbackReason>)
        ensures
            reason == self.implied_reason(),
    {
        match self {
            Self::SourceScopeFallback => {
                Some(LightmountSourceInvalidationFallbackReason::SourceScopeFallback)
            },
            Self::MissingFallbackRoots => {
                Some(LightmountSourceInvalidationFallbackReason::MissingFallbackRoots)
            },
            Self::RetainedQueries | Self::FallbackOnly | Self::ContextFallback => None,
        }
    }
}

/// Merging kinds does not depend on their order or grouping, and merging a
/// kind with itself changes nothing.
pub proof fn lemma_kind_merge_is_semilattice(
    first: LightmountRetainedSourceStyleInvalidationKind,
    second: LightmountRetainedSourceStyleInvalidationKind,
    third: LightmountRetainedSourceStyleInvalidationKind,
)
    ensures
        first.merge(second) == second.merge(first),
        first.merge(second).merge(third) == first.merge(second.merge(third)),
        first.merge(first) == first,
{
}

/// Retained queries absorb every other kind, and nothing else produces them.
pub proof fn lemma_kind_merge_keeps_retained_queries(
    first: LightmountRetainedSourceStyleInvalidationKind,
    second: LightmountRetainedSourceStyleInvalidationKind,
)
    ensures
        first.merge(second).has_queries() <==> first.has_queries() || second.has_queries(),
{
}

/// Merge two retained source invalidation kinds using the source result
/// priority.
pub fn lightmount_merge_retained_source_invalidation_kind(
    existing: LightmountRetainedSourceStyleInvalidationKind,
    incoming: LightmountRetainedSourceStyleInvalidationKind,
) -> (merged: LightmountRetainedSourceStyleInvalidationKind)
    ensures
        merged == existing.merge(incoming),
{
    existing.merged_with(incoming)
}

/// Return whether this kind can be used as a fallback-root payload instead of
/// retained source-local queries.
pub fn lightmount_retained_source_invalidation_kind_can_use_fallback_payload(
    kind: LightmountRetainedSourceStyleInvalidationKind,
) -> (can: bool)
    ensures
        can == !kind.has_queries(),
{
    !kind.carries_retained_queries()
}

/// The merge of two optional kinds, where an absent kind changes nothing.
pub open spec fn merge_fallback_kinds(
    existing: Option<LightmountRetainedSourceStyleInvalidationKind>,
    incoming: Option<LightmountRetainedSourceStyleInvalidationKind>,
) -> Option<LightmountRetainedSourceStyleInvalidationKind> {
    match (existing, incoming) {
        (Some(existing), Some(incoming)) => Some(existing.merge(incoming)),
        (None, _) => incoming,
        (_, None) => existing,
    }
}

/// Merge optional fallback-root retained source kinds.
///
/// `RetainedQueries` is intentionally rejected here because this helper only
/// describes fallback-root target priority for retained-query sources.
pub fn lightmount_merge_retained_source_invalidation_fallback_kind(
    existing: Option<LightmountRetainedSourceStyleInvalidationKind>,
    incoming: Option<LightmountRetainedSourceStyleInvalidationKind>,
) -> (merged: Option<LightmountRetainedSourceStyleInvalidationKind>)
    requires
        incoming is Some ==> !incoming->0.has_queries() && (existing is Some
            ==> !existing->0.has_queries()),
    ensures
        merged == merge_fallback_kinds(existing, incoming),
{
    let Some(incoming) = incoming else {
        return existing;
    };
    match existing {
        Some(existing) => Some(existing.merged_with(incoming)),
        None => Some(incoming),
    }
}

/// Merging optional kinds does not depend on their order or grouping, and no
/// fallback kinds ever merge into retained queries.
pub proof fn lemma_fallback_kind_merge(
    first: Option<LightmountRetainedSourceStyleInvalidationKind>,
    second: Option<LightmountRetainedSourceStyleInvalidationKind>,
    third: Option<LightmountRetainedSourceStyleInvalidationKind>,
)
    ensures
        merge_fallback_kinds(first, second) == merge_fallback_kinds(second, first),
        merge_fallback_kinds(merge_fallback_kinds(first, second), third) == merge_fallback_kinds(
            first,
            merge_fallback_kinds(second, third),
        ),
        (first is Some ==> !first->0.has_queries()) && (second is Some
            ==> !second->0.has_queries()) ==> (merge_fallback_kinds(first, second) is Some
            ==> !merge_fallback_kinds(first, second)->0.has_queries()),
{
}

/// A category that a source-result kind is counted under.
#[derive(Clone, Copy, Debug, PartialEq, Eq, Structural)]
pub enum SourceResultCategory {
    /// The retained system or its cascade data was unavailable.
    RetainedSourceUnavailable,
    /// A source-scope fallback target.
    SourceScopeFallback,
    /// A context-fallback target.
    ContextFallback,
}

/// Sink used to summarize retained source-result kind categories.
pub trait LightmountSourceStyleInvalidationSourceResultKindSummarySink {
    /// The categories recorded so far.
    open spec fn categories(&self) -> Seq<SourceResultCategory> {
        Seq::empty()
    }

    /// Record a retained source target whose retained system or cascade data was
    /// unavailable.
    fn record_retained_source_unavailable_target(&mut self)
        ensures
            final(self).categories() == old(self).categories().push(
                SourceResultCategory::RetainedSourceUnavailable,
            ),
    ;

    /// Record a source-scope fallback target.
    fn record_source_scope_fallback_target(&mut self)
        ensures
            final(self).categories() == old(self).categories().push(
                SourceResultCategory::SourceScopeFallback,
            ),
    ;

    /// Record a context-fallback target.
    fn record_context_fallback_target(&mut self)
        ensures
            final(self).categories() == old(self).categories().push(
                SourceResultCategory::ContextFallback,
            ),
    ;
}

/// Summary view for retained source-result kind categories.
pub trait LightmountSourceStyleInvalidationSourceResultKindSummary {
    /// The categories that this value is counted under.
    open spec fn summary_categories(&self) -> Seq<SourceResultCategory> {
        Seq::empty()
    }

    /// Record summary counters into a runtime-owned sink.
    fn record_summary_into<Sink: LightmountSourceStyleInvalidationSourceResultKindSummarySink>(
        &self,
        target: &mut Sink,
    )
        ensures
            final(target).categories() == old(target).categories() + self.summary_categories(),
    ;
}

impl LightmountSourceStyleInvalidationSourceResultKindSummary for LightmountSourceStyleInvalidationSourceResultKind {
    open spec fn summary_categories(&self) -> Seq<SourceResultCategory> {
        match *self {
            Self::MissingRetainedStyleSystem | Self::MissingRetainedCascadeData => seq![
                SourceResultCategory::RetainedSourceUnavailable,
            ],
            Self::SourceScopeFallback => seq![SourceResultCategory::SourceScopeFallback],
            Self::ContextFallback => seq![SourceResultCategory::ContextFallback],
            _ => seq![],
        }
    }

    fn record_summary_into<Sink: LightmountSourceStyleInvalidationSourceResultKindSummarySink>(
        &self,
        target: &mut Sink,
    ) {
        let ghost before = target.categories();
        match self {
            Self::MissingRetainedStyleSystem | Self::MissingRetainedCascadeData => {
                target.record_retained_source_unavailable_target();
            },
            Self::SourceScopeFallback => {
                target.record_source_scope_fallback_target();
            },
            Self::ContextFallback => {
                target.record_context_fallback_target();
            },
            _ => {},
        }
        assert(target.categories() =~= before + self.summary_categories());
    }
}

/// Sink used to summarize retained source fallback-root availability.
pub trait LightmountSourceFallbackRootAvailabilitySummarySink {
    /// The number of targets recorded so far.
    open spec fn missing_targets(&self) -> nat {
        0
    }

    /// Record a target that required fallback roots but did not have them.
    fn record_missing_fallback_roots_target(&mut self)
        ensures
            final(self).missing_targets() == old(self).missing_targets() + 1,
    ;
}

/// Summary view for retained source fallback-root availability.
pub trait LightmountSourceFallbackRootAvailabilitySummary {
    /// Whether fallback roots were required but unavailable.
    open spec fn is_missing(&self) -> bool {
        false
    }

    /// Record summary counters into a runtime-owned sink.
    fn record_summary_into<Sink: LightmountSourceFallbackRootAvailabilitySummarySink>(
        &self,
        target: &mut Sink,
    )
        ensures
            final(target).missing_targets() == old(target).missing_targets() + if self.is_missing() {
                1nat
            } else {
                0nat
            },
    ;
}

impl LightmountSourceFallbackRootAvailabilitySummary for LightmountSourceFallbackRootAvailability {
    open spec fn is_missing(&self) -> bool {
        *self == Self::Missing
    }

    fn record_summary_into<Sink: LightmountSourceFallbackRootAvailabilitySummarySink>(
        &self,
        target: &mut Sink,
    ) {
        if matches!(self, Self::Missing) {
            target.record_missing_fallback_roots_target();
        }
    }
}

} // verus!
