//! The table of source results of an invalidation batch.

use vstd::prelude::*;

use super::lists::copy_slice;
use super::ordered_set::{Keyed, OrderedSet};
use super::query_result::{LightmountSourceStyleInvalidationResult, SourceInvalidationView};
use super::reasons::LightmountSourceInvalidationFallbackReason;
use super::retained_kind::{
    LightmountRetainedSourceStyleInvalidationKind, LightmountSourceFallbackRootAvailability,
    LightmountSourceStyleInvalidationSourceResultKind,
};

verus! {

/// The content of a source-result row.
pub struct SourceResultView<Root> {
    /// The stylesheet source index.
    pub source_index: usize,
    /// How the source was resolved.
    pub kind: LightmountSourceStyleInvalidationSourceResultKind,
    /// The row claims to be exact.
    pub exact: bool,
    /// Whether an empty result means that nothing is affected.
    pub empty_result_is_exact: bool,
    /// The number of dependencies that matched.
    pub matched: usize,
    /// Why the row is not exact.
    pub reasons: Seq<LightmountSourceInvalidationFallbackReason>,
    /// Whether fallback roots were there.
    pub availability: Option<LightmountSourceFallbackRootAvailability>,
    /// The affected roots.
    pub roots: Seq<Root>,
}

/// The content of diagnostic facts.
pub struct DiagnosticFactsView {
    /// How the source was resolved.
    pub kind: LightmountSourceStyleInvalidationSourceResultKind,
    /// The row claims to be exact.
    pub exact: bool,
    /// Whether an empty result means that nothing is affected.
    pub empty_result_is_exact: bool,
    /// The number of dependencies that matched.
    pub matched: usize,
    /// Why the row is not exact.
    pub reasons: Seq<LightmountSourceInvalidationFallbackReason>,
    /// Whether fallback roots were there.
    pub availability: Option<LightmountSourceFallbackRootAvailability>,
    /// The number of affected roots.
    pub root_count: nat,
}

/// The content of cleanup facts.
pub struct CleanupFactsView {
    /// The reasons that put the cleanup into context.
    pub context_reasons: Seq<LightmountSourceInvalidationFallbackReason>,
    /// The reasons for clearing everything; without any, nothing more than the
    /// affected roots is cleared.
    pub clear_all_reasons: Seq<LightmountSourceInvalidationFallbackReason>,
    /// Clearing everything reports the context too.
    pub include_context: bool,
    /// The row is not exact.
    pub requires_fallback: bool,
}

/// The content of a row's record.
pub struct RecordView {
    /// The cleanup facts.
    pub cleanup: CleanupFactsView,
    /// The diagnostic facts, where they are retained.
    pub diagnostics: Option<DiagnosticFactsView>,
}

/// The content of the parts of a row.
pub struct RowPartsView<Root> {
    /// The stylesheet source index.
    pub source_index: usize,
    /// What the affected roots are for.
    pub root_kind: LightmountSourceAffectedRootKind,
    /// The affected roots.
    pub roots: Seq<Root>,
    /// The record of the row.
    pub record: RecordView,
}

/// The kinds whose cleanup reports the fallback context too: the retained
/// system or its data was not there.
pub open spec fn kind_includes_context(
    kind: LightmountSourceStyleInvalidationSourceResultKind,
) -> bool {
    ||| kind == LightmountSourceStyleInvalidationSourceResultKind::MissingRetainedStyleSystem
    ||| kind == LightmountSourceStyleInvalidationSourceResultKind::MissingRetainedCascadeData
}

impl<Root> SourceResultView<Root> {
    /// The row of an exact result.
    pub open spec fn exact_row(
        source_index: usize,
        roots: Seq<Root>,
        empty_result_is_exact: bool,
        matched: usize,
    ) -> Self {
        SourceResultView {
            source_index,
            kind: LightmountSourceStyleInvalidationSourceResultKind::Exact,
            exact: true,
            empty_result_is_exact,
            matched,
            reasons: Seq::empty(),
            availability: None,
            roots,
        }
    }

    /// Whether the row is exact.
    pub open spec fn is_exact(self) -> bool {
        &&& self.exact
        &&& self.kind == LightmountSourceStyleInvalidationSourceResultKind::Exact
        &&& self.reasons.len() == 0
    }

    /// Whether needed fallback roots are missing, or nothing stands against the
    /// reasons of the row.
    pub open spec fn lacks_fallback_roots(self) -> bool {
        ||| self.availability == Some(LightmountSourceFallbackRootAvailability::Missing)
        ||| self.reasons.len() > 0 && self.roots.len() == 0
    }

    /// The reasons for clearing everything.
    pub open spec fn clear_all_reasons(self) -> Seq<LightmountSourceInvalidationFallbackReason> {
        if self.lacks_fallback_roots() {
            let reasons = super::ordered_set::extend_unique(Seq::empty(), self.reasons);
            if self.availability == Some(LightmountSourceFallbackRootAvailability::Missing) {
                super::ordered_set::push_unique(
                    reasons,
                    LightmountSourceInvalidationFallbackReason::MissingFallbackRoots,
                )
            } else {
                reasons
            }
        } else if self.roots.len() == 0 && !(self.is_exact() && self.empty_result_is_exact) {
            seq![LightmountSourceInvalidationFallbackReason::InexactEmptyResult]
        } else {
            seq![]
        }
    }

    /// What the affected roots are for.
    pub open spec fn root_kind(self) -> LightmountSourceAffectedRootKind {
        if self.is_exact() {
            LightmountSourceAffectedRootKind::Exact
        } else {
            LightmountSourceAffectedRootKind::SourceFallback
        }
    }

    /// The cleanup facts of the row.
    pub open spec fn cleanup(self) -> CleanupFactsView {
        CleanupFactsView {
            context_reasons: self.reasons,
            clear_all_reasons: self.clear_all_reasons(),
            include_context: kind_includes_context(self.kind),
            requires_fallback: !self.is_exact(),
        }
    }

    /// The diagnostic facts of the row.
    pub open spec fn diagnostics(self) -> DiagnosticFactsView {
        DiagnosticFactsView {
            kind: self.kind,
            exact: self.exact,
            empty_result_is_exact: self.empty_result_is_exact,
            matched: self.matched,
            reasons: self.reasons,
            availability: self.availability,
            root_count: self.roots.len(),
        }
    }

    /// The parts of the row, with or without diagnostic facts.
    pub open spec fn parts(self, retain_diagnostics: bool) -> RowPartsView<Root> {
        RowPartsView {
            source_index: self.source_index,
            root_kind: self.root_kind(),
            roots: self.roots,
            record: RecordView {
                cleanup: self.cleanup(),
                diagnostics: if retain_diagnostics {
                    Some(self.diagnostics())
                } else {
                    None
                },
            },
        }
    }
}

/// A row without roots that is not an exact no-op clears everything, so that no
/// affected element keeps an old style. An exact row with roots clears nothing
/// more than those.
pub proof fn lemma_empty_inexact_row_clears_all<Root>(row: SourceResultView<Root>)
    ensures
        row.roots.len() == 0 && !(row.is_exact() && row.empty_result_is_exact)
            ==> row.clear_all_reasons().len() > 0,
        row.availability == Some(LightmountSourceFallbackRootAvailability::Missing)
            ==> row.clear_all_reasons().contains(
            LightmountSourceInvalidationFallbackReason::MissingFallbackRoots,
        ),
        row.availability is None && row.roots.len() > 0 ==> row.clear_all_reasons().len() == 0,
        row.clear_all_reasons().no_duplicates(),
{
    let missing = LightmountSourceInvalidationFallbackReason::MissingFallbackRoots;
    let reasons = super::ordered_set::extend_unique(Seq::empty(), row.reasons);
    super::ordered_set::lemma_extend_unique_no_duplicates(Seq::empty(), row.reasons);
    super::lists::lemma_contains_push(reasons, missing, missing);
    if row.reasons.len() > 0 {
        super::ordered_set::lemma_extend_unique_contains(
            Seq::empty(),
            row.reasons,
            row.reasons[0],
        );
        assert(row.reasons.contains(row.reasons[0]));
    }
}

/// One source in a retained source invalidation batch and how it was resolved.
#[derive(Debug, PartialEq, Eq)]
pub struct LightmountSourceStyleInvalidationSourceResult<Root> {
    /// The stylesheet source index.
    pub source_index: usize,
    /// How the source was resolved.
    pub kind: LightmountSourceStyleInvalidationSourceResultKind,
    /// The row claims to be exact.
    pub exact: bool,
    /// Whether an empty result means that nothing is affected.
    pub empty_result_is_exact: bool,
    /// The number of dependencies that matched.
    pub matched_dependency_count: usize,
    /// Why the row is not exact.
    pub fallback_reasons: Vec<LightmountSourceInvalidationFallbackReason>,
    /// Whether fallback roots were there.
    pub fallback_root_availability: Option<LightmountSourceFallbackRootAvailability>,
    /// The affected roots.
    pub affected_roots: Vec<Root>,
}

impl<Root: Copy> Clone for LightmountSourceStyleInvalidationSourceResult<Root> {
    fn clone(&self) -> (row: Self)
        ensures
            row@ == self@,
    {
        Self {
            source_index: self.source_index,
            kind: self.kind,
            exact: self.exact,
            empty_result_is_exact: self.empty_result_is_exact,
            matched_dependency_count: self.matched_dependency_count,
            fallback_reasons: copy_slice(self.fallback_reasons.as_slice()),
            fallback_root_availability: self.fallback_root_availability,
            affected_roots: copy_slice(self.affected_roots.as_slice()),
        }
    }
}

impl<Root> View for LightmountSourceStyleInvalidationSourceResult<Root> {
    type V = SourceResultView<Root>;

    open spec fn view(&self) -> SourceResultView<Root> {
        SourceResultView {
            source_index: self.source_index,
            kind: self.kind,
            exact: self.exact,
            empty_result_is_exact: self.empty_result_is_exact,
            matched: self.matched_dependency_count,
            reasons: self.fallback_reasons@,
            availability: self.fallback_root_availability,
            roots: self.affected_roots@,
        }
    }
}

/// Diagnostic facts for one retained source-result row.
#[derive(Debug, PartialEq, Eq)]
pub struct LightmountSourceStyleInvalidationTargetResultDiagnosticFacts {
    /// How the source was resolved.
    pub kind: LightmountSourceStyleInvalidationSourceResultKind,
    /// The row claims to be exact.
    pub exact: bool,
    /// Whether an empty result means that nothing is affected.
    pub empty_result_is_exact: bool,
    /// The number of dependencies that matched.
    pub matched_dependency_count: usize,
    /// Why the row is not exact.
    pub fallback_reasons: Vec<LightmountSourceInvalidationFallbackReason>,
    /// Whether fallback roots were there.
    pub fallback_root_availability: Option<LightmountSourceFallbackRootAvailability>,
    /// The number of affected roots.
    pub affected_root_count: usize,
}

impl Clone for LightmountSourceStyleInvalidationTargetResultDiagnosticFacts {
    fn clone(&self) -> (facts: Self)
        ensures
            facts@ == self@,
    {
        Self {
            kind: self.kind,
            exact: self.exact,
            empty_result_is_exact: self.empty_result_is_exact,
            matched_dependency_count: self.matched_dependency_count,
            fallback_reasons: copy_slice(self.fallback_reasons.as_slice()),
            fallback_root_availability: self.fallback_root_availability,
            affected_root_count: self.affected_root_count,
        }
    }
}

impl View for LightmountSourceStyleInvalidationTargetResultDiagnosticFacts {
    type V = DiagnosticFactsView;

    open spec fn view(&self) -> DiagnosticFactsView {
        DiagnosticFactsView {
            kind: self.kind,
            exact: self.exact,
            empty_result_is_exact: self.empty_result_is_exact,
            matched: self.matched_dependency_count,
            reasons: self.fallback_reasons@,
            availability: self.fallback_root_availability,
            root_count: self.affected_root_count as nat,
        }
    }
}

/// Cleanup facts for one retained source-result row.
#[derive(Debug, PartialEq, Eq)]
pub struct LightmountSourceStyleInvalidationTargetResultCleanupFacts {
    /// The reasons that put the cleanup into context.
    pub fallback_context_reasons: Vec<LightmountSourceInvalidationFallbackReason>,
    /// The reasons for clearing everything.
    pub clear_all_cleanup_reasons: Vec<LightmountSourceInvalidationFallbackReason>,
    /// Clearing everything reports the context too.
    pub include_fallback_context_for_clear_all: bool,
    /// The row is not exact.
    pub requires_fallback_handling: bool,
}

impl Clone for LightmountSourceStyleInvalidationTargetResultCleanupFacts {
    fn clone(&self) -> (facts: Self)
        ensures
            facts@ == self@,
    {
        Self {
            fallback_context_reasons: copy_slice(self.fallback_context_reasons.as_slice()),
            clear_all_cleanup_reasons: copy_slice(self.clear_all_cleanup_reasons.as_slice()),
            include_fallback_context_for_clear_all: self.include_fallback_context_for_clear_all,
            requires_fallback_handling: self.requires_fallback_handling,
        }
    }
}

impl View for LightmountSourceStyleInvalidationTargetResultCleanupFacts {
    type V = CleanupFactsView;

    open spec fn view(&self) -> CleanupFactsView {
        CleanupFactsView {
            context_reasons: self.fallback_context_reasons@,
            clear_all_reasons: self.clear_all_cleanup_reasons@,
            include_context: self.include_fallback_context_for_clear_all,
            requires_fallback: self.requires_fallback_handling,
        }
    }
}

/// Cleanup and optional diagnostic facts for one retained source-result row.
#[derive(Debug, PartialEq, Eq)]
pub struct LightmountSourceStyleInvalidationTargetResultRecord {
    /// The cleanup facts.
    pub cleanup_facts: LightmountSourceStyleInvalidationTargetResultCleanupFacts,
    /// The diagnostic facts, where they are retained.
    pub diagnostic_facts: Option<LightmountSourceStyleInvalidationTargetResultDiagnosticFacts>,
}

impl Clone for LightmountSourceStyleInvalidationTargetResultRecord {
    fn clone(&self) -> (record: Self)
        ensures
            record@ == self@,
    {
        Self {
            cleanup_facts: self.cleanup_facts.clone(),
            diagnostic_facts: match &self.diagnostic_facts {
                Some(facts) => Some(facts.clone()),
                None => None,
            },
        }
    }
}

impl View for LightmountSourceStyleInvalidationTargetResultRecord {
    type V = RecordView;

    open spec fn view(&self) -> RecordView {
        RecordView {
            cleanup: self.cleanup_facts@,
            diagnostics: match self.diagnostic_facts {
                Some(facts) => Some(facts@),
                None => None,
            },
        }
    }
}

/// Drainable parts for one retained source-result row.
#[derive(Debug, PartialEq, Eq)]
pub struct LightmountSourceStyleInvalidationSourceResultParts<Root> {
    /// The stylesheet source index.
    pub source_index: usize,
    /// The affected roots.
    pub affected_roots: LightmountSourceAffectedRootsCleanup<Root>,
    /// The record of the row.
    pub target_result_record: LightmountSourceStyleInvalidationTargetResultRecord,
}

impl<Root> View for LightmountSourceStyleInvalidationSourceResultParts<Root> {
    type V = RowPartsView<Root>;

    open spec fn view(&self) -> RowPartsView<Root> {
        RowPartsView {
            source_index: self.source_index,
            root_kind: self.affected_roots.kind,
            roots: self.affected_roots.roots@,
            record: self.target_result_record@,
        }
    }
}

/// Affected roots classified for exact cleanup or source-fallback cleanup.
#[derive(Debug, PartialEq, Eq)]
pub struct LightmountSourceAffectedRootsCleanup<Root> {
    /// What the roots are for.
    pub kind: LightmountSourceAffectedRootKind,
    /// The roots.
    pub roots: Vec<Root>,
}

impl<Root: Copy> Clone for LightmountSourceAffectedRootsCleanup<Root> {
    fn clone(&self) -> (cleanup: Self)
        ensures
            cleanup.kind == self.kind,
            cleanup.roots@ == self.roots@,
    {
        Self { kind: self.kind, roots: copy_slice(self.roots.as_slice()) }
    }
}

/// What affected roots are for.
#[derive(Clone, Copy, Debug, PartialEq, Eq, Structural)]
pub enum LightmountSourceAffectedRootKind {
    /// Exact cleanup.
    Exact,
    /// Source-fallback cleanup.
    SourceFallback,
}

/// Sink used to drain diagnostic facts for one retained source-result row.
pub trait LightmountSourceStyleInvalidationTargetResultDiagnosticFactsSink {
    /// The facts received so far.
    open spec fn diagnostic_facts(&self) -> Seq<DiagnosticFactsView> {
        Seq::empty()
    }

    /// Set diagnostic facts for one retained source-result row.
    fn set_source_style_invalidation_target_result_diagnostic_facts(
        &mut self,
        facts: LightmountSourceStyleInvalidationTargetResultDiagnosticFacts,
    )
        ensures
            final(self).diagnostic_facts() == old(self).diagnostic_facts().push(facts@),
    ;
}

/// Sink used by diagnostic owners that consume target-result diagnostic fields.
pub trait LightmountSourceStyleInvalidationTargetResultDiagnosticFactsPartsSink {
    /// The facts received so far.
    open spec fn diagnostic_parts(&self) -> Seq<DiagnosticFactsView> {
        Seq::empty()
    }

    /// Set diagnostic fact fields for one retained source-result row.
    fn set_source_style_invalidation_target_result_diagnostic_fact_parts(
        &mut self,
        kind: LightmountSourceStyleInvalidationSourceResultKind,
        exact: bool,
        empty_result_is_exact: bool,
        matched_dependency_count: usize,
        fallback_reasons: Vec<LightmountSourceInvalidationFallbackReason>,
        fallback_root_availability: Option<LightmountSourceFallbackRootAvailability>,
        affected_root_count: usize,
    )
        ensures
            final(self).diagnostic_parts() == old(self).diagnostic_parts().push(
                DiagnosticFactsView {
                    kind,
                    exact,
                    empty_result_is_exact,
                    matched: matched_dependency_count,
                    reasons: fallback_reasons@,
                    availability: fallback_root_availability,
                    root_count: affected_root_count as nat,
                },
            ),
    ;
}

/// Sink used to drain cleanup facts for one retained source-result row.
pub trait LightmountSourceStyleInvalidationTargetResultCleanupFactsSink {
    /// The facts received so far.
    open spec fn cleanup_facts(&self) -> Seq<CleanupFactsView> {
        Seq::empty()
    }

    /// Set cleanup facts for one retained source-result row.
    fn set_source_style_invalidation_target_result_cleanup_facts(
        &mut self,
        facts: LightmountSourceStyleInvalidationTargetResultCleanupFacts,
    )
        ensures
            final(self).cleanup_facts() == old(self).cleanup_facts().push(facts@),
    ;
}

/// Sink used by cleanup owners that consume target-result cleanup fields.
pub trait LightmountSourceStyleInvalidationTargetResultCleanupFactsPartsSink {
    /// The facts received so far.
    open spec fn cleanup_parts(&self) -> Seq<CleanupFactsView> {
        Seq::empty()
    }

    /// Set cleanup fact fields for one retained source-result row.
    fn set_source_style_invalidation_target_result_cleanup_fact_parts(
        &mut self,
        fallback_context_reasons: Vec<LightmountSourceInvalidationFallbackReason>,
        clear_all_cleanup_reasons: Vec<LightmountSourceInvalidationFallbackReason>,
        include_fallback_context_for_clear_all: bool,
        requires_fallback_handling: bool,
    )
        ensures
            final(self).cleanup_parts() == old(self).cleanup_parts().push(
                CleanupFactsView {
                    context_reasons: fallback_context_reasons@,
                    clear_all_reasons: clear_all_cleanup_reasons@,
                    include_context: include_fallback_context_for_clear_all,
                    requires_fallback: requires_fallback_handling,
                },
            ),
    ;
}

/// Sink used to drain affected roots from one retained source-result row.
pub trait LightmountSourceAffectedRootsCleanupSink<Root> {
    /// The groups of roots received so far, with what they are for.
    open spec fn root_groups(&self) -> Seq<(LightmountSourceAffectedRootKind, Seq<Root>)> {
        Seq::empty()
    }

    /// Extend exact affected roots.
    fn extend_exact_affected_roots(&mut self, roots: &[Root])
        ensures
            final(self).root_groups() == old(self).root_groups().push(
                (LightmountSourceAffectedRootKind::Exact, roots@),
            ),
    ;

    /// Extend source-fallback roots.
    fn extend_source_fallback_roots(&mut self, roots: &[Root])
        ensures
            final(self).root_groups() == old(self).root_groups().push(
                (LightmountSourceAffectedRootKind::SourceFallback, roots@),
            ),
    ;
}

/// Sink used to consume retained source-result rows.
pub trait LightmountSourceStyleInvalidationSourceResultSink<Root> {
    /// The rows received so far.
    open spec fn received_rows(&self) -> Seq<RowPartsView<Root>> {
        Seq::empty()
    }

    /// Return whether diagnostic target-result facts should be retained.
    fn retain_source_style_invalidation_target_result_diagnostics(&self) -> (retain: bool) {
        true
    }

    /// Record one retained source-result row artifact.
    fn record_source_style_invalidation_source_result(
        &mut self,
        parts: LightmountSourceStyleInvalidationSourceResultParts<Root>,
    )
        ensures
            final(self).received_rows() == old(self).received_rows().push(parts@),
    ;
}

/// Sink used by runtime owners that consume source-result row parts.
pub trait LightmountSourceStyleInvalidationSourceResultPartsSink<Root> {
    /// The rows received so far.
    open spec fn received_row_parts(&self) -> Seq<RowPartsView<Root>> {
        Seq::empty()
    }

    /// Record one retained source-result row's classified parts.
    fn record_source_style_invalidation_source_result_parts(
        &mut self,
        source_index: usize,
        affected_roots: LightmountSourceAffectedRootsCleanup<Root>,
        target_result_record: LightmountSourceStyleInvalidationTargetResultRecord,
    )
        ensures
            final(self).received_row_parts() == old(self).received_row_parts().push(
                RowPartsView {
                    source_index,
                    root_kind: affected_roots.kind,
                    roots: affected_roots.roots@,
                    record: target_result_record@,
                },
            ),
    ;
}

impl LightmountSourceStyleInvalidationTargetResultDiagnosticFacts {
    /// Drain this diagnostic row into a runtime-owned sink.
    pub fn drain_into<
        Sink: LightmountSourceStyleInvalidationTargetResultDiagnosticFactsSink,
    >(self, target: &mut Sink)
        ensures
            final(target).diagnostic_facts() == old(target).diagnostic_facts().push(self@),
    {
        target.set_source_style_invalidation_target_result_diagnostic_facts(self);
    }

    /// Drain this diagnostic row into a field-level sink.
    pub fn drain_parts_into<
        Sink: LightmountSourceStyleInvalidationTargetResultDiagnosticFactsPartsSink,
    >(self, target: &mut Sink)
        ensures
            final(target).diagnostic_parts() == old(target).diagnostic_parts().push(self@),
    {
        target.set_source_style_invalidation_target_result_diagnostic_fact_parts(
            self.kind,
            self.exact,
            self.empty_result_is_exact,
            self.matched_dependency_count,
            self.fallback_reasons,
            self.fallback_root_availability,
            self.affected_root_count,
        );
    }
}

impl LightmountSourceStyleInvalidationTargetResultCleanupFacts {
    /// Drain this cleanup row into a runtime-owned sink.
    pub fn drain_into<Sink: LightmountSourceStyleInvalidationTargetResultCleanupFactsSink>(
        self,
        target: &mut Sink,
    )
        ensures
            final(target).cleanup_facts() == old(target).cleanup_facts().push(self@),
    {
        target.set_source_style_invalidation_target_result_cleanup_facts(self);
    }

    /// Drain this cleanup row into a field-level sink.
    pub fn drain_parts_into<
        Sink: LightmountSourceStyleInvalidationTargetResultCleanupFactsPartsSink,
    >(self, target: &mut Sink)
        ensures
            final(target).cleanup_parts() == old(target).cleanup_parts().push(self@),
    {
        target.set_source_style_invalidation_target_result_cleanup_fact_parts(
            self.fallback_context_reasons,
            self.clear_all_cleanup_reasons,
            self.include_fallback_context_for_clear_all,
            self.requires_fallback_handling,
        );
    }
}

impl LightmountSourceStyleInvalidationTargetResultRecord {
    /// Create a record with diagnostic facts.
    pub fn with_diagnostic_facts(
        diagnostic_facts: LightmountSourceStyleInvalidationTargetResultDiagnosticFacts,
        cleanup_facts: LightmountSourceStyleInvalidationTargetResultCleanupFacts,
    ) -> (record: Self)
        ensures
            record@ == (RecordView {
                cleanup: cleanup_facts@,
                diagnostics: Some(diagnostic_facts@),
            }),
    {
        Self { cleanup_facts, diagnostic_facts: Some(diagnostic_facts) }
    }

    /// Create a record without diagnostic facts.
    pub fn cleanup_only(
        cleanup_facts: LightmountSourceStyleInvalidationTargetResultCleanupFacts,
    ) -> (record: Self)
        ensures
            record@ == (RecordView { cleanup: cleanup_facts@, diagnostics: None }),
    {
        Self { cleanup_facts, diagnostic_facts: None }
    }

    /// Drain cleanup facts and return optional diagnostic facts.
    pub fn drain_cleanup_into<
        Sink: LightmountSourceStyleInvalidationTargetResultCleanupFactsSink,
    >(self, target: &mut Sink) -> (diagnostic_facts: Option<
        LightmountSourceStyleInvalidationTargetResultDiagnosticFacts,
    >)
        ensures
            final(target).cleanup_facts() == old(target).cleanup_facts().push(self@.cleanup),
            diagnostic_facts == self.diagnostic_facts,
    {
        self.cleanup_facts.drain_into(target);
        self.diagnostic_facts
    }
}

impl<Root> LightmountSourceStyleInvalidationSourceResultParts<Root> {
    /// Drain this source-result row artifact into a parts sink.
    pub fn drain_into<Sink: LightmountSourceStyleInvalidationSourceResultPartsSink<Root>>(
        self,
        target: &mut Sink,
    )
        ensures
            final(target).received_row_parts() == old(target).received_row_parts().push(self@),
    {
        target.record_source_style_invalidation_source_result_parts(
            self.source_index,
            self.affected_roots,
            self.target_result_record,
        );
    }
}

impl<Root> LightmountSourceAffectedRootsCleanup<Root> {
    /// Create classified roots.
    pub fn new(kind: LightmountSourceAffectedRootKind, roots: Vec<Root>) -> (cleanup: Self)
        ensures
            cleanup == (LightmountSourceAffectedRootsCleanup { kind, roots }),
    {
        Self { kind, roots }
    }

    /// Drain affected roots into a runtime-owned sink.
    pub fn drain_into<Sink: LightmountSourceAffectedRootsCleanupSink<Root>>(
        self,
        target: &mut Sink,
    )
        ensures
            final(target).root_groups() == old(target).root_groups().push(
                (self.kind, self.roots@),
            ),
    {
        match self.kind {
            LightmountSourceAffectedRootKind::Exact => {
                target.extend_exact_affected_roots(self.roots.as_slice());
            },
            LightmountSourceAffectedRootKind::SourceFallback => {
                target.extend_source_fallback_roots(self.roots.as_slice());
            },
        }
    }
}

/// The row of a fallback-only source.
pub open spec fn fallback_only_row<Root>(
    source_index: usize,
    kind: LightmountRetainedSourceStyleInvalidationKind,
    reasons: Seq<LightmountSourceInvalidationFallbackReason>,
    roots: Seq<Root>,
) -> SourceResultView<Root> {
    SourceResultView {
        source_index,
        kind: kind.result_kind(reasons.len() > 0),
        exact: false,
        empty_result_is_exact: roots.len() == 0,
        matched: 0,
        reasons,
        availability: kind.availability(roots.len()),
        roots,
    }
}

/// The row of a retained source that could not be queried: all its fallback
/// roots, with the reason added.
pub open spec fn unavailable_row<Root>(
    source_index: usize,
    reason: LightmountSourceInvalidationFallbackReason,
    reasons: Seq<LightmountSourceInvalidationFallbackReason>,
    reasoned_roots: Seq<Root>,
    safety_roots: Seq<Root>,
) -> SourceResultView<Root> {
    let roots = super::ordered_set::extend_unique(reasoned_roots, safety_roots);
    SourceResultView {
        source_index,
        kind: match reason {
            LightmountSourceInvalidationFallbackReason::MissingRetainedStyleSystem => {
                LightmountSourceStyleInvalidationSourceResultKind::MissingRetainedStyleSystem
            },
            LightmountSourceInvalidationFallbackReason::MissingRetainedCascadeData => {
                LightmountSourceStyleInvalidationSourceResultKind::MissingRetainedCascadeData
            },
            _ => LightmountSourceStyleInvalidationSourceResultKind::Fallback,
        },
        exact: false,
        empty_result_is_exact: false,
        matched: 0,
        reasons: super::ordered_set::push_unique(reasons, reason),
        availability: LightmountSourceFallbackRootAvailability::of_count(roots.len()),
        roots,
    }
}

/// The reasons of planning followed by those of the queries.
pub open spec fn planned_reasons<Root>(
    result: SourceInvalidationView<Root>,
    reasons: Seq<LightmountSourceInvalidationFallbackReason>,
) -> Seq<LightmountSourceInvalidationFallbackReason> {
    super::ordered_set::extend_unique(reasons, result.reasons)
}

/// The row of a queried source with planned fallback. Planned roots are added
/// where planning had reasons for them; the row is exact where nobody had a
/// reason. What the queries say of the fallback comes before what was planned.
pub open spec fn planned_row<Root>(
    source_index: usize,
    result: SourceInvalidationView<Root>,
    fallback_kind: Option<LightmountRetainedSourceStyleInvalidationKind>,
    reasoned_roots: Seq<Root>,
    reasons: Seq<LightmountSourceInvalidationFallbackReason>,
) -> SourceResultView<Root> {
    let roots = if reasons.len() > 0 {
        super::ordered_set::extend_unique(result.roots, reasoned_roots)
    } else {
        result.roots
    };
    let merged = planned_reasons(result, reasons);
    if merged.len() == 0 {
        SourceResultView::exact_row(
            source_index,
            roots,
            result.exact,
            result.matched as usize,
        )
    } else {
        SourceResultView {
            source_index,
            kind: match (result.kind, fallback_kind) {
                (Some(kind), _) => kind,
                (None, Some(kind)) => kind.result_kind(true),
                (None, None) => LightmountSourceStyleInvalidationSourceResultKind::Fallback,
            },
            exact: false,
            empty_result_is_exact: result.exact,
            matched: result.matched as usize,
            reasons: merged,
            availability: match (result.availability, fallback_kind) {
                (Some(availability), _) => Some(availability),
                (None, Some(kind)) => kind.availability(reasoned_roots.len()),
                (None, None) => None,
            },
            roots,
        }
    }
}

/// A row is exact exactly where neither planning nor the queries had a reason.
pub proof fn lemma_planned_row_is_exact<Root>(
    source_index: usize,
    result: SourceInvalidationView<Root>,
    fallback_kind: Option<LightmountRetainedSourceStyleInvalidationKind>,
    reasoned_roots: Seq<Root>,
    reasons: Seq<LightmountSourceInvalidationFallbackReason>,
)
    ensures
        planned_row(source_index, result, fallback_kind, reasoned_roots, reasons).is_exact()
            <==> reasons.len() == 0 && result.reasons.len() == 0,
{
    super::ordered_set::lemma_extend_unique_prefix(reasons, result.reasons);
    if result.reasons.len() > 0 {
        super::ordered_set::lemma_extend_unique_contains(
            reasons,
            result.reasons,
            result.reasons[0],
        );
        assert(result.reasons.contains(result.reasons[0]));
    }
}

impl<Root: Keyed> LightmountSourceStyleInvalidationSourceResult<Root> {
    /// Build a fallback-only source-result row.
    pub fn fallback_only(
        source_index: usize,
        kind: LightmountRetainedSourceStyleInvalidationKind,
        fallback_reasons: &OrderedSet<LightmountSourceInvalidationFallbackReason>,
        fallback_roots: &OrderedSet<Root>,
    ) -> (row: Self)
        ensures
            row@ == fallback_only_row(source_index, kind, fallback_reasons@, fallback_roots@),
    {
        let count: usize = fallback_roots.len();
        Self::fallback(
            source_index,
            kind.fallback_source_result_kind(!fallback_reasons.is_empty()),
            fallback_roots.is_empty(),
            0,
            fallback_reasons.to_vec(),
            kind.fallback_root_availability(count),
            fallback_roots.to_vec(),
        )
    }

    /// Build a source-result row for a retained source that could not be
    /// queried.
    pub fn unavailable_retained_source(
        source_index: usize,
        reason: LightmountSourceInvalidationFallbackReason,
        fallback_reasons: &OrderedSet<LightmountSourceInvalidationFallbackReason>,
        reasoned_fallback_roots: &OrderedSet<Root>,
        exact_safety_fallback_roots: &OrderedSet<Root>,
    ) -> (row: Self)
        ensures
            row@ == unavailable_row(
                source_index,
                reason,
                fallback_reasons@,
                reasoned_fallback_roots@,
                exact_safety_fallback_roots@,
            ),
    {
        let kind = match reason {
            LightmountSourceInvalidationFallbackReason::MissingRetainedStyleSystem => {
                LightmountSourceStyleInvalidationSourceResultKind::MissingRetainedStyleSystem
            },
            LightmountSourceInvalidationFallbackReason::MissingRetainedCascadeData => {
                LightmountSourceStyleInvalidationSourceResultKind::MissingRetainedCascadeData
            },
            _ => LightmountSourceStyleInvalidationSourceResultKind::Fallback,
        };
        let mut reasons = fallback_reasons.to_vec();
        if !fallback_reasons.contains(reason) {
            reasons.push(reason);
        }
        let fallback_roots = lightmount_union_fallback_roots(
            reasoned_fallback_roots,
            exact_safety_fallback_roots,
        );
        let count: usize = fallback_roots.len();
        Self::fallback(
            source_index,
            kind,
            false,
            0,
            reasons,
            LightmountSourceFallbackRootAvailability::for_root_count(count),
            fallback_roots.to_vec(),
        )
    }

    /// Build a final source-result row from source-local query result policy
    /// and a planned fallback policy.
    pub fn from_source_result_and_planned_fallback(
        source_index: usize,
        source_result: LightmountSourceStyleInvalidationResult<Root>,
        fallback_kind: Option<LightmountRetainedSourceStyleInvalidationKind>,
        reasoned_fallback_roots: &OrderedSet<Root>,
        fallback_reasons: &OrderedSet<LightmountSourceInvalidationFallbackReason>,
    ) -> (row: Self)
        requires
            planned_reasons(source_result@, fallback_reasons@).len() > 0 ==> source_result@.kind
                != Some(LightmountSourceStyleInvalidationSourceResultKind::Exact),
        ensures
            row@ == planned_row(
                source_index,
                source_result@,
                fallback_kind,
                reasoned_fallback_roots@,
                fallback_reasons@,
            ),
    {
        let ghost given = source_result@;
        let mut affected_roots = source_result.affected_roots;
        if !fallback_reasons.is_empty() {
            push_new_roots(&mut affected_roots, reasoned_fallback_roots);
        }
        let mut merged_fallback_reasons = fallback_reasons.clone();
        merged_fallback_reasons.extend_from_set(&source_result.fallback_reasons);
        if merged_fallback_reasons.is_empty() {
            return Self::exact_result(
                source_index,
                affected_roots,
                source_result.empty_result_is_exact,
                source_result.matched_dependency_count,
            );
        }
        let kind = match (source_result.fallback_kind, fallback_kind) {
            (Some(kind), _) => kind,
            (None, Some(kind)) => kind.fallback_source_result_kind(true),
            (None, None) => LightmountSourceStyleInvalidationSourceResultKind::Fallback,
        };
        let count: usize = reasoned_fallback_roots.len();
        let fallback_root_availability = match (
            source_result.fallback_root_availability,
            fallback_kind,
        ) {
            (Some(availability), _) => Some(availability),
            (None, Some(kind)) => kind.fallback_root_availability(count),
            (None, None) => None,
        };
        Self::fallback(
            source_index,
            kind,
            source_result.empty_result_is_exact,
            source_result.matched_dependency_count,
            merged_fallback_reasons.to_vec(),
            fallback_root_availability,
            affected_roots,
        )
    }
}

/// Append the roots of a set that a list does not have.
fn push_new_roots<Root: Keyed>(roots: &mut Vec<Root>, more: &OrderedSet<Root>)
    ensures
        final(roots)@ == super::ordered_set::extend_unique(old(roots)@, more@),
{
    let ghost before = roots@;
    let mut seen = OrderedSet::from_slice(roots.as_slice());
    let added = more.to_vec();
    let ghost held = seen@;
    let mut index: usize = 0;
    proof {
        assert(added@.take(0) =~= Seq::empty());
        assert forall|root: Root| #[trigger] held.contains(root) <==> before.contains(root) by {
            super::ordered_set::lemma_extend_unique_contains(
                Seq::<Root>::empty(),
                before,
                root,
            );
        }
    }
    while index < added.len()
        invariant
            index <= added@.len(),
            held == super::ordered_set::extend_unique(Seq::<Root>::empty(), before),
            forall|root: Root| #[trigger] held.contains(root) <==> before.contains(root),
            roots@ == super::ordered_set::extend_unique(before, added@.take(index as int)),
            seen@ == super::ordered_set::extend_unique(held, added@.take(index as int)),
        decreases added.len() - index,
    {
        let root = added[index];
        proof {
            let prior = added@.take(index as int);
            super::ordered_set::lemma_extend_unique_contains(before, prior, root);
            super::ordered_set::lemma_extend_unique_contains(held, prior, root);
            let next = added@.take(index + 1);
            assert(next.drop_last() =~= prior);
            assert(next.last() == root);
            assert(held.contains(root) <==> before.contains(root));
        }
        if seen.insert(root) {
            roots.push(root);
        }
        index = index + 1;
    }
    assert(added@.take(added@.len() as int) =~= added@);
}

impl<Root> LightmountSourceStyleInvalidationSourceResult<Root> {
    /// Build an exact source-result row.
    pub fn exact_result(
        source_index: usize,
        affected_roots: Vec<Root>,
        empty_result_is_exact: bool,
        matched_dependency_count: usize,
    ) -> (row: Self)
        ensures
            row@ == SourceResultView::exact_row(
                source_index,
                affected_roots@,
                empty_result_is_exact,
                matched_dependency_count,
            ),
    {
        Self {
            source_index,
            kind: LightmountSourceStyleInvalidationSourceResultKind::Exact,
            exact: true,
            empty_result_is_exact,
            matched_dependency_count,
            fallback_reasons: Vec::new(),
            fallback_root_availability: None,
            affected_roots,
        }
    }

    /// Build a fallback source-result row.
    pub fn fallback(
        source_index: usize,
        kind: LightmountSourceStyleInvalidationSourceResultKind,
        empty_result_is_exact: bool,
        matched_dependency_count: usize,
        fallback_reasons: Vec<LightmountSourceInvalidationFallbackReason>,
        fallback_root_availability: Option<LightmountSourceFallbackRootAvailability>,
        affected_roots: Vec<Root>,
    ) -> (row: Self)
        requires
            kind != LightmountSourceStyleInvalidationSourceResultKind::Exact,
        ensures
            row@ == (SourceResultView {
                source_index,
                kind,
                exact: false,
                empty_result_is_exact,
                matched: matched_dependency_count,
                reasons: fallback_reasons@,
                availability: fallback_root_availability,
                roots: affected_roots@,
            }),
    {
        Self {
            source_index,
            kind,
            exact: false,
            empty_result_is_exact,
            matched_dependency_count,
            fallback_reasons,
            fallback_root_availability,
            affected_roots,
        }
    }

    /// Drain this source-result row into a runtime-owned sink, with diagnostic
    /// facts where the sink retains them.
    pub fn drain_into<Sink: LightmountSourceStyleInvalidationSourceResultSink<Root>>(
        self,
        target: &mut Sink,
    )
        ensures
            exists|retain_diagnostics: bool|
                call_ensures(
                    Sink::retain_source_style_invalidation_target_result_diagnostics,
                    (&*old(target),),
                    retain_diagnostics,
                ) && final(target).received_rows() == old(target).received_rows().push(
                    #[trigger] self@.parts(retain_diagnostics),
                ),
    {
        let retain_diagnostics =
            target.retain_source_style_invalidation_target_result_diagnostics();
        target.record_source_style_invalidation_source_result(
            self.into_source_result_cleanup_and_target_record_parts(retain_diagnostics),
        );
    }

    /// Consume this row into its classified parts.
    pub fn into_source_result_cleanup_and_target_record_parts(
        self,
        retain_diagnostics: bool,
    ) -> (parts: LightmountSourceStyleInvalidationSourceResultParts<Root>)
        ensures
            parts@ == self@.parts(retain_diagnostics),
    {
        let source_index: usize = self.source_index;
        let affected_root_kind = self.affected_root_kind();
        let affected_root_count: usize = self.affected_root_count();
        let clear_all_cleanup_reasons = self.clear_all_cleanup_reasons();
        let include_fallback_context_for_clear_all =
            lightmount_source_result_kind_includes_fallback_context_for_clear_all(self.kind);
        let requires_fallback_handling = self.requires_fallback_handling();
        let target_result_record = if retain_diagnostics {
            let fallback_context_reasons = copy_slice(self.fallback_reasons.as_slice());
            LightmountSourceStyleInvalidationTargetResultRecord::with_diagnostic_facts(
                LightmountSourceStyleInvalidationTargetResultDiagnosticFacts {
                    kind: self.kind,
                    exact: self.exact,
                    empty_result_is_exact: self.empty_result_is_exact,
                    matched_dependency_count: self.matched_dependency_count,
                    fallback_reasons: self.fallback_reasons,
                    fallback_root_availability: self.fallback_root_availability,
                    affected_root_count,
                },
                LightmountSourceStyleInvalidationTargetResultCleanupFacts {
                    fallback_context_reasons,
                    clear_all_cleanup_reasons,
                    include_fallback_context_for_clear_all,
                    requires_fallback_handling,
                },
            )
        } else {
            LightmountSourceStyleInvalidationTargetResultRecord::cleanup_only(
                LightmountSourceStyleInvalidationTargetResultCleanupFacts {
                    fallback_context_reasons: self.fallback_reasons,
                    clear_all_cleanup_reasons,
                    include_fallback_context_for_clear_all,
                    requires_fallback_handling,
                },
            )
        };
        LightmountSourceStyleInvalidationSourceResultParts {
            source_index,
            affected_roots: LightmountSourceAffectedRootsCleanup::new(
                affected_root_kind,
                self.affected_roots,
            ),
            target_result_record,
        }
    }

    /// Return the number of affected roots.
    pub fn affected_root_count(&self) -> (count: usize)
        ensures
            count == self@.roots.len(),
    {
        self.affected_roots.len()
    }

    /// Return whether the row is exact.
    pub fn is_exact_source_result(&self) -> (exact: bool)
        ensures
            exact == self@.is_exact(),
    {
        self.exact && self.kind == LightmountSourceStyleInvalidationSourceResultKind::Exact
            && self.fallback_reasons.len() == 0
    }

    /// Return whether the row is not exact.
    pub fn requires_fallback_handling(&self) -> (required: bool)
        ensures
            required == !self@.is_exact(),
    {
        !self.is_exact_source_result()
    }

    /// Return whether an empty result would not be an exact no-op.
    pub fn has_inexact_empty_result(&self) -> (inexact: bool)
        ensures
            inexact == !(self@.is_exact() && self@.empty_result_is_exact),
    {
        !(self.is_exact_source_result() && self.empty_result_is_exact)
    }

    /// Return whether needed fallback roots are missing, or nothing stands
    /// against the reasons of the row.
    pub fn has_fallback_clear_all_cleanup(&self) -> (clears: bool)
        ensures
            clears == self@.lacks_fallback_roots(),
    {
        matches!(
            self.fallback_root_availability,
            Some(LightmountSourceFallbackRootAvailability::Missing)
        ) || (self.fallback_reasons.len() > 0 && self.affected_roots.len() == 0)
    }

    /// Return whether the row is empty without being an exact no-op.
    pub fn has_inexact_empty_clear_all_cleanup(&self) -> (clears: bool)
        ensures
            clears == (self@.roots.len() == 0 && !(self@.is_exact()
                && self@.empty_result_is_exact)),
    {
        self.affected_roots.len() == 0 && self.has_inexact_empty_result()
    }

    /// Return the reasons for clearing everything.
    pub fn clear_all_cleanup_reasons(&self) -> (reasons: Vec<
        LightmountSourceInvalidationFallbackReason,
    >)
        ensures
            reasons@ == self@.clear_all_reasons(),
    {
        if self.has_fallback_clear_all_cleanup() {
            let mut reasons = OrderedSet::from_slice(self.fallback_reasons.as_slice());
            if matches!(
                self.fallback_root_availability,
                Some(LightmountSourceFallbackRootAvailability::Missing)
            ) {
                reasons.insert(LightmountSourceInvalidationFallbackReason::MissingFallbackRoots);
            }
            return reasons.to_vec();
        }
        if self.has_inexact_empty_clear_all_cleanup() {
            return vec![LightmountSourceInvalidationFallbackReason::InexactEmptyResult];
        }
        Vec::new()
    }

    /// Return what the affected roots are for.
    pub fn affected_root_kind(&self) -> (kind: LightmountSourceAffectedRootKind)
        ensures
            kind == self@.root_kind(),
    {
        if self.is_exact_source_result() {
            return LightmountSourceAffectedRootKind::Exact;
        }
        LightmountSourceAffectedRootKind::SourceFallback
    }
}

/// Return both groups of fallback roots.
fn lightmount_union_fallback_roots<Root: Keyed>(
    fallback_roots: &OrderedSet<Root>,
    exact_safety_fallback_roots: &OrderedSet<Root>,
) -> (roots: OrderedSet<Root>)
    ensures
        roots@ == super::ordered_set::extend_unique(
            fallback_roots@,
            exact_safety_fallback_roots@,
        ),
{
    let mut roots = fallback_roots.clone();
    roots.extend_from_set(exact_safety_fallback_roots);
    roots
}

/// Return whether the cleanup of this kind reports the fallback context too.
pub fn lightmount_source_result_kind_includes_fallback_context_for_clear_all(
    kind: LightmountSourceStyleInvalidationSourceResultKind,
) -> (includes: bool)
    ensures
        includes == kind_includes_context(kind),
{
    matches!(
        kind,
        LightmountSourceStyleInvalidationSourceResultKind::MissingRetainedStyleSystem
        | LightmountSourceStyleInvalidationSourceResultKind::MissingRetainedCascadeData
    )
}

/// The contents of a list of rows.
pub open spec fn result_rows<Root>(
    rows: Seq<LightmountSourceStyleInvalidationSourceResult<Root>>,
) -> Seq<SourceResultView<Root>> {
    rows.map_values(|row: LightmountSourceStyleInvalidationSourceResult<Root>| row@)
}

/// Return a list of the same rows.
fn copy_result_rows<Root: Copy>(
    rows: &Vec<LightmountSourceStyleInvalidationSourceResult<Root>>,
) -> (copy: Vec<LightmountSourceStyleInvalidationSourceResult<Root>>)
    ensures
        result_rows(copy@) == result_rows(rows@),
{
    let ghost views = result_rows(rows@);
    let mut copy: Vec<LightmountSourceStyleInvalidationSourceResult<Root>> = Vec::new();
    let mut index: usize = 0;
    assert(result_rows(copy@) =~= views.take(0));
    while index < rows.len()
        invariant
            index <= rows.len(),
            views == result_rows(rows@),
            result_rows(copy@) == views.take(index as int),
        decreases rows.len() - index,
    {
        let ghost before = result_rows(copy@);
        copy.push(rows[index].clone());
        assert(result_rows(copy@) =~= before.push(copy@.last()@));
        assert(result_rows(copy@) =~= views.take(index + 1));
        index = index + 1;
    }
    assert(views.take(views.len() as int) =~= views);
    copy
}

/// Retained invalidation result for a source-aware batch.
///
/// The source result table is the stored fact table. Runtime-specific cleanup
/// owners drain the table through sink traits.
#[derive(Debug, PartialEq, Eq)]
pub struct LightmountInvalidationResult<Root> {
    /// The rows.
    pub source_results: Vec<LightmountSourceStyleInvalidationSourceResult<Root>>,
}

impl<Root: Copy> Clone for LightmountInvalidationResult<Root> {
    fn clone(&self) -> (result: Self)
        ensures
            result.rows() == self.rows(),
    {
        Self { source_results: copy_result_rows(&self.source_results) }
    }
}

/// Builder for a retained invalidation source-result table.
#[derive(Debug, PartialEq, Eq)]
pub struct LightmountInvalidationResultBuilder<Root> {
    /// The rows.
    pub source_results: Vec<LightmountSourceStyleInvalidationSourceResult<Root>>,
}

impl<Root: Copy> Clone for LightmountInvalidationResultBuilder<Root> {
    fn clone(&self) -> (builder: Self)
        ensures
            builder.rows() == self.rows(),
    {
        Self { source_results: copy_result_rows(&self.source_results) }
    }
}

/// A call that a table makes of its sink.
pub enum ResultTableCall<Root> {
    /// The number of rows to come.
    Count(usize),
    /// One row.
    Row(SourceResultView<Root>),
}

/// Sink used by a runtime owner to consume a retained invalidation source
/// result table.
pub trait LightmountInvalidationSourceResultsSink<Root> {
    /// The calls received so far.
    open spec fn table_calls(&self) -> Seq<ResultTableCall<Root>> {
        Seq::empty()
    }

    /// Record how many source-result rows will be drained.
    fn record_lightmount_invalidation_source_result_count(&mut self, count: usize)
        ensures
            final(self).table_calls() == old(self).table_calls().push(
                ResultTableCall::Count(count),
            ),
    ;

    /// Record one retained source-result row.
    fn record_lightmount_invalidation_source_result(
        &mut self,
        result: LightmountSourceStyleInvalidationSourceResult<Root>,
    )
        ensures
            final(self).table_calls() == old(self).table_calls().push(
                ResultTableCall::Row(result@),
            ),
    ;
}

impl<Root> LightmountInvalidationResult<Root> {
    /// The rows of the table.
    pub open spec fn rows(&self) -> Seq<SourceResultView<Root>> {
        result_rows(self.source_results@)
    }

    /// Create a result table from already classified source-result rows.
    pub fn from_source_results(
        source_results: Vec<LightmountSourceStyleInvalidationSourceResult<Root>>,
    ) -> (result: Self)
        ensures
            result.source_results == source_results,
    {
        Self { source_results }
    }

    /// Drain source-result rows into a runtime-owned sink: their number, and
    /// then each in turn.
    pub fn drain_source_results_into<Sink: LightmountInvalidationSourceResultsSink<Root>>(
        self,
        target: &mut Sink,
    )
        ensures
            final(target).table_calls() == old(target).table_calls().push(
                ResultTableCall::Count(self.rows().len() as usize),
            ) + self.rows().map_values(|row: SourceResultView<Root>| ResultTableCall::Row(row)),
    {
        let ghost rows = self.rows();
        let ghost given = self.source_results@;
        let ghost row_calls = rows.map_values(
            |row: SourceResultView<Root>| ResultTableCall::Row(row),
        );
        target.record_lightmount_invalidation_source_result_count(self.source_results.len());
        let ghost before = target.table_calls();
        assert(before + row_calls.take(0) =~= before);
        for result in iter: self.source_results
            invariant
                iter.seq() == given,
                rows == result_rows(given),
                row_calls == rows.map_values(
                    |row: SourceResultView<Root>| ResultTableCall::Row(row),
                ),
                target.table_calls() == before + row_calls.take(iter.index()),
        {
            let ghost index = iter.index();
            target.record_lightmount_invalidation_source_result(result);
            assert(before + row_calls.take(index + 1) =~= (before + row_calls.take(index)).push(
                row_calls[index],
            ));
        }
        assert(row_calls.take(row_calls.len() as int) =~= row_calls);
    }
}

impl<Root> Default for LightmountInvalidationResult<Root> {
    fn default() -> (result: Self)
        ensures
            result.source_results@.len() == 0,
    {
        Self { source_results: Vec::new() }
    }
}

impl<Root> Default for LightmountInvalidationResultBuilder<Root> {
    fn default() -> (builder: Self)
        ensures
            builder.rows() == Seq::<SourceResultView<Root>>::empty(),
    {
        let builder = Self { source_results: Vec::new() };
        assert(builder.rows() =~= Seq::<SourceResultView<Root>>::empty());
        builder
    }
}

impl<Root> LightmountInvalidationResultBuilder<Root> {
    /// The rows pushed so far.
    pub open spec fn rows(&self) -> Seq<SourceResultView<Root>> {
        result_rows(self.source_results@)
    }

    /// Create an empty source-result table builder.
    pub fn new() -> (builder: Self)
        ensures
            builder.rows() == Seq::<SourceResultView<Root>>::empty(),
    {
        Self::default()
    }

    /// Push an already-classified source-result row.
    pub fn push_source_result(
        &mut self,
        result: LightmountSourceStyleInvalidationSourceResult<Root>,
    )
        ensures
            final(self).rows() == old(self).rows().push(result@),
    {
        let ghost before = self.source_results@;
        self.source_results.push(result);
        assert(self.rows() =~= result_rows(before).push(result@));
    }

    /// Push an exact source-result row.
    pub fn push_exact_source_result(
        &mut self,
        source_index: usize,
        affected_roots: Vec<Root>,
        empty_result_is_exact: bool,
        matched_dependency_count: usize,
    )
        ensures
            final(self).rows() == old(self).rows().push(
                SourceResultView::exact_row(
                    source_index,
                    affected_roots@,
                    empty_result_is_exact,
                    matched_dependency_count,
                ),
            ),
    {
        self.push_source_result(
            LightmountSourceStyleInvalidationSourceResult::exact_result(
                source_index,
                affected_roots,
                empty_result_is_exact,
                matched_dependency_count,
            ),
        );
    }

    /// Push a fallback source-result row.
    pub fn push_fallback_source_result(
        &mut self,
        source_index: usize,
        kind: LightmountSourceStyleInvalidationSourceResultKind,
        empty_result_is_exact: bool,
        matched_dependency_count: usize,
        fallback_reasons: Vec<LightmountSourceInvalidationFallbackReason>,
        fallback_root_availability: Option<LightmountSourceFallbackRootAvailability>,
        affected_roots: Vec<Root>,
    )
        requires
            kind != LightmountSourceStyleInvalidationSourceResultKind::Exact,
        ensures
            final(self).rows() == old(self).rows().push(
                SourceResultView {
                    source_index,
                    kind,
                    exact: false,
                    empty_result_is_exact,
                    matched: matched_dependency_count,
                    reasons: fallback_reasons@,
                    availability: fallback_root_availability,
                    roots: affected_roots@,
                },
            ),
    {
        self.push_source_result(
            LightmountSourceStyleInvalidationSourceResult::fallback(
                source_index,
                kind,
                empty_result_is_exact,
                matched_dependency_count,
                fallback_reasons,
                fallback_root_availability,
                affected_roots,
            ),
        );
    }

    /// Finish and return the retained invalidation result.
    pub fn finish(self) -> (result: LightmountInvalidationResult<Root>)
        ensures
            result.rows() == self.rows(),
    {
        LightmountInvalidationResult::from_source_results(self.source_results)
    }
}

impl<Root: Keyed> LightmountInvalidationResultBuilder<Root> {
    /// Push a fallback-only source-result row.
    pub fn push_fallback_only_source(
        &mut self,
        source_index: usize,
        kind: LightmountRetainedSourceStyleInvalidationKind,
        fallback_reasons: &OrderedSet<LightmountSourceInvalidationFallbackReason>,
        fallback_roots: &OrderedSet<Root>,
    )
        ensures
            final(self).rows() == old(self).rows().push(
                fallback_only_row(source_index, kind, fallback_reasons@, fallback_roots@),
            ),
    {
        self.push_source_result(
            LightmountSourceStyleInvalidationSourceResult::fallback_only(
                source_index,
                kind,
                fallback_reasons,
                fallback_roots,
            ),
        );
    }

    /// Push a final source-result row from source-local query result policy and
    /// a planned fallback policy.
    pub fn push_source_result_from_planned_fallback(
        &mut self,
        source_index: usize,
        source_result: LightmountSourceStyleInvalidationResult<Root>,
        fallback_kind: Option<LightmountRetainedSourceStyleInvalidationKind>,
        reasoned_fallback_roots: &OrderedSet<Root>,
        fallback_reasons: &OrderedSet<LightmountSourceInvalidationFallbackReason>,
    )
        requires
            planned_reasons(source_result@, fallback_reasons@).len() > 0 ==> source_result@.kind
                != Some(LightmountSourceStyleInvalidationSourceResultKind::Exact),
        ensures
            final(self).rows() == old(self).rows().push(
                planned_row(
                    source_index,
                    source_result@,
                    fallback_kind,
                    reasoned_fallback_roots@,
                    fallback_reasons@,
                ),
            ),
    {
        self.push_source_result(
            LightmountSourceStyleInvalidationSourceResult::from_source_result_and_planned_fallback(
                source_index,
                source_result,
                fallback_kind,
                reasoned_fallback_roots,
                fallback_reasons,
            ),
        );
    }

    /// Push a retained source-result row for an unavailable retained system or
    /// source cascade.
    pub fn push_unavailable_retained_source(
        &mut self,
        source_index: usize,
        reason: LightmountSourceInvalidationFallbackReason,
        fallback_reasons: &OrderedSet<LightmountSourceInvalidationFallbackReason>,
        reasoned_fallback_roots: &OrderedSet<Root>,
        exact_safety_fallback_roots: &OrderedSet<Root>,
    )
        ensures
            final(self).rows() == old(self).rows().push(
                unavailable_row(
                    source_index,
                    reason,
                    fallback_reasons@,
                    reasoned_fallback_roots@,
                    exact_safety_fallback_roots@,
                ),
            ),
    {
        self.push_source_result(
            LightmountSourceStyleInvalidationSourceResult::unavailable_retained_source(
                source_index,
                reason,
                fallback_reasons,
                reasoned_fallback_roots,
                exact_safety_fallback_roots,
            ),
        );
    }

    /// Push a source-result row for a missing retained style system.
    pub fn push_missing_retained_style_system_source(
        &mut self,
        source_index: usize,
        fallback_reasons: &OrderedSet<LightmountSourceInvalidationFallbackReason>,
        reasoned_fallback_roots: &OrderedSet<Root>,
        exact_safety_fallback_roots: &OrderedSet<Root>,
    )
        ensures
            final(self).rows() == old(self).rows().push(
                unavailable_row(
                    source_index,
                    LightmountSourceInvalidationFallbackReason::MissingRetainedStyleSystem,
                    fallback_reasons@,
                    reasoned_fallback_roots@,
                    exact_safety_fallback_roots@,
                ),
            ),
    {
        self.push_unavailable_retained_source(
            source_index,
            LightmountSourceInvalidationFallbackReason::MissingRetainedStyleSystem,
            fallback_reasons,
            reasoned_fallback_roots,
            exact_safety_fallback_roots,
        );
    }

    /// Push a source-result row for missing retained source cascade data.
    pub fn push_missing_retained_cascade_data_source(
        &mut self,
        source_index: usize,
        fallback_reasons: &OrderedSet<LightmountSourceInvalidationFallbackReason>,
        reasoned_fallback_roots: &OrderedSet<Root>,
        exact_safety_fallback_roots: &OrderedSet<Root>,
    )
        ensures
            final(self).rows() == old(self).rows().push(
                unavailable_row(
                    source_index,
                    LightmountSourceInvalidationFallbackReason::MissingRetainedCascadeData,
                    fallback_reasons@,
                    reasoned_fallback_roots@,
                    exact_safety_fallback_roots@,
                ),
            ),
    {
        self.push_unavailable_retained_source(
            source_index,
            LightmountSourceInvalidationFallbackReason::MissingRetainedCascadeData,
            fallback_reasons,
            reasoned_fallback_roots,
            exact_safety_fallback_roots,
        );
    }
}

} // verus!
