//! Retained stylesheet source inputs.

use vstd::prelude::*;

use super::ordered_set::{Keyed, OrderedSet};
use super::query_sets::RetainedQuerySet;
use super::reasons::LightmountSourceInvalidationFallbackReason;
use super::retained_kind::LightmountRetainedSourceStyleInvalidationKind;
use super::source_summary::CascadeData;

verus! {

/// One retained stylesheet source input for a source-aware invalidation batch.
pub struct LightmountRetainedSourceStyleInvalidation<'a, Root: Keyed, Snapshot> {
    /// The input.
    pub input: LightmountRetainedSourceStyleInvalidationInput<'a, Root, Snapshot>,
}

/// Shape of a retained stylesheet source input.
pub enum LightmountRetainedSourceStyleInvalidationInput<'a, Root: Keyed, Snapshot> {
    /// Run retained invalidation queries against this source's cascade data.
    RetainedQueries {
        /// Fallback-root target kind to use if retained query exactness fails.
        fallback_kind: Option<LightmountRetainedSourceStyleInvalidationKind>,
        /// Per-source cascade data, if available.
        cascade_data: Option<&'a CascadeData>,
        /// Shadow root whose cascade data should be installed for this source.
        shadow_root: Option<Root>,
        /// Source-local retained invalidation queries.
        queries: &'a RetainedQuerySet<Root>,
        /// Reasoned fallback roots from source/cause planning.
        reasoned_fallback_roots: &'a OrderedSet<Root>,
        /// Exact-safety fallback roots used when exact query capability is
        /// unavailable.
        exact_safety_fallback_roots: &'a OrderedSet<Root>,
        /// Fallback reasons already known before source-local query execution.
        fallback_reasons: &'a OrderedSet<LightmountSourceInvalidationFallbackReason>,
        /// Runtime-owned mutation snapshot payload.
        mutation_snapshot: &'a Snapshot,
    },
    /// Apply fallback roots without retained source-local queries.
    Fallback {
        /// Fallback source input kind.
        kind: LightmountRetainedSourceStyleInvalidationKind,
        /// Fallback roots selected by the runtime/source owner.
        fallback_roots: &'a OrderedSet<Root>,
        /// Fallback reasons selected by the runtime/source owner.
        fallback_reasons: &'a OrderedSet<LightmountSourceInvalidationFallbackReason>,
    },
}

impl<'a, Root: Keyed, Snapshot> Copy for LightmountRetainedSourceStyleInvalidationInput<
    'a,
    Root,
    Snapshot,
> {

}

impl<'a, Root: Keyed, Snapshot> Clone for LightmountRetainedSourceStyleInvalidationInput<
    'a,
    Root,
    Snapshot,
> {
    fn clone(&self) -> (input: Self)
        ensures
            input == *self,
    {
        *self
    }
}

impl<'a, Root: Keyed, Snapshot> Copy for LightmountRetainedSourceStyleInvalidation<
    'a,
    Root,
    Snapshot,
> {

}

impl<'a, Root: Keyed, Snapshot> Clone for LightmountRetainedSourceStyleInvalidation<
    'a,
    Root,
    Snapshot,
> {
    fn clone(&self) -> (source: Self)
        ensures
            source == *self,
    {
        *self
    }
}

/// Sink used by a runtime owner to execute one retained source invalidation
/// input without matching on the input variant in the runtime adapter.
pub trait LightmountRetainedSourceStyleInvalidationSink<'a, Root: Keyed, Snapshot> {
    /// The inputs executed so far.
    open spec fn executed(&self) -> Seq<
        LightmountRetainedSourceStyleInvalidationInput<'a, Root, Snapshot>,
    > {
        Seq::empty()
    }

    /// Run retained source-local queries.
    fn run_retained_source_style_invalidation_queries(
        &mut self,
        fallback_kind: Option<LightmountRetainedSourceStyleInvalidationKind>,
        cascade_data: Option<&'a CascadeData>,
        shadow_root: Option<Root>,
        queries: &'a RetainedQuerySet<Root>,
        reasoned_fallback_roots: &'a OrderedSet<Root>,
        exact_safety_fallback_roots: &'a OrderedSet<Root>,
        fallback_reasons: &'a OrderedSet<LightmountSourceInvalidationFallbackReason>,
        mutation_snapshot: &'a Snapshot,
    )
        ensures
            final(self).executed() == old(self).executed().push(
                LightmountRetainedSourceStyleInvalidationInput::RetainedQueries {
                    fallback_kind,
                    cascade_data,
                    shadow_root,
                    queries,
                    reasoned_fallback_roots,
                    exact_safety_fallback_roots,
                    fallback_reasons,
                    mutation_snapshot,
                },
            ),
    ;

    /// Apply a fallback-only source input.
    fn run_fallback_source_style_invalidation(
        &mut self,
        kind: LightmountRetainedSourceStyleInvalidationKind,
        fallback_roots: &'a OrderedSet<Root>,
        fallback_reasons: &'a OrderedSet<LightmountSourceInvalidationFallbackReason>,
    )
        ensures
            final(self).executed() == old(self).executed().push(
                LightmountRetainedSourceStyleInvalidationInput::Fallback {
                    kind,
                    fallback_roots,
                    fallback_reasons,
                },
            ),
    ;
}

/// Build a retained source invalidation input from typed source parts.
pub fn lightmount_retained_source_style_invalidation_from_parts<'a, Root: Keyed, Snapshot>(
    kind: LightmountRetainedSourceStyleInvalidationKind,
    fallback_kind: Option<LightmountRetainedSourceStyleInvalidationKind>,
    cascade_data: Option<&'a CascadeData>,
    shadow_root: Option<Root>,
    retained_queries: Option<&'a RetainedQuerySet<Root>>,
    reasoned_fallback_roots: &'a OrderedSet<Root>,
    exact_safety_fallback_roots: &'a OrderedSet<Root>,
    fallback_reasons: &'a OrderedSet<LightmountSourceInvalidationFallbackReason>,
    mutation_snapshot: &'a Snapshot,
) -> (source: LightmountRetainedSourceStyleInvalidation<'a, Root, Snapshot>)
    requires
        kind.has_queries() ==> {
            &&& retained_queries matches Some(queries) && queries@.len() > 0
            &&& fallback_kind matches Some(kind) ==> !kind.has_queries()
        },
    ensures
        source.input == if kind.has_queries() {
            LightmountRetainedSourceStyleInvalidationInput::RetainedQueries {
                fallback_kind,
                cascade_data,
                shadow_root,
                queries: retained_queries->0,
                reasoned_fallback_roots,
                exact_safety_fallback_roots,
                fallback_reasons,
                mutation_snapshot,
            }
        } else {
            LightmountRetainedSourceStyleInvalidationInput::Fallback {
                kind,
                fallback_roots: reasoned_fallback_roots,
                fallback_reasons,
            }
        },
{
    if kind.carries_retained_queries() {
        if let Some(queries) = retained_queries {
            return LightmountRetainedSourceStyleInvalidation::retained_queries(
                fallback_kind,
                cascade_data,
                shadow_root,
                queries,
                reasoned_fallback_roots,
                exact_safety_fallback_roots,
                fallback_reasons,
                mutation_snapshot,
            );
        }
    }
    LightmountRetainedSourceStyleInvalidation::fallback(
        kind,
        reasoned_fallback_roots,
        fallback_reasons,
    )
}

impl<'a, Root: Keyed, Snapshot> LightmountRetainedSourceStyleInvalidation<'a, Root, Snapshot> {
    /// Create retained source-local query input.
    pub fn retained_queries(
        fallback_kind: Option<LightmountRetainedSourceStyleInvalidationKind>,
        cascade_data: Option<&'a CascadeData>,
        shadow_root: Option<Root>,
        queries: &'a RetainedQuerySet<Root>,
        reasoned_fallback_roots: &'a OrderedSet<Root>,
        exact_safety_fallback_roots: &'a OrderedSet<Root>,
        fallback_reasons: &'a OrderedSet<LightmountSourceInvalidationFallbackReason>,
        mutation_snapshot: &'a Snapshot,
    ) -> (source: Self)
        requires
            queries@.len() > 0,
            fallback_kind matches Some(kind) ==> !kind.has_queries(),
        ensures
            source.input == (LightmountRetainedSourceStyleInvalidationInput::RetainedQueries {
                fallback_kind,
                cascade_data,
                shadow_root,
                queries,
                reasoned_fallback_roots,
                exact_safety_fallback_roots,
                fallback_reasons,
                mutation_snapshot,
            }),
    {
        Self {
            input: LightmountRetainedSourceStyleInvalidationInput::RetainedQueries {
                fallback_kind,
                cascade_data,
                shadow_root,
                queries,
                reasoned_fallback_roots,
                exact_safety_fallback_roots,
                fallback_reasons,
                mutation_snapshot,
            },
        }
    }

    /// Create fallback-only retained source input.
    pub fn fallback(
        kind: LightmountRetainedSourceStyleInvalidationKind,
        fallback_roots: &'a OrderedSet<Root>,
        fallback_reasons: &'a OrderedSet<LightmountSourceInvalidationFallbackReason>,
    ) -> (source: Self)
        requires
            !kind.has_queries(),
        ensures
            source == (Self {
                input: LightmountRetainedSourceStyleInvalidationInput::Fallback {
                    kind,
                    fallback_roots,
                    fallback_reasons,
                },
            }),
    {
        Self {
            input: LightmountRetainedSourceStyleInvalidationInput::Fallback {
                kind,
                fallback_roots,
                fallback_reasons,
            },
        }
    }

    /// Drain this source input into a runtime-owned sink.
    pub fn drain_into<Sink: LightmountRetainedSourceStyleInvalidationSink<'a, Root, Snapshot>>(
        self,
        target: &mut Sink,
    )
        ensures
            final(target).executed() == old(target).executed().push(self.input),
    {
        match self.input {
            LightmountRetainedSourceStyleInvalidationInput::RetainedQueries {
                fallback_kind,
                cascade_data,
                shadow_root,
                queries,
                reasoned_fallback_roots,
                exact_safety_fallback_roots,
                fallback_reasons,
                mutation_snapshot,
            } => {
                target.run_retained_source_style_invalidation_queries(
                    fallback_kind,
                    cascade_data,
                    shadow_root,
                    queries,
                    reasoned_fallback_roots,
                    exact_safety_fallback_roots,
                    fallback_reasons,
                    mutation_snapshot,
                );
            },
            LightmountRetainedSourceStyleInvalidationInput::Fallback {
                kind,
                fallback_roots,
                fallback_reasons,
            } => {
                target.run_fallback_source_style_invalidation(
                    kind,
                    fallback_roots,
                    fallback_reasons,
                );
            },
        }
    }
}

} // verus!
