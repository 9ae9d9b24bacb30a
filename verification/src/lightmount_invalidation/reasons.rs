//! Why an invalidation cannot be answered exactly.

use vstd::prelude::*;
use vstd::std_specs::convert::FromSpecImpl;

use super::ordered_set::Keyed;

verus! {

/// Reason a dependency query cannot be represented as exact dependency kinds.
#[derive(Clone, Copy, Debug, PartialEq, Eq, Hash, Structural)]
pub enum LightmountDependencyFallbackReason {
    /// An unknown dependency was recorded for this query.
    UnknownDependency,
    /// The invalidation map requires full-selector invalidation.
    FullSelector,
    /// Relative selector dependencies are present but not exposed precisely.
    RelativeAnySelector,
    /// Scope dependencies are present but not exposed precisely.
    ScopeDependency,
    /// State dependencies are present but not exposed precisely.
    UnsupportedStateDependency,
    /// The dependency shape has no exact retained invalidator path.
    UnsupportedDependency,
    /// `:nth-child(... of ...)` dependency exactness could not be represented
    /// by the retained invalidator's root set.
    NthOfDependency,
    /// A selector-list dependency nested inside a relative selector cannot be
    /// represented by the retained invalidator's exact root set.
    NestedRelativeSelectorDependency,
}

/// Why a source-aware invalidation batch could not produce exact roots.
#[derive(Clone, Copy, Debug, PartialEq, Eq, Hash, Structural)]
pub enum LightmountSourceInvalidationFallbackReason {
    /// An unknown dependency was recorded for this query.
    UnknownDependency,
    /// The invalidation map requires full-selector invalidation.
    FullSelector,
    /// Relative selector dependencies are present but not exposed precisely.
    RelativeAnySelector,
    /// Scope dependencies are present but not exposed precisely.
    ScopeDependency,
    /// State dependencies are present but not exposed precisely.
    UnsupportedStateDependency,
    /// Shadow dependency exactness could not be represented by this query.
    UnsupportedShadowDependency,
    /// Conservative fallback roots from the active source scope had to be used
    /// instead of cause-local or source-local roots.
    SourceScopeFallback,
    /// The dependency cannot be represented by the exact retained invalidator
    /// path.
    UnsupportedDependency,
    /// `:nth-child(... of ...)` dependency exactness still needs reasoned
    /// fallback handling.
    NthOfDependency,
    /// A selector-list dependency nested inside a relative selector still needs
    /// reasoned fallback handling.
    NestedRelativeSelectorDependency,
    /// The retained invalidator produced no roots, but the result was not
    /// proven to be an exact no-op for this source/query batch.
    InexactEmptyResult,
    /// The batch needed source fallback roots, but none were provided by the
    /// source/scope owner.
    MissingFallbackRoots,
    /// The retained style system was unavailable when source queries were
    /// drained.
    MissingRetainedStyleSystem,
    /// The retained style system did not have per-source cascade data for this
    /// source.
    MissingRetainedCascadeData,
}

impl LightmountDependencyFallbackReason {
    /// The source-level reason with the same detail.
    pub open spec fn source_reason(self) -> LightmountSourceInvalidationFallbackReason {
        match self {
            Self::UnknownDependency => {
                LightmountSourceInvalidationFallbackReason::UnknownDependency
            },
            Self::FullSelector => LightmountSourceInvalidationFallbackReason::FullSelector,
            Self::RelativeAnySelector => {
                LightmountSourceInvalidationFallbackReason::RelativeAnySelector
            },
            Self::ScopeDependency => LightmountSourceInvalidationFallbackReason::ScopeDependency,
            Self::UnsupportedStateDependency => {
                LightmountSourceInvalidationFallbackReason::UnsupportedStateDependency
            },
            Self::UnsupportedDependency => {
                LightmountSourceInvalidationFallbackReason::UnsupportedDependency
            },
            Self::NthOfDependency => LightmountSourceInvalidationFallbackReason::NthOfDependency,
            Self::NestedRelativeSelectorDependency => {
                LightmountSourceInvalidationFallbackReason::NestedRelativeSelectorDependency
            },
        }
    }
}

impl From<LightmountDependencyFallbackReason> for LightmountSourceInvalidationFallbackReason {
    fn from(reason: LightmountDependencyFallbackReason) -> Self {
        match reason {
            LightmountDependencyFallbackReason::UnknownDependency => Self::UnknownDependency,
            LightmountDependencyFallbackReason::FullSelector => Self::FullSelector,
            LightmountDependencyFallbackReason::RelativeAnySelector => Self::RelativeAnySelector,
            LightmountDependencyFallbackReason::ScopeDependency => Self::ScopeDependency,
            LightmountDependencyFallbackReason::UnsupportedStateDependency => {
                Self::UnsupportedStateDependency
            },
            LightmountDependencyFallbackReason::UnsupportedDependency => {
                Self::UnsupportedDependency
            },
            LightmountDependencyFallbackReason::NthOfDependency => Self::NthOfDependency,
            LightmountDependencyFallbackReason::NestedRelativeSelectorDependency => {
                Self::NestedRelativeSelectorDependency
            },
        }
    }
}

impl FromSpecImpl<LightmountDependencyFallbackReason> for LightmountSourceInvalidationFallbackReason {
    open spec fn obeys_from_spec() -> bool {
        true
    }

    open spec fn from_spec(reason: LightmountDependencyFallbackReason) -> Self {
        reason.source_reason()
    }
}

/// Different dependency reasons stay different as source reasons.
pub proof fn lemma_source_reason_preserves_detail(
    left: LightmountDependencyFallbackReason,
    right: LightmountDependencyFallbackReason,
)
    ensures
        left.source_reason() == right.source_reason() ==> left == right,
{
}

impl Keyed for LightmountSourceInvalidationFallbackReason {
    open spec fn key(self) -> u64 {
        match self {
            Self::UnknownDependency => 0,
            Self::FullSelector => 1,
            Self::RelativeAnySelector => 2,
            Self::ScopeDependency => 3,
            Self::UnsupportedStateDependency => 4,
            Self::UnsupportedShadowDependency => 5,
            Self::SourceScopeFallback => 6,
            Self::UnsupportedDependency => 7,
            Self::NthOfDependency => 8,
            Self::NestedRelativeSelectorDependency => 9,
            Self::InexactEmptyResult => 10,
            Self::MissingFallbackRoots => 11,
            Self::MissingRetainedStyleSystem => 12,
            Self::MissingRetainedCascadeData => 13,
        }
    }

    open spec fn of_key(key: u64) -> Self {
        match key {
            0 => Self::UnknownDependency,
            1 => Self::FullSelector,
            2 => Self::RelativeAnySelector,
            3 => Self::ScopeDependency,
            4 => Self::UnsupportedStateDependency,
            5 => Self::UnsupportedShadowDependency,
            6 => Self::SourceScopeFallback,
            7 => Self::UnsupportedDependency,
            8 => Self::NthOfDependency,
            9 => Self::NestedRelativeSelectorDependency,
            10 => Self::InexactEmptyResult,
            11 => Self::MissingFallbackRoots,
            12 => Self::MissingRetainedStyleSystem,
            _ => Self::MissingRetainedCascadeData,
        }
    }

    proof fn lemma_key_round_trip(self) {
    }

    fn to_key(self) -> u64 {
        match self {
            Self::UnknownDependency => 0,
            Self::FullSelector => 1,
            Self::RelativeAnySelector => 2,
            Self::ScopeDependency => 3,
            Self::UnsupportedStateDependency => 4,
            Self::UnsupportedShadowDependency => 5,
            Self::SourceScopeFallback => 6,
            Self::UnsupportedDependency => 7,
            Self::NthOfDependency => 8,
            Self::NestedRelativeSelectorDependency => 9,
            Self::InexactEmptyResult => 10,
            Self::MissingFallbackRoots => 11,
            Self::MissingRetainedStyleSystem => 12,
            Self::MissingRetainedCascadeData => 13,
        }
    }

    fn from_key(key: u64) -> Self {
        match key {
            0 => Self::UnknownDependency,
            1 => Self::FullSelector,
            2 => Self::RelativeAnySelector,
            3 => Self::ScopeDependency,
            4 => Self::UnsupportedStateDependency,
            5 => Self::UnsupportedShadowDependency,
            6 => Self::SourceScopeFallback,
            7 => Self::UnsupportedDependency,
            8 => Self::NthOfDependency,
            9 => Self::NestedRelativeSelectorDependency,
            10 => Self::InexactEmptyResult,
            11 => Self::MissingFallbackRoots,
            12 => Self::MissingRetainedStyleSystem,
            _ => Self::MissingRetainedCascadeData,
        }
    }
}

} // verus!
