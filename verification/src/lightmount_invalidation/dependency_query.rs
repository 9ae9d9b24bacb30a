//! Answers to dependency queries, and the context roots that they call for.

use vstd::prelude::*;

use super::lists::copy_slice;
use super::ordered_set::OrderedSet;
use super::reasons::{
    LightmountDependencyFallbackReason, LightmountSourceInvalidationFallbackReason,
};

verus! {

/// Invalidation dependency kind extracted from selector invalidation maps.
#[derive(Clone, Copy, Debug, PartialEq, Eq, Hash, Structural)]
pub enum LightmountDependencyKind {
    /// The changed element itself can be invalidated.
    Element,
    /// The changed element and descendants can be invalidated.
    ElementAndDescendants,
    /// Descendants of the changed element can be invalidated.
    Descendants,
    /// Following siblings of the changed element can be invalidated.
    Siblings,
    /// Slotted elements can be invalidated.
    SlottedElements,
    /// Exposed parts can be invalidated.
    Parts,
    /// Relative selector anchors among ancestors can be invalidated.
    RelativeAncestors,
    /// A relative selector parent anchor can be invalidated.
    RelativeParent,
    /// A relative selector previous-sibling anchor can be invalidated.
    RelativePrevSibling,
    /// Relative selector ancestor previous-sibling anchors can be invalidated.
    RelativeAncestorPrevSibling,
    /// Relative selector earlier-sibling anchors can be invalidated.
    RelativeEarlierSibling,
    /// Relative selector ancestor earlier-sibling anchors can be invalidated.
    RelativeAncestorEarlierSibling,
    /// Scope dependencies can be invalidated.
    Scope,
}

/// Which fallback roots may be used when a dependency query is not exact.
#[derive(Clone, Copy, Debug, PartialEq, Eq, Hash, Structural)]
pub enum LightmountDependencyFallbackRootPolicy {
    /// Mutation-context roots are sufficient as the conservative cleanup target.
    ContextRoots,
    /// The caller must use source-local or source-scope fallback roots.
    SourceFallback,
}

/// Source dependency fallback handling chosen from one dependency query result.
#[derive(Debug, PartialEq, Eq)]
pub enum LightmountDependencyFallbackHandling {
    /// Mutation context roots can satisfy the fallback, when available.
    ContextRoots(OrderedSet<LightmountSourceInvalidationFallbackReason>),
    /// The source's fallback roots are required.
    SourceFallback(OrderedSet<LightmountSourceInvalidationFallbackReason>),
}

impl Clone for LightmountDependencyFallbackHandling {
    fn clone(&self) -> (handling: Self)
        ensures
            handling.policy() == self.policy(),
            handling.reasons() == self.reasons(),
    {
        match self {
            Self::ContextRoots(reasons) => Self::ContextRoots(reasons.clone()),
            Self::SourceFallback(reasons) => Self::SourceFallback(reasons.clone()),
        }
    }
}

impl LightmountDependencyFallbackHandling {
    /// The policy that was chosen.
    pub open spec fn policy(&self) -> LightmountDependencyFallbackRootPolicy {
        match self {
            Self::ContextRoots(_) => LightmountDependencyFallbackRootPolicy::ContextRoots,
            Self::SourceFallback(_) => LightmountDependencyFallbackRootPolicy::SourceFallback,
        }
    }

    /// The reasons for the fallback.
    pub open spec fn reasons(&self) -> Seq<LightmountSourceInvalidationFallbackReason> {
        match self {
            Self::ContextRoots(reasons) => reasons@,
            Self::SourceFallback(reasons) => reasons@,
        }
    }
}

/// The content of an answer to a dependency query.
pub struct DependencyAnswer {
    /// The dependency kinds, in the order in which they were found.
    pub kinds: Seq<LightmountDependencyKind>,
    /// Whether an unknown dependency was found.
    pub unknown: bool,
    /// The reasons for which the answer is not exact.
    pub reasons: Seq<LightmountDependencyFallbackReason>,
}

impl DependencyAnswer {
    /// The answer that names no dependency.
    pub open spec fn none() -> Self {
        DependencyAnswer { kinds: seq![], unknown: false, reasons: seq![] }
    }

    /// No kind or reason occurs twice, and an unknown dependency is among the
    /// reasons.
    pub open spec fn well_formed(self) -> bool {
        &&& self.kinds.no_duplicates()
        &&& self.reasons.no_duplicates()
        &&& self.unknown <==> self.reasons.contains(
            LightmountDependencyFallbackReason::UnknownDependency,
        )
    }

    /// This answer with a kind added.
    pub open spec fn with_kind(self, kind: LightmountDependencyKind) -> Self {
        DependencyAnswer {
            kinds: super::ordered_set::push_unique(self.kinds, kind),
            ..self
        }
    }

    /// This answer with a reason added.
    pub open spec fn with_reason(self, reason: LightmountDependencyFallbackReason) -> Self {
        DependencyAnswer {
            unknown: self.unknown || reason
                == LightmountDependencyFallbackReason::UnknownDependency,
            reasons: super::ordered_set::push_unique(self.reasons, reason),
            ..self
        }
    }

    /// This answer with the kinds of a list added.
    pub open spec fn with_kinds(self, kinds: Seq<LightmountDependencyKind>) -> Self {
        DependencyAnswer {
            kinds: super::ordered_set::extend_unique(self.kinds, kinds),
            ..self
        }
    }

    /// This answer with the reasons of a list added.
    pub open spec fn with_reasons(self, reasons: Seq<LightmountDependencyFallbackReason>) -> Self {
        DependencyAnswer {
            unknown: self.unknown || reasons.contains(
                LightmountDependencyFallbackReason::UnknownDependency,
            ),
            reasons: super::ordered_set::extend_unique(self.reasons, reasons),
            ..self
        }
    }

    /// This answer joined with another.
    pub open spec fn join(self, other: Self) -> Self {
        let joined = self.with_kinds(other.kinds).with_reasons(other.reasons);
        if other.unknown {
            joined.with_reason(LightmountDependencyFallbackReason::UnknownDependency)
        } else {
            joined
        }
    }

    /// Whether any dependency matched the query.
    pub open spec fn has_any(self) -> bool {
        self.unknown || self.kinds.len() > 0 || self.reasons.len() > 0
    }

    /// Whether following siblings can be affected.
    pub open spec fn affects_siblings(self) -> bool {
        ||| self.unknown
        ||| self.kinds.contains(LightmountDependencyKind::Siblings)
        ||| self.affects_previous_sibling_anchors()
    }

    /// Whether previous-sibling relative selector anchors can be affected.
    pub open spec fn affects_previous_sibling_anchors(self) -> bool {
        ||| self.kinds.contains(LightmountDependencyKind::RelativePrevSibling)
        ||| self.kinds.contains(LightmountDependencyKind::RelativeEarlierSibling)
        ||| self.kinds.contains(LightmountDependencyKind::RelativeAncestorPrevSibling)
        ||| self.kinds.contains(LightmountDependencyKind::RelativeAncestorEarlierSibling)
    }

    /// Whether relative selector anchors can be affected.
    pub open spec fn affects_relative_anchors(self) -> bool {
        ||| self.kinds.contains(LightmountDependencyKind::RelativeAncestors)
        ||| self.kinds.contains(LightmountDependencyKind::RelativeParent)
        ||| self.affects_previous_sibling_anchors()
        ||| self.reasons.contains(LightmountDependencyFallbackReason::RelativeAnySelector)
        ||| self.reasons.contains(
            LightmountDependencyFallbackReason::NestedRelativeSelectorDependency,
        )
    }

    /// Whether the only kinds are a direct previous-sibling anchor and the
    /// following sibling that comes with `+`.
    pub open spec fn is_direct_previous_sibling_only(self) -> bool {
        &&& self.kinds.contains(LightmountDependencyKind::RelativePrevSibling)
        &&& forall|i: int|
            0 <= i < self.kinds.len() ==> #[trigger] self.kinds[i]
                == LightmountDependencyKind::RelativePrevSibling || self.kinds[i]
                == LightmountDependencyKind::Siblings
    }

    /// Whether slotted elements can be affected.
    pub open spec fn affects_slotted(self) -> bool {
        self.unknown || self.kinds.contains(LightmountDependencyKind::SlottedElements)
    }

    /// Whether context roots can serve as fallback: there are reasons, and
    /// each is one that the mutation context covers.
    pub open spec fn policy(self) -> LightmountDependencyFallbackRootPolicy {
        if self.reasons.len() > 0 && forall|i: int|
            0 <= i < self.reasons.len() ==> #[trigger] self.reasons[i]
                == LightmountDependencyFallbackReason::NestedRelativeSelectorDependency
                || self.reasons[i] == LightmountDependencyFallbackReason::NthOfDependency {
            LightmountDependencyFallbackRootPolicy::ContextRoots
        } else {
            LightmountDependencyFallbackRootPolicy::SourceFallback
        }
    }

    /// The explicit reasons, or else the one that the kinds suggest.
    pub open spec fn reasons_or_shape(self) -> Seq<LightmountDependencyFallbackReason> {
        if self.reasons.len() > 0 {
            self.reasons
        } else if self.kinds.contains(LightmountDependencyKind::Scope) {
            seq![LightmountDependencyFallbackReason::ScopeDependency]
        } else {
            seq![LightmountDependencyFallbackReason::UnsupportedDependency]
        }
    }

    /// The explicit or suggested reasons as source reasons, each once.
    pub open spec fn source_reasons(self) -> Seq<LightmountSourceInvalidationFallbackReason> {
        super::ordered_set::extend_unique(
            Seq::empty(),
            self.reasons_or_shape().map_values(
                |reason: LightmountDependencyFallbackReason| reason.source_reason(),
            ),
        )
    }

    /// The context-root categories that this answer calls for.
    pub open spec fn flags(self) -> LightmountDependencyContextRootFlags {
        flags_of_kinds(self.reasons.len() > 0, self.kinds)
    }
}

/// The context-root categories that a list of kinds calls for.
pub open spec fn flags_of_kinds(
    requires_fallback: bool,
    kinds: Seq<LightmountDependencyKind>,
) -> LightmountDependencyContextRootFlags {
    LightmountDependencyContextRootFlags {
        requires_source_fallback: requires_fallback || kinds.contains(
            LightmountDependencyKind::Scope,
        ),
        local_subtree: kinds.contains(LightmountDependencyKind::Element) || kinds.contains(
            LightmountDependencyKind::ElementAndDescendants,
        ) || kinds.contains(LightmountDependencyKind::Descendants),
        ancestor_chain: kinds.contains(LightmountDependencyKind::RelativeAncestors)
            || kinds.contains(LightmountDependencyKind::RelativeParent) || kinds.contains(
            LightmountDependencyKind::RelativeAncestorPrevSibling,
        ) || kinds.contains(LightmountDependencyKind::RelativeAncestorEarlierSibling),
        following_siblings: kinds.contains(LightmountDependencyKind::Siblings),
        direct_previous_sibling_relative: kinds.contains(
            LightmountDependencyKind::RelativePrevSibling,
        ),
        previous_sibling: kinds.contains(LightmountDependencyKind::RelativePrevSibling),
        earlier_siblings: kinds.contains(LightmountDependencyKind::RelativeEarlierSibling),
        ancestor_previous_siblings: kinds.contains(
            LightmountDependencyKind::RelativeAncestorPrevSibling,
        ),
        ancestor_earlier_siblings: kinds.contains(
            LightmountDependencyKind::RelativeAncestorEarlierSibling,
        ),
        slotted_elements: kinds.contains(LightmountDependencyKind::SlottedElements),
        parts: kinds.contains(LightmountDependencyKind::Parts),
    }
}

/// Conservative query result for one changed class/id/attribute/state token.
#[derive(Debug, PartialEq, Eq, Hash)]
pub struct LightmountDependencyQueryResult {
    /// The dependency kinds, in the order in which they were found.
    pub kinds: Vec<LightmountDependencyKind>,
    /// Whether an unknown dependency was found.
    pub unknown_dependency: bool,
    /// The reasons for which the answer is not exact.
    pub fallback_reasons: Vec<LightmountDependencyFallbackReason>,
}

impl View for LightmountDependencyQueryResult {
    type V = DependencyAnswer;

    open spec fn view(&self) -> DependencyAnswer {
        DependencyAnswer {
            kinds: self.kinds@,
            unknown: self.unknown_dependency,
            reasons: self.fallback_reasons@,
        }
    }
}

impl Default for LightmountDependencyQueryResult {
    fn default() -> (result: Self)
        ensures
            result@ == DependencyAnswer::none(),
    {
        let result = Self {
            kinds: Vec::new(),
            unknown_dependency: false,
            fallback_reasons: Vec::new(),
        };
        assert(result.kinds@ =~= seq![]);
        assert(result.fallback_reasons@ =~= seq![]);
        result
    }
}

impl Clone for LightmountDependencyQueryResult {
    fn clone(&self) -> (result: Self)
        ensures
            result@ == self@,
    {
        Self {
            kinds: copy_slice(self.kinds.as_slice()),
            unknown_dependency: self.unknown_dependency,
            fallback_reasons: copy_slice(self.fallback_reasons.as_slice()),
        }
    }
}

impl LightmountDependencyQueryResult {
    /// Return whether this kind was found.
    pub fn has_kind(&self, kind: LightmountDependencyKind) -> (found: bool)
        ensures
            found == self@.kinds.contains(kind),
    {
        let mut index: usize = 0;
        while index < self.kinds.len()
            invariant
                index <= self.kinds.len(),
                forall|i: int| 0 <= i < index ==> #[trigger] self.kinds@[i] != kind,
            decreases self.kinds.len() - index,
        {
            if self.kinds[index] == kind {
                assert(self.kinds@[index as int] == kind);
                return true;
            }
            index = index + 1;
        }
        false
    }

    /// Return whether this reason was found.
    pub fn has_reason(&self, reason: LightmountDependencyFallbackReason) -> (found: bool)
        ensures
            found == self@.reasons.contains(reason),
    {
        let mut index: usize = 0;
        while index < self.fallback_reasons.len()
            invariant
                index <= self.fallback_reasons.len(),
                forall|i: int| 0 <= i < index ==> #[trigger] self.fallback_reasons@[i] != reason,
            decreases self.fallback_reasons.len() - index,
        {
            if self.fallback_reasons[index] == reason {
                assert(self.fallback_reasons@[index as int] == reason);
                return true;
            }
            index = index + 1;
        }
        false
    }

    /// Add a kind unless it is there.
    pub fn add_kind(&mut self, kind: LightmountDependencyKind)
        ensures
            final(self)@ == old(self)@.with_kind(kind),
    {
        if !self.has_kind(kind) {
            self.kinds.push(kind);
        }
    }

    /// Add a reason unless it is there.
    pub fn add_fallback_reason(&mut self, reason: LightmountDependencyFallbackReason)
        ensures
            final(self)@ == old(self)@.with_reason(reason),
    {
        if !self.has_reason(reason) {
            self.fallback_reasons.push(reason);
        }
        if matches!(reason, LightmountDependencyFallbackReason::UnknownDependency) {
            self.unknown_dependency = true;
        }
    }

    /// Join another answer into this one.
    pub fn extend(&mut self, other: Self)
        ensures
            final(self)@ == old(self)@.join(other@),
    {
        let ghost before = self@;
        let mut index: usize = 0;
        assert(self@ =~= before.with_kinds(other.kinds@.take(0)));
        while index < other.kinds.len()
            invariant
                index <= other.kinds.len(),
                self@ == before.with_kinds(other.kinds@.take(index as int)),
            decreases other.kinds.len() - index,
        {
            self.add_kind(other.kinds[index]);
            proof {
                let next = other.kinds@.take(index + 1);
                assert(next.drop_last() =~= other.kinds@.take(index as int));
                assert(next.last() == other.kinds@[index as int]);
            }
            index = index + 1;
        }
        assert(other.kinds@.take(other.kinds@.len() as int) =~= other.kinds@);
        let ghost kinds_added = self@;
        let mut index: usize = 0;
        assert(self@ =~= kinds_added.with_reasons(other.fallback_reasons@.take(0)));
        while index < other.fallback_reasons.len()
            invariant
                index <= other.fallback_reasons.len(),
                self@ == kinds_added.with_reasons(other.fallback_reasons@.take(index as int)),
            decreases other.fallback_reasons.len() - index,
        {
            self.add_fallback_reason(other.fallback_reasons[index]);
            proof {
                let unknown = LightmountDependencyFallbackReason::UnknownDependency;
                let last = other.fallback_reasons@[index as int];
                let prior = other.fallback_reasons@.take(index as int);
                let next = other.fallback_reasons@.take(index + 1);
                assert(next.drop_last() =~= prior);
                assert(next.last() == last);
                super::lists::lemma_contains_push(prior, last, unknown);
                assert(next =~= prior.push(last));
            }
            index = index + 1;
        }
        assert(other.fallback_reasons@.take(other.fallback_reasons@.len() as int)
            =~= other.fallback_reasons@);
        if other.unknown_dependency {
            self.add_fallback_reason(LightmountDependencyFallbackReason::UnknownDependency);
        }
    }

    /// Returns whether any dependency matched the query.
    pub fn has_any_dependency(&self) -> (any: bool)
        ensures
            any == self@.has_any(),
    {
        self.unknown_dependency || self.kinds.len() > 0 || self.fallback_reasons.len() > 0
    }

    /// Returns whether this query can invalidate descendants of the changed
    /// element.
    pub fn has_descendants_dependency(&self) -> (found: bool)
        ensures
            found == (self@.kinds.contains(LightmountDependencyKind::Descendants)
                || self@.kinds.contains(LightmountDependencyKind::ElementAndDescendants)),
    {
        self.has_kind(LightmountDependencyKind::Descendants) || self.has_kind(
            LightmountDependencyKind::ElementAndDescendants,
        )
    }

    /// Returns whether this query can invalidate `::slotted(...)` elements.
    pub fn has_slotted_elements_dependency(&self) -> (found: bool)
        ensures
            found == self@.kinds.contains(LightmountDependencyKind::SlottedElements),
    {
        self.has_kind(LightmountDependencyKind::SlottedElements)
    }

    /// Returns whether this query can invalidate `::part(...)` elements.
    pub fn has_parts_dependency(&self) -> (found: bool)
        ensures
            found == self@.kinds.contains(LightmountDependencyKind::Parts),
    {
        self.has_kind(LightmountDependencyKind::Parts)
    }

    /// Returns whether this query can invalidate relative selector ancestor
    /// anchors.
    pub fn has_relative_ancestors_dependency(&self) -> (found: bool)
        ensures
            found == self@.kinds.contains(LightmountDependencyKind::RelativeAncestors),
    {
        self.has_kind(LightmountDependencyKind::RelativeAncestors)
    }

    /// Returns the concrete dependency kinds captured for this query.
    pub fn kinds(&self) -> (kinds: &[LightmountDependencyKind])
        ensures
            kinds@ == self@.kinds,
    {
        self.kinds.as_slice()
    }

    /// Returns conservative fallback reasons captured for this query.
    pub fn fallback_reasons(&self) -> (reasons: &[LightmountDependencyFallbackReason])
        ensures
            reasons@ == self@.reasons,
    {
        self.fallback_reasons.as_slice()
    }

    /// Returns whether this query requires conservative fallback handling.
    pub fn requires_fallback(&self) -> (requires_fallback: bool)
        ensures
            requires_fallback == (self@.reasons.len() > 0),
    {
        self.fallback_reasons.len() > 0
    }

    /// Returns the fallback-root policy for this dependency query.
    pub fn fallback_root_policy(&self) -> (policy: LightmountDependencyFallbackRootPolicy)
        ensures
            policy == self@.policy(),
    {
        if self.fallback_reasons.len() == 0 {
            return LightmountDependencyFallbackRootPolicy::SourceFallback;
        }
        let mut index: usize = 0;
        while index < self.fallback_reasons.len()
            invariant
                index <= self.fallback_reasons.len(),
                forall|i: int|
                    0 <= i < index ==> #[trigger] self.fallback_reasons@[i]
                        == LightmountDependencyFallbackReason::NestedRelativeSelectorDependency
                        || self.fallback_reasons@[i]
                        == LightmountDependencyFallbackReason::NthOfDependency,
            decreases self.fallback_reasons.len() - index,
        {
            if !matches!(
                self.fallback_reasons[index],
                LightmountDependencyFallbackReason::NestedRelativeSelectorDependency
                | LightmountDependencyFallbackReason::NthOfDependency
            ) {
                assert(self@.reasons[index as int] == self.fallback_reasons@[index as int]);
                return LightmountDependencyFallbackRootPolicy::SourceFallback;
            }
            index = index + 1;
        }
        LightmountDependencyFallbackRootPolicy::ContextRoots
    }

    /// Returns explicit fallback reasons, or conservative shape-derived reasons
    /// when the caller has already determined this query needs fallback handling.
    pub fn fallback_or_shape_reasons(&self) -> (reasons: Vec<LightmountDependencyFallbackReason>)
        ensures
            reasons@ == self@.reasons_or_shape(),
    {
        if self.fallback_reasons.len() > 0 {
            return copy_slice(self.fallback_reasons.as_slice());
        }
        if self.has_kind(LightmountDependencyKind::Scope) {
            return vec![LightmountDependencyFallbackReason::ScopeDependency];
        }
        vec![LightmountDependencyFallbackReason::UnsupportedDependency]
    }

    /// Returns source invalidation fallback reasons for this query result.
    pub fn source_invalidation_fallback_reasons(&self) -> (reasons: OrderedSet<
        LightmountSourceInvalidationFallbackReason,
    >)
        ensures
            reasons@ == self@.source_reasons(),
    {
        let given = self.fallback_or_shape_reasons();
        let ghost mapped = given@.map_values(
            |reason: LightmountDependencyFallbackReason| reason.source_reason(),
        );
        let mut reasons: OrderedSet<LightmountSourceInvalidationFallbackReason> = OrderedSet::new();
        let mut index: usize = 0;
        while index < given.len()
            invariant
                index <= given.len(),
                mapped == given@.map_values(
                    |reason: LightmountDependencyFallbackReason| reason.source_reason(),
                ),
                reasons@ == super::ordered_set::extend_unique(
                    Seq::empty(),
                    mapped.take(index as int),
                ),
            decreases given.len() - index,
        {
            reasons.insert(LightmountSourceInvalidationFallbackReason::from(given[index]));
            proof {
                let next = mapped.take(index + 1);
                assert(next.drop_last() =~= mapped.take(index as int));
                assert(next.last() == mapped[index as int]);
            }
            index = index + 1;
        }
        assert(mapped.take(mapped.len() as int) =~= mapped);
        reasons
    }

    /// Returns source dependency fallback handling for this query result.
    pub fn source_dependency_fallback_handling(&self) -> (handling:
        LightmountDependencyFallbackHandling)
        ensures
            handling.policy() == self@.policy(),
            handling.reasons() == self@.source_reasons(),
    {
        let reasons = self.source_invalidation_fallback_reasons();
        match self.fallback_root_policy() {
            LightmountDependencyFallbackRootPolicy::ContextRoots => {
                LightmountDependencyFallbackHandling::ContextRoots(reasons)
            },
            LightmountDependencyFallbackRootPolicy::SourceFallback => {
                LightmountDependencyFallbackHandling::SourceFallback(reasons)
            },
        }
    }

    /// Returns whether the query can affect following sibling invalidation.
    pub fn has_sibling_dependency(&self) -> (found: bool)
        ensures
            found == self@.affects_siblings(),
    {
        self.unknown_dependency || self.has_kind(LightmountDependencyKind::Siblings)
            || self.has_relative_previous_sibling_dependency()
    }

    /// Returns whether this query can affect relative selector anchors.
    pub fn has_relative_selector_dependency(&self) -> (found: bool)
        ensures
            found == self@.affects_relative_anchors(),
    {
        self.has_kind(LightmountDependencyKind::RelativeAncestors) || self.has_kind(
            LightmountDependencyKind::RelativeParent,
        ) || self.has_relative_previous_sibling_dependency() || self.has_reason(
            LightmountDependencyFallbackReason::RelativeAnySelector,
        ) || self.has_reason(LightmountDependencyFallbackReason::NestedRelativeSelectorDependency)
    }

    /// Returns whether this query can affect previous-sibling relative selector
    /// anchors.
    pub fn has_relative_previous_sibling_dependency(&self) -> (found: bool)
        ensures
            found == self@.affects_previous_sibling_anchors(),
    {
        self.has_kind(LightmountDependencyKind::RelativePrevSibling) || self.has_kind(
            LightmountDependencyKind::RelativeEarlierSibling,
        ) || self.has_kind(LightmountDependencyKind::RelativeAncestorPrevSibling) || self.has_kind(
            LightmountDependencyKind::RelativeAncestorEarlierSibling,
        )
    }

    /// Returns whether this query is limited to a direct previous-sibling
    /// relative dependency plus the following-sibling dependency recorded for
    /// `+`.
    pub fn has_only_direct_relative_previous_sibling_dependency(&self) -> (only: bool)
        ensures
            only == self@.is_direct_previous_sibling_only(),
    {
        let mut index: usize = 0;
        while index < self.kinds.len()
            invariant
                index <= self.kinds.len(),
                forall|i: int|
                    0 <= i < index ==> #[trigger] self.kinds@[i]
                        == LightmountDependencyKind::RelativePrevSibling || self.kinds@[i]
                        == LightmountDependencyKind::Siblings,
            decreases self.kinds.len() - index,
        {
            if !matches!(
                self.kinds[index],
                LightmountDependencyKind::RelativePrevSibling | LightmountDependencyKind::Siblings
            ) {
                assert(self@.kinds[index as int] == self.kinds@[index as int]);
                return false;
            }
            index = index + 1;
        }
        self.has_kind(LightmountDependencyKind::RelativePrevSibling)
    }

    /// Returns whether this dependency needs structural context fallback
    /// cleanup for a universal child-list structural request.
    pub fn requires_structural_context_fallback_cleanup(
        &self,
        request_requires_child_list_structural_dependency: bool,
        query_is_universal: bool,
    ) -> (required: bool)
        ensures
            required == (request_requires_child_list_structural_dependency && query_is_universal
                && self@.affects_relative_anchors()),
    {
        request_requires_child_list_structural_dependency && query_is_universal
            && self.has_relative_selector_dependency()
    }

    /// Returns whether this query can affect `::slotted(...)` invalidation.
    pub fn has_slotted_dependency(&self) -> (found: bool)
        ensures
            found == self@.affects_slotted(),
    {
        self.unknown_dependency || self.has_kind(LightmountDependencyKind::SlottedElements)
    }

    /// Returns the fallback-root categories this query can affect.
    pub fn context_root_flags(&self) -> (flags: LightmountDependencyContextRootFlags)
        ensures
            flags == self@.flags(),
    {
        let mut flags = LightmountDependencyContextRootFlags::default();
        flags.requires_source_fallback = self.requires_fallback();
        let mut index: usize = 0;
        while index < self.kinds.len()
            invariant
                index <= self.kinds.len(),
                flags == flags_of_kinds(
                    self.fallback_reasons@.len() > 0,
                    self.kinds@.take(index as int),
                ),
            decreases self.kinds.len() - index,
        {
            let kind = self.kinds[index];
            match kind {
                LightmountDependencyKind::Element
                | LightmountDependencyKind::ElementAndDescendants
                | LightmountDependencyKind::Descendants => {
                    flags.local_subtree = true;
                },
                LightmountDependencyKind::Siblings => {
                    flags.following_siblings = true;
                },
                LightmountDependencyKind::SlottedElements => {
                    flags.slotted_elements = true;
                },
                LightmountDependencyKind::Parts => {
                    flags.parts = true;
                },
                LightmountDependencyKind::RelativeAncestors
                | LightmountDependencyKind::RelativeParent => {
                    flags.ancestor_chain = true;
                },
                LightmountDependencyKind::RelativePrevSibling => {
                    flags.direct_previous_sibling_relative = true;
                    flags.previous_sibling = true;
                },
                LightmountDependencyKind::RelativeEarlierSibling => {
                    flags.earlier_siblings = true;
                },
                LightmountDependencyKind::RelativeAncestorPrevSibling => {
                    flags.ancestor_chain = true;
                    flags.ancestor_previous_siblings = true;
                },
                LightmountDependencyKind::RelativeAncestorEarlierSibling => {
                    flags.ancestor_chain = true;
                    flags.ancestor_earlier_siblings = true;
                },
                LightmountDependencyKind::Scope => {
                    // The retained scope action walker needs the place of the
                    // dependency in its selector, which a query answer does
                    // not have, so mutation context roots are not sufficient.
                    flags.requires_source_fallback = true;
                },
            }
            proof {
                let prior = self.kinds@.take(index as int);
                assert(self.kinds@.take(index + 1) =~= prior.push(kind));
                assert forall|other: LightmountDependencyKind| #[trigger]
                    prior.push(kind).contains(other) <==> prior.contains(other) || kind
                        == other by {
                    super::lists::lemma_contains_push(prior, kind, other);
                }
            }
            index = index + 1;
        }
        assert(self.kinds@.take(self.kinds@.len() as int) =~= self.kinds@);
        flags
    }
}

/// Adding kinds and reasons and joining answers keep an answer well-formed.
pub proof fn lemma_answers_stay_well_formed(
    answer: DependencyAnswer,
    other: DependencyAnswer,
    kind: LightmountDependencyKind,
    reason: LightmountDependencyFallbackReason,
)
    requires
        answer.well_formed(),
        other.well_formed(),
    ensures
        DependencyAnswer::none().well_formed(),
        answer.with_kind(kind).well_formed(),
        answer.with_reason(reason).well_formed(),
        answer.join(other).well_formed(),
{
    let unknown = LightmountDependencyFallbackReason::UnknownDependency;
    super::lists::lemma_contains_push(answer.reasons, reason, unknown);
    super::ordered_set::lemma_extend_unique_no_duplicates(answer.kinds, other.kinds);
    super::ordered_set::lemma_extend_unique_no_duplicates(answer.reasons, other.reasons);
    super::ordered_set::lemma_extend_unique_contains(answer.reasons, other.reasons, unknown);
}

/// A joined answer has the kinds and reasons of both and no others, and names
/// an unknown dependency where either does.
pub proof fn lemma_join_is_union(answer: DependencyAnswer, other: DependencyAnswer)
    requires
        other.well_formed(),
    ensures
        forall|kind: LightmountDependencyKind| #[trigger]
            answer.join(other).kinds.contains(kind) <==> answer.kinds.contains(kind)
                || other.kinds.contains(kind),
        forall|reason: LightmountDependencyFallbackReason| #[trigger]
            answer.join(other).reasons.contains(reason) <==> answer.reasons.contains(reason)
                || other.reasons.contains(reason),
        answer.join(other).unknown == (answer.unknown || other.unknown),
{
    let unknown = LightmountDependencyFallbackReason::UnknownDependency;
    super::ordered_set::lemma_extend_unique_contains(answer.reasons, other.reasons, unknown);
    assert forall|kind: LightmountDependencyKind| #[trigger]
        answer.join(other).kinds.contains(kind) <==> answer.kinds.contains(kind)
            || other.kinds.contains(kind) by {
        super::ordered_set::lemma_extend_unique_contains(answer.kinds, other.kinds, kind);
    }
    assert forall|reason: LightmountDependencyFallbackReason| #[trigger]
        answer.join(other).reasons.contains(reason) <==> answer.reasons.contains(reason)
            || other.reasons.contains(reason) by {
        super::ordered_set::lemma_extend_unique_contains(answer.reasons, other.reasons, reason);
    }
}

/// Joining a well-formed answer to the answer without dependencies gives that
/// answer, and joining the answer without dependencies changes nothing.
pub proof fn lemma_join_none(answer: DependencyAnswer)
    requires
        answer.well_formed(),
    ensures
        DependencyAnswer::none().join(answer) == answer,
        answer.join(DependencyAnswer::none()) == answer,
{
    let none = DependencyAnswer::none();
    super::ordered_set::lemma_extend_unique_disjoint(none.kinds, answer.kinds);
    super::ordered_set::lemma_extend_unique_disjoint(none.reasons, answer.reasons);
    assert(none.kinds + answer.kinds =~= answer.kinds);
    assert(none.reasons + answer.reasons =~= answer.reasons);
    assert(none.join(answer).kinds =~= answer.kinds);
    assert(answer.join(none) =~= answer);
}

/// Dependency root categories needed by DOM-backed fallback-root construction.
#[derive(Clone, Copy, Debug, PartialEq, Eq, Structural)]
pub struct LightmountDependencyContextRootFlags {
    /// The query cannot be covered by context roots and needs source fallback.
    pub requires_source_fallback: bool,
    /// The changed element's local subtree can be affected.
    pub local_subtree: bool,
    /// Ancestors of the changed element can be affected.
    pub ancestor_chain: bool,
    /// Following siblings of the changed element can be affected.
    pub following_siblings: bool,
    /// The query includes a direct previous-sibling relative dependency.
    pub direct_previous_sibling_relative: bool,
    /// The previous element sibling can be affected.
    pub previous_sibling: bool,
    /// Earlier element siblings can be affected.
    pub earlier_siblings: bool,
    /// Previous siblings of ancestors can be affected.
    pub ancestor_previous_siblings: bool,
    /// Earlier siblings of ancestors can be affected.
    pub ancestor_earlier_siblings: bool,
    /// Assigned elements matched by `::slotted(...)` can be affected.
    pub slotted_elements: bool,
    /// Exposed part elements matched by `::part(...)` can be affected.
    pub parts: bool,
}

impl Default for LightmountDependencyContextRootFlags {
    fn default() -> (flags: Self)
        ensures
            flags == flags_of_kinds(false, seq![]),
    {
        Self {
            requires_source_fallback: false,
            local_subtree: false,
            ancestor_chain: false,
            following_siblings: false,
            direct_previous_sibling_relative: false,
            previous_sibling: false,
            earlier_siblings: false,
            ancestor_previous_siblings: false,
            ancestor_earlier_siblings: false,
            slotted_elements: false,
            parts: false,
        }
    }
}

/// A category of DOM-backed context roots.
#[derive(Clone, Copy, Debug, PartialEq, Eq, Structural)]
pub enum ContextRootCategory {
    /// Context roots are insufficient and source fallback is required.
    SourceFallback,
    /// The changed element's local subtree.
    LocalSubtree,
    /// The changed element's ancestor chain.
    AncestorChain,
    /// Following siblings.
    FollowingSiblings,
    /// Following siblings of ancestors.
    AncestorFollowingSiblings,
    /// The previous sibling.
    PreviousSibling,
    /// Earlier siblings.
    EarlierSiblings,
    /// Previous siblings of ancestors.
    AncestorPreviousSiblings,
    /// Assigned elements.
    SlottedElements,
    /// Exposed part roots.
    Parts,
}

/// The list of one category where it is wanted, else the empty list.
pub open spec fn category_if(wanted: bool, category: ContextRootCategory) -> Seq<
    ContextRootCategory,
> {
    if wanted {
        seq![category]
    } else {
        seq![]
    }
}

/// Sending a category where it is wanted appends it to what was sent.
proof fn lemma_category_sent(
    before: Seq<ContextRootCategory>,
    sent: Seq<ContextRootCategory>,
    wanted: bool,
    category: ContextRootCategory,
)
    ensures
        before + (sent + category_if(wanted, category)) == if wanted {
            (before + sent).push(category)
        } else {
            before + sent
        },
{
    assert(before + (sent + category_if(true, category)) =~= (before + sent).push(category));
    assert(sent + category_if(false, category) =~= sent);
}

/// Sink for DOM-backed context-root categories derived from one dependency
/// query result.
pub trait LightmountDependencyContextRootFlagsSink {
    /// The categories asked for so far.
    open spec fn context_categories(&self) -> Seq<ContextRootCategory> {
        Seq::empty()
    }

    /// Context roots are insufficient and source fallback is required.
    fn require_context_source_fallback(&mut self)
        ensures
            final(self).context_categories() == old(self).context_categories().push(
                ContextRootCategory::SourceFallback,
            ),
    ;

    /// Include the changed element's local subtree.
    fn include_context_local_subtree(&mut self)
        ensures
            final(self).context_categories() == old(self).context_categories().push(
                ContextRootCategory::LocalSubtree,
            ),
    ;

    /// Include the changed element's ancestor chain.
    fn include_context_ancestor_chain(&mut self)
        ensures
            final(self).context_categories() == old(self).context_categories().push(
                ContextRootCategory::AncestorChain,
            ),
    ;

    /// Include following siblings from the changed element or next-sibling
    /// context.
    fn include_context_following_siblings(&mut self)
        ensures
            final(self).context_categories() == old(self).context_categories().push(
                ContextRootCategory::FollowingSiblings,
            ),
    ;

    /// Include following siblings of ancestors.
    fn include_context_ancestor_following_siblings(&mut self)
        ensures
            final(self).context_categories() == old(self).context_categories().push(
                ContextRootCategory::AncestorFollowingSiblings,
            ),
    ;

    /// Include the previous sibling from mutation context, or the changed root
    /// if no previous sibling is known.
    fn include_context_previous_sibling(&mut self)
        ensures
            final(self).context_categories() == old(self).context_categories().push(
                ContextRootCategory::PreviousSibling,
            ),
    ;

    /// Include earlier siblings from mutation context, or from the changed root
    /// if no previous sibling is known.
    fn include_context_earlier_siblings(&mut self)
        ensures
            final(self).context_categories() == old(self).context_categories().push(
                ContextRootCategory::EarlierSiblings,
            ),
    ;

    /// Include previous siblings of the changed root's ancestors.
    fn include_context_ancestor_previous_siblings(&mut self)
        ensures
            final(self).context_categories() == old(self).context_categories().push(
                ContextRootCategory::AncestorPreviousSiblings,
            ),
    ;

    /// Include assigned/slotted elements.
    fn include_context_slotted_elements(&mut self)
        ensures
            final(self).context_categories() == old(self).context_categories().push(
                ContextRootCategory::SlottedElements,
            ),
    ;

    /// Include exposed part roots.
    fn include_context_parts(&mut self)
        ensures
            final(self).context_categories() == old(self).context_categories().push(
                ContextRootCategory::Parts,
            ),
    ;
}

impl LightmountDependencyContextRootFlags {
    /// Whether following siblings are asked for. A direct previous-sibling
    /// anchor alone accounts for the following sibling that comes with `+`,
    /// unless such fallback is allowed.
    pub open spec fn wants_following_siblings(
        self,
        allow_direct_previous_following_sibling_fallback: bool,
    ) -> bool {
        &&& self.following_siblings
        &&& {
            ||| allow_direct_previous_following_sibling_fallback
            ||| !self.direct_previous_sibling_relative
            ||| self.earlier_siblings
            ||| self.ancestor_previous_siblings
            ||| self.ancestor_earlier_siblings
        }
    }

    /// The categories asked for, in the order in which a sink receives them.
    pub open spec fn categories(
        self,
        allow_direct_previous_following_sibling_fallback: bool,
    ) -> Seq<ContextRootCategory> {
        let following = self.wants_following_siblings(
            allow_direct_previous_following_sibling_fallback,
        );
        category_if(self.requires_source_fallback, ContextRootCategory::SourceFallback)
            + category_if(self.local_subtree, ContextRootCategory::LocalSubtree) + category_if(
            self.ancestor_chain,
            ContextRootCategory::AncestorChain,
        ) + category_if(
            following && self.ancestor_chain,
            ContextRootCategory::AncestorFollowingSiblings,
        ) + category_if(
            following && !self.ancestor_chain,
            ContextRootCategory::FollowingSiblings,
        ) + category_if(self.previous_sibling, ContextRootCategory::PreviousSibling) + category_if(
            self.earlier_siblings,
            ContextRootCategory::EarlierSiblings,
        ) + category_if(
            self.ancestor_previous_siblings || self.ancestor_earlier_siblings,
            ContextRootCategory::AncestorPreviousSiblings,
        ) + category_if(self.slotted_elements, ContextRootCategory::SlottedElements) + category_if(
            self.parts,
            ContextRootCategory::Parts,
        )
    }

    /// Drain these context-root categories into a DOM-backed sink.
    pub fn drain_into<Sink: LightmountDependencyContextRootFlagsSink>(
        self,
        allow_direct_previous_following_sibling_fallback: bool,
        target: &mut Sink,
    )
        ensures
            final(target).context_categories() == old(target).context_categories()
                + self.categories(allow_direct_previous_following_sibling_fallback),
    {
        let ghost before = target.context_categories();
        let ghost mut sent: Seq<ContextRootCategory> = Seq::empty();
        assert(before + sent =~= before);
        if self.requires_source_fallback {
            target.require_context_source_fallback();
        }
        proof {
            lemma_category_sent(
                before,
                sent,
                self.requires_source_fallback,
                ContextRootCategory::SourceFallback,
            );
            sent = sent + category_if(
                self.requires_source_fallback,
                ContextRootCategory::SourceFallback,
            );
            assert(target.context_categories() == before + sent);
        }
        if self.local_subtree {
            target.include_context_local_subtree();
        }
        proof {
            lemma_category_sent(
                before,
                sent,
                self.local_subtree,
                ContextRootCategory::LocalSubtree,
            );
            sent = sent + category_if(
                self.local_subtree,
                ContextRootCategory::LocalSubtree,
            );
            assert(target.context_categories() == before + sent);
        }
        if self.ancestor_chain {
            target.include_context_ancestor_chain();
        }
        proof {
            lemma_category_sent(
                before,
                sent,
                self.ancestor_chain,
                ContextRootCategory::AncestorChain,
            );
            sent = sent + category_if(
                self.ancestor_chain,
                ContextRootCategory::AncestorChain,
            );
            assert(target.context_categories() == before + sent);
        }
        let following = self.includes_following_siblings(
            allow_direct_previous_following_sibling_fallback,
        );
        if following {
            if self.ancestor_chain {
                target.include_context_ancestor_following_siblings();
            } else {
                target.include_context_following_siblings();
            }
        }
        proof {
            lemma_category_sent(
                before,
                sent,
                following && self.ancestor_chain,
                ContextRootCategory::AncestorFollowingSiblings,
            );
            sent = sent + category_if(
                following && self.ancestor_chain,
                ContextRootCategory::AncestorFollowingSiblings,
            );
            lemma_category_sent(
                before,
                sent,
                following && !self.ancestor_chain,
                ContextRootCategory::FollowingSiblings,
            );
            sent = sent + category_if(
                following && !self.ancestor_chain,
                ContextRootCategory::FollowingSiblings,
            );
            assert(target.context_categories() == before + sent);
        }
        if self.previous_sibling {
            target.include_context_previous_sibling();
        }
        proof {
            lemma_category_sent(
                before,
                sent,
                self.previous_sibling,
                ContextRootCategory::PreviousSibling,
            );
            sent = sent + category_if(
                self.previous_sibling,
                ContextRootCategory::PreviousSibling,
            );
            assert(target.context_categories() == before + sent);
        }
        if self.earlier_siblings {
            target.include_context_earlier_siblings();
        }
        proof {
            lemma_category_sent(
                before,
                sent,
                self.earlier_siblings,
                ContextRootCategory::EarlierSiblings,
            );
            sent = sent + category_if(
                self.earlier_siblings,
                ContextRootCategory::EarlierSiblings,
            );
            assert(target.context_categories() == before + sent);
        }
        if self.ancestor_previous_siblings || self.ancestor_earlier_siblings {
            target.include_context_ancestor_previous_siblings();
        }
        proof {
            lemma_category_sent(
                before,
                sent,
                self.ancestor_previous_siblings || self.ancestor_earlier_siblings,
                ContextRootCategory::AncestorPreviousSiblings,
            );
            sent = sent + category_if(
                self.ancestor_previous_siblings || self.ancestor_earlier_siblings,
                ContextRootCategory::AncestorPreviousSiblings,
            );
            assert(target.context_categories() == before + sent);
        }
        if self.slotted_elements {
            target.include_context_slotted_elements();
        }
        proof {
            lemma_category_sent(
                before,
                sent,
                self.slotted_elements,
                ContextRootCategory::SlottedElements,
            );
            sent = sent + category_if(
                self.slotted_elements,
                ContextRootCategory::SlottedElements,
            );
            assert(target.context_categories() == before + sent);
        }
        if self.parts {
            target.include_context_parts();
        }
        proof {
            lemma_category_sent(before, sent, self.parts, ContextRootCategory::Parts);
            sent = sent + category_if(self.parts, ContextRootCategory::Parts);
            assert(target.context_categories() == before + sent);
        }
        assert(Seq::empty() + category_if(
            self.requires_source_fallback,
            ContextRootCategory::SourceFallback,
        ) =~= category_if(
            self.requires_source_fallback,
            ContextRootCategory::SourceFallback,
        ));
    }

    /// Return whether following siblings are asked for.
    pub fn includes_following_siblings(
        self,
        allow_direct_previous_following_sibling_fallback: bool,
    ) -> (includes: bool)
        ensures
            includes == self.wants_following_siblings(
                allow_direct_previous_following_sibling_fallback,
            ),
    {
        self.following_siblings && !(!allow_direct_previous_following_sibling_fallback
            && self.direct_previous_sibling_relative && !self.earlier_siblings
            && !self.ancestor_previous_siblings && !self.ancestor_earlier_siblings)
    }
}

/// Context-derived fallback roots for one dependency query.
#[derive(Debug, PartialEq, Eq)]
pub struct LightmountDependencyInvalidationContextRoots<Root> {
    /// These roots are insufficient and source fallback roots are required.
    pub requires_source_fallback: bool,
    /// The roots.
    pub roots: Vec<Root>,
}

impl<Root: Copy> Clone for LightmountDependencyInvalidationContextRoots<Root> {
    fn clone(&self) -> (roots: Self)
        ensures
            roots.requires_source_fallback == self.requires_source_fallback,
            roots.roots@ == self.roots@,
    {
        Self {
            requires_source_fallback: self.requires_source_fallback,
            roots: copy_slice(self.roots.as_slice()),
        }
    }
}

impl<Root> LightmountDependencyInvalidationContextRoots<Root> {
    /// Create context-derived fallback roots.
    pub fn new(requires_source_fallback: bool, roots: Vec<Root>) -> (created: Self)
        ensures
            created == (LightmountDependencyInvalidationContextRoots {
                requires_source_fallback,
                roots,
            }),
    {
        Self { requires_source_fallback, roots }
    }

    /// Returns whether these roots are insufficient for exact-safety fallback
    /// and source fallback roots are required.
    pub fn requires_source_fallback(&self) -> (required: bool)
        ensures
            required == self.requires_source_fallback,
    {
        self.requires_source_fallback
    }

    /// Return the context-derived roots.
    pub fn roots(&self) -> (roots: &[Root])
        ensures
            roots@ == self.roots@,
    {
        self.roots.as_slice()
    }

    /// Consume this value and return the context-derived roots.
    pub fn into_roots(self) -> (roots: Vec<Root>)
        ensures
            roots == self.roots,
    {
        self.roots
    }
}

/// Sink for the final DOM-backed context roots collected by an adapter.
pub trait LightmountDependencyInvalidationContextRootsPartsSink<Root> {
    /// Whether source fallback was recorded.
    open spec fn source_fallback_recorded(&self) -> bool {
        false
    }

    /// The roots received so far.
    open spec fn received_roots(&self) -> Seq<Root> {
        Seq::empty()
    }

    /// Context roots are insufficient and source fallback is required.
    fn record_context_source_fallback(&mut self)
        ensures
            final(self).source_fallback_recorded(),
            final(self).received_roots() == old(self).received_roots(),
    ;

    /// Extend the typed context-root result with collected DOM roots.
    fn extend_context_roots(&mut self, roots: Vec<Root>)
        ensures
            final(self).source_fallback_recorded() == old(self).source_fallback_recorded(),
            final(self).received_roots() == old(self).received_roots() + roots@,
    ;
}

/// Sink that can materialize DOM-backed context roots after the dependency
/// root categories were drained into it.
pub trait LightmountDependencyInvalidationContextRootsSink<
    Root,
>: LightmountDependencyContextRootFlagsSink + Sized {
    /// Whether the collected roots are insufficient.
    open spec fn needs_source_fallback(&self) -> bool {
        false
    }

    /// The collected roots.
    open spec fn collected_roots(&self) -> Seq<Root> {
        Seq::empty()
    }

    /// Drain collected context roots into a typed roots builder.
    fn drain_collected_context_roots_into<
        Target: LightmountDependencyInvalidationContextRootsPartsSink<Root>,
    >(self, target: &mut Target)
        ensures
            final(target).source_fallback_recorded() == (old(target).source_fallback_recorded()
                || self.needs_source_fallback()),
            final(target).received_roots() == old(target).received_roots()
                + self.collected_roots(),
    ;
}

/// Builder of typed context roots.
pub struct LightmountDependencyInvalidationContextRootsBuilder<Root> {
    /// Source fallback was recorded.
    pub requires_source_fallback: bool,
    /// The roots received so far.
    pub roots: Vec<Root>,
}

impl<Root> LightmountDependencyInvalidationContextRootsBuilder<Root> {
    /// Return the roots received.
    pub fn finish(self) -> (roots: LightmountDependencyInvalidationContextRoots<Root>)
        ensures
            roots.requires_source_fallback == self.requires_source_fallback,
            roots.roots@ == self.roots@,
    {
        LightmountDependencyInvalidationContextRoots::new(self.requires_source_fallback, self.roots)
    }
}

impl<Root> Default for LightmountDependencyInvalidationContextRootsBuilder<Root> {
    fn default() -> (builder: Self)
        ensures
            !builder.requires_source_fallback,
            builder.roots@ == Seq::<Root>::empty(),
    {
        Self { requires_source_fallback: false, roots: Vec::new() }
    }
}

impl<Root> LightmountDependencyInvalidationContextRootsPartsSink<
    Root,
> for LightmountDependencyInvalidationContextRootsBuilder<Root> {
    open spec fn source_fallback_recorded(&self) -> bool {
        self.requires_source_fallback
    }

    open spec fn received_roots(&self) -> Seq<Root> {
        self.roots@
    }

    fn record_context_source_fallback(&mut self) {
        self.requires_source_fallback = true;
    }

    fn extend_context_roots(&mut self, roots: Vec<Root>) {
        let mut roots = roots;
        self.roots.append(&mut roots);
    }
}

/// Opaque context-root plan derived from a dependency query.
#[derive(Clone, Copy, Debug, PartialEq, Eq, Structural)]
pub struct LightmountDependencyContextRootPlan {
    /// The categories of the query.
    pub flags: LightmountDependencyContextRootFlags,
    /// Whether direct previous-sibling queries may fall back to following
    /// siblings.
    pub allow_direct_previous_following_sibling_fallback: bool,
}

impl LightmountDependencyContextRootPlan {
    /// The plan of a query.
    pub open spec fn of_answer(
        answer: DependencyAnswer,
        allow_direct_previous_following_sibling_fallback: bool,
    ) -> Self {
        LightmountDependencyContextRootPlan {
            flags: answer.flags(),
            allow_direct_previous_following_sibling_fallback,
        }
    }

    /// Create the plan of a query.
    pub fn new(
        query: &LightmountDependencyQueryResult,
        allow_direct_previous_following_sibling_fallback: bool,
    ) -> (plan: Self)
        ensures
            plan == Self::of_answer(query@, allow_direct_previous_following_sibling_fallback),
    {
        Self {
            flags: query.context_root_flags(),
            allow_direct_previous_following_sibling_fallback,
        }
    }

    /// The categories that this plan asks for.
    pub open spec fn categories(self) -> Seq<ContextRootCategory> {
        self.flags.categories(self.allow_direct_previous_following_sibling_fallback)
    }

    /// Drain this plan into a DOM-backed root sink.
    pub fn drain_into<Root, Sink: LightmountDependencyInvalidationContextRootsSink<Root>>(
        self,
        sink: Sink,
    ) -> (roots: LightmountDependencyInvalidationContextRoots<Root>)
        ensures
            exists|filled: Sink|
                {
                    &&& #[trigger] filled.context_categories() == sink.context_categories()
                        + self.categories()
                    &&& roots.requires_source_fallback == filled.needs_source_fallback()
                    &&& roots.roots@ == filled.collected_roots()
                },
    {
        let mut sink = sink;
        self.flags.drain_into(self.allow_direct_previous_following_sibling_fallback, &mut sink);
        let ghost filled = sink;
        let mut builder: LightmountDependencyInvalidationContextRootsBuilder<Root> =
            LightmountDependencyInvalidationContextRootsBuilder::default();
        sink.drain_collected_context_roots_into(&mut builder);
        assert(builder.roots@ =~= filled.collected_roots());
        let roots = builder.finish();
        roots
    }
}

/// Build typed dependency context roots by draining one dependency query's
/// root-category plan into an adapter-provided DOM sink.
pub fn lightmount_dependency_invalidation_context_roots<
    Root,
    Sink: LightmountDependencyInvalidationContextRootsSink<Root>,
>(
    query: &LightmountDependencyQueryResult,
    allow_direct_previous_following_sibling_fallback: bool,
    sink: Sink,
) -> (roots: LightmountDependencyInvalidationContextRoots<Root>)
    ensures
        exists|filled: Sink|
            {
                &&& #[trigger] filled.context_categories() == sink.context_categories()
                    + query@.flags().categories(allow_direct_previous_following_sibling_fallback)
                &&& roots.requires_source_fallback == filled.needs_source_fallback()
                &&& roots.roots@ == filled.collected_roots()
            },
{
    LightmountDependencyContextRootPlan::new(
        query,
        allow_direct_previous_following_sibling_fallback,
    ).drain_into(sink)
}

} // verus!
