//! Laws of single dependencies and of the answers that are made of them.

use vstd::prelude::*;

use super::actions::{
    LightmountDependencyInvalidationAction, LightmountRelativeDependencyInvalidationAction,
    LightmountRetainedProcessorDependencyEffect, LightmountScopeDependencyInvalidationAction,
};
use super::dependency::{
    Dependency, DependencyInvalidationKind, NormalDependencyInvalidationKind,
    RelativeDependencyInvalidationKind, ScopeDependencyInvalidationKind,
};
use super::dependency_query::{
    ContextRootCategory, DependencyAnswer, LightmountDependencyContextRootFlags,
    LightmountDependencyContextRootPlan, LightmountDependencyFallbackRootPolicy,
    LightmountDependencyKind,
};
use super::reasons::{
    LightmountDependencyFallbackReason, LightmountSourceInvalidationFallbackReason,
};

verus! {

/// The place of a category in the order in which a sink is asked.
pub open spec fn place_of(category: ContextRootCategory) -> int {
    match category {
        ContextRootCategory::SourceFallback => 0,
        ContextRootCategory::LocalSubtree => 1,
        ContextRootCategory::AncestorChain => 2,
        ContextRootCategory::AncestorFollowingSiblings => 3,
        ContextRootCategory::FollowingSiblings => 4,
        ContextRootCategory::PreviousSibling => 5,
        ContextRootCategory::EarlierSiblings => 6,
        ContextRootCategory::AncestorPreviousSiblings => 7,
        ContextRootCategory::SlottedElements => 8,
        ContextRootCategory::Parts => 9,
    }
}

/// Whether categories come in order and before a place.
#[verifier::opaque]
spec fn asked_before(sent: Seq<ContextRootCategory>, place: int) -> bool {
    &&& forall|i: int, j: int|
        0 <= i < j < sent.len() ==> place_of(#[trigger] sent[i]) < place_of(#[trigger] sent[j])
    &&& forall|i: int| 0 <= i < sent.len() ==> place_of(#[trigger] sent[i]) < place
}

proof fn lemma_category_added(
    sent: Seq<ContextRootCategory>,
    wanted: bool,
    category: ContextRootCategory,
    other: ContextRootCategory,
)
    requires
        asked_before(sent, place_of(category)),
    ensures
        ({
            let after = sent + super::dependency_query::category_if(wanted, category);
            &&& after.contains(other) <==> sent.contains(other) || wanted && other == category
            &&& asked_before(after, place_of(category) + 1)
        }),
{
    reveal(asked_before);
    let more = super::dependency_query::category_if(wanted, category);
    let after = sent + more;
    if sent.contains(other) {
        let i = sent.index_of(other);
        assert(after[i] == other);
    }
    if wanted && other == category {
        assert(after[sent.len() as int] == other);
    }
    if after.contains(other) {
        let i = after.index_of(other);
        if i < sent.len() {
            assert(sent[i] == other);
        }
    }
    assert forall|i: int| 0 <= i < after.len() implies place_of(#[trigger] after[i]) < place_of(
        category,
    ) + 1 by {
        if i < sent.len() {
            assert(after[i] == sent[i]);
        }
    }
    assert forall|i: int, j: int| 0 <= i < j < after.len() implies place_of(#[trigger] after[i])
        < place_of(#[trigger] after[j]) by {
        assert(after[i] == sent[i]);
        if j < sent.len() {
            assert(after[j] == sent[j]);
        }
    }
}

/// The categories that a sink is asked for, one by one, and their order.
proof fn lemma_categories_asked(
    flags: LightmountDependencyContextRootFlags,
    allow: bool,
    other: ContextRootCategory,
)
    ensures
        ({
            let following = flags.wants_following_siblings(allow);
            let asked = flags.categories(allow);
            &&& asked.contains(other) <==> match other {
                ContextRootCategory::SourceFallback => flags.requires_source_fallback,
                ContextRootCategory::LocalSubtree => flags.local_subtree,
                ContextRootCategory::AncestorChain => flags.ancestor_chain,
                ContextRootCategory::FollowingSiblings => following && !flags.ancestor_chain,
                ContextRootCategory::AncestorFollowingSiblings => following
                    && flags.ancestor_chain,
                ContextRootCategory::PreviousSibling => flags.previous_sibling,
                ContextRootCategory::EarlierSiblings => flags.earlier_siblings,
                ContextRootCategory::AncestorPreviousSiblings => flags.ancestor_previous_siblings
                    || flags.ancestor_earlier_siblings,
                ContextRootCategory::SlottedElements => flags.slotted_elements,
                ContextRootCategory::Parts => flags.parts,
            }
            &&& asked_before(asked, 10)
        }),
{
    let following = flags.wants_following_siblings(allow);
    let s0 = super::dependency_query::category_if(
        flags.requires_source_fallback,
        ContextRootCategory::SourceFallback,
    );
    let empty = Seq::<ContextRootCategory>::empty();
    assert(empty + s0 =~= s0);
    assert(asked_before(empty, 0)) by {
        reveal(asked_before);
    }
    let s1 = s0 + super::dependency_query::category_if(
        flags.local_subtree,
        ContextRootCategory::LocalSubtree,
    );
    let s2 = s1 + super::dependency_query::category_if(
        flags.ancestor_chain,
        ContextRootCategory::AncestorChain,
    );
    let s3 = s2 + super::dependency_query::category_if(
        following && flags.ancestor_chain,
        ContextRootCategory::AncestorFollowingSiblings,
    );
    let s4 = s3 + super::dependency_query::category_if(
        following && !flags.ancestor_chain,
        ContextRootCategory::FollowingSiblings,
    );
    let s5 = s4 + super::dependency_query::category_if(
        flags.previous_sibling,
        ContextRootCategory::PreviousSibling,
    );
    let s6 = s5 + super::dependency_query::category_if(
        flags.earlier_siblings,
        ContextRootCategory::EarlierSiblings,
    );
    let s7 = s6 + super::dependency_query::category_if(
        flags.ancestor_previous_siblings || flags.ancestor_earlier_siblings,
        ContextRootCategory::AncestorPreviousSiblings,
    );
    let s8 = s7 + super::dependency_query::category_if(
        flags.slotted_elements,
        ContextRootCategory::SlottedElements,
    );
    lemma_category_added(
        empty,
        flags.requires_source_fallback,
        ContextRootCategory::SourceFallback,
        other,
    );
    lemma_category_added(s0, flags.local_subtree, ContextRootCategory::LocalSubtree, other);
    lemma_category_added(s1, flags.ancestor_chain, ContextRootCategory::AncestorChain, other);
    lemma_category_added(
        s2,
        following && flags.ancestor_chain,
        ContextRootCategory::AncestorFollowingSiblings,
        other,
    );
    lemma_category_added(
        s3,
        following && !flags.ancestor_chain,
        ContextRootCategory::FollowingSiblings,
        other,
    );
    lemma_category_added(s4, flags.previous_sibling, ContextRootCategory::PreviousSibling, other);
    lemma_category_added(s5, flags.earlier_siblings, ContextRootCategory::EarlierSiblings, other);
    lemma_category_added(
        s6,
        flags.ancestor_previous_siblings || flags.ancestor_earlier_siblings,
        ContextRootCategory::AncestorPreviousSiblings,
        other,
    );
    lemma_category_added(s7, flags.slotted_elements, ContextRootCategory::SlottedElements, other);
    lemma_category_added(s8, flags.parts, ContextRootCategory::Parts, other);
}

/// Each kind of an answer asks for the category of roots that it affects, and
/// for no other. The categories come in a fixed order, each at most once.
///
/// Following siblings are left out only where the sole reason for them is the
/// `+` of a direct previous-sibling anchor, and with anchors among the ancestors
/// they are those of the ancestors.
pub proof fn lemma_each_kind_asks_for_its_roots(answer: DependencyAnswer, allow: bool)
    ensures
        ({
            let asked = LightmountDependencyContextRootPlan::of_answer(answer, allow).categories();
            let kinds = answer.kinds;
            let among_ancestors = kinds.contains(LightmountDependencyKind::RelativeAncestors)
                || kinds.contains(LightmountDependencyKind::RelativeParent) || kinds.contains(
                LightmountDependencyKind::RelativeAncestorPrevSibling,
            ) || kinds.contains(LightmountDependencyKind::RelativeAncestorEarlierSibling);
            let beside_plus = !allow && kinds.contains(
                LightmountDependencyKind::RelativePrevSibling,
            ) && !kinds.contains(LightmountDependencyKind::RelativeEarlierSibling)
                && !kinds.contains(LightmountDependencyKind::RelativeAncestorPrevSibling)
                && !kinds.contains(LightmountDependencyKind::RelativeAncestorEarlierSibling);
            let following = kinds.contains(LightmountDependencyKind::Siblings) && !beside_plus;
            &&& forall|i: int, j: int|
                0 <= i < j < asked.len() ==> place_of(#[trigger] asked[i]) < place_of(
                    #[trigger] asked[j],
                )
            &&& asked.no_duplicates()
            &&& asked.contains(ContextRootCategory::SourceFallback) <==> answer.reasons.len() > 0
                || kinds.contains(LightmountDependencyKind::Scope)
            &&& asked.contains(ContextRootCategory::LocalSubtree) <==> kinds.contains(
                LightmountDependencyKind::Element,
            ) || kinds.contains(LightmountDependencyKind::ElementAndDescendants) || kinds.contains(
                LightmountDependencyKind::Descendants,
            )
            &&& asked.contains(ContextRootCategory::AncestorChain) <==> among_ancestors
            &&& asked.contains(ContextRootCategory::FollowingSiblings) <==> following
                && !among_ancestors
            &&& asked.contains(ContextRootCategory::AncestorFollowingSiblings) <==> following
                && among_ancestors
            &&& asked.contains(ContextRootCategory::PreviousSibling) <==> kinds.contains(
                LightmountDependencyKind::RelativePrevSibling,
            )
            &&& asked.contains(ContextRootCategory::EarlierSiblings) <==> kinds.contains(
                LightmountDependencyKind::RelativeEarlierSibling,
            )
            &&& asked.contains(ContextRootCategory::AncestorPreviousSiblings) <==> kinds.contains(
                LightmountDependencyKind::RelativeAncestorPrevSibling,
            ) || kinds.contains(LightmountDependencyKind::RelativeAncestorEarlierSibling)
            &&& asked.contains(ContextRootCategory::SlottedElements) <==> kinds.contains(
                LightmountDependencyKind::SlottedElements,
            )
            &&& asked.contains(ContextRootCategory::Parts) <==> kinds.contains(
                LightmountDependencyKind::Parts,
            )
        }),
{
    let flags = answer.flags();
    lemma_categories_asked(flags, allow, ContextRootCategory::SourceFallback);
    lemma_categories_asked(flags, allow, ContextRootCategory::LocalSubtree);
    lemma_categories_asked(flags, allow, ContextRootCategory::AncestorChain);
    lemma_categories_asked(flags, allow, ContextRootCategory::FollowingSiblings);
    lemma_categories_asked(flags, allow, ContextRootCategory::AncestorFollowingSiblings);
    lemma_categories_asked(flags, allow, ContextRootCategory::PreviousSibling);
    lemma_categories_asked(flags, allow, ContextRootCategory::EarlierSiblings);
    lemma_categories_asked(flags, allow, ContextRootCategory::AncestorPreviousSiblings);
    lemma_categories_asked(flags, allow, ContextRootCategory::SlottedElements);
    lemma_categories_asked(flags, allow, ContextRootCategory::Parts);
    reveal(asked_before);
    let asked = flags.categories(allow);
    assert forall|i: int, j: int| 0 <= i < asked.len() && 0 <= j < asked.len() && i
        != j implies asked[i] != asked[j] by {
        if i < j {
            assert(place_of(asked[i]) < place_of(asked[j]));
        } else {
            assert(place_of(asked[j]) < place_of(asked[i]));
        }
    }
}

/// An answer affects siblings, relative anchors and slotted elements by the
/// kinds and reasons that name them, and an unknown dependency affects siblings
/// and slotted elements.
pub proof fn lemma_answers_affect_what_they_name(answer: DependencyAnswer)
    ensures
        ({
            let previous = answer.kinds.contains(LightmountDependencyKind::RelativePrevSibling)
                || answer.kinds.contains(LightmountDependencyKind::RelativeEarlierSibling)
                || answer.kinds.contains(LightmountDependencyKind::RelativeAncestorPrevSibling)
                || answer.kinds.contains(LightmountDependencyKind::RelativeAncestorEarlierSibling);
            &&& answer.affects_previous_sibling_anchors() <==> previous
            &&& answer.affects_siblings() <==> answer.unknown || previous || answer.kinds.contains(
                LightmountDependencyKind::Siblings,
            )
            &&& answer.affects_relative_anchors() <==> previous || answer.kinds.contains(
                LightmountDependencyKind::RelativeAncestors,
            ) || answer.kinds.contains(LightmountDependencyKind::RelativeParent)
                || answer.reasons.contains(LightmountDependencyFallbackReason::RelativeAnySelector)
                || answer.reasons.contains(
                LightmountDependencyFallbackReason::NestedRelativeSelectorDependency,
            )
            &&& answer.affects_slotted() <==> answer.unknown || answer.kinds.contains(
                LightmountDependencyKind::SlottedElements,
            )
            &&& answer.has_any() <==> answer.unknown || answer.kinds != Seq::<
                LightmountDependencyKind,
            >::empty() || answer.reasons != Seq::<LightmountDependencyFallbackReason>::empty()
        }),
{
    if answer.kinds.len() == 0 {
        assert(answer.kinds =~= Seq::<LightmountDependencyKind>::empty());
    }
    if answer.reasons.len() == 0 {
        assert(answer.reasons =~= Seq::<LightmountDependencyFallbackReason>::empty());
    }
}

/// Only a direct previous-sibling anchor, alone or with the sibling of its `+`,
/// is limited to such an anchor: any other kind beside it undoes that.
pub proof fn lemma_direct_previous_sibling_stands_alone(
    answer: DependencyAnswer,
    kind: LightmountDependencyKind,
)
    ensures
        answer.is_direct_previous_sibling_only() ==> answer.kinds.contains(
            LightmountDependencyKind::RelativePrevSibling,
        ),
        answer.is_direct_previous_sibling_only() && answer.kinds.contains(kind) ==> kind
            == LightmountDependencyKind::RelativePrevSibling || kind
            == LightmountDependencyKind::Siblings,
        answer.kinds.contains(LightmountDependencyKind::RelativePrevSibling) && (forall|
            other: LightmountDependencyKind,
        | #[trigger]
            answer.kinds.contains(other) ==> other == LightmountDependencyKind::RelativePrevSibling
                || other == LightmountDependencyKind::Siblings)
            ==> answer.is_direct_previous_sibling_only(),
{
    if answer.kinds.contains(kind) {
        let i = answer.kinds.index_of(kind);
        assert(answer.kinds[i] == kind);
    }
    assert forall|i: int| 0 <= i < answer.kinds.len() implies answer.kinds.contains(
        #[trigger] answer.kinds[i],
    ) by {}
}

/// Context roots serve an answer that gives reasons, all of which they cover:
/// a nested relative selector or `:nth-child(... of ...)`. Any other reason
/// asks for the roots of the source.
pub proof fn lemma_context_roots_serve_covered_reasons(
    answer: DependencyAnswer,
    reason: LightmountDependencyFallbackReason,
)
    ensures
        answer.reasons.len() == 0 ==> answer.policy()
            == LightmountDependencyFallbackRootPolicy::SourceFallback,
        answer.reasons.contains(reason) && reason
            != LightmountDependencyFallbackReason::NestedRelativeSelectorDependency && reason
            != LightmountDependencyFallbackReason::NthOfDependency ==> answer.policy()
            == LightmountDependencyFallbackRootPolicy::SourceFallback,
        answer.reasons.len() > 0 && (forall|other: LightmountDependencyFallbackReason| #[trigger]
            answer.reasons.contains(other) ==> other
                == LightmountDependencyFallbackReason::NestedRelativeSelectorDependency || other
                == LightmountDependencyFallbackReason::NthOfDependency) ==> answer.policy()
            == LightmountDependencyFallbackRootPolicy::ContextRoots,
{
    if answer.reasons.contains(reason) {
        let i = answer.reasons.index_of(reason);
        assert(answer.reasons[i] == reason);
    }
    assert forall|i: int| 0 <= i < answer.reasons.len() implies answer.reasons.contains(
        #[trigger] answer.reasons[i],
    ) by {}
}

/// Whether a source reason says the same as a dependency reason.
pub open spec fn says_the_same(
    reason: LightmountDependencyFallbackReason,
    source: LightmountSourceInvalidationFallbackReason,
) -> bool {
    ||| reason is UnknownDependency && source is UnknownDependency
    ||| reason is FullSelector && source is FullSelector
    ||| reason is RelativeAnySelector && source is RelativeAnySelector
    ||| reason is ScopeDependency && source is ScopeDependency
    ||| reason is UnsupportedStateDependency && source is UnsupportedStateDependency
    ||| reason is UnsupportedDependency && source is UnsupportedDependency
    ||| reason is NthOfDependency && source is NthOfDependency
    ||| reason is NestedRelativeSelectorDependency && source is NestedRelativeSelectorDependency
}

/// The source reasons of an answer are its own reasons under the same names.
/// An answer that gives none is explained by its shape: a scope dependency, or
/// else one that is not supported.
pub proof fn lemma_source_reasons_say_the_same(
    answer: DependencyAnswer,
    reason: LightmountDependencyFallbackReason,
    source: LightmountSourceInvalidationFallbackReason,
)
    ensures
        says_the_same(reason, source) <==> reason.source_reason() == source,
        answer.reasons.contains(reason) ==> answer.source_reasons().contains(
            reason.source_reason(),
        ),
        answer.reasons.len() > 0 && answer.source_reasons().contains(source) ==> exists|
            own: LightmountDependencyFallbackReason,
        | #[trigger]
            answer.reasons.contains(own) && says_the_same(own, source),
        answer.reasons.len() == 0 ==> (answer.source_reasons().contains(source) <==> if
        answer.kinds.contains(LightmountDependencyKind::Scope) {
            source is ScopeDependency
        } else {
            source is UnsupportedDependency
        }),
        answer.source_reasons().no_duplicates(),
{
    let named = answer.reasons_or_shape().map_values(
        |reason: LightmountDependencyFallbackReason| reason.source_reason(),
    );
    let empty = Seq::<LightmountSourceInvalidationFallbackReason>::empty();
    super::ordered_set::lemma_extend_unique_no_duplicates(empty, named);
    super::ordered_set::lemma_extend_unique_contains(empty, named, source);
    super::ordered_set::lemma_extend_unique_contains(empty, named, reason.source_reason());
    if answer.reasons.contains(reason) {
        let i = answer.reasons.index_of(reason);
        assert(named[i] == reason.source_reason());
    }
    if answer.reasons.len() > 0 {
        if named.contains(source) {
            let i = named.index_of(source);
            let own = answer.reasons[i];
            assert(answer.reasons.contains(own));
            assert(says_the_same(own, source));
        }
    } else {
        assert(named.len() == 1);
        if named.contains(source) {
            let i = named.index_of(source);
            assert(named[0] == source);
        }
        assert(named.contains(named[0]));
    }
}

/// The kind that an answer reports a dependency kind as, where it has one.
pub open spec fn is_reported_as(
    kind: DependencyInvalidationKind,
    reported: LightmountDependencyKind,
) -> bool {
    match reported {
        LightmountDependencyKind::Element => kind == DependencyInvalidationKind::Normal(
            NormalDependencyInvalidationKind::Element,
        ),
        LightmountDependencyKind::ElementAndDescendants => kind
            == DependencyInvalidationKind::Normal(
            NormalDependencyInvalidationKind::ElementAndDescendants,
        ),
        LightmountDependencyKind::Descendants => kind == DependencyInvalidationKind::Normal(
            NormalDependencyInvalidationKind::Descendants,
        ),
        LightmountDependencyKind::Siblings => kind == DependencyInvalidationKind::Normal(
            NormalDependencyInvalidationKind::Siblings,
        ),
        LightmountDependencyKind::SlottedElements => kind == DependencyInvalidationKind::Normal(
            NormalDependencyInvalidationKind::SlottedElements,
        ),
        LightmountDependencyKind::Parts => kind == DependencyInvalidationKind::Normal(
            NormalDependencyInvalidationKind::Parts,
        ),
        LightmountDependencyKind::RelativeAncestors => kind
            == DependencyInvalidationKind::Relative(RelativeDependencyInvalidationKind::Ancestors),
        LightmountDependencyKind::RelativeParent => kind == DependencyInvalidationKind::Relative(
            RelativeDependencyInvalidationKind::Parent,
        ),
        LightmountDependencyKind::RelativePrevSibling => kind
            == DependencyInvalidationKind::Relative(
            RelativeDependencyInvalidationKind::PrevSibling,
        ),
        LightmountDependencyKind::RelativeAncestorPrevSibling => kind
            == DependencyInvalidationKind::Relative(
            RelativeDependencyInvalidationKind::AncestorPrevSibling,
        ),
        LightmountDependencyKind::RelativeEarlierSibling => kind
            == DependencyInvalidationKind::Relative(
            RelativeDependencyInvalidationKind::EarlierSibling,
        ),
        LightmountDependencyKind::RelativeAncestorEarlierSibling => kind
            == DependencyInvalidationKind::Relative(
            RelativeDependencyInvalidationKind::AncestorEarlierSibling,
        ),
        LightmountDependencyKind::Scope => kind is Scope,
    }
}

/// Whether a dependency, or one that follows from it, is of a reported kind. A
/// `+` at a dependency counts for following siblings.
pub open spec fn reaches_kind(dependency: Dependency, reported: LightmountDependencyKind) -> bool
    decreases dependency,
{
    ||| is_reported_as(dependency.kind, reported)
    ||| reported == LightmountDependencyKind::Siblings && (
    dependency.facts.right_combinator_is_next_sibling
        || dependency.facts.relative_with_single_next_sibling)
    ||| exists|i: int|
        0 <= i < dependency.next.len() && reaches_kind(#[trigger] dependency.next[i], reported)
}

/// Whether a dependency, or one that follows from it, needs its whole selector
/// checked, or leads from an ordinary dependency to a relative one.
pub open spec fn reaches_reason(
    dependency: Dependency,
    reason: LightmountDependencyFallbackReason,
) -> bool
    decreases dependency,
{
    ||| reason == LightmountDependencyFallbackReason::FullSelector && dependency.kind
        == DependencyInvalidationKind::FullSelector
    ||| reason == LightmountDependencyFallbackReason::NestedRelativeSelectorDependency && !(
    dependency.kind is Relative) && reaches_relative(dependency)
    ||| exists|i: int|
        0 <= i < dependency.next.len() && reaches_reason(#[trigger] dependency.next[i], reason)
}

/// Whether a dependency that follows is relative.
pub open spec fn reaches_relative(dependency: Dependency) -> bool
    decreases dependency,
{
    exists|i: int|
        0 <= i < dependency.next.len() && ((#[trigger] dependency.next[i]).kind is Relative
            || reaches_relative(dependency.next[i]))
}

proof fn lemma_reaches_relative(dependency: Dependency)
    ensures
        reaches_relative(dependency) == dependency.leads_to_relative(),
    decreases dependency,
{
    assert forall|i: int| 0 <= i < dependency.next.len() implies reaches_relative(
        #[trigger] dependency.next[i],
    ) == dependency.next[i].leads_to_relative() by {
        lemma_reaches_relative(dependency.next[i]);
    }
    if reaches_relative(dependency) {
        let i = choose|i: int|
            0 <= i < dependency.next.len() && ((#[trigger] dependency.next[i]).kind is Relative
                || reaches_relative(dependency.next[i]));
        assert(dependency.next[i].kind is Relative || dependency.next[i].leads_to_relative());
    }
    if dependency.leads_to_relative() {
        let i = choose|i: int|
            0 <= i < dependency.next.len() && (#[trigger] dependency.next[i].kind is Relative
                || dependency.next[i].leads_to_relative());
        assert(reaches_relative(dependency.next[i]) == dependency.next[i].leads_to_relative());
    }
}

pub(super) proof fn lemma_concat_contains<T>(first: Seq<T>, second: Seq<T>, item: T)
    ensures
        (first + second).contains(item) <==> first.contains(item) || second.contains(item),
{
    let all = first + second;
    if first.contains(item) {
        assert(all[first.index_of(item)] == item);
    }
    if second.contains(item) {
        assert(all[first.len() + second.index_of(item)] == item);
    }
    if all.contains(item) {
        let i = all.index_of(item);
        if i < first.len() {
            assert(first[i] == item);
        } else {
            assert(second[i - first.len()] == item);
        }
    }
}

/// A dependency is reported under the kinds that it and its followers have, and
/// no others; and with the reasons that they give, and no others.
pub proof fn lemma_dependency_reports_its_kinds(
    dependency: Dependency,
    kind: LightmountDependencyKind,
    reason: LightmountDependencyFallbackReason,
)
    ensures
        super::invalidation_map::kinds_of(dependency).contains(kind) == reaches_kind(
            dependency,
            kind,
        ),
        super::invalidation_map::reasons_of(dependency).contains(reason) == reaches_reason(
            dependency,
            reason,
        ),
    decreases dependency, 1int,
{
    let own = super::invalidation_map::own_kinds(dependency);
    let siblings = LightmountDependencyKind::Siblings;
    lemma_concat_contains(own, super::invalidation_map::kinds_of_list(dependency.next@), kind);
    let named = match dependency.kind {
        DependencyInvalidationKind::FullSelector => seq![],
        DependencyInvalidationKind::Normal(kind) => seq![
            super::invalidation_map::kind_of_normal(kind),
        ],
        DependencyInvalidationKind::Relative(kind) => seq![
            super::invalidation_map::kind_of_relative(kind),
        ],
        DependencyInvalidationKind::Scope(_) => seq![LightmountDependencyKind::Scope],
    };
    let plus = if dependency.facts.right_combinator_is_next_sibling
        || dependency.facts.relative_with_single_next_sibling {
        seq![siblings]
    } else {
        seq![]
    };
    lemma_concat_contains(named, plus, kind);
    if named.len() > 0 {
        assert(named.contains(named[0]));
        if named.contains(kind) {
            assert(named[named.index_of(kind)] == kind);
        }
    }
    if plus.len() > 0 {
        assert(plus.contains(plus[0]));
        if plus.contains(kind) {
            assert(plus[plus.index_of(kind)] == kind);
        }
    }
    let own_reasons = super::invalidation_map::own_reasons(dependency);
    lemma_concat_contains(
        own_reasons,
        super::invalidation_map::reasons_of_list(dependency.next@),
        reason,
    );
    let full = if dependency.kind is FullSelector {
        seq![LightmountDependencyFallbackReason::FullSelector]
    } else {
        seq![]
    };
    let nested = if dependency.has_nested_relative() {
        seq![LightmountDependencyFallbackReason::NestedRelativeSelectorDependency]
    } else {
        seq![]
    };
    lemma_concat_contains(full, nested, reason);
    if full.len() > 0 {
        assert(full.contains(full[0]));
        if full.contains(reason) {
            assert(full[full.index_of(reason)] == reason);
        }
    }
    if nested.len() > 0 {
        assert(nested.contains(nested[0]));
        if nested.contains(reason) {
            assert(nested[nested.index_of(reason)] == reason);
        }
    }
    lemma_reaches_relative(dependency);
    lemma_list_reports_its_kinds(dependency, dependency.next.len() as int, kind, reason);
    assert(dependency.next@.take(dependency.next.len() as int) =~= dependency.next@);
}

proof fn lemma_list_reports_its_kinds(
    dependency: Dependency,
    count: int,
    kind: LightmountDependencyKind,
    reason: LightmountDependencyFallbackReason,
)
    requires
        0 <= count <= dependency.next.len(),
    ensures
        super::invalidation_map::kinds_of_list(dependency.next@.take(count)).contains(kind)
            <==> exists|i: int|
            0 <= i < count && reaches_kind(#[trigger] dependency.next[i], kind),
        super::invalidation_map::reasons_of_list(dependency.next@.take(count)).contains(reason)
            <==> exists|i: int|
            0 <= i < count && reaches_reason(#[trigger] dependency.next[i], reason),
    decreases dependency, 0int, count,
{
    if count > 0 {
        let part = dependency.next@.take(count);
        let last = dependency.next[count - 1];
        assert(part.drop_last() =~= dependency.next@.take(count - 1));
        assert(part.last() == last);
        lemma_list_reports_its_kinds(dependency, count - 1, kind, reason);
        lemma_dependency_reports_its_kinds(last, kind, reason);
        lemma_concat_contains(
            super::invalidation_map::kinds_of_list(part.drop_last()),
            super::invalidation_map::kinds_of(last),
            kind,
        );
        lemma_concat_contains(
            super::invalidation_map::reasons_of_list(part.drop_last()),
            super::invalidation_map::reasons_of(last),
            reason,
        );
    }
}

/// The answer of a list of dependencies has the kinds and the reasons that some
/// dependency of the list reaches, and no others.
pub proof fn lemma_answer_of_list_is_of_its_dependencies(
    dependencies: Seq<Dependency>,
    kind: LightmountDependencyKind,
    reason: LightmountDependencyFallbackReason,
)
    ensures
        super::invalidation_map::answer_of(dependencies).kinds.contains(kind) <==> exists|i: int|
            0 <= i < dependencies.len() && reaches_kind(#[trigger] dependencies[i], kind),
        super::invalidation_map::answer_of(dependencies).reasons.contains(reason) <==> exists|
            i: int,
        |
            0 <= i < dependencies.len() && reaches_reason(#[trigger] dependencies[i], reason),
{
    super::ordered_set::lemma_extend_unique_contains(
        Seq::<LightmountDependencyKind>::empty(),
        super::invalidation_map::kinds_of_list(dependencies),
        kind,
    );
    super::ordered_set::lemma_extend_unique_contains(
        Seq::<LightmountDependencyFallbackReason>::empty(),
        super::invalidation_map::reasons_of_list(dependencies),
        reason,
    );
    lemma_lists_report(dependencies, kind, reason);
}

proof fn lemma_lists_report(
    dependencies: Seq<Dependency>,
    kind: LightmountDependencyKind,
    reason: LightmountDependencyFallbackReason,
)
    ensures
        super::invalidation_map::kinds_of_list(dependencies).contains(kind) <==> exists|i: int|
            0 <= i < dependencies.len() && reaches_kind(#[trigger] dependencies[i], kind),
        super::invalidation_map::reasons_of_list(dependencies).contains(reason) <==> exists|i: int|
            0 <= i < dependencies.len() && reaches_reason(#[trigger] dependencies[i], reason),
    decreases dependencies.len(),
{
    if dependencies.len() > 0 {
        let rest = dependencies.drop_last();
        let last = dependencies.last();
        lemma_lists_report(rest, kind, reason);
        lemma_dependency_reports_its_kinds(last, kind, reason);
        lemma_concat_contains(
            super::invalidation_map::kinds_of_list(rest),
            super::invalidation_map::kinds_of(last),
            kind,
        );
        lemma_concat_contains(
            super::invalidation_map::reasons_of_list(rest),
            super::invalidation_map::reasons_of(last),
            reason,
        );
        assert forall|i: int| 0 <= i < rest.len() implies #[trigger] rest[i] == dependencies[i] by {}
        if exists|i: int| 0 <= i < rest.len() && reaches_kind(#[trigger] rest[i], kind) {
            let i = choose|i: int| 0 <= i < rest.len() && reaches_kind(#[trigger] rest[i], kind);
            assert(reaches_kind(dependencies[i], kind));
        }
        if exists|i: int| 0 <= i < rest.len() && reaches_reason(#[trigger] rest[i], reason) {
            let i = choose|i: int| 0 <= i < rest.len() && reaches_reason(#[trigger] rest[i], reason);
            assert(reaches_reason(dependencies[i], reason));
        }
        if reaches_kind(last, kind) {
            assert(reaches_kind(dependencies[dependencies.len() - 1], kind));
        }
        if reaches_reason(last, reason) {
            assert(reaches_reason(dependencies[dependencies.len() - 1], reason));
        }
        if exists|i: int|
            0 <= i < dependencies.len() && reaches_kind(#[trigger] dependencies[i], kind) {
            let i = choose|i: int|
                0 <= i < dependencies.len() && reaches_kind(#[trigger] dependencies[i], kind);
            if i < rest.len() {
                assert(reaches_kind(rest[i], kind));
            }
        }
        if exists|i: int|
            0 <= i < dependencies.len() && reaches_reason(#[trigger] dependencies[i], reason) {
            let i = choose|i: int|
                0 <= i < dependencies.len() && reaches_reason(#[trigger] dependencies[i], reason);
            if i < rest.len() {
                assert(reaches_reason(rest[i], reason));
            }
        }
    }
}

/// The processor acts on an ordinary dependency where its kind says, on a scope
/// dependency by its scope, and never on a relative dependency or a whole
/// selector.
pub proof fn lemma_dependencies_act_by_their_kind(dependency: Dependency)
    ensures
        ({
            let action = dependency.action();
            &&& dependency.kind matches DependencyInvalidationKind::Normal(kind) ==> {
                &&& kind is Element <==> action is Element
                &&& kind is ElementAndDescendants <==> action is ElementAndDescendants
                &&& kind is Descendants <==> action is Descendants
                &&& kind is Siblings <==> action is Siblings
                &&& kind is SlottedElements <==> action is SlottedElements
                &&& kind is Parts <==> action is Parts
            }
            &&& action is Scope <==> dependency.kind is Scope
            &&& action is Fallback <==> dependency.kind is FullSelector || dependency.kind is Relative
            &&& dependency.kind is FullSelector ==> action
                == LightmountDependencyInvalidationAction::Fallback(
                LightmountSourceInvalidationFallbackReason::FullSelector,
            )
            &&& dependency.kind is Relative ==> action
                == LightmountDependencyInvalidationAction::Fallback(
                LightmountSourceInvalidationFallbackReason::RelativeAnySelector,
            )
        }),
        ({
            let reason = dependency.fallback_reason();
            &&& reason is FullSelector <==> dependency.kind is FullSelector
            &&& reason is RelativeAnySelector <==> dependency.kind is Relative
            &&& reason is ScopeDependency <==> dependency.kind is Scope
            &&& reason is UnsupportedDependency <==> dependency.kind is Normal
        }),
{
}

/// An implicit scope passes its followers on. Any other scope dependency away
/// from the subject is pushed along its combinator; at the subject a scope end,
/// and `:scope` in a negation, force the subject, and a scope start is checked.
pub proof fn lemma_scopes_act_by_their_place(
    dependency: Dependency,
    scope: ScopeDependencyInvalidationKind,
)
    ensures
        ({
            let action = dependency.scope_action(scope);
            let forced = dependency.facts.next_has_scope_in_negation;
            let at_subject = !(scope is ImplicitScope) && dependency.facts.is_rightmost;
            &&& action is ImplicitScope <==> scope is ImplicitScope
            &&& action is PushByCombinator <==> !(scope is ImplicitScope)
                && !dependency.facts.is_rightmost
            &&& action is ForceAtSubject <==> at_subject && (scope is ScopeEnd || forced)
            &&& action is CheckNextInScope <==> at_subject && scope is ExplicitScope && !forced
            &&& action matches LightmountScopeDependencyInvalidationAction::ForceAtSubject {
                force_add,
            } ==> force_add == forced
        }),
        dependency.kind == DependencyInvalidationKind::Scope(scope) ==> dependency.action()
            == LightmountDependencyInvalidationAction::Scope(dependency.scope_action(scope)),
{
}

/// The processor retains a dependency exactly where neither it nor any follower
/// is relative or needs its whole selector checked. What it retains is exact
/// when empty, and what it does not falls back for the dependency's own kind.
pub proof fn lemma_retained_dependencies_are_executable(dependency: Dependency)
    ensures
        ({
            let effect = super::dependency::retained_effect(dependency);
            &&& effect is Retained <==> is_executable(dependency)
            &&& effect is Retained ==> effect
                == (LightmountRetainedProcessorDependencyEffect::Retained {
                empty_result_is_exact: true,
            })
            &&& effect matches LightmountRetainedProcessorDependencyEffect::Fallback(reason) ==> {
                &&& reason is FullSelector <==> dependency.kind is FullSelector
                &&& reason is RelativeAnySelector <==> dependency.kind is Relative
                &&& reason is ScopeDependency <==> dependency.kind is Scope
                &&& reason is UnsupportedDependency <==> dependency.kind is Normal
            }
        }),
{
    lemma_executable_is_retained(dependency);
}

/// Whether a dependency and all its followers are ordinary or scope
/// dependencies.
pub open spec fn is_executable(dependency: Dependency) -> bool
    decreases dependency,
{
    &&& !(dependency.kind is FullSelector)
    &&& !(dependency.kind is Relative)
    &&& forall|i: int| 0 <= i < dependency.next.len() ==> is_executable(#[trigger] dependency.next[i])
}

proof fn lemma_executable_is_retained(dependency: Dependency)
    ensures
        is_executable(dependency) == dependency.is_retained(),
    decreases dependency,
{
    assert forall|i: int| 0 <= i < dependency.next.len() implies is_executable(
        #[trigger] dependency.next[i],
    ) == dependency.next[i].is_retained() by {
        lemma_executable_is_retained(dependency.next[i]);
    }
    if dependency.is_retained() {
        assert forall|i: int| 0 <= i < dependency.next.len() implies is_executable(
            #[trigger] dependency.next[i],
        ) by {
            assert(dependency.next[i].is_retained());
        }
    }
    if is_executable(dependency) {
        assert forall|i: int| 0 <= i < dependency.next.len() implies (
        #[trigger] dependency.next[i]).is_retained() by {
            assert(is_executable(dependency.next[i]));
        }
    }
}

/// A relative dependency asks for the candidates that its kind names, and no
/// other dependency asks for any.
pub proof fn lemma_relative_dependencies_visit_their_candidates(dependency: Dependency)
    ensures
        dependency.relative_action() is Some <==> dependency.kind is Relative,
        dependency.kind matches DependencyInvalidationKind::Relative(kind) ==> {
            let action = dependency.relative_action()->0;
            &&& action is Ancestors <==> kind is Ancestors
            &&& action is Parent <==> kind is Parent
            &&& action is PrevSibling <==> kind is PrevSibling
            &&& action is EarlierSibling <==> kind is EarlierSibling
            &&& action is AncestorPrevSibling <==> kind is AncestorPrevSibling
            &&& action is AncestorEarlierSibling <==> kind is AncestorEarlierSibling
            &&& action == super::dependency::relative_action_of(kind)
        },
{
}

/// A dependency is sibling-sensitive where it invalidates following siblings,
/// has its anchors before an element or an ancestor, or stands at a `+`.
pub proof fn lemma_sibling_sensitive_dependencies(dependency: Dependency)
    ensures
        dependency.is_sibling_sensitive() <==> {
            ||| is_reported_as(dependency.kind, LightmountDependencyKind::Siblings)
            ||| is_reported_as(dependency.kind, LightmountDependencyKind::RelativePrevSibling)
            ||| is_reported_as(
                dependency.kind,
                LightmountDependencyKind::RelativeAncestorPrevSibling,
            )
            ||| is_reported_as(dependency.kind, LightmountDependencyKind::RelativeEarlierSibling)
            ||| is_reported_as(
                dependency.kind,
                LightmountDependencyKind::RelativeAncestorEarlierSibling,
            )
            ||| dependency.facts.right_combinator_is_next_sibling
            ||| dependency.facts.relative_with_single_next_sibling
        },
{
}

/// Each context-root flag of an answer is set by the kinds that it is named
/// after, and the source serves where there is a reason or a scope.
pub proof fn lemma_flags_are_of_their_kinds(answer: DependencyAnswer)
    ensures
        ({
            let flags = answer.flags();
            let has = |kind: LightmountDependencyKind| answer.kinds.contains(kind);
            &&& flags.requires_source_fallback <==> answer.reasons.len() > 0 || has(
                LightmountDependencyKind::Scope,
            )
            &&& flags.local_subtree <==> has(LightmountDependencyKind::Element) || has(
                LightmountDependencyKind::ElementAndDescendants,
            ) || has(LightmountDependencyKind::Descendants)
            &&& flags.ancestor_chain <==> has(LightmountDependencyKind::RelativeAncestors) || has(
                LightmountDependencyKind::RelativeParent,
            ) || flags.ancestor_previous_siblings || flags.ancestor_earlier_siblings
            &&& flags.following_siblings <==> has(LightmountDependencyKind::Siblings)
            &&& flags.previous_sibling <==> has(LightmountDependencyKind::RelativePrevSibling)
            &&& flags.direct_previous_sibling_relative == flags.previous_sibling
            &&& flags.earlier_siblings <==> has(LightmountDependencyKind::RelativeEarlierSibling)
            &&& flags.ancestor_previous_siblings <==> has(
                LightmountDependencyKind::RelativeAncestorPrevSibling,
            )
            &&& flags.ancestor_earlier_siblings <==> has(
                LightmountDependencyKind::RelativeAncestorEarlierSibling,
            )
            &&& flags.slotted_elements <==> has(LightmountDependencyKind::SlottedElements)
            &&& flags.parts <==> has(LightmountDependencyKind::Parts)
        }),
{
}

} // verus!
