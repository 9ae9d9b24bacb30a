//! Laws of what a dependency summary answers, and from which of its entries.

use vstd::prelude::*;

use super::dependency_query::{DependencyAnswer, LightmountDependencyKind};
use super::dependency_summary::{DependencyAspect, DependencySummaryView};
use super::element_state::ElementState;
use super::query::QueryShape;
use super::reasons::LightmountDependencyFallbackReason;
use super::sibling_summary::SiblingSummaryView;
use super::source_summary::{BoundarySummaryView, SourceSummaryView};

verus! {

/// Whether an answer is that of the first entry under a key, or names nothing
/// where there is none.
pub open spec fn is_answer_under<K>(
    entries: Seq<(K, DependencyAnswer)>,
    key: K,
    answer: DependencyAnswer,
) -> bool {
    ||| exists|i: int|
        0 <= i < entries.len() && (#[trigger] entries[i]) == (key, answer) && forall|j: int|
            0 <= j < i ==> (#[trigger] entries[j]).0 != key
    ||| answer.kinds.len() == 0 && answer.reasons.len() == 0 && !answer.unknown && forall|j: int|
        0 <= j < entries.len() ==> (#[trigger] entries[j]).0 != key
}

proof fn lemma_answer_is_under_its_key<K>(entries: Seq<(K, DependencyAnswer)>, key: K)
    ensures
        is_answer_under(entries, key, super::dependency_summary::answer_for(entries, key)),
    decreases entries.len(),
{
    let answer = super::dependency_summary::answer_for(entries, key);
    if entries.len() > 0 {
        if entries[0].0 == key {
            assert(entries[0] == (key, answer));
        } else {
            let rest = entries.drop_first();
            lemma_answer_is_under_its_key(rest, key);
            if exists|i: int|
                0 <= i < rest.len() && (#[trigger] rest[i]) == (key, answer) && forall|j: int|
                    0 <= j < i ==> (#[trigger] rest[j]).0 != key {
                let i = choose|i: int|
                    0 <= i < rest.len() && (#[trigger] rest[i]) == (key, answer) && forall|j: int|
                        0 <= j < i ==> (#[trigger] rest[j]).0 != key;
                assert(entries[i + 1] == (key, answer));
                assert forall|j: int| 0 <= j < i + 1 implies (#[trigger] entries[j]).0 != key by {
                    if j > 0 {
                        assert(rest[j - 1].0 != key);
                    }
                }
            } else {
                assert forall|j: int| 0 <= j < entries.len() implies (#[trigger] entries[j]).0
                    != key by {
                    if j > 0 {
                        assert(rest[j - 1].0 != key);
                    }
                }
            }
        }
    }
}

/// A query is answered from the entries of its own kind of key: a class from the
/// classes, an id from the ids, and so on.
pub proof fn lemma_queries_are_answered_by_kind(source: SourceSummaryView, shape: QueryShape)
    ensures
        ({
            let answer = source.answer(shape);
            match shape {
                QueryShape::Universal => answer == source.summary.universal,
                QueryShape::Type(name) => is_answer_under(source.summary.types, name, answer),
                QueryShape::Attribute(name) => is_answer_under(
                    source.summary.attributes,
                    name,
                    answer,
                ),
                QueryShape::Class(name) => is_answer_under(source.summary.classes, name, answer),
                QueryShape::Id(name) => is_answer_under(source.summary.ids, name, answer),
                QueryShape::CustomState(name) => is_answer_under(
                    source.summary.custom_states,
                    name,
                    answer,
                ),
                QueryShape::State(_) => true,
            }
        }),
{
    match shape {
        QueryShape::Type(name) => lemma_answer_is_under_its_key(source.summary.types, name),
        QueryShape::Attribute(name) => lemma_answer_is_under_its_key(
            source.summary.attributes,
            name,
        ),
        QueryShape::Class(name) => lemma_answer_is_under_its_key(source.summary.classes, name),
        QueryShape::Id(name) => lemma_answer_is_under_its_key(source.summary.ids, name),
        QueryShape::CustomState(name) => lemma_answer_is_under_its_key(
            source.summary.custom_states,
            name,
        ),
        _ => {},
    }
}

/// Whether the entry at an index is of a state that shares a flag with `bits`.
pub open spec fn meets_entry(
    states: Seq<(u64, DependencyAnswer)>,
    bits: u64,
    index: int,
) -> bool {
    0 <= index < states.len() && states[index].0 & bits != 0
}

proof fn lemma_joined_states_are_of_meeting_entries(
    states: Seq<(u64, DependencyAnswer)>,
    bits: u64,
    kind: LightmountDependencyKind,
    reason: LightmountDependencyFallbackReason,
)
    requires
        super::summary_laws::answers_well_formed(states),
    ensures
        ({
            let answer = super::dependency_summary::joined_states(states, bits);
            &&& answer.kinds.contains(kind) <==> exists|i: int| #[trigger]
                meets_entry(states, bits, i) && states[i].1.kinds.contains(kind)
            &&& answer.reasons.contains(reason) <==> exists|i: int| #[trigger]
                meets_entry(states, bits, i) && states[i].1.reasons.contains(reason)
            &&& answer.unknown <==> exists|i: int| #[trigger] meets_entry(states, bits, i)
                && states[i].1.unknown
        }),
    decreases states.len(),
{
    if states.len() > 0 {
        let rest = states.drop_last();
        let last = states.len() - 1;
        let answer = super::dependency_summary::joined_states(states, bits);
        assert forall|i: int| 0 <= i < rest.len() implies (#[trigger] rest[i]).1.well_formed() by {
            assert(rest[i] == states[i]);
        }
        lemma_joined_states_are_of_meeting_entries(rest, bits, kind, reason);
        assert(states[last].1.well_formed());
        super::dependency_query::lemma_join_is_union(
            super::dependency_summary::joined_states(rest, bits),
            states[last].1,
        );
        assert forall|i: int| meets_entry(states, bits, i) && i < last implies #[trigger]
            meets_entry(rest, bits, i) && rest[i] == states[i] by {}
        assert forall|i: int| #[trigger] meets_entry(rest, bits, i) implies meets_entry(
            states,
            bits,
            i,
        ) && rest[i] == states[i] by {}
        assert(meets_entry(states, bits, last) <==> states[last].0 & bits != 0);
        let before = super::dependency_summary::joined_states(rest, bits);
        if exists|i: int| #[trigger] meets_entry(states, bits, i) && states[i].1.kinds.contains(
            kind,
        ) {
            let i = choose|i: int| #[trigger]
                meets_entry(states, bits, i) && states[i].1.kinds.contains(kind);
            if i < last {
                assert(meets_entry(rest, bits, i));
            }
        }
        if exists|i: int| #[trigger] meets_entry(states, bits, i) && states[i].1.reasons.contains(
            reason,
        ) {
            let i = choose|i: int| #[trigger]
                meets_entry(states, bits, i) && states[i].1.reasons.contains(reason);
            if i < last {
                assert(meets_entry(rest, bits, i));
            }
        }
        if exists|i: int| #[trigger] meets_entry(states, bits, i) && states[i].1.unknown {
            let i = choose|i: int| #[trigger] meets_entry(states, bits, i) && states[i].1.unknown;
            if i < last {
                assert(meets_entry(rest, bits, i));
            }
        }
    }
}

/// A state query has the kinds and reasons of the entries whose states share a
/// flag with it and of no others. A flag without an entry makes it unsupported
/// besides.
pub proof fn lemma_state_queries_are_answered_by_meeting_entries(
    source: SourceSummaryView,
    state: ElementState,
    kind: LightmountDependencyKind,
    reason: LightmountDependencyFallbackReason,
)
    requires
        super::summary_laws::answers_well_formed(source.summary.states),
    ensures
        ({
            let answer = source.answer(QueryShape::State(state));
            let states = source.summary.states;
            &&& answer.kinds.contains(kind) <==> exists|i: int| #[trigger]
                meets_entry(states, state.bits, i) && states[i].1.kinds.contains(kind)
            &&& answer.reasons.contains(reason) <==> (exists|i: int| #[trigger]
                meets_entry(states, state.bits, i) && states[i].1.reasons.contains(reason))
                || source.summary.unknown_state_bits & state.bits != 0 && reason
                == LightmountDependencyFallbackReason::UnsupportedStateDependency
            &&& answer.unknown <==> exists|i: int| #[trigger] meets_entry(states, state.bits, i)
                && states[i].1.unknown
        }),
{
    lemma_joined_states_are_of_meeting_entries(source.summary.states, state.bits, kind, reason);
    super::lists::lemma_contains_push(
        super::dependency_summary::joined_states(source.summary.states, state.bits).reasons,
        LightmountDependencyFallbackReason::UnsupportedStateDependency,
        reason,
    );
}

proof fn lemma_represented_flags(states: Seq<(u64, DependencyAnswer)>, flag: u64)
    ensures
        super::dependency_summary::represented_bits(states) & flag != 0 <==> exists|i: int|
            #[trigger] meets_entry(states, flag, i),
    decreases states.len(),
{
    if states.len() == 0 {
        assert(0u64 & flag == 0) by (bit_vector);
    } else {
        let rest = states.drop_last();
        let last = states.len() - 1;
        lemma_represented_flags(rest, flag);
        let before = super::dependency_summary::represented_bits(rest);
        let own = states[last].0;
        assert((before | own) & flag != 0 <==> before & flag != 0 || own & flag != 0)
            by (bit_vector);
        assert forall|i: int| #[trigger] meets_entry(rest, flag, i) implies meets_entry(
            states,
            flag,
            i,
        ) by {}
        if exists|i: int| #[trigger] meets_entry(states, flag, i) {
            let i = choose|i: int| #[trigger] meets_entry(states, flag, i);
            if i < last {
                assert(meets_entry(rest, flag, i));
            }
        }
        if own & flag != 0 {
            assert(meets_entry(states, flag, last));
        }
    }
}

/// Noting a state without an answer marks those of its flags that no entry has,
/// and changes nothing else.
pub proof fn lemma_unrepresented_flags_are_marked(
    summary: DependencySummaryView,
    state: ElementState,
    flag: u64,
)
    requires
        flag != 0 && flag & (flag - 1) as u64 == 0,
    ensures
        ({
            let after = summary.with_unrepresented(state);
            &&& after.unknown_state_bits & flag != 0 <==> summary.unknown_state_bits & flag != 0
                || state.bits & flag != 0 && !exists|i: int| #[trigger]
                meets_entry(summary.states, flag, i)
            &&& after.states == summary.states
            &&& after.classes == summary.classes
            &&& after.ids == summary.ids
            &&& after.types == summary.types
            &&& after.attributes == summary.attributes
            &&& after.custom_states == summary.custom_states
            &&& after.universal == summary.universal
            &&& after.focus == summary.focus
            &&& after.focus_within == summary.focus_within
            &&& after.target == summary.target
            &&& after.unknown == summary.unknown
        }),
{
    lemma_represented_flags(summary.states, flag);
    let marked = summary.unknown_state_bits;
    let bits = state.bits;
    let had = super::dependency_summary::represented_bits(summary.states);
    let lower = (flag - 1) as u64;
    assert(flag != 0 && lower == flag - 1 && flag & lower == 0 ==> ((marked | (bits & !had)) & flag
        != 0 <==> marked & flag != 0 || (bits & flag != 0 && had & flag == 0))) by (bit_vector);
}

/// A state with an answer counts under focus where it has a focus, focus-visible
/// or focus-within flag, under focus-within and under target where it has that
/// flag. Other keys are not touched. A state without flags is an unknown
/// dependency and counts nowhere.
pub proof fn lemma_states_count_by_their_flags(
    summary: DependencySummaryView,
    state: ElementState,
    answer: DependencyAnswer,
    kind: LightmountDependencyKind,
    reason: LightmountDependencyFallbackReason,
)
    requires
        answer.well_formed(),
    ensures
        ({
            let after = summary.with_state(state, answer);
            let focus = state.bits & (0x2u64 | 0x100000u64 | 0x200000u64) != 0;
            let within = state.bits & 0x200000 != 0;
            let target = state.bits & 0x100 != 0;
            &&& after.focus.kinds.contains(kind) <==> summary.focus.kinds.contains(kind) || focus
                && answer.kinds.contains(kind)
            &&& after.focus.reasons.contains(reason) <==> summary.focus.reasons.contains(reason)
                || focus && answer.reasons.contains(reason)
            &&& after.focus_within.kinds.contains(kind) <==> summary.focus_within.kinds.contains(
                kind,
            ) || within && answer.kinds.contains(kind)
            &&& after.focus_within.reasons.contains(reason)
                <==> summary.focus_within.reasons.contains(reason) || within
                && answer.reasons.contains(reason)
            &&& after.target.kinds.contains(kind) <==> summary.target.kinds.contains(kind)
                || target && answer.kinds.contains(kind)
            &&& after.target.reasons.contains(reason) <==> summary.target.reasons.contains(reason)
                || target && answer.reasons.contains(reason)
            &&& after.unknown <==> summary.unknown || state.bits == 0
            &&& state.bits == 0 ==> after.states == summary.states
            &&& after.unknown_state_bits == summary.unknown_state_bits
            &&& after.classes == summary.classes
            &&& after.ids == summary.ids
            &&& after.types == summary.types
            &&& after.attributes == summary.attributes
            &&& after.custom_states == summary.custom_states
            &&& after.universal == summary.universal
        }),
{
    let bits = state.bits;
    assert((bits & (0x2u64 | 0x100000u64 | 0x200000u64) != 0 <==> bits & (0x2u64 | 0x100000u64) != 0 || bits
        & 0x200000 != 0) && (bits == 0 ==> bits & (0x2u64 | 0x100000u64 | 0x200000u64) == 0 && bits
        & 0x200000 == 0 && bits & 0x100 == 0)) by (bit_vector);
    super::dependency_query::lemma_join_is_union(summary.focus, answer);
    super::dependency_query::lemma_join_is_union(summary.focus.join(answer), answer);
    super::dependency_query::lemma_join_is_union(summary.focus_within, answer);
    super::dependency_query::lemma_join_is_union(summary.target, answer);
}

/// A joined summary has the answers of both for every element, for focus, for
/// focus-within and for target, and is unknown where either is.
pub proof fn lemma_joined_summaries_have_both_answers(
    first: DependencySummaryView,
    second: DependencySummaryView,
    kind: LightmountDependencyKind,
    reason: LightmountDependencyFallbackReason,
)
    requires
        super::summary_laws::summary_well_formed(second),
    ensures
        ({
            let joined = first.join(second);
            &&& joined.universal.kinds.contains(kind) <==> first.universal.kinds.contains(kind)
                || second.universal.kinds.contains(kind)
            &&& joined.universal.reasons.contains(reason) <==> first.universal.reasons.contains(
                reason,
            ) || second.universal.reasons.contains(reason)
            &&& joined.focus.kinds.contains(kind) <==> first.focus.kinds.contains(kind)
                || second.focus.kinds.contains(kind)
            &&& joined.focus.reasons.contains(reason) <==> first.focus.reasons.contains(reason)
                || second.focus.reasons.contains(reason)
            &&& joined.focus_within.kinds.contains(kind) <==> first.focus_within.kinds.contains(
                kind,
            ) || second.focus_within.kinds.contains(kind)
            &&& joined.focus_within.reasons.contains(reason)
                <==> first.focus_within.reasons.contains(reason)
                || second.focus_within.reasons.contains(reason)
            &&& joined.target.kinds.contains(kind) <==> first.target.kinds.contains(kind)
                || second.target.kinds.contains(kind)
            &&& joined.target.reasons.contains(reason) <==> first.target.reasons.contains(reason)
                || second.target.reasons.contains(reason)
            &&& joined.unknown <==> first.unknown || second.unknown
            &&& joined.unknown_state_bits == first.unknown_state_bits | second.unknown_state_bits
        }),
{
    super::dependency_query::lemma_join_is_union(first.universal, second.universal);
    super::dependency_query::lemma_join_is_union(first.focus, second.focus);
    super::dependency_query::lemma_join_is_union(first.focus_within, second.focus_within);
    super::dependency_query::lemma_join_is_union(first.target, second.target);
}

/// Noting that a dependency has no key marks the summary and does no more, and
/// an answer for every element is added to that answer alone.
pub proof fn lemma_unkeyed_dependencies_are_noted(
    summary: DependencySummaryView,
    unknown: bool,
    answer: DependencyAnswer,
    kind: LightmountDependencyKind,
)
    requires
        answer.well_formed(),
    ensures
        ({
            let after = summary.with_unknown_if(unknown);
            &&& after.unknown <==> summary.unknown || unknown
            &&& after == DependencySummaryView { unknown: after.unknown, ..summary }
        }),
        ({
            let after = summary.with_universal(answer);
            &&& after.universal.kinds.contains(kind) <==> summary.universal.kinds.contains(kind)
                || answer.kinds.contains(kind)
            &&& after == DependencySummaryView { universal: after.universal, ..summary }
        }),
{
    super::dependency_query::lemma_join_is_union(summary.universal, answer);
}

/// Whether a list has an answer that names this kind.
pub open spec fn some_entry_names<K>(
    entries: Seq<(K, DependencyAnswer)>,
    kind: LightmountDependencyKind,
) -> bool {
    exists|i: int| 0 <= i < entries.len() && (#[trigger] entries[i]).1.kinds.contains(kind)
}

proof fn lemma_named_entry_shows<K>(
    entries: Seq<(K, DependencyAnswer)>,
    kind: LightmountDependencyKind,
    aspect: DependencyAspect,
)
    requires
        forall|answer: DependencyAnswer| #[trigger]
            answer.kinds.contains(kind) ==> aspect.shown_by(answer),
    ensures
        some_entry_names(entries, kind) ==> aspect.shown_by_entry(entries),
{
    if some_entry_names(entries, kind) {
        let i = choose|i: int|
            0 <= i < entries.len() && (#[trigger] entries[i]).1.kinds.contains(kind);
        assert(aspect.shown_by(entries[i].1));
    }
}

/// Whether an answer of a summary, under any key, names this kind.
pub open spec fn names_kind(summary: DependencySummaryView, kind: LightmountDependencyKind) -> bool {
    ||| some_entry_names(summary.classes, kind)
    ||| some_entry_names(summary.ids, kind)
    ||| some_entry_names(summary.types, kind)
    ||| some_entry_names(summary.attributes, kind)
    ||| some_entry_names(summary.custom_states, kind)
    ||| some_entry_names(summary.states, kind)
    ||| summary.universal.kinds.contains(kind)
    ||| summary.focus.kinds.contains(kind)
    ||| summary.focus_within.kinds.contains(kind)
    ||| summary.target.kinds.contains(kind)
}

/// A summary that names siblings under any key shows siblings, and one that
/// names slotted elements shows those.
pub proof fn lemma_named_kinds_are_shown(summary: DependencySummaryView)
    ensures
        names_kind(summary, LightmountDependencyKind::Siblings) ==> summary.shows(
            DependencyAspect::Siblings,
        ),
        names_kind(summary, LightmountDependencyKind::SlottedElements) ==> summary.shows(
            DependencyAspect::Slotted,
        ),
{
    let siblings = LightmountDependencyKind::Siblings;
    let slotted = LightmountDependencyKind::SlottedElements;
    lemma_named_entry_shows(summary.classes, siblings, DependencyAspect::Siblings);
    lemma_named_entry_shows(summary.ids, siblings, DependencyAspect::Siblings);
    lemma_named_entry_shows(summary.types, siblings, DependencyAspect::Siblings);
    lemma_named_entry_shows(summary.attributes, siblings, DependencyAspect::Siblings);
    lemma_named_entry_shows(summary.custom_states, siblings, DependencyAspect::Siblings);
    lemma_named_entry_shows(summary.states, siblings, DependencyAspect::Siblings);
    lemma_named_entry_shows(summary.classes, slotted, DependencyAspect::Slotted);
    lemma_named_entry_shows(summary.ids, slotted, DependencyAspect::Slotted);
    lemma_named_entry_shows(summary.types, slotted, DependencyAspect::Slotted);
    lemma_named_entry_shows(summary.attributes, slotted, DependencyAspect::Slotted);
    lemma_named_entry_shows(summary.custom_states, slotted, DependencyAspect::Slotted);
    lemma_named_entry_shows(summary.states, slotted, DependencyAspect::Slotted);
}

/// Whether a list has an answer that can affect an aspect.
pub open spec fn some_entry_affects<K>(
    entries: Seq<(K, DependencyAnswer)>,
    aspect: DependencyAspect,
) -> bool {
    exists|i: int|
        0 <= i < entries.len() && match aspect {
            DependencyAspect::Siblings => (#[trigger] entries[i]).1.affects_siblings(),
            DependencyAspect::RelativeAnchors => entries[i].1.affects_relative_anchors(),
            DependencyAspect::Slotted => entries[i].1.affects_slotted(),
        }
}

/// A summary shows an aspect where one of its answers, under whatever key, can
/// affect that aspect, and in no other case.
pub proof fn lemma_summaries_show_what_answers_affect(
    summary: DependencySummaryView,
    aspect: DependencyAspect,
)
    ensures
        summary.shows(aspect) <==> {
            ||| some_entry_affects(summary.classes, aspect)
            ||| some_entry_affects(summary.ids, aspect)
            ||| some_entry_affects(summary.types, aspect)
            ||| some_entry_affects(summary.attributes, aspect)
            ||| some_entry_affects(summary.custom_states, aspect)
            ||| some_entry_affects(summary.states, aspect)
            ||| some_entry_affects(
                seq![
                    (0int, summary.universal),
                    (1int, summary.focus),
                    (2int, summary.focus_within),
                    (3int, summary.target),
                ],
                aspect,
            )
        },
{
    lemma_entries_show_what_they_affect(summary.classes, aspect);
    lemma_entries_show_what_they_affect(summary.ids, aspect);
    lemma_entries_show_what_they_affect(summary.types, aspect);
    lemma_entries_show_what_they_affect(summary.attributes, aspect);
    lemma_entries_show_what_they_affect(summary.custom_states, aspect);
    lemma_entries_show_what_they_affect(summary.states, aspect);
    let single = seq![
        (0int, summary.universal),
        (1int, summary.focus),
        (2int, summary.focus_within),
        (3int, summary.target),
    ];
    lemma_entries_show_what_they_affect(single, aspect);
    assert(single[0].1 == summary.universal);
    assert(single[1].1 == summary.focus);
    assert(single[2].1 == summary.focus_within);
    assert(single[3].1 == summary.target);
}

proof fn lemma_entries_show_what_they_affect<K>(
    entries: Seq<(K, DependencyAnswer)>,
    aspect: DependencyAspect,
)
    ensures
        aspect.shown_by_entry(entries) <==> some_entry_affects(entries, aspect),
{
}

/// A key counts as that of a boundary where it is listed under its own kind. No
/// state is a boundary.
pub proof fn lemma_boundaries_match_by_kind(boundaries: BoundarySummaryView, name: Seq<char>)
    ensures
        boundaries.matches(QueryShape::Class(name)) <==> boundaries.classes.contains(name),
        boundaries.matches(QueryShape::Id(name)) <==> boundaries.ids.contains(name),
        boundaries.matches(QueryShape::Type(name)) <==> boundaries.types.contains(name),
        boundaries.matches(QueryShape::Attribute(name)) <==> boundaries.attributes.contains(name),
        boundaries.matches(QueryShape::Universal) <==> boundaries.universal,
        !boundaries.matches(QueryShape::CustomState(name)),
        forall|state: ElementState| !#[trigger] boundaries.matches(QueryShape::State(state)),
{
}

/// A sibling summary counts a state under focus and under target by its flags,
/// and as unknown where it has neither.
pub proof fn lemma_sibling_states_count_by_their_flags(
    summary: SiblingSummaryView,
    state: ElementState,
    unknown: bool,
)
    ensures
        ({
            let after = summary.with_state(state);
            let focus = state.bits & (0x2u64 | 0x100000u64 | 0x200000u64) != 0;
            let target = state.bits & 0x100 != 0;
            &&& after.focus <==> summary.focus || focus
            &&& after.target <==> summary.target || target
            &&& after.unknown <==> summary.unknown || !focus && !target
            &&& after.classes == summary.classes
            &&& after.ids == summary.ids
            &&& after.attributes == summary.attributes
        }),
        ({
            let after = summary.with_unknown_if(unknown);
            &&& after.unknown <==> summary.unknown || unknown
            &&& after == SiblingSummaryView { unknown: after.unknown, ..summary }
        }),
        !summary.has_any() <==> {
            &&& summary.classes.len() == 0
            &&& summary.ids.len() == 0
            &&& summary.attributes.len() == 0
            &&& !summary.focus
            &&& !summary.target
            &&& !summary.unknown
        },
{
}

/// An answer names no dependency where it has no kind, no reason and nothing
/// unknown. Adding a kind or a reason adds that one alone.
pub proof fn lemma_answers_grow_by_what_is_added(
    answer: DependencyAnswer,
    kind: LightmountDependencyKind,
    reason: LightmountDependencyFallbackReason,
    other_kind: LightmountDependencyKind,
    other_reason: LightmountDependencyFallbackReason,
)
    ensures
        answer.has_any() <==> answer.unknown || answer.kinds.len() > 0 || answer.reasons.len() > 0,
        answer.with_kind(kind).kinds.contains(other_kind) <==> answer.kinds.contains(other_kind)
            || other_kind == kind,
        answer.kinds.is_prefix_of(answer.with_kind(kind).kinds),
        answer.with_kind(kind).reasons == answer.reasons,
        answer.with_kind(kind).unknown == answer.unknown,
        answer.with_reason(reason).reasons.contains(other_reason) <==> answer.reasons.contains(
            other_reason,
        ) || other_reason == reason,
        answer.reasons.is_prefix_of(answer.with_reason(reason).reasons),
        answer.with_reason(reason).kinds == answer.kinds,
        answer.with_reason(reason).unknown <==> answer.unknown || reason
            == LightmountDependencyFallbackReason::UnknownDependency,
        ({
            let nth = super::dependency_summary::nth_of_answer();
            &&& nth.kinds == seq![LightmountDependencyKind::Siblings]
            &&& nth.reasons == seq![LightmountDependencyFallbackReason::NthOfDependency]
            &&& !nth.unknown
        }),
{
    super::lists::lemma_contains_push(answer.kinds, kind, other_kind);
    super::lists::lemma_contains_push(answer.reasons, reason, other_reason);
    let nth = super::dependency_summary::nth_of_answer();
    assert(nth.kinds =~= seq![LightmountDependencyKind::Siblings]);
    assert(nth.reasons =~= seq![LightmountDependencyFallbackReason::NthOfDependency]);
}

/// Noting an answer keeps every entry in its place and changes none but that of
/// its key. A new key gets an entry behind the others, unless the answer names
/// nothing.
pub proof fn lemma_noted_answers_keep_places<K>(
    entries: Seq<(K, DependencyAnswer)>,
    key: K,
    answer: DependencyAnswer,
    index: int,
)
    ensures
        ({
            let after = super::dependency_summary::noted(entries, key, answer);
            let names_any = answer.unknown || answer.kinds.len() > 0 || answer.reasons.len() > 0;
            let is_new = forall|i: int| 0 <= i < entries.len() ==> (#[trigger] entries[i]).0 != key;
            &&& !names_any ==> after == entries
            &&& is_new && names_any ==> after == entries.push((key, answer))
            &&& !is_new ==> after.len() == entries.len()
            &&& 0 <= index < entries.len() ==> after[index].0 == entries[index].0
            &&& 0 <= index < entries.len() && entries[index].0 != key ==> after[index]
                == entries[index]
        }),
    decreases entries.len(),
{
    if answer.has_any() {
        let after = super::dependency_summary::noted(entries, key, answer);
        if entries.len() == 0 {
            assert(after =~= entries.push((key, answer)));
        } else if entries[0].0 != key {
            let rest = entries.drop_first();
            lemma_noted_answers_keep_places(rest, key, answer, index - 1);
            let is_new = forall|i: int| 0 <= i < entries.len() ==> (#[trigger] entries[i]).0 != key;
            if is_new {
                assert forall|i: int| 0 <= i < rest.len() implies (#[trigger] rest[i]).0 != key by {
                    assert(rest[i] == entries[i + 1]);
                }
                assert(after =~= entries.push((key, answer)));
            } else {
                let i = choose|i: int| 0 <= i < entries.len() && (#[trigger] entries[i]).0 == key;
                assert(rest[i - 1].0 == key);
            }
        }
    }
}

} // verus!
