//! Laws of dependency summaries.

use vstd::prelude::*;

use super::dependency::Dependency;
use super::dependency_query::{
    DependencyAnswer, LightmountDependencyFallbackRootPolicy, LightmountDependencyKind,
};
use super::dependency_summary::{DependencyAspect, DependencySummaryView};
use super::element_state::{ElementState, FOCUS, FOCUSRING, FOCUS_WITHIN, URLTARGET};
use super::invalidation_map::{
    AdditionalRelativeSelectorInvalidationMap, InvalidationMap, StateDependency,
};
use super::query::QueryShape;
use super::reasons::LightmountDependencyFallbackReason;
use super::source_summary::SourceSummaryView;

verus! {

/// Adding lists of kinds and reasons keeps an answer well-formed.
pub proof fn lemma_added_lists_well_formed(
    answer: DependencyAnswer,
    kinds: Seq<LightmountDependencyKind>,
    reasons: Seq<LightmountDependencyFallbackReason>,
)
    requires
        answer.well_formed(),
    ensures
        answer.with_kinds(kinds).well_formed(),
        answer.with_reasons(reasons).well_formed(),
        answer.with_kinds(kinds).with_reasons(reasons).well_formed(),
{
    let unknown = LightmountDependencyFallbackReason::UnknownDependency;
    super::ordered_set::lemma_extend_unique_no_duplicates(answer.kinds, kinds);
    super::ordered_set::lemma_extend_unique_no_duplicates(answer.reasons, reasons);
    super::ordered_set::lemma_extend_unique_contains(answer.reasons, reasons, unknown);
}

/// The answers of dependencies are well-formed.
pub proof fn lemma_answers_of_dependencies_well_formed(
    dependencies: Seq<Dependency>,
    dependency: Dependency,
)
    ensures
        super::invalidation_map::answer_of(dependencies).well_formed(),
        super::invalidation_map::with_dependency(
            DependencyAnswer::none(),
            dependency,
        ).well_formed(),
{
    lemma_added_lists_well_formed(
        DependencyAnswer::none(),
        super::invalidation_map::kinds_of_list(dependencies),
        super::invalidation_map::reasons_of_list(dependencies),
    );
    lemma_added_lists_well_formed(
        DependencyAnswer::none(),
        super::invalidation_map::kinds_of(dependency),
        super::invalidation_map::reasons_of(dependency),
    );
}

/// Whether every answer of a list is well-formed.
pub open spec fn answers_well_formed<K>(entries: Seq<(K, DependencyAnswer)>) -> bool {
    forall|i: int| 0 <= i < entries.len() ==> (#[trigger] entries[i]).1.well_formed()
}

/// Noting well-formed answers in turn keeps the entries well-formed.
pub proof fn lemma_noted_all_well_formed<K>(
    entries: Seq<(K, DependencyAnswer)>,
    more: Seq<(K, DependencyAnswer)>,
)
    requires
        super::dependency_summary::entries_well_formed(entries),
        answers_well_formed(more),
    ensures
        super::dependency_summary::entries_well_formed(
            super::dependency_summary::noted_all(entries, more),
        ),
    decreases more.len(),
{
    if more.len() > 0 {
        let rest = more.drop_last();
        assert forall|i: int| 0 <= i < rest.len() implies (#[trigger] rest[i]).1.well_formed() by {
            assert(rest[i] == more[i]);
        }
        lemma_noted_all_well_formed(entries, rest);
        assert(more[more.len() - 1].1.well_formed());
        super::dependency_summary::lemma_noted_well_formed(
            super::dependency_summary::noted_all(entries, rest),
            more.last().0,
            more.last().1,
        );
    }
}

/// Whether the parts of a summary are well-formed.
pub open spec fn summary_well_formed(summary: DependencySummaryView) -> bool {
    &&& super::dependency_summary::entries_well_formed(summary.classes)
    &&& super::dependency_summary::entries_well_formed(summary.ids)
    &&& super::dependency_summary::entries_well_formed(summary.types)
    &&& super::dependency_summary::entries_well_formed(summary.attributes)
    &&& super::dependency_summary::entries_well_formed(summary.custom_states)
    &&& super::dependency_summary::entries_well_formed(summary.states)
    &&& summary.universal.well_formed()
    &&& summary.focus.well_formed()
    &&& summary.focus_within.well_formed()
    &&& summary.target.well_formed()
}

proof fn lemma_joined_well_formed(answer: DependencyAnswer, other: DependencyAnswer)
    requires
        answer.well_formed(),
        other.well_formed(),
    ensures
        answer.join(other).well_formed(),
{
    super::dependency_query::lemma_answers_stay_well_formed(
        answer,
        other,
        LightmountDependencyKind::Element,
        LightmountDependencyFallbackReason::FullSelector,
    );
}

/// Recording a well-formed answer under any key keeps a summary well-formed:
/// no key occurs twice, and no answer without dependencies is kept.
pub proof fn lemma_summary_stays_well_formed(
    summary: DependencySummaryView,
    key: Seq<char>,
    state: ElementState,
    answer: DependencyAnswer,
)
    requires
        summary_well_formed(summary),
        answer.well_formed(),
    ensures
        summary_well_formed(DependencySummaryView::none()),
        summary_well_formed(summary.with_class(key, answer)),
        summary_well_formed(summary.with_id(key, answer)),
        summary_well_formed(summary.with_attribute(key, answer)),
        summary_well_formed(summary.with_type(key, answer)),
        summary_well_formed(summary.with_custom_state(key, answer)),
        summary_well_formed(summary.with_universal(answer)),
        summary_well_formed(summary.with_state(state, answer)),
        summary_well_formed(summary.with_unrepresented(state)),
{
    super::dependency_summary::lemma_noted_well_formed(summary.classes, key, answer);
    super::dependency_summary::lemma_noted_well_formed(summary.ids, key, answer);
    super::dependency_summary::lemma_noted_well_formed(summary.attributes, key, answer);
    super::dependency_summary::lemma_noted_well_formed(summary.types, key, answer);
    super::dependency_summary::lemma_noted_well_formed(summary.custom_states, key, answer);
    super::dependency_summary::lemma_noted_well_formed(summary.states, state.bits, answer);
    lemma_joined_well_formed(summary.universal, answer);
    lemma_joined_well_formed(summary.focus, answer);
    lemma_joined_well_formed(summary.focus.join(answer), answer);
    lemma_joined_well_formed(summary.focus_within, answer);
    lemma_joined_well_formed(summary.target, answer);
}

/// Joining well-formed summaries gives a well-formed summary.
pub proof fn lemma_joined_summary_well_formed(
    summary: DependencySummaryView,
    other: DependencySummaryView,
)
    requires
        summary_well_formed(summary),
        summary_well_formed(other),
    ensures
        summary_well_formed(summary.join(other)),
{
    lemma_noted_all_well_formed(summary.classes, other.classes);
    lemma_noted_all_well_formed(summary.ids, other.ids);
    lemma_noted_all_well_formed(summary.attributes, other.attributes);
    lemma_noted_all_well_formed(summary.types, other.types);
    lemma_noted_all_well_formed(summary.custom_states, other.custom_states);
    lemma_noted_all_well_formed(summary.states, other.states);
    lemma_joined_well_formed(summary.universal, other.universal);
    lemma_joined_well_formed(summary.focus, other.focus);
    lemma_joined_well_formed(summary.focus_within, other.focus_within);
    lemma_joined_well_formed(summary.target, other.target);
}

pub(super) proof fn lemma_with_states_well_formed(
    summary: DependencySummaryView,
    dependencies: Seq<StateDependency>,
)
    requires
        summary_well_formed(summary),
    ensures
        summary_well_formed(super::invalidation_map::with_states(summary, dependencies)),
    decreases dependencies.len(),
{
    if dependencies.len() > 0 {
        lemma_with_states_well_formed(summary, dependencies.drop_last());
        lemma_answers_of_dependencies_well_formed(Seq::empty(), dependencies.last().dep);
        lemma_summary_stays_well_formed(
            super::invalidation_map::with_states(summary, dependencies.drop_last()),
            Seq::empty(),
            dependencies.last().state,
            super::invalidation_map::with_dependency(
                DependencyAnswer::none(),
                dependencies.last().dep,
            ),
        );
    }
}

pub(super) proof fn lemma_lists_well_formed(lists: Seq<(String, Vec<Dependency>)>)
    ensures
        super::dependency_summary::entries_well_formed(
            super::dependency_summary::noted_all(
                Seq::empty(),
                super::invalidation_map::answers_by_name(lists),
            ),
        ),
{
    let answers = super::invalidation_map::answers_by_name(lists);
    assert forall|i: int| 0 <= i < answers.len() implies (#[trigger]
    answers[i]).1.well_formed() by {
        lemma_list_answer_well_formed(lists[i].1@);
    }
    lemma_noted_all_well_formed(Seq::empty(), answers);
}

pub(super) proof fn lemma_list_answer_well_formed(dependencies: Seq<Dependency>)
    ensures
        super::invalidation_map::answer_of(dependencies).well_formed(),
{
    lemma_added_lists_well_formed(
        DependencyAnswer::none(),
        super::invalidation_map::kinds_of_list(dependencies),
        super::invalidation_map::reasons_of_list(dependencies),
    );
}

pub(super) proof fn lemma_keyed_summary_well_formed(map: InvalidationMap)
    ensures
        summary_well_formed(super::invalidation_map::keyed_summary_of_map(map)),
{
    lemma_lists_well_formed(map.class_to_selector@);
    lemma_lists_well_formed(map.id_to_selector@);
    lemma_lists_well_formed(map.other_attribute_affecting_selectors@);
    lemma_lists_well_formed(map.type_to_selector@);
    lemma_lists_well_formed(map.custom_state_affecting_selectors@);
    lemma_list_answer_well_formed(map.any_to_selector@);
    lemma_joined_well_formed(
        DependencyAnswer::none(),
        super::invalidation_map::answer_of(map.any_to_selector@),
    );
}

/// The summaries of invalidation maps are well-formed.
pub proof fn lemma_summaries_of_maps_well_formed(
    map: InvalidationMap,
    relative_map: AdditionalRelativeSelectorInvalidationMap,
)
    ensures
        summary_well_formed(super::invalidation_map::summary_of_map(map)),
        summary_well_formed(super::invalidation_map::summary_of_relative_map(relative_map)),
{
    lemma_keyed_summary_well_formed(map);
    lemma_with_states_well_formed(
        super::invalidation_map::keyed_summary_of_map(map),
        map.state_affecting_selectors.entries(),
    );
    lemma_lists_well_formed(relative_map.type_to_selector@);
    lemma_list_answer_well_formed(relative_map.any_to_selector@);
    lemma_joined_well_formed(
        DependencyAnswer::none(),
        super::invalidation_map::answer_of(relative_map.any_to_selector@),
    );
}

/// What is recorded under a key is read back by the query for that key, joined
/// to what was there, and no query for another key changes.
pub proof fn lemma_recorded_answers_read_back(
    summary: DependencySummaryView,
    key: Seq<char>,
    other: Seq<char>,
    answer: DependencyAnswer,
)
    requires
        summary_well_formed(summary),
        answer.well_formed(),
        other != key,
    ensures
        super::dependency_summary::answer_for(summary.with_class(key, answer).classes, key)
            == super::dependency_summary::answer_for(summary.classes, key).join(answer),
        super::dependency_summary::answer_for(summary.with_class(key, answer).classes, other)
            == super::dependency_summary::answer_for(summary.classes, other),
        super::dependency_summary::answer_for(summary.with_id(key, answer).ids, key)
            == super::dependency_summary::answer_for(summary.ids, key).join(answer),
        super::dependency_summary::answer_for(summary.with_id(key, answer).ids, other)
            == super::dependency_summary::answer_for(summary.ids, other),
        super::dependency_summary::answer_for(summary.with_attribute(key, answer).attributes, key)
            == super::dependency_summary::answer_for(summary.attributes, key).join(answer),
        super::dependency_summary::answer_for(
            summary.with_attribute(key, answer).attributes,
            other,
        ) == super::dependency_summary::answer_for(summary.attributes, other),
        super::dependency_summary::answer_for(summary.with_type(key, answer).types, key)
            == super::dependency_summary::answer_for(summary.types, key).join(answer),
        super::dependency_summary::answer_for(summary.with_type(key, answer).types, other)
            == super::dependency_summary::answer_for(summary.types, other),
        super::dependency_summary::answer_for(
            summary.with_custom_state(key, answer).custom_states,
            key,
        ) == super::dependency_summary::answer_for(summary.custom_states, key).join(answer),
        super::dependency_summary::answer_for(
            summary.with_custom_state(key, answer).custom_states,
            other,
        ) == super::dependency_summary::answer_for(summary.custom_states, other),
{
    lemma_entry_reads_back(summary.classes, key, other, answer);
    lemma_entry_reads_back(summary.ids, key, other, answer);
    lemma_entry_reads_back(summary.attributes, key, other, answer);
    lemma_entry_reads_back(summary.types, key, other, answer);
    lemma_entry_reads_back(summary.custom_states, key, other, answer);
}

proof fn lemma_no_dependencies(answer: DependencyAnswer)
    requires
        answer.well_formed(),
        !answer.has_any(),
    ensures
        answer == DependencyAnswer::none(),
{
    assert(answer.kinds =~= Seq::empty());
    assert(answer.reasons =~= Seq::empty());
}

pub(super) proof fn lemma_answer_for_well_formed<K>(entries: Seq<(K, DependencyAnswer)>, key: K)
    requires
        super::dependency_summary::entries_well_formed(entries),
    ensures
        super::dependency_summary::answer_for(entries, key).well_formed(),
        !super::dependency_summary::has_entry(entries, key)
            ==> super::dependency_summary::answer_for(entries, key) == DependencyAnswer::none(),
    decreases entries.len(),
{
    if entries.len() > 0 {
        let rest = entries.drop_first();
        assert(super::dependency_summary::entries_well_formed(rest)) by {
            assert forall|i: int, j: int| 0 <= i < j < rest.len() implies (#[trigger] rest[i]).0
                != (#[trigger] rest[j]).0 by {
                assert(rest[i] == entries[i + 1] && rest[j] == entries[j + 1]);
            }
            assert forall|i: int| 0 <= i < rest.len() implies (#[trigger] rest[i]).1.well_formed()
                && rest[i].1.has_any() by {
                assert(rest[i] == entries[i + 1]);
            }
        }
        lemma_answer_for_well_formed(rest, key);
        assert(entries[0].1.well_formed());
        if super::dependency_summary::has_entry(rest, key) {
            let i = choose|i: int| 0 <= i < rest.len() && (#[trigger] rest[i]).0 == key;
            assert(entries[i + 1].0 == key);
        }
    }
}

pub(super) proof fn lemma_entry_reads_back<K>(
    entries: Seq<(K, DependencyAnswer)>,
    key: K,
    other: K,
    answer: DependencyAnswer,
)
    requires
        super::dependency_summary::entries_well_formed(entries),
        answer.well_formed(),
    ensures
        super::dependency_summary::answer_for(
            super::dependency_summary::noted(entries, key, answer),
            key,
        ) == super::dependency_summary::answer_for(entries, key).join(answer),
        other != key ==> super::dependency_summary::answer_for(
            super::dependency_summary::noted(entries, key, answer),
            other,
        ) == super::dependency_summary::answer_for(entries, other),
{
    let before = super::dependency_summary::answer_for(entries, key);
    super::dependency_summary::lemma_answer_for_noted(entries, key, answer, other);
    lemma_answer_for_well_formed(entries, key);
    super::dependency_query::lemma_join_none(answer);
    super::dependency_query::lemma_join_none(before);
    if !answer.has_any() {
        lemma_no_dependencies(answer);
    }
}

/// Joining summaries joins the answers for each key.
pub proof fn lemma_joined_entries_read_back<K>(
    entries: Seq<(K, DependencyAnswer)>,
    more: Seq<(K, DependencyAnswer)>,
    key: K,
)
    requires
        super::dependency_summary::entries_well_formed(entries),
        super::dependency_summary::entries_well_formed(more),
    ensures
        super::dependency_summary::answer_for(
            super::dependency_summary::noted_all(entries, more),
            key,
        ) == super::dependency_summary::answer_for(entries, key).join(
            super::dependency_summary::answer_for(more, key),
        ),
    decreases more.len(),
{
    let own = super::dependency_summary::answer_for(entries, key);
    lemma_answer_for_well_formed(entries, key);
    super::dependency_query::lemma_join_none(own);
    if more.len() > 0 {
        let rest = more.drop_last();
        let last = more.last();
        assert(super::dependency_summary::entries_well_formed(rest)) by {
            assert forall|i: int, j: int| 0 <= i < j < rest.len() implies (#[trigger] rest[i]).0
                != (#[trigger] rest[j]).0 by {
                assert(rest[i] == more[i] && rest[j] == more[j]);
            }
            assert forall|i: int| 0 <= i < rest.len() implies (#[trigger] rest[i]).1.well_formed()
                && rest[i].1.has_any() by {
                assert(rest[i] == more[i]);
            }
        }
        assert(more[more.len() - 1].1.well_formed());
        lemma_joined_entries_read_back(entries, rest, key);
        lemma_noted_all_well_formed(entries, rest);
        let before = super::dependency_summary::noted_all(entries, rest);
        lemma_entry_reads_back(before, last.0, key, last.1);
        lemma_answer_for_last(rest, last.0, last.1, key);
        assert(more =~= rest.push(last));
        lemma_answer_for_well_formed(rest, key);
        if key == last.0 {
            assert(!super::dependency_summary::has_entry(rest, key)) by {
                if super::dependency_summary::has_entry(rest, key) {
                    let i = choose|i: int| 0 <= i < rest.len() && (#[trigger] rest[i]).0 == key;
                    assert(more[i].0 != more[more.len() - 1].0);
                }
            }
        }
    }
}

proof fn lemma_answer_for_last<K>(
    entries: Seq<(K, DependencyAnswer)>,
    last_key: K,
    last: DependencyAnswer,
    key: K,
)
    ensures
        super::dependency_summary::answer_for(entries.push((last_key, last)), key)
            == if super::dependency_summary::has_entry(entries, key) {
            super::dependency_summary::answer_for(entries, key)
        } else if key == last_key {
            last
        } else {
            DependencyAnswer::none()
        },
    decreases entries.len(),
{
    let all = entries.push((last_key, last));
    if entries.len() == 0 {
        assert(all.drop_first() =~= Seq::empty());
        assert(super::dependency_summary::answer_for(all.drop_first(), key)
            == DependencyAnswer::none());
    } else {
        let rest = entries.drop_first();
        assert(all.drop_first() =~= rest.push((last_key, last)));
        lemma_answer_for_last(rest, last_key, last, key);
        if super::dependency_summary::has_entry(rest, key) {
            let i = choose|i: int| 0 <= i < rest.len() && (#[trigger] rest[i]).0 == key;
            assert(entries[i + 1].0 == key);
        }
        if super::dependency_summary::has_entry(entries, key) && entries[0].0 != key {
            let i = choose|i: int| 0 <= i < entries.len() && (#[trigger] entries[i]).0 == key;
            assert(rest[i - 1].0 == key);
        }
    }
}

/// Whether an answer has all kinds and reasons of another.
pub open spec fn includes_answer(answer: DependencyAnswer, other: DependencyAnswer) -> bool {
    &&& forall|kind: LightmountDependencyKind| #[trigger]
        other.kinds.contains(kind) ==> answer.kinds.contains(kind)
    &&& forall|reason: LightmountDependencyFallbackReason| #[trigger]
        other.reasons.contains(reason) ==> answer.reasons.contains(reason)
}

/// A state query includes the answer of every recorded state that it meets.
pub proof fn lemma_state_query_includes_entry(
    states: Seq<(u64, DependencyAnswer)>,
    bits: u64,
    index: int,
)
    requires
        answers_well_formed(states),
        0 <= index < states.len(),
        states[index].0 & bits != 0,
    ensures
        includes_answer(
            super::dependency_summary::joined_states(states, bits),
            states[index].1,
        ),
    decreases states.len(),
{
    let rest = states.drop_last();
    let last = states.last();
    let before = super::dependency_summary::joined_states(rest, bits);
    assert(states[states.len() - 1].1.well_formed());
    super::dependency_query::lemma_join_is_union(before, last.1);
    assert forall|i: int| 0 <= i < rest.len() implies (#[trigger] rest[i]).1.well_formed() by {
        assert(rest[i] == states[i]);
    }
    if index < rest.len() {
        assert(rest[index] == states[index]);
        lemma_state_query_includes_entry(rest, bits, index);
    }
}

/// A recorded state dependency is found by every query for a state that meets
/// it, and by the queries for focus, focus within and target where the state
/// touches those.
pub proof fn lemma_recorded_state_is_found(
    summary: DependencySummaryView,
    state: ElementState,
    answer: DependencyAnswer,
    query: ElementState,
)
    requires
        summary_well_formed(summary),
        answer.well_formed(),
        !state.spec_is_empty(),
    ensures
        state.meets(query.bits) ==> includes_answer(
            summary.with_state(state, answer).state_answer(query),
            answer,
        ),
        state.meets(FOCUS | FOCUSRING) || state.meets(FOCUS_WITHIN) ==> includes_answer(
            summary.with_state(state, answer).focus,
            answer,
        ),
        state.meets(FOCUS_WITHIN) ==> includes_answer(
            summary.with_state(state, answer).focus_within,
            answer,
        ),
        state.meets(URLTARGET) ==> includes_answer(
            summary.with_state(state, answer).target,
            answer,
        ),
{
    let after = summary.with_state(state, answer);
    super::dependency_query::lemma_join_is_union(summary.focus, answer);
    super::dependency_query::lemma_join_is_union(summary.focus.join(answer), answer);
    super::dependency_query::lemma_join_is_union(summary.focus_within, answer);
    super::dependency_query::lemma_join_is_union(summary.target, answer);
    if state.meets(query.bits) && answer.has_any() {
        lemma_summary_stays_well_formed(summary, Seq::empty(), state, answer);
        super::dependency_summary::lemma_answer_for_noted(
            summary.states,
            state.bits,
            answer,
            state.bits,
        );
        let index = super::dependency_summary::lemma_noted_entry(
            summary.states,
            state.bits,
            answer,
        );
        lemma_state_query_includes_entry(after.states, query.bits, index);
        let joined = super::dependency_summary::joined_states(after.states, query.bits);
        let unsupported = LightmountDependencyFallbackReason::UnsupportedStateDependency;
        assert forall|reason: LightmountDependencyFallbackReason| #[trigger]
            answer.reasons.contains(reason) implies after.state_answer(query).reasons.contains(
            reason,
        ) by {
            assert(after.states[index].1.reasons.contains(reason));
            super::lists::lemma_contains_push(joined.reasons, unsupported, reason);
        }
        assert forall|kind: LightmountDependencyKind| #[trigger]
            answer.kinds.contains(kind) implies after.state_answer(query).kinds.contains(kind) by {
            assert(after.states[index].1.kinds.contains(kind));
        }
    }
}

/// State bits that are marked as depended on without an answer make every query
/// for them fall back.
pub proof fn lemma_unrepresented_state_falls_back(
    summary: DependencySummaryView,
    state: ElementState,
    query: ElementState,
)
    requires
        (state.bits & !super::dependency_summary::represented_bits(summary.states)) & query.bits
            != 0,
    ensures
        summary.with_unrepresented(state).state_answer(query).reasons.contains(
            LightmountDependencyFallbackReason::UnsupportedStateDependency,
        ),
        summary.with_unrepresented(state).state_answer(query).policy()
            == LightmountDependencyFallbackRootPolicy::SourceFallback,
{
    let unsupported = LightmountDependencyFallbackReason::UnsupportedStateDependency;
    let marked = state.bits & !super::dependency_summary::represented_bits(summary.states);
    let known = summary.unknown_state_bits;
    let bits = query.bits;
    assert(marked & bits != 0 ==> (known | marked) & bits != 0) by (bit_vector);
    let joined = super::dependency_summary::joined_states(summary.states, bits);
    super::lists::lemma_contains_push(joined.reasons, unsupported, unsupported);
    let answer = summary.with_unrepresented(state).state_answer(query);
    let index = answer.reasons.index_of(unsupported);
    assert(answer.reasons[index] == unsupported);
}

/// An answer with dependencies always asks for some category of roots, and one
/// that context roots cannot cover asks for source fallback. An answer without
/// any asks for nothing.
pub proof fn lemma_answers_ask_for_roots(
    answer: DependencyAnswer,
    allow_direct_previous_following_sibling_fallback: bool,
)
    requires
        answer.well_formed(),
    ensures
        answer.has_any() <==> answer.flags().categories(
            allow_direct_previous_following_sibling_fallback,
        ).len() > 0,
        answer.reasons.len() > 0 || answer.kinds.contains(LightmountDependencyKind::Scope)
            <==> answer.flags().requires_source_fallback,
{
    let flags = answer.flags();
    let categories = flags.categories(allow_direct_previous_following_sibling_fallback);
    if answer.kinds.len() > 0 {
        let kind = answer.kinds[0];
        assert(answer.kinds.contains(kind));
        if kind == LightmountDependencyKind::Siblings && !flags.wants_following_siblings(
            allow_direct_previous_following_sibling_fallback,
        ) {
            assert(flags.previous_sibling);
        }
        assert(categories.len() > 0);
    }
    if !answer.has_any() {
        assert(categories.len() == 0);
    }
}

/// Joined answers ask for what either asks for.
pub proof fn lemma_joined_flags(answer: DependencyAnswer, other: DependencyAnswer)
    requires
        answer.well_formed(),
        other.well_formed(),
    ensures
        ({
            let joined = answer.join(other).flags();
            let one = answer.flags();
            let two = other.flags();
            &&& joined.requires_source_fallback == (one.requires_source_fallback
                || two.requires_source_fallback)
            &&& joined.local_subtree == (one.local_subtree || two.local_subtree)
            &&& joined.ancestor_chain == (one.ancestor_chain || two.ancestor_chain)
            &&& joined.following_siblings == (one.following_siblings || two.following_siblings)
            &&& joined.direct_previous_sibling_relative == (one.direct_previous_sibling_relative
                || two.direct_previous_sibling_relative)
            &&& joined.previous_sibling == (one.previous_sibling || two.previous_sibling)
            &&& joined.earlier_siblings == (one.earlier_siblings || two.earlier_siblings)
            &&& joined.ancestor_previous_siblings == (one.ancestor_previous_siblings
                || two.ancestor_previous_siblings)
            &&& joined.ancestor_earlier_siblings == (one.ancestor_earlier_siblings
                || two.ancestor_earlier_siblings)
            &&& joined.slotted_elements == (one.slotted_elements || two.slotted_elements)
            &&& joined.parts == (one.parts || two.parts)
        }),
{
    super::dependency_query::lemma_join_is_union(answer, other);
    let joined = answer.join(other);
    if answer.reasons.len() > 0 {
        assert(answer.reasons.contains(answer.reasons[0]));
        assert(joined.reasons.contains(answer.reasons[0]));
    }
    if other.reasons.len() > 0 {
        assert(other.reasons.contains(other.reasons[0]));
        assert(joined.reasons.contains(other.reasons[0]));
    }
    if joined.reasons.len() > 0 {
        assert(joined.reasons.contains(joined.reasons[0]));
    }
}

/// A key of `:nth-child(... of ...)` affects siblings; where nothing else is
/// recorded under it, mutation-context roots serve as its fallback.
pub proof fn lemma_nth_of_key_affects_siblings(
    summary: DependencySummaryView,
    class: Seq<char>,
)
    requires
        summary_well_formed(summary),
    ensures
        ({
            let answer = super::dependency_summary::answer_for(
                summary.with_class(class, super::dependency_summary::nth_of_answer()).classes,
                class,
            );
            &&& answer.affects_siblings()
            &&& answer.reasons.len() > 0
            &&& !super::dependency_summary::has_entry(summary.classes, class) ==> answer.policy()
                == LightmountDependencyFallbackRootPolicy::ContextRoots
        }),
{
    let nth_of = super::dependency_summary::nth_of_answer();
    let none = DependencyAnswer::none();
    let reason = LightmountDependencyFallbackReason::NthOfDependency;
    super::dependency_query::lemma_answers_stay_well_formed(
        none,
        none,
        LightmountDependencyKind::Siblings,
        reason,
    );
    super::dependency_query::lemma_answers_stay_well_formed(
        none.with_kind(LightmountDependencyKind::Siblings),
        none,
        LightmountDependencyKind::Siblings,
        reason,
    );
    assert(nth_of.kinds =~= seq![LightmountDependencyKind::Siblings]);
    assert(nth_of.reasons =~= seq![reason]);
    assert(nth_of.kinds[0] == LightmountDependencyKind::Siblings);
    assert(nth_of.kinds.contains(LightmountDependencyKind::Siblings));
    assert(nth_of.reasons[0] == reason);
    assert(nth_of.reasons.contains(reason));
    let before = super::dependency_summary::answer_for(summary.classes, class);
    lemma_entry_reads_back(summary.classes, class, class, nth_of);
    lemma_answer_for_well_formed(summary.classes, class);
    super::dependency_query::lemma_join_is_union(before, nth_of);
    super::dependency_query::lemma_join_none(nth_of);
    assert(before.join(nth_of).kinds.contains(LightmountDependencyKind::Siblings));
    assert(before.join(nth_of).reasons.contains(reason));
}

proof fn lemma_joined_aspect(
    answer: DependencyAnswer,
    other: DependencyAnswer,
    aspect: DependencyAspect,
)
    requires
        other.well_formed(),
    ensures
        aspect.shown_by(answer.join(other)) == (aspect.shown_by(answer) || aspect.shown_by(other)),
{
    super::dependency_query::lemma_join_is_union(answer, other);
}

proof fn lemma_shown_by_first<K>(
    first: (K, DependencyAnswer),
    rest: Seq<(K, DependencyAnswer)>,
    aspect: DependencyAspect,
)
    ensures
        aspect.shown_by_entry(seq![first] + rest) == (aspect.shown_by(first.1)
            || aspect.shown_by_entry(rest)),
{
    let all = seq![first] + rest;
    if aspect.shown_by(first.1) {
        assert(aspect.shown_by(all[0].1));
    }
    if aspect.shown_by_entry(rest) {
        let i = choose|i: int| 0 <= i < rest.len() && aspect.shown_by((#[trigger] rest[i]).1);
        assert(aspect.shown_by(all[i + 1].1));
    }
    if aspect.shown_by_entry(all) {
        let i = choose|i: int| 0 <= i < all.len() && aspect.shown_by((#[trigger] all[i]).1);
        if i > 0 {
            assert(aspect.shown_by(rest[i - 1].1));
        }
    }
}

proof fn lemma_noted_shows<K>(
    entries: Seq<(K, DependencyAnswer)>,
    key: K,
    answer: DependencyAnswer,
    aspect: DependencyAspect,
)
    requires
        answer.well_formed(),
    ensures
        aspect.shown_by_entry(super::dependency_summary::noted(entries, key, answer)) == (
        aspect.shown_by_entry(entries) || aspect.shown_by(answer)),
    decreases entries.len(),
{
    if !answer.has_any() {
    } else if entries.len() == 0 {
        let empty = Seq::<(K, DependencyAnswer)>::empty();
        lemma_shown_by_first((key, answer), empty, aspect);
        assert(seq![(key, answer)] + empty =~= seq![(key, answer)]);
    } else {
        let rest = entries.drop_first();
        assert(seq![entries[0]] + rest =~= entries);
        lemma_shown_by_first(entries[0], rest, aspect);
        if entries[0].0 == key {
            lemma_joined_aspect(entries[0].1, answer, aspect);
            lemma_shown_by_first((key, entries[0].1.join(answer)), rest, aspect);
        } else {
            lemma_noted_shows(rest, key, answer, aspect);
            lemma_shown_by_first(
                entries[0],
                super::dependency_summary::noted(rest, key, answer),
                aspect,
            );
        }
    }
}

proof fn lemma_noted_all_shows<K>(
    entries: Seq<(K, DependencyAnswer)>,
    more: Seq<(K, DependencyAnswer)>,
    aspect: DependencyAspect,
)
    requires
        answers_well_formed(more),
    ensures
        aspect.shown_by_entry(super::dependency_summary::noted_all(entries, more)) == (
        aspect.shown_by_entry(entries) || aspect.shown_by_entry(more)),
    decreases more.len(),
{
    if more.len() > 0 {
        let rest = more.drop_last();
        let last = more.last();
        assert forall|i: int| 0 <= i < rest.len() implies (#[trigger] rest[i]).1.well_formed() by {
            assert(rest[i] == more[i]);
        }
        assert(more[more.len() - 1].1.well_formed());
        lemma_noted_all_shows(entries, rest, aspect);
        lemma_noted_shows(
            super::dependency_summary::noted_all(entries, rest),
            last.0,
            last.1,
            aspect,
        );
        if aspect.shown_by_entry(rest) {
            let i = choose|i: int| 0 <= i < rest.len() && aspect.shown_by((#[trigger] rest[i]).1);
            assert(aspect.shown_by(more[i].1));
        }
        if aspect.shown_by(last.1) {
            assert(aspect.shown_by(more[more.len() - 1].1));
        }
        if aspect.shown_by_entry(more) {
            let i = choose|i: int| 0 <= i < more.len() && aspect.shown_by((#[trigger] more[i]).1);
            if i < rest.len() {
                assert(aspect.shown_by(rest[i].1));
            }
        }
    }
}

/// A joined summary shows relative selector anchors, siblings or slotted
/// elements exactly where one of the two summaries does.
pub proof fn lemma_joined_summary_shows_either(
    summary: DependencySummaryView,
    other: DependencySummaryView,
    aspect: DependencyAspect,
)
    requires
        summary_well_formed(summary),
        summary_well_formed(other),
    ensures
        summary.join(other).shows(aspect) == (summary.shows(aspect) || other.shows(aspect)),
{
    lemma_noted_all_shows(summary.classes, other.classes, aspect);
    lemma_noted_all_shows(summary.ids, other.ids, aspect);
    lemma_noted_all_shows(summary.attributes, other.attributes, aspect);
    lemma_noted_all_shows(summary.custom_states, other.custom_states, aspect);
    lemma_noted_all_shows(summary.states, other.states, aspect);
    lemma_noted_all_shows(summary.types, other.types, aspect);
    lemma_joined_aspect(summary.focus, other.focus, aspect);
    lemma_joined_aspect(summary.focus_within, other.focus_within, aspect);
    lemma_joined_aspect(summary.target, other.target, aspect);
    lemma_joined_aspect(summary.universal, other.universal, aspect);
}

proof fn lemma_answer_for_shows<K>(
    entries: Seq<(K, DependencyAnswer)>,
    key: K,
    aspect: DependencyAspect,
)
    requires
        aspect.shown_by(super::dependency_summary::answer_for(entries, key)),
    ensures
        aspect.shown_by_entry(entries),
    decreases entries.len(),
{
    if entries.len() > 0 {
        let rest = entries.drop_first();
        assert(seq![entries[0]] + rest =~= entries);
        lemma_shown_by_first(entries[0], rest, aspect);
        if entries[0].0 != key {
            lemma_answer_for_shows(rest, key, aspect);
        }
    }
}

proof fn lemma_joined_states_show(
    states: Seq<(u64, DependencyAnswer)>,
    bits: u64,
    aspect: DependencyAspect,
)
    requires
        answers_well_formed(states),
        aspect.shown_by(super::dependency_summary::joined_states(states, bits)),
    ensures
        aspect.shown_by_entry(states),
    decreases states.len(),
{
    if states.len() > 0 {
        let rest = states.drop_last();
        let last = states.last();
        assert forall|i: int| 0 <= i < rest.len() implies (#[trigger] rest[i]).1.well_formed() by {
            assert(rest[i] == states[i]);
        }
        assert(states[states.len() - 1].1.well_formed());
        lemma_joined_aspect(
            super::dependency_summary::joined_states(rest, bits),
            last.1,
            aspect,
        );
        if last.0 & bits != 0 && aspect.shown_by(last.1) {
            assert(aspect.shown_by(states[states.len() - 1].1));
        } else {
            lemma_joined_states_show(rest, bits, aspect);
            let i = choose|i: int| 0 <= i < rest.len() && aspect.shown_by((#[trigger] rest[i]).1);
            assert(aspect.shown_by(states[i].1));
        }
    }
}

/// Whether a summary is reported to affect an aspect. A dependency without a
/// key, and a state without an answer, can affect siblings and slotted
/// elements.
pub open spec fn reports(summary: DependencySummaryView, aspect: DependencyAspect) -> bool {
    ||| summary.shows(aspect)
    ||| aspect != DependencyAspect::RelativeAnchors && (summary.unknown
        || summary.unknown_state_bits != 0)
}

/// Where the answer to some query can affect siblings, relative selector
/// anchors or slotted elements, the summary as a whole reports so.
pub proof fn lemma_answers_are_reported(
    source: SourceSummaryView,
    shape: QueryShape,
    aspect: DependencyAspect,
)
    requires
        summary_well_formed(source.summary),
    ensures
        aspect.shown_by(source.answer(shape)) ==> reports(source.summary, aspect),
        aspect.shown_by(source.summary.focus) ==> reports(source.summary, aspect),
        aspect.shown_by(source.summary.focus_within) ==> reports(source.summary, aspect),
        aspect.shown_by(source.summary.target) ==> reports(source.summary, aspect),
{
    let summary = source.summary;
    if aspect.shown_by(source.answer(shape)) {
        match shape {
            QueryShape::Universal => {},
            QueryShape::Type(name) => {
                lemma_answer_for_shows(summary.types, name, aspect);
            },
            QueryShape::Attribute(name) => {
                lemma_answer_for_shows(summary.attributes, name, aspect);
            },
            QueryShape::Class(token) => {
                lemma_answer_for_shows(summary.classes, token, aspect);
            },
            QueryShape::Id(value) => {
                lemma_answer_for_shows(summary.ids, value, aspect);
            },
            QueryShape::CustomState(name) => {
                lemma_answer_for_shows(summary.custom_states, name, aspect);
            },
            QueryShape::State(state) => {
                let joined = super::dependency_summary::joined_states(summary.states, state.bits);
                let unsupported = LightmountDependencyFallbackReason::UnsupportedStateDependency;
                let any = LightmountDependencyFallbackReason::RelativeAnySelector;
                let nested = LightmountDependencyFallbackReason::NestedRelativeSelectorDependency;
                super::lists::lemma_contains_push(joined.reasons, unsupported, any);
                super::lists::lemma_contains_push(joined.reasons, unsupported, nested);
                assert(aspect.shown_by(joined));
                lemma_joined_states_show(summary.states, state.bits, aspect);
            },
        }
    }
}

/// One thing that a summary records.
pub enum SummaryRecording {
    /// An answer for a class token.
    Class(Seq<char>, DependencyAnswer),
    /// An answer for an id.
    Id(Seq<char>, DependencyAnswer),
    /// An answer for an attribute.
    Attribute(Seq<char>, DependencyAnswer),
    /// An answer for an element local name.
    Type(Seq<char>, DependencyAnswer),
    /// An answer for a custom state.
    CustomState(Seq<char>, DependencyAnswer),
    /// An answer for every element.
    Universal(DependencyAnswer),
    /// An answer for a state.
    State(ElementState, DependencyAnswer),
    /// A state that is depended on without an answer.
    Unrepresented(ElementState),
    /// A dependency without a key.
    Unknown,
}

impl SummaryRecording {
    /// The summary with this recorded.
    pub open spec fn record_in(self, summary: DependencySummaryView) -> DependencySummaryView {
        match self {
            Self::Class(key, answer) => summary.with_class(key, answer),
            Self::Id(key, answer) => summary.with_id(key, answer),
            Self::Attribute(key, answer) => summary.with_attribute(key, answer),
            Self::Type(key, answer) => summary.with_type(key, answer),
            Self::CustomState(key, answer) => summary.with_custom_state(key, answer),
            Self::Universal(answer) => summary.with_universal(answer),
            Self::State(state, answer) => summary.with_state(state, answer),
            Self::Unrepresented(state) => summary.with_unrepresented(state),
            Self::Unknown => summary.with_unknown_if(true),
        }
    }

    /// Whether the recorded answer is well-formed.
    pub open spec fn well_formed(self) -> bool {
        match self {
            Self::Class(_, answer) => answer.well_formed(),
            Self::Id(_, answer) => answer.well_formed(),
            Self::Attribute(_, answer) => answer.well_formed(),
            Self::Type(_, answer) => answer.well_formed(),
            Self::CustomState(_, answer) => answer.well_formed(),
            Self::Universal(answer) => answer.well_formed(),
            Self::State(_, answer) => answer.well_formed(),
            Self::Unrepresented(_) => true,
            Self::Unknown => true,
        }
    }
}

/// How a summary was built, by recordings and joins.
pub enum SummaryHistory {
    /// Nothing was recorded.
    Empty,
    /// One more recording.
    Recorded(Box<SummaryHistory>, SummaryRecording),
    /// Two summaries were joined.
    Joined(Box<SummaryHistory>, Box<SummaryHistory>),
}

impl SummaryHistory {
    /// The summary that was built.
    pub open spec fn summary(self) -> DependencySummaryView
        decreases self,
    {
        match self {
            Self::Empty => DependencySummaryView::none(),
            Self::Recorded(before, recording) => recording.record_in(before.summary()),
            Self::Joined(first, second) => first.summary().join(second.summary()),
        }
    }

    /// Whether all recorded answers are well-formed.
    pub open spec fn well_formed(self) -> bool
        decreases self,
    {
        match self {
            Self::Empty => true,
            Self::Recorded(before, recording) => before.well_formed() && recording.well_formed(),
            Self::Joined(first, second) => first.well_formed() && second.well_formed(),
        }
    }

    /// Whether a state that meets one of the bits was recorded with a
    /// dependency.
    pub open spec fn recorded_state(self, bits: u64) -> bool
        decreases self,
    {
        match self {
            Self::Empty => false,
            Self::Recorded(before, recording) => {
                ||| before.recorded_state(bits)
                ||| recording matches SummaryRecording::State(state, answer) && state.meets(bits)
                    && answer.has_any()
            },
            Self::Joined(first, second) => first.recorded_state(bits) || second.recorded_state(
                bits,
            ),
        }
    }
}

/// However a summary was built, it is well-formed.
pub proof fn lemma_built_summary_well_formed(history: SummaryHistory)
    requires
        history.well_formed(),
    ensures
        summary_well_formed(history.summary()),
    decreases history,
{
    match history {
        SummaryHistory::Empty => {
            lemma_empty_summary_well_formed();
        },
        SummaryHistory::Recorded(before, recording) => {
            lemma_built_summary_well_formed(*before);
            let summary = before.summary();
            let none = ElementState { bits: 0 };
            let nothing = Seq::<char>::empty();
            match recording {
                SummaryRecording::Class(key, answer) => {
                    lemma_summary_stays_well_formed(summary, key, none, answer);
                },
                SummaryRecording::Id(key, answer) => {
                    lemma_summary_stays_well_formed(summary, key, none, answer);
                },
                SummaryRecording::Attribute(key, answer) => {
                    lemma_summary_stays_well_formed(summary, key, none, answer);
                },
                SummaryRecording::Type(key, answer) => {
                    lemma_summary_stays_well_formed(summary, key, none, answer);
                },
                SummaryRecording::CustomState(key, answer) => {
                    lemma_summary_stays_well_formed(summary, key, none, answer);
                },
                SummaryRecording::Universal(answer) => {
                    lemma_summary_stays_well_formed(summary, nothing, none, answer);
                },
                SummaryRecording::State(state, answer) => {
                    lemma_summary_stays_well_formed(summary, nothing, state, answer);
                },
                SummaryRecording::Unrepresented(_) => {},
                SummaryRecording::Unknown => {},
            }
        },
        SummaryHistory::Joined(first, second) => {
            lemma_built_summary_well_formed(*first);
            lemma_built_summary_well_formed(*second);
            lemma_joined_summary_well_formed(first.summary(), second.summary());
        },
    }
}

proof fn lemma_empty_summary_well_formed()
    ensures
        summary_well_formed(DependencySummaryView::none()),
{
    assert(DependencyAnswer::none().well_formed());
}

/// Whatever answers a focus-within query also answers the focus query, however
/// the summary was built.
pub proof fn lemma_focus_answers_focus_within(history: SummaryHistory)
    requires
        history.well_formed(),
    ensures
        includes_answer(history.summary().focus, history.summary().focus_within),
        history.summary().focus_within.unknown ==> history.summary().focus.unknown,
    decreases history,
{
    match history {
        SummaryHistory::Empty => {},
        SummaryHistory::Recorded(before, recording) => {
            lemma_focus_answers_focus_within(*before);
            let summary = before.summary();
            if let SummaryRecording::State(state, answer) = recording {
                super::dependency_query::lemma_join_is_union(summary.focus, answer);
                super::dependency_query::lemma_join_is_union(summary.focus.join(answer), answer);
                super::dependency_query::lemma_join_is_union(summary.focus_within, answer);
                let after = history.summary();
                assert forall|kind: LightmountDependencyKind| #[trigger]
                    after.focus_within.kinds.contains(kind) implies after.focus.kinds.contains(
                    kind,
                ) by {
                    if summary.focus_within.kinds.contains(kind) {
                        assert(summary.focus.kinds.contains(kind));
                    }
                }
                assert forall|reason: LightmountDependencyFallbackReason| #[trigger]
                    after.focus_within.reasons.contains(reason) implies after.focus.reasons.contains(
                    reason,
                ) by {
                    if summary.focus_within.reasons.contains(reason) {
                        assert(summary.focus.reasons.contains(reason));
                    }
                }
            }
        },
        SummaryHistory::Joined(first, second) => {
            lemma_focus_answers_focus_within(*first);
            lemma_focus_answers_focus_within(*second);
            lemma_built_summary_well_formed(*second);
            let one = first.summary();
            let two = second.summary();
            super::dependency_query::lemma_join_is_union(one.focus, two.focus);
            super::dependency_query::lemma_join_is_union(one.focus_within, two.focus_within);
            let after = history.summary();
            assert forall|kind: LightmountDependencyKind| #[trigger]
                after.focus_within.kinds.contains(kind) implies after.focus.kinds.contains(kind) by {
                if one.focus_within.kinds.contains(kind) {
                    assert(one.focus.kinds.contains(kind));
                } else {
                    assert(two.focus_within.kinds.contains(kind));
                    assert(two.focus.kinds.contains(kind));
                }
            }
            assert forall|reason: LightmountDependencyFallbackReason| #[trigger]
                after.focus_within.reasons.contains(reason) implies after.focus.reasons.contains(
                reason,
            ) by {
                if one.focus_within.reasons.contains(reason) {
                    assert(one.focus.reasons.contains(reason));
                } else {
                    assert(two.focus_within.reasons.contains(reason));
                    assert(two.focus.reasons.contains(reason));
                }
            }
        },
    }
}

proof fn lemma_joined_has_any(answer: DependencyAnswer, other: DependencyAnswer)
    requires
        other.well_formed(),
    ensures
        answer.join(other).has_any() == (answer.has_any() || other.has_any()),
{
    let joined = answer.join(other);
    super::dependency_query::lemma_join_is_union(answer, other);
    if answer.kinds.len() > 0 {
        assert(answer.kinds.contains(answer.kinds[0]));
        assert(joined.kinds.contains(answer.kinds[0]));
    }
    if other.kinds.len() > 0 {
        assert(other.kinds.contains(other.kinds[0]));
        assert(joined.kinds.contains(other.kinds[0]));
    }
    if joined.kinds.len() > 0 {
        assert(joined.kinds.contains(joined.kinds[0]));
    }
    if answer.reasons.len() > 0 {
        assert(answer.reasons.contains(answer.reasons[0]));
        assert(joined.reasons.contains(answer.reasons[0]));
    }
    if other.reasons.len() > 0 {
        assert(other.reasons.contains(other.reasons[0]));
        assert(joined.reasons.contains(other.reasons[0]));
    }
    if joined.reasons.len() > 0 {
        assert(joined.reasons.contains(joined.reasons[0]));
    }
}

/// The focus, focus-within and target flags of a summary are those of the
/// recorded states, however the summary was built: each is set exactly where a
/// state of its kind was recorded with a dependency.
pub proof fn lemma_focus_flags_are_of_recorded_states(history: SummaryHistory)
    requires
        history.well_formed(),
    ensures
        history.summary().focus.has_any() == (history.recorded_state(FOCUS | FOCUSRING)
            || history.recorded_state(FOCUS_WITHIN)),
        history.summary().focus_within.has_any() == history.recorded_state(FOCUS_WITHIN),
        history.summary().target.has_any() == history.recorded_state(URLTARGET),
    decreases history,
{
    match history {
        SummaryHistory::Empty => {},
        SummaryHistory::Recorded(before, recording) => {
            lemma_focus_flags_are_of_recorded_states(*before);
            let summary = before.summary();
            if let SummaryRecording::State(state, answer) = recording {
                lemma_joined_has_any(summary.focus, answer);
                lemma_joined_has_any(summary.focus.join(answer), answer);
                lemma_joined_has_any(summary.focus_within, answer);
                lemma_joined_has_any(summary.target, answer);
                let focus = FOCUS | FOCUSRING;
                let within = FOCUS_WITHIN;
                let target = URLTARGET;
                assert(0u64 & focus == 0 && 0u64 & within == 0 && 0u64 & target == 0)
                    by (bit_vector);
            }
        },
        SummaryHistory::Joined(first, second) => {
            lemma_focus_flags_are_of_recorded_states(*first);
            lemma_focus_flags_are_of_recorded_states(*second);
            lemma_built_summary_well_formed(*second);
            let one = first.summary();
            let two = second.summary();
            lemma_joined_has_any(one.focus, two.focus);
            lemma_joined_has_any(one.focus_within, two.focus_within);
            lemma_joined_has_any(one.target, two.target);
        },
    }
}

} // verus!
