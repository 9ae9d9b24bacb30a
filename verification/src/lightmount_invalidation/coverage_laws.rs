//! Laws that tie summaries to the invalidation maps that they summarize.

use vstd::prelude::*;

use super::dependency::{
    Dependency, DependencyInvalidationKind, NormalDependencyInvalidationKind,
};
use super::dependency_query::{DependencyAnswer, LightmountDependencyKind};
use super::dependency_summary::DependencySummaryView;
use super::element_state::{ElementState, FOCUS, FOCUSRING, FOCUS_WITHIN, URLTARGET};
use super::invalidation_map::{
    AdditionalRelativeSelectorInvalidationMap, InvalidationMap, QuirksMode, SelectorMap,
    StateDependency,
};
use super::planner::{ContextReply, SourcePlanView};
use super::query::QueryShape;
use super::reasons::LightmountDependencyFallbackReason;
use super::request::LightmountSourceDependencyInvalidationRequest;
use super::sibling_summary::SiblingSummaryView;
use super::source_summary::SourceSummaryView;

verus! {

/// The answer that one dependency gives.
pub open spec fn answer_of_one(dependency: Dependency) -> DependencyAnswer {
    super::invalidation_map::with_dependency(DependencyAnswer::none(), dependency)
}

/// Every dependency is reported: as a kind, or as a reason for fallback.
pub proof fn lemma_dependency_is_reported(dependency: Dependency)
    ensures
        answer_of_one(dependency).has_any(),
{
    let kinds = super::invalidation_map::kinds_of(dependency);
    let reasons = super::invalidation_map::reasons_of(dependency);
    let own_kinds = super::invalidation_map::own_kinds(dependency);
    let own_reasons = super::invalidation_map::own_reasons(dependency);
    if own_kinds.len() > 0 {
        assert(kinds[0] == own_kinds[0]);
        super::ordered_set::lemma_extend_unique_contains(
            Seq::<LightmountDependencyKind>::empty(),
            kinds,
            kinds[0],
        );
        assert(kinds.contains(kinds[0]));
        assert(answer_of_one(dependency).kinds.contains(kinds[0]));
    } else {
        assert(own_reasons.len() > 0);
        assert(reasons[0] == own_reasons[0]);
        super::ordered_set::lemma_extend_unique_contains(
            Seq::<LightmountDependencyFallbackReason>::empty(),
            reasons,
            reasons[0],
        );
        assert(reasons.contains(reasons[0]));
        assert(answer_of_one(dependency).reasons.contains(reasons[0]));
    }
}

proof fn lemma_list_has_parts(dependencies: Seq<Dependency>, index: int)
    requires
        0 <= index < dependencies.len(),
    ensures
        forall|kind: LightmountDependencyKind| #[trigger]
            super::invalidation_map::kinds_of(dependencies[index]).contains(kind)
                ==> super::invalidation_map::kinds_of_list(dependencies).contains(kind),
        forall|reason: LightmountDependencyFallbackReason| #[trigger]
            super::invalidation_map::reasons_of(dependencies[index]).contains(reason)
                ==> super::invalidation_map::reasons_of_list(dependencies).contains(reason),
    decreases dependencies.len(),
{
    let rest = dependencies.drop_last();
    let last = dependencies.last();
    let kinds = super::invalidation_map::kinds_of_list(rest);
    let last_kinds = super::invalidation_map::kinds_of(last);
    let reasons = super::invalidation_map::reasons_of_list(rest);
    let last_reasons = super::invalidation_map::reasons_of(last);
    if index < rest.len() {
        assert(rest[index] == dependencies[index]);
        lemma_list_has_parts(rest, index);
        assert forall|kind: LightmountDependencyKind| #[trigger]
            super::invalidation_map::kinds_of(dependencies[index]).contains(kind) implies (kinds
            + last_kinds).contains(kind) by {
            assert((kinds + last_kinds)[kinds.index_of(kind)] == kind);
        }
        assert forall|reason: LightmountDependencyFallbackReason| #[trigger]
            super::invalidation_map::reasons_of(dependencies[index]).contains(reason) implies (
        reasons + last_reasons).contains(reason) by {
            assert((reasons + last_reasons)[reasons.index_of(reason)] == reason);
        }
    } else {
        assert forall|kind: LightmountDependencyKind| #[trigger]
            super::invalidation_map::kinds_of(dependencies[index]).contains(kind) implies (kinds
            + last_kinds).contains(kind) by {
            assert((kinds + last_kinds)[kinds.len() + last_kinds.index_of(kind)] == kind);
        }
        assert forall|reason: LightmountDependencyFallbackReason| #[trigger]
            super::invalidation_map::reasons_of(dependencies[index]).contains(reason) implies (
        reasons + last_reasons).contains(reason) by {
            assert((reasons + last_reasons)[reasons.len() + last_reasons.index_of(reason)]
                == reason);
        }
    }
}

/// The answer of a list has what each dependency of the list reports.
pub proof fn lemma_list_answer_covers(dependencies: Seq<Dependency>, index: int)
    requires
        0 <= index < dependencies.len(),
    ensures
        super::summary_laws::includes_answer(
            super::invalidation_map::answer_of(dependencies),
            answer_of_one(dependencies[index]),
        ),
{
    lemma_list_has_parts(dependencies, index);
    let one = dependencies[index];
    let no_kinds = Seq::<LightmountDependencyKind>::empty();
    let no_reasons = Seq::<LightmountDependencyFallbackReason>::empty();
    assert forall|kind: LightmountDependencyKind| #[trigger]
        answer_of_one(one).kinds.contains(kind) implies super::invalidation_map::answer_of(
        dependencies,
    ).kinds.contains(kind) by {
        super::ordered_set::lemma_extend_unique_contains(
            no_kinds,
            super::invalidation_map::kinds_of(one),
            kind,
        );
        super::ordered_set::lemma_extend_unique_contains(
            no_kinds,
            super::invalidation_map::kinds_of_list(dependencies),
            kind,
        );
    }
    assert forall|reason: LightmountDependencyFallbackReason| #[trigger]
        answer_of_one(one).reasons.contains(reason) implies super::invalidation_map::answer_of(
        dependencies,
    ).reasons.contains(reason) by {
        super::ordered_set::lemma_extend_unique_contains(
            no_reasons,
            super::invalidation_map::reasons_of(one),
            reason,
        );
        super::ordered_set::lemma_extend_unique_contains(
            no_reasons,
            super::invalidation_map::reasons_of_list(dependencies),
            reason,
        );
    }
}

proof fn lemma_named_list_is_noted(
    lists: Seq<(String, Vec<Dependency>)>,
    name: Seq<char>,
    index: int,
)
    requires
        0 <= index < lists.len(),
        lists[index].0@ == name,
    ensures
        super::summary_laws::includes_answer(
            super::dependency_summary::answer_for(
                super::dependency_summary::noted_all(
                    seq![],
                    super::invalidation_map::answers_by_name(lists),
                ),
                name,
            ),
            super::invalidation_map::answer_of(lists[index].1@),
        ),
    decreases lists.len(),
{
    let rest = lists.drop_last();
    let last = lists.last();
    let answers = super::invalidation_map::answers_by_name(lists);
    assert(answers.drop_last() =~= super::invalidation_map::answers_by_name(rest));
    let before = super::dependency_summary::noted_all(
        seq![],
        super::invalidation_map::answers_by_name(rest),
    );
    let answer = super::invalidation_map::answer_of(last.1@);
    assert(answers.last() == (last.0@, answer));
    super::summary_laws::lemma_lists_well_formed(rest);
    super::summary_laws::lemma_list_answer_well_formed(last.1@);
    super::summary_laws::lemma_entry_reads_back(before, last.0@, name, answer);
    super::dependency_query::lemma_join_is_union(
        super::dependency_summary::answer_for(before, name),
        answer,
    );
    if index < rest.len() {
        assert(rest[index] == lists[index]);
        lemma_named_list_is_noted(rest, name, index);
    }
}

/// The position of the list that a name is looked up in.
proof fn lemma_list_for_is_listed(
    lists: Seq<(String, Vec<Dependency>)>,
    name: Seq<char>,
) -> (index: int)
    requires
        super::invalidation_map::list_for(lists, name).len() > 0,
    ensures
        0 <= index < lists.len(),
        lists[index].0@ == name,
        super::invalidation_map::list_for(lists, name) == lists[index].1@,
    decreases lists.len(),
{
    if lists[0].0@ == name {
        0
    } else {
        let rest = lemma_list_for_is_listed(lists.drop_first(), name);
        assert(lists.drop_first()[rest] == lists[rest + 1]);
        rest + 1
    }
}

proof fn lemma_named_dependency_is_covered(
    lists: Seq<(String, Vec<Dependency>)>,
    name: Seq<char>,
    index: int,
)
    requires
        0 <= index < super::invalidation_map::list_for(lists, name).len(),
    ensures
        super::summary_laws::includes_answer(
            super::dependency_summary::answer_for(
                super::dependency_summary::noted_all(
                    seq![],
                    super::invalidation_map::answers_by_name(lists),
                ),
                name,
            ),
            answer_of_one(super::invalidation_map::list_for(lists, name)[index]),
        ),
{
    let place = lemma_list_for_is_listed(lists, name);
    lemma_named_list_is_noted(lists, name, place);
    lemma_list_answer_covers(lists[place].1@, index);
}

/// The position of an entry that a joined state answer has a kind from.
proof fn lemma_joined_kind_has_entry(
    states: Seq<(u64, DependencyAnswer)>,
    bits: u64,
    kind: LightmountDependencyKind,
) -> (index: int)
    requires
        super::summary_laws::answers_well_formed(states),
        super::dependency_summary::joined_states(states, bits).kinds.contains(kind),
    ensures
        0 <= index < states.len(),
        states[index].0 & bits != 0,
        states[index].1.kinds.contains(kind),
    decreases states.len(),
{
    let rest = states.drop_last();
    let before = super::dependency_summary::joined_states(rest, bits);
    let last = states.last();
    assert(states[states.len() - 1].1.well_formed());
    super::dependency_query::lemma_join_is_union(before, last.1);
    if last.0 & bits != 0 && last.1.kinds.contains(kind) {
        states.len() - 1
    } else {
        assert forall|i: int| 0 <= i < rest.len() implies (#[trigger]
        rest[i]).1.well_formed() by {
            assert(rest[i] == states[i]);
        }
        let index = lemma_joined_kind_has_entry(rest, bits, kind);
        assert(rest[index] == states[index]);
        index
    }
}

/// The position of an entry that a joined state answer has a reason from.
proof fn lemma_joined_reason_has_entry(
    states: Seq<(u64, DependencyAnswer)>,
    bits: u64,
    reason: LightmountDependencyFallbackReason,
) -> (index: int)
    requires
        super::summary_laws::answers_well_formed(states),
        super::dependency_summary::joined_states(states, bits).reasons.contains(reason),
    ensures
        0 <= index < states.len(),
        states[index].0 & bits != 0,
        states[index].1.reasons.contains(reason),
    decreases states.len(),
{
    let rest = states.drop_last();
    let before = super::dependency_summary::joined_states(rest, bits);
    let last = states.last();
    assert(states[states.len() - 1].1.well_formed());
    super::dependency_query::lemma_join_is_union(before, last.1);
    if last.0 & bits != 0 && last.1.reasons.contains(reason) {
        states.len() - 1
    } else {
        assert forall|i: int| 0 <= i < rest.len() implies (#[trigger]
        rest[i]).1.well_formed() by {
            assert(rest[i] == states[i]);
        }
        let index = lemma_joined_reason_has_entry(rest, bits, reason);
        assert(rest[index] == states[index]);
        index
    }
}

/// The position of an entry after another answer was noted.
proof fn lemma_noted_keeps_entry<K>(
    entries: Seq<(K, DependencyAnswer)>,
    key: K,
    answer: DependencyAnswer,
    index: int,
) -> (place: int)
    requires
        answer.well_formed(),
        0 <= index < entries.len(),
    ensures
        0 <= place < super::dependency_summary::noted(entries, key, answer).len(),
        super::dependency_summary::noted(entries, key, answer)[place].0 == entries[index].0,
        super::summary_laws::includes_answer(
            super::dependency_summary::noted(entries, key, answer)[place].1,
            entries[index].1,
        ),
    decreases entries.len(),
{
    if !answer.has_any() {
        index
    } else if entries[0].0 == key {
        super::dependency_query::lemma_join_is_union(entries[0].1, answer);
        index
    } else if index == 0 {
        0
    } else {
        let rest = entries.drop_first();
        assert(rest[index - 1] == entries[index]);
        let place = lemma_noted_keeps_entry(rest, key, answer, index - 1);
        assert(super::dependency_summary::noted(entries, key, answer)[place + 1]
            == super::dependency_summary::noted(rest, key, answer)[place]);
        place + 1
    }
}

/// Noting a state dependency keeps what a state query found before.
proof fn lemma_noted_state_keeps_answers(
    summary: DependencySummaryView,
    state: ElementState,
    answer: DependencyAnswer,
    query: ElementState,
)
    requires
        super::summary_laws::summary_well_formed(summary),
        answer.well_formed(),
    ensures
        super::summary_laws::includes_answer(
            summary.with_state(state, answer).state_answer(query),
            summary.state_answer(query),
        ),
{
    let after = summary.with_state(state, answer);
    if !state.spec_is_empty() {
        lemma_joined_states_grow(summary.states, state.bits, answer, query.bits);
        let unsupported = LightmountDependencyFallbackReason::UnsupportedStateDependency;
        let old_joined = super::dependency_summary::joined_states(summary.states, query.bits);
        let new_joined = super::dependency_summary::joined_states(after.states, query.bits);
        assert forall|reason: LightmountDependencyFallbackReason| #[trigger]
            summary.state_answer(query).reasons.contains(reason) implies after.state_answer(
            query,
        ).reasons.contains(reason) by {
            super::lists::lemma_contains_push(old_joined.reasons, unsupported, reason);
            super::lists::lemma_contains_push(new_joined.reasons, unsupported, reason);
        }
        assert forall|kind: LightmountDependencyKind| #[trigger]
            summary.state_answer(query).kinds.contains(kind) implies after.state_answer(
            query,
        ).kinds.contains(kind) by {
            assert(old_joined.kinds.contains(kind));
        }
    }
}

proof fn lemma_joined_states_grow(
    states: Seq<(u64, DependencyAnswer)>,
    state_bits: u64,
    answer: DependencyAnswer,
    bits: u64,
)
    requires
        super::dependency_summary::entries_well_formed(states),
        answer.well_formed(),
    ensures
        super::summary_laws::includes_answer(
            super::dependency_summary::joined_states(
                super::dependency_summary::noted(states, state_bits, answer),
                bits,
            ),
            super::dependency_summary::joined_states(states, bits),
        ),
{
    let after = super::dependency_summary::noted(states, state_bits, answer);
    let old_joined = super::dependency_summary::joined_states(states, bits);
    let new_joined = super::dependency_summary::joined_states(after, bits);
    super::dependency_summary::lemma_noted_well_formed(states, state_bits, answer);
    assert(super::summary_laws::answers_well_formed(states));
    assert(super::summary_laws::answers_well_formed(after));
    assert forall|kind: LightmountDependencyKind| #[trigger]
        old_joined.kinds.contains(kind) implies new_joined.kinds.contains(kind) by {
        let index = lemma_joined_kind_has_entry(states, bits, kind);
        let place = lemma_noted_keeps_entry(states, state_bits, answer, index);
        super::summary_laws::lemma_state_query_includes_entry(after, bits, place);
        assert(after[place].1.kinds.contains(kind));
    }
    assert forall|reason: LightmountDependencyFallbackReason| #[trigger]
        old_joined.reasons.contains(reason) implies new_joined.reasons.contains(reason) by {
        let index = lemma_joined_reason_has_entry(states, bits, reason);
        let place = lemma_noted_keeps_entry(states, state_bits, answer, index);
        super::summary_laws::lemma_state_query_includes_entry(after, bits, place);
        assert(after[place].1.reasons.contains(reason));
    }
}

/// A summary finds each state dependency that it was given under every state
/// that the dependency meets.
proof fn lemma_state_dependency_is_covered(
    summary: DependencySummaryView,
    dependencies: Seq<StateDependency>,
    query: ElementState,
    index: int,
)
    requires
        super::summary_laws::summary_well_formed(summary),
        0 <= index < dependencies.len(),
        dependencies[index].state.meets(query.bits),
    ensures
        super::summary_laws::includes_answer(
            super::invalidation_map::with_states(summary, dependencies).state_answer(query),
            answer_of_one(dependencies[index].dep),
        ),
    decreases dependencies.len(),
{
    let rest = dependencies.drop_last();
    let last = dependencies.last();
    let before = super::invalidation_map::with_states(summary, rest);
    super::summary_laws::lemma_with_states_well_formed(summary, rest);
    super::summary_laws::lemma_answers_of_dependencies_well_formed(Seq::empty(), last.dep);
    if index < rest.len() {
        assert(rest[index] == dependencies[index]);
        lemma_state_dependency_is_covered(summary, rest, query, index);
        lemma_noted_state_keeps_answers(before, last.state, answer_of_one(last.dep), query);
    } else {
        let bits = query.bits;
        assert(0u64 & bits == 0) by (bit_vector);
        super::summary_laws::lemma_recorded_state_is_found(
            before,
            last.state,
            answer_of_one(last.dep),
            query,
        );
    }
}

proof fn lemma_states_keep_the_rest(
    summary: DependencySummaryView,
    dependencies: Seq<StateDependency>,
)
    ensures
        ({
            let after = super::invalidation_map::with_states(summary, dependencies);
            &&& after.classes == summary.classes
            &&& after.ids == summary.ids
            &&& after.attributes == summary.attributes
            &&& after.types == summary.types
            &&& after.custom_states == summary.custom_states
            &&& after.universal == summary.universal
        }),
    decreases dependencies.len(),
{
    if dependencies.len() > 0 {
        lemma_states_keep_the_rest(summary, dependencies.drop_last());
    }
}

proof fn lemma_universal_is_covered(dependencies: Seq<Dependency>, index: int)
    requires
        0 <= index < dependencies.len(),
    ensures
        super::summary_laws::includes_answer(
            DependencyAnswer::none().join(super::invalidation_map::answer_of(dependencies)),
            answer_of_one(dependencies[index]),
        ),
{
    super::summary_laws::lemma_list_answer_well_formed(dependencies);
    super::dependency_query::lemma_join_none(super::invalidation_map::answer_of(dependencies));
    lemma_list_answer_covers(dependencies, index);
}

/// The entry of a list of state candidates that a dependency comes from.
proof fn lemma_meeting_candidate<'a>(
    candidates: Seq<&'a StateDependency>,
    state: ElementState,
    index: int,
) -> (place: int)
    requires
        0 <= index < super::invalidation_map::dependencies_meeting(candidates, state).len(),
    ensures
        0 <= place < candidates.len(),
        candidates[place].state.meets(state.bits),
        candidates[place].dep == super::invalidation_map::dependencies_meeting(
            candidates,
            state,
        )[index],
    decreases candidates.len(),
{
    let rest = candidates.drop_last();
    let before = super::invalidation_map::dependencies_meeting(rest, state);
    if index < before.len() {
        let place = lemma_meeting_candidate(rest, state, index);
        assert(rest[place] == candidates[place]);
        place
    } else {
        candidates.len() - 1
    }
}

/// Whether a query names its class or id in the form in which invalidation
/// maps list them.
pub open spec fn is_in_lookup_form(shape: QueryShape, quirks_mode: QuirksMode) -> bool {
    match shape {
        QueryShape::Class(token) => super::invalidation_map::lookup_name(token, quirks_mode)
            == token,
        QueryShape::Id(value) => super::invalidation_map::lookup_name(value, quirks_mode) == value,
        _ => true,
    }
}

/// A summary covers the invalidation map that it was made from: whatever
/// dependency a query finds in the map, the summary's answer to the query has
/// its kinds and reasons, and so is never empty.
pub proof fn lemma_summary_covers_map<'a>(
    map: InvalidationMap,
    source: SourceSummaryView,
    quirks_mode: QuirksMode,
    candidates: Seq<&'a StateDependency>,
    shape: QueryShape,
    index: int,
)
    requires
        source.summary == super::invalidation_map::summary_of_map(map),
        forall|i: int|
            0 <= i < candidates.len() ==> map.state_affecting_selectors.entries().contains(
                *#[trigger] candidates[i],
            ),
        is_in_lookup_form(shape, quirks_mode),
        0 <= index < super::invalidation_map::matching_dependencies(
            map,
            quirks_mode,
            candidates,
            shape,
        ).len(),
    ensures
        super::summary_laws::includes_answer(
            source.answer(shape),
            answer_of_one(
                super::invalidation_map::matching_dependencies(
                    map,
                    quirks_mode,
                    candidates,
                    shape,
                )[index],
            ),
        ),
        source.answer(shape).has_any(),
{
    let entries = map.state_affecting_selectors.entries();
    let found = super::invalidation_map::matching_dependencies(
        map,
        quirks_mode,
        candidates,
        shape,
    )[index];
    let keyed = super::invalidation_map::keyed_summary_of_map(map);
    super::summary_laws::lemma_keyed_summary_well_formed(map);
    lemma_states_keep_the_rest(keyed, entries);
    match shape {
        QueryShape::Universal => {
            lemma_universal_is_covered(map.any_to_selector@, index);
        },
        QueryShape::Type(name) => {
            lemma_named_dependency_is_covered(map.type_to_selector@, name, index);
        },
        QueryShape::Attribute(name) => {
            lemma_named_dependency_is_covered(
                map.other_attribute_affecting_selectors@,
                name,
                index,
            );
        },
        QueryShape::Class(token) => {
            lemma_named_dependency_is_covered(map.class_to_selector@, token, index);
        },
        QueryShape::Id(value) => {
            lemma_named_dependency_is_covered(map.id_to_selector@, value, index);
        },
        QueryShape::State(state) => {
            let place = lemma_meeting_candidate(candidates, state, index);
            let entry = *candidates[place];
            assert(entries.contains(entry));
            lemma_state_dependency_is_covered(keyed, entries, state, entries.index_of(entry));
        },
        QueryShape::CustomState(name) => {
            lemma_named_dependency_is_covered(
                map.custom_state_affecting_selectors@,
                name,
                index,
            );
        },
    }
    lemma_covering_answer_is_not_empty(source.answer(shape), found);
}

proof fn lemma_covering_answer_is_not_empty(answer: DependencyAnswer, dependency: Dependency)
    requires
        super::summary_laws::includes_answer(answer, answer_of_one(dependency)),
    ensures
        answer.has_any(),
{
    let one = answer_of_one(dependency);
    lemma_dependency_is_reported(dependency);
    super::summary_laws::lemma_answers_of_dependencies_well_formed(Seq::empty(), dependency);
    if one.kinds.len() > 0 {
        assert(one.kinds.contains(one.kinds[0]));
        assert(answer.kinds.contains(one.kinds[0]));
    } else {
        assert(one.reasons.len() > 0);
        assert(one.reasons.contains(one.reasons[0]));
        assert(answer.reasons.contains(one.reasons[0]));
    }
}

/// A summary covers the additional relative map that it was made from.
pub proof fn lemma_summary_covers_relative_map(
    map: AdditionalRelativeSelectorInvalidationMap,
    source: SourceSummaryView,
    shape: QueryShape,
    index: int,
)
    requires
        source.summary == super::invalidation_map::summary_of_relative_map(map),
        0 <= index < super::invalidation_map::matching_relative_dependencies(map, shape).len(),
    ensures
        super::summary_laws::includes_answer(
            source.answer(shape),
            answer_of_one(
                super::invalidation_map::matching_relative_dependencies(map, shape)[index],
            ),
        ),
        source.answer(shape).has_any(),
{
    match shape {
        QueryShape::Universal => {
            lemma_universal_is_covered(map.any_to_selector@, index);
        },
        QueryShape::Type(name) => {
            lemma_named_dependency_is_covered(map.type_to_selector@, name, index);
        },
        _ => {},
    }
    lemma_covering_answer_is_not_empty(
        source.answer(shape),
        super::invalidation_map::matching_relative_dependencies(map, shape)[index],
    );
}

/// A joined summary answers every query with what either summary answers.
pub proof fn lemma_joined_summary_covers_both(
    first: SourceSummaryView,
    second: SourceSummaryView,
    joined: SourceSummaryView,
    shape: QueryShape,
)
    requires
        super::summary_laws::summary_well_formed(first.summary),
        super::summary_laws::summary_well_formed(second.summary),
        joined.summary == first.summary.join(second.summary),
    ensures
        super::summary_laws::includes_answer(joined.answer(shape), first.answer(shape)),
        super::summary_laws::includes_answer(joined.answer(shape), second.answer(shape)),
{
    let one = first.summary;
    let two = second.summary;
    match shape {
        QueryShape::Universal => {
            super::dependency_query::lemma_join_is_union(one.universal, two.universal);
        },
        QueryShape::Type(name) => {
            lemma_joined_entries_cover_both(one.types, two.types, name);
        },
        QueryShape::Attribute(name) => {
            lemma_joined_entries_cover_both(one.attributes, two.attributes, name);
        },
        QueryShape::Class(token) => {
            lemma_joined_entries_cover_both(one.classes, two.classes, token);
        },
        QueryShape::Id(value) => {
            lemma_joined_entries_cover_both(one.ids, two.ids, value);
        },
        QueryShape::CustomState(name) => {
            lemma_joined_entries_cover_both(one.custom_states, two.custom_states, name);
        },
        QueryShape::State(state) => {
            lemma_joined_states_cover_both(one, two, state);
        },
    }
}

proof fn lemma_joined_entries_cover_both<K>(
    entries: Seq<(K, DependencyAnswer)>,
    more: Seq<(K, DependencyAnswer)>,
    key: K,
)
    requires
        super::dependency_summary::entries_well_formed(entries),
        super::dependency_summary::entries_well_formed(more),
    ensures
        ({
            let both = super::dependency_summary::answer_for(
                super::dependency_summary::noted_all(entries, more),
                key,
            );
            &&& super::summary_laws::includes_answer(
                both,
                super::dependency_summary::answer_for(entries, key),
            )
            &&& super::summary_laws::includes_answer(
                both,
                super::dependency_summary::answer_for(more, key),
            )
        }),
{
    super::summary_laws::lemma_joined_entries_read_back(entries, more, key);
    super::summary_laws::lemma_answer_for_well_formed(more, key);
    super::dependency_query::lemma_join_is_union(
        super::dependency_summary::answer_for(entries, key),
        super::dependency_summary::answer_for(more, key),
    );
}

proof fn lemma_noted_all_states_cover(
    states: Seq<(u64, DependencyAnswer)>,
    more: Seq<(u64, DependencyAnswer)>,
    bits: u64,
)
    requires
        super::dependency_summary::entries_well_formed(states),
        super::summary_laws::answers_well_formed(more),
    ensures
        ({
            let both = super::dependency_summary::joined_states(
                super::dependency_summary::noted_all(states, more),
                bits,
            );
            &&& super::summary_laws::includes_answer(
                both,
                super::dependency_summary::joined_states(states, bits),
            )
            &&& super::summary_laws::includes_answer(
                both,
                super::dependency_summary::joined_states(more, bits),
            )
        }),
    decreases more.len(),
{
    if more.len() > 0 {
        let rest = more.drop_last();
        let last = more.last();
        assert(more[more.len() - 1].1.well_formed());
        assert forall|i: int| 0 <= i < rest.len() implies (#[trigger]
        rest[i]).1.well_formed() by {
            assert(rest[i] == more[i]);
        }
        lemma_noted_all_states_cover(states, rest, bits);
        super::summary_laws::lemma_noted_all_well_formed(states, rest);
        let before = super::dependency_summary::noted_all(states, rest);
        let after = super::dependency_summary::noted(before, last.0, last.1);
        lemma_joined_states_grow(before, last.0, last.1, bits);
        super::dependency_query::lemma_join_is_union(
            super::dependency_summary::joined_states(rest, bits),
            last.1,
        );
        if last.0 & bits != 0 && last.1.has_any() {
            super::dependency_summary::lemma_noted_well_formed(before, last.0, last.1);
            let place = super::dependency_summary::lemma_noted_entry(before, last.0, last.1);
            assert(super::summary_laws::answers_well_formed(after));
            super::summary_laws::lemma_state_query_includes_entry(after, bits, place);
        }
    }
}

proof fn lemma_joined_states_cover_both(
    one: DependencySummaryView,
    two: DependencySummaryView,
    state: ElementState,
)
    requires
        super::summary_laws::summary_well_formed(one),
        super::summary_laws::summary_well_formed(two),
    ensures
        super::summary_laws::includes_answer(
            one.join(two).state_answer(state),
            one.state_answer(state),
        ),
        super::summary_laws::includes_answer(
            one.join(two).state_answer(state),
            two.state_answer(state),
        ),
{
    let bits = state.bits;
    let first_unknown = one.unknown_state_bits;
    let second_unknown = two.unknown_state_bits;
    assert(first_unknown & bits != 0 || second_unknown & bits != 0 ==> (first_unknown
        | second_unknown) & bits != 0) by (bit_vector);
    assert(super::summary_laws::answers_well_formed(two.states));
    lemma_noted_all_states_cover(one.states, two.states, bits);
    let unsupported = LightmountDependencyFallbackReason::UnsupportedStateDependency;
    let both = one.join(two);
    let joined = super::dependency_summary::joined_states(both.states, bits);
    let first_joined = super::dependency_summary::joined_states(one.states, bits);
    let second_joined = super::dependency_summary::joined_states(two.states, bits);
    assert forall|reason: LightmountDependencyFallbackReason|
        one.state_answer(state).reasons.contains(reason) || two.state_answer(
            state,
        ).reasons.contains(reason) implies #[trigger] both.state_answer(state).reasons.contains(
        reason,
    ) by {
        super::lists::lemma_contains_push(first_joined.reasons, unsupported, reason);
        super::lists::lemma_contains_push(second_joined.reasons, unsupported, reason);
        super::lists::lemma_contains_push(joined.reasons, unsupported, reason);
    }
    assert forall|reason: LightmountDependencyFallbackReason| #[trigger]
        one.state_answer(state).reasons.contains(reason) implies both.state_answer(
        state,
    ).reasons.contains(reason) by {}
    assert forall|reason: LightmountDependencyFallbackReason| #[trigger]
        two.state_answer(state).reasons.contains(reason) implies both.state_answer(
        state,
    ).reasons.contains(reason) by {}
}

proof fn lemma_sensitive_list_is_named(
    lists: Seq<(String, Vec<Dependency>)>,
    name: Seq<char>,
    index: int,
)
    requires
        0 <= index < lists.len(),
        lists[index].0@ == name,
        super::dependency::any_sibling_sensitive(lists[index].1@),
    ensures
        super::text::lists_text(super::invalidation_map::sensitive_names(lists), name),
    decreases lists.len(),
{
    let rest = lists.drop_last();
    let before = super::invalidation_map::sensitive_names(rest);
    let names = super::invalidation_map::sensitive_names(lists);
    if index < rest.len() {
        assert(rest[index] == lists[index]);
        lemma_sensitive_list_is_named(rest, name, index);
        let i = choose|i: int| 0 <= i < before.len() && (#[trigger] before[i])@ == name;
        assert(names[i]@ == name);
    } else {
        assert(names[before.len() as int]@ == name);
    }
}

proof fn lemma_sensitive_state_is_noted(
    summary: SiblingSummaryView,
    dependencies: Seq<StateDependency>,
    index: int,
)
    requires
        0 <= index < dependencies.len(),
        dependencies[index].dep.is_sibling_sensitive(),
    ensures
        ({
            let after = super::invalidation_map::with_sensitive_states(summary, dependencies);
            after.focus || after.target || after.unknown
        }),
    decreases dependencies.len(),
{
    let rest = dependencies.drop_last();
    if index < rest.len() {
        assert(rest[index] == dependencies[index]);
        lemma_sensitive_state_is_noted(summary, rest, index);
    }
}

proof fn lemma_sensitive_states_keep_the_rest(
    summary: SiblingSummaryView,
    dependencies: Seq<StateDependency>,
)
    ensures
        ({
            let after = super::invalidation_map::with_sensitive_states(summary, dependencies);
            &&& after.classes == summary.classes
            &&& after.ids == summary.ids
            &&& after.attributes == summary.attributes
            &&& summary.unknown ==> after.unknown
        }),
    decreases dependencies.len(),
{
    if dependencies.len() > 0 {
        lemma_sensitive_states_keep_the_rest(summary, dependencies.drop_last());
    }
}

/// A sibling summary covers the invalidation map that it was made from: a
/// sibling-sensitive dependency that a query finds is listed under its key, or
/// counts under focus, target or as unknown.
pub proof fn lemma_sibling_summary_covers_map<'a>(
    map: InvalidationMap,
    quirks_mode: QuirksMode,
    candidates: Seq<&'a StateDependency>,
    shape: QueryShape,
    index: int,
)
    requires
        forall|i: int|
            0 <= i < candidates.len() ==> map.state_affecting_selectors.entries().contains(
                *#[trigger] candidates[i],
            ),
        is_in_lookup_form(shape, quirks_mode),
        0 <= index < super::invalidation_map::matching_dependencies(
            map,
            quirks_mode,
            candidates,
            shape,
        ).len(),
        super::invalidation_map::matching_dependencies(
            map,
            quirks_mode,
            candidates,
            shape,
        )[index].is_sibling_sensitive(),
    ensures
        ({
            let summary = super::invalidation_map::sibling_summary_of_map(map);
            &&& summary.has_any()
            &&& match shape {
                QueryShape::Class(token) => super::text::lists_text(summary.classes, token),
                QueryShape::Id(value) => super::text::lists_text(summary.ids, value),
                QueryShape::Attribute(name) => super::text::lists_text(summary.attributes, name),
                QueryShape::State(_) => summary.focus || summary.target || summary.unknown,
                _ => summary.unknown,
            }
        }),
{
    let entries = map.state_affecting_selectors.entries();
    let keyed = super::invalidation_map::keyed_sibling_summary_of_map(map);
    let summary = super::invalidation_map::sibling_summary_of_map(map);
    lemma_sensitive_states_keep_the_rest(keyed, entries);
    match shape {
        QueryShape::Universal => {
            assert(map.any_to_selector@[index].is_sibling_sensitive());
        },
        QueryShape::Type(name) => {
            let place = lemma_list_for_is_listed(map.type_to_selector@, name);
            let list = map.type_to_selector@[place].1@;
            assert(list[index].is_sibling_sensitive());
        },
        QueryShape::CustomState(name) => {
            let lists = map.custom_state_affecting_selectors@;
            let place = lemma_list_for_is_listed(lists, name);
            assert(lists[place].1@[index].is_sibling_sensitive());
        },
        QueryShape::Class(token) => {
            let place = lemma_list_for_is_listed(map.class_to_selector@, token);
            assert(map.class_to_selector@[place].1@[index].is_sibling_sensitive());
            lemma_sensitive_list_is_named(map.class_to_selector@, token, place);
        },
        QueryShape::Id(value) => {
            let place = lemma_list_for_is_listed(map.id_to_selector@, value);
            assert(map.id_to_selector@[place].1@[index].is_sibling_sensitive());
            lemma_sensitive_list_is_named(map.id_to_selector@, value, place);
        },
        QueryShape::Attribute(name) => {
            let lists = map.other_attribute_affecting_selectors@;
            let place = lemma_list_for_is_listed(lists, name);
            assert(lists[place].1@[index].is_sibling_sensitive());
            lemma_sensitive_list_is_named(lists, name, place);
        },
        QueryShape::State(state) => {
            let place = lemma_meeting_candidate(candidates, state, index);
            let entry = *candidates[place];
            assert(entries.contains(entry));
            lemma_sensitive_state_is_noted(keyed, entries, entries.index_of(entry));
        },
    }
}

/// Whether some list has a name.
spec fn has_list(lists: Seq<(String, Vec<Dependency>)>, name: Seq<char>) -> bool {
    exists|i: int| 0 <= i < lists.len() && (#[trigger] lists[i]).0@ == name
}

proof fn lemma_list_for_last(
    lists: Seq<(String, Vec<Dependency>)>,
    last: (String, Vec<Dependency>),
    name: Seq<char>,
)
    ensures
        super::invalidation_map::list_for(lists.push(last), name) == if has_list(lists, name) {
            super::invalidation_map::list_for(lists, name)
        } else if last.0@ == name {
            last.1@
        } else {
            Seq::empty()
        },
        !has_list(lists, name) ==> super::invalidation_map::list_for(lists, name)
            == Seq::<Dependency>::empty(),
    decreases lists.len(),
{
    let all = lists.push(last);
    if lists.len() == 0 {
        assert(all.drop_first() =~= Seq::empty());
        assert(super::invalidation_map::list_for(all.drop_first(), name)
            =~= Seq::<Dependency>::empty());
    } else {
        let rest = lists.drop_first();
        assert(all.drop_first() =~= rest.push(last));
        lemma_list_for_last(rest, last, name);
        if has_list(rest, name) {
            let i = choose|i: int| 0 <= i < rest.len() && (#[trigger] rest[i]).0@ == name;
            assert(lists[i + 1].0@ == name);
        }
        if has_list(lists, name) && lists[0].0@ != name {
            let i = choose|i: int| 0 <= i < lists.len() && (#[trigger] lists[i]).0@ == name;
            assert(rest[i - 1].0@ == name);
        }
        if lists[0].0@ == name {
            assert(has_list(lists, name));
        }
    }
}

/// What is left of lists whose names occur once, and that its last name is not
/// among the others.
proof fn lemma_names_of_rest(lists: Seq<(String, Vec<Dependency>)>)
    requires
        lists.len() > 0,
        super::invalidation_map::names_occur_once(lists),
    ensures
        super::invalidation_map::names_occur_once(lists.drop_last()),
        !has_list(lists.drop_last(), lists.last().0@),
        lists.drop_last().push(lists.last()) == lists,
{
    let rest = lists.drop_last();
    assert(rest.push(lists.last()) =~= lists);
    assert forall|i: int, j: int| 0 <= i < j < rest.len() implies (#[trigger] rest[i]).0@ != (
    #[trigger] rest[j]).0@ by {
        assert(rest[i] == lists[i] && rest[j] == lists[j]);
    }
    if has_list(rest, lists.last().0@) {
        let i = choose|i: int| 0 <= i < rest.len() && (#[trigger] rest[i]).0@ == lists.last().0@;
        assert(lists[i].0@ != lists[lists.len() - 1].0@);
    }
}

proof fn lemma_named_answer_is_exact(lists: Seq<(String, Vec<Dependency>)>, name: Seq<char>)
    requires
        super::invalidation_map::names_occur_once(lists),
    ensures
        super::dependency_summary::answer_for(
            super::dependency_summary::noted_all(
                seq![],
                super::invalidation_map::answers_by_name(lists),
            ),
            name,
        ) == super::invalidation_map::answer_of(super::invalidation_map::list_for(lists, name)),
    decreases lists.len(),
{
    let answers = super::invalidation_map::answers_by_name(lists);
    let nothing = super::invalidation_map::answer_of(Seq::<Dependency>::empty());
    assert(nothing.kinds =~= DependencyAnswer::none().kinds);
    assert(nothing.reasons =~= DependencyAnswer::none().reasons);
    assert(nothing == DependencyAnswer::none());
    if lists.len() == 0 {
        assert(answers =~= seq![]);
        assert(super::invalidation_map::list_for(lists, name) =~= Seq::<Dependency>::empty());
    } else {
        let rest = lists.drop_last();
        let last = lists.last();
        let answer = super::invalidation_map::answer_of(last.1@);
        let before = super::dependency_summary::noted_all(
            seq![],
            super::invalidation_map::answers_by_name(rest),
        );
        lemma_names_of_rest(lists);
        lemma_named_answer_is_exact(rest, name);
        lemma_list_for_last(rest, last, name);
        assert(answers.drop_last() =~= super::invalidation_map::answers_by_name(rest));
        assert(answers.last() == (last.0@, answer));
        super::summary_laws::lemma_lists_well_formed(rest);
        super::summary_laws::lemma_list_answer_well_formed(last.1@);
        super::summary_laws::lemma_entry_reads_back(before, last.0@, name, answer);
        super::dependency_query::lemma_join_none(answer);
    }
}

/// For a valid invalidation map the answers of its summary are exact: a query
/// for a key is answered with the kinds and reasons of the dependencies that it
/// finds in the map, and with no others.
pub proof fn lemma_summary_of_valid_map_is_exact<'a>(
    map: InvalidationMap,
    source: SourceSummaryView,
    quirks_mode: QuirksMode,
    candidates: Seq<&'a StateDependency>,
    shape: QueryShape,
)
    requires
        map.is_valid(),
        source.summary == super::invalidation_map::summary_of_map(map),
        is_in_lookup_form(shape, quirks_mode),
        !(shape is State),
    ensures
        source.answer(shape) == super::invalidation_map::answer_of(
            super::invalidation_map::matching_dependencies(map, quirks_mode, candidates, shape),
        ),
{
    let keyed = super::invalidation_map::keyed_summary_of_map(map);
    lemma_states_keep_the_rest(keyed, map.state_affecting_selectors.entries());
    match shape {
        QueryShape::Universal => {
            super::summary_laws::lemma_list_answer_well_formed(map.any_to_selector@);
            super::dependency_query::lemma_join_none(
                super::invalidation_map::answer_of(map.any_to_selector@),
            );
        },
        QueryShape::Type(name) => {
            lemma_named_answer_is_exact(map.type_to_selector@, name);
        },
        QueryShape::Attribute(name) => {
            lemma_named_answer_is_exact(map.other_attribute_affecting_selectors@, name);
        },
        QueryShape::Class(token) => {
            lemma_named_answer_is_exact(map.class_to_selector@, token);
        },
        QueryShape::Id(value) => {
            lemma_named_answer_is_exact(map.id_to_selector@, value);
        },
        QueryShape::CustomState(name) => {
            lemma_named_answer_is_exact(map.custom_state_affecting_selectors@, name);
        },
        QueryShape::State(_) => {},
    }
}

/// For a valid additional relative map the answers of its summary are exact.
pub proof fn lemma_summary_of_valid_relative_map_is_exact(
    map: AdditionalRelativeSelectorInvalidationMap,
    source: SourceSummaryView,
    shape: QueryShape,
)
    requires
        map.is_valid(),
        source.summary == super::invalidation_map::summary_of_relative_map(map),
    ensures
        source.answer(shape) == super::invalidation_map::answer_of(
            super::invalidation_map::matching_relative_dependencies(map, shape),
        ),
{
    let nothing = super::invalidation_map::answer_of(Seq::<Dependency>::empty());
    assert(nothing.kinds =~= DependencyAnswer::none().kinds);
    assert(nothing.reasons =~= DependencyAnswer::none().reasons);
    match shape {
        QueryShape::Universal => {
            super::summary_laws::lemma_list_answer_well_formed(map.any_to_selector@);
            super::dependency_query::lemma_join_none(
                super::invalidation_map::answer_of(map.any_to_selector@),
            );
        },
        QueryShape::Type(name) => {
            lemma_named_answer_is_exact(map.type_to_selector@, name);
        },
        QueryShape::State(state) => {
            let bits = state.bits;
            assert(0u64 & bits == 0) by (bit_vector);
        },
        _ => {},
    }
}

proof fn lemma_sensitive_names_are_exact(lists: Seq<(String, Vec<Dependency>)>, name: Seq<char>)
    requires
        super::invalidation_map::names_occur_once(lists),
    ensures
        super::text::lists_text(super::invalidation_map::sensitive_names(lists), name)
            == super::dependency::any_sibling_sensitive(
            super::invalidation_map::list_for(lists, name),
        ),
    decreases lists.len(),
{
    let names = super::invalidation_map::sensitive_names(lists);
    if lists.len() > 0 {
        let rest = lists.drop_last();
        let last = lists.last();
        let before = super::invalidation_map::sensitive_names(rest);
        lemma_names_of_rest(lists);
        lemma_sensitive_names_are_exact(rest, name);
        lemma_list_for_last(rest, last, name);
        if super::text::lists_text(before, name) {
            let i = choose|i: int| 0 <= i < before.len() && (#[trigger] before[i])@ == name;
            assert(names[i]@ == name);
        }
        if super::text::lists_text(names, name) && !super::text::lists_text(before, name) {
            let i = choose|i: int| 0 <= i < names.len() && (#[trigger] names[i])@ == name;
            if i < before.len() {
                assert(before[i]@ == name);
            }
        }
        if last.0@ == name && super::dependency::any_sibling_sensitive(last.1@) {
            assert(names[before.len() as int]@ == name);
        }
    }
}

/// For a valid invalidation map the keys of its sibling summary are exact: a
/// class, id or attribute is listed exactly where a query for it finds a
/// sibling-sensitive dependency in the map.
pub proof fn lemma_sibling_summary_of_valid_map_is_exact(map: InvalidationMap, name: Seq<char>)
    requires
        map.is_valid(),
    ensures
        ({
            let summary = super::invalidation_map::sibling_summary_of_map(map);
            &&& super::text::lists_text(summary.classes, name)
                == super::dependency::any_sibling_sensitive(
                super::invalidation_map::list_for(map.class_to_selector@, name),
            )
            &&& super::text::lists_text(summary.ids, name)
                == super::dependency::any_sibling_sensitive(
                super::invalidation_map::list_for(map.id_to_selector@, name),
            )
            &&& super::text::lists_text(summary.attributes, name)
                == super::dependency::any_sibling_sensitive(
                super::invalidation_map::list_for(map.other_attribute_affecting_selectors@, name),
            )
        }),
{
    lemma_sensitive_states_keep_the_rest(
        super::invalidation_map::keyed_sibling_summary_of_map(map),
        map.state_affecting_selectors.entries(),
    );
    lemma_sensitive_names_are_exact(map.class_to_selector@, name);
    lemma_sensitive_names_are_exact(map.id_to_selector@, name);
    lemma_sensitive_names_are_exact(map.other_attribute_affecting_selectors@, name);
}

/// A source is planned for whenever an ungated request finds a dependency in its
/// invalidation map, whatever the context-roots provider replies.
pub proof fn lemma_found_dependency_is_planned<'a, 'b, Root: Copy>(
    map: InvalidationMap,
    source: SourceSummaryView,
    quirks_mode: QuirksMode,
    candidates: Seq<&'a StateDependency>,
    selected: Seq<Root>,
    requests: Seq<LightmountSourceDependencyInvalidationRequest<'b, Root>>,
    index: int,
    replies: Seq<ContextReply<Root>>,
)
    requires
        source.summary == super::invalidation_map::summary_of_map(map),
        forall|i: int|
            0 <= i < candidates.len() ==> map.state_affecting_selectors.entries().contains(
                *#[trigger] candidates[i],
            ),
        0 <= index < requests.len(),
        !requests[index].requirement.requires_child_list_structural_dependency,
        !requests[index].requirement.requires_relative_previous_sibling_dependency,
        is_in_lookup_form(requests[index].query@.shape, quirks_mode),
        super::invalidation_map::matching_dependencies(
            map,
            quirks_mode,
            candidates,
            requests[index].query@.shape,
        ).len() > 0,
    ensures
        super::planner::decide_all(source, selected, requests, replies).plan(selected) != (
        SourcePlanView::<Root>::Work { target: None }),
{
    lemma_summary_covers_map(
        map,
        source,
        quirks_mode,
        candidates,
        requests[index].query@.shape,
        0,
    );
    assert(!super::planner::request_is_skipped(source, requests[index]));
    super::planner_laws::lemma_affected_source_is_planned(source, selected, requests, replies);
}

proof fn lemma_one_reports(
    dependency: Dependency,
    kind: LightmountDependencyKind,
    reason: LightmountDependencyFallbackReason,
)
    ensures
        answer_of_one(dependency).kinds.contains(kind) == super::dependency_laws::reaches_kind(
            dependency,
            kind,
        ),
        answer_of_one(dependency).reasons.contains(reason)
            == super::dependency_laws::reaches_reason(dependency, reason),
{
    super::dependency_laws::lemma_dependency_reports_its_kinds(dependency, kind, reason);
    super::ordered_set::lemma_extend_unique_contains(
        Seq::<LightmountDependencyKind>::empty(),
        super::invalidation_map::kinds_of(dependency),
        kind,
    );
    super::ordered_set::lemma_extend_unique_contains(
        Seq::<LightmountDependencyFallbackReason>::empty(),
        super::invalidation_map::reasons_of(dependency),
        reason,
    );
}

/// The summary of a map tells where the dependencies that a query finds in it
/// apply: each kind of a found dependency, and of what follows from it, is among
/// the kinds of the answer under its own name, and its reasons are among the
/// reasons.
pub proof fn lemma_found_kinds_are_answered<'a>(
    map: InvalidationMap,
    source: SourceSummaryView,
    quirks_mode: QuirksMode,
    candidates: Seq<&'a StateDependency>,
    shape: QueryShape,
    index: int,
    kind: LightmountDependencyKind,
    reason: LightmountDependencyFallbackReason,
)
    requires
        source.summary == super::invalidation_map::summary_of_map(map),
        forall|i: int|
            0 <= i < candidates.len() ==> map.state_affecting_selectors.entries().contains(
                *#[trigger] candidates[i],
            ),
        is_in_lookup_form(shape, quirks_mode),
        0 <= index < super::invalidation_map::matching_dependencies(
            map,
            quirks_mode,
            candidates,
            shape,
        ).len(),
    ensures
        ({
            let found = super::invalidation_map::matching_dependencies(
                map,
                quirks_mode,
                candidates,
                shape,
            )[index];
            let answer = source.answer(shape);
            &&& super::dependency_laws::is_reported_as(found.kind, kind) ==> answer.kinds.contains(
                kind,
            )
            &&& super::dependency_laws::reaches_kind(found, kind) ==> answer.kinds.contains(kind)
            &&& super::dependency_laws::reaches_reason(found, reason) ==> answer.reasons.contains(
                reason,
            )
            &&& found.kind is FullSelector ==> answer.reasons.contains(
                LightmountDependencyFallbackReason::FullSelector,
            )
            &&& found.kind == DependencyInvalidationKind::Normal(
                NormalDependencyInvalidationKind::Siblings,
            ) ==> answer.affects_siblings()
            &&& found.kind == DependencyInvalidationKind::Normal(
                NormalDependencyInvalidationKind::SlottedElements,
            ) ==> answer.affects_slotted()
            &&& found.kind is Relative ==> answer.affects_relative_anchors()
        }),
{
    let found = super::invalidation_map::matching_dependencies(
        map,
        quirks_mode,
        candidates,
        shape,
    )[index];
    let full = LightmountDependencyFallbackReason::FullSelector;
    lemma_summary_covers_map(map, source, quirks_mode, candidates, shape, index);
    lemma_one_reports(found, kind, reason);
    lemma_one_reports(found, LightmountDependencyKind::Siblings, full);
    lemma_one_reports(found, LightmountDependencyKind::SlottedElements, full);
    lemma_one_reports(found, LightmountDependencyKind::RelativeAncestors, full);
    lemma_one_reports(found, LightmountDependencyKind::RelativeParent, full);
    lemma_one_reports(found, LightmountDependencyKind::RelativePrevSibling, full);
    lemma_one_reports(found, LightmountDependencyKind::RelativeEarlierSibling, full);
    lemma_one_reports(found, LightmountDependencyKind::RelativeAncestorPrevSibling, full);
    lemma_one_reports(found, LightmountDependencyKind::RelativeAncestorEarlierSibling, full);
}

proof fn lemma_list_for_named(
    lists: Seq<(String, Vec<Dependency>)>,
    name: Seq<char>,
    index: int,
)
    requires
        super::invalidation_map::names_occur_once(lists),
        0 <= index < lists.len(),
        lists[index].0@ == name,
    ensures
        super::invalidation_map::list_for(lists, name) == lists[index].1@,
    decreases lists.len(),
{
    if index > 0 {
        let rest = lists.drop_first();
        assert(lists[0].0@ != lists[index].0@);
        assert(rest[index - 1] == lists[index]);
        assert forall|i: int, j: int| 0 <= i < j < rest.len() implies (#[trigger] rest[i]).0@ != (
        #[trigger] rest[j]).0@ by {
            assert(rest[i] == lists[i + 1] && rest[j] == lists[j + 1]);
        }
        lemma_list_for_named(rest, name, index - 1);
    }
}

/// A query finds, in a valid map, the list that stands under its key among the
/// keys of its sort, and nothing where none does. In quirks mode a class or an
/// id is looked for in lower case.
pub proof fn lemma_query_finds_the_list_of_its_key<'a>(
    map: InvalidationMap,
    quirks_mode: QuirksMode,
    candidates: Seq<&'a StateDependency>,
    shape: QueryShape,
    index: int,
)
    requires
        map.is_valid(),
    ensures
        ({
            let found = super::invalidation_map::matching_dependencies(
                map,
                quirks_mode,
                candidates,
                shape,
            );
            &&& shape is Universal ==> found == map.any_to_selector@
            &&& shape matches QueryShape::Type(name) ==> stands_under(
                map.type_to_selector@,
                name,
                index,
                found,
            )
            &&& shape matches QueryShape::Attribute(name) ==> stands_under(
                map.other_attribute_affecting_selectors@,
                name,
                index,
                found,
            )
            &&& shape matches QueryShape::CustomState(name) ==> stands_under(
                map.custom_state_affecting_selectors@,
                name,
                index,
                found,
            )
            &&& shape matches QueryShape::Class(token) ==> stands_under(
                map.class_to_selector@,
                if quirks_mode is Quirks {
                    super::text::ascii_lower(token)
                } else {
                    token
                },
                index,
                found,
            )
            &&& shape matches QueryShape::Id(value) ==> stands_under(
                map.id_to_selector@,
                if quirks_mode is Quirks {
                    super::text::ascii_lower(value)
                } else {
                    value
                },
                index,
                found,
            )
        }),
{
    match shape {
        QueryShape::Type(name) => {
            lemma_stands_under(map.type_to_selector@, name, index);
        },
        QueryShape::Attribute(name) => {
            lemma_stands_under(map.other_attribute_affecting_selectors@, name, index);
        },
        QueryShape::CustomState(name) => {
            lemma_stands_under(map.custom_state_affecting_selectors@, name, index);
        },
        QueryShape::Class(token) => {
            lemma_stands_under(map.class_to_selector@, token, index);
            lemma_stands_under(map.class_to_selector@, super::text::ascii_lower(token), index);
        },
        QueryShape::Id(value) => {
            lemma_stands_under(map.id_to_selector@, value, index);
            lemma_stands_under(map.id_to_selector@, super::text::ascii_lower(value), index);
        },
        _ => {},
    }
}

/// Whether the list at a place is what was found, where it has the name, and
/// nothing was found where no list has it.
pub open spec fn stands_under(
    lists: Seq<(String, Vec<Dependency>)>,
    name: Seq<char>,
    index: int,
    found: Seq<Dependency>,
) -> bool {
    &&& 0 <= index < lists.len() && lists[index].0@ == name ==> found == lists[index].1@
    &&& (forall|i: int| 0 <= i < lists.len() ==> (#[trigger] lists[i]).0@ != name) ==> found.len()
        == 0
}

proof fn lemma_stands_under(
    lists: Seq<(String, Vec<Dependency>)>,
    name: Seq<char>,
    index: int,
)
    requires
        super::invalidation_map::names_occur_once(lists),
    ensures
        stands_under(lists, name, index, super::invalidation_map::list_for(lists, name)),
{
    if 0 <= index < lists.len() && lists[index].0@ == name {
        lemma_list_for_named(lists, name, index);
    }
    if super::invalidation_map::list_for(lists, name).len() > 0 {
        let place = lemma_list_for_is_listed(lists, name);
        assert(lists[place].0@ == name);
    }
}

/// A state query finds the dependencies of the candidates that share a flag
/// with it, in their order, and no others.
pub proof fn lemma_state_query_finds_meeting_candidates<'a>(
    map: InvalidationMap,
    quirks_mode: QuirksMode,
    candidates: Seq<&'a StateDependency>,
    more: &'a StateDependency,
    state: ElementState,
)
    ensures
        ({
            let found = super::invalidation_map::matching_dependencies(
                map,
                quirks_mode,
                candidates,
                QueryShape::State(state),
            );
            let after = super::invalidation_map::matching_dependencies(
                map,
                quirks_mode,
                candidates.push(more),
                QueryShape::State(state),
            );
            &&& more.state.bits & state.bits != 0 ==> after == found.push(more.dep)
            &&& more.state.bits & state.bits == 0 ==> after == found
            &&& super::invalidation_map::matching_dependencies(
                map,
                quirks_mode,
                Seq::<&'a StateDependency>::empty(),
                QueryShape::State(state),
            ).len() == 0
        }),
{
    assert(candidates.push(more).drop_last() =~= candidates);
}

/// An additional relative map answers universal queries and queries for a local
/// name, and no others.
pub proof fn lemma_relative_map_finds_types_and_any(
    map: AdditionalRelativeSelectorInvalidationMap,
    shape: QueryShape,
    index: int,
)
    requires
        map.is_valid(),
    ensures
        ({
            let found = super::invalidation_map::matching_relative_dependencies(map, shape);
            &&& shape is Universal ==> found == map.any_to_selector@
            &&& shape matches QueryShape::Type(name) ==> stands_under(
                map.type_to_selector@,
                name,
                index,
                found,
            )
            &&& !(shape is Universal) && !(shape is Type) ==> found.len() == 0
        }),
{
    if let QueryShape::Type(name) = shape {
        lemma_stands_under(map.type_to_selector@, name, index);
    }
}

/// A summary knows of a dependency without a key exactly where the map has an
/// unkeyed sibling dependency or a dependency on no state; one of an additional
/// relative map where ancestors have to be traversed or tree-structural state
/// matters.
pub proof fn lemma_unknown_dependencies_of_maps(
    map: InvalidationMap,
    relative_map: AdditionalRelativeSelectorInvalidationMap,
)
    ensures
        super::invalidation_map::summary_of_map(map).unknown <==> map.unkeyed_sibling_dependency
            || exists|i: int|
            0 <= i < map.state_affecting_selectors.entries().len() && (
            #[trigger] map.state_affecting_selectors.entries()[i]).state.bits == 0,
        super::invalidation_map::summary_of_relative_map(relative_map).unknown
            <==> relative_map.needs_ancestors_traversal
            || relative_map.ts_state_to_selector.entries().len() > 0,
        super::invalidation_map::summary_of_map(map).unknown_state_bits == 0,
        super::invalidation_map::summary_of_relative_map(relative_map).unknown_state_bits == 0,
{
    lemma_unknown_after_states(
        super::invalidation_map::keyed_summary_of_map(map),
        map.state_affecting_selectors.entries(),
    );
}

proof fn lemma_unknown_after_states(
    summary: DependencySummaryView,
    dependencies: Seq<StateDependency>,
)
    ensures
        ({
            let after = super::invalidation_map::with_states(summary, dependencies);
            &&& after.unknown <==> summary.unknown || exists|i: int|
                0 <= i < dependencies.len() && (#[trigger] dependencies[i]).state.bits == 0
            &&& after.unknown_state_bits == summary.unknown_state_bits
        }),
    decreases dependencies.len(),
{
    if dependencies.len() > 0 {
        let rest = dependencies.drop_last();
        lemma_unknown_after_states(summary, rest);
        if exists|i: int| 0 <= i < rest.len() && (#[trigger] rest[i]).state.bits == 0 {
            let i = choose|i: int| 0 <= i < rest.len() && (#[trigger] rest[i]).state.bits == 0;
            assert(dependencies[i].state.bits == 0);
        }
        if exists|i: int|
            0 <= i < dependencies.len() && (#[trigger] dependencies[i]).state.bits == 0 {
            let i = choose|i: int|
                0 <= i < dependencies.len() && (#[trigger] dependencies[i]).state.bits == 0;
            if i < rest.len() {
                assert(rest[i].state.bits == 0);
            }
        }
        if dependencies.last().state.bits == 0 {
            assert(dependencies[dependencies.len() - 1].state.bits == 0);
        }
    }
}

/// Whether some sibling-sensitive dependency is on a state that `chosen` picks.
pub open spec fn some_sensitive_state(
    dependencies: Seq<StateDependency>,
    chosen: spec_fn(u64) -> bool,
) -> bool {
    exists|i: int|
        0 <= i < dependencies.len() && (#[trigger] dependencies[i]).dep.is_sibling_sensitive()
            && chosen(dependencies[i].state.bits)
}

proof fn lemma_some_sensitive_state_last(
    dependencies: Seq<StateDependency>,
    chosen: spec_fn(u64) -> bool,
)
    requires
        dependencies.len() > 0,
    ensures
        some_sensitive_state(dependencies, chosen) <==> some_sensitive_state(
            dependencies.drop_last(),
            chosen,
        ) || dependencies.last().dep.is_sibling_sensitive() && chosen(
            dependencies.last().state.bits,
        ),
{
    let rest = dependencies.drop_last();
    if some_sensitive_state(rest, chosen) {
        let i = choose|i: int|
            0 <= i < rest.len() && (#[trigger] rest[i]).dep.is_sibling_sensitive() && chosen(
                rest[i].state.bits,
            );
        assert(dependencies[i] == rest[i]);
    }
    if some_sensitive_state(dependencies, chosen) {
        let i = choose|i: int|
            0 <= i < dependencies.len() && (#[trigger] dependencies[i]).dep.is_sibling_sensitive()
                && chosen(dependencies[i].state.bits);
        if i < rest.len() {
            assert(rest[i] == dependencies[i]);
        }
    }
    if dependencies.last().dep.is_sibling_sensitive() && chosen(dependencies.last().state.bits) {
        assert(dependencies[dependencies.len() - 1] == dependencies.last());
    }
}

proof fn lemma_sensitive_states_noted(
    summary: SiblingSummaryView,
    dependencies: Seq<StateDependency>,
)
    ensures
        ({
            let after = super::invalidation_map::with_sensitive_states(summary, dependencies);
            &&& after.focus <==> summary.focus || some_sensitive_state(
                dependencies,
                |bits: u64| bits & (FOCUS | FOCUSRING | FOCUS_WITHIN) != 0,
            )
            &&& after.target <==> summary.target || some_sensitive_state(
                dependencies,
                |bits: u64| bits & URLTARGET != 0,
            )
            &&& after.unknown <==> summary.unknown || some_sensitive_state(
                dependencies,
                |bits: u64|
                    bits & (FOCUS | FOCUSRING | FOCUS_WITHIN) == 0 && bits & URLTARGET == 0,
            )
        }),
    decreases dependencies.len(),
{
    if dependencies.len() > 0 {
        lemma_sensitive_states_noted(summary, dependencies.drop_last());
        lemma_some_sensitive_state_last(
            dependencies,
            |bits: u64| bits & (FOCUS | FOCUSRING | FOCUS_WITHIN) != 0,
        );
        lemma_some_sensitive_state_last(dependencies, |bits: u64| bits & URLTARGET != 0);
        lemma_some_sensitive_state_last(
            dependencies,
            |bits: u64| bits & (FOCUS | FOCUSRING | FOCUS_WITHIN) == 0 && bits & URLTARGET == 0,
        );
    }
}

/// Whether some list holds a dependency that is sensitive to siblings.
pub open spec fn some_listed_sensitive(lists: Seq<(String, Vec<Dependency>)>) -> bool {
    exists|i: int, j: int|
        0 <= i < lists.len() && 0 <= j < lists[i].1@.len() && (
        #[trigger] lists[i].1@[j]).is_sibling_sensitive()
}

proof fn lemma_some_listed_sensitive(lists: Seq<(String, Vec<Dependency>)>)
    ensures
        some_listed_sensitive(lists) == super::invalidation_map::any_list_sensitive(lists),
{
    if some_listed_sensitive(lists) {
        let (i, j) = choose|i: int, j: int|
            0 <= i < lists.len() && 0 <= j < lists[i].1@.len() && (
            #[trigger] lists[i].1@[j]).is_sibling_sensitive();
        assert(super::dependency::any_sibling_sensitive(lists[i].1@));
    }
    if super::invalidation_map::any_list_sensitive(lists) {
        let i = choose|i: int|
            0 <= i < lists.len() && super::dependency::any_sibling_sensitive(
                (#[trigger] lists[i]).1@,
            );
        let j = choose|j: int|
            0 <= j < lists[i].1@.len() && (#[trigger] lists[i].1@[j]).is_sibling_sensitive();
        assert(lists[i].1@[j].is_sibling_sensitive());
    }
}

/// A sibling summary counts a sensitive state dependency under focus and under
/// target by the flags of its state. It counts as unknown what has neither, what
/// stands under a local name or a custom state, and what stands under no key.
pub proof fn lemma_sibling_summary_counts_states_and_unknowns(map: InvalidationMap)
    ensures
        ({
            let summary = super::invalidation_map::sibling_summary_of_map(map);
            let states = map.state_affecting_selectors.entries();
            &&& summary.focus <==> some_sensitive_state(
                states,
                |bits: u64| bits & (FOCUS | FOCUSRING | FOCUS_WITHIN) != 0,
            )
            &&& summary.target <==> some_sensitive_state(states, |bits: u64| bits & URLTARGET != 0)
            &&& summary.unknown <==> {
                ||| map.unkeyed_sibling_dependency
                ||| exists|i: int|
                    0 <= i < map.any_to_selector@.len() && (
                    #[trigger] map.any_to_selector@[i]).is_sibling_sensitive()
                ||| some_listed_sensitive(map.type_to_selector@)
                ||| some_listed_sensitive(map.custom_state_affecting_selectors@)
                ||| some_sensitive_state(
                    states,
                    |bits: u64|
                        bits & (FOCUS | FOCUSRING | FOCUS_WITHIN) == 0 && bits & URLTARGET == 0,
                )
            }
        }),
{
    lemma_sensitive_states_noted(
        super::invalidation_map::keyed_sibling_summary_of_map(map),
        map.state_affecting_selectors.entries(),
    );
    lemma_some_listed_sensitive(map.type_to_selector@);
    lemma_some_listed_sensitive(map.custom_state_affecting_selectors@);
}

/// The sibling summary of an additional relative map has no keys: it is unknown
/// where ancestors have to be traversed or any dependency of the map is
/// sensitive, and else empty.
pub proof fn lemma_relative_sibling_summary_is_unknown_or_empty(
    map: AdditionalRelativeSelectorInvalidationMap,
)
    ensures
        ({
            let summary = super::invalidation_map::sibling_summary_of_relative_map(map);
            &&& summary.classes.len() == 0 && summary.ids.len() == 0 && summary.attributes.len()
                == 0 && !summary.focus && !summary.target
            &&& summary.unknown <==> {
                ||| map.needs_ancestors_traversal
                ||| exists|i: int|
                    0 <= i < map.any_to_selector@.len() && (
                    #[trigger] map.any_to_selector@[i]).is_sibling_sensitive()
                ||| some_listed_sensitive(map.type_to_selector@)
                ||| some_sensitive_state(map.ts_state_to_selector.entries(), |bits: u64| true)
            }
        }),
{
    lemma_some_listed_sensitive(map.type_to_selector@);
    let states = map.ts_state_to_selector.entries();
    if some_sensitive_state(states, |bits: u64| true) {
        let i = choose|i: int|
            0 <= i < states.len() && (#[trigger] states[i]).dep.is_sibling_sensitive();
        assert(states[i].dep.is_sibling_sensitive());
    }
    if super::invalidation_map::any_state_sensitive(states) {
        let i = choose|i: int|
            0 <= i < states.len() && (#[trigger] states[i]).dep.is_sibling_sensitive();
        let chosen = |bits: u64| true;
        assert(states[i].dep.is_sibling_sensitive() && chosen(states[i].state.bits));
    }
}

/// A selector map's entries are those of all its buckets: an entry is there
/// exactly where some bucket or list of the map has it.
pub proof fn lemma_selector_map_entries_are_of_its_buckets<T>(map: SelectorMap<T>, entry: T)
    ensures
        map.entries().contains(entry) <==> {
            ||| map.root@.contains(entry)
            ||| in_some_bucket(map.id_hash@, entry)
            ||| in_some_bucket(map.class_hash@, entry)
            ||| in_some_bucket(map.attribute_hash@, entry)
            ||| in_some_bucket(map.local_name_hash@, entry)
            ||| in_some_bucket(map.namespace_hash@, entry)
            ||| map.rare_pseudo_classes@.contains(entry)
            ||| map.other@.contains(entry)
        },
{
    lemma_in_some_bucket(map.id_hash@, entry);
    lemma_in_some_bucket(map.class_hash@, entry);
    lemma_in_some_bucket(map.attribute_hash@, entry);
    lemma_in_some_bucket(map.local_name_hash@, entry);
    lemma_in_some_bucket(map.namespace_hash@, entry);
    let s0 = map.root@;
    let s1 = s0 + super::invalidation_map::bucket_entries(map.id_hash@);
    let s2 = s1 + super::invalidation_map::bucket_entries(map.class_hash@);
    let s3 = s2 + super::invalidation_map::bucket_entries(map.attribute_hash@);
    let s4 = s3 + super::invalidation_map::bucket_entries(map.local_name_hash@);
    let s5 = s4 + super::invalidation_map::bucket_entries(map.namespace_hash@);
    let s6 = s5 + map.rare_pseudo_classes@;
    super::dependency_laws::lemma_concat_contains(
        s0,
        super::invalidation_map::bucket_entries(map.id_hash@),
        entry,
    );
    super::dependency_laws::lemma_concat_contains(
        s1,
        super::invalidation_map::bucket_entries(map.class_hash@),
        entry,
    );
    super::dependency_laws::lemma_concat_contains(
        s2,
        super::invalidation_map::bucket_entries(map.attribute_hash@),
        entry,
    );
    super::dependency_laws::lemma_concat_contains(
        s3,
        super::invalidation_map::bucket_entries(map.local_name_hash@),
        entry,
    );
    super::dependency_laws::lemma_concat_contains(
        s4,
        super::invalidation_map::bucket_entries(map.namespace_hash@),
        entry,
    );
    super::dependency_laws::lemma_concat_contains(s5, map.rare_pseudo_classes@, entry);
    super::dependency_laws::lemma_concat_contains(s6, map.other@, entry);
}

/// Whether some bucket of a list has an entry.
pub open spec fn in_some_bucket<T>(buckets: Seq<(String, Vec<T>)>, entry: T) -> bool {
    exists|i: int| 0 <= i < buckets.len() && (#[trigger] buckets[i]).1@.contains(entry)
}

proof fn lemma_in_some_bucket<T>(buckets: Seq<(String, Vec<T>)>, entry: T)
    ensures
        super::invalidation_map::bucket_entries(buckets).contains(entry) == in_some_bucket(
            buckets,
            entry,
        ),
    decreases buckets.len(),
{
    if buckets.len() > 0 {
        let rest = buckets.drop_last();
        lemma_in_some_bucket(rest, entry);
        super::dependency_laws::lemma_concat_contains(
            super::invalidation_map::bucket_entries(rest),
            buckets.last().1@,
            entry,
        );
        if in_some_bucket(rest, entry) {
            let i = choose|i: int|
                0 <= i < rest.len() && (#[trigger] rest[i]).1@.contains(entry);
            assert(buckets[i] == rest[i]);
        }
        if in_some_bucket(buckets, entry) {
            let i = choose|i: int|
                0 <= i < buckets.len() && (#[trigger] buckets[i]).1@.contains(entry);
            if i < rest.len() {
                assert(rest[i] == buckets[i]);
            }
        }
        if buckets.last().1@.contains(entry) {
            assert(buckets[buckets.len() - 1].1@.contains(entry));
        }
    }
}

} // verus!
