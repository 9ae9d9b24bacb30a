//! Keyed summaries of the dependencies of a stylesheet source.

use vstd::prelude::*;

use super::dependency_query::{
    DependencyAnswer, LightmountDependencyKind, LightmountDependencyQueryResult,
};
use super::element_state::{ElementState, FOCUS, FOCUSRING, FOCUS_WITHIN, URLTARGET};
use super::reasons::LightmountDependencyFallbackReason;
use super::text::same_text;

verus! {

/// A key that dependencies are recorded under.
pub trait DependencyKey: View + Sized {
    /// Return whether two keys are the same.
    fn same_key(&self, other: &Self) -> (same: bool)
        ensures
            same == (self@ == other@),
    ;
}

impl DependencyKey for String {
    fn same_key(&self, other: &Self) -> bool {
        same_text(self.as_str(), other.as_str())
    }
}

impl DependencyKey for u64 {
    fn same_key(&self, other: &Self) -> bool {
        *self == *other
    }
}

/// The content of a list of keyed answers.
pub open spec fn entry_views<K: View>(
    entries: Seq<(K, LightmountDependencyQueryResult)>,
) -> Seq<(K::V, DependencyAnswer)> {
    entries.map_values(|entry: (K, LightmountDependencyQueryResult)| (entry.0@, entry.1@))
}

/// Whether the list has an entry for a key.
pub open spec fn has_entry<K>(entries: Seq<(K, DependencyAnswer)>, key: K) -> bool {
    exists|i: int| 0 <= i < entries.len() && (#[trigger] entries[i]).0 == key
}

/// The answer recorded for a key, or the answer without dependencies.
pub open spec fn answer_for<K>(
    entries: Seq<(K, DependencyAnswer)>,
    key: K,
) -> DependencyAnswer
    decreases entries.len(),
{
    if entries.len() == 0 {
        DependencyAnswer::none()
    } else if entries[0].0 == key {
        entries[0].1
    } else {
        answer_for(entries.drop_first(), key)
    }
}

/// The entries with an answer joined to the entry of its key, or added as a
/// new entry; an answer without dependencies is not recorded.
pub open spec fn noted<K>(
    entries: Seq<(K, DependencyAnswer)>,
    key: K,
    answer: DependencyAnswer,
) -> Seq<(K, DependencyAnswer)>
    decreases entries.len(),
{
    if !answer.has_any() {
        entries
    } else if entries.len() == 0 {
        seq![(key, answer)]
    } else if entries[0].0 == key {
        seq![(key, entries[0].1.join(answer))] + entries.drop_first()
    } else {
        seq![entries[0]] + noted(entries.drop_first(), key, answer)
    }
}

/// The entries with each of `more` noted in turn.
pub open spec fn noted_all<K>(
    entries: Seq<(K, DependencyAnswer)>,
    more: Seq<(K, DependencyAnswer)>,
) -> Seq<(K, DependencyAnswer)>
    decreases more.len(),
{
    if more.len() == 0 {
        entries
    } else {
        noted(noted_all(entries, more.drop_last()), more.last().0, more.last().1)
    }
}

proof fn lemma_noted_at<K>(
    entries: Seq<(K, DependencyAnswer)>,
    key: K,
    answer: DependencyAnswer,
    index: int,
)
    requires
        answer.has_any(),
        0 <= index < entries.len(),
        entries[index].0 == key,
        forall|i: int| 0 <= i < index ==> (#[trigger] entries[i]).0 != key,
    ensures
        noted(entries, key, answer) == entries.update(
            index,
            (key, entries[index].1.join(answer)),
        ),
    decreases entries.len(),
{
    let rest = entries.drop_first();
    if index == 0 {
        assert(noted(entries, key, answer) =~= entries.update(
            0,
            (key, entries[0].1.join(answer)),
        ));
    } else {
        assert(entries[0].0 != key);
        assert forall|i: int| 0 <= i < index - 1 implies (#[trigger] rest[i]).0 != key by {
            assert(rest[i] == entries[i + 1]);
        }
        lemma_noted_at(rest, key, answer, index - 1);
        assert(noted(entries, key, answer) =~= entries.update(
            index,
            (key, entries[index].1.join(answer)),
        ));
    }
}

proof fn lemma_noted_new<K>(
    entries: Seq<(K, DependencyAnswer)>,
    key: K,
    answer: DependencyAnswer,
)
    requires
        answer.has_any(),
        !has_entry(entries, key),
    ensures
        noted(entries, key, answer) == entries.push((key, answer)),
    decreases entries.len(),
{
    if entries.len() == 0 {
        assert(noted(entries, key, answer) =~= entries.push((key, answer)));
    } else {
        let rest = entries.drop_first();
        assert(entries[0].0 != key);
        assert forall|i: int| 0 <= i < rest.len() implies (#[trigger] rest[i]).0 != key by {
            assert(rest[i] == entries[i + 1]);
        }
        lemma_noted_new(rest, key, answer);
        assert(noted(entries, key, answer) =~= entries.push((key, answer)));
    }
}

/// What is read back for a key after an answer was noted: the answer itself
/// where the key was new, the joined answer where it was not. Other keys read
/// as before.
pub proof fn lemma_answer_for_noted<K>(
    entries: Seq<(K, DependencyAnswer)>,
    key: K,
    answer: DependencyAnswer,
    other: K,
)
    ensures
        answer.has_any() ==> answer_for(noted(entries, key, answer), key) == if has_entry(
            entries,
            key,
        ) {
            answer_for(entries, key).join(answer)
        } else {
            answer
        },
        !answer.has_any() ==> noted(entries, key, answer) == entries,
        other != key ==> answer_for(noted(entries, key, answer), other) == answer_for(
            entries,
            other,
        ),
    decreases entries.len(),
{
    if answer.has_any() {
        let after = noted(entries, key, answer);
        if entries.len() == 0 {
            assert(after.drop_first() =~= Seq::empty());
            assert(answer_for(after.drop_first(), other) == DependencyAnswer::none());
        } else {
            let rest = entries.drop_first();
            if entries[0].0 == key {
                assert(after.drop_first() =~= rest);
                assert(has_entry(entries, key));
            } else {
                lemma_answer_for_noted(rest, key, answer, other);
                assert(after.drop_first() =~= noted(rest, key, answer));
                if has_entry(rest, key) {
                    let i = choose|i: int| 0 <= i < rest.len() && (#[trigger] rest[i]).0 == key;
                    assert(entries[i + 1].0 == key);
                }
                if has_entry(entries, key) {
                    let i = choose|i: int|
                        0 <= i < entries.len() && (#[trigger] entries[i]).0 == key;
                    assert(rest[i - 1].0 == key);
                }
            }
        }
    }
}

/// Noting an answer with dependencies leaves an entry for its key that has all
/// its kinds and reasons; its position is returned.
pub proof fn lemma_noted_entry<K>(
    entries: Seq<(K, DependencyAnswer)>,
    key: K,
    answer: DependencyAnswer,
) -> (index: int)
    requires
        answer.has_any(),
        answer.well_formed(),
    ensures
        0 <= index < noted(entries, key, answer).len(),
        noted(entries, key, answer)[index].0 == key,
        forall|kind: LightmountDependencyKind| #[trigger]
            answer.kinds.contains(kind) ==> noted(entries, key, answer)[index].1.kinds.contains(
                kind,
            ),
        forall|reason: LightmountDependencyFallbackReason| #[trigger]
            answer.reasons.contains(reason) ==> noted(
                entries,
                key,
                answer,
            )[index].1.reasons.contains(reason),
    decreases entries.len(),
{
    if entries.len() == 0 {
        0
    } else if entries[0].0 == key {
        super::dependency_query::lemma_join_is_union(entries[0].1, answer);
        0
    } else {
        let rest = lemma_noted_entry(entries.drop_first(), key, answer);
        assert(noted(entries, key, answer)[rest + 1] == noted(
            entries.drop_first(),
            key,
            answer,
        )[rest]);
        rest + 1
    }
}

/// Whether no two entries have the same key, each answer is well-formed and
/// none is without dependencies.
pub open spec fn entries_well_formed<K>(entries: Seq<(K, DependencyAnswer)>) -> bool {
    &&& forall|i: int, j: int|
        0 <= i < j < entries.len() ==> (#[trigger] entries[i]).0 != (#[trigger] entries[j]).0
    &&& forall|i: int|
        0 <= i < entries.len() ==> (#[trigger] entries[i]).1.well_formed()
            && entries[i].1.has_any()
}

/// Noting a well-formed answer keeps the entries well-formed.
pub proof fn lemma_noted_well_formed<K>(
    entries: Seq<(K, DependencyAnswer)>,
    key: K,
    answer: DependencyAnswer,
)
    requires
        entries_well_formed(entries),
        answer.well_formed(),
    ensures
        entries_well_formed(noted(entries, key, answer)),
{
    if answer.has_any() {
        if has_entry(entries, key) {
            let index = choose|i: int| 0 <= i < entries.len() && (#[trigger] entries[i]).0 == key;
            assert forall|i: int| 0 <= i < index implies (#[trigger] entries[i]).0 != key by {
                assert(entries[i].0 != entries[index].0);
            }
            lemma_noted_at(entries, key, answer, index);
            let joined = entries[index].1.join(answer);
            super::dependency_query::lemma_answers_stay_well_formed(
                entries[index].1,
                answer,
                LightmountDependencyKind::Element,
                LightmountDependencyFallbackReason::UnknownDependency,
            );
            super::dependency_query::lemma_join_is_union(entries[index].1, answer);
            if answer.kinds.len() > 0 {
                assert(answer.kinds.contains(answer.kinds[0]));
                assert(joined.kinds.contains(answer.kinds[0]));
            }
            if answer.reasons.len() > 0 {
                assert(answer.reasons.contains(answer.reasons[0]));
                assert(joined.reasons.contains(answer.reasons[0]));
            }
        } else {
            lemma_noted_new(entries, key, answer);
        }
    }
}

/// Add an answer under its key.
pub fn lightmount_note_keyed_dependency<K: DependencyKey>(
    dependencies: &mut Vec<(K, LightmountDependencyQueryResult)>,
    key: K,
    result: LightmountDependencyQueryResult,
)
    ensures
        entry_views(final(dependencies)@) == noted(entry_views(old(dependencies)@), key@, result@),
{
    if !result.has_any_dependency() {
        return;
    }
    let ghost entries = entry_views(dependencies@);
    let mut index: usize = 0;
    while index < dependencies.len()
        invariant
            index <= dependencies.len(),
            *dependencies == *old(dependencies),
            entries == entry_views(dependencies@),
            result@.has_any(),
            forall|i: int| 0 <= i < index ==> (#[trigger] entries[i]).0 != key@,
        decreases dependencies.len() - index,
    {
        if dependencies[index].0.same_key(&key) {
            proof {
                assert(entries[index as int].0 == key@);
                lemma_noted_at(entries, key@, result@, index as int);
            }
            dependencies[index].1.extend(result);
            assert(entry_views(dependencies@) =~= noted(entries, key@, result@));
            return;
        }
        index = index + 1;
    }
    proof {
        lemma_noted_new(entries, key@, result@);
    }
    dependencies.push((key, result));
    assert(entry_views(dependencies@) =~= noted(entries, key@, result@));
}

/// Add the answers of a list, each under its key.
fn note_keyed_dependencies<K: DependencyKey>(
    dependencies: &mut Vec<(K, LightmountDependencyQueryResult)>,
    more: Vec<(K, LightmountDependencyQueryResult)>,
)
    ensures
        entry_views(final(dependencies)@) == noted_all(
            entry_views(old(dependencies)@),
            entry_views(more@),
        ),
{
    let ghost before = entry_views(dependencies@);
    let ghost all = entry_views(more@);
    let ghost given = more@;
    for entry in iter: more
        invariant
            iter.seq() == given,
            all == entry_views(given),
            entry_views(dependencies@) == noted_all(before, all.take(iter.index())),
    {
        let ghost index = iter.index();
        let (key, result) = entry;
        lightmount_note_keyed_dependency(dependencies, key, result);
        proof {
            let next = all.take(index + 1);
            assert(next.drop_last() =~= all.take(index));
            assert(next.last() == all[index]);
        }
    }
    assert(all.take(all.len() as int) =~= all);
}

/// Return a copy of the answer recorded for a name.
fn find_answer(
    dependencies: &Vec<(String, LightmountDependencyQueryResult)>,
    name: &str,
) -> (result: LightmountDependencyQueryResult)
    ensures
        result@ == answer_for(entry_views(dependencies@), name@),
{
    let ghost entries = entry_views(dependencies@);
    let mut index: usize = 0;
    assert(entries.skip(0) =~= entries);
    while index < dependencies.len()
        invariant
            index <= dependencies.len(),
            entries == entry_views(dependencies@),
            answer_for(entries, name@) == answer_for(entries.skip(index as int), name@),
        decreases dependencies.len() - index,
    {
        assert(entries.skip(index as int).drop_first() =~= entries.skip(index + 1));
        if same_text(dependencies[index].0.as_str(), name) {
            return dependencies[index].1.clone();
        }
        index = index + 1;
    }
    LightmountDependencyQueryResult::default()
}

/// What an answer is looked at for.
#[derive(Clone, Copy, Debug, PartialEq, Eq, Structural)]
pub enum DependencyAspect {
    /// Following siblings.
    Siblings,
    /// Relative selector anchors.
    RelativeAnchors,
    /// Slotted elements.
    Slotted,
}

impl DependencyAspect {
    /// Whether an answer can affect this aspect.
    pub open spec fn shown_by(self, answer: DependencyAnswer) -> bool {
        match self {
            Self::Siblings => answer.affects_siblings(),
            Self::RelativeAnchors => answer.affects_relative_anchors(),
            Self::Slotted => answer.affects_slotted(),
        }
    }

    /// Whether some answer of a list can affect this aspect.
    pub open spec fn shown_by_entry<K>(self, entries: Seq<(K, DependencyAnswer)>) -> bool {
        exists|i: int| 0 <= i < entries.len() && self.shown_by((#[trigger] entries[i]).1)
    }
}

/// Return whether an answer can affect an aspect.
fn result_shows(result: &LightmountDependencyQueryResult, aspect: DependencyAspect) -> (shows: bool)
    ensures
        shows == aspect.shown_by(result@),
{
    match aspect {
        DependencyAspect::Siblings => result.has_sibling_dependency(),
        DependencyAspect::RelativeAnchors => result.has_relative_selector_dependency(),
        DependencyAspect::Slotted => result.has_slotted_dependency(),
    }
}

/// Return whether some answer of a list can affect an aspect.
fn entries_show<K: DependencyKey>(
    dependencies: &Vec<(K, LightmountDependencyQueryResult)>,
    aspect: DependencyAspect,
) -> (shows: bool)
    ensures
        shows == aspect.shown_by_entry(entry_views(dependencies@)),
{
    let ghost entries = entry_views(dependencies@);
    let mut index: usize = 0;
    while index < dependencies.len()
        invariant
            index <= dependencies.len(),
            entries == entry_views(dependencies@),
            forall|i: int| 0 <= i < index ==> !aspect.shown_by((#[trigger] entries[i]).1),
        decreases dependencies.len() - index,
    {
        if result_shows(&dependencies[index].1, aspect) {
            assert(aspect.shown_by(entries[index as int].1));
            return true;
        }
        index = index + 1;
    }
    false
}

/// The content of a keyed dependency summary.
pub struct DependencySummaryView {
    /// Answers by class token.
    pub classes: Seq<(Seq<char>, DependencyAnswer)>,
    /// Answers by id.
    pub ids: Seq<(Seq<char>, DependencyAnswer)>,
    /// Answers by element local name.
    pub types: Seq<(Seq<char>, DependencyAnswer)>,
    /// The answer for every element.
    pub universal: DependencyAnswer,
    /// Answers by attribute local name.
    pub attributes: Seq<(Seq<char>, DependencyAnswer)>,
    /// Answers by custom state.
    pub custom_states: Seq<(Seq<char>, DependencyAnswer)>,
    /// Answers by state bits.
    pub states: Seq<(u64, DependencyAnswer)>,
    /// State bits that are depended on without an answer.
    pub unknown_state_bits: u64,
    /// The answer for focus-like states.
    pub focus: DependencyAnswer,
    /// The answer for `:focus-within`.
    pub focus_within: DependencyAnswer,
    /// The answer for `:target`.
    pub target: DependencyAnswer,
    /// There are dependencies that no key covers.
    pub unknown: bool,
}

/// The answer for a `:nth-child(... of ...)` key: siblings, by way of context
/// roots.
pub open spec fn nth_of_answer() -> DependencyAnswer {
    DependencyAnswer::none().with_kind(LightmountDependencyKind::Siblings).with_reason(
        LightmountDependencyFallbackReason::NthOfDependency,
    )
}

/// The join of the answers whose state bits meet `bits`.
pub open spec fn joined_states(
    states: Seq<(u64, DependencyAnswer)>,
    bits: u64,
) -> DependencyAnswer
    decreases states.len(),
{
    if states.len() == 0 {
        DependencyAnswer::none()
    } else {
        let before = joined_states(states.drop_last(), bits);
        if states.last().0 & bits != 0 {
            before.join(states.last().1)
        } else {
            before
        }
    }
}

/// The state bits that have an answer.
pub open spec fn represented_bits(states: Seq<(u64, DependencyAnswer)>) -> u64
    decreases states.len(),
{
    if states.len() == 0 {
        0
    } else {
        represented_bits(states.drop_last()) | states.last().0
    }
}

impl DependencySummaryView {
    /// The summary without dependencies.
    pub open spec fn none() -> Self {
        DependencySummaryView {
            classes: seq![],
            ids: seq![],
            types: seq![],
            universal: DependencyAnswer::none(),
            attributes: seq![],
            custom_states: seq![],
            states: seq![],
            unknown_state_bits: 0,
            focus: DependencyAnswer::none(),
            focus_within: DependencyAnswer::none(),
            target: DependencyAnswer::none(),
            unknown: false,
        }
    }

    /// This summary with an answer for a class.
    pub open spec fn with_class(self, class: Seq<char>, answer: DependencyAnswer) -> Self {
        DependencySummaryView { classes: noted(self.classes, class, answer), ..self }
    }

    /// This summary with an answer for an id.
    pub open spec fn with_id(self, id: Seq<char>, answer: DependencyAnswer) -> Self {
        DependencySummaryView { ids: noted(self.ids, id, answer), ..self }
    }

    /// This summary with an answer for an attribute.
    pub open spec fn with_attribute(self, name: Seq<char>, answer: DependencyAnswer) -> Self {
        DependencySummaryView { attributes: noted(self.attributes, name, answer), ..self }
    }

    /// This summary with an answer for an element local name.
    pub open spec fn with_type(self, name: Seq<char>, answer: DependencyAnswer) -> Self {
        DependencySummaryView { types: noted(self.types, name, answer), ..self }
    }

    /// This summary with an answer for a custom state.
    pub open spec fn with_custom_state(self, name: Seq<char>, answer: DependencyAnswer) -> Self {
        DependencySummaryView { custom_states: noted(self.custom_states, name, answer), ..self }
    }

    /// This summary with an answer for every element.
    pub open spec fn with_universal(self, answer: DependencyAnswer) -> Self {
        DependencySummaryView { universal: self.universal.join(answer), ..self }
    }

    /// This summary with an unknown dependency where `unknown` holds.
    pub open spec fn with_unknown_if(self, unknown: bool) -> Self {
        DependencySummaryView { unknown: self.unknown || unknown, ..self }
    }

    /// This summary with an answer for a state. The answer also counts under
    /// focus, focus-within and target where the state touches them. The empty
    /// state is an unknown dependency.
    pub open spec fn with_state(self, state: ElementState, answer: DependencyAnswer) -> Self {
        if state.spec_is_empty() {
            self.with_unknown_if(true)
        } else {
            let focus = if state.meets(FOCUS | FOCUSRING) {
                self.focus.join(answer)
            } else {
                self.focus
            };
            let within = state.meets(FOCUS_WITHIN);
            DependencySummaryView {
                states: noted(self.states, state.bits, answer),
                focus: if within {
                    focus.join(answer)
                } else {
                    focus
                },
                focus_within: if within {
                    self.focus_within.join(answer)
                } else {
                    self.focus_within
                },
                target: if state.meets(URLTARGET) {
                    self.target.join(answer)
                } else {
                    self.target
                },
                ..self
            }
        }
    }

    /// This summary with the bits of a state that have no answer marked as
    /// unknown.
    pub open spec fn with_unrepresented(self, state: ElementState) -> Self {
        DependencySummaryView {
            unknown_state_bits: self.unknown_state_bits | (state.bits & !represented_bits(
                self.states,
            )),
            ..self
        }
    }

    /// Both summaries.
    pub open spec fn join(self, other: Self) -> Self {
        DependencySummaryView {
            classes: noted_all(self.classes, other.classes),
            ids: noted_all(self.ids, other.ids),
            types: noted_all(self.types, other.types),
            universal: self.universal.join(other.universal),
            attributes: noted_all(self.attributes, other.attributes),
            custom_states: noted_all(self.custom_states, other.custom_states),
            states: noted_all(self.states, other.states),
            unknown_state_bits: self.unknown_state_bits | other.unknown_state_bits,
            focus: self.focus.join(other.focus),
            focus_within: self.focus_within.join(other.focus_within),
            target: self.target.join(other.target),
            unknown: self.unknown || other.unknown,
        }
    }

    /// The answer for a changed state.
    pub open spec fn state_answer(self, state: ElementState) -> DependencyAnswer {
        let answer = joined_states(self.states, state.bits);
        if self.unknown_state_bits & state.bits != 0 {
            answer.with_reason(LightmountDependencyFallbackReason::UnsupportedStateDependency)
        } else {
            answer
        }
    }

    /// Whether some answer of the summary can affect an aspect.
    pub open spec fn shows(self, aspect: DependencyAspect) -> bool {
        ||| aspect.shown_by_entry(self.classes)
        ||| aspect.shown_by_entry(self.ids)
        ||| aspect.shown_by_entry(self.attributes)
        ||| aspect.shown_by_entry(self.custom_states)
        ||| aspect.shown_by_entry(self.states)
        ||| aspect.shown_by_entry(self.types)
        ||| aspect.shown_by(self.focus)
        ||| aspect.shown_by(self.focus_within)
        ||| aspect.shown_by(self.target)
        ||| aspect.shown_by(self.universal)
    }
}

/// Keyed dependency query summary of a stylesheet source.
#[derive(Debug, PartialEq, Eq, Hash)]
pub struct LightmountDependencyInvalidationSummary {
    /// Answers by class token.
    pub class_dependencies: Vec<(String, LightmountDependencyQueryResult)>,
    /// Answers by id.
    pub id_dependencies: Vec<(String, LightmountDependencyQueryResult)>,
    /// Answers by element local name.
    pub type_dependencies: Vec<(String, LightmountDependencyQueryResult)>,
    /// The answer for every element.
    pub universal_dependency: LightmountDependencyQueryResult,
    /// Answers by attribute local name.
    pub attribute_dependencies: Vec<(String, LightmountDependencyQueryResult)>,
    /// Answers by custom state.
    pub custom_state_dependencies: Vec<(String, LightmountDependencyQueryResult)>,
    /// Answers by state bits.
    pub state_dependencies: Vec<(u64, LightmountDependencyQueryResult)>,
    /// State bits that are depended on without an answer.
    pub unknown_state_dependency_bits: u64,
    /// The answer for focus-like states.
    pub focus_dependency: LightmountDependencyQueryResult,
    /// The answer for `:focus-within`.
    pub focus_within_dependency: LightmountDependencyQueryResult,
    /// The answer for `:target`.
    pub target_dependency: LightmountDependencyQueryResult,
    /// There are dependencies that no key covers.
    pub unknown_dependency: bool,
}

impl View for LightmountDependencyInvalidationSummary {
    type V = DependencySummaryView;

    open spec fn view(&self) -> DependencySummaryView {
        DependencySummaryView {
            classes: entry_views(self.class_dependencies@),
            ids: entry_views(self.id_dependencies@),
            types: entry_views(self.type_dependencies@),
            universal: self.universal_dependency@,
            attributes: entry_views(self.attribute_dependencies@),
            custom_states: entry_views(self.custom_state_dependencies@),
            states: entry_views(self.state_dependencies@),
            unknown_state_bits: self.unknown_state_dependency_bits,
            focus: self.focus_dependency@,
            focus_within: self.focus_within_dependency@,
            target: self.target_dependency@,
            unknown: self.unknown_dependency,
        }
    }
}

impl Default for LightmountDependencyInvalidationSummary {
    fn default() -> (summary: Self)
        ensures
            summary@ == DependencySummaryView::none(),
    {
        let summary = Self {
            class_dependencies: Vec::new(),
            id_dependencies: Vec::new(),
            type_dependencies: Vec::new(),
            universal_dependency: LightmountDependencyQueryResult::default(),
            attribute_dependencies: Vec::new(),
            custom_state_dependencies: Vec::new(),
            state_dependencies: Vec::new(),
            unknown_state_dependency_bits: 0,
            focus_dependency: LightmountDependencyQueryResult::default(),
            focus_within_dependency: LightmountDependencyQueryResult::default(),
            target_dependency: LightmountDependencyQueryResult::default(),
            unknown_dependency: false,
        };
        proof {
            let none = DependencySummaryView::none();
            assert(summary@.classes =~= none.classes);
            assert(summary@.ids =~= none.ids);
            assert(summary@.types =~= none.types);
            assert(summary@.attributes =~= none.attributes);
            assert(summary@.custom_states =~= none.custom_states);
            assert(summary@.states =~= none.states);
        }
        summary
    }
}

/// Return a copy of keyed answers.
fn copy_named(entries: &Vec<(String, LightmountDependencyQueryResult)>) -> (copy: Vec<
    (String, LightmountDependencyQueryResult),
>)
    ensures
        entry_views(copy@) == entry_views(entries@),
{
    let mut copy: Vec<(String, LightmountDependencyQueryResult)> = Vec::new();
    let mut index: usize = 0;
    while index < entries.len()
        invariant
            index <= entries.len(),
            entry_views(copy@) =~= entry_views(entries@).take(index as int),
        decreases entries.len() - index,
    {
        let ghost prior = copy@;
        copy.push((entries[index].0.clone(), entries[index].1.clone()));
        assert(entry_views(copy@) =~= entry_views(prior).push(entry_views(entries@)[index as int]));
        index = index + 1;
    }
    assert(entry_views(copy@) =~= entry_views(entries@));
    copy
}

/// Return a copy of answers by state bits.
fn copy_states(entries: &Vec<(u64, LightmountDependencyQueryResult)>) -> (copy: Vec<
    (u64, LightmountDependencyQueryResult),
>)
    ensures
        entry_views(copy@) == entry_views(entries@),
{
    let mut copy: Vec<(u64, LightmountDependencyQueryResult)> = Vec::new();
    let mut index: usize = 0;
    while index < entries.len()
        invariant
            index <= entries.len(),
            entry_views(copy@) =~= entry_views(entries@).take(index as int),
        decreases entries.len() - index,
    {
        let ghost prior = copy@;
        copy.push((entries[index].0, entries[index].1.clone()));
        assert(entry_views(copy@) =~= entry_views(prior).push(entry_views(entries@)[index as int]));
        index = index + 1;
    }
    assert(entry_views(copy@) =~= entry_views(entries@));
    copy
}

impl Clone for LightmountDependencyInvalidationSummary {
    fn clone(&self) -> (summary: Self)
        ensures
            summary@ == self@,
    {
        Self {
            class_dependencies: copy_named(&self.class_dependencies),
            id_dependencies: copy_named(&self.id_dependencies),
            type_dependencies: copy_named(&self.type_dependencies),
            universal_dependency: self.universal_dependency.clone(),
            attribute_dependencies: copy_named(&self.attribute_dependencies),
            custom_state_dependencies: copy_named(&self.custom_state_dependencies),
            state_dependencies: copy_states(&self.state_dependencies),
            unknown_state_dependency_bits: self.unknown_state_dependency_bits,
            focus_dependency: self.focus_dependency.clone(),
            focus_within_dependency: self.focus_within_dependency.clone(),
            target_dependency: self.target_dependency.clone(),
            unknown_dependency: self.unknown_dependency,
        }
    }
}

impl LightmountDependencyInvalidationSummary {
    /// Record an answer for a class.
    pub fn note_class_dependency(&mut self, class: String, result: LightmountDependencyQueryResult)
        ensures
            final(self)@ == old(self)@.with_class(class@, result@),
    {
        lightmount_note_keyed_dependency(&mut self.class_dependencies, class, result);
    }

    /// Record an answer for an id.
    pub fn note_id_dependency(&mut self, id: String, result: LightmountDependencyQueryResult)
        ensures
            final(self)@ == old(self)@.with_id(id@, result@),
    {
        lightmount_note_keyed_dependency(&mut self.id_dependencies, id, result);
    }

    /// Record an answer for an attribute.
    pub fn note_attribute_dependency(
        &mut self,
        attribute: String,
        result: LightmountDependencyQueryResult,
    )
        ensures
            final(self)@ == old(self)@.with_attribute(attribute@, result@),
    {
        lightmount_note_keyed_dependency(&mut self.attribute_dependencies, attribute, result);
    }

    /// Record an answer for an element local name.
    pub fn note_type_dependency(
        &mut self,
        local_name: String,
        result: LightmountDependencyQueryResult,
    )
        ensures
            final(self)@ == old(self)@.with_type(local_name@, result@),
    {
        lightmount_note_keyed_dependency(&mut self.type_dependencies, local_name, result);
    }

    /// Record an answer for every element.
    pub fn note_universal_dependency(&mut self, result: LightmountDependencyQueryResult)
        ensures
            final(self)@ == old(self)@.with_universal(result@),
    {
        self.universal_dependency.extend(result);
    }

    /// Record an answer for a state.
    pub fn note_state_dependency(
        &mut self,
        state: ElementState,
        result: LightmountDependencyQueryResult,
    )
        ensures
            final(self)@ == old(self)@.with_state(state, result@),
    {
        if state.is_empty() {
            self.unknown_dependency = true;
            return;
        }
        lightmount_note_keyed_dependency(
            &mut self.state_dependencies,
            state.bits(),
            result.clone(),
        );
        if state.intersects(ElementState::new(FOCUS).union(ElementState::new(FOCUSRING))) {
            self.focus_dependency.extend(result.clone());
        }
        if state.intersects(ElementState::new(FOCUS_WITHIN)) {
            self.focus_dependency.extend(result.clone());
            self.focus_within_dependency.extend(result.clone());
        }
        if state.intersects(ElementState::new(URLTARGET)) {
            self.target_dependency.extend(result);
        }
    }

    /// Record an answer for a custom state.
    pub fn note_custom_state_dependency(
        &mut self,
        state: String,
        result: LightmountDependencyQueryResult,
    )
        ensures
            final(self)@ == old(self)@.with_custom_state(state@, result@),
    {
        lightmount_note_keyed_dependency(&mut self.custom_state_dependencies, state, result);
    }

    /// Record that a class occurs in `:nth-child(... of ...)`.
    pub fn note_nth_of_class_dependency(&mut self, class: String)
        ensures
            final(self)@ == old(self)@.with_class(class@, nth_of_answer()),
    {
        self.note_class_dependency(class, lightmount_nth_of_dependency_query_result());
    }

    /// Record that an id occurs in `:nth-child(... of ...)`.
    pub fn note_nth_of_id_dependency(&mut self, id: String)
        ensures
            final(self)@ == old(self)@.with_id(id@, nth_of_answer()),
    {
        self.note_id_dependency(id, lightmount_nth_of_dependency_query_result());
    }

    /// Record that an attribute occurs in `:nth-child(... of ...)`.
    pub fn note_nth_of_attribute_dependency(&mut self, attribute: String)
        ensures
            final(self)@ == old(self)@.with_attribute(attribute@, nth_of_answer()),
    {
        self.note_attribute_dependency(attribute, lightmount_nth_of_dependency_query_result());
    }

    /// Record that a state occurs in `:nth-child(... of ...)`. The empty state
    /// records nothing.
    pub fn note_nth_of_state_dependency(&mut self, state: ElementState)
        ensures
            final(self)@ == if state.spec_is_empty() {
                old(self)@
            } else {
                old(self)@.with_state(state, nth_of_answer())
            },
    {
        if state.is_empty() {
            return;
        }
        self.note_state_dependency(state, lightmount_nth_of_dependency_query_result());
    }

    /// Mark the bits of a state that have no answer as unknown.
    pub fn note_unrepresented_state_dependencies(&mut self, state: ElementState)
        ensures
            final(self)@ == old(self)@.with_unrepresented(state),
    {
        if state.is_empty() {
            proof {
                let mask = represented_bits(self@.states);
                let bits = self.unknown_state_dependency_bits;
                assert(bits | (0u64 & !mask) == bits) by (bit_vector);
            }
            return;
        }
        let ghost states = self@.states;
        let mut represented: u64 = 0;
        let mut index: usize = 0;
        assert(states.take(0) =~= Seq::empty());
        while index < self.state_dependencies.len()
            invariant
                index <= self.state_dependencies.len(),
                states == entry_views(self.state_dependencies@),
                *self == *old(self),
                represented == represented_bits(states.take(index as int)),
            decreases self.state_dependencies.len() - index,
        {
            represented = represented | self.state_dependencies[index].0;
            proof {
                let next = states.take(index + 1);
                assert(next.drop_last() =~= states.take(index as int));
                assert(next.last() == states[index as int]);
            }
            index = index + 1;
        }
        assert(states.take(states.len() as int) =~= states);
        self.unknown_state_dependency_bits =
            self.unknown_state_dependency_bits | (state.bits() & !represented);
    }

    /// Record a dependency that no key covers.
    pub fn mark_unknown_dependency(&mut self)
        ensures
            final(self)@ == old(self)@.with_unknown_if(true),
    {
        self.unknown_dependency = true;
    }

    /// Merge another summary into this one.
    pub fn extend(&mut self, other: Self)
        ensures
            final(self)@ == old(self)@.join(other@),
    {
        note_keyed_dependencies(&mut self.class_dependencies, other.class_dependencies);
        note_keyed_dependencies(&mut self.id_dependencies, other.id_dependencies);
        note_keyed_dependencies(&mut self.attribute_dependencies, other.attribute_dependencies);
        note_keyed_dependencies(&mut self.type_dependencies, other.type_dependencies);
        note_keyed_dependencies(
            &mut self.custom_state_dependencies,
            other.custom_state_dependencies,
        );
        self.universal_dependency.extend(other.universal_dependency);
        note_keyed_dependencies(&mut self.state_dependencies, other.state_dependencies);
        self.unknown_state_dependency_bits =
            self.unknown_state_dependency_bits | other.unknown_state_dependency_bits;
        self.focus_dependency.extend(other.focus_dependency);
        self.focus_within_dependency.extend(other.focus_within_dependency);
        self.target_dependency.extend(other.target_dependency);
        self.unknown_dependency = self.unknown_dependency || other.unknown_dependency;
    }

    /// Query dependencies for a changed class token.
    pub fn query_class(&self, class: &str) -> (result: LightmountDependencyQueryResult)
        ensures
            result@ == answer_for(self@.classes, class@),
    {
        find_answer(&self.class_dependencies, class)
    }

    /// Query dependencies for a changed id.
    pub fn query_id(&self, id: &str) -> (result: LightmountDependencyQueryResult)
        ensures
            result@ == answer_for(self@.ids, id@),
    {
        find_answer(&self.id_dependencies, id)
    }

    /// Query dependencies for a changed attribute.
    pub fn query_attribute(&self, attribute: &str) -> (result: LightmountDependencyQueryResult)
        ensures
            result@ == answer_for(self@.attributes, attribute@),
    {
        find_answer(&self.attribute_dependencies, attribute)
    }

    /// Query dependencies for an inserted or removed element local name.
    pub fn query_type(&self, local_name: &str) -> (result: LightmountDependencyQueryResult)
        ensures
            result@ == answer_for(self@.types, local_name@),
    {
        find_answer(&self.type_dependencies, local_name)
    }

    /// Query dependencies for an inserted or removed element matching `*`.
    pub fn query_universal(&self) -> (result: LightmountDependencyQueryResult)
        ensures
            result@ == self@.universal,
    {
        self.universal_dependency.clone()
    }

    /// Query dependencies for a changed element state bitset.
    pub fn query_state(&self, state: ElementState) -> (result: LightmountDependencyQueryResult)
        ensures
            result@ == self@.state_answer(state),
    {
        let mut result = LightmountDependencyQueryResult::default();
        let bits: u64 = state.bits();
        let ghost states = self@.states;
        let mut index: usize = 0;
        assert(states.take(0) =~= Seq::empty());
        while index < self.state_dependencies.len()
            invariant
                index <= self.state_dependencies.len(),
                states == entry_views(self.state_dependencies@),
                bits == state.bits,
                result@ == joined_states(states.take(index as int), bits),
            decreases self.state_dependencies.len() - index,
        {
            if self.state_dependencies[index].0 & bits != 0 {
                result.extend(self.state_dependencies[index].1.clone());
            }
            proof {
                let next = states.take(index + 1);
                assert(next.drop_last() =~= states.take(index as int));
                assert(next.last() == states[index as int]);
            }
            index = index + 1;
        }
        assert(states.take(states.len() as int) =~= states);
        if self.unknown_state_dependency_bits & bits != 0 {
            result.add_fallback_reason(
                LightmountDependencyFallbackReason::UnsupportedStateDependency,
            );
        }
        result
    }

    /// Query dependencies for a changed CSS custom state.
    pub fn query_custom_state(&self, state: &str) -> (result: LightmountDependencyQueryResult)
        ensures
            result@ == answer_for(self@.custom_states, state@),
    {
        find_answer(&self.custom_state_dependencies, state)
    }

    /// Query dependencies for focus-like state changes.
    pub fn query_focus(&self) -> (result: LightmountDependencyQueryResult)
        ensures
            result@ == self@.focus,
    {
        self.focus_dependency.clone()
    }

    /// Query dependencies for :focus-within state changes.
    pub fn query_focus_within(&self) -> (result: LightmountDependencyQueryResult)
        ensures
            result@ == self@.focus_within,
    {
        self.focus_within_dependency.clone()
    }

    /// Query dependencies for :target state changes.
    pub fn query_target(&self) -> (result: LightmountDependencyQueryResult)
        ensures
            result@ == self@.target,
    {
        self.target_dependency.clone()
    }

    /// Returns whether any unkeyed dependency was found.
    pub fn has_unknown_dependency(&self) -> (unknown: bool)
        ensures
            unknown == self@.unknown,
    {
        self.unknown_dependency
    }

    /// Return whether some answer can affect an aspect.
    fn shows(&self, aspect: DependencyAspect) -> (shows: bool)
        ensures
            shows == self@.shows(aspect),
    {
        entries_show(&self.class_dependencies, aspect) || entries_show(
            &self.id_dependencies,
            aspect,
        ) || entries_show(&self.attribute_dependencies, aspect) || entries_show(
            &self.custom_state_dependencies,
            aspect,
        ) || entries_show(&self.state_dependencies, aspect) || entries_show(
            &self.type_dependencies,
            aspect,
        ) || result_shows(&self.focus_dependency, aspect) || result_shows(
            &self.focus_within_dependency,
            aspect,
        ) || result_shows(&self.target_dependency, aspect) || result_shows(
            &self.universal_dependency,
            aspect,
        )
    }

    /// Returns whether any known dependency can affect following siblings.
    pub fn has_sibling_dependency(&self) -> (found: bool)
        ensures
            found == (self@.unknown || self@.unknown_state_bits != 0 || self@.shows(
                DependencyAspect::Siblings,
            )),
    {
        self.unknown_dependency || self.unknown_state_dependency_bits != 0 || self.shows(
            DependencyAspect::Siblings,
        )
    }

    /// Returns whether any known dependency can affect relative selector
    /// anchors.
    pub fn has_relative_selector_dependency(&self) -> (found: bool)
        ensures
            found == self@.shows(DependencyAspect::RelativeAnchors),
    {
        self.shows(DependencyAspect::RelativeAnchors)
    }

    /// Returns whether any known dependency can affect `::slotted(...)`
    /// invalidation.
    pub fn has_slotted_dependency(&self) -> (found: bool)
        ensures
            found == (self@.unknown || self@.unknown_state_bits != 0 || self@.shows(
                DependencyAspect::Slotted,
            )),
    {
        self.unknown_dependency || self.unknown_state_dependency_bits != 0 || self.shows(
            DependencyAspect::Slotted,
        )
    }
}

/// Return the answer for a `:nth-child(... of ...)` key.
fn lightmount_nth_of_dependency_query_result() -> (result: LightmountDependencyQueryResult)
    ensures
        result@ == nth_of_answer(),
{
    let mut result = LightmountDependencyQueryResult::default();
    result.add_kind(LightmountDependencyKind::Siblings);
    result.add_fallback_reason(LightmountDependencyFallbackReason::NthOfDependency);
    result
}

} // verus!
