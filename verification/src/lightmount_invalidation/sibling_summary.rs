//! Sibling-sensitive selector dependencies by key.

use vstd::prelude::*;

use super::element_state::{ElementState, FOCUS, FOCUSRING, FOCUS_WITHIN, URLTARGET};
use super::text::{copy_texts, list_has_text};

verus! {

/// Sibling-sensitive selector dependencies exposed for style invalidation.
#[derive(Debug, PartialEq, Eq, Hash)]
pub struct LightmountSiblingInvalidationSummary {
    /// Class tokens whose mutation can affect sibling selector invalidation.
    pub class_dependencies: Vec<String>,
    /// IDs whose mutation can affect sibling selector invalidation.
    pub id_dependencies: Vec<String>,
    /// Attribute local names whose mutation can affect sibling selector
    /// invalidation.
    pub attribute_dependencies: Vec<String>,
    /// Whether focus-like state changes can affect sibling selector
    /// invalidation.
    pub focus_dependency: bool,
    /// Whether :target state changes can affect sibling selector invalidation.
    pub target_dependency: bool,
    /// Whether there are sibling-sensitive dependencies that are not covered by
    /// the class/id/attribute/focus/target keys above.
    pub unknown_dependency: bool,
}

impl Clone for LightmountSiblingInvalidationSummary {
    fn clone(&self) -> (summary: Self)
        ensures
            summary@ == self@,
    {
        Self {
            class_dependencies: copy_texts(&self.class_dependencies),
            id_dependencies: copy_texts(&self.id_dependencies),
            attribute_dependencies: copy_texts(&self.attribute_dependencies),
            focus_dependency: self.focus_dependency,
            target_dependency: self.target_dependency,
            unknown_dependency: self.unknown_dependency,
        }
    }
}

/// The content of a sibling summary.
pub struct SiblingSummaryView {
    /// Class tokens.
    pub classes: Seq<String>,
    /// IDs.
    pub ids: Seq<String>,
    /// Attribute local names.
    pub attributes: Seq<String>,
    /// Focus-like state changes matter.
    pub focus: bool,
    /// `:target` state changes matter.
    pub target: bool,
    /// Something not covered by the keys matters.
    pub unknown: bool,
}

impl SiblingSummaryView {
    /// The summary without dependencies.
    pub open spec fn none() -> Self {
        SiblingSummaryView {
            classes: seq![],
            ids: seq![],
            attributes: seq![],
            focus: false,
            target: false,
            unknown: false,
        }
    }

    /// This summary with a state dependency: it counts under focus and under
    /// target where it touches them, and as unknown where it touches neither.
    pub open spec fn with_state(self, state: ElementState) -> Self {
        let focus = state.meets(FOCUS | FOCUSRING | FOCUS_WITHIN);
        let target = state.meets(URLTARGET);
        SiblingSummaryView {
            focus: self.focus || focus,
            target: self.target || target,
            unknown: self.unknown || (!focus && !target),
            ..self
        }
    }

    /// This summary with an unknown dependency where `unknown` holds.
    pub open spec fn with_unknown_if(self, unknown: bool) -> Self {
        SiblingSummaryView { unknown: self.unknown || unknown, ..self }
    }

    /// Both summaries.
    pub open spec fn join(self, other: Self) -> Self {
        SiblingSummaryView {
            classes: self.classes + other.classes,
            ids: self.ids + other.ids,
            attributes: self.attributes + other.attributes,
            focus: self.focus || other.focus,
            target: self.target || other.target,
            unknown: self.unknown || other.unknown,
        }
    }

    /// Whether any dependency was found.
    pub open spec fn has_any(self) -> bool {
        ||| self.classes.len() > 0
        ||| self.ids.len() > 0
        ||| self.attributes.len() > 0
        ||| self.focus
        ||| self.target
        ||| self.unknown
    }
}

/// Joining summaries adds up their dependencies: a key is listed where either
/// lists it, and there is a dependency where either has one.
pub proof fn lemma_sibling_summary_join(
    first: SiblingSummaryView,
    second: SiblingSummaryView,
    third: SiblingSummaryView,
    key: Seq<char>,
)
    ensures
        first.join(second).has_any() == (first.has_any() || second.has_any()),
        super::text::lists_text(first.join(second).classes, key) == (super::text::lists_text(
            first.classes,
            key,
        ) || super::text::lists_text(second.classes, key)),
        super::text::lists_text(first.join(second).ids, key) == (super::text::lists_text(
            first.ids,
            key,
        ) || super::text::lists_text(second.ids, key)),
        super::text::lists_text(first.join(second).attributes, key) == (super::text::lists_text(
            first.attributes,
            key,
        ) || super::text::lists_text(second.attributes, key)),
        first.join(second).join(third) == first.join(second.join(third)),
        first.join(SiblingSummaryView::none()) == first,
        SiblingSummaryView::none().join(first) == first,
{
    super::text::lemma_lists_text_concat(first.classes, second.classes, key);
    super::text::lemma_lists_text_concat(first.ids, second.ids, key);
    super::text::lemma_lists_text_concat(first.attributes, second.attributes, key);
    assert(first.join(second).join(third).classes =~= first.join(second.join(third)).classes);
    assert(first.join(second).join(third).ids =~= first.join(second.join(third)).ids);
    assert(first.join(second).join(third).attributes =~= first.join(second.join(third)).attributes);
    assert(first.join(SiblingSummaryView::none()).classes =~= first.classes);
    assert(first.join(SiblingSummaryView::none()).ids =~= first.ids);
    assert(first.join(SiblingSummaryView::none()).attributes =~= first.attributes);
    assert(SiblingSummaryView::none().join(first).classes =~= first.classes);
    assert(SiblingSummaryView::none().join(first).ids =~= first.ids);
    assert(SiblingSummaryView::none().join(first).attributes =~= first.attributes);
}

impl View for LightmountSiblingInvalidationSummary {
    type V = SiblingSummaryView;

    open spec fn view(&self) -> SiblingSummaryView {
        SiblingSummaryView {
            classes: self.class_dependencies@,
            ids: self.id_dependencies@,
            attributes: self.attribute_dependencies@,
            focus: self.focus_dependency,
            target: self.target_dependency,
            unknown: self.unknown_dependency,
        }
    }
}

impl Default for LightmountSiblingInvalidationSummary {
    fn default() -> (summary: Self)
        ensures
            summary@ == SiblingSummaryView::none(),
    {
        let summary = Self {
            class_dependencies: Vec::new(),
            id_dependencies: Vec::new(),
            attribute_dependencies: Vec::new(),
            focus_dependency: false,
            target_dependency: false,
            unknown_dependency: false,
        };
        assert(summary.class_dependencies@ =~= seq![]);
        summary
    }
}

impl LightmountSiblingInvalidationSummary {
    /// Returns whether any sibling-sensitive dependency was found.
    pub fn has_any_dependency(&self) -> (any: bool)
        ensures
            any == self@.has_any(),
    {
        self.class_dependencies.len() > 0 || self.id_dependencies.len() > 0
            || self.attribute_dependencies.len() > 0 || self.focus_dependency
            || self.target_dependency || self.unknown_dependency
    }

    /// Add a state dependency.
    pub fn note_state_dependency(&mut self, state: ElementState)
        ensures
            final(self)@ == old(self)@.with_state(state),
    {
        let mut known = false;
        let focus_states = ElementState::new(FOCUS).union(ElementState::new(FOCUSRING)).union(
            ElementState::new(FOCUS_WITHIN),
        );
        if state.intersects(focus_states) {
            self.focus_dependency = true;
            known = true;
        }
        if state.intersects(ElementState::new(URLTARGET)) {
            self.target_dependency = true;
            known = true;
        }
        if !known {
            self.unknown_dependency = true;
        }
    }

    /// Add a dependency that no key covers.
    pub fn note_unknown_dependency(&mut self)
        ensures
            final(self)@ == old(self)@.with_unknown_if(true),
    {
        self.unknown_dependency = true;
    }

    /// Merge another sibling invalidation summary into this one.
    pub fn extend(&mut self, other: LightmountSiblingInvalidationSummary)
        ensures
            final(self)@ == old(self)@.join(other@),
    {
        let mut other = other;
        self.class_dependencies.append(&mut other.class_dependencies);
        self.id_dependencies.append(&mut other.id_dependencies);
        self.attribute_dependencies.append(&mut other.attribute_dependencies);
        self.focus_dependency = self.focus_dependency || other.focus_dependency;
        self.target_dependency = self.target_dependency || other.target_dependency;
        self.unknown_dependency = self.unknown_dependency || other.unknown_dependency;
    }

    /// Returns whether mutating this class token can affect sibling selector
    /// invalidation.
    pub fn has_class_dependency(&self, class: &str) -> (found: bool)
        ensures
            found == super::text::lists_text(self@.classes, class@),
    {
        list_has_text(&self.class_dependencies, class)
    }

    /// Returns whether mutating this id can affect sibling selector
    /// invalidation.
    pub fn has_id_dependency(&self, id: &str) -> (found: bool)
        ensures
            found == super::text::lists_text(self@.ids, id@),
    {
        list_has_text(&self.id_dependencies, id)
    }

    /// Returns whether mutating this attribute can affect sibling selector
    /// invalidation.
    pub fn has_attribute_dependency(&self, attribute: &str) -> (found: bool)
        ensures
            found == super::text::lists_text(self@.attributes, attribute@),
    {
        list_has_text(&self.attribute_dependencies, attribute)
    }
}

} // verus!
