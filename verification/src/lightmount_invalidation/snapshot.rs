//! Element state captured before a mutation.

use indexmap::IndexMap;
use vstd::prelude::*;

use super::element_state::ElementState;
use super::indexed::{
    attribute_at, attribute_count, copy_attributes, keep_or_insert_attribute, new_attributes,
};
use super::text::{copy_optional_text, copy_texts, same_text};

verus! {

/// Old values with one name's value recorded unless the name has one.
pub open spec fn first_value_kept(
    entries: Seq<(Seq<char>, Option<Seq<char>>)>,
    name: Seq<char>,
    value: Option<Seq<char>>,
) -> Seq<(Seq<char>, Option<Seq<char>>)> {
    if exists|i: int| 0 <= i < entries.len() && (#[trigger] entries[i]).0 == name {
        entries
    } else {
        entries.push((name, value))
    }
}

/// Old values with those of `more` recorded in turn.
pub open spec fn first_values_kept(
    entries: Seq<(Seq<char>, Option<Seq<char>>)>,
    more: Seq<(Seq<char>, Option<Seq<char>>)>,
) -> Seq<(Seq<char>, Option<Seq<char>>)>
    decreases more.len(),
{
    if more.len() == 0 {
        entries
    } else {
        first_value_kept(
            first_values_kept(entries, more.drop_last()),
            more.last().0,
            more.last().1,
        )
    }
}

/// Values recorded first stay in front, unchanged and in their order, whatever
/// is recorded later.
pub proof fn lemma_first_values_stay(
    entries: Seq<(Seq<char>, Option<Seq<char>>)>,
    more: Seq<(Seq<char>, Option<Seq<char>>)>,
)
    ensures
        entries.is_prefix_of(first_values_kept(entries, more)),
    decreases more.len(),
{
    if more.len() > 0 {
        lemma_first_values_stay(entries, more.drop_last());
    }
}

/// Whether no two entries have the same name.
pub open spec fn names_are_distinct(entries: Seq<(Seq<char>, Option<Seq<char>>)>) -> bool {
    forall|i: int, j: int|
        0 <= i < j < entries.len() ==> (#[trigger] entries[i]).0 != (#[trigger] entries[j]).0
}

/// No name is recorded twice.
pub proof fn lemma_names_stay_distinct(
    entries: Seq<(Seq<char>, Option<Seq<char>>)>,
    more: Seq<(Seq<char>, Option<Seq<char>>)>,
)
    requires
        names_are_distinct(entries),
    ensures
        names_are_distinct(first_values_kept(entries, more)),
    decreases more.len(),
{
    if more.len() > 0 {
        lemma_names_stay_distinct(entries, more.drop_last());
        let before = first_values_kept(entries, more.drop_last());
        let after = first_values_kept(entries, more);
        assert forall|i: int, j: int| 0 <= i < j < after.len() implies (#[trigger] after[i]).0 != (
        #[trigger] after[j]).0 by {
            assert(after[i] == before[i]);
            if j < before.len() {
                assert(after[j] == before[j]);
            }
        }
    }
}

/// Merging snapshots keeps what the first captured: its values come first, and
/// its state and custom states win.
pub proof fn lemma_snapshot_merge(
    first: MutationSnapshotView,
    second: MutationSnapshotView,
)
    ensures
        first.attributes.is_prefix_of(first.merge(second).attributes),
        first.state is Some ==> first.merge(second).state == first.state,
        first.custom_states is Some ==> first.merge(second).custom_states == first.custom_states,
        first.merge(MutationSnapshotView::none()) == first,
{
    lemma_first_values_stay(first.attributes, second.attributes);
}

/// Per-element mutation before-state captured before retained invalidation is
/// drained.
#[derive(Debug, PartialEq, Eq)]
pub struct LightmountStyleMutationElementSnapshot {
    attribute_changes: IndexMap<String, Option<String>>,
    old_state: Option<ElementState>,
    old_custom_states: Option<Vec<String>>,
}

/// The content of a mutation snapshot.
pub struct MutationSnapshotView {
    /// Old attribute values by name, in the order of the first changes.
    pub attributes: Seq<(Seq<char>, Option<Seq<char>>)>,
    /// The old state.
    pub state: Option<ElementState>,
    /// The old custom states.
    pub custom_states: Option<Seq<String>>,
}

impl MutationSnapshotView {
    /// The snapshot without content.
    pub open spec fn none() -> Self {
        MutationSnapshotView { attributes: Seq::empty(), state: None, custom_states: None }
    }

    /// This snapshot with what another captured later.
    pub open spec fn merge(self, incoming: Self) -> Self {
        MutationSnapshotView {
            attributes: first_values_kept(self.attributes, incoming.attributes),
            state: super::request::first_of(self.state, incoming.state),
            custom_states: super::request::first_of(self.custom_states, incoming.custom_states),
        }
    }
}

impl View for LightmountStyleMutationElementSnapshot {
    type V = MutationSnapshotView;

    closed spec fn view(&self) -> MutationSnapshotView {
        MutationSnapshotView {
            attributes: super::indexed::attribute_entries(self.attribute_changes),
            state: self.old_state,
            custom_states: match self.old_custom_states {
                Some(states) => Some(states@),
                None => None,
            },
        }
    }
}

impl Clone for LightmountStyleMutationElementSnapshot {
    fn clone(&self) -> (snapshot: Self)
        ensures
            snapshot@ == self@,
    {
        Self {
            attribute_changes: copy_attributes(&self.attribute_changes),
            old_state: self.old_state,
            old_custom_states: match &self.old_custom_states {
                Some(states) => Some(copy_texts(states)),
                None => None,
            },
        }
    }
}

impl Default for LightmountStyleMutationElementSnapshot {
    fn default() -> (snapshot: Self)
        ensures
            snapshot@ == MutationSnapshotView::none(),
    {
        Self { attribute_changes: new_attributes(), old_state: None, old_custom_states: None }
    }
}

/// One retained mutation attribute change borrowed from
/// [`LightmountStyleMutationElementSnapshot`].
#[derive(Clone, Copy, Debug, PartialEq, Eq)]
pub struct LightmountStyleMutationAttributeChange<'a> {
    /// The attribute's local name.
    pub name: &'a str,
    /// Its old value.
    pub old_value: Option<&'a str>,
}

impl<'a> LightmountStyleMutationAttributeChange<'a> {
    /// The content of this change.
    pub open spec fn parts(self) -> (Seq<char>, Option<Seq<char>>) {
        (
            self.name@,
            match self.old_value {
                Some(value) => Some(value@),
                None => None,
            },
        )
    }

    /// Return the changed attribute local name.
    pub fn name(&self) -> (name: &str)
        ensures
            name@ == self.parts().0,
    {
        self.name
    }

    /// Return the captured old attribute value.
    pub fn old_value(&self) -> (value: Option<&str>)
        ensures
            value == self.old_value,
    {
        self.old_value
    }
}

impl LightmountStyleMutationElementSnapshot {
    /// Record one attribute's old value, keeping the first old value observed
    /// in a mutation batch.
    pub fn record_attribute_change(&mut self, name: &str, old_value: Option<String>)
        ensures
            final(self)@ == (MutationSnapshotView {
                attributes: first_value_kept(
                    old(self)@.attributes,
                    name@,
                    super::indexed::optional_text(old_value),
                ),
                ..old(self)@
            }),
    {
        keep_or_insert_attribute(&mut self.attribute_changes, name.to_owned(), old_value);
    }

    /// Record the element's old state if no old state has already been
    /// captured for this element.
    pub fn try_record_old_state(&mut self, old_state: ElementState) -> (recorded: Option<()>)
        ensures
            recorded is Some <==> old(self)@.state is None,
            final(self)@ == (MutationSnapshotView {
                state: super::request::first_of(old(self)@.state, Some(old_state)),
                ..old(self)@
            }),
    {
        if self.old_state.is_some() {
            return None;
        }
        self.old_state = Some(old_state);
        Some(())
    }

    /// Record the old custom states if this element has not already captured
    /// them in the current mutation batch.
    pub fn record_old_custom_states(&mut self, old_custom_states: Vec<String>)
        ensures
            final(self)@ == (MutationSnapshotView {
                custom_states: super::request::first_of(
                    old(self)@.custom_states,
                    Some(old_custom_states@),
                ),
                ..old(self)@
            }),
    {
        if self.old_custom_states.is_none() {
            self.old_custom_states = Some(old_custom_states);
        }
    }

    /// Merge another element snapshot into this one, preserving first observed
    /// old values and states.
    pub fn merge_from(&mut self, incoming: Self)
        ensures
            final(self)@ == old(self)@.merge(incoming@),
    {
        let ghost before = self@;
        let ghost more = incoming@.attributes;
        let count: usize = attribute_count(&incoming.attribute_changes);
        let mut index: usize = 0;
        while index < count
            invariant
                index <= count == more.len(),
                more == incoming@.attributes,
                self@ == (MutationSnapshotView {
                    attributes: first_values_kept(before.attributes, more.take(index as int)),
                    ..before
                }),
            decreases count - index,
        {
            if let Some((name, old_value)) = attribute_at(&incoming.attribute_changes, index) {
                let old_value = match old_value {
                    Some(value) => Some(value.clone()),
                    None => None,
                };
                self.record_attribute_change(name.as_str(), old_value);
            }
            proof {
                let next = more.take(index + 1);
                assert(next.drop_last() =~= more.take(index as int));
                assert(next.last() == more[index as int]);
            }
            index = index + 1;
        }
        assert(more.take(count as int) =~= more);
        if self.old_state.is_none() {
            self.old_state = incoming.old_state;
        }
        if self.old_custom_states.is_none() {
            self.old_custom_states = incoming.old_custom_states;
        }
    }

    /// Return captured attribute changes in insertion order.
    pub fn attribute_changes(&self) -> (changes: Vec<LightmountStyleMutationAttributeChange<'_>>)
        ensures
            changes@.map_values(
                |change: LightmountStyleMutationAttributeChange| change.parts(),
            ) == self@.attributes,
    {
        let ghost parts = |change: LightmountStyleMutationAttributeChange| change.parts();
        let count: usize = attribute_count(&self.attribute_changes);
        let mut changes: Vec<LightmountStyleMutationAttributeChange<'_>> = Vec::new();
        let mut index: usize = 0;
        assert(changes@.map_values(parts) =~= self@.attributes.take(0));
        while index < count
            invariant
                index <= count == self@.attributes.len(),
                parts == (|change: LightmountStyleMutationAttributeChange| change.parts()),
                changes@.map_values(parts) == self@.attributes.take(index as int),
            decreases count - index,
        {
            let ghost prior = changes@;
            if let Some((name, old_value)) = attribute_at(&self.attribute_changes, index) {
                let old_value = match old_value {
                    Some(value) => Some(value.as_str()),
                    None => None,
                };
                let change = LightmountStyleMutationAttributeChange {
                    name: name.as_str(),
                    old_value,
                };
                changes.push(change);
                assert(changes@.map_values(parts) =~= prior.map_values(parts).push(
                    change.parts(),
                ));
            }
            assert(self@.attributes.take(index + 1) =~= self@.attributes.take(index as int).push(
                self@.attributes[index as int],
            ));
            index = index + 1;
        }
        assert(self@.attributes.take(count as int) =~= self@.attributes);
        changes
    }

    /// Return the number of captured attribute changes.
    pub fn attribute_change_count(&self) -> (count: usize)
        ensures
            count == self@.attributes.len(),
    {
        attribute_count(&self.attribute_changes)
    }

    /// Return the captured old element state.
    pub fn old_state(&self) -> (state: Option<ElementState>)
        ensures
            state == self@.state,
    {
        self.old_state
    }

    /// Return the captured old custom states.
    pub fn old_custom_states(&self) -> (states: Option<&[String]>)
        ensures
            states is Some <==> self@.custom_states is Some,
            states matches Some(states) ==> self@.custom_states == Some(states@),
    {
        match &self.old_custom_states {
            Some(states) => Some(states.as_slice()),
            None => None,
        }
    }
}

/// One materialized attribute in a [`LightmountStyleInvalidationSnapshot`].
#[derive(Debug, PartialEq, Eq)]
pub struct LightmountStyleInvalidationSnapshotAttribute {
    /// The local name.
    pub local_name: String,
    /// The qualified name.
    pub name: String,
    /// The namespace.
    pub namespace: String,
    /// The prefix.
    pub prefix: Option<String>,
    /// The value.
    pub value: String,
}

impl Clone for LightmountStyleInvalidationSnapshotAttribute {
    fn clone(&self) -> (attribute: Self)
        ensures
            attribute == *self,
    {
        Self {
            local_name: self.local_name.clone(),
            name: self.name.clone(),
            namespace: self.namespace.clone(),
            prefix: copy_optional_text(&self.prefix),
            value: self.value.clone(),
        }
    }
}

impl LightmountStyleInvalidationSnapshotAttribute {
    /// Create one materialized invalidation snapshot attribute.
    pub fn new(
        local_name: String,
        name: String,
        namespace: String,
        prefix: Option<String>,
        value: String,
    ) -> (attribute: Self)
        ensures
            attribute == (LightmountStyleInvalidationSnapshotAttribute {
                local_name,
                name,
                namespace,
                prefix,
                value,
            }),
    {
        Self { local_name, name, namespace, prefix, value }
    }

    /// Return the local name.
    pub fn local_name(&self) -> (local_name: &str)
        ensures
            local_name@ == self.local_name@,
    {
        self.local_name.as_str()
    }

    /// Return the qualified attribute name.
    pub fn name(&self) -> (name: &str)
        ensures
            name@ == self.name@,
    {
        self.name.as_str()
    }

    /// Return the namespace string.
    pub fn namespace(&self) -> (namespace: &str)
        ensures
            namespace@ == self.namespace@,
    {
        self.namespace.as_str()
    }

    /// Return the prefix, when present.
    pub fn prefix(&self) -> (prefix: Option<&str>)
        ensures
            prefix is Some <==> self.prefix is Some,
            prefix matches Some(prefix) ==> prefix@ == self.prefix->0@,
    {
        match &self.prefix {
            Some(prefix) => Some(prefix.as_str()),
            None => None,
        }
    }

    /// Return the attribute value.
    pub fn value(&self) -> (value: &str)
        ensures
            value@ == self.value@,
    {
        self.value.as_str()
    }

    /// Replace the materialized attribute value.
    pub fn set_value(&mut self, value: String)
        ensures
            *final(self) == (LightmountStyleInvalidationSnapshotAttribute { value, ..*old(self) }),
    {
        self.value = value;
    }

    /// Return whether this attribute has no namespace and the given local name.
    pub fn is_no_namespace_local_name(&self, local_name: &str) -> (is: bool)
        ensures
            is == (self.namespace@.len() == 0 && self.local_name@ == local_name@),
    {
        self.namespace.as_str().is_empty() && same_text(self.local_name.as_str(), local_name)
    }
}

/// The content of an optional list of texts.
pub open spec fn text_list(texts: Option<Vec<String>>) -> Option<Seq<String>> {
    match texts {
        Some(texts) => Some(texts@),
        None => None,
    }
}

/// Materialized old element state used by invalidation selector matching for
/// one element.
#[derive(Debug, PartialEq, Eq)]
pub struct LightmountStyleInvalidationSnapshot<Root> {
    /// The element.
    pub element: Root,
    /// Its old state.
    pub state: Option<ElementState>,
    /// Its old custom states.
    pub custom_states: Option<Vec<String>>,
    /// The local names of changed attributes.
    pub changed_attributes: Vec<String>,
    /// Its old attributes.
    pub attributes: Vec<LightmountStyleInvalidationSnapshotAttribute>,
}

impl<Root: Copy> Clone for LightmountStyleInvalidationSnapshot<Root> {
    fn clone(&self) -> (snapshot: Self)
        ensures
            snapshot.element == self.element,
            snapshot.state == self.state,
            text_list(snapshot.custom_states) == text_list(self.custom_states),
            snapshot.changed_attributes@ == self.changed_attributes@,
            snapshot.attributes@ == self.attributes@,
    {
        let mut attributes: Vec<LightmountStyleInvalidationSnapshotAttribute> = Vec::new();
        let mut index: usize = 0;
        while index < self.attributes.len()
            invariant
                index <= self.attributes.len(),
                attributes@ == self.attributes@.take(index as int),
            decreases self.attributes.len() - index,
        {
            attributes.push(self.attributes[index].clone());
            assert(attributes@ =~= self.attributes@.take(index + 1));
            index = index + 1;
        }
        assert(self.attributes@.take(self.attributes@.len() as int) =~= self.attributes@);
        Self {
            element: self.element,
            state: self.state,
            custom_states: match &self.custom_states {
                Some(states) => Some(copy_texts(states)),
                None => None,
            },
            changed_attributes: copy_texts(&self.changed_attributes),
            attributes,
        }
    }
}

impl<Root: Copy> LightmountStyleInvalidationSnapshot<Root> {
    /// Create a materialized invalidation snapshot.
    pub fn new(
        element: Root,
        state: Option<ElementState>,
        custom_states: Option<Vec<String>>,
        changed_attributes: Vec<String>,
        attributes: Vec<LightmountStyleInvalidationSnapshotAttribute>,
    ) -> (snapshot: Self)
        ensures
            snapshot == (LightmountStyleInvalidationSnapshot {
                element,
                state,
                custom_states,
                changed_attributes,
                attributes,
            }),
    {
        Self { element, state, custom_states, changed_attributes, attributes }
    }

    /// Return the element this snapshot belongs to.
    pub fn element(&self) -> (element: Root)
        ensures
            element == self.element,
    {
        self.element
    }

    /// Return the old pseudo-class state, when captured.
    pub fn state(&self) -> (state: Option<ElementState>)
        ensures
            state == self.state,
    {
        self.state
    }

    /// Return the old custom-state set, when captured.
    pub fn custom_states(&self) -> (states: Option<&[String]>)
        ensures
            states is Some <==> self.custom_states is Some,
            states matches Some(states) ==> states@ == self.custom_states->0@,
    {
        match &self.custom_states {
            Some(states) => Some(states.as_slice()),
            None => None,
        }
    }

    /// Return old attribute values after applying captured mutation facts.
    pub fn attributes(&self) -> (attributes: &[LightmountStyleInvalidationSnapshotAttribute])
        ensures
            attributes@ == self.attributes@,
    {
        self.attributes.as_slice()
    }

    /// Return attribute local names changed by this mutation.
    pub fn changed_attributes(&self) -> (names: &[String])
        ensures
            names@ == self.changed_attributes@,
    {
        self.changed_attributes.as_slice()
    }
}

} // verus!
