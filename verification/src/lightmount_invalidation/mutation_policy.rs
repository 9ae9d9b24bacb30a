//! Which mutations the retained invalidator can represent, and the
//! conservative roots for those that it cannot.

use vstd::prelude::*;

use super::element_state::{
    ElementState, CHECKED, DEFINED, INDETERMINATE, MUTED, PAUSED, PLACEHOLDER_SHOWN, SEEKING,
};
use super::ordered_set::{Keyed, OrderedSet};
use super::reasons::LightmountSourceInvalidationFallbackReason;
use super::text::{same_text, text_starts_with};

verus! {

/// Return whether an attribute mutation can be represented by the retained
/// source-local invalidator.
pub fn lightmount_attribute_change_can_use_retained_invalidator(
    _attribute_name: &str,
    has_non_css_runtime_side_effect: bool,
) -> (can: bool)
    ensures
        can == !has_non_css_runtime_side_effect,
{
    !has_non_css_runtime_side_effect
}

/// Whether an attribute has no effect of its own beyond its selectors.
pub open spec fn skips_fallback_without_dependency(attribute_name: Seq<char>) -> bool {
    ||| attribute_name == "class"@
    ||| attribute_name == "dir"@
    ||| attribute_name == "lang"@
    ||| "data-"@.is_prefix_of(attribute_name)
    ||| "aria-"@.is_prefix_of(attribute_name)
}

/// Return whether an attribute mutation may avoid fallback roots once a
/// retained dependency path is available.
pub fn lightmount_attribute_change_can_skip_fallback_without_dependency(
    attribute_name: &str,
) -> (can: bool)
    ensures
        can == skips_fallback_without_dependency(attribute_name@),
{
    same_text(attribute_name, "class") || same_text(attribute_name, "dir") || same_text(
        attribute_name,
        "lang",
    ) || text_starts_with(attribute_name, "data-") || text_starts_with(attribute_name, "aria-")
}

/// Runtime mutation facts used to select conservative source-local fallback
/// roots.
#[derive(Copy, Debug, PartialEq, Eq)]
pub enum LightmountRuntimeFallbackRootInput<'a, Root> {
    /// Attribute mutation fallback policy.
    Attribute {
        /// Mutated element.
        element: Root,
        /// Mutated attribute local name.
        attribute_name: &'a str,
        /// Whether dependency metadata reported a relevant dependency.
        has_dependency_change: bool,
        /// Whether this attribute also has non-CSS runtime side effects.
        has_non_css_runtime_side_effect: bool,
    },
    /// Child-list mutation fallback policy.
    ChildList {
        /// Nodes added by the mutation.
        added_nodes: &'a [Root],
    },
    /// Slot-assignment mutation fallback policy.
    SlotAssignment {
        /// Mutated slot element.
        slot: Root,
        /// Whether previous and current assigned-node snapshots are available.
        has_assignment_snapshot: bool,
    },
    /// Newly connected subtree fallback policy.
    ConnectedSubtree {
        /// Connected subtree root.
        root: Root,
    },
    /// Mutation kind that does not need source-local fallback roots.
    OtherMutation,
}

impl<'a, Root: Copy> Clone for LightmountRuntimeFallbackRootInput<'a, Root> {
    fn clone(&self) -> (copy: Self)
        ensures
            copy == *self,
    {
        *self
    }
}

/// Runtime-owned resolver for DOM-specific fallback roots.
pub trait LightmountRuntimeFallbackRootResolver<Root> {
    /// The root that stands for an unknown assignment of a slot.
    open spec fn slot_root(&self, slot: Root) -> Root {
        slot
    }

    /// Return the conservative fallback root for an unknown slot assignment.
    fn unknown_slot_assignment_fallback_root(&self, slot: Root) -> (root: Root)
        ensures
            root == self.slot_root(slot),
    ;
}

impl<'a, Root> LightmountRuntimeFallbackRootInput<'a, Root> {
    /// The roots that this mutation asks for, where `resolve` gives the root
    /// for an unknown slot assignment.
    pub open spec fn requested_roots(
        self,
        only_child_lists: bool,
        resolve: spec_fn(Root) -> Root,
    ) -> Seq<Root> {
        match self {
            Self::Attribute {
                element,
                attribute_name,
                has_dependency_change,
                has_non_css_runtime_side_effect,
            } => if !has_non_css_runtime_side_effect && has_dependency_change
                && skips_fallback_without_dependency(attribute_name@) {
                seq![]
            } else {
                seq![element]
            },
            Self::ChildList { added_nodes } => if only_child_lists {
                seq![]
            } else {
                added_nodes@
            },
            Self::SlotAssignment { slot, has_assignment_snapshot } => if has_assignment_snapshot {
                seq![]
            } else {
                seq![resolve(slot)]
            },
            Self::ConnectedSubtree { root } => seq![root],
            Self::OtherMutation => seq![],
        }
    }
}

/// Whether the batch holds child-list mutations and nothing else.
pub open spec fn only_child_list_inputs<'a, Root>(
    inputs: Seq<LightmountRuntimeFallbackRootInput<'a, Root>>,
) -> bool {
    &&& inputs.len() > 0
    &&& forall|i: int| 0 <= i < inputs.len() ==> #[trigger] inputs[i] is ChildList
}

/// The roots that the mutations of a batch ask for, in order.
pub open spec fn requested_roots_of_inputs<'a, Root>(
    inputs: Seq<LightmountRuntimeFallbackRootInput<'a, Root>>,
    only_child_lists: bool,
    resolve: spec_fn(Root) -> Root,
) -> Seq<Root>
    decreases inputs.len(),
{
    if inputs.len() == 0 {
        seq![]
    } else {
        requested_roots_of_inputs(inputs.drop_last(), only_child_lists, resolve)
            + inputs.last().requested_roots(only_child_lists, resolve)
    }
}

/// Build conservative source-local fallback roots with mutation-time context.
///
/// This owns the CSS-facing fallback policy and de-duplication. The runtime
/// resolver keeps DOM traversal and shadow-host lookup to itself.
pub fn lightmount_runtime_fallback_roots_for_mutation_inputs<
    'a,
    Root: Keyed,
    Resolver: LightmountRuntimeFallbackRootResolver<Root>,
>(inputs: Vec<LightmountRuntimeFallbackRootInput<'a, Root>>, resolver: &Resolver) -> (roots: Vec<
    Root,
>)
    ensures
        roots@ == super::ordered_set::extend_unique(
            Seq::<Root>::empty(),
            requested_roots_of_inputs(
                inputs@,
                only_child_list_inputs(inputs@),
                |slot: Root| resolver.slot_root(slot),
            ),
        ),
        roots@.no_duplicates(),
{
    let mut all_inputs_are_child_list = inputs.len() > 0;
    let mut index: usize = 0;
    while index < inputs.len()
        invariant
            index <= inputs.len(),
            all_inputs_are_child_list <==> inputs.len() > 0 && forall|i: int|
                0 <= i < index ==> #[trigger] inputs@[i] is ChildList,
        decreases inputs.len() - index,
    {
        if !matches!(inputs[index], LightmountRuntimeFallbackRootInput::ChildList { .. }) {
            all_inputs_are_child_list = false;
        }
        index = index + 1;
    }
    let ghost resolve = |slot: Root| resolver.slot_root(slot);
    let mut roots: OrderedSet<Root> = OrderedSet::new();
    let mut index: usize = 0;
    assert(inputs@.take(0) =~= Seq::empty());
    while index < inputs.len()
        invariant
            index <= inputs.len(),
            all_inputs_are_child_list == only_child_list_inputs(inputs@),
            resolve == (|slot: Root| resolver.slot_root(slot)),
            roots@ == super::ordered_set::extend_unique(
                Seq::<Root>::empty(),
                requested_roots_of_inputs(
                    inputs@.take(index as int),
                    all_inputs_are_child_list,
                    resolve,
                ),
            ),
        decreases inputs.len() - index,
    {
        let ghost before = roots@;
        let input = inputs[index];
        let ghost requested = input.requested_roots(all_inputs_are_child_list, resolve);
        match input {
            LightmountRuntimeFallbackRootInput::Attribute {
                element,
                attribute_name,
                has_dependency_change,
                has_non_css_runtime_side_effect,
            } => {
                let skips = lightmount_attribute_change_can_use_retained_invalidator(
                    attribute_name,
                    has_non_css_runtime_side_effect,
                ) && has_dependency_change
                    && lightmount_attribute_change_can_skip_fallback_without_dependency(
                    attribute_name,
                );
                if !skips {
                    roots.insert(element);
                }
            },
            LightmountRuntimeFallbackRootInput::ChildList { added_nodes } => {
                if !all_inputs_are_child_list {
                    roots.extend_from_slice(added_nodes);
                }
            },
            LightmountRuntimeFallbackRootInput::SlotAssignment { slot, has_assignment_snapshot } => {
                if !has_assignment_snapshot {
                    roots.insert(resolver.unknown_slot_assignment_fallback_root(slot));
                }
            },
            LightmountRuntimeFallbackRootInput::ConnectedSubtree { root } => {
                roots.insert(root);
            },
            LightmountRuntimeFallbackRootInput::OtherMutation => {},
        }
        proof {
            if requested.len() == 1 {
                super::ordered_set::lemma_extend_unique_one(before, requested[0]);
                assert(requested =~= seq![requested[0]]);
            }
            assert(roots@ == super::ordered_set::extend_unique(before, requested));
            let next = inputs@.take(index + 1);
            assert(next.drop_last() =~= inputs@.take(index as int));
            assert(next.last() == inputs@[index as int]);
            super::ordered_set::lemma_extend_unique_concat(
                Seq::<Root>::empty(),
                requested_roots_of_inputs(
                    inputs@.take(index as int),
                    all_inputs_are_child_list,
                    resolve,
                ),
                requested,
            );
        }
        index = index + 1;
    }
    assert(inputs@.take(inputs@.len() as int) =~= inputs@);
    roots.to_vec()
}

/// A batch of child-list mutations alone asks for no fallback roots.
pub proof fn lemma_child_list_batch_has_no_roots<'a, Root>(
    inputs: Seq<LightmountRuntimeFallbackRootInput<'a, Root>>,
    resolve: spec_fn(Root) -> Root,
)
    requires
        only_child_list_inputs(inputs),
    ensures
        requested_roots_of_inputs(inputs, true, resolve) == Seq::<Root>::empty(),
    decreases inputs.len(),
{
    assert(inputs.last() is ChildList);
    if inputs.len() > 1 {
        let rest = inputs.drop_last();
        assert forall|i: int| 0 <= i < rest.len() implies #[trigger] rest[i] is ChildList by {
            assert(inputs[i] is ChildList);
        }
        lemma_child_list_batch_has_no_roots(rest, resolve);
    } else {
        assert(inputs.drop_last() =~= Seq::empty());
        assert(requested_roots_of_inputs(inputs.drop_last(), true, resolve) =~= Seq::empty());
    }
    assert(requested_roots_of_inputs(inputs, true, resolve) =~= Seq::empty());
}

/// In a batch that is not of child-list mutations alone, every root that one of
/// the mutations asks for is among the fallback roots.
pub proof fn lemma_mixed_batch_keeps_roots<'a, Root>(
    inputs: Seq<LightmountRuntimeFallbackRootInput<'a, Root>>,
    resolve: spec_fn(Root) -> Root,
    index: int,
    root: Root,
)
    requires
        0 <= index < inputs.len(),
        inputs[index].requested_roots(false, resolve).contains(root),
    ensures
        requested_roots_of_inputs(inputs, false, resolve).contains(root),
    decreases inputs.len(),
{
    let rest = inputs.drop_last();
    let before = requested_roots_of_inputs(rest, false, resolve);
    let last = inputs.last().requested_roots(false, resolve);
    if index == inputs.len() - 1 {
        let i = last.index_of(root);
        assert((before + last)[before.len() + i] == root);
    } else {
        assert(rest[index] == inputs[index]);
        lemma_mixed_batch_keeps_roots(rest, resolve, index, root);
        let i = before.index_of(root);
        assert((before + last)[i] == root);
    }
}

/// Whether a state change is one flag that alone decides what matched before.
pub open spec fn is_exact_state_change(state: ElementState) -> bool {
    ||| state.bits == CHECKED
    ||| state.bits == INDETERMINATE
    ||| state.bits == PLACEHOLDER_SHOWN
    ||| state.bits == DEFINED
    ||| state.bits == PAUSED
    ||| state.bits == MUTED
    ||| state.bits == SEEKING
}

/// Return whether a state mutation can be represented by the retained
/// source-local invalidator.
pub fn lightmount_state_change_can_use_retained_invalidator(
    state: ElementState,
    old_state: Option<ElementState>,
) -> (can: bool)
    ensures
        can == (old_state is Some || is_exact_state_change(state)),
{
    old_state.is_some() || lightmount_retained_exact_state_change(state).is_some()
}

/// Return the source fallback reason for a state mutation that cannot use the
/// retained source-local invalidator.
pub fn lightmount_source_fallback_reason_for_unretained_state_change(
    state: ElementState,
    old_state: Option<ElementState>,
) -> (reason: Option<LightmountSourceInvalidationFallbackReason>)
    ensures
        reason == if old_state is Some || is_exact_state_change(state) {
            None
        } else {
            Some(LightmountSourceInvalidationFallbackReason::UnsupportedStateDependency)
        },
{
    if lightmount_state_change_can_use_retained_invalidator(state, old_state) {
        None
    } else {
        Some(LightmountSourceInvalidationFallbackReason::UnsupportedStateDependency)
    }
}

/// Return the state where it is a single flag that the retained invalidator
/// can answer for without a snapshot of the old state.
pub fn lightmount_retained_exact_state_change(state: ElementState) -> (exact: Option<ElementState>)
    ensures
        exact == if is_exact_state_change(state) {
            Some(state)
        } else {
            None
        },
{
    let bits: u64 = state.bits();
    if bits == CHECKED || bits == INDETERMINATE || bits == PLACEHOLDER_SHOWN || bits == DEFINED
        || bits == PAUSED || bits == MUTED || bits == SEEKING {
        Some(state)
    } else {
        None
    }
}

/// A state change that the retained invalidator answers for is a single flag:
/// no flag is left once the lowest one is cleared.
pub proof fn lemma_exact_state_change_is_one_flag(state: ElementState)
    requires
        is_exact_state_change(state),
    ensures
        state.bits != 0,
        state.bits & (state.bits - 1) as u64 == 0,
{
    assert(0x20u64 & 0x1fu64 == 0 && 0x40u64 & 0x3fu64 == 0 && 0x80u64 & 0x7fu64 == 0 && 0x20000u64
        & 0x1ffffu64 == 0 && 0x400000u64 & 0x3fffffu64 == 0 && 0x800000u64 & 0x7fffffu64 == 0
        && 0x1000000u64 & 0xffffffu64 == 0) by (bit_vector);
}

} // verus!
