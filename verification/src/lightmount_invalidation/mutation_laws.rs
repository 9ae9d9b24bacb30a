//! Laws of what a mutation asks for: its fallback roots, its queries and the
//! boundaries of a changed child list.

use vstd::prelude::*;

use super::child_list::{
    ChildListBuilderView, ChildListCall, LightmountChildListSiblingBoundaryKind,
    LightmountChildListSiblingBoundaryPlan, LightmountRetainedStyleChildListInvalidationQueries,
};
use super::element_state::ElementState;
use super::mutation_policy::LightmountRuntimeFallbackRootInput;
use super::query::{
    LightmountRetainedStyleInvalidationQuery, LightmountRetainedStyleSiblingTraversal, QueryShape,
    RetainedQueryView,
};
use super::request::{
    LightmountElementDependencySnapshot, LightmountRetainedStyleChildListMutationContext,
    LightmountSourceDependencyRequestRequirement,
};
use super::snapshot::MutationSnapshotView;

verus! {

/// Whether a mutation, in a batch that is not of child lists alone where `mixed`
/// holds, makes a root a fallback root.
pub open spec fn asks_for_root<'a, Root>(
    input: LightmountRuntimeFallbackRootInput<'a, Root>,
    mixed: bool,
    resolve: spec_fn(Root) -> Root,
    root: Root,
) -> bool {
    ||| input matches LightmountRuntimeFallbackRootInput::Attribute {
        element,
        attribute_name,
        has_dependency_change,
        has_non_css_runtime_side_effect,
    } && root == element && (has_non_css_runtime_side_effect || !has_dependency_change || !(
    attribute_name@ == "class"@ || attribute_name@ == "dir"@ || attribute_name@ == "lang"@
        || "data-"@.is_prefix_of(attribute_name@) || "aria-"@.is_prefix_of(attribute_name@)))
    ||| input matches LightmountRuntimeFallbackRootInput::ChildList { added_nodes } && mixed
        && added_nodes@.contains(root)
    ||| input matches LightmountRuntimeFallbackRootInput::SlotAssignment {
        slot,
        has_assignment_snapshot,
    } && !has_assignment_snapshot && root == resolve(slot)
    ||| input matches LightmountRuntimeFallbackRootInput::ConnectedSubtree { root: connected }
        && root == connected
}

proof fn lemma_input_asks_for_its_roots<'a, Root>(
    input: LightmountRuntimeFallbackRootInput<'a, Root>,
    mixed: bool,
    resolve: spec_fn(Root) -> Root,
    root: Root,
)
    ensures
        input.requested_roots(!mixed, resolve).contains(root) <==> asks_for_root(
            input,
            mixed,
            resolve,
            root,
        ),
{
    let roots = input.requested_roots(!mixed, resolve);
    if !(input is ChildList) && roots.len() > 0 {
        assert(roots.contains(roots[0]));
    }
}

proof fn lemma_inputs_ask_for_their_roots<'a, Root>(
    inputs: Seq<LightmountRuntimeFallbackRootInput<'a, Root>>,
    mixed: bool,
    resolve: spec_fn(Root) -> Root,
    root: Root,
)
    ensures
        super::mutation_policy::requested_roots_of_inputs(inputs, !mixed, resolve).contains(root)
            <==> exists|i: int|
            0 <= i < inputs.len() && asks_for_root(#[trigger] inputs[i], mixed, resolve, root),
    decreases inputs.len(),
{
    if inputs.len() > 0 {
        let rest = inputs.drop_last();
        let before = super::mutation_policy::requested_roots_of_inputs(rest, !mixed, resolve);
        let last = inputs.last().requested_roots(!mixed, resolve);
        lemma_inputs_ask_for_their_roots(rest, mixed, resolve, root);
        lemma_input_asks_for_its_roots(inputs.last(), mixed, resolve, root);
        super::dependency_laws::lemma_concat_contains(before, last, root);
        if before.contains(root) {
            let i = choose|i: int|
                0 <= i < rest.len() && asks_for_root(#[trigger] rest[i], mixed, resolve, root);
            assert(asks_for_root(inputs[i], mixed, resolve, root));
        }
        if last.contains(root) {
            assert(asks_for_root(inputs[inputs.len() - 1], mixed, resolve, root));
        }
        if exists|i: int|
            0 <= i < inputs.len() && asks_for_root(#[trigger] inputs[i], mixed, resolve, root) {
            let i = choose|i: int|
                0 <= i < inputs.len() && asks_for_root(#[trigger] inputs[i], mixed, resolve, root);
            if i < rest.len() {
                assert(rest[i] == inputs[i]);
            }
        }
    }
}

/// The fallback roots of a batch are those that one of its mutations asks for,
/// each once. Child lists ask for their added nodes only beside another kind of
/// mutation.
pub proof fn lemma_fallback_roots_are_asked_for<'a, Root>(
    inputs: Seq<LightmountRuntimeFallbackRootInput<'a, Root>>,
    resolve: spec_fn(Root) -> Root,
    root: Root,
)
    ensures
        ({
            let mixed = exists|i: int| 0 <= i < inputs.len() && !(#[trigger] inputs[i] is ChildList);
            let roots = super::ordered_set::extend_unique(
                Seq::<Root>::empty(),
                super::mutation_policy::requested_roots_of_inputs(
                    inputs,
                    super::mutation_policy::only_child_list_inputs(inputs),
                    resolve,
                ),
            );
            &&& roots.contains(root) <==> exists|i: int|
                0 <= i < inputs.len() && asks_for_root(#[trigger] inputs[i], mixed, resolve, root)
            &&& roots.no_duplicates()
        }),
{
    let mixed = exists|i: int| 0 <= i < inputs.len() && !(#[trigger] inputs[i] is ChildList);
    let only = super::mutation_policy::only_child_list_inputs(inputs);
    let asked = super::mutation_policy::requested_roots_of_inputs(inputs, only, resolve);
    super::ordered_set::lemma_extend_unique_contains(Seq::<Root>::empty(), asked, root);
    super::ordered_set::lemma_extend_unique_no_duplicates(Seq::<Root>::empty(), asked);
    if inputs.len() > 0 {
        if mixed {
            let i = choose|i: int| 0 <= i < inputs.len() && !(#[trigger] inputs[i] is ChildList);
            assert(!only);
        } else {
            assert forall|i: int| 0 <= i < inputs.len() implies #[trigger] inputs[i] is ChildList by {}
            assert(only);
        }
        assert(only == !mixed);
        lemma_inputs_ask_for_their_roots(inputs, mixed, resolve, root);
    }
}

/// Roots are asked for in the order of the mutations: a further mutation of the
/// same batch only adds roots behind.
pub proof fn lemma_fallback_roots_follow_mutations<'a, Root>(
    inputs: Seq<LightmountRuntimeFallbackRootInput<'a, Root>>,
    last: LightmountRuntimeFallbackRootInput<'a, Root>,
    only_child_lists: bool,
    resolve: spec_fn(Root) -> Root,
)
    ensures
        super::mutation_policy::requested_roots_of_inputs(
            inputs,
            only_child_lists,
            resolve,
        ).is_prefix_of(
            super::mutation_policy::requested_roots_of_inputs(
                inputs.push(last),
                only_child_lists,
                resolve,
            ),
        ),
{
    assert(inputs.push(last).drop_last() =~= inputs);
}

/// A state change can do without the old state where it is one of the flags
/// checked, indeterminate, placeholder shown, defined, paused, muted and
/// seeking, alone.
pub proof fn lemma_exact_state_changes_by_flag(state: ElementState)
    ensures
        super::mutation_policy::is_exact_state_change(state) <==> {
            ||| state.bits == 0x20
            ||| state.bits == 0x40
            ||| state.bits == 0x80
            ||| state.bits == 0x20000
            ||| state.bits == 0x400000
            ||| state.bits == 0x800000
            ||| state.bits == 0x1000000
        },
{
}

/// Two states meet where they have a flag in common, whichever is asked of.
pub proof fn lemma_states_meet_in_a_flag(one: ElementState, two: ElementState, flag: u64)
    ensures
        one.meets(two.bits) <==> two.meets(one.bits),
        flag != 0 && one.bits & flag == flag && two.bits & flag == flag ==> one.meets(two.bits),
        one.bits & two.bits == 0 <==> !one.meets(two.bits),
        one.spec_is_empty() ==> !one.meets(two.bits),
        one.meets(one.bits) <==> !one.spec_is_empty(),
{
    let a = one.bits;
    let b = two.bits;
    assert(a & b == b & a && (flag != 0 && a & flag == flag && b & flag == flag ==> a & b != 0) && (a
        == 0 ==> a & b == 0) && (a & a == a)) by (bit_vector);
}

/// A query needs structural dependencies where all its requests do, and direct
/// previous-sibling dependencies where one does.
pub proof fn lemma_merged_requirements_by_gate(
    first: LightmountSourceDependencyRequestRequirement,
    second: LightmountSourceDependencyRequestRequirement,
)
    ensures
        ({
            let merged = first.merge(second);
            &&& merged.requires_child_list_structural_dependency
                <==> first.requires_child_list_structural_dependency
                && second.requires_child_list_structural_dependency
            &&& merged.requires_relative_previous_sibling_dependency
                <==> first.requires_relative_previous_sibling_dependency
                || second.requires_relative_previous_sibling_dependency
        }),
{
}

/// Whether one of these texts holds these characters.
pub open spec fn some_text_is(texts: Seq<String>, text: Seq<char>) -> bool {
    exists|i: int| 0 <= i < texts.len() && (#[trigger] texts[i])@ == text
}

/// Where queries of a shape stand among the queries of one element.
pub open spec fn place_of_shape(shape: QueryShape) -> int {
    match shape {
        QueryShape::Universal => 0,
        QueryShape::Type(_) => 1,
        QueryShape::State(_) => 2,
        QueryShape::Attribute(_) => 3,
        QueryShape::Class(_) => 4,
        QueryShape::Id(_) => 5,
        QueryShape::CustomState(_) => 6,
    }
}

/// An element asks about each of its keys under the key's own shape and about
/// nothing else: its type, its state where it has one, its attributes, classes,
/// id and custom states, and all elements where that is wanted.
pub proof fn lemma_elements_ask_about_their_keys<Root: Copy>(
    element: LightmountElementDependencySnapshot<Root>,
    universal: bool,
    shape: QueryShape,
)
    ensures
        element.shapes(universal).contains(shape) <==> match shape {
            QueryShape::Universal => universal,
            QueryShape::Type(name) => name == element.local_name@,
            QueryShape::State(state) => state == element.state && state.bits != 0,
            QueryShape::Attribute(name) => some_text_is(element.attribute_names@, name),
            QueryShape::Class(name) => some_text_is(element.class_tokens@, name),
            QueryShape::Id(id) => element.id matches Some(own) && own@ == id,
            QueryShape::CustomState(name) => some_text_is(element.custom_states@, name),
        },
{
    let all = if universal {
        seq![QueryShape::Universal]
    } else {
        seq![]
    };
    let types = seq![QueryShape::Type(element.local_name@)];
    let states = if element.state.spec_is_empty() {
        seq![]
    } else {
        seq![QueryShape::State(element.state)]
    };
    let attributes = element.attribute_names@.map_values(
        |name: String| QueryShape::Attribute(name@),
    );
    let classes = element.class_tokens@.map_values(|token: String| QueryShape::Class(token@));
    let ids = match element.id {
        Some(id) => seq![QueryShape::Id(id@)],
        None => seq![],
    };
    let customs = element.custom_states@.map_values(|name: String| QueryShape::CustomState(name@));
    super::dependency_laws::lemma_concat_contains(all, types, shape);
    super::dependency_laws::lemma_concat_contains(all + types, states, shape);
    super::dependency_laws::lemma_concat_contains(all + types + states, attributes, shape);
    super::dependency_laws::lemma_concat_contains(
        all + types + states + attributes,
        classes,
        shape,
    );
    super::dependency_laws::lemma_concat_contains(
        all + types + states + attributes + classes,
        ids,
        shape,
    );
    super::dependency_laws::lemma_concat_contains(
        all + types + states + attributes + classes + ids,
        customs,
        shape,
    );
    if all.len() > 0 {
        assert(all.contains(all[0]));
    }
    assert(types.contains(types[0]));
    if states.len() > 0 {
        assert(states.contains(states[0]));
    }
    if ids.len() > 0 {
        assert(ids.contains(ids[0]));
    }
    match shape {
        QueryShape::Attribute(name) => {
            if some_text_is(element.attribute_names@, name) {
                let i = choose|i: int|
                    0 <= i < element.attribute_names@.len() && (
                    #[trigger] element.attribute_names@[i])@ == name;
                assert(attributes[i] == shape);
            }
        },
        QueryShape::Class(name) => {
            if some_text_is(element.class_tokens@, name) {
                let i = choose|i: int|
                    0 <= i < element.class_tokens@.len() && (#[trigger] element.class_tokens@[i])@
                        == name;
                assert(classes[i] == shape);
            }
        },
        QueryShape::CustomState(name) => {
            if some_text_is(element.custom_states@, name) {
                let i = choose|i: int|
                    0 <= i < element.custom_states@.len() && (
                    #[trigger] element.custom_states@[i])@ == name;
                assert(customs[i] == shape);
            }
        },
        _ => {},
    }
}

/// The queries of an element come by kind, in a fixed order of kinds. Each is of
/// the element itself, with the sibling context that was given.
pub proof fn lemma_queries_of_elements_come_by_kind<Root: Copy>(
    element: LightmountElementDependencySnapshot<Root>,
    traversal: Option<LightmountRetainedStyleSiblingTraversal<Root>>,
    universal: bool,
)
    ensures
        ({
            let queries = element.queries(traversal, universal);
            let shapes = element.shapes(universal);
            &&& queries.len() == shapes.len()
            &&& forall|i: int|
                0 <= i < queries.len() ==> {
                    &&& (#[trigger] queries[i]).root == element.handle
                    &&& queries[i].shape == shapes[i]
                    &&& queries[i].sibling_traversal == traversal
                }
            &&& forall|i: int, j: int|
                0 <= i <= j < queries.len() ==> place_of_shape((#[trigger] queries[i]).shape)
                    <= place_of_shape((#[trigger] queries[j]).shape)
        }),
{
    let shapes = element.shapes(universal);
    assert forall|i: int, j: int| 0 <= i <= j < shapes.len() implies place_of_shape(
        #[trigger] shapes[i],
    ) <= place_of_shape(#[trigger] shapes[j]) by {}
}

/// A query has a fallback context in a mutation where its root is the parent, an
/// added or removed node, a neighbour of the changed range or a removed element
/// that was captured. The context has the mutation's parent, and the siblings
/// that the query knows of, or else those of the mutation.
pub proof fn lemma_context_is_of_mutation_and_query<'a, Root: super::ordered_set::Keyed>(
    mutation: LightmountRetainedStyleChildListMutationContext<'a, Root>,
    query: LightmountRetainedStyleInvalidationQuery<Root>,
)
    ensures
        mutation.context_of(query) is Some <==> {
            ||| query.root == mutation.parent
            ||| mutation.added_nodes@.contains(query.root)
            ||| mutation.removed_nodes@.contains(query.root)
            ||| mutation.previous_sibling == Some(query.root)
            ||| mutation.next_sibling == Some(query.root)
            ||| exists|i: int|
                0 <= i < mutation.removed_element_snapshots@.len() && query.root == (
                #[trigger] mutation.removed_element_snapshots@[i]).handle
        },
        mutation.context_of(query) matches Some(context) ==> {
            &&& context.parent == Some(mutation.parent)
            &&& context.previous_sibling == match query.sibling_traversal {
                Some(traversal) => if traversal.previous_sibling is Some {
                    traversal.previous_sibling
                } else {
                    mutation.previous_sibling
                },
                None => mutation.previous_sibling,
            }
            &&& context.next_sibling == match query.sibling_traversal {
                Some(traversal) => if traversal.next_sibling is Some {
                    traversal.next_sibling
                } else {
                    mutation.next_sibling
                },
                None => mutation.next_sibling,
            }
        },
{
}

/// A sibling that the batch itself changed gives no plan. The sibling before an
/// added range is a base root where the range stands at the end; the siblings
/// after a range are base roots; those before it are cleanup roots; an earlier
/// sibling is a cleanup root alone.
pub proof fn lemma_boundaries_are_planned_by_kind<Root>(
    root: Root,
    changed: bool,
    kind: LightmountChildListSiblingBoundaryKind,
)
    ensures
        super::child_list::boundary_plan(None::<Root>, changed, kind) is None,
        super::child_list::boundary_plan(Some(root), changed, kind) is None <==> changed,
        super::child_list::boundary_plan(Some(root), changed, kind) matches Some(plan) ==> {
            let base = plan.include_base_root;
            let empty_target = plan.include_empty_target_fallback_root;
            let cleanup = plan.include_relative_previous_sibling_cleanup_root;
            &&& plan.root == root
            &&& match kind {
                LightmountChildListSiblingBoundaryKind::AddedPreviousSibling {
                    inserted_at_end,
                } => base == inserted_at_end && empty_target && cleanup,
                LightmountChildListSiblingBoundaryKind::AddedNextSibling => base && empty_target
                    && !cleanup,
                LightmountChildListSiblingBoundaryKind::RemovedPreviousSibling => base
                    && empty_target && cleanup,
                LightmountChildListSiblingBoundaryKind::RemovedNextSibling => base && empty_target
                    && !cleanup,
                LightmountChildListSiblingBoundaryKind::RemovedEarlierSibling => !base
                    && !empty_target && cleanup,
            }
        },
{
}

/// Applying a plan adds its root behind the groups that the plan names, unless
/// the group has it, and leaves the other groups and the queries alone.
pub proof fn lemma_plans_add_to_their_groups<Root>(
    plan: LightmountChildListSiblingBoundaryPlan<Root>,
    builder: ChildListBuilderView<Root>,
    root: Root,
)
    ensures
        ({
            let after = plan.applied(builder);
            &&& after.rows == builder.rows
            &&& after.base_roots.contains(root) <==> builder.base_roots.contains(root)
                || plan.include_base_root && root == plan.root
            &&& builder.base_roots.is_prefix_of(after.base_roots)
            &&& after.empty_target_fallback_roots.contains(root)
                <==> builder.empty_target_fallback_roots.contains(root)
                || plan.include_empty_target_fallback_root && root == plan.root
            &&& builder.empty_target_fallback_roots.is_prefix_of(after.empty_target_fallback_roots)
            &&& after.relative_previous_sibling_cleanup_roots.contains(root)
                <==> builder.relative_previous_sibling_cleanup_roots.contains(root)
                || plan.include_relative_previous_sibling_cleanup_root && root == plan.root
            &&& builder.relative_previous_sibling_cleanup_roots.is_prefix_of(
                after.relative_previous_sibling_cleanup_roots,
            )
        }),
{
    super::lists::lemma_contains_push(builder.base_roots, plan.root, root);
    super::lists::lemma_contains_push(builder.empty_target_fallback_roots, plan.root, root);
    super::lists::lemma_contains_push(
        builder.relative_previous_sibling_cleanup_roots,
        plan.root,
        root,
    );
}

/// A batch hands a sink each of its queries with its requirement, in order, and
/// then its base roots, its empty-target roots and its cleanup roots.
pub proof fn lemma_batches_hand_on_everything<Root>(
    batch: LightmountRetainedStyleChildListInvalidationQueries<Root>,
)
    ensures
        ({
            let calls = batch.calls();
            let rows = batch.queries@;
            &&& calls.len() == rows.len() + 3
            &&& forall|i: int|
                0 <= i < rows.len() ==> #[trigger] calls[i] == ChildListCall::Query(
                    rows[i].query,
                    rows[i].requirement,
                )
            &&& calls[rows.len() as int] == ChildListCall::BaseRoots(batch.base_roots@)
            &&& calls[rows.len() as int + 1] == ChildListCall::EmptyTargetFallbackRoots(
                batch.empty_target_fallback_roots@,
            )
            &&& calls[rows.len() as int + 2] == ChildListCall::RelativePreviousSiblingCleanupRoots(
                batch.relative_previous_sibling_cleanup_roots@,
            )
        }),
{
}

/// Whether a list of old values has one under this name.
pub open spec fn has_old_value(
    entries: Seq<(Seq<char>, Option<Seq<char>>)>,
    name: Seq<char>,
) -> bool {
    exists|i: int| 0 <= i < entries.len() && (#[trigger] entries[i]).0 == name
}

/// Whether this is the first value of a list under its name.
pub open spec fn is_first_value(
    entries: Seq<(Seq<char>, Option<Seq<char>>)>,
    entry: (Seq<char>, Option<Seq<char>>),
) -> bool {
    exists|i: int|
        0 <= i < entries.len() && #[trigger] entries[i] == entry && !has_old_value(
            entries.take(i),
            entry.0,
        )
}

/// What is recorded is what was recorded before and, under each name that had no
/// value, the first that comes.
pub proof fn lemma_first_values_are_recorded(
    entries: Seq<(Seq<char>, Option<Seq<char>>)>,
    more: Seq<(Seq<char>, Option<Seq<char>>)>,
    entry: (Seq<char>, Option<Seq<char>>),
)
    ensures
        super::snapshot::first_values_kept(entries, more).contains(entry) <==> entries.contains(
            entry,
        ) || !has_old_value(entries, entry.0) && is_first_value(more, entry),
        has_old_value(super::snapshot::first_values_kept(entries, more), entry.0)
            <==> has_old_value(entries, entry.0) || has_old_value(more, entry.0),
    decreases more.len(),
{
    if more.len() > 0 {
        let rest = more.drop_last();
        let last = more.last();
        let before = super::snapshot::first_values_kept(entries, rest);
        let after = super::snapshot::first_values_kept(entries, more);
        lemma_first_values_are_recorded(entries, rest, entry);
        lemma_first_values_are_recorded(entries, rest, last);
        super::lists::lemma_contains_push(before, last, entry);
        assert(rest =~= more.take(more.len() - 1));
        assert(last == (last.0, last.1));
        assert(has_old_value(before, last.0) ==> after == before);
        assert(!has_old_value(before, last.0) ==> after == before.push(last));
        assert(has_old_value(more, entry.0) <==> has_old_value(rest, entry.0) || last.0 == entry.0)
            by {
            if has_old_value(rest, entry.0) {
                let i = choose|i: int| 0 <= i < rest.len() && (#[trigger] rest[i]).0 == entry.0;
                assert(more[i].0 == entry.0);
            }
            if last.0 == entry.0 {
                assert(more[more.len() - 1].0 == entry.0);
            }
            if has_old_value(more, entry.0) {
                let i = choose|i: int| 0 <= i < more.len() && (#[trigger] more[i]).0 == entry.0;
                if i < rest.len() {
                    assert(rest[i].0 == entry.0);
                }
            }
        }
        assert(is_first_value(more, entry) <==> is_first_value(rest, entry) || last == entry
            && !has_old_value(rest, entry.0)) by {
            if is_first_value(rest, entry) {
                let i = choose|i: int|
                    0 <= i < rest.len() && #[trigger] rest[i] == entry && !has_old_value(
                        rest.take(i),
                        entry.0,
                    );
                assert(more.take(i) =~= rest.take(i));
                assert(more[i] == entry);
            }
            if last == entry && !has_old_value(rest, entry.0) {
                assert(more[more.len() - 1] == entry);
            }
            if is_first_value(more, entry) {
                let i = choose|i: int|
                    0 <= i < more.len() && #[trigger] more[i] == entry && !has_old_value(
                        more.take(i),
                        entry.0,
                    );
                if i < rest.len() {
                    assert(more.take(i) =~= rest.take(i));
                    assert(rest[i] == entry);
                }
            }
        }
        assert(has_old_value(after, entry.0) <==> has_old_value(before, entry.0) || last.0
            == entry.0) by {
            if has_old_value(before, entry.0) {
                let i = choose|i: int| 0 <= i < before.len() && (#[trigger] before[i]).0 == entry.0;
                assert(after[i].0 == entry.0);
            }
            if last.0 == entry.0 && !has_old_value(before, last.0) {
                assert(after[before.len() as int].0 == entry.0);
            }
            if has_old_value(after, entry.0) {
                let i = choose|i: int| 0 <= i < after.len() && (#[trigger] after[i]).0 == entry.0;
                if i < before.len() {
                    assert(before[i].0 == entry.0);
                }
            }
        }
    }
}

/// A merged snapshot has the state of the later one, and its custom states,
/// where the earlier one has none.
pub proof fn lemma_merged_snapshots_fill_in(
    first: MutationSnapshotView,
    second: MutationSnapshotView,
    entry: (Seq<char>, Option<Seq<char>>),
)
    ensures
        first.state is None ==> first.merge(second).state == second.state,
        first.state is Some ==> first.merge(second).state == first.state,
        first.custom_states is None ==> first.merge(second).custom_states == second.custom_states,
        first.custom_states is Some ==> first.merge(second).custom_states == first.custom_states,
        first.merge(second).attributes.contains(entry) <==> first.attributes.contains(entry)
            || !has_old_value(first.attributes, entry.0) && is_first_value(
            second.attributes,
            entry,
        ),
{
    lemma_first_values_are_recorded(first.attributes, second.attributes, entry);
}

} // verus!
