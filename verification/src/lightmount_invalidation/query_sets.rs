//! Insertion-ordered collections of retained queries.

use std::marker::PhantomData;

use indexmap::{IndexMap, IndexSet};
use vstd::prelude::*;

use super::element_state::ElementState;
use super::indexed::{
    copy_query_rows, insert_query_key, insert_query_row, new_query_rows, new_query_set,
    query_key_at, query_key_count, query_row_at, query_row_count, query_row_value, QueryKey,
    QueryKeyView,
};
use super::ordered_set::Keyed;
use super::query::{
    LightmountRetainedStyleInvalidationQuery, LightmountRetainedStyleInvalidationQueryKind,
    LightmountRetainedStyleSiblingTraversal, QueryShape, RetainedQueryView,
};
use super::request::LightmountSourceDependencyRequestRequirement;

verus! {

/// The key of an optional root.
pub open spec fn optional_key<Root: Keyed>(root: Option<Root>) -> Option<u64> {
    match root {
        Some(root) => Some(root.key()),
        None => None,
    }
}

/// The optional root that an optional key belongs to.
pub open spec fn optional_root<Root: Keyed>(key: Option<u64>) -> Option<Root> {
    match key {
        Some(key) => Some(Root::of_key(key)),
        None => None,
    }
}

/// The key of a query.
pub open spec fn key_of_query<Root: Keyed>(query: RetainedQueryView<Root>) -> QueryKeyView {
    let (tag, text, bits) = match query.shape {
        QueryShape::Universal => (0u8, Seq::empty(), 0u64),
        QueryShape::Type(local_name) => (1u8, local_name, 0u64),
        QueryShape::Attribute(name) => (2u8, name, 0u64),
        QueryShape::Class(token) => (3u8, token, 0u64),
        QueryShape::Id(value) => (4u8, value, 0u64),
        QueryShape::State(state) => (5u8, Seq::empty(), state.bits),
        QueryShape::CustomState(name) => (6u8, name, 0u64),
    };
    (
        query.root.key(),
        tag,
        text,
        bits,
        match query.sibling_traversal {
            Some(traversal) => Some(
                (
                    optional_key(traversal.previous_sibling),
                    optional_key(traversal.next_sibling),
                ),
            ),
            None => None,
        },
    )
}

/// The query that a key belongs to.
pub open spec fn query_of_key<Root: Keyed>(key: QueryKeyView) -> RetainedQueryView<Root> {
    RetainedQueryView {
        root: Root::of_key(key.0),
        shape: match key.1 {
            0 => QueryShape::Universal,
            1 => QueryShape::Type(key.2),
            2 => QueryShape::Attribute(key.2),
            3 => QueryShape::Class(key.2),
            4 => QueryShape::Id(key.2),
            5 => QueryShape::State(ElementState { bits: key.3 }),
            _ => QueryShape::CustomState(key.2),
        },
        sibling_traversal: match key.4 {
            Some((previous, next)) => Some(
                LightmountRetainedStyleSiblingTraversal {
                    previous_sibling: optional_root(previous),
                    next_sibling: optional_root(next),
                },
            ),
            None => None,
        },
    }
}

/// A query is recovered from its key, so different queries have different
/// keys.
pub proof fn lemma_query_key_round_trip<Root: Keyed>(query: RetainedQueryView<Root>)
    ensures
        query_of_key::<Root>(key_of_query(query)) == query,
{
    query.root.lemma_key_round_trip();
    if let Some(traversal) = query.sibling_traversal {
        if let Some(root) = traversal.previous_sibling {
            root.lemma_key_round_trip();
        }
        if let Some(root) = traversal.next_sibling {
            root.lemma_key_round_trip();
        }
    }
}

/// Return the key of an optional root.
fn key_of_optional<Root: Keyed>(root: Option<Root>) -> (key: Option<u64>)
    ensures
        key == optional_key(root),
{
    match root {
        Some(root) => Some(root.to_key()),
        None => None,
    }
}

/// Return the optional root that an optional key belongs to.
fn root_of_optional<Root: Keyed>(key: Option<u64>) -> (root: Option<Root>)
    ensures
        root == optional_root::<Root>(key),
{
    match key {
        Some(key) => Some(Root::from_key(key)),
        None => None,
    }
}

/// Return the key of a query.
fn encode_query<Root: Keyed>(query: LightmountRetainedStyleInvalidationQuery<Root>) -> (key:
    QueryKey)
    ensures
        super::indexed::query_key_view(key) == key_of_query(query@),
{
    let root: u64 = query.root.to_key();
    let siblings = match query.sibling_traversal {
        Some(traversal) => Some(
            (
                key_of_optional(traversal.previous_sibling),
                key_of_optional(traversal.next_sibling),
            ),
        ),
        None => None,
    };
    match query.kind {
        LightmountRetainedStyleInvalidationQueryKind::Universal => {
            (root, 0, String::new(), 0, siblings)
        },
        LightmountRetainedStyleInvalidationQueryKind::Type { local_name } => {
            (root, 1, local_name, 0, siblings)
        },
        LightmountRetainedStyleInvalidationQueryKind::Attribute { name } => {
            (root, 2, name, 0, siblings)
        },
        LightmountRetainedStyleInvalidationQueryKind::Class { token } => {
            (root, 3, token, 0, siblings)
        },
        LightmountRetainedStyleInvalidationQueryKind::Id { value } => {
            (root, 4, value, 0, siblings)
        },
        LightmountRetainedStyleInvalidationQueryKind::State { state } => {
            (root, 5, String::new(), state.bits(), siblings)
        },
        LightmountRetainedStyleInvalidationQueryKind::CustomState { name } => {
            (root, 6, name, 0, siblings)
        },
    }
}

/// Return the query that a key belongs to.
fn decode_query<Root: Keyed>(key: &QueryKey) -> (query: LightmountRetainedStyleInvalidationQuery<
    Root,
>)
    ensures
        query@ == query_of_key::<Root>(super::indexed::query_key_view(*key)),
{
    let sibling_traversal = match key.4 {
        Some((previous, next)) => Some(
            LightmountRetainedStyleSiblingTraversal {
                previous_sibling: root_of_optional(previous),
                next_sibling: root_of_optional(next),
            },
        ),
        None => None,
    };
    let kind = match key.1 {
        0 => LightmountRetainedStyleInvalidationQueryKind::Universal,
        1 => LightmountRetainedStyleInvalidationQueryKind::Type { local_name: key.2.clone() },
        2 => LightmountRetainedStyleInvalidationQueryKind::Attribute { name: key.2.clone() },
        3 => LightmountRetainedStyleInvalidationQueryKind::Class { token: key.2.clone() },
        4 => LightmountRetainedStyleInvalidationQueryKind::Id { value: key.2.clone() },
        5 => LightmountRetainedStyleInvalidationQueryKind::State {
            state: ElementState::new(key.3),
        },
        _ => LightmountRetainedStyleInvalidationQueryKind::CustomState { name: key.2.clone() },
    };
    LightmountRetainedStyleInvalidationQuery {
        root: Root::from_key(key.0),
        kind,
        sibling_traversal,
    }
}

/// An insertion-ordered set of retained queries.
///
/// Its view lists the queries in the order in which they were first inserted,
/// without repetition.
#[derive(Debug, PartialEq, Eq)]
pub struct RetainedQuerySet<Root: Keyed> {
    keys: IndexSet<QueryKey>,
    roots: PhantomData<Root>,
}

impl<Root: Keyed> RetainedQuerySet<Root> {
    /// The queries, in insertion order.
    pub closed spec fn view(&self) -> Seq<RetainedQueryView<Root>> {
        super::indexed::query_set_keys(self.keys).map_values(
            |key: QueryKeyView| query_of_key::<Root>(key),
        )
    }

    #[verifier::type_invariant]
    spec fn keys_are_canonical(&self) -> bool {
        let keys = super::indexed::query_set_keys(self.keys);
        &&& keys.no_duplicates()
        &&& forall|i: int|
            0 <= i < keys.len() ==> key_of_query(query_of_key::<Root>(#[trigger] keys[i]))
                == keys[i]
    }

    /// Create an empty set.
    pub fn new() -> (set: Self)
        ensures
            set@ == Seq::<RetainedQueryView<Root>>::empty(),
    {
        let set = RetainedQuerySet { keys: new_query_set(), roots: PhantomData };
        assert(set@ =~= Seq::<RetainedQueryView<Root>>::empty());
        set
    }

    /// Add a query at the end unless the set has it; return whether it was
    /// new.
    pub fn insert(&mut self, query: LightmountRetainedStyleInvalidationQuery<Root>) -> (added: bool)
        ensures
            final(self)@ == super::ordered_set::push_unique(old(self)@, query@),
            added == !old(self)@.contains(query@),
    {
        let ghost view = query@;
        let ghost keys = super::indexed::query_set_keys(self.keys);
        let ghost queries = self@;
        let key = encode_query(query);
        let ghost key_view = super::indexed::query_key_view(key);
        proof {
            use_type_invariant(&*self);
            lemma_query_key_round_trip(view);
            if keys.contains(key_view) {
                let i = keys.index_of(key_view);
                assert(queries[i] == view);
            }
            if queries.contains(view) {
                let i = queries.index_of(view);
                assert(keys[i] == key_view);
            }
        }
        let mut held = new_query_set();
        std::mem::swap(&mut held, &mut self.keys);
        let added = insert_query_key(&mut held, key);
        self.keys = held;
        assert(self@ =~= super::ordered_set::push_unique(queries, view));
        added
    }

    /// Return the number of queries.
    pub fn len(&self) -> (count: usize)
        ensures
            count == self@.len(),
    {
        query_key_count(&self.keys)
    }

    /// Return whether the set has no queries.
    pub fn is_empty(&self) -> (empty: bool)
        ensures
            empty == (self@.len() == 0),
    {
        query_key_count(&self.keys) == 0
    }

    /// Return the query at a position of the insertion order.
    pub fn get_index(&self, index: usize) -> (query: Option<
        LightmountRetainedStyleInvalidationQuery<Root>,
    >)
        ensures
            query is Some <==> index < self@.len(),
            query is Some ==> query->0@ == self@[index as int],
    {
        match query_key_at(&self.keys, index) {
            Some(key) => Some(decode_query(key)),
            None => None,
        }
    }
}

/// Rows of queries and their requirements, with a query's requirement merged
/// into its row, or a new row added.
pub open spec fn with_query<Root>(
    rows: Seq<(RetainedQueryView<Root>, LightmountSourceDependencyRequestRequirement)>,
    query: RetainedQueryView<Root>,
    requirement: LightmountSourceDependencyRequestRequirement,
) -> Seq<(RetainedQueryView<Root>, LightmountSourceDependencyRequestRequirement)>
    decreases rows.len(),
{
    if rows.len() == 0 {
        seq![(query, requirement)]
    } else if rows[0].0 == query {
        seq![(query, rows[0].1.merge(requirement))] + rows.drop_first()
    } else {
        seq![rows[0]] + with_query(rows.drop_first(), query, requirement)
    }
}

/// Rows with the queries of a list added in turn under one requirement.
pub open spec fn with_queries<Root>(
    rows: Seq<(RetainedQueryView<Root>, LightmountSourceDependencyRequestRequirement)>,
    queries: Seq<RetainedQueryView<Root>>,
    requirement: LightmountSourceDependencyRequestRequirement,
) -> Seq<(RetainedQueryView<Root>, LightmountSourceDependencyRequestRequirement)>
    decreases queries.len(),
{
    if queries.len() == 0 {
        rows
    } else {
        with_query(
            with_queries(rows, queries.drop_last(), requirement),
            queries.last(),
            requirement,
        )
    }
}

/// Whether no two rows have the same query.
pub open spec fn rows_have_distinct_queries<Root>(
    rows: Seq<(RetainedQueryView<Root>, LightmountSourceDependencyRequestRequirement)>,
) -> bool {
    forall|i: int, j: int| 0 <= i < j < rows.len() ==> (#[trigger] rows[i]).0 != (#[trigger] rows[j]).0
}

proof fn lemma_with_query_at<Root>(
    rows: Seq<(RetainedQueryView<Root>, LightmountSourceDependencyRequestRequirement)>,
    query: RetainedQueryView<Root>,
    requirement: LightmountSourceDependencyRequestRequirement,
    index: int,
)
    requires
        0 <= index < rows.len(),
        rows[index].0 == query,
        forall|i: int| 0 <= i < index ==> (#[trigger] rows[i]).0 != query,
    ensures
        with_query(rows, query, requirement) == rows.update(
            index,
            (query, rows[index].1.merge(requirement)),
        ),
    decreases rows.len(),
{
    let rest = rows.drop_first();
    if index > 0 {
        assert(rows[0].0 != query);
        assert forall|i: int| 0 <= i < index - 1 implies (#[trigger] rest[i]).0 != query by {
            assert(rest[i] == rows[i + 1]);
        }
        lemma_with_query_at(rest, query, requirement, index - 1);
    }
    assert(with_query(rows, query, requirement) =~= rows.update(
        index,
        (query, rows[index].1.merge(requirement)),
    ));
}

proof fn lemma_with_query_new<Root>(
    rows: Seq<(RetainedQueryView<Root>, LightmountSourceDependencyRequestRequirement)>,
    query: RetainedQueryView<Root>,
    requirement: LightmountSourceDependencyRequestRequirement,
)
    requires
        forall|i: int| 0 <= i < rows.len() ==> (#[trigger] rows[i]).0 != query,
    ensures
        with_query(rows, query, requirement) == rows.push((query, requirement)),
    decreases rows.len(),
{
    if rows.len() > 0 {
        let rest = rows.drop_first();
        assert(rows[0].0 != query);
        assert forall|i: int| 0 <= i < rest.len() implies (#[trigger] rest[i]).0 != query by {
            assert(rest[i] == rows[i + 1]);
        }
        lemma_with_query_new(rest, query, requirement);
    }
    assert(with_query(rows, query, requirement) =~= rows.push((query, requirement)));
}

/// Adding a query keeps the queries of the rows distinct.
pub proof fn lemma_with_query_distinct<Root>(
    rows: Seq<(RetainedQueryView<Root>, LightmountSourceDependencyRequestRequirement)>,
    query: RetainedQueryView<Root>,
    requirement: LightmountSourceDependencyRequestRequirement,
)
    requires
        rows_have_distinct_queries(rows),
    ensures
        rows_have_distinct_queries(with_query(rows, query, requirement)),
{
    if exists|i: int| 0 <= i < rows.len() && (#[trigger] rows[i]).0 == query {
        let index = choose|i: int| 0 <= i < rows.len() && (#[trigger] rows[i]).0 == query;
        assert forall|i: int| 0 <= i < index implies (#[trigger] rows[i]).0 != query by {
            assert(rows[i].0 != rows[index].0);
        }
        lemma_with_query_at(rows, query, requirement, index);
    } else {
        lemma_with_query_new(rows, query, requirement);
    }
}

/// A query that has a row is merged into it, in place: the structural gate holds
/// where both have it, the relative one where either does. A new query gets a row
/// of its own behind the others. No other row changes.
pub proof fn lemma_queries_are_merged_in_place<Root>(
    rows: Seq<(RetainedQueryView<Root>, LightmountSourceDependencyRequestRequirement)>,
    query: RetainedQueryView<Root>,
    requirement: LightmountSourceDependencyRequestRequirement,
    index: int,
)
    requires
        rows_have_distinct_queries(rows),
    ensures
        ({
            let after = with_query(rows, query, requirement);
            &&& 0 <= index < rows.len() && rows[index].0 != query ==> after[index] == rows[index]
            &&& 0 <= index < rows.len() && rows[index].0 == query ==> {
                &&& after.len() == rows.len()
                &&& after[index].0 == query
                &&& after[index].1.requires_child_list_structural_dependency
                    <==> rows[index].1.requires_child_list_structural_dependency
                    && requirement.requires_child_list_structural_dependency
                &&& after[index].1.requires_relative_previous_sibling_dependency
                    <==> rows[index].1.requires_relative_previous_sibling_dependency
                    || requirement.requires_relative_previous_sibling_dependency
            }
            &&& (forall|i: int| 0 <= i < rows.len() ==> (#[trigger] rows[i]).0 != query) ==> after
                == rows.push((query, requirement))
        }),
{
    if exists|i: int| 0 <= i < rows.len() && (#[trigger] rows[i]).0 == query {
        let found = choose|i: int| 0 <= i < rows.len() && (#[trigger] rows[i]).0 == query;
        assert forall|i: int| 0 <= i < found implies (#[trigger] rows[i]).0 != query by {
            assert(rows[i].0 != rows[found].0);
        }
        lemma_with_query_at(rows, query, requirement, found);
        if 0 <= index < rows.len() && rows[index].0 == query {
            if index < found {
                assert(rows[index].0 != rows[found].0);
            } else if found < index {
                assert(rows[found].0 != rows[index].0);
            }
        }
    } else {
        lemma_with_query_new(rows, query, requirement);
    }
}

/// Adding a list of queries keeps every row in its place, and gives every query
/// of the list a row.
pub proof fn lemma_added_queries_have_rows<Root>(
    rows: Seq<(RetainedQueryView<Root>, LightmountSourceDependencyRequestRequirement)>,
    queries: Seq<RetainedQueryView<Root>>,
    requirement: LightmountSourceDependencyRequestRequirement,
    query: RetainedQueryView<Root>,
    index: int,
)
    requires
        rows_have_distinct_queries(rows),
    ensures
        ({
            let after = with_queries(rows, queries, requirement);
            &&& rows_have_distinct_queries(after)
            &&& rows.len() <= after.len()
            &&& 0 <= index < rows.len() ==> after[index].0 == rows[index].0
            &&& 0 <= index < rows.len() && !queries.contains(rows[index].0) ==> after[index]
                == rows[index]
            &&& (exists|i: int| 0 <= i < after.len() && (#[trigger] after[i]).0 == query) <==> (
            exists|i: int| 0 <= i < rows.len() && (#[trigger] rows[i]).0 == query)
                || queries.contains(query)
        }),
    decreases queries.len(),
{
    if queries.len() > 0 {
        let rest = queries.drop_last();
        let last = queries.last();
        let before = with_queries(rows, rest, requirement);
        let after = with_queries(rows, queries, requirement);
        assert(queries =~= rest.push(last));
        lemma_added_queries_have_rows(rows, rest, requirement, query, index);
        lemma_with_query_distinct(before, last, requirement);
        lemma_queries_are_merged_in_place(before, last, requirement, index);
        super::lists::lemma_contains_push(rest, last, query);
        if 0 <= index < rows.len() {
            super::lists::lemma_contains_push(rest, last, rows[index].0);
        }
        if exists|i: int| 0 <= i < before.len() && (#[trigger] before[i]).0 == last {
            let found = choose|i: int| 0 <= i < before.len() && (#[trigger] before[i]).0 == last;
            assert forall|i: int| 0 <= i < found implies (#[trigger] before[i]).0 != last by {
                assert(before[i].0 != before[found].0);
            }
            lemma_with_query_at(before, last, requirement, found);
            assert forall|i: int| 0 <= i < before.len() implies (#[trigger] after[i]).0
                == before[i].0 by {}
            assert(after[found].0 == last);
        } else {
            lemma_with_query_new(before, last, requirement);
            assert(after[before.len() as int].0 == last);
            assert forall|i: int| 0 <= i < before.len() implies #[trigger] after[i] == before[i] by {
            }
        }
        if exists|i: int| 0 <= i < before.len() && (#[trigger] before[i]).0 == query {
            let i = choose|i: int| 0 <= i < before.len() && (#[trigger] before[i]).0 == query;
            assert(after[i].0 == query);
        }
        if exists|i: int| 0 <= i < after.len() && (#[trigger] after[i]).0 == query {
            let i = choose|i: int| 0 <= i < after.len() && (#[trigger] after[i]).0 == query;
            if i < before.len() {
                assert(before[i].0 == query);
            }
        }
    }
}

/// Adding the same query twice, in either order of its requirements, gives one
/// row with the merged requirement.
pub proof fn lemma_duplicate_query_merges<Root>(
    query: RetainedQueryView<Root>,
    first: LightmountSourceDependencyRequestRequirement,
    second: LightmountSourceDependencyRequestRequirement,
)
    ensures
        with_query(with_query(Seq::empty(), query, first), query, second) == seq![
            (query, first.merge(second)),
        ],
        with_query(with_query(Seq::empty(), query, first), query, second) == with_query(
            with_query(Seq::empty(), query, second),
            query,
            first,
        ),
{
    let empty = Seq::<
        (RetainedQueryView<Root>, LightmountSourceDependencyRequestRequirement),
    >::empty();
    assert(with_query(with_query(empty, query, first), query, second) =~= seq![
        (query, first.merge(second)),
    ]);
    assert(with_query(with_query(empty, query, second), query, first) =~= seq![
        (query, second.merge(first)),
    ]);
}

/// The requirement that a pair of flags stands for.
pub open spec fn requirement_of(
    flags: (bool, bool),
) -> LightmountSourceDependencyRequestRequirement {
    LightmountSourceDependencyRequestRequirement {
        requires_child_list_structural_dependency: flags.0,
        requires_relative_previous_sibling_dependency: flags.1,
    }
}

/// The content of stored rows.
spec fn decoded_rows<Root: Keyed>(rows: Seq<(QueryKeyView, (bool, bool))>) -> Seq<
    (RetainedQueryView<Root>, LightmountSourceDependencyRequestRequirement),
> {
    rows.map_values(
        |row: (QueryKeyView, (bool, bool))| (query_of_key::<Root>(row.0), requirement_of(row.1)),
    )
}

/// Whether stored rows have different keys, each the key of its query.
spec fn rows_are_canonical<Root: Keyed>(rows: Seq<(QueryKeyView, (bool, bool))>) -> bool {
    &&& forall|i: int, j: int|
        0 <= i < j < rows.len() ==> (#[trigger] rows[i]).0 != (#[trigger] rows[j]).0
    &&& forall|i: int|
        0 <= i < rows.len() ==> key_of_query(query_of_key::<Root>((#[trigger] rows[i]).0))
            == rows[i].0
}

/// Setting the row of a query to its merged requirement adds the query to the
/// content of the rows and leaves them canonical.
proof fn lemma_rows_of_query<Root: Keyed>(
    rows: Seq<(QueryKeyView, (bool, bool))>,
    query: RetainedQueryView<Root>,
    requirement: LightmountSourceDependencyRequestRequirement,
)
    requires
        rows_are_canonical::<Root>(rows),
    ensures
        ({
            let key = key_of_query(query);
            let merged = match super::indexed::row_value(rows, key) {
                Some(existing) => requirement_of(existing).merge(requirement),
                None => requirement,
            };
            forall|flags: (bool, bool)| #[trigger]
                requirement_of(flags) == merged ==> {
                    let after = super::indexed::row_set(rows, key, flags);
                    &&& rows_are_canonical::<Root>(after)
                    &&& decoded_rows::<Root>(after) == with_query(
                        decoded_rows::<Root>(rows),
                        query,
                        requirement,
                    )
                    &&& forall|i: int|
                        0 <= i < after.len() ==> (#[trigger] after[i]).0 == key || exists|j: int|
                            0 <= j < rows.len() && (#[trigger] rows[j]).0 == after[i].0
                }
        }),
    decreases rows.len(),
{
    let key = key_of_query(query);
    let merged = match super::indexed::row_value(rows, key) {
        Some(existing) => requirement_of(existing).merge(requirement),
        None => requirement,
    };
    lemma_query_key_round_trip(query);
    let decoded = decoded_rows::<Root>(rows);
    assert forall|flags: (bool, bool)| #[trigger] requirement_of(flags) == merged implies {
        let after = super::indexed::row_set(rows, key, flags);
        &&& rows_are_canonical::<Root>(after)
        &&& decoded_rows::<Root>(after) == with_query(decoded, query, requirement)
        &&& forall|i: int|
            0 <= i < after.len() ==> (#[trigger] after[i]).0 == key || exists|j: int|
                0 <= j < rows.len() && (#[trigger] rows[j]).0 == after[i].0
    } by {
        let after = super::indexed::row_set(rows, key, flags);
        if rows.len() == 0 {
            assert(decoded_rows::<Root>(after) =~= with_query(decoded, query, requirement));
        } else {
            let rest = rows.drop_first();
            assert(decoded.drop_first() =~= decoded_rows::<Root>(rest));
            assert(decoded[0].0 == query_of_key::<Root>(rows[0].0));
            if rows[0].0 == key {
                assert forall|i: int| 1 <= i < after.len() implies after[i] == rows[i] by {
                    assert(rest[i - 1] == rows[i]);
                }
                assert(decoded_rows::<Root>(after) =~= with_query(decoded, query, requirement));
            } else {
                assert(rows_are_canonical::<Root>(rest)) by {
                    assert forall|i: int, j: int| 0 <= i < j < rest.len() implies (#[trigger]
                    rest[i]).0 != (#[trigger] rest[j]).0 by {
                        assert(rest[i] == rows[i + 1]);
                        assert(rest[j] == rows[j + 1]);
                    }
                    assert forall|i: int| 0 <= i < rest.len() implies key_of_query(
                        query_of_key::<Root>((#[trigger] rest[i]).0),
                    ) == rest[i].0 by {
                        assert(rest[i] == rows[i + 1]);
                    }
                }
                lemma_rows_of_query::<Root>(rest, query, requirement);
                let rest_after = super::indexed::row_set(rest, key, flags);
                assert(decoded[0].0 != query);
                assert(decoded_rows::<Root>(rest_after) == with_query(
                    decoded_rows::<Root>(rest),
                    query,
                    requirement,
                ));
                assert(decoded_rows::<Root>(after) =~= with_query(decoded, query, requirement));
                assert forall|i: int| 0 <= i < after.len() implies (#[trigger] after[i]).0 == key
                    || exists|j: int|
                    0 <= j < rows.len() && (#[trigger] rows[j]).0 == after[i].0 by {
                    if i == 0 {
                        assert(rows[0].0 == after[0].0);
                    } else {
                        assert(after[i] == rest_after[i - 1]);
                        if rest_after[i - 1].0 != key {
                            let j = choose|j: int|
                                0 <= j < rest.len() && (#[trigger] rest[j]).0 == rest_after[i
                                    - 1].0;
                            assert(rows[j + 1].0 == after[i].0);
                        }
                    }
                }
                assert(rows_are_canonical::<Root>(after)) by {
                    assert forall|i: int, j: int| 0 <= i < j < after.len() implies (#[trigger]
                    after[i]).0 != (#[trigger] after[j]).0 by {
                        assert(after[j] == rest_after[j - 1]);
                        if i == 0 {
                            if rest_after[j - 1].0 != key {
                                let k = choose|k: int|
                                    0 <= k < rest.len() && (#[trigger] rest[k]).0 == rest_after[j
                                        - 1].0;
                                assert(rows[k + 1].0 == after[j].0);
                                assert(rows[0].0 != rows[k + 1].0);
                            }
                        } else {
                            assert(after[i] == rest_after[i - 1]);
                        }
                    }
                    assert forall|i: int| 0 <= i < after.len() implies key_of_query(
                        query_of_key::<Root>((#[trigger] after[i]).0),
                    ) == after[i].0 by {
                        if i > 0 {
                            assert(after[i] == rest_after[i - 1]);
                        } else {
                            assert(after[0] == rows[0]);
                        }
                    }
                }
            }
        }
    }
}

/// Retained queries with their requirements, in the order in which the queries
/// were first inserted.
#[derive(Debug, PartialEq, Eq)]
pub struct RetainedQueryRows<Root: Keyed> {
    rows: IndexMap<QueryKey, (bool, bool)>,
    roots: PhantomData<Root>,
}

impl<Root: Keyed> RetainedQueryRows<Root> {
    /// The rows, in insertion order.
    pub closed spec fn view(&self) -> Seq<
        (RetainedQueryView<Root>, LightmountSourceDependencyRequestRequirement),
    > {
        decoded_rows(super::indexed::query_rows(self.rows))
    }

    #[verifier::type_invariant]
    spec fn keys_are_canonical(&self) -> bool {
        rows_are_canonical::<Root>(super::indexed::query_rows(self.rows))
    }

    /// Create a collection without rows.
    pub fn new() -> (rows: Self)
        ensures
            rows@.len() == 0,
    {
        RetainedQueryRows { rows: new_query_rows(), roots: PhantomData }
    }

    /// Add a query, merging its requirement into the row that it has.
    pub fn insert(
        &mut self,
        query: LightmountRetainedStyleInvalidationQuery<Root>,
        requirement: LightmountSourceDependencyRequestRequirement,
    )
        ensures
            final(self)@ == with_query(old(self)@, query@, requirement),
    {
        let ghost view = query@;
        let ghost rows = super::indexed::query_rows(self.rows);
        let ghost before = self@;
        let key = encode_query(query);
        let ghost key_view = super::indexed::query_key_view(key);
        proof {
            use_type_invariant(&*self);
            lemma_rows_of_query::<Root>(rows, view, requirement);
        }
        let merged = match query_row_value(&self.rows, &key) {
            Some(existing) => {
                let existing = LightmountSourceDependencyRequestRequirement {
                    requires_child_list_structural_dependency: existing.0,
                    requires_relative_previous_sibling_dependency: existing.1,
                };
                existing.merged_with(requirement)
            },
            None => requirement,
        };
        let flags = (
            merged.requires_child_list_structural_dependency,
            merged.requires_relative_previous_sibling_dependency,
        );
        let mut held = new_query_rows();
        std::mem::swap(&mut held, &mut self.rows);
        insert_query_row(&mut held, key, flags);
        assert(requirement_of(flags) == merged);
        self.rows = held;
        assert(self@ == with_query(before, view, requirement));
    }

    /// Return the number of rows.
    pub fn len(&self) -> (count: usize)
        ensures
            count == self@.len(),
            rows_have_distinct_queries(self@),
    {
        proof {
            use_type_invariant(self);
            let rows = super::indexed::query_rows(self.rows);
            assert forall|i: int, j: int| 0 <= i < j < self@.len() implies (#[trigger] self@[i]).0
                != (#[trigger] self@[j]).0 by {
                assert(rows[i].0 != rows[j].0);
            }
        }
        query_row_count(&self.rows)
    }

    /// Return the row at a position of the insertion order.
    pub fn get_index(&self, index: usize) -> (row: Option<
        (
            LightmountRetainedStyleInvalidationQuery<Root>,
            LightmountSourceDependencyRequestRequirement,
        ),
    >)
        ensures
            row is Some <==> index < self@.len(),
            row matches Some((query, requirement)) ==> (query@, requirement) == self@[index as int],
    {
        match query_row_at(&self.rows, index) {
            Some((key, flags)) => Some(
                (
                    decode_query(key),
                    LightmountSourceDependencyRequestRequirement {
                        requires_child_list_structural_dependency: flags.0,
                        requires_relative_previous_sibling_dependency: flags.1,
                    },
                ),
            ),
            None => None,
        }
    }
}

impl<Root: Keyed> Clone for RetainedQueryRows<Root> {
    /// Return a collection with the same rows in the same order.
    fn clone(&self) -> (rows: Self)
        ensures
            rows@ == self@,
    {
        proof {
            use_type_invariant(self);
        }
        RetainedQueryRows { rows: copy_query_rows(&self.rows), roots: PhantomData }
    }
}

} // verus!
