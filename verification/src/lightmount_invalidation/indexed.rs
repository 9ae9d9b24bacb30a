//! The insertion-ordered maps and sets that the library keeps, with the
//! behaviour it relies on.

use indexmap::{IndexMap, IndexSet};
use vstd::prelude::*;

verus! {

/// `indexmap::IndexSet`, a hash set that keeps its items in the order in which
/// they were first inserted.
#[verifier::external_type_specification]
#[verifier::external_body]
#[verifier::reject_recursive_types(T)]
#[verifier::reject_recursive_types(S)]
pub struct ExIndexSet<T, S>(IndexSet<T, S>);

/// `indexmap::IndexMap`, a hash map that keeps its entries in the order in
/// which their keys were first inserted.
#[verifier::external_type_specification]
#[verifier::external_body]
#[verifier::reject_recursive_types(K)]
#[verifier::reject_recursive_types(V)]
#[verifier::reject_recursive_types(S)]
pub struct ExIndexMap<K, V, S>(IndexMap<K, V, S>);

/// The items of a set of keys, in insertion order.
pub uninterp spec fn key_items(set: IndexSet<u64>) -> Seq<u64>;

/// `IndexSet::new`: the new set has no items.
#[verifier::external_body]
pub(crate) fn new_keys() -> (set: IndexSet<u64>)
    ensures
        key_items(set) == Seq::<u64>::empty(),
{
    IndexSet::new()
}

/// `IndexSet::insert`: an item that the set has stays where it is; any other
/// comes last. The result says whether the item was new.
#[verifier::external_body]
pub(crate) fn insert_key(set: &mut IndexSet<u64>, key: u64) -> (added: bool)
    ensures
        added == !key_items(*old(set)).contains(key),
        key_items(*final(set)) == if added {
            key_items(*old(set)).push(key)
        } else {
            key_items(*old(set))
        },
{
    set.insert(key)
}

/// `IndexSet::contains`: whether the set has the item.
#[verifier::external_body]
pub(crate) fn has_key(set: &IndexSet<u64>, key: u64) -> (found: bool)
    ensures
        found == key_items(*set).contains(key),
{
    set.contains(&key)
}

/// `IndexSet::len`: the number of items.
#[verifier::external_body]
pub(crate) fn key_count(set: &IndexSet<u64>) -> (count: usize)
    ensures
        count == key_items(*set).len(),
{
    set.len()
}

/// `IndexSet::get_index`: the item at a position of the insertion order, where
/// there is one.
#[verifier::external_body]
pub(crate) fn key_at(set: &IndexSet<u64>, index: usize) -> (key: Option<u64>)
    ensures
        key == if index < key_items(*set).len() {
            Some(key_items(*set)[index as int])
        } else {
            None
        },
{
    set.get_index(index).copied()
}

/// A retained query as a map key: its root, a number for what it asks about,
/// the text or the state bits that it asks about, and its sibling context.
pub type QueryKey = (u64, u8, String, u64, Option<(Option<u64>, Option<u64>)>);

/// A query key with its text taken by its characters.
pub type QueryKeyView = (u64, u8, Seq<char>, u64, Option<(Option<u64>, Option<u64>)>);

/// The content of a query key.
pub open spec fn query_key_view(key: QueryKey) -> QueryKeyView {
    (key.0, key.1, key.2@, key.3, key.4)
}

/// The rows of a map from queries to pairs of flags, in insertion order.
pub uninterp spec fn query_rows(map: IndexMap<QueryKey, (bool, bool)>) -> Seq<
    (QueryKeyView, (bool, bool)),
>;

/// `IndexMap::new`: the new map has no rows.
#[verifier::external_body]
pub(crate) fn new_query_rows() -> (map: IndexMap<QueryKey, (bool, bool)>)
    ensures
        query_rows(map) == Seq::<(QueryKeyView, (bool, bool))>::empty(),
{
    IndexMap::new()
}

/// The value of the first row with a key.
pub open spec fn row_value<K, V>(rows: Seq<(K, V)>, key: K) -> Option<V>
    decreases rows.len(),
{
    if rows.len() == 0 {
        None
    } else if rows[0].0 == key {
        Some(rows[0].1)
    } else {
        row_value(rows.drop_first(), key)
    }
}

/// The rows with the value of the first row with a key replaced, or with a new
/// last row where no row has the key.
pub open spec fn row_set<K, V>(rows: Seq<(K, V)>, key: K, value: V) -> Seq<(K, V)>
    decreases rows.len(),
{
    if rows.len() == 0 {
        seq![(key, value)]
    } else if rows[0].0 == key {
        seq![(key, value)] + rows.drop_first()
    } else {
        seq![rows[0]] + row_set(rows.drop_first(), key, value)
    }
}

/// `IndexMap::get`: the value of the row with this key, where there is one.
#[verifier::external_body]
pub(crate) fn query_row_value(
    map: &IndexMap<QueryKey, (bool, bool)>,
    key: &QueryKey,
) -> (value: Option<(bool, bool)>)
    ensures
        value == row_value(query_rows(*map), query_key_view(*key)),
{
    map.get(key).copied()
}

/// `IndexMap::insert`: the row with this key gets the value and stays where it
/// is; where there is none, a new row comes last.
#[verifier::external_body]
pub(crate) fn insert_query_row(
    map: &mut IndexMap<QueryKey, (bool, bool)>,
    key: QueryKey,
    value: (bool, bool),
)
    ensures
        query_rows(*final(map)) == row_set(query_rows(*old(map)), query_key_view(key), value),
{
    map.insert(key, value);
}

/// `IndexMap::len`: the number of rows.
#[verifier::external_body]
pub(crate) fn query_row_count(map: &IndexMap<QueryKey, (bool, bool)>) -> (count: usize)
    ensures
        count == query_rows(*map).len(),
{
    map.len()
}

/// `IndexMap::get_index`: the row at a position of the insertion order, where
/// there is one.
#[verifier::external_body]
pub(crate) fn query_row_at(map: &IndexMap<QueryKey, (bool, bool)>, index: usize) -> (row: Option<
    (&QueryKey, (bool, bool)),
>)
    ensures
        row is Some <==> index < query_rows(*map).len(),
        row matches Some((key, value)) ==> (query_key_view(*key), value) == query_rows(
            *map,
        )[index as int],
{
    match map.get_index(index) {
        Some((key, value)) => Some((key, *value)),
        None => None,
    }
}

/// `IndexMap::clone`: the new map has the same rows in the same order.
#[verifier::external_body]
pub(crate) fn copy_query_rows(map: &IndexMap<QueryKey, (bool, bool)>) -> (copy: IndexMap<
    QueryKey,
    (bool, bool),
>)
    ensures
        query_rows(copy) == query_rows(*map),
{
    map.clone()
}

/// The keys of a set of queries, in insertion order.
pub uninterp spec fn query_set_keys(set: IndexSet<QueryKey>) -> Seq<QueryKeyView>;

/// `IndexSet::new`: the new set has no queries.
#[verifier::external_body]
pub(crate) fn new_query_set() -> (set: IndexSet<QueryKey>)
    ensures
        query_set_keys(set) == Seq::<QueryKeyView>::empty(),
{
    IndexSet::new()
}

/// `IndexSet::insert`: a query that the set has stays where it is; any other
/// comes last. The result says whether the query was new.
#[verifier::external_body]
pub(crate) fn insert_query_key(set: &mut IndexSet<QueryKey>, key: QueryKey) -> (added: bool)
    ensures
        added == !query_set_keys(*old(set)).contains(query_key_view(key)),
        query_set_keys(*final(set)) == if added {
            query_set_keys(*old(set)).push(query_key_view(key))
        } else {
            query_set_keys(*old(set))
        },
{
    set.insert(key)
}

/// `IndexSet::len`: the number of queries.
#[verifier::external_body]
pub(crate) fn query_key_count(set: &IndexSet<QueryKey>) -> (count: usize)
    ensures
        count == query_set_keys(*set).len(),
{
    set.len()
}

/// `IndexSet::get_index`: the query at a position of the insertion order,
/// where there is one.
#[verifier::external_body]
pub(crate) fn query_key_at(set: &IndexSet<QueryKey>, index: usize) -> (key: Option<&QueryKey>)
    ensures
        key is Some <==> index < query_set_keys(*set).len(),
        key is Some ==> query_key_view(*key->0) == query_set_keys(*set)[index as int],
{
    set.get_index(index)
}

/// The entries of a map from attribute names to old values, in insertion
/// order.
pub uninterp spec fn attribute_entries(map: IndexMap<String, Option<String>>) -> Seq<
    (Seq<char>, Option<Seq<char>>),
>;

/// The characters of an optional text.
pub open spec fn optional_text(text: Option<String>) -> Option<Seq<char>> {
    match text {
        Some(text) => Some(text@),
        None => None,
    }
}

/// `IndexMap::new`: the new map has no entries.
#[verifier::external_body]
pub(crate) fn new_attributes() -> (map: IndexMap<String, Option<String>>)
    ensures
        attribute_entries(map) == Seq::<(Seq<char>, Option<Seq<char>>)>::empty(),
{
    IndexMap::new()
}

/// `IndexMap::entry` with `Entry::or_insert`: a name that the map has keeps
/// its value; any other comes last with the value given.
#[verifier::external_body]
pub(crate) fn keep_or_insert_attribute(
    map: &mut IndexMap<String, Option<String>>,
    name: String,
    value: Option<String>,
)
    ensures
        attribute_entries(*final(map)) == if exists|i: int|
            0 <= i < attribute_entries(*old(map)).len() && (#[trigger] attribute_entries(
                *old(map),
            )[i]).0 == name@ {
            attribute_entries(*old(map))
        } else {
            attribute_entries(*old(map)).push((name@, optional_text(value)))
        },
{
    map.entry(name).or_insert(value);
}

/// `IndexMap::clone`: the new map has the same entries in the same order.
#[verifier::external_body]
pub(crate) fn copy_attributes(map: &IndexMap<String, Option<String>>) -> (copy: IndexMap<
    String,
    Option<String>,
>)
    ensures
        attribute_entries(copy) == attribute_entries(*map),
{
    map.clone()
}

/// `IndexMap::len`: the number of entries.
#[verifier::external_body]
pub(crate) fn attribute_count(map: &IndexMap<String, Option<String>>) -> (count: usize)
    ensures
        count == attribute_entries(*map).len(),
{
    map.len()
}

/// `IndexMap::get_index`: the entry at a position of the insertion order,
/// where there is one.
#[verifier::external_body]
pub(crate) fn attribute_at(map: &IndexMap<String, Option<String>>, index: usize) -> (entry: Option<
    (&String, &Option<String>),
>)
    ensures
        entry is Some <==> index < attribute_entries(*map).len(),
        entry matches Some((name, value)) ==> (name@, optional_text(*value))
            == attribute_entries(*map)[index as int],
{
    map.get_index(index)
}

} // verus!
