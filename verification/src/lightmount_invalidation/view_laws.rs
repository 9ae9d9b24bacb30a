//! Laws that tie the contents that contracts speak of to the values that hold
//! them.

use vstd::prelude::*;

use super::dependency_query::LightmountDependencyQueryResult;
use super::dependency_summary::LightmountDependencyInvalidationSummary;
use super::query::{
    LightmountRetainedStyleInvalidationQuery, LightmountRetainedStyleInvalidationQueryKind,
    LightmountStyleInvalidationQuery, QueryShape,
};
use super::query_result::{
    LightmountSnapshotRelativeDependencyRoots, LightmountSourceStyleInvalidationQueryResult,
    LightmountSourceStyleInvalidationResult,
};
use super::results::LightmountSourceStyleInvalidationSourceResult;
use super::sibling_summary::LightmountSiblingInvalidationSummary;
use super::source_summary::{
    LightmountChildListStructuralBoundaryDependencySummary, LightmountSourceDependencySummary,
};

verus! {

/// A query asks about what its variant names.
pub proof fn lemma_queries_ask_about_what_they_name<'a>(query: LightmountStyleInvalidationQuery<'a>)
    ensures
        query is Universal <==> query@ is Universal,
        query matches LightmountStyleInvalidationQuery::Type(name) ==> query@ == QueryShape::Type(
            name@,
        ),
        query matches LightmountStyleInvalidationQuery::Attribute(name) ==> query@
            == QueryShape::Attribute(name@),
        query matches LightmountStyleInvalidationQuery::Class(name) ==> query@ == QueryShape::Class(
            name@,
        ),
        query matches LightmountStyleInvalidationQuery::Id(name) ==> query@ == QueryShape::Id(name@),
        query matches LightmountStyleInvalidationQuery::State(state) ==> query@
            == QueryShape::State(state),
        query matches LightmountStyleInvalidationQuery::CustomState(name) ==> query@
            == QueryShape::CustomState(name@),
{
}

/// A retained query asks about what its kind names, at its root and with its
/// sibling context.
pub proof fn lemma_retained_queries_ask_about_what_they_name<Root: Copy>(
    query: LightmountRetainedStyleInvalidationQuery<Root>,
)
    ensures
        query@.root == query.root,
        query@.sibling_traversal == query.sibling_traversal,
        query.kind is Universal <==> query@.shape is Universal,
        query.kind matches LightmountRetainedStyleInvalidationQueryKind::Type { local_name }
            ==> query@.shape == QueryShape::Type(local_name@),
        query.kind matches LightmountRetainedStyleInvalidationQueryKind::Attribute { name }
            ==> query@.shape == QueryShape::Attribute(name@),
        query.kind matches LightmountRetainedStyleInvalidationQueryKind::Class { token }
            ==> query@.shape == QueryShape::Class(token@),
        query.kind matches LightmountRetainedStyleInvalidationQueryKind::Id { value }
            ==> query@.shape == QueryShape::Id(value@),
        query.kind matches LightmountRetainedStyleInvalidationQueryKind::State { state }
            ==> query@.shape == QueryShape::State(state),
        query.kind matches LightmountRetainedStyleInvalidationQueryKind::CustomState { name }
            ==> query@.shape == QueryShape::CustomState(name@),
        query.asks_for_heading_level() <==> (query.kind matches
            LightmountRetainedStyleInvalidationQueryKind::State { state } && state.bits
            & 0xf0000000000000 != 0),
{
}

/// A summary's contents are its lists, entry by entry, each under its own kind
/// of key.
pub proof fn lemma_summaries_hold_their_lists(
    summary: LightmountDependencyInvalidationSummary,
    index: int,
)
    ensures
        summary@.classes.len() == summary.class_dependencies@.len(),
        0 <= index < summary@.classes.len() ==> summary@.classes[index] == (
            summary.class_dependencies@[index].0@,
            summary.class_dependencies@[index].1@,
        ),
        summary@.ids.len() == summary.id_dependencies@.len(),
        0 <= index < summary@.ids.len() ==> summary@.ids[index] == (
            summary.id_dependencies@[index].0@,
            summary.id_dependencies@[index].1@,
        ),
        summary@.types.len() == summary.type_dependencies@.len(),
        0 <= index < summary@.types.len() ==> summary@.types[index] == (
            summary.type_dependencies@[index].0@,
            summary.type_dependencies@[index].1@,
        ),
        summary@.attributes.len() == summary.attribute_dependencies@.len(),
        0 <= index < summary@.attributes.len() ==> summary@.attributes[index] == (
            summary.attribute_dependencies@[index].0@,
            summary.attribute_dependencies@[index].1@,
        ),
        summary@.custom_states.len() == summary.custom_state_dependencies@.len(),
        0 <= index < summary@.custom_states.len() ==> summary@.custom_states[index] == (
            summary.custom_state_dependencies@[index].0@,
            summary.custom_state_dependencies@[index].1@,
        ),
        summary@.states.len() == summary.state_dependencies@.len(),
        0 <= index < summary@.states.len() ==> summary@.states[index] == (
            summary.state_dependencies@[index].0,
            summary.state_dependencies@[index].1@,
        ),
        summary@.universal == summary.universal_dependency@,
        summary@.focus == summary.focus_dependency@,
        summary@.focus_within == summary.focus_within_dependency@,
        summary@.target == summary.target_dependency@,
        summary@.unknown == summary.unknown_dependency,
        summary@.unknown_state_bits == summary.unknown_state_dependency_bits,
{
}

/// An answer, a sibling summary, a boundary summary and a source summary hold
/// what their fields say.
pub proof fn lemma_answers_and_sources_hold_their_parts(
    answer: LightmountDependencyQueryResult,
    siblings: LightmountSiblingInvalidationSummary,
    boundaries: LightmountChildListStructuralBoundaryDependencySummary,
    source: LightmountSourceDependencySummary,
    name: Seq<char>,
)
    ensures
        answer@.kinds == answer.kinds@,
        answer@.unknown == answer.unknown_dependency,
        answer@.reasons == answer.fallback_reasons@,
        siblings@.classes == siblings.class_dependencies@,
        siblings@.ids == siblings.id_dependencies@,
        siblings@.attributes == siblings.attribute_dependencies@,
        siblings@.focus == siblings.focus_dependency,
        siblings@.target == siblings.target_dependency,
        siblings@.unknown == siblings.unknown_dependency,
        boundaries@.universal == boundaries.universal_dependency,
        boundaries@.classes.contains(name) <==> exists|i: int|
            0 <= i < boundaries.class_dependencies@.len() && (
            #[trigger] boundaries.class_dependencies@[i])@ == name,
        boundaries@.ids.contains(name) <==> exists|i: int|
            0 <= i < boundaries.id_dependencies@.len() && (
            #[trigger] boundaries.id_dependencies@[i])@ == name,
        boundaries@.types.contains(name) <==> exists|i: int|
            0 <= i < boundaries.type_dependencies@.len() && (
            #[trigger] boundaries.type_dependencies@[i])@ == name,
        boundaries@.attributes.contains(name) <==> exists|i: int|
            0 <= i < boundaries.attribute_dependencies@.len() && (
            #[trigger] boundaries.attribute_dependencies@[i])@ == name,
        source@.summary == source.dependency_summary@,
        source@.structural == source.has_child_list_structural_dependency,
        source@.boundaries == source.child_list_structural_boundary_dependencies@,
{
    lemma_text_views_contain(boundaries.class_dependencies@, name);
    lemma_text_views_contain(boundaries.id_dependencies@, name);
    lemma_text_views_contain(boundaries.type_dependencies@, name);
    lemma_text_views_contain(boundaries.attribute_dependencies@, name);
}

proof fn lemma_text_views_contain(texts: Seq<String>, name: Seq<char>)
    ensures
        super::text::text_views(texts).contains(name) <==> exists|i: int|
            0 <= i < texts.len() && (#[trigger] texts[i])@ == name,
{
    let views = super::text::text_views(texts);
    if views.contains(name) {
        let i = views.index_of(name);
        assert(texts[i]@ == name);
    }
    if exists|i: int| 0 <= i < texts.len() && (#[trigger] texts[i])@ == name {
        let i = choose|i: int| 0 <= i < texts.len() && (#[trigger] texts[i])@ == name;
        assert(views[i] == name);
    }
}

/// Query results, source results and rows hold what their fields say.
pub proof fn lemma_results_hold_their_parts<Root>(
    query: LightmountSourceStyleInvalidationQueryResult<Root>,
    source: LightmountSourceStyleInvalidationResult<Root>,
    row: LightmountSourceStyleInvalidationSourceResult<Root>,
)
    ensures
        query@.roots == query.affected_roots@,
        query@.exact == query.empty_result_is_exact,
        query@.matched == query.matched_dependency_count,
        query@.reasons == query.fallback_reasons@,
        source@.roots == source.affected_roots@,
        source@.reasons == source.fallback_reasons@,
        source@.kind == source.fallback_kind,
        source@.availability == source.fallback_root_availability,
        source@.exact == source.empty_result_is_exact,
        source@.matched == source.matched_dependency_count,
        row@.source_index == row.source_index,
        row@.kind == row.kind,
        row@.exact == row.exact,
        row@.empty_result_is_exact == row.empty_result_is_exact,
        row@.matched == row.matched_dependency_count,
        row@.reasons == row.fallback_reasons@,
        row@.availability == row.fallback_root_availability,
        row@.roots == row.affected_roots@,
{
}

/// Snapshots verify all dependencies where there are some and as many were
/// verified. An empty result is exact where nothing matched, something was
/// affected, or all that matched was verified.
pub proof fn lemma_snapshots_verify_by_count<Root>(
    roots: LightmountSnapshotRelativeDependencyRoots<Root>,
    matched: usize,
    count: usize,
    affected: bool,
)
    ensures
        roots.verified_all(count) <==> count > 0 && roots.verified_dependency_count == count,
        !roots.is_exact(matched, count, affected) <==> matched > 0 && !affected && !(count > 0
            && roots.verified_dependency_count == count && matched == count),
{
}

} // verus!
