//! Invalidation maps of a stylesheet source, and the summaries taken from
//! them.

use vstd::prelude::*;

use super::dependency::{
    lightmount_dependencies_have_sibling_sensitive, lightmount_dependency_has_nested_relative_dependency,
    lightmount_dependency_is_sibling_sensitive, Dependency, DependencyInvalidationKind,
    NormalDependencyInvalidationKind, RelativeDependencyInvalidationKind,
};
use super::dependency_query::{
    DependencyAnswer, LightmountDependencyKind, LightmountDependencyQueryResult,
};
use super::dependency_summary::{
    lightmount_note_keyed_dependency, DependencySummaryView,
    LightmountDependencyInvalidationSummary,
};
use super::element_state::ElementState;
use super::query::{LightmountStyleInvalidationQuery, QueryShape};
use super::reasons::LightmountDependencyFallbackReason;
use super::sibling_summary::{LightmountSiblingInvalidationSummary, SiblingSummaryView};
use super::text::{ascii_lowercase, same_text};

verus! {

/// Whether class and id tokens are matched without regard to ASCII case.
#[derive(Clone, Copy, Debug, PartialEq, Eq, Hash, Structural)]
pub enum QuirksMode {
    /// Quirks mode.
    Quirks,
    /// Limited quirks mode.
    LimitedQuirks,
    /// No quirks mode.
    NoQuirks,
}

/// A dependency on pseudo-class state.
#[derive(Debug, PartialEq, Eq, Hash)]
pub struct StateDependency {
    /// The dependency.
    pub dep: Dependency,
    /// The states that it depends on.
    pub state: ElementState,
}

/// Entries sorted into buckets by what an element must have to match them.
#[derive(Debug, PartialEq, Eq, Hash)]
pub struct SelectorMap<T> {
    /// Entries for the document root.
    pub root: Vec<T>,
    /// Entries by id.
    pub id_hash: Vec<(String, Vec<T>)>,
    /// Entries by class.
    pub class_hash: Vec<(String, Vec<T>)>,
    /// Entries by attribute.
    pub attribute_hash: Vec<(String, Vec<T>)>,
    /// Entries by local name.
    pub local_name_hash: Vec<(String, Vec<T>)>,
    /// Entries by namespace.
    pub namespace_hash: Vec<(String, Vec<T>)>,
    /// Entries for rare pseudo-classes.
    pub rare_pseudo_classes: Vec<T>,
    /// All other entries.
    pub other: Vec<T>,
}

/// The entries of a list of buckets, in order.
pub open spec fn bucket_entries<T>(buckets: Seq<(String, Vec<T>)>) -> Seq<T>
    decreases buckets.len(),
{
    if buckets.len() == 0 {
        seq![]
    } else {
        bucket_entries(buckets.drop_last()) + buckets.last().1@
    }
}

/// Whether no two lists have the same name.
pub open spec fn names_occur_once<T>(lists: Seq<(String, Vec<T>)>) -> bool {
    forall|i: int, j: int|
        0 <= i < j < lists.len() ==> (#[trigger] lists[i]).0@ != (#[trigger] lists[j]).0@
}

impl<T> SelectorMap<T> {
    /// Create a map without entries.
    pub fn new() -> (map: Self)
        ensures
            map.entries() == Seq::<T>::empty(),
            map.has_no_buckets(),
    {
        let map = Self {
            root: Vec::new(),
            id_hash: Vec::new(),
            class_hash: Vec::new(),
            attribute_hash: Vec::new(),
            local_name_hash: Vec::new(),
            namespace_hash: Vec::new(),
            rare_pseudo_classes: Vec::new(),
            other: Vec::new(),
        };
        assert(map.entries() =~= Seq::<T>::empty());
        map
    }

    /// All entries, bucket by bucket.
    pub open spec fn entries(&self) -> Seq<T> {
        self.root@ + bucket_entries(self.id_hash@) + bucket_entries(self.class_hash@)
            + bucket_entries(self.attribute_hash@) + bucket_entries(self.local_name_hash@)
            + bucket_entries(self.namespace_hash@) + self.rare_pseudo_classes@ + self.other@
    }

    /// Whether no id, class, attribute, local name or namespace has a bucket,
    /// not even an empty one.
    pub open spec fn has_no_buckets(&self) -> bool {
        &&& self.id_hash@.len() == 0
        &&& self.class_hash@.len() == 0
        &&& self.attribute_hash@.len() == 0
        &&& self.local_name_hash@.len() == 0
        &&& self.namespace_hash@.len() == 0
    }

    /// Whether the buckets are those of a map: each id, class, attribute, local
    /// name and namespace has one at most.
    pub open spec fn is_valid(&self) -> bool {
        &&& names_occur_once(self.id_hash@)
        &&& names_occur_once(self.class_hash@)
        &&& names_occur_once(self.attribute_hash@)
        &&& names_occur_once(self.local_name_hash@)
        &&& names_occur_once(self.namespace_hash@)
    }

    /// Return whether there are no entries.
    pub fn is_empty(&self) -> (empty: bool)
        ensures
            empty == (self.entries().len() == 0),
    {
        self.root.len() == 0 && buckets_are_empty(&self.id_hash) && buckets_are_empty(
            &self.class_hash,
        ) && buckets_are_empty(&self.attribute_hash) && buckets_are_empty(&self.local_name_hash)
            && buckets_are_empty(&self.namespace_hash) && self.rare_pseudo_classes.len() == 0
            && self.other.len() == 0
    }
}

/// Return whether no bucket of the list has entries.
fn buckets_are_empty<T>(buckets: &Vec<(String, Vec<T>)>) -> (empty: bool)
    ensures
        empty == (bucket_entries(buckets@).len() == 0),
{
    let mut empty = true;
    let mut index: usize = 0;
    while index < buckets.len()
        invariant
            index <= buckets.len(),
            empty == (bucket_entries(buckets@.take(index as int)).len() == 0),
        decreases buckets.len() - index,
    {
        if buckets[index].1.len() > 0 {
            empty = false;
        }
        proof {
            let next = buckets@.take(index + 1);
            assert(next.drop_last() =~= buckets@.take(index as int));
            assert(next.last() == buckets@[index as int]);
        }
        index = index + 1;
    }
    assert(buckets@.take(buckets@.len() as int) =~= buckets@);
    empty
}

/// The dependencies of a stylesheet source, by what they depend on. Each list
/// stands for the entry of its name; see `InvalidationMap::is_valid`.
#[derive(Debug, PartialEq, Eq, Hash)]
pub struct InvalidationMap {
    /// Dependencies by class.
    pub class_to_selector: Vec<(String, Vec<Dependency>)>,
    /// Dependencies by id.
    pub id_to_selector: Vec<(String, Vec<Dependency>)>,
    /// Dependencies by state.
    pub state_affecting_selectors: SelectorMap<StateDependency>,
    /// Dependencies by attribute.
    pub other_attribute_affecting_selectors: Vec<(String, Vec<Dependency>)>,
    /// Dependencies by custom state.
    pub custom_state_affecting_selectors: Vec<(String, Vec<Dependency>)>,
    /// Dependencies by element local name.
    pub type_to_selector: Vec<(String, Vec<Dependency>)>,
    /// Dependencies on any element.
    pub any_to_selector: Vec<Dependency>,
    /// There is a sibling dependency without a key.
    pub unkeyed_sibling_dependency: bool,
}

impl InvalidationMap {
    /// Whether the lists are those of a map: each class, id, attribute, custom
    /// state and local name has one at most.
    pub open spec fn is_valid(&self) -> bool {
        &&& names_occur_once(self.class_to_selector@)
        &&& names_occur_once(self.id_to_selector@)
        &&& names_occur_once(self.other_attribute_affecting_selectors@)
        &&& names_occur_once(self.custom_state_affecting_selectors@)
        &&& names_occur_once(self.type_to_selector@)
        &&& self.state_affecting_selectors.is_valid()
    }

    /// Create a map without dependencies.
    pub fn new() -> (map: Self)
        ensures
            map.class_to_selector@.len() == 0,
            map.id_to_selector@.len() == 0,
            map.state_affecting_selectors.entries().len() == 0,
            map.state_affecting_selectors.has_no_buckets(),
            map.other_attribute_affecting_selectors@.len() == 0,
            map.custom_state_affecting_selectors@.len() == 0,
            map.type_to_selector@.len() == 0,
            map.any_to_selector@.len() == 0,
            !map.unkeyed_sibling_dependency,
            map.is_valid(),
    {
        Self {
            class_to_selector: Vec::new(),
            id_to_selector: Vec::new(),
            state_affecting_selectors: SelectorMap::new(),
            other_attribute_affecting_selectors: Vec::new(),
            custom_state_affecting_selectors: Vec::new(),
            type_to_selector: Vec::new(),
            any_to_selector: Vec::new(),
            unkeyed_sibling_dependency: false,
        }
    }
}

/// Dependencies that only relative selectors have.
#[derive(Debug, PartialEq, Eq, Hash)]
pub struct AdditionalRelativeSelectorInvalidationMap {
    /// Dependencies on tree-structural state.
    pub ts_state_to_selector: SelectorMap<StateDependency>,
    /// Dependencies by element local name.
    pub type_to_selector: Vec<(String, Vec<Dependency>)>,
    /// Dependencies on any element.
    pub any_to_selector: Vec<Dependency>,
    /// Ancestors have to be traversed.
    pub needs_ancestors_traversal: bool,
    /// The map is in use.
    pub used: bool,
}

impl AdditionalRelativeSelectorInvalidationMap {
    /// Whether the lists are those of a map: each local name has one at most.
    pub open spec fn is_valid(&self) -> bool {
        &&& names_occur_once(self.type_to_selector@)
        &&& self.ts_state_to_selector.is_valid()
    }

    /// Create a map without dependencies.
    pub fn new() -> (map: Self)
        ensures
            map.ts_state_to_selector.entries().len() == 0,
            map.ts_state_to_selector.has_no_buckets(),
            map.type_to_selector@.len() == 0,
            map.any_to_selector@.len() == 0,
            !map.needs_ancestors_traversal,
            !map.used,
            map.is_valid(),
    {
        Self {
            ts_state_to_selector: SelectorMap::new(),
            type_to_selector: Vec::new(),
            any_to_selector: Vec::new(),
            needs_ancestors_traversal: false,
            used: false,
        }
    }
}

/// The dependency kind that an ordinary dependency is reported as.
pub open spec fn kind_of_normal(kind: NormalDependencyInvalidationKind) -> LightmountDependencyKind {
    match kind {
        NormalDependencyInvalidationKind::Element => LightmountDependencyKind::Element,
        NormalDependencyInvalidationKind::ElementAndDescendants => {
            LightmountDependencyKind::ElementAndDescendants
        },
        NormalDependencyInvalidationKind::Descendants => LightmountDependencyKind::Descendants,
        NormalDependencyInvalidationKind::Siblings => LightmountDependencyKind::Siblings,
        NormalDependencyInvalidationKind::SlottedElements => {
            LightmountDependencyKind::SlottedElements
        },
        NormalDependencyInvalidationKind::Parts => LightmountDependencyKind::Parts,
    }
}

/// The dependency kind that a relative dependency is reported as.
pub open spec fn kind_of_relative(
    kind: RelativeDependencyInvalidationKind,
) -> LightmountDependencyKind {
    match kind {
        RelativeDependencyInvalidationKind::Ancestors => {
            LightmountDependencyKind::RelativeAncestors
        },
        RelativeDependencyInvalidationKind::Parent => LightmountDependencyKind::RelativeParent,
        RelativeDependencyInvalidationKind::PrevSibling => {
            LightmountDependencyKind::RelativePrevSibling
        },
        RelativeDependencyInvalidationKind::AncestorPrevSibling => {
            LightmountDependencyKind::RelativeAncestorPrevSibling
        },
        RelativeDependencyInvalidationKind::EarlierSibling => {
            LightmountDependencyKind::RelativeEarlierSibling
        },
        RelativeDependencyInvalidationKind::AncestorEarlierSibling => {
            LightmountDependencyKind::RelativeAncestorEarlierSibling
        },
    }
}

/// The kinds that a dependency is reported as, leaving out what follows from
/// it.
pub open spec fn own_kinds(dependency: Dependency) -> Seq<LightmountDependencyKind> {
    (match dependency.kind {
        DependencyInvalidationKind::FullSelector => seq![],
        DependencyInvalidationKind::Normal(kind) => seq![kind_of_normal(kind)],
        DependencyInvalidationKind::Relative(kind) => seq![kind_of_relative(kind)],
        DependencyInvalidationKind::Scope(_) => seq![LightmountDependencyKind::Scope],
    }) + (if dependency.facts.right_combinator_is_next_sibling
        || dependency.facts.relative_with_single_next_sibling {
        seq![LightmountDependencyKind::Siblings]
    } else {
        seq![]
    })
}

/// The reasons for which a dependency is not exact, leaving out what follows
/// from it.
pub open spec fn own_reasons(dependency: Dependency) -> Seq<LightmountDependencyFallbackReason> {
    (if dependency.kind is FullSelector {
        seq![LightmountDependencyFallbackReason::FullSelector]
    } else {
        seq![]
    }) + (if dependency.has_nested_relative() {
        seq![LightmountDependencyFallbackReason::NestedRelativeSelectorDependency]
    } else {
        seq![]
    })
}

/// The kinds of a dependency and then of all that follow from it.
pub open spec fn kinds_of(dependency: Dependency) -> Seq<LightmountDependencyKind>
    decreases dependency,
{
    own_kinds(dependency) + kinds_of_list(dependency.next@)
}

/// The kinds of the dependencies of a list, in order.
pub open spec fn kinds_of_list(dependencies: Seq<Dependency>) -> Seq<LightmountDependencyKind>
    decreases dependencies,
{
    if dependencies.len() == 0 {
        seq![]
    } else {
        kinds_of_list(dependencies.drop_last()) + kinds_of(dependencies.last())
    }
}

/// The reasons of a dependency and then of all that follow from it.
pub open spec fn reasons_of(dependency: Dependency) -> Seq<LightmountDependencyFallbackReason>
    decreases dependency,
{
    own_reasons(dependency) + reasons_of_list(dependency.next@)
}

/// The reasons of the dependencies of a list, in order.
pub open spec fn reasons_of_list(
    dependencies: Seq<Dependency>,
) -> Seq<LightmountDependencyFallbackReason>
    decreases dependencies,
{
    if dependencies.len() == 0 {
        seq![]
    } else {
        reasons_of_list(dependencies.drop_last()) + reasons_of(dependencies.last())
    }
}

/// An answer with the kinds and reasons of a dependency added.
pub open spec fn with_dependency(
    answer: DependencyAnswer,
    dependency: Dependency,
) -> DependencyAnswer {
    answer.with_kinds(kinds_of(dependency)).with_reasons(reasons_of(dependency))
}

/// The answer that a list of dependencies gives.
pub open spec fn answer_of(dependencies: Seq<Dependency>) -> DependencyAnswer {
    DependencyAnswer::none().with_kinds(kinds_of_list(dependencies)).with_reasons(
        reasons_of_list(dependencies),
    )
}

proof fn lemma_with_lists_concat(
    answer: DependencyAnswer,
    kinds: Seq<LightmountDependencyKind>,
    reasons: Seq<LightmountDependencyFallbackReason>,
    more_kinds: Seq<LightmountDependencyKind>,
    more_reasons: Seq<LightmountDependencyFallbackReason>,
)
    ensures
        answer.with_kinds(kinds).with_reasons(reasons).with_kinds(more_kinds).with_reasons(
            more_reasons,
        ) == answer.with_kinds(kinds + more_kinds).with_reasons(reasons + more_reasons),
{
    let unknown = LightmountDependencyFallbackReason::UnknownDependency;
    super::ordered_set::lemma_extend_unique_concat(answer.kinds, kinds, more_kinds);
    super::ordered_set::lemma_extend_unique_concat(answer.reasons, reasons, more_reasons);
    let all = reasons + more_reasons;
    if reasons.contains(unknown) {
        let i = reasons.index_of(unknown);
        assert(all[i] == unknown);
    }
    if more_reasons.contains(unknown) {
        let i = more_reasons.index_of(unknown);
        assert(all[reasons.len() + i] == unknown);
    }
    if all.contains(unknown) {
        let i = all.index_of(unknown);
        if i < reasons.len() {
            assert(reasons[i] == unknown);
        } else {
            assert(more_reasons[i - reasons.len()] == unknown);
        }
    }
}

/// Return the answer that a list of dependencies gives.
pub fn lightmount_dependency_query_result_for_dependencies(dependencies: &Vec<Dependency>) -> (
    result: LightmountDependencyQueryResult)
    ensures
        result@ == answer_of(dependencies@),
{
    let mut result = LightmountDependencyQueryResult::default();
    assert(result@ =~= answer_of(dependencies@.take(0)));
    let mut index: usize = 0;
    while index < dependencies.len()
        invariant
            index <= dependencies.len(),
            result@ == answer_of(dependencies@.take(index as int)),
        decreases dependencies.len() - index,
    {
        lightmount_collect_dependency_query_result(&dependencies[index], &mut result);
        proof {
            let prior = dependencies@.take(index as int);
            let next = dependencies@.take(index + 1);
            let last = dependencies@[index as int];
            assert(next.drop_last() =~= prior);
            assert(next.last() == last);
            lemma_with_lists_concat(
                DependencyAnswer::none(),
                kinds_of_list(prior),
                reasons_of_list(prior),
                kinds_of(last),
                reasons_of(last),
            );
        }
        index = index + 1;
    }
    assert(dependencies@.take(dependencies@.len() as int) =~= dependencies@);
    result
}

/// Add the kinds and reasons of a dependency, and of all that follow from it,
/// to an answer.
pub fn lightmount_collect_dependency_query_result(
    dependency: &Dependency,
    result: &mut LightmountDependencyQueryResult,
)
    ensures
        final(result)@ == with_dependency(old(result)@, *dependency),
    decreases dependency,
{
    let ghost before = result@;
    match dependency.invalidation_kind() {
        DependencyInvalidationKind::FullSelector => {
            result.add_fallback_reason(LightmountDependencyFallbackReason::FullSelector);
        },
        DependencyInvalidationKind::Normal(kind) => {
            result.add_kind(
                match kind {
                    NormalDependencyInvalidationKind::Element => LightmountDependencyKind::Element,
                    NormalDependencyInvalidationKind::ElementAndDescendants => {
                        LightmountDependencyKind::ElementAndDescendants
                    },
                    NormalDependencyInvalidationKind::Descendants => {
                        LightmountDependencyKind::Descendants
                    },
                    NormalDependencyInvalidationKind::Siblings => {
                        LightmountDependencyKind::Siblings
                    },
                    NormalDependencyInvalidationKind::SlottedElements => {
                        LightmountDependencyKind::SlottedElements
                    },
                    NormalDependencyInvalidationKind::Parts => LightmountDependencyKind::Parts,
                },
            );
        },
        DependencyInvalidationKind::Relative(kind) => {
            result.add_kind(
                match kind {
                    RelativeDependencyInvalidationKind::Ancestors => {
                        LightmountDependencyKind::RelativeAncestors
                    },
                    RelativeDependencyInvalidationKind::Parent => {
                        LightmountDependencyKind::RelativeParent
                    },
                    RelativeDependencyInvalidationKind::PrevSibling => {
                        LightmountDependencyKind::RelativePrevSibling
                    },
                    RelativeDependencyInvalidationKind::AncestorPrevSibling => {
                        LightmountDependencyKind::RelativeAncestorPrevSibling
                    },
                    RelativeDependencyInvalidationKind::EarlierSibling => {
                        LightmountDependencyKind::RelativeEarlierSibling
                    },
                    RelativeDependencyInvalidationKind::AncestorEarlierSibling => {
                        LightmountDependencyKind::RelativeAncestorEarlierSibling
                    },
                },
            );
        },
        DependencyInvalidationKind::Scope(_) => {
            result.add_kind(LightmountDependencyKind::Scope);
        },
    }
    if dependency.facts.right_combinator_is_next_sibling
        || dependency.facts.relative_with_single_next_sibling {
        result.add_kind(LightmountDependencyKind::Siblings);
    }
    if lightmount_dependency_has_nested_relative_dependency(dependency) {
        result.add_fallback_reason(
            LightmountDependencyFallbackReason::NestedRelativeSelectorDependency,
        );
    }
    proof {
        lemma_own_part(before, *dependency);
        assert(result@ == before.with_kinds(own_kinds(*dependency)).with_reasons(
            own_reasons(*dependency),
        ));
    }
    let ghost own = result@;
    assert(own =~= own.with_kinds(kinds_of_list(dependency.next@.take(0))).with_reasons(
        reasons_of_list(dependency.next@.take(0)),
    ));
    let mut index: usize = 0;
    while index < dependency.next.len()
        invariant
            index <= dependency.next.len(),
            result@ == own.with_kinds(
                kinds_of_list(dependency.next@.take(index as int)),
            ).with_reasons(reasons_of_list(dependency.next@.take(index as int))),
        decreases dependency.next.len() - index,
    {
        lightmount_collect_dependency_query_result(&dependency.next[index], result);
        proof {
            let prior = dependency.next@.take(index as int);
            let next = dependency.next@.take(index + 1);
            let last = dependency.next@[index as int];
            assert(next.drop_last() =~= prior);
            assert(next.last() == last);
            lemma_with_lists_concat(
                own,
                kinds_of_list(prior),
                reasons_of_list(prior),
                kinds_of(last),
                reasons_of(last),
            );
        }
        index = index + 1;
    }
    proof {
        assert(dependency.next@.take(dependency.next@.len() as int) =~= dependency.next@);
        lemma_with_lists_concat(
            before,
            own_kinds(*dependency),
            own_reasons(*dependency),
            kinds_of_list(dependency.next@),
            reasons_of_list(dependency.next@),
        );
    }
}

/// Adding the own kinds and reasons of a dependency one by one is adding them
/// as lists.
proof fn lemma_own_part(answer: DependencyAnswer, dependency: Dependency)
    ensures
        ({
            let kinds = own_kinds(dependency);
            let reasons = own_reasons(dependency);
            let added = answer.with_kinds(kinds).with_reasons(reasons);
            &&& !added.unknown == !answer.unknown
            &&& kinds.len() == 0 ==> added.kinds == answer.kinds
            &&& kinds.len() == 1 ==> added.kinds == super::ordered_set::push_unique(
                answer.kinds,
                kinds[0],
            )
            &&& kinds.len() == 2 ==> added.kinds == super::ordered_set::push_unique(
                super::ordered_set::push_unique(answer.kinds, kinds[0]),
                kinds[1],
            )
            &&& reasons.len() == 0 ==> added.reasons == answer.reasons
            &&& reasons.len() == 1 ==> added.reasons == super::ordered_set::push_unique(
                answer.reasons,
                reasons[0],
            )
            &&& reasons.len() == 2 ==> added.reasons == super::ordered_set::push_unique(
                super::ordered_set::push_unique(answer.reasons, reasons[0]),
                reasons[1],
            )
        }),
{
    let kinds = own_kinds(dependency);
    let reasons = own_reasons(dependency);
    if kinds.len() == 1 {
        super::ordered_set::lemma_extend_unique_one(answer.kinds, kinds[0]);
        assert(kinds =~= seq![kinds[0]]);
    }
    if kinds.len() == 2 {
        super::ordered_set::lemma_extend_unique_one(answer.kinds, kinds[0]);
        assert(kinds.drop_last() =~= seq![kinds[0]]);
    }
    if reasons.len() == 1 {
        super::ordered_set::lemma_extend_unique_one(answer.reasons, reasons[0]);
        assert(reasons =~= seq![reasons[0]]);
    }
    if reasons.len() == 2 {
        super::ordered_set::lemma_extend_unique_one(answer.reasons, reasons[0]);
        assert(reasons.drop_last() =~= seq![reasons[0]]);
    }
}

/// The answers of lists of dependencies, by name.
pub open spec fn answers_by_name(
    lists: Seq<(String, Vec<Dependency>)>,
) -> Seq<(Seq<char>, DependencyAnswer)> {
    lists.map_values(|list: (String, Vec<Dependency>)| (list.0@, answer_of(list.1@)))
}

/// Record the answers of lists of dependencies under their names.
fn note_dependency_lists(
    dependencies: &mut Vec<(String, LightmountDependencyQueryResult)>,
    lists: &Vec<(String, Vec<Dependency>)>,
)
    ensures
        super::dependency_summary::entry_views(final(dependencies)@)
            == super::dependency_summary::noted_all(
            super::dependency_summary::entry_views(old(dependencies)@),
            answers_by_name(lists@),
        ),
{
    let ghost before = super::dependency_summary::entry_views(dependencies@);
    let ghost answers = answers_by_name(lists@);
    let mut index: usize = 0;
    while index < lists.len()
        invariant
            index <= lists.len(),
            answers == answers_by_name(lists@),
            super::dependency_summary::entry_views(dependencies@)
                == super::dependency_summary::noted_all(before, answers.take(index as int)),
        decreases lists.len() - index,
    {
        lightmount_note_keyed_dependency(
            dependencies,
            lists[index].0.clone(),
            lightmount_dependency_query_result_for_dependencies(&lists[index].1),
        );
        proof {
            let next = answers.take(index + 1);
            assert(next.drop_last() =~= answers.take(index as int));
            assert(next.last() == answers[index as int]);
        }
        index = index + 1;
    }
    assert(answers.take(answers.len() as int) =~= answers);
}

/// A summary with the answers of state dependencies noted in turn.
pub open spec fn with_states(
    summary: DependencySummaryView,
    dependencies: Seq<StateDependency>,
) -> DependencySummaryView
    decreases dependencies.len(),
{
    if dependencies.len() == 0 {
        summary
    } else {
        with_states(summary, dependencies.drop_last()).with_state(
            dependencies.last().state,
            with_dependency(DependencyAnswer::none(), dependencies.last().dep),
        )
    }
}

proof fn lemma_with_states_concat(
    summary: DependencySummaryView,
    first: Seq<StateDependency>,
    second: Seq<StateDependency>,
)
    ensures
        with_states(with_states(summary, first), second) == with_states(summary, first + second),
    decreases second.len(),
{
    if second.len() == 0 {
        assert(first + second =~= first);
    } else {
        lemma_with_states_concat(summary, first, second.drop_last());
        assert((first + second).drop_last() =~= first + second.drop_last());
        assert((first + second).last() == second.last());
    }
}

/// Record the answer of one state dependency.
pub fn lightmount_collect_state_dependency(
    dependency: &StateDependency,
    summary: &mut LightmountDependencyInvalidationSummary,
)
    ensures
        final(summary)@ == old(summary)@.with_state(
            dependency.state,
            with_dependency(DependencyAnswer::none(), dependency.dep),
        ),
{
    let mut result = LightmountDependencyQueryResult::default();
    lightmount_collect_dependency_query_result(&dependency.dep, &mut result);
    summary.note_state_dependency(dependency.state, result);
}

/// Record the answers of a list of state dependencies.
fn note_state_list(
    dependencies: &Vec<StateDependency>,
    summary: &mut LightmountDependencyInvalidationSummary,
)
    ensures
        final(summary)@ == with_states(old(summary)@, dependencies@),
{
    let ghost before = summary@;
    let mut index: usize = 0;
    assert(dependencies@.take(0) =~= Seq::empty());
    while index < dependencies.len()
        invariant
            index <= dependencies.len(),
            summary@ == with_states(before, dependencies@.take(index as int)),
        decreases dependencies.len() - index,
    {
        lightmount_collect_state_dependency(&dependencies[index], summary);
        proof {
            let next = dependencies@.take(index + 1);
            assert(next.drop_last() =~= dependencies@.take(index as int));
            assert(next.last() == dependencies@[index as int]);
        }
        index = index + 1;
    }
    assert(dependencies@.take(dependencies@.len() as int) =~= dependencies@);
}

/// Record the answers of state dependencies in buckets.
fn note_state_buckets(
    buckets: &Vec<(String, Vec<StateDependency>)>,
    summary: &mut LightmountDependencyInvalidationSummary,
)
    ensures
        final(summary)@ == with_states(old(summary)@, bucket_entries(buckets@)),
{
    let ghost before = summary@;
    let mut index: usize = 0;
    assert(buckets@.take(0) =~= Seq::empty());
    while index < buckets.len()
        invariant
            index <= buckets.len(),
            summary@ == with_states(before, bucket_entries(buckets@.take(index as int))),
        decreases buckets.len() - index,
    {
        note_state_list(&buckets[index].1, summary);
        proof {
            let prior = buckets@.take(index as int);
            let next = buckets@.take(index + 1);
            assert(next.drop_last() =~= prior);
            assert(next.last() == buckets@[index as int]);
            lemma_with_states_concat(before, bucket_entries(prior), next.last().1@);
        }
        index = index + 1;
    }
    assert(buckets@.take(buckets@.len() as int) =~= buckets@);
}

/// Record the answers of all state dependencies of a map.
pub fn lightmount_collect_state_dependencies_from_selector_map(
    map: &SelectorMap<StateDependency>,
    summary: &mut LightmountDependencyInvalidationSummary,
)
    ensures
        final(summary)@ == with_states(old(summary)@, map.entries()),
{
    let ghost before = summary@;
    note_state_list(&map.root, summary);
    note_state_buckets(&map.id_hash, summary);
    note_state_buckets(&map.class_hash, summary);
    note_state_buckets(&map.attribute_hash, summary);
    note_state_buckets(&map.local_name_hash, summary);
    note_state_buckets(&map.namespace_hash, summary);
    note_state_list(&map.rare_pseudo_classes, summary);
    note_state_list(&map.other, summary);
    proof {
        let s1 = map.root@;
        let s2 = s1 + bucket_entries(map.id_hash@);
        let s3 = s2 + bucket_entries(map.class_hash@);
        let s4 = s3 + bucket_entries(map.attribute_hash@);
        let s5 = s4 + bucket_entries(map.local_name_hash@);
        let s6 = s5 + bucket_entries(map.namespace_hash@);
        let s7 = s6 + map.rare_pseudo_classes@;
        lemma_with_states_concat(before, s1, bucket_entries(map.id_hash@));
        lemma_with_states_concat(before, s2, bucket_entries(map.class_hash@));
        lemma_with_states_concat(before, s3, bucket_entries(map.attribute_hash@));
        lemma_with_states_concat(before, s4, bucket_entries(map.local_name_hash@));
        lemma_with_states_concat(before, s5, bucket_entries(map.namespace_hash@));
        lemma_with_states_concat(before, s6, map.rare_pseudo_classes@);
        lemma_with_states_concat(before, s7, map.other@);
    }
}

/// The summary of an invalidation map without its state dependencies.
pub open spec fn keyed_summary_of_map(map: InvalidationMap) -> DependencySummaryView {
    DependencySummaryView {
        classes: super::dependency_summary::noted_all(
            seq![],
            answers_by_name(map.class_to_selector@),
        ),
        ids: super::dependency_summary::noted_all(seq![], answers_by_name(map.id_to_selector@)),
        attributes: super::dependency_summary::noted_all(
            seq![],
            answers_by_name(map.other_attribute_affecting_selectors@),
        ),
        types: super::dependency_summary::noted_all(seq![], answers_by_name(map.type_to_selector@)),
        custom_states: super::dependency_summary::noted_all(
            seq![],
            answers_by_name(map.custom_state_affecting_selectors@),
        ),
        universal: DependencyAnswer::none().join(answer_of(map.any_to_selector@)),
        unknown: map.unkeyed_sibling_dependency,
        ..DependencySummaryView::none()
    }
}

/// The summary of an invalidation map.
pub open spec fn summary_of_map(map: InvalidationMap) -> DependencySummaryView {
    with_states(keyed_summary_of_map(map), map.state_affecting_selectors.entries())
}

/// Summarize the dependencies of an invalidation map.
pub fn lightmount_dependency_summary_for_invalidation_map(map: &InvalidationMap) -> (summary:
    LightmountDependencyInvalidationSummary)
    ensures
        summary@ == summary_of_map(*map),
{
    let mut summary = LightmountDependencyInvalidationSummary::default();
    if map.unkeyed_sibling_dependency {
        summary.mark_unknown_dependency();
    }
    summary.note_universal_dependency(
        lightmount_dependency_query_result_for_dependencies(&map.any_to_selector),
    );
    note_dependency_lists(&mut summary.class_dependencies, &map.class_to_selector);
    note_dependency_lists(&mut summary.id_dependencies, &map.id_to_selector);
    note_dependency_lists(
        &mut summary.attribute_dependencies,
        &map.other_attribute_affecting_selectors,
    );
    note_dependency_lists(&mut summary.type_dependencies, &map.type_to_selector);
    note_dependency_lists(
        &mut summary.custom_state_dependencies,
        &map.custom_state_affecting_selectors,
    );
    lightmount_collect_state_dependencies_from_selector_map(
        &map.state_affecting_selectors,
        &mut summary,
    );
    summary
}

/// The summary of an additional relative map. Tree-structural state
/// dependencies have no key, and whether the map is in use does not matter.
pub open spec fn summary_of_relative_map(
    map: AdditionalRelativeSelectorInvalidationMap,
) -> DependencySummaryView {
    DependencySummaryView {
        universal: DependencyAnswer::none().join(answer_of(map.any_to_selector@)),
        types: super::dependency_summary::noted_all(seq![], answers_by_name(map.type_to_selector@)),
        unknown: map.needs_ancestors_traversal || map.ts_state_to_selector.entries().len() > 0,
        ..DependencySummaryView::none()
    }
}

/// Summarize the dependencies of an additional relative map.
pub fn lightmount_dependency_summary_for_relative_invalidation_map(
    map: &AdditionalRelativeSelectorInvalidationMap,
) -> (summary: LightmountDependencyInvalidationSummary)
    ensures
        summary@ == summary_of_relative_map(*map),
{
    let mut summary = LightmountDependencyInvalidationSummary::default();
    if map.needs_ancestors_traversal {
        summary.mark_unknown_dependency();
    }
    summary.note_universal_dependency(
        lightmount_dependency_query_result_for_dependencies(&map.any_to_selector),
    );
    note_dependency_lists(&mut summary.type_dependencies, &map.type_to_selector);
    if !map.ts_state_to_selector.is_empty() {
        summary.mark_unknown_dependency();
    }
    summary
}

/// The names of the lists that hold a sibling-sensitive dependency.
pub open spec fn sensitive_names(lists: Seq<(String, Vec<Dependency>)>) -> Seq<String>
    decreases lists.len(),
{
    if lists.len() == 0 {
        seq![]
    } else {
        let before = sensitive_names(lists.drop_last());
        if super::dependency::any_sibling_sensitive(lists.last().1@) {
            before.push(lists.last().0)
        } else {
            before
        }
    }
}

/// Append the names of the lists that hold a sibling-sensitive dependency.
fn note_sensitive_names(names: &mut Vec<String>, lists: &Vec<(String, Vec<Dependency>)>)
    ensures
        final(names)@ == old(names)@ + sensitive_names(lists@),
{
    let ghost before = names@;
    let mut index: usize = 0;
    assert(names@ =~= before + sensitive_names(lists@.take(0)));
    while index < lists.len()
        invariant
            index <= lists.len(),
            names@ == before + sensitive_names(lists@.take(index as int)),
        decreases lists.len() - index,
    {
        let ghost prior = names@;
        if lightmount_dependencies_have_sibling_sensitive(&lists[index].1) {
            names.push(lists[index].0.clone());
        }
        proof {
            let next = lists@.take(index + 1);
            assert(next.drop_last() =~= lists@.take(index as int));
            assert(next.last() == lists@[index as int]);
            assert(names@ =~= before + sensitive_names(next));
        }
        index = index + 1;
    }
    assert(lists@.take(lists@.len() as int) =~= lists@);
}

/// Whether some list holds a sibling-sensitive dependency.
pub open spec fn any_list_sensitive(lists: Seq<(String, Vec<Dependency>)>) -> bool {
    exists|i: int|
        0 <= i < lists.len() && super::dependency::any_sibling_sensitive((#[trigger] lists[i]).1@)
}

/// Return whether some list holds a sibling-sensitive dependency.
fn lists_are_sensitive(lists: &Vec<(String, Vec<Dependency>)>) -> (sensitive: bool)
    ensures
        sensitive == any_list_sensitive(lists@),
{
    let mut index: usize = 0;
    while index < lists.len()
        invariant
            index <= lists.len(),
            forall|i: int|
                0 <= i < index ==> !super::dependency::any_sibling_sensitive(
                    (#[trigger] lists@[i]).1@,
                ),
        decreases lists.len() - index,
    {
        if lightmount_dependencies_have_sibling_sensitive(&lists[index].1) {
            assert(super::dependency::any_sibling_sensitive(lists@[index as int].1@));
            return true;
        }
        index = index + 1;
    }
    false
}

/// A sibling summary with the sensitive state dependencies of a list noted.
pub open spec fn with_sensitive_states(
    summary: SiblingSummaryView,
    dependencies: Seq<StateDependency>,
) -> SiblingSummaryView
    decreases dependencies.len(),
{
    if dependencies.len() == 0 {
        summary
    } else {
        let before = with_sensitive_states(summary, dependencies.drop_last());
        if dependencies.last().dep.is_sibling_sensitive() {
            before.with_state(dependencies.last().state)
        } else {
            before
        }
    }
}

proof fn lemma_with_sensitive_states_concat(
    summary: SiblingSummaryView,
    first: Seq<StateDependency>,
    second: Seq<StateDependency>,
)
    ensures
        with_sensitive_states(with_sensitive_states(summary, first), second)
            == with_sensitive_states(summary, first + second),
    decreases second.len(),
{
    if second.len() == 0 {
        assert(first + second =~= first);
    } else {
        lemma_with_sensitive_states_concat(summary, first, second.drop_last());
        assert((first + second).drop_last() =~= first + second.drop_last());
        assert((first + second).last() == second.last());
    }
}

/// Record a state dependency where it is sibling-sensitive.
pub fn lightmount_collect_state_sibling_dependency(
    dependency: &StateDependency,
    summary: &mut LightmountSiblingInvalidationSummary,
)
    ensures
        final(summary)@ == if dependency.dep.is_sibling_sensitive() {
            old(summary)@.with_state(dependency.state)
        } else {
            old(summary)@
        },
{
    if lightmount_dependency_is_sibling_sensitive(&dependency.dep) {
        summary.note_state_dependency(dependency.state);
    }
}

/// Record the sibling-sensitive state dependencies of a list.
fn note_sensitive_state_list(
    dependencies: &Vec<StateDependency>,
    summary: &mut LightmountSiblingInvalidationSummary,
)
    ensures
        final(summary)@ == with_sensitive_states(old(summary)@, dependencies@),
{
    let ghost before = summary@;
    let mut index: usize = 0;
    assert(dependencies@.take(0) =~= Seq::empty());
    while index < dependencies.len()
        invariant
            index <= dependencies.len(),
            summary@ == with_sensitive_states(before, dependencies@.take(index as int)),
        decreases dependencies.len() - index,
    {
        lightmount_collect_state_sibling_dependency(&dependencies[index], summary);
        proof {
            let next = dependencies@.take(index + 1);
            assert(next.drop_last() =~= dependencies@.take(index as int));
            assert(next.last() == dependencies@[index as int]);
        }
        index = index + 1;
    }
    assert(dependencies@.take(dependencies@.len() as int) =~= dependencies@);
}

/// Record the sibling-sensitive state dependencies in buckets.
fn note_sensitive_state_buckets(
    buckets: &Vec<(String, Vec<StateDependency>)>,
    summary: &mut LightmountSiblingInvalidationSummary,
)
    ensures
        final(summary)@ == with_sensitive_states(old(summary)@, bucket_entries(buckets@)),
{
    let ghost before = summary@;
    let mut index: usize = 0;
    assert(buckets@.take(0) =~= Seq::empty());
    while index < buckets.len()
        invariant
            index <= buckets.len(),
            summary@ == with_sensitive_states(before, bucket_entries(buckets@.take(index as int))),
        decreases buckets.len() - index,
    {
        note_sensitive_state_list(&buckets[index].1, summary);
        proof {
            let prior = buckets@.take(index as int);
            let next = buckets@.take(index + 1);
            assert(next.drop_last() =~= prior);
            assert(next.last() == buckets@[index as int]);
            lemma_with_sensitive_states_concat(before, bucket_entries(prior), next.last().1@);
        }
        index = index + 1;
    }
    assert(buckets@.take(buckets@.len() as int) =~= buckets@);
}

/// Record the sibling-sensitive state dependencies of a map.
pub fn lightmount_collect_state_sibling_dependencies_from_selector_map(
    map: &SelectorMap<StateDependency>,
    summary: &mut LightmountSiblingInvalidationSummary,
)
    ensures
        final(summary)@ == with_sensitive_states(old(summary)@, map.entries()),
{
    let ghost before = summary@;
    note_sensitive_state_list(&map.root, summary);
    note_sensitive_state_buckets(&map.id_hash, summary);
    note_sensitive_state_buckets(&map.class_hash, summary);
    note_sensitive_state_buckets(&map.attribute_hash, summary);
    note_sensitive_state_buckets(&map.local_name_hash, summary);
    note_sensitive_state_buckets(&map.namespace_hash, summary);
    note_sensitive_state_list(&map.rare_pseudo_classes, summary);
    note_sensitive_state_list(&map.other, summary);
    proof {
        let s1 = map.root@;
        let s2 = s1 + bucket_entries(map.id_hash@);
        let s3 = s2 + bucket_entries(map.class_hash@);
        let s4 = s3 + bucket_entries(map.attribute_hash@);
        let s5 = s4 + bucket_entries(map.local_name_hash@);
        let s6 = s5 + bucket_entries(map.namespace_hash@);
        let s7 = s6 + map.rare_pseudo_classes@;
        lemma_with_sensitive_states_concat(before, s1, bucket_entries(map.id_hash@));
        lemma_with_sensitive_states_concat(before, s2, bucket_entries(map.class_hash@));
        lemma_with_sensitive_states_concat(before, s3, bucket_entries(map.attribute_hash@));
        lemma_with_sensitive_states_concat(before, s4, bucket_entries(map.local_name_hash@));
        lemma_with_sensitive_states_concat(before, s5, bucket_entries(map.namespace_hash@));
        lemma_with_sensitive_states_concat(before, s6, map.rare_pseudo_classes@);
        lemma_with_sensitive_states_concat(before, s7, map.other@);
    }
}

/// The sibling summary of an invalidation map without its state dependencies. A
/// dependency on any element, on a local name or on a custom state has no key
/// of its own and counts as unknown.
pub open spec fn keyed_sibling_summary_of_map(map: InvalidationMap) -> SiblingSummaryView {
    SiblingSummaryView {
        classes: sensitive_names(map.class_to_selector@),
        ids: sensitive_names(map.id_to_selector@),
        attributes: sensitive_names(map.other_attribute_affecting_selectors@),
        focus: false,
        target: false,
        unknown: map.unkeyed_sibling_dependency || super::dependency::any_sibling_sensitive(
            map.any_to_selector@,
        ) || any_list_sensitive(map.type_to_selector@) || any_list_sensitive(
            map.custom_state_affecting_selectors@,
        ),
    }
}

/// The sibling summary of an invalidation map.
pub open spec fn sibling_summary_of_map(map: InvalidationMap) -> SiblingSummaryView {
    with_sensitive_states(
        keyed_sibling_summary_of_map(map),
        map.state_affecting_selectors.entries(),
    )
}

/// Summarize the sibling-sensitive dependencies of an invalidation map.
pub fn lightmount_sibling_summary_for_invalidation_map(map: &InvalidationMap) -> (summary:
    LightmountSiblingInvalidationSummary)
    ensures
        summary@ == sibling_summary_of_map(*map),
{
    let mut summary = LightmountSiblingInvalidationSummary::default();
    if map.unkeyed_sibling_dependency {
        summary.note_unknown_dependency();
    }
    if lightmount_dependencies_have_sibling_sensitive(&map.any_to_selector) {
        summary.note_unknown_dependency();
    }
    note_sensitive_names(&mut summary.class_dependencies, &map.class_to_selector);
    note_sensitive_names(&mut summary.id_dependencies, &map.id_to_selector);
    note_sensitive_names(
        &mut summary.attribute_dependencies,
        &map.other_attribute_affecting_selectors,
    );
    if lists_are_sensitive(&map.type_to_selector) {
        summary.note_unknown_dependency();
    }
    if lists_are_sensitive(&map.custom_state_affecting_selectors) {
        summary.note_unknown_dependency();
    }
    proof {
        assert(summary@.classes =~= sensitive_names(map.class_to_selector@));
        assert(summary@.ids =~= sensitive_names(map.id_to_selector@));
        assert(summary@.attributes =~= sensitive_names(map.other_attribute_affecting_selectors@));
    }
    lightmount_collect_state_sibling_dependencies_from_selector_map(
        &map.state_affecting_selectors,
        &mut summary,
    );
    summary
}

/// Whether some state dependency of a list is sibling-sensitive.
pub open spec fn any_state_sensitive(dependencies: Seq<StateDependency>) -> bool {
    exists|i: int|
        0 <= i < dependencies.len() && (#[trigger] dependencies[i]).dep.is_sibling_sensitive()
}

proof fn lemma_any_state_sensitive_concat(
    first: Seq<StateDependency>,
    second: Seq<StateDependency>,
)
    ensures
        any_state_sensitive(first + second) == (any_state_sensitive(first) || any_state_sensitive(
            second,
        )),
{
    let all = first + second;
    if any_state_sensitive(first) {
        let i = choose|i: int|
            0 <= i < first.len() && (#[trigger] first[i]).dep.is_sibling_sensitive();
        assert(all[i].dep.is_sibling_sensitive());
    }
    if any_state_sensitive(second) {
        let i = choose|i: int|
            0 <= i < second.len() && (#[trigger] second[i]).dep.is_sibling_sensitive();
        assert(all[first.len() + i].dep.is_sibling_sensitive());
    }
    if any_state_sensitive(all) {
        let i = choose|i: int| 0 <= i < all.len() && (#[trigger] all[i]).dep.is_sibling_sensitive();
        if i < first.len() {
            assert(first[i].dep.is_sibling_sensitive());
        } else {
            assert(second[i - first.len()].dep.is_sibling_sensitive());
        }
    }
}

/// Return whether some state dependency of a list is sibling-sensitive.
fn state_list_is_sensitive(dependencies: &Vec<StateDependency>) -> (sensitive: bool)
    ensures
        sensitive == any_state_sensitive(dependencies@),
{
    let mut index: usize = 0;
    while index < dependencies.len()
        invariant
            index <= dependencies.len(),
            forall|i: int|
                0 <= i < index ==> !(#[trigger] dependencies@[i]).dep.is_sibling_sensitive(),
        decreases dependencies.len() - index,
    {
        if lightmount_dependency_is_sibling_sensitive(&dependencies[index].dep) {
            assert(dependencies@[index as int].dep.is_sibling_sensitive());
            return true;
        }
        index = index + 1;
    }
    false
}

/// Return whether some state dependency in buckets is sibling-sensitive.
fn state_buckets_are_sensitive(buckets: &Vec<(String, Vec<StateDependency>)>) -> (sensitive: bool)
    ensures
        sensitive == any_state_sensitive(bucket_entries(buckets@)),
{
    let mut sensitive = false;
    let mut index: usize = 0;
    while index < buckets.len()
        invariant
            index <= buckets.len(),
            sensitive == any_state_sensitive(bucket_entries(buckets@.take(index as int))),
        decreases buckets.len() - index,
    {
        if state_list_is_sensitive(&buckets[index].1) {
            sensitive = true;
        }
        proof {
            let prior = buckets@.take(index as int);
            let next = buckets@.take(index + 1);
            assert(next.drop_last() =~= prior);
            assert(next.last() == buckets@[index as int]);
            lemma_any_state_sensitive_concat(bucket_entries(prior), next.last().1@);
        }
        index = index + 1;
    }
    assert(buckets@.take(buckets@.len() as int) =~= buckets@);
    sensitive
}

/// Return whether some state dependency of a map is sibling-sensitive.
pub fn lightmount_selector_map_has_sibling_dependency(map: &SelectorMap<StateDependency>) -> (
    sensitive: bool)
    ensures
        sensitive == any_state_sensitive(map.entries()),
{
    proof {
        let s1 = map.root@;
        let s2 = s1 + bucket_entries(map.id_hash@);
        let s3 = s2 + bucket_entries(map.class_hash@);
        let s4 = s3 + bucket_entries(map.attribute_hash@);
        let s5 = s4 + bucket_entries(map.local_name_hash@);
        let s6 = s5 + bucket_entries(map.namespace_hash@);
        let s7 = s6 + map.rare_pseudo_classes@;
        lemma_any_state_sensitive_concat(s1, bucket_entries(map.id_hash@));
        lemma_any_state_sensitive_concat(s2, bucket_entries(map.class_hash@));
        lemma_any_state_sensitive_concat(s3, bucket_entries(map.attribute_hash@));
        lemma_any_state_sensitive_concat(s4, bucket_entries(map.local_name_hash@));
        lemma_any_state_sensitive_concat(s5, bucket_entries(map.namespace_hash@));
        lemma_any_state_sensitive_concat(s6, map.rare_pseudo_classes@);
        lemma_any_state_sensitive_concat(s7, map.other@);
    }
    state_list_is_sensitive(&map.root) || state_buckets_are_sensitive(&map.id_hash)
        || state_buckets_are_sensitive(&map.class_hash) || state_buckets_are_sensitive(
        &map.attribute_hash,
    ) || state_buckets_are_sensitive(&map.local_name_hash) || state_buckets_are_sensitive(
        &map.namespace_hash,
    ) || state_list_is_sensitive(&map.rare_pseudo_classes) || state_list_is_sensitive(&map.other)
}

/// The sibling summary of an additional relative map: no key is listed, and
/// any sibling-sensitive dependency is unknown.
pub open spec fn sibling_summary_of_relative_map(
    map: AdditionalRelativeSelectorInvalidationMap,
) -> SiblingSummaryView {
    SiblingSummaryView::none().with_unknown_if(
        map.needs_ancestors_traversal || super::dependency::any_sibling_sensitive(
            map.any_to_selector@,
        ) || any_list_sensitive(map.type_to_selector@) || any_state_sensitive(
            map.ts_state_to_selector.entries(),
        ),
    )
}

/// Summarize the sibling-sensitive dependencies of an additional relative map.
pub fn lightmount_sibling_summary_for_relative_invalidation_map(
    map: &AdditionalRelativeSelectorInvalidationMap,
) -> (summary: LightmountSiblingInvalidationSummary)
    ensures
        summary@ == sibling_summary_of_relative_map(*map),
{
    let mut summary = LightmountSiblingInvalidationSummary::default();
    if map.needs_ancestors_traversal {
        summary.note_unknown_dependency();
    }
    if lightmount_dependencies_have_sibling_sensitive(&map.any_to_selector) {
        summary.note_unknown_dependency();
    }
    if lists_are_sensitive(&map.type_to_selector) {
        summary.note_unknown_dependency();
    }
    if lightmount_selector_map_has_sibling_dependency(&map.ts_state_to_selector) {
        summary.note_unknown_dependency();
    }
    summary
}

/// The dependencies that a list of references refers to.
pub open spec fn referred<'a>(dependencies: Seq<&'a Dependency>) -> Seq<Dependency> {
    dependencies.map_values(|dependency: &'a Dependency| *dependency)
}

/// The dependencies listed under a name.
pub open spec fn list_for(lists: Seq<(String, Vec<Dependency>)>, name: Seq<char>) -> Seq<Dependency>
    decreases lists.len(),
{
    if lists.len() == 0 {
        seq![]
    } else if lists[0].0@ == name {
        lists[0].1@
    } else {
        list_for(lists.drop_first(), name)
    }
}

/// The name that class and id tokens are looked up by.
pub open spec fn lookup_name(token: Seq<char>, quirks_mode: QuirksMode) -> Seq<char> {
    if quirks_mode == QuirksMode::Quirks {
        super::text::ascii_lower(token)
    } else {
        token
    }
}

/// The dependencies of the entries whose state meets `state`.
pub open spec fn dependencies_meeting(
    candidates: Seq<&StateDependency>,
    state: ElementState,
) -> Seq<Dependency>
    decreases candidates.len(),
{
    if candidates.len() == 0 {
        seq![]
    } else {
        let before = dependencies_meeting(candidates.drop_last(), state);
        if candidates.last().state.meets(state.bits) {
            before.push(candidates.last().dep)
        } else {
            before
        }
    }
}

/// The dependencies that match a query in an invalidation map, where
/// `candidates` are the state entries that the element can match.
pub open spec fn matching_dependencies(
    map: InvalidationMap,
    quirks_mode: QuirksMode,
    candidates: Seq<&StateDependency>,
    shape: QueryShape,
) -> Seq<Dependency> {
    match shape {
        QueryShape::Universal => map.any_to_selector@,
        QueryShape::Type(local_name) => list_for(map.type_to_selector@, local_name),
        QueryShape::Attribute(name) => list_for(map.other_attribute_affecting_selectors@, name),
        QueryShape::Class(token) => list_for(
            map.class_to_selector@,
            lookup_name(token, quirks_mode),
        ),
        QueryShape::Id(value) => list_for(map.id_to_selector@, lookup_name(value, quirks_mode)),
        QueryShape::State(state) => dependencies_meeting(candidates, state),
        QueryShape::CustomState(name) => list_for(map.custom_state_affecting_selectors@, name),
    }
}

/// Append references to the dependencies of a list.
fn refer_to_all<'a>(list: &'a Vec<Dependency>, dependencies: &mut Vec<&'a Dependency>)
    ensures
        referred(final(dependencies)@) == referred(old(dependencies)@) + list@,
{
    let ghost before = referred(dependencies@);
    let mut index: usize = 0;
    assert(before =~= before + list@.take(0));
    while index < list.len()
        invariant
            index <= list.len(),
            referred(dependencies@) == before + list@.take(index as int),
        decreases list.len() - index,
    {
        let ghost prior = dependencies@;
        dependencies.push(&list[index]);
        assert(referred(dependencies@) =~= referred(prior).push(list@[index as int]));
        assert(before + list@.take(index + 1) =~= (before + list@.take(index as int)).push(
            list@[index as int],
        ));
        index = index + 1;
    }
    assert(list@.take(list@.len() as int) =~= list@);
}

/// Append references to the dependencies listed under a name.
fn refer_to_named<'a>(
    lists: &'a Vec<(String, Vec<Dependency>)>,
    name: &str,
    dependencies: &mut Vec<&'a Dependency>,
)
    ensures
        referred(final(dependencies)@) == referred(old(dependencies)@) + list_for(lists@, name@),
{
    let mut index: usize = 0;
    assert(lists@.skip(0) =~= lists@);
    while index < lists.len()
        invariant
            index <= lists.len(),
            *dependencies == *old(dependencies),
            list_for(lists@, name@) == list_for(lists@.skip(index as int), name@),
        decreases lists.len() - index,
    {
        assert(lists@.skip(index as int).drop_first() =~= lists@.skip(index + 1));
        if same_text(lists[index].0.as_str(), name) {
            refer_to_all(&lists[index].1, dependencies);
            return;
        }
        index = index + 1;
    }
    assert(referred(dependencies@) + list_for(lists@, name@) =~= referred(dependencies@));
}

/// Collect dependencies matching one query from an invalidation map.
///
/// `state_candidates` are the entries of the map's state dependencies whose
/// buckets the queried element falls into.
pub fn lightmount_collect_dependencies_from_invalidation_map<'a>(
    map: &'a InvalidationMap,
    quirks_mode: QuirksMode,
    state_candidates: &Vec<&'a StateDependency>,
    query: LightmountStyleInvalidationQuery<'_>,
    dependencies: &mut Vec<&'a Dependency>,
)
    ensures
        referred(final(dependencies)@) == referred(old(dependencies)@) + matching_dependencies(
            *map,
            quirks_mode,
            state_candidates@,
            query@,
        ),
{
    match query {
        LightmountStyleInvalidationQuery::Universal => {
            refer_to_all(&map.any_to_selector, dependencies);
        },
        LightmountStyleInvalidationQuery::Type(local_name) => {
            refer_to_named(&map.type_to_selector, local_name, dependencies);
        },
        LightmountStyleInvalidationQuery::Attribute(name) => {
            refer_to_named(&map.other_attribute_affecting_selectors, name, dependencies);
        },
        LightmountStyleInvalidationQuery::Class(token) => {
            if quirks_mode == QuirksMode::Quirks {
                let lower = ascii_lowercase(token);
                refer_to_named(&map.class_to_selector, lower.as_str(), dependencies);
            } else {
                refer_to_named(&map.class_to_selector, token, dependencies);
            }
        },
        LightmountStyleInvalidationQuery::Id(value) => {
            if quirks_mode == QuirksMode::Quirks {
                let lower = ascii_lowercase(value);
                refer_to_named(&map.id_to_selector, lower.as_str(), dependencies);
            } else {
                refer_to_named(&map.id_to_selector, value, dependencies);
            }
        },
        LightmountStyleInvalidationQuery::State(state) => {
            let ghost before = referred(dependencies@);
            let mut index: usize = 0;
            assert(before =~= before + dependencies_meeting(state_candidates@.take(0), state));
            while index < state_candidates.len()
                invariant
                    index <= state_candidates.len(),
                    referred(dependencies@) == before + dependencies_meeting(
                        state_candidates@.take(index as int),
                        state,
                    ),
                decreases state_candidates.len() - index,
            {
                let ghost prior = dependencies@;
                let candidate: &'a StateDependency = state_candidates[index];
                if candidate.state.intersects(state) {
                    dependencies.push(&candidate.dep);
                    assert(referred(dependencies@) =~= referred(prior).push(candidate.dep));
                }
                proof {
                    let next = state_candidates@.take(index + 1);
                    assert(next.drop_last() =~= state_candidates@.take(index as int));
                    assert(next.last() == state_candidates@[index as int]);
                    assert(referred(dependencies@) =~= before + dependencies_meeting(next, state));
                }
                index = index + 1;
            }
            assert(state_candidates@.take(state_candidates@.len() as int) =~= state_candidates@);
        },
        LightmountStyleInvalidationQuery::CustomState(name) => {
            refer_to_named(&map.custom_state_affecting_selectors, name, dependencies);
        },
    }
}

/// The dependencies that match a query in an additional relative map.
pub open spec fn matching_relative_dependencies(
    map: AdditionalRelativeSelectorInvalidationMap,
    shape: QueryShape,
) -> Seq<Dependency> {
    match shape {
        QueryShape::Universal => map.any_to_selector@,
        QueryShape::Type(local_name) => list_for(map.type_to_selector@, local_name),
        _ => seq![],
    }
}

/// Collect dependencies matching one query from an additional relative
/// selector invalidation map.
pub fn lightmount_collect_dependencies_from_additional_relative_invalidation_map<'a>(
    map: &'a AdditionalRelativeSelectorInvalidationMap,
    query: LightmountStyleInvalidationQuery<'_>,
    dependencies: &mut Vec<&'a Dependency>,
)
    ensures
        referred(final(dependencies)@) == referred(old(dependencies)@)
            + matching_relative_dependencies(*map, query@),
{
    match query {
        LightmountStyleInvalidationQuery::Universal => {
            refer_to_all(&map.any_to_selector, dependencies);
        },
        LightmountStyleInvalidationQuery::Type(local_name) => {
            refer_to_named(&map.type_to_selector, local_name, dependencies);
        },
        _ => {
            assert(referred(dependencies@) + Seq::<Dependency>::empty() =~= referred(
                dependencies@,
            ));
        },
    }
}

} // verus!
