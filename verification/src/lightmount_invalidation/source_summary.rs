//! Dependency metadata of one stylesheet source.

use vstd::prelude::*;

use super::dependency_query::{DependencyAnswer, LightmountDependencyQueryResult};
use super::dependency_summary::{
    DependencyAspect, DependencySummaryView, LightmountDependencyInvalidationSummary,
};
use super::element_state::ElementState;
use super::lists::copy_slice;
use super::query::{LightmountStyleInvalidationQuery, QueryShape};
use super::request::LightmountSourceDependencyInvalidationRequest;
use super::text::{copy_texts, list_has_text, note_text};

verus! {

/// Selector-derived keys for DOM boundaries whose child structure can affect
/// a source's tree-structural selectors.
///
/// These keys are separate from normal state/attribute invalidation metadata:
/// selectors such as `section:empty` and
/// `details > summary:first-of-type` are driven by mutations to the boundary
/// element even though no attribute on the selector subject changed.
#[derive(Debug, PartialEq, Eq, Hash)]
pub struct LightmountChildListStructuralBoundaryDependencySummary {
    /// Class tokens of boundaries.
    pub class_dependencies: Vec<String>,
    /// Ids of boundaries.
    pub id_dependencies: Vec<String>,
    /// Local names of boundaries.
    pub type_dependencies: Vec<String>,
    /// Attributes of boundaries.
    pub attribute_dependencies: Vec<String>,
    /// Any element can be a boundary.
    pub universal_dependency: bool,
}

/// The content of a structural boundary summary.
pub struct BoundarySummaryView {
    /// Class tokens of boundaries.
    pub classes: Seq<Seq<char>>,
    /// Ids of boundaries.
    pub ids: Seq<Seq<char>>,
    /// Local names of boundaries.
    pub types: Seq<Seq<char>>,
    /// Attributes of boundaries.
    pub attributes: Seq<Seq<char>>,
    /// Any element can be a boundary.
    pub universal: bool,
}

impl BoundarySummaryView {
    /// The summary without boundaries.
    pub open spec fn none() -> Self {
        BoundarySummaryView {
            classes: seq![],
            ids: seq![],
            types: seq![],
            attributes: seq![],
            universal: false,
        }
    }

    /// Whether the key that a query asks about is that of a boundary. States
    /// are never keys of boundaries.
    pub open spec fn matches(self, shape: QueryShape) -> bool {
        match shape {
            QueryShape::Universal => self.universal,
            QueryShape::Type(local_name) => self.types.contains(local_name),
            QueryShape::Attribute(name) => self.attributes.contains(name),
            QueryShape::Class(token) => self.classes.contains(token),
            QueryShape::Id(value) => self.ids.contains(value),
            QueryShape::State(_) => false,
            QueryShape::CustomState(_) => false,
        }
    }
}

impl View for LightmountChildListStructuralBoundaryDependencySummary {
    type V = BoundarySummaryView;

    open spec fn view(&self) -> BoundarySummaryView {
        BoundarySummaryView {
            classes: super::text::text_views(self.class_dependencies@),
            ids: super::text::text_views(self.id_dependencies@),
            types: super::text::text_views(self.type_dependencies@),
            attributes: super::text::text_views(self.attribute_dependencies@),
            universal: self.universal_dependency,
        }
    }
}

impl Default for LightmountChildListStructuralBoundaryDependencySummary {
    fn default() -> (summary: Self)
        ensures
            summary@ == BoundarySummaryView::none(),
    {
        let summary = Self {
            class_dependencies: Vec::new(),
            id_dependencies: Vec::new(),
            type_dependencies: Vec::new(),
            attribute_dependencies: Vec::new(),
            universal_dependency: false,
        };
        proof {
            let none = BoundarySummaryView::none();
            assert(summary@.classes =~= none.classes);
            assert(summary@.ids =~= none.ids);
            assert(summary@.types =~= none.types);
            assert(summary@.attributes =~= none.attributes);
        }
        summary
    }
}

impl LightmountChildListStructuralBoundaryDependencySummary {
    /// Record a class token of a boundary.
    pub fn note_class_dependency(&mut self, class: String)
        ensures
            final(self)@ == (BoundarySummaryView {
                classes: super::ordered_set::push_unique(old(self)@.classes, class@),
                ..old(self)@
            }),
    {
        note_text(&mut self.class_dependencies, class);
    }

    /// Record an id of a boundary.
    pub fn note_id_dependency(&mut self, id: String)
        ensures
            final(self)@ == (BoundarySummaryView {
                ids: super::ordered_set::push_unique(old(self)@.ids, id@),
                ..old(self)@
            }),
    {
        note_text(&mut self.id_dependencies, id);
    }

    /// Record a local name of a boundary.
    pub fn note_type_dependency(&mut self, local_name: String)
        ensures
            final(self)@ == (BoundarySummaryView {
                types: super::ordered_set::push_unique(old(self)@.types, local_name@),
                ..old(self)@
            }),
    {
        note_text(&mut self.type_dependencies, local_name);
    }

    /// Record an attribute of a boundary.
    pub fn note_attribute_dependency(&mut self, attribute: String)
        ensures
            final(self)@ == (BoundarySummaryView {
                attributes: super::ordered_set::push_unique(old(self)@.attributes, attribute@),
                ..old(self)@
            }),
    {
        note_text(&mut self.attribute_dependencies, attribute);
    }

    /// Record that any element can be a boundary.
    pub fn note_universal_dependency(&mut self)
        ensures
            final(self)@ == (BoundarySummaryView { universal: true, ..old(self)@ }),
    {
        self.universal_dependency = true;
    }

    /// Return whether the key that a query asks about is that of a boundary.
    pub fn matches_query(&self, query: LightmountStyleInvalidationQuery<'_>) -> (matches: bool)
        ensures
            matches == self@.matches(query@),
    {
        match query {
            LightmountStyleInvalidationQuery::Universal => self.universal_dependency,
            LightmountStyleInvalidationQuery::Type(local_name) => {
                proof {
                    super::text::lemma_lists_text_views(self.type_dependencies@, local_name@);
                }
                list_has_text(&self.type_dependencies, local_name)
            },
            LightmountStyleInvalidationQuery::Attribute(name) => {
                proof {
                    super::text::lemma_lists_text_views(self.attribute_dependencies@, name@);
                }
                list_has_text(&self.attribute_dependencies, name)
            },
            LightmountStyleInvalidationQuery::Class(token) => {
                proof {
                    super::text::lemma_lists_text_views(self.class_dependencies@, token@);
                }
                list_has_text(&self.class_dependencies, token)
            },
            LightmountStyleInvalidationQuery::Id(value) => {
                proof {
                    super::text::lemma_lists_text_views(self.id_dependencies@, value@);
                }
                list_has_text(&self.id_dependencies, value)
            },
            LightmountStyleInvalidationQuery::State(_)
            | LightmountStyleInvalidationQuery::CustomState(_) => false,
        }
    }
}

impl Clone for LightmountChildListStructuralBoundaryDependencySummary {
    fn clone(&self) -> (summary: Self)
        ensures
            summary@ == self@,
    {
        Self {
            class_dependencies: copy_texts(&self.class_dependencies),
            id_dependencies: copy_texts(&self.id_dependencies),
            type_dependencies: copy_texts(&self.type_dependencies),
            attribute_dependencies: copy_texts(&self.attribute_dependencies),
            universal_dependency: self.universal_dependency,
        }
    }
}

/// The part of a source's cascade data that invalidation reads.
#[derive(Debug, PartialEq, Eq)]
pub struct CascadeData {
    /// The keyed dependencies of the source's selectors.
    pub dependency_summary: LightmountDependencyInvalidationSummary,
    /// The source has child-list structural dependencies.
    pub child_list_structural_dependency: bool,
    /// The boundaries of those dependencies.
    pub child_list_structural_boundaries: LightmountChildListStructuralBoundaryDependencySummary,
}

impl CascadeData {
    /// Return the keyed dependencies of the source's selectors.
    pub fn lightmount_dependency_invalidation_summary(&self) -> (summary:
        LightmountDependencyInvalidationSummary)
        ensures
            summary@ == self.dependency_summary@,
    {
        self.dependency_summary.clone()
    }

    /// Return whether the source has child-list structural dependencies.
    pub fn has_child_list_structural_dependency(&self) -> (structural: bool)
        ensures
            structural == self.child_list_structural_dependency,
    {
        self.child_list_structural_dependency
    }

    /// Return the boundaries of the child-list structural dependencies.
    pub fn lightmount_child_list_structural_boundary_dependency_summary(&self) -> (summary:
        &LightmountChildListStructuralBoundaryDependencySummary)
        ensures
            summary@ == self.child_list_structural_boundaries@,
    {
        &self.child_list_structural_boundaries
    }
}

/// The content of a source dependency summary.
pub struct SourceSummaryView {
    /// The keyed dependencies.
    pub summary: DependencySummaryView,
    /// The source has child-list structural dependencies.
    pub structural: bool,
    /// The boundaries of those dependencies.
    pub boundaries: BoundarySummaryView,
}

impl SourceSummaryView {
    /// The answer to a query of any shape.
    pub open spec fn answer(self, shape: QueryShape) -> DependencyAnswer {
        match shape {
            QueryShape::Universal => self.summary.universal,
            QueryShape::Type(name) => super::dependency_summary::answer_for(
                self.summary.types,
                name,
            ),
            QueryShape::Attribute(name) => super::dependency_summary::answer_for(
                self.summary.attributes,
                name,
            ),
            QueryShape::Class(token) => super::dependency_summary::answer_for(
                self.summary.classes,
                token,
            ),
            QueryShape::Id(value) => super::dependency_summary::answer_for(self.summary.ids, value),
            QueryShape::State(state) => self.summary.state_answer(state),
            QueryShape::CustomState(name) => super::dependency_summary::answer_for(
                self.summary.custom_states,
                name,
            ),
        }
    }

    /// The answer to the query of a request.
    pub open spec fn answer_to<'a, Root>(
        self,
        request: LightmountSourceDependencyInvalidationRequest<'a, Root>,
    ) -> DependencyAnswer {
        self.answer(request.query@.shape)
    }

    /// Whether a request asks for structural dependencies and the source has
    /// them at the boundary that the request is about.
    pub open spec fn is_structural_for<'a, Root>(
        self,
        request: LightmountSourceDependencyInvalidationRequest<'a, Root>,
    ) -> bool {
        &&& self.structural
        &&& request.requirement.requires_child_list_structural_dependency
        &&& self.boundaries.matches(request.query@.shape)
    }

    /// Whether some request meets a structural boundary.
    pub open spec fn any_structural<'a, Root>(
        self,
        requests: Seq<LightmountSourceDependencyInvalidationRequest<'a, Root>>,
    ) -> bool {
        exists|i: int| 0 <= i < requests.len() && self.is_structural_for(#[trigger] requests[i])
    }

    /// Whether some request affects previous-sibling relative anchors.
    pub open spec fn any_relative_previous<'a, Root>(
        self,
        requests: Seq<LightmountSourceDependencyInvalidationRequest<'a, Root>>,
    ) -> bool {
        exists|i: int|
            0 <= i < requests.len() && self.answer_to(
                #[trigger] requests[i],
            ).affects_previous_sibling_anchors()
    }

    /// Whether some request affects slotted elements.
    pub open spec fn any_slotted<'a, Root>(
        self,
        requests: Seq<LightmountSourceDependencyInvalidationRequest<'a, Root>>,
    ) -> bool {
        exists|i: int|
            0 <= i < requests.len() && self.answer_to(#[trigger] requests[i]).affects_slotted()
    }

    /// Whether an empty target needs fallback roots.
    pub open spec fn needs_empty_target_fallback<'a, Root>(
        self,
        requests: Seq<LightmountSourceDependencyInvalidationRequest<'a, Root>>,
    ) -> bool {
        ||| self.any_structural(requests)
        ||| self.any_relative_previous(requests)
        ||| self.any_slotted(requests)
    }
}

/// Source-local dependency metadata used by invalidation.
#[derive(Debug, PartialEq, Eq, Hash)]
pub struct LightmountSourceDependencySummary {
    /// The keyed dependencies.
    pub dependency_summary: LightmountDependencyInvalidationSummary,
    /// The source has child-list structural dependencies.
    pub has_child_list_structural_dependency: bool,
    /// The boundaries of those dependencies.
    pub child_list_structural_boundary_dependencies:
        LightmountChildListStructuralBoundaryDependencySummary,
}

impl View for LightmountSourceDependencySummary {
    type V = SourceSummaryView;

    open spec fn view(&self) -> SourceSummaryView {
        SourceSummaryView {
            summary: self.dependency_summary@,
            structural: self.has_child_list_structural_dependency,
            boundaries: self.child_list_structural_boundary_dependencies@,
        }
    }
}

impl Default for LightmountSourceDependencySummary {
    fn default() -> (summary: Self)
        ensures
            summary@ == (SourceSummaryView {
                summary: DependencySummaryView::none(),
                structural: false,
                boundaries: BoundarySummaryView::none(),
            }),
    {
        Self {
            dependency_summary: LightmountDependencyInvalidationSummary::default(),
            has_child_list_structural_dependency: false,
            child_list_structural_boundary_dependencies:
                LightmountChildListStructuralBoundaryDependencySummary::default(),
        }
    }
}

impl Clone for LightmountSourceDependencySummary {
    fn clone(&self) -> (summary: Self)
        ensures
            summary@ == self@,
    {
        Self {
            dependency_summary: self.dependency_summary.clone(),
            has_child_list_structural_dependency: self.has_child_list_structural_dependency,
            child_list_structural_boundary_dependencies:
                self.child_list_structural_boundary_dependencies.clone(),
        }
    }
}

impl LightmountSourceDependencySummary {
    /// Create source dependency metadata from summary parts.
    pub fn new(
        dependency_summary: LightmountDependencyInvalidationSummary,
        has_child_list_structural_dependency: bool,
        child_list_structural_boundary_dependencies:
            LightmountChildListStructuralBoundaryDependencySummary,
    ) -> (summary: Self)
        ensures
            summary@ == (SourceSummaryView {
                summary: dependency_summary@,
                structural: has_child_list_structural_dependency,
                boundaries: child_list_structural_boundary_dependencies@,
            }),
    {
        Self {
            dependency_summary,
            has_child_list_structural_dependency,
            child_list_structural_boundary_dependencies,
        }
    }

    /// Create source dependency metadata from cascade data.
    pub fn from_cascade_data(cascade_data: &CascadeData) -> (summary: Self)
        ensures
            summary@ == (SourceSummaryView {
                summary: cascade_data.dependency_summary@,
                structural: cascade_data.child_list_structural_dependency,
                boundaries: cascade_data.child_list_structural_boundaries@,
            }),
    {
        Self::new(
            cascade_data.lightmount_dependency_invalidation_summary(),
            cascade_data.has_child_list_structural_dependency(),
            cascade_data.lightmount_child_list_structural_boundary_dependency_summary().clone(),
        )
    }

    /// Query dependencies for a changed class through this source summary.
    pub fn query_class(&self, class: &str) -> (result: LightmountDependencyQueryResult)
        ensures
            result@ == self@.answer(QueryShape::Class(class@)),
    {
        self.dependency_summary.query_class(class)
    }

    /// Query dependencies for a changed id through this source summary.
    pub fn query_id(&self, id: &str) -> (result: LightmountDependencyQueryResult)
        ensures
            result@ == self@.answer(QueryShape::Id(id@)),
    {
        self.dependency_summary.query_id(id)
    }

    /// Query dependencies for a changed attribute through this source summary.
    pub fn query_attribute(&self, attribute: &str) -> (result: LightmountDependencyQueryResult)
        ensures
            result@ == self@.answer(QueryShape::Attribute(attribute@)),
    {
        self.dependency_summary.query_attribute(attribute)
    }

    /// Query dependencies for an inserted or removed element local name.
    pub fn query_type(&self, local_name: &str) -> (result: LightmountDependencyQueryResult)
        ensures
            result@ == self@.answer(QueryShape::Type(local_name@)),
    {
        self.dependency_summary.query_type(local_name)
    }

    /// Query dependencies for an inserted or removed element matching `*`.
    pub fn query_universal(&self) -> (result: LightmountDependencyQueryResult)
        ensures
            result@ == self@.answer(QueryShape::Universal),
    {
        self.dependency_summary.query_universal()
    }

    /// Query dependencies for a changed element state bitset.
    pub fn query_state(&self, state: ElementState) -> (result: LightmountDependencyQueryResult)
        ensures
            result@ == self@.answer(QueryShape::State(state)),
    {
        self.dependency_summary.query_state(state)
    }

    /// Query dependencies for a changed CSS custom state.
    pub fn query_custom_state(&self, state: &str) -> (result: LightmountDependencyQueryResult)
        ensures
            result@ == self@.answer(QueryShape::CustomState(state@)),
    {
        self.dependency_summary.query_custom_state(state)
    }

    /// Query dependencies for focus-like state changes.
    pub fn query_focus(&self) -> (result: LightmountDependencyQueryResult)
        ensures
            result@ == self@.summary.focus,
    {
        self.dependency_summary.query_focus()
    }

    /// Query dependencies for `:focus-within` state changes.
    pub fn query_focus_within(&self) -> (result: LightmountDependencyQueryResult)
        ensures
            result@ == self@.summary.focus_within,
    {
        self.dependency_summary.query_focus_within()
    }

    /// Query dependencies for `:target` state changes.
    pub fn query_target(&self) -> (result: LightmountDependencyQueryResult)
        ensures
            result@ == self@.summary.target,
    {
        self.dependency_summary.query_target()
    }

    /// Return whether this source has child-list structural dependencies.
    pub fn has_child_list_structural_dependency(&self) -> (structural: bool)
        ensures
            structural == self@.structural,
    {
        self.has_child_list_structural_dependency
    }

    /// Return whether a request asks for structural dependencies and this
    /// source has them at the boundary that the request is about.
    pub fn has_child_list_structural_boundary_dependency_for_request<'a, Root: Copy>(
        &self,
        request: &LightmountSourceDependencyInvalidationRequest<'a, Root>,
    ) -> (structural: bool)
        ensures
            structural == self@.is_structural_for(*request),
    {
        self.has_child_list_structural_dependency
            && request.requires_child_list_structural_dependency()
            && self.child_list_structural_boundary_dependencies.matches_query(
            request.query().as_stylo_query(),
        )
    }

    /// Return whether this source has any relative selector dependency.
    pub fn has_relative_selector_dependency(&self) -> (found: bool)
        ensures
            found == self@.summary.shows(DependencyAspect::RelativeAnchors),
    {
        self.dependency_summary.has_relative_selector_dependency()
    }

    /// Return whether this source has any focus-like state dependency.
    pub fn has_focus_dependency(&self) -> (found: bool)
        ensures
            found == self@.summary.focus.has_any(),
    {
        self.dependency_summary.query_focus().has_any_dependency()
    }

    /// Return whether this source has any `:focus-within` dependency.
    pub fn has_focus_within_dependency(&self) -> (found: bool)
        ensures
            found == self@.summary.focus_within.has_any(),
    {
        self.dependency_summary.query_focus_within().has_any_dependency()
    }

    /// Return whether this source has any `:target` dependency.
    pub fn has_target_dependency(&self) -> (found: bool)
        ensures
            found == self@.summary.target.has_any(),
    {
        self.dependency_summary.query_target().has_any_dependency()
    }

    /// Return whether this source has any following-sibling dependency.
    pub fn has_sibling_dependency(&self) -> (found: bool)
        ensures
            found == (self@.summary.unknown || self@.summary.unknown_state_bits != 0
                || self@.summary.shows(DependencyAspect::Siblings)),
    {
        self.dependency_summary.has_sibling_dependency()
    }

    /// Query this source dependency summary for one retained invalidation
    /// query shape.
    pub fn query_result(&self, query: LightmountStyleInvalidationQuery<'_>) -> (result:
        LightmountDependencyQueryResult)
        ensures
            result@ == self@.answer(query@),
    {
        match query {
            LightmountStyleInvalidationQuery::Universal => self.query_universal(),
            LightmountStyleInvalidationQuery::Type(local_name) => self.query_type(local_name),
            LightmountStyleInvalidationQuery::Attribute(name) => self.query_attribute(name),
            LightmountStyleInvalidationQuery::Class(token) => self.query_class(token),
            LightmountStyleInvalidationQuery::Id(value) => self.query_id(value),
            LightmountStyleInvalidationQuery::State(state) => self.query_state(state),
            LightmountStyleInvalidationQuery::CustomState(name) => self.query_custom_state(name),
        }
    }

    /// Return whether child-list structural dependencies can participate in
    /// any request that requires them.
    ///
    /// The source-level structural bit is intentionally paired with
    /// selector-derived boundary keys. A structural selector elsewhere in the
    /// same source must not turn an unrelated type or universal query into an
    /// empty-target fallback.
    pub fn has_child_list_structural_dependency_for_requests<'a, Root: Copy>(
        &self,
        requests: &[LightmountSourceDependencyInvalidationRequest<'a, Root>],
    ) -> (found: bool)
        ensures
            found == self@.any_structural(requests@),
    {
        let mut index: usize = 0;
        while index < requests.len()
            invariant
                index <= requests@.len(),
                forall|i: int|
                    0 <= i < index ==> !self@.is_structural_for(#[trigger] requests@[i]),
            decreases requests.len() - index,
        {
            if self.has_child_list_structural_boundary_dependency_for_request(&requests[index]) {
                assert(self@.is_structural_for(requests@[index as int]));
                return true;
            }
            index = index + 1;
        }
        false
    }

    /// Return whether direct previous-sibling relative dependencies are
    /// present for any request.
    pub fn has_relative_previous_sibling_dependency_for_requests<'a, Root: Copy>(
        &self,
        requests: &[LightmountSourceDependencyInvalidationRequest<'a, Root>],
    ) -> (found: bool)
        ensures
            found == self@.any_relative_previous(requests@),
    {
        let mut index: usize = 0;
        while index < requests.len()
            invariant
                index <= requests@.len(),
                forall|i: int|
                    0 <= i < index ==> !self@.answer_to(
                        #[trigger] requests@[i],
                    ).affects_previous_sibling_anchors(),
            decreases requests.len() - index,
        {
            if self.query_result(
                requests[index].query().as_stylo_query(),
            ).has_relative_previous_sibling_dependency() {
                assert(self@.answer_to(
                    requests@[index as int],
                ).affects_previous_sibling_anchors());
                return true;
            }
            index = index + 1;
        }
        false
    }

    /// Return whether slotted dependencies are present for any request.
    pub fn has_slotted_dependency_for_requests<'a, Root: Copy>(
        &self,
        requests: &[LightmountSourceDependencyInvalidationRequest<'a, Root>],
    ) -> (found: bool)
        ensures
            found == self@.any_slotted(requests@),
    {
        let mut index: usize = 0;
        while index < requests.len()
            invariant
                index <= requests@.len(),
                forall|i: int|
                    0 <= i < index ==> !self@.answer_to(
                        #[trigger] requests@[i],
                    ).affects_slotted(),
            decreases requests.len() - index,
        {
            if self.query_result(
                requests[index].query().as_stylo_query(),
            ).has_slotted_dependency() {
                assert(self@.answer_to(requests@[index as int]).affects_slotted());
                return true;
            }
            index = index + 1;
        }
        false
    }

    /// Return whether this source needs an empty-target fallback for the
    /// requested source dependency batch.
    pub fn requires_empty_target_fallback_for_requests<'a, Root: Copy>(
        &self,
        requests: &[LightmountSourceDependencyInvalidationRequest<'a, Root>],
    ) -> (required: bool)
        ensures
            required == self@.needs_empty_target_fallback(requests@),
    {
        self.has_child_list_structural_dependency_for_requests(requests)
            || self.has_relative_previous_sibling_dependency_for_requests(requests)
            || self.has_slotted_dependency_for_requests(requests)
    }

    /// Return structural-boundary cleanup roots for the requested source
    /// dependency batch.
    pub fn structural_boundary_cleanup_roots_for_requests<'a, Root: Copy>(
        &self,
        requests: &[LightmountSourceDependencyInvalidationRequest<'a, Root>],
        relative_previous_sibling_cleanup_roots: &[Root],
    ) -> (roots: Vec<Root>)
        ensures
            roots@ == if self@.any_relative_previous(requests@) {
                relative_previous_sibling_cleanup_roots@
            } else {
                Seq::empty()
            },
    {
        if self.has_relative_previous_sibling_dependency_for_requests(requests) {
            copy_slice(relative_previous_sibling_cleanup_roots)
        } else {
            Vec::new()
        }
    }
}

/// One stylesheet source participating in a source dependency invalidation
/// batch.
pub struct LightmountSourceDependencyInvalidationBatchSource<'a, Root> {
    /// The dependencies of the source.
    pub dependency_summary: &'a LightmountSourceDependencySummary,
    /// The fallback roots of the source.
    pub fallback_roots: LightmountSourceDependencyFallbackRoots<'a, Root>,
}

/// Fallback roots available for one stylesheet source dependency batch.
///
/// Source-local roots describe the stylesheet source's own scope. Cause roots
/// describe a narrower runtime mutation boundary when one is available.
#[derive(Copy, Debug, PartialEq, Eq)]
pub struct LightmountSourceDependencyFallbackRoots<'a, Root> {
    /// Roots of the source's own scope.
    pub source_local_roots: &'a [Root],
    /// Roots of a narrower mutation boundary.
    pub cause_roots: &'a [Root],
}

impl<'a, Root: Copy> Clone for LightmountSourceDependencyFallbackRoots<'a, Root> {
    fn clone(&self) -> (copy: Self)
        ensures
            copy == *self,
    {
        *self
    }
}

impl<'a, Root> LightmountSourceDependencyFallbackRoots<'a, Root> {
    /// Create the fallback roots of a source.
    pub fn new(source_local_roots: &'a [Root], cause_roots: &'a [Root]) -> (roots: Self)
        ensures
            roots == (LightmountSourceDependencyFallbackRoots { source_local_roots, cause_roots }),
    {
        Self { source_local_roots, cause_roots }
    }

    /// The roots to use: those of the cause where there are any.
    pub open spec fn selected(self) -> Seq<Root> {
        if self.cause_roots@.len() == 0 {
            self.source_local_roots@
        } else {
            self.cause_roots@
        }
    }

    /// Return the roots to use.
    pub fn selected_roots(&self) -> (roots: &'a [Root])
        ensures
            roots@ == self.selected(),
    {
        if self.cause_roots.len() == 0 {
            self.source_local_roots
        } else {
            self.cause_roots
        }
    }
}

impl<'a, Root> LightmountSourceDependencyInvalidationBatchSource<'a, Root> {
    /// Create one source dependency invalidation batch source.
    pub fn new(
        dependency_summary: &'a LightmountSourceDependencySummary,
        source_local_fallback_roots: &'a [Root],
        cause_fallback_roots: &'a [Root],
    ) -> (source: Self)
        ensures
            *source.dependency_summary == *dependency_summary,
            source.fallback_roots == (LightmountSourceDependencyFallbackRoots {
                source_local_roots: source_local_fallback_roots,
                cause_roots: cause_fallback_roots,
            }),
    {
        Self {
            dependency_summary,
            fallback_roots: LightmountSourceDependencyFallbackRoots::new(
                source_local_fallback_roots,
                cause_fallback_roots,
            ),
        }
    }

    /// Return this source's dependency summary.
    pub fn dependency_summary(&self) -> (summary: &'a LightmountSourceDependencySummary)
        ensures
            *summary == *self.dependency_summary,
    {
        self.dependency_summary
    }

    /// Return the selected fallback roots, preferring cause roots when present.
    pub fn selected_fallback_roots(&self) -> (roots: &'a [Root])
        ensures
            roots@ == self.fallback_roots.selected(),
    {
        self.fallback_roots.selected_roots()
    }
}

} // verus!
