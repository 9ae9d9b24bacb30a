//! Invalidation queries, as the runtime keeps them and as invalidation maps
//! answer them.

use vstd::prelude::*;

use super::element_state::{ElementState, HEADING_LEVEL_BITS};

verus! {

/// What an invalidation query asks about.
pub enum QueryShape {
    /// An element matching `*` was inserted or removed.
    Universal,
    /// An element with this local name was inserted or removed.
    Type(Seq<char>),
    /// An attribute with this local name changed.
    Attribute(Seq<char>),
    /// A class token was added or removed.
    Class(Seq<char>),
    /// An id value was added or removed.
    Id(Seq<char>),
    /// A pseudo-class state changed.
    State(ElementState),
    /// A custom state changed.
    CustomState(Seq<char>),
}

/// A style invalidation query that can be answered from invalidation maps.
#[derive(Clone, Copy, Debug, PartialEq, Eq)]
pub enum LightmountStyleInvalidationQuery<'a> {
    /// An element matching `*` was inserted or removed.
    Universal,
    /// An element with this local name was inserted or removed.
    Type(&'a str),
    /// An attribute local-name changed on the root element.
    Attribute(&'a str),
    /// A class token was added or removed on the root element.
    Class(&'a str),
    /// An id value was added or removed on the root element.
    Id(&'a str),
    /// A pseudo-class state changed on the root element.
    State(ElementState),
    /// A custom state changed on the root element.
    CustomState(&'a str),
}

impl<'a> View for LightmountStyleInvalidationQuery<'a> {
    type V = QueryShape;

    open spec fn view(&self) -> QueryShape {
        match *self {
            Self::Universal => QueryShape::Universal,
            Self::Type(local_name) => QueryShape::Type(local_name@),
            Self::Attribute(name) => QueryShape::Attribute(name@),
            Self::Class(token) => QueryShape::Class(token@),
            Self::Id(value) => QueryShape::Id(value@),
            Self::State(state) => QueryShape::State(state),
            Self::CustomState(name) => QueryShape::CustomState(name@),
        }
    }
}

/// One pseudo-class state invalidation root.
#[derive(Copy, Debug, PartialEq, Eq)]
pub struct LightmountStateInvalidationRoot<Root> {
    /// The root to invalidate.
    pub root: Root,
    /// The changed state.
    pub state: ElementState,
}

impl<Root: Copy> Clone for LightmountStateInvalidationRoot<Root> {
    fn clone(&self) -> (copy: Self)
        ensures
            copy == *self,
    {
        *self
    }
}

impl<Root: Copy> LightmountStateInvalidationRoot<Root> {
    /// Create one state invalidation root.
    pub fn new(root: Root, state: ElementState) -> (created: Self)
        ensures
            created == (LightmountStateInvalidationRoot { root, state }),
    {
        Self { root, state }
    }

    /// Return the root that should be invalidated for this state change.
    pub fn root(&self) -> (root: Root)
        ensures
            root == self.root,
    {
        self.root
    }

    /// Return the pseudo-class state represented by this root.
    pub fn state(&self) -> (state: ElementState)
        ensures
            state == self.state,
    {
        self.state
    }
}

/// Sibling context used when querying retained style invalidation for a root
/// that has already moved out of its original child list position.
#[derive(Copy, Debug, PartialEq, Eq, Hash)]
pub struct LightmountRetainedStyleSiblingTraversal<Root> {
    /// The previous sibling in the original position.
    pub previous_sibling: Option<Root>,
    /// The next sibling in the original position.
    pub next_sibling: Option<Root>,
}

impl<Root: Copy> Clone for LightmountRetainedStyleSiblingTraversal<Root> {
    fn clone(&self) -> (copy: Self)
        ensures
            copy == *self,
    {
        *self
    }
}

impl<Root: Copy> LightmountRetainedStyleSiblingTraversal<Root> {
    /// Create sibling traversal context.
    pub fn new(previous_sibling: Option<Root>, next_sibling: Option<Root>) -> (traversal: Self)
        ensures
            traversal == (LightmountRetainedStyleSiblingTraversal {
                previous_sibling,
                next_sibling,
            }),
    {
        Self { previous_sibling, next_sibling }
    }

    /// Return the previous sibling from the original child-list position.
    pub fn previous_sibling(&self) -> (sibling: Option<Root>)
        ensures
            sibling == self.previous_sibling,
    {
        self.previous_sibling
    }

    /// Return the next sibling from the original child-list position.
    pub fn next_sibling(&self) -> (sibling: Option<Root>)
        ensures
            sibling == self.next_sibling,
    {
        self.next_sibling
    }
}

/// Source-local retained invalidation query after the runtime-owned retained
/// query has been borrowed into invalidation-map query shape.
#[derive(Copy, Debug, PartialEq, Eq)]
pub struct LightmountSourceStyleInvalidationQuery<'a, Root> {
    /// The query root.
    pub root: Root,
    /// The query shape.
    pub query: LightmountStyleInvalidationQuery<'a>,
    /// The mutation-time previous sibling.
    pub previous_sibling: Option<Root>,
    /// The mutation-time next sibling.
    pub next_sibling: Option<Root>,
}

impl<'a, Root: Copy> Clone for LightmountSourceStyleInvalidationQuery<'a, Root> {
    fn clone(&self) -> (copy: Self)
        ensures
            copy == *self,
    {
        *self
    }
}

impl<'a, Root: Copy> LightmountSourceStyleInvalidationQuery<'a, Root> {
    /// Create one source-local invalidation query row.
    pub fn new(
        root: Root,
        query: LightmountStyleInvalidationQuery<'a>,
        previous_sibling: Option<Root>,
        next_sibling: Option<Root>,
    ) -> (created: Self)
        ensures
            created == (LightmountSourceStyleInvalidationQuery {
                root,
                query,
                previous_sibling,
                next_sibling,
            }),
    {
        Self { root, query, previous_sibling, next_sibling }
    }

    /// Return the query root.
    pub fn root(&self) -> (root: Root)
        ensures
            root == self.root,
    {
        self.root
    }

    /// Return the invalidation-map query shape.
    pub fn query(&self) -> (query: LightmountStyleInvalidationQuery<'a>)
        ensures
            query == self.query,
    {
        self.query
    }

    /// Return the mutation-time previous sibling, when available.
    pub fn previous_sibling(&self) -> (sibling: Option<Root>)
        ensures
            sibling == self.previous_sibling,
    {
        self.previous_sibling
    }

    /// Return the mutation-time next sibling, when available.
    pub fn next_sibling(&self) -> (sibling: Option<Root>)
        ensures
            sibling == self.next_sibling,
    {
        self.next_sibling
    }
}

/// What a retained query asks about, owned.
#[derive(Debug, PartialEq, Eq, Hash)]
pub enum LightmountRetainedStyleInvalidationQueryKind {
    /// An element matching `*`.
    Universal,
    /// An element local name.
    Type {
        /// The local name.
        local_name: String,
    },
    /// An attribute local name.
    Attribute {
        /// The local name.
        name: String,
    },
    /// A class token.
    Class {
        /// The token.
        token: String,
    },
    /// An id value.
    Id {
        /// The value.
        value: String,
    },
    /// A pseudo-class state.
    State {
        /// The state.
        state: ElementState,
    },
    /// A custom state.
    CustomState {
        /// Its name.
        name: String,
    },
}

impl View for LightmountRetainedStyleInvalidationQueryKind {
    type V = QueryShape;

    open spec fn view(&self) -> QueryShape {
        match *self {
            Self::Universal => QueryShape::Universal,
            Self::Type { local_name } => QueryShape::Type(local_name@),
            Self::Attribute { name } => QueryShape::Attribute(name@),
            Self::Class { token } => QueryShape::Class(token@),
            Self::Id { value } => QueryShape::Id(value@),
            Self::State { state } => QueryShape::State(state),
            Self::CustomState { name } => QueryShape::CustomState(name@),
        }
    }
}

/// Owned retained invalidation query used by the runtime queue.
///
/// The runtime owns mutation collection and cache clearing; this keeps the
/// shape of the dependency query.
#[derive(Debug, PartialEq, Eq, Hash)]
pub struct LightmountRetainedStyleInvalidationQuery<Root> {
    /// The query root.
    pub root: Root,
    /// What the query asks about.
    pub kind: LightmountRetainedStyleInvalidationQueryKind,
    /// The sibling context of the root, where it has moved.
    pub sibling_traversal: Option<LightmountRetainedStyleSiblingTraversal<Root>>,
}

/// A retained query with its texts taken by their characters.
pub struct RetainedQueryView<Root> {
    /// The query root.
    pub root: Root,
    /// What the query asks about.
    pub shape: QueryShape,
    /// The sibling context of the root, where it has moved.
    pub sibling_traversal: Option<LightmountRetainedStyleSiblingTraversal<Root>>,
}

impl<Root> View for LightmountRetainedStyleInvalidationQuery<Root> {
    type V = RetainedQueryView<Root>;

    open spec fn view(&self) -> RetainedQueryView<Root> {
        RetainedQueryView {
            root: self.root,
            shape: self.kind@,
            sibling_traversal: self.sibling_traversal,
        }
    }
}

impl Clone for LightmountRetainedStyleInvalidationQueryKind {
    fn clone(&self) -> (kind: Self)
        ensures
            kind@ == self@,
    {
        match self {
            Self::Universal => Self::Universal,
            Self::Type { local_name } => Self::Type { local_name: local_name.clone() },
            Self::Attribute { name } => Self::Attribute { name: name.clone() },
            Self::Class { token } => Self::Class { token: token.clone() },
            Self::Id { value } => Self::Id { value: value.clone() },
            Self::State { state } => Self::State { state: *state },
            Self::CustomState { name } => Self::CustomState { name: name.clone() },
        }
    }
}

impl<Root: Copy> Clone for LightmountRetainedStyleInvalidationQuery<Root> {
    fn clone(&self) -> (query: Self)
        ensures
            query@ == self@,
    {
        Self {
            root: self.root,
            kind: self.kind.clone(),
            sibling_traversal: self.sibling_traversal,
        }
    }
}

impl<Root: Copy> LightmountRetainedStyleInvalidationQuery<Root> {
    /// Create a universal retained query.
    pub fn universal(root: Root) -> (query: Self)
        ensures
            query@ == (RetainedQueryView {
                root,
                shape: QueryShape::Universal,
                sibling_traversal: None,
            }),
    {
        Self {
            root,
            kind: LightmountRetainedStyleInvalidationQueryKind::Universal,
            sibling_traversal: None,
        }
    }

    /// Create a type retained query.
    pub fn element_type(root: Root, local_name: String) -> (query: Self)
        ensures
            query@ == (RetainedQueryView {
                root,
                shape: QueryShape::Type(local_name@),
                sibling_traversal: None,
            }),
    {
        Self {
            root,
            kind: LightmountRetainedStyleInvalidationQueryKind::Type { local_name },
            sibling_traversal: None,
        }
    }

    /// Create an attribute retained query.
    pub fn attribute(root: Root, name: String) -> (query: Self)
        ensures
            query@ == (RetainedQueryView {
                root,
                shape: QueryShape::Attribute(name@),
                sibling_traversal: None,
            }),
    {
        Self {
            root,
            kind: LightmountRetainedStyleInvalidationQueryKind::Attribute { name },
            sibling_traversal: None,
        }
    }

    /// Create a class retained query.
    pub fn class(root: Root, token: String) -> (query: Self)
        ensures
            query@ == (RetainedQueryView {
                root,
                shape: QueryShape::Class(token@),
                sibling_traversal: None,
            }),
    {
        Self {
            root,
            kind: LightmountRetainedStyleInvalidationQueryKind::Class { token },
            sibling_traversal: None,
        }
    }

    /// Create an id retained query.
    pub fn id(root: Root, value: String) -> (query: Self)
        ensures
            query@ == (RetainedQueryView {
                root,
                shape: QueryShape::Id(value@),
                sibling_traversal: None,
            }),
    {
        Self {
            root,
            kind: LightmountRetainedStyleInvalidationQueryKind::Id { value },
            sibling_traversal: None,
        }
    }

    /// Create a state retained query.
    pub fn state(root: Root, state: ElementState) -> (query: Self)
        ensures
            query@ == (RetainedQueryView {
                root,
                shape: QueryShape::State(state),
                sibling_traversal: None,
            }),
    {
        Self {
            root,
            kind: LightmountRetainedStyleInvalidationQueryKind::State { state },
            sibling_traversal: None,
        }
    }

    /// Create a custom-state retained query.
    pub fn custom_state(root: Root, name: String) -> (query: Self)
        ensures
            query@ == (RetainedQueryView {
                root,
                shape: QueryShape::CustomState(name@),
                sibling_traversal: None,
            }),
    {
        Self {
            root,
            kind: LightmountRetainedStyleInvalidationQueryKind::CustomState { name },
            sibling_traversal: None,
        }
    }

    /// Attach sibling traversal context.
    pub fn with_sibling_traversal(
        self,
        sibling_traversal: Option<LightmountRetainedStyleSiblingTraversal<Root>>,
    ) -> (query: Self)
        ensures
            query == (LightmountRetainedStyleInvalidationQuery { sibling_traversal, ..self }),
    {
        Self { root: self.root, kind: self.kind, sibling_traversal }
    }

    /// Return the query root.
    pub fn root(&self) -> (root: Root)
        ensures
            root == self.root,
    {
        self.root
    }

    /// Return sibling traversal context.
    pub fn sibling_traversal(&self) -> (traversal: Option<
        LightmountRetainedStyleSiblingTraversal<Root>,
    >)
        ensures
            traversal == self.sibling_traversal,
    {
        self.sibling_traversal
    }

    /// Return whether this query targets the universal invalidation map.
    pub fn is_universal(&self) -> (universal: bool)
        ensures
            universal == (self@.shape is Universal),
    {
        matches!(self.kind, LightmountRetainedStyleInvalidationQueryKind::Universal)
    }

    /// Whether this is a query on the heading level.
    pub open spec fn asks_for_heading_level(&self) -> bool {
        self@.shape is State && self@.shape->State_0.meets(HEADING_LEVEL_BITS)
    }

    /// Return whether this state query can use direct previous-sibling
    /// fallback roots when child-list sibling context is available.
    pub fn allows_direct_previous_following_sibling_fallback(&self) -> (allows: bool)
        ensures
            allows == self.asks_for_heading_level(),
    {
        match &self.kind {
            LightmountRetainedStyleInvalidationQueryKind::State { state } => state.intersects(
                ElementState::new(HEADING_LEVEL_BITS),
            ),
            _ => false,
        }
    }

    /// Borrow this retained query as the invalidation-map query shape.
    pub fn as_stylo_query(&self) -> (query: LightmountStyleInvalidationQuery<'_>)
        ensures
            query@ == self@.shape,
    {
        match &self.kind {
            LightmountRetainedStyleInvalidationQueryKind::Universal => {
                LightmountStyleInvalidationQuery::Universal
            },
            LightmountRetainedStyleInvalidationQueryKind::Type { local_name } => {
                LightmountStyleInvalidationQuery::Type(local_name.as_str())
            },
            LightmountRetainedStyleInvalidationQueryKind::Attribute { name } => {
                LightmountStyleInvalidationQuery::Attribute(name.as_str())
            },
            LightmountRetainedStyleInvalidationQueryKind::Class { token } => {
                LightmountStyleInvalidationQuery::Class(token.as_str())
            },
            LightmountRetainedStyleInvalidationQueryKind::Id { value } => {
                LightmountStyleInvalidationQuery::Id(value.as_str())
            },
            LightmountRetainedStyleInvalidationQueryKind::State { state } => {
                LightmountStyleInvalidationQuery::State(*state)
            },
            LightmountRetainedStyleInvalidationQueryKind::CustomState { name } => {
                LightmountStyleInvalidationQuery::CustomState(name.as_str())
            },
        }
    }

    /// The previous sibling of the sibling context, where there is one.
    pub open spec fn traversal_previous(&self) -> Option<Root> {
        match self.sibling_traversal {
            Some(traversal) => traversal.previous_sibling,
            None => None,
        }
    }

    /// The next sibling of the sibling context, where there is one.
    pub open spec fn traversal_next(&self) -> Option<Root> {
        match self.sibling_traversal {
            Some(traversal) => traversal.next_sibling,
            None => None,
        }
    }

    /// Borrow this retained query as a source-local invalidation query row.
    pub fn as_source_query(&self) -> (query: LightmountSourceStyleInvalidationQuery<'_, Root>)
        ensures
            query.root == self.root,
            query.query@ == self@.shape,
            query.previous_sibling == self.traversal_previous(),
            query.next_sibling == self.traversal_next(),
    {
        let (previous_sibling, next_sibling) = match self.sibling_traversal() {
            Some(traversal) => (traversal.previous_sibling(), traversal.next_sibling()),
            None => (None, None),
        };
        LightmountSourceStyleInvalidationQuery::new(
            self.root(),
            self.as_stylo_query(),
            previous_sibling,
            next_sibling,
        )
    }
}

} // verus!
