//! The links between elements along which the anchors of relative selectors
//! are found.

use vstd::prelude::*;

verus! {

/// The links of one element to elements before it.
#[derive(Clone, Copy, Debug, PartialEq, Eq)]
pub struct ElementLinks {
    /// The parent element, or the host of the shadow root that the element is
    /// a child of.
    pub parent_or_host: Option<usize>,
    /// The previous sibling element.
    pub previous_sibling: Option<usize>,
}

/// Whether a link leads to an element before a given one.
pub open spec fn leads_before(link: Option<usize>, element: int) -> bool {
    link matches Some(other) ==> other < element
}

/// Whether every link leads to an earlier element.
pub open spec fn links_lead_before(links: Seq<ElementLinks>) -> bool {
    forall|i: int|
        0 <= i < links.len() ==> leads_before((#[trigger] links[i]).parent_or_host, i)
            && leads_before(links[i].previous_sibling, i)
}

/// Elements, numbered in tree order: parents, hosts and previous siblings come
/// before the elements that link to them.
#[derive(Debug)]
pub struct ElementTree {
    links: Vec<ElementLinks>,
}

impl View for ElementTree {
    type V = Seq<ElementLinks>;

    closed spec fn view(&self) -> Seq<ElementLinks> {
        self.links@
    }
}

/// The ancestors of an element, nearest first.
pub open spec fn ancestors(tree: Seq<ElementLinks>, element: int) -> Seq<usize>
    decreases element,
{
    match tree[element].parent_or_host {
        Some(parent) => if 0 <= parent < element {
            seq![parent] + ancestors(tree, parent as int)
        } else {
            seq![]
        },
        None => seq![],
    }
}

/// The siblings before an element, nearest first.
pub open spec fn earlier_siblings(tree: Seq<ElementLinks>, element: int) -> Seq<usize>
    decreases element,
{
    match tree[element].previous_sibling {
        Some(previous) => if 0 <= previous < element {
            seq![previous] + earlier_siblings(tree, previous as int)
        } else {
            seq![]
        },
        None => seq![],
    }
}

/// The elements from a given one back through its siblings, nearest first.
pub open spec fn siblings_from(tree: Seq<ElementLinks>, element: Option<usize>) -> Seq<usize> {
    match element {
        Some(element) => seq![element] + earlier_siblings(tree, element as int),
        None => seq![],
    }
}

/// The element behind a link, where there is one.
pub open spec fn linked(link: Option<usize>) -> Seq<usize> {
    match link {
        Some(element) => seq![element],
        None => seq![],
    }
}

/// The siblings before each of some elements, element by element: all of them,
/// or only the nearest.
pub open spec fn siblings_before_each(
    tree: Seq<ElementLinks>,
    elements: Seq<usize>,
    nearest_only: bool,
) -> Seq<usize>
    decreases elements.len(),
{
    if elements.len() == 0 {
        seq![]
    } else {
        let previous = tree[elements[0] as int].previous_sibling;
        (if nearest_only {
            linked(previous)
        } else {
            siblings_from(tree, previous)
        }) + siblings_before_each(tree, elements.drop_first(), nearest_only)
    }
}

impl ElementTree {
    /// That every link leads to an earlier element.
    #[verifier::type_invariant]
    closed spec fn links_are_ordered(self) -> bool {
        links_lead_before(self.links@)
    }

    /// Create a tree without elements.
    pub fn new() -> (tree: Self)
        ensures
            tree@ == Seq::<ElementLinks>::empty(),
    {
        ElementTree { links: Vec::new() }
    }

    /// Add an element with its links, and return its number; nothing is added
    /// where a link leads to no element of the tree.
    pub fn add_element(
        &mut self,
        parent_or_host: Option<usize>,
        previous_sibling: Option<usize>,
    ) -> (element: Option<usize>)
        ensures
            leads_before(parent_or_host, old(self)@.len() as int) && leads_before(
                previous_sibling,
                old(self)@.len() as int,
            ) ==> element == Some(old(self)@.len() as usize) && final(self)@ == old(self)@.push(
                ElementLinks { parent_or_host, previous_sibling },
            ),
            !(leads_before(parent_or_host, old(self)@.len() as int) && leads_before(
                previous_sibling,
                old(self)@.len() as int,
            )) ==> element is None && final(self)@ == old(self)@,
    {
        proof {
            use_type_invariant(&*self);
        }
        let count: usize = self.links.len();
        if let Some(parent) = parent_or_host {
            if parent >= count {
                return None;
            }
        }
        if let Some(previous) = previous_sibling {
            if previous >= count {
                return None;
            }
        }
        let mut links: Vec<ElementLinks> = Vec::new();
        std::mem::swap(&mut links, &mut self.links);
        links.push(ElementLinks { parent_or_host, previous_sibling });
        self.links = links;
        Some(count)
    }

    /// Return the number of elements.
    pub fn len(&self) -> (count: usize)
        ensures
            count == self@.len(),
    {
        self.links.len()
    }

    /// Return the parent or host of an element.
    pub fn parent_or_host(&self, element: usize) -> (parent: Option<usize>)
        requires
            element < self@.len(),
        ensures
            parent == self@[element as int].parent_or_host,
            leads_before(parent, element as int),
    {
        proof {
            use_type_invariant(self);
        }
        self.links[element].parent_or_host
    }

    /// Return the previous sibling of an element.
    pub fn previous_sibling(&self, element: usize) -> (previous: Option<usize>)
        requires
            element < self@.len(),
        ensures
            previous == self@[element as int].previous_sibling,
            leads_before(previous, element as int),
    {
        proof {
            use_type_invariant(self);
        }
        self.links[element].previous_sibling
    }

    /// Append the ancestors of an element, nearest first.
    pub fn append_ancestors(&self, element: usize, found: &mut Vec<usize>)
        requires
            element < self@.len(),
        ensures
            final(found)@ == old(found)@ + ancestors(self@, element as int),
    {
        let ghost all = old(found)@ + ancestors(self@, element as int);
        let mut current: usize = element;
        loop
            invariant
                current < self@.len(),
                all == found@ + ancestors(self@, current as int),
            ensures
                all == found@,
            decreases current,
        {
            let parent = match self.parent_or_host(current) {
                Some(parent) => parent,
                None => {
                    break;
                },
            };
            found.push(parent);
            assert(all =~= found@ + ancestors(self@, parent as int));
            current = parent;
        }
    }

    /// Append an element, where there is one, and its earlier siblings, nearest
    /// first.
    pub fn append_siblings_from(&self, element: Option<usize>, found: &mut Vec<usize>)
        requires
            leads_before(element, self@.len() as int),
        ensures
            final(found)@ == old(found)@ + siblings_from(self@, element),
    {
        let ghost all = old(found)@ + siblings_from(self@, element);
        let mut current: Option<usize> = element;
        loop
            invariant
                leads_before(current, self@.len() as int),
                all == found@ + siblings_from(self@, current),
            ensures
                all == found@,
            decreases
                    match current {
                        Some(candidate) => candidate + 1,
                        None => 0,
                    },
        {
            let candidate = match current {
                Some(candidate) => candidate,
                None => {
                    break;
                },
            };
            found.push(candidate);
            current = self.previous_sibling(candidate);
            assert(all =~= found@ + siblings_from(self@, current));
        }
    }

    /// Append, for each ancestor of an element from the nearest on, its earlier
    /// siblings, or only the nearest of them.
    pub fn append_ancestor_siblings(
        &self,
        element: usize,
        nearest_only: bool,
        found: &mut Vec<usize>,
    )
        requires
            element < self@.len(),
        ensures
            final(found)@ == old(found)@ + siblings_before_each(
                self@,
                ancestors(self@, element as int),
                nearest_only,
            ),
    {
        let ghost all = old(found)@ + siblings_before_each(
            self@,
            ancestors(self@, element as int),
            nearest_only,
        );
        let mut current: usize = element;
        loop
            invariant
                current < self@.len(),
                all == found@ + siblings_before_each(
                    self@,
                    ancestors(self@, current as int),
                    nearest_only,
                ),
            ensures
                all == found@,
            decreases current,
        {
            let parent = match self.parent_or_host(current) {
                Some(parent) => parent,
                None => {
                    break;
                },
            };
            let ghost before = found@;
            let previous = self.previous_sibling(parent);
            if nearest_only {
                if let Some(previous) = previous {
                    found.push(previous);
                }
                assert(found@ =~= before + linked(previous));
            } else {
                self.append_siblings_from(previous, found);
            }
            proof {
                let line = ancestors(self@, current as int);
                assert(line.drop_first() =~= ancestors(self@, parent as int));
                assert(all =~= found@ + siblings_before_each(
                    self@,
                    ancestors(self@, parent as int),
                    nearest_only,
                ));
            }
            current = parent;
        }
    }
}

/// Whether elements come before a given one, each before the one ahead of it
/// in the list.
pub open spec fn descends_from(elements: Seq<usize>, element: int) -> bool {
    &&& forall|i: int| 0 <= i < elements.len() ==> #[trigger] elements[i] < element
    &&& forall|i: int, j: int|
        0 <= i < j < elements.len() ==> #[trigger] elements[j] < #[trigger] elements[i]
}

proof fn lemma_descends_further(elements: Seq<usize>, next: usize, element: int)
    requires
        descends_from(elements, next as int),
        next < element,
    ensures
        descends_from(seq![next] + elements, element),
{
    let all = seq![next] + elements;
    assert forall|i: int| 0 <= i < all.len() implies #[trigger] all[i] < element by {
        if i > 0 {
            assert(all[i] == elements[i - 1]);
        }
    }
    assert forall|i: int, j: int| 0 <= i < j < all.len() implies #[trigger] all[j]
        < #[trigger] all[i] by {
        assert(all[j] == elements[j - 1]);
        if i > 0 {
            assert(all[i] == elements[i - 1]);
        }
    }
}

/// The ancestors and the earlier siblings of an element come before it, each
/// before the one ahead of it, so that none occurs twice.
pub proof fn lemma_chains_descend(tree: Seq<ElementLinks>, element: int)
    requires
        links_lead_before(tree),
        0 <= element < tree.len(),
    ensures
        descends_from(ancestors(tree, element), element),
        descends_from(earlier_siblings(tree, element), element),
    decreases element,
{
    assert(leads_before(tree[element].parent_or_host, element));
    if let Some(parent) = tree[element].parent_or_host {
        lemma_chains_descend(tree, parent as int);
        lemma_descends_further(ancestors(tree, parent as int), parent, element);
    }
    if let Some(previous) = tree[element].previous_sibling {
        lemma_chains_descend(tree, previous as int);
        lemma_descends_further(earlier_siblings(tree, previous as int), previous, element);
    }
}

} // verus!
