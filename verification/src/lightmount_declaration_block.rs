//! CSS declaration blocks and how single properties of them are edited.

use vstd::prelude::*;

use crate::lightmount_invalidation::text::{copy_texts, list_has_text, same_text};

verus! {

/// One declaration of a block, serialized.
#[derive(Debug, PartialEq, Eq)]
pub struct CssDeclarationEntry {
    /// The property name.
    pub name: String,
    /// The value.
    pub value: String,
    /// The declaration is `!important`.
    pub priority: bool,
}

/// The content of a declaration.
pub struct DeclarationView {
    /// The property name.
    pub name: Seq<char>,
    /// The value.
    pub value: Seq<char>,
    /// The declaration is `!important`.
    pub important: bool,
}

impl View for CssDeclarationEntry {
    type V = DeclarationView;

    open spec fn view(&self) -> DeclarationView {
        DeclarationView { name: self.name@, value: self.value@, important: self.priority }
    }
}

impl Clone for CssDeclarationEntry {
    fn clone(&self) -> (entry: Self)
        ensures
            entry@ == self@,
    {
        Self { name: self.name.clone(), value: self.value.clone(), priority: self.priority }
    }
}

/// A property that a name stands for: a longhand or custom property, or a
/// shorthand for several longhands.
#[derive(Debug, PartialEq, Eq)]
pub struct PropertyId {
    /// The names of the declarations that the property consists of.
    pub longhands: Vec<String>,
}

impl Clone for PropertyId {
    fn clone(&self) -> (property: Self)
        ensures
            property.longhands@ == self.longhands@,
    {
        Self { longhands: copy_texts(&self.longhands) }
    }
}

impl PropertyId {
    /// Create the property that consists of these longhands.
    pub fn new(longhands: Vec<String>) -> (property: Self)
        ensures
            property == (PropertyId { longhands }),
    {
        Self { longhands }
    }

    /// Whether a declaration of this name belongs to the property.
    pub open spec fn covers(self, name: Seq<char>) -> bool {
        crate::lightmount_invalidation::text::lists_text(self.longhands@, name)
    }
}

/// Whether some declaration has a name.
pub open spec fn declares(declarations: Seq<DeclarationView>, name: Seq<char>) -> bool {
    exists|i: int| 0 <= i < declarations.len() && (#[trigger] declarations[i]).name == name
}

/// Whether no two declarations have the same name.
pub open spec fn names_are_distinct(declarations: Seq<DeclarationView>) -> bool {
    forall|i: int, j: int|
        0 <= i < j < declarations.len() ==> (#[trigger] declarations[i]).name != (
        #[trigger] declarations[j]).name
}

/// The declarations that do not belong to a property, in their order.
pub open spec fn without_property(
    declarations: Seq<DeclarationView>,
    property: PropertyId,
) -> Seq<DeclarationView>
    decreases declarations.len(),
{
    if declarations.len() == 0 {
        seq![]
    } else {
        let before = without_property(declarations.drop_last(), property);
        if property.covers(declarations.last().name) {
            before
        } else {
            before.push(declarations.last())
        }
    }
}

/// Whether some declaration belongs to a property.
pub open spec fn has_property(declarations: Seq<DeclarationView>, property: PropertyId) -> bool {
    exists|i: int| 0 <= i < declarations.len() && property.covers((#[trigger] declarations[i]).name)
}

/// Whether a longhand is declared `!important`.
pub open spec fn is_important(declarations: Seq<DeclarationView>, name: Seq<char>) -> bool {
    exists|i: int|
        0 <= i < declarations.len() && (#[trigger] declarations[i]).name == name
            && declarations[i].important
}

/// Whether a property is `!important`: it has longhands, and each of them is
/// declared and important.
pub open spec fn property_is_important(
    declarations: Seq<DeclarationView>,
    property: PropertyId,
) -> bool {
    &&& property.longhands@.len() > 0
    &&& forall|i: int|
        0 <= i < property.longhands@.len() ==> is_important(
            declarations,
            (#[trigger] property.longhands@[i])@,
        )
}

/// Whether a property is declared as a whole: it has longhands, and each of
/// them is declared.
pub open spec fn declares_property(
    declarations: Seq<DeclarationView>,
    property: PropertyId,
) -> bool {
    &&& property.longhands@.len() > 0
    &&& forall|i: int|
        0 <= i < property.longhands@.len() ==> declares(
            declarations,
            (#[trigger] property.longhands@[i])@,
        )
}

/// The declarations with one more: it comes last and takes the place of the one
/// with its name, but a normal declaration does not replace an important one.
pub open spec fn with_declaration(
    declarations: Seq<DeclarationView>,
    declaration: DeclarationView,
) -> Seq<DeclarationView> {
    if declares(declarations, declaration.name) {
        let index = choose|i: int|
            0 <= i < declarations.len() && (#[trigger] declarations[i]).name == declaration.name;
        if declarations[index].important && !declaration.important {
            declarations
        } else {
            declarations.remove(index).push(declaration)
        }
    } else {
        declarations.push(declaration)
    }
}

/// The declarations with those of a list added in turn.
pub open spec fn with_declarations(
    declarations: Seq<DeclarationView>,
    more: Seq<DeclarationView>,
) -> Seq<DeclarationView>
    decreases more.len(),
{
    if more.len() == 0 {
        declarations
    } else {
        with_declaration(with_declarations(declarations, more.drop_last()), more.last())
    }
}

/// The contents of a list of entries.
pub open spec fn entry_views(entries: Seq<CssDeclarationEntry>) -> Seq<DeclarationView> {
    entries.map_values(|entry: CssDeclarationEntry| entry@)
}

proof fn lemma_with_declaration_distinct(
    declarations: Seq<DeclarationView>,
    declaration: DeclarationView,
)
    requires
        names_are_distinct(declarations),
    ensures
        names_are_distinct(with_declaration(declarations, declaration)),
        declares(with_declaration(declarations, declaration), declaration.name),
{
    let after = with_declaration(declarations, declaration);
    if declares(declarations, declaration.name) {
        let index = choose|i: int|
            0 <= i < declarations.len() && (#[trigger] declarations[i]).name == declaration.name;
        if declarations[index].important && !declaration.important {
        } else {
            let rest = declarations.remove(index);
            assert(after == rest.push(declaration));
            assert forall|i: int, j: int| 0 <= i < j < after.len() implies (#[trigger]
            after[i]).name != (#[trigger] after[j]).name by {
                let old_i = if i < index {
                    i
                } else {
                    i + 1
                };
                assert(after[i] == declarations[old_i]);
                if j < rest.len() {
                    let old_j = if j < index {
                        j
                    } else {
                        j + 1
                    };
                    assert(after[j] == declarations[old_j]);
                } else if old_i < index {
                    assert(declarations[old_i].name != declarations[index].name);
                } else {
                    assert(declarations[index].name != declarations[old_i].name);
                }
            }
            assert(after.last().name == declaration.name);
            assert(after[after.len() - 1].name == declaration.name);
        }
    } else {
        assert(after[after.len() - 1].name == declaration.name);
    }
}

/// Adding declarations keeps the names of a block distinct.
pub proof fn lemma_with_declarations_distinct(
    declarations: Seq<DeclarationView>,
    more: Seq<DeclarationView>,
)
    requires
        names_are_distinct(declarations),
    ensures
        names_are_distinct(with_declarations(declarations, more)),
    decreases more.len(),
{
    if more.len() > 0 {
        lemma_with_declarations_distinct(declarations, more.drop_last());
        lemma_with_declaration_distinct(
            with_declarations(declarations, more.drop_last()),
            more.last(),
        );
    }
}

/// Declarations whose names are new and distinct are appended whole.
pub proof fn lemma_new_declarations_are_appended(
    declarations: Seq<DeclarationView>,
    more: Seq<DeclarationView>,
)
    requires
        names_are_distinct(more),
        forall|i: int|
            0 <= i < more.len() ==> !declares(declarations, (#[trigger] more[i]).name),
    ensures
        with_declarations(declarations, more) == declarations + more,
    decreases more.len(),
{
    if more.len() == 0 {
        assert(declarations + more =~= declarations);
    } else {
        let rest = more.drop_last();
        let last = more.last();
        assert forall|i: int, j: int| 0 <= i < j < rest.len() implies (#[trigger] rest[i]).name != (
        #[trigger] rest[j]).name by {
            assert(rest[i] == more[i] && rest[j] == more[j]);
        }
        assert forall|i: int| 0 <= i < rest.len() implies !declares(
            declarations,
            (#[trigger] rest[i]).name,
        ) by {
            assert(rest[i] == more[i]);
        }
        lemma_new_declarations_are_appended(declarations, rest);
        let before = declarations + rest;
        assert(!declares(declarations, more[more.len() - 1].name));
        if declares(before, last.name) {
            let i = choose|i: int|
                0 <= i < before.len() && (#[trigger] before[i]).name == last.name;
            if i < declarations.len() {
                assert(declarations[i].name == last.name);
            } else {
                assert(more[i - declarations.len()].name == more[more.len() - 1].name);
            }
        }
        assert(before.push(last) =~= declarations + more);
    }
}

/// After a property is removed no declaration of it is left, every other
/// declaration is, and nothing is new.
pub proof fn lemma_without_property(declarations: Seq<DeclarationView>, property: PropertyId)
    ensures
        !has_property(without_property(declarations, property), property),
        forall|declaration: DeclarationView| #[trigger]
            without_property(declarations, property).contains(declaration)
                <==> declarations.contains(declaration) && !property.covers(declaration.name),
        !has_property(declarations, property) ==> without_property(declarations, property)
            == declarations,
        names_are_distinct(declarations) ==> names_are_distinct(
            without_property(declarations, property),
        ),
    decreases declarations.len(),
{
    let kept = without_property(declarations, property);
    if declarations.len() == 0 {
        assert(kept =~= declarations);
    } else {
        let rest = declarations.drop_last();
        let last = declarations.last();
        lemma_without_property(rest, property);
        let before = without_property(rest, property);
        assert(declarations =~= rest.push(last));
        assert forall|i: int| 0 <= i < kept.len() implies !property.covers(
            (#[trigger] kept[i]).name,
        ) by {
            if i < before.len() {
                assert(kept[i] == before[i]);
            }
        }
        assert forall|declaration: DeclarationView| #[trigger] kept.contains(declaration)
            <==> declarations.contains(declaration) && !property.covers(declaration.name) by {
            crate::lightmount_invalidation::lists::lemma_contains_push(
                rest,
                last,
                declaration,
            );
            crate::lightmount_invalidation::lists::lemma_contains_push(
                before,
                last,
                declaration,
            );
            assert(before.contains(declaration) <==> rest.contains(declaration)
                && !property.covers(declaration.name));
        }
        if !has_property(declarations, property) {
            assert forall|i: int| 0 <= i < rest.len() implies !property.covers(
                (#[trigger] rest[i]).name,
            ) by {
                assert(rest[i] == declarations[i]);
            }
            assert(!property.covers(declarations[declarations.len() - 1].name));
            assert(kept =~= declarations);
        }
        if names_are_distinct(declarations) {
            assert forall|i: int, j: int| 0 <= i < j < rest.len() implies (#[trigger]
            rest[i]).name != (#[trigger] rest[j]).name by {
                assert(rest[i] == declarations[i] && rest[j] == declarations[j]);
            }
            assert forall|i: int, j: int| 0 <= i < j < kept.len() implies (#[trigger]
            kept[i]).name != (#[trigger] kept[j]).name by {
                assert(kept[i] == before[i]);
                if j < before.len() {
                    assert(kept[j] == before[j]);
                } else {
                    assert(before.contains(before[i]));
                    assert(rest.contains(before[i]));
                    let k = rest.index_of(before[i]);
                    assert(declarations[k].name != declarations[declarations.len() - 1].name);
                }
            }
        }
    }
}

/// The declarations of a block, each longhand or custom property at most once.
#[derive(Debug, PartialEq, Eq)]
pub struct PropertyDeclarationBlock {
    declarations: Vec<CssDeclarationEntry>,
}

impl PropertyDeclarationBlock {
    /// The declarations, in order.
    pub closed spec fn view(&self) -> Seq<DeclarationView> {
        entry_views(self.declarations@)
    }

    #[verifier::type_invariant]
    spec fn names_occur_once(&self) -> bool {
        names_are_distinct(self.view())
    }

    /// Create an empty block.
    pub fn new() -> (block: Self)
        ensures
            block@ == Seq::<DeclarationView>::empty(),
    {
        let block = Self { declarations: Vec::new() };
        assert(block@ =~= Seq::<DeclarationView>::empty());
        block
    }

    /// Return whether there are no declarations.
    pub fn is_empty(&self) -> (empty: bool)
        ensures
            empty == (self@.len() == 0),
    {
        self.declarations.len() == 0
    }

    /// Return the number of declarations.
    pub fn len(&self) -> (count: usize)
        ensures
            count == self@.len(),
            names_are_distinct(self@),
    {
        proof {
            use_type_invariant(self);
        }
        self.declarations.len()
    }

    /// Return the declaration at a position.
    pub fn get_index(&self, index: usize) -> (entry: &CssDeclarationEntry)
        requires
            index < self@.len(),
        ensures
            entry@ == self@[index as int],
    {
        &self.declarations[index]
    }

    /// Add a declaration. It comes last and takes the place of the one with its
    /// name; a normal declaration does not replace an important one.
    pub fn push(&mut self, declaration: CssDeclarationEntry)
        ensures
            final(self)@ == with_declaration(old(self)@, declaration@),
    {
        let ghost before = self@;
        proof {
            use_type_invariant(&*self);
            lemma_with_declaration_distinct(before, declaration@);
        }
        let mut index: usize = 0;
        while index < self.declarations.len()
            invariant
                index <= self.declarations.len(),
                *self == *old(self),
                before == self@,
                names_are_distinct(before),
                names_are_distinct(with_declaration(before, declaration@)),
                forall|i: int| 0 <= i < index ==> (#[trigger] before[i]).name != declaration@.name,
            decreases self.declarations.len() - index,
        {
            if same_text(self.declarations[index].name.as_str(), declaration.name.as_str()) {
                assert(before[index as int].name == declaration@.name);
                proof {
                    let chosen = choose|i: int|
                        0 <= i < before.len() && (#[trigger] before[i]).name == declaration@.name;
                    if chosen < index {
                        assert(before[chosen].name != before[index as int].name);
                    } else if chosen > index {
                        assert(before[index as int].name != before[chosen].name);
                    }
                    assert(chosen == index);
                }
                if self.declarations[index].priority && !declaration.priority {
                    return;
                }
                let mut held: Vec<CssDeclarationEntry> = Vec::new();
                assert(entry_views(held@) =~= Seq::<DeclarationView>::empty());
                std::mem::swap(&mut held, &mut self.declarations);
                held.remove(index);
                held.push(declaration);
                assert(entry_views(held@) =~= before.remove(index as int).push(declaration@));
                self.declarations = held;
                return;
            }
            index = index + 1;
        }
        let mut held: Vec<CssDeclarationEntry> = Vec::new();
        assert(entry_views(held@) =~= Seq::<DeclarationView>::empty());
        std::mem::swap(&mut held, &mut self.declarations);
        held.push(declaration);
        assert(entry_views(held@) =~= before.push(declaration@));
        self.declarations = held;
    }

    /// Return the position of the first declaration of a property.
    pub fn first_declaration_to_remove(&self, property: &PropertyId) -> (first: Option<usize>)
        ensures
            first is Some <==> has_property(self@, *property),
            first matches Some(first) ==> {
                &&& first < self@.len()
                &&& property.covers(self@[first as int].name)
                &&& forall|i: int| 0 <= i < first ==> !property.covers((#[trigger] self@[i]).name)
            },
    {
        let mut index: usize = 0;
        while index < self.declarations.len()
            invariant
                index <= self.declarations.len(),
                forall|i: int|
                    0 <= i < index ==> !property.covers((#[trigger] self@[i]).name),
            decreases self.declarations.len() - index,
        {
            if list_has_text(&property.longhands, self.declarations[index].name.as_str()) {
                assert(property.covers(self@[index as int].name));
                return Some(index);
            }
            index = index + 1;
        }
        None
    }

    /// Remove the declarations of a property, of which `first_declaration` is
    /// the first.
    pub fn remove_property(&mut self, property: &PropertyId, first_declaration: usize)
        requires
            first_declaration <= old(self)@.len(),
            forall|i: int|
                0 <= i < first_declaration ==> !property.covers((#[trigger] old(self)@[i]).name),
        ensures
            final(self)@ == without_property(old(self)@, *property),
    {
        let ghost before = self@;
        proof {
            use_type_invariant(&*self);
            lemma_without_property(before, *property);
        }
        let mut held: Vec<CssDeclarationEntry> = Vec::new();
        assert(entry_views(held@) =~= Seq::<DeclarationView>::empty());
        std::mem::swap(&mut held, &mut self.declarations);
        let ghost given = held@;
        let mut kept: Vec<CssDeclarationEntry> = Vec::new();
        let mut index: usize = 0;
        assert(entry_views(kept@) =~= without_property(before.take(0), *property));
        while index < held.len()
            invariant
                index <= held.len(),
                held@ == given,
                before == entry_views(given),
                first_declaration <= before.len(),
                forall|i: int|
                    0 <= i < first_declaration ==> !property.covers((#[trigger] before[i]).name),
                entry_views(kept@) == without_property(before.take(index as int), *property),
            decreases held.len() - index,
        {
            let ghost prior = kept@;
            if index < first_declaration || !list_has_text(
                &property.longhands,
                held[index].name.as_str(),
            ) {
                kept.push(held[index].clone());
                assert(entry_views(kept@) =~= entry_views(prior).push(before[index as int]));
            }
            proof {
                let next = before.take(index + 1);
                assert(next.drop_last() =~= before.take(index as int));
                assert(next.last() == before[index as int]);
            }
            index = index + 1;
        }
        assert(before.take(before.len() as int) =~= before);
        self.declarations = kept;
    }

    /// Return whether every declaration of a property is there and important. A
    /// property without longhands is not.
    pub fn property_priority(&self, property: &PropertyId) -> (important: bool)
        ensures
            important == property_is_important(self@, *property),
    {
        if property.longhands.len() == 0 {
            return false;
        }
        let mut index: usize = 0;
        while index < property.longhands.len()
            invariant
                index <= property.longhands.len(),
                forall|i: int|
                    0 <= i < index ==> is_important(self@, (#[trigger] property.longhands@[i])@),
            decreases property.longhands.len() - index,
        {
            if !self.longhand_is_important(property.longhands[index].as_str()) {
                assert(!is_important(self@, property.longhands@[index as int]@));
                return false;
            }
            index = index + 1;
        }
        true
    }

    /// Return whether a longhand is declared `!important`.
    fn longhand_is_important(&self, name: &str) -> (important: bool)
        ensures
            important == is_important(self@, name@),
    {
        let mut index: usize = 0;
        while index < self.declarations.len()
            invariant
                index <= self.declarations.len(),
                forall|i: int|
                    0 <= i < index ==> !((#[trigger] self@[i]).name == name@ && self@[i].important),
            decreases self.declarations.len() - index,
        {
            if self.declarations[index].priority && same_text(
                self.declarations[index].name.as_str(),
                name,
            ) {
                assert(self@[index as int].name == name@);
                return true;
            }
            index = index + 1;
        }
        false
    }
}

impl Clone for PropertyDeclarationBlock {
    fn clone(&self) -> (block: Self)
        ensures
            block@ == self@,
    {
        proof {
            use_type_invariant(self);
        }
        let mut declarations: Vec<CssDeclarationEntry> = Vec::new();
        let mut index: usize = 0;
        assert(entry_views(declarations@) =~= self@.take(0));
        while index < self.declarations.len()
            invariant
                index <= self.declarations.len(),
                entry_views(declarations@) == self@.take(index as int),
            decreases self.declarations.len() - index,
        {
            let ghost prior = declarations@;
            declarations.push(self.declarations[index].clone());
            assert(entry_views(declarations@) =~= entry_views(prior).push(self@[index as int]));
            assert(self@.take(index + 1) =~= self@.take(index as int).push(self@[index as int]));
            index = index + 1;
        }
        assert(self@.take(self@.len() as int) =~= self@);
        PropertyDeclarationBlock { declarations }
    }
}

/// A declaration block with the operations of the CSS object model.
#[derive(Debug, PartialEq, Eq)]
pub struct CssDeclarationBlock {
    /// The declarations.
    pub block: PropertyDeclarationBlock,
}

/// The declaration text of a property: its name, a colon, its value, the
/// priority where it has one, and a semicolon.
pub open spec fn declaration_text_view(
    name: Seq<char>,
    value: Seq<char>,
    priority: bool,
) -> Seq<char> {
    name + ": "@ + value + (if priority {
        " !important"@
    } else {
        ""@
    }) + ";"@
}

/// Return the text that is parsed for a property with this value.
pub fn declaration_text(name: &str, value: &str, priority: bool) -> (text: String)
    ensures
        text@ == declaration_text_view(name@, value@, priority),
{
    let priority_suffix = if priority {
        " !important"
    } else {
        ""
    };
    let mut text = name.to_owned();
    text.append(": ");
    text.append(value);
    text.append(priority_suffix);
    text.append(";");
    text
}

/// Whether parsed declarations can be set with a priority: there are some, and
/// all have that priority.
pub open spec fn can_be_set(parsed: Seq<DeclarationView>, priority: bool) -> bool {
    &&& parsed.len() > 0
    &&& forall|i: int| 0 <= i < parsed.len() ==> (#[trigger] parsed[i]).important == priority
}

impl CssDeclarationBlock {
    /// The declarations, in order.
    pub open spec fn declarations(&self) -> Seq<DeclarationView> {
        self.block@
    }

    /// Create a block from declarations.
    pub fn new(block: PropertyDeclarationBlock) -> (created: Self)
        ensures
            created.declarations() == block@,
    {
        Self { block }
    }

    /// Return whether there are no declarations.
    pub fn is_empty(&self) -> (empty: bool)
        ensures
            empty == (self.declarations().len() == 0),
    {
        self.block.is_empty()
    }

    /// Return the number of declarations.
    pub fn len(&self) -> (count: usize)
        ensures
            count == self.declarations().len(),
    {
        self.block.len()
    }

    /// Return the declarations.
    pub fn entries(&self) -> (entries: Vec<CssDeclarationEntry>)
        ensures
            entry_views(entries@) == self.declarations(),
    {
        let count: usize = self.block.len();
        let mut entries: Vec<CssDeclarationEntry> = Vec::new();
        let mut index: usize = 0;
        assert(entry_views(entries@) =~= self.declarations().take(0));
        while index < count
            invariant
                index <= count == self.declarations().len(),
                entry_views(entries@) == self.declarations().take(index as int),
            decreases count - index,
        {
            let ghost prior = entries@;
            entries.push(self.block.get_index(index).clone());
            assert(entry_views(entries@) =~= entry_views(prior).push(
                self.declarations()[index as int],
            ));
            assert(self.declarations().take(index + 1) =~= self.declarations().take(
                index as int,
            ).push(self.declarations()[index as int]));
            index = index + 1;
        }
        assert(self.declarations().take(count as int) =~= self.declarations());
        entries
    }

    /// Return whether a property is `!important`: all its declarations are
    /// there and important. A name that stands for no property is not.
    pub fn property_priority(&self, property: Option<&PropertyId>) -> (important: bool)
        ensures
            important <==> property is Some && property_is_important(
                self.declarations(),
                *property->0,
            ),
    {
        match property {
            Some(property) => self.block.property_priority(property),
            None => false,
        }
    }

    /// Set a property to the declarations that its declaration text was parsed
    /// into, and return them.
    ///
    /// Nothing changes, and nothing is returned, where the name stands for no
    /// property, where nothing was parsed, or where a parsed declaration has
    /// another priority.
    pub fn set_property(
        &mut self,
        property: Option<&PropertyId>,
        parsed: CssDeclarationBlock,
        priority: bool,
    ) -> (entries: Option<Vec<CssDeclarationEntry>>)
        ensures
            entries is Some <==> property is Some && can_be_set(parsed.declarations(), priority),
            entries matches Some(entries) ==> {
                &&& entry_views(entries@) == parsed.declarations()
                &&& final(self).declarations() == with_declarations(
                    without_property(old(self).declarations(), *property->0),
                    parsed.declarations(),
                )
                &&& property_is_important(final(self).declarations(), *property->0) == (priority
                    && declares_property(parsed.declarations(), *property->0))
            },
            entries is None ==> final(self).declarations() == old(self).declarations(),
    {
        let Some(property) = property else {
            return None;
        };
        let entries = parsed.entries();
        let ghost views = entry_views(entries@);
        if entries.len() == 0 {
            return None;
        }
        let mut index: usize = 0;
        while index < entries.len()
            invariant
                index <= entries.len(),
                views == entry_views(entries@),
                views == parsed.declarations(),
                self.declarations() == old(self).declarations(),
                forall|i: int| 0 <= i < index ==> (#[trigger] views[i]).important == priority,
            decreases entries.len() - index,
        {
            if entries[index].priority != priority {
                assert(views[index as int].important != priority);
                return None;
            }
            index = index + 1;
        }
        proof {
            lemma_set_property_importance(self.declarations(), *property, views, priority);
        }
        self.remove_property_by_id(property);
        let ghost removed = self.declarations();
        let mut index: usize = 0;
        assert(views.take(0) =~= Seq::empty());
        while index < entries.len()
            invariant
                index <= entries.len(),
                views == entry_views(entries@),
                self.declarations() == with_declarations(removed, views.take(index as int)),
            decreases entries.len() - index,
        {
            self.block.push(entries[index].clone());
            proof {
                let next = views.take(index + 1);
                assert(next.drop_last() =~= views.take(index as int));
                assert(next.last() == views[index as int]);
            }
            index = index + 1;
        }
        assert(views.take(views.len() as int) =~= views);
        Some(entries)
    }

    /// Remove a property and return whether there was anything to remove, or
    /// nothing where the name stands for no property.
    pub fn remove_property(&mut self, property: Option<&PropertyId>) -> (removed: Option<bool>)
        ensures
            property is None ==> removed is None && final(self).declarations() == old(
                self,
            ).declarations(),
            property matches Some(property) ==> {
                &&& removed == Some(has_property(old(self).declarations(), *property))
                &&& final(self).declarations() == without_property(
                    old(self).declarations(),
                    *property,
                )
            },
    {
        match property {
            Some(property) => Some(self.remove_property_by_id(property)),
            None => None,
        }
    }

    /// Consume this block and return its declarations.
    pub fn into_inner(self) -> (block: PropertyDeclarationBlock)
        ensures
            block@ == self.declarations(),
    {
        self.block
    }

    /// Remove a property and return whether there was anything to remove.
    pub fn remove_property_by_id(&mut self, property: &PropertyId) -> (removed: bool)
        ensures
            removed == has_property(old(self).declarations(), *property),
            final(self).declarations() == without_property(old(self).declarations(), *property),
    {
        proof {
            lemma_without_property(self.declarations(), *property);
        }
        let Some(first_declaration) = self.block.first_declaration_to_remove(property) else {
            return false;
        };
        self.block.remove_property(property, first_declaration);
        true
    }
}

impl Clone for CssDeclarationBlock {
    fn clone(&self) -> (block: Self)
        ensures
            block.declarations() == self.declarations(),
    {
        Self { block: self.block.clone() }
    }
}

impl Default for CssDeclarationBlock {
    fn default() -> (block: Self)
        ensures
            block.declarations() == Seq::<DeclarationView>::empty(),
    {
        Self { block: PropertyDeclarationBlock::new() }
    }
}

/// Removing a property twice is removing it once, and what another property
/// removes does not depend on the order.
pub proof fn lemma_removals_commute(
    declarations: Seq<DeclarationView>,
    property: PropertyId,
    other: PropertyId,
)
    ensures
        without_property(without_property(declarations, property), property) == without_property(
            declarations,
            property,
        ),
        without_property(without_property(declarations, property), other) == without_property(
            without_property(declarations, other),
            property,
        ),
    decreases declarations.len(),
{
    lemma_without_property(declarations, property);
    lemma_without_property(without_property(declarations, property), property);
    if declarations.len() > 0 {
        let rest = declarations.drop_last();
        let last = declarations.last();
        lemma_removals_commute(rest, property, other);
        let one = without_property(rest, property);
        let two = without_property(rest, other);
        assert(one.push(last).drop_last() =~= one);
        assert(two.push(last).drop_last() =~= two);
        if property.covers(last.name) || other.covers(last.name) {
        } else {
            assert(without_property(one.push(last), other) == without_property(one, other).push(
                last,
            ));
            assert(without_property(two.push(last), property) == without_property(
                two,
                property,
            ).push(last));
        }
    }
}

/// A property that is set to declarations of its own, each once, has exactly
/// those afterwards, at the end of the block; all other declarations stay in
/// their order.
pub proof fn lemma_set_property_replaces(
    declarations: Seq<DeclarationView>,
    property: PropertyId,
    parsed: Seq<DeclarationView>,
)
    requires
        names_are_distinct(parsed),
        forall|i: int| 0 <= i < parsed.len() ==> property.covers((#[trigger] parsed[i]).name),
    ensures
        with_declarations(without_property(declarations, property), parsed)
            == without_property(declarations, property) + parsed,
{
    lemma_without_property(declarations, property);
    let kept = without_property(declarations, property);
    assert forall|i: int| 0 <= i < parsed.len() implies !declares(
        kept,
        (#[trigger] parsed[i]).name,
    ) by {
        if declares(kept, parsed[i].name) {
            let j = choose|j: int|
                0 <= j < kept.len() && (#[trigger] kept[j]).name == parsed[i].name;
            assert(property.covers(kept[j].name));
        }
    }
    lemma_new_declarations_are_appended(kept, parsed);
}

/// Adding declarations that all have one priority makes a name that was not
/// declared important exactly where that priority is and the name is among
/// them.
proof fn lemma_importance_of_added(
    declarations: Seq<DeclarationView>,
    more: Seq<DeclarationView>,
    name: Seq<char>,
    priority: bool,
)
    requires
        !declares(declarations, name),
        forall|i: int| 0 <= i < more.len() ==> (#[trigger] more[i]).important == priority,
    ensures
        ({
            let after = with_declarations(declarations, more);
            &&& declares(after, name) == declares(more, name)
            &&& forall|i: int|
                0 <= i < after.len() && (#[trigger] after[i]).name == name ==> after[i].important
                    == priority
            &&& is_important(after, name) == (priority && declares(more, name))
        }),
    decreases more.len(),
{
    let after = with_declarations(declarations, more);
    if more.len() > 0 {
        let rest = more.drop_last();
        let last = more.last();
        assert forall|i: int| 0 <= i < rest.len() implies (#[trigger] rest[i]).important
            == priority by {
            assert(rest[i] == more[i]);
        }
        lemma_importance_of_added(declarations, rest, name, priority);
        let before = with_declarations(declarations, rest);
        assert(more[more.len() - 1].important == priority);
        lemma_declares_pushed(rest, last, name);
        assert(rest.push(last) =~= more);
        if declares(before, last.name) {
            let index = choose|i: int|
                0 <= i < before.len() && (#[trigger] before[i]).name == last.name;
            if before[index].important && !last.important {
                assert(last.name != name);
            } else {
                let kept = before.remove(index);
                assert(after == kept.push(last));
                lemma_declares_pushed(kept, last, name);
                assert forall|i: int| 0 <= i < kept.len() implies (#[trigger] kept[i]) == before[if i
                    < index {
                    i
                } else {
                    i + 1
                }] by {}
                if last.name != name {
                    if declares(before, name) {
                        let k = choose|k: int|
                            0 <= k < before.len() && (#[trigger] before[k]).name == name;
                        let place = if k < index {
                            k
                        } else {
                            k - 1
                        };
                        assert(kept[place].name == name);
                    }
                    if declares(kept, name) {
                        let k = choose|k: int|
                            0 <= k < kept.len() && (#[trigger] kept[k]).name == name;
                        let place = if k < index {
                            k
                        } else {
                            k + 1
                        };
                        assert(before[place].name == name);
                    }
                }
                assert forall|i: int|
                    0 <= i < after.len() && (#[trigger] after[i]).name
                        == name implies after[i].important == priority by {
                    if i < kept.len() {
                        assert(after[i] == kept[i]);
                        let place = if i < index {
                            i
                        } else {
                            i + 1
                        };
                        assert(before[place].name == name);
                    }
                }
            }
        } else {
            lemma_declares_pushed(before, last, name);
            assert forall|i: int|
                0 <= i < after.len() && (#[trigger] after[i]).name == name implies after[i].important
                == priority by {
                if i < before.len() {
                    assert(after[i] == before[i]);
                }
            }
        }
    }
    if declares(after, name) {
        let k = choose|k: int| 0 <= k < after.len() && (#[trigger] after[k]).name == name;
        assert(after[k].important == priority);
    }
}

proof fn lemma_declares_pushed(
    declarations: Seq<DeclarationView>,
    declaration: DeclarationView,
    name: Seq<char>,
)
    ensures
        declares(declarations.push(declaration), name) == (declares(declarations, name)
            || declaration.name == name),
{
    let after = declarations.push(declaration);
    if declares(declarations, name) {
        let k = choose|k: int|
            0 <= k < declarations.len() && (#[trigger] declarations[k]).name == name;
        assert(after[k].name == name);
    }
    if declaration.name == name {
        assert(after[declarations.len() as int].name == name);
    }
    if declares(after, name) {
        let k = choose|k: int| 0 <= k < after.len() && (#[trigger] after[k]).name == name;
        if k < declarations.len() {
            assert(declarations[k].name == name);
        }
    }
}

/// A property that is set with a priority is important afterwards exactly where
/// that is the priority and the parsed declarations declare it as a whole.
pub proof fn lemma_set_property_importance(
    declarations: Seq<DeclarationView>,
    property: PropertyId,
    parsed: Seq<DeclarationView>,
    priority: bool,
)
    requires
        can_be_set(parsed, priority),
    ensures
        property_is_important(
            with_declarations(without_property(declarations, property), parsed),
            property,
        ) == (priority && declares_property(parsed, property)),
{
    let kept = without_property(declarations, property);
    let after = with_declarations(kept, parsed);
    lemma_without_property(declarations, property);
    assert forall|i: int| 0 <= i < property.longhands@.len() implies is_important(
        after,
        (#[trigger] property.longhands@[i])@,
    ) == (priority && declares(parsed, property.longhands@[i]@)) by {
        let name = property.longhands@[i]@;
        assert(property.covers(name));
        if declares(kept, name) {
            let k = choose|k: int| 0 <= k < kept.len() && (#[trigger] kept[k]).name == name;
            assert(property.covers(kept[k].name));
        }
        lemma_importance_of_added(kept, parsed, name, priority);
    }
    if property.longhands@.len() > 0 && property_is_important(after, property) {
        assert(is_important(after, property.longhands@[0]@));
        assert(declares_property(parsed, property));
    }
    if priority && declares_property(parsed, property) {
        assert forall|i: int| 0 <= i < property.longhands@.len() implies is_important(
            after,
            (#[trigger] property.longhands@[i])@,
        ) by {
            assert(declares(parsed, property.longhands@[i]@));
        }
    }
}

/// The priority that a property is set with reads back, whatever the block held
/// before. A property that is set to be important reads back so where the
/// parsed declarations declare it as a whole; a value that ends the declaration
/// early, and leaves the property itself undeclared, is all that this leaves
/// out.
pub proof fn lemma_set_property_priority_reads_back(
    declarations: Seq<DeclarationView>,
    property: PropertyId,
    parsed: Seq<DeclarationView>,
    priority: bool,
)
    requires
        can_be_set(parsed, priority),
        priority ==> declares_property(parsed, property),
    ensures
        property_is_important(
            with_declarations(without_property(declarations, property), parsed),
            property,
        ) == priority,
{
    lemma_set_property_importance(declarations, property, parsed, priority);
}

/// A declaration of a new name comes last. One of a name that is declared takes
/// the other's place at the end, unless only the other is important: then
/// nothing changes.
pub proof fn lemma_declaration_replaces_its_name(
    declarations: Seq<DeclarationView>,
    declaration: DeclarationView,
    index: int,
)
    requires
        names_are_distinct(declarations),
    ensures
        (forall|i: int|
            0 <= i < declarations.len() ==> (#[trigger] declarations[i]).name != declaration.name)
            ==> with_declaration(declarations, declaration) == declarations.push(declaration),
        0 <= index < declarations.len() && declarations[index].name == declaration.name && (
        declaration.important || !declarations[index].important) ==> with_declaration(
            declarations,
            declaration,
        ) == declarations.remove(index).push(declaration),
        0 <= index < declarations.len() && declarations[index].name == declaration.name
            && !declaration.important && declarations[index].important ==> with_declaration(
            declarations,
            declaration,
        ) == declarations,
{
    if declares(declarations, declaration.name) {
        let found = choose|i: int|
            0 <= i < declarations.len() && (#[trigger] declarations[i]).name == declaration.name;
        if 0 <= index < declarations.len() && declarations[index].name == declaration.name {
            if index < found {
                assert(declarations[index].name != declarations[found].name);
            } else if found < index {
                assert(declarations[found].name != declarations[index].name);
            }
        }
    }
}

proof fn lemma_declaration_added_to(
    declarations: Seq<DeclarationView>,
    declaration: DeclarationView,
    other: DeclarationView,
)
    requires
        names_are_distinct(declarations),
    ensures
        ({
            let after = with_declaration(declarations, declaration);
            let kept = !declaration.important && is_important(declarations, declaration.name);
            &&& after.contains(other) <==> if other.name == declaration.name && !kept {
                other == declaration
            } else {
                declarations.contains(other)
            }
            &&& is_important(after, declaration.name) <==> declaration.important || is_important(
                declarations,
                declaration.name,
            )
        }),
{
    let after = with_declaration(declarations, declaration);
    if declares(declarations, declaration.name) {
        let index = choose|i: int|
            0 <= i < declarations.len() && (#[trigger] declarations[i]).name == declaration.name;
        assert forall|i: int|
            0 <= i < declarations.len() && i != index implies (#[trigger] declarations[i]).name
            != declaration.name by {
            if i < index {
                assert(declarations[i].name != declarations[index].name);
            } else {
                assert(declarations[index].name != declarations[i].name);
            }
        }
        if declarations[index].important && !declaration.important {
            assert(is_important(declarations, declaration.name));
        } else {
            let rest = declarations.remove(index);
            assert(after == rest.push(declaration));
            assert(after[after.len() - 1] == declaration);
            if declarations.contains(other) {
                let i = declarations.index_of(other);
                if i < index {
                    assert(after[i] == other);
                } else if i > index {
                    assert(after[i - 1] == other);
                }
            }
            assert forall|i: int| 0 <= i < rest.len() implies declarations.contains(
                #[trigger] after[i],
            ) && after[i].name != declaration.name by {
                let old_i = if i < index {
                    i
                } else {
                    i + 1
                };
                assert(after[i] == declarations[old_i]);
            }
            if after.contains(other) {
                let i = after.index_of(other);
                assert(after[i] == other);
            }
        }
    } else {
        assert(after[after.len() - 1] == declaration);
        if declarations.contains(other) {
            let i = declarations.index_of(other);
            assert(after[i] == other);
        }
        if after.contains(other) {
            let i = after.index_of(other);
            if i < declarations.len() {
                assert(declarations[i] == other);
            }
        }
    }
}

/// Whether a declaration is what counts under its name where a list is added:
/// it is the last important one of its name, or the last one where none is.
pub open spec fn wins(
    declarations: Seq<DeclarationView>,
    more: Seq<DeclarationView>,
    declaration: DeclarationView,
) -> bool
    decreases more.len(),
{
    if more.len() == 0 {
        declarations.contains(declaration)
    } else if more.last().name == declaration.name && (more.last().important || !is_important(
        declarations + more.drop_last(),
        declaration.name,
    )) {
        more.last() == declaration
    } else {
        wins(declarations, more.drop_last(), declaration)
    }
}

proof fn lemma_important_concat(
    first: Seq<DeclarationView>,
    second: Seq<DeclarationView>,
    name: Seq<char>,
)
    ensures
        is_important(first + second, name) <==> is_important(first, name) || is_important(
            second,
            name,
        ),
{
    let both = first + second;
    if is_important(first, name) {
        let i = choose|i: int|
            0 <= i < first.len() && (#[trigger] first[i]).name == name && first[i].important;
        assert(both[i].name == name);
    }
    if is_important(second, name) {
        let i = choose|i: int|
            0 <= i < second.len() && (#[trigger] second[i]).name == name && second[i].important;
        assert(both[first.len() + i].name == name);
    }
    if is_important(both, name) {
        let i = choose|i: int|
            0 <= i < both.len() && (#[trigger] both[i]).name == name && both[i].important;
        if i < first.len() {
            assert(first[i].name == name);
        } else {
            assert(second[i - first.len()].name == name);
        }
    }
}

/// Adding a list of declarations leaves, under each name, the last important
/// declaration of that name, or the last one where none is important. A name is
/// important afterwards exactly where it was or one that was added is.
pub proof fn lemma_last_declarations_win(
    declarations: Seq<DeclarationView>,
    more: Seq<DeclarationView>,
    declaration: DeclarationView,
)
    requires
        names_are_distinct(declarations),
    ensures
        with_declarations(declarations, more).contains(declaration) <==> wins(
            declarations,
            more,
            declaration,
        ),
        is_important(with_declarations(declarations, more), declaration.name) <==> is_important(
            declarations,
            declaration.name,
        ) || is_important(more, declaration.name),
    decreases more.len(),
{
    if more.len() > 0 {
        let rest = more.drop_last();
        let last = more.last();
        let before = with_declarations(declarations, rest);
        let after = with_declarations(declarations, more);
        lemma_last_declarations_win(declarations, rest, declaration);
        lemma_with_declarations_distinct(declarations, rest);
        lemma_declaration_added_to(before, last, declaration);
        lemma_important_concat(declarations, rest, declaration.name);
        assert(more =~= rest + seq![last]);
        lemma_important_concat(rest, seq![last], declaration.name);
        if last.name == declaration.name && last.important {
            assert(seq![last][0].name == declaration.name);
        }
        if last.name != declaration.name {
            assert(is_important(after, declaration.name) == is_important(
                before,
                declaration.name,
            )) by {
                if is_important(before, declaration.name) {
                    let i = choose|i: int|
                        0 <= i < before.len() && (#[trigger] before[i]).name == declaration.name
                            && before[i].important;
                    lemma_declaration_added_to(before, last, before[i]);
                    assert(before.contains(before[i]));
                    let j = after.index_of(before[i]);
                    assert(after[j].name == declaration.name);
                }
                if is_important(after, declaration.name) {
                    let i = choose|i: int|
                        0 <= i < after.len() && (#[trigger] after[i]).name == declaration.name
                            && after[i].important;
                    lemma_declaration_added_to(before, last, after[i]);
                    assert(after.contains(after[i]));
                    let j = before.index_of(after[i]);
                    assert(before[j].name == declaration.name);
                }
            }
        }
    } else {
        assert(with_declarations(declarations, more) == declarations);
    }
}

/// Removing a property goes by the names of its longhands, one declaration after
/// the other, and keeps the order of what stays.
pub proof fn lemma_removal_goes_by_longhands(
    declarations: Seq<DeclarationView>,
    last: DeclarationView,
    property: PropertyId,
)
    ensures
        ({
            let listed = exists|i: int|
                0 <= i < property.longhands@.len() && (#[trigger] property.longhands@[i])@
                    == last.name;
            let kept = without_property(declarations, property);
            &&& listed ==> without_property(declarations.push(last), property) == kept
            &&& !listed ==> without_property(declarations.push(last), property) == kept.push(last)
            &&& has_property(declarations.push(last), property) <==> listed || has_property(
                declarations,
                property,
            )
        }),
        without_property(Seq::empty(), property).len() == 0,
        !has_property(Seq::empty(), property),
{
    let more = declarations.push(last);
    assert(more.drop_last() =~= declarations);
    if has_property(declarations, property) {
        let i = choose|i: int|
            0 <= i < declarations.len() && property.covers((#[trigger] declarations[i]).name);
        assert(property.covers(more[i].name));
    }
    if property.covers(last.name) {
        assert(property.covers(more[declarations.len() as int].name));
    }
    if has_property(more, property) {
        let i = choose|i: int| 0 <= i < more.len() && property.covers((#[trigger] more[i]).name);
        if i < declarations.len() {
            assert(property.covers(declarations[i].name));
        }
    }
}

/// A property is important where it has longhands and none of them lacks an
/// important declaration.
pub proof fn lemma_important_properties_by_longhand(
    declarations: Seq<DeclarationView>,
    property: PropertyId,
    index: int,
)
    ensures
        property.longhands@.len() == 0 ==> !property_is_important(declarations, property),
        0 <= index < property.longhands@.len() && (forall|i: int|
            0 <= i < declarations.len() ==> (#[trigger] declarations[i]).name
                != property.longhands@[index]@ || !declarations[i].important)
            ==> !property_is_important(declarations, property),
        property.longhands@.len() > 0 && (forall|k: int|
            0 <= k < property.longhands@.len() ==> exists|i: int|
                0 <= i < declarations.len() && (#[trigger] declarations[i]).name == (
                #[trigger] property.longhands@[k])@ && declarations[i].important)
            ==> property_is_important(declarations, property),
{
    if 0 <= index < property.longhands@.len() && property_is_important(declarations, property) {
        assert(is_important(declarations, property.longhands@[index]@));
    }
}

/// Parsed declarations can be set where there are some and none has another
/// priority.
pub proof fn lemma_settable_declarations_share_the_priority(
    parsed: Seq<DeclarationView>,
    priority: bool,
    index: int,
)
    ensures
        parsed.len() == 0 ==> !can_be_set(parsed, priority),
        0 <= index < parsed.len() && parsed[index].important != priority ==> !can_be_set(
            parsed,
            priority,
        ),
        parsed.len() > 0 && (forall|i: int|
            0 <= i < parsed.len() ==> (#[trigger] parsed[i]).important == priority) ==> can_be_set(
            parsed,
            priority,
        ),
{
}

/// A declaration text is its name, a colon and a space, its value, the mark of
/// importance where it is important, and a semicolon.
pub proof fn lemma_declaration_text_by_part(name: Seq<char>, value: Seq<char>, priority: bool)
    ensures
        ({
            let text = declaration_text_view(name, value, priority);
            let behind = name.len() + 2 + value.len();
            &&& text.len() == behind + (if priority {
                12int
            } else {
                1int
            })
            &&& text.take(name.len() as int) == name
            &&& text[name.len() as int] == ':'
            &&& text[name.len() as int + 1] == ' '
            &&& text.subrange(name.len() as int + 2, behind as int) == value
            &&& text.last() == ';'
            &&& priority ==> text.subrange(behind as int, behind as int + 11) == seq![
                ' ',
                '!',
                'i',
                'm',
                'p',
                'o',
                'r',
                't',
                'a',
                'n',
                't',
            ]
        }),
{
    reveal_strlit(": ");
    reveal_strlit(" !important");
    reveal_strlit("");
    reveal_strlit(";");
    let text = declaration_text_view(name, value, priority);
    let behind = name.len() + 2 + value.len();
    assert(text.take(name.len() as int) =~= name);
    assert(text.subrange(name.len() as int + 2, behind as int) =~= value);
    if priority {
        assert(text.subrange(behind as int, behind as int + 11) =~= " !important"@);
        assert(" !important"@ =~= seq![' ', '!', 'i', 'm', 'p', 'o', 'r', 't', 'a', 'n', 't']);
    }
}

} // verus!
