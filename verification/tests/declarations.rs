use lightmount_style::lightmount_declaration_block::{
    declaration_text, CssDeclarationBlock, CssDeclarationEntry, PropertyDeclarationBlock,
    PropertyId,
};

fn entry(name: &str, value: &str, priority: bool) -> CssDeclarationEntry {
    CssDeclarationEntry {
        name: name.to_string(),
        value: value.to_string(),
        priority,
    }
}

fn block(entries: &[(&str, &str, bool)]) -> CssDeclarationBlock {
    let mut block = PropertyDeclarationBlock::new();
    for (name, value, priority) in entries {
        block.push(entry(name, value, *priority));
    }
    CssDeclarationBlock::new(block)
}

fn property(longhands: &[&str]) -> PropertyId {
    PropertyId::new(longhands.iter().map(|name| name.to_string()).collect())
}

fn padding() -> PropertyId {
    property(&["padding-top", "padding-right", "padding-bottom", "padding-left"])
}

fn margin() -> PropertyId {
    property(&["margin-top", "margin-right", "margin-bottom", "margin-left"])
}

fn padding_and(more: &[(&str, &str, bool)]) -> CssDeclarationBlock {
    let mut entries = vec![
        ("padding-top", "1px", false),
        ("padding-right", "2px", false),
        ("padding-bottom", "1px", false),
        ("padding-left", "2px", false),
    ];
    entries.extend_from_slice(more);
    block(&entries)
}

fn names(entries: &[CssDeclarationEntry]) -> Vec<&str> {
    entries.iter().map(|entry| entry.name.as_str()).collect()
}

fn value_of(block: &CssDeclarationBlock, name: &str) -> Option<String> {
    block
        .entries()
        .into_iter()
        .find(|entry| entry.name == name)
        .map(|entry| entry.value)
}

#[test]
fn declaration_block_entries_are_expanded_pdb_declarations() {
    let block = padding_and(&[("background-color", "transparent", false)]);
    let entries = block.entries();

    assert_eq!(entries.len(), 5);
    assert_eq!(entries[0].name, "padding-top");
    assert_eq!(entries[0].value, "1px");
    assert_eq!(entries[1].name, "padding-right");
    assert_eq!(entries[1].value, "2px");
    assert_eq!(entries[4].name, "background-color");
    assert_eq!(entries[4].value, "transparent");
}

#[test]
fn declaration_block_set_property_updates_through_pdb() {
    let mut edited = block(&[
        ("color", "red", true),
        ("padding-top", "1px", false),
        ("padding-right", "2px", false),
        ("padding-bottom", "1px", false),
        ("padding-left", "2px", false),
    ]);
    let color = property(&["color"]);

    let entries = edited
        .set_property(Some(&color), block(&[("color", "blue", false)]), false)
        .expect("color should parse");
    assert_eq!(entries.len(), 1);
    assert_eq!(entries[0].name, "color");
    assert_eq!(entries[0].value, "blue");
    assert_eq!(entries[0].priority, false);
    assert_eq!(value_of(&edited, "color").as_deref(), Some("blue"));
    assert!(!edited.property_priority(Some(&color)));

    let entries = edited
        .set_property(
            Some(&margin()),
            block(&[
                ("margin-top", "0px", true),
                ("margin-right", "2px", true),
                ("margin-bottom", "0px", true),
                ("margin-left", "2px", true),
            ]),
            true,
        )
        .expect("margin shorthand should parse");
    assert_eq!(
        names(&entries),
        ["margin-top", "margin-right", "margin-bottom", "margin-left"]
    );
    assert_eq!(value_of(&edited, "margin-top").as_deref(), Some("0px"));
    assert!(edited.property_priority(Some(&margin())));
    assert_eq!(
        names(&edited.entries()),
        [
            "padding-top",
            "padding-right",
            "padding-bottom",
            "padding-left",
            "color",
            "margin-top",
            "margin-right",
            "margin-bottom",
            "margin-left",
        ]
    );

    let mut longhand_block = CssDeclarationBlock::default();
    for name in ["margin-top", "margin-right", "margin-bottom", "margin-left"] {
        longhand_block
            .set_property(
                Some(&property(&[name])),
                block(&[(name, "0px", true)]),
                true,
            )
            .expect("margin longhand should parse");
    }
    assert_eq!(value_of(&longhand_block, "margin-left").as_deref(), Some("0px"));
    assert!(longhand_block.property_priority(Some(&margin())));

    let mut single_longhand_block = CssDeclarationBlock::default();
    let opacity = property(&["opacity"]);
    single_longhand_block
        .set_property(Some(&opacity), block(&[("opacity", "0.5", true)]), true)
        .expect("opacity should parse");
    assert_eq!(
        value_of(&single_longhand_block, "opacity").as_deref(),
        Some("0.5")
    );
    assert!(single_longhand_block.property_priority(Some(&opacity)));
}

#[test]
fn declaration_block_remove_property_uses_cssom_shorthand_semantics() {
    let mut block = padding_and(&[("color", "red", false)]);

    assert_eq!(
        block.remove_property(Some(&property(&["padding-left"]))),
        Some(true)
    );
    assert_eq!(value_of(&block, "padding-left"), None);
    assert_eq!(value_of(&block, "padding-top").as_deref(), Some("1px"));

    assert_eq!(block.remove_property(Some(&padding())), Some(true));
    assert_eq!(value_of(&block, "padding-top"), None);
    assert_eq!(value_of(&block, "padding-right"), None);
    assert_eq!(block.remove_property(None), None);
    assert_eq!(names(&block.entries()), ["color"]);
}

#[test]
fn removing_a_property_twice_removes_nothing_more() {
    let mut block = padding_and(&[("color", "red", false)]);

    assert_eq!(block.remove_property(Some(&padding())), Some(true));
    assert_eq!(block.remove_property(Some(&padding())), Some(false));
    assert_eq!(names(&block.entries()), ["color"]);
    assert_eq!(block.len(), 1);
    assert!(!block.is_empty());
}

#[test]
fn a_property_is_refused_without_declarations_of_its_priority() {
    let mut edited = block(&[("color", "red", false)]);
    let color = property(&["color"]);

    assert_eq!(
        edited.set_property(None, block(&[("color", "blue", false)]), false),
        None
    );
    assert_eq!(edited.set_property(Some(&color), block(&[]), false), None);
    assert_eq!(
        edited.set_property(Some(&color), block(&[("color", "blue", true)]), false),
        None
    );
    assert_eq!(
        edited.set_property(
            Some(&margin()),
            block(&[("margin-top", "0px", true), ("margin-left", "0px", false)]),
            true,
        ),
        None
    );
    assert_eq!(edited.entries(), vec![entry("color", "red", false)]);
}

#[test]
fn a_normal_declaration_does_not_replace_an_important_one() {
    let mut declarations = PropertyDeclarationBlock::new();
    declarations.push(entry("color", "red", true));
    declarations.push(entry("width", "0px", false));
    declarations.push(entry("color", "blue", false));
    assert_eq!(declarations.len(), 2);
    assert_eq!(declarations.get_index(0), &entry("color", "red", true));

    declarations.push(entry("color", "green", true));
    assert_eq!(declarations.len(), 2);
    assert_eq!(declarations.get_index(0), &entry("width", "0px", false));
    assert_eq!(declarations.get_index(1), &entry("color", "green", true));
}

#[test]
fn a_shorthand_is_important_only_as_a_whole() {
    let part = block(&[("margin-top", "0px", true), ("margin-left", "0px", true)]);
    assert!(!part.property_priority(Some(&margin())));
    assert!(part.property_priority(Some(&property(&["margin-top"]))));

    let mixed = block(&[
        ("margin-top", "0px", true),
        ("margin-right", "0px", false),
        ("margin-bottom", "0px", true),
        ("margin-left", "0px", true),
    ]);
    assert!(!mixed.property_priority(Some(&margin())));
    assert!(!mixed.property_priority(None));
}

#[test]
fn a_property_without_longhands_is_not_important() {
    let important = block(&[("color", "red", true)]);
    assert!(!important.property_priority(Some(&property(&[]))));
    assert!(!block(&[]).property_priority(Some(&property(&[]))));
}

#[test]
fn the_priority_of_a_set_property_reads_back() {
    for before in [true, false] {
        for priority in [true, false] {
            let mut edited = block(&[
                ("margin-top", "9px", before),
                ("margin-left", "9px", before),
                ("margin-right", "9px", before),
                ("margin-bottom", "9px", before),
            ]);
            edited
                .set_property(
                    Some(&margin()),
                    block(&[
                        ("margin-top", "0px", priority),
                        ("margin-right", "0px", priority),
                        ("margin-bottom", "0px", priority),
                        ("margin-left", "0px", priority),
                    ]),
                    priority,
                )
                .expect("margin shorthand should parse");
            assert_eq!(edited.property_priority(Some(&margin())), priority);
            assert_eq!(edited.len(), 4);
        }
    }
}

#[test]
fn a_value_that_leaves_its_property_undeclared_leaves_it_unimportant() {
    let color = property(&["color"]);
    for priority in [true, false] {
        let mut edited = block(&[("color", "red", true)]);
        let entries = edited
            .set_property(Some(&color), block(&[("width", "1px", priority)]), priority)
            .expect("something was parsed");
        assert_eq!(names(&entries), ["width"]);
        assert!(!edited.property_priority(Some(&color)));
        assert_eq!(names(&edited.entries()), ["width"]);
    }
}

#[test]
fn the_first_declaration_of_a_property_is_found() {
    let declarations = padding_and(&[("color", "red", false)]).into_inner();

    assert_eq!(
        declarations.first_declaration_to_remove(&property(&["padding-bottom", "padding-right"])),
        Some(1)
    );
    assert_eq!(declarations.first_declaration_to_remove(&property(&["color"])), Some(4));
    assert_eq!(declarations.first_declaration_to_remove(&margin()), None);
}

#[test]
fn removals_do_not_depend_on_their_order() {
    let mut one = padding_and(&[("color", "red", false)]);
    let mut two = one.clone();
    assert_eq!(one, two);
    let left = property(&["padding-left", "color"]);

    one.remove_property_by_id(&left);
    one.remove_property_by_id(&property(&["padding-top"]));
    two.remove_property_by_id(&property(&["padding-top"]));
    two.remove_property_by_id(&left);
    assert_eq!(names(&one.entries()), ["padding-right", "padding-bottom"]);
    assert_eq!(one.entries(), two.entries());
}

#[test]
fn declaration_texts_carry_their_priority() {
    assert_eq!(declaration_text("color", "red", false), "color: red;");
    assert_eq!(
        declaration_text("margin", "0 2px", true),
        "margin: 0 2px !important;"
    );
    assert_eq!(declaration_text("--token", "", false), "--token: ;");
}
