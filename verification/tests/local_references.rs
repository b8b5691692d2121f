use packs::local_references::{
    definition_locations, find_local_definition, remove_local_references,
    should_ignore_local_reference,
};
use packs::references::{Definition, Reference};
use packs::span::Range;

fn strings(items: &[&str]) -> Vec<String> {
    items.iter().map(|item| item.to_string()).collect()
}

fn at(row: usize, start_col: usize, end_col: usize) -> Range {
    Range { start_row: row, start_col, end_row: row, end_col }
}

fn reference(name: &str, namespace_path: &[&str], location: Range) -> Reference {
    Reference { name: name.to_string(), namespace_path: strings(namespace_path), location }
}

fn definition(name: &str, namespace_path: &[&str], location: Range) -> Definition {
    Definition {
        fully_qualified_name: name.to_string(),
        location,
        namespace_path: strings(namespace_path),
    }
}

fn definitions() -> Vec<Definition> {
    vec![
        definition("::Foo", &["Foo"], at(1, 6, 10)),
        definition("::Foo::BAR", &["Foo"], at(2, 2, 6)),
    ]
}

#[test]
fn declaration_is_kept() {
    let references = vec![reference("::Foo", &["Foo"], at(1, 6, 10))];
    assert_eq!(remove_local_references(&references, &definitions()), references);
}

#[test]
fn other_reference_to_a_local_definition_is_removed() {
    let references = vec![
        reference("::Foo", &["Foo"], at(1, 6, 10)),
        reference("BAR", &["Foo"], at(4, 9, 13)),
        reference("::Foo", &[], at(9, 0, 6)),
        reference("Foo", &[], at(10, 0, 4)),
        reference("Baz", &["Foo"], at(5, 4, 8)),
    ];
    assert_eq!(
        remove_local_references(&references, &definitions()),
        vec![reference("::Foo", &["Foo"], at(1, 6, 10)), reference("Baz", &["Foo"], at(5, 4, 8))]
    );
}

#[test]
fn span_that_differs_only_in_its_end_is_another_place() {
    let references = vec![reference("::Foo", &["Foo"], at(1, 6, 11))];
    assert_eq!(remove_local_references(&references, &definitions()), vec![]);
}

#[test]
fn without_definitions_every_reference_is_kept() {
    let references = vec![reference("Foo", &["Bar"], at(1, 0, 4)), reference("::Bar", &[], at(2, 0, 6))];
    assert_eq!(remove_local_references(&references, &vec![]), references);
    assert_eq!(remove_local_references(&vec![], &definitions()), vec![]);
}

#[test]
fn last_definition_of_a_name_gives_its_place() {
    let twice = vec![
        definition("::Foo", &["Foo"], at(1, 6, 10)),
        definition("::Foo", &["Foo"], at(3, 6, 10)),
    ];
    let locations = definition_locations(&twice);
    assert_eq!(find_local_definition(&locations, "::Foo"), Some(at(3, 6, 10)));
    let references = vec![
        reference("::Foo", &["Foo"], at(1, 6, 10)),
        reference("::Foo", &["Foo"], at(3, 6, 10)),
    ];
    assert_eq!(
        remove_local_references(&references, &twice),
        vec![reference("::Foo", &["Foo"], at(3, 6, 10))]
    );
}

#[test]
fn name_is_looked_up_as_it_stands_and_then_from_the_root() {
    let locations = definition_locations(&definitions());
    assert_eq!(find_local_definition(&locations, "::Foo"), Some(at(1, 6, 10)));
    assert_eq!(find_local_definition(&locations, "Foo"), Some(at(1, 6, 10)));
    assert_eq!(find_local_definition(&locations, "Foo::BAR"), Some(at(2, 2, 6)));
    assert_eq!(find_local_definition(&locations, "BAR"), None);
    assert_eq!(find_local_definition(&locations, ""), None);
}

#[test]
fn last_candidate_that_finds_a_definition_decides() {
    let both = vec![
        definition("::Bar", &["Bar"], at(1, 6, 10)),
        definition("::Foo::Bar", &["Foo", "Bar"], at(3, 8, 12)),
    ];
    let locations = definition_locations(&both);
    assert!(!should_ignore_local_reference(&locations, &reference("Bar", &["Foo"], at(3, 8, 12))));
    assert!(should_ignore_local_reference(&locations, &reference("Bar", &["Foo"], at(1, 6, 10))));
    assert!(!should_ignore_local_reference(&locations, &reference("Bar", &[], at(1, 6, 10))));
    assert!(!should_ignore_local_reference(&locations, &reference("Qux", &["Foo"], at(1, 6, 10))));
}

#[test]
fn kept_references_keep_their_order() {
    let references = vec![
        reference("Zed", &[], at(9, 0, 4)),
        reference("BAR", &["Foo"], at(4, 9, 13)),
        reference("Alpha", &["Foo"], at(3, 0, 6)),
        reference("Foo", &[], at(10, 0, 4)),
        reference("Zed", &[], at(9, 0, 4)),
        reference("::Foo", &["Foo"], at(1, 6, 10)),
    ];
    assert_eq!(
        remove_local_references(&references, &definitions()),
        vec![
            reference("Zed", &[], at(9, 0, 4)),
            reference("Alpha", &["Foo"], at(3, 0, 6)),
            reference("Zed", &[], at(9, 0, 4)),
            reference("::Foo", &["Foo"], at(1, 6, 10)),
        ]
    );
}
