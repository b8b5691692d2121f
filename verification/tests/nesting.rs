use packs::references::{calculate_module_nesting, Reference};
use packs::span::Range;

fn strings(items: &[&str]) -> Vec<String> {
    items.iter().map(|item| item.to_string()).collect()
}

fn reference(name: &str, namespace_path: &[&str]) -> Reference {
    Reference {
        name: name.to_string(),
        namespace_path: strings(namespace_path),
        location: Range::default(),
    }
}

#[test]
fn nesting_of_three_namespaces_lists_innermost_scope_first() {
    assert_eq!(
        calculate_module_nesting(&strings(&["A", "B", "C"])),
        strings(&["A::B::C", "A::B", "A"])
    );
}

#[test]
fn nesting_of_no_namespace_is_empty() {
    assert_eq!(calculate_module_nesting(&strings(&[])), strings(&[]));
}

#[test]
fn nesting_of_one_namespace_is_that_namespace() {
    assert_eq!(calculate_module_nesting(&strings(&["A"])), strings(&["A"]));
}

#[test]
fn nesting_keeps_compact_namespaces_as_one_segment() {
    assert_eq!(
        calculate_module_nesting(&strings(&["Foo::Bar", "Baz"])),
        strings(&["Foo::Bar::Baz", "Foo::Bar"])
    );
}

#[test]
fn namespace_behind_an_empty_scope_stands_alone() {
    assert_eq!(calculate_module_nesting(&strings(&["", "A"])), strings(&["A", ""]));
    assert_eq!(
        calculate_module_nesting(&strings(&["", "", "A", "B"])),
        strings(&["A::B", "A", "", ""])
    );
}

#[test]
fn empty_namespace_behind_a_scope_is_joined_to_it() {
    assert_eq!(
        calculate_module_nesting(&strings(&["A", "", "B"])),
        strings(&["A::::B", "A::", "A"])
    );
}

#[test]
fn candidates_behind_an_empty_scope() {
    assert_eq!(
        reference("Boo", &["", "A"]).possible_fully_qualified_constants(),
        strings(&["Boo", "::A::Boo", "::::Boo"])
    );
}

#[test]
fn candidates_start_with_the_bare_name_then_go_outwards() {
    assert_eq!(
        reference("Boo", &["Foo", "Bar", "Baz"]).possible_fully_qualified_constants(),
        strings(&["Boo", "::Foo::Bar::Baz::Boo", "::Foo::Bar::Boo", "::Foo::Boo"])
    );
}

#[test]
fn candidates_of_a_root_anchored_name_are_the_name_alone() {
    assert_eq!(
        reference("::Boo", &["Foo", "Bar"]).possible_fully_qualified_constants(),
        strings(&["::Boo"])
    );
}

#[test]
fn candidates_outside_any_namespace_are_the_name_alone() {
    assert_eq!(reference("Boo", &[]).possible_fully_qualified_constants(), strings(&["Boo"]));
}

#[test]
fn candidates_of_a_qualified_name_keep_the_qualification() {
    assert_eq!(
        reference("Baz::Boo", &["Foo"]).possible_fully_qualified_constants(),
        strings(&["Baz::Boo", "::Foo::Baz::Boo"])
    );
}

#[test]
fn a_single_colon_does_not_anchor_a_name() {
    assert_eq!(
        reference(":Boo", &["Foo"]).possible_fully_qualified_constants(),
        strings(&[":Boo", "::Foo:::Boo"])
    );
}

#[test]
fn a_cloned_reference_equals_its_source() {
    let source = reference("Boo", &["Foo", "Bar"]);
    assert_eq!(source.clone(), source);
}
