use packs::names::{
    fetch_casgn_name, fetch_const_const_name, fetch_const_name, fetch_node_location, ParseError,
};
use packs::nodes::{Casgn, Const, Node, Send};
use packs::span::Location;

fn at(begin: usize, end: usize) -> Location {
    Location { begin, end }
}

fn constant(scope: Option<Node>, name: &str, begin: usize, end: usize) -> Const {
    Const { scope: scope.map(Box::new), name: name.to_string(), expression_l: at(begin, end) }
}

fn call(method_name: &str) -> Node {
    Node::Send(Send {
        recv: None,
        method_name: method_name.to_string(),
        args: vec![],
        expression_l: at(0, method_name.len()),
    })
}

#[test]
fn name_of_a_bare_constant() {
    assert_eq!(
        fetch_const_name(&Node::Const(constant(None, "Foo", 0, 3))),
        Ok("Foo".to_string())
    );
}

#[test]
fn name_of_a_nested_constant() {
    let foo = Node::Const(constant(None, "Foo", 0, 3));
    let bar = Node::Const(constant(Some(foo), "Bar", 0, 8));
    assert_eq!(
        fetch_const_const_name(&constant(Some(bar), "Baz", 0, 13)),
        Ok("Foo::Bar::Baz".to_string())
    );
}

#[test]
fn name_below_the_global_root_begins_with_the_separator() {
    assert_eq!(
        fetch_const_const_name(&constant(Some(Node::Cbase), "Foo", 0, 5)),
        Ok("::Foo".to_string())
    );
}

#[test]
fn name_of_the_global_root_is_empty() {
    assert_eq!(fetch_const_name(&Node::Cbase), Ok(String::new()));
}

#[test]
fn name_behind_a_call_is_metaprogramming() {
    assert_eq!(
        fetch_const_const_name(&constant(Some(call("described_class")), "Foo", 0, 20)),
        Err(ParseError::Metaprogramming)
    );
}

#[test]
fn name_behind_a_variable_or_self_is_metaprogramming() {
    assert_eq!(fetch_const_name(&Node::Lvar), Err(ParseError::Metaprogramming));
    assert_eq!(fetch_const_name(&Node::Ivar), Err(ParseError::Metaprogramming));
    assert_eq!(fetch_const_name(&Node::Self_), Err(ParseError::Metaprogramming));
}

#[test]
fn name_behind_another_construct_is_unsupported() {
    assert_eq!(
        fetch_const_name(&Node::Other(vec![Node::Const(constant(None, "Foo", 1, 4))])),
        Err(ParseError::UnsupportedConstruct)
    );
    assert_eq!(
        fetch_const_const_name(&constant(Some(Node::Other(vec![])), "Foo", 0, 7)),
        Err(ParseError::UnsupportedConstruct)
    );
}

#[test]
fn error_deep_in_the_scope_comes_out() {
    let dynamic = Node::Const(constant(Some(Node::Self_), "Foo", 0, 9));
    assert_eq!(
        fetch_const_const_name(&constant(Some(dynamic), "Bar", 0, 14)),
        Err(ParseError::Metaprogramming)
    );
}

#[test]
fn name_of_an_assignment_target() {
    let target = Casgn {
        scope: Some(Box::new(Node::Const(constant(None, "Foo", 0, 3)))),
        name: "BAR".to_string(),
        value: None,
        name_l: at(5, 8),
        expression_l: at(0, 12),
    };
    assert_eq!(fetch_casgn_name(&target), Ok("Foo::BAR".to_string()));
    let plain = Casgn { scope: None, ..target };
    assert_eq!(fetch_casgn_name(&plain), Ok("BAR".to_string()));
    let dynamic = Casgn { scope: Some(Box::new(Node::Ivar)), ..plain };
    assert_eq!(fetch_casgn_name(&dynamic), Err(ParseError::Metaprogramming));
}

#[test]
fn location_of_a_constant_is_that_of_the_whole_path() {
    assert_eq!(fetch_node_location(&Node::Const(constant(None, "Foo", 6, 9))), Ok(at(6, 9)));
}

#[test]
fn location_of_anything_else_is_unsupported() {
    assert_eq!(fetch_node_location(&Node::Cbase), Err(ParseError::UnsupportedConstruct));
    assert_eq!(fetch_node_location(&call("foo")), Err(ParseError::UnsupportedConstruct));
}
