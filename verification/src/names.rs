//! Resolution of the names that declarations and references are written
//! with.

use crate::nodes::{Casgn, Const, Node};
use crate::span::Location;
use crate::text::{qualified, qualify};
use vstd::prelude::*;

verus! {

/// Why a name could not be read off the syntax tree.
#[derive(Debug, PartialEq, Eq, Structural, Clone, Copy)]
pub enum ParseError {
    /// A segment of the name is computed when the program runs: it comes
    /// from a method call, a local or instance variable, or `self`.
    Metaprogramming,
    /// A segment of the name is a construct that names are not read from.
    UnsupportedConstruct,
}

/// The name that `node` spells out as a path of constants, or the reason why
/// it spells none. The global root reads as the empty name, so that a name
/// below it begins with the scope separator.
pub open spec fn const_name(node: Node) -> Result<Seq<char>, ParseError>
    decreases node,
{
    match node {
        Node::Const(inner) => const_const_name(inner),
        Node::Cbase => Ok(Seq::empty()),
        Node::Send(_) => Err(ParseError::Metaprogramming),
        Node::Lvar => Err(ParseError::Metaprogramming),
        Node::Ivar => Err(ParseError::Metaprogramming),
        Node::Self_ => Err(ParseError::Metaprogramming),
        _ => Err(ParseError::UnsupportedConstruct),
    }
}

/// The name of the constant reference `node`: its own name, behind the name
/// of its scope and the scope separator where it has a scope.
pub open spec fn const_const_name(node: Const) -> Result<Seq<char>, ParseError>
    decreases node,
{
    match node.scope {
        Some(scope) => match const_name(*scope) {
            Ok(parent) => Ok(qualified(parent, node.name@)),
            Err(error) => Err(error),
        },
        None => Ok(node.name@),
    }
}

/// The name of the target of the constant assignment `node`.
pub open spec fn casgn_name(node: Casgn) -> Result<Seq<char>, ParseError> {
    match node.scope {
        Some(scope) => match const_name(*scope) {
            Ok(parent) => Ok(qualified(parent, node.name@)),
            Err(error) => Err(error),
        },
        None => Ok(node.name@),
    }
}

/// Where the name `node` stands, if `node` is a constant reference.
pub open spec fn node_location(node: Node) -> Result<Location, ParseError> {
    match node {
        Node::Const(inner) => Ok(inner.expression_l),
        _ => Err(ParseError::UnsupportedConstruct),
    }
}

/// Where the target of the constant assignment `node` stands: from the start
/// of the assignment to the end of the assigned name.
pub open spec fn casgn_target_location(node: Casgn) -> Location {
    Location { begin: node.expression_l.begin, end: node.name_l.end }
}

/// The value of a result that holds a string.
pub open spec fn name_result_view(
    result: Result<String, ParseError>,
) -> Result<Seq<char>, ParseError> {
    match result {
        Ok(name) => Ok(name@),
        Err(error) => Err(error),
    }
}

/// Reads the location of a name off the syntax tree.
pub fn fetch_node_location(node: &Node) -> (location: Result<Location, ParseError>)
    ensures
        location == node_location(*node),
{
    match node {
        Node::Const(const_node) => Ok(const_node.expression_l),
        _ => Err(ParseError::UnsupportedConstruct),
    }
}

/// Reads the name that `node` spells out.
pub fn fetch_const_name(node: &Node) -> (name: Result<String, ParseError>)
    ensures
        name_result_view(name) == const_name(*node),
    decreases node,
{
    match node {
        Node::Const(const_node) => fetch_const_const_name(const_node),
        Node::Cbase => Ok(String::new()),
        Node::Send(_) => Err(ParseError::Metaprogramming),
        Node::Lvar => Err(ParseError::Metaprogramming),
        Node::Ivar => Err(ParseError::Metaprogramming),
        Node::Self_ => Err(ParseError::Metaprogramming),
        _ => Err(ParseError::UnsupportedConstruct),
    }
}

/// Reads the name of a constant reference.
pub fn fetch_const_const_name(node: &Const) -> (name: Result<String, ParseError>)
    ensures
        name_result_view(name) == const_const_name(*node),
    decreases node,
{
    match &node.scope {
        Some(s) => match fetch_const_name(s) {
            Ok(parent_namespace) => Ok(qualify(parent_namespace.as_str(), node.name.as_str())),
            Err(error) => Err(error),
        },
        None => Ok(node.name.clone()),
    }
}

/// Reads the name of the target of a constant assignment.
pub fn fetch_casgn_name(node: &Casgn) -> (name: Result<String, ParseError>)
    ensures
        name_result_view(name) == casgn_name(*node),
{
    match &node.scope {
        Some(s) => match fetch_const_name(s) {
            Ok(parent_namespace) => Ok(qualify(parent_namespace.as_str(), node.name.as_str())),
            Err(error) => Err(error),
        },
        None => Ok(node.name.clone()),
    }
}

} // verus!
