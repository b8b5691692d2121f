//! The syntax tree of a Ruby source file, reduced to what symbol extraction
//! reads: declarations, constant references, calls and the order in which
//! sub-expressions are visited.

use crate::span::Location;
use vstd::prelude::*;

verus! {

/// `class name < superclass; body; end`.
#[derive(Debug, PartialEq, Eq)]
pub struct Class {
    pub name: Box<Node>,
    pub superclass: Option<Box<Node>>,
    pub body: Option<Box<Node>>,
}

/// `module name; body; end`.
#[derive(Debug, PartialEq, Eq)]
pub struct Module {
    pub name: Box<Node>,
    pub body: Option<Box<Node>>,
}

/// A constant assignment `scope::name = value`. The value is absent where
/// the assignment is one target of a multiple assignment.
#[derive(Debug, PartialEq, Eq)]
pub struct Casgn {
    pub scope: Option<Box<Node>>,
    pub name: String,
    pub value: Option<Box<Node>>,
    /// Where the last segment of the target stands.
    pub name_l: Location,
    /// Where the whole assignment stands.
    pub expression_l: Location,
}

/// A constant reference `scope::name`.
#[derive(Debug, PartialEq, Eq)]
pub struct Const {
    pub scope: Option<Box<Node>>,
    pub name: String,
    pub expression_l: Location,
}

/// A method call `recv.method_name(args)`.
#[derive(Debug, PartialEq, Eq)]
pub struct Send {
    pub recv: Option<Box<Node>>,
    pub method_name: String,
    pub args: Vec<Node>,
    pub expression_l: Location,
}

/// A method definition `def name(args); body; end`.
#[derive(Debug, PartialEq, Eq)]
pub struct Def {
    pub args: Option<Box<Node>>,
    pub body: Option<Box<Node>>,
}

/// The keyword arguments of a call, one `Pair` each.
#[derive(Debug, PartialEq, Eq)]
pub struct Kwargs {
    pub pairs: Vec<Node>,
}

/// One `key: value` entry.
#[derive(Debug, PartialEq, Eq)]
pub struct Pair {
    pub key: Box<Node>,
    pub value: Box<Node>,
}

/// A literal symbol such as `:name`.
#[derive(Debug, PartialEq, Eq)]
pub struct Sym {
    pub name: String,
}

/// A literal string without interpolation.
#[derive(Debug, PartialEq, Eq)]
pub struct Str {
    pub value: String,
}

/// A node of the syntax tree.
#[derive(Debug, PartialEq, Eq)]
pub enum Node {
    Class(Class),
    Module(Module),
    Casgn(Casgn),
    Const(Const),
    /// The leading `::` of a name that is looked up from the global root.
    Cbase,
    Send(Send),
    Def(Def),
    Kwargs(Kwargs),
    Pair(Pair),
    Sym(Sym),
    Str(Str),
    /// A local variable.
    Lvar,
    /// An instance variable.
    Ivar,
    /// `self`.
    Self_,
    /// Any other construct, with its sub-expressions in the order in which
    /// they are visited.
    Other(Vec<Node>),
}

} // verus!
