//! The syntax tree that the extractor walks.

use vstd::prelude::*;

verus! {

/// A name, optionally qualified by the node that stands before its `::`.
#[derive(Debug)]
pub struct ScopedName {
    /// The node on the left of the `::`, if the name has one.
    pub scope: Option<Box<SyntaxNode>>,
    /// The identifier on the right, as written.
    pub name: String,
}

/// A class or a module: a construct that opens a lexical namespace.
#[derive(Debug)]
pub struct Namespace {
    /// The declared name; `None` when the construct carries no name.
    pub name: Option<ScopedName>,
    /// What stands between the header and `end`; `None` when there is nothing.
    pub body: Option<Box<SyntaxNode>>,
}

/// A method definition.
#[derive(Debug)]
pub struct MethodDef {
    /// The statements of the method; `None` for an empty method.
    pub body: Option<Box<SyntaxNode>>,
}

/// One node of the tree, by the role it plays in extraction.
#[derive(Debug)]
pub enum SyntaxNode {
    /// `class Name ... end`
    Class(Namespace),
    /// `module Name ... end`
    Module(Namespace),
    /// A constant in expression position.
    Const(ScopedName),
    /// `def name ... end`
    Def(MethodDef),
    /// Any other construct, reduced to its immediate children in source order.
    Other(Vec<SyntaxNode>),
}

} // verus!
