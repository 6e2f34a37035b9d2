//! The walk over the tree that collects the references.

use vstd::prelude::*;
use crate::error::ExtractionError;
use crate::names::{qualified_name, unstack_constant_node};
use crate::nesting::{enter_namespace, entered};
use crate::reference::{copy_names, Reference, ReferenceView};
use crate::syntax::{Namespace, ScopedName, SyntaxNode};

verus! {

/// Whether the walk meets a class or module that lacks its name or its
/// body. The scope of a constant is not walked, so what stands there does
/// not count.
pub open spec fn malformed(node: SyntaxNode) -> bool
    decreases node,
{
    match node {
        SyntaxNode::Class(ns) | SyntaxNode::Module(ns) => match (ns.name, ns.body) {
            (Some(_), Some(body)) => malformed(*body),
            _ => true,
        },
        SyntaxNode::Const(_) => false,
        SyntaxNode::Def(def) => match def.body {
            Some(body) => malformed(*body),
            None => false,
        },
        SyntaxNode::Other(children) => any_malformed(children@),
    }
}

/// Whether the walk fails on one of the nodes.
pub open spec fn any_malformed(nodes: Seq<SyntaxNode>) -> bool
    decreases nodes,
{
    exists|i: int| 0 <= i < nodes.len() && malformed(#[trigger] nodes[i])
}

/// The references that a node makes when it stands inside `stack`, in
/// pre-order, children from left to right. A class or module is no
/// reference to its own name: it yields what its body yields inside the
/// chain that the declaration opens. A method yields what its body yields
/// in the chain it stands in.
pub open spec fn references_of(node: SyntaxNode, stack: Seq<Seq<char>>) -> Seq<ReferenceView>
    decreases node,
{
    match node {
        SyntaxNode::Class(ns) | SyntaxNode::Module(ns) => match (ns.name, ns.body) {
            (Some(name), Some(body)) => references_of(
                *body,
                entered(stack, qualified_name(name)),
            ),
            _ => Seq::empty(),
        },
        SyntaxNode::Const(c) => seq![ReferenceView { name: qualified_name(c), nesting: stack }],
        SyntaxNode::Def(def) => match def.body {
            Some(body) => references_of(*body, stack),
            None => Seq::empty(),
        },
        SyntaxNode::Other(children) => references_of_each(children@, stack),
    }
}

/// The references of several nodes that stand side by side in `stack`, one
/// node after the other.
pub open spec fn references_of_each(nodes: Seq<SyntaxNode>, stack: Seq<Seq<char>>) -> Seq<
    ReferenceView,
>
    decreases nodes,
{
    if nodes.len() == 0 {
        Seq::empty()
    } else {
        references_of_each(nodes.drop_last(), stack) + references_of(nodes.last(), stack)
    }
}

/// Walks a node that stands inside `current_module_nesting` and returns the
/// references it makes, or the failure when the walk meets a class or
/// module without name or body.
pub fn extract_from_ast(ast: &SyntaxNode, current_module_nesting: &Vec<String>) -> (result: Result<
    Vec<Reference>,
    ExtractionError,
>)
    ensures
        match result {
            Ok(references) => !malformed(*ast) && references.deep_view() == references_of(
                *ast,
                current_module_nesting.deep_view(),
            ),
            Err(error) => malformed(*ast) && error == ExtractionError::MalformedNamespaceConstruct,
        },
    decreases *ast, 0nat,
{
    match ast {
        SyntaxNode::Class(class) => match (&class.name, &class.body) {
            (Some(name), Some(body)) => walk_class_or_module_nodes(
                body,
                name,
                current_module_nesting,
            ),
            _ => Err(ExtractionError::MalformedNamespaceConstruct),
        },
        SyntaxNode::Const(n) => {
            let fully_qualified_const_reference = unstack_constant_node(n);
            let reference = Reference::new(
                fully_qualified_const_reference,
                copy_names(current_module_nesting),
            );
            let mut references: Vec<Reference> = Vec::new();
            references.push(reference);
            Ok(references)
        },
        SyntaxNode::Module(module) => match (&module.name, &module.body) {
            (Some(name), Some(body)) => walk_class_or_module_nodes(
                body,
                name,
                current_module_nesting,
            ),
            _ => Err(ExtractionError::MalformedNamespaceConstruct),
        },
        SyntaxNode::Def(x) => match &x.body {
            Some(body) => extract_from_ast(body, current_module_nesting),
            None => Ok(Vec::new()),
        },
        SyntaxNode::Other(children) => extract_from_children(children, current_module_nesting),
    }
}

/// Walks nodes that stand side by side inside `current_module_nesting`, from
/// left to right, and returns their references in that order. The walk
/// stops at the first node that fails.
pub fn extract_from_children(children: &Vec<SyntaxNode>, current_module_nesting: &Vec<String>) -> (result:
    Result<Vec<Reference>, ExtractionError>)
    ensures
        match result {
            Ok(references) => !any_malformed(children@) && references.deep_view()
                == references_of_each(children@, current_module_nesting.deep_view()),
            Err(error) => any_malformed(children@) && error
                == ExtractionError::MalformedNamespaceConstruct,
        },
    decreases *children, 1nat,
{
    let ghost stack = current_module_nesting.deep_view();
    let mut references: Vec<Reference> = Vec::new();
    let mut i: usize = 0;
    while i < children.len()
        invariant
            i <= children.len(),
            stack == current_module_nesting.deep_view(),
            forall|j: int| 0 <= j < i ==> !malformed(#[trigger] children@[j]),
            references.deep_view() == references_of_each(children@.take(i as int), stack),
        decreases children.len() - i,
    {
        match extract_from_ast(&children[i], current_module_nesting) {
            Ok(mut more) => {
                references.append(&mut more);
                proof {
                    assert(children@.take(i + 1).drop_last() =~= children@.take(i as int));
                }
            },
            Err(error) => {
                return Err(error);
            },
        }
        i += 1;
    }
    assert(children@.take(i as int) =~= children@);
    Ok(references)
}

/// Walks the body of a class or module declared as `class_or_module_name`
/// inside `current_module_nesting`: the body stands in the chain that the
/// declaration opens.
pub fn walk_class_or_module_nodes(
    remaining_ast: &SyntaxNode,
    class_or_module_name: &ScopedName,
    current_module_nesting: &Vec<String>,
) -> (result: Result<Vec<Reference>, ExtractionError>)
    ensures
        match result {
            Ok(references) => !malformed(*remaining_ast) && references.deep_view() == references_of(
                *remaining_ast,
                entered(current_module_nesting.deep_view(), qualified_name(*class_or_module_name)),
            ),
            Err(error) => malformed(*remaining_ast) && error
                == ExtractionError::MalformedNamespaceConstruct,
        },
    decreases *remaining_ast, 1nat,
{
    let name = unstack_constant_node(class_or_module_name);
    let inner = enter_namespace(current_module_nesting, name.as_str());
    extract_from_ast(remaining_ast, &inner)
}

} // verus!
