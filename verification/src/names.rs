//! Resolution of a scoped name into one dotted path.

use vstd::prelude::*;
use vstd::string::*;
use crate::syntax::{ScopedName, SyntaxNode};

verus! {

/// The identifiers of a scoped name, outermost first. The chain is followed
/// as long as the scope is itself a scoped name; any other scope ends it and
/// is left out.
pub open spec fn segments(c: ScopedName) -> Seq<Seq<char>>
    decreases c,
{
    match c.scope {
        Some(outer) => match *outer {
            SyntaxNode::Const(parent) => segments(parent).push(c.name@),
            _ => seq![c.name@],
        },
        None => seq![c.name@],
    }
}

/// The parts joined by single dots.
pub open spec fn dotted(parts: Seq<Seq<char>>) -> Seq<char>
    decreases parts.len(),
{
    if parts.len() == 0 {
        Seq::empty()
    } else if parts.len() == 1 {
        parts[0]
    } else {
        dotted(parts.drop_last()) + seq!['.'] + parts.last()
    }
}

/// The canonical dotted path of a scoped name.
pub open spec fn qualified_name(c: ScopedName) -> Seq<char> {
    dotted(segments(c))
}

/// Whether the path of a scoped name leaves out a scope: the chain of
/// scoped names ends in a scope of another kind, such as a top-level
/// marker or an expression.
pub open spec fn leaves_out_scope(c: ScopedName) -> bool
    decreases c,
{
    match c.scope {
        Some(outer) => match *outer {
            SyntaxNode::Const(parent) => leaves_out_scope(parent),
            _ => true,
        },
        None => false,
    }
}

/// A scoped name has at least one segment, and its last one is its own identifier.
pub proof fn lemma_segments_nonempty(c: ScopedName)
    ensures
        segments(c).len() >= 1,
        segments(c).last() == c.name@,
    decreases c,
{
    match c.scope {
        Some(outer) => match *outer {
            SyntaxNode::Const(parent) => {
                lemma_segments_nonempty(parent);
            },
            _ => {},
        },
        None => {},
    }
}

/// Resolves a scoped name into its canonical dotted path.
pub fn unstack_constant_node(node: &ScopedName) -> (name: String)
    ensures
        name@ == qualified_name(*node),
    decreases *node,
{
    match &node.scope {
        Some(outer) => match &**outer {
            SyntaxNode::Const(parent) => {
                let mut name = unstack_constant_node(parent);
                proof {
                    lemma_segments_nonempty(*parent);
                    assert(segments(*node).drop_last() =~= segments(*parent));
                }
                name.append(".");
                name.append(node.name.as_str());
                proof {
                    reveal_strlit(".");
                }
                name
            },
            _ => node.name.clone(),
        },
        None => node.name.clone(),
    }
}

/// Tells whether the dotted path of a scoped name is less than what was
/// written: whether a scope that is no scoped name was left out of it.
pub fn outer_scope_dropped(node: &ScopedName) -> (dropped: bool)
    ensures
        dropped == leaves_out_scope(*node),
    decreases *node,
{
    match &node.scope {
        Some(outer) => match &**outer {
            SyntaxNode::Const(parent) => outer_scope_dropped(parent),
            _ => true,
        },
        None => false,
    }
}

} // verus!
