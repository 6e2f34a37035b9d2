//! The chain of namespaces that encloses a point of the tree.

use vstd::prelude::*;
use vstd::string::*;
use crate::reference::copy_names;

verus! {

/// The full name that a namespace declared as `local` has inside `stack`:
/// `local` itself at top level, else the innermost enclosing namespace, a
/// dot, and `local`.
pub open spec fn absolute_name(stack: Seq<Seq<char>>, local: Seq<char>) -> Seq<char> {
    if stack.len() > 0 {
        stack[0] + seq!['.'] + local
    } else {
        local
    }
}

/// The chain inside a namespace declared as `local` within `stack`: the
/// namespace's full name, then the chain it was declared in.
pub open spec fn entered(stack: Seq<Seq<char>>, local: Seq<char>) -> Seq<Seq<char>> {
    seq![absolute_name(stack, local)] + stack
}

/// Opens a namespace: returns the chain that holds inside it and leaves the
/// caller's chain as it was.
pub fn enter_namespace(current: &Vec<String>, local: &str) -> (inner: Vec<String>)
    ensures
        inner.deep_view() == entered(current.deep_view(), local@),
{
    let mut entry = String::new();
    if current.len() > 0 {
        entry.append(current[0].as_str());
        entry.append(".");
        proof {
            reveal_strlit(".");
        }
    }
    entry.append(local);
    assert(entry@ =~= absolute_name(current.deep_view(), local@));
    let mut inner = copy_names(current);
    inner.insert(0, entry);
    inner
}

} // verus!
