//! What holds of extraction on every tree.

use vstd::prelude::*;
use crate::batch::{batch_failures, batch_references, outcome_of, Source, SourceFile};
use crate::error::ExtractionError;
use crate::names::{dotted, leaves_out_scope, qualified_name, segments};
use crate::nesting::{absolute_name, entered};
use crate::reference::{Reference, ReferenceView};
use crate::syntax::{MethodDef, Namespace, ScopedName, SyntaxNode};
use crate::visitor::{any_malformed, malformed, references_of, references_of_each};

verus! {

/// The scoped name written as the identifiers `idents`, outermost first,
/// each one the scope of the next.
pub open spec fn path_of(idents: Seq<String>) -> ScopedName
    recommends
        idents.len() >= 1,
    decreases idents.len(),
{
    if idents.len() <= 1 {
        ScopedName { scope: None, name: idents.last() }
    } else {
        ScopedName {
            scope: Some(Box::new(SyntaxNode::Const(path_of(idents.drop_last())))),
            name: idents.last(),
        }
    }
}

/// The text of each string.
pub open spec fn texts(strings: Seq<String>) -> Seq<Seq<char>> {
    strings.map_values(|s: String| s@)
}

/// The header of a declaration: `class` or `module`, and the declared name.
pub struct Header {
    pub class: bool,
    pub name: ScopedName,
}

/// The declaration with the given header around `body`.
pub open spec fn declare(header: Header, body: SyntaxNode) -> SyntaxNode {
    let namespace = Namespace { name: Some(header.name), body: Some(Box::new(body)) };
    if header.class {
        SyntaxNode::Class(namespace)
    } else {
        SyntaxNode::Module(namespace)
    }
}

/// `inner` wrapped in one declaration per header, the first header outermost.
pub open spec fn nested(headers: Seq<Header>, inner: SyntaxNode) -> SyntaxNode
    decreases headers.len(),
{
    if headers.len() == 0 {
        inner
    } else {
        nested(headers.drop_last(), declare(headers.last(), inner))
    }
}

/// The declared names of the headers, resolved.
pub open spec fn declared_names(headers: Seq<Header>) -> Seq<Seq<char>> {
    headers.map_values(|h: Header| qualified_name(h.name))
}

/// The chain inside namespaces declared one inside the other as `locals`,
/// the first one outermost, starting from `stack`.
pub open spec fn entered_all(stack: Seq<Seq<char>>, locals: Seq<Seq<char>>) -> Seq<Seq<char>>
    decreases locals.len(),
{
    if locals.len() == 0 {
        stack
    } else {
        entered(entered_all(stack, locals.drop_last()), locals.last())
    }
}

/// Whether `inner` is `outer`, a dot, and something more.
pub open spec fn extends(inner: Seq<char>, outer: Seq<char>) -> bool {
    exists|local: Seq<char>| inner == outer + seq!['.'] + local
}

/// Whether each entry of the chain extends the entry after it.
pub open spec fn chained(stack: Seq<Seq<char>>) -> bool {
    forall|i: int| 0 <= i < stack.len() - 1 ==> extends(#[trigger] stack[i], stack[i + 1])
}

/// The segments of a written path are its identifiers, in source order.
pub proof fn law_segments_of_path(idents: Seq<String>)
    requires
        idents.len() >= 1,
    ensures
        segments(path_of(idents)) == texts(idents),
    decreases idents.len(),
{
    if idents.len() > 1 {
        law_segments_of_path(idents.drop_last());
        assert(texts(idents.drop_last()).push(idents.last()@) =~= texts(idents));
    } else {
        assert(seq![idents.last()@] =~= texts(idents));
    }
}

/// A written path leaves out no scope.
pub proof fn law_path_is_complete(idents: Seq<String>)
    requires
        idents.len() >= 1,
    ensures
        !leaves_out_scope(path_of(idents)),
    decreases idents.len(),
{
    if idents.len() > 1 {
        law_path_is_complete(idents.drop_last());
    }
}

/// A scoped name at the top level of a file yields exactly one reference:
/// its name is the identifiers joined by dots in source order, and no
/// namespace encloses it.
pub proof fn law_top_level_path(idents: Seq<String>)
    requires
        idents.len() >= 1,
    ensures
        outcome_of(Source::Parsed(SyntaxNode::Const(path_of(idents)))) == Ok::<
            Seq<ReferenceView>,
            ExtractionError,
        >(seq![ReferenceView { name: dotted(texts(idents)), nesting: Seq::empty() }]),
{
    law_segments_of_path(idents);
}

/// A class or module whose body is a single constant yields one reference:
/// its name is the constant's own path, without the declared name, and its
/// only enclosing namespace is the declared name.
pub proof fn law_single_namespace(header: Header, constant: ScopedName)
    ensures
        outcome_of(Source::Parsed(declare(header, SyntaxNode::Const(constant)))) == Ok::<
            Seq<ReferenceView>,
            ExtractionError,
        >(
            seq![
                ReferenceView {
                    name: qualified_name(constant),
                    nesting: seq![qualified_name(header.name)],
                },
            ],
        ),
{
    reveal_with_fuel(references_of, 2);
    reveal_with_fuel(malformed, 2);
    assert(entered(Seq::empty(), qualified_name(header.name)) =~= seq![
        qualified_name(header.name),
    ]);
}

/// Declarations one inside the other fail exactly when what they enclose
/// fails, and yield what it yields inside the chain that they open in
/// turn. Whether a declaration says `class` or `module` plays no part.
pub proof fn law_nested_declarations(
    headers: Seq<Header>,
    inner: SyntaxNode,
    stack: Seq<Seq<char>>,
)
    ensures
        malformed(nested(headers, inner)) == malformed(inner),
        references_of(nested(headers, inner), stack) == references_of(
            inner,
            entered_all(stack, declared_names(headers)),
        ),
    decreases headers.len(),
{
    if headers.len() > 0 {
        let wrapped = declare(headers.last(), inner);
        law_nested_declarations(headers.drop_last(), wrapped, stack);
        assert(declared_names(headers).drop_last() =~= declared_names(headers.drop_last()));
    }
}

/// Two nestings of the same names around the same node yield the same
/// references, whichever of the declarations are classes and whichever are
/// modules.
pub proof fn law_kinds_compose_alike(
    left: Seq<Header>,
    right: Seq<Header>,
    inner: SyntaxNode,
    stack: Seq<Seq<char>>,
)
    requires
        left.len() == right.len(),
        forall|i: int| 0 <= i < left.len() ==> left[i].name == right[i].name,
    ensures
        malformed(nested(left, inner)) == malformed(nested(right, inner)),
        references_of(nested(left, inner), stack) == references_of(nested(right, inner), stack),
{
    law_nested_declarations(left, inner, stack);
    law_nested_declarations(right, inner, stack);
    assert(declared_names(left) =~= declared_names(right));
}

/// Entering a namespace keeps a chain in which each entry extends the next.
pub proof fn law_entered_is_chained(stack: Seq<Seq<char>>, local: Seq<char>)
    requires
        chained(stack),
    ensures
        chained(entered(stack, local)),
        entered(stack, local).len() == stack.len() + 1,
{
    let inner = entered(stack, local);
    assert forall|i: int| 0 <= i < inner.len() - 1 implies extends(
        #[trigger] inner[i],
        inner[i + 1],
    ) by {
        if i == 0 {
            assert(inner[0] == stack[0] + seq!['.'] + local);
            assert(inner[1] == stack[0]);
        } else {
            assert(inner[i] == stack[i - 1]);
            assert(inner[i + 1] == stack[i]);
            assert(extends(stack[i - 1], stack[(i - 1) + 1]));
        }
    }
}

/// Inside N declarations the chain is N entries longer than outside them,
/// and from the top level each entry extends the one after it.
pub proof fn law_depth_of_nesting(stack: Seq<Seq<char>>, locals: Seq<Seq<char>>)
    requires
        chained(stack),
    ensures
        entered_all(stack, locals).len() == stack.len() + locals.len(),
        chained(entered_all(stack, locals)),
    decreases locals.len(),
{
    if locals.len() > 0 {
        law_depth_of_nesting(stack, locals.drop_last());
        law_entered_is_chained(entered_all(stack, locals.drop_last()), locals.last());
    }
}

/// Every reference of a node that stands in a chain where each entry
/// extends the next carries such a chain itself, at least as long.
pub proof fn law_nesting_is_chained(node: SyntaxNode, stack: Seq<Seq<char>>)
    requires
        chained(stack),
    ensures
        forall|i: int|
            0 <= i < references_of(node, stack).len() ==> {
                &&& chained((#[trigger] references_of(node, stack)[i]).nesting)
                &&& references_of(node, stack)[i].nesting.len() >= stack.len()
            },
    decreases node,
{
    match node {
        SyntaxNode::Class(ns) | SyntaxNode::Module(ns) => match (ns.name, ns.body) {
            (Some(name), Some(body)) => {
                let inner = entered(stack, qualified_name(name));
                law_entered_is_chained(stack, qualified_name(name));
                law_nesting_is_chained(*body, inner);
                assert(references_of(node, stack) == references_of(*body, inner));
            },
            _ => {
                assert(references_of(node, stack) =~= Seq::empty());
            },
        },
        SyntaxNode::Const(c) => {
            assert(references_of(node, stack)[0].nesting == stack);
        },
        SyntaxNode::Def(def) => match def.body {
            Some(body) => {
                law_nesting_is_chained(*body, stack);
                assert(references_of(node, stack) == references_of(*body, stack));
            },
            None => {
                assert(references_of(node, stack) =~= Seq::empty());
            },
        },
        SyntaxNode::Other(children) => {
            law_nesting_is_chained_each(children@, stack);
            assert(references_of(node, stack) == references_of_each(children@, stack));
        },
    }
}

/// Every reference of a file carries a chain in which each entry extends
/// the entry after it.
pub proof fn law_file_nesting_is_chained(tree: SyntaxNode)
    requires
        !malformed(tree),
    ensures
        outcome_of(Source::Parsed(tree)) matches Ok(references) && forall|i: int|
            0 <= i < references.len() ==> chained((#[trigger] references[i]).nesting),
{
    law_nesting_is_chained(tree, Seq::empty());
}

/// A constant inside N declarations, one inside the other, yields one
/// reference whose chain has N entries, innermost first, each one
/// extending the entry after it.
pub proof fn law_depth_of_reference(headers: Seq<Header>, constant: ScopedName)
    ensures
        outcome_of(Source::Parsed(nested(headers, SyntaxNode::Const(constant)))) == Ok::<
            Seq<ReferenceView>,
            ExtractionError,
        >(
            seq![
                ReferenceView {
                    name: qualified_name(constant),
                    nesting: entered_all(Seq::empty(), declared_names(headers)),
                },
            ],
        ),
        entered_all(Seq::empty(), declared_names(headers)).len() == headers.len(),
        chained(entered_all(Seq::empty(), declared_names(headers))),
{
    law_nested_declarations(headers, SyntaxNode::Const(constant), Seq::empty());
    law_depth_of_nesting(Seq::empty(), declared_names(headers));
}

/// The same for nodes that stand side by side.
pub proof fn law_nesting_is_chained_each(nodes: Seq<SyntaxNode>, stack: Seq<Seq<char>>)
    requires
        chained(stack),
    ensures
        forall|i: int|
            0 <= i < references_of_each(nodes, stack).len() ==> {
                &&& chained((#[trigger] references_of_each(nodes, stack)[i]).nesting)
                &&& references_of_each(nodes, stack)[i].nesting.len() >= stack.len()
            },
    decreases nodes,
{
    if nodes.len() > 0 {
        law_nesting_is_chained_each(nodes.drop_last(), stack);
        law_nesting_is_chained(nodes.last(), stack);
        let before = references_of_each(nodes.drop_last(), stack);
        let after = references_of(nodes.last(), stack);
        let all = references_of_each(nodes, stack);
        assert(all == before + after);
        assert forall|i: int| 0 <= i < all.len() implies {
            &&& chained((#[trigger] all[i]).nesting)
            &&& all[i].nesting.len() >= stack.len()
        } by {
            if i < before.len() {
                assert(all[i] == before[i]);
            } else {
                assert(all[i] == after[i - before.len()]);
            }
        }
    }
}

/// Whether every constant that the walk takes a reference from has a
/// non-empty identifier.
pub open spec fn identified(node: SyntaxNode) -> bool
    decreases node,
{
    match node {
        SyntaxNode::Class(ns) | SyntaxNode::Module(ns) => match (ns.name, ns.body) {
            (Some(_), Some(body)) => identified(*body),
            _ => true,
        },
        SyntaxNode::Const(c) => c.name@.len() > 0,
        SyntaxNode::Def(def) => match def.body {
            Some(body) => identified(*body),
            None => true,
        },
        SyntaxNode::Other(children) => each_identified(children@),
    }
}

/// The same of nodes side by side.
pub open spec fn each_identified(nodes: Seq<SyntaxNode>) -> bool
    decreases nodes,
{
    forall|i: int| 0 <= i < nodes.len() ==> identified(#[trigger] nodes[i])
}

/// No reference has an empty name, as long as no constant has an empty
/// identifier.
pub proof fn law_names_are_never_empty(node: SyntaxNode, stack: Seq<Seq<char>>)
    requires
        identified(node),
    ensures
        forall|i: int|
            0 <= i < references_of(node, stack).len() ==> (#[trigger] references_of(
                node,
                stack,
            )[i]).name.len() > 0,
    decreases node,
{
    match node {
        SyntaxNode::Class(ns) | SyntaxNode::Module(ns) => match (ns.name, ns.body) {
            (Some(name), Some(body)) => {
                let inner = entered(stack, qualified_name(name));
                law_names_are_never_empty(*body, inner);
                assert(references_of(node, stack) == references_of(*body, inner));
            },
            _ => {
                assert(references_of(node, stack) =~= Seq::empty());
            },
        },
        SyntaxNode::Const(c) => {
            crate::names::lemma_segments_nonempty(c);
            assert(references_of(node, stack)[0].name == qualified_name(c));
        },
        SyntaxNode::Def(def) => match def.body {
            Some(body) => {
                law_names_are_never_empty(*body, stack);
                assert(references_of(node, stack) == references_of(*body, stack));
            },
            None => {
                assert(references_of(node, stack) =~= Seq::empty());
            },
        },
        SyntaxNode::Other(children) => {
            law_names_are_never_empty_each(children@, stack);
            assert(references_of(node, stack) == references_of_each(children@, stack));
        },
    }
}

/// The same for nodes that stand side by side.
pub proof fn law_names_are_never_empty_each(nodes: Seq<SyntaxNode>, stack: Seq<Seq<char>>)
    requires
        each_identified(nodes),
    ensures
        forall|i: int|
            0 <= i < references_of_each(nodes, stack).len() ==> (#[trigger] references_of_each(
                nodes,
                stack,
            )[i]).name.len() > 0,
    decreases nodes,
{
    if nodes.len() > 0 {
        assert forall|i: int| 0 <= i < nodes.drop_last().len() implies identified(
            #[trigger] nodes.drop_last()[i],
        ) by {
            assert(nodes.drop_last()[i] == nodes[i]);
        }
        law_names_are_never_empty_each(nodes.drop_last(), stack);
        law_names_are_never_empty(nodes.last(), stack);
        let before = references_of_each(nodes.drop_last(), stack);
        let after = references_of(nodes.last(), stack);
        let all = references_of_each(nodes, stack);
        assert(all == before + after);
        assert forall|i: int| 0 <= i < all.len() implies (#[trigger] all[i]).name.len() > 0 by {
            if i < before.len() {
                assert(all[i] == before[i]);
            } else {
                assert(all[i] == after[i - before.len()]);
            }
        }
    }
}

/// A declaration under a compact name opens the same innermost namespace
/// as a declaration of the scope with a declaration of the identifier
/// inside it.
pub proof fn law_compact_matches_nested(scope: ScopedName, ident: String, stack: Seq<Seq<char>>)
    ensures
        ({
            let compact = ScopedName {
                scope: Some(Box::new(SyntaxNode::Const(scope))),
                name: ident,
            };
            let alone = ScopedName { scope: None, name: ident };
            entered(stack, qualified_name(compact))[0] == entered(
                entered(stack, qualified_name(scope)),
                qualified_name(alone),
            )[0]
        }),
{
    let compact = ScopedName { scope: Some(Box::new(SyntaxNode::Const(scope))), name: ident };
    let alone = ScopedName { scope: None, name: ident };
    crate::names::lemma_segments_nonempty(scope);
    assert(segments(compact).drop_last() =~= segments(scope));
    assert(qualified_name(compact) == qualified_name(scope) + seq!['.'] + ident@);
    assert(qualified_name(alone) == ident@);
    if stack.len() > 0 {
        assert(stack[0] + seq!['.'] + (qualified_name(scope) + seq!['.'] + ident@) =~= (stack[0]
            + seq!['.'] + qualified_name(scope)) + seq!['.'] + ident@);
    }
}

/// Nodes side by side yield the references of the first ones followed by
/// the references of the others: none is dropped and the order is kept.
pub proof fn law_siblings_concatenate(
    first: Seq<SyntaxNode>,
    others: Seq<SyntaxNode>,
    stack: Seq<Seq<char>>,
)
    ensures
        references_of_each(first + others, stack) == references_of_each(first, stack)
            + references_of_each(others, stack),
        any_malformed(first + others) == (any_malformed(first) || any_malformed(others)),
    decreases others.len(),
{
    if others.len() == 0 {
        assert(first + others =~= first);
        assert(references_of_each(first, stack) + references_of_each(others, stack)
            =~= references_of_each(first, stack));
    } else {
        law_siblings_concatenate(first, others.drop_last(), stack);
        assert((first + others).drop_last() =~= first + others.drop_last());
        assert((first + others).last() == others.last());
        assert(references_of_each(first + others, stack) =~= references_of_each(first, stack)
            + references_of_each(others, stack));
    }
    if any_malformed(first) {
        let i = choose|i: int| 0 <= i < first.len() && malformed(first[i]);
        assert(malformed((first + others)[i]));
    }
    if any_malformed(others) {
        let i = choose|i: int| 0 <= i < others.len() && malformed(others[i]);
        assert(malformed((first + others)[first.len() + i]));
    }
    if any_malformed(first + others) {
        let i = choose|i: int| 0 <= i < (first + others).len() && malformed((first + others)[i]);
        if i < first.len() {
            assert(malformed(first[i]));
        } else {
            assert(malformed(others[i - first.len()]));
        }
    }
}

/// A construct that holds nothing but constants yields one reference for
/// each, in source order, each with the chain that the construct stands in.
pub proof fn law_container_of_constants(children: Vec<SyntaxNode>, stack: Seq<Seq<char>>)
    requires
        forall|i: int| 0 <= i < children.len() ==> children[i] is Const,
    ensures
        !malformed(SyntaxNode::Other(children)),
        references_of(SyntaxNode::Other(children), stack).len() == children.len(),
        forall|i: int|
            0 <= i < children.len() ==> #[trigger] references_of(
                SyntaxNode::Other(children),
                stack,
            )[i] == (ReferenceView {
                name: qualified_name(children[i]->Const_0),
                nesting: stack,
            }),
{
    lemma_constants_side_by_side(children@, stack);
}

/// The same, for constants side by side.
pub proof fn lemma_constants_side_by_side(nodes: Seq<SyntaxNode>, stack: Seq<Seq<char>>)
    requires
        forall|i: int| 0 <= i < nodes.len() ==> nodes[i] is Const,
    ensures
        !any_malformed(nodes),
        references_of_each(nodes, stack).len() == nodes.len(),
        forall|i: int|
            0 <= i < nodes.len() ==> #[trigger] references_of_each(nodes, stack)[i]
                == (ReferenceView { name: qualified_name(nodes[i]->Const_0), nesting: stack }),
    decreases nodes.len(),
{
    if nodes.len() > 0 {
        lemma_constants_side_by_side(nodes.drop_last(), stack);
        let before = references_of_each(nodes.drop_last(), stack);
        let after = references_of(nodes.last(), stack);
        let all = references_of_each(nodes, stack);
        assert(all == before + after);
        assert(after.len() == 1);
        assert(after[0] == (ReferenceView {
            name: qualified_name(nodes.last()->Const_0),
            nesting: stack,
        }));
        assert forall|i: int| 0 <= i < nodes.len() implies #[trigger] all[i] == (ReferenceView {
            name: qualified_name(nodes[i]->Const_0),
            nesting: stack,
        }) by {
            if i < before.len() {
                assert(all[i] == before[i]);
                assert(nodes.drop_last()[i] == nodes[i]);
            } else {
                assert(all[i] == after[i - before.len()]);
            }
        }
    }
}

/// Extraction is a function of the source: whatever two runs on the same
/// source return, they return the same.
pub proof fn law_extraction_is_stable(
    source: Source,
    first: Result<Vec<Reference>, ExtractionError>,
    second: Result<Vec<Reference>, ExtractionError>,
)
    requires
        crate::batch::yields(source, first),
        crate::batch::yields(source, second),
    ensures
        match (first, second) {
            (Ok(a), Ok(b)) => a.deep_view() == b.deep_view(),
            (Err(a), Err(b)) => a == b,
            _ => false,
        },
{
}

/// A class or module without body, or without name, makes the walk fail
/// wherever the walk meets it: at the top, under declarations, in a method,
/// among other nodes.
pub proof fn law_missing_part_fails(namespace: Namespace)
    requires
        namespace.name is None || namespace.body is None,
    ensures
        malformed(SyntaxNode::Class(namespace)),
        malformed(SyntaxNode::Module(namespace)),
        outcome_of(Source::Parsed(SyntaxNode::Class(namespace))) == Err::<
            Seq<ReferenceView>,
            ExtractionError,
        >(ExtractionError::MalformedNamespaceConstruct),
        outcome_of(Source::Parsed(SyntaxNode::Module(namespace))) == Err::<
            Seq<ReferenceView>,
            ExtractionError,
        >(ExtractionError::MalformedNamespaceConstruct),
        forall|headers: Seq<Header>| #[trigger]
            malformed(nested(headers, SyntaxNode::Class(namespace))),
        malformed(SyntaxNode::Def(MethodDef { body: Some(Box::new(SyntaxNode::Class(namespace))) })),
{
    assert forall|headers: Seq<Header>| #[trigger]
        malformed(nested(headers, SyntaxNode::Class(namespace))) by {
        law_nested_declarations(headers, SyntaxNode::Class(namespace), Seq::empty());
    }
}

/// The files of a batch do not touch each other: a batch yields what its
/// first files yield, followed by what the others yield, whatever fails
/// among them.
pub proof fn law_files_are_independent(first: Seq<SourceFile>, others: Seq<SourceFile>)
    ensures
        batch_references(first + others) == batch_references(first) + batch_references(others),
        batch_failures(first + others) == batch_failures(first) + batch_failures(others),
    decreases others.len(),
{
    if others.len() == 0 {
        assert(first + others =~= first);
        assert(batch_references(first) + batch_references(others) =~= batch_references(first));
        assert(batch_failures(first) + batch_failures(others) =~= batch_failures(first));
    } else {
        law_files_are_independent(first, others.drop_last());
        assert((first + others).drop_last() =~= first + others.drop_last());
        assert((first + others).last() == others.last());
        assert(batch_references(first + others) =~= batch_references(first) + batch_references(
            others,
        ));
        assert(batch_failures(first + others) =~= batch_failures(first) + batch_failures(others));
    }
}

} // verus!
