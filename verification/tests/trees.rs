use packs::batch::{extract_from_contents, extract_from_path, get_references, Source, SourceFile};
use packs::error::ExtractionError;
use packs::names::{outer_scope_dropped, unstack_constant_node};
use packs::nesting::enter_namespace;
use packs::reference::{copy_names, same_names, Reference};
use packs::syntax::{MethodDef, Namespace, ScopedName, SyntaxNode};
use packs::visitor::{extract_from_ast, extract_from_children, walk_class_or_module_nodes};

fn name(ident: &str) -> ScopedName {
    ScopedName { scope: None, name: String::from(ident) }
}

fn path(idents: &[&str]) -> ScopedName {
    let mut built = name(idents[0]);
    for ident in &idents[1..] {
        built = ScopedName {
            scope: Some(Box::new(SyntaxNode::Const(built))),
            name: String::from(*ident),
        };
    }
    built
}

fn constant(idents: &[&str]) -> SyntaxNode {
    SyntaxNode::Const(path(idents))
}

fn class(idents: &[&str], body: SyntaxNode) -> SyntaxNode {
    SyntaxNode::Class(Namespace { name: Some(path(idents)), body: Some(Box::new(body)) })
}

fn module(idents: &[&str], body: SyntaxNode) -> SyntaxNode {
    SyntaxNode::Module(Namespace { name: Some(path(idents)), body: Some(Box::new(body)) })
}

fn strings(entries: &[&str]) -> Vec<String> {
    entries.iter().map(|entry| String::from(*entry)).collect()
}

fn reference(name: &str, module_nesting: &[&str]) -> Reference {
    Reference::new(String::from(name), strings(module_nesting))
}

fn top_level(tree: SyntaxNode) -> Result<Vec<Reference>, ExtractionError> {
    extract_from_contents(&Source::Parsed(tree))
}

#[test]
fn single_identifier_resolves_to_itself() {
    assert_eq!(unstack_constant_node(&name("Foo")), "Foo");
    assert_eq!(unstack_constant_node(&name("")), "");
}

#[test]
fn chain_is_joined_by_dots_in_source_order() {
    assert_eq!(unstack_constant_node(&path(&["A", "B"])), "A.B");
    assert_eq!(unstack_constant_node(&path(&["A", "B", "C"])), "A.B.C");
    assert_eq!(unstack_constant_node(&path(&["Foo", "Bar", "Baz", "Boo"])), "Foo.Bar.Baz.Boo");
}

#[test]
fn identifiers_are_not_normalized() {
    assert_eq!(unstack_constant_node(&path(&[" a ", "B b"])), " a .B b");
}

#[test]
fn scope_of_another_kind_is_left_out() {
    let absolute = ScopedName {
        scope: Some(Box::new(SyntaxNode::Other(vec![]))),
        name: String::from("Foo"),
    };
    assert_eq!(unstack_constant_node(&absolute), "Foo");
    let under_absolute = ScopedName {
        scope: Some(Box::new(SyntaxNode::Const(absolute))),
        name: String::from("Bar"),
    };
    assert_eq!(unstack_constant_node(&under_absolute), "Foo.Bar");
    let under_call = ScopedName {
        scope: Some(Box::new(SyntaxNode::Other(vec![constant(&["Hidden"])]))),
        name: String::from("Seen"),
    };
    assert_eq!(unstack_constant_node(&under_call), "Seen");
    let under_class = ScopedName {
        scope: Some(Box::new(class(&["Outer"], constant(&["Inner"])))),
        name: String::from("Seen"),
    };
    assert_eq!(top_level(SyntaxNode::Const(under_class)), Ok(vec![reference("Seen", &[])]));
}

#[test]
fn dropped_scope_is_told() {
    assert!(!outer_scope_dropped(&name("Foo")));
    assert!(!outer_scope_dropped(&path(&["A", "B", "C"])));
    let absolute = ScopedName {
        scope: Some(Box::new(SyntaxNode::Other(vec![]))),
        name: String::from("Foo"),
    };
    assert!(outer_scope_dropped(&absolute));
    let under_absolute = ScopedName {
        scope: Some(Box::new(SyntaxNode::Const(absolute))),
        name: String::from("Bar"),
    };
    assert!(outer_scope_dropped(&under_absolute));
}

#[test]
fn entering_at_top_level_gives_the_name_itself() {
    assert_eq!(enter_namespace(&vec![], "Foo"), strings(&["Foo"]));
    assert_eq!(enter_namespace(&vec![], "Foo.Bar"), strings(&["Foo.Bar"]));
}

#[test]
fn entering_prepends_the_absolute_name() {
    let outer = strings(&["Foo"]);
    let inner = enter_namespace(&outer, "Bar");
    assert_eq!(inner, strings(&["Foo.Bar", "Foo"]));
    assert_eq!(outer, strings(&["Foo"]));
    let innermost = enter_namespace(&inner, "Baz.Boo");
    assert_eq!(innermost, strings(&["Foo.Bar.Baz.Boo", "Foo.Bar", "Foo"]));
    assert_eq!(innermost.len(), inner.len() + 1);
}

#[test]
fn entering_uses_only_the_innermost_entry() {
    assert_eq!(enter_namespace(&strings(&["X", "unrelated"]), "Y"), strings(&["X.Y", "X", "unrelated"]));
}

#[test]
fn constant_at_top_level() {
    assert_eq!(top_level(constant(&["A", "B", "C"])), Ok(vec![reference("A.B.C", &[])]));
}

#[test]
fn constant_takes_the_chain_it_stands_in() {
    let chain = strings(&["Foo.Bar", "Foo"]);
    assert_eq!(
        extract_from_ast(&constant(&["Baz"]), &chain),
        Ok(vec![reference("Baz", &["Foo.Bar", "Foo"])])
    );
}

#[test]
fn namespace_around_one_constant() {
    assert_eq!(top_level(class(&["Foo"], constant(&["Bar"]))), Ok(vec![reference("Bar", &["Foo"])]));
    assert_eq!(top_level(module(&["Foo"], constant(&["Bar"]))), Ok(vec![reference("Bar", &["Foo"])]));
}

#[test]
fn depth_of_nesting_is_length_of_chain() {
    let mut tree = constant(&["Leaf"]);
    let idents = ["N5", "N4", "N3", "N2", "N1"];
    for ident in idents {
        tree = class(&[ident], tree);
    }
    let references = top_level(tree).expect("the tree is well formed");
    assert_eq!(references.len(), 1);
    assert_eq!(
        references[0],
        reference("Leaf", &["N1.N2.N3.N4.N5", "N1.N2.N3.N4", "N1.N2.N3", "N1.N2", "N1"])
    );
    let nesting = references[0].module_nesting();
    assert_eq!(nesting.len(), 5);
    for i in 0..nesting.len() - 1 {
        assert!(nesting[i].starts_with(&format!("{}.", nesting[i + 1])));
    }
}

#[test]
fn kinds_of_namespace_compose_alike() {
    let mixed = class(&["Foo"], module(&["Bar"], class(&["Baz"], constant(&["Boo"]))));
    let classes = class(&["Foo"], class(&["Bar"], class(&["Baz"], constant(&["Boo"]))));
    let modules = module(&["Foo"], module(&["Bar"], module(&["Baz"], constant(&["Boo"]))));
    let expected = Ok(vec![reference("Boo", &["Foo.Bar.Baz", "Foo.Bar", "Foo"])]);
    assert_eq!(top_level(mixed), expected);
    assert_eq!(top_level(classes), expected);
    assert_eq!(top_level(modules), expected);
}

#[test]
fn compact_name_opens_one_namespace() {
    assert_eq!(
        top_level(class(&["Foo", "Bar"], constant(&["Baz"]))),
        Ok(vec![reference("Baz", &["Foo.Bar"])])
    );
    assert_eq!(
        top_level(class(&["Foo"], class(&["Bar"], constant(&["Baz"])))),
        Ok(vec![reference("Baz", &["Foo.Bar", "Foo"])])
    );
    assert_eq!(
        top_level(class(&["Foo", "Bar"], module(&["Baz"], constant(&["Baz"])))),
        Ok(vec![reference("Baz", &["Foo.Bar.Baz", "Foo.Bar"])])
    );
}

#[test]
fn walk_of_a_body_opens_the_declared_namespace() {
    assert_eq!(
        walk_class_or_module_nodes(&constant(&["X"]), &path(&["B", "C"]), &strings(&["A"])),
        Ok(vec![reference("X", &["A.B.C", "A"])])
    );
    assert_eq!(
        walk_class_or_module_nodes(&constant(&["X"]), &name("B"), &vec![]),
        Ok(vec![reference("X", &["B"])])
    );
    assert_eq!(
        walk_class_or_module_nodes(
            &SyntaxNode::Class(Namespace { name: None, body: None }),
            &name("B"),
            &vec![]
        ),
        Err(ExtractionError::MalformedNamespaceConstruct)
    );
}

#[test]
fn container_keeps_order_and_nesting() {
    let pair = SyntaxNode::Other(vec![constant(&["Foo"]), constant(&["Bar"])]);
    assert_eq!(
        top_level(pair),
        Ok(vec![reference("Foo", &[]), reference("Bar", &[])])
    );
    let inside = class(
        &["Ns"],
        SyntaxNode::Other(vec![constant(&["A"]), constant(&["B", "C"]), constant(&["A"])]),
    );
    assert_eq!(
        top_level(inside),
        Ok(vec![reference("A", &["Ns"]), reference("B.C", &["Ns"]), reference("A", &["Ns"])])
    );
}

#[test]
fn container_without_children_is_empty() {
    assert_eq!(top_level(SyntaxNode::Other(vec![])), Ok(vec![]));
    assert_eq!(extract_from_children(&vec![], &strings(&["Foo"])), Ok(vec![]));
}

#[test]
fn walk_is_depth_first_and_left_to_right() {
    let tree = SyntaxNode::Other(vec![
        constant(&["First"]),
        SyntaxNode::Other(vec![
            constant(&["Second"]),
            module(&["M"], SyntaxNode::Other(vec![constant(&["Third"]), constant(&["Fourth"])])),
        ]),
        SyntaxNode::Other(vec![]),
        constant(&["Fifth"]),
    ]);
    assert_eq!(
        top_level(tree),
        Ok(vec![
            reference("First", &[]),
            reference("Second", &[]),
            reference("Third", &["M"]),
            reference("Fourth", &["M"]),
            reference("Fifth", &[]),
        ])
    );
}

#[test]
fn siblings_do_not_share_a_namespace() {
    let tree = module(
        &["A"],
        SyntaxNode::Other(vec![
            class(&["B"], constant(&["X"])),
            class(&["C"], constant(&["Y"])),
            constant(&["Z"]),
        ]),
    );
    assert_eq!(
        top_level(tree),
        Ok(vec![
            reference("X", &["A.B", "A"]),
            reference("Y", &["A.C", "A"]),
            reference("Z", &["A"]),
        ])
    );
}

#[test]
fn method_keeps_the_chain() {
    let method = SyntaxNode::Def(MethodDef { body: Some(Box::new(constant(&["Baz"]))) });
    assert_eq!(top_level(class(&["Foo"], method)), Ok(vec![reference("Baz", &["Foo"])]));
    let empty = SyntaxNode::Def(MethodDef { body: None });
    assert_eq!(top_level(empty), Ok(vec![]));
}

#[test]
fn namespace_without_body_fails() {
    let tree = SyntaxNode::Class(Namespace { name: Some(name("Foo")), body: None });
    assert_eq!(top_level(tree), Err(ExtractionError::MalformedNamespaceConstruct));
    let tree = SyntaxNode::Module(Namespace { name: Some(name("Foo")), body: None });
    assert_eq!(top_level(tree), Err(ExtractionError::MalformedNamespaceConstruct));
}

#[test]
fn namespace_without_name_fails() {
    let tree = SyntaxNode::Class(Namespace { name: None, body: Some(Box::new(constant(&["Bar"]))) });
    assert_eq!(top_level(tree), Err(ExtractionError::MalformedNamespaceConstruct));
    let tree = SyntaxNode::Module(Namespace { name: None, body: None });
    assert_eq!(top_level(tree), Err(ExtractionError::MalformedNamespaceConstruct));
}

#[test]
fn failure_anywhere_on_the_walk_fails_the_file() {
    let broken = SyntaxNode::Module(Namespace { name: Some(name("Broken")), body: None });
    let tree = class(
        &["Foo"],
        SyntaxNode::Other(vec![
            constant(&["Fine"]),
            SyntaxNode::Def(MethodDef { body: Some(Box::new(SyntaxNode::Other(vec![broken]))) }),
            constant(&["Late"]),
        ]),
    );
    assert_eq!(top_level(tree), Err(ExtractionError::MalformedNamespaceConstruct));
}

#[test]
fn broken_scope_of_a_constant_does_not_fail() {
    let broken = SyntaxNode::Class(Namespace { name: None, body: None });
    let tree = SyntaxNode::Const(ScopedName { scope: Some(Box::new(broken)), name: String::from("Foo") });
    assert_eq!(top_level(tree), Ok(vec![reference("Foo", &[])]));
}

#[test]
fn unread_and_unparsed_sources_fail() {
    assert_eq!(extract_from_contents(&Source::Unreadable), Err(ExtractionError::UnreadableSource));
    assert_eq!(extract_from_contents(&Source::Unparsable), Err(ExtractionError::UnparsableSource));
}

#[test]
fn failure_names_the_file() {
    let file = SourceFile { path: String::from("/root/packs/a/x.rb"), source: Source::Unparsable };
    let failure = extract_from_path(&file).expect_err("no tree, no references");
    assert_eq!(failure.path, "/root/packs/a/x.rb");
    assert_eq!(failure.error, ExtractionError::UnparsableSource);
    let file = SourceFile {
        path: String::from("/root/packs/a/y.rb"),
        source: Source::Parsed(constant(&["Y"])),
    };
    assert_eq!(extract_from_path(&file).expect("a constant"), vec![reference("Y", &[])]);
}

#[test]
fn batch_keeps_going_after_a_failure() {
    let files = vec![
        SourceFile { path: String::from("/p/1.rb"), source: Source::Parsed(constant(&["One"])) },
        SourceFile { path: String::from("/p/2.rb"), source: Source::Unreadable },
        SourceFile {
            path: String::from("/p/3.rb"),
            source: Source::Parsed(SyntaxNode::Class(Namespace { name: Some(name("C")), body: None })),
        },
        SourceFile {
            path: String::from("/p/4.rb"),
            source: Source::Parsed(class(&["Four"], SyntaxNode::Other(vec![constant(&["A"]), constant(&["B"])]))),
        },
        SourceFile { path: String::from("/p/5.rb"), source: Source::Unparsable },
    ];
    let report = get_references(&files);
    assert_eq!(
        report.references,
        vec![reference("One", &[]), reference("A", &["Four"]), reference("B", &["Four"])]
    );
    let failures: Vec<(String, ExtractionError)> =
        report.failures.iter().map(|failure| (failure.path.clone(), failure.error)).collect();
    assert_eq!(
        failures,
        vec![
            (String::from("/p/2.rb"), ExtractionError::UnreadableSource),
            (String::from("/p/3.rb"), ExtractionError::MalformedNamespaceConstruct),
            (String::from("/p/5.rb"), ExtractionError::UnparsableSource),
        ]
    );
}

#[test]
fn batch_is_the_batches_of_its_parts() {
    let make = |from: usize, to: usize| -> Vec<SourceFile> {
        let all = ["A", "", "B", "C", ""];
        (from..to)
            .map(|i| SourceFile {
                path: format!("/p/{}.rb", i),
                source: if all[i].is_empty() { Source::Unparsable } else { Source::Parsed(constant(&[all[i]])) },
            })
            .collect()
    };
    let whole = get_references(&make(0, 5));
    let left = get_references(&make(0, 2));
    let right = get_references(&make(2, 5));
    let mut references = left.references;
    references.extend(right.references);
    assert_eq!(whole.references, references);
    assert_eq!(whole.failures.len(), left.failures.len() + right.failures.len());
    assert_eq!(whole.failures[0].path, "/p/1.rb");
    assert_eq!(whole.failures[1].path, "/p/4.rb");
}

#[test]
fn empty_batch_is_empty() {
    let report = get_references(&vec![]);
    assert!(report.references.is_empty());
    assert!(report.failures.is_empty());
}

#[test]
fn extraction_twice_gives_the_same() {
    let source = Source::Parsed(class(
        &["Foo", "Bar"],
        SyntaxNode::Other(vec![constant(&["A"]), module(&["M"], constant(&["B", "C"]))]),
    ));
    let first = extract_from_contents(&source);
    let second = extract_from_contents(&source);
    assert_eq!(first, second);
    assert_eq!(
        first,
        Ok(vec![reference("A", &["Foo.Bar"]), reference("B.C", &["Foo.Bar.M", "Foo.Bar"])])
    );
}

#[test]
fn references_are_equal_by_name_and_chain() {
    assert_eq!(reference("A", &["X", "Y"]), reference("A", &["X", "Y"]));
    assert_ne!(reference("A", &["X", "Y"]), reference("B", &["X", "Y"]));
    assert_ne!(reference("A", &["X", "Y"]), reference("A", &["Y", "X"]));
    assert_ne!(reference("A", &["X", "Y"]), reference("A", &["X"]));
    assert_ne!(reference("A", &["X"]), reference("A", &["Z"]));
    assert_ne!(reference("A", &[]), reference("A", &[""]));
}

#[test]
fn reference_hands_out_its_parts() {
    let made = reference("A.B", &["X.Y", "X"]);
    assert_eq!(made.name(), "A.B");
    assert_eq!(*made.module_nesting(), strings(&["X.Y", "X"]));
    let copy = made.clone();
    assert_eq!(copy, made);
}

#[test]
fn default_reference_is_empty() {
    let empty = Reference::default();
    assert_eq!(empty.name(), "");
    assert!(empty.module_nesting().is_empty());
    assert_eq!(empty, reference("", &[]));
}

#[test]
fn lists_of_names_compare_and_copy() {
    assert!(same_names(&strings(&[]), &strings(&[])));
    assert!(same_names(&strings(&["a", "b"]), &strings(&["a", "b"])));
    assert!(!same_names(&strings(&["a", "b"]), &strings(&["a", "c"])));
    assert!(!same_names(&strings(&["a", "b"]), &strings(&["a"])));
    assert!(!same_names(&strings(&["a"]), &strings(&["a", "b"])));
    assert_eq!(copy_names(&strings(&["x", "", "y"])), strings(&["x", "", "y"]));
    assert_eq!(copy_names(&strings(&[])), strings(&[]));
}
