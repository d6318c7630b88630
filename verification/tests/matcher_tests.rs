use std::ops::ControlFlow;

use lume::hir::matcher::{
    any, expression, filter, find_first_match, find_matches, find_matches_in, function, has_branch, has_case,
    has_documentation, has_name, has_operand, has_pattern, has_type_decl, has_visibility, ident_pattern,
    literal_pattern, method, optionally, statement, str_contains, str_empty, switch, var_decl, variant_pattern,
    wildcard_pattern, Bindings, MatchCallback, Predicate, PredicateBindExt, PredicateBindTypeExt, PredicateBox,
    Results,
};
use lume::hir::node::{
    Block, Constness, Expression, ExpressionKind, FnFlags, FnSignature, FunctionDefinition, IdentifierPattern,
    LiteralPattern, MethodDefinition, Node, Pattern, PatternKind, Scope, Statement, StatementKind, Switch,
    SwitchCase, VariableDeclaration, VariantPattern, Visibility, WildcardPattern,
};
use lume::hir::path::{Identifier, Path, PathSegment, Type, TypeId};
use lume::map::HirMap;
use lume::span::{Location, NodeId, PackageId};

fn nid(i: u64) -> NodeId {
    NodeId::new(PackageId(1), i)
}

fn at(source: &str, text: &str) -> Location {
    let start = source.find(text).unwrap();
    Location { file: 0, start, end: start + text.len() }
}

fn content<'a>(source: &'a str, location: Location) -> &'a str {
    &source[location.start..location.end]
}

fn ty(name: &str, i: u64) -> Type {
    Type {
        id: TypeId(nid(i)),
        name: Path::rooted(PathSegment::ty(Identifier::from_str(name))),
        self_type: false,
        location: Location::empty(),
    }
}

fn signature(name: &str) -> FnSignature {
    FnSignature {
        flags: FnFlags { unsafe_: false },
        name: Path::rooted(PathSegment::callable(Identifier::from_str(name))),
        parameters: vec![],
        type_parameters: vec![],
        return_type: ty("Void", 900),
        location: Location::empty(),
    }
}

fn function_def(id: u64, name: &str, docs: Option<&str>, statements: Vec<NodeId>) -> FunctionDefinition {
    FunctionDefinition {
        id: nid(id),
        doc_comment: docs.map(|d| d.to_string()),
        attrs: vec![],
        visibility: Visibility::Private,
        constness: Constness::NotConst,
        signature: signature(name),
        block: Some(Block { id: nid(id + 500), statements, location: Location::empty() }),
        location: Location::empty(),
    }
}

fn method_def(id: u64, name: &str, docs: Option<&str>) -> MethodDefinition {
    MethodDefinition {
        id: nid(id),
        doc_comment: docs.map(|d| d.to_string()),
        attrs: vec![],
        visibility: Visibility::Public,
        signature: signature(name),
        block: Some(Block { id: nid(id + 500), statements: vec![], location: Location::empty() }),
        location: Location::empty(),
    }
}

/// A function `foo` whose body declares each of the variables in turn,
/// each with its value and, where given, its declared type.
fn function_with_variables(source: &str, vars: &[(&str, Option<&str>, &str)]) -> HirMap {
    let mut hir = HirMap::empty(PackageId(1));
    let mut statements = vec![];
    for (k, _) in vars.iter().enumerate() {
        statements.push(nid(10 + 2 * k as u64));
    }
    hir.insert_node(nid(1), Node::Function(function_def(1, "foo", None, statements)));
    for (k, (name, declared, text)) in vars.iter().enumerate() {
        let sid = 10 + 2 * k as u64;
        let location = at(source, text);
        let decl = VariableDeclaration {
            id: nid(sid),
            name: Identifier::from_str(name),
            declared_type: declared.map(|t| ty(t, 100 + sid)),
            value: nid(sid + 1),
            location,
        };
        let stmt = Statement { id: nid(sid), kind: StatementKind::Variable(decl), location };
        hir.insert_node(nid(sid), Node::Statement(stmt));
        hir.insert_node(nid(sid + 1), Node::Expression(Expression::lit_bool(nid(sid + 1), true)));
        if let Some(t) = declared {
            hir.insert_type(TypeId(nid(100 + sid)), ty(t, 100 + sid));
        }
    }
    hir
}

fn declared_name(results: &Results, key: &str) -> String {
    match results.bound_node(key) {
        Some(Node::Statement(stmt)) => match &stmt.kind {
            StatementKind::Variable(decl) => decl.name.as_str().to_string(),
            _ => panic!("expected a variable declaration"),
        },
        _ => panic!("expected a bound statement"),
    }
}

struct Collect<F: FnMut(&Results) -> ControlFlow<()>> {
    on: F,
}

impl<F: FnMut(&Results) -> ControlFlow<()>> MatchCallback for Collect<F> {
    fn on_match(&mut self, results: &Results) -> ControlFlow<()> {
        (self.on)(results)
    }
}

fn callback<F: FnMut(&Results) -> ControlFlow<()>>(on: F) -> Collect<F> {
    Collect { on }
}

#[test]
fn match_filter_node() {
    let source = "fn foo() {\n    let a = 5_i32;\n    let b = 5_i32;\n}";
    let hir = function_with_variables(source, &[("a", None, "let a = 5_i32;"), ("b", None, "let b = 5_i32;")]);
    let keep_b: PredicateBox<VariableDeclaration> =
        Box::new(filter(|decl: &VariableDeclaration| decl.name.as_str() == "b", vec![]));
    let matcher = statement(vec![Box::new(var_decl(vec![keep_b]))]).bind("decl");
    let mut seen = vec![];
    find_matches(
        &hir,
        &matcher,
        &mut callback(|results| {
            let name = declared_name(results, "decl");
            assert_eq!(name, "b");
            seen.push(name);
            ControlFlow::Continue(())
        }),
    );
    assert_eq!(seen, vec!["b"]);
}

#[test]
fn match_optional_bindings() {
    let source = "fn foo() {\n    let a = 5_i32;\n    let b: T = 5_i32;\n}";
    let hir =
        function_with_variables(source, &[("a", None, "let a = 5_i32;"), ("b", Some("T"), "let b: T = 5_i32;")]);
    let type_decl: PredicateBox<VariableDeclaration> =
        Box::new(has_type_decl(vec![Box::new(any().bind_type("var_type"))]));
    let matcher = statement(vec![Box::new(var_decl(vec![Box::new(optionally(vec![type_decl]))]).bind("var_decl"))]);
    let mut seen = vec![];
    find_matches(
        &hir,
        &matcher,
        &mut callback(|results| {
            let name = declared_name(results, "var_decl");
            match name.as_str() {
                "a" => assert!(results.bound_type("var_type").is_none()),
                "b" => assert!(results.bound_type("var_type").is_some()),
                _ => unreachable!(),
            }
            seen.push(name);
            ControlFlow::Continue(())
        }),
    );
    assert_eq!(seen, vec!["a", "b"]);
}

#[test]
fn optional_type_bindings_are_recorded() {
    let source = "fn foo() {\n    let b: T = 5_i32;\n}";
    let hir = function_with_variables(source, &[("b", Some("T"), "let b: T = 5_i32;")]);
    let stmt = match hir.node(nid(10)) {
        Some(Node::Statement(stmt)) => stmt,
        _ => panic!("expected a statement"),
    };
    let decl = match &stmt.kind {
        StatementKind::Variable(decl) => decl,
        _ => panic!("expected a variable declaration"),
    };
    let type_decl: PredicateBox<VariableDeclaration> =
        Box::new(has_type_decl(vec![Box::new(any().bind_type("var_type"))]));
    let mut bindings = Bindings::new();
    assert!(optionally(vec![type_decl]).satisfies(&hir, decl, &mut bindings));
    assert_eq!(bindings.bound_type("var_type"), Some(TypeId(nid(110))));
}

#[test]
fn match_inside_node() {
    let source = "fn foo() {\n    let a = 5_i32;\n}";
    let hir = function_with_variables(source, &[("a", None, "let a = 5_i32;")]);
    let foo_node = hir.node(nid(1)).unwrap();
    let mut calls = 0;
    find_matches_in(
        &hir,
        &statement(vec![Box::new(var_decl(vec![]))]).bind("decl"),
        &mut callback(|results| {
            calls += 1;
            assert_eq!(declared_name(results, "decl"), "a");
            ControlFlow::Continue(())
        }),
        foo_node,
    );
    assert_eq!(calls, 1);
}

fn function_name(results: &Results) -> String {
    match results.bound_node("func") {
        Some(Node::Function(func)) => func.signature.name.to_string(),
        Some(Node::Method(func)) => func.signature.name.to_string(),
        _ => panic!("expected a bound function"),
    }
}

#[test]
fn match_fn_definitions() {
    let mut hir = HirMap::empty(PackageId(1));
    hir.insert_node(nid(1), Node::Function(function_def(1, "foo", None, vec![])));
    hir.insert_node(nid(2), Node::Function(function_def(2, "bar", Some("with comments!"), vec![])));

    let mut first = vec![];
    find_first_match(
        &hir,
        &function(vec![]).bind("func"),
        &mut callback(|results| {
            first.push(function_name(results));
            ControlFlow::Continue(())
        }),
    );
    assert_eq!(first, vec!["foo"]);

    let mut documented = vec![];
    find_first_match(
        &hir,
        &function(vec![Box::new(has_documentation(vec![]))]).bind("func"),
        &mut callback(|results| {
            documented.push(function_name(results));
            ControlFlow::Continue(())
        }),
    );
    assert_eq!(documented, vec!["bar"]);
}

#[test]
fn match_method_definitions() {
    let mut hir = HirMap::empty(PackageId(1));
    hir.insert_node(nid(3), Node::Method(method_def(3, "foo", None)));
    hir.insert_node(nid(4), Node::Method(method_def(4, "bar", Some("with comments!"))));

    let mut first = vec![];
    find_first_match(
        &hir,
        &method(vec![]).bind("func"),
        &mut callback(|results| {
            first.push(function_name(results));
            ControlFlow::Continue(())
        }),
    );
    assert_eq!(first, vec!["foo"]);

    let mut documented = vec![];
    find_first_match(
        &hir,
        &method(vec![Box::new(has_documentation(vec![]))]).bind("func"),
        &mut callback(|results| {
            documented.push(function_name(results));
            ControlFlow::Continue(())
        }),
    );
    assert_eq!(documented, vec!["bar"]);
}

fn pattern_node(id: u64, kind: PatternKind) -> Node {
    Node::Pattern(Pattern { id: nid(id), kind, location: Location::empty() })
}

fn empty_block(id: u64) -> Node {
    Node::Expression(Expression {
        id: nid(id),
        kind: ExpressionKind::Scope(Scope { id: nid(id), body: vec![], unsafe_: false, location: Location::empty() }),
        location: Location::empty(),
    })
}

/// `switch 6_u64 { foo => { }, 3_i32 => { }, Variant::B => { }, .. => { } }`
fn switch_map() -> HirMap {
    let mut hir = HirMap::empty(PackageId(1));
    hir.insert_node(nid(20), Node::Expression(Expression::lit_u64(nid(20), 6)));
    hir.insert_node(
        nid(21),
        pattern_node(21, PatternKind::Identifier(IdentifierPattern {
            name: Identifier::from_str("foo"),
            location: Location::empty(),
        })),
    );
    let three = match Expression::lit_int(nid(22), 3, lume::hir::node::IntKind::I32).kind {
        ExpressionKind::Literal(l) => l,
        _ => unreachable!(),
    };
    hir.insert_node(nid(23), pattern_node(23, PatternKind::Literal(LiteralPattern { literal: three, location: Location::empty() })));
    hir.insert_node(
        nid(24),
        pattern_node(24, PatternKind::Variant(VariantPattern {
            name: Path::from_parts(
                Some(vec![PathSegment::ty(Identifier::from_str("Variant"))]),
                PathSegment::variant(Identifier::from_str("B")),
            ),
            fields: vec![],
            location: Location::empty(),
        })),
    );
    hir.insert_node(nid(25), pattern_node(25, PatternKind::Wildcard(WildcardPattern { location: Location::empty() })));
    for b in 31..35 {
        hir.insert_node(nid(b), empty_block(b));
    }
    let cases = vec![
        SwitchCase { pattern: nid(21), branch: nid(31), location: Location::empty() },
        SwitchCase { pattern: nid(23), branch: nid(32), location: Location::empty() },
        SwitchCase { pattern: nid(24), branch: nid(33), location: Location::empty() },
        SwitchCase { pattern: nid(25), branch: nid(34), location: Location::empty() },
    ];
    hir.insert_node(
        nid(40),
        Node::Expression(Expression {
            id: nid(40),
            kind: ExpressionKind::Switch(Switch { id: nid(40), operand: nid(20), cases, location: Location::empty() }),
            location: Location::empty(),
        }),
    );
    hir
}

fn case_with(pattern: PredicateBox<Pattern>, name: &'static str) -> PredicateBox<Switch> {
    let has: PredicateBox<SwitchCase> = Box::new(has_pattern(vec![pattern]));
    let branch: PredicateBox<SwitchCase> = Box::new(has_branch(vec![Box::new(any::<Expression>().bind(name))]));
    Box::new(has_case(vec![has, branch]))
}

#[test]
fn match_patterns_in_switch() {
    let hir = switch_map();
    let matcher = expression(vec![Box::new(switch(vec![
        Box::new(has_operand(vec![])),
        case_with(Box::new(ident_pattern(vec![])), "ident_block"),
        case_with(Box::new(literal_pattern(vec![])), "literal_block"),
        case_with(Box::new(variant_pattern(vec![])), "variant_block"),
        case_with(Box::new(wildcard_pattern(vec![])), "wildcard_block"),
    ]))]);
    let mut matched = 0;
    find_matches(
        &hir,
        &matcher,
        &mut callback(|results| {
            assert!(results.bound_node("ident_block").is_some());
            assert!(results.bound_node("literal_block").is_some());
            assert!(results.bound_node("variant_block").is_some());
            assert!(results.bound_node("wildcard_block").is_some());
            assert_eq!(results.bound_node("ident_block").map(|n| n.id()), Some(nid(31)));
            assert_eq!(results.bound_node("wildcard_block").map(|n| n.id()), Some(nid(34)));
            matched += 1;
            ControlFlow::Continue(())
        }),
    );
    assert_eq!(matched, 1);
}

#[test]
fn switch_without_cases_matches_no_case() {
    let mut hir = HirMap::empty(PackageId(1));
    hir.insert_node(nid(20), Node::Expression(Expression::lit_u64(nid(20), 6)));
    let subject = Switch { id: nid(40), operand: nid(20), cases: vec![], location: Location::empty() };
    let mut bindings = Bindings::new();
    assert!(!has_case(vec![]).satisfies(&hir, &subject, &mut bindings));
    assert!(has_operand(vec![]).satisfies(&hir, &subject, &mut bindings));
    let missing = Switch { id: nid(41), operand: nid(99), cases: vec![], location: Location::empty() };
    assert!(!has_operand(vec![]).satisfies(&hir, &missing, &mut bindings));
}

#[test]
fn match_no_statements() {
    let mut hir = HirMap::empty(PackageId(1));
    hir.insert_node(nid(1), Node::Function(function_def(1, "foo", None, vec![])));
    find_matches(
        &hir,
        &statement(vec![]),
        &mut callback(|_results| panic!("this should not be called!")),
    );
}

#[test]
fn match_all_statements() {
    let source = "fn foo() {\n    let a = 1;\n    let b = 2;\n    let c = 3;\n}";
    let hir = function_with_variables(
        source,
        &[("a", None, "let a = 1;"), ("b", None, "let b = 2;"), ("c", None, "let c = 3;")],
    );
    for (name, expected) in [("a", "let a = 1;"), ("b", "let b = 2;"), ("c", "let c = 3;")] {
        let mut found = vec![];
        find_first_match(
            &hir,
            &statement(vec![Box::new(var_decl(vec![Box::new(has_name(name))]).bind("stmt"))]),
            &mut callback(|results| {
                let span = results.bound_node("stmt").unwrap().location();
                found.push(content(source, span).to_string());
                ControlFlow::Continue(())
            }),
        );
        assert_eq!(found, vec![expected]);
    }
}

#[test]
fn match_var_decl_type() {
    let source = "fn foo() {\n    let a = 1;\n    let b: T = 2;\n}";
    let hir = function_with_variables(source, &[("a", None, "let a = 1;"), ("b", Some("T"), "let b: T = 2;")]);

    let mut found = vec![];
    find_first_match(
        &hir,
        &statement(vec![Box::new(var_decl(vec![]).bind("stmt"))]),
        &mut callback(|results| {
            found.push(content(source, results.bound_node("stmt").unwrap().location()).to_string());
            ControlFlow::Continue(())
        }),
    );
    assert_eq!(found, vec!["let a = 1;"]);

    let mut typed = vec![];
    find_first_match(
        &hir,
        &statement(vec![Box::new(var_decl(vec![Box::new(has_type_decl(vec![]))]).bind("stmt"))]),
        &mut callback(|results| {
            typed.push(content(source, results.bound_node("stmt").unwrap().location()).to_string());
            ControlFlow::Continue(())
        }),
    );
    assert_eq!(typed, vec!["let b: T = 2;"]);
}

#[test]
fn string_matchers() {
    let hir = HirMap::empty(PackageId(1));
    let mut bindings = Bindings::new();
    let docs = "with comments!".to_string();
    assert!(str_contains("comments").satisfies(&hir, &docs, &mut bindings));
    assert!(str_contains("").satisfies(&hir, &docs, &mut bindings));
    assert!(str_contains("with comments!").satisfies(&hir, &docs, &mut bindings));
    assert!(!str_contains("comments!!").satisfies(&hir, &docs, &mut bindings));
    assert!(!str_contains("Comments").satisfies(&hir, &docs, &mut bindings));
    assert!(str_empty(false).satisfies(&hir, &docs, &mut bindings));
    assert!(!str_empty(true).satisfies(&hir, &docs, &mut bindings));
    assert!(str_empty(true).satisfies(&hir, &String::new(), &mut bindings));
}

#[test]
fn documentation_and_visibility_matchers() {
    let mut hir = HirMap::empty(PackageId(1));
    hir.insert_node(nid(1), Node::Function(function_def(1, "foo", Some("Adds two numbers."), vec![])));
    hir.insert_node(nid(2), Node::Function(function_def(2, "bar", Some("Subtracts."), vec![])));
    let mut names = vec![];
    find_matches(
        &hir,
        &function(vec![
            Box::new(has_documentation(vec![Box::new(str_contains("two"))])),
            Box::new(has_visibility(Visibility::Private)),
        ])
        .bind("func"),
        &mut callback(|results| {
            names.push(function_name(results));
            ControlFlow::Continue(())
        }),
    );
    assert_eq!(names, vec!["foo"]);

    let mut public = 0;
    find_matches(
        &hir,
        &function(vec![Box::new(has_visibility(Visibility::Public))]),
        &mut callback(|_results| {
            public += 1;
            ControlFlow::Continue(())
        }),
    );
    assert_eq!(public, 0);
}
