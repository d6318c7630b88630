use lume::hir::node::{
    Block, Break, Constness, Expression, ExpressionKind, Field, FnFlags, FnSignature, FunctionDefinition,
    Implementation, MethodDefinition, Node, Parameter, Scope, Statement, StatementKind, StructDefinition,
    TypeDefinition, TypeParameter, TypeVariable, Visibility,
};
use lume::hir::node::{Assignment, DerefExpr, Place, IdentifierPattern, LiteralKind, LiteralPattern, PatternKind, StringLiteral, WildcardPattern};
use lume::hir::path::{Identifier, Path, PathSegment, Type, TypeId};
use lume::infer::hir::{CallReference, TyInferCtx};
use lume::infer::scope::{scope_links, Ancestry, ScopeLink};
use lume::map::HirMap;
use lume::span::{Location, NodeId, PackageId};

fn nid(i: u64) -> NodeId {
    NodeId::new(PackageId(1), i)
}

fn ty(name: &str, i: u64) -> Type {
    Type {
        id: TypeId(nid(i)),
        name: Path::rooted(PathSegment::ty(Identifier::from_str(name))),
        self_type: false,
        location: Location::empty(),
    }
}

fn signature(name: &str, type_parameters: Vec<NodeId>, parameters: Vec<Parameter>) -> FnSignature {
    FnSignature {
        flags: FnFlags { unsafe_: false },
        name: Path::rooted(PathSegment::callable(Identifier::from_str(name))),
        parameters,
        type_parameters,
        return_type: ty("Void", 900),
        location: Location::empty(),
    }
}

fn parameter(id: u64, name: &str) -> Parameter {
    Parameter {
        id: nid(id),
        index: 0,
        name: Identifier::from_str(name),
        param_type: ty("Int32", 901),
        vararg: false,
        location: Location::empty(),
    }
}

/// `const fn foo<T>(x: Int32) { let a = { 1 }; }`
fn foo(block: Option<Block>) -> FunctionDefinition {
    FunctionDefinition {
        id: nid(1),
        doc_comment: None,
        attrs: vec![],
        visibility: Visibility::Public,
        constness: Constness::Const,
        signature: signature("foo", vec![nid(5)], vec![parameter(6, "x")]),
        block,
        location: Location { file: 0, start: 3, end: 40 },
    }
}

fn field() -> Field {
    Field {
        id: nid(21),
        index: 0,
        doc_comment: None,
        attrs: vec![],
        visibility: Visibility::Public,
        name: Identifier::from_str("value"),
        field_type: ty("Int32", 902),
        default_value: Some(nid(22)),
        location: Location::empty(),
    }
}

fn method() -> MethodDefinition {
    MethodDefinition {
        id: nid(31),
        doc_comment: None,
        attrs: vec![],
        visibility: Visibility::Public,
        signature: signature("get", vec![], vec![]),
        block: Some(Block { id: nid(35), statements: vec![nid(32)], location: Location::empty() }),
        location: Location::empty(),
    }
}

fn literal(id: u64) -> Node {
    Node::Expression(Expression::lit_bool(nid(id), true))
}

fn sample_map() -> HirMap {
    let mut hir = HirMap::empty(PackageId(1));
    let block = Block { id: nid(2), statements: vec![nid(10)], location: Location::empty() };
    hir.insert_node(nid(1), Node::Function(foo(Some(block))));
    hir.insert_node(
        nid(5),
        Node::Type(TypeDefinition::TypeParameter(Box::new(TypeParameter {
            id: nid(5),
            name: Identifier::from_str("T"),
            constraints: vec![],
            location: Location::empty(),
        }))),
    );
    hir.insert_node(
        nid(10),
        Node::Statement(Statement::define_variable(nid(10), Identifier::from_str("a"), nid(11), Location::empty())),
    );
    hir.insert_node(
        nid(11),
        Node::Expression(Expression {
            id: nid(11),
            kind: ExpressionKind::Scope(Scope { id: nid(11), body: vec![nid(12)], unsafe_: false, location: Location::empty() }),
            location: Location::empty(),
        }),
    );
    hir.insert_node(nid(12), Node::Statement(Statement::expression(nid(12), nid(13), Location::empty())));
    hir.insert_node(nid(13), literal(13));
    hir.insert_node(nid(22), literal(22));
    hir.insert_node(nid(21), Node::Field(field()));
    hir.insert_node(
        nid(20),
        Node::Type(TypeDefinition::Struct(Box::new(StructDefinition {
            id: nid(20),
            doc_comment: None,
            attrs: vec![],
            name: Path::rooted(PathSegment::ty(Identifier::from_str("S"))),
            visibility: Visibility::Public,
            fields: vec![field()],
            type_parameters: vec![],
            location: Location::empty(),
        }))),
    );
    hir.insert_node(
        nid(32),
        Node::Statement(Statement {
            id: nid(32),
            kind: StatementKind::Break(Break { id: nid(32), location: Location::empty() }),
            location: Location::empty(),
        }),
    );
    hir.insert_node(nid(31), Node::Method(method()));
    hir.insert_node(
        nid(30),
        Node::Impl(Implementation {
            id: nid(30),
            attrs: vec![],
            target: Box::new(ty("S", 903)),
            methods: vec![method()],
            type_parameters: vec![],
            location: Location::empty(),
        }),
    );
    hir.insert_node(
        nid(40),
        Node::TypeVariable(TypeVariable {
            id: nid(40),
            location: Location::empty(),
            binding: TypeId(nid(5)),
            canonical: TypeId(nid(41)),
        }),
    );
    let other = NodeId::new(PackageId(2), 7);
    hir.insert_node(other, Node::Expression(Expression::lit_bool(other, true)));
    hir
}

fn ctx() -> TyInferCtx {
    let mut ctx = TyInferCtx::new(sample_map());
    ctx.define_scopes();
    ctx
}

fn pairs(links: &[ScopeLink]) -> Vec<(u64, u64, bool)> {
    links.iter().map(|l| (l.child.index, l.parent.index, l.checked)).collect()
}

#[test]
fn descent_links_every_node_to_its_parent() {
    let hir = sample_map();
    let links = scope_links(&hir);
    assert_eq!(
        pairs(&links),
        vec![
            (5, 1, false),
            (6, 1, false),
            (10, 1, true),
            (11, 10, true),
            (12, 11, true),
            (13, 12, true),
            (21, 20, true),
            (22, 21, true),
            (31, 30, true),
            (32, 31, true),
        ]
    );
}

#[test]
fn parents_follow_the_descent() {
    let ctx = ctx();
    assert_eq!(ctx.hir_parent_of(nid(13)), Some(nid(12)));
    assert_eq!(ctx.hir_parent_of(nid(10)), Some(nid(1)));
    assert_eq!(ctx.hir_parent_of(nid(22)), Some(nid(21)));
    assert_eq!(ctx.hir_parent_of(nid(1)), None);
    assert_eq!(ctx.hir_parent_of(nid(99)), None);
    assert_eq!(ctx.hir_parent_node_of(nid(11)).map(|n| n.id()), Some(nid(10)));
    assert!(ctx.hir_parent_node_of(nid(1)).is_none());
}

#[test]
fn ancestors_are_listed_nearest_first() {
    let ctx = ctx();
    let chain: Vec<u64> = ctx.hir_parent_id_iter(nid(13)).iter().map(|id| id.index).collect();
    assert_eq!(chain, vec![13, 12, 11, 10, 1]);
    let nodes: Vec<u64> = ctx.hir_parent_iter(nid(13)).iter().map(|n| n.id().index).collect();
    assert_eq!(nodes, vec![13, 12, 11, 10, 1]);
    let unknown: Vec<u64> = ctx.hir_parent_id_iter(nid(99)).iter().map(|id| id.index).collect();
    assert_eq!(unknown, vec![99]);
    assert!(ctx.hir_parent_iter(nid(99)).is_empty());
}

#[test]
fn enclosing_callables() {
    let ctx = ctx();
    assert_eq!(ctx.hir_parent_callable(nid(13)), Some(CallReference::Function(nid(1))));
    assert_eq!(ctx.hir_parent_callable(nid(32)), Some(CallReference::Function(nid(31))));
    assert_eq!(ctx.hir_parent_callable(nid(22)), None);
    assert_eq!(CallReference::Method(nid(3)).id(), nid(3));
}

#[test]
fn const_blocks() {
    let ctx = ctx();
    assert_eq!(ctx.hir_constness_of(nid(1)), Some(Constness::Const));
    assert_eq!(ctx.hir_constness_of(nid(31)), None);
    assert!(ctx.hir_in_const_block(nid(13)));
    assert!(ctx.hir_in_const_block(nid(1)));
    assert!(!ctx.hir_in_const_block(nid(32)));
    assert!(!ctx.hir_in_const_block(nid(22)));
}

#[test]
fn bodies_and_external_callables() {
    let ctx = ctx();
    assert_eq!(ctx.hir_body_of_node(nid(1)).map(|b| b.statements.len()), Some(1));
    assert_eq!(ctx.hir_body_of_node(nid(31)).map(|b| b.id), Some(nid(35)));
    assert!(ctx.hir_body_of_node(nid(99)).is_none());
    assert!(!ctx.hir_is_callable_external(nid(1)));
    assert!(!ctx.hir_is_callable_external(nid(13)));

    let mut hir = HirMap::empty(PackageId(1));
    hir.insert_node(nid(1), Node::Function(foo(None)));
    let external = TyInferCtx::new(hir);
    assert!(external.hir_is_callable_external(nid(1)));
    assert!(external.hir_body_of_node(nid(1)).is_none());
}

#[test]
fn node_lookups() {
    let ctx = ctx();
    assert_eq!(ctx.hir_nodes().len(), 14);
    assert_eq!(ctx.hir_local_nodes().len(), 13);
    assert!(ctx.hir_is_local_node(nid(3)));
    assert!(!ctx.hir_is_local_node(NodeId::new(PackageId(2), 7)));
    assert_eq!(ctx.hir_span_of_node(nid(1)), Location { file: 0, start: 3, end: 40 });
    assert!(ctx.hir_stmt(nid(10)).is_some());
    assert!(ctx.hir_stmt(nid(11)).is_none());
    assert_eq!(ctx.hir_expect_stmt(nid(10)).id, nid(10));
    assert!(ctx.hir_expr(nid(11)).is_some());
    assert_eq!(ctx.hir_expect_expr(nid(13)).id, nid(13));
    assert!(ctx.hir_pat(nid(13)).is_none());
    assert!(ctx.hir_call_expr(nid(13)).is_none());
    assert!(ctx.hir_call_expr(nid(10)).is_none());
    assert_eq!(ctx.hir_field(nid(21)).map(|f| f.index), Some(0));
    assert!(ctx.hir_field(nid(20)).is_none());
    assert_eq!(ctx.hir_expect_field(nid(21)).default_value, Some(nid(22)));
    assert!(matches!(ctx.hir_expect_type(nid(20)), TypeDefinition::Struct(_)));
    assert_eq!(ctx.hir_expect_struct(nid(20)).fields.len(), 1);
    assert_eq!(ctx.hir_expect_type_parameter(nid(5)).name.as_str(), "T");
    assert_eq!(ctx.hir_expect_type_variable(nid(40)).canonical, TypeId(nid(41)));
    assert_eq!(ctx.hir_tyvar_binding_of(nid(40)), Some(TypeId(nid(5))));
    assert_eq!(ctx.hir_tyvar_canonical_of(nid(40)), Some(TypeId(nid(41))));
    assert_eq!(ctx.hir_tyvar_binding_of(nid(20)), None);
    assert_eq!(ctx.hir_expect_node(nid(30)).id(), nid(30));
    assert_eq!(ctx.hir().node_count(), 14);
}

#[test]
fn later_links_replace_earlier_parents() {
    let mut a = Ancestry::new();
    assert_eq!(a.insert(nid(2), nid(1)), None);
    assert_eq!(a.insert(nid(3), nid(1)), None);
    assert_eq!(a.insert(nid(2), nid(4)), Some(nid(1)));
    assert_eq!(a.parent_of(nid(2)), Some(nid(4)));
    assert_eq!(a.parent_of(nid(3)), Some(nid(1)));
    assert_eq!(a.parent_of(nid(4)), None);

    let links = vec![
        ScopeLink { child: nid(7), parent: nid(1), checked: false },
        ScopeLink { child: nid(8), parent: nid(7), checked: true },
        ScopeLink { child: nid(7), parent: nid(2), checked: false },
    ];
    let b = Ancestry::from_links(&links);
    assert_eq!(b.parent_of(nid(7)), Some(nid(2)));
    assert_eq!(b.parent_of(nid(8)), Some(nid(7)));
}

#[test]
fn visibility_queries() {
    let ctx = ctx();
    assert_eq!(ctx.visibility_of(nid(1)), Some(Visibility::Public));
    assert_eq!(ctx.visibility_of(nid(21)), Some(Visibility::Public));
    assert_eq!(ctx.visibility_of(nid(10)), None);
    assert_eq!(ctx.visibility_of(nid(99)), None);
    assert!(ctx.is_visible_outside_package(nid(20)));
    assert!(!ctx.is_visible_outside_package(nid(30)));
    assert!(!ctx.is_visible_outside_package(nid(99)));
}

fn pattern(id: u64, kind: PatternKind) -> Node {
    Node::Pattern(lume::hir::node::Pattern { id: nid(id), kind, location: Location::empty() })
}

fn switch_over(patterns: &[u64]) -> lume::hir::node::Switch {
    lume::hir::node::Switch {
        id: nid(60),
        operand: nid(13),
        cases: patterns
            .iter()
            .map(|p| lume::hir::node::SwitchCase { pattern: nid(*p), branch: nid(13), location: Location::empty() })
            .collect(),
        location: Location::empty(),
    }
}

#[test]
fn constant_switches() {
    let mut hir = sample_map();
    let one = match Expression::lit_int(nid(70), 1, lume::hir::node::IntKind::I32).kind {
        ExpressionKind::Literal(l) => l,
        _ => unreachable!(),
    };
    hir.insert_node(nid(50), pattern(50, PatternKind::Literal(LiteralPattern { literal: one, location: Location::empty() })));
    hir.insert_node(
        nid(51),
        pattern(51, PatternKind::Identifier(IdentifierPattern { name: Identifier::from_str("x"), location: Location::empty() })),
    );
    hir.insert_node(nid(52), pattern(52, PatternKind::Wildcard(WildcardPattern { location: Location::empty() })));
    let text = lume::hir::node::Literal {
        id: nid(71),
        kind: LiteralKind::String(StringLiteral { id: nid(71), value: "a".to_string() }),
        location: Location::empty(),
    };
    hir.insert_node(nid(53), pattern(53, PatternKind::Literal(LiteralPattern { literal: text, location: Location::empty() })));
    hir.insert_node(nid(54), pattern(54, PatternKind::Missing));
    let ctx = TyInferCtx::new(hir);
    assert!(ctx.is_switch_constant(&switch_over(&[50, 51, 52])));
    assert!(ctx.is_switch_constant(&switch_over(&[])));
    assert!(!ctx.is_switch_constant(&switch_over(&[50, 53])));
    assert!(!ctx.is_switch_constant(&switch_over(&[54, 99])));
}

#[test]
fn expressions_which_depend_on_a_declaration() {
    let mut hir = sample_map();
    hir.insert_node(nid(14), Node::Expression(Expression::variable(nid(14), Identifier::from_str("a"), nid(10), Location::empty())));
    hir.insert_node(nid(15), Node::Expression(Expression::variable(nid(15), Identifier::from_str("b"), nid(99), Location::empty())));
    let mut ctx = TyInferCtx::new(hir);
    ctx.define_scopes();
    let ids = |v: Vec<NodeId>| v.iter().map(|id| id.index).collect::<Vec<u64>>();
    assert_eq!(ids(ctx.indirect_expression_refs(nid(11))), vec![10, 14]);
    assert_eq!(ids(ctx.indirect_expression_refs(nid(13))), vec![12]);
    assert_eq!(ids(ctx.indirect_expression_refs(nid(1))), Vec::<u64>::new());
}

#[test]
fn callable_kinds() {
    let mut hir = sample_map();
    let mut with_self = method();
    with_self.id = nid(80);
    with_self.signature.parameters = vec![parameter(81, "self")];
    with_self.block = None;
    hir.insert_node(nid(80), Node::Method(with_self));
    let mut main = foo(None);
    main.id = nid(90);
    main.signature.name = Path::rooted(PathSegment::callable(Identifier::from_str("main")));
    hir.insert_node(nid(90), Node::Function(main));
    let mut nested = foo(None);
    nested.id = nid(91);
    nested.signature.name = Path::from_parts(
        Some(vec![PathSegment::namespace(Identifier::from_str("app"))]),
        PathSegment::callable(Identifier::from_str("main")),
    );
    hir.insert_node(nid(91), Node::Function(nested));
    let ctx = TyInferCtx::new(hir);

    assert_eq!(ctx.callref_with_id(nid(1)), Some(CallReference::Function(nid(1))));
    assert_eq!(ctx.callref_with_id(nid(31)), Some(CallReference::Method(nid(31))));
    assert_eq!(ctx.callref_with_id(nid(10)), None);
    assert!(ctx.is_instanced_method(nid(80)));
    assert!(!ctx.is_instanced_method(nid(31)));
    assert!(ctx.is_static_method(nid(31)));
    assert!(!ctx.is_instanced_method(nid(1)));
    assert!(ctx.is_entrypoint(nid(90)));
    assert!(!ctx.is_entrypoint(nid(91)));
    assert!(!ctx.is_entrypoint(nid(1)));
    assert!(!ctx.is_entrypoint(nid(31)));
}

#[test]
fn hir_can_be_changed() {
    let mut ctx = ctx();
    assert!(ctx.hir_node(nid(77)).is_none());
    ctx.hir_mut().insert_node(nid(77), literal(77));
    assert!(ctx.hir_node(nid(77)).is_some());
    assert_eq!(ctx.hir_parent_of(nid(13)), Some(nid(12)));
}

/// `fn g() { x = 5; let v = (y = 6); }` with the assignments as
/// expressions 100 and 200.
fn assignment_map() -> HirMap {
    let mut hir = HirMap::empty(PackageId(1));
    let mut g = foo(Some(Block { id: nid(2), statements: vec![nid(110), nid(210)], location: Location::empty() }));
    g.signature.type_parameters = vec![];
    g.signature.parameters = vec![];
    hir.insert_node(nid(1), Node::Function(g));
    hir.insert_node(nid(110), Node::Statement(Statement::expression(nid(110), nid(100), Location::empty())));
    hir.insert_node(nid(210), Node::Statement(Statement::define_variable(nid(210), Identifier::from_str("v"), nid(200), Location::empty())));
    for (a, t, v) in [(100u64, 101u64, 102u64), (200, 201, 202)] {
        hir.insert_node(
            nid(a),
            Node::Expression(Expression {
                id: nid(a),
                kind: ExpressionKind::Assignment(Assignment { id: nid(a), target: nid(t), value: nid(v), location: Location::empty() }),
                location: Location::empty(),
            }),
        );
        hir.insert_node(nid(t), literal(t));
        hir.insert_node(nid(v), literal(v));
    }
    hir
}

#[test]
fn values_which_are_used() {
    let ctx = ctx();
    assert!(ctx.is_value_expected(nid(11)));
    assert!(!ctx.is_value_expected(nid(13)));
    assert!(ctx.is_value_expected(nid(22)));
    assert!(!ctx.is_value_expected(nid(1)));

    let mut assigned = TyInferCtx::new(assignment_map());
    assigned.define_scopes();
    assert_eq!(assigned.hir_parent_of(nid(101)), Some(nid(100)));
    assert!(!assigned.is_value_expected(nid(101)));
    assert!(!assigned.is_value_expected(nid(102)));
    assert!(!assigned.is_value_expected(nid(100)));
    assert!(assigned.is_value_expected(nid(201)));
    assert!(!assigned.is_value_expected(nid(202)));
    assert!(assigned.is_value_expected(nid(200)));
}

#[test]
fn assignable_expressions() {
    let mut hir = sample_map();
    hir.insert_node(nid(14), Node::Expression(Expression::variable(nid(14), Identifier::from_str("a"), nid(10), Location::empty())));
    for (id, place) in [(15u64, Place::LValue), (16, Place::RValue)] {
        hir.insert_node(
            nid(id),
            Node::Expression(Expression {
                id: nid(id),
                kind: ExpressionKind::Deref(DerefExpr { id: nid(id), target: nid(14), place, location: Location::empty() }),
                location: Location::empty(),
            }),
        );
    }
    let ctx = TyInferCtx::new(hir);
    assert!(ctx.can_assign_value(nid(14)));
    assert!(ctx.can_assign_value(nid(15)));
    assert!(!ctx.can_assign_value(nid(16)));
    assert!(!ctx.can_assign_value(nid(13)));
    assert!(!ctx.can_assign_value(nid(11)));
}
