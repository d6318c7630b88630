use lume::hir::node::{
    AttrArgument, Attribute, Block, ExpressionKind, IntrinsicKind, Literal, LiteralKind, Node, StatementKind,
    StringLiteral, VariableSource,
};
use lume::hir::path::{Identifier, Path, PathSegment};
use lume::lang::LangItem;
use lume::hir::node::{Constness, Visibility};
use lume::lower::{
    boolean_literal_value, constness, documentation, int_literal_value, string_literal_value, visibility, BinaryOp,
    LoweringContext, LoweringError, PostfixOp, UnaryOp,
};
use lume::span::{Location, NodeId, PackageId};

fn loc(start: usize) -> Location {
    Location { file: 2, start, end: start + 1 }
}

fn id(i: u64) -> NodeId {
    NodeId::new(PackageId(9), i)
}

fn intrinsic_of(ctx: &LoweringContext, n: NodeId) -> IntrinsicKind {
    match ctx.map().node(n) {
        Some(Node::Expression(e)) => match &e.kind {
            ExpressionKind::IntrinsicCall(c) => {
                assert!(c.bound_types.is_empty());
                c.kind
            }
            _ => panic!("expected an intrinsic call"),
        },
        _ => panic!("expected an expression"),
    }
}

#[test]
fn identifiers_are_handed_out_in_order() {
    let mut ctx = LoweringContext::new(PackageId(9));
    assert_eq!(ctx.next_node_id(), id(0x101));
    assert_eq!(ctx.next_node_id(), id(0x102));
    assert_eq!(ctx.map().node_count(), 0);
}

#[test]
fn binary_operators_lower_to_intrinsics() {
    let mut ctx = LoweringContext::new(PackageId(9));
    let e = ctx.next_node_id();
    let lhs = ctx.missing_expr(None);
    let rhs = ctx.missing_expr(None);
    assert_eq!(ctx.expr_bin(e, BinaryOp::LessEqual, lhs, rhs, loc(3)), e);
    assert_eq!(intrinsic_of(&ctx, e), IntrinsicKind::LessEqual { lhs, rhs });
    let u = ctx.next_node_id();
    ctx.expr_unary(u, UnaryOp::Not, e, loc(0));
    assert_eq!(intrinsic_of(&ctx, u), IntrinsicKind::Not { target: e });
    assert_eq!(ctx.map().node_count(), 4);
}

#[test]
fn increment_lowers_to_an_assignment_of_a_sum() {
    let mut ctx = LoweringContext::new(PackageId(9));
    let e = ctx.next_node_id();
    let dst = ctx.missing_expr(None);
    let src = ctx.missing_expr(None);
    ctx.expr_postfix(e, PostfixOp::Increment, dst, src, loc(5));
    let one = id(0x104);
    let sum = id(0x105);
    match ctx.map().node(one) {
        Some(Node::Expression(x)) => {
            assert!(matches!(&x.kind, ExpressionKind::Literal(Literal { kind: LiteralKind::Int(i), .. }) if i.value == 1))
        }
        _ => panic!("expected the literal one"),
    }
    assert_eq!(intrinsic_of(&ctx, sum), IntrinsicKind::Add { lhs: src, rhs: one });
    match ctx.map().node(e) {
        Some(Node::Expression(x)) => match &x.kind {
            ExpressionKind::Assignment(a) => {
                assert_eq!(a.target, dst);
                assert_eq!(a.value, sum);
            }
            _ => panic!("expected an assignment"),
        },
        _ => panic!("expected an expression"),
    }

    let d = ctx.next_node_id();
    ctx.expr_postfix(d, PostfixOp::Decrement, dst, src, loc(6));
    assert_eq!(intrinsic_of(&ctx, id(0x108)), IntrinsicKind::Sub { lhs: src, rhs: id(0x107) });
}

#[test]
fn statements_take_the_location_of_their_expression() {
    let mut ctx = LoweringContext::new(PackageId(9));
    let call = ctx.alloc_static_call(
        Path::rooted(PathSegment::callable(Identifier::from_str("f"))),
        vec![],
        loc(10),
    );
    let stmt = ctx.alloc_final_stmt(call);
    match ctx.map().statement(stmt) {
        Some(s) => {
            assert_eq!(s.location, loc(10));
            assert!(matches!(s.kind, StatementKind::Final(ref f) if f.value == call));
        }
        None => panic!("expected a statement"),
    }
    let other = ctx.alloc_expr_stmt(call);
    assert!(matches!(ctx.map().statement(other).map(|s| &s.kind), Some(StatementKind::Expression(x)) if *x == call));
    let brk = ctx.alloc_break(loc(11));
    let block = Block { id: id(0x200), statements: vec![brk], location: loc(12) };
    let lp = ctx.alloc_infinite_loop(block, loc(12));
    assert!(ctx.map().statement(lp).unwrap().is_loop());
}

fn attr(name: &str, args: Vec<AttrArgument>) -> Attribute {
    Attribute { name: Identifier::from_str(name), arguments: args, location: loc(1) }
}

fn string_arg(name: &str, value: &str) -> AttrArgument {
    AttrArgument {
        name: Identifier::from_str(name),
        value: Literal {
            id: id(1),
            kind: LiteralKind::String(StringLiteral { id: id(1), value: value.to_string() }),
            location: loc(2),
        },
        location: loc(2),
    }
}

#[test]
fn lang_item_attributes_define_the_current_item() {
    let mut ctx = LoweringContext::new(PackageId(9));
    let item = ctx.next_node_id();
    let kept = ctx.attributes(vec![
        attr("lang_item", vec![string_arg("name", "array")]),
        attr("external", vec![]),
        attr("intrinsic", vec![]),
    ]);
    assert_eq!(kept.len(), 2);
    assert_eq!(kept[0].name.name, "external");
    assert_eq!(ctx.map().lang_items.get(LangItem::Array), Some(item));
    assert!(ctx.errors().is_empty());
}

#[test]
fn attribute_problems_are_recorded() {
    let mut ctx = LoweringContext::new(PackageId(9));
    let item = ctx.next_node_id();
    let bool_arg = AttrArgument {
        name: Identifier::from_str("name"),
        value: Literal { id: id(1), kind: LiteralKind::Boolean(lume::hir::node::BooleanLiteral { id: id(1), value: true }), location: loc(7) },
        location: loc(7),
    };
    let kept = ctx.attributes(vec![
        attr("lang_item", vec![]),
        attr("lang_item", vec![bool_arg]),
        attr("lang_item", vec![string_arg("name", "nothing")]),
        attr("lang_item", vec![string_arg("name", "never")]),
        attr("lang_item", vec![string_arg("name", "never")]),
        attr("inline", vec![]),
    ]);
    assert!(kept.is_empty());
    let errors = ctx.errors();
    assert_eq!(errors.len(), 5);
    assert!(matches!(errors[0], LoweringError::LangItemMissingName { location } if location == loc(1)));
    assert!(matches!(errors[1], LoweringError::LangItemInvalidNameType { location } if location == loc(7)));
    assert!(matches!(errors[2], LoweringError::UnknownLangItem { ref name } if name == "nothing"));
    assert!(matches!(
        errors[3],
        LoweringError::DuplicateLangItem { item: LangItem::Never, existing, replaced_with } if existing == item && replaced_with == item
    ));
    assert!(matches!(errors[4], LoweringError::UnknownAttribute { location } if location == loc(1)));
}

#[test]
fn duplicates_point_at_the_last_earlier_name() {
    let names: Vec<String> = ["T", "U", "T", "V", "T", "U"].iter().map(|s| s.to_string()).collect();
    assert_eq!(lume::lower::ensure_unique_series(&names), vec![(2, 0), (4, 2), (5, 1)]);
    assert!(lume::lower::ensure_unique_series(&vec!["A".to_string(), "B".to_string()]).is_empty());
}

#[test]
fn doc_comments_become_documentation() {
    let docs = vec!["/// First line.".to_string(), "/// /// Second.".to_string(), "no marker".to_string()];
    assert_eq!(documentation(&docs), Some("First line.\nSecond.\nno marker".to_string()));
    assert_eq!(documentation(&vec![]), None);
    assert_eq!(documentation(&vec!["/// ".to_string()]), None);
    assert_eq!(documentation(&vec!["/// ".to_string(), "/// ".to_string()]), Some("\n".to_string()));
}

#[test]
fn modifiers_give_visibility_and_constness() {
    assert_eq!(visibility(None), Visibility::Private);
    assert_eq!(visibility(Some((true, false))), Visibility::Public);
    assert_eq!(visibility(Some((true, true))), Visibility::Internal);
    assert_eq!(visibility(Some((false, true))), Visibility::Private);
    assert_eq!(constness(true), Constness::Const);
    assert_eq!(constness(false), Constness::NotConst);
}

#[test]
fn literal_values() {
    assert_eq!(string_literal_value("\"hello!\""), "hello!");
    assert_eq!(string_literal_value("\"\"x\"\""), "x");
    assert_eq!(string_literal_value("\"\""), "");
    assert!(boolean_literal_value("true"));
    assert!(!boolean_literal_value("false"));
    assert_eq!(int_literal_value("16", 10), Some(16));
    assert_eq!(int_literal_value("1_000_000", 10), Some(1_000_000));
    assert_eq!(int_literal_value("ff", 16), Some(255));
    assert_eq!(int_literal_value("FF", 16), Some(255));
    assert_eq!(int_literal_value("-101", 2), Some(-5));
    assert_eq!(int_literal_value("+7", 8), Some(7));
    assert_eq!(int_literal_value("8", 8), None);
    assert_eq!(int_literal_value("", 10), None);
    assert_eq!(int_literal_value("-", 10), None);
    assert_eq!(int_literal_value("170141183460469231731687303715884105727", 10), Some(i128::MAX));
    assert_eq!(int_literal_value("170141183460469231731687303715884105728", 10), None);
    assert_eq!(int_literal_value("-170141183460469231731687303715884105728", 10), Some(i128::MIN));
    assert_eq!(int_literal_value("-170141183460469231731687303715884105729", 10), None);
}

fn array_new_path() -> Path {
    Path::new(
        vec![PathSegment::namespace(Identifier::from_str("std"))],
        PathSegment::callable(Identifier::from_str("new")),
    )
}

fn is_array_ref(ctx: &LoweringContext, n: NodeId, decl: NodeId) {
    match ctx.map().node(n) {
        Some(Node::Expression(e)) => match &e.kind {
            ExpressionKind::Variable(v) => {
                assert_eq!(v.name.as_str(), "!array");
                assert_eq!(v.reference, VariableSource::Variable(decl));
            }
            _ => panic!("expected a variable reference"),
        },
        _ => panic!("expected an expression"),
    }
}

#[test]
fn array_literal_gathers_its_elements_in_a_block() {
    let mut ctx = LoweringContext::new(PackageId(9));
    let a = ctx.missing_expr(None);
    let b = ctx.missing_expr(None);
    let c = ctx.next_node_id().index;
    let r = ctx.expr_array(array_new_path(), vec![a, b], loc(4));
    assert_eq!(r, id(c + 11));
    assert_eq!(ctx.next_node_id(), id(c + 13));
    match ctx.map().node(id(c + 1)) {
        Some(Node::Expression(e)) => match &e.kind {
            ExpressionKind::StaticCall(call) => {
                assert_eq!(call.name.name().as_str(), "new");
                assert!(call.arguments.is_empty());
            }
            _ => panic!("expected a static call"),
        },
        _ => panic!("expected an expression"),
    }
    match ctx.map().node(id(c + 2)) {
        Some(Node::Statement(st)) => match &st.kind {
            StatementKind::Variable(d) => {
                assert_eq!(d.name.as_str(), "!array");
                assert_eq!(d.value, id(c + 1));
                assert!(d.declared_type.is_none());
            }
            _ => panic!("expected a declaration"),
        },
        _ => panic!("expected a statement"),
    }
    for (j, item) in [a, b].into_iter().enumerate() {
        let base = c + 3 + 3 * j as u64;
        is_array_ref(&ctx, id(base), id(c + 2));
        match ctx.map().node(id(base + 1)) {
            Some(Node::Expression(e)) => match &e.kind {
                ExpressionKind::InstanceCall(call) => {
                    assert_eq!(call.callee, id(base));
                    assert_eq!(call.name.as_str(), "push");
                    assert_eq!(call.arguments, vec![item]);
                }
                _ => panic!("expected a method call"),
            },
            _ => panic!("expected an expression"),
        }
        match ctx.map().node(id(base + 2)) {
            Some(Node::Statement(st)) => assert!(matches!(st.kind, StatementKind::Expression(x) if x == id(base + 1))),
            _ => panic!("expected a statement"),
        }
    }
    is_array_ref(&ctx, id(c + 9), id(c + 2));
    match ctx.map().node(id(c + 10)) {
        Some(Node::Statement(st)) => match &st.kind {
            StatementKind::Final(f) => assert_eq!(f.value, id(c + 9)),
            _ => panic!("expected a final statement"),
        },
        _ => panic!("expected a statement"),
    }
    match ctx.map().node(r) {
        Some(Node::Expression(e)) => match &e.kind {
            ExpressionKind::Scope(scope) => {
                assert_eq!(scope.id, id(c + 12));
                assert_eq!(scope.body, vec![id(c + 2), id(c + 5), id(c + 8), id(c + 10)]);
                assert!(!scope.unsafe_);
                assert_eq!(e.location, loc(4));
            }
            _ => panic!("expected a scope"),
        },
        _ => panic!("expected an expression"),
    }
}

#[test]
fn empty_array_literal_yields_the_new_array() {
    let mut ctx = LoweringContext::new(PackageId(9));
    let r = ctx.expr_array(array_new_path(), vec![], loc(0));
    assert_eq!(r, id(0x105));
    match ctx.map().node(r) {
        Some(Node::Expression(e)) => match &e.kind {
            ExpressionKind::Scope(scope) => assert_eq!(scope.body, vec![id(0x102), id(0x104)]),
            _ => panic!("expected a scope"),
        },
        _ => panic!("expected an expression"),
    }
    assert_eq!(ctx.map().node_count(), 5);
}
