use std::ops::ControlFlow;

use lume::hir::matcher::{
    find_first_match, find_matches, find_matches_in, function, Bind, BindType, Bindings, HasBody, HasDocumentation, HasName,
    HasNodeId, HasVisibility, MatchCallback, Predicate, PredicateBindExt, Results,
};
use lume::hir::node::{
    Block, Constness, Expression, FnFlags, FnSignature, FunctionDefinition, Node, Pattern, Statement, Visibility,
};
use lume::hir::path::{Identifier, Path, PathSegment, Type, TypeId};
use lume::hir::location::WithLocation;
use lume::hir::visitor::{traverse, traverse_node, Visit, Visitor};
use lume::hir::walk::{walk_map, walk_node, VisitItem};
use lume::map::HirMap;
use lume::span::{Location, NodeId, PackageId};

fn nid(i: u64) -> NodeId {
    NodeId::new(PackageId(1), i)
}

fn ty(name: &str, i: u64) -> Type {
    Type {
        id: TypeId(nid(i)),
        name: Path::rooted(PathSegment::ty(Identifier::from_str(name))),
        self_type: false,
        location: Location::empty(),
    }
}

fn main_function() -> FunctionDefinition {
    FunctionDefinition {
        id: nid(1),
        doc_comment: Some("Entry point.".to_string()),
        attrs: vec![],
        visibility: Visibility::Public,
        constness: Constness::NotConst,
        signature: FnSignature {
            flags: FnFlags { unsafe_: false },
            name: Path::rooted(PathSegment::callable(Identifier::from_str("main"))),
            parameters: vec![],
            type_parameters: vec![],
            return_type: ty("Void", 100),
            location: Location::empty(),
        },
        block: Some(Block { id: nid(2), statements: vec![nid(3)], location: Location::empty() }),
        location: Location::empty(),
    }
}

fn sample_map() -> HirMap {
    let mut hir = HirMap::empty(PackageId(1));
    hir.insert_node(nid(1), Node::Function(main_function()));
    hir.insert_node(
        nid(3),
        Node::Statement(Statement::define_variable(nid(3), Identifier::from_str("x"), nid(4), Location::empty())),
    );
    hir.insert_node(nid(4), Node::Expression(Expression::lit_bool(nid(4), true)));
    hir
}

fn describe(item: &VisitItem) -> String {
    match item {
        VisitItem::Node(n) => format!("node {}", n.id().index),
        VisitItem::Type(_) => "type".to_string(),
        VisitItem::Statement(s) => format!("stmt {}", s.id.index),
        VisitItem::Expression(e) => format!("expr {}", e.id.index),
        VisitItem::Pattern(_) => "pattern".to_string(),
        VisitItem::Path(_) => "path".to_string(),
        VisitItem::Identifier(i) => format!("ident {}", i.name),
    }
}

#[test]
fn map_lookups_after_insert() {
    let mut hir = sample_map();
    assert!(hir.node(nid(1)).is_some());
    assert!(hir.statement(nid(3)).is_some());
    assert!(hir.expression(nid(3)).is_none());
    assert!(hir.expression(nid(4)).is_some());
    assert!(hir.node(nid(9)).is_none());
    let old = hir.insert_node(nid(4), Node::Expression(Expression::lit_bool(nid(4), false)));
    assert!(old.is_some());
    assert_eq!(hir.node_count(), 3);
    assert_eq!(hir.statements().len(), 1);
    assert_eq!(hir.expressions().len(), 1);
}

#[test]
fn merge_into_prefers_the_merged_nodes() {
    let source = sample_map();
    let mut target = HirMap::empty(PackageId(2));
    target.insert_node(nid(4), Node::Expression(Expression::lit_bool(nid(4), false)));
    target.insert_node(nid(8), Node::Expression(Expression::lit_bool(nid(8), false)));
    source.merge_into(&mut target);
    assert_eq!(target.node_count(), 4);
    assert!(target.node(nid(8)).is_some());
    match target.expression(nid(4)).map(|e| &e.kind) {
        Some(lume::hir::node::ExpressionKind::Literal(l)) => {
            assert!(matches!(l.kind, lume::hir::node::LiteralKind::Boolean(ref b) if b.value))
        }
        _ => panic!("expected the merged literal"),
    }
}

#[test]
fn walk_visits_items_in_pre_order() {
    let hir = sample_map();
    let function = hir.node(nid(1)).unwrap();
    let items: Vec<String> = walk_node(&hir, function).iter().map(describe).collect();
    assert_eq!(
        items,
        vec![
            "node 1", "path", "ident main", "type", "path", "ident Void", "stmt 3", "ident x", "expr 4",
        ]
    );
    let all = walk_map(&hir);
    assert_eq!(all.len(), 9 + 4 + 2);
}

#[derive(Default)]
struct Counter {
    nodes: usize,
    statements: usize,
    expressions: usize,
    identifiers: Vec<String>,
}

impl Visitor for Counter {
    type Break = String;

    fn visit_node(&mut self, _node: &Node) -> ControlFlow<String> {
        self.nodes += 1;
        ControlFlow::Continue(())
    }

    fn visit_stmt(&mut self, _stmt: &Statement) -> ControlFlow<String> {
        self.statements += 1;
        ControlFlow::Continue(())
    }

    fn visit_expr(&mut self, _expr: &Expression) -> ControlFlow<String> {
        self.expressions += 1;
        ControlFlow::Continue(())
    }

    fn visit_identifier(&mut self, ident: &Identifier) -> ControlFlow<String> {
        self.identifiers.push(ident.name.clone());
        if ident.name == "stop" {
            return ControlFlow::Break(ident.name.clone());
        }
        ControlFlow::Continue(())
    }
    fn visit_type(&mut self, _ty: &Type) -> ControlFlow<String> {
        ControlFlow::Continue(())
    }

    fn visit_pattern(&mut self, _pattern: &Pattern) -> ControlFlow<String> {
        ControlFlow::Continue(())
    }

    fn visit_path(&mut self, _path: &Path) -> ControlFlow<String> {
        ControlFlow::Continue(())
    }
}

#[test]
fn traverse_shows_every_node_of_the_map() {
    let hir = sample_map();
    let mut counter = Counter::default();
    assert_eq!(traverse(&hir, &mut counter), ControlFlow::Continue(()));
    assert_eq!(counter.nodes, 3);
    assert_eq!(counter.statements, 2);
    assert_eq!(counter.expressions, 3);
    assert_eq!(counter.identifiers, vec!["main", "Void", "x", "x"]);
}

#[test]
fn traverse_stops_at_the_first_break() {
    let mut hir = HirMap::empty(PackageId(1));
    hir.insert_node(
        nid(3),
        Node::Statement(Statement::define_variable(nid(3), Identifier::from_str("stop"), nid(4), Location::empty())),
    );
    hir.insert_node(nid(4), Node::Expression(Expression::lit_bool(nid(4), true)));
    let stmt = hir.node(nid(3)).unwrap();
    let mut counter = Counter::default();
    assert_eq!(traverse_node(&hir, &mut counter, stmt), ControlFlow::Break("stop".to_string()));
    assert_eq!(counter.expressions, 0);
}

struct IsFunction;

impl Predicate<Node> for IsFunction {
    fn satisfies(&self, _hir: &HirMap, subject: &Node, _bindings: &mut Bindings) -> bool {
        matches!(subject, Node::Function(_))
    }
}

struct AnyType;

impl Predicate<Type> for AnyType {
    fn satisfies(&self, _hir: &HirMap, _subject: &Type, _bindings: &mut Bindings) -> bool {
        true
    }
}

#[test]
fn bind_records_matched_nodes() {
    let hir = sample_map();
    let bind = Bind::new(IsFunction, "func");
    let mut bindings = Bindings::new();
    assert!(bind.satisfies(&hir, hir.node(nid(1)).unwrap(), &mut bindings));
    assert_eq!(bindings.bound_node("func"), Some(nid(1)));
    let mut other = Bindings::new();
    assert!(!bind.satisfies(&hir, hir.node(nid(3)).unwrap(), &mut other));
    assert_eq!(other.bound_node("func"), None);

    let bind_type = BindType::new(AnyType, "ty");
    let t = ty("Int32", 50);
    assert!(bind_type.satisfies(&hir, &t, &mut bindings));
    assert_eq!(bindings.bound_type("ty"), Some(TypeId(nid(50))));
    assert_eq!(bindings.bound_type("func"), None);
}

#[test]
fn later_bindings_replace_earlier_ones() {
    let mut bindings = Bindings::new();
    bindings.bind_node("a", nid(1));
    bindings.bind_node("b", nid(2));
    bindings.bind_node("a", nid(3));
    assert_eq!(bindings.bound_node("a"), Some(nid(3)));
    assert_eq!(bindings.bound_node("b"), Some(nid(2)));
    assert_eq!(bindings.bound_node("c"), None);
}

#[test]
fn item_accessors() {
    let f = main_function();
    assert_eq!(f.node_id(), nid(1));
    assert_eq!(HasName::name(&f), "main");
    assert_eq!(f.docs().map(|d| d.as_str()), Some("Entry point."));
    assert_eq!(HasVisibility::visibility(&f), Visibility::Public);
    assert_eq!(f.body().map(|b| b.statements.len()), Some(1));
    let node = Node::Function(f);
    assert_eq!(node.node_id(), nid(1));
}

fn function_named(name: &str, i: u64) -> FunctionDefinition {
    let mut f = main_function();
    f.id = nid(i);
    f.signature.name = Path::rooted(PathSegment::callable(Identifier::from_str(name)));
    f.block = None;
    f
}

fn functions(names: &[&str]) -> HirMap {
    let mut hir = HirMap::empty(PackageId(1));
    for (k, name) in names.iter().enumerate() {
        let i = 10 + k as u64;
        hir.insert_node(nid(i), Node::Function(function_named(name, i)));
    }
    hir
}

struct CollectNames {
    names: Vec<String>,
    stop_after: usize,
}

impl MatchCallback for CollectNames {
    fn on_match(&mut self, results: &Results) -> ControlFlow<()> {
        match results.bound_node("func") {
            Some(Node::Function(f)) => self.names.push(f.path().to_string()),
            _ => panic!("expected a bound function"),
        }
        if self.names.len() >= self.stop_after {
            ControlFlow::Break(())
        } else {
            ControlFlow::Continue(())
        }
    }
}

#[test]
fn match_all_items_in_root() {
    let hir = functions(&["foo", "bar", "baz"]);
    let mut callback = CollectNames { names: vec![], stop_after: usize::MAX };
    find_matches(&hir, &function(vec![]).bind("func"), &mut callback);
    assert_eq!(callback.names, vec!["foo", "bar", "baz"]);
}

#[test]
fn match_breaks_with_returned_flow() {
    let hir = functions(&["foo", "bar"]);
    let mut callback = CollectNames { names: vec![], stop_after: 1 };
    find_matches(&hir, &function(vec![]).bind("func"), &mut callback);
    assert_eq!(callback.names.len(), 1);
}

#[test]
fn match_with_outside_state() {
    let hir = functions(&["foo", "bar"]);
    let mut callback = CollectNames { names: vec![], stop_after: usize::MAX };
    find_matches(&hir, &function(vec![]).bind("func"), &mut callback);
    assert_eq!(callback.names, vec!["foo", "bar"]);
}

#[test]
fn first_match_stops_after_one() {
    let hir = functions(&["foo", "bar", "baz"]);
    let mut first = CollectNames { names: vec![], stop_after: usize::MAX };
    find_first_match(&hir, &Bind::new(IsFunction, "func"), &mut first);
    assert_eq!(first.names, vec!["foo"]);
}

#[test]
fn match_inside_one_node() {
    let hir = functions(&["foo", "bar", "baz"]);
    let mut callback = CollectNames { names: vec![], stop_after: usize::MAX };
    find_matches_in(&hir, &Bind::new(IsFunction, "func"), &mut callback, hir.node(nid(11)).unwrap());
    assert_eq!(callback.names, vec!["bar"]);
}

#[test]
fn visit_goes_through_an_item() {
    let hir = sample_map();
    let function = hir.node(nid(1)).unwrap();
    let mut counter = Counter::default();
    assert_eq!(Visit::visit(function, &hir, &mut counter), ControlFlow::Continue(()));
    assert_eq!(counter.nodes, 1);
    assert_eq!(counter.statements, 1);
    assert_eq!(counter.expressions, 1);

    let mut idents = Counter::default();
    let stop = Identifier::from_str("stop");
    assert_eq!(Visit::visit(&stop, &hir, &mut idents), ControlFlow::Break("stop".to_string()));
    assert_eq!(idents.identifiers, vec!["stop"]);
}

#[test]
fn items_carry_their_location() {
    let mut f = main_function();
    f.location = Location { file: 2, start: 5, end: 9 };
    assert_eq!(WithLocation::location(&f), Location { file: 2, start: 5, end: 9 });
    let t = ty("Int32", 50);
    assert_eq!(WithLocation::location(&t), Location::empty());
    assert_eq!(TypeId(nid(7)).as_node_id(), nid(7));
    assert_eq!(sample_map().nodes().len(), 3);
}

#[test]
fn traverse_node_ignores_what_it_does_not_reach() {
    let mut hir = sample_map();
    // A statement elsewhere in the map whose value is stored nowhere.
    hir.insert_node(
        nid(7),
        Node::Statement(Statement::define_variable(nid(7), Identifier::from_str("y"), nid(8), Location::empty())),
    );
    let main = hir.node(nid(1)).unwrap();
    let mut counter = Counter::default();
    assert_eq!(traverse_node(&hir, &mut counter, main), ControlFlow::Continue(()));
    assert_eq!(counter.nodes, 1);
    assert_eq!(counter.statements, 1);
    assert_eq!(counter.expressions, 1);
}
