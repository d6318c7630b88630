//! Visitors over the HIR: a visitor is shown every item below a starting
//! point, in the order given by the walks of [`crate::hir::walk`].
use std::ops::ControlFlow;
use vstd::prelude::*;

use crate::hir::node::{Expression, FnSignature, Node, Pattern, Statement};
use crate::hir::path::{path_view, type_view, Identifier, Path, PathSegment, Type};
use crate::hir::walk::{
    acyclic, events_of, expr_walk, expr_walkable, map_walk, node_walk, node_walkable, path_events,
    pattern_walk, pattern_walkable, segment_events, sig_events, stmt_walk, stmt_walkable, type_events,
    type_params_events, type_params_ok, walk_expr, walk_map, walk_node, walk_path, walk_pattern,
    walk_segment, walk_signature, walk_stmt, walk_type, walk_type_params, VisitEvent, VisitItem,
};
use crate::map::HirMap;
use crate::span::NodeId;

verus! {

/// A visitor of the items of the HIR. Each method is shown one item;
/// returning [`ControlFlow::Break`] stops the traversal with that value.
pub trait Visitor: Sized {
    type Break;

    /// Whether being shown `event` may answer `flow` and leave the visitor
    /// as `after`. A visitor which says nothing of itself allows every
    /// answer.
    open spec fn shows(&self, event: VisitEvent, flow: ControlFlow<Self::Break>, after: Self) -> bool {
        true
    }

    fn visit_node(&mut self, node: &Node) -> (r: ControlFlow<Self::Break>)
        ensures
            old(self).shows(VisitEvent::Node(*node), r, *final(self)),
    ;

    fn visit_type(&mut self, ty: &Type) -> (r: ControlFlow<Self::Break>)
        ensures
            old(self).shows(VisitEvent::Type(type_view(*ty)), r, *final(self)),
    ;

    fn visit_stmt(&mut self, stmt: &Statement) -> (r: ControlFlow<Self::Break>)
        ensures
            old(self).shows(VisitEvent::Statement(*stmt), r, *final(self)),
    ;

    fn visit_expr(&mut self, expr: &Expression) -> (r: ControlFlow<Self::Break>)
        ensures
            old(self).shows(VisitEvent::Expression(*expr), r, *final(self)),
    ;

    fn visit_pattern(&mut self, pattern: &Pattern) -> (r: ControlFlow<Self::Break>)
        ensures
            old(self).shows(VisitEvent::Pattern(*pattern), r, *final(self)),
    ;

    fn visit_path(&mut self, path: &Path) -> (r: ControlFlow<Self::Break>)
        ensures
            old(self).shows(VisitEvent::Path(path_view(*path)), r, *final(self)),
    ;

    fn visit_identifier(&mut self, ident: &Identifier) -> (r: ControlFlow<Self::Break>)
        ensures
            old(self).shows(VisitEvent::Identifier(*ident), r, *final(self)),
    ;
}

/// Whether showing the items `events` to the visitor, in order until it
/// breaks, may answer `r` and take the visitor from `v0` to `v_fin`: the
/// first break is the answer; without one, the answer is to continue.
pub open spec fn visit_run<V: Visitor>(events: Seq<VisitEvent>, v0: V, r: ControlFlow<V::Break>, v_fin: V) -> bool
    decreases events.len(),
{
    if events.len() == 0 {
        r matches ControlFlow::Continue(_) && v_fin == v0
    } else {
        exists|flow: ControlFlow<V::Break>, v1: V|
            #[trigger] v0.shows(events[0], flow, v1) && match flow {
                ControlFlow::Break(_) => r == flow && v_fin == v1,
                ControlFlow::Continue(_) => visit_run(events.drop_first(), v1, r, v_fin),
            }
    }
}

/// Shows the items to the visitor, in order, until one of its methods
/// breaks; that break is returned.
pub fn visit_items<'a, V: Visitor>(visitor: &mut V, items: &Vec<VisitItem<'a>>) -> (r: ControlFlow<V::Break>)
    ensures
        items@.len() == 0 ==> r is Continue,
        visit_run(events_of(items@), *old(visitor), r, *final(visitor)),
{
    let ghost ev = events_of(items@);
    let ghost start = *visitor;
    let mut i: usize = 0;
    proof {
        assert(ev.skip(0) =~= ev);
    }
    while i < items.len()
        invariant
            i <= items@.len(),
            ev == events_of(items@),
            start == *old(visitor),
            forall|r: ControlFlow<V::Break>, vf: V|
                #[trigger] visit_run(ev.skip(i as int), *visitor, r, vf) ==> visit_run(ev, start, r, vf),
        decreases items.len() - i,
    {
        let ghost v0 = *visitor;
        let ghost rest = ev.skip(i as int);
        proof {
            assert(rest[0] == items@[i as int].event());
            assert(rest.drop_first() =~= ev.skip(i + 1));
        }
        let flow = match items[i] {
            VisitItem::Node(n) => visitor.visit_node(n),
            VisitItem::Type(t) => visitor.visit_type(t),
            VisitItem::Statement(s) => visitor.visit_stmt(s),
            VisitItem::Expression(e) => visitor.visit_expr(e),
            VisitItem::Pattern(p) => visitor.visit_pattern(p),
            VisitItem::Path(p) => visitor.visit_path(p),
            VisitItem::Identifier(x) => visitor.visit_identifier(x),
        };
        proof {
            assert(v0.shows(rest[0], flow, *visitor));
        }
        match flow {
            ControlFlow::Break(b) => {
                proof {
                    assert(visit_run(rest, v0, flow, *visitor));
                }
                return ControlFlow::Break(b);
            },
            ControlFlow::Continue(()) => {
                proof {
                    assert forall|r: ControlFlow<V::Break>, vf: V|
                        #[trigger] visit_run(ev.skip(i + 1), *visitor, r, vf) implies visit_run(ev, start, r, vf) by {
                        assert(visit_run(rest, v0, r, vf));
                    }
                }
            },
        }
        i = i + 1;
    }
    proof {
        assert(ev.skip(i as int).len() == 0);
        assert(visit_run(ev.skip(i as int), *visitor, ControlFlow::Continue(()), *visitor));
    }
    ControlFlow::Continue(())
}

/// Traverses all nodes of the map, in insertion order.
pub fn traverse<V: Visitor>(hir: &HirMap, visitor: &mut V) -> (r: ControlFlow<V::Break>)
    requires
        hir.well_formed(),
        acyclic(*hir),
    ensures
        visit_run(map_walk(*hir), *old(visitor), r, *final(visitor)),
{
    let items = walk_map(hir);
    visit_items(visitor, &items)
}

/// Traverses a node and everything below it.
pub fn traverse_node<V: Visitor>(hir: &HirMap, visitor: &mut V, node: &Node) -> (r: ControlFlow<V::Break>)
    requires
        node_walkable(*hir, *node),
    ensures
        visit_run(node_walk(*hir, *node), *old(visitor), r, *final(visitor)),
{
    let items = walk_node(hir, node);
    visit_items(visitor, &items)
}

/// Traverses a signature: its name, type parameters, parameters and
/// return type.
pub fn traverse_signature<V: Visitor>(hir: &HirMap, visitor: &mut V, signature: &FnSignature) -> (r: ControlFlow<V::Break>)
    requires
        type_params_ok(*hir, signature.type_parameters@),
    ensures
        visit_run(sig_events(*hir, *signature), *old(visitor), r, *final(visitor)),
{
    let mut items: Vec<VisitItem> = Vec::new();
    proof {
        assert(events_of(items@) =~= Seq::<VisitEvent>::empty());
    }
    walk_signature(hir, signature, &mut items);
    visit_items(visitor, &items)
}

/// Traverses the type parameters stored for `ids`; other nodes are skipped.
pub fn traverse_type_params<V: Visitor>(hir: &HirMap, visitor: &mut V, ids: &Vec<NodeId>) -> (r: ControlFlow<V::Break>)
    requires
        type_params_ok(*hir, ids@),
    ensures
        visit_run(type_params_events(*hir, ids@), *old(visitor), r, *final(visitor)),
{
    let mut items: Vec<VisitItem> = Vec::new();
    proof {
        assert(events_of(items@) =~= Seq::<VisitEvent>::empty());
    }
    walk_type_params(hir, ids, &mut items);
    visit_items(visitor, &items)
}

/// Traverses a statement and everything below it.
pub fn traverse_stmt<V: Visitor>(hir: &HirMap, visitor: &mut V, stmt: &Statement) -> (r: ControlFlow<V::Break>)
    requires
        stmt_walkable(*hir, *stmt),
    ensures
        visit_run(stmt_walk(*hir, *stmt), *old(visitor), r, *final(visitor)),
{
    let items = walk_stmt(hir, stmt);
    visit_items(visitor, &items)
}

/// Traverses an expression and everything below it.
pub fn traverse_expr<V: Visitor>(hir: &HirMap, visitor: &mut V, expr: &Expression) -> (r: ControlFlow<V::Break>)
    requires
        expr_walkable(*hir, *expr),
    ensures
        visit_run(expr_walk(*hir, *expr), *old(visitor), r, *final(visitor)),
{
    let items = walk_expr(hir, expr);
    visit_items(visitor, &items)
}

/// Traverses a pattern and everything below it.
pub fn traverse_pattern<V: Visitor>(hir: &HirMap, visitor: &mut V, pattern: &Pattern) -> (r: ControlFlow<V::Break>)
    requires
        pattern_walkable(*hir, *pattern),
    ensures
        visit_run(pattern_walk(*hir, *pattern), *old(visitor), r, *final(visitor)),
{
    let items = walk_pattern(hir, pattern);
    visit_items(visitor, &items)
}

/// Traverses a type: the type, then its path.
pub fn traverse_type<V: Visitor>(_hir: &HirMap, visitor: &mut V, ty: &Type) -> (r: ControlFlow<V::Break>)
    ensures
        visit_run(type_events(ty@), *old(visitor), r, *final(visitor)),
{
    let mut items: Vec<VisitItem> = Vec::new();
    proof {
        assert(events_of(items@) =~= Seq::<VisitEvent>::empty());
    }
    walk_type(ty, &mut items);
    visit_items(visitor, &items)
}

/// Traverses a path: the path, then the names and type arguments of its
/// segments.
pub fn traverse_path<V: Visitor>(_hir: &HirMap, visitor: &mut V, path: &Path) -> (r: ControlFlow<V::Break>)
    ensures
        visit_run(path_events(path@), *old(visitor), r, *final(visitor)),
{
    let mut items: Vec<VisitItem> = Vec::new();
    proof {
        assert(events_of(items@) =~= Seq::<VisitEvent>::empty());
    }
    walk_path(path, &mut items);
    visit_items(visitor, &items)
}

/// Traverses a path segment: its name, then its type arguments.
pub fn traverse_path_segment<V: Visitor>(_hir: &HirMap, visitor: &mut V, segment: &PathSegment) -> (r: ControlFlow<V::Break>)
    ensures
        visit_run(segment_events(segment@), *old(visitor), r, *final(visitor)),
{
    let mut items: Vec<VisitItem> = Vec::new();
    proof {
        assert(events_of(items@) =~= Seq::<VisitEvent>::empty());
    }
    walk_segment(segment, &mut items);
    visit_items(visitor, &items)
}

/// Items which a visitor can be taken through.
pub trait Visit {
    /// Whether the item can be traversed in `hir`: what it refers to is
    /// stored there, in an order in which a walk ends.
    spec fn visitable(&self, hir: HirMap) -> bool;

    /// The items of the walk of the item in `hir`, in order.
    spec fn walk_events(&self, hir: HirMap) -> Seq<VisitEvent>;

    /// Shows the item and everything below it to the visitor, in the order
    /// of its walk, until the visitor breaks.
    fn visit<V: Visitor>(&self, hir: &HirMap, visitor: &mut V) -> (r: ControlFlow<V::Break>)
        requires
            self.visitable(*hir),
        ensures
            visit_run(self.walk_events(*hir), *old(visitor), r, *final(visitor)),
    ;
}

impl Visit for Node {
    open spec fn visitable(&self, hir: HirMap) -> bool {
        node_walkable(hir, *self)
    }

    open spec fn walk_events(&self, hir: HirMap) -> Seq<VisitEvent> {
        node_walk(hir, *self)
    }

    fn visit<V: Visitor>(&self, hir: &HirMap, visitor: &mut V) -> (r: ControlFlow<V::Break>) {
        traverse_node(hir, visitor, self)
    }
}

impl Visit for Statement {
    open spec fn visitable(&self, hir: HirMap) -> bool {
        stmt_walkable(hir, *self)
    }

    open spec fn walk_events(&self, hir: HirMap) -> Seq<VisitEvent> {
        stmt_walk(hir, *self)
    }

    fn visit<V: Visitor>(&self, hir: &HirMap, visitor: &mut V) -> (r: ControlFlow<V::Break>) {
        traverse_stmt(hir, visitor, self)
    }
}

impl Visit for Expression {
    open spec fn visitable(&self, hir: HirMap) -> bool {
        expr_walkable(hir, *self)
    }

    open spec fn walk_events(&self, hir: HirMap) -> Seq<VisitEvent> {
        expr_walk(hir, *self)
    }

    fn visit<V: Visitor>(&self, hir: &HirMap, visitor: &mut V) -> (r: ControlFlow<V::Break>) {
        traverse_expr(hir, visitor, self)
    }
}

impl Visit for Pattern {
    open spec fn visitable(&self, hir: HirMap) -> bool {
        pattern_walkable(hir, *self)
    }

    open spec fn walk_events(&self, hir: HirMap) -> Seq<VisitEvent> {
        pattern_walk(hir, *self)
    }

    fn visit<V: Visitor>(&self, hir: &HirMap, visitor: &mut V) -> (r: ControlFlow<V::Break>) {
        traverse_pattern(hir, visitor, self)
    }
}

impl Visit for Type {
    open spec fn visitable(&self, hir: HirMap) -> bool {
        true
    }

    open spec fn walk_events(&self, hir: HirMap) -> Seq<VisitEvent> {
        type_events(self@)
    }

    fn visit<V: Visitor>(&self, hir: &HirMap, visitor: &mut V) -> (r: ControlFlow<V::Break>) {
        traverse_type(hir, visitor, self)
    }
}

impl Visit for Path {
    open spec fn visitable(&self, hir: HirMap) -> bool {
        true
    }

    open spec fn walk_events(&self, hir: HirMap) -> Seq<VisitEvent> {
        path_events(self@)
    }

    fn visit<V: Visitor>(&self, hir: &HirMap, visitor: &mut V) -> (r: ControlFlow<V::Break>) {
        traverse_path(hir, visitor, self)
    }
}

impl Visit for PathSegment {
    open spec fn visitable(&self, hir: HirMap) -> bool {
        true
    }

    open spec fn walk_events(&self, hir: HirMap) -> Seq<VisitEvent> {
        segment_events(self@)
    }

    fn visit<V: Visitor>(&self, hir: &HirMap, visitor: &mut V) -> (r: ControlFlow<V::Break>) {
        traverse_path_segment(hir, visitor, self)
    }
}

impl Visit for Identifier {
    open spec fn visitable(&self, hir: HirMap) -> bool {
        true
    }

    open spec fn walk_events(&self, hir: HirMap) -> Seq<VisitEvent> {
        seq![VisitEvent::Identifier(*self)]
    }

    fn visit<V: Visitor>(&self, hir: &HirMap, visitor: &mut V) -> (r: ControlFlow<V::Break>) {
        let ghost v0 = *visitor;
        let r = visitor.visit_identifier(self);
        proof {
            let ev = seq![VisitEvent::Identifier(*self)];
            assert(ev.drop_first() =~= Seq::<VisitEvent>::empty());
            assert(v0.shows(ev[0], r, *visitor));
            if r is Continue {
                assert(visit_run(ev.drop_first(), *visitor, r, *visitor));
            }
        }
        r
    }
}

} // verus!
