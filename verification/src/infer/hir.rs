//! Queries which type inference makes on the HIR map and on the ancestry
//! of its nodes.
use vstd::prelude::*;

use crate::hir::node::{
    Block, CallExpression, Constness, EnumDefinition, Expression, ExpressionKind, Field, LiteralKind, Node, Pattern,
    PatternKind, Statement, StatementKind, StructDefinition, Switch, SwitchCase, TraitDefinition, TypeDefinition,
    TypeParameter, TypeVariable, VariableSource, Visibility, Parameter, Place, SELF_PARAM_NAME,
};
use crate::hir::path::{str_eq, TypeId};
use crate::infer::scope::{
    ancestry_of, ancestry_ranked, chain_from, hir_scope_links, links_agree, scope_links, scopes_acyclic, Ancestry,
};
use crate::map::{entries_get, expressions_of, node_entries, HirMap};
use crate::span::{Location, NodeId, PackageId};

verus! {

/// A reference to a callable by the identifier of its node.
#[derive(Debug, Clone, Copy, PartialEq, Eq, Structural)]
pub enum CallReference {
    /// The call refers to a function.
    Function(NodeId),
    /// The call refers to a method.
    Method(NodeId),
}

impl CallReference {
    /// The identifier of the referenced callable.
    pub fn id(&self) -> (r: NodeId)
        ensures
            r == match self {
                CallReference::Function(id) => *id,
                CallReference::Method(id) => *id,
            },
    {
        match self {
            CallReference::Function(id) => *id,
            CallReference::Method(id) => *id,
        }
    }
}

/// The nodes of the given entries, in order.
pub open spec fn entry_nodes(e: Seq<(NodeId, Node)>) -> Seq<Node> {
    e.map_values(|x: (NodeId, Node)| x.1)
}

/// The nodes of the given entries which belong to `package`, in order.
pub open spec fn local_nodes(e: Seq<(NodeId, Node)>, package: PackageId) -> Seq<Node>
    decreases e.len(),
{
    if e.len() == 0 {
        seq![]
    } else {
        let prev = local_nodes(e.drop_last(), package);
        if e.last().1.spec_id().package == package {
            prev.push(e.last().1)
        } else {
            prev
        }
    }
}

/// The nodes stored for the given identifiers, in order, skipping those
/// which the map does not hold.
pub open spec fn present_nodes(m: HirMap, ids: Seq<NodeId>) -> Seq<Node>
    decreases ids.len(),
{
    if ids.len() == 0 {
        seq![]
    } else {
        let prev = present_nodes(m, ids.drop_last());
        match m.spec_node(ids.last()) {
            Some(n) => prev.push(n),
            None => prev,
        }
    }
}

/// The callable among the nodes which comes first, as a reference.
pub open spec fn first_callable(nodes: Seq<Node>) -> Option<CallReference>
    decreases nodes.len(),
{
    if nodes.len() == 0 {
        None
    } else {
        match nodes[0] {
            Node::Method(m) => Some(CallReference::Function(m.id)),
            Node::TraitMethodDef(m) => Some(CallReference::Function(m.id)),
            Node::TraitMethodImpl(m) => Some(CallReference::Function(m.id)),
            Node::Function(f) => Some(CallReference::Function(f.id)),
            _ => first_callable(nodes.drop_first()),
        }
    }
}

/// The constness of the function stored for `id`, if it is one.
pub open spec fn constness_of(m: HirMap, id: NodeId) -> Option<Constness> {
    match m.spec_node(id) {
        Some(Node::Function(f)) => Some(f.constness),
        _ => None,
    }
}

/// Whether the node can have a body: functions and methods.
pub open spec fn is_callable_node(n: Node) -> bool {
    n is Function || n is Method || n is TraitMethodDef || n is TraitMethodImpl
}

/// The body of a function or method, if it has one.
pub open spec fn body_of(n: Node) -> Option<Block> {
    match n {
        Node::Method(m) => m.block,
        Node::TraitMethodDef(m) => m.block,
        Node::TraitMethodImpl(m) => m.block,
        Node::Function(f) => f.block,
        _ => None,
    }
}

/// The visibility of a node, if it can have one.
pub open spec fn visibility_of_node(n: Node) -> Option<Visibility> {
    match n {
        Node::Function(f) => Some(f.visibility),
        Node::Type(TypeDefinition::Enum(e)) => Some(e.visibility),
        Node::Type(TypeDefinition::Struct(s)) => Some(s.visibility),
        Node::Type(TypeDefinition::Trait(t)) => Some(t.visibility),
        Node::Field(f) => Some(f.visibility),
        Node::Method(m) => Some(m.visibility),
        _ => None,
    }
}

/// Whether a pattern may stand in a `switch` over constants: an integer,
/// float or boolean literal, a name or a wildcard.
pub open spec fn constant_pattern(p: Pattern) -> bool {
    match p.kind {
        PatternKind::Literal(l) => l.literal.kind is Int || l.literal.kind is Float || l.literal.kind is Boolean,
        PatternKind::Identifier(_) => true,
        PatternKind::Wildcard(_) => true,
        _ => false,
    }
}

/// The identifiers of the expressions which refer to the variable
/// declared by `decl`, in order.
pub open spec fn variable_refs(exprs: Seq<Expression>, decl: NodeId) -> Seq<NodeId>
    decreases exprs.len(),
{
    if exprs.len() == 0 {
        seq![]
    } else {
        let prev = variable_refs(exprs.drop_last(), decl);
        match exprs.last().kind {
            ExpressionKind::Variable(v) => if v.reference == VariableSource::Variable(decl) {
                prev.push(exprs.last().id)
            } else {
                prev
            },
            _ => prev,
        }
    }
}

/// Whether one of the parameters is the `self` receiver.
pub open spec fn has_self_param(ps: Seq<Parameter>) -> bool {
    exists|k: int| 0 <= k < ps.len() && (#[trigger] ps[k]).name.name@ == SELF_PARAM_NAME@
}

/// Whether the node is a method which takes `self`.
pub open spec fn instanced_method(n: Option<Node>) -> bool {
    match n {
        Some(Node::Method(m)) => has_self_param(m.signature.parameters@),
        Some(Node::TraitMethodDef(m)) => has_self_param(m.signature.parameters@),
        Some(Node::TraitMethodImpl(m)) => has_self_param(m.signature.parameters@),
        _ => false,
    }
}

/// Whether any of the parameters is the `self` receiver.
fn any_self_param(ps: &Vec<Parameter>) -> (r: bool)
    ensures
        r == has_self_param(ps@),
{
    let mut i: usize = 0;
    while i < ps.len()
        invariant
            i <= ps@.len(),
            forall|k: int| 0 <= k < i ==> (#[trigger] ps@[k]).name.name@ != SELF_PARAM_NAME@,
        decreases ps.len() - i,
    {
        if ps[i].is_self() {
            return true;
        }
        i = i + 1;
    }
    false
}

/// Whether the value of the expression `id` is used by what holds it,
/// following an assignment up to what holds the assignment when `id` is
/// its target, at most `fuel` times. `None` when the fuel runs out, or when
/// the holder is stored nowhere or is no expression, statement or field
/// which holds expressions.
pub open spec fn value_expected_within(m: HirMap, a: Seq<(NodeId, NodeId)>, id: NodeId, fuel: nat) -> Option<bool>
    decreases fuel,
{
    match entries_get(a, id) {
        None => Some(false),
        Some(p) => match m.spec_node(p) {
            Some(Node::Expression(e)) => match e.kind {
                ExpressionKind::Assignment(x) => if x.target == id {
                    if fuel == 0 {
                        None
                    } else {
                        value_expected_within(m, a, x.id, (fuel - 1) as nat)
                    }
                } else {
                    Some(false)
                },
                _ => Some(true),
            },
            Some(Node::Statement(st)) => match st.kind {
                StatementKind::Variable(_) => Some(true),
                StatementKind::Final(_) => Some(true),
                StatementKind::Return(_) => Some(true),
                StatementKind::Expression(_) => Some(false),
                _ => None,
            },
            Some(Node::Field(_)) => Some(true),
            _ => None,
        },
    }
}

/// More fuel gives the same answer once an answer is found.
proof fn lemma_value_expected_fuel(m: HirMap, a: Seq<(NodeId, NodeId)>, id: NodeId, f1: nat, f2: nat)
    requires
        f1 <= f2,
        value_expected_within(m, a, id, f1) is Some,
    ensures
        value_expected_within(m, a, id, f2) == value_expected_within(m, a, id, f1),
    decreases f1,
{
    match entries_get(a, id) {
        Some(p) => match m.spec_node(p) {
            Some(Node::Expression(e)) => match e.kind {
                ExpressionKind::Assignment(x) => {
                    if x.target == id {
                        lemma_value_expected_fuel(m, a, x.id, (f1 - 1) as nat, (f2 - 1) as nat);
                    }
                },
                _ => {},
            },
            _ => {},
        },
        None => {},
    }
}

/// Whether the value of an expression is used follows from what directly
/// holds it, as the ancestry records it: a `let`, `final` or `return`
/// statement, a field (as its default value) or an expression other than
/// an assignment uses the value; an expression statement does not, nor
/// does an assignment of which the expression is not the target; and the
/// value of an expression with no recorded holder is not used. This holds
/// whatever fuel the question is given.
pub proof fn law_value_use_follows_holder(ctx: TyInferCtx, id: NodeId, fuel: nat)
    ensures
        ({
            let r = value_expected_within(ctx.hir, ctx.ancestry.links(), id, fuel);
            match ctx.ancestry.spec_parent(id) {
                None => r == Some(false),
                Some(p) => match ctx.hir.spec_node(p) {
                    Some(Node::Statement(st)) => {
                        &&& (st.kind is Variable || st.kind is Final || st.kind is Return) ==> r == Some(true)
                        &&& st.kind is Expression ==> r == Some(false)
                    },
                    Some(Node::Field(_)) => r == Some(true),
                    Some(Node::Expression(e)) => match e.kind {
                        ExpressionKind::Assignment(x) => x.target != id ==> r == Some(false),
                        _ => r == Some(true),
                    },
                    _ => true,
                },
            }
        }),
{
}

/// Whether a value can be assigned to the expression: a member, a
/// variable, or a dereference in place of a value.
pub open spec fn assignable(e: Expression) -> bool {
    match e.kind {
        ExpressionKind::Member(_) => true,
        ExpressionKind::Variable(_) => true,
        ExpressionKind::Deref(d) => d.place == Place::LValue,
        _ => false,
    }
}

/// The state of type inference which its queries on the HIR read: the map
/// and the ancestry of its nodes.
pub struct TyInferCtx {
    /// The HIR map which holds the items to infer.
    pub hir: HirMap,
    /// The parent of each node, as recorded so far.
    pub ancestry: Ancestry,
}

impl TyInferCtx {
    /// The parent of each node, as recorded so far.
    pub closed spec fn spec_ancestry(&self) -> Ancestry {
        self.ancestry
    }

    /// A context for the given map, with no ancestry recorded yet.
    pub fn new(hir: HirMap) -> (r: TyInferCtx)
        ensures
            r.hir == hir,
            r.spec_ancestry().well_formed(),
            r.spec_ancestry().links() == Seq::<(NodeId, NodeId)>::empty(),
    {
        TyInferCtx { hir, ancestry: Ancestry::new() }
    }

    /// The HIR map.
    pub fn hir(&self) -> (r: &HirMap)
        ensures
            *r == self.hir,
    {
        &self.hir
    }

    /// The HIR map, to be changed.
    pub fn hir_mut(&mut self) -> (r: &mut HirMap)
        ensures
            *r == old(self).hir,
            final(self).hir == *final(r),
            final(self).ancestry == old(self).ancestry,
    {
        &mut self.hir
    }

    /// Records the parent of every node below the structs, traits,
    /// implementations and functions of the map, in the order a descent
    /// through them finds it. A node which the descent would give two
    /// different parents is left out by the requirements.
    pub fn define_scopes(&mut self)
        requires
            old(self).hir.well_formed(),
            scopes_acyclic(old(self).hir),
            links_agree(hir_scope_links(old(self).hir)),
        ensures
            final(self).hir == old(self).hir,
            final(self).spec_ancestry().well_formed(),
            final(self).spec_ancestry().links() == ancestry_of(hir_scope_links(old(self).hir)),
    {
        let links = scope_links(&self.hir);
        self.ancestry = Ancestry::from_links(&links);
    }

    /// All nodes of the map, in insertion order.
    pub fn hir_nodes(&self) -> (r: Vec<&Node>)
        ensures
            r@.map_values(|n: &Node| *n) == entry_nodes(node_entries(self.hir.nodes)),
    {
        let ghost e = node_entries(self.hir.nodes);
        let mut out: Vec<&Node> = Vec::new();
        let n = self.hir.node_count();
        let mut i: usize = 0;
        while i < n
            invariant
                i <= n,
                n == e.len(),
                e == node_entries(self.hir.nodes),
                out@.map_values(|x: &Node| *x) == entry_nodes(e.subrange(0, i as int)),
            decreases n - i,
        {
            match self.hir.node_entry(i) {
                Some((_, node)) => {
                    out.push(node);
                    proof {
                        assert(entry_nodes(e.subrange(0, i + 1)) =~= entry_nodes(e.subrange(0, i as int)).push(*node));
                        assert(out@.map_values(|x: &Node| *x) =~= entry_nodes(e.subrange(0, i as int)).push(*node));
                    }
                },
                None => {},
            }
            i = i + 1;
        }
        proof {
            assert(e.subrange(0, n as int) =~= e);
        }
        out
    }

    /// The nodes of the map which belong to its own package, in insertion
    /// order.
    pub fn hir_local_nodes(&self) -> (r: Vec<&Node>)
        ensures
            r@.map_values(|n: &Node| *n) == local_nodes(node_entries(self.hir.nodes), self.hir.package),
    {
        let ghost e = node_entries(self.hir.nodes);
        let mut out: Vec<&Node> = Vec::new();
        let n = self.hir.node_count();
        let mut i: usize = 0;
        while i < n
            invariant
                i <= n,
                n == e.len(),
                e == node_entries(self.hir.nodes),
                out@.map_values(|x: &Node| *x) == local_nodes(e.subrange(0, i as int), self.hir.package),
            decreases n - i,
        {
            match self.hir.node_entry(i) {
                Some((_, node)) => {
                    let ghost prev = out@;
                    proof {
                        assert(e.subrange(0, i + 1).drop_last() =~= e.subrange(0, i as int));
                    }
                    if node.id().package == self.hir.package {
                        out.push(node);
                        proof {
                            assert(out@.map_values(|x: &Node| *x) =~= prev.map_values(|x: &Node| *x).push(*node));
                        }
                    }
                },
                None => {},
            }
            i = i + 1;
        }
        proof {
            assert(e.subrange(0, n as int) =~= e);
        }
        out
    }

    /// The node stored for `id`, if any.
    pub fn hir_node(&self, id: NodeId) -> (r: Option<&Node>)
        ensures
            match r {
                Some(n) => self.hir.spec_node(id) == Some(*n),
                None => self.hir.spec_node(id) is None,
            },
    {
        self.hir.node(id)
    }

    /// The node stored for `id`, which must be there.
    pub fn hir_expect_node(&self, id: NodeId) -> (r: &Node)
        requires
            self.hir.spec_node(id) is Some,
        ensures
            self.hir.spec_node(id) == Some(*r),
    {
        match self.hir.node(id) {
            Some(n) => n,
            None => {
                vstd::pervasive::unreached()
            },
        }
    }

    /// The statement stored for `id`, if the node is one.
    pub fn hir_stmt(&self, id: NodeId) -> (r: Option<&Statement>)
        ensures
            match r {
                Some(s) => self.hir.spec_statement(id) == Some(*s),
                None => self.hir.spec_statement(id) is None,
            },
    {
        self.hir.statement(id)
    }

    /// The statement stored for `id`, which must be there.
    pub fn hir_expect_stmt(&self, id: NodeId) -> (r: &Statement)
        requires
            self.hir.spec_statement(id) is Some,
        ensures
            self.hir.spec_statement(id) == Some(*r),
    {
        match self.hir.statement(id) {
            Some(s) => s,
            None => {
                vstd::pervasive::unreached()
            },
        }
    }

    /// The expression stored for `id`, if the node is one.
    pub fn hir_expr(&self, id: NodeId) -> (r: Option<&Expression>)
        ensures
            match r {
                Some(e) => self.hir.spec_expression(id) == Some(*e),
                None => self.hir.spec_expression(id) is None,
            },
    {
        self.hir.expression(id)
    }

    /// The expression stored for `id`, which must be there.
    pub fn hir_expect_expr(&self, id: NodeId) -> (r: &Expression)
        requires
            self.hir.spec_expression(id) is Some,
        ensures
            self.hir.spec_expression(id) == Some(*r),
    {
        match self.hir.expression(id) {
            Some(e) => e,
            None => {
                vstd::pervasive::unreached()
            },
        }
    }

    /// The pattern stored for `id`, if the node is one.
    pub fn hir_pat(&self, id: NodeId) -> (r: Option<&Pattern>)
        ensures
            match r {
                Some(p) => self.hir.spec_pattern(id) == Some(*p),
                None => self.hir.spec_pattern(id) is None,
            },
    {
        self.hir.pattern(id)
    }

    /// The pattern stored for `id`, which must be there.
    pub fn hir_expect_pattern(&self, id: NodeId) -> (r: &Pattern)
        requires
            self.hir.spec_pattern(id) is Some,
        ensures
            self.hir.spec_pattern(id) == Some(*r),
    {
        match self.hir.pattern(id) {
            Some(p) => p,
            None => {
                vstd::pervasive::unreached()
            },
        }
    }

    /// The call stored for `id`, if the node is an instance, intrinsic or
    /// static call expression.
    pub fn hir_call_expr(&self, id: NodeId) -> (r: Option<CallExpression<'_>>)
        ensures
            match self.hir.spec_expression(id) {
                Some(e) => match e.kind {
                    ExpressionKind::InstanceCall(c) => r matches Some(CallExpression::Instanced(x)) && *x == c,
                    ExpressionKind::IntrinsicCall(c) => r matches Some(CallExpression::Intrinsic(x)) && *x == c,
                    ExpressionKind::StaticCall(c) => r matches Some(CallExpression::Static(x)) && *x == c,
                    _ => r is None,
                },
                None => r is None,
            },
    {
        match self.hir.expression(id) {
            Some(e) => match &e.kind {
                ExpressionKind::InstanceCall(c) => Some(CallExpression::Instanced(c)),
                ExpressionKind::IntrinsicCall(c) => Some(CallExpression::Intrinsic(c)),
                ExpressionKind::StaticCall(c) => Some(CallExpression::Static(c)),
                _ => None,
            },
            None => None,
        }
    }

    /// The field stored for `id`, if the node is one.
    pub fn hir_field(&self, id: NodeId) -> (r: Option<&Field>)
        ensures
            match self.hir.spec_node(id) {
                Some(Node::Field(f)) => r == Some(&f),
                _ => r is None,
            },
    {
        match self.hir.node(id) {
            Some(Node::Field(f)) => Some(f),
            _ => None,
        }
    }

    /// The field stored for `id`, which must be there.
    pub fn hir_expect_field(&self, id: NodeId) -> (r: &Field)
        requires
            self.hir.spec_node(id) matches Some(Node::Field(_)),
        ensures
            self.hir.spec_node(id) == Some(Node::Field(*r)),
    {
        match self.hir.node(id) {
            Some(Node::Field(f)) => f,
            _ => {
                vstd::pervasive::unreached()
            },
        }
    }

    /// The type definition stored for `id`, which must be there.
    pub fn hir_expect_type(&self, id: NodeId) -> (r: &TypeDefinition)
        requires
            self.hir.spec_node(id) matches Some(Node::Type(_)),
        ensures
            self.hir.spec_node(id) == Some(Node::Type(*r)),
    {
        match self.hir.node(id) {
            Some(Node::Type(t)) => t,
            _ => {
                vstd::pervasive::unreached()
            },
        }
    }

    /// The type parameter stored for `id`, which must be there.
    pub fn hir_expect_type_parameter(&self, id: NodeId) -> (r: &TypeParameter)
        requires
            self.hir.spec_node(id) matches Some(Node::Type(TypeDefinition::TypeParameter(_))),
        ensures
            self.hir.spec_node(id) == Some(Node::Type(TypeDefinition::TypeParameter(Box::new(*r)))),
    {
        match self.hir.node(id) {
            Some(Node::Type(TypeDefinition::TypeParameter(t))) => t,
            _ => {
                vstd::pervasive::unreached()
            },
        }
    }

    /// The type variable stored for `id`, which must be there.
    pub fn hir_expect_type_variable(&self, id: NodeId) -> (r: &TypeVariable)
        requires
            self.hir.spec_node(id) matches Some(Node::TypeVariable(_)),
        ensures
            self.hir.spec_node(id) == Some(Node::TypeVariable(*r)),
    {
        match self.hir.node(id) {
            Some(Node::TypeVariable(t)) => t,
            _ => {
                vstd::pervasive::unreached()
            },
        }
    }

    /// The struct definition stored for `id`, which must be there.
    pub fn hir_expect_struct(&self, id: NodeId) -> (r: &StructDefinition)
        requires
            self.hir.spec_node(id) matches Some(Node::Type(TypeDefinition::Struct(_))),
        ensures
            self.hir.spec_node(id) == Some(Node::Type(TypeDefinition::Struct(Box::new(*r)))),
    {
        match self.hir.node(id) {
            Some(Node::Type(TypeDefinition::Struct(t))) => t,
            _ => {
                vstd::pervasive::unreached()
            },
        }
    }

    /// The enum definition stored for `id`, which must be there.
    pub fn hir_expect_enum(&self, id: NodeId) -> (r: &EnumDefinition)
        requires
            self.hir.spec_node(id) matches Some(Node::Type(TypeDefinition::Enum(_))),
        ensures
            self.hir.spec_node(id) == Some(Node::Type(TypeDefinition::Enum(Box::new(*r)))),
    {
        match self.hir.node(id) {
            Some(Node::Type(TypeDefinition::Enum(t))) => t,
            _ => {
                vstd::pervasive::unreached()
            },
        }
    }

    /// The trait definition stored for `id`, which must be there.
    pub fn hir_expect_trait(&self, id: NodeId) -> (r: &TraitDefinition)
        requires
            self.hir.spec_node(id) matches Some(Node::Type(TypeDefinition::Trait(_))),
        ensures
            self.hir.spec_node(id) == Some(Node::Type(TypeDefinition::Trait(Box::new(*r)))),
    {
        match self.hir.node(id) {
            Some(Node::Type(TypeDefinition::Trait(t))) => t,
            _ => {
                vstd::pervasive::unreached()
            },
        }
    }

    /// The parent recorded for `id`, if any.
    pub fn hir_parent_of(&self, id: NodeId) -> (r: Option<NodeId>)
        ensures
            r == self.spec_ancestry().spec_parent(id),
    {
        self.ancestry.parent_of(id)
    }

    /// The node stored for the parent of `id`, if both are known.
    pub fn hir_parent_node_of(&self, id: NodeId) -> (r: Option<&Node>)
        ensures
            match self.spec_ancestry().spec_parent(id) {
                Some(p) => match r {
                    Some(n) => self.hir.spec_node(p) == Some(*n),
                    None => self.hir.spec_node(p) is None,
                },
                None => r is None,
            },
    {
        match self.ancestry.parent_of(id) {
            Some(p) => self.hir.node(p),
            None => None,
        }
    }

    /// The identifier `def`, then those of its ancestors, nearest first.
    pub fn hir_parent_id_iter(&self, def: NodeId) -> (r: Vec<NodeId>)
        requires
            self.spec_ancestry().acyclic(),
        ensures
            r@ == self.spec_ancestry().spec_ancestors(def),
    {
        let ghost a = self.ancestry.links();
        let ghost rank = choose|rank: spec_fn(NodeId) -> nat| ancestry_ranked(a, rank);
        let mut out: Vec<NodeId> = Vec::new();
        let mut cur = def;
        loop
            invariant_except_break
                ancestry_ranked(a, rank),
                a == self.ancestry.links(),
                out@ + chain_from(a, rank, cur) == chain_from(a, rank, def),
            ensures
                out@ == chain_from(a, rank, def),
            decreases rank(cur),
        {
            let ghost before = out@;
            out.push(cur);
            match self.ancestry.parent_of(cur) {
                Some(p) => {
                    proof {
                        assert(entries_get(a, cur) == Some(p));
                        assert(rank(p) < rank(cur));
                        assert(chain_from(a, rank, cur) == seq![cur] + chain_from(a, rank, p));
                        assert(out@ + chain_from(a, rank, p) =~= before + chain_from(a, rank, cur));
                    }
                    cur = p;
                },
                None => {
                    proof {
                        assert(chain_from(a, rank, cur) =~= seq![cur]);
                        assert(out@ =~= before + chain_from(a, rank, cur));
                    }
                    break;
                },
            }
        }
        out
    }

    /// The nodes stored for `def` and its ancestors, nearest first; those
    /// which the map does not hold are skipped.
    pub fn hir_parent_iter(&self, def: NodeId) -> (r: Vec<&Node>)
        requires
            self.spec_ancestry().acyclic(),
        ensures
            r@.map_values(|n: &Node| *n) == present_nodes(self.hir, self.spec_ancestry().spec_ancestors(def)),
    {
        let ids = self.hir_parent_id_iter(def);
        let mut out: Vec<&Node> = Vec::new();
        let mut i: usize = 0;
        while i < ids.len()
            invariant
                i <= ids@.len(),
                out@.map_values(|x: &Node| *x) == present_nodes(self.hir, ids@.subrange(0, i as int)),
            decreases ids.len() - i,
        {
            let ghost prev = out@;
            proof {
                assert(ids@.subrange(0, i + 1).drop_last() =~= ids@.subrange(0, i as int));
            }
            match self.hir.node(ids[i]) {
                Some(n) => {
                    out.push(n);
                    proof {
                        assert(out@.map_values(|x: &Node| *x) =~= prev.map_values(|x: &Node| *x).push(*n));
                    }
                },
                None => {},
            }
            i = i + 1;
        }
        proof {
            assert(ids@.subrange(0, ids@.len() as int) =~= ids@);
        }
        out
    }

    /// The nearest function or method which holds `id`, or `id` itself when
    /// it is one.
    pub fn hir_parent_callable(&self, id: NodeId) -> (r: Option<CallReference>)
        requires
            self.spec_ancestry().acyclic(),
        ensures
            r == first_callable(present_nodes(self.hir, self.spec_ancestry().spec_ancestors(id))),
    {
        let nodes = self.hir_parent_iter(id);
        let ghost all = nodes@.map_values(|x: &Node| *x);
        proof {
            assert(all.subrange(0, all.len() as int) =~= all);
        }
        let mut i: usize = 0;
        while i < nodes.len()
            invariant
                i <= nodes@.len(),
                all == nodes@.map_values(|x: &Node| *x),
                all == present_nodes(self.hir, self.spec_ancestry().spec_ancestors(id)),
                first_callable(all) == first_callable(all.subrange(i as int, all.len() as int)),
            decreases nodes.len() - i,
        {
            let ghost rest = all.subrange(i as int, all.len() as int);
            proof {
                assert(rest[0] == *nodes@[i as int]);
                assert(rest.drop_first() =~= all.subrange(i + 1, all.len() as int));
            }
            match nodes[i] {
                Node::Method(m) => {
                    return Some(CallReference::Function(m.id));
                },
                Node::TraitMethodDef(m) => {
                    return Some(CallReference::Function(m.id));
                },
                Node::TraitMethodImpl(m) => {
                    return Some(CallReference::Function(m.id));
                },
                Node::Function(f) => {
                    return Some(CallReference::Function(f.id));
                },
                _ => {},
            }
            i = i + 1;
        }
        proof {
            assert(all.subrange(all.len() as int, all.len() as int) =~= Seq::<Node>::empty());
        }
        None
    }

    /// The body of the function or method stored for `id`, if it has one;
    /// `None` when the map holds no node for `id`. Other nodes are left out
    /// by the requirements.
    pub fn hir_body_of_node(&self, id: NodeId) -> (r: Option<&Block>)
        requires
            self.hir.spec_node(id) matches Some(n) ==> is_callable_node(n),
        ensures
            match self.hir.spec_node(id) {
                Some(n) => match r {
                    Some(b) => body_of(n) == Some(*b),
                    None => body_of(n) is None,
                },
                None => r is None,
            },
    {
        match self.hir.node(id) {
            Some(Node::Method(m)) => m.block.as_ref(),
            Some(Node::TraitMethodDef(m)) => m.block.as_ref(),
            Some(Node::TraitMethodImpl(m)) => m.block.as_ref(),
            Some(Node::Function(f)) => f.block.as_ref(),
            Some(_) => {
                proof {
                    assert(false);
                }
                None
            },
            None => None,
        }
    }

    /// The location of the node stored for `def`, which must be there.
    pub fn hir_span_of_node(&self, def: NodeId) -> (r: Location)
        requires
            self.hir.spec_node(def) is Some,
        ensures
            r == self.hir.spec_node(def)->Some_0.spec_location(),
    {
        self.hir_expect_node(def).location()
    }

    /// Whether the node belongs to the map's own package.
    pub fn hir_is_local_node(&self, node: NodeId) -> (r: bool)
        ensures
            r == (node.package == self.hir.package),
    {
        self.hir.is_local_node(node)
    }

    /// Whether the callable stored for `id`, which must be there, is
    /// declared without a body: a function, method or trait method
    /// implementation without a block. Other nodes are not.
    pub fn hir_is_callable_external(&self, id: NodeId) -> (r: bool)
        requires
            self.hir.spec_node(id) is Some,
        ensures
            r == match self.hir.spec_node(id)->Some_0 {
                Node::Function(f) => f.block is None,
                Node::Method(m) => m.block is None,
                Node::TraitMethodImpl(m) => m.block is None,
                _ => false,
            },
    {
        match self.hir_expect_node(id) {
            Node::Function(f) => f.block.is_none(),
            Node::Method(m) => m.block.is_none(),
            Node::TraitMethodImpl(m) => m.block.is_none(),
            _ => false,
        }
    }

    /// The type parameter which the type variable stored for
    /// `type_var_id` is bound to, if the node is one.
    pub fn hir_tyvar_binding_of(&self, type_var_id: NodeId) -> (r: Option<TypeId>)
        ensures
            r == match self.hir.spec_type_variable(type_var_id) {
                Some(v) => Some(v.binding),
                None => None,
            },
    {
        match self.hir.type_variable(type_var_id) {
            Some(v) => Some(v.binding),
            None => None,
        }
    }

    /// The canonical type parameter of the type variable stored for
    /// `type_var_id`, if the node is one.
    pub fn hir_tyvar_canonical_of(&self, type_var_id: NodeId) -> (r: Option<TypeId>)
        ensures
            r == match self.hir.spec_type_variable(type_var_id) {
                Some(v) => Some(v.canonical),
                None => None,
            },
    {
        match self.hir.type_variable(type_var_id) {
            Some(v) => Some(v.canonical),
            None => None,
        }
    }

    /// The constness of the function stored for `id`, if it is one.
    pub fn hir_constness_of(&self, id: NodeId) -> (r: Option<Constness>)
        ensures
            r == constness_of(self.hir, id),
    {
        match self.hir.node(id) {
            Some(Node::Function(f)) => Some(f.constness),
            _ => None,
        }
    }

    /// Whether `id` or one of its ancestors is a `const` function.
    pub fn hir_in_const_block(&self, id: NodeId) -> (r: bool)
        requires
            self.spec_ancestry().acyclic(),
        ensures
            r == exists|k: int|
                0 <= k < self.spec_ancestry().spec_ancestors(id).len() && constness_of(
                    self.hir,
                    #[trigger] self.spec_ancestry().spec_ancestors(id)[k],
                ) == Some(Constness::Const),
    {
        let ids = self.hir_parent_id_iter(id);
        let mut i: usize = 0;
        while i < ids.len()
            invariant
                i <= ids@.len(),
                ids@ == self.spec_ancestry().spec_ancestors(id),
                forall|k: int| 0 <= k < i ==> constness_of(self.hir, #[trigger] ids@[k]) != Some(Constness::Const),
            decreases ids.len() - i,
        {
            match self.hir_constness_of(ids[i]) {
                Some(Constness::Const) => {
                    return true;
                },
                _ => {},
            }
            i = i + 1;
        }
        false
    }

    /// The visibility of the node stored for `id`, if it can have one.
    pub fn visibility_of(&self, id: NodeId) -> (r: Option<Visibility>)
        ensures
            r == match self.hir.spec_node(id) {
                Some(n) => visibility_of_node(n),
                None => None,
            },
    {
        match self.hir.node(id) {
            Some(Node::Function(f)) => Some(f.visibility),
            Some(Node::Type(TypeDefinition::Enum(e))) => Some(e.visibility),
            Some(Node::Type(TypeDefinition::Struct(s))) => Some(s.visibility),
            Some(Node::Type(TypeDefinition::Trait(t))) => Some(t.visibility),
            Some(Node::Field(f)) => Some(f.visibility),
            Some(Node::Method(m)) => Some(m.visibility),
            _ => None,
        }
    }

    /// Whether the node stored for `id` is public; a missing node, or one
    /// without a visibility, is not.
    pub fn is_visible_outside_package(&self, id: NodeId) -> (r: bool)
        ensures
            r == (match self.hir.spec_node(id) {
                Some(n) => visibility_of_node(n),
                None => None,
            } == Some(Visibility::Public)),
    {
        match self.visibility_of(id) {
            Some(Visibility::Public) => true,
            _ => false,
        }
    }

    /// Whether every case of the `switch` has a pattern which may stand in
    /// a `switch` over constants. The cases are checked in order, and the
    /// pattern of each case reached must be stored in the map.
    pub fn is_switch_constant(&self, expr: &Switch) -> (r: bool)
        requires
            forall|k: int|
                0 <= k < expr.cases@.len() && (forall|j: int|
                    0 <= j < k ==> constant_pattern(#[trigger] self.hir.spec_pattern(expr.cases@[j].pattern)->Some_0))
                    ==> (#[trigger] self.hir.spec_pattern(expr.cases@[k].pattern)) is Some,
        ensures
            r == forall|k: int|
                0 <= k < expr.cases@.len() ==> constant_pattern(
                    #[trigger] self.hir.spec_pattern(expr.cases@[k].pattern)->Some_0,
                ),
    {
        let mut i: usize = 0;
        while i < expr.cases.len()
            invariant
                i <= expr.cases@.len(),
                forall|j: int|
                    0 <= j < i ==> constant_pattern(#[trigger] self.hir.spec_pattern(expr.cases@[j].pattern)->Some_0),
                forall|k: int|
                    0 <= k < expr.cases@.len() && (forall|j: int|
                        0 <= j < k ==> constant_pattern(#[trigger] self.hir.spec_pattern(expr.cases@[j].pattern)->Some_0))
                        ==> (#[trigger] self.hir.spec_pattern(expr.cases@[k].pattern)) is Some,
            decreases expr.cases.len() - i,
        {
            let case: &SwitchCase = &expr.cases[i];
            proof {
                assert(self.hir.spec_pattern(expr.cases@[i as int].pattern) is Some);
            }
            let pattern = self.hir_expect_pattern(case.pattern);
            let constant = match &pattern.kind {
                PatternKind::Literal(l) => match l.literal.kind {
                    LiteralKind::Int(_) => true,
                    LiteralKind::Float(_) => true,
                    LiteralKind::Boolean(_) => true,
                    _ => false,
                },
                PatternKind::Identifier(_) => true,
                PatternKind::Wildcard(_) => true,
                _ => false,
            };
            if !constant {
                proof {
                    assert(!constant_pattern(self.hir.spec_pattern(expr.cases@[i as int].pattern)->Some_0));
                }
                return false;
            }
            i = i + 1;
        }
        true
    }

    /// The nodes whose type depends on the expression `id`: its parent,
    /// and, when the parent declares a variable, every expression which
    /// refers to that variable. Nothing when `id` has no known parent in
    /// the map.
    pub fn indirect_expression_refs(&self, id: NodeId) -> (r: Vec<NodeId>)
        ensures
            r@ == match self.ancestry.spec_parent(id) {
                Some(p) => match self.hir.spec_node(p) {
                    Some(parent) => seq![parent.spec_id()] + match parent {
                        Node::Statement(stmt) => match stmt.kind {
                            StatementKind::Variable(decl) => variable_refs(
                                expressions_of(node_entries(self.hir.nodes)),
                                decl.id,
                            ),
                            _ => seq![],
                        },
                        _ => seq![],
                    },
                    None => seq![],
                },
                None => seq![],
            },
    {
        let parent = match self.hir_parent_node_of(id) {
            Some(p) => p,
            None => {
                return Vec::new();
            },
        };
        let mut refs: Vec<NodeId> = Vec::new();
        refs.push(parent.id());
        match parent {
            Node::Statement(stmt) => match &stmt.kind {
                StatementKind::Variable(decl) => {
                    let exprs = self.hir.expressions();
                    let ghost all = exprs@.map_values(|e: &Expression| *e);
                    let ghost head = refs@;
                    let mut i: usize = 0;
                    while i < exprs.len()
                        invariant
                            i <= exprs@.len(),
                            all == exprs@.map_values(|e: &Expression| *e),
                            refs@ == head + variable_refs(all.subrange(0, i as int), decl.id),
                        decreases exprs.len() - i,
                    {
                        let ghost prev = refs@;
                        proof {
                            assert(all.subrange(0, i + 1).drop_last() =~= all.subrange(0, i as int));
                            assert(all.subrange(0, i + 1).last() == *exprs@[i as int]);
                        }
                        match &exprs[i].kind {
                            ExpressionKind::Variable(v) => match v.reference {
                                VariableSource::Variable(source) => {
                                    if source == decl.id {
                                        refs.push(exprs[i].id);
                                        proof {
                                            assert(refs@ =~= head + variable_refs(all.subrange(0, i + 1), decl.id));
                                        }
                                    }
                                },
                                _ => {},
                            },
                            _ => {},
                        }
                        i = i + 1;
                    }
                    proof {
                        assert(all.subrange(0, all.len() as int) =~= all);
                    }
                },
                _ => {},
            },
            _ => {},
        }
        refs
    }

    /// The reference to the callable stored for `id`: a function, or a
    /// method of an implementation or a trait; `None` for other nodes.
    pub fn callref_with_id(&self, id: NodeId) -> (r: Option<CallReference>)
        ensures
            r == match self.hir.spec_node(id) {
                Some(Node::Function(_)) => Some(CallReference::Function(id)),
                Some(Node::Method(_)) => Some(CallReference::Method(id)),
                Some(Node::TraitMethodDef(_)) => Some(CallReference::Method(id)),
                Some(Node::TraitMethodImpl(_)) => Some(CallReference::Method(id)),
                _ => None,
            },
    {
        match self.hir.node(id) {
            Some(Node::Function(_)) => Some(CallReference::Function(id)),
            Some(Node::Method(_)) => Some(CallReference::Method(id)),
            Some(Node::TraitMethodDef(_)) => Some(CallReference::Method(id)),
            Some(Node::TraitMethodImpl(_)) => Some(CallReference::Method(id)),
            _ => None,
        }
    }

    /// Whether the node stored for `id` is a method which takes `self`.
    pub fn is_instanced_method(&self, id: NodeId) -> (r: bool)
        ensures
            r == instanced_method(self.hir.spec_node(id)),
    {
        match self.hir.node(id) {
            Some(Node::Method(m)) => any_self_param(&m.signature.parameters),
            Some(Node::TraitMethodDef(m)) => any_self_param(&m.signature.parameters),
            Some(Node::TraitMethodImpl(m)) => any_self_param(&m.signature.parameters),
            _ => false,
        }
    }

    /// Whether the node stored for `id` is not a method which takes `self`.
    pub fn is_static_method(&self, id: NodeId) -> (r: bool)
        ensures
            r == !instanced_method(self.hir.spec_node(id)),
    {
        !self.is_instanced_method(id)
    }

    /// Whether the node stored for `id` is the entry point: a function
    /// named `main` at the root of its package.
    pub fn is_entrypoint(&self, id: NodeId) -> (r: bool)
        ensures
            r == match self.hir.spec_node(id) {
                Some(Node::Function(f)) => f.signature.name.root@.len() == 0 && f.signature.name.name@.name_str()
                    == "main"@,
                _ => false,
            },
    {
        match self.hir.node(id) {
            Some(Node::Function(f)) => {
                let main = "main";
                proof {
                    reveal_strlit("main");
                }
                f.path().root.len() == 0 && str_eq(f.ident().name().as_str(), main)
            },
            _ => false,
        }
    }

    /// Whether the value of the expression `id` is used by what holds it:
    /// a declaration, `final` or `return` statement, a field default or
    /// an expression other than an assignment uses it; an expression
    /// statement, or an assignment of which `id` is not the target, does
    /// not; an assignment to `id` uses it when the assignment's own value
    /// is used. An expression with no recorded parent is not used. Holders
    /// which cannot hold an expression are left out by the requirements.
    pub fn is_value_expected(&self, id: NodeId) -> (r: bool)
        requires
            exists|fuel: nat| (#[trigger] value_expected_within(self.hir, self.ancestry.links(), id, fuel)) is Some,
        ensures
            forall|fuel: nat|
                #[trigger] value_expected_within(self.hir, self.ancestry.links(), id, fuel) matches Some(b) ==> r == b,
    {
        let ghost a = self.ancestry.links();
        let ghost start = choose|fuel: nat| (#[trigger] value_expected_within(self.hir, a, id, fuel)) is Some;
        let ghost answer = value_expected_within(self.hir, a, id, start)->Some_0;
        let ghost mut fuel: nat = start;
        let mut cur = id;
        let mut r = false;
        loop
            invariant_except_break
                a == self.ancestry.links(),
                value_expected_within(self.hir, a, cur, fuel) == Some(answer),
            ensures
                r == answer,
            decreases fuel,
        {
            let parent = match self.ancestry.parent_of(cur) {
                Some(p) => p,
                None => {
                    r = false;
                    break;
                },
            };
            let next = match self.hir.node(parent) {
                Some(Node::Expression(e)) => match &e.kind {
                    ExpressionKind::Assignment(x) => {
                        if x.target == cur {
                            Some(x.id)
                        } else {
                            r = false;
                            None
                        }
                    },
                    _ => {
                        r = true;
                        None
                    },
                },
                Some(Node::Statement(st)) => {
                    r = match &st.kind {
                        StatementKind::Variable(_) => true,
                        StatementKind::Final(_) => true,
                        StatementKind::Return(_) => true,
                        StatementKind::Expression(_) => false,
                        _ => vstd::pervasive::unreached(),
                    };
                    None
                },
                Some(Node::Field(_)) => {
                    r = true;
                    None
                },
                _ => vstd::pervasive::unreached(),
            };
            match next {
                Some(n) => {
                    proof {
                        fuel = (fuel - 1) as nat;
                    }
                    cur = n;
                },
                None => {
                    break;
                },
            }
        }
        proof {
            assert forall|f: nat| (#[trigger] value_expected_within(self.hir, a, id, f)) is Some implies r
                == value_expected_within(self.hir, a, id, f)->Some_0 by {
                if f <= start {
                    lemma_value_expected_fuel(self.hir, a, id, f, start);
                } else {
                    lemma_value_expected_fuel(self.hir, a, id, start, f);
                }
            }
        }
        r
    }

    /// Whether a value can be assigned to the expression stored for `id`,
    /// which must be there.
    pub fn can_assign_value(&self, id: NodeId) -> (r: bool)
        requires
            self.hir.spec_expression(id) is Some,
        ensures
            r == assignable(self.hir.spec_expression(id)->Some_0),
    {
        match &self.hir_expect_expr(id).kind {
            ExpressionKind::Member(_) => true,
            ExpressionKind::Variable(_) => true,
            ExpressionKind::Deref(d) => d.place == Place::LValue,
            _ => false,
        }
    }
}

} // verus!
