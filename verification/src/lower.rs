//! Building blocks of lowering into the HIR: handing out node identifiers,
//! storing new nodes in the map, the nodes that operators lower to, and
//! what attributes do to the item they are written on.
use vstd::prelude::*;

use crate::hir::node::{
    Assignment, Attribute, AttrArgument, Block, Break, Condition, Expression, ExpressionKind,
    Final, InfiniteLoop, InstanceCall, IntLiteral, IntrinsicCall, IntrinsicKind, LiteralKind, Node,
    Pattern, PatternKind, Scope, Statement, StatementKind, StaticCall, Switch, SwitchCase, Variable,
    VariableDeclaration, VariableSource, VariantPattern, If,
};
use crate::hir::path::{str_eq, Identifier, Path, PathSegment, SegmentView};
use crate::lang::{spec_from_name, LangItem, LangItemError};
use crate::map::{law_insert_keeps_other_keys, law_lookup_after_insert, node_entries, HirMap};
use crate::span::{Location, NodeId, PackageId};

verus! {

/// A binary operator of the source language.
#[derive(Debug, Clone, Copy, PartialEq, Eq, Structural)]
pub enum BinaryOp {
    Add,
    Sub,
    Mul,
    Div,
    And,
    Or,
    BinaryAnd,
    BinaryOr,
    BinaryXor,
    Equal,
    NotEqual,
    LessEqual,
    Less,
    GreaterEqual,
    Greater,
}

/// A prefix operator of the source language.
#[derive(Debug, Clone, Copy, PartialEq, Eq, Structural)]
pub enum UnaryOp {
    Negate,
    Not,
}

/// A postfix operator of the source language.
#[derive(Debug, Clone, Copy, PartialEq, Eq, Structural)]
pub enum PostfixOp {
    Increment,
    Decrement,
}

/// The intrinsic which a binary operator lowers to.
pub open spec fn binary_intrinsic(op: BinaryOp, lhs: NodeId, rhs: NodeId) -> IntrinsicKind {
    match op {
        BinaryOp::Add => IntrinsicKind::Add { lhs, rhs },
        BinaryOp::Sub => IntrinsicKind::Sub { lhs, rhs },
        BinaryOp::Mul => IntrinsicKind::Mul { lhs, rhs },
        BinaryOp::Div => IntrinsicKind::Div { lhs, rhs },
        BinaryOp::And => IntrinsicKind::And { lhs, rhs },
        BinaryOp::Or => IntrinsicKind::Or { lhs, rhs },
        BinaryOp::BinaryAnd => IntrinsicKind::BinaryAnd { lhs, rhs },
        BinaryOp::BinaryOr => IntrinsicKind::BinaryOr { lhs, rhs },
        BinaryOp::BinaryXor => IntrinsicKind::BinaryXor { lhs, rhs },
        BinaryOp::Equal => IntrinsicKind::Equal { lhs, rhs },
        BinaryOp::NotEqual => IntrinsicKind::NotEqual { lhs, rhs },
        BinaryOp::LessEqual => IntrinsicKind::LessEqual { lhs, rhs },
        BinaryOp::Less => IntrinsicKind::Less { lhs, rhs },
        BinaryOp::GreaterEqual => IntrinsicKind::GreaterEqual { lhs, rhs },
        BinaryOp::Greater => IntrinsicKind::Greater { lhs, rhs },
    }
}

/// The intrinsic which a binary operator lowers to.
pub fn intrinsic_of_binary(op: BinaryOp, lhs: NodeId, rhs: NodeId) -> (r: IntrinsicKind)
    ensures
        r == binary_intrinsic(op, lhs, rhs),
{
    match op {
        BinaryOp::Add => IntrinsicKind::Add { lhs, rhs },
        BinaryOp::Sub => IntrinsicKind::Sub { lhs, rhs },
        BinaryOp::Mul => IntrinsicKind::Mul { lhs, rhs },
        BinaryOp::Div => IntrinsicKind::Div { lhs, rhs },
        BinaryOp::And => IntrinsicKind::And { lhs, rhs },
        BinaryOp::Or => IntrinsicKind::Or { lhs, rhs },
        BinaryOp::BinaryAnd => IntrinsicKind::BinaryAnd { lhs, rhs },
        BinaryOp::BinaryOr => IntrinsicKind::BinaryOr { lhs, rhs },
        BinaryOp::BinaryXor => IntrinsicKind::BinaryXor { lhs, rhs },
        BinaryOp::Equal => IntrinsicKind::Equal { lhs, rhs },
        BinaryOp::NotEqual => IntrinsicKind::NotEqual { lhs, rhs },
        BinaryOp::LessEqual => IntrinsicKind::LessEqual { lhs, rhs },
        BinaryOp::Less => IntrinsicKind::Less { lhs, rhs },
        BinaryOp::GreaterEqual => IntrinsicKind::GreaterEqual { lhs, rhs },
        BinaryOp::Greater => IntrinsicKind::Greater { lhs, rhs },
    }
}

/// What a binary operator of the source computes from the values of its
/// two operands, taken as 64-bit integers: arithmetic on the numbers
/// (division by zero gives zero here), logical `&&` and `||` on truth values
/// (non-zero is true), bitwise `&`, `|` and `^`, and comparisons; truth
/// values come out as 1 and 0.
pub open spec fn operator_value(op: BinaryOp, a: u64, b: u64) -> int {
    match op {
        BinaryOp::Add => a + b,
        BinaryOp::Sub => a - b,
        BinaryOp::Mul => a * b,
        BinaryOp::Div => if b == 0 {
            0
        } else {
            (a / b) as int
        },
        BinaryOp::And => if a != 0 && b != 0 {
            1
        } else {
            0
        },
        BinaryOp::Or => if a != 0 || b != 0 {
            1
        } else {
            0
        },
        BinaryOp::BinaryAnd => (a & b) as int,
        BinaryOp::BinaryOr => (a | b) as int,
        BinaryOp::BinaryXor => (a ^ b) as int,
        BinaryOp::Equal => if a == b {
            1
        } else {
            0
        },
        BinaryOp::NotEqual => if a != b {
            1
        } else {
            0
        },
        BinaryOp::LessEqual => if a <= b {
            1
        } else {
            0
        },
        BinaryOp::Less => if a < b {
            1
        } else {
            0
        },
        BinaryOp::GreaterEqual => if a >= b {
            1
        } else {
            0
        },
        BinaryOp::Greater => if a > b {
            1
        } else {
            0
        },
    }
}

/// What an intrinsic of two operands computes from their values, in the
/// same terms as [`operator_value`]; `None` for an intrinsic of one operand.
pub open spec fn intrinsic_value(k: IntrinsicKind, a: u64, b: u64) -> Option<int> {
    match k {
        IntrinsicKind::Add { .. } => Some(a + b),
        IntrinsicKind::Sub { .. } => Some(a - b),
        IntrinsicKind::Mul { .. } => Some(a * b),
        IntrinsicKind::Div { .. } => Some(
            if b == 0 {
                0
            } else {
                (a / b) as int
            },
        ),
        IntrinsicKind::And { .. } => Some(
            if a != 0 && b != 0 {
                1
            } else {
                0
            },
        ),
        IntrinsicKind::Or { .. } => Some(
            if a != 0 || b != 0 {
                1
            } else {
                0
            },
        ),
        IntrinsicKind::BinaryAnd { .. } => Some((a & b) as int),
        IntrinsicKind::BinaryOr { .. } => Some((a | b) as int),
        IntrinsicKind::BinaryXor { .. } => Some((a ^ b) as int),
        IntrinsicKind::Equal { .. } => Some(
            if a == b {
                1
            } else {
                0
            },
        ),
        IntrinsicKind::NotEqual { .. } => Some(
            if a != b {
                1
            } else {
                0
            },
        ),
        IntrinsicKind::Less { .. } => Some(
            if a < b {
                1
            } else {
                0
            },
        ),
        IntrinsicKind::LessEqual { .. } => Some(
            if a <= b {
                1
            } else {
                0
            },
        ),
        IntrinsicKind::Greater { .. } => Some(
            if a > b {
                1
            } else {
                0
            },
        ),
        IntrinsicKind::GreaterEqual { .. } => Some(
            if a >= b {
                1
            } else {
                0
            },
        ),
        IntrinsicKind::Negate { .. } => None,
        IntrinsicKind::Not { .. } => None,
    }
}

/// A binary operator lowers to an intrinsic which computes what the
/// operator does, on the two lowered operands in their order; distinct
/// operators lower to distinct intrinsics.
pub proof fn law_binary_lowering_keeps_meaning(op: BinaryOp, other: BinaryOp, lhs: NodeId, rhs: NodeId)
    ensures
        binary_intrinsic(op, lhs, rhs).spec_arguments() == seq![lhs, rhs],
        forall|a: u64, b: u64| #[trigger] intrinsic_value(binary_intrinsic(op, lhs, rhs), a, b) == Some(operator_value(op, a, b)),
        op != other ==> binary_intrinsic(op, lhs, rhs) != binary_intrinsic(other, lhs, rhs),
{
}

/// The intrinsic which a prefix operator lowers to.
pub open spec fn unary_intrinsic(op: UnaryOp, target: NodeId) -> IntrinsicKind {
    match op {
        UnaryOp::Negate => IntrinsicKind::Negate { target },
        UnaryOp::Not => IntrinsicKind::Not { target },
    }
}

/// The intrinsic which a postfix operator applies to its operand and one.
pub open spec fn postfix_intrinsic(op: PostfixOp, src: NodeId, one: NodeId) -> IntrinsicKind {
    match op {
        PostfixOp::Increment => IntrinsicKind::Add { lhs: src, rhs: one },
        PostfixOp::Decrement => IntrinsicKind::Sub { lhs: src, rhs: one },
    }
}

/// `n` is the expression `id` which calls the intrinsic `kind`, without
/// type arguments.
pub open spec fn is_intrinsic_expr(n: Node, id: NodeId, kind: IntrinsicKind, location: Location) -> bool {
    &&& n matches Node::Expression(e)
    &&& e.id == id
    &&& e.location == location
    &&& e.kind matches ExpressionKind::IntrinsicCall(c)
    &&& c.id == id
    &&& c.kind == kind
    &&& c.bound_types@.len() == 0
    &&& c.location == location
}

/// The `k`-th identifier after `c` within its package.
pub open spec fn nth_id(c: NodeId, k: int) -> NodeId {
    NodeId { index: (c.index + k) as u64, package: c.package }
}

/// The identifiers of the package of `c` from the `lo`-th after it up to,
/// not including, the `hi`-th.
pub open spec fn id_range(c: NodeId, lo: int, hi: int) -> Set<NodeId> {
    Set::new(|x: NodeId| x.package == c.package && c.index + lo <= x.index < c.index + hi)
}

/// The name of the hidden variable which gathers the elements of an array
/// literal.
pub open spec fn array_var() -> Seq<char> {
    "!array"@
}

/// `n` is the expression `id` which refers to the variable declared by
/// `decl` under the name [`array_var`].
pub open spec fn is_array_var_ref(n: Node, id: NodeId, decl: NodeId, location: Location) -> bool {
    &&& n matches Node::Expression(e)
    &&& e.id == id
    &&& e.location == location
    &&& e.kind matches ExpressionKind::Variable(v)
    &&& v.id == id
    &&& v.reference == VariableSource::Variable(decl)
    &&& v.name.name@ == array_var()
    &&& v.name.location == Location::spec_empty()
    &&& v.location == location
}

/// `n` is the statement `id` which declares the variable [`array_var`],
/// without a written type, with the value `value`.
pub open spec fn is_array_var_decl(n: Node, id: NodeId, value: NodeId, location: Location) -> bool {
    &&& n matches Node::Statement(st)
    &&& st.id == id
    &&& st.location == location
    &&& st.kind matches StatementKind::Variable(d)
    &&& d.id == id
    &&& d.name.name@ == array_var()
    &&& d.name.location == Location::spec_empty()
    &&& d.declared_type is None
    &&& d.value == value
    &&& d.location == location
}

/// `n` is the expression `id` which calls `push` on `callee` with the one
/// argument `item`.
pub open spec fn is_push_call(n: Node, id: NodeId, callee: NodeId, item: NodeId, location: Location) -> bool {
    &&& n matches Node::Expression(e)
    &&& e.id == id
    &&& e.location == location
    &&& e.kind matches ExpressionKind::InstanceCall(c)
    &&& c.id == id
    &&& c.callee == callee
    &&& c.name@ matches SegmentView::Callable { name, bound_types, location: l }
    &&& name.name@ == "push"@
    &&& name.location == Location::spec_empty()
    &&& bound_types.len() == 0
    &&& l == Location::spec_empty()
    &&& c.arguments@ == seq![item]
    &&& c.bound_types@.len() == 0
    &&& c.location == location
}

/// `n` is the expression `id` which calls the function at `name` without
/// arguments.
pub open spec fn is_argless_static_call(n: Node, id: NodeId, name: Path, location: Location) -> bool {
    &&& n matches Node::Expression(e)
    &&& e.id == id
    &&& e.location == location
    &&& e.kind matches ExpressionKind::StaticCall(sc)
    &&& sc.id == id
    &&& sc.name == name
    &&& sc.arguments@.len() == 0
    &&& sc.location == location
}

/// The nodes which push the `j`-th element `item` of an array literal onto
/// the gathering variable, when the literal's identifiers follow `c`: a
/// reference to the variable, the call of `push` on it, and the statement
/// which evaluates the call.
pub open spec fn array_element_lowered(h: HirMap, c: NodeId, j: int, item: NodeId, location: Location) -> bool {
    &&& (h.spec_node(nth_id(c, 3 + 3 * j)) matches Some(m) && is_array_var_ref(
        m,
        nth_id(c, 3 + 3 * j),
        nth_id(c, 2),
        location,
    ))
    &&& (h.spec_node(nth_id(c, 4 + 3 * j)) matches Some(m) && is_push_call(
        m,
        nth_id(c, 4 + 3 * j),
        nth_id(c, 3 + 3 * j),
        item,
        location,
    ))
    &&& h.spec_node(nth_id(c, 5 + 3 * j)) == Some(Node::Statement(Statement {
        id: nth_id(c, 5 + 3 * j),
        location,
        kind: StatementKind::Expression(nth_id(c, 4 + 3 * j)),
    }))
}

/// `n` is the expression `id` which opens the scope `scope` with the
/// given statements.
pub open spec fn is_scope_expr(n: Node, id: NodeId, scope: NodeId, body: Seq<NodeId>, location: Location) -> bool {
    &&& n matches Node::Expression(e)
    &&& e.id == id
    &&& e.location == location
    &&& e.kind matches ExpressionKind::Scope(sc)
    &&& sc.id == scope
    &&& sc.body@ == body
    &&& !sc.unsafe_
    &&& sc.location == location
}

/// Changing the nodes of `s1` and then those of `s2` changes only the
/// nodes of both.
proof fn lemma_only_changed_trans(a: HirMap, b: HirMap, c: HirMap, s1: Set<NodeId>, s2: Set<NodeId>)
    requires
        only_changed(a, b, s1),
        only_changed(b, c, s2),
    ensures
        only_changed(a, c, s1.union(s2)),
{
    assert forall|k: NodeId| !s1.union(s2).contains(k) implies #[trigger] c.spec_node(k) == a.spec_node(k) by {
        assert(c.spec_node(k) == b.spec_node(k));
        assert(b.spec_node(k) == a.spec_node(k));
    }
}

/// The statements of the block which an array literal of `n` elements
/// lowers to, when its identifiers follow `c`: the declaration of the
/// gathering variable, one `push` per element, and the final reference.
pub open spec fn array_body(c: NodeId, n: int) -> Seq<NodeId> {
    seq![nth_id(c, 2)] + Seq::new(n as nat, |j: int| nth_id(c, 5 + 3 * j)) + seq![nth_id(c, 3 * n + 4)]
}

/// A problem found while lowering.
pub enum LoweringError {
    /// A `lang_item` attribute without a `name` argument.
    LangItemMissingName { location: Location },
    /// A `lang_item` attribute whose name is no string.
    LangItemInvalidNameType { location: Location },
    /// A `lang_item` attribute which names no language item.
    UnknownLangItem { name: String },
    /// A language item which was defined before; it is replaced.
    DuplicateLangItem { item: LangItem, existing: NodeId, replaced_with: NodeId },
    /// An attribute which the compiler does not know.
    UnknownAttribute { location: Location },
}

/// Model of a [`LoweringError`], with text as sequences.
pub enum LoweringErrorView {
    LangItemMissingName { location: Location },
    LangItemInvalidNameType { location: Location },
    UnknownLangItem { name: Seq<char> },
    DuplicateLangItem { item: LangItem, existing: NodeId, replaced_with: NodeId },
    UnknownAttribute { location: Location },
}

impl LoweringError {
    /// The model of the problem.
    pub open spec fn view(self) -> LoweringErrorView {
        match self {
            LoweringError::LangItemMissingName { location } => LoweringErrorView::LangItemMissingName { location },
            LoweringError::LangItemInvalidNameType { location } => LoweringErrorView::LangItemInvalidNameType {
                location,
            },
            LoweringError::UnknownLangItem { name } => LoweringErrorView::UnknownLangItem { name: name@ },
            LoweringError::DuplicateLangItem { item, existing, replaced_with } => LoweringErrorView::DuplicateLangItem {
                item,
                existing,
                replaced_with,
            },
            LoweringError::UnknownAttribute { location } => LoweringErrorView::UnknownAttribute { location },
        }
    }
}

/// The models of a list of problems.
pub open spec fn errors_view(s: Seq<LoweringError>) -> Seq<LoweringErrorView> {
    s.map_values(|e: LoweringError| e.view())
}

/// `after` differs from `before` only in the nodes stored for `changed`.
pub open spec fn only_changed(before: HirMap, after: HirMap, changed: Set<NodeId>) -> bool {
    &&& after.well_formed()
    &&& forall|k: NodeId| !changed.contains(k) ==> #[trigger] after.spec_node(k) == before.spec_node(k)
    &&& after.package == before.package
    &&& after.types == before.types
    &&& after.lang_items == before.lang_items
    &&& after.imports == before.imports
}

/// The identifier which follows `id` within its package.
pub open spec fn next_id(id: NodeId) -> NodeId {
    NodeId { index: (id.index + 1) as u64, package: id.package }
}

/// The state which lowering keeps while it builds the HIR of a package: the
/// map being built, the last node identifier handed out, and the problems
/// found so far.
pub struct LoweringContext {
    map: HirMap,
    current_node: NodeId,
    diagnostics: Vec<LoweringError>,
}

impl LoweringContext {
    /// The map built so far.
    pub closed spec fn hir(&self) -> HirMap {
        self.map
    }

    /// The last node identifier handed out.
    pub closed spec fn current(&self) -> NodeId {
        self.current_node
    }

    /// The problems found so far, in order.
    pub closed spec fn diagnostics(&self) -> Seq<LoweringErrorView> {
        errors_view(self.diagnostics@)
    }

    /// The map is well-formed.
    pub closed spec fn well_formed(&self) -> bool {
        self.map.well_formed()
    }

    /// A context for lowering the given package. Identifiers are handed out
    /// above the first 256 of the package, which the compiler's own types
    /// use.
    pub fn new(package: PackageId) -> (r: LoweringContext)
        ensures
            r.well_formed(),
            r.hir().package == package,
            forall|k: NodeId| #[trigger] r.hir().spec_node(k) is None,
            r.hir().lang_items@ == Map::<LangItem, NodeId>::empty(),
            r.current() == (NodeId { index: 0x100, package }),
            r.diagnostics() == Seq::<LoweringErrorView>::empty(),
    {
        let r = LoweringContext {
            map: HirMap::empty(package),
            current_node: NodeId::new(package, 0x100),
            diagnostics: Vec::new(),
        };
        proof {
            assert(errors_view(r.diagnostics@) =~= Seq::<LoweringErrorView>::empty());
        }
        r
    }

    /// The map built so far.
    pub fn map(&self) -> (r: &HirMap)
        ensures
            *r == self.hir(),
    {
        &self.map
    }

    /// The problems found so far.
    pub fn errors(&self) -> (r: &Vec<LoweringError>)
        ensures
            errors_view(r@) == self.diagnostics(),
    {
        &self.diagnostics
    }

    /// Hands out the next node identifier of the package.
    pub fn next_node_id(&mut self) -> (r: NodeId)
        requires
            old(self).current().index < u64::MAX,
        ensures
            r == next_id(old(self).current()),
            final(self).current() == r,
            final(self).hir() == old(self).hir(),
            final(self).diagnostics() == old(self).diagnostics(),
            final(self).well_formed() == old(self).well_formed(),
    {
        self.current_node = NodeId::new(self.current_node.package, self.current_node.index + 1);
        self.current_node
    }

    /// Stores a node for an identifier which holds none yet.
    fn store(&mut self, id: NodeId, node: Node)
        requires
            old(self).well_formed(),
        ensures
            final(self).well_formed(),
            final(self).hir().spec_node(id) == Some(node),
            only_changed(old(self).hir(), final(self).hir(), set![id]),
            final(self).current() == old(self).current(),
            final(self).diagnostics() == old(self).diagnostics(),
    {
        let ghost before = self.map;
        let ghost stored = node;
        self.map.insert_node(id, node);
        proof {
            law_lookup_after_insert(node_entries(before.nodes), id, stored);
            assert forall|k: NodeId| !set![id].contains(k) implies #[trigger] self.map.spec_node(k) == before.spec_node(k) by {
                law_insert_keeps_other_keys(node_entries(before.nodes), id, stored, k);
            }
        }
    }

    /// Stores a statement under its identifier, which must hold no node yet.
    pub fn alloc_stmt(&mut self, stmt: Statement) -> (r: NodeId)
        requires
            old(self).well_formed(),
            old(self).hir().spec_node(stmt.id) is None,
        ensures
            r == stmt.id,
            final(self).well_formed(),
            final(self).hir().spec_node(r) == Some(Node::Statement(stmt)),
            only_changed(old(self).hir(), final(self).hir(), set![r]),
            final(self).current() == old(self).current(),
            final(self).diagnostics() == old(self).diagnostics(),
    {
        let id = stmt.id;
        self.store(id, Node::Statement(stmt));
        id
    }

    /// Stores an expression under its identifier, which must hold no node
    /// yet.
    pub fn alloc_expr(&mut self, expr: Expression) -> (r: NodeId)
        requires
            old(self).well_formed(),
            old(self).hir().spec_node(expr.id) is None,
        ensures
            r == expr.id,
            final(self).well_formed(),
            final(self).hir().spec_node(r) == Some(Node::Expression(expr)),
            only_changed(old(self).hir(), final(self).hir(), set![r]),
            final(self).current() == old(self).current(),
            final(self).diagnostics() == old(self).diagnostics(),
    {
        let id = expr.id;
        self.store(id, Node::Expression(expr));
        id
    }

    /// Stores a pattern under its identifier, which must hold no node yet.
    pub fn alloc_pat(&mut self, pat: Pattern) -> (r: NodeId)
        requires
            old(self).well_formed(),
            old(self).hir().spec_node(pat.id) is None,
        ensures
            r == pat.id,
            final(self).well_formed(),
            final(self).hir().spec_node(r) == Some(Node::Pattern(pat)),
            only_changed(old(self).hir(), final(self).hir(), set![r]),
            final(self).current() == old(self).current(),
            final(self).diagnostics() == old(self).diagnostics(),
    {
        let id = pat.id;
        self.store(id, Node::Pattern(pat));
        id
    }

    /// Stores a statement under the next identifier, which must hold no
    /// node yet.
    fn alloc_next_stmt(&mut self, location: Location, kind: StatementKind) -> (r: NodeId)
        requires
            old(self).well_formed(),
            old(self).current().index < u64::MAX,
            old(self).hir().spec_node(next_id(old(self).current())) is None,
        ensures
            r == next_id(old(self).current()),
            final(self).current() == r,
            final(self).well_formed(),
            final(self).hir().spec_node(r) == Some(Node::Statement(Statement { id: r, kind, location })),
            only_changed(old(self).hir(), final(self).hir(), set![r]),
            final(self).diagnostics() == old(self).diagnostics(),
    {
        let id = self.next_node_id();
        self.alloc_stmt(Statement { id, kind, location })
    }

    /// A `final` statement which yields the value of an expression of the
    /// map, at the expression's location.
    pub fn alloc_final_stmt(&mut self, expr: NodeId) -> (r: NodeId)
        requires
            old(self).well_formed(),
            old(self).current().index < u64::MAX,
            old(self).hir().spec_node(expr) is Some,
            old(self).hir().spec_node(next_id(old(self).current())) is None,
        ensures
            r == next_id(old(self).current()),
            final(self).current() == r,
            final(self).well_formed(),
            final(self).hir().spec_node(r) == Some(Node::Statement(Statement {
                id: r,
                location: old(self).hir().spec_node(expr)->Some_0.spec_location(),
                kind: StatementKind::Final(Final {
                    id: r,
                    value: expr,
                    location: old(self).hir().spec_node(expr)->Some_0.spec_location(),
                }),
            })),
            only_changed(old(self).hir(), final(self).hir(), set![r]),
            final(self).diagnostics() == old(self).diagnostics(),
    {
        let location = match self.map.node(expr) {
            Some(n) => n.location(),
            None => Location::empty(),
        };
        let id = next_id_of(self.current_node);
        self.alloc_next_stmt(location, StatementKind::Final(Final { id, value: expr, location }))
    }

    /// A statement which evaluates an expression of the map, at the
    /// expression's location.
    pub fn alloc_expr_stmt(&mut self, expr: NodeId) -> (r: NodeId)
        requires
            old(self).well_formed(),
            old(self).current().index < u64::MAX,
            old(self).hir().spec_node(expr) is Some,
            old(self).hir().spec_node(next_id(old(self).current())) is None,
        ensures
            r == next_id(old(self).current()),
            final(self).current() == r,
            final(self).well_formed(),
            final(self).hir().spec_node(r) == Some(Node::Statement(Statement {
                id: r,
                location: old(self).hir().spec_node(expr)->Some_0.spec_location(),
                kind: StatementKind::Expression(expr),
            })),
            only_changed(old(self).hir(), final(self).hir(), set![r]),
            final(self).diagnostics() == old(self).diagnostics(),
    {
        let location = match self.map.node(expr) {
            Some(n) => n.location(),
            None => Location::empty(),
        };
        self.alloc_next_stmt(location, StatementKind::Expression(expr))
    }

    /// A `break` statement.
    pub fn alloc_break(&mut self, location: Location) -> (r: NodeId)
        requires
            old(self).well_formed(),
            old(self).current().index < u64::MAX,
            old(self).hir().spec_node(next_id(old(self).current())) is None,
        ensures
            r == next_id(old(self).current()),
            final(self).current() == r,
            final(self).well_formed(),
            final(self).hir().spec_node(r) == Some(Node::Statement(Statement {
                id: r,
                location,
                kind: StatementKind::Break(Break { id: r, location }),
            })),
            only_changed(old(self).hir(), final(self).hir(), set![r]),
            final(self).diagnostics() == old(self).diagnostics(),
    {
        let id = next_id_of(self.current_node);
        self.alloc_next_stmt(location, StatementKind::Break(Break { id, location }))
    }

    /// A loop which runs the block until it breaks.
    pub fn alloc_infinite_loop(&mut self, block: Block, location: Location) -> (r: NodeId)
        requires
            old(self).well_formed(),
            old(self).current().index < u64::MAX,
            old(self).hir().spec_node(next_id(old(self).current())) is None,
        ensures
            r == next_id(old(self).current()),
            final(self).current() == r,
            final(self).well_formed(),
            final(self).hir().spec_node(r) == Some(Node::Statement(Statement {
                id: r,
                location,
                kind: StatementKind::InfiniteLoop(InfiniteLoop { id: r, block, location }),
            })),
            only_changed(old(self).hir(), final(self).hir(), set![r]),
            final(self).diagnostics() == old(self).diagnostics(),
    {
        let id = next_id_of(self.current_node);
        self.alloc_next_stmt(location, StatementKind::InfiniteLoop(InfiniteLoop { id, block, location }))
    }

    /// Stores an expression under the next identifier, which must hold no
    /// node yet.
    fn alloc_next_expr(&mut self, location: Location, kind: ExpressionKind) -> (r: NodeId)
        requires
            old(self).well_formed(),
            old(self).current().index < u64::MAX,
            old(self).hir().spec_node(next_id(old(self).current())) is None,
        ensures
            r == next_id(old(self).current()),
            final(self).current() == r,
            final(self).well_formed(),
            final(self).hir().spec_node(r) == Some(Node::Expression(Expression { id: r, kind, location })),
            only_changed(old(self).hir(), final(self).hir(), set![r]),
            final(self).diagnostics() == old(self).diagnostics(),
    {
        let id = self.next_node_id();
        self.alloc_expr(Expression { id, kind, location })
    }

    /// A call of the function at `path` with the given arguments.
    pub fn alloc_static_call(&mut self, path: Path, arguments: Vec<NodeId>, location: Location) -> (r: NodeId)
        requires
            old(self).well_formed(),
            old(self).current().index < u64::MAX,
            old(self).hir().spec_node(next_id(old(self).current())) is None,
        ensures
            r == next_id(old(self).current()),
            final(self).current() == r,
            final(self).well_formed(),
            final(self).hir().spec_node(r) == Some(Node::Expression(Expression {
                id: r,
                location,
                kind: ExpressionKind::StaticCall(StaticCall { id: r, name: path, arguments, location }),
            })),
            only_changed(old(self).hir(), final(self).hir(), set![r]),
            final(self).diagnostics() == old(self).diagnostics(),
    {
        let id = next_id_of(self.current_node);
        self.alloc_next_expr(location, ExpressionKind::StaticCall(StaticCall { id, name: path, arguments, location }))
    }

    /// An `if` expression with the given cases.
    pub fn alloc_if_conditional(&mut self, conditions: Vec<Condition>, location: Location) -> (r: NodeId)
        requires
            old(self).well_formed(),
            old(self).current().index < u64::MAX,
            old(self).hir().spec_node(next_id(old(self).current())) is None,
        ensures
            r == next_id(old(self).current()),
            final(self).current() == r,
            final(self).well_formed(),
            final(self).hir().spec_node(r) == Some(Node::Expression(Expression {
                id: r,
                location,
                kind: ExpressionKind::If(If { id: r, cases: conditions, location }),
            })),
            only_changed(old(self).hir(), final(self).hir(), set![r]),
            final(self).diagnostics() == old(self).diagnostics(),
    {
        let id = next_id_of(self.current_node);
        self.alloc_next_expr(location, ExpressionKind::If(If { id, cases: conditions, location }))
    }

    /// A `switch` expression over `operand` with the given arms.
    pub fn alloc_switch_expr(&mut self, operand: NodeId, arms: Vec<SwitchCase>, location: Location) -> (r: NodeId)
        requires
            old(self).well_formed(),
            old(self).current().index < u64::MAX,
            old(self).hir().spec_node(next_id(old(self).current())) is None,
        ensures
            r == next_id(old(self).current()),
            final(self).current() == r,
            final(self).well_formed(),
            final(self).hir().spec_node(r) == Some(Node::Expression(Expression {
                id: r,
                location,
                kind: ExpressionKind::Switch(Switch { id: r, operand, cases: arms, location }),
            })),
            only_changed(old(self).hir(), final(self).hir(), set![r]),
            final(self).diagnostics() == old(self).diagnostics(),
    {
        let id = next_id_of(self.current_node);
        self.alloc_next_expr(location, ExpressionKind::Switch(Switch { id, operand, cases: arms, location }))
    }

    /// A placeholder for an expression which could not be read; it takes
    /// the given identifier, or else the next one.
    pub fn missing_expr(&mut self, id: Option<NodeId>) -> (r: NodeId)
        requires
            old(self).well_formed(),
            id is None ==> old(self).current().index < u64::MAX,
            old(self).hir().spec_node(match id {
                Some(i) => i,
                None => next_id(old(self).current()),
            }) is None,
        ensures
            r == match id {
                Some(i) => i,
                None => next_id(old(self).current()),
            },
            final(self).current() == match id {
                Some(_) => old(self).current(),
                None => r,
            },
            final(self).well_formed(),
            final(self).hir().spec_node(r) == Some(Node::Expression(Expression {
                id: r,
                location: Location::spec_empty(),
                kind: ExpressionKind::Missing,
            })),
            only_changed(old(self).hir(), final(self).hir(), set![r]),
            final(self).diagnostics() == old(self).diagnostics(),
    {
        let id = match id {
            Some(i) => i,
            None => self.next_node_id(),
        };
        self.alloc_expr(Expression { id, kind: ExpressionKind::Missing, location: Location::empty() })
    }

    /// A pattern which matches the enum variant at `name` with the given
    /// field patterns.
    pub fn alloc_pat_variant(&mut self, name: Path, fields: Vec<NodeId>, location: Location) -> (r: NodeId)
        requires
            old(self).well_formed(),
            old(self).current().index < u64::MAX,
            old(self).hir().spec_node(next_id(old(self).current())) is None,
        ensures
            r == next_id(old(self).current()),
            final(self).current() == r,
            final(self).well_formed(),
            final(self).hir().spec_node(r) == Some(Node::Pattern(Pattern {
                id: r,
                kind: PatternKind::Variant(VariantPattern { name, fields, location }),
                location,
            })),
            only_changed(old(self).hir(), final(self).hir(), set![r]),
            final(self).diagnostics() == old(self).diagnostics(),
    {
        let id = self.next_node_id();
        self.alloc_pat(Pattern { id, kind: PatternKind::Variant(VariantPattern { name, fields, location }), location })
    }

    /// Stores the intrinsic call `id`, as a binary operator with lowered
    /// operands gives it; `id` was handed out before the operands were
    /// lowered.
    pub fn expr_bin(&mut self, id: NodeId, op: BinaryOp, lhs: NodeId, rhs: NodeId, location: Location) -> (r: NodeId)
        requires
            old(self).well_formed(),
            old(self).hir().spec_node(id) is None,
        ensures
            r == id,
            final(self).well_formed(),
            final(self).hir().spec_node(id) matches Some(n) && is_intrinsic_expr(
                n,
                id,
                binary_intrinsic(op, lhs, rhs),
                location,
            ),
            only_changed(old(self).hir(), final(self).hir(), set![id]),
            final(self).current() == old(self).current(),
            final(self).diagnostics() == old(self).diagnostics(),
    {
        let kind = intrinsic_of_binary(op, lhs, rhs);
        self.alloc_expr(Expression {
            id,
            location,
            kind: ExpressionKind::IntrinsicCall(IntrinsicCall { id, kind, bound_types: Vec::new(), location }),
        })
    }

    /// Stores the intrinsic call `id`, as a prefix operator with a lowered
    /// operand gives it.
    pub fn expr_unary(&mut self, id: NodeId, op: UnaryOp, target: NodeId, location: Location) -> (r: NodeId)
        requires
            old(self).well_formed(),
            old(self).hir().spec_node(id) is None,
        ensures
            r == id,
            final(self).well_formed(),
            final(self).hir().spec_node(id) matches Some(n) && is_intrinsic_expr(
                n,
                id,
                unary_intrinsic(op, target),
                location,
            ),
            only_changed(old(self).hir(), final(self).hir(), set![id]),
            final(self).current() == old(self).current(),
            final(self).diagnostics() == old(self).diagnostics(),
    {
        let kind = match op {
            UnaryOp::Negate => IntrinsicKind::Negate { target },
            UnaryOp::Not => IntrinsicKind::Not { target },
        };
        self.alloc_expr(Expression {
            id,
            location,
            kind: ExpressionKind::IntrinsicCall(IntrinsicCall { id, kind, bound_types: Vec::new(), location }),
        })
    }

    /// Lowers `x++` and `x--` with a lowered place `dst` and value `src` of
    /// the operand: the literal `1` and the sum or difference take the next
    /// two identifiers, and the assignment of it to `dst` takes `id`.
    pub fn expr_postfix(&mut self, id: NodeId, op: PostfixOp, dst: NodeId, src: NodeId, location: Location) -> (r: NodeId)
        requires
            old(self).well_formed(),
            old(self).current().index < u64::MAX - 1,
            old(self).hir().spec_node(id) is None,
            id != next_id(old(self).current()),
            id != next_id(next_id(old(self).current())),
        ensures
            r == id,
            final(self).well_formed(),
            final(self).current() == next_id(next_id(old(self).current())),
            final(self).hir().spec_node(next_id(old(self).current())) == Some(Node::Expression(Expression {
                id: next_id(old(self).current()),
                location: Location::spec_empty(),
                kind: ExpressionKind::Literal(crate::hir::node::Literal {
                    id: next_id(old(self).current()),
                    location: Location::spec_empty(),
                    kind: LiteralKind::Int(IntLiteral { id: next_id(old(self).current()), value: 1, kind: None }),
                }),
            })),
            final(self).hir().spec_node(next_id(next_id(old(self).current()))) matches Some(n) && is_intrinsic_expr(
                n,
                next_id(next_id(old(self).current())),
                postfix_intrinsic(op, src, next_id(old(self).current())),
                location,
            ),
            final(self).hir().spec_node(id) == Some(Node::Expression(Expression {
                id,
                location,
                kind: ExpressionKind::Assignment(Assignment {
                    id,
                    target: dst,
                    value: next_id(next_id(old(self).current())),
                    location,
                }),
            })),
            only_changed(
                old(self).hir(),
                final(self).hir(),
                set![id, next_id(old(self).current()), next_id(next_id(old(self).current()))],
            ),
            final(self).diagnostics() == old(self).diagnostics(),
    {
        let ghost h0 = self.map;
        let rhs_id = self.next_node_id();
        let one = Expression::lit(rhs_id, LiteralKind::Int(IntLiteral { id: rhs_id, value: 1, kind: None }));
        self.store(rhs_id, Node::Expression(one));
        let ghost h1 = self.map;
        let value_id = self.next_node_id();
        let kind = match op {
            PostfixOp::Increment => IntrinsicKind::Add { lhs: src, rhs: rhs_id },
            PostfixOp::Decrement => IntrinsicKind::Sub { lhs: src, rhs: rhs_id },
        };
        self.store(
            value_id,
            Node::Expression(Expression {
                id: value_id,
                kind: ExpressionKind::IntrinsicCall(IntrinsicCall { id: value_id, kind, bound_types: Vec::new(), location }),
                location,
            }),
        );
        let ghost h2 = self.map;
        let r = self.alloc_expr(Expression {
            id,
            kind: ExpressionKind::Assignment(Assignment { id, target: dst, value: value_id, location }),
            location,
        });
        proof {
            assert(self.map.spec_node(rhs_id) == h1.spec_node(rhs_id));
            assert(h2.spec_node(rhs_id) == h1.spec_node(rhs_id));
            assert(self.map.spec_node(value_id) == h2.spec_node(value_id));
        }
        r
    }
}


impl LoweringContext {
    /// Stores `node` under the next identifier, which it must carry.
    fn store_next(&mut self, node: Node)
        requires
            old(self).well_formed(),
            old(self).current().index < u64::MAX,
        ensures
            final(self).current() == next_id(old(self).current()),
            final(self).well_formed(),
            final(self).hir().spec_node(next_id(old(self).current())) == Some(node),
            only_changed(old(self).hir(), final(self).hir(), set![next_id(old(self).current())]),
            final(self).diagnostics() == old(self).diagnostics(),
    {
        let id = self.next_node_id();
        self.store(id, node);
    }

    /// Lowers an array literal whose elements were lowered to `items`, with
    /// `array_new` the path of the array type's constructor: a block which
    /// declares a hidden variable holding a new array, pushes each element
    /// onto it in order, and yields it. The nodes take the identifiers after
    /// the current one in the order in which they are built, and the block's
    /// scope the one after them.
    pub fn expr_array(&mut self, array_new: Path, items: Vec<NodeId>, location: Location) -> (r: NodeId)
        requires
            old(self).well_formed(),
            old(self).current().index + 3 * items.len() + 6 <= u64::MAX,
        ensures
            ({
                let c = old(self).current();
                let n = items.len() as int;
                &&& r == nth_id(c, 3 * n + 5)
                &&& final(self).current() == nth_id(c, 3 * n + 6)
                &&& final(self).well_formed()
                &&& (final(self).hir().spec_node(nth_id(c, 1)) matches Some(m) && is_argless_static_call(
                    m,
                    nth_id(c, 1),
                    array_new,
                    location,
                ))
                &&& (final(self).hir().spec_node(nth_id(c, 2)) matches Some(m) && is_array_var_decl(
                    m,
                    nth_id(c, 2),
                    nth_id(c, 1),
                    location,
                ))
                &&& forall|j: int|
                    #![trigger items@[j]]
                    0 <= j < n ==> array_element_lowered(final(self).hir(), c, j, items@[j], location)
                &&& (final(self).hir().spec_node(nth_id(c, 3 * n + 3)) matches Some(m) && is_array_var_ref(
                    m,
                    nth_id(c, 3 * n + 3),
                    nth_id(c, 2),
                    location,
                ))
                &&& final(self).hir().spec_node(nth_id(c, 3 * n + 4)) == Some(Node::Statement(Statement {
                    id: nth_id(c, 3 * n + 4),
                    location,
                    kind: StatementKind::Final(Final { id: nth_id(c, 3 * n + 4), value: nth_id(c, 3 * n + 3), location }),
                }))
                &&& (final(self).hir().spec_node(r) matches Some(m) && is_scope_expr(
                    m,
                    r,
                    nth_id(c, 3 * n + 6),
                    array_body(c, n),
                    location,
                ))
                &&& only_changed(old(self).hir(), final(self).hir(), id_range(c, 1, 3 * n + 6))
                &&& final(self).diagnostics() == old(self).diagnostics()
            }),
    {
        let ghost h0 = self.map;
        let ghost c = self.current_node;
        let ghost n = items.len() as int;
        let new_id = next_id_of(self.current_node);
        self.store_next(
            Node::Expression(Expression {
                id: new_id,
                location,
                kind: ExpressionKind::StaticCall(StaticCall { id: new_id, name: array_new, arguments: Vec::new(), location }),
            }),
        );
        let ghost h1 = self.map;
        let decl_id = next_id_of(self.current_node);
        self.store_next(
            Node::Statement(Statement {
                id: decl_id,
                location,
                kind: StatementKind::Variable(VariableDeclaration {
                    id: decl_id,
                    name: Identifier::from_str("!array"),
                    declared_type: None,
                    value: new_id,
                    location,
                }),
            }),
        );
        proof {
            lemma_only_changed_trans(h0, h1, self.map, set![nth_id(c, 1)], set![nth_id(c, 2)]);
            assert(id_range(c, 1, 3) =~= set![nth_id(c, 1)].union(set![nth_id(c, 2)]));
            assert(self.map.spec_node(nth_id(c, 1)) == h1.spec_node(nth_id(c, 1)));
        }
        let mut body: Vec<NodeId> = Vec::new();
        body.push(decl_id);
        let mut i: usize = 0;
        while i < items.len()
            invariant
                i <= items.len(),
                n == items.len(),
                c.index + 3 * n + 6 <= u64::MAX,
                new_id == nth_id(c, 1),
                decl_id == nth_id(c, 2),
                self.well_formed(),
                self.current() == nth_id(c, 2 + 3 * i),
                body@ == seq![nth_id(c, 2)] + Seq::new(i as nat, |j: int| nth_id(c, 5 + 3 * j)),
                self.hir().spec_node(nth_id(c, 1)) matches Some(m) && is_argless_static_call(
                    m,
                    nth_id(c, 1),
                    array_new,
                    location,
                ),
                self.hir().spec_node(nth_id(c, 2)) matches Some(m) && is_array_var_decl(
                    m,
                    nth_id(c, 2),
                    nth_id(c, 1),
                    location,
                ),
                forall|j: int|
                    #![trigger items@[j]]
                    0 <= j < i ==> array_element_lowered(self.hir(), c, j, items@[j], location),
                only_changed(h0, self.hir(), id_range(c, 1, 3 + 3 * i)),
                self.diagnostics() == old(self).diagnostics(),
            decreases items.len() - i,
        {
            let ghost hs = self.map;
            let item = items[i];
            let ref_id = next_id_of(self.current_node);
            self.store_next(
                Node::Expression(Expression {
                    id: ref_id,
                    location,
                    kind: ExpressionKind::Variable(Variable {
                        id: ref_id,
                        reference: VariableSource::Variable(decl_id),
                        name: Identifier::from_str("!array"),
                        location,
                    }),
                }),
            );
            let ghost ha = self.map;
            let call_id = next_id_of(self.current_node);
            let mut arguments: Vec<NodeId> = Vec::new();
            arguments.push(item);
            self.store_next(
                Node::Expression(Expression {
                    id: call_id,
                    location,
                    kind: ExpressionKind::InstanceCall(InstanceCall {
                        id: call_id,
                        callee: ref_id,
                        name: PathSegment::callable(Identifier::from_str("push")),
                        arguments,
                        bound_types: Vec::new(),
                        location,
                    }),
                }),
            );
            let ghost hb = self.map;
            let push_id = next_id_of(self.current_node);
            self.store_next(
                Node::Statement(Statement { id: push_id, location, kind: StatementKind::Expression(call_id) }),
            );
            body.push(push_id);
            proof {
                let k = 3 + 3 * (i as int);
                lemma_only_changed_trans(hs, ha, hb, set![nth_id(c, k)], set![nth_id(c, k + 1)]);
                lemma_only_changed_trans(hs, hb, self.map, set![nth_id(c, k)].union(set![nth_id(c, k + 1)]), set![nth_id(c, k + 2)]);
                lemma_only_changed_trans(
                    h0,
                    hs,
                    self.map,
                    id_range(c, 1, k),
                    set![nth_id(c, k)].union(set![nth_id(c, k + 1)]).union(set![nth_id(c, k + 2)]),
                );
                assert(id_range(c, 1, k + 3) =~= id_range(c, 1, k).union(
                    set![nth_id(c, k)].union(set![nth_id(c, k + 1)]).union(set![nth_id(c, k + 2)]),
                ));
                assert(self.map.spec_node(nth_id(c, k)) == ha.spec_node(nth_id(c, k)));
                assert(self.map.spec_node(nth_id(c, k + 1)) == hb.spec_node(nth_id(c, k + 1)));
                assert(array_element_lowered(self.map, c, i as int, items@[i as int], location));
                assert forall|j: int|
                    #![trigger items@[j]]
                    0 <= j < i + 1 implies array_element_lowered(self.hir(), c, j, items@[j], location) by {
                    if j < i {
                        assert(array_element_lowered(hs, c, j, items@[j], location));
                        assert(self.map.spec_node(nth_id(c, 3 + 3 * j)) == hs.spec_node(nth_id(c, 3 + 3 * j)));
                        assert(self.map.spec_node(nth_id(c, 4 + 3 * j)) == hs.spec_node(nth_id(c, 4 + 3 * j)));
                        assert(self.map.spec_node(nth_id(c, 5 + 3 * j)) == hs.spec_node(nth_id(c, 5 + 3 * j)));
                    }
                }
                assert(self.map.spec_node(nth_id(c, 1)) == hs.spec_node(nth_id(c, 1)));
                assert(self.map.spec_node(nth_id(c, 2)) == hs.spec_node(nth_id(c, 2)));
                assert(body@ =~= seq![nth_id(c, 2)] + Seq::new((i + 1) as nat, |j: int| nth_id(c, 5 + 3 * j)));
            }
            i = i + 1;
        }
        let ghost hl = self.map;
        let ref_id = next_id_of(self.current_node);
        self.store_next(
            Node::Expression(Expression {
                id: ref_id,
                location,
                kind: ExpressionKind::Variable(Variable {
                    id: ref_id,
                    reference: VariableSource::Variable(decl_id),
                    name: Identifier::from_str("!array"),
                    location,
                }),
            }),
        );
        let ghost hr = self.map;
        let res_id = next_id_of(self.current_node);
        self.store_next(
            Node::Statement(Statement {
                id: res_id,
                location,
                kind: StatementKind::Final(Final { id: res_id, value: ref_id, location }),
            }),
        );
        body.push(res_id);
        proof {
            assert(body@ =~= array_body(c, n));
        }
        let ghost hf = self.map;
        let expr_id = self.next_node_id();
        let scope_id = self.next_node_id();
        self.store(
            expr_id,
            Node::Expression(Expression {
                id: expr_id,
                location,
                kind: ExpressionKind::Scope(Scope { id: scope_id, body, unsafe_: false, location }),
            }),
        );
        proof {
            let k = 3 * n + 3;
            lemma_only_changed_trans(hl, hr, hf, set![nth_id(c, k)], set![nth_id(c, k + 1)]);
            lemma_only_changed_trans(hl, hf, self.map, set![nth_id(c, k)].union(set![nth_id(c, k + 1)]), set![nth_id(c, k + 2)]);
            lemma_only_changed_trans(
                h0,
                hl,
                self.map,
                id_range(c, 1, k),
                set![nth_id(c, k)].union(set![nth_id(c, k + 1)]).union(set![nth_id(c, k + 2)]),
            );
            assert(id_range(c, 1, k + 3) =~= id_range(c, 1, k).union(
                set![nth_id(c, k)].union(set![nth_id(c, k + 1)]).union(set![nth_id(c, k + 2)]),
            ));
            assert(self.map.spec_node(nth_id(c, k)) == hr.spec_node(nth_id(c, k)));
            assert(self.map.spec_node(nth_id(c, k + 1)) == hf.spec_node(nth_id(c, k + 1)));
            assert(self.map.spec_node(nth_id(c, 1)) == hl.spec_node(nth_id(c, 1)));
            assert(self.map.spec_node(nth_id(c, 2)) == hl.spec_node(nth_id(c, 2)));
            assert forall|j: int|
                #![trigger items@[j]]
                0 <= j < n implies array_element_lowered(self.hir(), c, j, items@[j], location) by {
                assert(array_element_lowered(hl, c, j, items@[j], location));
                assert(self.map.spec_node(nth_id(c, 3 + 3 * j)) == hl.spec_node(nth_id(c, 3 + 3 * j)));
                assert(self.map.spec_node(nth_id(c, 4 + 3 * j)) == hl.spec_node(nth_id(c, 4 + 3 * j)));
                assert(self.map.spec_node(nth_id(c, 5 + 3 * j)) == hl.spec_node(nth_id(c, 5 + 3 * j)));
            }
        }
        expr_id
    }
}

/// The identifier which follows `id` within its package.
fn next_id_of(id: NodeId) -> (r: NodeId)
    requires
        id.index < u64::MAX,
    ensures
        r == next_id(id),
{
    NodeId::new(id.package, id.index + 1)
}

} // verus!

verus! {

/// What an attribute does to the item it is written on.
pub enum AttrAction {
    /// The attribute is kept on the item.
    Keep,
    /// The item is defined as the language item with this key.
    DefineLangItem { name: Seq<char> },
    /// A `lang_item` attribute without a `name` argument.
    MissingName { location: Location },
    /// A `lang_item` attribute whose name is no string.
    InvalidNameType { location: Location },
    /// An attribute which the compiler does not know.
    Unknown { location: Location },
}

/// The position of the first argument called `name`, if any.
pub open spec fn first_named(args: Seq<AttrArgument>, name: Seq<char>) -> Option<int>
    decreases args.len(),
{
    if args.len() == 0 {
        None
    } else if args[0].name.name@ == name {
        Some(0)
    } else {
        match first_named(args.drop_first(), name) {
            Some(i) => Some(i + 1),
            None => None,
        }
    }
}

/// What the attribute does: `lang_item` defines the language item named by
/// its first `name` argument, which must be a string; `external` and
/// `intrinsic` are kept; any other attribute is unknown.
pub open spec fn attr_action(a: Attribute) -> AttrAction {
    if a.name.name@ == "lang_item"@ {
        match first_named(a.arguments@, "name"@) {
            None => AttrAction::MissingName { location: a.location },
            Some(i) => match a.arguments@[i].value.kind {
                LiteralKind::String(s) => AttrAction::DefineLangItem { name: s.value@ },
                _ => AttrAction::InvalidNameType { location: a.arguments@[i].value.location },
            },
        }
    } else if a.name.name@ == "external"@ || a.name.name@ == "intrinsic"@ {
        AttrAction::Keep
    } else {
        AttrAction::Unknown { location: a.location }
    }
}

/// The language items, problems and kept attributes after handling the
/// attributes of an item, one after the other.
pub struct AttrsOutcome {
    pub items: Map<LangItem, NodeId>,
    pub errors: Seq<LoweringErrorView>,
    pub kept: Seq<Attribute>,
}

/// The outcome of handling `attrs` on the item `node`, starting from the
/// language items `items`.
pub open spec fn attrs_outcome(items: Map<LangItem, NodeId>, attrs: Seq<Attribute>, node: NodeId) -> AttrsOutcome
    decreases attrs.len(),
{
    if attrs.len() == 0 {
        AttrsOutcome { items, errors: seq![], kept: seq![] }
    } else {
        let prev = attrs_outcome(items, attrs.drop_last(), node);
        let a = attrs.last();
        match attr_action(a) {
            AttrAction::Keep => AttrsOutcome { items: prev.items, errors: prev.errors, kept: prev.kept.push(a) },
            AttrAction::DefineLangItem { name } => match spec_from_name(name) {
                None => AttrsOutcome {
                    items: prev.items,
                    errors: prev.errors.push(LoweringErrorView::UnknownLangItem { name }),
                    kept: prev.kept,
                },
                Some(item) => AttrsOutcome {
                    items: prev.items.insert(item, node),
                    errors: if prev.items.contains_key(item) {
                        prev.errors.push(
                            LoweringErrorView::DuplicateLangItem { item, existing: prev.items[item], replaced_with: node },
                        )
                    } else {
                        prev.errors
                    },
                    kept: prev.kept,
                },
            },
            AttrAction::MissingName { location } => AttrsOutcome {
                items: prev.items,
                errors: prev.errors.push(LoweringErrorView::LangItemMissingName { location }),
                kept: prev.kept,
            },
            AttrAction::InvalidNameType { location } => AttrsOutcome {
                items: prev.items,
                errors: prev.errors.push(LoweringErrorView::LangItemInvalidNameType { location }),
                kept: prev.kept,
            },
            AttrAction::Unknown { location } => AttrsOutcome {
                items: prev.items,
                errors: prev.errors.push(LoweringErrorView::UnknownAttribute { location }),
                kept: prev.kept,
            },
        }
    }
}

/// The position of the first argument called `name`, if any.
fn find_named(args: &Vec<AttrArgument>, name: &str) -> (r: Option<usize>)
    ensures
        match first_named(args@, name@) {
            Some(i) => r is Some && r->0 as int == i && i < args@.len(),
            None => r is None,
        },
{
    let mut i: usize = 0;
    proof {
        assert(args@.subrange(0, args@.len() as int) =~= args@);
    }
    while i < args.len()
        invariant
            i <= args@.len(),
            first_named(args@, name@) == match first_named(args@.subrange(i as int, args@.len() as int), name@) {
                Some(k) => Some(k + i),
                None => None,
            },
        decreases args.len() - i,
    {
        proof {
            let rest = args@.subrange(i as int, args@.len() as int);
            assert(rest.drop_first() =~= args@.subrange(i + 1, args@.len() as int));
        }
        if str_eq(args[i].name.as_str(), name) {
            return Some(i);
        }
        i = i + 1;
    }
    None
}

/// The problem which a refused language item definition reports.
fn lang_item_error(e: LangItemError) -> (r: LoweringError)
    ensures
        r.view() == match e {
            LangItemError::AlreadyExists { item, existing, replaced_with } => LoweringErrorView::DuplicateLangItem {
                item,
                existing,
                replaced_with,
            },
            LangItemError::UnknownName { name } => LoweringErrorView::UnknownLangItem { name: name@ },
        },
{
    match e {
        LangItemError::AlreadyExists { item, existing, replaced_with } => LoweringError::DuplicateLangItem {
            item,
            existing,
            replaced_with,
        },
        LangItemError::UnknownName { name } => LoweringError::UnknownLangItem { name },
    }
}

impl LoweringContext {
    /// Records a problem.
    fn emit(&mut self, e: LoweringError)
        ensures
            final(self).diagnostics() == old(self).diagnostics().push(e.view()),
            final(self).hir() == old(self).hir(),
            final(self).current() == old(self).current(),
    {
        let ghost before = self.diagnostics@;
        self.diagnostics.push(e);
        proof {
            assert(errors_view(self.diagnostics@) =~= errors_view(before).push(e.view()));
        }
    }

    /// Handles the attributes of the item which was handed the current
    /// identifier: language items are defined as that item, problems are
    /// recorded, and the attributes which stay on the item are returned.
    pub fn attributes(&mut self, attrs: Vec<Attribute>) -> (r: Vec<Attribute>)
        requires
            old(self).well_formed(),
        ensures
            final(self).well_formed(),
            r@ == attrs_outcome(old(self).hir().lang_items@, attrs@, old(self).current()).kept,
            final(self).hir().lang_items@ == attrs_outcome(
                old(self).hir().lang_items@,
                attrs@,
                old(self).current(),
            ).items,
            final(self).diagnostics() == old(self).diagnostics() + attrs_outcome(
                old(self).hir().lang_items@,
                attrs@,
                old(self).current(),
            ).errors,
            final(self).hir().nodes == old(self).hir().nodes,
            final(self).hir().types == old(self).hir().types,
            final(self).hir().package == old(self).hir().package,
            final(self).hir().imports == old(self).hir().imports,
            final(self).current() == old(self).current(),
    {
        let current_node = self.current_node;
        let ghost items0 = self.map.lang_items@;
        let ghost diags0 = errors_view(self.diagnostics@);
        let ghost a0 = attrs@;
        let mut kept: Vec<Attribute> = Vec::new();
        proof {
            assert(diags0 + Seq::<LoweringErrorView>::empty() =~= diags0);
        }
        for attr in it: attrs
            invariant
                it.seq() == a0,
                self.map.well_formed(),
                self.current_node == current_node,
                self.map.nodes == old(self).map.nodes,
                self.map.types == old(self).map.types,
                self.map.package == old(self).map.package,
                self.map.imports == old(self).map.imports,
                kept@ == attrs_outcome(items0, a0.subrange(0, it.index() as int), current_node).kept,
                self.map.lang_items@ == attrs_outcome(items0, a0.subrange(0, it.index() as int), current_node).items,
                errors_view(self.diagnostics@) == diags0 + attrs_outcome(
                    items0,
                    a0.subrange(0, it.index() as int),
                    current_node,
                ).errors,
        {
            let ghost k = it.index();
            let ghost prev = attrs_outcome(items0, a0.subrange(0, k as int), current_node);
            proof {
                assert(attr == a0[k as int]);
                assert(a0.subrange(0, k + 1).drop_last() =~= a0.subrange(0, k as int));
                assert(a0.subrange(0, k + 1).last() == a0[k as int]);
            }
            let ghost next = attrs_outcome(items0, a0.subrange(0, k + 1), current_node);
            if str_eq(attr.name.as_str(), "lang_item") {
                proof {
                    reveal_strlit("lang_item");
                }
                match find_named(&attr.arguments, "name") {
                    None => {
                        self.emit(LoweringError::LangItemMissingName { location: attr.location });
                        proof {
                            assert(errors_view(self.diagnostics@) =~= diags0 + next.errors);
                        }
                    },
                    Some(i) => match &attr.arguments[i].value.kind {
                        LiteralKind::String(s) => {
                            match self.map.lang_items.add_name(s.value.as_str(), current_node) {
                                Ok(()) => {},
                                Err(e) => self.emit(lang_item_error(e)),
                            }
                            proof {
                                assert(errors_view(self.diagnostics@) =~= diags0 + next.errors);
                            }
                        },
                        _ => {
                            self.emit(LoweringError::LangItemInvalidNameType { location: attr.arguments[i].value.location });
                            proof {
                                assert(errors_view(self.diagnostics@) =~= diags0 + next.errors);
                            }
                        },
                    },
                }
            } else if str_eq(attr.name.as_str(), "external") || str_eq(attr.name.as_str(), "intrinsic") {
                proof {
                    reveal_strlit("lang_item");
                    reveal_strlit("external");
                    reveal_strlit("intrinsic");
                }
                kept.push(attr);
            } else {
                proof {
                    reveal_strlit("lang_item");
                    reveal_strlit("external");
                    reveal_strlit("intrinsic");
                }
                self.emit(LoweringError::UnknownAttribute { location: attr.location });
                proof {
                    assert(errors_view(self.diagnostics@) =~= diags0 + next.errors);
                }
            }
        }
        proof {
            assert(a0.subrange(0, a0.len() as int) =~= a0);
        }
        kept
    }
}

} // verus!

verus! {

/// The position of the last name before position `end` which equals
/// `name`, if any.
pub open spec fn last_before(names: Seq<Seq<char>>, end: int, name: Seq<char>) -> Option<int>
    decreases end,
{
    if end <= 0 {
        None
    } else if names[end - 1] == name {
        Some(end - 1)
    } else {
        last_before(names, end - 1, name)
    }
}

/// The duplicates in a series of names, in order: each name which was
/// seen before, with the position of the last earlier one.
pub open spec fn duplicates(names: Seq<Seq<char>>) -> Seq<(int, int)>
    decreases names.len(),
{
    if names.len() == 0 {
        seq![]
    } else {
        let i = names.len() - 1;
        let prev = duplicates(names.drop_last());
        match last_before(names, i, names[i]) {
            Some(j) => prev.push((i, j)),
            None => prev,
        }
    }
}

/// The texts of a list of strings.
pub open spec fn texts(names: Seq<String>) -> Seq<Seq<char>> {
    names.map_values(|s: String| s@)
}

/// `last_before` only looks at names before `end`.
proof fn lemma_last_before_prefix(names: Seq<Seq<char>>, shorter: Seq<Seq<char>>, end: int, name: Seq<char>)
    requires
        0 <= end <= shorter.len() <= names.len(),
        forall|k: int| 0 <= k < shorter.len() ==> shorter[k] == names[k],
    ensures
        last_before(names, end, name) == last_before(shorter, end, name),
    decreases end,
{
    if end > 0 {
        lemma_last_before_prefix(names, shorter, end - 1, name);
    }
}

/// Finds the names of a series which were seen before, each with the
/// position of the last earlier one with the same name.
pub fn ensure_unique_series(names: &Vec<String>) -> (r: Vec<(usize, usize)>)
    ensures
        r@.len() == duplicates(texts(names@)).len(),
        forall|k: int| 0 <= k < r@.len() ==> (#[trigger] r@[k]).0 as int == duplicates(texts(names@))[k].0
            && r@[k].1 as int == duplicates(texts(names@))[k].1,
{
    let ghost all = texts(names@);
    let mut r: Vec<(usize, usize)> = Vec::new();
    let mut i: usize = 0;
    while i < names.len()
        invariant
            i <= names@.len(),
            all == texts(names@),
            all.len() == names@.len(),
            r@.len() == duplicates(all.subrange(0, i as int)).len(),
            forall|k: int| 0 <= k < r@.len() ==> (#[trigger] r@[k]).0 as int == duplicates(
                all.subrange(0, i as int),
            )[k].0 && r@[k].1 as int == duplicates(all.subrange(0, i as int))[k].1,
        decreases names.len() - i,
    {
        let ghost sub = all.subrange(0, i + 1);
        proof {
            assert(sub.drop_last() =~= all.subrange(0, i as int));
            assert(sub[i as int] == names@[i as int]@);
            lemma_last_before_prefix(all, sub, i as int, sub[i as int]);
        }
        let mut j: usize = i;
        let mut found: Option<usize> = None;
        while j > 0 && found.is_none()
            invariant
                j <= i < names@.len(),
                all == texts(names@),
                all.len() == names@.len(),
                found matches Some(p) ==> last_before(all, i as int, all[i as int]) == Some(p as int),
                found is None ==> last_before(all, i as int, all[i as int]) == last_before(
                    all,
                    j as int,
                    all[i as int],
                ),
            decreases j + if found is None {
                1int
            } else {
                0int
            },
        {
            if str_eq(names[j - 1].as_str(), names[i].as_str()) {
                found = Some(j - 1);
            } else {
                j = j - 1;
            }
        }
        let ghost before = r@;
        match found {
            Some(p) => {
                r.push((i, p));
            },
            None => {},
        }
        proof {
            assert(r@.len() == duplicates(sub).len());
            assert forall|k: int| 0 <= k < r@.len() implies (#[trigger] r@[k]).0 as int == duplicates(sub)[k].0
                && r@[k].1 as int == duplicates(sub)[k].1 by {
                if k < before.len() {
                    assert(r@[k] == before[k]);
                }
            }
        }
        i = i + 1;
    }
    proof {
        assert(all.subrange(0, names@.len() as int) =~= all);
    }
    r
}

} // verus!

verus! {

/// The text with every leading `/// ` taken off.
pub open spec fn strip_doc_markers(s: Seq<char>) -> Seq<char>
    decreases s.len(),
{
    if s.len() >= 4 && s.subrange(0, 4) == "/// "@ {
        strip_doc_markers(s.subrange(4, s.len() as int))
    } else {
        s
    }
}

/// The lines joined with a line break between them.
pub open spec fn join_lines(lines: Seq<Seq<char>>) -> Seq<char>
    decreases lines.len(),
{
    if lines.len() == 0 {
        seq![]
    } else if lines.len() == 1 {
        lines[0]
    } else {
        join_lines(lines.drop_last()) + "\n"@ + lines.last()
    }
}

/// The documentation which doc comments give an item: their texts without
/// the leading `/// `, one per line; none when that is empty.
pub open spec fn documentation_of(comments: Seq<Seq<char>>) -> Option<Seq<char>> {
    let text = join_lines(comments.map_values(|c: Seq<char>| strip_doc_markers(c)));
    if text.len() == 0 {
        None
    } else {
        Some(text)
    }
}

/// Whether `/// ` starts at character `k` of the text.
fn marker_at(s: &str, k: usize, n: usize) -> (r: bool)
    requires
        k <= n,
        n == s@.len(),
    ensures
        r == (n - k >= 4 && s@.subrange(k as int, k + 4) == "/// "@),
{
    proof {
        reveal_strlit("/// ");
    }
    if n - k < 4 {
        return false;
    }
    let r = s.get_char(k) == '/' && s.get_char(k + 1) == '/' && s.get_char(k + 2) == '/' && s.get_char(k + 3) == ' ';
    proof {
        let w = s@.subrange(k as int, k + 4);
        if r {
            assert(w =~= "/// "@);
        } else if w == "/// "@ {
            assert(w[0] == s@[k as int] && w[1] == s@[k + 1] && w[2] == s@[k + 2] && w[3] == s@[k + 3]);
        }
    }
    r
}

/// Appends the text of a doc comment without its leading `/// ` markers.
fn append_stripped(out: &mut String, comment: &str)
    ensures
        final(out)@ == old(out)@ + strip_doc_markers(comment@),
{
    let n = comment.unicode_len();
    let mut k: usize = 0;
    proof {
        assert(comment@.subrange(0, n as int) =~= comment@);
    }
    while marker_at(comment, k, n)
        invariant
            k <= n,
            n == comment@.len(),
            strip_doc_markers(comment@) == strip_doc_markers(comment@.subrange(k as int, n as int)),
        decreases n - k,
    {
        proof {
            let rest = comment@.subrange(k as int, n as int);
            assert(rest.subrange(0, 4) =~= comment@.subrange(k as int, k + 4));
            assert(rest.subrange(4, rest.len() as int) =~= comment@.subrange(k + 4, n as int));
        }
        k = k + 4;
    }
    proof {
        let rest = comment@.subrange(k as int, n as int);
        if rest.len() >= 4 {
            assert(rest.subrange(0, 4) =~= comment@.subrange(k as int, k + 4));
        }
    }
    out.append(comment.substring_char(k, n));
}

/// The documentation which doc comments give an item: their texts without
/// the leading `/// `, one per line; none when that is empty.
#[verifier::spinoff_prover]
pub fn documentation(comments: &Vec<String>) -> (r: Option<String>)
    ensures
        match documentation_of(comments@.map_values(|c: String| c@)) {
            Some(text) => r matches Some(s) && s@ == text,
            None => r is None,
        },
{
    let ghost texts = comments@.map_values(|c: String| c@);
    let ghost lines = texts.map_values(|c: Seq<char>| strip_doc_markers(c));
    let mut out = String::new();
    let mut i: usize = 0;
    while i < comments.len()
        invariant
            i <= comments@.len(),
            texts == comments@.map_values(|c: String| c@),
            lines == texts.map_values(|c: Seq<char>| strip_doc_markers(c)),
            out@ == join_lines(lines.subrange(0, i as int)),
        decreases comments.len() - i,
    {
        let ghost sub = lines.subrange(0, i + 1);
        let ghost before = out@;
        proof {
            assert(sub.drop_last() =~= lines.subrange(0, i as int));
            assert(sub.last() == strip_doc_markers(comments@[i as int]@));
        }
        if i > 0 {
            let newline = "\n";
            proof {
                reveal_strlit("\n");
            }
            out.append(newline);
        }
        append_stripped(&mut out, comments[i].as_str());
        proof {
            if i == 0 {
                assert(sub.len() == 1);
                assert(out@ =~= join_lines(sub));
            } else {
                assert(out@ =~= before + "\n"@ + sub.last());
                assert(out@ =~= join_lines(sub));
            }
        }
        i = i + 1;
    }
    proof {
        assert(lines.subrange(0, comments@.len() as int) =~= lines);
    }
    if out.unicode_len() == 0 {
        None
    } else {
        Some(out)
    }
}

/// The visibility which the modifiers of an item give it: `pub internal`
/// is internal, `pub` alone public, and anything else private.
pub fn visibility(modifiers: Option<(bool, bool)>) -> (r: crate::hir::node::Visibility)
    ensures
        r == match modifiers {
            Some((true, true)) => crate::hir::node::Visibility::Internal,
            Some((true, false)) => crate::hir::node::Visibility::Public,
            _ => crate::hir::node::Visibility::Private,
        },
{
    match modifiers {
        None => crate::hir::node::Visibility::Private,
        Some((has_pub, has_internal)) => if has_pub && has_internal {
            crate::hir::node::Visibility::Internal
        } else if has_pub {
            crate::hir::node::Visibility::Public
        } else {
            crate::hir::node::Visibility::Private
        },
    }
}

/// Whether an item is `const`: whenever the modifier was written.
pub fn constness(written: bool) -> (r: crate::hir::node::Constness)
    ensures
        r == if written {
            crate::hir::node::Constness::Const
        } else {
            crate::hir::node::Constness::NotConst
        },
{
    if written {
        crate::hir::node::Constness::Const
    } else {
        crate::hir::node::Constness::NotConst
    }
}

/// The text with every leading and trailing `"` taken off.
pub open spec fn trim_quotes(s: Seq<char>) -> Seq<char>
    decreases s.len(),
{
    if s.len() > 0 && s[0] == '"' {
        trim_quotes(s.drop_first())
    } else if s.len() > 0 && s.last() == '"' {
        trim_quotes(s.drop_last())
    } else {
        s
    }
}

/// The value of a string literal: its text without the quotes around it.
pub fn string_literal_value(text: &str) -> (r: String)
    ensures
        r@ == trim_quotes(text@),
{
    let n = text.unicode_len();
    let mut start: usize = 0;
    let mut end: usize = n;
    proof {
        assert(text@.subrange(0, n as int) =~= text@);
    }
    while start < end && (text.get_char(start) == '"' || text.get_char(end - 1) == '"')
        invariant
            start <= end <= n,
            n == text@.len(),
            trim_quotes(text@) == trim_quotes(text@.subrange(start as int, end as int)),
        decreases end - start,
    {
        let ghost s = text@.subrange(start as int, end as int);
        if text.get_char(start) == '"' {
            proof {
                assert(s.drop_first() =~= text@.subrange(start + 1, end as int));
            }
            start = start + 1;
        } else {
            proof {
                assert(s.drop_last() =~= text@.subrange(start as int, end - 1));
            }
            end = end - 1;
        }
    }
    text.substring_char(start, end).to_string()
}

/// The value of a boolean literal: whether its text is `true`.
pub fn boolean_literal_value(text: &str) -> (r: bool)
    ensures
        r == (text@ == "true"@),
{
    str_eq(text, "true")
}

} // verus!

verus! {

/// The text without its `_` separators.
pub open spec fn without_underscores(s: Seq<char>) -> Seq<char>
    decreases s.len(),
{
    if s.len() == 0 {
        seq![]
    } else if s.last() == '_' {
        without_underscores(s.drop_last())
    } else {
        without_underscores(s.drop_last()).push(s.last())
    }
}

/// The value of a digit: `0`-`9`, then `a`-`z` or `A`-`Z` from ten on.
pub open spec fn digit_value(c: char) -> Option<nat> {
    if '0' <= c && c <= '9' {
        Some((c as nat - 48) as nat)
    } else if 'a' <= c && c <= 'z' {
        Some((c as nat - 87) as nat)
    } else if 'A' <= c && c <= 'Z' {
        Some((c as nat - 55) as nat)
    } else {
        None
    }
}

/// The value of a series of digits in a radix; `None` when one of them is
/// no digit of the radix.
pub open spec fn digits_value(s: Seq<char>, radix: nat) -> Option<nat>
    decreases s.len(),
{
    if s.len() == 0 {
        Some(0)
    } else {
        match (digits_value(s.drop_last(), radix), digit_value(s.last())) {
            (Some(v), Some(d)) => if d < radix {
                Some(v * radix + d)
            } else {
                None
            },
            _ => None,
        }
    }
}

/// The value of an integer in a radix, as `i128::from_str_radix` reads
/// it: an optional sign, then at least one digit; `None` when a character
/// is no digit or the value does not fit.
pub open spec fn parse_i128(s: Seq<char>, radix: nat) -> Option<int> {
    let neg = s.len() > 0 && s[0] == '-';
    let digits = if s.len() > 0 && (s[0] == '-' || s[0] == '+') {
        s.drop_first()
    } else {
        s
    };
    if digits.len() == 0 {
        None
    } else {
        match digits_value(digits, radix) {
            Some(v) => {
                let x = if neg {
                    -v
                } else {
                    v as int
                };
                if i128::MIN <= x && x <= i128::MAX {
                    Some(x)
                } else {
                    None
                }
            },
            None => None,
        }
    }
}

/// A digit which is not one leaves the whole series without a value.
proof fn lemma_digits_prefix_none(s: Seq<char>, k: int, radix: nat)
    requires
        0 <= k <= s.len(),
        digits_value(s.subrange(0, k), radix) is None,
    ensures
        digits_value(s, radix) is None,
    decreases s.len() - k,
{
    if k == s.len() {
        assert(s.subrange(0, k) =~= s);
    } else {
        assert(s.drop_last().subrange(0, k) =~= s.subrange(0, k));
        lemma_digits_prefix_none(s.drop_last(), k, radix);
    }
}

/// More digits never make a smaller value.
proof fn lemma_digits_prefix_le(s: Seq<char>, k: int, radix: nat)
    requires
        0 <= k <= s.len(),
        radix >= 1,
        digits_value(s.subrange(0, k), radix) is Some,
        digits_value(s, radix) is Some,
    ensures
        digits_value(s.subrange(0, k), radix)->Some_0 <= digits_value(s, radix)->Some_0,
    decreases s.len() - k,
{
    if k == s.len() {
        assert(s.subrange(0, k) =~= s);
    } else {
        assert(s.drop_last().subrange(0, k) =~= s.subrange(0, k));
        let prev = digits_value(s.drop_last(), radix);
        lemma_digits_prefix_le(s.drop_last(), k, radix);
        let p = prev->Some_0;
        assert(p * radix >= p) by (nonlinear_arith)
            requires
                radix >= 1,
        ;
    }
}

/// The value of a digit in a radix, if it is one.
fn digit_in_radix(c: char, radix: u32) -> (r: Option<u32>)
    requires
        2 <= radix <= 36,
    ensures
        match digit_value(c) {
            Some(d) => if d < radix {
                r == Some(d as u32)
            } else {
                r is None
            },
            None => r is None,
        },
{
    let v = c as u32;
    let d = if '0' <= c && c <= '9' {
        v - 48
    } else if 'a' <= c && c <= 'z' {
        v - 87
    } else if 'A' <= c && c <= 'Z' {
        v - 55
    } else {
        return None;
    };
    if d < radix {
        Some(d)
    } else {
        None
    }
}

/// The characters of the text without its `_` separators.
fn strip_underscores(text: &str) -> (r: Vec<char>)
    ensures
        r@ == without_underscores(text@),
{
    let n = text.unicode_len();
    let mut cs: Vec<char> = Vec::new();
    let mut i: usize = 0;
    while i < n
        invariant
            i <= n,
            n == text@.len(),
            cs@ == without_underscores(text@.subrange(0, i as int)),
        decreases n - i,
    {
        let c = text.get_char(i);
        proof {
            let sub = text@.subrange(0, i + 1);
            assert(sub.drop_last() =~= text@.subrange(0, i as int));
            assert(sub.last() == c);
        }
        if c != '_' {
            cs.push(c);
        }
        i = i + 1;
    }
    proof {
        assert(text@.subrange(0, n as int) =~= text@);
    }
    cs
}

/// The value of an integer literal written in the given radix, with `_`
/// separators between its digits; `None` when it is no valid integer or
/// does not fit in 128 bits.
#[verifier::rlimit(40)]
pub fn int_literal_value(text: &str, radix: u32) -> (r: Option<i128>)
    requires
        2 <= radix <= 36,
    ensures
        match parse_i128(without_underscores(text@), radix as nat) {
            Some(v) => r == Some(v as i128),
            None => r is None,
        },
{
    let cs = strip_underscores(text);
    let ghost s = cs@;
    if cs.len() == 0 {
        return None;
    }
    let neg = cs[0] == '-';
    let start: usize = if cs[0] == '-' || cs[0] == '+' {
        1
    } else {
        0
    };
    if start == cs.len() {
        proof {
            assert(s.drop_first().len() == 0);
        }
        return None;
    }
    let ghost digits = s.subrange(start as int, s.len() as int);
    proof {
        if start == 1 {
            assert(digits =~= s.drop_first());
        } else {
            assert(digits =~= s);
        }
        assert(digits.subrange(0, 0) =~= Seq::<char>::empty());
    }
    let mut acc: i128 = 0;
    let ghost mut mag: nat = 0;
    let mut k: usize = start;
    while k < cs.len()
        invariant
            start <= k <= cs@.len(),
            s == cs@,
            s == without_underscores(text@),
            s.len() > 0,
            neg == (s[0] == '-'),
            start == (if s[0] == '-' || s[0] == '+' {
                1usize
            } else {
                0usize
            }),
            digits == (if s[0] == '-' || s[0] == '+' {
                s.drop_first()
            } else {
                s
            }),
            digits.len() > 0,
            2 <= radix <= 36,
            digits == s.subrange(start as int, s.len() as int),
            digits_value(digits.subrange(0, k - start), radix as nat) == Some(mag),
            acc as int == if neg {
                -mag
            } else {
                mag as int
            },
        decreases cs.len() - k,
    {
        let ghost pre = digits.subrange(0, k - start);
        let ghost next = digits.subrange(0, k + 1 - start);
        proof {
            assert(next.drop_last() =~= pre);
            assert(next.last() == cs@[k as int]);
        }
        let d = match digit_in_radix(cs[k], radix) {
            Some(d) => d,
            None => {
                proof {
                    lemma_digits_prefix_none(digits, k + 1 - start, radix as nat);
                }
                return None;
            },
        };
        let ghost new_mag: nat = mag * radix as nat + d as nat;
        proof {
            assert(digits_value(next, radix as nat) == Some(new_mag));
        }
        let r128 = radix as i128;
        let d128 = d as i128;
        let scaled = acc.checked_mul(r128);
        let step = match scaled {
            Some(m) => if neg {
                m.checked_sub(d128)
            } else {
                m.checked_add(d128)
            },
            None => None,
        };
        let ghost a = acc as int;
        let ghost mg = mag as int;
        let ghost rd = radix as int;
        let ghost dg = d as int;
        proof {
            assert(a * rd == (if neg {
                -(mg * rd)
            } else {
                mg * rd
            })) by (nonlinear_arith)
                requires
                    a == (if neg {
                        -mg
                    } else {
                        mg
                    }),
            ;
        }
        match step {
            Some(x) => {
                acc = x;
                proof {
                    mag = new_mag;
                }
            },
            None => {
                proof {
                    assert(if neg {
                        -(new_mag as int) < i128::MIN
                    } else {
                        new_mag > i128::MAX
                    });
                    match digits_value(digits, radix as nat) {
                        Some(v) => {
                            lemma_digits_prefix_le(digits, k + 1 - start, radix as nat);
                        },
                        None => {},
                    }
                }
                return None;
            },
        }
        k = k + 1;
    }
    proof {
        assert(digits.subrange(0, cs@.len() - start) =~= digits);
    }
    Some(acc)
}

} // verus!
