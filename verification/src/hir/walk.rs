//! The order in which the items of the HIR are visited.
//!
//! A walk starts at a node, statement, expression, pattern, type or path
//! and lists every item below it in pre-order: the item itself, then its
//! parts from left to right. Nodes which are stored in the map and only
//! referenced by their identifier are looked up and walked in turn.
use vstd::prelude::*;

use crate::hir::node::{
    Block, Condition, ConstructorField, EnumDefinitionCase, Expression, ExpressionKind, Field,
    FnSignature, MethodDefinition, Node, Parameter, Pattern, PatternKind, Statement,
    StatementKind, SwitchCase, TraitMethodDefinition, TraitMethodImplementation,
    TypeDefinition,
};
use crate::hir::path::{
    lemma_segments_view, lemma_types_view, path_view, segment_view, segments_view, type_view, types_view,
    Identifier, Path, PathSegment, PathView, SegmentView, Type, TypeView,
};
use crate::map::HirMap;
use crate::span::NodeId;

verus! {

/// What a visitor is shown of one visited item.
pub enum VisitEvent {
    Node(Node),
    Type(TypeView),
    Statement(Statement),
    Expression(Expression),
    Pattern(Pattern),
    Path(PathView),
    Identifier(Identifier),
}

/// One item to be shown to a visitor, borrowed from the HIR.
#[derive(Debug, Clone, Copy)]
pub enum VisitItem<'a> {
    Node(&'a Node),
    Type(&'a Type),
    Statement(&'a Statement),
    Expression(&'a Expression),
    Pattern(&'a Pattern),
    Path(&'a Path),
    Identifier(&'a Identifier),
}

impl<'a> VisitItem<'a> {
    /// The model of the item.
    pub open spec fn event(self) -> VisitEvent {
        match self {
            VisitItem::Node(n) => VisitEvent::Node(*n),
            VisitItem::Type(t) => VisitEvent::Type(type_view(*t)),
            VisitItem::Statement(s) => VisitEvent::Statement(*s),
            VisitItem::Expression(e) => VisitEvent::Expression(*e),
            VisitItem::Pattern(p) => VisitEvent::Pattern(*p),
            VisitItem::Path(p) => VisitEvent::Path(path_view(*p)),
            VisitItem::Identifier(i) => VisitEvent::Identifier(*i),
        }
    }
}

/// The models of a list of items.
pub open spec fn events_of<'a>(items: Seq<VisitItem<'a>>) -> Seq<VisitEvent> {
    items.map_values(|i: VisitItem<'a>| i.event())
}

// ---------------------------------------------------------------------------
// Types and paths, which hold everything they refer to.
// ---------------------------------------------------------------------------

/// The walk of a type: the type, then its path.
pub open spec fn type_events(t: TypeView) -> Seq<VisitEvent>
    decreases t,
{
    seq![VisitEvent::Type(t)] + path_events(t.name)
}

/// The walk of a path: the path, its root segments, then its last segment.
pub open spec fn path_events(p: PathView) -> Seq<VisitEvent>
    decreases p,
{
    seq![VisitEvent::Path(p)] + segments_events(p.root) + segment_events(p.name)
}

/// The walk of a path segment: its name, then its type arguments.
pub open spec fn segment_events(s: SegmentView) -> Seq<VisitEvent>
    decreases s,
{
    match s {
        SegmentView::Namespace { name } => seq![VisitEvent::Identifier(name)],
        SegmentView::Type { name, bound_types, .. } => seq![VisitEvent::Identifier(name)]
            + types_events(bound_types),
        SegmentView::Callable { name, bound_types, .. } => seq![VisitEvent::Identifier(name)]
            + types_events(bound_types),
        SegmentView::Variant { name, .. } => seq![VisitEvent::Identifier(name)],
        SegmentView::Missing => seq![],
    }
}

/// The walks of a list of segments, one after the other.
pub open spec fn segments_events(s: Seq<SegmentView>) -> Seq<VisitEvent>
    decreases s,
{
    if s.len() == 0 {
        seq![]
    } else {
        segments_events(s.drop_last()) + segment_events(s.last())
    }
}

/// The walks of a list of types, one after the other.
pub open spec fn types_events(s: Seq<TypeView>) -> Seq<VisitEvent>
    decreases s,
{
    if s.len() == 0 {
        seq![]
    } else {
        types_events(s.drop_last()) + type_events(s.last())
    }
}

// ---------------------------------------------------------------------------
// Which references a walk follows, and when it is sure to end.
// ---------------------------------------------------------------------------

/// `id` refers to a statement of the map, ranked below `b`.
pub open spec fn stmt_ok(m: HirMap, rank: spec_fn(NodeId) -> nat, id: NodeId, b: nat) -> bool {
    rank(id) < b && m.spec_statement(id) is Some
}

/// `id` refers to an expression of the map, ranked below `b`.
pub open spec fn expr_ok(m: HirMap, rank: spec_fn(NodeId) -> nat, id: NodeId, b: nat) -> bool {
    rank(id) < b && m.spec_expression(id) is Some
}

/// `id` refers to a pattern of the map, ranked below `b`.
pub open spec fn pattern_ok(m: HirMap, rank: spec_fn(NodeId) -> nat, id: NodeId, b: nat) -> bool {
    rank(id) < b && m.spec_pattern(id) is Some
}

/// `id` refers to a node of the map, ranked below `b`.
pub open spec fn node_ok(m: HirMap, rank: spec_fn(NodeId) -> nat, id: NodeId, b: nat) -> bool {
    rank(id) < b && m.spec_node(id) is Some
}

/// Every identifier refers to a statement ranked below `b`.
pub open spec fn stmts_ok(m: HirMap, rank: spec_fn(NodeId) -> nat, ids: Seq<NodeId>, b: nat) -> bool {
    forall|i: int| 0 <= i < ids.len() ==> stmt_ok(m, rank, #[trigger] ids[i], b)
}

/// Every identifier refers to an expression ranked below `b`.
pub open spec fn exprs_ok(m: HirMap, rank: spec_fn(NodeId) -> nat, ids: Seq<NodeId>, b: nat) -> bool {
    forall|i: int| 0 <= i < ids.len() ==> expr_ok(m, rank, #[trigger] ids[i], b)
}

/// Every identifier refers to a pattern ranked below `b`.
pub open spec fn patterns_ok(m: HirMap, rank: spec_fn(NodeId) -> nat, ids: Seq<NodeId>, b: nat) -> bool {
    forall|i: int| 0 <= i < ids.len() ==> pattern_ok(m, rank, #[trigger] ids[i], b)
}

/// Every identifier refers to a node ranked below `b`.
pub open spec fn nodes_ok(m: HirMap, rank: spec_fn(NodeId) -> nat, ids: Seq<NodeId>, b: nat) -> bool {
    forall|i: int| 0 <= i < ids.len() ==> node_ok(m, rank, #[trigger] ids[i], b)
}

/// Every type parameter identifier refers to a node of the map.
pub open spec fn type_params_ok(m: HirMap, ids: Seq<NodeId>) -> bool {
    forall|i: int| 0 <= i < ids.len() ==> (#[trigger] m.spec_node(ids[i])) is Some
}

/// The statements of a block, if there is one, are ranked below `b`.
pub open spec fn opt_block_ok(m: HirMap, rank: spec_fn(NodeId) -> nat, blk: Option<Block>, b: nat) -> bool {
    match blk {
        Some(k) => stmts_ok(m, rank, k.statements@, b),
        None => true,
    }
}

/// The references which the walk of a statement follows are sound.
pub open spec fn stmt_refs_ok(m: HirMap, rank: spec_fn(NodeId) -> nat, s: Statement, b: nat) -> bool {
    match s.kind {
        StatementKind::Variable(d) => expr_ok(m, rank, d.value, b),
        StatementKind::Break(_) => true,
        StatementKind::Continue(_) => true,
        StatementKind::Final(f) => expr_ok(m, rank, f.value, b),
        StatementKind::Return(r) => match r.value {
            Some(v) => expr_ok(m, rank, v, b),
            None => true,
        },
        StatementKind::InfiniteLoop(l) => stmts_ok(m, rank, l.block.statements@, b),
        StatementKind::Expression(e) => expr_ok(m, rank, e, b),
    }
}

/// The value expressions of constructor fields.
pub open spec fn field_values(fields: Seq<ConstructorField>) -> Seq<NodeId> {
    fields.map_values(|f: ConstructorField| f.value)
}

/// The condition and the block of an `if` case refer to sound items.
pub open spec fn condition_ok(m: HirMap, rank: spec_fn(NodeId) -> nat, c: Condition, b: nat) -> bool {
    &&& match c.condition {
        Some(x) => expr_ok(m, rank, x, b),
        None => true,
    }
    &&& stmts_ok(m, rank, c.block.statements@, b)
}

/// Every case of an `if` refers to sound items.
pub open spec fn conditions_ok(m: HirMap, rank: spec_fn(NodeId) -> nat, cs: Seq<Condition>, b: nat) -> bool {
    forall|k: int| 0 <= k < cs.len() ==> condition_ok(m, rank, #[trigger] cs[k], b)
}

/// The pattern and the branch of a `switch` case refer to sound items.
pub open spec fn switch_case_ok(m: HirMap, rank: spec_fn(NodeId) -> nat, c: SwitchCase, b: nat) -> bool {
    pattern_ok(m, rank, c.pattern, b) && expr_ok(m, rank, c.branch, b)
}

/// Every case of a `switch` refers to sound items.
pub open spec fn switch_cases_ok(m: HirMap, rank: spec_fn(NodeId) -> nat, cs: Seq<SwitchCase>, b: nat) -> bool {
    forall|k: int| 0 <= k < cs.len() ==> switch_case_ok(m, rank, #[trigger] cs[k], b)
}

/// The references which the walk of an expression follows are sound.
pub open spec fn expr_refs_ok(m: HirMap, rank: spec_fn(NodeId) -> nat, e: Expression, b: nat) -> bool {
    match e.kind {
        ExpressionKind::Assignment(a) => expr_ok(m, rank, a.target, b) && expr_ok(m, rank, a.value, b),
        ExpressionKind::Cast(c) => expr_ok(m, rank, c.source, b),
        ExpressionKind::Construct(c) => exprs_ok(m, rank, field_values(c.fields@), b),
        ExpressionKind::Ref(r) => expr_ok(m, rank, r.target, b),
        ExpressionKind::Deref(d) => expr_ok(m, rank, d.target, b),
        ExpressionKind::StaticCall(c) => exprs_ok(m, rank, c.arguments@, b),
        ExpressionKind::InstanceCall(c) => expr_ok(m, rank, c.callee, b) && exprs_ok(
            m,
            rank,
            c.arguments@,
            b,
        ),
        ExpressionKind::IntrinsicCall(c) => exprs_ok(m, rank, c.kind.spec_arguments(), b),
        ExpressionKind::If(i) => conditions_ok(m, rank, i.cases@, b),
        ExpressionKind::Is(i) => expr_ok(m, rank, i.target, b) && pattern_ok(m, rank, i.pattern, b),
        ExpressionKind::Member(x) => expr_ok(m, rank, x.callee, b),
        ExpressionKind::Scope(s) => stmts_ok(m, rank, s.body@, b),
        ExpressionKind::Switch(s) => expr_ok(m, rank, s.operand, b) && switch_cases_ok(
            m,
            rank,
            s.cases@,
            b,
        ),
        ExpressionKind::Variant(v) => exprs_ok(m, rank, v.arguments@, b),
        ExpressionKind::Literal(_) => true,
        ExpressionKind::Variable(_) => true,
        ExpressionKind::Missing => true,
    }
}

/// The references which the walk of a pattern follows are sound.
pub open spec fn pattern_refs_ok(m: HirMap, rank: spec_fn(NodeId) -> nat, p: Pattern, b: nat) -> bool {
    match p.kind {
        PatternKind::Variant(v) => patterns_ok(m, rank, v.fields@, b),
        _ => true,
    }
}

/// The identifiers of struct fields.
pub open spec fn field_ids(s: Seq<Field>) -> Seq<NodeId> {
    s.map_values(|f: Field| f.id)
}

/// The identifiers of methods.
pub open spec fn method_ids(s: Seq<MethodDefinition>) -> Seq<NodeId> {
    s.map_values(|f: MethodDefinition| f.id)
}

/// The identifiers of trait method definitions.
pub open spec fn trait_method_ids(s: Seq<TraitMethodDefinition>) -> Seq<NodeId> {
    s.map_values(|f: TraitMethodDefinition| f.id)
}

/// The identifiers of trait method implementations.
pub open spec fn trait_impl_method_ids(s: Seq<TraitMethodImplementation>) -> Seq<NodeId> {
    s.map_values(|f: TraitMethodImplementation| f.id)
}

/// The references which the walk of a node follows are sound.
pub open spec fn node_refs_ok(m: HirMap, rank: spec_fn(NodeId) -> nat, n: Node, b: nat) -> bool {
    match n {
        Node::Function(f) => type_params_ok(m, f.signature.type_parameters@) && opt_block_ok(
            m,
            rank,
            f.block,
            b,
        ),
        Node::Type(td) => match td {
            TypeDefinition::Struct(s) => type_params_ok(m, s.type_parameters@) && nodes_ok(
                m,
                rank,
                field_ids(s.fields@),
                b,
            ),
            TypeDefinition::Trait(t) => type_params_ok(m, t.type_parameters@) && nodes_ok(
                m,
                rank,
                trait_method_ids(t.methods@),
                b,
            ),
            TypeDefinition::Enum(e) => type_params_ok(m, e.type_parameters@),
            TypeDefinition::TypeParameter(_) => true,
        },
        Node::TraitImpl(t) => type_params_ok(m, t.type_parameters@) && nodes_ok(
            m,
            rank,
            trait_impl_method_ids(t.methods@),
            b,
        ),
        Node::Impl(i) => type_params_ok(m, i.type_parameters@) && nodes_ok(
            m,
            rank,
            method_ids(i.methods@),
            b,
        ),
        Node::Method(f) => type_params_ok(m, f.signature.type_parameters@) && opt_block_ok(
            m,
            rank,
            f.block,
            b,
        ),
        Node::TraitMethodDef(f) => type_params_ok(m, f.signature.type_parameters@) && opt_block_ok(
            m,
            rank,
            f.block,
            b,
        ),
        Node::TraitMethodImpl(f) => type_params_ok(m, f.signature.type_parameters@)
            && opt_block_ok(m, rank, f.block, b),
        Node::Field(f) => match f.default_value {
            Some(v) => expr_ok(m, rank, v, b),
            None => true,
        },
        Node::Parameter(_) => true,
        Node::Pattern(p) => pattern_refs_ok(m, rank, p, b),
        Node::Statement(s) => stmt_refs_ok(m, rank, s, b),
        Node::Expression(e) => expr_refs_ok(m, rank, e, b),
        Node::TypeVariable(_) => true,
    }
}

/// `rank` orders the map: every reference which a walk follows leads to a
/// node which is stored in the map, of the kind that is looked for, and
/// ranked below the node it was found in. Walks of such a map end.
pub open spec fn ranked_by(m: HirMap, rank: spec_fn(NodeId) -> nat) -> bool {
    forall|id: NodeId| (#[trigger] m.spec_node(id)) is Some ==> node_refs_ok(
        m,
        rank,
        m.spec_node(id)->Some_0,
        rank(id),
    )
}

/// `rank` orders the part of the map ranked below `b`: every node stored
/// there refers only to nodes of the map of the kind looked for, ranked
/// below it. A walk from something ranked below `b` reaches only such
/// nodes; what the map holds elsewhere does not matter to it.
pub open spec fn ranked_below(m: HirMap, rank: spec_fn(NodeId) -> nat, b: nat) -> bool {
    forall|id: NodeId|
        (#[trigger] m.spec_node(id)) is Some && rank(id) < b ==> node_refs_ok(m, rank, m.spec_node(id)->Some_0, rank(id))
}

/// Some rank orders the map.
pub open spec fn acyclic(m: HirMap) -> bool {
    exists|rank: spec_fn(NodeId) -> nat| ranked_by(m, rank)
}

} // verus!

verus! {

// ---------------------------------------------------------------------------
// The walks of items which refer to other nodes by their identifier.
// ---------------------------------------------------------------------------

/// The walk of a type parameter: its name, then its constraints. Nodes
/// which are no type parameter are skipped.
pub open spec fn type_param_events(m: HirMap, id: NodeId) -> Seq<VisitEvent> {
    match m.spec_node(id) {
        Some(Node::Type(TypeDefinition::TypeParameter(tp))) => seq![VisitEvent::Identifier(tp.name)]
            + types_events(types_view(tp.constraints@)),
        _ => seq![],
    }
}

/// The walks of a list of type parameters, one after the other.
pub open spec fn type_params_events(m: HirMap, ids: Seq<NodeId>) -> Seq<VisitEvent>
    decreases ids.len(),
{
    if ids.len() == 0 {
        seq![]
    } else {
        type_params_events(m, ids.drop_last()) + type_param_events(m, ids.last())
    }
}

/// The walk of a parameter of a signature: its name, then its type.
pub open spec fn param_events(p: Parameter) -> Seq<VisitEvent> {
    seq![VisitEvent::Identifier(p.name)] + type_events(type_view(p.param_type))
}

/// The walks of a list of parameters, one after the other.
pub open spec fn params_events(ps: Seq<Parameter>) -> Seq<VisitEvent>
    decreases ps.len(),
{
    if ps.len() == 0 {
        seq![]
    } else {
        params_events(ps.drop_last()) + param_events(ps.last())
    }
}

/// The walk of a signature: its name, type parameters, parameters, then
/// its return type.
pub open spec fn sig_events(m: HirMap, sig: FnSignature) -> Seq<VisitEvent> {
    path_events(path_view(sig.name)) + type_params_events(m, sig.type_parameters@) + params_events(
        sig.parameters@,
    ) + type_events(type_view(sig.return_type))
}

/// The walk of an enum case: its name, then the types of its parameters.
pub open spec fn case_events(c: EnumDefinitionCase) -> Seq<VisitEvent> {
    path_events(path_view(c.name)) + types_events(types_view(c.parameters@))
}

/// The walks of a list of enum cases, one after the other.
pub open spec fn cases_events(cs: Seq<EnumDefinitionCase>) -> Seq<VisitEvent>
    decreases cs.len(),
{
    if cs.len() == 0 {
        seq![]
    } else {
        cases_events(cs.drop_last()) + case_events(cs.last())
    }
}

/// The walk of the statement stored for `id`.
pub open spec fn stmt_at_events(m: HirMap, rank: spec_fn(NodeId) -> nat, id: NodeId) -> Seq<VisitEvent>
    decreases rank(id), 4nat, 0nat,
{
    match m.spec_statement(id) {
        Some(s) => stmt_events(m, rank, s, rank(id)),
        None => seq![],
    }
}

/// The walk of the expression stored for `id`.
pub open spec fn expr_at_events(m: HirMap, rank: spec_fn(NodeId) -> nat, id: NodeId) -> Seq<VisitEvent>
    decreases rank(id), 4nat, 0nat,
{
    match m.spec_expression(id) {
        Some(e) => expr_events(m, rank, e, rank(id)),
        None => seq![],
    }
}

/// The walk of the pattern stored for `id`.
pub open spec fn pattern_at_events(m: HirMap, rank: spec_fn(NodeId) -> nat, id: NodeId) -> Seq<VisitEvent>
    decreases rank(id), 4nat, 0nat,
{
    match m.spec_pattern(id) {
        Some(p) => pattern_events(m, rank, p, rank(id)),
        None => seq![],
    }
}

/// The walk of an expression referred to from an item ranked `b`.
pub open spec fn expr_ref_events(m: HirMap, rank: spec_fn(NodeId) -> nat, id: NodeId, b: nat) -> Seq<VisitEvent>
    decreases b, 0nat, 0nat,
{
    if rank(id) < b {
        expr_at_events(m, rank, id)
    } else {
        seq![]
    }
}

/// The walk of a pattern referred to from an item ranked `b`.
pub open spec fn pattern_ref_events(m: HirMap, rank: spec_fn(NodeId) -> nat, id: NodeId, b: nat) -> Seq<VisitEvent>
    decreases b, 0nat, 0nat,
{
    if rank(id) < b {
        pattern_at_events(m, rank, id)
    } else {
        seq![]
    }
}

/// The walk of a statement: the statement, then its parts.
pub open spec fn stmt_events(m: HirMap, rank: spec_fn(NodeId) -> nat, s: Statement, b: nat) -> Seq<VisitEvent>
    decreases b, 3nat, 0nat,
{
    seq![VisitEvent::Statement(s)] + match s.kind {
        StatementKind::Variable(d) => seq![VisitEvent::Identifier(d.name)] + match d.declared_type {
            Some(t) => type_events(type_view(t)),
            None => seq![],
        } + expr_ref_events(m, rank, d.value, b),
        StatementKind::Break(_) => seq![],
        StatementKind::Continue(_) => seq![],
        StatementKind::Final(f) => expr_ref_events(m, rank, f.value, b),
        StatementKind::Return(r) => match r.value {
            Some(v) => expr_ref_events(m, rank, v, b),
            None => seq![],
        },
        StatementKind::InfiniteLoop(l) => stmts_events(m, rank, l.block.statements@, b),
        StatementKind::Expression(e) => expr_ref_events(m, rank, e, b),
    }
}

/// The walk of an expression: the expression, then its parts.
pub open spec fn expr_events(m: HirMap, rank: spec_fn(NodeId) -> nat, e: Expression, b: nat) -> Seq<VisitEvent>
    decreases b, 3nat, 0nat,
{
    seq![VisitEvent::Expression(e)] + match e.kind {
        ExpressionKind::Assignment(a) => expr_ref_events(m, rank, a.target, b) + expr_ref_events(
            m,
            rank,
            a.value,
            b,
        ),
        ExpressionKind::Cast(c) => expr_ref_events(m, rank, c.source, b) + type_events(
            type_view(c.target),
        ),
        ExpressionKind::Construct(c) => path_events(path_view(c.path)) + exprs_events(
            m,
            rank,
            field_values(c.fields@),
            b,
        ),
        ExpressionKind::Ref(r) => expr_ref_events(m, rank, r.target, b),
        ExpressionKind::Deref(d) => expr_ref_events(m, rank, d.target, b),
        ExpressionKind::StaticCall(c) => path_events(path_view(c.name)) + exprs_events(
            m,
            rank,
            c.arguments@,
            b,
        ),
        ExpressionKind::InstanceCall(c) => segment_events(segment_view(c.name)) + expr_ref_events(
            m,
            rank,
            c.callee,
            b,
        ) + exprs_events(m, rank, c.arguments@, b),
        ExpressionKind::IntrinsicCall(c) => exprs_events(m, rank, c.kind.spec_arguments(), b),
        ExpressionKind::If(i) => conditions_events(m, rank, i.cases@, b),
        ExpressionKind::Is(i) => expr_ref_events(m, rank, i.target, b) + pattern_ref_events(
            m,
            rank,
            i.pattern,
            b,
        ),
        ExpressionKind::Member(x) => expr_ref_events(m, rank, x.callee, b),
        ExpressionKind::Scope(s) => stmts_events(m, rank, s.body@, b),
        ExpressionKind::Switch(s) => expr_ref_events(m, rank, s.operand, b) + switch_cases_events(
            m,
            rank,
            s.cases@,
            b,
        ),
        ExpressionKind::Variant(v) => path_events(path_view(v.name)) + exprs_events(
            m,
            rank,
            v.arguments@,
            b,
        ),
        ExpressionKind::Literal(_) => seq![],
        ExpressionKind::Variable(_) => seq![],
        ExpressionKind::Missing => seq![],
    }
}

/// The walk of a pattern: the pattern, then its parts.
pub open spec fn pattern_events(m: HirMap, rank: spec_fn(NodeId) -> nat, p: Pattern, b: nat) -> Seq<VisitEvent>
    decreases b, 3nat, 0nat,
{
    seq![VisitEvent::Pattern(p)] + match p.kind {
        PatternKind::Identifier(i) => seq![VisitEvent::Identifier(i.name)],
        PatternKind::Variant(v) => path_events(path_view(v.name)) + patterns_events(
            m,
            rank,
            v.fields@,
            b,
        ),
        _ => seq![],
    }
}

/// The walks of the statements stored for `ids`, one after the other.
pub open spec fn stmts_events(m: HirMap, rank: spec_fn(NodeId) -> nat, ids: Seq<NodeId>, b: nat) -> Seq<VisitEvent>
    decreases b, 0nat, ids.len(),
{
    if ids.len() == 0 {
        seq![]
    } else {
        stmts_events(m, rank, ids.drop_last(), b) + if rank(ids.last()) < b {
            stmt_at_events(m, rank, ids.last())
        } else {
            seq![]
        }
    }
}

/// The walks of the expressions stored for `ids`, one after the other.
pub open spec fn exprs_events(m: HirMap, rank: spec_fn(NodeId) -> nat, ids: Seq<NodeId>, b: nat) -> Seq<VisitEvent>
    decreases b, 0nat, ids.len(),
{
    if ids.len() == 0 {
        seq![]
    } else {
        exprs_events(m, rank, ids.drop_last(), b) + if rank(ids.last()) < b {
            expr_at_events(m, rank, ids.last())
        } else {
            seq![]
        }
    }
}

/// The walks of the patterns stored for `ids`, one after the other.
pub open spec fn patterns_events(m: HirMap, rank: spec_fn(NodeId) -> nat, ids: Seq<NodeId>, b: nat) -> Seq<VisitEvent>
    decreases b, 0nat, ids.len(),
{
    if ids.len() == 0 {
        seq![]
    } else {
        patterns_events(m, rank, ids.drop_last(), b) + if rank(ids.last()) < b {
            pattern_at_events(m, rank, ids.last())
        } else {
            seq![]
        }
    }
}

/// The walk of one case of an `if`: its condition, then its block.
pub open spec fn condition_events(m: HirMap, rank: spec_fn(NodeId) -> nat, c: Condition, b: nat) -> Seq<VisitEvent>
    decreases b, 1nat, 0nat,
{
    let head = match c.condition {
        Some(x) => expr_ref_events(m, rank, x, b),
        None => seq![],
    };
    head + stmts_events(m, rank, c.block.statements@, b)
}

/// The walks of the cases of an `if`, one after the other.
pub open spec fn conditions_events(m: HirMap, rank: spec_fn(NodeId) -> nat, cs: Seq<Condition>, b: nat) -> Seq<VisitEvent>
    decreases b, 2nat, cs.len(),
{
    if cs.len() == 0 {
        seq![]
    } else {
        conditions_events(m, rank, cs.drop_last(), b) + condition_events(m, rank, cs.last(), b)
    }
}

/// The walk of one case of a `switch`: its pattern, then its branch.
pub open spec fn switch_case_events(m: HirMap, rank: spec_fn(NodeId) -> nat, c: SwitchCase, b: nat) -> Seq<VisitEvent>
    decreases b, 1nat, 0nat,
{
    pattern_ref_events(m, rank, c.pattern, b) + expr_ref_events(m, rank, c.branch, b)
}

/// The walks of the cases of a `switch`, one after the other.
pub open spec fn switch_cases_events(m: HirMap, rank: spec_fn(NodeId) -> nat, cs: Seq<SwitchCase>, b: nat) -> Seq<VisitEvent>
    decreases b, 2nat, cs.len(),
{
    if cs.len() == 0 {
        seq![]
    } else {
        switch_cases_events(m, rank, cs.drop_last(), b) + switch_case_events(m, rank, cs.last(), b)
    }
}

/// The walk of the statements of a block, if there is one.
pub open spec fn opt_block_events(m: HirMap, rank: spec_fn(NodeId) -> nat, blk: Option<Block>, b: nat) -> Seq<VisitEvent> {
    match blk {
        Some(k) => stmts_events(m, rank, k.statements@, b),
        None => seq![],
    }
}

/// The walk of the node stored for `id`.
pub open spec fn node_at_events(m: HirMap, rank: spec_fn(NodeId) -> nat, id: NodeId) -> Seq<VisitEvent>
    decreases rank(id), 2nat, 0nat,
{
    match m.spec_node(id) {
        Some(n) => node_events(m, rank, n, rank(id)),
        None => seq![],
    }
}

/// The walks of the nodes stored for `ids`, one after the other.
pub open spec fn nodes_events(m: HirMap, rank: spec_fn(NodeId) -> nat, ids: Seq<NodeId>, b: nat) -> Seq<VisitEvent>
    decreases b, 0nat, ids.len(),
{
    if ids.len() == 0 {
        seq![]
    } else {
        nodes_events(m, rank, ids.drop_last(), b) + if rank(ids.last()) < b {
            node_at_events(m, rank, ids.last())
        } else {
            seq![]
        }
    }
}

/// The walk of a node: the node, then its parts.
pub open spec fn node_events(m: HirMap, rank: spec_fn(NodeId) -> nat, n: Node, b: nat) -> Seq<VisitEvent>
    decreases b, 1nat, 0nat,
{
    seq![VisitEvent::Node(n)] + match n {
        Node::Function(f) => sig_events(m, f.signature) + opt_block_events(m, rank, f.block, b),
        Node::Type(td) => match td {
            TypeDefinition::Struct(s) => path_events(path_view(s.name)) + type_params_events(
                m,
                s.type_parameters@,
            ) + nodes_events(m, rank, field_ids(s.fields@), b),
            TypeDefinition::Trait(t) => path_events(path_view(t.name)) + type_params_events(
                m,
                t.type_parameters@,
            ) + nodes_events(m, rank, trait_method_ids(t.methods@), b),
            TypeDefinition::Enum(e) => path_events(path_view(e.name)) + type_params_events(
                m,
                e.type_parameters@,
            ) + cases_events(e.cases@),
            TypeDefinition::TypeParameter(tp) => seq![VisitEvent::Identifier(tp.name)]
                + types_events(types_view(tp.constraints@)),
        },
        Node::TraitImpl(t) => type_events(type_view(*t.name)) + type_events(type_view(*t.target))
            + type_params_events(m, t.type_parameters@) + nodes_events(
            m,
            rank,
            trait_impl_method_ids(t.methods@),
            b,
        ),
        Node::Impl(i) => type_events(type_view(*i.target)) + type_params_events(
            m,
            i.type_parameters@,
        ) + nodes_events(m, rank, method_ids(i.methods@), b),
        Node::Method(f) => sig_events(m, f.signature) + opt_block_events(m, rank, f.block, b),
        Node::TraitMethodDef(f) => sig_events(m, f.signature) + opt_block_events(m, rank, f.block, b),
        Node::TraitMethodImpl(f) => sig_events(m, f.signature) + opt_block_events(
            m,
            rank,
            f.block,
            b,
        ),
        Node::Field(f) => seq![VisitEvent::Identifier(f.name)] + type_events(type_view(f.field_type))
            + match f.default_value {
            Some(v) => if rank(v) < b {
                expr_at_events(m, rank, v)
            } else {
                seq![]
            },
            None => seq![],
        },
        Node::Parameter(p) => seq![VisitEvent::Identifier(p.name)] + type_events(
            type_view(p.param_type),
        ),
        Node::Pattern(p) => pattern_events(m, rank, p, b),
        Node::Statement(s) => stmt_events(m, rank, s, b),
        Node::Expression(e) => expr_events(m, rank, e, b),
        Node::TypeVariable(_) => seq![],
    }
}

} // verus!

verus! {

/// Appends one item to a walk.
fn push_item<'a>(out: &mut Vec<VisitItem<'a>>, item: VisitItem<'a>)
    ensures
        events_of(final(out)@) == events_of(old(out)@).push(item.event()),
{
    out.push(item);
    proof {
        assert(events_of(out@) =~= events_of(old(out)@).push(item.event()));
    }
}

/// Appends the walk of a type.
pub fn walk_type<'a>(t: &'a Type, out: &mut Vec<VisitItem<'a>>)
    ensures
        events_of(final(out)@) == events_of(old(out)@) + type_events(t@),
    decreases t,
{
    let ghost before = events_of(out@);
    push_item(out, VisitItem::Type(t));
    walk_path(&t.name, out);
    proof {
        assert(events_of(out@) =~= before + type_events(t@));
    }
}

/// Appends the walk of a path.
pub fn walk_path<'a>(p: &'a Path, out: &mut Vec<VisitItem<'a>>)
    ensures
        events_of(final(out)@) == events_of(old(out)@) + path_events(p@),
    decreases p,
{
    let ghost before = events_of(out@);
    push_item(out, VisitItem::Path(p));
    walk_segments(&p.root, out);
    walk_segment(&p.name, out);
    proof {
        assert(events_of(out@) =~= before + path_events(p@));
    }
}

/// Appends the walks of a list of segments.
pub fn walk_segments<'a>(v: &'a Vec<PathSegment>, out: &mut Vec<VisitItem<'a>>)
    ensures
        events_of(final(out)@) == events_of(old(out)@) + segments_events(segments_view(v@)),
    decreases v,
{
    let ghost before = events_of(out@);
    let ghost sv = segments_view(v@);
    proof {
        lemma_segments_view(v@);
    }
    let mut i: usize = 0;
    while i < v.len()
        invariant
            i <= v@.len(),
            sv == segments_view(v@),
            sv.len() == v@.len(),
            forall|j: int| 0 <= j < v@.len() ==> #[trigger] sv[j] == segment_view(v@[j]),
            events_of(out@) == before + segments_events(sv.subrange(0, i as int)),
        decreases v.len() - i,
    {
        proof {
            assert(decreases_to!(v => v@[i as int]));
        }
        walk_segment(&v[i], out);
        proof {
            assert(sv.subrange(0, i + 1).drop_last() =~= sv.subrange(0, i as int));
            assert(sv.subrange(0, i + 1).last() == sv[i as int]);
            assert(events_of(out@) =~= before + segments_events(sv.subrange(0, i + 1)));
        }
        i = i + 1;
    }
    proof {
        assert(sv.subrange(0, v@.len() as int) =~= sv);
    }
}

/// Appends the walks of a list of types.
pub fn walk_types<'a>(v: &'a Vec<Type>, out: &mut Vec<VisitItem<'a>>)
    ensures
        events_of(final(out)@) == events_of(old(out)@) + types_events(types_view(v@)),
    decreases v,
{
    let ghost before = events_of(out@);
    let ghost tv = types_view(v@);
    proof {
        lemma_types_view(v@);
    }
    let mut i: usize = 0;
    while i < v.len()
        invariant
            i <= v@.len(),
            tv == types_view(v@),
            tv.len() == v@.len(),
            forall|j: int| 0 <= j < v@.len() ==> #[trigger] tv[j] == type_view(v@[j]),
            events_of(out@) == before + types_events(tv.subrange(0, i as int)),
        decreases v.len() - i,
    {
        proof {
            assert(decreases_to!(v => v@[i as int]));
        }
        walk_type(&v[i], out);
        proof {
            assert(tv.subrange(0, i + 1).drop_last() =~= tv.subrange(0, i as int));
            assert(tv.subrange(0, i + 1).last() == tv[i as int]);
            assert(events_of(out@) =~= before + types_events(tv.subrange(0, i + 1)));
        }
        i = i + 1;
    }
    proof {
        assert(tv.subrange(0, v@.len() as int) =~= tv);
    }
}

/// Appends the walk of a path segment.
pub fn walk_segment<'a>(s: &'a PathSegment, out: &mut Vec<VisitItem<'a>>)
    ensures
        events_of(final(out)@) == events_of(old(out)@) + segment_events(s@),
    decreases s,
{
    let ghost before = events_of(out@);
    match s {
        PathSegment::Namespace { name } => {
            push_item(out, VisitItem::Identifier(name));
        },
        PathSegment::Type { name, bound_types, .. } => {
            push_item(out, VisitItem::Identifier(name));
            walk_types(bound_types, out);
        },
        PathSegment::Callable { name, bound_types, .. } => {
            push_item(out, VisitItem::Identifier(name));
            walk_types(bound_types, out);
        },
        PathSegment::Variant { name, .. } => {
            push_item(out, VisitItem::Identifier(name));
        },
        PathSegment::Missing => {},
    }
    proof {
        assert(events_of(out@) =~= before + segment_events(s@));
    }
}

} // verus!

verus! {

/// Appends the walks of the type parameters stored for `ids`.
pub fn walk_type_params<'a>(hir: &'a HirMap, ids: &Vec<NodeId>, out: &mut Vec<VisitItem<'a>>)
    requires
        type_params_ok(*hir, ids@),
    ensures
        events_of(final(out)@) == events_of(old(out)@) + type_params_events(*hir, ids@),
{
    let ghost before = events_of(out@);
    let mut i: usize = 0;
    while i < ids.len()
        invariant
            i <= ids@.len(),
            events_of(out@) == before + type_params_events(*hir, ids@.subrange(0, i as int)),
        decreases ids.len() - i,
    {
        let ghost mid = events_of(out@);
        match hir.node(ids[i]) {
            Some(Node::Type(TypeDefinition::TypeParameter(tp))) => {
                push_item(out, VisitItem::Identifier(&tp.name));
                walk_types(&tp.constraints, out);
            },
            _ => {},
        }
        proof {
            let sub = ids@.subrange(0, i + 1);
            assert(sub.drop_last() =~= ids@.subrange(0, i as int));
            assert(sub.last() == ids@[i as int]);
            assert(events_of(out@) =~= mid + type_param_events(*hir, ids@[i as int]));
            assert(events_of(out@) =~= before + type_params_events(*hir, sub));
        }
        i = i + 1;
    }
    proof {
        assert(ids@.subrange(0, ids@.len() as int) =~= ids@);
    }
}

/// Appends the walks of the parameters of a signature.
pub fn walk_params<'a>(ps: &'a Vec<Parameter>, out: &mut Vec<VisitItem<'a>>)
    ensures
        events_of(final(out)@) == events_of(old(out)@) + params_events(ps@),
{
    let ghost before = events_of(out@);
    let mut i: usize = 0;
    while i < ps.len()
        invariant
            i <= ps@.len(),
            events_of(out@) == before + params_events(ps@.subrange(0, i as int)),
        decreases ps.len() - i,
    {
        let ghost mid = events_of(out@);
        let p = &ps[i];
        push_item(out, VisitItem::Identifier(&p.name));
        walk_type(&p.param_type, out);
        proof {
            let sub = ps@.subrange(0, i + 1);
            assert(sub.drop_last() =~= ps@.subrange(0, i as int));
            assert(sub.last() == ps@[i as int]);
            assert(events_of(out@) =~= mid + param_events(ps@[i as int]));
            assert(events_of(out@) =~= before + params_events(sub));
        }
        i = i + 1;
    }
    proof {
        assert(ps@.subrange(0, ps@.len() as int) =~= ps@);
    }
}

/// Appends the walk of a signature.
pub fn walk_signature<'a>(hir: &'a HirMap, sig: &'a FnSignature, out: &mut Vec<VisitItem<'a>>)
    requires
        type_params_ok(*hir, sig.type_parameters@),
    ensures
        events_of(final(out)@) == events_of(old(out)@) + sig_events(*hir, *sig),
{
    let ghost before = events_of(out@);
    walk_path(&sig.name, out);
    walk_type_params(hir, &sig.type_parameters, out);
    walk_params(&sig.parameters, out);
    walk_type(&sig.return_type, out);
    proof {
        assert(events_of(out@) =~= before + sig_events(*hir, *sig));
    }
}

/// Appends the walks of the cases of an enum.
pub fn walk_cases<'a>(cs: &'a Vec<EnumDefinitionCase>, out: &mut Vec<VisitItem<'a>>)
    ensures
        events_of(final(out)@) == events_of(old(out)@) + cases_events(cs@),
{
    let ghost before = events_of(out@);
    let mut i: usize = 0;
    while i < cs.len()
        invariant
            i <= cs@.len(),
            events_of(out@) == before + cases_events(cs@.subrange(0, i as int)),
        decreases cs.len() - i,
    {
        let ghost mid = events_of(out@);
        let c = &cs[i];
        walk_path(&c.name, out);
        walk_types(&c.parameters, out);
        proof {
            let sub = cs@.subrange(0, i + 1);
            assert(sub.drop_last() =~= cs@.subrange(0, i as int));
            assert(sub.last() == cs@[i as int]);
            assert(events_of(out@) =~= mid + case_events(cs@[i as int]));
            assert(events_of(out@) =~= before + cases_events(sub));
        }
        i = i + 1;
    }
    proof {
        assert(cs@.subrange(0, cs@.len() as int) =~= cs@);
    }
}

/// Appends the walk of the statement stored for `id`.
fn walk_stmt_at<'a>(
    hir: &'a HirMap,
    id: NodeId,
    out: &mut Vec<VisitItem<'a>>,
    Ghost(rank): Ghost<spec_fn(NodeId) -> nat>,
)
    requires
        ranked_below(*hir, rank, rank(id) + 1),
    ensures
        events_of(final(out)@) == events_of(old(out)@) + stmt_at_events(*hir, rank, id),
    decreases rank(id), 4nat, 0nat,
{
    match hir.statement(id) {
        Some(s) => {
            proof {
                assert(hir.spec_node(id) is Some);
            }
            walk_stmt_body(hir, s, out, Ghost(rank), Ghost(rank(id)));
        },
        None => {
            proof {
                assert(events_of(out@) =~= events_of(out@) + seq![]);
            }
        },
    }
}

/// Appends the walk of the expression stored for `id`.
fn walk_expr_at<'a>(
    hir: &'a HirMap,
    id: NodeId,
    out: &mut Vec<VisitItem<'a>>,
    Ghost(rank): Ghost<spec_fn(NodeId) -> nat>,
)
    requires
        ranked_below(*hir, rank, rank(id) + 1),
    ensures
        events_of(final(out)@) == events_of(old(out)@) + expr_at_events(*hir, rank, id),
    decreases rank(id), 4nat, 0nat,
{
    match hir.expression(id) {
        Some(e) => {
            proof {
                assert(hir.spec_node(id) is Some);
            }
            walk_expr_body(hir, e, out, Ghost(rank), Ghost(rank(id)));
        },
        None => {
            proof {
                assert(events_of(out@) =~= events_of(out@) + seq![]);
            }
        },
    }
}

/// Appends the walk of the pattern stored for `id`.
fn walk_pattern_at<'a>(
    hir: &'a HirMap,
    id: NodeId,
    out: &mut Vec<VisitItem<'a>>,
    Ghost(rank): Ghost<spec_fn(NodeId) -> nat>,
)
    requires
        ranked_below(*hir, rank, rank(id) + 1),
    ensures
        events_of(final(out)@) == events_of(old(out)@) + pattern_at_events(*hir, rank, id),
    decreases rank(id), 4nat, 0nat,
{
    match hir.pattern(id) {
        Some(p) => {
            proof {
                assert(hir.spec_node(id) is Some);
            }
            walk_pattern_body(hir, p, out, Ghost(rank), Ghost(rank(id)));
        },
        None => {
            proof {
                assert(events_of(out@) =~= events_of(out@) + seq![]);
            }
        },
    }
}

/// Appends the walks of the statements stored for `ids`.
fn walk_stmts<'a>(
    hir: &'a HirMap,
    ids: &Vec<NodeId>,
    out: &mut Vec<VisitItem<'a>>,
    Ghost(rank): Ghost<spec_fn(NodeId) -> nat>,
    Ghost(b): Ghost<nat>,
)
    requires
        ranked_below(*hir, rank, b),
        stmts_ok(*hir, rank, ids@, b),
    ensures
        events_of(final(out)@) == events_of(old(out)@) + stmts_events(*hir, rank, ids@, b),
    decreases b, 0nat, ids@.len(),
{
    let ghost before = events_of(out@);
    let mut i: usize = 0;
    while i < ids.len()
        invariant
            i <= ids@.len(),
            ranked_below(*hir, rank, b),
            stmts_ok(*hir, rank, ids@, b),
            events_of(out@) == before + stmts_events(*hir, rank, ids@.subrange(0, i as int), b),
        decreases ids.len() - i,
    {
        let ghost mid = events_of(out@);
        proof {
            assert(stmt_ok(*hir, rank, ids@[i as int], b));
        }
        walk_stmt_at(hir, ids[i], out, Ghost(rank));
        proof {
            let sub = ids@.subrange(0, i + 1);
            assert(sub.drop_last() =~= ids@.subrange(0, i as int));
            assert(sub.last() == ids@[i as int]);
            assert(events_of(out@) =~= before + stmts_events(*hir, rank, sub, b));
        }
        i = i + 1;
    }
    proof {
        assert(ids@.subrange(0, ids@.len() as int) =~= ids@);
    }
}

/// Appends the walks of the expressions stored for `ids`.
fn walk_exprs<'a>(
    hir: &'a HirMap,
    ids: &Vec<NodeId>,
    out: &mut Vec<VisitItem<'a>>,
    Ghost(rank): Ghost<spec_fn(NodeId) -> nat>,
    Ghost(b): Ghost<nat>,
)
    requires
        ranked_below(*hir, rank, b),
        exprs_ok(*hir, rank, ids@, b),
    ensures
        events_of(final(out)@) == events_of(old(out)@) + exprs_events(*hir, rank, ids@, b),
    decreases b, 0nat, ids@.len(),
{
    let ghost before = events_of(out@);
    let mut i: usize = 0;
    while i < ids.len()
        invariant
            i <= ids@.len(),
            ranked_below(*hir, rank, b),
            exprs_ok(*hir, rank, ids@, b),
            events_of(out@) == before + exprs_events(*hir, rank, ids@.subrange(0, i as int), b),
        decreases ids.len() - i,
    {
        proof {
            assert(expr_ok(*hir, rank, ids@[i as int], b));
        }
        walk_expr_at(hir, ids[i], out, Ghost(rank));
        proof {
            let sub = ids@.subrange(0, i + 1);
            assert(sub.drop_last() =~= ids@.subrange(0, i as int));
            assert(sub.last() == ids@[i as int]);
            assert(events_of(out@) =~= before + exprs_events(*hir, rank, sub, b));
        }
        i = i + 1;
    }
    proof {
        assert(ids@.subrange(0, ids@.len() as int) =~= ids@);
    }
}

/// Appends the walks of the patterns stored for `ids`.
fn walk_patterns<'a>(
    hir: &'a HirMap,
    ids: &Vec<NodeId>,
    out: &mut Vec<VisitItem<'a>>,
    Ghost(rank): Ghost<spec_fn(NodeId) -> nat>,
    Ghost(b): Ghost<nat>,
)
    requires
        ranked_below(*hir, rank, b),
        patterns_ok(*hir, rank, ids@, b),
    ensures
        events_of(final(out)@) == events_of(old(out)@) + patterns_events(*hir, rank, ids@, b),
    decreases b, 0nat, ids@.len(),
{
    let ghost before = events_of(out@);
    let mut i: usize = 0;
    while i < ids.len()
        invariant
            i <= ids@.len(),
            ranked_below(*hir, rank, b),
            patterns_ok(*hir, rank, ids@, b),
            events_of(out@) == before + patterns_events(*hir, rank, ids@.subrange(0, i as int), b),
        decreases ids.len() - i,
    {
        proof {
            assert(pattern_ok(*hir, rank, ids@[i as int], b));
        }
        walk_pattern_at(hir, ids[i], out, Ghost(rank));
        proof {
            let sub = ids@.subrange(0, i + 1);
            assert(sub.drop_last() =~= ids@.subrange(0, i as int));
            assert(sub.last() == ids@[i as int]);
            assert(events_of(out@) =~= before + patterns_events(*hir, rank, sub, b));
        }
        i = i + 1;
    }
    proof {
        assert(ids@.subrange(0, ids@.len() as int) =~= ids@);
    }
}

/// Appends the walks of the values of constructor fields.
fn walk_ctor_fields<'a>(
    hir: &'a HirMap,
    fields: &Vec<ConstructorField>,
    out: &mut Vec<VisitItem<'a>>,
    Ghost(rank): Ghost<spec_fn(NodeId) -> nat>,
    Ghost(b): Ghost<nat>,
)
    requires
        ranked_below(*hir, rank, b),
        exprs_ok(*hir, rank, field_values(fields@), b),
    ensures
        events_of(final(out)@) == events_of(old(out)@) + exprs_events(
            *hir,
            rank,
            field_values(fields@),
            b,
        ),
    decreases b, 0nat, fields@.len(),
{
    let ghost before = events_of(out@);
    let ghost ids = field_values(fields@);
    let mut i: usize = 0;
    while i < fields.len()
        invariant
            i <= fields@.len(),
            ids == field_values(fields@),
            ids.len() == fields@.len(),
            ranked_below(*hir, rank, b),
            exprs_ok(*hir, rank, ids, b),
            events_of(out@) == before + exprs_events(*hir, rank, ids.subrange(0, i as int), b),
        decreases fields.len() - i,
    {
        proof {
            assert(ids[i as int] == fields@[i as int].value);
            assert(expr_ok(*hir, rank, ids[i as int], b));
        }
        walk_expr_at(hir, fields[i].value, out, Ghost(rank));
        proof {
            let sub = ids.subrange(0, i + 1);
            assert(sub.drop_last() =~= ids.subrange(0, i as int));
            assert(sub.last() == ids[i as int]);
            assert(events_of(out@) =~= before + exprs_events(*hir, rank, sub, b));
        }
        i = i + 1;
    }
    proof {
        assert(ids.subrange(0, fields@.len() as int) =~= ids);
    }
}

} // verus!

verus! {

/// Appends the walk of a statement whose references are ranked below `b`.
fn walk_stmt_body<'a>(
    hir: &'a HirMap,
    s: &'a Statement,
    out: &mut Vec<VisitItem<'a>>,
    Ghost(rank): Ghost<spec_fn(NodeId) -> nat>,
    Ghost(b): Ghost<nat>,
)
    requires
        ranked_below(*hir, rank, b),
        stmt_refs_ok(*hir, rank, *s, b),
    ensures
        events_of(final(out)@) == events_of(old(out)@) + stmt_events(*hir, rank, *s, b),
    decreases b, 3nat, 0nat,
{
    let ghost before = events_of(out@);
    push_item(out, VisitItem::Statement(s));
    match &s.kind {
        StatementKind::Variable(d) => {
            push_item(out, VisitItem::Identifier(&d.name));
            match &d.declared_type {
                Some(t) => walk_type(t, out),
                None => {},
            }
            walk_expr_at(hir, d.value, out, Ghost(rank));
        },
        StatementKind::Break(_) => {},
        StatementKind::Continue(_) => {},
        StatementKind::Final(f) => walk_expr_at(hir, f.value, out, Ghost(rank)),
        StatementKind::Return(r) => match r.value {
            Some(v) => walk_expr_at(hir, v, out, Ghost(rank)),
            None => {},
        },
        StatementKind::InfiniteLoop(l) => walk_stmts(
            hir,
            &l.block.statements,
            out,
            Ghost(rank),
            Ghost(b),
        ),
        StatementKind::Expression(e) => walk_expr_at(hir, *e, out, Ghost(rank)),
    }
    proof {
        assert(events_of(out@) =~= before + stmt_events(*hir, rank, *s, b));
    }
}

/// Appends the walk of an expression whose references are ranked below `b`.
#[verifier::spinoff_prover]
#[verifier::rlimit(40)]
fn walk_expr_body<'a>(
    hir: &'a HirMap,
    e: &'a Expression,
    out: &mut Vec<VisitItem<'a>>,
    Ghost(rank): Ghost<spec_fn(NodeId) -> nat>,
    Ghost(b): Ghost<nat>,
)
    requires
        ranked_below(*hir, rank, b),
        expr_refs_ok(*hir, rank, *e, b),
    ensures
        events_of(final(out)@) == events_of(old(out)@) + expr_events(*hir, rank, *e, b),
    decreases b, 3nat, 0nat,
{
    let ghost before = events_of(out@);
    push_item(out, VisitItem::Expression(e));
    match &e.kind {
        ExpressionKind::Assignment(a) => {
            walk_expr_at(hir, a.target, out, Ghost(rank));
            walk_expr_at(hir, a.value, out, Ghost(rank));
        },
        ExpressionKind::Cast(c) => {
            walk_expr_at(hir, c.source, out, Ghost(rank));
            walk_type(&c.target, out);
        },
        ExpressionKind::Construct(c) => {
            walk_path(&c.path, out);
            walk_ctor_fields(hir, &c.fields, out, Ghost(rank), Ghost(b));
        },
        ExpressionKind::Ref(r) => walk_expr_at(hir, r.target, out, Ghost(rank)),
        ExpressionKind::Deref(d) => walk_expr_at(hir, d.target, out, Ghost(rank)),
        ExpressionKind::StaticCall(c) => {
            walk_path(&c.name, out);
            walk_exprs(hir, &c.arguments, out, Ghost(rank), Ghost(b));
        },
        ExpressionKind::InstanceCall(c) => {
            walk_segment(&c.name, out);
            walk_expr_at(hir, c.callee, out, Ghost(rank));
            walk_exprs(hir, &c.arguments, out, Ghost(rank), Ghost(b));
        },
        ExpressionKind::IntrinsicCall(c) => {
            let args = c.kind.arguments();
            walk_exprs(hir, &args, out, Ghost(rank), Ghost(b));
        },
        ExpressionKind::If(i) => walk_conditions(hir, &i.cases, out, Ghost(rank), Ghost(b)),
        ExpressionKind::Is(i) => {
            walk_expr_at(hir, i.target, out, Ghost(rank));
            walk_pattern_at(hir, i.pattern, out, Ghost(rank));
        },
        ExpressionKind::Member(x) => walk_expr_at(hir, x.callee, out, Ghost(rank)),
        ExpressionKind::Scope(sc) => walk_stmts(hir, &sc.body, out, Ghost(rank), Ghost(b)),
        ExpressionKind::Switch(sw) => {
            walk_expr_at(hir, sw.operand, out, Ghost(rank));
            walk_switch_cases(hir, &sw.cases, out, Ghost(rank), Ghost(b));
        },
        ExpressionKind::Variant(v) => {
            walk_path(&v.name, out);
            walk_exprs(hir, &v.arguments, out, Ghost(rank), Ghost(b));
        },
        ExpressionKind::Literal(_) => {},
        ExpressionKind::Variable(_) => {},
        ExpressionKind::Missing => {},
    }
    proof {
        assert(events_of(out@) =~= before + expr_events(*hir, rank, *e, b));
    }
}

/// Appends the walk of a pattern whose references are ranked below `b`.
fn walk_pattern_body<'a>(
    hir: &'a HirMap,
    p: &'a Pattern,
    out: &mut Vec<VisitItem<'a>>,
    Ghost(rank): Ghost<spec_fn(NodeId) -> nat>,
    Ghost(b): Ghost<nat>,
)
    requires
        ranked_below(*hir, rank, b),
        pattern_refs_ok(*hir, rank, *p, b),
    ensures
        events_of(final(out)@) == events_of(old(out)@) + pattern_events(*hir, rank, *p, b),
    decreases b, 3nat, 0nat,
{
    let ghost before = events_of(out@);
    push_item(out, VisitItem::Pattern(p));
    match &p.kind {
        PatternKind::Identifier(i) => push_item(out, VisitItem::Identifier(&i.name)),
        PatternKind::Variant(v) => {
            walk_path(&v.name, out);
            walk_patterns(hir, &v.fields, out, Ghost(rank), Ghost(b));
        },
        _ => {},
    }
    proof {
        assert(events_of(out@) =~= before + pattern_events(*hir, rank, *p, b));
    }
}

/// Appends the walk of one case of an `if`.
fn walk_condition<'a>(
    hir: &'a HirMap,
    c: &'a Condition,
    out: &mut Vec<VisitItem<'a>>,
    Ghost(rank): Ghost<spec_fn(NodeId) -> nat>,
    Ghost(b): Ghost<nat>,
)
    requires
        ranked_below(*hir, rank, b),
        condition_ok(*hir, rank, *c, b),
    ensures
        events_of(final(out)@) == events_of(old(out)@) + condition_events(*hir, rank, *c, b),
    decreases b, 1nat, 0nat,
{
    let ghost before = events_of(out@);
    match c.condition {
        Some(x) => walk_expr_at(hir, x, out, Ghost(rank)),
        None => {},
    }
    walk_stmts(hir, &c.block.statements, out, Ghost(rank), Ghost(b));
    proof {
        assert(events_of(out@) =~= before + condition_events(*hir, rank, *c, b));
    }
}

/// Appends the walks of the cases of an `if`.
fn walk_conditions<'a>(
    hir: &'a HirMap,
    cs: &'a Vec<Condition>,
    out: &mut Vec<VisitItem<'a>>,
    Ghost(rank): Ghost<spec_fn(NodeId) -> nat>,
    Ghost(b): Ghost<nat>,
)
    requires
        ranked_below(*hir, rank, b),
        conditions_ok(*hir, rank, cs@, b),
    ensures
        events_of(final(out)@) == events_of(old(out)@) + conditions_events(*hir, rank, cs@, b),
    decreases b, 2nat, cs@.len(),
{
    let ghost before = events_of(out@);
    let mut i: usize = 0;
    while i < cs.len()
        invariant
            i <= cs@.len(),
            ranked_below(*hir, rank, b),
            conditions_ok(*hir, rank, cs@, b),
            events_of(out@) == before + conditions_events(*hir, rank, cs@.subrange(0, i as int), b),
        decreases cs.len() - i,
    {
        proof {
            assert(condition_ok(*hir, rank, cs@[i as int], b));
        }
        walk_condition(hir, &cs[i], out, Ghost(rank), Ghost(b));
        proof {
            let sub = cs@.subrange(0, i + 1);
            assert(sub.drop_last() =~= cs@.subrange(0, i as int));
            assert(sub.last() == cs@[i as int]);
            assert(events_of(out@) =~= before + conditions_events(*hir, rank, sub, b));
        }
        i = i + 1;
    }
    proof {
        assert(cs@.subrange(0, cs@.len() as int) =~= cs@);
    }
}

/// Appends the walk of one case of a `switch`.
fn walk_switch_case<'a>(
    hir: &'a HirMap,
    c: &SwitchCase,
    out: &mut Vec<VisitItem<'a>>,
    Ghost(rank): Ghost<spec_fn(NodeId) -> nat>,
    Ghost(b): Ghost<nat>,
)
    requires
        ranked_below(*hir, rank, b),
        switch_case_ok(*hir, rank, *c, b),
    ensures
        events_of(final(out)@) == events_of(old(out)@) + switch_case_events(*hir, rank, *c, b),
    decreases b, 1nat, 0nat,
{
    let ghost before = events_of(out@);
    walk_pattern_at(hir, c.pattern, out, Ghost(rank));
    walk_expr_at(hir, c.branch, out, Ghost(rank));
    proof {
        assert(events_of(out@) =~= before + switch_case_events(*hir, rank, *c, b));
    }
}

/// Appends the walks of the cases of a `switch`.
fn walk_switch_cases<'a>(
    hir: &'a HirMap,
    cs: &Vec<SwitchCase>,
    out: &mut Vec<VisitItem<'a>>,
    Ghost(rank): Ghost<spec_fn(NodeId) -> nat>,
    Ghost(b): Ghost<nat>,
)
    requires
        ranked_below(*hir, rank, b),
        switch_cases_ok(*hir, rank, cs@, b),
    ensures
        events_of(final(out)@) == events_of(old(out)@) + switch_cases_events(*hir, rank, cs@, b),
    decreases b, 2nat, cs@.len(),
{
    let ghost before = events_of(out@);
    let mut i: usize = 0;
    while i < cs.len()
        invariant
            i <= cs@.len(),
            ranked_below(*hir, rank, b),
            switch_cases_ok(*hir, rank, cs@, b),
            events_of(out@) == before + switch_cases_events(*hir, rank, cs@.subrange(0, i as int), b),
        decreases cs.len() - i,
    {
        proof {
            assert(switch_case_ok(*hir, rank, cs@[i as int], b));
        }
        walk_switch_case(hir, &cs[i], out, Ghost(rank), Ghost(b));
        proof {
            let sub = cs@.subrange(0, i + 1);
            assert(sub.drop_last() =~= cs@.subrange(0, i as int));
            assert(sub.last() == cs@[i as int]);
            assert(events_of(out@) =~= before + switch_cases_events(*hir, rank, sub, b));
        }
        i = i + 1;
    }
    proof {
        assert(cs@.subrange(0, cs@.len() as int) =~= cs@);
    }
}

} // verus!

verus! {

/// The identifiers of struct fields, in order.
fn collect_field_ids(v: &Vec<Field>) -> (r: Vec<NodeId>)
    ensures
        r@ == field_ids(v@),
{
    let mut r: Vec<NodeId> = Vec::new();
    let mut i: usize = 0;
    while i < v.len()
        invariant
            i <= v@.len(),
            r@.len() == i,
            forall|j: int| 0 <= j < i ==> #[trigger] r@[j] == v@[j].id,
        decreases v.len() - i,
    {
        r.push(v[i].id);
        i = i + 1;
    }
    proof {
        assert(r@ =~= field_ids(v@));
    }
    r
}

/// The identifiers of methods, in order.
fn collect_method_ids(v: &Vec<MethodDefinition>) -> (r: Vec<NodeId>)
    ensures
        r@ == method_ids(v@),
{
    let mut r: Vec<NodeId> = Vec::new();
    let mut i: usize = 0;
    while i < v.len()
        invariant
            i <= v@.len(),
            r@.len() == i,
            forall|j: int| 0 <= j < i ==> #[trigger] r@[j] == v@[j].id,
        decreases v.len() - i,
    {
        r.push(v[i].id);
        i = i + 1;
    }
    proof {
        assert(r@ =~= method_ids(v@));
    }
    r
}

/// The identifiers of trait method definitions, in order.
fn collect_trait_method_ids(v: &Vec<TraitMethodDefinition>) -> (r: Vec<NodeId>)
    ensures
        r@ == trait_method_ids(v@),
{
    let mut r: Vec<NodeId> = Vec::new();
    let mut i: usize = 0;
    while i < v.len()
        invariant
            i <= v@.len(),
            r@.len() == i,
            forall|j: int| 0 <= j < i ==> #[trigger] r@[j] == v@[j].id,
        decreases v.len() - i,
    {
        r.push(v[i].id);
        i = i + 1;
    }
    proof {
        assert(r@ =~= trait_method_ids(v@));
    }
    r
}

/// The identifiers of trait method implementations, in order.
fn collect_trait_impl_method_ids(v: &Vec<TraitMethodImplementation>) -> (r: Vec<NodeId>)
    ensures
        r@ == trait_impl_method_ids(v@),
{
    let mut r: Vec<NodeId> = Vec::new();
    let mut i: usize = 0;
    while i < v.len()
        invariant
            i <= v@.len(),
            r@.len() == i,
            forall|j: int| 0 <= j < i ==> #[trigger] r@[j] == v@[j].id,
        decreases v.len() - i,
    {
        r.push(v[i].id);
        i = i + 1;
    }
    proof {
        assert(r@ =~= trait_impl_method_ids(v@));
    }
    r
}

/// Appends the walk of the statements of a block, if there is one.
fn walk_opt_block<'a>(
    hir: &'a HirMap,
    blk: &Option<Block>,
    out: &mut Vec<VisitItem<'a>>,
    Ghost(rank): Ghost<spec_fn(NodeId) -> nat>,
    Ghost(b): Ghost<nat>,
)
    requires
        ranked_below(*hir, rank, b),
        opt_block_ok(*hir, rank, *blk, b),
    ensures
        events_of(final(out)@) == events_of(old(out)@) + opt_block_events(*hir, rank, *blk, b),
{
    match blk {
        Some(k) => walk_stmts(hir, &k.statements, out, Ghost(rank), Ghost(b)),
        None => {
            proof {
                assert(events_of(out@) =~= events_of(out@) + seq![]);
            }
        },
    }
}

/// Appends the walk of the node stored for `id`.
fn walk_node_at<'a>(
    hir: &'a HirMap,
    id: NodeId,
    out: &mut Vec<VisitItem<'a>>,
    Ghost(rank): Ghost<spec_fn(NodeId) -> nat>,
)
    requires
        ranked_below(*hir, rank, rank(id) + 1),
    ensures
        events_of(final(out)@) == events_of(old(out)@) + node_at_events(*hir, rank, id),
    decreases rank(id), 2nat, 0nat,
{
    match hir.node(id) {
        Some(n) => walk_node_body(hir, n, out, Ghost(rank), Ghost(rank(id))),
        None => {
            proof {
                assert(events_of(out@) =~= events_of(out@) + seq![]);
            }
        },
    }
}

/// Appends the walks of the nodes stored for `ids`.
fn walk_nodes<'a>(
    hir: &'a HirMap,
    ids: &Vec<NodeId>,
    out: &mut Vec<VisitItem<'a>>,
    Ghost(rank): Ghost<spec_fn(NodeId) -> nat>,
    Ghost(b): Ghost<nat>,
)
    requires
        ranked_below(*hir, rank, b),
        nodes_ok(*hir, rank, ids@, b),
    ensures
        events_of(final(out)@) == events_of(old(out)@) + nodes_events(*hir, rank, ids@, b),
    decreases b, 0nat, ids@.len(),
{
    let ghost before = events_of(out@);
    let mut i: usize = 0;
    while i < ids.len()
        invariant
            i <= ids@.len(),
            ranked_below(*hir, rank, b),
            nodes_ok(*hir, rank, ids@, b),
            events_of(out@) == before + nodes_events(*hir, rank, ids@.subrange(0, i as int), b),
        decreases ids.len() - i,
    {
        proof {
            assert(node_ok(*hir, rank, ids@[i as int], b));
        }
        walk_node_at(hir, ids[i], out, Ghost(rank));
        proof {
            let sub = ids@.subrange(0, i + 1);
            assert(sub.drop_last() =~= ids@.subrange(0, i as int));
            assert(sub.last() == ids@[i as int]);
            assert(events_of(out@) =~= before + nodes_events(*hir, rank, sub, b));
        }
        i = i + 1;
    }
    proof {
        assert(ids@.subrange(0, ids@.len() as int) =~= ids@);
    }
}

/// Appends the walk of a node whose references are ranked below `b`.
#[verifier::spinoff_prover]
#[verifier::rlimit(60)]
fn walk_node_body<'a>(
    hir: &'a HirMap,
    n: &'a Node,
    out: &mut Vec<VisitItem<'a>>,
    Ghost(rank): Ghost<spec_fn(NodeId) -> nat>,
    Ghost(b): Ghost<nat>,
)
    requires
        ranked_below(*hir, rank, b),
        node_refs_ok(*hir, rank, *n, b),
    ensures
        events_of(final(out)@) == events_of(old(out)@) + node_events(*hir, rank, *n, b),
    decreases b, 1nat, 0nat,
{
    let ghost before = events_of(out@);
    push_item(out, VisitItem::Node(n));
    match n {
        Node::Function(f) => {
            walk_signature(hir, &f.signature, out);
            walk_opt_block(hir, &f.block, out, Ghost(rank), Ghost(b));
        },
        Node::Type(td) => match td {
            TypeDefinition::Struct(sd) => {
                walk_path(&sd.name, out);
                walk_type_params(hir, &sd.type_parameters, out);
                let ids = collect_field_ids(&sd.fields);
                walk_nodes(hir, &ids, out, Ghost(rank), Ghost(b));
            },
            TypeDefinition::Trait(t) => {
                walk_path(&t.name, out);
                walk_type_params(hir, &t.type_parameters, out);
                let ids = collect_trait_method_ids(&t.methods);
                walk_nodes(hir, &ids, out, Ghost(rank), Ghost(b));
            },
            TypeDefinition::Enum(ed) => {
                walk_path(&ed.name, out);
                walk_type_params(hir, &ed.type_parameters, out);
                walk_cases(&ed.cases, out);
            },
            TypeDefinition::TypeParameter(tp) => {
                push_item(out, VisitItem::Identifier(&tp.name));
                walk_types(&tp.constraints, out);
            },
        },
        Node::TraitImpl(t) => {
            walk_type(&*t.name, out);
            walk_type(&*t.target, out);
            walk_type_params(hir, &t.type_parameters, out);
            let ids = collect_trait_impl_method_ids(&t.methods);
            walk_nodes(hir, &ids, out, Ghost(rank), Ghost(b));
        },
        Node::Impl(i) => {
            walk_type(&*i.target, out);
            walk_type_params(hir, &i.type_parameters, out);
            let ids = collect_method_ids(&i.methods);
            walk_nodes(hir, &ids, out, Ghost(rank), Ghost(b));
        },
        Node::Method(f) => {
            walk_signature(hir, &f.signature, out);
            walk_opt_block(hir, &f.block, out, Ghost(rank), Ghost(b));
        },
        Node::TraitMethodDef(f) => {
            walk_signature(hir, &f.signature, out);
            walk_opt_block(hir, &f.block, out, Ghost(rank), Ghost(b));
        },
        Node::TraitMethodImpl(f) => {
            walk_signature(hir, &f.signature, out);
            walk_opt_block(hir, &f.block, out, Ghost(rank), Ghost(b));
        },
        Node::Field(f) => {
            push_item(out, VisitItem::Identifier(&f.name));
            walk_type(&f.field_type, out);
            match f.default_value {
                Some(v) => walk_expr_at(hir, v, out, Ghost(rank)),
                None => {},
            }
        },
        Node::Parameter(p) => {
            push_item(out, VisitItem::Identifier(&p.name));
            walk_type(&p.param_type, out);
        },
        Node::Pattern(p) => walk_pattern_body(hir, p, out, Ghost(rank), Ghost(b)),
        Node::Statement(s) => walk_stmt_body(hir, s, out, Ghost(rank), Ghost(b)),
        Node::Expression(e) => walk_expr_body(hir, e, out, Ghost(rank), Ghost(b)),
        Node::TypeVariable(_) => {},
    }
    proof {
        assert(events_of(out@) =~= before + node_events(*hir, rank, *n, b));
    }
}

} // verus!

verus! {

/// A node can be walked: what it reaches is stored in the map, of the
/// kind looked for, and ordered.
pub open spec fn node_walkable(m: HirMap, n: Node) -> bool {
    exists|rank: spec_fn(NodeId) -> nat, b: nat| ranked_below(m, rank, b) && node_refs_ok(m, rank, n, b)
}

/// The walk of a node which can be walked.
pub open spec fn node_walk(m: HirMap, n: Node) -> Seq<VisitEvent> {
    let (rank, b) = choose|rank: spec_fn(NodeId) -> nat, b: nat|
        ranked_below(m, rank, b) && node_refs_ok(m, rank, n, b);
    node_events(m, rank, n, b)
}

/// A statement can be walked: what it reaches is stored in the map, of
/// the kind looked for, and ordered.
pub open spec fn stmt_walkable(m: HirMap, s: Statement) -> bool {
    exists|rank: spec_fn(NodeId) -> nat, b: nat| ranked_below(m, rank, b) && stmt_refs_ok(m, rank, s, b)
}

/// The walk of a statement which can be walked.
pub open spec fn stmt_walk(m: HirMap, s: Statement) -> Seq<VisitEvent> {
    let (rank, b) = choose|rank: spec_fn(NodeId) -> nat, b: nat|
        ranked_below(m, rank, b) && stmt_refs_ok(m, rank, s, b);
    stmt_events(m, rank, s, b)
}

/// An expression can be walked: what it reaches is stored in the map, of
/// the kind looked for, and ordered.
pub open spec fn expr_walkable(m: HirMap, e: Expression) -> bool {
    exists|rank: spec_fn(NodeId) -> nat, b: nat| ranked_below(m, rank, b) && expr_refs_ok(m, rank, e, b)
}

/// The walk of an expression which can be walked.
pub open spec fn expr_walk(m: HirMap, e: Expression) -> Seq<VisitEvent> {
    let (rank, b) = choose|rank: spec_fn(NodeId) -> nat, b: nat|
        ranked_below(m, rank, b) && expr_refs_ok(m, rank, e, b);
    expr_events(m, rank, e, b)
}

/// A pattern can be walked: what it reaches is stored in the map, of the
/// kind looked for, and ordered.
pub open spec fn pattern_walkable(m: HirMap, p: Pattern) -> bool {
    exists|rank: spec_fn(NodeId) -> nat, b: nat| ranked_below(m, rank, b) && pattern_refs_ok(m, rank, p, b)
}

/// The walk of a pattern which can be walked.
pub open spec fn pattern_walk(m: HirMap, p: Pattern) -> Seq<VisitEvent> {
    let (rank, b) = choose|rank: spec_fn(NodeId) -> nat, b: nat|
        ranked_below(m, rank, b) && pattern_refs_ok(m, rank, p, b);
    pattern_events(m, rank, p, b)
}

/// The walks of the nodes of `entries`, one after the other, each with the
/// rank of its identifier.
pub open spec fn entries_events(m: HirMap, rank: spec_fn(NodeId) -> nat, entries: Seq<(NodeId, Node)>) -> Seq<VisitEvent>
    decreases entries.len(),
{
    if entries.len() == 0 {
        seq![]
    } else {
        entries_events(m, rank, entries.drop_last()) + node_events(
            m,
            rank,
            entries.last().1,
            rank(entries.last().0),
        )
    }
}

/// The walk of a whole map: the walks of all its nodes, in insertion order.
pub open spec fn map_walk(m: HirMap) -> Seq<VisitEvent> {
    let rank = choose|rank: spec_fn(NodeId) -> nat| ranked_by(m, rank);
    entries_events(m, rank, crate::map::node_entries(m.nodes))
}

/// The items below a node, in the order visitors see them.
pub fn walk_node<'a>(hir: &'a HirMap, node: &'a Node) -> (r: Vec<VisitItem<'a>>)
    requires
        node_walkable(*hir, *node),
    ensures
        events_of(r@) == node_walk(*hir, *node),
{
    let ghost (rank, b) = choose|rank: spec_fn(NodeId) -> nat, b: nat|
        ranked_below(*hir, rank, b) && node_refs_ok(*hir, rank, *node, b);
    let mut out: Vec<VisitItem<'a>> = Vec::new();
    walk_node_body(hir, node, &mut out, Ghost(rank), Ghost(b));
    proof {
        assert(events_of(Seq::<VisitItem<'a>>::empty()) =~= Seq::<VisitEvent>::empty());
        assert(events_of(out@) =~= node_walk(*hir, *node));
    }
    out
}

/// The items below a statement, in the order visitors see them.
pub fn walk_stmt<'a>(hir: &'a HirMap, stmt: &'a Statement) -> (r: Vec<VisitItem<'a>>)
    requires
        stmt_walkable(*hir, *stmt),
    ensures
        events_of(r@) == stmt_walk(*hir, *stmt),
{
    let ghost (rank, b) = choose|rank: spec_fn(NodeId) -> nat, b: nat|
        ranked_below(*hir, rank, b) && stmt_refs_ok(*hir, rank, *stmt, b);
    let mut out: Vec<VisitItem<'a>> = Vec::new();
    walk_stmt_body(hir, stmt, &mut out, Ghost(rank), Ghost(b));
    proof {
        assert(events_of(Seq::<VisitItem<'a>>::empty()) =~= Seq::<VisitEvent>::empty());
        assert(events_of(out@) =~= stmt_walk(*hir, *stmt));
    }
    out
}

/// The items below an expression, in the order visitors see them.
pub fn walk_expr<'a>(hir: &'a HirMap, expr: &'a Expression) -> (r: Vec<VisitItem<'a>>)
    requires
        expr_walkable(*hir, *expr),
    ensures
        events_of(r@) == expr_walk(*hir, *expr),
{
    let ghost (rank, b) = choose|rank: spec_fn(NodeId) -> nat, b: nat|
        ranked_below(*hir, rank, b) && expr_refs_ok(*hir, rank, *expr, b);
    let mut out: Vec<VisitItem<'a>> = Vec::new();
    walk_expr_body(hir, expr, &mut out, Ghost(rank), Ghost(b));
    proof {
        assert(events_of(Seq::<VisitItem<'a>>::empty()) =~= Seq::<VisitEvent>::empty());
        assert(events_of(out@) =~= expr_walk(*hir, *expr));
    }
    out
}

/// The items below a pattern, in the order visitors see them.
pub fn walk_pattern<'a>(hir: &'a HirMap, pattern: &'a Pattern) -> (r: Vec<VisitItem<'a>>)
    requires
        pattern_walkable(*hir, *pattern),
    ensures
        events_of(r@) == pattern_walk(*hir, *pattern),
{
    let ghost (rank, b) = choose|rank: spec_fn(NodeId) -> nat, b: nat|
        ranked_below(*hir, rank, b) && pattern_refs_ok(*hir, rank, *pattern, b);
    let mut out: Vec<VisitItem<'a>> = Vec::new();
    walk_pattern_body(hir, pattern, &mut out, Ghost(rank), Ghost(b));
    proof {
        assert(events_of(Seq::<VisitItem<'a>>::empty()) =~= Seq::<VisitEvent>::empty());
        assert(events_of(out@) =~= pattern_walk(*hir, *pattern));
    }
    out
}

/// The items of a whole map: the walks of its nodes, in insertion order.
pub fn walk_map<'a>(hir: &'a HirMap) -> (r: Vec<VisitItem<'a>>)
    requires
        hir.well_formed(),
        acyclic(*hir),
    ensures
        events_of(r@) == map_walk(*hir),
{
    let ghost rank = choose|rank: spec_fn(NodeId) -> nat| ranked_by(*hir, rank);
    let ghost e = crate::map::node_entries(hir.nodes);
    let mut out: Vec<VisitItem<'a>> = Vec::new();
    let n = hir.node_count();
    let mut i: usize = 0;
    proof {
        assert(events_of(out@) =~= entries_events(*hir, rank, e.subrange(0, 0)));
    }
    while i < n
        invariant
            i <= n,
            n == e.len(),
            e == crate::map::node_entries(hir.nodes),
            hir.well_formed(),
            ranked_by(*hir, rank),
            events_of(out@) == entries_events(*hir, rank, e.subrange(0, i as int)),
        decreases n - i,
    {
        match hir.node_entry(i) {
            Some((id, node)) => {
                proof {
                    crate::map::lemma_key_index_unique(e, id, i as int);
                    assert(hir.spec_node(id) == Some(*node));
                }
                walk_node_body(hir, node, &mut out, Ghost(rank), Ghost(rank(id)));
                proof {
                    let sub = e.subrange(0, i + 1);
                    assert(sub.drop_last() =~= e.subrange(0, i as int));
                    assert(sub.last() == (id, *node));
                    assert(events_of(out@) =~= entries_events(*hir, rank, sub));
                }
            },
            None => {},
        }
        i = i + 1;
    }
    proof {
        assert(e.subrange(0, n as int) =~= e);
    }
    out
}

} // verus!

verus! {

/// The expressions which an expression holds directly, as its operands:
/// the target and value of an assignment, the source of a cast, the field
/// values of a construction, the target of a reference, dereference or
/// `is`, the arguments of a call (after the receiver of a method call), the
/// operands of an intrinsic, the callee of a member access, the operand of
/// a `switch` and the arguments of a variant. What an expression holds
/// through its cases or blocks is not among them.
pub open spec fn expr_operands(e: Expression) -> Seq<NodeId> {
    match e.kind {
        ExpressionKind::Assignment(a) => seq![a.target, a.value],
        ExpressionKind::Cast(c) => seq![c.source],
        ExpressionKind::Construct(c) => field_values(c.fields@),
        ExpressionKind::Ref(r) => seq![r.target],
        ExpressionKind::Deref(d) => seq![d.target],
        ExpressionKind::StaticCall(c) => c.arguments@,
        ExpressionKind::InstanceCall(c) => seq![c.callee] + c.arguments@,
        ExpressionKind::IntrinsicCall(c) => c.kind.spec_arguments(),
        ExpressionKind::Is(i) => seq![i.target],
        ExpressionKind::Member(x) => seq![x.callee],
        ExpressionKind::Switch(s) => seq![s.operand],
        ExpressionKind::Variant(v) => v.arguments@,
        _ => seq![],
    }
}

/// What a sequence holds, a longer one which starts or ends with it holds.
pub proof fn lemma_contains_in_concat<A>(s: Seq<A>, t: Seq<A>, x: A)
    ensures
        s.contains(x) ==> (s + t).contains(x),
        t.contains(x) ==> (s + t).contains(x),
{
    if s.contains(x) {
        let k = choose|k: int| 0 <= k < s.len() && s[k] == x;
        assert((s + t)[k] == x);
    }
    if t.contains(x) {
        let k = choose|k: int| 0 <= k < t.len() && t[k] == x;
        assert((s + t)[s.len() + k] == x);
    }
}

/// The walk of an expression which an item ranked `b` refers to, and which
/// is stored below that rank, starts with the expression.
proof fn lemma_ref_events_show(m: HirMap, rank: spec_fn(NodeId) -> nat, id: NodeId, b: nat)
    requires
        expr_ok(m, rank, id, b),
    ensures
        expr_ref_events(m, rank, id, b).contains(VisitEvent::Expression(m.spec_expression(id)->Some_0)),
{
    let ev = expr_ref_events(m, rank, id, b);
    assert(ev[0] == VisitEvent::Expression(m.spec_expression(id)->Some_0));
}

/// The walks of expressions which an item ranked `b` refers to show each of
/// them.
proof fn lemma_exprs_events_show(m: HirMap, rank: spec_fn(NodeId) -> nat, ids: Seq<NodeId>, b: nat, k: int)
    requires
        exprs_ok(m, rank, ids, b),
        0 <= k < ids.len(),
    ensures
        exprs_events(m, rank, ids, b).contains(VisitEvent::Expression(m.spec_expression(ids[k])->Some_0)),
    decreases ids.len(),
{
    let x = VisitEvent::Expression(m.spec_expression(ids[k])->Some_0);
    let prev = exprs_events(m, rank, ids.drop_last(), b);
    let last = if rank(ids.last()) < b {
        expr_at_events(m, rank, ids.last())
    } else {
        seq![]
    };
    assert(expr_ok(m, rank, ids[k], b));
    if k == ids.len() - 1 {
        assert(last == expr_ref_events(m, rank, ids.last(), b));
        lemma_ref_events_show(m, rank, ids.last(), b);
        lemma_contains_in_concat(prev, last, x);
    } else {
        assert forall|i: int| 0 <= i < ids.drop_last().len() implies expr_ok(m, rank, #[trigger] ids.drop_last()[i], b) by {
            assert(ids.drop_last()[i] == ids[i]);
        }
        lemma_exprs_events_show(m, rank, ids.drop_last(), b, k);
        assert(ids.drop_last()[k] == ids[k]);
        lemma_contains_in_concat(prev, last, x);
    }
}

/// The walk of an expression shows each of its operands.
proof fn lemma_expr_events_show_operands(m: HirMap, rank: spec_fn(NodeId) -> nat, e: Expression, b: nat, c: NodeId)
    requires
        expr_refs_ok(m, rank, e, b),
        expr_operands(e).contains(c),
    ensures
        m.spec_expression(c) is Some,
        expr_events(m, rank, e, b).contains(VisitEvent::Expression(m.spec_expression(c)->Some_0)),
{
    let x = VisitEvent::Expression(m.spec_expression(c)->Some_0);
    let ops = expr_operands(e);
    let k = choose|k: int| 0 <= k < ops.len() && ops[k] == c;
    let head = seq![VisitEvent::Expression(e)];
    match e.kind {
        ExpressionKind::Assignment(a) => {
            let t = expr_ref_events(m, rank, a.target, b);
            let v = expr_ref_events(m, rank, a.value, b);
            lemma_ref_events_show(m, rank, a.target, b);
            lemma_ref_events_show(m, rank, a.value, b);
            lemma_contains_in_concat(t, v, x);
            lemma_contains_in_concat(head, t + v, x);
        },
        ExpressionKind::Cast(cs) => {
            let t = expr_ref_events(m, rank, cs.source, b);
            lemma_ref_events_show(m, rank, cs.source, b);
            lemma_contains_in_concat(t, type_events(type_view(cs.target)), x);
            lemma_contains_in_concat(head, t + type_events(type_view(cs.target)), x);
        },
        ExpressionKind::Construct(cs) => {
            let p = path_events(path_view(cs.path));
            let t = exprs_events(m, rank, field_values(cs.fields@), b);
            lemma_exprs_events_show(m, rank, field_values(cs.fields@), b, k);
            lemma_contains_in_concat(p, t, x);
            lemma_contains_in_concat(head, p + t, x);
        },
        ExpressionKind::Ref(r) => {
            let t = expr_ref_events(m, rank, r.target, b);
            lemma_ref_events_show(m, rank, r.target, b);
            lemma_contains_in_concat(head, t, x);
        },
        ExpressionKind::Deref(d) => {
            let t = expr_ref_events(m, rank, d.target, b);
            lemma_ref_events_show(m, rank, d.target, b);
            lemma_contains_in_concat(head, t, x);
        },
        ExpressionKind::StaticCall(cs) => {
            let p = path_events(path_view(cs.name));
            let t = exprs_events(m, rank, cs.arguments@, b);
            lemma_exprs_events_show(m, rank, cs.arguments@, b, k);
            lemma_contains_in_concat(p, t, x);
            lemma_contains_in_concat(head, p + t, x);
        },
        ExpressionKind::InstanceCall(cs) => {
            let sg = segment_events(segment_view(cs.name));
            let t = expr_ref_events(m, rank, cs.callee, b);
            let a = exprs_events(m, rank, cs.arguments@, b);
            if k == 0 {
                lemma_ref_events_show(m, rank, cs.callee, b);
                lemma_contains_in_concat(sg, t, x);
                lemma_contains_in_concat(sg + t, a, x);
            } else {
                assert(ops[k] == cs.arguments@[k - 1]);
                lemma_exprs_events_show(m, rank, cs.arguments@, b, k - 1);
                lemma_contains_in_concat(sg + t, a, x);
            }
            lemma_contains_in_concat(head, sg + t + a, x);
        },
        ExpressionKind::IntrinsicCall(cs) => {
            let t = exprs_events(m, rank, cs.kind.spec_arguments(), b);
            lemma_exprs_events_show(m, rank, cs.kind.spec_arguments(), b, k);
            lemma_contains_in_concat(head, t, x);
        },
        ExpressionKind::Is(i) => {
            let t = expr_ref_events(m, rank, i.target, b);
            let pt = pattern_ref_events(m, rank, i.pattern, b);
            lemma_ref_events_show(m, rank, i.target, b);
            lemma_contains_in_concat(t, pt, x);
            lemma_contains_in_concat(head, t + pt, x);
        },
        ExpressionKind::Member(mb) => {
            let t = expr_ref_events(m, rank, mb.callee, b);
            lemma_ref_events_show(m, rank, mb.callee, b);
            lemma_contains_in_concat(head, t, x);
        },
        ExpressionKind::Switch(sw) => {
            let t = expr_ref_events(m, rank, sw.operand, b);
            let cs = switch_cases_events(m, rank, sw.cases@, b);
            lemma_ref_events_show(m, rank, sw.operand, b);
            lemma_contains_in_concat(t, cs, x);
            lemma_contains_in_concat(head, t + cs, x);
        },
        ExpressionKind::Variant(v) => {
            let p = path_events(path_view(v.name));
            let t = exprs_events(m, rank, v.arguments@, b);
            lemma_exprs_events_show(m, rank, v.arguments@, b, k);
            lemma_contains_in_concat(p, t, x);
            lemma_contains_in_concat(head, p + t, x);
        },
        _ => {
            assert(ops.len() == 0);
        },
    }
}

/// The walk of an expression shows every expression it holds as an operand
/// ([`expr_operands`]): a visitor which is taken through an expression is
/// shown each of its operands as well, such as the callee of a member
/// access.
pub proof fn law_walk_shows_operands(m: HirMap, e: Expression, c: NodeId)
    requires
        expr_walkable(m, e),
        expr_operands(e).contains(c),
    ensures
        m.spec_expression(c) is Some,
        expr_walk(m, e).contains(VisitEvent::Expression(m.spec_expression(c)->Some_0)),
{
    let (rank, b) = choose|rank: spec_fn(NodeId) -> nat, b: nat|
        ranked_below(m, rank, b) && expr_refs_ok(m, rank, e, b);
    lemma_expr_events_show_operands(m, rank, e, b, c);
}

/// The expression which a statement holds directly: the value of a `let`,
/// `final` or `return` statement, or the expression of an expression
/// statement. What a loop holds through its block is not among them.
pub open spec fn stmt_operands(s: Statement) -> Seq<NodeId> {
    match s.kind {
        StatementKind::Variable(d) => seq![d.value],
        StatementKind::Final(f) => seq![f.value],
        StatementKind::Return(r) => match r.value {
            Some(v) => seq![v],
            None => seq![],
        },
        StatementKind::Expression(e) => seq![e],
        _ => seq![],
    }
}

/// The walk of a statement shows the expression it holds directly
/// ([`stmt_operands`]): a visitor taken through `return x;` is shown `x`.
pub proof fn law_walk_shows_statement_operands(m: HirMap, st: Statement, c: NodeId)
    requires
        stmt_walkable(m, st),
        stmt_operands(st).contains(c),
    ensures
        m.spec_expression(c) is Some,
        stmt_walk(m, st).contains(VisitEvent::Expression(m.spec_expression(c)->Some_0)),
{
    let (rank, b) = choose|rank: spec_fn(NodeId) -> nat, b: nat|
        ranked_below(m, rank, b) && stmt_refs_ok(m, rank, st, b);
    let x = VisitEvent::Expression(m.spec_expression(c)->Some_0);
    let head = seq![VisitEvent::Statement(st)];
    let ops = stmt_operands(st);
    assert(ops[0] == c);
    match st.kind {
        StatementKind::Variable(d) => {
            let pre = seq![VisitEvent::Identifier(d.name)] + match d.declared_type {
                Some(t) => type_events(type_view(t)),
                None => seq![],
            };
            let t = expr_ref_events(m, rank, d.value, b);
            lemma_ref_events_show(m, rank, d.value, b);
            lemma_contains_in_concat(pre, t, x);
            lemma_contains_in_concat(head, pre + t, x);
        },
        StatementKind::Final(f) => {
            lemma_ref_events_show(m, rank, f.value, b);
            lemma_contains_in_concat(head, expr_ref_events(m, rank, f.value, b), x);
        },
        StatementKind::Return(r) => {
            let v = r.value->Some_0;
            lemma_ref_events_show(m, rank, v, b);
            lemma_contains_in_concat(head, expr_ref_events(m, rank, v, b), x);
        },
        StatementKind::Expression(e) => {
            lemma_ref_events_show(m, rank, e, b);
            lemma_contains_in_concat(head, expr_ref_events(m, rank, e, b), x);
        },
        _ => {},
    }
}

/// A walk starts with the item it was started at: a visitor is shown a
/// node before anything below it.
pub proof fn law_walk_starts_at_the_node(m: HirMap, n: Node)
    requires
        node_walkable(m, n),
    ensures
        node_walk(m, n).len() > 0,
        node_walk(m, n)[0] == VisitEvent::Node(n),
{
}

/// The walks of entries show each of their nodes.
proof fn lemma_entries_show_nodes(m: HirMap, rank: spec_fn(NodeId) -> nat, e: Seq<(NodeId, Node)>, i: int)
    requires
        0 <= i < e.len(),
    ensures
        entries_events(m, rank, e).contains(VisitEvent::Node(e[i].1)),
    decreases e.len(),
{
    let prev = entries_events(m, rank, e.drop_last());
    let last = node_events(m, rank, e.last().1, rank(e.last().0));
    if i == e.len() - 1 {
        assert(last[0] == VisitEvent::Node(e[i].1));
        assert((prev + last)[prev.len() as int] == VisitEvent::Node(e[i].1));
    } else {
        lemma_entries_show_nodes(m, rank, e.drop_last(), i);
        let k = choose|k: int| 0 <= k < prev.len() && prev[k] == VisitEvent::Node(e[i].1);
        assert((prev + last)[k] == VisitEvent::Node(e[i].1));
    }
}

/// Traversing a whole map shows every node stored in it.
pub proof fn law_map_walk_shows_every_node(m: HirMap, id: NodeId)
    requires
        m.well_formed(),
        acyclic(m),
        m.spec_node(id) is Some,
    ensures
        map_walk(m).contains(VisitEvent::Node(m.spec_node(id)->Some_0)),
{
    let e = crate::map::node_entries(m.nodes);
    crate::map::lemma_key_index(e, id);
    let i = crate::map::key_index(e, id)->Some_0;
    let rank = choose|rank: spec_fn(NodeId) -> nat| ranked_by(m, rank);
    lemma_entries_show_nodes(m, rank, e, i);
}

} // verus!
