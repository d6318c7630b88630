//! The ancestry of HIR nodes: which item, statement or expression each
//! node lies directly inside of, found by descending through the items of a
//! map.
use vstd::prelude::*;

use crate::hir::node::{
    Block, Condition, ConstructorField, Expression, ExpressionKind, Field, FnSignature, MethodDefinition, Node,
    Parameter, Pattern, PatternKind, Statement, StatementKind, SwitchCase, TraitMethodDefinition,
    TraitMethodImplementation, TypeDefinition,
};
use crate::hir::walk::{
    expr_operands, stmt_operands, lemma_contains_in_concat, condition_ok, conditions_ok, expr_ok, expr_refs_ok, exprs_ok, field_values, opt_block_ok, pattern_ok,
    pattern_refs_ok, patterns_ok, ranked_by, stmt_ok, stmt_refs_ok, stmts_ok, switch_case_ok, switch_cases_ok,
};
use crate::map::{distinct_keys, entries_get, entries_insert, insert_all, lemma_insert_distinct, node_entries, HirMap};
use crate::span::NodeId;

verus! {

/// A link of the ancestry: `child` lies directly inside `parent`. A
/// `checked` link must agree with any earlier link of the same child.
#[derive(Debug, Clone, Copy)]
pub struct ScopeLink {
    pub child: NodeId,
    pub parent: NodeId,
    pub checked: bool,
}

/// The link of `child` to `parent`.
pub open spec fn link(child: NodeId, parent: NodeId, checked: bool) -> ScopeLink {
    ScopeLink { child, parent, checked }
}

/// Unchecked links of each of `ids` to `parent`.
pub open spec fn unchecked_links(ids: Seq<NodeId>, parent: NodeId) -> Seq<ScopeLink> {
    ids.map_values(|c: NodeId| link(c, parent, false))
}

/// Unchecked links of each parameter to `parent`.
pub open spec fn param_links(ps: Seq<Parameter>, parent: NodeId) -> Seq<ScopeLink> {
    ps.map_values(|p: Parameter| link(p.id, parent, false))
}

/// The links below the statement stored for `id`, which lies inside
/// `parent`: the statement's own link first.
pub open spec fn stmt_scope_at(m: HirMap, rank: spec_fn(NodeId) -> nat, id: NodeId, parent: NodeId) -> Seq<ScopeLink>
    decreases rank(id), 6nat, 0nat,
{
    seq![link(id, parent, true)] + match m.spec_statement(id) {
        Some(s) => stmt_scope(m, rank, s, id, rank(id)),
        None => seq![],
    }
}

/// The links below the expression stored for `id`, which lies inside
/// `parent`: the expression's own link first.
pub open spec fn expr_scope_at(m: HirMap, rank: spec_fn(NodeId) -> nat, id: NodeId, parent: NodeId) -> Seq<ScopeLink>
    decreases rank(id), 6nat, 0nat,
{
    seq![link(id, parent, true)] + match m.spec_expression(id) {
        Some(e) => expr_scope(m, rank, e, id, rank(id)),
        None => seq![],
    }
}

/// The links below the pattern stored for `id`, which lies inside
/// `parent`: the pattern's own link first.
pub open spec fn pattern_scope_at(m: HirMap, rank: spec_fn(NodeId) -> nat, id: NodeId, parent: NodeId) -> Seq<ScopeLink>
    decreases rank(id), 6nat, 0nat,
{
    seq![link(id, parent, true)] + match m.spec_pattern(id) {
        Some(p) => pattern_scope(m, rank, p, id, rank(id)),
        None => seq![],
    }
}

/// The links below an expression referred to from an item ranked `b`.
pub open spec fn expr_scope_ref(m: HirMap, rank: spec_fn(NodeId) -> nat, id: NodeId, parent: NodeId, b: nat) -> Seq<ScopeLink>
    decreases b, 0nat, 0nat,
{
    if rank(id) < b {
        expr_scope_at(m, rank, id, parent)
    } else {
        seq![]
    }
}

/// The links below a pattern referred to from an item ranked `b`.
pub open spec fn pattern_scope_ref(m: HirMap, rank: spec_fn(NodeId) -> nat, id: NodeId, parent: NodeId, b: nat) -> Seq<ScopeLink>
    decreases b, 0nat, 0nat,
{
    if rank(id) < b {
        pattern_scope_at(m, rank, id, parent)
    } else {
        seq![]
    }
}

/// The links below the statements stored for `ids`, one after the other.
pub open spec fn stmts_scope(m: HirMap, rank: spec_fn(NodeId) -> nat, ids: Seq<NodeId>, parent: NodeId, b: nat) -> Seq<ScopeLink>
    decreases b, 1nat, ids.len(),
{
    if ids.len() == 0 {
        seq![]
    } else {
        stmts_scope(m, rank, ids.drop_last(), parent, b) + if rank(ids.last()) < b {
            stmt_scope_at(m, rank, ids.last(), parent)
        } else {
            seq![]
        }
    }
}

/// The links below the expressions stored for `ids`, one after the other.
pub open spec fn exprs_scope(m: HirMap, rank: spec_fn(NodeId) -> nat, ids: Seq<NodeId>, parent: NodeId, b: nat) -> Seq<ScopeLink>
    decreases b, 1nat, ids.len(),
{
    if ids.len() == 0 {
        seq![]
    } else {
        exprs_scope(m, rank, ids.drop_last(), parent, b) + expr_scope_ref(m, rank, ids.last(), parent, b)
    }
}

/// The links below the patterns stored for `ids`, one after the other.
pub open spec fn patterns_scope(m: HirMap, rank: spec_fn(NodeId) -> nat, ids: Seq<NodeId>, parent: NodeId, b: nat) -> Seq<ScopeLink>
    decreases b, 1nat, ids.len(),
{
    if ids.len() == 0 {
        seq![]
    } else {
        patterns_scope(m, rank, ids.drop_last(), parent, b) + pattern_scope_ref(m, rank, ids.last(), parent, b)
    }
}

/// The links below the statements of a block of the map's own package;
/// blocks of other packages are skipped.
pub open spec fn block_scope(m: HirMap, rank: spec_fn(NodeId) -> nat, blk: Block, parent: NodeId, b: nat) -> Seq<ScopeLink>
    decreases b, 2nat, 0nat,
{
    if blk.id.package == m.package {
        stmts_scope(m, rank, blk.statements@, parent, b)
    } else {
        seq![]
    }
}

/// The links below one case of an `if`: its condition, then its block.
pub open spec fn condition_scope(m: HirMap, rank: spec_fn(NodeId) -> nat, c: Condition, parent: NodeId, b: nat) -> Seq<ScopeLink>
    decreases b, 3nat, 0nat,
{
    let head = match c.condition {
        Some(x) => expr_scope_ref(m, rank, x, parent, b),
        None => seq![],
    };
    head + block_scope(m, rank, c.block, parent, b)
}

/// The links below the cases of an `if`, one after the other.
pub open spec fn conditions_scope(m: HirMap, rank: spec_fn(NodeId) -> nat, cs: Seq<Condition>, parent: NodeId, b: nat) -> Seq<ScopeLink>
    decreases b, 4nat, cs.len(),
{
    if cs.len() == 0 {
        seq![]
    } else {
        conditions_scope(m, rank, cs.drop_last(), parent, b) + condition_scope(m, rank, cs.last(), parent, b)
    }
}

/// The links below the cases of a `switch`: each pattern, then its branch.
pub open spec fn switch_cases_scope(m: HirMap, rank: spec_fn(NodeId) -> nat, cs: Seq<SwitchCase>, parent: NodeId, b: nat) -> Seq<ScopeLink>
    decreases b, 4nat, cs.len(),
{
    if cs.len() == 0 {
        seq![]
    } else {
        switch_cases_scope(m, rank, cs.drop_last(), parent, b) + pattern_scope_ref(m, rank, cs.last().pattern, parent, b)
            + expr_scope_ref(m, rank, cs.last().branch, parent, b)
    }
}

/// The links below a statement with identifier `id`.
pub open spec fn stmt_scope(m: HirMap, rank: spec_fn(NodeId) -> nat, s: Statement, id: NodeId, b: nat) -> Seq<ScopeLink>
    decreases b, 5nat, 0nat,
{
    match s.kind {
        StatementKind::Variable(d) => expr_scope_ref(m, rank, d.value, id, b),
        StatementKind::Break(_) => seq![],
        StatementKind::Continue(_) => seq![],
        StatementKind::Final(f) => expr_scope_ref(m, rank, f.value, id, b),
        StatementKind::Return(r) => match r.value {
            Some(v) => expr_scope_ref(m, rank, v, id, b),
            None => seq![],
        },
        StatementKind::InfiniteLoop(l) => block_scope(m, rank, l.block, id, b),
        StatementKind::Expression(e) => expr_scope_ref(m, rank, e, id, b),
    }
}

/// The links below an expression with identifier `id`.
pub open spec fn expr_scope(m: HirMap, rank: spec_fn(NodeId) -> nat, e: Expression, id: NodeId, b: nat) -> Seq<ScopeLink>
    decreases b, 5nat, 0nat,
{
    match e.kind {
        ExpressionKind::Assignment(a) => expr_scope_ref(m, rank, a.target, id, b) + expr_scope_ref(m, rank, a.value, id, b),
        ExpressionKind::Cast(c) => expr_scope_ref(m, rank, c.source, id, b),
        ExpressionKind::Construct(c) => exprs_scope(m, rank, field_values(c.fields@), id, b),
        ExpressionKind::Ref(r) => expr_scope_ref(m, rank, r.target, id, b),
        ExpressionKind::Deref(d) => expr_scope_ref(m, rank, d.target, id, b),
        ExpressionKind::InstanceCall(c) => expr_scope_ref(m, rank, c.callee, id, b) + exprs_scope(
            m,
            rank,
            c.arguments@,
            id,
            b,
        ),
        ExpressionKind::IntrinsicCall(c) => exprs_scope(m, rank, c.kind.spec_arguments(), id, b),
        ExpressionKind::If(i) => conditions_scope(m, rank, i.cases@, id, b),
        ExpressionKind::Is(i) => expr_scope_ref(m, rank, i.target, id, b) + pattern_scope_ref(m, rank, i.pattern, id, b),
        ExpressionKind::Member(x) => expr_scope_ref(m, rank, x.callee, id, b),
        ExpressionKind::StaticCall(c) => exprs_scope(m, rank, c.arguments@, id, b),
        ExpressionKind::Scope(s) => stmts_scope(m, rank, s.body@, id, b),
        ExpressionKind::Switch(s) => expr_scope_ref(m, rank, s.operand, id, b) + switch_cases_scope(
            m,
            rank,
            s.cases@,
            id,
            b,
        ),
        ExpressionKind::Variant(v) => exprs_scope(m, rank, v.arguments@, id, b),
        ExpressionKind::Literal(_) => seq![],
        ExpressionKind::Variable(_) => seq![],
        ExpressionKind::Missing => seq![],
    }
}

/// The links below a pattern with identifier `id`: the fields of a variant
/// pattern.
pub open spec fn pattern_scope(m: HirMap, rank: spec_fn(NodeId) -> nat, p: Pattern, id: NodeId, b: nat) -> Seq<ScopeLink>
    decreases b, 5nat, 0nat,
{
    match p.kind {
        PatternKind::Variant(v) => patterns_scope(m, rank, v.fields@, id, b),
        _ => seq![],
    }
}

/// The links below a body, if there is one.
pub open spec fn opt_block_scope(m: HirMap, rank: spec_fn(NodeId) -> nat, blk: Option<Block>, parent: NodeId, b: nat) -> Seq<ScopeLink> {
    match blk {
        Some(k) => block_scope(m, rank, k, parent, b),
        None => seq![],
    }
}

/// The links of a method with identifier `id` inside `parent`: the method,
/// its type parameters, its parameters, then its body.
pub open spec fn method_scope(
    m: HirMap,
    rank: spec_fn(NodeId) -> nat,
    id: NodeId,
    sig: FnSignature,
    blk: Option<Block>,
    parent: NodeId,
    b: nat,
) -> Seq<ScopeLink> {
    seq![link(id, parent, true)] + unchecked_links(sig.type_parameters@, id) + param_links(sig.parameters@, id)
        + opt_block_scope(m, rank, blk, id, b)
}

/// The links of the fields of a struct, each with its default value.
pub open spec fn fields_scope(m: HirMap, rank: spec_fn(NodeId) -> nat, fs: Seq<Field>, parent: NodeId, b: nat) -> Seq<ScopeLink>
    decreases fs.len(),
{
    if fs.len() == 0 {
        seq![]
    } else {
        let f = fs.last();
        fields_scope(m, rank, fs.drop_last(), parent, b) + seq![link(f.id, parent, true)] + match f.default_value {
            Some(v) => expr_scope_ref(m, rank, v, f.id, b),
            None => seq![],
        }
    }
}

/// The links of the methods of an implementation.
pub open spec fn impl_methods_scope(m: HirMap, rank: spec_fn(NodeId) -> nat, ms: Seq<MethodDefinition>, parent: NodeId, b: nat) -> Seq<ScopeLink>
    decreases ms.len(),
{
    if ms.len() == 0 {
        seq![]
    } else {
        impl_methods_scope(m, rank, ms.drop_last(), parent, b) + method_scope(
            m,
            rank,
            ms.last().id,
            ms.last().signature,
            ms.last().block,
            parent,
            b,
        )
    }
}

/// The links of the methods of a trait.
pub open spec fn trait_methods_scope(m: HirMap, rank: spec_fn(NodeId) -> nat, ms: Seq<TraitMethodDefinition>, parent: NodeId, b: nat) -> Seq<ScopeLink>
    decreases ms.len(),
{
    if ms.len() == 0 {
        seq![]
    } else {
        trait_methods_scope(m, rank, ms.drop_last(), parent, b) + method_scope(
            m,
            rank,
            ms.last().id,
            ms.last().signature,
            ms.last().block,
            parent,
            b,
        )
    }
}

/// The links of the methods of a trait implementation.
pub open spec fn trait_impl_methods_scope(
    m: HirMap,
    rank: spec_fn(NodeId) -> nat,
    ms: Seq<TraitMethodImplementation>,
    parent: NodeId,
    b: nat,
) -> Seq<ScopeLink>
    decreases ms.len(),
{
    if ms.len() == 0 {
        seq![]
    } else {
        trait_impl_methods_scope(m, rank, ms.drop_last(), parent, b) + method_scope(
            m,
            rank,
            ms.last().id,
            ms.last().signature,
            ms.last().block,
            parent,
            b,
        )
    }
}

/// The links below a node of the map ranked `b`: those of structs, traits,
/// implementations and functions; other nodes are reached from these.
pub open spec fn node_scope(m: HirMap, rank: spec_fn(NodeId) -> nat, n: Node, b: nat) -> Seq<ScopeLink> {
    match n {
        Node::Type(TypeDefinition::Struct(s)) => unchecked_links(s.type_parameters@, s.id) + fields_scope(
            m,
            rank,
            s.fields@,
            s.id,
            b,
        ),
        Node::Type(TypeDefinition::Trait(t)) => unchecked_links(t.type_parameters@, t.id) + trait_methods_scope(
            m,
            rank,
            t.methods@,
            t.id,
            b,
        ),
        Node::Impl(i) => unchecked_links(i.type_parameters@, i.id) + impl_methods_scope(m, rank, i.methods@, i.id, b),
        Node::TraitImpl(t) => unchecked_links(t.type_parameters@, t.id) + trait_impl_methods_scope(
            m,
            rank,
            t.methods@,
            t.id,
            b,
        ),
        Node::Function(f) => unchecked_links(f.signature.type_parameters@, f.id) + param_links(
            f.signature.parameters@,
            f.id,
        ) + opt_block_scope(m, rank, f.block, f.id, b),
        _ => seq![],
    }
}

/// The links below the given entries of the map, in order.
pub open spec fn entries_scope(m: HirMap, rank: spec_fn(NodeId) -> nat, e: Seq<(NodeId, Node)>) -> Seq<ScopeLink>
    decreases e.len(),
{
    if e.len() == 0 {
        seq![]
    } else {
        entries_scope(m, rank, e.drop_last()) + node_scope(m, rank, e.last().1, rank(e.last().0))
    }
}

/// The references which the descent follows inside the items that a node
/// holds by value (the fields of a struct, the methods of a trait or of an
/// implementation) are ranked below the node.
pub open spec fn embedded_refs_ok(m: HirMap, rank: spec_fn(NodeId) -> nat, n: Node, b: nat) -> bool {
    match n {
        Node::Type(TypeDefinition::Struct(s)) => forall|k: int|
            0 <= k < s.fields@.len() ==> match (#[trigger] s.fields@[k]).default_value {
                Some(v) => expr_ok(m, rank, v, b),
                None => true,
            },
        Node::Type(TypeDefinition::Trait(t)) => forall|k: int|
            0 <= k < t.methods@.len() ==> opt_block_ok(m, rank, (#[trigger] t.methods@[k]).block, b),
        Node::Impl(i) => forall|k: int| 0 <= k < i.methods@.len() ==> opt_block_ok(m, rank, (#[trigger] i.methods@[k]).block, b),
        Node::TraitImpl(t) => forall|k: int|
            0 <= k < t.methods@.len() ==> opt_block_ok(m, rank, (#[trigger] t.methods@[k]).block, b),
        _ => true,
    }
}

/// `rank` orders the map for a walk, and orders the items that its nodes
/// hold by value as well.
pub open spec fn scope_ranked_by(m: HirMap, rank: spec_fn(NodeId) -> nat) -> bool {
    &&& ranked_by(m, rank)
    &&& forall|id: NodeId| (#[trigger] m.spec_node(id)) is Some ==> embedded_refs_ok(
        m,
        rank,
        m.spec_node(id)->Some_0,
        rank(id),
    )
}

/// Some rank orders the map and the items its nodes hold.
pub open spec fn scopes_acyclic(m: HirMap) -> bool {
    exists|rank: spec_fn(NodeId) -> nat| scope_ranked_by(m, rank)
}

/// The links of the whole map, in the order the descent finds them.
pub open spec fn hir_scope_links(m: HirMap) -> Seq<ScopeLink> {
    entries_scope(m, choose|rank: spec_fn(NodeId) -> nat| scope_ranked_by(m, rank), node_entries(m.nodes))
}

} // verus!

verus! {

/// Appends the link of `child` to `parent`.
fn push_link(out: &mut Vec<ScopeLink>, child: NodeId, parent: NodeId, checked: bool)
    ensures
        final(out)@ == old(out)@.push(link(child, parent, checked)),
{
    out.push(ScopeLink { child, parent, checked });
}

/// Appends the links below the statement stored for `id`.
fn scope_stmt_at(hir: &HirMap, id: NodeId, parent: NodeId, out: &mut Vec<ScopeLink>, Ghost(rank): Ghost<spec_fn(NodeId) -> nat>)
    requires
        ranked_by(*hir, rank),
    ensures
        final(out)@ == old(out)@ + stmt_scope_at(*hir, rank, id, parent),
    decreases rank(id), 6nat, 0nat,
{
    let ghost before = out@;
    push_link(out, id, parent, true);
    match hir.statement(id) {
        Some(s) => {
            proof {
                assert(hir.spec_node(id) is Some);
            }
            scope_stmt_body(hir, s, id, out, Ghost(rank), Ghost(rank(id)));
        },
        None => {},
    }
    proof {
        assert(out@ =~= before + stmt_scope_at(*hir, rank, id, parent));
    }
}

/// Appends the links below the expression stored for `id`.
fn scope_expr_at(hir: &HirMap, id: NodeId, parent: NodeId, out: &mut Vec<ScopeLink>, Ghost(rank): Ghost<spec_fn(NodeId) -> nat>)
    requires
        ranked_by(*hir, rank),
    ensures
        final(out)@ == old(out)@ + expr_scope_at(*hir, rank, id, parent),
    decreases rank(id), 6nat, 0nat,
{
    let ghost before = out@;
    push_link(out, id, parent, true);
    match hir.expression(id) {
        Some(e) => {
            proof {
                assert(hir.spec_node(id) is Some);
            }
            scope_expr_body(hir, e, id, out, Ghost(rank), Ghost(rank(id)));
        },
        None => {},
    }
    proof {
        assert(out@ =~= before + expr_scope_at(*hir, rank, id, parent));
    }
}

/// Appends the links below the pattern stored for `id`.
fn scope_pattern_at(hir: &HirMap, id: NodeId, parent: NodeId, out: &mut Vec<ScopeLink>, Ghost(rank): Ghost<spec_fn(NodeId) -> nat>)
    requires
        ranked_by(*hir, rank),
    ensures
        final(out)@ == old(out)@ + pattern_scope_at(*hir, rank, id, parent),
    decreases rank(id), 6nat, 0nat,
{
    let ghost before = out@;
    push_link(out, id, parent, true);
    match hir.pattern(id) {
        Some(p) => {
            proof {
                assert(hir.spec_node(id) is Some);
            }
            scope_pattern_body(hir, p, id, out, Ghost(rank), Ghost(rank(id)));
        },
        None => {},
    }
    proof {
        assert(out@ =~= before + pattern_scope_at(*hir, rank, id, parent));
    }
}

/// Appends the links below the statements stored for `ids`.
fn scope_stmts(
    hir: &HirMap,
    ids: &Vec<NodeId>,
    parent: NodeId,
    out: &mut Vec<ScopeLink>,
    Ghost(rank): Ghost<spec_fn(NodeId) -> nat>,
    Ghost(b): Ghost<nat>,
)
    requires
        ranked_by(*hir, rank),
        stmts_ok(*hir, rank, ids@, b),
    ensures
        final(out)@ == old(out)@ + stmts_scope(*hir, rank, ids@, parent, b),
    decreases b, 1nat, ids@.len(),
{
    let ghost before = out@;
    let mut i: usize = 0;
    while i < ids.len()
        invariant
            i <= ids@.len(),
            ranked_by(*hir, rank),
            stmts_ok(*hir, rank, ids@, b),
            out@ == before + stmts_scope(*hir, rank, ids@.subrange(0, i as int), parent, b),
        decreases ids.len() - i,
    {
        proof {
            assert(stmt_ok(*hir, rank, ids@[i as int], b));
        }
        scope_stmt_at(hir, ids[i], parent, out, Ghost(rank));
        proof {
            let sub = ids@.subrange(0, i + 1);
            assert(sub.drop_last() =~= ids@.subrange(0, i as int));
            assert(sub.last() == ids@[i as int]);
            assert(out@ =~= before + stmts_scope(*hir, rank, sub, parent, b));
        }
        i = i + 1;
    }
    proof {
        assert(ids@.subrange(0, ids@.len() as int) =~= ids@);
    }
}

/// Appends the links below the expressions stored for `ids`.
fn scope_exprs(
    hir: &HirMap,
    ids: &Vec<NodeId>,
    parent: NodeId,
    out: &mut Vec<ScopeLink>,
    Ghost(rank): Ghost<spec_fn(NodeId) -> nat>,
    Ghost(b): Ghost<nat>,
)
    requires
        ranked_by(*hir, rank),
        exprs_ok(*hir, rank, ids@, b),
    ensures
        final(out)@ == old(out)@ + exprs_scope(*hir, rank, ids@, parent, b),
    decreases b, 1nat, ids@.len(),
{
    let ghost before = out@;
    let mut i: usize = 0;
    while i < ids.len()
        invariant
            i <= ids@.len(),
            ranked_by(*hir, rank),
            exprs_ok(*hir, rank, ids@, b),
            out@ == before + exprs_scope(*hir, rank, ids@.subrange(0, i as int), parent, b),
        decreases ids.len() - i,
    {
        proof {
            assert(expr_ok(*hir, rank, ids@[i as int], b));
        }
        scope_expr_at(hir, ids[i], parent, out, Ghost(rank));
        proof {
            let sub = ids@.subrange(0, i + 1);
            assert(sub.drop_last() =~= ids@.subrange(0, i as int));
            assert(sub.last() == ids@[i as int]);
            assert(expr_scope_ref(*hir, rank, sub.last(), parent, b) == expr_scope_at(*hir, rank, sub.last(), parent));
            assert(out@ =~= before + exprs_scope(*hir, rank, sub, parent, b));
        }
        i = i + 1;
    }
    proof {
        assert(ids@.subrange(0, ids@.len() as int) =~= ids@);
    }
}

/// Appends the links below the patterns stored for `ids`.
fn scope_patterns(
    hir: &HirMap,
    ids: &Vec<NodeId>,
    parent: NodeId,
    out: &mut Vec<ScopeLink>,
    Ghost(rank): Ghost<spec_fn(NodeId) -> nat>,
    Ghost(b): Ghost<nat>,
)
    requires
        ranked_by(*hir, rank),
        patterns_ok(*hir, rank, ids@, b),
    ensures
        final(out)@ == old(out)@ + patterns_scope(*hir, rank, ids@, parent, b),
    decreases b, 1nat, ids@.len(),
{
    let ghost before = out@;
    let mut i: usize = 0;
    while i < ids.len()
        invariant
            i <= ids@.len(),
            ranked_by(*hir, rank),
            patterns_ok(*hir, rank, ids@, b),
            out@ == before + patterns_scope(*hir, rank, ids@.subrange(0, i as int), parent, b),
        decreases ids.len() - i,
    {
        proof {
            assert(pattern_ok(*hir, rank, ids@[i as int], b));
        }
        scope_pattern_at(hir, ids[i], parent, out, Ghost(rank));
        proof {
            let sub = ids@.subrange(0, i + 1);
            assert(sub.drop_last() =~= ids@.subrange(0, i as int));
            assert(sub.last() == ids@[i as int]);
            assert(pattern_scope_ref(*hir, rank, sub.last(), parent, b) == pattern_scope_at(*hir, rank, sub.last(), parent));
            assert(out@ =~= before + patterns_scope(*hir, rank, sub, parent, b));
        }
        i = i + 1;
    }
    proof {
        assert(ids@.subrange(0, ids@.len() as int) =~= ids@);
    }
}

/// Appends the links below the values of constructor fields.
fn scope_ctor_fields(
    hir: &HirMap,
    fields: &Vec<ConstructorField>,
    parent: NodeId,
    out: &mut Vec<ScopeLink>,
    Ghost(rank): Ghost<spec_fn(NodeId) -> nat>,
    Ghost(b): Ghost<nat>,
)
    requires
        ranked_by(*hir, rank),
        exprs_ok(*hir, rank, field_values(fields@), b),
    ensures
        final(out)@ == old(out)@ + exprs_scope(*hir, rank, field_values(fields@), parent, b),
    decreases b, 1nat, fields@.len(),
{
    let ghost before = out@;
    let ghost ids = field_values(fields@);
    let mut i: usize = 0;
    while i < fields.len()
        invariant
            i <= fields@.len(),
            ids == field_values(fields@),
            ids.len() == fields@.len(),
            ranked_by(*hir, rank),
            exprs_ok(*hir, rank, ids, b),
            out@ == before + exprs_scope(*hir, rank, ids.subrange(0, i as int), parent, b),
        decreases fields.len() - i,
    {
        proof {
            assert(ids[i as int] == fields@[i as int].value);
            assert(expr_ok(*hir, rank, ids[i as int], b));
        }
        scope_expr_at(hir, fields[i].value, parent, out, Ghost(rank));
        proof {
            let sub = ids.subrange(0, i + 1);
            assert(sub.drop_last() =~= ids.subrange(0, i as int));
            assert(sub.last() == ids[i as int]);
            assert(expr_scope_ref(*hir, rank, sub.last(), parent, b) == expr_scope_at(*hir, rank, sub.last(), parent));
            assert(out@ =~= before + exprs_scope(*hir, rank, sub, parent, b));
        }
        i = i + 1;
    }
    proof {
        assert(ids.subrange(0, fields@.len() as int) =~= ids);
    }
}

/// Appends the links below the statements of a block of the map's own
/// package.
fn scope_block(
    hir: &HirMap,
    blk: &Block,
    parent: NodeId,
    out: &mut Vec<ScopeLink>,
    Ghost(rank): Ghost<spec_fn(NodeId) -> nat>,
    Ghost(b): Ghost<nat>,
)
    requires
        ranked_by(*hir, rank),
        stmts_ok(*hir, rank, blk.statements@, b),
    ensures
        final(out)@ == old(out)@ + block_scope(*hir, rank, *blk, parent, b),
    decreases b, 2nat, 0nat,
{
    if hir.is_local_node(blk.id) {
        scope_stmts(hir, &blk.statements, parent, out, Ghost(rank), Ghost(b));
    } else {
        proof {
            assert(out@ =~= out@ + block_scope(*hir, rank, *blk, parent, b));
        }
    }
}

/// Appends the links below one case of an `if`.
fn scope_condition(
    hir: &HirMap,
    c: &Condition,
    parent: NodeId,
    out: &mut Vec<ScopeLink>,
    Ghost(rank): Ghost<spec_fn(NodeId) -> nat>,
    Ghost(b): Ghost<nat>,
)
    requires
        ranked_by(*hir, rank),
        condition_ok(*hir, rank, *c, b),
    ensures
        final(out)@ == old(out)@ + condition_scope(*hir, rank, *c, parent, b),
    decreases b, 3nat, 0nat,
{
    let ghost before = out@;
    match c.condition {
        Some(x) => scope_expr_at(hir, x, parent, out, Ghost(rank)),
        None => {},
    }
    scope_block(hir, &c.block, parent, out, Ghost(rank), Ghost(b));
    proof {
        assert(out@ =~= before + condition_scope(*hir, rank, *c, parent, b));
    }
}

/// Appends the links below the cases of an `if`.
fn scope_conditions(
    hir: &HirMap,
    cs: &Vec<Condition>,
    parent: NodeId,
    out: &mut Vec<ScopeLink>,
    Ghost(rank): Ghost<spec_fn(NodeId) -> nat>,
    Ghost(b): Ghost<nat>,
)
    requires
        ranked_by(*hir, rank),
        conditions_ok(*hir, rank, cs@, b),
    ensures
        final(out)@ == old(out)@ + conditions_scope(*hir, rank, cs@, parent, b),
    decreases b, 4nat, cs@.len(),
{
    let ghost before = out@;
    let mut i: usize = 0;
    while i < cs.len()
        invariant
            i <= cs@.len(),
            ranked_by(*hir, rank),
            conditions_ok(*hir, rank, cs@, b),
            out@ == before + conditions_scope(*hir, rank, cs@.subrange(0, i as int), parent, b),
        decreases cs.len() - i,
    {
        proof {
            assert(condition_ok(*hir, rank, cs@[i as int], b));
        }
        scope_condition(hir, &cs[i], parent, out, Ghost(rank), Ghost(b));
        proof {
            let sub = cs@.subrange(0, i + 1);
            assert(sub.drop_last() =~= cs@.subrange(0, i as int));
            assert(sub.last() == cs@[i as int]);
            assert(out@ =~= before + conditions_scope(*hir, rank, sub, parent, b));
        }
        i = i + 1;
    }
    proof {
        assert(cs@.subrange(0, cs@.len() as int) =~= cs@);
    }
}

/// Appends the links below the cases of a `switch`.
fn scope_switch_cases(
    hir: &HirMap,
    cs: &Vec<SwitchCase>,
    parent: NodeId,
    out: &mut Vec<ScopeLink>,
    Ghost(rank): Ghost<spec_fn(NodeId) -> nat>,
    Ghost(b): Ghost<nat>,
)
    requires
        ranked_by(*hir, rank),
        switch_cases_ok(*hir, rank, cs@, b),
    ensures
        final(out)@ == old(out)@ + switch_cases_scope(*hir, rank, cs@, parent, b),
    decreases b, 4nat, cs@.len(),
{
    let ghost before = out@;
    let mut i: usize = 0;
    while i < cs.len()
        invariant
            i <= cs@.len(),
            ranked_by(*hir, rank),
            switch_cases_ok(*hir, rank, cs@, b),
            out@ == before + switch_cases_scope(*hir, rank, cs@.subrange(0, i as int), parent, b),
        decreases cs.len() - i,
    {
        proof {
            assert(switch_case_ok(*hir, rank, cs@[i as int], b));
        }
        scope_pattern_at(hir, cs[i].pattern, parent, out, Ghost(rank));
        scope_expr_at(hir, cs[i].branch, parent, out, Ghost(rank));
        proof {
            let sub = cs@.subrange(0, i + 1);
            assert(sub.drop_last() =~= cs@.subrange(0, i as int));
            assert(sub.last() == cs@[i as int]);
            assert(pattern_scope_ref(*hir, rank, sub.last().pattern, parent, b) == pattern_scope_at(
                *hir,
                rank,
                sub.last().pattern,
                parent,
            ));
            assert(expr_scope_ref(*hir, rank, sub.last().branch, parent, b) == expr_scope_at(*hir, rank, sub.last().branch, parent));
            assert(out@ =~= before + switch_cases_scope(*hir, rank, sub, parent, b));
        }
        i = i + 1;
    }
    proof {
        assert(cs@.subrange(0, cs@.len() as int) =~= cs@);
    }
}

/// Appends the links below a statement whose references are ranked below
/// `b`.
fn scope_stmt_body(
    hir: &HirMap,
    s: &Statement,
    id: NodeId,
    out: &mut Vec<ScopeLink>,
    Ghost(rank): Ghost<spec_fn(NodeId) -> nat>,
    Ghost(b): Ghost<nat>,
)
    requires
        ranked_by(*hir, rank),
        stmt_refs_ok(*hir, rank, *s, b),
    ensures
        final(out)@ == old(out)@ + stmt_scope(*hir, rank, *s, id, b),
    decreases b, 5nat, 0nat,
{
    let ghost before = out@;
    match &s.kind {
        StatementKind::Variable(d) => scope_expr_at(hir, d.value, id, out, Ghost(rank)),
        StatementKind::Break(_) => {},
        StatementKind::Continue(_) => {},
        StatementKind::Final(f) => scope_expr_at(hir, f.value, id, out, Ghost(rank)),
        StatementKind::Return(r) => match r.value {
            Some(v) => scope_expr_at(hir, v, id, out, Ghost(rank)),
            None => {},
        },
        StatementKind::InfiniteLoop(l) => scope_block(hir, &l.block, id, out, Ghost(rank), Ghost(b)),
        StatementKind::Expression(e) => scope_expr_at(hir, *e, id, out, Ghost(rank)),
    }
    proof {
        assert(out@ =~= before + stmt_scope(*hir, rank, *s, id, b));
    }
}

/// Appends the links below an expression whose references are ranked
/// below `b`.
#[verifier::spinoff_prover]
#[verifier::rlimit(40)]
fn scope_expr_body(
    hir: &HirMap,
    e: &Expression,
    id: NodeId,
    out: &mut Vec<ScopeLink>,
    Ghost(rank): Ghost<spec_fn(NodeId) -> nat>,
    Ghost(b): Ghost<nat>,
)
    requires
        ranked_by(*hir, rank),
        expr_refs_ok(*hir, rank, *e, b),
    ensures
        final(out)@ == old(out)@ + expr_scope(*hir, rank, *e, id, b),
    decreases b, 5nat, 0nat,
{
    let ghost before = out@;
    match &e.kind {
        ExpressionKind::Assignment(a) => {
            scope_expr_at(hir, a.target, id, out, Ghost(rank));
            scope_expr_at(hir, a.value, id, out, Ghost(rank));
        },
        ExpressionKind::Cast(c) => scope_expr_at(hir, c.source, id, out, Ghost(rank)),
        ExpressionKind::Construct(c) => scope_ctor_fields(hir, &c.fields, id, out, Ghost(rank), Ghost(b)),
        ExpressionKind::Ref(r) => scope_expr_at(hir, r.target, id, out, Ghost(rank)),
        ExpressionKind::Deref(d) => scope_expr_at(hir, d.target, id, out, Ghost(rank)),
        ExpressionKind::InstanceCall(c) => {
            scope_expr_at(hir, c.callee, id, out, Ghost(rank));
            scope_exprs(hir, &c.arguments, id, out, Ghost(rank), Ghost(b));
        },
        ExpressionKind::IntrinsicCall(c) => {
            let args = c.kind.arguments();
            scope_exprs(hir, &args, id, out, Ghost(rank), Ghost(b));
        },
        ExpressionKind::If(i) => scope_conditions(hir, &i.cases, id, out, Ghost(rank), Ghost(b)),
        ExpressionKind::Is(i) => {
            scope_expr_at(hir, i.target, id, out, Ghost(rank));
            scope_pattern_at(hir, i.pattern, id, out, Ghost(rank));
        },
        ExpressionKind::Member(x) => scope_expr_at(hir, x.callee, id, out, Ghost(rank)),
        ExpressionKind::StaticCall(c) => scope_exprs(hir, &c.arguments, id, out, Ghost(rank), Ghost(b)),
        ExpressionKind::Scope(sc) => scope_stmts(hir, &sc.body, id, out, Ghost(rank), Ghost(b)),
        ExpressionKind::Switch(sw) => {
            scope_expr_at(hir, sw.operand, id, out, Ghost(rank));
            scope_switch_cases(hir, &sw.cases, id, out, Ghost(rank), Ghost(b));
        },
        ExpressionKind::Variant(v) => scope_exprs(hir, &v.arguments, id, out, Ghost(rank), Ghost(b)),
        ExpressionKind::Literal(_) => {},
        ExpressionKind::Variable(_) => {},
        ExpressionKind::Missing => {},
    }
    proof {
        assert(out@ =~= before + expr_scope(*hir, rank, *e, id, b));
    }
}

/// Appends the links below a pattern whose references are ranked below
/// `b`.
fn scope_pattern_body(
    hir: &HirMap,
    p: &Pattern,
    id: NodeId,
    out: &mut Vec<ScopeLink>,
    Ghost(rank): Ghost<spec_fn(NodeId) -> nat>,
    Ghost(b): Ghost<nat>,
)
    requires
        ranked_by(*hir, rank),
        pattern_refs_ok(*hir, rank, *p, b),
    ensures
        final(out)@ == old(out)@ + pattern_scope(*hir, rank, *p, id, b),
    decreases b, 5nat, 0nat,
{
    let ghost before = out@;
    match &p.kind {
        PatternKind::Variant(v) => scope_patterns(hir, &v.fields, id, out, Ghost(rank), Ghost(b)),
        _ => {},
    }
    proof {
        assert(out@ =~= before + pattern_scope(*hir, rank, *p, id, b));
    }
}

} // verus!

verus! {

/// Appends unchecked links of each of `ids` to `parent`.
fn push_unchecked(ids: &Vec<NodeId>, parent: NodeId, out: &mut Vec<ScopeLink>)
    ensures
        final(out)@ == old(out)@ + unchecked_links(ids@, parent),
{
    let ghost before = out@;
    let mut i: usize = 0;
    while i < ids.len()
        invariant
            i <= ids@.len(),
            out@ == before + unchecked_links(ids@.subrange(0, i as int), parent),
        decreases ids.len() - i,
    {
        push_link(out, ids[i], parent, false);
        proof {
            assert(unchecked_links(ids@.subrange(0, i + 1), parent) =~= unchecked_links(
                ids@.subrange(0, i as int),
                parent,
            ).push(link(ids@[i as int], parent, false)));
        }
        i = i + 1;
    }
    proof {
        assert(ids@.subrange(0, ids@.len() as int) =~= ids@);
    }
}

/// Appends unchecked links of each parameter to `parent`.
fn push_params(ps: &Vec<Parameter>, parent: NodeId, out: &mut Vec<ScopeLink>)
    ensures
        final(out)@ == old(out)@ + param_links(ps@, parent),
{
    let ghost before = out@;
    let mut i: usize = 0;
    while i < ps.len()
        invariant
            i <= ps@.len(),
            out@ == before + param_links(ps@.subrange(0, i as int), parent),
        decreases ps.len() - i,
    {
        push_link(out, ps[i].id, parent, false);
        proof {
            assert(param_links(ps@.subrange(0, i + 1), parent) =~= param_links(ps@.subrange(0, i as int), parent).push(
                link(ps@[i as int].id, parent, false),
            ));
        }
        i = i + 1;
    }
    proof {
        assert(ps@.subrange(0, ps@.len() as int) =~= ps@);
    }
}

/// Appends the links below a body, if there is one.
fn scope_opt_block(
    hir: &HirMap,
    blk: &Option<Block>,
    parent: NodeId,
    out: &mut Vec<ScopeLink>,
    Ghost(rank): Ghost<spec_fn(NodeId) -> nat>,
    Ghost(b): Ghost<nat>,
)
    requires
        ranked_by(*hir, rank),
        opt_block_ok(*hir, rank, *blk, b),
    ensures
        final(out)@ == old(out)@ + opt_block_scope(*hir, rank, *blk, parent, b),
{
    match blk {
        Some(k) => scope_block(hir, k, parent, out, Ghost(rank), Ghost(b)),
        None => {
            proof {
                assert(out@ =~= out@ + opt_block_scope(*hir, rank, *blk, parent, b));
            }
        },
    }
}

/// Appends the links of a method inside `parent`.
fn scope_method(
    hir: &HirMap,
    id: NodeId,
    sig: &FnSignature,
    blk: &Option<Block>,
    parent: NodeId,
    out: &mut Vec<ScopeLink>,
    Ghost(rank): Ghost<spec_fn(NodeId) -> nat>,
    Ghost(b): Ghost<nat>,
)
    requires
        ranked_by(*hir, rank),
        opt_block_ok(*hir, rank, *blk, b),
    ensures
        final(out)@ == old(out)@ + method_scope(*hir, rank, id, *sig, *blk, parent, b),
{
    let ghost before = out@;
    push_link(out, id, parent, true);
    push_unchecked(&sig.type_parameters, id, out);
    push_params(&sig.parameters, id, out);
    scope_opt_block(hir, blk, id, out, Ghost(rank), Ghost(b));
    proof {
        assert(out@ =~= before + method_scope(*hir, rank, id, *sig, *blk, parent, b));
    }
}

/// Appends the links of the fields of a struct.
fn scope_fields(
    hir: &HirMap,
    fs: &Vec<Field>,
    parent: NodeId,
    out: &mut Vec<ScopeLink>,
    Ghost(rank): Ghost<spec_fn(NodeId) -> nat>,
    Ghost(b): Ghost<nat>,
)
    requires
        ranked_by(*hir, rank),
        forall|k: int| 0 <= k < fs@.len() ==> match (#[trigger] fs@[k]).default_value {
            Some(v) => expr_ok(*hir, rank, v, b),
            None => true,
        },
    ensures
        final(out)@ == old(out)@ + fields_scope(*hir, rank, fs@, parent, b),
{
    let ghost before = out@;
    let mut i: usize = 0;
    while i < fs.len()
        invariant
            i <= fs@.len(),
            ranked_by(*hir, rank),
            forall|k: int| 0 <= k < fs@.len() ==> match (#[trigger] fs@[k]).default_value {
                Some(v) => expr_ok(*hir, rank, v, b),
                None => true,
            },
            out@ == before + fields_scope(*hir, rank, fs@.subrange(0, i as int), parent, b),
        decreases fs.len() - i,
    {
        let ghost mid = out@;
        let f = &fs[i];
        proof {
            assert(fs@[i as int] == *f);
        }
        push_link(out, f.id, parent, true);
        match f.default_value {
            Some(v) => {
                scope_expr_at(hir, v, f.id, out, Ghost(rank));
                proof {
                    assert(expr_scope_ref(*hir, rank, v, f.id, b) == expr_scope_at(*hir, rank, v, f.id));
                }
            },
            None => {},
        }
        proof {
            let sub = fs@.subrange(0, i + 1);
            assert(sub.drop_last() =~= fs@.subrange(0, i as int));
            assert(sub.last() == *f);
            assert(out@ =~= before + fields_scope(*hir, rank, sub, parent, b));
        }
        i = i + 1;
    }
    proof {
        assert(fs@.subrange(0, fs@.len() as int) =~= fs@);
    }
}

/// Appends the links of the methods of an implementation.
fn scope_impl_methods(
    hir: &HirMap,
    ms: &Vec<MethodDefinition>,
    parent: NodeId,
    out: &mut Vec<ScopeLink>,
    Ghost(rank): Ghost<spec_fn(NodeId) -> nat>,
    Ghost(b): Ghost<nat>,
)
    requires
        ranked_by(*hir, rank),
        forall|k: int| 0 <= k < ms@.len() ==> opt_block_ok(*hir, rank, (#[trigger] ms@[k]).block, b),
    ensures
        final(out)@ == old(out)@ + impl_methods_scope(*hir, rank, ms@, parent, b),
{
    let ghost before = out@;
    let mut i: usize = 0;
    while i < ms.len()
        invariant
            i <= ms@.len(),
            ranked_by(*hir, rank),
            forall|k: int| 0 <= k < ms@.len() ==> opt_block_ok(*hir, rank, (#[trigger] ms@[k]).block, b),
            out@ == before + impl_methods_scope(*hir, rank, ms@.subrange(0, i as int), parent, b),
        decreases ms.len() - i,
    {
        let m = &ms[i];
        proof {
            assert(ms@[i as int] == *m);
        }
        scope_method(hir, m.id, &m.signature, &m.block, parent, out, Ghost(rank), Ghost(b));
        proof {
            let sub = ms@.subrange(0, i + 1);
            assert(sub.drop_last() =~= ms@.subrange(0, i as int));
            assert(sub.last() == *m);
            assert(out@ =~= before + impl_methods_scope(*hir, rank, sub, parent, b));
        }
        i = i + 1;
    }
    proof {
        assert(ms@.subrange(0, ms@.len() as int) =~= ms@);
    }
}

/// Appends the links of the methods of a trait.
fn scope_trait_methods(
    hir: &HirMap,
    ms: &Vec<TraitMethodDefinition>,
    parent: NodeId,
    out: &mut Vec<ScopeLink>,
    Ghost(rank): Ghost<spec_fn(NodeId) -> nat>,
    Ghost(b): Ghost<nat>,
)
    requires
        ranked_by(*hir, rank),
        forall|k: int| 0 <= k < ms@.len() ==> opt_block_ok(*hir, rank, (#[trigger] ms@[k]).block, b),
    ensures
        final(out)@ == old(out)@ + trait_methods_scope(*hir, rank, ms@, parent, b),
{
    let ghost before = out@;
    let mut i: usize = 0;
    while i < ms.len()
        invariant
            i <= ms@.len(),
            ranked_by(*hir, rank),
            forall|k: int| 0 <= k < ms@.len() ==> opt_block_ok(*hir, rank, (#[trigger] ms@[k]).block, b),
            out@ == before + trait_methods_scope(*hir, rank, ms@.subrange(0, i as int), parent, b),
        decreases ms.len() - i,
    {
        let m = &ms[i];
        proof {
            assert(ms@[i as int] == *m);
        }
        scope_method(hir, m.id, &m.signature, &m.block, parent, out, Ghost(rank), Ghost(b));
        proof {
            let sub = ms@.subrange(0, i + 1);
            assert(sub.drop_last() =~= ms@.subrange(0, i as int));
            assert(sub.last() == *m);
            assert(out@ =~= before + trait_methods_scope(*hir, rank, sub, parent, b));
        }
        i = i + 1;
    }
    proof {
        assert(ms@.subrange(0, ms@.len() as int) =~= ms@);
    }
}

/// Appends the links of the methods of a trait implementation.
fn scope_trait_impl_methods(
    hir: &HirMap,
    ms: &Vec<TraitMethodImplementation>,
    parent: NodeId,
    out: &mut Vec<ScopeLink>,
    Ghost(rank): Ghost<spec_fn(NodeId) -> nat>,
    Ghost(b): Ghost<nat>,
)
    requires
        ranked_by(*hir, rank),
        forall|k: int| 0 <= k < ms@.len() ==> opt_block_ok(*hir, rank, (#[trigger] ms@[k]).block, b),
    ensures
        final(out)@ == old(out)@ + trait_impl_methods_scope(*hir, rank, ms@, parent, b),
{
    let ghost before = out@;
    let mut i: usize = 0;
    while i < ms.len()
        invariant
            i <= ms@.len(),
            ranked_by(*hir, rank),
            forall|k: int| 0 <= k < ms@.len() ==> opt_block_ok(*hir, rank, (#[trigger] ms@[k]).block, b),
            out@ == before + trait_impl_methods_scope(*hir, rank, ms@.subrange(0, i as int), parent, b),
        decreases ms.len() - i,
    {
        let m = &ms[i];
        proof {
            assert(ms@[i as int] == *m);
        }
        scope_method(hir, m.id, &m.signature, &m.block, parent, out, Ghost(rank), Ghost(b));
        proof {
            let sub = ms@.subrange(0, i + 1);
            assert(sub.drop_last() =~= ms@.subrange(0, i as int));
            assert(sub.last() == *m);
            assert(out@ =~= before + trait_impl_methods_scope(*hir, rank, sub, parent, b));
        }
        i = i + 1;
    }
    proof {
        assert(ms@.subrange(0, ms@.len() as int) =~= ms@);
    }
}

/// Appends the links below a node of the map ranked `b`.
fn scope_node(
    hir: &HirMap,
    n: &Node,
    out: &mut Vec<ScopeLink>,
    Ghost(rank): Ghost<spec_fn(NodeId) -> nat>,
    Ghost(b): Ghost<nat>,
)
    requires
        ranked_by(*hir, rank),
        crate::hir::walk::node_refs_ok(*hir, rank, *n, b),
        embedded_refs_ok(*hir, rank, *n, b),
    ensures
        final(out)@ == old(out)@ + node_scope(*hir, rank, *n, b),
{
    let ghost before = out@;
    match n {
        Node::Type(TypeDefinition::Struct(s)) => {
            push_unchecked(&s.type_parameters, s.id, out);
            scope_fields(hir, &s.fields, s.id, out, Ghost(rank), Ghost(b));
        },
        Node::Type(TypeDefinition::Trait(t)) => {
            push_unchecked(&t.type_parameters, t.id, out);
            scope_trait_methods(hir, &t.methods, t.id, out, Ghost(rank), Ghost(b));
        },
        Node::Impl(i) => {
            push_unchecked(&i.type_parameters, i.id, out);
            scope_impl_methods(hir, &i.methods, i.id, out, Ghost(rank), Ghost(b));
        },
        Node::TraitImpl(t) => {
            push_unchecked(&t.type_parameters, t.id, out);
            scope_trait_impl_methods(hir, &t.methods, t.id, out, Ghost(rank), Ghost(b));
        },
        Node::Function(f) => {
            push_unchecked(&f.signature.type_parameters, f.id, out);
            push_params(&f.signature.parameters, f.id, out);
            scope_opt_block(hir, &f.block, f.id, out, Ghost(rank), Ghost(b));
        },
        _ => {},
    }
    proof {
        assert(out@ =~= before + node_scope(*hir, rank, *n, b));
    }
}

/// The links of every node of the map to the item, statement or
/// expression it lies directly inside of, in the order a descent through
/// the structs, traits, implementations and functions of the map finds
/// them.
pub fn scope_links(hir: &HirMap) -> (r: Vec<ScopeLink>)
    requires
        hir.well_formed(),
        scopes_acyclic(*hir),
    ensures
        r@ == hir_scope_links(*hir),
{
    let ghost rank = choose|rank: spec_fn(NodeId) -> nat| scope_ranked_by(*hir, rank);
    let ghost e = node_entries(hir.nodes);
    let mut out: Vec<ScopeLink> = Vec::new();
    let n = hir.node_count();
    let mut i: usize = 0;
    proof {
        assert(out@ =~= entries_scope(*hir, rank, e.subrange(0, 0)));
    }
    while i < n
        invariant
            i <= n,
            n == e.len(),
            e == node_entries(hir.nodes),
            hir.well_formed(),
            scope_ranked_by(*hir, rank),
            out@ == entries_scope(*hir, rank, e.subrange(0, i as int)),
        decreases n - i,
    {
        match hir.node_entry(i) {
            Some((id, node)) => {
                proof {
                    crate::map::lemma_key_index_unique(e, id, i as int);
                    assert(hir.spec_node(id) == Some(*node));
                }
                scope_node(hir, node, &mut out, Ghost(rank), Ghost(rank(id)));
                proof {
                    let sub = e.subrange(0, i + 1);
                    assert(sub.drop_last() =~= e.subrange(0, i as int));
                    assert(sub.last() == (id, *node));
                    assert(out@ =~= entries_scope(*hir, rank, sub));
                }
            },
            None => {},
        }
        i = i + 1;
    }
    proof {
        assert(e.subrange(0, n as int) =~= e);
    }
    out
}

} // verus!

verus! {

/// The child and parent of each link.
pub open spec fn link_pairs(ls: Seq<ScopeLink>) -> Seq<(NodeId, NodeId)> {
    ls.map_values(|l: ScopeLink| (l.child, l.parent))
}

/// The parent of each node after recording the links in order: a later
/// link of a child replaces an earlier one.
pub open spec fn ancestry_of(ls: Seq<ScopeLink>) -> Seq<(NodeId, NodeId)> {
    insert_all(Seq::<(NodeId, NodeId)>::empty(), link_pairs(ls))
}

/// Every checked link agrees with the parent which the links before it
/// recorded for its child, if any.
pub open spec fn links_agree(ls: Seq<ScopeLink>) -> bool {
    forall|k: int|
        0 <= k < ls.len() && (#[trigger] ls[k]).checked ==> match entries_get(ancestry_of(ls.take(k)), ls[k].child) {
            Some(p) => p == ls[k].parent,
            None => true,
        }
}

/// `rank` decreases from every node to its parent.
pub open spec fn ancestry_ranked(a: Seq<(NodeId, NodeId)>, rank: spec_fn(NodeId) -> nat) -> bool {
    forall|c: NodeId| #[trigger] entries_get(a, c) matches Some(p) ==> rank(p) < rank(c)
}

/// The node and its ancestors, nearest first.
pub open spec fn chain_from(a: Seq<(NodeId, NodeId)>, rank: spec_fn(NodeId) -> nat, id: NodeId) -> Seq<NodeId>
    decreases rank(id),
{
    seq![id] + match entries_get(a, id) {
        Some(p) => if rank(p) < rank(id) {
            chain_from(a, rank, p)
        } else {
            seq![]
        },
        None => seq![],
    }
}

/// The parent of each node, as far as it is known.
#[derive(Debug)]
pub struct Ancestry {
    entries: Vec<(NodeId, NodeId)>,
}

impl Ancestry {
    /// Each child with its parent, in the order they were first recorded.
    pub closed spec fn links(&self) -> Seq<(NodeId, NodeId)> {
        self.entries@
    }

    /// No child is recorded twice.
    pub closed spec fn well_formed(&self) -> bool {
        distinct_keys(self.entries@)
    }

    /// The parent recorded for `id`, if any.
    pub open spec fn spec_parent(&self, id: NodeId) -> Option<NodeId> {
        entries_get(self.links(), id)
    }

    /// No node is its own ancestor.
    pub open spec fn acyclic(&self) -> bool {
        exists|rank: spec_fn(NodeId) -> nat| ancestry_ranked(self.links(), rank)
    }

    /// The node and its ancestors, nearest first.
    pub open spec fn spec_ancestors(&self, id: NodeId) -> Seq<NodeId> {
        chain_from(self.links(), choose|rank: spec_fn(NodeId) -> nat| ancestry_ranked(self.links(), rank), id)
    }

    /// An ancestry without any link.
    pub fn new() -> (r: Ancestry)
        ensures
            r.well_formed(),
            r.links() == Seq::<(NodeId, NodeId)>::empty(),
    {
        Ancestry { entries: Vec::new() }
    }

    /// The position of the link of `id`, if any.
    fn find(&self, id: NodeId) -> (r: Option<usize>)
        ensures
            match r {
                Some(i) => crate::map::key_index(self.entries@, id) == Some(i as int) && i < self.entries@.len()
                    && self.entries@[i as int].0 == id,
                None => crate::map::key_index(self.entries@, id) is None,
            },
    {
        let mut i: usize = 0;
        while i < self.entries.len()
            invariant
                i <= self.entries@.len(),
                forall|j: int| 0 <= j < i ==> (#[trigger] self.entries@[j]).0 != id,
            decreases self.entries.len() - i,
        {
            if self.entries[i].0 == id {
                proof {
                    crate::map::lemma_key_index(self.entries@, id);
                    match crate::map::key_index(self.entries@, id) {
                        Some(k) => {
                            if k < i {
                                assert(self.entries@[k].0 != id);
                            }
                            if k > i {
                                assert(self.entries@[i as int].0 != id);
                            }
                        },
                        None => {
                            assert(self.entries@[i as int].0 != id);
                        },
                    }
                }
                return Some(i);
            }
            i = i + 1;
        }
        proof {
            crate::map::lemma_key_index(self.entries@, id);
            match crate::map::key_index(self.entries@, id) {
                Some(k) => {
                    assert(self.entries@[k].0 != id);
                },
                None => {},
            }
        }
        None
    }

    /// The parent recorded for `id`, if any.
    pub fn parent_of(&self, id: NodeId) -> (r: Option<NodeId>)
        ensures
            r == self.spec_parent(id),
    {
        match self.find(id) {
            Some(i) => Some(self.entries[i].1),
            None => None,
        }
    }

    /// Records `parent` as the parent of `child`, replacing an earlier
    /// parent, which is returned.
    pub fn insert(&mut self, child: NodeId, parent: NodeId) -> (r: Option<NodeId>)
        requires
            old(self).well_formed(),
        ensures
            final(self).well_formed(),
            final(self).links() == entries_insert(old(self).links(), child, parent),
            r == old(self).spec_parent(child),
    {
        proof {
            lemma_insert_distinct(self.entries@, child, parent);
        }
        match self.find(child) {
            Some(i) => {
                let previous = self.entries[i].1;
                self.entries.set(i, (child, parent));
                Some(previous)
            },
            None => {
                self.entries.push((child, parent));
                None
            },
        }
    }

    /// Records the links in order.
    pub fn from_links(ls: &Vec<ScopeLink>) -> (r: Ancestry)
        ensures
            r.well_formed(),
            r.links() == ancestry_of(ls@),
    {
        let mut tree = Ancestry::new();
        let mut i: usize = 0;
        while i < ls.len()
            invariant
                i <= ls@.len(),
                tree.well_formed(),
                tree.links() == ancestry_of(ls@.take(i as int)),
            decreases ls.len() - i,
        {
            let l = ls[i];
            tree.insert(l.child, l.parent);
            proof {
                let prev = link_pairs(ls@.take(i as int));
                assert(link_pairs(ls@.take(i + 1)) =~= prev.push((l.child, l.parent)));
                assert(link_pairs(ls@.take(i + 1)).drop_last() =~= prev);
            }
            i = i + 1;
        }
        proof {
            assert(ls@.take(ls@.len() as int) =~= ls@);
        }
        tree
    }
}

} // verus!

verus! {

/// The parent given by the last link of `c`, if any link has `c` as its
/// child.
pub open spec fn last_parent(ls: Seq<ScopeLink>, c: NodeId) -> Option<NodeId>
    decreases ls.len(),
{
    if ls.len() == 0 {
        None
    } else if ls.last().child == c {
        Some(ls.last().parent)
    } else {
        last_parent(ls.drop_last(), c)
    }
}

/// The parent which recording links gives a node is the parent of its last
/// link; a node without any link gets none.
pub proof fn law_parent_is_last_link(ls: Seq<ScopeLink>, c: NodeId)
    ensures
        entries_get(ancestry_of(ls), c) == last_parent(ls, c),
    decreases ls.len(),
{
    if ls.len() == 0 {
        assert(entries_get(ancestry_of(ls), c) is None) by {
            assert(link_pairs(ls) =~= Seq::<(NodeId, NodeId)>::empty());
        }
    } else {
        let rest = ls.drop_last();
        law_parent_is_last_link(rest, c);
        let pairs = link_pairs(ls);
        assert(pairs.drop_last() =~= link_pairs(rest));
        assert(pairs.last() == (ls.last().child, ls.last().parent));
        let before = ancestry_of(rest);
        assert(ancestry_of(ls) == entries_insert(before, ls.last().child, ls.last().parent));
        if ls.last().child == c {
            crate::map::law_lookup_after_insert(before, c, ls.last().parent);
        } else {
            crate::map::law_insert_keeps_other_keys(before, ls.last().child, ls.last().parent, c);
        }
    }
}

/// The ancestry recorded from links gives each node the parent of its last
/// link.
pub proof fn law_recorded_parent(a: Ancestry, ls: Seq<ScopeLink>, c: NodeId)
    requires
        a.links() == ancestry_of(ls),
    ensures
        a.spec_parent(c) == last_parent(ls, c),
{
    law_parent_is_last_link(ls, c);
}

/// Facts of the chain of ancestors under one rank.
proof fn lemma_chain(a: Seq<(NodeId, NodeId)>, rank: spec_fn(NodeId) -> nat, id: NodeId)
    requires
        ancestry_ranked(a, rank),
    ensures
        chain_from(a, rank, id).len() > 0,
        chain_from(a, rank, id)[0] == id,
        forall|i: int|
            0 <= i < chain_from(a, rank, id).len() - 1 ==> entries_get(a, #[trigger] chain_from(a, rank, id)[i])
                == Some(chain_from(a, rank, id)[i + 1]),
        entries_get(a, chain_from(a, rank, id).last()) is None,
    decreases rank(id),
{
    let ch = chain_from(a, rank, id);
    match entries_get(a, id) {
        Some(p) => {
            assert(rank(p) < rank(id));
            lemma_chain(a, rank, p);
            let rest = chain_from(a, rank, p);
            assert(ch == seq![id] + rest);
            assert forall|i: int| 0 <= i < ch.len() - 1 implies entries_get(a, #[trigger] ch[i]) == Some(ch[i + 1]) by {
                if i > 0 {
                    assert(ch[i] == rest[i - 1]);
                    assert(ch[i + 1] == rest[i]);
                }
            }
            assert(ch.last() == rest.last());
        },
        None => {
            assert(ch =~= seq![id]);
        },
    }
}

/// The ancestors of a node are found by following parents: the list starts
/// at the node, each next entry is the parent of the one before it, and
/// the last one has no parent.
pub proof fn law_ancestors_follow_parents(a: Ancestry, id: NodeId)
    requires
        a.acyclic(),
    ensures
        a.spec_ancestors(id).len() > 0,
        a.spec_ancestors(id)[0] == id,
        forall|i: int|
            0 <= i < a.spec_ancestors(id).len() - 1 ==> a.spec_parent(#[trigger] a.spec_ancestors(id)[i]) == Some(
                a.spec_ancestors(id)[i + 1],
            ),
        a.spec_parent(a.spec_ancestors(id).last()) is None,
{
    let rank = choose|rank: spec_fn(NodeId) -> nat| ancestry_ranked(a.links(), rank);
    lemma_chain(a.links(), rank, id);
}

/// The links below an expression which an item ranked `b` refers to, and
/// which is stored below that rank, start with its link to `parent`.
proof fn lemma_ref_scope_links(m: HirMap, rank: spec_fn(NodeId) -> nat, c: NodeId, parent: NodeId, b: nat)
    requires
        expr_ok(m, rank, c, b),
    ensures
        expr_scope_ref(m, rank, c, parent, b).contains(link(c, parent, true)),
{
    assert(expr_scope_ref(m, rank, c, parent, b)[0] == link(c, parent, true));
}

/// The links below expressions which an item ranked `b` refers to link
/// each of them to `parent`.
proof fn lemma_exprs_scope_links(m: HirMap, rank: spec_fn(NodeId) -> nat, ids: Seq<NodeId>, parent: NodeId, b: nat, k: int)
    requires
        exprs_ok(m, rank, ids, b),
        0 <= k < ids.len(),
    ensures
        exprs_scope(m, rank, ids, parent, b).contains(link(ids[k], parent, true)),
    decreases ids.len(),
{
    let x = link(ids[k], parent, true);
    let prev = exprs_scope(m, rank, ids.drop_last(), parent, b);
    let last = expr_scope_ref(m, rank, ids.last(), parent, b);
    assert(expr_ok(m, rank, ids[k], b));
    if k == ids.len() - 1 {
        lemma_ref_scope_links(m, rank, ids.last(), parent, b);
        lemma_contains_in_concat(prev, last, x);
    } else {
        assert forall|i: int| 0 <= i < ids.drop_last().len() implies expr_ok(m, rank, #[trigger] ids.drop_last()[i], b) by {
            assert(ids.drop_last()[i] == ids[i]);
        }
        lemma_exprs_scope_links(m, rank, ids.drop_last(), parent, b, k);
        assert(ids.drop_last()[k] == ids[k]);
        lemma_contains_in_concat(prev, last, x);
    }
}

/// The links below an expression `id` link each of its operands to it.
proof fn lemma_expr_scope_links_operands(m: HirMap, rank: spec_fn(NodeId) -> nat, e: Expression, id: NodeId, b: nat, c: NodeId)
    requires
        expr_refs_ok(m, rank, e, b),
        expr_operands(e).contains(c),
    ensures
        expr_scope(m, rank, e, id, b).contains(link(c, id, true)),
{
    let x = link(c, id, true);
    let ops = expr_operands(e);
    let k = choose|k: int| 0 <= k < ops.len() && ops[k] == c;
    match e.kind {
        ExpressionKind::Assignment(a) => {
            lemma_ref_scope_links(m, rank, a.target, id, b);
            lemma_ref_scope_links(m, rank, a.value, id, b);
            lemma_contains_in_concat(
                expr_scope_ref(m, rank, a.target, id, b),
                expr_scope_ref(m, rank, a.value, id, b),
                x,
            );
        },
        ExpressionKind::Cast(cs) => {
            lemma_ref_scope_links(m, rank, cs.source, id, b);
        },
        ExpressionKind::Construct(cs) => {
            lemma_exprs_scope_links(m, rank, field_values(cs.fields@), id, b, k);
        },
        ExpressionKind::Ref(r) => {
            lemma_ref_scope_links(m, rank, r.target, id, b);
        },
        ExpressionKind::Deref(d) => {
            lemma_ref_scope_links(m, rank, d.target, id, b);
        },
        ExpressionKind::StaticCall(cs) => {
            lemma_exprs_scope_links(m, rank, cs.arguments@, id, b, k);
        },
        ExpressionKind::InstanceCall(cs) => {
            let t = expr_scope_ref(m, rank, cs.callee, id, b);
            let a = exprs_scope(m, rank, cs.arguments@, id, b);
            if k == 0 {
                lemma_ref_scope_links(m, rank, cs.callee, id, b);
            } else {
                assert(ops[k] == cs.arguments@[k - 1]);
                lemma_exprs_scope_links(m, rank, cs.arguments@, id, b, k - 1);
            }
            lemma_contains_in_concat(t, a, x);
        },
        ExpressionKind::IntrinsicCall(cs) => {
            lemma_exprs_scope_links(m, rank, cs.kind.spec_arguments(), id, b, k);
        },
        ExpressionKind::Is(i) => {
            lemma_ref_scope_links(m, rank, i.target, id, b);
            lemma_contains_in_concat(
                expr_scope_ref(m, rank, i.target, id, b),
                pattern_scope_ref(m, rank, i.pattern, id, b),
                x,
            );
        },
        ExpressionKind::Member(mb) => {
            lemma_ref_scope_links(m, rank, mb.callee, id, b);
        },
        ExpressionKind::Switch(sw) => {
            lemma_ref_scope_links(m, rank, sw.operand, id, b);
            lemma_contains_in_concat(
                expr_scope_ref(m, rank, sw.operand, id, b),
                switch_cases_scope(m, rank, sw.cases@, id, b),
                x,
            );
        },
        ExpressionKind::Variant(v) => {
            lemma_exprs_scope_links(m, rank, v.arguments@, id, b, k);
        },
        _ => {
            assert(ops.len() == 0);
        },
    }
}

/// Wherever the descent reaches an expression, each expression which it
/// holds as an operand ([`expr_operands`]) is linked to it: the callee of a
/// member access, for one, gets the member access as its parent.
pub proof fn law_operands_lie_in_their_expression(
    m: HirMap,
    rank: spec_fn(NodeId) -> nat,
    id: NodeId,
    parent: NodeId,
    c: NodeId,
)
    requires
        ranked_by(m, rank),
        m.spec_expression(id) is Some,
        expr_operands(m.spec_expression(id)->Some_0).contains(c),
    ensures
        expr_scope_at(m, rank, id, parent).contains(link(c, id, true)),
{
    let e = m.spec_expression(id)->Some_0;
    assert(m.spec_node(id) == Some(Node::Expression(e)));
    assert(expr_refs_ok(m, rank, e, rank(id)));
    lemma_expr_scope_links_operands(m, rank, e, id, rank(id), c);
    lemma_contains_in_concat(seq![link(id, parent, true)], expr_scope(m, rank, e, id, rank(id)), link(c, id, true));
}

/// Wherever the descent reaches a statement, the expression it holds
/// directly ([`stmt_operands`]) is linked to it: in `return x;`, `x` gets
/// the statement as its parent.
pub proof fn law_statement_operands_lie_in_their_statement(
    m: HirMap,
    rank: spec_fn(NodeId) -> nat,
    id: NodeId,
    parent: NodeId,
    c: NodeId,
)
    requires
        ranked_by(m, rank),
        m.spec_statement(id) is Some,
        stmt_operands(m.spec_statement(id)->Some_0).contains(c),
    ensures
        stmt_scope_at(m, rank, id, parent).contains(link(c, id, true)),
{
    let st = m.spec_statement(id)->Some_0;
    let b = rank(id);
    assert(m.spec_node(id) == Some(Node::Statement(st)));
    assert(stmt_refs_ok(m, rank, st, b));
    let ops = stmt_operands(st);
    assert(ops[0] == c);
    lemma_ref_scope_links(m, rank, c, id, b);
    assert(stmt_scope(m, rank, st, id, b) == expr_scope_ref(m, rank, c, id, b));
    lemma_contains_in_concat(seq![link(id, parent, true)], stmt_scope(m, rank, st, id, b), link(c, id, true));
}

} // verus!
