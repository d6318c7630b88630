//! HIR matchers: the predicates that make up a matcher, the bindings a
//! match records, the accessors which predicates use on the items they
//! look at, and the search of a map for the nodes which match.
use std::ops::ControlFlow;
use vstd::prelude::*;

pub mod item;
pub use item::{
    any, filter, function, has_body, has_documentation, has_name, has_visibility, method, optionally, AnyMatcher,
    BodyMatcher, DocumentationMatcher, FilterMatcher, FunctionMatcher, MethodMatcher, NameMatcher, Optionally,
    VisibilityMatcher,
};
pub mod string;
pub use string::{str_contains, str_empty, ContainsMatcher, EmptyMatcher};
pub mod stmt;
pub use stmt::{has_type_decl, statement, var_decl, StatementMatcher, TypeDeclMatcher, VarDeclMatcher};
pub mod pat;
pub use pat::{
    has_pattern, ident_pattern, literal_pattern, pattern, variant_pattern, wildcard_pattern, HasPatternMatcher,
    IdentPatternMatcher, LiteralPatternMatcher, PatternMatcher, VariantPatternMatcher, WildcardPatternMatcher,
};
pub mod expr;
pub use expr::{
    assignment, cast, construct, deref_expr, expression, has_branch, has_case, has_operand, if_expr, instance_call,
    intrinsic_call, is, literal, member, ref_expr, scope, static_call, switch, var_reference, variant,
    AssignmentMatcher, BranchMatcher, CaseMatcher, CastMatcher, ConstructMatcher, DerefMatcher, ExpressionMatcher,
    IfMatcher, InstanceCallMatcher, IntrinsicCallMatcher, IsMatcher, LiteralMatcher, MemberMatcher, OperandMatcher,
    RefMatcher, ScopeMatcher, StaticCallMatcher, SwitchMatcher, VarReferenceMatcher, VariantMatcher,
};

use crate::hir::node::{
    Assignment, Attribute, Block, Break, Cast, Condition, Construct, Continue, DerefExpr,
    EnumDefinition, EnumDefinitionCase, Expression, Field, Final, FnSignature,
    FunctionDefinition, If, Implementation, InfiniteLoop, InstanceCall, IntrinsicCall, Is,
    Literal, Member, MethodDefinition, Node, Parameter, Pattern, PatternField, RefExpr, Return,
    Scope, Statement, StaticCall, StructDefinition, Switch, SwitchCase, TraitDefinition,
    TraitImplementation, TraitMethodDefinition, TraitMethodImplementation, TypeDefinition,
    TypeParameter, TypeVariable, Variable, VariableDeclaration, Variant, Visibility,
};
use crate::hir::path::{segment_view, str_eq, Type, TypeId};
use crate::hir::walk::{
    acyclic, events_of, map_walk, node_walk, node_walkable, walk_map, walk_node, VisitEvent, VisitItem,
};
use crate::map::HirMap;
use crate::span::NodeId;

verus! {

/// The binding of `key` in a list of bindings: the last one made.
pub open spec fn binding_of<T>(entries: Seq<(Seq<char>, T)>, key: Seq<char>) -> Option<T>
    decreases entries.len(),
{
    if entries.len() == 0 {
        None
    } else if entries.last().0 == key {
        Some(entries.last().1)
    } else {
        binding_of(entries.drop_last(), key)
    }
}

/// The keys of a list of bindings, as text.
pub open spec fn keyed<T>(entries: Seq<(String, T)>) -> Seq<(Seq<char>, T)> {
    entries.map_values(|e: (String, T)| (e.0@, e.1))
}

/// The names bound to nodes and types during one match.
pub struct Bindings {
    nodes: Vec<(String, NodeId)>,
    types: Vec<(String, TypeId)>,
}

impl Bindings {
    /// The node bound to `key`, if any.
    pub closed spec fn node_binding(&self, key: Seq<char>) -> Option<NodeId> {
        binding_of(keyed(self.nodes@), key)
    }

    /// The type bound to `key`, if any.
    pub closed spec fn type_binding(&self, key: Seq<char>) -> Option<TypeId> {
        binding_of(keyed(self.types@), key)
    }

    /// Bindings without any name bound.
    pub fn new() -> (r: Bindings)
        ensures
            forall|k: Seq<char>| r.node_binding(k) is None && r.type_binding(k) is None,
    {
        let r = Bindings { nodes: Vec::new(), types: Vec::new() };
        proof {
            assert(keyed(r.nodes@) =~= Seq::<(Seq<char>, NodeId)>::empty());
            assert(keyed(r.types@) =~= Seq::<(Seq<char>, TypeId)>::empty());
        }
        r
    }

    /// Binds `key` to a node, replacing an earlier binding of it.
    pub fn bind_node(&mut self, key: &str, node: NodeId)
        ensures
            forall|k: Seq<char>| #[trigger] final(self).node_binding(k) == if k == key@ {
                Some(node)
            } else {
                old(self).node_binding(k)
            },
            forall|k: Seq<char>| #[trigger] final(self).type_binding(k) == old(self).type_binding(k),
    {
        let ghost before = keyed(self.nodes@);
        self.nodes.push((key.to_string(), node));
        proof {
            assert(keyed(self.nodes@).drop_last() =~= before);
        }
    }

    /// Binds `key` to a type, replacing an earlier binding of it.
    pub fn bind_type(&mut self, key: &str, ty: TypeId)
        ensures
            forall|k: Seq<char>| #[trigger] final(self).type_binding(k) == if k == key@ {
                Some(ty)
            } else {
                old(self).type_binding(k)
            },
            forall|k: Seq<char>| #[trigger] final(self).node_binding(k) == old(self).node_binding(k),
    {
        let ghost before = keyed(self.types@);
        self.types.push((key.to_string(), ty));
        proof {
            assert(keyed(self.types@).drop_last() =~= before);
        }
    }

    /// The node bound to `key`, if any.
    pub fn bound_node(&self, key: &str) -> (r: Option<NodeId>)
        ensures
            r == self.node_binding(key@),
    {
        let ghost e = keyed(self.nodes@);
        let mut i: usize = self.nodes.len();
        proof {
            assert(e.subrange(0, i as int) =~= e);
        }
        while i > 0
            invariant
                i <= self.nodes@.len(),
                e == keyed(self.nodes@),
                binding_of(e, key@) == binding_of(e.subrange(0, i as int), key@),
            decreases i,
        {
            let ghost sub = e.subrange(0, i as int);
            proof {
                assert(sub.drop_last() =~= e.subrange(0, i - 1));
                assert(sub.last() == e[i - 1]);
            }
            if str_eq(self.nodes[i - 1].0.as_str(), key) {
                return Some(self.nodes[i - 1].1);
            }
            i = i - 1;
        }
        proof {
            assert(e.subrange(0, 0) =~= Seq::<(Seq<char>, NodeId)>::empty());
        }
        None
    }

    /// The type bound to `key`, if any.
    pub fn bound_type(&self, key: &str) -> (r: Option<TypeId>)
        ensures
            r == self.type_binding(key@),
    {
        let ghost e = keyed(self.types@);
        let mut i: usize = self.types.len();
        proof {
            assert(e.subrange(0, i as int) =~= e);
        }
        while i > 0
            invariant
                i <= self.types@.len(),
                e == keyed(self.types@),
                binding_of(e, key@) == binding_of(e.subrange(0, i as int), key@),
            decreases i,
        {
            let ghost sub = e.subrange(0, i as int);
            proof {
                assert(sub.drop_last() =~= e.subrange(0, i - 1));
                assert(sub.last() == e[i - 1]);
            }
            if str_eq(self.types[i - 1].0.as_str(), key) {
                return Some(self.types[i - 1].1);
            }
            i = i - 1;
        }
        proof {
            assert(e.subrange(0, 0) =~= Seq::<(Seq<char>, TypeId)>::empty());
        }
        None
    }
}

/// A predicate on some subject of the HIR, such as a node or a type.
/// While it is checked, it may bind names to the items it matched.
///
/// `S` is the kind of subject the predicate is checked on.
pub trait Predicate<S> {
    /// Whether checking `subject` in `hir` may answer `r` and turn the
    /// bindings `before` into `after`. A predicate which says nothing of
    /// itself allows every answer.
    open spec fn answers(&self, hir: HirMap, subject: S, before: Bindings, r: bool, after: Bindings) -> bool {
        true
    }

    /// Whether the subject satisfies the predicate.
    fn satisfies(&self, hir: &HirMap, subject: &S, bindings: &mut Bindings) -> (r: bool)
        ensures
            self.answers(*hir, *subject, *old(bindings), r, *final(bindings)),
    ;
}

/// A predicate of any kind, on subjects of kind `S`.
pub type PredicateBox<S> = Box<dyn Predicate<S>>;

impl<S> Predicate<S> for Box<dyn Predicate<S>> {
    open spec fn answers(&self, hir: HirMap, subject: S, before: Bindings, r: bool, after: Bindings) -> bool {
        (**self).answers(hir, subject, before, r, after)
    }

    fn satisfies(&self, hir: &HirMap, subject: &S, bindings: &mut Bindings) -> (r: bool) {
        (**self).satisfies(hir, subject, bindings)
    }
}

/// Whether checking the predicates `ps` in order, until one fails, may
/// answer `r` and turn the bindings `before` into `after`: the answer is
/// `true` when every predicate answers `true`, and a failing predicate
/// ends the check with what it bound.
pub open spec fn all_answer<S>(
    ps: Seq<PredicateBox<S>>,
    hir: HirMap,
    subject: S,
    before: Bindings,
    r: bool,
    after: Bindings,
) -> bool
    decreases ps.len(),
{
    if ps.len() == 0 {
        r && after == before
    } else {
        exists|r0: bool, mid: Bindings|
            #[trigger] ps[0].answers(hir, subject, before, r0, mid) && if r0 {
                all_answer(ps.drop_first(), hir, subject, mid, r, after)
            } else {
                !r && after == mid
            }
    }
}

/// A list of predicates is satisfied when all of them are, checked in
/// order until one fails; an empty list is always satisfied and binds
/// nothing.
impl<S> Predicate<S> for Vec<PredicateBox<S>> {
    open spec fn answers(&self, hir: HirMap, subject: S, before: Bindings, r: bool, after: Bindings) -> bool {
        all_answer(self@, hir, subject, before, r, after)
    }

    fn satisfies(&self, hir: &HirMap, subject: &S, bindings: &mut Bindings) -> (r: bool)
        ensures
            self@.len() == 0 ==> r && *final(bindings) == *old(bindings),
    {
        let ghost ps = self@;
        let ghost start = *bindings;
        let mut i: usize = 0;
        proof {
            assert(ps.skip(0) =~= ps);
        }
        while i < self.len()
            invariant
                i <= ps.len(),
                ps == self@,
                forall|r: bool, a: Bindings|
                    #[trigger] all_answer(ps.skip(i as int), *hir, *subject, *bindings, r, a) ==> all_answer(
                        ps,
                        *hir,
                        *subject,
                        start,
                        r,
                        a,
                    ),
                start == *old(bindings),
            decreases self@.len() - i,
        {
            let ghost cur = *bindings;
            let ok = self[i].satisfies(hir, subject, bindings);
            let ghost next = *bindings;
            proof {
                let rest = ps.skip(i as int);
                assert(rest[0] == ps[i as int]);
                assert(rest.drop_first() =~= ps.skip(i + 1));
                assert(rest[0].answers(*hir, *subject, cur, ok, next));
                if ok {
                    assert forall|r: bool, a: Bindings|
                        #[trigger] all_answer(ps.skip(i + 1), *hir, *subject, next, r, a) implies all_answer(
                            ps,
                            *hir,
                            *subject,
                            start,
                            r,
                            a,
                        ) by {
                        assert(rest[0].answers(*hir, *subject, cur, true, next));
                        assert(all_answer(rest, *hir, *subject, cur, r, a));
                    }
                } else {
                    assert(all_answer(rest, *hir, *subject, cur, false, next));
                }
            }
            if !ok {
                return false;
            }
            i = i + 1;
        }
        proof {
            assert(ps.skip(i as int).len() == 0);
            assert(all_answer(ps.skip(i as int), *hir, *subject, *bindings, true, *bindings));
        }
        true
    }
}

/// `after` binds `key` to `node`, and otherwise what `before` binds.
pub open spec fn node_bound_over(after: Bindings, before: Bindings, key: Seq<char>, node: NodeId) -> bool {
    &&& forall|k: Seq<char>| #[trigger] after.node_binding(k) == if k == key {
        Some(node)
    } else {
        before.node_binding(k)
    }
    &&& forall|k: Seq<char>| #[trigger] after.type_binding(k) == before.type_binding(k)
}

/// `after` binds the type `key` to `ty`, and otherwise what `before` binds.
pub open spec fn type_bound_over(after: Bindings, before: Bindings, key: Seq<char>, ty: TypeId) -> bool {
    &&& forall|k: Seq<char>| #[trigger] after.type_binding(k) == if k == key {
        Some(ty)
    } else {
        before.type_binding(k)
    }
    &&& forall|k: Seq<char>| #[trigger] after.node_binding(k) == before.node_binding(k)
}

/// Binds a name to the node of every subject which satisfies the inner
/// predicate.
pub struct Bind<P> {
    predicate: P,
    name: &'static str,
}

impl<P> Bind<P> {
    /// The name which is bound.
    pub closed spec fn bound_name(&self) -> Seq<char> {
        self.name@
    }

    /// The inner predicate.
    pub closed spec fn inner(&self) -> P {
        self.predicate
    }

    /// Binds `name` to the subjects which satisfy `predicate`.
    pub fn new(predicate: P, name: &'static str) -> (r: Bind<P>)
        ensures
            r.bound_name() == name@,
            r.inner() == predicate,
    {
        Bind { predicate, name }
    }
}

impl<P, S> Predicate<S> for Bind<P> where P: Predicate<S>, S: HasNodeId {
    /// The inner predicate's answer; when it is `true`, the name is then
    /// bound to the subject's node.
    open spec fn answers(&self, hir: HirMap, subject: S, before: Bindings, r: bool, after: Bindings) -> bool {
        exists|mid: Bindings|
            #[trigger] self.inner().answers(hir, subject, before, r, mid) && if r {
                node_bound_over(after, mid, self.bound_name(), subject.spec_node_id())
            } else {
                after == mid
            }
    }

    fn satisfies(&self, hir: &HirMap, subject: &S, bindings: &mut Bindings) -> (r: bool)
        ensures
            r ==> final(bindings).node_binding(self.bound_name()) == Some(subject.spec_node_id()),
    {
        let ghost before = *bindings;
        let ok = self.predicate.satisfies(hir, subject, bindings);
        let ghost mid = *bindings;
        if ok {
            bindings.bind_node(self.name, subject.node_id());
            proof {
                assert(node_bound_over(*bindings, mid, self.bound_name(), subject.spec_node_id()));
                assert(self.inner().answers(*hir, *subject, before, true, mid));
            }
            true
        } else {
            proof {
                assert(self.inner().answers(*hir, *subject, before, false, mid));
            }
            false
        }
    }
}

/// Binds a name to the type identifier of every type which satisfies the
/// inner predicate.
pub struct BindType<P> {
    predicate: P,
    name: &'static str,
}

impl<P> BindType<P> {
    /// The name which is bound.
    pub closed spec fn bound_name(&self) -> Seq<char> {
        self.name@
    }

    /// The inner predicate.
    pub closed spec fn inner(&self) -> P {
        self.predicate
    }

    /// Binds `name` to the types which satisfy `predicate`.
    pub fn new(predicate: P, name: &'static str) -> (r: BindType<P>)
        ensures
            r.bound_name() == name@,
            r.inner() == predicate,
    {
        BindType { predicate, name }
    }
}

impl<P> Predicate<Type> for BindType<P> where P: Predicate<Type> {
    /// The inner predicate's answer; when it is `true`, the name is then
    /// bound to the type's identifier.
    open spec fn answers(&self, hir: HirMap, subject: Type, before: Bindings, r: bool, after: Bindings) -> bool {
        exists|mid: Bindings|
            #[trigger] self.inner().answers(hir, subject, before, r, mid) && if r {
                type_bound_over(after, mid, self.bound_name(), subject.id)
            } else {
                after == mid
            }
    }

    fn satisfies(&self, hir: &HirMap, subject: &Type, bindings: &mut Bindings) -> (r: bool)
        ensures
            r ==> final(bindings).type_binding(self.bound_name()) == Some(subject.id),
    {
        let ghost before = *bindings;
        let ok = self.predicate.satisfies(hir, subject, bindings);
        let ghost mid = *bindings;
        if ok {
            bindings.bind_type(self.name, subject.id);
            proof {
                assert(type_bound_over(*bindings, mid, self.bound_name(), subject.id));
                assert(self.inner().answers(*hir, *subject, before, true, mid));
            }
            true
        } else {
            proof {
                assert(self.inner().answers(*hir, *subject, before, false, mid));
            }
            false
        }
    }
}

/// Binding a name to the node of whatever satisfies a predicate.
pub trait PredicateBindExt<S>: Sized {
    /// Binds `name` to the node of every subject which satisfies the
    /// predicate, so that it can be read from the results of a match.
    fn bind(self, name: &'static str) -> (r: Bind<Self>)
        ensures
            r.bound_name() == name@,
            r.inner() == self,
    ;
}

impl<S: HasNodeId, P: Predicate<S>> PredicateBindExt<S> for P {
    fn bind(self, name: &'static str) -> (r: Bind<P>) {
        Bind::new(self, name)
    }
}

/// Binding a name to whatever type satisfies a predicate.
pub trait PredicateBindTypeExt: Sized {
    /// Binds `name` to the identifier of every type which satisfies the
    /// predicate, so that it can be read from the results of a match.
    fn bind_type(self, name: &'static str) -> (r: BindType<Self>)
        ensures
            r.bound_name() == name@,
            r.inner() == self,
    ;
}

impl<P: Predicate<Type>> PredicateBindTypeExt for P {
    fn bind_type(self, name: &'static str) -> (r: BindType<P>) {
        BindType::new(self, name)
    }
}

/// Items which carry the identifier of their node.
pub trait HasNodeId {
    /// The identifier of the item's node.
    spec fn spec_node_id(&self) -> NodeId;

    /// The identifier of the item's node.
    fn node_id(&self) -> (r: NodeId)
        ensures
            r == self.spec_node_id(),
    ;
}

impl HasNodeId for Node {
    open spec fn spec_node_id(&self) -> NodeId {
        self.spec_id()
    }

    fn node_id(&self) -> (r: NodeId) {
        self.id()
    }
}

impl HasNodeId for TypeDefinition {
    open spec fn spec_node_id(&self) -> NodeId {
        self.spec_id()
    }

    fn node_id(&self) -> (r: NodeId) {
        self.id()
    }
}

impl HasNodeId for FunctionDefinition {
    open spec fn spec_node_id(&self) -> NodeId {
        self.id
    }

    fn node_id(&self) -> (r: NodeId) {
        self.id
    }
}

impl HasNodeId for TraitImplementation {
    open spec fn spec_node_id(&self) -> NodeId {
        self.id
    }

    fn node_id(&self) -> (r: NodeId) {
        self.id
    }
}

impl HasNodeId for Implementation {
    open spec fn spec_node_id(&self) -> NodeId {
        self.id
    }

    fn node_id(&self) -> (r: NodeId) {
        self.id
    }
}

impl HasNodeId for Field {
    open spec fn spec_node_id(&self) -> NodeId {
        self.id
    }

    fn node_id(&self) -> (r: NodeId) {
        self.id
    }
}

impl HasNodeId for Parameter {
    open spec fn spec_node_id(&self) -> NodeId {
        self.id
    }

    fn node_id(&self) -> (r: NodeId) {
        self.id
    }
}

impl HasNodeId for MethodDefinition {
    open spec fn spec_node_id(&self) -> NodeId {
        self.id
    }

    fn node_id(&self) -> (r: NodeId) {
        self.id
    }
}

impl HasNodeId for TraitMethodDefinition {
    open spec fn spec_node_id(&self) -> NodeId {
        self.id
    }

    fn node_id(&self) -> (r: NodeId) {
        self.id
    }
}

impl HasNodeId for TraitMethodImplementation {
    open spec fn spec_node_id(&self) -> NodeId {
        self.id
    }

    fn node_id(&self) -> (r: NodeId) {
        self.id
    }
}

impl HasNodeId for Pattern {
    open spec fn spec_node_id(&self) -> NodeId {
        self.id
    }

    fn node_id(&self) -> (r: NodeId) {
        self.id
    }
}

impl HasNodeId for Statement {
    open spec fn spec_node_id(&self) -> NodeId {
        self.id
    }

    fn node_id(&self) -> (r: NodeId) {
        self.id
    }
}

impl HasNodeId for Expression {
    open spec fn spec_node_id(&self) -> NodeId {
        self.id
    }

    fn node_id(&self) -> (r: NodeId) {
        self.id
    }
}

impl HasNodeId for TypeVariable {
    open spec fn spec_node_id(&self) -> NodeId {
        self.id
    }

    fn node_id(&self) -> (r: NodeId) {
        self.id
    }
}

impl HasNodeId for EnumDefinition {
    open spec fn spec_node_id(&self) -> NodeId {
        self.id
    }

    fn node_id(&self) -> (r: NodeId) {
        self.id
    }
}

impl HasNodeId for StructDefinition {
    open spec fn spec_node_id(&self) -> NodeId {
        self.id
    }

    fn node_id(&self) -> (r: NodeId) {
        self.id
    }
}

impl HasNodeId for TraitDefinition {
    open spec fn spec_node_id(&self) -> NodeId {
        self.id
    }

    fn node_id(&self) -> (r: NodeId) {
        self.id
    }
}

impl HasNodeId for TypeParameter {
    open spec fn spec_node_id(&self) -> NodeId {
        self.id
    }

    fn node_id(&self) -> (r: NodeId) {
        self.id
    }
}

impl HasNodeId for VariableDeclaration {
    open spec fn spec_node_id(&self) -> NodeId {
        self.id
    }

    fn node_id(&self) -> (r: NodeId) {
        self.id
    }
}

impl HasNodeId for Break {
    open spec fn spec_node_id(&self) -> NodeId {
        self.id
    }

    fn node_id(&self) -> (r: NodeId) {
        self.id
    }
}

impl HasNodeId for Continue {
    open spec fn spec_node_id(&self) -> NodeId {
        self.id
    }

    fn node_id(&self) -> (r: NodeId) {
        self.id
    }
}

impl HasNodeId for Final {
    open spec fn spec_node_id(&self) -> NodeId {
        self.id
    }

    fn node_id(&self) -> (r: NodeId) {
        self.id
    }
}

impl HasNodeId for Return {
    open spec fn spec_node_id(&self) -> NodeId {
        self.id
    }

    fn node_id(&self) -> (r: NodeId) {
        self.id
    }
}

impl HasNodeId for InfiniteLoop {
    open spec fn spec_node_id(&self) -> NodeId {
        self.id
    }

    fn node_id(&self) -> (r: NodeId) {
        self.id
    }
}

impl HasNodeId for Assignment {
    open spec fn spec_node_id(&self) -> NodeId {
        self.id
    }

    fn node_id(&self) -> (r: NodeId) {
        self.id
    }
}

impl HasNodeId for Cast {
    open spec fn spec_node_id(&self) -> NodeId {
        self.id
    }

    fn node_id(&self) -> (r: NodeId) {
        self.id
    }
}

impl HasNodeId for Construct {
    open spec fn spec_node_id(&self) -> NodeId {
        self.id
    }

    fn node_id(&self) -> (r: NodeId) {
        self.id
    }
}

impl HasNodeId for DerefExpr {
    open spec fn spec_node_id(&self) -> NodeId {
        self.id
    }

    fn node_id(&self) -> (r: NodeId) {
        self.id
    }
}

impl HasNodeId for RefExpr {
    open spec fn spec_node_id(&self) -> NodeId {
        self.id
    }

    fn node_id(&self) -> (r: NodeId) {
        self.id
    }
}

impl HasNodeId for StaticCall {
    open spec fn spec_node_id(&self) -> NodeId {
        self.id
    }

    fn node_id(&self) -> (r: NodeId) {
        self.id
    }
}

impl HasNodeId for InstanceCall {
    open spec fn spec_node_id(&self) -> NodeId {
        self.id
    }

    fn node_id(&self) -> (r: NodeId) {
        self.id
    }
}

impl HasNodeId for IntrinsicCall {
    open spec fn spec_node_id(&self) -> NodeId {
        self.id
    }

    fn node_id(&self) -> (r: NodeId) {
        self.id
    }
}

impl HasNodeId for If {
    open spec fn spec_node_id(&self) -> NodeId {
        self.id
    }

    fn node_id(&self) -> (r: NodeId) {
        self.id
    }
}

impl HasNodeId for Is {
    open spec fn spec_node_id(&self) -> NodeId {
        self.id
    }

    fn node_id(&self) -> (r: NodeId) {
        self.id
    }
}

impl HasNodeId for Literal {
    open spec fn spec_node_id(&self) -> NodeId {
        self.id
    }

    fn node_id(&self) -> (r: NodeId) {
        self.id
    }
}

impl HasNodeId for Member {
    open spec fn spec_node_id(&self) -> NodeId {
        self.id
    }

    fn node_id(&self) -> (r: NodeId) {
        self.id
    }
}

impl HasNodeId for Scope {
    open spec fn spec_node_id(&self) -> NodeId {
        self.id
    }

    fn node_id(&self) -> (r: NodeId) {
        self.id
    }
}

impl HasNodeId for Switch {
    open spec fn spec_node_id(&self) -> NodeId {
        self.id
    }

    fn node_id(&self) -> (r: NodeId) {
        self.id
    }
}

impl HasNodeId for Variable {
    open spec fn spec_node_id(&self) -> NodeId {
        self.id
    }

    fn node_id(&self) -> (r: NodeId) {
        self.id
    }
}

impl HasNodeId for Variant {
    open spec fn spec_node_id(&self) -> NodeId {
        self.id
    }

    fn node_id(&self) -> (r: NodeId) {
        self.id
    }
}


/// Items which have a name.
pub trait HasName {
    /// The name of the item.
    spec fn spec_name(&self) -> Seq<char>;

    /// The name of the item.
    fn name(&self) -> (r: &str)
        ensures
            r@ == self.spec_name(),
    ;
}

impl HasName for FunctionDefinition {
    open spec fn spec_name(&self) -> Seq<char> {
        segment_view(self.signature.name.name).name_str()
    }

    fn name(&self) -> (r: &str) {
        self.signature.name.name.as_str()
    }
}

impl HasName for MethodDefinition {
    open spec fn spec_name(&self) -> Seq<char> {
        segment_view(self.signature.name.name).name_str()
    }

    fn name(&self) -> (r: &str) {
        self.signature.name.name.as_str()
    }
}

impl HasName for TraitMethodDefinition {
    open spec fn spec_name(&self) -> Seq<char> {
        segment_view(self.signature.name.name).name_str()
    }

    fn name(&self) -> (r: &str) {
        self.signature.name.name.as_str()
    }
}

impl HasName for TraitMethodImplementation {
    open spec fn spec_name(&self) -> Seq<char> {
        segment_view(self.signature.name.name).name_str()
    }

    fn name(&self) -> (r: &str) {
        self.signature.name.name.as_str()
    }
}

impl HasName for EnumDefinition {
    open spec fn spec_name(&self) -> Seq<char> {
        segment_view(self.name.name).name_str()
    }

    fn name(&self) -> (r: &str) {
        self.name.name.as_str()
    }
}

impl HasName for StructDefinition {
    open spec fn spec_name(&self) -> Seq<char> {
        segment_view(self.name.name).name_str()
    }

    fn name(&self) -> (r: &str) {
        self.name.name.as_str()
    }
}

impl HasName for TraitDefinition {
    open spec fn spec_name(&self) -> Seq<char> {
        segment_view(self.name.name).name_str()
    }

    fn name(&self) -> (r: &str) {
        self.name.name.as_str()
    }
}

impl HasName for Field {
    open spec fn spec_name(&self) -> Seq<char> {
        self.name.name@
    }

    fn name(&self) -> (r: &str) {
        self.name.as_str()
    }
}

impl HasName for Parameter {
    open spec fn spec_name(&self) -> Seq<char> {
        self.name.name@
    }

    fn name(&self) -> (r: &str) {
        self.name.as_str()
    }
}

impl HasName for TypeParameter {
    open spec fn spec_name(&self) -> Seq<char> {
        self.name.name@
    }

    fn name(&self) -> (r: &str) {
        self.name.as_str()
    }
}

impl HasName for VariableDeclaration {
    open spec fn spec_name(&self) -> Seq<char> {
        self.name.name@
    }

    fn name(&self) -> (r: &str) {
        self.name.as_str()
    }
}

impl HasName for Variable {
    open spec fn spec_name(&self) -> Seq<char> {
        self.name.name@
    }

    fn name(&self) -> (r: &str) {
        self.name.as_str()
    }
}

/// Items which carry attributes.
pub trait HasAttributes {
    /// The attributes of the item.
    spec fn spec_attributes(&self) -> Seq<Attribute>;

    /// The attributes of the item.
    fn attributes(&self) -> (r: &[Attribute])
        ensures
            r@ == self.spec_attributes(),
    ;
}

impl HasAttributes for FunctionDefinition {
    open spec fn spec_attributes(&self) -> Seq<Attribute> {
        self.attrs@
    }

    fn attributes(&self) -> (r: &[Attribute]) {
        self.attrs.as_slice()
    }
}

impl HasAttributes for EnumDefinition {
    open spec fn spec_attributes(&self) -> Seq<Attribute> {
        self.attrs@
    }

    fn attributes(&self) -> (r: &[Attribute]) {
        self.attrs.as_slice()
    }
}

impl HasAttributes for StructDefinition {
    open spec fn spec_attributes(&self) -> Seq<Attribute> {
        self.attrs@
    }

    fn attributes(&self) -> (r: &[Attribute]) {
        self.attrs.as_slice()
    }
}

impl HasAttributes for Implementation {
    open spec fn spec_attributes(&self) -> Seq<Attribute> {
        self.attrs@
    }

    fn attributes(&self) -> (r: &[Attribute]) {
        self.attrs.as_slice()
    }
}

impl HasAttributes for Field {
    open spec fn spec_attributes(&self) -> Seq<Attribute> {
        self.attrs@
    }

    fn attributes(&self) -> (r: &[Attribute]) {
        self.attrs.as_slice()
    }
}

impl HasAttributes for MethodDefinition {
    open spec fn spec_attributes(&self) -> Seq<Attribute> {
        self.attrs@
    }

    fn attributes(&self) -> (r: &[Attribute]) {
        self.attrs.as_slice()
    }
}

impl HasAttributes for TraitDefinition {
    open spec fn spec_attributes(&self) -> Seq<Attribute> {
        self.attrs@
    }

    fn attributes(&self) -> (r: &[Attribute]) {
        self.attrs.as_slice()
    }
}

impl HasAttributes for TraitMethodDefinition {
    open spec fn spec_attributes(&self) -> Seq<Attribute> {
        self.attrs@
    }

    fn attributes(&self) -> (r: &[Attribute]) {
        self.attrs.as_slice()
    }
}

impl HasAttributes for TraitMethodImplementation {
    open spec fn spec_attributes(&self) -> Seq<Attribute> {
        self.attrs@
    }

    fn attributes(&self) -> (r: &[Attribute]) {
        self.attrs.as_slice()
    }
}

/// Items which may carry a documentation comment.
pub trait HasDocumentation: Sized {
    /// The documentation comment of the item, if any.
    spec fn spec_docs(&self) -> Option<String>;

    /// The documentation comment of the item, if any.
    fn docs(&self) -> (r: Option<&String>)
        ensures
            match r {
                Some(d) => self.spec_docs() == Some(*d),
                None => self.spec_docs() is None,
            },
    ;
}

impl HasDocumentation for FunctionDefinition {
    open spec fn spec_docs(&self) -> Option<String> {
        self.doc_comment
    }

    fn docs(&self) -> (r: Option<&String>) {
        match &self.doc_comment {
            Some(d) => Some(d),
            None => None,
        }
    }
}

impl HasDocumentation for EnumDefinition {
    open spec fn spec_docs(&self) -> Option<String> {
        self.doc_comment
    }

    fn docs(&self) -> (r: Option<&String>) {
        match &self.doc_comment {
            Some(d) => Some(d),
            None => None,
        }
    }
}

impl HasDocumentation for EnumDefinitionCase {
    open spec fn spec_docs(&self) -> Option<String> {
        self.doc_comment
    }

    fn docs(&self) -> (r: Option<&String>) {
        match &self.doc_comment {
            Some(d) => Some(d),
            None => None,
        }
    }
}

impl HasDocumentation for StructDefinition {
    open spec fn spec_docs(&self) -> Option<String> {
        self.doc_comment
    }

    fn docs(&self) -> (r: Option<&String>) {
        match &self.doc_comment {
            Some(d) => Some(d),
            None => None,
        }
    }
}

impl HasDocumentation for Field {
    open spec fn spec_docs(&self) -> Option<String> {
        self.doc_comment
    }

    fn docs(&self) -> (r: Option<&String>) {
        match &self.doc_comment {
            Some(d) => Some(d),
            None => None,
        }
    }
}

impl HasDocumentation for MethodDefinition {
    open spec fn spec_docs(&self) -> Option<String> {
        self.doc_comment
    }

    fn docs(&self) -> (r: Option<&String>) {
        match &self.doc_comment {
            Some(d) => Some(d),
            None => None,
        }
    }
}

impl HasDocumentation for TraitDefinition {
    open spec fn spec_docs(&self) -> Option<String> {
        self.doc_comment
    }

    fn docs(&self) -> (r: Option<&String>) {
        match &self.doc_comment {
            Some(d) => Some(d),
            None => None,
        }
    }
}

impl HasDocumentation for TraitMethodDefinition {
    open spec fn spec_docs(&self) -> Option<String> {
        self.doc_comment
    }

    fn docs(&self) -> (r: Option<&String>) {
        match &self.doc_comment {
            Some(d) => Some(d),
            None => None,
        }
    }
}

impl HasDocumentation for TraitMethodImplementation {
    open spec fn spec_docs(&self) -> Option<String> {
        self.doc_comment
    }

    fn docs(&self) -> (r: Option<&String>) {
        match &self.doc_comment {
            Some(d) => Some(d),
            None => None,
        }
    }
}

/// Items with a visibility.
pub trait HasVisibility: Sized {
    /// The visibility of the item.
    spec fn spec_visibility(&self) -> Visibility;

    /// The visibility of the item.
    fn visibility(&self) -> (r: Visibility)
        ensures
            r == self.spec_visibility(),
    ;
}

impl HasVisibility for FunctionDefinition {
    open spec fn spec_visibility(&self) -> Visibility {
        self.visibility
    }

    fn visibility(&self) -> (r: Visibility) {
        self.visibility
    }
}

impl HasVisibility for EnumDefinition {
    open spec fn spec_visibility(&self) -> Visibility {
        self.visibility
    }

    fn visibility(&self) -> (r: Visibility) {
        self.visibility
    }
}

impl HasVisibility for StructDefinition {
    open spec fn spec_visibility(&self) -> Visibility {
        self.visibility
    }

    fn visibility(&self) -> (r: Visibility) {
        self.visibility
    }
}

impl HasVisibility for Field {
    open spec fn spec_visibility(&self) -> Visibility {
        self.visibility
    }

    fn visibility(&self) -> (r: Visibility) {
        self.visibility
    }
}

impl HasVisibility for MethodDefinition {
    open spec fn spec_visibility(&self) -> Visibility {
        self.visibility
    }

    fn visibility(&self) -> (r: Visibility) {
        self.visibility
    }
}

impl HasVisibility for TraitDefinition {
    open spec fn spec_visibility(&self) -> Visibility {
        self.visibility
    }

    fn visibility(&self) -> (r: Visibility) {
        self.visibility
    }
}

/// Items with a function signature.
pub trait HasSignature {
    /// The signature of the item.
    spec fn spec_signature(&self) -> FnSignature;

    /// The signature of the item.
    fn signature(&self) -> (r: &FnSignature)
        ensures
            *r == self.spec_signature(),
    ;
}

/// Items which may have a body.
pub trait HasBody {
    /// The body of the item, if any.
    spec fn spec_body(&self) -> Option<Block>;

    /// The body of the item, if any.
    fn body(&self) -> (r: Option<&Block>)
        ensures
            match r {
                Some(b) => self.spec_body() == Some(*b),
                None => self.spec_body() is None,
            },
    ;
}

impl HasSignature for FunctionDefinition {
    open spec fn spec_signature(&self) -> FnSignature {
        self.signature
    }

    fn signature(&self) -> (r: &FnSignature) {
        &self.signature
    }
}

impl HasBody for FunctionDefinition {
    open spec fn spec_body(&self) -> Option<Block> {
        self.block
    }

    fn body(&self) -> (r: Option<&Block>) {
        match &self.block {
            Some(b) => Some(b),
            None => None,
        }
    }
}

impl HasSignature for MethodDefinition {
    open spec fn spec_signature(&self) -> FnSignature {
        self.signature
    }

    fn signature(&self) -> (r: &FnSignature) {
        &self.signature
    }
}

impl HasBody for MethodDefinition {
    open spec fn spec_body(&self) -> Option<Block> {
        self.block
    }

    fn body(&self) -> (r: Option<&Block>) {
        match &self.block {
            Some(b) => Some(b),
            None => None,
        }
    }
}

impl HasSignature for TraitMethodDefinition {
    open spec fn spec_signature(&self) -> FnSignature {
        self.signature
    }

    fn signature(&self) -> (r: &FnSignature) {
        &self.signature
    }
}

impl HasBody for TraitMethodDefinition {
    open spec fn spec_body(&self) -> Option<Block> {
        self.block
    }

    fn body(&self) -> (r: Option<&Block>) {
        match &self.block {
            Some(b) => Some(b),
            None => None,
        }
    }
}

impl HasSignature for TraitMethodImplementation {
    open spec fn spec_signature(&self) -> FnSignature {
        self.signature
    }

    fn signature(&self) -> (r: &FnSignature) {
        &self.signature
    }
}

impl HasBody for TraitMethodImplementation {
    open spec fn spec_body(&self) -> Option<Block> {
        self.block
    }

    fn body(&self) -> (r: Option<&Block>) {
        match &self.block {
            Some(b) => Some(b),
            None => None,
        }
    }
}

/// Items which refer to a block, or to the expression of a branch.
pub trait HasBlock {
    /// The identifier of the block.
    spec fn spec_block(&self) -> NodeId;

    /// The identifier of the block.
    fn block(&self) -> (r: NodeId)
        ensures
            r == self.spec_block(),
    ;
}

impl HasBlock for InfiniteLoop {
    open spec fn spec_block(&self) -> NodeId {
        self.block.id
    }

    fn block(&self) -> (r: NodeId) {
        self.block.id
    }
}

impl HasBlock for Condition {
    open spec fn spec_block(&self) -> NodeId {
        self.block.id
    }

    fn block(&self) -> (r: NodeId) {
        self.block.id
    }
}

impl HasBlock for SwitchCase {
    open spec fn spec_block(&self) -> NodeId {
        self.branch
    }

    fn block(&self) -> (r: NodeId) {
        self.branch
    }
}

/// Items which refer to a pattern.
pub trait HasPattern {
    /// The identifier of the pattern.
    spec fn spec_pattern(&self) -> NodeId;

    /// The identifier of the pattern.
    fn pattern(&self) -> (r: NodeId)
        ensures
            r == self.spec_pattern(),
    ;
}

impl HasPattern for Is {
    open spec fn spec_pattern(&self) -> NodeId {
        self.pattern
    }

    fn pattern(&self) -> (r: NodeId) {
        self.pattern
    }
}

impl HasPattern for SwitchCase {
    open spec fn spec_pattern(&self) -> NodeId {
        self.pattern
    }

    fn pattern(&self) -> (r: NodeId) {
        self.pattern
    }
}

impl HasPattern for PatternField {
    open spec fn spec_pattern(&self) -> NodeId {
        self.pattern
    }

    fn pattern(&self) -> (r: NodeId) {
        self.pattern
    }
}

} // verus!

verus! {

/// The bindings of one match, with the map they refer to.
pub struct Results<'hir> {
    hir: &'hir HirMap,
    bindings: Bindings,
}

impl<'hir> Results<'hir> {
    /// The map which the bindings refer to.
    pub closed spec fn spec_hir(&self) -> HirMap {
        *self.hir
    }

    /// The bindings of the match.
    pub closed spec fn spec_bindings(&self) -> Bindings {
        self.bindings
    }

    /// The node bound to `key`, if any.
    pub closed spec fn node_binding(&self, key: Seq<char>) -> Option<NodeId> {
        self.bindings.node_binding(key)
    }

    /// The type bound to `key`, if any.
    pub closed spec fn type_binding(&self, key: Seq<char>) -> Option<TypeId> {
        self.bindings.type_binding(key)
    }

    /// The node bound to `key`, looked up in the map; the bound node must be
    /// stored there.
    pub fn bound_node(&self, key: &str) -> (r: Option<&'hir Node>)
        requires
            self.node_binding(key@) matches Some(id) ==> self.spec_hir().spec_node(id) is Some,
        ensures
            match self.node_binding(key@) {
                Some(id) => r matches Some(n) && self.spec_hir().spec_node(id) == Some(*n),
                None => r is None,
            },
    {
        match self.bindings.bound_node(key) {
            Some(id) => self.hir.node(id),
            None => None,
        }
    }

    /// The type bound to `key`, looked up in the map; the bound type must
    /// be stored there.
    pub fn bound_type(&self, key: &str) -> (r: Option<&'hir Type>)
        requires
            self.type_binding(key@) matches Some(id) ==> self.spec_hir().spec_type(id) is Some,
        ensures
            match self.type_binding(key@) {
                Some(id) => r matches Some(t) && self.spec_hir().spec_type(id) == Some(*t),
                None => r is None,
            },
    {
        match self.bindings.bound_type(key) {
            Some(id) => self.hir.type_(id),
            None => None,
        }
    }
}

/// What is called with the bindings of each match; breaking stops the
/// search.
pub trait MatchCallback: Sized {
    /// Whether a call with the bindings `bindings` of a match in `hir` may
    /// answer `flow` and leave the callback as `after`. A callback which
    /// says nothing of itself allows every answer.
    open spec fn called(&self, hir: HirMap, bindings: Bindings, flow: ControlFlow<()>, after: Self) -> bool {
        true
    }

    fn on_match(&mut self, results: &Results) -> (flow: ControlFlow<()>)
        ensures
            old(self).called(results.spec_hir(), results.spec_bindings(), flow, *final(self)),
    ;
}

/// Bindings which bind no name.
pub open spec fn no_bindings(b: Bindings) -> bool {
    forall|k: Seq<char>| #[trigger] b.node_binding(k) is None && b.type_binding(k) is None
}

/// The node of the map which the walked item `e` stands for, if the search
/// tests it: a node is tested itself; with `descend`, a statement,
/// expression or pattern is tested as the node stored for its identifier.
pub open spec fn searched_node(hir: HirMap, e: VisitEvent, descend: bool) -> Option<Node> {
    match e {
        VisitEvent::Node(n) => Some(n),
        VisitEvent::Statement(st) => if descend {
            hir.spec_node(st.id)
        } else {
            None
        },
        VisitEvent::Expression(x) => if descend {
            hir.spec_node(x.id)
        } else {
            None
        },
        VisitEvent::Pattern(pt) => if descend {
            hir.spec_node(pt.id)
        } else {
            None
        },
        _ => None,
    }
}

/// Whether a search of the walked items `items` may take the callback from
/// `c0` to `c_fin`: each node which the search tests (see
/// [`searched_node`]) is checked with fresh bindings; for each one which
/// satisfies the matcher, the callback is called with the bindings of the
/// match, and the search stops when it breaks, or after that first call
/// with `first_only`.
pub open spec fn match_run<P: Predicate<Node>, C: MatchCallback>(
    hir: HirMap,
    matcher: P,
    items: Seq<VisitEvent>,
    descend: bool,
    first_only: bool,
    c0: C,
    c_fin: C,
) -> bool
    decreases items.len(),
{
    if items.len() == 0 {
        c_fin == c0
    } else {
        match searched_node(hir, items[0], descend) {
            Some(n) => exists|b0: Bindings, r: bool, b: Bindings|
                #[trigger] matcher.answers(hir, n, b0, r, b) && no_bindings(b0) && if r {
                    exists|flow: ControlFlow<()>, c1: C|
                        #[trigger] c0.called(hir, b, flow, c1) && if first_only || flow matches ControlFlow::Break(_) {
                            c_fin == c1
                        } else {
                            match_run(hir, matcher, items.drop_first(), descend, first_only, c1, c_fin)
                        }
                } else {
                    match_run(hir, matcher, items.drop_first(), descend, first_only, c0, c_fin)
                },
            None => match_run(hir, matcher, items.drop_first(), descend, first_only, c0, c_fin),
        }
    }
}

/// Checks the matcher on each node which the search tests among the items
/// (with `descend`, statements, expressions and patterns too, as the nodes
/// stored for them), in order, and calls the callback with the bindings of
/// each match until it breaks; with `first_only`, the search stops after
/// the first match.
fn match_items<'hir, P: Predicate<Node>, C: MatchCallback>(
    hir: &'hir HirMap,
    matcher: &P,
    callback: &mut C,
    items: &Vec<VisitItem<'hir>>,
    descend: bool,
    first_only: bool,
)
    ensures
        match_run(*hir, *matcher, events_of(items@), descend, first_only, *old(callback), *final(callback)),
{
    let ghost ev = events_of(items@);
    let ghost start = *callback;
    let mut i: usize = 0;
    proof {
        assert(ev.skip(0) =~= ev);
    }
    while i < items.len()
        invariant
            i <= items@.len(),
            ev == events_of(items@),
            start == *old(callback),
            forall|cf: C|
                #[trigger] match_run(*hir, *matcher, ev.skip(i as int), descend, first_only, *callback, cf)
                    ==> match_run(*hir, *matcher, ev, descend, first_only, start, cf),
        decreases items.len() - i,
    {
        let ghost c0 = *callback;
        let ghost rest = ev.skip(i as int);
        proof {
            assert(rest[0] == items@[i as int].event());
            assert(rest.drop_first() =~= ev.skip(i + 1));
        }
        let tested: Option<&Node> = match items[i] {
            VisitItem::Node(n) => Some(n),
            VisitItem::Statement(st) => if descend {
                hir.node(st.id)
            } else {
                None
            },
            VisitItem::Expression(x) => if descend {
                hir.node(x.id)
            } else {
                None
            },
            VisitItem::Pattern(pt) => if descend {
                hir.node(pt.id)
            } else {
                None
            },
            _ => None,
        };
        proof {
            match tested {
                Some(n) => assert(searched_node(*hir, rest[0], descend) == Some(*n)),
                None => assert(searched_node(*hir, rest[0], descend) is None),
            }
        }
        match tested {
            Some(n) => {
                let mut bindings = Bindings::new();
                let ghost b0 = bindings;
                let ok = matcher.satisfies(hir, n, &mut bindings);
                let ghost b = bindings;
                proof {
                    assert(no_bindings(b0));
                    assert(matcher.answers(*hir, *n, b0, ok, b));
                }
                if ok {
                    let results = Results { hir, bindings };
                    let flow = callback.on_match(&results);
                    proof {
                        assert(c0.called(*hir, b, flow, *callback));
                    }
                    if first_only {
                        proof {
                            assert(match_run(*hir, *matcher, rest, descend, first_only, c0, *callback));
                        }
                        return;
                    }
                    match flow {
                        ControlFlow::Break(()) => {
                            proof {
                                assert(match_run(*hir, *matcher, rest, descend, first_only, c0, *callback));
                            }
                            return;
                        },
                        ControlFlow::Continue(()) => {
                            proof {
                                assert forall|cf: C|
                                    #[trigger] match_run(*hir, *matcher, ev.skip(i + 1), descend, first_only, *callback, cf)
                                    implies match_run(*hir, *matcher, ev, descend, first_only, start, cf) by {
                                    assert(match_run(*hir, *matcher, rest, descend, first_only, c0, cf));
                                }
                            }
                        },
                    }
                } else {
                    proof {
                        assert forall|cf: C|
                            #[trigger] match_run(*hir, *matcher, ev.skip(i + 1), descend, first_only, *callback, cf)
                            implies match_run(*hir, *matcher, ev, descend, first_only, start, cf) by {
                            assert(match_run(*hir, *matcher, rest, descend, first_only, c0, cf));
                        }
                    }
                }
            },
            None => {
                proof {
                    assert forall|cf: C|
                        #[trigger] match_run(*hir, *matcher, ev.skip(i + 1), descend, first_only, *callback, cf)
                        implies match_run(*hir, *matcher, ev, descend, first_only, start, cf) by {
                        assert(match_run(*hir, *matcher, rest, descend, first_only, c0, cf));
                    }
                }
            },
        }
        i = i + 1;
    }
    proof {
        assert(ev.skip(i as int).len() == 0);
        assert(match_run(*hir, *matcher, ev.skip(i as int), descend, first_only, *callback, *callback));
    }
}

/// Searches all nodes of the map, in the order of the walk, for nodes which
/// satisfy the matcher, and calls the callback for each match until it
/// breaks.
pub fn find_matches<'hir, P: Predicate<Node>, C: MatchCallback>(
    hir: &'hir HirMap,
    matcher: &P,
    callback: &mut C,
)
    requires
        hir.well_formed(),
        acyclic(*hir),
    ensures
        match_run(*hir, *matcher, map_walk(*hir), false, false, *old(callback), *final(callback)),
{
    let items = walk_map(hir);
    match_items(hir, matcher, callback, &items, false, false);
}

/// Searches the entry node and every node of the map which descends from
/// it (its statements, expressions and patterns each as the node stored for
/// it) for nodes which satisfy the matcher, and calls the callback for each
/// match until it breaks.
pub fn find_matches_in<'hir, P: Predicate<Node>, C: MatchCallback>(
    hir: &'hir HirMap,
    matcher: &P,
    callback: &mut C,
    entrypoint: &'hir Node,
)
    requires
        node_walkable(*hir, *entrypoint),
    ensures
        match_run(*hir, *matcher, node_walk(*hir, *entrypoint), true, false, *old(callback), *final(callback)),
{
    let items = walk_node(hir, entrypoint);
    match_items(hir, matcher, callback, &items, true, false);
}

/// Searches all nodes of the map for the first node which satisfies the
/// matcher, and calls the callback with its bindings.
pub fn find_first_match<'hir, P: Predicate<Node>, C: MatchCallback>(
    hir: &'hir HirMap,
    matcher: &P,
    callback: &mut C,
)
    requires
        hir.well_formed(),
        acyclic(*hir),
    ensures
        match_run(*hir, *matcher, map_walk(*hir), false, true, *old(callback), *final(callback)),
{
    let items = walk_map(hir);
    match_items(hir, matcher, callback, &items, false, true);
}

} // verus!
