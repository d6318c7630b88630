//! Matchers on statements and variable declarations.
use vstd::prelude::*;

use crate::hir::matcher::{all_answer, Bindings, Predicate, PredicateBox};
use crate::hir::node::{Node, Statement, StatementKind, VariableDeclaration};
use crate::hir::path::Type;
use crate::map::HirMap;

verus! {

/// Matches statements.
pub struct StatementMatcher {
    predicates: Vec<PredicateBox<Statement>>,
}

impl StatementMatcher {
    /// The predicates which the statement must satisfy.
    pub closed spec fn children(&self) -> Seq<PredicateBox<Statement>> {
        self.predicates@
    }
}

/// Matches statements which satisfy all of `predicates`.
pub fn statement(predicates: Vec<PredicateBox<Statement>>) -> (r: StatementMatcher)
    ensures
        r.children() == predicates@,
{
    StatementMatcher { predicates }
}

impl Predicate<Node> for StatementMatcher {
    /// The predicates' answer on the part which the subject has; a
    /// subject without it is not matched and binds nothing.
    open spec fn answers(&self, hir: HirMap, subject: Node, before: Bindings, r: bool, after: Bindings) -> bool {
        match subject {
            Node::Statement(x) => all_answer(self.children(), hir, x, before, r, after),
            _ => !r && after == before,
        }
    }

    fn satisfies(&self, hir: &HirMap, subject: &Node, bindings: &mut Bindings) -> (r: bool)
        ensures
            !(subject is Statement) ==> !r && *final(bindings) == *old(bindings),
            subject is Statement && self.children().len() == 0 ==> r && *final(bindings) == *old(bindings),
    {
        match subject {
            Node::Statement(x) => self.predicates.satisfies(hir, x, bindings),
            _ => false,
        }
    }
}

/// Matches variable declarations.
pub struct VarDeclMatcher {
    predicates: Vec<PredicateBox<VariableDeclaration>>,
}

impl VarDeclMatcher {
    /// The predicates which the declaration must satisfy.
    pub closed spec fn children(&self) -> Seq<PredicateBox<VariableDeclaration>> {
        self.predicates@
    }
}

/// Matches variable declarations which satisfy all of `predicates`.
pub fn var_decl(predicates: Vec<PredicateBox<VariableDeclaration>>) -> (r: VarDeclMatcher)
    ensures
        r.children() == predicates@,
{
    VarDeclMatcher { predicates }
}

impl Predicate<Statement> for VarDeclMatcher {
    /// The predicates' answer on the part which the subject has; a
    /// subject without it is not matched and binds nothing.
    open spec fn answers(&self, hir: HirMap, subject: Statement, before: Bindings, r: bool, after: Bindings) -> bool {
        match subject.kind {
            StatementKind::Variable(x) => all_answer(self.children(), hir, x, before, r, after),
            _ => !r && after == before,
        }
    }

    fn satisfies(&self, hir: &HirMap, subject: &Statement, bindings: &mut Bindings) -> (r: bool)
        ensures
            !(subject.kind is Variable) ==> !r && *final(bindings) == *old(bindings),
            subject.kind is Variable && self.children().len() == 0 ==> r && *final(bindings) == *old(bindings),
    {
        match &subject.kind {
            StatementKind::Variable(x) => self.predicates.satisfies(hir, x, bindings),
            _ => false,
        }
    }
}

/// Matches the declared type of variable declarations, where there is one.
pub struct TypeDeclMatcher {
    predicates: Vec<PredicateBox<Type>>,
}

impl TypeDeclMatcher {
    /// The predicates which the type must satisfy.
    pub closed spec fn children(&self) -> Seq<PredicateBox<Type>> {
        self.predicates@
    }
}

/// Matches the declared type of variable declarations, where there is one which satisfy all of `predicates`.
pub fn has_type_decl(predicates: Vec<PredicateBox<Type>>) -> (r: TypeDeclMatcher)
    ensures
        r.children() == predicates@,
{
    TypeDeclMatcher { predicates }
}

impl Predicate<VariableDeclaration> for TypeDeclMatcher {
    /// The predicates' answer on the part which the subject has; a
    /// subject without it is not matched and binds nothing.
    open spec fn answers(&self, hir: HirMap, subject: VariableDeclaration, before: Bindings, r: bool, after: Bindings) -> bool {
        match subject.declared_type {
            Some(x) => all_answer(self.children(), hir, x, before, r, after),
            _ => !r && after == before,
        }
    }

    fn satisfies(&self, hir: &HirMap, subject: &VariableDeclaration, bindings: &mut Bindings) -> (r: bool)
        ensures
            !(subject.declared_type is Some) ==> !r && *final(bindings) == *old(bindings),
            subject.declared_type is Some && self.children().len() == 0 ==> r && *final(bindings) == *old(bindings),
    {
        match &subject.declared_type {
            Some(x) => self.predicates.satisfies(hir, x, bindings),
            _ => false,
        }
    }
}

} // verus!
