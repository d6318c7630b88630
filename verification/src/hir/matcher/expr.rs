//! Matchers on expressions and `switch` expressions.
use vstd::prelude::*;

use crate::hir::matcher::{all_answer, Bindings, Predicate, PredicateBox};
use crate::hir::node::{
    Assignment, Cast, Construct, DerefExpr, Expression, ExpressionKind, If, InstanceCall, IntrinsicCall, Is, Literal,
    Member, Node, RefExpr, Scope, StaticCall, Switch, SwitchCase, Variable, Variant,
};
use crate::map::HirMap;

verus! {

/// Matches expressions.
pub struct ExpressionMatcher {
    predicates: Vec<PredicateBox<Expression>>,
}

impl ExpressionMatcher {
    /// The predicates which the expression must satisfy.
    pub closed spec fn children(&self) -> Seq<PredicateBox<Expression>> {
        self.predicates@
    }
}

/// Matches expressions which satisfy all of `predicates`.
pub fn expression(predicates: Vec<PredicateBox<Expression>>) -> (r: ExpressionMatcher)
    ensures
        r.children() == predicates@,
{
    ExpressionMatcher { predicates }
}

impl Predicate<Node> for ExpressionMatcher {
    /// The predicates' answer on the part which the subject has; a
    /// subject without it is not matched and binds nothing.
    open spec fn answers(&self, hir: HirMap, subject: Node, before: Bindings, r: bool, after: Bindings) -> bool {
        match subject {
            Node::Expression(x) => all_answer(self.children(), hir, x, before, r, after),
            _ => !r && after == before,
        }
    }

    fn satisfies(&self, hir: &HirMap, subject: &Node, bindings: &mut Bindings) -> (r: bool)
        ensures
            !(subject is Expression) ==> !r && *final(bindings) == *old(bindings),
            subject is Expression && self.children().len() == 0 ==> r && *final(bindings) == *old(bindings),
    {
        match subject {
            Node::Expression(x) => self.predicates.satisfies(hir, x, bindings),
            _ => false,
        }
    }
}

/// Matches assignment expressions.
pub struct AssignmentMatcher {
    predicates: Vec<PredicateBox<Assignment>>,
}

impl AssignmentMatcher {
    /// The predicates which the expression must satisfy.
    pub closed spec fn children(&self) -> Seq<PredicateBox<Assignment>> {
        self.predicates@
    }
}

/// Matches assignment expressions which satisfy all of `predicates`.
pub fn assignment(predicates: Vec<PredicateBox<Assignment>>) -> (r: AssignmentMatcher)
    ensures
        r.children() == predicates@,
{
    AssignmentMatcher { predicates }
}

impl Predicate<Expression> for AssignmentMatcher {
    /// The predicates' answer on the part which the subject has; a
    /// subject without it is not matched and binds nothing.
    open spec fn answers(&self, hir: HirMap, subject: Expression, before: Bindings, r: bool, after: Bindings) -> bool {
        match subject.kind {
            ExpressionKind::Assignment(x) => all_answer(self.children(), hir, x, before, r, after),
            _ => !r && after == before,
        }
    }

    fn satisfies(&self, hir: &HirMap, subject: &Expression, bindings: &mut Bindings) -> (r: bool)
        ensures
            !(subject.kind is Assignment) ==> !r && *final(bindings) == *old(bindings),
            subject.kind is Assignment && self.children().len() == 0 ==> r && *final(bindings) == *old(bindings),
    {
        match &subject.kind {
            ExpressionKind::Assignment(x) => self.predicates.satisfies(hir, x, bindings),
            _ => false,
        }
    }
}

/// Matches cast expressions (`as`).
pub struct CastMatcher {
    predicates: Vec<PredicateBox<Cast>>,
}

impl CastMatcher {
    /// The predicates which the expression must satisfy.
    pub closed spec fn children(&self) -> Seq<PredicateBox<Cast>> {
        self.predicates@
    }
}

/// Matches cast expressions (`as`) which satisfy all of `predicates`.
pub fn cast(predicates: Vec<PredicateBox<Cast>>) -> (r: CastMatcher)
    ensures
        r.children() == predicates@,
{
    CastMatcher { predicates }
}

impl Predicate<Expression> for CastMatcher {
    /// The predicates' answer on the part which the subject has; a
    /// subject without it is not matched and binds nothing.
    open spec fn answers(&self, hir: HirMap, subject: Expression, before: Bindings, r: bool, after: Bindings) -> bool {
        match subject.kind {
            ExpressionKind::Cast(x) => all_answer(self.children(), hir, x, before, r, after),
            _ => !r && after == before,
        }
    }

    fn satisfies(&self, hir: &HirMap, subject: &Expression, bindings: &mut Bindings) -> (r: bool)
        ensures
            !(subject.kind is Cast) ==> !r && *final(bindings) == *old(bindings),
            subject.kind is Cast && self.children().len() == 0 ==> r && *final(bindings) == *old(bindings),
    {
        match &subject.kind {
            ExpressionKind::Cast(x) => self.predicates.satisfies(hir, x, bindings),
            _ => false,
        }
    }
}

/// Matches construct expressions.
pub struct ConstructMatcher {
    predicates: Vec<PredicateBox<Construct>>,
}

impl ConstructMatcher {
    /// The predicates which the expression must satisfy.
    pub closed spec fn children(&self) -> Seq<PredicateBox<Construct>> {
        self.predicates@
    }
}

/// Matches construct expressions which satisfy all of `predicates`.
pub fn construct(predicates: Vec<PredicateBox<Construct>>) -> (r: ConstructMatcher)
    ensures
        r.children() == predicates@,
{
    ConstructMatcher { predicates }
}

impl Predicate<Expression> for ConstructMatcher {
    /// The predicates' answer on the part which the subject has; a
    /// subject without it is not matched and binds nothing.
    open spec fn answers(&self, hir: HirMap, subject: Expression, before: Bindings, r: bool, after: Bindings) -> bool {
        match subject.kind {
            ExpressionKind::Construct(x) => all_answer(self.children(), hir, x, before, r, after),
            _ => !r && after == before,
        }
    }

    fn satisfies(&self, hir: &HirMap, subject: &Expression, bindings: &mut Bindings) -> (r: bool)
        ensures
            !(subject.kind is Construct) ==> !r && *final(bindings) == *old(bindings),
            subject.kind is Construct && self.children().len() == 0 ==> r && *final(bindings) == *old(bindings),
    {
        match &subject.kind {
            ExpressionKind::Construct(x) => self.predicates.satisfies(hir, x, bindings),
            _ => false,
        }
    }
}

/// Matches dereference expressions (`*`).
pub struct DerefMatcher {
    predicates: Vec<PredicateBox<DerefExpr>>,
}

impl DerefMatcher {
    /// The predicates which the expression must satisfy.
    pub closed spec fn children(&self) -> Seq<PredicateBox<DerefExpr>> {
        self.predicates@
    }
}

/// Matches dereference expressions (`*`) which satisfy all of `predicates`.
pub fn deref_expr(predicates: Vec<PredicateBox<DerefExpr>>) -> (r: DerefMatcher)
    ensures
        r.children() == predicates@,
{
    DerefMatcher { predicates }
}

impl Predicate<Expression> for DerefMatcher {
    /// The predicates' answer on the part which the subject has; a
    /// subject without it is not matched and binds nothing.
    open spec fn answers(&self, hir: HirMap, subject: Expression, before: Bindings, r: bool, after: Bindings) -> bool {
        match subject.kind {
            ExpressionKind::Deref(x) => all_answer(self.children(), hir, x, before, r, after),
            _ => !r && after == before,
        }
    }

    fn satisfies(&self, hir: &HirMap, subject: &Expression, bindings: &mut Bindings) -> (r: bool)
        ensures
            !(subject.kind is Deref) ==> !r && *final(bindings) == *old(bindings),
            subject.kind is Deref && self.children().len() == 0 ==> r && *final(bindings) == *old(bindings),
    {
        match &subject.kind {
            ExpressionKind::Deref(x) => self.predicates.satisfies(hir, x, bindings),
            _ => false,
        }
    }
}

/// Matches reference expressions (`&`).
pub struct RefMatcher {
    predicates: Vec<PredicateBox<RefExpr>>,
}

impl RefMatcher {
    /// The predicates which the expression must satisfy.
    pub closed spec fn children(&self) -> Seq<PredicateBox<RefExpr>> {
        self.predicates@
    }
}

/// Matches reference expressions (`&`) which satisfy all of `predicates`.
pub fn ref_expr(predicates: Vec<PredicateBox<RefExpr>>) -> (r: RefMatcher)
    ensures
        r.children() == predicates@,
{
    RefMatcher { predicates }
}

impl Predicate<Expression> for RefMatcher {
    /// The predicates' answer on the part which the subject has; a
    /// subject without it is not matched and binds nothing.
    open spec fn answers(&self, hir: HirMap, subject: Expression, before: Bindings, r: bool, after: Bindings) -> bool {
        match subject.kind {
            ExpressionKind::Ref(x) => all_answer(self.children(), hir, x, before, r, after),
            _ => !r && after == before,
        }
    }

    fn satisfies(&self, hir: &HirMap, subject: &Expression, bindings: &mut Bindings) -> (r: bool)
        ensures
            !(subject.kind is Ref) ==> !r && *final(bindings) == *old(bindings),
            subject.kind is Ref && self.children().len() == 0 ==> r && *final(bindings) == *old(bindings),
    {
        match &subject.kind {
            ExpressionKind::Ref(x) => self.predicates.satisfies(hir, x, bindings),
            _ => false,
        }
    }
}

/// Matches intrinsic call expressions.
pub struct IntrinsicCallMatcher {
    predicates: Vec<PredicateBox<IntrinsicCall>>,
}

impl IntrinsicCallMatcher {
    /// The predicates which the expression must satisfy.
    pub closed spec fn children(&self) -> Seq<PredicateBox<IntrinsicCall>> {
        self.predicates@
    }
}

/// Matches intrinsic call expressions which satisfy all of `predicates`.
pub fn intrinsic_call(predicates: Vec<PredicateBox<IntrinsicCall>>) -> (r: IntrinsicCallMatcher)
    ensures
        r.children() == predicates@,
{
    IntrinsicCallMatcher { predicates }
}

impl Predicate<Expression> for IntrinsicCallMatcher {
    /// The predicates' answer on the part which the subject has; a
    /// subject without it is not matched and binds nothing.
    open spec fn answers(&self, hir: HirMap, subject: Expression, before: Bindings, r: bool, after: Bindings) -> bool {
        match subject.kind {
            ExpressionKind::IntrinsicCall(x) => all_answer(self.children(), hir, x, before, r, after),
            _ => !r && after == before,
        }
    }

    fn satisfies(&self, hir: &HirMap, subject: &Expression, bindings: &mut Bindings) -> (r: bool)
        ensures
            !(subject.kind is IntrinsicCall) ==> !r && *final(bindings) == *old(bindings),
            subject.kind is IntrinsicCall && self.children().len() == 0 ==> r && *final(bindings) == *old(bindings),
    {
        match &subject.kind {
            ExpressionKind::IntrinsicCall(x) => self.predicates.satisfies(hir, x, bindings),
            _ => false,
        }
    }
}

/// Matches instance call expressions.
pub struct InstanceCallMatcher {
    predicates: Vec<PredicateBox<InstanceCall>>,
}

impl InstanceCallMatcher {
    /// The predicates which the expression must satisfy.
    pub closed spec fn children(&self) -> Seq<PredicateBox<InstanceCall>> {
        self.predicates@
    }
}

/// Matches instance call expressions which satisfy all of `predicates`.
pub fn instance_call(predicates: Vec<PredicateBox<InstanceCall>>) -> (r: InstanceCallMatcher)
    ensures
        r.children() == predicates@,
{
    InstanceCallMatcher { predicates }
}

impl Predicate<Expression> for InstanceCallMatcher {
    /// The predicates' answer on the part which the subject has; a
    /// subject without it is not matched and binds nothing.
    open spec fn answers(&self, hir: HirMap, subject: Expression, before: Bindings, r: bool, after: Bindings) -> bool {
        match subject.kind {
            ExpressionKind::InstanceCall(x) => all_answer(self.children(), hir, x, before, r, after),
            _ => !r && after == before,
        }
    }

    fn satisfies(&self, hir: &HirMap, subject: &Expression, bindings: &mut Bindings) -> (r: bool)
        ensures
            !(subject.kind is InstanceCall) ==> !r && *final(bindings) == *old(bindings),
            subject.kind is InstanceCall && self.children().len() == 0 ==> r && *final(bindings) == *old(bindings),
    {
        match &subject.kind {
            ExpressionKind::InstanceCall(x) => self.predicates.satisfies(hir, x, bindings),
            _ => false,
        }
    }
}

/// Matches static call expressions.
pub struct StaticCallMatcher {
    predicates: Vec<PredicateBox<StaticCall>>,
}

impl StaticCallMatcher {
    /// The predicates which the expression must satisfy.
    pub closed spec fn children(&self) -> Seq<PredicateBox<StaticCall>> {
        self.predicates@
    }
}

/// Matches static call expressions which satisfy all of `predicates`.
pub fn static_call(predicates: Vec<PredicateBox<StaticCall>>) -> (r: StaticCallMatcher)
    ensures
        r.children() == predicates@,
{
    StaticCallMatcher { predicates }
}

impl Predicate<Expression> for StaticCallMatcher {
    /// The predicates' answer on the part which the subject has; a
    /// subject without it is not matched and binds nothing.
    open spec fn answers(&self, hir: HirMap, subject: Expression, before: Bindings, r: bool, after: Bindings) -> bool {
        match subject.kind {
            ExpressionKind::StaticCall(x) => all_answer(self.children(), hir, x, before, r, after),
            _ => !r && after == before,
        }
    }

    fn satisfies(&self, hir: &HirMap, subject: &Expression, bindings: &mut Bindings) -> (r: bool)
        ensures
            !(subject.kind is StaticCall) ==> !r && *final(bindings) == *old(bindings),
            subject.kind is StaticCall && self.children().len() == 0 ==> r && *final(bindings) == *old(bindings),
    {
        match &subject.kind {
            ExpressionKind::StaticCall(x) => self.predicates.satisfies(hir, x, bindings),
            _ => false,
        }
    }
}

/// Matches `if` expressions.
pub struct IfMatcher {
    predicates: Vec<PredicateBox<If>>,
}

impl IfMatcher {
    /// The predicates which the expression must satisfy.
    pub closed spec fn children(&self) -> Seq<PredicateBox<If>> {
        self.predicates@
    }
}

/// Matches `if` expressions which satisfy all of `predicates`.
pub fn if_expr(predicates: Vec<PredicateBox<If>>) -> (r: IfMatcher)
    ensures
        r.children() == predicates@,
{
    IfMatcher { predicates }
}

impl Predicate<Expression> for IfMatcher {
    /// The predicates' answer on the part which the subject has; a
    /// subject without it is not matched and binds nothing.
    open spec fn answers(&self, hir: HirMap, subject: Expression, before: Bindings, r: bool, after: Bindings) -> bool {
        match subject.kind {
            ExpressionKind::If(x) => all_answer(self.children(), hir, x, before, r, after),
            _ => !r && after == before,
        }
    }

    fn satisfies(&self, hir: &HirMap, subject: &Expression, bindings: &mut Bindings) -> (r: bool)
        ensures
            !(subject.kind is If) ==> !r && *final(bindings) == *old(bindings),
            subject.kind is If && self.children().len() == 0 ==> r && *final(bindings) == *old(bindings),
    {
        match &subject.kind {
            ExpressionKind::If(x) => self.predicates.satisfies(hir, x, bindings),
            _ => false,
        }
    }
}

/// Matches `is` expressions.
pub struct IsMatcher {
    predicates: Vec<PredicateBox<Is>>,
}

impl IsMatcher {
    /// The predicates which the expression must satisfy.
    pub closed spec fn children(&self) -> Seq<PredicateBox<Is>> {
        self.predicates@
    }
}

/// Matches `is` expressions which satisfy all of `predicates`.
pub fn is(predicates: Vec<PredicateBox<Is>>) -> (r: IsMatcher)
    ensures
        r.children() == predicates@,
{
    IsMatcher { predicates }
}

impl Predicate<Expression> for IsMatcher {
    /// The predicates' answer on the part which the subject has; a
    /// subject without it is not matched and binds nothing.
    open spec fn answers(&self, hir: HirMap, subject: Expression, before: Bindings, r: bool, after: Bindings) -> bool {
        match subject.kind {
            ExpressionKind::Is(x) => all_answer(self.children(), hir, x, before, r, after),
            _ => !r && after == before,
        }
    }

    fn satisfies(&self, hir: &HirMap, subject: &Expression, bindings: &mut Bindings) -> (r: bool)
        ensures
            !(subject.kind is Is) ==> !r && *final(bindings) == *old(bindings),
            subject.kind is Is && self.children().len() == 0 ==> r && *final(bindings) == *old(bindings),
    {
        match &subject.kind {
            ExpressionKind::Is(x) => self.predicates.satisfies(hir, x, bindings),
            _ => false,
        }
    }
}

/// Matches literal expressions.
pub struct LiteralMatcher {
    predicates: Vec<PredicateBox<Literal>>,
}

impl LiteralMatcher {
    /// The predicates which the expression must satisfy.
    pub closed spec fn children(&self) -> Seq<PredicateBox<Literal>> {
        self.predicates@
    }
}

/// Matches literal expressions which satisfy all of `predicates`.
pub fn literal(predicates: Vec<PredicateBox<Literal>>) -> (r: LiteralMatcher)
    ensures
        r.children() == predicates@,
{
    LiteralMatcher { predicates }
}

impl Predicate<Expression> for LiteralMatcher {
    /// The predicates' answer on the part which the subject has; a
    /// subject without it is not matched and binds nothing.
    open spec fn answers(&self, hir: HirMap, subject: Expression, before: Bindings, r: bool, after: Bindings) -> bool {
        match subject.kind {
            ExpressionKind::Literal(x) => all_answer(self.children(), hir, x, before, r, after),
            _ => !r && after == before,
        }
    }

    fn satisfies(&self, hir: &HirMap, subject: &Expression, bindings: &mut Bindings) -> (r: bool)
        ensures
            !(subject.kind is Literal) ==> !r && *final(bindings) == *old(bindings),
            subject.kind is Literal && self.children().len() == 0 ==> r && *final(bindings) == *old(bindings),
    {
        match &subject.kind {
            ExpressionKind::Literal(x) => self.predicates.satisfies(hir, x, bindings),
            _ => false,
        }
    }
}

/// Matches member expressions.
pub struct MemberMatcher {
    predicates: Vec<PredicateBox<Member>>,
}

impl MemberMatcher {
    /// The predicates which the expression must satisfy.
    pub closed spec fn children(&self) -> Seq<PredicateBox<Member>> {
        self.predicates@
    }
}

/// Matches member expressions which satisfy all of `predicates`.
pub fn member(predicates: Vec<PredicateBox<Member>>) -> (r: MemberMatcher)
    ensures
        r.children() == predicates@,
{
    MemberMatcher { predicates }
}

impl Predicate<Expression> for MemberMatcher {
    /// The predicates' answer on the part which the subject has; a
    /// subject without it is not matched and binds nothing.
    open spec fn answers(&self, hir: HirMap, subject: Expression, before: Bindings, r: bool, after: Bindings) -> bool {
        match subject.kind {
            ExpressionKind::Member(x) => all_answer(self.children(), hir, x, before, r, after),
            _ => !r && after == before,
        }
    }

    fn satisfies(&self, hir: &HirMap, subject: &Expression, bindings: &mut Bindings) -> (r: bool)
        ensures
            !(subject.kind is Member) ==> !r && *final(bindings) == *old(bindings),
            subject.kind is Member && self.children().len() == 0 ==> r && *final(bindings) == *old(bindings),
    {
        match &subject.kind {
            ExpressionKind::Member(x) => self.predicates.satisfies(hir, x, bindings),
            _ => false,
        }
    }
}

/// Matches scope expressions.
pub struct ScopeMatcher {
    predicates: Vec<PredicateBox<Scope>>,
}

impl ScopeMatcher {
    /// The predicates which the expression must satisfy.
    pub closed spec fn children(&self) -> Seq<PredicateBox<Scope>> {
        self.predicates@
    }
}

/// Matches scope expressions which satisfy all of `predicates`.
pub fn scope(predicates: Vec<PredicateBox<Scope>>) -> (r: ScopeMatcher)
    ensures
        r.children() == predicates@,
{
    ScopeMatcher { predicates }
}

impl Predicate<Expression> for ScopeMatcher {
    /// The predicates' answer on the part which the subject has; a
    /// subject without it is not matched and binds nothing.
    open spec fn answers(&self, hir: HirMap, subject: Expression, before: Bindings, r: bool, after: Bindings) -> bool {
        match subject.kind {
            ExpressionKind::Scope(x) => all_answer(self.children(), hir, x, before, r, after),
            _ => !r && after == before,
        }
    }

    fn satisfies(&self, hir: &HirMap, subject: &Expression, bindings: &mut Bindings) -> (r: bool)
        ensures
            !(subject.kind is Scope) ==> !r && *final(bindings) == *old(bindings),
            subject.kind is Scope && self.children().len() == 0 ==> r && *final(bindings) == *old(bindings),
    {
        match &subject.kind {
            ExpressionKind::Scope(x) => self.predicates.satisfies(hir, x, bindings),
            _ => false,
        }
    }
}

/// Matches variable references.
pub struct VarReferenceMatcher {
    predicates: Vec<PredicateBox<Variable>>,
}

impl VarReferenceMatcher {
    /// The predicates which the expression must satisfy.
    pub closed spec fn children(&self) -> Seq<PredicateBox<Variable>> {
        self.predicates@
    }
}

/// Matches variable references which satisfy all of `predicates`.
pub fn var_reference(predicates: Vec<PredicateBox<Variable>>) -> (r: VarReferenceMatcher)
    ensures
        r.children() == predicates@,
{
    VarReferenceMatcher { predicates }
}

impl Predicate<Expression> for VarReferenceMatcher {
    /// The predicates' answer on the part which the subject has; a
    /// subject without it is not matched and binds nothing.
    open spec fn answers(&self, hir: HirMap, subject: Expression, before: Bindings, r: bool, after: Bindings) -> bool {
        match subject.kind {
            ExpressionKind::Variable(x) => all_answer(self.children(), hir, x, before, r, after),
            _ => !r && after == before,
        }
    }

    fn satisfies(&self, hir: &HirMap, subject: &Expression, bindings: &mut Bindings) -> (r: bool)
        ensures
            !(subject.kind is Variable) ==> !r && *final(bindings) == *old(bindings),
            subject.kind is Variable && self.children().len() == 0 ==> r && *final(bindings) == *old(bindings),
    {
        match &subject.kind {
            ExpressionKind::Variable(x) => self.predicates.satisfies(hir, x, bindings),
            _ => false,
        }
    }
}

/// Matches variant expressions.
pub struct VariantMatcher {
    predicates: Vec<PredicateBox<Variant>>,
}

impl VariantMatcher {
    /// The predicates which the expression must satisfy.
    pub closed spec fn children(&self) -> Seq<PredicateBox<Variant>> {
        self.predicates@
    }
}

/// Matches variant expressions which satisfy all of `predicates`.
pub fn variant(predicates: Vec<PredicateBox<Variant>>) -> (r: VariantMatcher)
    ensures
        r.children() == predicates@,
{
    VariantMatcher { predicates }
}

impl Predicate<Expression> for VariantMatcher {
    /// The predicates' answer on the part which the subject has; a
    /// subject without it is not matched and binds nothing.
    open spec fn answers(&self, hir: HirMap, subject: Expression, before: Bindings, r: bool, after: Bindings) -> bool {
        match subject.kind {
            ExpressionKind::Variant(x) => all_answer(self.children(), hir, x, before, r, after),
            _ => !r && after == before,
        }
    }

    fn satisfies(&self, hir: &HirMap, subject: &Expression, bindings: &mut Bindings) -> (r: bool)
        ensures
            !(subject.kind is Variant) ==> !r && *final(bindings) == *old(bindings),
            subject.kind is Variant && self.children().len() == 0 ==> r && *final(bindings) == *old(bindings),
    {
        match &subject.kind {
            ExpressionKind::Variant(x) => self.predicates.satisfies(hir, x, bindings),
            _ => false,
        }
    }
}

/// Matches `switch` expressions.
pub struct SwitchMatcher {
    predicates: Vec<PredicateBox<Switch>>,
}

impl SwitchMatcher {
    /// The predicates which the expression must satisfy.
    pub closed spec fn children(&self) -> Seq<PredicateBox<Switch>> {
        self.predicates@
    }
}

/// Matches `switch` expressions which satisfy all of `predicates`.
pub fn switch(predicates: Vec<PredicateBox<Switch>>) -> (r: SwitchMatcher)
    ensures
        r.children() == predicates@,
{
    SwitchMatcher { predicates }
}

impl Predicate<Expression> for SwitchMatcher {
    /// The predicates' answer on the part which the subject has; a
    /// subject without it is not matched and binds nothing.
    open spec fn answers(&self, hir: HirMap, subject: Expression, before: Bindings, r: bool, after: Bindings) -> bool {
        match subject.kind {
            ExpressionKind::Switch(x) => all_answer(self.children(), hir, x, before, r, after),
            _ => !r && after == before,
        }
    }

    fn satisfies(&self, hir: &HirMap, subject: &Expression, bindings: &mut Bindings) -> (r: bool)
        ensures
            !(subject.kind is Switch) ==> !r && *final(bindings) == *old(bindings),
            subject.kind is Switch && self.children().len() == 0 ==> r && *final(bindings) == *old(bindings),
    {
        match &subject.kind {
            ExpressionKind::Switch(x) => self.predicates.satisfies(hir, x, bindings),
            _ => false,
        }
    }
}

/// Matches the operand of `switch` expressions.
pub struct OperandMatcher {
    predicates: Vec<PredicateBox<Expression>>,
}

impl OperandMatcher {
    /// The predicates which the operand must satisfy.
    pub closed spec fn children(&self) -> Seq<PredicateBox<Expression>> {
        self.predicates@
    }
}

/// Matches `switch` expressions whose operand satisfies all of
/// `predicates`.
pub fn has_operand(predicates: Vec<PredicateBox<Expression>>) -> (r: OperandMatcher)
    ensures
        r.children() == predicates@,
{
    OperandMatcher { predicates }
}

impl Predicate<Switch> for OperandMatcher {
    /// The predicates' answer on the part which the subject has; a
    /// subject without it is not matched and binds nothing.
    open spec fn answers(&self, hir: HirMap, subject: Switch, before: Bindings, r: bool, after: Bindings) -> bool {
        match hir.spec_expression(subject.operand) {
            Some(e) => all_answer(self.children(), hir, e, before, r, after),
            _ => !r && after == before,
        }
    }

    /// An operand which the map does not hold as an expression is not
    /// matched.
    fn satisfies(&self, hir: &HirMap, subject: &Switch, bindings: &mut Bindings) -> (r: bool)
        ensures
            hir.spec_expression(subject.operand) is None ==> !r && *final(bindings) == *old(bindings),
            hir.spec_expression(subject.operand) is Some && self.children().len() == 0 ==> r
                && *final(bindings) == *old(bindings),
    {
        match hir.expression(subject.operand) {
            Some(e) => self.predicates.satisfies(hir, e, bindings),
            None => false,
        }
    }
}

/// Matches the cases of `switch` expressions.
pub struct CaseMatcher {
    predicates: Vec<PredicateBox<SwitchCase>>,
}

impl CaseMatcher {
    /// The predicates which a case must satisfy.
    pub closed spec fn children(&self) -> Seq<PredicateBox<SwitchCase>> {
        self.predicates@
    }
}

/// Matches `switch` expressions with a case which satisfies all of
/// `predicates`; the cases are tried in order until one does.
pub fn has_case(predicates: Vec<PredicateBox<SwitchCase>>) -> (r: CaseMatcher)
    ensures
        r.children() == predicates@,
{
    CaseMatcher { predicates }
}

impl Predicate<Switch> for CaseMatcher {
    /// The cases are tried in order, each with what the earlier ones
    /// bound, until one satisfies the predicates.
    open spec fn answers(&self, hir: HirMap, subject: Switch, before: Bindings, r: bool, after: Bindings) -> bool {
        some_case_answers(self.children(), hir, subject.cases@, before, r, after)
    }

    fn satisfies(&self, hir: &HirMap, subject: &Switch, bindings: &mut Bindings) -> (r: bool)
        ensures
            subject.cases@.len() == 0 ==> !r && *final(bindings) == *old(bindings),
            subject.cases@.len() > 0 && self.children().len() == 0 ==> r && *final(bindings) == *old(bindings),
    {
        let ghost cs = subject.cases@;
        let ghost start = *bindings;
        let mut i: usize = 0;
        proof {
            assert(cs.skip(0) =~= cs);
        }
        while i < subject.cases.len()
            invariant
                i <= subject.cases@.len(),
                cs == subject.cases@,
                start == *old(bindings),
                i == 0 ==> *bindings == *old(bindings),
                self.children().len() == 0 ==> *bindings == *old(bindings),
                self.children().len() == 0 && subject.cases@.len() > 0 ==> i == 0,
                forall|r: bool, a: Bindings|
                    #[trigger] some_case_answers(self.children(), *hir, cs.skip(i as int), *bindings, r, a)
                        ==> some_case_answers(self.children(), *hir, cs, start, r, a),
            decreases subject.cases@.len() - i,
        {
            let ghost cur = *bindings;
            let ghost rest = cs.skip(i as int);
            let ok = self.predicates.satisfies(hir, &subject.cases[i], bindings);
            proof {
                assert(rest[0] == cs[i as int]);
                assert(rest.drop_first() =~= cs.skip(i + 1));
                assert(all_answer(self.children(), *hir, rest[0], cur, ok, *bindings));
                if ok {
                    assert(some_case_answers(self.children(), *hir, rest, cur, true, *bindings));
                } else {
                    let next = *bindings;
                    assert forall|r: bool, a: Bindings|
                        #[trigger] some_case_answers(self.children(), *hir, cs.skip(i + 1), next, r, a)
                            implies some_case_answers(self.children(), *hir, cs, start, r, a) by {
                        assert(some_case_answers(self.children(), *hir, rest, cur, r, a));
                    }
                }
            }
            if ok {
                return true;
            }
            i = i + 1;
        }
        proof {
            assert(cs.skip(i as int).len() == 0);
            assert(some_case_answers(self.children(), *hir, cs.skip(i as int), *bindings, false, *bindings));
        }
        false
    }
}

/// Whether trying the cases `cases` in order, each with what the earlier
/// ones bound, until one satisfies the predicates `ps`, may answer `r` and
/// turn the bindings `before` into `after`; without cases, nothing matches.
pub open spec fn some_case_answers(
    ps: Seq<PredicateBox<SwitchCase>>,
    hir: HirMap,
    cases: Seq<SwitchCase>,
    before: Bindings,
    r: bool,
    after: Bindings,
) -> bool
    decreases cases.len(),
{
    if cases.len() == 0 {
        !r && after == before
    } else {
        exists|r0: bool, mid: Bindings|
            #[trigger] all_answer(ps, hir, cases[0], before, r0, mid) && if r0 {
                r && after == mid
            } else {
                some_case_answers(ps, hir, cases.drop_first(), mid, r, after)
            }
    }
}

/// Matches the branch of `switch` cases.
pub struct BranchMatcher {
    predicates: Vec<PredicateBox<Expression>>,
}

impl BranchMatcher {
    /// The predicates which the branch must satisfy.
    pub closed spec fn children(&self) -> Seq<PredicateBox<Expression>> {
        self.predicates@
    }
}

/// Matches `switch` cases whose branch satisfies all of `predicates`.
pub fn has_branch(predicates: Vec<PredicateBox<Expression>>) -> (r: BranchMatcher)
    ensures
        r.children() == predicates@,
{
    BranchMatcher { predicates }
}

impl Predicate<SwitchCase> for BranchMatcher {
    /// The predicates' answer on the part which the subject has; a
    /// subject without it is not matched and binds nothing.
    open spec fn answers(&self, hir: HirMap, subject: SwitchCase, before: Bindings, r: bool, after: Bindings) -> bool {
        match hir.spec_expression(subject.branch) {
            Some(e) => all_answer(self.children(), hir, e, before, r, after),
            _ => !r && after == before,
        }
    }

    /// A branch which the map does not hold as an expression is not
    /// matched.
    fn satisfies(&self, hir: &HirMap, subject: &SwitchCase, bindings: &mut Bindings) -> (r: bool)
        ensures
            hir.spec_expression(subject.branch) is None ==> !r && *final(bindings) == *old(bindings),
            hir.spec_expression(subject.branch) is Some && self.children().len() == 0 ==> r
                && *final(bindings) == *old(bindings),
    {
        match hir.expression(subject.branch) {
            Some(e) => self.predicates.satisfies(hir, e, bindings),
            None => false,
        }
    }
}

} // verus!
