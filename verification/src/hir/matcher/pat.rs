//! Matchers on patterns.
use vstd::prelude::*;

use std::marker::PhantomData;

use crate::hir::matcher::{all_answer, Bindings, HasPattern, Predicate, PredicateBox};
use crate::hir::node::{IdentifierPattern, LiteralPattern, Node, Pattern, PatternKind, VariantPattern, WildcardPattern};
use crate::map::HirMap;

verus! {

/// Matches patterns.
pub struct PatternMatcher {
    predicates: Vec<PredicateBox<Pattern>>,
}

impl PatternMatcher {
    /// The predicates which the pattern must satisfy.
    pub closed spec fn children(&self) -> Seq<PredicateBox<Pattern>> {
        self.predicates@
    }
}

/// Matches patterns which satisfy all of `predicates`.
pub fn pattern(predicates: Vec<PredicateBox<Pattern>>) -> (r: PatternMatcher)
    ensures
        r.children() == predicates@,
{
    PatternMatcher { predicates }
}

impl Predicate<Node> for PatternMatcher {
    /// The predicates' answer on the part which the subject has; a
    /// subject without it is not matched and binds nothing.
    open spec fn answers(&self, hir: HirMap, subject: Node, before: Bindings, r: bool, after: Bindings) -> bool {
        match subject {
            Node::Pattern(x) => all_answer(self.children(), hir, x, before, r, after),
            _ => !r && after == before,
        }
    }

    fn satisfies(&self, hir: &HirMap, subject: &Node, bindings: &mut Bindings) -> (r: bool)
        ensures
            !(subject is Pattern) ==> !r && *final(bindings) == *old(bindings),
            subject is Pattern && self.children().len() == 0 ==> r && *final(bindings) == *old(bindings),
    {
        match subject {
            Node::Pattern(x) => self.predicates.satisfies(hir, x, bindings),
            _ => false,
        }
    }
}

/// Matches literal patterns.
pub struct LiteralPatternMatcher {
    predicates: Vec<PredicateBox<LiteralPattern>>,
}

impl LiteralPatternMatcher {
    /// The predicates which the pattern must satisfy.
    pub closed spec fn children(&self) -> Seq<PredicateBox<LiteralPattern>> {
        self.predicates@
    }
}

/// Matches literal patterns which satisfy all of `predicates`.
pub fn literal_pattern(predicates: Vec<PredicateBox<LiteralPattern>>) -> (r: LiteralPatternMatcher)
    ensures
        r.children() == predicates@,
{
    LiteralPatternMatcher { predicates }
}

impl Predicate<Pattern> for LiteralPatternMatcher {
    /// The predicates' answer on the part which the subject has; a
    /// subject without it is not matched and binds nothing.
    open spec fn answers(&self, hir: HirMap, subject: Pattern, before: Bindings, r: bool, after: Bindings) -> bool {
        match subject.kind {
            PatternKind::Literal(x) => all_answer(self.children(), hir, x, before, r, after),
            _ => !r && after == before,
        }
    }

    fn satisfies(&self, hir: &HirMap, subject: &Pattern, bindings: &mut Bindings) -> (r: bool)
        ensures
            !(subject.kind is Literal) ==> !r && *final(bindings) == *old(bindings),
            subject.kind is Literal && self.children().len() == 0 ==> r && *final(bindings) == *old(bindings),
    {
        match &subject.kind {
            PatternKind::Literal(x) => self.predicates.satisfies(hir, x, bindings),
            _ => false,
        }
    }
}

/// Matches identifier patterns.
pub struct IdentPatternMatcher {
    predicates: Vec<PredicateBox<IdentifierPattern>>,
}

impl IdentPatternMatcher {
    /// The predicates which the pattern must satisfy.
    pub closed spec fn children(&self) -> Seq<PredicateBox<IdentifierPattern>> {
        self.predicates@
    }
}

/// Matches identifier patterns which satisfy all of `predicates`.
pub fn ident_pattern(predicates: Vec<PredicateBox<IdentifierPattern>>) -> (r: IdentPatternMatcher)
    ensures
        r.children() == predicates@,
{
    IdentPatternMatcher { predicates }
}

impl Predicate<Pattern> for IdentPatternMatcher {
    /// The predicates' answer on the part which the subject has; a
    /// subject without it is not matched and binds nothing.
    open spec fn answers(&self, hir: HirMap, subject: Pattern, before: Bindings, r: bool, after: Bindings) -> bool {
        match subject.kind {
            PatternKind::Identifier(x) => all_answer(self.children(), hir, x, before, r, after),
            _ => !r && after == before,
        }
    }

    fn satisfies(&self, hir: &HirMap, subject: &Pattern, bindings: &mut Bindings) -> (r: bool)
        ensures
            !(subject.kind is Identifier) ==> !r && *final(bindings) == *old(bindings),
            subject.kind is Identifier && self.children().len() == 0 ==> r && *final(bindings) == *old(bindings),
    {
        match &subject.kind {
            PatternKind::Identifier(x) => self.predicates.satisfies(hir, x, bindings),
            _ => false,
        }
    }
}

/// Matches variant patterns.
pub struct VariantPatternMatcher {
    predicates: Vec<PredicateBox<VariantPattern>>,
}

impl VariantPatternMatcher {
    /// The predicates which the pattern must satisfy.
    pub closed spec fn children(&self) -> Seq<PredicateBox<VariantPattern>> {
        self.predicates@
    }
}

/// Matches variant patterns which satisfy all of `predicates`.
pub fn variant_pattern(predicates: Vec<PredicateBox<VariantPattern>>) -> (r: VariantPatternMatcher)
    ensures
        r.children() == predicates@,
{
    VariantPatternMatcher { predicates }
}

impl Predicate<Pattern> for VariantPatternMatcher {
    /// The predicates' answer on the part which the subject has; a
    /// subject without it is not matched and binds nothing.
    open spec fn answers(&self, hir: HirMap, subject: Pattern, before: Bindings, r: bool, after: Bindings) -> bool {
        match subject.kind {
            PatternKind::Variant(x) => all_answer(self.children(), hir, x, before, r, after),
            _ => !r && after == before,
        }
    }

    fn satisfies(&self, hir: &HirMap, subject: &Pattern, bindings: &mut Bindings) -> (r: bool)
        ensures
            !(subject.kind is Variant) ==> !r && *final(bindings) == *old(bindings),
            subject.kind is Variant && self.children().len() == 0 ==> r && *final(bindings) == *old(bindings),
    {
        match &subject.kind {
            PatternKind::Variant(x) => self.predicates.satisfies(hir, x, bindings),
            _ => false,
        }
    }
}

/// Matches wildcard patterns.
pub struct WildcardPatternMatcher {
    predicates: Vec<PredicateBox<WildcardPattern>>,
}

impl WildcardPatternMatcher {
    /// The predicates which the pattern must satisfy.
    pub closed spec fn children(&self) -> Seq<PredicateBox<WildcardPattern>> {
        self.predicates@
    }
}

/// Matches wildcard patterns which satisfy all of `predicates`.
pub fn wildcard_pattern(predicates: Vec<PredicateBox<WildcardPattern>>) -> (r: WildcardPatternMatcher)
    ensures
        r.children() == predicates@,
{
    WildcardPatternMatcher { predicates }
}

impl Predicate<Pattern> for WildcardPatternMatcher {
    /// The predicates' answer on the part which the subject has; a
    /// subject without it is not matched and binds nothing.
    open spec fn answers(&self, hir: HirMap, subject: Pattern, before: Bindings, r: bool, after: Bindings) -> bool {
        match subject.kind {
            PatternKind::Wildcard(x) => all_answer(self.children(), hir, x, before, r, after),
            _ => !r && after == before,
        }
    }

    fn satisfies(&self, hir: &HirMap, subject: &Pattern, bindings: &mut Bindings) -> (r: bool)
        ensures
            !(subject.kind is Wildcard) ==> !r && *final(bindings) == *old(bindings),
            subject.kind is Wildcard && self.children().len() == 0 ==> r && *final(bindings) == *old(bindings),
    {
        match &subject.kind {
            PatternKind::Wildcard(x) => self.predicates.satisfies(hir, x, bindings),
            _ => false,
        }
    }
}

/// Matches the pattern which an item refers to.
pub struct HasPatternMatcher<P> {
    predicates: Vec<PredicateBox<Pattern>>,
    marker: PhantomData<P>,
}

impl<P> HasPatternMatcher<P> {
    /// The predicates which the pattern must satisfy.
    pub closed spec fn children(&self) -> Seq<PredicateBox<Pattern>> {
        self.predicates@
    }
}

/// Matches items whose pattern satisfies all of `predicates`.
pub fn has_pattern<P: HasPattern>(predicates: Vec<PredicateBox<Pattern>>) -> (r: HasPatternMatcher<P>)
    ensures
        r.children() == predicates@,
{
    HasPatternMatcher { predicates, marker: PhantomData }
}

impl<P: HasPattern> Predicate<P> for HasPatternMatcher<P> {
    /// The predicates' answer on the part which the subject has; a
    /// subject without it is not matched and binds nothing.
    open spec fn answers(&self, hir: HirMap, subject: P, before: Bindings, r: bool, after: Bindings) -> bool {
        match hir.spec_pattern(subject.spec_pattern()) {
            Some(p) => all_answer(self.children(), hir, p, before, r, after),
            _ => !r && after == before,
        }
    }

    /// A pattern which the map does not hold is not matched.
    fn satisfies(&self, hir: &HirMap, subject: &P, bindings: &mut Bindings) -> (r: bool)
        ensures
            hir.spec_pattern(subject.spec_pattern()) is None ==> !r && *final(bindings) == *old(bindings),
            hir.spec_pattern(subject.spec_pattern()) is Some && self.children().len() == 0 ==> r
                && *final(bindings) == *old(bindings),
    {
        match hir.pattern(subject.pattern()) {
            Some(p) => self.predicates.satisfies(hir, p, bindings),
            None => false,
        }
    }
}

} // verus!
