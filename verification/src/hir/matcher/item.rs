//! Matchers on items: anything, optional parts, names, documentation,
//! visibility, bodies, custom filters, functions and methods.
use std::marker::PhantomData;
use vstd::prelude::*;

use crate::hir::matcher::{all_answer, Bindings, HasBody, HasDocumentation, HasName, HasVisibility, Predicate, PredicateBox};
use crate::hir::node::{Block, FunctionDefinition, MethodDefinition, Node, Visibility};
use crate::hir::path::str_eq;
use crate::map::HirMap;

verus! {

/// Matches every subject.
pub struct AnyMatcher<P> {
    marker: PhantomData<P>,
}

/// Matches anything, whatever it holds; useful to bind a part without
/// asking anything of it.
pub fn any<P>() -> (r: AnyMatcher<P>) {
    AnyMatcher { marker: PhantomData }
}

impl<P> Predicate<P> for AnyMatcher<P> {
    /// Every subject is matched, and nothing is bound.
    open spec fn answers(&self, hir: HirMap, subject: P, before: Bindings, r: bool, after: Bindings) -> bool {
        r && after == before
    }

    fn satisfies(&self, hir: &HirMap, subject: &P, bindings: &mut Bindings) -> (r: bool)
        ensures
            r,
            *final(bindings) == *old(bindings),
    {
        true
    }
}

/// Checks its predicates and matches whatever they answer.
#[verifier::reject_recursive_types(S)]
pub struct Optionally<S> {
    predicates: Vec<PredicateBox<S>>,
}

impl<S> Optionally<S> {
    /// The predicates which are checked.
    pub closed spec fn children(&self) -> Seq<PredicateBox<S>> {
        self.predicates@
    }
}

/// Matches regardless of the given predicates, which are still checked so
/// that they bind what they match.
pub fn optionally<S>(predicates: Vec<PredicateBox<S>>) -> (r: Optionally<S>)
    ensures
        r.children() == predicates@,
{
    Optionally { predicates }
}

impl<S> Predicate<S> for Optionally<S> {
    /// The answer is `true`, with whatever the predicates bound, whatever
    /// they answered.
    open spec fn answers(&self, hir: HirMap, subject: S, before: Bindings, r: bool, after: Bindings) -> bool {
        r && exists|r0: bool| #[trigger] all_answer(self.children(), hir, subject, before, r0, after)
    }

    fn satisfies(&self, hir: &HirMap, subject: &S, bindings: &mut Bindings) -> (r: bool)
        ensures
            r,
            self.children().len() == 0 ==> *final(bindings) == *old(bindings),
    {
        let ghost before = *bindings;
        let inner = self.predicates.satisfies(hir, subject, bindings);
        proof {
            assert(all_answer(self.children(), *hir, *subject, before, inner, *bindings));
        }
        true
    }
}

/// Matches items with a given name.
pub struct NameMatcher<P> {
    name: String,
    marker: PhantomData<P>,
}

impl<P> NameMatcher<P> {
    /// The name which is looked for.
    pub closed spec fn wanted(&self) -> Seq<char> {
        self.name@
    }
}

/// Matches items whose name is `name`.
pub fn has_name<P: HasName>(name: &str) -> (r: NameMatcher<P>)
    ensures
        r.wanted() == name@,
{
    NameMatcher { name: name.to_string(), marker: PhantomData }
}

impl<P: HasName> Predicate<P> for NameMatcher<P> {
    /// Items with the wanted name are matched, and nothing is bound.
    open spec fn answers(&self, hir: HirMap, subject: P, before: Bindings, r: bool, after: Bindings) -> bool {
        r == (subject.spec_name() == self.wanted()) && after == before
    }

    fn satisfies(&self, hir: &HirMap, subject: &P, bindings: &mut Bindings) -> (r: bool)
        ensures
            r == (subject.spec_name() == self.wanted()),
            *final(bindings) == *old(bindings),
    {
        str_eq(subject.name(), self.name.as_str())
    }
}

/// Matches items with a documentation comment.
pub struct DocumentationMatcher<P> {
    predicates: Vec<PredicateBox<String>>,
    marker: PhantomData<P>,
}

impl<P> DocumentationMatcher<P> {
    /// The predicates which the comment must satisfy.
    pub closed spec fn children(&self) -> Seq<PredicateBox<String>> {
        self.predicates@
    }
}

/// Matches items which have a documentation comment satisfying all of
/// `predicates`.
pub fn has_documentation<P: HasDocumentation>(predicates: Vec<PredicateBox<String>>) -> (r: DocumentationMatcher<P>)
    ensures
        r.children() == predicates@,
{
    DocumentationMatcher { predicates, marker: PhantomData }
}

impl<P: HasDocumentation> Predicate<P> for DocumentationMatcher<P> {
    /// The predicates' answer on the part which the subject has; a
    /// subject without it is not matched and binds nothing.
    open spec fn answers(&self, hir: HirMap, subject: P, before: Bindings, r: bool, after: Bindings) -> bool {
        match subject.spec_docs() {
            Some(docs) => all_answer(self.children(), hir, docs, before, r, after),
            _ => !r && after == before,
        }
    }

    fn satisfies(&self, hir: &HirMap, subject: &P, bindings: &mut Bindings) -> (r: bool)
        ensures
            subject.spec_docs() is None ==> !r && *final(bindings) == *old(bindings),
            subject.spec_docs() is Some && self.children().len() == 0 ==> r && *final(bindings) == *old(bindings),
    {
        match subject.docs() {
            Some(docs) => self.predicates.satisfies(hir, docs, bindings),
            None => false,
        }
    }
}

/// Matches items with a given visibility.
pub struct VisibilityMatcher<P> {
    visibility: Visibility,
    marker: PhantomData<P>,
}

impl<P> VisibilityMatcher<P> {
    /// The visibility which is looked for.
    pub closed spec fn wanted(&self) -> Visibility {
        self.visibility
    }
}

/// Matches items whose visibility is `visibility`.
pub fn has_visibility<P: HasVisibility>(visibility: Visibility) -> (r: VisibilityMatcher<P>)
    ensures
        r.wanted() == visibility,
{
    VisibilityMatcher { visibility, marker: PhantomData }
}

impl<P: HasVisibility> Predicate<P> for VisibilityMatcher<P> {
    /// Items with the wanted visibility are matched, and nothing is bound.
    open spec fn answers(&self, hir: HirMap, subject: P, before: Bindings, r: bool, after: Bindings) -> bool {
        r == (subject.spec_visibility() == self.wanted()) && after == before
    }

    fn satisfies(&self, hir: &HirMap, subject: &P, bindings: &mut Bindings) -> (r: bool)
        ensures
            r == (subject.spec_visibility() == self.wanted()),
            *final(bindings) == *old(bindings),
    {
        subject.visibility() == self.visibility
    }
}

/// Matches items with a body.
pub struct BodyMatcher<P> {
    predicates: Vec<PredicateBox<Block>>,
    marker: PhantomData<P>,
}

impl<P> BodyMatcher<P> {
    /// The predicates which the body must satisfy.
    pub closed spec fn children(&self) -> Seq<PredicateBox<Block>> {
        self.predicates@
    }
}

/// Matches items which have a body satisfying all of `predicates`.
pub fn has_body<P: HasBody>(predicates: Vec<PredicateBox<Block>>) -> (r: BodyMatcher<P>)
    ensures
        r.children() == predicates@,
{
    BodyMatcher { predicates, marker: PhantomData }
}

impl<P: HasBody> Predicate<P> for BodyMatcher<P> {
    /// The predicates' answer on the part which the subject has; a
    /// subject without it is not matched and binds nothing.
    open spec fn answers(&self, hir: HirMap, subject: P, before: Bindings, r: bool, after: Bindings) -> bool {
        match subject.spec_body() {
            Some(block) => all_answer(self.children(), hir, block, before, r, after),
            _ => !r && after == before,
        }
    }

    fn satisfies(&self, hir: &HirMap, subject: &P, bindings: &mut Bindings) -> (r: bool)
        ensures
            subject.spec_body() is None ==> !r && *final(bindings) == *old(bindings),
            subject.spec_body() is Some && self.children().len() == 0 ==> r && *final(bindings) == *old(bindings),
    {
        match subject.body() {
            Some(block) => self.predicates.satisfies(hir, block, bindings),
            None => false,
        }
    }
}

/// Matches subjects which pass a filter.
#[verifier::reject_recursive_types(S)]
pub struct FilterMatcher<S, F: Fn(&S) -> bool> {
    predicates: Vec<PredicateBox<S>>,
    keep: F,
}

impl<S, F: Fn(&S) -> bool> FilterMatcher<S, F> {
    /// The filter can be asked of every subject.
    #[verifier::type_invariant]
    closed spec fn callable(self) -> bool {
        forall|s: &S| #[trigger] self.keep.requires((s,))
    }

    /// The predicates which the subject must satisfy besides the filter.
    pub closed spec fn children(&self) -> Seq<PredicateBox<S>> {
        self.predicates@
    }

    /// The filter.
    pub closed spec fn test(&self) -> F {
        self.keep
    }
}

/// Matches subjects for which `keep` answers `true` and which satisfy
/// all of `predicates`.
pub fn filter<S, F: Fn(&S) -> bool>(keep: F, predicates: Vec<PredicateBox<S>>) -> (r: FilterMatcher<S, F>)
    requires
        forall|s: &S| #[trigger] keep.requires((s,)),
    ensures
        r.children() == predicates@,
        r.test() == keep,
{
    FilterMatcher { predicates, keep }
}

impl<S, F: Fn(&S) -> bool> Predicate<S> for FilterMatcher<S, F> {
    /// When the filter keeps the subject, the predicates' answer; when it
    /// does not, no match and nothing bound.
    open spec fn answers(&self, hir: HirMap, subject: S, before: Bindings, r: bool, after: Bindings) -> bool {
        ||| self.test().ensures((&subject,), true) && all_answer(self.children(), hir, subject, before, r, after)
        ||| self.test().ensures((&subject,), false) && !r && after == before
    }

    fn satisfies(&self, hir: &HirMap, subject: &S, bindings: &mut Bindings) -> (r: bool)
        ensures
            r ==> self.test().ensures((subject,), true),
            !r && self.children().len() == 0 ==> self.test().ensures((subject,), false),
            !self.test().ensures((subject,), true) ==> *final(bindings) == *old(bindings),
    {
        proof {
            use_type_invariant(self);
        }
        if (self.keep)(subject) {
            self.predicates.satisfies(hir, subject, bindings)
        } else {
            false
        }
    }
}

/// Matches function definitions.
pub struct FunctionMatcher {
    predicates: Vec<PredicateBox<FunctionDefinition>>,
}

impl FunctionMatcher {
    /// The predicates which the function must satisfy.
    pub closed spec fn children(&self) -> Seq<PredicateBox<FunctionDefinition>> {
        self.predicates@
    }
}

/// Matches function definitions which satisfy all of `predicates`.
pub fn function(predicates: Vec<PredicateBox<FunctionDefinition>>) -> (r: FunctionMatcher)
    ensures
        r.children() == predicates@,
{
    FunctionMatcher { predicates }
}

impl Predicate<Node> for FunctionMatcher {
    /// The predicates' answer on the part which the subject has; a
    /// subject without it is not matched and binds nothing.
    open spec fn answers(&self, hir: HirMap, subject: Node, before: Bindings, r: bool, after: Bindings) -> bool {
        match subject {
            Node::Function(f) => all_answer(self.children(), hir, f, before, r, after),
            _ => !r && after == before,
        }
    }

    fn satisfies(&self, hir: &HirMap, subject: &Node, bindings: &mut Bindings) -> (r: bool)
        ensures
            !(subject is Function) ==> !r && *final(bindings) == *old(bindings),
            subject is Function && self.children().len() == 0 ==> r && *final(bindings) == *old(bindings),
    {
        match subject {
            Node::Function(f) => self.predicates.satisfies(hir, f, bindings),
            _ => false,
        }
    }
}

/// Matches method definitions.
pub struct MethodMatcher {
    predicates: Vec<PredicateBox<MethodDefinition>>,
}

impl MethodMatcher {
    /// The predicates which the method must satisfy.
    pub closed spec fn children(&self) -> Seq<PredicateBox<MethodDefinition>> {
        self.predicates@
    }
}

/// Matches method definitions which satisfy all of `predicates`.
pub fn method(predicates: Vec<PredicateBox<MethodDefinition>>) -> (r: MethodMatcher)
    ensures
        r.children() == predicates@,
{
    MethodMatcher { predicates }
}

impl Predicate<Node> for MethodMatcher {
    /// The predicates' answer on the part which the subject has; a
    /// subject without it is not matched and binds nothing.
    open spec fn answers(&self, hir: HirMap, subject: Node, before: Bindings, r: bool, after: Bindings) -> bool {
        match subject {
            Node::Method(m) => all_answer(self.children(), hir, m, before, r, after),
            _ => !r && after == before,
        }
    }

    fn satisfies(&self, hir: &HirMap, subject: &Node, bindings: &mut Bindings) -> (r: bool)
        ensures
            !(subject is Method) ==> !r && *final(bindings) == *old(bindings),
            subject is Method && self.children().len() == 0 ==> r && *final(bindings) == *old(bindings),
    {
        match subject {
            Node::Method(m) => self.predicates.satisfies(hir, m, bindings),
            _ => false,
        }
    }
}

} // verus!
