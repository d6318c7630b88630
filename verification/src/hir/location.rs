//! The location at which each item of the HIR was written.
use vstd::prelude::*;

use crate::hir::node::{
    Attribute, AttrArgument, Block, FnSignature, FunctionDefinition, Parameter, TypeDefinition, EnumDefinition, EnumDefinitionCase, StructDefinition, Implementation, Field, MethodDefinition, TraitDefinition, TraitMethodDefinition, TraitImplementation, TraitMethodImplementation, Statement, VariableDeclaration, Break, Continue, Final, Return, InfiniteLoop, Expression, Assignment, Cast, Construct, ConstructorField, DerefExpr, RefExpr, StaticCall, InstanceCall, IntrinsicCall, If, Condition, Is, Literal, Member, PatternField, Scope, Switch, SwitchCase, Variable, LiteralPattern, IdentifierPattern, VariantPattern, WildcardPattern, TypeParameter, TypeVariable,
};
use crate::hir::path::{Identifier, Type};
use crate::span::Location;

verus! {

/// Items which carry the location they were written at.
pub trait WithLocation {
    /// Where the item was written.
    spec fn located_at(&self) -> Location;

    /// Where the item was written.
    fn location(&self) -> (r: Location)
        ensures
            r == self.located_at(),
    ;
}

impl WithLocation for TypeDefinition {
    open spec fn located_at(&self) -> Location {
        self.spec_location()
    }

    fn location(&self) -> (r: Location) {
        TypeDefinition::location(self)
    }
}

impl WithLocation for Identifier {
    open spec fn located_at(&self) -> Location {
        self.location
    }

    fn location(&self) -> (r: Location) {
        self.location
    }
}

impl WithLocation for Attribute {
    open spec fn located_at(&self) -> Location {
        self.location
    }

    fn location(&self) -> (r: Location) {
        self.location
    }
}

impl WithLocation for AttrArgument {
    open spec fn located_at(&self) -> Location {
        self.location
    }

    fn location(&self) -> (r: Location) {
        self.location
    }
}

impl WithLocation for Block {
    open spec fn located_at(&self) -> Location {
        self.location
    }

    fn location(&self) -> (r: Location) {
        self.location
    }
}

impl WithLocation for FnSignature {
    open spec fn located_at(&self) -> Location {
        self.location
    }

    fn location(&self) -> (r: Location) {
        self.location
    }
}

impl WithLocation for FunctionDefinition {
    open spec fn located_at(&self) -> Location {
        self.location
    }

    fn location(&self) -> (r: Location) {
        self.location
    }
}

impl WithLocation for Parameter {
    open spec fn located_at(&self) -> Location {
        self.location
    }

    fn location(&self) -> (r: Location) {
        self.location
    }
}

impl WithLocation for EnumDefinition {
    open spec fn located_at(&self) -> Location {
        self.location
    }

    fn location(&self) -> (r: Location) {
        self.location
    }
}

impl WithLocation for EnumDefinitionCase {
    open spec fn located_at(&self) -> Location {
        self.location
    }

    fn location(&self) -> (r: Location) {
        self.location
    }
}

impl WithLocation for StructDefinition {
    open spec fn located_at(&self) -> Location {
        self.location
    }

    fn location(&self) -> (r: Location) {
        self.location
    }
}

impl WithLocation for Implementation {
    open spec fn located_at(&self) -> Location {
        self.location
    }

    fn location(&self) -> (r: Location) {
        self.location
    }
}

impl WithLocation for Field {
    open spec fn located_at(&self) -> Location {
        self.location
    }

    fn location(&self) -> (r: Location) {
        self.location
    }
}

impl WithLocation for MethodDefinition {
    open spec fn located_at(&self) -> Location {
        self.location
    }

    fn location(&self) -> (r: Location) {
        self.location
    }
}

impl WithLocation for TraitDefinition {
    open spec fn located_at(&self) -> Location {
        self.location
    }

    fn location(&self) -> (r: Location) {
        self.location
    }
}

impl WithLocation for TraitMethodDefinition {
    open spec fn located_at(&self) -> Location {
        self.location
    }

    fn location(&self) -> (r: Location) {
        self.location
    }
}

impl WithLocation for TraitImplementation {
    open spec fn located_at(&self) -> Location {
        self.location
    }

    fn location(&self) -> (r: Location) {
        self.location
    }
}

impl WithLocation for TraitMethodImplementation {
    open spec fn located_at(&self) -> Location {
        self.location
    }

    fn location(&self) -> (r: Location) {
        self.location
    }
}

impl WithLocation for Statement {
    open spec fn located_at(&self) -> Location {
        self.location
    }

    fn location(&self) -> (r: Location) {
        self.location
    }
}

impl WithLocation for VariableDeclaration {
    open spec fn located_at(&self) -> Location {
        self.location
    }

    fn location(&self) -> (r: Location) {
        self.location
    }
}

impl WithLocation for Break {
    open spec fn located_at(&self) -> Location {
        self.location
    }

    fn location(&self) -> (r: Location) {
        self.location
    }
}

impl WithLocation for Continue {
    open spec fn located_at(&self) -> Location {
        self.location
    }

    fn location(&self) -> (r: Location) {
        self.location
    }
}

impl WithLocation for Final {
    open spec fn located_at(&self) -> Location {
        self.location
    }

    fn location(&self) -> (r: Location) {
        self.location
    }
}

impl WithLocation for Return {
    open spec fn located_at(&self) -> Location {
        self.location
    }

    fn location(&self) -> (r: Location) {
        self.location
    }
}

impl WithLocation for InfiniteLoop {
    open spec fn located_at(&self) -> Location {
        self.location
    }

    fn location(&self) -> (r: Location) {
        self.location
    }
}

impl WithLocation for Expression {
    open spec fn located_at(&self) -> Location {
        self.location
    }

    fn location(&self) -> (r: Location) {
        self.location
    }
}

impl WithLocation for Assignment {
    open spec fn located_at(&self) -> Location {
        self.location
    }

    fn location(&self) -> (r: Location) {
        self.location
    }
}

impl WithLocation for Cast {
    open spec fn located_at(&self) -> Location {
        self.location
    }

    fn location(&self) -> (r: Location) {
        self.location
    }
}

impl WithLocation for Construct {
    open spec fn located_at(&self) -> Location {
        self.location
    }

    fn location(&self) -> (r: Location) {
        self.location
    }
}

impl WithLocation for ConstructorField {
    open spec fn located_at(&self) -> Location {
        self.location
    }

    fn location(&self) -> (r: Location) {
        self.location
    }
}

impl WithLocation for DerefExpr {
    open spec fn located_at(&self) -> Location {
        self.location
    }

    fn location(&self) -> (r: Location) {
        self.location
    }
}

impl WithLocation for RefExpr {
    open spec fn located_at(&self) -> Location {
        self.location
    }

    fn location(&self) -> (r: Location) {
        self.location
    }
}

impl WithLocation for StaticCall {
    open spec fn located_at(&self) -> Location {
        self.location
    }

    fn location(&self) -> (r: Location) {
        self.location
    }
}

impl WithLocation for InstanceCall {
    open spec fn located_at(&self) -> Location {
        self.location
    }

    fn location(&self) -> (r: Location) {
        self.location
    }
}

impl WithLocation for IntrinsicCall {
    open spec fn located_at(&self) -> Location {
        self.location
    }

    fn location(&self) -> (r: Location) {
        self.location
    }
}

impl WithLocation for If {
    open spec fn located_at(&self) -> Location {
        self.location
    }

    fn location(&self) -> (r: Location) {
        self.location
    }
}

impl WithLocation for Condition {
    open spec fn located_at(&self) -> Location {
        self.location
    }

    fn location(&self) -> (r: Location) {
        self.location
    }
}

impl WithLocation for Is {
    open spec fn located_at(&self) -> Location {
        self.location
    }

    fn location(&self) -> (r: Location) {
        self.location
    }
}

impl WithLocation for Literal {
    open spec fn located_at(&self) -> Location {
        self.location
    }

    fn location(&self) -> (r: Location) {
        self.location
    }
}

impl WithLocation for Member {
    open spec fn located_at(&self) -> Location {
        self.location
    }

    fn location(&self) -> (r: Location) {
        self.location
    }
}

impl WithLocation for PatternField {
    open spec fn located_at(&self) -> Location {
        self.location
    }

    fn location(&self) -> (r: Location) {
        self.location
    }
}

impl WithLocation for Scope {
    open spec fn located_at(&self) -> Location {
        self.location
    }

    fn location(&self) -> (r: Location) {
        self.location
    }
}

impl WithLocation for Switch {
    open spec fn located_at(&self) -> Location {
        self.location
    }

    fn location(&self) -> (r: Location) {
        self.location
    }
}

impl WithLocation for SwitchCase {
    open spec fn located_at(&self) -> Location {
        self.location
    }

    fn location(&self) -> (r: Location) {
        self.location
    }
}

impl WithLocation for Variable {
    open spec fn located_at(&self) -> Location {
        self.location
    }

    fn location(&self) -> (r: Location) {
        self.location
    }
}

impl WithLocation for LiteralPattern {
    open spec fn located_at(&self) -> Location {
        self.location
    }

    fn location(&self) -> (r: Location) {
        self.location
    }
}

impl WithLocation for IdentifierPattern {
    open spec fn located_at(&self) -> Location {
        self.location
    }

    fn location(&self) -> (r: Location) {
        self.location
    }
}

impl WithLocation for VariantPattern {
    open spec fn located_at(&self) -> Location {
        self.location
    }

    fn location(&self) -> (r: Location) {
        self.location
    }
}

impl WithLocation for WildcardPattern {
    open spec fn located_at(&self) -> Location {
        self.location
    }

    fn location(&self) -> (r: Location) {
        self.location
    }
}

impl WithLocation for TypeParameter {
    open spec fn located_at(&self) -> Location {
        self.location
    }

    fn location(&self) -> (r: Location) {
        self.location
    }
}

impl WithLocation for Type {
    open spec fn located_at(&self) -> Location {
        self.location
    }

    fn location(&self) -> (r: Location) {
        self.location
    }
}

impl WithLocation for TypeVariable {
    open spec fn located_at(&self) -> Location {
        self.location
    }

    fn location(&self) -> (r: Location) {
        self.location
    }
}

} // verus!
