//! Items, statements, expressions and patterns of the HIR.
use vstd::prelude::*;

use crate::hir::path::{
    clone_type, types_view, Identifier, Path, PathSegment, PathView, SegmentView, Type, TypeId,
    TypeView,
};
use crate::span::{Location, NodeId};

verus! {

/// The name of the implicit receiver parameter of methods.
pub const SELF_PARAM_NAME: &'static str = "self";

/// The name of the implicit receiver type within implementations.
pub const SELF_TYPE_NAME: &'static str = "Self";

/// Any node which can be stored in the HIR map.
#[derive(Debug)]
pub enum Node {
    Function(FunctionDefinition),
    Type(TypeDefinition),
    TraitImpl(TraitImplementation),
    Impl(Implementation),
    Field(Field),
    Parameter(Parameter),
    Method(MethodDefinition),
    TraitMethodDef(TraitMethodDefinition),
    TraitMethodImpl(TraitMethodImplementation),
    Pattern(Pattern),
    Statement(Statement),
    Expression(Expression),
    TypeVariable(TypeVariable),
}

/// The kind of a [`Node`], without its content.
#[derive(Debug, Clone, Copy, PartialEq, Eq, Structural)]
pub enum NodeType {
    Function,
    StructDef,
    EnumDef,
    TraitDef,
    TypeParam,
    TraitImpl,
    Impl,
    Field,
    Parameter,
    Method,
    TraitMethodDef,
    TraitMethodImpl,
    Pattern,
    Statement,
    Expression,
    TypeVariable,
}

/// A literal used as the value of an attribute argument.
#[derive(Debug)]
pub struct AttrArgument {
    pub name: Identifier,
    pub value: Literal,
    pub location: Location,
}

/// An attribute attached to an item.
#[derive(Debug)]
pub struct Attribute {
    pub name: Identifier,
    pub arguments: Vec<AttrArgument>,
    pub location: Location,
}

/// A block of statements.
#[derive(Debug)]
pub struct Block {
    pub id: NodeId,
    pub statements: Vec<NodeId>,
    pub location: Location,
}

/// Whether an item may be evaluated at compile time.
#[derive(Debug, Clone, Copy, PartialEq, Eq, Structural)]
pub enum Constness {
    Const,
    NotConst,
}

/// Visibility of an item; variants are ordered from least to most visible.
#[derive(Debug, Clone, Copy, PartialEq, Eq, Structural)]
pub enum Visibility {
    Private,
    Internal,
    Public,
}

/// Flags attached to a function signature.
#[derive(Debug)]
pub struct FnFlags {
    pub unsafe_: bool,
}

/// The signature of a function or method.
#[derive(Debug)]
pub struct FnSignature {
    pub flags: FnFlags,
    pub name: Path,
    pub parameters: Vec<Parameter>,
    pub type_parameters: Vec<NodeId>,
    pub return_type: Type,
    pub location: Location,
}

/// A free function definition.
#[derive(Debug)]
pub struct FunctionDefinition {
    pub id: NodeId,
    pub doc_comment: Option<String>,
    pub attrs: Vec<Attribute>,
    pub visibility: Visibility,
    pub constness: Constness,
    pub signature: FnSignature,
    pub block: Option<Block>,
    pub location: Location,
}

/// A parameter of a function or method.
#[derive(Debug)]
pub struct Parameter {
    pub id: NodeId,
    pub index: usize,
    pub name: Identifier,
    pub param_type: Type,
    pub vararg: bool,
    pub location: Location,
}

/// A definition of a named type.
#[derive(Debug)]
pub enum TypeDefinition {
    Enum(Box<EnumDefinition>),
    Struct(Box<StructDefinition>),
    Trait(Box<TraitDefinition>),
    TypeParameter(Box<TypeParameter>),
}

/// An enum definition.
#[derive(Debug)]
pub struct EnumDefinition {
    pub id: NodeId,
    pub doc_comment: Option<String>,
    pub attrs: Vec<Attribute>,
    pub name: Path,
    pub type_parameters: Vec<NodeId>,
    pub visibility: Visibility,
    pub cases: Vec<EnumDefinitionCase>,
    pub location: Location,
}

/// A single case of an enum definition.
#[derive(Debug)]
pub struct EnumDefinitionCase {
    pub idx: usize,
    pub doc_comment: Option<String>,
    pub name: Path,
    pub parameters: Vec<Type>,
    pub location: Location,
}

/// A struct definition.
#[derive(Debug)]
pub struct StructDefinition {
    pub id: NodeId,
    pub doc_comment: Option<String>,
    pub attrs: Vec<Attribute>,
    pub name: Path,
    pub visibility: Visibility,
    pub fields: Vec<Field>,
    pub type_parameters: Vec<NodeId>,
    pub location: Location,
}

/// An inherent implementation block.
#[derive(Debug)]
pub struct Implementation {
    pub id: NodeId,
    pub attrs: Vec<Attribute>,
    pub target: Box<Type>,
    pub methods: Vec<MethodDefinition>,
    pub type_parameters: Vec<NodeId>,
    pub location: Location,
}

/// A field of a struct definition.
#[derive(Debug)]
pub struct Field {
    pub id: NodeId,
    pub index: usize,
    pub doc_comment: Option<String>,
    pub attrs: Vec<Attribute>,
    pub visibility: Visibility,
    pub name: Identifier,
    pub field_type: Type,
    pub default_value: Option<NodeId>,
    pub location: Location,
}

/// A method inside an inherent implementation block.
#[derive(Debug)]
pub struct MethodDefinition {
    pub id: NodeId,
    pub doc_comment: Option<String>,
    pub attrs: Vec<Attribute>,
    pub visibility: Visibility,
    pub signature: FnSignature,
    pub block: Option<Block>,
    pub location: Location,
}

/// A trait definition.
#[derive(Debug)]
pub struct TraitDefinition {
    pub id: NodeId,
    pub doc_comment: Option<String>,
    pub attrs: Vec<Attribute>,
    pub name: Path,
    pub visibility: Visibility,
    pub type_parameters: Vec<NodeId>,
    pub methods: Vec<TraitMethodDefinition>,
    pub location: Location,
}

/// A method declared inside a trait definition.
#[derive(Debug)]
pub struct TraitMethodDefinition {
    pub id: NodeId,
    pub doc_comment: Option<String>,
    pub attrs: Vec<Attribute>,
    pub signature: FnSignature,
    pub block: Option<Block>,
    pub location: Location,
}

/// An implementation of a trait for a type.
#[derive(Debug)]
pub struct TraitImplementation {
    pub id: NodeId,
    pub attrs: Vec<Attribute>,
    pub name: Box<Type>,
    pub target: Box<Type>,
    pub methods: Vec<TraitMethodImplementation>,
    pub type_parameters: Vec<NodeId>,
    pub location: Location,
}

/// A method inside a trait implementation.
#[derive(Debug)]
pub struct TraitMethodImplementation {
    pub id: NodeId,
    pub doc_comment: Option<String>,
    pub attrs: Vec<Attribute>,
    pub signature: FnSignature,
    pub block: Option<Block>,
    pub location: Location,
}

/// A statement.
#[derive(Debug)]
pub struct Statement {
    pub id: NodeId,
    pub kind: StatementKind,
    pub location: Location,
}

/// The different kinds of statements.
#[derive(Debug)]
pub enum StatementKind {
    Variable(VariableDeclaration),
    Break(Break),
    Continue(Continue),
    Final(Final),
    Return(Return),
    InfiniteLoop(InfiniteLoop),
    Expression(NodeId),
}

/// A variable declaration, `let a: T = value;`.
#[derive(Debug)]
pub struct VariableDeclaration {
    pub id: NodeId,
    pub name: Identifier,
    pub declared_type: Option<Type>,
    pub value: NodeId,
    pub location: Location,
}

/// A `break` statement.
#[derive(Debug, Clone, Copy)]
pub struct Break {
    pub id: NodeId,
    pub location: Location,
}

/// A `continue` statement.
#[derive(Debug, Clone, Copy)]
pub struct Continue {
    pub id: NodeId,
    pub location: Location,
}

/// The final expression of a block, which becomes its value.
#[derive(Debug, Clone, Copy)]
pub struct Final {
    pub id: NodeId,
    pub value: NodeId,
    pub location: Location,
}

/// A `return` statement.
#[derive(Debug, Clone, Copy)]
pub struct Return {
    pub id: NodeId,
    pub value: Option<NodeId>,
    pub location: Location,
}

/// An infinite `loop` statement.
#[derive(Debug)]
pub struct InfiniteLoop {
    pub id: NodeId,
    pub block: Block,
    pub location: Location,
}

/// An expression.
#[derive(Debug)]
pub struct Expression {
    pub id: NodeId,
    pub kind: ExpressionKind,
    pub location: Location,
}

/// The different kinds of expressions.
#[derive(Debug)]
pub enum ExpressionKind {
    Missing,
    Assignment(Assignment),
    Cast(Cast),
    Construct(Construct),
    Deref(DerefExpr),
    Ref(RefExpr),
    /// A call without receiver: `std::Int32::new()` or `foo()`.
    StaticCall(StaticCall),
    /// A call on a receiver: `a.bar()`.
    InstanceCall(InstanceCall),
    /// An operator which was replaced by a call: `1 + 2`.
    IntrinsicCall(IntrinsicCall),
    If(If),
    Is(Is),
    Literal(Literal),
    Member(Member),
    Scope(Scope),
    Switch(Switch),
    Variable(Variable),
    Variant(Variant),
}

/// An assignment, `target = value`.
#[derive(Debug, Clone, Copy)]
pub struct Assignment {
    pub id: NodeId,
    pub target: NodeId,
    pub value: NodeId,
    pub location: Location,
}

/// A cast, `source as target`.
#[derive(Debug)]
pub struct Cast {
    pub id: NodeId,
    pub source: NodeId,
    pub target: Type,
    pub location: Location,
}

/// A constructor expression, `Foo { a: 1 }`.
#[derive(Debug)]
pub struct Construct {
    pub id: NodeId,
    pub path: Path,
    pub fields: Vec<ConstructorField>,
    pub location: Location,
}

/// A field within a constructor expression.
#[derive(Debug)]
pub struct ConstructorField {
    pub name: Identifier,
    pub value: NodeId,
    pub is_default: bool,
    pub location: Location,
}

/// Whether an expression is assigned to or read from.
#[derive(Debug, Clone, Copy, PartialEq, Eq, Structural)]
pub enum Place {
    LValue,
    RValue,
}

/// A dereference, `*target`.
#[derive(Debug, Clone, Copy)]
pub struct DerefExpr {
    pub id: NodeId,
    pub target: NodeId,
    pub place: Place,
    pub location: Location,
}

/// A reference, `&target`.
#[derive(Debug, Clone, Copy)]
pub struct RefExpr {
    pub id: NodeId,
    pub target: NodeId,
    pub location: Location,
}

/// A call without any receiver.
#[derive(Debug)]
pub struct StaticCall {
    pub id: NodeId,
    pub name: Path,
    pub arguments: Vec<NodeId>,
    pub location: Location,
}

/// A call on a receiver.
#[derive(Debug)]
pub struct InstanceCall {
    pub id: NodeId,
    pub callee: NodeId,
    pub name: PathSegment,
    pub arguments: Vec<NodeId>,
    /// Type arguments of the receiver type.
    pub bound_types: Vec<Type>,
    pub location: Location,
}

/// An operator which was replaced by a call to an intrinsic.
#[derive(Debug)]
pub struct IntrinsicCall {
    pub id: NodeId,
    pub kind: IntrinsicKind,
    /// Type arguments of the receiver type.
    pub bound_types: Vec<Type>,
    pub location: Location,
}

/// The intrinsic operations, with their operands.
#[derive(Debug, Clone, Copy, PartialEq, Eq, Structural)]
pub enum IntrinsicKind {
    Add { lhs: NodeId, rhs: NodeId },
    Sub { lhs: NodeId, rhs: NodeId },
    Mul { lhs: NodeId, rhs: NodeId },
    Div { lhs: NodeId, rhs: NodeId },
    And { lhs: NodeId, rhs: NodeId },
    Or { lhs: NodeId, rhs: NodeId },
    Negate { target: NodeId },
    BinaryAnd { lhs: NodeId, rhs: NodeId },
    BinaryOr { lhs: NodeId, rhs: NodeId },
    BinaryXor { lhs: NodeId, rhs: NodeId },
    Not { target: NodeId },
    Equal { lhs: NodeId, rhs: NodeId },
    NotEqual { lhs: NodeId, rhs: NodeId },
    Less { lhs: NodeId, rhs: NodeId },
    LessEqual { lhs: NodeId, rhs: NodeId },
    Greater { lhs: NodeId, rhs: NodeId },
    GreaterEqual { lhs: NodeId, rhs: NodeId },
}

/// An `if` expression with its cases; the `else` case has no condition.
#[derive(Debug)]
pub struct If {
    pub id: NodeId,
    pub cases: Vec<Condition>,
    pub location: Location,
}

/// A single case of an `if` expression.
#[derive(Debug)]
pub struct Condition {
    pub condition: Option<NodeId>,
    pub block: Block,
    pub location: Location,
}

/// A pattern test, `target is pattern`.
#[derive(Debug, Clone, Copy)]
pub struct Is {
    pub id: NodeId,
    pub target: NodeId,
    pub pattern: NodeId,
    pub location: Location,
}

/// A literal value.
#[derive(Debug)]
pub struct Literal {
    pub id: NodeId,
    pub kind: LiteralKind,
    pub location: Location,
}

/// The different kinds of literal values.
#[derive(Debug)]
pub enum LiteralKind {
    Int(IntLiteral),
    Float(FloatLiteral),
    String(StringLiteral),
    Boolean(BooleanLiteral),
}

/// An integer literal.
#[derive(Debug, Clone, Copy)]
pub struct IntLiteral {
    pub id: NodeId,
    pub value: i128,
    pub kind: Option<IntKind>,
}

/// The explicit kind of an integer literal.
#[derive(Debug, Clone, Copy, PartialEq, Eq, Structural)]
pub enum IntKind {
    I8,
    U8,
    I16,
    U16,
    I32,
    U32,
    I64,
    U64,
}

/// A floating-point literal, held as the bit pattern of its `f64` value.
#[derive(Debug, Clone, Copy)]
pub struct FloatLiteral {
    pub id: NodeId,
    pub bits: u64,
    pub kind: Option<FloatKind>,
}

/// The explicit kind of a floating-point literal.
#[derive(Debug, Clone, Copy, PartialEq, Eq, Structural)]
pub enum FloatKind {
    F32,
    F64,
}

/// A string literal.
#[derive(Debug)]
pub struct StringLiteral {
    pub id: NodeId,
    pub value: String,
}

/// A boolean literal.
#[derive(Debug, Clone, Copy)]
pub struct BooleanLiteral {
    pub id: NodeId,
    pub value: bool,
}

/// A member access, `callee.name`.
#[derive(Debug)]
pub struct Member {
    pub id: NodeId,
    pub callee: NodeId,
    pub name: Identifier,
    pub location: Location,
}

/// A field of a variant pattern.
#[derive(Debug, Clone, Copy)]
pub struct PatternField {
    pub id: NodeId,
    pub pattern: NodeId,
    pub field: usize,
    pub location: Location,
}

/// A scope expression, `{ ... }`.
#[derive(Debug)]
pub struct Scope {
    pub id: NodeId,
    pub body: Vec<NodeId>,
    pub unsafe_: bool,
    pub location: Location,
}

/// A `switch` expression.
#[derive(Debug)]
pub struct Switch {
    pub id: NodeId,
    pub operand: NodeId,
    pub cases: Vec<SwitchCase>,
    pub location: Location,
}

/// A single case of a `switch` expression.
#[derive(Debug, Clone, Copy)]
pub struct SwitchCase {
    pub pattern: NodeId,
    pub branch: NodeId,
    pub location: Location,
}

/// A reference to a variable.
#[derive(Debug)]
pub struct Variable {
    pub id: NodeId,
    pub reference: VariableSource,
    pub name: Identifier,
    pub location: Location,
}

/// What a variable reference refers to.
#[derive(Debug, Clone, Copy, PartialEq, Eq, Structural)]
pub enum VariableSource {
    Parameter(NodeId),
    Variable(NodeId),
    Pattern(NodeId),
}

/// An enum variant expression, `Option::Some(1)`.
#[derive(Debug)]
pub struct Variant {
    pub id: NodeId,
    pub name: Path,
    pub arguments: Vec<NodeId>,
    pub location: Location,
}

/// A pattern, as used in `switch` and `is` expressions.
#[derive(Debug)]
pub struct Pattern {
    pub id: NodeId,
    pub kind: PatternKind,
    pub location: Location,
}

/// The different kinds of patterns.
#[derive(Debug)]
pub enum PatternKind {
    Missing,
    Literal(LiteralPattern),
    Identifier(IdentifierPattern),
    Variant(VariantPattern),
    Wildcard(WildcardPattern),
}

/// A pattern which matches a literal value.
#[derive(Debug)]
pub struct LiteralPattern {
    pub literal: Literal,
    pub location: Location,
}

/// A pattern which binds the value to a name.
#[derive(Debug)]
pub struct IdentifierPattern {
    pub name: Identifier,
    pub location: Location,
}

/// A pattern which matches an enum variant and its fields.
#[derive(Debug)]
pub struct VariantPattern {
    pub name: Path,
    pub fields: Vec<NodeId>,
    pub location: Location,
}

/// A pattern which matches anything, `_`.
#[derive(Debug, Clone, Copy)]
pub struct WildcardPattern {
    pub location: Location,
}

/// A type parameter with its constraints.
#[derive(Debug)]
pub struct TypeParameter {
    pub id: NodeId,
    pub name: Identifier,
    pub constraints: Vec<Type>,
    pub location: Location,
}

/// A type variable, which binds a type parameter.
#[derive(Debug, Clone, Copy)]
pub struct TypeVariable {
    pub id: NodeId,
    pub location: Location,
    /// The type parameter which the variable is bound to.
    pub binding: TypeId,
    /// The type parameter which the variable emplaces within the target
    /// definition.
    pub canonical: TypeId,
}

} // verus!

verus! {

impl TypeDefinition {
    /// The identifier of the definition.
    pub open spec fn spec_id(&self) -> NodeId {
        match self {
            TypeDefinition::Enum(def) => def.id,
            TypeDefinition::Struct(def) => def.id,
            TypeDefinition::Trait(def) => def.id,
            TypeDefinition::TypeParameter(def) => def.id,
        }
    }

    /// The identifier of the definition.
    #[verifier::when_used_as_spec(spec_id)]
    pub fn id(&self) -> (r: NodeId)
        ensures
            r == self.spec_id(),
    {
        match self {
            TypeDefinition::Enum(def) => def.id,
            TypeDefinition::Struct(def) => def.id,
            TypeDefinition::Trait(def) => def.id,
            TypeDefinition::TypeParameter(def) => def.id,
        }
    }

    /// Where the definition was written.
    pub open spec fn spec_location(&self) -> Location {
        match self {
            TypeDefinition::Enum(def) => def.location,
            TypeDefinition::Struct(def) => def.location,
            TypeDefinition::Trait(def) => def.location,
            TypeDefinition::TypeParameter(def) => def.location,
        }
    }

    /// Where the definition was written.
    pub fn location(&self) -> (r: Location)
        ensures
            r == self.spec_location(),
    {
        match self {
            TypeDefinition::Enum(def) => def.location,
            TypeDefinition::Struct(def) => def.location,
            TypeDefinition::Trait(def) => def.location,
            TypeDefinition::TypeParameter(def) => def.location,
        }
    }

    /// The type parameters declared by the definition; a type parameter
    /// declares none.
    pub fn type_parameters(&self) -> (r: &[NodeId])
        ensures
            r@ == match self {
                TypeDefinition::Enum(def) => def.type_parameters@,
                TypeDefinition::Struct(def) => def.type_parameters@,
                TypeDefinition::Trait(def) => def.type_parameters@,
                TypeDefinition::TypeParameter(_) => Seq::<NodeId>::empty(),
            },
    {
        match self {
            TypeDefinition::Enum(def) => def.type_parameters.as_slice(),
            TypeDefinition::Struct(def) => def.type_parameters.as_slice(),
            TypeDefinition::Trait(def) => def.type_parameters.as_slice(),
            TypeDefinition::TypeParameter(_) => {
                let r: &[NodeId] = &[];
                proof {
                    assert(r@ =~= Seq::<NodeId>::empty());
                }
                r
            },
        }
    }

    /// Whether the definition can be used from other packages: only public
    /// enums, structs and traits can.
    pub fn is_visible_outside_pkg(&self) -> (r: bool)
        ensures
            r == match self {
                TypeDefinition::Enum(def) => def.visibility == Visibility::Public,
                TypeDefinition::Struct(def) => def.visibility == Visibility::Public,
                TypeDefinition::Trait(def) => def.visibility == Visibility::Public,
                TypeDefinition::TypeParameter(_) => false,
            },
    {
        match self {
            TypeDefinition::Enum(def) => def.visibility == Visibility::Public,
            TypeDefinition::Struct(def) => def.visibility == Visibility::Public,
            TypeDefinition::Trait(def) => def.visibility == Visibility::Public,
            TypeDefinition::TypeParameter(_) => false,
        }
    }

    /// Whether the definition is exported into package metadata: public
    /// enums, structs and traits, and all type parameters.
    pub fn should_export(&self) -> (r: bool)
        ensures
            r == match self {
                TypeDefinition::Enum(def) => def.visibility == Visibility::Public,
                TypeDefinition::Struct(def) => def.visibility == Visibility::Public,
                TypeDefinition::Trait(def) => def.visibility == Visibility::Public,
                TypeDefinition::TypeParameter(_) => true,
            },
    {
        match self {
            TypeDefinition::Enum(def) => def.visibility == Visibility::Public,
            TypeDefinition::Struct(def) => def.visibility == Visibility::Public,
            TypeDefinition::Trait(def) => def.visibility == Visibility::Public,
            TypeDefinition::TypeParameter(_) => true,
        }
    }
}

impl Node {
    /// The identifier of the node.
    pub open spec fn spec_id(&self) -> NodeId {
        match self {
            Node::Function(n) => n.id,
            Node::Type(n) => n.spec_id(),
            Node::TraitImpl(n) => n.id,
            Node::Impl(n) => n.id,
            Node::Field(n) => n.id,
            Node::Parameter(n) => n.id,
            Node::Method(n) => n.id,
            Node::TraitMethodDef(n) => n.id,
            Node::TraitMethodImpl(n) => n.id,
            Node::Pattern(n) => n.id,
            Node::Statement(n) => n.id,
            Node::Expression(n) => n.id,
            Node::TypeVariable(n) => n.id,
        }
    }

    /// The identifier of the node.
    #[verifier::when_used_as_spec(spec_id)]
    pub fn id(&self) -> (r: NodeId)
        ensures
            r == self.spec_id(),
    {
        match self {
            Node::Function(n) => n.id,
            Node::Type(n) => n.id(),
            Node::TraitImpl(n) => n.id,
            Node::Impl(n) => n.id,
            Node::Field(n) => n.id,
            Node::Parameter(n) => n.id,
            Node::Method(n) => n.id,
            Node::TraitMethodDef(n) => n.id,
            Node::TraitMethodImpl(n) => n.id,
            Node::Pattern(n) => n.id,
            Node::Statement(n) => n.id,
            Node::Expression(n) => n.id,
            Node::TypeVariable(n) => n.id,
        }
    }

    /// Where the node was written.
    pub open spec fn spec_location(&self) -> Location {
        match self {
            Node::Function(n) => n.location,
            Node::Type(n) => n.spec_location(),
            Node::TraitImpl(n) => n.location,
            Node::Impl(n) => n.location,
            Node::Field(n) => n.location,
            Node::Parameter(n) => n.location,
            Node::Method(n) => n.location,
            Node::TraitMethodDef(n) => n.location,
            Node::TraitMethodImpl(n) => n.location,
            Node::Pattern(n) => n.location,
            Node::Statement(n) => n.location,
            Node::Expression(n) => n.location,
            Node::TypeVariable(n) => n.location,
        }
    }

    /// Where the node was written.
    pub fn location(&self) -> (r: Location)
        ensures
            r == self.spec_location(),
    {
        match self {
            Node::Function(n) => n.location,
            Node::Type(n) => n.location(),
            Node::TraitImpl(n) => n.location,
            Node::Impl(n) => n.location,
            Node::Field(n) => n.location,
            Node::Parameter(n) => n.location,
            Node::Method(n) => n.location,
            Node::TraitMethodDef(n) => n.location,
            Node::TraitMethodImpl(n) => n.location,
            Node::Pattern(n) => n.location,
            Node::Statement(n) => n.location,
            Node::Expression(n) => n.location,
            Node::TypeVariable(n) => n.location,
        }
    }

    /// Whether the node is a top-level item: a function, an enum, struct or
    /// trait definition, or an implementation block.
    pub fn is_item(&self) -> (r: bool)
        ensures
            r == match self {
                Node::Function(_) | Node::TraitImpl(_) | Node::Impl(_) => true,
                Node::Type(def) => !(def is TypeParameter),
                _ => false,
            },
    {
        match self {
            Node::Function(_) | Node::TraitImpl(_) | Node::Impl(_) => true,
            Node::Type(TypeDefinition::TypeParameter(_)) => false,
            Node::Type(_) => true,
            _ => false,
        }
    }

    /// The kind of the node.
    pub open spec fn spec_node_type(&self) -> NodeType {
        match self {
            Node::Function(_) => NodeType::Function,
            Node::Type(TypeDefinition::Struct(_)) => NodeType::StructDef,
            Node::Type(TypeDefinition::Trait(_)) => NodeType::TraitDef,
            Node::Type(TypeDefinition::Enum(_)) => NodeType::EnumDef,
            Node::Type(TypeDefinition::TypeParameter(_)) => NodeType::TypeParam,
            Node::TraitImpl(_) => NodeType::TraitImpl,
            Node::Impl(_) => NodeType::Impl,
            Node::Field(_) => NodeType::Field,
            Node::Parameter(_) => NodeType::Parameter,
            Node::Method(_) => NodeType::Method,
            Node::TraitMethodDef(_) => NodeType::TraitMethodDef,
            Node::TraitMethodImpl(_) => NodeType::TraitMethodImpl,
            Node::Pattern(_) => NodeType::Pattern,
            Node::Statement(_) => NodeType::Statement,
            Node::Expression(_) => NodeType::Expression,
            Node::TypeVariable(_) => NodeType::TypeVariable,
        }
    }

    /// The kind of the node.
    pub fn as_node_type(&self) -> (r: NodeType)
        ensures
            r == self.spec_node_type(),
    {
        match self {
            Node::Function(_) => NodeType::Function,
            Node::Type(TypeDefinition::Struct(_)) => NodeType::StructDef,
            Node::Type(TypeDefinition::Trait(_)) => NodeType::TraitDef,
            Node::Type(TypeDefinition::Enum(_)) => NodeType::EnumDef,
            Node::Type(TypeDefinition::TypeParameter(_)) => NodeType::TypeParam,
            Node::TraitImpl(_) => NodeType::TraitImpl,
            Node::Impl(_) => NodeType::Impl,
            Node::Field(_) => NodeType::Field,
            Node::Parameter(_) => NodeType::Parameter,
            Node::Method(_) => NodeType::Method,
            Node::TraitMethodDef(_) => NodeType::TraitMethodDef,
            Node::TraitMethodImpl(_) => NodeType::TraitMethodImpl,
            Node::Pattern(_) => NodeType::Pattern,
            Node::Statement(_) => NodeType::Statement,
            Node::Expression(_) => NodeType::Expression,
            Node::TypeVariable(_) => NodeType::TypeVariable,
        }
    }
}

impl Visibility {
    /// The keyword which declares the visibility.
    pub fn to_string(&self) -> (r: String)
        ensures
            r@ == match self {
                Visibility::Public => "pub"@,
                Visibility::Internal => "pub(internal)"@,
                Visibility::Private => "priv"@,
            },
    {
        match self {
            Visibility::Public => "pub".to_string(),
            Visibility::Internal => "pub(internal)".to_string(),
            Visibility::Private => "priv".to_string(),
        }
    }
}

impl Parameter {
    /// Whether the parameter is the `self` receiver.
    pub fn is_self(&self) -> (r: bool)
        ensures
            r == (self.name.name@ == SELF_PARAM_NAME@),
    {
        let name = self.name.as_str();
        crate::hir::path::str_eq(name, SELF_PARAM_NAME)
    }
}

impl FunctionDefinition {
    /// The path naming the function.
    pub fn path(&self) -> (r: &Path)
        ensures
            *r == self.signature.name,
    {
        &self.signature.name
    }

    /// The final segment of the function's path.
    pub fn ident(&self) -> (r: &PathSegment)
        ensures
            *r == self.signature.name.name,
    {
        &self.signature.name.name
    }
}

impl TraitImplementation {
    /// The final segment of the implemented trait's path.
    pub fn ident(&self) -> (r: &PathSegment)
        ensures
            *r == self.name.name.name,
    {
        &self.name.name.name
    }

    /// The type arguments of the implemented trait.
    pub fn type_args(&self) -> (r: &[Type])
        ensures
            types_view(r@) == self.name@.name.name.bound(),
    {
        self.name.bound_types()
    }
}

impl Type {
    /// The final segment of the type's path.
    pub fn ident(&self) -> (r: &PathSegment)
        ensures
            *r == self.name.name,
    {
        &self.name.name
    }

    /// The type arguments of the type.
    pub fn bound_types(&self) -> (r: &[Type])
        ensures
            types_view(r@) == self@.name.name.bound(),
    {
        self.name.bound_types()
    }

    /// Whether both types name the same path; identifiers, locations and
    /// type arguments are not compared.
    pub fn eq(&self, other: &Type) -> (r: bool)
        ensures
            r == self@.name.names_match(other@.name),
    {
        self.name.is_name_match(&other.name)
    }
}

} // verus!

verus! {

impl Statement {
    /// Whether the statement is a loop.
    pub fn is_loop(&self) -> (r: bool)
        ensures
            r == (self.kind is InfiniteLoop),
    {
        match &self.kind {
            StatementKind::InfiniteLoop(_) => true,
            _ => false,
        }
    }

    /// A variable declaration without declared type.
    pub fn define_variable(id: NodeId, name: Identifier, value: NodeId, location: Location) -> (r: Statement)
        ensures
            r.id == id,
            r.location == location,
            r.kind == StatementKind::Variable(
                VariableDeclaration { id, name, declared_type: None, value, location },
            ),
    {
        Statement {
            id,
            location,
            kind: StatementKind::Variable(
                VariableDeclaration { id, name, declared_type: None, value, location },
            ),
        }
    }

    /// An expression statement.
    pub fn expression(id: NodeId, value: NodeId, location: Location) -> (r: Statement)
        ensures
            r == (Statement { id, location, kind: StatementKind::Expression(value) }),
    {
        Statement { id, location, kind: StatementKind::Expression(value) }
    }

    /// A statement which makes `value` the value of its block.
    pub fn final_ref(id: NodeId, value: NodeId, location: Location) -> (r: Statement)
        ensures
            r == (Statement { id, location, kind: StatementKind::Final(Final { id, value, location }) }),
    {
        Statement { id, location, kind: StatementKind::Final(Final { id, value, location }) }
    }
}

impl Expression {
    /// The same expression with another location.
    pub fn with_location(self, location: Location) -> (r: Expression)
        ensures
            r == (Expression { location, ..self }),
    {
        let mut e = self;
        e.location = location;
        e
    }

    /// A literal expression without location.
    pub open spec fn spec_lit(id: NodeId, kind: LiteralKind) -> Expression {
        Expression {
            id,
            location: Location::spec_empty(),
            kind: ExpressionKind::Literal(Literal { id, location: Location::spec_empty(), kind }),
        }
    }

    /// A literal expression without location.
    #[verifier::when_used_as_spec(spec_lit)]
    pub fn lit(id: NodeId, kind: LiteralKind) -> (r: Expression)
        ensures
            r == (Expression {
                id,
                location: Location::spec_empty(),
                kind: ExpressionKind::Literal(Literal { id, location: Location::spec_empty(), kind }),
            }),
    {
        Expression {
            id,
            location: Location::empty(),
            kind: ExpressionKind::Literal(Literal { id, location: Location::empty(), kind }),
        }
    }

    /// A boolean literal expression; the inner literal carries the empty
    /// identifier of the package-less first node.
    pub fn lit_bool(id: NodeId, value: bool) -> (r: Expression)
        ensures
            r == (Expression {
                id,
                location: Location::spec_empty(),
                kind: ExpressionKind::Literal(Literal {
                    id,
                    location: Location::spec_empty(),
                    kind: LiteralKind::Boolean(BooleanLiteral { id: NodeId::default_id(), value }),
                }),
            }),
    {
        Self::lit(id, LiteralKind::Boolean(BooleanLiteral { id: NodeId::default(), value }))
    }

    /// A string literal expression.
    pub fn lit_string(id: NodeId, value: String) -> (r: Expression)
        ensures
            r == (Expression {
                id,
                location: Location::spec_empty(),
                kind: ExpressionKind::Literal(Literal {
                    id,
                    location: Location::spec_empty(),
                    kind: LiteralKind::String(StringLiteral { id: NodeId::default_id(), value }),
                }),
            }),
    {
        Self::lit(id, LiteralKind::String(StringLiteral { id: NodeId::default(), value }))
    }

    /// An integer literal expression of the given kind.
    pub fn lit_int(id: NodeId, value: i128, kind: IntKind) -> (r: Expression)
        ensures
            r == Expression::lit(id, LiteralKind::Int(IntLiteral { id, value, kind: Some(kind) })),
    {
        Self::lit(id, LiteralKind::Int(IntLiteral { id, value, kind: Some(kind) }))
    }

    /// A `UInt64` literal expression.
    pub fn lit_u64(id: NodeId, value: u64) -> (r: Expression)
        ensures
            r == Expression::lit(id, LiteralKind::Int(IntLiteral { id, value: value as i128, kind: Some(IntKind::U64) })),
    {
        Self::lit_int(id, value as i128, IntKind::U64)
    }

    /// An `Int8` literal expression.
    pub fn lit_i8(id: NodeId, value: i8) -> (r: Expression)
        ensures
            r == Expression::lit(id, LiteralKind::Int(IntLiteral { id, value: value as i128, kind: Some(IntKind::I8) })),
    {
        Self::lit_int(id, value as i128, IntKind::I8)
    }

    /// An `Int16` literal expression.
    pub fn lit_i16(id: NodeId, value: i16) -> (r: Expression)
        ensures
            r == Expression::lit(id, LiteralKind::Int(IntLiteral { id, value: value as i128, kind: Some(IntKind::I16) })),
    {
        Self::lit_int(id, value as i128, IntKind::I16)
    }

    /// An `Int32` literal expression.
    pub fn lit_i32(id: NodeId, value: i32) -> (r: Expression)
        ensures
            r == Expression::lit(id, LiteralKind::Int(IntLiteral { id, value: value as i128, kind: Some(IntKind::I32) })),
    {
        Self::lit_int(id, value as i128, IntKind::I32)
    }

    /// An `Int64` literal expression.
    pub fn lit_i64(id: NodeId, value: i64) -> (r: Expression)
        ensures
            r == Expression::lit(id, LiteralKind::Int(IntLiteral { id, value: value as i128, kind: Some(IntKind::I64) })),
    {
        Self::lit_int(id, value as i128, IntKind::I64)
    }

    /// A `UInt8` literal expression.
    pub fn lit_u8(id: NodeId, value: u8) -> (r: Expression)
        ensures
            r == Expression::lit(id, LiteralKind::Int(IntLiteral { id, value: value as i128, kind: Some(IntKind::U8) })),
    {
        Self::lit_int(id, value as i128, IntKind::U8)
    }

    /// A `UInt16` literal expression.
    pub fn lit_u16(id: NodeId, value: u16) -> (r: Expression)
        ensures
            r == Expression::lit(id, LiteralKind::Int(IntLiteral { id, value: value as i128, kind: Some(IntKind::U16) })),
    {
        Self::lit_int(id, value as i128, IntKind::U16)
    }

    /// A `UInt32` literal expression.
    pub fn lit_u32(id: NodeId, value: u32) -> (r: Expression)
        ensures
            r == Expression::lit(id, LiteralKind::Int(IntLiteral { id, value: value as i128, kind: Some(IntKind::U32) })),
    {
        Self::lit_int(id, value as i128, IntKind::U32)
    }

    /// A call of `name` on the receiver `callee`.
    pub fn call(id: NodeId, name: PathSegment, callee: NodeId, args: Vec<NodeId>, location: Location) -> (r: Expression)
        ensures
            r.id == id,
            r.location == location,
            r.kind matches ExpressionKind::InstanceCall(c) && c.id == id && c.name == name
                && c.callee == callee && c.arguments == args && c.bound_types@.len() == 0
                && c.location == location,
    {
        Expression {
            id,
            location,
            kind: ExpressionKind::InstanceCall(InstanceCall {
                id,
                name,
                callee,
                arguments: args,
                bound_types: Vec::new(),
                location,
            }),
        }
    }

    /// A call of `name` without receiver.
    pub fn static_call(id: NodeId, name: Path, args: Vec<NodeId>, location: Location) -> (r: Expression)
        ensures
            r == (Expression {
                id,
                location,
                kind: ExpressionKind::StaticCall(StaticCall { id, name, arguments: args, location }),
            }),
    {
        Expression {
            id,
            location,
            kind: ExpressionKind::StaticCall(StaticCall { id, name, arguments: args, location }),
        }
    }

    /// A reference to the variable declared by `decl`.
    pub fn variable(id: NodeId, name: Identifier, decl: NodeId, location: Location) -> (r: Expression)
        ensures
            r == (Expression {
                id,
                location,
                kind: ExpressionKind::Variable(Variable {
                    id,
                    reference: VariableSource::Variable(decl),
                    name,
                    location,
                }),
            }),
    {
        Expression {
            id,
            location,
            kind: ExpressionKind::Variable(Variable {
                id,
                reference: VariableSource::Variable(decl),
                name,
                location,
            }),
        }
    }
}

} // verus!

verus! {

/// Copies a list of node identifiers.
pub fn copy_ids(v: &Vec<NodeId>) -> (r: Vec<NodeId>)
    ensures
        r@ == v@,
{
    let mut r: Vec<NodeId> = Vec::new();
    let mut i: usize = 0;
    while i < v.len()
        invariant
            i <= v.len(),
            r@ == v@.subrange(0, i as int),
        decreases v.len() - i,
    {
        r.push(v[i]);
        i = i + 1;
    }
    assert(r@ =~= v@);
    r
}

/// Appends deep copies of `src` to `dst`.
pub fn extend_types(dst: &mut Vec<Type>, src: &[Type])
    ensures
        types_view(final(dst)@) == types_view(old(dst)@) + types_view(src@),
{
    let ghost before = dst@;
    let mut i: usize = 0;
    while i < src.len()
        invariant
            i <= src@.len(),
            dst@.len() == before.len() + i,
            forall|j: int| 0 <= j < before.len() ==> #[trigger] dst@[j] == before[j],
            forall|j: int| 0 <= j < i ==> dst@[before.len() + j]@ == (#[trigger] src@[j])@,
        decreases src.len() - i,
    {
        dst.push(clone_type(&src[i]));
        i = i + 1;
    }
    proof {
        crate::hir::path::lemma_types_view(before);
        crate::hir::path::lemma_types_view(src@);
        crate::hir::path::lemma_types_view(dst@);
        assert forall|m: int| 0 <= m < dst@.len() implies #[trigger] types_view(dst@)[m]
            == (types_view(before) + types_view(src@))[m] by {
            if m >= before.len() {
                assert(dst@[m]@ == src@[m - before.len()]@);
            }
        }
        assert(types_view(dst@) =~= types_view(before) + types_view(src@));
    }
}

impl IntrinsicKind {
    /// The name of the intrinsic, which is also the name of the method that
    /// implements it.
    pub open spec fn spec_name(self) -> Seq<char> {
        match self {
            IntrinsicKind::Add { .. } => "Add"@,
            IntrinsicKind::Sub { .. } => "Sub"@,
            IntrinsicKind::Mul { .. } => "Mul"@,
            IntrinsicKind::Div { .. } => "Div"@,
            IntrinsicKind::And { .. } => "And"@,
            IntrinsicKind::Or { .. } => "Or"@,
            IntrinsicKind::Negate { .. } => "Negate"@,
            IntrinsicKind::BinaryAnd { .. } => "BinaryAnd"@,
            IntrinsicKind::BinaryOr { .. } => "BinaryOr"@,
            IntrinsicKind::BinaryXor { .. } => "BinaryXor"@,
            IntrinsicKind::Not { .. } => "Not"@,
            IntrinsicKind::Equal { .. } => "Equal"@,
            IntrinsicKind::NotEqual { .. } => "NotEqual"@,
            IntrinsicKind::Less { .. } => "Less"@,
            IntrinsicKind::LessEqual { .. } => "LessEqual"@,
            IntrinsicKind::Greater { .. } => "Greater"@,
            IntrinsicKind::GreaterEqual { .. } => "GreaterEqual"@,
        }
    }

    /// The name of the intrinsic.
    pub fn name(&self) -> (r: &'static str)
        ensures
            r@ == self.spec_name(),
    {
        match self {
            IntrinsicKind::Add { .. } => "Add",
            IntrinsicKind::Sub { .. } => "Sub",
            IntrinsicKind::Mul { .. } => "Mul",
            IntrinsicKind::Div { .. } => "Div",
            IntrinsicKind::And { .. } => "And",
            IntrinsicKind::Or { .. } => "Or",
            IntrinsicKind::Negate { .. } => "Negate",
            IntrinsicKind::BinaryAnd { .. } => "BinaryAnd",
            IntrinsicKind::BinaryOr { .. } => "BinaryOr",
            IntrinsicKind::BinaryXor { .. } => "BinaryXor",
            IntrinsicKind::Not { .. } => "Not",
            IntrinsicKind::Equal { .. } => "Equal",
            IntrinsicKind::NotEqual { .. } => "NotEqual",
            IntrinsicKind::Less { .. } => "Less",
            IntrinsicKind::LessEqual { .. } => "LessEqual",
            IntrinsicKind::Greater { .. } => "Greater",
            IntrinsicKind::GreaterEqual { .. } => "GreaterEqual",
        }
    }

    /// The operands of the intrinsic: `[lhs, rhs]` or `[target]`.
    pub open spec fn spec_arguments(self) -> Seq<NodeId> {
        match self {
            IntrinsicKind::Negate { target } => seq![target],
            IntrinsicKind::Not { target } => seq![target],
            IntrinsicKind::Add { lhs, rhs } => seq![lhs, rhs],
            IntrinsicKind::Sub { lhs, rhs } => seq![lhs, rhs],
            IntrinsicKind::Mul { lhs, rhs } => seq![lhs, rhs],
            IntrinsicKind::Div { lhs, rhs } => seq![lhs, rhs],
            IntrinsicKind::And { lhs, rhs } => seq![lhs, rhs],
            IntrinsicKind::Or { lhs, rhs } => seq![lhs, rhs],
            IntrinsicKind::BinaryAnd { lhs, rhs } => seq![lhs, rhs],
            IntrinsicKind::BinaryOr { lhs, rhs } => seq![lhs, rhs],
            IntrinsicKind::BinaryXor { lhs, rhs } => seq![lhs, rhs],
            IntrinsicKind::Equal { lhs, rhs } => seq![lhs, rhs],
            IntrinsicKind::NotEqual { lhs, rhs } => seq![lhs, rhs],
            IntrinsicKind::Less { lhs, rhs } => seq![lhs, rhs],
            IntrinsicKind::LessEqual { lhs, rhs } => seq![lhs, rhs],
            IntrinsicKind::Greater { lhs, rhs } => seq![lhs, rhs],
            IntrinsicKind::GreaterEqual { lhs, rhs } => seq![lhs, rhs],
        }
    }

    /// The receiver of the intrinsic: its left-hand side or its only operand.
    pub fn callee(&self) -> (r: NodeId)
        ensures
            r == self.spec_arguments()[0],
    {
        match *self {
            IntrinsicKind::Negate { target } | IntrinsicKind::Not { target } => target,
            IntrinsicKind::Add { lhs, .. }
            | IntrinsicKind::Sub { lhs, .. }
            | IntrinsicKind::Mul { lhs, .. }
            | IntrinsicKind::Div { lhs, .. }
            | IntrinsicKind::And { lhs, .. }
            | IntrinsicKind::Or { lhs, .. }
            | IntrinsicKind::BinaryAnd { lhs, .. }
            | IntrinsicKind::BinaryOr { lhs, .. }
            | IntrinsicKind::BinaryXor { lhs, .. }
            | IntrinsicKind::Equal { lhs, .. }
            | IntrinsicKind::NotEqual { lhs, .. }
            | IntrinsicKind::Less { lhs, .. }
            | IntrinsicKind::LessEqual { lhs, .. }
            | IntrinsicKind::Greater { lhs, .. }
            | IntrinsicKind::GreaterEqual { lhs, .. } => lhs,
        }
    }

    /// The operands of the intrinsic.
    pub fn arguments(&self) -> (r: Vec<NodeId>)
        ensures
            r@ == self.spec_arguments(),
    {
        match *self {
            IntrinsicKind::Negate { target } | IntrinsicKind::Not { target } => vec![target],
            IntrinsicKind::Add { lhs, rhs }
            | IntrinsicKind::Sub { lhs, rhs }
            | IntrinsicKind::Mul { lhs, rhs }
            | IntrinsicKind::Div { lhs, rhs }
            | IntrinsicKind::And { lhs, rhs }
            | IntrinsicKind::Or { lhs, rhs }
            | IntrinsicKind::BinaryAnd { lhs, rhs }
            | IntrinsicKind::BinaryOr { lhs, rhs }
            | IntrinsicKind::BinaryXor { lhs, rhs }
            | IntrinsicKind::Equal { lhs, rhs }
            | IntrinsicKind::NotEqual { lhs, rhs }
            | IntrinsicKind::Less { lhs, rhs }
            | IntrinsicKind::LessEqual { lhs, rhs }
            | IntrinsicKind::Greater { lhs, rhs }
            | IntrinsicKind::GreaterEqual { lhs, rhs } => vec![lhs, rhs],
        }
    }
}

impl IntrinsicCall {
    /// The name of the intrinsic, located at the call.
    pub fn name(&self) -> (r: Identifier)
        ensures
            r.name@ == self.kind.spec_name(),
            r.location == self.location,
    {
        Identifier { name: self.kind.name().to_string(), location: self.location }
    }

    /// The type arguments of the receiver type.
    pub fn bound_types(&self) -> (r: &[Type])
        ensures
            r@ == self.bound_types@,
    {
        self.bound_types.as_slice()
    }
}

impl StaticCall {
    /// The type which receives the call, when the segment before the
    /// callable names a type: `std::Int32` for `std::Int32::new()`.
    pub fn receiving_type(&self) -> (r: Option<Path>)
        ensures
            match r {
                Some(p) => self.name@.root.len() > 0 && self.name@.root.last() is Type
                    && self.name@.parent() == Some(p@),
                None => self.name@.root.len() == 0 || !(self.name@.root.last() is Type),
            },
    {
        proof {
            crate::hir::path::lemma_segments_view(self.name.root@);
        }
        let n = self.name.root.len();
        if n == 0 {
            return None;
        }
        match &self.name.root[n - 1] {
            PathSegment::Type { .. } => self.name.clone().parent(),
            _ => None,
        }
    }

    /// The type arguments of the callable segment.
    pub fn type_arguments(&self) -> (r: &[Type])
        ensures
            types_view(r@) == self.name@.name.bound(),
    {
        self.name.bound_types()
    }

    /// The type arguments of all segments of the called path.
    pub fn all_type_arguments(&self) -> (r: Vec<Type>)
        ensures
            types_view(r@) == crate::hir::path::flat_bound(self.name@.segments()),
    {
        self.name.all_bound_types()
    }
}

impl InstanceCall {
    /// The type arguments of the called method.
    pub fn type_arguments(&self) -> (r: &[Type])
        ensures
            types_view(r@) == self.name@.bound(),
    {
        self.name.bound_types()
    }

    /// The type arguments of the called method, followed by those of the
    /// receiver type.
    pub fn all_type_arguments(&self) -> (r: Vec<Type>)
        ensures
            types_view(r@) == self.name@.bound() + types_view(self.bound_types@),
    {
        let mut args: Vec<Type> = Vec::new();
        proof {
            assert(types_view(args@) =~= Seq::<TypeView>::empty());
        }
        extend_types(&mut args, self.type_arguments());
        extend_types(&mut args, self.bound_types.as_slice());
        proof {
            assert(Seq::<TypeView>::empty() + self.name@.bound() =~= self.name@.bound());
        }
        args
    }
}

/// A reference to any of the call expressions.
#[derive(Debug, Clone, Copy)]
pub enum CallExpression<'a> {
    /// A call without receiver.
    Static(&'a StaticCall),
    /// A call on a receiver.
    Instanced(&'a InstanceCall),
    /// An operator which was replaced by a call.
    Intrinsic(&'a IntrinsicCall),
}

impl<'a> CallExpression<'a> {
    /// The identifier of the call expression.
    pub fn id(&self) -> (r: NodeId)
        ensures
            r == match *self {
                CallExpression::Static(c) => c.id,
                CallExpression::Instanced(c) => c.id,
                CallExpression::Intrinsic(c) => c.id,
            },
    {
        match *self {
            CallExpression::Static(c) => c.id,
            CallExpression::Instanced(c) => c.id,
            CallExpression::Intrinsic(c) => c.id,
        }
    }

    /// The name of the called function, method or intrinsic.
    pub fn name(&self) -> (r: Identifier)
        ensures
            r.name@ == match *self {
                CallExpression::Static(c) => c.name@.name.name_str(),
                CallExpression::Instanced(c) => c.name@.name_str(),
                CallExpression::Intrinsic(c) => c.kind.spec_name(),
            },
            r.location == match *self {
                CallExpression::Static(c) => c.name@.name.name_location(),
                CallExpression::Instanced(c) => c.name@.name_location(),
                CallExpression::Intrinsic(c) => c.location,
            },
    {
        match *self {
            CallExpression::Static(c) => c.name.name(),
            CallExpression::Instanced(c) => c.name.name(),
            CallExpression::Intrinsic(c) => c.name(),
        }
    }

    /// The arguments of the call; for intrinsics, its operands.
    pub open spec fn spec_arguments(&self) -> Seq<NodeId> {
        match *self {
            CallExpression::Static(c) => c.arguments@,
            CallExpression::Instanced(c) => c.arguments@,
            CallExpression::Intrinsic(c) => c.kind.spec_arguments(),
        }
    }

    /// The arguments of the call; for intrinsics, its operands.
    pub fn arguments(&self) -> (r: Vec<NodeId>)
        ensures
            r@ == self.spec_arguments(),
    {
        match *self {
            CallExpression::Static(c) => copy_ids(&c.arguments),
            CallExpression::Instanced(c) => copy_ids(&c.arguments),
            CallExpression::Intrinsic(c) => c.kind.arguments(),
        }
    }

    /// The type arguments of the called function or method; intrinsics have
    /// none.
    pub fn type_arguments(&self) -> (r: &'a [Type])
        ensures
            types_view(r@) == match *self {
                CallExpression::Static(c) => c.name@.name.bound(),
                CallExpression::Instanced(c) => c.name@.bound(),
                CallExpression::Intrinsic(_) => Seq::<TypeView>::empty(),
            },
    {
        match *self {
            CallExpression::Static(c) => c.type_arguments(),
            CallExpression::Instanced(c) => c.type_arguments(),
            CallExpression::Intrinsic(_) => {
                let r: &[Type] = &[];
                proof {
                    assert(types_view(r@) =~= Seq::<TypeView>::empty());
                }
                r
            },
        }
    }

    /// All type arguments of the call.
    pub fn all_type_arguments(&self) -> (r: Vec<Type>)
        ensures
            types_view(r@) == match *self {
                CallExpression::Static(c) => crate::hir::path::flat_bound(c.name@.segments()),
                CallExpression::Instanced(c) => c.name@.bound() + types_view(c.bound_types@),
                CallExpression::Intrinsic(c) => types_view(c.bound_types@),
            },
    {
        match *self {
            CallExpression::Static(c) => c.all_type_arguments(),
            CallExpression::Instanced(c) => c.all_type_arguments(),
            CallExpression::Intrinsic(c) => {
                let mut r: Vec<Type> = Vec::new();
                proof {
                    assert(types_view(r@) =~= Seq::<TypeView>::empty());
                }
                extend_types(&mut r, c.bound_types());
                proof {
                    assert(Seq::<TypeView>::empty() + types_view(c.bound_types@) =~= types_view(c.bound_types@));
                }
                r
            },
        }
    }

    /// Where the call was written.
    pub fn location(&self) -> (r: Location)
        ensures
            r == match *self {
                CallExpression::Static(c) => c.location,
                CallExpression::Instanced(c) => c.location,
                CallExpression::Intrinsic(c) => c.location,
            },
    {
        match *self {
            CallExpression::Static(c) => c.location,
            CallExpression::Instanced(c) => c.location,
            CallExpression::Intrinsic(c) => c.location,
        }
    }

    /// Whether the call has a receiver.
    pub fn is_instance(&self) -> (r: bool)
        ensures
            r == (*self is Instanced),
    {
        match *self {
            CallExpression::Instanced(_) => true,
            _ => false,
        }
    }

    /// The position of `id` among the arguments of the call, if any; the
    /// first position when it occurs more than once.
    pub fn find_arg_idx(&self, id: NodeId) -> (r: Option<usize>)
        ensures
            match r {
                Some(i) => i < self.spec_arguments().len() && self.spec_arguments()[i as int] == id
                    && forall|j: int| 0 <= j < i ==> self.spec_arguments()[j] != id,
                None => !self.spec_arguments().contains(id),
            },
    {
        let args = self.arguments();
        let mut i: usize = 0;
        while i < args.len()
            invariant
                i <= args@.len(),
                args@ == self.spec_arguments(),
                forall|j: int| 0 <= j < i ==> args@[j] != id,
            decreases args.len() - i,
        {
            if args[i] == id {
                return Some(i);
            }
            i = i + 1;
        }
        None
    }
}

impl Pattern {
    /// Whether the pattern matches every value: a wildcard or a binding.
    pub fn is_fallback(&self) -> (r: bool)
        ensures
            r == (self.kind is Identifier || self.kind is Wildcard),
    {
        match &self.kind {
            PatternKind::Identifier(_) | PatternKind::Wildcard(_) => true,
            _ => false,
        }
    }
}

impl PatternKind {
    /// The literal matched by a literal pattern.
    pub fn expect_lit(&self) -> (r: &Literal)
        requires
            self is Literal,
        ensures
            *r == self->Literal_0.literal,
    {
        match self {
            PatternKind::Literal(lit) => &lit.literal,
            _ => {
                vstd::pervasive::unreached()
            },
        }
    }

    /// Where the pattern was written.
    pub fn location(&self) -> (r: Location)
        ensures
            r == match self {
                PatternKind::Missing => Location::spec_empty(),
                PatternKind::Literal(p) => p.location,
                PatternKind::Identifier(p) => p.location,
                PatternKind::Variant(p) => p.location,
                PatternKind::Wildcard(p) => p.location,
            },
    {
        match self {
            PatternKind::Missing => Location::empty(),
            PatternKind::Literal(p) => p.location,
            PatternKind::Identifier(p) => p.location,
            PatternKind::Variant(p) => p.location,
            PatternKind::Wildcard(p) => p.location,
        }
    }
}

impl VariantPattern {
    /// The enum which defines the matched variant.
    pub fn enum_name(&self) -> (r: Path)
        requires
            self.name@.root.len() > 0,
        ensures
            self.name@.parent() == Some(r@),
    {
        match self.name.clone().parent() {
            Some(p) => p,
            None => {
                vstd::pervasive::unreached()
            },
        }
    }
}

} // verus!
