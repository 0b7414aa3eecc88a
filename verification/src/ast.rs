//! The document model: what this compiler reads of a parsed GraphQL
//! schema-definition document. The external parser's tree is converted into
//! these plain types at the boundary; every field here is something the
//! compiler's logic inspects.

use vstd::prelude::*;
use crate::error::DirectiveLocation;
use crate::error::Pos;

verus! {

/// A whole schema document.
pub struct Document {
    pub definitions: Vec<Definition>,
}

/// One top-level definition.
pub enum Definition {
    Schema(SchemaDefinition),
    Type(TypeDefinition),
    /// A type-extension definition of any kind; only its position matters,
    /// since extensions are always rejected.
    TypeExtension(Pos),
    Directive(DirectiveDefinition),
}

/// One type definition, by kind.
pub enum TypeDefinition {
    Scalar(ScalarType),
    Object(ObjectType),
    Interface(InterfaceType),
    Union(UnionType),
    Enum(EnumType),
    InputObject(InputObjectType),
}

/// The `schema { query: ..., mutation: ..., subscription: ... }` block.
pub struct SchemaDefinition {
    pub position: Pos,
    pub directives: Vec<DirectiveUse>,
    pub query: Option<String>,
    pub mutation: Option<String>,
    pub subscription: Option<String>,
}

/// A `directive @name(args...) on LOCATIONS` definition.
pub struct DirectiveDefinition {
    pub position: Pos,
    pub description: Option<String>,
    pub name: String,
    pub arguments: Vec<InputValueDef>,
    pub locations: Vec<DirectiveLocation>,
}

/// A `scalar Name` definition.
pub struct ScalarType {
    pub position: Pos,
    pub description: Option<String>,
    pub name: String,
    pub directives: Vec<DirectiveUse>,
}

/// A `type Name implements ... { fields }` definition.
pub struct ObjectType {
    pub position: Pos,
    pub description: Option<String>,
    pub name: String,
    pub implements_interfaces: Vec<String>,
    pub directives: Vec<DirectiveUse>,
    pub fields: Vec<FieldDefinition>,
}

/// An `interface Name { fields }` definition.
pub struct InterfaceType {
    pub position: Pos,
    pub description: Option<String>,
    pub name: String,
    pub directives: Vec<DirectiveUse>,
    pub fields: Vec<FieldDefinition>,
}

/// A `union Name = A | B` definition.
pub struct UnionType {
    pub position: Pos,
    pub description: Option<String>,
    pub name: String,
    pub directives: Vec<DirectiveUse>,
    pub types: Vec<String>,
}

/// An `enum Name { VALUES }` definition.
pub struct EnumType {
    pub position: Pos,
    pub description: Option<String>,
    pub name: String,
    pub directives: Vec<DirectiveUse>,
    pub values: Vec<EnumValueDef>,
}

/// One value of an enum definition.
pub struct EnumValueDef {
    pub position: Pos,
    pub description: Option<String>,
    pub name: String,
    pub directives: Vec<DirectiveUse>,
}

/// An `input Name { fields }` definition.
pub struct InputObjectType {
    pub position: Pos,
    pub description: Option<String>,
    pub name: String,
    pub directives: Vec<DirectiveUse>,
    pub fields: Vec<InputValueDef>,
}

/// One field of an object or interface definition.
pub struct FieldDefinition {
    pub position: Pos,
    pub description: Option<String>,
    pub name: String,
    pub arguments: Vec<InputValueDef>,
    pub field_type: SchemaTypeRef,
    pub directives: Vec<DirectiveUse>,
}

/// One argument declaration or input-object field: a named, typed slot
/// with an optional default.
pub struct InputValueDef {
    pub position: Pos,
    pub description: Option<String>,
    pub name: String,
    pub value_type: SchemaTypeRef,
    pub default_value: Option<Value>,
    pub directives: Vec<DirectiveUse>,
}

/// A directive usage site: `@name(arg: value, ...)`.
pub struct DirectiveUse {
    pub position: Pos,
    pub name: String,
    pub arguments: Vec<(String, Value)>,
}

/// A type reference as the grammar writes it: non-null is explicit,
/// everything else is nullable by default.
pub enum SchemaTypeRef {
    Named(String),
    List(Box<SchemaTypeRef>),
    NonNull(Box<SchemaTypeRef>),
}

/// A literal value in the document. A float literal is carried as its
/// source text: this compiler never computes on it, only re-emits it.
pub enum Value {
    Variable(String),
    Int(i64),
    Float(String),
    Str(String),
    Boolean(bool),
    Null,
    Enum(String),
    List(Vec<Value>),
    Object(Vec<(String, Value)>),
}

impl SchemaTypeRef {
    /// The innermost named type of a reference.
    pub open spec fn spec_base(self) -> String
        decreases self,
    {
        match self {
            SchemaTypeRef::Named(n) => n,
            SchemaTypeRef::List(inner) => inner.spec_base(),
            SchemaTypeRef::NonNull(inner) => inner.spec_base(),
        }
    }

    /// The innermost named type of a reference.
    pub fn base_name(&self) -> (r: &String)
        ensures
            *r == self.spec_base(),
        decreases self,
    {
        match self {
            SchemaTypeRef::Named(n) => n,
            SchemaTypeRef::List(inner) => inner.base_name(),
            SchemaTypeRef::NonNull(inner) => inner.base_name(),
        }
    }
}

} // verus!
