//! The internal type model: the single recursive representation every
//! schema type reference compiles to, together with the structural tests
//! the field and entity compilers ask of it.

use vstd::prelude::*;

verus! {

/// The target representation of a built-in or reserved scalar concept.
#[derive(Clone, Copy, PartialEq, Eq, Structural, Debug)]
pub enum BuiltinScalar {
    /// GraphQL `String`.
    Str,
    /// GraphQL `Float`.
    Float,
    /// GraphQL `Int`.
    Int,
    /// GraphQL `Boolean`.
    Boolean,
    /// GraphQL `ID`.
    Id,
    /// The reserved URL scalar.
    Url,
    /// The reserved UUID scalar.
    Uuid,
    /// The reserved date scalar.
    Date,
    /// The reserved date-time scalar, carrying a time zone.
    DateTimeWithTimeZone,
    /// The reserved date-time scalar, without a time zone.
    DateTimeWithoutTimeZone,
}

/// What a scalar-shaped leaf stands for: a fixed built-in mapping or a
/// user-declared scalar by name.
pub enum ScalarRepr {
    Builtin(BuiltinScalar),
    Custom(String),
}

/// The recursive type model. `Ref` is a borrow marker that the as-ref
/// transform introduces directly inside a `List` or `Nullable` wrapper.
pub enum Type {
    Scalar(ScalarRepr),
    Enum(String),
    Union(String),
    Interface(String),
    Object(String),
    Ref(Box<Type>),
    List(Box<Type>),
    Nullable(Box<Type>),
}

/// The two classifications a resolved type can have: a leaf carried by
/// value (scalars and enums) or a composite the runtime resolves further.
#[derive(Clone, Copy, PartialEq, Eq, Structural, Debug)]
pub enum TypeKind {
    Scalar,
    Type,
}

impl Clone for ScalarRepr {
    fn clone(&self) -> (res: Self)
        ensures
            res == *self,
    {
        match self {
            ScalarRepr::Builtin(b) => ScalarRepr::Builtin(*b),
            ScalarRepr::Custom(n) => ScalarRepr::Custom(n.clone()),
        }
    }
}

impl Clone for Type {
    fn clone(&self) -> (res: Self)
        ensures
            res == *self,
        decreases self,
    {
        match self {
            Type::Scalar(s) => Type::Scalar(s.clone()),
            Type::Enum(n) => Type::Enum(n.clone()),
            Type::Union(n) => Type::Union(n.clone()),
            Type::Interface(n) => Type::Interface(n.clone()),
            Type::Object(n) => Type::Object(n.clone()),
            Type::Ref(inner) => Type::Ref(Box::new((**inner).clone())),
            Type::List(inner) => Type::List(Box::new((**inner).clone())),
            Type::Nullable(inner) => Type::Nullable(Box::new((**inner).clone())),
        }
    }
}

impl Type {
    /// Whether the outermost wrapper is nullable.
    pub open spec fn spec_is_nullable(self) -> bool {
        self is Nullable
    }

    /// Whether the outermost wrapper is nullable.
    pub fn is_nullable(&self) -> (r: bool)
        ensures
            r == self.spec_is_nullable(),
    {
        match self {
            Type::Nullable(_) => true,
            _ => false,
        }
    }

    /// Only container shapes can hold borrowed contents: the as-ref
    /// transform is meaningful on a list or nullable wrapper and on
    /// nothing else.
    pub open spec fn spec_supports_as_ref(self) -> bool {
        self is List || self is Nullable
    }

    /// Whether the as-ref ownership transform applies to this shape.
    pub fn supports_as_ref(&self) -> (r: bool)
        ensures
            r == self.spec_supports_as_ref(),
    {
        match self {
            Type::List(_) => true,
            Type::Nullable(_) => true,
            _ => false,
        }
    }

    /// One nullable wrapper removed, if present.
    pub open spec fn spec_remove_one_layer_of_nullability(self) -> Type {
        match self {
            Type::Nullable(inner) => *inner,
            other => other,
        }
    }

    /// Removes one nullable wrapper by value.
    pub fn remove_one_layer_of_nullability_by_value(self) -> (r: Box<Type>)
        ensures
            *r == self.spec_remove_one_layer_of_nullability(),
    {
        match self {
            Type::Nullable(inner) => inner,
            other => Box::new(other),
        }
    }

    /// Removes one nullable wrapper by reference.
    pub fn remove_one_layer_of_nullability(&self) -> (r: &Type)
        ensures
            *r == self.spec_remove_one_layer_of_nullability(),
    {
        match self {
            Type::Nullable(inner) => inner,
            other => other,
        }
    }

    /// The classification of the underlying named type, looking through
    /// every wrapper: scalars and enums are leaves, everything else is a
    /// composite.
    pub open spec fn spec_kind(self) -> TypeKind
        decreases self,
    {
        match self {
            Type::Scalar(_) => TypeKind::Scalar,
            Type::Enum(_) => TypeKind::Scalar,
            Type::Union(_) => TypeKind::Type,
            Type::Object(_) => TypeKind::Type,
            Type::Interface(_) => TypeKind::Type,
            Type::Ref(inner) => inner.spec_kind(),
            Type::List(inner) => inner.spec_kind(),
            Type::Nullable(inner) => inner.spec_kind(),
        }
    }

    /// The classification of the underlying named type.
    pub fn kind(&self) -> (r: TypeKind)
        ensures
            r == self.spec_kind(),
        decreases self,
    {
        match self {
            Type::Scalar(_) => TypeKind::Scalar,
            Type::Enum(_) => TypeKind::Scalar,
            Type::Union(_) => TypeKind::Type,
            Type::Object(_) => TypeKind::Type,
            Type::Interface(_) => TypeKind::Type,
            Type::Ref(inner) => inner.kind(),
            Type::List(inner) => inner.kind(),
            Type::Nullable(inner) => inner.kind(),
        }
    }

    /// The leaf under every `Ref`, `List` and `Nullable` wrapper.
    pub open spec fn spec_innermost_type(self) -> Type
        decreases self,
    {
        match self {
            Type::Ref(inner) => inner.spec_innermost_type(),
            Type::List(inner) => inner.spec_innermost_type(),
            Type::Nullable(inner) => inner.spec_innermost_type(),
            other => other,
        }
    }

    /// The leaf under every wrapper.
    pub fn innermost_type(&self) -> (r: &Type)
        ensures
            *r == self.spec_innermost_type(),
        decreases self,
    {
        match self {
            Type::Ref(inner) => inner.innermost_type(),
            Type::List(inner) => inner.innermost_type(),
            Type::Nullable(inner) => inner.innermost_type(),
            other => other,
        }
    }
}

/// Unwrapping a type model always terminates on a named leaf: the innermost
/// type is never a list, a nullable wrapper, or a borrow marker.
pub proof fn lemma_innermost_type_is_leaf(t: Type)
    ensures
        !(t.spec_innermost_type() is List),
        !(t.spec_innermost_type() is Nullable),
        !(t.spec_innermost_type() is Ref),
    decreases t,
{
    match t {
        Type::Ref(inner) => lemma_innermost_type_is_leaf(*inner),
        Type::List(inner) => lemma_innermost_type_is_leaf(*inner),
        Type::Nullable(inner) => lemma_innermost_type_is_leaf(*inner),
        _ => {},
    }
}

} // verus!
