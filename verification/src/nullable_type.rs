//! The nullability inversion: the parsed grammar marks *non-null*
//! explicitly and leaves everything else nullable; this algebra inverts the
//! polarity so that nullable is the explicit wrapper and a bare shape is
//! non-null.

use vstd::prelude::*;
use crate::ast::SchemaTypeRef;

verus! {

/// A type reference after inversion: nullability is the explicit wrapper.
pub enum NullableType {
    Named(String),
    List(Box<NullableType>),
    Nullable(Box<NullableType>),
}

impl NullableType {
    /// Removes one outer nullable wrapper, if present.
    pub open spec fn spec_strip(n: NullableType) -> NullableType {
        match n {
            NullableType::Nullable(inner) => *inner,
            other => other,
        }
    }

    /// The inversion itself: total over the grammar, one output shape per
    /// input shape. A named or list shape becomes nullable unless a
    /// non-null marker strips the wrapper again.
    pub open spec fn spec_from_schema_type(t: SchemaTypeRef) -> NullableType
        decreases t,
    {
        match t {
            SchemaTypeRef::Named(n) => NullableType::Nullable(Box::new(NullableType::Named(n))),
            SchemaTypeRef::List(inner) => NullableType::Nullable(
                Box::new(NullableType::List(Box::new(Self::spec_from_schema_type(*inner)))),
            ),
            SchemaTypeRef::NonNull(inner) => Self::spec_strip(
                Self::spec_from_schema_type(*inner),
            ),
        }
    }

    /// Inverts a parsed type reference.
    pub fn from_schema_type(t: &SchemaTypeRef) -> (r: NullableType)
        ensures
            r == Self::spec_from_schema_type(*t),
        decreases t,
    {
        match t {
            SchemaTypeRef::Named(n) => NullableType::Nullable(
                Box::new(NullableType::Named(n.clone())),
            ),
            SchemaTypeRef::List(inner) => NullableType::Nullable(
                Box::new(NullableType::List(Box::new(Self::from_schema_type(inner)))),
            ),
            SchemaTypeRef::NonNull(inner) => {
                let converted = Self::from_schema_type(inner);
                match converted {
                    NullableType::Nullable(x) => *x,
                    other => other,
                }
            },
        }
    }
}

} // verus!
