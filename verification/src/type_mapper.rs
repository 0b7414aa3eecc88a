//! The type mapper: from a parsed schema type reference, through the
//! nullability inversion, to the internal type model, classifying the
//! underlying name against the symbol table and checking that reserved
//! scalar concepts were declared.

use vstd::prelude::*;
use crate::ast::SchemaTypeRef;
use crate::error::Error;
use crate::error::ErrorKind;
use crate::error::Pos;
use crate::nullable_type::NullableType;
use crate::rust_type::BuiltinScalar;
use crate::rust_type::ScalarRepr;
use crate::rust_type::Type;
use crate::symbol_table::AstData;
use crate::symbol_table::DateTimeScalarDefinition;
use crate::symbol_table::DefinedKind;
use crate::symbol_table::s_lookup_kind;
use crate::text::str_eq;

verus! {

/// How a plain named type classifies: a fixed built-in scalar mapping, or
/// whatever kind the symbol table records, falling back to an object
/// reference for names the document never declares.
pub open spec fn s_classify_name(table: AstData, name: String) -> Type {
    if name@ == "String"@ {
        Type::Scalar(ScalarRepr::Builtin(BuiltinScalar::Str))
    } else if name@ == "Float"@ {
        Type::Scalar(ScalarRepr::Builtin(BuiltinScalar::Float))
    } else if name@ == "Int"@ {
        Type::Scalar(ScalarRepr::Builtin(BuiltinScalar::Int))
    } else if name@ == "Boolean"@ {
        Type::Scalar(ScalarRepr::Builtin(BuiltinScalar::Boolean))
    } else if name@ == "ID"@ {
        Type::Scalar(ScalarRepr::Builtin(BuiltinScalar::Id))
    } else {
        match s_lookup_kind(table.kinds@, name@) {
            Some(DefinedKind::Scalar) => Type::Scalar(ScalarRepr::Custom(name)),
            Some(DefinedKind::Enum) => Type::Enum(name),
            Some(DefinedKind::Union) => Type::Union(name),
            Some(DefinedKind::Interface) => Type::Interface(name),
            None => Type::Object(name),
        }
    }
}

/// A named type mapped to the model: the four reserved scalar names map to
/// their fixed concepts and require the matching declaration, everything
/// else classifies through the table. Even when a required declaration is
/// missing the expected concrete type is returned, so downstream emission
/// stays well typed under error.
pub open spec fn s_map_named(table: AstData, name: String, pos: Pos) -> (Type, Seq<Error>) {
    if name@ == "Url"@ {
        (
            Type::Scalar(ScalarRepr::Builtin(BuiltinScalar::Url)),
            if table.url_scalar_present {
                Seq::empty()
            } else {
                seq![Error { pos, kind: ErrorKind::UrlScalarNotDefined }]
            },
        )
    } else if name@ == "Uuid"@ {
        (
            Type::Scalar(ScalarRepr::Builtin(BuiltinScalar::Uuid)),
            if table.uuid_scalar_present {
                Seq::empty()
            } else {
                seq![Error { pos, kind: ErrorKind::UuidScalarNotDefined }]
            },
        )
    } else if name@ == "Date"@ {
        (
            Type::Scalar(ScalarRepr::Builtin(BuiltinScalar::Date)),
            if table.date_scalar_present {
                Seq::empty()
            } else {
                seq![Error { pos, kind: ErrorKind::DateScalarNotDefined }]
            },
        )
    } else if name@ == "DateTime"@ {
        match table.date_time_scalar {
            Some(DateTimeScalarDefinition::WithTimeZone) => (
                Type::Scalar(ScalarRepr::Builtin(BuiltinScalar::DateTimeWithTimeZone)),
                Seq::empty(),
            ),
            Some(DateTimeScalarDefinition::WithoutTimeZone) => (
                Type::Scalar(ScalarRepr::Builtin(BuiltinScalar::DateTimeWithoutTimeZone)),
                Seq::empty(),
            ),
            None => (
                Type::Scalar(ScalarRepr::Builtin(BuiltinScalar::DateTimeWithTimeZone)),
                seq![Error { pos, kind: ErrorKind::DateTimeScalarNotDefined }],
            ),
        }
    } else {
        (s_classify_name(table, name), Seq::empty())
    }
}

/// The mapping over the inverted type: wrappers map structurally, and the
/// as-ref request wraps a borrow marker directly inside the outermost list
/// or nullable wrapper only — it never propagates deeper, and a bare named
/// type ignores it.
pub open spec fn s_map_nullable(table: AstData, t: NullableType, as_ref: bool, pos: Pos) -> (
    Type,
    Seq<Error>,
)
    decreases t,
{
    match t {
        NullableType::Named(name) => s_map_named(table, name, pos),
        NullableType::List(inner) => {
            let r = s_map_nullable(table, *inner, false, pos);
            (
                if as_ref {
                    Type::List(Box::new(Type::Ref(Box::new(r.0))))
                } else {
                    Type::List(Box::new(r.0))
                },
                r.1,
            )
        },
        NullableType::Nullable(inner) => {
            let r = s_map_nullable(table, *inner, false, pos);
            (
                if as_ref {
                    Type::Nullable(Box::new(Type::Ref(Box::new(r.0))))
                } else {
                    Type::Nullable(Box::new(r.0))
                },
                r.1,
            )
        },
    }
}

/// The whole mapping of a schema type reference.
pub open spec fn s_map_schema_type(table: AstData, t: SchemaTypeRef, as_ref: bool, pos: Pos) -> (
    Type,
    Seq<Error>,
) {
    s_map_nullable(table, NullableType::spec_from_schema_type(t), as_ref, pos)
}

/// Classifies one named type.
fn classify_name(table: &AstData, name: &String) -> (r: Type)
    ensures
        r == s_classify_name(*table, *name),
{
    if str_eq(name.as_str(), "String") {
        Type::Scalar(ScalarRepr::Builtin(BuiltinScalar::Str))
    } else if str_eq(name.as_str(), "Float") {
        Type::Scalar(ScalarRepr::Builtin(BuiltinScalar::Float))
    } else if str_eq(name.as_str(), "Int") {
        Type::Scalar(ScalarRepr::Builtin(BuiltinScalar::Int))
    } else if str_eq(name.as_str(), "Boolean") {
        Type::Scalar(ScalarRepr::Builtin(BuiltinScalar::Boolean))
    } else if str_eq(name.as_str(), "ID") {
        Type::Scalar(ScalarRepr::Builtin(BuiltinScalar::Id))
    } else {
        match table.lookup_kind(name.as_str()) {
            Some(DefinedKind::Scalar) => Type::Scalar(ScalarRepr::Custom(name.clone())),
            Some(DefinedKind::Enum) => Type::Enum(name.clone()),
            Some(DefinedKind::Union) => Type::Union(name.clone()),
            Some(DefinedKind::Interface) => Type::Interface(name.clone()),
            None => Type::Object(name.clone()),
        }
    }
}

/// Maps one named type, checking reserved scalar declarations.
fn map_named(table: &AstData, name: &String, pos: Pos, errs: &mut Vec<Error>) -> (r: Type)
    ensures
        r == s_map_named(*table, *name, pos).0,
        final(errs)@ == old(errs)@ + s_map_named(*table, *name, pos).1,
{
    if str_eq(name.as_str(), "Url") {
        if !table.url_scalar_defined() {
            errs.push(Error { pos, kind: ErrorKind::UrlScalarNotDefined });
        }
        Type::Scalar(ScalarRepr::Builtin(BuiltinScalar::Url))
    } else if str_eq(name.as_str(), "Uuid") {
        if !table.uuid_scalar_defined() {
            errs.push(Error { pos, kind: ErrorKind::UuidScalarNotDefined });
        }
        Type::Scalar(ScalarRepr::Builtin(BuiltinScalar::Uuid))
    } else if str_eq(name.as_str(), "Date") {
        if !table.date_scalar_defined() {
            errs.push(Error { pos, kind: ErrorKind::DateScalarNotDefined });
        }
        Type::Scalar(ScalarRepr::Builtin(BuiltinScalar::Date))
    } else if str_eq(name.as_str(), "DateTime") {
        match table.date_time_scalar_definition() {
            Some(DateTimeScalarDefinition::WithTimeZone) => {
                Type::Scalar(ScalarRepr::Builtin(BuiltinScalar::DateTimeWithTimeZone))
            },
            Some(DateTimeScalarDefinition::WithoutTimeZone) => {
                Type::Scalar(ScalarRepr::Builtin(BuiltinScalar::DateTimeWithoutTimeZone))
            },
            None => {
                errs.push(Error { pos, kind: ErrorKind::DateTimeScalarNotDefined });
                Type::Scalar(ScalarRepr::Builtin(BuiltinScalar::DateTimeWithTimeZone))
            },
        }
    } else {
        classify_name(table, name)
    }
}

/// Maps an inverted type reference to the internal model.
fn map_nullable(table: &AstData, t: &NullableType, as_ref: bool, pos: Pos, errs: &mut Vec<
    Error,
>) -> (r: Type)
    ensures
        r == s_map_nullable(*table, *t, as_ref, pos).0,
        final(errs)@ == old(errs)@ + s_map_nullable(*table, *t, as_ref, pos).1,
    decreases t,
{
    match t {
        NullableType::Named(name) => map_named(table, name, pos, errs),
        NullableType::List(inner) => {
            let mapped = map_nullable(table, inner, false, pos, errs);
            if as_ref {
                Type::List(Box::new(Type::Ref(Box::new(mapped))))
            } else {
                Type::List(Box::new(mapped))
            }
        },
        NullableType::Nullable(inner) => {
            let mapped = map_nullable(table, inner, false, pos, errs);
            if as_ref {
                Type::Nullable(Box::new(Type::Ref(Box::new(mapped))))
            } else {
                Type::Nullable(Box::new(mapped))
            }
        },
    }
}

/// Maps a parsed schema type reference to the internal model, inverting
/// the grammar's non-null polarity first.
pub fn graphql_type_to_rust_type(
    table: &AstData,
    graphql_type: &SchemaTypeRef,
    as_ref: bool,
    pos: Pos,
    errs: &mut Vec<Error>,
) -> (r: Type)
    ensures
        r == s_map_schema_type(*table, *graphql_type, as_ref, pos).0,
        final(errs)@ == old(errs)@ + s_map_schema_type(*table, *graphql_type, as_ref, pos).1,
{
    let inverted = NullableType::from_schema_type(graphql_type);
    map_nullable(table, &inverted, as_ref, pos, errs)
}

/// Mapping a type reference is a pure function of the symbol table, the
/// reference, the borrow request and the position: any two results that
/// satisfy the mapper's contract agree in both the mapped type and the
/// diagnostics, so repeated runs over one table classify identically.
pub proof fn lemma_type_mapping_deterministic(
    table: AstData,
    t: SchemaTypeRef,
    as_ref: bool,
    pos: Pos,
    r1: (Type, Seq<Error>),
    r2: (Type, Seq<Error>),
)
    requires
        r1 == s_map_schema_type(table, t, as_ref, pos),
        r2 == s_map_schema_type(table, t, as_ref, pos),
    ensures
        r1 == r2,
{
}

/// When the shape a reference maps to cannot hold a borrow, the borrow
/// request is ignored: mapping with it yields exactly the type and the
/// diagnostics of mapping without it.
pub proof fn lemma_unsupported_as_ref_ignored(table: AstData, t: SchemaTypeRef, pos: Pos)
    requires
        !s_map_schema_type(table, t, false, pos).0.spec_supports_as_ref(),
    ensures
        s_map_schema_type(table, t, true, pos) == s_map_schema_type(table, t, false, pos),
{
    let inverted = NullableType::spec_from_schema_type(t);
    match inverted {
        NullableType::Named(_) => {},
        NullableType::List(_) => {
            assert(s_map_nullable(table, inverted, false, pos).0 is List);
        },
        NullableType::Nullable(_) => {
            assert(s_map_nullable(table, inverted, false, pos).0 is Nullable);
        },
    }
}

} // verus!
