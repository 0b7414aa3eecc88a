//! The field compiler: one schema field, with its arguments and
//! directives, compiled into the internal field model — argument types and
//! translated defaults, the return type after the nullability and as-ref
//! transforms, and the validated directive record for its location.

use vstd::prelude::*;
use crate::ast::FieldDefinition;
use crate::ast::InputValueDef;
use crate::directive_parsing::FieldDirectives;
use crate::directive_parsing::FieldLocation;
use crate::directive_parsing::parse_field_directives;
use crate::directive_parsing::s_parse_field_directives;
use crate::directive_parsing::s_validate_directive_for_field;
use crate::directive_parsing::validate_directive_for_field;
use crate::error::Error;
use crate::error::ErrorKind;
use crate::literal::LiteralExpr;
use crate::literal::LiteralModel;
use crate::literal::TranslationFailure;
use crate::literal::lit_view;
use crate::literal::quote_value;
use crate::literal::s_quote_value;
use crate::rust_type::Type;
use crate::symbol_table::AstData;
use crate::text::snake_of;
use crate::text::to_snake_case;
use crate::type_mapper::graphql_type_to_rust_type;
use crate::type_mapper::s_map_schema_type;

verus! {

/// One compiled field argument: its snake-cased name, its mapped type, and
/// its translated default, if any.
pub struct FieldArg {
    pub name: String,
    pub description: Option<String>,
    pub ty: Type,
    pub default_value: Option<LiteralExpr>,
}

/// The spec-level image of a compiled argument.
pub struct FieldArgModel {
    pub name: Seq<char>,
    pub description: Option<String>,
    pub ty: Type,
    pub default_value: Option<LiteralModel>,
}

/// The image of a compiled argument.
pub open spec fn arg_view(a: FieldArg) -> FieldArgModel {
    FieldArgModel {
        name: a.name@,
        description: a.description,
        ty: a.ty,
        default_value: match a.default_value {
            Some(l) => Some(lit_view(l)),
            None => None,
        },
    }
}

/// One compiled field: its snake-cased name, compiled arguments, mapped
/// return type, and parsed directives.
pub struct Field {
    pub description: Option<String>,
    pub name: String,
    pub args: Vec<FieldArg>,
    pub return_type: Type,
    pub directives: FieldDirectives,
}

/// The spec-level image of a compiled field.
pub struct FieldModel {
    pub description: Option<String>,
    pub name: Seq<char>,
    pub args: Seq<FieldArgModel>,
    pub return_type: Type,
    pub directives: FieldDirectives,
}

/// The image of a compiled field.
pub open spec fn field_view(f: Field) -> FieldModel {
    FieldModel {
        description: f.description,
        name: f.name@,
        args: Seq::new(f.args@.len(), |i: int| arg_view(f.args@[i])),
        return_type: f.return_type,
        directives: f.directives,
    }
}

/// One argument compiled: its default translated against the argument's
/// innermost type name, its type mapped, and a default on a non-nullable
/// type diagnosed.
pub open spec fn s_compile_arg(table: AstData, arg: InputValueDef) -> (
    Result<FieldArgModel, TranslationFailure>,
    Seq<Error>,
) {
    let dv = match arg.default_value {
        None => (Ok(None), Seq::<Error>::empty()),
        Some(v) => {
            let q = s_quote_value(table, v, arg.value_type.spec_base(), arg.position);
            (
                match q.0 {
                    Ok(m) => Ok(Some(m)),
                    Err(f) => Err(f),
                },
                q.1,
            )
        },
    };
    match dv.0 {
        Err(f) => (Err(f), dv.1),
        Ok(dm) => {
            let m = s_map_schema_type(table, arg.value_type, false, arg.position);
            let nn_err = if dm is Some && !m.0.spec_is_nullable() {
                seq![Error { pos: arg.position, kind: ErrorKind::NonnullableFieldWithDefaultValue }]
            } else {
                Seq::<Error>::empty()
            };
            (
                Ok(
                    FieldArgModel {
                        name: snake_of(arg.name@),
                        description: arg.description,
                        ty: m.0,
                        default_value: dm,
                    },
                ),
                dv.1 + m.1 + nn_err,
            )
        },
    }
}

/// The arguments of a field compiled in order from index `i`; the first
/// fatal condition aborts the field.
pub open spec fn s_compile_args(table: AstData, args: Vec<InputValueDef>, i: int) -> (
    Result<Seq<FieldArgModel>, TranslationFailure>,
    Seq<Error>,
)
    decreases args@.len() - i,
{
    if i < 0 || i >= args@.len() {
        (Ok(Seq::empty()), Seq::empty())
    } else {
        let head = s_compile_arg(table, args@[i]);
        match head.0 {
            Err(f) => (Err(f), head.1),
            Ok(m) => {
                let rest = s_compile_args(table, args, i + 1);
                (
                    match rest.0 {
                        Err(f) => Err(f),
                        Ok(ms) => Ok(seq![m] + ms),
                    },
                    head.1 + rest.1,
                )
            },
        }
    }
}

/// One field compiled at its location: directives parsed and validated,
/// arguments compiled, the return type mapped with the as-ref transform
/// exactly when the directives request it, and a request on a shape that
/// cannot hold a borrow diagnosed.
pub open spec fn s_compile_field(table: AstData, f: FieldDefinition, loc: FieldLocation) -> (
    Result<FieldModel, TranslationFailure>,
    Seq<Error>,
) {
    let pd = s_parse_field_directives(f.directives@);
    let vd = s_validate_directive_for_field(pd.0, loc, f.position);
    let args = s_compile_args(table, f.arguments, 0);
    match args.0 {
        Err(fl) => (Err(fl), pd.1 + vd + args.1),
        Ok(ams) => {
            let rt = s_map_schema_type(table, f.field_type, pd.0.ownership is AsRef, f.position);
            let asref_err = if pd.0.ownership is AsRef && !rt.0.spec_supports_as_ref() {
                seq![Error { pos: f.position, kind: ErrorKind::AsRefOwnershipForNamedType }]
            } else {
                Seq::<Error>::empty()
            };
            (
                Ok(
                    FieldModel {
                        description: f.description,
                        name: snake_of(f.name@),
                        args: ams,
                        return_type: rt.0,
                        directives: pd.0,
                    },
                ),
                pd.1 + vd + args.1 + rt.1 + asref_err,
            )
        },
    }
}

/// Compiles one argument.
fn compile_arg(table: &AstData, arg: &InputValueDef, errs: &mut Vec<Error>) -> (r: Result<
    FieldArg,
    TranslationFailure,
>)
    ensures
        (match r {
            Ok(a) => s_compile_arg(*table, *arg).0 == Ok::<_, TranslationFailure>(arg_view(a)),
            Err(f) => s_compile_arg(*table, *arg).0 == Err::<FieldArgModel, _>(f),
        }),
        final(errs)@ == old(errs)@ + s_compile_arg(*table, *arg).1,
{
    let ghost begin = errs@;
    let default_value: Option<LiteralExpr> = match &arg.default_value {
        None => None,
        Some(v) => {
            let tn = arg.value_type.base_name();
            let translated = quote_value(table, v, tn, arg.position, errs);
            match translated {
                Ok(l) => Some(l),
                Err(f) => {
                    return Err(f);
                },
            }
        },
    };
    let ty = graphql_type_to_rust_type(table, &arg.value_type, false, arg.position, errs);
    if default_value.is_some() && !ty.is_nullable() {
        errs.push(
            Error { pos: arg.position, kind: ErrorKind::NonnullableFieldWithDefaultValue },
        );
    }
    let a = FieldArg {
        name: to_snake_case(arg.name.as_str()),
        description: crate::text::clone_opt_string(&arg.description),
        ty,
        default_value,
    };
    proof {
        assert(errs@ =~= begin + s_compile_arg(*table, *arg).1);
    }
    Ok(a)
}

/// Compiles a field's argument list in order.
fn compile_args(table: &AstData, args: &Vec<InputValueDef>, errs: &mut Vec<Error>) -> (r: Result<
    Vec<FieldArg>,
    TranslationFailure,
>)
    ensures
        (match r {
            Ok(v) => s_compile_args(*table, *args, 0).0 == Ok::<_, TranslationFailure>(
                Seq::new(v@.len(), |i: int| arg_view(v@[i])),
            ),
            Err(f) => s_compile_args(*table, *args, 0).0 == Err::<Seq<FieldArgModel>, _>(f),
        }),
        final(errs)@ == old(errs)@ + s_compile_args(*table, *args, 0).1,
{
    let ghost total = s_compile_args(*table, *args, 0);
    let ghost mut emitted: Seq<Error> = Seq::empty();
    let mut out: Vec<FieldArg> = Vec::new();
    let mut k: usize = 0;
    proof {
        assert(errs@ =~= old(errs)@ + emitted);
        assert(Seq::new(out@.len(), |i: int| arg_view(out@[i])) =~= Seq::<FieldArgModel>::empty());
    }
    while k < args.len()
        invariant
            k <= args.len(),
            errs@ == old(errs)@ + emitted,
            total == s_compile_args(*table, *args, 0),
            total.0 == (match s_compile_args(*table, *args, k as int).0 {
                Ok(ms) => Ok::<_, TranslationFailure>(
                    Seq::new(out@.len(), |i: int| arg_view(out@[i])) + ms,
                ),
                Err(f) => Err(f),
            }),
            total.1 == emitted + s_compile_args(*table, *args, k as int).1,
        decreases args.len() - k,
    {
        let ghost head = s_compile_arg(*table, args@[k as int]);
        let compiled = compile_arg(table, &args[k], errs);
        proof {
            emitted = emitted + head.1;
            assert(errs@ =~= old(errs)@ + emitted);
        }
        match compiled {
            Err(f) => {
                proof {
                    assert(total.1 =~= emitted);
                }
                return Err(f);
            },
            Ok(a) => {
                let ghost out_before = out@;
                out.push(a);
                proof {
                    assert(Seq::new(out@.len(), |i: int| arg_view(out@[i])) =~= Seq::new(
                        out_before.len(),
                        |i: int| arg_view(out_before[i]),
                    ) + seq![arg_view(a)]);
                    let rest = s_compile_args(*table, *args, k as int + 1);
                    match rest.0 {
                        Ok(ms) => {
                            assert(Seq::new(out@.len(), |i: int| arg_view(out@[i])) + ms
                                =~= Seq::new(out_before.len(), |i: int| arg_view(out_before[i]))
                                + (seq![arg_view(a)] + ms));
                        },
                        Err(_) => {},
                    }
                    assert(emitted + rest.1 =~= total.1);
                }
            },
        }
        k += 1;
    }
    proof {
        assert(s_compile_args(*table, *args, args@.len() as int).0 == Ok::<_, TranslationFailure>(
            Seq::<FieldArgModel>::empty(),
        ));
        assert(Seq::new(out@.len(), |i: int| arg_view(out@[i])) + Seq::<FieldArgModel>::empty()
            =~= Seq::new(out@.len(), |i: int| arg_view(out@[i])));
        assert(total.1 =~= emitted);
    }
    Ok(out)
}

/// Compiles one field definition at its location.
pub fn graphql_field_to_rust_field(
    table: &AstData,
    f: &FieldDefinition,
    field_location: FieldLocation,
    errs: &mut Vec<Error>,
) -> (r: Result<Field, TranslationFailure>)
    ensures
        (match r {
            Ok(fm) => s_compile_field(*table, *f, field_location).0 == Ok::<_, TranslationFailure>(
                field_view(fm),
            ),
            Err(fl) => s_compile_field(*table, *f, field_location).0 == Err::<FieldModel, _>(fl),
        }),
        final(errs)@ == old(errs)@ + s_compile_field(*table, *f, field_location).1,
{
    let ghost begin = errs@;
    let field_directives = parse_field_directives(&f.directives, errs);
    validate_directive_for_field(&field_directives, field_location, f.position, errs);
    let args = match compile_args(table, &f.arguments, errs) {
        Ok(v) => v,
        Err(fl) => {
            proof {
                assert(errs@ =~= begin + s_compile_field(*table, *f, field_location).1);
            }
            return Err(fl);
        },
    };
    let as_ref = field_directives.ownership.is_as_ref();
    let return_type = graphql_type_to_rust_type(table, &f.field_type, as_ref, f.position, errs);
    if as_ref && !return_type.supports_as_ref() {
        errs.push(Error { pos: f.position, kind: ErrorKind::AsRefOwnershipForNamedType });
    }
    let fm = Field {
        description: crate::text::clone_opt_string(&f.description),
        name: to_snake_case(f.name.as_str()),
        args,
        return_type,
        directives: field_directives,
    };
    proof {
        assert(errs@ =~= begin + s_compile_field(*table, *f, field_location).1);
        assert(s_compile_field(*table, *f, field_location).0 == Ok::<_, TranslationFailure>(
            field_view(fm),
        ));
    }
    Ok(fm)
}


/// How many diagnostics of the unsupported-as-ref kind a report holds.
pub open spec fn asref_count(s: Seq<Error>) -> int
    decreases s.len(),
{
    if s.len() == 0 {
        0
    } else {
        asref_count(s.drop_last()) + (if s.last().kind is AsRefOwnershipForNamedType {
            1int
        } else {
            0int
        })
    }
}

/// The count distributes over concatenation.
proof fn lemma_asref_count_concat(a: Seq<Error>, b: Seq<Error>)
    ensures
        asref_count(a + b) == asref_count(a) + asref_count(b),
    decreases b.len(),
{
    if b.len() == 0 {
        assert(a + b =~= a);
    } else {
        lemma_asref_count_concat(a, b.drop_last());
        assert((a + b).drop_last() =~= a + b.drop_last());
        assert((a + b).last() == b.last());
    }
}

/// A single diagnostic of another kind counts for nothing.
proof fn lemma_asref_count_singleton(e: Error)
    ensures
        asref_count(seq![e]) == (if e.kind is AsRefOwnershipForNamedType {
            1int
        } else {
            0int
        }),
{
    assert(seq![e].drop_last() =~= Seq::<Error>::empty());
    assert(asref_count(Seq::<Error>::empty()) == 0);
    assert(seq![e].last() == e);
}

/// Directive-usage parsing never reports the unsupported-as-ref kind:
/// one argument.
proof fn lemma_asref_count_juniper_arg(
    cur: FieldDirectives,
    pos: crate::error::Pos,
    name: String,
    value: crate::ast::Value,
)
    ensures
        asref_count(crate::directive_parsing::s_apply_juniper_arg(cur, pos, name, value).1) == 0,
{
    let r = crate::directive_parsing::s_apply_juniper_arg(cur, pos, name, value).1;
    if r.len() > 0 {
        lemma_asref_count_singleton(r.last());
        assert(r =~= seq![r.last()]);
    }
}

/// Directive-usage parsing never reports the unsupported-as-ref kind:
/// an argument list.
proof fn lemma_asref_count_juniper_args(
    cur: FieldDirectives,
    pos: crate::error::Pos,
    args: Seq<(String, crate::ast::Value)>,
)
    ensures
        asref_count(crate::directive_parsing::s_apply_juniper_args(cur, pos, args).1) == 0,
    decreases args.len(),
{
    if args.len() > 0 {
        let step = crate::directive_parsing::s_apply_juniper_arg(cur, pos, args[0].0, args[0].1);
        lemma_asref_count_juniper_arg(cur, pos, args[0].0, args[0].1);
        lemma_asref_count_juniper_args(step.0, pos, args.drop_first());
        lemma_asref_count_concat(
            step.1,
            crate::directive_parsing::s_apply_juniper_args(step.0, pos, args.drop_first()).1,
        );
    }
}

/// Directive-usage parsing never reports the unsupported-as-ref kind:
/// a whole directive list.
proof fn lemma_asref_count_field_directives(cur: FieldDirectives, dirs: Seq<crate::ast::DirectiveUse>)
    ensures
        asref_count(crate::directive_parsing::s_parse_field_directives_from(cur, dirs).1) == 0,
    decreases dirs.len(),
{
    if dirs.len() > 0 {
        let step = crate::directive_parsing::s_apply_field_directive(cur, dirs[0]);
        if dirs[0].name@ == "juniper"@ {
            lemma_asref_count_juniper_args(cur, dirs[0].position, dirs[0].arguments@);
        }
        lemma_asref_count_field_directives(step.0, dirs.drop_first());
        lemma_asref_count_concat(
            step.1,
            crate::directive_parsing::s_parse_field_directives_from(step.0, dirs.drop_first()).1,
        );
    }
}

/// Location validation never reports the unsupported-as-ref kind.
proof fn lemma_asref_count_location_validation(
    d: FieldDirectives,
    loc: FieldLocation,
    pos: crate::error::Pos,
)
    ensures
        asref_count(s_validate_directive_for_field(d, loc, pos)) == 0,
{
    let r = s_validate_directive_for_field(d, loc, pos);
    if r.len() == 1 {
        lemma_asref_count_singleton(r.last());
        assert(r =~= seq![r.last()]);
    } else if r.len() == 2 {
        lemma_asref_count_singleton(r[0]);
        lemma_asref_count_singleton(r[1]);
        assert(r =~= seq![r[0]] + seq![r[1]]);
        lemma_asref_count_concat(seq![r[0]], seq![r[1]]);
    }
}

/// The type mapper never reports the unsupported-as-ref kind: a named
/// type.
proof fn lemma_asref_count_map_named(table: AstData, name: String, pos: crate::error::Pos)
    ensures
        asref_count(crate::type_mapper::s_map_named(table, name, pos).1) == 0,
{
    let r = crate::type_mapper::s_map_named(table, name, pos).1;
    if r.len() > 0 {
        lemma_asref_count_singleton(r.last());
        assert(r =~= seq![r.last()]);
    }
}

/// The type mapper never reports the unsupported-as-ref kind: any shape.
proof fn lemma_asref_count_map_nullable(
    table: AstData,
    t: crate::nullable_type::NullableType,
    as_ref: bool,
    pos: crate::error::Pos,
)
    ensures
        asref_count(crate::type_mapper::s_map_nullable(table, t, as_ref, pos).1) == 0,
    decreases t,
{
    match t {
        crate::nullable_type::NullableType::Named(name) => {
            lemma_asref_count_map_named(table, name, pos);
        },
        crate::nullable_type::NullableType::List(inner) => {
            lemma_asref_count_map_nullable(table, *inner, false, pos);
        },
        crate::nullable_type::NullableType::Nullable(inner) => {
            lemma_asref_count_map_nullable(table, *inner, false, pos);
        },
    }
}

/// The literal translator never reports the unsupported-as-ref kind: one
/// literal.
proof fn lemma_asref_count_quote_value(
    table: AstData,
    v: crate::ast::Value,
    tn: String,
    pos: crate::error::Pos,
)
    ensures
        asref_count(s_quote_value(table, v, tn, pos).1) == 0,
    decreases v,
{
    match v {
        crate::ast::Value::List(items) => {
            lemma_asref_count_quote_list(table, items, 0, tn, pos);
        },
        crate::ast::Value::Object(pairs) => {
            lemma_asref_count_quote_pairs(table, pairs, 0, tn, pos);
        },
        crate::ast::Value::Variable(_) => {
            let r = s_quote_value(table, v, tn, pos).1;
            lemma_asref_count_singleton(r.last());
            assert(r =~= seq![r.last()]);
        },
        _ => {},
    }
}

/// The literal translator never reports the unsupported-as-ref kind: a
/// list literal.
proof fn lemma_asref_count_quote_list(
    table: AstData,
    items: Vec<crate::ast::Value>,
    i: int,
    tn: String,
    pos: crate::error::Pos,
)
    ensures
        asref_count(crate::literal::s_quote_list(table, items, i, tn, pos).1) == 0,
    decreases items, items@.len() - i,
{
    if 0 <= i < items@.len() {
        lemma_asref_count_quote_value(table, items@[i], tn, pos);
        let head = s_quote_value(table, items@[i], tn, pos);
        match head.0 {
            Err(_) => {},
            Ok(_) => {
                lemma_asref_count_quote_list(table, items, i + 1, tn, pos);
                lemma_asref_count_concat(
                    head.1,
                    crate::literal::s_quote_list(table, items, i + 1, tn, pos).1,
                );
            },
        }
    }
}

/// The literal translator never reports the unsupported-as-ref kind: an
/// object literal's given fields.
proof fn lemma_asref_count_quote_pairs(
    table: AstData,
    pairs: Vec<(String, crate::ast::Value)>,
    i: int,
    tn: String,
    pos: crate::error::Pos,
)
    ensures
        asref_count(crate::literal::s_quote_object_pairs(table, pairs, i, tn, pos).1) == 0,
    decreases pairs, pairs@.len() - i,
{
    if 0 <= i < pairs@.len() {
        match crate::symbol_table::s_lookup_input_field(table.input_fields@, tn@, pairs@[i].0@) {
            None => {},
            Some(info) => {
                lemma_asref_count_quote_value(table, pairs@[i].1, info.value_type_name, pos);
                let head = s_quote_value(table, pairs@[i].1, info.value_type_name, pos);
                match head.0 {
                    Err(_) => {},
                    Ok(_) => {
                        lemma_asref_count_quote_pairs(table, pairs, i + 1, tn, pos);
                        lemma_asref_count_concat(
                            head.1,
                            crate::literal::s_quote_object_pairs(table, pairs, i + 1, tn, pos).1,
                        );
                    },
                }
            },
        }
    }
}

/// Argument compilation never reports the unsupported-as-ref kind: one
/// argument.
proof fn lemma_asref_count_compile_arg(table: AstData, arg: InputValueDef)
    ensures
        asref_count(s_compile_arg(table, arg).1) == 0,
{
    match arg.default_value {
        None => {},
        Some(v) => {
            lemma_asref_count_quote_value(table, v, arg.value_type.spec_base(), arg.position);
        },
    }
    let dv = match arg.default_value {
        None => (Ok::<Option<crate::literal::LiteralModel>, crate::literal::TranslationFailure>(
            None,
        ), Seq::<Error>::empty()),
        Some(v) => {
            let q = s_quote_value(table, v, arg.value_type.spec_base(), arg.position);
            (
                match q.0 {
                    Ok(m) => Ok(Some(m)),
                    Err(f) => Err(f),
                },
                q.1,
            )
        },
    };
    match dv.0 {
        Err(_) => {},
        Ok(dm) => {
            lemma_asref_count_map_nullable(
                table,
                crate::nullable_type::NullableType::spec_from_schema_type(arg.value_type),
                false,
                arg.position,
            );
            let m = s_map_schema_type(table, arg.value_type, false, arg.position);
            let nn_err: Seq<Error> = if dm is Some && !m.0.spec_is_nullable() {
                seq![
                    Error {
                        pos: arg.position,
                        kind: ErrorKind::NonnullableFieldWithDefaultValue,
                    },
                ]
            } else {
                Seq::empty()
            };
            if nn_err.len() > 0 {
                lemma_asref_count_singleton(nn_err.last());
                assert(nn_err =~= seq![nn_err.last()]);
            }
            lemma_asref_count_concat(dv.1, m.1);
            lemma_asref_count_concat(dv.1 + m.1, nn_err);
        },
    }
}

/// Argument compilation never reports the unsupported-as-ref kind: a
/// whole argument list.
proof fn lemma_asref_count_compile_args(table: AstData, args: Vec<InputValueDef>, i: int)
    ensures
        asref_count(s_compile_args(table, args, i).1) == 0,
    decreases args@.len() - i,
{
    if 0 <= i < args@.len() {
        lemma_asref_count_compile_arg(table, args@[i]);
        let head = s_compile_arg(table, args@[i]);
        match head.0 {
            Err(_) => {},
            Ok(_) => {
                lemma_asref_count_compile_args(table, args, i + 1);
                lemma_asref_count_concat(head.1, s_compile_args(table, args, i + 1).1);
            },
        }
    }
}

/// Requesting as-ref ownership on a return shape that cannot hold a
/// borrow is diagnosed exactly once per field, and never otherwise: among
/// everything a successfully compiled field reports, the count of
/// unsupported-as-ref diagnostics is one exactly when the directives
/// request the borrow and the mapped shape refuses it, zero in every
/// other case.
pub proof fn lemma_as_ref_diagnosed_exactly_once(
    table: AstData,
    f: FieldDefinition,
    loc: FieldLocation,
)
    ensures
        ({
            let pd = s_parse_field_directives(f.directives@);
            let rt = s_map_schema_type(table, f.field_type, pd.0.ownership is AsRef, f.position);
            match s_compile_field(table, f, loc).0 {
                Ok(_) => asref_count(s_compile_field(table, f, loc).1) == (
                if pd.0.ownership is AsRef && !rt.0.spec_supports_as_ref() {
                    1int
                } else {
                    0int
                }),
                Err(_) => asref_count(s_compile_field(table, f, loc).1) == 0,
            }
        }),
{
    let pd = s_parse_field_directives(f.directives@);
    let vd = s_validate_directive_for_field(pd.0, loc, f.position);
    let args = s_compile_args(table, f.arguments, 0);
    lemma_asref_count_field_directives(
        crate::directive_parsing::s_default_field_directives(),
        f.directives@,
    );
    lemma_asref_count_location_validation(pd.0, loc, f.position);
    lemma_asref_count_compile_args(table, f.arguments, 0);
    match args.0 {
        Err(_) => {
            lemma_asref_count_concat(pd.1, vd);
            lemma_asref_count_concat(pd.1 + vd, args.1);
        },
        Ok(_) => {
            let rt = s_map_schema_type(table, f.field_type, pd.0.ownership is AsRef, f.position);
            lemma_asref_count_map_nullable(
                table,
                crate::nullable_type::NullableType::spec_from_schema_type(f.field_type),
                pd.0.ownership is AsRef,
                f.position,
            );
            let asref_err: Seq<Error> = if pd.0.ownership is AsRef
                && !rt.0.spec_supports_as_ref() {
                seq![Error { pos: f.position, kind: ErrorKind::AsRefOwnershipForNamedType }]
            } else {
                Seq::empty()
            };
            if asref_err.len() > 0 {
                lemma_asref_count_singleton(asref_err.last());
                assert(asref_err =~= seq![asref_err.last()]);
            }
            lemma_asref_count_concat(pd.1, vd);
            lemma_asref_count_concat(pd.1 + vd, args.1);
            lemma_asref_count_concat(pd.1 + vd + args.1, rt.1);
            lemma_asref_count_concat(pd.1 + vd + args.1 + rt.1, asref_err);
        },
    }
}

} // verus!
