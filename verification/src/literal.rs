//! The default-value literal translator: a pure recursive function from a
//! document literal and its expected type to a target-language literal
//! expression. Integer literals are range-checked against the 32-bit
//! signed bound; enum literals are camel-cased against the expected type;
//! object literals are resolved field by field against the input object's
//! field table, absent fields defaulting to an explicit "none"; a variable
//! reference is rejected, since defaults must be constant.

use vstd::prelude::*;
use crate::ast::Value;
use crate::error::Error;
use crate::error::ErrorKind;
use crate::error::Pos;
use crate::symbol_table::AstData;
use crate::symbol_table::InputFieldInfo;
use crate::symbol_table::s_input_fields_of_object;
use crate::symbol_table::s_lookup_input_field;
use crate::text::camel_of;
use crate::text::snake_of;
use crate::text::str_eq;
use crate::text::to_camel_case;
use crate::text::to_snake_case;

verus! {

/// A condition under which translation cannot continue at all: these mark
/// integrity violations rather than accumulated diagnostics.
pub enum TranslationFailure {
    /// An integer literal outside the 32-bit signed range.
    IntOutOfRange(Pos),
    /// An object literal names a field its input object never declares.
    UnknownInputObjectField { object_type: String, field: String, pos: Pos },
}

/// A target-language literal expression.
pub enum LiteralExpr {
    /// A float literal, carried as its source text.
    FloatText(String),
    Int(i32),
    Str(String),
    Bool(bool),
    /// An enum path `Type::Variant`, both parts camel-cased.
    EnumVariant { enum_type: String, variant: String },
    List(Vec<LiteralExpr>),
    /// A value wrapped as present for a nullable field.
    SomeOf(Box<LiteralExpr>),
    /// A struct initializer with every declared field present, names
    /// snake-cased.
    ObjectInit { object_type: String, fields: Vec<(String, LiteralExpr)> },
    /// An explicit absence.
    NoneValue,
    /// The placeholder left after a rejected variable default.
    Empty,
}

/// The spec-level image of a literal expression.
pub enum LiteralModel {
    FloatText(Seq<char>),
    Int(i32),
    Str(Seq<char>),
    Bool(bool),
    EnumVariant(Seq<char>, Seq<char>),
    List(Seq<LiteralModel>),
    SomeOf(Box<LiteralModel>),
    ObjectInit(Seq<char>, Seq<(Seq<char>, LiteralModel)>),
    NoneValue,
    Empty,
}

/// The image of a literal expression.
pub open spec fn lit_view(l: LiteralExpr) -> LiteralModel
    decreases l,
{
    match l {
        LiteralExpr::FloatText(s) => LiteralModel::FloatText(s@),
        LiteralExpr::Int(i) => LiteralModel::Int(i),
        LiteralExpr::Str(s) => LiteralModel::Str(s@),
        LiteralExpr::Bool(b) => LiteralModel::Bool(b),
        LiteralExpr::EnumVariant { enum_type, variant } => LiteralModel::EnumVariant(
            enum_type@,
            variant@,
        ),
        LiteralExpr::List(v) => LiteralModel::List(lit_views(v, 0)),
        LiteralExpr::SomeOf(inner) => LiteralModel::SomeOf(Box::new(lit_view(*inner))),
        LiteralExpr::ObjectInit { object_type, fields } => LiteralModel::ObjectInit(
            object_type@,
            lit_field_views(fields, 0),
        ),
        LiteralExpr::NoneValue => LiteralModel::NoneValue,
        LiteralExpr::Empty => LiteralModel::Empty,
    }
}

/// The images of the elements of a list literal, from index `i` on.
pub open spec fn lit_views(v: Vec<LiteralExpr>, i: int) -> Seq<LiteralModel>
    decreases v, v@.len() - i,
{
    if i < 0 || i >= v@.len() {
        Seq::empty()
    } else {
        seq![lit_view(v@[i])] + lit_views(v, i + 1)
    }
}

/// The images of the fields of a struct initializer, from index `i` on.
pub open spec fn lit_field_views(v: Vec<(String, LiteralExpr)>, i: int) -> Seq<
    (Seq<char>, LiteralModel),
>
    decreases v, v@.len() - i,
{
    if i < 0 || i >= v@.len() {
        Seq::empty()
    } else {
        seq![(v@[i].0@, lit_view(v@[i].1))] + lit_field_views(v, i + 1)
    }
}

/// The image of a translation result.
pub open spec fn lit_result_view(r: Result<LiteralExpr, TranslationFailure>) -> Result<
    LiteralModel,
    TranslationFailure,
> {
    match r {
        Ok(l) => Ok(lit_view(l)),
        Err(f) => Err(f),
    }
}

/// Whether an object literal gives a value for this key.
pub open spec fn s_pairs_have_key(ps: Seq<(String, Value)>, k: Seq<char>) -> bool {
    exists|j: int| 0 <= j < ps.len() && (#[trigger] ps[j]).0@ == k
}

/// The initializer entries for every declared field the literal omits:
/// each defaults to an explicit absence.
pub open spec fn s_missing_object_fields(
    declared: Seq<InputFieldInfo>,
    pairs: Seq<(String, Value)>,
) -> Seq<(Seq<char>, LiteralModel)>
    decreases declared.len(),
{
    if declared.len() == 0 {
        Seq::empty()
    } else {
        let rest = s_missing_object_fields(declared.drop_first(), pairs);
        if s_pairs_have_key(pairs, declared[0].name@) {
            rest
        } else {
            seq![(snake_of(declared[0].name@), LiteralModel::NoneValue)] + rest
        }
    }
}

/// What a literal translates to, and the diagnostics on the way. The first
/// fatal condition aborts the translation of the literal.
pub open spec fn s_quote_value(table: AstData, v: Value, tn: String, pos: Pos) -> (
    Result<LiteralModel, TranslationFailure>,
    Seq<Error>,
)
    decreases v,
{
    match v {
        Value::Float(text) => (Ok(LiteralModel::FloatText(text@)), Seq::empty()),
        Value::Int(i) => {
            if -2147483648 <= i <= 2147483647 {
                (Ok(LiteralModel::Int(i as i32)), Seq::empty())
            } else {
                (Err(TranslationFailure::IntOutOfRange(pos)), Seq::empty())
            }
        },
        Value::Str(s) => (Ok(LiteralModel::Str(s@)), Seq::empty()),
        Value::Boolean(b) => (Ok(LiteralModel::Bool(b)), Seq::empty()),
        Value::Enum(variant) => (
            (Ok(LiteralModel::EnumVariant(camel_of(tn@), camel_of(variant@)))),
            Seq::empty(),
        ),
        Value::List(items) => {
            let r = s_quote_list(table, items, 0, tn, pos);
            (
                match r.0 {
                    Ok(ms) => Ok(LiteralModel::List(ms)),
                    Err(f) => Err(f),
                },
                r.1,
            )
        },
        Value::Object(pairs) => {
            let given = s_quote_object_pairs(table, pairs, 0, tn, pos);
            (
                match given.0 {
                    Ok(fs) => Ok(
                        LiteralModel::ObjectInit(
                            tn@,
                            fs + s_missing_object_fields(
                                s_input_fields_of_object(table.input_fields@, tn@),
                                pairs@,
                            ),
                        ),
                    ),
                    Err(f) => Err(f),
                },
                given.1,
            )
        },
        Value::Variable(_) => (
            Ok(LiteralModel::Empty),
            seq![Error { pos, kind: ErrorKind::VariableDefaultValue }],
        ),
        Value::Null => (Ok(LiteralModel::NoneValue), Seq::empty()),
    }
}

/// The elements of a list literal, translated in order from index `i`.
pub open spec fn s_quote_list(table: AstData, items: Vec<Value>, i: int, tn: String, pos: Pos) -> (
    Result<Seq<LiteralModel>, TranslationFailure>,
    Seq<Error>,
)
    decreases items, items@.len() - i,
{
    if i < 0 || i >= items@.len() {
        (Ok(Seq::empty()), Seq::empty())
    } else {
        let head = s_quote_value(table, items@[i], tn, pos);
        match head.0 {
            Err(f) => (Err(f), head.1),
            Ok(m) => {
                let rest = s_quote_list(table, items, i + 1, tn, pos);
                (
                    match rest.0 {
                        Err(f) => Err(f),
                        Ok(ms) => Ok(seq![m] + ms),
                    },
                    head.1 + rest.1,
                )
            },
        }
    }
}

/// The given fields of an object literal, resolved against the field
/// table in order from index `i`: a key the input object never declares is
/// fatal; a value for a nullable field is wrapped as present unless it is
/// an explicit null.
pub open spec fn s_quote_object_pairs(
    table: AstData,
    pairs: Vec<(String, Value)>,
    i: int,
    tn: String,
    pos: Pos,
) -> (Result<Seq<(Seq<char>, LiteralModel)>, TranslationFailure>, Seq<Error>)
    decreases pairs, pairs@.len() - i,
{
    if i < 0 || i >= pairs@.len() {
        (Ok(Seq::empty()), Seq::empty())
    } else {
        let key = pairs@[i].0;
        let value = pairs@[i].1;
        match s_lookup_input_field(table.input_fields@, tn@, key@) {
            None => (
                (
                    Err(
                        TranslationFailure::UnknownInputObjectField {
                            object_type: tn,
                            field: key,
                            pos,
                        },
                    )
                ),
                Seq::empty(),
            ),
            Some(info) => {
                let head = s_quote_value(table, value, info.value_type_name, pos);
                match head.0 {
                    Err(f) => (Err(f), head.1),
                    Ok(m) => {
                        let entry_val = if info.nullable {
                            if value is Null {
                                m
                            } else {
                                LiteralModel::SomeOf(Box::new(m))
                            }
                        } else {
                            m
                        };
                        let rest = s_quote_object_pairs(table, pairs, i + 1, tn, pos);
                        (
                            match rest.0 {
                                Err(f) => Err(f),
                                Ok(fs) => Ok(seq![(snake_of(key@), entry_val)] + fs),
                            },
                            head.1 + rest.1,
                        )
                    },
                }
            },
        }
    }
}

/// Appending to a list keeps the images of what was there and adds one.
proof fn lemma_lit_views_push(a: Vec<LiteralExpr>, b: Vec<LiteralExpr>, x: LiteralExpr, i: int)
    requires
        b@ == a@.push(x),
        0 <= i <= a@.len(),
    ensures
        lit_views(b, i) == lit_views(a, i) + seq![lit_view(x)],
    decreases a@.len() - i,
{
    if i == a@.len() {
        assert(b@[i] == x);
        assert(lit_views(b, i + 1) =~= Seq::empty());
        assert(lit_views(b, i) =~= seq![lit_view(x)]);
        assert(lit_views(a, i) =~= Seq::empty());
        assert(lit_views(a, i) + seq![lit_view(x)] =~= seq![lit_view(x)]);
    } else {
        lemma_lit_views_push(a, b, x, i + 1);
        assert(b@[i] == a@[i]);
        assert(lit_views(b, i) =~= lit_views(a, i) + seq![lit_view(x)]);
    }
}

/// Appending to an initializer keeps the images of what was there and
/// adds one field.
proof fn lemma_lit_field_views_push(
    a: Vec<(String, LiteralExpr)>,
    b: Vec<(String, LiteralExpr)>,
    x: (String, LiteralExpr),
    i: int,
)
    requires
        b@ == a@.push(x),
        0 <= i <= a@.len(),
    ensures
        lit_field_views(b, i) == lit_field_views(a, i) + seq![(x.0@, lit_view(x.1))],
    decreases a@.len() - i,
{
    if i == a@.len() {
        assert(b@[i] == x);
        assert(lit_field_views(b, i + 1) =~= Seq::empty());
        assert(lit_field_views(b, i) =~= seq![(x.0@, lit_view(x.1))]);
        assert(lit_field_views(a, i) =~= Seq::empty());
        assert(lit_field_views(a, i) + seq![(x.0@, lit_view(x.1))] =~= seq![
            (x.0@, lit_view(x.1)),
        ]);
    } else {
        lemma_lit_field_views_push(a, b, x, i + 1);
        assert(b@[i] == a@[i]);
        assert(lit_field_views(b, i) =~= lit_field_views(a, i) + seq![(x.0@, lit_view(x.1))]);
    }
}

/// Translates one literal. A fatal condition aborts this literal and is
/// handed to the caller; recoverable problems are accumulated and a
/// placeholder returned.
pub fn quote_value(table: &AstData, v: &Value, tn: &String, pos: Pos, errs: &mut Vec<Error>) -> (r:
    Result<LiteralExpr, TranslationFailure>)
    ensures
        lit_result_view(r) == s_quote_value(*table, *v, *tn, pos).0,
        final(errs)@ == old(errs)@ + s_quote_value(*table, *v, *tn, pos).1,
    decreases v,
{
    match v {
        Value::Float(text) => Ok(LiteralExpr::FloatText(text.clone())),
        Value::Int(i) => {
            if -2147483648i64 <= *i && *i <= 2147483647i64 {
                Ok(LiteralExpr::Int(*i as i32))
            } else {
                Err(TranslationFailure::IntOutOfRange(pos))
            }
        },
        Value::Str(s) => Ok(LiteralExpr::Str(s.clone())),
        Value::Boolean(b) => Ok(LiteralExpr::Bool(*b)),
        Value::Enum(variant) => Ok(
            LiteralExpr::EnumVariant {
                enum_type: to_camel_case(tn.as_str()),
                variant: to_camel_case(variant.as_str()),
            },
        ),
        Value::Null => Ok(LiteralExpr::NoneValue),
        Value::Variable(_) => {
            errs.push(Error { pos, kind: ErrorKind::VariableDefaultValue });
            Ok(LiteralExpr::Empty)
        },
        Value::List(items) => {
            match quote_list(table, items, tn, pos, errs) {
                Ok(out) => Ok(LiteralExpr::List(out)),
                Err(f) => Err(f),
            }
        },
        Value::Object(pairs) => {
            let given = match quote_object_pairs(table, pairs, tn, pos, errs) {
                Ok(fs) => fs,
                Err(f) => {
                    return Err(f);
                },
            };
            let mut fields = given;
            let ghost given_views = lit_field_views(fields, 0);
            let declared = table.input_object_fields(tn.as_str());
            let ghost missing_total = s_missing_object_fields(declared@, pairs@);
            let mut j: usize = 0;
            proof {
                assert(declared@.skip(0) =~= declared@);
            }
            while j < declared.len()
                invariant
                    j <= declared.len(),
                    declared@ == s_input_fields_of_object(table.input_fields@, tn@),
                    missing_total == s_missing_object_fields(declared@, pairs@),
                    lit_field_views(fields, 0) + s_missing_object_fields(
                        declared@.skip(j as int),
                        pairs@,
                    ) == given_views + missing_total,
                decreases declared.len() - j,
            {
                proof {
                    assert(declared@.skip(j as int).drop_first() =~= declared@.skip(j as int + 1));
                    assert(declared@.skip(j as int)[0] == declared@[j as int]);
                }
                let name = &declared[j].name;
                let mut present = false;
                let mut t: usize = 0;
                while t < pairs.len()
                    invariant
                        t <= pairs.len(),
                        *name == declared@[j as int].name,
                        present == exists|q: int|
                            0 <= q < t && (#[trigger] pairs@[q]).0@ == name@,
                    decreases pairs.len() - t,
                {
                    if str_eq(pairs[t].0.as_str(), name.as_str()) {
                        present = true;
                    }
                    t += 1;
                }
                proof {
                    assert(present == s_pairs_have_key(pairs@, declared@[j as int].name@));
                }
                if !present {
                    let entry = (to_snake_case(name.as_str()), LiteralExpr::NoneValue);
                    let ghost fields_before = fields;
                    fields.push(entry);
                    proof {
                        lemma_lit_field_views_push(fields_before, fields, entry, 0);
                        assert(lit_field_views(fields, 0) + s_missing_object_fields(
                            declared@.skip(j as int + 1),
                            pairs@,
                        ) =~= given_views + missing_total);
                    }
                } else {
                    proof {
                        assert(lit_field_views(fields, 0) + s_missing_object_fields(
                            declared@.skip(j as int + 1),
                            pairs@,
                        ) =~= given_views + missing_total);
                    }
                }
                j += 1;
            }
            proof {
                assert(s_missing_object_fields(declared@.skip(declared@.len() as int), pairs@)
                    =~= Seq::<(Seq<char>, LiteralModel)>::empty());
                assert(lit_field_views(fields, 0) =~= given_views + missing_total);
            }
            Ok(LiteralExpr::ObjectInit { object_type: tn.clone(), fields })
        },
    }
}

/// Translates the elements of a list literal in order.
fn quote_list(table: &AstData, items: &Vec<Value>, tn: &String, pos: Pos, errs: &mut Vec<
    Error,
>) -> (r: Result<Vec<LiteralExpr>, TranslationFailure>)
    ensures
        (match r {
            Ok(v) => s_quote_list(*table, *items, 0, *tn, pos).0 == Ok::<_, TranslationFailure>(
                lit_views(v, 0),
            ),
            Err(f) => s_quote_list(*table, *items, 0, *tn, pos).0 == Err::<Seq<LiteralModel>, _>(
                f,
            ),
        }),
        final(errs)@ == old(errs)@ + s_quote_list(*table, *items, 0, *tn, pos).1,
    decreases items,
{
    let ghost total = s_quote_list(*table, *items, 0, *tn, pos);
    let ghost mut emitted: Seq<Error> = Seq::empty();
    let mut out: Vec<LiteralExpr> = Vec::new();
    let mut k: usize = 0;
    proof {
        assert(errs@ =~= old(errs)@ + emitted);
        assert(lit_views(out, 0) =~= Seq::empty());
    }
    while k < items.len()
        invariant
            k <= items.len(),
            errs@ == old(errs)@ + emitted,
            total == s_quote_list(*table, *items, 0, *tn, pos),
            total.0 == (match s_quote_list(*table, *items, k as int, *tn, pos).0 {
                Ok(ms) => Ok::<_, TranslationFailure>(lit_views(out, 0) + ms),
                Err(f) => Err(f),
            }),
            total.1 == emitted + s_quote_list(*table, *items, k as int, *tn, pos).1,
        decreases items.len() - k,
    {
        let ghost head = s_quote_value(*table, items@[k as int], *tn, pos);
        let item = quote_value(table, &items[k], tn, pos, errs);
        proof {
            emitted = emitted + head.1;
            assert(errs@ =~= old(errs)@ + emitted);
        }
        match item {
            Err(f) => {
                proof {
                    assert(total.1 =~= emitted);
                }
                return Err(f);
            },
            Ok(l) => {
                let ghost out_before = out;
                out.push(l);
                proof {
                    lemma_lit_views_push(out_before, out, l, 0);
                    assert(lit_views(out, 0) =~= lit_views(out_before, 0) + seq![lit_view(l)]);
                    let rest = s_quote_list(*table, *items, k as int + 1, *tn, pos);
                    match rest.0 {
                        Ok(ms) => {
                            assert(lit_views(out, 0) + ms =~= lit_views(out_before, 0) + (seq![
                                lit_view(l),
                            ] + ms));
                        },
                        Err(_) => {},
                    }
                    assert(emitted + rest.1 =~= total.1);
                }
            },
        }
        k += 1;
    }
    proof {
        assert(s_quote_list(*table, *items, items@.len() as int, *tn, pos).0 == Ok::<
            _,
            TranslationFailure,
        >(Seq::<LiteralModel>::empty()));
        assert(lit_views(out, 0) + Seq::<LiteralModel>::empty() =~= lit_views(out, 0));
        assert(total.1 =~= emitted);
    }
    Ok(out)
}

/// Translates the given fields of an object literal in order.
fn quote_object_pairs(
    table: &AstData,
    pairs: &Vec<(String, Value)>,
    tn: &String,
    pos: Pos,
    errs: &mut Vec<Error>,
) -> (r: Result<Vec<(String, LiteralExpr)>, TranslationFailure>)
    ensures
        (match r {
            Ok(v) => s_quote_object_pairs(*table, *pairs, 0, *tn, pos).0 == Ok::<
                _,
                TranslationFailure,
            >(lit_field_views(v, 0)),
            Err(f) => s_quote_object_pairs(*table, *pairs, 0, *tn, pos).0 == Err::<
                Seq<(Seq<char>, LiteralModel)>,
                _,
            >(f),
        }),
        final(errs)@ == old(errs)@ + s_quote_object_pairs(*table, *pairs, 0, *tn, pos).1,
    decreases pairs,
{
    let ghost total = s_quote_object_pairs(*table, *pairs, 0, *tn, pos);
    let ghost mut emitted: Seq<Error> = Seq::empty();
    let mut fields: Vec<(String, LiteralExpr)> = Vec::new();
    let mut k: usize = 0;
    proof {
        assert(errs@ =~= old(errs)@ + emitted);
        assert(lit_field_views(fields, 0) =~= Seq::<(Seq<char>, LiteralModel)>::empty());
    }
    while k < pairs.len()
        invariant
            k <= pairs.len(),
            errs@ == old(errs)@ + emitted,
            total == s_quote_object_pairs(*table, *pairs, 0, *tn, pos),
            total.0 == (match s_quote_object_pairs(*table, *pairs, k as int, *tn, pos).0 {
                Ok(fs) => Ok::<_, TranslationFailure>(lit_field_views(fields, 0) + fs),
                Err(f) => Err(f),
            }),
            total.1 == emitted + s_quote_object_pairs(*table, *pairs, k as int, *tn, pos).1,
        decreases pairs.len() - k,
    {
        let key = &pairs[k].0;
        let info_nullable: bool;
        let field_type_name: String;
        match table.lookup_input_field(tn.as_str(), key.as_str()) {
            None => {
                proof {
                    assert(total.1 =~= emitted);
                }
                return Err(
                    TranslationFailure::UnknownInputObjectField {
                        object_type: tn.clone(),
                        field: key.clone(),
                        pos,
                    },
                );
            },
            Some(info) => {
                info_nullable = info.nullable;
                field_type_name = info.value_type_name.clone();
            },
        }
        let ghost head = s_quote_value(*table, pairs@[k as int].1, field_type_name, pos);
        let translated = quote_value(table, &pairs[k].1, &field_type_name, pos, errs);
        proof {
            emitted = emitted + head.1;
            assert(errs@ =~= old(errs)@ + emitted);
        }
        match translated {
            Err(f) => {
                proof {
                    assert(total.1 =~= emitted);
                }
                return Err(f);
            },
            Ok(l) => {
                let is_null = match &pairs[k].1 {
                    Value::Null => true,
                    _ => false,
                };
                let entry_val = if info_nullable && !is_null {
                    LiteralExpr::SomeOf(Box::new(l))
                } else {
                    l
                };
                let entry = (to_snake_case(key.as_str()), entry_val);
                let ghost fields_before = fields;
                fields.push(entry);
                proof {
                    lemma_lit_field_views_push(fields_before, fields, entry, 0);
                    assert(lit_field_views(fields, 0) =~= lit_field_views(fields_before, 0)
                        + seq![(entry.0@, lit_view(entry.1))]);
                    let rest = s_quote_object_pairs(*table, *pairs, k as int + 1, *tn, pos);
                    match rest.0 {
                        Ok(fs) => {
                            assert(lit_field_views(fields, 0) + fs =~= lit_field_views(
                                fields_before,
                                0,
                            ) + (seq![(entry.0@, lit_view(entry.1))] + fs));
                        },
                        Err(_) => {},
                    }
                    assert(emitted + rest.1 =~= total.1);
                }
            },
        }
        k += 1;
    }
    proof {
        assert(s_quote_object_pairs(*table, *pairs, pairs@.len() as int, *tn, pos).0 == Ok::<
            _,
            TranslationFailure,
        >(Seq::<(Seq<char>, LiteralModel)>::empty()));
        assert(lit_field_views(fields, 0) + Seq::<(Seq<char>, LiteralModel)>::empty()
            =~= lit_field_views(fields, 0));
        assert(total.1 =~= emitted);
    }
    Ok(fields)
}

} // verus!
