//! The compilation pass over the whole document: one exhaustive visitation
//! dispatching on definition kind, building per-entity emission models and
//! accumulating diagnostics in a context threaded through every step, with
//! two checkpoints at which the frozen error report decides whether an
//! artifact is produced at all.

use vstd::prelude::*;
use crate::ast::Definition;
use crate::ast::DirectiveDefinition;
use crate::ast::Document;
use crate::ast::EnumType;
use crate::ast::EnumValueDef;
use crate::ast::InputObjectType;
use crate::ast::InterfaceType;
use crate::ast::ObjectType;
use crate::ast::ScalarType;
use crate::ast::SchemaDefinition;
use crate::ast::TypeDefinition;
use crate::ast::UnionType;
use crate::directive_parsing::Deprecation;
use crate::directive_parsing::FieldLocation;
use crate::directive_parsing::parse_enum_value_directives;
use crate::directive_parsing::parse_scalar_directives;
use crate::directive_parsing::s_parse_deprecation;
use crate::directive_parsing::s_scalar_usage_errors;
use crate::directive_parsing::s_validate_juniper_directive_definition;
use crate::directive_parsing::validate_juniper_directive_definition;
use crate::error::Error;
use crate::error::ErrorKind;
use crate::error::Pos;
use crate::error::s_checkpoint;
use crate::error::sorted_errors;
use crate::field_compiler::Field;
use crate::field_compiler::FieldModel;
use crate::field_compiler::field_view;
use crate::field_compiler::graphql_field_to_rust_field;
use crate::field_compiler::s_compile_field;
use crate::literal::TranslationFailure;
use crate::query_trail::TrailMethods;
use crate::query_trail::TrailMethodsModel;
use crate::query_trail::gen_query_trails;
use crate::query_trail::s_query_trails;
use crate::query_trail::trail_methods_view;
use crate::rust_type::Type;
use crate::symbol_table::AstData;
use crate::text::clone_opt_string;
use crate::text::clone_string_vec;
use crate::text::concat_str;
use crate::text::str_eq;
use crate::type_mapper::graphql_type_to_rust_type;
use crate::type_mapper::s_map_schema_type;
use crate::validations::FieldNameCaseValidator;
use crate::validations::UuidNameCaseValidator;
use crate::validations::s_validate_doc;
use crate::text::snake_of;
use crate::text::to_snake_case;

verus! {

/// A user-declared scalar's emission model: a string-backed newtype.
pub struct Scalar {
    pub name: String,
    pub description: Option<String>,
}

/// An object's emission model: a concrete type plus a resolver contract
/// with one method per field.
pub struct Object {
    pub name: String,
    pub description: Option<String>,
    pub fields: Vec<Field>,
    pub implements_interfaces: Vec<String>,
}

/// The spec-level image of an object model.
pub struct ObjectModel {
    pub name: String,
    pub description: Option<String>,
    pub fields: Seq<FieldModel>,
    pub implements_interfaces: Seq<String>,
}

/// The image of an object model.
pub open spec fn object_view(o: Object) -> ObjectModel {
    ObjectModel {
        name: o.name,
        description: o.description,
        fields: Seq::new(o.fields@.len(), |i: int| field_view(o.fields@[i])),
        implements_interfaces: o.implements_interfaces@,
    }
}

/// The subscription root's emission model.
pub struct Subscription {
    pub name: String,
    pub description: Option<String>,
    pub fields: Vec<Field>,
}

/// The spec-level image of the subscription model.
pub struct SubscriptionModel {
    pub name: String,
    pub description: Option<String>,
    pub fields: Seq<FieldModel>,
}

/// The image of the subscription model.
pub open spec fn subscription_view(s: Subscription) -> SubscriptionModel {
    SubscriptionModel {
        name: s.name,
        description: s.description,
        fields: Seq::new(s.fields@.len(), |i: int| field_view(s.fields@[i])),
    }
}

/// An interface's emission model: a resolver contract plus pure
/// forwarding to each implementor's own contract.
pub struct Interface {
    pub name: String,
    pub trait_name: String,
    pub description: Option<String>,
    pub fields: Vec<Field>,
    pub implementors: Vec<String>,
}

/// The spec-level image of an interface model.
pub struct InterfaceModel {
    pub name: String,
    pub trait_name: Seq<char>,
    pub description: Option<String>,
    pub fields: Seq<FieldModel>,
    pub implementors: Seq<String>,
}

/// The image of an interface model.
pub open spec fn interface_view(it: Interface) -> InterfaceModel {
    InterfaceModel {
        name: it.name,
        trait_name: it.trait_name@,
        description: it.description,
        fields: Seq::new(it.fields@.len(), |i: int| field_view(it.fields@[i])),
        implementors: it.implementors@,
    }
}

/// One variant of a union's emission model.
pub struct UnionVariant {
    pub rust_name: String,
    pub type_inside: Type,
}

/// A union's emission model: a tagged variant type plus one conversion per
/// member.
pub struct Union {
    pub name: String,
    pub description: Option<String>,
    pub variants: Vec<UnionVariant>,
}

/// The spec-level image of a union model.
pub struct UnionModel {
    pub name: String,
    pub description: Option<String>,
    pub variants: Seq<UnionVariant>,
}

/// The image of a union model.
pub open spec fn union_view(u: Union) -> UnionModel {
    UnionModel { name: u.name, description: u.description, variants: u.variants@ }
}

/// One variant of an enum's emission model: the target-language name is
/// camel-cased, the GraphQL-level name is kept for decode-time matching.
pub struct EnumVariant {
    pub name: String,
    pub graphql_name: String,
    pub deprecation: Deprecation,
    pub description: Option<String>,
}

/// The spec-level image of an enum variant.
pub struct EnumVariantModel {
    pub name: Seq<char>,
    pub graphql_name: String,
    pub deprecation: Deprecation,
    pub description: Option<String>,
}

/// The image of an enum variant.
pub open spec fn enum_variant_view(v: EnumVariant) -> EnumVariantModel {
    EnumVariantModel {
        name: v.name@,
        graphql_name: v.graphql_name,
        deprecation: v.deprecation,
        description: v.description,
    }
}

/// An enum's emission model.
pub struct Enum {
    pub name: String,
    pub description: Option<String>,
    pub variants: Vec<EnumVariant>,
}

/// The spec-level image of an enum model.
pub struct EnumModel {
    pub name: String,
    pub description: Option<String>,
    pub variants: Seq<EnumVariantModel>,
}

/// The image of an enum model.
pub open spec fn enum_view(e: Enum) -> EnumModel {
    EnumModel {
        name: e.name,
        description: e.description,
        variants: Seq::new(e.variants@.len(), |i: int| enum_variant_view(e.variants@[i])),
    }
}

/// One field of an input object's emission model.
pub struct InputObjectField {
    pub name: String,
    pub ty: Type,
    pub description: Option<String>,
}

/// The spec-level image of an input-object field.
pub struct InputObjectFieldModel {
    pub name: Seq<char>,
    pub ty: Type,
    pub description: Option<String>,
}

/// The image of an input-object field.
pub open spec fn input_object_field_view(f: InputObjectField) -> InputObjectFieldModel {
    InputObjectFieldModel { name: f.name@, ty: f.ty, description: f.description }
}

/// An input object's emission model: a plain struct plus its decoder.
pub struct InputObject {
    pub name: String,
    pub description: Option<String>,
    pub fields: Vec<InputObjectField>,
}

/// The spec-level image of an input-object model.
pub struct InputObjectModel {
    pub name: String,
    pub description: Option<String>,
    pub fields: Seq<InputObjectFieldModel>,
}

/// The image of an input-object model.
pub open spec fn input_object_view(io: InputObject) -> InputObjectModel {
    InputObjectModel {
        name: io.name,
        description: io.description,
        fields: Seq::new(io.fields@.len(), |i: int| input_object_field_view(io.fields@[i])),
    }
}

/// A root slot of the composed schema type: a declared root by name, or
/// the empty default for mutation and subscription.
pub enum RootType {
    Named(String),
    EmptyMutation,
    EmptySubscription,
}

/// The composed schema root: the query root is mandatory, the other two
/// default to empty roots.
pub struct SchemaType {
    pub query_type: String,
    pub mutation_type: RootType,
    pub subscription_type: RootType,
}

/// The compiling context: the symbol table, the error accumulator, and the
/// entity models built so far, threaded through the whole visitation and
/// frozen only at the checkpoints.
pub struct CodeGenPass {
    pub error_type: String,
    pub context_type: String,
    pub errors: Vec<Error>,
    pub ast_data: AstData,
    pub scalars: Vec<Scalar>,
    pub objects: Vec<Object>,
    pub subscription: Option<Subscription>,
    pub interfaces: Vec<Interface>,
    pub unions: Vec<Union>,
    pub enums: Vec<Enum>,
    pub input_objects: Vec<InputObject>,
    pub schema_type: Option<SchemaType>,
}

/// The spec-level image of the compiling context.
pub struct CodeGenPassModel {
    pub error_type: String,
    pub context_type: String,
    pub errors: Seq<Error>,
    pub ast_data: AstData,
    pub scalars: Seq<Scalar>,
    pub objects: Seq<ObjectModel>,
    pub subscription: Option<SubscriptionModel>,
    pub interfaces: Seq<InterfaceModel>,
    pub unions: Seq<UnionModel>,
    pub enums: Seq<EnumModel>,
    pub input_objects: Seq<InputObjectModel>,
    pub schema_type: Option<SchemaType>,
}

impl View for CodeGenPass {
    type V = CodeGenPassModel;

    open spec fn view(&self) -> CodeGenPassModel {
        CodeGenPassModel {
            error_type: self.error_type,
            context_type: self.context_type,
            errors: self.errors@,
            ast_data: self.ast_data,
            scalars: self.scalars@,
            objects: Seq::new(self.objects@.len(), |i: int| object_view(self.objects@[i])),
            subscription: match self.subscription {
                Some(s) => Some(subscription_view(s)),
                None => None,
            },
            interfaces: Seq::new(
                self.interfaces@.len(),
                |i: int| interface_view(self.interfaces@[i]),
            ),
            unions: Seq::new(self.unions@.len(), |i: int| union_view(self.unions@[i])),
            enums: Seq::new(self.enums@.len(), |i: int| enum_view(self.enums@[i])),
            input_objects: Seq::new(
                self.input_objects@.len(),
                |i: int| input_object_view(self.input_objects@[i]),
            ),
            schema_type: self.schema_type,
        }
    }
}

/// The description diagnostic of a reserved scalar: their documentation is
/// fixed, so free-text descriptions are rejected.
pub open spec fn s_desc_err(pos: Pos, d: Option<String>) -> Seq<Error> {
    if d is Some {
        seq![Error { pos, kind: ErrorKind::SpecialCaseScalarWithDescription }]
    } else {
        Seq::empty()
    }
}

/// What one scalar definition contributes: reserved scalars produce no
/// model of their own, built-in names cannot be redeclared, everything
/// else becomes a string-backed scalar model.
pub open spec fn s_visit_scalar(sc: ScalarType) -> (Option<Scalar>, Seq<Error>) {
    if sc.name@ == "DateTime"@ {
        (None, s_desc_err(sc.position, sc.description))
    } else if sc.name@ == "Date"@ || sc.name@ == "Url"@ || sc.name@ == "Uuid"@ {
        (None, s_scalar_usage_errors(sc.directives@) + s_desc_err(sc.position, sc.description))
    } else {
        let builtin_err = if sc.name@ == "String"@ || sc.name@ == "Float"@ || sc.name@ == "Int"@
            || sc.name@ == "Boolean"@ || sc.name@ == "ID"@ {
            seq![Error { pos: sc.position, kind: ErrorKind::CannotDeclareBuiltinAsScalar }]
        } else {
            Seq::<Error>::empty()
        };
        (
            Some(Scalar { name: sc.name, description: sc.description }),
            s_scalar_usage_errors(sc.directives@) + builtin_err,
        )
    }
}

/// The fields of one entity compiled in order from index `i`.
pub open spec fn s_compile_fields(
    table: AstData,
    fields: Seq<crate::ast::FieldDefinition>,
    i: int,
    loc: FieldLocation,
) -> (Result<Seq<FieldModel>, TranslationFailure>, Seq<Error>)
    decreases fields.len() - i,
{
    if i < 0 || i >= fields.len() {
        (Ok(Seq::empty()), Seq::empty())
    } else {
        let head = s_compile_field(table, fields[i], loc);
        match head.0 {
            Err(f) => (Err(f), head.1),
            Ok(m) => {
                let rest = s_compile_fields(table, fields, i + 1, loc);
                (
                    match rest.0 {
                        Err(f) => Err(f),
                        Ok(ms) => Ok(seq![m] + ms),
                    },
                    head.1 + rest.1,
                )
            },
        }
    }
}

/// The variants of a union compiled in order: each member name maps
/// through the type algebra with one nullability layer removed.
pub open spec fn s_union_variants(table: AstData, names: Seq<String>, i: int, pos: Pos) -> (
    Seq<UnionVariant>,
    Seq<Error>,
)
    decreases names.len() - i,
{
    if i < 0 || i >= names.len() {
        (Seq::empty(), Seq::empty())
    } else {
        let m = s_map_schema_type(table, crate::ast::SchemaTypeRef::Named(names[i]), false, pos);
        let rest = s_union_variants(table, names, i + 1, pos);
        (
            seq![
                UnionVariant {
                    rust_name: names[i],
                    type_inside: m.0.spec_remove_one_layer_of_nullability(),
                },
            ] + rest.0,
            m.1 + rest.1,
        )
    }
}

/// One enum variant's model.
pub open spec fn s_enum_variant(v: EnumValueDef) -> EnumVariantModel {
    EnumVariantModel {
        name: crate::text::camel_of(v.name@),
        graphql_name: v.name,
        deprecation: s_parse_deprecation(v.directives@),
        description: v.description,
    }
}

/// One enum definition's model.
pub open spec fn s_enum_of(en: EnumType) -> EnumModel {
    EnumModel {
        name: en.name,
        description: en.description,
        variants: Seq::new(en.values@.len(), |i: int| s_enum_variant(en.values@[i])),
    }
}

/// The fields of an input object compiled in order: a directive-level
/// default on an input field is rejected, and each type maps through the
/// algebra.
pub open spec fn s_input_object_fields(
    table: AstData,
    fields: Seq<crate::ast::InputValueDef>,
    i: int,
) -> (Seq<InputObjectFieldModel>, Seq<Error>)
    decreases fields.len() - i,
{
    if i < 0 || i >= fields.len() {
        (Seq::empty(), Seq::empty())
    } else {
        let f = fields[i];
        let dv_err = if f.default_value is Some {
            seq![Error { pos: f.position, kind: ErrorKind::InputTypeFieldWithDefaultValue }]
        } else {
            Seq::<Error>::empty()
        };
        let m = s_map_schema_type(table, f.value_type, false, f.position);
        let rest = s_input_object_fields(table, fields, i + 1);
        (
            seq![
                InputObjectFieldModel { name: snake_of(f.name@), ty: m.0, description: f.description },
            ] + rest.0,
            dv_err + m.1 + rest.1,
        )
    }
}

/// What the schema block contributes: a missing query root is a hard
/// error and leaves the schema type untouched; the other roots default to
/// the empty roots when undeclared.
pub open spec fn s_visit_schema_definition(sd: SchemaDefinition) -> (
    Option<SchemaType>,
    Seq<Error>,
) {
    match sd.query {
        None => (None, seq![Error { pos: sd.position, kind: ErrorKind::NoQueryType }]),
        Some(q) => (
            Some(
                SchemaType {
                    query_type: q,
                    mutation_type: match sd.mutation {
                        Some(m) => RootType::Named(m),
                        None => RootType::EmptyMutation,
                    },
                    subscription_type: match sd.subscription {
                        Some(s) => RootType::Named(s),
                        None => RootType::EmptySubscription,
                    },
                },
            ),
            Seq::empty(),
        ),
    }
}

impl CodeGenPass {
    /// A fresh compiling context over a built symbol table.
    pub fn new(error_type: String, context_type: String, ast_data: AstData) -> (r: CodeGenPass)
        ensures
            r@.error_type == error_type,
            r@.context_type == context_type,
            r@.ast_data == ast_data,
            r@.errors == Seq::<Error>::empty(),
            r@.scalars == Seq::<Scalar>::empty(),
            r@.objects == Seq::<ObjectModel>::empty(),
            r@.subscription is None,
            r@.interfaces == Seq::<InterfaceModel>::empty(),
            r@.unions == Seq::<UnionModel>::empty(),
            r@.enums == Seq::<EnumModel>::empty(),
            r@.input_objects == Seq::<InputObjectModel>::empty(),
            r@.schema_type is None,
    {
        let r = CodeGenPass {
            error_type,
            context_type,
            errors: Vec::new(),
            ast_data,
            scalars: Vec::new(),
            objects: Vec::new(),
            subscription: None,
            interfaces: Vec::new(),
            unions: Vec::new(),
            enums: Vec::new(),
            input_objects: Vec::new(),
            schema_type: None,
        };
        proof {
            assert(r@.objects =~= Seq::<ObjectModel>::empty());
            assert(r@.interfaces =~= Seq::<InterfaceModel>::empty());
            assert(r@.unions =~= Seq::<UnionModel>::empty());
            assert(r@.enums =~= Seq::<EnumModel>::empty());
            assert(r@.input_objects =~= Seq::<InputObjectModel>::empty());
        }
        r
    }

    /// Records one diagnostic.
    pub fn emit_error(&mut self, pos: Pos, kind: ErrorKind)
        ensures
            (final(self)@ == CodeGenPassModel {
                errors: old(self)@.errors + seq![Error { pos, kind }],
                ..old(self)@
            }),
    {
        self.errors.push(Error { pos, kind });
        proof {
            assert(self@.errors =~= old(self)@.errors + seq![Error { pos, kind }]);
            assert(self@.objects =~= old(self)@.objects);
            assert(self@.interfaces =~= old(self)@.interfaces);
            assert(self@.unions =~= old(self)@.unions);
            assert(self@.enums =~= old(self)@.enums);
            assert(self@.input_objects =~= old(self)@.input_objects);
        }
    }

    /// The first-checkpoint freeze: the sorted, deduplicated report when
    /// any diagnostic was accumulated, nothing otherwise.
    pub fn check_for_errors(&self) -> (r: Result<(), Vec<Error>>)
        ensures
            self@.errors.len() == 0 ==> (r is Ok),
            self@.errors.len() != 0 ==> (r matches Err(v) && v@ == s_checkpoint(self@.errors)),
    {
        if self.errors.len() == 0 {
            Ok(())
        } else {
            Err(sorted_errors(&self.errors))
        }
    }
}


/// Compiles an entity's field list in order.
fn compile_fields(
    table: &AstData,
    fields: &Vec<crate::ast::FieldDefinition>,
    loc: FieldLocation,
    errs: &mut Vec<Error>,
) -> (r: Result<Vec<Field>, TranslationFailure>)
    ensures
        (match r {
            Ok(v) => s_compile_fields(*table, fields@, 0, loc).0 == Ok::<_, TranslationFailure>(
                Seq::new(v@.len(), |i: int| field_view(v@[i])),
            ),
            Err(f) => s_compile_fields(*table, fields@, 0, loc).0 == Err::<Seq<FieldModel>, _>(f),
        }),
        final(errs)@ == old(errs)@ + s_compile_fields(*table, fields@, 0, loc).1,
{
    let ghost total = s_compile_fields(*table, fields@, 0, loc);
    let ghost mut emitted: Seq<Error> = Seq::empty();
    let mut out: Vec<Field> = Vec::new();
    let mut k: usize = 0;
    proof {
        assert(errs@ =~= old(errs)@ + emitted);
        assert(Seq::new(out@.len(), |i: int| field_view(out@[i])) =~= Seq::<FieldModel>::empty());
    }
    while k < fields.len()
        invariant
            k <= fields.len(),
            errs@ == old(errs)@ + emitted,
            total == s_compile_fields(*table, fields@, 0, loc),
            total.0 == (match s_compile_fields(*table, fields@, k as int, loc).0 {
                Ok(ms) => Ok::<_, TranslationFailure>(
                    Seq::new(out@.len(), |i: int| field_view(out@[i])) + ms,
                ),
                Err(f) => Err(f),
            }),
            total.1 == emitted + s_compile_fields(*table, fields@, k as int, loc).1,
        decreases fields.len() - k,
    {
        let ghost head = s_compile_field(*table, fields@[k as int], loc);
        let compiled = graphql_field_to_rust_field(table, &fields[k], loc, errs);
        proof {
            emitted = emitted + head.1;
            assert(errs@ =~= old(errs)@ + emitted);
        }
        match compiled {
            Err(f) => {
                proof {
                    assert(total.1 =~= emitted);
                }
                return Err(f);
            },
            Ok(fm) => {
                let ghost out_before = out@;
                out.push(fm);
                proof {
                    assert(Seq::new(out@.len(), |i: int| field_view(out@[i])) =~= Seq::new(
                        out_before.len(),
                        |i: int| field_view(out_before[i]),
                    ) + seq![field_view(fm)]);
                    let rest = s_compile_fields(*table, fields@, k as int + 1, loc);
                    match rest.0 {
                        Ok(ms) => {
                            assert(Seq::new(out@.len(), |i: int| field_view(out@[i])) + ms
                                =~= Seq::new(out_before.len(), |i: int| field_view(out_before[i]))
                                + (seq![field_view(fm)] + ms));
                        },
                        Err(_) => {},
                    }
                    assert(emitted + rest.1 =~= total.1);
                }
            },
        }
        k += 1;
    }
    proof {
        assert(s_compile_fields(*table, fields@, fields@.len() as int, loc).0 == Ok::<
            _,
            TranslationFailure,
        >(Seq::<FieldModel>::empty()));
        assert(Seq::new(out@.len(), |i: int| field_view(out@[i])) + Seq::<FieldModel>::empty()
            =~= Seq::new(out@.len(), |i: int| field_view(out@[i])));
        assert(total.1 =~= emitted);
    }
    Ok(out)
}

/// The context after one object definition: the declared subscription
/// root compiles as the subscription entity and rejects interface
/// implementations; every other object becomes an object model.
pub open spec fn s_after_object(m: CodeGenPassModel, ob: ObjectType) -> Result<
    CodeGenPassModel,
    TranslationFailure,
> {
    if crate::symbol_table::opt_view(m.ast_data.subscription_name) == Some(ob.name@) {
        let impl_err = if ob.implements_interfaces@.len() > 0 {
            seq![
                Error { pos: ob.position, kind: ErrorKind::SubscriptionsCannotImplementInterfaces },
            ]
        } else {
            Seq::<Error>::empty()
        };
        let fs = s_compile_fields(m.ast_data, ob.fields@, 0, FieldLocation::Subscription);
        match fs.0 {
            Err(f) => Err(f),
            Ok(ms) => Ok(
                CodeGenPassModel {
                    errors: m.errors + impl_err + fs.1,
                    subscription: Some(
                        SubscriptionModel {
                            name: ob.name,
                            description: ob.description,
                            fields: ms,
                        },
                    ),
                    ..m
                },
            ),
        }
    } else {
        let fs = s_compile_fields(m.ast_data, ob.fields@, 0, FieldLocation::Object);
        match fs.0 {
            Err(f) => Err(f),
            Ok(ms) => Ok(
                CodeGenPassModel {
                    errors: m.errors + fs.1,
                    objects: m.objects.push(
                        ObjectModel {
                            name: ob.name,
                            description: ob.description,
                            fields: ms,
                            implements_interfaces: ob.implements_interfaces@,
                        },
                    ),
                    ..m
                },
            ),
        }
    }
}

/// The context after one interface definition: a resolver contract whose
/// implementor list comes from the symbol table.
pub open spec fn s_after_interface(m: CodeGenPassModel, it: InterfaceType) -> Result<
    CodeGenPassModel,
    TranslationFailure,
> {
    let fs = s_compile_fields(m.ast_data, it.fields@, 0, FieldLocation::Interface);
    match fs.0 {
        Err(f) => Err(f),
        Ok(ms) => Ok(
            CodeGenPassModel {
                errors: m.errors + fs.1,
                interfaces: m.interfaces.push(
                    InterfaceModel {
                        name: it.name,
                        trait_name: it.name@ + "Interface"@,
                        description: it.description,
                        fields: ms,
                        implementors: crate::symbol_table::s_implementors(
                            crate::symbol_table::s_objects_view(m.ast_data.objects@),
                            it.name@,
                        ),
                    },
                ),
                ..m
            },
        ),
    }
}

/// The context after one union definition.
pub open spec fn s_after_union(m: CodeGenPassModel, un: UnionType) -> CodeGenPassModel {
    let vs = s_union_variants(m.ast_data, un.types@, 0, un.position);
    CodeGenPassModel {
        errors: m.errors + vs.1,
        unions: m.unions.push(
            UnionModel { name: un.name, description: un.description, variants: vs.0 },
        ),
        ..m
    }
}

/// The context after one input object definition.
pub open spec fn s_after_input_object(m: CodeGenPassModel, io: InputObjectType) -> (
    CodeGenPassModel
) {
    let fs = s_input_object_fields(m.ast_data, io.fields@, 0);
    CodeGenPassModel {
        errors: m.errors + fs.1,
        input_objects: m.input_objects.push(
            InputObjectModel { name: io.name, description: io.description, fields: fs.0 },
        ),
        ..m
    }
}

/// The context after one definition of any kind.
pub open spec fn s_apply_definition(m: CodeGenPassModel, def: Definition) -> Result<
    CodeGenPassModel,
    TranslationFailure,
> {
    match def {
        Definition::Schema(sd) => {
            let r = s_visit_schema_definition(sd);
            Ok(
                CodeGenPassModel {
                    errors: m.errors + r.1,
                    schema_type: match r.0 {
                        Some(st) => Some(st),
                        None => m.schema_type,
                    },
                    ..m
                },
            )
        },
        Definition::Directive(dd) => Ok(
            CodeGenPassModel {
                errors: m.errors + (if dd.name@ == "juniper"@ {
                    s_validate_juniper_directive_definition(dd)
                } else {
                    Seq::<Error>::empty()
                }),
                ..m
            },
        ),
        Definition::TypeExtension(pos) => Ok(
            CodeGenPassModel {
                errors: m.errors + seq![
                    Error { pos, kind: ErrorKind::TypeExtensionNotSupported },
                ],
                ..m
            },
        ),
        Definition::Type(TypeDefinition::Scalar(sc)) => {
            let r = s_visit_scalar(sc);
            Ok(
                CodeGenPassModel {
                    errors: m.errors + r.1,
                    scalars: m.scalars + (match r.0 {
                        Some(x) => seq![x],
                        None => Seq::<Scalar>::empty(),
                    }),
                    ..m
                },
            )
        },
        Definition::Type(TypeDefinition::Object(ob)) => s_after_object(m, ob),
        Definition::Type(TypeDefinition::Interface(it)) => s_after_interface(m, it),
        Definition::Type(TypeDefinition::Union(un)) => Ok(s_after_union(m, un)),
        Definition::Type(TypeDefinition::Enum(en)) => Ok(
            CodeGenPassModel { enums: m.enums.push(s_enum_of(en)), ..m },
        ),
        Definition::Type(TypeDefinition::InputObject(io)) => Ok(s_after_input_object(m, io)),
    }
}

/// The context after the whole visitation, definition by definition; the
/// first fatal condition aborts it.
pub open spec fn s_run_visits(m: CodeGenPassModel, defs: Seq<Definition>) -> Result<
    CodeGenPassModel,
    TranslationFailure,
>
    decreases defs.len(),
{
    if defs.len() == 0 {
        Ok(m)
    } else {
        match s_apply_definition(m, defs[0]) {
            Err(f) => Err(f),
            Ok(m2) => s_run_visits(m2, defs.drop_first()),
        }
    }
}

impl CodeGenPass {
    /// Compiles the schema block into the composed root type.
    pub fn visit_schema_definition(&mut self, node: &SchemaDefinition)
        ensures
            (final(self)@ == CodeGenPassModel {
                errors: old(self)@.errors + s_visit_schema_definition(*node).1,
                schema_type: match s_visit_schema_definition(*node).0 {
                    Some(st) => Some(st),
                    None => old(self)@.schema_type,
                },
                ..old(self)@
            }),
    {
        match &node.query {
            None => {
                self.emit_error(node.position, ErrorKind::NoQueryType);
            },
            Some(q) => {
                let mutation_type = match &node.mutation {
                    Some(m) => RootType::Named(m.clone()),
                    None => RootType::EmptyMutation,
                };
                let subscription_type = match &node.subscription {
                    Some(x) => RootType::Named(x.clone()),
                    None => RootType::EmptySubscription,
                };
                self.schema_type = Some(
                    SchemaType { query_type: q.clone(), mutation_type, subscription_type },
                );
                proof {
                    assert(self@.errors =~= old(self)@.errors + Seq::<Error>::empty());
                }
            },
        }
    }

    /// Validates the `@juniper` directive definition when it appears.
    pub fn visit_directive_definition(&mut self, node: &DirectiveDefinition)
        ensures
            (final(self)@ == CodeGenPassModel {
                errors: old(self)@.errors + (if node.name@ == "juniper"@ {
                    s_validate_juniper_directive_definition(*node)
                } else {
                    Seq::<Error>::empty()
                }),
                ..old(self)@
            }),
    {
        if str_eq(node.name.as_str(), "juniper") {
            validate_juniper_directive_definition(node, &mut self.errors);
        } else {
            proof {
                assert(self@.errors =~= old(self)@.errors + Seq::<Error>::empty());
            }
        }
    }

    /// Rejects a type extension of any kind.
    pub fn visit_type_extension(&mut self, pos: Pos)
        ensures
            (final(self)@ == CodeGenPassModel {
                errors: old(self)@.errors + seq![
                    Error { pos, kind: ErrorKind::TypeExtensionNotSupported },
                ],
                ..old(self)@
            }),
    {
        self.emit_error(pos, ErrorKind::TypeExtensionNotSupported);
    }

    /// Compiles one scalar definition.
    pub fn visit_scalar_type(&mut self, node: &ScalarType)
        ensures
            (final(self)@ == CodeGenPassModel {
                errors: old(self)@.errors + s_visit_scalar(*node).1,
                scalars: old(self)@.scalars + (match s_visit_scalar(*node).0 {
                    Some(x) => seq![x],
                    None => Seq::<Scalar>::empty(),
                }),
                ..old(self)@
            }),
    {
        if str_eq(node.name.as_str(), "DateTime") {
            if node.description.is_some() {
                self.emit_error(node.position, ErrorKind::SpecialCaseScalarWithDescription);
            }
            proof {
                assert(self@.errors =~= old(self)@.errors + s_visit_scalar(*node).1);
                assert(self@.scalars =~= old(self)@.scalars);
            }
        } else if str_eq(node.name.as_str(), "Date") || str_eq(node.name.as_str(), "Url")
            || str_eq(node.name.as_str(), "Uuid") {
            parse_scalar_directives(&node.directives, &mut self.errors);
            if node.description.is_some() {
                self.emit_error(node.position, ErrorKind::SpecialCaseScalarWithDescription);
            }
            proof {
                assert(self@.errors =~= old(self)@.errors + s_visit_scalar(*node).1);
                assert(self@.scalars =~= old(self)@.scalars);
            }
        } else {
            parse_scalar_directives(&node.directives, &mut self.errors);
            if str_eq(node.name.as_str(), "String") || str_eq(node.name.as_str(), "Float")
                || str_eq(node.name.as_str(), "Int") || str_eq(node.name.as_str(), "Boolean")
                || str_eq(node.name.as_str(), "ID") {
                self.emit_error(node.position, ErrorKind::CannotDeclareBuiltinAsScalar);
            }
            self.scalars.push(
                Scalar {
                    name: node.name.clone(),
                    description: clone_opt_string(&node.description),
                },
            );
            proof {
                assert(self@.errors =~= old(self)@.errors + s_visit_scalar(*node).1);
                assert(self@.scalars =~= old(self)@.scalars + seq![
                    s_visit_scalar(*node).0.unwrap(),
                ]);
            }
        }
    }

    /// Compiles one object definition, as the subscription root or as a
    /// plain object.
    pub fn visit_object_type(&mut self, node: &ObjectType) -> (r: Result<(), TranslationFailure>)
        ensures
            (match r {
                Ok(_) => s_after_object(old(self)@, *node) == Ok::<_, TranslationFailure>(
                    final(self)@,
                ),
                Err(f) => s_after_object(old(self)@, *node) == Err::<CodeGenPassModel, _>(f),
            }),
    {
        if self.ast_data.is_subscription_type(node.name.as_str()) {
            if node.implements_interfaces.len() > 0 {
                self.emit_error(
                    node.position,
                    ErrorKind::SubscriptionsCannotImplementInterfaces,
                );
            }
            let fields = match compile_fields(
                &self.ast_data,
                &node.fields,
                FieldLocation::Subscription,
                &mut self.errors,
            ) {
                Ok(v) => v,
                Err(f) => {
                    return Err(f);
                },
            };
            self.subscription = Some(
                Subscription {
                    name: node.name.clone(),
                    description: clone_opt_string(&node.description),
                    fields,
                },
            );
            proof {
                let m = s_after_object(old(self)@, *node)->Ok_0;
                assert(self@.errors =~= m.errors);
                assert(self@.subscription.unwrap().fields =~= m.subscription.unwrap().fields);
                assert(self@.subscription =~= m.subscription);
                assert(self@.objects =~= m.objects);
                assert(self@ == m);
            }
        } else {
            let fields = match compile_fields(
                &self.ast_data,
                &node.fields,
                FieldLocation::Object,
                &mut self.errors,
            ) {
                Ok(v) => v,
                Err(f) => {
                    return Err(f);
                },
            };
            self.objects.push(
                Object {
                    name: node.name.clone(),
                    description: clone_opt_string(&node.description),
                    fields,
                    implements_interfaces: clone_string_vec(&node.implements_interfaces),
                },
            );
            proof {
                let m = s_after_object(old(self)@, *node)->Ok_0;
                assert(self@.errors =~= m.errors);
                assert(self@.objects.last().fields =~= m.objects.last().fields);
                assert(self@.objects.last() == m.objects.last());
                assert(self@.objects =~= m.objects);
                assert(self@ == m);
            }
        }
        Ok(())
    }

    /// Compiles one interface definition.
    pub fn visit_interface_type(&mut self, node: &InterfaceType) -> (r: Result<
        (),
        TranslationFailure,
    >)
        ensures
            (match r {
                Ok(_) => s_after_interface(old(self)@, *node) == Ok::<_, TranslationFailure>(
                    final(self)@,
                ),
                Err(f) => s_after_interface(old(self)@, *node) == Err::<CodeGenPassModel, _>(f),
            }),
    {
        let fields = match compile_fields(
            &self.ast_data,
            &node.fields,
            FieldLocation::Interface,
            &mut self.errors,
        ) {
            Ok(v) => v,
            Err(f) => {
                return Err(f);
            },
        };
        let implementors = self.ast_data.get_implementors_of_interface(node.name.as_str());
        let trait_name = concat_str(node.name.as_str(), "Interface");
        self.interfaces.push(
            Interface {
                name: node.name.clone(),
                trait_name,
                description: clone_opt_string(&node.description),
                fields,
                implementors,
            },
        );
        proof {
            let m = s_after_interface(old(self)@, *node)->Ok_0;
            assert(self@.errors =~= m.errors);
            assert(self@.interfaces.last().fields =~= m.interfaces.last().fields);
            assert(self@.interfaces.last() == m.interfaces.last());
            assert(self@.interfaces =~= m.interfaces);
            assert(self@ == m);
        }
        Ok(())
    }

    /// Compiles one union definition.
    pub fn visit_union_type(&mut self, node: &UnionType)
        ensures
            final(self)@ == s_after_union(old(self)@, *node),
    {
        let ghost total = s_union_variants(self.ast_data, node.types@, 0, node.position);
        let ghost mut emitted: Seq<Error> = Seq::empty();
        let mut variants: Vec<UnionVariant> = Vec::new();
        let mut k: usize = 0;
        proof {
            assert(self@.errors =~= old(self)@.errors + emitted);
            assert(variants@ =~= Seq::<UnionVariant>::empty());
        }
        while k < node.types.len()
            invariant
                k <= node.types.len(),
                self@.errors == old(self)@.errors + emitted,
                self@.ast_data == old(self)@.ast_data,
                self@.scalars == old(self)@.scalars,
                self@.objects == old(self)@.objects,
                self@.subscription == old(self)@.subscription,
                self@.interfaces == old(self)@.interfaces,
                self@.unions == old(self)@.unions,
                self@.enums == old(self)@.enums,
                self@.input_objects == old(self)@.input_objects,
                self@.schema_type == old(self)@.schema_type,
                self@.error_type == old(self)@.error_type,
                self@.context_type == old(self)@.context_type,
                total == s_union_variants(self.ast_data, node.types@, 0, node.position),
                variants@ + s_union_variants(
                    self.ast_data,
                    node.types@,
                    k as int,
                    node.position,
                ).0 == total.0,
                emitted + s_union_variants(
                    self.ast_data,
                    node.types@,
                    k as int,
                    node.position,
                ).1 == total.1,
            decreases node.types.len() - k,
        {
            let named = crate::ast::SchemaTypeRef::Named(node.types[k].clone());
            let ghost head = s_map_schema_type(
                self.ast_data,
                crate::ast::SchemaTypeRef::Named(node.types@[k as int]),
                false,
                node.position,
            );
            let mapped = graphql_type_to_rust_type(
                &self.ast_data,
                &named,
                false,
                node.position,
                &mut self.errors,
            );
            let inner = mapped.remove_one_layer_of_nullability_by_value();
            variants.push(UnionVariant { rust_name: node.types[k].clone(), type_inside: *inner });
            proof {
                emitted = emitted + head.1;
                assert(self@.errors =~= old(self)@.errors + emitted);
                assert(variants@ + s_union_variants(
                    self.ast_data,
                    node.types@,
                    k as int + 1,
                    node.position,
                ).0 =~= total.0);
                assert(emitted + s_union_variants(
                    self.ast_data,
                    node.types@,
                    k as int + 1,
                    node.position,
                ).1 =~= total.1);
            }
            k += 1;
        }
        self.unions.push(
            Union {
                name: node.name.clone(),
                description: clone_opt_string(&node.description),
                variants,
            },
        );
        proof {
            let m = s_after_union(old(self)@, *node);
            assert(variants@ =~= total.0);
            assert(emitted =~= total.1);
            assert(self@.errors =~= m.errors);
            assert(self@.unions.last() == m.unions.last());
            assert(self@.unions =~= m.unions);
            assert(self@ == m);
        }
    }

    /// Compiles one enum definition.
    pub fn visit_enum_type(&mut self, node: &EnumType)
        ensures
            (final(self)@ == CodeGenPassModel {
                enums: old(self)@.enums.push(s_enum_of(*node)),
                ..old(self)@
            }),
    {
        let mut variants: Vec<EnumVariant> = Vec::new();
        let mut k: usize = 0;
        while k < node.values.len()
            invariant
                k <= node.values.len(),
                variants@.len() == k,
                forall|j: int|
                    0 <= j < k ==> enum_variant_view(#[trigger] variants@[j]) == s_enum_variant(
                        node.values@[j],
                    ),
        decreases node.values.len() - k,
        {
            let v = &node.values[k];
            let deprecation = parse_enum_value_directives(&v.directives);
            variants.push(
                EnumVariant {
                    name: crate::text::to_camel_case(v.name.as_str()),
                    graphql_name: v.name.clone(),
                    deprecation,
                    description: clone_opt_string(&v.description),
                },
            );
            k += 1;
        }
        self.enums.push(
            Enum {
                name: node.name.clone(),
                description: clone_opt_string(&node.description),
                variants,
            },
        );
        proof {
            assert(self@.enums.last().variants =~= s_enum_of(*node).variants);
            assert(self@.enums.last() == s_enum_of(*node));
            assert(self@.enums =~= old(self)@.enums.push(s_enum_of(*node)));
            assert(self@.errors =~= old(self)@.errors);
        }
    }

    /// Compiles one input object definition.
    pub fn visit_input_object_type(&mut self, node: &InputObjectType)
        ensures
            final(self)@ == s_after_input_object(old(self)@, *node),
    {
        let ghost total = s_input_object_fields(self.ast_data, node.fields@, 0);
        let ghost mut emitted: Seq<Error> = Seq::empty();
        let mut fields: Vec<InputObjectField> = Vec::new();
        let mut k: usize = 0;
        proof {
            assert(self@.errors =~= old(self)@.errors + emitted);
            assert(Seq::new(fields@.len(), |i: int| input_object_field_view(fields@[i])) =~= Seq::<
                InputObjectFieldModel,
            >::empty());
        }
        while k < node.fields.len()
            invariant
                k <= node.fields.len(),
                self@.errors == old(self)@.errors + emitted,
                self@.ast_data == old(self)@.ast_data,
                self@.scalars == old(self)@.scalars,
                self@.objects == old(self)@.objects,
                self@.subscription == old(self)@.subscription,
                self@.interfaces == old(self)@.interfaces,
                self@.unions == old(self)@.unions,
                self@.enums == old(self)@.enums,
                self@.input_objects == old(self)@.input_objects,
                self@.schema_type == old(self)@.schema_type,
                self@.error_type == old(self)@.error_type,
                self@.context_type == old(self)@.context_type,
                total == s_input_object_fields(self.ast_data, node.fields@, 0),
                Seq::new(fields@.len(), |i: int| input_object_field_view(fields@[i]))
                    + s_input_object_fields(self.ast_data, node.fields@, k as int).0 == total.0,
                emitted + s_input_object_fields(self.ast_data, node.fields@, k as int).1
                    == total.1,
            decreases node.fields.len() - k,
        {
            let f = &node.fields[k];
            if f.default_value.is_some() {
                self.emit_error(f.position, ErrorKind::InputTypeFieldWithDefaultValue);
            }
            let ty = graphql_type_to_rust_type(
                &self.ast_data,
                &f.value_type,
                false,
                f.position,
                &mut self.errors,
            );
            let ghost fields_before = fields@;
            fields.push(
                InputObjectField {
                    name: to_snake_case(f.name.as_str()),
                    ty,
                    description: clone_opt_string(&f.description),
                },
            );
            proof {
                let fdef = node.fields@[k as int];
                let dv_err: Seq<Error> = if fdef.default_value is Some {
                    seq![
                        Error {
                            pos: fdef.position,
                            kind: ErrorKind::InputTypeFieldWithDefaultValue,
                        },
                    ]
                } else {
                    Seq::empty()
                };
                emitted = emitted + dv_err + s_map_schema_type(
                    self.ast_data,
                    fdef.value_type,
                    false,
                    fdef.position,
                ).1;
                assert(self@.errors =~= old(self)@.errors + emitted);
                assert(Seq::new(fields@.len(), |i: int| input_object_field_view(fields@[i]))
                    =~= Seq::new(
                    fields_before.len(),
                    |i: int| input_object_field_view(fields_before[i]),
                ) + seq![input_object_field_view(fields@[fields_before.len() as int])]);
                assert(Seq::new(fields@.len(), |i: int| input_object_field_view(fields@[i]))
                    + s_input_object_fields(self.ast_data, node.fields@, k as int + 1).0
                    =~= total.0);
                assert(emitted + s_input_object_fields(
                    self.ast_data,
                    node.fields@,
                    k as int + 1,
                ).1 =~= total.1);
            }
            k += 1;
        }
        self.input_objects.push(
            InputObject {
                name: node.name.clone(),
                description: clone_opt_string(&node.description),
                fields,
            },
        );
        proof {
            let m = s_after_input_object(old(self)@, *node);
            assert(emitted =~= total.1);
            assert(self@.errors =~= m.errors);
            assert(self@.input_objects.last().fields =~= m.input_objects.last().fields);
            assert(self@.input_objects.last() == m.input_objects.last());
            assert(self@.input_objects =~= m.input_objects);
            assert(self@ == m);
        }
    }

    /// Dispatches one definition to its visit.
    pub fn visit_definition(&mut self, def: &Definition) -> (r: Result<(), TranslationFailure>)
        ensures
            (match r {
                Ok(_) => s_apply_definition(old(self)@, *def) == Ok::<_, TranslationFailure>(
                    final(self)@,
                ),
                Err(f) => s_apply_definition(old(self)@, *def) == Err::<CodeGenPassModel, _>(f),
            }),
    {
        match def {
            Definition::Schema(sd) => {
                self.visit_schema_definition(sd);
                Ok(())
            },
            Definition::Directive(dd) => {
                self.visit_directive_definition(dd);
                Ok(())
            },
            Definition::TypeExtension(pos) => {
                self.visit_type_extension(*pos);
                Ok(())
            },
            Definition::Type(TypeDefinition::Scalar(sc)) => {
                self.visit_scalar_type(sc);
                Ok(())
            },
            Definition::Type(TypeDefinition::Object(ob)) => self.visit_object_type(ob),
            Definition::Type(TypeDefinition::Interface(it)) => self.visit_interface_type(it),
            Definition::Type(TypeDefinition::Union(un)) => {
                self.visit_union_type(un);
                Ok(())
            },
            Definition::Type(TypeDefinition::Enum(en)) => {
                self.visit_enum_type(en);
                Ok(())
            },
            Definition::Type(TypeDefinition::InputObject(io)) => {
                self.visit_input_object_type(io);
                Ok(())
            },
        }
    }

    /// Runs both validation lints over the document and merges their
    /// diagnostics into the accumulator, field-name diagnostics first.
    pub fn validate_doc(&mut self, doc: &Document)
        ensures
            (final(self)@ == CodeGenPassModel {
                errors: old(self)@.errors + s_validate_doc(doc.definitions@),
                ..old(self)@
            }),
    {
        let mut field_validator = FieldNameCaseValidator::new();
        field_validator.visit_document(doc);
        let mut uuid_validator = UuidNameCaseValidator::new();
        uuid_validator.visit_document(doc);
        let ghost fv = field_validator.errors@;
        let ghost uv = uuid_validator.errors@;
        let mut i: usize = 0;
        while i < field_validator.errors.len()
            invariant
                i <= field_validator.errors.len(),
                field_validator.errors@ == fv,
                self@.errors == old(self)@.errors + fv.take(i as int),
                self@.ast_data == old(self)@.ast_data,
                self@.scalars == old(self)@.scalars,
                self@.objects == old(self)@.objects,
                self@.subscription == old(self)@.subscription,
                self@.interfaces == old(self)@.interfaces,
                self@.unions == old(self)@.unions,
                self@.enums == old(self)@.enums,
                self@.input_objects == old(self)@.input_objects,
                self@.schema_type == old(self)@.schema_type,
                self@.error_type == old(self)@.error_type,
                self@.context_type == old(self)@.context_type,
            decreases field_validator.errors.len() - i,
        {
            self.errors.push(field_validator.errors[i].clone());
            proof {
                assert(self@.errors =~= old(self)@.errors + fv.take(i as int + 1));
            }
            i += 1;
        }
        proof {
            assert(fv.take(fv.len() as int) =~= fv);
        }
        let mut j: usize = 0;
        while j < uuid_validator.errors.len()
            invariant
                j <= uuid_validator.errors.len(),
                uuid_validator.errors@ == uv,
                self@.errors == old(self)@.errors + fv + uv.take(j as int),
                self@.ast_data == old(self)@.ast_data,
                self@.scalars == old(self)@.scalars,
                self@.objects == old(self)@.objects,
                self@.subscription == old(self)@.subscription,
                self@.interfaces == old(self)@.interfaces,
                self@.unions == old(self)@.unions,
                self@.enums == old(self)@.enums,
                self@.input_objects == old(self)@.input_objects,
                self@.schema_type == old(self)@.schema_type,
                self@.error_type == old(self)@.error_type,
                self@.context_type == old(self)@.context_type,
            decreases uuid_validator.errors.len() - j,
        {
            self.errors.push(uuid_validator.errors[j].clone());
            proof {
                assert(self@.errors =~= old(self)@.errors + fv + uv.take(j as int + 1));
            }
            j += 1;
        }
        proof {
            assert(uv.take(uv.len() as int) =~= uv);
            assert(self@.errors =~= old(self)@.errors + s_validate_doc(doc.definitions@));
        }
    }
}

/// Why a compilation produced no artifact: a non-empty frozen report at a
/// checkpoint, or a fatal translation condition.
pub enum CompileError {
    Diagnostics(Vec<Error>),
    Fatal(TranslationFailure),
}

/// Everything a successful compilation emits.
pub struct Artifact {
    pub scalars: Vec<Scalar>,
    pub objects: Vec<Object>,
    pub subscription: Option<Subscription>,
    pub interfaces: Vec<Interface>,
    pub unions: Vec<Union>,
    pub enums: Vec<Enum>,
    pub input_objects: Vec<InputObject>,
    pub schema_type: Option<SchemaType>,
    pub query_trails: Vec<TrailMethods>,
}

/// Whether an artifact is exactly what a finished context and the trail
/// generator determine.
pub open spec fn artifact_matches(
    a: Artifact,
    m: CodeGenPassModel,
    trails: Seq<TrailMethodsModel>,
) -> bool {
    &&& a.scalars@ == m.scalars
    &&& Seq::new(a.objects@.len(), |i: int| object_view(a.objects@[i])) == m.objects
    &&& (match a.subscription {
        Some(s) => m.subscription == Some(subscription_view(s)),
        None => m.subscription is None,
    })
    &&& Seq::new(a.interfaces@.len(), |i: int| interface_view(a.interfaces@[i])) == m.interfaces
    &&& Seq::new(a.unions@.len(), |i: int| union_view(a.unions@[i])) == m.unions
    &&& Seq::new(a.enums@.len(), |i: int| enum_view(a.enums@[i])) == m.enums
    &&& Seq::new(a.input_objects@.len(), |i: int| input_object_view(a.input_objects@[i]))
        == m.input_objects
    &&& a.schema_type == m.schema_type
    &&& Seq::new(a.query_trails@.len(), |i: int| trail_methods_view(a.query_trails@[i])) == trails
}

impl CodeGenPass {
    /// The whole compilation: the validation lints, the first checkpoint,
    /// the visitation of every definition together with the query-trail
    /// generation, and the second checkpoint. No artifact is produced
    /// unless both checkpoints pass with an empty report.
    pub fn gen_juniper_code(self, doc: &Document) -> (r: Result<Artifact, CompileError>)
        requires
            self@.errors.len() == 0,
        ensures
            ({
                let v = s_validate_doc(doc.definitions@);
                if v.len() != 0 {
                    r matches Err(CompileError::Diagnostics(es)) && es@ == s_checkpoint(v)
                } else {
                    match s_run_visits(self@, doc.definitions@) {
                        Err(f) => r matches Err(CompileError::Fatal(f2)) && f2 == f,
                        Ok(mf) => {
                            if mf.errors.len() != 0 {
                                r matches Err(CompileError::Diagnostics(es)) && es@
                                    == s_checkpoint(mf.errors)
                            } else {
                                r matches Ok(a) && artifact_matches(
                                    a,
                                    mf,
                                    s_query_trails(self@.ast_data, doc.definitions@),
                                )
                            }
                        },
                    }
                }
            }),
    {
        let mut pass = self;
        let ghost m0 = pass@;
        proof {
            assert(m0 == self@);
        }
        pass.validate_doc(doc);
        match pass.check_for_errors() {
            Err(es) => {
                proof {
                    assert(pass@.errors =~= s_validate_doc(doc.definitions@));
                }
                return Err(CompileError::Diagnostics(es));
            },
            Ok(_) => {},
        }
        proof {
            assert(s_validate_doc(doc.definitions@).len() == 0);
            assert(pass@.errors =~= m0.errors);
            assert(pass@ == m0);
        }
        let query_trails = gen_query_trails(doc, &pass.ast_data);
        let defs = &doc.definitions;
        let mut i: usize = 0;
        proof {
            assert(defs@.skip(0) =~= defs@);
        }
        while i < defs.len()
            invariant
                i <= defs.len(),
                s_run_visits(pass@, defs@.skip(i as int)) == s_run_visits(m0, defs@),
                pass@.ast_data == m0.ast_data,
                defs == doc.definitions,
                m0 == self@,
                s_validate_doc(doc.definitions@).len() == 0,
                Seq::new(query_trails@.len(), |j: int| trail_methods_view(query_trails@[j]))
                    == s_query_trails(m0.ast_data, defs@),
            decreases defs.len() - i,
        {
            proof {
                assert(defs@.skip(i as int).drop_first() =~= defs@.skip(i as int + 1));
                assert(defs@.skip(i as int)[0] == defs@[i as int]);
            }
            let ghost pre = pass@;
            match pass.visit_definition(&defs[i]) {
                Err(f) => {
                    proof {
                        assert(s_apply_definition(pre, defs@[i as int]) == Err::<
                            CodeGenPassModel,
                            _,
                        >(f));
                        assert(s_run_visits(pre, defs@.skip(i as int)) == Err::<
                            CodeGenPassModel,
                            _,
                        >(f));
                        assert(s_run_visits(m0, defs@) == Err::<CodeGenPassModel, _>(f));
                        assert(s_run_visits(m0, doc.definitions@) == Err::<CodeGenPassModel, _>(
                            f,
                        ));
                        assert(s_validate_doc(doc.definitions@).len() == 0);
                    }
                    return Err(CompileError::Fatal(f));
                },
                Ok(_) => {},
            }
            i += 1;
        }
        proof {
            assert(defs@.skip(defs@.len() as int).len() == 0);
            assert(s_run_visits(m0, defs@) == Ok::<_, TranslationFailure>(pass@));
        }
        match pass.check_for_errors() {
            Err(es) => {
                return Err(CompileError::Diagnostics(es));
            },
            Ok(_) => {},
        }
        let ghost pm = pass@;
        let a = Artifact {
            scalars: pass.scalars,
            objects: pass.objects,
            subscription: pass.subscription,
            interfaces: pass.interfaces,
            unions: pass.unions,
            enums: pass.enums,
            input_objects: pass.input_objects,
            schema_type: pass.schema_type,
            query_trails,
        };
        proof {
            assert(Seq::new(a.objects@.len(), |i: int| object_view(a.objects@[i])) =~= pm.objects);
            assert(Seq::new(a.interfaces@.len(), |i: int| interface_view(a.interfaces@[i]))
                =~= pm.interfaces);
            assert(Seq::new(a.unions@.len(), |i: int| union_view(a.unions@[i])) =~= pm.unions);
            assert(Seq::new(a.enums@.len(), |i: int| enum_view(a.enums@[i])) =~= pm.enums);
            assert(Seq::new(a.input_objects@.len(), |i: int| input_object_view(a.input_objects@[i]))
                =~= pm.input_objects);
            assert(artifact_matches(a, pm, s_query_trails(m0.ast_data, defs@)));
        }
        Ok(a)
    }
}

} // verus!
