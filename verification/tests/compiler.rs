use juniper_from_schema_code_gen::ast::{
    Definition, DirectiveDefinition, DirectiveUse, Document, EnumType, EnumValueDef,
    FieldDefinition, InputObjectType, InputValueDef, ObjectType, ScalarType, SchemaDefinition,
    SchemaTypeRef, TypeDefinition, UnionType, Value,
};
use juniper_from_schema_code_gen::code_gen_pass::{Artifact, CodeGenPass, CompileError, RootType};
use juniper_from_schema_code_gen::directive_parsing::{Deprecation, Ownership};
use juniper_from_schema_code_gen::error::{DirectiveArgName, DirectiveIssue, DirectiveLocation, Error, ErrorKind, Pos};
use juniper_from_schema_code_gen::rust_type::{BuiltinScalar, ScalarRepr, Type};
use juniper_from_schema_code_gen::symbol_table::AstData;
use juniper_from_schema_code_gen::type_mapper::graphql_type_to_rust_type;

fn pos(line: usize, column: usize) -> Pos {
    Pos { line, column }
}

fn scalar_def(name: &str, line: usize) -> Definition {
    Definition::Type(TypeDefinition::Scalar(ScalarType {
        position: pos(line, 1),
        description: None,
        name: name.to_string(),
        directives: vec![],
    }))
}

fn field(name: &str, ty: SchemaTypeRef, line: usize) -> FieldDefinition {
    FieldDefinition {
        position: pos(line, 3),
        description: None,
        name: name.to_string(),
        arguments: vec![],
        field_type: ty,
        directives: vec![],
    }
}

fn object_def(name: &str, fields: Vec<FieldDefinition>, line: usize) -> Definition {
    Definition::Type(TypeDefinition::Object(ObjectType {
        position: pos(line, 1),
        description: None,
        name: name.to_string(),
        implements_interfaces: vec![],
        directives: vec![],
        fields,
    }))
}

fn named(name: &str) -> SchemaTypeRef {
    SchemaTypeRef::Named(name.to_string())
}

fn non_null(inner: SchemaTypeRef) -> SchemaTypeRef {
    SchemaTypeRef::NonNull(Box::new(inner))
}

fn compile(doc: &Document) -> Result<Artifact, CompileError> {
    let table = AstData::new(doc);
    let pass = CodeGenPass::new("MyError".to_string(), "Ctx".to_string(), table);
    pass.gen_juniper_code(doc)
}

fn diagnostics(r: Result<Artifact, CompileError>) -> Vec<Error> {
    match r {
        Err(CompileError::Diagnostics(es)) => es,
        Err(CompileError::Fatal(_)) => panic!("expected diagnostics, got a fatal failure"),
        Ok(_) => panic!("expected diagnostics, compilation succeeded"),
    }
}

#[test]
fn declared_uuid_scalar_field_compiles_clean() {
    let doc = Document {
        definitions: vec![
            scalar_def("Uuid", 1),
            object_def("Query", vec![field("id", non_null(named("Uuid")), 3)], 2),
        ],
    };
    let artifact = compile(&doc).unwrap_or_else(|_| panic!("expected a clean compile"));
    assert_eq!(artifact.objects.len(), 1);
    let f = &artifact.objects[0].fields[0];
    // `Uuid!` is non-null: the mapped type is the bare UUID scalar concept.
    assert!(matches!(
        f.return_type,
        Type::Scalar(ScalarRepr::Builtin(BuiltinScalar::Uuid))
    ));
}

#[test]
fn undeclared_uuid_scalar_yields_one_diagnostic() {
    let doc = Document {
        definitions: vec![object_def(
            "Query",
            vec![field("id", named("Uuid"), 2)],
            1,
        )],
    };
    let es = diagnostics(compile(&doc));
    assert_eq!(es.len(), 1);
    assert!(matches!(es[0].kind, ErrorKind::UuidScalarNotDefined));
}

#[test]
fn undeclared_uuid_still_maps_to_uuid_concept() {
    let doc = Document { definitions: vec![] };
    let table = AstData::new(&doc);
    let mut errs: Vec<Error> = Vec::new();
    let ty = graphql_type_to_rust_type(&table, &named("Uuid"), false, pos(1, 1), &mut errs);
    assert_eq!(errs.len(), 1);
    assert!(matches!(errs[0].kind, ErrorKind::UuidScalarNotDefined));
    // nullable wrapper around the UUID concept
    match ty {
        Type::Nullable(inner) => assert!(matches!(
            *inner,
            Type::Scalar(ScalarRepr::Builtin(BuiltinScalar::Uuid))
        )),
        other => panic!("expected a nullable UUID scalar, got {:?}", type_label(&other)),
    }
}

fn type_label(t: &Type) -> &'static str {
    match t {
        Type::Scalar(_) => "scalar",
        Type::Enum(_) => "enum",
        Type::Union(_) => "union",
        Type::Interface(_) => "interface",
        Type::Object(_) => "object",
        Type::Ref(_) => "ref",
        Type::List(_) => "list",
        Type::Nullable(_) => "nullable",
    }
}

#[test]
fn camel_case_field_name_passes_lint() {
    let doc = Document {
        definitions: vec![object_def(
            "Query",
            vec![field("name", named("String"), 2)],
            1,
        )],
    };
    let artifact = compile(&doc).unwrap_or_else(|_| panic!("expected a clean compile"));
    assert_eq!(artifact.objects.len(), 1);
}

#[test]
fn snake_case_field_name_yields_one_diagnostic() {
    let doc = Document {
        definitions: vec![object_def(
            "Query",
            vec![field("user_name", named("String"), 2)],
            1,
        )],
    };
    let es = diagnostics(compile(&doc));
    assert_eq!(es.len(), 1);
    assert!(matches!(es[0].kind, ErrorKind::FieldNameInSnakeCase));
    assert_eq!(es[0].pos, pos(2, 3));
}

fn subscription_doc(ownership: &str) -> Document {
    let mut f = field("events", SchemaTypeRef::List(Box::new(named("String"))), 4);
    f.directives = vec![DirectiveUse {
        position: pos(4, 10),
        name: "juniper".to_string(),
        arguments: vec![(
            "ownership".to_string(),
            Value::Str(ownership.to_string()),
        )],
    }];
    Document {
        definitions: vec![
            Definition::Schema(SchemaDefinition {
                position: pos(1, 1),
                directives: vec![],
                query: Some("Query".to_string()),
                mutation: None,
                subscription: Some("Sub".to_string()),
            }),
            object_def("Query", vec![field("ping", named("String"), 2)], 2),
            object_def("Sub", vec![f], 3),
        ],
    }
}

#[test]
fn as_ref_subscription_field_yields_must_be_owned() {
    let es = diagnostics(compile(&subscription_doc("as_ref")));
    let owned_errors: Vec<&Error> = es
        .iter()
        .filter(|e| matches!(e.kind, ErrorKind::SubscriptionFieldMustBeOwned))
        .collect();
    assert_eq!(owned_errors.len(), 1);
}

#[test]
fn owned_subscription_field_compiles_clean() {
    let artifact =
        compile(&subscription_doc("owned")).unwrap_or_else(|_| panic!("expected a clean compile"));
    let sub = artifact.subscription.expect("subscription root expected");
    assert_eq!(sub.name, "Sub");
    assert_eq!(sub.fields.len(), 1);
    assert!(artifact.schema_type.is_some());
    let st = artifact.schema_type.unwrap();
    assert_eq!(st.query_type, "Query");
    assert!(matches!(st.mutation_type, RootType::EmptyMutation));
    assert!(matches!(st.subscription_type, RootType::Named(ref n) if n == "Sub"));
}

fn input_object_with_default(nullable: bool) -> Document {
    Document {
        definitions: vec![Definition::Type(TypeDefinition::InputObject(
            InputObjectType {
                position: pos(1, 1),
                description: None,
                name: "Filter".to_string(),
                directives: vec![],
                fields: vec![InputValueDef {
                    position: pos(2, 3),
                    description: None,
                    name: "limit".to_string(),
                    value_type: if nullable { named("Int") } else { non_null(named("Int")) },
                    default_value: Some(Value::Int(5)),
                    directives: vec![],
                }],
            },
        ))],
    }
}

#[test]
fn input_object_field_default_rejected_when_nullable() {
    let es = diagnostics(compile(&input_object_with_default(true)));
    assert_eq!(es.len(), 1);
    assert!(matches!(es[0].kind, ErrorKind::InputTypeFieldWithDefaultValue));
}

#[test]
fn input_object_field_default_rejected_when_non_nullable() {
    let es = diagnostics(compile(&input_object_with_default(false)));
    assert_eq!(es.len(), 1);
    assert!(matches!(es[0].kind, ErrorKind::InputTypeFieldWithDefaultValue));
}

fn juniper_arg(name: &str, ty: &str, default: Option<Value>, line: usize) -> InputValueDef {
    InputValueDef {
        position: pos(line, 3),
        description: None,
        name: name.to_string(),
        value_type: named(ty),
        default_value: default,
        directives: vec![],
    }
}

fn canonical_juniper_directive(skip: Option<&str>) -> DirectiveDefinition {
    let mut arguments = Vec::new();
    let all: Vec<(&str, &str, Value)> = vec![
        ("ownership", "String", Value::Str("borrowed".to_string())),
        ("infallible", "Boolean", Value::Boolean(false)),
        ("with_time_zone", "Boolean", Value::Boolean(true)),
        ("async", "Boolean", Value::Boolean(false)),
        ("stream_item_infallible", "Boolean", Value::Boolean(true)),
        ("stream_type", "String", Value::Null),
    ];
    for (i, (name, ty, default)) in all.into_iter().enumerate() {
        if Some(name) == skip {
            continue;
        }
        arguments.push(juniper_arg(name, ty, Some(default), i + 2));
    }
    DirectiveDefinition {
        position: pos(1, 1),
        description: None,
        name: "juniper".to_string(),
        arguments,
        locations: vec![
            DirectiveLocation::FieldDefinition,
            DirectiveLocation::Scalar,
        ],
    }
}

#[test]
fn canonical_directive_definition_accepted() {
    let doc = Document {
        definitions: vec![Definition::Directive(canonical_juniper_directive(None))],
    };
    assert!(compile(&doc).is_ok());
}

#[test]
fn directive_definition_missing_ownership_is_reported() {
    let doc = Document {
        definitions: vec![Definition::Directive(canonical_juniper_directive(Some(
            "ownership",
        )))],
    };
    let es = diagnostics(compile(&doc));
    assert_eq!(es.len(), 1);
    assert!(matches!(
        es[0].kind,
        ErrorKind::InvalidJuniperDirective(DirectiveIssue::MissingArg(DirectiveArgName::Ownership))
    ));
}

#[test]
fn directive_definition_wrong_location_is_reported() {
    let mut d = canonical_juniper_directive(None);
    d.locations = vec![
        DirectiveLocation::FieldDefinition,
        DirectiveLocation::Scalar,
        DirectiveLocation::Enum,
    ];
    let doc = Document { definitions: vec![Definition::Directive(d)] };
    let es = diagnostics(compile(&doc));
    assert_eq!(es.len(), 1);
    assert!(matches!(
        es[0].kind,
        ErrorKind::InvalidJuniperDirective(DirectiveIssue::InvalidLocation(DirectiveLocation::Enum))
    ));
}

#[test]
fn as_ref_on_bare_named_type_yields_one_diagnostic() {
    let mut f = field("name", non_null(named("String")), 2);
    f.directives = vec![DirectiveUse {
        position: pos(2, 10),
        name: "juniper".to_string(),
        arguments: vec![("ownership".to_string(), Value::Str("as_ref".to_string()))],
    }];
    let doc = Document { definitions: vec![object_def("Query", vec![f], 1)] };
    let es = diagnostics(compile(&doc));
    let asrefs: Vec<&Error> = es
        .iter()
        .filter(|e| matches!(e.kind, ErrorKind::AsRefOwnershipForNamedType))
        .collect();
    assert_eq!(asrefs.len(), 1);
    assert_eq!(es.len(), 1);
}

#[test]
fn as_ref_on_list_type_is_accepted_and_wraps_a_borrow() {
    let mut f = field("names", SchemaTypeRef::List(Box::new(named("String"))), 2);
    f.directives = vec![DirectiveUse {
        position: pos(2, 10),
        name: "juniper".to_string(),
        arguments: vec![("ownership".to_string(), Value::Str("as_ref".to_string()))],
    }];
    let doc = Document { definitions: vec![object_def("Query", vec![f], 1)] };
    let artifact = compile(&doc).unwrap_or_else(|_| panic!("expected a clean compile"));
    let rt = &artifact.objects[0].fields[0].return_type;
    // [String] with as-ref: Nullable(Ref(List(Nullable(Ref(...))))) — the
    // borrow marker sits directly inside the outermost wrapper only.
    match rt {
        Type::Nullable(a) => match a.as_ref() {
            Type::Ref(b) => assert!(matches!(b.as_ref(), Type::List(_))),
            other => panic!("expected a borrow inside the nullable wrapper, got {}", type_label(other)),
        },
        other => panic!("expected a nullable shape, got {}", type_label(other)),
    }
}

#[test]
fn mapping_is_deterministic_across_runs() {
    let doc = Document {
        definitions: vec![
            scalar_def("Uuid", 1),
            Definition::Type(TypeDefinition::Enum(EnumType {
                position: pos(2, 1),
                description: None,
                name: "Color".to_string(),
                directives: vec![],
                values: vec![],
            })),
        ],
    };
    let table = AstData::new(&doc);
    let reference = SchemaTypeRef::List(Box::new(non_null(named("Color"))));
    let mut errs1: Vec<Error> = Vec::new();
    let mut errs2: Vec<Error> = Vec::new();
    let t1 = graphql_type_to_rust_type(&table, &reference, false, pos(9, 9), &mut errs1);
    let t2 = graphql_type_to_rust_type(&table, &reference, false, pos(9, 9), &mut errs2);
    assert_eq!(errs1.len(), errs2.len());
    match (&t1, &t2) {
        (Type::Nullable(a), Type::Nullable(b)) => match (a.as_ref(), b.as_ref()) {
            (Type::List(x), Type::List(y)) => {
                assert!(matches!(x.as_ref(), Type::Enum(n) if n == "Color"));
                assert!(matches!(y.as_ref(), Type::Enum(n) if n == "Color"));
            }
            _ => panic!("expected list shapes"),
        },
        _ => panic!("expected nullable shapes"),
    }
}

#[test]
fn innermost_type_is_always_a_leaf() {
    let doc = Document { definitions: vec![] };
    let table = AstData::new(&doc);
    let reference = SchemaTypeRef::List(Box::new(SchemaTypeRef::List(Box::new(non_null(
        named("String"),
    )))));
    let mut errs: Vec<Error> = Vec::new();
    let ty = graphql_type_to_rust_type(&table, &reference, true, pos(1, 1), &mut errs);
    let leaf = ty.innermost_type();
    assert!(matches!(
        leaf,
        Type::Scalar(ScalarRepr::Builtin(BuiltinScalar::Str))
    ));
}

#[test]
fn union_variants_and_enum_variants_compile() {
    let doc = Document {
        definitions: vec![
            object_def("Photo", vec![field("url", named("String"), 2)], 1),
            object_def("Person", vec![field("name", named("String"), 4)], 3),
            Definition::Type(TypeDefinition::Union(UnionType {
                position: pos(5, 1),
                description: None,
                name: "SearchResult".to_string(),
                directives: vec![],
                types: vec!["Photo".to_string(), "Person".to_string()],
            })),
            Definition::Type(TypeDefinition::Enum(EnumType {
                position: pos(6, 1),
                description: None,
                name: "Color".to_string(),
                directives: vec![],
                values: vec![
                    EnumValueDef {
                        position: pos(7, 3),
                        description: None,
                        name: "RED_ISH".to_string(),
                        directives: vec![],
                    },
                ],
            })),
        ],
    };
    let artifact = compile(&doc).unwrap_or_else(|_| panic!("expected a clean compile"));
    assert_eq!(artifact.unions.len(), 1);
    let u = &artifact.unions[0];
    assert_eq!(u.variants.len(), 2);
    assert_eq!(u.variants[0].rust_name, "Photo");
    assert!(matches!(&u.variants[0].type_inside, Type::Object(n) if n == "Photo"));
    // the enum variant name is camel-cased by the real case conversion
    let e = &artifact.enums[0];
    assert_eq!(e.variants[0].name, "RedIsh");
    assert_eq!(e.variants[0].graphql_name, "RED_ISH");
}

#[test]
fn errors_are_reported_sorted_by_position() {
    let doc = Document {
        definitions: vec![
            object_def("B", vec![field("b_name", named("String"), 9)], 8),
            object_def("A", vec![field("a_name", named("String"), 3)], 2),
        ],
    };
    let es = diagnostics(compile(&doc));
    assert_eq!(es.len(), 2);
    assert_eq!(es[0].pos, pos(3, 3));
    assert_eq!(es[1].pos, pos(9, 3));
}

#[test]
fn uppercase_uuid_scalar_is_rejected() {
    let doc = Document { definitions: vec![scalar_def("UUID", 1)] };
    let es = diagnostics(compile(&doc));
    assert_eq!(es.len(), 1);
    assert!(matches!(es[0].kind, ErrorKind::UppercaseUuidScalar));
}

#[test]
fn builtin_scalar_redeclaration_is_rejected() {
    let doc = Document { definitions: vec![scalar_def("String", 1)] };
    let es = diagnostics(compile(&doc));
    assert_eq!(es.len(), 1);
    assert!(matches!(es[0].kind, ErrorKind::CannotDeclareBuiltinAsScalar));
}

#[test]
fn type_extension_is_rejected() {
    let doc = Document {
        definitions: vec![Definition::TypeExtension(pos(4, 1))],
    };
    let es = diagnostics(compile(&doc));
    assert_eq!(es.len(), 1);
    assert!(matches!(es[0].kind, ErrorKind::TypeExtensionNotSupported));
}

#[test]
fn missing_query_root_is_a_hard_error() {
    let doc = Document {
        definitions: vec![Definition::Schema(SchemaDefinition {
            position: pos(1, 1),
            directives: vec![],
            query: None,
            mutation: None,
            subscription: None,
        })],
    };
    let es = diagnostics(compile(&doc));
    assert_eq!(es.len(), 1);
    assert!(matches!(es[0].kind, ErrorKind::NoQueryType));
}

#[test]
fn interface_collects_implementors_declared_later() {
    let mut photo = object_def("Photo", vec![field("url", named("String"), 4)], 3);
    if let Definition::Type(TypeDefinition::Object(ob)) = &mut photo {
        ob.implements_interfaces = vec!["Node".to_string()];
    }
    let mut person = object_def("Person", vec![field("name", named("String"), 6)], 5);
    if let Definition::Type(TypeDefinition::Object(ob)) = &mut person {
        ob.implements_interfaces = vec!["Node".to_string()];
    }
    let doc = Document {
        definitions: vec![
            Definition::Type(TypeDefinition::Interface(
                juniper_from_schema_code_gen::ast::InterfaceType {
                    position: pos(1, 1),
                    description: None,
                    name: "Node".to_string(),
                    directives: vec![],
                    fields: vec![field("id", non_null(named("ID")), 2)],
                },
            )),
            photo,
            person,
        ],
    };
    let artifact = compile(&doc).unwrap_or_else(|_| panic!("expected a clean compile"));
    assert_eq!(artifact.interfaces.len(), 1);
    let it = &artifact.interfaces[0];
    assert_eq!(it.trait_name, "NodeInterface");
    assert_eq!(it.implementors, vec!["Photo".to_string(), "Person".to_string()]);
}

#[test]
fn date_time_scalar_honours_with_time_zone_choice() {
    let mut sc = scalar_def("DateTime", 1);
    if let Definition::Type(TypeDefinition::Scalar(s)) = &mut sc {
        s.directives = vec![DirectiveUse {
            position: pos(1, 10),
            name: "juniper".to_string(),
            arguments: vec![("with_time_zone".to_string(), Value::Boolean(false))],
        }];
    }
    let doc = Document {
        definitions: vec![
            sc,
            object_def("Query", vec![field("at", non_null(named("DateTime")), 3)], 2),
        ],
    };
    let artifact = compile(&doc).unwrap_or_else(|_| panic!("expected a clean compile"));
    assert!(matches!(
        artifact.objects[0].fields[0].return_type,
        Type::Scalar(ScalarRepr::Builtin(BuiltinScalar::DateTimeWithoutTimeZone))
    ));
}

#[test]
fn enum_value_deprecation_reason_is_recorded() {
    let doc = Document {
        definitions: vec![Definition::Type(TypeDefinition::Enum(EnumType {
            position: pos(1, 1),
            description: None,
            name: "Color".to_string(),
            directives: vec![],
            values: vec![EnumValueDef {
                position: pos(2, 3),
                description: None,
                name: "RED".to_string(),
                directives: vec![DirectiveUse {
                    position: pos(2, 8),
                    name: "deprecated".to_string(),
                    arguments: vec![(
                        "reason".to_string(),
                        Value::Str("use CRIMSON".to_string()),
                    )],
                }],
            }],
        }))],
    };
    let artifact = compile(&doc).unwrap_or_else(|_| panic!("expected a clean compile"));
    let v = &artifact.enums[0].variants[0];
    assert!(matches!(&v.deprecation, Deprecation::Deprecated(Some(r)) if r == "use CRIMSON"));
}

#[test]
fn omitted_directive_arguments_keep_their_defaults() {
    let mut f = field("load", named("String"), 2);
    f.directives = vec![DirectiveUse {
        position: pos(2, 10),
        name: "juniper".to_string(),
        arguments: vec![
            ("infallible".to_string(), Value::Boolean(true)),
            ("async".to_string(), Value::Boolean(true)),
        ],
    }];
    let doc = Document { definitions: vec![object_def("Query", vec![f], 1)] };
    let artifact = compile(&doc).unwrap_or_else(|_| panic!("expected a clean compile"));
    let d = &artifact.objects[0].fields[0].directives;
    assert!(matches!(d.ownership, Ownership::Borrowed));
    assert!(d.infallible);
    assert!(d.asyncness);
    assert!(d.stream_type.is_none());
    assert!(d.stream_item_infallible.is_none());
}

#[test]
fn unknown_directive_argument_is_reported() {
    let mut f = field("load", named("String"), 2);
    f.directives = vec![DirectiveUse {
        position: pos(2, 10),
        name: "juniper".to_string(),
        arguments: vec![("owner".to_string(), Value::Str("me".to_string()))],
    }];
    let doc = Document { definitions: vec![object_def("Query", vec![f], 1)] };
    let es = diagnostics(compile(&doc));
    assert_eq!(es.len(), 1);
    assert!(matches!(&es[0].kind, ErrorKind::UnknownDirectiveArgument(n) if n == "owner"));
}

#[test]
fn invalid_stream_return_type_text_is_reported() {
    let mut doc = subscription_doc("owned");
    if let Definition::Type(TypeDefinition::Object(ob)) = &mut doc.definitions[2] {
        ob.fields[0].directives[0]
            .arguments
            .push(("stream_type".to_string(), Value::Str("not a type!!".to_string())));
    }
    let es = diagnostics(compile(&doc));
    assert_eq!(es.len(), 1);
    assert!(matches!(es[0].kind, ErrorKind::InvalidStreamReturnType));
}

#[test]
fn valid_stream_return_type_text_is_accepted() {
    let mut doc = subscription_doc("owned");
    if let Definition::Type(TypeDefinition::Object(ob)) = &mut doc.definitions[2] {
        ob.fields[0].directives[0].arguments.push((
            "stream_type".to_string(),
            Value::Str("std::pin::Pin<Box<MyStream>>".to_string()),
        ));
    }
    let artifact = compile(&doc).unwrap_or_else(|_| panic!("expected a clean compile"));
    let d = &artifact.subscription.unwrap().fields[0].directives;
    assert!(matches!(&d.stream_type, Some(t) if t == "std::pin::Pin<Box<MyStream>>"));
}

#[test]
fn compiled_field_and_argument_names_are_snake_cased() {
    let mut f = field("userName", named("String"), 2);
    f.arguments = vec![InputValueDef {
        position: pos(2, 15),
        description: None,
        name: "pageSize".to_string(),
        value_type: named("Int"),
        default_value: None,
        directives: vec![],
    }];
    let doc = Document { definitions: vec![object_def("Query", vec![f], 1)] };
    let artifact = compile(&doc).unwrap_or_else(|_| panic!("expected a clean compile"));
    let cf = &artifact.objects[0].fields[0];
    assert_eq!(cf.name, "user_name");
    assert_eq!(cf.args[0].name, "page_size");
}

#[test]
fn kinds_at_one_position_are_ordered_by_rank() {
    // a subscription field that is both not owned and carries a bad
    // stream type draws two diagnostics at one position, reported in a
    // fixed kind order
    let mut doc = subscription_doc("borrowed");
    if let Definition::Type(TypeDefinition::Object(ob)) = &mut doc.definitions[2] {
        ob.fields[0].directives[0]
            .arguments
            .push(("stream_type".to_string(), Value::Str("not a type!!".to_string())));
    }
    let es = diagnostics(compile(&doc));
    assert_eq!(es.len(), 2);
    assert!(matches!(es[0].kind, ErrorKind::SubscriptionFieldMustBeOwned));
    assert!(matches!(es[1].kind, ErrorKind::InvalidStreamReturnType));
}
