use juniper_from_schema_code_gen::ast::{
    Definition, Document, FieldDefinition, InputObjectType, InputValueDef, ObjectType,
    SchemaTypeRef, TypeDefinition, Value,
};
use juniper_from_schema_code_gen::error::{Error, ErrorKind, Pos};
use juniper_from_schema_code_gen::literal::{quote_value, LiteralExpr, TranslationFailure};
use juniper_from_schema_code_gen::query_trail::{
    gen_query_trails, QueryTrail, Selection, TrailTarget,
};
use juniper_from_schema_code_gen::symbol_table::AstData;
use juniper_from_schema_code_gen::decode::{enum_from_look_ahead, input_object_from_look_ahead, LookAheadValue};
use juniper_from_schema_code_gen::validations::is_snake_case;

fn origin() -> Pos {
    Pos { line: 1, column: 1 }
}

fn trail_field(name: &str, ty_name: &str) -> FieldDefinition {
    FieldDefinition {
        position: origin(),
        description: None,
        name: name.to_string(),
        arguments: vec![],
        field_type: SchemaTypeRef::Named(ty_name.to_string()),
        directives: vec![],
    }
}

fn trail_object(name: &str, fields: Vec<FieldDefinition>) -> Definition {
    Definition::Type(TypeDefinition::Object(ObjectType {
        position: origin(),
        description: None,
        name: name.to_string(),
        implements_interfaces: vec![],
        directives: vec![],
        fields,
    }))
}

#[test]
fn test_is_snake_case() {
    assert!(is_snake_case("foo_bar"));
    assert!(is_snake_case("foo_bar_baz"));

    assert!(!is_snake_case("foo"));
    assert!(!is_snake_case("fooBar"));
    assert!(!is_snake_case("FooBar"));
}

#[test]
fn trail_accessors_distinguish_leaves_from_composites() {
    let doc = Document {
        definitions: vec![
            trail_object("A", vec![trail_field("b", "B"), trail_field("s", "String")]),
            trail_object("B", vec![trail_field("x", "Int")]),
        ],
    };
    let table = AstData::new(&doc);
    let trails = gen_query_trails(&doc, &table);
    assert_eq!(trails.len(), 2);
    let a = &trails[0];
    assert_eq!(a.trail_type, "A");
    assert_eq!(a.methods.len(), 2);
    assert_eq!(a.methods[0].name, "b");
    assert!(matches!(&a.methods[0].target, TrailTarget::Node(n) if n == "B"));
    assert_eq!(a.methods[1].name, "s");
    assert!(matches!(a.methods[1].target, TrailTarget::Leaf));
}

#[test]
fn walking_an_unselected_trail_yields_absence() {
    // the request selected `b { x }` but not `s`
    let selection = Selection {
        name: "a".to_string(),
        children: vec![Selection {
            name: "b".to_string(),
            children: vec![Selection { name: "x".to_string(), children: vec![] }],
        }],
    };
    let walked = QueryTrail::new(&selection).walk().expect("the root is present");
    assert!(!walked.leaf_selected("s"));
    let b_trail = walked.select_child("b");
    let b_walked = b_trail.walk().expect("b was selected");
    assert!(b_walked.leaf_selected("x"));
    assert!(!b_walked.leaf_selected("y"));
    // a child that was never selected walks to absence
    let missing = b_walked.select_child("z");
    assert!(missing.walk().is_none());
}

#[test]
fn int_literal_within_range_translates() {
    let doc = Document { definitions: vec![] };
    let table = AstData::new(&doc);
    let mut errs: Vec<Error> = Vec::new();
    let r = quote_value(&table, &Value::Int(5), &"Int".to_string(), origin(), &mut errs);
    assert!(errs.is_empty());
    assert!(matches!(r, Ok(LiteralExpr::Int(5))));
}

#[test]
fn int_literal_out_of_range_is_fatal() {
    let doc = Document { definitions: vec![] };
    let table = AstData::new(&doc);
    let mut errs: Vec<Error> = Vec::new();
    let r = quote_value(
        &table,
        &Value::Int(3_000_000_000),
        &"Int".to_string(),
        origin(),
        &mut errs,
    );
    assert!(matches!(r, Err(TranslationFailure::IntOutOfRange(_))));
}

#[test]
fn enum_literal_is_camel_cased_against_its_type() {
    let doc = Document { definitions: vec![] };
    let table = AstData::new(&doc);
    let mut errs: Vec<Error> = Vec::new();
    let r = quote_value(
        &table,
        &Value::Enum("DARK_BLUE".to_string()),
        &"color_kind".to_string(),
        origin(),
        &mut errs,
    );
    match r {
        Ok(LiteralExpr::EnumVariant { enum_type, variant }) => {
            assert_eq!(enum_type, "ColorKind");
            assert_eq!(variant, "DarkBlue");
        }
        _ => panic!("expected an enum variant literal"),
    }
}

#[test]
fn variable_default_is_rejected_with_a_placeholder() {
    let doc = Document { definitions: vec![] };
    let table = AstData::new(&doc);
    let mut errs: Vec<Error> = Vec::new();
    let r = quote_value(
        &table,
        &Value::Variable("v".to_string()),
        &"Int".to_string(),
        origin(),
        &mut errs,
    );
    assert_eq!(errs.len(), 1);
    assert!(matches!(errs[0].kind, ErrorKind::VariableDefaultValue));
    assert!(matches!(r, Ok(LiteralExpr::Empty)));
}

#[test]
fn object_literal_fills_absent_fields_with_none() {
    let doc = Document {
        definitions: vec![Definition::Type(TypeDefinition::InputObject(
            InputObjectType {
                position: origin(),
                description: None,
                name: "Filter".to_string(),
                directives: vec![],
                fields: vec![
                    InputValueDef {
                        position: origin(),
                        description: None,
                        name: "firstName".to_string(),
                        value_type: SchemaTypeRef::Named("String".to_string()),
                        default_value: None,
                        directives: vec![],
                    },
                    InputValueDef {
                        position: origin(),
                        description: None,
                        name: "age".to_string(),
                        value_type: SchemaTypeRef::Named("Int".to_string()),
                        default_value: None,
                        directives: vec![],
                    },
                ],
            },
        ))],
    };
    let table = AstData::new(&doc);
    let mut errs: Vec<Error> = Vec::new();
    let literal = Value::Object(vec![(
        "firstName".to_string(),
        Value::Str("ada".to_string()),
    )]);
    let r = quote_value(&table, &literal, &"Filter".to_string(), origin(), &mut errs);
    assert!(errs.is_empty());
    match r {
        Ok(LiteralExpr::ObjectInit { object_type, fields }) => {
            assert_eq!(object_type, "Filter");
            assert_eq!(fields.len(), 2);
            // the given nullable field is wrapped as present, snake-cased
            assert_eq!(fields[0].0, "first_name");
            assert!(matches!(&fields[0].1, LiteralExpr::SomeOf(inner)
                if matches!(inner.as_ref(), LiteralExpr::Str(s) if s == "ada")));
            // the absent declared field defaults to an explicit absence
            assert_eq!(fields[1].0, "age");
            assert!(matches!(fields[1].1, LiteralExpr::NoneValue));
        }
        _ => panic!("expected a struct initializer"),
    }
}

#[test]
fn object_literal_with_unknown_field_is_fatal() {
    let doc = Document { definitions: vec![] };
    let table = AstData::new(&doc);
    let mut errs: Vec<Error> = Vec::new();
    let literal = Value::Object(vec![("oops".to_string(), Value::Null)]);
    let r = quote_value(&table, &literal, &"Filter".to_string(), origin(), &mut errs);
    assert!(matches!(
        r,
        Err(TranslationFailure::UnknownInputObjectField { .. })
    ));
}

#[test]
fn list_literal_translates_elementwise() {
    let doc = Document { definitions: vec![] };
    let table = AstData::new(&doc);
    let mut errs: Vec<Error> = Vec::new();
    let r = quote_value(
        &table,
        &Value::List(vec![Value::Int(1), Value::Int(2)]),
        &"Int".to_string(),
        origin(),
        &mut errs,
    );
    match r {
        Ok(LiteralExpr::List(items)) => {
            assert_eq!(items.len(), 2);
            assert!(matches!(items[0], LiteralExpr::Int(1)));
            assert!(matches!(items[1], LiteralExpr::Int(2)));
        }
        _ => panic!("expected a list literal"),
    }
}

#[test]
fn enum_decoder_matches_by_graphql_name() {
    let doc = Document {
        definitions: vec![Definition::Type(TypeDefinition::Enum(
            juniper_from_schema_code_gen::ast::EnumType {
                position: origin(),
                description: None,
                name: "Color".to_string(),
                directives: vec![],
                values: vec![
                    juniper_from_schema_code_gen::ast::EnumValueDef {
                        position: origin(),
                        description: None,
                        name: "DARK_RED".to_string(),
                        directives: vec![],
                    },
                    juniper_from_schema_code_gen::ast::EnumValueDef {
                        position: origin(),
                        description: None,
                        name: "LIGHT_BLUE".to_string(),
                        directives: vec![],
                    },
                ],
            },
        ))],
    };
    let table = AstData::new(&doc);
    let pass = juniper_from_schema_code_gen::code_gen_pass::CodeGenPass::new(
        "E".to_string(),
        "C".to_string(),
        table,
    );
    let artifact = pass.gen_juniper_code(&doc).unwrap_or_else(|_| panic!("clean compile"));
    let e = &artifact.enums[0];
    // decoding matches the GraphQL-level name even though the emitted
    // variant is camel-cased
    let idx = enum_from_look_ahead(e, &LookAheadValue::Enum("LIGHT_BLUE".to_string()));
    assert_eq!(idx, 1);
    assert_eq!(e.variants[idx].name, "LightBlue");
}

#[test]
fn input_object_decoder_routes_last_value_per_slot() {
    let doc = Document {
        definitions: vec![Definition::Type(TypeDefinition::InputObject(InputObjectType {
            position: origin(),
            description: None,
            name: "Filter".to_string(),
            directives: vec![],
            fields: vec![
                InputValueDef {
                    position: origin(),
                    description: None,
                    name: "a".to_string(),
                    value_type: SchemaTypeRef::Named("Int".to_string()),
                    default_value: None,
                    directives: vec![],
                },
                InputValueDef {
                    position: origin(),
                    description: None,
                    name: "b".to_string(),
                    value_type: SchemaTypeRef::Named("Int".to_string()),
                    default_value: None,
                    directives: vec![],
                },
            ],
        }))],
    };
    let table = AstData::new(&doc);
    let pass = juniper_from_schema_code_gen::code_gen_pass::CodeGenPass::new(
        "E".to_string(),
        "C".to_string(),
        table,
    );
    let artifact = pass.gen_juniper_code(&doc).unwrap_or_else(|_| panic!("clean compile"));
    let io = &artifact.input_objects[0];
    let pairs = vec![
        ("b".to_string(), LookAheadValue::ScalarText("1".to_string())),
        ("a".to_string(), LookAheadValue::ScalarText("2".to_string())),
        ("b".to_string(), LookAheadValue::ScalarText("3".to_string())),
    ];
    let slots = input_object_from_look_ahead(io, &pairs);
    // field `a` takes pair 1; field `b` takes its last assignment, pair 2
    assert_eq!(slots, vec![1, 2]);
}
