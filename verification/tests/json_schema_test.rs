use openapiv3::{Schema, SchemaData, SchemaKind, StringType, Type};
use toolscript::json::JsonValue;
use toolscript::luau_types::{
    extract_schema_defs, field_type_to_luau, json_schema_prop_to_field_def,
    json_schema_prop_to_field_type, json_schema_to_params, render_enum_type,
};
use toolscript::manifest::FieldType;

fn obj(members: Vec<(&str, JsonValue)>) -> JsonValue {
    JsonValue::Object(members.into_iter().map(|(k, v)| (k.to_string(), v)).collect())
}

fn s(t: &str) -> JsonValue {
    JsonValue::String(t.to_string())
}

fn arr(items: Vec<JsonValue>) -> JsonValue {
    JsonValue::Array(items)
}

fn typed(t: &str) -> JsonValue {
    obj(vec![("type", s(t))])
}

fn to_json(v: &serde_json::Value) -> JsonValue {
    match v {
        serde_json::Value::Null => JsonValue::Null,
        serde_json::Value::Bool(b) => JsonValue::Bool(*b),
        serde_json::Value::Number(n) => JsonValue::Number(n.to_string()),
        serde_json::Value::String(t) => JsonValue::String(t.clone()),
        serde_json::Value::Array(a) => JsonValue::Array(a.iter().map(to_json).collect()),
        serde_json::Value::Object(m) => {
            JsonValue::Object(m.iter().map(|(k, v)| (k.clone(), to_json(v))).collect())
        }
    }
}

#[test]
fn test_json_schema_to_params_flat() {
    let schema = obj(vec![
        ("type", s("object")),
        ("required", arr(vec![s("path")])),
        (
            "properties",
            obj(vec![
                ("path", obj(vec![("type", s("string")), ("description", s("File path"))])),
                ("encoding", typed("string")),
            ]),
        ),
    ]);
    let params = json_schema_to_params(&schema);
    assert_eq!(params.len(), 2);
    let path_param = params.iter().find(|p| p.name == "path").unwrap();
    assert!(path_param.required);
    assert_eq!(path_param.luau_type, "string");
    assert_eq!(path_param.description.as_deref(), Some("File path"));
    let enc_param = params.iter().find(|p| p.name == "encoding").unwrap();
    assert!(!enc_param.required);
}

#[test]
fn test_extract_schema_defs_from_json_schema() {
    let schema = obj(vec![
        ("type", s("object")),
        ("properties", obj(vec![("user", obj(vec![("$ref", s("#/$defs/User"))]))])),
        (
            "$defs",
            obj(vec![(
                "User",
                obj(vec![
                    ("type", s("object")),
                    ("required", arr(vec![s("name")])),
                    ("properties", obj(vec![("name", typed("string")), ("email", typed("string"))])),
                ]),
            )]),
        ),
    ]);
    let defs = extract_schema_defs(&schema);
    assert_eq!(defs.len(), 1);
    assert_eq!(defs[0].name, "User");
    assert_eq!(defs[0].fields.len(), 2);
}

#[test]
fn test_json_schema_to_field_type() {
    assert_eq!(json_schema_prop_to_field_type(&typed("string")), FieldType::String);

    let a = obj(vec![("type", s("array")), ("items", typed("integer"))]);
    assert_eq!(
        json_schema_prop_to_field_type(&a),
        FieldType::Array { items: Box::new(FieldType::Integer) }
    );

    let o = obj(vec![("type", s("object")), ("properties", obj(vec![("x", typed("number"))]))]);
    match json_schema_prop_to_field_type(&o) {
        FieldType::InlineObject { fields } => {
            assert_eq!(fields.len(), 1);
            assert_eq!(fields[0].name, "x");
        }
        other => panic!("Expected InlineObject, got {other:?}"),
    }

    let reftype = obj(vec![("$ref", s("#/$defs/User"))]);
    assert_eq!(
        json_schema_prop_to_field_type(&reftype),
        FieldType::Object { schema: "User".to_string() }
    );
}

#[test]
fn test_enum_extraction() {
    let prop = obj(vec![
        ("type", s("string")),
        ("enum", arr(vec![s("active"), s("inactive"), s("pending")])),
    ]);
    let field = json_schema_prop_to_field_def("status", &prop, true);
    assert_eq!(
        field.enum_values,
        Some(vec!["active".to_string(), "inactive".to_string(), "pending".to_string()])
    );
    assert_eq!(field.field_type, FieldType::String);
}

#[test]
fn test_nullable_openapi_style() {
    let prop = obj(vec![("type", s("string")), ("nullable", JsonValue::Bool(true))]);
    let field = json_schema_prop_to_field_def("name", &prop, true);
    assert!(field.nullable);
}

#[test]
fn test_nullable_json_schema_2020_12_style() {
    let prop = obj(vec![("type", arr(vec![s("string"), s("null")]))]);
    let field = json_schema_prop_to_field_def("name", &prop, true);
    assert!(field.nullable);
    assert_eq!(field.field_type, FieldType::String);
}

#[test]
fn luau_types_test_format_extraction() {
    let prop = obj(vec![("type", s("string")), ("format", s("date-time"))]);
    let field = json_schema_prop_to_field_def("created_at", &prop, true);
    assert_eq!(field.format.as_deref(), Some("date-time"));
}

#[test]
fn test_additional_properties_object() {
    let prop = obj(vec![("type", s("object")), ("additionalProperties", typed("integer"))]);
    assert_eq!(
        json_schema_prop_to_field_type(&prop),
        FieldType::MapOf { value: Box::new(FieldType::Integer) }
    );
}

#[test]
fn test_additional_properties_boolean() {
    let prop = obj(vec![("type", s("object")), ("additionalProperties", JsonValue::Bool(true))]);
    assert_eq!(
        json_schema_prop_to_field_type(&prop),
        FieldType::MapOf { value: Box::new(FieldType::String) }
    );
}

#[test]
fn test_additional_properties_ref() {
    let prop = obj(vec![
        ("type", s("object")),
        ("additionalProperties", obj(vec![("$ref", s("#/components/schemas/Item"))])),
    ]);
    assert_eq!(
        json_schema_prop_to_field_type(&prop),
        FieldType::MapOf { value: Box::new(FieldType::Object { schema: "Item".to_string() }) }
    );
}

#[test]
fn test_openapi_serialization_bridge() {
    let schema = Schema {
        schema_data: SchemaData {
            description: Some("A status field".to_string()),
            nullable: true,
            ..Default::default()
        },
        schema_kind: SchemaKind::Type(Type::String(StringType {
            enumeration: vec![Some("active".to_string()), Some("inactive".to_string())],
            format: openapiv3::VariantOrUnknownOrEmpty::Unknown("custom-fmt".to_string()),
            ..Default::default()
        })),
    };

    let json_value = to_json(&serde_json::to_value(&schema).unwrap());
    let field = json_schema_prop_to_field_def("status", &json_value, true);

    assert_eq!(field.name, "status");
    assert_eq!(field.field_type, FieldType::String);
    assert!(field.required);
    assert_eq!(field.description.as_deref(), Some("A status field"));
    assert_eq!(field.enum_values, Some(vec!["active".to_string(), "inactive".to_string()]));
    assert!(field.nullable);
    assert_eq!(field.format.as_deref(), Some("custom-fmt"));
}

#[test]
fn test_params_with_enum_use_deep_path() {
    let schema = obj(vec![
        ("type", s("object")),
        ("required", arr(vec![s("status")])),
        (
            "properties",
            obj(vec![(
                "status",
                obj(vec![("type", s("string")), ("enum", arr(vec![s("active"), s("inactive")]))]),
            )]),
        ),
    ]);
    let params = json_schema_to_params(&schema);
    assert_eq!(params.len(), 1);
    assert_eq!(params[0].luau_type, "(\"active\" | \"inactive\")");
}

#[test]
fn params_and_fields_come_sorted_by_name() {
    let schema = obj(vec![(
        "properties",
        obj(vec![("zeta", typed("boolean")), ("alpha", typed("integer")), ("mid", typed("number"))]),
    )]);
    let params = json_schema_to_params(&schema);
    let names: Vec<&str> = params.iter().map(|p| p.name.as_str()).collect();
    assert_eq!(names, vec!["alpha", "mid", "zeta"]);
    assert_eq!(params[0].luau_type, "number");
    assert_eq!(params[2].luau_type, "boolean");

    let o = obj(vec![
        ("type", s("object")),
        ("required", arr(vec![s("b")])),
        ("properties", obj(vec![("b", typed("string")), ("a", typed("string"))])),
    ]);
    match json_schema_prop_to_field_type(&o) {
        FieldType::InlineObject { fields } => {
            assert_eq!(fields[0].name, "a");
            assert!(!fields[0].required);
            assert_eq!(fields[1].name, "b");
            assert!(fields[1].required);
        }
        other => panic!("Expected InlineObject, got {other:?}"),
    }
    assert_eq!(field_type_to_luau(&json_schema_prop_to_field_type(&o)), "{ a: string?, b: string }");
}

#[test]
fn schema_without_properties_gives_no_params() {
    assert!(json_schema_to_params(&typed("object")).is_empty());
    assert!(json_schema_to_params(&obj(vec![("properties", arr(vec![]))])).is_empty());
    assert!(extract_schema_defs(&typed("object")).is_empty());
}

#[test]
fn definitions_used_without_defs_and_sorted() {
    let schema = obj(vec![(
        "definitions",
        obj(vec![
            ("Zed", obj(vec![("description", s("last"))])),
            ("Abc", obj(vec![("properties", obj(vec![("n", typed("integer"))]))])),
        ]),
    )]);
    let defs = extract_schema_defs(&schema);
    assert_eq!(defs.len(), 2);
    assert_eq!(defs[0].name, "Abc");
    assert_eq!(defs[0].fields[0].field_type, FieldType::Integer);
    assert_eq!(defs[1].name, "Zed");
    assert_eq!(defs[1].description.as_deref(), Some("last"));
    assert!(defs[1].fields.is_empty());

    // `$defs` that is not an object hides `definitions`.
    let schema = obj(vec![("$defs", s("x")), ("definitions", obj(vec![("A", obj(vec![]))]))]);
    assert!(extract_schema_defs(&schema).is_empty());
}

#[test]
fn field_types_of_odd_schemas() {
    let untyped_array = obj(vec![("type", s("array"))]);
    assert_eq!(
        json_schema_prop_to_field_type(&untyped_array),
        FieldType::Array { items: Box::new(FieldType::String) }
    );
    assert_eq!(json_schema_prop_to_field_type(&obj(vec![])), FieldType::String);
    assert_eq!(
        json_schema_prop_to_field_type(&typed("object")),
        FieldType::MapOf { value: Box::new(FieldType::String) }
    );
    let only_null = obj(vec![("type", arr(vec![s("null")]))]);
    assert_eq!(json_schema_prop_to_field_type(&only_null), FieldType::String);
    let no_slash = obj(vec![("$ref", s("Thing"))]);
    assert_eq!(
        json_schema_prop_to_field_type(&no_slash),
        FieldType::Object { schema: "Thing".to_string() }
    );
    let many = obj(vec![("type", arr(vec![s("null"), s("integer")]))]);
    let f = json_schema_prop_to_field_def("n", &many, false);
    assert_eq!(f.field_type, FieldType::Integer);
    assert!(f.nullable);
    assert!(!f.required);
    let mixed_enum = obj(vec![("enum", arr(vec![JsonValue::Number("1".to_string()), s("x")]))]);
    assert_eq!(
        json_schema_prop_to_field_def("e", &mixed_enum, true).enum_values,
        Some(vec!["x".to_string()])
    );
    let numbers_only = obj(vec![("enum", arr(vec![JsonValue::Number("1".to_string())]))]);
    assert_eq!(json_schema_prop_to_field_def("e", &numbers_only, true).enum_values, None);
    assert_eq!(render_enum_type(&vec!["x".to_string()]), "(\"x\")");
}
