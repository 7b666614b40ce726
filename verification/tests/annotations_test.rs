use toolscript::annotations::{generate_annotation_files, render_function_annotation, render_schema_annotation};
use toolscript::luau_types::{field_type_to_luau, render_enum_type};
use toolscript::manifest::{
    ApiConfig, AuthConfig, FieldDef, FieldType, FunctionDef, HttpMethod, Manifest, ParamDef,
    ParamLocation, ParamType, RequestBodyDef, SchemaDef,
};

fn s(x: &str) -> String {
    x.to_string()
}

fn param(name: &str, location: ParamLocation, param_type: ParamType, required: bool, description: Option<&str>, enum_values: Option<Vec<String>>) -> ParamDef {
    ParamDef {
        name: s(name),
        location,
        param_type,
        required,
        description: description.map(s),
        default: None,
        enum_values,
        format: None,
        frozen_value: None,
    }
}

fn field(name: &str, field_type: FieldType, required: bool, description: Option<&str>) -> FieldDef {
    FieldDef {
        name: s(name),
        field_type,
        required,
        description: description.map(s),
        enum_values: None,
        nullable: false,
        format: None,
    }
}

#[test]
fn test_render_function_annotation() {
    let func = FunctionDef {
        name: s("get_pet"),
        api: s("petstore"),
        tag: Some(s("pets")),
        method: HttpMethod::Get,
        path: s("/pets/{pet_id}"),
        summary: Some(s("Get a pet by ID")),
        description: Some(s("Returns a single pet by its unique identifier.")),
        deprecated: false,
        parameters: vec![param("pet_id", ParamLocation::Path, ParamType::String, true, Some("The pet's unique identifier"), None)],
        request_body: None,
        response_schema: Some(s("Pet")),
    };
    let output = render_function_annotation(&func);
    assert!(output.contains("-- Get a pet by ID"), "Missing summary. Got:\n{output}");
    assert!(output.contains("-- Returns a single pet by its unique identifier."), "Missing description. Got:\n{output}");
    assert!(output.contains("-- @param pet_id - The pet's unique identifier"), "Missing @param. Got:\n{output}");
    assert!(output.contains("function sdk.get_pet(pet_id: string): Pet end"), "Missing typed function signature. Got:\n{output}");
}

#[test]
fn test_render_function_with_optional_params() {
    let func = FunctionDef {
        name: s("list_pets"),
        api: s("petstore"),
        tag: Some(s("pets")),
        method: HttpMethod::Get,
        path: s("/pets"),
        summary: Some(s("List all pets")),
        description: None,
        deprecated: false,
        parameters: vec![
            param("status", ParamLocation::Query, ParamType::String, false, Some("Filter by status"), None),
            param("limit", ParamLocation::Query, ParamType::Integer, true, Some("Max items"), None),
        ],
        request_body: None,
        response_schema: Some(s("Pet")),
    };
    let output = render_function_annotation(&func);
    assert!(output.contains("status: string?"), "Optional param missing ? suffix. Got:\n{output}");
    assert!(output.contains("limit: number"), "Required param should use number type. Got:\n{output}");
    assert!(!output.contains("limit: number?"), "Required param should NOT have ?. Got:\n{output}");
    assert!(output.contains("function sdk.list_pets(status: string?, limit: number): Pet end"), "Missing typed function signature. Got:\n{output}");
}

#[test]
fn test_render_function_with_enum_param() {
    let func = FunctionDef {
        name: s("list_pets"),
        api: s("petstore"),
        tag: None,
        method: HttpMethod::Get,
        path: s("/pets"),
        summary: None,
        description: None,
        deprecated: false,
        parameters: vec![param("status", ParamLocation::Query, ParamType::String, false, Some("Filter by status"), Some(vec![s("available"), s("pending"), s("sold")]))],
        request_body: None,
        response_schema: None,
    };
    let output = render_function_annotation(&func);
    assert!(output.contains(r#"status: ("available" | "pending" | "sold")?"#), "Enum param should use Luau union type. Got:\n{output}");
}

#[test]
fn test_render_function_deprecated() {
    let func = FunctionDef {
        name: s("old_endpoint"),
        api: s("myapi"),
        tag: None,
        method: HttpMethod::Get,
        path: s("/old"),
        summary: Some(s("An old endpoint")),
        description: None,
        deprecated: true,
        parameters: vec![],
        request_body: None,
        response_schema: None,
    };
    let output = render_function_annotation(&func);
    assert!(output.contains("-- @deprecated"), "Missing @deprecated annotation. Got:\n{output}");
}

#[test]
fn test_render_function_with_request_body() {
    let func = FunctionDef {
        name: s("create_pet"),
        api: s("petstore"),
        tag: Some(s("pets")),
        method: HttpMethod::Post,
        path: s("/pets"),
        summary: Some(s("Create a new pet")),
        description: None,
        deprecated: false,
        parameters: vec![],
        request_body: Some(RequestBodyDef {
            content_type: s("application/json"),
            schema: s("NewPet"),
            required: true,
            description: Some(s("The pet to create")),
        }),
        response_schema: Some(s("Pet")),
    };
    let output = render_function_annotation(&func);
    assert!(output.contains("-- @param body - The pet to create"), "Missing body param description. Got:\n{output}");
    assert!(output.contains("function sdk.create_pet(body: NewPet): Pet end"), "Missing typed body in function signature. Got:\n{output}");
}

#[test]
fn test_render_schema_annotation() {
    let schema = SchemaDef {
        name: s("Pet"),
        description: Some(s("A pet in the store")),
        fields: vec![
            field("id", FieldType::String, true, Some("Unique ID")),
            field("name", FieldType::String, true, Some("The pet's name")),
            field("tags", FieldType::Array { items: Box::new(FieldType::String) }, false, Some("Classification tags")),
            field("owner", FieldType::Object { schema: s("User") }, false, Some("The pet's owner")),
        ],
    };
    let output = render_schema_annotation(&schema);
    assert!(output.contains("-- A pet in the store"), "Missing description. Got:\n{output}");
    assert!(output.contains("export type Pet = {"), "Missing export type. Got:\n{output}");
    assert!(output.contains("    id: string,  -- Unique ID"), "Missing id field. Got:\n{output}");
    assert!(output.contains("    name: string,  -- The pet's name"), "Missing name field. Got:\n{output}");
    assert!(output.contains("    tags: {string}?,  -- Classification tags"), "Missing array field with Luau syntax. Got:\n{output}");
    assert!(output.contains("    owner: User?,  -- The pet's owner"), "Missing object field. Got:\n{output}");
    assert!(output.contains('}'), "Missing closing brace. Got:\n{output}");
}

#[test]
fn test_render_schema_optional_fields() {
    let schema = SchemaDef {
        name: s("Item"),
        description: None,
        fields: vec![field("id", FieldType::String, true, None), field("label", FieldType::String, false, None)],
    };
    let output = render_schema_annotation(&schema);
    assert!(output.contains("    id: string,"), "Required field should not have ?. Got:\n{output}");
    assert!(!output.contains("id: string?,"), "Required field should NOT have ?. Got:\n{output}");
    assert!(output.contains("    label: string?,"), "Optional field missing ? suffix. Got:\n{output}");
}

#[test]
fn test_render_schema_enum_fields() {
    let mut f = field("status", FieldType::String, true, Some("Current status"));
    f.enum_values = Some(vec![s("available"), s("pending"), s("sold")]);
    let schema = SchemaDef { name: s("Pet"), description: None, fields: vec![f] };
    let output = render_schema_annotation(&schema);
    assert!(output.contains(r#"    status: ("available" | "pending" | "sold"),  -- Current status"#), "Enum field should use Luau union type. Got:\n{output}");
}

#[test]
fn test_generate_annotation_files() {
    let mut pet_id = field("id", FieldType::String, true, Some("Unique ID"));
    pet_id.format = None;
    let manifest = Manifest {
        apis: vec![ApiConfig {
            name: s("petstore"),
            base_url: s("https://petstore.example.com/v1"),
            description: Some(s("A sample petstore API")),
            version: Some(s("1.0.0")),
            auth: Some(AuthConfig::Bearer { header: s("Authorization"), prefix: s("Bearer ") }),
        }],
        functions: vec![
            FunctionDef {
                name: s("list_pets"),
                api: s("petstore"),
                tag: Some(s("pets")),
                method: HttpMethod::Get,
                path: s("/pets"),
                summary: Some(s("List all pets")),
                description: None,
                deprecated: false,
                parameters: vec![],
                request_body: None,
                response_schema: Some(s("Pet")),
            },
            FunctionDef {
                name: s("create_pet"),
                api: s("petstore"),
                tag: Some(s("pets")),
                method: HttpMethod::Post,
                path: s("/pets"),
                summary: Some(s("Create a pet")),
                description: None,
                deprecated: false,
                parameters: vec![],
                request_body: Some(RequestBodyDef { content_type: s("application/json"), schema: s("NewPet"), required: true, description: None }),
                response_schema: Some(s("Pet")),
            },
        ],
        schemas: vec![
            SchemaDef { name: s("Pet"), description: Some(s("A pet in the store")), fields: vec![pet_id] },
            SchemaDef { name: s("NewPet"), description: Some(s("Data for a new pet")), fields: vec![field("name", FieldType::String, true, Some("Pet name"))] },
        ],
        mcp_servers: vec![],
    };
    let files = generate_annotation_files(&manifest);
    assert!(files.len() >= 2, "Expected at least 2 files, got {}", files.len());
    for (filename, _) in &files {
        assert!(std::path::Path::new(filename).extension().is_some_and(|ext| ext.eq_ignore_ascii_case("luau")), "File {filename} doesn't end in .luau");
    }
    let pets_file = files.iter().find(|(name, _)| name == "pets.luau");
    assert!(pets_file.is_some(), "Missing pets.luau");
    let pets_content = &pets_file.unwrap().1;
    assert!(!pets_content.is_empty(), "pets.luau is empty");
    assert!(pets_content.contains("function sdk.list_pets"), "pets.luau missing list_pets function");
    assert!(pets_content.contains("function sdk.create_pet"), "pets.luau missing create_pet function");
    assert!(pets_content.contains("export type Pet"), "pets.luau missing Pet type");
    assert!(pets_content.contains("export type NewPet"), "pets.luau missing NewPet type");
    let meta_file = files.iter().find(|(name, _)| name == "_meta.luau");
    assert!(meta_file.is_some(), "Missing _meta.luau");
    let meta_content = &meta_file.unwrap().1;
    assert!(meta_content.contains("petstore"), "_meta.luau missing API name");
    assert!(meta_content.contains("1.0.0"), "_meta.luau missing version");
}

#[test]
fn generate_annotation_files_exact_layout() {
    let manifest = Manifest {
        apis: vec![ApiConfig { name: s("a"), base_url: s("http://x"), description: None, version: None, auth: None }],
        functions: vec![
            FunctionDef { name: s("f2"), api: s("a"), tag: Some(s("zeta")), method: HttpMethod::Get, path: s("/"), summary: None, description: None, deprecated: false, parameters: vec![], request_body: None, response_schema: None },
            FunctionDef { name: s("f1"), api: s("a"), tag: None, method: HttpMethod::Get, path: s("/"), summary: None, description: None, deprecated: false, parameters: vec![], request_body: None, response_schema: Some(s("T")) },
        ],
        schemas: vec![SchemaDef { name: s("T"), description: None, fields: vec![] }],
        mcp_servers: vec![],
    };
    let files = generate_annotation_files(&manifest);
    let names: Vec<&str> = files.iter().map(|(n, _)| n.as_str()).collect();
    assert_eq!(names, vec!["default.luau", "zeta.luau", "_meta.luau"]);
    assert_eq!(files[0].1, "-- a API\n\nfunction sdk.f1(): T end\n\nexport type T = {\n}\n");
    assert_eq!(files[1].1, "-- a API\n\nfunction sdk.f2() end\n");
    assert_eq!(files[2].1, "-- API Metadata\n-- Generated by code-mcp\n\n-- API: a\n-- Base URL: http://x\n\n");
}

#[test]
fn test_render_nullable_field() {
    let mut deleted = field("deleted_at", FieldType::String, true, None);
    deleted.nullable = true;
    deleted.format = Some(s("date-time"));
    let schema = SchemaDef { name: s("Item"), description: None, fields: vec![field("name", FieldType::String, true, None), deleted] };
    let output = render_schema_annotation(&schema);
    assert!(output.contains("deleted_at: string?,"), "Nullable required field should have ?. Got:\n{output}");
    assert!(output.contains("name: string,"), "Non-nullable required field should NOT have ?. Got:\n{output}");
}

#[test]
fn test_render_format_comment() {
    let mut f = field("id", FieldType::String, true, Some("Unique ID"));
    f.format = Some(s("uuid"));
    let schema = SchemaDef { name: s("Item"), description: None, fields: vec![f] };
    let output = render_schema_annotation(&schema);
    assert!(output.contains("(uuid)"), "Format should appear in comment. Got:\n{output}");
    assert!(output.contains("Unique ID"), "Description should still appear. Got:\n{output}");
}

#[test]
fn test_render_map_field_type() {
    let schema = SchemaDef {
        name: s("Config"),
        description: None,
        fields: vec![field("metadata", FieldType::MapOf { value: Box::new(FieldType::String) }, true, Some("Key-value pairs"))],
    };
    let output = render_schema_annotation(&schema);
    assert!(output.contains("[string]: string"), "Map type should render with [string]: string. Got:\n{output}");
}

#[test]
fn render_function_description_multiline_exact() {
    let func = FunctionDef {
        name: s("f"),
        api: s("a"),
        tag: None,
        method: HttpMethod::Get,
        path: s("/"),
        summary: Some(s("  Sum  ")),
        description: Some(s("  line one\r\n\n   line two  \n")),
        deprecated: false,
        parameters: vec![],
        request_body: None,
        response_schema: None,
    };
    assert_eq!(render_function_annotation(&func), "-- Sum\n--\n-- line one\n--\n-- line two\nfunction sdk.f() end");
}

#[test]
fn render_function_hides_frozen_params() {
    let mut frozen = param("limit", ParamLocation::Query, ParamType::Integer, false, Some("Max"), None);
    frozen.frozen_value = Some(s("20"));
    let func = FunctionDef {
        name: s("list"),
        api: s("a"),
        tag: None,
        method: HttpMethod::Get,
        path: s("/"),
        summary: None,
        description: None,
        deprecated: false,
        parameters: vec![frozen, param("q", ParamLocation::Query, ParamType::Boolean, false, None, None)],
        request_body: None,
        response_schema: None,
    };
    assert_eq!(render_function_annotation(&func), "function sdk.list(q: boolean?) end");
}

#[test]
fn test_field_type_to_luau_basic() {
    assert_eq!(field_type_to_luau(&FieldType::String), "string");
    assert_eq!(field_type_to_luau(&FieldType::Integer), "number");
    assert_eq!(field_type_to_luau(&FieldType::Number), "number");
    assert_eq!(field_type_to_luau(&FieldType::Boolean), "boolean");
}

#[test]
fn test_field_type_to_luau_array() {
    let arr = FieldType::Array { items: Box::new(FieldType::Integer) };
    assert_eq!(field_type_to_luau(&arr), "{number}");
}

#[test]
fn test_field_type_to_luau_map() {
    let map = FieldType::MapOf { value: Box::new(FieldType::String) };
    assert_eq!(field_type_to_luau(&map), "{ [string]: string }");
}

#[test]
fn field_type_to_luau_inline_object() {
    let mut status = field("status", FieldType::String, true, None);
    status.enum_values = Some(vec![s("a")]);
    let obj = FieldType::InlineObject { fields: vec![field("x", FieldType::Number, false, None), status] };
    assert_eq!(field_type_to_luau(&obj), "{ x: number?, status: (\"a\") }");
}

#[test]
fn test_render_enum_type_basic() {
    let values = vec!["a".to_string(), "b".to_string()];
    assert_eq!(render_enum_type(&values), "(\"a\" | \"b\")");
}
