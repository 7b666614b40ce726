use toolscript::manifest::{
    ApiConfig, AuthConfig, FieldDef, FieldType, FunctionDef, HttpMethod, Manifest, McpParamDef,
    McpServerEntry, McpToolDef, ParamDef, ParamLocation, ParamType, RequestBodyDef, SchemaDef,
};
use toolscript::namemap::NameMap;
use toolscript::resources::{build_resource_list, read_resource};
use toolscript::tools::{
    get_function_docs_impl, get_schema_impl, list_apis_impl, list_functions_impl,
    search_docs_impl, ApiEntry, CodeMcpServer, FunctionEntry, SearchHit,
};

fn s(x: &str) -> String {
    x.to_string()
}

fn field(name: &str, description: &str) -> FieldDef {
    FieldDef {
        name: s(name),
        field_type: FieldType::String,
        required: true,
        description: Some(s(description)),
        enum_values: None,
        nullable: false,
        format: None,
    }
}

fn param(name: &str, location: ParamLocation, param_type: ParamType, required: bool, description: &str) -> ParamDef {
    ParamDef {
        name: s(name),
        location,
        param_type,
        required,
        description: Some(s(description)),
        default: None,
        enum_values: None,
        format: None,
        frozen_value: None,
    }
}

fn test_manifest() -> Manifest {
    Manifest {
        apis: vec![ApiConfig {
            name: s("petstore"),
            base_url: s("https://petstore.example.com/v1"),
            description: Some(s("A sample petstore API")),
            version: Some(s("1.0.0")),
            auth: Some(AuthConfig::Bearer { header: s("Authorization"), prefix: s("Bearer ") }),
        }],
        functions: vec![
            FunctionDef {
                name: s("list_pets"),
                api: s("petstore"),
                tag: Some(s("pets")),
                method: HttpMethod::Get,
                path: s("/pets"),
                summary: Some(s("List all pets")),
                description: Some(s("Returns all pets from the store")),
                deprecated: false,
                parameters: vec![param("limit", ParamLocation::Query, ParamType::Integer, false, "Max items to return")],
                request_body: None,
                response_schema: Some(s("Pet")),
            },
            FunctionDef {
                name: s("get_pet"),
                api: s("petstore"),
                tag: Some(s("pets")),
                method: HttpMethod::Get,
                path: s("/pets/{pet_id}"),
                summary: Some(s("Get a pet by ID")),
                description: None,
                deprecated: false,
                parameters: vec![param("pet_id", ParamLocation::Path, ParamType::String, true, "The pet's ID")],
                request_body: None,
                response_schema: Some(s("Pet")),
            },
            FunctionDef {
                name: s("create_pet"),
                api: s("petstore"),
                tag: Some(s("pets")),
                method: HttpMethod::Post,
                path: s("/pets"),
                summary: Some(s("Create a pet")),
                description: None,
                deprecated: true,
                parameters: vec![],
                request_body: Some(RequestBodyDef {
                    content_type: s("application/json"),
                    schema: s("NewPet"),
                    required: true,
                    description: None,
                }),
                response_schema: Some(s("Pet")),
            },
        ],
        schemas: vec![
            SchemaDef {
                name: s("Pet"),
                description: Some(s("A pet in the store")),
                fields: vec![field("id", "Unique identifier"), field("name", "Pet name")],
            },
            SchemaDef {
                name: s("NewPet"),
                description: Some(s("Data for creating a new pet")),
                fields: vec![field("name", "Pet name")],
            },
        ],
        mcp_servers: vec![],
    }
}

fn tool(server: &str, name: &str, description: &str, params: Vec<McpParamDef>) -> McpToolDef {
    McpToolDef {
        name: s(name),
        server: s(server),
        description: Some(s(description)),
        params,
        schemas: vec![],
        output_schemas: vec![],
    }
}

fn mcp_param(name: &str, description: Option<&str>) -> McpParamDef {
    McpParamDef {
        name: s(name),
        luau_type: s("string"),
        required: true,
        description: description.map(s),
        field_type: FieldType::String,
    }
}

fn mcp_only_manifest() -> Manifest {
    Manifest {
        apis: vec![],
        functions: vec![],
        schemas: vec![],
        mcp_servers: vec![McpServerEntry {
            name: s("filesystem"),
            description: Some(s("File system access")),
            tools: vec![
                tool("filesystem", "read_file", "Read a file from disk", vec![mcp_param("path", Some("File path to read"))]),
                tool(
                    "filesystem",
                    "write_file",
                    "Write content to a file",
                    vec![mcp_param("path", None), mcp_param("content", None)],
                ),
            ],
        }],
    }
}

fn mixed_manifest() -> Manifest {
    let mut m = mcp_only_manifest();
    m.mcp_servers[0].tools.truncate(1);
    m.apis.push(ApiConfig {
        name: s("petstore"),
        base_url: s("https://petstore.example.com/v1"),
        description: Some(s("Pet store API")),
        version: Some(s("1.0.0")),
        auth: None,
    });
    m.functions.push(FunctionDef {
        name: s("list_pets"),
        api: s("petstore"),
        tag: Some(s("pets")),
        method: HttpMethod::Get,
        path: s("/pets"),
        summary: Some(s("List all pets")),
        description: None,
        deprecated: false,
        parameters: vec![],
        request_body: None,
        response_schema: None,
    });
    m
}

fn test_server() -> CodeMcpServer {
    CodeMcpServer::new(test_manifest(), NameMap::new(), false)
}

fn frozen_server() -> CodeMcpServer {
    let mut manifest = test_manifest();
    for func in &mut manifest.functions {
        if func.name == "list_pets" {
            for p in &mut func.parameters {
                if p.name == "limit" {
                    p.frozen_value = Some(s("20"));
                }
            }
        }
    }
    CodeMcpServer::new(manifest, NameMap::new(), false)
}

fn context_of(hit: &SearchHit) -> &Vec<String> {
    match hit {
        SearchHit::Function { context, .. }
        | SearchHit::Schema { context, .. }
        | SearchHit::McpTool { context, .. }
        | SearchHit::Builtin { context, .. } => context,
    }
}

fn hit_name(hit: &SearchHit) -> String {
    match hit {
        SearchHit::Function { name, .. } | SearchHit::Schema { name, .. } | SearchHit::McpTool { name, .. } => {
            name.clone()
        }
        SearchHit::Builtin { name, .. } => s(name),
    }
}

#[test]
fn list_apis_entries() {
    let server = test_server();
    let apis = list_apis_impl(&server);
    assert_eq!(apis.len(), 2);
    assert_eq!(
        apis[0],
        ApiEntry::Api {
            name: s("petstore"),
            description: Some(s("A sample petstore API")),
            version: Some(s("1.0.0")),
            base_url: s("https://petstore.example.com/v1"),
            function_count: 3,
        }
    );
    assert_eq!(apis[1], ApiEntry::Luau { function_count: 4 });
}

#[test]
fn test_list_functions_filtered_by_tag() {
    let server = test_server();
    let funcs = list_functions_impl(&server, None, Some("pets"));
    assert_eq!(funcs.len(), 3);
    let funcs = list_functions_impl(&server, None, Some("users"));
    assert_eq!(funcs.len(), 0);
}

#[test]
fn list_functions_marks_deprecated_and_appends_builtins() {
    let server = test_server();
    let funcs = list_functions_impl(&server, None, None);
    assert_eq!(funcs.len(), 7);
    assert!(funcs.iter().any(|f| matches!(f, FunctionEntry::Function { name, deprecated: true, .. } if name == "create_pet")));
    let luau_only = list_functions_impl(&server, Some("luau"), None);
    assert_eq!(luau_only.len(), 4);
    let pets_only = list_functions_impl(&server, Some("petstore"), None);
    assert_eq!(pets_only.len(), 3);
}

#[test]
fn test_get_function_docs_found() {
    let server = test_server();
    let docs = get_function_docs_impl(&server, "list_pets").unwrap();
    assert!(docs.contains("List all pets"));
    assert!(docs.contains("limit: number?"));
    assert!(docs.contains(": Pet"));
    assert!(docs.contains("function sdk.list_pets"));
}

#[test]
fn test_get_function_docs_not_found() {
    let server = test_server();
    assert_eq!(get_function_docs_impl(&server, "nonexistent").unwrap_err(), "Function 'nonexistent' not found");
}

#[test]
fn test_search_docs() {
    let server = test_server();
    let items = search_docs_impl(&server, "pet");
    assert!(!items.is_empty());
}

#[test]
fn search_docs_is_case_insensitive_with_context() {
    let server = test_server();
    let items = search_docs_impl(&server, "PET NAME");
    assert_eq!(items.len(), 0);
    let items = search_docs_impl(&server, "STORE");
    assert_eq!(items.len(), 2);
    assert_eq!(hit_name(&items[0]), "list_pets");
    assert_eq!(context_of(&items[0]), &vec![s("description: Returns all pets from the store")]);
    assert_eq!(hit_name(&items[1]), "Pet");
    let items = search_docs_impl(&server, "LIMIT");
    assert_eq!(items.len(), 1);
    assert_eq!(context_of(&items[0]), &vec![s("parameter: limit")]);
}

#[test]
fn search_docs_same_hits_for_any_ascii_case() {
    let server = test_server();
    let lower = search_docs_impl(&server, "pets");
    assert!(!lower.is_empty());
    assert_eq!(search_docs_impl(&server, "PETS"), lower);
    assert_eq!(search_docs_impl(&server, "pEtS"), lower);
}

#[test]
fn test_get_schema_found() {
    let server = test_server();
    let docs = get_schema_impl(&server, "Pet").unwrap();
    assert!(docs.contains("export type Pet = {"));
    assert!(docs.contains("id: string,"));
    assert!(docs.contains("name: string,"));
}

#[test]
fn test_get_schema_not_found() {
    let server = test_server();
    assert!(get_schema_impl(&server, "Nonexistent").is_err());
}

#[test]
fn test_frozen_params_hidden_from_docs() {
    let server = frozen_server();
    let docs = get_function_docs_impl(&server, "list_pets").unwrap();
    assert!(!docs.contains("limit"), "Frozen param 'limit' should not appear in docs. Got:\n{docs}");
}

#[test]
fn test_frozen_params_hidden_from_search() {
    let server = frozen_server();
    for item in search_docs_impl(&server, "limit") {
        for c in context_of(&item) {
            assert!(!c.contains("parameter: limit"), "Frozen param 'limit' should not appear in search context. Got: {c}");
        }
    }
}

#[test]
fn test_mcp_only_list_apis() {
    let server = CodeMcpServer::new(mcp_only_manifest(), NameMap::new(), false);
    let apis = list_apis_impl(&server);
    assert_eq!(apis.len(), 2);
    assert_eq!(
        apis[0],
        ApiEntry::McpServer { name: s("filesystem"), description: Some(s("File system access")), tool_count: 2 }
    );
    assert_eq!(apis[1], ApiEntry::Luau { function_count: 4 });
}

#[test]
fn test_mcp_only_list_functions() {
    let server = CodeMcpServer::new(mcp_only_manifest(), NameMap::new(), false);
    let funcs = list_functions_impl(&server, None, None);
    assert_eq!(funcs.len(), 6);
    let mcp: Vec<&FunctionEntry> = funcs.iter().filter(|f| matches!(f, FunctionEntry::McpTool { .. })).collect();
    assert_eq!(mcp.len(), 2);
    for f in mcp {
        assert!(matches!(f, FunctionEntry::McpTool { server, .. } if server == "filesystem"));
    }
    let builtins = funcs.iter().filter(|f| matches!(f, FunctionEntry::Builtin { .. })).count();
    assert_eq!(builtins, 4);
}

#[test]
fn test_mcp_only_get_function_docs() {
    let server = CodeMcpServer::new(mcp_only_manifest(), NameMap::new(), false);
    let docs = get_function_docs_impl(&server, "filesystem.read_file").unwrap();
    assert!(docs.contains("function sdk.filesystem.read_file"), "Missing function sig. Got:\n{docs}");
    assert!(docs.contains("path: string"), "Missing path param. Got:\n{docs}");
}

#[test]
fn test_mcp_only_search_docs() {
    let server = CodeMcpServer::new(mcp_only_manifest(), NameMap::new(), false);
    let items = search_docs_impl(&server, "read");
    assert!(!items.is_empty());
    assert!(items.iter().any(|i| hit_name(i) == "filesystem.read_file"));
}

#[test]
fn test_mixed_mode_all_visible() {
    let server = CodeMcpServer::new(mixed_manifest(), NameMap::new(), false);
    assert_eq!(list_apis_impl(&server).len(), 3);
    assert_eq!(list_functions_impl(&server, None, None).len(), 6);
    assert!(get_function_docs_impl(&server, "list_pets").is_ok());
    assert!(get_function_docs_impl(&server, "filesystem.read_file").is_ok());
    assert!(get_function_docs_impl(&server, "json.encode").is_ok());
}

#[test]
fn test_mcp_tool_docs_with_schemas() {
    let mut t = tool("users", "create_user", "Create a new user", vec![]);
    t.params.push(McpParamDef {
        name: s("data"),
        luau_type: s("UserInput"),
        required: true,
        description: None,
        field_type: FieldType::Object { schema: s("UserInput") },
    });
    t.schemas.push(SchemaDef {
        name: s("UserInput"),
        description: Some(s("User creation data")),
        fields: vec![field("name", "n"), field("email", "e")],
    });
    let manifest = Manifest {
        apis: vec![],
        functions: vec![],
        schemas: vec![],
        mcp_servers: vec![McpServerEntry { name: s("users"), description: None, tools: vec![t] }],
    };
    let server = CodeMcpServer::new(manifest, NameMap::new(), false);
    let docs = get_function_docs_impl(&server, "users.create_user").unwrap();
    assert!(docs.contains("function sdk.users.create_user"), "Missing function sig. Got:\n{docs}");
    assert!(docs.contains("export type UserInput"), "Missing schema. Got:\n{docs}");
    assert!(docs.contains("name: string"), "Missing name field. Got:\n{docs}");
}

#[test]
fn mcp_tool_annotation_exact() {
    let server = CodeMcpServer::new(mcp_only_manifest(), NameMap::new(), false);
    let docs = get_function_docs_impl(&server, "filesystem.write_file").unwrap();
    assert_eq!(
        docs,
        "-- Write content to a file\nfunction sdk.filesystem.write_file(params: { path: string, content: string }): any end"
    );
}

// ---------------------------------------------------------------------------
// Resources
// ---------------------------------------------------------------------------

fn annotation_cache(manifest: &Manifest) -> NameMap<String> {
    CodeMcpServer::new(manifest_copy(manifest), NameMap::new(), false).annotation_cache
}

fn manifest_copy(_m: &Manifest) -> Manifest {
    test_manifest()
}

#[test]
fn test_resource_list_contains_expected_uris() {
    let manifest = test_manifest();
    let resources = build_resource_list(&manifest, false);
    let uris: Vec<&str> = resources.iter().map(|r| r.uri.as_str()).collect();
    assert!(uris.contains(&"sdk://petstore/overview"));
    assert!(uris.contains(&"sdk://petstore/functions"));
    assert!(uris.contains(&"sdk://petstore/schemas"));
    assert!(uris.contains(&"sdk://petstore/functions/list_pets"));
    assert!(uris.contains(&"sdk://petstore/functions/get_pet"));
    assert!(uris.contains(&"sdk://petstore/functions/create_pet"));
    assert!(uris.contains(&"sdk://petstore/schemas/Pet"));
    assert!(uris.contains(&"sdk://petstore/schemas/NewPet"));
}

#[test]
fn test_resource_list_contains_luau_uris() {
    let manifest = test_manifest();
    let resources = build_resource_list(&manifest, false);
    let uris: Vec<&str> = resources.iter().map(|r| r.uri.as_str()).collect();
    assert!(uris.contains(&"sdk://luau/overview"));
    assert!(uris.contains(&"sdk://luau/functions"));
    assert!(uris.contains(&"sdk://luau/functions/json.encode"));
    assert!(uris.contains(&"sdk://luau/functions/print"));
    assert!(!uris.contains(&"sdk://luau/functions/io.open"));
}

#[test]
fn test_resource_list_contains_luau_io_uris() {
    let manifest = test_manifest();
    let resources = build_resource_list(&manifest, true);
    let uris: Vec<&str> = resources.iter().map(|r| r.uri.as_str()).collect();
    assert!(uris.contains(&"sdk://luau/functions/io.open"));
    assert!(uris.contains(&"sdk://luau/functions/os.remove"));
}

#[test]
fn resource_list_count_and_fields() {
    let manifest = test_manifest();
    let resources = build_resource_list(&manifest, false);
    // 3 listings + 3 functions + 2 schemas + 2 luau listings + 4 builtins
    assert_eq!(resources.len(), 14);
    assert_eq!(resources[0].name, "petstore Overview");
    assert_eq!(resources[0].title.as_deref(), Some("petstore API Overview"));
    assert_eq!(resources[3].name, "list_pets");
    assert_eq!(resources[3].title.as_deref(), Some("List all pets"));
}

#[test]
fn test_read_overview_resource() {
    let manifest = test_manifest();
    let ac = annotation_cache(&manifest);
    let text = read_resource("sdk://petstore/overview", &manifest, &ac, false).unwrap();
    assert!(text.contains("petstore"));
    assert!(text.contains("1.0.0"));
    assert!(text.contains("https://petstore.example.com/v1"));
    assert_eq!(
        text,
        "# petstore API\n\nA sample petstore API\n\nVersion: 1.0.0\nBase URL: https://petstore.example.com/v1\nFunctions: 3\n"
    );
}

#[test]
fn test_read_luau_overview_resource() {
    let manifest = test_manifest();
    let ac = annotation_cache(&manifest);
    let text = read_resource("sdk://luau/overview", &manifest, &ac, false).unwrap();
    assert!(text.contains("Luau Runtime"), "Got:\n{text}");
    assert!(text.contains("Documented functions: 4"), "Got:\n{text}");
}

#[test]
fn test_read_luau_functions_resource() {
    let manifest = test_manifest();
    let ac = annotation_cache(&manifest);
    let text = read_resource("sdk://luau/functions", &manifest, &ac, false).unwrap();
    assert!(text.contains("json.encode"), "Got:\n{text}");
    assert!(text.contains("json.decode"), "Got:\n{text}");
    assert!(text.contains("function print"), "Got:\n{text}");
}

#[test]
fn test_read_function_resource() {
    let manifest = test_manifest();
    let ac = annotation_cache(&manifest);
    let text = read_resource("sdk://petstore/functions/list_pets", &manifest, &ac, false).unwrap();
    assert!(text.contains("List all pets"));
    assert!(text.contains("function sdk.list_pets"));
}

#[test]
fn test_read_schema_resource() {
    let manifest = test_manifest();
    let ac = annotation_cache(&manifest);
    let text = read_resource("sdk://petstore/schemas/Pet", &manifest, &ac, false).unwrap();
    assert!(text.contains("export type Pet = {"));
    assert!(text.contains("id: string,"));
}

#[test]
fn read_resource_errors() {
    let manifest = test_manifest();
    let ac = annotation_cache(&manifest);
    assert_eq!(read_resource("http://x", &manifest, &ac, false).unwrap_err(), "Invalid resource URI scheme");
    assert_eq!(read_resource("sdk://nope/overview", &manifest, &ac, false).unwrap_err(), "API 'nope' not found");
    assert_eq!(
        read_resource("sdk://petstore/other", &manifest, &ac, false).unwrap_err(),
        "Unknown resource path: sdk://petstore/other"
    );
    assert_eq!(
        read_resource("sdk://petstore/schemas/Nope", &manifest, &ac, false).unwrap_err(),
        "Schema 'Nope' not found"
    );
    assert_eq!(
        read_resource("sdk://luau/x", &manifest, &ac, false).unwrap_err(),
        "Unknown resource: sdk://luau/x"
    );
}

#[test]
fn read_server_overview() {
    let manifest = mcp_only_manifest();
    let ac = NameMap::new();
    let text = read_resource("sdk://filesystem/overview", &manifest, &ac, false).unwrap();
    assert_eq!(
        text,
        "# filesystem MCP Server\n\nFile system access\n\nTools: 2\n\nAvailable tools:\n  - read_file: Read a file from disk\n  - write_file: Write content to a file\n"
    );
}
