use toolscript::auth::{extract_bearer_token, merge_credentials, parse_meta_auth};
use toolscript::config::{parse_transport, Transport};
use toolscript::generate::{append_manifest, apply_frozen_params, frozen_params_for_api, name_api};
use toolscript::http::AuthCredentials;
use toolscript::json::JsonValue;
use toolscript::manifest::{
    ApiConfig, FunctionDef, HttpMethod, Manifest, ParamDef, ParamLocation, ParamType, SchemaDef,
};
use toolscript::namemap::NameMap;
use toolscript::tools::CodeMcpServer;

fn s(x: &str) -> String {
    x.to_string()
}

fn param(name: &str) -> ParamDef {
    ParamDef {
        name: s(name),
        location: ParamLocation::Query,
        param_type: ParamType::String,
        required: false,
        description: None,
        default: None,
        enum_values: None,
        format: None,
        frozen_value: None,
    }
}

fn function(name: &str, api: &str, params: Vec<ParamDef>) -> FunctionDef {
    FunctionDef {
        name: s(name),
        api: s(api),
        tag: None,
        method: HttpMethod::Get,
        path: s("/things"),
        summary: None,
        description: None,
        deprecated: false,
        parameters: params,
        request_body: None,
        response_schema: None,
    }
}

fn api(name: &str, description: Option<&str>) -> ApiConfig {
    ApiConfig {
        name: s(name),
        base_url: s("https://example.com"),
        description: description.map(s),
        version: None,
        auth: None,
    }
}

fn manifest(apis: Vec<ApiConfig>, functions: Vec<FunctionDef>) -> Manifest {
    Manifest { apis, functions, schemas: vec![], mcp_servers: vec![] }
}

fn obj(members: Vec<(&str, JsonValue)>) -> JsonValue {
    JsonValue::Object(members.into_iter().map(|(k, v)| (k.to_string(), v)).collect())
}

fn jstr(t: &str) -> JsonValue {
    JsonValue::String(t.to_string())
}

#[test]
fn api_names_given_or_derived() {
    assert_eq!(name_api(&Some(s("mystore")), "Petstore"), "mystore");
    assert_eq!(name_api(&None, "My Cool API"), "my_cool_api");
    assert_eq!(name_api(&None, "Petstore"), "petstore");
}

#[test]
fn frozen_values_per_api_override_global() {
    let mut global = NameMap::new();
    global.insert(s("limit"), s("10"));
    global.insert(s("format"), s("json"));
    let mut pet = NameMap::new();
    pet.insert(s("limit"), s("50"));
    let mut per_api = NameMap::new();
    per_api.insert(s("petstore"), pet);
    let frozen = frozen_params_for_api(&global, &per_api, "petstore");
    assert_eq!(frozen.get("limit").map(|v| v.as_str()), Some("50"));
    assert_eq!(frozen.get("format").map(|v| v.as_str()), Some("json"));
    let other = frozen_params_for_api(&global, &per_api, "billing");
    assert_eq!(other.get("limit").map(|v| v.as_str()), Some("10"));
    assert_eq!(other.len(), 2);
}

#[test]
fn freezing_sets_only_named_params() {
    let mut m = manifest(
        vec![api("petstore", None)],
        vec![function("list_pets", "petstore", vec![param("limit"), param("status")])],
    );
    let mut frozen = NameMap::new();
    frozen.insert(s("limit"), s("20"));
    apply_frozen_params(&mut m, &frozen);
    let ps = &m.functions[0].parameters;
    assert_eq!(ps[0].frozen_value.as_deref(), Some("20"));
    assert_eq!(ps[1].frozen_value, None);
    assert_eq!(m.apis.len(), 1);
    assert_eq!(m.functions[0].name, "list_pets");

    // No frozen values: nothing changes.
    let mut m2 = manifest(vec![], vec![function("f", "a", vec![param("limit")])]);
    apply_frozen_params(&mut m2, &NameMap::new());
    assert_eq!(m2.functions[0].parameters[0].frozen_value, None);
}

#[test]
fn manifests_are_appended_in_order() {
    let mut combined = manifest(vec![], vec![]);
    let mut first = manifest(vec![api("a", None)], vec![function("fa", "a", vec![])]);
    first.schemas.push(SchemaDef { name: s("A"), description: None, fields: vec![] });
    append_manifest(&mut combined, first);
    append_manifest(&mut combined, manifest(vec![api("b", None)], vec![function("fb", "b", vec![])]));
    let names: Vec<&str> = combined.apis.iter().map(|a| a.name.as_str()).collect();
    assert_eq!(names, vec!["a", "b"]);
    let fnames: Vec<&str> = combined.functions.iter().map(|f| f.name.as_str()).collect();
    assert_eq!(fnames, vec!["fa", "fb"]);
    assert_eq!(combined.schemas.len(), 1);
}

#[test]
fn test_auth_middleware_rejects_no_header() {
    let result = extract_bearer_token("");
    assert!(result.is_err());
}

#[test]
fn test_auth_middleware_rejects_wrong_scheme() {
    let result = extract_bearer_token("Basic abc123");
    assert!(result.is_err());
}

#[test]
fn bearer_token_is_taken_from_header() {
    assert_eq!(extract_bearer_token("Bearer abc.def").unwrap(), "abc.def");
    assert!(extract_bearer_token("Bearer ").is_err());
    assert!(extract_bearer_token("bearer abc").is_err());
}

#[test]
fn test_meta_auth_roundtrip() {
    let mut env_creds = NameMap::new();
    env_creds.insert(s("api_a"), AuthCredentials::BearerToken(s("env-token-a")));
    env_creds.insert(s("api_b"), AuthCredentials::ApiKey(s("env-key-b")));
    let meta_json = obj(vec![
        ("api_a", obj(vec![("type", jstr("bearer")), ("token", jstr("client-token-a"))])),
        ("api_c", obj(vec![("type", jstr("api_key")), ("key", jstr("client-key-c"))])),
    ]);
    let meta_creds = parse_meta_auth(&meta_json);
    let merged = merge_credentials(&env_creds, &meta_creds);
    match merged.get("api_a").unwrap() {
        AuthCredentials::BearerToken(t) => assert_eq!(t, "client-token-a"),
        other => panic!("expected client token, got {other:?}"),
    }
    assert!(matches!(merged.get("api_b").unwrap(), AuthCredentials::ApiKey(_)));
    assert!(matches!(merged.get("api_c").unwrap(), AuthCredentials::ApiKey(_)));
}

#[test]
fn server_description_and_instructions() {
    let server = CodeMcpServer::new(
        manifest(vec![api("petstore", Some("Pets")), api("billing", None)], vec![]),
        NameMap::new(),
        false,
    );
    assert_eq!(
        server.server_description(),
        "Scriptable SDK server for: petstore: Pets; billing. Write Luau scripts to chain multiple API calls in a single execution."
    );
    let instructions = server.server_instructions();
    assert!(instructions.starts_with(
        "This server provides a Luau SDK for the following APIs: petstore, billing. Use list_apis"
    ));
    assert!(instructions.ends_with("chain multiple API calls together."));
}

#[test]
fn transports_by_name() {
    assert_eq!(parse_transport("stdio"), Ok(Transport::Stdio));
    assert_eq!(parse_transport("sse"), Ok(Transport::Http));
    assert_eq!(parse_transport("http"), Ok(Transport::Http));
    assert_eq!(
        parse_transport("pigeon"),
        Err(s("Unknown transport: 'pigeon'. Use 'stdio' or 'sse'."))
    );
}
