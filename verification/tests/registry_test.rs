use toolscript::http::{AuthCredentials, AuthInjection};
use toolscript::manifest::{
    ApiConfig, AuthConfig, FunctionDef, HttpMethod, Manifest, ParamDef, ParamLocation, ParamType,
    RequestBodyDef,
};
use toolscript::namemap::NameMap;
use toolscript::registry::{plan_call, resolve_function_apis, ParamArg};
use toolscript::validate::AddressChecks;

fn s(x: &str) -> String {
    x.to_string()
}

fn param(name: &str, location: ParamLocation, param_type: ParamType, required: bool) -> ParamDef {
    ParamDef {
        name: s(name),
        location,
        param_type,
        required,
        description: None,
        default: None,
        enum_values: None,
        format: None,
        frozen_value: None,
    }
}

fn api() -> ApiConfig {
    ApiConfig {
        name: s("petstore"),
        base_url: s("https://petstore.example.com/v1"),
        description: None,
        version: None,
        auth: Some(AuthConfig::Bearer { header: s("Authorization"), prefix: s("Bearer ") }),
    }
}

fn func(name: &str, method: HttpMethod, path: &str, parameters: Vec<ParamDef>, body: bool) -> FunctionDef {
    FunctionDef {
        name: s(name),
        api: s("petstore"),
        tag: None,
        method,
        path: s(path),
        summary: None,
        description: None,
        deprecated: false,
        parameters,
        request_body: if body {
            Some(RequestBodyDef { content_type: s("application/json"), schema: s("NewPet"), required: true, description: None })
        } else {
            None
        },
        response_schema: None,
    }
}

fn args(pairs: &[(&str, &str)]) -> NameMap<ParamArg> {
    let mut m = NameMap::new();
    for (k, v) in pairs {
        m.insert(s(k), ParamArg { text: s(v), addr: AddressChecks { ipv4: false, ipv6: false } });
    }
    m
}

fn creds() -> NameMap<AuthCredentials> {
    let mut m = NameMap::new();
    m.insert(s("petstore"), AuthCredentials::BearerToken(s("sk-1")));
    m
}

#[test]
fn test_path_param_substitution() {
    let f = func("get_pet", HttpMethod::Get, "/pets/{pet_id}", vec![param("pet_id", ParamLocation::Path, ParamType::String, true)], false);
    let plan = plan_call(&f, &api(), &creds(), &None, &args(&[("pet_id", "456")]), 0, Some(100)).unwrap();
    assert_eq!(plan.url, "https://petstore.example.com/v1/pets/456");
    assert_eq!(plan.method, HttpMethod::Get);
    assert_eq!(plan.body_arg, None);
    assert_eq!(plan.auth, AuthInjection::Header { name: s("Authorization"), value: s("Bearer sk-1") });
}

#[test]
fn test_query_params_passed() {
    let f = func(
        "list_pets",
        HttpMethod::Get,
        "/pets",
        vec![
            param("status", ParamLocation::Query, ParamType::String, false),
            param("limit", ParamLocation::Query, ParamType::Integer, false),
        ],
        false,
    );
    let plan = plan_call(&f, &api(), &creds(), &None, &args(&[("limit", "10"), ("status", "available")]), 0, None).unwrap();
    assert_eq!(plan.query, vec![(s("status"), s("available")), (s("limit"), s("10"))]);
    assert!(plan.headers.is_empty());
}

#[test]
fn test_missing_required_param_errors() {
    let f = func("get_pet", HttpMethod::Get, "/pets/{pet_id}", vec![param("pet_id", ParamLocation::Path, ParamType::String, true)], false);
    let err = plan_call(&f, &api(), &creds(), &None, &args(&[]), 0, None).unwrap_err();
    assert_eq!(err, "missing required parameter 'pet_id' for function 'get_pet'");
}

#[test]
fn test_optional_param_can_be_nil() {
    let f = func("list_pets", HttpMethod::Get, "/pets", vec![param("status", ParamLocation::Query, ParamType::String, false)], false);
    let plan = plan_call(&f, &api(), &creds(), &None, &args(&[]), 0, None).unwrap();
    assert!(plan.query.is_empty());
    assert_eq!(plan.url, "https://petstore.example.com/v1/pets");
}

#[test]
fn test_header_params_sent() {
    let f = func("h", HttpMethod::Get, "/h", vec![param("X-Request-Id", ParamLocation::Header, ParamType::String, false)], false);
    let plan = plan_call(&f, &api(), &creds(), &None, &args(&[("X-Request-Id", "abc")]), 0, None).unwrap();
    assert_eq!(plan.headers, vec![(s("X-Request-Id"), s("abc"))]);
}

#[test]
fn test_enum_validation_rejects_invalid() {
    let mut p = param("status", ParamLocation::Query, ParamType::String, false);
    p.enum_values = Some(vec![s("available"), s("pending"), s("sold")]);
    let f = func("list_pets", HttpMethod::Get, "/pets", vec![p], false);
    let err = plan_call(&f, &api(), &creds(), &None, &args(&[("status", "deleted")]), 0, None).unwrap_err();
    assert!(err.contains("expected one of"), "error was: {err}");
    assert!(err.contains("deleted"), "error was: {err}");
}

#[test]
fn test_format_validation_rejects_invalid_uuid() {
    let mut p = param("id", ParamLocation::Path, ParamType::String, true);
    p.format = Some(s("uuid"));
    let f = func("get", HttpMethod::Get, "/items/{id}", vec![p], false);
    let err = plan_call(&f, &api(), &creds(), &None, &args(&[("id", "nope")]), 0, None).unwrap_err();
    assert!(err.contains("uuid"), "error was: {err}");
}

#[test]
fn test_frozen_param_injected() {
    let mut v = param("api_version", ParamLocation::Query, ParamType::String, true);
    v.frozen_value = Some(s("v2"));
    let f = func("list_pets", HttpMethod::Get, "/pets", vec![v, param("limit", ParamLocation::Query, ParamType::Integer, false)], false);
    let plan = plan_call(&f, &api(), &creds(), &None, &args(&[("limit", "5"), ("api_version", "v9")]), 0, None).unwrap();
    assert_eq!(plan.query, vec![(s("api_version"), s("v2")), (s("limit"), s("5"))]);
}

#[test]
fn test_all_frozen_with_body_as_sole_arg() {
    let mut v = param("api_version", ParamLocation::Query, ParamType::String, true);
    v.frozen_value = Some(s("v2"));
    let f = func("create", HttpMethod::Post, "/pets", vec![v], true);
    // a non-table first argument is fine when every parameter is frozen
    let plan = plan_call(&f, &api(), &creds(), &Some(s("string")), &args(&[]), 0, None).unwrap();
    assert_eq!(plan.body_arg, Some(0));
    assert_eq!(plan.query, vec![(s("api_version"), s("v2"))]);
}

#[test]
fn body_follows_parameter_table() {
    let f = func("create", HttpMethod::Post, "/pets", vec![param("dry_run", ParamLocation::Query, ParamType::Boolean, false)], true);
    let plan = plan_call(&f, &api(), &NameMap::new(), &None, &args(&[]), 0, None).unwrap();
    assert_eq!(plan.body_arg, Some(1));
    assert_eq!(plan.auth, AuthInjection::Nothing);
    let err = plan_call(&f, &api(), &NameMap::new(), &Some(s("number")), &args(&[]), 0, None).unwrap_err();
    assert_eq!(err, "expected table as first argument to 'create', got number");
}

#[test]
fn call_limit_enforced() {
    let f = func("list", HttpMethod::Get, "/pets", vec![], false);
    let err = plan_call(&f, &api(), &creds(), &None, &args(&[]), 3, Some(3)).unwrap_err();
    assert_eq!(err, "API call limit exceeded (max 3 calls)");
    assert!(plan_call(&f, &api(), &creds(), &None, &args(&[]), 2, Some(3)).is_ok());
}

#[test]
fn path_substitutes_every_occurrence() {
    let f = func("g", HttpMethod::Get, "/a/{id}/b/{id}", vec![param("id", ParamLocation::Path, ParamType::String, true)], false);
    let plan = plan_call(&f, &api(), &creds(), &None, &args(&[("id", "7")]), 0, None).unwrap();
    assert_eq!(plan.url, "https://petstore.example.com/v1/a/7/b/7");
}

#[test]
fn function_apis_resolve_to_last_match() {
    let mut other = api();
    other.base_url = s("https://other");
    let manifest = Manifest {
        apis: vec![api(), other],
        functions: vec![func("a", HttpMethod::Get, "/", vec![], false)],
        schemas: vec![],
        mcp_servers: vec![],
    };
    assert_eq!(resolve_function_apis(&manifest), Ok(vec![1]));
    let mut bad = func("b", HttpMethod::Get, "/", vec![], false);
    bad.api = s("nope");
    let manifest = Manifest { apis: vec![api()], functions: vec![bad], schemas: vec![], mcp_servers: vec![] };
    assert_eq!(
        resolve_function_apis(&manifest),
        Err(s("function 'b' references unknown API 'nope'"))
    );
}

#[test]
fn first_failing_parameter_in_order_is_reported() {
    let mut status = param("status", ParamLocation::Query, ParamType::String, false);
    status.enum_values = Some(vec![s("available")]);
    let f = func(
        "find",
        HttpMethod::Get,
        "/pets/{pet_id}",
        vec![
            param("pet_id", ParamLocation::Path, ParamType::String, true),
            status,
            param("owner", ParamLocation::Query, ParamType::String, true),
        ],
        false,
    );
    let err = plan_call(&f, &api(), &creds(), &None, &args(&[("status", "gone")]), 0, None).unwrap_err();
    assert_eq!(err, "missing required parameter 'pet_id' for function 'find'");
    let err = plan_call(&f, &api(), &creds(), &None, &args(&[("pet_id", "1"), ("status", "gone")]), 0, None)
        .unwrap_err();
    assert!(err.contains("expected one of") && err.contains("gone"), "error was: {err}");
    let err = plan_call(&f, &api(), &creds(), &None, &args(&[("pet_id", "1"), ("status", "available")]), 0, None)
        .unwrap_err();
    assert_eq!(err, "missing required parameter 'owner' for function 'find'");
}
