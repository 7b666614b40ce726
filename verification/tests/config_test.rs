use toolscript::config::{
    extract_frozen_params, merge_frozen_params, merge_mcp_args, missing_auth, parse_auth_arg,
    parse_mcp_arg, parse_spec_arg,
    resolve_cli_auth, resolve_config_auth, resolve_output_config, spec_inputs_from_args,
    spec_inputs_from_config, spec_source, CodeMcpConfig, ConfigApiEntry, ConfigAuth, Discovery,
    McpServerConfigEntry, OutputConfig, SpecInput, SpecSource,
};
use toolscript::http::AuthCredentials;
use toolscript::manifest::{ApiConfig, AuthConfig};
use toolscript::namemap::NameMap;

fn s(x: &str) -> String {
    x.to_string()
}

fn strings(pairs: &[(&str, &str)]) -> NameMap<String> {
    let mut m = NameMap::new();
    for (k, v) in pairs {
        m.insert(s(k), s(v));
    }
    m
}

fn entry(spec: &str, auth: Option<ConfigAuth>, auth_env: Option<&str>) -> ConfigApiEntry {
    ConfigApiEntry { spec: s(spec), auth, auth_env: auth_env.map(s), frozen_params: None }
}

fn config_with(apis: Vec<(&str, ConfigApiEntry)>) -> CodeMcpConfig {
    let mut m = NameMap::new();
    for (k, v) in apis {
        m.insert(s(k), v);
    }
    CodeMcpConfig { apis: m, frozen_params: None, output: None }
}

#[test]
fn test_parse_spec_arg_plain_path() {
    let result = parse_spec_arg("petstore.yaml");
    assert_eq!(result, SpecInput { name: None, source: "petstore.yaml".to_string() });
}

#[test]
fn test_parse_spec_arg_plain_url() {
    let result = parse_spec_arg("https://example.com/spec.json");
    assert_eq!(result, SpecInput { name: None, source: "https://example.com/spec.json".to_string() });
}

#[test]
fn test_parse_spec_arg_named() {
    let result = parse_spec_arg("petstore=petstore.yaml");
    assert_eq!(
        result,
        SpecInput { name: Some("petstore".to_string()), source: "petstore.yaml".to_string() }
    );
}

#[test]
fn test_parse_spec_arg_named_url() {
    let result = parse_spec_arg("myapi=https://example.com/spec.json");
    assert_eq!(
        result,
        SpecInput {
            name: Some("myapi".to_string()),
            source: "https://example.com/spec.json".to_string(),
        }
    );
}

#[test]
fn parse_spec_arg_url_with_equals_in_query_is_plain() {
    let result = parse_spec_arg("https://example.com/spec?v=2");
    assert_eq!(result, SpecInput { name: None, source: s("https://example.com/spec?v=2") });
}

#[test]
fn parse_spec_arg_splits_at_first_equals() {
    let result = parse_spec_arg("a=b=c");
    assert_eq!(result, SpecInput { name: Some(s("a")), source: s("b=c") });
    let empty = parse_spec_arg("=x");
    assert_eq!(empty, SpecInput { name: Some(s("")), source: s("x") });
}

#[test]
fn test_parse_auth_arg_named() {
    let result = parse_auth_arg("petstore:MY_TOKEN").unwrap();
    assert_eq!(result, (Some("petstore".to_string()), "MY_TOKEN".to_string()));
}

#[test]
fn test_parse_auth_arg_unnamed() {
    let result = parse_auth_arg("MY_TOKEN").unwrap();
    assert_eq!(result, (None, "MY_TOKEN".to_string()));
}

#[test]
fn test_parse_auth_arg_empty_name_errors() {
    let result = parse_auth_arg(":MY_TOKEN");
    assert!(result.is_err());
}

#[test]
fn test_parse_auth_arg_empty_env_errors() {
    let result = parse_auth_arg("petstore:");
    assert!(result.is_err());
}

#[test]
fn test_parse_auth_arg_empty_errors() {
    let result = parse_auth_arg("");
    assert!(result.is_err());
}

#[test]
fn parse_auth_arg_error_messages() {
    assert_eq!(parse_auth_arg("").unwrap_err(), "--auth value cannot be empty");
    assert_eq!(
        parse_auth_arg("x:").unwrap_err(),
        "invalid --auth format 'x:': expected NAME:ENV_VAR or ENV_VAR"
    );
    assert_eq!(parse_auth_arg("a:b:c").unwrap(), (Some(s("a")), s("b:c")));
}

#[test]
fn test_merge_frozen_params_precedence() {
    let global = strings(&[("api_version", "v1"), ("tenant", "default")]);
    let per_api = strings(&[("api_version", "v2")]);
    let merged = merge_frozen_params(Some(&global), Some(&per_api));
    assert_eq!(merged.get("api_version").unwrap(), "v2");
    assert_eq!(merged.get("tenant").unwrap(), "default");
}

#[test]
fn merge_frozen_params_with_missing_sides() {
    let per_api = strings(&[("a", "1")]);
    let merged = merge_frozen_params(None, Some(&per_api));
    assert_eq!(merged.len(), 1);
    assert_eq!(merged.get("a").unwrap(), "1");
    let none = merge_frozen_params(None, None);
    assert_eq!(none.len(), 0);
}

#[test]
fn test_resolve_cli_auth_named() {
    let env = strings(&[("TEST_CLI_AUTH_TOKEN", "secret123")]);
    let auth_args = vec![(Some(s("petstore")), s("TEST_CLI_AUTH_TOKEN"))];
    let api_names = vec![s("petstore")];
    let result = resolve_cli_auth(&auth_args, &api_names, &env).unwrap();
    assert!(result.contains_key("petstore"));
    assert_eq!(result.get("petstore"), Some(&AuthCredentials::BearerToken(s("secret123"))));
}

#[test]
fn test_resolve_cli_auth_unnamed_single_spec() {
    let env = strings(&[("TEST_CLI_AUTH_UNNAMED", "token456")]);
    let auth_args = vec![(None, s("TEST_CLI_AUTH_UNNAMED"))];
    let api_names = vec![s("onlyapi")];
    let result = resolve_cli_auth(&auth_args, &api_names, &env).unwrap();
    assert_eq!(result.get("onlyapi"), Some(&AuthCredentials::BearerToken(s("token456"))));
}

#[test]
fn test_resolve_cli_auth_unnamed_multiple_specs_errors() {
    let env = strings(&[("TEST_CLI_AUTH_MULTI", "token789")]);
    let auth_args = vec![(None, s("TEST_CLI_AUTH_MULTI"))];
    let api_names = vec![s("api1"), s("api2")];
    let err = resolve_cli_auth(&auth_args, &api_names, &env).unwrap_err();
    assert!(err.contains("multiple"), "Error should mention multiple specs: {err}");
    assert_eq!(
        err,
        "unnamed --auth requires exactly one spec, but found multiple APIs: [\"api1\", \"api2\"]"
    );
}

#[test]
fn test_resolve_cli_auth_name_not_found_errors() {
    let env = strings(&[("TEST_CLI_AUTH_NOTFOUND", "tokenxyz")]);
    let auth_args = vec![(Some(s("nonexistent")), s("TEST_CLI_AUTH_NOTFOUND"))];
    let api_names = vec![s("petstore")];
    let err = resolve_cli_auth(&auth_args, &api_names, &env).unwrap_err();
    assert!(err.contains("nonexistent"), "Error should mention unknown name: {err}");
    assert_eq!(
        err,
        "auth name 'nonexistent' does not match any known API (known: [\"petstore\"])"
    );
}

#[test]
fn resolve_cli_auth_unset_variable_errors() {
    let env = NameMap::new();
    let auth_args = vec![(Some(s("petstore")), s("MISSING_VAR"))];
    let err = resolve_cli_auth(&auth_args, &[s("petstore")], &env).unwrap_err();
    assert_eq!(err, "environment variable 'MISSING_VAR' is not set");
}

#[test]
fn resolve_cli_auth_later_argument_wins() {
    let env = strings(&[("A", "first"), ("B", "second")]);
    let auth_args = vec![(Some(s("p")), s("A")), (None, s("B"))];
    let result = resolve_cli_auth(&auth_args, &[s("p")], &env).unwrap();
    assert_eq!(result.len(), 1);
    assert_eq!(result.get("p"), Some(&AuthCredentials::BearerToken(s("second"))));
}

#[test]
fn test_resolve_config_auth_direct() {
    let config = config_with(vec![(
        "petstore",
        entry("petstore.yaml", Some(ConfigAuth::Direct(s("sk-direct-token"))), None),
    )]);
    let result = resolve_config_auth(&config, &NameMap::new()).unwrap();
    assert_eq!(result.get("petstore"), Some(&AuthCredentials::BearerToken(s("sk-direct-token"))));
}

#[test]
fn test_resolve_config_auth_basic() {
    let config = config_with(vec![(
        "myapi",
        entry(
            "myapi.yaml",
            Some(ConfigAuth::Basic { auth_type: s("basic"), username: s("admin"), password: s("hunter2") }),
            None,
        ),
    )]);
    let result = resolve_config_auth(&config, &NameMap::new()).unwrap();
    assert_eq!(
        result.get("myapi"),
        Some(&AuthCredentials::Basic { username: s("admin"), password: s("hunter2") })
    );
}

#[test]
fn test_resolve_config_auth_env_ref() {
    let env = strings(&[("TEST_CONFIG_ENV_REF", "envtoken999")]);
    let config = config_with(vec![(
        "myapi",
        entry("myapi.yaml", Some(ConfigAuth::EnvRef { auth_env: s("TEST_CONFIG_ENV_REF") }), None),
    )]);
    let result = resolve_config_auth(&config, &env).unwrap();
    assert_eq!(result.get("myapi"), Some(&AuthCredentials::BearerToken(s("envtoken999"))));
}

#[test]
fn resolve_config_auth_env_field_wins_and_missing_errors() {
    let env = strings(&[("TOKEN", "from-env")]);
    let config = config_with(vec![(
        "a",
        entry("a.yaml", Some(ConfigAuth::Direct(s("direct"))), Some("TOKEN")),
    )]);
    let result = resolve_config_auth(&config, &env).unwrap();
    assert_eq!(result.get("a"), Some(&AuthCredentials::BearerToken(s("from-env"))));

    let missing = config_with(vec![("b", entry("b.yaml", None, Some("NOPE")))]);
    let err = resolve_config_auth(&missing, &env).unwrap_err();
    assert_eq!(err, "environment variable 'NOPE' (from auth_env for 'b') is not set");

    let missing_ref = config_with(vec![(
        "c",
        entry("c.yaml", Some(ConfigAuth::EnvRef { auth_env: s("GONE") }), None),
    )]);
    let err = resolve_config_auth(&missing_ref, &env).unwrap_err();
    assert_eq!(err, "environment variable 'GONE' (from auth.auth_env for 'c') is not set");

    let none = config_with(vec![("d", entry("d.yaml", None, None))]);
    assert_eq!(resolve_config_auth(&none, &env).unwrap().len(), 0);
}

#[test]
fn spec_inputs_from_config_and_args() {
    let config = config_with(vec![("petstore", entry("petstore.yaml", None, None))]);
    let inputs = spec_inputs_from_config(&config);
    assert_eq!(inputs, vec![SpecInput { name: Some(s("petstore")), source: s("petstore.yaml") }]);
    let args = spec_inputs_from_args(&[s("a=a.yaml"), s("b.yaml")]);
    assert_eq!(
        args,
        vec![
            SpecInput { name: Some(s("a")), source: s("a.yaml") },
            SpecInput { name: None, source: s("b.yaml") },
        ]
    );
}

#[test]
fn spec_source_decisions() {
    assert_eq!(spec_source(true, false, Discovery::Off), Ok(SpecSource::Args));
    assert_eq!(spec_source(false, true, Discovery::Off), Ok(SpecSource::Config));
    assert_eq!(
        spec_source(true, true, Discovery::Found),
        Err(s("cannot use --config with positional spec arguments"))
    );
    assert_eq!(spec_source(false, false, Discovery::Found), Ok(SpecSource::DefaultConfig));
    assert_eq!(
        spec_source(false, false, Discovery::Off),
        Err(s("no specs provided. Pass spec paths/URLs as arguments or use --config"))
    );
    assert_eq!(
        spec_source(false, false, Discovery::Absent),
        Err(s("no specs provided. Pass spec paths/URLs, use --config, or create toolscript.toml"))
    );
}

#[test]
fn extract_frozen_params_collects_both_levels() {
    let mut apis = NameMap::new();
    apis.insert(
        s("petstore"),
        ConfigApiEntry {
            spec: s("petstore.yaml"),
            auth: None,
            auth_env: None,
            frozen_params: Some(strings(&[("tenant_id", "abc-123")])),
        },
    );
    apis.insert(s("other"), entry("other.yaml", None, None));
    let config = CodeMcpConfig {
        apis,
        frozen_params: Some(strings(&[("api_version", "v2")])),
        output: None,
    };
    let (global, per_api) = extract_frozen_params(Some(&config));
    assert_eq!(global.get("api_version").unwrap(), "v2");
    assert_eq!(per_api.len(), 1);
    assert_eq!(per_api.get("petstore").unwrap().get("tenant_id").unwrap(), "abc-123");
    let (g, p) = extract_frozen_params(None);
    assert_eq!((g.len(), p.len()), (0, 0));
}

#[test]
fn resolve_output_config_rules() {
    // local mode defaults
    let local = resolve_output_config(None, None, false).unwrap();
    assert_eq!(local.dir, "./toolscript-output");
    assert_eq!(local.max_bytes, 50 * 1024 * 1024);
    // hosted mode is off unless enabled
    assert!(resolve_output_config(None, None, true).is_none());
    // the command line always wins
    let cli = resolve_output_config(Some("/tmp/out"), None, true).unwrap();
    assert_eq!(cli.dir, "/tmp/out");
    // explicit enabled = false turns output off
    let mut config = config_with(vec![]);
    config.output = Some(OutputConfig { dir: Some(s("/data")), max_bytes: Some(10), enabled: Some(false) });
    assert!(resolve_output_config(None, Some(&config), false).is_none());
    // enabled in hosted mode, with the configured directory and budget
    config.output = Some(OutputConfig { dir: Some(s("/data")), max_bytes: Some(10), enabled: Some(true) });
    let hosted = resolve_output_config(None, Some(&config), true).unwrap();
    assert_eq!((hosted.dir.as_str(), hosted.max_bytes), ("/data", 10));
}

#[test]
fn missing_auth_lists_apis_without_credentials() {
    let apis = vec![
        ApiConfig { name: s("a"), base_url: s("/"), description: None, version: None, auth: Some(AuthConfig::Basic) },
        ApiConfig { name: s("b"), base_url: s("/"), description: None, version: None, auth: None },
        ApiConfig { name: s("c"), base_url: s("/"), description: None, version: None, auth: Some(AuthConfig::Basic) },
    ];
    let mut auth = NameMap::new();
    auth.insert(s("c"), AuthCredentials::Basic { username: s("u"), password: s("p") });
    assert_eq!(missing_auth(&apis, &auth), vec![s("a")]);
}

#[test]
fn test_parse_mcp_arg_command_with_args() {
    let (name, e) =
        parse_mcp_arg("filesystem=npx -y @modelcontextprotocol/server-filesystem /tmp").unwrap();
    assert_eq!(name, "filesystem");
    assert_eq!(e.command.as_deref(), Some("npx"));
    assert_eq!(
        e.args,
        Some(vec![s("-y"), s("@modelcontextprotocol/server-filesystem"), s("/tmp")])
    );
    assert!(e.url.is_none());
    assert!(e.env.is_none());
}

#[test]
fn test_parse_mcp_arg_extra_spaces_are_dropped() {
    let (name, e) = parse_mcp_arg("db=  sqlite-server   data.db ").unwrap();
    assert_eq!(name, "db");
    assert_eq!(e.command.as_deref(), Some("sqlite-server"));
    assert_eq!(e.args, Some(vec![s("data.db")]));
}

#[test]
fn test_parse_mcp_arg_command_alone() {
    let (_, e) = parse_mcp_arg("local=my-server").unwrap();
    assert_eq!(e.command.as_deref(), Some("my-server"));
    assert_eq!(e.args, Some(vec![]));
}

#[test]
fn test_parse_mcp_arg_urls() {
    let (name, e) = parse_mcp_arg("remote=https://mcp.example.com/mcp").unwrap();
    assert_eq!(name, "remote");
    assert_eq!(e.url.as_deref(), Some("https://mcp.example.com/mcp"));
    assert!(e.command.is_none());
    assert!(e.args.is_none());
    let (_, e) = parse_mcp_arg("local=http://localhost:3000/mcp?a=b").unwrap();
    assert_eq!(e.url.as_deref(), Some("http://localhost:3000/mcp?a=b"));
}

#[test]
fn test_parse_mcp_arg_rejects_malformed() {
    let err = "': expected name=command or name=url";
    assert_eq!(parse_mcp_arg("no-equals").unwrap_err(), format!("invalid --mcp value 'no-equals{err}"));
    assert_eq!(parse_mcp_arg("=npx server").unwrap_err(), format!("invalid --mcp value '=npx server{err}"));
    assert_eq!(parse_mcp_arg("empty=").unwrap_err(), format!("invalid --mcp value 'empty={err}"));
    assert_eq!(parse_mcp_arg("blank=   ").unwrap_err(), format!("invalid --mcp value 'blank=   {err}"));
}

#[test]
fn test_merge_mcp_args_cli_wins() {
    let mut servers: NameMap<McpServerConfigEntry> = NameMap::new();
    servers.insert(
        s("filesystem"),
        McpServerConfigEntry { command: Some(s("fs-server")), args: None, env: Some(strings(&[("HOME", "/tmp")])), url: None },
    );
    servers.insert(
        s("keep"),
        McpServerConfigEntry { command: None, args: None, env: None, url: Some(s("https://keep.example.com")) },
    );
    let args = vec![s("filesystem=https://fs.example.com/mcp"), s("db=sqlite a.db"), s("db=sqlite b.db")];
    assert!(merge_mcp_args(&mut servers, &args).is_ok());
    assert_eq!(servers.len(), 3);
    let fs = servers.get("filesystem").unwrap();
    assert_eq!(fs.url.as_deref(), Some("https://fs.example.com/mcp"));
    assert!(fs.command.is_none() && fs.env.is_none());
    assert_eq!(servers.get("keep").unwrap().url.as_deref(), Some("https://keep.example.com"));
    let db = servers.get("db").unwrap();
    assert_eq!(db.args, Some(vec![s("b.db")]));
}

#[test]
fn test_merge_mcp_args_reports_first_bad_argument() {
    let mut servers: NameMap<McpServerConfigEntry> = NameMap::new();
    let args = vec![s("ok=server"), s("bad"), s("=worse")];
    assert_eq!(
        merge_mcp_args(&mut servers, &args),
        Err(s("invalid --mcp value 'bad': expected name=command or name=url"))
    );
    assert_eq!(servers.len(), 0);
}
