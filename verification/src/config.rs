//! Command-line and configuration-file inputs: spec arguments, `--auth`
//! arguments, frozen parameters and upstream credentials.
use vstd::prelude::*;
use crate::http::{deref_opt, AuthCredentials, AuthCredentialsMap};
use crate::namemap::NameMap;
use crate::text::{
    chars_of, contains_chars, contains_sub, find_char, first_index_of, owned, push_str, split,
    split_chars, str_eq, string_of, strip_prefix, strip_prefix_of, sub_chars, views,
};

verus! {

broadcast use vstd::seq_lib::group_seq_properties;

/// A spec input with an optional user-chosen name.
#[derive(Debug, Clone, PartialEq, Eq)]
pub struct SpecInput {
    pub name: Option<String>,
    pub source: String,
}

/// Auth entry of an API in a configuration file.
#[derive(Debug, Clone, PartialEq, Eq)]
pub enum ConfigAuth {
    /// A bearer token given in place.
    Direct(String),
    /// Basic authentication.
    Basic { auth_type: String, username: String, password: String },
    /// A bearer token read from an environment variable.
    EnvRef { auth_env: String },
}

/// An API of a configuration file.
#[derive(Debug)]
pub struct ConfigApiEntry {
    pub spec: String,
    pub auth: Option<ConfigAuth>,
    pub auth_env: Option<String>,
    pub frozen_params: Option<NameMap<String>>,
}

/// Output configuration for `file.save()` in scripts.
#[derive(Debug, Clone, PartialEq, Eq)]
pub struct OutputConfig {
    pub dir: Option<String>,
    pub max_bytes: Option<u64>,
    pub enabled: Option<bool>,
}

/// An upstream MCP server of a configuration file: a command to run, or a
/// URL to connect to.
#[derive(Debug)]
pub struct McpServerConfigEntry {
    pub command: Option<String>,
    pub args: Option<Vec<String>>,
    pub env: Option<NameMap<String>>,
    pub url: Option<String>,
}

/// A configuration file.
#[derive(Debug)]
pub struct CodeMcpConfig {
    pub apis: NameMap<ConfigApiEntry>,
    pub frozen_params: Option<NameMap<String>>,
    pub output: Option<OutputConfig>,
}

// ---------------------------------------------------------------------------
// Spec arguments
// ---------------------------------------------------------------------------

/// Where a spec argument splits into `name=source`: at its first `=`, unless
/// the text before it holds `://` (then the whole argument is a URL).
pub open spec fn name_split(s: Seq<char>) -> Option<int> {
    match first_index_of(s, '=') {
        Some(i) => if contains_sub(s.take(i), "://"@) {
            None
        } else {
            Some(i)
        },
        None => None,
    }
}

/// Parses `name=source` or plain `source`.
pub fn parse_spec_arg(arg: &str) -> (r: SpecInput)
    ensures
        match name_split(arg@) {
            Some(i) => r.name matches Some(n) && n@ == arg@.take(i) && r.source@ == arg@.skip(i + 1),
            None => r.name is None && r.source@ == arg@,
        },
{
    let cs = chars_of(arg);
    match find_char(cs.as_slice(), '=') {
        None => SpecInput { name: None, source: owned(arg) },
        Some(i) => {
            let before = sub_chars(cs.as_slice(), 0, i);
            let sep = chars_of("://");
            assert(before@ == arg@.take(i as int));
            if contains_chars(before.as_slice(), sep.as_slice()) {
                SpecInput { name: None, source: owned(arg) }
            } else {
                let n = cs.len();
                assert(i < n);
                let after = sub_chars(cs.as_slice(), i + 1, n);
                assert(after@ == arg@.skip(i + 1));
                SpecInput {
                    name: Some(string_of(before.as_slice())),
                    source: string_of(after.as_slice()),
                }
            }
        },
    }
}

/// The parsed spec arguments, one per argument.
pub fn spec_inputs_from_args(specs: &[String]) -> (r: Vec<SpecInput>)
    ensures
        r@.len() == specs@.len(),
        forall|i: int|
            0 <= i < r@.len() ==> match name_split(specs@[i]@) {
                Some(k) => (#[trigger] r@[i]).name matches Some(n) && n@ == specs@[i]@.take(k)
                    && r@[i].source@ == specs@[i]@.skip(k + 1),
                None => r@[i].name is None && r@[i].source@ == specs@[i]@,
            },
{
    let mut r: Vec<SpecInput> = Vec::new();
    let mut i: usize = 0;
    while i < specs.len()
        invariant
            i <= specs@.len(),
            r@.len() == i,
            forall|j: int|
                0 <= j < i ==> match name_split(specs@[j]@) {
                    Some(k) => (#[trigger] r@[j]).name matches Some(n) && n@ == specs@[j]@.take(k)
                        && r@[j].source@ == specs@[j]@.skip(k + 1),
                    None => r@[j].name is None && r@[j].source@ == specs@[j]@,
                },
        decreases specs@.len() - i,
    {
        r.push(parse_spec_arg(specs[i].as_str()));
        i = i + 1;
    }
    r
}

/// The APIs of a configuration file as spec inputs, named by their keys.
pub fn spec_inputs_from_config(config: &CodeMcpConfig) -> (r: Vec<SpecInput>)
    ensures
        r@.len() == config.apis.entry_seq().len(),
        forall|i: int|
            0 <= i < r@.len() ==> (#[trigger] r@[i]).name == Some(config.apis.entry_seq()[i].0)
                && r@[i].source == config.apis.entry_seq()[i].1.spec,
{
    let es = config.apis.entries();
    let mut r: Vec<SpecInput> = Vec::new();
    let mut i: usize = 0;
    while i < es.len()
        invariant
            i <= es@.len(),
            es@ == config.apis.entry_seq(),
            r@.len() == i,
            forall|j: int|
                0 <= j < i ==> (#[trigger] r@[j]).name == Some(es@[j].0) && r@[j].source
                    == es@[j].1.spec,
        decreases es@.len() - i,
    {
        r.push(SpecInput { name: Some(es[i].0.clone()), source: es[i].1.spec.clone() });
        i = i + 1;
    }
    r
}

/// Where the specs of a command come from.
#[derive(Debug, Clone, Copy, PartialEq, Eq)]
pub enum SpecSource {
    /// The configuration file given with `--config`.
    Config,
    /// `toolscript.toml` in the working directory.
    DefaultConfig,
    /// The positional arguments.
    Args,
}

/// Whether a command looks for `toolscript.toml` when given nothing, and
/// whether the file is there.
#[derive(Debug, Clone, Copy, PartialEq, Eq)]
pub enum Discovery {
    Off,
    Found,
    Absent,
}

/// Decides where the specs come from: `--config` excludes positional
/// specs; with neither, `run` falls back to `toolscript.toml`.
pub fn spec_source(has_specs: bool, config_given: bool, discovery: Discovery) -> (r: Result<
    SpecSource,
    String,
>)
    ensures
        config_given && has_specs ==> (r matches Err(m) && m@
            == "cannot use --config with positional spec arguments"@),
        config_given && !has_specs ==> r == Ok::<SpecSource, String>(SpecSource::Config),
        !config_given && has_specs ==> r == Ok::<SpecSource, String>(SpecSource::Args),
        !config_given && !has_specs && discovery == Discovery::Found ==> r == Ok::<
            SpecSource,
            String,
        >(SpecSource::DefaultConfig),
        !config_given && !has_specs && discovery == Discovery::Off ==> (r matches Err(m) && m@
            == "no specs provided. Pass spec paths/URLs as arguments or use --config"@),
        !config_given && !has_specs && discovery == Discovery::Absent ==> (r matches Err(m) && m@
            == "no specs provided. Pass spec paths/URLs, use --config, or create toolscript.toml"@),
{
    if config_given {
        if has_specs {
            return Err(owned("cannot use --config with positional spec arguments"));
        }
        return Ok(SpecSource::Config);
    }
    if has_specs {
        return Ok(SpecSource::Args);
    }
    match discovery {
        Discovery::Found => Ok(SpecSource::DefaultConfig),
        Discovery::Off => Err(
            owned("no specs provided. Pass spec paths/URLs as arguments or use --config"),
        ),
        Discovery::Absent => Err(
            owned("no specs provided. Pass spec paths/URLs, use --config, or create toolscript.toml"),
        ),
    }
}

// ---------------------------------------------------------------------------
// Auth arguments
// ---------------------------------------------------------------------------

/// The message for an empty `--auth` value.
pub open spec fn empty_auth_error() -> Seq<char> {
    "--auth value cannot be empty"@
}

/// The message for a malformed `--auth` value.
pub open spec fn auth_format_error(arg: Seq<char>) -> Seq<char> {
    "invalid --auth format '"@ + arg + "': expected NAME:ENV_VAR or ENV_VAR"@
}

/// Parses `name:ENV_VAR` or plain `ENV_VAR`, splitting at the first `:`;
/// neither side of a colon may be empty.
pub fn parse_auth_arg(arg: &str) -> (r: Result<(Option<String>, String), String>)
    ensures
        arg@.len() == 0 ==> (r matches Err(m) && m@ == empty_auth_error()),
        arg@.len() > 0 ==> match first_index_of(arg@, ':') {
            None => r matches Ok((None, v)) && v@ == arg@,
            Some(i) => if i == 0 || i + 1 == arg@.len() {
                r matches Err(m) && m@ == auth_format_error(arg@)
            } else {
                r matches Ok((Some(n), v)) && n@ == arg@.take(i) && v@ == arg@.skip(i + 1)
            },
        },
{
    let cs = chars_of(arg);
    if cs.len() == 0 {
        return Err(owned("--auth value cannot be empty"));
    }
    match find_char(cs.as_slice(), ':') {
        None => Ok((None, owned(arg))),
        Some(i) => {
            if i == 0 || i + 1 == cs.len() {
                let mut m = owned("invalid --auth format '");
                push_str(&mut m, arg);
                push_str(&mut m, "': expected NAME:ENV_VAR or ENV_VAR");
                return Err(m);
            }
            let name = sub_chars(cs.as_slice(), 0, i);
            let var = sub_chars(cs.as_slice(), i + 1, cs.len());
            Ok((Some(string_of(name.as_slice())), string_of(var.as_slice())))
        },
    }
}

/// The first occurrence of `c` in `a + [c] + b`, when `a` holds no `c`, is
/// right after `a`.
proof fn lemma_first_index_after(a: Seq<char>, c: char, b: Seq<char>)
    requires
        !a.contains(c),
    ensures
        first_index_of(a + seq![c] + b, c) == Some(a.len() as int),
{
    let s = a + seq![c] + b;
    assert(s[a.len() as int] == c);
    let k = choose|i: int| 0 <= i < s.len() && s[i] == c && forall|j: int| 0 <= j < i ==> s[j] != c;
    assert(k == a.len()) by {
        if k < a.len() {
            assert(s[k] == a[k]);
        } else if k > a.len() {
            assert(s[a.len() as int] == c);
        }
    }
}

/// A spec argument written as `name=source` reads back as that name and
/// source, for a name without `=` and without `://`.
pub proof fn law_spec_arg_round_trip(name: Seq<char>, source: Seq<char>)
    requires
        !name.contains('='),
        !contains_sub(name, "://"@),
    ensures
        name_split(name + seq!['='] + source) == Some(name.len() as int),
        (name + seq!['='] + source).take(name.len() as int) == name,
        (name + seq!['='] + source).skip(name.len() as int + 1) == source,
{
    let s = name + seq!['='] + source;
    lemma_first_index_after(name, '=', source);
    assert(s.take(name.len() as int) =~= name);
    assert(s.skip(name.len() as int + 1) =~= source);
}

/// An `--auth` value written as `name:VAR` reads back as that name and
/// variable, for a non-empty name without `:` and a non-empty variable.
pub proof fn law_auth_arg_round_trip(name: Seq<char>, var: Seq<char>)
    requires
        name.len() > 0,
        var.len() > 0,
        !name.contains(':'),
    ensures
        first_index_of(name + seq![':'] + var, ':') == Some(name.len() as int),
        (name + seq![':'] + var).take(name.len() as int) == name,
        (name + seq![':'] + var).skip(name.len() as int + 1) == var,
        name.len() + 1 < (name + seq![':'] + var).len(),
{
    let s = name + seq![':'] + var;
    lemma_first_index_after(name, ':', var);
    assert(s.take(name.len() as int) =~= name);
    assert(s.skip(name.len() as int + 1) =~= var);
}

// ---------------------------------------------------------------------------
// Frozen parameters
// ---------------------------------------------------------------------------

/// The map of an optional map; nothing is the empty map.
pub open spec fn opt_map(m: Option<NameMap<String>>) -> Map<Seq<char>, String> {
    match m {
        Some(x) => x@,
        None => Map::empty(),
    }
}

/// Merges global and per-API frozen parameters; per-API values win.
pub fn merge_frozen_params(global: Option<&NameMap<String>>, per_api: Option<&NameMap<String>>)
    -> (r: NameMap<String>)
    ensures
        r@ == opt_map(deref_opt(global)).union_prefer_right(opt_map(deref_opt(per_api))),
{
    let mut merged = match global {
        Some(g) => g.copy(),
        None => NameMap::new(),
    };
    assert(merged@ == opt_map(deref_opt(global)));
    match per_api {
        Some(p) => {
            merged.extend(p.copy());
        },
        None => {
            assert(merged@.union_prefer_right(Map::<Seq<char>, String>::empty()) =~= merged@);
        },
    }
    merged
}

/// The global frozen parameters of a configuration, and those of each API
/// that has some.
pub fn extract_frozen_params(config: Option<&CodeMcpConfig>) -> (r: (
    NameMap<String>,
    NameMap<NameMap<String>>,
))
    ensures
        match config {
            None => r.0@ == Map::<Seq<char>, String>::empty() && r.1@ == Map::<
                Seq<char>,
                NameMap<String>,
            >::empty(),
            Some(c) => {
                &&& r.0@ == opt_map(c.frozen_params)
                &&& forall|k: Seq<char>|
                    #[trigger] r.1@.dom().contains(k) <==> (c.apis@.dom().contains(k)
                        && c.apis@[k].frozen_params is Some)
                &&& forall|k: Seq<char>|
                    #[trigger] r.1@.dom().contains(k) ==> r.1@[k]@
                        == c.apis@[k].frozen_params->0@
            },
        },
{
    match config {
        None => (NameMap::new(), NameMap::new()),
        Some(c) => {
            let global = match &c.frozen_params {
                Some(g) => g.copy(),
                None => NameMap::new(),
            };
            let es = c.apis.entries();
            let mut per_api: NameMap<NameMap<String>> = NameMap::new();
            let mut i: usize = 0;
            while i < es.len()
                invariant
                    i <= es@.len(),
                    es@ == c.apis.entry_seq(),
                    crate::namemap::keys_distinct(es@),
                    c.apis@ == crate::namemap::map_of(es@),
                    forall|k: Seq<char>|
                        #[trigger] per_api@.dom().contains(k) <==> exists|j: int|
                            0 <= j < i && es@[j].0@ == k && es@[j].1.frozen_params is Some,
                    forall|j: int|
                        0 <= j < i && (#[trigger] es@[j]).1.frozen_params is Some ==> per_api@[es@[j].0@]@
                            == es@[j].1.frozen_params->0@,
                decreases es@.len() - i,
            {
                let (name, entry) = &es[i];
                if let Some(fp) = &entry.frozen_params {
                    per_api.insert(name.clone(), fp.copy());
                    proof {
                        assert forall|j: int|
                            0 <= j < i + 1 && (#[trigger] es@[j]).1.frozen_params is Some implies per_api@[es@[j].0@]@
                                == es@[j].1.frozen_params->0@ by {
                            if j < i {
                                assert(es@[j].0@ != es@[i as int].0@);
                            }
                        }
                    }
                }
                i = i + 1;
            }
            proof {
                assert forall|k: Seq<char>|
                    #[trigger] per_api@.dom().contains(k) <==> (c.apis@.dom().contains(k)
                        && c.apis@[k].frozen_params is Some) by {
                    crate::namemap::lemma_map_of_dom(es@, k);
                    if c.apis@.dom().contains(k) {
                        let j = choose|j: int| 0 <= j < es@.len() && es@[j].0@ == k;
                        crate::namemap::lemma_map_of_value(es@, j);
                    }
                    if per_api@.dom().contains(k) {
                        let j = choose|j: int|
                            0 <= j < es@.len() && es@[j].0@ == k && es@[j].1.frozen_params is Some;
                        crate::namemap::lemma_map_of_value(es@, j);
                    }
                }
                assert forall|k: Seq<char>| #[trigger] per_api@.dom().contains(k) implies per_api@[k]@
                    == c.apis@[k].frozen_params->0@ by {
                    let j = choose|j: int|
                        0 <= j < es@.len() && es@[j].0@ == k && es@[j].1.frozen_params is Some;
                    crate::namemap::lemma_map_of_value(es@, j);
                }
            }
            (global, per_api)
        },
    }
}

// ---------------------------------------------------------------------------
// Credentials
// ---------------------------------------------------------------------------

/// The `Debug` text of a list of strings, as the standard library writes it.
pub uninterp spec fn debug_text(names: Seq<Seq<char>>) -> Seq<char>;

/// The standard library's `Debug` formatting of a list of strings
/// (`format!("{:?}", names)`, such as `["a", "b"]`). Its result is named
/// by `debug_text` over the strings' text; the escaping rules are not
/// restated here.
#[verifier::external_body]
fn debug_list(names: &[String]) -> (r: String)
    ensures
        r@ == debug_text(views(names@)),
{
    format!("{:?}", names)
}

/// The message for an environment variable that is not set.
pub open spec fn env_unset_error(var: Seq<char>) -> Seq<char> {
    "environment variable '"@ + var + "' is not set"@
}

/// The message for an `--auth` name that names no API.
pub open spec fn unknown_auth_name_error(name: Seq<char>, api_names: Seq<Seq<char>>) -> Seq<char> {
    "auth name '"@ + name + "' does not match any known API (known: "@ + debug_text(api_names)
        + ")"@
}

/// The message for an unnamed `--auth` when there is not exactly one API.
pub open spec fn unnamed_auth_error(api_names: Seq<Seq<char>>) -> Seq<char> {
    "unnamed --auth requires exactly one spec, but found multiple APIs: "@ + debug_text(api_names)
}

/// One `--auth` argument: the variable must be set; a named argument must
/// name an API, an unnamed one needs exactly one API; the value becomes a
/// bearer token.
pub open spec fn cli_auth_step(
    acc: Result<Map<Seq<char>, AuthCredentials>, Seq<char>>,
    arg: (Option<String>, String),
    api_names: Seq<Seq<char>>,
    env: Map<Seq<char>, String>,
) -> Result<Map<Seq<char>, AuthCredentials>, Seq<char>> {
    match acc {
        Err(e) => Err(e),
        Ok(m) => if !env.dom().contains(arg.1@) {
            Err(env_unset_error(arg.1@))
        } else {
            match arg.0 {
                Some(n) => if !api_names.contains(n@) {
                    Err(unknown_auth_name_error(n@, api_names))
                } else {
                    Ok(m.insert(n@, AuthCredentials::BearerToken(env[arg.1@])))
                },
                None => if api_names.len() != 1 {
                    Err(unnamed_auth_error(api_names))
                } else {
                    Ok(m.insert(api_names[0], AuthCredentials::BearerToken(env[arg.1@])))
                },
            }
        },
    }
}

/// All `--auth` arguments in order.
pub open spec fn cli_auth(
    args: Seq<(Option<String>, String)>,
    api_names: Seq<Seq<char>>,
    env: Map<Seq<char>, String>,
) -> Result<Map<Seq<char>, AuthCredentials>, Seq<char>>
    decreases args.len(),
{
    if args.len() == 0 {
        Ok(Map::empty())
    } else {
        cli_auth_step(cli_auth(args.drop_last(), api_names, env), args.last(), api_names, env)
    }
}

proof fn lemma_cli_auth_error_persists(
    args: Seq<(Option<String>, String)>,
    api_names: Seq<Seq<char>>,
    env: Map<Seq<char>, String>,
    k: int,
)
    requires
        0 <= k <= args.len(),
        cli_auth(args.take(k), api_names, env) is Err,
    ensures
        cli_auth(args, api_names, env) == cli_auth(args.take(k), api_names, env),
    decreases args.len(),
{
    if k == args.len() {
        assert(args.take(k) =~= args);
    } else {
        assert(args.drop_last().take(k) =~= args.take(k));
        lemma_cli_auth_error_persists(args.drop_last(), api_names, env, k);
    }
}

fn names_contain(names: &[String], n: &str) -> (r: bool)
    ensures
        r == views(names@).contains(n@),
{
    let mut i: usize = 0;
    while i < names.len()
        invariant
            i <= names@.len(),
            forall|j: int| 0 <= j < i ==> names@[j]@ != n@,
        decreases names@.len() - i,
    {
        if str_eq(names[i].as_str(), n) {
            assert(views(names@)[i as int] == n@);
            return true;
        }
        i = i + 1;
    }
    proof {
        if views(names@).contains(n@) {
            let j = choose|j: int| 0 <= j < views(names@).len() && views(names@)[j] == n@;
            assert(names@[j]@ == n@);
        }
    }
    false
}

/// Builds the credentials of `--auth` arguments. `env` holds the values of
/// the environment variables that are set.
pub fn resolve_cli_auth(
    auth_args: &[(Option<String>, String)],
    api_names: &[String],
    env: &NameMap<String>,
) -> (r: Result<AuthCredentialsMap, String>)
    ensures
        match (r, cli_auth(auth_args@, views(api_names@), env@)) {
            (Ok(m), Ok(e)) => m@ == e,
            (Err(m), Err(e)) => m@ == e,
            _ => false,
        },
{
    let mut map: AuthCredentialsMap = NameMap::new();
    let mut i: usize = 0;
    proof {
        assert(auth_args@.take(0) =~= Seq::<(Option<String>, String)>::empty());
    }
    while i < auth_args.len()
        invariant
            i <= auth_args@.len(),
            cli_auth(auth_args@.take(i as int), views(api_names@), env@) == Ok::<
                Map<Seq<char>, AuthCredentials>,
                Seq<char>,
            >(map@),
        decreases auth_args@.len() - i,
    {
        proof {
            assert(auth_args@.take(i + 1).drop_last() =~= auth_args@.take(i as int));
            assert(auth_args@.take(i + 1).last() == auth_args@[i as int]);
        }
        let (name, var) = &auth_args[i];
        let token = match env.get(var.as_str()) {
            Some(t) => t.clone(),
            None => {
                let mut m = owned("environment variable '");
                push_str(&mut m, var.as_str());
                push_str(&mut m, "' is not set");
                proof {
                    lemma_cli_auth_error_persists(auth_args@, views(api_names@), env@, i + 1);
                }
                return Err(m);
            },
        };
        match name {
            Some(n) => {
                if !names_contain(api_names, n.as_str()) {
                    let mut m = owned("auth name '");
                    push_str(&mut m, n.as_str());
                    push_str(&mut m, "' does not match any known API (known: ");
                    let d = debug_list(api_names);
                    push_str(&mut m, d.as_str());
                    push_str(&mut m, ")");
                    proof {
                        lemma_cli_auth_error_persists(auth_args@, views(api_names@), env@, i + 1);
                    }
                    return Err(m);
                }
                map.insert(n.clone(), AuthCredentials::BearerToken(token));
            },
            None => {
                if api_names.len() != 1 {
                    let mut m = owned(
                        "unnamed --auth requires exactly one spec, but found multiple APIs: ",
                    );
                    let d = debug_list(api_names);
                    push_str(&mut m, d.as_str());
                    proof {
                        lemma_cli_auth_error_persists(auth_args@, views(api_names@), env@, i + 1);
                    }
                    return Err(m);
                }
                map.insert(api_names[0].clone(), AuthCredentials::BearerToken(token));
            },
        }
        i = i + 1;
    }
    proof {
        assert(auth_args@.take(auth_args@.len() as int) =~= auth_args@);
    }
    Ok(map)
}

/// The credentials one API of a configuration file declares: `auth_env`
/// first, else its `auth` entry; `None` when it declares none.
pub open spec fn config_entry_auth(name: Seq<char>, e: ConfigApiEntry, env: Map<Seq<char>, String>)
    -> Option<Result<AuthCredentials, Seq<char>>> {
    match e.auth_env {
        Some(v) => if env.dom().contains(v@) {
            Some(Ok(AuthCredentials::BearerToken(env[v@])))
        } else {
            Some(
                Err(
                    "environment variable '"@ + v@ + "' (from auth_env for '"@ + name
                        + "') is not set"@,
                ),
            )
        },
        None => match e.auth {
            None => None,
            Some(ConfigAuth::Direct(t)) => Some(Ok(AuthCredentials::BearerToken(t))),
            Some(ConfigAuth::Basic { auth_type, username, password }) => Some(
                Ok(AuthCredentials::Basic { username, password }),
            ),
            Some(ConfigAuth::EnvRef { auth_env }) => if env.dom().contains(auth_env@) {
                Some(Ok(AuthCredentials::BearerToken(env[auth_env@])))
            } else {
                Some(
                    Err(
                        "environment variable '"@ + auth_env@ + "' (from auth.auth_env for '"@
                            + name + "') is not set"@,
                    ),
                )
            },
        },
    }
}

/// The credentials of all APIs of a configuration file, in order.
pub open spec fn config_auth(entries: Seq<(String, ConfigApiEntry)>, env: Map<Seq<char>, String>)
    -> Result<Map<Seq<char>, AuthCredentials>, Seq<char>>
    decreases entries.len(),
{
    if entries.len() == 0 {
        Ok(Map::empty())
    } else {
        match config_auth(entries.drop_last(), env) {
            Err(e) => Err(e),
            Ok(m) => match config_entry_auth(entries.last().0@, entries.last().1, env) {
                None => Ok(m),
                Some(Ok(c)) => Ok(m.insert(entries.last().0@, c)),
                Some(Err(e)) => Err(e),
            },
        }
    }
}

proof fn lemma_config_auth_error_persists(
    entries: Seq<(String, ConfigApiEntry)>,
    env: Map<Seq<char>, String>,
    k: int,
)
    requires
        0 <= k <= entries.len(),
        config_auth(entries.take(k), env) is Err,
    ensures
        config_auth(entries, env) == config_auth(entries.take(k), env),
    decreases entries.len(),
{
    if k == entries.len() {
        assert(entries.take(k) =~= entries);
    } else {
        assert(entries.drop_last().take(k) =~= entries.take(k));
        lemma_config_auth_error_persists(entries.drop_last(), env, k);
    }
}

fn env_error(var: &str, middle: &str, name: &str) -> (r: String)
    ensures
        r@ == "environment variable '"@ + var@ + middle@ + name@ + "') is not set"@,
{
    let mut m = owned("environment variable '");
    push_str(&mut m, var);
    push_str(&mut m, middle);
    push_str(&mut m, name);
    push_str(&mut m, "') is not set");
    m
}

/// Builds the credentials a configuration file declares. `env` holds the
/// values of the environment variables that are set.
pub fn resolve_config_auth(config: &CodeMcpConfig, env: &NameMap<String>) -> (r: Result<
    AuthCredentialsMap,
    String,
>)
    ensures
        match (r, config_auth(config.apis.entry_seq(), env@)) {
            (Ok(m), Ok(e)) => m@ == e,
            (Err(m), Err(e)) => m@ == e,
            _ => false,
        },
{
    let es = config.apis.entries();
    let mut map: AuthCredentialsMap = NameMap::new();
    let mut i: usize = 0;
    proof {
        assert(es@.take(0) =~= Seq::<(String, ConfigApiEntry)>::empty());
    }
    while i < es.len()
        invariant
            i <= es@.len(),
            es@ == config.apis.entry_seq(),
            config_auth(es@.take(i as int), env@) == Ok::<
                Map<Seq<char>, AuthCredentials>,
                Seq<char>,
            >(map@),
        decreases es@.len() - i,
    {
        proof {
            assert(es@.take(i + 1).drop_last() =~= es@.take(i as int));
            assert(es@.take(i + 1).last() == es@[i as int]);
        }
        let (name, entry) = &es[i];
        if let Some(var) = &entry.auth_env {
            match env.get(var.as_str()) {
                Some(t) => {
                    map.insert(name.clone(), AuthCredentials::BearerToken(t.clone()));
                },
                None => {
                    proof {
                        reveal_strlit("' (from auth_env for '");
                    }
                    let m = env_error(var.as_str(), "' (from auth_env for '", name.as_str());
                    proof {
                        lemma_config_auth_error_persists(es@, env@, i + 1);
                    }
                    return Err(m);
                },
            }
        } else {
            match &entry.auth {
                None => {},
                Some(ConfigAuth::Direct(t)) => {
                    map.insert(name.clone(), AuthCredentials::BearerToken(t.clone()));
                },
                Some(ConfigAuth::Basic { auth_type: _, username, password }) => {
                    map.insert(
                        name.clone(),
                        AuthCredentials::Basic { username: username.clone(), password: password.clone() },
                    );
                },
                Some(ConfigAuth::EnvRef { auth_env }) => {
                    match env.get(auth_env.as_str()) {
                        Some(t) => {
                            map.insert(name.clone(), AuthCredentials::BearerToken(t.clone()));
                        },
                        None => {
                            proof {
                                reveal_strlit("' (from auth.auth_env for '");
                            }
                            let m = env_error(
                                auth_env.as_str(),
                                "' (from auth.auth_env for '",
                                name.as_str(),
                            );
                            proof {
                                lemma_config_auth_error_persists(es@, env@, i + 1);
                            }
                            return Err(m);
                        },
                    }
                },
            }
        }
        i = i + 1;
    }
    proof {
        assert(es@.take(es@.len() as int) =~= es@);
    }
    Ok(map)
}

// ---------------------------------------------------------------------------
// Output of `file.save`
// ---------------------------------------------------------------------------

/// Whether the configuration switches file output on or off explicitly.
pub open spec fn output_enabled(out: Option<OutputConfig>) -> Option<bool> {
    match out {
        Some(o) => o.enabled,
        None => None,
    }
}

/// Where scripts save files and how much, if they may: hosted servers save
/// nothing unless the command line names a directory or the configuration
/// enables output; an explicit `enabled = false` turns output off unless the
/// command line names a directory. The directory comes from the command line,
/// else the configuration, else `./toolscript-output`; the budget from the
/// configuration, else 50 MiB.
pub open spec fn output_outcome(cli_dir: Option<Seq<char>>, out: Option<OutputConfig>, hosted: bool)
    -> Option<(Seq<char>, u64)> {
    if hosted && cli_dir is None && output_enabled(out) != Some(true) {
        None
    } else if cli_dir is None && output_enabled(out) == Some(false) {
        None
    } else {
        Some(
            (
                match cli_dir {
                    Some(d) => d,
                    None => match out {
                        Some(o) => match o.dir {
                            Some(d) => d@,
                            None => "./toolscript-output"@,
                        },
                        None => "./toolscript-output"@,
                    },
                },
                match out {
                    Some(o) => match o.max_bytes {
                        Some(m) => m,
                        None => 52428800u64,
                    },
                    None => 52428800u64,
                },
            ),
        )
    }
}

/// The output configuration of a configuration file, if any.
pub open spec fn config_output(config: Option<&CodeMcpConfig>) -> Option<OutputConfig> {
    match config {
        Some(c) => c.output,
        None => None,
    }
}

/// Decides where scripts save files (see `output_outcome`).
pub fn resolve_output_config(cli_output_dir: Option<&str>, config: Option<&CodeMcpConfig>, is_hosted: bool)
    -> (r: Option<crate::executor::OutputConfig>)
    ensures
        match output_outcome(
            match cli_output_dir {
                Some(d) => Some(d@),
                None => None,
            },
            config_output(config),
            is_hosted,
        ) {
            Some((d, m)) => r matches Some(o) && o.dir@ == d && o.max_bytes == m,
            None => r is None,
        },
{
    let out: Option<&OutputConfig> = match config {
        Some(c) => c.output.as_ref(),
        None => None,
    };
    let enabled: Option<bool> = match out {
        Some(o) => o.enabled,
        None => None,
    };
    if is_hosted && cli_output_dir.is_none() {
        let explicitly = match enabled {
            Some(b) => b,
            None => false,
        };
        if !explicitly {
            return None;
        }
    }
    if cli_output_dir.is_none() && enabled == Some(false) {
        return None;
    }
    let dir = match cli_output_dir {
        Some(d) => owned(d),
        None => match out {
            Some(o) => match &o.dir {
                Some(d) => d.clone(),
                None => owned("./toolscript-output"),
            },
            None => owned("./toolscript-output"),
        },
    };
    let max_bytes: u64 = match out {
        Some(o) => match o.max_bytes {
            Some(m) => m,
            None => 52428800,
        },
        None => 52428800,
    };
    Some(crate::executor::OutputConfig { dir, max_bytes })
}

/// The APIs whose spec declares authentication but that have no
/// credentials, in manifest order.
pub fn missing_auth(apis: &Vec<crate::manifest::ApiConfig>, auth: &AuthCredentialsMap) -> (r: Vec<String>)
    ensures
        views(r@) == apis@.filter(|a: crate::manifest::ApiConfig| a.auth is Some && !auth@.dom().contains(a.name@)).map_values(|a: crate::manifest::ApiConfig| a.name@),
{
    let mut r: Vec<String> = Vec::new();
    let mut i: usize = 0;
    let ghost pred = |a: crate::manifest::ApiConfig| a.auth is Some && !auth@.dom().contains(a.name@);
    let ghost nm = |a: crate::manifest::ApiConfig| a.name@;
    proof {
        assert(apis@.take(0).filter(pred) =~= Seq::<crate::manifest::ApiConfig>::empty());
    }
    while i < apis.len()
        invariant
            i <= apis@.len(),
            pred == (|a: crate::manifest::ApiConfig| a.auth is Some && !auth@.dom().contains(a.name@)),
            nm == (|a: crate::manifest::ApiConfig| a.name@),
            views(r@) == apis@.take(i as int).filter(pred).map_values(nm),
        decreases apis@.len() - i,
    {
        proof {
            auth.lemma_view();
            assert(apis@.take(i + 1).drop_last() =~= apis@.take(i as int));
            reveal(Seq::filter);
        }
        let a = &apis[i];
        if a.auth.is_some() && !auth.contains_key(a.name.as_str()) {
            let ghost before = r@;
            r.push(a.name.clone());
            assert(views(r@) =~= views(before).push(a.name@));
            assert(apis@.take(i + 1).filter(pred) == apis@.take(i as int).filter(pred).push(apis@[i as int]));
            assert(apis@.take(i + 1).filter(pred).map_values(nm) =~= apis@.take(i as int).filter(pred).map_values(nm).push(a.name@));
        } else {
            assert(apis@.take(i + 1).filter(pred) == apis@.take(i as int).filter(pred));
        }
        i = i + 1;
    }
    assert(apis@.take(apis@.len() as int) =~= apis@);
    r
}

/// How the server talks to clients.
#[derive(Debug, Clone, Copy, PartialEq, Eq)]
pub enum Transport {
    /// JSON-RPC over standard input and output.
    Stdio,
    /// Streamable HTTP (`sse` or `http`).
    Http,
}

/// The message for a transport name that is not known.
pub open spec fn unknown_transport(name: Seq<char>) -> Seq<char> {
    "Unknown transport: '"@ + name + "'. Use 'stdio' or 'sse'."@
}

/// Chooses the transport named on the command line.
pub fn parse_transport(name: &str) -> (r: Result<Transport, String>)
    ensures
        name@ == "stdio"@ ==> r == Ok::<Transport, String>(Transport::Stdio),
        (name@ == "sse"@ || name@ == "http"@) ==> r == Ok::<Transport, String>(Transport::Http),
        !(name@ == "stdio"@ || name@ == "sse"@ || name@ == "http"@) ==> (r matches Err(m) && m@
            == unknown_transport(name@)),
{
    proof {
        reveal_strlit("stdio");
        reveal_strlit("sse");
        reveal_strlit("http");
        assert("stdio"@[1] != "sse"@[1]);
        assert("stdio"@[0] != "http"@[0]);
    }
    if str_eq(name, "stdio") {
        Ok(Transport::Stdio)
    } else if str_eq(name, "sse") || str_eq(name, "http") {
        Ok(Transport::Http)
    } else {
        let mut m = owned("Unknown transport: '");
        push_str(&mut m, name);
        push_str(&mut m, "'. Use 'stdio' or 'sse'.");
        Err(m)
    }
}


// ---------------------------------------------------------------------------
// Upstream MCP server arguments
// ---------------------------------------------------------------------------

/// The non-empty pieces among `parts`, in order.
pub open spec fn nonempty_pieces(parts: Seq<Seq<char>>) -> Seq<Seq<char>>
    decreases parts.len(),
{
    if parts.len() == 0 {
        Seq::empty()
    } else if parts.last().len() == 0 {
        nonempty_pieces(parts.drop_last())
    } else {
        nonempty_pieces(parts.drop_last()).push(parts.last())
    }
}

/// The words of a command line: its pieces between spaces, empty ones
/// dropped.
pub open spec fn words(s: Seq<char>) -> Seq<Seq<char>> {
    nonempty_pieces(split(s, ' '))
}

/// An `--mcp` value that names a server by its `http://` or `https://` URL.
pub open spec fn is_server_url(v: Seq<char>) -> bool {
    strip_prefix(v, "http://"@) is Some || strip_prefix(v, "https://"@) is Some
}

/// The message for an `--mcp` argument that names no server.
pub open spec fn mcp_arg_error(arg: Seq<char>) -> Seq<char> {
    "invalid --mcp value '"@ + arg + "': expected name=command or name=url"@
}

/// The entry an `--mcp` value stands for: a URL, or a command followed by
/// its arguments.
pub open spec fn entry_for_value(value: Seq<char>, e: McpServerConfigEntry) -> bool {
    &&& e.env is None
    &&& if is_server_url(value) {
        &&& e.url matches Some(u) && u@ == value
        &&& e.command is None
        &&& e.args is None
    } else {
        &&& e.command matches Some(c) && c@ == words(value)[0]
        &&& e.args matches Some(a) && views(a@) == words(value).skip(1)
        &&& e.url is None
    }
}

/// An `--mcp` argument names a server: it holds `=`, a non-empty name before
/// the first one, and after it a URL or at least one word.
pub open spec fn mcp_arg_valid(arg: Seq<char>) -> bool {
    match first_index_of(arg, '=') {
        Some(i) => i > 0 && (is_server_url(arg.skip(i + 1)) || words(arg.skip(i + 1)).len() > 0),
        None => false,
    }
}

/// The words of a command line, as strings.
fn words_of(s: &[char]) -> (r: Vec<String>)
    ensures
        views(r@) == words(s@),
{
    let parts = split_chars(s, ' ');
    let ghost all = split(s@, ' ');
    let mut r: Vec<String> = Vec::new();
    let mut i: usize = 0;
    while i < parts.len()
        invariant
            i <= parts@.len(),
            parts@.len() == all.len(),
            all == split(s@, ' '),
            forall|k: int| 0 <= k < parts@.len() ==> #[trigger] parts@[k]@ == all[k],
            views(r@) == nonempty_pieces(all.take(i as int)),
        decreases parts@.len() - i,
    {
        proof {
            assert(all.take(i + 1).drop_last() =~= all.take(i as int));
            assert(all.take(i + 1).last() == all[i as int]);
        }
        if parts[i].len() > 0 {
            let w = string_of(parts[i].as_slice());
            let ghost before = r@;
            r.push(w);
            proof {
                assert(views(r@) =~= views(before).push(w@));
            }
        }
        i = i + 1;
    }
    assert(all.take(parts@.len() as int) =~= all);
    r
}

/// Parses an `--mcp` argument, `name=command args...` or `name=url`: a value
/// that starts with `http://` or `https://` is a URL; otherwise its first
/// word is the command and the others its arguments.
pub fn parse_mcp_arg(arg: &str) -> (r: Result<(String, McpServerConfigEntry), String>)
    ensures
        mcp_arg_valid(arg@) ==> (r matches Ok((name, e)) && name@ == arg@.take(
            first_index_of(arg@, '=')->0,
        ) && entry_for_value(arg@.skip(first_index_of(arg@, '=')->0 + 1), e)),
        !mcp_arg_valid(arg@) ==> (r matches Err(m) && m@ == mcp_arg_error(arg@)),
{
    let cs = chars_of(arg);
    let mut err = owned("invalid --mcp value '");
    push_str(&mut err, arg);
    push_str(&mut err, "': expected name=command or name=url");
    match find_char(cs.as_slice(), '=') {
        None => Err(err),
        Some(i) => {
            if i == 0 {
                return Err(err);
            }
            let n = cs.len();
            let name = string_of(sub_chars(cs.as_slice(), 0, i).as_slice());
            let value_chars = sub_chars(cs.as_slice(), i + 1, n);
            let value = string_of(value_chars.as_slice());
            assert(value@ =~= arg@.skip(i + 1));
            let http = strip_prefix_of(value.as_str(), "http://");
            let https = strip_prefix_of(value.as_str(), "https://");
            if http.is_some() || https.is_some() {
                let entry = McpServerConfigEntry { command: None, args: None, env: None, url: Some(value) };
                return Ok((name, entry));
            }
            let mut ws = words_of(value_chars.as_slice());
            if ws.len() == 0 {
                return Err(err);
            }
            let command = ws.remove(0);
            proof {
                assert(views(ws@) =~= words(arg@.skip(i + 1)).skip(1));
            }
            let entry = McpServerConfigEntry { command: Some(command), args: Some(ws), env: None, url: None };
            Ok((name, entry))
        },
    }
}

/// The server name of a valid `--mcp` argument.
pub open spec fn mcp_arg_name(arg: Seq<char>) -> Seq<char> {
    arg.take(first_index_of(arg, '=')->0)
}

/// The value of a valid `--mcp` argument.
pub open spec fn mcp_arg_value(arg: Seq<char>) -> Seq<char> {
    arg.skip(first_index_of(arg, '=')->0 + 1)
}

/// No argument after the `i`-th among the first `n` names the same server.
pub open spec fn last_with_name(args: Seq<Seq<char>>, i: int, n: int) -> bool {
    forall|j: int| i < j < n ==> mcp_arg_name(#[trigger] args[j]) != mcp_arg_name(args[i])
}

/// The first invalid argument, if any.
pub open spec fn first_invalid_mcp_arg(args: Seq<Seq<char>>) -> Option<int>
    decreases args.len(),
{
    if args.len() == 0 {
        None
    } else {
        match first_invalid_mcp_arg(args.drop_last()) {
            Some(i) => Some(i),
            None => if mcp_arg_valid(args.last()) {
                None
            } else {
                Some(args.len() - 1)
            },
        }
    }
}

proof fn lemma_first_invalid(args: Seq<Seq<char>>)
    ensures
        first_invalid_mcp_arg(args) is None <==> forall|i: int|
            0 <= i < args.len() ==> mcp_arg_valid(#[trigger] args[i]),
        first_invalid_mcp_arg(args) matches Some(k) ==> 0 <= k < args.len() && !mcp_arg_valid(
            args[k],
        ),
    decreases args.len(),
{
    if args.len() > 0 {
        lemma_first_invalid(args.drop_last());
        assert forall|i: int| 0 <= i < args.len() - 1 implies args.drop_last()[i] == args[i] by {}
    }
}

/// Adds the servers of `--mcp` arguments to those of the configuration
/// file. An argument replaces a file entry of the same name, and a later
/// argument an earlier one. If an argument names no server, nothing is
/// added and the first such argument is reported.
pub fn merge_mcp_args(servers: &mut NameMap<McpServerConfigEntry>, args: &[String]) -> (r: Result<(), String>)
    ensures
        match first_invalid_mcp_arg(views(args@)) {
            Some(k) => r matches Err(m) && m@ == mcp_arg_error(args@[k]@) && final(servers)@ == old(
                servers,
            )@,
            None => r is Ok && {
                &&& final(servers)@.dom() =~= old(servers)@.dom().union(
                    Set::new(|k: Seq<char>| exists|i: int| 0 <= i < args@.len() && mcp_arg_name(args@[i]@) == k),
                )
                &&& forall|i: int|
                    0 <= i < args@.len() && last_with_name(views(args@), i, args@.len() as int)
                        ==> entry_for_value(
                        mcp_arg_value(args@[i]@),
                        #[trigger] final(servers)@[mcp_arg_name(args@[i]@)],
                    )
                &&& forall|k: Seq<char>|
                    #![trigger final(servers)@[k]]
                    old(servers)@.dom().contains(k) && (forall|i: int|
                        0 <= i < args@.len() ==> mcp_arg_name(#[trigger] args@[i]@) != k)
                        ==> final(servers)@[k] == old(servers)@[k]
            },
        },
{
    let ghost names = views(args@);
    let mut parsed: Vec<(String, McpServerConfigEntry)> = Vec::new();
    let mut i: usize = 0;
    while i < args.len()
        invariant
            i <= args@.len(),
            names == views(args@),
            first_invalid_mcp_arg(names.take(i as int)) is None,
            parsed@.len() == i,
            forall|k: int|
                0 <= k < i ==> (#[trigger] parsed@[k]).0@ == mcp_arg_name(names[k])
                    && entry_for_value(mcp_arg_value(names[k]), parsed@[k].1),
        decreases args@.len() - i,
    {
        proof {
            assert(names.take(i + 1).drop_last() =~= names.take(i as int));
        }
        match parse_mcp_arg(args[i].as_str()) {
            Ok(p) => {
                proof {
                    if !mcp_arg_valid(args@[i as int]@) {
                        assert(false);
                    }
                }
                parsed.push(p);
            },
            Err(m) => {
                proof {
                    assert(first_invalid_mcp_arg(names.take(i + 1)) == Some(i as int));
                    lemma_first_invalid_prefix(names, i as int + 1);
                }
                return Err(m);
            },
        }
        i = i + 1;
    }
    proof {
        assert(names.take(args@.len() as int) =~= names);
        lemma_first_invalid(names);
    }
    let mut cli: NameMap<McpServerConfigEntry> = NameMap::new();
    let ghost n = args@.len() as int;
    let mut rest = parsed;
    let ghost all = rest@;
    let ghost mut j: int = 0;
    proof {
        assert(rest@ =~= all.skip(0));
    }
    while rest.len() > 0
        invariant
            0 <= j <= n,
            all.len() == n,
            rest@ == all.skip(j),
            names == views(args@),
            n == args@.len(),
            forall|k: int|
                0 <= k < n ==> (#[trigger] all[k]).0@ == mcp_arg_name(names[k]) && entry_for_value(
                    mcp_arg_value(names[k]),
                    all[k].1,
                ),
            cli@.dom() =~= Set::new(|k: Seq<char>| exists|i: int| 0 <= i < j && mcp_arg_name(names[i]) == k),
            forall|i: int|
                0 <= i < j && last_with_name(names, i, j) ==> entry_for_value(
                    mcp_arg_value(names[i]),
                    #[trigger] cli@[mcp_arg_name(names[i])],
                ),
        decreases rest@.len(),
    {
        let (name, entry) = rest.remove(0);
        proof {
            assert(all[j] == (name, entry));
        }
        let ghost before = cli@;
        cli.insert(name, entry);
        proof {
            assert forall|i: int|
                0 <= i < j + 1 && last_with_name(names, i, j + 1) implies entry_for_value(
                mcp_arg_value(names[i]),
                #[trigger] cli@[mcp_arg_name(names[i])],
            ) by {
                if i < j {
                    assert(mcp_arg_name(names[j]) != mcp_arg_name(names[i]));
                    assert(last_with_name(names, i, j));
                }
            }
            assert(cli@.dom() =~= Set::new(
                |k: Seq<char>| exists|i: int| 0 <= i < j + 1 && mcp_arg_name(names[i]) == k,
            )) by {
                assert forall|k: Seq<char>| cli@.dom().contains(k) implies exists|i: int|
                    0 <= i < j + 1 && mcp_arg_name(names[i]) == k by {
                    if k == mcp_arg_name(names[j]) {
                        assert(0 <= j < j + 1 && mcp_arg_name(names[j]) == k);
                    }
                }
            }
            assert(rest@ =~= all.skip(j + 1));
            j = j + 1;
        }
    }
    proof {
        assert(j == n);
        assert forall|i: int| 0 <= i < n implies mcp_arg_name(#[trigger] args@[i]@) == mcp_arg_name(names[i]) by {}
    }
    servers.extend(cli);
    Ok(())
}

/// An `--mcp` argument written as `name=url` names that server by that URL,
/// for a non-empty name without `=` and a URL starting with `http://` or
/// `https://`.
pub proof fn law_mcp_url_arg_round_trip(name: Seq<char>, url: Seq<char>)
    requires
        name.len() > 0,
        !name.contains('='),
        is_server_url(url),
    ensures
        mcp_arg_valid(name + seq!['='] + url),
        mcp_arg_name(name + seq!['='] + url) == name,
        mcp_arg_value(name + seq!['='] + url) == url,
{
    let s = name + seq!['='] + url;
    lemma_first_index_after(name, '=', url);
    assert(s.take(name.len() as int) =~= name);
    assert(s.skip(name.len() as int + 1) =~= url);
}

proof fn lemma_first_invalid_prefix(args: Seq<Seq<char>>, n: int)
    requires
        0 <= n <= args.len(),
        first_invalid_mcp_arg(args.take(n)) is Some,
    ensures
        first_invalid_mcp_arg(args) == first_invalid_mcp_arg(args.take(n)),
    decreases args.len() - n,
{
    if n < args.len() {
        assert(args.take(n + 1).drop_last() =~= args.take(n));
        lemma_first_invalid_prefix(args, n + 1);
    } else {
        assert(args.take(n) =~= args);
    }
}

} // verus!
