//! Browsable documentation resources under `sdk://`: the list of resources
//! and what reading one gives.
use vstd::prelude::*;
use crate::annotations::{
    function_annotation, mcp_tool_annotation, render_function_annotation,
    render_mcp_tool_annotation, render_schema_annotation, schema_annotation,
};
use crate::builtins::{builtin_functions, BuiltinFunction, LUAU_DESCRIPTION};
use crate::manifest::{ApiConfig, FunctionDef, Manifest, McpServerEntry, McpToolDef, SchemaDef};
use crate::namemap::NameMap;
use crate::text::{
    chars_of, decimal, find_char, first_index_of, owned, push_chars, push_decimal, push_str, str_eq,
    string_of, sub_chars,
};
use crate::tools::{function_count, offered_builtins, texts};

verus! {

broadcast use vstd::seq_lib::group_seq_properties;

/// A documentation resource (all of them are plain text).
#[derive(Debug, Clone, PartialEq, Eq)]
pub struct ResourceInfo {
    pub uri: String,
    pub name: String,
    pub title: Option<String>,
    pub description: Option<String>,
}

/// A resource as text.
pub struct Res {
    pub uri: Seq<char>,
    pub name: Seq<char>,
    pub title: Option<Seq<char>>,
    pub description: Option<Seq<char>>,
}

/// The text of an optional string.
pub open spec fn opt_view(o: Option<String>) -> Option<Seq<char>> {
    match o {
        Some(s) => Some(s@),
        None => None,
    }
}

impl View for ResourceInfo {
    type V = Res;

    open spec fn view(&self) -> Res {
        Res {
            uri: self.uri@,
            name: self.name@,
            title: opt_view(self.title),
            description: opt_view(self.description),
        }
    }
}

/// The resources as text.
pub open spec fn res_views(v: Seq<ResourceInfo>) -> Seq<Res> {
    v.map_values(|r: ResourceInfo| r@)
}

/// The overview, function listing and schema listing of an API.
pub open spec fn api_listing_resources(a: ApiConfig) -> Seq<Res> {
    let n = a.name@;
    seq![
        Res {
            uri: "sdk://"@ + n + "/overview"@,
            name: n + " Overview"@,
            title: Some(n + " API Overview"@),
            description: opt_view(a.description),
        },
        Res {
            uri: "sdk://"@ + n + "/functions"@,
            name: n + " Functions"@,
            title: Some("All "@ + n + " functions"@),
            description: Some("All function signatures for the "@ + n + " API"@),
        },
        Res {
            uri: "sdk://"@ + n + "/schemas"@,
            name: n + " Schemas"@,
            title: Some("All "@ + n + " schemas"@),
            description: Some("All schema definitions for the "@ + n + " API"@),
        },
    ]
}

/// The resource of one function of an API.
pub open spec fn function_resource(api: Seq<char>, f: FunctionDef) -> Res {
    Res {
        uri: "sdk://"@ + api + "/functions/"@ + f.name@,
        name: f.name@,
        title: opt_view(f.summary),
        description: opt_view(f.summary),
    }
}

/// The resource of one schema under an API.
pub open spec fn schema_resource(api: Seq<char>, s: SchemaDef) -> Res {
    Res {
        uri: "sdk://"@ + api + "/schemas/"@ + s.name@,
        name: s.name@,
        title: Some(s.name@),
        description: opt_view(s.description),
    }
}

/// All resources of one API: its listings, its functions, and every schema.
pub open spec fn api_resources(a: ApiConfig, fs: Seq<FunctionDef>, ss: Seq<SchemaDef>) -> Seq<Res> {
    api_listing_resources(a) + fs.filter(|f: FunctionDef| f.api@ == a.name@).map_values(
        |f: FunctionDef| function_resource(a.name@, f),
    ) + ss.map_values(|s: SchemaDef| schema_resource(a.name@, s))
}

/// The resources of all APIs, in order.
pub open spec fn all_api_resources(apis: Seq<ApiConfig>, fs: Seq<FunctionDef>, ss: Seq<SchemaDef>)
    -> Seq<Res>
    decreases apis.len(),
{
    if apis.len() == 0 {
        Seq::empty()
    } else {
        all_api_resources(apis.drop_last(), fs, ss) + api_resources(apis.last(), fs, ss)
    }
}

/// The overview and tool listing of an upstream server.
pub open spec fn server_resources(s: McpServerEntry) -> Seq<Res> {
    let n = s.name@;
    seq![
        Res {
            uri: "sdk://"@ + n + "/overview"@,
            name: n + " Overview"@,
            title: Some(n + " MCP Server Overview"@),
            description: opt_view(s.description),
        },
        Res {
            uri: "sdk://"@ + n + "/functions"@,
            name: n + " Tools"@,
            title: Some("All "@ + n + " tools"@),
            description: Some("All tool signatures for the "@ + n + " MCP server"@),
        },
    ]
}

/// The resources of all upstream servers, in order.
pub open spec fn all_server_resources(servers: Seq<McpServerEntry>) -> Seq<Res>
    decreases servers.len(),
{
    if servers.len() == 0 {
        Seq::empty()
    } else {
        all_server_resources(servers.drop_last()) + server_resources(servers.last())
    }
}

/// The resources of the built-in globals offered.
pub open spec fn luau_resources(io_enabled: bool) -> Seq<Res> {
    seq![
        Res {
            uri: "sdk://luau/overview"@,
            name: "Luau Overview"@,
            title: Some("Built-in Luau Runtime"@),
            description: Some(LUAU_DESCRIPTION@),
        },
        Res {
            uri: "sdk://luau/functions"@,
            name: "Luau Functions"@,
            title: Some("Built-in Luau functions"@),
            description: Some("All built-in function signatures"@),
        },
    ] + offered_builtins(io_enabled).map_values(
        |b: BuiltinFunction| Res {
            uri: "sdk://luau/functions/"@ + b.name@,
            name: b.name@,
            title: Some(b.summary@),
            description: Some(b.summary@),
        },
    )
}

/// Every resource: those of the APIs, of the upstream servers, and of the
/// built-in globals.
pub open spec fn resource_list(m: Manifest, io_enabled: bool) -> Seq<Res> {
    all_api_resources(m.apis@, m.functions@, m.schemas@) + all_server_resources(m.mcp_servers@)
        + luau_resources(io_enabled)
}

fn cat2(a: &str, b: &str) -> (r: String)
    ensures
        r@ == a@ + b@,
{
    let mut r = owned(a);
    push_str(&mut r, b);
    r
}

fn cat3(a: &str, b: &str, c: &str) -> (r: String)
    ensures
        r@ == a@ + b@ + c@,
{
    let mut r = owned(a);
    push_str(&mut r, b);
    push_str(&mut r, c);
    r
}

fn copy_opt(o: &Option<String>) -> (r: Option<String>)
    ensures
        opt_view(r) == opt_view(*o),
{
    match o {
        Some(s) => Some(s.clone()),
        None => None,
    }
}

fn push_res(v: &mut Vec<ResourceInfo>, uri: String, name: String, title: Option<String>, description: Option<String>)
    ensures
        res_views(final(v)@) == res_views(old(v)@).push(
            Res { uri: uri@, name: name@, title: opt_view(title), description: opt_view(description) },
        ),
{
    let ghost before = res_views(v@);
    v.push(ResourceInfo { uri, name, title, description });
    assert(res_views(v@) =~= before.push(v@.last()@));
}

fn push_api_resources(v: &mut Vec<ResourceInfo>, a: &ApiConfig, fs: &Vec<FunctionDef>, ss: &Vec<SchemaDef>)
    ensures
        res_views(final(v)@) == res_views(old(v)@) + api_resources(*a, fs@, ss@),
{
    let ghost start = res_views(v@);
    let n = a.name.as_str();
    push_res(v, cat3("sdk://", n, "/overview"), cat2(n, " Overview"), Some(cat2(n, " API Overview")), copy_opt(&a.description));
    push_res(v, cat3("sdk://", n, "/functions"), cat2(n, " Functions"), Some(cat3("All ", n, " functions")), Some(cat3("All function signatures for the ", n, " API")));
    push_res(v, cat3("sdk://", n, "/schemas"), cat2(n, " Schemas"), Some(cat3("All ", n, " schemas")), Some(cat3("All schema definitions for the ", n, " API")));
    assert(res_views(v@) =~= start + api_listing_resources(*a));
    let ghost head = res_views(v@);
    let ghost pred = |f: FunctionDef| f.api@ == a.name@;
    let ghost mk = |f: FunctionDef| function_resource(a.name@, f);
    let mut i: usize = 0;
    proof {
        assert(fs@.take(0).filter(pred) =~= Seq::<FunctionDef>::empty());
        assert(res_views(v@) =~= head + fs@.take(0).filter(pred).map_values(mk));
    }
    while i < fs.len()
        invariant
            i <= fs@.len(),
            n@ == a.name@,
            pred == (|f: FunctionDef| f.api@ == a.name@),
            mk == (|f: FunctionDef| function_resource(a.name@, f)),
            res_views(v@) == head + fs@.take(i as int).filter(pred).map_values(mk),
        decreases fs@.len() - i,
    {
        proof {
            assert(fs@.take(i + 1).drop_last() =~= fs@.take(i as int));
            reveal(Seq::filter);
        }
        let f = &fs[i];
        if str_eq(f.api.as_str(), n) {
            let mut uri = cat3("sdk://", n, "/functions/");
            push_str(&mut uri, f.name.as_str());
            push_res(v, uri, f.name.clone(), copy_opt(&f.summary), copy_opt(&f.summary));
            assert(fs@.take(i + 1).filter(pred) == fs@.take(i as int).filter(pred).push(fs@[i as int]));
            assert(res_views(v@) =~= head + fs@.take(i + 1).filter(pred).map_values(mk));
        } else {
            assert(fs@.take(i + 1).filter(pred) == fs@.take(i as int).filter(pred));
        }
        i = i + 1;
    }
    assert(fs@.take(fs@.len() as int) =~= fs@);
    let ghost mid = res_views(v@);
    let ghost mks = |s: SchemaDef| schema_resource(a.name@, s);
    let mut k: usize = 0;
    while k < ss.len()
        invariant
            k <= ss@.len(),
            n@ == a.name@,
            mks == (|s: SchemaDef| schema_resource(a.name@, s)),
            res_views(v@) == mid + ss@.take(k as int).map_values(mks),
        decreases ss@.len() - k,
    {
        let s = &ss[k];
        let mut uri = cat3("sdk://", n, "/schemas/");
        push_str(&mut uri, s.name.as_str());
        push_res(v, uri, s.name.clone(), Some(s.name.clone()), copy_opt(&s.description));
        assert(ss@.take(k + 1).map_values(mks) =~= ss@.take(k as int).map_values(mks).push(mks(ss@[k as int])));
        k = k + 1;
    }
    assert(ss@.take(ss@.len() as int) =~= ss@);
    assert(res_views(v@) =~= start + api_resources(*a, fs@, ss@));
}

/// The resources to list (see `resource_list`).
pub fn build_resource_list(manifest: &Manifest, io_enabled: bool) -> (r: Vec<ResourceInfo>)
    ensures
        res_views(r@) == resource_list(*manifest, io_enabled),
{
    let mut r: Vec<ResourceInfo> = Vec::new();
    let apis = &manifest.apis;
    let mut i: usize = 0;
    proof {
        assert(apis@.take(0) =~= Seq::<ApiConfig>::empty());
        assert(res_views(r@) =~= Seq::<Res>::empty());
    }
    while i < apis.len()
        invariant
            i <= apis@.len(),
            *apis == manifest.apis,
            res_views(r@) == all_api_resources(apis@.take(i as int), manifest.functions@, manifest.schemas@),
        decreases apis@.len() - i,
    {
        proof {
            assert(apis@.take(i + 1).drop_last() =~= apis@.take(i as int));
            assert(apis@.take(i + 1).last() == apis@[i as int]);
        }
        push_api_resources(&mut r, &apis[i], &manifest.functions, &manifest.schemas);
        i = i + 1;
    }
    assert(apis@.take(apis@.len() as int) =~= apis@);
    let ghost h1 = res_views(r@);
    let ss = &manifest.mcp_servers;
    let mut j: usize = 0;
    proof {
        assert(ss@.take(0) =~= Seq::<McpServerEntry>::empty());
    }
    while j < ss.len()
        invariant
            j <= ss@.len(),
            *ss == manifest.mcp_servers,
            res_views(r@) == h1 + all_server_resources(ss@.take(j as int)),
        decreases ss@.len() - j,
    {
        proof {
            assert(ss@.take(j + 1).drop_last() =~= ss@.take(j as int));
            assert(ss@.take(j + 1).last() == ss@[j as int]);
        }
        let s = &ss[j];
        let n = s.name.as_str();
        let ghost before = res_views(r@);
        push_res(&mut r, cat3("sdk://", n, "/overview"), cat2(n, " Overview"), Some(cat2(n, " MCP Server Overview")), copy_opt(&s.description));
        push_res(&mut r, cat3("sdk://", n, "/functions"), cat2(n, " Tools"), Some(cat3("All ", n, " tools")), Some(cat3("All tool signatures for the ", n, " MCP server")));
        assert(res_views(r@) =~= before + server_resources(*s));
        j = j + 1;
    }
    assert(ss@.take(ss@.len() as int) =~= ss@);
    let ghost h2 = res_views(r@);
    push_res(&mut r, owned("sdk://luau/overview"), owned("Luau Overview"), Some(owned("Built-in Luau Runtime")), Some(owned(LUAU_DESCRIPTION)));
    push_res(&mut r, owned("sdk://luau/functions"), owned("Luau Functions"), Some(owned("Built-in Luau functions")), Some(owned("All built-in function signatures")));
    let ghost h3 = res_views(r@);
    let bs = builtin_functions(io_enabled);
    let ghost mkb = |b: BuiltinFunction| Res {
        uri: "sdk://luau/functions/"@ + b.name@,
        name: b.name@,
        title: Some(b.summary@),
        description: Some(b.summary@),
    };
    let mut k: usize = 0;
    while k < bs.len()
        invariant
            k <= bs@.len(),
            bs@ == offered_builtins(io_enabled),
            mkb == (|b: BuiltinFunction| Res {
                uri: "sdk://luau/functions/"@ + b.name@,
                name: b.name@,
                title: Some(b.summary@),
                description: Some(b.summary@),
            }),
            res_views(r@) == h3 + bs@.take(k as int).map_values(mkb),
        decreases bs@.len() - k,
    {
        let b = bs[k];
        push_res(&mut r, cat2("sdk://luau/functions/", b.name), owned(b.name), Some(owned(b.summary)), Some(owned(b.summary)));
        assert(bs@.take(k + 1).map_values(mkb) =~= bs@.take(k as int).map_values(mkb).push(mkb(bs@[k as int])));
        k = k + 1;
    }
    assert(bs@.take(bs@.len() as int) =~= bs@);
    assert(res_views(r@) =~= resource_list(*manifest, io_enabled));
    r
}

// ---------------------------------------------------------------------------
// Reading a resource
// ---------------------------------------------------------------------------

/// The segments of a resource path: split at its first two `/` into at most
/// three (`str::splitn(3, '/')`).
#[verifier::opaque]
pub open spec fn uri_parts(s: Seq<char>) -> Seq<Seq<char>> {
    match first_index_of(s, '/') {
        None => seq![s],
        Some(i) => {
            let rest = s.skip(i + 1);
            match first_index_of(rest, '/') {
                None => seq![s.take(i), rest],
                Some(j) => seq![s.take(i), rest.take(j), rest.skip(j + 1)],
            }
        },
    }
}

/// The first position of `n` in `names`.
pub open spec fn first_of(names: Seq<Seq<char>>, n: Seq<char>) -> Option<int> {
    if exists|i: int| 0 <= i < names.len() && names[i] == n {
        Some(choose|i: int| 0 <= i < names.len() && names[i] == n && forall|j: int| 0 <= j < i ==> names[j] != n)
    } else {
        None
    }
}

proof fn lemma_first_of(names: Seq<Seq<char>>, n: Seq<char>, i: int)
    requires
        0 <= i < names.len(),
        names[i] == n,
        forall|j: int| 0 <= j < i ==> names[j] != n,
    ensures
        first_of(names, n) == Some(i),
{
    let k = choose|k: int| 0 <= k < names.len() && names[k] == n && forall|j: int| 0 <= j < k ==> names[j] != n;
    assert(k == i) by {
        if k < i {
            assert(names[k] != n);
        } else if k > i {
            assert(names[i] != n);
        }
    }
}

/// Concatenation of texts.
pub open spec fn concat(parts: Seq<Seq<char>>) -> Seq<char> {
    crate::annotations::concat(parts)
}

/// The names of APIs, servers and schemas.
pub open spec fn api_names(v: Seq<ApiConfig>) -> Seq<Seq<char>> {
    v.map_values(|a: ApiConfig| a.name@)
}

/// The names of upstream servers.
pub open spec fn server_names(v: Seq<McpServerEntry>) -> Seq<Seq<char>> {
    v.map_values(|s: McpServerEntry| s.name@)
}

/// The names of schemas.
pub open spec fn schema_names(v: Seq<SchemaDef>) -> Seq<Seq<char>> {
    v.map_values(|s: SchemaDef| s.name@)
}

/// `text` and `suffix` when present.
pub open spec fn opt_block(o: Option<String>, prefix: Seq<char>, suffix: Seq<char>) -> Seq<char> {
    match o {
        Some(d) => prefix + d@ + suffix,
        None => Seq::empty(),
    }
}

/// The overview of an API.
pub open spec fn api_overview(a: ApiConfig, fs: Seq<FunctionDef>) -> Seq<char> {
    "# "@ + a.name@ + " API\n\n"@ + opt_block(a.description, Seq::empty(), "\n\n"@) + opt_block(
        a.version,
        "Version: "@,
        "\n"@,
    ) + "Base URL: "@ + a.base_url@ + "\n"@ + "Functions: "@ + decimal(function_count(fs, a.name@))
        + "\n"@
}

/// The line of a tool in a server overview.
pub open spec fn tool_line(t: McpToolDef) -> Seq<char> {
    "  - "@ + t.name@ + ": "@ + match t.description {
        Some(d) => d@,
        None => "No description"@,
    } + "\n"@
}

/// The overview of an upstream server.
pub open spec fn server_overview(s: McpServerEntry) -> Seq<char> {
    "# "@ + s.name@ + " MCP Server\n\n"@ + opt_block(s.description, Seq::empty(), "\n\n"@)
        + "Tools: "@ + decimal(s.tools@.len()) + "\n"@ + "\nAvailable tools:\n"@ + concat(
        s.tools@.map_values(|t: McpToolDef| tool_line(t)),
    )
}

/// The overview of the built-in runtime.
pub open spec fn luau_overview(io_enabled: bool) -> Seq<char> {
    "# Luau Runtime\n\n"@ + LUAU_DESCRIPTION@
        + "\n\nStandard Lua libraries are also available: string, table, math, os.clock(), os.date(), os.difftime(), os.time(). These follow standard Lua 5.1 behavior.\n"@
        + "\nDocumented functions: "@ + decimal(offered_builtins(io_enabled).len()) + "\n"@
}

/// A cached annotation, or the error for an unknown function.
pub open spec fn cached(cache: Map<Seq<char>, Seq<char>>, n: Seq<char>) -> Result<Seq<char>, Seq<char>> {
    if cache.dom().contains(n) {
        Ok(cache[n])
    } else {
        Err("Function '"@ + n + "' not found"@)
    }
}

/// Reading a built-in runtime resource.
#[verifier::opaque]
pub open spec fn luau_outcome(
    uri: Seq<char>,
    rt: Seq<char>,
    item: Option<Seq<char>>,
    cache: Map<Seq<char>, Seq<char>>,
    io_enabled: bool,
) -> Result<Seq<char>, Seq<char>> {
    if rt == "overview"@ {
        Ok(luau_overview(io_enabled))
    } else if rt == "functions"@ {
        match item {
            Some(n) => cached(cache, n),
            None => Ok(
                concat(
                    offered_builtins(io_enabled).map_values(
                        |b: BuiltinFunction| b.annotation@ + "\n\n"@,
                    ),
                ),
            ),
        }
    } else {
        Err("Unknown resource: "@ + uri)
    }
}

/// Reading a resource of an upstream server.
#[verifier::opaque]
pub open spec fn server_outcome(uri: Seq<char>, s: McpServerEntry, rt: Seq<char>) -> Result<
    Seq<char>,
    Seq<char>,
> {
    if rt == "overview"@ {
        Ok(server_overview(s))
    } else if rt == "functions"@ {
        Ok(concat(s.tools@.map_values(|t: McpToolDef| mcp_tool_annotation(t) + "\n\n"@)))
    } else {
        Err("Unknown resource path: "@ + uri)
    }
}

/// Reading a resource of an API.
#[verifier::opaque]
pub open spec fn api_outcome(
    uri: Seq<char>,
    m: Manifest,
    a: ApiConfig,
    api: Seq<char>,
    rt: Seq<char>,
    item: Option<Seq<char>>,
    cache: Map<Seq<char>, Seq<char>>,
) -> Result<Seq<char>, Seq<char>> {
    if rt == "overview"@ {
        Ok(api_overview(a, m.functions@))
    } else if rt == "functions"@ {
        match item {
            Some(n) => cached(cache, n),
            None => Ok(
                concat(
                    m.functions@.filter(|f: FunctionDef| f.api@ == api).map_values(
                        |f: FunctionDef| function_annotation(f) + "\n\n"@,
                    ),
                ),
            ),
        }
    } else if rt == "schemas"@ {
        match item {
            Some(n) => match first_of(schema_names(m.schemas@), n) {
                Some(j) => Ok(schema_annotation(m.schemas@[j])),
                None => Err("Schema '"@ + n + "' not found"@),
            },
            None => Ok(concat(m.schemas@.map_values(|s: SchemaDef| schema_annotation(s) + "\n\n"@))),
        }
    } else {
        Err("Unknown resource path: "@ + uri)
    }
}

/// What reading the resource `uri` gives: its text, or the error. The path
/// after `sdk://` names the built-in runtime (`luau`), an upstream server or
/// an API (servers first), then the kind of resource and an item.
pub open spec fn resource_outcome(
    uri: Seq<char>,
    m: Manifest,
    cache: Map<Seq<char>, Seq<char>>,
    io_enabled: bool,
) -> Result<Seq<char>, Seq<char>> {
    if !(uri.len() >= 6 && uri.take(6) == "sdk://"@) {
        Err("Invalid resource URI scheme"@)
    } else {
        let parts = uri_parts(uri.skip(6));
        let api = parts[0];
        let rt = if parts.len() >= 2 {
            parts[1]
        } else {
            Seq::<char>::empty()
        };
        let item: Option<Seq<char>> = if parts.len() == 3 {
            Some(parts[2])
        } else {
            None
        };
        if api == "luau"@ {
            luau_outcome(uri, rt, item, cache, io_enabled)
        } else {
            match first_of(server_names(m.mcp_servers@), api) {
                Some(k) => server_outcome(uri, m.mcp_servers@[k], rt),
                None => match first_of(api_names(m.apis@), api) {
                    None => Err("API '"@ + api + "' not found"@),
                    Some(k) => api_outcome(uri, m, m.apis@[k], api, rt, item, cache),
                },
            }
        }
    }
}

fn split_uri(s: &[char]) -> (r: Vec<Vec<char>>)
    ensures
        1 <= r@.len() <= 3,
        r@.len() == uri_parts(s@).len(),
        forall|i: int| 0 <= i < r@.len() ==> #[trigger] r@[i]@ == uri_parts(s@)[i],
{
    proof {
        reveal(uri_parts);
    }
    match find_char(s, '/') {
        None => {
            let mut r: Vec<Vec<char>> = Vec::new();
            r.push(sub_chars(s, 0, s.len()));
            assert(s@.subrange(0, s@.len() as int) =~= s@);
            r
        },
        Some(i) => {
            let n = s.len();
            let first = sub_chars(s, 0, i);
            let rest = sub_chars(s, i + 1, n);
            assert(rest@ =~= s@.skip(i + 1));
            let mut r: Vec<Vec<char>> = Vec::new();
            r.push(first);
            match find_char(rest.as_slice(), '/') {
                None => {
                    r.push(rest);
                },
                Some(j) => {
                    let m = rest.len();
                    let second = sub_chars(rest.as_slice(), 0, j);
                    let third = sub_chars(rest.as_slice(), j + 1, m);
                    assert(third@ =~= rest@.skip(j + 1));
                    r.push(second);
                    r.push(third);
                },
            }
            r
        },
    }
}

fn find_server(servers: &Vec<McpServerEntry>, name: &[char]) -> (r: Option<usize>)
    ensures
        match r {
            Some(k) => k < servers@.len() && first_of(server_names(servers@), name@) == Some(k as int),
            None => first_of(server_names(servers@), name@) is None,
        },
{
    let ghost names = server_names(servers@);
    let mut i: usize = 0;
    while i < servers.len()
        invariant
            i <= servers@.len(),
            names == server_names(servers@),
            forall|j: int| 0 <= j < i ==> names[j] != name@,
        decreases servers@.len() - i,
    {
        let cs = chars_of(servers[i].name.as_str());
        if crate::text::chars_eq(cs.as_slice(), name) {
            proof {
                lemma_first_of(names, name@, i as int);
            }
            return Some(i);
        }
        i = i + 1;
    }
    None
}

fn find_api_named(apis: &Vec<ApiConfig>, name: &[char]) -> (r: Option<usize>)
    ensures
        match r {
            Some(k) => k < apis@.len() && first_of(api_names(apis@), name@) == Some(k as int),
            None => first_of(api_names(apis@), name@) is None,
        },
{
    let ghost names = api_names(apis@);
    let mut i: usize = 0;
    while i < apis.len()
        invariant
            i <= apis@.len(),
            names == api_names(apis@),
            forall|j: int| 0 <= j < i ==> names[j] != name@,
        decreases apis@.len() - i,
    {
        let cs = chars_of(apis[i].name.as_str());
        if crate::text::chars_eq(cs.as_slice(), name) {
            proof {
                lemma_first_of(names, name@, i as int);
            }
            return Some(i);
        }
        i = i + 1;
    }
    None
}

fn find_schema(schemas: &Vec<SchemaDef>, name: &[char]) -> (r: Option<usize>)
    ensures
        match r {
            Some(k) => k < schemas@.len() && first_of(schema_names(schemas@), name@) == Some(k as int),
            None => first_of(schema_names(schemas@), name@) is None,
        },
{
    let ghost names = schema_names(schemas@);
    let mut i: usize = 0;
    while i < schemas.len()
        invariant
            i <= schemas@.len(),
            names == schema_names(schemas@),
            forall|j: int| 0 <= j < i ==> names[j] != name@,
        decreases schemas@.len() - i,
    {
        let cs = chars_of(schemas[i].name.as_str());
        if crate::text::chars_eq(cs.as_slice(), name) {
            proof {
                lemma_first_of(names, name@, i as int);
            }
            return Some(i);
        }
        i = i + 1;
    }
    None
}

fn lookup_cached(cache: &NameMap<String>, n: &[char]) -> (r: Result<String, String>)
    ensures
        match (r, cached(texts(cache@), n@)) {
            (Ok(t), Ok(e)) => t@ == e,
            (Err(m), Err(e)) => m@ == e,
            _ => false,
        },
{
    let name = string_of(n);
    match cache.get(name.as_str()) {
        Some(a) => Ok(a.clone()),
        None => {
            let mut m = owned("Function '");
            push_str(&mut m, name.as_str());
            push_str(&mut m, "' not found");
            Err(m)
        },
    }
}

fn push_opt_block(t: &mut String, o: &Option<String>, prefix: &str, suffix: &str)
    ensures
        final(t)@ == old(t)@ + opt_block(*o, prefix@, suffix@),
{
    match o {
        Some(d) => {
            push_str(t, prefix);
            push_str(t, d.as_str());
            push_str(t, suffix);
        },
        None => {},
    }
}

fn api_overview_text(a: &ApiConfig, fs: &Vec<FunctionDef>) -> (r: String)
    ensures
        r@ == api_overview(*a, fs@),
{
    let mut t = owned("# ");
    push_str(&mut t, a.name.as_str());
    push_str(&mut t, " API\n\n");
    proof {
        reveal_strlit("");
    }
    push_opt_block(&mut t, &a.description, "", "\n\n");
    push_opt_block(&mut t, &a.version, "Version: ", "\n");
    push_str(&mut t, "Base URL: ");
    push_str(&mut t, a.base_url.as_str());
    push_str(&mut t, "\n");
    push_str(&mut t, "Functions: ");
    let n = crate::tools::count_functions_of(fs, a.name.as_str());
    push_decimal(&mut t, n as u64);
    push_str(&mut t, "\n");
    t
}

fn server_overview_text(s: &McpServerEntry) -> (r: String)
    ensures
        r@ == server_overview(*s),
{
    let mut t = owned("# ");
    push_str(&mut t, s.name.as_str());
    push_str(&mut t, " MCP Server\n\n");
    proof {
        reveal_strlit("");
    }
    push_opt_block(&mut t, &s.description, "", "\n\n");
    push_str(&mut t, "Tools: ");
    push_decimal(&mut t, s.tools.len() as u64);
    push_str(&mut t, "\n");
    push_str(&mut t, "\nAvailable tools:\n");
    let ghost head = t@;
    let ts = &s.tools;
    let ghost f = |x: McpToolDef| tool_line(x);
    let mut i: usize = 0;
    proof {
        assert(ts@.take(0).map_values(f) =~= Seq::<Seq<char>>::empty());
    }
    while i < ts.len()
        invariant
            i <= ts@.len(),
            *ts == s.tools,
            f == (|x: McpToolDef| tool_line(x)),
            t@ == head + concat(ts@.take(i as int).map_values(f)),
        decreases ts@.len() - i,
    {
        let tool = &ts[i];
        push_str(&mut t, "  - ");
        push_str(&mut t, tool.name.as_str());
        push_str(&mut t, ": ");
        match &tool.description {
            Some(d) => push_str(&mut t, d.as_str()),
            None => push_str(&mut t, "No description"),
        }
        push_str(&mut t, "\n");
        proof {
            assert(ts@.take(i + 1).map_values(f) =~= ts@.take(i as int).map_values(f).push(
                tool_line(ts@[i as int]),
            ));
            crate::annotations::lemma_concat_push(ts@.take(i as int).map_values(f), tool_line(ts@[i as int]));
        }
        i = i + 1;
    }
    assert(ts@.take(ts@.len() as int) =~= ts@);
    t
}

/// The text of an optional item.
pub open spec fn opt_chars(o: Option<&Vec<char>>) -> Option<Seq<char>> {
    match o {
        Some(v) => Some(v@),
        None => None,
    }
}

fn read_luau(uri: &str, rt: &[char], item: Option<&Vec<char>>, cache: &NameMap<String>, io_enabled: bool)
    -> (r: Result<String, String>)
    ensures
        match (r, luau_outcome(uri@, rt@, opt_chars(item), texts(cache@), io_enabled)) {
            (Ok(t), Ok(e)) => t@ == e,
            (Err(m), Err(e)) => m@ == e,
            _ => false,
        },
{
    proof {
        reveal(luau_outcome);
    }
    if crate::text::chars_eq(rt, chars_of("overview").as_slice()) {
        let bs = builtin_functions(io_enabled);
        let mut t = owned("# Luau Runtime\n\n");
        push_str(&mut t, LUAU_DESCRIPTION);
        push_str(&mut t, "\n\nStandard Lua libraries are also available: string, table, math, os.clock(), os.date(), os.difftime(), os.time(). These follow standard Lua 5.1 behavior.\n");
        push_str(&mut t, "\nDocumented functions: ");
        push_decimal(&mut t, bs.len() as u64);
        push_str(&mut t, "\n");
        Ok(t)
    } else if crate::text::chars_eq(rt, chars_of("functions").as_slice()) {
        match item {
            Some(n) => lookup_cached(cache, n.as_slice()),
            None => {
                let bs = builtin_functions(io_enabled);
                let ghost f = |b: BuiltinFunction| b.annotation@ + "\n\n"@;
                let mut t = String::new();
                let mut i: usize = 0;
                proof {
                    assert(bs@.take(0).map_values(f) =~= Seq::<Seq<char>>::empty());
                }
                while i < bs.len()
                    invariant
                        i <= bs@.len(),
                        f == (|b: BuiltinFunction| b.annotation@ + "\n\n"@),
                        t@ == concat(bs@.take(i as int).map_values(f)),
                    decreases bs@.len() - i,
                {
                    push_str(&mut t, bs[i].annotation);
                    push_str(&mut t, "\n\n");
                    proof {
                        assert(bs@.take(i + 1).map_values(f) =~= bs@.take(i as int).map_values(f).push(f(bs@[i as int])));
                        crate::annotations::lemma_concat_push(bs@.take(i as int).map_values(f), f(bs@[i as int]));
                    }
                    i = i + 1;
                }
                assert(bs@.take(bs@.len() as int) =~= bs@);
                Ok(t)
            },
        }
    } else {
        let mut m = owned("Unknown resource: ");
        push_str(&mut m, uri);
        Err(m)
    }
}

fn read_server(uri: &str, s: &McpServerEntry, rt: &[char]) -> (r: Result<String, String>)
    ensures
        match (r, server_outcome(uri@, *s, rt@)) {
            (Ok(t), Ok(e)) => t@ == e,
            (Err(m), Err(e)) => m@ == e,
            _ => false,
        },
{
    proof {
        reveal(server_outcome);
    }
    if crate::text::chars_eq(rt, chars_of("overview").as_slice()) {
        Ok(server_overview_text(s))
    } else if crate::text::chars_eq(rt, chars_of("functions").as_slice()) {
        let ts = &s.tools;
        let ghost f = |x: McpToolDef| mcp_tool_annotation(x) + "\n\n"@;
        let mut t = String::new();
        let mut i: usize = 0;
        proof {
            assert(ts@.take(0).map_values(f) =~= Seq::<Seq<char>>::empty());
        }
        while i < ts.len()
            invariant
                i <= ts@.len(),
                *ts == s.tools,
                f == (|x: McpToolDef| mcp_tool_annotation(x) + "\n\n"@),
                t@ == concat(ts@.take(i as int).map_values(f)),
            decreases ts@.len() - i,
        {
            let a = render_mcp_tool_annotation(&ts[i]);
            push_str(&mut t, a.as_str());
            push_str(&mut t, "\n\n");
            proof {
                assert(ts@.take(i + 1).map_values(f) =~= ts@.take(i as int).map_values(f).push(f(ts@[i as int])));
                crate::annotations::lemma_concat_push(ts@.take(i as int).map_values(f), f(ts@[i as int]));
            }
            i = i + 1;
        }
        assert(ts@.take(ts@.len() as int) =~= ts@);
        Ok(t)
    } else {
        let mut m = owned("Unknown resource path: ");
        push_str(&mut m, uri);
        Err(m)
    }
}

fn api_functions_text(fs: &Vec<FunctionDef>, api: &[char]) -> (r: String)
    ensures
        r@ == concat(
            fs@.filter(|f: FunctionDef| f.api@ == api@).map_values(
                |f: FunctionDef| function_annotation(f) + "\n\n"@,
            ),
        ),
{
    let ghost pred = |f: FunctionDef| f.api@ == api@;
    let ghost g = |f: FunctionDef| function_annotation(f) + "\n\n"@;
    let mut t = String::new();
    let mut i: usize = 0;
    proof {
        assert(fs@.take(0).filter(pred) =~= Seq::<FunctionDef>::empty());
        assert(fs@.take(0).filter(pred).map_values(g) =~= Seq::<Seq<char>>::empty());
    }
    while i < fs.len()
        invariant
            i <= fs@.len(),
            pred == (|f: FunctionDef| f.api@ == api@),
            g == (|f: FunctionDef| function_annotation(f) + "\n\n"@),
            t@ == concat(fs@.take(i as int).filter(pred).map_values(g)),
        decreases fs@.len() - i,
    {
        proof {
            assert(fs@.take(i + 1).drop_last() =~= fs@.take(i as int));
            reveal(Seq::filter);
        }
        let f = &fs[i];
        let fa = chars_of(f.api.as_str());
        if crate::text::chars_eq(fa.as_slice(), api) {
            let an = render_function_annotation(f);
            push_str(&mut t, an.as_str());
            push_str(&mut t, "\n\n");
            proof {
                assert(fs@.take(i + 1).filter(pred) == fs@.take(i as int).filter(pred).push(fs@[i as int]));
                assert(fs@.take(i + 1).filter(pred).map_values(g) =~= fs@.take(i as int).filter(pred).map_values(g).push(g(fs@[i as int])));
                crate::annotations::lemma_concat_push(fs@.take(i as int).filter(pred).map_values(g), g(fs@[i as int]));
            }
        } else {
            assert(fs@.take(i + 1).filter(pred) == fs@.take(i as int).filter(pred));
        }
        i = i + 1;
    }
    assert(fs@.take(fs@.len() as int) =~= fs@);
    t
}

fn all_schemas_text(ss: &Vec<SchemaDef>) -> (r: String)
    ensures
        r@ == concat(ss@.map_values(|s: SchemaDef| schema_annotation(s) + "\n\n"@)),
{
    let ghost g = |x: SchemaDef| schema_annotation(x) + "\n\n"@;
    let mut t = String::new();
    let mut i: usize = 0;
    proof {
        assert(ss@.take(0).map_values(g) =~= Seq::<Seq<char>>::empty());
    }
    while i < ss.len()
        invariant
            i <= ss@.len(),
            g == (|x: SchemaDef| schema_annotation(x) + "\n\n"@),
            t@ == concat(ss@.take(i as int).map_values(g)),
        decreases ss@.len() - i,
    {
        let an = render_schema_annotation(&ss[i]);
        push_str(&mut t, an.as_str());
        push_str(&mut t, "\n\n");
        proof {
            assert(ss@.take(i + 1).map_values(g) =~= ss@.take(i as int).map_values(g).push(g(ss@[i as int])));
            crate::annotations::lemma_concat_push(ss@.take(i as int).map_values(g), g(ss@[i as int]));
        }
        i = i + 1;
    }
    assert(ss@.take(ss@.len() as int) =~= ss@);
    t
}

fn read_api(
    uri: &str,
    manifest: &Manifest,
    a: &ApiConfig,
    api: &[char],
    rt: &[char],
    item: Option<&Vec<char>>,
    cache: &NameMap<String>,
) -> (r: Result<String, String>)
    ensures
        match (r, api_outcome(uri@, *manifest, *a, api@, rt@, opt_chars(item), texts(cache@))) {
            (Ok(t), Ok(e)) => t@ == e,
            (Err(m), Err(e)) => m@ == e,
            _ => false,
        },
{
    proof {
        reveal(api_outcome);
    }
    if crate::text::chars_eq(rt, chars_of("overview").as_slice()) {
        Ok(api_overview_text(a, &manifest.functions))
    } else if crate::text::chars_eq(rt, chars_of("functions").as_slice()) {
        match item {
            Some(n) => lookup_cached(cache, n.as_slice()),
            None => Ok(api_functions_text(&manifest.functions, api)),
        }
    } else if crate::text::chars_eq(rt, chars_of("schemas").as_slice()) {
        match item {
            Some(n) => match find_schema(&manifest.schemas, n.as_slice()) {
                Some(j) => Ok(render_schema_annotation(&manifest.schemas[j])),
                None => {
                    let mut m = owned("Schema '");
                    push_chars(&mut m, n.as_slice());
                    push_str(&mut m, "' not found");
                    Err(m)
                },
            },
            None => Ok(all_schemas_text(&manifest.schemas)),
        }
    } else {
        let mut m = owned("Unknown resource path: ");
        push_str(&mut m, uri);
        Err(m)
    }
}

/// Reads a resource (see `resource_outcome`); `annotation_cache` holds the
/// rendered annotations by name.
pub fn read_resource(uri: &str, manifest: &Manifest, annotation_cache: &NameMap<String>, io_enabled: bool)
    -> (r: Result<String, String>)
    ensures
        match (r, resource_outcome(uri@, *manifest, texts(annotation_cache@), io_enabled)) {
            (Ok(t), Ok(e)) => t@ == e,
            (Err(m), Err(e)) => m@ == e,
            _ => false,
        },
{
    let u = chars_of(uri);
    let prefix = chars_of("sdk://");
    proof {
        reveal_strlit("sdk://");
    }
    if u.len() < 6 {
        return Err(owned("Invalid resource URI scheme"));
    }
    let head = sub_chars(u.as_slice(), 0, 6);
    assert(head@ == uri@.take(6));
    if !crate::text::chars_eq(head.as_slice(), prefix.as_slice()) {
        return Err(owned("Invalid resource URI scheme"));
    }
    let rest = sub_chars(u.as_slice(), 6, u.len());
    assert(rest@ =~= uri@.skip(6));
    let parts = split_uri(rest.as_slice());
    let ghost ps = uri_parts(uri@.skip(6));
    let api = &parts[0];
    assert(api@ == ps[0]);
    let empty: Vec<char> = Vec::new();
    let rt: &Vec<char> = if parts.len() >= 2 {
        &parts[1]
    } else {
        &empty
    };
    assert(rt@ == (if ps.len() >= 2 {
        ps[1]
    } else {
        Seq::<char>::empty()
    }));
    let item: Option<&Vec<char>> = if parts.len() == 3 {
        Some(&parts[2])
    } else {
        None
    };
    assert(opt_chars(item) == (if ps.len() == 3 {
        Some(ps[2])
    } else {
        None::<Seq<char>>
    }));
    if crate::text::chars_eq(api.as_slice(), chars_of("luau").as_slice()) {
        return read_luau(uri, rt.as_slice(), item, annotation_cache, io_enabled);
    }
    match find_server(&manifest.mcp_servers, api.as_slice()) {
        Some(k) => read_server(uri, &manifest.mcp_servers[k], rt.as_slice()),
        None => match find_api_named(&manifest.apis, api.as_slice()) {
            None => {
                let mut m = owned("API '");
                push_chars(&mut m, api.as_slice());
                push_str(&mut m, "' not found");
                Err(m)
            },
            Some(k) => read_api(
                uri,
                manifest,
                &manifest.apis[k],
                api.as_slice(),
                rt.as_slice(),
                item,
                annotation_cache,
            ),
        },
    }
}

} // verus!
