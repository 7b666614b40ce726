//! The documentation tools of the server: listing APIs and functions,
//! function docs and keyword search.
use vstd::prelude::*;
use crate::annotations::{
    is_visible, visible_only,
    function_annotation, mcp_tool_annotation, render_function_annotation, render_schema_annotation,
    schema_annotation,
};
use crate::builtins::{builtin_functions, builtin_table, offered, BuiltinFunction};
use crate::http::AuthCredentialsMap;
use crate::manifest::{
    copy_opt_string, ApiConfig, FieldDef, FunctionDef, Manifest, McpServerEntry, McpToolDef,
    ParamDef, SchemaDef,
};
use crate::namemap::NameMap;
use crate::text::{
    all_ascii, ascii_lower, contains_sub, join, join_strings, lowercase, owned, push_char,
    push_str, str_contains, str_eq, to_lowercase, views,
};

verus! {

broadcast use vstd::seq_lib::group_seq_properties;

/// The documentation state of the server: the manifest, the rendered
/// annotations of its functions and schemas by name, the credentials loaded
/// at start-up, and whether scripts may use files.
#[derive(Debug)]
pub struct CodeMcpServer {
    pub manifest: Manifest,
    pub annotation_cache: NameMap<String>,
    pub schema_cache: NameMap<String>,
    pub auth: AuthCredentialsMap,
    pub io_enabled: bool,
}

/// The annotations of functions by name (a later function of the same name
/// wins).
pub open spec fn annotations_of(fs: Seq<FunctionDef>) -> Map<Seq<char>, Seq<char>>
    decreases fs.len(),
{
    if fs.len() == 0 {
        Map::empty()
    } else {
        annotations_of(fs.drop_last()).insert(fs.last().name@, function_annotation(fs.last()))
    }
}

/// The annotations of schemas by name (a later schema of the same name wins).
pub open spec fn schema_annotations_of(ss: Seq<SchemaDef>) -> Map<Seq<char>, Seq<char>>
    decreases ss.len(),
{
    if ss.len() == 0 {
        Map::empty()
    } else {
        schema_annotations_of(ss.drop_last()).insert(ss.last().name@, schema_annotation(ss.last()))
    }
}

/// `acc` with the annotation of each tool of a server added under
/// `server.tool`.
pub open spec fn with_tools(acc: Map<Seq<char>, Seq<char>>, server: Seq<char>, ts: Seq<McpToolDef>)
    -> Map<Seq<char>, Seq<char>>
    decreases ts.len(),
{
    if ts.len() == 0 {
        acc
    } else {
        with_tools(acc, server, ts.drop_last()).insert(
            server + seq!['.'] + ts.last().name@,
            mcp_tool_annotation(ts.last()),
        )
    }
}

/// `acc` with the tools of every server added, in order.
pub open spec fn with_servers(acc: Map<Seq<char>, Seq<char>>, servers: Seq<McpServerEntry>) -> Map<
    Seq<char>,
    Seq<char>,
>
    decreases servers.len(),
{
    if servers.len() == 0 {
        acc
    } else {
        with_tools(with_servers(acc, servers.drop_last()), servers.last().name@, servers.last().tools@)
    }
}

/// `acc` with the annotation of each built-in added under its name.
pub open spec fn with_builtins(acc: Map<Seq<char>, Seq<char>>, bs: Seq<BuiltinFunction>) -> Map<
    Seq<char>,
    Seq<char>,
>
    decreases bs.len(),
{
    if bs.len() == 0 {
        acc
    } else {
        with_builtins(acc, bs.drop_last()).insert(bs.last().name@, bs.last().annotation@)
    }
}

/// The documentation served by name: every function's annotation, then
/// every upstream tool's under `server.tool`, then every built-in offered
/// (a later entry of the same name wins).
pub open spec fn docs_of(m: Manifest, io_enabled: bool) -> Map<Seq<char>, Seq<char>> {
    with_builtins(
        with_servers(annotations_of(m.functions@), m.mcp_servers@),
        builtin_table().filter(|f: BuiltinFunction| offered(io_enabled, f)),
    )
}

/// The text of a map of strings.
pub open spec fn texts(m: Map<Seq<char>, String>) -> Map<Seq<char>, Seq<char>> {
    m.map_values(|s: String| s@)
}

impl CodeMcpServer {
    /// The server state for a manifest, with every annotation rendered.
    pub fn new(manifest: Manifest, auth: AuthCredentialsMap, io_enabled: bool) -> (r: CodeMcpServer)
        ensures
            r.manifest == manifest,
            texts(r.annotation_cache@) == docs_of(manifest, io_enabled),
            texts(r.schema_cache@) == schema_annotations_of(manifest.schemas@),
            r.auth@ == auth@,
            r.io_enabled == io_enabled,
    {
        let mut annotation_cache: NameMap<String> = NameMap::new();
        let fs = &manifest.functions;
        let mut i: usize = 0;
        proof {
            assert(fs@.take(0) =~= Seq::<FunctionDef>::empty());
            assert(texts(annotation_cache@) =~= Map::<Seq<char>, Seq<char>>::empty());
        }
        while i < fs.len()
            invariant
                i <= fs@.len(),
                texts(annotation_cache@) == annotations_of(fs@.take(i as int)),
            decreases fs@.len() - i,
        {
            proof {
                assert(fs@.take(i + 1).drop_last() =~= fs@.take(i as int));
                assert(fs@.take(i + 1).last() == fs@[i as int]);
            }
            let a = render_function_annotation(&fs[i]);
            let ghost before = annotation_cache@;
            annotation_cache.insert(fs[i].name.clone(), a);
            assert(texts(annotation_cache@) =~= texts(before).insert(fs@[i as int].name@, a@));
            i = i + 1;
        }
        assert(fs@.take(fs@.len() as int) =~= fs@);
        let ghost base = texts(annotation_cache@);
        let ms = &manifest.mcp_servers;
        let mut j: usize = 0;
        proof {
            assert(ms@.take(0) =~= Seq::<McpServerEntry>::empty());
        }
        while j < ms.len()
            invariant
                j <= ms@.len(),
                texts(annotation_cache@) == with_servers(base, ms@.take(j as int)),
            decreases ms@.len() - j,
        {
            proof {
                assert(ms@.take(j + 1).drop_last() =~= ms@.take(j as int));
                assert(ms@.take(j + 1).last() == ms@[j as int]);
            }
            let srv = &ms[j];
            let ghost acc = texts(annotation_cache@);
            let ts = &srv.tools;
            let mut t: usize = 0;
            proof {
                assert(ts@.take(0) =~= Seq::<McpToolDef>::empty());
            }
            while t < ts.len()
                invariant
                    t <= ts@.len(),
                    *ts == srv.tools,
                    texts(annotation_cache@) == with_tools(acc, srv.name@, ts@.take(t as int)),
                decreases ts@.len() - t,
            {
                proof {
                    assert(ts@.take(t + 1).drop_last() =~= ts@.take(t as int));
                    assert(ts@.take(t + 1).last() == ts@[t as int]);
                }
                let mut key = srv.name.clone();
                push_char(&mut key, '.');
                push_str(&mut key, ts[t].name.as_str());
                assert(key@ =~= srv.name@ + seq!['.'] + ts@[t as int].name@);
                let a = crate::annotations::render_mcp_tool_annotation(&ts[t]);
                let ghost before = annotation_cache@;
                let ghost kv = key@;
                annotation_cache.insert(key, a);
                assert(texts(annotation_cache@) =~= texts(before).insert(kv, a@));
                t = t + 1;
            }
            assert(ts@.take(ts@.len() as int) =~= ts@);
            j = j + 1;
        }
        assert(ms@.take(ms@.len() as int) =~= ms@);
        let ghost mid = texts(annotation_cache@);
        let bs = builtin_functions(io_enabled);
        let mut b: usize = 0;
        proof {
            assert(bs@.take(0) =~= Seq::<BuiltinFunction>::empty());
        }
        while b < bs.len()
            invariant
                b <= bs@.len(),
                bs@ == builtin_table().filter(|f: BuiltinFunction| offered(io_enabled, f)),
                texts(annotation_cache@) == with_builtins(mid, bs@.take(b as int)),
            decreases bs@.len() - b,
        {
            proof {
                assert(bs@.take(b + 1).drop_last() =~= bs@.take(b as int));
                assert(bs@.take(b + 1).last() == bs@[b as int]);
            }
            let ghost before = annotation_cache@;
            annotation_cache.insert(owned(bs[b].name), owned(bs[b].annotation));
            assert(texts(annotation_cache@) =~= texts(before).insert(bs@[b as int].name@, bs@[b as int].annotation@));
            b = b + 1;
        }
        assert(bs@.take(bs@.len() as int) =~= bs@);
        let mut schema_cache: NameMap<String> = NameMap::new();
        let ss = &manifest.schemas;
        let mut k: usize = 0;
        proof {
            assert(ss@.take(0) =~= Seq::<SchemaDef>::empty());
            assert(texts(schema_cache@) =~= Map::<Seq<char>, Seq<char>>::empty());
        }
        while k < ss.len()
            invariant
                k <= ss@.len(),
                texts(schema_cache@) == schema_annotations_of(ss@.take(k as int)),
            decreases ss@.len() - k,
        {
            proof {
                assert(ss@.take(k + 1).drop_last() =~= ss@.take(k as int));
                assert(ss@.take(k + 1).last() == ss@[k as int]);
            }
            let a = render_schema_annotation(&ss[k]);
            let ghost before = schema_cache@;
            schema_cache.insert(ss[k].name.clone(), a);
            assert(texts(schema_cache@) =~= texts(before).insert(ss@[k as int].name@, a@));
            k = k + 1;
        }
        assert(ss@.take(ss@.len() as int) =~= ss@);
        CodeMcpServer { manifest, annotation_cache, schema_cache, auth, io_enabled }
    }
}

/// The message for an unknown function.
pub open spec fn function_not_found(name: Seq<char>) -> Seq<char> {
    "Function '"@ + name + "' not found"@
}

/// The message for an unknown schema.
pub open spec fn schema_not_found(name: Seq<char>) -> Seq<char> {
    "Schema '"@ + name + "' not found"@
}

/// The documentation of a function: its rendered annotation.
pub fn get_function_docs_impl(server: &CodeMcpServer, name: &str) -> (r: Result<String, String>)
    ensures
        texts(server.annotation_cache@).dom().contains(name@) ==> (r matches Ok(d) && d@ == texts(
            server.annotation_cache@,
        )[name@]),
        !texts(server.annotation_cache@).dom().contains(name@) ==> (r matches Err(m) && m@
            == function_not_found(name@)),
{
    match server.annotation_cache.get(name) {
        Some(a) => Ok(a.clone()),
        None => {
            let mut m = owned("Function '");
            push_str(&mut m, name);
            push_str(&mut m, "' not found");
            Err(m)
        },
    }
}

/// The documentation of a schema: its rendered annotation.
pub fn get_schema_impl(server: &CodeMcpServer, name: &str) -> (r: Result<String, String>)
    ensures
        texts(server.schema_cache@).dom().contains(name@) ==> (r matches Ok(d) && d@ == texts(
            server.schema_cache@,
        )[name@]),
        !texts(server.schema_cache@).dom().contains(name@) ==> (r matches Err(m) && m@
            == schema_not_found(name@)),
{
    match server.schema_cache.get(name) {
        Some(a) => Ok(a.clone()),
        None => {
            let mut m = owned("Schema '");
            push_str(&mut m, name);
            push_str(&mut m, "' not found");
            Err(m)
        },
    }
}

/// The index of the last function named `name`.
pub open spec fn last_function_named(fs: Seq<FunctionDef>, name: Seq<char>) -> Option<int>
    decreases fs.len(),
{
    if fs.len() == 0 {
        None
    } else if fs.last().name@ == name {
        Some(fs.len() - 1)
    } else {
        last_function_named(fs.drop_last(), name)
    }
}

/// The docs served for a name are the annotation of the last function of
/// that name, and there are docs for exactly the names of functions.
pub proof fn lemma_docs_are_annotations(fs: Seq<FunctionDef>, name: Seq<char>)
    ensures
        match last_function_named(fs, name) {
            Some(i) => 0 <= i < fs.len() && fs[i].name@ == name && annotations_of(fs).dom().contains(
                name,
            ) && annotations_of(fs)[name] == function_annotation(fs[i]),
            None => !annotations_of(fs).dom().contains(name) && forall|j: int|
                0 <= j < fs.len() ==> fs[j].name@ != name,
        },
    decreases fs.len(),
{
    if fs.len() > 0 {
        lemma_docs_are_annotations(fs.drop_last(), name);
        if fs.last().name@ != name {
            match last_function_named(fs.drop_last(), name) {
                Some(i) => {
                    assert(fs[i] == fs.drop_last()[i]);
                },
                None => {
                    assert forall|j: int| 0 <= j < fs.len() implies fs[j].name@ != name by {
                        if j < fs.len() - 1 {
                            assert(fs[j] == fs.drop_last()[j]);
                        }
                    }
                },
            }
        }
    }
}

// ---------------------------------------------------------------------------
// Listing
// ---------------------------------------------------------------------------

/// One entry of `list_apis`.
#[derive(Debug, Clone, PartialEq, Eq)]
pub enum ApiEntry {
    /// An API of the manifest with the number of its functions.
    Api {
        name: String,
        description: Option<String>,
        version: Option<String>,
        base_url: String,
        function_count: usize,
    },
    /// An upstream MCP server with the number of its tools.
    McpServer { name: String, description: Option<String>, tool_count: usize },
    /// The built-in globals with the number of those offered.
    Luau { function_count: usize },
}

/// The number of functions of an API.
pub open spec fn function_count(fs: Seq<FunctionDef>, api: Seq<char>) -> nat {
    fs.filter(|f: FunctionDef| f.api@ == api).len()
}

/// The built-in functions offered.
pub open spec fn offered_builtins(io_enabled: bool) -> Seq<BuiltinFunction> {
    builtin_table().filter(|f: BuiltinFunction| offered(io_enabled, f))
}

/// The entry of an API: its fields and its function count.
pub open spec fn api_entry_of(e: ApiEntry, a: ApiConfig, fs: Seq<FunctionDef>) -> bool {
    e matches ApiEntry::Api { name, description, version, base_url, function_count: n } && name
        == a.name && description == a.description && version == a.version && base_url
        == a.base_url && n == function_count(fs, a.name@)
}

/// Counts the functions of an API.
pub fn count_functions_of(fs: &Vec<FunctionDef>, api: &str) -> (r: usize)
    ensures
        r == function_count(fs@, api@),
{
    let ghost pred = |f: FunctionDef| f.api@ == api@;
    let mut n: usize = 0;
    let mut i: usize = 0;
    proof {
        assert(fs@.take(0).filter(pred) =~= Seq::<FunctionDef>::empty());
    }
    while i < fs.len()
        invariant
            i <= fs@.len(),
            pred == (|f: FunctionDef| f.api@ == api@),
            n == fs@.take(i as int).filter(pred).len(),
            n <= i,
        decreases fs@.len() - i,
    {
        proof {
            assert(fs@.take(i + 1).drop_last() =~= fs@.take(i as int));
            reveal(Seq::filter);
        }
        if str_eq(fs[i].api.as_str(), api) {
            n = n + 1;
        }
        i = i + 1;
    }
    assert(fs@.take(fs@.len() as int) =~= fs@);
    n
}

/// The entries of `list_apis`: every API with its function count, then
/// every upstream server with its tool count, then the built-in globals.
pub fn list_apis_impl(server: &CodeMcpServer) -> (r: Vec<ApiEntry>)
    ensures
        r@.len() == server.manifest.apis@.len() + server.manifest.mcp_servers@.len() + 1,
        forall|i: int|
            0 <= i < server.manifest.apis@.len() ==> api_entry_of(
                #[trigger] r@[i],
                server.manifest.apis@[i],
                server.manifest.functions@,
            ),
        forall|j: int|
            0 <= j < server.manifest.mcp_servers@.len() ==> {
                let s = server.manifest.mcp_servers@[j];
                #[trigger] r@[server.manifest.apis@.len() + j] == ApiEntry::McpServer {
                    name: s.name,
                    description: s.description,
                    tool_count: s.tools@.len() as usize,
                }
            },
        r@.last() == (ApiEntry::Luau {
            function_count: offered_builtins(server.io_enabled).len() as usize,
        }),
{
    let m = &server.manifest;
    let mut r: Vec<ApiEntry> = Vec::new();
    let mut i: usize = 0;
    while i < m.apis.len()
        invariant
            i <= m.apis@.len(),
            *m == server.manifest,
            r@.len() == i,
            forall|k: int|
                0 <= k < i ==> api_entry_of(#[trigger] r@[k], m.apis@[k], m.functions@),
        decreases m.apis@.len() - i,
    {
        let a = &m.apis[i];
        let n = count_functions_of(&m.functions, a.name.as_str());
        r.push(
            ApiEntry::Api {
                name: a.name.clone(),
                description: copy_opt_string(&a.description),
                version: copy_opt_string(&a.version),
                base_url: a.base_url.clone(),
                function_count: n,
            },
        );
        i = i + 1;
    }
    let mut j: usize = 0;
    while j < m.mcp_servers.len()
        invariant
            j <= m.mcp_servers@.len(),
            *m == server.manifest,
            r@.len() == m.apis@.len() + j,
            forall|k: int|
                0 <= k < m.apis@.len() ==> api_entry_of(#[trigger] r@[k], m.apis@[k], m.functions@),
            forall|k: int|
                0 <= k < j ==> {
                    let s = m.mcp_servers@[k];
                    #[trigger] r@[m.apis@.len() + k] == ApiEntry::McpServer {
                        name: s.name,
                        description: s.description,
                        tool_count: s.tools@.len() as usize,
                    }
                },
        decreases m.mcp_servers@.len() - j,
    {
        let s = &m.mcp_servers[j];
        r.push(
            ApiEntry::McpServer {
                name: s.name.clone(),
                description: copy_opt_string(&s.description),
                tool_count: s.tools.len(),
            },
        );
        j = j + 1;
    }
    let b = builtin_functions(server.io_enabled);
    r.push(ApiEntry::Luau { function_count: b.len() });
    r
}

/// One entry of `list_functions`.
#[derive(Debug, Clone, PartialEq, Eq)]
pub enum FunctionEntry {
    /// A function of an API.
    Function {
        name: String,
        summary: Option<String>,
        api: String,
        tag: Option<String>,
        deprecated: bool,
    },
    /// A tool of an upstream server, listed under the server's name.
    McpTool { name: String, summary: Option<String>, server: String },
    /// A built-in global, listed under `luau`.
    Builtin { name: &'static str, summary: &'static str },
}

/// A function passes the API and tag filters.
pub open spec fn function_selected(f: FunctionDef, api: Option<Seq<char>>, tag: Option<Seq<char>>)
    -> bool {
    &&& (api matches Some(a) ==> f.api@ == a)
    &&& (tag matches Some(t) ==> (f.tag matches Some(ft) && ft@ == t))
}

/// The entry of a function.
pub open spec fn function_entry(f: FunctionDef) -> FunctionEntry {
    FunctionEntry::Function {
        name: f.name,
        summary: f.summary,
        api: f.api,
        tag: f.tag,
        deprecated: f.deprecated,
    }
}

/// The entries of the tools of a server.
pub open spec fn tool_entries(s: McpServerEntry) -> Seq<FunctionEntry> {
    s.tools@.map_values(
        |t: McpToolDef| FunctionEntry::McpTool { name: t.name, summary: t.description, server: s.name },
    )
}

/// The entries of the tools of the servers that pass the API filter.
pub open spec fn server_tool_entries(servers: Seq<McpServerEntry>, api: Option<Seq<char>>) -> Seq<
    FunctionEntry,
>
    decreases servers.len(),
{
    if servers.len() == 0 {
        Seq::empty()
    } else if api matches Some(a) && servers.last().name@ != a {
        server_tool_entries(servers.drop_last(), api)
    } else {
        server_tool_entries(servers.drop_last(), api) + tool_entries(servers.last())
    }
}

/// The entries of the built-in globals offered.
pub open spec fn builtin_entries(io_enabled: bool) -> Seq<FunctionEntry> {
    offered_builtins(io_enabled).map_values(
        |b: BuiltinFunction| FunctionEntry::Builtin { name: b.name, summary: b.summary },
    )
}

/// The entries of `list_functions`: the functions that pass the filters;
/// without a tag filter also the tools of the servers that pass the API
/// filter, and the built-in globals when the API filter is absent or `luau`.
pub open spec fn function_listing(
    m: Manifest,
    io_enabled: bool,
    api: Option<Seq<char>>,
    tag: Option<Seq<char>>,
) -> Seq<FunctionEntry> {
    m.functions@.filter(|f: FunctionDef| function_selected(f, api, tag)).map_values(
        |f: FunctionDef| function_entry(f),
    ) + if tag is None {
        server_tool_entries(m.mcp_servers@, api) + if api is None || api == Some("luau"@) {
            builtin_entries(io_enabled)
        } else {
            Seq::empty()
        }
    } else {
        Seq::empty()
    }
}

/// An optional string slice by its text.
pub open spec fn opt_text(o: Option<&str>) -> Option<Seq<char>> {
    match o {
        Some(s) => Some(s@),
        None => None,
    }
}

fn selected(f: &FunctionDef, api: Option<&str>, tag: Option<&str>) -> (r: bool)
    ensures
        r == function_selected(*f, opt_text(api), opt_text(tag)),
{
    if let Some(a) = api {
        if !str_eq(f.api.as_str(), a) {
            return false;
        }
    }
    match tag {
        None => true,
        Some(t) => match &f.tag {
            Some(ft) => str_eq(ft.as_str(), t),
            None => false,
        },
    }
}

fn push_tool_entries(r: &mut Vec<FunctionEntry>, s: &McpServerEntry)
    ensures
        final(r)@ == old(r)@ + tool_entries(*s),
{
    let ghost start = r@;
    let ts = &s.tools;
    let mut k: usize = 0;
    while k < ts.len()
        invariant
            k <= ts@.len(),
            *ts == s.tools,
            r@ == start + tool_entries(*s).take(k as int),
        decreases ts@.len() - k,
    {
        let t = &ts[k];
        r.push(
            FunctionEntry::McpTool {
                name: t.name.clone(),
                summary: copy_opt_string(&t.description),
                server: s.name.clone(),
            },
        );
        assert(tool_entries(*s).take(k + 1) =~= tool_entries(*s).take(k as int).push(
            tool_entries(*s)[k as int],
        ));
        k = k + 1;
    }
    assert(tool_entries(*s).take(ts@.len() as int) =~= tool_entries(*s));
}

/// The entry under which a server's tool is listed.
pub open spec fn tool_listing_entry(s: McpServerEntry, t: McpToolDef) -> FunctionEntry {
    FunctionEntry::McpTool { name: t.name, summary: t.description, server: s.name }
}

proof fn lemma_server_tool_listed(servers: Seq<McpServerEntry>, api: Option<Seq<char>>, k: int, t: int) -> (idx: int)
    requires
        0 <= k < servers.len(),
        0 <= t < servers[k].tools@.len(),
        api matches Some(a) ==> servers[k].name@ == a,
    ensures
        0 <= idx < server_tool_entries(servers, api).len(),
        server_tool_entries(servers, api)[idx] == tool_listing_entry(servers[k], servers[k].tools@[t]),
    decreases servers.len(),
{
    let n = servers.len() - 1;
    let init = servers.drop_last();
    if k == n {
        let before = server_tool_entries(init, api);
        assert(server_tool_entries(servers, api) == before + tool_entries(servers[n]));
        before.len() + t
    } else {
        assert(init[k] == servers[k]);
        let i = lemma_server_tool_listed(init, api, k, t);
        i
    }
}

proof fn lemma_server_tools_filtered(servers: Seq<McpServerEntry>, a: Seq<char>, i: int)
    requires
        0 <= i < server_tool_entries(servers, Some(a)).len(),
    ensures
        server_tool_entries(servers, Some(a))[i] matches FunctionEntry::McpTool { server, .. } && server@ == a,
    decreases servers.len(),
{
    let init = servers.drop_last();
    let before = server_tool_entries(init, Some(a));
    if servers.last().name@ != a {
        lemma_server_tools_filtered(init, a, i);
    } else if i < before.len() {
        lemma_server_tools_filtered(init, a, i);
    }
}

/// Without a tag filter, `list_functions` lists every tool of every
/// upstream server that the API filter names (every server when there is no
/// filter), under that server's name; with an API filter, every tool it
/// lists belongs to the server of that name.
pub proof fn law_listing_shows_server_tools(m: Manifest, io_enabled: bool, api: Option<Seq<char>>, k: int, t: int)
    requires
        0 <= k < m.mcp_servers@.len(),
        0 <= t < m.mcp_servers@[k].tools@.len(),
        api matches Some(a) ==> m.mcp_servers@[k].name@ == a,
    ensures
        function_listing(m, io_enabled, api, None).contains(
            tool_listing_entry(m.mcp_servers@[k], m.mcp_servers@[k].tools@[t]),
        ),
        api matches Some(a) ==> forall|i: int|
            0 <= i < function_listing(m, io_enabled, api, None).len()
                && (#[trigger] function_listing(m, io_enabled, api, None)[i]) is McpTool
                ==> function_listing(m, io_enabled, api, None)[i]->McpTool_server@ == a,
{
    let fns = m.functions@.filter(|f: FunctionDef| function_selected(f, api, None)).map_values(
        |f: FunctionDef| function_entry(f),
    );
    let tools = server_tool_entries(m.mcp_servers@, api);
    let builtins = if api is None || api == Some("luau"@) {
        builtin_entries(io_enabled)
    } else {
        Seq::empty()
    };
    let listing = function_listing(m, io_enabled, api, None);
    assert(listing == fns + (tools + builtins));
    let idx = lemma_server_tool_listed(m.mcp_servers@, api, k, t);
    assert(listing[fns.len() + idx] == tools[idx]);
    if let Some(a) = api {
        assert forall|i: int|
            0 <= i < listing.len() && (#[trigger] listing[i]) is McpTool implies listing[i]->McpTool_server@ == a by {
            if i < fns.len() {
                assert(listing[i] == fns[i]);
            } else if i < fns.len() + tools.len() {
                assert(listing[i] == tools[i - fns.len()]);
                lemma_server_tools_filtered(m.mcp_servers@, a, i - fns.len());
            } else {
                assert(listing[i] == builtins[i - fns.len() - tools.len()]);
            }
        }
    }
}

/// `list_functions` lists every function of the manifest that the filters
/// admit (its API is the API filter, its tag the tag filter, where given),
/// with its name, summary, API, tag and deprecation.
pub proof fn law_listing_shows_selected_functions(
    m: Manifest,
    io_enabled: bool,
    api: Option<Seq<char>>,
    tag: Option<Seq<char>>,
    k: int,
)
    requires
        0 <= k < m.functions@.len(),
        api matches Some(a) ==> m.functions@[k].api@ == a,
        tag matches Some(t) ==> (m.functions@[k].tag matches Some(ft) && ft@ == t),
    ensures
        ({
            let f = m.functions@[k];
            function_listing(m, io_enabled, api, tag).contains(
                FunctionEntry::Function {
                    name: f.name,
                    summary: f.summary,
                    api: f.api,
                    tag: f.tag,
                    deprecated: f.deprecated,
                },
            )
        }),
{
    let pred = |f: FunctionDef| function_selected(f, api, tag);
    let fs = m.functions@;
    fs.lemma_filter_contains(pred, k);
    let sel = fs.filter(pred);
    let j = choose|j: int| 0 <= j < sel.len() && sel[j] == fs[k];
    let fns = sel.map_values(|f: FunctionDef| function_entry(f));
    let listing = function_listing(m, io_enabled, api, tag);
    assert(listing[j] == fns[j]);
}

/// The entries of `list_functions` (see `function_listing`).
pub fn list_functions_impl(server: &CodeMcpServer, api: Option<&str>, tag: Option<&str>) -> (r: Vec<
    FunctionEntry,
>)
    ensures
        r@ == function_listing(server.manifest, server.io_enabled, opt_text(api), opt_text(tag)),
{
    let m = &server.manifest;
    let fs = &m.functions;
    let ghost pred = |f: FunctionDef| function_selected(f, opt_text(api), opt_text(tag));
    let ghost ent = |f: FunctionDef| function_entry(f);
    let mut r: Vec<FunctionEntry> = Vec::new();
    let mut i: usize = 0;
    proof {
        assert(fs@.take(0).filter(pred) =~= Seq::<FunctionDef>::empty());
        assert(r@ =~= fs@.take(0).filter(pred).map_values(ent));
    }
    while i < fs.len()
        invariant
            i <= fs@.len(),
            *fs == server.manifest.functions,
            pred == (|f: FunctionDef| function_selected(f, opt_text(api), opt_text(tag))),
            ent == (|f: FunctionDef| function_entry(f)),
            r@ == fs@.take(i as int).filter(pred).map_values(ent),
        decreases fs@.len() - i,
    {
        proof {
            assert(fs@.take(i + 1).drop_last() =~= fs@.take(i as int));
            reveal(Seq::filter);
        }
        let f = &fs[i];
        if selected(f, api, tag) {
            let ghost before = r@;
            r.push(
                FunctionEntry::Function {
                    name: f.name.clone(),
                    summary: copy_opt_string(&f.summary),
                    api: f.api.clone(),
                    tag: copy_opt_string(&f.tag),
                    deprecated: f.deprecated,
                },
            );
            assert(fs@.take(i + 1).filter(pred) == fs@.take(i as int).filter(pred).push(fs@[i as int]));
            assert(r@ =~= fs@.take(i + 1).filter(pred).map_values(ent));
        } else {
            assert(fs@.take(i + 1).filter(pred) == fs@.take(i as int).filter(pred));
        }
        i = i + 1;
    }
    assert(fs@.take(fs@.len() as int) =~= fs@);
    if tag.is_none() {
        let ghost head = r@;
        let ss = &m.mcp_servers;
        let mut j: usize = 0;
        proof {
            assert(ss@.take(0) =~= Seq::<McpServerEntry>::empty());
            assert(r@ =~= head + server_tool_entries(ss@.take(0), opt_text(api)));
        }
        while j < ss.len()
            invariant
                j <= ss@.len(),
                *ss == server.manifest.mcp_servers,
                r@ == head + server_tool_entries(ss@.take(j as int), opt_text(api)),
            decreases ss@.len() - j,
        {
            proof {
                assert(ss@.take(j + 1).drop_last() =~= ss@.take(j as int));
                assert(ss@.take(j + 1).last() == ss@[j as int]);
            }
            let s = &ss[j];
            let skip = match api {
                Some(a) => !str_eq(s.name.as_str(), a),
                None => false,
            };
            if !skip {
                push_tool_entries(&mut r, s);
                assert(r@ =~= head + server_tool_entries(ss@.take(j + 1), opt_text(api)));
            }
            j = j + 1;
        }
        assert(ss@.take(ss@.len() as int) =~= ss@);
        let with_builtins = match api {
            None => true,
            Some(a) => str_eq(a, "luau"),
        };
        if with_builtins {
            let bs = builtin_functions(server.io_enabled);
            let ghost mid = r@;
            let mut k: usize = 0;
            while k < bs.len()
                invariant
                    k <= bs@.len(),
                    bs@ == offered_builtins(server.io_enabled),
                    r@ == mid + builtin_entries(server.io_enabled).take(k as int),
                decreases bs@.len() - k,
            {
                r.push(FunctionEntry::Builtin { name: bs[k].name, summary: bs[k].summary });
                assert(builtin_entries(server.io_enabled).take(k + 1) =~= builtin_entries(
                    server.io_enabled,
                ).take(k as int).push(builtin_entries(server.io_enabled)[k as int]));
                k = k + 1;
            }
            assert(builtin_entries(server.io_enabled).take(bs@.len() as int) =~= builtin_entries(
                server.io_enabled,
            ));
            assert(r@ =~= function_listing(
                server.manifest,
                server.io_enabled,
                opt_text(api),
                opt_text(tag),
            ));
        } else {
            assert(r@ =~= function_listing(
                server.manifest,
                server.io_enabled,
                opt_text(api),
                opt_text(tag),
            ));
        }
    } else {
        assert(r@ =~= function_listing(
            server.manifest,
            server.io_enabled,
            opt_text(api),
            opt_text(tag),
        ));
    }
    r
}

// ---------------------------------------------------------------------------
// Search
// ---------------------------------------------------------------------------

/// One search result.
#[derive(Debug, Clone, PartialEq, Eq)]
pub enum SearchHit {
    Function { name: String, api: String, context: Vec<String> },
    Schema { name: String, context: Vec<String> },
    McpTool { name: String, server: String, context: Vec<String> },
    Builtin { name: &'static str, context: Vec<String> },
}

/// A search result as text.
pub enum Hit {
    Function { name: Seq<char>, api: Seq<char>, context: Seq<Seq<char>> },
    Schema { name: Seq<char>, context: Seq<Seq<char>> },
    McpTool { name: Seq<char>, server: Seq<char>, context: Seq<Seq<char>> },
    Builtin { name: Seq<char>, context: Seq<Seq<char>> },
}

impl View for SearchHit {
    type V = Hit;

    open spec fn view(&self) -> Hit {
        match self {
            SearchHit::Function { name, api, context } => Hit::Function {
                name: name@,
                api: api@,
                context: views(context@),
            },
            SearchHit::Schema { name, context } => Hit::Schema { name: name@, context: views(context@) },
            SearchHit::McpTool { name, server, context } => Hit::McpTool {
                name: name@,
                server: server@,
                context: views(context@),
            },
            SearchHit::Builtin { name, context } => Hit::Builtin {
                name: name@,
                context: views(context@),
            },
        }
    }
}

/// The results as text.
pub open spec fn hit_views(v: Seq<SearchHit>) -> Seq<Hit> {
    v.map_values(|h: SearchHit| h@)
}

/// `t` matches the lowercased query `q`, ignoring case.
pub open spec fn hit(t: Seq<char>, q: Seq<char>) -> bool {
    contains_sub(lowercase(t), q)
}

/// A context line, when the condition holds.
pub open spec fn line_if(cond: bool, l: Seq<char>) -> Seq<Seq<char>> {
    if cond {
        seq![l]
    } else {
        Seq::empty()
    }
}

/// A context line for an optional text that matches.
pub open spec fn opt_line(label: Seq<char>, o: Option<String>, q: Seq<char>) -> Seq<Seq<char>> {
    match o {
        Some(t) => line_if(hit(t@, q), label + t@),
        None => Seq::empty(),
    }
}

/// Context lines for the matching visible parameters (frozen ones are never
/// searched).
pub open spec fn param_lines(ps: Seq<ParamDef>, q: Seq<char>) -> Seq<Seq<char>>
    decreases ps.len(),
{
    if ps.len() == 0 {
        Seq::empty()
    } else {
        param_lines(ps.drop_last(), q) + line_if(
            ps.last().frozen_value is None && hit(ps.last().name@, q),
            "parameter: "@ + ps.last().name@,
        )
    }
}

/// Where a function matches: its name, summary, description and visible
/// parameters.
pub open spec fn function_context(f: FunctionDef, q: Seq<char>) -> Seq<Seq<char>> {
    line_if(hit(f.name@, q), "name: "@ + f.name@) + opt_line("summary: "@, f.summary, q) + opt_line(
        "description: "@,
        f.description,
        q,
    ) + param_lines(f.parameters@, q)
}

proof fn lemma_frozen_params_unsearched(ps: Seq<ParamDef>, q: Seq<char>)
    ensures
        param_lines(ps, q) == param_lines(visible_only(ps), q),
    decreases ps.len(),
{
    reveal(Seq::filter);
    if ps.len() == 0 {
        assert(visible_only(ps) =~= ps);
    } else {
        lemma_frozen_params_unsearched(ps.drop_last(), q);
        let v = visible_only(ps.drop_last());
        assert(visible_only(ps) == if is_visible(ps.last()) {
            v.push(ps.last())
        } else {
            v
        });
        if is_visible(ps.last()) {
            let w = v.push(ps.last());
            assert(w.drop_last() =~= v);
        } else {
            assert(line_if(false, "parameter: "@ + ps.last().name@) =~= Seq::<Seq<char>>::empty());
            assert(param_lines(ps, q) =~= param_lines(ps.drop_last(), q));
        }
    }
}

/// Frozen parameters are never searched: a function matches a query
/// exactly as the same function with only its visible parameters does.
pub proof fn law_frozen_params_unsearched(f: FunctionDef, g: FunctionDef, q: Seq<char>)
    requires
        g == (FunctionDef { parameters: g.parameters, ..f }),
        g.parameters@ == visible_only(f.parameters@),
    ensures
        function_context(f, q) == function_context(g, q),
{
    lemma_frozen_params_unsearched(f.parameters@, q);
}

/// The matching functions, in order.
pub open spec fn function_hits(fs: Seq<FunctionDef>, q: Seq<char>) -> Seq<Hit>
    decreases fs.len(),
{
    if fs.len() == 0 {
        Seq::empty()
    } else if function_context(fs.last(), q).len() > 0 {
        function_hits(fs.drop_last(), q).push(
            Hit::Function {
                name: fs.last().name@,
                api: fs.last().api@,
                context: function_context(fs.last(), q),
            },
        )
    } else {
        function_hits(fs.drop_last(), q)
    }
}

/// Context lines for the matching fields of a schema.
pub open spec fn field_lines(fs: Seq<FieldDef>, q: Seq<char>) -> Seq<Seq<char>>
    decreases fs.len(),
{
    if fs.len() == 0 {
        Seq::empty()
    } else {
        field_lines(fs.drop_last(), q) + line_if(hit(fs.last().name@, q), "field: "@ + fs.last().name@)
    }
}

/// Where a schema matches: its name, description and field names.
pub open spec fn schema_context(s: SchemaDef, q: Seq<char>) -> Seq<Seq<char>> {
    line_if(hit(s.name@, q), "name: "@ + s.name@) + opt_line("description: "@, s.description, q)
        + field_lines(s.fields@, q)
}

/// The matching schemas, in order.
pub open spec fn schema_hits(ss: Seq<SchemaDef>, q: Seq<char>) -> Seq<Hit>
    decreases ss.len(),
{
    if ss.len() == 0 {
        Seq::empty()
    } else if schema_context(ss.last(), q).len() > 0 {
        schema_hits(ss.drop_last(), q).push(
            Hit::Schema { name: ss.last().name@, context: schema_context(ss.last(), q) },
        )
    } else {
        schema_hits(ss.drop_last(), q)
    }
}

/// Context lines for the matching parameters of a tool.
pub open spec fn tool_param_lines(ps: Seq<crate::manifest::McpParamDef>, q: Seq<char>) -> Seq<
    Seq<char>,
>
    decreases ps.len(),
{
    if ps.len() == 0 {
        Seq::empty()
    } else {
        tool_param_lines(ps.drop_last(), q) + line_if(
            hit(ps.last().name@, q),
            "parameter: "@ + ps.last().name@,
        )
    }
}

/// `server.tool`.
pub open spec fn full_tool_name(server: Seq<char>, t: McpToolDef) -> Seq<char> {
    server + seq!['.'] + t.name@
}

/// Where a tool matches: its full or plain name, description and
/// parameters.
pub open spec fn tool_context(server: Seq<char>, t: McpToolDef, q: Seq<char>) -> Seq<Seq<char>> {
    line_if(
        hit(full_tool_name(server, t), q) || hit(t.name@, q),
        "name: "@ + full_tool_name(server, t),
    ) + opt_line("description: "@, t.description, q) + tool_param_lines(t.params@, q)
}

/// The matching tools of one server, in order.
pub open spec fn tool_hits(server: Seq<char>, ts: Seq<McpToolDef>, q: Seq<char>) -> Seq<Hit>
    decreases ts.len(),
{
    if ts.len() == 0 {
        Seq::empty()
    } else if tool_context(server, ts.last(), q).len() > 0 {
        tool_hits(server, ts.drop_last(), q).push(
            Hit::McpTool {
                name: full_tool_name(server, ts.last()),
                server,
                context: tool_context(server, ts.last(), q),
            },
        )
    } else {
        tool_hits(server, ts.drop_last(), q)
    }
}

/// The matching tools of all servers, in order.
pub open spec fn server_hits(servers: Seq<McpServerEntry>, q: Seq<char>) -> Seq<Hit>
    decreases servers.len(),
{
    if servers.len() == 0 {
        Seq::empty()
    } else {
        server_hits(servers.drop_last(), q) + tool_hits(
            servers.last().name@,
            servers.last().tools@,
            q,
        )
    }
}

/// Where a built-in matches: its name, its summary, its annotation.
pub open spec fn builtin_context(b: BuiltinFunction, q: Seq<char>) -> Seq<Seq<char>> {
    line_if(hit(b.name@, q), "name: "@ + b.name@) + line_if(hit(b.summary@, q), "summary: "@ + b.summary@)
        + line_if(hit(b.annotation@, q), "annotation match"@)
}

/// The matching built-ins, in order.
pub open spec fn builtin_hits(bs: Seq<BuiltinFunction>, q: Seq<char>) -> Seq<Hit>
    decreases bs.len(),
{
    if bs.len() == 0 {
        Seq::empty()
    } else if builtin_context(bs.last(), q).len() > 0 {
        builtin_hits(bs.drop_last(), q).push(
            Hit::Builtin { name: bs.last().name@, context: builtin_context(bs.last(), q) },
        )
    } else {
        builtin_hits(bs.drop_last(), q)
    }
}

/// All results of a search for the lowercased query `q`: functions, then
/// schemas, then tools of upstream servers, then built-ins.
pub open spec fn search(m: Manifest, io_enabled: bool, q: Seq<char>) -> Seq<Hit> {
    function_hits(m.functions@, q) + schema_hits(m.schemas@, q) + server_hits(m.mcp_servers@, q)
        + builtin_hits(offered_builtins(io_enabled), q)
}

fn push_if_hit(ctx: &mut Vec<String>, label: &str, text: &str, q: &str)
    ensures
        views(final(ctx)@) == views(old(ctx)@) + line_if(hit(text@, q@), label@ + text@),
{
    let lower = to_lowercase(text);
    if str_contains(lower.as_str(), q) {
        let mut l = owned(label);
        push_str(&mut l, text);
        crate::text::push_line(ctx, l);
    } else {
        assert(views(ctx@) =~= views(ctx@) + Seq::<Seq<char>>::empty());
    }
}

fn push_opt_if_hit(ctx: &mut Vec<String>, label: &str, text: &Option<String>, q: &str)
    ensures
        views(final(ctx)@) == views(old(ctx)@) + opt_line(label@, *text, q@),
{
    match text {
        Some(t) => push_if_hit(ctx, label, t.as_str(), q),
        None => {
            assert(views(ctx@) =~= views(ctx@) + Seq::<Seq<char>>::empty());
        },
    }
}

fn function_context_of(f: &FunctionDef, q: &str) -> (r: Vec<String>)
    ensures
        views(r@) == function_context(*f, q@),
{
    let mut ctx: Vec<String> = Vec::new();
    assert(views(ctx@) =~= Seq::<Seq<char>>::empty());
    push_if_hit(&mut ctx, "name: ", f.name.as_str(), q);
    push_opt_if_hit(&mut ctx, "summary: ", &f.summary, q);
    push_opt_if_hit(&mut ctx, "description: ", &f.description, q);
    let ghost head = views(ctx@);
    let ps = &f.parameters;
    let mut i: usize = 0;
    proof {
        assert(ps@.take(0) =~= Seq::<ParamDef>::empty());
    }
    while i < ps.len()
        invariant
            i <= ps@.len(),
            *ps == f.parameters,
            views(ctx@) == head + param_lines(ps@.take(i as int), q@),
        decreases ps@.len() - i,
    {
        proof {
            assert(ps@.take(i + 1).drop_last() =~= ps@.take(i as int));
            assert(ps@.take(i + 1).last() == ps@[i as int]);
        }
        let p = &ps[i];
        if p.frozen_value.is_none() {
            push_if_hit(&mut ctx, "parameter: ", p.name.as_str(), q);
        }
        assert(views(ctx@) =~= head + param_lines(ps@.take(i + 1), q@));
        i = i + 1;
    }
    assert(ps@.take(ps@.len() as int) =~= ps@);
    ctx
}

fn schema_context_of(s: &SchemaDef, q: &str) -> (r: Vec<String>)
    ensures
        views(r@) == schema_context(*s, q@),
{
    let mut ctx: Vec<String> = Vec::new();
    assert(views(ctx@) =~= Seq::<Seq<char>>::empty());
    push_if_hit(&mut ctx, "name: ", s.name.as_str(), q);
    push_opt_if_hit(&mut ctx, "description: ", &s.description, q);
    let ghost head = views(ctx@);
    let fs = &s.fields;
    let mut i: usize = 0;
    proof {
        assert(fs@.take(0) =~= Seq::<FieldDef>::empty());
    }
    while i < fs.len()
        invariant
            i <= fs@.len(),
            *fs == s.fields,
            views(ctx@) == head + field_lines(fs@.take(i as int), q@),
        decreases fs@.len() - i,
    {
        proof {
            assert(fs@.take(i + 1).drop_last() =~= fs@.take(i as int));
            assert(fs@.take(i + 1).last() == fs@[i as int]);
        }
        push_if_hit(&mut ctx, "field: ", fs[i].name.as_str(), q);
        assert(views(ctx@) =~= head + field_lines(fs@.take(i + 1), q@));
        i = i + 1;
    }
    assert(fs@.take(fs@.len() as int) =~= fs@);
    ctx
}

fn tool_context_of(server: &str, t: &McpToolDef, q: &str) -> (r: (String, Vec<String>))
    ensures
        r.0@ == full_tool_name(server@, *t),
        views(r.1@) == tool_context(server@, *t, q@),
{
    let mut full = owned(server);
    push_char(&mut full, '.');
    push_str(&mut full, t.name.as_str());
    assert(full@ =~= full_tool_name(server@, *t));
    let mut ctx: Vec<String> = Vec::new();
    assert(views(ctx@) =~= Seq::<Seq<char>>::empty());
    let lf = to_lowercase(full.as_str());
    let ln = to_lowercase(t.name.as_str());
    if str_contains(lf.as_str(), q) || str_contains(ln.as_str(), q) {
        let mut l = owned("name: ");
        push_str(&mut l, full.as_str());
        crate::text::push_line(&mut ctx, l);
        assert(views(ctx@) =~= seq![l@]);
    }
    assert(views(ctx@) =~= line_if(
        hit(full_tool_name(server@, *t), q@) || hit(t.name@, q@),
        "name: "@ + full_tool_name(server@, *t),
    ));
    push_opt_if_hit(&mut ctx, "description: ", &t.description, q);
    let ghost head = views(ctx@);
    let ps = &t.params;
    let mut i: usize = 0;
    proof {
        assert(ps@.take(0) =~= Seq::<crate::manifest::McpParamDef>::empty());
    }
    while i < ps.len()
        invariant
            i <= ps@.len(),
            *ps == t.params,
            views(ctx@) == head + tool_param_lines(ps@.take(i as int), q@),
        decreases ps@.len() - i,
    {
        proof {
            assert(ps@.take(i + 1).drop_last() =~= ps@.take(i as int));
            assert(ps@.take(i + 1).last() == ps@[i as int]);
        }
        push_if_hit(&mut ctx, "parameter: ", ps[i].name.as_str(), q);
        assert(views(ctx@) =~= head + tool_param_lines(ps@.take(i + 1), q@));
        i = i + 1;
    }
    assert(ps@.take(ps@.len() as int) =~= ps@);
    (full, ctx)
}

fn builtin_context_of(b: &BuiltinFunction, q: &str) -> (r: Vec<String>)
    ensures
        views(r@) == builtin_context(*b, q@),
{
    let mut ctx: Vec<String> = Vec::new();
    assert(views(ctx@) =~= Seq::<Seq<char>>::empty());
    push_if_hit(&mut ctx, "name: ", b.name, q);
    push_if_hit(&mut ctx, "summary: ", b.summary, q);
    let la = to_lowercase(b.annotation);
    let ghost before = views(ctx@);
    if str_contains(la.as_str(), q) {
        crate::text::push_line(&mut ctx, owned("annotation match"));
    }
    assert(views(ctx@) =~= before + line_if(hit(b.annotation@, q@), "annotation match"@));
    ctx
}

/// Two lists of functions that differ only in frozen parameters.
pub open spec fn same_but_frozen(fs: Seq<FunctionDef>, gs: Seq<FunctionDef>) -> bool {
    &&& fs.len() == gs.len()
    &&& forall|i: int|
        0 <= i < fs.len() ==> (#[trigger] gs[i]) == (FunctionDef { parameters: gs[i].parameters, ..fs[i] })
            && gs[i].parameters@ == visible_only(fs[i].parameters@)
}

proof fn lemma_function_hits_unfrozen(fs: Seq<FunctionDef>, gs: Seq<FunctionDef>, q: Seq<char>)
    requires
        same_but_frozen(fs, gs),
    ensures
        function_hits(fs, q) == function_hits(gs, q),
    decreases fs.len(),
{
    if fs.len() > 0 {
        let n = fs.len() - 1;
        assert(gs[n] == (FunctionDef { parameters: gs[n].parameters, ..fs[n] }));
        law_frozen_params_unsearched(fs[n], gs[n], q);
        assert(same_but_frozen(fs.drop_last(), gs.drop_last())) by {
            assert forall|i: int| 0 <= i < fs.drop_last().len() implies (#[trigger] gs.drop_last()[i])
                == (FunctionDef { parameters: gs.drop_last()[i].parameters, ..fs.drop_last()[i] })
                && gs.drop_last()[i].parameters@ == visible_only(fs.drop_last()[i].parameters@) by {
                assert(gs[i] == (FunctionDef { parameters: gs[i].parameters, ..fs[i] }));
            }
        }
        lemma_function_hits_unfrozen(fs.drop_last(), gs.drop_last(), q);
    }
}

/// Frozen parameters never change a search: a manifest finds the same hits
/// as the same manifest whose functions keep only their visible parameters.
pub proof fn law_search_ignores_frozen_params(m: Manifest, n: Manifest, io_enabled: bool, q: Seq<char>)
    requires
        n == (Manifest { functions: n.functions, ..m }),
        same_but_frozen(m.functions@, n.functions@),
    ensures
        search(m, io_enabled, q) == search(n, io_enabled, q),
{
    lemma_function_hits_unfrozen(m.functions@, n.functions@, q);
}

/// Search ignores the case of ASCII queries: two ASCII queries that differ
/// only in the case of their letters find the same hits.
pub proof fn law_search_ignores_ascii_case(m: Manifest, io_enabled: bool, q1: Seq<char>, q2: Seq<char>)
    requires
        all_ascii(q1),
        all_ascii(q2),
        q1.len() == q2.len(),
        forall|i: int| 0 <= i < q1.len() ==> ascii_lower(#[trigger] q1[i]) == ascii_lower(q2[i]),
    ensures
        search(m, io_enabled, lowercase(q1)) == search(m, io_enabled, lowercase(q2)),
{
    assert(lowercase(q1) =~= lowercase(q2));
}

/// Searches all documentation for `query`, ignoring case (see `search`).
pub fn search_docs_impl(server: &CodeMcpServer, query: &str) -> (r: Vec<SearchHit>)
    ensures
        hit_views(r@) == search(server.manifest, server.io_enabled, lowercase(query@)),
{
    let ql = to_lowercase(query);
    let q = ql.as_str();
    let m = &server.manifest;
    let mut r: Vec<SearchHit> = Vec::new();
    // functions
    let fs = &m.functions;
    let mut i: usize = 0;
    proof {
        assert(fs@.take(0) =~= Seq::<FunctionDef>::empty());
        assert(hit_views(r@) =~= Seq::<Hit>::empty());
    }
    while i < fs.len()
        invariant
            i <= fs@.len(),
            *fs == server.manifest.functions,
            q@ == lowercase(query@),
            hit_views(r@) == function_hits(fs@.take(i as int), q@),
        decreases fs@.len() - i,
    {
        proof {
            assert(fs@.take(i + 1).drop_last() =~= fs@.take(i as int));
            assert(fs@.take(i + 1).last() == fs@[i as int]);
        }
        let f = &fs[i];
        let ctx = function_context_of(f, q);
        if ctx.len() > 0 {
            let ghost before = hit_views(r@);
            r.push(SearchHit::Function { name: f.name.clone(), api: f.api.clone(), context: ctx });
            assert(hit_views(r@) =~= before.push(r@.last()@));
        }
        i = i + 1;
    }
    assert(fs@.take(fs@.len() as int) =~= fs@);
    // schemas
    let ghost h1 = hit_views(r@);
    let ss = &m.schemas;
    let mut k: usize = 0;
    proof {
        assert(ss@.take(0) =~= Seq::<SchemaDef>::empty());
    }
    while k < ss.len()
        invariant
            k <= ss@.len(),
            *ss == server.manifest.schemas,
            q@ == lowercase(query@),
            hit_views(r@) == h1 + schema_hits(ss@.take(k as int), q@),
        decreases ss@.len() - k,
    {
        proof {
            assert(ss@.take(k + 1).drop_last() =~= ss@.take(k as int));
            assert(ss@.take(k + 1).last() == ss@[k as int]);
        }
        let s = &ss[k];
        let ctx = schema_context_of(s, q);
        if ctx.len() > 0 {
            let ghost before = hit_views(r@);
            r.push(SearchHit::Schema { name: s.name.clone(), context: ctx });
            assert(hit_views(r@) =~= before.push(r@.last()@));
        }
        k = k + 1;
    }
    assert(ss@.take(ss@.len() as int) =~= ss@);
    // tools of upstream servers
    let ghost h2 = hit_views(r@);
    let ms = &m.mcp_servers;
    let mut j: usize = 0;
    proof {
        assert(ms@.take(0) =~= Seq::<McpServerEntry>::empty());
    }
    while j < ms.len()
        invariant
            j <= ms@.len(),
            *ms == server.manifest.mcp_servers,
            q@ == lowercase(query@),
            hit_views(r@) == h2 + server_hits(ms@.take(j as int), q@),
        decreases ms@.len() - j,
    {
        proof {
            assert(ms@.take(j + 1).drop_last() =~= ms@.take(j as int));
            assert(ms@.take(j + 1).last() == ms@[j as int]);
        }
        let s = &ms[j];
        let ghost h3 = hit_views(r@);
        let ts = &s.tools;
        let mut t: usize = 0;
        proof {
            assert(ts@.take(0) =~= Seq::<McpToolDef>::empty());
        }
        while t < ts.len()
            invariant
                t <= ts@.len(),
                *ts == s.tools,
                q@ == lowercase(query@),
                hit_views(r@) == h3 + tool_hits(s.name@, ts@.take(t as int), q@),
            decreases ts@.len() - t,
        {
            proof {
                assert(ts@.take(t + 1).drop_last() =~= ts@.take(t as int));
                assert(ts@.take(t + 1).last() == ts@[t as int]);
            }
            let (full, ctx) = tool_context_of(s.name.as_str(), &ts[t], q);
            if ctx.len() > 0 {
                let ghost before = hit_views(r@);
                r.push(SearchHit::McpTool { name: full, server: s.name.clone(), context: ctx });
                assert(hit_views(r@) =~= before.push(r@.last()@));
            }
            t = t + 1;
        }
        assert(ts@.take(ts@.len() as int) =~= ts@);
        j = j + 1;
    }
    assert(ms@.take(ms@.len() as int) =~= ms@);
    // built-ins
    let ghost h4 = hit_views(r@);
    let bs = builtin_functions(server.io_enabled);
    let mut b: usize = 0;
    proof {
        assert(bs@.take(0) =~= Seq::<BuiltinFunction>::empty());
    }
    while b < bs.len()
        invariant
            b <= bs@.len(),
            bs@ == offered_builtins(server.io_enabled),
            q@ == lowercase(query@),
            hit_views(r@) == h4 + builtin_hits(bs@.take(b as int), q@),
        decreases bs@.len() - b,
    {
        proof {
            assert(bs@.take(b + 1).drop_last() =~= bs@.take(b as int));
            assert(bs@.take(b + 1).last() == bs@[b as int]);
        }
        let ctx = builtin_context_of(&bs[b], q);
        if ctx.len() > 0 {
            let ghost before = hit_views(r@);
            r.push(SearchHit::Builtin { name: bs[b].name, context: ctx });
            assert(hit_views(r@) =~= before.push(r@.last()@));
        }
        b = b + 1;
    }
    assert(bs@.take(bs@.len() as int) =~= bs@);
    r
}

// ---------------------------------------------------------------------------
// Server description
// ---------------------------------------------------------------------------

/// How an API is summarised to clients: its name, and its description
/// after a colon when it has one.
pub open spec fn api_summary(a: ApiConfig) -> Seq<char> {
    match a.description {
        Some(d) => a.name@ + ": "@ + d@,
        None => a.name@,
    }
}

/// The server's description: the summaries of its APIs.
pub open spec fn server_description(apis: Seq<ApiConfig>) -> Seq<char> {
    "Scriptable SDK server for: "@ + join(apis.map_values(|a: ApiConfig| api_summary(a)), "; "@)
        + ". Write Luau scripts to chain multiple API calls in a single execution."@
}

/// The server's instructions: the names of its APIs and how to use the
/// tools.
pub open spec fn server_instructions(apis: Seq<ApiConfig>) -> Seq<char> {
    "This server provides a Luau SDK for the following APIs: "@ + join(
        apis.map_values(|a: ApiConfig| a.name@),
        ", "@,
    ) + ". Use list_apis to see available APIs, list_functions to browse SDK functions (optionally filtered by API or tag), get_function_docs for detailed type signatures and parameter docs, search_docs to find functions by keyword, and execute_script to run Luau scripts that chain multiple API calls together."@
}

impl CodeMcpServer {
    /// The description the server gives of itself when a client connects.
    pub fn server_description(&self) -> (r: String)
        ensures
            r@ == server_description(self.manifest.apis@),
    {
        let apis = &self.manifest.apis;
        let mut parts: Vec<String> = Vec::new();
        let mut i: usize = 0;
        while i < apis.len()
            invariant
                i <= apis@.len(),
                *apis == self.manifest.apis,
                views(parts@) =~= apis@.take(i as int).map_values(|a: ApiConfig| api_summary(a)),
            decreases apis@.len() - i,
        {
            let a = &apis[i];
            let mut s = a.name.clone();
            match &a.description {
                Some(d) => {
                    push_str(&mut s, ": ");
                    push_str(&mut s, d.as_str());
                },
                None => {},
            }
            let ghost before = parts@;
            parts.push(s);
            proof {
                assert(apis@.take(i + 1) =~= apis@.take(i as int).push(apis@[i as int]));
                assert(views(parts@) =~= views(before).push(s@));
            }
            i = i + 1;
        }
        assert(apis@.take(apis@.len() as int) =~= apis@);
        let joined = join_strings(&parts, "; ");
        let mut r = owned("Scriptable SDK server for: ");
        push_str(&mut r, joined.as_str());
        push_str(&mut r, ". Write Luau scripts to chain multiple API calls in a single execution.");
        r
    }

    /// The instructions the server gives to clients when they connect.
    pub fn server_instructions(&self) -> (r: String)
        ensures
            r@ == server_instructions(self.manifest.apis@),
    {
        let apis = &self.manifest.apis;
        let mut names: Vec<String> = Vec::new();
        let mut i: usize = 0;
        while i < apis.len()
            invariant
                i <= apis@.len(),
                *apis == self.manifest.apis,
                views(names@) =~= apis@.take(i as int).map_values(|a: ApiConfig| a.name@),
            decreases apis@.len() - i,
        {
            let ghost before = names@;
            names.push(apis[i].name.clone());
            proof {
                assert(apis@.take(i + 1) =~= apis@.take(i as int).push(apis@[i as int]));
                assert(views(names@) =~= views(before).push(apis@[i as int].name@));
            }
            i = i + 1;
        }
        assert(apis@.take(apis@.len() as int) =~= apis@);
        let joined = join_strings(&names, ", ");
        let mut r = owned("This server provides a Luau SDK for the following APIs: ");
        push_str(&mut r, joined.as_str());
        push_str(
            &mut r,
            ". Use list_apis to see available APIs, list_functions to browse SDK functions (optionally filtered by API or tag), get_function_docs for detailed type signatures and parameter docs, search_docs to find functions by keyword, and execute_script to run Luau scripts that chain multiple API calls together.",
        );
        r
    }
}

} // verus!
