//! The manifest: API configurations, function definitions and schema
//! definitions extracted from API descriptions, plus the tools of upstream
//! MCP servers.
use vstd::prelude::*;
use crate::json::JsonValue;

verus! {

/// Everything the generator extracted, and what the server exposes.
#[derive(Debug, PartialEq)]
pub struct Manifest {
    pub apis: Vec<ApiConfig>,
    pub functions: Vec<FunctionDef>,
    pub schemas: Vec<SchemaDef>,
    pub mcp_servers: Vec<McpServerEntry>,
}

/// Configuration for a single API, from its info, servers and security.
#[derive(Debug, Clone, PartialEq, Eq)]
pub struct ApiConfig {
    pub name: String,
    pub base_url: String,
    pub description: Option<String>,
    pub version: Option<String>,
    pub auth: Option<AuthConfig>,
}

/// How requests to an API authenticate.
#[derive(Debug, Clone, PartialEq, Eq)]
pub enum AuthConfig {
    Bearer { header: String, prefix: String },
    ApiKey { header: String },
    Basic,
}

/// A single API operation exposed as an SDK function.
#[derive(Debug, PartialEq)]
pub struct FunctionDef {
    pub name: String,
    pub api: String,
    pub tag: Option<String>,
    pub method: HttpMethod,
    pub path: String,
    pub summary: Option<String>,
    pub description: Option<String>,
    pub deprecated: bool,
    pub parameters: Vec<ParamDef>,
    pub request_body: Option<RequestBodyDef>,
    pub response_schema: Option<String>,
}

/// HTTP method of a function.
#[derive(Debug, Clone, Copy, PartialEq, Eq)]
pub enum HttpMethod {
    Get,
    Post,
    Put,
    Patch,
    Delete,
}

/// A parameter of a function.
#[derive(Debug, PartialEq)]
pub struct ParamDef {
    pub name: String,
    pub location: ParamLocation,
    pub param_type: ParamType,
    pub required: bool,
    pub description: Option<String>,
    pub default: Option<JsonValue>,
    pub enum_values: Option<Vec<String>>,
    pub format: Option<String>,
    /// A value fixed by configuration; such a parameter is hidden from
    /// callers and always sent with this value.
    pub frozen_value: Option<String>,
}

/// Where a parameter travels in the request.
#[derive(Debug, Clone, Copy, PartialEq, Eq)]
pub enum ParamLocation {
    Path,
    Query,
    Header,
}

/// The scalar type of a parameter.
#[derive(Debug, Clone, Copy, PartialEq, Eq)]
pub enum ParamType {
    String,
    Integer,
    Number,
    Boolean,
}

/// The request body of a function.
#[derive(Debug, Clone, PartialEq, Eq)]
pub struct RequestBodyDef {
    pub content_type: String,
    pub schema: String,
    pub required: bool,
    pub description: Option<String>,
}

/// A named data type.
#[derive(Debug, PartialEq)]
pub struct SchemaDef {
    pub name: String,
    pub description: Option<String>,
    pub fields: Vec<FieldDef>,
}

/// A field of a schema.
#[derive(Debug, PartialEq)]
pub struct FieldDef {
    pub name: String,
    pub field_type: FieldType,
    pub required: bool,
    pub description: Option<String>,
    pub enum_values: Option<Vec<String>>,
    pub nullable: bool,
    pub format: Option<String>,
}

/// The type of a field, including compound types.
#[derive(Debug, PartialEq)]
pub enum FieldType {
    String,
    Integer,
    Number,
    Boolean,
    Array { items: Box<FieldType> },
    /// A reference to a named schema.
    Object { schema: String },
    /// An object with fields given in place.
    InlineObject { fields: Vec<FieldDef> },
    /// An object with string keys and values of one type.
    MapOf { value: Box<FieldType> },
}

/// An upstream MCP server and its tools.
#[derive(Debug, PartialEq)]
pub struct McpServerEntry {
    pub name: String,
    pub description: Option<String>,
    pub tools: Vec<McpToolDef>,
}

/// A tool of an upstream MCP server.
#[derive(Debug, PartialEq)]
pub struct McpToolDef {
    pub name: String,
    /// The server the tool belongs to.
    pub server: String,
    pub description: Option<String>,
    pub params: Vec<McpParamDef>,
    /// Named types its input schema defines.
    pub schemas: Vec<SchemaDef>,
    /// Named types its output schema defines.
    pub output_schemas: Vec<SchemaDef>,
}

/// A parameter of an upstream MCP tool.
#[derive(Debug, PartialEq)]
pub struct McpParamDef {
    pub name: String,
    pub luau_type: String,
    pub required: bool,
    pub description: Option<String>,
    pub field_type: FieldType,
}

/// An owned copy of an optional string.
pub fn copy_opt_string(o: &Option<String>) -> (r: Option<String>)
    ensures
        r == *o,
{
    match o {
        Some(s) => Some(s.clone()),
        None => None,
    }
}

/// An owned copy of a list of strings.
pub fn copy_strings(v: &Vec<String>) -> (r: Vec<String>)
    ensures
        r@ == v@,
{
    let mut r: Vec<String> = Vec::new();
    let mut i: usize = 0;
    while i < v.len()
        invariant
            i <= v@.len(),
            r@ == v@.take(i as int),
        decreases v@.len() - i,
    {
        r.push(v[i].clone());
        assert(v@.take(i as int).push(v@[i as int]) =~= v@.take(i + 1));
        i = i + 1;
    }
    assert(v@.take(v@.len() as int) =~= v@);
    r
}

/// An owned copy of an optional list of strings.
pub fn copy_opt_strings(o: &Option<Vec<String>>) -> (r: Option<Vec<String>>)
    ensures
        match *o {
            Some(v) => r matches Some(w) && w@ == v@,
            None => r is None,
        },
{
    match o {
        Some(v) => Some(copy_strings(v)),
        None => None,
    }
}

impl AuthConfig {
    /// An owned copy.
    pub fn copy(&self) -> (r: AuthConfig)
        ensures
            r == *self,
    {
        match self {
            AuthConfig::Bearer { header, prefix } => AuthConfig::Bearer {
                header: header.clone(),
                prefix: prefix.clone(),
            },
            AuthConfig::ApiKey { header } => AuthConfig::ApiKey { header: header.clone() },
            AuthConfig::Basic => AuthConfig::Basic,
        }
    }
}

} // verus!
