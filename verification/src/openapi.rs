//! The parts of an OpenAPI 3 document that code generation reads, as plain
//! values. Maps of the document keep their order as lists of pairs.
use vstd::prelude::*;
use crate::json::JsonValue;
use crate::text::{owned, push_str};

verus! {

/// A `$ref` or an item given in place.
#[derive(Debug)]
pub enum RefOr<T> {
    Ref(String),
    Item(T),
}

/// A schema.
#[derive(Debug)]
pub struct OaSchema {
    pub kind: OaKind,
    pub description: Option<String>,
    pub nullable: bool,
    pub default: Option<JsonValue>,
}

/// What a schema describes.
#[derive(Debug)]
pub enum OaKind {
    /// A string, with its format and enumerated values (`null` entries are
    /// `None`).
    Str { format: Option<String>, enumeration: Vec<Option<String>> },
    Integer { format: Option<String> },
    Number { format: Option<String> },
    Boolean,
    Array { items: Option<Box<RefOr<OaSchema>>> },
    Object {
        properties: Vec<(String, RefOr<OaSchema>)>,
        required: Vec<String>,
        additional: Option<OaAdditional>,
    },
    AllOf { all_of: Vec<RefOr<OaSchema>> },
    /// `oneOf`, `anyOf`, `not` and untyped schemas.
    Other,
}

/// `additionalProperties` of an object schema.
#[derive(Debug)]
pub enum OaAdditional {
    Any(bool),
    Schema(Box<RefOr<OaSchema>>),
}

/// Where a parameter travels.
#[derive(Debug, Clone, Copy, PartialEq, Eq)]
pub enum OaParamLocation {
    Query,
    Header,
    Path,
    Cookie,
}

/// A parameter of an operation.
#[derive(Debug)]
pub struct OaParameter {
    pub name: String,
    pub location: OaParamLocation,
    pub required: bool,
    pub description: Option<String>,
    /// The schema; `None` when the parameter is described by content.
    pub schema: Option<RefOr<OaSchema>>,
}

/// A media type of a request or response.
#[derive(Debug)]
pub struct OaMediaType {
    pub schema: Option<RefOr<OaSchema>>,
}

/// A request body.
#[derive(Debug)]
pub struct OaRequestBody {
    pub content: Vec<(String, OaMediaType)>,
    pub required: bool,
    pub description: Option<String>,
}

/// A response.
#[derive(Debug)]
pub struct OaResponse {
    pub content: Vec<(String, OaMediaType)>,
}

/// The key of a response: a status code or a range such as `2XX`.
#[derive(Debug, Clone, Copy, PartialEq, Eq)]
pub enum OaStatus {
    Code(u16),
    Range(u16),
}

/// The responses of an operation.
#[derive(Debug)]
pub struct OaResponses {
    pub responses: Vec<(OaStatus, RefOr<OaResponse>)>,
    pub default: Option<RefOr<OaResponse>>,
}

/// An operation: a method on a path.
#[derive(Debug)]
pub struct OaOperation {
    pub path: String,
    /// The method in lowercase, such as `get`.
    pub method: String,
    pub operation_id: Option<String>,
    pub tags: Vec<String>,
    pub summary: Option<String>,
    pub description: Option<String>,
    pub deprecated: bool,
    pub parameters: Vec<RefOr<OaParameter>>,
    pub request_body: Option<RefOr<OaRequestBody>>,
    pub responses: OaResponses,
}

/// A security scheme.
#[derive(Debug)]
pub enum OaSecurityScheme {
    Http { scheme: String },
    ApiKey { name: String },
    /// OAuth 2 and OpenID Connect.
    Other,
}

/// The reusable components of a document.
#[derive(Debug)]
pub struct OaComponents {
    pub security_schemes: Vec<(String, RefOr<OaSecurityScheme>)>,
    pub parameters: Vec<(String, RefOr<OaParameter>)>,
    pub request_bodies: Vec<(String, RefOr<OaRequestBody>)>,
    pub schemas: Vec<(String, RefOr<OaSchema>)>,
}

/// An OpenAPI document: its info, its server URLs, its operations in
/// document order, and its components.
#[derive(Debug)]
pub struct OaDocument {
    pub title: String,
    pub description: Option<String>,
    pub version: String,
    pub servers: Vec<String>,
    pub operations: Vec<OaOperation>,
    pub components: Option<OaComponents>,
}

// ---------------------------------------------------------------------------
// Reading a document's text
// ---------------------------------------------------------------------------

/// An OpenAPI document as the `openapiv3` crate holds it; carried opaquely.
#[verifier::external_type_specification]
#[verifier::external_body]
pub struct ExOpenApi(openapiv3::OpenAPI);

/// Whether `serde_yaml::from_str` reads the text as an `openapiv3::OpenAPI`.
pub uninterp spec fn yaml_reads_openapi(text: Seq<char>) -> bool;

/// Whether `serde_json::from_str` reads the text as an `openapiv3::OpenAPI`.
pub uninterp spec fn json_reads_openapi(text: Seq<char>) -> bool;

/// `serde_yaml::from_str::<openapiv3::OpenAPI>`: gives a document exactly
/// when `yaml_reads_openapi` holds of the text. Which document it gives, and
/// the message of its error, are not stated.
#[verifier::external_body]
fn read_yaml(text: &str) -> (r: Option<openapiv3::OpenAPI>)
    ensures
        r is Some <==> yaml_reads_openapi(text@),
{
    serde_yaml::from_str::<openapiv3::OpenAPI>(text).ok()
}

/// `serde_json::from_str::<openapiv3::OpenAPI>`: gives a document exactly
/// when `json_reads_openapi` holds of the text. Which document it gives, and
/// the message of its error, are not stated.
#[verifier::external_body]
fn read_json(text: &str) -> (r: Option<openapiv3::OpenAPI>)
    ensures
        r is Some <==> json_reads_openapi(text@),
{
    serde_json::from_str::<openapiv3::OpenAPI>(text).ok()
}

/// The message for a document that reads neither as YAML nor as JSON.
pub open spec fn parse_failure(source: Seq<char>) -> Seq<char> {
    "Failed to parse OpenAPI spec from "@ + source
}

/// Reads the text of an OpenAPI document: as YAML first (which covers most
/// JSON), then as JSON. `source` names where the text came from, for the
/// error.
///
/// Stated: when a document comes back, and the error otherwise. Not stated:
/// which document comes back. `openapiv3::OpenAPI` is opaque here, and a
/// name for a result may only range over plain values, so the document is
/// tied to the text only through `openapiv3`'s own reading; its conversion to
/// `OaDocument` reads the outside type's fields and stands beside the reading
/// of files and URLs.
pub fn parse_spec_text(text: &str, source: &str) -> (r: Result<openapiv3::OpenAPI, String>)
    ensures
        r is Ok <==> (yaml_reads_openapi(text@) || json_reads_openapi(text@)),
        r matches Err(m) ==> m@ == parse_failure(source@),
{
    match read_yaml(text) {
        Some(doc) => Ok(doc),
        None => match read_json(text) {
            Some(doc) => Ok(doc),
            None => {
                let mut m = owned("Failed to parse OpenAPI spec from ");
                push_str(&mut m, source);
                Err(m)
            },
        },
    }
}

} // verus!
