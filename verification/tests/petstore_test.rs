//! The document-level extraction tests, on a pet store and on an API with
//! composed schemas, built in place as the documents the tests describe.
use toolscript::extract::spec_to_manifest;
use toolscript::manifest::{AuthConfig, FieldType, HttpMethod, Manifest, ParamLocation, ParamType};
use toolscript::openapi::{
    OaAdditional, OaComponents, OaDocument, OaKind, OaMediaType, OaOperation, OaParamLocation,
    OaParameter, OaRequestBody, OaResponse, OaResponses, OaSchema, OaSecurityScheme, OaStatus,
    RefOr,
};

fn s(x: &str) -> String {
    x.to_string()
}

fn schema(kind: OaKind) -> OaSchema {
    OaSchema { kind, description: None, nullable: false, default: None }
}

fn string() -> RefOr<OaSchema> {
    RefOr::Item(schema(OaKind::Str { format: None, enumeration: vec![] }))
}

fn string_fmt(f: &str) -> RefOr<OaSchema> {
    RefOr::Item(schema(OaKind::Str { format: Some(s(f)), enumeration: vec![] }))
}

fn nullable_string() -> RefOr<OaSchema> {
    RefOr::Item(OaSchema {
        kind: OaKind::Str { format: None, enumeration: vec![] },
        description: None,
        nullable: true,
        default: None,
    })
}

fn status_enum() -> RefOr<OaSchema> {
    RefOr::Item(schema(OaKind::Str {
        format: None,
        enumeration: vec![Some(s("available")), Some(s("pending")), Some(s("sold"))],
    }))
}

fn reference(name: &str) -> RefOr<OaSchema> {
    RefOr::Ref(format!("#/components/schemas/{name}"))
}

fn object(props: Vec<(&str, RefOr<OaSchema>)>, required: Vec<&str>) -> OaKind {
    OaKind::Object {
        properties: props.into_iter().map(|(n, p)| (s(n), p)).collect(),
        required: required.into_iter().map(s).collect(),
        additional: None,
    }
}

fn param(name: &str, location: OaParamLocation, required: bool, sch: RefOr<OaSchema>) -> RefOr<OaParameter> {
    RefOr::Item(OaParameter { name: s(name), location, required, description: None, schema: Some(sch) })
}

fn json_response(code: u16, sch: RefOr<OaSchema>) -> (OaStatus, RefOr<OaResponse>) {
    (
        OaStatus::Code(code),
        RefOr::Item(OaResponse { content: vec![(s("application/json"), OaMediaType { schema: Some(sch) })] }),
    )
}

fn op(path: &str, method: &str, id: &str, summary: &str) -> OaOperation {
    OaOperation {
        path: s(path),
        method: s(method),
        operation_id: Some(s(id)),
        tags: vec![s("pets")],
        summary: Some(s(summary)),
        description: None,
        deprecated: false,
        parameters: vec![],
        request_body: None,
        responses: OaResponses { responses: vec![], default: None },
    }
}

fn petstore() -> OaDocument {
    let mut list = op("/pets", "get", "listPets", "List all pets");
    list.parameters = vec![
        param("status", OaParamLocation::Query, false, status_enum()),
        param("limit", OaParamLocation::Query, false, RefOr::Item(schema(OaKind::Integer { format: Some(s("int32")) }))),
    ];
    list.responses.responses.push(json_response(
        200,
        RefOr::Item(schema(OaKind::Array { items: Some(Box::new(reference("Pet"))) })),
    ));
    let mut create = op("/pets", "post", "createPet", "Create a pet");
    create.request_body = Some(RefOr::Item(OaRequestBody {
        content: vec![(s("application/json"), OaMediaType { schema: Some(reference("NewPet")) })],
        required: true,
        description: None,
    }));
    create.responses.responses.push(json_response(201, reference("Pet")));
    let mut get = op("/pets/{petId}", "get", "getPetById", "Get a pet by ID");
    get.parameters = vec![param("petId", OaParamLocation::Path, true, string())];
    get.responses.responses.push(json_response(200, reference("Pet")));
    let pet = OaSchema {
        kind: object(
            vec![("id", string()), ("name", string()), ("status", status_enum()), ("tag", string())],
            vec!["id", "name", "status"],
        ),
        description: Some(s("A pet in the store")),
        nullable: false,
        default: None,
    };
    let new_pet = schema(object(vec![("name", string()), ("tag", string())], vec!["name"]));
    OaDocument {
        title: s("Petstore"),
        description: Some(s("A sample pet store")),
        version: s("1.0.0"),
        servers: vec![s("https://petstore.example.com/v1")],
        operations: vec![list, create, get],
        components: Some(OaComponents {
            security_schemes: vec![(
                s("bearerAuth"),
                RefOr::Item(OaSecurityScheme::Http { scheme: s("bearer") }),
            )],
            parameters: vec![],
            request_bodies: vec![],
            schemas: vec![(s("Pet"), RefOr::Item(pet)), (s("NewPet"), RefOr::Item(new_pet))],
        }),
    }
}

fn advanced() -> OaDocument {
    let base = schema(object(
        vec![("id", string_fmt("uuid")), ("created_at", string_fmt("date-time"))],
        vec!["id", "created_at"],
    ));
    let inline = RefOr::Item(schema(OaKind::Object {
        properties: vec![
            (s("name"), string()),
            (s("description"), nullable_string()),
            (s("updated_at"), nullable_string()),
            (
                s("metadata"),
                RefOr::Item(schema(OaKind::Object {
                    properties: vec![],
                    required: vec![],
                    additional: Some(OaAdditional::Schema(Box::new(string()))),
                })),
            ),
        ],
        required: vec![s("name")],
        additional: None,
    }));
    let resource = schema(OaKind::AllOf { all_of: vec![reference("BaseResource"), inline] });
    let error = schema(object(
        vec![("code", RefOr::Item(schema(OaKind::Integer { format: Some(s("int32")) }))), ("message", string())],
        vec!["code"],
    ));
    let mut list = op("/resources", "get", "listResources", "List resources");
    list.parameters = vec![param("X-Request-ID", OaParamLocation::Header, false, string())];
    let mut get = op("/resources/{id}", "get", "getResource", "Get a resource");
    get.parameters = vec![param("id", OaParamLocation::Path, true, string_fmt("uuid"))];
    let mut update = op("/resources/{id}", "put", "updateResource", "Update a resource");
    update.parameters = vec![
        param("id", OaParamLocation::Path, true, string_fmt("uuid")),
        param("X-Idempotency-Key", OaParamLocation::Header, true, string()),
    ];
    OaDocument {
        title: s("Advanced"),
        description: None,
        version: s("1.0.0"),
        servers: vec![],
        operations: vec![list, get, update],
        components: Some(OaComponents {
            security_schemes: vec![],
            parameters: vec![],
            request_bodies: vec![],
            schemas: vec![
                (s("BaseResource"), RefOr::Item(base)),
                (s("Resource"), RefOr::Item(resource)),
                (s("Error"), RefOr::Item(error)),
            ],
        }),
    }
}

fn pet_manifest() -> Manifest {
    spec_to_manifest(&petstore(), "petstore").unwrap()
}

fn advanced_manifest() -> Manifest {
    spec_to_manifest(&advanced(), "advanced").unwrap()
}

#[test]
fn test_spec_to_manifest() {
    let manifest = pet_manifest();
    assert_eq!(manifest.apis.len(), 1);
    assert_eq!(manifest.apis[0].name, "petstore");
    assert!(!manifest.apis[0].base_url.is_empty());
    assert_eq!(manifest.apis[0].base_url, "https://petstore.example.com/v1");
    assert!(manifest.functions.len() >= 3, "Expected at least 3 functions, got {}", manifest.functions.len());
    for func in &manifest.functions {
        assert!(func.summary.is_some() || func.description.is_some(), "Function {} missing docs", func.name);
    }
    let has_path_param = manifest
        .functions
        .iter()
        .any(|f| f.parameters.iter().any(|p| matches!(p.location, ParamLocation::Path)));
    assert!(has_path_param, "Expected at least one path parameter");
    let has_query_param = manifest
        .functions
        .iter()
        .any(|f| f.parameters.iter().any(|p| matches!(p.location, ParamLocation::Query)));
    assert!(has_query_param, "Expected at least one query parameter");
    assert!(!manifest.schemas.is_empty(), "Expected at least one schema");
    let pet_schema = manifest.schemas.iter().find(|s| s.name == "Pet").expect("Expected Pet schema");
    assert!(!pet_schema.fields.is_empty());
    assert!(manifest.apis[0].auth.is_some(), "Expected auth configuration");
}

#[test]
fn test_spec_to_manifest_function_names() {
    let manifest = pet_manifest();
    let names: Vec<&str> = manifest.functions.iter().map(|f| f.name.as_str()).collect();
    assert!(names.contains(&"list_pets"), "Expected list_pets, got: {names:?}");
    assert!(names.contains(&"create_pet"), "Expected create_pet, got: {names:?}");
    assert!(names.contains(&"get_pet_by_id"), "Expected get_pet_by_id, got: {names:?}");
}

#[test]
fn test_spec_to_manifest_function_methods() {
    let manifest = pet_manifest();
    let list_pets = manifest.functions.iter().find(|f| f.name == "list_pets").unwrap();
    assert_eq!(list_pets.method, HttpMethod::Get);
    let create_pet = manifest.functions.iter().find(|f| f.name == "create_pet").unwrap();
    assert_eq!(create_pet.method, HttpMethod::Post);
}

#[test]
fn test_spec_to_manifest_query_params() {
    let manifest = pet_manifest();
    let list_pets = manifest.functions.iter().find(|f| f.name == "list_pets").unwrap();
    assert_eq!(list_pets.parameters.len(), 2);
    let status_param = list_pets.parameters.iter().find(|p| p.name == "status").unwrap();
    assert_eq!(status_param.location, ParamLocation::Query);
    assert_eq!(status_param.param_type, ParamType::String);
    assert!(!status_param.required);
    assert!(status_param.enum_values.is_some());
    let enums = status_param.enum_values.as_ref().unwrap();
    assert_eq!(enums.len(), 3);
    assert!(enums.contains(&"available".to_string()));
    let limit_param = list_pets.parameters.iter().find(|p| p.name == "limit").unwrap();
    assert_eq!(limit_param.location, ParamLocation::Query);
    assert_eq!(limit_param.param_type, ParamType::Integer);
    assert!(!limit_param.required);
}

#[test]
fn test_spec_to_manifest_path_params() {
    let manifest = pet_manifest();
    let get_pet = manifest.functions.iter().find(|f| f.name == "get_pet_by_id").unwrap();
    assert_eq!(get_pet.parameters.len(), 1);
    let pet_id_param = &get_pet.parameters[0];
    assert_eq!(pet_id_param.name, "petId");
    assert_eq!(pet_id_param.location, ParamLocation::Path);
    assert!(pet_id_param.required);
}

#[test]
fn test_spec_to_manifest_request_body() {
    let manifest = pet_manifest();
    let create_pet = manifest.functions.iter().find(|f| f.name == "create_pet").unwrap();
    let body = create_pet.request_body.as_ref().unwrap();
    assert_eq!(body.content_type, "application/json");
    assert_eq!(body.schema, "NewPet");
    assert!(body.required);
}

#[test]
fn test_spec_to_manifest_response_schema() {
    let manifest = pet_manifest();
    let list_pets = manifest.functions.iter().find(|f| f.name == "list_pets").unwrap();
    assert_eq!(list_pets.response_schema.as_deref(), Some("Pet"));
    let get_pet = manifest.functions.iter().find(|f| f.name == "get_pet_by_id").unwrap();
    assert_eq!(get_pet.response_schema.as_deref(), Some("Pet"));
    let create_pet = manifest.functions.iter().find(|f| f.name == "create_pet").unwrap();
    assert_eq!(create_pet.response_schema.as_deref(), Some("Pet"));
}

#[test]
fn test_spec_to_manifest_tags() {
    let manifest = pet_manifest();
    for func in &manifest.functions {
        assert_eq!(func.tag.as_deref(), Some("pets"), "Function {} should be tagged 'pets'", func.name);
    }
}

#[test]
fn test_spec_to_manifest_pet_schema() {
    let manifest = pet_manifest();
    let pet = manifest.schemas.iter().find(|s| s.name == "Pet").expect("Pet schema missing");
    assert!(pet.description.is_some());
    assert_eq!(pet.fields.len(), 4);
    let id_field = pet.fields.iter().find(|f| f.name == "id").unwrap();
    assert_eq!(id_field.field_type, FieldType::String);
    assert!(id_field.required);
    let name_field = pet.fields.iter().find(|f| f.name == "name").unwrap();
    assert_eq!(name_field.field_type, FieldType::String);
    assert!(name_field.required);
    let status_field = pet.fields.iter().find(|f| f.name == "status").unwrap();
    assert_eq!(status_field.field_type, FieldType::String);
    assert!(status_field.required);
    let enums = status_field.enum_values.as_ref().unwrap();
    assert!(enums.contains(&"available".to_string()));
    assert!(enums.contains(&"pending".to_string()));
    assert!(enums.contains(&"sold".to_string()));
    let tag_field = pet.fields.iter().find(|f| f.name == "tag").unwrap();
    assert_eq!(tag_field.field_type, FieldType::String);
    assert!(!tag_field.required);
}

#[test]
fn test_spec_to_manifest_new_pet_schema() {
    let manifest = pet_manifest();
    let new_pet = manifest.schemas.iter().find(|s| s.name == "NewPet").expect("NewPet schema missing");
    assert_eq!(new_pet.fields.len(), 2);
    let name_field = new_pet.fields.iter().find(|f| f.name == "name").unwrap();
    assert!(name_field.required);
    let tag_field = new_pet.fields.iter().find(|f| f.name == "tag").unwrap();
    assert!(!tag_field.required);
}

#[test]
fn test_spec_to_manifest_auth() {
    let manifest = pet_manifest();
    let auth = manifest.apis[0].auth.as_ref().unwrap();
    assert_eq!(*auth, AuthConfig::Bearer { header: "Authorization".to_string(), prefix: "Bearer ".to_string() });
}

#[test]
fn test_spec_to_manifest_api_metadata() {
    let manifest = pet_manifest();
    let api = &manifest.apis[0];
    assert_eq!(api.name, "petstore");
    assert!(api.description.is_some());
    assert_eq!(api.version.as_deref(), Some("1.0.0"));
}

#[test]
fn test_spec_to_manifest_no_deprecated() {
    let manifest = pet_manifest();
    for func in &manifest.functions {
        assert!(!func.deprecated, "Function {} should not be deprecated", func.name);
    }
}

#[test]
fn test_allof_schema_extraction() {
    let manifest = advanced_manifest();
    let resource = manifest.schemas.iter().find(|s| s.name == "Resource").expect("Resource schema missing");
    let field_names: Vec<&str> = resource.fields.iter().map(|f| f.name.as_str()).collect();
    assert!(field_names.contains(&"id"), "Missing id from BaseResource. Got: {field_names:?}");
    assert!(field_names.contains(&"created_at"), "Missing created_at from BaseResource. Got: {field_names:?}");
    assert!(field_names.contains(&"name"), "Missing name from inline. Got: {field_names:?}");
    assert!(field_names.contains(&"metadata"), "Missing metadata. Got: {field_names:?}");
}

#[test]
fn test_nullable_fields() {
    let manifest = advanced_manifest();
    let resource = manifest.schemas.iter().find(|s| s.name == "Resource").expect("Resource schema missing");
    let updated_at = resource.fields.iter().find(|f| f.name == "updated_at").unwrap();
    assert!(updated_at.nullable, "updated_at should be nullable");
    let description_field = resource.fields.iter().find(|f| f.name == "description").unwrap();
    assert!(description_field.nullable, "description should be nullable");
    let name = resource.fields.iter().find(|f| f.name == "name").unwrap();
    assert!(!name.nullable, "name should not be nullable");
}

#[test]
fn parser_test_format_extraction() {
    let manifest = advanced_manifest();
    let resource = manifest.schemas.iter().find(|s| s.name == "Resource").expect("Resource schema missing");
    let id_field = resource.fields.iter().find(|f| f.name == "id").unwrap();
    assert_eq!(id_field.format.as_deref(), Some("uuid"));
    let created_at = resource.fields.iter().find(|f| f.name == "created_at").unwrap();
    assert_eq!(created_at.format.as_deref(), Some("date-time"));
    let error = manifest.schemas.iter().find(|s| s.name == "Error").unwrap();
    let code_field = error.fields.iter().find(|f| f.name == "code").unwrap();
    assert_eq!(code_field.format.as_deref(), Some("int32"));
}

#[test]
fn test_additional_properties_map() {
    let manifest = advanced_manifest();
    let resource = manifest.schemas.iter().find(|s| s.name == "Resource").expect("Resource schema missing");
    let metadata = resource.fields.iter().find(|f| f.name == "metadata").unwrap();
    assert_eq!(
        metadata.field_type,
        FieldType::MapOf { value: Box::new(FieldType::String) },
        "metadata should be Map<string>"
    );
}

#[test]
fn test_header_params_extracted() {
    let manifest = advanced_manifest();
    let list = manifest.functions.iter().find(|f| f.name == "list_resources").unwrap();
    let header_param = list.parameters.iter().find(|p| p.name == "X-Request-ID");
    assert!(header_param.is_some(), "Header param X-Request-ID should be extracted");
    assert_eq!(header_param.unwrap().location, ParamLocation::Header);
    let update = manifest.functions.iter().find(|f| f.name == "update_resource").unwrap();
    let idemp = update.parameters.iter().find(|p| p.name == "X-Idempotency-Key");
    assert!(idemp.is_some(), "Header param X-Idempotency-Key should be extracted");
    assert!(idemp.unwrap().required);
}

#[test]
fn test_allof_required_field_inheritance() {
    let manifest = advanced_manifest();
    let resource = manifest.schemas.iter().find(|s| s.name == "Resource").expect("Resource schema missing");
    let id_field = resource.fields.iter().find(|f| f.name == "id").unwrap();
    assert!(id_field.required, "id should be required (inherited from BaseResource)");
    let created_at = resource.fields.iter().find(|f| f.name == "created_at").unwrap();
    assert!(created_at.required, "created_at should be required (inherited from BaseResource)");
    let name_field = resource.fields.iter().find(|f| f.name == "name").unwrap();
    assert!(name_field.required, "name should be required (from inline schema)");
    let description_field = resource.fields.iter().find(|f| f.name == "description").unwrap();
    assert!(!description_field.required, "description should not be required");
    let metadata_field = resource.fields.iter().find(|f| f.name == "metadata").unwrap();
    assert!(!metadata_field.required, "metadata should not be required");
}

#[test]
fn test_param_format_extraction() {
    let manifest = advanced_manifest();
    let get_resource = manifest
        .functions
        .iter()
        .find(|f| f.name == "get_resource")
        .expect("get_resource function missing");
    let id_param = get_resource.parameters.iter().find(|p| p.name == "id").expect("id param missing");
    assert_eq!(id_param.format.as_deref(), Some("uuid"));
}
