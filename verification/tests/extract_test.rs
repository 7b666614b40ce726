use toolscript::extract::{extract_request_body, extract_response_schema, spec_to_manifest};
use toolscript::manifest::{AuthConfig, FieldType, HttpMethod, ParamLocation, ParamType};
use toolscript::openapi::{
    OaAdditional, OaComponents, OaDocument, OaKind, OaMediaType, OaOperation, OaParamLocation,
    OaParameter, OaRequestBody, OaResponse, OaResponses, OaSchema, OaSecurityScheme, OaStatus,
    RefOr,
};

fn schema(kind: OaKind) -> OaSchema {
    OaSchema { kind, description: None, nullable: false, default: None }
}

fn string_schema() -> RefOr<OaSchema> {
    RefOr::Item(schema(OaKind::Str { format: None, enumeration: vec![] }))
}

fn schema_ref(name: &str) -> RefOr<OaSchema> {
    RefOr::Ref(format!("#/components/schemas/{name}"))
}

fn object(props: Vec<(&str, RefOr<OaSchema>)>, required: Vec<&str>) -> RefOr<OaSchema> {
    RefOr::Item(schema(OaKind::Object {
        properties: props.into_iter().map(|(n, s)| (n.to_string(), s)).collect(),
        required: required.into_iter().map(|s| s.to_string()).collect(),
        additional: None,
    }))
}

fn components(schemas: Vec<(&str, RefOr<OaSchema>)>) -> OaComponents {
    OaComponents {
        security_schemes: vec![],
        parameters: vec![],
        request_bodies: vec![],
        schemas: schemas.into_iter().map(|(n, s)| (n.to_string(), s)).collect(),
    }
}

fn no_responses() -> OaResponses {
    OaResponses { responses: vec![], default: None }
}

fn json_response(s: RefOr<OaSchema>) -> RefOr<OaResponse> {
    RefOr::Item(OaResponse {
        content: vec![("application/json".to_string(), OaMediaType { schema: Some(s) })],
    })
}

fn empty_response() -> RefOr<OaResponse> {
    RefOr::Item(OaResponse { content: vec![] })
}

fn operation(path: &str, method: &str, id: Option<&str>, responses: OaResponses) -> OaOperation {
    OaOperation {
        path: path.to_string(),
        method: method.to_string(),
        operation_id: id.map(|s| s.to_string()),
        tags: vec![],
        summary: None,
        description: None,
        deprecated: false,
        parameters: vec![],
        request_body: None,
        responses,
    }
}

fn document(operations: Vec<OaOperation>, comps: Option<OaComponents>) -> OaDocument {
    OaDocument {
        title: "Test".to_string(),
        description: None,
        version: "1.0.0".to_string(),
        servers: vec![],
        operations,
        components: comps,
    }
}

#[test]
fn test_allof_three_levels() {
    let a = object(vec![("a_field", string_schema())], vec!["a_field"]);
    let b = RefOr::Item(schema(OaKind::AllOf {
        all_of: vec![
            schema_ref("A"),
            object(
                vec![("b_field", RefOr::Item(schema(OaKind::Integer { format: None })))],
                vec!["b_field"],
            ),
        ],
    }));
    let c = RefOr::Item(schema(OaKind::AllOf {
        all_of: vec![
            schema_ref("B"),
            object(vec![("c_field", RefOr::Item(schema(OaKind::Boolean)))], vec![]),
        ],
    }));
    let doc = document(vec![], Some(components(vec![("A", a), ("B", b), ("C", c)])));
    let manifest = spec_to_manifest(&doc, "test").unwrap();
    let c_schema = manifest.schemas.iter().find(|s| s.name == "C").expect("C schema missing");
    let names: Vec<&str> = c_schema.fields.iter().map(|f| f.name.as_str()).collect();
    assert!(names.contains(&"a_field"), "Missing a_field from A. Got: {names:?}");
    assert!(names.contains(&"b_field"), "Missing b_field from B. Got: {names:?}");
    assert!(names.contains(&"c_field"), "Missing c_field from C. Got: {names:?}");
    let a_field = c_schema.fields.iter().find(|f| f.name == "a_field").unwrap();
    assert!(a_field.required, "a_field should be required (from A)");
    let b_field = c_schema.fields.iter().find(|f| f.name == "b_field").unwrap();
    assert!(b_field.required, "b_field should be required (from B)");
    let c_field = c_schema.fields.iter().find(|f| f.name == "c_field").unwrap();
    assert!(!c_field.required, "c_field should not be required");
}

#[test]
fn test_additional_properties_object_ref() {
    let container = object(
        vec![(
            "items",
            RefOr::Item(schema(OaKind::Object {
                properties: vec![],
                required: vec![],
                additional: Some(OaAdditional::Schema(Box::new(schema_ref("Item")))),
            })),
        )],
        vec!["items"],
    );
    let item = object(vec![("name", string_schema())], vec![]);
    let mut responses = no_responses();
    responses.responses.push((OaStatus::Code(200), empty_response()));
    let doc = document(
        vec![operation("/things", "get", Some("getThings"), responses)],
        Some(components(vec![("Container", container), ("Item", item)])),
    );
    let manifest = spec_to_manifest(&doc, "test").unwrap();
    let container =
        manifest.schemas.iter().find(|s| s.name == "Container").expect("Container schema missing");
    let items_field = container.fields.iter().find(|f| f.name == "items").unwrap();
    assert_eq!(
        items_field.field_type,
        FieldType::MapOf { value: Box::new(FieldType::Object { schema: "Item".to_string() }) },
        "items should be Map<Item> via additionalProperties $ref"
    );
    let item = manifest
        .schemas
        .iter()
        .find(|s| s.name == "Item")
        .expect("Item schema should be extracted");
    assert!(item.fields.iter().any(|f| f.name == "name"), "Item should have a name field");
}

#[test]
fn test_response_schema_204_no_content() {
    let mut op = operation("/things/{id}", "delete", Some("deleteThing"), no_responses());
    op.parameters.push(RefOr::Item(OaParameter {
        name: "id".to_string(),
        location: OaParamLocation::Path,
        required: true,
        description: None,
        schema: Some(string_schema()),
    }));
    op.responses.responses.push((OaStatus::Code(204), empty_response()));
    let manifest = spec_to_manifest(&document(vec![op], None), "test").unwrap();
    let delete_thing = manifest
        .functions
        .iter()
        .find(|f| f.name == "delete_thing")
        .expect("delete_thing function missing");
    assert_eq!(delete_thing.response_schema, None, "204 No Content should have no response schema");
}

#[test]
fn test_response_schema_prefers_lower_2xx() {
    let mut responses = no_responses();
    responses.responses.push((OaStatus::Code(201), json_response(schema_ref("CreatedThing"))));
    responses.responses.push((OaStatus::Code(200), json_response(schema_ref("ExistingThing"))));
    let comps = components(vec![
        ("CreatedThing", object(vec![("id", string_schema())], vec![])),
        ("ExistingThing", object(vec![("id", string_schema())], vec![])),
    ]);
    let doc = document(vec![operation("/things", "post", Some("createThing"), responses)], Some(comps));
    let manifest = spec_to_manifest(&doc, "test").unwrap();
    let create_thing = manifest
        .functions
        .iter()
        .find(|f| f.name == "create_thing")
        .expect("create_thing function missing");
    assert_eq!(
        create_thing.response_schema.as_deref(),
        Some("ExistingThing"),
        "Should prefer 200 over 201 since the loop checks lower codes first"
    );
}

#[test]
fn test_response_schema_202_accepted() {
    let mut responses = no_responses();
    responses.responses.push((OaStatus::Code(202), json_response(schema_ref("Job"))));
    let comps = components(vec![("Job", object(vec![("id", string_schema())], vec![]))]);
    let doc = document(vec![operation("/jobs", "post", Some("createJob"), responses)], Some(comps));
    let manifest = spec_to_manifest(&doc, "test").unwrap();
    let create_job = manifest.functions.iter().find(|f| f.name == "create_job").unwrap();
    assert_eq!(create_job.response_schema.as_deref(), Some("Job"), "Should extract schema from 202 response");
}

#[test]
fn manifest_api_config_and_function_fields() {
    let mut op = operation("/pets/{petId}", "get", None, no_responses());
    op.tags = vec!["pets".to_string(), "other".to_string()];
    op.summary = Some("Get a pet".to_string());
    op.deprecated = true;
    op.parameters.push(RefOr::Item(OaParameter {
        name: "petId".to_string(),
        location: OaParamLocation::Path,
        required: true,
        description: Some("The id".to_string()),
        schema: Some(RefOr::Item(schema(OaKind::Integer { format: Some("int64".to_string()) }))),
    }));
    op.parameters.push(RefOr::Item(OaParameter {
        name: "session".to_string(),
        location: OaParamLocation::Cookie,
        required: false,
        description: None,
        schema: Some(string_schema()),
    }));
    op.parameters.push(RefOr::Item(OaParameter {
        name: "X-Trace".to_string(),
        location: OaParamLocation::Header,
        required: false,
        description: None,
        schema: None,
    }));
    let options = operation("/pets", "options", Some("petOptions"), no_responses());
    let mut doc = document(vec![op, options], None);
    doc.servers = vec!["https://a.example".to_string(), "https://b.example".to_string()];
    doc.description = Some("Pets".to_string());
    let manifest = spec_to_manifest(&doc, "petstore").unwrap();
    assert_eq!(manifest.apis.len(), 1);
    let api = &manifest.apis[0];
    assert_eq!(api.name, "petstore");
    assert_eq!(api.base_url, "https://a.example");
    assert_eq!(api.description.as_deref(), Some("Pets"));
    assert_eq!(api.version.as_deref(), Some("1.0.0"));
    assert!(api.auth.is_none());
    assert!(manifest.schemas.is_empty());
    assert!(manifest.mcp_servers.is_empty());
    // `options` gives no function.
    assert_eq!(manifest.functions.len(), 1);
    let f = &manifest.functions[0];
    assert_eq!(f.name, "get_pets_by_pet_id");
    assert_eq!(f.api, "petstore");
    assert_eq!(f.tag.as_deref(), Some("pets"));
    assert_eq!(f.method, HttpMethod::Get);
    assert_eq!(f.path, "/pets/{petId}");
    assert_eq!(f.summary.as_deref(), Some("Get a pet"));
    assert!(f.deprecated);
    // The cookie parameter is left out.
    assert_eq!(f.parameters.len(), 2);
    assert_eq!(f.parameters[0].name, "petId");
    assert_eq!(f.parameters[0].location, ParamLocation::Path);
    assert_eq!(f.parameters[0].param_type, ParamType::Integer);
    assert_eq!(f.parameters[0].format.as_deref(), Some("int64"));
    assert!(f.parameters[0].required);
    assert!(f.parameters[0].frozen_value.is_none());
    assert_eq!(f.parameters[1].name, "X-Trace");
    assert_eq!(f.parameters[1].location, ParamLocation::Header);
    assert_eq!(f.parameters[1].param_type, ParamType::String);
    assert!(f.request_body.is_none());
    assert!(f.response_schema.is_none());
}

#[test]
fn manifest_without_servers_uses_root_url() {
    let manifest = spec_to_manifest(&document(vec![], None), "x").unwrap();
    assert_eq!(manifest.apis[0].base_url, "/");
    assert!(manifest.functions.is_empty());
}

#[test]
fn manifest_auth_from_security_schemes() {
    let mut comps = components(vec![]);
    comps.security_schemes = vec![
        ("oauth".to_string(), RefOr::Item(OaSecurityScheme::Other)),
        ("basic".to_string(), RefOr::Item(OaSecurityScheme::Http { scheme: "BASIC".to_string() })),
        ("bearer".to_string(), RefOr::Item(OaSecurityScheme::Http { scheme: "bearer".to_string() })),
    ];
    let manifest = spec_to_manifest(&document(vec![], Some(comps)), "x").unwrap();
    assert_eq!(manifest.apis[0].auth, Some(AuthConfig::Basic));

    let mut comps = components(vec![]);
    comps.security_schemes = vec![
        ("digest".to_string(), RefOr::Item(OaSecurityScheme::Http { scheme: "digest".to_string() })),
        ("key".to_string(), RefOr::Item(OaSecurityScheme::ApiKey { name: "X-Key".to_string() })),
    ];
    let manifest = spec_to_manifest(&document(vec![], Some(comps)), "x").unwrap();
    assert_eq!(manifest.apis[0].auth, Some(AuthConfig::ApiKey { header: "X-Key".to_string() }));

    let mut comps = components(vec![]);
    comps.security_schemes =
        vec![("b".to_string(), RefOr::Item(OaSecurityScheme::Http { scheme: "Bearer".to_string() }))];
    let manifest = spec_to_manifest(&document(vec![], Some(comps)), "x").unwrap();
    assert_eq!(
        manifest.apis[0].auth,
        Some(AuthConfig::Bearer { header: "Authorization".to_string(), prefix: "Bearer ".to_string() })
    );
}

#[test]
fn parameter_refs_resolve_or_fail() {
    let mut comps = components(vec![]);
    comps.parameters = vec![(
        "Limit".to_string(),
        RefOr::Item(OaParameter {
            name: "limit".to_string(),
            location: OaParamLocation::Query,
            required: false,
            description: None,
            schema: Some(RefOr::Item(schema(OaKind::Integer { format: None }))),
        }),
    )];
    let mut op = operation("/pets", "get", Some("listPets"), no_responses());
    op.parameters.push(RefOr::Ref("#/components/parameters/Limit".to_string()));
    let manifest = spec_to_manifest(&document(vec![op], Some(comps)), "x").unwrap();
    assert_eq!(manifest.functions[0].parameters[0].name, "limit");
    assert_eq!(manifest.functions[0].parameters[0].location, ParamLocation::Query);

    let mut op = operation("/pets", "get", Some("listPets"), no_responses());
    op.parameters.push(RefOr::Ref("#/definitions/Limit".to_string()));
    let err = spec_to_manifest(&document(vec![op], None), "x").err().unwrap();
    assert_eq!(err, "Unsupported parameter $ref: #/definitions/Limit");

    let mut op = operation("/pets", "get", Some("listPets"), no_responses());
    op.parameters.push(RefOr::Ref("#/components/parameters/Limit".to_string()));
    let err = spec_to_manifest(&document(vec![op], None), "x").err().unwrap();
    assert_eq!(err, "Spec has $ref but no components");

    let mut op = operation("/pets", "get", Some("listPets"), no_responses());
    op.parameters.push(RefOr::Ref("#/components/parameters/Missing".to_string()));
    let err = spec_to_manifest(&document(vec![op], Some(components(vec![]))), "x").err().unwrap();
    assert_eq!(err, "Could not resolve parameter ref: #/components/parameters/Missing");
}

#[test]
fn request_body_prefers_json_then_first() {
    let body = RefOr::Item(OaRequestBody {
        content: vec![
            ("text/plain".to_string(), OaMediaType { schema: Some(schema_ref("Text")) }),
            ("application/merge-patch+json".to_string(), OaMediaType { schema: Some(schema_ref("Patch")) }),
        ],
        required: true,
        description: Some("The patch".to_string()),
    });
    let d = extract_request_body(&Some(body), &None).unwrap().unwrap();
    assert_eq!(d.content_type, "application/merge-patch+json");
    assert_eq!(d.schema, "Patch");
    assert!(d.required);
    assert_eq!(d.description.as_deref(), Some("The patch"));

    let body = RefOr::Item(OaRequestBody {
        content: vec![("text/plain".to_string(), OaMediaType { schema: Some(string_schema()) })],
        required: false,
        description: None,
    });
    let d = extract_request_body(&Some(body), &None).unwrap().unwrap();
    assert_eq!(d.content_type, "text/plain");
    assert_eq!(d.schema, "unknown");
    assert!(!d.required);

    let body = RefOr::Item(OaRequestBody { content: vec![], required: true, description: None });
    assert!(extract_request_body(&Some(body), &None).unwrap().is_none());
    assert!(extract_request_body(&None, &None).unwrap().is_none());
}

#[test]
fn request_body_refs_resolve_or_fail() {
    let mut comps = components(vec![]);
    comps.request_bodies = vec![(
        "NewPet".to_string(),
        RefOr::Item(OaRequestBody {
            content: vec![("application/json".to_string(), OaMediaType { schema: Some(schema_ref("NewPet")) })],
            required: true,
            description: None,
        }),
    )];
    let r = Some(RefOr::Ref("#/components/requestBodies/NewPet".to_string()));
    let d = extract_request_body(&r, &Some(comps)).unwrap().unwrap();
    assert_eq!(d.schema, "NewPet");
    let err = extract_request_body(&r, &None).err().unwrap();
    assert_eq!(err, "Spec has $ref but no components");
    let err = extract_request_body(&r, &Some(components(vec![]))).err().unwrap();
    assert_eq!(err, "Could not resolve requestBody ref: #/components/requestBodies/NewPet");
    let bad = Some(RefOr::Ref("other.yaml#/Body".to_string()));
    let err = extract_request_body(&bad, &None).err().unwrap();
    assert_eq!(err, "Unsupported requestBody $ref: other.yaml#/Body");
}

#[test]
fn response_schema_from_array_and_default() {
    let mut r = no_responses();
    r.responses.push((
        OaStatus::Code(200),
        json_response(RefOr::Item(schema(OaKind::Array { items: Some(Box::new(schema_ref("Pet"))) }))),
    ));
    assert_eq!(extract_response_schema(&r).as_deref(), Some("Pet"));

    let mut r = no_responses();
    r.responses.push((OaStatus::Range(2), json_response(schema_ref("Ranged"))));
    r.default = Some(json_response(schema_ref("Error")));
    assert_eq!(extract_response_schema(&r).as_deref(), Some("Error"));

    let mut r = no_responses();
    r.responses.push((OaStatus::Code(404), json_response(schema_ref("NotFound"))));
    r.responses.push((OaStatus::Code(299), json_response(schema_ref("Last"))));
    assert_eq!(extract_response_schema(&r).as_deref(), Some("Last"));

    let mut r = no_responses();
    r.default = Some(json_response(RefOr::Item(schema(OaKind::Array {
        items: Some(Box::new(schema_ref("Pet"))),
    }))));
    assert_eq!(extract_response_schema(&r), None);
}
