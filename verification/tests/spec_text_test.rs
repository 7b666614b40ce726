use toolscript::openapi::parse_spec_text;

const YAML_DOC: &str = "openapi: 3.0.3
info:
  title: Petstore
  version: 1.0.0
paths:
  /pets:
    get:
      operationId: listPets
      responses:
        '200':
          description: ok
";

const JSON_DOC: &str = r#"{
  "openapi": "3.0.3",
  "info": {"title": "Json Store", "version": "2.0"},
  "paths": {}
}"#;

#[test]
fn parse_spec_text_reads_yaml() {
    let doc = parse_spec_text(YAML_DOC, "petstore.yaml").unwrap();
    assert_eq!(doc.info.title, "Petstore");
    assert_eq!(doc.info.version, "1.0.0");
    assert_eq!(doc.operations().count(), 1);
}

#[test]
fn parse_spec_text_reads_json() {
    let doc = parse_spec_text(JSON_DOC, "store.json").unwrap();
    assert_eq!(doc.info.title, "Json Store");
    assert_eq!(doc.operations().count(), 0);
}

#[test]
fn parse_spec_text_rejects_other_text() {
    assert_eq!(
        parse_spec_text("just some words", "notes.txt").unwrap_err(),
        "Failed to parse OpenAPI spec from notes.txt"
    );
    assert_eq!(
        parse_spec_text("openapi: 3.0.3\n", "partial.yaml").unwrap_err(),
        "Failed to parse OpenAPI spec from partial.yaml"
    );
}
