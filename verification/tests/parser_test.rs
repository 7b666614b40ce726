use toolscript::parser::{camel_to_snake, derive_api_name, derive_function_name, fallback_function_name};

#[test]
fn test_camel_to_snake_basic() {
    assert_eq!(camel_to_snake("listPets"), "list_pets");
    assert_eq!(camel_to_snake("getPetById"), "get_pet_by_id");
    assert_eq!(camel_to_snake("createPet"), "create_pet");
}

#[test]
fn test_camel_to_snake_already_snake() {
    assert_eq!(camel_to_snake("list_pets"), "list_pets");
}

#[test]
fn test_camel_to_snake_uppercase_run() {
    assert_eq!(camel_to_snake("HTMLParser"), "html_parser");
    assert_eq!(camel_to_snake("getAPIKey"), "get_api_key");
}

#[test]
fn test_camel_to_snake_single_word() {
    assert_eq!(camel_to_snake("pets"), "pets");
    assert_eq!(camel_to_snake("Pets"), "pets");
}

#[test]
fn camel_to_snake_digits_and_empty() {
    assert_eq!(camel_to_snake("get2Pets"), "get2_pets");
    assert_eq!(camel_to_snake(""), "");
    assert_eq!(camel_to_snake("ABC"), "abc");
}

#[test]
fn test_fallback_function_name() {
    assert_eq!(fallback_function_name("get", "/pets"), "get_pets");
    assert_eq!(fallback_function_name("get", "/pets/{petId}"), "get_pets_by_pet_id");
    assert_eq!(fallback_function_name("post", "/pets"), "post_pets");
    assert_eq!(
        fallback_function_name("delete", "/pets/{petId}/toys/{toyId}"),
        "delete_pets_by_pet_id_toys_by_toy_id"
    );
}

#[test]
fn fallback_function_name_edges() {
    assert_eq!(fallback_function_name("GET", "/"), "get");
    assert_eq!(fallback_function_name("get", "//a//b/"), "get_a_b");
    assert_eq!(fallback_function_name("get", "/{}"), "get_by_");
}

#[test]
fn derive_function_name_prefers_operation_id() {
    assert_eq!(derive_function_name(Some("listPets"), "get", "/pets"), "list_pets");
    assert_eq!(derive_function_name(None, "get", "/pets"), "get_pets");
}

#[test]
fn test_derive_api_name_with_spaces() {
    assert_eq!(derive_api_name("My Cool API"), "my_cool_api");
}

#[test]
fn derive_api_name_collapses_and_trims() {
    assert_eq!(derive_api_name("Swagger Petstore"), "swagger_petstore");
    assert_eq!(derive_api_name("  --Hello,  World!-- "), "hello_world");
    assert_eq!(derive_api_name("petstore"), "petstore");
    assert_eq!(derive_api_name("***"), "");
}

#[test]
fn test_derive_api_name() {
    // The petstore document's title is "Petstore".
    assert_eq!(derive_api_name("Petstore"), "petstore");
}

#[test]
fn camel_to_snake_twice_is_once() {
    for name in ["listPets", "HTMLParser", "getPetByID", "already_snake", "Version2Api"] {
        let once = camel_to_snake(name);
        assert_eq!(camel_to_snake(&once), once);
    }
}
