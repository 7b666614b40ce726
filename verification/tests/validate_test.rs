use toolscript::manifest::{ParamDef, ParamLocation, ParamType};
use toolscript::validate::{validate_param_value, AddressChecks};

fn make_param(name: &str, enum_values: Option<Vec<String>>, format: Option<String>) -> ParamDef {
    ParamDef {
        name: name.to_string(),
        location: ParamLocation::Query,
        param_type: ParamType::String,
        required: true,
        description: None,
        default: None,
        enum_values,
        format,
        frozen_value: None,
    }
}

/// Validates with what the standard library's address parsers say of the
/// values these tests use (only `192.168.1.1` is an IPv4 address and only
/// `::1` an IPv6 one).
fn check(func: &str, param: &ParamDef, value: &str) -> Result<(), String> {
    let addr = AddressChecks { ipv4: value == "192.168.1.1", ipv6: value == "::1" };
    validate_param_value(func, param, value, addr)
}

#[test]
fn enum_valid_value_passes() {
    let param = make_param(
        "status",
        Some(vec!["active".to_string(), "inactive".to_string()]),
        None,
    );
    assert!(check("list_users", &param, "active").is_ok());
}

#[test]
fn enum_invalid_value_returns_error_with_details() {
    let param = make_param(
        "status",
        Some(vec!["active".to_string(), "inactive".to_string()]),
        None,
    );
    let err = check("list_users", &param, "deleted")
        .unwrap_err()
        .to_string();
    assert!(
        err.contains("list_users"),
        "error should contain func name: {err}"
    );
    assert!(
        err.contains("status"),
        "error should contain param name: {err}"
    );
    assert!(
        err.contains("deleted"),
        "error should contain actual value: {err}"
    );
    assert!(
        err.contains("active"),
        "error should contain allowed values: {err}"
    );
}

// -------------------------------------------------------
// No constraints
// -------------------------------------------------------

#[test]
fn no_constraints_passes_any_value() {
    let param = make_param("anything", None, None);
    assert!(check("func", &param, "literally anything!").is_ok());
}

// -------------------------------------------------------
// UUID
// -------------------------------------------------------

#[test]
fn uuid_valid_lowercase() {
    let param = make_param("id", None, Some("uuid".to_string()));
    assert!(
        check("get_item", &param, "550e8400-e29b-41d4-a716-446655440000")
            .is_ok()
    );
}

#[test]
fn uuid_valid_uppercase() {
    let param = make_param("id", None, Some("uuid".to_string()));
    assert!(
        check("get_item", &param, "550E8400-E29B-41D4-A716-446655440000")
            .is_ok()
    );
}

#[test]
fn uuid_invalid_format() {
    let param = make_param("id", None, Some("uuid".to_string()));
    assert!(check("get_item", &param, "not-a-uuid").is_err());
}

#[test]
fn uuid_invalid_too_short() {
    let param = make_param("id", None, Some("uuid".to_string()));
    assert!(check("get_item", &param, "550e8400-e29b-41d4-a716").is_err());
}

// -------------------------------------------------------
// date-time
// -------------------------------------------------------

#[test]
fn datetime_valid_z() {
    let param = make_param("ts", None, Some("date-time".to_string()));
    assert!(check("f", &param, "2024-01-15T08:30:00Z").is_ok());
}

#[test]
fn datetime_valid_positive_offset() {
    let param = make_param("ts", None, Some("date-time".to_string()));
    assert!(check("f", &param, "2024-01-15T08:30:00+05:30").is_ok());
}

#[test]
fn datetime_valid_fractional_seconds() {
    let param = make_param("ts", None, Some("date-time".to_string()));
    assert!(check("f", &param, "2024-01-15T08:30:00.123Z").is_ok());
}

#[test]
fn datetime_invalid_just_a_date() {
    let param = make_param("ts", None, Some("date-time".to_string()));
    assert!(check("f", &param, "2024-01-15").is_err());
}

#[test]
fn datetime_invalid_garbage() {
    let param = make_param("ts", None, Some("date-time".to_string()));
    assert!(check("f", &param, "not-a-datetime").is_err());
}

// -------------------------------------------------------
// date
// -------------------------------------------------------

#[test]
fn date_valid() {
    let param = make_param("d", None, Some("date".to_string()));
    assert!(check("f", &param, "2024-01-15").is_ok());
}

#[test]
fn date_invalid_wrong_format() {
    let param = make_param("d", None, Some("date".to_string()));
    assert!(check("f", &param, "01-15-2024").is_err());
}

// -------------------------------------------------------
// email
// -------------------------------------------------------

#[test]
fn email_valid() {
    let param = make_param("e", None, Some("email".to_string()));
    assert!(check("f", &param, "user@example.com").is_ok());
}

#[test]
fn email_invalid_no_at() {
    let param = make_param("e", None, Some("email".to_string()));
    assert!(check("f", &param, "userexample.com").is_err());
}

#[test]
fn email_invalid_no_domain_dot() {
    let param = make_param("e", None, Some("email".to_string()));
    assert!(check("f", &param, "user@localhost").is_err());
}

// -------------------------------------------------------
// uri / url
// -------------------------------------------------------

#[test]
fn uri_valid_https() {
    let param = make_param("u", None, Some("uri".to_string()));
    assert!(check("f", &param, "https://example.com/path?q=1").is_ok());
}

#[test]
fn uri_invalid() {
    let param = make_param("u", None, Some("uri".to_string()));
    assert!(check("f", &param, "not a url").is_err());
}

#[test]
fn url_format_valid() {
    let param = make_param("u", None, Some("url".to_string()));
    assert!(check("f", &param, "https://example.com").is_ok());
}

// -------------------------------------------------------
// ipv4
// -------------------------------------------------------

#[test]
fn ipv4_valid() {
    let param = make_param("ip", None, Some("ipv4".to_string()));
    assert!(check("f", &param, "192.168.1.1").is_ok());
}

#[test]
fn ipv4_invalid_out_of_range() {
    let param = make_param("ip", None, Some("ipv4".to_string()));
    assert!(check("f", &param, "999.999.999.999").is_err());
}

// -------------------------------------------------------
// ipv6
// -------------------------------------------------------

#[test]
fn ipv6_valid_loopback() {
    let param = make_param("ip", None, Some("ipv6".to_string()));
    assert!(check("f", &param, "::1").is_ok());
}

#[test]
fn ipv6_invalid() {
    let param = make_param("ip", None, Some("ipv6".to_string()));
    assert!(check("f", &param, "not-ipv6").is_err());
}

// -------------------------------------------------------
// hostname
// -------------------------------------------------------

#[test]
fn hostname_valid() {
    let param = make_param("h", None, Some("hostname".to_string()));
    assert!(check("f", &param, "api.example.com").is_ok());
}

#[test]
fn hostname_invalid_underscore() {
    let param = make_param("h", None, Some("hostname".to_string()));
    assert!(check("f", &param, "invalid_host.com").is_err());
}

#[test]
fn hostname_invalid_label_too_long() {
    let param = make_param("h", None, Some("hostname".to_string()));
    let long_label = "a".repeat(64);
    let hostname = format!("{long_label}.com");
    assert!(check("f", &param, &hostname).is_err());
}

// -------------------------------------------------------
// int32
// -------------------------------------------------------

#[test]
fn int32_valid_positive() {
    let param = make_param("n", None, Some("int32".to_string()));
    assert!(check("f", &param, "42").is_ok());
}

#[test]
fn int32_valid_min() {
    let param = make_param("n", None, Some("int32".to_string()));
    assert!(check("f", &param, "-2147483648").is_ok());
}

#[test]
fn int32_valid_max() {
    let param = make_param("n", None, Some("int32".to_string()));
    assert!(check("f", &param, "2147483647").is_ok());
}

#[test]
fn int32_invalid_overflow() {
    let param = make_param("n", None, Some("int32".to_string()));
    assert!(check("f", &param, "2147483648").is_err());
}

#[test]
fn int32_invalid_underflow() {
    let param = make_param("n", None, Some("int32".to_string()));
    assert!(check("f", &param, "-2147483649").is_err());
}

#[test]
fn int32_invalid_non_numeric() {
    let param = make_param("n", None, Some("int32".to_string()));
    assert!(check("f", &param, "abc").is_err());
}

// -------------------------------------------------------
// int64
// -------------------------------------------------------

#[test]
fn int64_valid_max() {
    let param = make_param("n", None, Some("int64".to_string()));
    assert!(check("f", &param, "9223372036854775807").is_ok());
}

#[test]
fn int64_invalid_non_numeric() {
    let param = make_param("n", None, Some("int64".to_string()));
    assert!(check("f", &param, "xyz").is_err());
}

// -------------------------------------------------------
// Unknown format
// -------------------------------------------------------

#[test]
fn unknown_format_passes_any_value() {
    let param = make_param("x", None, Some("custom-thing".to_string()));
    assert!(check("f", &param, "literally anything").is_ok());
}

// -------------------------------------------------------
// Edge cases
// -------------------------------------------------------

#[test]
fn empty_string_no_constraints_passes() {
    let param = make_param("x", None, None);
    assert!(check("f", &param, "").is_ok());
}

#[test]
fn int32_empty_string_fails() {
    let param = make_param("n", None, Some("int32".to_string()));
    assert!(check("f", &param, "").is_err());
}

#[test]
fn datetime_valid_negative_offset() {
    let param = make_param("ts", None, Some("date-time".to_string()));
    assert!(check("f", &param, "2024-01-15T08:30:00-05:00").is_ok());
}

#[test]
fn datetime_valid_lowercase_z() {
    let param = make_param("ts", None, Some("date-time".to_string()));
    assert!(check("f", &param, "2024-01-15T10:30:00z").is_ok());
}


#[test]
fn enum_error_message_exact() {
    let param = make_param("status", Some(vec!["active".to_string(), "inactive".to_string()]), None);
    let err = check("list_users", &param, "deleted").unwrap_err();
    assert_eq!(err, "parameter 'status' for 'list_users': expected one of [active, inactive], got 'deleted'");
}

#[test]
fn format_error_message_exact() {
    let param = make_param("id", None, Some("uuid".to_string()));
    let err = check("get_item", &param, "nope").unwrap_err();
    assert_eq!(err, "parameter 'id' for 'get_item': expected uuid format, got 'nope'");
}

#[test]
fn enum_checked_before_format() {
    let param = make_param("id", Some(vec!["x".to_string()]), Some("uuid".to_string()));
    let err = check("f", &param, "y").unwrap_err();
    assert!(err.contains("expected one of"), "{err}");
}

#[test]
fn int64_overflow_fails() {
    let param = make_param("n", None, Some("int64".to_string()));
    assert!(check("f", &param, "9223372036854775808").is_err());
    assert!(check("f", &param, "-9223372036854775808").is_ok());
}

#[test]
fn datetime_checks_shape_not_ranges() {
    let param = make_param("ts", None, Some("date-time".to_string()));
    assert!(check("f", &param, "2024-13-15T08:30:00Z").is_ok());
    assert!(check("f", &param, "2024-01-15T08:30:00+0530").is_err());
    assert!(check("f", &param, "2024-01-15T08:30:00.Z").is_err());
}

#[test]
fn datetime_rejects_text_after_zone() {
    let param = make_param("ts", None, Some("date-time".to_string()));
    assert!(check("f", &param, "2024-01-15T08:30:00Zjunk").is_err());
    assert!(check("f", &param, "2024-01-15T08:30:00zZ").is_err());
    assert!(check("f", &param, "2024-01-15T0000000\u{e9}Z").is_err());
}

#[test]
fn int32_accepts_leading_plus() {
    let param = make_param("n", None, Some("int32".to_string()));
    assert!(check("f", &param, "+42").is_ok());
    assert!(check("f", &param, "4 2").is_err());
}
