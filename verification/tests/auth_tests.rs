use tensordock_rs::parse_auth_body;

#[test]
fn auth_success_object_true() {
    assert!(parse_auth_body(r#"{"success": true}"#));
}

#[test]
fn auth_success_object_false() {
    assert!(!parse_auth_body(r#"{"success": false}"#));
}

#[test]
fn auth_success_empty_object() {
    assert!(!parse_auth_body(r#"{}"#));
}

#[test]
fn auth_success_wrong_type() {
    assert!(!parse_auth_body(r#"{"success": "yes"}"#));
}

#[test]
fn auth_success_bare_true() {
    assert!(parse_auth_body("true"));
}

#[test]
fn auth_success_bare_false() {
    assert!(!parse_auth_body("false"));
}

#[test]
fn auth_success_bare_non_boolean() {
    assert!(!parse_auth_body("42"));
    assert!(!parse_auth_body(r#""yes""#));
    assert!(!parse_auth_body("null"));
}

#[test]
fn auth_success_malformed_body() {
    assert!(!parse_auth_body("{not json"));
    assert!(!parse_auth_body(""));
}

#[test]
fn auth_success_extra_fields_ignored() {
    assert!(parse_auth_body(r#"{"other": 1, "success": true}"#));
}
