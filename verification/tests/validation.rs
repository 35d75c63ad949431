use kc_admin_mcp::validation::{validate_no_path_traversal, validate_realm_name, validate_uuid};

#[test]
fn test_validate_realm_name() {
    assert!(validate_realm_name("master").is_ok());
    assert!(validate_realm_name("my-realm_123").is_ok());
    assert!(validate_realm_name("invalid/realm").is_err());
    assert!(validate_realm_name("invalid realm").is_err());
    assert!(validate_realm_name("..").is_err());
}

#[test]
fn test_validate_uuid() {
    assert!(validate_uuid("550e8400-e29b-41d4-a716-446655440000", "id").is_ok());
    assert!(validate_uuid("invalid-uuid", "id").is_err());
}

#[test]
fn test_validate_no_path_traversal() {
    assert!(validate_no_path_traversal("safe-name", "name").is_ok());
    assert!(validate_no_path_traversal("unsafe/name", "name").is_err());
    assert!(validate_no_path_traversal("unsafe\\name", "name").is_err());
    assert!(validate_no_path_traversal("..", "name").is_err());
}

#[test]
fn validation_messages_and_codes() {
    let err = validate_realm_name("").unwrap_err();
    assert_eq!(err.code, -32602);
    assert_eq!(err.message, "realm name cannot be empty");
    let err = validate_realm_name("a b").unwrap_err();
    assert_eq!(err.message, "invalid realm name format: 'a b' (must be alphanumeric, '-', or '_')");
    let err = validate_uuid("xyz", "scope_id").unwrap_err();
    assert_eq!(err.message, "invalid scope_id: 'xyz' (must be a valid UUID)");
    let err = validate_no_path_traversal("a..b", "client_id").unwrap_err();
    assert_eq!(err.message, "invalid characters in client_id: path traversal detected");
    assert!(err.data.is_none());
}

#[test]
fn uuid_forms_accepted_by_the_parser() {
    assert!(validate_uuid("550E8400E29B41D4A716446655440000", "id").is_ok());
    assert!(validate_uuid("{550e8400-e29b-41d4-a716-446655440000}", "id").is_ok());
    assert!(validate_uuid("urn:uuid:550e8400-e29b-41d4-a716-446655440000", "id").is_ok());
    assert!(validate_uuid("550e8400-e29b-41d4-a716-44665544000g", "id").is_err());
    assert!(validate_uuid("", "id").is_err());
}

#[test]
fn realm_names_outside_the_ascii_class_are_refused() {
    assert!(validate_realm_name("réalm").is_err());
    assert!(validate_realm_name("realm\n").is_err());
    assert!(validate_realm_name("A-Z_09").is_ok());
}
