use kc_admin_mcp::clients::lookup::{
    canonical_id_text, client_reference, next_scope_page, resolve_client_scope_id, select_client_id,
    validate_client_lookup_input, build_client_scope_lookup, ClientReference,
};
use kc_admin_mcp::clients::{ClientRepresentation, ClientScopeRepresentation};
use kc_admin_mcp::json::{JsonNumber, JsonValue};

fn rep(id: Option<&str>, client_id: Option<&str>) -> ClientRepresentation {
    ClientRepresentation {
        id: id.map(|s| s.to_string()),
        client_id: client_id.map(|s| s.to_string()),
        name: None,
        enabled: None,
        protocol: None,
        public_client: None,
        created_timestamp: None,
        service_accounts_enabled: None,
    }
}

#[test]
fn canonical_ids() {
    assert_eq!(canonical_id_text("123E4567-E89B-12D3-A456-426614174000"), "123e4567-e89b-12d3-a456-426614174000");
    assert_eq!(canonical_id_text("123e4567e89b12d3a456426614174000"), "123e4567-e89b-12d3-a456-426614174000");
    assert_eq!(canonical_id_text("plain-id"), "plain-id");
}

#[test]
fn client_reference_prefers_the_internal_id() {
    let id = "123E4567-E89B-12D3-A456-426614174000".to_string();
    let cid = "agent".to_string();
    assert_eq!(
        client_reference(Some(&id), Some(&cid)).unwrap(),
        ClientReference::Known("123e4567-e89b-12d3-a456-426614174000".to_string())
    );
    assert_eq!(client_reference(None, Some(&cid)).unwrap(), ClientReference::ByClientId("agent".to_string()));
    assert_eq!(client_reference(None, None).unwrap(), ClientReference::Missing);
    let bad = "../x".to_string();
    assert!(validate_client_lookup_input(None, Some(&bad)).is_err());
    assert!(client_reference(Some(&bad), None).is_err());
}

#[test]
fn exact_client_id_lookup_selects_one_id() {
    let clients = vec![rep(Some("agent-ops-internal-id"), Some("agent-ops")), rep(Some("x"), Some("agent-ops-2"))];
    assert_eq!(select_client_id(&clients, "agent-ops").unwrap(), Some("agent-ops-internal-id".to_string()));
    assert_eq!(select_client_id(&clients, "missing").unwrap(), None);
}

#[test]
fn ambiguous_client_id_lookup_is_an_error() {
    let clients = vec![rep(Some("b"), Some("dup")), rep(Some("a"), Some("dup")), rep(Some("a"), Some("dup"))];
    let err = select_client_id(&clients, "dup").unwrap_err();
    assert_eq!(err.message, "ambiguous client_id lookup");
    match err.data {
        Some(JsonValue::Object(entries)) => {
            let matches = entries.iter().find(|(k, _)| k == "matches").map(|(_, v)| v);
            assert_eq!(
                matches,
                Some(&JsonValue::Array(vec![JsonValue::String("a".to_string()), JsonValue::String("b".to_string())]))
            );
        },
        other => panic!("{:?}", other),
    }
}

#[test]
fn scope_pages_continue_only_after_full_pages() {
    assert_eq!(next_scope_page(0, 99).unwrap(), None);
    assert_eq!(next_scope_page(0, 100).unwrap(), Some(100));
    assert_eq!(next_scope_page(u32::MAX - 10, 100).unwrap(), Some(u32::MAX));
    let err = next_scope_page(u32::MAX, 100).unwrap_err();
    match err.data {
        Some(JsonValue::Object(entries)) => {
            assert!(entries.contains(&("max".to_string(), JsonValue::Number(JsonNumber::Int(100)))));
        },
        other => panic!("{:?}", other),
    }
}

#[test]
fn single_scope_reference_resolution() {
    let lookup = build_client_scope_lookup(&[ClientScopeRepresentation {
        id: Some("s-1".to_string()),
        name: Some("roles".to_string()),
        protocol: None,
        description: None,
    }]);
    let name = "roles".to_string();
    assert_eq!(resolve_client_scope_id(&lookup, None, Some(&name)).unwrap(), Some("s-1".to_string()));
    assert_eq!(resolve_client_scope_id(&lookup, None, None).unwrap(), None);
    let bad = "a/b".to_string();
    assert!(resolve_client_scope_id(&lookup, Some(&bad), Some(&name)).is_err());
}
