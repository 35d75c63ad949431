use kc_admin_mcp::clients::ClientScopeRepresentation;
use kc_admin_mcp::json::{JsonNumber, JsonValue};
use kc_admin_mcp::realms::{
    initial_access_body, match_registration_policy_components, realm_default_scope_member_path,
    realm_default_scopes_path, realm_events_config_body, realm_parent_id, realm_scope_id, realm_scope_summary,
    registration_policy_config_bool, registration_policy_config_values, registration_policy_create_body,
    registration_policy_updated_component, require_initial_access_id, require_policy_changes,
    resolve_registration_policy_provider_id, select_registration_policy, set_config_bool, set_config_list,
    summarize_registration_policy_component, ClientInitialAccessCreateArgs, ClientRegistrationPolicyCreateArgs,
    DefaultScopeKind, RealmEventsConfig, DEFAULT_ALLOWED_CLIENT_SCOPES_PROVIDER,
};
use kc_admin_mcp::errors::Refusal;

fn s(v: &str) -> JsonValue {
    JsonValue::String(v.to_string())
}

fn obj(entries: Vec<(&str, JsonValue)>) -> JsonValue {
    JsonValue::Object(entries.into_iter().map(|(k, v)| (k.to_string(), v)).collect())
}

fn member<'a>(v: &'a JsonValue, key: &str) -> Option<&'a JsonValue> {
    match v {
        JsonValue::Object(entries) => entries.iter().find(|(k, _)| k == key).map(|(_, v)| v),
        _ => None,
    }
}

fn strings(items: &[&str]) -> JsonValue {
    JsonValue::Array(items.iter().map(|i| s(i)).collect())
}

#[test]
fn registration_policy_match_requires_all_selectors() {
    let components = vec![
        obj(vec![
            ("id", s("component-1")),
            ("name", s("Allowed Client Scopes")),
            ("providerId", s(DEFAULT_ALLOWED_CLIENT_SCOPES_PROVIDER)),
        ]),
        obj(vec![("id", s("component-2")), ("name", s("Other Policy")), ("providerId", s("other-provider"))]),
    ];

    let matches = match_registration_policy_components(&components, Some("component-1"), None, Some("wrong-provider"));
    assert!(matches.is_empty());

    let matches = match_registration_policy_components(
        &components,
        Some("component-1"),
        None,
        Some(DEFAULT_ALLOWED_CLIENT_SCOPES_PROVIDER),
    );
    assert_eq!(matches, vec![0]);

    let matches = match_registration_policy_components(&components, None, Some("Other Policy"), None);
    assert_eq!(matches, vec![1]);
}

#[test]
fn no_selector_matches_nothing() {
    let components = vec![obj(vec![("id", s("c"))])];
    assert!(match_registration_policy_components(&components, None, None, None).is_empty());
}

#[test]
fn provider_defaults_only_without_selectors() {
    assert_eq!(
        resolve_registration_policy_provider_id(&None, &None, &None),
        Some("allowed-client-templates".to_string())
    );
    assert_eq!(resolve_registration_policy_provider_id(&Some("x".to_string()), &None, &None), None);
    assert_eq!(
        resolve_registration_policy_provider_id(&None, &None, &Some("p".to_string())),
        Some("p".to_string())
    );
}

#[test]
fn default_scope_paths() {
    assert_eq!(
        realm_default_scopes_path("alpha", &DefaultScopeKind::Default),
        "/admin/realms/alpha/default-default-client-scopes"
    );
    assert_eq!(
        realm_default_scope_member_path("alpha", &DefaultScopeKind::Optional, "s-1"),
        "/admin/realms/alpha/default-optional-client-scopes/s-1"
    );
}

#[test]
fn config_values_read_either_key() {
    let config = vec![
        ("allowed-client-scopes".to_string(), JsonValue::Array(vec![s("a"), JsonValue::Bool(true), s("b")])),
        ("allowDefaultScopes".to_string(), strings(&["false"])),
    ];
    assert_eq!(
        registration_policy_config_values(&config, "allowedClientScopes", "allowed-client-scopes"),
        vec!["a".to_string(), "b".to_string()]
    );
    assert_eq!(registration_policy_config_bool(&config, "allowDefaultScopes", "allow-default-scopes"), Some(false));
    let single = vec![("allowedClientScopes".to_string(), s("only"))];
    assert_eq!(
        registration_policy_config_values(&single, "allowedClientScopes", "allowed-client-scopes"),
        vec!["only".to_string()]
    );
    let odd = vec![("allowDefaultScopes".to_string(), s("yes"))];
    assert_eq!(registration_policy_config_bool(&odd, "allowDefaultScopes", "allow-default-scopes"), None);
    let flag = vec![("allow-default-scopes".to_string(), JsonValue::Bool(true))];
    assert_eq!(registration_policy_config_bool(&flag, "allowDefaultScopes", "allow-default-scopes"), Some(true));
}

#[test]
fn config_writes_keep_the_present_key() {
    let config = vec![("allowed-client-scopes".to_string(), strings(&["old"])), ("keep".to_string(), s("me"))];
    let updated = set_config_list(config, "allowedClientScopes", "allowed-client-scopes", &["n1".to_string()]);
    assert_eq!(updated.len(), 2);
    assert_eq!(updated[0], ("allowed-client-scopes".to_string(), strings(&["n1"])));
    assert_eq!(updated[1], ("keep".to_string(), s("me")));
    let fresh = set_config_bool(Vec::new(), "allowDefaultScopes", "allow-default-scopes", true);
    assert_eq!(fresh, vec![("allowDefaultScopes".to_string(), strings(&["true"]))]);
}

#[test]
fn summarize_reads_component_and_config() {
    let component = obj(vec![
        ("id", s("component-1")),
        ("name", s("Allowed Client Scopes")),
        ("providerId", s("allowed-client-templates")),
        ("providerType", s("org.keycloak.services.clientregistration.policy.ClientRegistrationPolicy")),
        ("parentId", s("realm-1")),
        (
            "config",
            obj(vec![
                ("allowedClientScopes", strings(&["scope-a", "scope-b"])),
                ("allowDefaultScopes", strings(&["false"])),
                ("customOption", strings(&["preserved"])),
            ]),
        ),
    ]);
    let summary = summarize_registration_policy_component(component).expect("object");
    assert_eq!(summary.id.as_deref(), Some("component-1"));
    assert_eq!(summary.parent_id.as_deref(), Some("realm-1"));
    assert_eq!(summary.allowed_scopes, vec!["scope-a".to_string(), "scope-b".to_string()]);
    assert_eq!(summary.allow_default_scopes, Some(false));
    assert_eq!(member(&summary.config, "customOption"), Some(&strings(&["preserved"])));
    assert!(summarize_registration_policy_component(s("not an object")).is_none());
}

#[test]
fn update_touches_only_the_policy_config() {
    let component = obj(vec![
        ("id", s("component-1")),
        ("name", s("n")),
        ("config", obj(vec![("allowed-client-scopes", strings(&["old"])), ("customOption", strings(&["keep"]))])),
    ]);
    let (id, updated) =
        registration_policy_updated_component(component, &["a".to_string(), "b".to_string()], Some(true), "r")
            .expect("updated");
    assert_eq!(id, "component-1");
    assert_eq!(member(&updated, "name"), Some(&s("n")));
    let config = member(&updated, "config").expect("config");
    assert_eq!(member(config, "allowed-client-scopes"), Some(&strings(&["a", "b"])));
    assert_eq!(member(config, "allowedClientScopes"), None);
    assert_eq!(member(config, "allowDefaultScopes"), Some(&strings(&["true"])));
    assert_eq!(member(config, "customOption"), Some(&strings(&["keep"])));
}

#[test]
fn policy_update_refusals() {
    match registration_policy_updated_component(s("x"), &[], None, "r") {
        Err(Refusal::Protocol(e)) => assert_eq!(e.message, "component is not an object"),
        other => panic!("{:?}", other),
    }
    match registration_policy_updated_component(obj(vec![("id", s("c")), ("config", s("bad"))]), &[], None, "r") {
        Err(Refusal::Protocol(e)) => assert_eq!(e.message, "component config is not an object"),
        other => panic!("{:?}", other),
    }
    match registration_policy_updated_component(obj(vec![("name", s("n"))]), &[], None, "r") {
        Err(Refusal::Tool(e)) => assert_eq!(e.code, "client_registration.policies.missing_id"),
        other => panic!("{:?}", other),
    }
}

#[test]
fn selection_and_change_checks() {
    assert_eq!(select_registration_policy(&[3], "r").unwrap(), 3);
    assert_eq!(select_registration_policy(&[], "r").unwrap_err().code, "client_registration.policies.not_found");
    assert_eq!(select_registration_policy(&[1, 2], "r").unwrap_err().code, "client_registration.policies.ambiguous");
    let err = require_policy_changes(&[], None, "client_registration.policies.create.no_changes", "r").unwrap_err();
    assert_eq!(err.message, "allowed_scopes or allow_default_scopes must be set.");
    assert!(require_policy_changes(&[], Some(false), "c", "r").is_ok());
}

#[test]
fn create_body_defaults_provider_and_name() {
    let args = ClientRegistrationPolicyCreateArgs {
        realm: "alpha".to_string(),
        name: None,
        provider_id: None,
        allowed_scopes: vec!["scope-a".to_string()],
        allow_default_scopes: None,
    };
    let body = registration_policy_create_body(&args, "realm-1");
    assert_eq!(member(&body, "name"), Some(&s("allowed-client-templates")));
    assert_eq!(member(&body, "providerId"), Some(&s("allowed-client-templates")));
    assert_eq!(member(&body, "parentId"), Some(&s("realm-1")));
    let config = member(&body, "config").expect("config");
    assert_eq!(member(config, "allowedClientScopes"), Some(&strings(&["scope-a"])));
    assert_eq!(member(config, "allowDefaultScopes"), None);
}

#[test]
fn parent_id_must_not_be_blank() {
    assert_eq!(realm_parent_id(&obj(vec![("id", s("realm-1"))])), Some("realm-1".to_string()));
    assert_eq!(realm_parent_id(&obj(vec![("id", s("  "))])), None);
    assert_eq!(realm_parent_id(&obj(vec![])), None);
}

#[test]
fn realm_scope_resolution_and_summary() {
    let scopes = vec![
        ClientScopeRepresentation { id: None, name: Some("dup".to_string()), protocol: None, description: None },
        ClientScopeRepresentation { id: Some("s-2".to_string()), name: Some("dup".to_string()), protocol: None, description: None },
    ];
    assert_eq!(realm_scope_id(&Some("given".to_string()), &Some("dup".to_string()), &scopes), Some("given".to_string()));
    assert_eq!(realm_scope_id(&None, &Some("dup".to_string()), &scopes), None);
    assert_eq!(realm_scope_id(&None, &None, &scopes), None);
    let long = "x".repeat(1030);
    let summary = realm_scope_summary(ClientScopeRepresentation {
        id: Some("s".to_string()),
        name: None,
        protocol: None,
        description: Some(long),
    });
    assert_eq!(summary.description.map(|d| d.chars().count()), Some(1024));
}

#[test]
fn events_config_body_has_given_settings_only() {
    let body = realm_events_config_body(&RealmEventsConfig {
        events_enabled: Some(true),
        events_expiration: None,
        events_listeners: Some(vec!["jboss-logging".to_string()]),
        enabled_event_types: None,
        admin_events_enabled: None,
        admin_events_details_enabled: Some(false),
    });
    assert_eq!(member(&body, "eventsEnabled"), Some(&JsonValue::Bool(true)));
    assert_eq!(member(&body, "eventsListeners"), Some(&strings(&["jboss-logging"])));
    assert_eq!(member(&body, "adminEventsDetailsEnabled"), Some(&JsonValue::Bool(false)));
    assert_eq!(member(&body, "eventsExpiration"), None);
    match body {
        JsonValue::Object(entries) => assert_eq!(entries.len(), 3),
        _ => panic!("not an object"),
    }
}

#[test]
fn initial_access_checks_and_body() {
    assert_eq!(require_initial_access_id(" ", "r").unwrap_err().code, "client_initial_access.invalid_id");
    assert!(require_initial_access_id("id-1", "r").is_ok());
    let body = initial_access_body(&ClientInitialAccessCreateArgs { realm: "a".to_string(), count: Some(2), expiration: None });
    assert_eq!(member(&body, "count"), Some(&JsonValue::Number(JsonNumber::Int(2))));
    assert_eq!(member(&body, "expiration"), Some(&JsonValue::Null));
}

#[test]
fn summary_of_updated_policy_reports_written_settings() {
    let component = obj(vec![
        ("id", s("component-7")),
        ("providerId", s("allowed-client-templates")),
        ("config", obj(vec![("allowedClientScopes", strings(&["old"])), ("allowDefaultScopes", strings(&["true"]))])),
    ]);
    let (_, updated) = registration_policy_updated_component(
        component,
        &["profile".to_string(), "email".to_string()],
        Some(false),
        "r",
    )
    .expect("updated");
    let summary = summarize_registration_policy_component(updated).expect("object");
    assert_eq!(summary.allowed_scopes, vec!["profile".to_string(), "email".to_string()]);
    assert_eq!(summary.allow_default_scopes, Some(false));
    assert_eq!(summary.id.as_deref(), Some("component-7"));
}

#[test]
fn summary_of_created_policy_reports_requested_settings() {
    let args = ClientRegistrationPolicyCreateArgs {
        realm: "alpha".to_string(),
        name: Some("Scopes policy".to_string()),
        provider_id: Some("allowed-client-templates".to_string()),
        allowed_scopes: vec!["roles".to_string(), "web-origins".to_string()],
        allow_default_scopes: Some(true),
    };
    let body = registration_policy_create_body(&args, "realm-9");
    let summary = summarize_registration_policy_component(body).expect("object");
    assert_eq!(summary.allowed_scopes, vec!["roles".to_string(), "web-origins".to_string()]);
    assert_eq!(summary.allow_default_scopes, Some(true));
    assert_eq!(summary.name.as_deref(), Some("Scopes policy"));
    assert_eq!(summary.parent_id.as_deref(), Some("realm-9"));
}
