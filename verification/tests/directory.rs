use kc_admin_mcp::bundles::tool_bundles;
use kc_admin_mcp::clients::service::{
    protocol_mapper_summary, require_service_account, service_account_disabled_error, service_account_from_failure,
    service_account_from_payload, ProtocolMapperRepresentation, ServiceAccountLookup,
};
use kc_admin_mcp::clients::{ClientRepresentation, RoleRepresentation};
use kc_admin_mcp::errors::GatewayFailure;
use kc_admin_mcp::groups::first_client_with_client_id;
use kc_admin_mcp::identity_providers::{identity_provider_body, IdentityProviderCreateArgs};
use kc_admin_mcp::json::JsonValue;
use kc_admin_mcp::observability::{audit_limit, AuditListArgs};
use kc_admin_mcp::roles::{
    created_role_name, require_complete_role, require_role_names, role_create_body, ResolveRolesResult, RolesCreateArgs,
};
use kc_admin_mcp::client_scopes::{
    client_scope_create_body, scope_protocol_mapper_body, ClientScopeCreateArgs, ClientScopeProtocolMapperAddArgs,
};
use kc_admin_mcp::clients::service::client_protocol_mapper_body;
use kc_admin_mcp::clients::ClientsProtocolMapperAddArgs;
use kc_admin_mcp::users::{
    client_role_mappings, reset_password_body, user_create_body, validate_user_create, UsersCreateArgs,
    UsersResetPasswordArgs,
};

fn member<'a>(v: &'a JsonValue, key: &str) -> Option<&'a JsonValue> {
    match v {
        JsonValue::Object(entries) => entries.iter().find(|(k, _)| k == key).map(|(_, v)| v),
        _ => None,
    }
}

fn role(id: Option<&str>, name: Option<&str>) -> RoleRepresentation {
    RoleRepresentation {
        id: id.map(|s| s.to_string()),
        name: name.map(|s| s.to_string()),
        description: None,
        composite: None,
        client_role: None,
        container_id: None,
    }
}

#[test]
fn bundles_group_the_tools() {
    let bundles = tool_bundles();
    let names: Vec<&str> = bundles.iter().map(|b| b.name.as_str()).collect();
    assert_eq!(
        names,
        vec!["users", "groups", "clients", "client_scopes", "roles", "realms", "identity_providers", "events", "observability"]
    );
    assert_eq!(bundles[0].tools.len(), 14);
    assert_eq!(bundles[8].tools, vec!["observability.health".to_string(), "observability.uptime".to_string()]);
}

#[test]
fn role_names_are_required() {
    let err = require_role_names(Some(vec![]), "groups.invalid_input", "role_names must include at least one role.", "r")
        .unwrap_err();
    assert_eq!(err.code, "groups.invalid_input");
    assert!(require_role_names(None, "c", "m", "r").is_err());
    assert_eq!(require_role_names(Some(vec!["a".to_string()]), "c", "m", "r").unwrap(), vec!["a".to_string()]);
}

#[test]
fn unresolved_roles_are_reported() {
    let mut resolved = ResolveRolesResult::new();
    resolved.record(&"admin".to_string(), role(Some("1"), Some("admin")));
    resolved.record(&"ghost".to_string(), role(None, Some("ghost")));
    resolved.record(&"nameless".to_string(), role(Some("3"), None));
    assert_eq!(resolved.roles.len(), 1);
    let err = resolved.require_all_found("clients.roles_missing", "r").unwrap_err();
    assert_eq!(err.message, "Missing roles: ghost, nameless");
    assert!(require_complete_role(&role(Some("1"), None), "r").is_err());
}

#[test]
fn service_account_outcomes() {
    assert_eq!(
        service_account_from_failure(GatewayFailure::Upstream { status: 404, summary: None }).unwrap(),
        ServiceAccountLookup::NotFound
    );
    let detail = Some("Client does not have a Service Account".to_string());
    assert_eq!(
        service_account_from_failure(GatewayFailure::Upstream { status: 400, summary: detail.clone() }).unwrap(),
        ServiceAccountLookup::NotEnabled { detail }
    );
    assert!(service_account_from_failure(GatewayFailure::Upstream { status: 400, summary: Some("bad".to_string()) })
        .is_err());
    let payload = JsonValue::Object(vec![("id".to_string(), JsonValue::String("user-1".to_string()))]);
    assert_eq!(service_account_from_payload(&payload), ServiceAccountLookup::Found("user-1".to_string()));
    let blank = JsonValue::Object(vec![("id".to_string(), JsonValue::String(" ".to_string()))]);
    assert_eq!(service_account_from_payload(&blank), ServiceAccountLookup::NotFound);
    let err = service_account_disabled_error("r", Some("why"));
    assert_eq!(err.message, "Service accounts are not enabled for this client (why).");
    let err = require_service_account(ServiceAccountLookup::NotEnabled { detail: Some("  ".to_string()) }, "r").unwrap_err();
    assert_eq!(err.message, "Service accounts are not enabled for this client.");
    assert_eq!(require_service_account(ServiceAccountLookup::NotFound, "r").unwrap_err().code, "clients.service_account_not_found");
}

#[test]
fn mapper_config_only_when_asked() {
    let rep = ProtocolMapperRepresentation {
        id: Some("m".to_string()),
        name: None,
        protocol: None,
        protocol_mapper: None,
        config: Some(vec![("k".to_string(), "v".to_string())]),
    };
    assert!(protocol_mapper_summary(rep.clone(), false).config.is_none());
    assert!(protocol_mapper_summary(rep, true).config.is_some());
}

#[test]
fn group_client_lookup_takes_first_match() {
    let clients = vec![
        ClientRepresentation {
            id: Some("x".to_string()),
            client_id: Some("other".to_string()),
            name: None,
            enabled: None,
            protocol: None,
            public_client: None,
            created_timestamp: None,
            service_accounts_enabled: None,
        },
        ClientRepresentation {
            id: Some("y".to_string()),
            client_id: Some("app".to_string()),
            name: None,
            enabled: None,
            protocol: None,
            public_client: None,
            created_timestamp: None,
            service_accounts_enabled: None,
        },
    ];
    assert_eq!(first_client_with_client_id(&clients, "app"), Some("y".to_string()));
    assert_eq!(first_client_with_client_id(&clients, "none"), None);
}

#[test]
fn user_requests() {
    let args = UsersCreateArgs {
        realm: "test".to_string(),
        username: "alice".to_string(),
        email: Some("a@example.org".to_string()),
        first_name: None,
        last_name: None,
        enabled: None,
    };
    assert!(validate_user_create(&args).is_ok());
    let body = user_create_body(&args);
    assert_eq!(member(&body, "enabled"), Some(&JsonValue::Bool(true)));
    assert_eq!(member(&body, "firstName"), Some(&JsonValue::Null));
    let mut bad = args.clone();
    bad.username = "../alice".to_string();
    assert_eq!(validate_user_create(&bad).unwrap_err().message, "invalid characters in username: path traversal detected");

    let reset = UsersResetPasswordArgs {
        realm: "test".to_string(),
        user_id: "u".to_string(),
        new_password: "password-1".to_string(),
        temporary: None,
    };
    let body = reset_password_body(&reset, "r").unwrap();
    assert_eq!(member(&body, "type"), Some(&JsonValue::String("password".to_string())));
    assert_eq!(member(&body, "temporary"), Some(&JsonValue::Bool(true)));
    let mut blank = reset.clone();
    blank.new_password = "  ".to_string();
    assert_eq!(reset_password_body(&blank, "r").unwrap_err().code, "users.reset_password.invalid_password");
}

#[test]
fn identity_provider_body_defaults() {
    let args = IdentityProviderCreateArgs {
        realm: "test".to_string(),
        alias: "google".to_string(),
        provider_id: "google".to_string(),
        display_name: None,
        enabled: None,
        config: Some(vec![("clientId".to_string(), "abc".to_string())]),
    };
    let body = identity_provider_body(&args);
    assert_eq!(member(&body, "enabled"), Some(&JsonValue::Bool(true)));
    assert_eq!(
        member(&body, "config"),
        Some(&JsonValue::Object(vec![("clientId".to_string(), JsonValue::String("abc".to_string()))]))
    );
}

#[test]
fn audit_limit_defaults_to_fifty() {
    assert_eq!(audit_limit(&AuditListArgs { limit: None }), 50);
    assert_eq!(audit_limit(&AuditListArgs { limit: Some(3) }), 3);
}

fn object(entries: Vec<(&str, JsonValue)>) -> JsonValue {
    JsonValue::Object(entries.into_iter().map(|(k, v)| (k.to_string(), v)).collect())
}

fn text(s: &str) -> JsonValue {
    JsonValue::String(s.to_string())
}

#[test]
fn role_create_body_defaults_to_plain_role() {
    let args = RolesCreateArgs {
        realm: "alpha".to_string(),
        name: "auditor".to_string(),
        description: None,
        composite: None,
    };
    let body = role_create_body(&args);
    assert_eq!(
        body,
        object(vec![("name", text("auditor")), ("description", JsonValue::Null), ("composite", JsonValue::Bool(false))])
    );
}

#[test]
fn created_role_name_prefers_role_name_member() {
    let answer = object(vec![("roleName", text("from-role-name")), ("name", text("from-name"))]);
    assert_eq!(created_role_name(&answer, "requested"), "from-role-name");
    let answer = object(vec![("name", text("from-name"))]);
    assert_eq!(created_role_name(&answer, "requested"), "from-name");
    let answer = object(vec![("roleName", JsonValue::Bool(true)), ("name", text("from-name"))]);
    assert_eq!(created_role_name(&answer, "requested"), "requested");
    assert_eq!(created_role_name(&JsonValue::Null, "requested"), "requested");
}

#[test]
fn client_scope_create_body_defaults_to_openid_connect() {
    let args = ClientScopeCreateArgs {
        realm: "alpha".to_string(),
        name: "profile-extra".to_string(),
        protocol: None,
        description: Some("extra claims".to_string()),
    };
    assert_eq!(
        client_scope_create_body(&args),
        object(vec![
            ("name", text("profile-extra")),
            ("protocol", text("openid-connect")),
            ("description", text("extra claims")),
        ])
    );
    let saml = ClientScopeCreateArgs { protocol: Some("saml".to_string()), description: None, ..args };
    assert_eq!(member(&client_scope_create_body(&saml), "protocol"), Some(&text("saml")));
    assert_eq!(member(&client_scope_create_body(&saml), "description"), Some(&JsonValue::Null));
}

#[test]
fn protocol_mapper_bodies() {
    let args = ClientsProtocolMapperAddArgs {
        realm: "alpha".to_string(),
        id: None,
        client_id: Some("web".to_string()),
        name: "email".to_string(),
        protocol: "openid-connect".to_string(),
        protocol_mapper: "oidc-usermodel-property-mapper".to_string(),
        config: Some(vec![("claim.name".to_string(), "email".to_string())]),
        consent_required: Some(false),
        consent_text: None,
    };
    assert_eq!(
        client_protocol_mapper_body(&args),
        object(vec![
            ("name", text("email")),
            ("protocol", text("openid-connect")),
            ("protocolMapper", text("oidc-usermodel-property-mapper")),
            ("config", object(vec![("claim.name", text("email"))])),
            ("consentRequired", JsonValue::Bool(false)),
            ("consentText", JsonValue::Null),
        ])
    );
    let scoped = ClientScopeProtocolMapperAddArgs {
        realm: "alpha".to_string(),
        scope_id: None,
        scope_name: Some("profile".to_string()),
        mapper_name: "locale".to_string(),
        protocol: "openid-connect".to_string(),
        protocol_mapper: "oidc-usermodel-attribute-mapper".to_string(),
        config: None,
    };
    assert_eq!(
        scope_protocol_mapper_body(&scoped),
        object(vec![
            ("name", text("locale")),
            ("protocol", text("openid-connect")),
            ("protocolMapper", text("oidc-usermodel-attribute-mapper")),
            ("config", JsonValue::Null),
        ])
    );
}


#[test]
fn client_role_mappings_follow_the_listing() {
    let role = |name: &str| JsonValue::Object(vec![("name".to_string(), JsonValue::String(name.to_string()))]);
    let payload = JsonValue::Object(vec![
        ("realmMappings".to_string(), JsonValue::Array(vec![role("offline_access")])),
        (
            "clientMappings".to_string(),
            JsonValue::Object(vec![
                (
                    "account".to_string(),
                    JsonValue::Object(vec![
                        ("client".to_string(), JsonValue::String("account".to_string())),
                        ("mappings".to_string(), JsonValue::Array(vec![role("view-profile"), role("manage-account")])),
                    ]),
                ),
                ("broker".to_string(), JsonValue::Object(vec![("id".to_string(), JsonValue::String("b".to_string()))])),
            ]),
        ),
    ]);
    let mappings = client_role_mappings(payload);
    assert_eq!(mappings.len(), 2);
    assert_eq!(mappings[0].client_id, "account");
    assert_eq!(mappings[0].client_name.as_deref(), Some("account"));
    assert_eq!(mappings[0].roles, vec![role("view-profile"), role("manage-account")]);
    assert_eq!(mappings[1].client_id, "broker");
    assert_eq!(mappings[1].client_name, None);
    assert!(mappings[1].roles.is_empty());
    assert!(client_role_mappings(JsonValue::Object(Vec::new())).is_empty());
}
