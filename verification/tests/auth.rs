use kc_admin_mcp::auth::{
    classify_scopes, ensure_secret_tools_enabled, has_any_role, require_roles_for_scopes, require_scopes,
    AuthContext, ClientsScopes, Config, EventsScopes, ReadScopes, ReadWriteScopes, RealmsScopes, RoleGateKind,
    RoleRequirements, ScopeMap,
};

fn v(items: &[&str]) -> Vec<String> {
    items.iter().map(|s| s.to_string()).collect()
}

fn rw(prefix: &str) -> ReadWriteScopes {
    ReadWriteScopes { read: v(&[&format!("{prefix}:read")]), write: v(&[&format!("{prefix}:write")]) }
}

fn config(read_roles: &[&str], write_roles: &[&str], secrets: bool) -> Config {
    Config {
        scope_map: ScopeMap {
            users: rw("users"),
            groups: rw("groups"),
            roles: rw("roles"),
            clients: ClientsScopes {
                read: v(&["clients:read"]),
                write: v(&["clients:write"]),
                secrets: v(&["clients:secrets"]),
            },
            client_scopes: rw("client-scopes"),
            identity_providers: rw("idp"),
            realms: RealmsScopes { read: v(&["realm:read"]), write: v(&["realm:write"]), admin: v(&["realm:admin"]) },
            events: EventsScopes { read: v(&["events:read"]), admin: v(&["events:admin"]) },
            tokens: ReadScopes { read: v(&["tokens:read"]) },
            observability: ReadScopes { read: v(&["observability:read"]) },
        },
        role_requirements: RoleRequirements { read: v(read_roles), write: v(write_roles) },
        enable_secret_tools: secrets,
    }
}

fn ctx(scopes: &[&str], roles: &[&str]) -> AuthContext {
    AuthContext { scopes: v(scopes), roles: v(roles), request_id: "req-1".to_string() }
}

#[test]
fn missing_scopes_are_listed_in_order() {
    let c = ctx(&["clients:read"], &[]);
    assert!(require_scopes(&c, &v(&["clients:read"])).is_ok());
    assert!(require_scopes(&c, &[]).is_ok());
    let err = require_scopes(&c, &v(&["b", "clients:read", "a"])).unwrap_err();
    assert_eq!(err.code, "auth.missing_scopes");
    assert_eq!(err.message, "Token missing required scopes: b, a");
    assert_eq!(err.request_id, "req-1");
    assert_eq!(err.hint.as_deref(), Some("Request a token with the required scopes."));
}

#[test]
fn extra_scopes_never_revoke_access() {
    let required = v(&["clients:read", "clients:write"]);
    assert!(require_scopes(&ctx(&["clients:write", "clients:read"], &[]), &required).is_ok());
    assert!(require_scopes(&ctx(&["x", "clients:write", "clients:read", "y"], &[]), &required).is_ok());
}

#[test]
fn scopes_classify_into_gates() {
    let c = config(&["reader"], &["writer"], true);
    assert_eq!(classify_scopes(&v(&["clients:read"]), &c.scope_map), RoleGateKind::Read);
    assert_eq!(classify_scopes(&v(&["clients:read", "realm:admin"]), &c.scope_map), RoleGateKind::Write);
    assert_eq!(classify_scopes(&v(&["clients:secrets"]), &c.scope_map), RoleGateKind::Write);
    assert_eq!(classify_scopes(&v(&["tokens:read"]), &c.scope_map), RoleGateKind::Read);
    assert_eq!(classify_scopes(&v(&["other"]), &c.scope_map), RoleGateKind::Ungated);
}

#[test]
fn write_gate_requires_a_write_role() {
    let c = config(&["reader"], &["writer"], true);
    let write = v(&["clients:write"]);
    assert!(require_roles_for_scopes(&ctx(&[], &["writer"]), &write, &c).is_ok());
    let err = require_roles_for_scopes(&ctx(&[], &["reader"]), &write, &c).unwrap_err();
    assert_eq!(err.code, "auth.missing_roles");
    assert_eq!(err.message, "Token missing required roles for write access: writer");
    assert_eq!(err.hint.as_deref(), Some("Assign a write role to access this tool."));
}

#[test]
fn read_gate_accepts_read_or_write_roles() {
    let c = config(&["reader"], &["writer"], true);
    let read = v(&["clients:read"]);
    assert!(require_roles_for_scopes(&ctx(&[], &["reader"]), &read, &c).is_ok());
    assert!(require_roles_for_scopes(&ctx(&[], &["writer"]), &read, &c).is_ok());
    let err = require_roles_for_scopes(&ctx(&[], &["other"]), &read, &c).unwrap_err();
    assert_eq!(err.message, "Token missing required roles for read access: reader");
    assert_eq!(err.hint.as_deref(), Some("Assign a read or write role to access this tool."));
}

#[test]
fn no_configured_roles_or_no_gate_admits_everyone() {
    let open = config(&[], &[], true);
    assert!(require_roles_for_scopes(&ctx(&[], &[]), &v(&["clients:write"]), &open).is_ok());
    let c = config(&["reader"], &["writer"], true);
    assert!(require_roles_for_scopes(&ctx(&[], &[]), &v(&["unmapped"]), &c).is_ok());
}

#[test]
fn secret_tools_follow_the_deployment_switch() {
    let c = ctx(&[], &[]);
    assert!(ensure_secret_tools_enabled(&c, &config(&[], &[], true)).is_ok());
    let err = ensure_secret_tools_enabled(&c, &config(&[], &[], false)).unwrap_err();
    assert_eq!(err.code, "auth.secrets_disabled");
    assert_eq!(err.message, "Secret tools are disabled for this deployment.");
}

#[test]
fn any_role_membership() {
    assert!(has_any_role(&v(&["a", "b"]), &v(&["c", "b"])));
    assert!(!has_any_role(&v(&["a"]), &v(&["c"])));
    assert!(!has_any_role(&v(&["a"]), &[]));
}
