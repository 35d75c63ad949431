use kc_admin_mcp::clients::manage::{
    bulk_update_gate, client_create_body, client_update_body, created_client_id, introspection_client_body,
    prune_matches, prune_query, prune_request, prune_settings, prune_summary, require_confirmation, toggle_body,
    validate_client_create, BulkUpdateSummary, PruneRequest,
};
use kc_admin_mcp::clients::{
    ClientRepresentation, ClientsBulkUpdateItem, ClientsCreateArgs, ClientsPruneAction, ClientsPruneArgs,
    ClientsUpdateArgs,
};
use kc_admin_mcp::errors::{GatewayFailure, Refusal};
use kc_admin_mcp::json::JsonValue;

fn tool_refusal(r: Refusal) -> kc_admin_mcp::errors::ToolError {
    match r {
        Refusal::Tool(e) => e,
        other => panic!("{:?}", other),
    }
}

fn member<'a>(v: &'a JsonValue, key: &str) -> Option<&'a JsonValue> {
    match v {
        JsonValue::Object(entries) => entries.iter().find(|(k, _)| k == key).map(|(_, v)| v),
        _ => None,
    }
}

fn update_args() -> ClientsUpdateArgs {
    ClientsUpdateArgs {
        realm: "test".to_string(),
        id: None,
        client_id: Some("c".to_string()),
        name: None,
        description: None,
        enabled: None,
        public_client: None,
        service_accounts_enabled: None,
        standard_flow_enabled: None,
        direct_access_grants_enabled: None,
        consent_required: None,
        bearer_only: None,
    }
}

fn item(client_id: Option<&str>, name: Option<&str>) -> ClientsBulkUpdateItem {
    ClientsBulkUpdateItem {
        id: None,
        client_id: client_id.map(|s| s.to_string()),
        name: name.map(|s| s.to_string()),
        description: None,
        enabled: None,
        public_client: None,
        service_accounts_enabled: None,
        standard_flow_enabled: None,
        direct_access_grants_enabled: None,
        consent_required: None,
        bearer_only: None,
    }
}

fn rep(id: &str, client_id: &str, name: Option<&str>) -> ClientRepresentation {
    ClientRepresentation {
        id: Some(id.to_string()),
        client_id: Some(client_id.to_string()),
        name: name.map(|s| s.to_string()),
        enabled: None,
        protocol: None,
        public_client: None,
        created_timestamp: None,
        service_accounts_enabled: None,
    }
}

fn prune_args() -> ClientsPruneArgs {
    ClientsPruneArgs {
        realm: "test".to_string(),
        confirm: true,
        dry_run: None,
        action: None,
        search: None,
        name: None,
        client_id_prefix: None,
        client_id_pattern: None,
        exclude_client_ids: None,
        max: None,
        limit: None,
    }
}

#[test]
fn update_body_has_only_given_fields() {
    let mut args = update_args();
    args.enabled = Some(false);
    args.bearer_only = Some(true);
    args.description = Some("desc".to_string());
    let body = client_update_body(&args, "r").unwrap();
    assert_eq!(member(&body, "enabled"), Some(&JsonValue::Bool(false)));
    assert_eq!(member(&body, "bearerOnly"), Some(&JsonValue::Bool(true)));
    assert_eq!(member(&body, "description"), Some(&JsonValue::String("desc".to_string())));
    assert_eq!(member(&body, "name"), None);
}

#[test]
fn client_update_refusals() {
    match client_update_body(&update_args(), "req-7") {
        Err(Refusal::Tool(e)) => {
            assert_eq!(e.code, "clients.no_updates");
            assert_eq!(e.request_id, "req-7");
        },
        other => panic!("{:?}", other),
    }
    let mut args = update_args();
    args.name = Some("a/b".to_string());
    args.description = Some("..".to_string());
    match client_update_body(&args, "r") {
        Err(Refusal::Protocol(e)) => assert_eq!(e.message, "invalid characters in name: path traversal detected"),
        other => panic!("{:?}", other),
    }
}

#[test]
fn create_checks_and_body() {
    let args = ClientsCreateArgs {
        realm: "test".to_string(),
        client_id: "my-client".to_string(),
        name: None,
        protocol: None,
        public_client: None,
        service_accounts_enabled: Some(true),
        enabled: None,
    };
    assert!(validate_client_create(&args).is_ok());
    let body = client_create_body(&args);
    assert_eq!(member(&body, "protocol"), Some(&JsonValue::String("openid-connect".to_string())));
    assert_eq!(member(&body, "name"), Some(&JsonValue::Null));
    assert_eq!(member(&body, "serviceAccountsEnabled"), Some(&JsonValue::Bool(true)));
    assert_eq!(member(&body, "enabled"), Some(&JsonValue::Bool(true)));
    let mut bad = args.clone();
    bad.client_id = "a\\b".to_string();
    assert_eq!(validate_client_create(&bad).unwrap_err().message, "invalid characters in client_id: path traversal detected");
    assert_eq!(member(&toggle_body(false), "enabled"), Some(&JsonValue::Bool(false)));
}

#[test]
fn introspection_client_is_hardened() {
    let body = introspection_client_body("introspector", &None);
    for key in ["publicClient", "serviceAccountsEnabled", "standardFlowEnabled", "directAccessGrantsEnabled"] {
        assert_eq!(member(&body, key), Some(&JsonValue::Bool(false)));
    }
    assert_eq!(member(&body, "enabled"), Some(&JsonValue::Bool(true)));
    let payload = JsonValue::Object(vec![("id".to_string(), JsonValue::String("new-id".to_string()))]);
    assert_eq!(created_client_id(&payload), Some("new-id".to_string()));
    assert_eq!(created_client_id(&JsonValue::Null), None);
    assert_eq!(require_confirmation(false, "confirm!", "r").unwrap_err().code, "clients.confirm_required");
}

#[test]
fn bulk_update_gate_order() {
    assert_eq!(tool_refusal(bulk_update_gate("alpha", false, 0, "r").unwrap_err()).code, "clients.confirm_required");
    assert_eq!(tool_refusal(bulk_update_gate("alpha", true, 0, "r").unwrap_err()).code, "clients.invalid_input");
    assert_eq!(tool_refusal(bulk_update_gate("alpha", true, 51, "r").unwrap_err()).code, "clients.too_many");
    assert!(bulk_update_gate("alpha", true, 50, "r").is_ok());
    match bulk_update_gate("a/b", true, 1, "r") {
        Err(Refusal::Protocol(e)) => assert_eq!(e.code, -32602),
        other => panic!("{:?}", other),
    }
}

#[test]
fn bulk_update_accumulates_outcomes() {
    let mut summary = BulkUpdateSummary::new(false);
    assert_eq!(summary.begin_item(&item(None, None)), None);
    assert_eq!(summary.errors[0].client, "unknown");
    assert_eq!(summary.errors[0].error, "id or client_id is required.");

    let a = item(Some("a"), Some("Alpha"));
    let label = summary.begin_item(&a).unwrap();
    assert_eq!(label, "a");
    let call = summary.after_lookup(&a, label, Ok(Some("id-a".to_string()))).unwrap();
    assert_eq!(call.0, "id-a");
    assert_eq!(member(&call.1, "name"), Some(&JsonValue::String("Alpha".to_string())));
    summary.after_update(call.0, Ok(()));

    let b = item(Some("b"), None);
    assert!(summary.after_lookup(&b, "b".to_string(), Ok(Some("id-b".to_string()))).is_none());
    let c = item(Some("c"), Some("C"));
    assert!(summary.after_lookup(&c, "c".to_string(), Ok(None)).is_none());
    assert!(summary.after_lookup(&c, "c".to_string(), Err("lookup failed".to_string())).is_none());
    summary.after_update("id-d".to_string(), Err(GatewayFailure::Upstream { status: 409, summary: None }));
    summary.after_update("id-e".to_string(), Err(GatewayFailure::Unavailable));

    assert_eq!(summary.updated, vec!["id-a".to_string()]);
    assert_eq!(summary.skipped, vec!["id-b".to_string()]);
    let errors: Vec<(String, String)> = summary.errors.iter().map(|e| (e.client.clone(), e.error.clone())).collect();
    assert_eq!(errors[1], ("c".to_string(), "Client not found.".to_string()));
    assert_eq!(errors[2], ("c".to_string(), "lookup failed".to_string()));
    assert_eq!(errors[3], ("id-d".to_string(), "upstream_status=409".to_string()));
    assert_eq!(errors[4], ("id-e".to_string(), "gateway request failed".to_string()));
}

#[test]
fn bulk_dry_run_counts_without_calls() {
    let mut summary = BulkUpdateSummary::new(true);
    let a = item(Some("a"), Some("A"));
    assert!(summary.after_lookup(&a, "a".to_string(), Ok(Some("id-a".to_string()))).is_none());
    assert_eq!(summary.updated, vec!["id-a".to_string()]);
}

#[test]
fn prune_checks_in_order() {
    let mut args = prune_args();
    args.confirm = false;
    assert_eq!(tool_refusal(prune_settings(&args, "r").err().unwrap()).code, "clients.confirm_required");
    let mut args = prune_args();
    args.search = Some(String::new());
    assert_eq!(
        tool_refusal(prune_settings(&args, "r").err().unwrap()).message,
        "At least one filter (search, name, client_id_prefix, client_id_pattern) is required."
    );
    let mut args = prune_args();
    args.client_id_pattern = Some("(".to_string());
    assert_eq!(tool_refusal(prune_settings(&args, "r").err().unwrap()).code, "clients.invalid_pattern");
    let mut args = prune_args();
    args.name = Some("n".to_string());
    args.max = Some(201);
    assert_eq!(tool_refusal(prune_settings(&args, "r").err().unwrap()).message, "max must be between 1 and 200.");
    args.max = None;
    args.limit = Some(0);
    assert_eq!(tool_refusal(prune_settings(&args, "r").err().unwrap()).message, "limit must be between 1 and 200.");
    args.limit = None;
    let settings = prune_settings(&args, "r").ok().unwrap();
    assert_eq!((settings.max, settings.limit, settings.dry_run), (200, 50, true));
    assert_eq!(settings.action, ClientsPruneAction::Disable);
    assert_eq!(prune_query(&settings), vec![("max".to_string(), "200".to_string())]);
}

#[test]
fn prune_selects_by_every_filter() {
    let clients = vec![
        rep("1", "tmp-alpha", Some("Temp Alpha")),
        rep("2", "tmp-beta", Some("Temp Beta")),
        rep("3", "prod-gamma", Some("Temp Gamma")),
        rep("4", "tmp-keep", Some("Temp Keep")),
    ];
    let mut args = prune_args();
    args.search = Some("TEMP".to_string());
    args.client_id_prefix = Some("tmp-".to_string());
    args.client_id_pattern = Some("^tmp-[a-z]+$".to_string());
    args.exclude_client_ids = Some(vec!["tmp-keep".to_string()]);
    let settings = prune_settings(&args, "r").ok().unwrap();
    assert_eq!(prune_matches(&args, &settings, &clients), vec!["1".to_string(), "2".to_string()]);

    let mut by_name = prune_args();
    by_name.name = Some("Temp Beta".to_string());
    let settings = prune_settings(&by_name, "r").ok().unwrap();
    assert_eq!(prune_matches(&by_name, &settings, &clients), vec!["2".to_string()]);
}

#[test]
fn prune_summary_limits_processing() {
    let mut args = prune_args();
    args.name = Some("n".to_string());
    args.limit = Some(2);
    args.dry_run = Some(false);
    args.action = Some(ClientsPruneAction::Delete);
    let settings = prune_settings(&args, "r").ok().unwrap();
    let matched = vec!["a".to_string(), "b".to_string(), "c".to_string()];
    let summary = prune_summary(&settings, matched.clone());
    assert_eq!(summary.action, "delete");
    assert_eq!(summary.matched, matched);
    assert_eq!(summary.processed, vec!["a".to_string(), "b".to_string()]);
    assert!(summary.skipped.is_empty());

    args.dry_run = None;
    let settings = prune_settings(&args, "r").ok().unwrap();
    let summary = prune_summary(&settings, matched);
    assert!(summary.processed.is_empty());
    assert_eq!(summary.skipped, vec!["a".to_string(), "b".to_string()]);
}

#[test]
fn prune_refuses_an_invalid_realm_first() {
    let mut args = prune_args();
    args.realm = "a/b".to_string();
    args.search = Some("x".to_string());
    match prune_settings(&args, "r") {
        Err(Refusal::Protocol(e)) => {
            assert_eq!(e.code, -32602);
            assert!(e.message.starts_with("invalid realm name format"));
        },
        other => panic!("{:?}", other.map(|s| s.max)),
    }
    let mut args = prune_args();
    args.confirm = false;
    let err = tool_refusal(prune_settings(&args, "req-9").err().unwrap());
    assert_eq!(err.message, "confirm=true is required to prune clients.");
    assert_eq!(err.request_id, "req-9");
    assert!(err.hint.is_none() && err.domain.is_none() && err.details.is_none());
}

#[test]
fn every_bulk_entry_is_reported_once() {
    let mut summary = BulkUpdateSummary::new(false);
    let total = |s: &BulkUpdateSummary| s.updated.len() + s.skipped.len() + s.errors.len();
    assert_eq!(summary.begin_item(&item(None, None)), None);
    assert_eq!(total(&summary), 1);
    let a = item(Some("a"), Some("A"));
    let label = summary.begin_item(&a).unwrap();
    assert!(summary.after_lookup(&a, label, Ok(None)).is_none());
    assert_eq!(total(&summary), 2);
    let b = item(Some("b"), None);
    let label = summary.begin_item(&b).unwrap();
    assert!(summary.after_lookup(&b, label, Ok(Some("id-b".to_string()))).is_none());
    assert_eq!(total(&summary), 3);
    let c = item(Some("c"), Some("C"));
    let label = summary.begin_item(&c).unwrap();
    let call = summary.after_lookup(&c, label, Ok(Some("id-c".to_string()))).unwrap();
    assert_eq!(total(&summary), 3);
    summary.after_update(call.0, Err(GatewayFailure::Unavailable));
    assert_eq!(total(&summary), 4);
    assert_eq!(summary.errors.len(), 3);
}

#[test]
fn prune_request_follows_the_action() {
    let mut args = prune_args();
    args.search = Some("x".to_string());
    let settings = prune_settings(&args, "r").ok().unwrap();
    match prune_request(&settings) {
        PruneRequest::Update(body) => {
            assert_eq!(body, JsonValue::Object(vec![("enabled".to_string(), JsonValue::Bool(false))]))
        },
        other => panic!("{:?}", other),
    }
    args.action = Some(ClientsPruneAction::Delete);
    let settings = prune_settings(&args, "r").ok().unwrap();
    assert_eq!(prune_request(&settings), PruneRequest::Delete);
}
