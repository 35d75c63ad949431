use kc_admin_mcp::clients::lookup::{build_client_scope_lookup, resolve_scope_ids, resolve_scope_lookup};
use kc_admin_mcp::clients::scopes::{
    existing_scope_ids, mutation_outcome, normalize_scope_id_list, require_replacement_scopes,
    require_resolved_scopes, require_scope_token, scope_add_plan, scope_binding_check,
    scope_binding_path, scope_ensure_plan, scope_kind_label, scope_kind_path, scope_mutation_report,
    scope_mutation_summary, scope_remove_plan, scope_replace_plan, validate_scope_client_inputs,
    MutationOutcome, ScopeKind, ScopeMutationAction, ScopeMutationMode,
};
use kc_admin_mcp::clients::ClientScopeRepresentation;
use kc_admin_mcp::json::JsonValue;

fn values(items: &[&str]) -> Vec<String> {
    items.iter().map(|item| (*item).to_string()).collect()
}

fn scope(id: Option<&str>, name: Option<&str>) -> ClientScopeRepresentation {
    ClientScopeRepresentation {
        id: id.map(|s| s.to_string()),
        name: name.map(|s| s.to_string()),
        protocol: None,
        description: None,
    }
}

#[test]
fn repeated_attach_reports_already_bound_without_changes() {
    let existing = values(&["scope-a"]);
    let requested = values(&["scope-a"]);
    let plan = scope_add_plan(&existing, &requested);
    let outcome = mutation_outcome(&plan.added, &plan.removed, false, MutationOutcome::AlreadyBound);
    let summary = scope_mutation_summary(
        outcome,
        "client-uuid",
        "bound",
        "default",
        plan.requested,
        plan.already_bound,
        plan.added,
        plan.removed,
        false,
    );

    assert_eq!(summary.outcome, "already_bound");
    assert_eq!(summary.client, "client-uuid");
    assert_eq!(summary.requested_state, "bound");
    assert!(!summary.changed);
    assert!(!summary.will_apply);
}

#[test]
fn repeated_remove_reports_already_unbound_without_changes() {
    let existing = Vec::new();
    let requested = values(&["scope-a"]);
    let plan = scope_remove_plan(&existing, &requested);
    let outcome = mutation_outcome(&plan.added, &plan.removed, false, MutationOutcome::AlreadyUnbound);
    let summary = scope_mutation_summary(
        outcome,
        "client-uuid",
        "unbound",
        "optional",
        plan.requested,
        plan.already_bound,
        plan.added,
        plan.removed,
        false,
    );

    assert_eq!(summary.outcome, "already_unbound");
    assert_eq!(summary.requested_state, "unbound");
    assert!(!summary.changed);
    assert!(!summary.will_apply);
}

#[test]
fn dry_run_attach_reports_preview_without_apply() {
    let existing = Vec::new();
    let requested = values(&["scope-a"]);
    let plan = scope_add_plan(&existing, &requested);
    let outcome = mutation_outcome(&plan.added, &plan.removed, true, MutationOutcome::AlreadyBound);
    let summary = scope_mutation_summary(
        outcome,
        "client-uuid",
        "bound",
        "default",
        plan.requested,
        plan.already_bound,
        plan.added,
        plan.removed,
        true,
    );

    assert_eq!(summary.outcome, "would_add");
    assert!(summary.changed);
    assert!(!summary.will_apply);
    assert!(summary.dry_run);
}

#[test]
fn add_plan_sorts_dedups_and_splits_requested_scopes() {
    let plan = scope_add_plan(&values(&["b", "x"]), &values(&["c", "b", "a", "c"]));
    assert_eq!(plan.requested, values(&["a", "b", "c"]));
    assert_eq!(plan.already_bound, values(&["b"]));
    assert_eq!(plan.added, values(&["a", "c"]));
    assert!(plan.removed.is_empty());
}

#[test]
fn remove_plan_detaches_only_bound_scopes() {
    let plan = scope_remove_plan(&values(&["a", "b"]), &values(&["b", "z"]));
    assert_eq!(plan.removed, values(&["b"]));
    assert_eq!(plan.already_bound, values(&["z"]));
    assert!(plan.added.is_empty());
}

#[test]
fn replace_plan_reaches_desired_set() {
    let existing = values(&["c", "a", "b"]);
    let desired = values(&["b", "d", "d"]);
    let plan = scope_replace_plan(&existing, &desired);
    assert_eq!(plan.requested, values(&["b", "d"]));
    assert_eq!(plan.already_bound, values(&["b"]));
    assert_eq!(plan.added, values(&["d"]));
    assert_eq!(plan.removed, values(&["a", "c"]));
    let mut after: Vec<String> = existing.into_iter().filter(|s| !plan.removed.contains(s)).collect();
    after.extend(plan.added.iter().cloned());
    after.sort();
    assert_eq!(after, values(&["b", "d"]));
}

#[test]
fn repeated_add_plan_adds_nothing() {
    let requested = values(&["x", "y"]);
    let first = scope_add_plan(&values(&["y"]), &requested);
    let mut bound = values(&["y"]);
    bound.extend(first.added.iter().cloned());
    let second = scope_add_plan(&bound, &requested);
    assert!(second.added.is_empty());
    assert_eq!(second.already_bound, values(&["x", "y"]));
}

#[test]
fn mutation_outcomes_cover_every_case() {
    let some = values(&["a"]);
    let none: Vec<String> = Vec::new();
    assert_eq!(mutation_outcome(&none, &none, false, MutationOutcome::AlreadyMatch), MutationOutcome::AlreadyMatch);
    assert_eq!(mutation_outcome(&some, &some, true, MutationOutcome::AlreadyMatch), MutationOutcome::WouldUpdate);
    assert_eq!(mutation_outcome(&none, &some, true, MutationOutcome::AlreadyMatch), MutationOutcome::WouldRemove);
    assert_eq!(mutation_outcome(&some, &some, false, MutationOutcome::AlreadyMatch), MutationOutcome::Updated);
    assert_eq!(mutation_outcome(&some, &none, false, MutationOutcome::AlreadyMatch), MutationOutcome::Added);
    assert_eq!(mutation_outcome(&none, &some, false, MutationOutcome::AlreadyMatch), MutationOutcome::Removed);
    assert_eq!(MutationOutcome::WouldUpdate.as_str(), "would_update");
    assert_eq!(MutationOutcome::AlreadyMatch.as_str(), "already_match");
}

#[test]
fn replace_report_uses_exact_match_state() {
    let plan = scope_replace_plan(&values(&["a"]), &values(&["a"]));
    let summary = scope_mutation_report(plan, ScopeKind::Optional, ScopeMutationMode::Replace, "c-1", false);
    assert_eq!(summary.outcome, "already_match");
    assert_eq!(summary.requested_state, "exact_match");
    assert_eq!(summary.scope_kind, "optional");
    assert!(!summary.changed);
}

#[test]
fn scope_paths_and_labels() {
    assert_eq!(scope_kind_label(ScopeKind::Default), "default");
    assert_eq!(scope_kind_path(ScopeKind::Optional), "optional-client-scopes");
    assert_eq!(
        scope_binding_path("alpha", "c-1", ScopeKind::Default, "s-1"),
        "/admin/realms/alpha/clients/c-1/default-client-scopes/s-1"
    );
    assert_eq!(normalize_scope_id_list(values(&["b", "a", "b"])), values(&["a", "b"]));
}

#[test]
fn scope_client_inputs_are_checked_in_order() {
    let bad_id = "not-a-uuid".to_string();
    let bad_client = "a/b".to_string();
    let err = validate_scope_client_inputs("bad realm", Some(&bad_id), None).unwrap_err();
    assert_eq!(err.message, "invalid realm name format: 'bad realm' (must be alphanumeric, '-', or '_')");
    let err = validate_scope_client_inputs("alpha", Some(&bad_id), Some(&bad_client)).unwrap_err();
    assert_eq!(err.message, "invalid id: 'not-a-uuid' (must be a valid UUID)");
    let err = validate_scope_client_inputs("alpha", None, Some(&bad_client)).unwrap_err();
    assert_eq!(err.message, "invalid characters in client_id: path traversal detected");
    assert!(validate_scope_client_inputs("alpha", None, None).is_ok());
}

#[test]
fn blank_scope_token_is_refused() {
    let err = require_scope_token("   ", "req-scope-binding").unwrap_err();
    assert_eq!(err.code, "clients.invalid_input");
    assert_eq!(err.message, "scope is required.");
    assert_eq!(require_scope_token("  roles ", "r").unwrap(), "roles");
}

#[test]
fn scope_references_resolve_by_id_then_name() {
    let scopes = vec![
        scope(Some("123E4567-E89B-12D3-A456-426614174000"), Some("roles")),
        scope(Some("id-2"), Some("email")),
        scope(Some("id-3"), Some("email")),
        scope(None, Some("orphan")),
    ];
    let lookup = build_client_scope_lookup(&scopes);
    assert_eq!(
        resolve_scope_lookup("123e4567-e89b-12d3-a456-426614174000", &lookup),
        Some("123E4567-E89B-12D3-A456-426614174000".to_string())
    );
    assert_eq!(resolve_scope_lookup("email", &lookup), Some("id-2".to_string()));
    assert_eq!(resolve_scope_lookup("orphan", &lookup), None);

    let result = resolve_scope_ids(
        &lookup,
        &Some("missing-id".to_string()),
        &Some(values(&["roles"])),
        &Some("email".to_string()),
        &Some(values(&["nope", "email"])),
    );
    assert_eq!(result.ids, values(&["123E4567-E89B-12D3-A456-426614174000", "id-2"]));
    assert_eq!(result.missing_names, values(&["nope", "scope_id:missing-id"]));
    let err = require_resolved_scopes(&result, "req-1").unwrap_err();
    assert_eq!(err.code, "client_scopes.not_found");
    assert_eq!(err.message, "Client scopes not found: nope, scope_id:missing-id");
}

#[test]
fn empty_resolution_is_refused() {
    let lookup = build_client_scope_lookup(&[]);
    let result = resolve_scope_ids(&lookup, &None, &None, &None, &None);
    let err = require_resolved_scopes(&result, "req-1").unwrap_err();
    assert_eq!(err.code, "client_scopes.none");
    let err = require_replacement_scopes(&result, false, "req-1").unwrap_err();
    assert_eq!(err.code, "client_scopes.empty");
    assert_eq!(err.hint.as_deref(), Some("Set allow_empty=true if you intend to clear all scopes."));
    assert!(require_replacement_scopes(&result, true, "req-1").is_ok());
}

#[test]
fn ensure_binds_unbound_scope_as_default() {
    let plan = scope_ensure_plan("c-1", &"s-1".to_string(), &[], &[], true, false);
    assert_eq!(plan.steps, vec![(ScopeKind::Default, ScopeMutationAction::Add)]);
    assert_eq!(plan.summary.outcome, "added");
    assert_eq!(plan.summary.to_add, values(&["s-1"]));
    assert_eq!(plan.summary.scope_kind, "default_or_optional");
    assert!(plan.summary.will_apply);
}

#[test]
fn ensure_unbinds_from_both_kinds_and_converges() {
    let both = values(&["s-1"]);
    let plan = scope_ensure_plan("c-1", &"s-1".to_string(), &both, &both, false, false);
    assert_eq!(
        plan.steps,
        vec![(ScopeKind::Default, ScopeMutationAction::Remove), (ScopeKind::Optional, ScopeMutationAction::Remove)]
    );
    assert_eq!(plan.summary.outcome, "removed");
    assert_eq!(plan.summary.to_remove, values(&["s-1"]));
    let again = scope_ensure_plan("c-1", &"s-1".to_string(), &[], &[], false, false);
    assert!(again.steps.is_empty());
    assert_eq!(again.summary.outcome, "already_unbound");
    assert!(!again.summary.changed);
}

#[test]
fn ensure_dry_run_changes_nothing() {
    let plan = scope_ensure_plan("c-1", &"s-1".to_string(), &[], &[], true, true);
    assert!(plan.steps.is_empty());
    assert_eq!(plan.summary.outcome, "would_add");
    assert!(plan.summary.changed);
    assert!(!plan.summary.will_apply);
}

#[test]
fn binding_check_reports_bound_kinds_and_names() {
    let lookup = build_client_scope_lookup(&[scope(Some("s-1"), Some("roles")), scope(Some("s-2"), Some("email"))]);
    let defaults = vec![scope(Some("s-1"), Some("roles")), scope(Some("s-9"), Some("zeta"))];
    let optionals = vec![scope(Some("s-2"), Some("email")), scope(Some("s-1"), Some("roles"))];
    let r = scope_binding_check("  roles ", &lookup, &defaults, &optionals);
    assert_eq!(r.scope, "roles");
    assert!(r.scope_exists && r.in_default && r.in_optional && r.currently_bound);
    assert_eq!(r.effective_scope_names, values(&["email", "roles", "zeta"]));
    assert!(r.missing_scope_hint.is_none());

    let r = scope_binding_check("unknown", &lookup, &defaults, &optionals);
    assert!(!r.scope_exists && !r.currently_bound);
    match r.missing_scope_hint {
        Some(JsonValue::Object(entries)) => {
            assert!(entries.iter().any(|(k, v)| k == "query" && *v == JsonValue::String("unknown".to_string())));
            assert!(entries.iter().any(|(k, v)| k == "code" && *v == JsonValue::String("scope.missing".to_string())));
        },
        other => panic!("unexpected hint {:?}", other),
    }
}

#[test]
fn existing_ids_are_sorted_unique() {
    let listed = vec![scope(Some("b"), None), scope(None, Some("x")), scope(Some("a"), None), scope(Some("b"), None)];
    assert_eq!(existing_scope_ids(&listed), values(&["a", "b"]));
}

#[test]
fn plans_are_the_sorted_request_filtered_by_binding() {
    let existing = values(&["z", "b", "m"]);
    let add = scope_add_plan(&existing, &values(&["m", "c", "a", "c", "z"]));
    assert_eq!(add.requested, values(&["a", "c", "m", "z"]));
    assert_eq!(add.already_bound, values(&["m", "z"]));
    assert_eq!(add.added, values(&["a", "c"]));
    let remove = scope_remove_plan(&existing, &values(&["z", "q", "b"]));
    assert_eq!(remove.removed, values(&["b", "z"]));
    assert_eq!(remove.already_bound, values(&["q"]));
    let replace = scope_replace_plan(&existing, &values(&["m", "a"]));
    assert_eq!(replace.requested, values(&["a", "m"]));
    assert_eq!(replace.already_bound, values(&["m"]));
    assert_eq!(replace.added, values(&["a"]));
    assert_eq!(replace.removed, values(&["b", "z"]));
}
