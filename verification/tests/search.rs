use kc_admin_mcp::clients::search::{
    client_search_score, direct_lookup_failure, keep_exact_client_id_matches, keep_exact_uuid_matches, merge_search_candidates,
    normalized_client_search_term, rank_client_search_results, search_direct_lookup_path, search_query_params,
    search_query_text,
};
use kc_admin_mcp::clients::ClientSummary;
use kc_admin_mcp::errors::GatewayFailure;
use kc_admin_mcp::json::{JsonNumber, JsonValue};

fn client(id: Option<&str>, client_id: Option<&str>, name: Option<&str>) -> ClientSummary {
    ClientSummary {
        id: id.map(|s| s.to_string()),
        keycloak_id: id.map(|s| s.to_string()),
        client_id: client_id.map(|s| s.to_string()),
        name: name.map(|s| s.to_string()),
        enabled: None,
        protocol: None,
        created_at: None,
        public_client: None,
        service_accounts_enabled: None,
    }
}

fn ids(results: &[ClientSummary]) -> Vec<String> {
    results.iter().map(|c| c.client_id.clone().unwrap_or_default()).collect()
}

#[test]
fn term_is_lowercased_and_trimmed() {
    assert_eq!(normalized_client_search_term("  Agent-OPS \t"), "agent-ops");
    assert_eq!(normalized_client_search_term("ÄBC"), "Äbc");
}

#[test]
fn score_tiers() {
    let c = client(Some("ID-123"), Some("Service-Beta"), Some("Beta Name"));
    assert_eq!(client_search_score(&c, ""), 0);
    assert_eq!(client_search_score(&c, "id-123"), 220);
    assert_eq!(client_search_score(&c, "SERVICE-beta"), 200);
    assert_eq!(client_search_score(&c, "beta name"), 180);
    assert_eq!(client_search_score(&c, "id-1"), 160);
    assert_eq!(client_search_score(&c, "d-12"), 120);
    assert_eq!(client_search_score(&c, "serv"), 140);
    assert_eq!(client_search_score(&c, "beta n"), 140);
    assert_eq!(client_search_score(&c, "vice"), 100);
    assert_eq!(client_search_score(&c, "zzz"), 0);
}

#[test]
fn ranking_orders_by_score_then_client_id_then_id() {
    let candidates = vec![
        client(Some("3"), Some("alpha-service"), None),
        client(Some("2"), Some("service-beta"), None),
        client(Some("1"), Some("unrelated"), None),
        client(Some("0"), Some("service-alpha"), None),
        client(Some("9"), Some("service"), None),
    ];
    let ranked = rank_client_search_results(candidates, " Service ", None);
    assert_eq!(ids(&ranked), vec!["service", "service-alpha", "service-beta", "alpha-service"]);
}

#[test]
fn ranking_respects_limit_and_breaks_ties_by_id() {
    let candidates = vec![
        client(Some("b"), Some("svc"), None),
        client(Some("a"), Some("svc"), None),
        client(None, Some("svc-x"), None),
    ];
    let ranked = rank_client_search_results(candidates, "svc", Some(2));
    assert_eq!(ranked.len(), 2);
    assert_eq!(ranked[0].id.as_deref(), Some("a"));
    assert_eq!(ranked[1].id.as_deref(), Some("b"));
    let none = rank_client_search_results(vec![client(Some("a"), Some("svc"), None)], "svc", Some(0));
    assert!(none.is_empty());
}

#[test]
fn ranking_is_stable_for_equal_keys() {
    let mut first = client(Some("x"), Some("same"), None);
    first.enabled = Some(true);
    let mut second = client(Some("x"), Some("same"), None);
    second.enabled = Some(false);
    let ranked = rank_client_search_results(vec![first, second], "same", None);
    assert_eq!(ranked[0].enabled, Some(true));
    assert_eq!(ranked[1].enabled, Some(false));
}

#[test]
fn query_checks() {
    let err = search_query_text("   ").unwrap_err();
    assert_eq!(err.code, "clients.invalid_input");
    assert_eq!(err.request_id, "req-client-search");
    assert_eq!(err.domain.as_deref(), Some("clients"));
    assert_eq!(search_query_text(" agent ").unwrap(), "agent");

    let err = search_query_params("q", None, Some(101), "req-1").unwrap_err();
    assert_eq!(err.message, "limit must be between 1 and 100.");
    match err.details {
        Some(JsonValue::Object(entries)) => {
            assert_eq!(entries, vec![("limit".to_string(), JsonValue::Number(JsonNumber::Int(101)))])
        },
        other => panic!("{:?}", other),
    }
    assert!(search_query_params("q", None, Some(0), "req-1").is_err());
    assert_eq!(
        search_query_params("q", Some(false), Some(20), "req-1").unwrap(),
        vec![("search".to_string(), "q".to_string()), ("max".to_string(), "20".to_string())]
    );
    assert_eq!(search_query_params("q", None, None, "req-1").unwrap(), vec![("search".to_string(), "q".to_string())]);
}

#[test]
fn uuid_queries_are_canonicalized_for_direct_lookup() {
    assert_eq!(
        search_direct_lookup_path("test", "123E4567-E89B-12D3-A456-426614174000"),
        Some("/admin/realms/test/clients/123e4567-e89b-12d3-a456-426614174000".to_string())
    );
    assert_eq!(search_direct_lookup_path("test", "agent-ops"), None);
}

#[test]
fn merging_drops_duplicate_ids() {
    let direct = vec![client(Some("u-1"), Some("exact"), None)];
    let fetched = vec![
        client(Some("u-1"), Some("exact"), None),
        client(Some("u-2"), Some("other"), None),
        client(Some("u-2"), Some("other-again"), None),
        client(None, Some("no-id"), None),
        client(None, Some("no-id-2"), None),
    ];
    let merged = merge_search_candidates(direct, fetched);
    assert_eq!(ids(&merged), vec!["exact", "other", "no-id", "no-id-2"]);
}

#[test]
fn uuid_query_keeps_only_exact_matches() {
    let q = "123E4567-E89B-12D3-A456-426614174000";
    let clients = vec![
        client(Some("123e4567-e89b-12d3-a456-426614174000"), Some("exact-match"), None),
        client(Some("other"), Some("fuzzy-hit"), None),
        client(Some("x"), Some("123E4567-e89b-12d3-a456-426614174000"), None),
    ];
    let kept = keep_exact_uuid_matches(clients, q);
    assert_eq!(ids(&kept), vec!["exact-match", "123E4567-e89b-12d3-a456-426614174000"]);
    let all = keep_exact_uuid_matches(vec![client(Some("a"), Some("b"), None)], "not-a-uuid");
    assert_eq!(all.len(), 1);
}

#[test]
fn direct_lookup_404_is_not_an_error() {
    assert!(direct_lookup_failure(GatewayFailure::Upstream { status: 404, summary: None }).is_ok());
    let err = direct_lookup_failure(GatewayFailure::Upstream { status: 500, summary: Some("boom".to_string()) })
        .unwrap_err();
    assert_eq!(err.message, "gateway request failed");
    assert!(err.data.is_some());
    assert!(direct_lookup_failure(GatewayFailure::Unavailable).unwrap_err().data.is_none());
}

#[test]
fn search_returns_every_match_and_nothing_else() {
    let candidates = vec![
        client(Some("1"), Some("billing-api"), Some("Billing")),
        client(Some("2"), Some("web"), Some("Storefront")),
        client(Some("3"), Some("api-gateway"), None),
        client(Some("4"), Some("reports"), Some("Monthly API export")),
    ];
    let ranked = rank_client_search_results(candidates.clone(), "API", None);
    assert_eq!(ranked.len(), 3);
    for result in ranked.iter() {
        assert!(candidates.contains(result));
        assert!(client_search_score(result, "api") > 0);
    }
    assert!(!ranked.iter().any(|c| c.client_id.as_deref() == Some("web")));
    let limited = rank_client_search_results(candidates, "API", Some(1));
    assert_eq!(ids(&limited), vec!["api-gateway"]);
}

#[test]
fn exact_search_looks_up_client_id_and_keeps_exact_hits() {
    assert_eq!(
        search_query_params("agent-ops", Some(true), Some(10), "req-1").unwrap(),
        vec![("clientId".to_string(), "agent-ops".to_string()), ("max".to_string(), "10".to_string())]
    );
    let listed = vec![
        client(Some("agent-ops-internal-id"), Some("agent-ops"), None),
        client(Some("nearby-internal-id"), Some("agent-ops-dev"), None),
    ];
    let kept = keep_exact_client_id_matches(listed, "agent-ops", Some(true));
    let ranked = rank_client_search_results(kept, "agent-ops", Some(10));
    assert_eq!(ranked.len(), 1);
    assert_eq!(ranked[0].id.as_deref(), Some("agent-ops-internal-id"));
    assert_eq!(ranked[0].keycloak_id.as_deref(), Some("agent-ops-internal-id"));
    assert_eq!(ranked[0].client_id.as_deref(), Some("agent-ops"));
    let all = keep_exact_client_id_matches(
        vec![client(Some("a"), Some("agent-ops-dev"), None)],
        "agent-ops",
        None,
    );
    assert_eq!(all.len(), 1);
}
