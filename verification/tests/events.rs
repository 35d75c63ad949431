use kc_admin_mcp::events::{
    admin_events_list_query, events_list_query, normalize_events_list_date, require_clear_confirmation,
    AdminEventsListArgs, EventTypeArg, EventsListArgs,
};

fn args() -> EventsListArgs {
    EventsListArgs {
        realm: "alpha".to_string(),
        client: None,
        user: None,
        event_type: None,
        date_from: None,
        date_to: None,
        ip_address: None,
        first: None,
        max: None,
    }
}

fn pairs(items: &[(&str, &str)]) -> Vec<(String, String)> {
    items.iter().map(|(k, v)| (k.to_string(), v.to_string())).collect()
}

#[test]
fn dates_pass_through_or_convert() {
    assert_eq!(normalize_events_list_date(None), Ok(None));
    assert_eq!(normalize_events_list_date(Some("   ")), Ok(None));
    assert_eq!(normalize_events_list_date(Some(" 1710000000000 ")), Ok(Some("1710000000000".to_string())));
    assert_eq!(normalize_events_list_date(Some("2024-03-09")), Ok(Some("2024-03-09".to_string())));
    assert_eq!(
        normalize_events_list_date(Some("2024-03-09T16:00:00Z")),
        Ok(Some("1710000000000".to_string()))
    );
    assert_eq!(
        normalize_events_list_date(Some("1969-12-31T23:59:59.9995Z")),
        Ok(Some("0".to_string()))
    );
    assert_eq!(
        normalize_events_list_date(Some("1969-12-31T23:59:59.998Z")),
        Ok(Some("-2".to_string()))
    );
}

#[test]
fn invalid_dates_are_refused() {
    let message = "Invalid date (expected YYYY-MM-DD, epoch milliseconds, or ISO-8601 timestamp).".to_string();
    assert_eq!(normalize_events_list_date(Some("yesterday")), Err(message.clone()));
    assert_eq!(normalize_events_list_date(Some("2024-13-45T99:00:00Z")), Err(message.clone()));
    assert_eq!(normalize_events_list_date(Some("T2024")), Err(message));
}

#[test]
fn event_query_order() {
    let mut a = args();
    a.client = Some("c".to_string());
    a.event_type = Some(EventTypeArg::Multiple(vec!["LOGIN".to_string(), "LOGOUT".to_string()]));
    a.date_from = Some("2024-01-01".to_string());
    a.max = Some(5);
    assert_eq!(
        events_list_query(&a, "r").unwrap(),
        pairs(&[("client", "c"), ("type", "LOGIN"), ("type", "LOGOUT"), ("dateFrom", "2024-01-01"), ("max", "5")])
    );
    a.date_to = Some("later".to_string());
    let err = events_list_query(&a, "req-2").unwrap_err();
    assert_eq!(err.code, "events.invalid_date");
    assert_eq!(err.request_id, "req-2");
}

#[test]
fn admin_event_query() {
    let a = AdminEventsListArgs {
        realm: "alpha".to_string(),
        auth_client: None,
        auth_user: Some("u".to_string()),
        auth_realm: None,
        auth_ip_address: None,
        resource_path: None,
        resource_types: Some("USER".to_string()),
        operation_types: None,
        date_from: None,
        date_to: Some("1700000000000".to_string()),
        first: Some(0),
        max: None,
    };
    assert_eq!(
        admin_events_list_query(&a, "r").unwrap(),
        pairs(&[("authUser", "u"), ("resourceTypes", "USER"), ("dateTo", "1700000000000"), ("first", "0")])
    );
}

#[test]
fn clearing_needs_confirmation() {
    assert!(require_clear_confirmation(true, false, "r").is_ok());
    assert_eq!(
        require_clear_confirmation(false, true, "r").unwrap_err().message,
        "confirm=true is required to clear admin events."
    );
    assert_eq!(require_clear_confirmation(false, false, "r").unwrap_err().code, "events.confirm_required");
}
