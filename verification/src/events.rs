//! Event tools: arguments, the normalization of date filters, and the query of the user and
//! admin event listings.
use vstd::prelude::*;
use crate::errors::{bare, ToolError, tool_error};
use crate::outside::{
    date_pattern, digits_pattern, parse_rfc3339_unix_nanos, regex_is_match, regex_matches, regex_new,
    rfc3339_unix_nanos,
};
use crate::text::{
    decimal, i128_to_decimal, is_ascii_digit, signed_decimal, str_has_char, trim, trimmed,
    u32_to_decimal,
};

verus! {

/// The `type` filter of `events.list`: one event type or several.
#[derive(Debug, Clone, PartialEq)]
pub enum EventTypeArg {
    Single(String),
    Multiple(Vec<String>),
}

/// Arguments for `events.list`.
#[derive(Debug, Clone, PartialEq)]
pub struct EventsListArgs {
    pub realm: String,
    pub client: Option<String>,
    pub user: Option<String>,
    pub event_type: Option<EventTypeArg>,
    pub date_from: Option<String>,
    pub date_to: Option<String>,
    pub ip_address: Option<String>,
    pub first: Option<u32>,
    pub max: Option<u32>,
}

/// Arguments for `admin_events.list`.
#[derive(Debug, Clone, PartialEq)]
pub struct AdminEventsListArgs {
    pub realm: String,
    pub auth_client: Option<String>,
    pub auth_user: Option<String>,
    pub auth_realm: Option<String>,
    pub auth_ip_address: Option<String>,
    pub resource_path: Option<String>,
    pub resource_types: Option<String>,
    pub operation_types: Option<String>,
    pub date_from: Option<String>,
    pub date_to: Option<String>,
    pub first: Option<u32>,
    pub max: Option<u32>,
}

/// Arguments for `events.clear` and `admin_events.clear`.
#[derive(Debug, Clone, PartialEq)]
pub struct EventsClearArgs {
    pub realm: String,
    pub confirm: bool,
}

/// The message for a date filter in no accepted form.
pub open spec fn invalid_date_message() -> Seq<char> {
    "Invalid date (expected YYYY-MM-DD, epoch milliseconds, or ISO-8601 timestamp)."@
}

/// Division by a million, rounding toward zero.
pub open spec fn millis_of_nanos(n: int) -> int {
    if n >= 0 {
        n / 1_000_000
    } else {
        -((-n) / 1_000_000)
    }
}

/// How a date filter is passed on: absent or blank, it is dropped; all digits or
/// `YYYY-MM-DD` (after trimming), it is passed as given; a text that starts with an ASCII
/// digit and contains `T` is read as an RFC 3339 timestamp and passed as epoch milliseconds;
/// anything else is refused.
pub open spec fn normalized_date(value: Option<Seq<char>>) -> Result<Option<Seq<char>>, Seq<char>> {
    match value {
        None => Ok(None),
        Some(raw) => {
            let t = trimmed(raw);
            if t.len() == 0 {
                Ok(None)
            } else if regex_matches(digits_pattern(), t) || regex_matches(date_pattern(), t) {
                Ok(Some(t))
            } else if is_ascii_digit(t[0]) && t.contains('T') {
                match rfc3339_unix_nanos(t) {
                    Some(n) => Ok(Some(signed_decimal(millis_of_nanos(n as int)))),
                    None => Err(invalid_date_message()),
                }
            } else {
                Err(invalid_date_message())
            }
        },
    }
}

/// The text of an optional `&str`.
pub open spec fn opt_str_text(o: Option<&str>) -> Option<Seq<char>> {
    match o {
        Some(s) => Some(s@),
        None => None,
    }
}

/// Nanoseconds to milliseconds, rounding toward zero.
fn nanos_to_millis(n: i128) -> (r: i128)
    ensures
        r == millis_of_nanos(n as int),
{
    if n >= 0 {
        n / 1_000_000
    } else {
        let m: i128 = n + 1;
        let magnitude: u128 = ((-m) as u128) + 1;
        let q: u128 = magnitude / 1_000_000;
        assert(q <= magnitude);
        -(q as i128)
    }
}

/// Normalizes a date filter of an event listing.
pub fn normalize_events_list_date(value: Option<&str>) -> (r: Result<Option<String>, String>)
    ensures
        match (r, normalized_date(opt_str_text(value))) {
            (Ok(Some(s)), Ok(Some(t))) => s@ == t,
            (Ok(None), Ok(None)) => true,
            (Err(m), Err(t)) => m@ == t,
            _ => false,
        },
{
    let raw = match value {
        Some(v) => v,
        None => {
            return Ok(None);
        },
    };
    let t = trim(raw);
    if t.as_str().is_empty() {
        return Ok(None);
    }
    proof {
        reveal_strlit("^\\d+$");
        reveal_strlit("^\\d{4}-\\d{2}-\\d{2}$");
        assert("^\\d+$"@ =~= digits_pattern());
        assert("^\\d{4}-\\d{2}-\\d{2}$"@ =~= date_pattern());
    }
    let digits = regex_new("^\\d+$");
    let is_digits = match &digits {
        Some(re) => regex_is_match(re, t.as_str()),
        None => false,
    };
    if is_digits {
        return Ok(Some(t));
    }
    let date = regex_new("^\\d{4}-\\d{2}-\\d{2}$");
    let is_date = match &date {
        Some(re) => regex_is_match(re, t.as_str()),
        None => false,
    };
    if is_date {
        return Ok(Some(t));
    }
    let chars = crate::text::chars_of(t.as_str());
    let starts_with_digit = chars.len() > 0 && '0' <= chars[0] && chars[0] <= '9';
    if starts_with_digit && str_has_char(t.as_str(), 'T') {
        match parse_rfc3339_unix_nanos(t.as_str()) {
            Some(n) => {
                let millis = nanos_to_millis(n);
                return Ok(Some(i128_to_decimal(millis)));
            },
            None => {},
        }
    }
    Err(String::from_str("Invalid date (expected YYYY-MM-DD, epoch milliseconds, or ISO-8601 timestamp)."))
}

/// A query parameter when a value is present.
pub open spec fn opt_param(key: Seq<char>, v: Option<Seq<char>>) -> Seq<(Seq<char>, Seq<char>)> {
    match v {
        Some(x) => seq![(key, x)],
        None => Seq::empty(),
    }
}

/// The text of an optional string.
pub open spec fn opt_text(o: Option<String>) -> Option<Seq<char>> {
    match o {
        Some(s) => Some(s@),
        None => None,
    }
}

/// The decimal text of an optional number.
pub open spec fn opt_decimal(o: Option<u32>) -> Option<Seq<char>> {
    match o {
        Some(n) => Some(decimal(n as nat)),
        None => None,
    }
}

/// The query parameters as text pairs.
pub open spec fn param_views(q: Seq<(String, String)>) -> Seq<(Seq<char>, Seq<char>)> {
    Seq::new(q.len(), |i: int| (q[i].0@, q[i].1@))
}

/// One `type` parameter per event type.
pub open spec fn type_params(t: Option<EventTypeArg>) -> Seq<(Seq<char>, Seq<char>)> {
    match t {
        Some(EventTypeArg::Single(v)) => seq![("type"@, v@)],
        Some(EventTypeArg::Multiple(vs)) => Seq::new(vs@.len(), |i: int| ("type"@, vs@[i]@)),
        None => Seq::empty(),
    }
}

/// Appends a parameter when a value is present.
fn push_opt(q: Vec<(String, String)>, key: &str, v: &Option<String>) -> (r: Vec<(String, String)>)
    ensures
        param_views(r@) == param_views(q@) + opt_param(key@, opt_text(*v)),
{
    let mut q = q;
    let ghost before = q@;
    match v {
        Some(x) => {
            q.push((key.to_owned(), x.clone()));
        },
        None => {},
    }
    assert(param_views(q@) =~= param_views(before) + opt_param(key@, opt_text(*v)));
    q
}

/// Appends a numeric parameter when a value is present.
fn push_opt_number(q: Vec<(String, String)>, key: &str, v: Option<u32>) -> (r: Vec<(String, String)>)
    ensures
        param_views(r@) == param_views(q@) + opt_param(key@, opt_decimal(v)),
{
    let mut q = q;
    let ghost before = q@;
    match v {
        Some(n) => {
            q.push((key.to_owned(), u32_to_decimal(n)));
        },
        None => {},
    }
    assert(param_views(q@) =~= param_views(before) + opt_param(key@, opt_decimal(v)));
    q
}

/// Normalizes both date filters; the first refused one is reported as `events.invalid_date`.
fn normalize_range(
    date_from: &Option<String>,
    date_to: &Option<String>,
    request_id: &str,
) -> (r: Result<(Option<String>, Option<String>), ToolError>)
    ensures
        r matches Ok((f, t)) ==> normalized_date(opt_text(*date_from)) == Ok::<Option<Seq<char>>, Seq<char>>(opt_text(f))
            && normalized_date(opt_text(*date_to)) == Ok::<Option<Seq<char>>, Seq<char>>(opt_text(t)),
        r is Err <==> normalized_date(opt_text(*date_from)) is Err || normalized_date(opt_text(*date_to)) is Err,
        r matches Err(e) ==> e.code@ == "events.invalid_date"@ && e.message@ == invalid_date_message()
            && e.request_id@ == request_id@ && bare(e),
{
    let from = match date_from {
        Some(s) => normalize_events_list_date(Some(s.as_str())),
        None => normalize_events_list_date(None),
    };
    let from = match from {
        Ok(v) => v,
        Err(m) => {
            return Err(tool_error("events.invalid_date", m.as_str(), request_id));
        },
    };
    let to = match date_to {
        Some(s) => normalize_events_list_date(Some(s.as_str())),
        None => normalize_events_list_date(None),
    };
    let to = match to {
        Ok(v) => v,
        Err(m) => {
            return Err(tool_error("events.invalid_date", m.as_str(), request_id));
        },
    };
    Ok((from, to))
}

/// The query of `events.list`: `client`, `user`, one `type` per event type, `dateFrom`,
/// `dateTo` (normalized), `ipAddress`, `first`, `max`, each when given. A refused date filter
/// is reported as `events.invalid_date`.
pub fn events_list_query(args: &EventsListArgs, request_id: &str) -> (r: Result<Vec<(String, String)>, ToolError>)
    ensures
        r is Err <==> normalized_date(opt_text(args.date_from)) is Err || normalized_date(opt_text(args.date_to)) is Err,
        r matches Err(e) ==> e.code@ == "events.invalid_date"@ && e.message@ == invalid_date_message()
            && e.request_id@ == request_id@ && bare(e),
        r matches Ok(q) ==> param_views(q@) == opt_param("client"@, opt_text(args.client)) + opt_param(
            "user"@,
            opt_text(args.user),
        ) + type_params(args.event_type) + opt_param("dateFrom"@, normalized_date(opt_text(args.date_from))->Ok_0)
            + opt_param("dateTo"@, normalized_date(opt_text(args.date_to))->Ok_0) + opt_param(
            "ipAddress"@,
            opt_text(args.ip_address),
        ) + opt_param("first"@, opt_decimal(args.first)) + opt_param("max"@, opt_decimal(args.max)),
{
    let (from, to) = normalize_range(&args.date_from, &args.date_to, request_id)?;
    let q: Vec<(String, String)> = Vec::new();
    assert(param_views(q@) =~= Seq::<(Seq<char>, Seq<char>)>::empty());
    let q = push_opt(q, "client", &args.client);
    let q = push_opt(q, "user", &args.user);
    let mut q = q;
    let ghost before_types = param_views(q@);
    match &args.event_type {
        Some(EventTypeArg::Single(v)) => {
            q.push((String::from_str("type"), v.clone()));
        },
        Some(EventTypeArg::Multiple(vs)) => {
            let n = vs.len();
            for i in 0..n
                invariant
                    n == vs@.len(),
                    param_views(q@) == before_types + Seq::new(i as nat, |k: int| ("type"@, vs@[k]@)),
            {
                let ghost before = q@;
                let key = String::from_str("type");
                let value = vs[i].clone();
                assert(value@ == vs@[i as int]@);
                q.push((key, value));
                assert(param_views(q@) =~= param_views(before).push(("type"@, vs@[i as int]@)));
                assert(param_views(q@) =~= before_types + Seq::new((i + 1) as nat, |k: int| ("type"@, vs@[k]@)));
            }
        },
        None => {},
    }
    assert(param_views(q@) =~= before_types + type_params(args.event_type));
    let q = push_opt(q, "dateFrom", &from);
    let q = push_opt(q, "dateTo", &to);
    let q = push_opt(q, "ipAddress", &args.ip_address);
    let q = push_opt_number(q, "first", args.first);
    let q = push_opt_number(q, "max", args.max);
    Ok(q)
}

/// The query of `admin_events.list`: `authClient`, `authUser`, `authRealm`, `authIpAddress`,
/// `resourcePath`, `resourceTypes`, `operationTypes`, `dateFrom`, `dateTo` (normalized),
/// `first`, `max`, each when given. A refused date filter is reported as `events.invalid_date`.
pub fn admin_events_list_query(args: &AdminEventsListArgs, request_id: &str) -> (r: Result<
    Vec<(String, String)>,
    ToolError,
>)
    ensures
        r is Err <==> normalized_date(opt_text(args.date_from)) is Err || normalized_date(opt_text(args.date_to)) is Err,
        r matches Err(e) ==> e.code@ == "events.invalid_date"@ && e.message@ == invalid_date_message()
            && e.request_id@ == request_id@ && bare(e),
        r matches Ok(q) ==> param_views(q@) == opt_param("authClient"@, opt_text(args.auth_client)) + opt_param(
            "authUser"@,
            opt_text(args.auth_user),
        ) + opt_param("authRealm"@, opt_text(args.auth_realm)) + opt_param(
            "authIpAddress"@,
            opt_text(args.auth_ip_address),
        ) + opt_param("resourcePath"@, opt_text(args.resource_path)) + opt_param(
            "resourceTypes"@,
            opt_text(args.resource_types),
        ) + opt_param("operationTypes"@, opt_text(args.operation_types)) + opt_param(
            "dateFrom"@,
            normalized_date(opt_text(args.date_from))->Ok_0,
        ) + opt_param("dateTo"@, normalized_date(opt_text(args.date_to))->Ok_0) + opt_param(
            "first"@,
            opt_decimal(args.first),
        ) + opt_param("max"@, opt_decimal(args.max)),
{
    let (from, to) = normalize_range(&args.date_from, &args.date_to, request_id)?;
    let q: Vec<(String, String)> = Vec::new();
    assert(param_views(q@) =~= Seq::<(Seq<char>, Seq<char>)>::empty());
    let q = push_opt(q, "authClient", &args.auth_client);
    let q = push_opt(q, "authUser", &args.auth_user);
    let q = push_opt(q, "authRealm", &args.auth_realm);
    let q = push_opt(q, "authIpAddress", &args.auth_ip_address);
    let q = push_opt(q, "resourcePath", &args.resource_path);
    let q = push_opt(q, "resourceTypes", &args.resource_types);
    let q = push_opt(q, "operationTypes", &args.operation_types);
    let q = push_opt(q, "dateFrom", &from);
    let q = push_opt(q, "dateTo", &to);
    let q = push_opt_number(q, "first", args.first);
    let q = push_opt_number(q, "max", args.max);
    Ok(q)
}

/// Refuses an unconfirmed clear of user events (or, with `admin`, of admin events).
pub fn require_clear_confirmation(confirm: bool, admin: bool, request_id: &str) -> (r: Result<(), ToolError>)
    ensures
        r is Ok <==> confirm,
        r matches Err(e) ==> e.code@ == "events.confirm_required"@ && e.message@ == if admin {
            "confirm=true is required to clear admin events."@
        } else {
            "confirm=true is required to clear events."@
        } && e.request_id@ == request_id@ && bare(e),
{
    if !confirm {
        let message = if admin {
            "confirm=true is required to clear admin events."
        } else {
            "confirm=true is required to clear events."
        };
        return Err(tool_error("events.confirm_required", message, request_id));
    }
    Ok(())
}

} // verus!
