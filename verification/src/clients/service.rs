//! Service accounts of clients (finding a client's service account user and reporting why
//! there is none) and the protocol mappers of clients.
use vstd::prelude::*;
use crate::clients::StringMap;
use crate::errors::{
    bare, without_context, GatewayFailure, McpError, ToolError, gateway_failure_error, reports_gateway_failure, tool_error,
    tool_error_with_hint,
};
use crate::json::{JsonValue, entry_views, field_text, get_field_str, opt_bool_json, opt_text_json, with_entry};
use crate::identity_providers::{config_json, is_config_json};
use crate::clients::ClientsProtocolMapperAddArgs;
use crate::outside::{to_unicode_lowercase, unicode_lowercase};
use crate::text::{seq_contains, str_contains, trim, trimmed};

verus! {

/// The outcome of looking up a client's service account user.
#[derive(Debug, Clone, PartialEq)]
pub enum ServiceAccountLookup {
    /// The user's id.
    Found(String),
    NotFound,
    /// Service accounts are not enabled for the client (with Keycloak's explanation).
    NotEnabled { detail: Option<String> },
}

/// The upstream summary mentions service accounts (compared in lowercase).
pub open spec fn mentions_service_account(summary: Option<String>) -> bool {
    seq_contains(
        unicode_lowercase(
            match summary {
                Some(s) => s@,
                None => Seq::empty(),
            },
        ),
        "service account"@,
    )
}

/// Interprets a failed service account lookup: a 404 answer means there is none; a 400 answer
/// whose summary mentions service accounts means they are not enabled (with that summary);
/// any other failure is a protocol error.
pub fn service_account_from_failure(err: GatewayFailure) -> (r: Result<ServiceAccountLookup, McpError>)
    ensures
        (err matches GatewayFailure::Upstream { status, .. } && status == 404) ==> r == Ok::<
            ServiceAccountLookup,
            McpError,
        >(ServiceAccountLookup::NotFound),
        (err matches GatewayFailure::Upstream { status, summary } && status == 400 && mentions_service_account(summary))
            ==> r == Ok::<ServiceAccountLookup, McpError>(ServiceAccountLookup::NotEnabled { detail: err->summary }),
        !(err matches GatewayFailure::Upstream { status, summary } && (status == 404 || (status == 400
            && mentions_service_account(summary)))) ==> (r matches Err(e) && reports_gateway_failure(err, e)),
{
    match &err {
        GatewayFailure::Upstream { status, summary } => {
            if *status == 404 {
                return Ok(ServiceAccountLookup::NotFound);
            }
            let text = match summary {
                Some(s) => s.clone(),
                None => String::new(),
            };
            proof {
                assert(text@ == match *summary {
                    Some(s) => s@,
                    None => Seq::<char>::empty(),
                });
            }
            let lowered = to_unicode_lowercase(text.as_str());
            if *status == 400 && str_contains(lowered.as_str(), "service account") {
                return Ok(ServiceAccountLookup::NotEnabled { detail: summary.clone() });
            }
        },
        GatewayFailure::Unavailable => {},
    }
    Err(gateway_failure_error(err))
}

/// Reads the service account user from the gateway's answer: its id, unless absent or blank.
pub fn service_account_from_payload(payload: &JsonValue) -> (r: ServiceAccountLookup)
    ensures
        r matches ServiceAccountLookup::Found(id) ==> field_text(*payload, "id"@) == Some(id@) && trimmed(id@).len() > 0,
        r is NotFound <==> !(field_text(*payload, "id"@) matches Some(t) && trimmed(t).len() > 0),
        !(r is NotEnabled),
{
    match get_field_str(payload, "id") {
        Some(id) => {
            let t = trim(id.as_str());
            if t.as_str().is_empty() {
                ServiceAccountLookup::NotFound
            } else {
                ServiceAccountLookup::Found(id.clone())
            }
        },
        None => ServiceAccountLookup::NotFound,
    }
}

/// The message for a client without service accounts, with Keycloak's explanation when it
/// gave a non-blank one.
pub open spec fn disabled_message(detail: Option<Seq<char>>) -> Seq<char> {
    match detail {
        Some(d) => if trimmed(d).len() > 0 {
            "Service accounts are not enabled for this client ("@ + d + ")."@
        } else {
            "Service accounts are not enabled for this client."@
        },
        None => "Service accounts are not enabled for this client."@,
    }
}

/// The tool error for a client without service accounts.
pub fn service_account_disabled_error(request_id: &str, detail: Option<&str>) -> (e: ToolError)
    ensures
        e.code@ == "clients.service_account_disabled"@,
        e.message@ == disabled_message(match detail {
            Some(d) => Some(d@),
            None => None,
        }),
        e.request_id@ == request_id@,
        e.hint matches Some(h) && h@
            == "Enable service accounts for the client or choose a client with service accounts enabled."@,
        without_context(e),
{
    let mut message = String::from_str("Service accounts are not enabled for this client.");
    match detail {
        Some(d) => {
            let t = trim(d);
            if !t.as_str().is_empty() {
                message = String::from_str("Service accounts are not enabled for this client (");
                message.append(d);
                message.append(").");
            }
        },
        None => {},
    }
    tool_error_with_hint(
        "clients.service_account_disabled",
        message.as_str(),
        request_id,
        "Enable service accounts for the client or choose a client with service accounts enabled.",
    )
}

/// The service account user id of a lookup, or the tool error that reports why there is none.
pub fn require_service_account(lookup: ServiceAccountLookup, request_id: &str) -> (r: Result<String, ToolError>)
    ensures
        lookup matches ServiceAccountLookup::Found(id) ==> r == Ok::<String, ToolError>(id),
        lookup is NotFound ==> (r matches Err(e) && e.code@ == "clients.service_account_not_found"@ && e.message@
            == "Service account user not found."@ && e.request_id@ == request_id@ && bare(e)),
        lookup matches ServiceAccountLookup::NotEnabled { detail } ==> (r matches Err(e) && e.code@
            == "clients.service_account_disabled"@ && e.message@ == disabled_message(
            match detail {
                Some(d) => Some(d@),
                None => None,
            },
        )),
{
    match lookup {
        ServiceAccountLookup::Found(id) => Ok(id),
        ServiceAccountLookup::NotFound => Err(
            tool_error("clients.service_account_not_found", "Service account user not found.", request_id),
        ),
        ServiceAccountLookup::NotEnabled { detail } => {
            let d = match &detail {
                Some(s) => Some(s.as_str()),
                None => None,
            };
            Err(service_account_disabled_error(request_id, d))
        },
    }
}

/// A protocol mapper as the Keycloak admin API returns it.
#[derive(Debug, Clone, PartialEq)]
pub struct ProtocolMapperRepresentation {
    pub id: Option<String>,
    pub name: Option<String>,
    pub protocol: Option<String>,
    pub protocol_mapper: Option<String>,
    pub config: Option<StringMap>,
}

/// A protocol mapper as the tools report it.
#[derive(Debug, Clone, PartialEq)]
pub struct ProtocolMapperSummary {
    pub id: Option<String>,
    pub name: Option<String>,
    pub protocol: Option<String>,
    pub protocol_mapper: Option<String>,
    pub config: Option<StringMap>,
}

/// Summarizes a protocol mapper; its config is kept only when asked for.
pub fn protocol_mapper_summary(value: ProtocolMapperRepresentation, include_config: bool) -> (s: ProtocolMapperSummary)
    ensures
        s.id == value.id,
        s.name == value.name,
        s.protocol == value.protocol,
        s.protocol_mapper == value.protocol_mapper,
        s.config == if include_config { value.config } else { None },
{
    ProtocolMapperSummary {
        id: value.id,
        name: value.name,
        protocol: value.protocol,
        protocol_mapper: value.protocol_mapper,
        config: if include_config { value.config } else { None },
    }
}

/// The body that adds a protocol mapper to a client: `name`, `protocol`, `protocolMapper`,
/// then `config`, `consentRequired` and `consentText` (each null when absent).
pub fn client_protocol_mapper_body(args: &ClientsProtocolMapperAddArgs) -> (v: JsonValue)
    ensures
        v matches JsonValue::Object(e) && entry_views(e@).len() == 6
            && entry_views(e@)[0] == ("name"@, JsonValue::String(args.name))
            && entry_views(e@)[1] == ("protocol"@, JsonValue::String(args.protocol))
            && entry_views(e@)[2] == ("protocolMapper"@, JsonValue::String(args.protocol_mapper))
            && entry_views(e@)[3].0 == "config"@ && is_config_json(entry_views(e@)[3].1, args.config)
            && entry_views(e@)[4] == ("consentRequired"@, opt_bool_json(args.consent_required))
            && entry_views(e@)[5] == ("consentText"@, opt_text_json(args.consent_text)),
{
    let e: Vec<(String, JsonValue)> = Vec::new();
    let e = with_entry(e, "name", JsonValue::String(args.name.clone()));
    let e = with_entry(e, "protocol", JsonValue::String(args.protocol.clone()));
    let e = with_entry(e, "protocolMapper", JsonValue::String(args.protocol_mapper.clone()));
    let e = with_entry(e, "config", config_json(&args.config));
    let e = with_entry(e, "consentRequired", crate::json::jopt_bool(args.consent_required));
    let e = with_entry(e, "consentText", crate::json::jopt_str(&args.consent_text));
    JsonValue::Object(e)
}

} // verus!
