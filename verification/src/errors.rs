//! Error values: structured tool errors shown to the caller and protocol-level errors.
use vstd::prelude::*;
use crate::json::{JsonNumber, JsonValue, entries_get, jopt_str, opt_text_json};

verus! {

/// A structured tool error: a stable code, a message, the request id, an optional hint, and
/// optionally the domain it concerns with details about the input.
#[derive(Debug, PartialEq)]
pub struct ToolError {
    pub code: String,
    pub message: String,
    pub request_id: String,
    pub hint: Option<String>,
    pub domain: Option<String>,
    pub details: Option<JsonValue>,
}

/// A tool error with neither a hint nor a domain nor details.
pub open spec fn bare(e: ToolError) -> bool {
    e.hint is None && e.domain is None && e.details is None
}

/// A tool error with no domain and no details (it may carry a hint).
pub open spec fn without_context(e: ToolError) -> bool {
    e.domain is None && e.details is None
}

/// A tool error without a hint.
pub fn tool_error(code: &str, message: &str, request_id: &str) -> (e: ToolError)
    ensures
        e.code@ == code@,
        e.message@ == message@,
        e.request_id@ == request_id@,
        e.hint is None,
        e.domain is None,
        e.details is None,
{
    ToolError {
        code: code.to_owned(),
        message: message.to_owned(),
        request_id: request_id.to_owned(),
        hint: None,
        domain: None,
        details: None,
    }
}

/// A tool error with a hint.
pub fn tool_error_with_hint(code: &str, message: &str, request_id: &str, hint: &str) -> (e: ToolError)
    ensures
        e.code@ == code@,
        e.message@ == message@,
        e.request_id@ == request_id@,
        e.hint matches Some(h) && h@ == hint@,
        e.domain is None,
        e.details is None,
{
    ToolError {
        code: code.to_owned(),
        message: message.to_owned(),
        request_id: request_id.to_owned(),
        hint: Some(hint.to_owned()),
        domain: None,
        details: None,
    }
}

/// A tool error naming the domain it concerns, with details about the input.
pub fn tool_error_with_context(
    code: &str,
    message: &str,
    request_id: &str,
    domain: &str,
    details: JsonValue,
) -> (e: ToolError)
    ensures
        e.code@ == code@,
        e.message@ == message@,
        e.request_id@ == request_id@,
        e.hint is None,
        e.domain matches Some(d) && d@ == domain@,
        e.details == Some(details),
{
    ToolError {
        code: code.to_owned(),
        message: message.to_owned(),
        request_id: request_id.to_owned(),
        hint: None,
        domain: Some(domain.to_owned()),
        details: Some(details),
    }
}

/// The JSON-RPC code for invalid parameters.
pub const INVALID_PARAMS: i32 = -32602;

/// The JSON-RPC code for an internal error.
pub const INTERNAL_ERROR: i32 = -32603;

/// A protocol-level error: a JSON-RPC code, a message and optional data.
#[derive(Debug, PartialEq)]
pub struct McpError {
    pub code: i32,
    pub message: String,
    pub data: Option<JsonValue>,
}

/// An invalid-parameters error.
pub fn invalid_params(message: String) -> (e: McpError)
    ensures
        e.code == INVALID_PARAMS,
        e.message == message,
        e.data is None,
{
    McpError { code: INVALID_PARAMS, message, data: None }
}

/// An internal error with optional data.
pub fn internal_error(message: &str, data: Option<JsonValue>) -> (e: McpError)
    ensures
        e.code == INTERNAL_ERROR,
        e.message@ == message@,
        e.data == data,
{
    McpError { code: INTERNAL_ERROR, message: message.to_owned(), data }
}

/// How a gateway request failed: Keycloak answered with an error status (and, when it gave
/// one, a summary of its answer), or the request did not complete.
#[derive(Debug, Clone, PartialEq)]
pub enum GatewayFailure {
    Upstream { status: u16, summary: Option<String> },
    Unavailable,
}

/// A refused tool call: a tool error shown to the caller, or a protocol-level error.
#[derive(Debug, PartialEq)]
pub enum Refusal {
    Tool(ToolError),
    Protocol(McpError),
}

/// `e` reports the failed gateway request `err`: an upstream failure carries its status and
/// summary as `upstream_status` and `upstream_error`.
pub open spec fn reports_gateway_failure(err: GatewayFailure, e: McpError) -> bool {
    &&& e.code == INTERNAL_ERROR
    &&& e.message@ == "gateway request failed"@
    &&& match err {
        GatewayFailure::Upstream { status, summary } => e.data matches Some(JsonValue::Object(d)) && d@.len()
            == 2 && entries_get(d@, "upstream_status"@) == Some(
            JsonValue::Number(JsonNumber::Int(status as i128)),
        ) && entries_get(d@, "upstream_error"@) == Some(opt_text_json(summary)),
        GatewayFailure::Unavailable => e.data is None,
    }
}

/// The protocol error reported for a failed gateway request.
pub fn gateway_failure_error(err: GatewayFailure) -> (e: McpError)
    ensures
        reports_gateway_failure(err, e),
{
    match err {
        GatewayFailure::Upstream { status, summary } => {
            let mut d: Vec<(String, JsonValue)> = Vec::new();
            d.push((String::from_str("upstream_error"), jopt_str(&summary)));
            d.push((String::from_str("upstream_status"), JsonValue::Number(JsonNumber::Int(status as i128))));
            proof {
                reveal_strlit("upstream_error");
                reveal_strlit("upstream_status");
                assert("upstream_error"@.len() != "upstream_status"@.len());
                assert(d@[0].0@ == "upstream_error"@);
                assert(d@[1].0@ == "upstream_status"@);
                assert(d@.drop_first()[0] == d@[1]);
                reveal_with_fuel(entries_get, 3);
            }
            internal_error("gateway request failed", Some(JsonValue::Object(d)))
        },
        GatewayFailure::Unavailable => internal_error("gateway request failed", None),
    }
}

/// A failed lookup of one resource: a 404 answer means the resource does not exist and is
/// reported as the tool error `code`/`message`; any other failure is a protocol error.
pub fn not_found_or_failure(err: GatewayFailure, code: &str, message: &str, request_id: &str) -> (r: Result<
    ToolError,
    McpError,
>)
    ensures
        (err matches GatewayFailure::Upstream { status, .. } && status == 404) ==> (r matches Ok(t)
            && t.code@ == code@ && t.message@ == message@ && t.request_id@ == request_id@
            && bare(t)),
        !(err matches GatewayFailure::Upstream { status, .. } && status == 404) ==> (r matches Err(e)
            && reports_gateway_failure(err, e)),
{
    match &err {
        GatewayFailure::Upstream { status, .. } => {
            if *status == 404 {
                return Ok(tool_error(code, message, request_id));
            }
        },
        GatewayFailure::Unavailable => {},
    }
    Err(gateway_failure_error(err))
}

} // verus!
