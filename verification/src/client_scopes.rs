//! Client scope tools: arguments. A scope named by id or name is resolved as for realm
//! default scopes (`crate::realms::realm_scope_id`).
use vstd::prelude::*;
use crate::clients::StringMap;
use crate::json::{JsonValue, entry_views, opt_text_json, string_text, with_entry};
use crate::identity_providers::{config_json, is_config_json};

verus! {

/// Arguments for `client_scopes.list`.
#[derive(Debug, Clone, PartialEq)]
pub struct ClientScopesListArgs {
    pub realm: String,
}

/// Arguments for `client_scopes.get`: the scope by id or name.
#[derive(Debug, Clone, PartialEq)]
pub struct ClientScopeGetArgs {
    pub realm: String,
    pub id: Option<String>,
    pub name: Option<String>,
}

/// Arguments for `client_scopes.create`.
#[derive(Debug, Clone, PartialEq)]
pub struct ClientScopeCreateArgs {
    pub realm: String,
    pub name: String,
    pub protocol: Option<String>,
    pub description: Option<String>,
}

/// Arguments for `client_scopes.delete`: the scope by id or name.
#[derive(Debug, Clone, PartialEq)]
pub struct ClientScopeDeleteArgs {
    pub realm: String,
    pub id: Option<String>,
    pub name: Option<String>,
}

/// A client scope named by id or name.
#[derive(Debug, Clone, PartialEq)]
pub struct ClientScopeRefArgs {
    pub realm: String,
    pub scope_id: Option<String>,
    pub scope_name: Option<String>,
}

/// Arguments for listing a client scope's protocol mappers.
#[derive(Debug, Clone, PartialEq)]
pub struct ClientScopeProtocolMapperListArgs {
    pub realm: String,
    pub scope_id: Option<String>,
    pub scope_name: Option<String>,
    pub include_config: Option<bool>,
}

/// Arguments for adding a protocol mapper to a client scope.
#[derive(Debug, Clone, PartialEq)]
pub struct ClientScopeProtocolMapperAddArgs {
    pub realm: String,
    pub scope_id: Option<String>,
    pub scope_name: Option<String>,
    pub mapper_name: String,
    pub protocol: String,
    pub protocol_mapper: String,
    pub config: Option<StringMap>,
}

/// Arguments for deleting a protocol mapper of a client scope.
#[derive(Debug, Clone, PartialEq)]
pub struct ClientScopeProtocolMapperDeleteArgs {
    pub realm: String,
    pub scope_id: Option<String>,
    pub scope_name: Option<String>,
    pub mapper_id: String,
}

/// Arguments for changing a client scope's realm role mappings.
#[derive(Debug, Clone, PartialEq)]
pub struct ClientScopeScopeMappingsRealmModifyArgs {
    pub realm: String,
    pub scope_id: Option<String>,
    pub scope_name: Option<String>,
    pub role_names: Option<Vec<String>>,
}

/// The body that creates a client scope: `name`, `protocol` (by default `openid-connect`) and
/// `description` (null when absent).
pub fn client_scope_create_body(args: &ClientScopeCreateArgs) -> (v: JsonValue)
    ensures
        v matches JsonValue::Object(e) && entry_views(e@).len() == 3
            && entry_views(e@)[0] == ("name"@, JsonValue::String(args.name))
            && entry_views(e@)[1].0 == "protocol"@ && string_text(entry_views(e@)[1].1) == Some(
            match args.protocol {
                Some(x) => x@,
                None => "openid-connect"@,
            },
        ) && entry_views(e@)[2] == ("description"@, opt_text_json(args.description)),
{
    let protocol = match &args.protocol {
        Some(p) => p.clone(),
        None => String::from_str("openid-connect"),
    };
    let e: Vec<(String, JsonValue)> = Vec::new();
    let e = with_entry(e, "name", JsonValue::String(args.name.clone()));
    let e = with_entry(e, "protocol", JsonValue::String(protocol));
    let e = with_entry(e, "description", crate::json::jopt_str(&args.description));
    JsonValue::Object(e)
}

/// The body that adds a protocol mapper to a client scope: `name` (the mapper's name),
/// `protocol`, `protocolMapper` and `config` (null when absent).
pub fn scope_protocol_mapper_body(args: &ClientScopeProtocolMapperAddArgs) -> (v: JsonValue)
    ensures
        v matches JsonValue::Object(e) && entry_views(e@).len() == 4
            && entry_views(e@)[0] == ("name"@, JsonValue::String(args.mapper_name))
            && entry_views(e@)[1] == ("protocol"@, JsonValue::String(args.protocol))
            && entry_views(e@)[2] == ("protocolMapper"@, JsonValue::String(args.protocol_mapper))
            && entry_views(e@)[3].0 == "config"@ && is_config_json(entry_views(e@)[3].1, args.config),
{
    let e: Vec<(String, JsonValue)> = Vec::new();
    let e = with_entry(e, "name", JsonValue::String(args.mapper_name.clone()));
    let e = with_entry(e, "protocol", JsonValue::String(args.protocol.clone()));
    let e = with_entry(e, "protocolMapper", JsonValue::String(args.protocol_mapper.clone()));
    let e = with_entry(e, "config", config_json(&args.config));
    JsonValue::Object(e)
}

} // verus!
