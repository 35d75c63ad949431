//! Identity provider tools: arguments and the bodies of create calls.
use vstd::prelude::*;
use crate::clients::StringMap;
use crate::json::{JsonValue, entry_views, opt_text_json, with_entry};

verus! {

/// Arguments for `idp.list`.
#[derive(Debug, Clone, PartialEq)]
pub struct IdentityProvidersListArgs {
    pub realm: String,
}

/// Arguments for `idp.get`.
#[derive(Debug, Clone, PartialEq)]
pub struct IdentityProviderGetArgs {
    pub realm: String,
    pub alias: String,
}

/// Arguments for `idp.create`.
#[derive(Debug, Clone, PartialEq)]
pub struct IdentityProviderCreateArgs {
    pub realm: String,
    pub alias: String,
    pub provider_id: String,
    pub display_name: Option<String>,
    pub enabled: Option<bool>,
    pub config: Option<StringMap>,
}

/// Arguments for `idp.delete`.
#[derive(Debug, Clone, PartialEq)]
pub struct IdentityProviderDeleteArgs {
    pub realm: String,
    pub alias: String,
}

/// Arguments for `idp.mappers.list`.
#[derive(Debug, Clone, PartialEq)]
pub struct IdentityProviderMappersListArgs {
    pub realm: String,
    pub alias: String,
}

/// Arguments for `idp.mappers.add`.
#[derive(Debug, Clone, PartialEq)]
pub struct IdentityProviderMapperCreateArgs {
    pub realm: String,
    pub alias: String,
    pub name: String,
    pub identity_provider_mapper: String,
    pub config: Option<StringMap>,
}

/// Arguments for `idp.mappers.delete`.
#[derive(Debug, Clone, PartialEq)]
pub struct IdentityProviderMapperDeleteArgs {
    pub realm: String,
    pub alias: String,
    pub mapper_id: String,
}

/// The JSON object of a string map: its entries, in order, as string members.
pub open spec fn string_map_members(m: Seq<(String, String)>) -> Seq<(Seq<char>, JsonValue)> {
    Seq::new(m.len(), |i: int| (m[i].0@, JsonValue::String(m[i].1)))
}

/// A string map as a JSON object, or null when absent.
pub open spec fn is_config_json(v: JsonValue, m: Option<StringMap>) -> bool {
    match m {
        Some(map) => v matches JsonValue::Object(e) && entry_views(e@) == string_map_members(map@),
        None => v == JsonValue::Null,
    }
}

/// Converts an optional string map to JSON.
pub fn config_json(m: &Option<StringMap>) -> (v: JsonValue)
    ensures
        is_config_json(v, *m),
{
    match m {
        Some(map) => {
            let mut e: Vec<(String, JsonValue)> = Vec::new();
            let n = map.len();
            for i in 0..n
                invariant
                    n == map@.len(),
                    entry_views(e@) == string_map_members(map@).take(i as int),
            {
                let ghost before = e@;
                let k = map[i].0.clone();
                let v = map[i].1.clone();
                assert(k@ == map@[i as int].0@ && v == map@[i as int].1);
                e.push((k, JsonValue::String(v)));
                assert(entry_views(e@) =~= entry_views(before).push((map@[i as int].0@, JsonValue::String(map@[i as int].1))));
                assert(entry_views(e@) =~= string_map_members(map@).take(i + 1));
            }
            assert(string_map_members(map@).take(n as int) =~= string_map_members(map@));
            JsonValue::Object(e)
        },
        None => JsonValue::Null,
    }
}

/// The body that creates an identity provider: `alias`, `providerId`, `displayName` (null
/// when absent), `enabled` (by default true), `config` (null when absent).
pub fn identity_provider_body(args: &IdentityProviderCreateArgs) -> (v: JsonValue)
    ensures
        v matches JsonValue::Object(e) && entry_views(e@).len() == 5 && entry_views(e@)[0] == (
            "alias"@,
            JsonValue::String(args.alias),
        ) && entry_views(e@)[1] == ("providerId"@, JsonValue::String(args.provider_id)) && entry_views(e@)[2]
            == ("displayName"@, opt_text_json(args.display_name)) && entry_views(e@)[3] == (
            "enabled"@,
            JsonValue::Bool(args.enabled.unwrap_or(true)),
        ) && entry_views(e@)[4].0 == "config"@ && is_config_json(entry_views(e@)[4].1, args.config),
{
    let e: Vec<(String, JsonValue)> = Vec::new();
    assert(entry_views(e@) =~= Seq::<(Seq<char>, JsonValue)>::empty());
    let e = with_entry(e, "alias", JsonValue::String(args.alias.clone()));
    let e = with_entry(e, "providerId", JsonValue::String(args.provider_id.clone()));
    let e = with_entry(e, "displayName", crate::json::jopt_str(&args.display_name));
    let e = with_entry(e, "enabled", JsonValue::Bool(args.enabled.unwrap_or(true)));
    let e = with_entry(e, "config", config_json(&args.config));
    JsonValue::Object(e)
}

/// The body that adds a mapper to an identity provider: `name`, `identityProviderMapper`,
/// `config` (null when absent).
pub fn identity_provider_mapper_body(args: &IdentityProviderMapperCreateArgs) -> (v: JsonValue)
    ensures
        v matches JsonValue::Object(e) && entry_views(e@).len() == 3 && entry_views(e@)[0] == (
            "name"@,
            JsonValue::String(args.name),
        ) && entry_views(e@)[1] == ("identityProviderMapper"@, JsonValue::String(args.identity_provider_mapper))
            && entry_views(e@)[2].0 == "config"@ && is_config_json(entry_views(e@)[2].1, args.config),
{
    let e: Vec<(String, JsonValue)> = Vec::new();
    assert(entry_views(e@) =~= Seq::<(Seq<char>, JsonValue)>::empty());
    let e = with_entry(e, "name", JsonValue::String(args.name.clone()));
    let e = with_entry(e, "identityProviderMapper", JsonValue::String(args.identity_provider_mapper.clone()));
    let e = with_entry(e, "config", config_json(&args.config));
    JsonValue::Object(e)
}

} // verus!
