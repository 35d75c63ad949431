//! Realm tools: arguments, realm default client scopes, client registration policy
//! components (selecting, summarizing and updating them) and realm event settings.
use vstd::prelude::*;
use crate::errors::{bare, McpError, Refusal, ToolError, internal_error, tool_error, INTERNAL_ERROR};
use crate::json::{
    JsonNumber, JsonValue, entries_get, entries_has, entries_index, entries_lookup, entry_views,
    lemma_entries_get_at,
    field, field_text, get_field_str, json_set, jstr, opt_entry, some_bool, some_bool_json,
    string_text, with_entry, with_opt_entry,
};
use crate::text::{str_eq, trim, trimmed};

verus! {

/// Longest client scope description reported, in characters.
pub const MAX_DESC_LEN: usize = 1024;

/// The component type of client registration policies.
pub const CLIENT_REG_POLICY_COMPONENT_TYPE: &'static str =
    "org.keycloak.services.clientregistration.policy.ClientRegistrationPolicy";

/// The provider of the Allowed Client Scopes policy, targeted when no selector is given.
pub const DEFAULT_ALLOWED_CLIENT_SCOPES_PROVIDER: &'static str = "allowed-client-templates";

/// Arguments for realm-scoped tools.
#[derive(Debug, Clone, PartialEq)]
pub struct RealmArgs {
    pub realm: String,
}

/// Arguments for `client_initial_access.create`.
#[derive(Debug, Clone, PartialEq)]
pub struct ClientInitialAccessCreateArgs {
    pub realm: String,
    pub count: Option<u32>,
    pub expiration: Option<u32>,
}

/// Arguments for `client_initial_access.delete`.
#[derive(Debug, Clone, PartialEq)]
pub struct ClientInitialAccessDeleteArgs {
    pub realm: String,
    pub id: String,
}

/// Realm event settings as `realm.events.config.set` takes them.
#[derive(Debug, Clone, PartialEq)]
pub struct RealmEventsConfig {
    pub events_enabled: Option<bool>,
    pub events_expiration: Option<i64>,
    pub events_listeners: Option<Vec<String>>,
    pub enabled_event_types: Option<Vec<String>>,
    pub admin_events_enabled: Option<bool>,
    pub admin_events_details_enabled: Option<bool>,
}

/// Arguments for `realm.events.config.set`.
#[derive(Debug, Clone, PartialEq)]
pub struct RealmEventsConfigArgs {
    pub realm: String,
    pub config: RealmEventsConfig,
}

/// Arguments for updating a client registration policy component.
#[derive(Debug, Clone, PartialEq)]
pub struct ClientRegistrationPolicyUpdateArgs {
    pub realm: String,
    pub id: Option<String>,
    pub name: Option<String>,
    pub provider_id: Option<String>,
    pub allowed_scopes: Vec<String>,
    pub allow_default_scopes: Option<bool>,
}

/// Arguments for creating a client registration policy component.
#[derive(Debug, Clone, PartialEq)]
pub struct ClientRegistrationPolicyCreateArgs {
    pub realm: String,
    pub name: Option<String>,
    pub provider_id: Option<String>,
    pub allowed_scopes: Vec<String>,
    pub allow_default_scopes: Option<bool>,
}

/// Arguments for deleting a client registration policy component.
#[derive(Debug, Clone, PartialEq)]
pub struct ClientRegistrationPolicyDeleteArgs {
    pub realm: String,
    pub id: Option<String>,
    pub name: Option<String>,
    pub provider_id: Option<String>,
}

/// Selectors for listing configured client registration policies.
#[derive(Debug, Clone, PartialEq)]
pub struct ClientRegistrationPolicyListArgs {
    pub realm: String,
    pub id: Option<String>,
    pub name: Option<String>,
    pub provider_id: Option<String>,
}

/// Selectors for fetching one configured client registration policy.
#[derive(Debug, Clone, PartialEq)]
pub struct ClientRegistrationPolicyGetArgs {
    pub realm: String,
    pub id: Option<String>,
    pub name: Option<String>,
    pub provider_id: Option<String>,
}

/// Which realm default client scopes a request concerns.
#[derive(Debug, Clone, Copy, PartialEq, Eq, Structural)]
pub enum DefaultScopeKind {
    Default,
    Optional,
}

/// Arguments for `realm.default_scopes.list`.
#[derive(Debug, Clone, PartialEq)]
pub struct RealmDefaultScopesListArgs {
    pub realm: String,
    pub kind: DefaultScopeKind,
}

/// Arguments for `realm.default_scopes.add`: the scope by id or by name.
#[derive(Debug, Clone, PartialEq)]
pub struct RealmDefaultScopesAddArgs {
    pub realm: String,
    pub kind: DefaultScopeKind,
    pub scope_id: Option<String>,
    pub scope_name: Option<String>,
}

/// Arguments for `realm.default_scopes.remove`.
#[derive(Debug, Clone, PartialEq)]
pub struct RealmDefaultScopesRemoveArgs {
    pub realm: String,
    pub kind: DefaultScopeKind,
    pub scope_id: String,
}

/// The path segment of realm default scopes of a kind.
pub open spec fn default_scopes_segment(kind: DefaultScopeKind) -> Seq<char> {
    match kind {
        DefaultScopeKind::Default => "default-default-client-scopes"@,
        DefaultScopeKind::Optional => "default-optional-client-scopes"@,
    }
}

fn default_scopes_suffix(kind: &DefaultScopeKind) -> (s: &'static str)
    ensures
        s@ == default_scopes_segment(*kind),
{
    match kind {
        DefaultScopeKind::Default => "default-default-client-scopes",
        DefaultScopeKind::Optional => "default-optional-client-scopes",
    }
}

/// The path of a realm's default scopes of a kind: `/admin/realms/{realm}/{segment}`.
pub fn realm_default_scopes_path(realm: &str, kind: &DefaultScopeKind) -> (p: String)
    ensures
        p@ == "/admin/realms/"@ + realm@ + "/"@ + default_scopes_segment(*kind),
{
    let mut p = String::from_str("/admin/realms/");
    p.append(realm);
    p.append("/");
    p.append(default_scopes_suffix(kind));
    p
}

/// The path of one realm default scope: `/admin/realms/{realm}/{segment}/{scope_id}`.
pub fn realm_default_scope_member_path(realm: &str, kind: &DefaultScopeKind, scope_id: &str) -> (p: String)
    ensures
        p@ == "/admin/realms/"@ + realm@ + "/"@ + default_scopes_segment(*kind) + "/"@ + scope_id@,
{
    let mut p = realm_default_scopes_path(realm, kind);
    p.append("/");
    p.append(scope_id);
    p
}

/// The provider a registration policy request targets: with no selector at all, the Allowed
/// Client Scopes provider; otherwise the given provider id, if any.
pub fn resolve_registration_policy_provider_id(
    id: &Option<String>,
    name: &Option<String>,
    provider_id: &Option<String>,
) -> (r: Option<String>)
    ensures
        id is None && name is None && provider_id is None ==> (r matches Some(p) && p@
            == "allowed-client-templates"@),
        !(id is None && name is None && provider_id is None) ==> (r is Some <==> provider_id is Some),
        !(id is None && name is None && provider_id is None) ==> (r matches Some(p) ==> p@ == provider_id->0@),
{
    if id.is_none() && name.is_none() && provider_id.is_none() {
        Some(String::from_str(DEFAULT_ALLOWED_CLIENT_SCOPES_PROVIDER))
    } else {
        match provider_id {
            Some(p) => Some(p.clone()),
            None => None,
        }
    }
}

/// The text of an optional `&str`.
pub open spec fn opt_str_view(o: Option<&str>) -> Option<Seq<char>> {
    match o {
        Some(s) => Some(s@),
        None => None,
    }
}

/// A selector accepts a value: an absent selector accepts anything, a given one only equal
/// text.
pub open spec fn selector_accepts(selector: Option<Seq<char>>, value: Option<Seq<char>>) -> bool {
    match selector {
        Some(s) => value == Some(s),
        None => true,
    }
}

/// A component matches every given selector (`id`, `name`, `providerId`).
pub open spec fn component_matches(
    c: JsonValue,
    id: Option<Seq<char>>,
    name: Option<Seq<char>>,
    provider_id: Option<Seq<char>>,
) -> bool {
    &&& selector_accepts(id, field_text(c, "id"@))
    &&& selector_accepts(name, field_text(c, "name"@))
    &&& selector_accepts(provider_id, field_text(c, "providerId"@))
}

/// The indices of the matching components, in order.
pub open spec fn matching_indices(
    components: Seq<JsonValue>,
    id: Option<Seq<char>>,
    name: Option<Seq<char>>,
    provider_id: Option<Seq<char>>,
) -> Seq<int>
    decreases components.len(),
{
    if components.len() == 0 {
        Seq::empty()
    } else {
        let rest = matching_indices(components.drop_last(), id, name, provider_id);
        if component_matches(components.last(), id, name, provider_id) {
            rest.push(components.len() - 1)
        } else {
            rest
        }
    }
}

/// Each given selector is honoured, stated over the components' own `id`, `name` and
/// `providerId` texts: every matched index names a component whose members equal every given
/// selector; every component whose members equal every given selector is matched; and the
/// indices are increasing.
pub proof fn law_policy_selectors_are_honoured(
    components: Seq<JsonValue>,
    id: Option<Seq<char>>,
    name: Option<Seq<char>>,
    provider_id: Option<Seq<char>>,
)
    ensures
        forall|k: int| #![trigger matching_indices(components, id, name, provider_id)[k]]
            0 <= k < matching_indices(components, id, name, provider_id).len() ==> selected_by(
                components,
                matching_indices(components, id, name, provider_id)[k],
                id,
                name,
                provider_id,
            ),
        forall|j: int| selected_by(components, j, id, name, provider_id) ==> #[trigger] matching_indices(
            components,
            id,
            name,
            provider_id,
        ).contains(j),
        forall|k: int, l: int|
            0 <= k < l < matching_indices(components, id, name, provider_id).len() ==> #[trigger] matching_indices(
                components,
                id,
                name,
                provider_id,
            )[k] < #[trigger] matching_indices(components, id, name, provider_id)[l],
    decreases components.len(),
{
    let m = matching_indices(components, id, name, provider_id);
    if components.len() > 0 {
        let front = components.drop_last();
        law_policy_selectors_are_honoured(front, id, name, provider_id);
        let rest = matching_indices(front, id, name, provider_id);
        let last = components.len() - 1;
        assert(components[last] == components.last());
        assert forall|j: int| 0 <= j < front.len() implies (selected_by(front, j, id, name, provider_id)
            <==> selected_by(components, j, id, name, provider_id)) by {
            assert(front[j] == components[j]);
        }
        assert forall|k: int| 0 <= k < rest.len() implies #[trigger] rest[k] < front.len() by {
            assert(selected_by(front, rest[k], id, name, provider_id));
        }
        assert forall|k: int| #![trigger m[k]] 0 <= k < m.len() implies selected_by(components, m[k], id, name, provider_id) by {
            if k < rest.len() {
                assert(m[k] == rest[k]);
                assert(selected_by(front, rest[k], id, name, provider_id));
            }
        }
        assert forall|j: int| selected_by(components, j, id, name, provider_id) implies #[trigger] m.contains(j) by {
            if j < front.len() {
                assert(selected_by(front, j, id, name, provider_id));
                assert(rest.contains(j));
                let k = choose|k: int| 0 <= k < rest.len() && rest[k] == j;
                assert(m[k] == rest[k]);
            } else {
                assert(m[m.len() - 1] == j);
            }
        }
        assert forall|k: int, l: int| 0 <= k < l < m.len() implies #[trigger] m[k] < #[trigger] m[l] by {
            if l < rest.len() {
                assert(m[k] == rest[k] && m[l] == rest[l]);
            } else {
                assert(m[k] == rest[k]);
            }
        }
    } else {
        assert(m =~= Seq::<int>::empty());
    }
}

/// Component `j` exists and its `id`, `name` and `providerId` texts equal every given selector.
pub open spec fn selected_by(
    components: Seq<JsonValue>,
    j: int,
    id: Option<Seq<char>>,
    name: Option<Seq<char>>,
    provider_id: Option<Seq<char>>,
) -> bool {
    &&& 0 <= j < components.len()
    &&& id matches Some(x) ==> field_text(components[j], "id"@) == Some(x)
    &&& name matches Some(x) ==> field_text(components[j], "name"@) == Some(x)
    &&& provider_id matches Some(x) ==> field_text(components[j], "providerId"@) == Some(x)
}

/// Whether a selector accepts the text member `key` of a component.
fn accepts(selector: Option<&str>, c: &JsonValue, key: &str) -> (r: bool)
    ensures
        r == selector_accepts(opt_str_view(selector), field_text(*c, key@)),
{
    match selector {
        None => true,
        Some(s) => match get_field_str(c, key) {
            Some(v) => str_eq(v.as_str(), s),
            None => false,
        },
    }
}

/// The indices of the components that match every given selector, in order; with no selector
/// at all, none.
pub fn match_registration_policy_components(
    components: &[JsonValue],
    id: Option<&str>,
    name: Option<&str>,
    provider_id: Option<&str>,
) -> (r: Vec<usize>)
    ensures
        id is None && name is None && provider_id is None ==> r@.len() == 0,
        !(id is None && name is None && provider_id is None) ==> r@.map_values(|i: usize| i as int)
            == matching_indices(components@, opt_str_view(id), opt_str_view(name), opt_str_view(provider_id)),
{
    let mut matches: Vec<usize> = Vec::new();
    if id.is_none() && name.is_none() && provider_id.is_none() {
        return matches;
    }
    let ghost (gi, gn, gp) = (opt_str_view(id), opt_str_view(name), opt_str_view(provider_id));
    let n = components.len();
    for idx in 0..n
        invariant
            n == components@.len(),
            gi == opt_str_view(id) && gn == opt_str_view(name) && gp == opt_str_view(provider_id),
            matches@.map_values(|i: usize| i as int) == matching_indices(components@.take(idx as int), gi, gn, gp),
    {
        let ghost before = matches@;
        assert(components@.take(idx + 1).drop_last() =~= components@.take(idx as int));
        assert(components@.take(idx + 1).last() == components@[idx as int]);
        let item = &components[idx];
        if accepts(id, item, "id") && accepts(name, item, "name") && accepts(provider_id, item, "providerId") {
            matches.push(idx);
            assert(matches@.map_values(|i: usize| i as int) =~= before.map_values(|i: usize| i as int).push(
                idx as int,
            ));
        }
    }
    assert(components@.take(n as int) =~= components@);
    matches
}

/// The config keys of the allowed client scopes list (current name first).
pub open spec fn allowed_scopes_keys() -> (Seq<char>, Seq<char>) {
    ("allowedClientScopes"@, "allowed-client-scopes"@)
}

/// The config keys of the allow-default-scopes flag (current name first).
pub open spec fn allow_default_keys() -> (Seq<char>, Seq<char>) {
    ("allowDefaultScopes"@, "allow-default-scopes"@)
}

/// The config member under the first of two keys that is present.
pub open spec fn config_member(config: Seq<(String, JsonValue)>, keys: (Seq<char>, Seq<char>)) -> Option<JsonValue> {
    if entries_get(config, keys.0) is Some {
        entries_get(config, keys.0)
    } else {
        entries_get(config, keys.1)
    }
}

/// The key a config value is written under: the first present key, else the first key.
pub open spec fn config_target(config: Seq<(String, JsonValue)>, keys: (Seq<char>, Seq<char>)) -> Seq<char> {
    if entries_get(config, keys.0) is Some {
        keys.0
    } else if entries_get(config, keys.1) is Some {
        keys.1
    } else {
        keys.0
    }
}

/// The strings of a JSON array, in order (other items are ignored).
pub open spec fn string_items(items: Seq<JsonValue>) -> Seq<Seq<char>>
    decreases items.len(),
{
    if items.len() == 0 {
        Seq::empty()
    } else {
        let rest = string_items(items.drop_last());
        match items.last() {
            JsonValue::String(s) => rest.push(s@),
            _ => rest,
        }
    }
}

/// The list a config value holds: the strings of an array, or a single string.
pub open spec fn config_values(v: Option<JsonValue>) -> Seq<Seq<char>> {
    match v {
        Some(JsonValue::Array(items)) => string_items(items@),
        Some(JsonValue::String(s)) => seq![s@],
        _ => Seq::empty(),
    }
}

/// `true` and `false` as text.
pub open spec fn parse_bool(s: Seq<char>) -> Option<bool> {
    if s == "true"@ {
        Some(true)
    } else if s == "false"@ {
        Some(false)
    } else {
        None
    }
}

/// The flag a config value holds: a boolean, its text, or that of an array's first item.
pub open spec fn config_flag(v: Option<JsonValue>) -> Option<bool> {
    match v {
        Some(JsonValue::Bool(b)) => Some(b),
        Some(JsonValue::String(s)) => parse_bool(s@),
        Some(JsonValue::Array(items)) => if items@.len() == 0 {
            None
        } else {
            match items@[0] {
                JsonValue::Bool(b) => Some(b),
                JsonValue::String(s) => parse_bool(s@),
                _ => None,
            }
        },
        _ => None,
    }
}

/// Parses `true` or `false`.
fn parse_bool_text(s: &str) -> (r: Option<bool>)
    ensures
        r == parse_bool(s@),
{
    if str_eq(s, "true") {
        proof {
            reveal_strlit("true");
        }
        Some(true)
    } else if str_eq(s, "false") {
        Some(false)
    } else {
        None
    }
}

/// The config member under the first present of two keys.
fn config_lookup<'a>(config: &'a Vec<(String, JsonValue)>, primary: &str, alternate: &str) -> (r: Option<&'a JsonValue>)
    ensures
        r matches Some(x) ==> config_member(config@, (primary@, alternate@)) == Some(*x),
        r is None ==> config_member(config@, (primary@, alternate@)) is None,
{
    match entries_lookup(config, primary) {
        Some(v) => Some(v),
        None => entries_lookup(config, alternate),
    }
}

/// The list held under the first present of two config keys.
pub fn registration_policy_config_values(config: &Vec<(String, JsonValue)>, primary: &str, alternate: &str) -> (r: Vec<
    String,
>)
    ensures
        crate::text::string_views(r@) == config_values(config_member(config@, (primary@, alternate@))),
{
    let mut out: Vec<String> = Vec::new();
    match config_lookup(config, primary, alternate) {
        Some(JsonValue::Array(items)) => {
            let n = items.len();
            for i in 0..n
                invariant
                    n == items@.len(),
                    crate::text::string_views(out@) == string_items(items@.take(i as int)),
            {
                let ghost before = out@;
                assert(items@.take(i + 1).drop_last() =~= items@.take(i as int));
                assert(items@.take(i + 1).last() == items@[i as int]);
                match &items[i] {
                    JsonValue::String(s) => {
                        out.push(s.clone());
                        assert(crate::text::string_views(out@) =~= crate::text::string_views(before).push(s@));
                    },
                    _ => {},
                }
            }
            assert(items@.take(n as int) =~= items@);
        },
        Some(JsonValue::String(s)) => {
            out.push(s.clone());
            assert(crate::text::string_views(out@) =~= seq![s@]);
        },
        _ => {
            assert(crate::text::string_views(out@) =~= Seq::<Seq<char>>::empty());
        },
    }
    out
}

/// The flag held under the first present of two config keys.
pub fn registration_policy_config_bool(config: &Vec<(String, JsonValue)>, primary: &str, alternate: &str) -> (r: Option<
    bool,
>)
    ensures
        r == config_flag(config_member(config@, (primary@, alternate@))),
{
    match config_lookup(config, primary, alternate) {
        Some(JsonValue::Bool(b)) => Some(*b),
        Some(JsonValue::String(s)) => parse_bool_text(s.as_str()),
        Some(JsonValue::Array(items)) => {
            if items.len() == 0 {
                None
            } else {
                match &items[0] {
                    JsonValue::Bool(b) => Some(*b),
                    JsonValue::String(s) => parse_bool_text(s.as_str()),
                    _ => None,
                }
            }
        },
        _ => None,
    }
}

/// Writes a list under the first present of two config keys (else the first key).
pub fn set_config_list(config: Vec<(String, JsonValue)>, primary: &str, alternate: &str, values: &[String]) -> (r: Vec<
    (String, JsonValue),
>)
    ensures
        forall|k: Seq<char>| k != config_target(config@, (primary@, alternate@)) ==> #[trigger] entries_get(r@, k)
            == entries_get(config@, k),
        entries_get(r@, config_target(config@, (primary@, alternate@))) matches Some(JsonValue::Array(items))
            && items@ == crate::json::string_array_json(values@),
{
    let use_alternate = entries_lookup(&config, primary).is_none() && entries_lookup(&config, alternate).is_some();
    let list = crate::json::jstr_array(values);
    if use_alternate {
        json_set(config, alternate, list)
    } else {
        json_set(config, primary, list)
    }
}

/// Writes a flag, as the one-item list `["true"]` or `["false"]`, under the first present of
/// two config keys (else the first key).
pub fn set_config_bool(config: Vec<(String, JsonValue)>, primary: &str, alternate: &str, value: bool) -> (r: Vec<
    (String, JsonValue),
>)
    ensures
        forall|k: Seq<char>| k != config_target(config@, (primary@, alternate@)) ==> #[trigger] entries_get(r@, k)
            == entries_get(config@, k),
        entries_get(r@, config_target(config@, (primary@, alternate@))) matches Some(JsonValue::Array(items))
            && items@.len() == 1 && string_text(items@[0]) == Some(if value { "true"@ } else { "false"@ }),
{
    let mut v: Vec<String> = Vec::new();
    v.push(String::from_str(if value { "true" } else { "false" }));
    set_config_list(config, primary, alternate, &v)
}

/// A configured client registration policy as the tools report it.
#[derive(Debug, PartialEq)]
pub struct ClientRegistrationPolicySummary {
    pub id: Option<String>,
    pub name: Option<String>,
    pub provider_id: Option<String>,
    pub provider_type: Option<String>,
    pub parent_id: Option<String>,
    pub allowed_scopes: Vec<String>,
    pub allow_default_scopes: Option<bool>,
    pub config: JsonValue,
}

/// The text of an optional string.
pub open spec fn opt_view(o: Option<String>) -> Option<Seq<char>> {
    match o {
        Some(s) => Some(s@),
        None => None,
    }
}

/// The entries of a component's `config` when it is an object, else none.
pub open spec fn component_config(c: JsonValue) -> Seq<(String, JsonValue)> {
    match field(c, "config"@) {
        Some(JsonValue::Object(e)) => e@,
        _ => Seq::empty(),
    }
}

/// The text member `key` of a value.
fn text_member(v: &JsonValue, key: &str) -> (r: Option<String>)
    ensures
        opt_view(r) == field_text(*v, key@),
{
    match get_field_str(v, key) {
        Some(s) => Some(s.clone()),
        None => None,
    }
}

/// Summarizes a registration policy component; `None` when it is not an object. The allowed
/// scopes and the allow-default flag are read from the config under either of their keys.
pub fn summarize_registration_policy_component(component: JsonValue) -> (r: Option<ClientRegistrationPolicySummary>)
    ensures
        r is Some <==> component is Object,
        r matches Some(s) ==> {
            &&& opt_view(s.id) == field_text(component, "id"@)
            &&& opt_view(s.name) == field_text(component, "name"@)
            &&& opt_view(s.provider_id) == field_text(component, "providerId"@)
            &&& opt_view(s.provider_type) == field_text(component, "providerType"@)
            &&& opt_view(s.parent_id) == field_text(component, "parentId"@)
            &&& crate::text::string_views(s.allowed_scopes@) == config_values(
                config_member(component_config(component), allowed_scopes_keys()),
            )
            &&& s.allow_default_scopes == config_flag(config_member(component_config(component), allow_default_keys()))
            &&& s.config matches JsonValue::Object(e) && e@ == component_config(component)
        },
{
    let id = text_member(&component, "id");
    let name = text_member(&component, "name");
    let provider_id = text_member(&component, "providerId");
    let provider_type = text_member(&component, "providerType");
    let parent_id = text_member(&component, "parentId");
    let ghost c0 = component;
    match component {
        JsonValue::Object(mut entries) => {
            let config: Vec<(String, JsonValue)> = match entries_index(&entries, "config") {
                Some(i) => {
                    if matches!(entries[i].1, JsonValue::Object(_)) {
                        let (_, v) = entries.remove(i);
                        match v {
                            JsonValue::Object(cfg) => cfg,
                            _ => Vec::new(),
                        }
                    } else {
                        Vec::new()
                    }
                },
                None => Vec::new(),
            };
            assert(config@ == component_config(c0));
            let allowed_scopes = registration_policy_config_values(&config, "allowedClientScopes", "allowed-client-scopes");
            let allow_default_scopes = registration_policy_config_bool(&config, "allowDefaultScopes", "allow-default-scopes");
            Some(ClientRegistrationPolicySummary {
                id,
                name,
                provider_id,
                provider_type,
                parent_id,
                allowed_scopes,
                allow_default_scopes,
                config: JsonValue::Object(config),
            })
        },
        _ => None,
    }
}

/// Picks the one component that a get, update or delete targets: none matching or several
/// matching are refused.
pub fn select_registration_policy(matches: &[usize], request_id: &str) -> (r: Result<usize, ToolError>)
    ensures
        matches@.len() == 1 <==> r is Ok,
        r matches Ok(i) ==> i == matches@[0],
        matches@.len() == 0 ==> (r matches Err(e) && e.code@ == "client_registration.policies.not_found"@
            && e.message@ == "No matching client registration policy component found."@ && e.request_id@
            == request_id@ && bare(e)),
        matches@.len() > 1 ==> (r matches Err(e) && e.code@ == "client_registration.policies.ambiguous"@
            && e.message@ == "Multiple registration policy components matched. Specify id or name."@
            && e.request_id@ == request_id@ && bare(e)),
{
    if matches.len() == 0 {
        return Err(
            tool_error(
                "client_registration.policies.not_found",
                "No matching client registration policy component found.",
                request_id,
            ),
        );
    }
    if matches.len() > 1 {
        return Err(
            tool_error(
                "client_registration.policies.ambiguous",
                "Multiple registration policy components matched. Specify id or name.",
                request_id,
            ),
        );
    }
    Ok(matches[0])
}

/// Refuses a create or update that changes nothing (`code` names which).
pub fn require_policy_changes(
    allowed_scopes: &[String],
    allow_default_scopes: Option<bool>,
    code: &str,
    request_id: &str,
) -> (r: Result<(), ToolError>)
    ensures
        r is Ok <==> (allowed_scopes@.len() > 0 || allow_default_scopes is Some),
        r matches Err(e) ==> e.code@ == code@ && e.message@ == "allowed_scopes or allow_default_scopes must be set."@
            && e.request_id@ == request_id@ && bare(e),
{
    if allowed_scopes.len() == 0 && allow_default_scopes.is_none() {
        return Err(tool_error(code, "allowed_scopes or allow_default_scopes must be set.", request_id));
    }
    Ok(())
}

/// The id of the realm a policy is created under, read from the realm; a blank id counts as
/// missing.
pub fn realm_parent_id(realm: &JsonValue) -> (r: Option<String>)
    ensures
        r matches Some(s) ==> field_text(*realm, "id"@) == Some(s@) && trimmed(s@).len() > 0,
        r is None ==> !(field_text(*realm, "id"@) matches Some(t) && trimmed(t).len() > 0),
{
    match get_field_str(realm, "id") {
        Some(s) => {
            let t = trim(s.as_str());
            if t.as_str().is_empty() {
                None
            } else {
                Some(s.clone())
            }
        },
        None => None,
    }
}

/// A JSON object.
pub open spec fn is_object(v: JsonValue) -> bool {
    v is Object
}

/// The component's `config` is present but not an object.
pub open spec fn config_malformed(c: JsonValue) -> bool {
    match field(c, "config"@) {
        Some(v) => !is_object(v),
        None => false,
    }
}

/// `cfg` is `cfg0` with the allowed scopes written as a list and, when given, the
/// allow-default flag written as a one-item list.
pub open spec fn config_updated(
    cfg0: Seq<(String, JsonValue)>,
    cfg: Seq<(String, JsonValue)>,
    allowed_scopes: Seq<String>,
    allow_default_scopes: Option<bool>,
) -> bool {
    let t1 = config_target(cfg0, allowed_scopes_keys());
    let t2 = config_target(cfg0, allow_default_keys());
    &&& (entries_get(cfg, t1) matches Some(JsonValue::Array(items)) && items@
        == crate::json::string_array_json(allowed_scopes))
    &&& (allow_default_scopes matches Some(b) ==> (entries_get(cfg, t2) matches Some(JsonValue::Array(items))
        && items@.len() == 1 && string_text(items@[0]) == Some(if b { "true"@ } else { "false"@ })))
    &&& forall|k: Seq<char>|
        k != t1 && !(allow_default_scopes is Some && k == t2) ==> #[trigger] entries_get(cfg, k) == entries_get(
            cfg0,
            k,
        )
}

/// `updated` is `component` with its config updated: every other member is kept.
pub open spec fn policy_update_of(
    component: JsonValue,
    updated: JsonValue,
    allowed_scopes: Seq<String>,
    allow_default_scopes: Option<bool>,
) -> bool {
    updated matches JsonValue::Object(e) && (forall|k: Seq<char>| k != "config"@ ==> #[trigger] entries_get(e@, k)
        == field(component, k)) && (entries_get(e@, "config"@) matches Some(JsonValue::Object(cfg))
        && config_updated(component_config(component), cfg@, allowed_scopes, allow_default_scopes))
}

/// Updates a registration policy component: its config gets the allowed scopes (and the
/// allow-default flag when given), everything else is kept. A component that is not an
/// object, or whose config is not an object, is a protocol error; one without an id is
/// refused. Returns the component id and the updated component.
pub fn registration_policy_updated_component(
    component: JsonValue,
    allowed_scopes: &[String],
    allow_default_scopes: Option<bool>,
    request_id: &str,
) -> (r: Result<(String, JsonValue), Refusal>)
    ensures
        !is_object(component) ==> (r matches Err(Refusal::Protocol(e)) && e.code == INTERNAL_ERROR && e.message@
            == "component is not an object"@ && e.data is None),
        is_object(component) && config_malformed(component) ==> (r matches Err(Refusal::Protocol(e)) && e.code
            == INTERNAL_ERROR && e.message@ == "component config is not an object"@ && e.data is None),
        is_object(component) && !config_malformed(component) && !(field_text(component, "id"@) matches Some(t)
            && t.len() > 0) ==> (r matches Err(Refusal::Tool(e)) && e.code@
            == "client_registration.policies.missing_id"@ && e.message@
            == "Component id is missing; cannot update policy."@ && e.request_id@ == request_id@ && bare(e)),
        r is Ok <==> is_object(component) && !config_malformed(component) && (field_text(component, "id"@) matches Some(
            t,
        ) && t.len() > 0),
        r matches Ok((id, c)) ==> field_text(component, "id"@) == Some(id@) && policy_update_of(
            component,
            c,
            allowed_scopes@,
            allow_default_scopes,
        ),
{
    let ghost c0 = component;
    let id = text_member(&component, "id");
    let mut entries = match component {
        JsonValue::Object(e) => e,
        _ => {
            return Err(Refusal::Protocol(internal_error("component is not an object", None)));
        },
    };
    let ghost e0 = entries@;
    let idx = entries_index(&entries, "config");
    let (config_key, cfg0): (String, Vec<(String, JsonValue)>) = match idx {
        Some(i) => {
            if !matches!(entries[i].1, JsonValue::Object(_)) {
                return Err(Refusal::Protocol(internal_error("component config is not an object", None)));
            }
            let (k, v) = entries.remove(i);
            match v {
                JsonValue::Object(cfg) => (k, cfg),
                _ => (k, Vec::new()),
            }
        },
        None => (String::from_str("config"), Vec::new()),
    };
    assert(cfg0@ == component_config(c0));
    let ghost g0 = cfg0@;
    let cfg1 = set_config_list(cfg0, "allowedClientScopes", "allowed-client-scopes", allowed_scopes);
    proof {
        reveal_strlit("allowedClientScopes");
        reveal_strlit("allowed-client-scopes");
        reveal_strlit("allowDefaultScopes");
        reveal_strlit("allow-default-scopes");
        assert("allowedClientScopes"@.len() == 19 && "allowed-client-scopes"@.len() == 21);
        assert("allowDefaultScopes"@.len() == 18 && "allow-default-scopes"@.len() == 20);
        assert(config_target(g0, allow_default_keys()) != config_target(g0, allowed_scopes_keys()));
        assert(entries_get(cfg1@, "allowDefaultScopes"@) == entries_get(g0, "allowDefaultScopes"@));
        assert(entries_get(cfg1@, "allow-default-scopes"@) == entries_get(g0, "allow-default-scopes"@));
        assert(config_target(cfg1@, allow_default_keys()) == config_target(g0, allow_default_keys()));
    }
    let cfg = match allow_default_scopes {
        Some(b) => set_config_bool(cfg1, "allowDefaultScopes", "allow-default-scopes", b),
        None => cfg1,
    };
    assert(config_updated(g0, cfg@, allowed_scopes@, allow_default_scopes));
    let new_entries = match idx {
        Some(i) => {
            let ghost before = entries@;
            entries.insert(i, (config_key, JsonValue::Object(cfg)));
            proof {
                assert(entries@ =~= e0.update(i as int, (entries@[i as int].0, entries@[i as int].1)));
                assert(entries@[i as int].0@ == e0[i as int].0@);
                assert forall|k: Seq<char>| #[trigger] entries_get(entries@, k) == if k == "config"@ {
                    Some(entries@[i as int].1)
                } else {
                    entries_get(e0, k)
                } by {
                    crate::json::lemma_entries_update(e0, i as int, entries@[i as int].1, k);
                    assert(e0.update(i as int, (e0[i as int].0, entries@[i as int].1)) =~= entries@);
                }
            }
            entries
        },
        None => json_set(entries, "config", JsonValue::Object(cfg)),
    };
    let id = match id {
        Some(s) => {
            if s.as_str().is_empty() {
                return Err(
                    Refusal::Tool(
                        tool_error(
                            "client_registration.policies.missing_id",
                            "Component id is missing; cannot update policy.",
                            request_id,
                        ),
                    ),
                );
            }
            s
        },
        None => {
            return Err(
                Refusal::Tool(
                    tool_error(
                        "client_registration.policies.missing_id",
                        "Component id is missing; cannot update policy.",
                        request_id,
                    ),
                ),
            );
        },
    };
    Ok((id, JsonValue::Object(new_entries)))
}

/// The configuration of a new registration policy: the allowed scopes as a list when any are
/// given, and the allow-default flag as a one-item list when given.
pub open spec fn new_policy_config(allowed_scopes: Seq<String>, allow_default_scopes: Option<bool>, cfg: Seq<
    (String, JsonValue),
>) -> bool {
    &&& (allowed_scopes.len() > 0 ==> (entries_get(cfg, "allowedClientScopes"@) matches Some(JsonValue::Array(items))
        && items@ == crate::json::string_array_json(allowed_scopes)))
    &&& (allowed_scopes.len() == 0 ==> entries_get(cfg, "allowedClientScopes"@) is None)
    &&& (allow_default_scopes matches Some(b) ==> (entries_get(cfg, "allowDefaultScopes"@) matches Some(
        JsonValue::Array(items),
    ) && items@.len() == 1 && string_text(items@[0]) == Some(if b { "true"@ } else { "false"@ })))
    &&& (allow_default_scopes is None ==> entries_get(cfg, "allowDefaultScopes"@) is None)
    &&& forall|k: Seq<char>|
        k != "allowedClientScopes"@ && k != "allowDefaultScopes"@ ==> #[trigger] entries_get(cfg, k) is None
}

/// `v` is the body that creates a registration policy component for `args` under the realm
/// `parent_id`: `name` (by default the provider), `providerId` (by default the Allowed Client
/// Scopes provider), `providerType`, `parentId`, and a config holding only what was given.
pub open spec fn policy_create_body_of(args: ClientRegistrationPolicyCreateArgs, parent_id: Seq<char>, v: JsonValue) -> bool {
    v matches JsonValue::Object(e) && entry_views(e@).len() == 5 && entry_views(e@)[0].0 == "name"@
            && string_text(entry_views(e@)[0].1) == Some(
            match args.name {
                Some(n) => n@,
                None => match args.provider_id {
                    Some(p) => p@,
                    None => "allowed-client-templates"@,
                },
            },
        ) && entry_views(e@)[1].0 == "providerId"@ && string_text(entry_views(e@)[1].1) == Some(
            match args.provider_id {
                Some(p) => p@,
                None => "allowed-client-templates"@,
            },
        ) && entry_views(e@)[2].0 == "providerType"@ && string_text(entry_views(e@)[2].1) == Some(
            "org.keycloak.services.clientregistration.policy.ClientRegistrationPolicy"@,
        ) && entry_views(e@)[3].0 == "parentId"@ && string_text(entry_views(e@)[3].1) == Some(parent_id)
            && entry_views(e@)[4].0 == "config"@ && (entry_views(e@)[4].1 matches JsonValue::Object(cfg)
            && new_policy_config(args.allowed_scopes@, args.allow_default_scopes, cfg@))
}

/// The body that creates a registration policy component: `name` (by default the provider),
/// `providerId` (by default the Allowed Client Scopes provider), the policy component type, the
/// realm as parent, and the configuration.
pub fn registration_policy_create_body(
    args: &ClientRegistrationPolicyCreateArgs,
    parent_id: &str,
) -> (v: JsonValue)
    ensures
        policy_create_body_of(*args, parent_id@, v),
{
    let provider = match &args.provider_id {
        Some(p) => p.clone(),
        None => String::from_str(DEFAULT_ALLOWED_CLIENT_SCOPES_PROVIDER),
    };
    let name = match &args.name {
        Some(n) => n.clone(),
        None => provider.clone(),
    };
    let mut cfg: Vec<(String, JsonValue)> = Vec::new();
    if args.allowed_scopes.len() != 0 {
        cfg = set_config_list(cfg, "allowedClientScopes", "allowed-client-scopes", &args.allowed_scopes);
    }
    let ghost g1 = cfg@;
    proof {
        reveal_strlit("allowedClientScopes");
        reveal_strlit("allowDefaultScopes");
        reveal_strlit("allow-default-scopes");
        reveal_strlit("allowed-client-scopes");
        assert("allowedClientScopes"@.len() == 19 && "allowed-client-scopes"@.len() == 21);
        assert("allowDefaultScopes"@.len() == 18 && "allow-default-scopes"@.len() == 20);
        assert(entries_get(Seq::<(String, JsonValue)>::empty(), "allowedClientScopes"@) is None);
    }
    match args.allow_default_scopes {
        Some(b) => {
            cfg = set_config_bool(cfg, "allowDefaultScopes", "allow-default-scopes", b);
        },
        None => {},
    }
    assert(new_policy_config(args.allowed_scopes@, args.allow_default_scopes, cfg@));
    let e: Vec<(String, JsonValue)> = Vec::new();
    assert(entry_views(e@) =~= Seq::<(Seq<char>, JsonValue)>::empty());
    let e = with_entry(e, "name", JsonValue::String(name));
    let e = with_entry(e, "providerId", JsonValue::String(provider));
    let e = with_entry(e, "providerType", jstr(CLIENT_REG_POLICY_COMPONENT_TYPE));
    let e = with_entry(e, "parentId", jstr(parent_id));
    let e = with_entry(e, "config", JsonValue::Object(cfg));
    JsonValue::Object(e)
}

/// The id of the component a delete targets; a component without one is refused.
pub fn policy_component_id(component: &JsonValue, request_id: &str) -> (r: Result<String, ToolError>)
    ensures
        r matches Ok(id) ==> field_text(*component, "id"@) == Some(id@) && id@.len() > 0,
        r is Err <==> !(field_text(*component, "id"@) matches Some(t) && t.len() > 0),
        r matches Err(e) ==> e.code@ == "client_registration.policies.missing_id"@ && e.message@
            == "Component id is missing; cannot delete policy."@ && e.request_id@ == request_id@ && bare(e),
{
    match get_field_str(component, "id") {
        Some(s) => {
            if !s.as_str().is_empty() {
                return Ok(s.clone());
            }
        },
        None => {},
    }
    Err(
        tool_error(
            "client_registration.policies.missing_id",
            "Component id is missing; cannot delete policy.",
            request_id,
        ),
    )
}

/// The id of the first listed scope with the given name (`None` when that scope has no id
/// or no scope has the name).
pub open spec fn first_named_scope_id(scopes: Seq<crate::clients::ClientScopeRepresentation>, name: Seq<char>) -> Option<
    Seq<char>,
>
    decreases scopes.len(),
{
    if scopes.len() == 0 {
        None
    } else if scopes[0].name is Some && scopes[0].name->0@ == name {
        opt_view(scopes[0].id)
    } else {
        first_named_scope_id(scopes.drop_first(), name)
    }
}

/// Resolves the client scope a realm default-scope request names: an explicit id as given,
/// otherwise the id of the first listed scope with the name.
pub fn realm_scope_id(
    scope_id: &Option<String>,
    scope_name: &Option<String>,
    scopes: &[crate::clients::ClientScopeRepresentation],
) -> (r: Option<String>)
    ensures
        scope_id is Some ==> opt_view(r) == opt_view(*scope_id),
        scope_id is None && scope_name is None ==> r is None,
        scope_id is None && scope_name is Some ==> opt_view(r) == first_named_scope_id(scopes@, scope_name->0@),
{
    match scope_id {
        Some(id) => {
            return Some(id.clone());
        },
        None => {},
    }
    let name = match scope_name {
        Some(n) => n,
        None => {
            return None;
        },
    };
    let n = scopes.len();
    let mut i: usize = 0;
    assert(scopes@.skip(0) =~= scopes@);
    while i < n
        invariant
            n == scopes@.len(),
            i <= n,
            scope_id is None,
            scope_name == Some(*name),
            first_named_scope_id(scopes@, name@) == first_named_scope_id(scopes@.skip(i as int), name@),
        decreases n - i,
    {
        assert(scopes@.skip(i as int).drop_first() =~= scopes@.skip(i + 1));
        assert(scopes@.skip(i as int)[0] == scopes@[i as int]);
        match &scopes[i].name {
            Some(sn) => {
                if str_eq(sn.as_str(), name.as_str()) {
                    return match &scopes[i].id {
                        Some(id) => Some(id.clone()),
                        None => None,
                    };
                }
            },
            None => {},
        }
        i = i + 1;
    }
    None
}

/// The first `n` characters of a text.
pub fn truncate_chars(s: &str, n: usize) -> (r: String)
    ensures
        r@ == if s@.len() <= n { s@ } else { s@.take(n as int) },
{
    let cs = crate::text::chars_of(s);
    let mut out: Vec<char> = Vec::new();
    let mut i: usize = 0;
    while i < cs.len() && i < n
        invariant
            cs@ == s@,
            i <= cs@.len(),
            i <= n,
            out@ == s@.take(i as int),
        decreases cs@.len() - i,
    {
        out.push(cs[i]);
        assert(out@ =~= s@.take(i + 1));
        i = i + 1;
    }
    assert(s@.len() <= n ==> s@.take(s@.len() as int) =~= s@);
    crate::outside::string_from_chars(&out)
}

/// A client scope as the realm tools report it: the description is cut to 1024 characters.
pub fn realm_scope_summary(value: crate::clients::ClientScopeRepresentation) -> (s: crate::clients::ClientScopeSummary)
    ensures
        s.id == value.id,
        s.name == value.name,
        s.protocol == value.protocol,
        opt_view(s.description) == match value.description {
            Some(d) => Some(if d@.len() <= MAX_DESC_LEN { d@ } else { d@.take(MAX_DESC_LEN as int) }),
            None => None,
        },
{
    let description = match &value.description {
        Some(d) => Some(truncate_chars(d.as_str(), MAX_DESC_LEN)),
        None => None,
    };
    crate::clients::ClientScopeSummary {
        id: value.id,
        name: value.name,
        protocol: value.protocol,
        description,
    }
}

/// The member `key` of a settings object holds the given list of strings, or is absent.
pub open spec fn list_member(e: Seq<(String, JsonValue)>, key: Seq<char>, l: Option<Vec<String>>) -> bool {
    match l {
        Some(v) => entries_get(e, key) matches Some(JsonValue::Array(items)) && items@
            == crate::json::string_array_json(v@),
        None => entries_get(e, key) is None,
    }
}

/// The realm event settings object: each given setting under its camelCase name, nothing
/// else.
pub open spec fn events_config_members(c: RealmEventsConfig, e: Seq<(String, JsonValue)>) -> bool {
    &&& entries_get(e, "eventsEnabled"@) == some_bool_json(c.events_enabled)
    &&& entries_get(e, "eventsExpiration"@) == match c.events_expiration {
        Some(x) => Some(JsonValue::Number(JsonNumber::Int(x as i128))),
        None => None,
    }
    &&& list_member(e, "eventsListeners"@, c.events_listeners)
    &&& list_member(e, "enabledEventTypes"@, c.enabled_event_types)
    &&& entries_get(e, "adminEventsEnabled"@) == some_bool_json(c.admin_events_enabled)
    &&& entries_get(e, "adminEventsDetailsEnabled"@) == some_bool_json(c.admin_events_details_enabled)
    &&& forall|k: Seq<char>|
        k != "eventsEnabled"@ && k != "eventsExpiration"@ && k != "eventsListeners"@ && k != "enabledEventTypes"@
            && k != "adminEventsEnabled"@ && k != "adminEventsDetailsEnabled"@ ==> #[trigger] entries_get(e, k) is None
}

/// Sets a member when a value is present.
fn set_opt(e: Vec<(String, JsonValue)>, key: &str, v: Option<JsonValue>) -> (r: Vec<(String, JsonValue)>)
    ensures
        forall|k: Seq<char>| #[trigger] entries_get(r@, k) == if k == key@ && v is Some {
            v
        } else {
            entries_get(e@, k)
        },
{
    match v {
        Some(x) => json_set(e, key, x),
        None => e,
    }
}

/// The JSON array of a present list of strings.
fn opt_list(l: &Option<Vec<String>>) -> (r: Option<JsonValue>)
    ensures
        l is None ==> r is None,
        l matches Some(v) ==> (r matches Some(JsonValue::Array(items)) && items@ == crate::json::string_array_json(v@)),
{
    match l {
        Some(v) => Some(crate::json::jstr_array(v)),
        None => None,
    }
}

/// The body of a realm events settings update.
pub fn realm_events_config_body(config: &RealmEventsConfig) -> (v: JsonValue)
    ensures
        v matches JsonValue::Object(e) && events_config_members(*config, e@),
{
    let e: Vec<(String, JsonValue)> = Vec::new();
    proof {
        assert forall|k: Seq<char>| #[trigger] entries_get(e@, k) is None by {}
        reveal_strlit("eventsEnabled");
        reveal_strlit("eventsExpiration");
        reveal_strlit("eventsListeners");
        reveal_strlit("enabledEventTypes");
        reveal_strlit("adminEventsEnabled");
        reveal_strlit("adminEventsDetailsEnabled");
    }
    let expiration = match config.events_expiration {
        Some(x) => Some(JsonValue::Number(JsonNumber::Int(x as i128))),
        None => None,
    };
    let e = set_opt(e, "eventsEnabled", some_bool(config.events_enabled));
    let e = set_opt(e, "eventsExpiration", expiration);
    let e = set_opt(e, "eventsListeners", opt_list(&config.events_listeners));
    let e = set_opt(e, "enabledEventTypes", opt_list(&config.enabled_event_types));
    let e = set_opt(e, "adminEventsEnabled", some_bool(config.admin_events_enabled));
    let e = set_opt(e, "adminEventsDetailsEnabled", some_bool(config.admin_events_details_enabled));
    proof {
        assert("adminEventsEnabled"@.len() != "adminEventsDetailsEnabled"@.len());
        assert("eventsListeners"@.len() != "enabledEventTypes"@.len());
        assert("eventsEnabled"@.len() == 13 && "eventsExpiration"@.len() == 16 && "eventsListeners"@.len() == 15);
        assert("enabledEventTypes"@.len() == 17 && "adminEventsEnabled"@.len() == 18);
        assert("adminEventsDetailsEnabled"@.len() == 25);
    }
    JsonValue::Object(e)
}

/// Refuses an initial access token delete with a blank id.
pub fn require_initial_access_id(id: &str, request_id: &str) -> (r: Result<(), ToolError>)
    ensures
        r is Ok <==> trimmed(id@).len() > 0,
        r matches Err(e) ==> e.code@ == "client_initial_access.invalid_id"@ && e.message@ == "id is required."@
            && e.request_id@ == request_id@ && bare(e),
{
    let t = trim(id);
    if t.as_str().is_empty() {
        return Err(tool_error("client_initial_access.invalid_id", "id is required.", request_id));
    }
    Ok(())
}

/// The body that creates a client initial access token: `count` and `expiration`, null when
/// absent.
pub fn initial_access_body(args: &ClientInitialAccessCreateArgs) -> (v: JsonValue)
    ensures
        v matches JsonValue::Object(e) && entry_views(e@) == seq![
            ("count"@, match args.count { Some(c) => JsonValue::Number(JsonNumber::Int(c as i128)), None => JsonValue::Null }),
            ("expiration"@, match args.expiration { Some(c) => JsonValue::Number(JsonNumber::Int(c as i128)), None => JsonValue::Null }),
        ],
{
    let e: Vec<(String, JsonValue)> = Vec::new();
    assert(entry_views(e@) =~= Seq::<(Seq<char>, JsonValue)>::empty());
    let count = match args.count {
        Some(c) => JsonValue::Number(JsonNumber::Int(c as i128)),
        None => JsonValue::Null,
    };
    let expiration = match args.expiration {
        Some(c) => JsonValue::Number(JsonNumber::Int(c as i128)),
        None => JsonValue::Null,
    };
    let e = with_entry(e, "count", count);
    let e = with_entry(e, "expiration", expiration);
    JsonValue::Object(e)
}

/// The strings of a JSON array of strings are those strings.
proof fn lemma_string_items_of_strings(v: Seq<String>)
    ensures
        string_items(crate::json::string_array_json(v)) == crate::text::string_views(v),
    decreases v.len(),
{
    let items = crate::json::string_array_json(v);
    if v.len() > 0 {
        lemma_string_items_of_strings(v.drop_last());
        assert(items.drop_last() =~= crate::json::string_array_json(v.drop_last()));
        assert(crate::text::string_views(v) =~= crate::text::string_views(v.drop_last()).push(v.last()@));
    } else {
        assert(crate::text::string_views(v) =~= Seq::<Seq<char>>::empty());
    }
}

/// What an update writes is what a read reports: the summary of an updated registration
/// policy component lists the allowed scopes that were written and, when a flag was written,
/// that flag; its id, name and provider are those of the component before the update.
pub proof fn law_policy_update_then_summary(
    component: JsonValue,
    updated: JsonValue,
    allowed_scopes: Seq<String>,
    allow_default_scopes: Option<bool>,
)
    requires
        policy_update_of(component, updated, allowed_scopes, allow_default_scopes),
    ensures
        config_values(config_member(component_config(updated), allowed_scopes_keys()))
            == crate::text::string_views(allowed_scopes),
        allow_default_scopes is Some ==> config_flag(config_member(component_config(updated), allow_default_keys()))
            == allow_default_scopes,
        field_text(updated, "id"@) == field_text(component, "id"@),
        field_text(updated, "name"@) == field_text(component, "name"@),
        field_text(updated, "providerId"@) == field_text(component, "providerId"@),
{
    reveal_strlit("config");
    reveal_strlit("id");
    reveal_strlit("name");
    reveal_strlit("providerId");
    reveal_strlit("allowedClientScopes");
    reveal_strlit("allowed-client-scopes");
    reveal_strlit("allowDefaultScopes");
    reveal_strlit("allow-default-scopes");
    reveal_strlit("true");
    reveal_strlit("false");
    let e = updated->Object_0;
    let cfg = entries_get(e@, "config"@)->Some_0->Object_0@;
    let cfg0 = component_config(component);
    assert(component_config(updated) == cfg);
    assert("id"@.len() == 2 && "name"@.len() == 4 && "providerId"@.len() == 10 && "config"@.len() == 6);
    assert(entries_get(e@, "id"@) == field(component, "id"@));
    assert(entries_get(e@, "name"@) == field(component, "name"@));
    assert(entries_get(e@, "providerId"@) == field(component, "providerId"@));
    let t1 = config_target(cfg0, allowed_scopes_keys());
    let t2 = config_target(cfg0, allow_default_keys());
    let a = allowed_scopes_keys();
    let d = allow_default_keys();
    assert(a.0.len() == 19 && a.1.len() == 21 && d.0.len() == 18 && d.1.len() == 20);
    lemma_string_items_of_strings(allowed_scopes);
    let flag = allow_default_scopes is Some;
    assert(entries_get(cfg, a.0) == entries_get(cfg0, a.0) || a.0 == t1);
    assert(config_member(cfg, a) == entries_get(cfg, t1));
    if flag {
        assert(entries_get(cfg, d.0) == entries_get(cfg0, d.0) || d.0 == t2);
        assert(config_member(cfg, d) == entries_get(cfg, t2));
        let items = entries_get(cfg, t2)->Some_0->Array_0@;
        assert("true"@.len() == 4 && "false"@.len() == 5);
        assert(items[0] matches JsonValue::String(_));
    }
}

/// What a creation writes is what a read reports: the summary of a created registration
/// policy component lists the requested allowed scopes and flag, under the requested (or
/// default) name and provider, with the realm as parent.
pub proof fn law_policy_create_then_summary(
    args: ClientRegistrationPolicyCreateArgs,
    parent_id: Seq<char>,
    body: JsonValue,
)
    requires
        policy_create_body_of(args, parent_id, body),
    ensures
        config_values(config_member(component_config(body), allowed_scopes_keys()))
            == crate::text::string_views(args.allowed_scopes@),
        config_flag(config_member(component_config(body), allow_default_keys())) == args.allow_default_scopes,
        field_text(body, "providerId"@) == Some(
            match args.provider_id {
                Some(p) => p@,
                None => "allowed-client-templates"@,
            },
        ),
        field_text(body, "name"@) == Some(
            match args.name {
                Some(n) => n@,
                None => match args.provider_id {
                    Some(p) => p@,
                    None => "allowed-client-templates"@,
                },
            },
        ),
        field_text(body, "parentId"@) == Some(parent_id),
{
    reveal_strlit("name");
    reveal_strlit("providerId");
    reveal_strlit("providerType");
    reveal_strlit("parentId");
    reveal_strlit("config");
    reveal_strlit("allowedClientScopes");
    reveal_strlit("allowed-client-scopes");
    reveal_strlit("allowDefaultScopes");
    reveal_strlit("allow-default-scopes");
    reveal_strlit("true");
    reveal_strlit("false");
    let e = body->Object_0@;
    assert(e.len() == 5);
    assert(e[0].0@ == "name"@ && e[1].0@ == "providerId"@ && e[2].0@ == "providerType"@);
    assert(e[3].0@ == "parentId"@ && e[4].0@ == "config"@);
    assert(e[0].0@.len() == 4 && e[1].0@.len() == 10 && e[2].0@.len() == 12 && e[3].0@.len() == 8
        && e[4].0@.len() == 6);
    lemma_entries_get_at(e, 0);
    lemma_entries_get_at(e, 1);
    lemma_entries_get_at(e, 3);
    lemma_entries_get_at(e, 4);
    let cfg = e[4].1->Object_0@;
    assert(component_config(body) == cfg);
    let a = allowed_scopes_keys();
    let d = allow_default_keys();
    assert(a.0.len() == 19 && a.1.len() == 21 && d.0.len() == 18 && d.1.len() == 20);
    assert(entries_get(cfg, a.1) is None);
    assert(entries_get(cfg, d.1) is None);
    lemma_string_items_of_strings(args.allowed_scopes@);
    if args.allowed_scopes@.len() == 0 {
        assert(crate::text::string_views(args.allowed_scopes@) =~= Seq::<Seq<char>>::empty());
    }
    if args.allow_default_scopes is Some {
        let items = entries_get(cfg, d.0)->Some_0->Array_0@;
        assert("true"@.len() == 4 && "false"@.len() == 5);
        assert(items[0] matches JsonValue::String(_));
    }
}

} // verus!
