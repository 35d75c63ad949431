//! Managing clients: the request bodies of create and update calls, bulk updates and
//! pruning, with the checks each makes before and between gateway calls.
use vstd::prelude::*;
use crate::auth::{Config, has_text, contains_text, lemma_has_text_push};
use crate::clients::{
    ClientRepresentation, ClientsBulkUpdateItem, ClientsCreateArgs, ClientsPruneAction,
    ClientsPruneArgs, ClientsUpdateArgs,
};
use crate::errors::{
    bare, GatewayFailure, McpError, Refusal, ToolError, tool_error, INVALID_PARAMS,
};
use crate::json::{
    JsonValue, entry_views, field_text, string_text, get_field_str, opt_entry, opt_text_json, some_bool,
    some_bool_json, some_text, some_text_json, with_entry, with_opt_entry,
};
use crate::outside::{
    CompiledRegex, regex_compiles, regex_is_match, regex_matches, regex_new, to_unicode_lowercase,
    unicode_lowercase,
};
use crate::text::{copy_strings, seq_contains, seq_starts_with, str_contains, str_eq, str_starts_with, u32_to_decimal, decimal};
use crate::validation::{
    has_path_traversal, realm_error_message, traversal_message, valid_realm_name,
    validate_no_path_traversal, validate_realm_name,
};

verus! {

/// The members of a client update, in order: `name`, `description`, `enabled`,
/// `publicClient`, `serviceAccountsEnabled`, `standardFlowEnabled`,
/// `directAccessGrantsEnabled`, `consentRequired`, `bearerOnly`, each present only when given.
pub open spec fn update_members(
    name: Option<String>,
    description: Option<String>,
    enabled: Option<bool>,
    public_client: Option<bool>,
    service_accounts_enabled: Option<bool>,
    standard_flow_enabled: Option<bool>,
    direct_access_grants_enabled: Option<bool>,
    consent_required: Option<bool>,
    bearer_only: Option<bool>,
) -> Seq<(Seq<char>, JsonValue)> {
    opt_entry("name"@, some_text_json(name)) + opt_entry("description"@, some_text_json(description))
        + opt_entry("enabled"@, some_bool_json(enabled)) + opt_entry(
        "publicClient"@,
        some_bool_json(public_client),
    ) + opt_entry("serviceAccountsEnabled"@, some_bool_json(service_accounts_enabled)) + opt_entry(
        "standardFlowEnabled"@,
        some_bool_json(standard_flow_enabled),
    ) + opt_entry("directAccessGrantsEnabled"@, some_bool_json(direct_access_grants_enabled))
        + opt_entry("consentRequired"@, some_bool_json(consent_required)) + opt_entry(
        "bearerOnly"@,
        some_bool_json(bearer_only),
    )
}

/// The members of an update, from its nine optional fields.
fn update_entries(
    name: &Option<String>,
    description: &Option<String>,
    enabled: Option<bool>,
    public_client: Option<bool>,
    service_accounts_enabled: Option<bool>,
    standard_flow_enabled: Option<bool>,
    direct_access_grants_enabled: Option<bool>,
    consent_required: Option<bool>,
    bearer_only: Option<bool>,
) -> (r: Vec<(String, JsonValue)>)
    ensures
        entry_views(r@) == update_members(
            *name,
            *description,
            enabled,
            public_client,
            service_accounts_enabled,
            standard_flow_enabled,
            direct_access_grants_enabled,
            consent_required,
            bearer_only,
        ),
{
    let e: Vec<(String, JsonValue)> = Vec::new();
    assert(entry_views(e@) =~= Seq::<(Seq<char>, JsonValue)>::empty());
    let e = with_opt_entry(e, "name", some_text(name));
    let e = with_opt_entry(e, "description", some_text(description));
    let e = with_opt_entry(e, "enabled", some_bool(enabled));
    let e = with_opt_entry(e, "publicClient", some_bool(public_client));
    let e = with_opt_entry(e, "serviceAccountsEnabled", some_bool(service_accounts_enabled));
    let e = with_opt_entry(e, "standardFlowEnabled", some_bool(standard_flow_enabled));
    let e = with_opt_entry(e, "directAccessGrantsEnabled", some_bool(direct_access_grants_enabled));
    let e = with_opt_entry(e, "consentRequired", some_bool(consent_required));
    let e = with_opt_entry(e, "bearerOnly", some_bool(bearer_only));
    assert(entry_views(e@) =~= update_members(
        *name,
        *description,
        enabled,
        public_client,
        service_accounts_enabled,
        standard_flow_enabled,
        direct_access_grants_enabled,
        consent_required,
        bearer_only,
    ));
    e
}

/// The members a `clients.update` request sets.
pub open spec fn args_update_members(a: ClientsUpdateArgs) -> Seq<(Seq<char>, JsonValue)> {
    update_members(
        a.name,
        a.description,
        a.enabled,
        a.public_client,
        a.service_accounts_enabled,
        a.standard_flow_enabled,
        a.direct_access_grants_enabled,
        a.consent_required,
        a.bearer_only,
    )
}

/// `m` sets the member `key` to `v` when `v` is given (and to nothing else), and has no member
/// `key` when it is not.
pub open spec fn sets_member(m: Seq<(Seq<char>, JsonValue)>, key: Seq<char>, v: Option<JsonValue>) -> bool {
    match v {
        Some(x) => m.contains((key, x)) && forall|p: (Seq<char>, JsonValue)| #[trigger] m.contains(p) && p.0 == key ==> p.1 == x,
        None => forall|p: (Seq<char>, JsonValue)| #[trigger] m.contains(p) ==> p.0 != key,
    }
}

/// A JSON boolean for a given flag.
pub open spec fn given_bool(b: Option<bool>) -> Option<JsonValue> {
    match b {
        Some(x) => Some(JsonValue::Bool(x)),
        None => None,
    }
}

/// A JSON string for a given text.
pub open spec fn given_text(s: Option<String>) -> Option<JsonValue> {
    match s {
        Some(x) => Some(JsonValue::String(x)),
        None => None,
    }
}

/// The Keycloak keys an update may set.
pub open spec fn is_update_key(k: Seq<char>) -> bool {
    ||| k == "name"@
    ||| k == "description"@
    ||| k == "enabled"@
    ||| k == "publicClient"@
    ||| k == "serviceAccountsEnabled"@
    ||| k == "standardFlowEnabled"@
    ||| k == "directAccessGrantsEnabled"@
    ||| k == "consentRequired"@
    ||| k == "bearerOnly"@
}

/// `m` sets each given field under its Keycloak key, lacks each field that is not given, and
/// has no other member.
pub open spec fn sets_given_fields(
    m: Seq<(Seq<char>, JsonValue)>,
    name: Option<String>,
    description: Option<String>,
    enabled: Option<bool>,
    public_client: Option<bool>,
    service_accounts_enabled: Option<bool>,
    standard_flow_enabled: Option<bool>,
    direct_access_grants_enabled: Option<bool>,
    consent_required: Option<bool>,
    bearer_only: Option<bool>,
) -> bool {
    &&& sets_member(m, "name"@, given_text(name))
    &&& sets_member(m, "description"@, given_text(description))
    &&& sets_member(m, "enabled"@, given_bool(enabled))
    &&& sets_member(m, "publicClient"@, given_bool(public_client))
    &&& sets_member(m, "serviceAccountsEnabled"@, given_bool(service_accounts_enabled))
    &&& sets_member(m, "standardFlowEnabled"@, given_bool(standard_flow_enabled))
    &&& sets_member(m, "directAccessGrantsEnabled"@, given_bool(direct_access_grants_enabled))
    &&& sets_member(m, "consentRequired"@, given_bool(consent_required))
    &&& sets_member(m, "bearerOnly"@, given_bool(bearer_only))
    &&& forall|p: (Seq<char>, JsonValue)| #[trigger] m.contains(p) ==> is_update_key(p.0)
    &&& (m.len() == 0 <==> (name is None && description is None && enabled is None && public_client is None
        && service_accounts_enabled is None && standard_flow_enabled is None && direct_access_grants_enabled is None
        && consent_required is None && bearer_only is None))
}

proof fn lemma_concat_contains(a: Seq<(Seq<char>, JsonValue)>, b: Seq<(Seq<char>, JsonValue)>)
    ensures
        forall|p: (Seq<char>, JsonValue)| #[trigger] (a + b).contains(p) <==> (a.contains(p) || b.contains(p)),
{
    assert forall|p: (Seq<char>, JsonValue)| #[trigger] (a + b).contains(p) <==> (a.contains(p) || b.contains(p)) by {
        if (a + b).contains(p) {
            let i = choose|i: int| 0 <= i < (a + b).len() && (a + b)[i] == p;
            if i < a.len() {
                assert(a[i] == p);
            } else {
                assert(b[i - a.len()] == p);
            }
        }
        if a.contains(p) {
            let i = choose|i: int| 0 <= i < a.len() && a[i] == p;
            assert((a + b)[i] == p);
        }
        if b.contains(p) {
            let i = choose|i: int| 0 <= i < b.len() && b[i] == p;
            assert((a + b)[a.len() + i] == p);
        }
    }
}

proof fn lemma_opt_entry_contains(key: Seq<char>, v: Option<JsonValue>)
    ensures
        forall|p: (Seq<char>, JsonValue)| #[trigger] opt_entry(key, v).contains(p) <==> (v matches Some(x) && p == (key, x)),
{
    assert forall|p: (Seq<char>, JsonValue)| #[trigger] opt_entry(key, v).contains(p) <==> (v matches Some(x) && p == (key, x)) by {
        if let Some(x) = v {
            if p == (key, x) {
                assert(opt_entry(key, v)[0] == p);
            }
        }
    }
}

/// The members of an update, as membership in each field's own entry.
proof fn lemma_update_members_contains(
    name: Option<String>,
    description: Option<String>,
    enabled: Option<bool>,
    public_client: Option<bool>,
    service_accounts_enabled: Option<bool>,
    standard_flow_enabled: Option<bool>,
    direct_access_grants_enabled: Option<bool>,
    consent_required: Option<bool>,
    bearer_only: Option<bool>,
)
    ensures
        forall|p: (Seq<char>, JsonValue)| #[trigger] update_members(
            name,
            description,
            enabled,
            public_client,
            service_accounts_enabled,
            standard_flow_enabled,
            direct_access_grants_enabled,
            consent_required,
            bearer_only,
        ).contains(p) <==> {
            ||| (given_text(name) matches Some(x) && p == ("name"@, x))
            ||| (given_text(description) matches Some(x) && p == ("description"@, x))
            ||| (given_bool(enabled) matches Some(x) && p == ("enabled"@, x))
            ||| (given_bool(public_client) matches Some(x) && p == ("publicClient"@, x))
            ||| (given_bool(service_accounts_enabled) matches Some(x) && p == ("serviceAccountsEnabled"@, x))
            ||| (given_bool(standard_flow_enabled) matches Some(x) && p == ("standardFlowEnabled"@, x))
            ||| (given_bool(direct_access_grants_enabled) matches Some(x) && p == ("directAccessGrantsEnabled"@, x))
            ||| (given_bool(consent_required) matches Some(x) && p == ("consentRequired"@, x))
            ||| (given_bool(bearer_only) matches Some(x) && p == ("bearerOnly"@, x))
        },
        update_members(
            name,
            description,
            enabled,
            public_client,
            service_accounts_enabled,
            standard_flow_enabled,
            direct_access_grants_enabled,
            consent_required,
            bearer_only,
        ).len() == opt_entry("name"@, some_text_json(name)).len() + opt_entry("description"@, some_text_json(description)).len()
            + opt_entry("enabled"@, some_bool_json(enabled)).len() + opt_entry("publicClient"@, some_bool_json(public_client)).len()
            + opt_entry("serviceAccountsEnabled"@, some_bool_json(service_accounts_enabled)).len()
            + opt_entry("standardFlowEnabled"@, some_bool_json(standard_flow_enabled)).len()
            + opt_entry("directAccessGrantsEnabled"@, some_bool_json(direct_access_grants_enabled)).len()
            + opt_entry("consentRequired"@, some_bool_json(consent_required)).len()
            + opt_entry("bearerOnly"@, some_bool_json(bearer_only)).len(),
{
    let e1 = opt_entry("name"@, some_text_json(name));
    let e2 = opt_entry("description"@, some_text_json(description));
    let e3 = opt_entry("enabled"@, some_bool_json(enabled));
    let e4 = opt_entry("publicClient"@, some_bool_json(public_client));
    let e5 = opt_entry("serviceAccountsEnabled"@, some_bool_json(service_accounts_enabled));
    let e6 = opt_entry("standardFlowEnabled"@, some_bool_json(standard_flow_enabled));
    let e7 = opt_entry("directAccessGrantsEnabled"@, some_bool_json(direct_access_grants_enabled));
    let e8 = opt_entry("consentRequired"@, some_bool_json(consent_required));
    let e9 = opt_entry("bearerOnly"@, some_bool_json(bearer_only));
    lemma_opt_entry_contains("name"@, some_text_json(name));
    lemma_opt_entry_contains("description"@, some_text_json(description));
    lemma_opt_entry_contains("enabled"@, some_bool_json(enabled));
    lemma_opt_entry_contains("publicClient"@, some_bool_json(public_client));
    lemma_opt_entry_contains("serviceAccountsEnabled"@, some_bool_json(service_accounts_enabled));
    lemma_opt_entry_contains("standardFlowEnabled"@, some_bool_json(standard_flow_enabled));
    lemma_opt_entry_contains("directAccessGrantsEnabled"@, some_bool_json(direct_access_grants_enabled));
    lemma_opt_entry_contains("consentRequired"@, some_bool_json(consent_required));
    lemma_opt_entry_contains("bearerOnly"@, some_bool_json(bearer_only));
    lemma_concat_contains(e1, e2);
    lemma_concat_contains(e1 + e2, e3);
    lemma_concat_contains(e1 + e2 + e3, e4);
    lemma_concat_contains(e1 + e2 + e3 + e4, e5);
    lemma_concat_contains(e1 + e2 + e3 + e4 + e5, e6);
    lemma_concat_contains(e1 + e2 + e3 + e4 + e5 + e6, e7);
    lemma_concat_contains(e1 + e2 + e3 + e4 + e5 + e6 + e7, e8);
    lemma_concat_contains(e1 + e2 + e3 + e4 + e5 + e6 + e7 + e8, e9);
}

/// An update body sets exactly the given fields: each given field under its Keycloak key
/// (`name`, `description`, `enabled`, `publicClient`, `serviceAccountsEnabled`,
/// `standardFlowEnabled`, `directAccessGrantsEnabled`, `consentRequired`, `bearerOnly`), no
/// member for a field that is not given, nothing else; it is empty exactly when no field is
/// given.
pub proof fn law_update_body_sets_given_fields(
    name: Option<String>,
    description: Option<String>,
    enabled: Option<bool>,
    public_client: Option<bool>,
    service_accounts_enabled: Option<bool>,
    standard_flow_enabled: Option<bool>,
    direct_access_grants_enabled: Option<bool>,
    consent_required: Option<bool>,
    bearer_only: Option<bool>,
)
    ensures
        sets_given_fields(
            update_members(
                name,
                description,
                enabled,
                public_client,
                service_accounts_enabled,
                standard_flow_enabled,
                direct_access_grants_enabled,
                consent_required,
                bearer_only,
            ),
            name,
            description,
            enabled,
            public_client,
            service_accounts_enabled,
            standard_flow_enabled,
            direct_access_grants_enabled,
            consent_required,
            bearer_only,
        ),
{
    reveal_strlit("name");
    reveal_strlit("description");
    reveal_strlit("enabled");
    reveal_strlit("publicClient");
    reveal_strlit("serviceAccountsEnabled");
    reveal_strlit("standardFlowEnabled");
    reveal_strlit("directAccessGrantsEnabled");
    reveal_strlit("consentRequired");
    reveal_strlit("bearerOnly");
    lemma_update_members_contains(
        name,
        description,
        enabled,
        public_client,
        service_accounts_enabled,
        standard_flow_enabled,
        direct_access_grants_enabled,
        consent_required,
        bearer_only,
    );
    assert("name"@.len() == 4 && "description"@.len() == 11 && "enabled"@.len() == 7 && "publicClient"@.len()
        == 12 && "serviceAccountsEnabled"@.len() == 22 && "standardFlowEnabled"@.len() == 19
        && "directAccessGrantsEnabled"@.len() == 25 && "consentRequired"@.len() == 15 && "bearerOnly"@.len() == 10);
}

/// A `clients.update` body sets exactly the fields the request gives (see
/// `law_update_body_sets_given_fields`); it is refused as having no updates exactly when none
/// is given.
pub proof fn law_client_update_sets_given_fields(a: ClientsUpdateArgs)
    ensures
        sets_given_fields(
            args_update_members(a),
            a.name,
            a.description,
            a.enabled,
            a.public_client,
            a.service_accounts_enabled,
            a.standard_flow_enabled,
            a.direct_access_grants_enabled,
            a.consent_required,
            a.bearer_only,
        ),
{
    law_update_body_sets_given_fields(
        a.name,
        a.description,
        a.enabled,
        a.public_client,
        a.service_accounts_enabled,
        a.standard_flow_enabled,
        a.direct_access_grants_enabled,
        a.consent_required,
        a.bearer_only,
    );
}

/// The body of a `clients.update` call: the given fields only. A name or description that
/// could navigate paths is refused (the name is checked first); an update that sets nothing is
/// refused with `clients.no_updates`.
pub fn client_update_body(args: &ClientsUpdateArgs, request_id: &str) -> (r: Result<JsonValue, Refusal>)
    ensures
        args.name matches Some(n) && has_path_traversal(n@) ==> (r matches Err(Refusal::Protocol(e))
            && e.code == INVALID_PARAMS && e.message@ == traversal_message("name"@) && e.data is None),
        !(args.name matches Some(n) && has_path_traversal(n@)) && (args.description matches Some(d)
            && has_path_traversal(d@)) ==> (r matches Err(Refusal::Protocol(e)) && e.code == INVALID_PARAMS
            && e.message@ == traversal_message("description"@) && e.data is None),
        !(args.name matches Some(n) && has_path_traversal(n@)) && !(args.description matches Some(d)
            && has_path_traversal(d@)) && args_update_members(*args).len() == 0 ==> (r matches Err(
            Refusal::Tool(t),
        ) && t.code@ == "clients.no_updates"@ && t.message@ == "No update fields provided."@
            && t.request_id@ == request_id@ && bare(t)),
        r matches Ok(JsonValue::Object(e)) ==> entry_views(e@) == args_update_members(*args) && e@.len() > 0,
        r is Ok ==> r matches Ok(JsonValue::Object(_)),
        r is Ok <==> !(args.name matches Some(n) && has_path_traversal(n@)) && !(args.description matches Some(
            d,
        ) && has_path_traversal(d@)) && args_update_members(*args).len() > 0,
{
    match &args.name {
        Some(n) => {
            if let Err(e) = validate_no_path_traversal(n.as_str(), "name") {
                return Err(Refusal::Protocol(e));
            }
        },
        None => {},
    }
    match &args.description {
        Some(d) => {
            if let Err(e) = validate_no_path_traversal(d.as_str(), "description") {
                return Err(Refusal::Protocol(e));
            }
        },
        None => {},
    }
    let e = update_entries(
        &args.name,
        &args.description,
        args.enabled,
        args.public_client,
        args.service_accounts_enabled,
        args.standard_flow_enabled,
        args.direct_access_grants_enabled,
        args.consent_required,
        args.bearer_only,
    );
    if e.len() == 0 {
        return Err(
            Refusal::Tool(tool_error("clients.no_updates", "No update fields provided.", request_id)),
        );
    }
    Ok(JsonValue::Object(e))
}

/// The body that enables or disables a client.
pub fn toggle_body(enabled: bool) -> (v: JsonValue)
    ensures
        v matches JsonValue::Object(e) && entry_views(e@) == seq![("enabled"@, JsonValue::Bool(enabled))],
{
    let e0: Vec<(String, JsonValue)> = Vec::new();
    assert(entry_views(e0@) =~= Seq::<(Seq<char>, JsonValue)>::empty());
    let e = with_entry(e0, "enabled", JsonValue::Bool(enabled));
    assert(entry_views(e@) =~= seq![("enabled"@, JsonValue::Bool(enabled))]);
    JsonValue::Object(e)
}

/// The first check a create request fails, as the message of its error: the realm, then the
/// `clientId`, then the name.
pub open spec fn create_input_error(a: ClientsCreateArgs) -> Option<Seq<char>> {
    if !valid_realm_name(a.realm@) {
        Some(realm_error_message(a.realm@))
    } else if has_path_traversal(a.client_id@) {
        Some(traversal_message("client_id"@))
    } else if a.name is Some && has_path_traversal(a.name->0@) {
        Some(traversal_message("name"@))
    } else {
        None
    }
}

/// Validates a create request.
pub fn validate_client_create(args: &ClientsCreateArgs) -> (r: Result<(), McpError>)
    ensures
        r is Ok <==> create_input_error(*args) is None,
        r matches Err(e) ==> e.code == INVALID_PARAMS && e.data is None && create_input_error(*args) == Some(
            e.message@,
        ),
{
    validate_realm_name(args.realm.as_str())?;
    validate_no_path_traversal(args.client_id.as_str(), "client_id")?;
    match &args.name {
        Some(n) => validate_no_path_traversal(n.as_str(), "name"),
        None => Ok(()),
    }
}

/// The text of an optional string, or a default.
fn text_or(o: &Option<String>, default: &str) -> (r: String)
    ensures
        r@ == match *o {
            Some(s) => s@,
            None => default@,
        },
{
    match o {
        Some(s) => s.clone(),
        None => default.to_owned(),
    }
}

/// The body of a create call: `clientId`, `name` (null when absent), `protocol` (by default
/// `openid-connect`), `publicClient` (by default false), `serviceAccountsEnabled` (by default
/// false) and `enabled` (by default true).
pub fn client_create_body(args: &ClientsCreateArgs) -> (v: JsonValue)
    ensures
        v matches JsonValue::Object(e) && entry_views(e@).len() == 6
            && entry_views(e@)[0] == ("clientId"@, JsonValue::String(args.client_id))
            && entry_views(e@)[1] == ("name"@, opt_text_json(args.name))
            && entry_views(e@)[2].0 == "protocol"@ && string_text(entry_views(e@)[2].1) == Some(
            match args.protocol {
                Some(x) => x@,
                None => "openid-connect"@,
            },
        ) && entry_views(e@)[3] == ("publicClient"@, JsonValue::Bool(args.public_client.unwrap_or(false)))
            && entry_views(e@)[4] == (
            "serviceAccountsEnabled"@,
            JsonValue::Bool(args.service_accounts_enabled.unwrap_or(false)),
        ) && entry_views(e@)[5] == ("enabled"@, JsonValue::Bool(args.enabled.unwrap_or(true))),
{
    let e: Vec<(String, JsonValue)> = Vec::new();
    assert(entry_views(e@) =~= Seq::<(Seq<char>, JsonValue)>::empty());
    let e = with_entry(e, "clientId", JsonValue::String(args.client_id.clone()));
    let e = with_entry(e, "name", crate::json::jopt_str(&args.name));
    let e = with_entry(e, "protocol", JsonValue::String(text_or(&args.protocol, "openid-connect")));
    let e = with_entry(e, "publicClient", JsonValue::Bool(args.public_client.unwrap_or(false)));
    let e = with_entry(
        e,
        "serviceAccountsEnabled",
        JsonValue::Bool(args.service_accounts_enabled.unwrap_or(false)),
    );
    let e = with_entry(e, "enabled", JsonValue::Bool(args.enabled.unwrap_or(true)));
    JsonValue::Object(e)
}

/// The id of a created client, read from the gateway's answer.
pub fn created_client_id(payload: &JsonValue) -> (r: Option<String>)
    ensures
        r matches Some(s) ==> field_text(*payload, "id"@) == Some(s@),
        r is None ==> field_text(*payload, "id"@) is None,
{
    match get_field_str(payload, "id") {
        Some(s) => Some(s.clone()),
        None => None,
    }
}

/// Refuses an unconfirmed destructive or sensitive call with `clients.confirm_required`.
pub fn require_confirmation(confirm: bool, message: &str, request_id: &str) -> (r: Result<(), ToolError>)
    ensures
        r is Ok <==> confirm,
        r matches Err(e) ==> e.code@ == "clients.confirm_required"@ && e.message@ == message@
            && e.request_id@ == request_id@ && bare(e),
{
    if !confirm {
        return Err(tool_error("clients.confirm_required", message, request_id));
    }
    Ok(())
}

/// The scopes the secret-bearing client tools require (reading or rotating a secret, creating
/// an introspection client): the clients write scopes, then the secrets scopes.
pub fn secret_tool_required_scopes(config: &Config) -> (r: Vec<String>)
    ensures
        r@ == config.scope_map.clients.write@ + config.scope_map.clients.secrets@,
{
    let mut r = copy_strings(&config.scope_map.clients.write);
    let extra = copy_strings(&config.scope_map.clients.secrets);
    let ghost start = r@;
    let n = extra.len();
    for i in 0..n
        invariant
            n == extra@.len(),
            extra@ == config.scope_map.clients.secrets@,
            r@ == start + extra@.take(i as int),
    {
        r.push(extra[i].clone());
        assert(r@ =~= start + extra@.take(i + 1));
    }
    assert(extra@.take(n as int) =~= extra@);
    r
}

/// The body of a hardened introspection-only client: `clientId`, `name` (null when absent),
/// the `openid-connect` protocol, no public access, no service account, no standard flow, no
/// direct access grants, enabled.
pub fn introspection_client_body(client_id: &str, name: &Option<String>) -> (v: JsonValue)
    ensures
        v matches JsonValue::Object(e) && entry_views(e@).len() == 8
            && string_text(entry_views(e@)[0].1) == Some(client_id@)
            && entry_views(e@)[0].0 == "clientId"@
            && entry_views(e@)[1] == ("name"@, opt_text_json(*name))
            && entry_views(e@)[2].0 == "protocol"@ && string_text(entry_views(e@)[2].1) == Some("openid-connect"@)
            && entry_views(e@)[3] == ("publicClient"@, JsonValue::Bool(false))
            && entry_views(e@)[4] == ("serviceAccountsEnabled"@, JsonValue::Bool(false))
            && entry_views(e@)[5] == ("standardFlowEnabled"@, JsonValue::Bool(false))
            && entry_views(e@)[6] == ("directAccessGrantsEnabled"@, JsonValue::Bool(false))
            && entry_views(e@)[7] == ("enabled"@, JsonValue::Bool(true)),
{
    let e: Vec<(String, JsonValue)> = Vec::new();
    assert(entry_views(e@) =~= Seq::<(Seq<char>, JsonValue)>::empty());
    let e = with_entry(e, "clientId", JsonValue::String(client_id.to_owned()));
    let e = with_entry(e, "name", crate::json::jopt_str(name));
    let e = with_entry(e, "protocol", JsonValue::String(String::from_str("openid-connect")));
    let e = with_entry(e, "publicClient", JsonValue::Bool(false));
    let e = with_entry(e, "serviceAccountsEnabled", JsonValue::Bool(false));
    let e = with_entry(e, "standardFlowEnabled", JsonValue::Bool(false));
    let e = with_entry(e, "directAccessGrantsEnabled", JsonValue::Bool(false));
    let e = with_entry(e, "enabled", JsonValue::Bool(true));
    JsonValue::Object(e)
}

/// Refuses a bulk update whose realm is not a valid realm name (before anything else), or
/// that is unconfirmed, empty, or longer than 50 entries (checked in that order).
pub fn bulk_update_gate(realm: &str, confirm: bool, count: usize, request_id: &str) -> (r: Result<(), Refusal>)
    ensures
        !valid_realm_name(realm@) ==> (r matches Err(Refusal::Protocol(e)) && e.code == INVALID_PARAMS && e.data
            is None && e.message@ == realm_error_message(realm@)),
        valid_realm_name(realm@) ==> match bulk_entry_refusal(confirm, count) {
            None => r is Ok,
            Some((code, message)) => r matches Err(Refusal::Tool(e)) && e.code@ == code && e.message@ == message
                && e.request_id@ == request_id@ && bare(e),
        },
{
    match validate_realm_name(realm) {
        Err(e) => return Err(Refusal::Protocol(e)),
        Ok(()) => {},
    }
    match bulk_entry_gate(confirm, count, request_id) {
        Err(e) => Err(Refusal::Tool(e)),
        Ok(()) => Ok(()),
    }
}

/// The first check of a bulk update's entries that fails, as the code and message of its
/// error: confirmation, at least one entry, at most 50 entries.
pub open spec fn bulk_entry_refusal(confirm: bool, count: usize) -> Option<(Seq<char>, Seq<char>)> {
    if !confirm {
        Some(("clients.confirm_required"@, "confirm=true is required to bulk update clients."@))
    } else if count == 0 {
        Some(("clients.invalid_input"@, "updates must include at least one entry."@))
    } else if count > 50 {
        Some(("clients.too_many"@, "updates must include at most 50 entries."@))
    } else {
        None
    }
}

fn bulk_entry_gate(confirm: bool, count: usize, request_id: &str) -> (r: Result<(), ToolError>)
    ensures
        r is Ok <==> confirm && 1 <= count <= 50,
        !confirm ==> (r matches Err(e) && e.code@ == "clients.confirm_required"@ && e.message@
            == "confirm=true is required to bulk update clients."@ && e.request_id@ == request_id@ && bare(e)),
        confirm && count == 0 ==> (r matches Err(e) && e.code@ == "clients.invalid_input"@ && e.message@
            == "updates must include at least one entry."@ && e.request_id@ == request_id@ && bare(e)),
        confirm && count > 50 ==> (r matches Err(e) && e.code@ == "clients.too_many"@ && e.message@
            == "updates must include at most 50 entries."@ && e.request_id@ == request_id@ && bare(e)),
{
    require_confirmation(confirm, "confirm=true is required to bulk update clients.", request_id)?;
    if count == 0 {
        return Err(tool_error("clients.invalid_input", "updates must include at least one entry.", request_id));
    }
    if count > 50 {
        return Err(tool_error("clients.too_many", "updates must include at most 50 entries.", request_id));
    }
    Ok(())
}

/// A failed entry of a bulk update: the client (as the entry named it, or its id) and why.
#[derive(Debug, Clone, PartialEq)]
pub struct BulkUpdateError {
    pub client: String,
    pub error: String,
}

/// The result of a bulk update: the clients updated (or, in a dry run, that would be), those
/// skipped because the entry sets nothing, and the failures.
#[derive(Debug, PartialEq)]
pub struct BulkUpdateSummary {
    pub updated: Vec<String>,
    pub skipped: Vec<String>,
    pub errors: Vec<BulkUpdateError>,
    pub dry_run: bool,
}

/// The failures of a bulk update as (client, error) texts.
pub open spec fn error_views(errors: Seq<BulkUpdateError>) -> Seq<(Seq<char>, Seq<char>)> {
    Seq::new(errors.len(), |i: int| (errors[i].client@, errors[i].error@))
}

/// The members a bulk update entry sets.
pub open spec fn item_update_members(u: ClientsBulkUpdateItem) -> Seq<(Seq<char>, JsonValue)> {
    update_members(
        u.name,
        u.description,
        u.enabled,
        u.public_client,
        u.service_accounts_enabled,
        u.standard_flow_enabled,
        u.direct_access_grants_enabled,
        u.consent_required,
        u.bearer_only,
    )
}

/// A bulk update entry's body sets exactly the fields the entry gives (see
/// `law_update_body_sets_given_fields`); the entry is skipped exactly when none is given.
pub proof fn law_bulk_item_sets_given_fields(u: ClientsBulkUpdateItem)
    ensures
        sets_given_fields(
            item_update_members(u),
            u.name,
            u.description,
            u.enabled,
            u.public_client,
            u.service_accounts_enabled,
            u.standard_flow_enabled,
            u.direct_access_grants_enabled,
            u.consent_required,
            u.bearer_only,
        ),
{
    law_update_body_sets_given_fields(
        u.name,
        u.description,
        u.enabled,
        u.public_client,
        u.service_accounts_enabled,
        u.standard_flow_enabled,
        u.direct_access_grants_enabled,
        u.consent_required,
        u.bearer_only,
    );
}

/// How a bulk update entry names its client in the summary: its `clientId`, else its id.
pub open spec fn item_label(u: ClientsBulkUpdateItem) -> Option<Seq<char>> {
    match u.client_id {
        Some(c) => Some(c@),
        None => match u.id {
            Some(i) => Some(i@),
            None => None,
        },
    }
}

/// The error text of a failed update call.
pub open spec fn update_failure_text(err: GatewayFailure) -> Seq<char> {
    match err {
        GatewayFailure::Upstream { status, summary } => match summary {
            Some(s) => s@,
            None => "upstream_status="@ + decimal(status as nat),
        },
        GatewayFailure::Unavailable => "gateway request failed"@,
    }
}

/// How many entries a summary reports: updated, skipped and failed together.
pub open spec fn reported(s: BulkUpdateSummary) -> nat {
    s.updated@.len() + s.skipped@.len() + s.errors@.len()
}

/// `s1` is `s0` after starting the entry `item`, which gave `label`: an entry that names no
/// client is recorded as a failure of the client `unknown`; otherwise nothing changes yet.
pub open spec fn begin_step(
    s0: BulkUpdateSummary,
    item: ClientsBulkUpdateItem,
    label: Option<String>,
    s1: BulkUpdateSummary,
) -> bool {
    &&& label matches Some(l) ==> item_label(item) == Some(l@)
    &&& label is None <==> item_label(item) is None
    &&& label is None ==> error_views(s1.errors@) == error_views(s0.errors@).push(
        ("unknown"@, "id or client_id is required."@),
    )
    &&& label is Some ==> s1.errors == s0.errors
    &&& s1.updated == s0.updated
    &&& s1.skipped == s0.skipped
    &&& s1.dry_run == s0.dry_run
}

/// `s1` is `s0` after the lookup of the entry `item` (reported as `label`) answered
/// `looked_up`, which gave the update call `call`: a failed lookup or an unknown client is a
/// failure, an entry that sets nothing is skipped, in a dry run the client counts as updated,
/// and otherwise the update call is made with the members the entry sets.
pub open spec fn lookup_step(
    s0: BulkUpdateSummary,
    item: ClientsBulkUpdateItem,
    label: String,
    looked_up: Result<Option<String>, String>,
    call: Option<(String, JsonValue)>,
    s1: BulkUpdateSummary,
) -> bool {
    &&& looked_up matches Err(t) ==> call is None && error_views(s1.errors@) == error_views(s0.errors@).push(
        (label@, t@),
    ) && s1.updated == s0.updated && s1.skipped == s0.skipped
    &&& looked_up matches Ok(None) ==> call is None && error_views(s1.errors@) == error_views(s0.errors@).push(
        (label@, "Client not found."@),
    ) && s1.updated == s0.updated && s1.skipped == s0.skipped
    &&& looked_up matches Ok(Some(id)) ==> s1.errors == s0.errors && (if item_update_members(item).len() == 0 {
        call is None && s1.skipped@ == s0.skipped@.push(id) && s1.updated == s0.updated
    } else if s0.dry_run {
        call is None && s1.updated@ == s0.updated@.push(id) && s1.skipped == s0.skipped
    } else {
        (call matches Some((c, JsonValue::Object(e))) && c@ == id@ && entry_views(e@) == item_update_members(item))
            && s1.updated == s0.updated && s1.skipped == s0.skipped
    })
    &&& s1.dry_run == s0.dry_run
}

/// `s1` is `s0` after the update call for `client_id` answered `outcome`: the client counts as
/// updated when the call succeeded, otherwise the failure is recorded.
pub open spec fn update_step(
    s0: BulkUpdateSummary,
    client_id: String,
    outcome: Result<(), GatewayFailure>,
    s1: BulkUpdateSummary,
) -> bool {
    &&& outcome is Ok ==> s1.updated@ == s0.updated@.push(client_id) && s1.errors == s0.errors
    &&& outcome matches Err(f) ==> error_views(s1.errors@) == error_views(s0.errors@).push(
        (client_id@, update_failure_text(f)),
    ) && s1.updated == s0.updated
    &&& s1.skipped == s0.skipped
    &&& s1.dry_run == s0.dry_run
}

/// Every entry of a bulk update is reported exactly once, and one entry's failure never stops
/// the others: whichever way an entry goes through its steps (no client named; a failed or
/// empty lookup; nothing to set; a dry run; an update call that succeeds or fails), the
/// summary ends up reporting exactly one more entry. An update call is only made outside a
/// dry run, and the dry-run flag never changes.
pub proof fn law_bulk_entry_reported_once(
    s0: BulkUpdateSummary,
    s1: BulkUpdateSummary,
    s2: BulkUpdateSummary,
    s3: BulkUpdateSummary,
    item: ClientsBulkUpdateItem,
    label: Option<String>,
    looked_up: Result<Option<String>, String>,
    call: Option<(String, JsonValue)>,
    outcome: Result<(), GatewayFailure>,
)
    requires
        begin_step(s0, item, label, s1),
        label matches Some(l) ==> lookup_step(s1, item, l, looked_up, call, s2),
        label is Some ==> (call matches Some(c) ==> update_step(s2, c.0, outcome, s3)),
    ensures
        label is None ==> reported(s1) == reported(s0) + 1 && s1.dry_run == s0.dry_run,
        label is Some && call is None ==> reported(s2) == reported(s0) + 1 && s2.dry_run == s0.dry_run,
        label is Some && call is Some ==> reported(s3) == reported(s0) + 1 && s3.dry_run == s0.dry_run
            && !s0.dry_run,
{
    assert(error_views(s0.errors@).len() == s0.errors@.len());
    assert(error_views(s1.errors@).len() == s1.errors@.len());
    assert(error_views(s2.errors@).len() == s2.errors@.len());
    assert(error_views(s3.errors@).len() == s3.errors@.len());
}

impl BulkUpdateSummary {
    /// An empty summary.
    pub fn new(dry_run: bool) -> (s: BulkUpdateSummary)
        ensures
            s.updated@.len() == 0 && s.skipped@.len() == 0 && s.errors@.len() == 0 && s.dry_run == dry_run,
    {
        BulkUpdateSummary { updated: Vec::new(), skipped: Vec::new(), errors: Vec::new(), dry_run }
    }

    fn record_error(&mut self, client: String, error: String)
        ensures
            error_views(final(self).errors@) == error_views(old(self).errors@).push((client@, error@)),
            final(self).updated == old(self).updated,
            final(self).skipped == old(self).skipped,
            final(self).dry_run == old(self).dry_run,
    {
        let ghost before = self.errors@;
        self.errors.push(BulkUpdateError { client, error });
        assert(error_views(self.errors@) =~= error_views(before).push((client@, error@)));
    }

    /// Starts an entry: the label it is reported under, or `None` (recorded as a failure of
    /// the client `unknown`) when it names no client.
    pub fn begin_item(&mut self, item: &ClientsBulkUpdateItem) -> (label: Option<String>)
        ensures
            begin_step(*old(self), *item, label, *final(self)),
    {
        match &item.client_id {
            Some(c) => Some(c.clone()),
            None => match &item.id {
                Some(i) => Some(i.clone()),
                None => {
                    self.record_error(
                        String::from_str("unknown"),
                        String::from_str("id or client_id is required."),
                    );
                    None
                },
            },
        }
    }

    /// Continues an entry once its client was looked up (`looked_up` holds the lookup's error
    /// text when it failed). Returns the update call to make, if any: a failed lookup or an
    /// unknown client is a failure, an entry that sets nothing is skipped, and in a dry run
    /// the client counts as updated without a call.
    pub fn after_lookup(
        &mut self,
        item: &ClientsBulkUpdateItem,
        label: String,
        looked_up: Result<Option<String>, String>,
    ) -> (call: Option<(String, JsonValue)>)
        ensures
            lookup_step(*old(self), *item, label, looked_up, call, *final(self)),
    {
        match looked_up {
            Err(text) => {
                self.record_error(label, text);
                None
            },
            Ok(None) => {
                self.record_error(label, String::from_str("Client not found."));
                None
            },
            Ok(Some(id)) => {
                let e = update_entries(
                    &item.name,
                    &item.description,
                    item.enabled,
                    item.public_client,
                    item.service_accounts_enabled,
                    item.standard_flow_enabled,
                    item.direct_access_grants_enabled,
                    item.consent_required,
                    item.bearer_only,
                );
                if e.len() == 0 {
                    self.skipped.push(id);
                    None
                } else if self.dry_run {
                    self.updated.push(id);
                    None
                } else {
                    Some((id, JsonValue::Object(e)))
                }
            },
        }
    }

    /// Finishes an entry after its update call: the client counts as updated when the call
    /// succeeded, otherwise the failure is recorded.
    pub fn after_update(&mut self, client_id: String, outcome: Result<(), GatewayFailure>)
        ensures
            update_step(*old(self), client_id, outcome, *final(self)),
    {
        match outcome {
            Ok(()) => {
                self.updated.push(client_id);
            },
            Err(GatewayFailure::Upstream { status, summary }) => {
                let text = match summary {
                    Some(s) => s,
                    None => {
                        let mut t = String::from_str("upstream_status=");
                        let digits = u32_to_decimal(status as u32);
                        t.append(digits.as_str());
                        t
                    },
                };
                self.record_error(client_id, text);
            },
            Err(GatewayFailure::Unavailable) => {
                self.record_error(client_id, String::from_str("gateway request failed"));
            },
        }
    }
}

/// A present, non-empty text.
pub open spec fn given(o: Option<String>) -> bool {
    match o {
        Some(s) => s@.len() > 0,
        None => false,
    }
}

/// Whether an optional text is present and non-empty.
fn is_given(o: &Option<String>) -> (r: bool)
    ensures
        r == given(*o),
{
    match o {
        Some(s) => !s.as_str().is_empty(),
        None => false,
    }
}

/// The settings of a prune after its checks: how many clients to list, how many matches to
/// process, whether it is a dry run, what to do, and the compiled `client_id_pattern`.
pub struct PruneSettings {
    pub max: u32,
    pub limit: u32,
    pub dry_run: bool,
    pub action: ClientsPruneAction,
    pub pattern: Option<CompiledRegex>,
}

/// The settings were derived from the request: the pattern is the request's, compiled.
pub open spec fn settings_follow(s: PruneSettings, a: ClientsPruneArgs) -> bool {
    &&& s.max == a.max.unwrap_or(200)
    &&& s.limit == a.limit.unwrap_or(50)
    &&& s.dry_run == a.dry_run.unwrap_or(true)
    &&& s.action == a.action.unwrap_or(ClientsPruneAction::Disable)
    &&& (s.pattern is Some <==> a.client_id_pattern is Some)
    &&& (s.pattern matches Some(p) ==> p.source() == a.client_id_pattern->0@)
}

/// The first check of a prune request that fails, as the code and message of its error:
/// confirmation, at least one filter, a valid pattern, `max` in 1..=200 (default 200),
/// `limit` in 1..=200 (default 50).
pub open spec fn prune_refusal(a: ClientsPruneArgs) -> Option<(Seq<char>, Seq<char>)> {
    let max = a.max.unwrap_or(200);
    let limit = a.limit.unwrap_or(50);
    if !a.confirm {
        Some(("clients.confirm_required"@, "confirm=true is required to prune clients."@))
    } else if !(given(a.search) || given(a.name) || given(a.client_id_prefix) || given(a.client_id_pattern)) {
        Some(
            (
                "clients.invalid_input"@,
                "At least one filter (search, name, client_id_prefix, client_id_pattern) is required."@,
            ),
        )
    } else if a.client_id_pattern is Some && !regex_compiles(a.client_id_pattern->0@) {
        Some(("clients.invalid_pattern"@, "Invalid client_id_pattern; must be a valid regex."@))
    } else if max == 0 || max > 200 {
        Some(("clients.invalid_input"@, "max must be between 1 and 200."@))
    } else if limit == 0 || limit > 200 {
        Some(("clients.invalid_input"@, "limit must be between 1 and 200."@))
    } else {
        None
    }
}

/// Checks a prune request and settles its defaults. The realm is checked first: a realm
/// that is not a valid realm name is refused before anything else.
pub fn prune_settings(args: &ClientsPruneArgs, request_id: &str) -> (r: Result<PruneSettings, Refusal>)
    ensures
        !valid_realm_name(args.realm@) ==> (r matches Err(Refusal::Protocol(e)) && e.code == INVALID_PARAMS
            && e.data is None && e.message@ == realm_error_message(args.realm@)),
        valid_realm_name(args.realm@) ==> match prune_refusal(*args) {
            None => r is Ok,
            Some((code, message)) => r matches Err(Refusal::Tool(e)) && e.code@ == code && e.message@ == message
                && e.request_id@ == request_id@ && bare(e),
        },
        r matches Ok(s) ==> valid_realm_name(args.realm@) && settings_follow(s, *args),
        r matches Err(Refusal::Tool(e)) ==> valid_realm_name(args.realm@) && prune_refusal(*args) == Some(
            (e.code@, e.message@),
        ) && e.request_id@ == request_id@ && bare(e),
{
    match validate_realm_name(args.realm.as_str()) {
        Err(e) => return Err(Refusal::Protocol(e)),
        Ok(()) => {},
    }
    match checked_prune_settings(args, request_id) {
        Err(e) => Err(Refusal::Tool(e)),
        Ok(s) => Ok(s),
    }
}

fn checked_prune_settings(args: &ClientsPruneArgs, request_id: &str) -> (r: Result<PruneSettings, ToolError>)
    ensures
        r is Ok <==> prune_refusal(*args) is None,
        r matches Ok(s) ==> settings_follow(s, *args),
        r matches Err(e) ==> prune_refusal(*args) == Some((e.code@, e.message@)) && e.request_id@ == request_id@ && bare(e),
{
    require_confirmation(args.confirm, "confirm=true is required to prune clients.", request_id)?;
    let has_filter = is_given(&args.search) || is_given(&args.name) || is_given(&args.client_id_prefix)
        || is_given(&args.client_id_pattern);
    if !has_filter {
        return Err(
            tool_error(
                "clients.invalid_input",
                "At least one filter (search, name, client_id_prefix, client_id_pattern) is required.",
                request_id,
            ),
        );
    }
    let pattern = match &args.client_id_pattern {
        Some(p) => match regex_new(p.as_str()) {
            Some(c) => Some(c),
            None => {
                return Err(
                    tool_error(
                        "clients.invalid_pattern",
                        "Invalid client_id_pattern; must be a valid regex.",
                        request_id,
                    ),
                );
            },
        },
        None => None,
    };
    let max = args.max.unwrap_or(200);
    if max == 0 || max > 200 {
        return Err(tool_error("clients.invalid_input", "max must be between 1 and 200.", request_id));
    }
    let limit = args.limit.unwrap_or(50);
    if limit == 0 || limit > 200 {
        return Err(tool_error("clients.invalid_input", "limit must be between 1 and 200.", request_id));
    }
    Ok(PruneSettings {
        max,
        limit,
        dry_run: args.dry_run.unwrap_or(true),
        action: args.action.unwrap_or(ClientsPruneAction::Disable),
        pattern,
    })
}

/// The request a prune makes for each client it processes: a deletion, or an update (PUT)
/// with the given body.
#[derive(Debug, PartialEq)]
pub enum PruneRequest {
    Delete,
    Update(JsonValue),
}

/// The request a prune makes for each processed client: `delete` deletes it, `disable`
/// updates it with `{"enabled": false}`.
pub fn prune_request(settings: &PruneSettings) -> (r: PruneRequest)
    ensures
        match settings.action {
            ClientsPruneAction::Delete => r is Delete,
            ClientsPruneAction::Disable => r matches PruneRequest::Update(JsonValue::Object(e)) && entry_views(e@)
                == seq![("enabled"@, JsonValue::Bool(false))],
        },
{
    match settings.action {
        ClientsPruneAction::Delete => PruneRequest::Delete,
        ClientsPruneAction::Disable => PruneRequest::Update(toggle_body(false)),
    }
}

/// The query of the listing a prune makes: `max`.
pub fn prune_query(settings: &PruneSettings) -> (q: Vec<(String, String)>)
    ensures
        q@.len() == 1 && q@[0].0@ == "max"@ && q@[0].1@ == decimal(settings.max as nat),
{
    let mut q: Vec<(String, String)> = Vec::new();
    q.push((String::from_str("max"), u32_to_decimal(settings.max)));
    q
}

/// The text a prune `search` is matched against: the `clientId`, a space, and the name (empty
/// when absent).
pub open spec fn prune_haystack(client_id: Seq<char>, name: Option<String>) -> Seq<char> {
    client_id + " "@ + crate::clients::search::opt_text(name)
}

/// Whether a listed client is selected by a prune request: it has a `clientId` that is not
/// excluded; its lowercased haystack contains the lowercased `search`; its name is `name`; its
/// `clientId` starts with `client_id_prefix` and matches `client_id_pattern` (each only when
/// given).
pub open spec fn prune_selects(a: ClientsPruneArgs, c: ClientRepresentation) -> bool {
    &&& c.client_id is Some
    &&& !(a.exclude_client_ids is Some && has_text(a.exclude_client_ids->0@, c.client_id->0@))
    &&& (a.search is Some ==> seq_contains(
        unicode_lowercase(prune_haystack(c.client_id->0@, c.name)),
        unicode_lowercase(a.search->0@),
    ))
    &&& (a.name is Some ==> (c.name is Some && c.name->0@ == a.name->0@))
    &&& (a.client_id_prefix is Some ==> seq_starts_with(c.client_id->0@, a.client_id_prefix->0@))
    &&& (a.client_id_pattern is Some ==> regex_matches(a.client_id_pattern->0@, c.client_id->0@))
}

/// The ids of the selected clients (those that have an id), in listing order.
pub open spec fn prune_matched(a: ClientsPruneArgs, clients: Seq<ClientRepresentation>) -> Seq<Seq<char>>
    decreases clients.len(),
{
    if clients.len() == 0 {
        Seq::empty()
    } else {
        let rest = prune_matched(a, clients.drop_last());
        let c = clients.last();
        if prune_selects(a, c) && c.id is Some {
            rest.push(c.id->0@)
        } else {
            rest
        }
    }
}

/// Every id of `ids` is the id of a listed client that passes every filter of the prune.
pub open spec fn each_from_passing_client(a: ClientsPruneArgs, clients: Seq<ClientRepresentation>, ids: Seq<Seq<char>>) -> bool {
    forall|k: int| #![trigger ids[k]]
        0 <= k < ids.len() ==> exists|j: int|
            #![trigger clients[j]]
            0 <= j < clients.len() && clients[j].id is Some && clients[j].id->0@ == ids[k] && prune_filters_pass(
                a,
                clients[j],
            )
}

/// What a prune selects, in terms of each filter: every returned id is the id of a listed
/// client that has a `clientId`, which is not excluded and starts with `client_id_prefix` and
/// matches `client_id_pattern` when they are given, whose name is `name` when given, and whose
/// lowercased `clientId`, a space and name contain the lowercased `search` when given. Every
/// listed client with an id that passes all given filters is returned.
pub proof fn law_prune_selects_by_every_filter(a: ClientsPruneArgs, clients: Seq<ClientRepresentation>)
    ensures
        each_from_passing_client(a, clients, prune_matched(a, clients)),
        forall|j: int| #![trigger clients[j]]
            0 <= j < clients.len() && clients[j].id is Some && prune_filters_pass(a, clients[j])
                ==> prune_matched(a, clients).contains(clients[j].id->0@),
{
    lemma_prune_matched_filters(a, clients);
}

proof fn lemma_prune_matched_filters(a: ClientsPruneArgs, clients: Seq<ClientRepresentation>)
    ensures
        each_from_passing_client(a, clients, prune_matched(a, clients)),
        forall|j: int| #![trigger clients[j]]
            0 <= j < clients.len() && clients[j].id is Some && prune_filters_pass(a, clients[j])
                ==> prune_matched(a, clients).contains(clients[j].id->0@),
        prune_matched(a, clients).len() <= clients.len(),
    decreases clients.len(),
{
    if clients.len() > 0 {
        let front = clients.drop_last();
        lemma_prune_matched_filters(a, front);
        let rest = prune_matched(a, front);
        let m = prune_matched(a, clients);
        let c = clients.last();
        lemma_prune_selects_is_filters(a, c);
        assert forall|k: int| #![trigger m[k]] 0 <= k < m.len() implies exists|j: int|
            #![trigger clients[j]]
            0 <= j < clients.len() && clients[j].id is Some && clients[j].id->0@ == m[k] && prune_filters_pass(
                a,
                clients[j],
            ) by {
            if k < rest.len() {
                assert(m[k] == rest[k]);
                let j = choose|j: int|
                    #![trigger front[j]]
                    0 <= j < front.len() && front[j].id is Some && front[j].id->0@ == rest[k] && prune_filters_pass(
                        a,
                        front[j],
                    );
                assert(clients[j] == front[j]);
            } else {
                assert(clients[clients.len() - 1] == c);
            }
        }
        assert forall|j: int| #![trigger clients[j]]
            0 <= j < clients.len() && clients[j].id is Some && prune_filters_pass(a, clients[j]) implies m.contains(
                clients[j].id->0@,
            ) by {
            if j < front.len() {
                assert(front[j] == clients[j]);
                assert(rest.contains(clients[j].id->0@));
                let k = choose|k: int| 0 <= k < rest.len() && rest[k] == clients[j].id->0@;
                if prune_selects(a, c) && c.id is Some {
                    assert(m[k] == rest[k]);
                } else {
                    assert(m[k] == rest[k]);
                }
            } else {
                assert(clients[j] == c);
                assert(m[m.len() - 1] == c.id->0@);
            }
        }
        assert(each_from_passing_client(a, clients, m));
    } else {
        assert(prune_matched(a, clients) =~= Seq::<Seq<char>>::empty());
        assert(each_from_passing_client(a, clients, prune_matched(a, clients)));
    }
}

/// The selection of a prune is exactly the conjunction of its filters.
proof fn lemma_prune_selects_is_filters(a: ClientsPruneArgs, c: ClientRepresentation)
    ensures
        prune_selects(a, c) <==> prune_filters_pass(a, c),
{
    reveal_strlit(" ");
    assert(" "@ =~= seq![' ']);
    if c.client_id is Some {
        let cid = c.client_id->0@;
        assert(prune_haystack(cid, c.name) =~= cid + seq![' '] + match c.name {
            Some(n) => n@,
            None => Seq::<char>::empty(),
        });
        match a.exclude_client_ids {
            Some(ex) => {
                if has_text(ex@, cid) {
                    let k = choose|k: int| 0 <= k < ex@.len() && (#[trigger] ex@[k])@ == cid;
                    assert(ex@[k]@ == cid);
                }
            },
            None => {},
        }
    }
}

/// The filters of a prune, each stated on its own over a listed client.
pub open spec fn prune_filters_pass(a: ClientsPruneArgs, c: ClientRepresentation) -> bool {
    &&& c.client_id matches Some(cid)
    &&& match a.exclude_client_ids {
        Some(ex) => forall|k: int| 0 <= k < ex@.len() ==> (#[trigger] ex@[k])@ != c.client_id->0@,
        None => true,
    }
    &&& match a.client_id_prefix {
        Some(p) => seq_starts_with(c.client_id->0@, p@),
        None => true,
    }
    &&& match a.client_id_pattern {
        Some(p) => regex_matches(p@, c.client_id->0@),
        None => true,
    }
    &&& match a.name {
        Some(n) => c.name matches Some(cn) && cn@ == n@,
        None => true,
    }
    &&& match a.search {
        Some(s) => seq_contains(
            unicode_lowercase(c.client_id->0@ + seq![' '] + match c.name {
                Some(n) => n@,
                None => Seq::empty(),
            }),
            unicode_lowercase(s@),
        ),
        None => true,
    }
}

/// Whether one listed client is selected.
fn prune_selects_client(
    args: &ClientsPruneArgs,
    settings: &PruneSettings,
    search: &Option<String>,
    c: &ClientRepresentation,
) -> (r: bool)
    requires
        settings_follow(*settings, *args),
        search matches Some(t) ==> (args.search matches Some(s) && t@ == unicode_lowercase(s@)),
        search is None <==> args.search is None,
    ensures
        r == prune_selects(*args, *c),
{
    let client_id = match &c.client_id {
        Some(x) => x,
        None => {
            return false;
        },
    };
    match &args.exclude_client_ids {
        Some(ex) => {
            if contains_text(ex, client_id) {
                return false;
            }
        },
        None => {},
    }
    match search {
        Some(term) => {
            let mut hay = client_id.clone();
            hay.append(" ");
            match &c.name {
                Some(n) => {
                    hay.append(n.as_str());
                },
                None => {},
            }
            proof {
                assert(hay@ =~= prune_haystack(client_id@, c.name));
            }
            let lowered = to_unicode_lowercase(hay.as_str());
            if !str_contains(lowered.as_str(), term.as_str()) {
                return false;
            }
        },
        None => {},
    }
    match &args.name {
        Some(want) => match &c.name {
            Some(n) => {
                if !str_eq(n.as_str(), want.as_str()) {
                    return false;
                }
            },
            None => {
                return false;
            },
        },
        None => {},
    }
    match &args.client_id_prefix {
        Some(prefix) => {
            if !str_starts_with(client_id.as_str(), prefix.as_str()) {
                return false;
            }
        },
        None => {},
    }
    match &settings.pattern {
        Some(re) => {
            if !regex_is_match(re, client_id.as_str()) {
                return false;
            }
        },
        None => {},
    }
    true
}

/// The ids of the listed clients a prune selects, in listing order.
pub fn prune_matches(args: &ClientsPruneArgs, settings: &PruneSettings, clients: &[ClientRepresentation]) -> (r: Vec<
    String,
>)
    requires
        settings_follow(*settings, *args),
    ensures
        crate::text::string_views(r@) == prune_matched(*args, clients@),
{
    let search = match &args.search {
        Some(s) => Some(to_unicode_lowercase(s.as_str())),
        None => None,
    };
    let mut out: Vec<String> = Vec::new();
    let n = clients.len();
    for i in 0..n
        invariant
            n == clients@.len(),
            settings_follow(*settings, *args),
            search matches Some(t) ==> (args.search matches Some(s) && t@ == unicode_lowercase(s@)),
            search is None <==> args.search is None,
            crate::text::string_views(out@) == prune_matched(*args, clients@.take(i as int)),
    {
        assert(clients@.take(i + 1).drop_last() =~= clients@.take(i as int));
        assert(clients@.take(i + 1).last() == clients@[i as int]);
        let c = &clients[i];
        if prune_selects_client(args, settings, &search, c) {
            match &c.id {
                Some(id) => {
                    let ghost before = out@;
                    out.push(id.clone());
                    assert(crate::text::string_views(out@) =~= crate::text::string_views(before).push(id@));
                },
                None => {},
            }
        }
    }
    assert(clients@.take(n as int) =~= clients@);
    out
}

/// The result of a prune: the action, every matched id, and the first `limit` of them as
/// processed, or as skipped in a dry run.
#[derive(Debug, PartialEq)]
pub struct PruneSummary {
    pub dry_run: bool,
    pub action: String,
    pub matched: Vec<String>,
    pub processed: Vec<String>,
    pub skipped: Vec<String>,
}

/// The label of a prune action.
pub open spec fn prune_action_label(a: ClientsPruneAction) -> Seq<char> {
    match a {
        ClientsPruneAction::Delete => "delete"@,
        ClientsPruneAction::Disable => "disable"@,
    }
}

/// Summarizes a prune; outside a dry run, `processed` lists the clients to disable or
/// delete, in order.
pub fn prune_summary(settings: &PruneSettings, matched: Vec<String>) -> (s: PruneSummary)
    ensures
        s.dry_run == settings.dry_run,
        s.action@ == prune_action_label(settings.action),
        s.matched == matched,
        settings.dry_run ==> s.processed@.len() == 0 && s.skipped@ == matched@.take(
            if matched@.len() < settings.limit { matched@.len() as int } else { settings.limit as int },
        ),
        !settings.dry_run ==> s.skipped@.len() == 0 && s.processed@ == matched@.take(
            if matched@.len() < settings.limit { matched@.len() as int } else { settings.limit as int },
        ),
{
    let mut limited: Vec<String> = Vec::new();
    let n: usize = if matched.len() < settings.limit as usize { matched.len() } else { settings.limit as usize };
    for i in 0..n
        invariant
            n <= matched@.len(),
            limited@ == matched@.take(i as int),
    {
        limited.push(matched[i].clone());
        assert(limited@ =~= matched@.take(i + 1));
    }
    let action = match settings.action {
        ClientsPruneAction::Delete => String::from_str("delete"),
        ClientsPruneAction::Disable => String::from_str("disable"),
    };
    if settings.dry_run {
        PruneSummary { dry_run: true, action, matched, processed: Vec::new(), skipped: limited }
    } else {
        PruneSummary { dry_run: false, action, matched, processed: limited, skipped: Vec::new() }
    }
}

} // verus!
